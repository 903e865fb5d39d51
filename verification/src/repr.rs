use vstd::prelude::*;
use crate::lookup::str_eq;
use crate::model::Attribute;

verus! {

/// The integer type a C-style enum is represented by: `u8` unless a
/// `#[repr(u16)]` says otherwise.
#[derive(Debug, Clone, Copy, PartialEq, Eq, Structural)]
pub enum ReprSize {
    U8,
    U16,
}

/// The attribute is a `#[repr(..)]`.
pub open spec fn is_repr(a: Attribute) -> bool {
    a.path@ == "repr"@
}

/// Every size that a `#[repr(..)]` names is `u8` or `u16`: the derives handle
/// no other representation.
pub open spec fn repr_sizes_supported(attrs: Seq<Attribute>) -> bool {
    forall|i: int, j: int|
        0 <= i < attrs.len() && is_repr(attrs[i]) && 0 <= j < attrs[i].nested@.len() ==> {
            ||| #[trigger] attrs[i].nested@[j]@ == "u8"@
            ||| attrs[i].nested@[j]@ == "u16"@
        }
}

/// Some `#[repr(..)]` names `u16`.
pub open spec fn repr_names_u16(attrs: Seq<Attribute>) -> bool {
    exists|i: int, j: int|
        0 <= i < attrs.len() && is_repr(attrs[i]) && 0 <= j < attrs[i].nested@.len()
            && #[trigger] attrs[i].nested@[j]@ == "u16"@
}

/// The representation read from the attributes: `U16` if a `#[repr(..)]` names
/// `u16`, else `U8`.
pub open spec fn spec_repr_size(attrs: Seq<Attribute>) -> ReprSize {
    if repr_names_u16(attrs) {
        ReprSize::U16
    } else {
        ReprSize::U8
    }
}

/// Whether every size that a `#[repr(..)]` names is `u8` or `u16`, as `repr_size`
/// requires.
pub fn repr_sizes_ok(attrs: &Vec<Attribute>) -> (r: bool)
    ensures
        r == repr_sizes_supported(attrs@),
{
    let mut i: usize = 0;
    while i < attrs.len()
        invariant
            i <= attrs@.len(),
            forall|k: int, j: int|
                0 <= k < i && is_repr(attrs@[k]) && 0 <= j < attrs@[k].nested@.len() ==> {
                    ||| #[trigger] attrs@[k].nested@[j]@ == "u8"@
                    ||| attrs@[k].nested@[j]@ == "u16"@
                },
        decreases attrs@.len() - i,
    {
        let attr = &attrs[i];
        if str_eq(attr.path.as_str(), "repr") {
            let mut j: usize = 0;
            while j < attr.nested.len()
                invariant
                    i < attrs@.len(),
                    *attr == attrs@[i as int],
                    is_repr(attrs@[i as int]),
                    j <= attr.nested@.len(),
                    forall|k: int, m: int|
                        0 <= k < i && is_repr(attrs@[k]) && 0 <= m < attrs@[k].nested@.len() ==> {
                            ||| #[trigger] attrs@[k].nested@[m]@ == "u8"@
                            ||| attrs@[k].nested@[m]@ == "u16"@
                        },
                    forall|m: int| 0 <= m < j ==> {
                        ||| #[trigger] attr.nested@[m]@ == "u8"@
                        ||| attr.nested@[m]@ == "u16"@
                    },
                decreases attr.nested@.len() - j,
            {
                let name = attr.nested[j].as_str();
                if !str_eq(name, "u8") && !str_eq(name, "u16") {
                    assert(!repr_sizes_supported(attrs@)) by {
                        assert(attrs@[i as int].nested@[j as int]@ != "u8"@);
                        assert(attrs@[i as int].nested@[j as int]@ != "u16"@);
                    }
                    return false;
                }
                j = j + 1;
            }
        }
        assert forall|k: int, m: int|
            0 <= k < i + 1 && is_repr(attrs@[k]) && 0 <= m < attrs@[k].nested@.len() implies {
                ||| #[trigger] attrs@[k].nested@[m]@ == "u8"@
                ||| attrs@[k].nested@[m]@ == "u16"@
            } by {
            if k == i {
                assert(attrs@[k].nested@[m] == attr.nested@[m]);
            }
        }
        i = i + 1;
    }
    true
}

/// Reads the representation size from an item's attributes: each path inside
/// every `#[repr(..)]` is looked at in turn, `u8` keeping the size and `u16`
/// setting it to `U16`.
///
/// The derives refuse, by panicking, any other size; such attributes are left out.
pub fn repr_size(attrs: &Vec<Attribute>) -> (r: ReprSize)
    requires
        repr_sizes_supported(attrs@),
    ensures
        r == spec_repr_size(attrs@),
{
    let mut size = ReprSize::U8;
    let mut i: usize = 0;
    while i < attrs.len()
        invariant
            i <= attrs@.len(),
            size == ReprSize::U16 <==> exists|k: int, j: int|
                0 <= k < i && is_repr(attrs@[k]) && 0 <= j < attrs@[k].nested@.len()
                    && #[trigger] attrs@[k].nested@[j]@ == "u16"@,
        decreases attrs@.len() - i,
    {
        let attr = &attrs[i];
        if str_eq(attr.path.as_str(), "repr") {
            let mut j: usize = 0;
            while j < attr.nested.len()
                invariant
                    i < attrs@.len(),
                    *attr == attrs@[i as int],
                    is_repr(attrs@[i as int]),
                    j <= attr.nested@.len(),
                    size == ReprSize::U16 <==> (exists|k: int, m: int|
                        0 <= k < i && is_repr(attrs@[k]) && 0 <= m < attrs@[k].nested@.len()
                            && #[trigger] attrs@[k].nested@[m]@ == "u16"@)
                        || (exists|m: int| 0 <= m < j && #[trigger] attr.nested@[m]@ == "u16"@),
                decreases attr.nested@.len() - j,
            {
                if str_eq(attr.nested[j].as_str(), "u16") {
                    size = ReprSize::U16;
                    assert(attr.nested@[j as int]@ == "u16"@);
                }
                j = j + 1;
            }
            assert(size == ReprSize::U16 <==> exists|k: int, m: int|
                0 <= k < i + 1 && is_repr(attrs@[k]) && 0 <= m < attrs@[k].nested@.len()
                    && #[trigger] attrs@[k].nested@[m]@ == "u16"@) by {
                if size == ReprSize::U16 {
                    if !(exists|k: int, m: int|
                        0 <= k < i && is_repr(attrs@[k]) && 0 <= m < attrs@[k].nested@.len()
                            && #[trigger] attrs@[k].nested@[m]@ == "u16"@) {
                        let m = choose|m: int| 0 <= m < j && #[trigger] attr.nested@[m]@ == "u16"@;
                        assert(attrs@[i as int].nested@[m]@ == "u16"@);
                    }
                }
            }
        } else {
            assert(!is_repr(attrs@[i as int]));
        }
        i = i + 1;
    }
    size
}

} // verus!
