use vstd::prelude::*;
use crate::lookup::{
    lemma_position_of, lemma_position_of_is, lemma_position_of_none, position_of, str_eq,
};
use crate::model::{
    discriminants, discriminants_fit, fitting_discriminants, spec_discriminants, Data, DeriveInput, Fields, Variant,
};
use crate::repr::{repr_size, repr_sizes_ok, repr_sizes_supported, spec_repr_size, ReprSize};

verus! {

/// Every variant is a unit variant: the enum is C-style.
pub open spec fn all_unit(vs: Seq<Variant>) -> bool {
    forall|i: int| 0 <= i < vs.len() ==> #[trigger] vs[i].fields is Unit
}

/// Whether every variant is a unit variant.
pub fn all_unit_variants(variants: &Vec<Variant>) -> (r: bool)
    ensures
        r == all_unit(variants@),
{
    let mut i: usize = 0;
    while i < variants.len()
        invariant
            i <= variants@.len(),
            forall|j: int| 0 <= j < i ==> #[trigger] variants@[j].fields is Unit,
        decreases variants@.len() - i,
    {
        match variants[i].fields {
            Fields::Unit => {},
            _ => {
                return false;
            },
        }
        i = i + 1;
    }
    true
}

/// No two variants share a name.
pub open spec fn distinct_idents(vs: Seq<Variant>) -> bool {
    forall|i: int, j: int|
        0 <= i < vs.len() && 0 <= j < vs.len() && i != j ==> #[trigger] vs[i].ident@ != #[trigger] vs[j].ident@
}

// ---------------------------------------------------------------------------
// FromStr
// ---------------------------------------------------------------------------

/// The positions of the unit variants (those without fields), in order.
pub open spec fn unit_positions(vs: Seq<Variant>) -> Seq<int>
    decreases vs.len(),
{
    if vs.len() == 0 {
        Seq::empty()
    } else {
        let p = unit_positions(vs.drop_last());
        if vs.last().fields is Unit {
            p.push(vs.len() - 1)
        } else {
            p
        }
    }
}

/// The unit positions are increasing positions of unit variants, and every unit
/// variant is among them.
pub proof fn lemma_unit_positions(vs: Seq<Variant>)
    ensures
        forall|k: int|
            0 <= k < unit_positions(vs).len() ==> {
                &&& 0 <= #[trigger] unit_positions(vs)[k] < vs.len()
                &&& vs[unit_positions(vs)[k]].fields is Unit
            },
        forall|k1: int, k2: int|
            0 <= k1 < k2 < unit_positions(vs).len() ==> #[trigger] unit_positions(vs)[k1]
                < #[trigger] unit_positions(vs)[k2],
        forall|i: int|
            0 <= i < vs.len() && (#[trigger] vs[i]).fields is Unit ==> exists|k: int|
                0 <= k < unit_positions(vs).len() && #[trigger] unit_positions(vs)[k] == i,
    decreases vs.len(),
{
    if vs.len() > 0 {
        let prev = vs.drop_last();
        lemma_unit_positions(prev);
        let p = unit_positions(prev);
        assert forall|i: int| 0 <= i < vs.len() && (#[trigger] vs[i]).fields is Unit implies exists|k: int|
            0 <= k < unit_positions(vs).len() && #[trigger] unit_positions(vs)[k] == i by {
            if i < vs.len() - 1 {
                assert(prev[i] == vs[i]);
                let k = choose|k: int| 0 <= k < p.len() && #[trigger] p[k] == i;
                assert(unit_positions(vs)[k] == i);
            } else {
                assert(unit_positions(vs)[p.len() as int] == i);
            }
        }
    }
}

/// One arm of a derived `from_str`: the string `literal` gives the variant
/// `variant`, at position `position` among the enum's variants.
#[derive(Debug)]
pub struct FromStrArm {
    pub literal: String,
    pub variant: String,
    pub position: usize,
}

/// A derived `FromStr` implementation: a `match` on the input string with one arm
/// per unit variant, in declaration order, and an error for any other string.
#[derive(Debug)]
pub struct FromStrImpl {
    pub enum_name: String,
    pub arms: Vec<FromStrArm>,
}

/// The strings the arms of a derived `from_str` match, in order.
pub open spec fn arm_literals(arms: Seq<FromStrArm>) -> Seq<Seq<char>> {
    Seq::new(arms.len(), |i: int| arms[i].literal@)
}

/// `imp` is the `FromStr` implementation derived for the enum `name` with variants
/// `vs`: one arm per unit variant, in order, matching the variant's own name.
/// Variants with fields get no arm.
pub open spec fn from_str_impl_of(imp: FromStrImpl, name: Seq<char>, vs: Seq<Variant>) -> bool {
    &&& imp.enum_name@ == name
    &&& imp.arms@.len() == unit_positions(vs).len()
    &&& forall|k: int|
        0 <= k < imp.arms@.len() ==> {
            &&& (#[trigger] imp.arms@[k]).position == unit_positions(vs)[k]
            &&& imp.arms@[k].literal@ == vs[unit_positions(vs)[k]].ident@
            &&& imp.arms@[k].variant@ == vs[unit_positions(vs)[k]].ident@
        }
}

impl FromStrImpl {
    /// What the derived `from_str` returns for `s`: the position of the first
    /// variant whose arm matches `s`, or the error `"no corresponding variant"`.
    pub fn from_str(&self, s: &str) -> (r: Result<usize, &'static str>)
        ensures
            match position_of(arm_literals(self.arms@), s@) {
                Some(k) => r == Ok::<usize, &'static str>(self.arms@[k].position),
                None => r matches Err(e) && e@ == "no corresponding variant"@,
            },
    {
        let ghost lits = arm_literals(self.arms@);
        let mut i: usize = 0;
        while i < self.arms.len()
            invariant
                i <= self.arms@.len(),
                lits == arm_literals(self.arms@),
                forall|j: int| 0 <= j < i ==> #[trigger] lits[j] != s@,
            decreases self.arms@.len() - i,
        {
            if str_eq(self.arms[i].literal.as_str(), s) {
                proof {
                    lemma_position_of_is(lits, s@, i as int);
                }
                return Ok(self.arms[i].position);
            }
            assert(lits[i as int] != s@);
            i = i + 1;
        }
        proof {
            lemma_position_of_none(lits, s@);
        }
        Err("no corresponding variant")
    }
}

/// The arm of a derived `from_str` for the variant at position `position`: a unit
/// variant has one, a variant with fields has none.
fn build_fromstr_arm(variant: &Variant, position: usize) -> (r: Option<FromStrArm>)
    ensures
        variant.fields is Unit ==> (r matches Some(arm) && arm.literal@ == variant.ident@
            && arm.variant@ == variant.ident@ && arm.position == position),
        !(variant.fields is Unit) ==> r is None,
{
    match variant.fields {
        Fields::Unit => Some(
            FromStrArm { literal: variant.ident.clone(), variant: variant.ident.clone(), position },
        ),
        _ => None,
    }
}

/// The `FromStr` implementation for the enum `ast` with variants `variants`.
pub fn impl_from_str(ast: &DeriveInput, variants: &Vec<Variant>) -> (imp: FromStrImpl)
    ensures
        from_str_impl_of(imp, ast.ident@, variants@),
{
    let mut arms: Vec<FromStrArm> = Vec::new();
    let mut i: usize = 0;
    assert(variants@.take(0) =~= Seq::<Variant>::empty());
    while i < variants.len()
        invariant
            i <= variants@.len(),
            arms@.len() == unit_positions(variants@.take(i as int)).len(),
            forall|k: int|
                0 <= k < arms@.len() ==> {
                    &&& (#[trigger] arms@[k]).position == unit_positions(variants@.take(i as int))[k]
                    &&& arms@[k].literal@ == variants@[unit_positions(variants@.take(i as int))[k]].ident@
                    &&& arms@[k].variant@ == variants@[unit_positions(variants@.take(i as int))[k]].ident@
                },
        decreases variants@.len() - i,
    {
        let ghost before = variants@.take(i as int);
        let ghost after = variants@.take(i + 1);
        assert(after.drop_last() =~= before);
        assert(after.last() == variants@[i as int]);
        proof {
            lemma_unit_positions(before);
        }
        match build_fromstr_arm(&variants[i], i) {
            Some(arm) => {
                arms.push(arm);
            },
            None => {},
        }
        proof {
            assert forall|k: int| 0 <= k < unit_positions(before).len() implies #[trigger] variants@[unit_positions(before)[k]]
                == before[unit_positions(before)[k]] by {}
        }
        i = i + 1;
    }
    assert(variants@.take(variants@.len() as int) =~= variants@);
    FromStrImpl { enum_name: ast.ident.clone(), arms }
}

/// Derives `FromStr` for an enum: each unit variant is parsed from its own name,
/// and every other string is refused.
///
/// The derive is only for enums: it refuses anything else by panicking, so that
/// input is left out.
pub fn from_str(ast: &DeriveInput) -> (imp: FromStrImpl)
    requires
        ast.data is Enum,
    ensures
        ast.data matches Data::Enum(vs) && from_str_impl_of(imp, ast.ident@, vs@),
{
    match &ast.data {
        Data::Enum(variants) => impl_from_str(ast, variants),
        _ => {
            proof {
                assert(false);
            }
            FromStrImpl { enum_name: ast.ident.clone(), arms: Vec::new() }
        },
    }
}

/// A derived `from_str` gives back each unit variant from its name, when no two
/// variants share a name.
pub proof fn law_from_str_finds_variant(imp: FromStrImpl, name: Seq<char>, vs: Seq<Variant>, i: int)
    requires
        from_str_impl_of(imp, name, vs),
        distinct_idents(vs),
        0 <= i < vs.len(),
        vs[i].fields is Unit,
    ensures
        position_of(arm_literals(imp.arms@), vs[i].ident@) matches Some(k)
            && imp.arms@[k].position == i,
{
    lemma_unit_positions(vs);
    let up = unit_positions(vs);
    assert(vs[i].fields is Unit);
    let k = choose|k: int| 0 <= k < up.len() && #[trigger] up[k] == i;
    assert forall|j: int| 0 <= j < k implies #[trigger] arm_literals(imp.arms@)[j] != vs[i].ident@ by {
        assert(imp.arms@[j].literal@ == vs[up[j]].ident@);
        assert(up[j] < up[k]);
    }
    assert(imp.arms@[k].literal@ == vs[up[k]].ident@);
    lemma_position_of_is(arm_literals(imp.arms@), vs[i].ident@, k);
}

/// A derived `from_str` refuses every string that is no unit variant's name.
pub proof fn law_from_str_refuses_unknown(imp: FromStrImpl, name: Seq<char>, vs: Seq<Variant>, s: Seq<char>)
    requires
        from_str_impl_of(imp, name, vs),
        forall|i: int| 0 <= i < vs.len() && (#[trigger] vs[i]).fields is Unit ==> vs[i].ident@ != s,
    ensures
        position_of(arm_literals(imp.arms@), s) is None,
{
    lemma_unit_positions(vs);
    let up = unit_positions(vs);
    assert forall|j: int| 0 <= j < arm_literals(imp.arms@).len() implies #[trigger] arm_literals(imp.arms@)[j] != s by {
        assert(imp.arms@[j].literal@ == vs[up[j]].ident@);
        assert(vs[up[j]].fields is Unit);
    }
    lemma_position_of_none(arm_literals(imp.arms@), s);
}

/// What a derived `from_str` accepts is the name of the unit variant it gives.
pub proof fn law_from_str_gives_named_variant(imp: FromStrImpl, name: Seq<char>, vs: Seq<Variant>, s: Seq<char>)
    requires
        from_str_impl_of(imp, name, vs),
    ensures
        position_of(arm_literals(imp.arms@), s) matches Some(k) ==> {
            &&& 0 <= imp.arms@[k].position < vs.len()
            &&& vs[imp.arms@[k].position as int].ident@ == s
            &&& vs[imp.arms@[k].position as int].fields is Unit
        },
{
    lemma_unit_positions(vs);
    lemma_position_of(arm_literals(imp.arms@), s);
}

// ---------------------------------------------------------------------------
// TryFrom
// ---------------------------------------------------------------------------

/// The value a discriminant has as the enum's representation type: `d as u8` or `d as u16`.
pub open spec fn repr_value(repr: ReprSize, d: i64) -> int {
    match repr {
        ReprSize::U8 => (d as u8) as int,
        ReprSize::U16 => (d as u16) as int,
    }
}

/// As a `u8`, a discriminant is its remainder modulo 256; as a `u16`, its
/// remainder modulo 65536: the representation keeps the low bits.
pub proof fn law_repr_value_keeps_low_bits(d: i64)
    ensures
        repr_value(ReprSize::U8, d) == d % 256,
        repr_value(ReprSize::U16, d) == d % 65536,
        0 <= repr_value(ReprSize::U8, d) <= 255,
        0 <= repr_value(ReprSize::U16, d) <= 65535,
{
    assert((d as u8) as i64 == d % 256) by (bit_vector);
    assert((d as u16) as i64 == d % 65536) by (bit_vector);
}

/// No two discriminants have the same value as the representation type.
pub open spec fn distinct_repr_values(repr: ReprSize, ds: Seq<i64>) -> bool {
    forall|i: int, j: int|
        0 <= i < ds.len() && 0 <= j < ds.len() && i != j ==> repr_value(repr, #[trigger] ds[i])
            != repr_value(repr, #[trigger] ds[j])
}

/// One arm of a derived `try_from`: the value of `discriminant` gives the variant `variant`.
#[derive(Debug)]
pub struct TryFromArm {
    pub variant: String,
    pub discriminant: i64,
}

/// A derived `TryFrom<u8>` or `TryFrom<u16>` implementation: a `match` on the
/// number with one arm per variant, in declaration order, and an error for any
/// other number.
#[derive(Debug)]
pub struct TryFromImpl {
    pub enum_name: String,
    pub repr: ReprSize,
    pub arms: Vec<TryFromArm>,
}

/// The discriminants the arms of a derived `try_from` compare with, in order.
pub open spec fn arm_discriminants(arms: Seq<TryFromArm>) -> Seq<i64> {
    Seq::new(arms.len(), |i: int| arms[i].discriminant)
}

/// The numbers the arms of a derived `try_from` match, in order.
pub open spec fn arm_values(repr: ReprSize, arms: Seq<TryFromArm>) -> Seq<int> {
    Seq::new(arms.len(), |i: int| repr_value(repr, arms[i].discriminant))
}

/// `imp` is the `TryFrom` implementation derived for the enum `name` with variants
/// `vs` and representation `repr`: one arm per variant, in order, comparing with
/// the variant's discriminant.
pub open spec fn try_from_impl_of(imp: TryFromImpl, name: Seq<char>, repr: ReprSize, vs: Seq<Variant>) -> bool {
    &&& imp.enum_name@ == name
    &&& imp.repr == repr
    &&& imp.arms@.len() == vs.len()
    &&& forall|i: int|
        0 <= i < vs.len() ==> {
            &&& (#[trigger] imp.arms@[i]).variant@ == vs[i].ident@
            &&& imp.arms@[i].discriminant == spec_discriminants(vs)[i]
        }
}

/// The number `d` has as the representation type, computed as the derived code does.
fn repr_cast(repr: ReprSize, d: i64) -> (v: u16)
    ensures
        v == repr_value(repr, d),
{
    match repr {
        ReprSize::U8 => (d as u8) as u16,
        ReprSize::U16 => d as u16,
    }
}

/// The position of the first arm whose discriminant has the value `value` as the
/// representation type.
pub(crate) fn find_arm(repr: ReprSize, arms: &Vec<TryFromArm>, value: u16) -> (r: Option<usize>)
    ensures
        match position_of(arm_values(repr, arms@), value as int) {
            Some(i) => r == Some(i as usize),
            None => r is None,
        },
{
    let ghost vals = arm_values(repr, arms@);
    let mut i: usize = 0;
    while i < arms.len()
        invariant
            i <= arms@.len(),
            vals == arm_values(repr, arms@),
            forall|j: int| 0 <= j < i ==> #[trigger] vals[j] != value,
        decreases arms@.len() - i,
    {
        if repr_cast(repr, arms[i].discriminant) == value {
            proof {
                lemma_position_of_is(vals, value as int, i as int);
            }
            return Some(i);
        }
        i = i + 1;
    }
    proof {
        lemma_position_of_none(vals, value as int);
    }
    None
}

impl TryFromImpl {
    /// What the derived `try_from` returns for `value`: the position of the first
    /// variant whose discriminant is `value`, or the error
    /// `"no variant corresponding to value"`.
    ///
    /// For a `u8` representation the derived function takes a `u8`, so `value` is one.
    pub fn try_from(&self, value: u16) -> (r: Result<usize, &'static str>)
        requires
            self.repr == ReprSize::U8 ==> value <= u8::MAX,
        ensures
            match position_of(arm_values(self.repr, self.arms@), value as int) {
                Some(i) => r == Ok::<usize, &'static str>(i as usize),
                None => r matches Err(e) && e@ == "no variant corresponding to value"@,
            },
    {
        match find_arm(self.repr, &self.arms, value) {
            Some(i) => Ok(i),
            None => Err("no variant corresponding to value"),
        }
    }
}

/// The arm of a derived `try_from` for one variant with discriminant `d`.
fn build_tryfrom_arm(variant: &Variant, d: i64) -> (arm: TryFromArm)
    ensures
        arm.variant@ == variant.ident@,
        arm.discriminant == d,
{
    TryFromArm { variant: variant.ident.clone(), discriminant: d }
}

/// The arms for all variants, given their discriminants.
pub(crate) fn build_arms(variants: &Vec<Variant>, ds: &Vec<i64>) -> (arms: Vec<TryFromArm>)
    requires
        ds@.len() == variants@.len(),
        forall|j: int| 0 <= j < ds@.len() ==> ds@[j] == #[trigger] spec_discriminants(variants@)[j],
    ensures
        arms@.len() == variants@.len(),
        forall|j: int|
            0 <= j < variants@.len() ==> {
                &&& (#[trigger] arms@[j]).variant@ == variants@[j].ident@
                &&& arms@[j].discriminant == spec_discriminants(variants@)[j]
            },
{
    let mut arms: Vec<TryFromArm> = Vec::new();
    let mut i: usize = 0;
    while i < variants.len()
        invariant
            i <= variants@.len(),
            ds@.len() == variants@.len(),
            forall|j: int| 0 <= j < ds@.len() ==> ds@[j] == #[trigger] spec_discriminants(variants@)[j],
            arms@.len() == i,
            forall|j: int|
                0 <= j < i ==> {
                    &&& (#[trigger] arms@[j]).variant@ == variants@[j].ident@
                    &&& arms@[j].discriminant == spec_discriminants(variants@)[j]
                },
        decreases variants@.len() - i,
    {
        arms.push(build_tryfrom_arm(&variants[i], ds[i]));
        i = i + 1;
    }
    arms
}

/// The `TryFrom` implementation for the C-style enum `ast` with variants `variants`.
pub fn impl_try_from(ast: &DeriveInput, variants: &Vec<Variant>) -> (imp: TryFromImpl)
    requires
        repr_sizes_supported(ast.attrs@),
        discriminants_fit(variants@),
        all_unit(variants@),
    ensures
        try_from_impl_of(imp, ast.ident@, spec_repr_size(ast.attrs@), variants@),
{
    let repr = repr_size(&ast.attrs);
    let ds = fitting_discriminants(variants);
    let arms = build_arms(variants, &ds);
    TryFromImpl { enum_name: ast.ident.clone(), repr, arms }
}

/// Whether the enum can be given a derived `TryFrom`: it is C-style (the derived
/// `V as u8` compiles for unit variants only), its `#[repr(..)]` sizes are `u8`
/// or `u16`, and its discriminants fit an `i64`, as `try_from` requires.
pub open spec fn try_from_derivable(ast: DeriveInput) -> bool {
    &&& ast.data matches Data::Enum(vs) && discriminants_fit(vs@) && all_unit(vs@)
    &&& repr_sizes_supported(ast.attrs@)
}

/// Whether the enum can be given a derived `TryFrom`, as `try_from` requires.
pub fn try_from_supported(ast: &DeriveInput) -> (r: bool)
    ensures
        r == try_from_derivable(*ast),
{
    match &ast.data {
        Data::Enum(variants) => repr_sizes_ok(&ast.attrs) && discriminants(variants).is_some()
            && all_unit_variants(variants),
        _ => false,
    }
}

/// Derives `TryFrom<u8>` (or `TryFrom<u16>` under `#[repr(u16)]`) for an enum:
/// each number that is a variant's discriminant gives that variant.
///
/// The derive refuses, by panicking, anything but an enum and a `#[repr(..)]`
/// other than `u8` or `u16`; the language refuses discriminants that overflow and
/// the code derived for an enum with fields. Those inputs are left out.
pub fn try_from(ast: &DeriveInput) -> (imp: TryFromImpl)
    requires
        try_from_derivable(*ast),
    ensures
        ast.data matches Data::Enum(vs) && try_from_impl_of(imp, ast.ident@, spec_repr_size(ast.attrs@), vs@),
{
    match &ast.data {
        Data::Enum(variants) => impl_try_from(ast, variants),
        _ => {
            proof {
                assert(false);
            }
            TryFromImpl { enum_name: ast.ident.clone(), repr: ReprSize::U8, arms: Vec::new() }
        },
    }
}

/// The arms whose discriminants have distinct values find each other: looking up
/// the value of arm `i` gives `i`.
pub proof fn law_try_from_finds_variant_values(repr: ReprSize, arms: Seq<TryFromArm>, i: int)
    requires
        distinct_repr_values(repr, arm_discriminants(arms)),
        0 <= i < arms.len(),
    ensures
        position_of(arm_values(repr, arms), repr_value(repr, arms[i].discriminant)) == Some(i),
{
    let v = repr_value(repr, arms[i].discriminant);
    let ds = arm_discriminants(arms);
    assert forall|j: int| 0 <= j < i implies #[trigger] arm_values(repr, arms)[j] != v by {
        assert(ds[j] == arms[j].discriminant);
        assert(ds[i] == arms[i].discriminant);
    }
    lemma_position_of_is(arm_values(repr, arms), v, i);
}

/// A derived `try_from` gives back each variant from its discriminant, when no
/// two discriminants have the same value as the representation type.
pub proof fn law_try_from_finds_variant(imp: TryFromImpl, i: int)
    requires
        distinct_repr_values(imp.repr, arm_discriminants(imp.arms@)),
        0 <= i < imp.arms@.len(),
    ensures
        position_of(arm_values(imp.repr, imp.arms@), repr_value(imp.repr, imp.arms@[i].discriminant)) == Some(i),
{
    law_try_from_finds_variant_values(imp.repr, imp.arms@, i);
}

/// What a derived `try_from` accepts is the value of the discriminant of the
/// variant it gives.
pub proof fn law_try_from_gives_matching_variant(imp: TryFromImpl, value: int)
    ensures
        position_of(arm_values(imp.repr, imp.arms@), value) matches Some(k) ==> {
            &&& 0 <= k < imp.arms@.len()
            &&& repr_value(imp.repr, imp.arms@[k].discriminant) == value
        },
{
    lemma_position_of(arm_values(imp.repr, imp.arms@), value);
}

/// A derived `try_from` of a `u8` enum gives, for the byte `b`, the variant whose
/// discriminant is `b` modulo 256, when no two discriminants agree modulo 256;
/// of a `u16` enum, for the number `x`, the variant whose discriminant is `x`
/// modulo 65536.
pub proof fn law_try_from_low_bits(imp: TryFromImpl, i: int, x: int)
    requires
        distinct_repr_values(imp.repr, arm_discriminants(imp.arms@)),
        0 <= i < imp.arms@.len(),
        imp.repr == ReprSize::U8 ==> x == imp.arms@[i].discriminant % 256,
        imp.repr == ReprSize::U16 ==> x == imp.arms@[i].discriminant % 65536,
    ensures
        position_of(arm_values(imp.repr, imp.arms@), x) == Some(i),
{
    law_repr_value_keeps_low_bits(imp.arms@[i].discriminant);
    law_try_from_finds_variant_values(imp.repr, imp.arms@, i);
}

/// A derived `try_from` refuses every number that is no variant's discriminant.
pub proof fn law_try_from_refuses_unknown(imp: TryFromImpl, value: int)
    requires
        forall|i: int| 0 <= i < imp.arms@.len() ==> repr_value(imp.repr, #[trigger] imp.arms@[i].discriminant) != value,
    ensures
        position_of(arm_values(imp.repr, imp.arms@), value) is None,
{
    assert forall|j: int| 0 <= j < imp.arms@.len() implies #[trigger] arm_values(imp.repr, imp.arms@)[j] != value by {
        assert(repr_value(imp.repr, imp.arms@[j].discriminant) != value);
    }
    lemma_position_of_none(arm_values(imp.repr, imp.arms@), value);
}

} // verus!
