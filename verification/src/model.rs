use vstd::prelude::*;

verus! {

/// The fields of a struct or of an enum variant.
#[derive(Debug)]
pub enum Fields {
    /// `{ a: A, b: B }`: the fields' names, in declaration order.
    Named(Vec<String>),
    /// `(A, B)`: the number of fields.
    Unnamed(usize),
    /// No fields at all.
    Unit,
}

/// One variant of an enum.
#[derive(Debug)]
pub struct Variant {
    /// The variant's name.
    pub ident: String,
    /// The variant's fields.
    pub fields: Fields,
    /// The value written after `=` in the definition, if any.
    pub discriminant: Option<i64>,
}

/// An outer attribute such as `#[repr(u16)]`.
#[derive(Debug)]
pub struct Attribute {
    /// The attribute's path as written, `repr` for `#[repr(u16)]`.
    pub path: String,
    /// The paths listed in its parentheses, in order, `["u16"]` for `#[repr(u16)]`.
    pub nested: Vec<String>,
}

/// What kind of item a derive is applied to.
#[derive(Debug)]
pub enum Data {
    Struct(Fields),
    Enum(Vec<Variant>),
    Union,
}

/// The item a derive is applied to: its name, its outer attributes and its body.
#[derive(Debug)]
pub struct DeriveInput {
    pub ident: String,
    pub attrs: Vec<Attribute>,
    pub data: Data,
}

/// The discriminant of each variant, as the language assigns them: the value
/// written after `=` where there is one, else the previous variant's plus one,
/// and zero for a first variant without one.
pub open spec fn spec_discriminants(vs: Seq<Variant>) -> Seq<int>
    decreases vs.len(),
{
    if vs.len() == 0 {
        Seq::empty()
    } else {
        let prev = spec_discriminants(vs.drop_last());
        let d = match vs.last().discriminant {
            Some(d) => d as int,
            None => if vs.len() == 1 {
                0
            } else {
                prev.last() + 1
            },
        };
        prev.push(d)
    }
}

/// Every discriminant fits the `i64` the model holds it in.
pub open spec fn discriminants_fit(vs: Seq<Variant>) -> bool {
    forall|i: int| 0 <= i < vs.len() ==> #[trigger] spec_discriminants(vs)[i] <= i64::MAX
}

/// There is one discriminant per variant.
pub proof fn lemma_discriminants_len(vs: Seq<Variant>)
    ensures
        spec_discriminants(vs).len() == vs.len(),
    decreases vs.len(),
{
    if vs.len() > 0 {
        lemma_discriminants_len(vs.drop_last());
    }
}

/// The discriminants of the first `k` variants do not depend on the others.
pub proof fn lemma_discriminants_prefix(vs: Seq<Variant>, k: int)
    requires
        0 <= k <= vs.len(),
    ensures
        spec_discriminants(vs.take(k)) == spec_discriminants(vs).take(k),
    decreases vs.len(),
{
    lemma_discriminants_len(vs);
    lemma_discriminants_len(vs.take(k));
    if k < vs.len() {
        assert(vs.drop_last().take(k) == vs.take(k));
        lemma_discriminants_prefix(vs.drop_last(), k);
        lemma_discriminants_len(vs.drop_last());
        assert(spec_discriminants(vs).take(k) =~= spec_discriminants(vs.drop_last()).take(k));
    } else {
        assert(vs.take(k) == vs);
        assert(spec_discriminants(vs).take(k) =~= spec_discriminants(vs));
    }
}

/// The discriminants of the variants, which must all fit an `i64`.
pub fn fitting_discriminants(variants: &Vec<Variant>) -> (ds: Vec<i64>)
    requires
        discriminants_fit(variants@),
    ensures
        ds@.len() == variants@.len(),
        forall|i: int| 0 <= i < ds@.len() ==> ds@[i] == #[trigger] spec_discriminants(variants@)[i],
{
    match discriminants(variants) {
        Some(ds) => ds,
        None => {
            proof {
                assert(false);
            }
            Vec::new()
        },
    }
}

/// The language's numbering of variants: a variant with a written discriminant
/// has that value, the first variant without one has 0, and any later variant
/// without one has the previous variant's discriminant plus one.
pub proof fn law_discriminants_count_up(vs: Seq<Variant>, i: int)
    requires
        0 <= i < vs.len(),
    ensures
        spec_discriminants(vs).len() == vs.len(),
        vs[i].discriminant matches Some(d) ==> spec_discriminants(vs)[i] == d,
        vs[i].discriminant is None && i == 0 ==> spec_discriminants(vs)[i] == 0,
        vs[i].discriminant is None && i > 0 ==> spec_discriminants(vs)[i] == spec_discriminants(vs)[i - 1] + 1,
{
    lemma_discriminants_len(vs);
    lemma_discriminants_prefix(vs, i + 1);
    let t = vs.take(i + 1);
    lemma_discriminants_len(t);
    lemma_discriminants_len(t.drop_last());
    assert(t.last() == vs[i]);
    assert(spec_discriminants(t)[i] == spec_discriminants(vs)[i]);
    if i > 0 {
        assert(t.drop_last() == vs.take(i));
        lemma_discriminants_prefix(vs, i);
        assert(spec_discriminants(t.drop_last()).last() == spec_discriminants(vs)[i - 1]);
    }
}

/// Computes the discriminant of each variant; `None` when one does not fit an `i64`.
pub fn discriminants(variants: &Vec<Variant>) -> (r: Option<Vec<i64>>)
    ensures
        r is Some <==> discriminants_fit(variants@),
        r matches Some(ds) ==> {
            &&& ds@.len() == variants@.len()
            &&& forall|i: int| 0 <= i < ds@.len() ==> ds@[i] == #[trigger] spec_discriminants(variants@)[i]
        },
{
    let mut ds: Vec<i64> = Vec::new();
    let mut i: usize = 0;
    proof {
        lemma_discriminants_len(variants@);
    }
    while i < variants.len()
        invariant
            i <= variants@.len(),
            ds@.len() == i,
            spec_discriminants(variants@).len() == variants@.len(),
            forall|j: int| 0 <= j < i ==> ds@[j] == #[trigger] spec_discriminants(variants@)[j],
        decreases variants@.len() - i,
    {
        proof {
            lemma_discriminants_prefix(variants@, i + 1);
            lemma_discriminants_len(variants@.take(i + 1));
            assert(variants@.take(i + 1).drop_last() == variants@.take(i as int));
            lemma_discriminants_prefix(variants@, i as int);
            lemma_discriminants_len(variants@.take(i as int));
            assert(spec_discriminants(variants@.take(i + 1))[i as int] == spec_discriminants(variants@)[i as int]);
        }
        let d: i64 = match variants[i].discriminant {
            Some(d) => d,
            None => if i == 0 {
                0
            } else {
                let prev: i64 = ds[i - 1];
                if prev == i64::MAX {
                    proof {
                        assert(spec_discriminants(variants@)[i as int] > i64::MAX);
                    }
                    return None;
                }
                prev + 1
            },
        };
        ds.push(d);
        i = i + 1;
    }
    Some(ds)
}

} // verus!
