use vstd::prelude::*;

verus! {

/// The position of the first element of `s` that satisfies `p`, if any.
///
/// This is how a `match` over several arms picks its result: the arms are tried
/// in order and the first one that applies wins.
pub open spec fn first_index<T>(s: Seq<T>, p: spec_fn(T) -> bool) -> Option<int>
    decreases s.len(),
{
    if s.len() == 0 {
        None
    } else {
        match first_index(s.drop_last(), p) {
            Some(i) => Some(i),
            None => if p(s.last()) {
                Some(s.len() - 1)
            } else {
                None
            },
        }
    }
}

/// `first_index` finds the least position whose element satisfies `p`, and finds
/// nothing exactly when no element does.
pub proof fn lemma_first_index<T>(s: Seq<T>, p: spec_fn(T) -> bool)
    ensures
        first_index(s, p) matches Some(i) ==> {
            &&& 0 <= i < s.len()
            &&& p(s[i])
            &&& forall|j: int| 0 <= j < i ==> !p(#[trigger] s[j])
        },
        first_index(s, p) is None ==> forall|j: int| 0 <= j < s.len() ==> !p(#[trigger] s[j]),
    decreases s.len(),
{
    if s.len() > 0 {
        lemma_first_index(s.drop_last(), p);
        assert forall|j: int| 0 <= j < s.len() - 1 implies s.drop_last()[j] == s[j] by {}
    }
}

/// If position `i` satisfies `p` and no earlier one does, `first_index` is `i`.
pub proof fn lemma_first_index_is<T>(s: Seq<T>, p: spec_fn(T) -> bool, i: int)
    requires
        0 <= i < s.len(),
        p(s[i]),
        forall|j: int| 0 <= j < i ==> !p(#[trigger] s[j]),
    ensures
        first_index(s, p) == Some(i),
{
    lemma_first_index(s, p);
    if let Some(k) = first_index(s, p) {
        if k < i {
            assert(!p(s[k]));
        } else if k > i {
            assert(!p(s[i]));
        }
    }
}

/// If no position satisfies `p`, `first_index` finds nothing.
pub proof fn lemma_first_index_none<T>(s: Seq<T>, p: spec_fn(T) -> bool)
    requires
        forall|j: int| 0 <= j < s.len() ==> !p(#[trigger] s[j]),
    ensures
        first_index(s, p) is None,
{
    lemma_first_index(s, p);
}

/// The position of the first element of `s` equal to `x`, if any.
pub open spec fn position_of<T>(s: Seq<T>, x: T) -> Option<int> {
    first_index(s, |y: T| y == x)
}

/// `position_of` finds the least position holding `x`, and finds nothing exactly
/// when no position does.
pub proof fn lemma_position_of<T>(s: Seq<T>, x: T)
    ensures
        position_of(s, x) matches Some(i) ==> {
            &&& 0 <= i < s.len()
            &&& s[i] == x
            &&& forall|j: int| 0 <= j < i ==> #[trigger] s[j] != x
        },
        position_of(s, x) is None ==> forall|j: int| 0 <= j < s.len() ==> #[trigger] s[j] != x,
{
    lemma_first_index(s, |y: T| y == x);
}

/// If `x` is at position `i` and at no earlier one, `position_of` is `i`.
pub proof fn lemma_position_of_is<T>(s: Seq<T>, x: T, i: int)
    requires
        0 <= i < s.len(),
        s[i] == x,
        forall|j: int| 0 <= j < i ==> #[trigger] s[j] != x,
    ensures
        position_of(s, x) == Some(i),
{
    lemma_first_index_is(s, |y: T| y == x, i);
}

/// If `x` is nowhere in `s`, `position_of` finds nothing.
pub proof fn lemma_position_of_none<T>(s: Seq<T>, x: T)
    requires
        forall|j: int| 0 <= j < s.len() ==> #[trigger] s[j] != x,
    ensures
        position_of(s, x) is None,
{
    lemma_first_index_none(s, |y: T| y == x);
}

/// Whether two strings hold the same characters.
pub fn str_eq(a: &str, b: &str) -> (r: bool)
    ensures
        r == (a@ == b@),
{
    let a_owned: String = a.to_owned();
    let b_owned: String = b.to_owned();
    a_owned == b_owned
}

} // verus!
