use vstd::prelude::*;

verus! {

/// The function that a closure of one argument computes, where it gives one result
/// for each argument.
pub open spec fn fn1<F: Fn(A) -> B, A, B>(f: F) -> spec_fn(A) -> B {
    |x: A| choose|y: B| f.ensures((x,), y)
}

/// The closure can be called on every argument and gives one result for each.
pub open spec fn pure1<F: Fn(A) -> B, A, B>(f: F) -> bool {
    &&& forall|x: A| #[trigger] f.requires((x,))
    &&& forall|x: A, y1: B, y2: B| f.ensures((x,), y1) && f.ensures((x,), y2) ==> y1 == y2
}

pub proof fn lemma_fn1<F: Fn(A) -> B, A, B>(f: F, x: A, y: B)
    requires
        pure1(f),
        f.ensures((x,), y),
    ensures
        fn1(f)(x) == y,
{
}

/// The function that a closure taking its argument by reference computes.
pub open spec fn fnr<F: Fn(&A) -> B, A, B>(f: F) -> spec_fn(A) -> B {
    |x: A| choose|y: B| f.ensures((&x,), y)
}

/// The closure can be called on every reference and gives one result for each.
pub open spec fn purer<F: Fn(&A) -> B, A, B>(f: F) -> bool {
    &&& forall|x: A| #[trigger] f.requires((&x,))
    &&& forall|x: A, y1: B, y2: B| f.ensures((&x,), y1) && f.ensures((&x,), y2) ==> y1 == y2
}

pub proof fn lemma_fnr<F: Fn(&A) -> B, A, B>(f: F, x: A, y: B)
    requires
        purer(f),
        f.ensures((&x,), y),
    ensures
        fnr(f)(x) == y,
{
}

/// The function that a closure of an index and a value computes.
pub open spec fn fn2<F: Fn(usize, A) -> B, A, B>(f: F) -> spec_fn(usize, A) -> B {
    |i: usize, x: A| choose|y: B| f.ensures((i, x), y)
}

/// The closure can be called on every index and value and gives one result for each.
pub open spec fn pure2<F: Fn(usize, A) -> B, A, B>(f: F) -> bool {
    &&& forall|i: usize, x: A| #[trigger] f.requires((i, x))
    &&& forall|i: usize, x: A, y1: B, y2: B|
        f.ensures((i, x), y1) && f.ensures((i, x), y2) ==> y1 == y2
}

pub proof fn lemma_fn2<F: Fn(usize, A) -> B, A, B>(f: F, i: usize, x: A, y: B)
    requires
        pure2(f),
        f.ensures((i, x), y),
    ensures
        fn2(f)(i, x) == y,
{
}

} // verus!
