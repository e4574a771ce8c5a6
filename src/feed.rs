use vstd::prelude::*;

use crate::{Reducing, StepResult};

verus! {

/// Feeding `vals` in order from state `s` may end in state `t` with outcome `res`:
/// feeding halts at the first step whose outcome is `Stop`.
pub open spec fn feeds<R: Reducing<I, OF, E>, I, OF, E>(
    s: R::State,
    vals: Seq<I>,
    t: R::State,
    res: StepResult,
) -> bool
    decreases vals.len(),
{
    if vals.len() == 0 {
        t == s && res == StepResult::Continue
    } else {
        exists|m: R::State, r1: StepResult|
            #[trigger] R::steps(s, vals[0], m, r1) && if r1 == StepResult::Stop {
                t == m && res == StepResult::Stop
            } else {
                feeds::<R, I, OF, E>(m, vals.drop_first(), t, res)
            }
    }
}

/// Feeding `vals` in order from state `s` may fail with `e` and leave state `t`: each
/// value before the failing one is accepted with `Continue`, and none is fed after it.
pub open spec fn feeds_fail<R: Reducing<I, OF, E>, I, OF, E>(
    s: R::State,
    vals: Seq<I>,
    t: R::State,
    e: E,
) -> bool
    decreases vals.len(),
{
    if vals.len() == 0 {
        false
    } else {
        ||| R::step_fails(s, vals[0], t, e)
        ||| exists|m: R::State|
            #[trigger] R::steps(s, vals[0], m, StepResult::Continue) && feeds_fail::<R, I, OF, E>(
                m,
                vals.drop_first(),
                t,
                e,
            )
    }
}

/// Failing while feeding the rest of `vals` after one accepted first value.
pub proof fn lemma_feeds_fail_step<R: Reducing<I, OF, E>, I, OF, E>(
    s: R::State,
    vals: Seq<I>,
    m: R::State,
    t: R::State,
    e: E,
)
    requires
        vals.len() > 0,
        R::steps(s, vals[0], m, StepResult::Continue),
        feeds_fail::<R, I, OF, E>(m, vals.drop_first(), t, e),
    ensures
        feeds_fail::<R, I, OF, E>(s, vals, t, e),
{
}

/// Feeding `vals` from `s`, taking one step to `m` on the first value.
pub proof fn lemma_feeds_step<R: Reducing<I, OF, E>, I, OF, E>(
    s: R::State,
    vals: Seq<I>,
    m: R::State,
    r1: StepResult,
    t: R::State,
    res: StepResult,
)
    requires
        vals.len() > 0,
        R::steps(s, vals[0], m, r1),
        if r1 == StepResult::Stop {
            t == m && res == StepResult::Stop
        } else {
            feeds::<R, I, OF, E>(m, vals.drop_first(), t, res)
        },
    ensures
        feeds::<R, I, OF, E>(s, vals, t, res),
{
}

/// A prefix of a prefix of `c` is a prefix of `c`.
pub proof fn lemma_prefix_trans<A>(a: Seq<A>, b: Seq<A>, c: Seq<A>)
    requires
        a.is_prefix_of(b),
        b.is_prefix_of(c),
    ensures
        a.is_prefix_of(c),
{
    assert(a =~= c.subrange(0, a.len() as int)) by {
        assert forall|i: int| 0 <= i < a.len() implies a[i] == c[i] by {
            assert(a[i] == b.subrange(0, a.len() as int)[i]);
            assert(b[i] == c.subrange(0, b.len() as int)[i]);
        }
    }
}

} // verus!
