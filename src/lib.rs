use vstd::prelude::*;

pub mod apply;
pub mod feed;
pub mod funcs;
pub mod laws;
pub mod sink;
pub mod transducers;

verus! {

/// Outcome of one successful step: keep feeding, or no further input is wanted.
#[derive(Clone, Copy, Debug, PartialEq, Eq, Structural)]
pub enum StepResult {
    Continue,
    Stop,
}

/// A reducing function from inputs `I`, whose terminal receives values of type `OF`,
/// with failures of type `E`.
///
/// Each reducing function is described as a state machine over an abstract `State`:
/// `steps` relates the state before and after one successful step (and its outcome),
/// `completes` the state before and after a successful completion, and `produced`
/// gives what the terminal has received in a state.
pub trait Reducing<I, OF, E>: Sized {
    /// What determines the behaviour of this reducing function from here on.
    type State;

    /// The abstract state of this reducing function.
    spec fn state(&self) -> Self::State;

    /// The value is one that `step` and `complete` accept.
    spec fn wf(&self) -> bool;

    /// No step or completion of this chain can fail.
    spec fn infallible(&self) -> bool;

    /// Values received by the terminal reducing function in state `s`.
    spec fn produced(s: Self::State) -> Seq<OF>;

    /// One successful step on `value` may lead from `s` to `t` with outcome `res`.
    spec fn steps(s: Self::State, value: I, t: Self::State, res: StepResult) -> bool;

    /// A successful completion may lead from `s` to `t`.
    spec fn completes(s: Self::State, t: Self::State) -> bool;

    /// A failed step on `value` may lead from `s` to `t` and pass on the failure `e`.
    spec fn step_fails(s: Self::State, value: I, t: Self::State, e: E) -> bool;

    /// A failed completion may lead from `s` to `t` and pass on the failure `e`.
    spec fn complete_fails(s: Self::State, t: Self::State, e: E) -> bool;

    /// Optional hook, run before any element flows.
    fn init(&mut self)
        requires
            old(self).wf(),
        ensures
            final(self).wf(),
            final(self).state() == old(self).state(),
            final(self).infallible() == old(self).infallible(),
    ;

    /// Hands over what the terminal reducing function has received.
    fn into_produced(self) -> (r: Vec<OF>)
        ensures
            r@ == Self::produced(self.state()),
    ;

    /// What the terminal reducing function has received so far.
    fn output(&self) -> (r: &Vec<OF>)
        ensures
            r@ == Self::produced(self.state()),
    ;

    /// Consumes one element.
    fn step(&mut self, value: I) -> (r: Result<StepResult, E>)
        requires
            old(self).wf(),
        ensures
            old(self).infallible() ==> r is Ok && final(self).infallible(),
            r is Ok ==> final(self).wf() && Self::steps(
                old(self).state(),
                value,
                final(self).state(),
                r->Ok_0,
            ),
            r is Ok ==> Self::produced(old(self).state()).is_prefix_of(
                Self::produced(final(self).state()),
            ),
            r is Err ==> Self::step_fails(old(self).state(), value, final(self).state(), r->Err_0),
    ;

    /// Flushes what the stage holds, then completes the inner reducing function.
    fn complete(&mut self) -> (r: Result<(), E>)
        requires
            old(self).wf(),
        ensures
            old(self).infallible() ==> r is Ok,
            r is Ok ==> Self::completes(old(self).state(), final(self).state()),
            r is Ok ==> Self::produced(old(self).state()).is_prefix_of(
                Self::produced(final(self).state()),
            ),
            r is Err ==> Self::complete_fails(old(self).state(), final(self).state(), r->Err_0),
    ;
}

/// Turns a reducing function `RI` into the reducing function `RO`.
pub trait Transducer<RI>: Sized {
    /// The reducing function that wrapping produces.
    type RO;

    /// `r` is a reducing function that wrapping `rf` may produce.
    spec fn wraps(self, rf: RI, r: Self::RO) -> bool;

    /// Wraps `reducing_fn`, consuming the transducer.
    fn new(self, reducing_fn: RI) -> (r: Self::RO)
        ensures
            self.wraps(reducing_fn, r),
    ;
}

/// Two transducers chained: raw input meets `a` first, then `b`.
pub struct ComposedTransducer<AT, BT> {
    pub a: AT,
    pub b: BT,
}

impl<RI, RT, AT, BT> Transducer<RI> for ComposedTransducer<AT, BT> where
    BT: Transducer<RI, RO = RT>,
    AT: Transducer<RT>,
 {
    type RO = AT::RO;

    open spec fn wraps(self, rf: RI, r: AT::RO) -> bool {
        exists|mid: RT| #[trigger] self.b.wraps(rf, mid) && self.a.wraps(mid, r)
    }

    fn new(self, reducing_fn: RI) -> (r: AT::RO) {
        self.a.new(self.b.new(reducing_fn))
    }
}

/// Chains `a` and `b` into one transducer whose raw input meets `a` first.
pub fn compose<AT, BT>(a: AT, b: BT) -> (r: ComposedTransducer<AT, BT>)
    ensures
        r.a == a,
        r.b == b,
{
    ComposedTransducer { a, b }
}

} // verus!
