use std::convert::Infallible;
use std::marker::PhantomData;

use vstd::prelude::*;

use crate::feed::lemma_prefix_trans;
use crate::sink::VecSink;
use crate::{Reducing, StepResult, Transducer};

verus! {

/// A driver that feeds `input` in order from state `s`, stops feeding after the first
/// `Stop`, and then completes, may end in state `t` having consumed `k` values.
pub open spec fn runs<R: Reducing<I, OF, E>, I, OF, E>(
    s: R::State,
    input: Seq<I>,
    t: R::State,
    k: nat,
) -> bool
    decreases input.len(),
{
    if input.len() == 0 {
        k == 0 && R::completes(s, t)
    } else {
        exists|m: R::State, r1: StepResult|
            #[trigger] R::steps(s, input[0], m, r1) && if r1 == StepResult::Stop {
                k == 1 && R::completes(m, t)
            } else {
                k > 0 && runs::<R, I, OF, E>(m, input.drop_first(), t, (k - 1) as nat)
            }
    }
}

/// Every reducing function that `t` may build around an empty vector sink is
/// well formed.
pub open spec fn builds_wf<T: Transducer<VecSink<O>, RO = RO>, RO: Reducing<I, O, E>, I, O, E>(
    t: T,
) -> bool {
    forall|sink: VecSink<O>, rf: RO|
        sink.items@.len() == 0 && #[trigger] t.wraps(sink, rf) ==> rf.wf()
}

/// Every reducing function that `t` may build around an empty vector sink is
/// infallible.
pub open spec fn builds_infallible<
    T: Transducer<VecSink<O>, RO = RO>,
    RO: Reducing<I, O, E>,
    I,
    O,
    E,
>(t: T) -> bool {
    forall|sink: VecSink<O>, rf: RO|
        sink.items@.len() == 0 && #[trigger] t.wraps(sink, rf) ==> rf.infallible()
}

/// `out` is what a run of `t`, built around an empty vector sink, produces on `input`
/// while consuming `k` values.
pub open spec fn run_output<
    T: Transducer<VecSink<O>, RO = RO>,
    RO: Reducing<I, O, E>,
    I,
    O,
    E,
>(t: T, input: Seq<I>, out: Seq<O>, k: nat) -> bool {
    exists|sink: VecSink<O>, rf: RO, end: RO::State|
        sink.items@.len() == 0 && #[trigger] t.wraps(sink, rf) && #[trigger] runs::<
            RO,
            I,
            O,
            E,
        >(rf.state(), input, end, k) && out == RO::produced(end)
}

/// Runs `t` on the values of `source`, removing each value as it is consumed, and
/// collects the results; values left unconsumed after a `Stop` stay in `source`.
pub fn transduce_drain<T, RO, I, O>(source: &mut Vec<I>, t: T) -> (r: Result<Vec<O>, Infallible>) where
    T: Transducer<VecSink<O>, RO = RO>,
    RO: Reducing<I, O, Infallible>,

    requires
        builds_wf::<T, RO, I, O, Infallible>(t),
    ensures
        builds_infallible::<T, RO, I, O, Infallible>(t) ==> r is Ok,
        r is Ok ==> exists|k: nat|
            k <= old(source)@.len() && final(source)@ == old(source)@.skip(k as int) && run_output::<
                T,
                RO,
                I,
                O,
                Infallible,
            >(t, old(source)@, r->Ok_0@, k),
{
    let sink: VecSink<O> = VecSink::new();
    let ghost infallible = builds_infallible::<T, RO, I, O, Infallible>(t);
    let mut rf = t.new(sink);
    rf.init();
    let ghost s0 = rf.state();
    let ghost orig = source@;
    let ghost mut c: nat = 0;
    let mut stopped = false;
    while !stopped && source.len() > 0
        invariant
            rf.wf(),
            infallible == builds_infallible::<T, RO, I, O, Infallible>(t),
            infallible ==> rf.infallible(),
            c <= orig.len(),
            source@ == orig.skip(c as int),
            stopped ==> forall|end: RO::State|
                RO::completes(rf.state(), end) ==> runs::<RO, I, O, Infallible>(s0, orig, end, c),
            !stopped ==> forall|end: RO::State, k: nat|
                runs::<RO, I, O, Infallible>(rf.state(), source@, end, k) ==> runs::<RO, I, O, Infallible>(
                    s0,
                    orig,
                    end,
                    k + c,
                ),
        decreases source.len(),
    {
        let ghost cur = rf.state();
        let ghost rest = source@;
        let v = source.remove(0);
        proof {
            c = c + 1;
            assert(source@ =~= orig.skip(c as int));
        }
        match rf.step(v) {
            Ok(StepResult::Continue) => {
                assert forall|end: RO::State, k: nat|
                    runs::<RO, I, O, Infallible>(rf.state(), source@, end, k) implies runs::<RO, I, O, Infallible>(
                    s0,
                    orig,
                    end,
                    k + c,
                ) by {
                    assert(source@ == rest.drop_first());
                    assert(RO::steps(cur, rest[0], rf.state(), StepResult::Continue));
                    assert(runs::<RO, I, O, Infallible>(cur, rest, end, k + 1));
                }
            },
            Ok(StepResult::Stop) => {
                assert forall|end: RO::State|
                    RO::completes(rf.state(), end) implies runs::<RO, I, O, Infallible>(
                    s0,
                    orig,
                    end,
                    c,
                ) by {
                    assert(RO::steps(cur, rest[0], rf.state(), StepResult::Stop));
                    assert(runs::<RO, I, O, Infallible>(cur, rest, end, 1));
                }
                stopped = true;
            },
            Err(e) => {
                return Err(e);
            },
        }
    }
    let ghost before = rf.state();
    match rf.complete() {
        Ok(()) => {},
        Err(e) => {
            return Err(e);
        },
    }
    proof {
        if !stopped {
            assert(runs::<RO, I, O, Infallible>(before, source@, rf.state(), 0));
        }
        assert(runs::<RO, I, O, Infallible>(s0, orig, rf.state(), c));
    }
    let out = rf.into_produced();
    proof {
        assert(run_output::<T, RO, I, O, Infallible>(t, orig, out@, c));
    }
    Ok(out)
}

/// Runs `t` on the values of `source`, in order, and collects the results.
pub fn transduce_into<T, RO, I, O>(source: Vec<I>, t: T) -> (r: Result<Vec<O>, Infallible>) where
    T: Transducer<VecSink<O>, RO = RO>,
    RO: Reducing<I, O, Infallible>,

    requires
        builds_wf::<T, RO, I, O, Infallible>(t),
    ensures
        builds_infallible::<T, RO, I, O, Infallible>(t) ==> r is Ok,
        r is Ok ==> exists|k: nat| run_output::<T, RO, I, O, Infallible>(t, source@, r->Ok_0@, k),
{
    let mut values = source;
    transduce_drain(&mut values, t)
}

/// Runs `t` on copies of the values of `source`, in order, and collects the results.
pub fn transduce_ref<T, RO, I, O>(source: &Vec<I>, t: T) -> (r: Result<Vec<O>, Infallible>) where
    I: Copy,
    T: Transducer<VecSink<O>, RO = RO>,
    RO: Reducing<I, O, Infallible>,

    requires
        builds_wf::<T, RO, I, O, Infallible>(t),
    ensures
        builds_infallible::<T, RO, I, O, Infallible>(t) ==> r is Ok,
        r is Ok ==> exists|k: nat| run_output::<T, RO, I, O, Infallible>(t, source@, r->Ok_0@, k),
{
    let mut values: Vec<I> = Vec::new();
    let mut i: usize = 0;
    while i < source.len()
        invariant
            i <= source.len(),
            values@ == source@.take(i as int),
        decreases source.len() - i,
    {
        values.push(source[i]);
        i = i + 1;
        assert(values@ =~= source@.take(i as int));
    }
    assert(values@ =~= source@);
    transduce_drain(&mut values, t)
}

/// Pull-based adapter: hands out the outputs of a pipeline one at a time, and feeds the
/// next source value only once every output produced so far has been handed out.
pub struct TransduceIter<RO: Reducing<I, O, Infallible>, I, O> {
    pub source: Vec<I>,
    pub rf: RO,
    pub handed: usize,
    pub stopped: bool,
    pub completed: bool,
    /// The source as it was given.
    pub orig: Ghost<Seq<I>>,
    /// How many source values have been fed.
    pub consumed: Ghost<nat>,
    /// The state of the pipeline before any value was fed.
    pub start: Ghost<RO::State>,
    pub out: PhantomData<O>,
}

impl<RO: Reducing<I, O, Infallible>, I, O: Copy> TransduceIter<RO, I, O> {
    pub open spec fn wf(&self) -> bool {
        &&& !self.completed ==> self.rf.wf() && self.rf.infallible()
        &&& self.handed <= RO::produced(self.rf.state()).len()
        &&& self.consumed@ <= self.orig@.len()
        &&& self.source@ == self.orig@.skip(self.consumed@ as int)
        &&& self.completed ==> runs::<RO, I, O, Infallible>(
            self.start@,
            self.orig@,
            self.rf.state(),
            self.consumed@,
        )
        &&& !self.completed && self.stopped ==> forall|end: RO::State|
            RO::completes(self.rf.state(), end) ==> runs::<RO, I, O, Infallible>(
                self.start@,
                self.orig@,
                end,
                self.consumed@,
            )
        &&& !self.completed && !self.stopped ==> forall|end: RO::State, k: nat|
            runs::<RO, I, O, Infallible>(self.rf.state(), self.source@, end, k) ==> runs::<
                RO,
                I,
                O,
                Infallible,
            >(self.start@, self.orig@, end, k + self.consumed@)
    }

    /// The next output. `None` once the source is exhausted or a `Stop` was seen, the
    /// pipeline has completed, and all it produced has been handed out.
    pub fn next(&mut self) -> (r: Option<O>)
        requires
            old(self).wf(),
        ensures
            final(self).wf(),
            final(self).orig@ == old(self).orig@,
            final(self).start@ == old(self).start@,
            RO::produced(old(self).rf.state()).is_prefix_of(RO::produced(final(self).rf.state())),
            r is Some ==> final(self).handed == old(self).handed + 1 && r->Some_0 == RO::produced(
                final(self).rf.state(),
            )[old(self).handed as int],
            r is None ==> final(self).completed && final(self).handed == RO::produced(
                final(self).rf.state(),
            ).len() && runs::<RO, I, O, Infallible>(
                final(self).start@,
                final(self).orig@,
                final(self).rf.state(),
                final(self).consumed@,
            ),
    {
        proof {
            let p = RO::produced(self.rf.state());
            assert(p =~= p.subrange(0, p.len() as int));
        }
        loop
            invariant
                self.wf(),
                self.orig@ == old(self).orig@,
                self.start@ == old(self).start@,
                self.handed == old(self).handed,
                RO::produced(old(self).rf.state()).is_prefix_of(RO::produced(self.rf.state())),
            decreases self.source.len() * 2 + if self.completed {
                0int
            } else {
                1int
            },
        {
            if self.handed < self.rf.output().len() {
                let x = self.rf.output()[self.handed];
                self.handed = self.handed + 1;
                return Some(x);
            }
            if self.completed {
                return None;
            }
            if self.stopped || self.source.len() == 0 {
                let ghost before = self.rf.state();
                let r = self.rf.complete();
                proof {
                    lemma_prefix_trans(
                        RO::produced(old(self).rf.state()),
                        RO::produced(before),
                        RO::produced(self.rf.state()),
                    );
                    if !self.stopped {
                        assert(runs::<RO, I, O, Infallible>(before, self.source@, self.rf.state(), 0));
                    }
                }
                self.completed = true;
            } else {
                let ghost cur = self.rf.state();
                let ghost rest = self.source@;
                let v = self.source.remove(0);
                proof {
                    self.consumed@ = self.consumed@ + 1;
                    assert(self.source@ =~= self.orig@.skip(self.consumed@ as int));
                }
                let r = self.rf.step(v);
                proof {
                    lemma_prefix_trans(
                        RO::produced(old(self).rf.state()),
                        RO::produced(cur),
                        RO::produced(self.rf.state()),
                    );
                }
                if let Ok(StepResult::Stop) = r {
                    assert forall|end: RO::State|
                        RO::completes(self.rf.state(), end) implies runs::<RO, I, O, Infallible>(
                        self.start@,
                        self.orig@,
                        end,
                        self.consumed@,
                    ) by {
                        assert(RO::steps(cur, rest[0], self.rf.state(), StepResult::Stop));
                        assert(runs::<RO, I, O, Infallible>(cur, rest, end, 1));
                    }
                    self.stopped = true;
                } else {
                    assert forall|end: RO::State, k: nat|
                        runs::<RO, I, O, Infallible>(
                            self.rf.state(),
                            self.source@,
                            end,
                            k,
                        ) implies runs::<RO, I, O, Infallible>(
                        self.start@,
                        self.orig@,
                        end,
                        k + self.consumed@,
                    ) by {
                        assert(self.source@ == rest.drop_first());
                        assert(RO::steps(cur, rest[0], self.rf.state(), StepResult::Continue));
                        assert(runs::<RO, I, O, Infallible>(cur, rest, end, k + 1));
                    }
                }
            }
        }
    }
}

/// Wraps `t` around a vector sink and makes a pull-based adapter over `source`.
pub fn transduce_iter<T, RO, I, O: Copy>(source: Vec<I>, t: T) -> (r: TransduceIter<RO, I, O>) where
    T: Transducer<VecSink<O>, RO = RO>,
    RO: Reducing<I, O, Infallible>,

    requires
        builds_wf::<T, RO, I, O, Infallible>(t),
        builds_infallible::<T, RO, I, O, Infallible>(t),
    ensures
        r.wf(),
        r.handed == 0,
        r.orig@ == source@,
        exists|sink: VecSink<O>, rf: RO|
            sink.items@.len() == 0 && #[trigger] t.wraps(sink, rf) && r.start@ == rf.state(),
{
    let sink: VecSink<O> = VecSink::new();
    let mut rf = t.new(sink);
    rf.init();
    let ghost start = rf.state();
    assert(source@.skip(0) =~= source@);
    TransduceIter {
        source,
        rf,
        handed: 0,
        stopped: false,
        completed: false,
        orig: Ghost(source@),
        consumed: Ghost(0),
        start: Ghost(start),
        out: PhantomData,
    }
}

} // verus!
