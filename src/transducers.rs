use std::collections::HashMap;
use std::hash::Hash;
use std::marker::PhantomData;

use vstd::laws_eq::obeys_concrete_eq;
use vstd::prelude::*;
use vstd::std_specs::hash::obeys_key_model;

use crate::funcs::{fn1, fn2, fnr, lemma_fn1, lemma_fn2, lemma_fnr, pure1, pure2, purer};
use crate::feed::{feeds, feeds_fail, lemma_feeds_fail_step, lemma_feeds_step, lemma_prefix_trans};
use crate::{Reducing, StepResult, Transducer};

verus! {

/// Configuration of a map stage.
pub struct MapTransducer<F> {
    pub f: F,
}

/// A map stage wrapped around the reducing function `rf`.
pub struct MapReducer<R, F> {
    pub rf: R,
    pub t: MapTransducer<F>,
}

impl<F, RI> Transducer<RI> for MapTransducer<F> {
    type RO = MapReducer<RI, F>;

    open spec fn wraps(self, rf: RI, r: MapReducer<RI, F>) -> bool {
        r == MapReducer { rf, t: self }
    }

    fn new(self, reducing_fn: RI) -> (r: MapReducer<RI, F>) {
        MapReducer { rf: reducing_fn, t: self }
    }
}

impl<R, F, I, O, OF, E> Reducing<I, OF, E> for MapReducer<R, F> where
    F: Fn(I) -> O,
    R: Reducing<O, OF, E>,
 {
    type State = (R::State, F);

    open spec fn state(&self) -> (R::State, F) {
        (self.rf.state(), self.t.f)
    }

    open spec fn wf(&self) -> bool {
        self.rf.wf() && pure1(self.t.f)
    }

    open spec fn infallible(&self) -> bool {
        self.rf.infallible()
    }

    open spec fn produced(s: (R::State, F)) -> Seq<OF> {
        R::produced(s.0)
    }

    open spec fn steps(s: (R::State, F), value: I, t: (R::State, F), res: StepResult) -> bool {
        t.1 == s.1 && R::steps(s.0, fn1(s.1)(value), t.0, res)
    }

    open spec fn completes(s: (R::State, F), t: (R::State, F)) -> bool {
        t.1 == s.1 && R::completes(s.0, t.0)
    }

    open spec fn step_fails(s: (R::State, F), value: I, t: (R::State, F), e: E) -> bool {
        t.1 == s.1 && R::step_fails(s.0, fn1(s.1)(value), t.0, e)
    }

    open spec fn complete_fails(s: (R::State, F), t: (R::State, F), e: E) -> bool {
        t.1 == s.1 && R::complete_fails(s.0, t.0, e)
    }

    fn init(&mut self) {
        self.rf.init();
    }

    fn into_produced(self) -> (r: Vec<OF>) {
        self.rf.into_produced()
    }

    fn output(&self) -> (r: &Vec<OF>) {
        self.rf.output()
    }

    fn step(&mut self, value: I) -> (r: Result<StepResult, E>) {
        let o = (self.t.f)(value);
        proof {
            lemma_fn1(self.t.f, value, o);
        }
        self.rf.step(o)
    }

    fn complete(&mut self) -> (r: Result<(), E>) {
        self.rf.complete()
    }
}

/// Passes on `f` of each value.
pub fn map<F, I, O>(f: F) -> (r: MapTransducer<F>) where F: Fn(I) -> O
    ensures
        r.f == f,
{
    MapTransducer { f }
}

} // verus!

verus! {

/// Configuration of a indexed map stage.
pub struct MapIndexedTransducer<F> {
    pub f: F,
}

/// A indexed map stage wrapped around the reducing function `rf`.
pub struct MapIndexedReducer<R, F> {
    pub rf: R,
    pub t: MapIndexedTransducer<F>,
    pub count: usize,
}

impl<F, RI> Transducer<RI> for MapIndexedTransducer<F> {
    type RO = MapIndexedReducer<RI, F>;

    open spec fn wraps(self, rf: RI, r: MapIndexedReducer<RI, F>) -> bool {
        r == MapIndexedReducer { rf, t: self, count: 0 }
    }

    fn new(self, reducing_fn: RI) -> (r: MapIndexedReducer<RI, F>) {
        MapIndexedReducer { rf: reducing_fn, t: self, count: 0 }
    }
}

impl<R, F, I, O, OF, E> Reducing<I, OF, E> for MapIndexedReducer<R, F> where
    F: Fn(usize, I) -> O,
    R: Reducing<O, OF, E>,
 {
    /// Inner state, function, and the index of the next element.
    type State = (R::State, F, usize);

    open spec fn state(&self) -> (R::State, F, usize) {
        (self.rf.state(), self.t.f, self.count)
    }

    open spec fn wf(&self) -> bool {
        self.rf.wf() && pure2(self.t.f)
    }

    open spec fn infallible(&self) -> bool {
        self.rf.infallible()
    }

    open spec fn produced(s: (R::State, F, usize)) -> Seq<OF> {
        R::produced(s.0)
    }

    /// Once every `usize` index has been used, the stage asks for no more input.
    open spec fn steps(
        s: (R::State, F, usize),
        value: I,
        t: (R::State, F, usize),
        res: StepResult,
    ) -> bool {
        &&& t.1 == s.1
        &&& if s.2 < usize::MAX {
            t.2 == s.2 + 1 && R::steps(s.0, fn2(s.1)(s.2, value), t.0, res)
        } else {
            t.2 == s.2 && t.0 == s.0 && res == StepResult::Stop
        }
    }

    open spec fn completes(s: (R::State, F, usize), t: (R::State, F, usize)) -> bool {
        t.1 == s.1 && t.2 == s.2 && R::completes(s.0, t.0)
    }

    open spec fn step_fails(
        s: (R::State, F, usize),
        value: I,
        t: (R::State, F, usize),
        e: E,
    ) -> bool {
        &&& s.2 < usize::MAX
        &&& t.1 == s.1
        &&& t.2 == s.2 + 1
        &&& R::step_fails(s.0, fn2(s.1)(s.2, value), t.0, e)
    }

    open spec fn complete_fails(s: (R::State, F, usize), t: (R::State, F, usize), e: E) -> bool {
        t.1 == s.1 && t.2 == s.2 && R::complete_fails(s.0, t.0, e)
    }

    fn init(&mut self) {
        self.rf.init();
    }

    fn into_produced(self) -> (r: Vec<OF>) {
        self.rf.into_produced()
    }

    fn output(&self) -> (r: &Vec<OF>) {
        self.rf.output()
    }

    fn step(&mut self, value: I) -> (r: Result<StepResult, E>) {
        if self.count == usize::MAX {
            return Ok(StepResult::Stop);
        }
        let idx = self.count;
        self.count = self.count + 1;
        let o = (self.t.f)(idx, value);
        proof {
            lemma_fn2(self.t.f, idx, value, o);
        }
        self.rf.step(o)
    }

    fn complete(&mut self) -> (r: Result<(), E>) {
        self.rf.complete()
    }
}

/// Passes on `f` of each value and its zero-based position.
pub fn map_indexed<F, I, O>(f: F) -> (r: MapIndexedTransducer<F>) where F: Fn(usize, I) -> O
    ensures
        r.f == f,
{
    MapIndexedTransducer { f }
}

/// Configuration of a flat-map stage.
pub struct MapcatTransducer<F> {
    pub f: F,
}

/// A flat-map stage wrapped around the reducing function `rf`.
pub struct MapcatReducer<R, F> {
    pub rf: R,
    pub t: MapcatTransducer<F>,
}

impl<F, RI> Transducer<RI> for MapcatTransducer<F> {
    type RO = MapcatReducer<RI, F>;

    open spec fn wraps(self, rf: RI, r: MapcatReducer<RI, F>) -> bool {
        r == MapcatReducer { rf, t: self }
    }

    fn new(self, reducing_fn: RI) -> (r: MapcatReducer<RI, F>) {
        MapcatReducer { rf: reducing_fn, t: self }
    }
}

impl<R, F, I, O, OF, E> Reducing<I, OF, E> for MapcatReducer<R, F> where
    F: Fn(I) -> Vec<O>,
    R: Reducing<O, OF, E>,
 {
    type State = (R::State, F);

    open spec fn state(&self) -> (R::State, F) {
        (self.rf.state(), self.t.f)
    }

    open spec fn wf(&self) -> bool {
        self.rf.wf() && pure1(self.t.f)
    }

    open spec fn infallible(&self) -> bool {
        self.rf.infallible()
    }

    open spec fn produced(s: (R::State, F)) -> Seq<OF> {
        R::produced(s.0)
    }

    open spec fn steps(s: (R::State, F), value: I, t: (R::State, F), res: StepResult) -> bool {
        t.1 == s.1 && feeds::<R, O, OF, E>(s.0, fn1(s.1)(value)@, t.0, res)
    }

    open spec fn completes(s: (R::State, F), t: (R::State, F)) -> bool {
        t.1 == s.1 && R::completes(s.0, t.0)
    }

    open spec fn step_fails(s: (R::State, F), value: I, t: (R::State, F), e: E) -> bool {
        t.1 == s.1 && feeds_fail::<R, O, OF, E>(s.0, fn1(s.1)(value)@, t.0, e)
    }

    open spec fn complete_fails(s: (R::State, F), t: (R::State, F), e: E) -> bool {
        t.1 == s.1 && R::complete_fails(s.0, t.0, e)
    }

    fn init(&mut self) {
        self.rf.init();
    }

    fn into_produced(self) -> (r: Vec<OF>) {
        self.rf.into_produced()
    }

    fn output(&self) -> (r: &Vec<OF>) {
        self.rf.output()
    }

    fn step(&mut self, value: I) -> (r: Result<StepResult, E>) {
        let mut outs = (self.t.f)(value);
        proof {
            lemma_fn1(self.t.f, value, outs);
        }
        let ghost s0 = self.rf.state();
        let ghost all = outs@;
        while outs.len() > 0
            invariant
                self.rf.wf(),
                self.t == old(self).t,
                pure1(self.t.f),
                all == fn1(self.t.f)(value)@,
                s0 == old(self).rf.state(),
                R::produced(s0).is_prefix_of(R::produced(self.rf.state())),
                old(self).rf.infallible() ==> self.rf.infallible(),
                forall|t: R::State, res: StepResult|
                    feeds::<R, O, OF, E>(self.rf.state(), outs@, t, res) ==> feeds::<R, O, OF, E>(
                        s0,
                        all,
                        t,
                        res,
                    ),
                forall|t: R::State, e: E|
                    feeds_fail::<R, O, OF, E>(self.rf.state(), outs@, t, e) ==> feeds_fail::<
                        R,
                        O,
                        OF,
                        E,
                    >(s0, all, t, e),
            decreases outs.len(),
        {
            let ghost cur = self.rf.state();
            let ghost rest = outs@;
            let o = outs.remove(0);
            let r = self.rf.step(o);
            proof {
                if r is Ok {
                    lemma_prefix_trans(R::produced(s0), R::produced(cur), R::produced(self.rf.state()));
                }
            }
            match r {
                Ok(StepResult::Continue) => {
                    assert(outs@ == rest.drop_first());
                    assert forall|t: R::State, res: StepResult|
                        feeds::<R, O, OF, E>(self.rf.state(), outs@, t, res) implies feeds::<
                        R,
                        O,
                        OF,
                        E,
                    >(s0, all, t, res) by {
                        lemma_feeds_step::<R, O, OF, E>(
                            cur,
                            rest,
                            self.rf.state(),
                            StepResult::Continue,
                            t,
                            res,
                        );
                    }
                    assert forall|t: R::State, e: E|
                        feeds_fail::<R, O, OF, E>(self.rf.state(), outs@, t, e) implies feeds_fail::<
                        R,
                        O,
                        OF,
                        E,
                    >(s0, all, t, e) by {
                        lemma_feeds_fail_step::<R, O, OF, E>(cur, rest, self.rf.state(), t, e);
                    }
                },
                Ok(StepResult::Stop) => {
                    proof {
                        lemma_feeds_step::<R, O, OF, E>(
                            cur,
                            rest,
                            self.rf.state(),
                            StepResult::Stop,
                            self.rf.state(),
                            StepResult::Stop,
                        );
                        assert(feeds::<R, O, OF, E>(s0, all, self.rf.state(), StepResult::Stop));
                    }
                    return Ok(StepResult::Stop);
                },
                Err(e) => {
                    assert(feeds_fail::<R, O, OF, E>(cur, rest, self.rf.state(), e));
                    return Err(e);
                },
            }
        }
        Ok(StepResult::Continue)
    }

    fn complete(&mut self) -> (r: Result<(), E>) {
        self.rf.complete()
    }
}

/// Passes on, in order, every value of the vector that `f` gives for each value.
pub fn mapcat<F, I, O>(f: F) -> (r: MapcatTransducer<F>) where F: Fn(I) -> Vec<O>
    ensures
        r.f == f,
{
    MapcatTransducer { f }
}

} // verus!

verus! {

/// Configuration of a filter / remove stage.
pub struct FilterTransducer<F> {
    pub f: F,
    pub inclusive: bool,
}

/// A filter / remove stage wrapped around the reducing function `rf`.
pub struct FilterReducer<R, F> {
    pub rf: R,
    pub t: FilterTransducer<F>,
}

impl<F, RI> Transducer<RI> for FilterTransducer<F> {
    type RO = FilterReducer<RI, F>;

    open spec fn wraps(self, rf: RI, r: FilterReducer<RI, F>) -> bool {
        r == FilterReducer { rf, t: self }
    }

    fn new(self, reducing_fn: RI) -> (r: FilterReducer<RI, F>) {
        FilterReducer { rf: reducing_fn, t: self }
    }
}

impl<R, F, I, OF, E> Reducing<I, OF, E> for FilterReducer<R, F> where
    F: Fn(&I) -> bool,
    R: Reducing<I, OF, E>,
 {
    /// Inner state, predicate, and whether a value passes when the predicate holds.
    type State = (R::State, F, bool);

    open spec fn state(&self) -> (R::State, F, bool) {
        (self.rf.state(), self.t.f, self.t.inclusive)
    }

    open spec fn wf(&self) -> bool {
        self.rf.wf() && purer(self.t.f)
    }

    open spec fn infallible(&self) -> bool {
        self.rf.infallible()
    }

    open spec fn produced(s: (R::State, F, bool)) -> Seq<OF> {
        R::produced(s.0)
    }

    open spec fn steps(
        s: (R::State, F, bool),
        value: I,
        t: (R::State, F, bool),
        res: StepResult,
    ) -> bool {
        &&& t.1 == s.1
        &&& t.2 == s.2
        &&& if fnr(s.1)(value) == s.2 {
            R::steps(s.0, value, t.0, res)
        } else {
            t.0 == s.0 && res == StepResult::Continue
        }
    }

    open spec fn completes(s: (R::State, F, bool), t: (R::State, F, bool)) -> bool {
        t.1 == s.1 && t.2 == s.2 && R::completes(s.0, t.0)
    }

    open spec fn step_fails(
        s: (R::State, F, bool),
        value: I,
        t: (R::State, F, bool),
        e: E,
    ) -> bool {
        &&& t.1 == s.1
        &&& t.2 == s.2
        &&& fnr(s.1)(value) == s.2
        &&& R::step_fails(s.0, value, t.0, e)
    }

    open spec fn complete_fails(s: (R::State, F, bool), t: (R::State, F, bool), e: E) -> bool {
        t.1 == s.1 && t.2 == s.2 && R::complete_fails(s.0, t.0, e)
    }

    fn init(&mut self) {
        self.rf.init();
    }

    fn into_produced(self) -> (r: Vec<OF>) {
        self.rf.into_produced()
    }

    fn output(&self) -> (r: &Vec<OF>) {
        self.rf.output()
    }

    fn step(&mut self, value: I) -> (r: Result<StepResult, E>) {
        let mut passes = (self.t.f)(&value);
        proof {
            lemma_fnr(self.t.f, value, passes);
        }
        if !self.t.inclusive {
            passes = !passes;
        }
        if passes {
            self.rf.step(value)
        } else {
            Ok(StepResult::Continue)
        }
    }

    fn complete(&mut self) -> (r: Result<(), E>) {
        self.rf.complete()
    }
}

/// Passes on exactly the values on which `f` holds.
pub fn filter<F, T>(f: F) -> (r: FilterTransducer<F>) where F: Fn(&T) -> bool
    ensures
        r.f == f,
        r.inclusive,
{
    FilterTransducer { f, inclusive: true }
}

/// Passes on exactly the values on which `f` does not hold.
pub fn remove<F, T>(f: F) -> (r: FilterTransducer<F>) where F: Fn(&T) -> bool
    ensures
        r.f == f,
        !r.inclusive,
{
    FilterTransducer { f, inclusive: false }
}

/// Configuration of a keep stage.
pub struct KeepTransducer<F>(pub F);

/// A keep stage wrapped around the reducing function `rf`.
pub struct KeepReducer<R, F> {
    pub rf: R,
    pub t: KeepTransducer<F>,
}

impl<F, RI> Transducer<RI> for KeepTransducer<F> {
    type RO = KeepReducer<RI, F>;

    open spec fn wraps(self, rf: RI, r: KeepReducer<RI, F>) -> bool {
        r == KeepReducer { rf, t: self }
    }

    fn new(self, reducing_fn: RI) -> (r: KeepReducer<RI, F>) {
        KeepReducer { rf: reducing_fn, t: self }
    }
}

impl<R, F, I, O, OF, E> Reducing<I, OF, E> for KeepReducer<R, F> where
    F: Fn(I) -> Option<O>,
    R: Reducing<O, OF, E>,
 {
    type State = (R::State, F);

    open spec fn state(&self) -> (R::State, F) {
        (self.rf.state(), self.t.0)
    }

    open spec fn wf(&self) -> bool {
        self.rf.wf() && pure1(self.t.0)
    }

    open spec fn infallible(&self) -> bool {
        self.rf.infallible()
    }

    open spec fn produced(s: (R::State, F)) -> Seq<OF> {
        R::produced(s.0)
    }

    open spec fn steps(s: (R::State, F), value: I, t: (R::State, F), res: StepResult) -> bool {
        &&& t.1 == s.1
        &&& match fn1(s.1)(value) {
            Some(o) => R::steps(s.0, o, t.0, res),
            None => t.0 == s.0 && res == StepResult::Continue,
        }
    }

    open spec fn completes(s: (R::State, F), t: (R::State, F)) -> bool {
        t.1 == s.1 && R::completes(s.0, t.0)
    }

    open spec fn step_fails(s: (R::State, F), value: I, t: (R::State, F), e: E) -> bool {
        &&& t.1 == s.1
        &&& fn1(s.1)(value) is Some
        &&& R::step_fails(s.0, fn1(s.1)(value)->Some_0, t.0, e)
    }

    open spec fn complete_fails(s: (R::State, F), t: (R::State, F), e: E) -> bool {
        t.1 == s.1 && R::complete_fails(s.0, t.0, e)
    }

    fn init(&mut self) {
        self.rf.init();
    }

    fn into_produced(self) -> (r: Vec<OF>) {
        self.rf.into_produced()
    }

    fn output(&self) -> (r: &Vec<OF>) {
        self.rf.output()
    }

    fn step(&mut self, value: I) -> (r: Result<StepResult, E>) {
        let kept = (self.t.0)(value);
        proof {
            lemma_fn1(self.t.0, value, kept);
        }
        match kept {
            Some(o) => self.rf.step(o),
            None => Ok(StepResult::Continue),
        }
    }

    fn complete(&mut self) -> (r: Result<(), E>) {
        self.rf.complete()
    }
}

/// Passes on the contents of `f` of each value where `f` gives `Some`.
pub fn keep<F, I, O>(f: F) -> (r: KeepTransducer<F>) where F: Fn(I) -> Option<O>
    ensures
        r.0 == f,
{
    KeepTransducer(f)
}

/// Configuration of a indexed keep stage.
pub struct KeepIndexedTransducer<F>(pub F);

/// A indexed keep stage wrapped around the reducing function `rf`.
pub struct KeepIndexedReducer<R, F> {
    pub rf: R,
    pub t: KeepIndexedTransducer<F>,
    pub count: usize,
}

impl<F, RI> Transducer<RI> for KeepIndexedTransducer<F> {
    type RO = KeepIndexedReducer<RI, F>;

    open spec fn wraps(self, rf: RI, r: KeepIndexedReducer<RI, F>) -> bool {
        r == KeepIndexedReducer { rf, t: self, count: 0 }
    }

    fn new(self, reducing_fn: RI) -> (r: KeepIndexedReducer<RI, F>) {
        KeepIndexedReducer { rf: reducing_fn, t: self, count: 0 }
    }
}

impl<R, F, I, O, OF, E> Reducing<I, OF, E> for KeepIndexedReducer<R, F> where
    F: Fn(usize, I) -> Option<O>,
    R: Reducing<O, OF, E>,
 {
    /// Inner state, function, and the index of the next element.
    type State = (R::State, F, usize);

    open spec fn state(&self) -> (R::State, F, usize) {
        (self.rf.state(), self.t.0, self.count)
    }

    open spec fn wf(&self) -> bool {
        self.rf.wf() && pure2(self.t.0)
    }

    open spec fn infallible(&self) -> bool {
        self.rf.infallible()
    }

    open spec fn produced(s: (R::State, F, usize)) -> Seq<OF> {
        R::produced(s.0)
    }

    /// Once every `usize` index has been used, the stage asks for no more input.
    open spec fn steps(
        s: (R::State, F, usize),
        value: I,
        t: (R::State, F, usize),
        res: StepResult,
    ) -> bool {
        &&& t.1 == s.1
        &&& if s.2 < usize::MAX {
            &&& t.2 == s.2 + 1
            &&& match fn2(s.1)(s.2, value) {
                Some(o) => R::steps(s.0, o, t.0, res),
                None => t.0 == s.0 && res == StepResult::Continue,
            }
        } else {
            t.2 == s.2 && t.0 == s.0 && res == StepResult::Stop
        }
    }

    open spec fn completes(s: (R::State, F, usize), t: (R::State, F, usize)) -> bool {
        t.1 == s.1 && t.2 == s.2 && R::completes(s.0, t.0)
    }

    open spec fn step_fails(
        s: (R::State, F, usize),
        value: I,
        t: (R::State, F, usize),
        e: E,
    ) -> bool {
        &&& s.2 < usize::MAX
        &&& t.1 == s.1
        &&& t.2 == s.2 + 1
        &&& fn2(s.1)(s.2, value) is Some
        &&& R::step_fails(s.0, fn2(s.1)(s.2, value)->Some_0, t.0, e)
    }

    open spec fn complete_fails(s: (R::State, F, usize), t: (R::State, F, usize), e: E) -> bool {
        t.1 == s.1 && t.2 == s.2 && R::complete_fails(s.0, t.0, e)
    }

    fn init(&mut self) {
        self.rf.init();
    }

    fn into_produced(self) -> (r: Vec<OF>) {
        self.rf.into_produced()
    }

    fn output(&self) -> (r: &Vec<OF>) {
        self.rf.output()
    }

    fn step(&mut self, value: I) -> (r: Result<StepResult, E>) {
        if self.count == usize::MAX {
            return Ok(StepResult::Stop);
        }
        let idx = self.count;
        self.count = self.count + 1;
        let kept = (self.t.0)(idx, value);
        proof {
            lemma_fn2(self.t.0, idx, value, kept);
        }
        match kept {
            Some(o) => self.rf.step(o),
            None => Ok(StepResult::Continue),
        }
    }

    fn complete(&mut self) -> (r: Result<(), E>) {
        self.rf.complete()
    }
}

/// Passes on the contents of `f` of each value and its zero-based position, where
/// `f` gives `Some`.
pub fn keep_indexed<F, I, O>(f: F) -> (r: KeepIndexedTransducer<F>) where
    F: Fn(usize, I) -> Option<O>,
    ensures
        r.0 == f,
{
    KeepIndexedTransducer(f)
}

/// Configuration of a take stage.
pub struct TakeTransducer(pub usize);

/// A take stage wrapped around the reducing function `rf`.
pub struct TakeReducer<RF> {
    pub rf: RF,
    pub taken: usize,
    pub t: TakeTransducer,
}

impl<RI> Transducer<RI> for TakeTransducer {
    type RO = TakeReducer<RI>;

    open spec fn wraps(self, rf: RI, r: TakeReducer<RI>) -> bool {
        r == TakeReducer { rf, taken: 0, t: self }
    }

    fn new(self, reducing_fn: RI) -> (r: TakeReducer<RI>) {
        TakeReducer { rf: reducing_fn, taken: 0, t: self }
    }
}

impl<R, I, OF, E> Reducing<I, OF, E> for TakeReducer<R> where R: Reducing<I, OF, E> {
    /// Inner state, how many have been passed on, and the limit.
    type State = (R::State, usize, usize);

    open spec fn state(&self) -> (R::State, usize, usize) {
        (self.rf.state(), self.taken, self.t.0)
    }

    open spec fn wf(&self) -> bool {
        self.rf.wf() && self.taken <= self.t.0
    }

    open spec fn infallible(&self) -> bool {
        self.rf.infallible()
    }

    open spec fn produced(s: (R::State, usize, usize)) -> Seq<OF> {
        R::produced(s.0)
    }

    /// The step that passes on the last allowed value reports `Stop`.
    open spec fn steps(
        s: (R::State, usize, usize),
        value: I,
        t: (R::State, usize, usize),
        res: StepResult,
    ) -> bool {
        &&& t.2 == s.2
        &&& if s.1 < s.2 {
            &&& t.1 == s.1 + 1
            &&& {
                ||| R::steps(s.0, value, t.0, StepResult::Stop) && res == StepResult::Stop
                ||| R::steps(s.0, value, t.0, StepResult::Continue) && res == if t.1 < s.2 {
                    StepResult::Continue
                } else {
                    StepResult::Stop
                }
            }
        } else {
            t.1 == s.1 && t.0 == s.0 && res == StepResult::Stop
        }
    }

    open spec fn completes(s: (R::State, usize, usize), t: (R::State, usize, usize)) -> bool {
        t.1 == s.1 && t.2 == s.2 && R::completes(s.0, t.0)
    }

    open spec fn step_fails(
        s: (R::State, usize, usize),
        value: I,
        t: (R::State, usize, usize),
        e: E,
    ) -> bool {
        &&& s.1 < s.2
        &&& t.1 == s.1 + 1
        &&& t.2 == s.2
        &&& R::step_fails(s.0, value, t.0, e)
    }

    open spec fn complete_fails(s: (R::State, usize, usize), t: (R::State, usize, usize), e: E) -> bool {
        t.1 == s.1 && t.2 == s.2 && R::complete_fails(s.0, t.0, e)
    }

    fn init(&mut self) {
        self.rf.init();
    }

    fn into_produced(self) -> (r: Vec<OF>) {
        self.rf.into_produced()
    }

    fn output(&self) -> (r: &Vec<OF>) {
        self.rf.output()
    }

    fn step(&mut self, value: I) -> (r: Result<StepResult, E>) {
        if self.taken < self.t.0 {
            self.taken = self.taken + 1;
            let inner = self.rf.step(value);
            match inner {
                Ok(StepResult::Continue) => {
                    if self.taken < self.t.0 {
                        Ok(StepResult::Continue)
                    } else {
                        Ok(StepResult::Stop)
                    }
                },
                Ok(StepResult::Stop) => Ok(StepResult::Stop),
                Err(e) => Err(e),
            }
        } else {
            Ok(StepResult::Stop)
        }
    }

    fn complete(&mut self) -> (r: Result<(), E>) {
        self.rf.complete()
    }
}

/// Passes on the first `num` values, then asks for no more input.
pub fn take(num: usize) -> (r: TakeTransducer)
    ensures
        r.0 == num,
{
    TakeTransducer(num)
}

/// Configuration of a take-while stage.
pub struct TakeWhileTransducer<F>(pub F);

/// A take-while stage wrapped around the reducing function `rf`.
pub struct TakeWhileReducer<RF, F> {
    pub rf: RF,
    pub t: TakeWhileTransducer<F>,
}

impl<RI, F> Transducer<RI> for TakeWhileTransducer<F> {
    type RO = TakeWhileReducer<RI, F>;

    open spec fn wraps(self, rf: RI, r: TakeWhileReducer<RI, F>) -> bool {
        r == TakeWhileReducer { rf, t: self }
    }

    fn new(self, reducing_fn: RI) -> (r: TakeWhileReducer<RI, F>) {
        TakeWhileReducer { rf: reducing_fn, t: self }
    }
}

impl<R, I, OF, E, F> Reducing<I, OF, E> for TakeWhileReducer<R, F> where
    R: Reducing<I, OF, E>,
    F: Fn(&I) -> bool,
 {
    type State = (R::State, F);

    open spec fn state(&self) -> (R::State, F) {
        (self.rf.state(), self.t.0)
    }

    open spec fn wf(&self) -> bool {
        self.rf.wf() && purer(self.t.0)
    }

    open spec fn infallible(&self) -> bool {
        self.rf.infallible()
    }

    open spec fn produced(s: (R::State, F)) -> Seq<OF> {
        R::produced(s.0)
    }

    open spec fn steps(s: (R::State, F), value: I, t: (R::State, F), res: StepResult) -> bool {
        &&& t.1 == s.1
        &&& if fnr(s.1)(value) {
            R::steps(s.0, value, t.0, res)
        } else {
            t.0 == s.0 && res == StepResult::Stop
        }
    }

    open spec fn completes(s: (R::State, F), t: (R::State, F)) -> bool {
        t.1 == s.1 && R::completes(s.0, t.0)
    }

    open spec fn step_fails(s: (R::State, F), value: I, t: (R::State, F), e: E) -> bool {
        t.1 == s.1 && fnr(s.1)(value) && R::step_fails(s.0, value, t.0, e)
    }

    open spec fn complete_fails(s: (R::State, F), t: (R::State, F), e: E) -> bool {
        t.1 == s.1 && R::complete_fails(s.0, t.0, e)
    }

    fn init(&mut self) {
        self.rf.init();
    }

    fn into_produced(self) -> (r: Vec<OF>) {
        self.rf.into_produced()
    }

    fn output(&self) -> (r: &Vec<OF>) {
        self.rf.output()
    }

    fn step(&mut self, value: I) -> (r: Result<StepResult, E>) {
        let ok = (self.t.0)(&value);
        proof {
            lemma_fnr(self.t.0, value, ok);
        }
        if ok {
            self.rf.step(value)
        } else {
            Ok(StepResult::Stop)
        }
    }

    fn complete(&mut self) -> (r: Result<(), E>) {
        self.rf.complete()
    }
}

/// Passes on values while `pred` holds; at the first value on which it fails, asks
/// for no more input.
pub fn take_while<F, T>(pred: F) -> (r: TakeWhileTransducer<F>) where F: Fn(&T) -> bool
    ensures
        r.0 == pred,
{
    TakeWhileTransducer(pred)
}

/// Configuration of a drop-while stage.
pub struct DropWhileTransducer<F>(pub F);

/// A drop-while stage wrapped around the reducing function `rf`.
pub struct DropWhileReducer<RF, F> {
    pub rf: RF,
    pub t: DropWhileTransducer<F>,
    pub done: bool,
}

impl<RI, F> Transducer<RI> for DropWhileTransducer<F> {
    type RO = DropWhileReducer<RI, F>;

    open spec fn wraps(self, rf: RI, r: DropWhileReducer<RI, F>) -> bool {
        r == DropWhileReducer { rf, t: self, done: false }
    }

    fn new(self, reducing_fn: RI) -> (r: DropWhileReducer<RI, F>) {
        DropWhileReducer { rf: reducing_fn, t: self, done: false }
    }
}

impl<R, I, OF, E, F> Reducing<I, OF, E> for DropWhileReducer<R, F> where
    R: Reducing<I, OF, E>,
    F: Fn(&I) -> bool,
 {
    /// Inner state, predicate, and whether a value has failed the predicate yet.
    type State = (R::State, F, bool);

    open spec fn state(&self) -> (R::State, F, bool) {
        (self.rf.state(), self.t.0, self.done)
    }

    open spec fn wf(&self) -> bool {
        self.rf.wf() && purer(self.t.0)
    }

    open spec fn infallible(&self) -> bool {
        self.rf.infallible()
    }

    open spec fn produced(s: (R::State, F, bool)) -> Seq<OF> {
        R::produced(s.0)
    }

    open spec fn steps(
        s: (R::State, F, bool),
        value: I,
        t: (R::State, F, bool),
        res: StepResult,
    ) -> bool {
        &&& t.1 == s.1
        &&& if s.2 || !fnr(s.1)(value) {
            t.2 && R::steps(s.0, value, t.0, res)
        } else {
            !t.2 && t.0 == s.0 && res == StepResult::Continue
        }
    }

    open spec fn completes(s: (R::State, F, bool), t: (R::State, F, bool)) -> bool {
        t.1 == s.1 && t.2 == s.2 && R::completes(s.0, t.0)
    }

    open spec fn step_fails(
        s: (R::State, F, bool),
        value: I,
        t: (R::State, F, bool),
        e: E,
    ) -> bool {
        &&& t.1 == s.1
        &&& s.2 || !fnr(s.1)(value)
        &&& t.2
        &&& R::step_fails(s.0, value, t.0, e)
    }

    open spec fn complete_fails(s: (R::State, F, bool), t: (R::State, F, bool), e: E) -> bool {
        t.1 == s.1 && t.2 == s.2 && R::complete_fails(s.0, t.0, e)
    }

    fn init(&mut self) {
        self.rf.init();
    }

    fn into_produced(self) -> (r: Vec<OF>) {
        self.rf.into_produced()
    }

    fn output(&self) -> (r: &Vec<OF>) {
        self.rf.output()
    }

    fn step(&mut self, value: I) -> (r: Result<StepResult, E>) {
        if self.done {
            self.rf.step(value)
        } else {
            let dropping = (self.t.0)(&value);
            proof {
                lemma_fnr(self.t.0, value, dropping);
            }
            if !dropping {
                self.done = true;
                self.rf.step(value)
            } else {
                Ok(StepResult::Continue)
            }
        }
    }

    fn complete(&mut self) -> (r: Result<(), E>) {
        self.rf.complete()
    }
}

/// Discards values while `pred` holds, then passes on every value from the first on
/// which it fails.
pub fn drop_while<F, T>(pred: F) -> (r: DropWhileTransducer<F>) where F: Fn(&T) -> bool
    ensures
        r.0 == pred,
{
    DropWhileTransducer(pred)
}

/// Configuration of a drop stage.
pub struct DropTransducer(pub usize);

/// A drop stage wrapped around the reducing function `rf`.
pub struct DropReducer<RF> {
    pub rf: RF,
    pub dropped: usize,
    pub d: DropTransducer,
}

impl<RI> Transducer<RI> for DropTransducer {
    type RO = DropReducer<RI>;

    open spec fn wraps(self, rf: RI, r: DropReducer<RI>) -> bool {
        r == DropReducer { rf, dropped: 0, d: self }
    }

    fn new(self, reducing_fn: RI) -> (r: DropReducer<RI>) {
        DropReducer { rf: reducing_fn, dropped: 0, d: self }
    }
}

impl<R, I, OF, E> Reducing<I, OF, E> for DropReducer<R> where R: Reducing<I, OF, E> {
    /// Inner state, how many have been discarded, and how many to discard.
    type State = (R::State, usize, usize);

    open spec fn state(&self) -> (R::State, usize, usize) {
        (self.rf.state(), self.dropped, self.d.0)
    }

    open spec fn wf(&self) -> bool {
        self.rf.wf() && self.dropped <= self.d.0
    }

    open spec fn infallible(&self) -> bool {
        self.rf.infallible()
    }

    open spec fn produced(s: (R::State, usize, usize)) -> Seq<OF> {
        R::produced(s.0)
    }

    open spec fn steps(
        s: (R::State, usize, usize),
        value: I,
        t: (R::State, usize, usize),
        res: StepResult,
    ) -> bool {
        &&& t.2 == s.2
        &&& if s.1 < s.2 {
            t.1 == s.1 + 1 && t.0 == s.0 && res == StepResult::Continue
        } else {
            t.1 == s.1 && R::steps(s.0, value, t.0, res)
        }
    }

    open spec fn completes(s: (R::State, usize, usize), t: (R::State, usize, usize)) -> bool {
        t.1 == s.1 && t.2 == s.2 && R::completes(s.0, t.0)
    }

    open spec fn step_fails(
        s: (R::State, usize, usize),
        value: I,
        t: (R::State, usize, usize),
        e: E,
    ) -> bool {
        &&& s.1 >= s.2
        &&& t.1 == s.1
        &&& t.2 == s.2
        &&& R::step_fails(s.0, value, t.0, e)
    }

    open spec fn complete_fails(s: (R::State, usize, usize), t: (R::State, usize, usize), e: E) -> bool {
        t.1 == s.1 && t.2 == s.2 && R::complete_fails(s.0, t.0, e)
    }

    fn init(&mut self) {
        self.rf.init();
    }

    fn into_produced(self) -> (r: Vec<OF>) {
        self.rf.into_produced()
    }

    fn output(&self) -> (r: &Vec<OF>) {
        self.rf.output()
    }

    fn step(&mut self, value: I) -> (r: Result<StepResult, E>) {
        if self.dropped < self.d.0 {
            self.dropped = self.dropped + 1;
            Ok(StepResult::Continue)
        } else {
            self.rf.step(value)
        }
    }

    fn complete(&mut self) -> (r: Result<(), E>) {
        self.rf.complete()
    }
}

/// Discards the first `size` values and passes on the rest.
pub fn drop(size: usize) -> (r: DropTransducer)
    ensures
        r.0 == size,
{
    DropTransducer(size)
}

} // verus!

verus! {

/// Configuration of a partition / partition-all stage.
pub struct PartitionTransducer<T> {
    pub size: usize,
    pub all: bool,
    pub t: PhantomData<T>,
}

/// A partition / partition-all stage wrapped around the reducing function `rf`.
pub struct PartitionReducer<RF, T> {
    pub t: PartitionTransducer<T>,
    pub rf: RF,
    pub holder: Vec<T>,
}

impl<RI, T> Transducer<RI> for PartitionTransducer<T> {
    type RO = PartitionReducer<RI, T>;

    open spec fn wraps(self, rf: RI, r: PartitionReducer<RI, T>) -> bool {
        r.t == self && r.rf == rf && r.holder@.len() == 0
    }

    fn new(self, reducing_fn: RI) -> (r: PartitionReducer<RI, T>) {
        PartitionReducer { t: self, rf: reducing_fn, holder: Vec::new() }
    }
}

impl<R, I, OF, E> Reducing<I, OF, E> for PartitionReducer<R, I> where R: Reducing<Vec<I>, OF, E> {
    /// Inner state, the group being filled, its size, and whether a short last group
    /// is passed on at completion.
    type State = (R::State, Seq<I>, usize, bool);

    open spec fn state(&self) -> (R::State, Seq<I>, usize, bool) {
        (self.rf.state(), self.holder@, self.t.size, self.t.all)
    }

    open spec fn wf(&self) -> bool {
        self.rf.wf()
    }

    open spec fn infallible(&self) -> bool {
        self.rf.infallible()
    }

    open spec fn produced(s: (R::State, Seq<I>, usize, bool)) -> Seq<OF> {
        R::produced(s.0)
    }

    open spec fn steps(
        s: (R::State, Seq<I>, usize, bool),
        value: I,
        t: (R::State, Seq<I>, usize, bool),
        res: StepResult,
    ) -> bool {
        let h = s.1.push(value);
        &&& t.2 == s.2
        &&& t.3 == s.3
        &&& if h.len() == s.2 {
            &&& t.1.len() == 0
            &&& exists|w: Vec<I>| w@ == h && #[trigger] R::steps(s.0, w, t.0, res)
        } else {
            t.1 == h && t.0 == s.0 && res == StepResult::Continue
        }
    }

    open spec fn completes(
        s: (R::State, Seq<I>, usize, bool),
        t: (R::State, Seq<I>, usize, bool),
    ) -> bool {
        &&& t.1.len() == 0
        &&& t.2 == s.2
        &&& t.3 == s.3
        &&& if s.3 && s.1.len() > 0 {
            exists|w: Vec<I>, m: R::State, r1: StepResult|
                w@ == s.1 && #[trigger] R::steps(s.0, w, m, r1) && R::completes(m, t.0)
        } else {
            R::completes(s.0, t.0)
        }
    }

    open spec fn step_fails(
        s: (R::State, Seq<I>, usize, bool),
        value: I,
        t: (R::State, Seq<I>, usize, bool),
        e: E,
    ) -> bool {
        let h = s.1.push(value);
        &&& t.2 == s.2
        &&& t.3 == s.3
        &&& h.len() == s.2
        &&& t.1.len() == 0
        &&& exists|w: Vec<I>| w@ == h && #[trigger] R::step_fails(s.0, w, t.0, e)
    }

    /// The last group fails, or it is accepted and the inner completion then fails.
    open spec fn complete_fails(
        s: (R::State, Seq<I>, usize, bool),
        t: (R::State, Seq<I>, usize, bool),
        e: E,
    ) -> bool {
        &&& t.1.len() == 0
        &&& t.2 == s.2
        &&& t.3 == s.3
        &&& if s.3 && s.1.len() > 0 {
            ||| exists|w: Vec<I>| w@ == s.1 && #[trigger] R::step_fails(s.0, w, t.0, e)
            ||| exists|w: Vec<I>, m: R::State, r1: StepResult|
                w@ == s.1 && #[trigger] R::steps(s.0, w, m, r1) && R::complete_fails(m, t.0, e)
        } else {
            R::complete_fails(s.0, t.0, e)
        }
    }

    fn init(&mut self) {
        self.rf.init();
    }

    fn into_produced(self) -> (r: Vec<OF>) {
        self.rf.into_produced()
    }

    fn output(&self) -> (r: &Vec<OF>) {
        self.rf.output()
    }

    fn step(&mut self, value: I) -> (r: Result<StepResult, E>) {
        self.holder.push(value);
        if self.holder.len() == self.t.size {
            let mut group = Vec::new();
            std::mem::swap(&mut group, &mut self.holder);
            let ghost w = group;
            assert(w@ == old(self).holder@.push(value));
            let r = self.rf.step(group);
            proof {
                if r is Ok {
                    assert(R::steps(old(self).state().0, w, self.state().0, r->Ok_0));
                } else {
                    assert(R::step_fails(old(self).state().0, w, self.state().0, r->Err_0));
                }
            }
            r
        } else {
            Ok(StepResult::Continue)
        }
    }

    fn complete(&mut self) -> (r: Result<(), E>) {
        let mut group = Vec::new();
        std::mem::swap(&mut group, &mut self.holder);
        if self.t.all && group.len() > 0 {
            let ghost w = group;
            let r1 = match self.rf.step(group) {
                Ok(r1) => r1,
                Err(e) => {
                    assert(R::step_fails(old(self).state().0, w, self.state().0, e));
                    return Err(e);
                },
            };
            let ghost m = self.rf.state();
            let r = self.rf.complete();
            proof {
                assert(R::steps(old(self).state().0, w, m, r1));
                if r is Ok {
                    assert(R::completes(m, self.state().0));
                } else {
                    assert(R::complete_fails(m, self.state().0, r->Err_0));
                }
            }
            r
        } else {
            self.rf.complete()
        }
    }
}

/// Groups of exactly `num` values; a short last group is discarded.
pub fn partition<T>(num: usize) -> (r: PartitionTransducer<T>)
    ensures
        r.size == num,
        !r.all,
{
    PartitionTransducer { size: num, all: false, t: PhantomData }
}

/// Groups of `num` values; a short, non-empty last group is passed on at completion.
pub fn partition_all<T>(num: usize) -> (r: PartitionTransducer<T>)
    ensures
        r.size == num,
        r.all,
{
    PartitionTransducer { size: num, all: true, t: PhantomData }
}

/// Configuration of a substitution stage.
pub struct ReplaceTransducer<T>(pub HashMap<T, T>);

/// A substitution stage wrapped around the reducing function `rf`.
pub struct ReplaceReducer<RF, T> {
    pub rf: RF,
    pub t: ReplaceTransducer<T>,
}

impl<RI, T> Transducer<RI> for ReplaceTransducer<T> {
    type RO = ReplaceReducer<RI, T>;

    open spec fn wraps(self, rf: RI, r: ReplaceReducer<RI, T>) -> bool {
        r == ReplaceReducer { rf, t: self }
    }

    fn new(self, reducing_fn: RI) -> (r: ReplaceReducer<RI, T>) {
        ReplaceReducer { rf: reducing_fn, t: self }
    }
}

/// `value` after substitution by the table `m`.
pub open spec fn substituted<T>(m: Map<T, T>, value: T) -> T {
    if m.contains_key(value) {
        m[value]
    } else {
        value
    }
}

impl<R, I, OF, E> Reducing<I, OF, E> for ReplaceReducer<R, I> where
    I: Eq + Hash + Copy,
    R: Reducing<I, OF, E>,
 {
    /// Inner state and the substitution table.
    type State = (R::State, Map<I, I>);

    open spec fn state(&self) -> (R::State, Map<I, I>) {
        (self.rf.state(), self.t.0@)
    }

    open spec fn wf(&self) -> bool {
        self.rf.wf() && obeys_key_model::<I>()
    }

    open spec fn infallible(&self) -> bool {
        self.rf.infallible()
    }

    open spec fn produced(s: (R::State, Map<I, I>)) -> Seq<OF> {
        R::produced(s.0)
    }

    open spec fn steps(
        s: (R::State, Map<I, I>),
        value: I,
        t: (R::State, Map<I, I>),
        res: StepResult,
    ) -> bool {
        t.1 == s.1 && R::steps(s.0, substituted(s.1, value), t.0, res)
    }

    open spec fn completes(s: (R::State, Map<I, I>), t: (R::State, Map<I, I>)) -> bool {
        t.1 == s.1 && R::completes(s.0, t.0)
    }

    open spec fn step_fails(
        s: (R::State, Map<I, I>),
        value: I,
        t: (R::State, Map<I, I>),
        e: E,
    ) -> bool {
        t.1 == s.1 && R::step_fails(s.0, substituted(s.1, value), t.0, e)
    }

    open spec fn complete_fails(s: (R::State, Map<I, I>), t: (R::State, Map<I, I>), e: E) -> bool {
        t.1 == s.1 && R::complete_fails(s.0, t.0, e)
    }

    fn init(&mut self) {
        self.rf.init();
    }

    fn into_produced(self) -> (r: Vec<OF>) {
        self.rf.into_produced()
    }

    fn output(&self) -> (r: &Vec<OF>) {
        self.rf.output()
    }

    fn step(&mut self, value: I) -> (r: Result<StepResult, E>) {
        broadcast use vstd::std_specs::hash::group_hash_axioms;

        let v: I = match self.t.0.get(&value) {
            Some(val) => *val,
            None => value,
        };
        self.rf.step(v)
    }

    fn complete(&mut self) -> (r: Result<(), E>) {
        self.rf.complete()
    }
}

/// Substitutes each value found among the keys of `replacements` by its entry.
pub fn replace<T>(replacements: HashMap<T, T>) -> (r: ReplaceTransducer<T>)
    ensures
        r.0@ == replacements@,
{
    ReplaceTransducer(replacements)
}

/// Configuration of a partition-by stage.
pub struct PartitionByTransducer<F, T, R> {
    pub f: F,
    pub t: PhantomData<T>,
    pub k: PhantomData<R>,
}

/// A partition-by stage wrapped around the reducing function `rf`.
pub struct PartitionByReducer<RF, F, T, R> {
    pub rf: RF,
    pub t: PartitionByTransducer<F, T, R>,
    pub holder: Vec<T>,
    pub last_res: Option<R>,
}

impl<RI, F, T, R> Transducer<RI> for PartitionByTransducer<F, T, R> {
    type RO = PartitionByReducer<RI, F, T, R>;

    open spec fn wraps(self, rf: RI, r: PartitionByReducer<RI, F, T, R>) -> bool {
        r.rf == rf && r.t == self && r.holder@.len() == 0 && r.last_res is None
    }

    fn new(self, reducing_fn: RI) -> (r: PartitionByReducer<RI, F, T, R>) {
        PartitionByReducer { rf: reducing_fn, t: self, holder: Vec::new(), last_res: None }
    }
}

impl<R, I, OF, E, F, X> Reducing<I, OF, E> for PartitionByReducer<R, F, I, X> where
    R: Reducing<Vec<I>, OF, E>,
    F: Fn(&I) -> X,
    X: PartialEq,
 {
    /// Inner state, key function, the group being filled, and the key of the last value.
    type State = (R::State, F, Seq<I>, Option<X>);

    open spec fn state(&self) -> (R::State, F, Seq<I>, Option<X>) {
        (self.rf.state(), self.t.f, self.holder@, self.last_res)
    }

    open spec fn wf(&self) -> bool {
        self.rf.wf() && purer(self.t.f) && obeys_concrete_eq::<X>()
    }

    open spec fn infallible(&self) -> bool {
        self.rf.infallible()
    }

    open spec fn produced(s: (R::State, F, Seq<I>, Option<X>)) -> Seq<OF> {
        R::produced(s.0)
    }

    open spec fn steps(
        s: (R::State, F, Seq<I>, Option<X>),
        value: I,
        t: (R::State, F, Seq<I>, Option<X>),
        res: StepResult,
    ) -> bool {
        let k = fnr(s.1)(value);
        &&& t.1 == s.1
        &&& t.3 == Some(k)
        &&& if s.3 is None || s.3 == Some(k) {
            t.2 == s.2.push(value) && t.0 == s.0 && res == StepResult::Continue
        } else {
            &&& t.2 == seq![value]
            &&& exists|w: Vec<I>| w@ == s.2 && #[trigger] R::steps(s.0, w, t.0, res)
        }
    }

    open spec fn completes(
        s: (R::State, F, Seq<I>, Option<X>),
        t: (R::State, F, Seq<I>, Option<X>),
    ) -> bool {
        &&& t.1 == s.1
        &&& t.2.len() == 0
        &&& t.3 == s.3
        &&& if s.2.len() > 0 {
            exists|w: Vec<I>, m: R::State, r1: StepResult|
                w@ == s.2 && #[trigger] R::steps(s.0, w, m, r1) && R::completes(m, t.0)
        } else {
            R::completes(s.0, t.0)
        }
    }

    open spec fn step_fails(
        s: (R::State, F, Seq<I>, Option<X>),
        value: I,
        t: (R::State, F, Seq<I>, Option<X>),
        e: E,
    ) -> bool {
        let k = fnr(s.1)(value);
        &&& t.1 == s.1
        &&& t.3 == Some(k)
        &&& s.3 is Some && s.3 != Some(k)
        &&& t.2 == seq![value]
        &&& exists|w: Vec<I>| w@ == s.2 && #[trigger] R::step_fails(s.0, w, t.0, e)
    }

    /// The last group fails, or it is accepted and the inner completion then fails.
    open spec fn complete_fails(
        s: (R::State, F, Seq<I>, Option<X>),
        t: (R::State, F, Seq<I>, Option<X>),
        e: E,
    ) -> bool {
        &&& t.1 == s.1
        &&& t.2.len() == 0
        &&& t.3 == s.3
        &&& if s.2.len() > 0 {
            ||| exists|w: Vec<I>| w@ == s.2 && #[trigger] R::step_fails(s.0, w, t.0, e)
            ||| exists|w: Vec<I>, m: R::State, r1: StepResult|
                w@ == s.2 && #[trigger] R::steps(s.0, w, m, r1) && R::complete_fails(m, t.0, e)
        } else {
            R::complete_fails(s.0, t.0, e)
        }
    }

    fn init(&mut self) {
        self.rf.init();
    }

    fn into_produced(self) -> (r: Vec<OF>) {
        self.rf.into_produced()
    }

    fn output(&self) -> (r: &Vec<OF>) {
        self.rf.output()
    }

    fn step(&mut self, value: I) -> (r: Result<StepResult, E>) {
        let key = (self.t.f)(&value);
        proof {
            lemma_fnr(self.t.f, value, key);
            reveal(obeys_concrete_eq);
        }
        let same = match &self.last_res {
            None => true,
            Some(last) => *last == key,
        };
        self.last_res = Some(key);
        if same {
            self.holder.push(value);
            Ok(StepResult::Continue)
        } else {
            let mut group = Vec::new();
            std::mem::swap(&mut group, &mut self.holder);
            self.holder.push(value);
            let ghost w = group;
            let r = self.rf.step(group);
            proof {
                assert(self.holder@ =~= seq![value]);
                if r is Ok {
                    assert(R::steps(old(self).state().0, w, self.state().0, r->Ok_0));
                } else {
                    assert(R::step_fails(old(self).state().0, w, self.state().0, r->Err_0));
                }
            }
            r
        }
    }

    fn complete(&mut self) -> (r: Result<(), E>) {
        let mut group = Vec::new();
        std::mem::swap(&mut group, &mut self.holder);
        if group.len() > 0 {
            let ghost w = group;
            let r1 = match self.rf.step(group) {
                Ok(r1) => r1,
                Err(e) => {
                    assert(R::step_fails(old(self).state().0, w, self.state().0, e));
                    return Err(e);
                },
            };
            let ghost m = self.rf.state();
            let r = self.rf.complete();
            proof {
                assert(R::steps(old(self).state().0, w, m, r1));
                if r is Ok {
                    assert(R::completes(m, self.state().0));
                } else {
                    assert(R::complete_fails(m, self.state().0, r->Err_0));
                }
            }
            r
        } else {
            self.rf.complete()
        }
    }
}

/// Groups runs of consecutive values on which `partition_func` gives equal keys.
pub fn partition_by<F, T, R>(partition_func: F) -> (r: PartitionByTransducer<F, T, R>) where
    F: Fn(&T) -> R,
    ensures
        r.f == partition_func,
{
    PartitionByTransducer { f: partition_func, t: PhantomData, k: PhantomData }
}

/// Configuration of a interpose stage.
pub struct InterposeTransducer<T>(pub T);

/// A interpose stage wrapped around the reducing function `rf`.
pub struct InterposeReducer<R, T> {
    pub first: bool,
    pub rf: R,
    pub t: InterposeTransducer<T>,
}

impl<RI, T> Transducer<RI> for InterposeTransducer<T> {
    type RO = InterposeReducer<RI, T>;

    open spec fn wraps(self, rf: RI, r: InterposeReducer<RI, T>) -> bool {
        r == InterposeReducer { first: true, rf, t: self }
    }

    fn new(self, reducing_fn: RI) -> (r: InterposeReducer<RI, T>) {
        InterposeReducer { first: true, rf: reducing_fn, t: self }
    }
}

impl<R, I, OF, E> Reducing<I, OF, E> for InterposeReducer<R, I> where
    I: Copy,
    R: Reducing<I, OF, E>,
 {
    /// Inner state, separator, and whether no value has been passed on yet.
    type State = (R::State, I, bool);

    open spec fn state(&self) -> (R::State, I, bool) {
        (self.rf.state(), self.t.0, self.first)
    }

    open spec fn wf(&self) -> bool {
        self.rf.wf()
    }

    open spec fn infallible(&self) -> bool {
        self.rf.infallible()
    }

    open spec fn produced(s: (R::State, I, bool)) -> Seq<OF> {
        R::produced(s.0)
    }

    open spec fn steps(s: (R::State, I, bool), value: I, t: (R::State, I, bool), res: StepResult) -> bool {
        &&& t.1 == s.1
        &&& !t.2
        &&& if s.2 {
            R::steps(s.0, value, t.0, res)
        } else {
            ||| R::steps(s.0, s.1, t.0, StepResult::Stop) && res == StepResult::Stop
            ||| exists|m: R::State|
                #[trigger] R::steps(s.0, s.1, m, StepResult::Continue) && R::steps(
                    m,
                    value,
                    t.0,
                    res,
                )
        }
    }

    open spec fn completes(s: (R::State, I, bool), t: (R::State, I, bool)) -> bool {
        t.1 == s.1 && t.2 == s.2 && R::completes(s.0, t.0)
    }

    /// The separator fails, or it is accepted and the value then fails.
    open spec fn step_fails(s: (R::State, I, bool), value: I, t: (R::State, I, bool), e: E) -> bool {
        &&& t.1 == s.1
        &&& !t.2
        &&& if s.2 {
            R::step_fails(s.0, value, t.0, e)
        } else {
            ||| R::step_fails(s.0, s.1, t.0, e)
            ||| exists|m: R::State|
                #[trigger] R::steps(s.0, s.1, m, StepResult::Continue) && R::step_fails(
                    m,
                    value,
                    t.0,
                    e,
                )
        }
    }

    open spec fn complete_fails(s: (R::State, I, bool), t: (R::State, I, bool), e: E) -> bool {
        t.1 == s.1 && t.2 == s.2 && R::complete_fails(s.0, t.0, e)
    }

    fn init(&mut self) {
        self.rf.init();
    }

    fn into_produced(self) -> (r: Vec<OF>) {
        self.rf.into_produced()
    }

    fn output(&self) -> (r: &Vec<OF>) {
        self.rf.output()
    }

    fn step(&mut self, value: I) -> (r: Result<StepResult, E>) {
        if self.first {
            self.first = false;
        } else {
            let sep = self.t.0;
            match self.rf.step(sep) {
                Ok(StepResult::Continue) => {},
                Ok(StepResult::Stop) => {
                    return Ok(StepResult::Stop);
                },
                Err(e) => {
                    return Err(e);
                },
            }
        }
        let ghost m = self.rf.state();
        let r = self.rf.step(value);
        proof {
            if r is Ok && !old(self).first {
                assert(R::steps(old(self).state().0, old(self).state().1, m, StepResult::Continue));
                assert(R::steps(m, value, self.state().0, r->Ok_0));
            }
        }
        r
    }

    fn complete(&mut self) -> (r: Result<(), E>) {
        self.rf.complete()
    }
}

/// Passes on `separator` between each two consecutive values.
pub fn interpose<T>(separator: T) -> (r: InterposeTransducer<T>)
    ensures
        r.0 == separator,
{
    InterposeTransducer(separator)
}

/// Configuration of a dedupe stage.
pub struct DedupeTransducer<T>(pub PhantomData<T>);

/// A dedupe stage wrapped around the reducing function `rf`.
pub struct DedupeReducer<R, T> {
    pub last_val: Option<T>,
    pub rf: R,
}

impl<RI, T> Transducer<RI> for DedupeTransducer<T> {
    type RO = DedupeReducer<RI, T>;

    open spec fn wraps(self, rf: RI, r: DedupeReducer<RI, T>) -> bool {
        r == DedupeReducer::<RI, T> { last_val: None, rf }
    }

    fn new(self, reducing_fn: RI) -> (r: DedupeReducer<RI, T>) {
        DedupeReducer { last_val: None, rf: reducing_fn }
    }
}

impl<R, I, OF, E> Reducing<I, OF, E> for DedupeReducer<R, I> where
    I: PartialEq + Copy,
    R: Reducing<I, OF, E>,
 {
    /// Inner state and the last value passed on.
    type State = (R::State, Option<I>);

    open spec fn state(&self) -> (R::State, Option<I>) {
        (self.rf.state(), self.last_val)
    }

    open spec fn wf(&self) -> bool {
        self.rf.wf() && obeys_concrete_eq::<I>()
    }

    open spec fn infallible(&self) -> bool {
        self.rf.infallible()
    }

    open spec fn produced(s: (R::State, Option<I>)) -> Seq<OF> {
        R::produced(s.0)
    }

    open spec fn steps(s: (R::State, Option<I>), value: I, t: (R::State, Option<I>), res: StepResult) -> bool {
        if s.1 == Some(value) {
            t == s && res == StepResult::Continue
        } else {
            t.1 == Some(value) && R::steps(s.0, value, t.0, res)
        }
    }

    open spec fn completes(s: (R::State, Option<I>), t: (R::State, Option<I>)) -> bool {
        t.1 == s.1 && R::completes(s.0, t.0)
    }

    open spec fn step_fails(
        s: (R::State, Option<I>),
        value: I,
        t: (R::State, Option<I>),
        e: E,
    ) -> bool {
        &&& s.1 != Some(value)
        &&& t.1 == Some(value)
        &&& R::step_fails(s.0, value, t.0, e)
    }

    open spec fn complete_fails(s: (R::State, Option<I>), t: (R::State, Option<I>), e: E) -> bool {
        t.1 == s.1 && R::complete_fails(s.0, t.0, e)
    }

    fn init(&mut self) {
        self.rf.init();
    }

    fn into_produced(self) -> (r: Vec<OF>) {
        self.rf.into_produced()
    }

    fn output(&self) -> (r: &Vec<OF>) {
        self.rf.output()
    }

    fn step(&mut self, value: I) -> (r: Result<StepResult, E>) {
        proof {
            reveal(obeys_concrete_eq);
        }
        let repeated = match self.last_val {
            None => false,
            Some(last) => last == value,
        };
        if repeated {
            Ok(StepResult::Continue)
        } else {
            self.last_val = Some(value);
            self.rf.step(value)
        }
    }

    fn complete(&mut self) -> (r: Result<(), E>) {
        self.rf.complete()
    }
}

/// Drops each value equal to the value passed on just before it.
pub fn dedupe<T>() -> (r: DedupeTransducer<T>) {
    DedupeTransducer(PhantomData)
}

} // verus!
