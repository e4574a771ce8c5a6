use vstd::prelude::*;

use crate::{Reducing, StepResult};

verus! {

/// Terminal reducing function that appends every value to a vector.
pub struct VecSink<T> {
    pub items: Vec<T>,
}

impl<T> VecSink<T> {
    pub fn new() -> (r: Self)
        ensures
            r.items@ == Seq::<T>::empty(),
    {
        VecSink { items: Vec::new() }
    }

    pub fn into_items(self) -> (r: Vec<T>)
        ensures
            r@ == self.items@,
    {
        self.items
    }
}

impl<T, E> Reducing<T, T, E> for VecSink<T> {
    type State = Seq<T>;

    open spec fn state(&self) -> Seq<T> {
        self.items@
    }

    open spec fn wf(&self) -> bool {
        true
    }

    open spec fn infallible(&self) -> bool {
        true
    }

    open spec fn produced(s: Seq<T>) -> Seq<T> {
        s
    }

    open spec fn steps(s: Seq<T>, value: T, t: Seq<T>, res: StepResult) -> bool {
        t == s.push(value) && res == StepResult::Continue
    }

    open spec fn completes(s: Seq<T>, t: Seq<T>) -> bool {
        t == s
    }

    open spec fn step_fails(s: Seq<T>, value: T, t: Seq<T>, e: E) -> bool {
        false
    }

    open spec fn complete_fails(s: Seq<T>, t: Seq<T>, e: E) -> bool {
        false
    }

    fn init(&mut self) {
    }

    fn into_produced(self) -> (r: Vec<T>) {
        self.items
    }

    fn output(&self) -> (r: &Vec<T>) {
        &self.items
    }

    fn step(&mut self, value: T) -> (r: Result<StepResult, E>) {
        self.items.push(value);
        Ok(StepResult::Continue)
    }

    fn complete(&mut self) -> (r: Result<(), E>) {
        Ok(())
    }
}

} // verus!
