use vstd::prelude::*;

use crate::apply::{run_output, runs};
use crate::funcs::{fn1, fnr, pure1, purer};
use crate::sink::VecSink;
use crate::transducers::{
    DedupeReducer, DedupeTransducer, FilterReducer, FilterTransducer, MapReducer, MapTransducer,
    TakeReducer, TakeTransducer,
};
use std::marker::PhantomData;
use vstd::laws_eq::obeys_concrete_eq;
use crate::{ComposedTransducer, Reducing, StepResult, Transducer};

verus! {

/// A map stage in front of a filter stage in front of a vector sink.
pub type MapFilterPipe<O, F, P> = MapReducer<FilterReducer<VecSink<O>, P>, F>;

/// A map transducer composed with a filter transducer.
pub type MapThenFilter<F, P> = ComposedTransducer<MapTransducer<F>, FilterTransducer<P>>;

proof fn lemma_map_filter_runs<F, P, I, O, E>(
    f: F,
    p: P,
    q: Seq<O>,
    input: Seq<I>,
    end: ((Seq<O>, P, bool), F),
    k: nat,
) where F: Fn(I) -> O, P: Fn(&O) -> bool
    requires
        runs::<MapFilterPipe<O, F, P>, I, O, E>(((q, p, true), f), input, end, k),
    ensures
        end.0.0 == q + input.map_values(fn1(f)).filter(fnr(p)),
        k == input.len(),
    decreases input.len(),
{
    broadcast use Seq::lemma_filter_prepend;

    if input.len() == 0 {
        assert(input.map_values(fn1(f)) =~= Seq::<O>::empty());
        assert(Seq::<O>::empty().filter(fnr(p)) =~= Seq::<O>::empty()) by {
            reveal(Seq::filter);
        }
    } else {
        let (m, r1) = choose|m: ((Seq<O>, P, bool), F), r1: StepResult|
            #[trigger] <MapFilterPipe<O, F, P> as Reducing<I, O, E>>::steps(((q, p, true), f), input[0], m, r1) && if r1
                == StepResult::Stop {
                k == 1 && <MapFilterPipe<O, F, P> as Reducing<I, O, E>>::completes(m, end)
            } else {
                k > 0 && runs::<MapFilterPipe<O, F, P>, I, O, E>(
                    m,
                    input.drop_first(),
                    end,
                    (k - 1) as nat,
                )
            };
        let y = fn1(f)(input[0]);
        let kept = if fnr(p)(y) {
            seq![y]
        } else {
            Seq::empty()
        };
        assert(m.0.0 == q + kept);
        lemma_map_filter_runs::<F, P, I, O, E>(f, p, m.0.0, input.drop_first(), end, (k - 1) as nat);
        let rest = input.drop_first().map_values(fn1(f));
        assert(input.map_values(fn1(f)) =~= seq![y] + rest);
        assert(q + kept + rest.filter(fnr(p)) =~= q + (kept + rest.filter(fnr(p))));
    }
}

/// Run by the vector adapter, a map by `f` composed with a filter by `p` consumes the
/// whole input and yields `f` of each value, keeping those on which `p` holds, in input
/// order.
pub proof fn law_map_then_filter<F, P, I, O, E>(f: F, p: P, input: Seq<I>, out: Seq<O>, k: nat) where
    F: Fn(I) -> O,
    P: Fn(&O) -> bool,

    requires
        run_output::<MapThenFilter<F, P>, MapFilterPipe<O, F, P>, I, O, E>(
            ComposedTransducer { a: MapTransducer { f }, b: FilterTransducer { f: p, inclusive: true } },
            input,
            out,
            k,
        ),
    ensures
        out == input.map_values(fn1(f)).filter(fnr(p)),
        k == input.len(),
{
    let t = ComposedTransducer { a: MapTransducer { f }, b: FilterTransducer { f: p, inclusive: true } };
    let (sink, rf, end) = choose|sink: VecSink<O>, rf: MapFilterPipe<O, F, P>, end: ((Seq<O>, P, bool), F)|
        sink.items@.len() == 0 && #[trigger] t.wraps(sink, rf) && #[trigger] runs::<
            MapFilterPipe<O, F, P>,
            I,
            O,
            E,
        >(<MapFilterPipe<O, F, P> as Reducing<I, O, E>>::state(&rf), input, end, k) && out == <MapFilterPipe<O, F, P> as Reducing<I, O, E>>::produced(end);
    let mid = choose|mid: FilterReducer<VecSink<O>, P>| #[trigger] t.b.wraps(sink, mid) && t.a.wraps(mid, rf);
    assert(<MapFilterPipe<O, F, P> as Reducing<I, O, E>>::state(&rf) == ((sink.items@, p, true), f));
    lemma_map_filter_runs::<F, P, I, O, E>(f, p, sink.items@, input, end, k);
    assert(sink.items@ + input.map_values(fn1(f)).filter(fnr(p)) =~= input.map_values(fn1(f)).filter(fnr(p)));
}

/// A filter stage in front of a map stage in front of a vector sink.
pub type FilterMapPipe<O, P, F> = FilterReducer<MapReducer<VecSink<O>, F>, P>;

/// A filter transducer composed with a map transducer.
pub type FilterThenMap<P, F> = ComposedTransducer<FilterTransducer<P>, MapTransducer<F>>;

proof fn lemma_filter_map_runs<P, F, I, O, E>(
    p: P,
    f: F,
    q: Seq<O>,
    input: Seq<I>,
    end: ((Seq<O>, F), P, bool),
    k: nat,
) where P: Fn(&I) -> bool, F: Fn(I) -> O
    requires
        runs::<FilterMapPipe<O, P, F>, I, O, E>(((q, f), p, true), input, end, k),
    ensures
        end.0.0 == q + input.filter(fnr(p)).map_values(fn1(f)),
        k == input.len(),
    decreases input.len(),
{
    broadcast use Seq::lemma_filter_prepend;

    if input.len() == 0 {
        assert(Seq::<I>::empty().filter(fnr(p)) =~= Seq::<I>::empty()) by {
            reveal(Seq::filter);
        }
        assert(input =~= Seq::<I>::empty());
        assert(q + Seq::<I>::empty().map_values(fn1(f)) =~= q);
    } else {
        let (m, r1) = choose|m: ((Seq<O>, F), P, bool), r1: StepResult|
            #[trigger] <FilterMapPipe<O, P, F> as Reducing<I, O, E>>::steps(
                ((q, f), p, true),
                input[0],
                m,
                r1,
            ) && if r1 == StepResult::Stop {
                k == 1 && <FilterMapPipe<O, P, F> as Reducing<I, O, E>>::completes(m, end)
            } else {
                k > 0 && runs::<FilterMapPipe<O, P, F>, I, O, E>(
                    m,
                    input.drop_first(),
                    end,
                    (k - 1) as nat,
                )
            };
        let x = input[0];
        let kept = if fnr(p)(x) {
            seq![x]
        } else {
            Seq::empty()
        };
        assert(m.0.0 == q + kept.map_values(fn1(f)));
        lemma_filter_map_runs::<P, F, I, O, E>(p, f, m.0.0, input.drop_first(), end, (k - 1) as nat);
        let rest = input.drop_first().filter(fnr(p));
        assert(input =~= seq![x] + input.drop_first());
        assert((kept + rest).map_values(fn1(f)) =~= kept.map_values(fn1(f)) + rest.map_values(fn1(f)));
        assert(q + kept.map_values(fn1(f)) + rest.map_values(fn1(f)) =~= q + (kept.map_values(fn1(f))
            + rest.map_values(fn1(f))));
    }
}

/// Run by the vector adapter, a filter by `p` composed with a map by `f` consumes the
/// whole input and yields `f` of each value on which `p` holds, in input order.
pub proof fn law_filter_then_map<P, F, I, O, E>(p: P, f: F, input: Seq<I>, out: Seq<O>, k: nat) where
    P: Fn(&I) -> bool,
    F: Fn(I) -> O,

    requires
        run_output::<FilterThenMap<P, F>, FilterMapPipe<O, P, F>, I, O, E>(
            ComposedTransducer { a: FilterTransducer { f: p, inclusive: true }, b: MapTransducer { f } },
            input,
            out,
            k,
        ),
    ensures
        out == input.filter(fnr(p)).map_values(fn1(f)),
        k == input.len(),
{
    let t = ComposedTransducer { a: FilterTransducer { f: p, inclusive: true }, b: MapTransducer { f } };
    let (sink, rf, end) = choose|sink: VecSink<O>, rf: FilterMapPipe<O, P, F>, end: ((Seq<O>, F), P, bool)|
        sink.items@.len() == 0 && #[trigger] t.wraps(sink, rf) && #[trigger] runs::<
            FilterMapPipe<O, P, F>,
            I,
            O,
            E,
        >(<FilterMapPipe<O, P, F> as Reducing<I, O, E>>::state(&rf), input, end, k) && out
            == <FilterMapPipe<O, P, F> as Reducing<I, O, E>>::produced(end);
    let mid = choose|mid: MapReducer<VecSink<O>, F>| #[trigger] t.b.wraps(sink, mid) && t.a.wraps(mid, rf);
    lemma_filter_map_runs::<P, F, I, O, E>(p, f, sink.items@, input, end, k);
    assert(sink.items@ + input.filter(fnr(p)).map_values(fn1(f)) =~= input.filter(fnr(p)).map_values(fn1(f)));
}

/// Two map stages in front of a vector sink.
pub type MapMapPipe<O, F, G> = MapReducer<MapReducer<VecSink<O>, G>, F>;

/// A map transducer composed with another map transducer.
pub type MapThenMap<F, G> = ComposedTransducer<MapTransducer<F>, MapTransducer<G>>;

proof fn lemma_map_map_runs<F, G, I, O, E>(
    f: F,
    g: G,
    q: Seq<I>,
    input: Seq<I>,
    end: ((Seq<I>, G), F),
    k: nat,
) where F: Fn(I) -> O, G: Fn(O) -> I
    requires
        forall|x: I| #[trigger] fn1(g)(fn1(f)(x)) == x,
        runs::<MapMapPipe<I, F, G>, I, I, E>(((q, g), f), input, end, k),
    ensures
        end.0.0 == q + input,
        k == input.len(),
    decreases input.len(),
{
    if input.len() > 0 {
        let (m, r1) = choose|m: ((Seq<I>, G), F), r1: StepResult|
            #[trigger] <MapMapPipe<I, F, G> as Reducing<I, I, E>>::steps(
                ((q, g), f),
                input[0],
                m,
                r1,
            ) && if r1 == StepResult::Stop {
                k == 1 && <MapMapPipe<I, F, G> as Reducing<I, I, E>>::completes(m, end)
            } else {
                k > 0 && runs::<MapMapPipe<I, F, G>, I, I, E>(
                    m,
                    input.drop_first(),
                    end,
                    (k - 1) as nat,
                )
            };
        assert(fn1(g)(fn1(f)(input[0])) == input[0]);
        lemma_map_map_runs::<F, G, I, O, E>(f, g, m.0.0, input.drop_first(), end, (k - 1) as nat);
        assert(q + input =~= q.push(input[0]) + input.drop_first());
    } else {
        assert(q + input =~= q);
    }
}

/// Run by the vector adapter, a map by `f` composed with a map by an inverse `g` of `f`
/// gives back the input unchanged.
pub proof fn law_map_round_trip<F, G, I, O, E>(f: F, g: G, input: Seq<I>, out: Seq<I>, k: nat) where
    F: Fn(I) -> O,
    G: Fn(O) -> I,

    requires
        forall|x: I| #[trigger] fn1(g)(fn1(f)(x)) == x,
        run_output::<MapThenMap<F, G>, MapMapPipe<I, F, G>, I, I, E>(
            ComposedTransducer { a: MapTransducer { f }, b: MapTransducer { f: g } },
            input,
            out,
            k,
        ),
    ensures
        out == input,
{
    let t = ComposedTransducer { a: MapTransducer { f }, b: MapTransducer { f: g } };
    let (sink, rf, end) = choose|sink: VecSink<I>, rf: MapMapPipe<I, F, G>, end: ((Seq<I>, G), F)|
        sink.items@.len() == 0 && #[trigger] t.wraps(sink, rf) && #[trigger] runs::<
            MapMapPipe<I, F, G>,
            I,
            I,
            E,
        >(<MapMapPipe<I, F, G> as Reducing<I, I, E>>::state(&rf), input, end, k) && out
            == <MapMapPipe<I, F, G> as Reducing<I, I, E>>::produced(end);
    let mid = choose|mid: MapReducer<VecSink<I>, G>|
        #[trigger] t.b.wraps(sink, mid) && t.a.wraps(mid, rf);
    lemma_map_map_runs::<F, G, I, O, E>(f, g, sink.items@, input, end, k);
    assert(sink.items@ + input =~= input);
}

/// A take stage in front of a filter stage in front of a vector sink.
pub type TakeFilterPipe<O, P> = TakeReducer<FilterReducer<VecSink<O>, P>>;

/// A take transducer composed with a filter transducer.
pub type TakeThenFilter<P> = ComposedTransducer<TakeTransducer, FilterTransducer<P>>;

proof fn lemma_take_filter_runs<P, O, E>(
    p: P,
    q: Seq<O>,
    c: usize,
    n: usize,
    input: Seq<O>,
    end: ((Seq<O>, P, bool), usize, usize),
    k: nat,
) where P: Fn(&O) -> bool
    requires
        c < n,
        runs::<TakeFilterPipe<O, P>, O, O, E>(((q, p, true), c, n), input, end, k),
    ensures
        k <= n - c,
        k <= input.len(),
        end.0.0 == q + input.take(k as int).filter(fnr(p)),
        k == if input.len() < n - c {
            input.len() as int
        } else {
            n - c
        },
    decreases input.len(),
{
    broadcast use Seq::lemma_filter_prepend;

    if input.len() == 0 {
        assert(input.take(0) =~= Seq::<O>::empty());
        assert(Seq::<O>::empty().filter(fnr(p)) =~= Seq::<O>::empty()) by {
            reveal(Seq::filter);
        }
    } else {
        let (m, r1) = choose|m: ((Seq<O>, P, bool), usize, usize), r1: StepResult|
            #[trigger] <TakeFilterPipe<O, P> as Reducing<O, O, E>>::steps(
                ((q, p, true), c, n),
                input[0],
                m,
                r1,
            ) && if r1 == StepResult::Stop {
                k == 1 && <TakeFilterPipe<O, P> as Reducing<O, O, E>>::completes(m, end)
            } else {
                k > 0 && runs::<TakeFilterPipe<O, P>, O, O, E>(
                    m,
                    input.drop_first(),
                    end,
                    (k - 1) as nat,
                )
            };
        let y = input[0];
        let kept = if fnr(p)(y) {
            seq![y]
        } else {
            Seq::empty()
        };
        assert(m.0.0 == q + kept);
        if r1 == StepResult::Stop {
            assert(input.take(1) =~= seq![y] + Seq::<O>::empty());
            assert(Seq::<O>::empty().filter(fnr(p)) =~= Seq::<O>::empty()) by {
                reveal(Seq::filter);
            }
            assert(kept + Seq::<O>::empty() =~= kept);
        } else {
            lemma_take_filter_runs::<P, O, E>(p, m.0.0, m.1, n, input.drop_first(), end, (k - 1) as nat);
            let rest = input.drop_first().take(k - 1);
            assert(input.take(k as int) =~= seq![y] + rest);
            assert(q + kept + rest.filter(fnr(p)) =~= q + (kept + rest.filter(fnr(p))));
        }
    }
}

/// Run by the vector adapter, `take(n)` composed with a filter by `p`, with `n > 0`,
/// consumes exactly `min(n, input.len())` values and yields those of them on which `p`
/// holds.
pub proof fn law_take_then_filter<P, O, E>(n: usize, p: P, input: Seq<O>, out: Seq<O>, k: nat) where
    P: Fn(&O) -> bool,

    requires
        n > 0,
        run_output::<TakeThenFilter<P>, TakeFilterPipe<O, P>, O, O, E>(
            ComposedTransducer { a: TakeTransducer(n), b: FilterTransducer { f: p, inclusive: true } },
            input,
            out,
            k,
        ),
    ensures
        k <= n,
        k <= input.len(),
        out == input.take(k as int).filter(fnr(p)),
        out.len() <= k,
        k == if input.len() < n {
            input.len() as int
        } else {
            n as int
        },
{
    let t = ComposedTransducer { a: TakeTransducer(n), b: FilterTransducer { f: p, inclusive: true } };
    let (sink, rf, end) = choose|sink: VecSink<O>, rf: TakeFilterPipe<O, P>, end: ((Seq<O>, P, bool), usize, usize)|
        sink.items@.len() == 0 && #[trigger] t.wraps(sink, rf) && #[trigger] runs::<
            TakeFilterPipe<O, P>,
            O,
            O,
            E,
        >(<TakeFilterPipe<O, P> as Reducing<O, O, E>>::state(&rf), input, end, k) && out
            == <TakeFilterPipe<O, P> as Reducing<O, O, E>>::produced(end);
    let mid = choose|mid: FilterReducer<VecSink<O>, P>|
        #[trigger] t.b.wraps(sink, mid) && t.a.wraps(mid, rf);
    lemma_take_filter_runs::<P, O, E>(p, sink.items@, 0, n, input, end, k);
    assert(sink.items@ + input.take(k as int).filter(fnr(p)) =~= input.take(k as int).filter(fnr(p)));
    input.take(k as int).lemma_filter_len(fnr(p));
}

/// `s` with every value dropped that equals the value kept just before it, where
/// `last` is the value kept before `s` began.
pub open spec fn deduped<T>(last: Option<T>, s: Seq<T>) -> Seq<T>
    decreases s.len(),
{
    if s.len() == 0 {
        s
    } else if last == Some(s[0]) {
        deduped(last, s.drop_first())
    } else {
        seq![s[0]] + deduped(Some(s[0]), s.drop_first())
    }
}

/// A dedupe stage in front of a vector sink.
pub type DedupePipe<T> = DedupeReducer<VecSink<T>, T>;

/// Two dedupe stages in front of a vector sink.
pub type DedupeTwicePipe<T> = DedupeReducer<DedupeReducer<VecSink<T>, T>, T>;

/// A dedupe transducer composed with another.
pub type DedupeTwice<T> = ComposedTransducer<DedupeTransducer<T>, DedupeTransducer<T>>;

proof fn lemma_dedupe_runs<T: PartialEq + Copy, E>(
    q: Seq<T>,
    last: Option<T>,
    input: Seq<T>,
    end: (Seq<T>, Option<T>),
    k: nat,
)
    requires
        runs::<DedupePipe<T>, T, T, E>((q, last), input, end, k),
    ensures
        end.0 == q + deduped(last, input),
        k == input.len(),
    decreases input.len(),
{
    if input.len() == 0 {
        assert(q + input =~= q);
    } else {
        let (m, r1) = choose|m: (Seq<T>, Option<T>), r1: StepResult|
            #[trigger] <DedupePipe<T> as Reducing<T, T, E>>::steps((q, last), input[0], m, r1)
                && if r1 == StepResult::Stop {
                k == 1 && <DedupePipe<T> as Reducing<T, T, E>>::completes(m, end)
            } else {
                k > 0 && runs::<DedupePipe<T>, T, T, E>(m, input.drop_first(), end, (k - 1) as nat)
            };
        lemma_dedupe_runs::<T, E>(m.0, m.1, input.drop_first(), end, (k - 1) as nat);
        if last != Some(input[0]) {
            assert(q.push(input[0]) + deduped(Some(input[0]), input.drop_first()) =~= q + (seq![input[0]]
                + deduped(Some(input[0]), input.drop_first())));
        }
    }
}

proof fn lemma_dedupe_twice_runs<T: PartialEq + Copy, E>(
    q: Seq<T>,
    last: Option<T>,
    input: Seq<T>,
    end: ((Seq<T>, Option<T>), Option<T>),
    k: nat,
)
    requires
        runs::<DedupeTwicePipe<T>, T, T, E>(((q, last), last), input, end, k),
    ensures
        end.0.0 == q + deduped(last, input),
        k == input.len(),
    decreases input.len(),
{
    if input.len() == 0 {
        assert(q + input =~= q);
    } else {
        let (m, r1) = choose|m: ((Seq<T>, Option<T>), Option<T>), r1: StepResult|
            #[trigger] <DedupeTwicePipe<T> as Reducing<T, T, E>>::steps(
                ((q, last), last),
                input[0],
                m,
                r1,
            ) && if r1 == StepResult::Stop {
                k == 1 && <DedupeTwicePipe<T> as Reducing<T, T, E>>::completes(m, end)
            } else {
                k > 0 && runs::<DedupeTwicePipe<T>, T, T, E>(
                    m,
                    input.drop_first(),
                    end,
                    (k - 1) as nat,
                )
            };
        lemma_dedupe_twice_runs::<T, E>(m.0.0, m.1, input.drop_first(), end, (k - 1) as nat);
        if last != Some(input[0]) {
            assert(q.push(input[0]) + deduped(Some(input[0]), input.drop_first()) =~= q + (seq![input[0]]
                + deduped(Some(input[0]), input.drop_first())));
        }
    }
}

/// Run by the vector adapter, dedupe composed with dedupe yields what dedupe alone
/// yields on the same input, namely the input with each repeat of the value just
/// before it dropped.
pub proof fn law_dedupe_idempotent<T: PartialEq + Copy, E>(
    d1: DedupeTransducer<T>,
    d2: DedupeTransducer<T>,
    d: DedupeTransducer<T>,
    input: Seq<T>,
    twice: Seq<T>,
    k2: nat,
    once: Seq<T>,
    k1: nat,
)
    requires
        run_output::<DedupeTwice<T>, DedupeTwicePipe<T>, T, T, E>(
            ComposedTransducer { a: d1, b: d2 },
            input,
            twice,
            k2,
        ),
        run_output::<DedupeTransducer<T>, DedupePipe<T>, T, T, E>(d, input, once, k1),
    ensures
        twice == once,
        once == deduped(None, input),
{
    let t = ComposedTransducer { a: d1, b: d2 };
    let (sink, rf, end) = choose|sink: VecSink<T>, rf: DedupeTwicePipe<T>, end: ((Seq<T>, Option<T>), Option<T>)|
        sink.items@.len() == 0 && #[trigger] t.wraps(sink, rf) && #[trigger] runs::<
            DedupeTwicePipe<T>,
            T,
            T,
            E,
        >(<DedupeTwicePipe<T> as Reducing<T, T, E>>::state(&rf), input, end, k2) && twice
            == <DedupeTwicePipe<T> as Reducing<T, T, E>>::produced(end);
    let mid = choose|mid: DedupePipe<T>| #[trigger] t.b.wraps(sink, mid) && t.a.wraps(mid, rf);
    lemma_dedupe_twice_runs::<T, E>(sink.items@, None, input, end, k2);
    let (sink1, rf1, end1) = choose|sink: VecSink<T>, rf: DedupePipe<T>, end: (Seq<T>, Option<T>)|
        sink.items@.len() == 0 && #[trigger] d.wraps(sink, rf) && #[trigger] runs::<
            DedupePipe<T>,
            T,
            T,
            E,
        >(<DedupePipe<T> as Reducing<T, T, E>>::state(&rf), input, end, k1) && once
            == <DedupePipe<T> as Reducing<T, T, E>>::produced(end);
    lemma_dedupe_runs::<T, E>(sink1.items@, None, input, end1, k1);
    assert(sink.items@ + deduped(None, input) =~= deduped(None, input));
    assert(sink1.items@ + deduped(None, input) =~= deduped(None, input));
}

/// Composition is associative: `compose(compose(a, b), c)` and
/// `compose(a, compose(b, c))` build the same reducing functions around any `rf`.
pub proof fn law_compose_associative<A, B, C, RI, RC, RB>(a: A, b: B, c: C, rf: RI, r: A::RO) where
    C: Transducer<RI, RO = RC>,
    B: Transducer<RC, RO = RB>,
    A: Transducer<RB>,

    ensures
        (ComposedTransducer { a: (ComposedTransducer { a, b }), b: c }).wraps(rf, r) <==> (
        ComposedTransducer { a, b: (ComposedTransducer { a: b, b: c }) }).wraps(rf, r),
{
    let left = ComposedTransducer { a: ComposedTransducer { a, b }, b: c };
    let right = ComposedTransducer { a, b: ComposedTransducer { a: b, b: c } };
    if left.wraps(rf, r) {
        let m1 = choose|m1: RC| #[trigger] c.wraps(rf, m1) && left.a.wraps(m1, r);
        let m2 = choose|m2: RB| #[trigger] b.wraps(m1, m2) && a.wraps(m2, r);
        assert(right.b.b.wraps(rf, m1) && right.b.a.wraps(m1, m2));
        assert(right.b.wraps(rf, m2) && right.a.wraps(m2, r));
    }
    if right.wraps(rf, r) {
        let m2 = choose|m2: RB| #[trigger] right.b.wraps(rf, m2) && a.wraps(m2, r);
        let m1 = choose|m1: RC| #[trigger] c.wraps(rf, m1) && b.wraps(m1, m2);
        assert(left.a.b.wraps(m1, m2) && left.a.a.wraps(m2, r));
        assert(left.b.wraps(rf, m1) && left.a.wraps(m1, r));
    }
}

/// Run by the vector adapter on the same input, `compose(compose(a, b), c)` and
/// `compose(a, compose(b, c))` can produce exactly the same outputs.
pub proof fn law_compose_associative_output<A, B, C, RC, RB, RO, I, O, E>(
    a: A,
    b: B,
    c: C,
    input: Seq<I>,
    out: Seq<O>,
    k: nat,
) where
    C: Transducer<VecSink<O>, RO = RC>,
    B: Transducer<RC, RO = RB>,
    A: Transducer<RB, RO = RO>,
    RO: Reducing<I, O, E>,

    ensures
        run_output::<ComposedTransducer<ComposedTransducer<A, B>, C>, RO, I, O, E>(
            ComposedTransducer { a: ComposedTransducer { a, b }, b: c },
            input,
            out,
            k,
        ) <==> run_output::<ComposedTransducer<A, ComposedTransducer<B, C>>, RO, I, O, E>(
            ComposedTransducer { a, b: ComposedTransducer { a: b, b: c } },
            input,
            out,
            k,
        ),
{
    let left = ComposedTransducer { a: ComposedTransducer { a, b }, b: c };
    let right = ComposedTransducer { a, b: ComposedTransducer { a: b, b: c } };
    if run_output::<ComposedTransducer<ComposedTransducer<A, B>, C>, RO, I, O, E>(left, input, out, k) {
        let (sink, rf, end) = choose|sink: VecSink<O>, rf: RO, end: RO::State|
            sink.items@.len() == 0 && #[trigger] left.wraps(sink, rf) && #[trigger] runs::<
                RO,
                I,
                O,
                E,
            >(rf.state(), input, end, k) && out == RO::produced(end);
        law_compose_associative(a, b, c, sink, rf);
        assert(right.wraps(sink, rf));
    }
    if run_output::<ComposedTransducer<A, ComposedTransducer<B, C>>, RO, I, O, E>(right, input, out, k) {
        let (sink, rf, end) = choose|sink: VecSink<O>, rf: RO, end: RO::State|
            sink.items@.len() == 0 && #[trigger] right.wraps(sink, rf) && #[trigger] runs::<
                RO,
                I,
                O,
                E,
            >(rf.state(), input, end, k) && out == RO::produced(end);
        law_compose_associative(a, b, c, sink, rf);
        assert(left.wraps(sink, rf));
    }
}

/// On the same input, `compose(compose(a, b), c)` always yields `out` exactly when
/// `compose(a, compose(b, c))` always yields `out`: where one nesting has a single
/// output, the other has the same one.
pub proof fn law_compose_associative_same_output<A, B, C, RC, RB, RO, I, O, E>(
    a: A,
    b: B,
    c: C,
    input: Seq<I>,
    out: Seq<O>,
) where
    C: Transducer<VecSink<O>, RO = RC>,
    B: Transducer<RC, RO = RB>,
    A: Transducer<RB, RO = RO>,
    RO: Reducing<I, O, E>,

    ensures
        (forall|o: Seq<O>, j: nat|
            #[trigger] run_output::<ComposedTransducer<ComposedTransducer<A, B>, C>, RO, I, O, E>(
                ComposedTransducer { a: ComposedTransducer { a, b }, b: c },
                input,
                o,
                j,
            ) ==> o == out) <==> (forall|o: Seq<O>, j: nat|
            #[trigger] run_output::<ComposedTransducer<A, ComposedTransducer<B, C>>, RO, I, O, E>(
                ComposedTransducer { a, b: ComposedTransducer { a: b, b: c } },
                input,
                o,
                j,
            ) ==> o == out),
{
    assert forall|o: Seq<O>, j: nat|
        run_output::<ComposedTransducer<ComposedTransducer<A, B>, C>, RO, I, O, E>(
            ComposedTransducer { a: ComposedTransducer { a, b }, b: c },
            input,
            o,
            j,
        ) == run_output::<ComposedTransducer<A, ComposedTransducer<B, C>>, RO, I, O, E>(
            ComposedTransducer { a, b: ComposedTransducer { a: b, b: c } },
            input,
            o,
            j,
        ) by {
        law_compose_associative_output::<A, B, C, RC, RB, RO, I, O, E>(a, b, c, input, o, j);
    }
}

/// A filter stage in front of a vector sink.
pub type FilterPipe<O, P> = FilterReducer<VecSink<O>, P>;

proof fn lemma_filter_runs<P, O, E>(
    p: P,
    inclusive: bool,
    q: Seq<O>,
    input: Seq<O>,
    end: (Seq<O>, P, bool),
    k: nat,
) where P: Fn(&O) -> bool
    requires
        runs::<FilterPipe<O, P>, O, O, E>((q, p, inclusive), input, end, k),
    ensures
        end.0 == q + input.filter(|x: O| fnr(p)(x) == inclusive),
        k == input.len(),
    decreases input.len(),
{
    broadcast use Seq::lemma_filter_prepend;

    let pass = |x: O| fnr(p)(x) == inclusive;
    if input.len() == 0 {
        assert(Seq::<O>::empty().filter(pass) =~= Seq::<O>::empty()) by {
            reveal(Seq::filter);
        }
        assert(input =~= Seq::<O>::empty());
        assert(q + Seq::<O>::empty() =~= q);
    } else {
        let (m, r1) = choose|m: (Seq<O>, P, bool), r1: StepResult|
            #[trigger] <FilterPipe<O, P> as Reducing<O, O, E>>::steps(
                (q, p, inclusive),
                input[0],
                m,
                r1,
            ) && if r1 == StepResult::Stop {
                k == 1 && <FilterPipe<O, P> as Reducing<O, O, E>>::completes(m, end)
            } else {
                k > 0 && runs::<FilterPipe<O, P>, O, O, E>(
                    m,
                    input.drop_first(),
                    end,
                    (k - 1) as nat,
                )
            };
        let x = input[0];
        let kept = if pass(x) {
            seq![x]
        } else {
            Seq::empty()
        };
        assert(m.0 == q + kept);
        lemma_filter_runs::<P, O, E>(p, inclusive, m.0, input.drop_first(), end, (k - 1) as nat);
        assert(input =~= seq![x] + input.drop_first());
        assert(q + kept + input.drop_first().filter(pass) =~= q + (kept + input.drop_first().filter(
            pass,
        )));
    }
}

/// Run by the vector adapter, a filter (`inclusive`) or remove (not `inclusive`) stage
/// consumes the whole input and yields, in input order, the values on which `p` gives
/// `inclusive`.
pub proof fn law_filter<P, O, E>(
    t: FilterTransducer<P>,
    input: Seq<O>,
    out: Seq<O>,
    k: nat,
) where P: Fn(&O) -> bool
    requires
        run_output::<FilterTransducer<P>, FilterPipe<O, P>, O, O, E>(t, input, out, k),
    ensures
        out == input.filter(|x: O| fnr(t.f)(x) == t.inclusive),
        k == input.len(),
{
    let (sink, rf, end) = choose|sink: VecSink<O>, rf: FilterPipe<O, P>, end: (Seq<O>, P, bool)|
        sink.items@.len() == 0 && #[trigger] t.wraps(sink, rf) && #[trigger] runs::<
            FilterPipe<O, P>,
            O,
            O,
            E,
        >(<FilterPipe<O, P> as Reducing<O, O, E>>::state(&rf), input, end, k) && out
            == <FilterPipe<O, P> as Reducing<O, O, E>>::produced(end);
    lemma_filter_runs::<P, O, E>(t.f, t.inclusive, sink.items@, input, end, k);
    let pass = |x: O| fnr(t.f)(x) == t.inclusive;
    assert(sink.items@ + input.filter(pass) =~= input.filter(pass));
}

} // verus!
