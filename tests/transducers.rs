use std::collections::HashMap;

use transducers::apply::{transduce_drain, transduce_into, transduce_iter, transduce_ref};
use transducers::transducers::{
    dedupe, drop, drop_while, filter, interpose, keep, keep_indexed, map_indexed, mapcat,
    partition, partition_all, partition_by, remove, replace, take, take_while,
};
use transducers::compose;

#[test]
fn test_vec_ref() {
    let source = vec![1, 2, 3];
    let transducer = transducers::transducers::map(|x: i32| x + 1);
    let result = transduce_ref(&source, transducer).unwrap();
    assert_eq!(vec![2, 3, 4], result);
}

/// A trivial function to test function references
fn duplicator(i: isize) -> Vec<isize> {
    vec![i, i]
}

#[test]
fn test_compose() {
    let source = vec![1, 2, 3];
    let ta = mapcat(duplicator);
    let tb = transducers::transducers::map(|x: isize| x * 2);
    let transducer = compose(tb, ta);
    let result = transduce_into(source, transducer).unwrap();
    assert_eq!(vec![2, 2, 4, 4, 6, 6], result);
}

#[test]
fn test_iterator() {
    let source = vec![1, 2, 3];
    let transducer = mapcat(duplicator);
    let mut values = transduce_iter(source, transducer);
    let mut result: Vec<isize> = Vec::new();
    while let Some(x) = values.next() {
        result.push(x);
    }
    assert_eq!(vec![1, 1, 2, 2, 3, 3], result);
}

#[test]
fn iterator_stops_pulling_after_stop() {
    let mut values = transduce_iter(vec![1, 2, 3, 4, 5], compose(take(2), interpose(0)));
    assert_eq!(values.next(), Some(1));
    assert_eq!(values.next(), Some(0));
    assert_eq!(values.next(), Some(2));
    assert_eq!(values.next(), None);
    assert_eq!(values.next(), None);
    assert_eq!(values.source, vec![3, 4, 5]);
}

#[test]
fn test_filter() {
    {
        let source = vec![1, 2, 3, 4, 5];
        let transducer = filter(|x: &i32| x % 2 == 0);
        let result = transduce_into(source, transducer).unwrap();
        assert_eq!(vec![2, 4], result);
    }
    {
        let source = vec![1, 2, 3, 4, 5];
        let transducer = remove(|x: &i32| x % 2 == 0);
        let result = transduce_into(source, transducer).unwrap();
        assert_eq!(vec![1, 3, 5], result);
    }
}

#[test]
fn test_partition() {
    {
        let source = vec![1, 2, 3, 4, 5, 6, 7];
        let transducer = partition(2);
        let result = transduce_into(source, transducer).unwrap();
        let expected_result: Vec<Vec<usize>> = vec![vec![1, 2], vec![3, 4], vec![5, 6]];
        assert_eq!(expected_result, result);
    }
    {
        let source = vec![1, 2, 3, 4, 5, 6, 7];
        let transducer = partition_all(2);
        let result = transduce_into(source, transducer).unwrap();
        let expected_result: Vec<Vec<usize>> = vec![vec![1, 2], vec![3, 4], vec![5, 6], vec![7]];
        assert_eq!(expected_result, result);
    }
}

#[test]
fn test_take() {
    let source = vec![1, 2, 3, 4, 5, 6, 7];
    let transducer = take(5);
    let result = transduce_into(source, transducer).unwrap();
    assert_eq!(vec![1, 2, 3, 4, 5], result);

    // Raw input meets the first argument of `compose` first: two values are taken,
    // then the filter keeps the even one among them.
    let source2 = vec![1, 2, 3, 4, 5, 6, 7];
    let transducer2 = compose(take(2), filter(|x: &i32| x % 2 == 0));
    let result = transduce_into(source2, transducer2).unwrap();
    assert_eq!(vec![2], result);
}

#[test]
fn test_drop() {
    let source = vec![1, 2, 3, 4, 5, 6, 7];
    let transducer = drop(2);
    let result = transduce_into(source, transducer).unwrap();
    assert_eq!(vec![3, 4, 5, 6, 7], result);
}

#[test]
fn test_take_while() {
    let source = vec![1, 2, 3, 4, 5, 6, 7];
    let transducer = take_while(|x: &i32| *x <= 5);
    let result = transduce_into(source, transducer).unwrap();
    assert_eq!(vec![1, 2, 3, 4, 5], result);
}

#[test]
fn test_drop_while() {
    let source = vec![1, 2, 3, 4, 5, 6, 7];
    let transducer = drop_while(|x: &i32| *x <= 5);
    let result = transduce_into(source, transducer).unwrap();
    assert_eq!(vec![6, 7], result);
}

#[test]
fn test_replace() {
    let source = vec![1, 2, 3, 1, 2, 3, 1, 2, 3];
    let mut replacements = HashMap::new();
    replacements.insert(1, 4);
    replacements.insert(3, 7);
    let transducer = replace(replacements);
    let result = transduce_into(source, transducer).unwrap();
    assert_eq!(vec![4, 2, 7, 4, 2, 7, 4, 2, 7], result);
}

#[test]
fn test_partition_by() {
    let source = vec![1, 2, 3, 4, 5, 6];
    let transducer = partition_by(|&x: &usize| x > 3);
    let result = transduce_into(source, transducer).unwrap();
    let expected_result: Vec<Vec<usize>> = vec![vec![1, 2, 3], vec![4, 5, 6]];
    assert_eq!(expected_result, result);
}

#[test]
fn test_keep() {
    let source = vec![1, 2, 3, 4, 5, 6];
    let transducer = keep(|x: i32| {
        if x % 2 == 0 {
            Some(x)
        } else {
            None
        }
    });
    let result = transduce_into(source, transducer).unwrap();
    let expected_result = vec![2, 4, 6];
    assert_eq!(expected_result, result);
}

#[test]
fn test_keep_indexed() {
    let source = vec![6, 5, 4, 3, 2, 1];
    let transducer = keep_indexed(|idx: usize, x: usize| {
        if x > idx {
            Some(x)
        } else {
            None
        }
    });
    let result = transduce_into(source, transducer).unwrap();
    let expected_result = vec![6, 5, 4];
    assert_eq!(expected_result, result);
}

#[test]
fn test_map_indexed() {
    let source = vec![1, 2, 3, 4, 5, 6];
    let transducer = map_indexed(|idx: usize, x: usize| x + idx);
    let result = transduce_into(source, transducer).unwrap();
    let expected_result = vec![1, 3, 5, 7, 9, 11];
    assert_eq!(expected_result, result);
}

#[test]
fn test_interpose() {
    let source = vec![1, 2, 3, 4];
    let transducer = interpose(0);
    let result = transduce_into(source, transducer).unwrap();
    let expected_result = vec![1, 0, 2, 0, 3, 0, 4];
    assert_eq!(expected_result, result);
}

#[test]
fn test_dedupe() {
    let source = vec![1, 2, 2, 2, 3, 3, 2, 3, 4];
    let transducer = dedupe();
    let result = transduce_into(source, transducer).unwrap();
    let expected_result = vec![1, 2, 3, 2, 3, 4];
    assert_eq!(expected_result, result);
}

#[test]
fn partition_sizes_on_seven_values() {
    let strict: Vec<Vec<i32>> = transduce_into(vec![1, 2, 3, 4, 5, 6, 7], partition(2)).unwrap();
    assert_eq!(strict, vec![vec![1, 2], vec![3, 4], vec![5, 6]]);
    let all: Vec<Vec<i32>> = transduce_into(vec![1, 2, 3, 4, 5, 6, 7], partition_all(2)).unwrap();
    assert_eq!(all, vec![vec![1, 2], vec![3, 4], vec![5, 6], vec![7]]);
}

#[test]
fn partition_all_exact_multiple_has_no_empty_group() {
    let groups: Vec<Vec<i32>> = transduce_into(vec![1, 2, 3, 4], partition_all(2)).unwrap();
    assert_eq!(groups, vec![vec![1, 2], vec![3, 4]]);
    let none: Vec<Vec<i32>> = transduce_into(Vec::new(), partition_all(3)).unwrap();
    assert!(none.is_empty());
}

#[test]
fn dedupe_collapses_runs() {
    let out = transduce_into(vec![1, 2, 2, 2, 3, 3, 2, 3, 4], dedupe()).unwrap();
    assert_eq!(out, vec![1, 2, 3, 2, 3, 4]);
}

#[test]
fn dedupe_twice_equals_once() {
    let input = vec![5, 5, 1, 1, 1, 5, 2, 2, 5, 5];
    let once = transduce_into(input.clone(), dedupe()).unwrap();
    let twice = transduce_into(input, compose(dedupe(), dedupe())).unwrap();
    assert_eq!(once, vec![5, 1, 5, 2, 5]);
    assert_eq!(twice, once);
}

#[test]
fn dedupe_of_empty_is_empty() {
    let out: Vec<i32> = transduce_into(Vec::new(), dedupe()).unwrap();
    assert!(out.is_empty());
}

#[test]
fn interpose_zero_between_values() {
    let out = transduce_into(vec![1, 2, 3, 4], interpose(0)).unwrap();
    assert_eq!(out, vec![1, 0, 2, 0, 3, 0, 4]);
    let single = transduce_into(vec![9], interpose(0)).unwrap();
    assert_eq!(single, vec![9]);
}

#[test]
fn interpose_stops_on_separator() {
    // take(4) stops right after the separator that precedes the third value
    let out = transduce_into(vec![1, 2, 3], compose(interpose(0), take(4))).unwrap();
    assert_eq!(out, vec![1, 0, 2, 0]);
}

#[test]
fn partition_by_greater_than_three() {
    let out: Vec<Vec<i32>> =
        transduce_into(vec![1, 2, 3, 4, 5, 6], partition_by(|x: &i32| *x > 3)).unwrap();
    assert_eq!(out, vec![vec![1, 2, 3], vec![4, 5, 6]]);
}

#[test]
fn partition_by_keeps_last_key_across_equal_runs() {
    let out: Vec<Vec<i32>> =
        transduce_into(vec![1, 1, 1, 2, 2, 1], partition_by(|x: &i32| *x)).unwrap();
    assert_eq!(out, vec![vec![1, 1, 1], vec![2, 2], vec![1]]);
}

#[test]
fn drop_while_then_take_while_adds_nothing() {
    let alone = transduce_into(vec![1, 2, 3, 4, 5, 6, 7], drop_while(|x: &i32| *x <= 5)).unwrap();
    let both = transduce_into(
        vec![1, 2, 3, 4, 5, 6, 7],
        compose(drop_while(|x: &i32| *x <= 5), take_while(|x: &i32| *x > 5)),
    )
    .unwrap();
    assert_eq!(alone, vec![6, 7]);
    assert_eq!(both, alone);
}

#[test]
fn map_then_filter_keeps_order() {
    let out = transduce_into(
        vec![3, 1, 4, 1, 5, 9, 2, 6],
        compose(transducers::transducers::map(|x: i32| x * 10), filter(|y: &i32| *y > 20)),
    )
    .unwrap();
    assert_eq!(out, vec![30, 40, 50, 90, 60]);
}

#[test]
fn map_round_trip_gives_input() {
    let input = vec![4, -2, 7, 0];
    let out = transduce_into(
        input.clone(),
        compose(
            transducers::transducers::map(|x: i64| x + 17),
            transducers::transducers::map(|y: i64| y - 17),
        ),
    )
    .unwrap();
    assert_eq!(out, input);
}

#[test]
fn compose_is_associative_on_values() {
    let left = transduce_into(
        vec![1, 2, 3, 4, 5, 6],
        compose(compose(transducers::transducers::map(|x: i32| x + 1), filter(|x: &i32| x % 2 == 0)), take(2)),
    )
    .unwrap();
    let right = transduce_into(
        vec![1, 2, 3, 4, 5, 6],
        compose(transducers::transducers::map(|x: i32| x + 1), compose(filter(|x: &i32| x % 2 == 0), take(2))),
    )
    .unwrap();
    assert_eq!(left, vec![2, 4]);
    assert_eq!(left, right);
}

#[test]
fn take_then_filter_consumes_at_most_n() {
    let mut source = vec![1, 2, 3, 4, 5, 6, 7];
    let out = transduce_drain(&mut source, compose(take(3), filter(|x: &i32| x % 2 == 0))).unwrap();
    assert_eq!(out, vec![2]);
    assert_eq!(source, vec![4, 5, 6, 7]);
}

#[test]
fn take_zero_consumes_one_and_yields_nothing() {
    let mut source = vec![1, 2, 3];
    let out = transduce_drain(&mut source, take(0)).unwrap();
    assert!(out.is_empty());
    assert_eq!(source, vec![2, 3]);
}

#[test]
fn drop_more_than_length() {
    let out = transduce_into(vec![1, 2, 3], drop(10)).unwrap();
    assert!(out.is_empty());
}

#[test]
fn mapcat_halts_inside_expansion() {
    let out = transduce_into(vec![1, 2, 3], compose(mapcat(duplicator), take(3))).unwrap();
    assert_eq!(out, vec![1, 1, 2]);
}

#[test]
fn take_while_stops_at_first_failure() {
    let mut source = vec![1, 2, 9, 3, 4];
    let out = transduce_drain(&mut source, take_while(|x: &i32| *x < 5)).unwrap();
    assert_eq!(out, vec![1, 2]);
    assert_eq!(source, vec![3, 4]);
}

#[test]
fn map_indexed_counts_from_zero() {
    let out = transduce_into(vec![10, 10, 10], map_indexed(|i: usize, x: usize| x * i)).unwrap();
    assert_eq!(out, vec![0, 10, 20]);
}

#[test]
fn replace_leaves_missing_keys() {
    let mut table = HashMap::new();
    table.insert(2, 20);
    let out = transduce_into(vec![1, 2, 3, 2], replace(table)).unwrap();
    assert_eq!(out, vec![1, 20, 3, 20]);
}

#[test]
fn ref_adapter_leaves_source() {
    let source = vec![1, 2, 3, 4];
    let out = transduce_ref(&source, remove(|x: &i32| *x > 2)).unwrap();
    assert_eq!(out, vec![1, 2]);
    assert_eq!(source, vec![1, 2, 3, 4]);
}
