use oubench::stats::{max_of, median_twice, min_of, sort_times, summarize, total_of};

#[test]
fn median_of_odd_count_is_middle() {
    let v = vec![1u64, 2, 3, 4, 5];
    assert_eq!(median_twice(&v), 6);
    assert_eq!(median_twice(&v) as f64 / 2.0, 3.0);
}

#[test]
fn median_of_even_count_averages_centre() {
    let v = vec![1u64, 2, 3, 4];
    assert_eq!(median_twice(&v), 5);
    assert_eq!(median_twice(&v) as f64 / 2.0, 2.5);
}

#[test]
fn median_of_one_run() {
    assert_eq!(median_twice(&vec![7u64]), 14);
}

#[test]
fn median_of_largest_times_is_exact() {
    let v = vec![u64::MAX, u64::MAX];
    assert_eq!(median_twice(&v), 2 * (u64::MAX as u128));
}

#[test]
fn sort_orders_and_keeps_items() {
    let mut v = vec![5u64, 1, 4, 1, 3, 2, 9, 0];
    sort_times(&mut v);
    assert_eq!(v, vec![0, 1, 1, 2, 3, 4, 5, 9]);
    let mut e: Vec<u64> = vec![];
    sort_times(&mut e);
    assert!(e.is_empty());
}

#[test]
fn summary_of_unsorted_runs() {
    let mut v = vec![5u64, 1, 4, 2, 3];
    let s = summarize(&mut v);
    assert_eq!(v, vec![1, 2, 3, 4, 5]);
    assert_eq!(s.total_ns, 15);
    assert_eq!(s.median_twice_ns, 6);
    assert_eq!(s.min_ns, 1);
    assert_eq!(s.max_ns, 5);
    let mut w = vec![40u64, 10, 30, 20];
    let s = summarize(&mut w);
    assert_eq!(s.median_twice_ns, 50);
    assert_eq!(s.total_ns, 100);
}

#[test]
fn totals_do_not_wrap() {
    let v = vec![u64::MAX, u64::MAX, 2];
    assert_eq!(total_of(&v), 2 * (u64::MAX as u128) + 2);
    assert_eq!(min_of(&v), 2);
    assert_eq!(max_of(&v), u64::MAX);
}
