use udhr_count::record::{aggregate, column_of, rank_by, try_aggregate, Lang, Metric};
use udhr_count::report::color_axis;
use udhr_count::stats::{checked_sum, sorted_copy, sum_of, summarize};

fn lang(n: usize) -> Lang {
    Lang {
        name: format!("L{}", n),
        utf8: n * 3,
        utf16: n * 2,
        utf32: n * 2,
        graphemes: n,
        width: 100 - n,
        code: None,
        script: None,
    }
}

#[test]
fn three_documents() {
    let langs = vec![lang(30), lang(10), lang(20)];
    let s = aggregate(&langs).graphemes;
    assert_eq!(s.median, 20);
    assert_eq!(s.mean, 20);
    assert_eq!(s.min, 10);
    assert_eq!(s.max, 30);
    assert_eq!(s.max_excluding_outlier, 20);
}

#[test]
fn each_metric_is_ordered_on_its_own() {
    let langs = vec![lang(30), lang(10), lang(20)];
    let s = aggregate(&langs);
    assert_eq!((s.width.min, s.width.median, s.width.max), (70, 80, 90));
    assert_eq!((s.utf8.min, s.utf8.median, s.utf8.max), (30, 60, 90));
    assert_eq!(column_of(&langs, Metric::Width), vec![70, 90, 80]);
}

#[test]
fn upper_median_for_even_count() {
    let s = summarize(&vec![4, 1, 3, 2]);
    assert_eq!(s.median, 3);
    assert_eq!(s.mean, 2);
    assert_eq!(s.max_excluding_outlier, 3);
}

#[test]
fn repeated_maximum_is_not_dropped() {
    let s = summarize(&vec![5, 1, 5]);
    assert_eq!(s.max, 5);
    assert_eq!(s.max_excluding_outlier, 5);
    let s = summarize(&vec![1, 9, 5]);
    assert!(s.max_excluding_outlier < s.max);
}

#[test]
fn single_value() {
    let s = summarize(&vec![7]);
    assert_eq!((s.min, s.median, s.mean, s.max_excluding_outlier, s.max), (7, 7, 7, 7, 7));
}

#[test]
fn mean_truncates() {
    assert_eq!(summarize(&vec![1, 2]).mean, 1);
    assert_eq!(summarize(&vec![10, 10, 11]).mean, 10);
}

#[test]
fn sorting_keeps_values() {
    assert_eq!(sorted_copy(&vec![3, 1, 2, 1]), vec![1, 1, 2, 3]);
    assert_eq!(sorted_copy(&vec![]), Vec::<usize>::new());
    assert_eq!(sum_of(&vec![3, 1, 2, 1]), 7);
}

#[test]
fn overflowing_sum_is_reported() {
    assert_eq!(checked_sum(&vec![usize::MAX, 1]), None);
    assert_eq!(checked_sum(&vec![usize::MAX - 1, 1]), Some(usize::MAX));
}

#[test]
fn empty_corpus_has_no_statistics() {
    assert!(try_aggregate(&vec![]).is_none());
    let mut big = lang(1);
    big.utf8 = usize::MAX;
    assert!(try_aggregate(&vec![big, lang(1)]).is_none());
    assert!(try_aggregate(&vec![lang(1)]).is_some());
}

#[test]
fn hue_follows_the_larger_value() {
    assert_eq!(color_axis(10, 20), (120, 10, 20));
    assert_eq!(color_axis(20, 10), (0, 10, 20));
    assert_eq!(color_axis(10, 10), (120, 10, 10));
}

#[test]
fn ranking_orders_by_one_metric() {
    let langs = vec![lang(30), lang(10), lang(20), lang(10)];
    assert_eq!(rank_by(&langs, Metric::Graphemes), vec![1, 3, 2, 0]);
    assert_eq!(rank_by(&langs, Metric::Width), vec![0, 2, 1, 3]);
    assert_eq!(rank_by(&vec![], Metric::Utf8), Vec::<usize>::new());
}
