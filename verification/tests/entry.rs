use autojump::entry::{rank_of, sort_by_weight, Entry, ZERO_WEIGHT};

fn entry(path: &str, weight: f64) -> Entry {
    Entry::new(path, weight.to_bits())
}

fn paths(entries: &[Entry]) -> Vec<&str> {
    entries.iter().map(|e| e.path.as_str()).collect()
}

#[test]
fn new_entry_holds_what_it_was_given() {
    let e = entry("/a", 3.5);
    assert_eq!(e.path, "/a");
    assert_eq!(f64::from_bits(e.weight), 3.5);
    let copy = e.duplicate();
    assert_eq!(copy.path, "/a");
    assert_eq!(copy.weight, e.weight);
    assert_eq!(ZERO_WEIGHT, 0.0f64.to_bits());
}

#[test]
fn rank_orders_as_the_doubles_do() {
    let values = [
        f64::NEG_INFINITY,
        -1e300,
        -2.5,
        -1.0,
        -1e-300,
        -0.0,
        0.0,
        1e-300,
        0.5,
        1.0,
        10.0,
        14.142135623730951,
        1e300,
        f64::INFINITY,
    ];
    for i in 0..values.len() {
        for j in 0..values.len() {
            let by_rank = rank_of(values[i].to_bits()) < rank_of(values[j].to_bits());
            assert_eq!(by_rank, i < j, "{} {}", values[i], values[j]);
        }
    }
    assert_eq!(rank_of(0), 0x8000_0000_0000_0000);
    assert_eq!(rank_of(0x8000_0000_0000_0000), 0x7FFF_FFFF_FFFF_FFFF);
    assert_eq!(rank_of(u64::MAX), 0);
}

#[test]
fn sort_is_descending_by_weight() {
    let sorted = sort_by_weight(vec![
        entry("/low", 1.0),
        entry("/high", 30.0),
        entry("/mid", 14.5),
        entry("/zero", 0.0),
    ]);
    assert_eq!(paths(&sorted), ["/high", "/mid", "/low", "/zero"]);
    let weights: Vec<f64> = sorted.iter().map(|e| f64::from_bits(e.weight)).collect();
    assert_eq!(weights, [30.0, 14.5, 1.0, 0.0]);
}

#[test]
fn sort_keeps_the_order_of_equal_weights() {
    let sorted = sort_by_weight(vec![
        entry("/a", 2.0),
        entry("/b", 5.0),
        entry("/c", 2.0),
        entry("/d", 5.0),
        entry("/e", 2.0),
    ]);
    assert_eq!(paths(&sorted), ["/b", "/d", "/a", "/c", "/e"]);
}

#[test]
fn sort_of_nothing_and_of_one() {
    assert!(sort_by_weight(vec![]).is_empty());
    let one = sort_by_weight(vec![entry("/a", 1.0)]);
    assert_eq!(paths(&one), ["/a"]);
}

#[test]
fn sort_puts_negative_weights_last() {
    let sorted = sort_by_weight(vec![entry("/n", -3.0), entry("/z", 0.0), entry("/p", 3.0), entry("/m", -1.0)]);
    assert_eq!(paths(&sorted), ["/p", "/z", "/m", "/n"]);
}
