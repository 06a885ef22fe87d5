use autojump::entry::Entry;
use autojump::manip::{
    add, decrease, do_decrease, do_increase, increase, position, DEFAULT_DECREASE_WEIGHT,
    DEFAULT_INCREASE_WEIGHT,
};
use autojump::stat::cwd_weight;

fn raise(old: u64, inc: u64) -> u64 {
    (f64::from_bits(old).powi(2) + f64::from_bits(inc).powi(2))
        .sqrt()
        .to_bits()
}

fn lower(old: u64, dec: u64) -> u64 {
    let result = f64::from_bits(old) - f64::from_bits(dec);
    if result < 0.0 {
        0.0f64.to_bits()
    } else {
        result.to_bits()
    }
}

fn weight(e: &Entry) -> f64 {
    f64::from_bits(e.weight)
}

#[test]
fn default_amounts() {
    assert_eq!(DEFAULT_INCREASE_WEIGHT, 10.0f64.to_bits());
    assert_eq!(DEFAULT_DECREASE_WEIGHT, 15.0f64.to_bits());
}

#[test]
fn add_creates_then_raises() {
    let mut entries: Vec<Entry> = vec![];
    let e = add(&mut entries, "/foo", Some("/home/u"), raise);
    assert_eq!(e.path, "/foo");
    assert_eq!(weight(&e), 10.0);
    assert_eq!(entries.len(), 1);
    let e = add(&mut entries, "/foo", Some("/home/u"), raise);
    assert_eq!(weight(&e), 200.0f64.sqrt());
    assert_eq!(entries.len(), 1);
    assert_eq!(weight(&entries[0]), 200.0f64.sqrt());
}

#[test]
fn home_is_never_ranked() {
    let mut entries = vec![Entry::new("/foo", 3.0f64.to_bits())];
    let e = add(&mut entries, "/home/u", Some("/home/u"), raise);
    assert_eq!(e.path, "/home/u");
    assert_eq!(weight(&e), 0.0);
    assert_eq!(entries.len(), 1);
    assert_eq!(entries[0].path, "/foo");
    assert_eq!(weight(&entries[0]), 3.0);
    let e = add(&mut entries, "/home/u/", Some("/home/u"), raise);
    assert_eq!(weight(&e), 0.0);
    assert_eq!(entries.len(), 1);
    let e = add(&mut entries, "/home/u", None, raise);
    assert_eq!(weight(&e), 10.0);
    assert_eq!(entries.len(), 2);
}

#[test]
fn increase_changes_the_first_entry_only() {
    let mut entries = vec![
        Entry::new("/a", 1.0f64.to_bits()),
        Entry::new("/b", 3.0f64.to_bits()),
        Entry::new("/b/", 7.0f64.to_bits()),
    ];
    let e = do_increase(&mut entries, "/b", None, 4.0f64.to_bits(), raise);
    assert_eq!(e.path, "/b");
    assert_eq!(weight(&e), 5.0);
    let weights: Vec<f64> = entries.iter().map(weight).collect();
    assert_eq!(weights, [1.0, 5.0, 7.0]);
    let e = do_increase(&mut entries, "/c", None, 4.0f64.to_bits(), raise);
    assert_eq!(e.path, "/c");
    assert_eq!(weight(&e), 4.0);
    assert_eq!(entries.len(), 4);
    assert_eq!(entries[3].path, "/c");
}

#[test]
fn decrease_stops_at_zero() {
    let mut entries = vec![Entry::new("/a", 5.0f64.to_bits())];
    let e = do_decrease(&mut entries, "/a", 10.0f64.to_bits(), lower);
    assert_eq!(weight(&e), 0.0);
    assert_eq!(weight(&entries[0]), 0.0);
    assert_eq!(entries.len(), 1);
    let mut entries = vec![Entry::new("/a", 25.0f64.to_bits())];
    let e = do_decrease(&mut entries, "/a", 10.0f64.to_bits(), lower);
    assert_eq!(weight(&e), 15.0);
}

#[test]
fn decrease_of_an_unknown_directory_adds_it_with_weight_zero() {
    let mut entries = vec![Entry::new("/a", 5.0f64.to_bits())];
    let e = do_decrease(&mut entries, "/b", 10.0f64.to_bits(), lower);
    assert_eq!(e.path, "/b");
    assert_eq!(weight(&e), 0.0);
    assert_eq!(entries.len(), 2);
    assert_eq!(entries[1].path, "/b");
    assert_eq!(weight(&entries[1]), 0.0);
    assert_eq!(weight(&entries[0]), 5.0);
}

#[test]
fn increase_and_decrease_need_a_current_directory() {
    let mut entries = vec![Entry::new("/a", 5.0f64.to_bits())];
    assert!(increase(&mut entries, None, None, None, raise).is_none());
    assert!(decrease(&mut entries, None, None, lower).is_none());
    assert_eq!(entries.len(), 1);
    assert_eq!(weight(&entries[0]), 5.0);
}

#[test]
fn increase_and_decrease_use_the_default_amounts() {
    let mut entries: Vec<Entry> = vec![];
    let e = increase(&mut entries, Some("/a"), None, None, raise).unwrap();
    assert_eq!(weight(&e), 10.0);
    let e = increase(&mut entries, Some("/a"), None, Some(24.0f64.to_bits()), raise).unwrap();
    assert_eq!(weight(&e), 26.0);
    let e = decrease(&mut entries, Some("/a"), None, lower).unwrap();
    assert_eq!(weight(&e), 11.0);
    let e = decrease(&mut entries, Some("/a"), Some(1.0f64.to_bits()), lower).unwrap();
    assert_eq!(weight(&e), 10.0);
    let e = decrease(&mut entries, Some("/b"), None, lower).unwrap();
    assert_eq!(weight(&e), 0.0);
    assert_eq!(entries.len(), 2);
    let e = increase(&mut entries, Some("/h"), Some("/h"), None, raise).unwrap();
    assert_eq!(weight(&e), 0.0);
    assert_eq!(entries.len(), 2);
}

#[test]
fn position_finds_the_first_entry_for_a_path() {
    let entries = vec![
        Entry::new("/a", 1),
        Entry::new("/b/", 2),
        Entry::new("/b", 3),
    ];
    assert_eq!(position(&entries, "/b"), Some(1));
    assert_eq!(position(&entries, "/a/."), Some(0));
    assert_eq!(position(&entries, "/c"), None);
    assert_eq!(position(&[].to_vec(), "/c"), None);
}

#[test]
fn weight_of_the_current_directory() {
    let entries = vec![
        Entry::new("/a", 1.5f64.to_bits()),
        Entry::new("/b", 2.5f64.to_bits()),
        Entry::new("/b", 9.0f64.to_bits()),
    ];
    assert_eq!(cwd_weight(&entries, Some("/b")), Some(2.5f64.to_bits()));
    assert_eq!(cwd_weight(&entries, Some("/c")), Some(0.0f64.to_bits()));
    assert_eq!(cwd_weight(&entries, None), None);
}
