use loki_logger::batch::Batch;

fn labels() -> Vec<(String, String)> {
    vec![(String::from("app"), String::from("x"))]
}

#[test]
fn append_records_first_timestamp_once() {
    let mut b = Batch::new(labels());
    assert_eq!(b.first_timestamp, None);
    b.append(50, String::from("a"));
    assert_eq!(b.first_timestamp, Some(50));
    b.append(70, String::from("b"));
    assert_eq!(b.first_timestamp, Some(50));
    assert_eq!(b.entries.len(), 2);
    assert_eq!(b.entries[0].timestamp, 50);
    assert_eq!(b.entries[0].line, "a");
    assert_eq!(b.entries[1].timestamp, 70);
}

#[test]
fn is_full_at_the_configured_maximum() {
    let mut b = Batch::new(labels());
    assert!(!b.is_full(2));
    b.append(1, String::from("a"));
    assert!(!b.is_full(2));
    b.append(2, String::from("b"));
    assert!(b.is_full(2));
}

#[test]
fn age_counts_from_the_first_entry() {
    let mut b = Batch::new(labels());
    assert_eq!(b.age(1000), 0);
    b.append(100, String::from("a"));
    assert_eq!(b.age(100), 0);
    assert_eq!(b.age(350), 250);
    // A clock reading earlier than the first entry gives age zero.
    assert_eq!(b.age(40), 0);
}

#[test]
fn clear_empties_entries_and_resets_first_timestamp() {
    let mut b = Batch::new(labels());
    b.append(5, String::from("a"));
    b.append(6, String::from("b"));
    b.clear();
    assert_eq!(b.entries.len(), 0);
    assert_eq!(b.first_timestamp, None);
    assert_eq!(b.labels[0].0, "app");
    // The cycle starts over: the next entry sets a fresh first timestamp.
    b.append(9, String::from("c"));
    assert_eq!(b.first_timestamp, Some(9));
}
