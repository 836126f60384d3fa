use tty_mood::signals::{Signal, SignalCollection};

#[test]
fn signal_score_clamped() {
    let signal = Signal::new("test", 15000);
    assert_eq!(signal.score, 10000);

    let signal = Signal::new("test", -5000);
    assert_eq!(signal.score, 0);
}

#[test]
fn collection_get_returns_score() {
    let mut collection = SignalCollection::new();
    collection.add(Signal::new("test", 8000));

    assert_eq!(collection.score("test"), 8000);
    assert_eq!(collection.score("missing"), 0);
}

#[test]
fn first_duplicate_wins() {
    let mut collection = SignalCollection::new();
    collection.add(Signal::new("a", 1000));
    collection.add(Signal::new("a", 9000));
    assert_eq!(collection.score("a"), 1000);
    assert_eq!(collection.get("a").unwrap().score, 1000);
    assert!(collection.get("b").is_none());
}

#[test]
fn strong_and_weak() {
    let mut collection = SignalCollection::new();
    collection.add(Signal::new("a", 7000));
    collection.add(Signal::new("b", 6999));
    collection.add_if_significant(Signal::new("c", 500), 1000);
    collection.add_if_significant(Signal::new("d", 1000), 1000);
    let strong = collection.strong_signals();
    assert_eq!(strong.len(), 1);
    assert_eq!(strong[0].id, "a");
    assert_eq!(collection.signals.len(), 3);
    assert!(Signal::new("w", 2999).is_weak());
    assert!(!Signal::new("w", 3000).is_weak());
}

#[test]
fn merge_concatenates() {
    let mut a = SignalCollection::new();
    a.add(Signal::new("x", 1));
    let mut b = SignalCollection::new();
    b.add(Signal::new("x", 2));
    b.add(Signal::new("y", 3));
    a.merge(b);
    let ids: Vec<&str> = a.signals.iter().map(|s| s.id.as_str()).collect();
    assert_eq!(ids, vec!["x", "x", "y"]);
    assert_eq!(a.score("x"), 1);
}
