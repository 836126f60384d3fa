use tty_mood::seed::{format_case_id, Chaos};

#[test]
fn seeded_is_deterministic() {
    let mut c1 = Chaos::seeded(42);
    let mut c2 = Chaos::seeded(42);

    for _ in 0..100 {
        assert_eq!(c1.range(0, 1000), c2.range(0, 1000));
    }
}

#[test]
fn different_seeds_differ() {
    let mut c1 = Chaos::seeded(42);
    let mut c2 = Chaos::seeded(43);

    let seq1: Vec<_> = (0..10).map(|_| c1.range(0, 1000)).collect();
    let seq2: Vec<_> = (0..10).map(|_| c2.range(0, 1000)).collect();

    assert_ne!(seq1, seq2);
}

#[test]
fn pick_from_empty_returns_none() {
    let mut chaos = Chaos::seeded(42);
    let empty: Vec<i32> = vec![];
    assert!(chaos.pick(&empty).is_none());
}

#[test]
fn pick_from_single_returns_that_element() {
    let mut chaos = Chaos::seeded(42);
    let single = vec!["only"];
    assert_eq!(chaos.pick(&single), Some(&"only"));
}

#[test]
fn case_id_format() {
    let mut chaos = Chaos::seeded(42);
    let id = chaos.case_id("20251212");
    assert!(id.starts_with("AB-20251212-"));
    assert_eq!(id.len(), 15); // AB-YYYYMMDD-NNN
}

#[test]
fn shuffle_is_deterministic_when_seeded() {
    let mut c1 = Chaos::seeded(42);
    let mut c2 = Chaos::seeded(42);

    let mut v1 = vec![1, 2, 3, 4, 5];
    let mut v2 = vec![1, 2, 3, 4, 5];

    c1.shuffle(&mut v1);
    c2.shuffle(&mut v2);

    assert_eq!(v1, v2);
    let mut sorted = v1.clone();
    sorted.sort();
    assert_eq!(sorted, vec![1, 2, 3, 4, 5]);
}

#[test]
fn case_id_digits_are_padded() {
    assert_eq!(format_case_id("20250101", 7), "AB-20250101-007");
    assert_eq!(format_case_id("x", 999), "AB-x-999");
}

#[test]
fn seed_is_reported() {
    assert_eq!(Chaos::seeded(5).seed(), Some(5));
    assert!(Chaos::from_optional_seed(Some(1)).unwrap().is_deterministic());
    if let Some(c) = Chaos::unseeded() {
        assert!(!c.is_deterministic());
    }
    if let Some(c) = Chaos::from_optional_seed(None) {
        assert_eq!(c.seed(), None);
    }
    let mut c = Chaos::seeded(9);
    let v = c.range(-3, -3);
    assert_eq!(v, -3);
    let items = [10, 20, 30];
    let p = *c.pick_unwrap(&items);
    assert!(items.contains(&p));
}
