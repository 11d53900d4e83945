use noshare_cover::notify::Notifier;

#[test]
fn dedups_consecutive() {
    let mut n = Notifier::default();
    n.push("a".into());
    n.push("a".into());
    n.push("b".into());
    n.push("a".into());
    assert_eq!(n.pop().as_deref(), Some("a"));
    assert_eq!(n.pop().as_deref(), Some("b"));
    assert_eq!(n.pop().as_deref(), Some("a"));
    assert_eq!(n.pop(), None);
}

#[test]
fn reset_allows_repeat() {
    let mut n = Notifier::default();
    n.push("a".into());
    n.reset();
    n.push("a".into());
    assert_eq!(n.pop().as_deref(), Some("a"));
    assert_eq!(n.pop().as_deref(), Some("a"));
}

#[test]
fn queue_is_bounded() {
    let mut n = Notifier::default();
    for i in 0..100 {
        n.push(i.to_string());
    }
    assert_eq!(std::iter::from_fn(|| n.pop()).count(), 16);
}

#[test]
fn a_full_queue_forgets_the_oldest() {
    let mut n = Notifier::default();
    for i in 0..20 {
        n.push(i.to_string());
    }
    assert_eq!(n.pop().as_deref(), Some("4"));
    n.push("19".into());
    let rest: Vec<_> = std::iter::from_fn(|| n.pop()).collect();
    assert_eq!(rest.len(), 15, "a repeat is not queued");
    assert_eq!(rest.last().map(String::as_str), Some("19"));
}

#[test]
fn neighbours_in_the_queue_differ() {
    let mut n = Notifier::default();
    for m in ["a", "b", "b", "a", "a", "c", "c", "b"] {
        n.push(m.into());
    }
    let mut last = n.pop();
    let mut seen = 1;
    while let Some(next) = n.pop() {
        assert_ne!(Some(&next), last.as_ref());
        last = Some(next);
        seen += 1;
    }
    assert_eq!(seen, 5);
    // what was taken out is not repeated either
    n.push("b".into());
    assert_eq!(n.pop(), None);
}
