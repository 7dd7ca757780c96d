use trivia_bot::ledger::{Entry, Ledger};

#[test]
fn new_ledger_is_empty() {
    let l = Ledger::new();
    assert!(l.is_empty());
    assert_eq!(l.get(1), 0);
    assert!(l.ranking().is_empty());
}

#[test]
fn add_point_inserts_then_increments() {
    let mut l = Ledger::new();
    assert_eq!(l.add_point(9), 1);
    assert_eq!(l.add_point(9), 2);
    assert_eq!(l.add_point(4), 1);
    assert_eq!(l.get(9), 2);
    assert_eq!(l.get(4), 1);
    assert_eq!(l.get(5), 0);
    assert!(!l.is_empty());
}

#[test]
fn clear_removes_every_entry() {
    let mut l = Ledger::new();
    l.add_point(1);
    l.add_point(2);
    l.clear();
    assert!(l.is_empty());
    assert_eq!(l.get(1), 0);
    assert_eq!(l.get(2), 0);
}

#[test]
fn ranking_puts_higher_counts_first() {
    let mut l = Ledger::new();
    l.add_point(10);
    l.add_point(20);
    l.add_point(20);
    l.add_point(30);
    l.add_point(30);
    l.add_point(30);
    assert_eq!(
        l.ranking(),
        vec![
            Entry { user: 30, count: 3 },
            Entry { user: 20, count: 2 },
            Entry { user: 10, count: 1 },
        ]
    );
}

#[test]
fn ranking_breaks_ties_by_lower_identity() {
    let mut l = Ledger::new();
    l.add_point(50);
    l.add_point(7);
    l.add_point(30);
    l.add_point(8);
    l.add_point(8);
    assert_eq!(
        l.ranking(),
        vec![
            Entry { user: 8, count: 2 },
            Entry { user: 7, count: 1 },
            Entry { user: 30, count: 1 },
            Entry { user: 50, count: 1 },
        ]
    );
}

#[test]
fn ranking_counts_never_rise() {
    let mut l = Ledger::new();
    let mut user: u64 = 0;
    while user < 12 {
        let mut n: u64 = 0;
        while n <= (user * 5) % 7 {
            l.add_point(user);
            n += 1;
        }
        user += 1;
    }
    let r = l.ranking();
    assert_eq!(r.len(), 12);
    let mut i: usize = 1;
    while i < r.len() {
        assert!(r[i - 1].count >= r[i].count);
        assert_eq!(l.get(r[i].user), r[i].count);
        i += 1;
    }
}
