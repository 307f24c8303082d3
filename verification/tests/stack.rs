use sack::{Drain, Entry, Sack};

#[test]
fn test_sack_add_drain() {
    let mut sack = Sack::new();
    sack.add(1);
    sack.add(2);
    sack.add(3);

    let mut drained: Vec<_> = sack.drain().collect();
    drained.sort();
    assert_eq!(drained, vec![1, 2, 3]);
}

#[test]
fn test_sack_is_empty() {
    let mut sack = Sack::new();
    assert!(sack.is_empty());
    sack.add(1);
    assert!(!sack.is_empty());
    let _ = sack.drain();
    assert!(sack.is_empty());
}

#[test]
fn test_sack_interleaved_add() {
    let mut sack = Sack::new();
    for j in 0..100usize {
        for i in 0..10usize {
            sack.add(i * 100 + j);
        }
    }

    let mut drained: Vec<_> = sack.drain().collect();
    assert_eq!(drained.len(), 1000);
    drained.sort();
    for (i, item) in drained.into_iter().enumerate() {
        assert_eq!(item, i);
    }
}

#[test]
fn drain_yields_newest_first() {
    let mut sack = Sack::new();
    sack.add(1);
    sack.add(2);
    sack.add(3);
    assert_eq!(sack.drain().collect(), vec![3, 2, 1]);
}

#[test]
fn drain_keeps_every_copy_of_a_repeated_item() {
    let inserted = [5, 1, 5, 2, 2, 2, 9];
    let mut sack = Sack::new();
    for item in inserted {
        sack.add(item);
    }
    let drained = sack.drain().collect();
    assert_eq!(drained, vec![9, 2, 2, 2, 5, 1, 5]);

    let mut sorted_in = inserted.to_vec();
    sorted_in.sort();
    let mut sorted_out = drained;
    sorted_out.sort();
    assert_eq!(sorted_out, sorted_in);
}

#[test]
fn new_and_default_are_empty() {
    let made: Sack<u8> = Sack::new();
    assert!(made.is_empty());
    let mut by_default: Sack<String> = Sack::default();
    assert!(by_default.is_empty());
    assert_eq!(by_default.drain().collect(), Vec::<String>::new());
}

#[test]
fn draining_an_empty_sack_yields_nothing() {
    let mut sack: Sack<i64> = Sack::new();
    let mut drain = sack.drain();
    assert_eq!(drain.next(), None);
    assert_eq!(drain.next(), None);
    assert_eq!(drain.count(), 0);
    assert!(sack.is_empty());
}

#[test]
fn is_empty_follows_the_last_step() {
    let mut sack = Sack::new();
    sack.add('a');
    sack.add('b');
    assert!(!sack.is_empty());
    let first = sack.drain();
    assert!(sack.is_empty());
    let second = sack.drain();
    assert!(sack.is_empty());
    sack.add('c');
    assert!(!sack.is_empty());
    assert_eq!(first.collect(), vec!['b', 'a']);
    assert_eq!(second.collect(), Vec::<char>::new());
    assert!(!sack.is_empty());
    assert_eq!(sack.drain().collect(), vec!['c']);
    assert!(sack.is_empty());
}

#[test]
fn next_walks_the_chain_once() {
    let mut sack = Sack::new();
    sack.add("old");
    sack.add("new");
    let mut drain = sack.drain();
    assert_eq!(drain.next(), Some("new"));
    assert_eq!(drain.next(), Some("old"));
    assert_eq!(drain.next(), None);
    assert_eq!(drain.next(), None);
}

#[test]
fn count_says_how_many_are_left() {
    let mut sack = Sack::new();
    for item in 0..7u32 {
        sack.add(item);
    }
    let mut drain = sack.drain();
    assert_eq!(drain.next(), Some(6));
    assert_eq!(drain.next(), Some(5));
    assert_eq!(drain.count(), 5);
}

#[test]
fn collect_takes_what_is_left_in_order() {
    let mut sack = Sack::new();
    for item in 0..5u32 {
        sack.add(item);
    }
    let mut drain = sack.drain();
    assert_eq!(drain.next(), Some(4));
    assert_eq!(drain.collect(), vec![3, 2, 1, 0]);
}

#[test]
fn drains_partition_what_was_inserted() {
    let mut sack = Sack::new();
    sack.add(1);
    sack.add(2);
    let first = sack.drain();
    sack.add(3);
    let second = sack.drain();
    sack.add(4);
    sack.add(5);
    let later = sack.drain();

    let first = first.collect();
    let second = second.collect();
    let later = later.collect();
    assert_eq!(first, vec![2, 1]);
    assert_eq!(second, vec![3]);
    assert_eq!(later, vec![5, 4]);
    for item in &first {
        assert!(!second.contains(item));
        assert!(!later.contains(item));
    }

    let mut all = first;
    all.extend(second);
    all.extend(later);
    all.sort();
    assert_eq!(all, vec![1, 2, 3, 4, 5]);
    assert!(sack.is_empty());
}

#[test]
fn a_drain_does_not_see_later_insertions() {
    let mut sack = Sack::new();
    sack.add(10);
    let mut drain = sack.drain();
    sack.add(20);
    assert_eq!(drain.next(), Some(10));
    assert_eq!(drain.next(), None);
    assert_eq!(sack.drain().collect(), vec![20]);
}

#[test]
fn a_drain_can_own_a_chain_built_by_hand() {
    let oldest = Entry { item: 'x', next: None };
    let newest = Entry {
        item: 'y',
        next: Some(Box::new(oldest)),
    };
    let mut drain = Drain::new(Some(Box::new(newest)));
    assert_eq!(drain.next(), Some('y'));
    assert_eq!(drain.next(), Some('x'));
    assert_eq!(drain.next(), None);

    let nothing: Drain<char> = Drain::new(None);
    assert_eq!(nothing.count(), 0);
}

#[test]
fn a_sack_takes_items_that_are_not_copied() {
    let mut sack = Sack::new();
    sack.add(String::from("first"));
    sack.add(String::from("second"));
    let drained = sack.drain().collect();
    assert_eq!(drained, vec![String::from("second"), String::from("first")]);
}
