use sack::{Drain, Sack};
use std::cell::Cell;
use std::rc::Rc;

struct Counted {
    live: Rc<Cell<usize>>,
    tag: usize,
}

impl Counted {
    fn new(live: &Rc<Cell<usize>>, tag: usize) -> Self {
        live.set(live.get() + 1);
        Counted {
            live: live.clone(),
            tag,
        }
    }
}

impl Drop for Counted {
    fn drop(&mut self) {
        self.live.set(self.live.get() - 1);
    }
}

fn filled(live: &Rc<Cell<usize>>, len: usize) -> Sack<Counted> {
    let mut sack = Sack::new();
    for tag in 0..len {
        sack.add(Counted::new(live, tag));
    }
    sack
}

#[test]
fn discarding_a_partly_consumed_drain_releases_every_entry() {
    let live = Rc::new(Cell::new(0));
    let mut sack = filled(&live, 100_000);
    assert_eq!(live.get(), 100_000);

    let mut drain = sack.drain();
    for expected in (99_990..100_000).rev() {
        let item = drain.next().unwrap();
        assert_eq!(item.tag, expected);
    }
    assert_eq!(live.get(), 99_990);
    drop(drain);
    assert_eq!(live.get(), 0);
    assert!(sack.is_empty());
}

#[test]
fn discarding_an_untouched_drain_of_a_million_entries_releases_them() {
    let live = Rc::new(Cell::new(0));
    let mut sack = filled(&live, 1_000_000);
    let drain: Drain<Counted> = sack.drain();
    assert_eq!(live.get(), 1_000_000);
    drop(drain);
    assert_eq!(live.get(), 0);
}

#[test]
fn dropping_a_full_sack_releases_every_entry() {
    let live = Rc::new(Cell::new(0));
    let sack = filled(&live, 1_000_000);
    assert_eq!(live.get(), 1_000_000);
    drop(sack);
    assert_eq!(live.get(), 0);
}

#[test]
fn count_releases_what_it_counts() {
    let live = Rc::new(Cell::new(0));
    let mut sack = filled(&live, 1_000);
    assert_eq!(sack.drain().count(), 1_000);
    assert_eq!(live.get(), 0);
}

#[test]
fn yielded_items_outlive_the_drain() {
    let live = Rc::new(Cell::new(0));
    let mut sack = filled(&live, 3);
    let mut drain = sack.drain();
    let newest = drain.next().unwrap();
    drop(drain);
    assert_eq!(live.get(), 1);
    assert_eq!(newest.tag, 2);
    drop(newest);
    assert_eq!(live.get(), 0);
}

#[test]
fn collect_hands_every_item_over() {
    let live = Rc::new(Cell::new(0));
    let mut sack = filled(&live, 50);
    let items = sack.drain().collect();
    assert_eq!(live.get(), 50);
    assert_eq!(items.len(), 50);
    assert_eq!(items[0].tag, 49);
    assert_eq!(items[49].tag, 0);
    drop(items);
    assert_eq!(live.get(), 0);
}
