use std::cell::RefCell;
use std::rc::Rc;

use gfxcore::event::{Callback, Event};

/// A callback that collects every value it is given.
struct Collector {
    seen: Rc<RefCell<Vec<i64>>>,
}

impl Callback<i64> for Collector {
    fn call(&self, data: i64) {
        self.seen.borrow_mut().push(data);
    }
}

#[test]
fn emit_runs_every_callback_in_subscription_order() {
    let first: Rc<RefCell<Vec<i64>>> = Rc::new(RefCell::new(Vec::new()));
    let second: Rc<RefCell<Vec<i64>>> = Rc::new(RefCell::new(Vec::new()));
    let mut event: Event<i64, Collector> = Event::new();
    event.subscribe(Collector { seen: first.clone() });
    event.subscribe(Collector { seen: second.clone() });
    event.emit(42);
    event.emit(-1);
    assert_eq!(*first.borrow(), vec![42, -1]);
    assert_eq!(*second.borrow(), vec![42, -1]);
}

#[test]
fn subscribe_returns_the_moved_on_counter() {
    let seen: Rc<RefCell<Vec<i64>>> = Rc::new(RefCell::new(Vec::new()));
    let mut event: Event<i64, Collector> = Event::new();
    let id1 = event.subscribe(Collector { seen: seen.clone() });
    let id2 = event.subscribe(Collector { seen: seen.clone() });
    assert_eq!(id1, 1);
    assert_eq!(id2, 2);
}

#[test]
fn unsubscribe_removes_one_callback() {
    let first: Rc<RefCell<Vec<i64>>> = Rc::new(RefCell::new(Vec::new()));
    let second: Rc<RefCell<Vec<i64>>> = Rc::new(RefCell::new(Vec::new()));
    let mut event: Event<i64, Collector> = Event::new();
    let id = event.subscribe(Collector { seen: first.clone() });
    event.subscribe(Collector { seen: second.clone() });
    // The callback is stored under the returned counter minus one.
    event.unsubscribe(id - 1);
    event.emit(5);
    assert_eq!(*first.borrow(), Vec::<i64>::new());
    assert_eq!(*second.borrow(), vec![5]);
}

#[test]
fn unsubscribe_with_the_raw_counter_removes_nothing() {
    // The registry stores a callback under the counter value before the
    // move-on, so handing `unsubscribe` the returned value leaves the
    // callback in place.
    let seen: Rc<RefCell<Vec<i64>>> = Rc::new(RefCell::new(Vec::new()));
    let mut event: Event<i64, Collector> = Event::new();
    let id = event.subscribe(Collector { seen: seen.clone() });
    event.unsubscribe(id);
    event.emit(9);
    assert_eq!(*seen.borrow(), vec![9]);
}

#[test]
fn unsubscribe_of_an_unknown_id_is_a_no_op() {
    let seen: Rc<RefCell<Vec<i64>>> = Rc::new(RefCell::new(Vec::new()));
    let mut event: Event<i64, Collector> = Event::new();
    event.subscribe(Collector { seen: seen.clone() });
    event.unsubscribe(99);
    event.emit(3);
    assert_eq!(*seen.borrow(), vec![3]);
}
