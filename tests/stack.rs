use std::sync::atomic::{AtomicUsize, Ordering};
use std::sync::{Arc, Mutex};

use atomic::AtomicArc;

struct Node<T> {
    value: Mutex<Option<T>>,
    next: AtomicArc<Node<T>>,
}

impl<T> Drop for Node<T> {
    fn drop(&mut self) {
        let mut next = self.next.replace(None);
        loop {
            next = match next.as_ref() {
                None => break,
                Some(n) => n.next.replace(None),
            };
        }
    }
}

struct Stack<T> {
    head: AtomicArc<Node<T>>,
}

impl<T> Stack<T> {
    fn new() -> Stack<T> {
        Stack { head: AtomicArc::new(None) }
    }

    fn push(&self, value: T) {
        let mut new = Arc::new(Node { value: Mutex::new(Some(value)), next: AtomicArc::new(None) });
        loop {
            let head = self.head.get();
            new.next.set(head.clone_inner());
            match self.head.compare_and_set(&head, new) {
                Ok(()) => break,
                Err(n) => new = n.unwrap(),
            }
        }
    }

    fn pop(&self) -> Option<T> {
        loop {
            let head = self.head.get();
            match head.as_ref() {
                None => return None,
                Some(h) => {
                    if self.head.compare_and_set(&head, h.next.get().clone_inner()).is_ok() {
                        h.next.set(None);
                        return h.value.lock().unwrap().take();
                    }
                }
            }
        }
    }
}

static ITEMS_LIVE: AtomicUsize = AtomicUsize::new(0);

struct Item;

impl Item {
    fn new() -> Item {
        ITEMS_LIVE.fetch_add(1, Ordering::SeqCst);
        Item
    }
}

impl Drop for Item {
    fn drop(&mut self) {
        ITEMS_LIVE.fetch_sub(1, Ordering::SeqCst);
    }
}

#[test]
fn scenario_e_treiber_stack() {
    const N: usize = 1_000_000;
    const T: usize = 8;

    let s = Stack::new();
    crossbeam::scope(|scope| {
        for _ in 0..T {
            scope.spawn(|_| {
                for _ in 0..N / T {
                    s.push(Item::new());
                }
                for _ in 0..N / T {
                    loop {
                        if let Some(item) = s.pop() {
                            drop(item);
                            break;
                        }
                    }
                }
            });
        }
    })
    .unwrap();
    assert!(s.pop().is_none());
    drop(s);
    assert_eq!(ITEMS_LIVE.load(Ordering::SeqCst), 0);
}
