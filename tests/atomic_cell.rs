use std::sync::atomic::AtomicUsize;
use std::sync::atomic::Ordering::SeqCst;

use atomic::atomic_cell::AtomicCell;

struct UsizeWrap(usize);
struct U8Wrap(bool);

#[test]
fn is_lock_free() {
    assert_eq!(AtomicCell::<usize>::is_lock_free(), true);
    assert_eq!(AtomicCell::<isize>::is_lock_free(), true);
    assert_eq!(AtomicCell::<UsizeWrap>::is_lock_free(), true);

    assert_eq!(AtomicCell::<u8>::is_lock_free(), true);
    assert_eq!(AtomicCell::<bool>::is_lock_free(), true);
    assert_eq!(AtomicCell::<U8Wrap>::is_lock_free(), true);
}

static UNIT_CNT: AtomicUsize = AtomicUsize::new(0);

#[derive(Debug, PartialEq, Eq)]
struct UnitFoo();

impl UnitFoo {
    fn new() -> UnitFoo {
        UNIT_CNT.fetch_add(1, SeqCst);
        UnitFoo()
    }
}

impl Drop for UnitFoo {
    fn drop(&mut self) {
        UNIT_CNT.fetch_sub(1, SeqCst);
    }
}

impl Default for UnitFoo {
    fn default() -> UnitFoo {
        UnitFoo::new()
    }
}

#[test]
fn drops_unit() {
    UNIT_CNT.store(0, SeqCst);

    let a = AtomicCell::new(UnitFoo::new());

    assert_eq!(a.replace(UnitFoo::new()), UnitFoo::new());
    assert_eq!(UNIT_CNT.load(SeqCst), 1);

    a.set(UnitFoo::new());
    assert_eq!(UNIT_CNT.load(SeqCst), 1);

    assert_eq!(a.take(), UnitFoo::new());
    assert_eq!(UNIT_CNT.load(SeqCst), 1);

    drop(a);
    assert_eq!(UNIT_CNT.load(SeqCst), 0);
}

static U8_CNT: AtomicUsize = AtomicUsize::new(0);

#[derive(Debug, PartialEq, Eq)]
struct U8Foo(u8);

impl U8Foo {
    fn new(val: u8) -> U8Foo {
        U8_CNT.fetch_add(1, SeqCst);
        U8Foo(val)
    }
}

impl Drop for U8Foo {
    fn drop(&mut self) {
        U8_CNT.fetch_sub(1, SeqCst);
    }
}

impl Default for U8Foo {
    fn default() -> U8Foo {
        U8Foo::new(0)
    }
}

#[test]
fn drops_u8() {
    U8_CNT.store(0, SeqCst);

    let a = AtomicCell::new(U8Foo::new(5));

    assert_eq!(a.replace(U8Foo::new(6)), U8Foo::new(5));
    assert_eq!(a.replace(U8Foo::new(1)), U8Foo::new(6));
    assert_eq!(U8_CNT.load(SeqCst), 1);

    a.set(U8Foo::new(2));
    assert_eq!(U8_CNT.load(SeqCst), 1);

    assert_eq!(a.take(), U8Foo::new(2));
    assert_eq!(U8_CNT.load(SeqCst), 1);

    assert_eq!(a.take(), U8Foo::new(0));
    assert_eq!(U8_CNT.load(SeqCst), 1);

    drop(a);
    assert_eq!(U8_CNT.load(SeqCst), 0);
}

static USIZE_CNT: AtomicUsize = AtomicUsize::new(0);

#[derive(Debug, PartialEq, Eq)]
struct UsizeFoo(usize);

impl UsizeFoo {
    fn new(val: usize) -> UsizeFoo {
        USIZE_CNT.fetch_add(1, SeqCst);
        UsizeFoo(val)
    }
}

impl Drop for UsizeFoo {
    fn drop(&mut self) {
        USIZE_CNT.fetch_sub(1, SeqCst);
    }
}

impl Default for UsizeFoo {
    fn default() -> UsizeFoo {
        UsizeFoo::new(0)
    }
}

#[test]
fn drops_usize() {
    USIZE_CNT.store(0, SeqCst);

    let a = AtomicCell::new(UsizeFoo::new(5));

    assert_eq!(a.replace(UsizeFoo::new(6)), UsizeFoo::new(5));
    assert_eq!(a.replace(UsizeFoo::new(1)), UsizeFoo::new(6));
    assert_eq!(USIZE_CNT.load(SeqCst), 1);

    a.set(UsizeFoo::new(2));
    assert_eq!(USIZE_CNT.load(SeqCst), 1);

    assert_eq!(a.take(), UsizeFoo::new(2));
    assert_eq!(USIZE_CNT.load(SeqCst), 1);

    assert_eq!(a.take(), UsizeFoo::new(0));
    assert_eq!(USIZE_CNT.load(SeqCst), 1);

    drop(a);
    assert_eq!(USIZE_CNT.load(SeqCst), 0);
}

#[derive(Clone, Copy, Eq, Debug, Default)]
struct ModU8(u8);

impl PartialEq for ModU8 {
    fn eq(&self, other: &ModU8) -> bool {
        self.0 % 5 == other.0 % 5
    }
}

#[test]
fn modular_u8() {
    let a = AtomicCell::new(ModU8(1));

    assert_eq!(a.get(), ModU8(1));
    assert_eq!(a.replace(ModU8(2)), ModU8(11));
    assert_eq!(a.get(), ModU8(52));

    assert_eq!(a.update(|_| ModU8(3)), ModU8(33));
    assert_ne!(a.update(|_| ModU8(3)).0, 33);
    assert_eq!(a.update(|_| ModU8(44)).0, 44);

    a.set(ModU8(0));
    let mut x = 0;
    let new = a.update(|_old| {
        if x < 20 {
            x += 1;
            a.set(ModU8(x));
        }
        ModU8(0)
    });
    assert_eq!(x, 20);
    assert_eq!(new.0, 0);

    a.set(ModU8(0));
    assert_eq!(a.compare_and_set(ModU8(0), ModU8(5)), true);
    assert_eq!(a.get().0, 5);
    assert_eq!(a.compare_and_set(ModU8(10), ModU8(15)), true);
    assert_eq!(a.get().0, 15);
}

#[derive(Clone, Copy, Eq, Debug, Default)]
struct ModUsize(usize);

impl PartialEq for ModUsize {
    fn eq(&self, other: &ModUsize) -> bool {
        self.0 % 5 == other.0 % 5
    }
}

#[test]
fn modular_usize() {
    let a = AtomicCell::new(ModUsize(1));

    assert_eq!(a.get(), ModUsize(1));
    assert_eq!(a.replace(ModUsize(2)), ModUsize(11));
    assert_eq!(a.get(), ModUsize(52));

    assert_eq!(a.update(|_| ModUsize(3)), ModUsize(33));
    assert_ne!(a.update(|_| ModUsize(3)).0, 33);
    assert_eq!(a.update(|_| ModUsize(44)).0, 44);

    a.set(ModUsize(0));
    let mut x = 0;
    let new = a.update(|_old| {
        if x < 20 {
            x += 1;
            a.set(ModUsize(x));
        }
        ModUsize(0)
    });
    assert_eq!(x, 20);
    assert_eq!(new.0, 0);

    a.set(ModUsize(0));
    assert_eq!(a.compare_and_set(ModUsize(0), ModUsize(5)), true);
    assert_eq!(a.get().0, 5);
    assert_eq!(a.compare_and_set(ModUsize(10), ModUsize(15)), true);
    assert_eq!(a.get().0, 15);
}
