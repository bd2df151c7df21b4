use std::collections::HashMap;
use style::lazy::LazyInit;

fn times_two(n: usize) -> usize {
    n * 2
}

fn make_map() -> HashMap<usize, &'static str> {
    let mut m = HashMap::new();
    m.insert(0usize, "abc");
    m.insert(1, "def");
    m.insert(2, "ghi");
    m
}

#[test]
fn test_basic() {
    let mut number = LazyInit::new(|| times_two(3));
    let mut boxes = LazyInit::new(|| [Box::new(1usize), Box::new(2), Box::new(3)]);
    let mut owned_string = LazyInit::new(|| "hello".to_string());
    let mut hashmap = LazyInit::new(make_map);
    assert_eq!(*owned_string.get(), "hello".to_string());
    assert_eq!(*number.get(), 6);
    assert!(hashmap.get().get(&1).is_some());
    assert!(hashmap.get().get(&3).is_none());
    assert_eq!(boxes.get().as_slice(), &[Box::new(1), Box::new(2), Box::new(3)]);
}

#[test]
fn test_repeat() {
    let mut number = LazyInit::new(|| times_two(3));
    assert_eq!(*number.get(), 6);
    assert_eq!(*number.get(), 6);
    assert_eq!(*number.get(), 6);
}

#[test]
fn lazy_init_runs_the_initializer_once() {
    let mut calls = 0usize;
    {
        let mut lazy = LazyInit::new(|| {
            calls += 1;
            41usize + 1
        });
        assert_eq!(*lazy.get(), 42);
        assert_eq!(*lazy.get(), 42);
    }
    assert_eq!(calls, 1);
}
