use robusta::collection::once::{Once, OnceMap};

#[test]
fn once() {
    let mut once = Once::new();

    once.get_or_init(|| 10);
    once.get_or_init(|| 20);
    once.get_or_init(|| 30);

    let value = once.get_or_init(|| 40);
    assert!(*value == 10 || *value == 20 || *value == 30);
}

#[test]
fn once_map() {
    let mut map: OnceMap<i32, i32> = OnceMap::new();

    map.get_or_init(10, |x| *x);
    map.get_or_init(10, |x| x * 2);
    map.get_or_init(10, |x| x * 3);

    let value = map.get_or_init(10, |x| x * 4);
    assert!(*value == 10 || *value == 20 || *value == 30);
}

#[test]
fn once_keeps_the_first_value() {
    let mut once = Once::new();
    assert_eq!(*once.get_or_init(|| 10), 10);
    assert_eq!(*once.get_or_init(|| 20), 10);
    assert_eq!(once.get(), Some(&10));
}

#[test]
fn once_map_keeps_the_first_value_per_key() {
    let mut map: OnceMap<i32, i32> = OnceMap::new();
    assert_eq!(*map.get_or_init(10, |x| *x), 10);
    assert_eq!(*map.get_or_init(10, |x| x * 2), 10);
    assert_eq!(*map.get_or_init(20, |x| x * 3), 60);
}
