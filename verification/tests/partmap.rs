use fugue::partmap::PartMap;

#[test]
fn simple_partmap() {
    let mut map = PartMap::<isize, usize>::new(0);

    *map.split_mut(&5) = 5;
    *map.split_mut(&2) = 2;
    *map.split_mut(&3) = 4;
    *map.split_mut(&3) = 3;

    assert_eq!(map.get(&6), Some(&5));
    assert_eq!(map.get(&8), Some(&5));
    assert_eq!(map.get(&4), Some(&3));
    assert_eq!(map.get(&1), None);
}

#[test]
fn bounds_name_the_surrounding_split_points() {
    let mut map = PartMap::<u64, u64>::new(7);
    assert!(map.is_empty());
    *map.split_mut(&10) = 1;
    *map.split_mut(&20) = 2;
    assert!(!map.is_empty());
    let b = map.bounds(&15);
    assert_eq!((b.lower(), b.upper(), *b.value()), (Some(&10), Some(&20), 1));
    let b = map.bounds(&5);
    assert_eq!((b.lower(), b.upper(), *b.value()), (None, Some(&10), 7));
    let b = map.bounds(&25);
    assert_eq!((b.lower(), b.upper(), *b.value()), (Some(&20), None, 2));
    let b = map.bounds(&20);
    assert_eq!((b.lower(), b.upper(), *b.value()), (Some(&20), None, 2));
    map.clear();
    let b = map.bounds(&20);
    assert_eq!((b.lower(), b.upper(), *b.value()), (None, None, 7));
}

#[test]
fn ranges_and_defaults() {
    let mut map = PartMap::<u64, u64>::new(0);
    for (k, v) in [(10u64, 1u64), (20, 2), (30, 3), (40, 4)] {
        *map.split_mut(&k) = v;
    }
    let r: Vec<(u64, u64)> = map.range(&15, Some(&40)).into_iter().map(|(k, v)| (*k, *v)).collect();
    assert_eq!(r, vec![(20, 2), (30, 3)]);
    let r: Vec<(u64, u64)> = map.begin(&30).into_iter().map(|(k, v)| (*k, *v)).collect();
    assert_eq!(r, vec![(30, 3), (40, 4)]);
    assert_eq!(map.iter().len(), 4);
    assert_eq!(*map.get_or_default(&5), 0);
    *map.default_value_mut() = 9;
    assert_eq!(*map.default_value(), 9);
    assert_eq!(*map.get_or_default(&5), 9);
    let (lo, hi) = map.range_mut(&20, None);
    assert_eq!((lo, hi), (1, 4));
    *map.value_at_mut(lo) = 22;
    assert_eq!(map.get(&25), Some(&22));
    let (lo, hi) = map.begin_mut(&35);
    assert_eq!((lo, hi), (3, 4));
    assert_eq!(*map.split(&25), 22);
    assert_eq!(map.get(&27), Some(&22));
}

#[test]
fn clear_range_makes_one_value() {
    let mut map = PartMap::<u64, u64>::new(0);
    for (k, v) in [(10u64, 1u64), (20, 2), (30, 3)] {
        *map.split_mut(&k) = v;
    }
    *map.clear_range(&15, &35) = 8;
    assert_eq!(map.get(&12), Some(&1));
    assert_eq!(map.get(&15), Some(&8));
    assert_eq!(map.get(&25), Some(&8));
    assert_eq!(map.get(&34), Some(&8));
    assert_eq!(map.get(&35), Some(&3));
    assert_eq!(map.range(&15, Some(&35)).len(), 1);
}
