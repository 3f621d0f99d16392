use std::sync::Arc;

use fugue::sleigh::register::RegisterNames;
use fugue::sleigh::space::AddressSpace;

fn table() -> RegisterNames {
    let mut r = RegisterNames::new(Arc::new(AddressSpace::constant("register", 2)));
    r.insert(0, 4, "EAX".to_owned());
    r.insert(0, 2, "AX".to_owned());
    r.insert(0, 1, "AL".to_owned());
    r.insert(1, 1, "AH".to_owned());
    r
}

#[test]
fn exact_locations_have_their_own_names() {
    let r = table();
    assert_eq!(r.get(0, 4).map(String::as_str), Some("EAX"));
    assert_eq!(r.get(0, 2).map(String::as_str), Some("AX"));
    assert_eq!(r.get(1, 1).map(String::as_str), Some("AH"));
}

#[test]
fn other_locations_take_the_first_covering_name() {
    let r = table();
    assert_eq!(r.get(2, 2).map(String::as_str), Some("EAX"));
    assert_eq!(r.get(0, 3).map(String::as_str), Some("EAX"));
    assert_eq!(r.get(3, 2), None);
    assert_eq!(r.get(8, 1), None);
}

#[test]
fn names_lead_back_to_locations() {
    let mut r = table();
    let (n, o, s) = r.get_by_name("AX").unwrap();
    assert_eq!((n.as_str(), o, s), ("AX", 0, 2));
    assert!(r.get_by_name("BX").is_none());
    r.insert(0, 2, "X".to_owned());
    assert_eq!(r.get(0, 2).map(String::as_str), Some("X"));
    assert_eq!(r.get_by_name("X").map(|(_, o, s)| (o, s)), Some((0, 2)));
    assert_eq!(r.get_by_name("AX").map(|(_, o, s)| (o, s)), Some((0, 2)));
    assert_eq!(r.name_mapping().len(), 5);
}

#[test]
fn locations_are_listed_in_order() {
    let r = table();
    let order: Vec<(u64, usize, &str)> = r.iter().iter().map(|(o, s, n)| (*o, *s, n.as_str())).collect();
    assert_eq!(order, vec![(0, 1, "AL"), (0, 2, "AX"), (0, 4, "EAX"), (1, 1, "AH")]);
    assert_eq!(r.range_mapping().len(), 4);
    assert!(r.register_space().is_constant());
}
