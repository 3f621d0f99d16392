use fugue::sleigh::deserialise::{element_of_tree, parse_int_radix, DeserialiseError, IntErrorKind, XmlElement, XmlTree};
use fugue::endian::Endian;

fn el(tag: &str, attrs: &[(&str, &str)]) -> XmlElement {
    XmlElement {
        tag: tag.to_owned(),
        attributes: attrs.iter().map(|(k, v)| (k.to_string(), v.to_string())).collect(),
        children: Vec::new(),
    }
}

#[test]
fn numbers_in_decimal_and_hex() {
    assert_eq!(parse_int_radix::<u32>("42").unwrap(), 42);
    assert_eq!(parse_int_radix::<u32>("0x2a").unwrap(), 42);
    assert_eq!(parse_int_radix::<u32>("0X2A").unwrap(), 42);
    assert_eq!(parse_int_radix::<i64>("-17").unwrap(), -17);
    assert_eq!(parse_int_radix::<u8>("+255").unwrap(), 255);
    assert_eq!(parse_int_radix::<u64>("0").unwrap(), 0);
    assert_eq!(parse_int_radix::<u64>("0x").unwrap_err(), DeserialiseError::ParseInteger(IntErrorKind::InvalidDigit));
}

#[test]
fn number_errors_follow_std() {
    assert_eq!(parse_int_radix::<u8>("").unwrap_err(), DeserialiseError::ParseInteger(IntErrorKind::Empty));
    assert_eq!(parse_int_radix::<u8>("-").unwrap_err(), DeserialiseError::ParseInteger(IntErrorKind::InvalidDigit));
    assert_eq!(parse_int_radix::<u8>("256").unwrap_err(), DeserialiseError::ParseInteger(IntErrorKind::PosOverflow));
    assert_eq!(parse_int_radix::<i8>("-129").unwrap_err(), DeserialiseError::ParseInteger(IntErrorKind::NegOverflow));
    assert_eq!(parse_int_radix::<u8>("-1").unwrap_err(), DeserialiseError::ParseInteger(IntErrorKind::InvalidDigit));
    assert_eq!(parse_int_radix::<u8>("12z").unwrap_err(), DeserialiseError::ParseInteger(IntErrorKind::InvalidDigit));
    assert_eq!(parse_int_radix::<u8>("999z").unwrap_err(), DeserialiseError::ParseInteger(IntErrorKind::PosOverflow));
    for text in ["0", "7", "+9", "-128", "127", "abc", "", "1_0", "0x7f", "0x80"] {
        let ours = parse_int_radix::<i8>(text).ok();
        let std = if text.len() > 2 && text.starts_with("0x") {
            i8::from_str_radix(&text[2..], 16).ok()
        } else {
            text.parse::<i8>().ok()
        };
        assert_eq!(ours, std, "{}", text);
    }
}

#[test]
fn attributes_are_looked_up_by_name() {
    let e = el("space", &[("name", "ram"), ("size", "0x8"), ("big", "true"), ("order", "LE"), ("at", "3:17")]);
    assert_eq!(e.tag_name(), "space");
    assert_eq!(e.attribute("name"), Some("ram"));
    assert_eq!(e.attribute("missing"), None);
    assert_eq!(e.attribute_string("name").unwrap(), "ram");
    assert_eq!(e.attribute_string("other").unwrap_err(), DeserialiseError::AttributeExpected("other"));
    assert_eq!(e.attribute_string_or("missing", "name").unwrap(), "ram");
    assert_eq!(e.attribute_string_opt("missing", "dflt"), "dflt");
    assert_eq!(e.attribute_int::<usize>("size").unwrap(), 8);
    assert_eq!(e.attribute_int_or::<usize>("missing", "size").unwrap(), 8);
    assert_eq!(e.attribute_int_opt::<usize>("missing", 5).unwrap(), 5);
    assert_eq!(e.attribute_int::<usize>("name").unwrap_err(), DeserialiseError::ParseInteger(IntErrorKind::InvalidDigit));
    assert_eq!(e.attribute_bool("big").unwrap(), true);
    assert_eq!(e.attribute_bool("name").unwrap_err(), DeserialiseError::ParseBool);
    assert_eq!(e.attribute_endian("order").unwrap(), Endian::Little);
    assert_eq!(e.attribute_endian("name").unwrap_err(), DeserialiseError::ParseEndian);
    assert_eq!(e.attribute_line_number::<u32>("at").unwrap(), (3, 17));
    assert_eq!(e.attribute_line_number::<u32>("size").unwrap(), (0, 8));
    assert_eq!(e.attribute_processor("name").unwrap(), "ram");
    assert_eq!(e.attribute_variant("name").unwrap(), "ram");
}

#[test]
fn first_of_repeated_attributes_wins() {
    let e = el("x", &[("a", "1"), ("a", "2")]);
    assert_eq!(e.attribute("a"), Some("1"));
}

#[test]
fn only_element_nodes_are_kept() {
    let node = |element: bool, tag: &str, children: Vec<XmlTree>| XmlTree {
        element,
        tag: tag.to_owned(),
        attributes: vec![("k".to_owned(), "v".to_owned())],
        children,
    };
    let tree = node(
        true,
        "a",
        vec![node(false, "", vec![]), node(true, "b", vec![node(false, "", vec![]), node(true, "c", vec![])]), node(false, "", vec![])],
    );
    let e = element_of_tree(&tree);
    assert_eq!(e.tag, "a");
    assert_eq!(e.attributes, vec![("k".to_owned(), "v".to_owned())]);
    assert_eq!(e.children.len(), 1);
    assert_eq!(e.children[0].tag, "b");
    assert_eq!(e.children[0].children.len(), 1);
    assert_eq!(e.children[0].children[0].tag, "c");
}
