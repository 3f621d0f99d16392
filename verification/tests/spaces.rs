use fugue::sleigh::construct::{ConstTpl, ConstructTpl, HandleKind, HandleTpl, OpTpl, VarnodeTpl};
use fugue::sleigh::deserialise::{DeserialiseError, IntErrorKind, XmlElement};
use fugue::sleigh::float_format::FloatFormat;
use fugue::sleigh::opcode::Opcode;
use fugue::sleigh::space::{
    AddressSpace, AddressSpaceId, AddressSpaceKind, AddressSpaceProperty, PROPERTY_BIG_ENDIAN,
    PROPERTY_HAS_PHYSICAL, PROPERTY_TRUNCATED,
};
use fugue::sleigh::spaces::AddressSpaces;
use fugue::sleigh::varnode::VarnodeData;

fn el(tag: &str, attrs: &[(&str, &str)], children: Vec<XmlElement>) -> XmlElement {
    XmlElement {
        tag: tag.to_owned(),
        attributes: attrs.iter().map(|(k, v)| (k.to_string(), v.to_string())).collect(),
        children,
    }
}

fn space(tag: &str, name: &str, index: &str, size: &str) -> XmlElement {
    el(
        tag,
        &[("name", name), ("index", index), ("size", size), ("bigendian", "false"), ("delay", "1"), ("physical", "true")],
        vec![],
    )
}

fn machine() -> XmlElement {
    el(
        "spaces",
        &[("defaultspace", "ram")],
        vec![
            space("space", "ram", "1", "4"),
            space("space", "register", "2", "4"),
            space("space_unique", "unique", "3", "4"),
        ],
    )
}

#[test]
fn identifiers_carry_index_and_role() {
    let id = AddressSpaceId::default_id(0x1_0005);
    assert_eq!(id.index(), 5);
    assert!(id.is_default() && id.is_global() && !id.is_constant());
    assert!(id.heap().is_heap());
    assert!(id.stack().is_stack());
    assert_eq!(id.heap().heap(), id.heap());
    assert!(AddressSpaceId::constant_id(0).is_constant());
    assert!(AddressSpaceId::register_id(2).is_register());
    assert!(AddressSpaceId::unique_id(3).is_unique());
    assert!(AddressSpaceId::unmapped_id(4).is_unmapped());
    assert_eq!(AddressSpaceId::other_id(7).bits(), 7);
    assert_eq!(AddressSpaceId::from_bits(0x4000_0009).index(), 9);
    let mut m = AddressSpaceId::default_id(1);
    m.mark_stack();
    assert!(m.is_heap());
    let mut h = AddressSpaceId::register_id(1);
    h.mark_heap();
    assert_eq!(h, AddressSpaceId::register_id(1));
}

#[test]
fn property_sets() {
    let p = AddressSpaceProperty::from_bits_truncate(PROPERTY_BIG_ENDIAN | 0x8000);
    assert_eq!(p.bits(), PROPERTY_BIG_ENDIAN);
    assert!(p.is_big_endian() && p.is_set() && !p.is_empty());
    let q = AddressSpaceProperty::from_bits_truncate(PROPERTY_HAS_PHYSICAL);
    assert!(p.union(q).contains(q));
    assert!(p.intersection(q).is_empty());
    assert_eq!(p.union(q).difference(p), q);
    assert!(AddressSpaceProperty::empty().is_empty());
}

#[test]
fn constant_and_unique_spaces() {
    let c = AddressSpace::constant("const", 0);
    assert!(c.is_constant());
    assert_eq!(c.kind(), AddressSpaceKind::Constant);
    assert_eq!(c.highest_offset(), u64::MAX);
    assert_eq!(c.address_size(), 8);
    let big = u16::from_ne_bytes([0, 1]) == 1;
    assert_eq!(c.properties().is_big_endian(), big);
    assert!(!c.properties().is_heritaged());
    let u = AddressSpace::unique("unique", 3, None);
    assert!(u.is_unique());
    assert!(u.properties().has_physical());
    assert!(u.id().is_unique());
    assert_eq!(u.id().index(), 3);
    let r = AddressSpace::unique("register", 4, None);
    assert!(r.is_register());
}

#[test]
fn wrapping_and_truncating_offsets() {
    let mut s = AddressSpace::from_xml(&space("space", "ram", "1", "2")).unwrap();
    assert_eq!(s.highest_offset(), 0xffff);
    assert_eq!(s.wrap_offset(0x1234), 0x1234);
    assert_eq!(s.wrap_offset(0x1_0005), 5);
    s.truncate_space(1);
    assert_eq!(s.highest_offset(), 0xff);
    assert!(s.properties().bits() & PROPERTY_TRUNCATED != 0);
    assert_eq!(s.wrap_offset(0x105), 5);
}

#[test]
fn space_from_xml_reads_each_attribute() {
    let s = AddressSpace::from_xml(&el(
        "space",
        &[("name", "ram"), ("index", "1"), ("size", "4"), ("bigendian", "true"), ("delay", "2"), ("physical", "false"), ("wordsize", "2")],
        vec![],
    ))
    .unwrap();
    assert_eq!(s.name(), "ram");
    assert_eq!(s.index(), 1);
    assert_eq!(s.delay(), 2);
    assert_eq!(s.deadcode_delay(), 2);
    assert_eq!(s.word_size(), 2);
    assert_eq!(s.highest_offset(), 0xffff_ffff * 2 + 1);
    assert!(s.properties().is_big_endian());
    assert!(!s.properties().has_physical());
    assert_eq!(s.kind(), AddressSpaceKind::Processor);
    let u = AddressSpace::from_xml(&space("space_unique", "tmp", "3", "4")).unwrap();
    assert!(u.is_unique());
    assert_eq!(u.kind(), AddressSpaceKind::Internal);
    let bad = AddressSpace::from_xml(&space("space_overlay", "x", "1", "4")).unwrap_err();
    assert_eq!(bad, DeserialiseError::TagUnexpected("space_overlay".to_owned()));
    let missing = AddressSpace::from_xml(&el("space", &[("name", "x")], vec![])).unwrap_err();
    assert_eq!(missing, DeserialiseError::AttributeExpected("index"));
}

#[test]
fn spaces_from_xml() {
    let spaces = AddressSpaces::from_xml(&machine()).unwrap();
    assert_eq!(spaces.spaces().len(), 4);
    assert!(spaces.constant_space_ref().is_constant());
    assert_eq!(spaces.default_space().name(), "ram");
    assert!(spaces.default_space_ref().is_default());
    assert!(spaces.register_space().is_register());
    assert_eq!(spaces.register_space_ref().name(), "register");
    assert_eq!(spaces.unique_space().name(), "unique");
    assert_eq!(spaces.unique_space_ref().index(), 3);
    assert_eq!(spaces.address_size(), 4);
    assert_eq!(spaces.space_by_name("register").unwrap().index(), 2);
    assert!(spaces.space_by_name("nowhere").is_none());
    assert_eq!(spaces.space_by_id(spaces.unique_space_id()).name(), "unique");
    assert!(spaces.constant_space_id().is_constant());
    assert!(spaces.default_space_id().is_default());
    assert!(spaces.register_space_id().is_register());
    assert_eq!(spaces.constant_space().index(), 0);
    assert_eq!(spaces.clone().spaces().len(), 4);
}

#[test]
fn spaces_layout_and_identifiers_round_trip() {
    let spaces = AddressSpaces::from_xml(&machine()).unwrap();
    for (i, s) in spaces.spaces().iter().enumerate() {
        assert_eq!(s.index(), i);
    }
    assert_eq!(spaces.constant_space_ref().name(), "const");
    assert_eq!(spaces.space_by_id(spaces.constant_space_id()).name(), "const");
    assert_eq!(spaces.space_by_id(spaces.default_space_id()).name(), spaces.default_space_ref().name());
    assert_eq!(spaces.space_by_id(spaces.register_space_id()).name(), "register");
    assert!(spaces.space_by_id(spaces.register_space_id()).is_register());
    assert!(spaces.default_space_id().index() >= 1);
    assert!(spaces.register_space_id().index() >= 1);
    assert!(spaces.unique_space_id().index() >= 1);
}

#[test]
fn spaces_from_xml_errors() {
    assert_eq!(
        AddressSpaces::from_xml(&el("nope", &[], vec![])).unwrap_err(),
        DeserialiseError::TagUnexpected("nope".to_owned())
    );
    assert_eq!(
        AddressSpaces::from_xml(&el("spaces", &[], vec![])).unwrap_err(),
        DeserialiseError::AttributeExpected("defaultspace")
    );
    let misplaced = el("spaces", &[("defaultspace", "ram")], vec![space("space", "ram", "2", "4")]);
    assert_eq!(AddressSpaces::from_xml(&misplaced).unwrap_err(), DeserialiseError::Invariant("space index mismatch"));
    let no_default = el("spaces", &[("defaultspace", "ram")], vec![space("space", "rom", "1", "4")]);
    assert_eq!(
        AddressSpaces::from_xml(&no_default).unwrap_err(),
        DeserialiseError::Invariant("non-constant default space not defined")
    );
    let no_register = el("spaces", &[("defaultspace", "ram")], vec![space("space", "ram", "1", "4")]);
    assert_eq!(AddressSpaces::from_xml(&no_register).unwrap_err(), DeserialiseError::Invariant("register space not defined"));
    let no_unique = el(
        "spaces",
        &[("defaultspace", "ram")],
        vec![space("space", "ram", "1", "4"), space("space", "register", "2", "4")],
    );
    assert_eq!(AddressSpaces::from_xml(&no_unique).unwrap_err(), DeserialiseError::Invariant("unique space not defined"));
}

#[test]
fn varnodes_of_a_space() {
    let spaces = AddressSpaces::from_xml(&machine()).unwrap();
    let v = VarnodeData::new(&spaces.register_space(), 0x10, 4);
    assert!(v.space().is_register());
    assert_eq!(v.offset(), 0x10);
    assert_eq!(v.size(), 4);
    assert_eq!(v.bits(), 32);
    let w = VarnodeData::new(&spaces.default_space(), 0, 0x1_0000_0002);
    assert_eq!(w.size(), 2);
    let d = VarnodeData::default();
    assert!(d.space().is_constant());
    assert_eq!(d.size(), 0);
}

#[test]
fn float_formats() {
    assert_eq!(FloatFormat::float4().bits(), 32);
    assert_eq!(FloatFormat::float8().exp_max, 2047);
    assert_eq!(FloatFormat::float2().size(), 2);
    assert_eq!(FloatFormat::float10().bias, 16383);
    assert_eq!(FloatFormat::float16().frac_size, 112);
    let f = FloatFormat::from_xml(&el(
        "floatformat",
        &[("size", "4"), ("signpos", "31"), ("fracpos", "0"), ("fracsize", "23"), ("exppos", "23"), ("expsize", "8"), ("bias", "127"), ("jbitimpled", "true")],
        vec![],
    ))
    .unwrap();
    assert_eq!(f, FloatFormat::float4());
    let bad = FloatFormat::from_xml(&el("floatformat", &[("size", "x")], vec![])).unwrap_err();
    assert_eq!(bad, DeserialiseError::ParseInteger(IntErrorKind::InvalidDigit));
}

#[test]
fn opcodes_by_name() {
    assert_eq!(Opcode::from_name("INT_ADD"), Some(Opcode::IntAdd));
    assert_eq!(Opcode::from_name("BRANCHIND"), Some(Opcode::IBranch));
    assert_eq!(Opcode::from_name("LZCOUNT"), Some(Opcode::LZCount));
    assert_eq!(Opcode::from_name("int_add"), None);
}

fn konst(ty: &str, extra: &[(&str, &str)]) -> XmlElement {
    let mut attrs = vec![("type", ty)];
    attrs.extend_from_slice(extra);
    el("const_tpl", &attrs, vec![])
}

#[test]
fn constant_templates() {
    let spaces = AddressSpaces::from_xml(&machine()).unwrap();
    assert_eq!(ConstTpl::from_xml(&konst("real", &[("val", "0x10")]), &spaces).unwrap(), ConstTpl::Real(16));
    assert_eq!(
        ConstTpl::from_xml(&konst("handle", &[("val", "2"), ("s", "offset_plus"), ("plus", "4")]), &spaces).unwrap(),
        ConstTpl::Handle(2, HandleKind::OffsetPlus(4))
    );
    assert_eq!(
        ConstTpl::from_xml(&konst("handle", &[("val", "1"), ("s", "1")]), &spaces).unwrap(),
        ConstTpl::Handle(1, HandleKind::Offset)
    );
    assert_eq!(ConstTpl::from_xml(&el("const_start", &[], vec![]), &spaces).unwrap(), ConstTpl::Start);
    assert_eq!(ConstTpl::from_xml(&konst("flowdest_size", &[]), &spaces).unwrap(), ConstTpl::FlowDestSize);
    assert_eq!(
        ConstTpl::from_xml(&konst("spaceid", &[("name", "register")]), &spaces).unwrap(),
        ConstTpl::SpaceId(spaces.register_space_id())
    );
    assert_eq!(
        ConstTpl::from_xml(&konst("bogus", &[]), &spaces).unwrap_err(),
        DeserialiseError::Invariant("invalid ConstTpl type")
    );
    assert_eq!(
        ConstTpl::from_xml(&konst("handle", &[("val", "1"), ("s", "9")]), &spaces).unwrap_err(),
        DeserialiseError::Invariant("invalid handle kind")
    );
    assert_eq!(
        ConstTpl::from_xml(&el("tpl", &[], vec![]), &spaces).unwrap_err(),
        DeserialiseError::AttributeExpected("type")
    );
    let c = ConstTpl::Handle(3, HandleKind::Size);
    assert!(c.is_handle() && !c.is_real() && !c.is_relative());
    assert_eq!(c.handle_index(), Some(3));
    assert_eq!(c.real_value(), 0);
    assert_eq!(ConstTpl::Real(9).real_value(), 9);
    assert!(ConstTpl::Relative(1).is_relative());
}

fn varnode_tpl(off: &str) -> XmlElement {
    el(
        "varnode_tpl",
        &[],
        vec![
            konst("spaceid", &[("name", "ram")]),
            konst("real", &[("val", off)]),
            konst("real", &[("val", "4")]),
        ],
    )
}

#[test]
fn varnode_and_handle_templates() {
    let spaces = AddressSpaces::from_xml(&machine()).unwrap();
    let v = VarnodeTpl::from_xml(&varnode_tpl("8"), &spaces).unwrap();
    assert_eq!(*v.offset(), ConstTpl::Real(8));
    assert_eq!(*v.size(), ConstTpl::Real(4));
    assert_eq!(*v.space(), ConstTpl::SpaceId(spaces.default_space_id()));
    assert!(!v.is_relative());
    let short = el("varnode_tpl", &[], vec![konst("real", &[("val", "1")])]);
    assert_eq!(
        VarnodeTpl::from_xml(&short, &spaces).unwrap_err(),
        DeserialiseError::Invariant("offset missing for VarnodeTpl")
    );
    let seven: Vec<XmlElement> = (0..7).map(|i| konst("real", &[("val", i.to_string().as_str())])).collect();
    let h = HandleTpl::from_xml(&el("handle_tpl", &[], seven), &spaces).unwrap();
    assert_eq!(*h.space(), ConstTpl::Real(0));
    assert_eq!(*h.size(), ConstTpl::Real(1));
    assert_eq!(*h.ptr_space(), ConstTpl::Real(2));
    assert_eq!(*h.ptr_offset(), ConstTpl::Real(3));
    assert_eq!(*h.ptr_size(), ConstTpl::Real(4));
    assert_eq!(*h.tmp_space(), ConstTpl::Real(5));
    assert_eq!(*h.tmp_offset(), ConstTpl::Real(6));
    let six: Vec<XmlElement> = (0..6).map(|i| konst("real", &[("val", i.to_string().as_str())])).collect();
    assert_eq!(
        HandleTpl::from_xml(&el("handle_tpl", &[], six), &spaces).unwrap_err(),
        DeserialiseError::Invariant("tmp_offset missing for HandleTpl")
    );
}

#[test]
fn operation_and_constructor_templates() {
    let spaces = AddressSpaces::from_xml(&machine()).unwrap();
    let op = el("op_tpl", &[("code", "INT_ADD")], vec![varnode_tpl("0"), varnode_tpl("4"), varnode_tpl("8")]);
    let o = OpTpl::from_xml(&op, &spaces).unwrap();
    assert_eq!(o.opcode(), Opcode::IntAdd);
    assert_eq!(o.input_count(), 2);
    assert_eq!(*o.input(1).offset(), ConstTpl::Real(8));
    assert_eq!(o.inputs().len(), 2);
    assert_eq!(*o.output().unwrap().offset(), ConstTpl::Real(0));
    let store = el("op_tpl", &[("code", "STORE")], vec![el("null", &[], vec![]), varnode_tpl("4")]);
    assert!(OpTpl::from_xml(&store, &spaces).unwrap().output().is_none());
    assert_eq!(
        OpTpl::from_xml(&el("op_tpl", &[("code", "WHAT")], vec![]), &spaces).unwrap_err(),
        DeserialiseError::Invariant("invalid opcode")
    );
    assert_eq!(
        OpTpl::from_xml(&el("op_tpl", &[("code", "COPY")], vec![]), &spaces).unwrap_err(),
        DeserialiseError::Invariant("output missing for OpTpl")
    );
    let ctor = el("construct_tpl", &[("delay", "2"), ("section", "3")], vec![el("null", &[], vec![]), op, store]);
    let c = ConstructTpl::from_xml(&ctor, &spaces).unwrap();
    assert_eq!(c.delay_slot(), 2);
    assert_eq!(c.labels(), 0);
    assert_eq!(c.section_id(), Some(3));
    assert!(c.result().is_none());
    assert_eq!(c.operations().len(), 2);
    assert_eq!(c.operations()[1].opcode(), Opcode::Store);
    let plain = el("construct_tpl", &[], vec![el("null", &[], vec![])]);
    assert_eq!(ConstructTpl::from_xml(&plain, &spaces).unwrap().section_id(), None);
    assert_eq!(
        ConstructTpl::from_xml(&el("construct_tpl", &[], vec![]), &spaces).unwrap_err(),
        DeserialiseError::Invariant("result missing for ConstructTpl")
    );
}
