use fugue::processor::Specification;
use fugue::sleigh::deserialise::{parse_document, DeserialiseError, IntErrorKind};

fn value_of(set: &[(String, u32)], name: &str) -> Option<u32> {
    set.iter().find(|(n, _)| n == name).map(|(_, v)| *v)
}

const ARM_THUMB: &str = r#"<?xml version="1.0" encoding="UTF-8"?>
<processor_spec>
  <properties>
    <property key="addressesDoNotAppearDirectlyInCode" value="true"/>
  </properties>
  <programcounter register="pc"/>
  <context_data>
    <context_set space="ram">
      <set name="TMode" val="1" description="0 for ARM 32-bit, 1 for THUMB 16-bit"/>
      <set name="LRset" val="0" description="0 lr reg not set, 1 for LR set"/>
    </context_set>
    <tracked_set space="ram">
      <set name="spsr" val="0"/>
    </tracked_set>
  </context_data>
</processor_spec>
"#;

const MIPS32: &str = r#"<?xml version="1.0" encoding="UTF-8"?>
<processor_spec>
  <programcounter register="pc"/>
  <context_data>
    <context_set space="ram">
      <set name="PAIR_INSTRUCTION_FLAG" val="0"/>
      <set name="ISA_MODE" val="0"/>
    </context_set>
  </context_data>
</processor_spec>
"#;

const X86: &str = r#"<?xml version="1.0" encoding="UTF-8"?>
<processor_spec>
  <programcounter register="EIP"/>
  <context_data>
    <context_set space="ram">
      <set name="addrsize" val="1"/>
      <set name="opsize" val="1"/>
    </context_set>
    <tracked_set space="ram">
      <set name="DF" val="0"/>
    </tracked_set>
  </context_data>
</processor_spec>
"#;

#[test]
fn test_pspec_arm() {
    let pspec = Specification::from_str(ARM_THUMB).unwrap();
    assert_eq!(pspec.context_set().len(), 2);
    assert_eq!(pspec.tracked_set().len(), 1);
}

#[test]
fn test_pspec_mips() {
    let pspec = Specification::from_str(MIPS32).unwrap();
    assert_eq!(pspec.context_set().len(), 2);
    assert_eq!(pspec.tracked_set().len(), 0);
}

#[test]
fn test_pspec_x86() {
    let pspec = Specification::from_str(X86).unwrap();
    assert_eq!(pspec.context_set().len(), 2);
    assert_eq!(pspec.tracked_set().len(), 1);
}

#[test]
fn specification_reads_program_counter_and_values() {
    let pspec = Specification::from_str(ARM_THUMB).unwrap();
    assert_eq!(pspec.program_counter(), "pc");
    assert_eq!(value_of(pspec.context_set(), "TMode"), Some(1));
    assert_eq!(value_of(pspec.context_set(), "LRset"), Some(0));
    assert_eq!(value_of(pspec.tracked_set(), "spsr"), Some(0));
}

#[test]
fn specification_later_settings_replace_earlier_ones() {
    let text = r#"<processor_spec>
      <programcounter register="a"/>
      <context_data>
        <context_set><set name="M" val="1"/><set name="M" val="0x10"/></context_set>
        <context_set><set name="N" val="2"/></context_set>
        <other><set name="X" val="3"/></other>
      </context_data>
      <programcounter register="b"/>
    </processor_spec>"#;
    let pspec = Specification::from_str(text).unwrap();
    assert_eq!(pspec.program_counter(), "b");
    assert_eq!(pspec.context_set().len(), 2);
    assert_eq!(value_of(pspec.context_set(), "M"), Some(16));
    assert_eq!(value_of(pspec.context_set(), "N"), Some(2));
    assert_eq!(pspec.tracked_set().len(), 0);
}

#[test]
fn specification_errors() {
    match Specification::from_str("<compiler_spec/>") {
        Err(DeserialiseError::TagUnexpected(tag)) => assert_eq!(tag, "compiler_spec"),
        other => panic!("unexpected {:?}", other),
    }
    assert_eq!(
        Specification::from_str("<processor_spec><context_data/></processor_spec>").unwrap_err(),
        DeserialiseError::Invariant("processor specification must define a program counter")
    );
    assert_eq!(
        Specification::from_str("<processor_spec><programcounter/></processor_spec>").unwrap_err(),
        DeserialiseError::AttributeExpected("register")
    );
    let missing_val = r#"<processor_spec><programcounter register="pc"/>
      <context_data><tracked_set><set name="x"/></tracked_set></context_data></processor_spec>"#;
    assert_eq!(Specification::from_str(missing_val).unwrap_err(), DeserialiseError::AttributeExpected("val"));
    let bad_val = r#"<processor_spec><programcounter register="pc"/>
      <context_data><context_set><set name="x" val="-1"/></context_set></context_data></processor_spec>"#;
    assert_eq!(
        Specification::from_str(bad_val).unwrap_err(),
        DeserialiseError::ParseInteger(IntErrorKind::InvalidDigit)
    );
    assert!(matches!(Specification::from_str("<processor_spec>"), Err(DeserialiseError::Xml(_))));
}

#[test]
fn documents_keep_elements_and_attributes_in_order() {
    let root = parse_document(r#"<a x="1" y="2">text<b/><!-- c --><c z="3"/></a>"#).unwrap();
    assert_eq!(root.tag, "a");
    assert_eq!(root.attributes, vec![("x".to_owned(), "1".to_owned()), ("y".to_owned(), "2".to_owned())]);
    assert_eq!(root.children.len(), 2);
    assert_eq!(root.children[0].tag, "b");
    assert_eq!(root.children[1].attributes, vec![("z".to_owned(), "3".to_owned())]);
    assert!(matches!(parse_document("<a><b></a>"), Err(DeserialiseError::Xml(_))));
}
