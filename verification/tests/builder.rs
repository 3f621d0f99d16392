use fugue::endian::Endian;
use fugue::lifter::builder::{LifterBuilder, LifterBuilderError, LifterTarget};

#[test]
fn test_builder_defaults() -> Result<(), LifterBuilderError> {
    let _ = LifterBuilder::new("x86").bits(32).build()?;
    let _ = LifterBuilder::new("x86").bits(64).build()?;

    let _ = LifterBuilder::new("ARM").little_endian().build()?;
    let _ = LifterBuilder::new("ARM")
        .bits(32)
        .big_endian()
        .variant("v8T")
        .build()?;

    let _ = LifterBuilder::new("AARCH64").little_endian();
    let _ = LifterBuilder::new("AARCH64").big_endian().bits(64);
    let _ = LifterBuilder::new("AARCH64")
        .little_endian()
        .bits(64)
        .variant("v8A");

    Ok(())
}

#[test]
fn test_from_str_defaults() -> Result<(), LifterBuilderError> {
    let _ = "x86:LE:32".parse::<LifterBuilder>()?.build()?;
    let _ = "x86:LE:32:default".parse::<LifterBuilder>()?.build()?;

    assert!("x86:LE".parse::<LifterBuilder>().is_err());
    assert!("x86:BE:32:default"
        .parse::<LifterBuilder>()?
        .build()
        .is_err());

    let _ = "x86:LE:64:default".parse::<LifterBuilder>()?.build()?;

    let _ = "ARM:BE:32".parse::<LifterBuilder>()?.build()?;
    let _ = "ARM:BE:32:v8".parse::<LifterBuilder>()?.build()?;
    let _ = "ARM:BE:32:v8T".parse::<LifterBuilder>()?.build()?;

    let _ = "ARM:LE:32".parse::<LifterBuilder>()?.build()?;
    let _ = "ARM:LE:32:v8".parse::<LifterBuilder>()?.build()?;
    let _ = "ARM:LE:32:v8T".parse::<LifterBuilder>()?.build()?;

    let _ = "AARCH64:BE:64".parse::<LifterBuilder>()?.build()?;
    let _ = "AARCH64:BE:64:v8A".parse::<LifterBuilder>()?.build()?;

    let _ = "AARCH64:LE:64".parse::<LifterBuilder>()?.build()?;
    let _ = "AARCH64:LE:64:v8A".parse::<LifterBuilder>()?.build()?;

    Ok(())
}

#[test]
fn builder_chooses_each_target() {
    assert_eq!(LifterBuilder::new("x86").bits(32).build(), Ok(LifterTarget::X86Bits32));
    assert_eq!(LifterBuilder::new("x86").bits(64).build(), Ok(LifterTarget::X86Bits64));
    assert_eq!(
        LifterBuilder::new("x86").bits(64).variant("compat32").build(),
        Ok(LifterTarget::X86Bits64Compat32)
    );
    assert_eq!(LifterBuilder::new("ARM").big_endian().build(), Ok(LifterTarget::ArmBigV8));
    assert_eq!(
        LifterBuilder::new("ARM").little_endian().variant("v8T").build(),
        Ok(LifterTarget::ArmLittleV8T)
    );
    assert_eq!(
        LifterBuilder::new("AARCH64").endian(Endian::Big).build(),
        Ok(LifterTarget::Aarch64BigV8A)
    );
    assert_eq!(
        LifterBuilder::new("AARCH64").endian(Endian::Little).bits(64).build(),
        Ok(LifterTarget::Aarch64LittleV8A)
    );
}

#[test]
fn builder_refuses_unknown_languages() {
    assert_eq!(LifterBuilder::new("x86").build(), Err(LifterBuilderError::Unsupported));
    assert_eq!(LifterBuilder::new("x86").big_endian().bits(32).build(), Err(LifterBuilderError::Unsupported));
    assert_eq!(LifterBuilder::new("ARM").variant("v7").build(), Err(LifterBuilderError::Unsupported));
    assert_eq!(LifterBuilder::new("MIPS").bits(32).build(), Err(LifterBuilderError::Unsupported));
    assert_eq!(LifterBuilder::new("AARCH64").bits(32).build(), Err(LifterBuilderError::Unsupported));
}

#[test]
fn parse_reports_each_error() {
    assert!(matches!(":LE:32".parse::<LifterBuilder>(), Err(LifterBuilderError::ParseFormat)));
    assert!(matches!("x86".parse::<LifterBuilder>(), Err(LifterBuilderError::ParseFormat)));
    assert!(matches!("x86:XE:32".parse::<LifterBuilder>(), Err(LifterBuilderError::ParseEndian)));
    assert!(matches!("x86:LE:12".parse::<LifterBuilder>(), Err(LifterBuilderError::ParseBits)));
    assert!(matches!("x86:LE:thirty".parse::<LifterBuilder>(), Err(LifterBuilderError::ParseBits)));
    assert!(matches!("x86:LE".parse::<LifterBuilder>(), Err(LifterBuilderError::ParseFormat)));
}

#[test]
fn parse_trims_fields_and_drops_empty_variant() {
    assert_eq!(
        LifterBuilder::build_str("  ARM : be : 32 :  v8T "),
        Ok(LifterTarget::ArmBigV8T)
    );
    assert_eq!(LifterBuilder::build_str("x86:le:32:"), Ok(LifterTarget::X86Bits32));
    assert_eq!(LifterBuilder::build_str("x86:LE:+32"), Ok(LifterTarget::X86Bits32));
    assert_eq!(
        LifterBuilder::build_str("x86:LE:32:default:extra"),
        Ok(LifterTarget::X86Bits32)
    );
}

#[test]
fn setters_change_the_builder() {
    let mut b = LifterBuilder::new("ARM");
    b.set_bits(32);
    b.set_endian(Endian::Big);
    b.set_variant("v8T");
    assert_eq!(b.build(), Ok(LifterTarget::ArmBigV8T));
    b.set_endian(Endian::Little);
    assert_eq!(b.build(), Ok(LifterTarget::ArmLittleV8T));
}

#[test]
fn built_and_parsed_builders_agree() {
    let built = LifterBuilder::new("ARM").big_endian().bits(32).variant("v8T");
    let parsed = "ARM:BE:32:v8T".parse::<LifterBuilder>().unwrap();
    assert_eq!(built.build(), parsed.build());
    assert_eq!(built.build(), Ok(LifterTarget::ArmBigV8T));
}
