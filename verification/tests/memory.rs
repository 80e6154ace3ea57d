use gub_wire::memory::{Memory, MemoryLiteral, MemoryUnit, ParseMemoryError, GIB, KIB, MIB};

/// The textual form of `m`: the short form unless `alt`, else the number in
/// its largest whole unit, with `precision` decimals when given.
fn show(m: Memory, alt: bool, precision: Option<usize>) -> String {
    if !alt {
        return m.to_byte_string();
    }
    let unit = m.display_unit();
    if unit == MemoryUnit::Byte {
        return m.to_byte_string();
    }
    let num = m.bytes() as f64 / unit.size() as f64;
    match precision {
        Some(p) => format!("{num:.p$}{}", unit.suffix()),
        None => format!("{num}{}", unit.suffix()),
    }
}

/// Reads a memory amount, the scaled literal as a float.
fn parse(s: &str) -> Result<Memory, ParseMemoryError> {
    match Memory::parse_literal(s)? {
        MemoryLiteral::Bytes(m) => Ok(m),
        MemoryLiteral::Scaled { literal, unit } => match literal.parse::<f64>() {
            Ok(x) => Ok(Memory::from_bytes((x * unit.size() as f64) as u64)),
            Err(_) => Err(ParseMemoryError::InvalidLiteral),
        },
    }
}

fn roundtrip(m: Memory, alt: bool, precision: usize) {
    let s = show(m, alt, Some(precision));
    let parsed = match parse(&s) {
        Ok(x) => x,
        Err(e) => panic!("failed to parse {s:?} - {}", e.message()),
    };
    assert_eq!(m, parsed, "{s:?} re-parsed incorrectly");
}

#[test]
fn format_basic() {
    assert_eq!(show(Memory::byte(), true, None), "1B");
    assert_eq!(show(Memory::kibibyte(), true, None), "1KiB");
    assert_eq!(show(Memory::mebibyte(), true, None), "1MiB");
    assert_eq!(show(Memory::gibibyte(), true, None), "1GiB");
    assert_eq!(show(Memory::mebibyte().mul(1024 + 512), true, None), "1.5GiB");
    assert_eq!(show(Memory::byte().mul(123934815901), false, None), "123934815901B");
    assert_eq!(
        show(Memory::byte().mul(12393481590112381239), false, None),
        "12393481590112381239B"
    );

    assert_eq!(show(Memory::byte().mul(30_000_000), true, Some(1)), "28.6MiB");
}

#[test]
fn constants_round_trip() {
    roundtrip(Memory::byte(), true, 1);
    roundtrip(Memory::byte(), false, 4);

    roundtrip(Memory::kibibyte(), true, 1);
    roundtrip(Memory::kibibyte(), false, 4);

    roundtrip(Memory::mebibyte(), true, 1);
    roundtrip(Memory::mebibyte(), false, 4);

    roundtrip(Memory::gibibyte(), true, 1);
    roundtrip(Memory::gibibyte(), false, 4);
}

#[test]
fn unit_constants() {
    assert_eq!(Memory::byte().bytes(), 1);
    assert_eq!(Memory::kibibyte().bytes(), KIB);
    assert_eq!(Memory::mebibyte().bytes(), MIB);
    assert_eq!(Memory::gibibyte().bytes(), GIB);
    assert_eq!(Memory::from_kibibytes(3).bytes(), 3072);
    assert_eq!(Memory::from_mebibytes(2).bytes(), 2 * 1048576);
    assert_eq!(Memory::from_gibibytes(16).bytes(), 16 * 1073741824);
    assert_eq!(Memory::default().bytes(), 0);
}

#[test]
fn whole_unit_counts_round_down() {
    let m = Memory::from_bytes(3 * GIB + 5);
    assert_eq!(m.gibibytes(), 3);
    assert_eq!(m.mebibytes(), 3 * 1024);
    assert_eq!(m.kibibytes(), 3 * 1024 * 1024);
    assert_eq!(Memory::from_bytes(1023).kibibytes(), 0);
}

#[test]
fn add_and_mul() {
    assert_eq!(Memory::kibibyte().add(Memory::byte()).bytes(), 1025);
    assert_eq!(Memory::kibibyte().mul(1024), Memory::mebibyte());
    assert_eq!(Memory::from_bytes(7).mul(0).bytes(), 0);
}

#[test]
fn display_unit_picks_largest_whole_unit() {
    assert_eq!(Memory::from_bytes(0).display_unit(), MemoryUnit::Byte);
    assert_eq!(Memory::from_bytes(1023).display_unit(), MemoryUnit::Byte);
    assert_eq!(Memory::from_bytes(1024).display_unit(), MemoryUnit::Kibi);
    assert_eq!(Memory::from_bytes(MIB - 1).display_unit(), MemoryUnit::Kibi);
    assert_eq!(Memory::from_bytes(MIB).display_unit(), MemoryUnit::Mebi);
    assert_eq!(Memory::from_bytes(GIB).display_unit(), MemoryUnit::Gibi);
    assert_eq!(Memory::from_bytes(u64::MAX).display_unit(), MemoryUnit::Gibi);
}

#[test]
fn unit_sizes_and_suffixes() {
    assert_eq!(MemoryUnit::Byte.size(), 1);
    assert_eq!(MemoryUnit::Kibi.size(), 1024);
    assert_eq!(MemoryUnit::Mebi.size(), 1048576);
    assert_eq!(MemoryUnit::Gibi.size(), 1073741824);
    assert_eq!(MemoryUnit::Byte.suffix(), "B");
    assert_eq!(MemoryUnit::Kibi.suffix(), "KiB");
    assert_eq!(MemoryUnit::Mebi.suffix(), "MiB");
    assert_eq!(MemoryUnit::Gibi.suffix(), "GiB");
}

#[test]
fn byte_string_reads_back() {
    for b in [0u64, 1, 9, 10, 1023, 4096, u64::MAX] {
        let m = Memory::from_bytes(b);
        let s = m.to_byte_string();
        assert_eq!(s, format!("{b}B"));
        match Memory::parse_literal(&s) {
            Ok(MemoryLiteral::Bytes(back)) => assert_eq!(back, m),
            _ => panic!("{s} did not read back"),
        }
    }
}

#[test]
fn parse_errors() {
    assert_eq!(Memory::parse_literal("").err(), Some(ParseMemoryError::Empty));
    assert_eq!(Memory::parse_literal("12").err(), Some(ParseMemoryError::InvalidUnit));
    assert_eq!(Memory::parse_literal("12TiB").err(), Some(ParseMemoryError::InvalidUnit));
    assert_eq!(Memory::parse_literal("xB").err(), Some(ParseMemoryError::InvalidUnit));
    assert_eq!(Memory::parse_literal("B").err(), Some(ParseMemoryError::InvalidUnit));
    assert_eq!(Memory::parse_literal("-1B").err(), Some(ParseMemoryError::InvalidLiteral));
    assert_eq!(
        Memory::parse_literal("99999999999999999999B").err(),
        Some(ParseMemoryError::InvalidUnit)
    );
    assert_eq!(
        Memory::parse_literal("99999999999999999998B").err(),
        Some(ParseMemoryError::InvalidLiteral)
    );
    assert_eq!(Memory::parse_literal("+7B").ok().map(|l| matches!(l, MemoryLiteral::Bytes(m) if m.bytes() == 7)), Some(true));
}

#[test]
fn parse_scaled_keeps_literal() {
    match Memory::parse_literal("1.5GiB") {
        Ok(MemoryLiteral::Scaled { literal, unit }) => {
            assert_eq!(literal, "1.5");
            assert_eq!(unit, MemoryUnit::Gibi);
        }
        _ => panic!("expected a scaled literal"),
    }
    match Memory::parse_literal("KiB") {
        Ok(MemoryLiteral::Scaled { literal, unit }) => {
            assert_eq!(literal, "");
            assert_eq!(unit, MemoryUnit::Kibi);
        }
        _ => panic!("expected a scaled literal"),
    }
    assert_eq!(parse("2MiB"), Ok(Memory::from_mebibytes(2)));
    assert_eq!(parse("abcMiB"), Err(ParseMemoryError::InvalidLiteral));
}

#[test]
fn parse_error_messages() {
    assert_eq!(ParseMemoryError::Empty.message(), "cannot parse memory from empty string");
    assert_eq!(ParseMemoryError::InvalidUnit.message(), "invalid memory unit (use KiB, MiB, etc)");
    assert_eq!(ParseMemoryError::InvalidLiteral.message(), "invalid literal value");
}
