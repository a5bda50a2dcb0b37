use std::collections::BTreeMap;
use tilemasker::mask::{MaskQuery, MaskSpec};

fn parse(directive: &str) -> MaskSpec {
    MaskQuery { mask: Some(directive.to_string()) }.clean()
}

fn table(entries: &[(u32, (u8, u8, u8, u8))]) -> MaskSpec {
    let mut expected = BTreeMap::new();
    for (key, target) in entries {
        expected.insert(*key, *target);
    }
    expected
}

#[test]
fn source_alone_maps_to_transparent() {
    assert_eq!(parse("ff0000"), table(&[(0xff0000, (0, 0, 0, 0))]));
    assert_eq!(parse("0"), table(&[(0, (0, 0, 0, 0))]));
    assert_eq!(parse("1a2B3c"), table(&[(0x1a2b3c, (0, 0, 0, 0))]));
}

#[test]
fn pair_maps_to_opaque_target() {
    assert_eq!(parse("ff0000-00ff00"), table(&[(0xff0000, (0, 255, 0, 255))]));
    assert_eq!(parse("1-123456"), table(&[(1, (0x12, 0x34, 0x56, 255))]));
    assert_eq!(parse("abcdef-ABCDEF"), table(&[(0xabcdef, (0xab, 0xcd, 0xef, 255))]));
}

#[test]
fn target_keeps_its_low_24_bits() {
    assert_eq!(parse("1-ff123456"), table(&[(1, (0x12, 0x34, 0x56, 255))]));
    assert_eq!(parse("2-f"), table(&[(2, (0, 0, 15, 255))]));
}

#[test]
fn several_items_are_all_entered() {
    assert_eq!(
        parse("ff0000,00ff00-0000ff,10"),
        table(&[
            (0xff0000, (0, 0, 0, 0)),
            (0x00ff00, (0, 0, 255, 255)),
            (0x10, (0, 0, 0, 0)),
        ])
    );
}

#[test]
fn later_duplicate_wins() {
    assert_eq!(
        parse("ff0000-00ff00,ff0000-0000ff"),
        table(&[(0xff0000, (0, 0, 255, 255))])
    );
    assert_eq!(parse("ff0000-00ff00,ff0000"), table(&[(0xff0000, (0, 0, 0, 0))]));
    assert_eq!(parse("ff0000,FF0000-010203"), table(&[(0xff0000, (1, 2, 3, 255))]));
    assert_eq!(
        parse("ff0000-00ff00,aa,ff0000-000001,bb"),
        table(&[
            (0xff0000, (0, 0, 1, 255)),
            (0xaa, (0, 0, 0, 0)),
            (0xbb, (0, 0, 0, 0)),
        ])
    );
}

#[test]
fn malformed_items_are_skipped() {
    assert_eq!(parse("zz"), table(&[]));
    assert_eq!(parse("ff-00-11"), table(&[]));
    assert_eq!(parse("ff0000-"), table(&[]));
    assert_eq!(parse("-ff0000"), table(&[]));
    assert_eq!(parse("-"), table(&[]));
    assert_eq!(parse("ff 00"), table(&[]));
    assert_eq!(parse("ff - 00"), table(&[]));
    assert_eq!(parse("0xff"), table(&[]));
    assert_eq!(parse("+ff"), table(&[]));
    assert_eq!(parse("ff-+01"), table(&[]));
    assert_eq!(parse("ff0000-gg"), table(&[]));
    assert_eq!(parse("\u{e9}"), table(&[]));
}

#[test]
fn malformed_items_do_not_disturb_the_others() {
    assert_eq!(
        parse("zz,ff0000,1-2-3,00ff00-0000ff,,"),
        table(&[(0xff0000, (0, 0, 0, 0)), (0x00ff00, (0, 0, 255, 255))])
    );
    assert_eq!(parse("ff0000-00ff00,ff0000-zz"), table(&[(0xff0000, (0, 255, 0, 255))]));
}

#[test]
fn empty_and_absent_directives_give_the_empty_table() {
    assert_eq!(MaskQuery { mask: None }.clean(), table(&[]));
    assert_eq!(parse(""), table(&[]));
    assert_eq!(parse("   "), table(&[]));
    assert_eq!(parse(","), table(&[]));
    assert_eq!(parse(" , ,, "), table(&[]));
}

#[test]
fn white_space_around_items_is_ignored() {
    assert_eq!(
        parse("  ff0000 ,\t00ff00-0000ff\n"),
        table(&[(0xff0000, (0, 0, 0, 0)), (0x00ff00, (0, 0, 255, 255))])
    );
    assert_eq!(parse("\u{a0}ff\u{3000}"), table(&[(0xff, (0, 0, 0, 0))]));
    assert_eq!(parse("\u{2003}1-2\u{85}"), table(&[(1, (0, 0, 2, 255))]));
    assert_eq!(parse("\u{200b}ff"), table(&[]));
}

#[test]
fn values_beyond_32_bits_are_skipped() {
    assert_eq!(parse("ffffffff"), table(&[(0xffff_ffff, (0, 0, 0, 0))]));
    assert_eq!(parse("100000000"), table(&[]));
    assert_eq!(parse("fffffffff"), table(&[]));
    assert_eq!(parse("1-100000000"), table(&[]));
    assert_eq!(parse("00000000ff"), table(&[(0xff, (0, 0, 0, 0))]));
    assert_eq!(parse("0000000000000001-0000000000010203"), table(&[(1, (1, 2, 3, 255))]));
}

#[test]
fn white_space_is_what_the_standard_library_trims() {
    for code in 0..=0x10ffffu32 {
        let Some(c) = char::from_u32(code) else { continue };
        if c == ',' || c == '-' || c == '+' {
            continue;
        }
        let text = format!("{c}5{c}");
        let expected = u32::from_str_radix(text.trim(), 16).ok();
        let found = parse(&text);
        match expected {
            Some(key) => assert_eq!(found, table(&[(key, (0, 0, 0, 0))]), "U+{code:04X}"),
            None => assert_eq!(found, table(&[]), "U+{code:04X}"),
        }
        if c.is_whitespace() {
            assert_eq!(found, table(&[(5, (0, 0, 0, 0))]), "U+{code:04X}");
        }
    }
}

#[test]
fn hexadecimal_digits_are_the_sixteen_in_either_case() {
    for code in 0..=0x10ffffu32 {
        let Some(c) = char::from_u32(code) else { continue };
        let found = parse(&format!("1{c}"));
        match c.to_digit(16) {
            Some(d) => assert_eq!(found, table(&[(16 + d, (0, 0, 0, 0))]), "U+{code:04X}"),
            None if c.is_whitespace() => assert_eq!(found, table(&[(1, (0, 0, 0, 0))])),
            None if c == ',' => assert_eq!(found, table(&[(1, (0, 0, 0, 0))])),
            None => assert_eq!(found, table(&[]), "U+{code:04X}"),
        }
    }
}

#[test]
fn appended_item_is_entered_last() {
    let head = "ff0000-00ff00,aa";
    let mut expected = parse(head);
    expected.insert(0xff0000, (1, 2, 3, 255));
    assert_eq!(parse(&format!("{head},ff0000-010203")), expected);
    assert_eq!(parse(&format!("{head},nothing")), parse(head));
}

/// The table read with the standard library's splitting, trimming and
/// number parsing.
fn by_the_standard_library(directive: &str) -> MaskSpec {
    let mut expected = BTreeMap::new();
    for item in directive.split(',').map(|item| item.trim()) {
        if item.contains('+') || item.matches('-').count() > 1 {
            continue;
        }
        let mut parts = item.split('-');
        let Some(Ok(source)) = parts.next().map(|part| u32::from_str_radix(part, 16)) else {
            continue;
        };
        match parts.next().map(|part| u32::from_str_radix(part, 16)) {
            None => {
                expected.insert(source, (0, 0, 0, 0));
            }
            Some(Ok(target)) => {
                let [_, red, green, blue] = target.to_be_bytes();
                expected.insert(source, (red, green, blue, 255));
            }
            Some(Err(_)) => {}
        }
    }
    expected
}

#[test]
fn every_short_directive_is_read_as_the_standard_library_reads_it() {
    let alphabet = [',', '-', ' ', '+', 'f', '0', 'A', 'g'];
    let mut text = String::new();
    for length in 0..=6u32 {
        for number in 0..8usize.pow(length) {
            text.clear();
            let mut rest = number;
            for _ in 0..length {
                text.push(alphabet[rest % 8]);
                rest /= 8;
            }
            assert_eq!(parse(&text), by_the_standard_library(&text), "{text:?}");
        }
    }
}

#[test]
fn long_directives_are_read_as_the_standard_library_reads_them() {
    let alphabet = [',', ',', '-', ' ', '\t', 'f', '0', '1', '7', 'a', 'C', 'x'];
    let mut state = 7u32;
    for _ in 0..2000 {
        let mut text = String::new();
        for _ in 0..60 {
            state = state.wrapping_mul(1664525).wrapping_add(1013904223);
            text.push(alphabet[(state >> 16) as usize % alphabet.len()]);
        }
        assert_eq!(parse(&text), by_the_standard_library(&text), "{text:?}");
    }
}
