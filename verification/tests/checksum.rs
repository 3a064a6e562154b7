use lenso_postgres_kit::checksum::{checksum_preimage, fits_digest};
use lenso_postgres_kit::text::{blank, decimal_text, same_text};
use lenso_postgres_kit::Migration;

#[test]
fn checksum_binds_version_name_and_sql() {
    let original = Migration::new(1, "create-items", "SELECT 1");
    let renamed = Migration::new(1, "create-records", "SELECT 1");
    let changed = Migration::new(1, "create-items", "SELECT 2");
    assert_ne!(original.checksum(), renamed.checksum());
    assert_ne!(original.checksum(), changed.checksum());
}

#[test]
fn checksum_is_the_lower_case_hex_of_sha256() {
    assert_eq!(
        Migration::new(1, "create-items", "SELECT 1").checksum(),
        "2a32ee9d92b0e6990fc989b541d1a192afd0448a490c48af8fe703816b68d66d"
    );
    assert_eq!(
        Migration::new(0x0102_0304_0506_0708, "n", "é").checksum(),
        "34b6859471d8c41f7c201dbbde13c8abb4e2a4b09ed8c8b96a8a58391e9c3dc0"
    );
}

#[test]
fn checksum_depends_on_the_version() {
    let first = Migration::new(1, "create-items", "SELECT 1");
    let second = Migration::new(2, "create-items", "SELECT 1");
    assert_ne!(first.checksum(), second.checksum());
    assert_eq!(first.checksum(), first.checksum());
}

#[test]
fn preimage_sets_the_parts_apart() {
    assert_eq!(
        checksum_preimage(0x0102_0304_0506_0708, "ab", "é"),
        vec![1, 2, 3, 4, 5, 6, 7, 8, 0, b'a', b'b', 0, 0xc3, 0xa9]
    );
    assert_eq!(checksum_preimage(1, "", ""), vec![0, 0, 0, 0, 0, 0, 0, 1, 0, 0]);
    assert_ne!(checksum_preimage(1, "ab", "c"), checksum_preimage(1, "a", "bc"));
    assert!(fits_digest(1, "ab", "c"));
}

#[test]
fn names_with_a_zero_character_are_not_set_apart() {
    assert_eq!(
        checksum_preimage(1, "a\0b", "c"),
        checksum_preimage(1, "a", "b\0c")
    );
}

#[test]
fn white_space_is_the_listed_characters() {
    let listed = |c: char| {
        ('\u{9}'..='\u{d}').contains(&c)
            || ('\u{2000}'..='\u{200a}').contains(&c)
            || "\u{20}\u{85}\u{a0}\u{1680}\u{2028}\u{2029}\u{202f}\u{205f}\u{3000}".contains(c)
    };
    let mut buffer = [0u8; 4];
    for c in '\0'..=char::MAX {
        assert_eq!(blank(c.encode_utf8(&mut buffer)), listed(c));
    }
}

#[test]
fn blank_agrees_with_trimming() {
    for text in ["", " \n", " a ", "\u{3000}", "\u{200b}", "a"] {
        assert_eq!(blank(text), text.trim().is_empty());
    }
}

#[test]
fn decimal_text_has_no_leading_zeros() {
    assert_eq!(decimal_text(0), "0");
    assert_eq!(decimal_text(9), "9");
    assert_eq!(decimal_text(10), "10");
    assert_eq!(decimal_text(1_234_567_890), "1234567890");
    assert_eq!(decimal_text(u64::MAX), "18446744073709551615");
}

#[test]
fn same_text_compares_characters() {
    assert!(same_text("", ""));
    assert!(same_text("é", "é"));
    assert!(!same_text("a", "ab"));
    assert!(!same_text("ab", "ac"));
}
