use file_compare::format::{comma_separated_number, human_readable_size};
use file_compare::hex::bytes_to_hex_dump;

#[test]
fn comma_separated_number_groups_by_three() {
    assert_eq!(comma_separated_number(1234567), "1,234,567");
    assert_eq!(comma_separated_number(12), "12");
    assert_eq!(comma_separated_number(0), "0");
}

#[test]
fn comma_separated_number_at_group_borders() {
    assert_eq!(comma_separated_number(999), "999");
    assert_eq!(comma_separated_number(1000), "1,000");
    assert_eq!(comma_separated_number(100000), "100,000");
    assert_eq!(comma_separated_number(1000000), "1,000,000");
    assert_eq!(comma_separated_number(1002003), "1,002,003");
}

#[test]
fn comma_separated_number_of_largest_value() {
    assert_eq!(comma_separated_number(u64::MAX), "18,446,744,073,709,551,615");
}

#[test]
fn comma_separated_number_keeps_the_digits() {
    for n in [0u64, 7, 42, 999, 1000, 65536, 1234567, 987654321012, u64::MAX] {
        let text = comma_separated_number(n);
        let digits: String = text.chars().filter(|c| *c != ',').collect();
        assert_eq!(digits, n.to_string());
        assert!(!text.starts_with(','));
        assert!(!text.ends_with(','));
        for group in text.split(',').skip(1) {
            assert_eq!(group.len(), 3);
        }
    }
}

#[test]
fn human_readable_size_below_one_kilobyte() {
    assert_eq!(human_readable_size(0), "0 bytes");
    assert_eq!(human_readable_size(1), "1 bytes");
    assert_eq!(human_readable_size(1023), "1,023 bytes");
}

#[test]
fn human_readable_size_of_whole_units() {
    assert_eq!(human_readable_size(1024), "1.00 KB");
    assert_eq!(human_readable_size(1024 * 1024 * 3), "3.00 MB");
    assert_eq!(human_readable_size(1024 * 1024 * 1024), "1.00 GB");
    assert_eq!(human_readable_size(1024u64 * 1024 * 1024 * 1024), "1.00 TB");
}

#[test]
fn human_readable_size_with_fraction() {
    assert_eq!(human_readable_size(1536), "1.50 KB");
    assert_eq!(human_readable_size(1025), "1.00 KB");
    assert_eq!(human_readable_size(2047), "1.99 KB");
    assert_eq!(human_readable_size(1024 * 1024 - 1), "1,023.99 KB");
    assert_eq!(human_readable_size(1024 * 1024 + 1024 * 256), "1.25 MB");
    assert_eq!(human_readable_size(5 * 1024 * 1024 * 1024 + 1024 * 1024 * 512), "5.50 GB");
}

#[test]
fn human_readable_size_of_largest_value() {
    assert_eq!(human_readable_size(u64::MAX), "16,777,215.99 TB");
}

#[test]
fn hex_dump_of_nothing_is_empty() {
    assert_eq!(bytes_to_hex_dump(&[]), "");
}

#[test]
fn hex_dump_of_short_input() {
    assert_eq!(bytes_to_hex_dump(&[0x00, 0xAB, 0x0F, 0xF0, 0x7f]), "00 AB 0F F0 7F \n");
}

#[test]
fn hex_dump_breaks_after_sixteen_bytes() {
    let bytes: Vec<u8> = (0u8..16).collect();
    assert_eq!(
        bytes_to_hex_dump(&bytes),
        "00 01 02 03 04 05 06 07 08 09 0A 0B 0C 0D 0E 0F \n"
    );
    let bytes: Vec<u8> = (0u8..17).collect();
    assert_eq!(
        bytes_to_hex_dump(&bytes),
        "00 01 02 03 04 05 06 07 08 09 0A 0B 0C 0D 0E 0F \n10 \n"
    );
    let bytes: Vec<u8> = (0u8..33).collect();
    assert_eq!(bytes_to_hex_dump(&bytes).lines().count(), 3);
}

#[test]
fn hex_dump_matches_upper_case_formatting() {
    let bytes: Vec<u8> = (0u8..=255).collect();
    let mut expected = String::new();
    for chunk in bytes.chunks(16) {
        for byte in chunk {
            expected.push_str(&format!("{:02X} ", byte));
        }
        expected.push('\n');
    }
    assert_eq!(bytes_to_hex_dump(&bytes), expected);
}
