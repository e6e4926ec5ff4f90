use gitsite::fmt_xxd_hexdump;

#[test]
fn dump_of_nothing_is_empty() {
    assert_eq!(fmt_xxd_hexdump(b""), "");
}

#[test]
fn dump_of_one_byte_is_one_line() {
    assert_eq!(
        fmt_xxd_hexdump(b"A"),
        "00000000: 41                                       A"
    );
}

#[test]
fn dump_of_seventeen_bytes_has_two_lines() {
    let data: Vec<u8> = (0x41u8..0x52u8).collect();
    let dump = fmt_xxd_hexdump(&data);
    assert_eq!(
        dump,
        "00000000: 4142 4344 4546 4748 494a 4b4c 4d4e 4f50  ABCDEFGHIJKLMNOP\n\
         00000010: 51                                       Q"
    );
    let lines: Vec<&str> = dump.split('\n').collect();
    assert_eq!(lines.len(), 2);
    assert_eq!(dump.len(), 52 * 2 + 17 - 1);
    assert!(lines[1].ends_with(" Q"));
}

#[test]
fn dump_shows_unprintable_bytes_as_dots() {
    assert_eq!(
        fmt_xxd_hexdump(b"hi there\x00\x01\xff ~"),
        "00000000: 6869 2074 6865 7265 0001 ff20 7e         hi.there....~"
    );
}

#[test]
fn dump_is_the_same_every_time() {
    let data: Vec<u8> = (0u8..=255u8).collect();
    assert_eq!(fmt_xxd_hexdump(&data), fmt_xxd_hexdump(&data));
    assert_eq!(fmt_xxd_hexdump(&data).split('\n').count(), 16);
    assert!(!fmt_xxd_hexdump(&data).ends_with('\n'));
}
