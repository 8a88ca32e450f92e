use dh_ping::probe::{
    handshake_payload, hex_dump, hex_padded, report_reply, ReplyReport, BYTES_PER_LINE,
    RECEIVE_TIMEOUT_SECS, REPLY_BUFFER_LEN,
};

#[test]
fn handshake_bytes() {
    let p = handshake_payload();
    assert_eq!(p.len(), 29);
    assert_eq!(p[0], 0x01);
    assert_eq!(p[28], 0x08);
    assert!(p[1..28].iter().all(|b| *b == 0));
}

#[test]
fn probe_limits() {
    assert_eq!(RECEIVE_TIMEOUT_SECS, 3);
    assert_eq!(REPLY_BUFFER_LEN, 32);
    assert_eq!(BYTES_PER_LINE, 16);
}

#[test]
fn hex_padding() {
    assert_eq!(hex_padded(0, 8), "00000000");
    assert_eq!(hex_padded(16, 8), "00000010");
    assert_eq!(hex_padded(255, 2), "ff");
    assert_eq!(hex_padded(10, 2), "0a");
    assert_eq!(hex_padded(0x123456789, 8), "123456789");
    assert_eq!(hex_padded(7, 0), "7");
}

#[test]
fn dump_of_one_byte() {
    assert_eq!(hex_dump(&[0x01]), "  00000000: 01");
}

#[test]
fn dump_pairs_bytes() {
    assert_eq!(hex_dump(&[0xde, 0xad, 0xbe, 0xef, 0x01]), "  00000000: dead beef 01");
}

#[test]
fn dump_of_empty_reply() {
    assert_eq!(hex_dump(&[]), "");
}

#[test]
fn dump_of_full_line_has_no_line_break() {
    let data: Vec<u8> = (0u8..16).collect();
    assert_eq!(
        hex_dump(&data),
        "  00000000: 0001 0203 0405 0607 0809 0a0b 0c0d 0e0f "
    );
}

#[test]
fn dump_breaks_after_sixteen_bytes() {
    let data: Vec<u8> = (0u8..18).collect();
    assert_eq!(
        hex_dump(&data),
        "  00000000: 0001 0203 0405 0607 0809 0a0b 0c0d 0e0f \n  00000010: 1011 "
    );
}

#[test]
fn dump_of_full_buffer() {
    let data: Vec<u8> = (0u8..32).map(|b| b.wrapping_mul(9)).collect();
    let dump = hex_dump(&data);
    let lines: Vec<&str> = dump.split('\n').collect();
    assert_eq!(lines.len(), 2);
    assert!(lines[1].starts_with("  00000010: "));
    let digits: usize = dump
        .split('\n')
        .map(|l| l[12..].chars().filter(|c| c.is_ascii_hexdigit()).count())
        .sum();
    assert_eq!(digits, 2 * data.len());
}

#[test]
fn no_reply_reports_no_data() {
    assert!(matches!(report_reply(None), ReplyReport::NoData));
}

#[test]
fn empty_datagram_reports_no_data() {
    assert!(matches!(report_reply(Some(&[])), ReplyReport::NoData));
}

#[test]
fn reply_reports_count_and_dump() {
    match report_reply(Some(&[0xab, 0xcd, 0xef])) {
        ReplyReport::Data { count, dump } => {
            assert_eq!(count, 3);
            assert_eq!(dump, "  00000000: abcd ef");
        }
        ReplyReport::NoData => panic!("expected data"),
    }
}
