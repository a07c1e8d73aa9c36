use support::codec::{decode_title, encode_title, parse_title};

#[test]
fn encode_packs_fields() {
    assert_eq!(encode_title(0, 0, 0), Ok(0));
    assert_eq!(encode_title(1, 2, 3), Ok((1 << 6) | (2 << 2) | 3));
    assert_eq!(encode_title(15, 15, 3), Ok(1023));
    assert_eq!(encode_title(15, 15, 4), Ok(1020));
}

#[test]
fn encode_rejects_out_of_range_fields() {
    assert!(encode_title(16, 0, 0).is_err());
    assert!(encode_title(0, 16, 0).is_err());
    assert!(encode_title(0, 0, 5).is_err());
    assert!(encode_title(255, 255, 255).is_err());
}

#[test]
fn decode_inverts_encode() {
    for segment in 0..=15u8 {
        for column in 0..=15u8 {
            for row in 0..=3u8 {
                let id = encode_title(segment, column, row).unwrap();
                assert_eq!(decode_title(id), (segment, column, row));
            }
        }
    }
}

#[test]
fn encode_inverts_decode() {
    for id in 0..1024u16 {
        let (segment, column, row) = decode_title(id);
        assert_eq!(encode_title(segment, column, row), Ok(id));
    }
}

#[test]
fn row_four_shares_a_bit_with_the_column() {
    let id = encode_title(2, 4, 4).unwrap();
    assert_eq!(id, encode_title(2, 5, 0).unwrap());
    assert_eq!(decode_title(id), (2, 5, 0));
}

#[test]
fn parse_title_reads_three_fields() {
    assert_eq!(parse_title("1.2.3"), Some((1 << 6) | (2 << 2) | 3));
    assert_eq!(parse_title("0.0.0"), Some(0));
    assert_eq!(parse_title("15.15.4"), Some(1020));
    assert_eq!(parse_title("+1.02.003"), Some((1 << 6) | (2 << 2) | 3));
}

#[test]
fn parse_title_rejects_what_is_no_title() {
    assert_eq!(parse_title(""), None);
    assert_eq!(parse_title("1.2"), None);
    assert_eq!(parse_title("1.2.3.4"), None);
    assert_eq!(parse_title("16.0.0"), None);
    assert_eq!(parse_title("0.16.0"), None);
    assert_eq!(parse_title("0.0.5"), None);
    assert_eq!(parse_title("a.b.c"), None);
    assert_eq!(parse_title("1..3"), None);
    assert_eq!(parse_title("1.2.3."), None);
    assert_eq!(parse_title("-1.2.3"), None);
    assert_eq!(parse_title("256.0.0"), None);
    assert_eq!(parse_title("1. 2.3"), None);
    assert_eq!(parse_title("+.2.3"), None);
    assert_eq!(parse_title("99999999999999999999.2.3"), None);
}
