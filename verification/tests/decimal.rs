use seqrepo::api::{bind_address, lookup_status, DEFAULT_PORT};
use seqrepo::cli::{port_in_range, PORT_MAX, PORT_MIN};
use seqrepo::decimal::{parse_u64, render_u64};
use seqrepo::keys::{ErrorKind, InputError};
use seqrepo::lookup::{SeqRepoLookupError, SequenceMetadata};
use seqrepo::records::DynamodbConversionError;
use seqrepo::store::{StoreError, StoreErrorKind};

#[test]
fn parse_reads_plain_numbers() {
    assert_eq!(parse_u64("0"), Some(0));
    assert_eq!(parse_u64("7"), Some(7));
    assert_eq!(parse_u64("248956422"), Some(248956422));
}

#[test]
fn parse_accepts_plus_and_leading_zeros() {
    assert_eq!(parse_u64("+42"), Some(42));
    assert_eq!(parse_u64("007"), Some(7));
    assert_eq!(parse_u64("+000"), Some(0));
}

#[test]
fn parse_rejects_what_is_no_number() {
    for text in ["", "+", "-1", " 1", "1 ", "1.5", "1e3", "abc", "12a", "++1", "1+", "\u{661}"] {
        assert_eq!(parse_u64(text), None, "{:?}", text);
    }
}

#[test]
fn parse_stops_at_sixty_four_bits() {
    assert_eq!(parse_u64("18446744073709551615"), Some(u64::MAX));
    assert_eq!(parse_u64("18446744073709551616"), None);
    assert_eq!(parse_u64("99999999999999999999999"), None);
    assert_eq!(parse_u64("000000000000000000000000000001"), Some(1));
}

#[test]
fn parse_agrees_with_std_on_examples() {
    for text in ["0", "+5", "-5", "", "+", "0080", "65536", "18446744073709551616", "4x"] {
        assert_eq!(parse_u64(text), text.parse::<u64>().ok(), "{:?}", text);
    }
}

#[test]
fn render_writes_the_shortest_text() {
    assert_eq!(render_u64(0), "0");
    assert_eq!(render_u64(9), "9");
    assert_eq!(render_u64(10), "10");
    assert_eq!(render_u64(248956422), "248956422");
    assert_eq!(render_u64(u64::MAX), "18446744073709551615");
}

#[test]
fn parse_inverts_render_on_examples() {
    for n in [0u64, 1, 9, 10, 99, 100, 12345, 248956422, u64::MAX - 1, u64::MAX] {
        assert_eq!(parse_u64(&render_u64(n)), Some(n));
    }
}

#[test]
fn port_in_range_accepts_ports() {
    assert_eq!(port_in_range("1"), Ok(1));
    assert_eq!(port_in_range("3000"), Ok(3000));
    assert_eq!(port_in_range("65535"), Ok(65535));
    assert_eq!(port_in_range("+80"), Ok(80));
    assert_eq!(port_in_range("0080"), Ok(80));
}

#[test]
fn port_in_range_rejects_numbers_outside_the_range() {
    assert_eq!(port_in_range("0"), Err("port not in range 1-65535".to_string()));
    assert_eq!(port_in_range("65536"), Err("port not in range 1-65535".to_string()));
    assert_eq!(port_in_range("4294967295"), Err("port not in range 1-65535".to_string()));
}

#[test]
fn port_in_range_rejects_what_is_no_number() {
    assert_eq!(port_in_range("http"), Err("`http` isn't a port number".to_string()));
    assert_eq!(port_in_range(""), Err("`` isn't a port number".to_string()));
    assert_eq!(port_in_range("-1"), Err("`-1` isn't a port number".to_string()));
    assert_eq!(
        port_in_range("99999999999999999999999"),
        Err("`99999999999999999999999` isn't a port number".to_string())
    );
}

#[test]
fn port_bounds() {
    assert_eq!(PORT_MIN, 1);
    assert_eq!(PORT_MAX, 65535);
    assert_eq!(DEFAULT_PORT, 3000);
}

#[test]
fn bind_address_uses_the_given_port() {
    assert_eq!(bind_address(Some(8080)), "0.0.0.0:8080");
    assert_eq!(bind_address(Some(1)), "0.0.0.0:1");
    assert_eq!(bind_address(Some(65535)), "0.0.0.0:65535");
}

#[test]
fn bind_address_defaults_to_port_3000() {
    assert_eq!(bind_address(None), "0.0.0.0:3000");
}

#[test]
fn status_of_each_outcome() {
    let found = SequenceMetadata {
        canonical_id: "SQ.abc".to_string(),
        length: 5,
        alphabet: "na".to_string(),
        added: "2024-01-01".to_string(),
        aliases: vec![],
    };
    assert_eq!(lookup_status(&Ok(Some(found))), 200);
    assert_eq!(lookup_status(&Ok(None)), 404);
    assert_eq!(
        lookup_status(&Err(SeqRepoLookupError::InvalidInput(InputError {
            kind: ErrorKind::InvalidKey
        }))),
        422
    );
    assert_eq!(lookup_status(&Err(SeqRepoLookupError::DanglingReference)), 500);
    assert_eq!(
        lookup_status(&Err(SeqRepoLookupError::CorruptRecord(
            DynamodbConversionError::MissingField("seq_id".to_string())
        ))),
        500
    );
    assert_eq!(lookup_status(&Err(SeqRepoLookupError::InvalidData("x".to_string()))), 500);
    assert_eq!(
        lookup_status(&Err(SeqRepoLookupError::DynamoDbError(StoreError {
            kind: StoreErrorKind::Timeout,
            message: "timed out".to_string(),
        }))),
        503
    );
}
