use ftp_cmd::{
    bytes_equal, is_ws, lookup_verb, parse_octet, parse_port_arg, parse_type_code, split_line,
    upper, upper_all, ArgShape, DecodeError, TransferType, Verb, PRIVILEGED_PORT_MAX,
};

#[test]
fn split_at_first_separator_only() {
    assert_eq!(
        split_line(b"STOR my file.txt"),
        Some((b"STOR".to_vec(), Some(b"my file.txt".to_vec())))
    );
    assert_eq!(split_line(b"  PWD"), Some((b"PWD".to_vec(), None)));
    assert_eq!(split_line(b"LIST "), Some((b"LIST".to_vec(), Some(Vec::new()))));
    assert_eq!(split_line(b"LIST  a "), Some((b"LIST".to_vec(), Some(b" a ".to_vec()))));
    assert_eq!(split_line(b"LIST\t/tmp"), Some((b"LIST".to_vec(), Some(b"/tmp".to_vec()))));
    assert_eq!(split_line(b""), None);
    assert_eq!(split_line(b" \t "), None);
}

#[test]
fn octets() {
    assert_eq!(parse_octet(b"0"), Some(0));
    assert_eq!(parse_octet(b"255"), Some(255));
    assert_eq!(parse_octet(b"0255"), Some(255));
    assert_eq!(parse_octet(b"256"), None);
    assert_eq!(parse_octet(b"1000"), None);
    assert_eq!(parse_octet(b""), None);
    assert_eq!(parse_octet(b"+1"), None);
    assert_eq!(parse_octet(b"1a"), None);
}

#[test]
fn port_argument_with_policy() {
    assert_eq!(parse_port_arg(b"127,0,0,1,20,10", PRIVILEGED_PORT_MAX), Ok(([127, 0, 0, 1], 5130)));
    assert_eq!(parse_port_arg(b"127,0,0,1,4,0", PRIVILEGED_PORT_MAX), Err(DecodeError::InvalidPort));
    assert_eq!(parse_port_arg(b"127,0,0,1,4,0", 0), Ok(([127, 0, 0, 1], 1024)));
    assert_eq!(parse_port_arg(b"127,0,0,1,20,10", 5130), Err(DecodeError::InvalidPort));
    assert_eq!(parse_port_arg(b"1,2,3", 0), Err(DecodeError::InvalidAddress));
    assert_eq!(parse_port_arg(b"", 0), Err(DecodeError::InvalidAddress));
}

#[test]
fn verb_table() {
    assert_eq!(lookup_verb(b"retr"), Verb::Retr);
    assert_eq!(lookup_verb(b"CdUp"), Verb::CdUp);
    assert_eq!(lookup_verb(b"XYZ"), Verb::Unrecognized);
    assert_eq!(Verb::List.shape(), ArgShape::OptionalText);
    assert_eq!(Verb::Port.shape(), ArgShape::PortAddress);
    assert_eq!(Verb::Type.shape(), ArgShape::TransferCode);
    assert_eq!(Verb::Stor.shape(), ArgShape::MandatoryText);
    assert_eq!(Verb::Quit.shape(), ArgShape::NoArgument);
    assert_eq!(Verb::Unrecognized.shape(), ArgShape::Unrecognized);
}

#[test]
fn transfer_type_codes() {
    assert_eq!(parse_type_code(b"I"), Some(TransferType::Binary));
    assert_eq!(parse_type_code(b"i"), Some(TransferType::Binary));
    assert_eq!(parse_type_code(b"A"), Some(TransferType::Ascii));
    assert_eq!(parse_type_code(b"L"), None);
    assert_eq!(parse_type_code(b""), None);
}

#[test]
fn byte_helpers() {
    assert!(is_ws(b' '));
    assert!(is_ws(b'\t'));
    assert!(!is_ws(b'a'));
    assert_eq!(upper(b'q'), b'Q');
    assert_eq!(upper(b'Q'), b'Q');
    assert_eq!(upper(b'1'), b'1');
    assert_eq!(upper_all(b"LiSt-9"), b"LIST-9".to_vec());
    assert!(bytes_equal(b"abc", b"abc"));
    assert!(!bytes_equal(b"abc", b"abd"));
    assert!(!bytes_equal(b"abc", b"ab"));
}
