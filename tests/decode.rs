use ftp_cmd::{Command, DecodeError, TransferType};

fn decode(line: &str) -> Result<Command, DecodeError> {
    Command::new(line.as_bytes().to_vec())
}

fn same_shape(a: &Command, b: &Command) -> bool {
    std::mem::discriminant(a) == std::mem::discriminant(b)
}

#[test]
fn verbs_ignore_case() {
    let lower = decode("list").unwrap();
    let upper = decode("LIST").unwrap();
    let mixed = decode("LiSt").unwrap();
    assert!(same_shape(&lower, &upper));
    assert!(same_shape(&lower, &mixed));
    assert_eq!(lower, Command::List(None));
    assert_eq!(decode("cwd /a b"), decode("CwD /a b"));
    assert_eq!(decode("port 127,0,0,1,20,10"), decode("PORT 127,0,0,1,20,10"));
    assert_eq!(decode("type i"), Ok(Command::Type(TransferType::Binary)));
    assert_eq!(decode("noop"), Ok(Command::NoOp));
}

#[test]
fn unknown_verb_keeps_its_case() {
    assert_eq!(decode("foo"), Ok(Command::Unknown("foo".to_string())));
    assert_eq!(decode("FoO x"), Ok(Command::Unknown("FoO".to_string())));
}

#[test]
fn port_decodes_address_and_port() {
    assert_eq!(
        decode("PORT 127,0,0,1,20,10"),
        Ok(Command::Port([127, 0, 0, 1], 5130))
    );
}

#[test]
fn port_boundary() {
    assert_eq!(
        decode("PORT 127,0,0,1,4,1"),
        Ok(Command::Port([127, 0, 0, 1], 1025))
    );
    assert_eq!(decode("PORT 127,0,0,1,4,0"), Err(DecodeError::InvalidPort));
    assert_eq!(decode("PORT 10,0,0,1,0,21"), Err(DecodeError::InvalidPort));
}

#[test]
fn port_too_few_fields() {
    assert_eq!(decode("PORT 1,2,3"), Err(DecodeError::InvalidAddress));
}

#[test]
fn port_field_out_of_range() {
    assert_eq!(decode("PORT 1,2,3,4,5,256"), Err(DecodeError::InvalidAddress));
}

#[test]
fn port_malformed_fields() {
    assert_eq!(decode("PORT 1,2,3,4,5,6,7"), Err(DecodeError::InvalidAddress));
    assert_eq!(decode("PORT 1,2,x,4,5,6"), Err(DecodeError::InvalidAddress));
    assert_eq!(decode("PORT 1,2,,4,5,6"), Err(DecodeError::InvalidAddress));
    assert_eq!(decode("PORT 1,2,3,4,5,"), Err(DecodeError::InvalidAddress));
    assert_eq!(decode("PORT 1,2,3,4,5,-6"), Err(DecodeError::InvalidAddress));
    assert_eq!(decode("PORT 1,2,3,4,99999999999999999999,6"), Err(DecodeError::InvalidAddress));
    assert_eq!(decode("PORT 1,2,3,4,5,6 "), Err(DecodeError::InvalidAddress));
    assert_eq!(decode("PORT 1,2,3,4,5,6,x"), Err(DecodeError::InvalidAddress));
}

#[test]
fn empty_argument_after_separator() {
    assert_eq!(decode("PORT "), Err(DecodeError::InvalidAddress));
    assert_eq!(decode("CWD "), Ok(Command::Cwd(String::new())));
    assert_eq!(decode("LIST "), Ok(Command::List(Some(String::new()))));
    assert_eq!(decode("TYPE "), Err(DecodeError::InvalidTransferType));
}

#[test]
fn port_largest_values() {
    assert_eq!(
        decode("PORT 255,255,255,255,255,255"),
        Ok(Command::Port([255, 255, 255, 255], 65535))
    );
    assert_eq!(
        decode("PORT 010,000,1,2,04,001"),
        Ok(Command::Port([10, 0, 1, 2], 1025))
    );
}

#[test]
fn cwd_without_argument() {
    assert_eq!(decode("CWD"), Err(DecodeError::MissingArgument));
    assert_eq!(decode("PORT"), Err(DecodeError::MissingArgument));
    assert_eq!(decode("USER"), Err(DecodeError::MissingArgument));
}

#[test]
fn list_without_argument() {
    assert_eq!(decode("LIST"), Ok(Command::List(None)));
}

#[test]
fn list_with_path() {
    assert_eq!(decode("LIST /tmp"), Ok(Command::List(Some("/tmp".to_string()))));
}

#[test]
fn list_with_undecodable_path() {
    let line = vec![76u8, 73, 83, 84, 32, 0xff, 0xfe];
    assert_eq!(Command::new(line), Ok(Command::List(None)));
}

#[test]
fn unknown_verb() {
    assert_eq!(decode("FOO bar"), Ok(Command::Unknown("FOO".to_string())));
}

#[test]
fn unknown_verb_text_is_decoded() {
    assert_eq!(decode("ÉTÉ x"), Ok(Command::Unknown("ÉTÉ".to_string())));
    let line = vec![0xffu8, 65, 32, 66];
    assert_eq!(Command::new(line), Ok(Command::Unknown("\u{FFFD}A".to_string())));
}

#[test]
fn empty_line() {
    assert_eq!(decode(""), Err(DecodeError::EmptyInput));
    assert_eq!(decode("   "), Err(DecodeError::EmptyInput));
    assert_eq!(decode(" \t \r"), Err(DecodeError::EmptyInput));
}

#[test]
fn decoding_twice_gives_equal_results() {
    for line in ["PORT 127,0,0,1,20,10", "STOR a b", "LIST", "FOO", "", "TYPE X"] {
        assert_eq!(decode(line), decode(line));
    }
}

#[test]
fn text_arguments_keep_inner_whitespace() {
    assert_eq!(decode("STOR my file.txt"), Ok(Command::Stor("my file.txt".to_string())));
    assert_eq!(decode("CWD  two"), Ok(Command::Cwd(" two".to_string())));
    assert_eq!(decode("  RETR a"), Ok(Command::Retr("a".to_string())));
    assert_eq!(decode("MKD dir"), Ok(Command::Mkd("dir".to_string())));
    assert_eq!(decode("RMD dir"), Ok(Command::Rmd("dir".to_string())));
    assert_eq!(decode("USER anonymous"), Ok(Command::User("anonymous".to_string())));
    assert_eq!(decode("CWD ÿ"), Ok(Command::Cwd("ÿ".to_string())));
}

#[test]
fn text_argument_bad_encoding() {
    let line = vec![67u8, 87, 68, 32, 0xc3, 0x28];
    assert_eq!(Command::new(line), Err(DecodeError::InvalidEncoding));
}

#[test]
fn bare_verbs_ignore_trailing_text() {
    assert_eq!(decode("AUTH TLS"), Ok(Command::Auth));
    assert_eq!(decode("PASV"), Ok(Command::Pasv));
    assert_eq!(decode("PWD x"), Ok(Command::Pwd));
    assert_eq!(decode("QUIT"), Ok(Command::Quit));
    assert_eq!(decode("SYST"), Ok(Command::Syst));
    assert_eq!(decode("CDUP"), Ok(Command::CdUp));
    assert_eq!(decode("NOOP junk"), Ok(Command::NoOp));
}

#[test]
fn type_codes() {
    assert_eq!(decode("TYPE A"), Ok(Command::Type(TransferType::Ascii)));
    assert_eq!(decode("TYPE a"), Ok(Command::Type(TransferType::Ascii)));
    assert_eq!(decode("TYPE I"), Ok(Command::Type(TransferType::Binary)));
    assert_eq!(decode("TYPE E"), Err(DecodeError::InvalidTransferType));
    assert_eq!(decode("TYPE AN"), Err(DecodeError::InvalidTransferType));
    assert_eq!(decode("TYPE"), Err(DecodeError::InvalidTransferType));
}

#[test]
fn no_prefix_matching() {
    assert_eq!(decode("LIS"), Ok(Command::Unknown("LIS".to_string())));
    assert_eq!(decode("LISTS"), Ok(Command::Unknown("LISTS".to_string())));
}

#[test]
fn labels() {
    assert_eq!(decode("list").unwrap().label(), "LIST");
    assert_eq!(Command::Port([1, 2, 3, 4], 2000).label(), "PORT");
    assert_eq!(Command::Unknown("FOO".to_string()).label(), "UNKN");
    assert_eq!(Command::CdUp.as_ref(), "CDUP");
    assert_eq!(Command::NoOp.as_ref(), "NOOP");
    for line in ["list", "LIST", "LiSt"] {
        assert_eq!(decode(line).unwrap().as_ref(), "LIST");
    }
    assert_eq!(decode("FOO bar").unwrap().as_ref(), "UNKN");
    assert_eq!(Command::Cwd("UNKN".to_string()).as_ref(), "CWD");
}

#[test]
fn port_floor_is_configurable() {
    let line = b"PORT 127,0,0,1,4,0".to_vec();
    assert_eq!(
        Command::with_port_floor(line.clone(), 1000),
        Ok(Command::Port([127, 0, 0, 1], 1024))
    );
    assert_eq!(Command::with_port_floor(line, 1024), Err(DecodeError::InvalidPort));
    assert_eq!(
        Command::with_port_floor(b"PORT 1,2,3,4,7,208".to_vec(), 2000),
        Err(DecodeError::InvalidPort)
    );
    assert_eq!(
        Command::with_port_floor(b"PORT 1,2,3,4,7,209".to_vec(), 2000),
        Ok(Command::Port([1, 2, 3, 4], 2001))
    );
}
