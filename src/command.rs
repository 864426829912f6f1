//! Decoded commands and the decoder that produces them from one line.
use vstd::prelude::*;
use vstd::utf8::{decode_utf8, valid_utf8};
use crate::bytes::{is_ws_byte, upper_byte, upper_seq};
use crate::error::DecodeError;
use crate::port::{
    all_octets, join_fields, lemma_port_fields, octet_at, parse_port_arg, port_arg_spec,
    PRIVILEGED_PORT_MAX,
};
use crate::text::{decode_text, decode_text_lossy, lossy_text_of};
use crate::tokenize::{line_tokens, skip_word_from, split_line};
use crate::verb::{lookup_verb, shape_of, verb_of, ArgShape, Verb};

verus! {

/// The data representation that `TYPE` selects.
#[derive(Clone, Copy, Debug, PartialEq, Eq, Structural)]
pub enum TransferType {
    Ascii,
    Binary,
}

/// One decoded command line.
#[derive(Clone, Debug, PartialEq, Eq)]
pub enum Command {
    Auth,
    Cwd(String),
    List(Option<String>),
    Mkd(String),
    NoOp,
    /// The address octets, most significant first, and the port.
    Port([u8; 4], u16),
    Pasv,
    Pwd,
    Quit,
    Retr(String),
    Rmd(String),
    Stor(String),
    Syst,
    Type(TransferType),
    CdUp,
    /// A verb that the table does not hold, as it was sent.
    Unknown(String),
    User(String),
}

/// The mathematical value of a [`Command`]: text as characters, the address
/// as a sequence of octets.
pub enum CommandView {
    Auth,
    Cwd(Seq<char>),
    List(Option<Seq<char>>),
    Mkd(Seq<char>),
    NoOp,
    Port(Seq<u8>, u16),
    Pasv,
    Pwd,
    Quit,
    Retr(Seq<char>),
    Rmd(Seq<char>),
    Stor(Seq<char>),
    Syst,
    Type(TransferType),
    CdUp,
    Unknown(Seq<char>),
    User(Seq<char>),
}

impl View for Command {
    type V = CommandView;

    open spec fn view(&self) -> CommandView {
        match self {
            Command::Auth => CommandView::Auth,
            Command::Cwd(p) => CommandView::Cwd(p@),
            Command::List(p) => CommandView::List(
                match p {
                    Some(s) => Some(s@),
                    None => None,
                },
            ),
            Command::Mkd(p) => CommandView::Mkd(p@),
            Command::NoOp => CommandView::NoOp,
            Command::Port(a, p) => CommandView::Port(a@, *p),
            Command::Pasv => CommandView::Pasv,
            Command::Pwd => CommandView::Pwd,
            Command::Quit => CommandView::Quit,
            Command::Retr(p) => CommandView::Retr(p@),
            Command::Rmd(p) => CommandView::Rmd(p@),
            Command::Stor(p) => CommandView::Stor(p@),
            Command::Syst => CommandView::Syst,
            Command::Type(t) => CommandView::Type(*t),
            Command::CdUp => CommandView::CdUp,
            Command::Unknown(v) => CommandView::Unknown(v@),
            Command::User(u) => CommandView::User(u@),
        }
    }
}

/// The value of a decoding result.
pub open spec fn result_view(r: Result<Command, DecodeError>) -> Result<CommandView, DecodeError> {
    match r {
        Ok(c) => Ok(c@),
        Err(e) => Err(e),
    }
}

/// The transfer type that a `TYPE` argument names: `A` (ASCII) or `I`
/// (binary), in either case, and nothing else.
pub open spec fn type_code_of(arg: Seq<u8>) -> Option<TransferType> {
    if arg.len() == 1 && (arg[0] == 65 || arg[0] == 97) {
        Some(TransferType::Ascii)
    } else if arg.len() == 1 && (arg[0] == 73 || arg[0] == 105) {
        Some(TransferType::Binary)
    } else {
        None
    }
}

/// The command of a verb that takes no argument.
pub open spec fn bare_view(v: Verb) -> CommandView {
    match v {
        Verb::Auth => CommandView::Auth,
        Verb::CdUp => CommandView::CdUp,
        Verb::Pasv => CommandView::Pasv,
        Verb::Pwd => CommandView::Pwd,
        Verb::Quit => CommandView::Quit,
        Verb::Syst => CommandView::Syst,
        _ => CommandView::NoOp,
    }
}

/// The command of a verb that takes mandatory text, with that text.
pub open spec fn text_view(v: Verb, t: Seq<char>) -> CommandView {
    match v {
        Verb::Cwd => CommandView::Cwd(t),
        Verb::Mkd => CommandView::Mkd(t),
        Verb::Retr => CommandView::Retr(t),
        Verb::Rmd => CommandView::Rmd(t),
        Verb::Stor => CommandView::Stor(t),
        _ => CommandView::User(t),
    }
}

/// What a verb and the text after it decode to, with ports at or below
/// `floor` refused. `token` is the verb as sent.
pub open spec fn decode_parts(v: Verb, token: Seq<u8>, rest: Option<Seq<u8>>, floor: u16) -> Result<
    CommandView,
    DecodeError,
> {
    match shape_of(v) {
        ArgShape::NoArgument => Ok(bare_view(v)),
        ArgShape::MandatoryText => match rest {
            None => Err(DecodeError::MissingArgument),
            Some(b) => if valid_utf8(b) {
                Ok(text_view(v, decode_utf8(b)))
            } else {
                Err(DecodeError::InvalidEncoding)
            },
        },
        ArgShape::OptionalText => Ok(
            CommandView::List(
                match rest {
                    Some(b) => if valid_utf8(b) {
                        Some(decode_utf8(b))
                    } else {
                        None
                    },
                    None => None,
                },
            ),
        ),
        ArgShape::PortAddress => match rest {
            None => Err(DecodeError::MissingArgument),
            Some(b) => match port_arg_spec(b, floor) {
                Ok((a, p)) => Ok(CommandView::Port(a, p)),
                Err(e) => Err(e),
            },
        },
        ArgShape::TransferCode => match rest {
            Some(b) => match type_code_of(b) {
                Some(t) => Ok(CommandView::Type(t)),
                None => Err(DecodeError::InvalidTransferType),
            },
            None => Err(DecodeError::InvalidTransferType),
        },
        ArgShape::Unrecognized => Ok(
            CommandView::Unknown(
                if valid_utf8(token) {
                    decode_utf8(token)
                } else {
                    lossy_text_of(token)
                },
            ),
        ),
    }
}

/// What a whole line decodes to, with ports at or below `floor` refused.
pub open spec fn decode_line_with(line: Seq<u8>, floor: u16) -> Result<CommandView, DecodeError> {
    match line_tokens(line) {
        None => Err(DecodeError::EmptyInput),
        Some((token, rest)) => decode_parts(verb_of(upper_seq(token)), token, rest, floor),
    }
}

/// What a whole line decodes to under the default port policy.
pub open spec fn decode_line(line: Seq<u8>) -> Result<CommandView, DecodeError> {
    decode_line_with(line, PRIVILEGED_PORT_MAX)
}

/// Reads a `TYPE` argument.
pub fn parse_type_code(arg: &[u8]) -> (r: Option<TransferType>)
    ensures
        r == type_code_of(arg@),
{
    if arg.len() != 1 {
        None
    } else if arg[0] == 65 || arg[0] == 97 {
        Some(TransferType::Ascii)
    } else if arg[0] == 73 || arg[0] == 105 {
        Some(TransferType::Binary)
    } else {
        None
    }
}

/// The label of each command: its verb in upper case, and for an
/// unrecognised verb the internal marker `UNKN`, which is no protocol verb.
pub open spec fn label_of(c: CommandView) -> Seq<char> {
    match c {
        CommandView::Auth => "AUTH"@,
        CommandView::Cwd(_) => "CWD"@,
        CommandView::List(_) => "LIST"@,
        CommandView::Pasv => "PASV"@,
        CommandView::Port(..) => "PORT"@,
        CommandView::Pwd => "PWD"@,
        CommandView::Quit => "QUIT"@,
        CommandView::Retr(_) => "RETR"@,
        CommandView::Stor(_) => "STOR"@,
        CommandView::Syst => "SYST"@,
        CommandView::Type(_) => "TYPE"@,
        CommandView::User(_) => "USER"@,
        CommandView::CdUp => "CDUP"@,
        CommandView::Mkd(_) => "MKD"@,
        CommandView::Rmd(_) => "RMD"@,
        CommandView::NoOp => "NOOP"@,
        CommandView::Unknown(_) => "UNKN"@,
    }
}

/// Builds the command of a verb that takes no argument.
fn bare_command(v: Verb) -> (r: Command)
    ensures
        r@ == bare_view(v),
{
    match v {
        Verb::Auth => Command::Auth,
        Verb::CdUp => Command::CdUp,
        Verb::Pasv => Command::Pasv,
        Verb::Pwd => Command::Pwd,
        Verb::Quit => Command::Quit,
        Verb::Syst => Command::Syst,
        _ => Command::NoOp,
    }
}

/// Builds the command of a verb that takes mandatory text.
fn text_command(v: Verb, t: String) -> (r: Command)
    ensures
        r@ == text_view(v, t@),
{
    match v {
        Verb::Cwd => Command::Cwd(t),
        Verb::Mkd => Command::Mkd(t),
        Verb::Retr => Command::Retr(t),
        Verb::Rmd => Command::Rmd(t),
        Verb::Stor => Command::Stor(t),
        _ => Command::User(t),
    }
}

impl Command {
    /// Decodes one command line, whose terminator the caller has already
    /// removed, refusing `PORT` ports at or below [`PRIVILEGED_PORT_MAX`].
    pub fn new(input: Vec<u8>) -> (r: Result<Command, DecodeError>)
        ensures
            result_view(r) == decode_line(input@),
    {
        Command::with_port_floor(input, PRIVILEGED_PORT_MAX)
    }

    /// Decodes one command line, refusing `PORT` ports at or below `floor`.
    pub fn with_port_floor(input: Vec<u8>, floor: u16) -> (r: Result<Command, DecodeError>)
        ensures
            result_view(r) == decode_line_with(input@, floor),
    {
        let (token, rest) = match split_line(input.as_slice()) {
            None => {
                return Err(DecodeError::EmptyInput);
            },
            Some(parts) => parts,
        };
        let verb = lookup_verb(token.as_slice());
        match verb.shape() {
            ArgShape::NoArgument => Ok(bare_command(verb)),
            ArgShape::MandatoryText => match rest {
                None => Err(DecodeError::MissingArgument),
                Some(b) => match decode_text(b.as_slice()) {
                    Some(t) => Ok(text_command(verb, t)),
                    None => Err(DecodeError::InvalidEncoding),
                },
            },
            ArgShape::OptionalText => match rest {
                None => Ok(Command::List(None)),
                Some(b) => Ok(Command::List(decode_text(b.as_slice()))),
            },
            ArgShape::PortAddress => match rest {
                None => Err(DecodeError::MissingArgument),
                Some(b) => match parse_port_arg(b.as_slice(), floor) {
                    Ok((a, p)) => Ok(Command::Port(a, p)),
                    Err(e) => Err(e),
                },
            },
            ArgShape::TransferCode => match rest {
                None => Err(DecodeError::InvalidTransferType),
                Some(b) => match parse_type_code(b.as_slice()) {
                    Some(t) => Ok(Command::Type(t)),
                    None => Err(DecodeError::InvalidTransferType),
                },
            },
            ArgShape::Unrecognized => Ok(Command::Unknown(decode_text_lossy(token.as_slice()))),
        }
    }

    /// The label of this command.
    pub fn label(&self) -> (r: &'static str)
        ensures
            r@ == label_of(self@),
    {
        match self {
            Command::Auth => "AUTH",
            Command::Cwd(_) => "CWD",
            Command::List(_) => "LIST",
            Command::Pasv => "PASV",
            Command::Port(..) => "PORT",
            Command::Pwd => "PWD",
            Command::Quit => "QUIT",
            Command::Retr(_) => "RETR",
            Command::Stor(_) => "STOR",
            Command::Syst => "SYST",
            Command::Type(_) => "TYPE",
            Command::User(_) => "USER",
            Command::CdUp => "CDUP",
            Command::Mkd(_) => "MKD",
            Command::Rmd(_) => "RMD",
            Command::NoOp => "NOOP",
            Command::Unknown(_) => "UNKN",
        }
    }
}

impl AsRef<str> for Command {
    fn as_ref(&self) -> (r: &str)
        ensures
            r@ == label_of(self@),
    {
        self.label()
    }
}

proof fn lemma_word_end(v: Seq<u8>, rest: Seq<u8>, i: int)
    requires
        0 <= i <= v.len(),
        forall|k: int| 0 <= k < v.len() ==> !is_ws_byte(#[trigger] v[k]),
        rest.len() == 0 || is_ws_byte(rest[0]),
    ensures
        skip_word_from(v + rest, i) == v.len(),
    decreases v.len() - i,
{
    let line = v + rest;
    if i < v.len() {
        assert(line[i] == v[i]);
        lemma_word_end(v, rest, i + 1);
    } else if rest.len() > 0 {
        assert(line[i] == rest[0]);
    }
}

/// The tokens of a line made of a verb and what follows it.
proof fn lemma_tokens_of(v: Seq<u8>, rest: Seq<u8>)
    requires
        v.len() > 0,
        forall|k: int| 0 <= k < v.len() ==> !is_ws_byte(#[trigger] v[k]),
        rest.len() == 0 || is_ws_byte(rest[0]),
    ensures
        line_tokens(v + rest) == Some(
            (
                v,
                if rest.len() == 0 {
                    None
                } else {
                    Some(rest.subrange(1, rest.len() as int))
                },
            ),
        ),
{
    let line = v + rest;
    assert(line[0] == v[0]);
    lemma_word_end(v, rest, 0);
    assert(line.subrange(0, v.len() as int) =~= v);
    if rest.len() > 0 {
        assert(line.subrange(v.len() as int + 1, line.len() as int) =~= rest.subrange(1, rest.len() as int));
    }
}

/// The case of a verb's letters does not matter: two lines whose verbs are
/// equal but for ASCII case, and whose text after the separator is the same,
/// decode alike. An unrecognised verb gives `Unknown` for both, each carrying
/// the verb as it was sent; any other verb gives the same result for both.
pub proof fn lemma_verb_case_insensitive(l1: Seq<u8>, l2: Seq<u8>)
    requires
        line_tokens(l1) matches Some((v1, r1)) && line_tokens(l2) matches Some((v2, r2)) && r1
            == r2 && upper_seq(v1) == upper_seq(v2),
    ensures
        (decode_line(l1) matches Ok(CommandView::Unknown(_))) <==> (decode_line(
            l2,
        ) matches Ok(CommandView::Unknown(_))),
        !(decode_line(l1) matches Ok(CommandView::Unknown(_))) ==> decode_line(l1) == decode_line(
            l2,
        ),
{
}

/// A `PORT` line whose argument is six decimal fields of at most 255 gives
/// the address of the first four and the port 256 times the fifth plus the
/// sixth, when that port exceeds 1024, and `InvalidPort` otherwise.
pub proof fn lemma_port_line(f: Seq<Seq<u8>>)
    requires
        f.len() == 6,
        all_octets(f),
    ensures
        ({
            let p = octet_at(f, 4) as int * 256 + octet_at(f, 5) as int;
            decode_line(seq![80u8, 79, 82, 84, 32] + join_fields(f)) == if p > 1024 {
                Ok::<CommandView, DecodeError>(
                    CommandView::Port(
                        seq![octet_at(f, 0), octet_at(f, 1), octet_at(f, 2), octet_at(f, 3)],
                        p as u16,
                    ),
                )
            } else {
                Err(DecodeError::InvalidPort)
            }
        }),
{
    let v = seq![80u8, 79, 82, 84];
    let rest = seq![32u8] + join_fields(f);
    assert(seq![80u8, 79, 82, 84, 32] + join_fields(f) =~= v + rest);
    lemma_tokens_of(v, rest);
    assert(rest.subrange(1, rest.len() as int) =~= join_fields(f));
    assert(upper_seq(v) =~= v);
    lemma_port_fields(f, PRIVILEGED_PORT_MAX);
}

/// A number for each variant of a command.
pub open spec fn variant_index(c: CommandView) -> nat {
    match c {
        CommandView::Auth => 0,
        CommandView::Cwd(_) => 1,
        CommandView::List(_) => 2,
        CommandView::Pasv => 3,
        CommandView::Port(..) => 4,
        CommandView::Pwd => 5,
        CommandView::Quit => 6,
        CommandView::Retr(_) => 7,
        CommandView::Stor(_) => 8,
        CommandView::Syst => 9,
        CommandView::Type(_) => 10,
        CommandView::User(_) => 11,
        CommandView::CdUp => 12,
        CommandView::Mkd(_) => 13,
        CommandView::Rmd(_) => 14,
        CommandView::NoOp => 15,
        CommandView::Unknown(_) => 16,
    }
}

/// ASCII bytes read as characters.
pub open spec fn ascii_chars(s: Seq<u8>) -> Seq<char> {
    s.map_values(|b: u8| b as char)
}

/// Labels name variants: two commands have the same label exactly when they
/// are of the same variant, every label is three or four upper-case ASCII
/// letters, and `UNKN` is the label of `Unknown` alone.
pub proof fn lemma_label_names_variant(a: CommandView, b: CommandView)
    ensures
        (label_of(a) == label_of(b)) <==> (variant_index(a) == variant_index(b)),
        3 <= label_of(a).len() <= 4,
        forall|i: int| 0 <= i < label_of(a).len() ==> 'A' <= #[trigger] label_of(a)[i] <= 'Z',
        (label_of(a) == "UNKN"@) <==> (a is Unknown),
{
    reveal_strlit("AUTH");
    reveal_strlit("CWD");
    reveal_strlit("LIST");
    reveal_strlit("PASV");
    reveal_strlit("PORT");
    reveal_strlit("PWD");
    reveal_strlit("QUIT");
    reveal_strlit("RETR");
    reveal_strlit("STOR");
    reveal_strlit("SYST");
    reveal_strlit("TYPE");
    reveal_strlit("USER");
    reveal_strlit("CDUP");
    reveal_strlit("MKD");
    reveal_strlit("RMD");
    reveal_strlit("NOOP");
    reveal_strlit("UNKN");
    if variant_index(a) != variant_index(b) {
        assert(label_of(a) != label_of(b) || label_of(a)[label_of(a).len() - 1] != label_of(b)[label_of(b).len() - 1]
            || label_of(a)[0] != label_of(b)[0] || label_of(a)[1] != label_of(b)[1]);
    }
    if !(a is Unknown) {
        assert(label_of(a)[1] != "UNKN"@[1] || label_of(a)[0] != "UNKN"@[0]);
    }
}

/// The label of a decoded command is its verb in upper case for a verb of the
/// table, and `UNKN` for any other verb.
pub proof fn lemma_label_of_decoded(line: Seq<u8>)
    requires
        decode_line(line) is Ok,
    ensures
        line_tokens(line) matches Some((token, _)) && label_of(decode_line(line)->Ok_0) == if verb_of(
            upper_seq(token),
        ) != Verb::Unrecognized {
            ascii_chars(upper_seq(token))
        } else {
            "UNKN"@
        },
{
    reveal_strlit("AUTH");
    reveal_strlit("CWD");
    reveal_strlit("LIST");
    reveal_strlit("PASV");
    reveal_strlit("PORT");
    reveal_strlit("PWD");
    reveal_strlit("QUIT");
    reveal_strlit("RETR");
    reveal_strlit("STOR");
    reveal_strlit("SYST");
    reveal_strlit("TYPE");
    reveal_strlit("USER");
    reveal_strlit("CDUP");
    reveal_strlit("MKD");
    reveal_strlit("RMD");
    reveal_strlit("NOOP");
    reveal_strlit("UNKN");
    assert(ascii_chars(seq![65u8, 85, 84, 72]) =~= "AUTH"@);
    assert(ascii_chars(seq![67u8, 87, 68]) =~= "CWD"@);
    assert(ascii_chars(seq![76u8, 73, 83, 84]) =~= "LIST"@);
    assert(ascii_chars(seq![80u8, 65, 83, 86]) =~= "PASV"@);
    assert(ascii_chars(seq![80u8, 79, 82, 84]) =~= "PORT"@);
    assert(ascii_chars(seq![80u8, 87, 68]) =~= "PWD"@);
    assert(ascii_chars(seq![81u8, 85, 73, 84]) =~= "QUIT"@);
    assert(ascii_chars(seq![82u8, 69, 84, 82]) =~= "RETR"@);
    assert(ascii_chars(seq![83u8, 84, 79, 82]) =~= "STOR"@);
    assert(ascii_chars(seq![83u8, 89, 83, 84]) =~= "SYST"@);
    assert(ascii_chars(seq![84u8, 89, 80, 69]) =~= "TYPE"@);
    assert(ascii_chars(seq![85u8, 83, 69, 82]) =~= "USER"@);
    assert(ascii_chars(seq![67u8, 68, 85, 80]) =~= "CDUP"@);
    assert(ascii_chars(seq![77u8, 75, 68]) =~= "MKD"@);
    assert(ascii_chars(seq![82u8, 77, 68]) =~= "RMD"@);
    assert(ascii_chars(seq![78u8, 79, 79, 80]) =~= "NOOP"@);
}

/// Decoding keeps no state between calls: two results obtained from the same
/// line are equal.
pub proof fn lemma_decode_repeatable(
    line: Seq<u8>,
    r1: Result<Command, DecodeError>,
    r2: Result<Command, DecodeError>,
)
    requires
        result_view(r1) == decode_line(line),
        result_view(r2) == decode_line(line),
    ensures
        result_view(r1) == result_view(r2),
{
}

} // verus!
