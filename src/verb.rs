//! The verb table: which verbs exist and what argument each takes.
use vstd::prelude::*;
use crate::bytes::{bytes_equal, upper_all, upper_seq};

verus! {

/// A verb of the command set, or one that the table does not hold.
#[derive(Clone, Copy, Debug, PartialEq, Eq, Structural)]
pub enum Verb {
    Auth,
    CdUp,
    Cwd,
    List,
    Mkd,
    NoOp,
    Pasv,
    Port,
    Pwd,
    Quit,
    Retr,
    Rmd,
    Stor,
    Syst,
    Type,
    User,
    Unrecognized,
}

/// What a verb takes after it.
#[derive(Clone, Copy, Debug, PartialEq, Eq, Structural)]
pub enum ArgShape {
    /// Nothing; any text after the verb is ignored.
    NoArgument,
    /// A path that may be absent.
    OptionalText,
    /// Text that must be present.
    MandatoryText,
    /// The six-field address and port of `PORT`.
    PortAddress,
    /// The one-letter transfer type of `TYPE`.
    TransferCode,
    /// The verb is not in the table.
    Unrecognized,
}

/// The verb that an upper-cased verb token names.
pub open spec fn verb_of(u: Seq<u8>) -> Verb {
    if u == seq![65u8, 85, 84, 72] {
        Verb::Auth
    } else if u == seq![67u8, 68, 85, 80] {
        Verb::CdUp
    } else if u == seq![67u8, 87, 68] {
        Verb::Cwd
    } else if u == seq![76u8, 73, 83, 84] {
        Verb::List
    } else if u == seq![77u8, 75, 68] {
        Verb::Mkd
    } else if u == seq![78u8, 79, 79, 80] {
        Verb::NoOp
    } else if u == seq![80u8, 65, 83, 86] {
        Verb::Pasv
    } else if u == seq![80u8, 79, 82, 84] {
        Verb::Port
    } else if u == seq![80u8, 87, 68] {
        Verb::Pwd
    } else if u == seq![81u8, 85, 73, 84] {
        Verb::Quit
    } else if u == seq![82u8, 69, 84, 82] {
        Verb::Retr
    } else if u == seq![82u8, 77, 68] {
        Verb::Rmd
    } else if u == seq![83u8, 84, 79, 82] {
        Verb::Stor
    } else if u == seq![83u8, 89, 83, 84] {
        Verb::Syst
    } else if u == seq![84u8, 89, 80, 69] {
        Verb::Type
    } else if u == seq![85u8, 83, 69, 82] {
        Verb::User
    } else {
        Verb::Unrecognized
    }
}

/// The argument shape of each verb.
pub open spec fn shape_of(v: Verb) -> ArgShape {
    match v {
        Verb::Auth => ArgShape::NoArgument,
        Verb::CdUp => ArgShape::NoArgument,
        Verb::Cwd => ArgShape::MandatoryText,
        Verb::List => ArgShape::OptionalText,
        Verb::Mkd => ArgShape::MandatoryText,
        Verb::NoOp => ArgShape::NoArgument,
        Verb::Pasv => ArgShape::NoArgument,
        Verb::Port => ArgShape::PortAddress,
        Verb::Pwd => ArgShape::NoArgument,
        Verb::Quit => ArgShape::NoArgument,
        Verb::Retr => ArgShape::MandatoryText,
        Verb::Rmd => ArgShape::MandatoryText,
        Verb::Stor => ArgShape::MandatoryText,
        Verb::Syst => ArgShape::NoArgument,
        Verb::Type => ArgShape::TransferCode,
        Verb::User => ArgShape::MandatoryText,
        Verb::Unrecognized => ArgShape::Unrecognized,
    }
}

/// Looks a verb token up in the table, ignoring ASCII case.
pub fn lookup_verb(token: &[u8]) -> (r: Verb)
    ensures
        r == verb_of(upper_seq(token@)),
{
    let u = upper_all(token);
    if bytes_equal(u.as_slice(), &[65u8, 85, 84, 72]) {
        Verb::Auth
    } else if bytes_equal(u.as_slice(), &[67u8, 68, 85, 80]) {
        Verb::CdUp
    } else if bytes_equal(u.as_slice(), &[67u8, 87, 68]) {
        Verb::Cwd
    } else if bytes_equal(u.as_slice(), &[76u8, 73, 83, 84]) {
        Verb::List
    } else if bytes_equal(u.as_slice(), &[77u8, 75, 68]) {
        Verb::Mkd
    } else if bytes_equal(u.as_slice(), &[78u8, 79, 79, 80]) {
        Verb::NoOp
    } else if bytes_equal(u.as_slice(), &[80u8, 65, 83, 86]) {
        Verb::Pasv
    } else if bytes_equal(u.as_slice(), &[80u8, 79, 82, 84]) {
        Verb::Port
    } else if bytes_equal(u.as_slice(), &[80u8, 87, 68]) {
        Verb::Pwd
    } else if bytes_equal(u.as_slice(), &[81u8, 85, 73, 84]) {
        Verb::Quit
    } else if bytes_equal(u.as_slice(), &[82u8, 69, 84, 82]) {
        Verb::Retr
    } else if bytes_equal(u.as_slice(), &[82u8, 77, 68]) {
        Verb::Rmd
    } else if bytes_equal(u.as_slice(), &[83u8, 84, 79, 82]) {
        Verb::Stor
    } else if bytes_equal(u.as_slice(), &[83u8, 89, 83, 84]) {
        Verb::Syst
    } else if bytes_equal(u.as_slice(), &[84u8, 89, 80, 69]) {
        Verb::Type
    } else if bytes_equal(u.as_slice(), &[85u8, 83, 69, 82]) {
        Verb::User
    } else {
        Verb::Unrecognized
    }
}

impl Verb {
    /// The shape of argument that this verb takes.
    pub fn shape(&self) -> (r: ArgShape)
        ensures
            r == shape_of(*self),
    {
        match self {
            Verb::Auth => ArgShape::NoArgument,
            Verb::CdUp => ArgShape::NoArgument,
            Verb::Cwd => ArgShape::MandatoryText,
            Verb::List => ArgShape::OptionalText,
            Verb::Mkd => ArgShape::MandatoryText,
            Verb::NoOp => ArgShape::NoArgument,
            Verb::Pasv => ArgShape::NoArgument,
            Verb::Port => ArgShape::PortAddress,
            Verb::Pwd => ArgShape::NoArgument,
            Verb::Quit => ArgShape::NoArgument,
            Verb::Retr => ArgShape::MandatoryText,
            Verb::Rmd => ArgShape::MandatoryText,
            Verb::Stor => ArgShape::MandatoryText,
            Verb::Syst => ArgShape::NoArgument,
            Verb::Type => ArgShape::TransferCode,
            Verb::User => ArgShape::MandatoryText,
            Verb::Unrecognized => ArgShape::Unrecognized,
        }
    }
}

} // verus!
