//! Decoder for FTP control-channel command lines.
pub mod bytes;
pub mod command;
pub mod error;
pub mod port;
pub mod text;
pub mod tokenize;
pub mod verb;

pub use bytes::{bytes_equal, is_ws, upper, upper_all};
pub use tokenize::split_line;
pub use error::DecodeError;
pub use port::{parse_octet, parse_port_arg, PRIVILEGED_PORT_MAX};
pub use verb::{lookup_verb, ArgShape, Verb};
pub use command::{parse_type_code, Command, CommandView, TransferType};
