pub mod constants;
pub mod converter;
pub mod errors;
pub mod events;
pub mod parsers;

pub use converter::Conf as ConverterConf;
pub use errors::{ArgsError, Error, ParseError};
pub use events::{DocEvent, ElementEvent, ElementStart, ElementStartVariant};
