use vstd::prelude::*;

verus! {

#[verifier::external_type_specification]
#[verifier::external_body]
pub struct ExIoError(std::io::Error);

#[derive(Debug)]
pub enum Error {
    Parse(ParseError),
    Args(ArgsError),
}

#[derive(Debug)]
pub enum ParseError {
    Io { source: std::io::Error },
    InvalidInput { explanation: String },
}

#[derive(Debug)]
pub enum ArgsError {
    Io { source: std::io::Error },
    NoSuchParser,
    NoSuchWriter,
}

impl Error {
    /// The text shown to a user for this error.
    pub fn message(&self) -> (r: String)
        ensures
            self is Parse ==> r@ == "error during parsing"@,
            self is Args ==> r@ == "error while processing arguments"@,
    {
        match self {
            Error::Parse(_) => String::from_str("error during parsing"),
            Error::Args(_) => String::from_str("error while processing arguments"),
        }
    }
}

impl ParseError {
    /// The text shown to a user for this error.
    pub fn message(&self) -> (r: String)
        ensures
            self is Io ==> r@ == "input/output error"@,
            self is InvalidInput ==> r@ == "invalid input ("@ + self->explanation@ + ")"@,
    {
        match self {
            ParseError::Io { .. } => String::from_str("input/output error"),
            ParseError::InvalidInput { explanation } => {
                let r = String::from_str("invalid input (");
                let r = r.concat(explanation.as_str());
                r.concat(")")
            },
        }
    }
}

impl ArgsError {
    /// The text shown to a user for this error.
    pub fn message(&self) -> (r: String)
        ensures
            self is Io ==> r@ == "input/output error"@,
            self is NoSuchParser ==> r@ == "there is no parser corresponding to the specified format"@,
            self is NoSuchWriter ==> r@ == "there is no writer corresponding to the specified format"@,
    {
        match self {
            ArgsError::Io { .. } => String::from_str("input/output error"),
            ArgsError::NoSuchParser => String::from_str(
                "there is no parser corresponding to the specified format",
            ),
            ArgsError::NoSuchWriter => String::from_str(
                "there is no writer corresponding to the specified format",
            ),
        }
    }
}

impl From<std::io::Error> for ArgsError {
    fn from(err: std::io::Error) -> (r: ArgsError)
        ensures
            r == (ArgsError::Io { source: err }),
    {
        ArgsError::Io { source: err }
    }
}

impl vstd::std_specs::convert::FromSpecImpl<std::io::Error> for ArgsError {
    open spec fn obeys_from_spec() -> bool {
        true
    }

    open spec fn from_spec(err: std::io::Error) -> ArgsError {
        ArgsError::Io { source: err }
    }
}

} // verus!
