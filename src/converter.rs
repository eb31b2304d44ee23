use crate::errors::ArgsError;
use crate::parsers::xml::common::str_eq;
use vstd::prelude::*;

verus! {

#[verifier::external_type_specification]
#[verifier::external_body]
pub struct ExPathBuf(std::path::PathBuf);

/// What the converter is asked to do: the formats to read and to write, and the file
/// to read.
pub struct Conf {
    input_format: String,
    output_format: String,
    source_file_path: std::path::PathBuf,
}

impl Conf {
    pub closed spec fn spec_input_format(&self) -> Seq<char> {
        self.input_format@
    }

    pub closed spec fn spec_output_format(&self) -> Seq<char> {
        self.output_format@
    }

    pub closed spec fn spec_source_file_path(&self) -> std::path::PathBuf {
        self.source_file_path
    }

    pub fn new(input_format: String, output_format: String, source_file_path: std::path::PathBuf) -> (r: Conf)
        ensures
            r.spec_input_format() == input_format@,
            r.spec_output_format() == output_format@,
            r.spec_source_file_path() == source_file_path,
    {
        Conf { input_format, output_format, source_file_path }
    }

    pub fn input_format(&self) -> (r: &str)
        ensures
            r@ == self.spec_input_format(),
    {
        self.input_format.as_str()
    }

    pub fn output_format(&self) -> (r: &str)
        ensures
            r@ == self.spec_output_format(),
    {
        self.output_format.as_str()
    }

    pub fn source_file_path(&self) -> (r: &std::path::PathBuf)
        ensures
            *r == self.spec_source_file_path(),
    {
        &self.source_file_path
    }
}

/// The formats that can be read.
#[derive(Debug, Clone, Copy, PartialEq, Eq, Structural)]
pub enum InputFormat {
    Xml,
}

/// The formats that can be written.
#[derive(Debug, Clone, Copy, PartialEq, Eq, Structural)]
pub enum OutputFormat {
    Stdout,
}

/// The input format of the given name.
pub fn parser_for(format: &str) -> (r: Result<InputFormat, ArgsError>)
    ensures
        format@ == "xml"@ ==> r == Ok::<InputFormat, ArgsError>(InputFormat::Xml),
        format@ != "xml"@ ==> r matches Err(ArgsError::NoSuchParser),
{
    if str_eq(format, "xml") {
        Ok(InputFormat::Xml)
    } else {
        Err(ArgsError::NoSuchParser)
    }
}

/// The output format of the given name.
pub fn writer_for(format: &str) -> (r: Result<OutputFormat, ArgsError>)
    ensures
        format@ == "stdout"@ ==> r == Ok::<OutputFormat, ArgsError>(OutputFormat::Stdout),
        format@ != "stdout"@ ==> r matches Err(ArgsError::NoSuchWriter),
{
    if str_eq(format, "stdout") {
        Ok(OutputFormat::Stdout)
    } else {
        Err(ArgsError::NoSuchWriter)
    }
}

} // verus!
