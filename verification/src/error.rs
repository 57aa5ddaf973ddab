//! What can go wrong while tiles are read and the index is written.

use vstd::prelude::*;
use vstd::string::*;

verus! {

/// `tantivy::TantivyError`, carried through as it is; nothing is claimed of it.
#[verifier::external_type_specification]
#[verifier::external_body]
pub struct ExTantivyError(tantivy::TantivyError);

/// `tantivy::query::QueryParserError`, carried through as it is; nothing is
/// claimed of it.
#[verifier::external_type_specification]
#[verifier::external_body]
pub struct ExQueryParserError(tantivy::query::QueryParserError);

/// `tantivy::directory::error::OpenDirectoryError`, carried through as it is;
/// nothing is claimed of it.
#[verifier::external_type_specification]
#[verifier::external_body]
pub struct ExOpenDirectoryError(tantivy::directory::error::OpenDirectoryError);

/// `regex::Error`, carried through as it is; nothing is claimed of it.
#[verifier::external_type_specification]
#[verifier::external_body]
pub struct ExRegexError(regex::Error);

/// `std::io::Error`, carried through as it is; nothing is claimed of it.
#[verifier::external_type_specification]
#[verifier::external_body]
pub struct ExIoError(std::io::Error);

/// `mvt_reader::error::ParserError`, carried through as it is; nothing is
/// claimed of it.
#[verifier::external_type_specification]
#[verifier::external_body]
pub struct ExParserError(mvt_reader::error::ParserError);

/// An error of the ingestion, or of one of the engines it works with.
#[derive(Debug)]
pub enum AirmailError {
    /// The index engine failed.
    Tantivy(tantivy::TantivyError),
    /// The index engine could not read a query.
    QueryParser(tantivy::query::QueryParserError),
    /// A vector tile could not be decoded; the decoder's message.
    Mvt(String),
    /// A pattern of the road rules is no regular expression.
    Regex(regex::Error),
    /// The storage of the index could not be opened or used.
    Io(std::io::Error),
    /// A tile was submitted while no write transaction was open.
    InvalidIngestionState,
}

/// What a decoder's error displays: a function of the error alone, written out
/// by the decoder crate variant by variant.
pub uninterp spec fn parser_error_text(err: mvt_reader::error::ParserError) -> Seq<char>;

/// What an error of the query parser displays: a function of the error alone.
pub uninterp spec fn query_parser_error_text(err: tantivy::query::QueryParserError) -> Seq<char>;

/// What an error of a regular expression displays: its syntax message, or a
/// sentence with the size limit that was exceeded.
pub uninterp spec fn regex_error_text(err: regex::Error) -> Seq<char>;

/// The I/O error of kind `Other` that carries `message`.
pub uninterp spec fn other_error(message: Seq<char>) -> std::io::Error;

/// `text` is what the error of opening a directory displayed when it was
/// asked. Two of its variants display an error of the operating system, so
/// this is a relation: asked again, the error may display another text.
pub uninterp spec fn directory_error_shows(
    err: tantivy::directory::error::OpenDirectoryError,
    text: Seq<char>,
) -> bool;

/// `text` is what the error of the index engine displayed when it was asked.
/// It may hold an error of the operating system, so this is a relation.
pub uninterp spec fn tantivy_error_shows(err: tantivy::TantivyError, text: Seq<char>) -> bool;

/// `text` is what the I/O error displayed when it was asked. The text may
/// come from the operating system, so this is a relation.
pub uninterp spec fn io_error_shows(err: std::io::Error, text: Seq<char>) -> bool;

/// `ToString::to_string` on a `mvt_reader::error::ParserError`: the message
/// that the error displays, which depends on the error alone.
#[verifier::external_body]
fn parser_error_message(err: &mvt_reader::error::ParserError) -> (message: String)
    ensures
        message@ == parser_error_text(*err),
{
    err.to_string()
}

/// `ToString::to_string` on a `tantivy::directory::error::OpenDirectoryError`:
/// the message that the error displays. All that is claimed is that the
/// result is a text that this error displayed.
#[verifier::external_body]
fn open_directory_error_message(err: &tantivy::directory::error::OpenDirectoryError) -> (message:
    String)
    ensures
        directory_error_shows(*err, message@),
{
    err.to_string()
}

/// `std::io::Error::new` with the kind `Other` and the message as payload:
/// the error depends on the message alone.
#[verifier::external_body]
fn other_io_error(message: String) -> (err: std::io::Error)
    ensures
        err == other_error(message@),
{
    std::io::Error::new(std::io::ErrorKind::Other, message)
}

/// `ToString::to_string` on a `tantivy::TantivyError`: the message that the
/// error displays. All that is claimed is that the result is a text that
/// this error displayed.
#[verifier::external_body]
fn tantivy_error_message(err: &tantivy::TantivyError) -> (message: String)
    ensures
        tantivy_error_shows(*err, message@),
{
    err.to_string()
}

/// `ToString::to_string` on a `tantivy::query::QueryParserError`: the message
/// that the error displays, which depends on the error alone.
#[verifier::external_body]
fn query_parser_error_message(err: &tantivy::query::QueryParserError) -> (message: String)
    ensures
        message@ == query_parser_error_text(*err),
{
    err.to_string()
}

/// `ToString::to_string` on a `regex::Error`: the message that the error
/// displays, which depends on the error alone.
#[verifier::external_body]
fn regex_error_message(err: &regex::Error) -> (message: String)
    ensures
        message@ == regex_error_text(*err),
{
    err.to_string()
}

/// `ToString::to_string` on a `std::io::Error`: the message that the error
/// displays. All that is claimed is that the result is a text that this
/// error displayed.
#[verifier::external_body]
fn io_error_message(err: &std::io::Error) -> (message: String)
    ensures
        io_error_shows(*err, message@),
{
    err.to_string()
}

impl AirmailError {
    /// The message of the error, given what its cause displays. The two
    /// errors that have no cause of their own do not use `detail`.
    pub open spec fn message_of(self, detail: Seq<char>) -> Seq<char> {
        match self {
            AirmailError::Tantivy(_) => "Tantivy error: "@ + detail,
            AirmailError::QueryParser(_) => "Query parser error: "@ + detail,
            AirmailError::Mvt(text) => "MVT reader parser error: "@ + text@,
            AirmailError::Regex(_) => "Regex error: "@ + detail,
            AirmailError::Io(_) => "IO error: "@ + detail,
            AirmailError::InvalidIngestionState =>
                "Please call begin_ingestion to initialize the writer transaction prior to ingesting tiles"@,
        }
    }

    /// The error of a tile that could not be decoded, given the message that
    /// the decoder's error displays.
    pub fn from_decoder_message(message: String) -> (r: AirmailError)
        ensures
            r == AirmailError::Mvt(message),
    {
        AirmailError::Mvt(message)
    }

    /// A decoder's error, kept by the message that it displays.
    pub fn from_parser_error(err: mvt_reader::error::ParserError) -> (r: AirmailError)
        ensures
            r matches AirmailError::Mvt(m) && m@ == parser_error_text(err),
    {
        Self::from_decoder_message(parser_error_message(&err))
    }

    /// The error of an index directory that could not be opened, given the
    /// message that the directory's error displays: an I/O error of kind
    /// `Other` with that message.
    pub fn from_directory_message(message: String) -> (r: AirmailError)
        ensures
            r == AirmailError::Io(other_error(message@)),
    {
        AirmailError::Io(other_io_error(message))
    }

    /// An error of opening the index directory, kept as an I/O error of kind
    /// `Other` with a message that the directory's error displayed.
    pub fn from_open_directory_error(err: tantivy::directory::error::OpenDirectoryError) -> (r:
        AirmailError)
        ensures
            exists|message: Seq<char>| #[trigger]
                directory_error_shows(err, message) && r == AirmailError::Io(
                    other_error(message),
                ),
    {
        Self::from_directory_message(open_directory_error_message(&err))
    }

    /// The message of the error, given what its cause displays.
    pub fn message_with(&self, detail: &str) -> (r: String)
        ensures
            r@ == self.message_of(detail@),
    {
        match self {
            AirmailError::Tantivy(_) => {
                let mut text = String::from_str("Tantivy error: ");
                text.append(detail);
                text
            },
            AirmailError::QueryParser(_) => {
                let mut text = String::from_str("Query parser error: ");
                text.append(detail);
                text
            },
            AirmailError::Mvt(message) => {
                let mut text = String::from_str("MVT reader parser error: ");
                text.append(message.as_str());
                text
            },
            AirmailError::Regex(_) => {
                let mut text = String::from_str("Regex error: ");
                text.append(detail);
                text
            },
            AirmailError::Io(_) => {
                let mut text = String::from_str("IO error: ");
                text.append(detail);
                text
            },
            AirmailError::InvalidIngestionState => String::from_str(
                "Please call begin_ingestion to initialize the writer transaction prior to ingesting tiles",
            ),
        }
    }

    /// The message of the error: a few words on its kind, then what its
    /// cause displays.
    ///
    /// What the query parser, a regular expression and the decoder display
    /// depends on the error alone. What the index engine and an I/O error
    /// display may come from the operating system: there the message ends in
    /// a text that the cause displayed.
    pub fn message(&self) -> (r: String)
        ensures
            match *self {
                AirmailError::Tantivy(e) => exists|detail: Seq<char>| #[trigger]
                    tantivy_error_shows(e, detail) && r@ == self.message_of(detail),
                AirmailError::QueryParser(e) => r@ == self.message_of(query_parser_error_text(e)),
                AirmailError::Mvt(_) => r@ == self.message_of(Seq::empty()),
                AirmailError::Regex(e) => r@ == self.message_of(regex_error_text(e)),
                AirmailError::Io(e) => exists|detail: Seq<char>| #[trigger]
                    io_error_shows(e, detail) && r@ == self.message_of(detail),
                AirmailError::InvalidIngestionState => r@ == self.message_of(Seq::empty()),
            },
    {
        match self {
            AirmailError::Tantivy(e) => {
                let detail = tantivy_error_message(e);
                self.message_with(detail.as_str())
            },
            AirmailError::QueryParser(e) => {
                let detail = query_parser_error_message(e);
                self.message_with(detail.as_str())
            },
            AirmailError::Mvt(_) => self.message_with(""),
            AirmailError::Regex(e) => {
                let detail = regex_error_message(e);
                self.message_with(detail.as_str())
            },
            AirmailError::Io(e) => {
                let detail = io_error_message(e);
                self.message_with(detail.as_str())
            },
            AirmailError::InvalidIngestionState => self.message_with(""),
        }
    }
}

} // verus!
