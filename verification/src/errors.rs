//! The failures the surrounding program distinguishes. The ledger core
//! itself never fails: an inapplicable transaction is a silent no-op.

use vstd::prelude::*;
use vstd::string::StringExecFns;

verus! {

/// What can go wrong around the ledger: a missing command-line argument,
/// a row that cannot be decoded, or an unreadable input source.
#[derive(Debug)]
pub enum PaymentError {
    /// Indicates an invalid command-line argument.
    InvalidCliArgument(String),
    /// Indicates an error in decoding a delimited-text row.
    CsvParseError(String),
    /// Indicates an error in opening or reading the input file.
    FileError(String),
}

impl PaymentError {
    /// The text [`PaymentError::message`] renders: a category label
    /// followed by the detail carried in the variant.
    pub open spec fn message_spec(&self) -> Seq<char> {
        match self {
            PaymentError::InvalidCliArgument(msg) => "Invalid cli argument: "@ + msg@,
            PaymentError::CsvParseError(msg) => "CSV parse error: "@ + msg@,
            PaymentError::FileError(msg) => "File error: "@ + msg@,
        }
    }

    /// Render the error as one line of text.
    pub fn message(&self) -> (r: String)
        ensures
            r@ == self.message_spec(),
    {
        match self {
            PaymentError::InvalidCliArgument(msg) => {
                let mut s = "Invalid cli argument: ".to_owned();
                s.append(msg.as_str());
                s
            },
            PaymentError::CsvParseError(msg) => {
                let mut s = "CSV parse error: ".to_owned();
                s.append(msg.as_str());
                s
            },
            PaymentError::FileError(msg) => {
                let mut s = "File error: ".to_owned();
                s.append(msg.as_str());
                s
            },
        }
    }
}

} // verus!
