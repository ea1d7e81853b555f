//! Why a resource cannot be had.
use crate::text;
use vstd::prelude::*;
use vstd::string::*;

verus! {

broadcast use vstd::string::group_string_axioms;

/// Why a resource cannot be had.
#[derive(Debug, PartialEq, Eq)]
pub enum ResourceBridgeError {
    NotFound(String),
    NotUtf8(String),
    InvalidToken(String),
    InvalidRange { offset: u64, length: u64 },
    Io(String),
}

impl ResourceBridgeError {
    /// The error in words.
    pub open spec fn words(self) -> Seq<char> {
        match self {
            ResourceBridgeError::NotFound(id) => "resource not found: "@ + id@,
            ResourceBridgeError::NotUtf8(id) => "resource is not utf-8 text: "@ + id@,
            ResourceBridgeError::InvalidToken(token) =>
                "resource token not found or expired: "@ + token@,
            ResourceBridgeError::InvalidRange { offset, length } => "invalid resource range: offset "@
                + text::decimal(offset as nat) + " exceeds length "@ + text::decimal(length as nat),
            ResourceBridgeError::Io(message) => "io error: "@ + message@,
        }
    }

    /// The error in words.
    pub fn message(&self) -> (words: String)
        ensures
            words@ == self.words(),
    {
        match self {
            ResourceBridgeError::NotFound(id) => text::join2("resource not found: ", id.as_str()),
            ResourceBridgeError::NotUtf8(id) => text::join2(
                "resource is not utf-8 text: ",
                id.as_str(),
            ),
            ResourceBridgeError::InvalidToken(token) => text::join2(
                "resource token not found or expired: ",
                token.as_str(),
            ),
            ResourceBridgeError::InvalidRange { offset, length } => text::join4(
                "invalid resource range: offset ",
                text::decimal_text(*offset).as_str(),
                " exceeds length ",
                text::decimal_text(*length).as_str(),
            ),
            ResourceBridgeError::Io(message) => text::join2("io error: ", message.as_str()),
        }
    }
}

/// The words of an error say what is wrong and with what.
pub proof fn law_words_say_what_is_wrong(text: String, offset: u64, length: u64)
    ensures
        ResourceBridgeError::NotFound(text).words() == "resource not found: "@ + text@,
        ResourceBridgeError::NotUtf8(text).words() == "resource is not utf-8 text: "@ + text@,
        ResourceBridgeError::InvalidToken(text).words() == "resource token not found or expired: "@
            + text@,
        ResourceBridgeError::Io(text).words() == "io error: "@ + text@,
        (ResourceBridgeError::InvalidRange { offset, length }).words()
            == "invalid resource range: offset "@ + crate::text::decimal(offset as nat)
            + " exceeds length "@ + crate::text::decimal(length as nat),
{
}

} // verus!
