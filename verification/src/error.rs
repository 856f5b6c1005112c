use vstd::prelude::*;
use vstd::string::StringExecFns;

verus! {

/// quick_xml's error, carried through as it is.
#[verifier::external_type_specification]
#[verifier::external_body]
pub struct ExXmlError(quick_xml::Error);

/// What can go wrong in this library.
#[derive(Debug)]
pub enum ZError {
    /// The document is not well-formed markup.
    Xml(quick_xml::Error),
    /// The language-model server could not be reached or started.
    LlmServer(String),
    /// The language model's answer could not be used.
    LlmResponse(String),
    /// A tool call named an unknown tool or lacked an argument.
    ToolCall(String),
    /// A data source refused a query.
    Database(String),
    /// An analysis step failed.
    Ml(String),
    /// A path or a file is not what the caller said it is.
    Config(String),
}

/// quick_xml's own words for one of its errors, as its `Display` gives
/// them.
#[verifier::external_body]
fn xml_error_text(e: &quick_xml::Error) -> String {
    format!("{}", e)
}

/// The words that say what kind of error this is.
pub open spec fn kind_words(e: ZError) -> Seq<char> {
    match e {
        ZError::Xml(_) => "XML error: "@,
        ZError::LlmServer(_) => "LLM server error: "@,
        ZError::LlmResponse(_) => "LLM response error: "@,
        ZError::ToolCall(_) => "Tool call error: "@,
        ZError::Database(_) => "Database error: "@,
        ZError::Ml(_) => "ML error: "@,
        ZError::Config(_) => "Configuration error: "@,
    }
}

/// The message that the error carries, if it carries one of its own.
pub open spec fn own_words(e: ZError) -> Option<Seq<char>> {
    match e {
        ZError::Xml(_) => None,
        ZError::LlmServer(m) => Some(m@),
        ZError::LlmResponse(m) => Some(m@),
        ZError::ToolCall(m) => Some(m@),
        ZError::Database(m) => Some(m@),
        ZError::Ml(m) => Some(m@),
        ZError::Config(m) => Some(m@),
    }
}

impl ZError {
    /// The error in words: its kind, then its message. For a document
    /// that is not well-formed the message is the tokenizer's.
    pub fn message(&self) -> (s: String)
        ensures
            match own_words(*self) {
                Some(words) => s@ == kind_words(*self) + words,
                None => s@.len() >= kind_words(*self).len() && s@.take(
                    kind_words(*self).len() as int,
                ) == kind_words(*self),
            },
    {
        match self {
            ZError::Xml(e) => {
                let mut out = String::from_str("XML error: ");
                let words = xml_error_text(e);
                out.append(words.as_str());
                assert(out@.take("XML error: "@.len() as int) == "XML error: "@);
                out
            },
            ZError::LlmServer(m) => {
                let mut out = String::from_str("LLM server error: ");
                out.append(m.as_str());
                out
            },
            ZError::LlmResponse(m) => {
                let mut out = String::from_str("LLM response error: ");
                out.append(m.as_str());
                out
            },
            ZError::ToolCall(m) => {
                let mut out = String::from_str("Tool call error: ");
                out.append(m.as_str());
                out
            },
            ZError::Database(m) => {
                let mut out = String::from_str("Database error: ");
                out.append(m.as_str());
                out
            },
            ZError::Ml(m) => {
                let mut out = String::from_str("ML error: ");
                out.append(m.as_str());
                out
            },
            ZError::Config(m) => {
                let mut out = String::from_str("Configuration error: ");
                out.append(m.as_str());
                out
            },
        }
    }
}

} // verus!
