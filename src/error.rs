use vstd::prelude::*;

verus! {

/// The failures the client reports, each with a description.
#[derive(Debug, Clone, PartialEq, Eq)]
pub enum NostratuiError {
    Io(String),
    NostrSdk(String),
    Json(String),
    KeyParsing(String),
    Config(String),
    Network(String),
    Cache(String),
    Anyhow(String),
}

} // verus!
