//! Error taxonomy of the pipeline: remote failures, tokenizer failures,
//! model-query failures, and the catch-all for everything else.
use vstd::prelude::*;

verus! {

/// A failure of the tokenizer adapter.
#[derive(Debug, PartialEq, Eq)]
pub enum TokenizerError {
    /// The tokenizer model file does not exist at the given path.
    FileNotFound(String),
    /// The tokenizer model file exists but could not be loaded.
    LoadError(String),
    /// Tokenizing a text failed.
    TokenizationError(String),
}

impl TokenizerError {
    /// The human-readable description of this failure.
    pub open spec fn message_spec(&self) -> Seq<char> {
        match self {
            TokenizerError::FileNotFound(p) => "Tokenizer file not found: "@ + p@,
            TokenizerError::LoadError(m) => "Failed to load tokenizer: "@ + m@,
            TokenizerError::TokenizationError(m) => "Tokenization failed: "@ + m@,
        }
    }

    /// Render the failure for display.
    pub fn message(&self) -> (r: String)
        ensures
            r@ == self.message_spec(),
    {
        match self {
            TokenizerError::FileNotFound(p) => {
                let mut m = "Tokenizer file not found: ".to_owned();
                m.append(p.as_str());
                m
            },
            TokenizerError::LoadError(e) => {
                let mut m = "Failed to load tokenizer: ".to_owned();
                m.append(e.as_str());
                m
            },
            TokenizerError::TokenizationError(e) => {
                let mut m = "Tokenization failed: ".to_owned();
                m.append(e.as_str());
                m
            },
        }
    }
}

/// A failure of the dredging pipeline as a whole.
#[derive(Debug, PartialEq, Eq)]
pub enum DredgerError {
    /// The hosting API refused or failed a request; carries the status and
    /// response body.
    GithubClientError(String),
    /// The model-serving endpoint refused or failed a request.
    OllamaClientError(String),
    /// The tokenizer adapter failed; fatal for a tree build.
    TokenizerError(TokenizerError),
    /// Anything else.
    OtherError(String),
}

impl DredgerError {
    /// The human-readable description of this failure.
    pub open spec fn message_spec(&self) -> Seq<char> {
        match self {
            DredgerError::GithubClientError(m) => "GitHub Client Error: "@ + m@,
            DredgerError::OllamaClientError(m) => "Ollama Client Error: "@ + m@,
            DredgerError::TokenizerError(e) => "Tokenizer Error: "@ + e.message_spec(),
            DredgerError::OtherError(m) => "Other Error: "@ + m@,
        }
    }

    /// Render the failure for display.
    pub fn message(&self) -> (r: String)
        ensures
            r@ == self.message_spec(),
    {
        match self {
            DredgerError::GithubClientError(m) => {
                let mut s = "GitHub Client Error: ".to_owned();
                s.append(m.as_str());
                s
            },
            DredgerError::OllamaClientError(m) => {
                let mut s = "Ollama Client Error: ".to_owned();
                s.append(m.as_str());
                s
            },
            DredgerError::TokenizerError(e) => {
                let mut s = "Tokenizer Error: ".to_owned();
                let inner = e.message();
                s.append(inner.as_str());
                s
            },
            DredgerError::OtherError(m) => {
                let mut s = "Other Error: ".to_owned();
                s.append(m.as_str());
                s
            },
        }
    }
}

} // verus!
