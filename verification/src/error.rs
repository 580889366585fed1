//! Error types: failures while talking to the GitHub API, and failures while
//! reading a pull-request reference from the command line.

use vstd::prelude::*;

verus! {

/// An error from the GitHub API layer.
#[derive(Debug)]
pub enum GitHubAPIError {
    CommandFailed(String),
    ApiError(String),
    ParseError(String),
    GhNotFound,
}

/// The human-readable message of a GitHub API error.
pub open spec fn spec_api_error_message(e: GitHubAPIError) -> Seq<char> {
    match e {
        GitHubAPIError::CommandFailed(m) => "Failed to execute gh command: "@ + m@,
        GitHubAPIError::ApiError(m) => "GitHub API error: "@ + m@,
        GitHubAPIError::ParseError(m) => "Failed to parse API response: "@ + m@,
        GitHubAPIError::GhNotFound =>
            "gh CLI not found. Please install it from https://cli.github.com/"@,
    }
}

impl GitHubAPIError {
    /// The error rendered as one line of text.
    pub fn message(&self) -> (r: String)
        ensures
            r@ == spec_api_error_message(*self),
    {
        match self {
            GitHubAPIError::CommandFailed(m) => {
                let mut out = String::new();
                out.append("Failed to execute gh command: ");
                out.append(m.as_str());
                out
            },
            GitHubAPIError::ApiError(m) => {
                let mut out = String::new();
                out.append("GitHub API error: ");
                out.append(m.as_str());
                out
            },
            GitHubAPIError::ParseError(m) => {
                let mut out = String::new();
                out.append("Failed to parse API response: ");
                out.append(m.as_str());
                out
            },
            GitHubAPIError::GhNotFound => {
                String::from_str("gh CLI not found. Please install it from https://cli.github.com/")
            },
        }
    }
}

/// An error while reading a pull-request reference.
#[derive(Debug)]
pub enum ParseError {
    InvalidUrl(String),
    InvalidPrNumber(String),
}

/// The human-readable message of a reference-parsing error.
pub open spec fn spec_parse_error_message(e: ParseError) -> Seq<char> {
    match e {
        ParseError::InvalidUrl(m) => "Cannot parse PR URL: "@ + m@,
        ParseError::InvalidPrNumber(m) => "Invalid PR number: "@ + m@,
    }
}

impl ParseError {
    /// The error rendered as one line of text.
    pub fn message(&self) -> (r: String)
        ensures
            r@ == spec_parse_error_message(*self),
    {
        match self {
            ParseError::InvalidUrl(m) => {
                let mut out = String::new();
                out.append("Cannot parse PR URL: ");
                out.append(m.as_str());
                out
            },
            ParseError::InvalidPrNumber(m) => {
                let mut out = String::new();
                out.append("Invalid PR number: ");
                out.append(m.as_str());
                out
            },
        }
    }
}

} // verus!
