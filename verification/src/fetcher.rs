//! The seam toward the external `gh` client. The client itself lives outside
//! this library; here stand the trait it implements and the decoding of its
//! raw output.

use vstd::prelude::*;
use crate::error::GitHubAPIError;

verus! {

/// A runner of remote queries: the library's view of the `gh` command-line
/// client. Implementations live with the caller; a test double is another.
pub trait CommandRunner {
    /// Fetches one REST endpoint, returning its raw body.
    fn run(&self, endpoint: &str) -> Result<String, GitHubAPIError>;

    /// Runs one GraphQL query with the given variables, returning the raw
    /// response body.
    fn run_graphql(&self, query: &str, variables: &Vec<(String, String)>) -> Result<
        String,
        GitHubAPIError,
    >;
}

/// Relies on `String::from_utf8`: it returns the decoded string exactly when
/// the bytes are valid UTF-8.
#[verifier::external_body]
fn string_from_utf8(bytes: Vec<u8>) -> (r: Option<String>)
    ensures
        r is Some <==> vstd::utf8::valid_utf8(bytes@),
        r is Some ==> r->0@ == vstd::utf8::decode_utf8(bytes@),
{
    String::from_utf8(bytes).ok()
}

/// Decodes raw command output as UTF-8 text; invalid bytes are a parse
/// error.
pub fn parse_utf8_output(bytes: Vec<u8>) -> (r: Result<String, GitHubAPIError>)
    ensures
        r is Ok <==> vstd::utf8::valid_utf8(bytes@),
        r is Ok ==> r->Ok_0@ == vstd::utf8::decode_utf8(bytes@),
        r is Err ==> (r->Err_0 matches GitHubAPIError::ParseError(m)
            && m@ == "Invalid UTF-8 in response"@),
{
    match string_from_utf8(bytes) {
        Some(s) => Ok(s),
        None => Err(GitHubAPIError::ParseError(String::from_str("Invalid UTF-8 in response"))),
    }
}

} // verus!
