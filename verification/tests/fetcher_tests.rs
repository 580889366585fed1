//! Tests for error messages and raw output decoding.

use pr_comments::error::GitHubAPIError;
use pr_comments::fetcher::parse_utf8_output;

#[test]
fn test_error_display_messages() {
    let cmd_err = GitHubAPIError::CommandFailed("test error".to_string());
    assert!(cmd_err.message().contains("test error"));

    let api_err = GitHubAPIError::ApiError("api test".to_string());
    assert!(api_err.message().contains("api test"));

    let parse_err = GitHubAPIError::ParseError("parse test".to_string());
    assert!(parse_err.message().contains("parse test"));

    let gh_err = GitHubAPIError::GhNotFound;
    assert!(gh_err.message().contains("gh CLI not found"));
}

#[test]
fn test_parse_utf8_output_success() {
    let bytes = b"hello world".to_vec();
    let result = parse_utf8_output(bytes);
    assert!(result.is_ok());
    assert_eq!(result.unwrap(), "hello world");
}

#[test]
fn test_parse_utf8_output_invalid() {
    let bytes = vec![0xff, 0xfe, 0x00, 0x01];
    let result = parse_utf8_output(bytes);
    assert!(result.is_err());
    assert!(matches!(result.unwrap_err(), GitHubAPIError::ParseError(_)));
}

#[test]
fn test_parse_error_messages() {
    let url_err = pr_comments::error::ParseError::InvalidUrl("nope".to_string());
    assert_eq!(url_err.message(), "Cannot parse PR URL: nope");
    let num_err = pr_comments::error::ParseError::InvalidPrNumber("abc".to_string());
    assert_eq!(num_err.message(), "Invalid PR number: abc");
}
