//! Tests for the comment and check models and their derived views.

use chrono::TimeZone;
use chrono::Utc;
use pr_comments::models::CheckConclusion;
use pr_comments::models::CheckStatus;
use pr_comments::models::CheckType;
use pr_comments::models::ChecksReport;
use pr_comments::models::PRComment;
use pr_comments::models::RollupState;

fn ts(y: i32, mo: u32, d: u32, h: u32, mi: u32, s: u32) -> i64 {
    Utc.with_ymd_and_hms(y, mo, d, h, mi, s).unwrap().timestamp_millis()
}

fn create_test_comment() -> PRComment {
    PRComment::new(
        1,
        Some("PRRC_kwDOtest123".to_string()),
        "src/main.rs".to_string(),
        Some(42),
        None,
        "testuser".to_string(),
        "Test comment".to_string(),
        ts(2024, 1, 15, 10, 30, 0),
        ts(2024, 1, 15, 10, 30, 0),
        "@@ -10,5 +10,5 @@\n line1\n line2\n line3".to_string(),
        "https://github.com/owner/repo/pull/1#discussion_r1".to_string(),
    )
}

#[test]
fn test_comment_instantiation() {
    let comment = create_test_comment();
    assert_eq!(comment.id, 1);
    assert_eq!(comment.file_path, "src/main.rs");
    assert_eq!(comment.line_number, Some(42));
    assert_eq!(comment.author, "testuser");
}

#[test]
fn test_get_line_info_single_line() {
    let comment = create_test_comment();
    assert_eq!(comment.get_line_info(), "line 42");
}

#[test]
fn test_get_line_info_line_range() {
    let mut comment = create_test_comment();
    comment.line_number = Some(20);
    comment.start_line = Some(10);
    assert_eq!(comment.get_line_info(), "lines 10-20");
}

#[test]
fn test_get_line_info_same_start_end() {
    let mut comment = create_test_comment();
    comment.line_number = Some(10);
    comment.start_line = Some(10);
    assert_eq!(comment.get_line_info(), "line 10");
}

#[test]
fn test_get_line_info_no_line() {
    let mut comment = create_test_comment();
    comment.line_number = None;
    comment.start_line = None;
    assert_eq!(comment.get_line_info(), "line unknown");
}

#[test]
fn test_get_code_snippet_removes_header() {
    let comment = create_test_comment();
    let snippet = comment.get_code_snippet(10);
    assert!(!snippet.contains("@@"));
    assert!(snippet.contains("line1"));
}

#[test]
fn test_get_code_snippet_truncates() {
    let mut comment = create_test_comment();
    comment.diff_hunk =
        "@@ -1,10 +1,10 @@\nline1\nline2\nline3\nline4\nline5\nline6\nline7\nline8\nline9\nline10"
            .to_string();
    let snippet = comment.get_code_snippet(3);
    let lines: Vec<&str> = snippet.lines().collect();
    assert_eq!(lines.len(), 3);
    assert!(snippet.contains("line8"));
    assert!(snippet.contains("line9"));
    assert!(snippet.contains("line10"));
}

#[test]
fn test_get_code_snippet_empty_diff() {
    let mut comment = create_test_comment();
    comment.diff_hunk = String::new();
    assert_eq!(comment.get_code_snippet(10), "");
}

#[test]
fn test_get_line_info_only_start_line() {
    let mut comment = create_test_comment();
    comment.line_number = None;
    comment.start_line = Some(15);
    assert_eq!(comment.get_line_info(), "line 15");
}

#[test]
fn test_get_code_snippet_only_header() {
    let mut comment = create_test_comment();
    comment.diff_hunk = "@@ -10,5 +10,5 @@".to_string();
    assert_eq!(comment.get_code_snippet(10), "");
}

fn create_test_check(name: &str, conclusion: CheckConclusion, required: bool) -> CheckStatus {
    CheckStatus {
        name: name.to_string(),
        conclusion,
        required,
        description: None,
        details_url: None,
        started_at: None,
        completed_at: None,
        check_type: CheckType::CheckRun,
        workflow_name: None,
        app_name: None,
    }
}

fn create_test_report() -> ChecksReport {
    ChecksReport {
        pr_title: Some("Test PR".to_string()),
        pr_url: Some("https://github.com/owner/repo/pull/1".to_string()),
        rollup_state: RollupState::Failure,
        checks: vec![
            create_test_check("build", CheckConclusion::Success, true),
            create_test_check("lint", CheckConclusion::Failure, true),
            create_test_check("coverage", CheckConclusion::Success, false),
            create_test_check("optional-lint", CheckConclusion::Failure, false),
            create_test_check("deploy", CheckConclusion::Pending, false),
            create_test_check("docs", CheckConclusion::Skipped, false),
            create_test_check("neutral-check", CheckConclusion::Neutral, false),
        ],
    }
}

#[test]
fn test_check_conclusion_display_icon() {
    assert_eq!(CheckConclusion::Success.display_icon(), "PASS");
    assert_eq!(CheckConclusion::Failure.display_icon(), "FAIL");
    assert_eq!(CheckConclusion::Pending.display_icon(), "PENDING");
    assert_eq!(CheckConclusion::Skipped.display_icon(), "SKIP");
    assert_eq!(CheckConclusion::Cancelled.display_icon(), "CANCELLED");
    assert_eq!(CheckConclusion::TimedOut.display_icon(), "TIMED_OUT");
    assert_eq!(CheckConclusion::ActionRequired.display_icon(), "ACTION_REQUIRED");
    assert_eq!(CheckConclusion::Neutral.display_icon(), "NEUTRAL");
    assert_eq!(CheckConclusion::Stale.display_icon(), "STALE");
    assert_eq!(CheckConclusion::Unknown.display_icon(), "UNKNOWN");
}

#[test]
fn test_check_conclusion_is_failure() {
    assert!(CheckConclusion::Failure.is_failure());
    assert!(CheckConclusion::TimedOut.is_failure());
    assert!(CheckConclusion::ActionRequired.is_failure());
    assert!(CheckConclusion::Cancelled.is_failure());
    assert!(!CheckConclusion::Success.is_failure());
    assert!(!CheckConclusion::Pending.is_failure());
    assert!(!CheckConclusion::Skipped.is_failure());
    assert!(!CheckConclusion::Neutral.is_failure());
    assert!(!CheckConclusion::Stale.is_failure());
    assert!(!CheckConclusion::Unknown.is_failure());
}

#[test]
fn test_check_conclusion_display_trait() {
    assert_eq!(CheckConclusion::Success.display_icon(), "PASS");
    assert_eq!(CheckConclusion::Failure.display_icon(), "FAIL");
}

#[test]
fn test_rollup_state_display() {
    assert_eq!(RollupState::Success.label(), "SUCCESS");
    assert_eq!(RollupState::Failure.label(), "FAILURE");
    assert_eq!(RollupState::Pending.label(), "PENDING");
    assert_eq!(RollupState::Error.label(), "ERROR");
    assert_eq!(RollupState::Expected.label(), "EXPECTED");
    assert_eq!(RollupState::Unknown.label(), "UNKNOWN");
}

#[test]
fn test_checks_report_failed_required() {
    let report = create_test_report();
    let failed_req = report.failed_required();
    assert_eq!(failed_req.len(), 1);
    assert_eq!(failed_req[0].name, "lint");
}

#[test]
fn test_checks_report_failed_optional() {
    let report = create_test_report();
    let failed_opt = report.failed_optional();
    assert_eq!(failed_opt.len(), 1);
    assert_eq!(failed_opt[0].name, "optional-lint");
}

#[test]
fn test_checks_report_passed_required() {
    let report = create_test_report();
    let passed_req = report.passed_required();
    assert_eq!(passed_req.len(), 1);
    assert_eq!(passed_req[0].name, "build");
}

#[test]
fn test_checks_report_passed_optional() {
    let report = create_test_report();
    let passed_opt = report.passed_optional();
    assert_eq!(passed_opt.len(), 1);
    assert_eq!(passed_opt[0].name, "coverage");
}

#[test]
fn test_checks_report_pending() {
    let report = create_test_report();
    let pending = report.pending();
    assert_eq!(pending.len(), 1);
    assert_eq!(pending[0].name, "deploy");
}

#[test]
fn test_checks_report_skipped() {
    let report = create_test_report();
    let skipped = report.skipped();
    assert_eq!(skipped.len(), 2);
    let names: Vec<&str> = skipped.iter().map(|c| c.name.as_str()).collect();
    assert!(names.contains(&"docs"));
    assert!(names.contains(&"neutral-check"));
}

#[test]
fn test_checks_report_summary_counts() {
    let report = create_test_report();
    let summary = report.summary_counts();
    assert_eq!(summary.passed, 2);
    assert_eq!(summary.failed, 2);
    assert_eq!(summary.pending, 1);
    assert_eq!(summary.skipped, 2);
    assert_eq!(summary.total, 7);
}

#[test]
fn test_checks_report_empty() {
    let report = ChecksReport {
        pr_title: None,
        pr_url: None,
        rollup_state: RollupState::Success,
        checks: vec![],
    };
    assert!(report.failed_required().is_empty());
    assert!(report.failed_optional().is_empty());
    assert!(report.passed_required().is_empty());
    assert!(report.passed_optional().is_empty());
    assert!(report.pending().is_empty());
    assert!(report.skipped().is_empty());
    let summary = report.summary_counts();
    assert_eq!(summary.total, 0);
}

#[test]
fn test_check_status_with_all_fields() {
    let check = CheckStatus {
        name: "CI".to_string(),
        conclusion: CheckConclusion::Success,
        required: true,
        description: Some("Build passed".to_string()),
        details_url: Some("https://ci.example.com/1".to_string()),
        started_at: Some(ts(2024, 1, 15, 10, 0, 0)),
        completed_at: Some(ts(2024, 1, 15, 10, 5, 0)),
        check_type: CheckType::StatusContext,
        workflow_name: Some("main.yml".to_string()),
        app_name: Some("github-actions".to_string()),
    };
    assert_eq!(check.name, "CI");
    assert_eq!(check.check_type, CheckType::StatusContext);
    assert!(check.description.is_some());
    assert!(check.workflow_name.is_some());
    assert!(check.app_name.is_some());
}

#[test]
fn test_check_conclusion_serialization() {
    let conclusion = CheckConclusion::ActionRequired;
    assert_eq!(conclusion.code(), "ACTION_REQUIRED");
    let decoded = CheckConclusion::from_code("ACTION_REQUIRED");
    assert_eq!(decoded, Some(CheckConclusion::ActionRequired));
}

#[test]
fn test_rollup_state_serialization() {
    let state = RollupState::Expected;
    assert_eq!(state.label(), "EXPECTED");
    let decoded = RollupState::from_label("EXPECTED");
    assert_eq!(decoded, RollupState::Expected);
}

#[test]
fn test_summary_counts_six_checks() {
    let report = ChecksReport {
        pr_title: None,
        pr_url: None,
        rollup_state: RollupState::Failure,
        checks: vec![
            create_test_check("a", CheckConclusion::Success, true),
            create_test_check("b", CheckConclusion::Success, false),
            create_test_check("c", CheckConclusion::Failure, true),
            create_test_check("d", CheckConclusion::Failure, false),
            create_test_check("e", CheckConclusion::Pending, false),
            create_test_check("f", CheckConclusion::Skipped, false),
        ],
    };
    let summary = report.summary_counts();
    assert_eq!(summary.passed, 2);
    assert_eq!(summary.failed, 2);
    assert_eq!(summary.pending, 1);
    assert_eq!(summary.skipped, 1);
    assert_eq!(summary.total, 6);
    assert_eq!(report.failed_required().len(), 1);
    assert_eq!(report.failed_required()[0].name, "c");
    assert_eq!(report.failed_optional().len(), 1);
    assert_eq!(report.failed_optional()[0].name, "d");
}
