//! Tests for JSON normalization, filtering and grouping.

use chrono::TimeZone;
use chrono::Utc;
use pr_comments::jsonval::Json;
use pr_comments::models::CheckConclusion;
use pr_comments::models::CheckType;
use pr_comments::models::PRComment;
use pr_comments::models::RollupState;
use pr_comments::parser::filter_by_author;
use pr_comments::parser::get_most_recent_per_file;
use pr_comments::parser::group_by_file;
use pr_comments::parser::parse_check_conclusion;
use pr_comments::parser::parse_check_node;
use pr_comments::parser::parse_checks_response;
use pr_comments::parser::parse_comment;
use pr_comments::parser::parse_comments;
use pr_comments::parser::parse_datetime;
use pr_comments::parser::parse_review_comment;
use pr_comments::parser::parse_review_comments;
use pr_comments::parser::parse_rollup_state;
use pr_comments::parser::parse_status_state;

fn obj(pairs: Vec<(&str, Json)>) -> Json {
    Json::Obj(pairs.into_iter().map(|(k, v)| (k.to_string(), v)).collect())
}

fn js(v: &str) -> Json {
    Json::Str(v.to_string())
}

fn ji(v: i64) -> Json {
    Json::Int(v)
}

fn ts(y: i32, mo: u32, d: u32, h: u32, mi: u32, s: u32) -> i64 {
    Utc.with_ymd_and_hms(y, mo, d, h, mi, s).unwrap().timestamp_millis()
}

#[test]
fn test_parse_datetime_github_format() {
    let result = parse_datetime("2026-01-30T23:06:02Z").unwrap();
    assert_eq!(result, ts(2026, 1, 30, 23, 6, 2));
}

#[test]
fn test_parse_datetime_with_milliseconds() {
    let result = parse_datetime("2026-01-30T23:06:02.123Z").unwrap();
    assert_eq!(result, ts(2026, 1, 30, 23, 6, 2) + 123);
}

#[test]
fn test_parse_datetime_invalid() {
    assert!(parse_datetime("not a date").is_none());
    assert!(parse_datetime("").is_none());
}

#[test]
fn test_parse_comment_minimal() {
    let data = obj(vec![
        ("id", ji(123)),
        ("path", js("src/main.rs")),
        ("line", ji(42)),
        ("user", obj(vec![("login", js("testuser"))])),
        ("body", js("Test comment")),
        ("created_at", js("2024-01-15T10:30:00Z")),
        ("updated_at", js("2024-01-15T10:30:00Z")),
        ("diff_hunk", js("@@ -1,5 +1,5 @@\n test")),
        ("html_url", js("https://github.com/owner/repo/pull/1#discussion_r123")),
    ]);

    let comment = parse_comment(&data).unwrap();
    assert_eq!(comment.id, 123);
    assert_eq!(comment.file_path, "src/main.rs");
    assert_eq!(comment.line_number, Some(42));
    assert_eq!(comment.author, "testuser");
    assert_eq!(comment.body, "Test comment");
    assert_eq!(comment.created_at, ts(2024, 1, 15, 10, 30, 0));
    assert_eq!(comment.get_line_info(), "line 42");
}

#[test]
fn test_parse_comment_with_range() {
    let data = obj(vec![
        ("id", ji(123)),
        ("path", js("src/main.rs")),
        ("line", ji(20)),
        ("start_line", ji(10)),
        ("user", obj(vec![("login", js("testuser"))])),
        ("body", js("Test comment")),
        ("created_at", js("2024-01-15T10:30:00Z")),
        ("updated_at", js("2024-01-15T10:30:00Z")),
        ("diff_hunk", js("")),
        ("html_url", js("")),
    ]);

    let comment = parse_comment(&data).unwrap();
    assert_eq!(comment.line_number, Some(20));
    assert_eq!(comment.start_line, Some(10));
    assert_eq!(comment.get_line_info(), "lines 10-20");
}

#[test]
fn test_parse_comment_fallback_to_original_line() {
    let data = obj(vec![
        ("id", ji(123)),
        ("path", js("src/main.rs")),
        ("original_line", ji(42)),
        ("user", obj(vec![("login", js("testuser"))])),
        ("body", js("Test comment")),
        ("created_at", js("2024-01-15T10:30:00Z")),
        ("updated_at", js("2024-01-15T10:30:00Z")),
        ("diff_hunk", js("")),
        ("html_url", js("")),
    ]);

    let comment = parse_comment(&data).unwrap();
    assert_eq!(comment.line_number, Some(42));
}

#[test]
fn test_parse_comment_missing_user() {
    let data = obj(vec![
        ("id", ji(123)),
        ("path", js("src/main.rs")),
        ("body", js("Test comment")),
        ("created_at", js("2024-01-15T10:30:00Z")),
        ("updated_at", js("2024-01-15T10:30:00Z")),
        ("diff_hunk", js("")),
        ("html_url", js("")),
    ]);

    let comment = parse_comment(&data).unwrap();
    assert_eq!(comment.author, "unknown");
}

#[test]
fn test_parse_comment_bot() {
    let data = obj(vec![
        ("id", ji(123)),
        ("path", js("src/main.rs")),
        ("user", obj(vec![("login", js("devin-ai-integration[bot]"))])),
        ("body", js("Bot comment")),
        ("created_at", js("2024-01-15T10:30:00Z")),
        ("updated_at", js("2024-01-15T10:30:00Z")),
        ("diff_hunk", js("")),
        ("html_url", js("")),
    ]);

    let comment = parse_comment(&data).unwrap();
    assert_eq!(comment.author, "devin-ai-integration[bot]");
}

#[test]
fn test_parse_comment_missing_id() {
    let data = obj(vec![
        ("path", js("src/main.rs")),
        ("body", js("Test comment")),
        ("created_at", js("2024-01-15T10:30:00Z")),
        ("updated_at", js("2024-01-15T10:30:00Z")),
    ]);
    assert!(parse_comment(&data).is_none());
}

#[test]
fn test_parse_comment_bad_timestamp() {
    let data = obj(vec![
        ("id", ji(1)),
        ("body", js("x")),
        ("created_at", js("not a date")),
        ("updated_at", js("2024-01-15T10:30:00Z")),
    ]);
    assert!(parse_comment(&data).is_none());
}

fn raw_comment(id: i64, path: &str, login: &str, body: &str, at: &str) -> Json {
    obj(vec![
        ("id", ji(id)),
        ("path", js(path)),
        ("user", obj(vec![("login", js(login))])),
        ("body", js(body)),
        ("created_at", js(at)),
        ("updated_at", js(at)),
        ("diff_hunk", js("")),
        ("html_url", js("")),
    ])
}

#[test]
fn test_parse_comments_multiple() {
    let data = vec![
        raw_comment(1, "file1.rs", "user1", "Comment 1", "2024-01-15T10:30:00Z"),
        raw_comment(2, "file2.rs", "user2", "Comment 2", "2024-01-15T10:30:00Z"),
    ];

    let comments = parse_comments(&data);
    assert_eq!(comments.len(), 2);
    assert_eq!(comments[0].id, 1);
    assert_eq!(comments[1].id, 2);
}

#[test]
fn test_parse_comments_empty() {
    let comments = parse_comments(&vec![]);
    assert!(comments.is_empty());
}

#[test]
fn test_parse_comments_skips_malformed() {
    let data = vec![
        raw_comment(1, "file1.rs", "user1", "ok", "2024-01-15T10:30:00Z"),
        obj(vec![("body", js("no id"))]),
        raw_comment(3, "file2.rs", "user2", "ok too", "2024-01-15T10:30:00Z"),
    ];
    let comments = parse_comments(&data);
    assert_eq!(comments.len(), 2);
    assert_eq!(comments[0].id, 1);
    assert_eq!(comments[1].id, 3);
}

fn create_test_comments() -> Vec<PRComment> {
    vec![
        PRComment::new(
            1,
            Some("PRRC_test1".to_string()),
            "file1.rs".to_string(),
            Some(10),
            None,
            "user1".to_string(),
            "Comment 1".to_string(),
            ts(2024, 1, 15, 10, 0, 0),
            ts(2024, 1, 15, 10, 0, 0),
            "".to_string(),
            "".to_string(),
        ),
        PRComment::new(
            2,
            Some("PRRC_test2".to_string()),
            "file1.rs".to_string(),
            Some(20),
            None,
            "user2".to_string(),
            "Comment 2".to_string(),
            ts(2024, 1, 15, 11, 0, 0),
            ts(2024, 1, 15, 11, 0, 0),
            "".to_string(),
            "".to_string(),
        ),
        PRComment::new(
            3,
            Some("PRRC_test3".to_string()),
            "file2.rs".to_string(),
            Some(5),
            None,
            "user1".to_string(),
            "Comment 3".to_string(),
            ts(2024, 1, 15, 12, 0, 0),
            ts(2024, 1, 15, 12, 0, 0),
            "".to_string(),
            "".to_string(),
        ),
    ]
}

#[test]
fn test_filter_by_author_none() {
    let comments = create_test_comments();
    let filtered = filter_by_author(comments.clone(), None);
    assert_eq!(filtered.len(), 3);
}

#[test]
fn test_filter_by_author_empty_string() {
    let comments = create_test_comments();
    let filtered = filter_by_author(comments.clone(), Some(""));
    assert_eq!(filtered.len(), 3);
}

#[test]
fn test_filter_by_author_specific() {
    let comments = create_test_comments();
    let filtered = filter_by_author(comments, Some("user1"));
    assert_eq!(filtered.len(), 2);
    assert!(filtered.iter().all(|c| c.author == "user1"));
}

#[test]
fn test_filter_by_author_nonexistent() {
    let comments = create_test_comments();
    let filtered = filter_by_author(comments, Some("nonexistent"));
    assert!(filtered.is_empty());
}

#[test]
fn test_get_most_recent_per_file() {
    let comments = create_test_comments();
    let most_recent = get_most_recent_per_file(comments);
    assert_eq!(most_recent.len(), 2);

    let file1_comment = most_recent.iter().find(|c| c.file_path == "file1.rs").unwrap();
    assert_eq!(file1_comment.id, 2);
    let file2_comment = most_recent.iter().find(|c| c.file_path == "file2.rs").unwrap();
    assert_eq!(file2_comment.id, 3);
}

#[test]
fn test_get_most_recent_per_file_empty() {
    let most_recent = get_most_recent_per_file(vec![]);
    assert!(most_recent.is_empty());
}

#[test]
fn test_get_most_recent_per_file_tie_keeps_first() {
    let mut comments = create_test_comments();
    comments[1].updated_at = comments[0].updated_at;
    let most_recent = get_most_recent_per_file(comments);
    let file1_comment = most_recent.iter().find(|c| c.file_path == "file1.rs").unwrap();
    assert_eq!(file1_comment.id, 1);
}

#[test]
fn test_group_by_file() {
    let comments = create_test_comments();
    let grouped = group_by_file(&comments);

    assert_eq!(grouped.len(), 2);
    let g1 = grouped.iter().find(|g| g.0 == "file1.rs").unwrap();
    assert_eq!(g1.1.len(), 2);
    let g2 = grouped.iter().find(|g| g.0 == "file2.rs").unwrap();
    assert_eq!(g2.1.len(), 1);
}

#[test]
fn test_group_by_file_empty() {
    let grouped = group_by_file(&vec![]);
    assert!(grouped.is_empty());
}

#[test]
fn test_parse_review_comment_success() {
    let data = obj(vec![
        ("id", ji(12345)),
        ("body", js("This is a review-level comment")),
        ("user", obj(vec![("login", js("critic"))])),
        ("submitted_at", js("2024-01-15T10:30:00Z")),
        ("html_url", js("https://github.com/owner/repo/pull/1#pullrequestreview-12345")),
        ("state", js("COMMENTED")),
    ]);

    let comment = parse_review_comment(&data).unwrap();
    assert_eq!(comment.id, 12345);
    assert_eq!(comment.body, "This is a review-level comment");
    assert_eq!(comment.author, "critic");
    assert!(comment.file_path.is_empty());
    assert!(comment.line_number.is_none());
    assert!(comment.diff_hunk.is_empty());
}

#[test]
fn test_parse_review_comment_empty_body() {
    let data = obj(vec![
        ("id", ji(12345)),
        ("body", js("")),
        ("user", obj(vec![("login", js("critic"))])),
        ("submitted_at", js("2024-01-15T10:30:00Z")),
        ("html_url", js("")),
    ]);

    assert!(parse_review_comment(&data).is_none());
}

#[test]
fn test_parse_review_comment_whitespace_only_body() {
    let data = obj(vec![
        ("id", ji(12345)),
        ("body", js("   \n\t  ")),
        ("user", obj(vec![("login", js("critic"))])),
        ("submitted_at", js("2024-01-15T10:30:00Z")),
        ("html_url", js("")),
    ]);

    assert!(parse_review_comment(&data).is_none());
}

#[test]
fn test_parse_review_comment_null_body() {
    let data = obj(vec![
        ("id", ji(12345)),
        ("body", Json::Null),
        ("user", obj(vec![("login", js("critic"))])),
        ("submitted_at", js("2024-01-15T10:30:00Z")),
        ("html_url", js("")),
    ]);

    assert!(parse_review_comment(&data).is_none());
}

#[test]
fn test_parse_review_comment_missing_user() {
    let data = obj(vec![
        ("id", ji(12345)),
        ("body", js("Some review comment")),
        ("submitted_at", js("2024-01-15T10:30:00Z")),
        ("html_url", js("")),
    ]);

    let comment = parse_review_comment(&data).unwrap();
    assert_eq!(comment.author, "unknown");
}

#[test]
fn test_parse_review_comments_multiple() {
    let data = vec![
        obj(vec![
            ("id", ji(1)),
            ("body", js("First review")),
            ("user", obj(vec![("login", js("user1"))])),
            ("submitted_at", js("2024-01-15T10:30:00Z")),
            ("html_url", js("")),
        ]),
        obj(vec![
            ("id", ji(2)),
            ("body", js("")),
            ("user", obj(vec![("login", js("user2"))])),
            ("submitted_at", js("2024-01-15T11:30:00Z")),
            ("html_url", js("")),
        ]),
        obj(vec![
            ("id", ji(3)),
            ("body", js("Third review")),
            ("user", obj(vec![("login", js("user3"))])),
            ("submitted_at", js("2024-01-15T12:30:00Z")),
            ("html_url", js("")),
        ]),
    ];

    let comments = parse_review_comments(&data);
    assert_eq!(comments.len(), 2);
    assert_eq!(comments[0].id, 1);
    assert_eq!(comments[1].id, 3);
}

#[test]
fn test_parse_review_comments_empty() {
    let comments = parse_review_comments(&vec![]);
    assert!(comments.is_empty());
}

#[test]
fn test_parse_review_comment_strips_html() {
    let data = obj(vec![
        ("id", ji(12345)),
        ("body", js("<p>This is a <strong>review</strong> comment</p>")),
        ("user", obj(vec![("login", js("critic"))])),
        ("submitted_at", js("2024-01-15T10:30:00Z")),
        ("html_url", js("")),
    ]);

    let comment = parse_review_comment(&data).unwrap();
    assert!(!comment.body.contains("<p>"));
    assert!(!comment.body.contains("<strong>"));
}

#[test]
fn test_parse_comment_with_node_id() {
    let data = obj(vec![
        ("id", ji(123)),
        ("node_id", js("PRRC_kwDOE2CVus5test")),
        ("path", js("src/main.rs")),
        ("line", ji(42)),
        ("user", obj(vec![("login", js("testuser"))])),
        ("body", js("Test comment")),
        ("created_at", js("2024-01-15T10:30:00Z")),
        ("updated_at", js("2024-01-15T10:30:00Z")),
        ("diff_hunk", js("")),
        ("html_url", js("")),
    ]);

    let comment = parse_comment(&data).unwrap();
    assert_eq!(comment.node_id, Some("PRRC_kwDOE2CVus5test".to_string()));
}

#[test]
fn test_parse_comment_without_node_id() {
    let data = raw_comment(123, "src/main.rs", "testuser", "Test comment", "2024-01-15T10:30:00Z");
    let comment = parse_comment(&data).unwrap();
    assert_eq!(comment.node_id, None);
}

#[test]
fn test_parse_review_comment_with_node_id() {
    let data = obj(vec![
        ("id", ji(12345)),
        ("node_id", js("PRR_kwDOE2CVus5review")),
        ("body", js("Review comment")),
        ("user", obj(vec![("login", js("critic"))])),
        ("submitted_at", js("2024-01-15T10:30:00Z")),
        ("html_url", js("")),
    ]);

    let comment = parse_review_comment(&data).unwrap();
    assert_eq!(comment.node_id, Some("PRR_kwDOE2CVus5review".to_string()));
}

#[test]
fn test_parse_review_comment_without_node_id() {
    let data = obj(vec![
        ("id", ji(12345)),
        ("body", js("Review comment")),
        ("user", obj(vec![("login", js("critic"))])),
        ("submitted_at", js("2024-01-15T10:30:00Z")),
        ("html_url", js("")),
    ]);

    let comment = parse_review_comment(&data).unwrap();
    assert_eq!(comment.node_id, None);
}

fn check_run_node(name: &str, status: &str, conclusion: &str, required: bool) -> Json {
    obj(vec![
        ("__typename", js("CheckRun")),
        ("name", js(name)),
        ("status", js(status)),
        ("conclusion", js(conclusion)),
        ("startedAt", js("2024-01-15T10:00:00Z")),
        ("completedAt", js("2024-01-15T10:05:00Z")),
        ("detailsUrl", js(&format!("https://ci.example.com/{name}"))),
        ("isRequired", Json::Bool(required)),
        (
            "checkSuite",
            obj(vec![
                ("app", obj(vec![("slug", js("github-actions"))])),
                ("workflowRun", obj(vec![("workflow", obj(vec![("name", js("CI"))]))])),
            ]),
        ),
    ])
}

fn status_context_node(context: &str, state: &str, required: bool) -> Json {
    obj(vec![
        ("__typename", js("StatusContext")),
        ("context", js(context)),
        ("state", js(state)),
        ("description", js(&format!("{context} status"))),
        ("targetUrl", js(&format!("https://ci.example.com/{context}"))),
        ("createdAt", js("2024-01-15T10:00:00Z")),
        ("isRequired", Json::Bool(required)),
    ])
}

fn create_graphql_response(checks: Vec<Json>) -> Json {
    obj(vec![(
        "data",
        obj(vec![(
            "repository",
            obj(vec![(
                "pullRequest",
                obj(vec![
                    ("title", js("Test PR")),
                    ("url", js("https://github.com/owner/repo/pull/1")),
                    (
                        "commits",
                        obj(vec![(
                            "nodes",
                            Json::Arr(vec![obj(vec![(
                                "commit",
                                obj(vec![(
                                    "statusCheckRollup",
                                    obj(vec![
                                        ("state", js("FAILURE")),
                                        ("contexts", obj(vec![("nodes", Json::Arr(checks))])),
                                    ]),
                                )]),
                            )])]),
                        )]),
                    ),
                ]),
            )]),
        )]),
    )])
}

#[test]
fn test_parse_checks_response_full() {
    let response = create_graphql_response(vec![
        check_run_node("build", "COMPLETED", "SUCCESS", true),
        check_run_node("test", "COMPLETED", "FAILURE", true),
        status_context_node("buildkite/pipeline", "SUCCESS", false),
    ]);

    let report = parse_checks_response(&response).unwrap();
    assert_eq!(report.pr_title.as_deref(), Some("Test PR"));
    assert_eq!(report.pr_url.as_deref(), Some("https://github.com/owner/repo/pull/1"));
    assert_eq!(report.rollup_state, RollupState::Failure);
    assert_eq!(report.checks.len(), 3);
}

#[test]
fn test_parse_checks_response_empty_checks() {
    let response = create_graphql_response(vec![]);
    let report = parse_checks_response(&response).unwrap();
    assert!(report.checks.is_empty());
}

#[test]
fn test_parse_checks_response_missing_pr() {
    let response = obj(vec![("data", obj(vec![("repository", obj(vec![]))]))]);
    let result = parse_checks_response(&response);
    assert!(result.is_err());
    assert!(result.unwrap_err().message().contains("Missing pullRequest"));
}

#[test]
fn test_parse_checks_response_missing_commit() {
    let response = obj(vec![(
        "data",
        obj(vec![(
            "repository",
            obj(vec![(
                "pullRequest",
                obj(vec![
                    ("title", js("Test")),
                    ("url", js("https://github.com/owner/repo/pull/1")),
                    ("commits", obj(vec![("nodes", Json::Arr(vec![]))])),
                ]),
            )]),
        )]),
    )]);
    let result = parse_checks_response(&response);
    assert!(result.is_err());
    assert!(result.unwrap_err().message().contains("Missing commit"));
}

#[test]
fn test_parse_checks_response_no_rollup() {
    let response = obj(vec![(
        "data",
        obj(vec![(
            "repository",
            obj(vec![(
                "pullRequest",
                obj(vec![
                    ("title", js("Test")),
                    ("url", js("https://github.com/owner/repo/pull/1")),
                    (
                        "commits",
                        obj(vec![(
                            "nodes",
                            Json::Arr(vec![obj(vec![(
                                "commit",
                                obj(vec![("statusCheckRollup", Json::Null)]),
                            )])]),
                        )]),
                    ),
                ]),
            )]),
        )]),
    )]);
    let report = parse_checks_response(&response).unwrap();
    assert_eq!(report.rollup_state, RollupState::Unknown);
    assert!(report.checks.is_empty());
}

#[test]
fn test_parse_check_run() {
    let node = check_run_node("build", "COMPLETED", "SUCCESS", true);
    let check = parse_check_node(&node).unwrap();
    assert_eq!(check.name, "build");
    assert_eq!(check.conclusion, CheckConclusion::Success);
    assert!(check.required);
    assert_eq!(check.check_type, CheckType::CheckRun);
    assert_eq!(check.app_name.as_deref(), Some("github-actions"));
    assert_eq!(check.workflow_name.as_deref(), Some("CI"));
    assert!(check.started_at.is_some());
    assert!(check.completed_at.is_some());
    assert!(check.details_url.is_some());
}

#[test]
fn test_parse_check_run_in_progress() {
    let node = obj(vec![
        ("__typename", js("CheckRun")),
        ("name", js("build")),
        ("status", js("IN_PROGRESS")),
        ("conclusion", Json::Null),
        ("isRequired", Json::Bool(false)),
        ("checkSuite", Json::Null),
    ]);
    let check = parse_check_node(&node).unwrap();
    assert_eq!(check.conclusion, CheckConclusion::Pending);
}

#[test]
fn test_parse_check_run_queued() {
    let node = obj(vec![
        ("__typename", js("CheckRun")),
        ("name", js("build")),
        ("status", js("QUEUED")),
        ("conclusion", Json::Null),
        ("isRequired", Json::Bool(false)),
        ("checkSuite", Json::Null),
    ]);
    let check = parse_check_node(&node).unwrap();
    assert_eq!(check.conclusion, CheckConclusion::Pending);
}

#[test]
fn test_parse_status_context() {
    let node = status_context_node("buildkite/pipeline", "SUCCESS", true);
    let check = parse_check_node(&node).unwrap();
    assert_eq!(check.name, "buildkite/pipeline");
    assert_eq!(check.conclusion, CheckConclusion::Success);
    assert!(check.required);
    assert_eq!(check.check_type, CheckType::StatusContext);
    assert!(check.description.is_some());
    assert!(check.details_url.is_some());
}

#[test]
fn test_parse_status_context_failure() {
    let node = status_context_node("external-ci", "FAILURE", false);
    let check = parse_check_node(&node).unwrap();
    assert_eq!(check.conclusion, CheckConclusion::Failure);
    assert!(!check.required);
}

#[test]
fn test_parse_status_context_error() {
    let node = status_context_node("external-ci", "ERROR", false);
    let check = parse_check_node(&node).unwrap();
    assert_eq!(check.conclusion, CheckConclusion::Failure);
}

#[test]
fn test_parse_status_context_pending() {
    let node = status_context_node("external-ci", "PENDING", false);
    let check = parse_check_node(&node).unwrap();
    assert_eq!(check.conclusion, CheckConclusion::Pending);
}

#[test]
fn test_parse_status_context_expected() {
    let node = status_context_node("external-ci", "EXPECTED", false);
    let check = parse_check_node(&node).unwrap();
    assert_eq!(check.conclusion, CheckConclusion::Pending);
}

#[test]
fn test_parse_check_node_unknown_typename() {
    let node = obj(vec![("__typename", js("SomeNewType")), ("name", js("test"))]);
    assert!(parse_check_node(&node).is_none());
}

#[test]
fn test_parse_check_node_missing_typename() {
    let node = obj(vec![("name", js("test"))]);
    assert!(parse_check_node(&node).is_none());
}

#[test]
fn test_parse_check_conclusion_all_variants() {
    assert_eq!(parse_check_conclusion("COMPLETED", "SUCCESS"), CheckConclusion::Success);
    assert_eq!(parse_check_conclusion("COMPLETED", "FAILURE"), CheckConclusion::Failure);
    assert_eq!(parse_check_conclusion("COMPLETED", "SKIPPED"), CheckConclusion::Skipped);
    assert_eq!(parse_check_conclusion("COMPLETED", "CANCELLED"), CheckConclusion::Cancelled);
    assert_eq!(parse_check_conclusion("COMPLETED", "TIMED_OUT"), CheckConclusion::TimedOut);
    assert_eq!(
        parse_check_conclusion("COMPLETED", "ACTION_REQUIRED"),
        CheckConclusion::ActionRequired
    );
    assert_eq!(parse_check_conclusion("COMPLETED", "NEUTRAL"), CheckConclusion::Neutral);
    assert_eq!(parse_check_conclusion("COMPLETED", "STALE"), CheckConclusion::Stale);
    assert_eq!(parse_check_conclusion("COMPLETED", "UNKNOWN_VALUE"), CheckConclusion::Unknown);
}

#[test]
fn test_parse_check_conclusion_non_completed_statuses() {
    assert_eq!(parse_check_conclusion("IN_PROGRESS", ""), CheckConclusion::Pending);
    assert_eq!(parse_check_conclusion("QUEUED", ""), CheckConclusion::Pending);
    assert_eq!(parse_check_conclusion("REQUESTED", ""), CheckConclusion::Pending);
    assert_eq!(parse_check_conclusion("WAITING", ""), CheckConclusion::Pending);
    assert_eq!(parse_check_conclusion("PENDING", ""), CheckConclusion::Pending);
    assert_eq!(parse_check_conclusion("SOME_UNKNOWN_STATUS", ""), CheckConclusion::Unknown);
}

#[test]
fn test_parse_check_conclusion_empty_status_and_conclusion() {
    assert_eq!(parse_check_conclusion("", ""), CheckConclusion::Pending);
}

#[test]
fn test_parse_status_state_all_variants() {
    assert_eq!(parse_status_state("SUCCESS"), CheckConclusion::Success);
    assert_eq!(parse_status_state("FAILURE"), CheckConclusion::Failure);
    assert_eq!(parse_status_state("ERROR"), CheckConclusion::Failure);
    assert_eq!(parse_status_state("PENDING"), CheckConclusion::Pending);
    assert_eq!(parse_status_state("EXPECTED"), CheckConclusion::Pending);
    assert_eq!(parse_status_state("UNKNOWN"), CheckConclusion::Unknown);
}

#[test]
fn test_parse_rollup_state_all_variants() {
    assert_eq!(parse_rollup_state("SUCCESS"), RollupState::Success);
    assert_eq!(parse_rollup_state("FAILURE"), RollupState::Failure);
    assert_eq!(parse_rollup_state("PENDING"), RollupState::Pending);
    assert_eq!(parse_rollup_state("ERROR"), RollupState::Error);
    assert_eq!(parse_rollup_state("EXPECTED"), RollupState::Expected);
    assert_eq!(parse_rollup_state("UNKNOWN_VALUE"), RollupState::Unknown);
}

#[test]
fn test_parse_check_run_minimal_fields() {
    let node = obj(vec![
        ("__typename", js("CheckRun")),
        ("name", js("minimal")),
        ("status", js("COMPLETED")),
        ("conclusion", js("SUCCESS")),
        ("isRequired", Json::Bool(false)),
        ("checkSuite", Json::Null),
    ]);
    let check = parse_check_node(&node).unwrap();
    assert_eq!(check.name, "minimal");
    assert!(check.app_name.is_none());
    assert!(check.workflow_name.is_none());
    assert!(check.started_at.is_none());
    assert!(check.completed_at.is_none());
    assert!(check.details_url.is_none());
}

#[test]
fn test_parse_check_run_missing_name() {
    let node = obj(vec![
        ("__typename", js("CheckRun")),
        ("status", js("COMPLETED")),
        ("conclusion", js("SUCCESS")),
    ]);
    assert!(parse_check_node(&node).is_none());
}

#[test]
fn test_parse_status_context_missing_context() {
    let node = obj(vec![("__typename", js("StatusContext")), ("state", js("SUCCESS"))]);
    assert!(parse_check_node(&node).is_none());
}

#[test]
fn test_parse_checks_response_no_title_or_url() {
    let response = obj(vec![(
        "data",
        obj(vec![(
            "repository",
            obj(vec![(
                "pullRequest",
                obj(vec![(
                    "commits",
                    obj(vec![(
                        "nodes",
                        Json::Arr(vec![obj(vec![(
                            "commit",
                            obj(vec![(
                                "statusCheckRollup",
                                obj(vec![
                                    ("state", js("SUCCESS")),
                                    ("contexts", obj(vec![("nodes", Json::Arr(vec![]))])),
                                ]),
                            )]),
                        )])]),
                    )]),
                )]),
            )]),
        )]),
    )]);
    let report = parse_checks_response(&response).unwrap();
    assert!(report.pr_title.is_none());
    assert!(report.pr_url.is_none());
}

#[test]
fn test_parse_status_context_minimal_fields() {
    let node = obj(vec![
        ("__typename", js("StatusContext")),
        ("context", js("ci/test")),
        ("state", js("SUCCESS")),
    ]);
    let check = parse_check_node(&node).unwrap();
    assert_eq!(check.name, "ci/test");
    assert!(check.description.is_none());
    assert!(check.details_url.is_none());
    assert!(check.started_at.is_none());
}
