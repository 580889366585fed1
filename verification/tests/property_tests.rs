//! Concrete checks of the library's stated behavior: sanitizer identities,
//! field fallbacks, filtering, grouping, empty-input messages and the JSON
//! round trip.

use chrono::TimeZone;
use chrono::Utc;
use pr_comments::formatter::checks_report_from_json;
use pr_comments::formatter::format_as_json;
use pr_comments::formatter::format_checks_as_json;
use pr_comments::formatter::format_checks_for_claude;
use pr_comments::formatter::format_checks_minimal;
use pr_comments::formatter::format_comments_flat;
use pr_comments::formatter::format_comments_grouped;
use pr_comments::formatter::format_comments_minimal;
use pr_comments::formatter::format_for_claude;
use pr_comments::jsonval::Json;
use pr_comments::models::CheckConclusion;
use pr_comments::models::CheckStatus;
use pr_comments::models::CheckType;
use pr_comments::models::ChecksReport;
use pr_comments::models::PRComment;
use pr_comments::models::RollupState;
use pr_comments::parser::get_most_recent_per_file;
use pr_comments::parser::parse_comment;
use pr_comments::sanitizer::collapse_blank_lines;
use pr_comments::sanitizer::strip_html;

fn ts(y: i32, mo: u32, d: u32, h: u32, mi: u32, s: u32) -> i64 {
    Utc.with_ymd_and_hms(y, mo, d, h, mi, s).unwrap().timestamp_millis()
}

fn comment(id: i64, file: &str, line: Option<i64>, author: &str, at: i64) -> PRComment {
    PRComment::new(
        id,
        None,
        file.to_string(),
        line,
        None,
        author.to_string(),
        format!("body {id}"),
        at,
        at,
        String::new(),
        String::new(),
    )
}

#[test]
fn strip_html_is_identity_without_angle_bracket() {
    for input in ["", "plain", "a > b", "line\n\n\n\nbreaks", "tab\there"] {
        assert_eq!(strip_html(input), input);
    }
}

#[test]
fn strip_html_removes_multiline_comment() {
    assert_eq!(strip_html("Before<!-- a\nb -->After"), "BeforeAfter");
}

#[test]
fn collapse_blank_lines_canonical() {
    assert_eq!(collapse_blank_lines("Line 1\n\n\n\n\nLine 2"), "Line 1\n\nLine 2");
    assert_eq!(collapse_blank_lines("\n\n\n"), "\n\n");
    assert_eq!(collapse_blank_lines("a\nb"), "a\nb");
}

#[test]
fn strip_html_unterminated_tag_consumes_rest() {
    assert_eq!(strip_html("keep<tag never closes"), "keep");
    assert_eq!(strip_html("keep<!-- never closes"), "keep");
}

#[test]
fn parse_comment_reads_every_field() {
    let data = Json::Obj(vec![
        ("id".to_string(), Json::Int(123)),
        ("path".to_string(), Json::Str("src/main.rs".to_string())),
        ("line".to_string(), Json::Int(42)),
        (
            "user".to_string(),
            Json::Obj(vec![("login".to_string(), Json::Str("testuser".to_string()))]),
        ),
        ("body".to_string(), Json::Str("Test comment".to_string())),
        ("created_at".to_string(), Json::Str("2024-01-15T10:30:00Z".to_string())),
        ("updated_at".to_string(), Json::Str("2024-01-15T10:30:00Z".to_string())),
    ]);
    let c = parse_comment(&data).unwrap();
    assert_eq!(c.id, 123);
    assert_eq!(c.file_path, "src/main.rs");
    assert_eq!(c.line_number, Some(42));
    assert_eq!(c.author, "testuser");
    assert_eq!(c.body, "Test comment");
    assert_eq!(c.created_at, ts(2024, 1, 15, 10, 30, 0));
    assert_eq!(c.updated_at, ts(2024, 1, 15, 10, 30, 0));
    assert_eq!(c.get_line_info(), "line 42");
}

#[test]
fn line_info_range_and_collapsed_range() {
    let mut c = comment(1, "f.rs", Some(20), "u", 0);
    c.start_line = Some(10);
    assert_eq!(c.get_line_info(), "lines 10-20");
    c.line_number = Some(10);
    assert_eq!(c.get_line_info(), "line 10");
}

#[test]
fn most_recent_per_file_three_across_two() {
    let comments = vec![
        comment(1, "a.rs", Some(1), "u", ts(2024, 1, 1, 0, 0, 0)),
        comment(2, "a.rs", Some(2), "u", ts(2024, 1, 2, 0, 0, 0)),
        comment(3, "b.rs", Some(3), "u", ts(2024, 1, 1, 12, 0, 0)),
    ];
    let r = get_most_recent_per_file(comments);
    assert_eq!(r.len(), 2);
    assert_eq!(r.iter().find(|c| c.file_path == "a.rs").unwrap().id, 2);
    assert_eq!(r.iter().find(|c| c.file_path == "b.rs").unwrap().id, 3);
}

#[test]
fn json_output_has_fixed_keys() {
    let comments = vec![comment(1, "f.rs", Some(3), "u", ts(2024, 1, 1, 0, 0, 0))];
    let output = format_as_json(&comments, false, 10);
    let parsed: serde_json::Value = serde_json::from_str(&output).unwrap();
    let objkeys = parsed[0].as_object().unwrap();
    for key in ["file", "line", "author", "body", "snippet", "url", "node_id"] {
        assert!(objkeys.contains_key(key), "missing key {key}");
    }
    assert!(parsed[0]["snippet"].is_null());
}

fn value_to_json(v: &serde_json::Value) -> Json {
    match v {
        serde_json::Value::Null => Json::Null,
        serde_json::Value::Bool(b) => Json::Bool(*b),
        serde_json::Value::Number(n) => match n.as_i64() {
            Some(i) => Json::Int(i),
            None => Json::Null,
        },
        serde_json::Value::String(s) => Json::Str(s.clone()),
        serde_json::Value::Array(items) => Json::Arr(items.iter().map(value_to_json).collect()),
        serde_json::Value::Object(map) => {
            Json::Obj(map.iter().map(|(k, x)| (k.clone(), value_to_json(x))).collect())
        },
    }
}

#[test]
fn checks_json_round_trips_through_text() {
    let report = ChecksReport {
        pr_title: Some("T".to_string()),
        pr_url: None,
        rollup_state: RollupState::Pending,
        checks: vec![CheckStatus {
            name: "ci".to_string(),
            conclusion: CheckConclusion::TimedOut,
            required: true,
            description: None,
            details_url: Some("https://x.example".to_string()),
            started_at: Some(ts(2024, 6, 1, 1, 2, 3)),
            completed_at: None,
            check_type: CheckType::StatusContext,
            workflow_name: None,
            app_name: Some("app".to_string()),
        }],
    };
    let text = format_checks_as_json(&report);
    let parsed: serde_json::Value = serde_json::from_str(&text).unwrap();
    let decoded = checks_report_from_json(&value_to_json(&parsed)).unwrap();
    assert_eq!(decoded, report);
}

#[test]
fn summary_counts_six_checks_two_failures() {
    let mk = |name: &str, c: CheckConclusion, req: bool| CheckStatus {
        name: name.to_string(),
        conclusion: c,
        required: req,
        description: None,
        details_url: None,
        started_at: None,
        completed_at: None,
        check_type: CheckType::CheckRun,
        workflow_name: None,
        app_name: None,
    };
    let report = ChecksReport {
        pr_title: None,
        pr_url: None,
        rollup_state: RollupState::Failure,
        checks: vec![
            mk("s1", CheckConclusion::Success, true),
            mk("s2", CheckConclusion::Success, false),
            mk("f1", CheckConclusion::Failure, true),
            mk("f2", CheckConclusion::Failure, false),
            mk("p1", CheckConclusion::Pending, false),
            mk("k1", CheckConclusion::Skipped, false),
        ],
    };
    let s = report.summary_counts();
    assert_eq!((s.passed, s.failed, s.pending, s.skipped, s.total), (2, 2, 1, 1, 6));
    let fr = report.failed_required();
    assert_eq!(fr.len(), 1);
    assert_eq!(fr[0].name, "f1");
    let fo = report.failed_optional();
    assert_eq!(fo.len(), 1);
    assert_eq!(fo[0].name, "f2");
}

#[test]
fn empty_input_messages_everywhere() {
    let none: Vec<PRComment> = vec![];
    assert_eq!(format_comments_grouped(&none, true, 10), "No comments found.\n");
    assert_eq!(format_comments_flat(&none, true, 10), "No comments found.\n");
    assert_eq!(format_comments_minimal(&none), "No comments found.\n");
    assert_eq!(format_for_claude(&none, None, None, None, true, 10), "No comments found.\n");
    assert_eq!(format_as_json(&none, true, 10), "No comments found.\n");
    let empty_report = ChecksReport {
        pr_title: Some("t".to_string()),
        pr_url: None,
        rollup_state: RollupState::Success,
        checks: vec![],
    };
    assert_eq!(format_checks_for_claude(&empty_report), "No checks found.\n");
    assert_eq!(format_checks_minimal(&empty_report), "No checks found.\n");
    assert_eq!(format_checks_as_json(&empty_report), "No checks found.\n");
}

#[test]
fn grouped_orders_files_lexicographically() {
    let comments = vec![
        comment(1, "zeta.rs", Some(1), "u", ts(2024, 1, 1, 0, 0, 0)),
        comment(2, "alpha.rs", Some(1), "u", ts(2024, 1, 1, 0, 0, 0)),
    ];
    let output = format_comments_grouped(&comments, false, 10);
    let a = output.find("## alpha.rs").unwrap();
    let z = output.find("## zeta.rs").unwrap();
    assert!(a < z);
}

#[test]
fn flat_orders_most_recent_first() {
    let comments = vec![
        comment(1, "a.rs", Some(1), "u", ts(2024, 1, 1, 0, 0, 0)),
        comment(2, "b.rs", Some(1), "u", ts(2024, 2, 1, 0, 0, 0)),
    ];
    let output = format_comments_flat(&comments, false, 10);
    let older = output.find("body 1").unwrap();
    let newer = output.find("body 2").unwrap();
    assert!(newer < older);
}

#[test]
fn comments_without_line_sort_first() {
    let mut with_line = comment(1, "a.rs", Some(5), "u", ts(2024, 1, 1, 0, 0, 0));
    with_line.body = "anchored".to_string();
    let mut without_line = comment(2, "a.rs", None, "u", ts(2024, 2, 1, 0, 0, 0));
    without_line.body = "floating".to_string();
    let comments = vec![with_line, without_line];
    let output = format_comments_grouped(&comments, false, 10);
    let floating = output.find("floating").unwrap();
    let anchored = output.find("anchored").unwrap();
    assert!(floating < anchored);
}

#[test]
fn minimal_body_truncates_at_hundred_chars() {
    let mut c = comment(1, "a.rs", Some(1), "u", ts(2024, 1, 1, 0, 0, 0));
    c.body = "x".repeat(101);
    let output = format_comments_minimal(&vec![c]);
    let expected = format!("{}...", "x".repeat(100));
    assert!(output.contains(&expected));
    assert!(!output.contains(&"x".repeat(101)));
}

#[test]
fn minimal_body_flattens_newlines() {
    let mut c = comment(1, "a.rs", Some(1), "u", ts(2024, 1, 1, 0, 0, 0));
    c.body = "two\nlines".to_string();
    let output = format_comments_minimal(&vec![c]);
    assert!(output.contains("two lines"));
}

#[test]
fn json_escapes_special_characters() {
    let mut c = comment(1, "a.rs", Some(1), "u", ts(2024, 1, 1, 0, 0, 0));
    c.body = "quote \" backslash \\ newline \n tab \t".to_string();
    let output = format_as_json(&vec![c], false, 10);
    let parsed: serde_json::Value = serde_json::from_str(&output).unwrap();
    assert_eq!(parsed[0]["body"], "quote \" backslash \\ newline \n tab \t");
}
