//! Data model for pull-request comments and CI check statuses, with the
//! derived views the formatters consume.

use vstd::prelude::*;
use crate::text::{spec_i64_str, spec_lines, spec_join_nl};

verus! {

broadcast use vstd::seq_lib::group_filter_ensures, vstd::string::group_string_axioms;

/// A normalized pull-request comment.
///
/// `file_path` is empty for review-level comments. Timestamps are UTC epoch
/// milliseconds. The reply token (`node_id`) is carried through untouched.
#[derive(Debug, Clone, PartialEq)]
pub struct PRComment {
    pub id: i64,
    pub node_id: Option<String>,
    pub file_path: String,
    pub line_number: Option<i64>,
    pub start_line: Option<i64>,
    pub author: String,
    pub body: String,
    pub created_at: i64,
    pub updated_at: i64,
    pub diff_hunk: String,
    pub html_url: String,
}

/// The line-location phrase for a comment: a range when a distinct start
/// line is present, a single line when one is known, `"line unknown"`
/// otherwise.
pub open spec fn spec_line_info(line: Option<i64>, start: Option<i64>) -> Seq<char> {
    match (line, start) {
        (Some(l), Some(st)) => if st != l {
            "lines "@ + spec_i64_str(st as int) + "-"@ + spec_i64_str(l as int)
        } else {
            "line "@ + spec_i64_str(l as int)
        },
        (Some(l), None) => "line "@ + spec_i64_str(l as int),
        (None, Some(st)) => "line "@ + spec_i64_str(st as int),
        (None, None) => "line unknown"@,
    }
}

/// A diff-hunk header line, such as `@@ -10,5 +10,5 @@`.
pub open spec fn is_hunk_header(l: Seq<char>) -> bool {
    l.len() >= 2 && l[0] == '@' && l[1] == '@'
}

/// The code snippet drawn from a diff hunk: hunk-header lines dropped, at
/// most the trailing `max` lines kept, joined with newlines.
pub open spec fn spec_snippet(diff: Seq<char>, max: int) -> Seq<char> {
    if diff.len() == 0 {
        Seq::empty()
    } else {
        let kept = spec_lines(diff).filter(|l: Seq<char>| !is_hunk_header(l));
        if kept.len() == 0 {
            Seq::empty()
        } else {
            let start: int = if kept.len() > max {
                kept.len() - max
            } else {
                0
            };
            spec_join_nl(kept.skip(start))
        }
    }
}

impl PRComment {
    /// Builds a comment from its parts.
    #[allow(clippy::too_many_arguments)]
    pub fn new(
        id: i64,
        node_id: Option<String>,
        file_path: String,
        line_number: Option<i64>,
        start_line: Option<i64>,
        author: String,
        body: String,
        created_at: i64,
        updated_at: i64,
        diff_hunk: String,
        html_url: String,
    ) -> (r: Self)
        ensures
            r == (PRComment {
                id,
                node_id,
                file_path,
                line_number,
                start_line,
                author,
                body,
                created_at,
                updated_at,
                diff_hunk,
                html_url,
            }),
    {
        Self {
            id,
            node_id,
            file_path,
            line_number,
            start_line,
            author,
            body,
            created_at,
            updated_at,
            diff_hunk,
            html_url,
        }
    }

    /// An equal copy of the comment.
    pub fn duplicate(&self) -> (r: Self)
        ensures
            r == *self,
    {
        PRComment {
            id: self.id,
            node_id: clone_opt_string(&self.node_id),
            file_path: self.file_path.clone(),
            line_number: self.line_number,
            start_line: self.start_line,
            author: self.author.clone(),
            body: self.body.clone(),
            created_at: self.created_at,
            updated_at: self.updated_at,
            diff_hunk: self.diff_hunk.clone(),
            html_url: self.html_url.clone(),
        }
    }

    /// A human-readable phrase for the comment's line location.
    pub fn get_line_info(&self) -> (r: String)
        ensures
            r@ == spec_line_info(self.line_number, self.start_line),
    {
        match (self.line_number, self.start_line) {
            (Some(line), Some(start)) => {
                if start != line {
                    let mut out = String::new();
                    out.append("lines ");
                    out.append(crate::text::i64_to_string(start).as_str());
                    out.append("-");
                    out.append(crate::text::i64_to_string(line).as_str());
                    proof {
                        assert(out@ =~= spec_line_info(self.line_number, self.start_line));
                    }
                    out
                } else {
                    let mut out = String::new();
                    out.append("line ");
                    out.append(crate::text::i64_to_string(line).as_str());
                    proof {
                        assert(out@ =~= spec_line_info(self.line_number, self.start_line));
                    }
                    out
                }
            },
            (Some(line), None) => {
                let mut out = String::new();
                out.append("line ");
                out.append(crate::text::i64_to_string(line).as_str());
                proof {
                    assert(out@ =~= spec_line_info(self.line_number, self.start_line));
                }
                out
            },
            (None, Some(start)) => {
                let mut out = String::new();
                out.append("line ");
                out.append(crate::text::i64_to_string(start).as_str());
                proof {
                    assert(out@ =~= spec_line_info(self.line_number, self.start_line));
                }
                out
            },
            (None, None) => {
                let out = String::from_str("line unknown");
                out
            },
        }
    }

    /// The code snippet near the comment: drops `@@` hunk headers and keeps
    /// at most the trailing `max_lines` lines of the diff hunk.
    pub fn get_code_snippet(&self, max_lines: usize) -> (r: String)
        ensures
            r@ == spec_snippet(self.diff_hunk@, max_lines as int),
    {
        if self.diff_hunk.as_str().is_empty() {
            return String::new();
        }
        let v = crate::text::chars_of(self.diff_hunk.as_str());
        let ls = crate::text::lines_of(&v);
        let ghost lsv = ls@.map_values(|l: Vec<char>| l@);
        let ghost pred = |l: Seq<char>| !is_hunk_header(l);
        let mut kept: Vec<Vec<char>> = Vec::new();
        let mut i: usize = 0;
        while i < ls.len()
            invariant
                i <= ls.len(),
                lsv == ls@.map_values(|l: Vec<char>| l@),
                pred == (|l: Seq<char>| !is_hunk_header(l)),
                kept@.map_values(|l: Vec<char>| l@) == lsv.take(i as int).filter(pred),
            decreases ls.len() - i,
        {
            let ghost prev = kept@.map_values(|l: Vec<char>| l@);
            let line = &ls[i];
            let keep: bool = !(line.len() >= 2 && line[0] == '@' && line[1] == '@');
            proof {
                reveal(Seq::filter);
                assert(lsv.take(i + 1).drop_last() =~= lsv.take(i as int));
                assert(lsv.take(i + 1).last() == lsv[i as int]);
                assert(lsv[i as int] == ls@[i as int]@);
                assert(keep == pred(lsv[i as int]));
            }
            if keep {
                let mut copy: Vec<char> = Vec::new();
                crate::text::push_chars(&mut copy, line);
                kept.push(copy);
                proof {
                    assert(copy@ =~= lsv[i as int]);
                    assert(kept@.map_values(|l: Vec<char>| l@) =~= prev.push(lsv[i as int]));
                }
            }
            i += 1;
        }
        proof {
            assert(lsv.take(lsv.len() as int) =~= lsv);
        }
        if kept.len() == 0 {
            return String::new();
        }
        let start: usize = if kept.len() > max_lines {
            kept.len() - max_lines
        } else {
            0
        };
        let mut tail: Vec<Vec<char>> = Vec::new();
        let mut j: usize = start;
        while j < kept.len()
            invariant
                start <= j <= kept.len(),
                tail@.map_values(|l: Vec<char>| l@) == kept@.map_values(|l: Vec<char>| l@)
                    .subrange(start as int, j as int),
            decreases kept.len() - j,
        {
            let ghost prev = tail@.map_values(|l: Vec<char>| l@);
            let mut copy: Vec<char> = Vec::new();
            crate::text::push_chars(&mut copy, &kept[j]);
            tail.push(copy);
            proof {
                let kv = kept@.map_values(|l: Vec<char>| l@);
                assert(copy@ =~= kv[j as int]);
                assert(kv.subrange(start as int, j + 1) =~= kv.subrange(
                    start as int,
                    j as int,
                ).push(kv[j as int]));
                assert(tail@.map_values(|l: Vec<char>| l@) =~= prev.push(kv[j as int]));
            }
            j += 1;
        }
        let joined = crate::text::join_nl(&tail);
        proof {
            let kv = kept@.map_values(|l: Vec<char>| l@);
            assert(kv.subrange(start as int, kv.len() as int) =~= kv.skip(start as int));
        }
        crate::text::chars_to_string(&joined)
    }
}

/// The mathematical value of an optional string.
pub open spec fn opt_str_view(o: Option<String>) -> Option<Seq<char>> {
    match o {
        Some(s) => Some(s@),
        None => None,
    }
}

/// The mathematical value of a comment.
#[verifier::ext_equal]
pub struct CommentView {
    pub id: i64,
    pub node_id: Option<Seq<char>>,
    pub file_path: Seq<char>,
    pub line_number: Option<i64>,
    pub start_line: Option<i64>,
    pub author: Seq<char>,
    pub body: Seq<char>,
    pub created_at: int,
    pub updated_at: int,
    pub diff_hunk: Seq<char>,
    pub html_url: Seq<char>,
}

/// The mathematical value of a `PRComment`.
pub open spec fn comment_view(c: PRComment) -> CommentView {
    CommentView {
        id: c.id,
        node_id: opt_str_view(c.node_id),
        file_path: c.file_path@,
        line_number: c.line_number,
        start_line: c.start_line,
        author: c.author@,
        body: c.body@,
        created_at: c.created_at as int,
        updated_at: c.updated_at as int,
        diff_hunk: c.diff_hunk@,
        html_url: c.html_url@,
    }
}

/// An equal copy of an optional string.
pub fn clone_opt_string(o: &Option<String>) -> (r: Option<String>)
    ensures
        r == *o,
{
    match o {
        Option::Some(s) => Option::Some(s.clone()),
        Option::None => Option::None,
    }
}

/// The conclusion of one CI check.
#[derive(Debug, Clone, Copy, PartialEq, Eq, Structural)]
pub enum CheckConclusion {
    Success,
    Failure,
    Pending,
    Skipped,
    Cancelled,
    TimedOut,
    ActionRequired,
    Neutral,
    Stale,
    Unknown,
}

/// The short display label of a conclusion.
pub open spec fn spec_display_icon(c: CheckConclusion) -> Seq<char> {
    match c {
        CheckConclusion::Success => "PASS"@,
        CheckConclusion::Failure => "FAIL"@,
        CheckConclusion::Pending => "PENDING"@,
        CheckConclusion::Skipped => "SKIP"@,
        CheckConclusion::Cancelled => "CANCELLED"@,
        CheckConclusion::TimedOut => "TIMED_OUT"@,
        CheckConclusion::ActionRequired => "ACTION_REQUIRED"@,
        CheckConclusion::Neutral => "NEUTRAL"@,
        CheckConclusion::Stale => "STALE"@,
        CheckConclusion::Unknown => "UNKNOWN"@,
    }
}

/// A conclusion that counts as a failure: Failure, TimedOut, ActionRequired
/// or Cancelled.
pub open spec fn spec_is_failure(c: CheckConclusion) -> bool {
    c is Failure || c is TimedOut || c is ActionRequired || c is Cancelled
}

impl CheckConclusion {
    /// A short label for display.
    pub fn display_icon(&self) -> (r: &'static str)
        ensures
            r@ == spec_display_icon(*self),
    {
        match self {
            CheckConclusion::Success => "PASS",
            CheckConclusion::Failure => "FAIL",
            CheckConclusion::Pending => "PENDING",
            CheckConclusion::Skipped => "SKIP",
            CheckConclusion::Cancelled => "CANCELLED",
            CheckConclusion::TimedOut => "TIMED_OUT",
            CheckConclusion::ActionRequired => "ACTION_REQUIRED",
            CheckConclusion::Neutral => "NEUTRAL",
            CheckConclusion::Stale => "STALE",
            CheckConclusion::Unknown => "UNKNOWN",
        }
    }

    /// Whether this conclusion is a failure state.
    pub fn is_failure(&self) -> (r: bool)
        ensures
            r == spec_is_failure(*self),
    {
        match self {
            CheckConclusion::Failure
            | CheckConclusion::TimedOut
            | CheckConclusion::ActionRequired
            | CheckConclusion::Cancelled => true,
            _ => false,
        }
    }
}

/// The encoding label of a conclusion, as the JSON format writes it.
pub open spec fn spec_conclusion_code(c: CheckConclusion) -> Seq<char> {
    match c {
        CheckConclusion::Success => "SUCCESS"@,
        CheckConclusion::Failure => "FAILURE"@,
        CheckConclusion::Pending => "PENDING"@,
        CheckConclusion::Skipped => "SKIPPED"@,
        CheckConclusion::Cancelled => "CANCELLED"@,
        CheckConclusion::TimedOut => "TIMED_OUT"@,
        CheckConclusion::ActionRequired => "ACTION_REQUIRED"@,
        CheckConclusion::Neutral => "NEUTRAL"@,
        CheckConclusion::Stale => "STALE"@,
        CheckConclusion::Unknown => "UNKNOWN"@,
    }
}

/// The conclusion a label decodes to, when it is one of the ten.
pub open spec fn spec_conclusion_of_code(s: Seq<char>) -> Option<CheckConclusion> {
    if s == "SUCCESS"@ {
        Some(CheckConclusion::Success)
    } else if s == "FAILURE"@ {
        Some(CheckConclusion::Failure)
    } else if s == "PENDING"@ {
        Some(CheckConclusion::Pending)
    } else if s == "SKIPPED"@ {
        Some(CheckConclusion::Skipped)
    } else if s == "CANCELLED"@ {
        Some(CheckConclusion::Cancelled)
    } else if s == "TIMED_OUT"@ {
        Some(CheckConclusion::TimedOut)
    } else if s == "ACTION_REQUIRED"@ {
        Some(CheckConclusion::ActionRequired)
    } else if s == "STALE"@ {
        Some(CheckConclusion::Stale)
    } else if s == "NEUTRAL"@ {
        Some(CheckConclusion::Neutral)
    } else if s == "UNKNOWN"@ {
        Some(CheckConclusion::Unknown)
    } else {
        None
    }
}

/// Encoding and decoding a conclusion label are inverse to one another.
pub proof fn lemma_conclusion_code_round_trip(c: CheckConclusion)
    ensures
        spec_conclusion_of_code(spec_conclusion_code(c)) == Some(c),
{
    reveal_strlit("SUCCESS");
    reveal_strlit("FAILURE");
    reveal_strlit("PENDING");
    reveal_strlit("SKIPPED");
    reveal_strlit("CANCELLED");
    reveal_strlit("TIMED_OUT");
    reveal_strlit("ACTION_REQUIRED");
    reveal_strlit("NEUTRAL");
    reveal_strlit("STALE");
    reveal_strlit("UNKNOWN");
    assert(("SUCCESS"@).len() == 7 && ("SUCCESS"@)[0] == 'S' && ("SUCCESS"@)[1] == 'U');
    assert(("FAILURE"@).len() == 7 && ("FAILURE"@)[0] == 'F');
    assert(("PENDING"@).len() == 7 && ("PENDING"@)[0] == 'P');
    assert(("SKIPPED"@).len() == 7 && ("SKIPPED"@)[0] == 'S' && ("SKIPPED"@)[1] == 'K');
    assert(("CANCELLED"@).len() == 9 && ("CANCELLED"@)[0] == 'C');
    assert(("TIMED_OUT"@).len() == 9 && ("TIMED_OUT"@)[0] == 'T');
    assert(("ACTION_REQUIRED"@).len() == 15);
    assert(("NEUTRAL"@).len() == 7 && ("NEUTRAL"@)[0] == 'N');
    assert(("STALE"@).len() == 5);
    assert(("UNKNOWN"@).len() == 7 && ("UNKNOWN"@)[0] == 'U');
}

impl CheckConclusion {
    /// The encoding label, as the JSON format writes it.
    pub fn code(&self) -> (r: &'static str)
        ensures
            r@ == spec_conclusion_code(*self),
    {
        match self {
            CheckConclusion::Success => "SUCCESS",
            CheckConclusion::Failure => "FAILURE",
            CheckConclusion::Pending => "PENDING",
            CheckConclusion::Skipped => "SKIPPED",
            CheckConclusion::Cancelled => "CANCELLED",
            CheckConclusion::TimedOut => "TIMED_OUT",
            CheckConclusion::ActionRequired => "ACTION_REQUIRED",
            CheckConclusion::Neutral => "NEUTRAL",
            CheckConclusion::Stale => "STALE",
            CheckConclusion::Unknown => "UNKNOWN",
        }
    }

    /// Decodes an encoding label; `None` for any other string.
    pub fn from_code(s: &str) -> (r: Option<CheckConclusion>)
        ensures
            r == spec_conclusion_of_code(s@),
    {
        if crate::text::str_eq_lit(s, "SUCCESS") {
            Some(CheckConclusion::Success)
        } else if crate::text::str_eq_lit(s, "FAILURE") {
            Some(CheckConclusion::Failure)
        } else if crate::text::str_eq_lit(s, "PENDING") {
            Some(CheckConclusion::Pending)
        } else if crate::text::str_eq_lit(s, "SKIPPED") {
            Some(CheckConclusion::Skipped)
        } else if crate::text::str_eq_lit(s, "CANCELLED") {
            Some(CheckConclusion::Cancelled)
        } else if crate::text::str_eq_lit(s, "TIMED_OUT") {
            Some(CheckConclusion::TimedOut)
        } else if crate::text::str_eq_lit(s, "ACTION_REQUIRED") {
            Some(CheckConclusion::ActionRequired)
        } else if crate::text::str_eq_lit(s, "STALE") {
            Some(CheckConclusion::Stale)
        } else if crate::text::str_eq_lit(s, "NEUTRAL") {
            Some(CheckConclusion::Neutral)
        } else if crate::text::str_eq_lit(s, "UNKNOWN") {
            Some(CheckConclusion::Unknown)
        } else {
            None
        }
    }
}

/// Which of the two GitHub check mechanisms a check came from.
#[derive(Debug, Clone, Copy, PartialEq, Eq, Structural)]
pub enum CheckType {
    CheckRun,
    StatusContext,
}

/// One CI check result. Timestamps are UTC epoch milliseconds.
#[derive(Debug, Clone, PartialEq)]
pub struct CheckStatus {
    pub name: String,
    pub conclusion: CheckConclusion,
    pub required: bool,
    pub description: Option<String>,
    pub details_url: Option<String>,
    pub started_at: Option<i64>,
    pub completed_at: Option<i64>,
    pub check_type: CheckType,
    pub workflow_name: Option<String>,
    pub app_name: Option<String>,
}

impl CheckStatus {
    /// An equal copy of the check.
    pub fn duplicate(&self) -> (r: Self)
        ensures
            r == *self,
    {
        CheckStatus {
            name: self.name.clone(),
            conclusion: self.conclusion,
            required: self.required,
            description: clone_opt_string(&self.description),
            details_url: clone_opt_string(&self.details_url),
            started_at: self.started_at,
            completed_at: self.completed_at,
            check_type: self.check_type,
            workflow_name: clone_opt_string(&self.workflow_name),
            app_name: clone_opt_string(&self.app_name),
        }
    }
}

/// The encoding label of a check kind.
pub open spec fn spec_check_type_code(t: CheckType) -> Seq<char> {
    match t {
        CheckType::CheckRun => "CheckRun"@,
        CheckType::StatusContext => "StatusContext"@,
    }
}

/// The check kind a label decodes to.
pub open spec fn spec_check_type_of_code(s: Seq<char>) -> Option<CheckType> {
    if s == "CheckRun"@ {
        Some(CheckType::CheckRun)
    } else if s == "StatusContext"@ {
        Some(CheckType::StatusContext)
    } else {
        None
    }
}

/// Encoding and decoding a check kind are inverse to one another.
pub proof fn lemma_check_type_code_round_trip(t: CheckType)
    ensures
        spec_check_type_of_code(spec_check_type_code(t)) == Some(t),
{
    reveal_strlit("CheckRun");
    reveal_strlit("StatusContext");
    assert(("CheckRun"@).len() == 8);
    assert(("StatusContext"@).len() == 13);
}

impl CheckType {
    /// The encoding label of the check kind.
    pub fn code(&self) -> (r: &'static str)
        ensures
            r@ == spec_check_type_code(*self),
    {
        match self {
            CheckType::CheckRun => "CheckRun",
            CheckType::StatusContext => "StatusContext",
        }
    }

    /// Decodes an encoding label; `None` for any other string.
    pub fn from_code(s: &str) -> (r: Option<CheckType>)
        ensures
            r == spec_check_type_of_code(s@),
    {
        if crate::text::str_eq_lit(s, "CheckRun") {
            Some(CheckType::CheckRun)
        } else if crate::text::str_eq_lit(s, "StatusContext") {
            Some(CheckType::StatusContext)
        } else {
            None
        }
    }
}

/// The mathematical value of a check.
#[verifier::ext_equal]
pub struct CheckView {
    pub name: Seq<char>,
    pub conclusion: CheckConclusion,
    pub required: bool,
    pub description: Option<Seq<char>>,
    pub details_url: Option<Seq<char>>,
    pub started_at: Option<i64>,
    pub completed_at: Option<i64>,
    pub check_type: CheckType,
    pub workflow_name: Option<Seq<char>>,
    pub app_name: Option<Seq<char>>,
}

/// The mathematical value of a `CheckStatus`.
pub open spec fn check_view(c: CheckStatus) -> CheckView {
    CheckView {
        name: c.name@,
        conclusion: c.conclusion,
        required: c.required,
        description: opt_str_view(c.description),
        details_url: opt_str_view(c.details_url),
        started_at: c.started_at,
        completed_at: c.completed_at,
        check_type: c.check_type,
        workflow_name: opt_str_view(c.workflow_name),
        app_name: opt_str_view(c.app_name),
    }
}

/// The aggregate status across all checks on a commit.
#[derive(Debug, Clone, Copy, PartialEq, Eq, Structural)]
pub enum RollupState {
    Success,
    Failure,
    Pending,
    Error,
    Expected,
    Unknown,
}

/// The upper-case label of a rollup state.
pub open spec fn spec_rollup_label(s: RollupState) -> Seq<char> {
    match s {
        RollupState::Success => "SUCCESS"@,
        RollupState::Failure => "FAILURE"@,
        RollupState::Pending => "PENDING"@,
        RollupState::Error => "ERROR"@,
        RollupState::Expected => "EXPECTED"@,
        RollupState::Unknown => "UNKNOWN"@,
    }
}

impl RollupState {
    /// The upper-case label, as the rollup state is displayed and encoded.
    pub fn label(&self) -> (r: &'static str)
        ensures
            r@ == spec_rollup_label(*self),
    {
        match self {
            RollupState::Success => "SUCCESS",
            RollupState::Failure => "FAILURE",
            RollupState::Pending => "PENDING",
            RollupState::Error => "ERROR",
            RollupState::Expected => "EXPECTED",
            RollupState::Unknown => "UNKNOWN",
        }
    }
}

/// The rollup state an upper-case label decodes to; any stranger reads as
/// unknown.
pub open spec fn spec_rollup_of_label(s: Seq<char>) -> RollupState {
    if s == "SUCCESS"@ {
        RollupState::Success
    } else if s == "FAILURE"@ {
        RollupState::Failure
    } else if s == "PENDING"@ {
        RollupState::Pending
    } else if s == "ERROR"@ {
        RollupState::Error
    } else if s == "EXPECTED"@ {
        RollupState::Expected
    } else {
        RollupState::Unknown
    }
}

/// Rendering and reading a rollup label are inverse to one another.
pub proof fn lemma_rollup_label_round_trip(s: RollupState)
    ensures
        spec_rollup_of_label(spec_rollup_label(s)) == s,
{
    reveal_strlit("SUCCESS");
    reveal_strlit("FAILURE");
    reveal_strlit("PENDING");
    reveal_strlit("ERROR");
    reveal_strlit("EXPECTED");
    reveal_strlit("UNKNOWN");
    assert(("SUCCESS"@).len() == 7 && ("SUCCESS"@)[0] == 'S');
    assert(("FAILURE"@).len() == 7 && ("FAILURE"@)[0] == 'F');
    assert(("PENDING"@).len() == 7 && ("PENDING"@)[0] == 'P');
    assert(("ERROR"@).len() == 5);
    assert(("EXPECTED"@).len() == 8);
    assert(("UNKNOWN"@).len() == 7 && ("UNKNOWN"@)[0] == 'U');
}

impl RollupState {
    /// Reads an upper-case label back; any stranger is unknown.
    pub fn from_label(s: &str) -> (r: RollupState)
        ensures
            r == spec_rollup_of_label(s@),
    {
        if crate::text::str_eq_lit(s, "SUCCESS") {
            RollupState::Success
        } else if crate::text::str_eq_lit(s, "FAILURE") {
            RollupState::Failure
        } else if crate::text::str_eq_lit(s, "PENDING") {
            RollupState::Pending
        } else if crate::text::str_eq_lit(s, "ERROR") {
            RollupState::Error
        } else if crate::text::str_eq_lit(s, "EXPECTED") {
            RollupState::Expected
        } else {
            RollupState::Unknown
        }
    }
}

/// The checks report for one pull request.
#[derive(Debug, Clone, PartialEq)]
pub struct ChecksReport {
    pub pr_title: Option<String>,
    pub pr_url: Option<String>,
    pub rollup_state: RollupState,
    pub checks: Vec<CheckStatus>,
}

/// The mathematical value of a checks report.
#[verifier::ext_equal]
pub struct ReportView {
    pub pr_title: Option<Seq<char>>,
    pub pr_url: Option<Seq<char>>,
    pub rollup_state: RollupState,
    pub checks: Seq<CheckView>,
}

/// The mathematical value of a `ChecksReport`.
pub open spec fn report_view(r: ChecksReport) -> ReportView {
    ReportView {
        pr_title: opt_str_view(r.pr_title),
        pr_url: opt_str_view(r.pr_url),
        rollup_state: r.rollup_state,
        checks: r.checks@.map_values(|c: CheckStatus| check_view(c)),
    }
}

/// Summary counts over a checks report.
#[derive(Debug, Clone)]
pub struct ChecksSummary {
    pub passed: usize,
    pub failed: usize,
    pub pending: usize,
    pub skipped: usize,
    pub total: usize,
}

/// The check is a failed one and required.
pub open spec fn pred_failed_required(c: CheckStatus) -> bool {
    spec_is_failure(c.conclusion) && c.required
}

/// The check is a failed one and optional.
pub open spec fn pred_failed_optional(c: CheckStatus) -> bool {
    spec_is_failure(c.conclusion) && !c.required
}

/// The check passed and is required.
pub open spec fn pred_passed_required(c: CheckStatus) -> bool {
    c.conclusion is Success && c.required
}

/// The check passed and is optional.
pub open spec fn pred_passed_optional(c: CheckStatus) -> bool {
    c.conclusion is Success && !c.required
}

/// The check is still pending.
pub open spec fn pred_pending(c: CheckStatus) -> bool {
    c.conclusion is Pending
}

/// The check was skipped or reported neutral.
pub open spec fn pred_skipped(c: CheckStatus) -> bool {
    c.conclusion is Skipped || c.conclusion is Neutral
}

/// The check passed, required or not.
pub open spec fn pred_passed(c: CheckStatus) -> bool {
    c.conclusion is Success
}

/// The check failed, required or not.
pub open spec fn pred_failed(c: CheckStatus) -> bool {
    spec_is_failure(c.conclusion)
}

impl ChecksReport {
    /// The checks that failed and are required, in report order.
    pub fn failed_required(&self) -> (r: Vec<CheckStatus>)
        ensures
            r@ == self.checks@.filter(|c: CheckStatus| pred_failed_required(c)),
    {
        filter_checks(&self.checks, 0)
    }

    /// The checks that failed and are optional, in report order.
    pub fn failed_optional(&self) -> (r: Vec<CheckStatus>)
        ensures
            r@ == self.checks@.filter(|c: CheckStatus| pred_failed_optional(c)),
    {
        filter_checks(&self.checks, 1)
    }

    /// The checks that passed and are required, in report order.
    pub fn passed_required(&self) -> (r: Vec<CheckStatus>)
        ensures
            r@ == self.checks@.filter(|c: CheckStatus| pred_passed_required(c)),
    {
        filter_checks(&self.checks, 2)
    }

    /// The checks that passed and are optional, in report order.
    pub fn passed_optional(&self) -> (r: Vec<CheckStatus>)
        ensures
            r@ == self.checks@.filter(|c: CheckStatus| pred_passed_optional(c)),
    {
        filter_checks(&self.checks, 3)
    }

    /// The checks that are still pending, in report order.
    pub fn pending(&self) -> (r: Vec<CheckStatus>)
        ensures
            r@ == self.checks@.filter(|c: CheckStatus| pred_pending(c)),
    {
        filter_checks(&self.checks, 4)
    }

    /// The checks that were skipped or neutral, in report order.
    pub fn skipped(&self) -> (r: Vec<CheckStatus>)
        ensures
            r@ == self.checks@.filter(|c: CheckStatus| pred_skipped(c)),
    {
        filter_checks(&self.checks, 5)
    }

    /// Counts of passed, failed, pending and skipped checks, with the total.
    pub fn summary_counts(&self) -> (r: ChecksSummary)
        ensures
            r.passed == self.checks@.filter(|c: CheckStatus| pred_passed(c)).len(),
            r.failed == self.checks@.filter(|c: CheckStatus| pred_failed(c)).len(),
            r.pending == self.checks@.filter(|c: CheckStatus| pred_pending(c)).len(),
            r.skipped == self.checks@.filter(|c: CheckStatus| pred_skipped(c)).len(),
            r.total == self.checks@.len(),
    {
        let passed = filter_checks(&self.checks, 6).len();
        let failed = filter_checks(&self.checks, 7).len();
        let pending = filter_checks(&self.checks, 4).len();
        let skipped = filter_checks(&self.checks, 5).len();
        ChecksSummary { passed, failed, pending, skipped, total: self.checks.len() }
    }
}

/// The predicate that a filter selector stands for.
pub open spec fn spec_check_pred(sel: u8) -> spec_fn(CheckStatus) -> bool {
    if sel == 0 {
        |c: CheckStatus| pred_failed_required(c)
    } else if sel == 1 {
        |c: CheckStatus| pred_failed_optional(c)
    } else if sel == 2 {
        |c: CheckStatus| pred_passed_required(c)
    } else if sel == 3 {
        |c: CheckStatus| pred_passed_optional(c)
    } else if sel == 4 {
        |c: CheckStatus| pred_pending(c)
    } else if sel == 5 {
        |c: CheckStatus| pred_skipped(c)
    } else if sel == 6 {
        |c: CheckStatus| pred_passed(c)
    } else {
        |c: CheckStatus| pred_failed(c)
    }
}

/// Keeps the checks satisfying the selected predicate, in order.
fn filter_checks(checks: &Vec<CheckStatus>, sel: u8) -> (r: Vec<CheckStatus>)
    ensures
        r@ == checks@.filter(spec_check_pred(sel)),
{
    let ghost pred = spec_check_pred(sel);
    let mut out: Vec<CheckStatus> = Vec::new();
    let mut i: usize = 0;
    while i < checks.len()
        invariant
            i <= checks.len(),
            pred == spec_check_pred(sel),
            out@ == checks@.take(i as int).filter(pred),
        decreases checks.len() - i,
    {
        let c = &checks[i];
        let failing = c.conclusion.is_failure();
        let keep: bool = if sel == 0 {
            failing && c.required
        } else if sel == 1 {
            failing && !c.required
        } else if sel == 2 {
            matches!(c.conclusion, CheckConclusion::Success) && c.required
        } else if sel == 3 {
            matches!(c.conclusion, CheckConclusion::Success) && !c.required
        } else if sel == 4 {
            matches!(c.conclusion, CheckConclusion::Pending)
        } else if sel == 5 {
            matches!(c.conclusion, CheckConclusion::Skipped | CheckConclusion::Neutral)
        } else if sel == 6 {
            matches!(c.conclusion, CheckConclusion::Success)
        } else {
            failing
        };
        proof {
            reveal(Seq::filter);
            assert(checks@.take(i + 1).drop_last() =~= checks@.take(i as int));
            assert(checks@.take(i + 1).last() == checks@[i as int]);
            assert(keep == pred(checks@[i as int]));
        }
        if keep {
            out.push(c.duplicate());
        }
        i += 1;
    }
    proof {
        assert(checks@.take(checks@.len() as int) =~= checks@);
    }
    out
}

} // verus!
