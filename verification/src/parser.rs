//! Normalization of raw JSON payloads: line comments, review comments and
//! CI check nodes become model values; malformed items are silently dropped,
//! missing top-level structure is a hard error. Also the derived operations
//! over parsed comments: filtering by author, keeping the most recent
//! comment per file, and grouping by file.

use vstd::prelude::*;
use crate::error::GitHubAPIError;
use crate::jsonval::{Json, JsonV, json_view, json_views, jv_get, jv_get_i64, jv_get_str,
    jv_get_bool, jv_get_idx, lemma_json_views_index};
use crate::models::{PRComment, CommentView, CheckStatus, CheckView, CheckConclusion, CheckType,
    ChecksReport, ReportView, RollupState, comment_view, check_view, report_view};
use crate::sanitizer::{strip_html, spec_strip_html};
use crate::text::{spec_all_ws, all_ws, chars_of, str_eq_lit};

verus! {

broadcast use vstd::seq_lib::group_seq_properties;

/// The instant a timestamp string denotes, in UTC epoch milliseconds, when
/// the string is a well-formed RFC 3339 date-and-time.
pub uninterp spec fn datetime_of(s: Seq<char>) -> Option<int>;

/// Reads an RFC 3339 timestamp, with or without fractional seconds, into
/// UTC epoch milliseconds.
///
/// Relies on chrono's `DateTime::parse_from_rfc3339` and `timestamp_millis`:
/// the result depends on the characters alone, and RFC 3339 admits
/// four-digit years only, so every parsed instant lies within the stated
/// bounds.
#[verifier::external_body]
pub fn parse_datetime(dt_str: &str) -> (r: Option<i64>)
    ensures
        r is Some <==> datetime_of(dt_str@) is Some,
        r is Some ==> Some(r->0 as int) == datetime_of(dt_str@),
        r is Some ==> -62_167_400_000_000 <= r->0 <= 253_402_400_000_000,
{
    chrono::DateTime::parse_from_rfc3339(dt_str).ok().map(|d| d.timestamp_millis())
}

/// The RFC 3339 rendering of an instant given in UTC epoch milliseconds.
pub uninterp spec fn rfc3339_of(t: int) -> Seq<char>;

/// Renders UTC epoch milliseconds as an RFC 3339 timestamp with millisecond
/// precision and a `Z` suffix; empty for an instant no calendar date can
/// carry.
///
/// Relies on chrono's `DateTime::from_timestamp_millis` and
/// `to_rfc3339_opts`: the rendering depends on the instant alone, and chrono
/// documents that `from_timestamp_millis` round-trips with
/// `timestamp_millis`, so for instants within the four-digit-year range
/// parsing the rendered text gives the same instant back.
#[verifier::external_body]
pub(crate) fn format_rfc3339(t: i64) -> (r: String)
    ensures
        r@ == rfc3339_of(t as int),
        (-62_167_219_200_000 <= t && t <= 253_402_300_799_999) ==> datetime_of(r@) == Some(
            t as int,
        ),
{
    match chrono::DateTime::<chrono::Utc>::from_timestamp_millis(t) {
        Some(d) => d.to_rfc3339_opts(chrono::SecondsFormat::Millis, true),
        None => String::new(),
    }
}

/// The display rendering (`YYYY-MM-DD HH:MM UTC`) of an instant given in UTC
/// epoch milliseconds.
pub uninterp spec fn display_ts_of(t: int) -> Seq<char>;

/// Renders UTC epoch milliseconds as `YYYY-MM-DD HH:MM UTC`; empty for an
/// instant no calendar date can carry.
///
/// Relies on chrono's `DateTime::from_timestamp_millis` and strftime-style
/// `format`: the rendering depends on the instant alone.
#[verifier::external_body]
pub(crate) fn format_timestamp(t: i64) -> (r: String)
    ensures
        r@ == display_ts_of(t as int),
{
    match chrono::DateTime::<chrono::Utc>::from_timestamp_millis(t) {
        Some(d) => d.format("%Y-%m-%d %H:%M UTC").to_string(),
        None => String::new(),
    }
}

/// The string field's characters, or the empty sequence when the field is
/// missing or not a string.
pub open spec fn jv_str_or_empty(v: JsonV, key: Seq<char>) -> Seq<char> {
    match jv_get_str(v, key) {
        Some(s) => s,
        None => Seq::empty(),
    }
}

/// The instant a string field denotes, when present and well formed.
pub open spec fn jv_ts(v: JsonV, key: Seq<char>) -> Option<int> {
    match jv_get_str(v, key) {
        Some(s) => datetime_of(s),
        None => None,
    }
}

/// An integer field with a fallback: the first key wins when it holds an
/// integer, else the second is read.
pub open spec fn jv_line_fallback(v: JsonV, k1: Seq<char>, k2: Seq<char>) -> Option<i64> {
    match jv_get_i64(v, k1) {
        Some(n) => Some(n),
        None => jv_get_i64(v, k2),
    }
}

/// The author handle at `user.login`, or `"unknown"` when the path is
/// missing at any level.
pub open spec fn jv_author(v: JsonV) -> Seq<char> {
    match jv_get(v, "user"@) {
        Some(u) => match jv_get_str(u, "login"@) {
            Some(l) => l,
            None => "unknown"@,
        },
        None => "unknown"@,
    }
}

/// An optional instant narrowed to epoch milliseconds.
pub open spec fn ts_to_i64(o: Option<int>) -> Option<i64> {
    match o {
        Some(t) => Some(t as i64),
        None => None,
    }
}

/// How one raw line-comment object parses: dropped without an integer `id`
/// or well-formed `created_at` and `updated_at`; otherwise every field is
/// read with its documented fallback and the body is sanitized.
pub open spec fn spec_parse_comment(v: JsonV) -> Option<CommentView> {
    let id = jv_get_i64(v, "id"@);
    let created = jv_ts(v, "created_at"@);
    let updated = jv_ts(v, "updated_at"@);
    if id is None || created is None || updated is None {
        None
    } else {
        Some(
            CommentView {
                id: id->0,
                node_id: jv_get_str(v, "node_id"@),
                file_path: jv_str_or_empty(v, "path"@),
                line_number: jv_line_fallback(v, "line"@, "original_line"@),
                start_line: jv_line_fallback(v, "start_line"@, "original_start_line"@),
                author: jv_author(v),
                body: spec_strip_html(jv_str_or_empty(v, "body"@)),
                created_at: created->0,
                updated_at: updated->0,
                diff_hunk: jv_str_or_empty(v, "diff_hunk"@),
                html_url: jv_str_or_empty(v, "html_url"@),
            },
        )
    }
}

/// The surviving parses of a batch, in input order.
pub open spec fn spec_parse_comments(vs: Seq<JsonV>) -> Seq<CommentView>
    decreases vs.len(),
{
    if vs.len() == 0 {
        Seq::empty()
    } else {
        let prev = spec_parse_comments(vs.drop_last());
        match spec_parse_comment(vs.last()) {
            Some(c) => prev.push(c),
            None => prev,
        }
    }
}

/// How one raw review object parses: dropped without an integer `id`, a
/// body with visible text, or a well-formed `submitted_at`; a review carries
/// no code location, and its single timestamp stands for both created and
/// updated.
pub open spec fn spec_parse_review_comment(v: JsonV) -> Option<CommentView> {
    let id = jv_get_i64(v, "id"@);
    let body = jv_get_str(v, "body"@);
    let submitted = jv_ts(v, "submitted_at"@);
    if id is None {
        None
    } else if body is None || spec_all_ws(body->0) {
        None
    } else if submitted is None {
        None
    } else {
        Some(
            CommentView {
                id: id->0,
                node_id: jv_get_str(v, "node_id"@),
                file_path: Seq::empty(),
                line_number: None,
                start_line: None,
                author: jv_author(v),
                body: spec_strip_html(body->0),
                created_at: submitted->0,
                updated_at: submitted->0,
                diff_hunk: Seq::empty(),
                html_url: jv_str_or_empty(v, "html_url"@),
            },
        )
    }
}

/// The surviving review parses of a batch, in input order.
pub open spec fn spec_parse_review_comments(vs: Seq<JsonV>) -> Seq<CommentView>
    decreases vs.len(),
{
    if vs.len() == 0 {
        Seq::empty()
    } else {
        let prev = spec_parse_review_comments(vs.drop_last());
        match spec_parse_review_comment(vs.last()) {
            Some(c) => prev.push(c),
            None => prev,
        }
    }
}

/// The string field as an owned string, or empty.
fn get_str_or_empty(j: &Json, key: &str) -> (r: String)
    ensures
        r@ == jv_str_or_empty(json_view(*j), key@),
{
    match j.get_str(key) {
        Some(s) => s,
        None => String::new(),
    }
}

/// The integer field under `k1`, else under `k2`, else absent.
fn get_i64_fallback(j: &Json, k1: &str, k2: &str) -> (r: Option<i64>)
    ensures
        r == jv_line_fallback(json_view(*j), k1@, k2@),
{
    match j.get_i64(k1) {
        Some(n) => Some(n),
        None => j.get_i64(k2),
    }
}

/// The author handle at `user.login`, defaulting to `"unknown"`.
fn get_author(j: &Json) -> (r: String)
    ensures
        r@ == jv_author(json_view(*j)),
{
    match j.get("user") {
        Some(u) => match u.get_str("login") {
            Some(l) => l,
            None => String::from_str("unknown"),
        },
        None => String::from_str("unknown"),
    }
}

/// The instant under a string field, when present and well formed.
fn get_ts(j: &Json, key: &str) -> (r: Option<i64>)
    ensures
        r is Some <==> jv_ts(json_view(*j), key@) is Some,
        r is Some ==> Some(r->0 as int) == jv_ts(json_view(*j), key@),
{
    match j.get_str(key) {
        Some(s) => parse_datetime(s.as_str()),
        None => None,
    }
}

/// Parses a single raw line-comment object into a comment; malformed items
/// give `None`, never an error.
pub fn parse_comment(comment_data: &Json) -> (r: Option<PRComment>)
    ensures
        r is Some <==> spec_parse_comment(json_view(*comment_data)) is Some,
        r is Some ==> Some(comment_view(r->0)) == spec_parse_comment(json_view(*comment_data)),
{
    let id = match comment_data.get_i64("id") {
        Some(n) => n,
        None => {
            return None;
        },
    };
    let node_id = comment_data.get_str("node_id");
    let file_path = get_str_or_empty(comment_data, "path");
    let line_number = get_i64_fallback(comment_data, "line", "original_line");
    let start_line = get_i64_fallback(comment_data, "start_line", "original_start_line");
    let author = get_author(comment_data);
    let raw_body = get_str_or_empty(comment_data, "body");
    let body = strip_html(raw_body.as_str());
    let created_at = match get_ts(comment_data, "created_at") {
        Some(t) => t,
        None => {
            return None;
        },
    };
    let updated_at = match get_ts(comment_data, "updated_at") {
        Some(t) => t,
        None => {
            return None;
        },
    };
    let diff_hunk = get_str_or_empty(comment_data, "diff_hunk");
    let html_url = get_str_or_empty(comment_data, "html_url");
    let c = PRComment {
        id,
        node_id,
        file_path,
        line_number,
        start_line,
        author,
        body,
        created_at,
        updated_at,
        diff_hunk,
        html_url,
    };
    proof {
        assert(comment_view(c) =~= spec_parse_comment(json_view(*comment_data))->0);
    }
    Some(c)
}

/// Parses a batch of raw line-comment objects, keeping the survivors in
/// input order.
pub fn parse_comments(comments_data: &Vec<Json>) -> (r: Vec<PRComment>)
    ensures
        r@.map_values(|c: PRComment| comment_view(c)) == spec_parse_comments(
            json_views(comments_data@),
        ),
{
    let ghost jsv = json_views(comments_data@);
    proof {
        lemma_json_views_index(comments_data@);
    }
    let mut out: Vec<PRComment> = Vec::new();
    let mut i: usize = 0;
    while i < comments_data.len()
        invariant
            i <= comments_data.len(),
            jsv == json_views(comments_data@),
            jsv.len() == comments_data@.len(),
            forall|k: int| 0 <= k < comments_data@.len() ==> jsv[k] == json_view(
                comments_data@[k],
            ),
            out@.map_values(|c: PRComment| comment_view(c)) == spec_parse_comments(
                jsv.take(i as int),
            ),
        decreases comments_data.len() - i,
    {
        let ghost prev = out@.map_values(|c: PRComment| comment_view(c));
        proof {
            assert(jsv.take(i + 1).drop_last() =~= jsv.take(i as int));
            assert(jsv.take(i + 1).last() == jsv[i as int]);
        }
        match parse_comment(&comments_data[i]) {
            Some(c) => {
                out.push(c);
                proof {
                    assert(out@.map_values(|c: PRComment| comment_view(c)) =~= prev.push(
                        comment_view(out@.last()),
                    ));
                }
            },
            None => {},
        }
        i += 1;
    }
    proof {
        assert(jsv.take(jsv.len() as int) =~= jsv);
    }
    out
}

/// Parses a single raw review object into a comment; reviews without
/// visible body text are dropped.
pub fn parse_review_comment(review_data: &Json) -> (r: Option<PRComment>)
    ensures
        r is Some <==> spec_parse_review_comment(json_view(*review_data)) is Some,
        r is Some ==> Some(comment_view(r->0)) == spec_parse_review_comment(
            json_view(*review_data),
        ),
{
    let id = match review_data.get_i64("id") {
        Some(n) => n,
        None => {
            return None;
        },
    };
    let node_id = review_data.get_str("node_id");
    let raw_body = match review_data.get_str("body") {
        Some(s) => s,
        None => {
            return None;
        },
    };
    let raw_chars = chars_of(raw_body.as_str());
    if all_ws(&raw_chars) {
        return None;
    }
    let body = strip_html(raw_body.as_str());
    let author = get_author(review_data);
    let submitted_at = match get_ts(review_data, "submitted_at") {
        Some(t) => t,
        None => {
            return None;
        },
    };
    let html_url = get_str_or_empty(review_data, "html_url");
    let c = PRComment {
        id,
        node_id,
        file_path: String::new(),
        line_number: None,
        start_line: None,
        author,
        body,
        created_at: submitted_at,
        updated_at: submitted_at,
        diff_hunk: String::new(),
        html_url,
    };
    proof {
        assert(comment_view(c) =~= spec_parse_review_comment(json_view(*review_data))->0);
    }
    Some(c)
}

/// Parses a batch of raw review objects, keeping the survivors in input
/// order.
pub fn parse_review_comments(reviews_data: &Vec<Json>) -> (r: Vec<PRComment>)
    ensures
        r@.map_values(|c: PRComment| comment_view(c)) == spec_parse_review_comments(
            json_views(reviews_data@),
        ),
{
    let ghost jsv = json_views(reviews_data@);
    proof {
        lemma_json_views_index(reviews_data@);
    }
    let mut out: Vec<PRComment> = Vec::new();
    let mut i: usize = 0;
    while i < reviews_data.len()
        invariant
            i <= reviews_data.len(),
            jsv == json_views(reviews_data@),
            jsv.len() == reviews_data@.len(),
            forall|k: int| 0 <= k < reviews_data@.len() ==> jsv[k] == json_view(
                reviews_data@[k],
            ),
            out@.map_values(|c: PRComment| comment_view(c)) == spec_parse_review_comments(
                jsv.take(i as int),
            ),
        decreases reviews_data.len() - i,
    {
        let ghost prev = out@.map_values(|c: PRComment| comment_view(c));
        proof {
            assert(jsv.take(i + 1).drop_last() =~= jsv.take(i as int));
            assert(jsv.take(i + 1).last() == jsv[i as int]);
        }
        match parse_review_comment(&reviews_data[i]) {
            Some(c) => {
                out.push(c);
                proof {
                    assert(out@.map_values(|c: PRComment| comment_view(c)) =~= prev.push(
                        comment_view(out@.last()),
                    ));
                }
            },
            None => {},
        }
        i += 1;
    }
    proof {
        assert(jsv.take(jsv.len() as int) =~= jsv);
    }
    out
}

/// Keeps the comments whose author equals the given handle exactly; no
/// handle, or an empty one, keeps everything.
pub fn filter_by_author(comments: Vec<PRComment>, author: Option<&str>) -> (r: Vec<PRComment>)
    ensures
        match author {
            Some(a) => if a@.len() == 0 {
                r@ == comments@
            } else {
                r@ == comments@.filter(|c: PRComment| c.author@ == a@)
            },
            None => r@ == comments@,
        },
{
    broadcast use vstd::seq_lib::group_filter_ensures;

    match author {
        Some(a) => {
            if a.unicode_len() == 0 {
                return comments;
            }
            let ghost pred = |c: PRComment| c.author@ == a@;
            let needle = a.to_owned();
            let mut out: Vec<PRComment> = Vec::new();
            let mut i: usize = 0;
            while i < comments.len()
                invariant
                    i <= comments.len(),
                    needle@ == a@,
                    pred == (|c: PRComment| c.author@ == a@),
                    out@ == comments@.take(i as int).filter(pred),
                decreases comments.len() - i,
            {
                let keep = comments[i].author.eq(&needle);
                proof {
                    reveal(Seq::filter);
                    assert(comments@.take(i + 1).drop_last() =~= comments@.take(i as int));
                    assert(comments@.take(i + 1).last() == comments@[i as int]);
                    assert(keep == pred(comments@[i as int]));
                }
                if keep {
                    out.push(comments[i].duplicate());
                }
                i += 1;
            }
            proof {
                assert(comments@.take(comments@.len() as int) =~= comments@);
            }
            out
        },
        None => comments,
    }
}

/// First index at or after `j` whose comment lies in the given file.
pub open spec fn find_path_from(cs: Seq<PRComment>, path: Seq<char>, j: int) -> Option<int>
    decreases cs.len() - j,
{
    if j < 0 || j >= cs.len() {
        None
    } else if cs[j].file_path@ == path {
        Some(j)
    } else {
        find_path_from(cs, path, j + 1)
    }
}

/// One comment per file: reading the input left to right, a file's first
/// comment opens its slot, and a later comment replaces the slot only when
/// its update time is strictly greater. Slots stand in first-seen file
/// order.
pub open spec fn spec_most_recent(cs: Seq<PRComment>) -> Seq<PRComment>
    decreases cs.len(),
{
    if cs.len() == 0 {
        Seq::empty()
    } else {
        let prev = spec_most_recent(cs.drop_last());
        let c = cs.last();
        match find_path_from(prev, c.file_path@, 0) {
            None => prev.push(c),
            Some(k) => if c.updated_at > prev[k].updated_at {
                prev.update(k, c)
            } else {
                prev
            },
        }
    }
}

/// First index in `out` holding the given file, scanned by hand.
#[verifier::loop_isolation(false)]
fn find_path_index(out: &Vec<PRComment>, path: &String) -> (r: Option<usize>)
    ensures
        match r {
            Some(k) => k < out@.len() && find_path_from(out@, path@, 0) == Some(k as int),
            None => find_path_from(out@, path@, 0) is None,
        },
{
    let mut j: usize = 0;
    while j < out.len()
        invariant
            j <= out.len(),
            find_path_from(out@, path@, 0) == find_path_from(out@, path@, j as int),
        decreases out.len() - j,
    {
        if out[j].file_path.eq(path) {
            return Some(j);
        }
        j += 1;
    }
    None
}

/// Keeps, for every file that occurs in the input, only its most recently
/// updated comment; on equal update times the earlier comment stays. The
/// result holds the files in first-seen order.
pub fn get_most_recent_per_file(comments: Vec<PRComment>) -> (r: Vec<PRComment>)
    ensures
        r@ == spec_most_recent(comments@),
{
    let mut out: Vec<PRComment> = Vec::new();
    let mut i: usize = 0;
    while i < comments.len()
        invariant
            i <= comments.len(),
            out@ == spec_most_recent(comments@.take(i as int)),
        decreases comments.len() - i,
    {
        proof {
            assert(comments@.take(i + 1).drop_last() =~= comments@.take(i as int));
            assert(comments@.take(i + 1).last() == comments@[i as int]);
        }
        let c = &comments[i];
        match find_path_index(&out, &c.file_path) {
            None => {
                out.push(c.duplicate());
            },
            Some(k) => {
                if c.updated_at > out[k].updated_at {
                    out.set(k, c.duplicate());
                }
            },
        }
        i += 1;
    }
    proof {
        assert(comments@.take(comments@.len() as int) =~= comments@);
    }
    out
}

/// The distinct file paths of the comments, each at its first occurrence.
pub open spec fn first_seen_paths(cs: Seq<PRComment>) -> Seq<Seq<char>>
    decreases cs.len(),
{
    if cs.len() == 0 {
        Seq::empty()
    } else {
        let prev = first_seen_paths(cs.drop_last());
        if prev.contains(cs.last().file_path@) {
            prev
        } else {
            prev.push(cs.last().file_path@)
        }
    }
}

/// The comments partitioned by file path: one group per distinct path in
/// first-seen order, each group holding that file's comments in input
/// order.
pub open spec fn spec_group_by_file(cs: Seq<PRComment>) -> Seq<(Seq<char>, Seq<PRComment>)> {
    first_seen_paths(cs).map_values(
        |p: Seq<char>| (p, cs.filter(|c: PRComment| c.file_path@ == p)),
    )
}

/// The distinct file paths of the comments, in first-seen order.
#[verifier::loop_isolation(false)]
pub fn distinct_paths(comments: &Vec<PRComment>) -> (r: Vec<String>)
    ensures
        r@.map_values(|s: String| s@) == first_seen_paths(comments@),
{
    let mut paths: Vec<String> = Vec::new();
    let mut i: usize = 0;
    while i < comments.len()
        invariant
            i <= comments.len(),
            paths@.map_values(|s: String| s@) == first_seen_paths(comments@.take(i as int)),
        decreases comments.len() - i,
    {
        let ghost prev = paths@.map_values(|s: String| s@);
        proof {
            assert(comments@.take(i + 1).drop_last() =~= comments@.take(i as int));
            assert(comments@.take(i + 1).last() == comments@[i as int]);
        }
        let p = &comments[i].file_path;
        let mut seen = false;
        let mut j: usize = 0;
        while j < paths.len()
            invariant
                j <= paths.len(),
                seen <==> exists|k: int| 0 <= k < j && #[trigger] prev[k] == p@,
                prev == paths@.map_values(|s: String| s@),
            decreases paths.len() - j,
        {
            proof {
                assert(prev[j as int] == paths@[j as int]@);
            }
            if paths[j].eq(p) {
                seen = true;
                proof {
                    assert(prev[j as int] == p@);
                }
            }
            j += 1;
        }
        proof {
            assert(seen == prev.contains(p@));
        }
        if !seen {
            paths.push(p.clone());
            proof {
                assert(paths@.map_values(|s: String| s@) =~= prev.push(p@));
            }
        }
        i += 1;
    }
    proof {
        assert(comments@.take(comments@.len() as int) =~= comments@);
    }
    paths
}

/// Groups the comments by file path, one group per distinct path in
/// first-seen order, keeping input order within each group.
#[verifier::loop_isolation(false)]
pub fn group_by_file(comments: &Vec<PRComment>) -> (r: Vec<(String, Vec<PRComment>)>)
    ensures
        r@.map_values(|g: (String, Vec<PRComment>)| (g.0@, g.1@)) == spec_group_by_file(
            comments@,
        ),
{
    broadcast use vstd::seq_lib::group_filter_ensures;

    let paths = distinct_paths(comments);
    let ghost pathsv = paths@.map_values(|s: String| s@);
    let mut out: Vec<(String, Vec<PRComment>)> = Vec::new();
    let mut k: usize = 0;
    while k < paths.len()
        invariant
            k <= paths.len(),
            pathsv == paths@.map_values(|s: String| s@),
            pathsv == first_seen_paths(comments@),
            out@.map_values(|g: (String, Vec<PRComment>)| (g.0@, g.1@)) == spec_group_by_file(
                comments@,
            ).take(k as int),
        decreases paths.len() - k,
    {
        let ghost prev = out@.map_values(|g: (String, Vec<PRComment>)| (g.0@, g.1@));
        let p = &paths[k];
        let ghost pred = |c: PRComment| c.file_path@ == p@;
        let mut group: Vec<PRComment> = Vec::new();
        let mut i: usize = 0;
        while i < comments.len()
            invariant
                i <= comments.len(),
                pred == (|c: PRComment| c.file_path@ == p@),
                group@ == comments@.take(i as int).filter(pred),
            decreases comments.len() - i,
        {
            let keep = comments[i].file_path.eq(p);
            proof {
                reveal(Seq::filter);
                assert(comments@.take(i + 1).drop_last() =~= comments@.take(i as int));
                assert(comments@.take(i + 1).last() == comments@[i as int]);
                assert(keep == pred(comments@[i as int]));
            }
            if keep {
                group.push(comments[i].duplicate());
            }
            i += 1;
        }
        proof {
            assert(comments@.take(comments@.len() as int) =~= comments@);
        }
        out.push((p.clone(), group));
        proof {
            let full = spec_group_by_file(comments@);
            assert(full[k as int] == (pathsv[k as int], comments@.filter(
                |c: PRComment| c.file_path@ == pathsv[k as int],
            )));
            assert(out@.last().0@ == pathsv[k as int]);
            assert(out@.last().1@ == comments@.filter(pred));
            assert(pred == (|c: PRComment| c.file_path@ == pathsv[k as int]));
            assert(out@.map_values(|g: (String, Vec<PRComment>)| (g.0@, g.1@)) =~= full.take(
                k + 1,
            ));
        }
        k += 1;
    }
    proof {
        let full = spec_group_by_file(comments@);
        assert(full.take(full.len() as int) =~= full);
    }
    out
}

/// How a CheckRun's two-stage status reads: while the lifecycle status is
/// neither `COMPLETED` nor empty, the run is pending or unknown; otherwise
/// the conclusion string decides, an empty conclusion with an empty status
/// meaning pending.
pub open spec fn spec_parse_check_conclusion(status: Seq<char>, conclusion: Seq<char>)
    -> CheckConclusion {
    if status != "COMPLETED"@ && status.len() != 0 {
        if status == "IN_PROGRESS"@ || status == "QUEUED"@ || status == "REQUESTED"@ || status
            == "WAITING"@ || status == "PENDING"@ {
            CheckConclusion::Pending
        } else {
            CheckConclusion::Unknown
        }
    } else {
        if conclusion == "SUCCESS"@ {
            CheckConclusion::Success
        } else if conclusion == "FAILURE"@ {
            CheckConclusion::Failure
        } else if conclusion == "SKIPPED"@ {
            CheckConclusion::Skipped
        } else if conclusion == "CANCELLED"@ {
            CheckConclusion::Cancelled
        } else if conclusion == "TIMED_OUT"@ {
            CheckConclusion::TimedOut
        } else if conclusion == "ACTION_REQUIRED"@ {
            CheckConclusion::ActionRequired
        } else if conclusion == "NEUTRAL"@ {
            CheckConclusion::Neutral
        } else if conclusion == "STALE"@ {
            CheckConclusion::Stale
        } else if conclusion.len() == 0 && status.len() == 0 {
            CheckConclusion::Pending
        } else {
            CheckConclusion::Unknown
        }
    }
}

/// Maps a CheckRun lifecycle status and conclusion to a conclusion value.
pub fn parse_check_conclusion(status: &str, conclusion: &str) -> (r: CheckConclusion)
    ensures
        r == spec_parse_check_conclusion(status@, conclusion@),
{
    if !str_eq_lit(status, "COMPLETED") && status.unicode_len() != 0 {
        if str_eq_lit(status, "IN_PROGRESS") || str_eq_lit(status, "QUEUED") || str_eq_lit(
            status,
            "REQUESTED",
        ) || str_eq_lit(status, "WAITING") || str_eq_lit(status, "PENDING") {
            CheckConclusion::Pending
        } else {
            CheckConclusion::Unknown
        }
    } else {
        if str_eq_lit(conclusion, "SUCCESS") {
            CheckConclusion::Success
        } else if str_eq_lit(conclusion, "FAILURE") {
            CheckConclusion::Failure
        } else if str_eq_lit(conclusion, "SKIPPED") {
            CheckConclusion::Skipped
        } else if str_eq_lit(conclusion, "CANCELLED") {
            CheckConclusion::Cancelled
        } else if str_eq_lit(conclusion, "TIMED_OUT") {
            CheckConclusion::TimedOut
        } else if str_eq_lit(conclusion, "ACTION_REQUIRED") {
            CheckConclusion::ActionRequired
        } else if str_eq_lit(conclusion, "NEUTRAL") {
            CheckConclusion::Neutral
        } else if str_eq_lit(conclusion, "STALE") {
            CheckConclusion::Stale
        } else if conclusion.unicode_len() == 0 && status.unicode_len() == 0 {
            CheckConclusion::Pending
        } else {
            CheckConclusion::Unknown
        }
    }
}

/// How a StatusContext state string reads.
pub open spec fn spec_parse_status_state(state: Seq<char>) -> CheckConclusion {
    if state == "SUCCESS"@ {
        CheckConclusion::Success
    } else if state == "FAILURE"@ || state == "ERROR"@ {
        CheckConclusion::Failure
    } else if state == "PENDING"@ || state == "EXPECTED"@ {
        CheckConclusion::Pending
    } else {
        CheckConclusion::Unknown
    }
}

/// Maps a StatusContext state string to a conclusion value.
pub fn parse_status_state(state: &str) -> (r: CheckConclusion)
    ensures
        r == spec_parse_status_state(state@),
{
    if str_eq_lit(state, "SUCCESS") {
        CheckConclusion::Success
    } else if str_eq_lit(state, "FAILURE") || str_eq_lit(state, "ERROR") {
        CheckConclusion::Failure
    } else if str_eq_lit(state, "PENDING") || str_eq_lit(state, "EXPECTED") {
        CheckConclusion::Pending
    } else {
        CheckConclusion::Unknown
    }
}

/// How a rollup state string reads.
pub open spec fn spec_parse_rollup_state(state: Seq<char>) -> RollupState {
    if state == "SUCCESS"@ {
        RollupState::Success
    } else if state == "FAILURE"@ {
        RollupState::Failure
    } else if state == "PENDING"@ {
        RollupState::Pending
    } else if state == "ERROR"@ {
        RollupState::Error
    } else if state == "EXPECTED"@ {
        RollupState::Expected
    } else {
        RollupState::Unknown
    }
}

/// Maps a rollup state string to a rollup value.
pub fn parse_rollup_state(state: &str) -> (r: RollupState)
    ensures
        r == spec_parse_rollup_state(state@),
{
    if str_eq_lit(state, "SUCCESS") {
        RollupState::Success
    } else if str_eq_lit(state, "FAILURE") {
        RollupState::Failure
    } else if str_eq_lit(state, "PENDING") {
        RollupState::Pending
    } else if str_eq_lit(state, "ERROR") {
        RollupState::Error
    } else if str_eq_lit(state, "EXPECTED") {
        RollupState::Expected
    } else {
        RollupState::Unknown
    }
}

/// The string under a two-level object path, if both levels are there.
pub open spec fn jv_chain2_str(v: JsonV, k1: Seq<char>, k2: Seq<char>) -> Option<Seq<char>> {
    match jv_get(v, k1) {
        Some(a) => jv_get_str(a, k2),
        None => None,
    }
}

/// The string at the end of a three-level object path, if every level is
/// there.
pub open spec fn jv_chain3_str(v: JsonV, k1: Seq<char>, k2: Seq<char>, k3: Seq<char>)
    -> Option<Seq<char>> {
    match jv_get(v, k1) {
        Some(a) => match jv_get(a, k2) {
            Some(b) => jv_get_str(b, k3),
            None => None,
        },
        None => None,
    }
}

/// The optional boolean field, defaulting to false.
pub open spec fn jv_bool_or_false(v: JsonV, key: Seq<char>) -> bool {
    match jv_get_bool(v, key) {
        Some(b) => b,
        None => false,
    }
}

/// How a raw CheckRun node parses: dropped without a string `name`; all
/// other fields are read defensively, a bad timestamp degrading to absent.
pub open spec fn spec_parse_check_run(v: JsonV) -> Option<CheckView> {
    match jv_get_str(v, "name"@) {
        None => None,
        Some(name) => Some(
            CheckView {
                name: name,
                conclusion: spec_parse_check_conclusion(
                    jv_str_or_empty(v, "status"@),
                    jv_str_or_empty(v, "conclusion"@),
                ),
                required: jv_bool_or_false(v, "isRequired"@),
                description: None,
                details_url: jv_get_str(v, "detailsUrl"@),
                started_at: ts_to_i64(jv_ts(v, "startedAt"@)),
                completed_at: ts_to_i64(jv_ts(v, "completedAt"@)),
                check_type: CheckType::CheckRun,
                workflow_name: (match jv_get(v, "checkSuite"@) {
                    Some(cs) => match jv_get(cs, "workflowRun"@) {
                        Some(wr) => jv_chain2_str(wr, "workflow"@, "name"@),
                        None => None,
                    },
                    None => None,
                }),
                app_name: jv_chain3_str(v, "checkSuite"@, "app"@, "slug"@),
            },
        ),
    }
}

/// How a raw StatusContext node parses: dropped without a string `context`;
/// its creation time stands as the start time, and nothing completes it.
pub open spec fn spec_parse_status_context(v: JsonV) -> Option<CheckView> {
    match jv_get_str(v, "context"@) {
        None => None,
        Some(name) => Some(
            CheckView {
                name: name,
                conclusion: spec_parse_status_state(jv_str_or_empty(v, "state"@)),
                required: jv_bool_or_false(v, "isRequired"@),
                description: jv_get_str(v, "description"@),
                details_url: jv_get_str(v, "targetUrl"@),
                started_at: ts_to_i64(jv_ts(v, "createdAt"@)),
                completed_at: None,
                check_type: CheckType::StatusContext,
                workflow_name: None,
                app_name: None,
            },
        ),
    }
}

/// How a raw check node parses: its `__typename` picks one of the two
/// GitHub check mechanisms; any other discriminator drops the node.
pub open spec fn spec_parse_check_node(v: JsonV) -> Option<CheckView> {
    match jv_get_str(v, "__typename"@) {
        Some(t) => if t == "CheckRun"@ {
            spec_parse_check_run(v)
        } else if t == "StatusContext"@ {
            spec_parse_status_context(v)
        } else {
            None
        },
        None => None,
    }
}

/// The surviving check parses of a node list, in input order.
pub open spec fn spec_parse_check_nodes(vs: Seq<JsonV>) -> Seq<CheckView>
    decreases vs.len(),
{
    if vs.len() == 0 {
        Seq::empty()
    } else {
        let prev = spec_parse_check_nodes(vs.drop_last());
        match spec_parse_check_node(vs.last()) {
            Some(c) => prev.push(c),
            None => prev,
        }
    }
}

/// The optional boolean field, defaulting to false.
fn get_bool_or_false(j: &Json, key: &str) -> (r: bool)
    ensures
        r == jv_bool_or_false(json_view(*j), key@),
{
    match j.get_bool(key) {
        Some(b) => b,
        None => false,
    }
}

/// The optional instant under a string field, as epoch milliseconds.
fn get_opt_ts(j: &Json, key: &str) -> (r: Option<i64>)
    ensures
        r == ts_to_i64(jv_ts(json_view(*j), key@)),
{
    match get_ts(j, key) {
        Some(t) => Some(t),
        None => None,
    }
}

/// Parses a raw CheckRun node.
pub fn parse_check_run(node: &Json) -> (r: Option<CheckStatus>)
    ensures
        r is Some <==> spec_parse_check_run(json_view(*node)) is Some,
        r is Some ==> Some(check_view(r->0)) == spec_parse_check_run(json_view(*node)),
{
    let name = match node.get_str("name") {
        Some(n) => n,
        None => {
            return None;
        },
    };
    let status = get_str_or_empty(node, "status");
    let conclusion_str = get_str_or_empty(node, "conclusion");
    let check_conclusion = parse_check_conclusion(status.as_str(), conclusion_str.as_str());
    let required = get_bool_or_false(node, "isRequired");
    let details_url = node.get_str("detailsUrl");
    let started_at = get_opt_ts(node, "startedAt");
    let completed_at = get_opt_ts(node, "completedAt");
    let workflow_name = match node.get("checkSuite") {
        Some(cs) => match cs.get("workflowRun") {
            Some(wr) => match wr.get("workflow") {
                Some(wf) => wf.get_str("name"),
                None => None,
            },
            None => None,
        },
        None => None,
    };
    let app_name = match node.get("checkSuite") {
        Some(cs) => match cs.get("app") {
            Some(a) => a.get_str("slug"),
            None => None,
        },
        None => None,
    };
    let c = CheckStatus {
        name,
        conclusion: check_conclusion,
        required,
        description: None,
        details_url,
        started_at,
        completed_at,
        check_type: CheckType::CheckRun,
        workflow_name,
        app_name,
    };
    proof {
        assert(check_view(c) =~= spec_parse_check_run(json_view(*node))->0);
    }
    Some(c)
}

/// Parses a raw StatusContext node.
pub fn parse_status_context(node: &Json) -> (r: Option<CheckStatus>)
    ensures
        r is Some <==> spec_parse_status_context(json_view(*node)) is Some,
        r is Some ==> Some(check_view(r->0)) == spec_parse_status_context(json_view(*node)),
{
    let name = match node.get_str("context") {
        Some(n) => n,
        None => {
            return None;
        },
    };
    let state = get_str_or_empty(node, "state");
    let conclusion = parse_status_state(state.as_str());
    let required = get_bool_or_false(node, "isRequired");
    let description = node.get_str("description");
    let details_url = node.get_str("targetUrl");
    let created_at = get_opt_ts(node, "createdAt");
    let c = CheckStatus {
        name,
        conclusion,
        required,
        description,
        details_url,
        started_at: created_at,
        completed_at: None,
        check_type: CheckType::StatusContext,
        workflow_name: None,
        app_name: None,
    };
    proof {
        assert(check_view(c) =~= spec_parse_status_context(json_view(*node))->0);
    }
    Some(c)
}

/// Parses a raw check node by its discriminator.
pub fn parse_check_node(node: &Json) -> (r: Option<CheckStatus>)
    ensures
        r is Some <==> spec_parse_check_node(json_view(*node)) is Some,
        r is Some ==> Some(check_view(r->0)) == spec_parse_check_node(json_view(*node)),
{
    let typename = match node.get_str("__typename") {
        Some(t) => t,
        None => {
            return None;
        },
    };
    if str_eq_lit(typename.as_str(), "CheckRun") {
        parse_check_run(node)
    } else if str_eq_lit(typename.as_str(), "StatusContext") {
        parse_status_context(node)
    } else {
        None
    }
}

/// The pull-request object of a GraphQL response envelope.
pub open spec fn jv_pull_request(v: JsonV) -> Option<JsonV> {
    match jv_get(v, "data"@) {
        Some(d) => match jv_get(d, "repository"@) {
            Some(rp) => jv_get(rp, "pullRequest"@),
            None => None,
        },
        None => None,
    }
}

/// The most recent commit object of a pull-request object.
pub open spec fn jv_commit(pr: JsonV) -> Option<JsonV> {
    match jv_get(pr, "commits"@) {
        Some(cm) => match jv_get(cm, "nodes"@) {
            Some(ns) => match jv_get_idx(ns, 0) {
                Some(n0) => jv_get(n0, "commit"@),
                None => None,
            },
            None => None,
        },
        None => None,
    }
}

/// The rollup state of an optional status rollup; a missing or null rollup
/// is unknown.
pub open spec fn jv_rollup_state(rollup: Option<JsonV>) -> RollupState {
    match rollup {
        Some(ru) => match jv_get_str(ru, "state"@) {
            Some(s) => spec_parse_rollup_state(s),
            None => RollupState::Unknown,
        },
        None => RollupState::Unknown,
    }
}

/// The check views of an optional status rollup's context nodes; anything
/// missing gives the empty list.
pub open spec fn jv_rollup_checks(rollup: Option<JsonV>) -> Seq<CheckView> {
    match rollup {
        Some(ru) => match jv_get(ru, "contexts"@) {
            Some(cx) => match jv_get(cx, "nodes"@) {
                Some(JsonV::Arr(ns)) => spec_parse_check_nodes(ns),
                _ => Seq::empty(),
            },
            None => Seq::empty(),
        },
        None => Seq::empty(),
    }
}

/// How a full GraphQL response parses into a checks report: a missing
/// pull-request object or commit is a hard error with the given message;
/// a missing or null rollup tolerated as an unknown state with no checks.
pub open spec fn spec_parse_checks_response(v: JsonV) -> Result<ReportView, Seq<char>> {
    match jv_pull_request(v) {
        None => Err("Missing pullRequest in GraphQL response"@),
        Some(pr) => match jv_commit(pr) {
            None => Err("Missing commit data"@),
            Some(commit) => {
                let rollup = jv_get(commit, "statusCheckRollup"@);
                Ok(
                    ReportView {
                        pr_title: jv_get_str(pr, "title"@),
                        pr_url: jv_get_str(pr, "url"@),
                        rollup_state: jv_rollup_state(rollup),
                        checks: jv_rollup_checks(rollup),
                    },
                )
            },
        },
    }
}

/// Parses the checks of a rollup's context-node array.
fn parse_context_nodes(nodes: &Json) -> (r: Vec<CheckStatus>)
    ensures
        r@.map_values(|c: CheckStatus| check_view(c)) == (match json_view(*nodes) {
            JsonV::Arr(ns) => spec_parse_check_nodes(ns),
            _ => Seq::<CheckView>::empty(),
        }),
{
    let mut out: Vec<CheckStatus> = Vec::new();
    match nodes {
        Json::Arr(items) => {
            let ghost jsv = json_views(items@);
            proof {
                lemma_json_views_index(items@);
            }
            let mut i: usize = 0;
            while i < items.len()
                invariant
                    i <= items.len(),
                    jsv == json_views(items@),
                    jsv.len() == items@.len(),
                    forall|k: int| 0 <= k < items@.len() ==> jsv[k] == json_view(items@[k]),
                    out@.map_values(|c: CheckStatus| check_view(c)) == spec_parse_check_nodes(
                        jsv.take(i as int),
                    ),
                decreases items.len() - i,
            {
                let ghost prev = out@.map_values(|c: CheckStatus| check_view(c));
                proof {
                    assert(jsv.take(i + 1).drop_last() =~= jsv.take(i as int));
                    assert(jsv.take(i + 1).last() == jsv[i as int]);
                }
                match parse_check_node(&items[i]) {
                    Some(c) => {
                        out.push(c);
                        proof {
                            assert(out@.map_values(|c: CheckStatus| check_view(c))
                                =~= prev.push(check_view(out@.last())));
                        }
                    },
                    None => {},
                }
                i += 1;
            }
            proof {
                assert(jsv.take(jsv.len() as int) =~= jsv);
            }
            out
        },
        _ => out,
    }
}

/// Parses a GraphQL response envelope into a checks report. The response
/// must hold the pull-request object and its most recent commit; a missing
/// or null rollup yields an unknown state and no checks.
pub fn parse_checks_response(response: &Json) -> (r: Result<ChecksReport, GitHubAPIError>)
    ensures
        r is Ok <==> spec_parse_checks_response(json_view(*response)) is Ok,
        r is Ok ==> Ok::<ReportView, Seq<char>>(report_view(r->Ok_0))
            == spec_parse_checks_response(json_view(*response)),
        r is Err ==> (r->Err_0 matches GitHubAPIError::ParseError(m) && Err::<
            ReportView,
            Seq<char>,
        >(m@) == spec_parse_checks_response(json_view(*response))),
{
    let pr = match response.get("data") {
        Some(d) => match d.get("repository") {
            Some(rp) => rp.get("pullRequest"),
            None => None,
        },
        None => None,
    };
    let pr = match pr {
        Some(p) => p,
        None => {
            return Err(
                GitHubAPIError::ParseError(
                    String::from_str("Missing pullRequest in GraphQL response"),
                ),
            );
        },
    };
    let commit = match pr.get("commits") {
        Some(cm) => match cm.get("nodes") {
            Some(ns) => match ns.get_idx(0) {
                Some(n0) => n0.get("commit"),
                None => None,
            },
            None => None,
        },
        None => None,
    };
    let commit = match commit {
        Some(c) => c,
        None => {
            return Err(GitHubAPIError::ParseError(String::from_str("Missing commit data")));
        },
    };
    let pr_title = pr.get_str("title");
    let pr_url = pr.get_str("url");
    let rollup = commit.get("statusCheckRollup");
    let rollup_state = match rollup {
        Some(ru) => match ru.get_str("state") {
            Some(s) => parse_rollup_state(s.as_str()),
            None => RollupState::Unknown,
        },
        None => RollupState::Unknown,
    };
    let checks = match rollup {
        Some(ru) => match ru.get("contexts") {
            Some(cx) => match cx.get("nodes") {
                Some(ns) => parse_context_nodes(ns),
                None => Vec::new(),
            },
            None => Vec::new(),
        },
        None => Vec::new(),
    };
    let rep = ChecksReport { pr_title, pr_url, rollup_state, checks };
    proof {
        assert(report_view(rep) =~= spec_parse_checks_response(json_view(*response))->Ok_0);
    }
    Ok(rep)
}

/// Some comment of `cs` lies in file `p`.
pub open spec fn has_path(cs: Seq<PRComment>, p: Seq<char>) -> bool {
    exists|i: int| 0 <= i < cs.len() && (#[trigger] cs[i]).file_path@ == p
}

/// A path is among the first-seen paths exactly when some comment lies in
/// that file.
pub proof fn lemma_fsp_contains(cs: Seq<PRComment>, p: Seq<char>)
    ensures
        first_seen_paths(cs).contains(p) <==> has_path(cs, p),
    decreases cs.len(),
{
    if cs.len() > 0 {
        let d = cs.drop_last();
        lemma_fsp_contains(d, p);
        if has_path(d, p) {
            let i = choose|i: int| 0 <= i < d.len() && (#[trigger] d[i]).file_path@ == p;
            assert(cs[i].file_path@ == p);
            assert(has_path(cs, p));
        }
        if cs.last().file_path@ == p {
            assert(cs[cs.len() - 1].file_path@ == p);
            assert(has_path(cs, p));
        }
        if has_path(cs, p) && !has_path(d, p) {
            let i = choose|i: int| 0 <= i < cs.len() && (#[trigger] cs[i]).file_path@ == p;
            if i < cs.len() - 1 {
                assert(d[i].file_path@ == p);
            }
            assert(cs.last().file_path@ == p);
        }
        if first_seen_paths(cs).contains(p) && !first_seen_paths(d).contains(p) {
            assert(cs.last().file_path@ == p);
        }
        if has_path(cs, p) && !first_seen_paths(d).contains(p) && cs.last().file_path@ == p {
            assert(first_seen_paths(cs).last() == p);
            assert(first_seen_paths(cs).contains(p));
        }
    }
}

/// The first-seen paths hold no path twice.
pub proof fn lemma_fsp_distinct(cs: Seq<PRComment>)
    ensures
        forall|k1: int, k2: int|
            0 <= k1 < k2 < first_seen_paths(cs).len() ==> #[trigger] first_seen_paths(cs)[k1]
                != #[trigger] first_seen_paths(cs)[k2],
    decreases cs.len(),
{
    if cs.len() > 0 {
        let d = cs.drop_last();
        lemma_fsp_distinct(d);
        let fd = first_seen_paths(d);
        let f = first_seen_paths(cs);
        if !fd.contains(cs.last().file_path@) {
            assert forall|k1: int, k2: int| 0 <= k1 < k2 < f.len() implies #[trigger] f[k1]
                != #[trigger] f[k2] by {
                if k2 == f.len() - 1 {
                    assert(f[k1] == fd[k1]);
                    assert(fd.contains(fd[k1]));
                } else {
                    assert(f[k1] == fd[k1] && f[k2] == fd[k2]);
                }
            }
        }
    }
}

/// Where the scan of `find_path_from` lands: the first index at or after
/// `j` in the given file, or nothing when no such index exists.
pub proof fn lemma_find_path_char(s: Seq<PRComment>, p: Seq<char>, j: int)
    requires
        0 <= j <= s.len(),
    ensures
        match find_path_from(s, p, j) {
            Some(k) => j <= k < s.len() && s[k].file_path@ == p,
            None => forall|m: int| j <= m < s.len() ==> (#[trigger] s[m]).file_path@ != p,
        },
    decreases s.len() - j,
{
    if j < s.len() && s[j].file_path@ != p {
        lemma_find_path_char(s, p, j + 1);
    }
}

/// What keeping the most recent comment per file leaves: one slot per
/// distinct file in first-seen order, each slot holding a comment of the
/// input whose update time no comment of the same file exceeds.
pub proof fn lemma_most_recent_per_file(cs: Seq<PRComment>)
    ensures
        spec_most_recent(cs).map_values(|c: PRComment| c.file_path@) == first_seen_paths(cs),
        forall|k: int|
            0 <= k < spec_most_recent(cs).len() ==> cs.contains(
                #[trigger] spec_most_recent(cs)[k],
            ),
        forall|k: int, i: int|
            0 <= k < spec_most_recent(cs).len() && 0 <= i < cs.len() && (#[trigger] cs[i])
                .file_path@ == (#[trigger] spec_most_recent(cs)[k]).file_path@
                ==> cs[i].updated_at <= spec_most_recent(cs)[k].updated_at,
    decreases cs.len(),
{
    if cs.len() == 0 {
        assert(spec_most_recent(cs).map_values(|c: PRComment| c.file_path@)
            =~= first_seen_paths(cs));
    } else {
        let d = cs.drop_last();
        let c = cs.last();
        let p = c.file_path@;
        lemma_most_recent_per_file(d);
        lemma_fsp_distinct(d);
        lemma_fsp_contains(d, p);
        let prev = spec_most_recent(d);
        let r = spec_most_recent(cs);
        let fd = first_seen_paths(d);
        lemma_find_path_char(prev, p, 0);
        assert(forall|i: int| 0 <= i < d.len() ==> d[i] == cs[i]);
        assert(forall|x: PRComment| d.contains(x) ==> cs.contains(x)) by {
            assert forall|x: PRComment| d.contains(x) implies cs.contains(x) by {
                let i = choose|i: int| 0 <= i < d.len() && d[i] == x;
                assert(cs[i] == x);
            }
        }
        assert(cs.contains(c)) by {
            assert(cs[cs.len() - 1] == c);
        }
        match find_path_from(prev, p, 0) {
            None => {
                // no comment of `d` lies in file `p`
                assert(forall|m: int| 0 <= m < prev.len() ==> (#[trigger] prev[m]).file_path@
                    != p);
                assert(!fd.contains(p)) by {
                    if fd.contains(p) {
                        let m = choose|m: int| 0 <= m < fd.len() && fd[m] == p;
                        assert(prev.map_values(|x: PRComment| x.file_path@)[m] == p);
                        assert(prev[m].file_path@ == p);
                    }
                }
                assert(!has_path(d, p));
                assert(r == prev.push(c));
                assert(r.map_values(|x: PRComment| x.file_path@) =~= first_seen_paths(cs));
                assert forall|k: int, i: int|
                    0 <= k < r.len() && 0 <= i < cs.len() && (#[trigger] cs[i]).file_path@ == (
                    #[trigger] r[k]).file_path@ implies cs[i].updated_at <= r[k].updated_at by {
                    if k < prev.len() {
                        assert(r[k] == prev[k]);
                        if i < cs.len() - 1 {
                            assert(d[i] == cs[i]);
                        } else {
                            assert(cs[i] == c);
                            assert(prev[k].file_path@ != p);
                        }
                    } else {
                        assert(r[k] == c);
                        if i < cs.len() - 1 {
                            assert(d[i].file_path@ == p);
                            assert(has_path(d, p));
                        }
                    }
                }
            },
            Some(k0) => {
                assert(prev[k0].file_path@ == p);
                assert(fd.contains(p)) by {
                    assert(prev.map_values(|x: PRComment| x.file_path@)[k0] == p);
                }
                assert(first_seen_paths(cs) == fd);
                // slots other than `k0` lie in other files
                assert(forall|k: int| 0 <= k < prev.len() && k != k0 ==> (#[trigger] prev[k])
                    .file_path@ != p) by {
                    assert forall|k: int| 0 <= k < prev.len() && k != k0 implies (
                    #[trigger] prev[k]).file_path@ != p by {
                        assert(fd[k] == prev[k].file_path@);
                        assert(fd[k0] == p);
                    }
                }
                if c.updated_at > prev[k0].updated_at {
                    assert(r == prev.update(k0, c));
                    assert(r.map_values(|x: PRComment| x.file_path@) =~= fd);
                    assert forall|k: int| 0 <= k < r.len() implies cs.contains(
                        #[trigger] r[k],
                    ) by {
                        if k != k0 {
                            assert(r[k] == prev[k]);
                        } else {
                            assert(r[k] == c);
                        }
                    }
                    assert forall|k: int, i: int|
                        0 <= k < r.len() && 0 <= i < cs.len() && (#[trigger] cs[i]).file_path@
                            == (#[trigger] r[k]).file_path@ implies cs[i].updated_at
                        <= r[k].updated_at by {
                        if k == k0 {
                            assert(r[k] == c);
                            if i < cs.len() - 1 {
                                assert(d[i] == cs[i]);
                            }
                        } else {
                            assert(r[k] == prev[k]);
                            if i < cs.len() - 1 {
                                assert(d[i] == cs[i]);
                            } else {
                                assert(cs[i] == c);
                            }
                        }
                    }
                } else {
                    assert(r == prev);
                    assert(r.map_values(|x: PRComment| x.file_path@) =~= fd);
                    assert forall|k: int, i: int|
                        0 <= k < r.len() && 0 <= i < cs.len() && (#[trigger] cs[i]).file_path@
                            == (#[trigger] r[k]).file_path@ implies cs[i].updated_at
                        <= r[k].updated_at by {
                        if i < cs.len() - 1 {
                            assert(d[i] == cs[i]);
                        } else {
                            assert(cs[i] == c);
                            if k != k0 {
                                assert(prev[k].file_path@ != p);
                            }
                        }
                    }
                }
            },
        }
    }
}

} // verus!
