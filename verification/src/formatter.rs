//! Rendering of comment lists and checks reports: five comment styles and
//! three check styles, each a pure function from model values to text, with
//! the exact output pinned by a specification.

use vstd::prelude::*;
use crate::models::{PRComment, CheckStatus, ChecksReport, spec_line_info, spec_snippet,
    spec_display_icon, spec_is_failure, spec_rollup_label, spec_conclusion_code,
    spec_check_type_code, opt_str_view, pred_passed, pred_failed, pred_pending, pred_skipped,
    pred_failed_required, pred_failed_optional, pred_passed_required, pred_passed_optional,
    CheckConclusion};
use crate::parser::{first_seen_paths, display_ts_of, rfc3339_of, distinct_paths};
use crate::text::{spec_u64_digits, usize_to_string};
use crate::jsonval::{Json, JsonV, json_view, json_views, json_pair_views, jv_text, write_json};

verus! {

broadcast use vstd::seq_lib::group_seq_properties;

/// The order of the grouped styles: by line number (a comment without one
/// first), then by creation time.
pub open spec fn line_le(a: PRComment, b: PRComment) -> bool {
    match (a.line_number, b.line_number) {
        (None, None) => a.created_at <= b.created_at,
        (None, Some(_)) => true,
        (Some(_), None) => false,
        (Some(x), Some(y)) => x < y || (x == y && a.created_at <= b.created_at),
    }
}

/// The order of the flat style: most recently created first.
pub open spec fn date_ge(a: PRComment, b: PRComment) -> bool {
    a.created_at >= b.created_at
}

/// The comparison a sort selector stands for.
pub open spec fn comment_le(sel: u8, a: PRComment, b: PRComment) -> bool {
    if sel == 0 {
        line_le(a, b)
    } else {
        date_ge(a, b)
    }
}

/// Stable insertion: the new comment goes after every element it does not
/// strictly precede.
pub open spec fn insert_comment(sel: u8, s: Seq<PRComment>, c: PRComment) -> Seq<PRComment>
    decreases s.len(),
{
    if s.len() == 0 {
        seq![c]
    } else if comment_le(sel, s.last(), c) {
        s.push(c)
    } else {
        insert_comment(sel, s.drop_last(), c).push(s.last())
    }
}

/// Stable insertion sort of the comments under the selected order.
pub open spec fn sort_comments(sel: u8, s: Seq<PRComment>) -> Seq<PRComment>
    decreases s.len(),
{
    if s.len() == 0 {
        Seq::empty()
    } else {
        insert_comment(sel, sort_comments(sel, s.drop_last()), s.last())
    }
}

/// Compares two comments under the selected order.
fn comment_le_exec(sel: u8, a: &PRComment, b: &PRComment) -> (r: bool)
    ensures
        r == comment_le(sel, *a, *b),
{
    if sel == 0 {
        match (a.line_number, b.line_number) {
            (None, None) => a.created_at <= b.created_at,
            (None, Some(_)) => true,
            (Some(_), None) => false,
            (Some(x), Some(y)) => x < y || (x == y && a.created_at <= b.created_at),
        }
    } else {
        a.created_at >= b.created_at
    }
}

/// Sorts the comments stably under the selected order.
#[verifier::loop_isolation(false)]
fn sort_comments_exec(sel: u8, v: &Vec<PRComment>) -> (r: Vec<PRComment>)
    ensures
        r@ == sort_comments(sel, v@),
{
    let mut out: Vec<PRComment> = Vec::new();
    let mut i: usize = 0;
    while i < v.len()
        invariant
            i <= v.len(),
            out@ == sort_comments(sel, v@.take(i as int)),
        decreases v.len() - i,
    {
        proof {
            assert(v@.take(i + 1).drop_last() =~= v@.take(i as int));
            assert(v@.take(i + 1).last() == v@[i as int]);
        }
        let c = v[i].duplicate();
        let ghost sorted = out@;
        let mut k: usize = out.len();
        while k > 0 && !comment_le_exec(sel, &out[k - 1], &c)
            invariant
                k <= out.len(),
                out@ == sorted,
                insert_comment(sel, sorted, c) == insert_comment(sel, sorted.take(k as int), c)
                    + sorted.skip(k as int),
            decreases k,
        {
            proof {
                let t = sorted.take(k as int);
                assert(t.last() == sorted[k - 1]);
                assert(t.drop_last() =~= sorted.take(k - 1));
                assert(insert_comment(sel, t, c) == insert_comment(sel, sorted.take(k - 1), c)
                    .push(sorted[k - 1]));
                assert(insert_comment(sel, sorted.take(k - 1), c).push(sorted[k - 1])
                    + sorted.skip(k as int) =~= insert_comment(sel, sorted.take(k - 1), c)
                    + sorted.skip(k - 1));
            }
            k -= 1;
        }
        proof {
            let t = sorted.take(k as int);
            if k > 0 {
                assert(t.last() == sorted[k - 1]);
                assert(insert_comment(sel, t, c) == t.push(c));
            } else {
                assert(t.len() == 0);
                assert(insert_comment(sel, t, c) =~= seq![c]);
            }
            assert(insert_comment(sel, sorted, c) =~= sorted.insert(k as int, c));
        }
        out.insert(k, c);
        i += 1;
    }
    proof {
        assert(v@.take(v@.len() as int) =~= v@);
    }
    out
}

/// Lexicographic order on text, by character code point.
pub open spec fn str_le(a: Seq<char>, b: Seq<char>) -> bool
    decreases a.len(),
{
    if a.len() == 0 {
        true
    } else if b.len() == 0 {
        false
    } else if a[0] != b[0] {
        a[0] < b[0]
    } else {
        str_le(a.skip(1), b.skip(1))
    }
}

/// Stable insertion for path sorting.
pub open spec fn insert_str(s: Seq<Seq<char>>, p: Seq<char>) -> Seq<Seq<char>>
    decreases s.len(),
{
    if s.len() == 0 {
        seq![p]
    } else if str_le(s.last(), p) {
        s.push(p)
    } else {
        insert_str(s.drop_last(), p).push(s.last())
    }
}

/// Stable insertion sort of texts into lexicographic order.
pub open spec fn sort_strs(s: Seq<Seq<char>>) -> Seq<Seq<char>>
    decreases s.len(),
{
    if s.len() == 0 {
        Seq::empty()
    } else {
        insert_str(sort_strs(s.drop_last()), s.last())
    }
}

/// Compares two strings lexicographically by character.
#[verifier::loop_isolation(false)]
fn str_le_exec(a: &String, b: &String) -> (r: bool)
    ensures
        r == str_le(a@, b@),
{
    let av = crate::text::chars_of(a.as_str());
    let bv = crate::text::chars_of(b.as_str());
    let mut j: usize = 0;
    while j < av.len() && j < bv.len()
        invariant
            j <= av.len(),
            j <= bv.len(),
            str_le(a@, b@) == str_le(a@.skip(j as int), b@.skip(j as int)),
        decreases av.len() - j,
    {
        proof {
            let sa = a@.skip(j as int);
            let sb = b@.skip(j as int);
            assert(sa[0] == a@[j as int]);
            assert(sb[0] == b@[j as int]);
            assert(sa.skip(1) =~= a@.skip(j + 1));
            assert(sb.skip(1) =~= b@.skip(j + 1));
        }
        if av[j] != bv[j] {
            return av[j] < bv[j];
        }
        j += 1;
    }
    proof {
        assert(a@.skip(j as int).len() == a@.len() - j);
        assert(b@.skip(j as int).len() == b@.len() - j);
    }
    j >= av.len()
}

/// Sorts texts into lexicographic order.
#[verifier::loop_isolation(false)]
fn sort_strings(v: &Vec<String>) -> (r: Vec<String>)
    ensures
        r@.map_values(|s: String| s@) == sort_strs(v@.map_values(|s: String| s@)),
{
    let ghost vv = v@.map_values(|s: String| s@);
    let mut out: Vec<String> = Vec::new();
    let mut i: usize = 0;
    while i < v.len()
        invariant
            i <= v.len(),
            vv == v@.map_values(|s: String| s@),
            out@.map_values(|s: String| s@) == sort_strs(vv.take(i as int)),
        decreases v.len() - i,
    {
        proof {
            assert(vv.take(i + 1).drop_last() =~= vv.take(i as int));
            assert(vv.take(i + 1).last() == vv[i as int]);
        }
        let p = v[i].clone();
        let ghost sorted = out@.map_values(|s: String| s@);
        let mut k: usize = out.len();
        while k > 0 && !str_le_exec(&out[k - 1], &p)
            invariant
                k <= out.len(),
                sorted == out@.map_values(|s: String| s@),
                insert_str(sorted, p@) == insert_str(sorted.take(k as int), p@) + sorted.skip(
                    k as int,
                ),
            decreases k,
        {
            proof {
                let t = sorted.take(k as int);
                assert(t.last() == sorted[k - 1]);
                assert(t.drop_last() =~= sorted.take(k - 1));
                assert(insert_str(t, p@) == insert_str(sorted.take(k - 1), p@).push(
                    sorted[k - 1],
                ));
                assert(insert_str(sorted.take(k - 1), p@).push(sorted[k - 1]) + sorted.skip(
                    k as int,
                ) =~= insert_str(sorted.take(k - 1), p@) + sorted.skip(k - 1));
            }
            k -= 1;
        }
        proof {
            let t = sorted.take(k as int);
            if k > 0 {
                assert(t.last() == sorted[k - 1]);
                assert(insert_str(t, p@) == t.push(p@));
            } else {
                assert(t.len() == 0);
                assert(insert_str(t, p@) =~= seq![p@]);
            }
            assert(insert_str(sorted, p@) =~= sorted.insert(k as int, p@));
        }
        out.insert(k, p);
        proof {
            assert(out@.map_values(|s: String| s@) =~= sorted.insert(k as int, p@));
        }
        i += 1;
    }
    proof {
        assert(vv.take(vv.len() as int) =~= vv);
    }
    out
}

/// One comment rendered for an LLM reader: location header, author, date,
/// the code context when asked for and present, and the body.
pub open spec fn spec_comment_llm(c: PRComment, include_snippet: bool, lines: int) -> Seq<char> {
    "### "@ + c.file_path@ + " ("@ + spec_line_info(c.line_number, c.start_line) + ")\n\n"@
        + "**Author:** "@ + c.author@ + "\n"@ + "**Date:** "@ + display_ts_of(
        c.created_at as int,
    ) + "\n\n"@ + (if include_snippet && spec_snippet(c.diff_hunk@, lines).len() > 0 {
        "**Code context:**\n```\n"@ + spec_snippet(c.diff_hunk@, lines) + "\n```\n\n"@
    } else {
        Seq::<char>::empty()
    }) + "**Comment:**\n"@ + c.body@ + "\n"@
}

/// Renders one comment for an LLM reader.
pub fn format_comment_for_llm(comment: &PRComment, include_snippet: bool, snippet_lines: usize)
    -> (r: String)
    ensures
        r@ == spec_comment_llm(*comment, include_snippet, snippet_lines as int),
{
    let mut out = String::new();
    out.append("### ");
    out.append(comment.file_path.as_str());
    out.append(" (");
    out.append(comment.get_line_info().as_str());
    out.append(")\n\n");
    out.append("**Author:** ");
    out.append(comment.author.as_str());
    out.append("\n");
    out.append("**Date:** ");
    out.append(crate::parser::format_timestamp(comment.created_at).as_str());
    out.append("\n\n");
    if include_snippet {
        let snippet = comment.get_code_snippet(snippet_lines);
        if !snippet.as_str().is_empty() {
            out.append("**Code context:**\n```\n");
            out.append(snippet.as_str());
            out.append("\n```\n\n");
        }
    }
    out.append("**Comment:**\n");
    out.append(comment.body.as_str());
    out.append("\n");
    proof {
        assert(out@ =~= spec_comment_llm(*comment, include_snippet, snippet_lines as int));
    }
    out
}

/// The minimal style's body: at most 100 characters, an ellipsis marking a
/// cut.
pub open spec fn spec_trunc_body(s: Seq<char>) -> Seq<char> {
    if s.len() > 100 {
        s.take(100) + "..."@
    } else {
        s
    }
}

/// Newlines flattened to spaces.
pub open spec fn spec_replace_nl(s: Seq<char>) -> Seq<char> {
    s.map_values(
        |c: char| if c == '\n' {
            ' '
        } else {
            c
        },
    )
}

/// Truncates the body to 100 characters and flattens its newlines.
#[verifier::loop_isolation(false)]
fn minimal_body(body: &String) -> (r: String)
    ensures
        r@ == spec_replace_nl(spec_trunc_body(body@)),
{
    let bc = crate::text::chars_of(body.as_str());
    let mut kept: Vec<char> = Vec::new();
    if bc.len() > 100 {
        let mut i: usize = 0;
        while i < 100
            invariant
                i <= 100,
                i <= bc.len(),
                bc@ == body@,
                body@.len() > 100,
                kept@ == body@.take(100).take(i as int),
            decreases 100 - i,
        {
            kept.push(bc[i]);
            proof {
                assert(body@.take(100).take(i + 1) =~= body@.take(100).take(i as int).push(
                    body@[i as int],
                ));
            }
            i += 1;
        }
        crate::text::push_lit(&mut kept, "...");
        proof {
            assert(body@.take(100).take(100) =~= body@.take(100));
            assert(kept@ =~= spec_trunc_body(body@));
        }
    } else {
        crate::text::push_chars(&mut kept, &bc);
        proof {
            assert(kept@ =~= spec_trunc_body(body@));
        }
    }
    let ghost t = spec_trunc_body(body@);
    let mut outv: Vec<char> = Vec::new();
    let mut i: usize = 0;
    while i < kept.len()
        invariant
            i <= kept.len(),
            kept@ == t,
            outv@ == spec_replace_nl(t).take(i as int),
        decreases kept.len() - i,
    {
        let c = kept[i];
        if c == '\n' {
            outv.push(' ');
        } else {
            outv.push(c);
        }
        proof {
            assert(spec_replace_nl(t)[i as int] == (if t[i as int] == '\n' {
                ' '
            } else {
                t[i as int]
            }));
            assert(spec_replace_nl(t).take(i + 1) =~= spec_replace_nl(t).take(i as int).push(
                spec_replace_nl(t)[i as int],
            ));
        }
        i += 1;
    }
    proof {
        assert(spec_replace_nl(t).take(spec_replace_nl(t).len() as int) =~= spec_replace_nl(t));
    }
    crate::text::chars_to_string(&outv)
}

/// One line of the minimal style.
pub open spec fn spec_minimal_line(c: PRComment) -> Seq<char> {
    "\u{1F4C4} "@ + c.file_path@ + " ("@ + spec_line_info(c.line_number, c.start_line) + ") - "@
        + c.author@ + ": "@ + spec_replace_nl(spec_trunc_body(c.body@)) + "\n"@
}

/// The minimal style's lines, one per comment in input order.
pub open spec fn spec_minimal_lines(cs: Seq<PRComment>) -> Seq<char>
    decreases cs.len(),
{
    if cs.len() == 0 {
        Seq::empty()
    } else {
        spec_minimal_lines(cs.drop_last()) + spec_minimal_line(cs.last())
    }
}

/// The minimal style: one line per comment and a closing summary; the
/// no-comment message alone on empty input.
pub open spec fn spec_format_comments_minimal(cs: Seq<PRComment>) -> Seq<char> {
    if cs.len() == 0 {
        "No comments found.\n"@
    } else {
        spec_minimal_lines(cs) + "\n---\n"@ + spec_u64_digits(cs.len()) + " comment(s) across "@
            + spec_u64_digits(first_seen_paths(cs).len()) + " file(s)\n"@
    }
}

/// Renders the comments in the minimal one-line-per-comment style.
#[verifier::loop_isolation(false)]
pub fn format_comments_minimal(comments: &Vec<PRComment>) -> (r: String)
    ensures
        r@ == spec_format_comments_minimal(comments@),
{
    if comments.len() == 0 {
        return String::from_str("No comments found.\n");
    }
    let mut out = String::new();
    let mut i: usize = 0;
    while i < comments.len()
        invariant
            i <= comments.len(),
            out@ == spec_minimal_lines(comments@.take(i as int)),
        decreases comments.len() - i,
    {
        proof {
            assert(comments@.take(i + 1).drop_last() =~= comments@.take(i as int));
            assert(comments@.take(i + 1).last() == comments@[i as int]);
        }
        let c = &comments[i];
        out.append("\u{1F4C4} ");
        out.append(c.file_path.as_str());
        out.append(" (");
        out.append(c.get_line_info().as_str());
        out.append(") - ");
        out.append(c.author.as_str());
        out.append(": ");
        out.append(minimal_body(&c.body).as_str());
        out.append("\n");
        proof {
            assert(out@ =~= spec_minimal_lines(comments@.take(i as int)) + spec_minimal_line(
                comments@[i as int],
            ));
        }
        i += 1;
    }
    proof {
        assert(comments@.take(comments@.len() as int) =~= comments@);
    }
    out.append("\n---\n");
    out.append(usize_to_string(comments.len()).as_str());
    out.append(" comment(s) across ");
    let paths = distinct_paths(comments);
    out.append(usize_to_string(paths.len()).as_str());
    out.append(" file(s)\n");
    proof {
        assert(paths@.len() == first_seen_paths(comments@).len());
        assert(out@ =~= spec_format_comments_minimal(comments@));
    }
    out
}

/// The flat style's numbered blocks from index `i` on.
pub open spec fn spec_flat_blocks(cs: Seq<PRComment>, i: int, inc: bool, lines: int) -> Seq<char>
    decreases cs.len() - i,
{
    if i < 0 || i >= cs.len() {
        Seq::empty()
    } else {
        "## Comment "@ + spec_u64_digits((i + 1) as nat) + "\n\n"@ + spec_comment_llm(
            cs[i],
            inc,
            lines,
        ) + "\n---\n\n"@ + spec_flat_blocks(cs, i + 1, inc, lines)
    }
}

/// The flat style: a header with the total, then every comment most recent
/// first; the no-comment message alone on empty input.
pub open spec fn spec_format_comments_flat(cs: Seq<PRComment>, inc: bool, lines: int)
    -> Seq<char> {
    if cs.len() == 0 {
        "No comments found.\n"@
    } else {
        "# PR Review Comments\n\n**Total comments:** "@ + spec_u64_digits(cs.len()) + "\n\n"@
            + spec_flat_blocks(sort_comments(1, cs), 0, inc, lines)
    }
}

/// Renders the comments as one flat list, most recently created first.
#[verifier::loop_isolation(false)]
#[verifier::rlimit(100)]
#[verifier::spinoff_prover]
pub fn format_comments_flat(comments: &Vec<PRComment>, include_snippet: bool, snippet_lines: usize)
    -> (r: String)
    ensures
        r@ == spec_format_comments_flat(comments@, include_snippet, snippet_lines as int),
{
    if comments.len() == 0 {
        return String::from_str("No comments found.\n");
    }
    let mut out = String::new();
    out.append("# PR Review Comments\n\n**Total comments:** ");
    out.append(usize_to_string(comments.len()).as_str());
    out.append("\n\n");
    let ghost header = out@;
    let sorted = sort_comments_exec(1, comments);
    let mut i: usize = 0;
    while i < sorted.len()
        invariant
            i <= sorted.len(),
            sorted@ == sort_comments(1, comments@),
            spec_flat_blocks(sorted@, 0, include_snippet, snippet_lines as int) == out@.skip(
                header.len() as int,
            ) + spec_flat_blocks(sorted@, i as int, include_snippet, snippet_lines as int),
            out@.len() >= header.len(),
            out@.take(header.len() as int) == header,
        decreases sorted.len() - i,
    {
        let ghost before = out@;
        out.append("## Comment ");
        out.append(usize_to_string(i + 1).as_str());
        out.append("\n\n");
        out.append(
            format_comment_for_llm(&sorted[i], include_snippet, snippet_lines).as_str(),
        );
        out.append("\n---\n\n");
        proof {
            let chunk = "## Comment "@ + spec_u64_digits((i + 1) as nat) + "\n\n"@
                + spec_comment_llm(sorted@[i as int], include_snippet, snippet_lines as int)
                + "\n---\n\n"@;
            assert(out@.skip(header.len() as int) =~= before.skip(header.len() as int) + chunk);
            assert(out@.take(header.len() as int) =~= header);
        }
        i += 1;
    }
    proof {
        assert(spec_flat_blocks(sorted@, sorted@.len() as int, include_snippet,
            snippet_lines as int) == Seq::<char>::empty());
        assert(out@.skip(header.len() as int) =~= out@.skip(header.len() as int)
            + spec_flat_blocks(sorted@, sorted@.len() as int, include_snippet,
            snippet_lines as int));
        assert(out@ =~= out@.take(header.len() as int) + out@.skip(header.len() as int));
        assert(out@ =~= spec_format_comments_flat(comments@, include_snippet,
            snippet_lines as int));
    }
    out
}

/// The comments of one file, in the grouped styles' order.
pub open spec fn spec_group_of(cs: Seq<PRComment>, p: Seq<char>) -> Seq<PRComment> {
    sort_comments(0, cs.filter(|c: PRComment| c.file_path@ == p))
}

/// The grouped style's blocks: each comment's LLM rendering followed by a
/// rule.
pub open spec fn spec_grouped_blocks(cs: Seq<PRComment>, inc: bool, lines: int) -> Seq<char>
    decreases cs.len(),
{
    if cs.len() == 0 {
        Seq::empty()
    } else {
        spec_grouped_blocks(cs.drop_last(), inc, lines) + spec_comment_llm(
            cs.last(),
            inc,
            lines,
        ) + "\n---\n\n"@
    }
}

/// The grouped style's per-file sections, one per path in the given order.
pub open spec fn spec_grouped_sections(paths: Seq<Seq<char>>, cs: Seq<PRComment>, inc: bool,
    lines: int) -> Seq<char>
    decreases paths.len(),
{
    if paths.len() == 0 {
        Seq::empty()
    } else {
        spec_grouped_sections(paths.drop_last(), cs, inc, lines) + "## "@ + paths.last()
            + "\n\n"@ + spec_grouped_blocks(spec_group_of(cs, paths.last()), inc, lines)
    }
}

/// The grouped style: a header with totals, then one section per file in
/// lexicographic path order, comments ordered by line and date; the
/// no-comment message alone on empty input.
pub open spec fn spec_format_comments_grouped(cs: Seq<PRComment>, inc: bool, lines: int)
    -> Seq<char> {
    if cs.len() == 0 {
        "No comments found.\n"@
    } else {
        "# PR Review Comments\n\n**Total comments:** "@ + spec_u64_digits(cs.len())
            + " across "@ + spec_u64_digits(first_seen_paths(cs).len()) + " file(s)\n\n"@
            + spec_grouped_sections(sort_strs(first_seen_paths(cs)), cs, inc, lines)
    }
}

/// The comments lying in the given file, in input order.
#[verifier::loop_isolation(false)]
fn comments_for_path(comments: &Vec<PRComment>, p: &String) -> (r: Vec<PRComment>)
    ensures
        r@ == comments@.filter(|c: PRComment| c.file_path@ == p@),
{
    broadcast use vstd::seq_lib::group_filter_ensures;

    let ghost pred = |c: PRComment| c.file_path@ == p@;
    let mut group: Vec<PRComment> = Vec::new();
    let mut i: usize = 0;
    while i < comments.len()
        invariant
            i <= comments.len(),
            pred == (|c: PRComment| c.file_path@ == p@),
            group@ == comments@.take(i as int).filter(pred),
        decreases comments.len() - i,
    {
        let keep = comments[i].file_path.eq(p);
        proof {
            reveal(Seq::filter);
            assert(comments@.take(i + 1).drop_last() =~= comments@.take(i as int));
            assert(comments@.take(i + 1).last() == comments@[i as int]);
            assert(keep == pred(comments@[i as int]));
        }
        if keep {
            group.push(comments[i].duplicate());
        }
        i += 1;
    }
    proof {
        assert(comments@.take(comments@.len() as int) =~= comments@);
    }
    group
}

/// Appends the grouped blocks of one file section.
#[verifier::loop_isolation(false)]
fn append_grouped_blocks(out: &mut String, sorted: &Vec<PRComment>, include_snippet: bool,
    snippet_lines: usize)
    ensures
        final(out)@ == old(out)@ + spec_grouped_blocks(sorted@, include_snippet,
            snippet_lines as int),
{
    let mut i: usize = 0;
    while i < sorted.len()
        invariant
            i <= sorted.len(),
            out@ == old(out)@ + spec_grouped_blocks(sorted@.take(i as int), include_snippet,
                snippet_lines as int),
        decreases sorted.len() - i,
    {
        proof {
            assert(sorted@.take(i + 1).drop_last() =~= sorted@.take(i as int));
            assert(sorted@.take(i + 1).last() == sorted@[i as int]);
        }
        out.append(format_comment_for_llm(&sorted[i], include_snippet, snippet_lines).as_str());
        out.append("\n---\n\n");
        proof {
            assert(out@ =~= old(out)@ + (spec_grouped_blocks(sorted@.take(i as int),
                include_snippet, snippet_lines as int) + spec_comment_llm(sorted@[i as int],
                include_snippet, snippet_lines as int) + "\n---\n\n"@));
        }
        i += 1;
    }
    proof {
        assert(sorted@.take(sorted@.len() as int) =~= sorted@);
    }
}

/// Renders the comments grouped by file, sections in lexicographic path
/// order, comments within a file ordered by line and date.
#[verifier::loop_isolation(false)]
#[verifier::rlimit(100)]
#[verifier::spinoff_prover]
pub fn format_comments_grouped(comments: &Vec<PRComment>, include_snippet: bool,
    snippet_lines: usize) -> (r: String)
    ensures
        r@ == spec_format_comments_grouped(comments@, include_snippet, snippet_lines as int),
{
    if comments.len() == 0 {
        return String::from_str("No comments found.\n");
    }
    let mut out = String::new();
    out.append("# PR Review Comments\n\n**Total comments:** ");
    out.append(usize_to_string(comments.len()).as_str());
    out.append(" across ");
    let paths = distinct_paths(comments);
    out.append(usize_to_string(paths.len()).as_str());
    out.append(" file(s)\n\n");
    proof {
        assert(paths@.len() == first_seen_paths(comments@).len());
    }
    let ghost header = out@;
    let sorted_paths = sort_strings(&paths);
    let ghost spv = sorted_paths@.map_values(|s: String| s@);
    let mut k: usize = 0;
    while k < sorted_paths.len()
        invariant
            k <= sorted_paths.len(),
            spv == sorted_paths@.map_values(|s: String| s@),
            spv == sort_strs(first_seen_paths(comments@)),
            out@ == header + spec_grouped_sections(spv.take(k as int), comments@,
                include_snippet, snippet_lines as int),
        decreases sorted_paths.len() - k,
    {
        proof {
            assert(spv.take(k + 1).drop_last() =~= spv.take(k as int));
            assert(spv.take(k + 1).last() == spv[k as int]);
            assert(spv[k as int] == sorted_paths@[k as int]@);
        }
        let p = &sorted_paths[k];
        out.append("## ");
        out.append(p.as_str());
        out.append("\n\n");
        let group = comments_for_path(comments, p);
        let sorted_group = sort_comments_exec(0, &group);
        proof {
            assert(sorted_group@ == spec_group_of(comments@, spv[k as int]));
        }
        append_grouped_blocks(&mut out, &sorted_group, include_snippet, snippet_lines);
        proof {
            assert(out@ =~= header + (spec_grouped_sections(spv.take(k as int), comments@,
                include_snippet, snippet_lines as int) + "## "@ + spv[k as int] + "\n\n"@
                + spec_grouped_blocks(spec_group_of(comments@, spv[k as int]), include_snippet,
                snippet_lines as int)));
        }
        k += 1;
    }
    proof {
        assert(spv.take(spv.len() as int) =~= spv);
    }
    out
}

/// The view of an optional borrowed string.
pub open spec fn opt_ref_view(o: Option<&str>) -> Option<Seq<char>> {
    match o {
        Some(s) => Some(s@),
        None => None,
    }
}

/// A labelled line for an optional value, absent values leaving no line.
pub open spec fn spec_opt_line(prefix: Seq<char>, v: Option<Seq<char>>, suffix: Seq<char>)
    -> Seq<char> {
    match v {
        Some(s) => prefix + s + suffix,
        None => Seq::empty(),
    }
}

/// One comment block of the assistant style.
pub open spec fn spec_claude_block(c: PRComment, inc: bool, lines: int) -> Seq<char> {
    "#### "@ + spec_line_info(c.line_number, c.start_line) + " ("@ + c.author@ + ")\n\n"@ + (
    if inc && spec_snippet(c.diff_hunk@, lines).len() > 0 {
        "**Code context:**\n```\n"@ + spec_snippet(c.diff_hunk@, lines) + "\n```\n\n"@
    } else {
        Seq::<char>::empty()
    }) + "**Review comment:**\n"@ + c.body@ + "\n\n"@ + "[View on GitHub]("@ + c.html_url@
        + ")\n\n"@ + "---\n\n"@
}

/// The assistant style's blocks for one file, in order.
pub open spec fn spec_claude_blocks(cs: Seq<PRComment>, inc: bool, lines: int) -> Seq<char>
    decreases cs.len(),
{
    if cs.len() == 0 {
        Seq::empty()
    } else {
        spec_claude_blocks(cs.drop_last(), inc, lines) + spec_claude_block(cs.last(), inc, lines)
    }
}

/// The assistant style's per-file sections.
pub open spec fn spec_claude_sections(paths: Seq<Seq<char>>, cs: Seq<PRComment>, inc: bool,
    lines: int) -> Seq<char>
    decreases paths.len(),
{
    if paths.len() == 0 {
        Seq::empty()
    } else {
        spec_claude_sections(paths.drop_last(), cs, inc, lines) + "### "@ + paths.last()
            + "\n\n"@ + spec_claude_blocks(spec_group_of(cs, paths.last()), inc, lines)
    }
}

/// The assistant style's document header: title, optional pull-request
/// information, totals, and the fixed instructional paragraph.
pub open spec fn spec_claude_header(cs: Seq<PRComment>, url: Option<Seq<char>>,
    title: Option<Seq<char>>, node_id: Option<Seq<char>>) -> Seq<char> {
    "# Pull Request Review Comments\n\n"@ + spec_opt_line("**PR Title:** "@, title, "\n"@)
        + spec_opt_line("**PR URL:** "@, url, "\n"@) + spec_opt_line(
        "**PR Node ID:** `"@,
        node_id,
        "` (for GraphQL API)\n"@,
    ) + "\n**Total comments:** "@ + spec_u64_digits(cs.len()) + " across "@ + spec_u64_digits(
        first_seen_paths(cs).len(),
    ) + " file(s)\n\n"@
        + "## Instructions\n\nPlease address each of the following review comments. "@
        + "The comments are grouped by file for easier navigation.\n\n"@
        + "## Comments by File\n\n"@
}

/// The assistant style: document header, optional title, link and reply token
/// for the pull request, totals, a fixed instructional paragraph, then the
/// per-file sections; the no-comment message alone on empty input.
pub open spec fn spec_format_for_claude(cs: Seq<PRComment>, url: Option<Seq<char>>,
    title: Option<Seq<char>>, node_id: Option<Seq<char>>, inc: bool, lines: int) -> Seq<char> {
    if cs.len() == 0 {
        "No comments found.\n"@
    } else {
        spec_claude_header(cs, url, title, node_id) + spec_claude_sections(
            sort_strs(first_seen_paths(cs)),
            cs,
            inc,
            lines,
        )
    }
}

/// Builds the assistant style's document header.
#[verifier::rlimit(60)]
fn claude_header(comments: &Vec<PRComment>, pr_url: Option<&str>, pr_title: Option<&str>,
    pr_node_id: Option<&str>) -> (r: String)
    ensures
        r@ == spec_claude_header(comments@, opt_ref_view(pr_url), opt_ref_view(pr_title),
            opt_ref_view(pr_node_id)),
{
    let mut out = String::new();
    out.append("# Pull Request Review Comments\n\n");
    match pr_title {
        Some(t) => {
            out.append("**PR Title:** ");
            out.append(t);
            out.append("\n");
        },
        None => {},
    }
    match pr_url {
        Some(u) => {
            out.append("**PR URL:** ");
            out.append(u);
            out.append("\n");
        },
        None => {},
    }
    match pr_node_id {
        Some(n) => {
            out.append("**PR Node ID:** `");
            out.append(n);
            out.append("` (for GraphQL API)\n");
        },
        None => {},
    }
    out.append("\n**Total comments:** ");
    out.append(usize_to_string(comments.len()).as_str());
    out.append(" across ");
    let paths = distinct_paths(comments);
    out.append(usize_to_string(paths.len()).as_str());
    out.append(" file(s)\n\n");
    out.append("## Instructions\n\nPlease address each of the following review comments. ");
    out.append("The comments are grouped by file for easier navigation.\n\n");
    out.append("## Comments by File\n\n");
    proof {
        assert(paths@.len() == first_seen_paths(comments@).len());
        assert(out@ =~= spec_claude_header(comments@, opt_ref_view(pr_url),
            opt_ref_view(pr_title), opt_ref_view(pr_node_id)));
    }
    out
}

/// Appends the assistant-style blocks of one file section.
#[verifier::loop_isolation(false)]
#[verifier::rlimit(100)]
#[verifier::spinoff_prover]
fn append_claude_blocks(out: &mut String, sorted: &Vec<PRComment>, include_snippet: bool,
    snippet_lines: usize)
    ensures
        final(out)@ == old(out)@ + spec_claude_blocks(sorted@, include_snippet,
            snippet_lines as int),
{
    let mut i: usize = 0;
    while i < sorted.len()
        invariant
            i <= sorted.len(),
            out@ == old(out)@ + spec_claude_blocks(sorted@.take(i as int), include_snippet,
                snippet_lines as int),
        decreases sorted.len() - i,
    {
        proof {
            assert(sorted@.take(i + 1).drop_last() =~= sorted@.take(i as int));
            assert(sorted@.take(i + 1).last() == sorted@[i as int]);
        }
        let c = &sorted[i];
        out.append("#### ");
        out.append(c.get_line_info().as_str());
        out.append(" (");
        out.append(c.author.as_str());
        out.append(")\n\n");
        if include_snippet {
            let snippet = c.get_code_snippet(snippet_lines);
            if !snippet.as_str().is_empty() {
                out.append("**Code context:**\n```\n");
                out.append(snippet.as_str());
                out.append("\n```\n\n");
            }
        }
        out.append("**Review comment:**\n");
        out.append(c.body.as_str());
        out.append("\n\n");
        out.append("[View on GitHub](");
        out.append(c.html_url.as_str());
        out.append(")\n\n");
        out.append("---\n\n");
        proof {
            assert(out@ =~= old(out)@ + (spec_claude_blocks(sorted@.take(i as int),
                include_snippet, snippet_lines as int) + spec_claude_block(sorted@[i as int],
                include_snippet, snippet_lines as int)));
        }
        i += 1;
    }
    proof {
        assert(sorted@.take(sorted@.len() as int) =~= sorted@);
    }
}

/// Renders the comments for an LLM reader with full context: header,
/// pull-request information, totals, instructions, then per-file sections.
#[verifier::loop_isolation(false)]
#[verifier::rlimit(100)]
#[verifier::spinoff_prover]
pub fn format_for_claude(comments: &Vec<PRComment>, pr_url: Option<&str>, pr_title: Option<&str>,
    pr_node_id: Option<&str>, include_snippet: bool, snippet_lines: usize) -> (r: String)
    ensures
        r@ == spec_format_for_claude(comments@, opt_ref_view(pr_url), opt_ref_view(pr_title),
            opt_ref_view(pr_node_id), include_snippet, snippet_lines as int),
{
    if comments.len() == 0 {
        return String::from_str("No comments found.\n");
    }
    let mut out = claude_header(comments, pr_url, pr_title, pr_node_id);
    let paths = distinct_paths(comments);
    let ghost header = out@;
    let sorted_paths = sort_strings(&paths);
    let ghost spv = sorted_paths@.map_values(|s: String| s@);
    let mut k: usize = 0;
    while k < sorted_paths.len()
        invariant
            k <= sorted_paths.len(),
            spv == sorted_paths@.map_values(|s: String| s@),
            spv == sort_strs(first_seen_paths(comments@)),
            out@ == header + spec_claude_sections(spv.take(k as int), comments@,
                include_snippet, snippet_lines as int),
        decreases sorted_paths.len() - k,
    {
        proof {
            assert(spv.take(k + 1).drop_last() =~= spv.take(k as int));
            assert(spv.take(k + 1).last() == spv[k as int]);
            assert(spv[k as int] == sorted_paths@[k as int]@);
        }
        let p = &sorted_paths[k];
        out.append("### ");
        out.append(p.as_str());
        out.append("\n\n");
        let group = comments_for_path(comments, p);
        let sorted_group = sort_comments_exec(0, &group);
        proof {
            assert(sorted_group@ == spec_group_of(comments@, spv[k as int]));
        }
        append_claude_blocks(&mut out, &sorted_group, include_snippet, snippet_lines);
        proof {
            assert(out@ =~= header + (spec_claude_sections(spv.take(k as int), comments@,
                include_snippet, snippet_lines as int) + "### "@ + spv[k as int] + "\n\n"@
                + spec_claude_blocks(spec_group_of(comments@, spv[k as int]), include_snippet,
                snippet_lines as int)));
        }
        k += 1;
    }
    proof {
        assert(spv.take(spv.len() as int) =~= spv);
        assert(out@ =~= spec_format_for_claude(comments@, opt_ref_view(pr_url),
            opt_ref_view(pr_title), opt_ref_view(pr_node_id), include_snippet,
            snippet_lines as int));
    }
    out
}

/// The full rendering of one check, used for failed checks.
pub open spec fn spec_check_detail(c: CheckStatus) -> Seq<char> {
    "### ["@ + spec_display_icon(c.conclusion) + "] "@ + c.name@ + (if c.required {
        " (required)"@
    } else {
        Seq::<char>::empty()
    }) + "\n\n"@ + spec_opt_line("**Description:** "@, opt_str_view(c.description), "\n"@)
        + spec_opt_line("**Workflow:** "@, opt_str_view(c.workflow_name), "\n"@)
        + spec_opt_line("**App:** "@, opt_str_view(c.app_name), "\n"@) + spec_opt_line(
        "**Details:** "@,
        opt_str_view(c.details_url),
        "\n"@,
    ) + "\n"@
}

/// The one-line rendering of one check.
pub open spec fn spec_check_brief(c: CheckStatus) -> Seq<char> {
    "- ["@ + spec_display_icon(c.conclusion) + "] "@ + c.name@ + "\n"@
}

/// Full renderings of a list of checks, in order.
pub open spec fn spec_check_details(cs: Seq<CheckStatus>) -> Seq<char>
    decreases cs.len(),
{
    if cs.len() == 0 {
        Seq::empty()
    } else {
        spec_check_details(cs.drop_last()) + spec_check_detail(cs.last())
    }
}

/// One-line renderings of a list of checks, in order.
pub open spec fn spec_check_briefs(cs: Seq<CheckStatus>) -> Seq<char>
    decreases cs.len(),
{
    if cs.len() == 0 {
        Seq::empty()
    } else {
        spec_check_briefs(cs.drop_last()) + spec_check_brief(cs.last())
    }
}

/// A section of fully rendered checks; an empty list leaves no section.
pub open spec fn spec_detail_section(header: Seq<char>, cs: Seq<CheckStatus>) -> Seq<char> {
    if cs.len() == 0 {
        Seq::empty()
    } else {
        header + spec_check_details(cs)
    }
}

/// A section of one-line checks; an empty list leaves no section.
pub open spec fn spec_brief_section(header: Seq<char>, cs: Seq<CheckStatus>) -> Seq<char> {
    if cs.len() == 0 {
        Seq::empty()
    } else {
        header + spec_check_briefs(cs) + "\n"@
    }
}

/// The assistant checks style: header, summary, then the six sections in fixed
/// priority order, failures first; the no-check message alone when the
/// report has no checks.
pub open spec fn spec_format_checks_for_claude(r: ChecksReport) -> Seq<char> {
    if r.checks@.len() == 0 {
        "No checks found.\n"@
    } else {
        "# Pull Request Check Status\n\n"@ + spec_opt_line(
            "**PR Title:** "@,
            opt_str_view(r.pr_title),
            "\n"@,
        ) + spec_opt_line("**PR URL:** "@, opt_str_view(r.pr_url), "\n"@)
            + "**Overall Status:** "@ + spec_rollup_label(r.rollup_state) + "\n"@
            + "**Summary:** "@ + spec_u64_digits(
            r.checks@.filter(|c: CheckStatus| pred_passed(c)).len(),
        ) + " passed, "@ + spec_u64_digits(
            r.checks@.filter(|c: CheckStatus| pred_failed(c)).len(),
        ) + " failed, "@ + spec_u64_digits(
            r.checks@.filter(|c: CheckStatus| pred_pending(c)).len(),
        ) + " pending, "@ + spec_u64_digits(
            r.checks@.filter(|c: CheckStatus| pred_skipped(c)).len(),
        ) + " skipped ("@ + spec_u64_digits(r.checks@.len()) + " total)\n\n"@
            + spec_detail_section(
            "## Failed Required Checks\n\n"@,
            r.checks@.filter(|c: CheckStatus| pred_failed_required(c)),
        ) + spec_detail_section(
            "## Failed Optional Checks\n\n"@,
            r.checks@.filter(|c: CheckStatus| pred_failed_optional(c)),
        ) + spec_brief_section(
            "## Pending Checks\n\n"@,
            r.checks@.filter(|c: CheckStatus| pred_pending(c)),
        ) + spec_brief_section(
            "## Passed Required Checks\n\n"@,
            r.checks@.filter(|c: CheckStatus| pred_passed_required(c)),
        ) + spec_brief_section(
            "## Passed Optional Checks\n\n"@,
            r.checks@.filter(|c: CheckStatus| pred_passed_optional(c)),
        ) + spec_brief_section(
            "## Skipped Checks\n\n"@,
            r.checks@.filter(|c: CheckStatus| pred_skipped(c)),
        )
    }
}

/// A labelled line for an optional value; an absent value gives the empty
/// string.
fn opt_line_string(prefix: &str, v: &Option<String>, suffix: &str) -> (r: String)
    ensures
        r@ == spec_opt_line(prefix@, opt_str_view(*v), suffix@),
{
    match v {
        Some(s) => {
            let mut o = String::new();
            o.append(prefix);
            o.append(s.as_str());
            o.append(suffix);
            proof {
                assert(o@ =~= prefix@ + s@ + suffix@);
            }
            o
        },
        None => String::new(),
    }
}

/// Appends the full rendering of one check.
#[verifier::rlimit(100)]
#[verifier::spinoff_prover]
pub fn format_check_detail(output: &mut String, check: &CheckStatus)
    ensures
        final(output)@ == old(output)@ + spec_check_detail(*check),
{
    output.append("### [");
    output.append(check.conclusion.display_icon());
    output.append("] ");
    output.append(check.name.as_str());
    if check.required {
        output.append(" (required)");
    }
    output.append("\n\n");
    let ghost g1 = old(output)@ + "### ["@ + spec_display_icon(check.conclusion) + "] "@
        + check.name@ + (if check.required {
        " (required)"@
    } else {
        Seq::<char>::empty()
    }) + "\n\n"@;
    proof {
        assert(output@ =~= g1);
    }
    output.append(opt_line_string("**Description:** ", &check.description, "\n").as_str());
    output.append(opt_line_string("**Workflow:** ", &check.workflow_name, "\n").as_str());
    output.append(opt_line_string("**App:** ", &check.app_name, "\n").as_str());
    output.append(opt_line_string("**Details:** ", &check.details_url, "\n").as_str());
    output.append("\n");
    proof {
        assert(output@ =~= old(output)@ + spec_check_detail(*check));
    }
}

/// Appends the one-line rendering of one check.
pub fn format_check_brief(output: &mut String, check: &CheckStatus)
    ensures
        final(output)@ == old(output)@ + spec_check_brief(*check),
{
    output.append("- [");
    output.append(check.conclusion.display_icon());
    output.append("] ");
    output.append(check.name.as_str());
    output.append("\n");
    proof {
        assert(output@ =~= old(output)@ + spec_check_brief(*check));
    }
}

/// Appends a section of fully rendered checks, or nothing when the list is
/// empty.
#[verifier::loop_isolation(false)]
fn append_detail_section(out: &mut String, header: &str, checks: &Vec<CheckStatus>)
    ensures
        final(out)@ == old(out)@ + spec_detail_section(header@, checks@),
{
    if checks.len() == 0 {
        return ;
    }
    out.append(header);
    let mut i: usize = 0;
    while i < checks.len()
        invariant
            i <= checks.len(),
            out@ == old(out)@ + header@ + spec_check_details(checks@.take(i as int)),
        decreases checks.len() - i,
    {
        proof {
            assert(checks@.take(i + 1).drop_last() =~= checks@.take(i as int));
            assert(checks@.take(i + 1).last() == checks@[i as int]);
        }
        format_check_detail(out, &checks[i]);
        proof {
            assert(out@ =~= old(out)@ + header@ + (spec_check_details(checks@.take(i as int))
                + spec_check_detail(checks@[i as int])));
        }
        i += 1;
    }
    proof {
        assert(checks@.take(checks@.len() as int) =~= checks@);
        assert(out@ =~= old(out)@ + spec_detail_section(header@, checks@));
    }
}

/// Appends a section of one-line checks, or nothing when the list is empty.
#[verifier::loop_isolation(false)]
fn append_brief_section(out: &mut String, header: &str, checks: &Vec<CheckStatus>)
    ensures
        final(out)@ == old(out)@ + spec_brief_section(header@, checks@),
{
    if checks.len() == 0 {
        return ;
    }
    out.append(header);
    let mut i: usize = 0;
    while i < checks.len()
        invariant
            i <= checks.len(),
            out@ == old(out)@ + header@ + spec_check_briefs(checks@.take(i as int)),
        decreases checks.len() - i,
    {
        proof {
            assert(checks@.take(i + 1).drop_last() =~= checks@.take(i as int));
            assert(checks@.take(i + 1).last() == checks@[i as int]);
        }
        format_check_brief(out, &checks[i]);
        proof {
            assert(out@ =~= old(out)@ + header@ + (spec_check_briefs(checks@.take(i as int))
                + spec_check_brief(checks@[i as int])));
        }
        i += 1;
    }
    out.append("\n");
    proof {
        assert(checks@.take(checks@.len() as int) =~= checks@);
        assert(out@ =~= old(out)@ + spec_brief_section(header@, checks@));
    }
}

/// Renders a checks report for an LLM reader: header, summary counts, then
/// failed, pending, passed and skipped sections in that order.
#[verifier::rlimit(100)]
#[verifier::spinoff_prover]
pub fn format_checks_for_claude(report: &ChecksReport) -> (r: String)
    ensures
        r@ == spec_format_checks_for_claude(*report),
{
    if report.checks.len() == 0 {
        return String::from_str("No checks found.\n");
    }
    let mut out = String::new();
    out.append("# Pull Request Check Status\n\n");
    match &report.pr_title {
        Some(t) => {
            out.append("**PR Title:** ");
            out.append(t.as_str());
            out.append("\n");
        },
        None => {},
    }
    match &report.pr_url {
        Some(u) => {
            out.append("**PR URL:** ");
            out.append(u.as_str());
            out.append("\n");
        },
        None => {},
    }
    out.append("**Overall Status:** ");
    out.append(report.rollup_state.label());
    out.append("\n");
    let ghost g1 = "# Pull Request Check Status\n\n"@ + spec_opt_line(
        "**PR Title:** "@,
        opt_str_view(report.pr_title),
        "\n"@,
    ) + spec_opt_line("**PR URL:** "@, opt_str_view(report.pr_url), "\n"@)
        + "**Overall Status:** "@ + spec_rollup_label(report.rollup_state) + "\n"@;
    proof {
        assert(out@ =~= g1);
    }
    let summary = report.summary_counts();
    out.append("**Summary:** ");
    out.append(usize_to_string(summary.passed).as_str());
    out.append(" passed, ");
    out.append(usize_to_string(summary.failed).as_str());
    out.append(" failed, ");
    out.append(usize_to_string(summary.pending).as_str());
    out.append(" pending, ");
    out.append(usize_to_string(summary.skipped).as_str());
    out.append(" skipped (");
    out.append(usize_to_string(summary.total).as_str());
    out.append(" total)\n\n");
    let ghost g2 = g1 + "**Summary:** "@ + spec_u64_digits(
        report.checks@.filter(|c: CheckStatus| pred_passed(c)).len(),
    ) + " passed, "@ + spec_u64_digits(
        report.checks@.filter(|c: CheckStatus| pred_failed(c)).len(),
    ) + " failed, "@ + spec_u64_digits(
        report.checks@.filter(|c: CheckStatus| pred_pending(c)).len(),
    ) + " pending, "@ + spec_u64_digits(
        report.checks@.filter(|c: CheckStatus| pred_skipped(c)).len(),
    ) + " skipped ("@ + spec_u64_digits(report.checks@.len()) + " total)\n\n"@;
    proof {
        assert(out@ =~= g2);
    }
    append_detail_section(&mut out, "## Failed Required Checks\n\n", &report.failed_required());
    let ghost g3 = g2 + spec_detail_section(
        "## Failed Required Checks\n\n"@,
        report.checks@.filter(|c: CheckStatus| pred_failed_required(c)),
    );
    proof {
        assert(out@ =~= g3);
    }
    append_detail_section(&mut out, "## Failed Optional Checks\n\n", &report.failed_optional());
    let ghost g4 = g3 + spec_detail_section(
        "## Failed Optional Checks\n\n"@,
        report.checks@.filter(|c: CheckStatus| pred_failed_optional(c)),
    );
    proof {
        assert(out@ =~= g4);
    }
    append_brief_section(&mut out, "## Pending Checks\n\n", &report.pending());
    let ghost g5 = g4 + spec_brief_section(
        "## Pending Checks\n\n"@,
        report.checks@.filter(|c: CheckStatus| pred_pending(c)),
    );
    proof {
        assert(out@ =~= g5);
    }
    append_brief_section(&mut out, "## Passed Required Checks\n\n", &report.passed_required());
    let ghost g6 = g5 + spec_brief_section(
        "## Passed Required Checks\n\n"@,
        report.checks@.filter(|c: CheckStatus| pred_passed_required(c)),
    );
    proof {
        assert(out@ =~= g6);
    }
    append_brief_section(&mut out, "## Passed Optional Checks\n\n", &report.passed_optional());
    let ghost g7 = g6 + spec_brief_section(
        "## Passed Optional Checks\n\n"@,
        report.checks@.filter(|c: CheckStatus| pred_passed_optional(c)),
    );
    proof {
        assert(out@ =~= g7);
    }
    append_brief_section(&mut out, "## Skipped Checks\n\n", &report.skipped());
    proof {
        assert(out@ =~= g7 + spec_brief_section(
            "## Skipped Checks\n\n"@,
            report.checks@.filter(|c: CheckStatus| pred_skipped(c)),
        ));
        assert(out@ =~= spec_format_checks_for_claude(*report));
    }
    out
}

/// The minimal checks style's sort key: failures first, then pending, then
/// passes, then everything else.
pub open spec fn check_prio(c: CheckStatus) -> int {
    if spec_is_failure(c.conclusion) {
        0
    } else if c.conclusion is Pending {
        1
    } else if c.conclusion is Success {
        2
    } else {
        3
    }
}

/// Stable insertion under the priority key.
pub open spec fn insert_check(s: Seq<CheckStatus>, c: CheckStatus) -> Seq<CheckStatus>
    decreases s.len(),
{
    if s.len() == 0 {
        seq![c]
    } else if check_prio(s.last()) <= check_prio(c) {
        s.push(c)
    } else {
        insert_check(s.drop_last(), c).push(s.last())
    }
}

/// Stable insertion sort of checks under the priority key.
pub open spec fn sort_checks(s: Seq<CheckStatus>) -> Seq<CheckStatus>
    decreases s.len(),
{
    if s.len() == 0 {
        Seq::empty()
    } else {
        insert_check(sort_checks(s.drop_last()), s.last())
    }
}

/// The minimal style's priority of one check.
fn check_prio_exec(c: &CheckStatus) -> (r: u8)
    ensures
        r as int == check_prio(*c),
{
    if c.conclusion.is_failure() {
        0
    } else if matches!(c.conclusion, CheckConclusion::Pending) {
        1
    } else if matches!(c.conclusion, CheckConclusion::Success) {
        2
    } else {
        3
    }
}

/// Sorts the checks stably by priority.
#[verifier::loop_isolation(false)]
#[verifier::rlimit(100)]
#[verifier::spinoff_prover]
fn sort_checks_exec(v: &Vec<CheckStatus>) -> (r: Vec<CheckStatus>)
    ensures
        r@ == sort_checks(v@),
{
    let mut out: Vec<CheckStatus> = Vec::new();
    let mut i: usize = 0;
    while i < v.len()
        invariant
            i <= v.len(),
            out@ == sort_checks(v@.take(i as int)),
        decreases v.len() - i,
    {
        proof {
            assert(v@.take(i + 1).drop_last() =~= v@.take(i as int));
            assert(v@.take(i + 1).last() == v@[i as int]);
        }
        let c = v[i].duplicate();
        let cp: u8 = check_prio_exec(&c);
        let ghost sorted = out@;
        let mut k: usize = out.len();
        while k > 0 && check_prio_exec(&out[k - 1]) > cp
            invariant
                k <= out.len(),
                out@ == sorted,
                cp as int == check_prio(c),
                insert_check(sorted, c) == insert_check(sorted.take(k as int), c) + sorted.skip(
                    k as int,
                ),
            decreases k,
        {
            proof {
                let t = sorted.take(k as int);
                assert(t.last() == sorted[k - 1]);
                assert(t.drop_last() =~= sorted.take(k - 1));
                assert(insert_check(t, c) == insert_check(sorted.take(k - 1), c).push(
                    sorted[k - 1],
                ));
                assert(insert_check(sorted.take(k - 1), c).push(sorted[k - 1]) + sorted.skip(
                    k as int,
                ) =~= insert_check(sorted.take(k - 1), c) + sorted.skip(k - 1));
            }
            k -= 1;
        }
        proof {
            let t = sorted.take(k as int);
            if k > 0 {
                assert(t.last() == sorted[k - 1]);
                assert(insert_check(t, c) == t.push(c));
            } else {
                assert(t.len() == 0);
                assert(insert_check(t, c) =~= seq![c]);
            }
            assert(insert_check(sorted, c) =~= sorted.insert(k as int, c));
        }
        out.insert(k, c);
        i += 1;
    }
    proof {
        assert(v@.take(v@.len() as int) =~= v@);
    }
    out
}

/// One line of the minimal checks style, a star marking a required check.
pub open spec fn spec_minimal_check_line(c: CheckStatus) -> Seq<char> {
    "["@ + spec_display_icon(c.conclusion) + "]"@ + (if c.required {
        "*"@
    } else {
        " "@
    }) + " "@ + c.name@ + "\n"@
}

/// The minimal checks style's lines, in order.
pub open spec fn spec_minimal_check_lines(cs: Seq<CheckStatus>) -> Seq<char>
    decreases cs.len(),
{
    if cs.len() == 0 {
        Seq::empty()
    } else {
        spec_minimal_check_lines(cs.drop_last()) + spec_minimal_check_line(cs.last())
    }
}

/// The minimal checks style: one status line, the checks sorted failures
/// first, and a legend; the no-check message alone when the report has no
/// checks.
pub open spec fn spec_format_checks_minimal(r: ChecksReport) -> Seq<char> {
    if r.checks@.len() == 0 {
        "No checks found.\n"@
    } else {
        "Status: "@ + spec_rollup_label(r.rollup_state) + " | "@ + spec_u64_digits(
            r.checks@.filter(|c: CheckStatus| pred_passed(c)).len(),
        ) + " passed, "@ + spec_u64_digits(
            r.checks@.filter(|c: CheckStatus| pred_failed(c)).len(),
        ) + " failed, "@ + spec_u64_digits(
            r.checks@.filter(|c: CheckStatus| pred_pending(c)).len(),
        ) + " pending, "@ + spec_u64_digits(
            r.checks@.filter(|c: CheckStatus| pred_skipped(c)).len(),
        ) + " skipped\n"@ + spec_minimal_check_lines(sort_checks(r.checks@))
            + "* = required\n"@
    }
}

/// Renders a checks report in the compact style, failures surfacing first.
#[verifier::loop_isolation(false)]
#[verifier::rlimit(100)]
#[verifier::spinoff_prover]
pub fn format_checks_minimal(report: &ChecksReport) -> (r: String)
    ensures
        r@ == spec_format_checks_minimal(*report),
{
    if report.checks.len() == 0 {
        return String::from_str("No checks found.\n");
    }
    let mut out = String::new();
    out.append("Status: ");
    out.append(report.rollup_state.label());
    out.append(" | ");
    let summary = report.summary_counts();
    out.append(usize_to_string(summary.passed).as_str());
    out.append(" passed, ");
    out.append(usize_to_string(summary.failed).as_str());
    out.append(" failed, ");
    out.append(usize_to_string(summary.pending).as_str());
    out.append(" pending, ");
    out.append(usize_to_string(summary.skipped).as_str());
    out.append(" skipped\n");
    let ghost header = out@;
    let sorted = sort_checks_exec(&report.checks);
    let mut i: usize = 0;
    while i < sorted.len()
        invariant
            i <= sorted.len(),
            sorted@ == sort_checks(report.checks@),
            out@ == header + spec_minimal_check_lines(sorted@.take(i as int)),
        decreases sorted.len() - i,
    {
        proof {
            assert(sorted@.take(i + 1).drop_last() =~= sorted@.take(i as int));
            assert(sorted@.take(i + 1).last() == sorted@[i as int]);
        }
        let c = &sorted[i];
        out.append("[");
        out.append(c.conclusion.display_icon());
        out.append("]");
        if c.required {
            out.append("*");
        } else {
            out.append(" ");
        }
        out.append(" ");
        out.append(c.name.as_str());
        out.append("\n");
        proof {
            assert(out@ =~= header + (spec_minimal_check_lines(sorted@.take(i as int))
                + spec_minimal_check_line(sorted@[i as int])));
        }
        i += 1;
    }
    out.append("* = required\n");
    proof {
        assert(sorted@.take(sorted@.len() as int) =~= sorted@);
        assert(out@ =~= spec_format_checks_minimal(*report));
    }
    out
}

/// An optional string as a JSON value: the string, or null.
pub open spec fn jv_of_opt_str(o: Option<Seq<char>>) -> JsonV {
    match o {
        Some(s) => JsonV::Str(s),
        None => JsonV::Null,
    }
}

/// An optional instant as a JSON value: its RFC 3339 rendering, or null.
pub open spec fn jv_of_opt_ts(o: Option<i64>) -> JsonV {
    match o {
        Some(t) => JsonV::Str(rfc3339_of(t as int)),
        None => JsonV::Null,
    }
}

/// One comment as a JSON object: fixed keys, a null snippet when snippets
/// are off or empty, and the reply token under `node_id`.
pub open spec fn spec_comment_jv(c: PRComment, inc: bool, lines: int) -> JsonV {
    JsonV::Obj(
        seq![
            ("file"@, JsonV::Str(c.file_path@)),
            (
                "line"@,
                match c.line_number {
                    Some(n) => JsonV::Int(n as int),
                    None => JsonV::Null,
                },
            ),
            ("author"@, JsonV::Str(c.author@)),
            ("body"@, JsonV::Str(c.body@)),
            (
                "snippet"@,
                if inc && spec_snippet(c.diff_hunk@, lines).len() > 0 {
                    JsonV::Str(spec_snippet(c.diff_hunk@, lines))
                } else {
                    JsonV::Null
                },
            ),
            ("url"@, JsonV::Str(c.html_url@)),
            ("node_id"@, jv_of_opt_str(opt_str_view(c.node_id))),
        ],
    )
}

/// The comments as JSON objects, in order.
pub open spec fn spec_comments_jv(cs: Seq<PRComment>, inc: bool, lines: int) -> Seq<JsonV> {
    cs.map_values(|c: PRComment| spec_comment_jv(c, inc, lines))
}

/// The JSON comment style: a pretty-printed array of comment objects; the
/// no-comment message alone on empty input.
pub open spec fn spec_format_as_json(cs: Seq<PRComment>, inc: bool, lines: int) -> Seq<char> {
    if cs.len() == 0 {
        "No comments found.\n"@
    } else {
        jv_text(JsonV::Arr(spec_comments_jv(cs, inc, lines)), 0)
    }
}

/// Builds the JSON object of one comment.
#[verifier::rlimit(60)]
fn comment_json(c: &PRComment, include_snippet: bool, snippet_lines: usize) -> (r: Json)
    ensures
        json_view(r) == spec_comment_jv(*c, include_snippet, snippet_lines as int),
{
    let mut pairs: Vec<(String, Json)> = Vec::new();
    pairs.push((String::from_str("file"), Json::Str(c.file_path.clone())));
    let line_val = match c.line_number {
        Some(n) => Json::Int(n),
        None => Json::Null,
    };
    pairs.push((String::from_str("line"), line_val));
    pairs.push((String::from_str("author"), Json::Str(c.author.clone())));
    pairs.push((String::from_str("body"), Json::Str(c.body.clone())));
    let snippet_val = if include_snippet {
        let s = c.get_code_snippet(snippet_lines);
        if !s.as_str().is_empty() {
            Json::Str(s)
        } else {
            Json::Null
        }
    } else {
        Json::Null
    };
    pairs.push((String::from_str("snippet"), snippet_val));
    pairs.push((String::from_str("url"), Json::Str(c.html_url.clone())));
    let node_val = match &c.node_id {
        Some(s) => Json::Str(s.clone()),
        None => Json::Null,
    };
    pairs.push((String::from_str("node_id"), node_val));
    let r = Json::Obj(pairs);
    proof {
        match &r {
            Json::Obj(ps) => {
                crate::jsonval::lemma_json_pair_views_index(ps@);
                assert(json_pair_views(ps@) =~= spec_comment_jv(*c, include_snippet,
                    snippet_lines as int)->Obj_0);
            },
            _ => {},
        }
    }
    r
}

/// Renders the comments as a pretty-printed JSON array with fixed keys.
#[verifier::loop_isolation(false)]
pub fn format_as_json(comments: &Vec<PRComment>, include_snippet: bool, snippet_lines: usize)
    -> (r: String)
    ensures
        r@ == spec_format_as_json(comments@, include_snippet, snippet_lines as int),
{
    if comments.len() == 0 {
        return String::from_str("No comments found.\n");
    }
    let ghost target = spec_comments_jv(comments@, include_snippet, snippet_lines as int);
    let mut arr: Vec<Json> = Vec::new();
    let mut i: usize = 0;
    while i < comments.len()
        invariant
            i <= comments.len(),
            arr@.len() == i,
            json_views(arr@) =~= target.take(i as int),
        decreases comments.len() - i,
    {
        let ghost prev = arr@;
        let item = comment_json(&comments[i], include_snippet, snippet_lines);
        arr.push(item);
        proof {
            crate::jsonval::lemma_json_views_index(arr@);
            crate::jsonval::lemma_json_views_index(prev);
            assert(arr@.drop_last() =~= prev);
            assert(json_views(arr@) =~= target.take(i + 1));
        }
        i += 1;
    }
    proof {
        assert(target.take(target.len() as int) =~= target);
        assert(json_views(arr@) =~= target);
    }
    let tree = Json::Arr(arr);
    proof {
        assert(json_view(tree) == JsonV::Arr(target));
    }
    write_json(&tree)
}

/// One check as a JSON object: fixed keys, timestamps as RFC 3339 strings
/// or null.
pub open spec fn spec_check_jv(c: CheckStatus) -> JsonV {
    JsonV::Obj(
        seq![
            ("name"@, JsonV::Str(c.name@)),
            ("conclusion"@, JsonV::Str(spec_conclusion_code(c.conclusion))),
            ("required"@, JsonV::Bool(c.required)),
            ("description"@, jv_of_opt_str(opt_str_view(c.description))),
            ("details_url"@, jv_of_opt_str(opt_str_view(c.details_url))),
            ("started_at"@, jv_of_opt_ts(c.started_at)),
            ("completed_at"@, jv_of_opt_ts(c.completed_at)),
            ("check_type"@, JsonV::Str(spec_check_type_code(c.check_type))),
            ("workflow_name"@, jv_of_opt_str(opt_str_view(c.workflow_name))),
            ("app_name"@, jv_of_opt_str(opt_str_view(c.app_name))),
        ],
    )
}

/// The full report as a JSON object: title, link, the rollup state's label,
/// and the check array.
pub open spec fn spec_report_jv(r: ChecksReport) -> JsonV {
    JsonV::Obj(
        seq![
            ("pr_title"@, jv_of_opt_str(opt_str_view(r.pr_title))),
            ("pr_url"@, jv_of_opt_str(opt_str_view(r.pr_url))),
            ("rollup_state"@, JsonV::Str(spec_rollup_label(r.rollup_state))),
            ("checks"@, JsonV::Arr(r.checks@.map_values(|c: CheckStatus| spec_check_jv(c)))),
        ],
    )
}

/// The JSON checks style: the pretty-printed report object; the no-check
/// message alone when the report has no checks.
pub open spec fn spec_format_checks_as_json(r: ChecksReport) -> Seq<char> {
    if r.checks@.len() == 0 {
        "No checks found.\n"@
    } else {
        jv_text(spec_report_jv(r), 0)
    }
}

/// An optional string as an executable JSON value.
fn json_of_opt_string(o: &Option<String>) -> (r: Json)
    ensures
        json_view(r) == jv_of_opt_str(opt_str_view(*o)),
{
    match o {
        Some(s) => Json::Str(s.clone()),
        None => Json::Null,
    }
}

/// An optional instant as an executable JSON value.
fn json_of_opt_ts(o: Option<i64>) -> (r: Json)
    ensures
        json_view(r) == jv_of_opt_ts(o),
{
    match o {
        Some(t) => Json::Str(crate::parser::format_rfc3339(t)),
        None => Json::Null,
    }
}

/// Builds the JSON object of one check.
#[verifier::rlimit(60)]
fn check_json(c: &CheckStatus) -> (r: Json)
    ensures
        json_view(r) == spec_check_jv(*c),
{
    let mut pairs: Vec<(String, Json)> = Vec::new();
    pairs.push((String::from_str("name"), Json::Str(c.name.clone())));
    pairs.push((String::from_str("conclusion"), Json::Str(c.conclusion.code().to_owned())));
    pairs.push((String::from_str("required"), Json::Bool(c.required)));
    pairs.push((String::from_str("description"), json_of_opt_string(&c.description)));
    pairs.push((String::from_str("details_url"), json_of_opt_string(&c.details_url)));
    pairs.push((String::from_str("started_at"), json_of_opt_ts(c.started_at)));
    pairs.push((String::from_str("completed_at"), json_of_opt_ts(c.completed_at)));
    pairs.push((String::from_str("check_type"), Json::Str(c.check_type.code().to_owned())));
    pairs.push((String::from_str("workflow_name"), json_of_opt_string(&c.workflow_name)));
    pairs.push((String::from_str("app_name"), json_of_opt_string(&c.app_name)));
    let r = Json::Obj(pairs);
    proof {
        match &r {
            Json::Obj(ps) => {
                crate::jsonval::lemma_json_pair_views_index(ps@);
                assert(json_pair_views(ps@) =~= spec_check_jv(*c)->Obj_0);
            },
            _ => {},
        }
    }
    r
}

/// Renders a checks report as a pretty-printed JSON object.
#[verifier::loop_isolation(false)]
#[verifier::rlimit(60)]
pub fn format_checks_as_json(report: &ChecksReport) -> (r: String)
    ensures
        r@ == spec_format_checks_as_json(*report),
{
    if report.checks.len() == 0 {
        return String::from_str("No checks found.\n");
    }
    let ghost target = report.checks@.map_values(|c: CheckStatus| spec_check_jv(c));
    let mut arr: Vec<Json> = Vec::new();
    let mut i: usize = 0;
    while i < report.checks.len()
        invariant
            i <= report.checks@.len(),
            arr@.len() == i,
            json_views(arr@) =~= target.take(i as int),
        decreases report.checks@.len() - i,
    {
        let ghost prev = arr@;
        let item = check_json(&report.checks[i]);
        arr.push(item);
        proof {
            crate::jsonval::lemma_json_views_index(arr@);
            crate::jsonval::lemma_json_views_index(prev);
            assert(arr@.drop_last() =~= prev);
            assert(json_views(arr@) =~= target.take(i + 1));
        }
        i += 1;
    }
    proof {
        assert(target.take(target.len() as int) =~= target);
        assert(json_views(arr@) =~= target);
    }
    let mut pairs: Vec<(String, Json)> = Vec::new();
    pairs.push((String::from_str("pr_title"), json_of_opt_string(&report.pr_title)));
    pairs.push((String::from_str("pr_url"), json_of_opt_string(&report.pr_url)));
    pairs.push((
        String::from_str("rollup_state"),
        Json::Str(report.rollup_state.label().to_owned()),
    ));
    pairs.push((String::from_str("checks"), Json::Arr(arr)));
    let tree = Json::Obj(pairs);
    proof {
        match &tree {
            Json::Obj(ps) => {
                crate::jsonval::lemma_json_pair_views_index(ps@);
                assert(json_pair_views(ps@) =~= spec_report_jv(*report)->Obj_0);
            },
            _ => {},
        }
        assert(json_view(tree) == spec_report_jv(*report));
    }
    write_json(&tree)
}

/// A timestamp field of an encoded check: an RFC 3339 string that denotes
/// an instant, read back into epoch milliseconds; anything else is absent.
pub open spec fn spec_ts_of_jv(v: JsonV, key: Seq<char>) -> Option<i64> {
    match crate::jsonval::jv_get_str(v, key) {
        Some(s) => match crate::parser::datetime_of(s) {
            Some(t) => if i64::MIN <= t <= i64::MAX {
                Some(t as i64)
            } else {
                None
            },
            None => None,
        },
        None => None,
    }
}

/// How one encoded check decodes: the name, conclusion label, required flag
/// and check kind must be present and well formed; every other field reads
/// back as optional.
pub open spec fn spec_check_of_jv(v: JsonV) -> Option<crate::models::CheckView> {
    match crate::jsonval::jv_get_str(v, "name"@) {
        None => None,
        Some(name) => match crate::jsonval::jv_get_str(v, "conclusion"@) {
            None => None,
            Some(cc) => match crate::models::spec_conclusion_of_code(cc) {
                None => None,
                Some(conclusion) => match crate::jsonval::jv_get_bool(v, "required"@) {
                    None => None,
                    Some(required) => match crate::jsonval::jv_get_str(v, "check_type"@) {
                        None => None,
                        Some(tc) => match crate::models::spec_check_type_of_code(tc) {
                            None => None,
                            Some(check_type) => Some(
                                crate::models::CheckView {
                                    name,
                                    conclusion,
                                    required,
                                    description: crate::jsonval::jv_get_str(v, "description"@),
                                    details_url: crate::jsonval::jv_get_str(v, "details_url"@),
                                    started_at: spec_ts_of_jv(v, "started_at"@),
                                    completed_at: spec_ts_of_jv(v, "completed_at"@),
                                    check_type,
                                    workflow_name: crate::jsonval::jv_get_str(
                                        v,
                                        "workflow_name"@,
                                    ),
                                    app_name: crate::jsonval::jv_get_str(v, "app_name"@),
                                },
                            ),
                        },
                    },
                },
            },
        },
    }
}

/// How an encoded check list decodes: every element must decode.
pub open spec fn spec_checks_of_jv(vs: Seq<JsonV>) -> Option<Seq<crate::models::CheckView>>
    decreases vs.len(),
{
    if vs.len() == 0 {
        Some(Seq::empty())
    } else {
        match (spec_checks_of_jv(vs.drop_last()), spec_check_of_jv(vs.last())) {
            (Some(p), Some(c)) => Some(p.push(c)),
            _ => None,
        }
    }
}

/// How an encoded report decodes: the rollup label and check array must be
/// present, the title and link read back as optional.
pub open spec fn spec_report_of_jv(v: JsonV) -> Option<crate::models::ReportView> {
    match crate::jsonval::jv_get_str(v, "rollup_state"@) {
        None => None,
        Some(rs) => match crate::jsonval::jv_get(v, "checks"@) {
            Some(JsonV::Arr(ns)) => match spec_checks_of_jv(ns) {
                Some(cs) => Some(
                    crate::models::ReportView {
                        pr_title: crate::jsonval::jv_get_str(v, "pr_title"@),
                        pr_url: crate::jsonval::jv_get_str(v, "pr_url"@),
                        rollup_state: crate::models::spec_rollup_of_label(rs),
                        checks: cs,
                    },
                ),
                None => None,
            },
            _ => None,
        },
    }
}

/// A timestamp field of an encoded check, read back.
fn ts_from_json(v: &Json, key: &str) -> (r: Option<i64>)
    ensures
        r == spec_ts_of_jv(json_view(*v), key@),
{
    match v.get_str(key) {
        Some(s) => crate::parser::parse_datetime(s.as_str()),
        None => None,
    }
}

/// Decodes one encoded check.
pub fn check_from_json(v: &Json) -> (r: Option<CheckStatus>)
    ensures
        r is Some <==> spec_check_of_jv(json_view(*v)) is Some,
        r is Some ==> Some(crate::models::check_view(r->0)) == spec_check_of_jv(json_view(*v)),
{
    let name = match v.get_str("name") {
        Some(n) => n,
        None => {
            return None;
        },
    };
    let conclusion = match v.get_str("conclusion") {
        Some(cc) => match CheckConclusion::from_code(cc.as_str()) {
            Some(c) => c,
            None => {
                return None;
            },
        },
        None => {
            return None;
        },
    };
    let required = match v.get_bool("required") {
        Some(b) => b,
        None => {
            return None;
        },
    };
    let check_type = match v.get_str("check_type") {
        Some(tc) => match crate::models::CheckType::from_code(tc.as_str()) {
            Some(t) => t,
            None => {
                return None;
            },
        },
        None => {
            return None;
        },
    };
    let c = CheckStatus {
        name,
        conclusion,
        required,
        description: v.get_str("description"),
        details_url: v.get_str("details_url"),
        started_at: ts_from_json(v, "started_at"),
        completed_at: ts_from_json(v, "completed_at"),
        check_type,
        workflow_name: v.get_str("workflow_name"),
        app_name: v.get_str("app_name"),
    };
    proof {
        assert(crate::models::check_view(c) =~= spec_check_of_jv(json_view(*v))->0);
    }
    Some(c)
}

/// A check that fails to decode sinks the whole list.
proof fn lemma_checks_of_jv_fail(vs: Seq<JsonV>, i: int)
    requires
        0 <= i < vs.len(),
        spec_check_of_jv(vs[i]) is None,
    ensures
        spec_checks_of_jv(vs) is None,
    decreases vs.len(),
{
    if i < vs.len() - 1 {
        assert(vs.drop_last()[i] == vs[i]);
        lemma_checks_of_jv_fail(vs.drop_last(), i);
    }
}

/// Decodes a report from the JSON value the JSON checks style writes.
#[verifier::loop_isolation(false)]
pub fn checks_report_from_json(j: &Json) -> (r: Option<ChecksReport>)
    ensures
        r is Some <==> spec_report_of_jv(json_view(*j)) is Some,
        r is Some ==> Some(crate::models::report_view(r->0)) == spec_report_of_jv(
            json_view(*j),
        ),
{
    let rollup_state = match j.get_str("rollup_state") {
        Some(rs) => crate::models::RollupState::from_label(rs.as_str()),
        None => {
            return None;
        },
    };
    let nodes = match j.get("checks") {
        Some(n) => n,
        None => {
            return None;
        },
    };
    match nodes {
        Json::Arr(items) => {
            let ghost jsv = json_views(items@);
            proof {
                crate::jsonval::lemma_json_views_index(items@);
            }
            let mut checks: Vec<CheckStatus> = Vec::new();
            let mut i: usize = 0;
            while i < items.len()
                invariant
                    i <= items.len(),
                    spec_checks_of_jv(jsv.take(i as int)) == Some(
                        checks@.map_values(|c: CheckStatus| crate::models::check_view(c)),
                    ),
                decreases items.len() - i,
            {
                let ghost prev = checks@.map_values(
                    |c: CheckStatus| crate::models::check_view(c),
                );
                proof {
                    assert(jsv.take(i + 1).drop_last() =~= jsv.take(i as int));
                    assert(jsv.take(i + 1).last() == jsv[i as int]);
                }
                match check_from_json(&items[i]) {
                    Some(c) => {
                        checks.push(c);
                        proof {
                            assert(checks@.map_values(
                                |c: CheckStatus| crate::models::check_view(c),
                            ) =~= prev.push(crate::models::check_view(checks@.last())));
                        }
                    },
                    None => {
                        proof {
                            lemma_checks_of_jv_fail(jsv, i as int);
                        }
                        return None;
                    },
                }
                i += 1;
            }
            proof {
                assert(jsv.take(jsv.len() as int) =~= jsv);
            }
            let rep = ChecksReport {
                pr_title: j.get_str("pr_title"),
                pr_url: j.get_str("pr_url"),
                rollup_state,
                checks,
            };
            proof {
                assert(crate::models::report_view(rep) =~= spec_report_of_jv(
                    json_view(*j),
                )->0);
            }
            Some(rep)
        },
        _ => None,
    }
}

/// The instant survives being rendered to RFC 3339 text and read back.
pub open spec fn ts_round_trips(t: i64) -> bool {
    crate::parser::datetime_of(rfc3339_of(t as int)) == Some(t as int)
}

/// Both optional timestamps of the check survive the rendering.
pub open spec fn check_ts_ok(c: CheckStatus) -> bool {
    &&& match c.started_at {
        Some(t) => ts_round_trips(t),
        None => true,
    }
    &&& match c.completed_at {
        Some(t) => ts_round_trips(t),
        None => true,
    }
}

/// Every check's timestamps survive the rendering; `format_rfc3339`
/// guarantees this for every instant within the four-digit-year range.
pub open spec fn report_ts_ok(r: ChecksReport) -> bool {
    forall|i: int| 0 <= i < r.checks@.len() ==> check_ts_ok(#[trigger] r.checks@[i])
}

/// Decoding an encoded check gives the check back.
proof fn lemma_check_jv_round_trip(c: CheckStatus)
    requires
        check_ts_ok(c),
    ensures
        spec_check_of_jv(spec_check_jv(c)) == Some(crate::models::check_view(c)),
{
    reveal_with_fuel(crate::jsonval::jv_obj_get, 12);
    reveal_strlit("name");
    reveal_strlit("conclusion");
    reveal_strlit("required");
    reveal_strlit("description");
    reveal_strlit("details_url");
    reveal_strlit("started_at");
    reveal_strlit("completed_at");
    reveal_strlit("check_type");
    reveal_strlit("workflow_name");
    reveal_strlit("app_name");
    assert(("name"@).len() == 4);
    assert(("conclusion"@).len() == 10 && ("conclusion"@)[0] == 'c' && ("conclusion"@)[1]
        == 'o');
    assert(("required"@).len() == 8 && ("required"@)[0] == 'r');
    assert(("description"@).len() == 11 && ("description"@)[2] == 's');
    assert(("details_url"@).len() == 11 && ("details_url"@)[2] == 't');
    assert(("started_at"@).len() == 10 && ("started_at"@)[0] == 's');
    assert(("completed_at"@).len() == 12);
    assert(("check_type"@).len() == 10 && ("check_type"@)[0] == 'c' && ("check_type"@)[1]
        == 'h');
    assert(("workflow_name"@).len() == 13);
    assert(("app_name"@).len() == 8 && ("app_name"@)[0] == 'a');
    crate::models::lemma_conclusion_code_round_trip(c.conclusion);
    crate::models::lemma_check_type_code_round_trip(c.check_type);
    assert(spec_check_of_jv(spec_check_jv(c)) =~= Some(crate::models::check_view(c)));
}

/// Decoding an encoded check list gives the checks back.
proof fn lemma_checks_list_round_trip(cs: Seq<CheckStatus>)
    requires
        forall|i: int| 0 <= i < cs.len() ==> check_ts_ok(#[trigger] cs[i]),
    ensures
        spec_checks_of_jv(cs.map_values(|c: CheckStatus| spec_check_jv(c))) == Some(
            cs.map_values(|c: CheckStatus| crate::models::check_view(c)),
        ),
    decreases cs.len(),
{
    let enc = cs.map_values(|c: CheckStatus| spec_check_jv(c));
    if cs.len() == 0 {
        assert(enc.len() == 0);
        assert(cs.map_values(|c: CheckStatus| crate::models::check_view(c)) =~= Seq::<
            crate::models::CheckView,
        >::empty());
    } else {
        lemma_checks_list_round_trip(cs.drop_last());
        lemma_check_jv_round_trip(cs.last());
        assert(enc.drop_last() =~= cs.drop_last().map_values(
            |c: CheckStatus| spec_check_jv(c),
        ));
        assert(enc.last() == spec_check_jv(cs.last()));
        assert(cs.map_values(|c: CheckStatus| crate::models::check_view(c))
            =~= cs.drop_last().map_values(|c: CheckStatus| crate::models::check_view(c)).push(
            crate::models::check_view(cs.last()),
        ));
    }
}

/// The JSON checks encoding round-trips: decoding the value that
/// `format_checks_as_json` writes reconstructs an equal report, whenever
/// every timestamp survives its RFC 3339 rendering — which holds of every
/// instant within the four-digit-year range.
pub proof fn lemma_checks_report_json_round_trip(r: ChecksReport)
    requires
        report_ts_ok(r),
    ensures
        spec_report_of_jv(spec_report_jv(r)) == Some(crate::models::report_view(r)),
{
    reveal_with_fuel(crate::jsonval::jv_obj_get, 6);
    reveal_strlit("pr_title");
    reveal_strlit("pr_url");
    reveal_strlit("rollup_state");
    reveal_strlit("checks");
    assert(("pr_title"@).len() == 8);
    assert(("pr_url"@).len() == 6 && ("pr_url"@)[0] == 'p');
    assert(("rollup_state"@).len() == 12);
    assert(("checks"@).len() == 6 && ("checks"@)[0] == 'c');
    crate::models::lemma_rollup_label_round_trip(r.rollup_state);
    lemma_checks_list_round_trip(r.checks@);
    assert(spec_report_of_jv(spec_report_jv(r)) =~= Some(crate::models::report_view(r)));
}

/// With snippets disabled, every comment object the JSON style writes
/// carries a null `snippet`.
pub proof fn lemma_json_snippet_disabled(c: PRComment, lines: int)
    ensures
        crate::jsonval::jv_get(spec_comment_jv(c, false, lines), "snippet"@) == Some(
            JsonV::Null,
        ),
{
    reveal_with_fuel(crate::jsonval::jv_obj_get, 9);
    reveal_strlit("file");
    reveal_strlit("line");
    reveal_strlit("author");
    reveal_strlit("body");
    reveal_strlit("snippet");
    assert(("file"@).len() == 4 && ("file"@)[0] == 'f');
    assert(("line"@).len() == 4 && ("line"@)[0] == 'l');
    assert(("author"@).len() == 6);
    assert(("body"@).len() == 4 && ("body"@)[0] == 'b');
    assert(("snippet"@).len() == 7);
}

/// The selected order can compare any two comments.
proof fn lemma_comment_le_total(sel: u8, a: PRComment, b: PRComment)
    ensures
        comment_le(sel, a, b) || comment_le(sel, b, a),
{
}

/// Adjacent elements of the sequence stand in the selected order.
pub open spec fn comments_ordered(sel: u8, s: Seq<PRComment>) -> bool {
    forall|k: int| 0 <= k < s.len() - 1 ==> comment_le(sel, #[trigger] s[k], s[k + 1])
}

proof fn lemma_insert_comment_ordered(sel: u8, s: Seq<PRComment>, c: PRComment)
    requires
        comments_ordered(sel, s),
    ensures
        comments_ordered(sel, insert_comment(sel, s, c)),
        insert_comment(sel, s, c).to_multiset() == s.to_multiset().insert(c),
        insert_comment(sel, s, c).len() == s.len() + 1,
        insert_comment(sel, s, c).last() == c || (s.len() > 0 && insert_comment(sel, s, c).last()
            == s.last()),
    decreases s.len(),
{
    broadcast use vstd::seq_lib::group_to_multiset_ensures;

    if s.len() == 0 {
        assert(seq![c].to_multiset() =~= s.to_multiset().insert(c));
    } else if comment_le(sel, s.last(), c) {
        let r = s.push(c);
        assert forall|k: int| 0 <= k < r.len() - 1 implies comment_le(sel, #[trigger] r[k], r[k
            + 1]) by {
            if k < s.len() - 1 {
                assert(r[k] == s[k] && r[k + 1] == s[k + 1]);
            } else {
                assert(r[k] == s.last() && r[k + 1] == c);
            }
        }
        assert(r.to_multiset() =~= s.to_multiset().insert(c));
    } else {
        let d = s.drop_last();
        assert(comments_ordered(sel, d)) by {
            assert(forall|k: int| 0 <= k < d.len() - 1 ==> #[trigger] d[k] == s[k] && d[k + 1]
                == s[k + 1]);
        }
        lemma_insert_comment_ordered(sel, d, c);
        lemma_comment_le_total(sel, s.last(), c);
        let inner = insert_comment(sel, d, c);
        let r = inner.push(s.last());
        assert(comment_le(sel, inner.last(), s.last())) by {
            if inner.last() == c {
                assert(comment_le(sel, c, s.last()));
            } else {
                assert(d.len() > 0);
                assert(inner.last() == d.last());
                assert(comment_le(sel, s[s.len() - 2], s[s.len() - 1]));
            }
        }
        assert forall|k: int| 0 <= k < r.len() - 1 implies comment_le(sel, #[trigger] r[k], r[k
            + 1]) by {
            if k < inner.len() - 1 {
                assert(r[k] == inner[k] && r[k + 1] == inner[k + 1]);
            } else {
                assert(r[k] == inner.last() && r[k + 1] == s.last());
            }
        }
        assert(s =~= d.push(s.last()));
        assert(s.to_multiset() == d.to_multiset().insert(s.last()));
        assert(r.to_multiset() =~= inner.to_multiset().insert(s.last()));
        assert(r.to_multiset() =~= s.to_multiset().insert(c)) by {
            assert(r.to_multiset() == d.to_multiset().insert(c).insert(s.last()));
            assert(d.to_multiset().insert(c).insert(s.last()) =~= d.to_multiset().insert(
                s.last(),
            ).insert(c));
        }
    }
}

/// Sorting yields the comments in the selected order, and loses or invents
/// none: within a file section of the grouped styles, comments therefore
/// stand by line and then by creation time.
pub proof fn lemma_sort_comments_ordered(sel: u8, s: Seq<PRComment>)
    ensures
        comments_ordered(sel, sort_comments(sel, s)),
        sort_comments(sel, s).to_multiset() == s.to_multiset(),
        sort_comments(sel, s).len() == s.len(),
    decreases s.len(),
{
    broadcast use vstd::seq_lib::group_to_multiset_ensures;

    if s.len() > 0 {
        lemma_sort_comments_ordered(sel, s.drop_last());
        lemma_insert_comment_ordered(sel, sort_comments(sel, s.drop_last()), s.last());
        assert(s =~= s.drop_last().push(s.last()));
        assert(s.to_multiset() == s.drop_last().to_multiset().insert(s.last()));
    }
}

} // verus!
