//! HTML sanitization for comment bodies: removal of tags and comments, and
//! collapsing of excessive blank lines.

use vstd::prelude::*;

verus! {

/// Index just past the first `"-->"` at or after `i`, or the length of `s`
/// when the comment never closes.
pub open spec fn comment_end(s: Seq<char>, i: int) -> int
    decreases s.len() - i,
{
    if i < 0 || i + 3 > s.len() {
        s.len() as int
    } else if s[i] == '-' && s[i + 1] == '-' && s[i + 2] == '>' {
        i + 3
    } else {
        comment_end(s, i + 1)
    }
}

pub proof fn lemma_comment_end_bounds(s: Seq<char>, i: int)
    requires
        0 <= i <= s.len(),
    ensures
        i <= comment_end(s, i) <= s.len(),
    decreases s.len() - i,
{
    if i + 3 <= s.len() && !(s[i] == '-' && s[i + 1] == '-' && s[i + 2] == '>') {
        lemma_comment_end_bounds(s, i + 1);
    }
}

/// Index just past the first `'>'` at or after `i`, or the length of `s`
/// when the tag never closes.
pub open spec fn tag_end(s: Seq<char>, i: int) -> int
    decreases s.len() - i,
{
    if i < 0 || i >= s.len() {
        s.len() as int
    } else if s[i] == '>' {
        i + 1
    } else {
        tag_end(s, i + 1)
    }
}

pub proof fn lemma_tag_end_bounds(s: Seq<char>, i: int)
    requires
        0 <= i <= s.len(),
    ensures
        i <= tag_end(s, i) <= s.len(),
    decreases s.len() - i,
{
    if i < s.len() && s[i] != '>' {
        lemma_tag_end_bounds(s, i + 1);
    }
}

/// One left-to-right pass over `s` starting at `i`: an HTML comment opener
/// `"<!--"` consumes everything through the matching `"-->"`, any other `'<'`
/// consumes everything through the next `'>'`, and all other characters are
/// kept.
pub open spec fn spec_scan(s: Seq<char>, i: int) -> Seq<char>
    decreases s.len() - i,
    via spec_scan_decreases
{
    if i < 0 || i >= s.len() {
        Seq::empty()
    } else if s[i] == '<' {
        if i + 4 <= s.len() && s[i + 1] == '!' && s[i + 2] == '-' && s[i + 3] == '-' {
            spec_scan(s, comment_end(s, i + 4))
        } else {
            spec_scan(s, tag_end(s, i + 1))
        }
    } else {
        seq![s[i]] + spec_scan(s, i + 1)
    }
}

#[via_fn]
proof fn spec_scan_decreases(s: Seq<char>, i: int) {
    if 0 <= i < s.len() && s[i] == '<' {
        if i + 4 <= s.len() && s[i + 1] == '!' && s[i + 2] == '-' && s[i + 3] == '-' {
            lemma_comment_end_bounds(s, i + 4);
        } else {
            lemma_tag_end_bounds(s, i + 1);
        }
    }
}

/// A newline is kept only while the run of consecutive newlines just before
/// it (`run`) is still shorter than two; every other character resets the
/// run.
pub open spec fn spec_collapse_from(s: Seq<char>, i: int, run: int) -> Seq<char>
    decreases s.len() - i,
{
    if i < 0 || i >= s.len() {
        Seq::empty()
    } else if s[i] == '\n' {
        if run < 2 {
            seq!['\n'] + spec_collapse_from(s, i + 1, run + 1)
        } else {
            spec_collapse_from(s, i + 1, run + 1)
        }
    } else {
        seq![s[i]] + spec_collapse_from(s, i + 1, 0)
    }
}

/// Runs of three or more newlines reduced to exactly two.
pub open spec fn spec_collapse(s: Seq<char>) -> Seq<char> {
    spec_collapse_from(s, 0, 0)
}

/// What `strip_html` returns: the input itself when it holds no `'<'`,
/// otherwise the scanned text with blank-line runs collapsed.
pub open spec fn spec_strip_html(s: Seq<char>) -> Seq<char> {
    if !s.contains('<') {
        s
    } else {
        spec_collapse(spec_scan(s, 0))
    }
}

/// A string with no `'<'` character is returned unchanged: stripping touches
/// nothing but markup.
pub proof fn lemma_strip_html_without_tags(s: Seq<char>)
    requires
        !s.contains('<'),
    ensures
        spec_strip_html(s) == s,
{
}

/// Stripping is idempotent on any input whose stripped form holds no
/// remaining `'<'`: a second pass changes nothing.
pub proof fn lemma_strip_html_idempotent(s: Seq<char>)
    requires
        !spec_strip_html(s).contains('<'),
    ensures
        spec_strip_html(spec_strip_html(s)) == spec_strip_html(s),
{
    lemma_strip_html_without_tags(spec_strip_html(s));
}

/// Collapses three or more consecutive newlines into exactly two.
pub fn collapse_blank_lines(input: &str) -> (r: String)
    ensures
        r@ == spec_collapse(input@),
{
    let v = crate::text::chars_of(input);
    let out = collapse_chars(&v);
    crate::text::chars_to_string(&out)
}

/// Collapse pass over a character vector.
pub fn collapse_chars(v: &Vec<char>) -> (r: Vec<char>)
    ensures
        r@ == spec_collapse(v@),
{
    let mut out: Vec<char> = Vec::new();
    let mut run: usize = 0;
    let mut i: usize = 0;
    while i < v.len()
        invariant
            i <= v.len(),
            run <= i,
            spec_collapse(v@) == out@ + spec_collapse_from(v@, i as int, run as int),
        decreases v.len() - i,
    {
        let c = v[i];
        if c == '\n' {
            if run < 2 {
                out.push(c);
            }
            run += 1;
        } else {
            out.push(c);
            run = 0;
        }
        i += 1;
    }
    proof {
        assert(out@ + spec_collapse_from(v@, v@.len() as int, run as int) =~= out@);
    }
    out
}

/// Strips HTML comments (`<!-- ... -->`) and tags (`<...>`) from the input,
/// keeping all text between tags, then collapses runs of three or more
/// newlines down to two. Input without a `'<'` is returned unchanged.
pub fn strip_html(input: &str) -> (r: String)
    ensures
        r@ == spec_strip_html(input@),
{
    let v = crate::text::chars_of(input);
    if !crate::text::contains_char(&v, '<') {
        return input.to_owned();
    }
    let mut res: Vec<char> = Vec::new();
    let mut i: usize = 0;
    while i < v.len()
        invariant
            i <= v.len(),
            spec_scan(v@, 0) == res@ + spec_scan(v@, i as int),
        decreases v.len() - i,
    {
        let c = v[i];
        if c == '<' {
            if v.len() - i >= 4 && v[i + 1] == '!' && v[i + 2] == '-' && v[i + 3] == '-' {
                let ghost e = comment_end(v@, i + 4);
                proof {
                    lemma_comment_end_bounds(v@, i + 4);
                }
                let mut j: usize = i + 4;
                while v.len() - j >= 3 && !(v[j] == '-' && v[j + 1] == '-' && v[j + 2] == '>')
                    invariant
                        i + 4 <= j <= v.len(),
                        comment_end(v@, j as int) == e,
                    decreases v.len() - j,
                {
                    j += 1;
                }
                if v.len() - j >= 3 {
                    proof {
                        assert(e == j + 3);
                    }
                    i = j + 3;
                } else {
                    proof {
                        assert(e == v@.len());
                    }
                    i = v.len();
                }
            } else {
                let ghost e = tag_end(v@, i + 1);
                proof {
                    lemma_tag_end_bounds(v@, i + 1);
                }
                let mut j: usize = i + 1;
                while j < v.len() && v[j] != '>'
                    invariant
                        i + 1 <= j <= v.len(),
                        tag_end(v@, j as int) == e,
                    decreases v.len() - j,
                {
                    j += 1;
                }
                if j < v.len() {
                    proof {
                        assert(e == j + 1);
                    }
                    i = j + 1;
                } else {
                    proof {
                        assert(e == v@.len());
                    }
                    i = v.len();
                }
            }
        } else {
            res.push(c);
            i += 1;
        }
    }
    proof {
        assert(res@ + spec_scan(v@, v@.len() as int) =~= res@);
    }
    let out = collapse_chars(&res);
    crate::text::chars_to_string(&out)
}

/// No window of three consecutive newlines occurs in the text.
pub open spec fn no_triple_newline(t: Seq<char>) -> bool {
    forall|j: int|
        0 <= j && j + 2 < t.len() ==> !((#[trigger] t[j]) == '\n' && t[j + 1] == '\n' && t[j
            + 2] == '\n')
}

/// The length of the newline run at the start of the text.
pub open spec fn nl_prefix(t: Seq<char>) -> nat
    decreases t.len(),
{
    if t.len() > 0 && t[0] == '\n' {
        1 + nl_prefix(t.skip(1))
    } else {
        0
    }
}

proof fn lemma_collapse_from_shape(s: Seq<char>, i: int, run: int)
    requires
        run >= 0,
    ensures
        no_triple_newline(spec_collapse_from(s, i, run)),
        nl_prefix(spec_collapse_from(s, i, run)) <= (if run >= 2 {
            0int
        } else {
            2 - run
        }),
    decreases s.len() - i,
{
    if i < 0 || i >= s.len() {
    } else if s[i] == '\n' {
        lemma_collapse_from_shape(s, i + 1, run + 1);
        let rest = spec_collapse_from(s, i + 1, run + 1);
        if run < 2 {
            let res = seq!['\n'] + rest;
            assert(res.skip(1) =~= rest);
            assert(nl_prefix(res) == 1 + nl_prefix(rest));
            assert forall|j: int| 0 <= j && j + 2 < res.len() implies !((#[trigger] res[j])
                == '\n' && res[j + 1] == '\n' && res[j + 2] == '\n') by {
                if j == 0 {
                    if res[0] == '\n' && res[1] == '\n' && res[2] == '\n' {
                        assert(rest[0] == '\n' && rest[1] == '\n');
                        assert(rest.skip(1)[0] == rest[1]);
                        assert(nl_prefix(rest) == 1 + nl_prefix(rest.skip(1)));
                        assert(nl_prefix(rest.skip(1)) == 1 + nl_prefix(rest.skip(1).skip(1)));
                        assert(nl_prefix(rest) >= 2);
                    }
                } else {
                    assert(res[j] == rest[j - 1] && res[j + 1] == rest[j] && res[j + 2]
                        == rest[j + 1]);
                }
            }
        }
    } else {
        lemma_collapse_from_shape(s, i + 1, 0);
        let rest = spec_collapse_from(s, i + 1, 0);
        let res = seq![s[i]] + rest;
        assert(res[0] != '\n');
        assert(nl_prefix(res) == 0);
        assert forall|j: int| 0 <= j && j + 2 < res.len() implies !((#[trigger] res[j])
            == '\n' && res[j + 1] == '\n' && res[j + 2] == '\n') by {
            if j > 0 {
                assert(res[j] == rest[j - 1] && res[j + 1] == rest[j] && res[j + 2] == rest[j
                    + 1]);
            }
        }
    }
}

/// Collapsing leaves no run of three or more newlines anywhere: paragraph
/// breaks survive, excess vertical space does not.
pub proof fn lemma_collapse_no_triple_newline(s: Seq<char>)
    ensures
        no_triple_newline(spec_collapse(s)),
{
    lemma_collapse_from_shape(s, 0, 0);
}

} // verus!
