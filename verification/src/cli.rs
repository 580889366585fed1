//! Reading a pull-request reference from the command line: either a full
//! GitHub URL, a short `owner/repo#number` form, or three explicit values.

use vstd::prelude::*;
use crate::error::ParseError;
use crate::text::{spec_is_ws, is_ws, spec_parse_i32, parse_i32, chars_of, chars_to_string,
    vec_eq_chars};

verus! {

broadcast use vstd::seq_lib::group_seq_properties;

/// The command-line arguments, already parsed by the surrounding program.
#[derive(Debug, Clone)]
pub struct Args {
    pub pr: Option<String>,
    pub owner: Option<String>,
    pub repo: Option<String>,
    pub pr_number: Option<i32>,
    pub author: Option<String>,
    pub most_recent: bool,
    pub format: OutputFormat,
    pub no_snippet: bool,
    pub snippet_lines: usize,
    pub output: Option<String>,
}

/// The available output styles.
#[derive(Debug, Clone, Copy, PartialEq, Eq, Structural)]
pub enum OutputFormat {
    Claude,
    Grouped,
    Flat,
    Minimal,
    Json,
}

/// The mathematical value of a reference-parsing error.
pub enum UrlErrorView {
    InvalidUrl(Seq<char>),
    InvalidPrNumber(Seq<char>),
}

/// The mathematical value of a `ParseError`.
pub open spec fn parse_error_view(e: ParseError) -> UrlErrorView {
    match e {
        ParseError::InvalidUrl(m) => UrlErrorView::InvalidUrl(m@),
        ParseError::InvalidPrNumber(m) => UrlErrorView::InvalidPrNumber(m@),
    }
}

/// The text without its leading white space.
pub open spec fn strip_leading_ws(s: Seq<char>) -> Seq<char>
    decreases s.len(),
{
    if s.len() > 0 && spec_is_ws(s[0]) {
        strip_leading_ws(s.skip(1))
    } else {
        s
    }
}

/// The text without its trailing white space.
pub open spec fn strip_trailing_ws(s: Seq<char>) -> Seq<char>
    decreases s.len(),
{
    if s.len() > 0 && spec_is_ws(s.last()) {
        strip_trailing_ws(s.drop_last())
    } else {
        s
    }
}

/// The text without leading or trailing white space.
pub open spec fn spec_trim(s: Seq<char>) -> Seq<char> {
    strip_leading_ws(strip_trailing_ws(s))
}

/// The text without any run of the character at its end.
pub open spec fn strip_trailing_char(s: Seq<char>, c: char) -> Seq<char>
    decreases s.len(),
{
    if s.len() > 0 && s.last() == c {
        strip_trailing_char(s.drop_last(), c)
    } else {
        s
    }
}

/// Whether `p` is a prefix of `s`.
pub open spec fn has_prefix(s: Seq<char>, p: Seq<char>) -> bool {
    s.len() >= p.len() && s.take(p.len() as int) == p
}

/// The text with every leading repetition of the non-empty prefix removed.
pub open spec fn strip_prefix_all(s: Seq<char>, p: Seq<char>) -> Seq<char>
    decreases s.len(),
{
    if p.len() > 0 && has_prefix(s, p) && s.len() >= p.len() {
        strip_prefix_all(s.skip(p.len() as int), p)
    } else {
        s
    }
}

/// The first index at or after `i` holding `sep`, or the length.
pub open spec fn first_sep(s: Seq<char>, sep: char, i: int) -> int
    decreases s.len() - i,
{
    if i < 0 || i >= s.len() {
        s.len() as int
    } else if s[i] == sep {
        i
    } else {
        first_sep(s, sep, i + 1)
    }
}

pub proof fn lemma_first_sep_bounds(s: Seq<char>, sep: char, i: int)
    requires
        0 <= i <= s.len(),
    ensures
        i <= first_sep(s, sep, i) <= s.len(),
    decreases s.len() - i,
{
    if i < s.len() && s[i] != sep {
        lemma_first_sep_bounds(s, sep, i + 1);
    }
}

/// The segments of `s` between occurrences of `sep`, kept even when empty.
pub open spec fn split_from(s: Seq<char>, sep: char, i: int) -> Seq<Seq<char>>
    decreases s.len() - i,
    via split_from_decreases
{
    if i < 0 || i > s.len() {
        Seq::empty()
    } else {
        let e = first_sep(s, sep, i);
        if e == s.len() {
            seq![s.subrange(i, s.len() as int)]
        } else {
            seq![s.subrange(i, e)] + split_from(s, sep, e + 1)
        }
    }
}

#[via_fn]
proof fn split_from_decreases(s: Seq<char>, sep: char, i: int) {
    if 0 <= i <= s.len() {
        lemma_first_sep_bounds(s, sep, i);
    }
}

/// The segments of `s` between occurrences of `sep`.
pub open spec fn spec_split(s: Seq<char>, sep: char) -> Seq<Seq<char>> {
    split_from(s, sep, 0)
}

/// How a pull-request reference reads: a full GitHub URL when its path has
/// the `owner/repo/pull/number` shape, else the short `owner/repo#number`
/// form; a malformed number is its own error, anything else rejects the
/// trimmed reference.
pub open spec fn spec_parse_pr_url(raw: Seq<char>) -> Result<
    (Seq<char>, Seq<char>, i32),
    UrlErrorView,
> {
    let url = strip_trailing_char(spec_trim(raw), '/');
    let from_full: Option<Result<(Seq<char>, Seq<char>, i32), UrlErrorView>> = if has_prefix(
        url,
        "https://github.com/"@,
    ) || has_prefix(url, "http://github.com/"@) {
        let path = strip_prefix_all(
            strip_prefix_all(url, "https://github.com/"@),
            "http://github.com/"@,
        );
        let parts = spec_split(path, '/');
        if parts.len() >= 4 && parts[2] == "pull"@ {
            match spec_parse_i32(parts[3]) {
                Some(n) => Some(Ok((parts[0], parts[1], n))),
                None => Some(Err(UrlErrorView::InvalidPrNumber(parts[3]))),
            }
        } else {
            None
        }
    } else {
        None
    };
    match from_full {
        Some(res) => res,
        None => {
            let h = first_sep(url, '#', 0);
            if h < url.len() {
                let repo_part = url.take(h);
                let pr_part = url.skip(h + 1);
                let sl = first_sep(repo_part, '/', 0);
                if sl < repo_part.len() {
                    let owner = repo_part.take(sl);
                    let repo = repo_part.skip(sl + 1);
                    match spec_parse_i32(pr_part) {
                        None => Err(UrlErrorView::InvalidPrNumber(pr_part)),
                        Some(n) => if owner.len() > 0 && repo.len() > 0 {
                            Ok((owner, repo, n))
                        } else {
                            Err(UrlErrorView::InvalidUrl(url))
                        },
                    }
                } else {
                    Err(UrlErrorView::InvalidUrl(url))
                }
            } else {
                Err(UrlErrorView::InvalidUrl(url))
            }
        },
    }
}

/// The reference trimmed of white space and trailing slashes, as the
/// executable parser works on it.
#[verifier::loop_isolation(false)]
fn trimmed_reference(v: &Vec<char>) -> (r: Vec<char>)
    ensures
        r@ == strip_trailing_char(spec_trim(v@), '/'),
{
    let mut b: usize = v.len();
    while b > 0 && is_ws(v[b - 1])
        invariant
            b <= v.len(),
            strip_trailing_ws(v@) == strip_trailing_ws(v@.take(b as int)),
        decreases b,
    {
        proof {
            let t = v@.take(b as int);
            assert(t.last() == v@[b - 1]);
            assert(t.drop_last() =~= v@.take(b - 1));
        }
        b -= 1;
    }
    proof {
        let t = v@.take(b as int);
        if b > 0 {
            assert(t.last() == v@[b - 1]);
        }
        assert(strip_trailing_ws(t) == t);
        assert(strip_trailing_ws(v@) == v@.take(b as int));
    }
    let mut a: usize = 0;
    while a < b && is_ws(v[a])
        invariant
            a <= b,
            b <= v.len(),
            strip_leading_ws(v@.take(b as int)) == strip_leading_ws(
                v@.take(b as int).skip(a as int),
            ),
        decreases b - a,
    {
        proof {
            let t = v@.take(b as int).skip(a as int);
            assert(t[0] == v@[a as int]);
            assert(t.skip(1) =~= v@.take(b as int).skip(a + 1));
        }
        a += 1;
    }
    proof {
        let t = v@.take(b as int).skip(a as int);
        if a < b {
            assert(t[0] == v@[a as int]);
        }
        assert(strip_leading_ws(t) == t);
        assert(spec_trim(v@) == v@.take(b as int).skip(a as int));
    }
    let mut b2: usize = b;
    while b2 > a && v[b2 - 1] == '/'
        invariant
            a <= b2 <= b,
            strip_trailing_char(spec_trim(v@), '/') == strip_trailing_char(
                v@.take(b2 as int).skip(a as int),
                '/',
            ),
        decreases b2,
    {
        proof {
            let t = v@.take(b2 as int).skip(a as int);
            assert(t.last() == v@[b2 - 1]);
            assert(t.drop_last() =~= v@.take(b2 - 1).skip(a as int));
        }
        b2 -= 1;
    }
    proof {
        let t = v@.take(b2 as int).skip(a as int);
        if b2 > a {
            assert(t.last() == v@[b2 - 1]);
        }
        assert(strip_trailing_char(t, '/') == t);
    }
    let mut out: Vec<char> = Vec::new();
    let mut i: usize = a;
    while i < b2
        invariant
            a <= i <= b2 <= v.len(),
            out@ == v@.subrange(a as int, i as int),
        decreases b2 - i,
    {
        out.push(v[i]);
        proof {
            assert(v@.subrange(a as int, i + 1) =~= v@.subrange(a as int, i as int).push(
                v@[i as int],
            ));
        }
        i += 1;
    }
    proof {
        assert(out@ =~= v@.take(b2 as int).skip(a as int));
    }
    out
}

/// Whether the vector starts with the literal.
#[verifier::loop_isolation(false)]
fn has_prefix_exec(v: &Vec<char>, p: &Vec<char>) -> (r: bool)
    ensures
        r == has_prefix(v@, p@),
{
    if v.len() < p.len() {
        return false;
    }
    let mut i: usize = 0;
    while i < p.len()
        invariant
            i <= p.len(),
            p.len() <= v.len(),
            forall|j: int| 0 <= j < i ==> v@[j] == p@[j],
        decreases p.len() - i,
    {
        if v[i] != p[i] {
            proof {
                assert(v@.take(p@.len() as int)[i as int] != p@[i as int]);
            }
            return false;
        }
        i += 1;
    }
    proof {
        assert(v@.take(p@.len() as int) =~= p@);
    }
    true
}

/// Removes every leading repetition of the non-empty prefix.
#[verifier::loop_isolation(false)]
fn strip_prefix_all_exec(v: Vec<char>, p: &Vec<char>) -> (r: Vec<char>)
    requires
        p@.len() > 0,
    ensures
        r@ == strip_prefix_all(v@, p@),
{
    let ghost v0 = v@;
    let mut cur = v;
    while has_prefix_exec(&cur, p)
        invariant
            p@.len() > 0,
            strip_prefix_all(v0, p@) == strip_prefix_all(cur@, p@),
        decreases cur@.len(),
    {
        let mut next: Vec<char> = Vec::new();
        let mut i: usize = p.len();
        while i < cur.len()
            invariant
                p.len() <= i <= cur.len(),
                next@ == cur@.subrange(p@.len() as int, i as int),
            decreases cur.len() - i,
        {
            next.push(cur[i]);
            proof {
                assert(cur@.subrange(p@.len() as int, i + 1) =~= cur@.subrange(
                    p@.len() as int,
                    i as int,
                ).push(cur@[i as int]));
            }
            i += 1;
        }
        proof {
            assert(next@ =~= cur@.skip(p@.len() as int));
        }
        cur = next;
    }
    cur
}

/// Splits the vector at every occurrence of `sep`, keeping empty segments.
fn split_char(v: &Vec<char>, sep: char) -> (r: Vec<Vec<char>>)
    ensures
        r@.map_values(|l: Vec<char>| l@) == spec_split(v@, sep),
{
    let mut out: Vec<Vec<char>> = Vec::new();
    let mut i: usize = 0;
    loop
        invariant_except_break
            i <= v.len(),
            out@.map_values(|l: Vec<char>| l@) + split_from(v@, sep, i as int) == spec_split(
                v@,
                sep,
            ),
        ensures
            out@.map_values(|l: Vec<char>| l@) == spec_split(v@, sep),
        decreases v.len() - i,
    {
        let ghost prev = out@.map_values(|l: Vec<char>| l@);
        let ghost e_spec = first_sep(v@, sep, i as int);
        proof {
            lemma_first_sep_bounds(v@, sep, i as int);
        }
        let mut seg: Vec<char> = Vec::new();
        let mut j: usize = i;
        while j < v.len() && v[j] != sep
            invariant
                i <= j <= v.len(),
                first_sep(v@, sep, j as int) == e_spec,
                seg@ == v@.subrange(i as int, j as int),
            decreases v.len() - j,
        {
            seg.push(v[j]);
            proof {
                assert(v@.subrange(i as int, j + 1) =~= v@.subrange(i as int, j as int).push(
                    v@[j as int],
                ));
            }
            j += 1;
        }
        proof {
            assert(e_spec == j);
        }
        out.push(seg);
        proof {
            assert(out@.map_values(|l: Vec<char>| l@) =~= prev.push(out@.last()@));
        }
        if j < v.len() {
            proof {
                assert(split_from(v@, sep, i as int) == seq![v@.subrange(i as int, j as int)]
                    + split_from(v@, sep, j + 1));
                assert(prev.push(v@.subrange(i as int, j as int)) + split_from(v@, sep, j + 1)
                    =~= prev + split_from(v@, sep, i as int));
            }
            i = j + 1;
        } else {
            proof {
                assert(split_from(v@, sep, i as int) =~= seq![
                    v@.subrange(i as int, v@.len() as int),
                ]);
                assert(out@.map_values(|l: Vec<char>| l@) =~= spec_split(v@, sep));
            }
            break;
        }
    }
    out
}

/// Reads a pull-request reference: a full GitHub URL
/// (`https://github.com/owner/repo/pull/123`) or the short form
/// (`owner/repo#123`), giving `(owner, repo, number)`.
#[verifier::loop_isolation(false)]
#[verifier::rlimit(100)]
#[verifier::spinoff_prover]
pub fn parse_pr_url(url: &str) -> (r: Result<(String, String, i32), ParseError>)
    ensures
        match r {
            Ok(t) => spec_parse_pr_url(url@) == Ok::<_, UrlErrorView>((t.0@, t.1@, t.2)),
            Err(e) => spec_parse_pr_url(url@) == Err::<(Seq<char>, Seq<char>, i32), _>(
                parse_error_view(e),
            ),
        },
{
    let raw = chars_of(url);
    let u = trimmed_reference(&raw);
    let https_prefix = chars_of("https://github.com/");
    let http_prefix = chars_of("http://github.com/");
    proof {
        reveal_strlit("https://github.com/");
        reveal_strlit("http://github.com/");
        assert(https_prefix@.len() == 19);
        assert(http_prefix@.len() == 18);
    }
    if has_prefix_exec(&u, &https_prefix) || has_prefix_exec(&u, &http_prefix) {
        let mut path: Vec<char> = Vec::new();
        crate::text::push_chars(&mut path, &u);
        let path = strip_prefix_all_exec(path, &https_prefix);
        let path = strip_prefix_all_exec(path, &http_prefix);
        let parts = split_char(&path, '/');
        let pull_lit = chars_of("pull");
        if parts.len() >= 4 && vec_eq_chars(&parts[2], &pull_lit) {
            let ghost pv = parts@.map_values(|l: Vec<char>| l@);
            proof {
                assert(pv[2] == parts@[2]@);
                assert(pv[3] == parts@[3]@);
                assert(pv[0] == parts@[0]@);
                assert(pv[1] == parts@[1]@);
            }
            match parse_i32(&parts[3]) {
                Some(n) => {
                    let owner = chars_to_string(&parts[0]);
                    let repo = chars_to_string(&parts[1]);
                    return Ok((owner, repo, n));
                },
                None => {
                    return Err(ParseError::InvalidPrNumber(chars_to_string(&parts[3])));
                },
            }
        }
    }
    let ghost uv = u@;
    let ghost h_spec = first_sep(uv, '#', 0);
    proof {
        lemma_first_sep_bounds(uv, '#', 0);
    }
    let mut h: usize = 0;
    while h < u.len() && u[h] != '#'
        invariant
            h <= u.len(),
            first_sep(uv, '#', h as int) == h_spec,
        decreases u.len() - h,
    {
        h += 1;
    }
    proof {
        assert(h_spec == h);
    }
    if h < u.len() {
        let mut repo_part: Vec<char> = Vec::new();
        let mut i: usize = 0;
        while i < h
            invariant
                i <= h,
                h < u@.len(),
                repo_part@ == uv.subrange(0, i as int),
            decreases h - i,
        {
            repo_part.push(u[i]);
            proof {
                assert(uv.subrange(0, i + 1) =~= uv.subrange(0, i as int).push(uv[i as int]));
            }
            i += 1;
        }
        proof {
            assert(repo_part@ =~= uv.take(h as int));
        }
        let mut pr_part: Vec<char> = Vec::new();
        let mut i: usize = h + 1;
        while i < u.len()
            invariant
                h + 1 <= i <= u@.len(),
                pr_part@ == uv.subrange(h + 1, i as int),
            decreases u.len() - i,
        {
            pr_part.push(u[i]);
            proof {
                assert(uv.subrange(h + 1, i + 1) =~= uv.subrange(h + 1, i as int).push(
                    uv[i as int],
                ));
            }
            i += 1;
        }
        proof {
            assert(pr_part@ =~= uv.skip(h + 1));
        }
        let ghost rv = repo_part@;
        let ghost sl_spec = first_sep(rv, '/', 0);
        proof {
            lemma_first_sep_bounds(rv, '/', 0);
        }
        let mut sl: usize = 0;
        while sl < repo_part.len() && repo_part[sl] != '/'
            invariant
                sl <= repo_part@.len(),
                first_sep(rv, '/', sl as int) == sl_spec,
            decreases repo_part.len() - sl,
        {
            sl += 1;
        }
        proof {
            assert(sl_spec == sl);
        }
        if sl < repo_part.len() {
            let mut owner_v: Vec<char> = Vec::new();
            let mut i: usize = 0;
            while i < sl
                invariant
                    i <= sl,
                    sl < repo_part@.len(),
                    owner_v@ == rv.subrange(0, i as int),
                decreases sl - i,
            {
                owner_v.push(repo_part[i]);
                proof {
                    assert(rv.subrange(0, i + 1) =~= rv.subrange(0, i as int).push(
                        rv[i as int],
                    ));
                }
                i += 1;
            }
            proof {
                assert(owner_v@ =~= rv.take(sl as int));
            }
            let mut repo_v: Vec<char> = Vec::new();
            let mut i: usize = sl + 1;
            while i < repo_part.len()
                invariant
                    sl + 1 <= i <= repo_part@.len(),
                    repo_v@ == rv.subrange(sl + 1, i as int),
                decreases repo_part.len() - i,
            {
                repo_v.push(repo_part[i]);
                proof {
                    assert(rv.subrange(sl + 1, i + 1) =~= rv.subrange(sl + 1, i as int).push(
                        rv[i as int],
                    ));
                }
                i += 1;
            }
            proof {
                assert(repo_v@ =~= rv.skip(sl + 1));
            }
            match parse_i32(&pr_part) {
                None => {
                    return Err(ParseError::InvalidPrNumber(chars_to_string(&pr_part)));
                },
                Some(n) => {
                    if owner_v.len() > 0 && repo_v.len() > 0 {
                        return Ok((chars_to_string(&owner_v), chars_to_string(&repo_v), n));
                    }
                },
            }
        }
    }
    Err(ParseError::InvalidUrl(chars_to_string(&u)))
}

/// Resolves the arguments to `(owner, repo, number)`: the three explicit
/// values win when all are present; otherwise the positional reference is
/// parsed; with neither, the reference is rejected with a usage message.
pub fn resolve_pr_args(args: &Args) -> (r: Result<(String, String, i32), ParseError>)
    ensures
        match (args.owner, args.repo, args.pr_number) {
            (Some(o), Some(rp), Some(n)) => r matches Ok(t) && t.0@ == o@ && t.1@ == rp@ && t.2
                == n,
            _ => match args.pr {
                Some(p) => match r {
                    Ok(t) => spec_parse_pr_url(p@) == Ok::<_, UrlErrorView>((t.0@, t.1@, t.2)),
                    Err(e) => spec_parse_pr_url(p@) == Err::<(Seq<char>, Seq<char>, i32), _>(
                        parse_error_view(e),
                    ),
                },
                None => r matches Err(e) && parse_error_view(e) matches UrlErrorView::InvalidUrl(
                    m,
                ) && m == "Provide a PR URL or --owner, --repo, and --pr-number"@,
            },
        },
{
    if args.owner.is_some() && args.repo.is_some() && args.pr_number.is_some() {
        let owner = match &args.owner {
            Some(o) => o.clone(),
            None => String::new(),
        };
        let repo = match &args.repo {
            Some(rp) => rp.clone(),
            None => String::new(),
        };
        let n = match args.pr_number {
            Some(n) => n,
            None => 0,
        };
        return Ok((owner, repo, n));
    }
    match &args.pr {
        Some(p) => parse_pr_url(p.as_str()),
        None => Err(
            ParseError::InvalidUrl(
                String::from_str("Provide a PR URL or --owner, --repo, and --pr-number"),
            ),
        ),
    }
}

} // verus!
