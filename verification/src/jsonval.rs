//! A plain JSON value tree: the shape in which raw API payloads reach the
//! parser, and from which the JSON formatters emit text. `Json` is the
//! executable tree; `JsonV` is its mathematical counterpart, over which all
//! contracts speak. The pretty-printed rendering follows the common
//! two-space style, escaping control characters as JSON requires.

use vstd::prelude::*;
use crate::text::spec_i64_str;

verus! {

broadcast use vstd::seq_lib::group_seq_properties;

/// A JSON value. Numbers outside the signed 64-bit integer range are not
/// representable and arrive as `Null`.
#[derive(Debug)]
pub enum Json {
    Null,
    Bool(bool),
    Int(i64),
    Str(String),
    Arr(Vec<Json>),
    Obj(Vec<(String, Json)>),
}

/// The mathematical form of a JSON value.
pub enum JsonV {
    Null,
    Bool(bool),
    Int(int),
    Str(Seq<char>),
    Arr(Seq<JsonV>),
    Obj(Seq<(Seq<char>, JsonV)>),
}

/// The mathematical value of a JSON tree.
pub open spec fn json_view(j: Json) -> JsonV
    decreases j, 0int,
    via json_view_decreases
{
    match j {
        Json::Null => JsonV::Null,
        Json::Bool(b) => JsonV::Bool(b),
        Json::Int(n) => JsonV::Int(n as int),
        Json::Str(s) => JsonV::Str(s@),
        Json::Arr(items) => JsonV::Arr(json_views(items@)),
        Json::Obj(pairs) => JsonV::Obj(json_pair_views(pairs@)),
    }
}

/// The mathematical values of a sequence of JSON trees.
pub open spec fn json_views(items: Seq<Json>) -> Seq<JsonV>
    decreases items, 1int,
    via json_views_decreases
{
    if items.len() == 0 {
        Seq::empty()
    } else {
        json_views(items.drop_last()).push(json_view(items.last()))
    }
}

/// The mathematical values of a sequence of JSON object members.
pub open spec fn json_pair_views(pairs: Seq<(String, Json)>) -> Seq<(Seq<char>, JsonV)>
    decreases pairs, 1int,
    via json_pair_views_decreases
{
    if pairs.len() == 0 {
        Seq::empty()
    } else {
        json_pair_views(pairs.drop_last()).push(
            (pairs.last().0@, json_view(pairs.last().1)),
        )
    }
}

#[via_fn]
proof fn json_view_decreases(j: Json) {
    match j {
        Json::Arr(items) => {
            assert(decreases_to!(j => items));
            assert(decreases_to!(items => items@));
        },
        Json::Obj(pairs) => {
            assert(decreases_to!(j => pairs));
            assert(decreases_to!(pairs => pairs@));
        },
        _ => {},
    }
}

#[via_fn]
proof fn json_views_decreases(items: Seq<Json>) {
    if items.len() > 0 {
        assert(items.drop_last() == items.subrange(0, items.len() - 1));
        assert(decreases_to!(items => items.subrange(0, items.len() - 1)));
        assert(decreases_to!(items => items[items.len() - 1]));
    }
}

#[via_fn]
proof fn json_pair_views_decreases(pairs: Seq<(String, Json)>) {
    if pairs.len() > 0 {
        assert(pairs.drop_last() == pairs.subrange(0, pairs.len() - 1));
        assert(decreases_to!(pairs => pairs.subrange(0, pairs.len() - 1)));
        assert(decreases_to!(pairs => pairs[pairs.len() - 1]));
        assert(decreases_to!(pairs[pairs.len() - 1] => pairs[pairs.len() - 1].1));
    }
}

pub broadcast proof fn lemma_json_views_index(items: Seq<Json>)
    ensures
        (#[trigger] json_views(items)).len() == items.len(),
        forall|i: int| 0 <= i < items.len() ==> json_views(items)[i] == json_view(items[i]),
    decreases items.len(),
{
    if items.len() > 0 {
        lemma_json_views_index(items.drop_last());
    }
}

pub broadcast proof fn lemma_json_pair_views_index(pairs: Seq<(String, Json)>)
    ensures
        (#[trigger] json_pair_views(pairs)).len() == pairs.len(),
        forall|i: int| 0 <= i < pairs.len() ==> json_pair_views(pairs)[i] == (
            pairs[i].0@,
            json_view(pairs[i].1),
        ),
    decreases pairs.len(),
{
    if pairs.len() > 0 {
        lemma_json_pair_views_index(pairs.drop_last());
    }
}

/// First value bound to `key` among the members, if any.
pub open spec fn jv_obj_get(pairs: Seq<(Seq<char>, JsonV)>, key: Seq<char>) -> Option<JsonV>
    decreases pairs.len(),
{
    if pairs.len() == 0 {
        None
    } else if pairs[0].0 == key {
        Some(pairs[0].1)
    } else {
        jv_obj_get(pairs.skip(1), key)
    }
}

/// Field lookup: the value bound to `key` when `v` is an object that has it.
pub open spec fn jv_get(v: JsonV, key: Seq<char>) -> Option<JsonV> {
    match v {
        JsonV::Obj(pairs) => jv_obj_get(pairs, key),
        _ => None,
    }
}

/// The field as a signed 64-bit integer, when present with that type.
pub open spec fn jv_get_i64(v: JsonV, key: Seq<char>) -> Option<i64> {
    match jv_get(v, key) {
        Some(JsonV::Int(n)) => if i64::MIN <= n <= i64::MAX {
            Some(n as i64)
        } else {
            None
        },
        _ => None,
    }
}

/// The field as a string, when present with that type.
pub open spec fn jv_get_str(v: JsonV, key: Seq<char>) -> Option<Seq<char>> {
    match jv_get(v, key) {
        Some(JsonV::Str(s)) => Some(s),
        _ => None,
    }
}

/// The field as a boolean, when present with that type.
pub open spec fn jv_get_bool(v: JsonV, key: Seq<char>) -> Option<bool> {
    match jv_get(v, key) {
        Some(JsonV::Bool(b)) => Some(b),
        _ => None,
    }
}

/// The array element at `i`, when `v` is an array that long.
pub open spec fn jv_get_idx(v: JsonV, i: int) -> Option<JsonV> {
    match v {
        JsonV::Arr(items) => if 0 <= i < items.len() {
            Some(items[i])
        } else {
            None
        },
        _ => None,
    }
}

impl Json {
    /// Looks a field up in an object; `None` on any other kind of value.
    #[verifier::loop_isolation(false)]
    pub fn get<'a>(&'a self, key: &str) -> (r: Option<&'a Json>)
        ensures
            match r {
                Some(v) => jv_get(json_view(*self), key@) == Some(json_view(*v)),
                None => jv_get(json_view(*self), key@) is None,
            },
    {
        match self {
            Json::Obj(pairs) => {
                let ghost pv = json_pair_views(pairs@);
                proof {
                    lemma_json_pair_views_index(pairs@);
                }
                let k = key.to_owned();
                let mut i: usize = 0;
                while i < pairs.len()
                    invariant
                        i <= pairs.len(),
                        k@ == key@,
                        jv_obj_get(pv, key@) == jv_obj_get(pv.skip(i as int), key@),
                    decreases pairs.len() - i,
                {
                    proof {
                        assert(pv.skip(i as int)[0] == pv[i as int]);
                        assert(pv.skip(i as int).skip(1) =~= pv.skip(i + 1));
                    }
                    if pairs[i].0.eq(&k) {
                        proof {
                            assert(jv_obj_get(pv.skip(i as int), key@) == Some(
                                pv[i as int].1,
                            ));
                        }
                        return Some(&pairs[i].1);
                    }
                    i += 1;
                }
                proof {
                    assert(pv.skip(pv.len() as int).len() == 0);
                }
                None
            },
            _ => None,
        }
    }

    /// The field as a signed integer, when present with that type.
    pub fn get_i64(&self, key: &str) -> (r: Option<i64>)
        ensures
            r == jv_get_i64(json_view(*self), key@),
    {
        match self.get(key) {
            Some(Json::Int(n)) => Some(*n),
            _ => None,
        }
    }

    /// The field as an owned string, when present with that type.
    pub fn get_str(&self, key: &str) -> (r: Option<String>)
        ensures
            r is Some <==> jv_get_str(json_view(*self), key@) is Some,
            r is Some ==> r->0@ == jv_get_str(json_view(*self), key@)->0,
    {
        match self.get(key) {
            Some(Json::Str(s)) => Some(s.clone()),
            _ => None,
        }
    }

    /// The field as a boolean, when present with that type.
    pub fn get_bool(&self, key: &str) -> (r: Option<bool>)
        ensures
            r == jv_get_bool(json_view(*self), key@),
    {
        match self.get(key) {
            Some(Json::Bool(b)) => Some(*b),
            _ => None,
        }
    }

    /// The array element at `i`, when this is an array that long.
    pub fn get_idx<'a>(&'a self, i: usize) -> (r: Option<&'a Json>)
        ensures
            match r {
                Some(v) => jv_get_idx(json_view(*self), i as int) == Some(json_view(*v)),
                None => jv_get_idx(json_view(*self), i as int) is None,
            },
    {
        match self {
            Json::Arr(items) => {
                proof {
                    lemma_json_views_index(items@);
                }
                if i < items.len() {
                    Some(&items[i])
                } else {
                    None
                }
            },
            _ => None,
        }
    }
}

/// A hexadecimal digit character, lower case.
pub open spec fn hex_digit(d: int) -> char {
    if d < 10 {
        ((d + 48) as u8) as char
    } else {
        ((d + 87) as u8) as char
    }
}

/// The JSON escape of one character: the two-character escapes JSON names,
/// `\u00xx` for other control characters, the character itself otherwise.
pub open spec fn spec_escape_char(c: char) -> Seq<char> {
    if c == '"' {
        seq!['\\', '"']
    } else if c == '\\' {
        seq!['\\', '\\']
    } else if c == '\u{8}' {
        seq!['\\', 'b']
    } else if c == '\t' {
        seq!['\\', 't']
    } else if c == '\n' {
        seq!['\\', 'n']
    } else if c == '\u{c}' {
        seq!['\\', 'f']
    } else if c == '\r' {
        seq!['\\', 'r']
    } else if (c as u32) < 32 {
        seq![
            '\\',
            'u',
            '0',
            '0',
            hex_digit((c as u32) as int / 16),
            hex_digit((c as u32) as int % 16),
        ]
    } else {
        seq![c]
    }
}

/// The JSON escape of a whole string body.
pub open spec fn spec_escape(s: Seq<char>) -> Seq<char>
    decreases s.len(),
{
    if s.len() == 0 {
        Seq::empty()
    } else {
        spec_escape(s.drop_last()) + spec_escape_char(s.last())
    }
}

/// Appends the JSON escape of `s` to `out`.
#[verifier::loop_isolation(false)]
fn push_escaped(out: &mut Vec<char>, s: &str)
    ensures
        final(out)@ == old(out)@ + spec_escape(s@),
{
    let v = crate::text::chars_of(s);
    let mut i: usize = 0;
    while i < v.len()
        invariant
            i <= v.len(),
            v@ == s@,
            out@ == old(out)@ + spec_escape(s@.take(i as int)),
        decreases v.len() - i,
    {
        let c = v[i];
        proof {
            assert(s@.take(i + 1).drop_last() =~= s@.take(i as int));
            assert(s@.take(i + 1).last() == s@[i as int]);
        }
        if c == '"' {
            out.push('\\');
            out.push('"');
        } else if c == '\\' {
            out.push('\\');
            out.push('\\');
        } else if c == '\u{8}' {
            out.push('\\');
            out.push('b');
        } else if c == '\t' {
            out.push('\\');
            out.push('t');
        } else if c == '\n' {
            out.push('\\');
            out.push('n');
        } else if c == '\u{c}' {
            out.push('\\');
            out.push('f');
        } else if c == '\r' {
            out.push('\\');
            out.push('r');
        } else if (c as u32) < 32 {
            let code: u32 = c as u32;
            let hi: u32 = code / 16;
            let lo: u32 = code % 16;
            let hic: char = if hi < 10 {
                ((hi + 48) as u8) as char
            } else {
                ((hi + 87) as u8) as char
            };
            let loc: char = if lo < 10 {
                ((lo + 48) as u8) as char
            } else {
                ((lo + 87) as u8) as char
            };
            proof {
                assert(hic == hex_digit((c as u32) as int / 16));
                assert(loc == hex_digit((c as u32) as int % 16));
            }
            out.push('\\');
            out.push('u');
            out.push('0');
            out.push('0');
            out.push(hic);
            out.push(loc);
        } else {
            out.push(c);
        }
        proof {
            assert(out@ =~= old(out)@ + (spec_escape(s@.take(i as int)) + spec_escape_char(
                s@[i as int],
            )));
        }
        i += 1;
    }
    proof {
        assert(s@.take(s@.len() as int) =~= s@);
    }
}

/// The indentation for a nesting depth: two spaces per level.
pub open spec fn spec_indent(n: int) -> Seq<char>
    decreases n,
{
    if n <= 0 {
        Seq::empty()
    } else {
        spec_indent(n - 1) + seq![' ', ' ']
    }
}

/// The pretty-printed text of a value standing at nesting depth `ind`.
pub open spec fn jv_text(v: JsonV, ind: int) -> Seq<char>
    decreases v, 0int, 0int,
    via jv_text_decreases
{
    match v {
        JsonV::Null => "null"@,
        JsonV::Bool(b) => if b {
            "true"@
        } else {
            "false"@
        },
        JsonV::Int(n) => spec_i64_str(n),
        JsonV::Str(s) => seq!['"'] + spec_escape(s) + seq!['"'],
        JsonV::Arr(items) => if items.len() == 0 {
            "[]"@
        } else {
            seq!['['] + jv_items(items, 0, ind + 1) + seq!['\n'] + spec_indent(ind) + seq![']']
        },
        JsonV::Obj(pairs) => if pairs.len() == 0 {
            "{}"@
        } else {
            seq!['{'] + jv_pairs(pairs, 0, ind + 1) + seq!['\n'] + spec_indent(ind) + seq!['}']
        },
    }
}

/// The rendering of array elements from index `i` on: each on its own
/// indented line, separated by commas.
pub open spec fn jv_items(items: Seq<JsonV>, i: int, ind: int) -> Seq<char>
    decreases items, 1int, items.len() - i,
    via jv_items_decreases
{
    if i < 0 || i >= items.len() {
        Seq::empty()
    } else {
        let chunk = seq!['\n'] + spec_indent(ind) + jv_text(items[i], ind);
        if i + 1 < items.len() {
            chunk + seq![','] + jv_items(items, i + 1, ind)
        } else {
            chunk
        }
    }
}

/// The rendering of object members from index `i` on: each on its own
/// indented line as `"key": value`, separated by commas.
pub open spec fn jv_pairs(pairs: Seq<(Seq<char>, JsonV)>, i: int, ind: int) -> Seq<char>
    decreases pairs, 1int, pairs.len() - i,
    via jv_pairs_decreases
{
    if i < 0 || i >= pairs.len() {
        Seq::empty()
    } else {
        let chunk = seq!['\n'] + spec_indent(ind) + seq!['"'] + spec_escape(pairs[i].0) + seq![
            '"',
            ':',
            ' ',
        ] + jv_text(pairs[i].1, ind);
        if i + 1 < pairs.len() {
            chunk + seq![','] + jv_pairs(pairs, i + 1, ind)
        } else {
            chunk
        }
    }
}

#[via_fn]
proof fn jv_text_decreases(v: JsonV, ind: int) {
    match v {
        JsonV::Arr(items) => {
            assert(decreases_to!(v => items));
        },
        JsonV::Obj(pairs) => {
            assert(decreases_to!(v => pairs));
        },
        _ => {},
    }
}

#[via_fn]
proof fn jv_items_decreases(items: Seq<JsonV>, i: int, ind: int) {
    if 0 <= i < items.len() {
        assert(decreases_to!(items => items[i]));
    }
}

#[via_fn]
proof fn jv_pairs_decreases(pairs: Seq<(Seq<char>, JsonV)>, i: int, ind: int) {
    if 0 <= i < pairs.len() {
        assert(decreases_to!(pairs => pairs[i]));
        assert(decreases_to!(pairs[i] => pairs[i].1));
    }
}

/// Appends the pretty-printed text of `j` at depth `ind` to `out`;
/// `indent` must hold the indentation text of that depth.
#[verifier::loop_isolation(false)]
#[verifier::rlimit(60)]
fn write_json_at(j: &Json, indent: &Vec<char>, Ghost(ind): Ghost<int>, out: &mut Vec<char>)
    requires
        ind >= 0,
        indent@ == spec_indent(ind),
    ensures
        final(out)@ == old(out)@ + jv_text(json_view(*j), ind),
    decreases *j, 0int, 0int,
{
    match j {
        Json::Null => {
            crate::text::push_lit(out, "null");
        },
        Json::Bool(b) => {
            if *b {
                crate::text::push_lit(out, "true");
            } else {
                crate::text::push_lit(out, "false");
            }
        },
        Json::Int(n) => {
            let digits = crate::text::i64_to_chars(*n);
            crate::text::push_chars(out, &digits);
        },
        Json::Str(s) => {
            out.push('"');
            push_escaped(out, s.as_str());
            out.push('"');
            proof {
                assert(out@ =~= old(out)@ + (seq!['"'] + spec_escape(s@) + seq!['"']));
            }
        },
        Json::Arr(items) => {
            proof {
                lemma_json_views_index(items@);
            }
            let ghost iv = json_views(items@);
            if items.len() == 0 {
                crate::text::push_lit(out, "[]");
                proof {
                    assert(jv_text(json_view(*j), ind) == "[]"@);
                }
            } else {
                let ghost base = out@;
                out.push('[');
                let mut child_indent: Vec<char> = Vec::new();
                crate::text::push_chars(&mut child_indent, indent);
                child_indent.push(' ');
                child_indent.push(' ');
                proof {
                    assert(child_indent@ =~= spec_indent(ind + 1));
                }
                let mut i: usize = 0;
                while i < items.len()
                    invariant
                        i <= items.len(),
                        child_indent@ == spec_indent(ind + 1),
                        jv_items(iv, 0, ind + 1) == out@.skip(base.len() as int + 1)
                            + jv_items(iv, i as int, ind + 1),
                        out@.len() >= base.len() + 1,
                        out@.take(base.len() as int + 1) == base + seq!['['],
                    decreases items.len() - i,
                {
                    let ghost before = out@;
                    out.push('\n');
                    crate::text::push_chars(out, &child_indent);
                    proof {
                        assert(decreases_to!(*j => *items));
                        assert(decreases_to!(*items => items@));
                        assert(decreases_to!(items@ => items@[i as int]));
                    }
                    write_json_at(&items[i], &child_indent, Ghost(ind + 1), out);
                    let ghost chunk = seq!['\n'] + spec_indent(ind + 1) + jv_text(
                        iv[i as int],
                        ind + 1,
                    );
                    if i + 1 < items.len() {
                        out.push(',');
                        proof {
                            assert(out@.skip(base.len() as int + 1) =~= before.skip(
                                base.len() as int + 1,
                            ) + (chunk + seq![',']));
                            assert(out@.take(base.len() as int + 1) =~= base + seq!['[']);
                            assert(jv_items(iv, i as int, ind + 1) == chunk + seq![',']
                                + jv_items(iv, i + 1, ind + 1));
                        }
                    } else {
                        proof {
                            assert(out@.skip(base.len() as int + 1) =~= before.skip(
                                base.len() as int + 1,
                            ) + chunk);
                            assert(out@.take(base.len() as int + 1) =~= base + seq!['[']);
                            assert(jv_items(iv, i as int, ind + 1) == chunk);
                            assert(jv_items(iv, i + 1, ind + 1) == Seq::<char>::empty());
                        }
                    }
                    i += 1;
                }
                let ghost body_done = out@;
                proof {
                    let k = base.len() as int + 1;
                    assert(jv_items(iv, items@.len() as int, ind + 1) == Seq::<char>::empty());
                    assert(body_done.skip(k) =~= body_done.skip(k) + jv_items(
                        iv,
                        items@.len() as int,
                        ind + 1,
                    ));
                    assert(body_done =~= body_done.take(k) + body_done.skip(k));
                    assert(body_done =~= base + seq!['['] + jv_items(iv, 0, ind + 1));
                }
                out.push('\n');
                crate::text::push_chars(out, indent);
                out.push(']');
                proof {
                    assert(out@ =~= base + (seq!['['] + jv_items(iv, 0, ind + 1) + seq!['\n']
                        + spec_indent(ind) + seq![']']));
                }
            }
        },
        Json::Obj(pairs) => {
            proof {
                lemma_json_pair_views_index(pairs@);
            }
            let ghost pv = json_pair_views(pairs@);
            if pairs.len() == 0 {
                crate::text::push_lit(out, "{}");
                proof {
                    assert(jv_text(json_view(*j), ind) == "{}"@);
                }
            } else {
                let ghost base = out@;
                out.push('{');
                let mut child_indent: Vec<char> = Vec::new();
                crate::text::push_chars(&mut child_indent, indent);
                child_indent.push(' ');
                child_indent.push(' ');
                proof {
                    assert(child_indent@ =~= spec_indent(ind + 1));
                }
                let mut i: usize = 0;
                while i < pairs.len()
                    invariant
                        i <= pairs.len(),
                        child_indent@ == spec_indent(ind + 1),
                        jv_pairs(pv, 0, ind + 1) == out@.skip(base.len() as int + 1)
                            + jv_pairs(pv, i as int, ind + 1),
                        out@.len() >= base.len() + 1,
                        out@.take(base.len() as int + 1) == base + seq!['{'],
                    decreases pairs.len() - i,
                {
                    let ghost before = out@;
                    out.push('\n');
                    crate::text::push_chars(out, &child_indent);
                    out.push('"');
                    push_escaped(out, pairs[i].0.as_str());
                    out.push('"');
                    out.push(':');
                    out.push(' ');
                    proof {
                        assert(decreases_to!(*j => *pairs));
                        assert(decreases_to!(*pairs => pairs@));
                        assert(decreases_to!(pairs@ => pairs@[i as int]));
                        assert(decreases_to!(pairs@[i as int] => pairs@[i as int].1));
                    }
                    write_json_at(&pairs[i].1, &child_indent, Ghost(ind + 1), out);
                    let ghost chunk = seq!['\n'] + spec_indent(ind + 1) + seq!['"'] + spec_escape(
                        pv[i as int].0,
                    ) + seq!['"', ':', ' '] + jv_text(pv[i as int].1, ind + 1);
                    if i + 1 < pairs.len() {
                        out.push(',');
                        proof {
                            assert(out@.skip(base.len() as int + 1) =~= before.skip(
                                base.len() as int + 1,
                            ) + (chunk + seq![',']));
                            assert(out@.take(base.len() as int + 1) =~= base + seq!['{']);
                            assert(jv_pairs(pv, i as int, ind + 1) == chunk + seq![',']
                                + jv_pairs(pv, i + 1, ind + 1));
                        }
                    } else {
                        proof {
                            assert(out@.skip(base.len() as int + 1) =~= before.skip(
                                base.len() as int + 1,
                            ) + chunk);
                            assert(out@.take(base.len() as int + 1) =~= base + seq!['{']);
                            assert(jv_pairs(pv, i as int, ind + 1) == chunk);
                            assert(jv_pairs(pv, i + 1, ind + 1) == Seq::<char>::empty());
                        }
                    }
                    i += 1;
                }
                let ghost body_done = out@;
                proof {
                    let k = base.len() as int + 1;
                    assert(jv_pairs(pv, pairs@.len() as int, ind + 1) == Seq::<char>::empty());
                    assert(body_done.skip(k) =~= body_done.skip(k) + jv_pairs(
                        pv,
                        pairs@.len() as int,
                        ind + 1,
                    ));
                    assert(body_done =~= body_done.take(k) + body_done.skip(k));
                    assert(body_done =~= base + seq!['{'] + jv_pairs(pv, 0, ind + 1));
                }
                out.push('\n');
                crate::text::push_chars(out, indent);
                out.push('}');
                proof {
                    assert(out@ =~= base + (seq!['{'] + jv_pairs(pv, 0, ind + 1) + seq!['\n']
                        + spec_indent(ind) + seq!['}']));
                }
            }
        },
    }
}

/// The pretty-printed text of a JSON value.
pub fn write_json(j: &Json) -> (r: String)
    ensures
        r@ == jv_text(json_view(*j), 0),
{
    let indent: Vec<char> = Vec::new();
    let mut out: Vec<char> = Vec::new();
    proof {
        assert(indent@ =~= spec_indent(0));
    }
    write_json_at(j, &indent, Ghost(0), &mut out);
    crate::text::chars_to_string(&out)
}

} // verus!
