//! Quoting for AppleScript and JavaScript string literals, and the field codec
//! that the generated scripts use to return records line by line.
use vstd::prelude::*;

use crate::text::{chars_of, push_char, push_chars, split, split_chars, starts_with, views};

verus! {

broadcast use vstd::string::group_string_axioms;

/// How one character is written inside a double-quoted AppleScript or
/// JavaScript string literal.
pub open spec fn quote_char(c: char) -> Seq<char> {
    if c == '\\' {
        seq!['\\', '\\']
    } else if c == '"' {
        seq!['\\', '"']
    } else if c == '\n' {
        seq!['\\', 'n']
    } else if c == '\r' {
        seq!['\\', 'r']
    } else if c == '\t' {
        seq!['\\', 't']
    } else {
        seq![c]
    }
}

/// The body of a double-quoted literal that denotes `s`.
pub open spec fn quoted(s: Seq<char>) -> Seq<char>
    decreases s.len(),
{
    if s.len() == 0 {
        seq![]
    } else {
        quoted(s.drop_last()) + quote_char(s.last())
    }
}

pub proof fn lemma_quoted_push(s: Seq<char>, c: char)
    ensures
        quoted(s.push(c)) == quoted(s) + quote_char(c),
{
    assert(s.push(c).drop_last() =~= s);
}

/// Appends `quoted(v)` to `out`.
pub fn push_quoted(out: &mut String, v: &[char])
    ensures
        final(out)@ == old(out)@ + quoted(v@),
{
    let mut i: usize = 0;
    while i < v.len()
        invariant
            i <= v.len(),
            out@ == old(out)@ + quoted(v@.take(i as int)),
        decreases v.len() - i,
    {
        let c = v[i];
        proof {
            assert(v@.take(i + 1) =~= v@.take(i as int).push(c));
            lemma_quoted_push(v@.take(i as int), c);
        }
        if c == '\\' {
            out.append("\\\\");
        } else if c == '"' {
            out.append("\\\"");
        } else if c == '\n' {
            out.append("\\n");
        } else if c == '\r' {
            out.append("\\r");
        } else if c == '\t' {
            out.append("\\t");
        } else {
            push_char(out, c);
        }
        proof {
            reveal_strlit("\\\\");
            reveal_strlit("\\\"");
            reveal_strlit("\\n");
            reveal_strlit("\\r");
            reveal_strlit("\\t");
        }
        assert(out@ =~= old(out)@ + quoted(v@.take(i + 1)));
        i = i + 1;
    }
    assert(v@.take(v.len() as int) =~= v@);
}

/// Escapes text for a double-quoted AppleScript string literal.
pub fn escape(value: &str) -> (r: String)
    ensures
        r@ == quoted(value@),
{
    let v = chars_of(value);
    let mut out = String::new();
    push_quoted(&mut out, v.as_slice());
    out
}

/// Escapes text for a double-quoted JavaScript string literal.
pub fn escape_js_string(value: &str) -> (r: String)
    ensures
        r@ == quoted(value@),
{
    escape(value)
}

/// One line as a double-quoted AppleScript literal.
pub open spec fn quoted_literal(l: Seq<char>) -> Seq<char> {
    seq!['"'] + quoted(l) + seq!['"']
}

/// Quoted lines joined by `& linefeed &`.
pub open spec fn joined_lines(lines: Seq<Seq<char>>) -> Seq<char>
    decreases lines.len(),
{
    if lines.len() == 0 {
        seq![]
    } else if lines.len() == 1 {
        quoted_literal(lines[0])
    } else {
        joined_lines(lines.drop_last()) + " & linefeed & "@ + quoted_literal(lines.last())
    }
}

/// The AppleScript expression for multi-line text: each line quoted, joined by
/// `& linefeed &`.
pub open spec fn body_expression(s: Seq<char>) -> Seq<char> {
    joined_lines(split(s, seq!['\n']))
}

/// Builds the AppleScript expression that denotes `value`, which may span lines.
pub fn escape_body(value: &str) -> (r: String)
    ensures
        r@ == body_expression(value@),
{
    let v = chars_of(value);
    let nl: [char; 1] = ['\n'];
    let lines = split_chars(v.as_slice(), &nl);
    assert(nl@ =~= seq!['\n']);
    let ghost ls = views(lines@);
    let mut out = String::new();
    let mut i: usize = 0;
    while i < lines.len()
        invariant
            i <= lines.len(),
            ls == views(lines@),
            out@ == joined_lines(ls.take(i as int)),
        decreases lines.len() - i,
    {
        if i > 0 {
            out.append(" & linefeed & ");
        }
        push_char(&mut out, '"');
        push_quoted(&mut out, lines[i].as_slice());
        push_char(&mut out, '"');
        proof {
            let t = ls.take(i + 1);
            assert(t.drop_last() =~= ls.take(i as int));
            assert(t.last() == lines@[i as int]@);
            if i == 0 {
                assert(t.len() == 1);
            }
        }
        assert(out@ =~= joined_lines(ls.take(i + 1)));
        i = i + 1;
    }
    assert(ls.take(lines.len() as int) =~= ls);
    out
}

/// What a field returned by a script decodes to: `\n`, `\r`, `\t` and `\\` stand
/// for themselves, `\s` for the record separator `sep`, and any other backslash
/// is kept as it is.
pub open spec fn decode(s: Seq<char>, sep: Seq<char>) -> Seq<char>
    decreases s.len(),
{
    if s.len() == 0 {
        seq![]
    } else if s[0] != '\\' {
        seq![s[0]] + decode(s.drop_first(), sep)
    } else if s.len() == 1 {
        seq!['\\']
    } else {
        let c = s[1];
        let head = if c == 'n' {
            seq!['\n']
        } else if c == 'r' {
            seq!['\r']
        } else if c == 't' {
            seq!['\t']
        } else if c == 's' {
            sep
        } else if c == '\\' {
            seq!['\\']
        } else {
            seq!['\\', c]
        };
        head + decode(s.skip(2), sep)
    }
}

/// How the scripts' `encode_field` handler writes one character of a field.
pub open spec fn encode_char(c: char) -> Seq<char> {
    if c == '\\' {
        seq!['\\', '\\']
    } else if c == '\t' {
        seq!['\\', 't']
    } else if c == '\r' {
        seq!['\\', 'r']
    } else if c == '\n' {
        seq!['\\', 'n']
    } else {
        seq![c]
    }
}

/// The text that the scripts' `encode_field` handler returns for `s`: it escapes
/// backslashes, tabs, returns and line feeds, and writes each occurrence of the
/// record separator `sep` as `\s`. The handler applies these replacements one
/// after another (`encode_field_steps`); for a separator that the escapes cannot
/// touch, that is this single left-to-right pass (`lemma_encode_field_steps`).
pub open spec fn encode(s: Seq<char>, sep: Seq<char>) -> Seq<char>
    decreases s.len(),
{
    if s.len() == 0 {
        seq![]
    } else if sep.len() > 0 && starts_with(s, sep) {
        seq!['\\', 's'] + encode(s.skip(sep.len() as int), sep)
    } else {
        encode_char(s[0]) + encode(s.drop_first(), sep)
    }
}

proof fn lemma_decode_prefix(head: Seq<char>, rest: Seq<char>, sep: Seq<char>)
    requires
        head.len() == 2,
        head[0] == '\\',
    ensures
        decode(head + rest, sep) == (if head[1] == 'n' {
            seq!['\n']
        } else if head[1] == 'r' {
            seq!['\r']
        } else if head[1] == 't' {
            seq!['\t']
        } else if head[1] == 's' {
            sep
        } else if head[1] == '\\' {
            seq!['\\']
        } else {
            seq!['\\', head[1]]
        }) + decode(rest, sep),
{
    assert((head + rest).skip(2) =~= rest);
}

/// Decoding a field gives back the text the script encoded.
pub proof fn lemma_decode_encode(s: Seq<char>, sep: Seq<char>)
    ensures
        decode(encode(s, sep), sep) == s,
    decreases s.len(),
{
    if s.len() == 0 {
    } else if sep.len() > 0 && starts_with(s, sep) {
        let rest = s.skip(sep.len() as int);
        lemma_decode_encode(rest, sep);
        lemma_decode_prefix(seq!['\\', 's'], encode(rest, sep), sep);
        assert(s.take(sep.len() as int) =~= sep);
        assert(s =~= sep + rest);
    } else {
        let c = s[0];
        let rest = s.drop_first();
        lemma_decode_encode(rest, sep);
        if c == '\\' || c == '\t' || c == '\r' || c == '\n' {
            lemma_decode_prefix(encode_char(c), encode(rest, sep), sep);
        } else {
            let e = encode_char(c) + encode(rest, sep);
            assert(e.drop_first() =~= encode(rest, sep));
        }
        assert(s =~= seq![c] + rest);
    }
}

/// What AppleScript's `replace_text` handler returns: `s` with every occurrence
/// of `find`, taken from left to right without overlaps, replaced by `with`.
pub open spec fn replace_all(s: Seq<char>, find: Seq<char>, with: Seq<char>) -> Seq<char>
    decreases s.len(),
{
    if s.len() == 0 {
        seq![]
    } else if find.len() > 0 && starts_with(s, find) {
        with + replace_all(s.skip(find.len() as int), find, with)
    } else {
        seq![s[0]] + replace_all(s.drop_first(), find, with)
    }
}

/// What the scripts' `encode_field` handler returns for `s`, written as the
/// handler is: backslashes, tabs, returns and line feeds replaced in turn,
/// then the record separator `sep`.
pub open spec fn encode_field_steps(s: Seq<char>, sep: Seq<char>) -> Seq<char> {
    let a = replace_all(s, seq!['\\'], seq!['\\', '\\']);
    let b = replace_all(a, seq!['\t'], seq!['\\', 't']);
    let c = replace_all(b, seq!['\r'], seq!['\\', 'r']);
    let d = replace_all(c, seq!['\n'], seq!['\\', 'n']);
    replace_all(d, sep, seq!['\\', 's'])
}

/// A character that `encode_field` escapes.
pub open spec fn is_escaped(c: char) -> bool {
    c == '\\' || c == '\t' || c == '\r' || c == '\n'
}

/// A record separator that the escapes cannot touch or imitate: not empty,
/// without an escaped character, and not starting with a letter that follows
/// a backslash in an escape.
pub open spec fn plain_separator(sep: Seq<char>) -> bool {
    &&& sep.len() > 0
    &&& forall|i: int| 0 <= i < sep.len() ==> !is_escaped(#[trigger] sep[i])
    &&& sep[0] != 't' && sep[0] != 'r' && sep[0] != 'n'
}

proof fn lemma_starts_with_char(s: Seq<char>, c: char)
    requires
        s.len() > 0,
    ensures
        starts_with(s, seq![c]) == (s[0] == c),
{
    if s[0] == c {
        assert(s.subrange(0, 1) =~= seq![c]);
    } else if starts_with(s, seq![c]) {
        assert(s.subrange(0, 1)[0] == s[0]);
        assert(seq![c][0] == c);
    }
}

proof fn lemma_replace_char_concat(a: Seq<char>, b: Seq<char>, c: char, w: Seq<char>)
    ensures
        replace_all(a + b, seq![c], w) == replace_all(a, seq![c], w) + replace_all(b, seq![c], w),
    decreases a.len(),
{
    if a.len() == 0 {
        assert(a + b =~= b);
    } else {
        let ab = a + b;
        assert(ab[0] == a[0]);
        lemma_starts_with_char(ab, c);
        lemma_starts_with_char(a, c);
        assert(ab.skip(1) =~= a.skip(1) + b);
        assert(ab.drop_first() =~= a.drop_first() + b);
        assert(a.skip(1) =~= a.drop_first());
        lemma_replace_char_concat(a.drop_first(), b, c, w);
    }
}

proof fn lemma_replace_char_one(x: char, c: char, w: Seq<char>)
    ensures
        replace_all(seq![x], seq![c], w) == (if x == c { w } else { seq![x] }),
{
    let s = seq![x];
    lemma_starts_with_char(s, c);
    assert(s.skip(1) =~= Seq::<char>::empty());
    assert(s.drop_first() =~= Seq::<char>::empty());
    assert(replace_all(Seq::<char>::empty(), seq![c], w) == Seq::<char>::empty());
    if x == c {
        assert(w + Seq::<char>::empty() =~= w);
    } else {
        assert(seq![x] + Seq::<char>::empty() =~= seq![x]);
    }
}

proof fn lemma_replace_char_two(x: char, y: char, c: char, w: Seq<char>)
    requires
        x != c,
        y != c,
    ensures
        replace_all(seq![x, y], seq![c], w) == seq![x, y],
{
    lemma_replace_char_concat(seq![x], seq![y], c, w);
    lemma_replace_char_one(x, c, w);
    lemma_replace_char_one(y, c, w);
    assert(seq![x, y] =~= seq![x] + seq![y]);
}

/// The four escape replacements, one after another, write each character as
/// `encode_char` does.
proof fn lemma_escape_steps(s: Seq<char>)
    ensures
        replace_all(
            replace_all(
                replace_all(replace_all(s, seq!['\\'], seq!['\\', '\\']), seq!['\t'], seq!['\\', 't']),
                seq!['\r'],
                seq!['\\', 'r'],
            ),
            seq!['\n'],
            seq!['\\', 'n'],
        ) == encode(s, seq![]),
    decreases s.len(),
{
    let w1 = seq!['\\', '\\'];
    let w2 = seq!['\\', 't'];
    let w3 = seq!['\\', 'r'];
    let w4 = seq!['\\', 'n'];
    if s.len() == 0 {
    } else {
        let x = s[0];
        let rest = s.drop_first();
        assert(s =~= seq![x] + rest);
        lemma_escape_steps(rest);
        lemma_replace_char_concat(seq![x], rest, '\\', w1);
        lemma_replace_char_one(x, '\\', w1);
        let a0 = replace_all(seq![x], seq!['\\'], w1);
        let a1 = replace_all(rest, seq!['\\'], w1);
        lemma_replace_char_concat(a0, a1, '\t', w2);
        let b0 = replace_all(a0, seq!['\t'], w2);
        let b1 = replace_all(a1, seq!['\t'], w2);
        lemma_replace_char_concat(b0, b1, '\r', w3);
        let c0 = replace_all(b0, seq!['\r'], w3);
        let c1 = replace_all(b1, seq!['\r'], w3);
        lemma_replace_char_concat(c0, c1, '\n', w4);
        let d0 = replace_all(c0, seq!['\n'], w4);
        if x == '\\' {
            lemma_replace_char_two('\\', '\\', '\t', w2);
            lemma_replace_char_two('\\', '\\', '\r', w3);
            lemma_replace_char_two('\\', '\\', '\n', w4);
        } else if x == '\t' {
            lemma_replace_char_one(x, '\t', w2);
            lemma_replace_char_two('\\', 't', '\r', w3);
            lemma_replace_char_two('\\', 't', '\n', w4);
        } else if x == '\r' {
            lemma_replace_char_one(x, '\t', w2);
            lemma_replace_char_one(x, '\r', w3);
            lemma_replace_char_two('\\', 'r', '\n', w4);
        } else {
            lemma_replace_char_one(x, '\t', w2);
            lemma_replace_char_one(x, '\r', w3);
            lemma_replace_char_one(x, '\n', w4);
        }
        assert(d0 == encode_char(x));
        assert(encode(s, seq![]) == encode_char(x) + encode(rest, seq![]));
    }
}

proof fn lemma_escape_concat(a: Seq<char>, b: Seq<char>)
    ensures
        encode(a + b, seq![]) == encode(a, seq![]) + encode(b, seq![]),
    decreases a.len(),
{
    if a.len() == 0 {
        assert(a + b =~= b);
    } else {
        assert((a + b)[0] == a[0]);
        assert((a + b).drop_first() =~= a.drop_first() + b);
        lemma_escape_concat(a.drop_first(), b);
        assert(encode_char(a[0]) + encode(a.drop_first(), seq![]) + encode(b, seq![]) =~= encode_char(a[0]) + (
        encode(a.drop_first(), seq![]) + encode(b, seq![])));
    }
}

proof fn lemma_escape_plain(p: Seq<char>)
    requires
        forall|i: int| 0 <= i < p.len() ==> !is_escaped(#[trigger] p[i]),
    ensures
        encode(p, seq![]) == p,
    decreases p.len(),
{
    if p.len() > 0 {
        assert(!is_escaped(p[0]));
        assert forall|i: int| 0 <= i < p.drop_first().len() implies !is_escaped(#[trigger] p.drop_first()[i]) by {
            assert(p.drop_first()[i] == p[i + 1]);
        }
        lemma_escape_plain(p.drop_first());
        assert(p =~= seq![p[0]] + p.drop_first());
    }
}

/// Escaped text starts with a text free of backslashes only where the original
/// text did.
proof fn lemma_escape_prefix(s: Seq<char>, p: Seq<char>)
    requires
        forall|i: int| 0 <= i < p.len() ==> #[trigger] p[i] != '\\',
        starts_with(encode(s, seq![]), p),
    ensures
        starts_with(s, p),
    decreases p.len(),
{
    if p.len() == 0 {
        assert(s.subrange(0, 0) =~= p);
    } else {
        let e = encode(s, seq![]);
        assert(e.subrange(0, p.len() as int)[0] == e[0]);
        assert(s.len() > 0);
        let x = s[0];
        let rest = s.drop_first();
        let er = encode(rest, seq![]);
        assert(e == encode_char(x) + er);
        assert(p[0] != '\\');
        assert(!is_escaped(x));
        assert(e =~= seq![x] + er);
        assert(x == p[0]);
        let q = p.drop_first();
        assert forall|i: int| 0 <= i < q.len() implies #[trigger] q[i] != '\\' by {
            assert(q[i] == p[i + 1]);
        }
        assert(starts_with(er, q)) by {
            assert forall|i: int| 0 <= i < q.len() implies er.subrange(0, q.len() as int)[i] == q[i] by {
                assert(er[i] == e[i + 1]);
                assert(e.subrange(0, p.len() as int)[i + 1] == p[i + 1]);
            }
            assert(er.subrange(0, q.len() as int) =~= q);
        }
        lemma_escape_prefix(rest, q);
        assert forall|i: int| 0 <= i < p.len() implies s.subrange(0, p.len() as int)[i] == p[i] by {
            if i > 0 {
                assert(s[i] == rest[i - 1]);
                assert(rest.subrange(0, q.len() as int)[i - 1] == q[i - 1]);
            }
        }
        assert(s.subrange(0, p.len() as int) =~= p);
    }
}

proof fn lemma_separator_after_escape(x: char, er: Seq<char>, sep: Seq<char>)
    requires
        plain_separator(sep),
        is_escaped(x),
    ensures
        replace_all(encode_char(x) + er, sep, seq!['\\', 's']) == encode_char(x) + replace_all(er, sep, seq!['\\', 's']),
{
    let w = seq!['\\', 's'];
    let y = encode_char(x)[1];
    let tail = seq![y] + er;
    let e = encode_char(x) + er;
    assert(encode_char(x) =~= seq!['\\', y]);
    assert(e =~= seq!['\\'] + tail);
    assert(e.drop_first() =~= tail);
    assert(!starts_with(e, sep)) by {
        if starts_with(e, sep) {
            assert(e.subrange(0, sep.len() as int)[0] == e[0]);
        }
    }
    assert(!starts_with(tail, sep)) by {
        if starts_with(tail, sep) {
            assert(tail.subrange(0, sep.len() as int)[0] == tail[0]);
        }
    }
    assert(tail.drop_first() =~= er);
    assert(replace_all(tail, sep, w) == seq![y] + replace_all(er, sep, w));
    assert(replace_all(e, sep, w) == seq![e[0]] + replace_all(tail, sep, w));
    assert(replace_all(e, sep, w) =~= encode_char(x) + replace_all(er, sep, w));
}

/// Replacing the separator in the escaped text finishes the encoding.
proof fn lemma_separator_step(s: Seq<char>, sep: Seq<char>)
    requires
        plain_separator(sep),
    ensures
        replace_all(encode(s, seq![]), sep, seq!['\\', 's']) == encode(s, sep),
    decreases s.len(),
{
    let w = seq!['\\', 's'];
    let e = encode(s, seq![]);
    if s.len() == 0 {
    } else if starts_with(s, sep) {
        let rest = s.skip(sep.len() as int);
        assert(s =~= sep + rest) by {
            assert(s.subrange(0, sep.len() as int) == sep);
        }
        lemma_escape_concat(sep, rest);
        lemma_escape_plain(sep);
        let er = encode(rest, seq![]);
        assert(e == sep + er);
        assert(e.subrange(0, sep.len() as int) =~= sep);
        assert(e.skip(sep.len() as int) =~= er);
        lemma_separator_step(rest, sep);
    } else {
        let x = s[0];
        let rest = s.drop_first();
        let er = encode(rest, seq![]);
        lemma_separator_step(rest, sep);
        assert(e == encode_char(x) + er);
        assert forall|i: int| 0 <= i < sep.len() implies #[trigger] sep[i] != '\\' by {
            assert(!is_escaped(sep[i]));
        }
        if starts_with(e, sep) {
            lemma_escape_prefix(s, sep);
        }
        assert(!starts_with(e, sep));
        if is_escaped(x) {
            lemma_separator_after_escape(x, er, sep);
        } else {
            assert(e =~= seq![x] + er);
            assert(e.drop_first() =~= er);
        }
    }
}

/// The `encode_field` handler, replacement after replacement, writes what
/// `encode` says.
pub proof fn lemma_encode_field_steps(s: Seq<char>, sep: Seq<char>)
    requires
        plain_separator(sep),
    ensures
        encode_field_steps(s, sep) == encode(s, sep),
{
    lemma_escape_steps(s);
    lemma_separator_step(s, sep);
}

/// Decodes a field written by the scripts' `encode_field` handler.
pub fn decode_field_with(value: &[char], sep: &[char]) -> (r: String)
    ensures
        r@ == decode(value@, sep@),
{
    let mut out = String::new();
    let mut i: usize = 0;
    assert(value@.skip(0) =~= value@);
    while i < value.len()
        invariant
            i <= value.len(),
            out@ + decode(value@.skip(i as int), sep@) == decode(value@, sep@),
        decreases value.len() - i,
    {
        let ghost t = value@.skip(i as int);
        let ch = value[i];
        if ch != '\\' {
            assert(t.drop_first() =~= value@.skip(i + 1));
            push_char(&mut out, ch);
            assert(out@ + decode(value@.skip(i + 1), sep@) =~= decode(value@, sep@));
            i = i + 1;
        } else if i + 1 == value.len() {
            push_char(&mut out, '\\');
            assert(value@.skip(i + 1) =~= Seq::<char>::empty());
            assert(out@ + decode(value@.skip(i + 1), sep@) =~= decode(value@, sep@));
            i = i + 1;
        } else {
            let next = value[i + 1];
            assert(t.skip(2) =~= value@.skip(i + 2));
            if next == 'n' {
                push_char(&mut out, '\n');
            } else if next == 'r' {
                push_char(&mut out, '\r');
            } else if next == 't' {
                push_char(&mut out, '\t');
            } else if next == 's' {
                push_chars(&mut out, sep);
            } else if next == '\\' {
                push_char(&mut out, '\\');
            } else {
                push_char(&mut out, '\\');
                push_char(&mut out, next);
            }
            assert(out@ + decode(value@.skip(i + 2), sep@) =~= decode(value@, sep@));
            i = i + 2;
        }
    }
    assert(value@.skip(value.len() as int) =~= Seq::<char>::empty());
    assert(out@ =~= decode(value@, sep@));
    out
}

} // verus!
