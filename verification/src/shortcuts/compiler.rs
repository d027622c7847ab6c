//! Output aliases: the names by which actions refer to earlier outputs, and
//! the aliases that the Shortcuts app's default output names give.
use vstd::prelude::*;

use crate::shortcuts::tables::CountTable;
use crate::text::{
    ascii_lower, ascii_lower_char, chars_of, decimal, lemma_decimal_injective, push_decimal, str_eq, string_of,
};

verus! {

broadcast use vstd::string::group_string_axioms;

/// The name the Shortcuts app gives the output of an action that has no
/// custom output name.
pub open spec fn spec_default_output_name(action_identifier: Seq<char>) -> Option<Seq<char>> {
    if action_identifier == "is.workflow.actions.gettext"@ {
        Some("Text"@)
    } else if action_identifier == "is.workflow.actions.text.replace"@ {
        Some("Updated Text"@)
    } else if action_identifier == "is.workflow.actions.detect.link"@ {
        Some("URLs"@)
    } else if action_identifier == "is.workflow.actions.getitemfromlist"@ {
        Some("Item from List"@)
    } else if action_identifier == "is.workflow.actions.count"@ {
        Some("Count"@)
    } else {
        None
    }
}

/// The name the Shortcuts app gives the output of an action that has no
/// custom output name.
pub fn default_output_name(action_identifier: &str) -> (r: Option<&'static str>)
    ensures
        match r {
            Some(n) => spec_default_output_name(action_identifier@) == Some(n@),
            None => spec_default_output_name(action_identifier@) is None,
        },
{
    if str_eq(action_identifier, "is.workflow.actions.gettext") {
        Some("Text")
    } else if str_eq(action_identifier, "is.workflow.actions.text.replace") {
        Some("Updated Text")
    } else if str_eq(action_identifier, "is.workflow.actions.detect.link") {
        Some("URLs")
    } else if str_eq(action_identifier, "is.workflow.actions.getitemfromlist") {
        Some("Item from List")
    } else if str_eq(action_identifier, "is.workflow.actions.count") {
        Some("Count")
    } else {
        None
    }
}

/// An ASCII letter or digit.
pub open spec fn is_ascii_alnum(c: char) -> bool {
    ('a' <= c && c <= 'z') || ('A' <= c && c <= 'Z') || ('0' <= c && c <= '9')
}

/// The characters of `s` run through the alias rule, left to right, and
/// whether the last one written was a separator: letters and digits are
/// kept in lower case, and each run of other characters becomes one `_`.
pub open spec fn slug_run(s: Seq<char>) -> (Seq<char>, bool)
    decreases s.len(),
{
    if s.len() == 0 {
        (Seq::empty(), false)
    } else {
        let (out, last_was_sep) = slug_run(s.drop_last());
        let c = s.last();
        if is_ascii_alnum(c) {
            (out.push(ascii_lower(c)), false)
        } else if !last_was_sep {
            (out.push('_'), true)
        } else {
            (out, last_was_sep)
        }
    }
}

/// `s` without its leading `_` characters.
pub open spec fn strip_leading_underscores(s: Seq<char>) -> Seq<char>
    decreases s.len(),
{
    if s.len() > 0 && s[0] == '_' {
        strip_leading_underscores(s.drop_first())
    } else {
        s
    }
}

/// `s` without its trailing `_` characters.
pub open spec fn strip_trailing_underscores(s: Seq<char>) -> Seq<char>
    decreases s.len(),
{
    if s.len() > 0 && s.last() == '_' {
        strip_trailing_underscores(s.drop_last())
    } else {
        s
    }
}

/// The alias of an output name: lower-case letters and digits, runs of
/// other characters as one `_`, and no `_` at either end.
pub open spec fn spec_slugify_alias(s: Seq<char>) -> Seq<char> {
    strip_trailing_underscores(strip_leading_underscores(slug_run(s).0))
}

/// The alias of an output name.
pub fn slugify_alias(input: &str) -> (r: String)
    ensures
        r@ == spec_slugify_alias(input@),
{
    let v = chars_of(input);
    let mut out: Vec<char> = Vec::new();
    let mut last_was_sep = false;
    let mut i: usize = 0;
    while i < v.len()
        invariant
            i <= v.len(),
            (out@, last_was_sep) == slug_run(v@.take(i as int)),
        decreases v.len() - i,
    {
        let c = v[i];
        assert(v@.take(i + 1).drop_last() =~= v@.take(i as int));
        if ('a' <= c && c <= 'z') || ('A' <= c && c <= 'Z') || ('0' <= c && c <= '9') {
            out.push(ascii_lower_char(c));
            last_was_sep = false;
        } else if !last_was_sep {
            out.push('_');
            last_was_sep = true;
        }
        i = i + 1;
    }
    assert(v@.take(v.len() as int) =~= v@);
    let ghost raw = out@;
    let n = out.len();
    let mut start: usize = 0;
    assert(raw.skip(0) =~= raw);
    while start < n && out[start] == '_'
        invariant
            start <= n,
            n == out.len(),
            out@ == raw,
            strip_leading_underscores(raw) == strip_leading_underscores(raw.skip(start as int)),
        decreases n - start,
    {
        assert(raw.skip(start as int).drop_first() =~= raw.skip(start + 1));
        start = start + 1;
    }
    let ghost lead = raw.skip(start as int);
    assert(strip_leading_underscores(lead) == lead);
    let mut end: usize = n;
    while end > start && out[end - 1] == '_'
        invariant
            start <= end <= n,
            n == out.len(),
            out@ == raw,
            lead == raw.skip(start as int),
            strip_trailing_underscores(lead) == strip_trailing_underscores(raw.subrange(start as int, end as int)),
        decreases end,
    {
        assert(raw.subrange(start as int, end as int).drop_last() =~= raw.subrange(start as int, end - 1));
        end = end - 1;
    }
    assert(raw.subrange(start as int, n as int) =~= lead);
    let ghost trimmed = raw.subrange(start as int, end as int);
    assert(strip_trailing_underscores(trimmed) == trimmed);
    let r = string_of(&out.as_slice()[start..end]);
    proof {
        assert(out@.subrange(start as int, end as int) =~= trimmed);
    }
    r
}

/// The alias of the default output of an action, if it has one.
pub open spec fn spec_inferred_default_output_alias(action_identifier: Seq<char>) -> Option<Seq<char>> {
    match spec_default_output_name(action_identifier) {
        Some(n) => Some(spec_slugify_alias(n)),
        None => None,
    }
}

/// The alias of the default output of an action, if it has one.
pub fn inferred_default_output_alias(action_identifier: &str) -> (r: Option<String>)
    ensures
        match r {
            Some(a) => spec_inferred_default_output_alias(action_identifier@) == Some(a@),
            None => spec_inferred_default_output_alias(action_identifier@) is None,
        },
{
    match default_output_name(action_identifier) {
        Some(n) => Some(slugify_alias(n)),
        None => None,
    }
}

/// How often `base` has been handed out so far.
pub open spec fn seen_count(counts: Map<Seq<char>, nat>, base: Seq<char>) -> nat {
    if counts.contains_key(base) {
        counts[base]
    } else {
        0
    }
}

/// The alias handed out for `base`, and the counts after: the first time the
/// base itself, the `n`-th time the base, `_` and `n`.
pub open spec fn spec_dedupe_alias(base: Seq<char>, counts: Map<Seq<char>, nat>) -> (Seq<char>, Map<Seq<char>, nat>) {
    let count = seen_count(counts, base);
    let alias = if count == 0 {
        base
    } else {
        base + "_"@ + decimal(count + 1)
    };
    (alias, counts.insert(base, count + 1))
}

/// Hands out an alias for `base` that no earlier call handed out for it.
pub fn dedupe_alias(base: String, counts: &mut CountTable) -> (r: String)
    requires
        seen_count(old(counts)@, base@) < u64::MAX,
    ensures
        (r@, final(counts)@) == spec_dedupe_alias(base@, old(counts)@),
{
    let count: u64 = match counts.get(&base) {
        Some(n) => n,
        None => 0,
    };
    counts.insert(base.clone(), count + 1);
    if count == 0 {
        base
    } else {
        let mut out = base;
        out.append("_");
        push_decimal(&mut out, (count + 1) as u128);
        out
    }
}

/// Handing out an alias for a base twice in a row gives two different
/// aliases: the base, then the base with `_2`; or the base with `_n`, then
/// with `_n+1`.
pub proof fn lemma_dedupe_alias_distinct(base: Seq<char>, counts: Map<Seq<char>, nat>)
    ensures
        spec_dedupe_alias(base, counts).0 != spec_dedupe_alias(base, spec_dedupe_alias(base, counts).1).0,
{
    let (first, after) = spec_dedupe_alias(base, counts);
    let (second, _) = spec_dedupe_alias(base, after);
    let c = seen_count(counts, base);
    assert(seen_count(after, base) == c + 1);
    assert(second == base + "_"@ + decimal(c + 2));
    if c == 0 {
        assert(first == base);
        assert(second.len() > base.len());
    } else {
        assert(first == base + "_"@ + decimal(c + 1));
        lemma_decimal_injective(c + 1, c + 2);
        if first == second {
            let k = base.len() + "_"@.len();
            assert((base + "_"@ + decimal(c + 1)).skip(k as int) =~= decimal(c + 1));
            assert((base + "_"@ + decimal(c + 2)).skip(k as int) =~= decimal(c + 2));
        }
    }
}

} // verus!
