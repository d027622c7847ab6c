//! Stickies notes, kept by the Stickies app in a property list of window
//! states and one RTF document per note: listing, creating, updating and
//! deleting notes, and the rules for their titles and window frames.
use vstd::prelude::*;

use crate::error::{MacosError, MacosErrorView};
use crate::safari::throttle::utf8_width;
use crate::text::{
    chars_eq, chars_of, ends_with_exec, parse_i32, parse_i32_chars, push_signed_decimal,
    signed_decimal, slice_chars, split, split_chars, split_once, split_once_chars, starts_with,
    starts_with_exec, string_of, trim, trim_chars, views,
};

verus! {

broadcast use vstd::string::group_string_axioms;

/// The file that lists the notes' window states, in the Stickies folder.
pub const SAVED_STATE_FILENAME: &'static str = ".SavedStickiesState";

/// The key under which a note's title is kept in its window state.
pub const TITLE_KEY: &'static str = "CuewardTitle";

/// A note: its id, title and text.
#[derive(Debug, Clone, PartialEq, Eq)]
pub struct StickiesNote {
    pub id: String,
    pub title: String,
    pub body: String,
}

#[verifier::external_type_specification]
#[verifier::external_body]
pub struct ExDictionary(plist::Dictionary);

#[verifier::external_type_specification]
#[verifier::external_body]
pub struct ExValue(plist::Value);

/// The text entries of a property-list dictionary.
pub uninterp spec fn dict_strings(d: plist::Dictionary) -> Map<Seq<char>, Seq<char>>;

/// The integer entries of a property-list dictionary that fit an `i64`.
pub uninterp spec fn dict_integers(d: plist::Dictionary) -> Map<Seq<char>, i64>;

/// `plist::Dictionary::new`: an empty dictionary.
#[verifier::external_body]
fn dict_new() -> (r: plist::Dictionary)
    ensures
        dict_strings(r).dom() =~= Set::empty(),
        dict_integers(r).dom() =~= Set::empty(),
{
    plist::Dictionary::new()
}

/// `plist::Dictionary::get` with the value read by `Value::as_string`: the
/// text entry under `key`, if there is one.
#[verifier::external_body]
fn dict_string(d: &plist::Dictionary, key: &str) -> (r: Option<String>)
    ensures
        match r {
            Some(v) => dict_strings(*d).contains_key(key@) && dict_strings(*d)[key@] == v@,
            None => !dict_strings(*d).contains_key(key@),
        },
{
    d.get(key).and_then(|v| v.as_string()).map(|s| s.to_string())
}

/// `plist::Dictionary::get` with the value read by
/// `Value::as_signed_integer`: the integer entry under `key`, if there is one
/// that fits an `i64`.
#[verifier::external_body]
fn dict_integer(d: &plist::Dictionary, key: &str) -> (r: Option<i64>)
    ensures
        match r {
            Some(v) => dict_integers(*d).contains_key(key@) && dict_integers(*d)[key@] == v,
            None => !dict_integers(*d).contains_key(key@),
        },
{
    d.get(key).and_then(|v| v.as_signed_integer())
}

/// `plist::Dictionary::insert` of a text value: the entry under `key`
/// becomes that text.
#[verifier::external_body]
fn dict_insert_string(d: &mut plist::Dictionary, key: &str, value: &str)
    ensures
        dict_strings(*final(d)) == dict_strings(*old(d)).insert(key@, value@),
        dict_integers(*final(d)) == dict_integers(*old(d)).remove(key@),
{
    d.insert(key.to_string(), plist::Value::String(value.to_string()));
}

/// `plist::Dictionary::insert` of an integer value: the entry under `key`
/// becomes that integer.
#[verifier::external_body]
fn dict_insert_integer(d: &mut plist::Dictionary, key: &str, value: i64)
    ensures
        dict_strings(*final(d)) == dict_strings(*old(d)).remove(key@),
        dict_integers(*final(d)) == dict_integers(*old(d)).insert(key@, value),
{
    d.insert(key.to_string(), plist::Value::Integer(value.into()));
}

/// `Clone::clone` of a dictionary: the same entries.
#[verifier::external_body]
fn dict_clone(d: &plist::Dictionary) -> (r: plist::Dictionary)
    ensures
        dict_strings(r) == dict_strings(*d),
        dict_integers(r) == dict_integers(*d),
{
    d.clone()
}

/// The text entries of a property-list value that is a dictionary; `None`
/// for a value of another kind.
pub uninterp spec fn value_entry(v: plist::Value) -> Option<Map<Seq<char>, Seq<char>>>;

/// The items of a property-list value that is an array, each as
/// [`value_entry`] reads it; `None` for a value of another kind.
pub uninterp spec fn value_entries(v: plist::Value) -> Option<Seq<Option<Map<Seq<char>, Seq<char>>>>>;

/// The items of an array, each as [`value_entry`] reads it.
pub open spec fn entries_of(items: Seq<plist::Value>) -> Seq<Option<Map<Seq<char>, Seq<char>>>> {
    items.map_values(|x: plist::Value| value_entry(x))
}

/// `plist::Value::into_array`: the items of an array value (`Some` exactly
/// for a `Value::Array`, with its items in order).
#[verifier::external_body]
fn value_into_array(v: plist::Value) -> (r: Option<Vec<plist::Value>>)
    ensures
        match r {
            Some(items) => value_entries(v) == Some(entries_of(items@)),
            None => value_entries(v) is None,
        },
{
    v.into_array()
}

/// `plist::Value::into_dictionary`: the dictionary of a dictionary value
/// (`Some` exactly for a `Value::Dictionary`).
#[verifier::external_body]
fn value_into_dictionary(v: plist::Value) -> (r: Option<plist::Dictionary>)
    ensures
        match r {
            Some(d) => value_entry(v) == Some(dict_strings(d)),
            None => value_entry(v) is None,
        },
{
    v.into_dictionary()
}

/// An array value of the dictionaries (`plist::Value::Array` of
/// `plist::Value::Dictionary`). Nothing is stated of the value, which only
/// the host reads back.
#[verifier::external_body]
fn dictionaries_value(entries: Vec<plist::Dictionary>) -> plist::Value {
    plist::Value::Array(entries.into_iter().map(plist::Value::Dictionary).collect())
}

/// A random version-4 UUID in its hyphenated text form
/// (`uuid::Uuid::new_v4().to_string()`). The text is random, so nothing is
/// stated of it.
#[verifier::external_body]
pub(crate) fn new_uuid() -> String {
    uuid::Uuid::new_v4().to_string()
}

/// One note's window state: its id and the property-list entries the Stickies
/// app keeps for it.
pub struct StickyStateEntry {
    pub id: String,
    pub raw: plist::Dictionary,
}

/// Refuses an update that changes nothing.
pub fn ensure_update_fields(title: Option<&str>, body: Option<&str>) -> (r: Result<(), MacosError>)
    ensures
        r is Err <==> (title is None && body is None),
        r matches Err(e) ==> e@ == MacosErrorView::Other("no sticky updates specified"@),
{
    if title.is_none() && body.is_none() {
        return Err(MacosError::Other(String::from_str("no sticky updates specified")));
    }
    Ok(())
}

/// The first of `lines` that is not blank, trimmed.
pub open spec fn first_nonblank(lines: Seq<Seq<char>>) -> Option<Seq<char>>
    decreases lines.len(),
{
    if lines.len() == 0 {
        None
    } else if trim(lines[0]).len() > 0 {
        Some(trim(lines[0]))
    } else {
        first_nonblank(lines.drop_first())
    }
}

/// The leading characters of `s` that fit in `n` bytes of UTF-8.
pub open spec fn byte_prefix(s: Seq<char>, n: nat) -> Seq<char>
    decreases s.len(),
{
    if s.len() == 0 {
        seq![]
    } else if utf8_width(s[0]) <= n {
        seq![s[0]] + byte_prefix(s.drop_first(), (n - utf8_width(s[0])) as nat)
    } else {
        seq![]
    }
}

/// A note's title: its stored title when that is not blank, else the first
/// line of its text that is not blank, else `Sticky ` and the first eight
/// bytes of its id (the whole characters that fit in them).
pub open spec fn spec_derive_sticky_title(stored_title: Option<Seq<char>>, body: Seq<char>, id: Seq<char>) -> Seq<char> {
    match stored_title {
        Some(t) if trim(t).len() > 0 => trim(t),
        _ => match first_nonblank(split(body, seq!['\n'])) {
            Some(line) => line,
            None => "Sticky "@ + byte_prefix(id, 8),
        },
    }
}

fn id_prefix(id: &[char]) -> (r: Vec<char>)
    ensures
        r@ == byte_prefix(id@, 8),
{
    let mut out: Vec<char> = Vec::new();
    let mut budget: u32 = 8;
    let mut i: usize = 0;
    assert(id@.skip(0) =~= id@);
    while i < id.len()
        invariant
            i <= id.len(),
            budget <= 8,
            out@ + byte_prefix(id@.skip(i as int), budget as nat) == byte_prefix(id@, 8),
        decreases id.len() - i,
    {
        let c = id[i];
        let w: u32 = if (c as u32) < 0x80 {
            1
        } else if (c as u32) < 0x800 {
            2
        } else if (c as u32) < 0x10000 {
            3
        } else {
            4
        };
        assert(w == utf8_width(c));
        let ghost rest = id@.skip(i as int);
        assert(rest[0] == c);
        if w > budget {
            assert(byte_prefix(rest, budget as nat) == Seq::<char>::empty());
            assert(out@ =~= out@ + Seq::<char>::empty());
            return out;
        }
        assert(rest.drop_first() =~= id@.skip(i + 1));
        out.push(c);
        assert(out@ + byte_prefix(id@.skip(i + 1), (budget - w) as nat) =~= (out@.drop_last()) + (seq![c] + byte_prefix(rest.drop_first(), (budget - w) as nat)));
        budget = budget - w;
        i = i + 1;
    }
    assert(id@.skip(i as int) =~= Seq::<char>::empty());
    assert(out@ =~= out@ + Seq::<char>::empty());
    out
}

fn first_nonblank_line(body: &str) -> (r: Option<String>)
    ensures
        crate::safari::types::opt_string(r) == first_nonblank(split(body@, seq!['\n'])),
{
    let v = chars_of(body);
    let sep: [char; 1] = ['\n'];
    assert(sep@ =~= seq!['\n']);
    let lines = split_chars(v.as_slice(), &sep);
    let ghost lv = views(lines@);
    let mut i: usize = 0;
    assert(lv.skip(0) =~= lv);
    while i < lines.len()
        invariant
            i <= lines.len(),
            lv == views(lines@),
            lv == split(body@, seq!['\n']),
            first_nonblank(lv) == first_nonblank(lv.skip(i as int)),
        decreases lines.len() - i,
    {
        assert(lv.skip(i as int)[0] == lines@[i as int]@);
        assert(lv.skip(i as int).drop_first() =~= lv.skip(i + 1));
        let t = trim_chars(lines[i].as_slice());
        if t.len() > 0 {
            return Some(string_of(t.as_slice()));
        }
        i = i + 1;
    }
    assert(lv.skip(i as int) =~= Seq::<Seq<char>>::empty());
    None
}

/// A note's title.
pub fn derive_sticky_title(stored_title: Option<&str>, body: &str, id: &str) -> (r: String)
    ensures
        r@ == spec_derive_sticky_title(crate::safari::types::opt_view(stored_title), body@, id@),
{
    match stored_title {
        Some(t) => {
            let tt = trim_chars(chars_of(t).as_slice());
            if tt.len() > 0 {
                return string_of(tt.as_slice());
            }
        },
        None => {},
    }
    match first_nonblank_line(body) {
        Some(line) => line,
        None => {
            let mut s = String::from_str("Sticky ");
            let p = id_prefix(chars_of(id).as_slice());
            crate::text::push_chars(&mut s, p.as_slice());
            s
        },
    }
}

/// A window frame `{{x, y}, {width, height}}` moved 24 points right and 24
/// down (so `y` less 24); a frame of another form stays as it is.
pub open spec fn spec_offset_frame(frame: Seq<char>) -> Seq<char> {
    if !(frame.len() >= 4 && starts_with(frame, "{{"@) && crate::text::ends_with(frame.skip(2), "}}"@)) {
        frame
    } else {
        let inner = frame.subrange(2, frame.len() - 2);
        match split_once(inner, "}, {"@) {
            None => frame,
            Some((position, size)) => match (split_once(position, ", "@), split_once(size, ", "@)) {
                (Some((x, y)), Some((width, height))) => match (parse_i32(x), parse_i32(y)) {
                    (Some(xv), Some(yv)) => "{{"@ + signed_decimal(xv + 24) + ", "@ + signed_decimal(yv - 24) + "}, {"@ + width + ", "@
                        + height + "}}"@,
                    _ => frame,
                },
                _ => frame,
            },
        }
    }
}

/// A frame moved for a new note.
pub fn offset_frame(frame: &str) -> (r: String)
    ensures
        r@ == spec_offset_frame(frame@),
{
    let f = chars_of(frame);
    let open = chars_of("{{");
    let close = chars_of("}}");
    proof {
        reveal_strlit("{{");
        reveal_strlit("}}");
        reveal_strlit("}, {");
        reveal_strlit(", ");
    }
    if !(f.len() >= 4 && starts_with_exec(f.as_slice(), open.as_slice())) {
        return String::from_str(frame);
    }
    let after = slice_chars(f.as_slice(), 2, f.len());
    assert(after@ =~= frame@.skip(2));
    if !ends_with_exec(after.as_slice(), close.as_slice()) {
        return String::from_str(frame);
    }
    let inner = slice_chars(f.as_slice(), 2, f.len() - 2);
    let mid = chars_of("}, {");
    let (position, size) = match split_once_chars(inner.as_slice(), mid.as_slice()) {
        Some(p) => p,
        None => {
            return String::from_str(frame);
        },
    };
    let comma = chars_of(", ");
    let (x, y) = match split_once_chars(position.as_slice(), comma.as_slice()) {
        Some(p) => p,
        None => {
            return String::from_str(frame);
        },
    };
    let (width, height) = match split_once_chars(size.as_slice(), comma.as_slice()) {
        Some(p) => p,
        None => {
            return String::from_str(frame);
        },
    };
    let xv = match parse_i32_chars(x.as_slice()) {
        Some(v) => v,
        None => {
            return String::from_str(frame);
        },
    };
    let yv = match parse_i32_chars(y.as_slice()) {
        Some(v) => v,
        None => {
            return String::from_str(frame);
        },
    };
    let mut s = String::from_str("{{");
    push_signed_decimal(&mut s, xv as i64 + 24);
    s.append(", ");
    push_signed_decimal(&mut s, yv as i64 - 24);
    s.append("}, {");
    crate::text::push_chars(&mut s, width.as_slice());
    s.append(", ");
    crate::text::push_chars(&mut s, height.as_slice());
    s.append("}}");
    s
}

/// The largest `ZOrder` among the entries, 0 when none has one.
pub open spec fn spec_max_z_order(entries: Seq<Map<Seq<char>, i64>>) -> i64
    decreases entries.len(),
{
    if entries.len() == 0 {
        0
    } else {
        let rest = spec_max_z_order(entries.drop_last());
        let ints = entries.last();
        if ints.contains_key("ZOrder"@) && (ints["ZOrder"@] > rest || !has_z_order(entries.drop_last())) {
            ints["ZOrder"@]
        } else {
            rest
        }
    }
}

/// Whether some entry has a `ZOrder`.
pub open spec fn has_z_order(entries: Seq<Map<Seq<char>, i64>>) -> bool {
    exists|i: int| 0 <= i < entries.len() && #[trigger] entries[i].contains_key("ZOrder"@)
}

/// The integer entries of each state.
pub open spec fn entry_integers(entries: Seq<StickyStateEntry>) -> Seq<Map<Seq<char>, i64>> {
    entries.map_values(|e: StickyStateEntry| dict_integers(e.raw))
}

/// The largest `ZOrder` among the notes' window states, 0 when none has one.
pub fn max_z_order(entries: &Vec<StickyStateEntry>) -> (r: i64)
    ensures
        r == spec_max_z_order(entry_integers(entries@)),
{
    let ghost all = entry_integers(entries@);
    let mut best: Option<i64> = None;
    let mut i: usize = 0;
    while i < entries.len()
        invariant
            i <= entries.len(),
            all == entry_integers(entries@),
            best is None <==> !has_z_order(all.take(i as int)),
            best matches Some(b) ==> b == spec_max_z_order(all.take(i as int)),
            best is None ==> spec_max_z_order(all.take(i as int)) == 0,
        decreases entries.len() - i,
    {
        proof {
            assert(all.take(i + 1).drop_last() =~= all.take(i as int));
            assert(all.take(i + 1).last() == dict_integers(entries@[i as int].raw));
        }
        match dict_integer(&entries[i].raw, "ZOrder") {
            Some(z) => {
                proof {
                    assert(all.take(i + 1)[i as int].contains_key("ZOrder"@));
                }
                best = match best {
                    Some(b) => if z > b {
                        Some(z)
                    } else {
                        Some(b)
                    },
                    None => Some(z),
                };
            },
            None => {
                proof {
                    if has_z_order(all.take(i + 1)) {
                        let k = choose|k: int| 0 <= k < i + 1 && #[trigger] all.take(i + 1)[k].contains_key("ZOrder"@);
                        assert(all.take(i as int)[k] == all.take(i + 1)[k]);
                    }
                }
            },
        }
        proof {
            if best is Some && has_z_order(all.take(i as int)) {
            }
            if has_z_order(all.take(i as int)) {
                let k = choose|k: int| 0 <= k < i && #[trigger] all.take(i as int)[k].contains_key("ZOrder"@);
                assert(all.take(i + 1)[k] == all.take(i as int)[k]);
            }
        }
        i = i + 1;
    }
    assert(all.take(entries.len() as int) =~= all);
    match best {
        Some(b) => b,
        None => 0,
    }
}

/// The position of the note `id` among the states.
pub fn find_entry_index(entries: &Vec<StickyStateEntry>, id: &str) -> (r: Result<usize, MacosError>)
    ensures
        match r {
            Ok(i) => i < entries@.len() && entries@[i as int].id@ == id@ && forall|j: int| 0 <= j < i ==> #[trigger] entries@[j].id@ != id@,
            Err(e) => e@ == MacosErrorView::Other("sticky not found: "@ + id@) && forall|j: int| 0 <= j < entries@.len() ==> #[trigger] entries@[j].id@ != id@,
        },
{
    let want = chars_of(id);
    let mut i: usize = 0;
    while i < entries.len()
        invariant
            i <= entries.len(),
            want@ == id@,
            forall|j: int| 0 <= j < i ==> #[trigger] entries@[j].id@ != id@,
        decreases entries.len() - i,
    {
        if chars_eq(chars_of(entries[i].id.as_str()).as_slice(), want.as_slice()) {
            return Ok(i);
        }
        i = i + 1;
    }
    let mut m = String::from_str("sticky not found: ");
    m.append(id);
    Err(MacosError::Other(m))
}

/// The keys the library writes are distinct.
proof fn lemma_keys_distinct()
    ensures
        "UUID"@ != "ExpandedSize"@,
        "UUID"@ != "ExpandFrameY"@,
        "UUID"@ != "Floating"@,
        "UUID"@ != "Frame"@,
        "UUID"@ != "SpellCheckingTypes"@,
        "UUID"@ != "Translucent"@,
        "UUID"@ != "ZOrder"@,
        "UUID"@ != TITLE_KEY@,
        "ExpandedSize"@ != "ExpandFrameY"@,
        "ExpandedSize"@ != "Floating"@,
        "ExpandedSize"@ != "Frame"@,
        "ExpandedSize"@ != "SpellCheckingTypes"@,
        "ExpandedSize"@ != "Translucent"@,
        "ExpandedSize"@ != "ZOrder"@,
        "ExpandedSize"@ != TITLE_KEY@,
        "ExpandFrameY"@ != "Floating"@,
        "ExpandFrameY"@ != "Frame"@,
        "ExpandFrameY"@ != "SpellCheckingTypes"@,
        "ExpandFrameY"@ != "Translucent"@,
        "ExpandFrameY"@ != "ZOrder"@,
        "ExpandFrameY"@ != TITLE_KEY@,
        "Floating"@ != "Frame"@,
        "Floating"@ != "SpellCheckingTypes"@,
        "Floating"@ != "Translucent"@,
        "Floating"@ != "ZOrder"@,
        "Floating"@ != TITLE_KEY@,
        "Frame"@ != "SpellCheckingTypes"@,
        "Frame"@ != "Translucent"@,
        "Frame"@ != "ZOrder"@,
        "Frame"@ != TITLE_KEY@,
        "SpellCheckingTypes"@ != "Translucent"@,
        "SpellCheckingTypes"@ != "ZOrder"@,
        "SpellCheckingTypes"@ != TITLE_KEY@,
        "Translucent"@ != "ZOrder"@,
        "Translucent"@ != TITLE_KEY@,
        "ZOrder"@ != TITLE_KEY@,
{
    reveal_strlit("UUID");
    reveal_strlit("ExpandedSize");
    reveal_strlit("ExpandFrameY");
    reveal_strlit("Floating");
    reveal_strlit("Frame");
    reveal_strlit("SpellCheckingTypes");
    reveal_strlit("Translucent");
    reveal_strlit("ZOrder");
    reveal_strlit("CuewardTitle");
    assert("UUID"@.len() == 4 && "UUID"@[0] == 'U');
    assert("ExpandedSize"@.len() == 12 && "ExpandedSize"@[0] == 'E');
    assert("ExpandFrameY"@.len() == 12 && "ExpandFrameY"@[0] == 'E');
    assert("Floating"@.len() == 8 && "Floating"@[0] == 'F');
    assert("Frame"@.len() == 5 && "Frame"@[0] == 'F');
    assert("SpellCheckingTypes"@.len() == 18 && "SpellCheckingTypes"@[0] == 'S');
    assert("Translucent"@.len() == 11 && "Translucent"@[0] == 'T');
    assert("ZOrder"@.len() == 6 && "ZOrder"@[0] == 'Z');
    assert("CuewardTitle"@.len() == 12 && "CuewardTitle"@[0] == 'C');
    assert("ExpandedSize"@[6] == 'e' && "ExpandFrameY"@[6] == 'F');
}

/// The window state of a new note when there is no note to copy: a default
/// frame and size, on top, with its id and title.
pub fn default_state_entry(id: &str, title: &str) -> (r: StickyStateEntry)
    ensures
        r.id@ == id@,
        dict_strings(r.raw).contains_key("UUID"@) && dict_strings(r.raw)["UUID"@] == id@,
        dict_strings(r.raw).contains_key(TITLE_KEY@) && dict_strings(r.raw)[TITLE_KEY@] == title@,
        dict_strings(r.raw).contains_key("Frame"@) && dict_strings(r.raw)["Frame"@] == "{{200, 900}, {300, 200}}"@,
        dict_strings(r.raw).contains_key("ExpandedSize"@) && dict_strings(r.raw)["ExpandedSize"@] == "{300, 200}"@,
        dict_integers(r.raw).contains_key("ZOrder"@) && dict_integers(r.raw)["ZOrder"@] == 1,
        dict_integers(r.raw).contains_key("ExpandFrameY"@) && dict_integers(r.raw)["ExpandFrameY"@] == 0,
        dict_integers(r.raw).contains_key("Floating"@) && dict_integers(r.raw)["Floating"@] == 0,
        dict_integers(r.raw).contains_key("SpellCheckingTypes"@) && dict_integers(r.raw)["SpellCheckingTypes"@] == 9191,
        dict_integers(r.raw).contains_key("Translucent"@) && dict_integers(r.raw)["Translucent"@] == 0,
{
    proof {
        lemma_keys_distinct();
    }
    let mut raw = dict_new();
    dict_insert_string(&mut raw, "UUID", id);
    dict_insert_string(&mut raw, "ExpandedSize", "{300, 200}");
    dict_insert_integer(&mut raw, "ExpandFrameY", 0);
    dict_insert_integer(&mut raw, "Floating", 0);
    dict_insert_string(&mut raw, "Frame", "{{200, 900}, {300, 200}}");
    dict_insert_integer(&mut raw, "SpellCheckingTypes", 9191);
    dict_insert_integer(&mut raw, "Translucent", 0);
    dict_insert_integer(&mut raw, "ZOrder", 1);
    dict_insert_string(&mut raw, TITLE_KEY, title);
    StickyStateEntry { id: String::from_str(id), raw }
}

/// The entries of `after` and `before` agree off the keys the library sets.
pub open spec fn same_off_keys<V>(after: Map<Seq<char>, V>, before: Map<Seq<char>, V>) -> bool {
    forall|k: Seq<char>| k != "UUID"@ && k != TITLE_KEY@ && k != "ZOrder"@ && k != "Frame"@ ==> {
        &&& (#[trigger] after.contains_key(k)) == before.contains_key(k)
        &&& after.contains_key(k) ==> after[k] == before[k]
    }
}

/// The window state of a new note copied from `template`: its entries with
/// the new id, title and z-order, and its frame moved; with no template, the
/// default state.
pub fn clone_state_entry(template: Option<&StickyStateEntry>, id: &str, title: &str, z_order: i64) -> (r: StickyStateEntry)
    ensures
        r.id@ == id@,
        dict_strings(r.raw).contains_key("UUID"@) && dict_strings(r.raw)["UUID"@] == id@,
        dict_strings(r.raw).contains_key(TITLE_KEY@) && dict_strings(r.raw)[TITLE_KEY@] == title@,
        template is None ==> dict_integers(r.raw).contains_key("ZOrder"@) && dict_integers(r.raw)["ZOrder"@] == 1,
        template matches Some(t) ==> {
            &&& dict_integers(r.raw).contains_key("ZOrder"@) && dict_integers(r.raw)["ZOrder"@] == z_order
            &&& dict_strings(t.raw).contains_key("Frame"@) ==> dict_strings(r.raw).contains_key("Frame"@)
                && dict_strings(r.raw)["Frame"@] == spec_offset_frame(dict_strings(t.raw)["Frame"@])
            &&& same_off_keys(dict_strings(r.raw), dict_strings(t.raw))
            &&& same_off_keys(dict_integers(r.raw), dict_integers(t.raw))
        },
{
    proof {
        lemma_keys_distinct();
    }
    match template {
        Some(t) => {
            let mut raw = dict_clone(&t.raw);
            dict_insert_string(&mut raw, "UUID", id);
            dict_insert_string(&mut raw, TITLE_KEY, title);
            dict_insert_integer(&mut raw, "ZOrder", z_order);
            match dict_string(&raw, "Frame") {
                Some(frame) => {
                    let moved = offset_frame(frame.as_str());
                    dict_insert_string(&mut raw, "Frame", moved.as_str());
                },
                None => {},
            }
            StickyStateEntry { id: String::from_str(id), raw }
        },
        None => default_state_entry(id, title),
    }
}

/// Why `textutil` could not turn a text into RTF: starting it or waiting
/// for it failed, or writing the text to its input failed.
pub enum TextutilFailure {
    Run(String),
    Feed(String),
}

/// What the Stickies operations need from the machine.
pub trait StickiesHost {
    /// The home directory, when `HOME` is set.
    fn home_dir(&mut self) -> Option<String>;

    /// Whether a file or directory exists at `path`.
    fn file_exists(&mut self, path: &str) -> bool;

    /// Reads a property-list file, or returns the reader's message.
    fn read_plist(&mut self, path: &str) -> Result<plist::Value, String>;

    /// Writes a property list as XML, or returns the writer's message.
    fn write_plist_xml(&mut self, path: &str, value: &plist::Value) -> Result<(), String>;

    /// Converts an RTF file to plain text with `textutil`: whether it exited
    /// successfully, its standard output and its standard error; or why it
    /// could not run.
    fn rtf_to_text(&mut self, path: &str) -> Result<(bool, String, String), String>;

    /// Converts plain text to RTF with `textutil`: whether it exited
    /// successfully, its standard output and its standard error; or which
    /// step failed and why.
    fn text_to_rtf(&mut self, text: &str) -> Result<(bool, Vec<u8>, String), TextutilFailure>;

    /// Creates a directory and its parents, or returns the error's message.
    fn create_dir_all(&mut self, dir: &str) -> Result<(), String>;

    /// Writes a file, or returns the error's message.
    fn write_file(&mut self, path: &str, bytes: &Vec<u8>) -> Result<(), String>;

    /// Removes a directory and what it holds, or returns the error's message.
    fn remove_dir_all(&mut self, dir: &str) -> Result<(), String>;
}

/// `dir` and `name` joined by a slash (none added after a trailing one).
pub open spec fn join_path(dir: Seq<char>, name: Seq<char>) -> Seq<char> {
    if dir.len() > 0 && dir.last() == '/' {
        dir + name
    } else {
        dir + "/"@ + name
    }
}

fn join(dir: &str, name: &str) -> (r: String)
    ensures
        r@ == join_path(dir@, name@),
{
    let d = chars_of(dir);
    let mut s = String::from_str(dir);
    if !(d.len() > 0 && d[d.len() - 1] == '/') {
        s.append("/");
    }
    s.append(name);
    s
}

/// The Stickies folder under a home directory.
pub open spec fn spec_stickies_root(home: Seq<char>) -> Seq<char> {
    join_path(home, "Library/Containers/com.apple.Stickies/Data/Library/Stickies"@)
}

/// The folder of a note.
pub open spec fn spec_sticky_dir(root: Seq<char>, id: Seq<char>) -> Seq<char> {
    join_path(root, id + ".rtfd"@)
}

/// The RTF document of a note.
pub open spec fn spec_sticky_rtf_path(root: Seq<char>, id: Seq<char>) -> Seq<char> {
    join_path(spec_sticky_dir(root, id), "TXT.rtf"@)
}

fn sticky_dir(root: &str, id: &str) -> (r: String)
    ensures
        r@ == spec_sticky_dir(root@, id@),
{
    let mut name = String::from_str(id);
    name.append(".rtfd");
    join(root, name.as_str())
}

fn sticky_rtf_path(root: &str, id: &str) -> (r: String)
    ensures
        r@ == spec_sticky_rtf_path(root@, id@),
{
    let dir = sticky_dir(root, id);
    join(dir.as_str(), "TXT.rtf")
}

/// A Stickies session on a host, with the record of the window states read
/// for a change and of those written, in order.
pub struct Stickies<H: StickiesHost> {
    pub host: H,
    pub loads: Ghost<Seq<Seq<StickyStateEntry>>>,
    pub saves: Ghost<Seq<Seq<StickyStateEntry>>>,
    /// The note documents written, in order: each path with its text.
    pub bodies: Ghost<Seq<(Seq<char>, Seq<char>)>>,
    /// The note documents asked to be written, in order, whether or not the
    /// write went through: each path with its text.
    pub body_writes: Ghost<Seq<(Seq<char>, Seq<char>)>>,
    /// The file checks, note texts read and folders removed.
    pub files: Ghost<FileLog>,
}

/// What a session asked of the files, in order: each path checked with
/// whether it was there, each note document read with its text, and each
/// folder removed.
pub struct FileLog {
    pub checks: Seq<(Seq<char>, bool)>,
    pub reads: Seq<(Seq<char>, Seq<char>)>,
    pub removals: Seq<Seq<char>>,
}

/// The states of `entries` that are not of the note `id`, in order.
pub open spec fn entries_without(entries: Seq<StickyStateEntry>, id: Seq<char>) -> Seq<StickyStateEntry>
    decreases entries.len(),
{
    if entries.len() == 0 {
        Seq::empty()
    } else {
        let r = entries_without(entries.drop_last(), id);
        if entries.last().id@ == id {
            r
        } else {
            r.push(entries.last())
        }
    }
}

/// Keeps the states that are not of the note `id`, in order.
pub fn retain_other_entries(entries: Vec<StickyStateEntry>, id: &str) -> (r: Vec<StickyStateEntry>)
    ensures
        r@ == entries_without(entries@, id@),
{
    let want = chars_of(id);
    let ghost all = entries@;
    let mut kept: Vec<StickyStateEntry> = Vec::new();
    let mut rest = entries;
    let ghost mut done: int = 0;
    while rest.len() > 0
        invariant
            0 <= done <= all.len(),
            want@ == id@,
            rest@ == all.skip(done),
            kept@ == entries_without(all.take(done), id@),
        decreases rest.len(),
    {
        let e = rest.remove(0);
        proof {
            assert(e == all[done]);
            assert(rest@ =~= all.skip(done + 1));
            assert(all.take(done + 1).drop_last() =~= all.take(done));
            assert(all.take(done + 1).last() == all[done]);
            done = done + 1;
        }
        let same = chars_eq(chars_of(e.id.as_str()).as_slice(), want.as_slice());
        if !same {
            kept.push(e);
        }
    }
    assert(all.take(done) =~= all);
    kept
}

/// Removing a note's states keeps at most as many as there were.
pub proof fn lemma_entries_without_len(entries: Seq<StickyStateEntry>, id: Seq<char>)
    ensures
        entries_without(entries, id).len() <= entries.len(),
        entries_without(entries, id).len() == entries.len() <==> forall|i: int| 0 <= i < entries.len() ==> #[trigger] entries[i].id@ != id,
    decreases entries.len(),
{
    if entries.len() > 0 {
        lemma_entries_without_len(entries.drop_last(), id);
        let d = entries.drop_last();
        if forall|i: int| 0 <= i < entries.len() ==> #[trigger] entries[i].id@ != id {
            assert forall|i: int| 0 <= i < d.len() implies #[trigger] d[i].id@ != id by {
                assert(d[i] == entries[i]);
            }
        }
        if forall|i: int| 0 <= i < d.len() ==> #[trigger] d[i].id@ != id {
            if entries.last().id@ != id {
                assert forall|i: int| 0 <= i < entries.len() implies #[trigger] entries[i].id@ != id by {
                    if i < d.len() {
                        assert(d[i] == entries[i]);
                    }
                }
            }
        }
    }
}

/// The note ids of window-state items, in order, or the message for the
/// first item that is not a dictionary with a text `UUID`.
pub open spec fn spec_state_ids(es: Seq<Option<Map<Seq<char>, Seq<char>>>>) -> Result<Seq<Seq<char>>, Seq<char>>
    decreases es.len(),
{
    if es.len() == 0 {
        Ok(Seq::empty())
    } else {
        match es[0] {
            None => Err("stickies state entry is not a dictionary"@),
            Some(m) => if !m.contains_key("UUID"@) {
                Err("stickies state entry missing UUID"@)
            } else {
                match spec_state_ids(es.drop_first()) {
                    Ok(ids) => Ok(seq![m["UUID"@]] + ids),
                    Err(e) => Err(e),
                }
            },
        }
    }
}

/// The note ids a window-state value holds, or the message why it holds
/// none: it must be an array of dictionaries, each with a text `UUID`.
pub open spec fn spec_saved_state(v: plist::Value) -> Result<Seq<Seq<char>>, Seq<char>> {
    match value_entries(v) {
        None => Err("stickies state is not an array"@),
        Some(es) => spec_state_ids(es),
    }
}

/// The ids read so far in front of what the rest reads.
pub open spec fn ids_then(acc: Seq<Seq<char>>, r: Result<Seq<Seq<char>>, Seq<char>>) -> Result<Seq<Seq<char>>, Seq<char>> {
    match r {
        Ok(ids) => Ok(acc + ids),
        Err(e) => Err(e),
    }
}

/// The ids of window states.
pub open spec fn entry_ids(entries: Seq<StickyStateEntry>) -> Seq<Seq<char>> {
    entries.map_values(|e: StickyStateEntry| e.id@)
}

/// Reads the window states from a property-list value: an array of
/// dictionaries, each with its note's id under `UUID`.
pub fn parse_saved_state_value(value: plist::Value) -> (r: Result<Vec<StickyStateEntry>, MacosError>)
    ensures
        r matches Ok(entries) ==> forall|i: int| 0 <= i < entries@.len() ==> #[trigger] dict_strings(entries@[i].raw).contains_key("UUID"@)
            && dict_strings(entries@[i].raw)["UUID"@] == entries@[i].id@,
        match spec_saved_state(value) {
            Ok(ids) => r matches Ok(entries) && entry_ids(entries@) == ids && value_entries(value) == Some(
                entries@.map_values(|e: StickyStateEntry| Some(dict_strings(e.raw))),
            ),
            Err(m) => r matches Err(e) && e@ == MacosErrorView::Other(m),
        },
{
    let items = match value_into_array(value) {
        Some(items) => items,
        None => {
            return Err(MacosError::Other(String::from_str("stickies state is not an array")));
        },
    };
    let ghost es = entries_of(items@);
    assert(spec_saved_state(value) == spec_state_ids(es));
    let mut parsed: Vec<StickyStateEntry> = Vec::new();
    let mut rest = items;
    let ghost mut done: int = 0;
    proof {
        assert(es.skip(0) =~= es);
        assert(entry_ids(parsed@) =~= Seq::<Seq<char>>::empty());
        match spec_state_ids(es) {
            Ok(ids) => {
                assert(Seq::<Seq<char>>::empty() + ids =~= ids);
            },
            Err(_) => {},
        }
    }
    while rest.len() > 0
        invariant
            spec_saved_state(value) == spec_state_ids(es),
            0 <= done <= es.len(),
            rest@.len() == es.len() - done,
            forall|k: int| 0 <= k < rest@.len() ==> value_entry(#[trigger] rest@[k]) == es[done + k],
            parsed@.len() == done,
            forall|k: int| 0 <= k < done ==> Some(dict_strings(#[trigger] parsed@[k].raw)) == es[k],
            spec_state_ids(es) == ids_then(entry_ids(parsed@), spec_state_ids(es.skip(done))),
            forall|i: int| 0 <= i < parsed@.len() ==> #[trigger] dict_strings(parsed@[i].raw).contains_key("UUID"@)
                && dict_strings(parsed@[i].raw)["UUID"@] == parsed@[i].id@,
        decreases rest.len(),
    {
        let ghost before_rest = rest@;
        let item = rest.remove(0);
        proof {
            assert(value_entry(before_rest[0]) == es[done]);
            assert(es.skip(done)[0] == es[done]);
            assert(es.skip(done).drop_first() =~= es.skip(done + 1));
            assert forall|k: int| 0 <= k < rest@.len() implies value_entry(#[trigger] rest@[k]) == es[done + 1 + k] by {
                assert(rest@[k] == before_rest[k + 1]);
            }
        }
        let raw = match value_into_dictionary(item) {
            Some(d) => d,
            None => {
                proof {
                    assert(item == before_rest[0]);
                    assert(es.skip(done)[0] is None);
                    assert(spec_state_ids(es.skip(done)) == Err::<Seq<Seq<char>>, Seq<char>>("stickies state entry is not a dictionary"@));
                }
                return Err(MacosError::Other(String::from_str("stickies state entry is not a dictionary")));
            },
        };
        let id = match dict_string(&raw, "UUID") {
            Some(id) => id,
            None => {
                proof {
                    assert(item == before_rest[0]);
                    assert(es.skip(done)[0] == Some(dict_strings(raw)));
                    assert(spec_state_ids(es.skip(done)) == Err::<Seq<Seq<char>>, Seq<char>>("stickies state entry missing UUID"@));
                }
                return Err(MacosError::Other(String::from_str("stickies state entry missing UUID")));
            },
        };
        let ghost prev = parsed@;
        parsed.push(StickyStateEntry { id, raw });
        proof {
            assert(entry_ids(parsed@) =~= entry_ids(prev).push(parsed@[done].id@));
            match spec_state_ids(es.skip(done + 1)) {
                Ok(ids) => {
                    assert(entry_ids(prev) + (seq![parsed@[done].id@] + ids) =~= entry_ids(parsed@) + ids);
                },
                Err(_) => {},
            }
            assert forall|k: int| 0 <= k < done + 1 implies Some(dict_strings(#[trigger] parsed@[k].raw)) == es[k] by {
                if k < done {
                    assert(parsed@[k] == prev[k]);
                }
            }
            done = done + 1;
        }
    }
    proof {
        assert(es.skip(done) =~= Seq::<Option<Map<Seq<char>, Seq<char>>>>::empty());
        assert(entry_ids(parsed@) + Seq::<Seq<char>>::empty() =~= entry_ids(parsed@));
        assert(es =~= parsed@.map_values(|e: StickyStateEntry| Some(dict_strings(e.raw))));
    }
    Ok(parsed)
}

/// The note ids a window-state file gives, for what reading it gave: the
/// property list, or the reader's message.
pub open spec fn spec_read_state(reply: Result<plist::Value, Seq<char>>) -> Result<Seq<Seq<char>>, Seq<char>> {
    match reply {
        Ok(v) => spec_saved_state(v),
        Err(m) => Err("failed to decode stickies state: "@ + m),
    }
}

/// The note ids loaded for a change, for what the file system gave: no
/// window-state file (no notes), or what reading it gave.
pub open spec fn spec_load_state(reply: Option<Result<plist::Value, Seq<char>>>) -> Result<Seq<Seq<char>>, Seq<char>> {
    match reply {
        None => Ok(Seq::empty()),
        Some(x) => spec_read_state(x),
    }
}

/// Whether a result of window states is the outcome given: the states with
/// those ids, or the error with that message.
pub open spec fn state_outcome(r: Result<Vec<StickyStateEntry>, MacosError>, o: Result<Seq<Seq<char>>, Seq<char>>) -> bool {
    match o {
        Ok(ids) => r matches Ok(es) && entry_ids(es@) == ids,
        Err(m) => r matches Err(e) && e@ == MacosErrorView::Other(m),
    }
}

/// The text of a note's document, for what `textutil` gave: whether it
/// succeeded, its output and its error output; or why it could not run.
pub open spec fn spec_read_body(reply: Result<(bool, Seq<char>, Seq<char>), Seq<char>>) -> Result<Seq<char>, Seq<char>> {
    match reply {
        Ok((true, out, _)) => Ok(out),
        Ok((false, _, err)) => Err("textutil failed: "@ + err),
        Err(m) => Err("textutil: "@ + m),
    }
}

/// Whether a result of text is the outcome given.
pub open spec fn text_outcome(r: Result<String, MacosError>, o: Result<Seq<char>, Seq<char>>) -> bool {
    match o {
        Ok(t) => r matches Ok(s) && s@ == t,
        Err(m) => r matches Err(e) && e@ == MacosErrorView::Other(m),
    }
}

/// Whether an error is one that writing a note's document gives: its folder
/// could not be made, `textutil` could not run, be fed or convert, or the
/// document could not be written.
pub open spec fn write_body_failure(e: MacosErrorView) -> bool {
    e matches MacosErrorView::Other(m) && (starts_with(m, "failed to create sticky dir: "@) || starts_with(m, "textutil: "@)
        || starts_with(m, "failed to write sticky body: "@) || starts_with(m, "textutil failed: "@) || starts_with(
        m,
        "failed to write sticky rtf: "@,
    ))
}

/// Whether a message is one that reading the window-state file gives.
pub open spec fn state_failure(m: Seq<char>) -> bool {
    exists|reply: Result<plist::Value, Seq<char>>| #[trigger] spec_read_state(reply) == Err::<Seq<Seq<char>>, Seq<char>>(m)
}

/// Whether a message is one that reading a note's document gives.
pub open spec fn body_read_failure(m: Seq<char>) -> bool {
    exists|reply: Result<(bool, Seq<char>, Seq<char>), Seq<char>>| #[trigger] spec_read_body(reply) == Err::<Seq<char>, Seq<char>>(m)
}

/// Whether an error is one that listing the notes gives: no home folder,
/// no window-state file, a window-state file that does not read, or a note
/// document that does not convert.
pub open spec fn list_failure(e: MacosErrorView) -> bool {
    e matches MacosErrorView::Other(m) && (m == "HOME environment variable must be set"@ || m == "stickies state not found"@
        || state_failure(m) || body_read_failure(m))
}

/// Whether an error is one that creating a note gives: no home folder, a
/// window-state file that does not read, a document that cannot be written,
/// or window states that cannot be saved.
pub open spec fn create_failure(e: MacosErrorView) -> bool {
    ||| e == MacosErrorView::Other("HOME environment variable must be set"@)
    ||| e matches MacosErrorView::Other(m) && state_failure(m)
    ||| write_body_failure(e)
    ||| e matches MacosErrorView::Other(m) && starts_with(m, "failed to write stickies state: "@)
}

/// A message made of a prefix and a detail starts with the prefix.
pub proof fn lemma_starts_with_prefix(p: Seq<char>, m: Seq<char>)
    ensures
        starts_with(p + m, p),
{
    assert((p + m).subrange(0, p.len() as int) =~= p);
}

fn prefixed_error(prefix: &str, detail: &str) -> (e: MacosError)
    ensures
        e@ == MacosErrorView::Other(prefix@ + detail@),
        starts_with(prefix@ + detail@, prefix@),
{
    proof {
        lemma_starts_with_prefix(prefix@, detail@);
    }
    let mut msg = String::from_str(prefix);
    msg.append(detail);
    MacosError::Other(msg)
}

impl<H: StickiesHost> Stickies<H> {
    /// A session on `host` that has read and written nothing yet.
    pub fn new(host: H) -> (s: Self)
        ensures
            s.host == host,
            s.loads@ == Seq::<Seq<StickyStateEntry>>::empty(),
            s.saves@ == Seq::<Seq<StickyStateEntry>>::empty(),
            s.bodies@ == Seq::<(Seq<char>, Seq<char>)>::empty(),
            s.body_writes@ == Seq::<(Seq<char>, Seq<char>)>::empty(),
            s.files@.checks == Seq::<(Seq<char>, bool)>::empty(),
            s.files@.reads == Seq::<(Seq<char>, Seq<char>)>::empty(),
            s.files@.removals == Seq::<Seq<char>>::empty(),
    {
        Stickies {
            host,
            loads: Ghost(Seq::empty()),
            saves: Ghost(Seq::empty()),
            bodies: Ghost(Seq::empty()),
            body_writes: Ghost(Seq::empty()),
            files: Ghost(FileLog { checks: Seq::empty(), reads: Seq::empty(), removals: Seq::empty() }),
        }
    }

    /// Whether `path` exists; the check is noted.
    fn check_exists(&mut self, path: &str) -> (r: bool)
        ensures
            final(self).loads == old(self).loads,
            final(self).saves == old(self).saves,
            final(self).bodies == old(self).bodies,
            final(self).body_writes == old(self).body_writes,
            final(self).files@.checks == old(self).files@.checks.push((path@, r)),
            final(self).files@.reads == old(self).files@.reads,
            final(self).files@.removals == old(self).files@.removals,
    {
        let r = self.host.file_exists(path);
        self.files = Ghost(FileLog { checks: self.files@.checks.push((path@, r)), reads: self.files@.reads, removals: self.files@.removals });
        r
    }

    /// Removes the folder `dir` with what it holds; a removal is noted.
    fn remove_dir(&mut self, dir: &str) -> (r: Result<(), String>)
        ensures
            final(self).loads == old(self).loads,
            final(self).saves == old(self).saves,
            final(self).bodies == old(self).bodies,
            final(self).body_writes == old(self).body_writes,
            final(self).files@.checks == old(self).files@.checks,
            final(self).files@.reads == old(self).files@.reads,
            match r {
                Ok(()) => final(self).files@.removals == old(self).files@.removals.push(dir@),
                Err(_) => final(self).files@.removals == old(self).files@.removals,
            },
    {
        let r = self.host.remove_dir_all(dir);
        if r.is_ok() {
            self.files = Ghost(FileLog { checks: self.files@.checks, reads: self.files@.reads, removals: self.files@.removals.push(dir@) });
        }
        r
    }

    /// The Stickies folder of the user.
    pub fn root_dir(&mut self) -> (r: Result<String, MacosError>)
        ensures
            final(self).loads == old(self).loads,
            final(self).saves == old(self).saves,
            final(self).bodies == old(self).bodies,
            final(self).body_writes == old(self).body_writes,
            final(self).files == old(self).files,
            r matches Err(e) ==> e@ == MacosErrorView::Other("HOME environment variable must be set"@),
            r matches Ok(root) ==> exists|home: Seq<char>| root@ == #[trigger] spec_stickies_root(home),
    {
        match self.host.home_dir() {
            Some(home) => {
                let root = join(home.as_str(), "Library/Containers/com.apple.Stickies/Data/Library/Stickies");
                assert(root@ == spec_stickies_root(home@));
                Ok(root)
            },
            None => Err(MacosError::Other(String::from_str("HOME environment variable must be set"))),
        }
    }

    fn parse_saved_state(&mut self, path: &str) -> (r: Result<Vec<StickyStateEntry>, MacosError>)
        ensures
            final(self).loads == old(self).loads,
            final(self).saves == old(self).saves,
            final(self).bodies == old(self).bodies,
            final(self).body_writes == old(self).body_writes,
            final(self).files == old(self).files,
            r matches Ok(entries) ==> forall|i: int| 0 <= i < entries@.len() ==> #[trigger] dict_strings(entries@[i].raw).contains_key("UUID"@)
                && dict_strings(entries@[i].raw)["UUID"@] == entries@[i].id@,
            exists|reply: Result<plist::Value, Seq<char>>| state_outcome(r, #[trigger] spec_read_state(reply)),
    {
        match self.host.read_plist(path) {
            Ok(value) => {
                let ghost v = value;
                let r = parse_saved_state_value(value);
                assert(state_outcome(r, spec_read_state(Ok(v))));
                r
            },
            Err(m) => {
                let mut msg = String::from_str("failed to decode stickies state: ");
                msg.append(m.as_str());
                let r = Err(MacosError::Other(msg));
                assert(state_outcome(r, spec_read_state(Err(m@))));
                r
            },
        }
    }

    fn load_for_mutation(&mut self, root: &str) -> (r: Result<Vec<StickyStateEntry>, MacosError>)
        ensures
            final(self).saves == old(self).saves,
            final(self).bodies == old(self).bodies,
            final(self).body_writes == old(self).body_writes,
            final(self).files == old(self).files,
            match r {
                Ok(entries) => final(self).loads@ == old(self).loads@.push(entries@),
                Err(_) => final(self).loads == old(self).loads,
            },
            exists|reply: Option<Result<plist::Value, Seq<char>>>| state_outcome(r, #[trigger] spec_load_state(reply)),
    {
        let path = join(root, SAVED_STATE_FILENAME);
        if !self.host.file_exists(path.as_str()) {
            let none: Vec<StickyStateEntry> = Vec::new();
            self.loads = Ghost(self.loads@.push(none@));
            let r = Ok(none);
            assert(entry_ids(none@) =~= Seq::<Seq<char>>::empty());
            assert(state_outcome(r, spec_load_state(None)));
            return r;
        }
        let r = self.parse_saved_state(path.as_str());
        let ghost reply = choose|reply: Result<plist::Value, Seq<char>>| state_outcome(r, #[trigger] spec_read_state(reply));
        assert(state_outcome(r, spec_load_state(Some(reply))));
        match r {
            Ok(entries) => {
                self.loads = Ghost(self.loads@.push(entries@));
                Ok(entries)
            },
            Err(e) => Err(e),
        }
    }

    fn write_saved_state(&mut self, root: &str, entries: &Vec<StickyStateEntry>) -> (r: Result<(), MacosError>)
        ensures
            final(self).loads == old(self).loads,
            final(self).saves@ == old(self).saves@.push(entries@),
            final(self).bodies == old(self).bodies,
            final(self).body_writes == old(self).body_writes,
            final(self).files == old(self).files,
            r matches Err(e) ==> e@ matches MacosErrorView::Other(m) && starts_with(m, "failed to write stickies state: "@),
    {
        self.saves = Ghost(self.saves@.push(entries@));
        let mut dicts: Vec<plist::Dictionary> = Vec::new();
        let mut i: usize = 0;
        while i < entries.len()
            invariant
                i <= entries.len(),
            decreases entries.len() - i,
        {
            dicts.push(dict_clone(&entries[i].raw));
            i = i + 1;
        }
        let value = dictionaries_value(dicts);
        let path = join(root, SAVED_STATE_FILENAME);
        match self.host.write_plist_xml(path.as_str(), &value) {
            Ok(()) => Ok(()),
            Err(m) => Err(prefixed_error("failed to write stickies state: ", m.as_str())),
        }
    }

    fn read_body(&mut self, path: &str) -> (r: Result<String, MacosError>)
        ensures
            final(self).loads == old(self).loads,
            final(self).saves == old(self).saves,
            final(self).bodies == old(self).bodies,
            final(self).body_writes == old(self).body_writes,
            exists|reply: Result<(bool, Seq<char>, Seq<char>), Seq<char>>| text_outcome(r, #[trigger] spec_read_body(reply)),
            final(self).files@.checks == old(self).files@.checks,
            final(self).files@.removals == old(self).files@.removals,
            match r {
                Ok(text) => final(self).files@.reads == old(self).files@.reads.push((path@, text@)),
                Err(_) => final(self).files@.reads == old(self).files@.reads,
            },
    {
        match self.host.rtf_to_text(path) {
            Ok((success, stdout, stderr)) => {
                let ghost reply = Ok::<(bool, Seq<char>, Seq<char>), Seq<char>>((success, stdout@, stderr@));
                if success {
                    self.files = Ghost(FileLog { checks: self.files@.checks, reads: self.files@.reads.push((path@, stdout@)), removals: self.files@.removals });
                    let r = Ok(stdout);
                    assert(text_outcome(r, spec_read_body(reply)));
                    r
                } else {
                    let mut msg = String::from_str("textutil failed: ");
                    msg.append(stderr.as_str());
                    let r = Err(MacosError::Other(msg));
                    assert(text_outcome(r, spec_read_body(reply)));
                    r
                }
            },
            Err(m) => {
                let mut msg = String::from_str("textutil: ");
                msg.append(m.as_str());
                let r = Err(MacosError::Other(msg));
                assert(text_outcome(r, spec_read_body(Err(m@))));
                r
            },
        }
    }

    fn write_body(&mut self, dir: &str, path: &str, body: &str) -> (r: Result<(), MacosError>)
        ensures
            final(self).loads == old(self).loads,
            final(self).saves == old(self).saves,
            final(self).files == old(self).files,
            match r {
                Ok(()) => final(self).bodies@ == old(self).bodies@.push((path@, body@)),
                Err(e) => final(self).bodies == old(self).bodies && write_body_failure(e@),
            },
            final(self).body_writes@ == old(self).body_writes@.push((path@, body@)),
    {
        proof {
            self.body_writes@ = self.body_writes@.push((path@, body@));
        }
        match self.host.create_dir_all(dir) {
            Ok(()) => {},
            Err(m) => {
                return Err(prefixed_error("failed to create sticky dir: ", m.as_str()));
            },
        }
        let (success, rtf, stderr) = match self.host.text_to_rtf(body) {
            Ok(o) => o,
            Err(TextutilFailure::Run(m)) => {
                return Err(prefixed_error("textutil: ", m.as_str()));
            },
            Err(TextutilFailure::Feed(m)) => {
                return Err(prefixed_error("failed to write sticky body: ", m.as_str()));
            },
        };
        if !success {
            return Err(prefixed_error("textutil failed: ", stderr.as_str()));
        }
        match self.host.write_file(path, &rtf) {
            Ok(()) => {
                self.bodies = Ghost(self.bodies@.push((path@, body@)));
                Ok(())
            },
            Err(m) => Err(prefixed_error("failed to write sticky rtf: ", m.as_str())),
        }
    }
}

/// Whether a note's title is the one derived from some stored title, its
/// text and its id.
pub open spec fn titled_from(note: StickiesNote) -> bool {
    exists|stored: Option<Seq<char>>| note.title@ == spec_derive_sticky_title(stored, note.body@, note.id@)
}

/// Lists the notes whose document exists, in the order of their window
/// states, each titled by `derive_sticky_title`.
pub fn list_stickies<H: StickiesHost>(stickies: &mut Stickies<H>) -> (r: Result<Vec<StickiesNote>, MacosError>)
    ensures
        r matches Ok(notes) ==> forall|i: int| 0 <= i < notes@.len() ==> titled_from(#[trigger] notes@[i]),
        r matches Err(e) ==> list_failure(e@),
{
    let root = match stickies.root_dir() {
        Ok(r) => r,
        Err(e) => {
            return Err(e);
        },
    };
    let state_path = join(root.as_str(), SAVED_STATE_FILENAME);
    if !stickies.host.file_exists(state_path.as_str()) {
        return Err(MacosError::Other(String::from_str("stickies state not found")));
    }
    let parsed = stickies.parse_saved_state(state_path.as_str());
    let entries = match parsed {
        Ok(e) => e,
        Err(e) => {
            proof {
                let reply = choose|reply: Result<plist::Value, Seq<char>>| state_outcome(parsed, #[trigger] spec_read_state(reply));
                assert(spec_read_state(reply) is Err);
            }
            return Err(e);
        },
    };
    let mut notes: Vec<StickiesNote> = Vec::new();
    let mut i: usize = 0;
    while i < entries.len()
        invariant
            i <= entries.len(),
            forall|k: int| 0 <= k < notes@.len() ==> titled_from(#[trigger] notes@[k]),
        decreases entries.len() - i,
    {
        let id = entries[i].id.as_str();
        let body_path = sticky_rtf_path(root.as_str(), id);
        if stickies.host.file_exists(body_path.as_str()) {
            let read = stickies.read_body(body_path.as_str());
            let body = match read {
                Ok(b) => b,
                Err(e) => {
                    proof {
                        let reply = choose|reply: Result<(bool, Seq<char>, Seq<char>), Seq<char>>| text_outcome(read, #[trigger] spec_read_body(reply));
                        assert(spec_read_body(reply) is Err);
                    }
                    return Err(e);
                },
            };
            let stored = dict_string(&entries[i].raw, TITLE_KEY);
            let title = match &stored {
                Some(t) => derive_sticky_title(Some(t.as_str()), body.as_str(), id),
                None => derive_sticky_title(None, body.as_str(), id),
            };
            let ghost stored_view = crate::safari::types::opt_string(stored);
            assert(title@ == spec_derive_sticky_title(stored_view, body@, id@));
            let note = StickiesNote { id: String::from_str(id), title, body };
            assert(note.title@ == spec_derive_sticky_title(stored_view, note.body@, note.id@));
            assert(titled_from(note));
            let ghost prev = notes@;
            notes.push(note);
            assert forall|k: int| 0 <= k < notes@.len() implies titled_from(#[trigger] notes@[k]) by {
                if k < prev.len() {
                    assert(notes@[k] == prev[k]);
                }
            }
        }
        i = i + 1;
    }
    Ok(notes)
}

/// A character with ASCII lower-case letters made upper-case.
pub open spec fn ascii_upper(c: char) -> char {
    if 'a' <= c && c <= 'z' {
        ((c as u32) - 32) as char
    } else {
        c
    }
}

/// Upper-cases ASCII letters.
pub(crate) fn ascii_uppercase(s: &str) -> (r: String)
    ensures
        r@ == s@.map_values(|c: char| ascii_upper(c)),
{
    let v = chars_of(s);
    let mut out = String::new();
    let mut i: usize = 0;
    while i < v.len()
        invariant
            i <= v.len(),
            out@ == v@.take(i as int).map_values(|c: char| ascii_upper(c)),
        decreases v.len() - i,
    {
        let c = v[i];
        let u = if 'a' <= c && c <= 'z' {
            ((c as u32) - 32) as u8 as char
        } else {
            c
        };
        crate::text::push_char(&mut out, u);
        proof {
            if 'a' <= c && c <= 'z' {
                assert(((c as u32) - 32) as u8 as char == ((c as u32) - 32) as char);
            }
            assert(v@.take(i + 1).map_values(|c: char| ascii_upper(c))
                =~= v@.take(i as int).map_values(|c: char| ascii_upper(c)).push(ascii_upper(c)));
        }
        i = i + 1;
    }
    assert(v@.take(v@.len() as int) =~= v@);
    out
}

/// Creates a note with `title` and `body`, on top of the others and offset
/// from the first, under a new random id.
pub fn create_sticky<H: StickiesHost>(stickies: &mut Stickies<H>, title: &str, body: &str) -> (r: Result<StickiesNote, MacosError>)
    ensures
        r matches Ok(n) ==> n.title@ == title@ && n.body@ == body@,
        match r {
            Ok(n) => {
                let saved = final(stickies).saves@.last();
                &&& final(stickies).loads@.len() == old(stickies).loads@.len() + 1
                &&& final(stickies).saves@.len() == old(stickies).saves@.len() + 1
                &&& saved == final(stickies).loads@.last().push(saved.last())
                &&& saved.last().id@ == n.id@
            },
            Err(_) => true,
        },
        r matches Err(e) ==> create_failure(e@),
        r matches Ok(n) ==> exists|home: Seq<char>|
            final(stickies).bodies@ == old(stickies).bodies@.push(
                (spec_sticky_rtf_path(#[trigger] spec_stickies_root(home), n.id@), body@),
            ),
{
    let root = match stickies.root_dir() {
        Ok(r) => r,
        Err(e) => {
            return Err(e);
        },
    };
    let ghost home = choose|home: Seq<char>| root@ == #[trigger] spec_stickies_root(home);
    let raw_id = new_uuid();
    let id = ascii_uppercase(raw_id.as_str());
    let loaded = stickies.load_for_mutation(root.as_str());
    let mut entries = match loaded {
        Ok(e) => e,
        Err(e) => {
            proof {
                let reply = choose|reply: Option<Result<plist::Value, Seq<char>>>| state_outcome(loaded, #[trigger] spec_load_state(reply));
                assert(spec_load_state(reply) is Err);
                let x = reply->0;
                assert(spec_read_state(x) is Err);
                assert(state_failure(e@->Other_0));
            }
            return Err(e);
        },
    };
    let top = max_z_order(&entries);
    let next_z_order: i64 = if top == i64::MAX {
        top
    } else {
        top + 1
    };
    let template = if entries.len() > 0 {
        Some(StickyStateEntry { id: entries[0].id.clone(), raw: dict_clone(&entries[0].raw) })
    } else {
        None
    };
    let entry = clone_state_entry(template.as_ref(), id.as_str(), title, next_z_order);
    entries.push(entry);
    let dir = sticky_dir(root.as_str(), id.as_str());
    let body_path = sticky_rtf_path(root.as_str(), id.as_str());
    match stickies.write_body(dir.as_str(), body_path.as_str(), body) {
        Ok(()) => {},
        Err(e) => {
            return Err(e);
        },
    }
    let ghost written = stickies.bodies@;
    assert(written == old(stickies).bodies@.push((spec_sticky_rtf_path(spec_stickies_root(home), id@), body@)));
    match stickies.write_saved_state(root.as_str(), &entries) {
        Ok(()) => {},
        Err(e) => {
            let _ = stickies.host.remove_dir_all(dir.as_str());
            return Err(e);
        },
    }
    Ok(StickiesNote { id, title: String::from_str(title), body: String::from_str(body) })
}

/// Changes the title, the text, or both of the note `id`; the state is
/// restored when it cannot be saved.
pub fn update_sticky<H: StickiesHost>(stickies: &mut Stickies<H>, id: &str, title: Option<&str>, body: Option<&str>) -> (r: Result<StickiesNote, MacosError>)
    ensures
        r is Ok ==> ({
            let loaded = final(stickies).loads@.last();
            let saved = final(stickies).saves@.last();
            &&& final(stickies).loads@.len() == old(stickies).loads@.len() + 1
            &&& final(stickies).saves@.len() == old(stickies).saves@.len() + 1
            &&& exists|i: int| 0 <= i < loaded.len() && #[trigger] loaded[i].id@ == id@
                && saved == loaded.update(i, saved[i]) && saved[i].id@ == loaded[i].id@
        }),
        (title is None && body is None) ==> (r matches Err(e) && e@ == MacosErrorView::Other("no sticky updates specified"@))
            && *final(stickies) == *old(stickies),
        r matches Ok(n) ==> {
            &&& n.id@ == id@
            &&& body matches Some(b) ==> n.body@ == b@
            &&& title matches Some(t) ==> n.title@ == t@
        },
        final(stickies).loads@.len() == old(stickies).loads@.len() + 1 && (forall|i: int|
            0 <= i < final(stickies).loads@.last().len() ==> (#[trigger] final(stickies).loads@.last()[i]).id@ != id@) ==> (r matches Err(e) && e@ == MacosErrorView::Other(
            "sticky not found: "@ + id@,
        )) && final(stickies).saves == old(stickies).saves && final(stickies).bodies == old(stickies).bodies,
        final(stickies).files@.checks.len() > old(stickies).files@.checks.len() ==> ({
            let checked = final(stickies).files@.checks.last();
            &&& final(stickies).files@.checks.len() == old(stickies).files@.checks.len() + 1
            &&& exists|home: Seq<char>| checked.0 == spec_sticky_rtf_path(#[trigger] spec_stickies_root(home), id@)
            &&& !checked.1 ==> (r matches Err(e) && e@ == MacosErrorView::Other("sticky body not found: "@ + id@))
                && final(stickies).saves == old(stickies).saves && final(stickies).bodies == old(stickies).bodies
        }),
        r is Ok || final(stickies).saves@.len() > old(stickies).saves@.len() ==> ({
            let path = final(stickies).files@.checks.last().0;
            let current = final(stickies).files@.reads.last().1;
            &&& final(stickies).files@.checks.len() == old(stickies).files@.checks.len() + 1
            &&& final(stickies).files@.checks.last().1
            &&& final(stickies).files@.reads.len() == old(stickies).files@.reads.len() + 1
            &&& final(stickies).files@.reads.last().0 == path
            &&& body is None ==> (r matches Ok(n) ==> n.body@ == current) && final(stickies).bodies == old(stickies).bodies
            &&& r is Ok ==> (body matches Some(b) ==> final(stickies).bodies@ == old(stickies).bodies@.push((path, b@)))
            &&& body is None ==> final(stickies).body_writes == old(stickies).body_writes
            &&& r is Ok ==> (body matches Some(b) ==> final(stickies).body_writes@ == old(stickies).body_writes@.push((path, b@)))
            &&& r is Err ==> (body matches Some(b) ==> final(stickies).body_writes@ == old(stickies).body_writes@.push((path, b@)).push(
                (path, current),
            ))
            &&& r is Err ==> (body matches Some(b) ==> {
                &&& old(stickies).bodies@.len() + 1 <= final(stickies).bodies@.len() <= old(stickies).bodies@.len() + 2
                &&& final(stickies).bodies@[old(stickies).bodies@.len() as int] == (path, b@)
                &&& final(stickies).bodies@.len() == old(stickies).bodies@.len() + 2 ==> final(stickies).bodies@.last() == (path, current)
            })
        }),
{
    match ensure_update_fields(title, body) {
        Ok(()) => {},
        Err(e) => {
            return Err(e);
        },
    }
    let root = match stickies.root_dir() {
        Ok(r) => r,
        Err(e) => {
            return Err(e);
        },
    };
    let mut entries = match stickies.load_for_mutation(root.as_str()) {
        Ok(e) => e,
        Err(e) => {
            return Err(e);
        },
    };
    let ghost loaded = entries@;
    let ghost after_load = stickies.loads@;
    let index = match find_entry_index(&entries, id) {
        Ok(i) => i,
        Err(e) => {
            return Err(e);
        },
    };
    let dir = sticky_dir(root.as_str(), id);
    let body_path = sticky_rtf_path(root.as_str(), id);
    let ghost files0 = stickies.files@;
    assert(stickies.loads@.last()[index as int].id@ == id@);
    if !stickies.check_exists(body_path.as_str()) {
        assert(stickies.loads@.last()[index as int].id@ == id@);
        let mut m = String::from_str("sticky body not found: ");
        m.append(id);
        return Err(MacosError::Other(m));
    }
    let current_body = match stickies.read_body(body_path.as_str()) {
        Ok(b) => b,
        Err(e) => {
            assert(stickies.loads@.last()[index as int].id@ == id@);
            return Err(e);
        },
    };
    let ghost bodies0 = stickies.bodies@;
    let next_body = match body {
        Some(b) => String::from_str(b),
        None => current_body.clone(),
    };
    let mut raw = dict_clone(&entries[index].raw);
    let entry_id = entries[index].id.clone();
    match title {
        Some(t) => {
            dict_insert_string(&mut raw, TITLE_KEY, t);
        },
        None => {},
    }
    let stored_title = dict_string(&raw, TITLE_KEY);
    entries.set(index, StickyStateEntry { id: entry_id, raw });
    assert(entries@ =~= loaded.update(index as int, entries@[index as int]));
    if body.is_some() {
        match stickies.write_body(dir.as_str(), body_path.as_str(), next_body.as_str()) {
            Ok(()) => {},
            Err(e) => {
                return Err(e);
            },
        }
    }
    let ghost bodies1 = stickies.bodies@;
    match stickies.write_saved_state(root.as_str(), &entries) {
        Ok(()) => {},
        Err(e) => {
            if body.is_some() {
                let _ = stickies.write_body(dir.as_str(), body_path.as_str(), current_body.as_str());
                proof {
                    if stickies.bodies@.len() == old(stickies).bodies@.len() + 2 {
                        assert(stickies.bodies@.drop_last() == bodies1);
                    }
                }
            }
            return Err(e);
        },
    }
    proof {
        assert(stickies.loads@ == after_load);
        assert(stickies.saves@.last() == entries@);
        assert(loaded[index as int].id@ == id@);
        let saved = stickies.saves@.last();
        assert(saved[index as int].id@ == loaded[index as int].id@);
        assert(saved == loaded.update(index as int, saved[index as int]));
        assert(stickies.loads@.last() == loaded);
        assert(stickies.loads@.len() == old(stickies).loads@.len() + 1);
        assert(stickies.saves@.len() == old(stickies).saves@.len() + 1);
    }
    let next_title = match stored_title {
        Some(t) => t,
        None => derive_sticky_title(None, next_body.as_str(), id),
    };
    Ok(StickiesNote { id: String::from_str(id), title: next_title, body: next_body })
}

/// Deletes the note `id`: its window state, then its folder.
#[verifier::spinoff_prover]
pub fn delete_sticky<H: StickiesHost>(stickies: &mut Stickies<H>, id: &str) -> (r: Result<(), MacosError>)
    ensures
        final(stickies).saves@.len() <= old(stickies).saves@.len() + 1,
        final(stickies).saves@.take(old(stickies).saves@.len() as int) == old(stickies).saves@,
        final(stickies).saves@.len() == old(stickies).saves@.len() + 1 ==> ({
            let loaded = final(stickies).loads@.last();
            &&& final(stickies).loads@.len() == old(stickies).loads@.len() + 1
            &&& final(stickies).saves@.last() == entries_without(loaded, id@)
            &&& exists|i: int| 0 <= i < loaded.len() && #[trigger] loaded[i].id@ == id@
        }),
        r is Ok ==> final(stickies).saves@.len() == old(stickies).saves@.len() + 1,
        final(stickies).loads@.len() == old(stickies).loads@.len() + 1 && (forall|i: int|
            0 <= i < final(stickies).loads@.last().len() ==> (#[trigger] final(stickies).loads@.last()[i]).id@ != id@) ==> (r matches Err(e)
            && e@ == MacosErrorView::Other("sticky not found: "@ + id@)) && final(stickies).saves == old(stickies).saves
            && final(stickies).files == old(stickies).files,
        final(stickies).files@.checks.len() > old(stickies).files@.checks.len() ==> ({
            let checked = final(stickies).files@.checks.last();
            &&& final(stickies).saves@.len() == old(stickies).saves@.len() + 1
            &&& final(stickies).files@.checks.len() == old(stickies).files@.checks.len() + 1
            &&& exists|home: Seq<char>| checked.0 == spec_sticky_dir(#[trigger] spec_stickies_root(home), id@)
            &&& !checked.1 ==> r is Ok && final(stickies).files@.removals == old(stickies).files@.removals
            &&& checked.1 ==> match r {
                Ok(()) => final(stickies).files@.removals == old(stickies).files@.removals.push(checked.0),
                Err(e) => final(stickies).files@.removals == old(stickies).files@.removals && (e@ matches MacosErrorView::Other(m)
                    && starts_with(m, "failed to delete sticky dir: "@)),
            }
        }),
        r is Ok ==> final(stickies).files@.checks.len() == old(stickies).files@.checks.len() + 1,
{
    proof {
        assert(stickies.saves@.take(stickies.saves@.len() as int) =~= stickies.saves@);
    }
    let root = match stickies.root_dir() {
        Ok(r) => r,
        Err(e) => {
            return Err(e);
        },
    };
    let entries = match stickies.load_for_mutation(root.as_str()) {
        Ok(e) => e,
        Err(e) => {
            return Err(e);
        },
    };
    let ghost loaded = entries@;
    let count_before = entries.len();
    let kept = retain_other_entries(entries, id);
    proof {
        lemma_entries_without_len(loaded, id@);
    }
    let ghost after_load = stickies.loads@;
    assert(after_load.last() == loaded);
    assert(after_load.len() == old(stickies).loads@.len() + 1);
    if kept.len() == count_before {
        let mut m = String::from_str("sticky not found: ");
        m.append(id);
        return Err(MacosError::Other(m));
    }
    let saved = stickies.write_saved_state(root.as_str(), &kept);
    proof {
        assert(stickies.saves@.take(old(stickies).saves@.len() as int) =~= old(stickies).saves@);
    }
    proof {
        assert(kept@.len() < loaded.len());
        assert(exists|i: int| 0 <= i < loaded.len() && #[trigger] loaded[i].id@ == id@);
        assert(stickies.saves@.last() == entries_without(loaded, id@));
    }
    let ghost saves_after = stickies.saves@;
    proof {
        let l = stickies.loads@.last();
        assert(l == loaded);
        assert(stickies.loads@.len() == old(stickies).loads@.len() + 1);
        assert(stickies.saves@.last() == entries_without(l, id@));
        assert(exists|i: int| 0 <= i < l.len() && #[trigger] l[i].id@ == id@);
    }
    match saved {
        Ok(()) => {},
        Err(e) => {
            return Err(e);
        },
    }
    let dir = sticky_dir(root.as_str(), id);
    assert(stickies.saves@ == saves_after && stickies.loads@ == after_load);
    if stickies.check_exists(dir.as_str()) {
        match stickies.remove_dir(dir.as_str()) {
            Ok(()) => {},
            Err(m) => {
                let e = prefixed_error("failed to delete sticky dir: ", m.as_str());
                return Err(e);
            },
        }
    }
    Ok(())
}

} // verus!
