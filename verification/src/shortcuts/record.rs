//! The action records of a shortcut as property-list values: texts,
//! integers, booleans and dictionaries, and anything else carried as it was
//! read; with the reading and writing of an array of them as a binary
//! property list.
use vstd::prelude::*;

use crate::shortcuts::plist_array_length;
use crate::text::str_eq;

verus! {

broadcast use vstd::string::group_string_axioms;

/// A property-list value as action records hold it: a text, an integer that
/// fits an `i64`, a boolean, a dictionary (its entries in order), or any
/// other value (an array, a real number, a date, data, a larger integer),
/// carried as it was read.
#[derive(Debug, PartialEq)]
pub enum PlistItem {
    Str(String),
    Int(i64),
    Bool(bool),
    Dict(Vec<(String, PlistItem)>),
    Other(plist::Value),
}

/// The mathematical value of a [`PlistItem`].
pub enum Item {
    Str(Seq<char>),
    Int(i64),
    Bool(bool),
    Dict(Seq<(Seq<char>, Item)>),
    Other(plist::Value),
}

/// The view of an item.
pub open spec fn item_view(p: PlistItem) -> Item
    decreases p, 0nat,
{
    match p {
        PlistItem::Str(s) => Item::Str(s@),
        PlistItem::Int(i) => Item::Int(i),
        PlistItem::Bool(b) => Item::Bool(b),
        PlistItem::Dict(v) => Item::Dict(entries_view_upto(v, v.len() as nat)),
        PlistItem::Other(x) => Item::Other(x),
    }
}

/// The views of the first `n` entries of a dictionary.
pub open spec fn entries_view_upto(v: Vec<(String, PlistItem)>, n: nat) -> Seq<(Seq<char>, Item)>
    decreases v, n,
{
    if n == 0 || n > v.len() {
        Seq::empty()
    } else {
        entries_view_upto(v, (n - 1) as nat).push((v[n - 1].0@, item_view(v[n - 1].1)))
    }
}

/// The views of the entries of a dictionary.
pub open spec fn entries_view(v: Vec<(String, PlistItem)>) -> Seq<(Seq<char>, Item)> {
    entries_view_upto(v, v.len() as nat)
}

/// The views of a dictionary's entries are the views of each entry.
pub proof fn lemma_entries_view(v: Vec<(String, PlistItem)>, n: nat)
    requires
        n <= v.len(),
    ensures
        entries_view_upto(v, n).len() == n,
        forall|i: int| 0 <= i < n ==> entries_view_upto(v, n)[i] == (v[i].0@, item_view(#[trigger] v[i].1)),
    decreases n,
{
    if n > 0 {
        lemma_entries_view(v, (n - 1) as nat);
    }
}

impl View for PlistItem {
    type V = Item;

    open spec fn view(&self) -> Item {
        item_view(*self)
    }
}

/// The views of a list of items.
pub open spec fn items_view(v: Seq<PlistItem>) -> Seq<Item> {
    v.map_values(|p: PlistItem| item_view(p))
}

/// The value of the first entry of `entries` from index `j` on with the key
/// `key`.
pub open spec fn lookup_from(entries: Seq<(Seq<char>, Item)>, key: Seq<char>, j: int) -> Option<Item>
    decreases entries.len() - j,
{
    if j < 0 || j >= entries.len() {
        None
    } else if entries[j].0 == key {
        Some(entries[j].1)
    } else {
        lookup_from(entries, key, j + 1)
    }
}

/// The value of the first entry of `entries` with the key `key`.
pub open spec fn lookup(entries: Seq<(Seq<char>, Item)>, key: Seq<char>) -> Option<Item> {
    lookup_from(entries, key, 0)
}

/// The member `key` of a dictionary.
pub open spec fn member(item: Item, key: Seq<char>) -> Option<Item> {
    match item {
        Item::Dict(entries) => lookup(entries, key),
        _ => None,
    }
}

/// The text the member `key` of a dictionary holds, if it holds one.
pub open spec fn str_member(item: Item, key: Seq<char>) -> Option<Seq<char>> {
    match member(item, key) {
        Some(Item::Str(s)) => Some(s),
        _ => None,
    }
}

/// The dictionary the member `key` of a dictionary holds, if it holds one.
pub open spec fn dict_member(item: Item, key: Seq<char>) -> Option<Item> {
    match member(item, key) {
        Some(Item::Dict(e)) => Some(Item::Dict(e)),
        _ => None,
    }
}

/// The integer the member `key` of a dictionary holds, if it holds one.
pub open spec fn int_member(item: Item, key: Seq<char>) -> Option<i64> {
    match member(item, key) {
        Some(Item::Int(i)) => Some(i),
        _ => None,
    }
}

/// The boolean the member `key` of a dictionary holds, if it holds one.
pub open spec fn bool_member(item: Item, key: Seq<char>) -> Option<bool> {
    match member(item, key) {
        Some(Item::Bool(b)) => Some(b),
        _ => None,
    }
}

/// Whether an item is a dictionary.
pub open spec fn is_dict(item: Item) -> bool {
    item is Dict
}

/// The number of entries of a dictionary.
pub open spec fn dict_size(item: Item) -> Option<nat> {
    match item {
        Item::Dict(e) => Some(e.len()),
        _ => None,
    }
}

/// The value of the first entry of a dictionary.
pub open spec fn first_value(item: Item) -> Option<Item> {
    match item {
        Item::Dict(e) => if e.len() > 0 {
            Some(e[0].1)
        } else {
            None
        },
        _ => None,
    }
}

/// The keys of a dictionary's entries are distinct.
pub open spec fn distinct_keys(entries: Seq<(Seq<char>, Item)>) -> bool {
    forall|i: int, j: int| 0 <= i < j < entries.len() ==> #[trigger] entries[i].0 != #[trigger] entries[j].0
}

/// An item made only of texts, integers, booleans and dictionaries with
/// distinct keys, at any depth.
pub open spec fn plain(item: Item) -> bool
    decreases item,
{
    match item {
        Item::Dict(entries) => distinct_keys(entries) && forall|i: int| 0 <= i < entries.len() ==> plain(#[trigger] entries[i].1),
        Item::Other(_) => false,
        _ => true,
    }
}

/// Every item of a list is plain.
pub open spec fn plain_items(items: Seq<Item>) -> bool {
    forall|i: int| 0 <= i < items.len() ==> plain(#[trigger] items[i])
}

/// The views of a list of dictionary entries.
pub open spec fn pairs_view(v: Seq<(String, PlistItem)>) -> Seq<(Seq<char>, Item)> {
    v.map_values(|e: (String, PlistItem)| (e.0@, item_view(e.1)))
}

/// No dictionary entries yet.
pub fn no_entries() -> (v: Vec<(String, PlistItem)>)
    ensures
        pairs_view(v@) == Seq::<(Seq<char>, Item)>::empty(),
{
    let v: Vec<(String, PlistItem)> = Vec::new();
    assert(pairs_view(v@) =~= Seq::<(Seq<char>, Item)>::empty());
    v
}

/// Adds the entry `key` with `value` at the end.
pub fn put(v: &mut Vec<(String, PlistItem)>, key: &str, value: PlistItem)
    ensures
        pairs_view(final(v)@) == pairs_view(old(v)@).push((key@, value@)),
{
    let ghost before = v@;
    let ghost val = value@;
    v.push((String::from_str(key), value));
    assert(pairs_view(v@) =~= pairs_view(before).push((key@, val)));
}

/// The dictionary with these entries.
pub fn dict_of(v: Vec<(String, PlistItem)>) -> (r: PlistItem)
    ensures
        r@ == Item::Dict(pairs_view(v@)),
{
    proof {
        lemma_entries_view(v, v.len() as nat);
        assert(entries_view_upto(v, v.len() as nat) =~= pairs_view(v@));
    }
    PlistItem::Dict(v)
}

/// A text item.
pub fn text_item(s: &str) -> (r: PlistItem)
    ensures
        r@ == Item::Str(s@),
{
    PlistItem::Str(String::from_str(s))
}

/// The entry of `entries` with the key `key`, searching from the front.
pub fn find_entry<'a>(entries: &'a Vec<(String, PlistItem)>, key: &str) -> (r: Option<&'a PlistItem>)
    ensures
        match r {
            Some(p) => lookup(entries_view(*entries), key@) == Some(p@),
            None => lookup(entries_view(*entries), key@) is None,
        },
{
    let ghost es = entries_view(*entries);
    proof {
        lemma_entries_view(*entries, entries.len() as nat);
    }
    let mut i: usize = 0;
    while i < entries.len()
        invariant
            i <= entries.len(),
            es == entries_view(*entries),
            es.len() == entries.len(),
            forall|k: int| 0 <= k < entries.len() ==> es[k] == (entries@[k].0@, item_view(#[trigger] entries@[k].1)),
            lookup(es, key@) == lookup_from(es, key@, i as int),
        decreases entries.len() - i,
    {
        if str_eq(entries[i].0.as_str(), key) {
            assert(es[i as int] == (entries@[i as int].0@, item_view(entries@[i as int].1)));
            return Some(&entries[i].1);
        }
        assert(es[i as int] == (entries@[i as int].0@, item_view(entries@[i as int].1)));
        i = i + 1;
    }
    None
}

/// The member `key` of a dictionary.
pub fn member_item<'a>(item: &'a PlistItem, key: &str) -> (r: Option<&'a PlistItem>)
    ensures
        match r {
            Some(p) => member(item@, key@) == Some(p@),
            None => member(item@, key@) is None,
        },
{
    match item {
        PlistItem::Dict(entries) => find_entry(entries, key),
        _ => None,
    }
}

/// The text the member `key` of a dictionary holds, if it holds one.
pub fn member_str(item: &PlistItem, key: &str) -> (r: Option<String>)
    ensures
        match r {
            Some(s) => str_member(item@, key@) == Some(s@),
            None => str_member(item@, key@) is None,
        },
{
    match member_item(item, key) {
        Some(PlistItem::Str(s)) => Some(s.clone()),
        _ => None,
    }
}

/// The dictionary the member `key` of a dictionary holds, if it holds one.
pub fn member_dict<'a>(item: &'a PlistItem, key: &str) -> (r: Option<&'a PlistItem>)
    ensures
        match r {
            Some(p) => dict_member(item@, key@) == Some(p@),
            None => dict_member(item@, key@) is None,
        },
{
    match member_item(item, key) {
        Some(p) => match p {
            PlistItem::Dict(_) => Some(p),
            _ => None,
        },
        None => None,
    }
}

/// The integer the member `key` of a dictionary holds, if it holds one.
pub fn member_int(item: &PlistItem, key: &str) -> (r: Option<i64>)
    ensures
        r == int_member(item@, key@),
{
    match member_item(item, key) {
        Some(PlistItem::Int(i)) => Some(*i),
        _ => None,
    }
}

/// The boolean the member `key` of a dictionary holds, if it holds one.
pub fn member_bool(item: &PlistItem, key: &str) -> (r: Option<bool>)
    ensures
        r == bool_member(item@, key@),
{
    match member_item(item, key) {
        Some(PlistItem::Bool(b)) => Some(*b),
        _ => None,
    }
}

/// Whether an item is a dictionary.
pub fn item_is_dict(item: &PlistItem) -> (r: bool)
    ensures
        r == is_dict(item@),
{
    match item {
        PlistItem::Dict(_) => true,
        _ => false,
    }
}

/// The number of entries of a dictionary.
pub fn dict_len(item: &PlistItem) -> (r: Option<usize>)
    ensures
        match r {
            Some(n) => dict_size(item@) == Some(n as nat),
            None => dict_size(item@) is None,
        },
{
    match item {
        PlistItem::Dict(entries) => {
            proof {
                lemma_entries_view(*entries, entries.len() as nat);
            }
            Some(entries.len())
        },
        _ => None,
    }
}

/// The value of the first entry of a dictionary.
pub fn first_entry_value<'a>(item: &'a PlistItem) -> (r: Option<&'a PlistItem>)
    ensures
        match r {
            Some(p) => first_value(item@) == Some(p@),
            None => first_value(item@) is None,
        },
{
    match item {
        PlistItem::Dict(entries) => {
            proof {
                lemma_entries_view(*entries, entries.len() as nat);
            }
            if entries.len() > 0 {
                Some(&entries[0].1)
            } else {
                None
            }
        },
        _ => None,
    }
}

/// The items of the array a property list holds, as `plist::from_bytes`
/// reads it into values that are then taken apart into texts, integers that
/// fit an `i64`, booleans and dictionaries (anything else as it was read),
/// or the reader's message.
pub uninterp spec fn plist_items(bytes: Seq<u8>) -> Result<Seq<Item>, Seq<char>>;

/// The binary property list of an array of items, as
/// `plist::to_writer_binary` writes it, or the writer's message.
pub uninterp spec fn binary_plist_items(items: Seq<Item>) -> Result<Seq<u8>, Seq<char>>;

/// Reads a property-list array with `plist::from_bytes` into
/// `plist::Value`s and takes each apart as [`PlistItem`] does. The contract
/// names the outcome.
#[verifier::external_body]
pub(crate) fn read_plist_items(bytes: &[u8]) -> (r: Result<Vec<PlistItem>, String>)
    ensures
        match r {
            Ok(v) => plist_items(bytes@) == Ok::<Seq<Item>, Seq<char>>(items_view(v@)),
            Err(m) => plist_items(bytes@) == Err::<Seq<Item>, Seq<char>>(m@),
        },
{
    plist::from_bytes::<Vec<plist::Value>>(bytes).map(|values| values.into_iter().map(item_of_value).collect()).map_err(
        |e| e.to_string(),
    )
}

/// Writes an array of items as a binary property list with
/// `plist::to_writer_binary`, each item as the `plist::Value` it stands
/// for. The contract names the outcome and states that the array has one
/// entry per item and that, for plain items, `plist::from_bytes` reads the
/// same items back: the binary writer writes each text, integer, boolean and
/// dictionary entry as it is, and `plist::Dictionary` keeps its entries in
/// the order they were inserted, as the reader inserts them.
#[verifier::external_body]
pub(crate) fn write_plist_items(items: &Vec<PlistItem>) -> (r: Result<Vec<u8>, String>)
    ensures
        match r {
            Ok(b) => binary_plist_items(items_view(items@)) == Ok::<Seq<u8>, Seq<char>>(b@)
                && plist_array_length(b@) == Ok::<nat, Seq<char>>(items@.len())
                && (plain_items(items_view(items@)) ==> plist_items(b@) == Ok::<Seq<Item>, Seq<char>>(items_view(items@))),
            Err(m) => binary_plist_items(items_view(items@)) == Err::<Seq<u8>, Seq<char>>(m@),
        },
{
    let value = plist::Value::Array(items.iter().map(value_of_item).collect());
    let mut buffer = Vec::new();
    plist::to_writer_binary(&mut buffer, &value).map_err(|e| e.to_string())?;
    Ok(buffer)
}

/// The `plist::Value` an item stands for; the converter that
/// `write_plist_items` applies to each item.
#[verifier::external_body]
fn value_of_item(item: &PlistItem) -> plist::Value {
    match item {
        PlistItem::Str(s) => plist::Value::String(s.clone()),
        PlistItem::Int(i) => plist::Value::Integer((*i).into()),
        PlistItem::Bool(b) => plist::Value::Boolean(*b),
        PlistItem::Dict(entries) => plist::Value::Dictionary(entries.iter().map(|(k, v)| (k.clone(), value_of_item(v))).collect()),
        PlistItem::Other(v) => v.clone(),
    }
}

/// The item a `plist::Value` is taken apart into; the converter that
/// `read_plist_items` applies to each value.
#[verifier::external_body]
fn item_of_value(value: plist::Value) -> PlistItem {
    match value {
        plist::Value::String(s) => PlistItem::Str(s),
        plist::Value::Integer(i) => match i.as_signed() {
            Some(n) => PlistItem::Int(n),
            None => PlistItem::Other(plist::Value::Integer(i)),
        },
        plist::Value::Boolean(b) => PlistItem::Bool(b),
        plist::Value::Dictionary(d) => PlistItem::Dict(d.into_iter().map(|(k, v)| (k, item_of_value(v))).collect()),
        other => PlistItem::Other(other),
    }
}

} // verus!
