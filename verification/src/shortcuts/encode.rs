//! Compiling a list of actions into the property list of action records that
//! the Shortcuts app stores, and appending an action to such a list.
use vstd::prelude::*;

use crate::error::{MacosError, MacosErrorView};
use crate::shortcuts::record::{
    dict_member, dict_of, is_dict, item_is_dict, items_view, member_dict, member_str, no_entries, plist_items,
    put, read_plist_items, str_member, text_item, write_plist_items, binary_plist_items, plain_items, Item, PlistItem,
};
use crate::shortcuts::actions::{
    action_record, action_takes_uuid, actions_view, build_action_with_uuid, lemma_actions_view,
    new_action_uuid, texts, resolve_reference, spec_build_action, spec_resolve_reference, takes_uuid, variable_wrapper,
    variable_wrapper_item, action_record_item, ShortcutAction, ShortcutActionView, ShortcutReferenceView, ShortcutSpec,
};
use crate::shortcuts::compiler::{
    dedupe_alias, default_output_name, inferred_default_output_alias, spec_dedupe_alias,
    spec_default_output_name, spec_inferred_default_output_alias,
};
use crate::shortcuts::tables::{CountTable, OutputTable};
use crate::shortcuts::plist_array_length;
use crate::shortcuts::decode::spec_decompile_actions;
use crate::shortcuts::round_trip::{all_different, compiled_payload, lemma_decompile_compiled, names_outputs_seq, taken_seq};

verus! {

broadcast use vstd::string::group_string_axioms;

/// A literal text, as a condition compares with it.
pub open spec fn text_literal(value: Seq<char>) -> Item {
    Item::Dict(
        seq![("Value"@, Item::Dict(seq![("string"@, Item::Str(value))]))]
            .push(("WFSerializationType"@, Item::Str("WFTextTokenString"@))),
    )
}

/// The first record of a condition: it compares the input with a text.
pub open spec fn spec_if_start(
    input: ShortcutReferenceView,
    value: Seq<char>,
    grouping_id: Seq<char>,
    outputs: Map<Seq<char>, (Seq<char>, Seq<char>)>,
) -> Result<Item, Seq<char>> {
    match spec_resolve_reference(outputs, input, false) {
        Ok(d) => Ok(action_record(
            "is.workflow.actions.conditional"@,
            seq![("GroupingIdentifier"@, Item::Str(grouping_id))]
                .push(("WFCondition"@, Item::Int(4)))
                .push(("WFConditionalActionString"@, text_literal(value)))
                .push(("WFControlFlowMode"@, Item::Int(0)))
                .push(("WFInput"@, variable_wrapper(d))),
        )),
        Err(e) => Err(e),
    }
}

/// The first record of a repeat over the items of the input.
pub open spec fn spec_repeat_each_start(
    input: ShortcutReferenceView,
    grouping_id: Seq<char>,
    outputs: Map<Seq<char>, (Seq<char>, Seq<char>)>,
) -> Result<Item, Seq<char>> {
    match spec_resolve_reference(outputs, input, false) {
        Ok(d) => Ok(action_record(
            "is.workflow.actions.repeat.each"@,
            seq![("GroupingIdentifier"@, Item::Str(grouping_id))]
                .push(("WFControlFlowMode"@, Item::Int(0)))
                .push(("WFInput"@, d)),
        )),
        Err(e) => Err(e),
    }
}

/// The record that closes a condition or a repeat.
pub open spec fn control_flow_end(identifier: Seq<char>, grouping_id: Seq<char>) -> Item {
    action_record(
        identifier,
        seq![("GroupingIdentifier"@, Item::Str(grouping_id))].push(("WFControlFlowMode"@, Item::Int(2))),
    )
}

/// How many fresh UUIDs compiling an action takes: one for an action that
/// records an output UUID, one for each condition or repeat and what the
/// actions inside take.
pub open spec fn ids_needed(a: ShortcutActionView) -> nat
    decreases a,
{
    match a {
        ShortcutActionView::IfEqualsText { then_actions, .. } => 1 + ids_needed_seq(then_actions),
        ShortcutActionView::RepeatEach { body, .. } => 1 + ids_needed_seq(body),
        _ => if takes_uuid(a) {
            1
        } else {
            0
        },
    }
}

/// How many fresh UUIDs compiling a list of actions takes.
pub open spec fn ids_needed_seq(s: Seq<ShortcutActionView>) -> nat
    decreases s,
{
    if s.len() == 0 {
        0
    } else {
        ids_needed(s[0]) + ids_needed_seq(s.subrange(1, s.len() as int))
    }
}

/// How many records an action compiles to: one, and for a condition or a
/// repeat its opening and closing records around the records inside.
pub open spec fn record_count(a: ShortcutActionView) -> nat
    decreases a,
{
    match a {
        ShortcutActionView::IfEqualsText { then_actions, .. } => 2 + record_count_seq(then_actions),
        ShortcutActionView::RepeatEach { body, .. } => 2 + record_count_seq(body),
        _ => 1,
    }
}

/// How many records a list of actions compiles to.
pub open spec fn record_count_seq(s: Seq<ShortcutActionView>) -> nat
    decreases s,
{
    if s.len() == 0 {
        0
    } else {
        record_count(s[0]) + record_count_seq(s.subrange(1, s.len() as int))
    }
}

/// The records of one action and the outputs after it, where the action
/// takes its fresh UUIDs from `ids` starting at `pos`: a condition or a
/// repeat is an opening record, the records of the actions inside, and a
/// closing record with the same grouping UUID.
pub open spec fn spec_compile_one(
    a: ShortcutActionView,
    outputs: Map<Seq<char>, (Seq<char>, Seq<char>)>,
    ids: Seq<Seq<char>>,
    pos: int,
) -> Result<(Seq<Item>, Map<Seq<char>, (Seq<char>, Seq<char>)>), Seq<char>>
    decreases a,
{
    match a {
        ShortcutActionView::IfEqualsText { input, value, then_actions } => {
            let g = ids[pos];
            match spec_if_start(input, value, g, outputs) {
                Ok(start) => match spec_compile_seq(then_actions, outputs, ids, pos + 1) {
                    Ok((inner, outs)) => Ok((
                        seq![start] + inner + seq![control_flow_end("is.workflow.actions.conditional"@, g)],
                        outs,
                    )),
                    Err(e) => Err(e),
                },
                Err(e) => Err(e),
            }
        },
        ShortcutActionView::RepeatEach { input, body } => {
            let g = ids[pos];
            match spec_repeat_each_start(input, g, outputs) {
                Ok(start) => match spec_compile_seq(body, outputs, ids, pos + 1) {
                    Ok((inner, outs)) => Ok((
                        seq![start] + inner + seq![control_flow_end("is.workflow.actions.repeat.each"@, g)],
                        outs,
                    )),
                    Err(e) => Err(e),
                },
                Err(e) => Err(e),
            }
        },
        _ => match spec_build_action(a, outputs, ids[pos]) {
            Ok((item, outs)) => Ok((seq![item], outs)),
            Err(e) => Err(e),
        },
    }
}

/// The records of a list of actions and the outputs after them; each action
/// takes its UUIDs after those of the actions before it.
pub open spec fn spec_compile_seq(
    s: Seq<ShortcutActionView>,
    outputs: Map<Seq<char>, (Seq<char>, Seq<char>)>,
    ids: Seq<Seq<char>>,
    pos: int,
) -> Result<(Seq<Item>, Map<Seq<char>, (Seq<char>, Seq<char>)>), Seq<char>>
    decreases s,
{
    if s.len() == 0 {
        Ok((Seq::empty(), outputs))
    } else {
        match spec_compile_one(s[0], outputs, ids, pos) {
            Ok((items, outs)) => match spec_compile_seq(s.subrange(1, s.len() as int), outs, ids, pos + ids_needed(s[0])) {
                Ok((rest, outs2)) => Ok((items + rest, outs2)),
                Err(e) => Err(e),
            },
            Err(e) => Err(e),
        }
    }
}

/// Compiling an action reads only the UUIDs it takes.
pub proof fn lemma_compile_one_frame(
    a: ShortcutActionView,
    outputs: Map<Seq<char>, (Seq<char>, Seq<char>)>,
    ids1: Seq<Seq<char>>,
    ids2: Seq<Seq<char>>,
    pos: int,
)
    requires
        forall|j: int| pos <= j < pos + ids_needed(a) ==> ids1[j] == ids2[j],
    ensures
        spec_compile_one(a, outputs, ids1, pos) == spec_compile_one(a, outputs, ids2, pos),
    decreases a,
{
    match a {
        ShortcutActionView::IfEqualsText { input, value, then_actions } => {
            assert(ids1[pos] == ids2[pos]);
            lemma_compile_seq_frame(then_actions, outputs, ids1, ids2, pos + 1);
        },
        ShortcutActionView::RepeatEach { input, body } => {
            assert(ids1[pos] == ids2[pos]);
            lemma_compile_seq_frame(body, outputs, ids1, ids2, pos + 1);
        },
        _ => {
            if takes_uuid(a) {
                assert(ids1[pos] == ids2[pos]);
            }
        },
    }
}

/// Compiling a list of actions reads only the UUIDs it takes.
pub proof fn lemma_compile_seq_frame(
    s: Seq<ShortcutActionView>,
    outputs: Map<Seq<char>, (Seq<char>, Seq<char>)>,
    ids1: Seq<Seq<char>>,
    ids2: Seq<Seq<char>>,
    pos: int,
)
    requires
        forall|j: int| pos <= j < pos + ids_needed_seq(s) ==> ids1[j] == ids2[j],
    ensures
        spec_compile_seq(s, outputs, ids1, pos) == spec_compile_seq(s, outputs, ids2, pos),
    decreases s,
{
    if s.len() > 0 {
        lemma_compile_one_frame(s[0], outputs, ids1, ids2, pos);
        let rest = s.subrange(1, s.len() as int);
        match spec_compile_one(s[0], outputs, ids1, pos) {
            Ok((items, outs)) => {
                lemma_compile_seq_frame(rest, outs, ids1, ids2, pos + ids_needed(s[0]));
            },
            Err(_) => {},
        }
    }
}

/// An action compiles to as many records as it counts.
pub proof fn lemma_compile_one_records(
    a: ShortcutActionView,
    outputs: Map<Seq<char>, (Seq<char>, Seq<char>)>,
    ids: Seq<Seq<char>>,
    pos: int,
)
    ensures
        spec_compile_one(a, outputs, ids, pos) matches Ok((items, _)) ==> items.len() == record_count(a),
    decreases a,
{
    match a {
        ShortcutActionView::IfEqualsText { then_actions, .. } => {
            lemma_compile_seq_records(then_actions, outputs, ids, pos + 1);
        },
        ShortcutActionView::RepeatEach { body, .. } => {
            lemma_compile_seq_records(body, outputs, ids, pos + 1);
        },
        _ => {},
    }
}

/// A list of actions compiles to as many records as it counts.
pub proof fn lemma_compile_seq_records(
    s: Seq<ShortcutActionView>,
    outputs: Map<Seq<char>, (Seq<char>, Seq<char>)>,
    ids: Seq<Seq<char>>,
    pos: int,
)
    ensures
        spec_compile_seq(s, outputs, ids, pos) matches Ok((items, _)) ==> items.len() == record_count_seq(s),
    decreases s,
{
    if s.len() > 0 {
        lemma_compile_one_records(s[0], outputs, ids, pos);
        match spec_compile_one(s[0], outputs, ids, pos) {
            Ok((items, outs)) => {
                lemma_compile_seq_records(s.subrange(1, s.len() as int), outs, ids, pos + ids_needed(s[0]));
            },
            Err(_) => {},
        }
    }
}

/// The opening record of a condition.
fn compile_if_start(
    input: &crate::shortcuts::actions::ShortcutReference,
    value: &String,
    grouping_id: &String,
    outputs: &OutputTable,
) -> (r: Result<PlistItem, MacosError>)
    ensures
        match spec_if_start(input@, value@, grouping_id@, outputs@) {
            Ok(t) => r matches Ok(s) && s@ == t,
            Err(m) => r matches Err(e) && e@ == MacosErrorView::Other(m),
        },
{
    let d = resolve_reference(outputs, input, false)?;
    let mut literal = no_entries();
    put(&mut literal, "string", text_item(value.as_str()));
    let mut token = no_entries();
    put(&mut token, "Value", dict_of(literal));
    put(&mut token, "WFSerializationType", text_item("WFTextTokenString"));
    let mut p = no_entries();
    put(&mut p, "GroupingIdentifier", text_item(grouping_id.as_str()));
    put(&mut p, "WFCondition", PlistItem::Int(4));
    put(&mut p, "WFConditionalActionString", dict_of(token));
    put(&mut p, "WFControlFlowMode", PlistItem::Int(0));
    put(&mut p, "WFInput", variable_wrapper_item(d));
    Ok(action_record_item("is.workflow.actions.conditional", p))
}

/// The opening record of a repeat.
fn compile_repeat_each_start(
    input: &crate::shortcuts::actions::ShortcutReference,
    grouping_id: &String,
    outputs: &OutputTable,
) -> (r: Result<PlistItem, MacosError>)
    ensures
        match spec_repeat_each_start(input@, grouping_id@, outputs@) {
            Ok(t) => r matches Ok(s) && s@ == t,
            Err(m) => r matches Err(e) && e@ == MacosErrorView::Other(m),
        },
{
    let d = resolve_reference(outputs, input, false)?;
    let mut p = no_entries();
    put(&mut p, "GroupingIdentifier", text_item(grouping_id.as_str()));
    put(&mut p, "WFControlFlowMode", PlistItem::Int(0));
    put(&mut p, "WFInput", d);
    Ok(action_record_item("is.workflow.actions.repeat.each", p))
}

/// The record that closes a condition or a repeat.
fn compile_control_flow_end(identifier: &str, grouping_id: &String) -> (r: PlistItem)
    ensures
        r@ == control_flow_end(identifier@, grouping_id@),
{
    let mut p = no_entries();
    put(&mut p, "GroupingIdentifier", text_item(grouping_id.as_str()));
    put(&mut p, "WFControlFlowMode", PlistItem::Int(2));
    action_record_item(identifier, p)
}

/// Appends the items of `more` to `out`.
fn append_items(out: &mut Vec<PlistItem>, more: Vec<PlistItem>)
    ensures
        items_view(final(out)@) == items_view(old(out)@) + items_view(more@),
{
    let mut more = more;
    let ghost m = more@;
    out.append(&mut more);
    assert(items_view(out@) =~= items_view(old(out)@) + items_view(m));
}

/// An action that takes no fresh UUID compiles the same whatever UUID it is
/// handed.
proof fn lemma_build_action_ignores_uuid(
    a: ShortcutActionView,
    outputs: Map<Seq<char>, (Seq<char>, Seq<char>)>,
    u1: Seq<char>,
    u2: Seq<char>,
)
    requires
        !takes_uuid(a),
    ensures
        spec_build_action(a, outputs, u1) == spec_build_action(a, outputs, u2),
{
}

/// The opening record, the records inside and the closing record of a
/// condition or a repeat.
fn wrap_group(first: PlistItem, inner: Vec<PlistItem>, last: PlistItem) -> (out: Vec<PlistItem>)
    ensures
        items_view(out@) == seq![first@] + items_view(inner@) + seq![last@],
{
    let ghost f = first@;
    let ghost l = last@;
    let ghost mid = items_view(inner@);
    let mut out: Vec<PlistItem> = Vec::new();
    out.push(first);
    assert(items_view(out@) =~= seq![f]);
    append_items(&mut out, inner);
    let ghost before = out@;
    out.push(last);
    assert(items_view(out@) =~= items_view(before).push(l));
    assert(items_view(out@) =~= seq![f] + mid + seq![l]);
    out
}

/// Compiles one action, taking fresh UUIDs as it needs them and noting each
/// in `ids`.
fn compile_one(action: &ShortcutAction, outputs: &mut OutputTable, ids: &mut Vec<String>) -> (r: Result<
    Vec<PlistItem>,
    MacosError,
>)
    ensures
        final(ids)@.len() >= old(ids)@.len(),
        forall|j: int| 0 <= j < old(ids)@.len() ==> final(ids)@[j] == old(ids)@[j],
        r is Ok ==> final(ids)@.len() == old(ids)@.len() + ids_needed(action@),
        match spec_compile_one(action@, old(outputs)@, texts(final(ids)@), old(ids)@.len() as int) {
            Ok((items, outs)) => r matches Ok(v) && items_view(v@) == items && final(outputs)@ == outs,
            Err(m) => r matches Err(e) && e@ == MacosErrorView::Other(m),
        },
    decreases action, 0nat,
{
    let ghost start = old(ids)@.len() as int;
    let ghost outputs0 = old(outputs)@;
    match action {
        ShortcutAction::IfEqualsText { input, value, then_actions } => {
            let g = new_action_uuid();
            ids.push(g.clone());
            let first = compile_if_start(input, value, &g, outputs)?;
            proof {
                lemma_actions_view(*then_actions, then_actions.len() as nat);
                assert(actions_view(*then_actions).subrange(0, then_actions.len() as int) =~= actions_view(*then_actions));
            }
            let ghost ids1 = ids@;
            let inner = compile_from(then_actions, 0, outputs, ids);
            proof {
                assert(ids@[start] == ids1[start]);
                assert(texts(ids@)[start] == g@);
            }
            let inner = inner?;
            let last = compile_control_flow_end("is.workflow.actions.conditional", &g);
            Ok(wrap_group(first, inner, last))
        },
        ShortcutAction::RepeatEach { input, body } => {
            let g = new_action_uuid();
            ids.push(g.clone());
            let first = compile_repeat_each_start(input, &g, outputs)?;
            proof {
                lemma_actions_view(*body, body.len() as nat);
                assert(actions_view(*body).subrange(0, body.len() as int) =~= actions_view(*body));
            }
            let ghost ids1 = ids@;
            let inner = compile_from(body, 0, outputs, ids);
            proof {
                assert(ids@[start] == ids1[start]);
                assert(texts(ids@)[start] == g@);
            }
            let inner = inner?;
            let last = compile_control_flow_end("is.workflow.actions.repeat.each", &g);
            Ok(wrap_group(first, inner, last))
        },
        _ => {
            let uuid = if action_takes_uuid(action) {
                let u = new_action_uuid();
                ids.push(u.clone());
                assert(texts(ids@)[start] == u@);
                u
            } else {
                String::new()
            };
            proof {
                if !takes_uuid(action@) {
                    lemma_build_action_ignores_uuid(action@, outputs0, uuid@, texts(ids@)[start]);
                }
            }
            let item = build_action_with_uuid(action, outputs, &uuid)?;
            let ghost iv = item@;
            let mut out: Vec<PlistItem> = Vec::new();
            out.push(item);
            assert(items_view(out@) =~= seq![iv]);
            Ok(out)
        },
    }
}

/// Compiles the actions of `actions` from index `i` on.
fn compile_from(actions: &Vec<ShortcutAction>, i: usize, outputs: &mut OutputTable, ids: &mut Vec<String>) -> (r:
    Result<Vec<PlistItem>, MacosError>)
    requires
        i <= actions.len(),
    ensures
        final(ids)@.len() >= old(ids)@.len(),
        forall|j: int| 0 <= j < old(ids)@.len() ==> final(ids)@[j] == old(ids)@[j],
        r is Ok ==> final(ids)@.len() == old(ids)@.len() + ids_needed_seq(
            actions_view(*actions).subrange(i as int, actions.len() as int),
        ),
        match spec_compile_seq(
            actions_view(*actions).subrange(i as int, actions.len() as int),
            old(outputs)@,
            texts(final(ids)@),
            old(ids)@.len() as int,
        ) {
            Ok((items, outs)) => r matches Ok(v) && items_view(v@) == items && final(outputs)@ == outs,
            Err(m) => r matches Err(e) && e@ == MacosErrorView::Other(m),
        },
    decreases actions, actions.len() - i,
{
    proof {
        lemma_actions_view(*actions, actions.len() as nat);
    }
    let ghost s = actions_view(*actions).subrange(i as int, actions.len() as int);
    if i == actions.len() {
        assert(s.len() == 0);
        let out: Vec<PlistItem> = Vec::new();
        assert(items_view(out@) =~= Seq::<Item>::empty());
        return Ok(out);
    }
    let ghost outputs0 = old(outputs)@;
    let ghost ids0 = ids@;
    assert(s[0] == actions[i as int]@);
    assert(s.subrange(1, s.len() as int) =~= actions_view(*actions).subrange(i + 1, actions.len() as int));
    let first = compile_one(&actions[i], outputs, ids)?;
    let ghost ids1 = ids@;
    let rest = compile_from(actions, i + 1, outputs, ids);
    proof {
        assert forall|j: int| ids0.len() <= j < ids0.len() + ids_needed(s[0]) implies texts(ids1)[j] == texts(ids@)[j] by {
            assert(ids@[j] == ids1[j]);
        }
        lemma_compile_one_frame(s[0], outputs0, texts(ids1), texts(ids@), ids0.len() as int);
    }
    let rest = rest?;
    let mut out = first;
    append_items(&mut out, rest);
    Ok(out)
}

/// Compiles a list of actions, taking fresh UUIDs as it needs them and
/// noting each in `ids`.
pub fn compile_action_sequence(actions: &Vec<ShortcutAction>, outputs: &mut OutputTable, ids: &mut Vec<String>) -> (r:
    Result<Vec<PlistItem>, MacosError>)
    ensures
        final(ids)@.len() >= old(ids)@.len(),
        forall|j: int| 0 <= j < old(ids)@.len() ==> final(ids)@[j] == old(ids)@[j],
        r is Ok ==> final(ids)@.len() == old(ids)@.len() + ids_needed_seq(actions_view(*actions)),
        match spec_compile_seq(actions_view(*actions), old(outputs)@, texts(final(ids)@), old(ids)@.len() as int) {
            Ok((items, outs)) => r matches Ok(v) && items_view(v@) == items && final(outputs)@ == outs,
            Err(m) => r matches Err(e) && e@ == MacosErrorView::Other(m),
        },
{
    proof {
        lemma_actions_view(*actions, actions.len() as nat);
        assert(actions_view(*actions).subrange(0, actions.len() as int) =~= actions_view(*actions));
    }
    compile_from(actions, 0, outputs, ids)
}

/// What the outputs and the alias counts become after one existing action
/// record: an action with a UUID and a custom or default output name names
/// that output, under an alias that no earlier record took.
pub open spec fn spec_collect_step(
    item: Item,
    state: (Map<Seq<char>, (Seq<char>, Seq<char>)>, Map<Seq<char>, nat>),
) -> (Map<Seq<char>, (Seq<char>, Seq<char>)>, Map<Seq<char>, nat>) {
    if !is_dict(item) {
        state
    } else {
        match str_member(item, "WFWorkflowActionIdentifier"@) {
            None => state,
            Some(identifier) => match dict_member(item, "WFWorkflowActionParameters"@) {
                None => state,
                Some(params) => match str_member(params, "UUID"@) {
                    None => state,
                    Some(uuid) => {
                        let custom = str_member(params, "CustomOutputName"@);
                        let alias = match custom {
                            Some(c) => Some(c),
                            None => spec_inferred_default_output_alias(identifier),
                        };
                        let name = match custom {
                            Some(c) => Some(c),
                            None => spec_default_output_name(identifier),
                        };
                        match (alias, name) {
                            (Some(a), Some(n)) => {
                                let (d, counts) = spec_dedupe_alias(a, state.1);
                                (state.0.insert(d, (n, uuid)), counts)
                            },
                            _ => state,
                        }
                    },
                },
            },
        }
    }
}

/// The outputs and alias counts after the first `n` records.
pub open spec fn spec_collect_upto(items: Seq<Item>, n: nat) -> (
    Map<Seq<char>, (Seq<char>, Seq<char>)>,
    Map<Seq<char>, nat>,
)
    decreases n,
{
    if n == 0 {
        (Map::empty(), Map::empty())
    } else {
        spec_collect_step(items[n - 1], spec_collect_upto(items, (n - 1) as nat))
    }
}

/// The outputs that a list of existing action records names.
pub open spec fn spec_collect_outputs(items: Seq<Item>) -> Map<Seq<char>, (Seq<char>, Seq<char>)> {
    spec_collect_upto(items, items.len()).0
}

/// One record raises each alias count by at most one.
proof fn lemma_collect_step_counts(
    item: Item,
    state: (Map<Seq<char>, (Seq<char>, Seq<char>)>, Map<Seq<char>, nat>),
    n: nat,
)
    requires
        forall|k: Seq<char>| #[trigger] state.1.contains_key(k) ==> state.1[k] <= n,
    ensures
        forall|k: Seq<char>| #[trigger] spec_collect_step(item, state).1.contains_key(k) ==> spec_collect_step(item, state).1[k] <= n + 1,
{
}

/// Notes what one existing record names.
fn collect_step(item: &PlistItem, outputs: &mut OutputTable, counts: &mut CountTable)
    requires
        forall|k: Seq<char>| #[trigger] old(counts)@.contains_key(k) ==> old(counts)@[k] < u64::MAX,
    ensures
        (final(outputs)@, final(counts)@) == spec_collect_step(item@, (old(outputs)@, old(counts)@)),
{
    if !item_is_dict(item) {
        return;
    }
    let identifier = match member_str(item, "WFWorkflowActionIdentifier") {
        Some(i) => i,
        None => return,
    };
    let params = match member_dict(item, "WFWorkflowActionParameters") {
        Some(p) => p,
        None => return,
    };
    let uuid = match member_str(params, "UUID") {
        Some(u) => u,
        None => return,
    };
    let custom = member_str(params, "CustomOutputName");
    let alias = match &custom {
        Some(c) => Some(c.clone()),
        None => inferred_default_output_alias(identifier.as_str()),
    };
    let name = match &custom {
        Some(c) => Some(c.clone()),
        None => match default_output_name(identifier.as_str()) {
            Some(n) => Some(String::from_str(n)),
            None => None,
        },
    };
    match (alias, name) {
        (Some(a), Some(n)) => {
            let d = dedupe_alias(a, counts);
            outputs.insert(d, n, uuid);
        },
        _ => {},
    }
}

/// The outputs that a list of existing action records names: each record
/// with a UUID and a custom or default output name names its output.
pub fn collect_outputs(actions: &Vec<PlistItem>) -> (r: OutputTable)
    ensures
        r@ == spec_collect_outputs(items_view(actions@)),
{
    let ghost items = items_view(actions@);
    let mut outputs = OutputTable::new();
    let mut counts = CountTable::new();
    let mut i: usize = 0;
    while i < actions.len()
        invariant
            i <= actions.len(),
            items == items_view(actions@),
            (outputs@, counts@) == spec_collect_upto(items, i as nat),
            forall|k: Seq<char>| #[trigger] counts@.contains_key(k) ==> counts@[k] <= i,
        decreases actions.len() - i,
    {
        proof {
            lemma_collect_step_counts(items[i as int], spec_collect_upto(items, i as nat), i as nat);
        }
        collect_step(&actions[i], &mut outputs, &mut counts);
        i = i + 1;
    }
    outputs
}

/// A binary property list of action records, or the writer's message behind
/// the given prefix.
pub open spec fn plist_outcome(items: Seq<Item>, prefix: Seq<char>) -> Result<Seq<u8>, Seq<char>> {
    match binary_plist_items(items) {
        Ok(b) => Ok(b),
        Err(m) => Err(prefix + m),
    }
}

/// Whether a result of bytes is the outcome given.
pub open spec fn bytes_outcome(r: Result<Vec<u8>, MacosError>, outcome: Result<Seq<u8>, Seq<char>>) -> bool {
    match outcome {
        Ok(b) => r matches Ok(x) && x@ == b,
        Err(m) => r matches Err(e) && e@ == MacosErrorView::Other(m),
    }
}

fn write_records(items: &Vec<PlistItem>, prefix: &str) -> (r: Result<Vec<u8>, MacosError>)
    ensures
        bytes_outcome(r, plist_outcome(items_view(items@), prefix@)),
        r matches Ok(b) ==> plist_array_length(b@) == Ok::<nat, Seq<char>>(items@.len()),
        r matches Ok(b) ==> plain_items(items_view(items@)) ==> plist_items(b@) == Ok::<Seq<Item>, Seq<char>>(
            items_view(items@),
        ),
{
    match write_plist_items(items) {
        Ok(b) => Ok(b),
        Err(m) => {
            let mut msg = String::from_str(prefix);
            msg.append(m.as_str());
            Err(MacosError::Other(msg))
        },
    }
}

/// The payload of a shortcut's actions, given the UUIDs its actions take.
pub open spec fn spec_compile_actions(actions: Seq<ShortcutActionView>, ids: Seq<Seq<char>>) -> Result<Seq<u8>, Seq<char>> {
    match spec_compile_seq(actions, Map::empty(), ids, 0) {
        Ok((items, _)) => plist_outcome(items, "failed to encode shortcut actions plist: "@),
        Err(m) => Err(m),
    }
}

/// Compiles the actions of a shortcut into the binary property list the
/// Shortcuts app stores. The UUIDs are random: the payload is the one these
/// actions give for the UUIDs they were handed. When every action that
/// records an output names it, and no two of those outputs share a name or a
/// UUID, decompiling the payload gives the actions back.
pub fn compile_actions(spec: &ShortcutSpec) -> (r: Result<Vec<u8>, MacosError>)
    ensures
        exists|ids: Seq<Seq<char>>| bytes_outcome(r, #[trigger] spec_compile_actions(actions_view(spec.actions), ids)),
        r matches Ok(b) ==> plist_array_length(b@) == Ok::<nat, Seq<char>>(record_count_seq(actions_view(spec.actions))),
        r matches Ok(b) ==> exists|ids: Seq<Seq<char>>| #[trigger] compiled_payload(actions_view(spec.actions), ids, b@) && (
        names_outputs_seq(actions_view(spec.actions)) && all_different(taken_seq(actions_view(spec.actions), ids, 0))
            ==> spec_decompile_actions(b@) == Ok::<Seq<ShortcutActionView>, Seq<char>>(actions_view(spec.actions))),
{
    let mut outputs = OutputTable::new();
    let mut ids: Vec<String> = Vec::new();
    let compiled = compile_action_sequence(&spec.actions, &mut outputs, &mut ids);
    let ghost used = texts(ids@);
    let r = match compiled {
        Ok(items) => write_records(&items, "failed to encode shortcut actions plist: "),
        Err(e) => Err(e),
    };
    proof {
        assert(bytes_outcome(r, spec_compile_actions(actions_view(spec.actions), used)));
        lemma_compile_seq_records(actions_view(spec.actions), Map::empty(), used, 0);
        if r is Ok {
            let b = r->Ok_0@;
            assert(compiled_payload(actions_view(spec.actions), used, b));
            if names_outputs_seq(actions_view(spec.actions)) && all_different(taken_seq(actions_view(spec.actions), used, 0)) {
                lemma_decompile_compiled(actions_view(spec.actions), used, b);
            }
        }
    }
    r
}

/// The payload after appending an action to an existing payload, given the
/// UUIDs the action takes: the action resolves references against the
/// outputs that the existing records name.
pub open spec fn spec_append_action(existing: Seq<u8>, action: ShortcutActionView, ids: Seq<Seq<char>>) -> Result<
    Seq<u8>,
    Seq<char>,
> {
    match plist_items(existing) {
        Err(m) => Err("failed to decode existing shortcut actions: "@ + m),
        Ok(items) => match spec_compile_one(action, spec_collect_outputs(items), ids, 0) {
            Ok((added, _)) => plist_outcome(items + added, "failed to encode appended shortcut actions plist: "@),
            Err(m) => Err(m),
        },
    }
}

/// Appends one action to an existing payload of compiled actions. The
/// UUIDs are random: the payload is the one this action gives for the UUIDs
/// it was handed.
pub fn append_action(existing_payload: &[u8], action: &ShortcutAction) -> (r: Result<Vec<u8>, MacosError>)
    ensures
        exists|ids: Seq<Seq<char>>| bytes_outcome(r, #[trigger] spec_append_action(existing_payload@, action@, ids)),
        r matches Ok(b) ==> plist_items(existing_payload@) matches Ok(items) && plist_array_length(b@) == Ok::<
            nat,
            Seq<char>,
        >(items.len() + record_count(action@)),
{
    let mut actions = match read_plist_items(existing_payload) {
        Ok(v) => v,
        Err(m) => {
            let mut msg = String::from_str("failed to decode existing shortcut actions: ");
            msg.append(m.as_str());
            let r = Err(MacosError::Other(msg));
            assert(bytes_outcome(r, spec_append_action(existing_payload@, action@, Seq::empty())));
            return r;
        },
    };
    let ghost items = items_view(actions@);
    let mut outputs = collect_outputs(&actions);
    let mut ids: Vec<String> = Vec::new();
    let compiled = compile_one(action, &mut outputs, &mut ids);
    let ghost used = texts(ids@);
    let r = match compiled {
        Ok(added) => {
            proof {
                lemma_compile_one_records(action@, spec_collect_outputs(items), used, 0);
                assert(items_view(added@).len() == added@.len());
                assert(added@.len() == record_count(action@));
            }
            append_items(&mut actions, added);
            assert(actions@.len() == items_view(actions@).len());
            assert(actions@.len() == items.len() + record_count(action@));
            write_records(&actions, "failed to encode appended shortcut actions plist: ")
        },
        Err(e) => Err(e),
    };
    assert(bytes_outcome(r, spec_append_action(existing_payload@, action@, used)));
    r
}

} // verus!
