//! Reading the action records of a shortcut back as actions.
use vstd::prelude::*;

use crate::error::{MacosError, MacosErrorView};
use crate::shortcuts::record::{
    bool_member, dict_len, dict_member, dict_size, first_entry_value, first_value, int_member, is_dict, item_is_dict,
    items_view, member_bool, member_dict, member_int, member_str, plist_items, read_plist_items, str_member, Item,
    PlistItem,
};
use crate::shortcuts::actions::{
    action_view, actions_view, lemma_actions_view, opt_view, ShortcutAction, ShortcutActionView, ShortcutReference,
    ShortcutReferenceView,
};
use crate::shortcuts::compiler::{dedupe_alias, inferred_default_output_alias, spec_dedupe_alias, spec_inferred_default_output_alias};
use crate::shortcuts::tables::{CountTable, TextTable};
use crate::text::str_eq;

verus! {

broadcast use vstd::string::group_string_axioms;

/// An error with the given message.
pub open spec fn other(m: Seq<char>) -> MacosErrorView {
    MacosErrorView::Other(m)
}

/// The reference that an attachment value names: the shortcut's input, the
/// output of an earlier action (by the alias of its UUID), or a repeat
/// variable.
pub open spec fn spec_decode_reference_value(value: Item, aliases: Map<Seq<char>, Seq<char>>) -> Result<
    ShortcutReferenceView,
    Seq<char>,
> {
    match str_member(value, "Type"@) {
        None => Err("shortcut reference missing Type"@),
        Some(kind) => if kind == "ExtensionInput"@ {
            Ok(ShortcutReferenceView::ExtensionInput)
        } else if kind == "ActionOutput"@ {
            match str_member(value, "OutputUUID"@) {
                None => Err("missing OutputUUID in shortcut reference"@),
                Some(uuid) => if aliases.contains_key(uuid) {
                    Ok(ShortcutReferenceView::Output(aliases[uuid]))
                } else {
                    Err("unknown output uuid in shortcut payload: "@ + uuid)
                },
            }
        } else if kind == "Variable"@ {
            match str_member(value, "VariableName"@) {
                None => Err("missing VariableName in shortcut reference"@),
                Some(name) => if name == "Repeat Item"@ {
                    Ok(ShortcutReferenceView::RepeatItem)
                } else if name == "Repeat Index"@ {
                    Ok(ShortcutReferenceView::RepeatIndex)
                } else {
                    Err("unsupported variable reference in shortcut payload: "@ + name)
                },
            }
        } else {
            Err("unsupported shortcut reference type in payload: "@ + kind)
        },
    }
}

/// The reference that an attachment container names: a direct attachment,
/// or a text made of exactly one placeholder with exactly one attachment.
pub open spec fn spec_decode_attachment_reference(container: Item, aliases: Map<Seq<char>, Seq<char>>) -> Result<
    ShortcutReferenceView,
    Seq<char>,
> {
    match str_member(container, "WFSerializationType"@) {
        None => Err("shortcut attachment missing WFSerializationType"@),
        Some(serialization) => match dict_member(container, "Value"@) {
            None => Err("shortcut attachment missing Value"@),
            Some(value) => if serialization == "WFTextTokenAttachment"@ {
                spec_decode_reference_value(value, aliases)
            } else if serialization == "WFTextTokenString"@ {
                match str_member(value, "string"@) {
                    None => Err("text token missing string"@),
                    Some(string) => if string != "\u{fffc}"@ {
                        Err("only single-placeholder text tokens are supported during export"@)
                    } else {
                        match dict_member(value, "attachmentsByRange"@) {
                            None => Err("text token missing attachmentsByRange"@),
                            Some(attachments) => if dict_size(attachments) != Some(1nat) {
                                Err("only single attachment text tokens are supported during export"@)
                            } else {
                                match first_value(attachments) {
                                    Some(attachment) => if is_dict(attachment) {
                                        spec_decode_reference_value(attachment, aliases)
                                    } else {
                                        Err("invalid attachment payload"@)
                                    },
                                    None => Err("invalid attachment payload"@),
                                }
                            },
                        }
                    },
                }
            } else {
                Err("unsupported shortcut attachment serialization: "@ + serialization)
            },
        },
    }
}

/// The reference in the `WFInput` parameter.
pub open spec fn spec_decode_input_reference(
    params: Item,
    aliases: Map<Seq<char>, Seq<char>>,
    missing_message: Seq<char>,
) -> Result<ShortcutReferenceView, Seq<char>> {
    match dict_member(params, "WFInput"@) {
        Some(container) => spec_decode_attachment_reference(container, aliases),
        None => Err(missing_message),
    }
}

/// The reference in the variable wrapper of a condition's input.
pub open spec fn spec_decode_conditional_input(params: Item, aliases: Map<Seq<char>, Seq<char>>) -> Result<
    ShortcutReferenceView,
    Seq<char>,
> {
    match dict_member(params, "WFInput"@) {
        Some(wrapper) => match dict_member(wrapper, "Variable"@) {
            Some(variable) => spec_decode_attachment_reference(variable, aliases),
            None => Err("conditional missing variable wrapper"@),
        },
        None => Err("conditional missing variable wrapper"@),
    }
}

/// The literal text of a condition.
pub open spec fn spec_decode_text_token_literal(value: Item) -> Result<Seq<char>, Seq<char>> {
    match str_member(value, "WFSerializationType"@) {
        None => Err("missing text token serialization"@),
        Some(serialization) => if serialization != "WFTextTokenString"@ {
            Err("unsupported text token serialization for conditional literal: "@ + serialization)
        } else {
            match dict_member(value, "Value"@) {
                Some(inner) => match str_member(inner, "string"@) {
                    Some(text) => Ok(text),
                    None => Err("missing conditional string literal"@),
                },
                None => Err("missing conditional string literal"@),
            }
        },
    }
}

/// A text action: a fixed text, or the text of a reference.
pub open spec fn spec_decode_get_text_action(
    params: Item,
    aliases: Map<Seq<char>, Seq<char>>,
    output: Option<Seq<char>>,
) -> Result<ShortcutActionView, Seq<char>> {
    match str_member(params, "WFTextActionText"@) {
        Some(value) => Ok(ShortcutActionView::Text { value, output }),
        None => match dict_member(params, "WFTextActionText"@) {
            Some(token) => match spec_decode_attachment_reference(token, aliases) {
                Ok(from) => Ok(ShortcutActionView::GetText { from, output }),
                Err(e) => Err(e),
            },
            None => Err("unsupported gettext payload during export"@),
        },
    }
}

/// A get-URLs action.
pub open spec fn spec_decode_get_urls_action(
    params: Item,
    aliases: Map<Seq<char>, Seq<char>>,
    output: Option<Seq<char>>,
) -> Result<ShortcutActionView, Seq<char>> {
    match spec_decode_input_reference(params, aliases, "get-urls missing WFInput"@) {
        Ok(from) => Ok(ShortcutActionView::GetUrls { from, output }),
        Err(e) => Err(e),
    }
}

/// A boolean parameter, `false` when it is missing.
pub open spec fn bool_or_false(params: Item, key: Seq<char>) -> bool {
    match bool_member(params, key) {
        Some(b) => b,
        None => false,
    }
}

/// A replace-text action.
pub open spec fn spec_decode_replace_text_action(
    params: Item,
    aliases: Map<Seq<char>, Seq<char>>,
    output: Option<Seq<char>>,
) -> Result<ShortcutActionView, Seq<char>> {
    match spec_decode_input_reference(params, aliases, "replace-text missing WFInput"@) {
        Err(e) => Err(e),
        Ok(from) => match str_member(params, "WFReplaceTextFind"@) {
            None => Err("replace-text missing find"@),
            Some(find) => match str_member(params, "WFReplaceTextReplace"@) {
                None => Err("replace-text missing replace"@),
                Some(replace) => Ok(ShortcutActionView::ReplaceText {
                    from,
                    find,
                    replace,
                    regex: bool_or_false(params, "WFReplaceTextRegularExpression"@),
                    ignore_case: !bool_or_false(params, "WFReplaceTextCaseSensitive"@),
                    output,
                }),
            },
        },
    }
}

/// The alias of the output of the action with these parameters, by its
/// UUID.
pub open spec fn spec_inferred_output_alias(params: Item, aliases: Map<Seq<char>, Seq<char>>) -> Option<Seq<char>> {
    match str_member(params, "UUID"@) {
        Some(uuid) => if aliases.contains_key(uuid) {
            Some(aliases[uuid])
        } else {
            None
        },
        None => None,
    }
}

/// The output alias of an action: its custom output name, or the alias of
/// its UUID.
pub open spec fn spec_action_output(params: Item, aliases: Map<Seq<char>, Seq<char>>) -> Option<Seq<char>> {
    match str_member(params, "CustomOutputName"@) {
        Some(c) => Some(c),
        None => spec_inferred_output_alias(params, aliases),
    }
}

/// One action that is not a condition or a repeat.
pub open spec fn spec_decode_single_action(
    identifier: Seq<char>,
    params: Item,
    aliases: Map<Seq<char>, Seq<char>>,
) -> Result<ShortcutActionView, Seq<char>> {
    let output = spec_action_output(params, aliases);
    if identifier == "is.workflow.actions.gettext"@ {
        spec_decode_get_text_action(params, aliases, output)
    } else if identifier == "is.workflow.actions.text.replace"@ {
        spec_decode_replace_text_action(params, aliases, output)
    } else if identifier == "is.workflow.actions.detect.link"@ {
        spec_decode_get_urls_action(params, aliases, output)
    } else if identifier == "is.workflow.actions.setclipboard"@ {
        match spec_decode_input_reference(params, aliases, "setclipboard missing WFInput"@) {
            Ok(from) => Ok(ShortcutActionView::CopyToClipboard { from }),
            Err(e) => Err(e),
        }
    } else if identifier == "is.workflow.actions.share"@ {
        match spec_decode_input_reference(params, aliases, "share missing WFInput"@) {
            Ok(from) => Ok(ShortcutActionView::Share { from }),
            Err(e) => Err(e),
        }
    } else {
        Err("unsupported shortcut action during export: "@ + identifier)
    }
}

/// Whether a record closes the group that the sequence being read is
/// inside.
pub open spec fn spec_is_group_end(
    identifier: Seq<char>,
    params: Item,
    end_group: Option<(Seq<char>, Seq<char>)>,
) -> bool {
    match end_group {
        Some((expected_identifier, expected_group)) => identifier == expected_identifier && int_member(
            params,
            "WFControlFlowMode"@,
        ) == Some(2i64) && str_member(params, "GroupingIdentifier"@) == Some(expected_group),
        None => false,
    }
}

/// Whether a record opens a condition that compares with a text.
pub open spec fn spec_is_if_start(identifier: Seq<char>, params: Item) -> bool {
    identifier == "is.workflow.actions.conditional"@ && int_member(params, "WFControlFlowMode"@) == Some(0i64)
        && int_member(params, "WFCondition"@) == Some(4i64)
}

/// Whether a record opens a repeat over each item.
pub open spec fn spec_is_repeat_start(identifier: Seq<char>, params: Item) -> bool {
    identifier == "is.workflow.actions.repeat.each"@ && int_member(params, "WFControlFlowMode"@) == Some(0i64)
}

/// An action in front of what a sequence reads after it.
pub open spec fn prepend_action(
    a: ShortcutActionView,
    r: Result<(Seq<ShortcutActionView>, int), Seq<char>>,
) -> Result<(Seq<ShortcutActionView>, int), Seq<char>> {
    match r {
        Ok((s, n)) => Ok((seq![a] + s, n)),
        Err(e) => Err(e),
    }
}

/// The actions read from the records starting at `index`, and the index
/// after them: up to the end of the records, or, inside a group, up to and
/// including the record that closes it. A condition or a repeat reads the
/// actions inside it first and goes on after its closing record.
pub open spec fn spec_decompile_sequence(
    items: Seq<Item>,
    index: int,
    aliases: Map<Seq<char>, Seq<char>>,
    end_group: Option<(Seq<char>, Seq<char>)>,
) -> Result<(Seq<ShortcutActionView>, int), Seq<char>>
    decreases items.len() - index,
{
    if index >= items.len() {
        match end_group {
            Some((expected_identifier, expected_group)) => Err(
                "missing control flow terminator for "@ + expected_identifier + " group "@ + expected_group,
            ),
            None => Ok((Seq::empty(), index)),
        }
    } else {
        let item = items[index];
        if !is_dict(item) {
            Err("invalid shortcut action payload"@)
        } else {
            match str_member(item, "WFWorkflowActionIdentifier"@) {
                None => Err("shortcut action missing identifier"@),
                Some(identifier) => match dict_member(item, "WFWorkflowActionParameters"@) {
                    None => Err("shortcut action missing parameters"@),
                    Some(params) => if spec_is_group_end(identifier, params, end_group) {
                        Ok((Seq::empty(), index + 1))
                    } else if spec_is_if_start(identifier, params) {
                        match str_member(params, "GroupingIdentifier"@) {
                            None => Err("if action missing GroupingIdentifier"@),
                            Some(grouping_id) => match spec_decode_conditional_input(params, aliases) {
                                Err(e) => Err(e),
                                Ok(input) => match dict_member(params, "WFConditionalActionString"@) {
                                    None => Err("if action missing WFConditionalActionString"@),
                                    Some(literal) => match spec_decode_text_token_literal(literal) {
                                        Err(e) => Err(e),
                                        Ok(value) => match spec_decompile_sequence(
                                            items,
                                            index + 1,
                                            aliases,
                                            Some(("is.workflow.actions.conditional"@, grouping_id)),
                                        ) {
                                            Err(e) => Err(e),
                                            Ok((then_actions, next)) => if index < next <= items.len() {
                                                prepend_action(
                                                    ShortcutActionView::IfEqualsText { input, value, then_actions },
                                                    spec_decompile_sequence(items, next, aliases, end_group),
                                                )
                                            } else {
                                                Err("did not consume entire shortcut action payload"@)
                                            },
                                        },
                                    },
                                },
                            },
                        }
                    } else if spec_is_repeat_start(identifier, params) {
                        match str_member(params, "GroupingIdentifier"@) {
                            None => Err("repeat action missing GroupingIdentifier"@),
                            Some(grouping_id) => match dict_member(params, "WFInput"@) {
                                None => Err("repeat action missing WFInput"@),
                                Some(container) => match spec_decode_attachment_reference(container, aliases) {
                                    Err(e) => Err(e),
                                    Ok(input) => match spec_decompile_sequence(
                                        items,
                                        index + 1,
                                        aliases,
                                        Some(("is.workflow.actions.repeat.each"@, grouping_id)),
                                    ) {
                                        Err(e) => Err(e),
                                        Ok((body, next)) => if index < next <= items.len() {
                                            prepend_action(
                                                ShortcutActionView::RepeatEach { input, body },
                                                spec_decompile_sequence(items, next, aliases, end_group),
                                            )
                                        } else {
                                            Err("did not consume entire shortcut action payload"@)
                                        },
                                    },
                                },
                            },
                        }
                    } else {
                        match spec_decode_single_action(identifier, params, aliases) {
                            Ok(a) => prepend_action(a, spec_decompile_sequence(items, index + 1, aliases, end_group)),
                            Err(e) => Err(e),
                        }
                    },
                },
            }
        }
    }
}

/// Reading inside a group either fails or ends past where it started, at
/// most at the end of the records.
pub proof fn lemma_decompile_advances(
    items: Seq<Item>,
    index: int,
    aliases: Map<Seq<char>, Seq<char>>,
    end_group: Option<(Seq<char>, Seq<char>)>,
)
    requires
        end_group is Some,
    ensures
        spec_decompile_sequence(items, index, aliases, end_group) matches Ok((_, n)) ==> index < n <= items.len(),
    decreases items.len() - index,
{
    if index < items.len() {
        let item = items[index];
        if is_dict(item) {
            if let Some(identifier) = str_member(item, "WFWorkflowActionIdentifier"@) {
                if let Some(params) = dict_member(item, "WFWorkflowActionParameters"@) {
                    if !spec_is_group_end(identifier, params, end_group) {
                        lemma_decompile_advances(items, index + 1, aliases, end_group);
                        if spec_is_if_start(identifier, params) || spec_is_repeat_start(identifier, params) {
                            let g = str_member(params, "GroupingIdentifier"@);
                            if let Some(grouping_id) = g {
                                let inner_end = if spec_is_if_start(identifier, params) {
                                    ("is.workflow.actions.conditional"@, grouping_id)
                                } else {
                                    ("is.workflow.actions.repeat.each"@, grouping_id)
                                };
                                match spec_decompile_sequence(items, index + 1, aliases, Some(inner_end)) {
                                    Ok((_, next)) => {
                                        if index < next <= items.len() {
                                            lemma_decompile_advances(items, next, aliases, end_group);
                                        }
                                    },
                                    Err(_) => {},
                                }
                            }
                        }
                    }
                }
            }
        }
    }
}

/// The alias base of an action: its custom output name, or the alias of its
/// default output.
pub open spec fn spec_alias_base(identifier: Seq<char>, params: Item) -> Option<Seq<char>> {
    match str_member(params, "CustomOutputName"@) {
        Some(c) => Some(c),
        None => spec_inferred_default_output_alias(identifier),
    }
}

/// What the UUID aliases and the alias counts become after one record: an
/// action with a UUID and an alias base gets an alias that no earlier record
/// took.
pub open spec fn spec_alias_step(
    item: Item,
    state: (Map<Seq<char>, Seq<char>>, Map<Seq<char>, nat>),
) -> (Map<Seq<char>, Seq<char>>, Map<Seq<char>, nat>) {
    if !is_dict(item) {
        state
    } else {
        match str_member(item, "WFWorkflowActionIdentifier"@) {
            None => state,
            Some(identifier) => match dict_member(item, "WFWorkflowActionParameters"@) {
                None => state,
                Some(params) => match str_member(params, "UUID"@) {
                    None => state,
                    Some(uuid) => match spec_alias_base(identifier, params) {
                        None => state,
                        Some(base) => {
                            let (alias, counts) = spec_dedupe_alias(base, state.1);
                            (state.0.insert(uuid, alias), counts)
                        },
                    },
                },
            },
        }
    }
}

/// The UUID aliases and alias counts after the first `n` records.
pub open spec fn spec_alias_upto(items: Seq<Item>, n: nat) -> (Map<Seq<char>, Seq<char>>, Map<Seq<char>, nat>)
    decreases n,
{
    if n == 0 {
        (Map::empty(), Map::empty())
    } else {
        spec_alias_step(items[n - 1], spec_alias_upto(items, (n - 1) as nat))
    }
}

/// The alias of each action UUID in a list of records.
pub open spec fn spec_alias_map(items: Seq<Item>) -> Map<Seq<char>, Seq<char>> {
    spec_alias_upto(items, items.len()).0
}

/// The actions a payload holds.
pub open spec fn spec_decompile_actions(payload: Seq<u8>) -> Result<Seq<ShortcutActionView>, Seq<char>> {
    match plist_items(payload) {
        Err(m) => Err("failed to decode shortcut actions payload: "@ + m),
        Ok(items) => match spec_decompile_sequence(items, 0, spec_alias_map(items), None) {
            Err(e) => Err(e),
            Ok((decoded, next)) => if next != items.len() {
                Err("did not consume entire shortcut action payload"@)
            } else {
                Ok(decoded)
            },
        },
    }
}

/// The view of the group a sequence is inside.
pub open spec fn end_view(e: Option<(String, String)>) -> Option<(Seq<char>, Seq<char>)> {
    match e {
        Some((i, g)) => Some((i@, g@)),
        None => None,
    }
}

/// The actions already read in front of what the rest reads.
pub open spec fn prepend_all(
    acc: Seq<ShortcutActionView>,
    r: Result<(Seq<ShortcutActionView>, int), Seq<char>>,
) -> Result<(Seq<ShortcutActionView>, int), Seq<char>> {
    match r {
        Ok((s, n)) => Ok((acc + s, n)),
        Err(e) => Err(e),
    }
}

/// Whether a result is the outcome given.
pub open spec fn reference_outcome(
    r: Result<ShortcutReference, MacosError>,
    outcome: Result<ShortcutReferenceView, Seq<char>>,
) -> bool {
    match outcome {
        Ok(v) => r matches Ok(x) && x@ == v,
        Err(m) => r matches Err(e) && e@ == other(m),
    }
}

/// Whether a result is the outcome given.
pub open spec fn action_outcome(r: Result<ShortcutAction, MacosError>, outcome: Result<ShortcutActionView, Seq<char>>) -> bool {
    match outcome {
        Ok(v) => r matches Ok(x) && x@ == v,
        Err(m) => r matches Err(e) && e@ == other(m),
    }
}

fn fail(prefix: &str, detail: &str) -> (e: MacosError)
    ensures
        e@ == other(prefix@ + detail@),
{
    let mut msg = String::from_str(prefix);
    msg.append(detail);
    MacosError::Other(msg)
}

fn fail_with(message: &str) -> (e: MacosError)
    ensures
        e@ == other(message@),
{
    MacosError::Other(String::from_str(message))
}

/// The reference that an attachment value names.
fn decode_reference_value(value: &PlistItem, aliases: &TextTable) -> (r: Result<ShortcutReference, MacosError>)
    ensures
        reference_outcome(r, spec_decode_reference_value(value@, aliases@)),
{
    let kind = match member_str(value, "Type") {
        Some(k) => k,
        None => return Err(fail_with("shortcut reference missing Type")),
    };
    if str_eq(kind.as_str(), "ExtensionInput") {
        Ok(ShortcutReference::ExtensionInput)
    } else if str_eq(kind.as_str(), "ActionOutput") {
        let uuid = match member_str(value, "OutputUUID") {
            Some(u) => u,
            None => return Err(fail_with("missing OutputUUID in shortcut reference")),
        };
        match aliases.get(&uuid) {
            Some(alias) => Ok(ShortcutReference::Output(alias)),
            None => Err(fail("unknown output uuid in shortcut payload: ", uuid.as_str())),
        }
    } else if str_eq(kind.as_str(), "Variable") {
        let name = match member_str(value, "VariableName") {
            Some(n) => n,
            None => return Err(fail_with("missing VariableName in shortcut reference")),
        };
        if str_eq(name.as_str(), "Repeat Item") {
            Ok(ShortcutReference::RepeatItem)
        } else if str_eq(name.as_str(), "Repeat Index") {
            Ok(ShortcutReference::RepeatIndex)
        } else {
            Err(fail("unsupported variable reference in shortcut payload: ", name.as_str()))
        }
    } else {
        Err(fail("unsupported shortcut reference type in payload: ", kind.as_str()))
    }
}

/// The reference that an attachment container names.
fn decode_attachment_reference(container: &PlistItem, aliases: &TextTable) -> (r: Result<ShortcutReference, MacosError>)
    ensures
        reference_outcome(r, spec_decode_attachment_reference(container@, aliases@)),
{
    let serialization = match member_str(container, "WFSerializationType") {
        Some(s) => s,
        None => return Err(fail_with("shortcut attachment missing WFSerializationType")),
    };
    let value = match member_dict(container, "Value") {
        Some(v) => v,
        None => return Err(fail_with("shortcut attachment missing Value")),
    };
    if str_eq(serialization.as_str(), "WFTextTokenAttachment") {
        decode_reference_value(value, aliases)
    } else if str_eq(serialization.as_str(), "WFTextTokenString") {
        let string = match member_str(value, "string") {
            Some(s) => s,
            None => return Err(fail_with("text token missing string")),
        };
        if !str_eq(string.as_str(), "\u{fffc}") {
            return Err(fail_with("only single-placeholder text tokens are supported during export"));
        }
        let attachments = match member_dict(value, "attachmentsByRange") {
            Some(a) => a,
            None => return Err(fail_with("text token missing attachmentsByRange")),
        };
        let single = match dict_len(attachments) {
            Some(n) => n == 1,
            None => false,
        };
        if !single {
            return Err(fail_with("only single attachment text tokens are supported during export"));
        }
        match first_entry_value(attachments) {
            Some(attachment) => if item_is_dict(attachment) {
                decode_reference_value(attachment, aliases)
            } else {
                Err(fail_with("invalid attachment payload"))
            },
            None => Err(fail_with("invalid attachment payload")),
        }
    } else {
        Err(fail("unsupported shortcut attachment serialization: ", serialization.as_str()))
    }
}

/// The reference in the `WFInput` parameter.
fn decode_input_reference(params: &PlistItem, aliases: &TextTable, missing_message: &str) -> (r: Result<
    ShortcutReference,
    MacosError,
>)
    ensures
        reference_outcome(r, spec_decode_input_reference(params@, aliases@, missing_message@)),
{
    match member_dict(params, "WFInput") {
        Some(container) => decode_attachment_reference(container, aliases),
        None => Err(fail_with(missing_message)),
    }
}

/// The reference in the variable wrapper of a condition's input.
fn decode_conditional_input(params: &PlistItem, aliases: &TextTable) -> (r: Result<ShortcutReference, MacosError>)
    ensures
        reference_outcome(r, spec_decode_conditional_input(params@, aliases@)),
{
    match member_dict(params, "WFInput") {
        Some(wrapper) => match member_dict(wrapper, "Variable") {
            Some(variable) => decode_attachment_reference(variable, aliases),
            None => Err(fail_with("conditional missing variable wrapper")),
        },
        None => Err(fail_with("conditional missing variable wrapper")),
    }
}

/// The literal text of a condition.
fn decode_text_token_literal(value: &PlistItem) -> (r: Result<String, MacosError>)
    ensures
        match spec_decode_text_token_literal(value@) {
            Ok(t) => r matches Ok(s) && s@ == t,
            Err(m) => r matches Err(e) && e@ == other(m),
        },
{
    let serialization = match member_str(value, "WFSerializationType") {
        Some(s) => s,
        None => return Err(fail_with("missing text token serialization")),
    };
    if !str_eq(serialization.as_str(), "WFTextTokenString") {
        return Err(fail("unsupported text token serialization for conditional literal: ", serialization.as_str()));
    }
    match member_dict(value, "Value") {
        Some(inner) => match member_str(inner, "string") {
            Some(text) => Ok(text),
            None => Err(fail_with("missing conditional string literal")),
        },
        None => Err(fail_with("missing conditional string literal")),
    }
}

/// A text action.
fn decode_get_text_action(params: &PlistItem, aliases: &TextTable, output: Option<String>) -> (r: Result<
    ShortcutAction,
    MacosError,
>)
    ensures
        action_outcome(r, spec_decode_get_text_action(params@, aliases@, opt_view(output))),
{
    match member_str(params, "WFTextActionText") {
        Some(value) => Ok(ShortcutAction::Text { value, output }),
        None => match member_dict(params, "WFTextActionText") {
            Some(token) => {
                let from = decode_attachment_reference(token, aliases)?;
                Ok(ShortcutAction::GetText { from, output })
            },
            None => Err(fail_with("unsupported gettext payload during export")),
        },
    }
}

/// A get-URLs action.
fn decode_get_urls_action(params: &PlistItem, aliases: &TextTable, output: Option<String>) -> (r: Result<
    ShortcutAction,
    MacosError,
>)
    ensures
        action_outcome(r, spec_decode_get_urls_action(params@, aliases@, opt_view(output))),
{
    let from = decode_input_reference(params, aliases, "get-urls missing WFInput")?;
    Ok(ShortcutAction::GetUrls { from, output })
}

fn member_bool_or_false(params: &PlistItem, key: &str) -> (r: bool)
    ensures
        r == bool_or_false(params@, key@),
{
    match member_bool(params, key) {
        Some(b) => b,
        None => false,
    }
}

/// A replace-text action.
fn decode_replace_text_action(params: &PlistItem, aliases: &TextTable, output: Option<String>) -> (r: Result<
    ShortcutAction,
    MacosError,
>)
    ensures
        action_outcome(r, spec_decode_replace_text_action(params@, aliases@, opt_view(output))),
{
    let from = decode_input_reference(params, aliases, "replace-text missing WFInput")?;
    let find = match member_str(params, "WFReplaceTextFind") {
        Some(f) => f,
        None => return Err(fail_with("replace-text missing find")),
    };
    let replace = match member_str(params, "WFReplaceTextReplace") {
        Some(r) => r,
        None => return Err(fail_with("replace-text missing replace")),
    };
    let regex = member_bool_or_false(params, "WFReplaceTextRegularExpression");
    let ignore_case = !member_bool_or_false(params, "WFReplaceTextCaseSensitive");
    Ok(ShortcutAction::ReplaceText { from, find, replace, regex, ignore_case, output })
}

/// The output alias of an action.
fn action_output(params: &PlistItem, aliases: &TextTable) -> (r: Option<String>)
    ensures
        opt_view(r) == spec_action_output(params@, aliases@),
{
    match member_str(params, "CustomOutputName") {
        Some(c) => Some(c),
        None => match member_str(params, "UUID") {
            Some(uuid) => aliases.get(&uuid),
            None => None,
        },
    }
}

/// One action that is not a condition or a repeat.
fn decode_single_action(identifier: &str, params: &PlistItem, aliases: &TextTable) -> (r: Result<ShortcutAction, MacosError>)
    ensures
        action_outcome(r, spec_decode_single_action(identifier@, params@, aliases@)),
{
    let output = action_output(params, aliases);
    if str_eq(identifier, "is.workflow.actions.gettext") {
        decode_get_text_action(params, aliases, output)
    } else if str_eq(identifier, "is.workflow.actions.text.replace") {
        decode_replace_text_action(params, aliases, output)
    } else if str_eq(identifier, "is.workflow.actions.detect.link") {
        decode_get_urls_action(params, aliases, output)
    } else if str_eq(identifier, "is.workflow.actions.setclipboard") {
        let from = decode_input_reference(params, aliases, "setclipboard missing WFInput")?;
        Ok(ShortcutAction::CopyToClipboard { from })
    } else if str_eq(identifier, "is.workflow.actions.share") {
        let from = decode_input_reference(params, aliases, "share missing WFInput")?;
        Ok(ShortcutAction::Share { from })
    } else {
        Err(fail("unsupported shortcut action during export: ", identifier))
    }
}

fn member_i64_is(params: &PlistItem, key: &str, expected: i64) -> (r: bool)
    ensures
        r == (int_member(params@, key@) == Some(expected)),
{
    match member_int(params, key) {
        Some(v) => v == expected,
        None => false,
    }
}

fn is_group_end(identifier: &str, params: &PlistItem, end_group: &Option<(String, String)>) -> (r: bool)
    ensures
        r == spec_is_group_end(identifier@, params@, end_view(*end_group)),
{
    match end_group {
        Some((expected_identifier, expected_group)) => {
            if !str_eq(identifier, expected_identifier.as_str()) || !member_i64_is(params, "WFControlFlowMode", 2) {
                return false;
            }
            match member_str(params, "GroupingIdentifier") {
                Some(g) => g == *expected_group,
                None => false,
            }
        },
        None => false,
    }
}

/// The views of a list after a push are the views before and the view of
/// the new action.
proof fn lemma_actions_view_push(v1: Vec<ShortcutAction>, v2: Vec<ShortcutAction>)
    requires
        v2@.len() == v1@.len() + 1,
        forall|i: int| 0 <= i < v1@.len() ==> v2@[i] == v1@[i],
    ensures
        actions_view(v2) == actions_view(v1).push(action_view(v2@[v1@.len() as int])),
{
    lemma_actions_view(v1, v1.len() as nat);
    lemma_actions_view(v2, v2.len() as nat);
    let w = actions_view(v1).push(action_view(v2@[v1@.len() as int]));
    assert forall|i: int| 0 <= i < w.len() implies actions_view(v2)[i] == w[i] by {
        assert(actions_view(v2)[i] == action_view(v2[i]));
        if i < v1@.len() {
            assert(actions_view(v1)[i] == action_view(v1[i]));
        }
    }
    assert(actions_view(v2) =~= w);
}

/// Moving an action from the front of what the rest reads to the end of
/// what was read keeps the whole.
proof fn lemma_prepend_step(
    acc: Seq<ShortcutActionView>,
    a: ShortcutActionView,
    r: Result<(Seq<ShortcutActionView>, int), Seq<char>>,
)
    ensures
        prepend_all(acc, prepend_action(a, r)) == prepend_all(acc.push(a), r),
{
    match r {
        Ok((s, n)) => {
            assert(acc + (seq![a] + s) =~= acc.push(a) + s);
        },
        Err(_) => {},
    }
}

/// Reads the actions from index `index` on, up to the end of the records
/// or, inside a group, up to and including the record that closes it.
fn decompile_sequence(
    items: &Vec<PlistItem>,
    index: usize,
    aliases: &TextTable,
    end_group: &Option<(String, String)>,
) -> (r: Result<(Vec<ShortcutAction>, usize), MacosError>)
    requires
        index <= items.len(),
    ensures
        match spec_decompile_sequence(items_view(items@), index as int, aliases@, end_view(*end_group)) {
            Ok((d, n)) => r matches Ok((v, m)) && actions_view(v) == d && m == n,
            Err(msg) => r matches Err(e) && e@ == other(msg),
        },
    decreases items.len() - index,
{
    let ghost its = items_view(items@);
    let ghost ev = end_view(*end_group);
    let mut decoded: Vec<ShortcutAction> = Vec::new();
    let mut i = index;
    proof {
        lemma_actions_view(decoded, 0);
        assert(actions_view(decoded) =~= Seq::<ShortcutActionView>::empty());
        assert(prepend_all(Seq::empty(), spec_decompile_sequence(its, i as int, aliases@, ev)) == spec_decompile_sequence(
            its,
            i as int,
            aliases@,
            ev,
        )) by {
            match spec_decompile_sequence(its, i as int, aliases@, ev) {
                Ok((s, n)) => {
                    assert(Seq::<ShortcutActionView>::empty() + s =~= s);
                },
                Err(_) => {},
            }
        }
    }
    while i < items.len()
        invariant
            index <= i <= items.len(),
            its == items_view(items@),
            ev == end_view(*end_group),
            spec_decompile_sequence(its, index as int, aliases@, ev) == prepend_all(
                actions_view(decoded),
                spec_decompile_sequence(its, i as int, aliases@, ev),
            ),
        decreases items.len() - i,
    {
        let ghost acc = actions_view(decoded);
        let item = &items[i];
        assert(its[i as int] == item@);
        if !item_is_dict(item) {
            return Err(fail_with("invalid shortcut action payload"));
        }
        let identifier = match member_str(item, "WFWorkflowActionIdentifier") {
            Some(x) => x,
            None => return Err(fail_with("shortcut action missing identifier")),
        };
        let params = match member_dict(item, "WFWorkflowActionParameters") {
            Some(p) => p,
            None => return Err(fail_with("shortcut action missing parameters")),
        };
        if is_group_end(identifier.as_str(), params, end_group) {
            assert(acc + Seq::<ShortcutActionView>::empty() =~= acc);
            return Ok((decoded, i + 1));
        }
        let if_start = str_eq(identifier.as_str(), "is.workflow.actions.conditional") && member_i64_is(
            params,
            "WFControlFlowMode",
            0,
        ) && member_i64_is(params, "WFCondition", 4);
        let repeat_start = str_eq(identifier.as_str(), "is.workflow.actions.repeat.each") && member_i64_is(
            params,
            "WFControlFlowMode",
            0,
        );
        let ghost before = decoded;
        let next: usize;
        if if_start {
            let grouping_id = match member_str(params, "GroupingIdentifier") {
                Some(g) => g,
                None => return Err(fail_with("if action missing GroupingIdentifier")),
            };
            let input = decode_conditional_input(params, aliases)?;
            let literal = match member_dict(params, "WFConditionalActionString") {
                Some(l) => l,
                None => return Err(fail_with("if action missing WFConditionalActionString")),
            };
            let value = decode_text_token_literal(literal)?;
            let inner_end = Some((String::from_str("is.workflow.actions.conditional"), grouping_id));
            let (then_actions, after) = decompile_sequence(items, i + 1, aliases, &inner_end)?;
            proof {
                lemma_decompile_advances(its, i + 1, aliases@, end_view(inner_end));
                lemma_actions_view(then_actions, then_actions.len() as nat);
            }
            decoded.push(ShortcutAction::IfEqualsText { input, value, then_actions });
            next = after;
        } else if repeat_start {
            let grouping_id = match member_str(params, "GroupingIdentifier") {
                Some(g) => g,
                None => return Err(fail_with("repeat action missing GroupingIdentifier")),
            };
            let container = match member_dict(params, "WFInput") {
                Some(c) => c,
                None => return Err(fail_with("repeat action missing WFInput")),
            };
            let input = decode_attachment_reference(container, aliases)?;
            let inner_end = Some((String::from_str("is.workflow.actions.repeat.each"), grouping_id));
            let (body, after) = decompile_sequence(items, i + 1, aliases, &inner_end)?;
            proof {
                lemma_decompile_advances(its, i + 1, aliases@, end_view(inner_end));
            }
            decoded.push(ShortcutAction::RepeatEach { input, body });
            next = after;
        } else {
            let a = decode_single_action(identifier.as_str(), params, aliases)?;
            decoded.push(a);
            next = i + 1;
        }
        proof {
            lemma_actions_view_push(before, decoded);
            lemma_prepend_step(acc, action_view(decoded@[before@.len() as int]), spec_decompile_sequence(its, next as int, aliases@, ev));
        }
        i = next;
    }
    match end_group {
        Some((expected_identifier, expected_group)) => {
            let mut msg = String::from_str("missing control flow terminator for ");
            msg.append(expected_identifier.as_str());
            msg.append(" group ");
            msg.append(expected_group.as_str());
            Err(MacosError::Other(msg))
        },
        None => {
            assert(actions_view(decoded) + Seq::<ShortcutActionView>::empty() =~= actions_view(decoded));
            Ok((decoded, i))
        },
    }
}

/// The alias an action gets, if it has an alias base.
fn infer_alias(identifier: &str, params: &PlistItem, counts: &mut CountTable) -> (r: Option<String>)
    requires
        forall|k: Seq<char>| #[trigger] old(counts)@.contains_key(k) ==> old(counts)@[k] < u64::MAX,
    ensures
        match spec_alias_base(identifier@, params@) {
            Some(base) => r matches Some(a) && (a@, final(counts)@) == spec_dedupe_alias(base, old(counts)@),
            None => r is None && final(counts)@ == old(counts)@,
        },
{
    let base = match member_str(params, "CustomOutputName") {
        Some(c) => c,
        None => match inferred_default_output_alias(identifier) {
            Some(a) => a,
            None => return None,
        },
    };
    Some(dedupe_alias(base, counts))
}

/// One record raises each alias count by at most one.
proof fn lemma_alias_step_counts(item: Item, state: (Map<Seq<char>, Seq<char>>, Map<Seq<char>, nat>), n: nat)
    requires
        forall|k: Seq<char>| #[trigger] state.1.contains_key(k) ==> state.1[k] <= n,
    ensures
        forall|k: Seq<char>| #[trigger] spec_alias_step(item, state).1.contains_key(k) ==> spec_alias_step(item, state).1[k] <= n + 1,
{
}

/// The alias of each action UUID in a list of records: an action's custom
/// output name, or the alias of its default output, made unique by a count.
pub fn alias_map(actions: &Vec<PlistItem>) -> (r: TextTable)
    ensures
        r@ == spec_alias_map(items_view(actions@)),
{
    let ghost items = items_view(actions@);
    let mut aliases = TextTable::new();
    let mut counts = CountTable::new();
    let mut i: usize = 0;
    while i < actions.len()
        invariant
            i <= actions.len(),
            items == items_view(actions@),
            (aliases@, counts@) == spec_alias_upto(items, i as nat),
            forall|k: Seq<char>| #[trigger] counts@.contains_key(k) ==> counts@[k] <= i,
        decreases actions.len() - i,
    {
        proof {
            lemma_alias_step_counts(items[i as int], spec_alias_upto(items, i as nat), i as nat);
        }
        let item = &actions[i];
        if item_is_dict(item) {
            if let Some(identifier) = member_str(item, "WFWorkflowActionIdentifier") {
                if let Some(params) = member_dict(item, "WFWorkflowActionParameters") {
                    if let Some(uuid) = member_str(params, "UUID") {
                        if let Some(alias) = infer_alias(identifier.as_str(), params, &mut counts) {
                            aliases.insert(uuid, alias);
                        }
                    }
                }
            }
        }
        i = i + 1;
    }
    aliases
}

/// Reads a compiled payload back as the actions it holds.
pub fn decompile_actions(payload: &[u8]) -> (r: Result<Vec<ShortcutAction>, MacosError>)
    ensures
        match spec_decompile_actions(payload@) {
            Ok(d) => r matches Ok(v) && actions_view(v) == d,
            Err(m) => r matches Err(e) && e@ == other(m),
        },
{
    let actions = match read_plist_items(payload) {
        Ok(v) => v,
        Err(m) => return Err(fail("failed to decode shortcut actions payload: ", m.as_str())),
    };
    let aliases = alias_map(&actions);
    let (decoded, next) = decompile_sequence(&actions, 0, &aliases, &None)?;
    if next != actions.len() {
        return Err(fail_with("did not consume entire shortcut action payload"));
    }
    Ok(decoded)
}

} // verus!
