//! The actions a shortcut runs, as the library describes them, and the
//! property-list entries that the Shortcuts app stores for each of them.
use vstd::prelude::*;

use crate::error::{MacosError, MacosErrorView};
use crate::shortcuts::record::{dict_of, no_entries, pairs_view, put, text_item, Item, PlistItem};
use crate::shortcuts::tables::OutputTable;
use crate::shortcuts::{ShortcutInputPolicy, ShortcutSurface};
use crate::stickies::{ascii_uppercase, new_uuid};

verus! {

broadcast use vstd::string::group_string_axioms;

/// Where an action takes its input from.
#[derive(Debug, Clone, PartialEq, Eq)]
pub enum ShortcutReference {
    /// The output of an earlier action, by its alias.
    Output(String),
    /// What the shortcut was given.
    ExtensionInput,
    /// The current item of the enclosing repeat.
    RepeatItem,
    /// The current index of the enclosing repeat.
    RepeatIndex,
}

/// The mathematical value of a [`ShortcutReference`].
pub enum ShortcutReferenceView {
    Output(Seq<char>),
    ExtensionInput,
    RepeatItem,
    RepeatIndex,
}

impl View for ShortcutReference {
    type V = ShortcutReferenceView;

    open spec fn view(&self) -> ShortcutReferenceView {
        match self {
            ShortcutReference::Output(name) => ShortcutReferenceView::Output(name@),
            ShortcutReference::ExtensionInput => ShortcutReferenceView::ExtensionInput,
            ShortcutReference::RepeatItem => ShortcutReferenceView::RepeatItem,
            ShortcutReference::RepeatIndex => ShortcutReferenceView::RepeatIndex,
        }
    }
}

/// One action of a shortcut.
#[derive(Debug, PartialEq, Eq)]
pub enum ShortcutAction {
    /// A fixed text.
    Text { value: String, output: Option<String> },
    /// The text of a reference.
    GetText { from: ShortcutReference, output: Option<String> },
    /// The URLs found in a reference.
    GetUrls { from: ShortcutReference, output: Option<String> },
    /// A find-and-replace over the text of a reference.
    ReplaceText {
        from: ShortcutReference,
        find: String,
        replace: String,
        regex: bool,
        ignore_case: bool,
        output: Option<String>,
    },
    /// Copies a reference to the clipboard.
    CopyToClipboard { from: ShortcutReference },
    /// Opens the share sheet on a reference.
    Share { from: ShortcutReference },
    /// Runs the inner actions when a reference equals a text.
    IfEqualsText { input: ShortcutReference, value: String, then_actions: Vec<ShortcutAction> },
    /// Runs the inner actions once for each item of a reference.
    RepeatEach { input: ShortcutReference, body: Vec<ShortcutAction> },
}

/// The mathematical value of a [`ShortcutAction`].
pub enum ShortcutActionView {
    Text { value: Seq<char>, output: Option<Seq<char>> },
    GetText { from: ShortcutReferenceView, output: Option<Seq<char>> },
    GetUrls { from: ShortcutReferenceView, output: Option<Seq<char>> },
    ReplaceText {
        from: ShortcutReferenceView,
        find: Seq<char>,
        replace: Seq<char>,
        regex: bool,
        ignore_case: bool,
        output: Option<Seq<char>>,
    },
    CopyToClipboard { from: ShortcutReferenceView },
    Share { from: ShortcutReferenceView },
    IfEqualsText { input: ShortcutReferenceView, value: Seq<char>, then_actions: Seq<ShortcutActionView> },
    RepeatEach { input: ShortcutReferenceView, body: Seq<ShortcutActionView> },
}

/// The view of an optional text.
pub open spec fn opt_view(o: Option<String>) -> Option<Seq<char>> {
    match o {
        Some(s) => Some(s@),
        None => None,
    }
}

/// The view of an action.
pub open spec fn action_view(a: ShortcutAction) -> ShortcutActionView
    decreases a, 0nat,
{
    match a {
        ShortcutAction::Text { value, output } => ShortcutActionView::Text { value: value@, output: opt_view(output) },
        ShortcutAction::GetText { from, output } => ShortcutActionView::GetText { from: from@, output: opt_view(output) },
        ShortcutAction::GetUrls { from, output } => ShortcutActionView::GetUrls { from: from@, output: opt_view(output) },
        ShortcutAction::ReplaceText { from, find, replace, regex, ignore_case, output } => ShortcutActionView::ReplaceText {
            from: from@,
            find: find@,
            replace: replace@,
            regex,
            ignore_case,
            output: opt_view(output),
        },
        ShortcutAction::CopyToClipboard { from } => ShortcutActionView::CopyToClipboard { from: from@ },
        ShortcutAction::Share { from } => ShortcutActionView::Share { from: from@ },
        ShortcutAction::IfEqualsText { input, value, then_actions } => ShortcutActionView::IfEqualsText {
            input: input@,
            value: value@,
            then_actions: actions_view_upto(then_actions, then_actions.len() as nat),
        },
        ShortcutAction::RepeatEach { input, body } => ShortcutActionView::RepeatEach {
            input: input@,
            body: actions_view_upto(body, body.len() as nat),
        },
    }
}

/// The views of the first `n` actions of a list.
pub open spec fn actions_view_upto(v: Vec<ShortcutAction>, n: nat) -> Seq<ShortcutActionView>
    decreases v, n,
{
    if n == 0 || n > v.len() {
        Seq::empty()
    } else {
        actions_view_upto(v, (n - 1) as nat).push(action_view(v[n - 1]))
    }
}

/// The views of a list of actions.
pub open spec fn actions_view(v: Vec<ShortcutAction>) -> Seq<ShortcutActionView> {
    actions_view_upto(v, v.len() as nat)
}

/// The views of a list of actions are the views of its items.
pub proof fn lemma_actions_view(v: Vec<ShortcutAction>, n: nat)
    requires
        n <= v.len(),
    ensures
        actions_view_upto(v, n).len() == n,
        forall|i: int| 0 <= i < n ==> actions_view_upto(v, n)[i] == action_view(#[trigger] v[i]),
    decreases n,
{
    if n > 0 {
        lemma_actions_view(v, (n - 1) as nat);
    }
}

/// The texts of a list of strings.
pub open spec fn texts(v: Seq<String>) -> Seq<Seq<char>> {
    v.map_values(|s: String| s@)
}

impl View for ShortcutAction {
    type V = ShortcutActionView;

    open spec fn view(&self) -> ShortcutActionView {
        action_view(*self)
    }
}

/// A shortcut as a plan: its name, where it appears, what input it accepts
/// and the actions it runs.
#[derive(Debug)]
pub struct ShortcutSpec {
    pub name: String,
    pub surfaces: Vec<ShortcutSurface>,
    pub input: ShortcutInputPolicy,
    pub actions: Vec<ShortcutAction>,
}

/// A fresh action UUID: a random version-4 UUID in upper case.
pub(crate) fn new_action_uuid() -> String {
    let id = new_uuid();
    ascii_uppercase(id.as_str())
}

/// The attachment that stands for the output `name` of the action `uuid`.
pub open spec fn output_attachment(name: Seq<char>, uuid: Seq<char>) -> Item {
    Item::Dict(
        seq![("OutputName"@, Item::Str(name))]
            .push(("OutputUUID"@, Item::Str(uuid)))
            .push(("Type"@, Item::Str("ActionOutput"@))),
    )
}

/// The attachment that stands for the shortcut's input.
pub open spec fn extension_input_attachment() -> Item {
    Item::Dict(seq![("Type"@, Item::Str("ExtensionInput"@))])
}

/// The attachment that stands for the named variable.
pub open spec fn variable_attachment(name: Seq<char>) -> Item {
    Item::Dict(seq![("Type"@, Item::Str("Variable"@))].push(("VariableName"@, Item::Str(name))))
}

/// A reference that hands an attachment over as it is.
pub open spec fn direct_reference(attachment: Item) -> Item {
    Item::Dict(seq![("Value"@, attachment)].push(("WFSerializationType"@, Item::Str("WFTextTokenAttachment"@))))
}

/// A text made of one placeholder that the attachment fills.
pub open spec fn text_token(attachment: Item) -> Item {
    let placeholder = seq![("attachmentsByRange"@, Item::Dict(seq![("{0, 1}"@, attachment)]))]
        .push(("string"@, Item::Str("\u{fffc}"@)));
    Item::Dict(seq![("Value"@, Item::Dict(placeholder))].push(("WFSerializationType"@, Item::Str("WFTextTokenString"@))))
}

/// A reference in the variable wrapper that conditions take.
pub open spec fn variable_wrapper(reference: Item) -> Item {
    Item::Dict(seq![("Type"@, Item::Str("Variable"@))].push(("Variable"@, reference)))
}

/// The attachment a reference stands for, given the outputs named so far.
pub open spec fn spec_attachment(
    outputs: Map<Seq<char>, (Seq<char>, Seq<char>)>,
    reference: ShortcutReferenceView,
) -> Result<Item, Seq<char>> {
    match reference {
        ShortcutReferenceView::Output(name) => if outputs.contains_key(name) {
            Ok(output_attachment(outputs[name].0, outputs[name].1))
        } else {
            Err("unknown shortcut output reference: "@ + name)
        },
        ShortcutReferenceView::ExtensionInput => Ok(extension_input_attachment()),
        ShortcutReferenceView::RepeatItem => Ok(variable_attachment("Repeat Item"@)),
        ShortcutReferenceView::RepeatIndex => Ok(variable_attachment("Repeat Index"@)),
    }
}

/// A reference as an action parameter: a text token or the attachment
/// itself.
pub open spec fn spec_resolve_reference(
    outputs: Map<Seq<char>, (Seq<char>, Seq<char>)>,
    reference: ShortcutReferenceView,
    as_text_token: bool,
) -> Result<Item, Seq<char>> {
    match spec_attachment(outputs, reference) {
        Ok(a) => Ok(if as_text_token { text_token(a) } else { direct_reference(a) }),
        Err(e) => Err(e),
    }
}

fn output_attachment_item(name: &str, uuid: &str) -> (r: PlistItem)
    ensures
        r@ == output_attachment(name@, uuid@),
{
    let mut v = no_entries();
    put(&mut v, "OutputName", text_item(name));
    put(&mut v, "OutputUUID", text_item(uuid));
    put(&mut v, "Type", text_item("ActionOutput"));
    dict_of(v)
}

fn variable_attachment_item(name: &str) -> (r: PlistItem)
    ensures
        r@ == variable_attachment(name@),
{
    let mut v = no_entries();
    put(&mut v, "Type", text_item("Variable"));
    put(&mut v, "VariableName", text_item(name));
    dict_of(v)
}

/// Wraps a reference for a condition.
pub fn variable_wrapper_item(reference: PlistItem) -> (r: PlistItem)
    ensures
        r@ == variable_wrapper(reference@),
{
    let mut v = no_entries();
    put(&mut v, "Type", text_item("Variable"));
    put(&mut v, "Variable", reference);
    dict_of(v)
}

/// The attachment a reference stands for.
fn attachment_item(outputs: &OutputTable, reference: &ShortcutReference) -> (r: Result<PlistItem, MacosError>)
    ensures
        match spec_attachment(outputs@, reference@) {
            Ok(a) => r matches Ok(s) && s@ == a,
            Err(m) => r matches Err(e) && e@ == MacosErrorView::Other(m),
        },
{
    match reference {
        ShortcutReference::Output(name) => match outputs.get(name) {
            Some((output_name, output_uuid)) => Ok(output_attachment_item(output_name.as_str(), output_uuid.as_str())),
            None => {
                let mut msg = String::from_str("unknown shortcut output reference: ");
                msg.append(name.as_str());
                Err(MacosError::Other(msg))
            },
        },
        ShortcutReference::ExtensionInput => {
            let mut v = no_entries();
            put(&mut v, "Type", text_item("ExtensionInput"));
            Ok(dict_of(v))
        },
        ShortcutReference::RepeatItem => Ok(variable_attachment_item("Repeat Item")),
        ShortcutReference::RepeatIndex => Ok(variable_attachment_item("Repeat Index")),
    }
}

/// A reference as an action parameter: a text token or the attachment
/// itself.
pub fn resolve_reference(outputs: &OutputTable, reference: &ShortcutReference, as_text_token: bool) -> (r: Result<
    PlistItem,
    MacosError,
>)
    ensures
        match spec_resolve_reference(outputs@, reference@, as_text_token) {
            Ok(t) => r matches Ok(s) && s@ == t,
            Err(m) => r matches Err(e) && e@ == MacosErrorView::Other(m),
        },
{
    let a = attachment_item(outputs, reference)?;
    if as_text_token {
        let mut range = no_entries();
        put(&mut range, "{0, 1}", a);
        let mut inner = no_entries();
        put(&mut inner, "attachmentsByRange", dict_of(range));
        put(&mut inner, "string", text_item("\u{fffc}"));
        let mut v = no_entries();
        put(&mut v, "Value", dict_of(inner));
        put(&mut v, "WFSerializationType", text_item("WFTextTokenString"));
        Ok(dict_of(v))
    } else {
        let mut v = no_entries();
        put(&mut v, "Value", a);
        put(&mut v, "WFSerializationType", text_item("WFTextTokenAttachment"));
        Ok(dict_of(v))
    }
}

/// An action record: its identifier and its parameters.
pub open spec fn action_record(identifier: Seq<char>, params: Seq<(Seq<char>, Item)>) -> Item {
    Item::Dict(
        seq![("WFWorkflowActionIdentifier"@, Item::Str(identifier))]
            .push(("WFWorkflowActionParameters"@, Item::Dict(params))),
    )
}

/// The parameter entry that gives an action's output its custom name.
pub open spec fn custom_output_member(output: Option<Seq<char>>) -> Seq<(Seq<char>, Item)> {
    match output {
        Some(o) => seq![("CustomOutputName"@, Item::Str(o))],
        None => Seq::empty(),
    }
}

/// The outputs after an action with the given output and UUID.
pub open spec fn record_output(
    outputs: Map<Seq<char>, (Seq<char>, Seq<char>)>,
    output: Option<Seq<char>>,
    uuid: Seq<char>,
) -> Map<Seq<char>, (Seq<char>, Seq<char>)> {
    match output {
        Some(o) => outputs.insert(o, (o, uuid)),
        None => outputs,
    }
}

/// Whether compiling an action takes a fresh UUID.
pub open spec fn takes_uuid(a: ShortcutActionView) -> bool {
    match a {
        ShortcutActionView::Text { .. } => true,
        ShortcutActionView::GetText { .. } => true,
        ShortcutActionView::GetUrls { .. } => true,
        ShortcutActionView::ReplaceText { .. } => true,
        _ => false,
    }
}

/// The record of a single (not control-flow) action and the outputs after
/// it, given the UUID it gets; references resolve against the outputs before
/// the action. The parameters come in the order of their names.
pub open spec fn spec_build_action(
    a: ShortcutActionView,
    outputs: Map<Seq<char>, (Seq<char>, Seq<char>)>,
    uuid: Seq<char>,
) -> Result<(Item, Map<Seq<char>, (Seq<char>, Seq<char>)>), Seq<char>> {
    match a {
        ShortcutActionView::Text { value, output } => Ok((
            action_record(
                "is.workflow.actions.gettext"@,
                custom_output_member(output)
                    .push(("UUID"@, Item::Str(uuid)))
                    .push(("WFTextActionText"@, Item::Str(value))),
            ),
            record_output(outputs, output, uuid),
        )),
        ShortcutActionView::GetText { from, output } => match spec_resolve_reference(outputs, from, true) {
            Ok(t) => Ok((
                action_record(
                    "is.workflow.actions.gettext"@,
                    custom_output_member(output).push(("UUID"@, Item::Str(uuid))).push(("WFTextActionText"@, t)),
                ),
                record_output(outputs, output, uuid),
            )),
            Err(e) => Err(e),
        },
        ShortcutActionView::GetUrls { from, output } => match spec_resolve_reference(outputs, from, false) {
            Ok(d) => Ok((
                action_record(
                    "is.workflow.actions.detect.link"@,
                    custom_output_member(output).push(("UUID"@, Item::Str(uuid))).push(("WFInput"@, d)),
                ),
                record_output(outputs, output, uuid),
            )),
            Err(e) => Err(e),
        },
        ShortcutActionView::ReplaceText { from, find, replace, regex, ignore_case, output } => match spec_resolve_reference(
            outputs,
            from,
            true,
        ) {
            Ok(t) => Ok((
                action_record(
                    "is.workflow.actions.text.replace"@,
                    custom_output_member(output)
                        .push(("UUID"@, Item::Str(uuid)))
                        .push(("WFInput"@, t))
                        .push(("WFReplaceTextCaseSensitive"@, Item::Bool(!ignore_case)))
                        .push(("WFReplaceTextFind"@, Item::Str(find)))
                        .push(("WFReplaceTextRegularExpression"@, Item::Bool(regex)))
                        .push(("WFReplaceTextReplace"@, Item::Str(replace))),
                ),
                record_output(outputs, output, uuid),
            )),
            Err(e) => Err(e),
        },
        ShortcutActionView::CopyToClipboard { from } => match spec_resolve_reference(outputs, from, false) {
            Ok(d) => Ok((action_record("is.workflow.actions.setclipboard"@, seq![("WFInput"@, d)]), outputs)),
            Err(e) => Err(e),
        },
        ShortcutActionView::Share { from } => match spec_resolve_reference(outputs, from, false) {
            Ok(d) => Ok((action_record("is.workflow.actions.share"@, seq![("WFInput"@, d)]), outputs)),
            Err(e) => Err(e),
        },
        _ => Err("shortcut action not yet supported by compiler"@),
    }
}

/// An action record with these parameters.
pub fn action_record_item(identifier: &str, params: Vec<(String, PlistItem)>) -> (r: PlistItem)
    ensures
        r@ == action_record(identifier@, pairs_view(params@)),
{
    let mut v = no_entries();
    put(&mut v, "WFWorkflowActionIdentifier", text_item(identifier));
    put(&mut v, "WFWorkflowActionParameters", dict_of(params));
    dict_of(v)
}

/// The parameters an action starts with: its custom output name, if it has
/// one.
fn custom_entries(output: &Option<String>) -> (v: Vec<(String, PlistItem)>)
    ensures
        pairs_view(v@) == custom_output_member(opt_view(*output)),
{
    let mut v = no_entries();
    match output {
        Some(o) => {
            put(&mut v, "CustomOutputName", text_item(o.as_str()));
        },
        None => {},
    }
    v
}

fn record_output_exec(outputs: &mut OutputTable, output: &Option<String>, uuid: &String)
    ensures
        final(outputs)@ == record_output(old(outputs)@, opt_view(*output), uuid@),
{
    if let Some(o) = output {
        outputs.insert(o.clone(), o.clone(), uuid.clone());
    }
}

/// The record of a single (not control-flow) action, with the given UUID.
pub fn build_action_with_uuid(action: &ShortcutAction, outputs: &mut OutputTable, uuid: &String) -> (r: Result<
    PlistItem,
    MacosError,
>)
    ensures
        match spec_build_action(action@, old(outputs)@, uuid@) {
            Ok((item, outs)) => r matches Ok(s) && s@ == item && final(outputs)@ == outs,
            Err(m) => r matches Err(e) && e@ == MacosErrorView::Other(m) && final(outputs)@ == old(outputs)@,
        },
{
    match action {
        ShortcutAction::Text { value, output } => {
            let mut p = custom_entries(output);
            put(&mut p, "UUID", text_item(uuid.as_str()));
            put(&mut p, "WFTextActionText", text_item(value.as_str()));
            record_output_exec(outputs, output, uuid);
            Ok(action_record_item("is.workflow.actions.gettext", p))
        },
        ShortcutAction::GetText { from, output } => {
            let t = resolve_reference(outputs, from, true)?;
            let mut p = custom_entries(output);
            put(&mut p, "UUID", text_item(uuid.as_str()));
            put(&mut p, "WFTextActionText", t);
            record_output_exec(outputs, output, uuid);
            Ok(action_record_item("is.workflow.actions.gettext", p))
        },
        ShortcutAction::GetUrls { from, output } => {
            let d = resolve_reference(outputs, from, false)?;
            let mut p = custom_entries(output);
            put(&mut p, "UUID", text_item(uuid.as_str()));
            put(&mut p, "WFInput", d);
            record_output_exec(outputs, output, uuid);
            Ok(action_record_item("is.workflow.actions.detect.link", p))
        },
        ShortcutAction::ReplaceText { from, find, replace, regex, ignore_case, output } => {
            let t = resolve_reference(outputs, from, true)?;
            let mut p = custom_entries(output);
            put(&mut p, "UUID", text_item(uuid.as_str()));
            put(&mut p, "WFInput", t);
            put(&mut p, "WFReplaceTextCaseSensitive", PlistItem::Bool(!*ignore_case));
            put(&mut p, "WFReplaceTextFind", text_item(find.as_str()));
            put(&mut p, "WFReplaceTextRegularExpression", PlistItem::Bool(*regex));
            put(&mut p, "WFReplaceTextReplace", text_item(replace.as_str()));
            record_output_exec(outputs, output, uuid);
            Ok(action_record_item("is.workflow.actions.text.replace", p))
        },
        ShortcutAction::CopyToClipboard { from } => {
            let d = resolve_reference(outputs, from, false)?;
            let mut p = no_entries();
            put(&mut p, "WFInput", d);
            Ok(action_record_item("is.workflow.actions.setclipboard", p))
        },
        ShortcutAction::Share { from } => {
            let d = resolve_reference(outputs, from, false)?;
            let mut p = no_entries();
            put(&mut p, "WFInput", d);
            Ok(action_record_item("is.workflow.actions.share", p))
        },
        _ => Err(MacosError::Other(String::from_str("shortcut action not yet supported by compiler"))),
    }
}

/// The record of a single (not control-flow) action; the action gets a fresh
/// UUID when it records one.
pub fn build_action(action: &ShortcutAction, outputs: &mut OutputTable) -> (r: Result<PlistItem, MacosError>)
    ensures
        exists|uuid: Seq<char>|
            match #[trigger] spec_build_action(action@, old(outputs)@, uuid) {
                Ok((item, outs)) => r matches Ok(s) && s@ == item && final(outputs)@ == outs,
                Err(m) => r matches Err(e) && e@ == MacosErrorView::Other(m) && final(outputs)@ == old(outputs)@,
            },
{
    let uuid = if action_takes_uuid(action) {
        new_action_uuid()
    } else {
        String::new()
    };
    let r = build_action_with_uuid(action, outputs, &uuid);
    assert(match spec_build_action(action@, old(outputs)@, uuid@) {
        Ok((item, outs)) => r matches Ok(s) && s@ == item && final(outputs)@ == outs,
        Err(m) => r matches Err(e) && e@ == MacosErrorView::Other(m) && final(outputs)@ == old(outputs)@,
    });
    r
}

/// Whether compiling an action takes a fresh UUID.
pub fn action_takes_uuid(action: &ShortcutAction) -> (r: bool)
    ensures
        r == takes_uuid(action@),
{
    match action {
        ShortcutAction::Text { .. } => true,
        ShortcutAction::GetText { .. } => true,
        ShortcutAction::GetUrls { .. } => true,
        ShortcutAction::ReplaceText { .. } => true,
        _ => false,
    }
}

} // verus!
