//! Reading back what the compiler writes: decompiling the payload compiled
//! from a list of actions gives the same actions, when each action that
//! records an output names it, no two outputs share a name and no two
//! actions share a UUID.
use vstd::prelude::*;

use crate::shortcuts::actions::{
    direct_reference, spec_attachment, spec_build_action, takes_uuid, text_token, variable_wrapper, ShortcutActionView,
    ShortcutReferenceView,
};
use crate::shortcuts::compiler::seen_count;
use crate::shortcuts::decode::{
    prepend_action, spec_alias_map, spec_alias_step, spec_alias_upto, spec_decode_attachment_reference,
    spec_decode_conditional_input, spec_decode_text_token_literal, spec_decompile_actions, spec_decompile_sequence,
};
use crate::shortcuts::encode::{
    control_flow_end, ids_needed, spec_compile_one, spec_compile_seq, spec_if_start, spec_repeat_each_start, text_literal,
};
use crate::shortcuts::record::{
    binary_plist_items, dict_member, first_value, is_dict, lookup_from, member, plain, plain_items, plist_items, str_member,
    Item,
};

verus! {

broadcast use vstd::string::group_string_axioms;

/// The texts that name the parts of action records differ from one another.
spec fn names_differ() -> bool {
    &&& "WFWorkflowActionIdentifier"@ != "WFWorkflowActionParameters"@
    &&& "WFWorkflowActionIdentifier"@ != "CustomOutputName"@
    &&& "WFWorkflowActionIdentifier"@ != "UUID"@
    &&& "WFWorkflowActionIdentifier"@ != "WFTextActionText"@
    &&& "WFWorkflowActionIdentifier"@ != "WFInput"@
    &&& "WFWorkflowActionIdentifier"@ != "WFReplaceTextCaseSensitive"@
    &&& "WFWorkflowActionIdentifier"@ != "WFReplaceTextFind"@
    &&& "WFWorkflowActionIdentifier"@ != "WFReplaceTextRegularExpression"@
    &&& "WFWorkflowActionIdentifier"@ != "WFReplaceTextReplace"@
    &&& "WFWorkflowActionIdentifier"@ != "GroupingIdentifier"@
    &&& "WFWorkflowActionIdentifier"@ != "WFCondition"@
    &&& "WFWorkflowActionIdentifier"@ != "WFConditionalActionString"@
    &&& "WFWorkflowActionIdentifier"@ != "WFControlFlowMode"@
    &&& "WFWorkflowActionIdentifier"@ != "Value"@
    &&& "WFWorkflowActionIdentifier"@ != "WFSerializationType"@
    &&& "WFWorkflowActionIdentifier"@ != "attachmentsByRange"@
    &&& "WFWorkflowActionIdentifier"@ != "string"@
    &&& "WFWorkflowActionIdentifier"@ != "Type"@
    &&& "WFWorkflowActionIdentifier"@ != "Variable"@
    &&& "WFWorkflowActionIdentifier"@ != "OutputName"@
    &&& "WFWorkflowActionIdentifier"@ != "OutputUUID"@
    &&& "WFWorkflowActionIdentifier"@ != "VariableName"@
    &&& "WFWorkflowActionIdentifier"@ != "{0, 1}"@
    &&& "WFWorkflowActionParameters"@ != "CustomOutputName"@
    &&& "WFWorkflowActionParameters"@ != "UUID"@
    &&& "WFWorkflowActionParameters"@ != "WFTextActionText"@
    &&& "WFWorkflowActionParameters"@ != "WFInput"@
    &&& "WFWorkflowActionParameters"@ != "WFReplaceTextCaseSensitive"@
    &&& "WFWorkflowActionParameters"@ != "WFReplaceTextFind"@
    &&& "WFWorkflowActionParameters"@ != "WFReplaceTextRegularExpression"@
    &&& "WFWorkflowActionParameters"@ != "WFReplaceTextReplace"@
    &&& "WFWorkflowActionParameters"@ != "GroupingIdentifier"@
    &&& "WFWorkflowActionParameters"@ != "WFCondition"@
    &&& "WFWorkflowActionParameters"@ != "WFConditionalActionString"@
    &&& "WFWorkflowActionParameters"@ != "WFControlFlowMode"@
    &&& "WFWorkflowActionParameters"@ != "Value"@
    &&& "WFWorkflowActionParameters"@ != "WFSerializationType"@
    &&& "WFWorkflowActionParameters"@ != "attachmentsByRange"@
    &&& "WFWorkflowActionParameters"@ != "string"@
    &&& "WFWorkflowActionParameters"@ != "Type"@
    &&& "WFWorkflowActionParameters"@ != "Variable"@
    &&& "WFWorkflowActionParameters"@ != "OutputName"@
    &&& "WFWorkflowActionParameters"@ != "OutputUUID"@
    &&& "WFWorkflowActionParameters"@ != "VariableName"@
    &&& "WFWorkflowActionParameters"@ != "{0, 1}"@
    &&& "CustomOutputName"@ != "UUID"@
    &&& "CustomOutputName"@ != "WFTextActionText"@
    &&& "CustomOutputName"@ != "WFInput"@
    &&& "CustomOutputName"@ != "WFReplaceTextCaseSensitive"@
    &&& "CustomOutputName"@ != "WFReplaceTextFind"@
    &&& "CustomOutputName"@ != "WFReplaceTextRegularExpression"@
    &&& "CustomOutputName"@ != "WFReplaceTextReplace"@
    &&& "CustomOutputName"@ != "GroupingIdentifier"@
    &&& "CustomOutputName"@ != "WFCondition"@
    &&& "CustomOutputName"@ != "WFConditionalActionString"@
    &&& "CustomOutputName"@ != "WFControlFlowMode"@
    &&& "CustomOutputName"@ != "Value"@
    &&& "CustomOutputName"@ != "WFSerializationType"@
    &&& "CustomOutputName"@ != "attachmentsByRange"@
    &&& "CustomOutputName"@ != "string"@
    &&& "CustomOutputName"@ != "Type"@
    &&& "CustomOutputName"@ != "Variable"@
    &&& "CustomOutputName"@ != "OutputName"@
    &&& "CustomOutputName"@ != "OutputUUID"@
    &&& "CustomOutputName"@ != "VariableName"@
    &&& "CustomOutputName"@ != "{0, 1}"@
    &&& "UUID"@ != "WFTextActionText"@
    &&& "UUID"@ != "WFInput"@
    &&& "UUID"@ != "WFReplaceTextCaseSensitive"@
    &&& "UUID"@ != "WFReplaceTextFind"@
    &&& "UUID"@ != "WFReplaceTextRegularExpression"@
    &&& "UUID"@ != "WFReplaceTextReplace"@
    &&& "UUID"@ != "GroupingIdentifier"@
    &&& "UUID"@ != "WFCondition"@
    &&& "UUID"@ != "WFConditionalActionString"@
    &&& "UUID"@ != "WFControlFlowMode"@
    &&& "UUID"@ != "Value"@
    &&& "UUID"@ != "WFSerializationType"@
    &&& "UUID"@ != "attachmentsByRange"@
    &&& "UUID"@ != "string"@
    &&& "UUID"@ != "Type"@
    &&& "UUID"@ != "Variable"@
    &&& "UUID"@ != "OutputName"@
    &&& "UUID"@ != "OutputUUID"@
    &&& "UUID"@ != "VariableName"@
    &&& "UUID"@ != "{0, 1}"@
    &&& "WFTextActionText"@ != "WFInput"@
    &&& "WFTextActionText"@ != "WFReplaceTextCaseSensitive"@
    &&& "WFTextActionText"@ != "WFReplaceTextFind"@
    &&& "WFTextActionText"@ != "WFReplaceTextRegularExpression"@
    &&& "WFTextActionText"@ != "WFReplaceTextReplace"@
    &&& "WFTextActionText"@ != "GroupingIdentifier"@
    &&& "WFTextActionText"@ != "WFCondition"@
    &&& "WFTextActionText"@ != "WFConditionalActionString"@
    &&& "WFTextActionText"@ != "WFControlFlowMode"@
    &&& "WFTextActionText"@ != "Value"@
    &&& "WFTextActionText"@ != "WFSerializationType"@
    &&& "WFTextActionText"@ != "attachmentsByRange"@
    &&& "WFTextActionText"@ != "string"@
    &&& "WFTextActionText"@ != "Type"@
    &&& "WFTextActionText"@ != "Variable"@
    &&& "WFTextActionText"@ != "OutputName"@
    &&& "WFTextActionText"@ != "OutputUUID"@
    &&& "WFTextActionText"@ != "VariableName"@
    &&& "WFTextActionText"@ != "{0, 1}"@
    &&& "WFInput"@ != "WFReplaceTextCaseSensitive"@
    &&& "WFInput"@ != "WFReplaceTextFind"@
    &&& "WFInput"@ != "WFReplaceTextRegularExpression"@
    &&& "WFInput"@ != "WFReplaceTextReplace"@
    &&& "WFInput"@ != "GroupingIdentifier"@
    &&& "WFInput"@ != "WFCondition"@
    &&& "WFInput"@ != "WFConditionalActionString"@
    &&& "WFInput"@ != "WFControlFlowMode"@
    &&& "WFInput"@ != "Value"@
    &&& "WFInput"@ != "WFSerializationType"@
    &&& "WFInput"@ != "attachmentsByRange"@
    &&& "WFInput"@ != "string"@
    &&& "WFInput"@ != "Type"@
    &&& "WFInput"@ != "Variable"@
    &&& "WFInput"@ != "OutputName"@
    &&& "WFInput"@ != "OutputUUID"@
    &&& "WFInput"@ != "VariableName"@
    &&& "WFInput"@ != "{0, 1}"@
    &&& "WFReplaceTextCaseSensitive"@ != "WFReplaceTextFind"@
    &&& "WFReplaceTextCaseSensitive"@ != "WFReplaceTextRegularExpression"@
    &&& "WFReplaceTextCaseSensitive"@ != "WFReplaceTextReplace"@
    &&& "WFReplaceTextCaseSensitive"@ != "GroupingIdentifier"@
    &&& "WFReplaceTextCaseSensitive"@ != "WFCondition"@
    &&& "WFReplaceTextCaseSensitive"@ != "WFConditionalActionString"@
    &&& "WFReplaceTextCaseSensitive"@ != "WFControlFlowMode"@
    &&& "WFReplaceTextCaseSensitive"@ != "Value"@
    &&& "WFReplaceTextCaseSensitive"@ != "WFSerializationType"@
    &&& "WFReplaceTextCaseSensitive"@ != "attachmentsByRange"@
    &&& "WFReplaceTextCaseSensitive"@ != "string"@
    &&& "WFReplaceTextCaseSensitive"@ != "Type"@
    &&& "WFReplaceTextCaseSensitive"@ != "Variable"@
    &&& "WFReplaceTextCaseSensitive"@ != "OutputName"@
    &&& "WFReplaceTextCaseSensitive"@ != "OutputUUID"@
    &&& "WFReplaceTextCaseSensitive"@ != "VariableName"@
    &&& "WFReplaceTextCaseSensitive"@ != "{0, 1}"@
    &&& "WFReplaceTextFind"@ != "WFReplaceTextRegularExpression"@
    &&& "WFReplaceTextFind"@ != "WFReplaceTextReplace"@
    &&& "WFReplaceTextFind"@ != "GroupingIdentifier"@
    &&& "WFReplaceTextFind"@ != "WFCondition"@
    &&& "WFReplaceTextFind"@ != "WFConditionalActionString"@
    &&& "WFReplaceTextFind"@ != "WFControlFlowMode"@
    &&& "WFReplaceTextFind"@ != "Value"@
    &&& "WFReplaceTextFind"@ != "WFSerializationType"@
    &&& "WFReplaceTextFind"@ != "attachmentsByRange"@
    &&& "WFReplaceTextFind"@ != "string"@
    &&& "WFReplaceTextFind"@ != "Type"@
    &&& "WFReplaceTextFind"@ != "Variable"@
    &&& "WFReplaceTextFind"@ != "OutputName"@
    &&& "WFReplaceTextFind"@ != "OutputUUID"@
    &&& "WFReplaceTextFind"@ != "VariableName"@
    &&& "WFReplaceTextFind"@ != "{0, 1}"@
    &&& "WFReplaceTextRegularExpression"@ != "WFReplaceTextReplace"@
    &&& "WFReplaceTextRegularExpression"@ != "GroupingIdentifier"@
    &&& "WFReplaceTextRegularExpression"@ != "WFCondition"@
    &&& "WFReplaceTextRegularExpression"@ != "WFConditionalActionString"@
    &&& "WFReplaceTextRegularExpression"@ != "WFControlFlowMode"@
    &&& "WFReplaceTextRegularExpression"@ != "Value"@
    &&& "WFReplaceTextRegularExpression"@ != "WFSerializationType"@
    &&& "WFReplaceTextRegularExpression"@ != "attachmentsByRange"@
    &&& "WFReplaceTextRegularExpression"@ != "string"@
    &&& "WFReplaceTextRegularExpression"@ != "Type"@
    &&& "WFReplaceTextRegularExpression"@ != "Variable"@
    &&& "WFReplaceTextRegularExpression"@ != "OutputName"@
    &&& "WFReplaceTextRegularExpression"@ != "OutputUUID"@
    &&& "WFReplaceTextRegularExpression"@ != "VariableName"@
    &&& "WFReplaceTextRegularExpression"@ != "{0, 1}"@
    &&& "WFReplaceTextReplace"@ != "GroupingIdentifier"@
    &&& "WFReplaceTextReplace"@ != "WFCondition"@
    &&& "WFReplaceTextReplace"@ != "WFConditionalActionString"@
    &&& "WFReplaceTextReplace"@ != "WFControlFlowMode"@
    &&& "WFReplaceTextReplace"@ != "Value"@
    &&& "WFReplaceTextReplace"@ != "WFSerializationType"@
    &&& "WFReplaceTextReplace"@ != "attachmentsByRange"@
    &&& "WFReplaceTextReplace"@ != "string"@
    &&& "WFReplaceTextReplace"@ != "Type"@
    &&& "WFReplaceTextReplace"@ != "Variable"@
    &&& "WFReplaceTextReplace"@ != "OutputName"@
    &&& "WFReplaceTextReplace"@ != "OutputUUID"@
    &&& "WFReplaceTextReplace"@ != "VariableName"@
    &&& "WFReplaceTextReplace"@ != "{0, 1}"@
    &&& "GroupingIdentifier"@ != "WFCondition"@
    &&& "GroupingIdentifier"@ != "WFConditionalActionString"@
    &&& "GroupingIdentifier"@ != "WFControlFlowMode"@
    &&& "GroupingIdentifier"@ != "Value"@
    &&& "GroupingIdentifier"@ != "WFSerializationType"@
    &&& "GroupingIdentifier"@ != "attachmentsByRange"@
    &&& "GroupingIdentifier"@ != "string"@
    &&& "GroupingIdentifier"@ != "Type"@
    &&& "GroupingIdentifier"@ != "Variable"@
    &&& "GroupingIdentifier"@ != "OutputName"@
    &&& "GroupingIdentifier"@ != "OutputUUID"@
    &&& "GroupingIdentifier"@ != "VariableName"@
    &&& "GroupingIdentifier"@ != "{0, 1}"@
    &&& "WFCondition"@ != "WFConditionalActionString"@
    &&& "WFCondition"@ != "WFControlFlowMode"@
    &&& "WFCondition"@ != "Value"@
    &&& "WFCondition"@ != "WFSerializationType"@
    &&& "WFCondition"@ != "attachmentsByRange"@
    &&& "WFCondition"@ != "string"@
    &&& "WFCondition"@ != "Type"@
    &&& "WFCondition"@ != "Variable"@
    &&& "WFCondition"@ != "OutputName"@
    &&& "WFCondition"@ != "OutputUUID"@
    &&& "WFCondition"@ != "VariableName"@
    &&& "WFCondition"@ != "{0, 1}"@
    &&& "WFConditionalActionString"@ != "WFControlFlowMode"@
    &&& "WFConditionalActionString"@ != "Value"@
    &&& "WFConditionalActionString"@ != "WFSerializationType"@
    &&& "WFConditionalActionString"@ != "attachmentsByRange"@
    &&& "WFConditionalActionString"@ != "string"@
    &&& "WFConditionalActionString"@ != "Type"@
    &&& "WFConditionalActionString"@ != "Variable"@
    &&& "WFConditionalActionString"@ != "OutputName"@
    &&& "WFConditionalActionString"@ != "OutputUUID"@
    &&& "WFConditionalActionString"@ != "VariableName"@
    &&& "WFConditionalActionString"@ != "{0, 1}"@
    &&& "WFControlFlowMode"@ != "Value"@
    &&& "WFControlFlowMode"@ != "WFSerializationType"@
    &&& "WFControlFlowMode"@ != "attachmentsByRange"@
    &&& "WFControlFlowMode"@ != "string"@
    &&& "WFControlFlowMode"@ != "Type"@
    &&& "WFControlFlowMode"@ != "Variable"@
    &&& "WFControlFlowMode"@ != "OutputName"@
    &&& "WFControlFlowMode"@ != "OutputUUID"@
    &&& "WFControlFlowMode"@ != "VariableName"@
    &&& "WFControlFlowMode"@ != "{0, 1}"@
    &&& "Value"@ != "WFSerializationType"@
    &&& "Value"@ != "attachmentsByRange"@
    &&& "Value"@ != "string"@
    &&& "Value"@ != "Type"@
    &&& "Value"@ != "Variable"@
    &&& "Value"@ != "OutputName"@
    &&& "Value"@ != "OutputUUID"@
    &&& "Value"@ != "VariableName"@
    &&& "Value"@ != "{0, 1}"@
    &&& "WFSerializationType"@ != "attachmentsByRange"@
    &&& "WFSerializationType"@ != "string"@
    &&& "WFSerializationType"@ != "Type"@
    &&& "WFSerializationType"@ != "Variable"@
    &&& "WFSerializationType"@ != "OutputName"@
    &&& "WFSerializationType"@ != "OutputUUID"@
    &&& "WFSerializationType"@ != "VariableName"@
    &&& "WFSerializationType"@ != "{0, 1}"@
    &&& "attachmentsByRange"@ != "string"@
    &&& "attachmentsByRange"@ != "Type"@
    &&& "attachmentsByRange"@ != "Variable"@
    &&& "attachmentsByRange"@ != "OutputName"@
    &&& "attachmentsByRange"@ != "OutputUUID"@
    &&& "attachmentsByRange"@ != "VariableName"@
    &&& "attachmentsByRange"@ != "{0, 1}"@
    &&& "string"@ != "Type"@
    &&& "string"@ != "Variable"@
    &&& "string"@ != "OutputName"@
    &&& "string"@ != "OutputUUID"@
    &&& "string"@ != "VariableName"@
    &&& "string"@ != "{0, 1}"@
    &&& "Type"@ != "Variable"@
    &&& "Type"@ != "OutputName"@
    &&& "Type"@ != "OutputUUID"@
    &&& "Type"@ != "VariableName"@
    &&& "Type"@ != "{0, 1}"@
    &&& "Variable"@ != "OutputName"@
    &&& "Variable"@ != "OutputUUID"@
    &&& "Variable"@ != "VariableName"@
    &&& "Variable"@ != "{0, 1}"@
    &&& "OutputName"@ != "OutputUUID"@
    &&& "OutputName"@ != "VariableName"@
    &&& "OutputName"@ != "{0, 1}"@
    &&& "OutputUUID"@ != "VariableName"@
    &&& "OutputUUID"@ != "{0, 1}"@
    &&& "VariableName"@ != "{0, 1}"@
    &&& "is.workflow.actions.gettext"@ != "is.workflow.actions.text.replace"@
    &&& "is.workflow.actions.gettext"@ != "is.workflow.actions.detect.link"@
    &&& "is.workflow.actions.gettext"@ != "is.workflow.actions.setclipboard"@
    &&& "is.workflow.actions.gettext"@ != "is.workflow.actions.share"@
    &&& "is.workflow.actions.gettext"@ != "is.workflow.actions.conditional"@
    &&& "is.workflow.actions.gettext"@ != "is.workflow.actions.repeat.each"@
    &&& "is.workflow.actions.text.replace"@ != "is.workflow.actions.detect.link"@
    &&& "is.workflow.actions.text.replace"@ != "is.workflow.actions.setclipboard"@
    &&& "is.workflow.actions.text.replace"@ != "is.workflow.actions.share"@
    &&& "is.workflow.actions.text.replace"@ != "is.workflow.actions.conditional"@
    &&& "is.workflow.actions.text.replace"@ != "is.workflow.actions.repeat.each"@
    &&& "is.workflow.actions.detect.link"@ != "is.workflow.actions.setclipboard"@
    &&& "is.workflow.actions.detect.link"@ != "is.workflow.actions.share"@
    &&& "is.workflow.actions.detect.link"@ != "is.workflow.actions.conditional"@
    &&& "is.workflow.actions.detect.link"@ != "is.workflow.actions.repeat.each"@
    &&& "is.workflow.actions.setclipboard"@ != "is.workflow.actions.share"@
    &&& "is.workflow.actions.setclipboard"@ != "is.workflow.actions.conditional"@
    &&& "is.workflow.actions.setclipboard"@ != "is.workflow.actions.repeat.each"@
    &&& "is.workflow.actions.share"@ != "is.workflow.actions.conditional"@
    &&& "is.workflow.actions.share"@ != "is.workflow.actions.repeat.each"@
    &&& "is.workflow.actions.conditional"@ != "is.workflow.actions.repeat.each"@
    &&& "ExtensionInput"@ != "ActionOutput"@
    &&& "ExtensionInput"@ != "Variable"@
    &&& "ActionOutput"@ != "Variable"@
    &&& "Repeat Item"@ != "Repeat Index"@
    &&& "WFTextTokenAttachment"@ != "WFTextTokenString"@
}

/// The texts that name the parts of action records differ from one another.
proof fn lemma_names_differ()
    ensures
        names_differ(),
{
    reveal_strlit("ActionOutput");
    reveal_strlit("CustomOutputName");
    reveal_strlit("ExtensionInput");
    reveal_strlit("GroupingIdentifier");
    reveal_strlit("OutputName");
    reveal_strlit("OutputUUID");
    reveal_strlit("Repeat Index");
    reveal_strlit("Repeat Item");
    reveal_strlit("Type");
    reveal_strlit("UUID");
    reveal_strlit("Value");
    reveal_strlit("Variable");
    reveal_strlit("VariableName");
    reveal_strlit("WFCondition");
    reveal_strlit("WFConditionalActionString");
    reveal_strlit("WFControlFlowMode");
    reveal_strlit("WFInput");
    reveal_strlit("WFReplaceTextCaseSensitive");
    reveal_strlit("WFReplaceTextFind");
    reveal_strlit("WFReplaceTextRegularExpression");
    reveal_strlit("WFReplaceTextReplace");
    reveal_strlit("WFSerializationType");
    reveal_strlit("WFTextActionText");
    reveal_strlit("WFTextTokenAttachment");
    reveal_strlit("WFTextTokenString");
    reveal_strlit("WFWorkflowActionIdentifier");
    reveal_strlit("WFWorkflowActionParameters");
    reveal_strlit("attachmentsByRange");
    reveal_strlit("is.workflow.actions.conditional");
    reveal_strlit("is.workflow.actions.detect.link");
    reveal_strlit("is.workflow.actions.gettext");
    reveal_strlit("is.workflow.actions.repeat.each");
    reveal_strlit("is.workflow.actions.setclipboard");
    reveal_strlit("is.workflow.actions.share");
    reveal_strlit("is.workflow.actions.text.replace");
    reveal_strlit("string");
    reveal_strlit("{0, 1}");
    assert("ActionOutput"@.len() == 12);
    assert("CustomOutputName"@.len() == 16);
    assert("ExtensionInput"@.len() == 14);
    assert("GroupingIdentifier"@.len() == 18);
    assert("OutputName"@.len() == 10);
    assert("OutputUUID"@.len() == 10);
    assert("Repeat Index"@.len() == 12);
    assert("Repeat Item"@.len() == 11);
    assert("Type"@.len() == 4);
    assert("UUID"@.len() == 4);
    assert("Value"@.len() == 5);
    assert("Variable"@.len() == 8);
    assert("VariableName"@.len() == 12);
    assert("WFCondition"@.len() == 11);
    assert("WFConditionalActionString"@.len() == 25);
    assert("WFControlFlowMode"@.len() == 17);
    assert("WFInput"@.len() == 7);
    assert("WFReplaceTextCaseSensitive"@.len() == 26);
    assert("WFReplaceTextFind"@.len() == 17);
    assert("WFReplaceTextRegularExpression"@.len() == 30);
    assert("WFReplaceTextReplace"@.len() == 20);
    assert("WFSerializationType"@.len() == 19);
    assert("WFTextActionText"@.len() == 16);
    assert("WFTextTokenAttachment"@.len() == 21);
    assert("WFTextTokenString"@.len() == 17);
    assert("WFWorkflowActionIdentifier"@.len() == 26);
    assert("WFWorkflowActionParameters"@.len() == 26);
    assert("attachmentsByRange"@.len() == 18);
    assert("is.workflow.actions.conditional"@.len() == 31);
    assert("is.workflow.actions.detect.link"@.len() == 31);
    assert("is.workflow.actions.gettext"@.len() == 27);
    assert("is.workflow.actions.repeat.each"@.len() == 31);
    assert("is.workflow.actions.setclipboard"@.len() == 32);
    assert("is.workflow.actions.share"@.len() == 25);
    assert("is.workflow.actions.text.replace"@.len() == 32);
    assert("string"@.len() == 6);
    assert("{0, 1}"@.len() == 6);
    assert("WFWorkflowActionIdentifier"@[16] != "WFWorkflowActionParameters"@[16]);
    assert("WFWorkflowActionIdentifier"@[2] != "WFReplaceTextCaseSensitive"@[2]);
    assert("WFWorkflowActionParameters"@[2] != "WFReplaceTextCaseSensitive"@[2]);
    assert("CustomOutputName"@[0] != "WFTextActionText"@[0]);
    assert("UUID"@[0] != "Type"@[0]);
    assert("WFReplaceTextFind"@[2] != "WFControlFlowMode"@[2]);
    assert("GroupingIdentifier"@[0] != "attachmentsByRange"@[0]);
    assert("string"@[0] != "{0, 1}"@[0]);
    assert("OutputName"@[6] != "OutputUUID"@[6]);
    assert("is.workflow.actions.text.replace"@[20] != "is.workflow.actions.setclipboard"@[20]);
    assert("is.workflow.actions.detect.link"@[20] != "is.workflow.actions.conditional"@[20]);
    assert("is.workflow.actions.detect.link"@[20] != "is.workflow.actions.repeat.each"@[20]);
    assert("is.workflow.actions.conditional"@[20] != "is.workflow.actions.repeat.each"@[20]);
}

/// The output name an action gives its output, if it names one.
pub open spec fn output_of(a: ShortcutActionView) -> Option<Seq<char>> {
    match a {
        ShortcutActionView::Text { output, .. } => output,
        ShortcutActionView::GetText { output, .. } => output,
        ShortcutActionView::GetUrls { output, .. } => output,
        ShortcutActionView::ReplaceText { output, .. } => output,
        _ => None,
    }
}

/// Every action that records an output, inside conditions and repeats too,
/// names it.
pub open spec fn names_outputs(a: ShortcutActionView) -> bool
    decreases a,
{
    match a {
        ShortcutActionView::IfEqualsText { then_actions, .. } => names_outputs_seq(then_actions),
        ShortcutActionView::RepeatEach { body, .. } => names_outputs_seq(body),
        _ => takes_uuid(a) ==> output_of(a) is Some,
    }
}

/// Every action of a list names the output it records.
pub open spec fn names_outputs_seq(s: Seq<ShortcutActionView>) -> bool
    decreases s,
{
    if s.len() == 0 {
        true
    } else {
        names_outputs(s[0]) && names_outputs_seq(s.subrange(1, s.len() as int))
    }
}

/// The UUID and output name of each action that records an output, in the
/// order of their records, when the action takes its UUIDs from `ids` at
/// `pos`.
pub open spec fn taken(a: ShortcutActionView, ids: Seq<Seq<char>>, pos: int) -> Seq<(Seq<char>, Seq<char>)>
    decreases a,
{
    match a {
        ShortcutActionView::IfEqualsText { then_actions, .. } => taken_seq(then_actions, ids, pos + 1),
        ShortcutActionView::RepeatEach { body, .. } => taken_seq(body, ids, pos + 1),
        _ => if takes_uuid(a) {
            seq![(ids[pos], output_of(a)->0)]
        } else {
            Seq::empty()
        },
    }
}

/// The UUID and output name of each action of a list that records an
/// output, in order.
pub open spec fn taken_seq(s: Seq<ShortcutActionView>, ids: Seq<Seq<char>>, pos: int) -> Seq<(Seq<char>, Seq<char>)>
    decreases s,
{
    if s.len() == 0 {
        Seq::empty()
    } else {
        taken(s[0], ids, pos) + taken_seq(s.subrange(1, s.len() as int), ids, pos + ids_needed(s[0]))
    }
}

/// No two entries share a UUID, and no two share an output name.
pub open spec fn all_different(t: Seq<(Seq<char>, Seq<char>)>) -> bool {
    forall|i: int, j: int| 0 <= i < j < t.len() ==> #[trigger] t[i].0 != #[trigger] t[j].0 && t[i].1 != t[j].1
}

/// The aliases give each UUID of `t` its output name.
pub open spec fn taken_known(t: Seq<(Seq<char>, Seq<char>)>, aliases: Map<Seq<char>, Seq<char>>) -> bool {
    forall|k: int| 0 <= k < t.len() ==> aliases.contains_key(#[trigger] t[k].0) && aliases[t[k].0] == t[k].1
}

/// Each output named so far is known to the aliases under its own name.
pub open spec fn outputs_known(outputs: Map<Seq<char>, (Seq<char>, Seq<char>)>, aliases: Map<Seq<char>, Seq<char>>) -> bool {
    forall|name: Seq<char>|
        #[trigger] outputs.contains_key(name) ==> outputs[name].0 == name && aliases.contains_key(outputs[name].1)
            && aliases[outputs[name].1] == name
}

/// The group a sequence is read inside closes a condition or a repeat.
pub open spec fn group_end_ok(e: Option<(Seq<char>, Seq<char>)>) -> bool {
    match e {
        Some((ident, _)) => ident == "is.workflow.actions.conditional"@ || ident == "is.workflow.actions.repeat.each"@,
        None => true,
    }
}

/// A reference resolved against known outputs reads back as itself, as an
/// attachment and as a text token.
proof fn lemma_decode_reference(
    outputs: Map<Seq<char>, (Seq<char>, Seq<char>)>,
    reference: ShortcutReferenceView,
    aliases: Map<Seq<char>, Seq<char>>,
)
    requires
        names_differ(),
        outputs_known(outputs, aliases),
        spec_attachment(outputs, reference) is Ok,
    ensures
        spec_decode_attachment_reference(direct_reference(spec_attachment(outputs, reference)->Ok_0), aliases) == Ok::<
            ShortcutReferenceView,
            Seq<char>,
        >(reference),
        spec_decode_attachment_reference(text_token(spec_attachment(outputs, reference)->Ok_0), aliases) == Ok::<
            ShortcutReferenceView,
            Seq<char>,
        >(reference),
        is_dict(spec_attachment(outputs, reference)->Ok_0),
{
    reveal_with_fuel(lookup_from, 4);
    let att = spec_attachment(outputs, reference)->Ok_0;
    match reference {
        ShortcutReferenceView::Output(name) => {
            assert(outputs.contains_key(name));
        },
        _ => {},
    }
    let tok = text_token(att);
    let inner = member(tok, "Value"@)->0;
    assert(dict_member(tok, "Value"@) == Some(inner));
    assert(str_member(inner, "string"@) == Some("\u{fffc}"@));
    assert(dict_member(inner, "attachmentsByRange"@) == Some(Item::Dict(seq![("{0, 1}"@, att)])));
    assert(first_value(Item::Dict(seq![("{0, 1}"@, att)])) == Some(att));
}

/// The record of a single action reads back as that action, ahead of what
/// follows it.
proof fn lemma_decode_single_at(
    items: Seq<Item>,
    start: int,
    a: ShortcutActionView,
    outputs: Map<Seq<char>, (Seq<char>, Seq<char>)>,
    uuid: Seq<char>,
    aliases: Map<Seq<char>, Seq<char>>,
    e: Option<(Seq<char>, Seq<char>)>,
)
    requires
        names_differ(),
        outputs_known(outputs, aliases),
        group_end_ok(e),
        !(a is IfEqualsText),
        !(a is RepeatEach),
        names_outputs(a),
        spec_build_action(a, outputs, uuid) is Ok,
        0 <= start < items.len(),
        items[start] == spec_build_action(a, outputs, uuid)->Ok_0.0,
    ensures
        spec_decompile_sequence(items, start, aliases, e) == prepend_action(a, spec_decompile_sequence(items, start + 1, aliases, e)),
{
    reveal_with_fuel(lookup_from, 8);
    match a {
        ShortcutActionView::GetText { from, .. } => {
            lemma_decode_reference(outputs, from, aliases);
        },
        ShortcutActionView::GetUrls { from, .. } => {
            lemma_decode_reference(outputs, from, aliases);
        },
        ShortcutActionView::ReplaceText { from, .. } => {
            lemma_decode_reference(outputs, from, aliases);
        },
        ShortcutActionView::CopyToClipboard { from } => {
            lemma_decode_reference(outputs, from, aliases);
        },
        ShortcutActionView::Share { from } => {
            lemma_decode_reference(outputs, from, aliases);
        },
        _ => {},
    }
}

/// The opening record of a condition reads back as the condition, around
/// what the records after it read inside the group.
proof fn lemma_decode_if_at(
    items: Seq<Item>,
    start: int,
    input: ShortcutReferenceView,
    value: Seq<char>,
    g: Seq<char>,
    outputs: Map<Seq<char>, (Seq<char>, Seq<char>)>,
    aliases: Map<Seq<char>, Seq<char>>,
    e: Option<(Seq<char>, Seq<char>)>,
)
    requires
        names_differ(),
        outputs_known(outputs, aliases),
        group_end_ok(e),
        spec_if_start(input, value, g, outputs) is Ok,
        0 <= start < items.len(),
        items[start] == spec_if_start(input, value, g, outputs)->Ok_0,
    ensures
        spec_decompile_sequence(items, start, aliases, e) == match spec_decompile_sequence(
            items,
            start + 1,
            aliases,
            Some(("is.workflow.actions.conditional"@, g)),
        ) {
            Err(x) => Err(x),
            Ok((then_actions, next)) => if start < next <= items.len() {
                prepend_action(
                    ShortcutActionView::IfEqualsText { input, value, then_actions },
                    spec_decompile_sequence(items, next, aliases, e),
                )
            } else {
                Err("did not consume entire shortcut action payload"@)
            },
        },
{
    reveal_with_fuel(lookup_from, 8);
    lemma_decode_reference(outputs, input, aliases);
    let params = member(items[start], "WFWorkflowActionParameters"@)->0;
    let wrapper = member(params, "WFInput"@)->0;
    assert(dict_member(wrapper, "Variable"@) == Some(direct_reference(spec_attachment(outputs, input)->Ok_0)));
    assert(spec_decode_conditional_input(params, aliases) == Ok::<ShortcutReferenceView, Seq<char>>(input));
    let lit = text_literal(value);
    assert(member(params, "WFConditionalActionString"@) == Some(lit));
    assert(dict_member(lit, "Value"@) == Some(Item::Dict(seq![("string"@, Item::Str(value))])));
    assert(spec_decode_text_token_literal(lit) == Ok::<Seq<char>, Seq<char>>(value));
}

/// The opening record of a repeat reads back as the repeat, around what
/// the records after it read inside the group.
proof fn lemma_decode_repeat_at(
    items: Seq<Item>,
    start: int,
    input: ShortcutReferenceView,
    g: Seq<char>,
    outputs: Map<Seq<char>, (Seq<char>, Seq<char>)>,
    aliases: Map<Seq<char>, Seq<char>>,
    e: Option<(Seq<char>, Seq<char>)>,
)
    requires
        names_differ(),
        outputs_known(outputs, aliases),
        group_end_ok(e),
        spec_repeat_each_start(input, g, outputs) is Ok,
        0 <= start < items.len(),
        items[start] == spec_repeat_each_start(input, g, outputs)->Ok_0,
    ensures
        spec_decompile_sequence(items, start, aliases, e) == match spec_decompile_sequence(
            items,
            start + 1,
            aliases,
            Some(("is.workflow.actions.repeat.each"@, g)),
        ) {
            Err(x) => Err(x),
            Ok((body, next)) => if start < next <= items.len() {
                prepend_action(ShortcutActionView::RepeatEach { input, body }, spec_decompile_sequence(items, next, aliases, e))
            } else {
                Err("did not consume entire shortcut action payload"@)
            },
        },
{
    reveal_with_fuel(lookup_from, 8);
    lemma_decode_reference(outputs, input, aliases);
}

/// The closing record of a group ends the reading inside it.
proof fn lemma_decode_end_at(items: Seq<Item>, start: int, ident: Seq<char>, g: Seq<char>, aliases: Map<Seq<char>, Seq<char>>)
    requires
        names_differ(),
        0 <= start < items.len(),
        items[start] == control_flow_end(ident, g),
    ensures
        spec_decompile_sequence(items, start, aliases, Some((ident, g))) == Ok::<(Seq<ShortcutActionView>, int), Seq<char>>(
            (Seq::empty(), start + 1),
        ),
{
    reveal_with_fuel(lookup_from, 4);
}

/// What the aliases know of a concatenation they know of each part.
proof fn lemma_taken_known_split(t1: Seq<(Seq<char>, Seq<char>)>, t2: Seq<(Seq<char>, Seq<char>)>, aliases: Map<Seq<char>, Seq<char>>)
    requires
        taken_known(t1 + t2, aliases),
    ensures
        taken_known(t1, aliases),
        taken_known(t2, aliases),
{
    assert forall|k: int| 0 <= k < t1.len() implies aliases.contains_key(#[trigger] t1[k].0) && aliases[t1[k].0] == t1[k].1 by {
        assert((t1 + t2)[k] == t1[k]);
    }
    assert forall|k: int| 0 <= k < t2.len() implies aliases.contains_key(#[trigger] t2[k].0) && aliases[t2[k].0] == t2[k].1 by {
        assert((t1 + t2)[k + t1.len()] == t2[k]);
    }
}

/// The records compiled from a list of actions, placed at `start` and
/// followed by the closing record of the group they are read inside (or by
/// nothing at all outside any group), read back as the same actions; and the
/// outputs they name stay known to the aliases.
proof fn lemma_decode_compiled_seq(
    items: Seq<Item>,
    start: int,
    s: Seq<ShortcutActionView>,
    outputs: Map<Seq<char>, (Seq<char>, Seq<char>)>,
    ids: Seq<Seq<char>>,
    pos: int,
    aliases: Map<Seq<char>, Seq<char>>,
    e: Option<(Seq<char>, Seq<char>)>,
)
    requires
        names_differ(),
        outputs_known(outputs, aliases),
        group_end_ok(e),
        names_outputs_seq(s),
        taken_known(taken_seq(s, ids, pos), aliases),
        spec_compile_seq(s, outputs, ids, pos) matches Ok((recs, _)) && 0 <= start && start + recs.len() <= items.len()
            && items.subrange(start, start + recs.len()) == recs && match e {
            None => start + recs.len() == items.len(),
            Some((ident, g)) => start + recs.len() < items.len() && items[start + recs.len()] == control_flow_end(ident, g),
        },
    ensures
        spec_compile_seq(s, outputs, ids, pos) matches Ok((recs, outs)) && outputs_known(outs, aliases)
            && spec_decompile_sequence(items, start, aliases, e) == Ok::<(Seq<ShortcutActionView>, int), Seq<char>>(
            (s, start + recs.len() + if e is Some { 1int } else { 0int }),
        ),
    decreases s,
{
    let recs = spec_compile_seq(s, outputs, ids, pos)->Ok_0.0;
    if s.len() == 0 {
        assert(s =~= Seq::<ShortcutActionView>::empty());
        match e {
            Some((ident, g)) => {
                lemma_decode_end_at(items, start, ident, g, aliases);
            },
            None => {},
        }
        return;
    }
    let a = s[0];
    assert(names_outputs(a));
    let tail = s.subrange(1, s.len() as int);
    let (r1, o1) = spec_compile_one(a, outputs, ids, pos)->Ok_0;
    let (r2, o2) = spec_compile_seq(tail, o1, ids, pos + ids_needed(a))->Ok_0;
    assert(recs == r1 + r2);
    lemma_taken_known_split(taken(a, ids, pos), taken_seq(tail, ids, pos + ids_needed(a)), aliases);
    let next = start + r1.len();
    assert(items.subrange(next, next + r2.len()) =~= r2) by {
        assert forall|k: int| 0 <= k < r2.len() implies items.subrange(next, next + r2.len())[k] == r2[k] by {
            assert(items.subrange(start, start + recs.len())[r1.len() + k] == recs[r1.len() + k]);
        }
    }
    match a {
        ShortcutActionView::IfEqualsText { input, value, then_actions } => {
            let g = ids[pos];
            let st = spec_if_start(input, value, g, outputs)->Ok_0;
            let inner = spec_compile_seq(then_actions, outputs, ids, pos + 1)->Ok_0.0;
            assert(r1 == seq![st] + inner + seq![control_flow_end("is.workflow.actions.conditional"@, g)]);
            assert(items[start] == st) by {
                assert(items.subrange(start, start + recs.len())[0] == recs[0]);
            }
            assert(items.subrange(start + 1, start + 1 + inner.len()) =~= inner) by {
                assert forall|k: int| 0 <= k < inner.len() implies items.subrange(start + 1, start + 1 + inner.len())[k] == inner[k] by {
                    assert(items.subrange(start, start + recs.len())[1 + k] == recs[1 + k]);
                }
            }
            assert(items[start + 1 + inner.len()] == control_flow_end("is.workflow.actions.conditional"@, g)) by {
                assert(items.subrange(start, start + recs.len())[1 + inner.len() as int] == recs[1 + inner.len() as int]);
            }
            assert(names_outputs_seq(then_actions));
            lemma_decode_compiled_seq(items, start + 1, then_actions, outputs, ids, pos + 1, aliases, Some(("is.workflow.actions.conditional"@, g)));
            lemma_decode_if_at(items, start, input, value, g, outputs, aliases, e);
        },
        ShortcutActionView::RepeatEach { input, body } => {
            let g = ids[pos];
            let st = spec_repeat_each_start(input, g, outputs)->Ok_0;
            let inner = spec_compile_seq(body, outputs, ids, pos + 1)->Ok_0.0;
            assert(r1 == seq![st] + inner + seq![control_flow_end("is.workflow.actions.repeat.each"@, g)]);
            assert(items[start] == st) by {
                assert(items.subrange(start, start + recs.len())[0] == recs[0]);
            }
            assert(items.subrange(start + 1, start + 1 + inner.len()) =~= inner) by {
                assert forall|k: int| 0 <= k < inner.len() implies items.subrange(start + 1, start + 1 + inner.len())[k] == inner[k] by {
                    assert(items.subrange(start, start + recs.len())[1 + k] == recs[1 + k]);
                }
            }
            assert(items[start + 1 + inner.len()] == control_flow_end("is.workflow.actions.repeat.each"@, g)) by {
                assert(items.subrange(start, start + recs.len())[1 + inner.len() as int] == recs[1 + inner.len() as int]);
            }
            assert(names_outputs_seq(body));
            lemma_decode_compiled_seq(items, start + 1, body, outputs, ids, pos + 1, aliases, Some(("is.workflow.actions.repeat.each"@, g)));
            lemma_decode_repeat_at(items, start, input, g, outputs, aliases, e);
        },
        _ => {
            let uuid = ids[pos];
            assert(r1 == seq![spec_build_action(a, outputs, uuid)->Ok_0.0]);
            assert(items[start] == r1[0]) by {
                assert(items.subrange(start, start + recs.len())[0] == recs[0]);
            }
            lemma_decode_single_at(items, start, a, outputs, uuid, aliases, e);
            assert(outputs_known(o1, aliases)) by {
                if takes_uuid(a) {
                    let o = output_of(a)->0;
                    assert(taken(a, ids, pos)[0] == (uuid, o));
                    assert(taken_known(taken(a, ids, pos), aliases));
                    assert(aliases.contains_key(taken(a, ids, pos)[0].0) && aliases[taken(a, ids, pos)[0].0] == taken(a, ids, pos)[0].1);
                    assert(aliases.contains_key(uuid) && aliases[uuid] == o);
                    assert(o1 == outputs.insert(o, (o, uuid)));
                    assert forall|name: Seq<char>| #[trigger] o1.contains_key(name) implies o1[name].0 == name && aliases.contains_key(o1[name].1)
                        && aliases[o1[name].1] == name by {
                        if name != o {
                            assert(outputs.contains_key(name));
                        }
                    }
                } else {
                    assert(o1 == outputs);
                }
            }
        },
    }
    lemma_decode_compiled_seq(items, next, tail, o1, ids, pos + ids_needed(a), aliases, e);
    assert(seq![a] + tail =~= s);
}

/// The UUID aliases and alias counts after reading `items` from `st` on.
pub open spec fn alias_fold(items: Seq<Item>, st: (Map<Seq<char>, Seq<char>>, Map<Seq<char>, nat>)) -> (
    Map<Seq<char>, Seq<char>>,
    Map<Seq<char>, nat>,
)
    decreases items.len(),
{
    if items.len() == 0 {
        st
    } else {
        spec_alias_step(items.last(), alias_fold(items.drop_last(), st))
    }
}

/// The aliases and counts after the first `n` records are those of reading
/// those records from nothing.
proof fn lemma_alias_upto_fold(items: Seq<Item>, n: nat)
    requires
        n <= items.len(),
    ensures
        spec_alias_upto(items, n) == alias_fold(items.take(n as int), (Map::empty(), Map::empty())),
    decreases n,
{
    if n > 0 {
        lemma_alias_upto_fold(items, (n - 1) as nat);
        assert(items.take(n as int).drop_last() =~= items.take(n - 1));
    }
}

/// Reading two lists of records one after the other reads their
/// concatenation.
proof fn lemma_alias_fold_concat(a: Seq<Item>, b: Seq<Item>, st: (Map<Seq<char>, Seq<char>>, Map<Seq<char>, nat>))
    ensures
        alias_fold(a + b, st) == alias_fold(b, alias_fold(a, st)),
    decreases b.len(),
{
    if b.len() == 0 {
        assert(a + b =~= a);
    } else {
        assert((a + b).drop_last() =~= a + b.drop_last());
        lemma_alias_fold_concat(a, b.drop_last(), st);
    }
}

/// The aliases and counts after each UUID of `t` gets its output name as
/// alias, for the first time.
pub open spec fn add_taken(st: (Map<Seq<char>, Seq<char>>, Map<Seq<char>, nat>), t: Seq<(Seq<char>, Seq<char>)>) -> (
    Map<Seq<char>, Seq<char>>,
    Map<Seq<char>, nat>,
)
    decreases t.len(),
{
    if t.len() == 0 {
        st
    } else {
        let p = add_taken(st, t.drop_last());
        (p.0.insert(t.last().0, t.last().1), p.1.insert(t.last().1, 1))
    }
}

proof fn lemma_add_taken_concat(
    st: (Map<Seq<char>, Seq<char>>, Map<Seq<char>, nat>),
    t1: Seq<(Seq<char>, Seq<char>)>,
    t2: Seq<(Seq<char>, Seq<char>)>,
)
    ensures
        add_taken(st, t1 + t2) == add_taken(add_taken(st, t1), t2),
    decreases t2.len(),
{
    if t2.len() == 0 {
        assert(t1 + t2 =~= t1);
    } else {
        assert((t1 + t2).drop_last() =~= t1 + t2.drop_last());
        lemma_add_taken_concat(st, t1, t2.drop_last());
    }
}

/// Names that `t` does not give keep their counts.
proof fn lemma_add_taken_counts(st: (Map<Seq<char>, Seq<char>>, Map<Seq<char>, nat>), t: Seq<(Seq<char>, Seq<char>)>, x: Seq<char>)
    requires
        forall|k: int| 0 <= k < t.len() ==> (#[trigger] t[k]).1 != x,
    ensures
        seen_count(add_taken(st, t).1, x) == seen_count(st.1, x),
    decreases t.len(),
{
    if t.len() > 0 {
        assert(t.last() == t[t.len() - 1]);
        assert forall|k: int| 0 <= k < t.drop_last().len() implies (#[trigger] t.drop_last()[k]).1 != x by {
            assert(t.drop_last()[k] == t[k]);
        }
        lemma_add_taken_counts(st, t.drop_last(), x);
    }
}

/// Each UUID of `t`, when no two share one, gets its output name.
proof fn lemma_add_taken_known(st: (Map<Seq<char>, Seq<char>>, Map<Seq<char>, nat>), t: Seq<(Seq<char>, Seq<char>)>)
    requires
        all_different(t),
    ensures
        taken_known(t, add_taken(st, t).0),
    decreases t.len(),
{
    if t.len() > 0 {
        let d = t.drop_last();
        assert(all_different(d)) by {
            assert forall|i: int, j: int| 0 <= i < j < d.len() implies #[trigger] d[i].0 != #[trigger] d[j].0 && d[i].1 != d[j].1 by {
                assert(d[i] == t[i] && d[j] == t[j]);
                assert(t[i].0 != t[j].0 && t[i].1 != t[j].1);
            }
        }
        lemma_add_taken_known(st, d);
        let m = add_taken(st, t).0;
        assert forall|k: int| 0 <= k < t.len() implies m.contains_key(#[trigger] t[k].0) && m[t[k].0] == t[k].1 by {
            if k < t.len() - 1 {
                assert(d[k] == t[k]);
                assert(t[k].0 != t[t.len() - 1].0);
            }
        }
    }
}

/// The parts of a list with no shared UUIDs or names share none either,
/// and none with each other.
proof fn lemma_all_different_split(t1: Seq<(Seq<char>, Seq<char>)>, t2: Seq<(Seq<char>, Seq<char>)>)
    requires
        all_different(t1 + t2),
    ensures
        all_different(t1),
        all_different(t2),
        forall|i: int, j: int| 0 <= i < t1.len() && 0 <= j < t2.len() ==> #[trigger] t1[i].1 != #[trigger] t2[j].1,
{
    let t = t1 + t2;
    assert(t.len() == t1.len() + t2.len());
    assert forall|i: int, j: int| 0 <= i < j < t1.len() implies #[trigger] t1[i].0 != #[trigger] t1[j].0 && t1[i].1 != t1[j].1 by {
        assert(t[i] == t1[i] && t[j] == t1[j]);
        assert(t[i].0 != t[j].0 && t[i].1 != t[j].1);
    }
    assert forall|i: int, j: int| 0 <= i < j < t2.len() implies #[trigger] t2[i].0 != #[trigger] t2[j].0 && t2[i].1 != t2[j].1 by {
        assert(t[t1.len() + i] == t2[i] && t[t1.len() + j] == t2[j]);
        assert(t[t1.len() + i].0 != t[t1.len() + j].0 && t[t1.len() + i].1 != t[t1.len() + j].1);
    }
    assert forall|i: int, j: int| 0 <= i < t1.len() && 0 <= j < t2.len() implies #[trigger] t1[i].1 != #[trigger] t2[j].1 by {
        assert(t[i] == t1[i] && t[t1.len() + j] == t2[j]);
        assert(t[i].0 != t[t1.len() + j].0 && t[i].1 != t[t1.len() + j].1);
    }
}

/// Reading the records compiled from one action gives each UUID it took its
/// output name as alias, when no name it gives was seen before.
proof fn lemma_alias_compiled_one(
    a: ShortcutActionView,
    outputs: Map<Seq<char>, (Seq<char>, Seq<char>)>,
    ids: Seq<Seq<char>>,
    pos: int,
    st: (Map<Seq<char>, Seq<char>>, Map<Seq<char>, nat>),
)
    requires
        names_differ(),
        names_outputs(a),
        all_different(taken(a, ids, pos)),
        forall|k: int| 0 <= k < taken(a, ids, pos).len() ==> seen_count(st.1, (#[trigger] taken(a, ids, pos)[k]).1) == 0,
        spec_compile_one(a, outputs, ids, pos) is Ok,
    ensures
        alias_fold(spec_compile_one(a, outputs, ids, pos)->Ok_0.0, st) == add_taken(st, taken(a, ids, pos)),
    decreases a, 0nat,
{
    reveal_with_fuel(lookup_from, 8);
    let r = spec_compile_one(a, outputs, ids, pos)->Ok_0.0;
    match a {
        ShortcutActionView::IfEqualsText { input, value, then_actions } => {
            let g = ids[pos];
            let st_rec = spec_if_start(input, value, g, outputs)->Ok_0;
            let end = control_flow_end("is.workflow.actions.conditional"@, g);
            let inner = spec_compile_seq(then_actions, outputs, ids, pos + 1)->Ok_0.0;
            assert(spec_alias_step(st_rec, st) == st);
            lemma_alias_fold_concat(seq![st_rec], inner, st);
            assert(alias_fold(seq![st_rec], st) == st) by {
                assert(seq![st_rec].drop_last() =~= Seq::<Item>::empty());
                assert(alias_fold(Seq::<Item>::empty(), st) == st);
            }
            assert(names_outputs_seq(then_actions));
            assert(taken(a, ids, pos) == taken_seq(then_actions, ids, pos + 1));
            lemma_alias_compiled_seq(then_actions, outputs, ids, pos + 1, st);
            lemma_alias_fold_concat(seq![st_rec] + inner, seq![end], st);
            assert(seq![end].drop_last() =~= Seq::<Item>::empty());
            let x = add_taken(st, taken_seq(then_actions, ids, pos + 1));
            assert(alias_fold(Seq::<Item>::empty(), x) == x);
            assert(spec_alias_step(end, x) == x);
            assert(alias_fold(seq![end], x) == x);
            assert(r == seq![st_rec] + inner + seq![end]);
        },
        ShortcutActionView::RepeatEach { input, body } => {
            let g = ids[pos];
            let st_rec = spec_repeat_each_start(input, g, outputs)->Ok_0;
            let end = control_flow_end("is.workflow.actions.repeat.each"@, g);
            let inner = spec_compile_seq(body, outputs, ids, pos + 1)->Ok_0.0;
            assert(spec_alias_step(st_rec, st) == st);
            lemma_alias_fold_concat(seq![st_rec], inner, st);
            assert(alias_fold(seq![st_rec], st) == st) by {
                assert(seq![st_rec].drop_last() =~= Seq::<Item>::empty());
                assert(alias_fold(Seq::<Item>::empty(), st) == st);
            }
            assert(names_outputs_seq(body));
            assert(taken(a, ids, pos) == taken_seq(body, ids, pos + 1));
            lemma_alias_compiled_seq(body, outputs, ids, pos + 1, st);
            lemma_alias_fold_concat(seq![st_rec] + inner, seq![end], st);
            assert(seq![end].drop_last() =~= Seq::<Item>::empty());
            let x = add_taken(st, taken_seq(body, ids, pos + 1));
            assert(alias_fold(Seq::<Item>::empty(), x) == x);
            assert(spec_alias_step(end, x) == x);
            assert(alias_fold(seq![end], x) == x);
            assert(r == seq![st_rec] + inner + seq![end]);
        },
        _ => {
            let rec = spec_build_action(a, outputs, ids[pos])->Ok_0.0;
            assert(r == seq![rec]);
            assert(r.drop_last() =~= Seq::<Item>::empty());
            assert(alias_fold(Seq::<Item>::empty(), st) == st);
            assert(add_taken(st, Seq::<(Seq<char>, Seq<char>)>::empty()) == st);
            if takes_uuid(a) {
                let o = output_of(a)->0;
                assert(taken(a, ids, pos)[0] == (ids[pos], o));
                assert(seen_count(st.1, o) == 0);
                assert(taken(a, ids, pos).drop_last() =~= Seq::<(Seq<char>, Seq<char>)>::empty());
            }
        },
    }
}

/// Reading the records compiled from a list of actions gives each UUID they
/// took its output name as alias, when no name they give was seen before.
proof fn lemma_alias_compiled_seq(
    s: Seq<ShortcutActionView>,
    outputs: Map<Seq<char>, (Seq<char>, Seq<char>)>,
    ids: Seq<Seq<char>>,
    pos: int,
    st: (Map<Seq<char>, Seq<char>>, Map<Seq<char>, nat>),
)
    requires
        names_differ(),
        names_outputs_seq(s),
        all_different(taken_seq(s, ids, pos)),
        forall|k: int| 0 <= k < taken_seq(s, ids, pos).len() ==> seen_count(st.1, (#[trigger] taken_seq(s, ids, pos)[k]).1) == 0,
        spec_compile_seq(s, outputs, ids, pos) is Ok,
    ensures
        alias_fold(spec_compile_seq(s, outputs, ids, pos)->Ok_0.0, st) == add_taken(st, taken_seq(s, ids, pos)),
    decreases s, 1nat,
{
    if s.len() == 0 {
        return;
    }
    let a = s[0];
    let tail = s.subrange(1, s.len() as int);
    let t1 = taken(a, ids, pos);
    let t2 = taken_seq(tail, ids, pos + ids_needed(a));
    let (r1, o1) = spec_compile_one(a, outputs, ids, pos)->Ok_0;
    let r2 = spec_compile_seq(tail, o1, ids, pos + ids_needed(a))->Ok_0.0;
    lemma_all_different_split(t1, t2);
    assert forall|k: int| 0 <= k < t1.len() implies seen_count(st.1, (#[trigger] t1[k]).1) == 0 by {
        assert((t1 + t2)[k] == t1[k]);
    }
    lemma_alias_compiled_one(a, outputs, ids, pos, st);
    let mid = add_taken(st, t1);
    assert forall|k: int| 0 <= k < t2.len() implies seen_count(mid.1, (#[trigger] t2[k]).1) == 0 by {
        assert((t1 + t2)[t1.len() + k] == t2[k]);
        assert forall|i: int| 0 <= i < t1.len() implies (#[trigger] t1[i]).1 != t2[k].1 by {}
        lemma_add_taken_counts(st, t1, t2[k].1);
    }
    lemma_alias_compiled_seq(tail, o1, ids, pos + ids_needed(a), mid);
    lemma_alias_fold_concat(r1, r2, st);
    lemma_add_taken_concat(st, t1, t2);
}

/// An attachment and the parameters made of it are plain.
proof fn lemma_plain_reference(outputs: Map<Seq<char>, (Seq<char>, Seq<char>)>, reference: ShortcutReferenceView)
    requires
        names_differ(),
        spec_attachment(outputs, reference) is Ok,
    ensures
        plain(direct_reference(spec_attachment(outputs, reference)->Ok_0)),
        plain(text_token(spec_attachment(outputs, reference)->Ok_0)),
        plain(variable_wrapper(direct_reference(spec_attachment(outputs, reference)->Ok_0))),
{
    reveal_with_fuel(plain, 6);
    let att = spec_attachment(outputs, reference)->Ok_0;
    assert(plain(att));
    assert(plain(direct_reference(att)));
    assert(plain(Item::Dict(seq![("{0, 1}"@, att)])));
}

/// The record of a single action is plain.
proof fn lemma_plain_single(a: ShortcutActionView, outputs: Map<Seq<char>, (Seq<char>, Seq<char>)>, uuid: Seq<char>)
    requires
        names_differ(),
        spec_build_action(a, outputs, uuid) is Ok,
    ensures
        plain(spec_build_action(a, outputs, uuid)->Ok_0.0),
{
    reveal_with_fuel(plain, 3);
    reveal_with_fuel(lookup_from, 3);
    let rec = spec_build_action(a, outputs, uuid)->Ok_0.0;
    match a {
        ShortcutActionView::GetText { from, .. } => {
            lemma_plain_reference(outputs, from);
        },
        ShortcutActionView::GetUrls { from, .. } => {
            lemma_plain_reference(outputs, from);
        },
        ShortcutActionView::ReplaceText { from, .. } => {
            lemma_plain_reference(outputs, from);
        },
        ShortcutActionView::CopyToClipboard { from } => {
            lemma_plain_reference(outputs, from);
        },
        ShortcutActionView::Share { from } => {
            lemma_plain_reference(outputs, from);
        },
        _ => {},
    }
    let params = member(rec, "WFWorkflowActionParameters"@)->0;
    assert(plain(params));
}

/// The opening and closing records of a condition and of a repeat are plain.
proof fn lemma_plain_group(
    input: ShortcutReferenceView,
    value: Seq<char>,
    g: Seq<char>,
    outputs: Map<Seq<char>, (Seq<char>, Seq<char>)>,
)
    requires
        names_differ(),
        spec_attachment(outputs, input) is Ok,
    ensures
        plain(spec_if_start(input, value, g, outputs)->Ok_0),
        plain(spec_repeat_each_start(input, g, outputs)->Ok_0),
        plain(control_flow_end("is.workflow.actions.conditional"@, g)),
        plain(control_flow_end("is.workflow.actions.repeat.each"@, g)),
{
    reveal_with_fuel(plain, 3);
    reveal_with_fuel(lookup_from, 3);
    lemma_plain_reference(outputs, input);
    assert(plain(text_literal(value)));
    let p1 = member(spec_if_start(input, value, g, outputs)->Ok_0, "WFWorkflowActionParameters"@)->0;
    assert(plain(p1));
    let p2 = member(spec_repeat_each_start(input, g, outputs)->Ok_0, "WFWorkflowActionParameters"@)->0;
    assert(plain(p2));
}

/// The records compiled from an action are plain.
proof fn lemma_plain_compiled_one(a: ShortcutActionView, outputs: Map<Seq<char>, (Seq<char>, Seq<char>)>, ids: Seq<Seq<char>>, pos: int)
    requires
        names_differ(),
        spec_compile_one(a, outputs, ids, pos) is Ok,
    ensures
        plain_items(spec_compile_one(a, outputs, ids, pos)->Ok_0.0),
    decreases a, 0nat,
{
    let r = spec_compile_one(a, outputs, ids, pos)->Ok_0.0;
    match a {
        ShortcutActionView::IfEqualsText { input, value, then_actions } => {
            let g = ids[pos];
            lemma_plain_group(input, value, g, outputs);
            lemma_plain_compiled_seq(then_actions, outputs, ids, pos + 1);
            let inner = spec_compile_seq(then_actions, outputs, ids, pos + 1)->Ok_0.0;
            assert forall|k: int| 0 <= k < r.len() implies plain(#[trigger] r[k]) by {
                if 1 <= k < 1 + inner.len() {
                    assert(r[k] == inner[k - 1]);
                }
            }
        },
        ShortcutActionView::RepeatEach { input, body } => {
            let g = ids[pos];
            lemma_plain_group(input, Seq::empty(), g, outputs);
            lemma_plain_compiled_seq(body, outputs, ids, pos + 1);
            let inner = spec_compile_seq(body, outputs, ids, pos + 1)->Ok_0.0;
            assert forall|k: int| 0 <= k < r.len() implies plain(#[trigger] r[k]) by {
                if 1 <= k < 1 + inner.len() {
                    assert(r[k] == inner[k - 1]);
                }
            }
        },
        _ => {
            lemma_plain_single(a, outputs, ids[pos]);
        },
    }
}

/// The records compiled from a list of actions are plain.
proof fn lemma_plain_compiled_seq(s: Seq<ShortcutActionView>, outputs: Map<Seq<char>, (Seq<char>, Seq<char>)>, ids: Seq<Seq<char>>, pos: int)
    requires
        names_differ(),
        spec_compile_seq(s, outputs, ids, pos) is Ok,
    ensures
        plain_items(spec_compile_seq(s, outputs, ids, pos)->Ok_0.0),
    decreases s, 1nat,
{
    if s.len() > 0 {
        let a = s[0];
        let (r1, o1) = spec_compile_one(a, outputs, ids, pos)->Ok_0;
        let tail = s.subrange(1, s.len() as int);
        let r2 = spec_compile_seq(tail, o1, ids, pos + ids_needed(a))->Ok_0.0;
        lemma_plain_compiled_one(a, outputs, ids, pos);
        lemma_plain_compiled_seq(tail, o1, ids, pos + ids_needed(a));
        let r = r1 + r2;
        assert forall|k: int| 0 <= k < r.len() implies plain(#[trigger] r[k]) by {
            if k < r1.len() {
                assert(r[k] == r1[k]);
            } else {
                assert(r[k] == r2[k - r1.len()]);
            }
        }
    }
}

/// What compiling `actions` with the UUIDs `ids` writes when the writer
/// succeeds: the binary property list of the records, which, the records
/// being plain, reads back as those records.
pub open spec fn compiled_payload(actions: Seq<ShortcutActionView>, ids: Seq<Seq<char>>, bytes: Seq<u8>) -> bool {
    spec_compile_seq(actions, Map::empty(), ids, 0) matches Ok((items, _)) && binary_plist_items(items) == Ok::<
        Seq<u8>,
        Seq<char>,
    >(bytes) && (plain_items(items) ==> plist_items(bytes) == Ok::<Seq<Item>, Seq<char>>(items))
}

/// Decompiling the payload compiled from a list of actions gives the same
/// actions back, when every action that records an output names it and no
/// two of those outputs share a name or a UUID.
pub proof fn lemma_decompile_compiled(actions: Seq<ShortcutActionView>, ids: Seq<Seq<char>>, bytes: Seq<u8>)
    requires
        compiled_payload(actions, ids, bytes),
        names_outputs_seq(actions),
        all_different(taken_seq(actions, ids, 0)),
    ensures
        spec_decompile_actions(bytes) == Ok::<Seq<ShortcutActionView>, Seq<char>>(actions),
{
    lemma_names_differ();
    let items = spec_compile_seq(actions, Map::empty(), ids, 0)->Ok_0.0;
    lemma_plain_compiled_seq(actions, Map::empty(), ids, 0);
    assert(plist_items(bytes) == Ok::<Seq<Item>, Seq<char>>(items));
    let t = taken_seq(actions, ids, 0);
    let st0: (Map<Seq<char>, Seq<char>>, Map<Seq<char>, nat>) = (Map::empty(), Map::empty());
    lemma_alias_compiled_seq(actions, Map::empty(), ids, 0, st0);
    lemma_alias_upto_fold(items, items.len());
    assert(items.take(items.len() as int) =~= items);
    let aliases = spec_alias_map(items);
    assert(aliases == add_taken(st0, t).0);
    lemma_add_taken_known(st0, t);
    assert(outputs_known(Map::empty(), aliases));
    assert(items.subrange(0, items.len() as int) =~= items);
    lemma_decode_compiled_seq(items, 0, actions, Map::empty(), ids, 0, aliases, None);
}

} // verus!
