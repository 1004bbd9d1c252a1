//! Slot binding: the rules that a trusted template declares for its slots, and the
//! untrusted values that are held to them.
use crate::formats::{
    format_accepts, is_supported_format, matches_some_format, relative_path_format,
    some_format_accepts, supported_format,
};
use crate::json::{
    as_text, decode_strings, entry_map, field, flag_or_false, is_record, json_map, json_object,
    json_strings, json_text, law_members_are_found_by_their_key,
    law_values_are_read_by_their_kind, member, optional_i64, optional_usize, parse_json,
    parse_object,
    read_flag_or_false, read_optional_i64, read_optional_usize, read_text_or, read_texts_or_none,
    string_map, text_or, texts_or_none, Json, JsonNumberModel, JsonValue,
};
use crate::members::{
    behind_mark, is_repeated, items_of, members_of, read_items, read_members, repeats, take_mark,
};
use crate::number::{
    i64_to_text, int_text, law_integer_text_reads_back, parse_i64, parsed_i64, push_u64,
};
use crate::text::{
    byte_len, chars_of, first_of, is_blank, lemma_first_of, list_has, pair_texts, same_text,
    string_of, text_is_blank, text_less, texts,
};
use crate::text_map::{ascending, TextMap};
use vstd::prelude::*;

verus! {

/// The byte limit of a slot whose rule gives none.
pub const DEFAULT_MAX_SLOT_BYTES: usize = 512;

// ---------------------------------------------------------------------------
// Errors
// ---------------------------------------------------------------------------

/// Why slots, a slot schema or a template were refused.
#[derive(Debug, Clone, PartialEq, Eq)]
pub enum SlotValidationError {
    TemplateRevoked(String),
    InvalidSchemaJson(String),
    InvalidRawSlotJson(String),
    InvalidSlotDefinition { index: usize, reason: String },
    DuplicateSlot(String),
    MissingRequiredSlot(String),
    UnknownSlot(String),
    SlotTooLong { slot: String, max_bytes: usize, actual_bytes: usize },
    FormatRejected { slot: String },
    IntegerExpected { slot: String },
    IntegerOutOfBounds { slot: String, value: i64 },
    NonStringSlot { slot: String },
    InvalidTemplateJson(String),
    UnboundPlaceholder(String),
}

/// What a [`SlotValidationError`] says.
pub ghost enum SlotFault {
    TemplateRevoked(Seq<char>),
    InvalidSchemaJson(Seq<char>),
    InvalidRawSlotJson(Seq<char>),
    InvalidSlotDefinition { index: nat, reason: Seq<char> },
    DuplicateSlot(Seq<char>),
    MissingRequiredSlot(Seq<char>),
    UnknownSlot(Seq<char>),
    SlotTooLong { slot: Seq<char>, max_bytes: usize, actual_bytes: usize },
    FormatRejected { slot: Seq<char> },
    IntegerExpected { slot: Seq<char> },
    IntegerOutOfBounds { slot: Seq<char>, value: i64 },
    NonStringSlot { slot: Seq<char> },
    InvalidTemplateJson(Seq<char>),
    UnboundPlaceholder(Seq<char>),
}

impl View for SlotValidationError {
    type V = SlotFault;

    open spec fn view(&self) -> SlotFault {
        match self {
            SlotValidationError::TemplateRevoked(state) => SlotFault::TemplateRevoked(state@),
            SlotValidationError::InvalidSchemaJson(message) => SlotFault::InvalidSchemaJson(
                message@,
            ),
            SlotValidationError::InvalidRawSlotJson(message) => SlotFault::InvalidRawSlotJson(
                message@,
            ),
            SlotValidationError::InvalidSlotDefinition { index, reason } => {
                SlotFault::InvalidSlotDefinition { index: *index as nat, reason: reason@ }
            },
            SlotValidationError::DuplicateSlot(slot) => SlotFault::DuplicateSlot(slot@),
            SlotValidationError::MissingRequiredSlot(slot) => SlotFault::MissingRequiredSlot(slot@),
            SlotValidationError::UnknownSlot(slot) => SlotFault::UnknownSlot(slot@),
            SlotValidationError::SlotTooLong { slot, max_bytes, actual_bytes } => {
                SlotFault::SlotTooLong {
                    slot: slot@,
                    max_bytes: *max_bytes,
                    actual_bytes: *actual_bytes,
                }
            },
            SlotValidationError::FormatRejected { slot } => SlotFault::FormatRejected {
                slot: slot@,
            },
            SlotValidationError::IntegerExpected { slot } => SlotFault::IntegerExpected {
                slot: slot@,
            },
            SlotValidationError::IntegerOutOfBounds { slot, value } => {
                SlotFault::IntegerOutOfBounds { slot: slot@, value: *value }
            },
            SlotValidationError::NonStringSlot { slot } => SlotFault::NonStringSlot { slot: slot@ },
            SlotValidationError::InvalidTemplateJson(message) => SlotFault::InvalidTemplateJson(
                message@,
            ),
            SlotValidationError::UnboundPlaceholder(slot) => SlotFault::UnboundPlaceholder(slot@),
        }
    }
}

/// The text that reports a fault to the user.
pub open spec fn slot_fault_text(fault: SlotFault) -> Seq<char> {
    match fault {
        SlotFault::TemplateRevoked(state) => "template lifecycle state blocks execution: "@ + state,
        SlotFault::InvalidSchemaJson(message) => "slot schema JSON is invalid: "@ + message,
        SlotFault::InvalidRawSlotJson(message) => "raw slot JSON is invalid: "@ + message,
        SlotFault::InvalidSlotDefinition { index, reason } => "slot definition at index "@
            + int_text(index as int) + " is invalid: "@ + reason,
        SlotFault::DuplicateSlot(slot) => "duplicate slot schema entry: "@ + slot,
        SlotFault::MissingRequiredSlot(slot) => "required slot is missing: "@ + slot,
        SlotFault::UnknownSlot(slot) => "unknown untrusted slot was supplied: "@ + slot,
        SlotFault::SlotTooLong { slot, max_bytes, actual_bytes } => "slot "@ + slot
            + " exceeds byte limit "@ + int_text(max_bytes as int) + "; got "@ + int_text(
            actual_bytes as int,
        ),
        SlotFault::FormatRejected { slot } => "slot "@ + slot
            + " does not match any allowed format"@,
        SlotFault::IntegerExpected { slot } => "slot "@ + slot
            + " must be an integer JSON primitive or integer string"@,
        SlotFault::IntegerOutOfBounds { slot, value } => "slot "@ + slot + " integer value "@
            + int_text(value as int) + " is outside allowed bounds"@,
        SlotFault::NonStringSlot { slot } => "slot "@ + slot + " must be a JSON string"@,
        SlotFault::InvalidTemplateJson(message) => "template argv JSON is invalid: "@ + message,
        SlotFault::UnboundPlaceholder(slot) => "template placeholder has no bound slot: "@ + slot,
    }
}

/// A size in decimal notation.
fn usize_to_text(n: usize) -> (text: String)
    ensures
        text@ == int_text(n as int),
{
    let mut text = String::new();
    push_u64(&mut text, n as u64);
    assert(text@ =~= int_text(n as int));
    text
}

impl SlotValidationError {
    /// The text that reports the error to the user.
    pub fn message(&self) -> (text: String)
        ensures
            text@ == slot_fault_text(self@),
    {
        match self {
            SlotValidationError::TemplateRevoked(state) => {
                "template lifecycle state blocks execution: ".to_owned().concat(state.as_str())
            },
            SlotValidationError::InvalidSchemaJson(message) => {
                "slot schema JSON is invalid: ".to_owned().concat(message.as_str())
            },
            SlotValidationError::InvalidRawSlotJson(message) => {
                "raw slot JSON is invalid: ".to_owned().concat(message.as_str())
            },
            SlotValidationError::InvalidSlotDefinition { index, reason } => {
                "slot definition at index ".to_owned().concat(usize_to_text(*index).as_str()).concat(
                    " is invalid: ",
                ).concat(reason.as_str())
            },
            SlotValidationError::DuplicateSlot(slot) => {
                "duplicate slot schema entry: ".to_owned().concat(slot.as_str())
            },
            SlotValidationError::MissingRequiredSlot(slot) => {
                "required slot is missing: ".to_owned().concat(slot.as_str())
            },
            SlotValidationError::UnknownSlot(slot) => {
                "unknown untrusted slot was supplied: ".to_owned().concat(slot.as_str())
            },
            SlotValidationError::SlotTooLong { slot, max_bytes, actual_bytes } => {
                "slot ".to_owned().concat(slot.as_str()).concat(" exceeds byte limit ").concat(
                    usize_to_text(*max_bytes).as_str(),
                ).concat("; got ").concat(usize_to_text(*actual_bytes).as_str())
            },
            SlotValidationError::FormatRejected { slot } => {
                "slot ".to_owned().concat(slot.as_str()).concat(" does not match any allowed format")
            },
            SlotValidationError::IntegerExpected { slot } => {
                "slot ".to_owned().concat(slot.as_str()).concat(
                    " must be an integer JSON primitive or integer string",
                )
            },
            SlotValidationError::IntegerOutOfBounds { slot, value } => {
                "slot ".to_owned().concat(slot.as_str()).concat(" integer value ").concat(
                    i64_to_text(*value).as_str(),
                ).concat(" is outside allowed bounds")
            },
            SlotValidationError::NonStringSlot { slot } => {
                "slot ".to_owned().concat(slot.as_str()).concat(" must be a JSON string")
            },
            SlotValidationError::InvalidTemplateJson(message) => {
                "template argv JSON is invalid: ".to_owned().concat(message.as_str())
            },
            SlotValidationError::UnboundPlaceholder(slot) => {
                "template placeholder has no bound slot: ".to_owned().concat(slot.as_str())
            },
        }
    }
}

// ---------------------------------------------------------------------------
// Rules
// ---------------------------------------------------------------------------

/// What a template declares of one slot.
#[derive(Debug, PartialEq, Eq)]
pub struct SlotRule {
    pub name: String,
    pub kind: String,
    pub required: bool,
    pub max_bytes: Option<usize>,
    pub min_value: Option<i64>,
    pub max_value: Option<i64>,
    pub allowed_formats: Vec<String>,
}

/// What a [`SlotRule`] says.
pub ghost struct RuleModel {
    pub name: Seq<char>,
    pub kind: Seq<char>,
    pub required: bool,
    pub max_bytes: Option<usize>,
    pub min_value: Option<i64>,
    pub max_value: Option<i64>,
    pub allowed_formats: Seq<Seq<char>>,
}

impl View for SlotRule {
    type V = RuleModel;

    open spec fn view(&self) -> RuleModel {
        RuleModel {
            name: self.name@,
            kind: self.kind@,
            required: self.required,
            max_bytes: self.max_bytes,
            min_value: self.min_value,
            max_value: self.max_value,
            allowed_formats: texts(self.allowed_formats@),
        }
    }
}

/// What the rules of a list say.
pub open spec fn rule_models(rules: Seq<SlotRule>) -> Seq<RuleModel> {
    rules.map_values(|rule: SlotRule| rule@)
}

/// The rule that a JSON value writes. The name is required; every other member may be
/// left out.
pub open spec fn rule_of(json: Json) -> Option<RuleModel> {
    let name = match member(json, 0, "name"@) {
        Some(value) => as_text(value),
        None => None,
    };
    let kind = text_or(member(json, 1, "kind"@), "string"@);
    let required = flag_or_false(member(json, 2, "required"@));
    let max_bytes = optional_usize(member(json, 3, "max_bytes"@));
    let min_value = optional_i64(member(json, 4, "min_value"@));
    let max_value = optional_i64(member(json, 5, "max_value"@));
    let allowed_formats = texts_or_none(member(json, 6, "allowed_formats"@));
    if is_record(json, 7) && name is Some && kind is Some && required is Some && max_bytes is Some
        && min_value is Some && max_value is Some && allowed_formats is Some {
        Some(
            RuleModel {
                name: name->0,
                kind: kind->0,
                required: required->0,
                max_bytes: max_bytes->0,
                min_value: min_value->0,
                max_value: max_value->0,
                allowed_formats: allowed_formats->0,
            },
        )
    } else {
        None
    }
}

/// The rules that a list of JSON values writes, if each of them writes one.
pub open spec fn rules_of(items: Seq<Json>) -> Option<Seq<RuleModel>> {
    if forall|i: int| 0 <= i < items.len() ==> rule_of(#[trigger] items[i]) is Some {
        Some(items.map_values(|item: Json| rule_of(item)->0))
    } else {
        None
    }
}

/// The rules that a schema writes: a list of rules, or an object with the list under
/// `slots`.
pub open spec fn schema_of(json: Json) -> Option<Seq<RuleModel>> {
    match json {
        Json::Array(items) => rules_of(items),
        Json::Object(entries) => match field(entries, "slots"@) {
            Some(Json::Array(items)) => rules_of(items),
            _ => None,
        },
        _ => None,
    }
}

/// A rule that a text begins with writes one of its members twice.
pub open spec fn rule_repeats(text: Seq<char>) -> bool {
    match behind_mark(text, '{') {
        Some(inner) => {
            let members = members_of(inner);
            ||| is_repeated(members, "name"@)
            ||| is_repeated(members, "kind"@)
            ||| is_repeated(members, "required"@)
            ||| is_repeated(members, "max_bytes"@)
            ||| is_repeated(members, "min_value"@)
            ||| is_repeated(members, "max_value"@)
            ||| is_repeated(members, "allowed_formats"@)
        },
        None => false,
    }
}

/// One of the rules that texts begin with writes a member twice.
pub open spec fn some_rule_repeats(items: Seq<Seq<char>>) -> bool {
    exists|i: int| 0 <= i < items.len() && rule_repeats(#[trigger] items[i])
}

/// A list of rules that a text begins with holds one that writes a member twice.
pub open spec fn rules_repeat(text: Seq<char>) -> bool {
    match behind_mark(text, '[') {
        Some(inner) => some_rule_repeats(items_of(inner)),
        None => false,
    }
}

/// A schema writes a member twice that it takes up once.
pub open spec fn schema_repeats(text: Seq<char>) -> bool {
    match behind_mark(text, '{') {
        Some(inner) => {
            let members = members_of(inner);
            ||| is_repeated(members, "slots"@)
            ||| exists|i: int|
                0 <= i < members.len() && (#[trigger] members[i]).0 == "slots"@ && rules_repeat(
                    members[i].1,
                )
        },
        None => rules_repeat(text),
    }
}

/// The rules of a schema text, or why it has none. Members that no rule has are passed
/// over, and those that one has may stand in it once.
pub open spec fn parsed_schema(text: Seq<char>) -> Result<Seq<RuleModel>, SlotFault> {
    match json_text(text) {
        Ok(json) => if schema_of(json) is Some && !schema_repeats(text) {
            Ok(schema_of(json)->0)
        } else {
            Err(
                SlotFault::InvalidSchemaJson(
                    "data did not match any variant of untagged enum SlotSchemaRoot"@,
                ),
            )
        },
        Err(message) => Err(SlotFault::InvalidSchemaJson(message)),
    }
}

/// The raw slots of a text, or why it has none.
pub open spec fn parsed_raw_slots(text: Seq<char>) -> Result<Map<Seq<char>, Json>, SlotFault> {
    match json_object(text) {
        Ok(entries) => Ok(entry_map(entries)),
        Err(message) => Err(SlotFault::InvalidRawSlotJson(message)),
    }
}

/// The first format of the list that is not supported.
pub open spec fn first_unsupported(formats: Seq<Seq<char>>) -> Option<Seq<char>>
    decreases formats.len(),
{
    if formats.len() == 0 {
        None
    } else if !supported_format(formats[0]) {
        Some(formats[0])
    } else {
        first_unsupported(formats.drop_first())
    }
}

/// What is wrong with a rule, if anything is.
pub open spec fn rule_reason(rule: RuleModel) -> Option<Seq<char>> {
    if is_blank(rule.name) {
        Some("slot name must not be empty"@)
    } else if rule.kind != "string"@ && rule.kind != "integer"@ {
        Some("unsupported slot kind "@ + rule.kind)
    } else if rule.max_bytes == Some(0usize) {
        Some("max_bytes must be greater than zero"@)
    } else if rule.min_value is Some && rule.max_value is Some && rule.min_value->0
        > rule.max_value->0 {
        Some("min_value must be less than or equal to max_value"@)
    } else {
        match first_unsupported(rule.allowed_formats) {
            Some(format) => Some("unsupported allowed format "@ + format),
            None => None,
        }
    }
}

/// The first fault of a schema from a position on: a rule that is wrong in itself, or
/// one whose name an earlier rule has.
pub open spec fn schema_fault(rules: Seq<RuleModel>, from: nat) -> Option<SlotFault>
    decreases rules.len() - from,
{
    if from >= rules.len() {
        None
    } else {
        let rule = rules[from as int];
        match rule_reason(rule) {
            Some(reason) => Some(SlotFault::InvalidSlotDefinition { index: from, reason }),
            None => if exists|j: int| 0 <= j < from && #[trigger] rules[j].name == rule.name {
                Some(SlotFault::DuplicateSlot(rule.name))
            } else {
                schema_fault(rules, from + 1)
            },
        }
    }
}

/// The slot takes integers.
pub open spec fn takes_integers(rule: RuleModel) -> bool {
    rule.kind == "integer"@ || rule.allowed_formats.contains("integer"@)
}

/// The integer that a value stands for.
pub open spec fn slot_integer(value: Json) -> Option<i64> {
    match value {
        Json::Number(number) => number.as_i64(),
        Json::Text(text) => parsed_i64(text),
        _ => None,
    }
}

/// The text that a value is bound as: an integer in decimal notation where the slot
/// takes integers, else the string itself.
pub open spec fn canonical_value(rule: RuleModel, value: Json) -> Result<Seq<char>, SlotFault> {
    if takes_integers(rule) {
        match slot_integer(value) {
            None => Err(SlotFault::IntegerExpected { slot: rule.name }),
            Some(n) => if (rule.min_value is Some && n < rule.min_value->0) || (rule.max_value is Some
                && n > rule.max_value->0) {
                Err(SlotFault::IntegerOutOfBounds { slot: rule.name, value: n })
            } else {
                Ok(int_text(n as int))
            },
        }
    } else {
        match as_text(value) {
            Some(text) => Ok(text),
            None => Err(SlotFault::NonStringSlot { slot: rule.name }),
        }
    }
}

/// The byte limit of a slot.
pub open spec fn byte_limit(rule: RuleModel) -> usize {
    match rule.max_bytes {
        Some(limit) => limit,
        None => DEFAULT_MAX_SLOT_BYTES,
    }
}

/// The value that a slot is bound to, or why its rule refuses it.
pub open spec fn checked_value(rule: RuleModel, value: Json) -> Result<Seq<char>, SlotFault> {
    match canonical_value(rule, value) {
        Err(fault) => Err(fault),
        Ok(text) => if byte_len(text) > byte_limit(rule) {
            Err(
                SlotFault::SlotTooLong {
                    slot: rule.name,
                    max_bytes: byte_limit(rule),
                    actual_bytes: byte_len(text),
                },
            )
        } else if rule.allowed_formats.len() > 0 && !some_format_accepts(
            rule.allowed_formats,
            text,
        ) {
            Err(SlotFault::FormatRejected { slot: rule.name })
        } else {
            Ok(text)
        },
    }
}

/// What is wrong with the value of a slot among the raw slots, if anything is.
pub open spec fn slot_fault(rule: RuleModel, raw: Map<Seq<char>, Json>) -> Option<SlotFault> {
    if raw.contains_key(rule.name) {
        match checked_value(rule, raw[rule.name]) {
            Ok(_) => None,
            Err(fault) => Some(fault),
        }
    } else if rule.required {
        Some(SlotFault::MissingRequiredSlot(rule.name))
    } else {
        None
    }
}

/// Checks one rule of a schema, which stands at `index`.
pub fn validate_rule(index: usize, rule: &SlotRule) -> (result: Result<(), SlotValidationError>)
    ensures
        match rule_reason(rule@) {
            Some(reason) => result is Err && result->Err_0@ == (
            SlotFault::InvalidSlotDefinition { index: index as nat, reason }),
            None => result is Ok,
        },
{
    if text_is_blank(rule.name.as_str()) {
        return Err(
            SlotValidationError::InvalidSlotDefinition {
                index,
                reason: "slot name must not be empty".to_owned(),
            },
        );
    }
    if !same_text(rule.kind.as_str(), "string") && !same_text(rule.kind.as_str(), "integer") {
        return Err(
            SlotValidationError::InvalidSlotDefinition {
                index,
                reason: "unsupported slot kind ".to_owned().concat(rule.kind.as_str()),
            },
        );
    }
    if let Some(limit) = rule.max_bytes {
        if limit == 0 {
            return Err(
                SlotValidationError::InvalidSlotDefinition {
                    index,
                    reason: "max_bytes must be greater than zero".to_owned(),
                },
            );
        }
    }
    if let (Some(min), Some(max)) = (rule.min_value, rule.max_value) {
        if min > max {
            return Err(
                SlotValidationError::InvalidSlotDefinition {
                    index,
                    reason: "min_value must be less than or equal to max_value".to_owned(),
                },
            );
        }
    }
    let ghost formats = texts(rule.allowed_formats@);
    assert(formats.skip(0) =~= formats);
    let mut i: usize = 0;
    while i < rule.allowed_formats.len()
        invariant
            i <= rule.allowed_formats@.len(),
            formats == texts(rule.allowed_formats@),
            first_unsupported(formats) == first_unsupported(formats.skip(i as int)),
            first_unsupported(formats) is Some ==> rule_reason(rule@) == Some(
                "unsupported allowed format "@ + first_unsupported(formats)->0,
            ),
        decreases rule.allowed_formats@.len() - i,
    {
        assert(formats[i as int] == rule.allowed_formats@[i as int]@);
        assert(formats.skip(i as int).drop_first() =~= formats.skip(i + 1));
        if !is_supported_format(rule.allowed_formats[i].as_str()) {
            return Err(
                SlotValidationError::InvalidSlotDefinition {
                    index,
                    reason: "unsupported allowed format ".to_owned().concat(
                        rule.allowed_formats[i].as_str(),
                    ),
                },
            );
        }
        i += 1;
    }
    Ok(())
}

/// Brings the raw value of a slot into the text that it is bound as.
pub fn canonicalize_slot_value(rule: &SlotRule, value: &JsonValue) -> (result: Result<
    String,
    SlotValidationError,
>)
    ensures
        match result {
            Ok(text) => canonical_value(rule@, value@) == Ok::<Seq<char>, SlotFault>(text@),
            Err(error) => canonical_value(rule@, value@) == Err::<Seq<char>, SlotFault>(error@),
        },
{
    if same_text(rule.kind.as_str(), "integer") || list_has(&rule.allowed_formats, "integer") {
        let integer = match value {
            JsonValue::Number(number) => number.as_i64(),
            JsonValue::Text(text) => parse_i64(text.as_str()),
            _ => None,
        };
        let n: i64 = match integer {
            Some(n) => n,
            None => {
                return Err(SlotValidationError::IntegerExpected { slot: rule.name.clone() });
            },
        };
        let below = match rule.min_value {
            Some(min) => n < min,
            None => false,
        };
        let above = match rule.max_value {
            Some(max) => n > max,
            None => false,
        };
        if below || above {
            return Err(
                SlotValidationError::IntegerOutOfBounds { slot: rule.name.clone(), value: n },
            );
        }
        return Ok(i64_to_text(n));
    }
    match value.as_text() {
        Some(text) => Ok(text),
        None => Err(SlotValidationError::NonStringSlot { slot: rule.name.clone() }),
    }
}

/// Holds the raw value of a slot to its rule.
fn check_slot_value(rule: &SlotRule, value: &JsonValue) -> (result: Result<
    String,
    SlotValidationError,
>)
    ensures
        match result {
            Ok(text) => checked_value(rule@, value@) == Ok::<Seq<char>, SlotFault>(text@),
            Err(error) => checked_value(rule@, value@) == Err::<Seq<char>, SlotFault>(error@),
        },
{
    let text = match canonicalize_slot_value(rule, value) {
        Ok(text) => text,
        Err(error) => {
            return Err(error);
        },
    };
    let max_bytes: usize = match rule.max_bytes {
        Some(limit) => limit,
        None => DEFAULT_MAX_SLOT_BYTES,
    };
    let actual_bytes: usize = text.as_str().len();
    if actual_bytes > max_bytes {
        return Err(
            SlotValidationError::SlotTooLong { slot: rule.name.clone(), max_bytes, actual_bytes },
        );
    }
    if rule.allowed_formats.len() > 0 && !matches_some_format(text.as_str(), &rule.allowed_formats) {
        return Err(SlotValidationError::FormatRejected { slot: rule.name.clone() });
    }
    Ok(text)
}

// ---------------------------------------------------------------------------
// Schemas
// ---------------------------------------------------------------------------

fn read_rule(json: &JsonValue) -> (rule: Option<SlotRule>)
    ensures
        match rule {
            Some(rule) => rule_of(json@) == Some(rule@),
            None => rule_of(json@) is None,
        },
{
    if !json.is_record(7) {
        return None;
    }
    let name = match json.member(0, "name") {
        Some(value) => value.as_text(),
        None => None,
    };
    let kind = read_text_or(json.member(1, "kind"), "string");
    let required = read_flag_or_false(json.member(2, "required"));
    let max_bytes = read_optional_usize(json.member(3, "max_bytes"));
    let min_value = read_optional_i64(json.member(4, "min_value"));
    let max_value = read_optional_i64(json.member(5, "max_value"));
    let allowed_formats = read_texts_or_none(json.member(6, "allowed_formats"));
    match (name, kind, required, max_bytes, min_value, max_value, allowed_formats) {
        (
            Some(name),
            Some(kind),
            Some(required),
            Some(max_bytes),
            Some(min_value),
            Some(max_value),
            Some(allowed_formats),
        ) => Some(
            SlotRule { name, kind, required, max_bytes, min_value, max_value, allowed_formats },
        ),
        _ => None,
    }
}

fn read_rules(items: &Vec<JsonValue>) -> (rules: Option<Vec<SlotRule>>)
    ensures
        match rules {
            Some(rules) => rules_of(JsonValue::Array(*items)@->Array_0) == Some(
                rule_models(rules@),
            ),
            None => rules_of(JsonValue::Array(*items)@->Array_0) is None,
        },
{
    let ghost parts = JsonValue::Array(*items)@->Array_0;
    let mut rules: Vec<SlotRule> = Vec::new();
    let mut i: usize = 0;
    while i < items.len()
        invariant
            parts == JsonValue::Array(*items)@->Array_0,
            parts.len() == items@.len(),
            i <= items@.len(),
            rules@.len() == i,
            forall|j: int| 0 <= j < i ==> rule_of(#[trigger] parts[j]) == Some(rules@[j]@),
        decreases items@.len() - i,
    {
        assert(parts[i as int] == items@[i as int]@);
        match read_rule(&items[i]) {
            Some(rule) => {
                rules.push(rule);
            },
            None => {
                return None;
            },
        }
        i += 1;
    }
    assert(parts.map_values(|item: Json| rule_of(item)->0) =~= rule_models(rules@));
    Some(rules)
}

/// Reads the rules that a JSON value writes.
pub fn read_schema(json: &JsonValue) -> (rules: Option<Vec<SlotRule>>)
    ensures
        match rules {
            Some(rules) => schema_of(json@) == Some(rule_models(rules@)),
            None => schema_of(json@) is None,
        },
{
    match json {
        JsonValue::Array(items) => read_rules(items),
        JsonValue::Object(_) => match json.member(0, "slots") {
            Some(JsonValue::Array(items)) => read_rules(items),
            _ => None,
        },
        _ => None,
    }
}

fn finds_repeat_in_rule(text: &str) -> (b: bool)
    ensures
        b == rule_repeats(text@),
{
    match take_mark(text, '{') {
        Some(inner) => {
            let members = read_members(inner.as_str());
            repeats(&members, "name") || repeats(&members, "kind") || repeats(&members, "required")
                || repeats(&members, "max_bytes") || repeats(&members, "min_value") || repeats(
                &members,
                "max_value",
            ) || repeats(&members, "allowed_formats")
        },
        None => false,
    }
}

fn finds_repeat_in_rules(text: &str) -> (b: bool)
    ensures
        b == rules_repeat(text@),
{
    let inner = match take_mark(text, '[') {
        Some(inner) => inner,
        None => {
            return false;
        },
    };
    let items = read_items(inner.as_str());
    let ghost list = texts(items@);
    let mut i: usize = 0;
    while i < items.len()
        invariant
            rules_repeat(text@) == some_rule_repeats(list),
            list == texts(items@),
            i <= items@.len(),
            forall|j: int| 0 <= j < i ==> !rule_repeats(#[trigger] list[j]),
        decreases items@.len() - i,
    {
        assert(list[i as int] == items@[i as int]@);
        if finds_repeat_in_rule(items[i].as_str()) {
            return true;
        }
        i += 1;
    }
    false
}

/// Whether a schema writes a member twice that it takes up once.
pub fn finds_repeat(slot_schema_json: &str) -> (b: bool)
    ensures
        b == schema_repeats(slot_schema_json@),
{
    let inner = match take_mark(slot_schema_json, '{') {
        Some(inner) => inner,
        None => {
            return finds_repeat_in_rules(slot_schema_json);
        },
    };
    let members = read_members(inner.as_str());
    if repeats(&members, "slots") {
        return true;
    }
    let ghost list = members_of(inner@);
    let mut i: usize = 0;
    while i < members.len()
        invariant
            behind_mark(slot_schema_json@, '{') == Some(inner@),
            list == members_of(inner@),
            pair_texts(members@) == list,
            !is_repeated(list, "slots"@),
            i <= members@.len(),
            forall|j: int|
                0 <= j < i && (#[trigger] list[j]).0 == "slots"@ ==> !rules_repeat(list[j].1),
        decreases members@.len() - i,
    {
        assert(list[i as int] == (members@[i as int].0@, members@[i as int].1@));
        if same_text(members[i].0.as_str(), "slots") && finds_repeat_in_rules(
            members[i].1.as_str(),
        ) {
            return true;
        }
        i += 1;
    }
    assert(list.len() == members@.len());
    false
}

/// Reads the rules of a schema text.
pub fn parse_schema(slot_schema_json: &str) -> (result: Result<Vec<SlotRule>, SlotValidationError>)
    ensures
        match result {
            Ok(rules) => parsed_schema(slot_schema_json@) == Ok::<Seq<RuleModel>, SlotFault>(
                rule_models(rules@),
            ),
            Err(error) => parsed_schema(slot_schema_json@) == Err::<Seq<RuleModel>, SlotFault>(
                error@,
            ),
        },
{
    let json = match parse_json(slot_schema_json) {
        Ok(json) => json,
        Err(message) => {
            return Err(SlotValidationError::InvalidSchemaJson(message));
        },
    };
    match read_schema(&json) {
        Some(rules) => {
            if !finds_repeat(slot_schema_json) {
                return Ok(rules);
            }
        },
        None => {},
    }
    Err(
        SlotValidationError::InvalidSchemaJson(
            "data did not match any variant of untagged enum SlotSchemaRoot".to_owned(),
        ),
    )
}

/// Reads the raw slots of a text.
pub fn parse_raw_slots(raw_untrusted_slots_json: &str) -> (result: Result<
    TextMap<JsonValue>,
    SlotValidationError,
>)
    ensures
        match result {
            Ok(raw) => raw.wf() && parsed_raw_slots(raw_untrusted_slots_json@) == Ok::<
                Map<Seq<char>, Json>,
                SlotFault,
            >(json_map(raw@)),
            Err(error) => parsed_raw_slots(raw_untrusted_slots_json@) == Err::<
                Map<Seq<char>, Json>,
                SlotFault,
            >(error@),
        },
{
    match parse_object(raw_untrusted_slots_json) {
        Ok(raw) => Ok(raw),
        Err(message) => Err(SlotValidationError::InvalidRawSlotJson(message)),
    }
}

// ---------------------------------------------------------------------------
// Binding
// ---------------------------------------------------------------------------

/// The slots of a template with the values that they are bound to.
#[derive(Debug, Clone, PartialEq, Eq)]
pub struct BoundSlots {
    values: TextMap<String>,
}

impl View for BoundSlots {
    type V = Map<Seq<char>, Seq<char>>;

    closed spec fn view(&self) -> Map<Seq<char>, Seq<char>> {
        string_map(self.values@)
    }
}

impl BoundSlots {
    /// The order that the values are kept in.
    pub closed spec fn wf(&self) -> bool {
        self.values.wf()
    }

    /// The value that a slot is bound to.
    pub fn get(&self, key: &str) -> (value: Option<&str>)
        requires
            self.wf(),
        ensures
            match value {
                Some(text) => self@.contains_pair(key@, text@),
                None => !self@.contains_key(key@),
            },
    {
        match self.values.get(key) {
            Some(value) => Some(value.as_str()),
            None => None,
        }
    }

    /// The map from slots to values.
    pub fn into_inner(self) -> (values: TextMap<String>)
        requires
            self.wf(),
        ensures
            values.wf(),
            string_map(values@) == self@,
    {
        self.values
    }

    /// The number of bound slots.
    pub fn len(&self) -> (n: usize)
        requires
            self.wf(),
        ensures
            n == self@.len(),
    {
        assert(self@.dom() =~= self.values@.dom());
        self.values.len()
    }

    /// Whether no slot is bound.
    pub fn is_empty(&self) -> (b: bool)
        requires
            self.wf(),
        ensures
            b == (self@.len() == 0),
    {
        self.len() == 0
    }
}

/// The names that the rules of a schema declare.
pub open spec fn rule_names(rules: Seq<RuleModel>) -> Set<Seq<char>> {
    rules.map_values(|rule: RuleModel| rule.name).to_set()
}

/// A rule of the schema with the given name.
pub open spec fn rule_named(rules: Seq<RuleModel>, name: Seq<char>) -> RuleModel {
    rules[choose|i: int| 0 <= i < rules.len() && #[trigger] rules[i].name == name]
}

/// The raw slots that no rule declares.
pub open spec fn unknown_slots(rules: Seq<RuleModel>, raw: Map<Seq<char>, Json>) -> Set<Seq<char>> {
    Set::new(|name: Seq<char>| raw.contains_key(name) && !rule_names(rules).contains(name))
}

/// The slots whose value, or lack of one, their rule refuses.
pub open spec fn refused_slots(rules: Seq<RuleModel>, raw: Map<Seq<char>, Json>) -> Set<Seq<char>> {
    Set::new(
        |name: Seq<char>|
            rule_names(rules).contains(name) && slot_fault(rule_named(rules, name), raw) is Some,
    )
}

/// The values that the slots are bound to when nothing is refused.
pub open spec fn bound_values(rules: Seq<RuleModel>, raw: Map<Seq<char>, Json>) -> Map<
    Seq<char>,
    Seq<char>,
> {
    Map::new(
        |name: Seq<char>| raw.contains_key(name),
        |name: Seq<char>| checked_value(rule_named(rules, name), raw[name])->Ok_0,
    )
}

/// What becomes of raw slots under a schema. The schema is looked at first, rule by
/// rule; then the slots that nobody declared; then each declared slot. Within the last
/// two, the slot whose name comes first is the one that is reported.
pub open spec fn binding(rules: Seq<RuleModel>, raw: Map<Seq<char>, Json>) -> Result<
    Map<Seq<char>, Seq<char>>,
    SlotFault,
> {
    match schema_fault(rules, 0) {
        Some(fault) => Err(fault),
        None => if !unknown_slots(rules, raw).is_empty() {
            Err(SlotFault::UnknownSlot(first_of(unknown_slots(rules, raw))))
        } else if !refused_slots(rules, raw).is_empty() {
            Err(slot_fault(rule_named(rules, first_of(refused_slots(rules, raw))), raw)->0)
        } else {
            Ok(bound_values(rules, raw))
        },
    }
}

/// What becomes of the raw slots of one text under the schema of another.
pub open spec fn text_binding(schema: Seq<char>, raw: Seq<char>) -> Result<
    Map<Seq<char>, Seq<char>>,
    SlotFault,
> {
    match parsed_schema(schema) {
        Err(fault) => Err(fault),
        Ok(rules) => match parsed_raw_slots(raw) {
            Err(fault) => Err(fault),
            Ok(raw) => binding(rules, raw),
        },
    }
}

/// The state of a template that must not run any more.
pub open spec fn is_withdrawn(trust_state: Seq<char>) -> bool {
    trust_state == "DISABLED"@ || trust_state == "REVOKED"@
}

/// What becomes of raw slots for a template in a state of its life.
pub open spec fn template_binding(
    trust_state: Seq<char>,
    schema: Seq<char>,
    raw: Seq<char>,
) -> Result<Map<Seq<char>, Seq<char>>, SlotFault> {
    if is_withdrawn(trust_state) {
        Err(SlotFault::TemplateRevoked(trust_state))
    } else {
        text_binding(schema, raw)
    }
}

proof fn lemma_rule_names(rules: Seq<RuleModel>, name: Seq<char>)
    ensures
        rule_names(rules).contains(name) <==> exists|i: int|
            0 <= i < rules.len() && #[trigger] rules[i].name == name,
{
    let names = rules.map_values(|rule: RuleModel| rule.name);
    if rule_names(rules).contains(name) {
        let i = choose|i: int| 0 <= i < names.len() && names[i] == name;
        assert(rules[i].name == name);
    }
    if exists|i: int| 0 <= i < rules.len() && #[trigger] rules[i].name == name {
        let i = choose|i: int| 0 <= i < rules.len() && #[trigger] rules[i].name == name;
        assert(names[i] == name);
    }
}

/// A declared name is the name of its rule.
pub proof fn lemma_rule_named_has_name(rules: Seq<RuleModel>, name: Seq<char>)
    requires
        rule_names(rules).contains(name),
    ensures
        rule_named(rules, name).name == name,
        rules.contains(rule_named(rules, name)),
{
    lemma_rule_names(rules, name);
}

/// The map holds the first `count` rules, each under its name, and nothing else.
spec fn holds_rules(map: Map<Seq<char>, SlotRule>, rules: Seq<RuleModel>, count: int) -> bool {
    &&& forall|i: int|
        0 <= i < count ==> map.dom().contains((#[trigger] rules[i]).name) && map[rules[i].name]@
            == rules[i]
    &&& forall|name: Seq<char>| #[trigger]
        map.dom().contains(name) ==> exists|i: int|
            0 <= i < count && #[trigger] rules[i].name == name
}

proof fn lemma_held_rule(map: Map<Seq<char>, SlotRule>, rules: Seq<RuleModel>, name: Seq<char>)
    requires
        holds_rules(map, rules, rules.len() as int),
    ensures
        rule_names(rules).contains(name) <==> map.dom().contains(name),
        map.dom().contains(name) ==> map[name]@ == rule_named(rules, name) && map[name]@.name
            == name,
{
    lemma_rule_names(rules, name);
    if rule_names(rules).contains(name) {
        let i = choose|i: int| 0 <= i < rules.len() && #[trigger] rules[i].name == name;
        assert(map.dom().contains(rules[i].name));
    }
}

/// Checks the rules of a schema one by one and files each under its name.
fn file_rules(schema: Vec<SlotRule>) -> (result: Result<TextMap<SlotRule>, SlotValidationError>)
    ensures
        match result {
            Ok(map) => {
                &&& map.wf()
                &&& schema_fault(rule_models(schema@), 0) is None
                &&& holds_rules(map@, rule_models(schema@), schema@.len() as int)
            },
            Err(error) => schema_fault(rule_models(schema@), 0) == Some(error@),
        },
{
    let ghost rules = rule_models(schema@);
    let n = schema.len();
    let mut map: TextMap<SlotRule> = TextMap::new();
    let mut index: usize = 0;
    for rule in it: schema
        invariant
            it.seq() == schema@,
            rules == rule_models(schema@),
            n == schema@.len(),
            index == it.index(),
            map.wf(),
            holds_rules(map@, rules, index as int),
            schema_fault(rules, 0) == schema_fault(rules, index as nat),
    {
        assert(rule == schema@[index as int]);
        assert(rules[index as int] == rule@);
        match validate_rule(index, &rule) {
            Ok(()) => {},
            Err(error) => {
                return Err(error);
            },
        }
        if map.contains_key(rule.name.as_str()) {
            assert(map@.dom().contains(rule@.name));
            return Err(SlotValidationError::DuplicateSlot(rule.name));
        }
        let ghost before = map@;
        let ghost model = rule@;
        map.insert(rule.name.clone(), rule);
        proof {
            assert forall|j: int| 0 <= j < index + 1 implies map@.dom().contains(
                (#[trigger] rules[j]).name,
            ) && map@[rules[j].name]@ == rules[j] by {
                if j < index {
                    assert(before.dom().contains(rules[j].name));
                }
            }
            assert forall|name: Seq<char>| #[trigger] map@.dom().contains(name) implies exists|j: int|

                0 <= j < index + 1 && #[trigger] rules[j].name == name by {
                if name == model.name {
                    assert(rules[index as int].name == name);
                } else {
                    assert(before.dom().contains(name));
                }
            }
        }
        index += 1;
    }
    Ok(map)
}

/// The first raw slot that no rule declares, if there is one.
fn find_unknown_slot(map: &TextMap<SlotRule>, raw_slots: &TextMap<JsonValue>, Ghost(rules): Ghost<
    Seq<RuleModel>,
>) -> (unknown: Option<String>)
    requires
        map.wf(),
        raw_slots.wf(),
        holds_rules(map@, rules, rules.len() as int),
    ensures
        match unknown {
            Some(name) => {
                &&& !unknown_slots(rules, json_map(raw_slots@)).is_empty()
                &&& first_of(unknown_slots(rules, json_map(raw_slots@))) == name@
            },
            None => unknown_slots(rules, json_map(raw_slots@)).is_empty(),
        },
{
    let ghost raw = json_map(raw_slots@);
    let ghost unknown = unknown_slots(rules, raw);
    let ghost keys = raw_slots.keys();
    proof {
        raw_slots.lemma_keys();
    }
    let n = raw_slots.len();
    let mut i: usize = 0;
    while i < n
        invariant
            map.wf(),
            raw_slots.wf(),
            holds_rules(map@, rules, rules.len() as int),
            raw == json_map(raw_slots@),
            unknown == unknown_slots(rules, raw),
            keys == raw_slots.keys(),
            keys.to_set() == raw_slots@.dom(),
            ascending(keys),
            n == keys.len(),
            i <= n,
            forall|j: int| 0 <= j < i ==> !unknown.contains(#[trigger] keys[j]),
        decreases n - i,
    {
        let key = raw_slots.entry_at(i).0;
        proof {
            lemma_held_rule(map@, rules, key@);
        }
        if !map.contains_key(key.as_str()) {
            proof {
                assert(unknown.contains(key@));
                assert forall|other: Seq<char>| #[trigger] unknown.contains(other) implies other
                    == key@ || text_less(key@, other) by {
                    assert(keys.to_set().contains(other));
                    let j = keys.index_of(other);
                    assert(keys[j] == other);
                    if j > i {
                        assert(text_less(keys[i as int], keys[j]));
                    }
                }
                lemma_first_of(unknown, key@);
            }
            return Some(key.clone());
        }
        i += 1;
    }
    proof {
        assert forall|name: Seq<char>| !unknown.contains(name) by {
            if unknown.contains(name) {
                assert(keys.to_set().contains(name));
                let j = keys.index_of(name);
                assert(keys[j] == name);
            }
        }
        assert(unknown =~= Set::empty());
    }
    None
}

/// Binds raw slots to the rules of a schema.
pub fn bind_raw_map(schema: Vec<SlotRule>, raw_slots: TextMap<JsonValue>) -> (result: Result<
    BoundSlots,
    SlotValidationError,
>)
    requires
        raw_slots.wf(),
    ensures
        match result {
            Ok(bound) => bound.wf() && binding(rule_models(schema@), json_map(raw_slots@)) == Ok::<
                Map<Seq<char>, Seq<char>>,
                SlotFault,
            >(bound@),
            Err(error) => binding(rule_models(schema@), json_map(raw_slots@)) == Err::<
                Map<Seq<char>, Seq<char>>,
                SlotFault,
            >(error@),
        },
{
    let ghost rules = rule_models(schema@);
    let ghost raw = json_map(raw_slots@);
    let map = match file_rules(schema) {
        Ok(map) => map,
        Err(error) => {
            return Err(error);
        },
    };
    match find_unknown_slot(&map, &raw_slots, Ghost(rules)) {
        Some(name) => {
            return Err(SlotValidationError::UnknownSlot(name));
        },
        None => {},
    }
    let ghost refused = refused_slots(rules, raw);
    let ghost keys = map.keys();
    proof {
        map.lemma_keys();
    }
    let mut values: TextMap<String> = TextMap::new();
    let n = map.len();
    let mut i: usize = 0;
    while i < n
        invariant
            map.wf(),
            raw_slots.wf(),
            values.wf(),
            holds_rules(map@, rules, rules.len() as int),
            raw == json_map(raw_slots@),
            rules == rule_models(schema@),
            refused == refused_slots(rules, raw),
            schema_fault(rules, 0) is None,
            unknown_slots(rules, raw).is_empty(),
            keys == map.keys(),
            keys.to_set() == map@.dom(),
            ascending(keys),
            n == keys.len(),
            i <= n,
            forall|j: int| 0 <= j < i ==> !refused.contains(#[trigger] keys[j]),
            forall|name: Seq<char>| #[trigger]
                values@.dom().contains(name) <==> raw.dom().contains(name) && keys.take(
                    i as int,
                ).contains(name),
            forall|name: Seq<char>| #[trigger]
                values@.dom().contains(name) ==> checked_value(rule_named(rules, name), raw[name])
                    == Ok::<Seq<char>, SlotFault>(values@[name]@),
        decreases n - i,
    {
        let (name, rule) = map.entry_at(i);
        let ghost before = values@;
        proof {
            lemma_held_rule(map@, rules, name@);
            assert(keys.take(i + 1) =~= keys.take(i as int).push(name@));
            assert forall|other: Seq<char>|
                keys.take(i + 1).contains(other) <==> keys.take(i as int).contains(other) || other
                    == name@ by {
                if keys.take(i + 1).contains(other) {
                    let j = keys.take(i + 1).index_of(other);
                    if j < i {
                        assert(keys.take(i as int)[j] == other);
                    }
                }
                if keys.take(i as int).contains(other) {
                    let j = keys.take(i as int).index_of(other);
                    assert(keys.take(i + 1)[j] == other);
                }
                if other == name@ {
                    assert(keys.take(i + 1)[i as int] == other);
                }
            }
            if refused.contains(name@) {
                assert forall|other: Seq<char>| #[trigger] refused.contains(other) implies other
                    == name@ || text_less(name@, other) by {
                    lemma_held_rule(map@, rules, other);
                    assert(keys.to_set().contains(other));
                    let j = keys.index_of(other);
                    assert(keys[j] == other);
                    if j > i {
                        assert(text_less(keys[i as int], keys[j]));
                    }
                }
                lemma_first_of(refused, name@);
            }
        }
        match raw_slots.get(name.as_str()) {
            Some(value) => {
                assert(raw.dom().contains(name@) && raw[name@] == value@);
                match check_slot_value(rule, value) {
                    Ok(text) => {
                        values.insert(name.clone(), text);
                    },
                    Err(error) => {
                        assert(refused.contains(name@));
                        return Err(error);
                    },
                }
            },
            None => {
                assert(!raw.dom().contains(name@));
                if rule.required {
                    assert(refused.contains(name@));
                    return Err(SlotValidationError::MissingRequiredSlot(name.clone()));
                }
            },
        }
        proof {
            assert forall|other: Seq<char>| #[trigger] values@.dom().contains(other) <==> raw.dom()
                .contains(other) && keys.take(i + 1).contains(other) by {
                assert(before.dom().contains(other) <==> raw.dom().contains(other) && keys.take(
                    i as int,
                ).contains(other));
            }
        }
        i += 1;
    }
    proof {
        assert(keys.take(n as int) =~= keys);
        assert forall|name: Seq<char>| !refused.contains(name) by {
            if refused.contains(name) {
                lemma_held_rule(map@, rules, name);
                assert(keys.to_set().contains(name));
                let j = keys.index_of(name);
                assert(keys[j] == name);
            }
        }
        assert(refused =~= Set::empty());
        assert forall|name: Seq<char>| raw.dom().contains(name) implies keys.contains(name) by {
            lemma_held_rule(map@, rules, name);
            assert(!unknown_slots(rules, raw).contains(name));
            assert(keys.to_set().contains(name));
        }
        assert(string_map(values@) =~= bound_values(rules, raw));
    }
    Ok(BoundSlots { values })
}

/// Binds the raw slots of one text to the schema of another.
pub fn bind_and_validate_slots(slot_schema_json: &str, raw_untrusted_slots_json: &str) -> (result:
    Result<BoundSlots, SlotValidationError>)
    ensures
        match result {
            Ok(bound) => bound.wf() && text_binding(slot_schema_json@, raw_untrusted_slots_json@)
                == Ok::<Map<Seq<char>, Seq<char>>, SlotFault>(bound@),
            Err(error) => text_binding(slot_schema_json@, raw_untrusted_slots_json@) == Err::<
                Map<Seq<char>, Seq<char>>,
                SlotFault,
            >(error@),
        },
{
    let schema = match parse_schema(slot_schema_json) {
        Ok(schema) => schema,
        Err(error) => {
            return Err(error);
        },
    };
    let raw_slots = match parse_raw_slots(raw_untrusted_slots_json) {
        Ok(raw_slots) => raw_slots,
        Err(error) => {
            return Err(error);
        },
    };
    bind_raw_map(schema, raw_slots)
}

/// Refuses a template that was disabled or revoked.
pub fn validate_template_lifecycle(trust_state: &str) -> (result: Result<(), SlotValidationError>)
    ensures
        result is Err <==> is_withdrawn(trust_state@),
        result is Err ==> result->Err_0@ == SlotFault::TemplateRevoked(trust_state@),
{
    if same_text(trust_state, "DISABLED") || same_text(trust_state, "REVOKED") {
        Err(SlotValidationError::TemplateRevoked(trust_state.to_owned()))
    } else {
        Ok(())
    }
}

/// Binds raw slots for a template, unless the template was disabled or revoked.
pub fn bind_template_slots(
    trust_state: &str,
    slot_schema_json: &str,
    raw_untrusted_slots_json: &str,
) -> (result: Result<BoundSlots, SlotValidationError>)
    ensures
        match result {
            Ok(bound) => bound.wf() && template_binding(
                trust_state@,
                slot_schema_json@,
                raw_untrusted_slots_json@,
            ) == Ok::<Map<Seq<char>, Seq<char>>, SlotFault>(bound@),
            Err(error) => template_binding(
                trust_state@,
                slot_schema_json@,
                raw_untrusted_slots_json@,
            ) == Err::<Map<Seq<char>, Seq<char>>, SlotFault>(error@),
        },
{
    match validate_template_lifecycle(trust_state) {
        Ok(()) => bind_and_validate_slots(slot_schema_json, raw_untrusted_slots_json),
        Err(error) => Err(error),
    }
}

/// Why the slots of a recorded request were refused. The request has to be marked
/// before the error is reported.
#[derive(Debug, PartialEq, Eq)]
pub struct RefusedSlots {
    error: SlotValidationError,
}

impl View for RefusedSlots {
    type V = SlotFault;

    closed spec fn view(&self) -> SlotFault {
        self.error@
    }
}

impl RefusedSlots {
    /// The text to report, once the request was marked. The marking is `Err` with a
    /// message where it failed.
    pub fn settle(self, request_id: &str, marking: Result<(), String>) -> (text: String)
        ensures
            text@ == match marking {
                Ok(()) => "untrusted slots failed trusted schema validation: "@ + slot_fault_text(
                    self@,
                ),
                Err(message) => "slot validation failed with "@ + slot_fault_text(self@)
                    + "; failed to mark request_id="@ + request_id@ + " SECURITY_BLOCKED: "@
                    + message@,
            },
    {
        match marking {
            Ok(()) => "untrusted slots failed trusted schema validation: ".to_owned().concat(
                self.error.message().as_str(),
            ),
            Err(message) => "slot validation failed with ".to_owned().concat(
                self.error.message().as_str(),
            ).concat("; failed to mark request_id=").concat(request_id).concat(
                " SECURITY_BLOCKED: ",
            ).concat(message.as_str()),
        }
    }
}

/// Binds the raw slots of a recorded request. What is refused comes back as
/// [`RefusedSlots`], which give their error away only against the outcome of marking
/// the request.
pub fn validate_slots(
    trust_state: &str,
    slot_schema_json: &str,
    raw_untrusted_slots_json: &str,
) -> (result: Result<BoundSlots, RefusedSlots>)
    ensures
        match result {
            Ok(bound) => bound.wf() && template_binding(
                trust_state@,
                slot_schema_json@,
                raw_untrusted_slots_json@,
            ) == Ok::<Map<Seq<char>, Seq<char>>, SlotFault>(bound@),
            Err(refused) => template_binding(
                trust_state@,
                slot_schema_json@,
                raw_untrusted_slots_json@,
            ) == Err::<Map<Seq<char>, Seq<char>>, SlotFault>(refused@),
        },
{
    match bind_template_slots(trust_state, slot_schema_json, raw_untrusted_slots_json) {
        Ok(bound) => Ok(bound),
        Err(error) => Err(RefusedSlots { error }),
    }
}

// ---------------------------------------------------------------------------
// Templates
// ---------------------------------------------------------------------------

/// The slot that a token of a template stands for: the name behind a `$`.
pub open spec fn placeholder(token: Seq<char>) -> Option<Seq<char>> {
    if token.len() > 1 && token[0] == '$' {
        Some(token.drop_first())
    } else {
        None
    }
}

/// A token of a template with its placeholder filled in.
pub open spec fn filled(token: Seq<char>, bound: Map<Seq<char>, Seq<char>>) -> Seq<char> {
    match placeholder(token) {
        Some(slot) => bound[slot],
        None => token,
    }
}

/// The first placeholder that no slot is bound for.
pub open spec fn first_unbound(
    tokens: Seq<Seq<char>>,
    bound: Map<Seq<char>, Seq<char>>,
) -> Option<Seq<char>>
    decreases tokens.len(),
{
    if tokens.len() == 0 {
        None
    } else if placeholder(tokens[0]) is Some && !bound.contains_key(placeholder(tokens[0])->0) {
        placeholder(tokens[0])
    } else {
        first_unbound(tokens.drop_first(), bound)
    }
}

/// The argument list that a template and bound slots make.
pub open spec fn filled_template(
    tokens: Seq<Seq<char>>,
    bound: Map<Seq<char>, Seq<char>>,
) -> Result<Seq<Seq<char>>, SlotFault> {
    match first_unbound(tokens, bound) {
        Some(slot) => Err(SlotFault::UnboundPlaceholder(slot)),
        None => Ok(tokens.map_values(|token: Seq<char>| filled(token, bound))),
    }
}

/// The argument list that the text of a template and bound slots make.
pub open spec fn compiled_argv(
    template: Seq<char>,
    bound: Map<Seq<char>, Seq<char>>,
) -> Result<Seq<Seq<char>>, SlotFault> {
    match json_strings(template) {
        Ok(tokens) => filled_template(tokens, bound),
        Err(message) => Err(SlotFault::InvalidTemplateJson(message)),
    }
}

/// The slot takes paths.
pub open spec fn is_path_rule(rule: RuleModel) -> bool {
    ||| rule.allowed_formats.contains("relative_path"@)
    ||| rule.allowed_formats.contains("path"@)
    ||| rule.allowed_formats.contains("filename"@)
}

/// The names of the slots that take paths, in the order of their rules.
pub open spec fn path_slots(rules: Seq<RuleModel>) -> Seq<Seq<char>>
    decreases rules.len(),
{
    if rules.len() == 0 {
        Seq::empty()
    } else if is_path_rule(rules.last()) {
        path_slots(rules.drop_last()).push(rules.last().name)
    } else {
        path_slots(rules.drop_last())
    }
}

/// A slot whose rule takes paths is among those that do.
pub proof fn lemma_path_slots_has(rules: Seq<RuleModel>, i: int)
    requires
        0 <= i < rules.len(),
        is_path_rule(rules[i]),
    ensures
        path_slots(rules).contains(rules[i].name),
    decreases rules.len(),
{
    let before = path_slots(rules.drop_last());
    if i == rules.len() - 1 {
        assert(path_slots(rules).last() == rules[i].name);
    } else {
        lemma_path_slots_has(rules.drop_last(), i);
        let k = before.index_of(rules[i].name);
        assert(path_slots(rules)[k] == before[k]);
    }
}

/// Fills the placeholders of a template with the bound slots.
pub fn fill_template(tokens: &Vec<String>, bound: &BoundSlots) -> (result: Result<
    Vec<String>,
    SlotValidationError,
>)
    requires
        bound.wf(),
    ensures
        match result {
            Ok(argv) => filled_template(texts(tokens@), bound@) == Ok::<
                Seq<Seq<char>>,
                SlotFault,
            >(texts(argv@)),
            Err(error) => filled_template(texts(tokens@), bound@) == Err::<
                Seq<Seq<char>>,
                SlotFault,
            >(error@),
        },
{
    let ghost source = texts(tokens@);
    assert(source.skip(0) =~= source);
    let mut argv: Vec<String> = Vec::new();
    let mut i: usize = 0;
    while i < tokens.len()
        invariant
            bound.wf(),
            source == texts(tokens@),
            i <= tokens@.len(),
            argv@.len() == i,
            first_unbound(source, bound@) == first_unbound(source.skip(i as int), bound@),
            forall|j: int| 0 <= j < i ==> (#[trigger] argv@[j])@ == filled(source[j], bound@),
        decreases tokens@.len() - i,
    {
        assert(source[i as int] == tokens@[i as int]@);
        assert(source.skip(i as int).drop_first() =~= source.skip(i + 1));
        let token = &tokens[i];
        let chars = chars_of(token.as_str());
        if chars.len() > 1 && chars[0] == '$' {
            let slot = string_of(&chars, 1, chars.len());
            assert(slot@ =~= token@.drop_first());
            match bound.get(slot.as_str()) {
                Some(value) => {
                    argv.push(value.to_owned());
                },
                None => {
                    return Err(SlotValidationError::UnboundPlaceholder(slot));
                },
            }
        } else {
            argv.push(token.clone());
        }
        i += 1;
    }
    assert(texts(argv@) =~= source.map_values(|token: Seq<char>| filled(token, bound@)));
    Ok(argv)
}

/// Makes the argument list of a trusted template and the slots that were bound for it.
pub fn compile_template_argv(template_argv_json: &str, bound: &BoundSlots) -> (result: Result<
    Vec<String>,
    SlotValidationError,
>)
    requires
        bound.wf(),
    ensures
        match result {
            Ok(argv) => compiled_argv(template_argv_json@, bound@) == Ok::<
                Seq<Seq<char>>,
                SlotFault,
            >(texts(argv@)),
            Err(error) => compiled_argv(template_argv_json@, bound@) == Err::<
                Seq<Seq<char>>,
                SlotFault,
            >(error@),
        },
{
    match decode_strings(template_argv_json) {
        Ok(tokens) => fill_template(&tokens, bound),
        Err(message) => Err(SlotValidationError::InvalidTemplateJson(message)),
    }
}

/// The names of the slots that take paths.
pub fn path_slot_names(schema: &Vec<SlotRule>) -> (names: Vec<String>)
    ensures
        texts(names@) == path_slots(rule_models(schema@)),
{
    let ghost rules = rule_models(schema@);
    let mut names: Vec<String> = Vec::new();
    let mut i: usize = 0;
    assert(texts(names@) =~= path_slots(rules.take(0)));
    while i < schema.len()
        invariant
            rules == rule_models(schema@),
            i <= schema@.len(),
            texts(names@) == path_slots(rules.take(i as int)),
        decreases schema@.len() - i,
    {
        assert(rules.take(i + 1).drop_last() =~= rules.take(i as int));
        assert(rules.take(i + 1).last() == schema@[i as int]@);
        let formats = &schema[i].allowed_formats;
        if list_has(formats, "relative_path") || list_has(formats, "path") || list_has(
            formats,
            "filename",
        ) {
            let ghost before = names@;
            names.push(schema[i].name.clone());
            assert(texts(names@) =~= texts(before).push(schema@[i as int].name@));
        }
        i += 1;
    }
    assert(rules.take(rules.len() as int) =~= rules);
    names
}

/// The names of the slots that take paths, from the text of a schema.
pub fn path_like_slot_names(slot_schema_json: &str) -> (result: Result<
    Vec<String>,
    SlotValidationError,
>)
    ensures
        match result {
            Ok(names) => parsed_schema(slot_schema_json@) is Ok && texts(names@) == path_slots(
                parsed_schema(slot_schema_json@)->Ok_0,
            ),
            Err(error) => parsed_schema(slot_schema_json@) == Err::<Seq<RuleModel>, SlotFault>(
                error@,
            ),
        },
{
    match parse_schema(slot_schema_json) {
        Ok(schema) => Ok(path_slot_names(&schema)),
        Err(error) => Err(error),
    }
}

// ---------------------------------------------------------------------------
// Laws
// ---------------------------------------------------------------------------

proof fn lemma_schema_names_differ(rules: Seq<RuleModel>, from: nat, i: int, j: int)
    requires
        schema_fault(rules, from) is None,
        from <= j,
        0 <= i < j < rules.len(),
    ensures
        rules[i].name != rules[j].name,
    decreases j - from,
{
    if from < j {
        lemma_schema_names_differ(rules, from + 1, i, j);
    }
}

proof fn lemma_rule_named(rules: Seq<RuleModel>, i: int)
    requires
        schema_fault(rules, 0) is None,
        0 <= i < rules.len(),
    ensures
        rule_named(rules, rules[i].name) == rules[i],
        rule_names(rules).contains(rules[i].name),
{
    let name = rules[i].name;
    lemma_rule_names(rules, name);
    let k = choose|k: int| 0 <= k < rules.len() && #[trigger] rules[k].name == name;
    if k < i {
        lemma_schema_names_differ(rules, 0, k, i);
    } else if i < k {
        lemma_schema_names_differ(rules, 0, i, k);
    }
}

/// A slot is bound only to a value that its own rule accepts: the text that the rule
/// makes of the raw value, within the byte limit, and in one of the allowed formats
/// where the rule names any.
pub proof fn law_bound_values_pass_their_rules(
    rules: Seq<RuleModel>,
    raw: Map<Seq<char>, Json>,
    i: int,
)
    requires
        binding(rules, raw) is Ok,
        0 <= i < rules.len(),
        binding(rules, raw)->Ok_0.contains_key(rules[i].name),
    ensures
        ({
            let value = binding(rules, raw)->Ok_0[rules[i].name];
            &&& raw.contains_key(rules[i].name)
            &&& canonical_value(rules[i], raw[rules[i].name]) == Ok::<Seq<char>, SlotFault>(value)
            &&& byte_len(value) <= byte_limit(rules[i])
            &&& rules[i].allowed_formats.len() > 0 ==> some_format_accepts(
                rules[i].allowed_formats,
                value,
            )
        }),
{
    lemma_rule_named(rules, i);
    assert(!refused_slots(rules, raw).contains(rules[i].name));
}

/// What is bound is what was supplied: every raw slot is bound, each of them was
/// declared by a rule, and nothing else is bound.
pub proof fn law_binding_keeps_to_declared_slots(rules: Seq<RuleModel>, raw: Map<Seq<char>, Json>)
    requires
        binding(rules, raw) is Ok,
    ensures
        binding(rules, raw)->Ok_0.dom() == raw.dom(),
        raw.dom().subset_of(rule_names(rules)),
{
    assert forall|name: Seq<char>| raw.dom().contains(name) implies rule_names(rules).contains(
        name,
    ) by {
        assert(!unknown_slots(rules, raw).contains(name));
    }
    assert(binding(rules, raw)->Ok_0.dom() =~= raw.dom());
}

/// Raw slots with a name that no rule declares are refused.
pub proof fn law_unknown_slots_are_refused(
    rules: Seq<RuleModel>,
    raw: Map<Seq<char>, Json>,
    name: Seq<char>,
)
    requires
        raw.contains_key(name),
        !rule_names(rules).contains(name),
    ensures
        binding(rules, raw) is Err,
{
    assert(unknown_slots(rules, raw).contains(name));
}

/// A required slot is bound whenever anything is.
pub proof fn law_required_slots_are_bound(
    rules: Seq<RuleModel>,
    raw: Map<Seq<char>, Json>,
    i: int,
)
    requires
        binding(rules, raw) is Ok,
        0 <= i < rules.len(),
        rules[i].required,
    ensures
        binding(rules, raw)->Ok_0.contains_key(rules[i].name),
{
    lemma_rule_named(rules, i);
    assert(!refused_slots(rules, raw).contains(rules[i].name));
}

/// A template that was disabled or revoked binds nothing, whatever its schema and the
/// raw slots are.
pub proof fn law_withdrawn_templates_never_bind(
    trust_state: Seq<char>,
    schema: Seq<char>,
    raw: Seq<char>,
)
    requires
        is_withdrawn(trust_state),
    ensures
        template_binding(trust_state, schema, raw) == Err::<Map<Seq<char>, Seq<char>>, SlotFault>(
            SlotFault::TemplateRevoked(trust_state),
        ),
{
}

/// A slot that takes integers is bound to the decimal notation of an integer that is
/// within the bounds of its rule, and reading that notation gives the integer back.
pub proof fn law_integer_slots_stay_in_bounds(
    rules: Seq<RuleModel>,
    raw: Map<Seq<char>, Json>,
    i: int,
)
    requires
        binding(rules, raw) is Ok,
        0 <= i < rules.len(),
        takes_integers(rules[i]),
        binding(rules, raw)->Ok_0.contains_key(rules[i].name),
    ensures
        ({
            let value = parsed_i64(binding(rules, raw)->Ok_0[rules[i].name]);
            &&& value is Some
            &&& value == slot_integer(raw[rules[i].name])
            &&& rules[i].min_value is Some ==> rules[i].min_value->0 <= value->0
            &&& rules[i].max_value is Some ==> value->0 <= rules[i].max_value->0
        }),
{
    law_bound_values_pass_their_rules(rules, raw, i);
    law_integer_text_reads_back(slot_integer(raw[rules[i].name])->0);
}

/// A slot whose only format is `relative_path` is bound to no path that begins at a
/// root, and to none in which `..` occurs.
pub proof fn law_relative_path_slots_never_climb(
    rules: Seq<RuleModel>,
    raw: Map<Seq<char>, Json>,
    i: int,
)
    requires
        binding(rules, raw) is Ok,
        0 <= i < rules.len(),
        rules[i].allowed_formats == seq!["relative_path"@],
        binding(rules, raw)->Ok_0.contains_key(rules[i].name),
    ensures
        relative_path_format(binding(rules, raw)->Ok_0[rules[i].name]),
{
    law_bound_values_pass_their_rules(rules, raw, i);
    reveal_strlit("ascii");
    reveal_strlit("no_nul");
    reveal_strlit("relative_path");
    let value = binding(rules, raw)->Ok_0[rules[i].name];
    assert(rules[i].allowed_formats.len() == 1);
    let k = choose|k: int|
        0 <= k < rules[i].allowed_formats.len() && format_accepts(
            #[trigger] rules[i].allowed_formats[k],
            value,
        );
    assert(rules[i].allowed_formats[k] == "relative_path"@);
    assert("relative_path"@.len() == 13);
    assert("ascii"@.len() == 5);
    assert("no_nul"@.len() == 6);
}

/// A template makes one argument of each of its tokens: a token without a placeholder
/// stays as it is, and a placeholder becomes the whole value of its slot, which is
/// neither split nor interpreted.
pub proof fn law_template_tokens_stay_apart(
    tokens: Seq<Seq<char>>,
    bound: Map<Seq<char>, Seq<char>>,
    i: int,
)
    requires
        filled_template(tokens, bound) is Ok,
        0 <= i < tokens.len(),
    ensures
        filled_template(tokens, bound)->Ok_0.len() == tokens.len(),
        match placeholder(tokens[i]) {
            Some(slot) => bound.contains_key(slot) && filled_template(tokens, bound)->Ok_0[i]
                == bound[slot],
            None => filled_template(tokens, bound)->Ok_0[i] == tokens[i],
        },
{
    lemma_bound_placeholder(tokens, bound, i);
}

proof fn lemma_bound_placeholder(
    tokens: Seq<Seq<char>>,
    bound: Map<Seq<char>, Seq<char>>,
    i: int,
)
    requires
        first_unbound(tokens, bound) is None,
        0 <= i < tokens.len(),
    ensures
        placeholder(tokens[i]) is Some ==> bound.contains_key(placeholder(tokens[i])->0),
    decreases i,
{
    if i > 0 {
        lemma_bound_placeholder(tokens.drop_first(), bound, i - 1);
    }
}

// ---------------------------------------------------------------------------
// Laws of templates
// ---------------------------------------------------------------------------

/// The state of a template matters only where it is the word for a disabled or a revoked
/// one. In every other state, the ones that templates are stored in among them, the slots
/// bind as they do without a state.
pub proof fn law_only_disabled_and_revoked_templates_are_dead(
    trust_state: Seq<char>,
    schema: Seq<char>,
    raw: Seq<char>,
)
    ensures
        template_binding("DISABLED"@, schema, raw) == Err::<Map<Seq<char>, Seq<char>>, SlotFault>(
            SlotFault::TemplateRevoked("DISABLED"@),
        ),
        template_binding("REVOKED"@, schema, raw) == Err::<Map<Seq<char>, Seq<char>>, SlotFault>(
            SlotFault::TemplateRevoked("REVOKED"@),
        ),
        trust_state != "DISABLED"@ && trust_state != "REVOKED"@ ==> template_binding(
            trust_state,
            schema,
            raw,
        ) == text_binding(schema, raw),
        template_binding("STATIC_VERIFIED"@, schema, raw) == text_binding(schema, raw),
        template_binding("UNVERIFIED"@, schema, raw) == text_binding(schema, raw),
        template_binding("USER_CONFIRMED"@, schema, raw) == text_binding(schema, raw),
        template_binding("PROMOTED_FASTPATH"@, schema, raw) == text_binding(schema, raw),
{
    lemma_living_states();
}

/// The states of templates that may run are not the ones of templates that may not.
pub proof fn lemma_living_states()
    ensures
        !is_withdrawn("STATIC_VERIFIED"@),
        !is_withdrawn("UNVERIFIED"@),
        !is_withdrawn("USER_CONFIRMED"@),
        !is_withdrawn("PROMOTED_FASTPATH"@),
{
    reveal_strlit("DISABLED");
    reveal_strlit("REVOKED");
    reveal_strlit("STATIC_VERIFIED");
    reveal_strlit("UNVERIFIED");
    reveal_strlit("USER_CONFIRMED");
    reveal_strlit("PROMOTED_FASTPATH");
    assert("DISABLED"@.len() == 8 && "REVOKED"@.len() == 7);
    assert("STATIC_VERIFIED"@.len() == 15 && "UNVERIFIED"@.len() == 10);
    assert("USER_CONFIRMED"@.len() == 14 && "PROMOTED_FASTPATH"@.len() == 17);
}

/// A template is filled where each of its tokens is: a dollar sign with something behind it
/// stands for the value of that slot, and every other token stands for itself.
pub proof fn law_dollar_signs_stand_for_slots(
    tokens: Seq<Seq<char>>,
    bound: Map<Seq<char>, Seq<char>>,
    argv: Seq<Seq<char>>,
)
    ensures
        filled_template(tokens, bound) == Ok::<Seq<Seq<char>>, SlotFault>(argv) <==> {
            &&& argv.len() == tokens.len()
            &&& forall|i: int|
                0 <= i < tokens.len() ==> if (#[trigger] tokens[i]).len() > 1 && tokens[i][0] == '$' {
                    &&& bound.contains_key(tokens[i].subrange(1, tokens[i].len() as int))
                    &&& argv[i] == bound[tokens[i].subrange(1, tokens[i].len() as int)]
                } else {
                    argv[i] == tokens[i]
                }
        },
{
    assert forall|i: int| 0 <= i < tokens.len() implies (#[trigger] tokens[i]).len() > 0
        ==> tokens[i].drop_first() =~= tokens[i].subrange(1, tokens[i].len() as int) by {}
    if filled_template(tokens, bound) == Ok::<Seq<Seq<char>>, SlotFault>(argv) {
        assert forall|i: int| 0 <= i < tokens.len() implies if (#[trigger] tokens[i]).len() > 1
            && tokens[i][0] == '$' {
            &&& bound.contains_key(tokens[i].subrange(1, tokens[i].len() as int))
            &&& argv[i] == bound[tokens[i].subrange(1, tokens[i].len() as int)]
        } else {
            argv[i] == tokens[i]
        } by {
            lemma_bound_placeholder(tokens, bound, i);
        }
    }
    if argv.len() == tokens.len() && forall|i: int|
        0 <= i < tokens.len() ==> if (#[trigger] tokens[i]).len() > 1 && tokens[i][0] == '$' {
            &&& bound.contains_key(tokens[i].subrange(1, tokens[i].len() as int))
            &&& argv[i] == bound[tokens[i].subrange(1, tokens[i].len() as int)]
        } else {
            argv[i] == tokens[i]
        } {
        lemma_all_bound(tokens, bound);
        assert(tokens.map_values(|token: Seq<char>| filled(token, bound)) =~= argv);
    }
}

proof fn lemma_all_bound(tokens: Seq<Seq<char>>, bound: Map<Seq<char>, Seq<char>>)
    requires
        forall|i: int|
            0 <= i < tokens.len() && placeholder(#[trigger] tokens[i]) is Some
                ==> bound.contains_key(placeholder(tokens[i])->0),
    ensures
        first_unbound(tokens, bound) is None,
    decreases tokens.len(),
{
    if tokens.len() > 0 {
        let rest = tokens.drop_first();
        assert(placeholder(tokens[0]) is Some ==> bound.contains_key(placeholder(tokens[0])->0));
        assert forall|i: int|
            0 <= i < rest.len() && placeholder(#[trigger] rest[i]) is Some implies bound.contains_key(
            placeholder(rest[i])->0,
        ) by {
            assert(rest[i] == tokens[i + 1]);
        }
        lemma_all_bound(rest, bound);
    }
}

/// A template with a slot that is not bound is refused for the first such slot, and one
/// that is no list of strings is refused with the message about it.
pub proof fn law_unbound_slots_are_named(
    before: Seq<Seq<char>>,
    slot: Seq<char>,
    after: Seq<Seq<char>>,
    bound: Map<Seq<char>, Seq<char>>,
    template: Seq<char>,
)
    requires
        slot.len() > 0,
        !bound.contains_key(slot),
        filled_template(before, bound) is Ok,
    ensures
        filled_template(before + seq![seq!['$'] + slot] + after, bound) == Err::<
            Seq<Seq<char>>,
            SlotFault,
        >(SlotFault::UnboundPlaceholder(slot)),
        match json_strings(template) {
            Ok(tokens) => compiled_argv(template, bound) == filled_template(tokens, bound),
            Err(message) => compiled_argv(template, bound) == Err::<Seq<Seq<char>>, SlotFault>(
                SlotFault::InvalidTemplateJson(message),
            ),
        },
    decreases before.len(),
{
    let tokens = before + seq![seq!['$'] + slot] + after;
    if before.len() == 0 {
        assert(tokens[0] == seq!['$'] + slot);
        assert((seq!['$'] + slot).drop_first() =~= slot);
    } else {
        let rest = before.drop_first();
        assert(tokens[0] == before[0]);
        assert(tokens.drop_first() =~= rest + seq![seq!['$'] + slot] + after);
        law_unbound_slots_are_named(rest, slot, after, bound, template);
    }
}

/// The slots that take paths are those whose rule allows a relative path, a path or a file
/// name, in the order of the rules.
pub proof fn law_slots_with_path_formats_take_paths(rules: Seq<RuleModel>, rule: RuleModel)
    ensures
        path_slots(Seq::empty()) == Seq::<Seq<char>>::empty(),
        rule.allowed_formats.contains("relative_path"@) || rule.allowed_formats.contains("path"@)
            || rule.allowed_formats.contains("filename"@) ==> path_slots(rules.push(rule))
            == path_slots(rules).push(rule.name),
        !rule.allowed_formats.contains("relative_path"@) && !rule.allowed_formats.contains("path"@)
            && !rule.allowed_formats.contains("filename"@) ==> path_slots(rules.push(rule))
            == path_slots(rules),
{
    assert(rules.push(rule).drop_last() =~= rules);
    assert(rules.push(rule).last() == rule);
}

// ---------------------------------------------------------------------------
// Laws of schemas
// ---------------------------------------------------------------------------

/// A member stands for a size that may be left out.
pub open spec fn stands_for_size(found: Option<Json>, size: Option<usize>) -> bool {
    match size {
        Some(n) => found == Some(Json::Number(JsonNumberModel::PosInt(n as u64))),
        None => found is None || found == Some(Json::Null),
    }
}

/// A member stands for an integer that may be left out.
pub open spec fn stands_for_integer(found: Option<Json>, value: Option<i64>) -> bool {
    match value {
        Some(n) => found == Some(Json::Number(JsonNumberModel::NegInt(n))) || (n >= 0 && found
            == Some(Json::Number(JsonNumberModel::PosInt(n as u64)))),
        None => found is None || found == Some(Json::Null),
    }
}

/// An object writes a rule exactly where its members do: a name, and what else it has of a
/// kind, a demand, a byte limit, bounds and formats. What it leaves out is a string, not
/// demanded, without limit, bounds or formats.
pub proof fn law_objects_write_rules(entries: Seq<(Seq<char>, Json)>, rule: RuleModel)
    ensures
        rule_of(Json::Object(entries)) == Some(rule) <==> {
            &&& field(entries, "name"@) == Some(Json::Text(rule.name))
            &&& match field(entries, "kind"@) {
                None => rule.kind == "string"@,
                Some(json) => json == Json::Text(rule.kind),
            }
            &&& match field(entries, "required"@) {
                None => !rule.required,
                Some(json) => json == Json::Bool(rule.required),
            }
            &&& stands_for_size(field(entries, "max_bytes"@), rule.max_bytes)
            &&& stands_for_integer(field(entries, "min_value"@), rule.min_value)
            &&& stands_for_integer(field(entries, "max_value"@), rule.max_value)
            &&& match field(entries, "allowed_formats"@) {
                None => rule.allowed_formats == Seq::<Seq<char>>::empty(),
                Some(json) => json == Json::Array(
                    rule.allowed_formats.map_values(|text: Seq<char>| Json::Text(text)),
                ),
            }
        },
{
    if let Some(json) = field(entries, "allowed_formats"@) {
        law_values_are_read_by_their_kind(json, rule.name, true, 0, rule.allowed_formats);
    }
}

/// An array writes the rule that an object with its items under the names of the members
/// writes, and none where it has more items than there are members. Nothing else writes a
/// rule.
pub proof fn law_arrays_write_rules_by_position(items: Seq<Json>, json: Json)
    ensures
        items.len() > 7 ==> rule_of(Json::Array(items)) is None,
        items.len() <= 7 ==> rule_of(Json::Array(items)) == rule_of(
            Json::Object(
                Seq::new(
                    items.len(),
                    |i: int|
                        (
                            seq![
                                "name"@,
                                "kind"@,
                                "required"@,
                                "max_bytes"@,
                                "min_value"@,
                                "max_value"@,
                                "allowed_formats"@,
                            ][i],
                            items[i],
                        ),
                ),
            ),
        ),
        !(json is Object) && !(json is Array) ==> rule_of(json) is None,
{
    if items.len() <= 7 {
        let keys = seq![
            "name"@,
            "kind"@,
            "required"@,
            "max_bytes"@,
            "min_value"@,
            "max_value"@,
            "allowed_formats"@,
        ];
        let entries = Seq::new(items.len(), |i: int| (keys[i], items[i]));
        lemma_rule_keys_differ();
        lemma_field_at(entries, keys, items, 0);
        lemma_field_at(entries, keys, items, 1);
        lemma_field_at(entries, keys, items, 2);
        lemma_field_at(entries, keys, items, 3);
        lemma_field_at(entries, keys, items, 4);
        lemma_field_at(entries, keys, items, 5);
        lemma_field_at(entries, keys, items, 6);
    }
}

proof fn lemma_rule_keys_differ()
    ensures
        seq![
            "name"@,
            "kind"@,
            "required"@,
            "max_bytes"@,
            "min_value"@,
            "max_value"@,
            "allowed_formats"@,
        ].no_duplicates(),
{
    reveal_strlit("name");
    reveal_strlit("kind");
    reveal_strlit("required");
    reveal_strlit("max_bytes");
    reveal_strlit("min_value");
    reveal_strlit("max_value");
    reveal_strlit("allowed_formats");
    assert("name"@.len() == 4 && "kind"@.len() == 4 && "required"@.len() == 8);
    assert("name"@[0] == 'n' && "kind"@[0] == 'k');
    assert("max_bytes"@.len() == 9 && "min_value"@.len() == 9 && "max_value"@.len() == 9);
    assert("max_bytes"@[4] == 'b' && "min_value"@[4] == 'v' && "max_value"@[4] == 'v');
    assert("min_value"@[1] == 'i' && "max_value"@[1] == 'a');
    assert("allowed_formats"@.len() == 15);
}

proof fn lemma_field_at(
    entries: Seq<(Seq<char>, Json)>,
    keys: Seq<Seq<char>>,
    items: Seq<Json>,
    i: int,
)
    requires
        keys.no_duplicates(),
        0 <= i < keys.len(),
        items.len() <= keys.len(),
        entries == Seq::new(items.len(), |i: int| (keys[i], items[i])),
    ensures
        field(entries, keys[i]) == if i < items.len() {
            Some(items[i])
        } else {
            None
        },
{
    if i < items.len() {
        let before = entries.take(i);
        assert forall|j: int| 0 <= j < before.len() implies (#[trigger] before[j]).0 != keys[i] by {
            assert(before[j] == (keys[j], items[j]));
        }
        law_members_are_found_by_their_key(before, keys[i], items[i], entries.skip(i + 1));
        assert(entries =~= before + seq![(keys[i], items[i])] + entries.skip(i + 1));
    } else {
        assert forall|j: int| 0 <= j < entries.len() implies (#[trigger] entries[j]).0 != keys[i] by {
            assert(entries[j] == (keys[j], items[j]));
        }
        law_members_are_found_by_their_key(entries, keys[i], Json::Null, Seq::empty());
    }
}

/// A schema is a list of rules, or an object with the list under `slots`, and has the rules
/// of the list in their order.
pub proof fn law_schemas_are_lists_of_rules(
    items: Seq<Json>,
    entries: Seq<(Seq<char>, Json)>,
    json: Json,
    rules: Seq<RuleModel>,
)
    ensures
        schema_of(Json::Array(items)) == Some(rules) <==> {
            &&& rules.len() == items.len()
            &&& forall|i: int| 0 <= i < items.len() ==> rule_of(#[trigger] items[i]) == Some(rules[i])
        },
        match field(entries, "slots"@) {
            Some(Json::Array(list)) => schema_of(Json::Object(entries)) == schema_of(
                Json::Array(list),
            ),
            _ => schema_of(Json::Object(entries)) is None,
        },
        !(json is Array) && !(json is Object) ==> schema_of(json) is None,
{
    if rules.len() == items.len() && forall|i: int|
        0 <= i < items.len() ==> rule_of(#[trigger] items[i]) == Some(rules[i]) {
        assert(items.map_values(|item: Json| rule_of(item)->0) =~= rules);
    }
}

/// A schema text has the rules that its JSON writes, unless a member that is taken up once
/// stands twice: `slots` in the object around the list, or a member of a rule in one.
pub proof fn law_schema_texts_are_read_once(text: Seq<char>, key: Seq<char>)
    ensures
        match json_text(text) {
            Err(message) => parsed_schema(text) == Err::<Seq<RuleModel>, SlotFault>(
                SlotFault::InvalidSchemaJson(message),
            ),
            Ok(json) => if schema_of(json) is Some && !schema_repeats(text) {
                parsed_schema(text) == Ok::<Seq<RuleModel>, SlotFault>(schema_of(json)->0)
            } else {
                parsed_schema(text) is Err
            },
        },
        rule_repeats(text) && behind_mark(text, '{') is Some ==> exists|key: Seq<char>|
            #![trigger is_repeated(members_of(behind_mark(text, '{')->0), key)]
            is_repeated(members_of(behind_mark(text, '{')->0), key) && seq![
                "name"@,
                "kind"@,
                "required"@,
                "max_bytes"@,
                "min_value"@,
                "max_value"@,
                "allowed_formats"@,
            ].contains(key),
        behind_mark(text, '{') is Some && is_repeated(members_of(behind_mark(text, '{')->0), key)
            && seq![
            "name"@,
            "kind"@,
            "required"@,
            "max_bytes"@,
            "min_value"@,
            "max_value"@,
            "allowed_formats"@,
        ].contains(key) ==> rule_repeats(text),
        behind_mark(text, '{') is Some && is_repeated(
            members_of(behind_mark(text, '{')->0),
            "slots"@,
        ) ==> schema_repeats(text),
{
    let keys = seq![
        "name"@,
        "kind"@,
        "required"@,
        "max_bytes"@,
        "min_value"@,
        "max_value"@,
        "allowed_formats"@,
    ];
    assert(keys[0] == "name"@ && keys[1] == "kind"@ && keys[2] == "required"@);
    assert(keys[3] == "max_bytes"@ && keys[4] == "min_value"@ && keys[5] == "max_value"@);
    assert(keys[6] == "allowed_formats"@);
    assert(keys.contains("name"@) && keys.contains("kind"@) && keys.contains("required"@));
    assert(keys.contains("max_bytes"@) && keys.contains("min_value"@));
    assert(keys.contains("max_value"@) && keys.contains("allowed_formats"@));
}

/// What is wrong with a rule, in the order in which it is looked for: a blank name, a kind
/// that is neither a string nor an integer, a limit of no bytes, bounds the wrong way
/// round, a format that is not supported.
pub proof fn law_wrong_rules_have_their_reason(rule: RuleModel, k: int)
    ensures
        is_blank(rule.name) ==> rule_reason(rule) == Some("slot name must not be empty"@),
        !is_blank(rule.name) && rule.kind != "string"@ && rule.kind != "integer"@ ==> rule_reason(
            rule,
        ) == Some("unsupported slot kind "@ + rule.kind),
        !is_blank(rule.name) && (rule.kind == "string"@ || rule.kind == "integer"@) ==> {
            &&& rule.max_bytes == Some(0usize) ==> rule_reason(rule) == Some(
                "max_bytes must be greater than zero"@,
            )
            &&& rule.max_bytes != Some(0usize) ==> {
                &&& rule.min_value is Some && rule.max_value is Some && rule.min_value->0
                    > rule.max_value->0 ==> rule_reason(rule) == Some(
                    "min_value must be less than or equal to max_value"@,
                )
                &&& !(rule.min_value is Some && rule.max_value is Some && rule.min_value->0
                    > rule.max_value->0) ==> {
                    &&& (forall|i: int|
                        0 <= i < rule.allowed_formats.len() ==> supported_format(
                            #[trigger] rule.allowed_formats[i],
                        )) ==> rule_reason(rule) is None
                    &&& 0 <= k < rule.allowed_formats.len() && !supported_format(
                        rule.allowed_formats[k],
                    ) && (forall|i: int|
                        0 <= i < k ==> supported_format(#[trigger] rule.allowed_formats[i]))
                        ==> rule_reason(rule) == Some(
                        "unsupported allowed format "@ + rule.allowed_formats[k],
                    )
                }
            }
        },
{
    if forall|i: int|
        0 <= i < rule.allowed_formats.len() ==> supported_format(
            #[trigger] rule.allowed_formats[i],
        ) {
        lemma_all_supported(rule.allowed_formats);
    }
    if 0 <= k < rule.allowed_formats.len() && !supported_format(rule.allowed_formats[k]) && (forall|
        i: int,
    |
        0 <= i < k ==> supported_format(#[trigger] rule.allowed_formats[i])) {
        lemma_first_unsupported(rule.allowed_formats, k);
    }
}

proof fn lemma_all_supported(formats: Seq<Seq<char>>)
    requires
        forall|i: int| 0 <= i < formats.len() ==> supported_format(#[trigger] formats[i]),
    ensures
        first_unsupported(formats) is None,
    decreases formats.len(),
{
    if formats.len() > 0 {
        let rest = formats.drop_first();
        assert(supported_format(formats[0]));
        assert forall|i: int| 0 <= i < rest.len() implies supported_format(#[trigger] rest[i]) by {
            assert(rest[i] == formats[i + 1]);
        }
        lemma_all_supported(rest);
    }
}

proof fn lemma_first_unsupported(formats: Seq<Seq<char>>, k: int)
    requires
        0 <= k < formats.len(),
        !supported_format(formats[k]),
        forall|i: int| 0 <= i < k ==> supported_format(#[trigger] formats[i]),
    ensures
        first_unsupported(formats) == Some(formats[k]),
    decreases k,
{
    if k > 0 {
        let rest = formats.drop_first();
        assert(supported_format(formats[0]));
        assert forall|i: int| 0 <= i < k - 1 implies supported_format(#[trigger] rest[i]) by {
            assert(rest[i] == formats[i + 1]);
        }
        lemma_first_unsupported(rest, k - 1);
    }
}

/// The first rules of a schema are right in themselves and have different names.
pub open spec fn are_right(rules: Seq<RuleModel>, count: int) -> bool {
    &&& forall|i: int| 0 <= i < count ==> rule_reason(#[trigger] rules[i]) is None
    &&& forall|i: int, j: int|
        0 <= i < j < count ==> (#[trigger] rules[i]).name != (#[trigger] rules[j]).name
}

proof fn lemma_schema_fault_from(rules: Seq<RuleModel>, count: nat, from: nat)
    requires
        from <= count <= rules.len(),
        are_right(rules, count as int),
    ensures
        schema_fault(rules, from) == schema_fault(rules, count),
    decreases count - from,
{
    if from < count {
        let rule = rules[from as int];
        assert(rule_reason(rule) is None);
        assert(!(exists|j: int| 0 <= j < from && #[trigger] rules[j].name == rule.name));
        lemma_schema_fault_from(rules, count, from + 1);
    }
}

/// A schema is right where each of its rules is and no two have one name. The first rule
/// that is wrong in itself is reported with its position and its reason, and the first that
/// has the name of an earlier one with that name.
pub proof fn law_schemas_are_right_rule_by_rule(rules: Seq<RuleModel>, k: int)
    ensures
        schema_fault(rules, 0) is None <==> are_right(rules, rules.len() as int),
        0 <= k < rules.len() && are_right(rules, k) && rule_reason(rules[k]) is Some ==> schema_fault(
            rules,
            0,
        ) == Some(
            SlotFault::InvalidSlotDefinition { index: k as nat, reason: rule_reason(rules[k])->0 },
        ),
        0 <= k < rules.len() && are_right(rules, k) && rule_reason(rules[k]) is None && (exists|
            j: int,
        |
            0 <= j < k && (#[trigger] rules[j]).name == rules[k].name) ==> schema_fault(rules, 0)
            == Some(SlotFault::DuplicateSlot(rules[k].name)),
{
    if are_right(rules, rules.len() as int) {
        lemma_schema_fault_from(rules, rules.len(), 0);
    }
    if 0 <= k < rules.len() && are_right(rules, k) {
        lemma_schema_fault_from(rules, k as nat, 0);
    }
    if schema_fault(rules, 0) is None {
        assert forall|i: int| 0 <= i < rules.len() implies rule_reason(#[trigger] rules[i]) is None by {
            lemma_no_reason(rules, 0, i);
        }
        assert forall|i: int, j: int| 0 <= i < j < rules.len() implies (#[trigger] rules[i]).name
            != (#[trigger] rules[j]).name by {
            lemma_schema_names_differ(rules, 0, i, j);
        }
    }
}

proof fn lemma_no_reason(rules: Seq<RuleModel>, from: nat, i: int)
    requires
        schema_fault(rules, from) is None,
        from <= i < rules.len(),
    ensures
        rule_reason(rules[i]) is None,
    decreases rules.len() - from,
{
    if from < i {
        lemma_no_reason(rules, from + 1, i);
    }
}

// ---------------------------------------------------------------------------
// Laws of binding
// ---------------------------------------------------------------------------

/// A slot of strings is bound to the string itself, where it has no more bytes than the
/// limit, which is 512 where the rule gives none, and one of the formats where the rule
/// names any. Anything but a string is refused.
pub proof fn law_strings_are_bound_as_they_are(rule: RuleModel, value: Json, text: Seq<char>)
    requires
        rule.kind != "integer"@,
        !rule.allowed_formats.contains("integer"@),
    ensures
        !(value is Text) ==> checked_value(rule, value) == Err::<Seq<char>, SlotFault>(
            SlotFault::NonStringSlot { slot: rule.name },
        ),
        ({
            let limit = if rule.max_bytes is Some {
                rule.max_bytes->0
            } else {
                512usize
            };
            checked_value(rule, Json::Text(text)) == if byte_len(text) > limit {
                Err::<Seq<char>, SlotFault>(
                    SlotFault::SlotTooLong {
                        slot: rule.name,
                        max_bytes: limit,
                        actual_bytes: byte_len(text),
                    },
                )
            } else if rule.allowed_formats.len() == 0 || (exists|i: int|
                0 <= i < rule.allowed_formats.len() && format_accepts(
                    #[trigger] rule.allowed_formats[i],
                    text,
                )) {
                Ok(text)
            } else {
                Err(SlotFault::FormatRejected { slot: rule.name })
            }
        }),
{
}

/// A slot of integers is bound to the decimal notation of an integer, which is given as a
/// number or as a string that writes one, where it lies within the bounds and its notation
/// within the byte limit and the formats.
pub proof fn law_integers_are_bound_in_decimal(rule: RuleModel, value: Json, n: i64)
    requires
        rule.kind == "integer"@ || rule.allowed_formats.contains("integer"@),
    ensures
        slot_integer(Json::Number(JsonNumberModel::NegInt(n))) == Some(n),
        n >= 0 ==> slot_integer(Json::Number(JsonNumberModel::PosInt(n as u64))) == Some(n),
        slot_integer(Json::Text(int_text(n as int))) == Some(n),
        value is Text ==> slot_integer(value) == parsed_i64(value->Text_0),
        value is Number && value->Number_0 is Float ==> slot_integer(value) is None,
        value is Number && value->Number_0 is PosInt && value->Number_0->PosInt_0 > i64::MAX
            ==> slot_integer(value) is None,
        !(value is Number) && !(value is Text) ==> slot_integer(value) is None,
        slot_integer(value) is None ==> checked_value(rule, value) == Err::<Seq<char>, SlotFault>(
            SlotFault::IntegerExpected { slot: rule.name },
        ),
        slot_integer(value) == Some(n) ==> {
            let limit = if rule.max_bytes is Some {
                rule.max_bytes->0
            } else {
                512usize
            };
            let text = int_text(n as int);
            checked_value(rule, value) == if (rule.min_value is Some && n < rule.min_value->0) || (
            rule.max_value is Some && n > rule.max_value->0) {
                Err::<Seq<char>, SlotFault>(
                    SlotFault::IntegerOutOfBounds { slot: rule.name, value: n },
                )
            } else if byte_len(text) > limit {
                Err(
                    SlotFault::SlotTooLong {
                        slot: rule.name,
                        max_bytes: limit,
                        actual_bytes: byte_len(text),
                    },
                )
            } else if rule.allowed_formats.len() == 0 || (exists|i: int|
                0 <= i < rule.allowed_formats.len() && format_accepts(
                    #[trigger] rule.allowed_formats[i],
                    text,
                )) {
                Ok(text)
            } else {
                Err(SlotFault::FormatRejected { slot: rule.name })
            }
        },
{
    law_integer_text_reads_back(n);
}

/// Raw slots are bound exactly where the schema is right, each of them is declared, each
/// that is demanded is there, and each passes its rule; and then each is bound to what its
/// rule makes of it.
pub proof fn law_slots_are_bound_where_nothing_is_wrong(
    rules: Seq<RuleModel>,
    raw: Map<Seq<char>, Json>,
    bound: Map<Seq<char>, Seq<char>>,
)
    ensures
        binding(rules, raw) == Ok::<Map<Seq<char>, Seq<char>>, SlotFault>(bound) <==> {
            &&& are_right(rules, rules.len() as int)
            &&& bound.dom() == raw.dom()
            &&& forall|name: Seq<char>| #[trigger]
                raw.contains_key(name) ==> exists|i: int|
                    0 <= i < rules.len() && #[trigger] rules[i].name == name
            &&& forall|i: int|
                0 <= i < rules.len() && (#[trigger] rules[i]).required ==> raw.contains_key(
                    rules[i].name,
                )
            &&& forall|i: int|
                0 <= i < rules.len() && raw.contains_key((#[trigger] rules[i]).name)
                    ==> checked_value(rules[i], raw[rules[i].name]) == Ok::<Seq<char>, SlotFault>(
                    bound[rules[i].name],
                )
        },
{
    law_schemas_are_right_rule_by_rule(rules, 0);
    if binding(rules, raw) == Ok::<Map<Seq<char>, Seq<char>>, SlotFault>(bound) {
        law_binding_keeps_to_declared_slots(rules, raw);
        assert forall|name: Seq<char>| #[trigger] raw.contains_key(name) implies exists|i: int|
            0 <= i < rules.len() && #[trigger] rules[i].name == name by {
            assert(rule_names(rules).contains(name));
            lemma_rule_names(rules, name);
        }
        assert forall|i: int| 0 <= i < rules.len() && (#[trigger] rules[i]).required implies raw.contains_key(
            rules[i].name,
        ) by {
            law_required_slots_are_bound(rules, raw, i);
        }
        assert forall|i: int|
            0 <= i < rules.len() && raw.contains_key((#[trigger] rules[i]).name) implies checked_value(
            rules[i],
            raw[rules[i].name],
        ) == Ok::<Seq<char>, SlotFault>(bound[rules[i].name]) by {
            lemma_rule_named(rules, i);
            assert(!refused_slots(rules, raw).contains(rules[i].name));
        }
    }
    if {
        &&& are_right(rules, rules.len() as int)
        &&& bound.dom() == raw.dom()
        &&& forall|name: Seq<char>| #[trigger]
            raw.contains_key(name) ==> exists|i: int|
                0 <= i < rules.len() && #[trigger] rules[i].name == name
        &&& forall|i: int|
            0 <= i < rules.len() && (#[trigger] rules[i]).required ==> raw.contains_key(
                rules[i].name,
            )
        &&& forall|i: int|
            0 <= i < rules.len() && raw.contains_key((#[trigger] rules[i]).name) ==> checked_value(
                rules[i],
                raw[rules[i].name],
            ) == Ok::<Seq<char>, SlotFault>(bound[rules[i].name])
    } {
        assert forall|name: Seq<char>| !unknown_slots(rules, raw).contains(name) by {
            lemma_rule_names(rules, name);
        }
        assert(unknown_slots(rules, raw) =~= Set::empty());
        assert forall|name: Seq<char>| !refused_slots(rules, raw).contains(name) by {
            lemma_rule_names(rules, name);
            if rule_names(rules).contains(name) {
                let i = choose|i: int| 0 <= i < rules.len() && #[trigger] rules[i].name == name;
                lemma_rule_named(rules, i);
            }
        }
        assert(refused_slots(rules, raw) =~= Set::empty());
        assert forall|name: Seq<char>| raw.contains_key(name) implies bound_values(rules, raw)[name]
            == #[trigger] bound[name] by {
            let i = choose|i: int| 0 <= i < rules.len() && #[trigger] rules[i].name == name;
            lemma_rule_named(rules, i);
        }
        assert(bound_values(rules, raw) =~= bound);
    }
}

/// Where the schema is right, the slot that nobody declared and whose name comes first is
/// reported; and where all are declared, the slot whose name comes first among those that
/// are missing or refused, for what is wrong with it.
pub proof fn law_the_first_wrong_slot_is_reported(
    rules: Seq<RuleModel>,
    raw: Map<Seq<char>, Json>,
    name: Seq<char>,
    k: int,
)
    requires
        are_right(rules, rules.len() as int),
    ensures
        raw.contains_key(name) && (forall|i: int|
            0 <= i < rules.len() ==> (#[trigger] rules[i]).name != name) && (
        forall|other: Seq<char>| #[trigger]
            raw.contains_key(other) && other != name && (forall|i: int|
                0 <= i < rules.len() ==> (#[trigger] rules[i]).name != other) ==> text_less(name, other))
            ==> binding(rules, raw) == Err::<Map<Seq<char>, Seq<char>>, SlotFault>(
            SlotFault::UnknownSlot(name),
        ),
        (forall|other: Seq<char>| #[trigger]
            raw.contains_key(other) ==> exists|i: int|
                0 <= i < rules.len() && (#[trigger] rules[i]).name == other) && 0 <= k < rules.len()
            && is_wrong(rules[k], raw) && (forall|i: int|
            0 <= i < rules.len() && i != k && is_wrong(#[trigger] rules[i], raw) ==> text_less(
                rules[k].name,
                rules[i].name,
            )) ==> binding(rules, raw) == Err::<Map<Seq<char>, Seq<char>>, SlotFault>(
            if raw.contains_key(rules[k].name) {
                checked_value(rules[k], raw[rules[k].name])->Err_0
            } else {
                SlotFault::MissingRequiredSlot(rules[k].name)
            },
        ),
{
    law_schemas_are_right_rule_by_rule(rules, 0);
    if raw.contains_key(name) && (forall|i: int| 0 <= i < rules.len() ==> (#[trigger] rules[i]).name != name)
        && (forall|other: Seq<char>| #[trigger]
        raw.contains_key(other) && other != name && (forall|i: int|
            0 <= i < rules.len() ==> (#[trigger] rules[i]).name != other) ==> text_less(name, other)) {
        lemma_rule_names(rules, name);
        let unknown = unknown_slots(rules, raw);
        assert(unknown.contains(name));
        assert forall|other: Seq<char>| #[trigger] unknown.contains(other) implies other == name
            || text_less(name, other) by {
            lemma_rule_names(rules, other);
            assert(raw.contains_key(other));
        }
        lemma_first_of(unknown, name);
    }
    if (forall|other: Seq<char>| #[trigger]
        raw.contains_key(other) ==> exists|i: int|
            0 <= i < rules.len() && (#[trigger] rules[i]).name == other) && 0 <= k < rules.len() && is_wrong(
        rules[k],
        raw,
    ) && (forall|i: int|
        0 <= i < rules.len() && i != k && is_wrong(#[trigger] rules[i], raw) ==> text_less(
            rules[k].name,
            rules[i].name,
        )) {
        assert forall|other: Seq<char>| !unknown_slots(rules, raw).contains(other) by {
            lemma_rule_names(rules, other);
        }
        assert(unknown_slots(rules, raw) =~= Set::empty());
        let refused = refused_slots(rules, raw);
        lemma_rule_named(rules, k);
        assert(refused.contains(rules[k].name));
        assert forall|other: Seq<char>| #[trigger] refused.contains(other) implies other
            == rules[k].name || text_less(rules[k].name, other) by {
            lemma_rule_names(rules, other);
            let i = choose|i: int| 0 <= i < rules.len() && #[trigger] rules[i].name == other;
            lemma_rule_named(rules, i);
            if i != k {
                assert(is_wrong(rules[i], raw));
            }
        }
        lemma_first_of(refused, rules[k].name);
    }
}

/// A declared slot is missing though it is demanded, or has a value that its rule refuses.
pub open spec fn is_wrong(rule: RuleModel, raw: Map<Seq<char>, Json>) -> bool {
    if raw.contains_key(rule.name) {
        checked_value(rule, raw[rule.name]) is Err
    } else {
        rule.required
    }
}

/// The schema is read before the raw slots are, and both before anything is bound.
pub proof fn law_schemas_are_read_before_slots(schema: Seq<char>, raw: Seq<char>)
    ensures
        parsed_schema(schema) is Err ==> text_binding(schema, raw) == Err::<
            Map<Seq<char>, Seq<char>>,
            SlotFault,
        >(parsed_schema(schema)->Err_0),
        parsed_schema(schema) is Ok ==> match json_object(raw) {
            Ok(entries) => text_binding(schema, raw) == binding(
                parsed_schema(schema)->Ok_0,
                entry_map(entries),
            ),
            Err(message) => text_binding(schema, raw) == Err::<Map<Seq<char>, Seq<char>>, SlotFault>(
                SlotFault::InvalidRawSlotJson(message),
            ),
        },
{
}

/// A schema repeats a member where one of its rules does, be they listed at once or under
/// `slots`; a text that is no object and no list repeats none.
pub proof fn law_schemas_repeat_where_a_rule_does(text: Seq<char>, i: int, k: int)
    ensures
        behind_mark(text, '{') is None ==> !rule_repeats(text),
        behind_mark(text, '{') is None && behind_mark(text, '[') is None ==> !schema_repeats(text),
        behind_mark(text, '{') is None && behind_mark(text, '[') is Some ==> (schema_repeats(text)
            <==> exists|j: int|
            0 <= j < items_of(behind_mark(text, '[')->0).len() && rule_repeats(
                #[trigger] items_of(behind_mark(text, '[')->0)[j],
            )),
        behind_mark(text, '{') is Some ==> ({
            let members = members_of(behind_mark(text, '{')->0);
            let list = items_of(behind_mark(members[k].1, '[')->0);
            0 <= k < members.len() && members[k].0 == "slots"@ && behind_mark(members[k].1, '[')
                is Some && 0 <= i < list.len() && rule_repeats(list[i]) ==> schema_repeats(text)
        }),
        behind_mark(text, '{') is Some && schema_repeats(text) ==> ({
            let members = members_of(behind_mark(text, '{')->0);
            is_repeated(members, "slots"@) || exists|j: int|
                0 <= j < members.len() && (#[trigger] members[j]).0 == "slots"@ && behind_mark(
                    members[j].1,
                    '[',
                ) is Some && exists|m: int|
                    0 <= m < items_of(behind_mark(members[j].1, '[')->0).len() && rule_repeats(
                        #[trigger] items_of(behind_mark(members[j].1, '[')->0)[m],
                    )
        }),
{
    if behind_mark(text, '{') is Some {
        let members = members_of(behind_mark(text, '{')->0);
        let list = items_of(behind_mark(members[k].1, '[')->0);
        if 0 <= k < members.len() && members[k].0 == "slots"@ && behind_mark(members[k].1, '[')
            is Some && 0 <= i < list.len() && rule_repeats(list[i]) {
            assert(rules_repeat(members[k].1));
        }
        if schema_repeats(text) && !is_repeated(members, "slots"@) {
            let j = choose|j: int|
                0 <= j < members.len() && (#[trigger] members[j]).0 == "slots"@ && rules_repeat(
                    members[j].1,
                );
            assert(members[j].0 == "slots"@);
            assert(some_rule_repeats(items_of(behind_mark(members[j].1, '[')->0)));
        }
    }
}

/// What is reported of refused slots names the slot or the rule, with the reason.
pub proof fn law_faults_of_slots_are_reported(
    state: Seq<char>,
    message: Seq<char>,
    index: nat,
    reason: Seq<char>,
    slot: Seq<char>,
    max_bytes: usize,
    actual_bytes: usize,
    value: i64,
)
    ensures
        slot_fault_text(SlotFault::TemplateRevoked(state))
            == "template lifecycle state blocks execution: "@ + state,
        slot_fault_text(SlotFault::InvalidSchemaJson(message)) == "slot schema JSON is invalid: "@
            + message,
        slot_fault_text(SlotFault::InvalidRawSlotJson(message)) == "raw slot JSON is invalid: "@
            + message,
        slot_fault_text(SlotFault::InvalidSlotDefinition { index, reason })
            == "slot definition at index "@ + int_text(index as int) + " is invalid: "@ + reason,
        slot_fault_text(SlotFault::DuplicateSlot(slot)) == "duplicate slot schema entry: "@ + slot,
        slot_fault_text(SlotFault::MissingRequiredSlot(slot)) == "required slot is missing: "@
            + slot,
        slot_fault_text(SlotFault::UnknownSlot(slot)) == "unknown untrusted slot was supplied: "@
            + slot,
        slot_fault_text(SlotFault::SlotTooLong { slot, max_bytes, actual_bytes }) == "slot "@
            + slot + " exceeds byte limit "@ + int_text(max_bytes as int) + "; got "@
            + int_text(actual_bytes as int),
        slot_fault_text(SlotFault::FormatRejected { slot }) == "slot "@ + slot
            + " does not match any allowed format"@,
        slot_fault_text(SlotFault::IntegerExpected { slot }) == "slot "@ + slot
            + " must be an integer JSON primitive or integer string"@,
        slot_fault_text(SlotFault::IntegerOutOfBounds { slot, value }) == "slot "@ + slot
            + " integer value "@ + int_text(value as int) + " is outside allowed bounds"@,
        slot_fault_text(SlotFault::NonStringSlot { slot }) == "slot "@ + slot
            + " must be a JSON string"@,
        slot_fault_text(SlotFault::InvalidTemplateJson(message))
            == "template argv JSON is invalid: "@ + message,
        slot_fault_text(SlotFault::UnboundPlaceholder(slot))
            == "template placeholder has no bound slot: "@ + slot,
{
}

}
