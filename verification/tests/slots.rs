use cli_agent::formats::{is_supported_format, value_matches_format};
use cli_agent::json::{JsonNumber, JsonValue};
use cli_agent::storage::{fetch_trusted_template_by_doc_id, TrustedTemplate};
use cli_agent::text_map::TextMap;
use cli_agent::validate::{
    bind_and_validate_slots, bind_raw_map, bind_template_slots, canonicalize_slot_value,
    compile_template_argv, fill_template, parse_raw_slots, parse_schema, path_like_slot_names,
    path_slot_names, read_schema, validate_rule, validate_slots, validate_template_lifecycle,
    BoundSlots, SlotRule, SlotValidationError, DEFAULT_MAX_SLOT_BYTES,
};

const TARGET_FILE_SCHEMA: &str = r#"
    [
      {
        "name": "target_file",
        "kind": "string",
        "required": true,
        "max_bytes": 16,
        "allowed_formats": ["relative_path"]
      }
    ]
    "#;

fn rule(name: &str) -> SlotRule {
    SlotRule {
        name: name.to_owned(),
        kind: "string".to_owned(),
        required: false,
        max_bytes: None,
        min_value: None,
        max_value: None,
        allowed_formats: Vec::new(),
    }
}

fn raw(pairs: &[(&str, &str)]) -> TextMap<JsonValue> {
    let mut map = TextMap::new();
    for (key, value) in pairs {
        map.insert((*key).to_owned(), JsonValue::Text((*value).to_owned()));
    }
    map
}

fn bound(schema: &str, slots: &str) -> BoundSlots {
    bind_and_validate_slots(schema, slots).expect("slots should bind")
}

#[test]
fn rust_slot_binding_rejects_invalid_slot_arguments() {
    let schema = TARGET_FILE_SCHEMA;

    let path_escape = r#"{"target_file":"../secret"}"#;
    let result = bind_and_validate_slots(schema, path_escape);
    assert!(matches!(
        result,
        Err(SlotValidationError::FormatRejected { slot }) if slot == "target_file"
    ));

    let too_long = r#"{"target_file":"src/very_long_name.rs"}"#;
    let result = bind_and_validate_slots(schema, too_long);
    assert!(matches!(
        result,
        Err(SlotValidationError::SlotTooLong { slot, max_bytes: 16, .. }) if slot == "target_file"
    ));

    let valid = bound(schema, r#"{"target_file":"src/main.rs"}"#);
    assert_eq!(valid.get("target_file"), Some("src/main.rs"));
}

#[test]
fn integer_json_primitives_pass_slot_validation() {
    let schema = r#"
    [
      {
        "name": "retry_count",
        "kind": "integer",
        "required": true,
        "min_value": 1,
        "max_value": 5,
        "allowed_formats": ["integer"]
      }
    ]
    "#;

    let valid = bound(schema, r#"{"retry_count":3}"#);
    assert_eq!(valid.get("retry_count"), Some("3"));

    let out_of_bounds = bind_and_validate_slots(schema, r#"{"retry_count":9}"#);
    assert!(matches!(
        out_of_bounds,
        Err(SlotValidationError::IntegerOutOfBounds { slot, value: 9 }) if slot == "retry_count"
    ));
}

#[test]
fn disabled_or_revoked_templates_fail_rust_lifecycle_validation() {
    for (doc_id, state) in [
        ("doc_disabled_template", "DISABLED"),
        ("doc_revoked_template", "REVOKED"),
    ] {
        let row = TrustedTemplate {
            doc_id: doc_id.to_owned(),
            template_argv_json: r#"["git","restore","$target_file"]"#.to_owned(),
            slot_schema_json: r#"[{"name":"target_file","kind":"string","required":true,"max_bytes":64,"allowed_formats":["relative_path"]}]"#.to_owned(),
            policy_rule_id: "policy_git_restore".to_owned(),
            trust_state: state.to_owned(),
        };
        let template = fetch_trusted_template_by_doc_id(doc_id, Ok(row)).expect("a stored row");
        assert_eq!(template.trust_state, state);

        let result = bind_template_slots(
            &template.trust_state,
            &template.slot_schema_json,
            r#"{"target_file":"src/main.rs"}"#,
        );
        assert!(matches!(
            result,
            Err(SlotValidationError::TemplateRevoked(actual)) if actual == state
        ));
    }
}

#[test]
fn living_templates_bind() {
    assert_eq!(validate_template_lifecycle("USER_CONFIRMED"), Ok(()));
    let slots = bind_template_slots("STATIC_VERIFIED", TARGET_FILE_SCHEMA, r#"{"target_file":"a.rs"}"#)
        .expect("a living template");
    assert_eq!(slots.len(), 1);
    assert!(!slots.is_empty());
    let values = slots.into_inner();
    assert_eq!(values.get("target_file"), Some(&"a.rs".to_owned()));
}

#[test]
fn schema_text_can_be_an_array_or_an_object_with_slots() {
    let array = parse_schema(r#"[{"name":"a"}]"#).expect("an array");
    let object = parse_schema(r#"{"slots":[{"name":"a"}],"comment":1}"#).expect("an object");
    assert_eq!(array, object);
    assert_eq!(array[0], rule("a"));
}

#[test]
fn schema_rules_can_be_written_by_position() {
    let rules = parse_schema(r#"[["n","integer",true,9,-3,null,["integer"]]]"#).expect("positions");
    assert_eq!(
        rules,
        vec![SlotRule {
            name: "n".to_owned(),
            kind: "integer".to_owned(),
            required: true,
            max_bytes: Some(9),
            min_value: Some(-3),
            max_value: None,
            allowed_formats: vec!["integer".to_owned()],
        }]
    );
}

#[test]
fn schema_text_with_bad_syntax_or_shape_is_invalid() {
    assert!(matches!(parse_schema("[{"), Err(SlotValidationError::InvalidSchemaJson(_))));
    let shape = Err(SlotValidationError::InvalidSchemaJson(
        "data did not match any variant of untagged enum SlotSchemaRoot".to_owned(),
    ));
    assert_eq!(parse_schema("3"), shape);
    assert_eq!(parse_schema(r#"{"other":[]}"#), shape);
    assert_eq!(parse_schema(r#"[{"kind":"string"}]"#), shape);
    assert_eq!(parse_schema(r#"[{"name":"a","max_bytes":-1}]"#), shape);
    assert_eq!(parse_schema(r#"[{"name":"a","required":null}]"#), shape);
    assert_eq!(parse_schema(r#"[{"name":"a","min_value":1.5}]"#), shape);
    assert_eq!(parse_schema(r#"[["a","string",false,null,null,null,[],1]]"#), shape);
    assert!(read_schema(&JsonValue::Null).is_none());
}

#[test]
fn raw_slots_have_to_be_an_object() {
    assert!(matches!(parse_raw_slots("[]"), Err(SlotValidationError::InvalidRawSlotJson(_))));
    let slots = parse_raw_slots(r#"{"b":1,"a":"x","b":true}"#).expect("an object");
    assert_eq!(slots.len(), 2);
    assert_eq!(slots.get("b"), Some(&JsonValue::Bool(true)));
}

#[test]
fn wrong_rules_are_reported_with_their_place_and_reason() {
    let mut blank = rule(" \t");
    blank.kind = "other".to_owned();
    let mut kind = rule("a");
    kind.kind = "float".to_owned();
    let mut bytes = rule("a");
    bytes.max_bytes = Some(0);
    let mut bounds = rule("a");
    bounds.min_value = Some(2);
    bounds.max_value = Some(1);
    let mut format = rule("a");
    format.allowed_formats = vec!["ascii".to_owned(), "email".to_owned()];
    for (index, (wrong, reason)) in [
        (blank, "slot name must not be empty"),
        (kind, "unsupported slot kind float"),
        (bytes, "max_bytes must be greater than zero"),
        (bounds, "min_value must be less than or equal to max_value"),
        (format, "unsupported allowed format email"),
    ]
    .into_iter()
    .enumerate()
    {
        let error = validate_rule(index, &wrong).expect_err("a wrong rule");
        assert_eq!(
            error,
            SlotValidationError::InvalidSlotDefinition { index, reason: reason.to_owned() }
        );
        assert_eq!(
            error.message(),
            format!("slot definition at index {} is invalid: {}", index, reason)
        );
    }
    assert_eq!(validate_rule(0, &rule("a")), Ok(()));
}

#[test]
fn the_first_fault_of_a_schema_is_reported() {
    let mut wrong = rule("c");
    wrong.max_bytes = Some(0);
    let result = bind_raw_map(vec![rule("a"), rule("a"), wrong], raw(&[("z", "1")]));
    assert_eq!(result, Err(SlotValidationError::DuplicateSlot("a".to_owned())));
}

#[test]
fn unknown_slots_come_before_refused_ones_and_in_order() {
    let mut required = rule("m");
    required.required = true;
    let result = bind_raw_map(vec![required], raw(&[("z", "1"), ("b", "2")]));
    assert_eq!(result, Err(SlotValidationError::UnknownSlot("b".to_owned())));
}

#[test]
fn refused_slots_are_reported_in_the_order_of_their_names() {
    let mut late = rule("z");
    late.required = true;
    let mut early = rule("b");
    early.max_bytes = Some(1);
    let result = bind_raw_map(vec![late, early], raw(&[("b", "two")]));
    assert_eq!(
        result,
        Err(SlotValidationError::SlotTooLong {
            slot: "b".to_owned(),
            max_bytes: 1,
            actual_bytes: 3,
        })
    );
}

#[test]
fn required_slots_have_to_be_there_and_optional_ones_need_not() {
    let mut required = rule("m");
    required.required = true;
    let result = bind_raw_map(vec![required, rule("o")], raw(&[]));
    assert_eq!(result, Err(SlotValidationError::MissingRequiredSlot("m".to_owned())));
    let slots = bind_raw_map(vec![rule("o")], raw(&[])).expect("nothing is required");
    assert!(slots.is_empty());
}

#[test]
fn byte_limits_count_bytes_and_not_characters() {
    let mut short = rule("s");
    short.max_bytes = Some(3);
    let result = bind_raw_map(vec![short], raw(&[("s", "éé")]));
    assert!(matches!(result, Err(SlotValidationError::SlotTooLong { actual_bytes: 4, .. })));

    assert_eq!(DEFAULT_MAX_SLOT_BYTES, 512);
    let fits = "a".repeat(512);
    let over = "a".repeat(513);
    assert!(bind_raw_map(vec![rule("s")], raw(&[("s", &fits)])).is_ok());
    assert!(bind_raw_map(vec![rule("s")], raw(&[("s", &over)])).is_err());
}

#[test]
fn integer_slots_take_numbers_and_their_notation() {
    let mut integer = rule("n");
    integer.kind = "integer".to_owned();
    let text = |s: &str| JsonValue::Text(s.to_owned());
    assert_eq!(canonicalize_slot_value(&integer, &text("+007")), Ok("7".to_owned()));
    assert_eq!(
        canonicalize_slot_value(&integer, &JsonValue::Number(JsonNumber::NegInt(-9))),
        Ok("-9".to_owned())
    );
    let expected = Err(SlotValidationError::IntegerExpected { slot: "n".to_owned() });
    assert_eq!(canonicalize_slot_value(&integer, &text("7.0")), expected);
    assert_eq!(canonicalize_slot_value(&integer, &text("9223372036854775808")), expected);
    assert_eq!(
        canonicalize_slot_value(&integer, &JsonValue::Number(JsonNumber::PosInt(u64::MAX))),
        expected
    );
    assert_eq!(canonicalize_slot_value(&integer, &JsonValue::Bool(true)), expected);
    assert_eq!(
        canonicalize_slot_value(&integer, &text("-9223372036854775808")),
        Ok("-9223372036854775808".to_owned())
    );
    let mut format = rule("n");
    format.allowed_formats = vec!["integer".to_owned()];
    assert_eq!(
        canonicalize_slot_value(&format, &JsonValue::Number(JsonNumber::PosInt(12))),
        Ok("12".to_owned())
    );
}

#[test]
fn string_slots_take_strings_only() {
    let result = canonicalize_slot_value(&rule("s"), &JsonValue::Number(JsonNumber::PosInt(1)));
    assert_eq!(result, Err(SlotValidationError::NonStringSlot { slot: "s".to_owned() }));
}

#[test]
fn formats_accept_what_they_should() {
    let accepted = [
        ("ascii", "plain text"),
        ("no_nul", "é"),
        ("relative_path", "src/main.rs"),
        ("relative_path", "./a\\b"),
        ("path", "/usr/bin:x"),
        ("filename", "main.rs"),
        ("git_ref", "feature/new_thing-2"),
        ("flag", "--dry-run"),
        ("integer", "-12"),
        ("safe_token", "user@host:v1.2"),
    ];
    for (format, value) in accepted {
        assert!(is_supported_format(format));
        assert!(value_matches_format(value, format), "{} {}", format, value);
    }
    let refused = [
        ("ascii", "é"),
        ("no_nul", "a\0b"),
        ("relative_path", ""),
        ("relative_path", "/etc/passwd"),
        ("relative_path", "\\share"),
        ("relative_path", "a/../b"),
        ("relative_path", "a..b"),
        ("relative_path", "a b"),
        ("path", ""),
        ("path", "a b"),
        ("filename", "a/b"),
        ("filename", "a\\b"),
        ("git_ref", "-x"),
        ("git_ref", "/x"),
        ("git_ref", "x/"),
        ("git_ref", "x//y"),
        ("git_ref", "x..y"),
        ("git_ref", "x.lock"),
        ("git_ref", "x@{1}"),
        ("flag", "--"),
        ("flag", "-x"),
        ("flag", "--a=b"),
        ("integer", "1e3"),
        ("integer", "-"),
        ("safe_token", ""),
        ("safe_token", "a/b"),
        ("unknown", "a"),
    ];
    for (format, value) in refused {
        assert!(!value_matches_format(value, format), "{} {:?}", format, value);
    }
    assert!(!is_supported_format("unknown"));
}

#[test]
fn some_format_of_several_is_enough() {
    let schema = r#"[{"name":"x","allowed_formats":["integer_","flag"]}]"#;
    assert!(bind_and_validate_slots(schema, r#"{"x":"--a"}"#).is_err());
    let schema = r#"[{"name":"x","allowed_formats":["filename","flag"]}]"#;
    assert_eq!(bound(schema, r#"{"x":"--a"}"#).get("x"), Some("--a"));
    assert!(matches!(
        bind_and_validate_slots(schema, r#"{"x":"a b"}"#),
        Err(SlotValidationError::FormatRejected { .. })
    ));
}

#[test]
fn templates_are_filled_token_by_token() {
    let slots = bound(TARGET_FILE_SCHEMA, r#"{"target_file":"src/main.rs"}"#);
    let argv = compile_template_argv(r#"["git","restore","$target_file"]"#, &slots).expect("bound");
    assert_eq!(argv, vec!["git".to_owned(), "restore".to_owned(), "src/main.rs".to_owned()]);

    let schema = r#"[{"name":"message"}]"#;
    let slots = bound(schema, r#"{"message":"two words; rm -rf $x"}"#);
    let argv = compile_template_argv(r#"["echo","$message","a$message","$"]"#, &slots).expect("bound");
    assert_eq!(argv, vec!["echo", "two words; rm -rf $x", "a$message", "$"]);
}

#[test]
fn templates_with_unbound_placeholders_are_refused() {
    let slots = bound("[]", "{}");
    let tokens = vec!["git".to_owned(), "$first".to_owned(), "$second".to_owned()];
    let error = fill_template(&tokens, &slots).expect_err("nothing is bound");
    assert_eq!(error, SlotValidationError::UnboundPlaceholder("first".to_owned()));
    assert_eq!(error.message(), "template placeholder has no bound slot: first");
    let error = compile_template_argv(r#"["git",3]"#, &slots).expect_err("a number");
    assert!(matches!(error, SlotValidationError::InvalidTemplateJson(_)));
    assert!(error.message().starts_with("template argv JSON is invalid: "));
}

#[test]
fn path_slots_are_found_by_their_formats() {
    let schema = r#"[
        {"name":"a","allowed_formats":["filename"]},
        {"name":"b","allowed_formats":["flag","integer"]},
        {"name":"c","allowed_formats":["flag","path"]},
        {"name":"d","allowed_formats":["relative_path"]},
        {"name":"e"}
    ]"#;
    assert_eq!(path_like_slot_names(schema), Ok(vec!["a".to_owned(), "c".to_owned(), "d".to_owned()]));
    assert_eq!(path_slot_names(&vec![rule("x")]), Vec::<String>::new());
    assert!(path_like_slot_names("{").is_err());
}

#[test]
fn slot_errors_have_their_messages() {
    let slot = || "s".to_owned();
    for (error, text) in [
        (
            SlotValidationError::TemplateRevoked("REVOKED".to_owned()),
            "template lifecycle state blocks execution: REVOKED",
        ),
        (SlotValidationError::InvalidSchemaJson("x".to_owned()), "slot schema JSON is invalid: x"),
        (SlotValidationError::InvalidRawSlotJson("x".to_owned()), "raw slot JSON is invalid: x"),
        (SlotValidationError::DuplicateSlot(slot()), "duplicate slot schema entry: s"),
        (SlotValidationError::MissingRequiredSlot(slot()), "required slot is missing: s"),
        (SlotValidationError::UnknownSlot(slot()), "unknown untrusted slot was supplied: s"),
        (
            SlotValidationError::SlotTooLong { slot: slot(), max_bytes: 16, actual_bytes: 120 },
            "slot s exceeds byte limit 16; got 120",
        ),
        (
            SlotValidationError::FormatRejected { slot: slot() },
            "slot s does not match any allowed format",
        ),
        (
            SlotValidationError::IntegerExpected { slot: slot() },
            "slot s must be an integer JSON primitive or integer string",
        ),
        (
            SlotValidationError::IntegerOutOfBounds { slot: slot(), value: -4 },
            "slot s integer value -4 is outside allowed bounds",
        ),
        (SlotValidationError::NonStringSlot { slot: slot() }, "slot s must be a JSON string"),
    ] {
        assert_eq!(error.message(), text);
    }
}

#[test]
fn refused_slots_are_reported_against_the_marking() {
    let good = r#"{"target_file":"src/main.rs"}"#;
    let bound = validate_slots("USER_CONFIRMED", TARGET_FILE_SCHEMA, good).expect("slots bind");
    assert_eq!(bound.get("target_file"), Some("src/main.rs"));

    let refuse = |trust_state: &str, slots: &str| {
        validate_slots(trust_state, TARGET_FILE_SCHEMA, slots).expect_err("slots are refused")
    };
    let escape = r#"{"target_file":"../secret"}"#;
    let error = bind_template_slots("USER_CONFIRMED", TARGET_FILE_SCHEMA, escape)
        .expect_err("slots are refused")
        .message();
    assert_eq!(
        refuse("USER_CONFIRMED", escape).settle("r1", Ok(())),
        format!("untrusted slots failed trusted schema validation: {error}")
    );
    assert_eq!(
        refuse("USER_CONFIRMED", escape).settle("r1", Err("disk".to_owned())),
        format!(
            "slot validation failed with {error}; failed to mark request_id=r1 \
             SECURITY_BLOCKED: disk"
        )
    );
    let revoked = validate_template_lifecycle("REVOKED").expect_err("a withdrawn template");
    assert_eq!(
        refuse("REVOKED", good).settle("r1", Ok(())),
        format!("untrusted slots failed trusted schema validation: {}", revoked.message())
    );
}

#[test]
fn members_of_a_schema_stand_in_it_once() {
    let shape = Err(SlotValidationError::InvalidSchemaJson(
        "data did not match any variant of untagged enum SlotSchemaRoot".to_owned(),
    ));
    for schema in [
        r#"[{"name":"a","name":"a"}]"#,
        r#"[{"name":"a"}, {"name":"b","kind":"string" , "kind" : "string"}]"#,
        r#" [ { "required":true,"x":[1,{"y":"]"}],"name":"a","required":true } ] "#,
        r#"[{"n\u0061me":"a","max_bytes":1,"name":"a"}]"#,
        r#"{"slots":[],"slots":[]}"#,
        r#"{"slots":[{"name":"a","allowed_formats":[],"allowed_formats":[]}]}"#,
        "{\n\"slots\" :\t[ {\"name\":\"a\",\"min_value\":1,\"max_value\":2,\"min_value\":1}\r\n]}",
    ] {
        assert_eq!(parse_schema(schema), shape, "{}", schema);
    }
    for schema in [
        r#"[{"name":"a","x":1,"x":2}]"#,
        r#"{"slots":[{"name":"a","note":{"name":1,"name":2}}],"x":{},"x":[]}"#,
        r#"{"x":{"slots":[],"slots":[]},"slots":[{"name":"a"}]}"#,
        r#"[{"name":"a","kind":"string","required":false}]"#,
        r#"[["a"]]"#,
    ] {
        assert_eq!(parse_schema(schema), Ok(vec![rule("a")]), "{}", schema);
    }
    assert_eq!(parse_schema("[]"), Ok(Vec::new()));
    assert_eq!(parse_schema(r#"{"slots":[ ]}"#), Ok(Vec::new()));
}
