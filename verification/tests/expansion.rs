use iced_dev_automation::expansion::{
    conversion, derive_dev_automation, expand, has_automation_attribute, indexed_bindings,
    schema_variant, wire_variant, DeriveInput, Variant, VariantFields,
};

fn variant(name: &str, attributes: &[&str], fields: VariantFields) -> Variant {
    Variant {
        name: name.to_owned(),
        attributes: attributes.iter().map(|path| path.to_string()).collect(),
        fields,
    }
}

fn tuple(types: &[&str]) -> VariantFields {
    VariantFields::Tuple(types.iter().map(|ty| ty.to_string()).collect())
}

fn named(fields: &[(&str, &str)]) -> VariantFields {
    VariantFields::Named(
        fields.iter().map(|(name, ty)| (name.to_string(), ty.to_string())).collect(),
    )
}

#[test]
fn only_the_automation_attribute_counts() {
    assert!(has_automation_attribute(&variant("A", &["automation"], VariantFields::Unit)));
    assert!(has_automation_attribute(&variant("A", &["doc", "automation"], VariantFields::Unit)));
    assert!(!has_automation_attribute(&variant("A", &[], VariantFields::Unit)));
    let others = ["doc", "x :: automation", "r#automation"];
    assert!(!has_automation_attribute(&variant("A", &others, VariantFields::Unit)));
}

#[test]
fn wire_variants_mirror_the_enum() {
    assert_eq!(wire_variant(&variant("Refresh", &[], VariantFields::Unit)), "Refresh");
    assert_eq!(wire_variant(&variant("Open", &[], tuple(&["String"]))), "Open(String)");
    assert_eq!(wire_variant(&variant("Move", &[], tuple(&["u8", "i64"]))), "Move(u8, i64)");
    assert_eq!(wire_variant(&variant("Nothing", &[], tuple(&[]))), "Nothing()");
    assert_eq!(
        wire_variant(&variant("Size", &[], named(&[("width", "u32"), ("height", "u32")]))),
        "Size { width: u32, height: u32 }"
    );
}

#[test]
fn conversions_bind_every_field() {
    assert_eq!(indexed_bindings(2), vec!["field_0".to_owned(), "field_1".to_owned()]);
    assert_eq!(indexed_bindings(12)[11], "field_11");
    assert_eq!(
        conversion(&variant("Refresh", &[], VariantFields::Unit), "Message"),
        "__MessageAutomationRequest::Refresh => Message::Refresh"
    );
    assert_eq!(
        conversion(&variant("Move", &[], tuple(&["u8", "i64"])), "Message"),
        "__MessageAutomationRequest::Move(field_0, field_1) => Message::Move(field_0, field_1)"
    );
    assert_eq!(
        conversion(&variant("Size", &[], named(&[("w", "u32"), ("h", "u32")])), "r#type"),
        "__typeAutomationRequest::Size { w, h } => r#type::Size { w, h }"
    );
}

#[test]
fn schemas_name_the_shape_and_the_types() {
    assert_eq!(
        schema_variant(&variant("Refresh", &[], VariantFields::Unit)),
        "::iced_dev_automation::serde_json::json!({\"variant\": \"Refresh\", \"shape\": \"unit\"})"
    );
    assert_eq!(
        schema_variant(&variant("Open", &[], tuple(&["String"]))),
        "::iced_dev_automation::serde_json::json!({\"variant\": \"Open\", \"shape\": \"newtype\", \
         \"type\": \"String\"})"
    );
    assert_eq!(
        schema_variant(&variant("Move", &[], tuple(&["u8", "[u8 ; b\"\\\"\"]"]))),
        "::iced_dev_automation::serde_json::json!({\"variant\": \"Move\", \"shape\": \"tuple\", \
         \"fields\": [::iced_dev_automation::serde_json::json!({\"index\": 0usize, \"type\": \
         \"u8\"}), ::iced_dev_automation::serde_json::json!({\"index\": 1usize, \"type\": \
         \"[u8 ; b\\\"\\\\\\\"\\\"]\"})]})"
    );
    assert_eq!(
        schema_variant(&variant("Nothing", &[], tuple(&[]))),
        "::iced_dev_automation::serde_json::json!({\"variant\": \"Nothing\", \"shape\": \
         \"tuple\", \"fields\": []})"
    );
    assert_eq!(
        schema_variant(&variant("Size", &[], named(&[("width", "u32")]))),
        "::iced_dev_automation::serde_json::json!({\"variant\": \"Size\", \"shape\": \"struct\", \
         \"fields\": [::iced_dev_automation::serde_json::json!({\"name\": \"width\", \"type\": \
         \"u32\"})]})"
    );
}

const CODE: &str = "#[allow(non_camel_case_types)] \
    #[derive(::iced_dev_automation::serde::Deserialize)] \
    #[serde(crate = \"::iced_dev_automation::serde\", tag = \"variant\", content = \"value\", \
    deny_unknown_fields)] enum __MessageAutomationRequest { Refresh, Open(String) } \
    impl ::iced_dev_automation::DevAutomation for Message { \
    fn from_automation_value(value: ::iced_dev_automation::serde_json::Value) -> \
    ::std::result::Result<Self, ::iced_dev_automation::serde_json::Error> { \
    let request: __MessageAutomationRequest = \
    ::iced_dev_automation::serde_json::from_value(value)?; Ok(match request { \
    __MessageAutomationRequest::Refresh => Message::Refresh, \
    __MessageAutomationRequest::Open(field_0) => Message::Open(field_0) }) } \
    fn automation_schema() -> ::iced_dev_automation::serde_json::Value { \
    ::iced_dev_automation::serde_json::json!({ \"protocol\": \"iced-dev-automation\", \
    \"version\": 1, \"tag\": \"variant\", \"content\": \"value\", \
    \"message\": ::std::stringify!(Message), \"variants\": [\
    ::iced_dev_automation::serde_json::json!({\"variant\": \"Refresh\", \"shape\": \"unit\"}), \
    ::iced_dev_automation::serde_json::json!({\"variant\": \"Open\", \"shape\": \"newtype\", \
    \"type\": \"String\"})], }) } }";

#[test]
fn code_is_generated_for_the_annotated_variants() {
    let input = DeriveInput {
        name: "Message".to_owned(),
        parameters: 0,
        variants: Some(vec![
            variant("Refresh", &["automation"], VariantFields::Unit),
            variant("Done", &[], tuple(&["Result < () , String >"])),
            variant("Open", &["automation"], tuple(&["String"])),
        ]),
    };
    assert_eq!(expand(&input), Ok(CODE.to_owned()));

    let source = "#[derive(Debug)] enum Message { #[automation] Refresh, \
                  Done(Result<(), String>), #[doc = \"x\"] #[automation] Open(String) }";
    assert_eq!(derive_dev_automation(source), Ok(CODE.to_owned()));
}

#[test]
fn types_are_listed_by_their_tokens() {
    let source = "enum Message { /// Moves it.\n #[automation] Move(Vec<String>, (u8,)) }";
    let code = derive_dev_automation(source).unwrap();
    assert!(code.contains("{ Move(Vec < String >, (u8 ,)) }"));
    assert!(code.contains("\"index\": 0usize, \"type\": \"Vec < String >\""));
    assert!(code.contains("\"index\": 1usize, \"type\": \"(u8 ,)\""));
}

#[test]
fn raw_names_are_listed_as_the_decoder_takes_them() {
    let raw = variant("r#type", &["automation"], named(&[("r#fn", "u8"), ("r", "u8")]));
    assert_eq!(wire_variant(&raw), "r#type { r#fn: u8, r: u8 }");
    assert_eq!(
        conversion(&raw, "Message"),
        "__MessageAutomationRequest::r#type { r#fn, r } => Message::r#type { r#fn, r }"
    );
    assert_eq!(
        schema_variant(&raw),
        "::iced_dev_automation::serde_json::json!({\"variant\": \"type\", \"shape\": \"struct\", \
         \"fields\": [::iced_dev_automation::serde_json::json!({\"name\": \"fn\", \"type\": \
         \"u8\"}), ::iced_dev_automation::serde_json::json!({\"name\": \"r\", \"type\": \
         \"u8\"})]})"
    );

    let code = derive_dev_automation("enum Message { #[automation] r#type { r#fn: u8 } }").unwrap();
    assert!(code.contains("enum __MessageAutomationRequest { r#type { r#fn: u8 } }"));
    assert!(code.contains("\"variant\": \"type\""));
    assert!(code.contains("\"name\": \"fn\""));
}

#[test]
fn variants_are_listed_once_and_in_order() {
    let source = "enum Message { #[automation] C, A, #[automation] B(u8), #[automation] D {} }";
    let code = derive_dev_automation(source).unwrap();
    let listed: Vec<&str> = code
        .split("\"variant\": \"")
        .skip(1)
        .map(|rest| rest.split('"').next().unwrap())
        .collect();
    assert_eq!(listed, vec!["C", "B", "D"]);
}

#[test]
fn generated_code_is_rust() {
    let source = "enum Message { #[automation] Move(u8, Vec<String>), #[automation] \
                  Size { width: u32, r#type: [u8; 4] }, #[automation] Nothing(), Hidden }";
    let code = derive_dev_automation(source).unwrap();
    let file = syn::parse_str::<syn::File>(&code).unwrap();
    assert_eq!(file.items.len(), 2);
    match &file.items[0] {
        syn::Item::Enum(wire) => {
            assert_eq!(wire.ident.to_string(), "__MessageAutomationRequest");
            let names: Vec<String> =
                wire.variants.iter().map(|variant| variant.ident.to_string()).collect();
            assert_eq!(names, vec!["Move", "Size", "Nothing"]);
        }
        _ => panic!("not an enum"),
    }
    assert!(matches!(&file.items[1], syn::Item::Impl(_)));
    assert!(!code.contains("Hidden"));
}

#[test]
fn variants_that_are_not_annotated_leave_no_trace() {
    let with = "enum Message { A, #[automation] B { x: u8 }, C(u8) }";
    let without = "enum Message { #[automation] B { x: u8 } }";
    assert_eq!(derive_dev_automation(with), derive_dev_automation(without));
}

#[test]
fn refused_types_are_told_why() {
    assert_eq!(
        derive_dev_automation("enum Message<T> { #[automation] A(T) }"),
        Err("DevAutomation does not support generic enums".to_owned())
    );
    assert_eq!(
        derive_dev_automation("struct Message<'a>(&'a str);"),
        Err("DevAutomation does not support generic enums".to_owned())
    );
    assert_eq!(
        derive_dev_automation("struct Message { a: u8 }"),
        Err("DevAutomation can only be derived for enums".to_owned())
    );
    assert_eq!(
        derive_dev_automation("union Message { a: u8 }"),
        Err("DevAutomation can only be derived for enums".to_owned())
    );
    assert_eq!(
        derive_dev_automation("enum Message { A, B(u8) }"),
        Err("DevAutomation requires at least one #[automation] variant".to_owned())
    );
    assert!(derive_dev_automation("enum Message {").is_err());
    assert!(derive_dev_automation("fn message() {}").is_err());
}
