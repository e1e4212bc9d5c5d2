//! What `derive(DevAutomation)` generates for an enum of messages.
//!
//! The generated code, like the enum that it is generated for, is Rust source
//! text.

use crate::text;
use proc_macro2::fallback;
use quote::ToTokens;
use syn::parse_str;
use syn::Data;
use syn::Fields;
use vstd::prelude::*;

verus! {

/// The fields of a variant. A type is the text of its tokens.
#[derive(Debug)]
pub enum VariantFields {
    Unit,
    /// The types of the fields.
    Tuple(Vec<String>),
    /// The names and types of the fields.
    Named(Vec<(String, String)>),
}

/// A variant of an enum. `attributes` are the paths of its attributes.
#[derive(Debug)]
pub struct Variant {
    pub name: String,
    pub attributes: Vec<String>,
    pub fields: VariantFields,
}

/// A type that code is generated for, with the number of its generic parameters. Only an
/// enum has variants.
#[derive(Debug)]
pub struct DeriveInput {
    pub name: String,
    pub parameters: usize,
    pub variants: Option<Vec<Variant>>,
}

/// The same with the name and the source text of each variant.
#[derive(Debug)]
pub struct DeriveSource {
    pub name: String,
    pub parameters: usize,
    pub variants: Option<Vec<(String, String)>>,
}

/// The fields of a variant, by their contents.
#[verifier::ext_equal]
pub enum FieldsView {
    Unit,
    Tuple(Seq<Seq<char>>),
    Named(Seq<(Seq<char>, Seq<char>)>),
}

/// A variant of an enum, by its contents.
#[verifier::ext_equal]
pub struct VariantView {
    pub name: Seq<char>,
    pub attributes: Seq<Seq<char>>,
    pub fields: FieldsView,
}

/// A type that code is generated for, by its contents.
#[verifier::ext_equal]
pub struct InputView {
    pub name: Seq<char>,
    pub parameters: nat,
    pub variants: Option<Seq<VariantView>>,
}

/// The same with the name and the source text of each variant.
#[verifier::ext_equal]
pub struct SourceView {
    pub name: Seq<char>,
    pub parameters: nat,
    pub variants: Option<Seq<(Seq<char>, Seq<char>)>>,
}

/// The texts of a vector.
pub open spec fn texts(parts: Seq<String>) -> Seq<Seq<char>> {
    parts.map_values(|part: String| part@)
}

/// The pairs of texts of a vector.
pub open spec fn text_pairs(parts: Seq<(String, String)>) -> Seq<(Seq<char>, Seq<char>)> {
    parts.map_values(|part: (String, String)| (part.0@, part.1@))
}

impl View for VariantFields {
    type V = FieldsView;

    open spec fn view(&self) -> FieldsView {
        match self {
            VariantFields::Unit => FieldsView::Unit,
            VariantFields::Tuple(types) => FieldsView::Tuple(texts(types@)),
            VariantFields::Named(fields) => FieldsView::Named(text_pairs(fields@)),
        }
    }
}

impl View for Variant {
    type V = VariantView;

    open spec fn view(&self) -> VariantView {
        VariantView {
            name: self.name@,
            attributes: texts(self.attributes@),
            fields: self.fields@,
        }
    }
}

/// The variants of a vector, by their contents.
pub open spec fn variant_views(variants: Seq<Variant>) -> Seq<VariantView> {
    variants.map_values(|variant: Variant| variant@)
}

impl View for DeriveInput {
    type V = InputView;

    open spec fn view(&self) -> InputView {
        InputView {
            name: self.name@,
            parameters: self.parameters as nat,
            variants: match self.variants {
                Some(variants) => Some(variant_views(variants@)),
                None => None,
            },
        }
    }
}

impl View for DeriveSource {
    type V = SourceView;

    open spec fn view(&self) -> SourceView {
        SourceView {
            name: self.name@,
            parameters: self.parameters as nat,
            variants: match self.variants {
                Some(variants) => Some(text_pairs(variants@)),
                None => None,
            },
        }
    }
}

/// What `syn` reads from the source text of a type: its parts, or the message of its error.
pub uninterp spec fn parsed_source(source: Seq<char>) -> Result<SourceView, Seq<char>>;

/// What `syn` reads from the source text of a variant: the paths of its attributes and its
/// fields, or the message of its error.
pub uninterp spec fn parsed_variant(source: Seq<char>) -> Result<
    (Seq<Seq<char>>, FieldsView),
    Seq<char>,
>;

/// The Rust string literal that `proc_macro2` writes for a text.
pub uninterp spec fn string_literal(text: Seq<char>) -> Seq<char>;

/// What a reading of a type gave, by its contents.
pub open spec fn source_view(parsed: Result<DeriveSource, String>) -> Result<
    SourceView,
    Seq<char>,
> {
    match parsed {
        Ok(source) => Ok(source@),
        Err(message) => Err(message@),
    }
}

/// What a reading of a variant gave, by its contents.
pub open spec fn variant_view(parsed: Result<(Vec<String>, VariantFields), String>) -> Result<
    (Seq<Seq<char>>, FieldsView),
    Seq<char>,
> {
    match parsed {
        Ok(parts) => Ok((texts(parts.0@), parts.1@)),
        Err(message) => Err(message@),
    }
}

/// Calls `syn::parse_str` for a `syn::DeriveInput` and takes it apart: its name, the number
/// of its generic parameters and, of an enum, the name and the printed tokens of each variant.
/// `proc_macro2::fallback::force` comes first, so that `proc_macro2` reads and prints the
/// tokens itself, inside of a compiler too, and all of the result depends on the text alone.
#[verifier::external_body]
fn parse_source(source: &str) -> (parsed: Result<DeriveSource, String>)
    ensures
        source_view(parsed) == parsed_source(source@),
{
    fallback::force();
    let input: syn::DeriveInput = parse_str(source).map_err(|error| error.to_string())?;
    let shown = |part: &syn::Variant| part.to_token_stream().to_string();
    let variants = match input.data {
        Data::Enum(all) => Some(
            all.variants.iter().map(|v| (v.ident.to_string(), shown(v))).collect()
        ),
        Data::Struct(_) => None,
        Data::Union(_) => None,
    };
    let parameters = input.generics.params.len();
    Ok(DeriveSource { name: input.ident.to_string(), parameters, variants })
}

/// Calls `syn::parse_str` for a `syn::Variant` and takes it apart: the paths of its attributes
/// and the names and types of its fields, each as its printed tokens. After
/// `proc_macro2::fallback::force`, all of it depends on the text alone.
#[verifier::external_body]
fn parse_variant(source: &str) -> (parsed: Result<(Vec<String>, VariantFields), String>)
    ensures
        variant_view(parsed) == parsed_variant(source@),
{
    fallback::force();
    let parsed: syn::Variant = parse_str(source).map_err(|error| error.to_string())?;
    let shown = |part: &dyn ToTokens| part.to_token_stream().to_string();
    let fields = match parsed.fields {
        Fields::Unit => VariantFields::Unit,
        Fields::Unnamed(all) => VariantFields::Tuple(
            all.unnamed.iter().map(|f| shown(&f.ty)).collect()
        ),
        Fields::Named(all) => VariantFields::Named(
            all.named.iter().map(|f| (shown(&f.ident), shown(&f.ty))).collect()
        ),
    };
    Ok((parsed.attrs.iter().map(|a| shown(a.path())).collect(), fields))
}

/// Calls `proc_macro2::Literal::string`, after `proc_macro2::fallback::force`: the literal
/// depends on the text alone.
#[verifier::external_body]
fn literal(text: &str) -> (literal: String)
    ensures
        literal@ == string_literal(text@),
{
    fallback::force();
    proc_macro2::Literal::string(text).to_string()
}

/// `parts`, with `separator` between them.
pub open spec fn join(parts: Seq<Seq<char>>, separator: Seq<char>) -> Seq<char>
    decreases parts.len(),
{
    if parts.len() == 0 {
        Seq::empty()
    } else if parts.len() == 1 {
        parts[0]
    } else {
        join(parts.drop_last(), separator) + separator + parts.last()
    }
}

/// `parts`, with commas between them.
fn join_texts(parts: &Vec<String>) -> (joined: String)
    ensures
        joined@ == join(texts(parts@), ", "@),
{
    let mut joined: String = String::new();
    let mut i: usize = 0;
    let ghost all = texts(parts@);
    assert(all.take(0) =~= Seq::empty());
    while i < parts.len()
        invariant
            i <= parts@.len(),
            all == texts(parts@),
            joined@ == join(all.take(i as int), ", "@),
        decreases parts@.len() - i,
    {
        if i > 0 {
            joined.append(", ");
        }
        joined.append(parts[i].as_str());
        assert(all.take(i + 1).drop_last() =~= all.take(i as int));
        assert(all[i as int] == parts@[i as int]@);
        if i == 0 {
            assert(joined@ =~= all[0]);
        }
        i += 1;
    }
    assert(all.take(i as int) =~= all);
    joined
}

/// Whether a variant is exposed to automation: one of its attributes is `automation`.
pub open spec fn is_annotated(variant: VariantView) -> bool {
    variant.attributes.contains("automation"@)
}

/// Whether a variant is exposed to automation.
pub fn has_automation_attribute(variant: &Variant) -> (annotated: bool)
    ensures
        annotated == is_annotated(variant@),
{
    let wanted: String = "automation".to_owned();
    let mut i: usize = 0;
    while i < variant.attributes.len()
        invariant
            i <= variant.attributes@.len(),
            wanted@ == "automation"@,
            forall|k: int| 0 <= k < i ==> variant.attributes@[k]@ != "automation"@,
        decreases variant.attributes@.len() - i,
    {
        if variant.attributes[i] == wanted {
            assert(variant@.attributes[i as int] == "automation"@);
            return true;
        }
        i += 1;
    }
    assert forall|k: int| 0 <= k < variant@.attributes.len() implies variant@.attributes[k]
        != "automation"@ by {
        assert(variant@.attributes[k] == variant.attributes@[k]@);
    }
    false
}

/// The variants that are exposed to automation, in their order.
pub open spec fn annotated(variants: Seq<VariantView>) -> Seq<VariantView>
    decreases variants.len(),
{
    if variants.len() == 0 {
        Seq::empty()
    } else if is_annotated(variants.last()) {
        annotated(variants.drop_last()).push(variants.last())
    } else {
        annotated(variants.drop_last())
    }
}

/// A name without the `r#` of a raw identifier: as it stands in other names, and as `serde`
/// knows a variant or a field of that name.
pub open spec fn plain_name(name: Seq<char>) -> Seq<char> {
    if name.len() >= 2 && name[0] == 'r' && name[1] == '#' {
        name.skip(2)
    } else {
        name
    }
}

/// The name of the enum that requests are decoded into.
pub open spec fn wire_name_of(name: Seq<char>) -> Seq<char> {
    "__"@ + plain_name(name) + "AutomationRequest"@
}

/// A name without the `r#` of a raw identifier.
fn unraw(name: &str) -> (plain: &str)
    ensures
        plain@ == plain_name(name@),
{
    let len: usize = name.unicode_len();
    let plain: &str = if len >= 2 && name.get_char(0) == 'r' && name.get_char(1) == '#' {
        name.substring_char(2, len)
    } else {
        name
    };
    assert(plain@ =~= plain_name(name@));
    plain
}

/// The name of the enum that requests are decoded into.
fn wire_name(name: &str) -> (wire: String)
    ensures
        wire@ == wire_name_of(name@),
{
    "__".to_owned().concat(unraw(name)).concat("AutomationRequest")
}

/// A field with its type, as it is declared.
pub open spec fn field_text(field: (Seq<char>, Seq<char>)) -> Seq<char> {
    field.0 + ": "@ + field.1
}

/// Fields with their types, as they are declared.
pub open spec fn field_texts(fields: Seq<(Seq<char>, Seq<char>)>) -> Seq<Seq<char>> {
    fields.map_values(|field: (Seq<char>, Seq<char>)| field_text(field))
}

/// The declaration of a variant in the enum that requests are decoded into: the variant
/// without its attributes.
pub open spec fn wire_text(variant: VariantView) -> Seq<char> {
    match variant.fields {
        FieldsView::Unit => variant.name,
        FieldsView::Tuple(types) => variant.name + "("@ + join(types, ", "@) + ")"@,
        FieldsView::Named(fields) => variant.name + " { "@ + join(field_texts(fields), ", "@)
            + " }"@,
    }
}

/// The declaration of a variant in the enum that requests are decoded into.
pub fn wire_variant(variant: &Variant) -> (declaration: String)
    ensures
        declaration@ == wire_text(variant@),
{
    match &variant.fields {
        VariantFields::Unit => variant.name.clone(),
        VariantFields::Tuple(types) => variant.name.clone().concat("(").concat(
            join_texts(types).as_str(),
        ).concat(")"),
        VariantFields::Named(fields) => {
            let mut declared: Vec<String> = Vec::new();
            let ghost wanted = field_texts(text_pairs(fields@));
            let mut i: usize = 0;
            while i < fields.len()
                invariant
                    i <= fields@.len(),
                    wanted == field_texts(text_pairs(fields@)),
                    texts(declared@) == wanted.take(i as int),
                decreases fields@.len() - i,
            {
                let ghost before = declared@;
                declared.push(
                    fields[i].0.clone().concat(": ").concat(fields[i].1.as_str()),
                );
                assert(texts(declared@) =~= texts(before).push(declared@.last()@));
                assert(wanted.take(i + 1) =~= wanted.take(i as int).push(wanted[i as int]));
                i += 1;
            }
            assert(wanted.take(i as int) =~= wanted);
            variant.name.clone().concat(" { ").concat(join_texts(&declared).as_str()).concat(" }")
        },
    }
}

/// The names that the fields of a tuple variant are bound to.
pub open spec fn bindings(count: nat) -> Seq<Seq<char>> {
    Seq::new(count, |i: int| "field_"@ + text::decimal(i as nat))
}

/// The names that the fields of a tuple variant are bound to.
pub fn indexed_bindings(count: usize) -> (names: Vec<String>)
    ensures
        texts(names@) == bindings(count as nat),
{
    let mut names: Vec<String> = Vec::new();
    let mut i: usize = 0;
    while i < count
        invariant
            i <= count,
            texts(names@) == bindings(i as nat),
        decreases count - i,
    {
        let ghost before = names@;
        names.push("field_".to_owned().concat(text::decimal_text(i).as_str()));
        assert(texts(names@) =~= texts(before).push(names@.last()@));
        assert(bindings((i + 1) as nat) =~= bindings(i as nat).push(names@.last()@));
        i += 1;
    }
    names
}

/// The names of fields.
pub open spec fn field_names(fields: Seq<(Seq<char>, Seq<char>)>) -> Seq<Seq<char>> {
    fields.map_values(|field: (Seq<char>, Seq<char>)| field.0)
}

/// A variant of an enum with its fields bound, as a pattern and as an expression.
pub open spec fn bound_text(enum_name: Seq<char>, variant: VariantView) -> Seq<char> {
    match variant.fields {
        FieldsView::Unit => enum_name + "::"@ + variant.name,
        FieldsView::Tuple(types) => enum_name + "::"@ + variant.name + "("@ + join(
            bindings(types.len()),
            ", "@,
        ) + ")"@,
        FieldsView::Named(fields) => enum_name + "::"@ + variant.name + " { "@ + join(
            field_names(fields),
            ", "@,
        ) + " }"@,
    }
}

/// The arm that turns a decoded request into the message: the same variant with the same
/// fields.
pub open spec fn conversion_text(variant: VariantView, enum_name: Seq<char>) -> Seq<char> {
    bound_text(wire_name_of(enum_name), variant) + " => "@ + bound_text(enum_name, variant)
}

/// A variant of an enum with its fields bound.
fn bound_variant(enum_name: &str, variant: &Variant) -> (bound: String)
    ensures
        bound@ == bound_text(enum_name@, variant@),
{
    let path: String = enum_name.to_owned().concat("::").concat(variant.name.as_str());
    match &variant.fields {
        VariantFields::Unit => path,
        VariantFields::Tuple(types) => {
            let names: Vec<String> = indexed_bindings(types.len());
            path.concat("(").concat(join_texts(&names).as_str()).concat(")")
        },
        VariantFields::Named(fields) => {
            let mut names: Vec<String> = Vec::new();
            let ghost wanted = field_names(text_pairs(fields@));
            let mut i: usize = 0;
            while i < fields.len()
                invariant
                    i <= fields@.len(),
                    wanted == field_names(text_pairs(fields@)),
                    texts(names@) == wanted.take(i as int),
                decreases fields@.len() - i,
            {
                let ghost before = names@;
                names.push(fields[i].0.clone());
                assert(texts(names@) =~= texts(before).push(names@.last()@));
                assert(wanted.take(i + 1) =~= wanted.take(i as int).push(wanted[i as int]));
                i += 1;
            }
            assert(wanted.take(i as int) =~= wanted);
            path.concat(" { ").concat(join_texts(&names).as_str()).concat(" }")
        },
    }
}

/// The arm that turns a decoded request into the message.
pub fn conversion(variant: &Variant, enum_name: &str) -> (arm: String)
    ensures
        arm@ == conversion_text(variant@, enum_name@),
{
    let wire: String = wire_name(enum_name);
    bound_variant(wire.as_str(), variant).concat(" => ").concat(
        bound_variant(enum_name, variant).as_str(),
    )
}

/// The expression for a JSON object with `members`.
pub open spec fn json_expression(members: Seq<char>) -> Seq<char> {
    "::iced_dev_automation::serde_json::json!({"@ + members + "})"@
}

/// The expression for a JSON object with `members`.
fn json_object(members: &str) -> (expression: String)
    ensures
        expression@ == json_expression(members@),
{
    "::iced_dev_automation::serde_json::json!({".to_owned().concat(members).concat("})")
}

/// The schema of the field of a tuple variant at `index`.
pub open spec fn index_schema(index: nat, ty: Seq<char>) -> Seq<char> {
    json_expression(
        "\"index\": "@ + text::decimal(index) + "usize, \"type\": "@ + string_literal(ty),
    )
}

/// The schema of a named field: the key that the decoder takes it under, and its type.
pub open spec fn name_schema(field: (Seq<char>, Seq<char>)) -> Seq<char> {
    json_expression(
        "\"name\": "@ + string_literal(plain_name(field.0)) + ", \"type\": "@ + string_literal(
            field.1,
        ),
    )
}

/// The schemas of the fields of a tuple variant.
pub open spec fn index_schemas(types: Seq<Seq<char>>) -> Seq<Seq<char>> {
    Seq::new(types.len(), |i: int| index_schema(i as nat, types[i]))
}

/// The schemas of named fields.
pub open spec fn name_schemas(fields: Seq<(Seq<char>, Seq<char>)>) -> Seq<Seq<char>> {
    fields.map_values(|field: (Seq<char>, Seq<char>)| name_schema(field))
}

/// The expression for the schema of a variant: the tag that the decoder takes it under, its
/// shape and its fields.
pub open spec fn schema_text(variant: VariantView) -> Seq<char> {
    let name = "\"variant\": "@ + string_literal(plain_name(variant.name));
    match variant.fields {
        FieldsView::Unit => json_expression(name + ", \"shape\": \"unit\""@),
        FieldsView::Tuple(types) => if types.len() == 1 {
            json_expression(
                name + ", \"shape\": \"newtype\", \"type\": "@ + string_literal(types[0]),
            )
        } else {
            json_expression(
                name + ", \"shape\": \"tuple\", \"fields\": ["@ + join(index_schemas(types), ", "@)
                    + "]"@,
            )
        },
        FieldsView::Named(fields) => json_expression(
            name + ", \"shape\": \"struct\", \"fields\": ["@ + join(name_schemas(fields), ", "@)
                + "]"@,
        ),
    }
}

/// The schemas of the fields of a tuple variant.
fn tuple_schemas(types: &Vec<String>) -> (schemas: Vec<String>)
    ensures
        texts(schemas@) == index_schemas(texts(types@)),
{
    let mut schemas: Vec<String> = Vec::new();
    let ghost wanted = index_schemas(texts(types@));
    let mut i: usize = 0;
    while i < types.len()
        invariant
            i <= types@.len(),
            wanted == index_schemas(texts(types@)),
            texts(schemas@) == wanted.take(i as int),
        decreases types@.len() - i,
    {
        let ghost before = schemas@;
        let members: String = "\"index\": ".to_owned().concat(
            text::decimal_text(i).as_str(),
        ).concat("usize, \"type\": ").concat(literal(types[i].as_str()).as_str());
        schemas.push(json_object(members.as_str()));
        assert(texts(schemas@) =~= texts(before).push(schemas@.last()@));
        assert(wanted.take(i + 1) =~= wanted.take(i as int).push(wanted[i as int]));
        i += 1;
    }
    assert(wanted.take(i as int) =~= wanted);
    schemas
}

/// The schemas of named fields.
fn struct_schemas(fields: &Vec<(String, String)>) -> (schemas: Vec<String>)
    ensures
        texts(schemas@) == name_schemas(text_pairs(fields@)),
{
    let mut schemas: Vec<String> = Vec::new();
    let ghost wanted = name_schemas(text_pairs(fields@));
    let mut i: usize = 0;
    while i < fields.len()
        invariant
            i <= fields@.len(),
            wanted == name_schemas(text_pairs(fields@)),
            texts(schemas@) == wanted.take(i as int),
        decreases fields@.len() - i,
    {
        let ghost before = schemas@;
        let members: String = "\"name\": ".to_owned().concat(
            literal(unraw(fields[i].0.as_str())).as_str(),
        ).concat(", \"type\": ").concat(literal(fields[i].1.as_str()).as_str());
        schemas.push(json_object(members.as_str()));
        assert(texts(schemas@) =~= texts(before).push(schemas@.last()@));
        assert(wanted.take(i + 1) =~= wanted.take(i as int).push(wanted[i as int]));
        i += 1;
    }
    assert(wanted.take(i as int) =~= wanted);
    schemas
}

/// The expression for the schema of a variant: the tag that the decoder takes it under, its
/// shape and its fields.
pub fn schema_variant(variant: &Variant) -> (schema: String)
    ensures
        schema@ == schema_text(variant@),
{
    let name: String = "\"variant\": ".to_owned().concat(
        literal(unraw(variant.name.as_str())).as_str(),
    );
    match &variant.fields {
        VariantFields::Unit => json_object(name.concat(", \"shape\": \"unit\"").as_str()),
        VariantFields::Tuple(types) => if types.len() == 1 {
            json_object(
                name.concat(", \"shape\": \"newtype\", \"type\": ").concat(
                    literal(types[0].as_str()).as_str(),
                ).as_str(),
            )
        } else {
            let schemas: Vec<String> = tuple_schemas(types);
            json_object(
                name.concat(", \"shape\": \"tuple\", \"fields\": [").concat(
                    join_texts(&schemas).as_str(),
                ).concat("]").as_str(),
            )
        },
        VariantFields::Named(fields) => {
            let schemas: Vec<String> = struct_schemas(fields);
            json_object(
                name.concat(", \"shape\": \"struct\", \"fields\": [").concat(
                    join_texts(&schemas).as_str(),
                ).concat("]").as_str(),
            )
        },
    }
}

/// The declarations of `variants` in the enum that requests are decoded into.
pub open spec fn wire_texts(variants: Seq<VariantView>) -> Seq<Seq<char>> {
    variants.map_values(|variant: VariantView| wire_text(variant))
}

/// The arms that turn decoded requests into messages.
pub open spec fn conversion_texts(variants: Seq<VariantView>, enum_name: Seq<char>) -> Seq<
    Seq<char>,
> {
    variants.map_values(|variant: VariantView| conversion_text(variant, enum_name))
}

/// The expressions for the schemas of `variants`.
pub open spec fn schema_texts(variants: Seq<VariantView>) -> Seq<Seq<char>> {
    variants.map_values(|variant: VariantView| schema_text(variant))
}

/// The code that is generated for an enum whose `variants` are exposed: the enum that
/// requests are decoded into, and the implementation of `DevAutomation`.
pub open spec fn generated_code(name: Seq<char>, variants: Seq<VariantView>) -> Seq<char> {
    "#[allow(non_camel_case_types)] #[derive(::iced_dev_automation::serde::Deserialize)] #[serde(crate = \"::iced_dev_automation::serde\", tag = \"variant\", content = \"value\", deny_unknown_fields)] enum "@
        + wire_name_of(name) + " { "@ + join(wire_texts(variants), ", "@)
        + " } impl ::iced_dev_automation::DevAutomation for "@ + name
        + " { fn from_automation_value(value: ::iced_dev_automation::serde_json::Value) -> ::std::result::Result<Self, ::iced_dev_automation::serde_json::Error> { let request: "@
        + wire_name_of(name)
        + " = ::iced_dev_automation::serde_json::from_value(value)?; Ok(match request { "@ + join(
        conversion_texts(variants, name),
        ", "@,
    )
        + " }) } fn automation_schema() -> ::iced_dev_automation::serde_json::Value { ::iced_dev_automation::serde_json::json!({ \"protocol\": \"iced-dev-automation\", \"version\": 1, \"tag\": \"variant\", \"content\": \"value\", \"message\": ::std::stringify!("@
        + name + "), \"variants\": ["@ + join(schema_texts(variants), ", "@) + "], }) } }"@
}

/// What is generated for a type: code, or the reason why there is none.
pub open spec fn expansion(input: InputView) -> Result<Seq<char>, Seq<char>> {
    if input.parameters > 0 {
        Err("DevAutomation does not support generic enums"@)
    } else {
        match input.variants {
            None => Err("DevAutomation can only be derived for enums"@),
            Some(variants) => if annotated(variants).len() == 0 {
                Err("DevAutomation requires at least one #[automation] variant"@)
            } else {
                Ok(generated_code(input.name, annotated(variants)))
            },
        }
    }
}

/// What is generated, by its contents.
pub open spec fn code_view(code: Result<String, String>) -> Result<Seq<char>, Seq<char>> {
    match code {
        Ok(text) => Ok(text@),
        Err(message) => Err(message@),
    }
}

/// What is generated for a type: code, or the reason why there is none.
pub fn expand(input: &DeriveInput) -> (code: Result<String, String>)
    ensures
        code_view(code) == expansion(input@),
{
    if input.parameters > 0 {
        return Err("DevAutomation does not support generic enums".to_owned());
    }
    let variants: &Vec<Variant> = match &input.variants {
        Some(variants) => variants,
        None => {
            return Err("DevAutomation can only be derived for enums".to_owned());
        },
    };
    let name: &str = input.name.as_str();
    let ghost all = variant_views(variants@);
    let mut wires: Vec<String> = Vec::new();
    let mut conversions: Vec<String> = Vec::new();
    let mut schemas: Vec<String> = Vec::new();
    let mut i: usize = 0;
    assert(all.take(0) =~= Seq::empty());
    assert(texts(wires@) =~= wire_texts(Seq::empty()));
    assert(texts(conversions@) =~= conversion_texts(Seq::empty(), name@));
    assert(texts(schemas@) =~= schema_texts(Seq::empty()));
    while i < variants.len()
        invariant
            i <= variants@.len(),
            all == variant_views(variants@),
            texts(wires@) == wire_texts(annotated(all.take(i as int))),
            texts(conversions@) == conversion_texts(annotated(all.take(i as int)), name@),
            texts(schemas@) == schema_texts(annotated(all.take(i as int))),
        decreases variants@.len() - i,
    {
        let variant: &Variant = &variants[i];
        let ghost chosen = annotated(all.take(i as int));
        assert(all.take(i + 1).drop_last() =~= all.take(i as int));
        assert(all.take(i + 1).last() == variant@);
        if has_automation_attribute(variant) {
            let ghost before = (wires@, conversions@, schemas@);
            wires.push(wire_variant(variant));
            conversions.push(conversion(variant, name));
            schemas.push(schema_variant(variant));
            assert(texts(wires@) =~= texts(before.0).push(wire_text(variant@)));
            assert(texts(conversions@) =~= texts(before.1).push(
                conversion_text(variant@, name@),
            ));
            assert(texts(schemas@) =~= texts(before.2).push(schema_text(variant@)));
            assert(wire_texts(chosen.push(variant@)) =~= wire_texts(chosen).push(
                wire_text(variant@),
            ));
            assert(conversion_texts(chosen.push(variant@), name@) =~= conversion_texts(
                chosen,
                name@,
            ).push(conversion_text(variant@, name@)));
            assert(schema_texts(chosen.push(variant@)) =~= schema_texts(chosen).push(
                schema_text(variant@),
            ));
        }
        i += 1;
    }
    assert(all.take(i as int) =~= all);
    assert(texts(wires@).len() == annotated(all).len());
    if wires.len() == 0 {
        return Err("DevAutomation requires at least one #[automation] variant".to_owned());
    }
    Ok(code_text(name, &wires, &conversions, &schemas))
}

/// The generated code, put together.
fn code_text(
    name: &str,
    wires: &Vec<String>,
    conversions: &Vec<String>,
    schemas: &Vec<String>,
) -> (code: String)
    ensures
        forall|variants: Seq<VariantView>|
            texts(wires@) == wire_texts(variants) && texts(conversions@) == conversion_texts(
                variants,
                name@,
            ) && texts(schemas@) == schema_texts(variants) ==> code@ == #[trigger] generated_code(
                name@,
                variants,
            ),
{
    let wire: String = wire_name(name);
    let mut code: String = "#[allow(non_camel_case_types)] #[derive(::iced_dev_automation::serde::Deserialize)] #[serde(crate = \"::iced_dev_automation::serde\", tag = \"variant\", content = \"value\", deny_unknown_fields)] enum ".to_owned();
    code.append(wire.as_str());
    code.append(" { ");
    code.append(join_texts(wires).as_str());
    code.append(" } impl ::iced_dev_automation::DevAutomation for ");
    code.append(name);
    code.append(
        " { fn from_automation_value(value: ::iced_dev_automation::serde_json::Value) -> ::std::result::Result<Self, ::iced_dev_automation::serde_json::Error> { let request: ",
    );
    code.append(wire.as_str());
    code.append(" = ::iced_dev_automation::serde_json::from_value(value)?; Ok(match request { ");
    code.append(join_texts(conversions).as_str());
    code.append(
        " }) } fn automation_schema() -> ::iced_dev_automation::serde_json::Value { ::iced_dev_automation::serde_json::json!({ \"protocol\": \"iced-dev-automation\", \"version\": 1, \"tag\": \"variant\", \"content\": \"value\", \"message\": ::std::stringify!(",
    );
    code.append(name);
    code.append("), \"variants\": [");
    code.append(join_texts(schemas).as_str());
    code.append("], }) } }");
    code
}

/// The variants that are read from their names and source texts, or the error of the first
/// one that is not.
pub open spec fn parsed_variants(sources: Seq<(Seq<char>, Seq<char>)>) -> Result<
    Seq<VariantView>,
    Seq<char>,
>
    decreases sources.len(),
{
    if sources.len() == 0 {
        Ok(Seq::empty())
    } else {
        match parsed_variants(sources.drop_last()) {
            Ok(variants) => match parsed_variant(sources.last().1) {
                Ok((attributes, fields)) => Ok(
                    variants.push(VariantView { name: sources.last().0, attributes, fields }),
                ),
                Err(message) => Err(message),
            },
            Err(message) => Err(message),
        }
    }
}

/// The variants that were read, by their contents.
pub open spec fn variants_view(parsed: Result<Vec<Variant>, String>) -> Result<
    Seq<VariantView>,
    Seq<char>,
> {
    match parsed {
        Ok(variants) => Ok(variant_views(variants@)),
        Err(message) => Err(message@),
    }
}

/// Nothing is read from texts of which the first ones are not read.
proof fn lemma_unread_variant(sources: Seq<(Seq<char>, Seq<char>)>, index: int)
    requires
        0 <= index <= sources.len(),
        parsed_variants(sources.take(index)) is Err,
    ensures
        parsed_variants(sources) == parsed_variants(sources.take(index)),
    decreases sources.len(),
{
    if index == sources.len() {
        assert(sources.take(index) =~= sources);
    } else {
        assert(sources.drop_last().take(index) =~= sources.take(index));
        lemma_unread_variant(sources.drop_last(), index);
    }
}

/// Reads variants from their names and source texts.
fn parse_variants(sources: &Vec<(String, String)>) -> (parsed: Result<Vec<Variant>, String>)
    ensures
        variants_view(parsed) == parsed_variants(text_pairs(sources@)),
{
    let mut variants: Vec<Variant> = Vec::new();
    let ghost all = text_pairs(sources@);
    let mut i: usize = 0;
    assert(all.take(0) =~= Seq::empty());
    assert(variant_views(variants@) =~= Seq::empty());
    while i < sources.len()
        invariant
            i <= sources@.len(),
            all == text_pairs(sources@),
            parsed_variants(all.take(i as int)) == Ok::<Seq<VariantView>, Seq<char>>(
                variant_views(variants@),
            ),
        decreases sources@.len() - i,
    {
        assert(all.take(i + 1).drop_last() =~= all.take(i as int));
        assert(all.take(i + 1).last() == (sources@[i as int].0@, sources@[i as int].1@));
        match parse_variant(sources[i].1.as_str()) {
            Ok((attributes, fields)) => {
                let ghost before = variants@;
                variants.push(Variant { name: sources[i].0.clone(), attributes, fields });
                assert(variant_views(variants@) =~= variant_views(before).push(
                    variants@.last()@,
                ));
            },
            Err(message) => {
                proof {
                    lemma_unread_variant(all, i + 1);
                }
                return Err(message);
            },
        }
        i += 1;
    }
    assert(all.take(i as int) =~= all);
    Ok(variants)
}

/// What is generated for the source text of a type: code, or the reason why there is none.
pub open spec fn derived(source: Seq<char>) -> Result<Seq<char>, Seq<char>> {
    match parsed_source(source) {
        Err(message) => Err(message),
        Ok(parts) => match parts.variants {
            None => expansion(
                InputView { name: parts.name, parameters: parts.parameters, variants: None },
            ),
            Some(sources) => match parsed_variants(sources) {
                Err(message) => Err(message),
                Ok(variants) => expansion(
                    InputView {
                        name: parts.name,
                        parameters: parts.parameters,
                        variants: Some(variants),
                    },
                ),
            },
        },
    }
}

/// Generates a debug-only JSON dispatcher for explicitly annotated enum variants, from the
/// source text of the enum. An error is the message to report at compile time.
pub fn derive_dev_automation(source: &str) -> (code: Result<String, String>)
    ensures
        code_view(code) == derived(source@),
{
    let parts: DeriveSource = match parse_source(source) {
        Ok(parts) => parts,
        Err(message) => {
            return Err(message);
        },
    };
    let variants: Option<Vec<Variant>> = match &parts.variants {
        None => None,
        Some(sources) => match parse_variants(sources) {
            Ok(variants) => Some(variants),
            Err(message) => {
                return Err(message);
            },
        },
    };
    expand(&DeriveInput { name: parts.name, parameters: parts.parameters, variants })
}

/// The exposed variants are the annotated ones and no others.
pub proof fn law_exposed_variants_are_annotated(variants: Seq<VariantView>, variant: VariantView)
    ensures
        annotated(variants).contains(variant) <==> variants.contains(variant) && is_annotated(
            variant,
        ),
    decreases variants.len(),
{
    if variants.len() > 0 {
        let before = variants.drop_last();
        let last = variants.last();
        law_exposed_variants_are_annotated(before, variant);
        assert(variants =~= before.push(last));
        assert(variants.contains(variant) <==> before.contains(variant) || variant == last) by {
            assert(variants[variants.len() - 1] == last);
            if before.contains(variant) {
                let i = choose|i: int| 0 <= i < before.len() && before[i] == variant;
                assert(variants[i] == variant);
            }
            if variants.contains(variant) && variant != last {
                let i = choose|i: int| 0 <= i < variants.len() && variants[i] == variant;
                assert(before[i] == variant);
            }
        }
        if is_annotated(last) {
            let chosen = annotated(before);
            assert(annotated(variants) == chosen.push(last));
            assert(annotated(variants).contains(variant) <==> chosen.contains(variant) || variant
                == last) by {
                assert(chosen.push(last)[chosen.len() as int] == last);
                if chosen.contains(variant) {
                    let i = choose|i: int| 0 <= i < chosen.len() && chosen[i] == variant;
                    assert(chosen.push(last)[i] == variant);
                }
                if chosen.push(last).contains(variant) && variant != last {
                    let i = choose|i: int|
                        0 <= i < chosen.push(last).len() && chosen.push(last)[i] == variant;
                    assert(chosen[i] == variant);
                }
            }
        }
    }
}

/// The exposed variants are the annotated ones, each as often as it is declared and in the
/// order of their declaration.
pub proof fn law_exposed_variants_keep_their_order(variants: Seq<VariantView>)
    ensures
        annotated(variants) == variants.filter(|variant: VariantView| is_annotated(variant)),
    decreases variants.len(),
{
    reveal(Seq::filter);
    if variants.len() > 0 {
        law_exposed_variants_keep_their_order(variants.drop_last());
    }
}

/// The schema lists what the decoder takes: for each exposed variant, in order, the decoded
/// enum declares the variant, and the schema names it without the `r#` that `serde` drops too.
pub proof fn law_schema_lists_the_decoded_variants(
    name: Seq<char>,
    variants: Seq<VariantView>,
    index: int,
)
    requires
        0 <= index < annotated(variants).len(),
    ensures
        wire_texts(annotated(variants)).len() == annotated(variants).len(),
        schema_texts(annotated(variants)).len() == annotated(variants).len(),
        conversion_texts(annotated(variants), name).len() == annotated(variants).len(),
        annotated(variants)[index].name.is_prefix_of(wire_texts(annotated(variants))[index]),
        ("::iced_dev_automation::serde_json::json!({"@ + ("\"variant\": "@ + string_literal(
            plain_name(annotated(variants)[index].name),
        ))).is_prefix_of(schema_texts(annotated(variants))[index]),
{
    let variant = annotated(variants)[index];
    let open = "::iced_dev_automation::serde_json::json!({"@;
    let tag = "\"variant\": "@ + string_literal(plain_name(variant.name));
    assert(wire_texts(annotated(variants))[index] == wire_text(variant));
    assert(schema_texts(annotated(variants))[index] == schema_text(variant));
    lemma_is_schema(variant);
    let shape = choose|shape: Seq<char>|
        schema_text(variant) == #[trigger] json_expression(tag + shape);
    assert(json_expression(tag + shape) =~= (open + tag) + (shape + "})"@));
}

/// The schema of a variant begins with its tag.
proof fn lemma_is_schema(variant: VariantView)
    ensures
        exists|shape: Seq<char>|
            schema_text(variant) == #[trigger] json_expression(
                "\"variant\": "@ + string_literal(plain_name(variant.name)) + shape,
            ),
{
    let tag = "\"variant\": "@ + string_literal(plain_name(variant.name));
    match variant.fields {
        FieldsView::Unit => {
            let shape = ", \"shape\": \"unit\""@;
            assert(schema_text(variant) == json_expression(tag + shape));
        },
        FieldsView::Tuple(types) => if types.len() == 1 {
            let shape = ", \"shape\": \"newtype\", \"type\": "@ + string_literal(types[0]);
            assert(tag + ", \"shape\": \"newtype\", \"type\": "@ + string_literal(types[0])
                =~= tag + shape);
            assert(schema_text(variant) == json_expression(tag + shape));
        } else {
            let list = join(index_schemas(types), ", "@);
            let shape = ", \"shape\": \"tuple\", \"fields\": ["@ + list + "]"@;
            assert(tag + ", \"shape\": \"tuple\", \"fields\": ["@ + list + "]"@ =~= tag + shape);
            assert(schema_text(variant) == json_expression(tag + shape));
        },
        FieldsView::Named(fields) => {
            let list = join(name_schemas(fields), ", "@);
            let shape = ", \"shape\": \"struct\", \"fields\": ["@ + list + "]"@;
            assert(tag + ", \"shape\": \"struct\", \"fields\": ["@ + list + "]"@ =~= tag + shape);
            assert(schema_text(variant) == json_expression(tag + shape));
        },
    }
}

/// The same of the fields of a variant: each is declared with its name, and listed under the
/// name without the `r#`.
pub proof fn law_schema_lists_the_decoded_fields(
    variant: VariantView,
    fields: Seq<(Seq<char>, Seq<char>)>,
    index: int,
)
    requires
        variant.fields == FieldsView::Named(fields),
        0 <= index < fields.len(),
    ensures
        wire_text(variant) == variant.name + " { "@ + join(field_texts(fields), ", "@) + " }"@,
        fields[index].0.is_prefix_of(field_texts(fields)[index]),
        schema_text(variant) == json_expression(
            "\"variant\": "@ + string_literal(plain_name(variant.name))
                + ", \"shape\": \"struct\", \"fields\": ["@ + join(name_schemas(fields), ", "@)
                + "]"@,
        ),
        name_schemas(fields)[index] == json_expression(
            "\"name\": "@ + string_literal(plain_name(fields[index].0)) + ", \"type\": "@
                + string_literal(fields[index].1),
        ),
        field_texts(fields).len() == fields.len(),
        name_schemas(fields).len() == fields.len(),
{
}

/// Choosing the annotated variants again changes nothing.
proof fn lemma_annotated_twice(variants: Seq<VariantView>)
    ensures
        annotated(annotated(variants)) == annotated(variants),
    decreases variants.len(),
{
    if variants.len() > 0 {
        lemma_annotated_twice(variants.drop_last());
        if is_annotated(variants.last()) {
            let chosen = annotated(variants.drop_last());
            assert(chosen.push(variants.last()).drop_last() =~= chosen);
        }
    }
}

/// Variants that are not annotated leave no trace: the generated code is that of the enum
/// without them.
pub proof fn law_other_variants_leave_no_trace(
    name: Seq<char>,
    parameters: nat,
    variants: Seq<VariantView>,
)
    ensures
        expansion(InputView { name, parameters, variants: Some(variants) }) == expansion(
            InputView { name, parameters, variants: Some(annotated(variants)) },
        ),
{
    lemma_annotated_twice(variants);
}

/// Code is generated exactly for enums without generic parameters that have an annotated
/// variant.
pub proof fn law_code_is_owed(input: InputView)
    ensures
        expansion(input) is Ok <==> input.parameters == 0 && (input.variants matches Some(
            variants,
        ) && exists|variant: VariantView| #[trigger]
            variants.contains(variant) && is_annotated(variant)),
{
    if let Some(variants) = input.variants {
        if annotated(variants).len() > 0 {
            let variant = annotated(variants)[0];
            assert(annotated(variants).contains(variant));
            law_exposed_variants_are_annotated(variants, variant);
        }
        if exists|variant: VariantView| #[trigger]
            variants.contains(variant) && is_annotated(variant) {
            let variant = choose|variant: VariantView| #[trigger]
                variants.contains(variant) && is_annotated(variant);
            law_exposed_variants_are_annotated(variants, variant);
        }
    }
}

/// Joining parts puts them one behind the other, with the separator between two of them and
/// nowhere else.
pub proof fn law_joining_separates_the_parts(
    first: Seq<Seq<char>>,
    second: Seq<Seq<char>>,
    separator: Seq<char>,
)
    ensures
        join(Seq::empty(), separator) == Seq::<char>::empty(),
        first.len() == 1 ==> join(first, separator) == first[0],
        first.len() > 0 && second.len() > 0 ==> join(first + second, separator) == join(
            first,
            separator,
        ) + separator + join(second, separator),
    decreases second.len(),
{
    if first.len() > 0 && second.len() > 0 {
        let all = first + second;
        assert(all.last() == second.last());
        if second.len() == 1 {
            assert(all.drop_last() =~= first);
            assert(second.last() == second[0]);
        } else {
            law_joining_separates_the_parts(first, second.drop_last(), separator);
            assert(all.drop_last() =~= first + second.drop_last());
            assert(join(all, separator) =~= join(first, separator) + separator + join(
                second,
                separator,
            ));
        }
    }
}

/// A raw identifier is known by what stands behind `r#`, and any other name as it is.
pub proof fn law_raw_names_are_known_without_the_mark(name: Seq<char>)
    ensures
        plain_name(seq!['r', '#'] + name) == name,
        !(seq!['r', '#'].is_prefix_of(name)) ==> plain_name(name) == name,
        wire_name_of(name) == "__"@ + plain_name(name) + "AutomationRequest"@,
{
    assert((seq!['r', '#'] + name).skip(2) =~= name);
    if name.len() >= 2 && name[0] == 'r' && name[1] == '#' {
        assert(name.take(2) =~= seq!['r', '#']);
        assert(seq!['r', '#'].is_prefix_of(name));
    }
}

/// Whether a text may stand as a name between commas and brackets.
pub open spec fn is_bare(name: Seq<char>) -> bool {
    name.len() > 0 && !name.contains(',') && !name.contains(' ') && !name.contains('(')
        && !name.contains(')')
}

/// Whether `bound` binds the fields of a variant behind its path, each once and in order: a
/// tuple's to as many different names as it has fields, and named ones to their own names.
pub open spec fn binds_fields(bound: Seq<char>, fields: FieldsView) -> bool {
    match fields {
        FieldsView::Unit => bound.len() == 0,
        FieldsView::Tuple(types) => exists|names: Seq<Seq<char>>|
            {
                &&& bound == "("@ + #[trigger] join(names, ", "@) + ")"@
                &&& names.len() == types.len()
                &&& forall|i: int| 0 <= i < names.len() ==> is_bare(#[trigger] names[i])
                &&& forall|i: int, j: int|
                    0 <= i < j < names.len() ==> #[trigger] names[i] != #[trigger] names[j]
            },
        FieldsView::Named(named) => exists|names: Seq<Seq<char>>|
            {
                &&& bound == " { "@ + #[trigger] join(names, ", "@) + " }"@
                &&& names.len() == named.len()
                &&& forall|i: int| 0 <= i < names.len() ==> #[trigger] names[i] == named[i].0
            },
    }
}

/// The names that tuple fields are bound to are different ones, without commas and brackets.
proof fn lemma_bindings(count: nat)
    ensures
        bindings(count).len() == count,
        forall|i: int| 0 <= i < count ==> is_bare(#[trigger] bindings(count)[i]),
        forall|i: int, j: int|
            0 <= i < j < count ==> #[trigger] bindings(count)[i] != #[trigger] bindings(count)[j],
{
    reveal_strlit("field_");
    let start = "field_"@;
    assert forall|i: int| 0 <= i < count implies is_bare(#[trigger] bindings(count)[i]) by {
        let digits = text::decimal(i as nat);
        text::law_decimal_stands_for_its_number(i as nat);
        let name = bindings(count)[i];
        assert(name == start + digits);
        assert forall|k: int| 0 <= k < name.len() implies name[k] != ',' && name[k] != ' '
            && name[k] != '(' && name[k] != ')' by {
            if k >= start.len() {
                assert(name[k] == digits[k - start.len()]);
            } else {
                assert(name[k] == start[k]);
            }
        }
    }
    assert forall|i: int, j: int| 0 <= i < j < count implies #[trigger] bindings(count)[i]
        != #[trigger] bindings(count)[j] by {
        let one = text::decimal(i as nat);
        let two = text::decimal(j as nat);
        text::law_decimal_stands_for_its_number(i as nat);
        text::law_decimal_stands_for_its_number(j as nat);
        if start + one == start + two {
            assert((start + one).skip(start.len() as int) =~= one);
            assert((start + two).skip(start.len() as int) =~= two);
        }
    }
}

/// The text behind the path of a variant that binds its fields.
spec fn bound_fields(fields: FieldsView) -> Seq<char> {
    match fields {
        FieldsView::Unit => Seq::empty(),
        FieldsView::Tuple(types) => "("@ + join(bindings(types.len()), ", "@) + ")"@,
        FieldsView::Named(named) => " { "@ + join(field_names(named), ", "@) + " }"@,
    }
}

/// That text binds each field once.
proof fn lemma_binds_fields(fields: FieldsView)
    ensures
        binds_fields(bound_fields(fields), fields),
{
    match fields {
        FieldsView::Unit => {},
        FieldsView::Tuple(types) => {
            lemma_bindings(types.len());
            let names = bindings(types.len());
            assert(bound_fields(fields) == "("@ + join(names, ", "@) + ")"@);
        },
        FieldsView::Named(named) => {
            let names = field_names(named);
            assert(bound_fields(fields) == " { "@ + join(names, ", "@) + " }"@);
        },
    }
}

/// A bound variant is its path and that text.
proof fn lemma_bound_text(enum_name: Seq<char>, variant: VariantView)
    ensures
        bound_text(enum_name, variant) == enum_name + "::"@ + variant.name + bound_fields(
            variant.fields,
        ),
{
    let path = enum_name + "::"@ + variant.name;
    match variant.fields {
        FieldsView::Unit => {
            assert(path + Seq::<char>::empty() =~= path);
        },
        FieldsView::Tuple(types) => {
            let list = join(bindings(types.len()), ", "@);
            assert(path + "("@ + list + ")"@ =~= path + ("("@ + list + ")"@));
        },
        FieldsView::Named(named) => {
            let list = join(field_names(named), ", "@);
            assert(path + " { "@ + list + " }"@ =~= path + (" { "@ + list + " }"@));
        },
    }
}

/// A decoded request becomes the message of the same variant with the same fields: the arm has
/// the variant of the decoded enum on its left and that of the message on its right, and behind
/// the two paths stands the same text, which binds each field once. So what was bound to a
/// field of the request is put into the same field of the message.
pub proof fn law_fields_are_carried_over(variant: VariantView, enum_name: Seq<char>)
    ensures
        exists|bound: Seq<char>|
            {
                &&& #[trigger] binds_fields(bound, variant.fields)
                &&& conversion_text(variant, enum_name) == (("__"@ + plain_name(enum_name)
                    + "AutomationRequest"@) + "::"@ + variant.name + bound) + " => "@ + (enum_name
                    + "::"@ + variant.name + bound)
            },
{
    let bound = bound_fields(variant.fields);
    lemma_binds_fields(variant.fields);
    lemma_bound_text(wire_name_of(enum_name), variant);
    lemma_bound_text(enum_name, variant);
    assert(binds_fields(bound, variant.fields));
}

/// The decoded enum declares a variant with its own name and fields and nothing else: without
/// fields just the name, and with each field that a variant has more, that field's type, or its
/// name and its type, more, behind the others.
#[verifier::rlimit(40)]
pub proof fn law_declarations_list_every_field(
    name: Seq<char>,
    attributes: Seq<Seq<char>>,
    types: Seq<Seq<char>>,
    fields: Seq<(Seq<char>, Seq<char>)>,
    field: (Seq<char>, Seq<char>),
)
    ensures
        wire_text(VariantView { name, attributes, fields: FieldsView::Unit }) == name,
        wire_text(VariantView { name, attributes, fields: FieldsView::Tuple(Seq::empty()) })
            == name + "()"@,
        wire_text(VariantView { name, attributes, fields: FieldsView::Named(Seq::empty()) })
            == name + " {  }"@,
        wire_text(
            VariantView { name, attributes, fields: FieldsView::Tuple(types.push(field.1)) },
        ) == wire_text(
            VariantView { name, attributes, fields: FieldsView::Tuple(types) },
        ).drop_last() + (if types.len() == 0 {
            Seq::empty()
        } else {
            ", "@
        }) + field.1 + ")"@,
        wire_text(
            VariantView { name, attributes, fields: FieldsView::Named(fields.push(field)) },
        ) == wire_text(
            VariantView { name, attributes, fields: FieldsView::Named(fields) },
        ).drop_last().drop_last() + (if fields.len() == 0 {
            Seq::empty()
        } else {
            ", "@
        }) + field.0 + ": "@ + field.1 + " }"@,
{
    reveal_strlit("(");
    reveal_strlit(")");
    reveal_strlit("()");
    reveal_strlit(" { ");
    reveal_strlit(" }");
    reveal_strlit(" {  }");
    assert("("@ + ")"@ =~= "()"@);
    assert(" { "@ + " }"@ =~= " {  }"@);
    assert(join(Seq::empty(), ", "@) =~= Seq::empty());
    assert(field_texts(Seq::empty()) =~= Seq::empty());
    assert(name + "("@ + Seq::<char>::empty() + ")"@ =~= name + "()"@);
    assert(name + " { "@ + Seq::<char>::empty() + " }"@ =~= name + " {  }"@);
    let one = seq![field.1];
    assert(types.push(field.1) =~= types + one);
    law_joining_separates_the_parts(types, one, ", "@);
    law_joining_separates_the_parts(one, one, ", "@);
    assert(types.len() == 0 ==> types.push(field.1) =~= one);
    let before = name + "("@ + join(types, ", "@);
    assert((before + ")"@).drop_last() =~= before);
    let gap = if types.len() == 0 {
        Seq::<char>::empty()
    } else {
        ", "@
    };
    assert(types.len() == 0 ==> types =~= Seq::empty());
    assert(join(types.push(field.1), ", "@) =~= join(types, ", "@) + gap + field.1);
    assert(name + "("@ + (join(types, ", "@) + gap + field.1) + ")"@ =~= before + gap + field.1
        + ")"@);
    let declared = field_texts(fields);
    let two = seq![field_text(field)];
    assert(field_texts(fields.push(field)) =~= declared + two);
    law_joining_separates_the_parts(declared, two, ", "@);
    law_joining_separates_the_parts(two, two, ", "@);
    assert(declared.len() == 0 ==> declared + two =~= two);
    assert(declared.len() == 0 ==> declared =~= Seq::empty());
    let opened = name + " { "@ + join(declared, ", "@);
    assert((opened + " }"@).drop_last().drop_last() =~= opened);
    let space = if fields.len() == 0 {
        Seq::<char>::empty()
    } else {
        ", "@
    };
    assert(join(declared + two, ", "@) =~= join(declared, ", "@) + space + field_text(field));
    assert(name + " { "@ + (join(declared, ", "@) + space + field_text(field)) + " }"@ =~= opened
        + space + field.0 + ": "@ + field.1 + " }"@);
}

/// The expression for a JSON object whose members are `members`.
pub open spec fn object_of(members: Seq<char>) -> Seq<char> {
    "::iced_dev_automation::serde_json::json!({"@ + members + "})"@
}

/// The schema of a variant names its tag and its shape: `unit` without fields, `newtype` with
/// the type of the only field of a tuple, `tuple` with the index and the type of each of its
/// fields otherwise, and `struct` with the key and the type of each named field, in order.
#[verifier::rlimit(40)]
pub proof fn law_schemas_describe_every_field(
    name: Seq<char>,
    attributes: Seq<Seq<char>>,
    types: Seq<Seq<char>>,
    fields: Seq<(Seq<char>, Seq<char>)>,
)
    ensures
        schema_text(VariantView { name, attributes, fields: FieldsView::Unit }) == object_of(
            "\"variant\": "@ + string_literal(plain_name(name)) + ", \"shape\": \"unit\""@,
        ),
        types.len() == 1 ==> schema_text(
            VariantView { name, attributes, fields: FieldsView::Tuple(types) },
        ) == object_of(
            "\"variant\": "@ + string_literal(plain_name(name))
                + ", \"shape\": \"newtype\", \"type\": "@ + string_literal(types[0]),
        ),
        types.len() != 1 ==> exists|listed: Seq<Seq<char>>|
            {
                &&& schema_text(
                    VariantView { name, attributes, fields: FieldsView::Tuple(types) },
                ) == object_of(
                    "\"variant\": "@ + string_literal(plain_name(name))
                        + ", \"shape\": \"tuple\", \"fields\": ["@ + #[trigger] join(
                        listed,
                        ", "@,
                    ) + "]"@,
                )
                &&& listed.len() == types.len()
                &&& forall|i: int|
                    0 <= i < types.len() ==> exists|digits: Seq<char>|
                        #[trigger] listed[i] == object_of(
                            "\"index\": "@ + digits + "usize, \"type\": "@ + string_literal(
                                types[i],
                            ),
                        ) && #[trigger] text::value_of(digits) == i
            },
        exists|listed: Seq<Seq<char>>|
            {
                &&& schema_text(
                    VariantView { name, attributes, fields: FieldsView::Named(fields) },
                ) == object_of(
                    "\"variant\": "@ + string_literal(plain_name(name))
                        + ", \"shape\": \"struct\", \"fields\": ["@ + #[trigger] join(
                        listed,
                        ", "@,
                    ) + "]"@,
                )
                &&& listed.len() == fields.len()
                &&& forall|i: int|
                    0 <= i < fields.len() ==> #[trigger] listed[i] == object_of(
                        "\"name\": "@ + string_literal(plain_name(fields[i].0))
                            + ", \"type\": "@ + string_literal(fields[i].1),
                    )
            },
{
    let listed = index_schemas(types);
    assert forall|i: int| 0 <= i < types.len() implies exists|digits: Seq<char>| #[trigger]
        listed[i] == object_of(
            "\"index\": "@ + digits + "usize, \"type\": "@ + string_literal(types[i]),
        ) && #[trigger] text::value_of(digits) == i by {
        text::law_decimal_stands_for_its_number(i as nat);
        let digits = text::decimal(i as nat);
        assert(listed[i] == object_of(
            "\"index\": "@ + digits + "usize, \"type\": "@ + string_literal(types[i]),
        ));
        assert(text::value_of(digits) == i);
    }
    assert(types.len() != 1 ==> schema_text(
        VariantView { name, attributes, fields: FieldsView::Tuple(types) },
    ) == object_of(
        "\"variant\": "@ + string_literal(plain_name(name))
            + ", \"shape\": \"tuple\", \"fields\": ["@ + join(listed, ", "@) + "]"@,
    ));
    let keys = name_schemas(fields);
    assert(schema_text(VariantView { name, attributes, fields: FieldsView::Named(fields) })
        == object_of(
        "\"variant\": "@ + string_literal(plain_name(name))
            + ", \"shape\": \"struct\", \"fields\": ["@ + join(keys, ", "@) + "]"@,
    ));
    assert(forall|i: int|
        0 <= i < fields.len() ==> #[trigger] keys[i] == object_of(
            "\"name\": "@ + string_literal(plain_name(fields[i].0)) + ", \"type\": "@
                + string_literal(fields[i].1),
        ));
}

/// A variant is exposed exactly if one of its attributes is `automation`, whatever else it has.
pub proof fn law_one_attribute_exposes_a_variant(variant: VariantView)
    ensures
        is_annotated(variant) <==> exists|i: int|
            0 <= i < variant.attributes.len() && #[trigger] variant.attributes[i]
                == "automation"@,
{
}

/// The generated code declares the decoded enum, with the tag and content that the schema
/// names and no other fields, and has one declaration, one arm and one schema entry for each
/// exposed variant, in one order: the text around the three lists depends on the enum's name
/// alone.
#[verifier::rlimit(40)]
pub proof fn law_code_has_one_entry_for_each_variant(name: Seq<char>, variants: Seq<VariantView>)
    ensures
        exists|wires: Seq<Seq<char>>, arms: Seq<Seq<char>>, schemas: Seq<Seq<char>>|
            {
                &&& generated_code(name, variants)
                    == "#[allow(non_camel_case_types)] #[derive(::iced_dev_automation::serde::Deserialize)] #[serde(crate = \"::iced_dev_automation::serde\", tag = \"variant\", content = \"value\", deny_unknown_fields)] enum "@
                    + ("__"@ + plain_name(name) + "AutomationRequest"@) + " { "@
                    + #[trigger] join(wires, ", "@)
                    + " } impl ::iced_dev_automation::DevAutomation for "@ + name
                    + " { fn from_automation_value(value: ::iced_dev_automation::serde_json::Value) -> ::std::result::Result<Self, ::iced_dev_automation::serde_json::Error> { let request: "@
                    + ("__"@ + plain_name(name) + "AutomationRequest"@)
                    + " = ::iced_dev_automation::serde_json::from_value(value)?; Ok(match request { "@
                    + #[trigger] join(arms, ", "@)
                    + " }) } fn automation_schema() -> ::iced_dev_automation::serde_json::Value { ::iced_dev_automation::serde_json::json!({ \"protocol\": \"iced-dev-automation\", \"version\": 1, \"tag\": \"variant\", \"content\": \"value\", \"message\": ::std::stringify!("@
                    + name + "), \"variants\": ["@ + #[trigger] join(schemas, ", "@)
                    + "], }) } }"@
                &&& wires.len() == variants.len()
                &&& arms.len() == variants.len()
                &&& schemas.len() == variants.len()
                &&& forall|i: int|
                    0 <= i < variants.len() ==> #[trigger] wires[i] == wire_text(variants[i])
                &&& forall|i: int|
                    0 <= i < variants.len() ==> #[trigger] arms[i] == conversion_text(
                        variants[i],
                        name,
                    )
                &&& forall|i: int|
                    0 <= i < variants.len() ==> #[trigger] schemas[i] == schema_text(variants[i])
            },
{
    let wires = wire_texts(variants);
    let arms = conversion_texts(variants, name);
    let schemas = schema_texts(variants);
    assert(join(wires, ", "@) == join(wire_texts(variants), ", "@));
    assert(join(arms, ", "@) == join(conversion_texts(variants, name), ", "@));
    assert(join(schemas, ", "@) == join(schema_texts(variants), ", "@));
}

/// Code is generated from the annotated variants alone; a type that is generic, no enum, or has
/// no annotated variant is refused with the first of these reasons that holds.
pub proof fn law_refused_types_are_told_why(input: InputView)
    ensures
        input.parameters > 0 ==> expansion(input) == Err::<Seq<char>, Seq<char>>(
            "DevAutomation does not support generic enums"@,
        ),
        input.parameters == 0 && input.variants is None ==> expansion(input) == Err::<
            Seq<char>,
            Seq<char>,
        >("DevAutomation can only be derived for enums"@),
        input.parameters == 0 ==> (input.variants matches Some(variants) ==> {
            let exposed = variants.filter(|variant: VariantView| is_annotated(variant));
            &&& exposed.len() == 0 ==> expansion(input) == Err::<Seq<char>, Seq<char>>(
                "DevAutomation requires at least one #[automation] variant"@,
            )
            &&& exposed.len() > 0 ==> expansion(input) == Ok::<Seq<char>, Seq<char>>(
                generated_code(input.name, exposed),
            )
        }),
{
    if let Some(variants) = input.variants {
        law_exposed_variants_keep_their_order(variants);
    }
}

/// The variants of an enum are those that are read from its source, each with its own name, and
/// if one cannot be read, the first such one tells why.
pub proof fn law_variants_are_read_in_order(sources: Seq<(Seq<char>, Seq<char>)>, index: int)
    requires
        0 <= index < sources.len(),
    ensures
        parsed_variants(sources) matches Ok(variants) ==> variants.len() == sources.len()
            && variants[index].name == sources[index].0 && parsed_variant(sources[index].1) == Ok::<
            (Seq<Seq<char>>, FieldsView),
            Seq<char>,
        >((variants[index].attributes, variants[index].fields)),
        (forall|i: int| 0 <= i < sources.len() ==> (#[trigger] parsed_variant(sources[i].1)) is Ok)
            ==> parsed_variants(sources) is Ok,
        (forall|i: int| 0 <= i < index ==> (#[trigger] parsed_variant(sources[i].1)) is Ok) && (
        parsed_variant(sources[index].1) matches Err(_)) ==> parsed_variants(sources) == Err::<
            Seq<VariantView>,
            Seq<char>,
        >(parsed_variant(sources[index].1)->Err_0),
    decreases sources.len(),
{
    let before = sources.drop_last();
    let last = sources.last();
    assert(forall|i: int| 0 <= i < before.len() ==> before[i] == sources[i]);
    if index < before.len() {
        law_variants_are_read_in_order(before, index);
        assert((forall|i: int|
            0 <= i < sources.len() ==> (#[trigger] parsed_variant(sources[i].1)) is Ok)
            ==> parsed_variant(last.1) is Ok) by {
            assert(last == sources[sources.len() - 1]);
        }
    } else {
        assert(last == sources[index]);
        if before.len() > 0 {
            law_variants_are_read_in_order(before, before.len() - 1);
        }
    }
}

/// What is generated for a source is what is generated for the type that is read from it; a
/// source that cannot be read gives the reader's message.
pub proof fn law_sources_are_read_and_expanded(source: Seq<char>)
    ensures
        match parsed_source(source) {
            Err(message) => derived(source) == Err::<Seq<char>, Seq<char>>(message),
            Ok(parts) => match parts.variants {
                None => derived(source) == expansion(
                    InputView { name: parts.name, parameters: parts.parameters, variants: None },
                ),
                Some(sources) => match parsed_variants(sources) {
                    Err(message) => derived(source) == Err::<Seq<char>, Seq<char>>(message),
                    Ok(variants) => derived(source) == expansion(
                        InputView {
                            name: parts.name,
                            parameters: parts.parameters,
                            variants: Some(variants),
                        },
                    ),
                },
            },
        },
{
}

/// Types and their parts are seen as what they hold, in their order.
pub proof fn law_types_are_seen_as_they_are(
    input: DeriveInput,
    variant: Variant,
    variants: Seq<Variant>,
    parts: Seq<String>,
    pairs: Seq<(String, String)>,
    index: int,
)
    ensures
        input@.name == input.name@,
        input@.parameters == input.parameters,
        input@.variants is Some <==> input.variants is Some,
        input.variants matches Some(all) ==> input@.variants == Some(variant_views(all@)),
        variant@.name == variant.name@,
        variant@.attributes == texts(variant.attributes@),
        match variant.fields {
            VariantFields::Unit => variant@.fields == FieldsView::Unit,
            VariantFields::Tuple(types) => variant@.fields == FieldsView::Tuple(texts(types@)),
            VariantFields::Named(fields) => variant@.fields == FieldsView::Named(
                text_pairs(fields@),
            ),
        },
        variant_views(variants).len() == variants.len(),
        0 <= index < variants.len() ==> variant_views(variants)[index] == variants[index]@,
        texts(parts).len() == parts.len(),
        0 <= index < parts.len() ==> texts(parts)[index] == parts[index]@,
        text_pairs(pairs).len() == pairs.len(),
        0 <= index < pairs.len() ==> text_pairs(pairs)[index] == (pairs[index].0@, pairs[index].1@),
{
}

} // verus!
