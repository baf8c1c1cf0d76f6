use vstd::prelude::*;

use crate::text::{attribute_key, snake_case};

verus! {

/// One annotation on a field: its name and the tokens between its parentheses,
/// in order, each as written (`to_string_fn(String::from)` has the tokens
/// `String`, `:`, `:`, `from`).
#[derive(Clone, Debug, PartialEq, Eq)]
pub struct Attribute {
    pub name: String,
    pub args: Vec<String>,
}

/// One member of a structure, with all the annotations written on it.
#[derive(Clone, Debug, PartialEq, Eq)]
pub struct FieldDeclaration {
    pub name: String,
    pub attributes: Vec<Attribute>,
}

/// How the members of the annotated item are declared.
#[derive(Clone, Copy, Debug, PartialEq, Eq)]
pub enum Shape {
    /// `struct S { a: A, .. }`
    NamedFields,
    /// `struct S(A, ..);`
    TupleFields,
    /// `struct S;`
    NoFields,
    /// an enum or a union
    NotAStruct,
}

/// The item to generate a conversion for.
#[derive(Clone, Debug, PartialEq, Eq)]
pub struct StructureDeclaration {
    pub name: String,
    pub shape: Shape,
    pub fields: Vec<FieldDeclaration>,
}

/// How a field's value becomes the string of its attribute.
#[derive(Clone, Debug, PartialEq, Eq)]
pub enum Strategy {
    /// the value is handed over as it is
    Direct,
    /// `value.to_string()`
    ToStringMethod,
    /// `path(value)`, the path written as the tokens it was given in
    CustomFunction(String),
}

/// A strategy as contracts speak of it, the function path as characters.
pub enum StrategyView {
    Direct,
    ToStringMethod,
    CustomFunction(Seq<char>),
}

impl View for Strategy {
    type V = StrategyView;

    open spec fn view(&self) -> StrategyView {
        match self {
            Strategy::Direct => StrategyView::Direct,
            Strategy::ToStringMethod => StrategyView::ToStringMethod,
            Strategy::CustomFunction(p) => StrategyView::CustomFunction(p@),
        }
    }
}

/// Why no conversion was generated.
#[derive(Clone, Debug, PartialEq, Eq)]
pub enum GenerationError {
    /// the item is not a structure with at least one named field
    UnsupportedStructureShape { item: String },
    /// a field carries more than one strategy annotation; the first two are named
    ConflictingFieldStrategy { field: String, first: String, second: String },
    /// the arguments of a field's strategy annotation are not what it takes
    MalformedAttributeArguments { field: String, arguments: String },
}

/// An error as contracts speak of it, each name as characters.
pub enum GenerationErrorView {
    UnsupportedStructureShape { item: Seq<char> },
    ConflictingFieldStrategy { field: Seq<char>, first: Seq<char>, second: Seq<char> },
    MalformedAttributeArguments { field: Seq<char>, arguments: Seq<char> },
}

impl View for GenerationError {
    type V = GenerationErrorView;

    open spec fn view(&self) -> GenerationErrorView {
        match self {
            GenerationError::UnsupportedStructureShape { item } =>
                GenerationErrorView::UnsupportedStructureShape { item: item@ },
            GenerationError::ConflictingFieldStrategy { field, first, second } =>
                GenerationErrorView::ConflictingFieldStrategy {
                    field: field@,
                    first: first@,
                    second: second@,
                },
            GenerationError::MalformedAttributeArguments { field, arguments } =>
                GenerationErrorView::MalformedAttributeArguments {
                    field: field@,
                    arguments: arguments@,
                },
        }
    }
}

/// The planned conversion: the structure it is for, the event's name, and one
/// (key, value expression) pair per field, in field order.
#[derive(Clone, Debug, PartialEq, Eq)]
pub struct EmittedImplementation {
    pub target: String,
    pub event_name: String,
    pub attributes: Vec<(String, String)>,
}

/// A planned conversion as contracts speak of it.
pub struct ImplementationView {
    pub target: Seq<char>,
    pub event_name: Seq<char>,
    pub attributes: Seq<(Seq<char>, Seq<char>)>,
}

impl View for EmittedImplementation {
    type V = ImplementationView;

    open spec fn view(&self) -> ImplementationView {
        ImplementationView {
            target: self.target@,
            event_name: self.event_name@,
            attributes: self.attributes@.map_values(|p: (String, String)| (p.0@, p.1@)),
        }
    }
}

pub open spec fn is_ident_start(c: char) -> bool {
    ('a' <= c && c <= 'z') || ('A' <= c && c <= 'Z') || c == '_'
}

pub open spec fn is_ident_continue(c: char) -> bool {
    is_ident_start(c) || ('0' <= c && c <= '9')
}

/// A plain identifier token (`_` alone is none).
pub open spec fn is_identifier(t: Seq<char>) -> bool {
    &&& t.len() >= 1
    &&& is_ident_start(t[0])
    &&& forall|k: int| 1 <= k < t.len() ==> is_ident_continue(#[trigger] t[k])
    &&& t != seq!['_']
}

/// A keyword of Rust that cannot name a path segment (`crate`, `self`,
/// `super` and `Self` can, and are not among these).
pub open spec fn is_reserved_word(t: Seq<char>) -> bool {
    t == "as"@
        || t == "async"@
        || t == "await"@
        || t == "break"@
        || t == "const"@
        || t == "continue"@
        || t == "dyn"@
        || t == "else"@
        || t == "enum"@
        || t == "extern"@
        || t == "false"@
        || t == "fn"@
        || t == "for"@
        || t == "if"@
        || t == "impl"@
        || t == "in"@
        || t == "let"@
        || t == "loop"@
        || t == "match"@
        || t == "mod"@
        || t == "move"@
        || t == "mut"@
        || t == "pub"@
        || t == "ref"@
        || t == "return"@
        || t == "static"@
        || t == "struct"@
        || t == "trait"@
        || t == "true"@
        || t == "type"@
        || t == "unsafe"@
        || t == "use"@
        || t == "where"@
        || t == "while"@
        || t == "abstract"@
        || t == "become"@
        || t == "box"@
        || t == "do"@
        || t == "final"@
        || t == "macro"@
        || t == "override"@
        || t == "priv"@
        || t == "try"@
        || t == "typeof"@
        || t == "unsized"@
        || t == "virtual"@
        || t == "yield"@
}

/// A keyword that starts or climbs a path and has no raw form.
pub open spec fn is_path_keyword(t: Seq<char>) -> bool {
    t == "crate"@ || t == "self"@ || t == "super"@ || t == "Self"@
}

/// A raw identifier token, `r#` and then an identifier.
pub open spec fn is_raw_identifier(t: Seq<char>) -> bool {
    &&& t.len() >= 3
    &&& t[0] == 'r'
    &&& t[1] == '#'
    &&& is_identifier(t.skip(2))
    &&& !is_path_keyword(t.skip(2))
}

/// A token that can be a segment of a path.
pub open spec fn is_segment(t: Seq<char>) -> bool {
    (is_identifier(t) && !is_reserved_word(t)) || is_raw_identifier(t)
}

/// Tokens that spell a path without a leading `::`: segments joined by `::`,
/// each colon a token of its own (`a`, `:`, `:`, `b`).
pub open spec fn is_relative_path(tokens: Seq<String>) -> bool {
    &&& tokens.len() % 3 == 1
    &&& forall|i: int|
        0 <= i < tokens.len() ==> if i % 3 == 0 {
            is_segment(#[trigger] tokens[i]@)
        } else {
            tokens[i]@ == seq![':']
        }
}

/// Tokens that spell one path, with or without a leading `::`.
pub open spec fn is_path(tokens: Seq<String>) -> bool {
    is_relative_path(tokens) || (tokens.len() >= 3 && tokens[0]@ == seq![':'] && tokens[1]@
        == seq![':'] && is_relative_path(tokens.skip(2)))
}

/// The tokens written one after the other.
pub open spec fn joined(tokens: Seq<String>) -> Seq<char>
    decreases tokens.len(),
{
    if tokens.len() == 0 {
        Seq::empty()
    } else {
        joined(tokens.drop_last()) + tokens.last()@
    }
}

/// The annotation that asks for `value.to_string()`.
pub open spec fn use_to_string_name() -> Seq<char> {
    "use_to_string"@
}

/// The annotation that names a function to apply to the value.
pub open spec fn to_string_fn_name() -> Seq<char> {
    "to_string_fn"@
}

/// A strategy annotation: the `to_string` marker written without tokens, or
/// the function marker with whatever tokens it has. The `to_string` marker
/// written with tokens is no strategy annotation and is ignored like any other.
pub open spec fn is_marker(a: Attribute) -> bool {
    (a.name@ == use_to_string_name() && a.args@.len() == 0) || a.name@ == to_string_fn_name()
}

/// The strategy annotations among `attrs`, in order; the others are ignored.
pub open spec fn markers(attrs: Seq<Attribute>) -> Seq<Attribute>
    decreases attrs.len(),
{
    if attrs.len() == 0 {
        Seq::empty()
    } else if is_marker(attrs.last()) {
        markers(attrs.drop_last()).push(attrs.last())
    } else {
        markers(attrs.drop_last())
    }
}

/// A strategy annotation with the arguments it takes: the `to_string` marker
/// (which has none), or the function marker with one path.
pub open spec fn arguments_fit(a: Attribute) -> bool {
    a.name@ == use_to_string_name() || is_path(a.args@)
}

/// A field with more than one strategy annotation.
pub open spec fn field_conflicting(f: FieldDeclaration) -> bool {
    markers(f.attributes@).len() >= 2
}

/// A field whose one strategy annotation has arguments that do not fit it.
pub open spec fn field_malformed(f: FieldDeclaration) -> bool {
    markers(f.attributes@).len() == 1 && !arguments_fit(markers(f.attributes@)[0])
}

/// The strategy of a field whose annotations are neither conflicting nor malformed.
pub open spec fn strategy_of(f: FieldDeclaration) -> StrategyView {
    let m = markers(f.attributes@);
    if m.len() == 0 {
        StrategyView::Direct
    } else if m[0].name@ == use_to_string_name() {
        StrategyView::ToStringMethod
    } else {
        StrategyView::CustomFunction(joined(m[0].args@))
    }
}

/// The error for a field with conflicting annotations.
pub open spec fn conflict_error(f: FieldDeclaration) -> GenerationErrorView {
    let m = markers(f.attributes@);
    GenerationErrorView::ConflictingFieldStrategy {
        field: f.name@,
        first: m[0].name@,
        second: m[1].name@,
    }
}

/// The error for a field with malformed annotation arguments.
pub open spec fn malformed_error(f: FieldDeclaration) -> GenerationErrorView {
    GenerationErrorView::MalformedAttributeArguments {
        field: f.name@,
        arguments: joined(markers(f.attributes@)[0].args@),
    }
}

/// What resolving one field's strategy gives, the field taken alone.
pub open spec fn resolution(f: FieldDeclaration) -> Result<StrategyView, GenerationErrorView> {
    if field_conflicting(f) {
        Err(conflict_error(f))
    } else if field_malformed(f) {
        Err(malformed_error(f))
    } else {
        Ok(strategy_of(f))
    }
}

/// The expression that reads the field in the generated method.
pub open spec fn field_access(name: Seq<char>) -> Seq<char> {
    "self."@ + name
}

/// The expression that gives a field's string under a strategy.
pub open spec fn value_expression(name: Seq<char>, s: StrategyView) -> Seq<char> {
    match s {
        StrategyView::Direct => field_access(name),
        StrategyView::ToStringMethod => field_access(name) + ".to_string()"@,
        StrategyView::CustomFunction(path) => path + "("@ + field_access(name) + ")"@,
    }
}

/// The planned (key, value expression) pair of a well-annotated field.
pub open spec fn planned_pair(f: FieldDeclaration) -> (Seq<char>, Seq<char>) {
    (attribute_key(f.name@), value_expression(f.name@, strategy_of(f)))
}

/// A structure with at least one named field.
pub open spec fn shape_supported(d: StructureDeclaration) -> bool {
    d.shape is NamedFields && d.fields@.len() > 0
}

/// The first field, from position `from` on, with conflicting annotations.
pub open spec fn conflict_index(fields: Seq<FieldDeclaration>, from: int) -> Option<int>
    decreases fields.len() - from,
{
    if from < 0 || from >= fields.len() {
        None
    } else if field_conflicting(fields[from]) {
        Some(from)
    } else {
        conflict_index(fields, from + 1)
    }
}

/// The first field, from position `from` on, with malformed annotation arguments.
pub open spec fn malformed_index(fields: Seq<FieldDeclaration>, from: int) -> Option<int>
    decreases fields.len() - from,
{
    if from < 0 || from >= fields.len() {
        None
    } else if field_malformed(fields[from]) {
        Some(from)
    } else {
        malformed_index(fields, from + 1)
    }
}

/// What planning gives for a declaration: the shape is checked first, then
/// every field for conflicting annotations, then every field for malformed
/// arguments; each error names the first offender.
pub open spec fn planned(d: StructureDeclaration) -> Result<ImplementationView, GenerationErrorView> {
    if !shape_supported(d) {
        Err(GenerationErrorView::UnsupportedStructureShape { item: d.name@ })
    } else if let Some(i) = conflict_index(d.fields@, 0) {
        Err(conflict_error(d.fields@[i]))
    } else if let Some(i) = malformed_index(d.fields@, 0) {
        Err(malformed_error(d.fields@[i]))
    } else {
        Ok(
            ImplementationView {
                target: d.name@,
                event_name: snake_case(d.name@),
                attributes: d.fields@.map_values(|f: FieldDeclaration| planned_pair(f)),
            },
        )
    }
}

} // verus!

verus! {

/// A resolved strategy, or its error, as contracts speak of it.
pub open spec fn resolution_view(r: Result<Strategy, GenerationError>) -> Result<StrategyView, GenerationErrorView> {
    match r {
        Ok(s) => Ok(s@),
        Err(e) => Err(e@),
    }
}

/// A plan, or its error, as contracts speak of it.
pub open spec fn plan_view(r: Result<EmittedImplementation, GenerationError>) -> Result<ImplementationView, GenerationErrorView> {
    match r {
        Ok(e) => Ok(e@),
        Err(e) => Err(e@),
    }
}

} // verus!
