use vstd::prelude::*;

use crate::declaration::{
    conflict_error, conflict_index, field_conflicting, field_malformed, is_ident_continue,
    is_identifier, is_marker, is_path, is_path_keyword, is_relative_path, is_reserved_word,
    is_segment, joined, malformed_index, markers, plan_view, planned,
    planned_pair, resolution, resolution_view, shape_supported, value_expression, Attribute,
    EmittedImplementation, FieldDeclaration, GenerationError, Shape, Strategy,
    StructureDeclaration,
};
use crate::text::{same_text, to_attribute_key, to_snake_case};

verus! {

/// Whether an annotation is a strategy annotation.
fn is_marker_attribute(a: &Attribute) -> (r: bool)
    ensures
        r == is_marker(*a),
{
    (same_text(a.name.as_str(), "use_to_string") && a.args.len() == 0) || same_text(
        a.name.as_str(),
        "to_string_fn",
    )
}

/// The positions of the strategy annotations among `attrs`, in order.
fn recognized(attrs: &Vec<Attribute>) -> (r: Vec<usize>)
    ensures
        r@.len() == markers(attrs@).len(),
        forall|k: int|
            0 <= k < r@.len() ==> #[trigger] r@[k] < attrs@.len()
                && attrs@[r@[k] as int] == markers(attrs@)[k],
{
    let mut r: Vec<usize> = Vec::new();
    let mut i: usize = 0;
    while i < attrs.len()
        invariant
            i <= attrs@.len(),
            r@.len() == markers(attrs@.take(i as int)).len(),
            forall|k: int|
                0 <= k < r@.len() ==> #[trigger] r@[k] < i
                    && attrs@[r@[k] as int] == markers(attrs@.take(i as int))[k],
        decreases attrs.len() - i,
    {
        assert(attrs@.take(i + 1).drop_last() =~= attrs@.take(i as int));
        assert(attrs@.take(i + 1).last() == attrs@[i as int]);
        let ghost before = r@;
        if is_marker_attribute(&attrs[i]) {
            r.push(i);
            assert(markers(attrs@.take(i + 1)) == markers(attrs@.take(i as int)).push(
                attrs@[i as int],
            ));
            assert forall|k: int| 0 <= k < r@.len() implies r@[k] < i + 1
                && attrs@[r@[k] as int] == markers(attrs@.take(i + 1))[k] by {
                if k < before.len() {
                    assert(r@[k] == before[k]);
                    assert(markers(attrs@.take(i + 1))[k] == markers(attrs@.take(i as int))[k]);
                } else {
                    assert(r@[k] == i);
                }
            }
        } else {
            assert(markers(attrs@.take(i + 1)) == markers(attrs@.take(i as int)));
        }
        i = i + 1;
    }
    assert(attrs@.take(attrs@.len() as int) =~= attrs@);
    r
}

fn is_identifier_text(t: &str) -> (r: bool)
    ensures
        r == is_identifier(t@),
{
    let n = t.unicode_len();
    if n == 0 {
        return false;
    }
    let c = t.get_char(0);
    if !(('a' <= c && c <= 'z') || ('A' <= c && c <= 'Z') || c == '_') {
        return false;
    }
    if n == 1 && c == '_' {
        assert(t@ =~= seq!['_']);
        return false;
    }
    let mut i: usize = 1;
    while i < n
        invariant
            n == t@.len(),
            1 <= i <= n,
            forall|k: int| 1 <= k < i ==> is_ident_continue(#[trigger] t@[k]),
        decreases n - i,
    {
        let c = t.get_char(i);
        if !(('a' <= c && c <= 'z') || ('A' <= c && c <= 'Z') || c == '_' || ('0' <= c && c
            <= '9')) {
            return false;
        }
        i = i + 1;
    }
    true
}

fn is_reserved_text(t: &str) -> (r: bool)
    ensures
        r == is_reserved_word(t@),
{
    same_text(t, "as") || same_text(t, "async") || same_text(t, "await") || same_text(t, "break") || same_text(t, "const") || same_text(t, "continue") || same_text(t, "dyn") || same_text(t, "else") || same_text(t, "enum") || same_text(t, "extern") || same_text(t, "false") || same_text(t, "fn") || same_text(t, "for") || same_text(t, "if") || same_text(t, "impl") || same_text(t, "in") || same_text(t, "let") || same_text(t, "loop") || same_text(t, "match") || same_text(t, "mod") || same_text(t, "move") || same_text(t, "mut") || same_text(t, "pub") || same_text(t, "ref") || same_text(t, "return") || same_text(t, "static") || same_text(t, "struct") || same_text(t, "trait") || same_text(t, "true") || same_text(t, "type") || same_text(t, "unsafe") || same_text(t, "use") || same_text(t, "where") || same_text(t, "while") || same_text(t, "abstract") || same_text(t, "become") || same_text(t, "box") || same_text(t, "do") || same_text(t, "final") || same_text(t, "macro") || same_text(t, "override") || same_text(t, "priv") || same_text(t, "try") || same_text(t, "typeof") || same_text(t, "unsized") || same_text(t, "virtual") || same_text(t, "yield")
}

fn is_path_keyword_text(t: &str) -> (r: bool)
    ensures
        r == is_path_keyword(t@),
{
    same_text(t, "crate") || same_text(t, "self") || same_text(t, "super") || same_text(t, "Self")
}

fn is_segment_text(t: &str) -> (r: bool)
    ensures
        r == is_segment(t@),
{
    if is_identifier_text(t) && !is_reserved_text(t) {
        return true;
    }
    let n = t.unicode_len();
    if n < 3 || t.get_char(0) != 'r' || t.get_char(1) != '#' {
        return false;
    }
    let rest = t.substring_char(2, n);
    assert(rest@ =~= t@.skip(2));
    is_identifier_text(rest) && !is_path_keyword_text(rest)
}

/// Whether the tokens from position `start` on spell a path without a leading `::`.
fn is_relative_path_from(tokens: &Vec<String>, start: usize) -> (r: bool)
    requires
        start <= tokens@.len(),
    ensures
        r == is_relative_path(tokens@.skip(start as int)),
{
    proof {
        reveal_strlit(":");
    }
    let ghost rest = tokens@.skip(start as int);
    let total = tokens.len();
    let m = total - start;
    if m % 3 != 1 {
        return false;
    }
    let mut j: usize = 0;
    while j < m
        invariant
            start <= tokens@.len(),
            m == tokens@.len() - start,
            start + m == total,
            total == tokens@.len(),
            rest == tokens@.skip(start as int),
            m % 3 == 1,
            j <= m,
            ":"@ =~= seq![':'],
            forall|k: int|
                0 <= k < j ==> if k % 3 == 0 {
                    is_segment(#[trigger] rest[k]@)
                } else {
                    rest[k]@ == seq![':']
                },
        decreases m - j,
    {
        let t = tokens[start + j].as_str();
        assert(rest[j as int] == tokens@[start + j]);
        if j % 3 == 0 {
            if !is_segment_text(t) {
                return false;
            }
        } else if !same_text(t, ":") {
            return false;
        }
        j = j + 1;
    }
    true
}

fn is_path_tokens(tokens: &Vec<String>) -> (r: bool)
    ensures
        r == is_path(tokens@),
{
    proof {
        reveal_strlit(":");
    }
    assert(":"@ =~= seq![':']);
    assert(tokens@.skip(0) =~= tokens@);
    if is_relative_path_from(tokens, 0) {
        return true;
    }
    tokens.len() >= 3 && same_text(tokens[0].as_str(), ":") && same_text(tokens[1].as_str(), ":")
        && is_relative_path_from(tokens, 2)
}

fn join_tokens(tokens: &Vec<String>) -> (r: String)
    ensures
        r@ == joined(tokens@),
{
    let mut r = String::new();
    let mut i: usize = 0;
    while i < tokens.len()
        invariant
            i <= tokens@.len(),
            r@ == joined(tokens@.take(i as int)),
        decreases tokens.len() - i,
    {
        assert(tokens@.take(i + 1).drop_last() =~= tokens@.take(i as int));
        r.append(tokens[i].as_str());
        i = i + 1;
    }
    assert(tokens@.take(tokens@.len() as int) =~= tokens@);
    r
}

/// The conflict error of a field, where it has more than one strategy annotation.
fn conflict_of(f: &FieldDeclaration) -> (r: Option<GenerationError>)
    ensures
        r is Some <==> field_conflicting(*f),
        r matches Some(e) ==> e@ == conflict_error(*f),
{
    let idx = recognized(&f.attributes);
    if idx.len() >= 2 {
        Some(
            GenerationError::ConflictingFieldStrategy {
                field: f.name.clone(),
                first: f.attributes[idx[0]].name.clone(),
                second: f.attributes[idx[1]].name.clone(),
            },
        )
    } else {
        None
    }
}

/// The strategy of one field, from its annotations alone: `Direct` without a
/// strategy annotation, else the one annotation's strategy; an error where
/// there are two or more, or where the one is a function marker without
/// exactly one path. Other annotations, `use_to_string` with tokens among
/// them, are ignored.
pub fn resolve_strategy(f: &FieldDeclaration) -> (r: Result<Strategy, GenerationError>)
    ensures
        resolution_view(r) == resolution(*f),
{
    if let Some(e) = conflict_of(f) {
        return Err(e);
    }
    let idx = recognized(&f.attributes);
    if idx.len() == 0 {
        return Ok(Strategy::Direct);
    }
    let a = &f.attributes[idx[0]];
    let fits = same_text(a.name.as_str(), "use_to_string") || is_path_tokens(&a.args);
    if !fits {
        return Err(
            GenerationError::MalformedAttributeArguments {
                field: f.name.clone(),
                arguments: join_tokens(&a.args),
            },
        );
    }
    if same_text(a.name.as_str(), "use_to_string") {
        Ok(Strategy::ToStringMethod)
    } else {
        Ok(Strategy::CustomFunction(join_tokens(&a.args)))
    }
}

/// The expression that gives the string of field `name` under strategy `s`.
pub fn value_expression_of(name: &String, s: &Strategy) -> (r: String)
    ensures
        r@ == value_expression(name@, s@),
{
    let mut r = String::new();
    match s {
        Strategy::Direct => {
            r.append("self.");
            r.append(name.as_str());
        },
        Strategy::ToStringMethod => {
            r.append("self.");
            r.append(name.as_str());
            r.append(".to_string()");
        },
        Strategy::CustomFunction(path) => {
            r.append(path.as_str());
            r.append("(");
            r.append("self.");
            r.append(name.as_str());
            r.append(")");
        },
    }
    assert(r@ =~= value_expression(name@, s@));
    r
}

/// Checks a declaration and plans its conversion: the event's name, and one
/// (key, value expression) pair per field in field order. Fails on an item
/// that is not a structure with named fields, then on the first field with
/// conflicting annotations, then on the first with malformed arguments.
pub fn plan(d: &StructureDeclaration) -> (r: Result<EmittedImplementation, GenerationError>)
    ensures
        plan_view(r) == planned(*d),
{
    let supported = match d.shape {
        Shape::NamedFields => d.fields.len() > 0,
        _ => false,
    };
    if !supported {
        assert(!shape_supported(*d));
        return Err(GenerationError::UnsupportedStructureShape { item: d.name.clone() });
    }
    let n = d.fields.len();
    let mut i: usize = 0;
    while i < n
        invariant
            n == d.fields@.len(),
            i <= n,
            shape_supported(*d),
            conflict_index(d.fields@, 0) == conflict_index(d.fields@, i as int),
        decreases n - i,
    {
        if let Some(e) = conflict_of(&d.fields[i]) {
            assert(conflict_index(d.fields@, i as int) == Some(i as int));
            return Err(e);
        }
        i = i + 1;
    }
    let mut out: Vec<(String, String)> = Vec::new();
    let mut i: usize = 0;
    while i < n
        invariant
            n == d.fields@.len(),
            i <= n,
            shape_supported(*d),
            conflict_index(d.fields@, 0) is None,
            malformed_index(d.fields@, 0) == malformed_index(d.fields@, i as int),
            out@.len() == i,
            forall|k: int|
                0 <= k < i ==> (#[trigger] out@[k]).0@ == planned_pair(d.fields@[k]).0
                    && out@[k].1@ == planned_pair(d.fields@[k]).1,
        decreases n - i,
    {
        let f = &d.fields[i];
        proof {
            lemma_no_conflict_at(d.fields@, 0, i as int);
        }
        match resolve_strategy(f) {
            Err(e) => {
                assert(field_malformed(d.fields@[i as int]));
                assert(malformed_index(d.fields@, i as int) == Some(i as int));
                return Err(e);
            },
            Ok(s) => {
                let key = to_attribute_key(f.name.as_str());
                let value = value_expression_of(&f.name, &s);
                out.push((key, value));
            },
        }
        i = i + 1;
    }
    let r = EmittedImplementation {
        target: d.name.clone(),
        event_name: to_snake_case(d.name.as_str()),
        attributes: out,
    };
    assert(r@.attributes =~= d.fields@.map_values(|f: FieldDeclaration| planned_pair(f)));
    Ok(r)
}

proof fn lemma_no_conflict_at(fields: Seq<FieldDeclaration>, from: int, i: int)
    requires
        0 <= from <= i < fields.len(),
        conflict_index(fields, from) is None,
    ensures
        !field_conflicting(fields[i]),
    decreases i - from,
{
    if from < i {
        lemma_no_conflict_at(fields, from + 1, i);
    }
}

} // verus!
