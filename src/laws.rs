use vstd::prelude::*;

use crate::declaration::{
    arguments_fit, conflict_error, conflict_index, field_conflicting, field_malformed,
    is_identifier, is_marker, is_path, is_raw_identifier, is_relative_path, is_segment,
    joined, malformed_error, malformed_index, markers, planned,
    planned_pair, resolution, shape_supported, strategy_of, to_string_fn_name,
    use_to_string_name, Attribute, FieldDeclaration, GenerationErrorView, StrategyView,
    StructureDeclaration,
};
use crate::emit::generated;
use crate::text::{
    attribute_key, lowercase, needs_separator, snake_case, snake_piece, snake_prefix, uppercase,
};

verus! {

proof fn lemma_marker_counted(attrs: Seq<Attribute>, a: int)
    requires
        0 <= a < attrs.len(),
        is_marker(attrs[a]),
    ensures
        markers(attrs).len() >= 1,
    decreases attrs.len(),
{
    if a < attrs.len() - 1 {
        lemma_marker_counted(attrs.drop_last(), a);
    }
}

proof fn lemma_two_markers_counted(attrs: Seq<Attribute>, a: int, b: int)
    requires
        0 <= a < b < attrs.len(),
        is_marker(attrs[a]),
        is_marker(attrs[b]),
    ensures
        markers(attrs).len() >= 2,
    decreases attrs.len(),
{
    if b == attrs.len() - 1 {
        lemma_marker_counted(attrs.drop_last(), a);
    } else {
        lemma_two_markers_counted(attrs.drop_last(), a, b);
    }
}

proof fn lemma_only_marker(attrs: Seq<Attribute>, a: int)
    requires
        0 <= a < attrs.len(),
        is_marker(attrs[a]),
        markers(attrs).len() == 1,
    ensures
        markers(attrs)[0] == attrs[a],
    decreases attrs.len(),
{
    if a < attrs.len() - 1 {
        if is_marker(attrs.last()) {
            lemma_marker_counted(attrs.drop_last(), a);
        } else {
            lemma_only_marker(attrs.drop_last(), a);
        }
    }
}

proof fn lemma_no_markers(attrs: Seq<Attribute>)
    requires
        forall|k: int| 0 <= k < attrs.len() ==> !is_marker(#[trigger] attrs[k]),
    ensures
        markers(attrs).len() == 0,
    decreases attrs.len(),
{
    if attrs.len() > 0 {
        lemma_no_markers(attrs.drop_last());
    }
}

proof fn lemma_conflict_found(fields: Seq<FieldDeclaration>, from: int, i: int)
    requires
        0 <= from <= i < fields.len(),
        field_conflicting(fields[i]),
    ensures
        conflict_index(fields, from) is Some,
    decreases i - from,
{
    if from < i && !field_conflicting(fields[from]) {
        lemma_conflict_found(fields, from + 1, i);
    }
}

proof fn lemma_no_conflict(fields: Seq<FieldDeclaration>, from: int)
    requires
        0 <= from,
        forall|j: int| 0 <= j < fields.len() ==> !field_conflicting(#[trigger] fields[j]),
    ensures
        conflict_index(fields, from) is None,
    decreases fields.len() - from,
{
    if from < fields.len() {
        lemma_no_conflict(fields, from + 1);
    }
}

proof fn lemma_malformed_found(fields: Seq<FieldDeclaration>, from: int, i: int)
    requires
        0 <= from <= i < fields.len(),
        field_malformed(fields[i]),
    ensures
        malformed_index(fields, from) is Some,
    decreases i - from,
{
    if from < i && !field_malformed(fields[from]) {
        lemma_malformed_found(fields, from + 1, i);
    }
}

/// Attributes are planned one per field, in declaration order: the i-th
/// (key, value expression) pair comes from the i-th field.
pub proof fn field_order_preserved(d: StructureDeclaration)
    requires
        planned(d) is Ok,
    ensures
        planned(d)->Ok_0.attributes.len() == d.fields@.len(),
        forall|i: int|
            0 <= i < d.fields@.len() ==> #[trigger] planned(d)->Ok_0.attributes[i] == planned_pair(
                d.fields@[i],
            ) && planned(d)->Ok_0.attributes[i].0 == attribute_key(d.fields@[i].name@),
{
}

/// A field without a strategy annotation is handed over as it is, whatever
/// other annotations it carries.
pub proof fn default_strategy(f: FieldDeclaration)
    requires
        forall|k: int|
            0 <= k < f.attributes@.len() ==> !is_marker(#[trigger] f.attributes@[k]),
    ensures
        resolution(f) == Ok::<StrategyView, GenerationErrorView>(StrategyView::Direct),
{
    lemma_no_markers(f.attributes@);
}

/// A field that carries both the `to_string` marker (without tokens) and the
/// function marker makes generation fail with a conflict, whatever the other
/// fields hold.
pub proof fn both_markers_conflict(d: StructureDeclaration, i: int, a: int, b: int)
    requires
        shape_supported(d),
        0 <= i < d.fields@.len(),
        0 <= a < d.fields@[i].attributes@.len(),
        0 <= b < d.fields@[i].attributes@.len(),
        d.fields@[i].attributes@[a].name@ == use_to_string_name(),
        d.fields@[i].attributes@[a].args@.len() == 0,
        d.fields@[i].attributes@[b].name@ == to_string_fn_name(),
    ensures
        planned(d) matches Err(GenerationErrorView::ConflictingFieldStrategy { .. }),
        generated(d) matches Err(GenerationErrorView::ConflictingFieldStrategy { .. }),
{
    reveal_strlit("use_to_string");
    reveal_strlit("to_string_fn");
    assert(use_to_string_name().len() != to_string_fn_name().len());
    let attrs = d.fields@[i].attributes@;
    if a < b {
        lemma_two_markers_counted(attrs, a, b);
    } else {
        lemma_two_markers_counted(attrs, b, a);
    }
    lemma_conflict_found(d.fields@, 0, i);
}

/// Where no field has conflicting annotations, a function marker with no
/// argument, or with more than one (a comma among its tokens), makes
/// generation fail with malformed arguments.
pub proof fn custom_function_arity(d: StructureDeclaration, i: int, a: int)
    requires
        shape_supported(d),
        forall|j: int| 0 <= j < d.fields@.len() ==> !field_conflicting(#[trigger] d.fields@[j]),
        0 <= i < d.fields@.len(),
        0 <= a < d.fields@[i].attributes@.len(),
        d.fields@[i].attributes@[a].name@ == to_string_fn_name(),
        d.fields@[i].attributes@[a].args@.len() == 0 || exists|t: int|
            0 <= t < d.fields@[i].attributes@[a].args@.len()
                && #[trigger] d.fields@[i].attributes@[a].args@[t]@ == seq![','],
    ensures
        planned(d) matches Err(GenerationErrorView::MalformedAttributeArguments { .. }),
        generated(d) matches Err(GenerationErrorView::MalformedAttributeArguments { .. }),
{
    reveal_strlit("use_to_string");
    reveal_strlit("to_string_fn");
    assert(use_to_string_name().len() != to_string_fn_name().len());
    let f = d.fields@[i];
    let attr = f.attributes@[a];
    lemma_marker_counted(f.attributes@, a);
    assert(!field_conflicting(f));
    lemma_only_marker(f.attributes@, a);
    if attr.args@.len() != 0 {
        let t = choose|t: int| 0 <= t < attr.args@.len() && #[trigger] attr.args@[t]@ == seq![','];
        lemma_comma_breaks_path(attr.args@, t);
        if attr.args@.len() >= 3 && attr.args@[0]@ == seq![':'] && attr.args@[1]@ == seq![':'] {
            if t < 2 {
                assert(attr.args@[t]@[0] != seq![':'][0]);
            } else {
                assert(attr.args@.skip(2)[t - 2] == attr.args@[t]);
                lemma_comma_breaks_path(attr.args@.skip(2), t - 2);
            }
        }
        assert(!is_path(attr.args@));
    }
    assert(!arguments_fit(attr));
    assert(field_malformed(f));
    lemma_no_conflict(d.fields@, 0);
    lemma_malformed_found(d.fields@, 0, i);
}

/// One leading underscore before another character is dropped from the
/// attribute key; a name with two or more leading underscores keeps them all.
pub proof fn underscore_stripping(name: Seq<char>)
    ensures
        name.len() >= 2 && name[0] == '_' && name[1] != '_' ==> attribute_key(name)
            == name.drop_first(),
        name.len() >= 2 && name[0] == '_' && name[1] == '_' ==> attribute_key(name) == name,
{
}

/// A structure that has no named field, or whose fields are positional, is
/// rejected with its name.
pub proof fn shape_rejection(d: StructureDeclaration)
    requires
        d.fields@.len() == 0 || d.shape is TupleFields,
    ensures
        generated(d) == Err::<Seq<char>, GenerationErrorView>(
            GenerationErrorView::UnsupportedStructureShape { item: d.name@ },
        ),
{
}

/// A word in upper camel case: an upper-case character, then no upper-case
/// character, and no underscore anywhere.
pub open spec fn is_capitalized_word(w: Seq<char>) -> bool {
    &&& w.len() >= 1
    &&& uppercase(w[0])
    &&& forall|k: int| 1 <= k < w.len() ==> !uppercase(#[trigger] w[k])
    &&& forall|k: int| 0 <= k < w.len() ==> #[trigger] w[k] != '_'
}

/// The words written one after the other.
pub open spec fn concat_words(ws: Seq<Seq<char>>) -> Seq<char>
    decreases ws.len(),
{
    if ws.len() == 0 {
        Seq::empty()
    } else {
        concat_words(ws.drop_last()) + ws.last()
    }
}

/// The lower-case mappings of the word's characters, one after the other.
pub open spec fn lowered(w: Seq<char>) -> Seq<char>
    decreases w.len(),
{
    if w.len() == 0 {
        Seq::empty()
    } else {
        lowered(w.drop_last()) + lowercase(w.last())
    }
}

/// The words lower-cased and joined by underscores.
pub open spec fn joined_lower(ws: Seq<Seq<char>>) -> Seq<char>
    decreases ws.len(),
{
    if ws.len() == 0 {
        Seq::empty()
    } else if ws.len() == 1 {
        lowered(ws[0])
    } else {
        joined_lower(ws.drop_last()) + seq!['_'] + lowered(ws.last())
    }
}

proof fn lemma_snake_prefix_agree(s: Seq<char>, t: Seq<char>, n: int)
    requires
        0 <= n <= s.len(),
        n <= t.len(),
        forall|j: int| 0 <= j < n ==> s[j] == t[j],
    ensures
        snake_prefix(s, n) == snake_prefix(t, n),
    decreases n,
{
    if n > 0 {
        lemma_snake_prefix_agree(s, t, n - 1);
        assert(snake_piece(s, n - 1) == snake_piece(t, n - 1));
    }
}

proof fn lemma_snake_word(w: Seq<char>, j: int)
    requires
        is_capitalized_word(w),
        0 <= j <= w.len(),
    ensures
        snake_prefix(w, j) == lowered(w.take(j)),
    decreases j,
{
    if j > 0 {
        lemma_snake_word(w, j - 1);
        assert(!needs_separator(w, j - 1));
        assert(w.take(j).drop_last() =~= w.take(j - 1));
    } else {
        assert(w.take(0) =~= Seq::<char>::empty());
    }
}

proof fn lemma_snake_after(a: Seq<char>, w: Seq<char>, j: int)
    requires
        a.len() >= 1,
        a.last() != '_',
        is_capitalized_word(w),
        1 <= j <= w.len(),
    ensures
        snake_prefix(a + w, a.len() + j) == snake_case(a) + seq!['_'] + lowered(w.take(j)),
    decreases j,
{
    let s = a + w;
    if j == 1 {
        lemma_snake_prefix_agree(s, a, a.len() as int);
        assert(needs_separator(s, a.len() as int));
        assert(w.take(1).drop_last() =~= Seq::<char>::empty());
        assert(w.take(1).last() == w[0]);
        assert(lowered(Seq::<char>::empty()) == Seq::<char>::empty());
        assert(lowered(w.take(1)) =~= lowercase(w[0]));
        assert(snake_case(a) + seq!['_'] + lowered(w.take(j)) =~= snake_case(a) + (seq!['_']
            + lowercase(w[0])));
    } else {
        lemma_snake_after(a, w, j - 1);
        assert(!needs_separator(s, a.len() + j - 1));
        assert(w.take(j).drop_last() =~= w.take(j - 1));
        assert(snake_case(a) + seq!['_'] + lowered(w.take(j)) =~= snake_case(a) + seq!['_']
            + lowered(w.take(j - 1)) + lowercase(w[j - 1]));
    }
}

/// A name made of capitalized words becomes those words lower-cased and joined
/// by underscores (`MyStruct` becomes `my_struct`).
pub proof fn name_casing(ws: Seq<Seq<char>>)
    requires
        forall|i: int| 0 <= i < ws.len() ==> is_capitalized_word(#[trigger] ws[i]),
    ensures
        snake_case(concat_words(ws)) == joined_lower(ws),
    decreases ws.len(),
{
    if ws.len() == 1 {
        let w = ws[0];
        assert(ws.drop_last().len() == 0);
        assert(concat_words(ws.drop_last()) == Seq::<char>::empty());
        assert(ws.last() == w);
        assert(concat_words(ws) =~= w);
        lemma_snake_word(w, w.len() as int);
        assert(w.take(w.len() as int) =~= w);
    } else if ws.len() >= 2 {
        let rest = ws.drop_last();
        let w = ws.last();
        assert(is_capitalized_word(w));
        assert(is_capitalized_word(ws[ws.len() - 2]));
        name_casing(rest);
        let a = concat_words(rest);
        let v = rest.last();
        assert(rest[rest.len() - 1] == v);
        assert(is_capitalized_word(v));
        assert(a.last() == v.last());
        if v.len() > 1 {
            assert(v.last() == v[v.len() - 1]);
        }
        lemma_snake_after(a, w, w.len() as int);
        assert(w.take(w.len() as int) =~= w);
    } else {
        assert(concat_words(ws) =~= Seq::<char>::empty());
    }
}

/// Two token lists that read the same.
pub open spec fn same_tokens(a: Seq<String>, b: Seq<String>) -> bool {
    a.len() == b.len() && forall|t: int| 0 <= t < a.len() ==> #[trigger] a[t]@ == b[t]@
}

/// Two annotations with the same name and the same tokens.
pub open spec fn same_attribute(a: Attribute, b: Attribute) -> bool {
    a.name@ == b.name@ && same_tokens(a.args@, b.args@)
}

/// Two annotation lists that match one by one.
pub open spec fn same_attributes(a: Seq<Attribute>, b: Seq<Attribute>) -> bool {
    a.len() == b.len() && forall|k: int| 0 <= k < a.len() ==> same_attribute(#[trigger] a[k], b[k])
}

/// Two fields with the same name and the same annotations.
pub open spec fn same_field(f: FieldDeclaration, g: FieldDeclaration) -> bool {
    f.name@ == g.name@ && same_attributes(f.attributes@, g.attributes@)
}

/// Two declarations written the same: equal names, shape, fields and annotations.
pub open spec fn same_declaration(d: StructureDeclaration, e: StructureDeclaration) -> bool {
    &&& d.name@ == e.name@
    &&& d.shape == e.shape
    &&& d.fields@.len() == e.fields@.len()
    &&& forall|i: int| 0 <= i < d.fields@.len() ==> same_field(#[trigger] d.fields@[i], e.fields@[i])
}

proof fn lemma_markers_same(a: Seq<Attribute>, b: Seq<Attribute>)
    requires
        same_attributes(a, b),
    ensures
        same_attributes(markers(a), markers(b)),
    decreases a.len(),
{
    if a.len() > 0 {
        assert(same_attribute(a[a.len() - 1], b[b.len() - 1]));
        assert(same_attributes(a.drop_last(), b.drop_last())) by {
            assert forall|k: int| 0 <= k < a.drop_last().len() implies same_attribute(
                #[trigger] a.drop_last()[k],
                b.drop_last()[k],
            ) by {
                assert(same_attribute(a[k], b[k]));
            }
        }
        lemma_markers_same(a.drop_last(), b.drop_last());
        let ma = markers(a.drop_last());
        let mb = markers(b.drop_last());
        if is_marker(a.last()) {
            assert forall|k: int| 0 <= k < markers(a).len() implies same_attribute(
                #[trigger] markers(a)[k],
                markers(b)[k],
            ) by {
                if k < ma.len() {
                    assert(same_attribute(ma[k], mb[k]));
                }
            }
        }
    }
}

proof fn lemma_joined_same(a: Seq<String>, b: Seq<String>)
    requires
        same_tokens(a, b),
    ensures
        joined(a) == joined(b),
    decreases a.len(),
{
    if a.len() > 0 {
        assert(a.last()@ == b.last()@);
        assert(same_tokens(a.drop_last(), b.drop_last())) by {
            assert forall|t: int| 0 <= t < a.drop_last().len() implies #[trigger] a.drop_last()[t]@
                == b.drop_last()[t]@ by {
                assert(a[t]@ == b[t]@);
            }
        }
        lemma_joined_same(a.drop_last(), b.drop_last());
    }
}

proof fn lemma_relative_same(a: Seq<String>, b: Seq<String>)
    requires
        same_tokens(a, b),
    ensures
        is_relative_path(a) == is_relative_path(b),
{
    if is_relative_path(a) {
        assert forall|i: int| 0 <= i < b.len() implies if i % 3 == 0 {
            is_segment(#[trigger] b[i]@)
        } else {
            b[i]@ == seq![':']
        } by {
            assert(a[i]@ == b[i]@);
        }
    }
    if is_relative_path(b) {
        assert forall|i: int| 0 <= i < a.len() implies if i % 3 == 0 {
            is_segment(#[trigger] a[i]@)
        } else {
            a[i]@ == seq![':']
        } by {
            assert(a[i]@ == b[i]@);
        }
    }
}

proof fn lemma_attribute_same(a: Attribute, b: Attribute)
    requires
        same_attribute(a, b),
    ensures
        arguments_fit(a) == arguments_fit(b),
        joined(a.args@) == joined(b.args@),
{
    let x = a.args@;
    let y = b.args@;
    lemma_joined_same(x, y);
    lemma_relative_same(x, y);
    if x.len() >= 3 {
        assert(x[0]@ == y[0]@);
        assert(x[1]@ == y[1]@);
        assert(same_tokens(x.skip(2), y.skip(2))) by {
            assert forall|t: int| 0 <= t < x.skip(2).len() implies #[trigger] x.skip(2)[t]@
                == y.skip(2)[t]@ by {
                assert(x[t + 2]@ == y[t + 2]@);
            }
        }
        lemma_relative_same(x.skip(2), y.skip(2));
    }
}

/// A comma token stops a token list from spelling a path without a leading `::`.
proof fn lemma_comma_breaks_path(tokens: Seq<String>, t: int)
    requires
        0 <= t < tokens.len(),
        tokens[t]@ == seq![','],
    ensures
        !is_relative_path(tokens),
{
    if t % 3 == 0 {
        assert(!is_identifier(tokens[t]@));
        assert(!is_raw_identifier(tokens[t]@));
        assert(!is_segment(tokens[t]@));
    } else {
        assert(tokens[t]@[0] != seq![':'][0]);
    }
}

proof fn lemma_field_same(f: FieldDeclaration, g: FieldDeclaration)
    requires
        same_field(f, g),
    ensures
        field_conflicting(f) == field_conflicting(g),
        field_malformed(f) == field_malformed(g),
        field_conflicting(f) ==> conflict_error(f) == conflict_error(g),
        field_malformed(f) ==> malformed_error(f) == malformed_error(g),
        !field_conflicting(f) && !field_malformed(f) ==> planned_pair(f) == planned_pair(g),
{
    let ma = markers(f.attributes@);
    let mb = markers(g.attributes@);
    lemma_markers_same(f.attributes@, g.attributes@);
    if ma.len() >= 1 {
        assert(same_attribute(ma[0], mb[0]));
        lemma_attribute_same(ma[0], mb[0]);
    }
    if ma.len() >= 2 {
        assert(same_attribute(ma[1], mb[1]));
    }
    if !field_conflicting(f) && !field_malformed(f) {
        assert(strategy_of(f) == strategy_of(g));
    }
}

proof fn lemma_indices_same(d: StructureDeclaration, e: StructureDeclaration, from: int)
    requires
        same_declaration(d, e),
        0 <= from,
    ensures
        conflict_index(d.fields@, from) == conflict_index(e.fields@, from),
        malformed_index(d.fields@, from) == malformed_index(e.fields@, from),
    decreases d.fields@.len() - from,
{
    if from < d.fields@.len() {
        lemma_field_same(d.fields@[from], e.fields@[from]);
        lemma_indices_same(d, e, from + 1);
    }
}

/// Generation has no hidden inputs: two declarations written the same give
/// the same code, or the same error.
pub proof fn generation_deterministic(d: StructureDeclaration, e: StructureDeclaration)
    requires
        same_declaration(d, e),
    ensures
        generated(d) == generated(e),
        planned(d) == planned(e),
{
    lemma_indices_same(d, e, 0);
    if shape_supported(d) {
        if let Some(i) = conflict_index(d.fields@, 0) {
            lemma_conflict_in_range(d.fields@, 0);
            lemma_field_same(d.fields@[i], e.fields@[i]);
        } else if let Some(i) = malformed_index(d.fields@, 0) {
            lemma_malformed_in_range(d.fields@, 0);
            lemma_field_same(d.fields@[i], e.fields@[i]);
        } else {
            assert forall|i: int| 0 <= i < d.fields@.len() implies planned_pair(
                #[trigger] d.fields@[i],
            ) == planned_pair(e.fields@[i]) by {
                lemma_field_same(d.fields@[i], e.fields@[i]);
                lemma_none_means_clear(d.fields@, 0, i);
            }
            assert(d.fields@.map_values(|f: FieldDeclaration| planned_pair(f))
                =~= e.fields@.map_values(|f: FieldDeclaration| planned_pair(f)));
        }
    }
}

proof fn lemma_conflict_in_range(fields: Seq<FieldDeclaration>, from: int)
    requires
        0 <= from,
        conflict_index(fields, from) is Some,
    ensures
        from <= conflict_index(fields, from)->0 < fields.len(),
        field_conflicting(fields[conflict_index(fields, from)->0]),
    decreases fields.len() - from,
{
    if from < fields.len() && !field_conflicting(fields[from]) {
        lemma_conflict_in_range(fields, from + 1);
    }
}

proof fn lemma_malformed_in_range(fields: Seq<FieldDeclaration>, from: int)
    requires
        0 <= from,
        malformed_index(fields, from) is Some,
    ensures
        from <= malformed_index(fields, from)->0 < fields.len(),
        field_malformed(fields[malformed_index(fields, from)->0]),
    decreases fields.len() - from,
{
    if from < fields.len() && !field_malformed(fields[from]) {
        lemma_malformed_in_range(fields, from + 1);
    }
}

proof fn lemma_none_means_clear(fields: Seq<FieldDeclaration>, from: int, i: int)
    requires
        0 <= from <= i < fields.len(),
        conflict_index(fields, from) is None,
        malformed_index(fields, from) is None,
    ensures
        !field_conflicting(fields[i]),
        !field_malformed(fields[i]),
    decreases i - from,
{
    if from < i {
        lemma_none_means_clear(fields, from + 1, i);
    }
}

} // verus!
