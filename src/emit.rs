use vstd::prelude::*;

use crate::declaration::{
    plan_view, planned, EmittedImplementation, GenerationError, GenerationErrorView,
    ImplementationView, StructureDeclaration,
};
use crate::plan::plan;

verus! {

/// One link of the chain: `.add_attribute("key", value)` on a line of its own.
pub open spec fn attribute_line(p: (Seq<char>, Seq<char>)) -> Seq<char> {
    "\n            .add_attribute(\""@ + p.0 + "\", "@ + p.1 + ")"@
}

/// The links of the chain for each pair, in order.
pub open spec fn attribute_lines(a: Seq<(Seq<char>, Seq<char>)>) -> Seq<char>
    decreases a.len(),
{
    if a.len() == 0 {
        Seq::empty()
    } else {
        attribute_lines(a.drop_last()) + attribute_line(a.last())
    }
}

/// The source text of a planned conversion: an `Into<cosmwasm_std::Event>` impl
/// whose method starts an event with the planned name and adds one attribute
/// per pair.
pub open spec fn code_text(v: ImplementationView) -> Seq<char> {
    "impl Into<cosmwasm_std::Event> for "@ + v.target
        + " {\n    fn into(self) -> cosmwasm_std::Event {\n        cosmwasm_std::Event::new(\""@
        + v.event_name + "\")"@ + attribute_lines(v.attributes) + "\n    }\n}\n"@
}

/// What generation gives for a declaration: the code of its plan, or the
/// planning error.
pub open spec fn generated(d: StructureDeclaration) -> Result<Seq<char>, GenerationErrorView> {
    match planned(d) {
        Ok(v) => Ok(code_text(v)),
        Err(e) => Err(e),
    }
}

/// Generated code, or its error, as contracts speak of it.
pub open spec fn generation_view(r: Result<String, GenerationError>) -> Result<Seq<char>, GenerationErrorView> {
    match r {
        Ok(s) => Ok(s@),
        Err(e) => Err(e@),
    }
}

/// Writes out a planned conversion as source text.
pub fn render(e: &EmittedImplementation) -> (r: String)
    ensures
        r@ == code_text(e@),
{
    let mut r = String::new();
    r.append("impl Into<cosmwasm_std::Event> for ");
    r.append(e.target.as_str());
    r.append(" {\n    fn into(self) -> cosmwasm_std::Event {\n        cosmwasm_std::Event::new(\"");
    r.append(e.event_name.as_str());
    r.append("\")");
    let ghost head = r@;
    let ghost pairs = e@.attributes;
    let mut i: usize = 0;
    while i < e.attributes.len()
        invariant
            i <= e.attributes@.len(),
            pairs == e@.attributes,
            r@ == head + attribute_lines(pairs.take(i as int)),
        decreases e.attributes.len() - i,
    {
        assert(pairs.take(i + 1).drop_last() =~= pairs.take(i as int));
        let p = &e.attributes[i];
        r.append("\n            .add_attribute(\"");
        r.append(p.0.as_str());
        r.append("\", ");
        r.append(p.1.as_str());
        r.append(")");
        assert(r@ =~= head + attribute_lines(pairs.take(i + 1)));
        i = i + 1;
    }
    assert(pairs.take(pairs.len() as int) =~= pairs);
    r.append("\n    }\n}\n");
    assert(r@ =~= code_text(e@));
    r
}

/// Generates the `Into<cosmwasm_std::Event>` impl of a structure, or tells why
/// none can be generated.
pub fn derive_into_event(d: &StructureDeclaration) -> (r: Result<String, GenerationError>)
    ensures
        generation_view(r) == generated(*d),
{
    match plan(d) {
        Ok(e) => Ok(render(&e)),
        Err(e) => Err(e),
    }
}

} // verus!
