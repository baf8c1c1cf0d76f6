use cw_into_event::declaration::{
    Attribute, FieldDeclaration, GenerationError, Shape, Strategy, StructureDeclaration,
};
use cw_into_event::emit::{derive_into_event, render};
use cw_into_event::plan::{plan, resolve_strategy, value_expression_of};
use cw_into_event::text::{copy_from, same_text, to_attribute_key, to_snake_case};

fn attr(name: &str, args: &[&str]) -> Attribute {
    Attribute {
        name: name.to_string(),
        args: args.iter().map(|a| a.to_string()).collect(),
    }
}

fn field(name: &str, attributes: Vec<Attribute>) -> FieldDeclaration {
    FieldDeclaration {
        name: name.to_string(),
        attributes,
    }
}

fn structure(name: &str, fields: Vec<FieldDeclaration>) -> StructureDeclaration {
    StructureDeclaration {
        name: name.to_string(),
        shape: Shape::NamedFields,
        fields,
    }
}

fn my_struct() -> StructureDeclaration {
    structure(
        "MyStruct",
        vec![
            field("string", vec![]),
            field("num", vec![attr("use_to_string", &[])]),
            field(
                "address",
                vec![attr("to_string_fn", &["String", ":", ":", "from"])],
            ),
        ],
    )
}

#[test]
fn end_to_end_my_struct() {
    let code = derive_into_event(&my_struct()).unwrap();
    let expected = "impl Into<cosmwasm_std::Event> for MyStruct {\n    fn into(self) -> cosmwasm_std::Event {\n        cosmwasm_std::Event::new(\"my_struct\")\n            .add_attribute(\"string\", self.string)\n            .add_attribute(\"num\", self.num.to_string())\n            .add_attribute(\"address\", String::from(self.address))\n    }\n}\n";
    assert_eq!(code, expected);
}

#[test]
fn plan_of_my_struct() {
    let e = plan(&my_struct()).unwrap();
    assert_eq!(e.target, "MyStruct");
    assert_eq!(e.event_name, "my_struct");
    assert_eq!(
        e.attributes,
        vec![
            ("string".to_string(), "self.string".to_string()),
            ("num".to_string(), "self.num.to_string()".to_string()),
            ("address".to_string(), "String::from(self.address)".to_string()),
        ]
    );
}

#[test]
fn fields_keep_their_order() {
    let d = structure(
        "Order",
        vec![
            field("zeta", vec![]),
            field("alpha", vec![]),
            field("mid", vec![attr("use_to_string", &[])]),
            field("beta", vec![]),
        ],
    );
    let keys: Vec<String> = plan(&d).unwrap().attributes.into_iter().map(|p| p.0).collect();
    assert_eq!(keys, vec!["zeta", "alpha", "mid", "beta"]);
}

#[test]
fn unrelated_attributes_leave_direct() {
    let f = field("value", vec![attr("serde", &["rename"]), attr("doc", &["\"x\""])]);
    assert_eq!(resolve_strategy(&f), Ok(Strategy::Direct));
    assert_eq!(resolve_strategy(&field("plain", vec![])), Ok(Strategy::Direct));
}

#[test]
fn strategies_of_markers() {
    let f = field("n", vec![attr("use_to_string", &[])]);
    assert_eq!(resolve_strategy(&f), Ok(Strategy::ToStringMethod));
    let g = field("a", vec![attr("to_string_fn", &["crate", ":", ":", "fmt", ":", ":", "show"])]);
    assert_eq!(
        resolve_strategy(&g),
        Ok(Strategy::CustomFunction("crate::fmt::show".to_string()))
    );
}

#[test]
fn both_markers_conflict() {
    let d = structure(
        "Both",
        vec![
            field("ok", vec![]),
            field(
                "both",
                vec![attr("use_to_string", &[]), attr("to_string_fn", &["f"])],
            ),
        ],
    );
    assert_eq!(
        derive_into_event(&d),
        Err(GenerationError::ConflictingFieldStrategy {
            field: "both".to_string(),
            first: "use_to_string".to_string(),
            second: "to_string_fn".to_string(),
        })
    );
}

#[test]
fn conflict_wins_over_an_earlier_malformed_field() {
    let d = structure(
        "Mixed",
        vec![
            field("bad", vec![attr("to_string_fn", &[])]),
            field(
                "twice",
                vec![attr("to_string_fn", &["f"]), attr("to_string_fn", &["g"])],
            ),
        ],
    );
    assert_eq!(
        plan(&d),
        Err(GenerationError::ConflictingFieldStrategy {
            field: "twice".to_string(),
            first: "to_string_fn".to_string(),
            second: "to_string_fn".to_string(),
        })
    );
}

#[test]
fn function_marker_without_argument() {
    let d = structure("NoArg", vec![field("a", vec![attr("to_string_fn", &[])])]);
    assert_eq!(
        plan(&d),
        Err(GenerationError::MalformedAttributeArguments {
            field: "a".to_string(),
            arguments: "".to_string(),
        })
    );
}

#[test]
fn function_marker_with_two_arguments() {
    let d = structure(
        "TwoArgs",
        vec![field("a", vec![]), field("b", vec![attr("to_string_fn", &["f", ",", "g"])])],
    );
    assert_eq!(
        plan(&d),
        Err(GenerationError::MalformedAttributeArguments {
            field: "b".to_string(),
            arguments: "f,g".to_string(),
        })
    );
}

#[test]
fn function_marker_with_a_literal() {
    let d = structure("Lit", vec![field("a", vec![attr("to_string_fn", &["\"f\""])])]);
    assert!(matches!(
        plan(&d),
        Err(GenerationError::MalformedAttributeArguments { .. })
    ));
}

#[test]
fn to_string_marker_with_tokens_is_ignored() {
    let f = field("a", vec![attr("use_to_string", &["x"])]);
    assert_eq!(resolve_strategy(&f), Ok(Strategy::Direct));
    let g = field("b", vec![attr("use_to_string", &["="]), attr("to_string_fn", &["f"])]);
    assert_eq!(
        resolve_strategy(&g),
        Ok(Strategy::CustomFunction("f".to_string()))
    );
    let d = structure("Extra", vec![field("a", vec![attr("use_to_string", &["y"])])]);
    assert_eq!(
        plan(&d).unwrap().attributes,
        vec![("a".to_string(), "self.a".to_string())]
    );
}

#[test]
fn malformed_error_names_the_function_marker_field() {
    let d = structure(
        "Later",
        vec![
            field("early", vec![attr("use_to_string", &["x"])]),
            field("late", vec![attr("to_string_fn", &[])]),
        ],
    );
    assert_eq!(
        plan(&d),
        Err(GenerationError::MalformedAttributeArguments {
            field: "late".to_string(),
            arguments: "".to_string(),
        })
    );
}

#[test]
fn one_leading_underscore_is_stripped() {
    assert_eq!(to_attribute_key("_abc"), "abc");
    let d = structure("Quiet", vec![field("_abc", vec![])]);
    assert_eq!(
        plan(&d).unwrap().attributes,
        vec![("abc".to_string(), "self._abc".to_string())]
    );
}

#[test]
fn two_leading_underscores_are_kept() {
    assert_eq!(to_attribute_key("__abc"), "__abc");
    assert_eq!(to_attribute_key("abc"), "abc");
    assert_eq!(to_attribute_key("_"), "_");
}

#[test]
fn names_become_snake_case() {
    assert_eq!(to_snake_case("MyStruct"), "my_struct");
    assert_eq!(to_snake_case("TransferFundsEvent"), "transfer_funds_event");
    assert_eq!(to_snake_case("Single"), "single");
    assert_eq!(to_snake_case("My_Struct"), "my_struct");
    assert_eq!(to_snake_case("ABC"), "a_b_c");
    assert_eq!(to_snake_case(""), "");
}

#[test]
fn tuple_structure_is_rejected() {
    let d = StructureDeclaration {
        name: "Pair".to_string(),
        shape: Shape::TupleFields,
        fields: vec![],
    };
    assert_eq!(
        derive_into_event(&d),
        Err(GenerationError::UnsupportedStructureShape { item: "Pair".to_string() })
    );
}

#[test]
fn structure_without_fields_is_rejected() {
    let empty = structure("Empty", vec![]);
    assert_eq!(
        plan(&empty),
        Err(GenerationError::UnsupportedStructureShape { item: "Empty".to_string() })
    );
    for shape in [Shape::NoFields, Shape::NotAStruct] {
        let d = StructureDeclaration {
            name: "Other".to_string(),
            shape,
            fields: vec![field("a", vec![])],
        };
        assert_eq!(
            plan(&d),
            Err(GenerationError::UnsupportedStructureShape { item: "Other".to_string() })
        );
    }
}

#[test]
fn generating_twice_gives_the_same_text() {
    let d = my_struct();
    assert_eq!(derive_into_event(&d), derive_into_event(&d.clone()));
}

#[test]
fn render_of_a_plan() {
    let e = plan(&structure("Tiny", vec![field("x", vec![])])).unwrap();
    assert_eq!(
        render(&e),
        "impl Into<cosmwasm_std::Event> for Tiny {\n    fn into(self) -> cosmwasm_std::Event {\n        cosmwasm_std::Event::new(\"tiny\")\n            .add_attribute(\"x\", self.x)\n    }\n}\n"
    );
}

#[test]
fn value_expressions() {
    let name = "v".to_string();
    assert_eq!(value_expression_of(&name, &Strategy::Direct), "self.v");
    assert_eq!(value_expression_of(&name, &Strategy::ToStringMethod), "self.v.to_string()");
    assert_eq!(
        value_expression_of(&name, &Strategy::CustomFunction("f".to_string())),
        "f(self.v)"
    );
}

#[test]
fn text_helpers() {
    assert_eq!(copy_from("abcdef", 2), "cdef");
    assert_eq!(copy_from("abc", 3), "");
    assert!(same_text("to_string_fn", "to_string_fn"));
    assert!(!same_text("to_string_fn", "to_string"));
}

#[test]
fn keywords_are_no_function_path() {
    for word in ["fn", "struct", "match", "extern", "async", "type"] {
        let f = field("a", vec![attr("to_string_fn", &[word])]);
        assert_eq!(
            resolve_strategy(&f),
            Err(GenerationError::MalformedAttributeArguments {
                field: "a".to_string(),
                arguments: word.to_string(),
            })
        );
    }
}

#[test]
fn path_forms_that_are_accepted() {
    let cases: Vec<(Vec<&str>, &str)> = vec![
        (vec!["r#type"], "r#type"),
        (vec![":", ":", "std", ":", ":", "string", ":", ":", "String", ":", ":", "from"], "::std::string::String::from"),
        (vec!["self", ":", ":", "show"], "self::show"),
        (vec!["crate", ":", ":", "fmt", ":", ":", "show"], "crate::fmt::show"),
        (vec!["Self", ":", ":", "render"], "Self::render"),
    ];
    for (tokens, text) in cases {
        let f = field("a", vec![attr("to_string_fn", &tokens)]);
        assert_eq!(resolve_strategy(&f), Ok(Strategy::CustomFunction(text.to_string())));
    }
}

#[test]
fn path_forms_that_are_refused() {
    let cases: Vec<Vec<&str>> = vec![
        vec!["r#self"],
        vec![":", ":"],
        vec!["a", ":", ":"],
        vec!["a", ":", "b"],
        vec!["_"],
        vec!["1f"],
        vec!["Vec", ":", ":", "<", "u8", ">", ":", ":", "new"],
    ];
    for tokens in cases {
        let f = field("a", vec![attr("to_string_fn", &tokens)]);
        assert!(matches!(
            resolve_strategy(&f),
            Err(GenerationError::MalformedAttributeArguments { .. })
        ));
    }
}

#[test]
fn non_ascii_names_become_snake_case() {
    assert_eq!(to_snake_case("MañanaÉté"), "mañana_été");
    assert_eq!(to_snake_case("ÄpfelBirnen"), "äpfel_birnen");
    assert_eq!(to_snake_case("Über_Öl"), "über_öl");
}
