use std::cmp::Ordering;

use rune::module::{ContextError, Fields, Module, Protocol};
use rune::modules::cmp::{max, min, module, same_ordering, Builtin};

fn compare(a: i64, b: i64) -> Result<Ordering, String> {
    Ok(a.cmp(&b))
}

#[test]
fn max_picks_the_greater_value() {
    assert_eq!(max(1, 2, compare(1, 2)), Ok(2));
    assert_eq!(max(2, 1, compare(2, 1)), Ok(2));
    assert_eq!(max(2, 2, compare(2, 2)), Ok(2));
}

#[test]
fn min_picks_the_smaller_value() {
    assert_eq!(min(1, 2, compare(1, 2)), Ok(1));
    assert_eq!(min(2, 1, compare(2, 1)), Ok(1));
    assert_eq!(min(2, 2, compare(2, 2)), Ok(2));
}

#[test]
fn max_returns_the_second_of_two_equal_values() {
    let picked: Result<&str, String> = max("first", "second", Ok(Ordering::Equal));
    assert_eq!(picked, Ok("second"));
    let picked: Result<&str, String> = max("first", "second", Ok(Ordering::Less));
    assert_eq!(picked, Ok("second"));
    let picked: Result<&str, String> = max("first", "second", Ok(Ordering::Greater));
    assert_eq!(picked, Ok("first"));
}

#[test]
fn min_returns_the_first_of_two_equal_values() {
    let picked: Result<&str, String> = min("first", "second", Ok(Ordering::Equal));
    assert_eq!(picked, Ok("first"));
    let picked: Result<&str, String> = min("first", "second", Ok(Ordering::Less));
    assert_eq!(picked, Ok("first"));
    let picked: Result<&str, String> = min("first", "second", Ok(Ordering::Greater));
    assert_eq!(picked, Ok("second"));
}

#[test]
fn failed_comparison_fails_the_selection() {
    let failed: Result<Ordering, String> = Err("cannot compare".to_string());
    assert_eq!(max(1, 2, failed.clone()), Err("cannot compare".to_string()));
    assert_eq!(min(1, 2, failed), Err("cannot compare".to_string()));
}

#[test]
fn same_ordering_is_equality() {
    let all = [Ordering::Less, Ordering::Equal, Ordering::Greater];
    for lhs in all {
        for rhs in all {
            assert_eq!(same_ordering(lhs, rhs), lhs == rhs);
        }
    }
}

#[test]
fn constructors_make_their_outcome() {
    assert_eq!(Builtin::Less.make(), Some(Ordering::Less));
    assert_eq!(Builtin::Equal.make(), Some(Ordering::Equal));
    assert_eq!(Builtin::Greater.make(), Some(Ordering::Greater));
    assert_eq!(Builtin::Eq.make(), None);
    assert_eq!(Builtin::PartialEq.make(), None);
    assert_eq!(Builtin::Min.make(), None);
    assert_eq!(Builtin::Max.make(), None);
}

#[test]
fn equality_handlers_test_outcomes() {
    assert_eq!(Builtin::Eq.test(Ordering::Less, Ordering::Less), Some(true));
    assert_eq!(Builtin::Eq.test(Ordering::Less, Ordering::Greater), Some(false));
    assert_eq!(Builtin::PartialEq.test(Ordering::Equal, Ordering::Equal), Some(true));
    assert_eq!(Builtin::PartialEq.test(Ordering::Equal, Ordering::Less), Some(false));
    assert_eq!(Builtin::Min.test(Ordering::Equal, Ordering::Equal), None);
    assert_eq!(Builtin::Less.test(Ordering::Less, Ordering::Less), None);
}

#[test]
fn selecting_handlers_run_min_and_max() {
    assert_eq!(Builtin::Min.select(3, 4, compare(3, 4)), Some(Ok(3)));
    assert_eq!(Builtin::Max.select(3, 4, compare(3, 4)), Some(Ok(4)));
    assert_eq!(Builtin::Max.select(4, 3, compare(4, 3)), Some(Ok(4)));
    assert_eq!(Builtin::Eq.select(3, 4, compare(3, 4)), None);
    assert_eq!(Builtin::Greater.select(3, 4, compare(3, 4)), None);
}

#[test]
fn std_cmp_lists_its_items() {
    let m = module().unwrap();
    assert_eq!(m.krate(), "std");
    assert_eq!(m.path(), &vec!["cmp".to_string()]);
    let types = m.types();
    assert_eq!(types.len(), 1);
    assert_eq!(types[0].name, "Ordering");
    assert!(types[0].is_enum);
    assert_eq!(
        types[0].docs,
        vec![
            "An `Ordering` is the result of a comparison between two values.",
            "",
            "# Examples",
            "",
            "```",
            "use std::cmp::Ordering;",
            "",
            "let result = 1.cmp(2);",
            "assert_eq!(Ordering::Less, result);",
            "",
            "let result = 1.cmp(1);",
            "assert_eq!(Ordering::Equal, result);",
            "",
            "let result = 2.cmp(1);",
            "assert_eq!(Ordering::Greater, result);",
            "```",
        ]
    );

    let variants = m.variants();
    assert_eq!(variants.len(), 3);
    let expected = [
        ("Less", Builtin::Less, "An ordering where a compared value is less than another."),
        ("Equal", Builtin::Equal, "An ordering where a compared value is equal to another."),
        ("Greater", Builtin::Greater, "An ordering where a compared value is greater than another."),
    ];
    for (variant, (name, constructor, docs)) in variants.iter().zip(expected) {
        assert_eq!(variant.ty, "Ordering");
        assert_eq!(variant.name, name);
        assert_eq!(variant.fields, Fields::Empty);
        assert_eq!(variant.constructor, constructor);
        assert_eq!(variant.docs, vec![docs]);
    }

    let protocols = m.instance_functions();
    assert_eq!(protocols.len(), 2);
    assert_eq!(protocols[0].ty, "Ordering");
    assert_eq!(protocols[0].protocol, Protocol::PartialEq);
    assert_eq!(protocols[0].handler, Builtin::PartialEq);
    assert_eq!(protocols[1].ty, "Ordering");
    assert_eq!(protocols[1].protocol, Protocol::Eq);
    assert_eq!(protocols[1].handler, Builtin::Eq);

    let functions = m.functions();
    assert_eq!(functions.len(), 2);
    assert_eq!(functions[0].name, "min");
    assert_eq!(functions[0].handler, Builtin::Min);
    assert_eq!(
        functions[0].docs,
        vec![
            "Compares and returns the minimum of two values.",
            "",
            "Returns the first argument if the comparison determines them to be equal.",
            "",
            "Internally uses the [`CMP`] protocol.",
            "",
            "# Examples",
            "",
            "```rune",
            "use std::cmp::min;",
            "",
            "assert_eq!(min(1, 2), 1);",
            "assert_eq!(min(2, 2), 2);",
            "```",
        ]
    );
    assert_eq!(functions[1].name, "max");
    assert_eq!(functions[1].handler, Builtin::Max);
    assert_eq!(
        functions[1].docs,
        vec![
            "Compares and returns the maximum of two values.",
            "",
            "Returns the second argument if the comparison determines them to be equal.",
            "",
            "Internally uses the [`CMP`] protocol.",
            "",
            "# Examples",
            "",
            "```rune",
            "use std::cmp::max;",
            "",
            "assert_eq!(max(1, 2), 2);",
            "assert_eq!(max(2, 2), 2);",
            "```",
        ]
    );
}

#[test]
fn std_cmp_functions_behave_as_named() {
    let m = module().unwrap();
    for function in m.functions() {
        let picked = function.handler.select(5, 9, compare(5, 9)).unwrap();
        if function.name == "min" {
            assert_eq!(picked, Ok(5));
        } else {
            assert_eq!(function.name, "max");
            assert_eq!(picked, Ok(9));
        }
    }
    for variant in m.variants() {
        let made = variant.constructor.make().unwrap();
        match variant.name.as_str() {
            "Less" => assert_eq!(made, Ordering::Less),
            "Equal" => assert_eq!(made, Ordering::Equal),
            "Greater" => assert_eq!(made, Ordering::Greater),
            other => panic!("unexpected variant {}", other),
        }
    }
    for function in m.instance_functions() {
        assert_eq!(function.handler.test(Ordering::Less, Ordering::Less), Some(true));
        assert_eq!(function.handler.test(Ordering::Less, Ordering::Equal), Some(false));
    }
}

#[test]
fn new_module_is_empty() {
    let m: Module<u8> = Module::with_crate_item("nonstd", &["a", "b"]);
    assert_eq!(m.krate(), "nonstd");
    assert_eq!(m.path(), &vec!["a".to_string(), "b".to_string()]);
    assert!(m.types().is_empty());
    assert!(m.variants().is_empty());
    assert!(m.instance_functions().is_empty());
    assert!(m.functions().is_empty());
    let m: Module<u8> = Module::with_crate_item("std", &[]);
    assert!(m.path().is_empty());
}

#[test]
fn registering_a_type_twice_conflicts() {
    let mut m: Module<u8> = Module::with_crate_item("std", &["cmp"]);
    m.ty("Ordering", &["first line", "second line"]).unwrap();
    m.ty("Reverse", &[]).unwrap();
    let error = m.ty("Ordering", &["other"]).unwrap_err();
    assert!(matches!(error, ContextError::ConflictingType { name } if name == "Ordering"));
    assert_eq!(m.types().len(), 2);
    assert_eq!(m.types()[0].name, "Ordering");
    assert_eq!(m.types()[0].docs, vec!["first line", "second line"]);
    assert!(!m.types()[0].is_enum);
    assert_eq!(m.types()[1].name, "Reverse");
    assert!(m.types()[1].docs.is_empty());
}

#[test]
fn only_a_registered_type_becomes_an_enum_and_only_once() {
    let mut m: Module<u8> = Module::with_crate_item("std", &["cmp"]);
    let error = m.make_enum("Ordering").unwrap_err();
    assert!(matches!(error, ContextError::MissingType { name } if name == "Ordering"));
    m.ty("Plain", &[]).unwrap();
    m.ty("Ordering", &["docs"]).unwrap();
    m.make_enum("Ordering").unwrap();
    assert!(!m.types()[0].is_enum);
    assert!(m.types()[1].is_enum);
    assert_eq!(m.types()[1].docs, vec!["docs"]);
    let error = m.make_enum("Ordering").unwrap_err();
    assert!(matches!(error, ContextError::ConflictingEnum { name } if name == "Ordering"));
    assert!(m.types()[1].is_enum);
    assert_eq!(m.types().len(), 2);
}

#[test]
fn a_variant_needs_its_enum() {
    let mut m: Module<u8> = Module::with_crate_item("std", &["cmp"]);
    let error = m.variant("Ordering", "Less", Fields::Empty, 1, &[]).unwrap_err();
    assert!(matches!(error, ContextError::MissingEnum { ty } if ty == "Ordering"));
    m.ty("Ordering", &[]).unwrap();
    let error = m.variant("Ordering", "Less", Fields::Empty, 1, &[]).unwrap_err();
    assert!(matches!(error, ContextError::MissingEnum { ty } if ty == "Ordering"));
    assert!(m.variants().is_empty());
    m.make_enum("Ordering").unwrap();
    m.variant("Ordering", "Less", Fields::Unnamed(2), 1, &["a", "b"]).unwrap();
    assert_eq!(m.variants().len(), 1);
    assert_eq!(m.variants()[0].fields, Fields::Unnamed(2));
    assert_eq!(m.variants()[0].docs, vec!["a", "b"]);
}

#[test]
fn registering_a_variant_twice_conflicts() {
    let mut m: Module<u8> = Module::with_crate_item("std", &["cmp"]);
    m.ty("Ordering", &[]).unwrap();
    m.make_enum("Ordering").unwrap();
    m.ty("Other", &[]).unwrap();
    m.make_enum("Other").unwrap();
    m.variant("Ordering", "Less", Fields::Empty, 1, &[]).unwrap();
    m.variant("Ordering", "Equal", Fields::Empty, 2, &[]).unwrap();
    m.variant("Other", "Less", Fields::Empty, 3, &[]).unwrap();
    let error = m.variant("Ordering", "Less", Fields::Empty, 4, &[]).unwrap_err();
    assert!(matches!(
        error,
        ContextError::ConflictingVariant { ty, name } if ty == "Ordering" && name == "Less"
    ));
    assert_eq!(m.variants().len(), 3);
    assert_eq!(m.variants()[0].constructor, 1);
}

#[test]
fn registering_a_protocol_twice_conflicts() {
    let mut m: Module<u8> = Module::with_crate_item("std", &["cmp"]);
    m.associated_function("Ordering", Protocol::Eq, 1).unwrap();
    m.associated_function("Ordering", Protocol::PartialEq, 2).unwrap();
    m.associated_function("Other", Protocol::Eq, 3).unwrap();
    let error = m.associated_function("Ordering", Protocol::Eq, 4).unwrap_err();
    assert!(matches!(
        error,
        ContextError::ConflictingInstanceFunction { ty, protocol }
            if ty == "Ordering" && protocol == Protocol::Eq
    ));
    assert_eq!(m.instance_functions().len(), 3);
    assert_eq!(m.instance_functions()[0].handler, 1);
}

#[test]
fn registering_a_function_twice_conflicts() {
    let mut m: Module<u8> = Module::with_crate_item("std", &["cmp"]);
    m.function("min", 1, &["the smaller one"]).unwrap();
    m.function("max", 2, &[]).unwrap();
    let error = m.function("min", 3, &[]).unwrap_err();
    assert!(matches!(error, ContextError::ConflictingFunctionName { name } if name == "min"));
    assert_eq!(m.functions().len(), 2);
    assert_eq!(m.functions()[0].handler, 1);
    assert_eq!(m.functions()[0].docs, vec!["the smaller one"]);
    m.ty("min", &[]).unwrap();
    m.make_enum("min").unwrap();
    m.variant("min", "min", Fields::Empty, 4, &[]).unwrap();
}
