//! The `std::cmp` module.

use vstd::prelude::*;
use core::cmp::Ordering;
use crate::module::{
    lemma_type_at, lines_of, ContextError, Fields, FunctionView, Module, ModuleView, Protocol,
    TypeView, VariantView,
};

verus! {

/// What stands behind a name of the `std::cmp` module.
#[derive(Clone, Copy, Debug, PartialEq, Eq, Structural)]
pub enum Builtin {
    /// Makes the outcome of a comparison in which the first value is less.
    Less,
    /// Makes the outcome of a comparison of two equal values.
    Equal,
    /// Makes the outcome of a comparison in which the first value is greater.
    Greater,
    /// Tests two outcomes for equality, see [`Builtin::test`].
    PartialEq,
    /// Tests two outcomes for equality, see [`Builtin::test`].
    Eq,
    /// Picks the smaller of two values, see [`min`].
    Min,
    /// Picks the greater of two values, see [`max`].
    Max,
}

impl Builtin {
    /// The outcome that a constructor makes, for the handlers that are
    /// constructors.
    pub open spec fn made(self) -> Option<Ordering> {
        match self {
            Builtin::Less => Some(Ordering::Less),
            Builtin::Equal => Some(Ordering::Equal),
            Builtin::Greater => Some(Ordering::Greater),
            _ => None,
        }
    }

    /// Runs a constructor: the outcome it makes, or nothing for a handler
    /// that is no constructor.
    pub fn make(self) -> (outcome: Option<Ordering>)
        ensures
            outcome == self.made(),
    {
        match self {
            Builtin::Less => Some(Ordering::Less),
            Builtin::Equal => Some(Ordering::Equal),
            Builtin::Greater => Some(Ordering::Greater),
            _ => None,
        }
    }

    /// Runs an equality handler: whether the two outcomes are the same, or
    /// nothing for a handler that tests nothing.
    pub fn test(self, lhs: Ordering, rhs: Ordering) -> (same: Option<bool>)
        ensures
            same == match self {
                Builtin::PartialEq | Builtin::Eq => Some(lhs == rhs),
                _ => None,
            },
    {
        match self {
            Builtin::PartialEq | Builtin::Eq => Some(same_ordering(lhs, rhs)),
            _ => None,
        }
    }

    /// Runs a selecting handler on two values and the outcome of comparing
    /// the first with the second, or nothing for a handler that selects
    /// nothing.
    pub fn select<V, E>(self, v1: V, v2: V, compared: Result<Ordering, E>) -> (picked: Option<
        Result<V, E>,
    >)
        ensures
            picked == match self {
                Builtin::Min => Some(min_of(v1, v2, compared)),
                Builtin::Max => Some(max_of(v1, v2, compared)),
                _ => None,
            },
    {
        match self {
            Builtin::Min => Some(min(v1, v2, compared)),
            Builtin::Max => Some(max(v1, v2, compared)),
            _ => None,
        }
    }
}

/// Whether two outcomes of a comparison are the same.
pub fn same_ordering(lhs: Ordering, rhs: Ordering) -> (same: bool)
    ensures
        same == (lhs == rhs),
{
    match (lhs, rhs) {
        (Ordering::Less, Ordering::Less) => true,
        (Ordering::Equal, Ordering::Equal) => true,
        (Ordering::Greater, Ordering::Greater) => true,
        _ => false,
    }
}

/// The greater of two values, given how the first compares with the second:
/// the second one unless the first is greater. A comparison that failed
/// fails the selection in the same way.
pub open spec fn max_of<V, E>(v1: V, v2: V, compared: Result<Ordering, E>) -> Result<V, E> {
    match compared {
        Ok(Ordering::Less) | Ok(Ordering::Equal) => Ok(v2),
        Ok(Ordering::Greater) => Ok(v1),
        Err(error) => Err(error),
    }
}

/// The smaller of two values, given how the first compares with the second:
/// the first one unless it is greater. A comparison that failed fails the
/// selection in the same way.
pub open spec fn min_of<V, E>(v1: V, v2: V, compared: Result<Ordering, E>) -> Result<V, E> {
    match compared {
        Ok(Ordering::Less) | Ok(Ordering::Equal) => Ok(v1),
        Ok(Ordering::Greater) => Ok(v2),
        Err(error) => Err(error),
    }
}

/// Compares and returns the maximum of two values.
///
/// Returns the second argument if the comparison determines them to be equal.
///
/// `compared` is the outcome of comparing `v1` with `v2`, which the caller
/// obtains from the runtime.
pub fn max<V, E>(v1: V, v2: V, compared: Result<Ordering, E>) -> (greater: Result<V, E>)
    ensures
        greater == max_of(v1, v2, compared),
{
    match compared {
        Ok(Ordering::Less) | Ok(Ordering::Equal) => Ok(v2),
        Ok(Ordering::Greater) => Ok(v1),
        Err(error) => Err(error),
    }
}

/// Compares and returns the minimum of two values.
///
/// Returns the first argument if the comparison determines them to be equal.
///
/// `compared` is the outcome of comparing `v1` with `v2`, which the caller
/// obtains from the runtime.
pub fn min<V, E>(v1: V, v2: V, compared: Result<Ordering, E>) -> (smaller: Result<V, E>)
    ensures
        smaller == min_of(v1, v2, compared),
{
    match compared {
        Ok(Ordering::Less) | Ok(Ordering::Equal) => Ok(v1),
        Ok(Ordering::Greater) => Ok(v2),
        Err(error) => Err(error),
    }
}

/// The documentation of the enum of outcomes.
pub open spec fn outcome_docs() -> Seq<Seq<char>> {
    seq![
        "An `Ordering` is the result of a comparison between two values."@,
        ""@,
        "# Examples"@,
        ""@,
        "```"@,
        "use std::cmp::Ordering;"@,
        ""@,
        "let result = 1.cmp(2);"@,
        "assert_eq!(Ordering::Less, result);"@,
        ""@,
        "let result = 1.cmp(1);"@,
        "assert_eq!(Ordering::Equal, result);"@,
        ""@,
        "let result = 2.cmp(1);"@,
        "assert_eq!(Ordering::Greater, result);"@,
        "```"@,
    ]
}

/// The documentation of `min`.
pub open spec fn min_docs() -> Seq<Seq<char>> {
    seq![
        "Compares and returns the minimum of two values."@,
        ""@,
        "Returns the first argument if the comparison determines them to be equal."@,
        ""@,
        "Internally uses the [`CMP`] protocol."@,
        ""@,
        "# Examples"@,
        ""@,
        "```rune"@,
        "use std::cmp::min;"@,
        ""@,
        "assert_eq!(min(1, 2), 1);"@,
        "assert_eq!(min(2, 2), 2);"@,
        "```"@,
    ]
}

/// The documentation of `max`.
pub open spec fn max_docs() -> Seq<Seq<char>> {
    seq![
        "Compares and returns the maximum of two values."@,
        ""@,
        "Returns the second argument if the comparison determines them to be equal."@,
        ""@,
        "Internally uses the [`CMP`] protocol."@,
        ""@,
        "# Examples"@,
        ""@,
        "```rune"@,
        "use std::cmp::max;"@,
        ""@,
        "assert_eq!(max(1, 2), 2);"@,
        "assert_eq!(max(2, 2), 2);"@,
        "```"@,
    ]
}

/// The content of the `std::cmp` module.
pub open spec fn std_cmp() -> ModuleView<Builtin> {
    ModuleView {
        krate: "std"@,
        path: seq!["cmp"@],
        types: seq![TypeView { name: "Ordering"@, docs: outcome_docs(), is_enum: true }],
        variants: seq![
            VariantView {
                ty: "Ordering"@,
                name: "Less"@,
                fields: Fields::Empty,
                constructor: Builtin::Less,
                docs: seq!["An ordering where a compared value is less than another."@],
            },
            VariantView {
                ty: "Ordering"@,
                name: "Equal"@,
                fields: Fields::Empty,
                constructor: Builtin::Equal,
                docs: seq!["An ordering where a compared value is equal to another."@],
            },
            VariantView {
                ty: "Ordering"@,
                name: "Greater"@,
                fields: Fields::Empty,
                constructor: Builtin::Greater,
                docs: seq!["An ordering where a compared value is greater than another."@],
            },
        ],
        instance_functions: seq![
            ("Ordering"@, Protocol::PartialEq, Builtin::PartialEq),
            ("Ordering"@, Protocol::Eq, Builtin::Eq),
        ],
        functions: seq![
            FunctionView { name: "min"@, handler: Builtin::Min, docs: min_docs() },
            FunctionView { name: "max"@, handler: Builtin::Max, docs: max_docs() },
        ],
    }
}

/// The names that the module registers side by side differ.
proof fn lemma_names_differ()
    ensures
        "Less"@ != "Equal"@,
        "Less"@ != "Greater"@,
        "Equal"@ != "Greater"@,
        "min"@ != "max"@,
{
    reveal_strlit("Less");
    reveal_strlit("Equal");
    reveal_strlit("Greater");
    reveal_strlit("min");
    reveal_strlit("max");
    assert("Less"@.len() == 4);
    assert("Equal"@.len() == 5);
    assert("Greater"@.len() == 7);
    assert("min"@[1] == 'i');
    assert("max"@[1] == 'a');
}

/// Construct the `std::cmp` module.
///
/// It holds the enum of the three outcomes of a comparison with its
/// documentation, an empty variant with a constructor for each outcome, the
/// equality protocols of that enum, and the functions `min` and `max` with
/// their documentation. No two of these names collide, so the construction
/// always succeeds.
pub fn module() -> (result: Result<Module<Builtin>, ContextError>)
    ensures
        result matches Ok(module) && module@ == std_cmp(),
        result matches Ok(module) && module@.conflict_free(),
{
    proof {
        lemma_names_differ();
    }
    let mut m = Module::with_crate_item("std", &["cmp"]);
    assert(m@.path =~= seq!["cmp"@]);

    let docs = [
        "An `Ordering` is the result of a comparison between two values.",
        "",
        "# Examples",
        "",
        "```",
        "use std::cmp::Ordering;",
        "",
        "let result = 1.cmp(2);",
        "assert_eq!(Ordering::Less, result);",
        "",
        "let result = 1.cmp(1);",
        "assert_eq!(Ordering::Equal, result);",
        "",
        "let result = 2.cmp(1);",
        "assert_eq!(Ordering::Greater, result);",
        "```",
    ];
    assert(lines_of(docs@) =~= outcome_docs());
    m.ty("Ordering", &docs)?;
    proof {
        assert(m@.types[0].name == "Ordering"@);
        assert(m@.is_type_at("Ordering"@, 0));
        lemma_type_at(m@, "Ordering"@, 0);
    }
    m.make_enum("Ordering")?;
    assert(m@.types =~= std_cmp().types);
    proof {
        assert(m@.is_type_at("Ordering"@, 0));
        lemma_type_at(m@, "Ordering"@, 0);
    }

    let less = ["An ordering where a compared value is less than another."];
    assert(lines_of(less@) =~= seq![
        "An ordering where a compared value is less than another."@,
    ]);
    m.variant("Ordering", "Less", Fields::Empty, Builtin::Less, &less)?;
    let equal = ["An ordering where a compared value is equal to another."];
    assert(lines_of(equal@) =~= seq![
        "An ordering where a compared value is equal to another."@,
    ]);
    m.variant("Ordering", "Equal", Fields::Empty, Builtin::Equal, &equal)?;
    let greater = ["An ordering where a compared value is greater than another."];
    assert(lines_of(greater@) =~= seq![
        "An ordering where a compared value is greater than another."@,
    ]);
    m.variant("Ordering", "Greater", Fields::Empty, Builtin::Greater, &greater)?;
    assert(m@.variants =~= std_cmp().variants);

    m.associated_function("Ordering", Protocol::PartialEq, Builtin::PartialEq)?;
    m.associated_function("Ordering", Protocol::Eq, Builtin::Eq)?;
    assert(m@.instance_functions =~= std_cmp().instance_functions);

    let smaller = [
        "Compares and returns the minimum of two values.",
        "",
        "Returns the first argument if the comparison determines them to be equal.",
        "",
        "Internally uses the [`CMP`] protocol.",
        "",
        "# Examples",
        "",
        "```rune",
        "use std::cmp::min;",
        "",
        "assert_eq!(min(1, 2), 1);",
        "assert_eq!(min(2, 2), 2);",
        "```",
    ];
    assert(lines_of(smaller@) =~= min_docs());
    m.function("min", Builtin::Min, &smaller)?;
    let larger = [
        "Compares and returns the maximum of two values.",
        "",
        "Returns the second argument if the comparison determines them to be equal.",
        "",
        "Internally uses the [`CMP`] protocol.",
        "",
        "# Examples",
        "",
        "```rune",
        "use std::cmp::max;",
        "",
        "assert_eq!(max(1, 2), 2);",
        "assert_eq!(max(2, 2), 2);",
        "```",
    ];
    assert(lines_of(larger@) =~= max_docs());
    m.function("max", Builtin::Max, &larger)?;
    assert(m@.functions =~= std_cmp().functions);
    Ok(m)
}

} // verus!
