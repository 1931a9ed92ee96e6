//! The in-memory form of one technique's test definitions.

use vstd::prelude::*;

verus! {

/// One technique: its identifier, its display name and its tests in order.
#[derive(Debug, PartialEq, Eq)]
pub struct AtomicReadTeamTechnique {
    pub attack_technique: String,
    pub display_name: String,
    pub atomic_tests: Vec<AtomicTest>,
}

/// One runnable test of a technique.
///
/// `input_arguments` pairs each argument name with its declaration; a later
/// pair for a name shadows an earlier one. Dependencies run only where
/// `dependency_executor_name` is present as well.
#[derive(Debug, PartialEq, Eq)]
pub struct AtomicTest {
    pub name: String,
    pub auto_generated_guid: String,
    pub description: String,
    pub supported_platforms: Vec<String>,
    pub executor: AtomicExecutor,
    pub input_arguments: Vec<(String, AtomicInputArg)>,
    pub dependency_executor_name: Option<String>,
    pub dependencies: Option<Vec<AtomicDependency>>,
}

/// The interpreter that runs a test, and the test's own command templates.
#[derive(Debug, PartialEq, Eq)]
pub struct AtomicExecutor {
    pub name: String,
    pub elevation_required: Option<bool>,
    pub command: Option<String>,
    pub cleanup_command: Option<String>,
    pub steps: Option<String>,
}

/// A precondition: a check template, and a template that installs what the
/// check looks for.
#[derive(Debug, PartialEq, Eq)]
pub struct AtomicDependency {
    pub description: String,
    pub prereq_command: String,
    pub get_prereq_command: String,
}

/// A declared input argument; its type tag is documentation only.
#[derive(Debug, PartialEq, Eq)]
pub struct AtomicInputArg {
    pub description: String,
    pub default: String,
    pub arg_type: String,
}

/// The text of an optional template; an absent one is empty.
pub open spec fn opt_text(o: Option<String>) -> Seq<char> {
    match o {
        Some(s) => s@,
        None => Seq::empty(),
    }
}

/// The defaults that a test declares, as a variable store.
pub open spec fn defaults_view(test: AtomicTest) -> Seq<(Seq<char>, Seq<char>)> {
    test.input_arguments@.map_values(|p: (String, AtomicInputArg)| (p.0@, p.1.default@))
}

} // verus!
