//! References to named definitions.

use crate::error::{BuildError, BuildErrorView};
use crate::schema::{named_schemas_view, Schema, SchemaView};
use vstd::prelude::*;
use vstd::string::StringExecFns;

verus! {

/// The prefix of a reference to a named definition.
pub open spec fn definitions_prefix() -> Seq<char> {
    "#/definitions/"@
}

/// The number of characters of that prefix.
pub const PREFIX_LENGTH: usize = 14;

/// The name that `reference` points to, if it is of the form
/// `#/definitions/<name>`.
pub open spec fn reference_target(reference: Seq<char>) -> Option<Seq<char>> {
    if definitions_prefix().is_prefix_of(reference) {
        Some(reference.skip(definitions_prefix().len() as int))
    } else {
        None
    }
}

/// `at` is the first entry of `definitions` that is registered under `name`.
pub open spec fn is_definition_at(
    definitions: Seq<(Seq<char>, SchemaView)>,
    name: Seq<char>,
    at: int,
) -> bool {
    &&& 0 <= at < definitions.len()
    &&& definitions[at].0 == name
    &&& forall|i: int| 0 <= i < at ==> (#[trigger] definitions[i]).0 != name
}

/// The index of the first entry of `definitions` that is registered under
/// `name`, if there is one.
pub open spec fn find_definition(
    definitions: Seq<(Seq<char>, SchemaView)>,
    name: Seq<char>,
) -> Option<int> {
    if exists|at: int| is_definition_at(definitions, name, at) {
        Some(choose|at: int| is_definition_at(definitions, name, at))
    } else {
        None
    }
}

/// The name that `reference` points to, if it is of the form
/// `#/definitions/<name>`.
pub fn definition_name(reference: &str) -> (name: Option<&str>)
    ensures
        match name {
            Some(name) => reference_target(reference@) == Some(name@),
            None => reference_target(reference@) is None,
        },
{
    let prefix = "#/definitions/";
    proof {
        reveal_strlit("#/definitions/");
    }
    let length = reference.unicode_len();
    if length < PREFIX_LENGTH {
        return None;
    }
    let mut i: usize = 0;
    while i < PREFIX_LENGTH
        invariant
            i <= PREFIX_LENGTH <= length,
            length == reference@.len(),
            prefix@ == definitions_prefix(),
            prefix@.len() == PREFIX_LENGTH,
            forall|j: int| 0 <= j < i ==> reference@[j] == prefix@[j],
        decreases PREFIX_LENGTH - i,
    {
        if reference.get_char(i) != prefix.get_char(i) {
            return None;
        }
        i += 1;
    }
    let name = reference.substring_char(PREFIX_LENGTH, length);
    assert(definitions_prefix() =~= reference@.subrange(0, PREFIX_LENGTH as int));
    Some(name)
}

/// Looks `name` up in the table of definitions: the index of the first
/// entry that is registered under it, if there is one.
pub fn lookup_definition(name: &str, definitions: &Vec<(String, Schema)>) -> (found: Option<usize>)
    ensures
        match found {
            Some(at) => find_definition(named_schemas_view(*definitions), name@) == Some(at as int),
            None => find_definition(named_schemas_view(*definitions), name@) is None,
        },
{
    let wanted = String::from_str(name);
    let mut i: usize = 0;
    while i < definitions.len()
        invariant
            i <= definitions.len(),
            wanted@ == name@,
            forall|j: int|
                0 <= j < i ==> (#[trigger] named_schemas_view(*definitions)[j]).0 != name@,
        decreases definitions.len() - i,
    {
        if definitions[i].0 == wanted {
            assert(is_definition_at(named_schemas_view(*definitions), name@, i as int));
            return Some(i);
        }
        i += 1;
    }
    None
}

/// Resolves a reference to the definition `name`: the index of the entry
/// of `definitions` that is registered under it, the first where there are
/// several. A name that the table does not hold is a failure, which names
/// it and the fragment `from` that referred to it.
pub fn resolve_reference(from: &str, name: &str, definitions: &Vec<(String, Schema)>) -> (found:
    Result<usize, BuildError>)
    ensures
        match found {
            Ok(at) => find_definition(named_schemas_view(*definitions), name@) == Some(at as int),
            Err(error) => find_definition(named_schemas_view(*definitions), name@) is None && error@
                == (BuildErrorView::UnresolvedReference { from: from@, name: name@ }),
        },
{
    match lookup_definition(name, definitions) {
        Some(at) => Ok(at),
        None => Err(
            BuildError::UnresolvedReference {
                from: String::from_str(from),
                name: String::from_str(name),
            },
        ),
    }
}

/// What `find_definition` finds is an entry of the table that is registered
/// under the name, and no entry before it is; it finds nothing exactly when
/// no entry is registered under the name.
pub proof fn lemma_find_definition_is_first(
    definitions: Seq<(Seq<char>, SchemaView)>,
    name: Seq<char>,
)
    ensures
        match find_definition(definitions, name) {
            Some(at) => is_definition_at(definitions, name, at),
            None => forall|i: int|
                0 <= i < definitions.len() ==> (#[trigger] definitions[i]).0 != name,
        },
{
    if find_definition(definitions, name) is None {
        assert forall|i: int| 0 <= i < definitions.len() implies (#[trigger] definitions[i]).0
            != name by {
            if definitions[i].0 == name {
                lemma_registered_name_is_found(definitions, name, i);
            }
        }
    }
}

/// A name under which some entry is registered is found.
proof fn lemma_registered_name_is_found(
    definitions: Seq<(Seq<char>, SchemaView)>,
    name: Seq<char>,
    at: int,
)
    requires
        0 <= at < definitions.len(),
        definitions[at].0 == name,
    ensures
        find_definition(definitions, name) is Some,
    decreases at,
{
    if forall|i: int| 0 <= i < at ==> (#[trigger] definitions[i]).0 != name {
        assert(is_definition_at(definitions, name, at));
    } else {
        let earlier = choose|i: int| 0 <= i < at && (#[trigger] definitions[i]).0 == name;
        lemma_registered_name_is_found(definitions, name, earlier);
    }
}

} // verus!
