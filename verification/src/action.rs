//! The follow-up action on the chosen commit.

use vstd::prelude::*;

verus! {

/// The arguments with which `git` records a fixup of the commit `id`.
pub open spec fn fixup_arguments_of(id: Seq<char>) -> Seq<Seq<char>> {
    seq!["commit"@, "--fixup"@, id]
}

/// Builds the arguments for `git` that record a fixup of the commit `id`.
pub fn fixup_arguments(id: &str) -> (arguments: Vec<String>)
    ensures
        arguments.deep_view() == fixup_arguments_of(id@),
{
    let mut arguments: Vec<String> = Vec::new();
    arguments.push("commit".to_owned());
    arguments.push("--fixup".to_owned());
    arguments.push(id.to_owned());
    assert(arguments.deep_view() =~= fixup_arguments_of(id@));
    arguments
}

} // verus!
