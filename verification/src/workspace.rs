//! What a run over several workspaces decides: which sources are fetched,
//! which packages are offered to the registry, and how the run ends.

use vstd::prelude::*;
use crate::publish::{Outcome, OutcomeView};
use crate::text::chars_of;

verus! {

/// Whether `text` begins with `prefix`.
pub open spec fn begins_with(text: Seq<char>, prefix: Seq<char>) -> bool {
    prefix.len() <= text.len() && text.subrange(0, prefix.len() as int) == prefix
}

/// Whether a source is the address of an archive to download, rather than the
/// path of a workspace.
pub open spec fn remote(source: Seq<char>) -> bool {
    begins_with(source, "https://"@) || begins_with(source, "http://"@)
}

/// Whether `text` begins with `prefix`.
pub fn has_prefix(text: &str, prefix: &str) -> (r: bool)
    ensures
        r == begins_with(text@, prefix@),
{
    let t = chars_of(text);
    let p = chars_of(prefix);
    if p.len() > t.len() {
        return false;
    }
    let mut i: usize = 0;
    while i < p.len()
        invariant
            t@ == text@,
            p@ == prefix@,
            i <= p@.len() <= t@.len(),
            forall|j: int| 0 <= j < i ==> t@[j] == p@[j],
        decreases p@.len() - i,
    {
        if t[i] != p[i] {
            assert(text@.subrange(0, prefix@.len() as int)[i as int] != prefix@[i as int]);
            return false;
        }
        i += 1;
    }
    assert(text@.subrange(0, prefix@.len() as int) =~= prefix@);
    true
}

/// Whether a source is the address of an archive to download, rather than the
/// path of a workspace.
pub fn is_remote(source: &str) -> (r: bool)
    ensures
        r == remote(source@),
{
    has_prefix(source, "https://") || has_prefix(source, "http://")
}

/// Whether a package is offered to the registry. `registries` is the list of
/// registries that the package allows itself to be published to. A package
/// without such a list may go anywhere; one with an empty list nowhere.
pub fn publishable(registries: Option<&Vec<String>>) -> (r: bool)
    ensures
        r == (registries matches Some(allowed) ==> allowed@.len() > 0),
{
    match registries {
        Some(allowed) => allowed.len() > 0,
        None => true,
    }
}

/// Whether one of the packages failed. A package that was skipped did not.
pub open spec fn any_failed(outcomes: Seq<OutcomeView>) -> bool {
    exists|i: int| 0 <= i < outcomes.len() && #[trigger] outcomes[i] is Failed
}

/// The status that a run ends with: zero, unless a package failed.
pub fn exit_status(outcomes: &Vec<Outcome>) -> (r: u8)
    ensures
        r == if any_failed(Seq::new(outcomes@.len(), |i: int| outcomes@[i]@)) {
            2u8
        } else {
            0u8
        },
{
    let ghost views = Seq::new(outcomes@.len(), |i: int| outcomes@[i]@);
    let mut i: usize = 0;
    while i < outcomes.len()
        invariant
            i <= outcomes@.len(),
            views == Seq::new(outcomes@.len(), |i: int| outcomes@[i]@),
            forall|j: int| 0 <= j < i ==> !(#[trigger] views[j] is Failed),
        decreases outcomes@.len() - i,
    {
        match &outcomes[i] {
            Outcome::Failed(_) => {
                assert(views[i as int] is Failed);
                return 2;
            },
            _ => {},
        }
        i += 1;
    }
    0
}

} // verus!
