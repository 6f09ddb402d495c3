//! Loading a stored revision step by step, so that each step can be validated
//! before the next overlay is laid on it.

use crate::index::{Index, IndexView};
use crate::manager::revisions::{
    apply_stored_overrides, chain_index_from, chain_stored, checkpoint_of, invalid_text,
    revision_index, storage_chain,
};
use crate::manager::rows::{Revision, Store};
use crate::manager::table::{find_number, numbered};
use crate::manager::types::ManagerError;
use crate::text::{context_text, in_context, with_signed};
use vstd::prelude::*;

verus! {

broadcast use vstd::std_specs::btree::group_btree_axioms;

/// A revision that is being loaded: the revisions that it is stored as, newest
/// first, and the index of the one at `left`. Those before it are still to be
/// laid on.
#[derive(Clone, Debug, Eq, PartialEq)]
pub struct RevisionLoading {
    pub revision_id: i64,
    pub chain: Vec<i64>,
    pub left: usize,
    pub index: Index,
}

impl RevisionLoading {
    /// Whether the store holds the chain, and the index is that of the revision
    /// at `left`.
    pub open spec fn right(self, revisions: Seq<Revision>) -> bool {
        &&& self.left < self.chain@.len()
        &&& chain_stored(revisions, self.chain@)
        &&& storage_chain(revisions, self.revision_id) == Ok::<Seq<i64>, Seq<char>>(self.chain@)
        &&& self.index.well_formed()
        &&& chain_index_from(revisions, self.chain@, self.left as int) == Ok::<
            IndexView,
            Seq<char>,
        >(self.index@)
    }
}

/// How loading goes on.
#[derive(Clone, Debug, Eq, PartialEq)]
pub enum LoadStep {
    /// The index is to be validated.
    Validate(RevisionLoading),
    /// This is the index of the revision.
    Loaded(Index),
}

/// What going on with a revision gives once its index was validated. `fault` is
/// what was found wrong with the index.
pub open spec fn goes_on(
    revisions: Seq<Revision>,
    loading: RevisionLoading,
    fault: Option<String>,
    step: Result<LoadStep, ManagerError>,
) -> bool {
    match fault {
        Some(fault) => {
            &&& step matches Err(error)
            &&& error@ == invalid_text(loading.chain@, loading.left as int, fault@)
        },
        None => if loading.left == 0 {
            &&& step == Ok::<LoadStep, ManagerError>(LoadStep::Loaded(loading.index))
            &&& revision_index(revisions, loading.revision_id) == Ok::<IndexView, Seq<char>>(
                loading.index@,
            )
        } else {
            match chain_index_from(revisions, loading.chain@, loading.left - 1) {
                Ok(index) => {
                    &&& step matches Ok(LoadStep::Validate(next))
                    &&& next.right(revisions)
                    &&& next.revision_id == loading.revision_id
                    &&& next.chain == loading.chain
                    &&& next.left == loading.left - 1
                    &&& next.index@ == index
                },
                Err(fault) => {
                    &&& step matches Err(error)
                    &&& error@ == fault
                },
            }
        },
    }
}

/// What is said where the part of a revision that a manifest can touch is found
/// invalid.
pub open spec fn invalid_subset_text(fault: Seq<char>) -> Seq<char> {
    in_context("changed-object revision subset is invalid"@, fault)
}

/// An index that was read for a delta, unless it is found invalid. `fault` is
/// what was found wrong with it.
pub fn accept_delta_subset(subset: Index, fault: &Option<String>) -> (accepted: Result<
    Index,
    ManagerError,
>)
    ensures
        match *fault {
            Some(fault) => {
                &&& accepted matches Err(error)
                &&& error@ == invalid_subset_text(fault@)
            },
            None => accepted == Ok::<Index, ManagerError>(subset),
        },
{
    match fault {
        Some(fault) => Err(
            ManagerError::of(
                context_text("changed-object revision subset is invalid", fault.as_str()),
            ),
        ),
        None => Ok(subset),
    }
}

impl Store {
    /// Reads the checkpoint that a revision rests on.
    pub fn begin_load(&self, revision_id: i64) -> (begun: Result<RevisionLoading, ManagerError>)
        requires
            self.well_formed(),
        ensures
            match storage_chain(self.revisions@, revision_id) {
                Err(fault) => begun matches Err(error) && error@ == fault,
                Ok(chain) => match checkpoint_of(self.revisions@, chain.last()) {
                    Err(fault) => begun matches Err(error) && error@ == fault,
                    Ok(index) => {
                        &&& begun matches Ok(loading)
                        &&& loading.right(self.revisions@)
                        &&& loading.revision_id == revision_id
                        &&& loading.chain@ == chain
                        &&& loading.left == chain.len() - 1
                        &&& loading.index@ == index
                    },
                },
            },
    {
        let chain = match self.revision_storage_chain(revision_id) {
            Ok(chain) => chain,
            Err(error) => {
                return Err(error);
            },
        };
        let left: usize = chain.len() - 1;
        match self.read_checkpoint(chain[left]) {
            Ok(index) => Ok(RevisionLoading { revision_id, chain, left, index }),
            Err(error) => Err(error),
        }
    }

    /// Goes on with a revision whose index was validated: refuses it where
    /// something was found wrong, and else lays the next overlay on it.
    pub fn go_on_loading(&self, loading: RevisionLoading, fault: &Option<String>) -> (step: Result<
        LoadStep,
        ManagerError,
    >)
        requires
            self.well_formed(),
            loading.right(self.revisions@),
        ensures
            goes_on(self.revisions@, loading, *fault, step),
    {
        match fault {
            Some(fault) => {
                if loading.left == loading.chain.len() - 1 {
                    return Err(
                        ManagerError::of(
                            context_text("stored checkpoint is invalid", fault.as_str()),
                        ),
                    );
                }
                let context = with_signed(
                    "stored revision ",
                    loading.chain[loading.left],
                    " is invalid",
                );
                return Err(ManagerError::of(context_text(context.as_str(), fault.as_str())));
            },
            None => {},
        }
        if loading.left == 0 {
            return Ok(LoadStep::Loaded(loading.index));
        }
        let mut next = loading;
        next.left = next.left - 1;
        match find_number(&self.revisions, next.chain[next.left]) {
            None => {
                assert(numbered(self.revisions@, next.chain@[next.left as int]) is Some);
                assert(false);
            },
            Some(at) => {
                match apply_stored_overrides(&self.revisions[at].overlay, &mut next.index) {
                    Ok(_) => {},
                    Err(error) => {
                        return Err(error);
                    },
                }
            },
        }
        Ok(LoadStep::Validate(next))
    }
}

} // verus!
