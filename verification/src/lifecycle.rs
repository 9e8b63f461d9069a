//! The lifecycle of a chain: a small state machine from initialisation
//! through activity and pauses to archiving, with removal possible from any
//! state.
use vstd::prelude::*;

use crate::errors::{HashChainError, HashChainResult};

verus! {

/// The states of a chain.
#[derive(PartialEq, Eq, Structural, Clone, Copy, Debug)]
pub enum ChainState {
    /// Being initialised.
    Initializing,
    /// Active and processing blocks.
    Active,
    /// Paused: not processing new blocks.
    Paused,
    /// Being archived.
    Archiving,
    /// Archived.
    Archived,
    /// Removed.
    Removed,
}

/// The state after activation, if the state allows it (from initialisation
/// or a pause).
pub open spec fn activate_target(s: ChainState) -> Option<ChainState> {
    match s {
        ChainState::Initializing | ChainState::Paused => Some(ChainState::Active),
        _ => None,
    }
}

/// The state after a pause, if the state allows it (from activity).
pub open spec fn pause_target(s: ChainState) -> Option<ChainState> {
    match s {
        ChainState::Active => Some(ChainState::Paused),
        _ => None,
    }
}

/// The state after an archive request, if the state allows it (from
/// activity or a pause).
pub open spec fn archive_target(s: ChainState) -> Option<ChainState> {
    match s {
        ChainState::Active | ChainState::Paused => Some(ChainState::Archiving),
        _ => None,
    }
}

/// The name of a state, as its debug form prints it.
pub fn state_name(s: &ChainState) -> (name: &'static str)
    ensures
        name@ == state_name_spec(*s),
{
    match s {
        ChainState::Initializing => "Initializing",
        ChainState::Active => "Active",
        ChainState::Paused => "Paused",
        ChainState::Archiving => "Archiving",
        ChainState::Archived => "Archived",
        ChainState::Removed => "Removed",
    }
}

/// The name of a state.
pub open spec fn state_name_spec(s: ChainState) -> Seq<char> {
    match s {
        ChainState::Initializing => "Initializing"@,
        ChainState::Active => "Active"@,
        ChainState::Paused => "Paused"@,
        ChainState::Archiving => "Archiving"@,
        ChainState::Archived => "Archived"@,
        ChainState::Removed => "Removed"@,
    }
}

/// The lifecycle record of one chain. Times are the bit patterns of `f64`
/// seconds, read from the clock by the caller.
#[derive(Clone)]
pub struct ChainLifecycle {
    /// Chain identifier.
    pub chain_id: Vec<u8>,
    /// Current state.
    pub state: ChainState,
    /// Creation time.
    pub created_at_bits: u64,
    /// Time of the last change.
    pub updated_at_bits: u64,
    /// Free-form metadata as key / value pairs.
    pub metadata: Vec<(String, String)>,
}

/// A lifecycle error naming the action refused and the state.
fn lifecycle_error(action: &str, s: &ChainState) -> (e: HashChainError)
    ensures
        e is ChainLifecycle,
{
    let mut reason = String::from_str("Cannot ");
    reason.append(action);
    reason.append(" chain in state: ");
    reason.append(state_name(s));
    HashChainError::ChainLifecycle { reason }
}

impl ChainLifecycle {
    /// A chain being initialised, created and updated at `now_bits`, with no
    /// metadata.
    pub fn new(chain_id: Vec<u8>, now_bits: u64) -> (c: ChainLifecycle)
        ensures
            c.chain_id@ == chain_id@,
            c.state == ChainState::Initializing,
            c.created_at_bits == now_bits,
            c.updated_at_bits == now_bits,
            c.metadata@.len() == 0,
    {
        ChainLifecycle {
            chain_id,
            state: ChainState::Initializing,
            created_at_bits: now_bits,
            updated_at_bits: now_bits,
            metadata: Vec::new(),
        }
    }

    /// Activates the chain (`activate_target`) and stamps the change; a
    /// state that does not allow it is a lifecycle error and changes nothing.
    pub fn activate(&mut self, now_bits: u64) -> (r: HashChainResult<()>)
        ensures
            activate_target(old(self).state) is None ==> (r matches Err(e) && e is ChainLifecycle) && *final(self)
                == *old(self),
            activate_target(old(self).state) matches Some(t) ==> r is Ok && final(self).state == t
                && final(self).updated_at_bits == now_bits,
            final(self).chain_id == old(self).chain_id,
            final(self).created_at_bits == old(self).created_at_bits,
            final(self).metadata == old(self).metadata,
    {
        match self.state {
            ChainState::Initializing | ChainState::Paused => {
                self.state = ChainState::Active;
                self.updated_at_bits = now_bits;
                Ok(())
            },
            _ => Err(lifecycle_error("activate", &self.state)),
        }
    }

    /// Pauses the chain (`pause_target`) and stamps the change; a state that
    /// does not allow it is a lifecycle error and changes nothing.
    pub fn pause(&mut self, now_bits: u64) -> (r: HashChainResult<()>)
        ensures
            pause_target(old(self).state) is None ==> (r matches Err(e) && e is ChainLifecycle) && *final(self)
                == *old(self),
            pause_target(old(self).state) matches Some(t) ==> r is Ok && final(self).state == t
                && final(self).updated_at_bits == now_bits,
            final(self).chain_id == old(self).chain_id,
            final(self).created_at_bits == old(self).created_at_bits,
            final(self).metadata == old(self).metadata,
    {
        match self.state {
            ChainState::Active => {
                self.state = ChainState::Paused;
                self.updated_at_bits = now_bits;
                Ok(())
            },
            _ => Err(lifecycle_error("pause", &self.state)),
        }
    }

    /// Starts archiving the chain (`archive_target`) and stamps the change;
    /// a state that does not allow it is a lifecycle error and changes
    /// nothing.
    pub fn archive(&mut self, now_bits: u64) -> (r: HashChainResult<()>)
        ensures
            archive_target(old(self).state) is None ==> (r matches Err(e) && e is ChainLifecycle) && *final(self)
                == *old(self),
            archive_target(old(self).state) matches Some(t) ==> r is Ok && final(self).state == t
                && final(self).updated_at_bits == now_bits,
            final(self).chain_id == old(self).chain_id,
            final(self).created_at_bits == old(self).created_at_bits,
            final(self).metadata == old(self).metadata,
    {
        match self.state {
            ChainState::Active | ChainState::Paused => {
                self.state = ChainState::Archiving;
                self.updated_at_bits = now_bits;
                Ok(())
            },
            _ => Err(lifecycle_error("archive", &self.state)),
        }
    }

    /// Removes the chain, from any state, and stamps the change.
    pub fn remove(&mut self, now_bits: u64) -> (r: HashChainResult<()>)
        ensures
            r is Ok,
            final(self).state == ChainState::Removed,
            final(self).updated_at_bits == now_bits,
            final(self).chain_id == old(self).chain_id,
            final(self).created_at_bits == old(self).created_at_bits,
            final(self).metadata == old(self).metadata,
    {
        self.state = ChainState::Removed;
        self.updated_at_bits = now_bits;
        Ok(())
    }

    /// Whether the chain is active.
    pub fn is_active(&self) -> (b: bool)
        ensures
            b == (self.state == ChainState::Active),
    {
        match self.state {
            ChainState::Active => true,
            _ => false,
        }
    }

    /// The current state.
    pub fn get_state(&self) -> (s: &ChainState)
        ensures
            *s == self.state,
    {
        &self.state
    }
}

/// From the removed or the archived state the only transition is removal:
/// activation, pause and archiving are refused.
pub proof fn lemma_removed_is_final(s: ChainState)
    requires
        s == ChainState::Removed || s == ChainState::Archived,
    ensures
        activate_target(s) is None,
        pause_target(s) is None,
        archive_target(s) is None,
{
}

} // verus!
