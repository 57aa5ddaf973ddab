//! Write transactions of the index writer.
//!
//! Points of interest reach the index only inside a write transaction. An
//! `IngestionGate` is idle until a transaction is begun, takes submissions
//! while one is open, and is idle again once it is committed or aborted.

use crate::error::AirmailError;
use crate::schema::SchemafiedPoi;
use vstd::prelude::*;

verus! {

/// Whether a write transaction is open.
#[derive(Debug, Clone, Copy, PartialEq, Eq, Structural)]
pub enum GateState {
    Idle,
    Active,
}

/// The state of the writer, and what was submitted in the open transaction.
pub struct IngestionGate {
    state: GateState,
    submitted: Vec<SchemafiedPoi>,
}

impl IngestionGate {
    pub closed spec fn state(&self) -> GateState {
        self.state
    }

    /// What was submitted since the transaction was begun, in that order.
    pub closed spec fn submitted(&self) -> Seq<SchemafiedPoi> {
        self.submitted@
    }

    /// A writer without an open transaction.
    pub fn new() -> (gate: IngestionGate)
        ensures
            gate.state() == GateState::Idle,
            gate.submitted() == Seq::<SchemafiedPoi>::empty(),
    {
        IngestionGate { state: GateState::Idle, submitted: Vec::new() }
    }

    pub fn is_active(&self) -> (active: bool)
        ensures
            active == (self.state() == GateState::Active),
    {
        self.state == GateState::Active
    }

    /// Opens a write transaction. One that is open already stays as it is.
    pub fn begin_ingestion(&mut self)
        ensures
            final(self).state() == GateState::Active,
            final(self).submitted() == (if old(self).state() == GateState::Active {
                old(self).submitted()
            } else {
                Seq::<SchemafiedPoi>::empty()
            }),
    {
        if self.state == GateState::Idle {
            self.state = GateState::Active;
            self.submitted = Vec::new();
        }
    }

    /// Submits one point of interest to the open transaction. While no
    /// transaction is open this fails and changes nothing.
    pub fn submit(&mut self, poi: SchemafiedPoi) -> (r: Result<(), AirmailError>)
        ensures
            old(self).state() == GateState::Idle ==> r is Err && r->Err_0
                is InvalidIngestionState && *final(self) == *old(self),
            old(self).state() == GateState::Active ==> r is Ok && final(self).state()
                == GateState::Active && final(self).submitted() == old(self).submitted().push(poi),
    {
        if self.state == GateState::Idle {
            return Err(AirmailError::InvalidIngestionState);
        }
        self.submitted.push(poi);
        Ok(())
    }

    /// Closes the transaction and hands out what was submitted in it, in the
    /// order of submission.
    pub fn commit(&mut self) -> (batch: Vec<SchemafiedPoi>)
        ensures
            final(self).state() == GateState::Idle,
            final(self).submitted() == Seq::<SchemafiedPoi>::empty(),
            batch@ == old(self).submitted(),
    {
        let mut batch: Vec<SchemafiedPoi> = Vec::new();
        batch.append(&mut self.submitted);
        self.state = GateState::Idle;
        batch
    }

    /// Closes the transaction and drops what was submitted in it.
    pub fn abort(&mut self)
        ensures
            final(self).state() == GateState::Idle,
            final(self).submitted() == Seq::<SchemafiedPoi>::empty(),
    {
        self.submitted = Vec::new();
        self.state = GateState::Idle;
    }
}

} // verus!
