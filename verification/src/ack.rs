//! One-shot acknowledgements of required statuses.
//!
//! Each required command owns one cell of an acknowledgement table. The submitter holds
//! a waiter on the cell, the queued command and then the active record hold its
//! resolver, and the first result that resolves the cell is the only one it ever has.

use vstd::prelude::*;

use crate::text::{copy_result, result_of};

verus! {

/// The cell behind an idempotent one-shot acknowledgement.
#[derive(Debug)]
pub struct AckCell {
    pub result: Option<Result<(), String>>,
}

/// The result a cell holds, once it is fixed.
pub open spec fn ack_of(result: Option<Result<(), String>>) -> Option<Result<(), Seq<char>>> {
    match result {
        Some(fixed) => Some(result_of(fixed)),
        None => None,
    }
}

/// Every acknowledgement cell a coordinator handed out, in the order of creation.
#[derive(Debug)]
pub struct AckTable {
    pub cells: Vec<AckCell>,
}

impl View for AckTable {
    type V = Seq<Option<Result<(), Seq<char>>>>;

    open spec fn view(&self) -> Seq<Option<Result<(), Seq<char>>>> {
        self.cells@.map_values(|cell: AckCell| ack_of(cell.result))
    }
}

/// The table after `result` is delivered to a cell: the first delivery fixes it.
pub open spec fn resolved(
    acks: Seq<Option<Result<(), Seq<char>>>>,
    cell: int,
    result: Result<(), Seq<char>>,
) -> Seq<Option<Result<(), Seq<char>>>> {
    if 0 <= cell < acks.len() && acks[cell] is None {
        acks.update(cell, Some(result))
    } else {
        acks
    }
}

/// Whether a cell's result is fixed.
pub open spec fn observable(acks: Seq<Option<Result<(), Seq<char>>>>, cell: int) -> bool {
    0 <= cell < acks.len() && acks[cell] is Some
}

/// The resolver authority for a required acknowledgement. A copy shares the one
/// underlying cell, so the queued command, the active record, and any reconciler hold
/// the same idempotent one-shot.
#[derive(Debug, Clone, Copy)]
pub struct RequiredAckResolver {
    pub cell: usize,
}

/// The submitter side of a required acknowledgement.
#[derive(Debug)]
pub struct RequiredAckWaiter {
    pub cell: usize,
}

impl AckTable {
    pub fn new() -> (table: Self)
        ensures
            table@ == Seq::<Option<Result<(), Seq<char>>>>::empty(),
    {
        let table = AckTable { cells: Vec::new() };
        assert(table@ =~= Seq::empty());
        table
    }

    /// Create a fresh idempotent one-shot acknowledgement: the resolver authority and
    /// the submitter's waiter, sharing one cell.
    pub fn new_ack(&mut self) -> (ack: (RequiredAckResolver, RequiredAckWaiter))
        ensures
            final(self)@ == old(self)@.push(None),
            ack.0.cell == old(self)@.len(),
            ack.1.cell == old(self)@.len(),
    {
        let cell: usize = self.cells.len();
        self.cells.push(AckCell { result: None });
        assert(self@ =~= old(self)@.push(None));
        (RequiredAckResolver { cell }, RequiredAckWaiter { cell })
    }

    fn is_fixed(&self, cell: usize) -> (fixed: bool)
        ensures
            fixed == observable(self@, cell as int),
    {
        cell < self.cells.len() && self.cells[cell].result.is_some()
    }
}

impl RequiredAckResolver {
    /// Fix the one-shot result if it is not already fixed. A second call observes the
    /// stored result and neither replaces nor re-delivers it, so normal and
    /// reconciliation paths converge on one immutable result.
    pub fn resolve_once(&self, acks: &mut AckTable, result: Result<(), String>)
        ensures
            final(acks)@ == resolved(old(acks)@, self.cell as int, result_of(result)),
    {
        if self.cell < acks.cells.len() && acks.cells[self.cell].result.is_none() {
            acks.cells[self.cell] = AckCell { result: Some(result) };
            assert(acks@ =~= old(acks)@.update(self.cell as int, Some(result_of(result))));
        }
    }

    /// Whether the one-shot result is already observable.
    pub fn is_observable(&self, acks: &AckTable) -> (fixed: bool)
        ensures
            fixed == observable(acks@, self.cell as int),
    {
        acks.is_fixed(self.cell)
    }
}

impl RequiredAckWaiter {
    /// Whether the one-shot result is already observable, read without consuming the
    /// waiter.
    pub fn is_observable(&self, acks: &AckTable) -> (fixed: bool)
        ensures
            fixed == observable(acks@, self.cell as int),
    {
        acks.is_fixed(self.cell)
    }

    /// The one-shot result, once it is observable.
    pub fn wait(self, acks: &AckTable) -> (result: Result<(), String>)
        requires
            observable(acks@, self.cell as int),
        ensures
            acks@[self.cell as int] == Some(result_of(result)),
    {
        match &acks.cells[self.cell].result {
            Some(result) => copy_result(result),
            None => Ok(()),
        }
    }
}

/// Resolution is exactly-once: a delivery makes its cell observable, a later delivery to
/// the same cell changes nothing, and no delivery touches another cell.
pub proof fn law_ack_resolves_once(
    acks: Seq<Option<Result<(), Seq<char>>>>,
    cell: int,
    first: Result<(), Seq<char>>,
    second: Result<(), Seq<char>>,
    other: int,
)
    requires
        0 <= cell < acks.len(),
    ensures
        observable(resolved(acks, cell, first), cell),
        acks[cell] is None ==> resolved(acks, cell, first)[cell] == Some(first),
        acks[cell] is Some ==> resolved(acks, cell, first) == acks,
        resolved(resolved(acks, cell, first), cell, second) == resolved(acks, cell, first),
        resolved(acks, cell, first).len() == acks.len(),
        0 <= other < acks.len() && other != cell ==> resolved(acks, cell, first)[other]
            == acks[other],
{
}

} // verus!
