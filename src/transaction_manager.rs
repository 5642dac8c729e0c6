use vstd::prelude::*;

use crate::buffer_manager::BufferManager;
use crate::log::{encode_change, encode_changes, reads_back, Log};
use crate::node;
use crate::{db_allocation_step, Db};

verus! {

/// Identifier of a transaction, unique within one open session.
#[derive(Debug, Clone, Copy, PartialEq, Eq, Structural)]
pub struct Id(pub u64);

impl Id {
    pub fn as_u64(self) -> (r: u64)
        ensures
            r == self.0,
    {
        self.0
    }
}

impl From<u64> for Id {
    fn from(val: u64) -> (r: Id)
        ensures
            r.0 == val,
    {
        Id(val)
    }
}

impl vstd::std_specs::convert::FromSpecImpl<u64> for Id {
    open spec fn obeys_from_spec() -> bool {
        true
    }

    open spec fn from_spec(v: u64) -> Id {
        Id(v)
    }
}

/// The counter of transaction identifiers, from zero up.
#[derive(Debug)]
struct AtomicId {
    value: u64,
}

impl AtomicId {
    fn new(id: Id) -> (r: AtomicId)
        ensures
            r.value == id.0,
    {
        AtomicId { value: id.0 }
    }

    fn get_and_advance(&mut self) -> (r: Id)
        requires
            old(self).value < u64::MAX,
        ensures
            r.0 == old(self).value,
            final(self).value == old(self).value + 1,
    {
        let result = Id(self.value);
        self.value = self.value + 1;
        result
    }
}

/// One durable change, as the log records it.
#[derive(Debug, Clone, Copy, PartialEq, Eq, Structural)]
pub enum TransactionChange {
    NewNode(TransactionChangeNewNode),
}

/// A node identifier was allocated.
#[derive(Debug, Clone, Copy, PartialEq, Eq, Structural)]
pub struct TransactionChangeNewNode {
    pub node_id: node::Id,
}

impl TransactionChangeNewNode {
    pub fn new(node_id: node::Id) -> (r: TransactionChangeNewNode)
        ensures
            r.node_id == node_id,
    {
        TransactionChangeNewNode { node_id }
    }

    pub fn node_id(&self) -> (r: node::Id)
        ensures
            r == self.node_id,
    {
        self.node_id
    }
}

/// Owns the node identifier allocator and the log, and hands out
/// transaction identifiers. Every write to the log goes through it.
pub struct TransactionManager {
    buffer_manager: BufferManager,
    log: Log,
    next_id: AtomicId,
}

impl TransactionManager {
    /// The node identifier that the next allocation returns.
    pub closed spec fn next_node_id(&self) -> u64 {
        self.buffer_manager.next_node_id()
    }

    /// The transaction identifier that the next transaction gets.
    pub closed spec fn next_transaction_id(&self) -> u64 {
        self.next_id.value
    }

    pub closed spec fn log(&self) -> Log {
        self.log
    }

    pub fn new(buffer_manager: BufferManager, log: Log) -> (r: TransactionManager)
        ensures
            r.next_node_id() == buffer_manager.next_node_id(),
            r.log() == log,
            r.next_transaction_id() == 0,
    {
        TransactionManager { buffer_manager, log, next_id: AtomicId::new(Id(0)) }
    }

    pub fn assign_next_id(&mut self) -> (r: Id)
        requires
            old(self).next_transaction_id() < u64::MAX,
        ensures
            r.0 == old(self).next_transaction_id(),
            final(self).next_transaction_id() == old(self).next_transaction_id() + 1,
            final(self).next_node_id() == old(self).next_node_id(),
            final(self).log() == old(self).log(),
    {
        self.next_id.get_and_advance()
    }

    /// Allocates a node identifier and builds the change that records it,
    /// without writing it to the log.
    pub fn new_art_descriptor_node(&mut self) -> (r: TransactionChangeNewNode)
        requires
            old(self).next_node_id() < u64::MAX,
        ensures
            r.node_id.0 == old(self).next_node_id(),
            final(self).next_node_id() == old(self).next_node_id() + 1,
            final(self).next_transaction_id() == old(self).next_transaction_id(),
            final(self).log() == old(self).log(),
    {
        let new_node_id = self.buffer_manager.allocate_new_node_id();
        TransactionChangeNewNode::new(new_node_id)
    }

    /// Appends the record of one change to the log.
    pub fn log_append_change(&mut self, change: &TransactionChange)
        requires
            old(self).log().wf(),
        ensures
            final(self).log().wf(),
            final(self).log().contents() == old(self).log().contents() + encode_change(*change),
            final(self).log().unflushed() == old(self).log().unflushed() + encode_change(*change),
            final(self).log().watermark() == old(self).log().watermark(),
            final(self).next_node_id() == old(self).next_node_id(),
            final(self).next_transaction_id() == old(self).next_transaction_id(),
            reads_back(*change),
    {
        self.log.append_change(change)
    }

    /// Appends the records of a list of changes to the log, in order.
    pub fn log_append(&mut self, changes: &Vec<TransactionChange>)
        requires
            old(self).log().wf(),
        ensures
            final(self).log().wf(),
            final(self).log().contents() == old(self).log().contents() + encode_changes(changes@),
            final(self).log().unflushed() == old(self).log().unflushed() + encode_changes(
                changes@,
            ),
            final(self).log().watermark() == old(self).log().watermark(),
            final(self).next_node_id() == old(self).next_node_id(),
            final(self).next_transaction_id() == old(self).next_transaction_id(),
    {
        self.log.append_changes(changes)
    }

    pub fn can_allocate_node_id(&self) -> (r: bool)
        ensures
            r == (self.next_node_id() < u64::MAX),
    {
        self.buffer_manager.can_allocate()
    }

    pub fn can_assign_next_id(&self) -> (r: bool)
        ensures
            r == (self.next_transaction_id() < u64::MAX),
    {
        self.next_id.value < u64::MAX
    }

    /// Hands the log bytes appended since the last call to the host.
    pub fn take_log_output(&mut self) -> (r: Vec<u8>)
        requires
            old(self).log().wf(),
        ensures
            r@ == old(self).log().unflushed(),
            final(self).log().wf(),
            final(self).log().unflushed() == Seq::<u8>::empty(),
            final(self).log().contents() == old(self).log().contents(),
            final(self).log().watermark() == old(self).log().watermark(),
            final(self).next_node_id() == old(self).next_node_id(),
            final(self).next_transaction_id() == old(self).next_transaction_id(),
    {
        self.log.take_unflushed()
    }
}

/// Allocates one node identifier and logs its allocation before the
/// identifier is handed out, so that the allocator never runs ahead of the
/// log.
pub(crate) struct SystemTransaction {
    pub(crate) change: Option<TransactionChange>,
}

impl SystemTransaction {
    pub(crate) fn new() -> (r: SystemTransaction)
        ensures
            r.change is None,
    {
        SystemTransaction { change: None }
    }

    /// Allocates a node identifier, logs its allocation, and returns it.
    pub(crate) fn commit_new_art_descriptor_node(&mut self, manager: &mut TransactionManager) -> (r:
        node::Id)
        requires
            old(manager).log().wf(),
            old(manager).next_node_id() < u64::MAX,
        ensures
            r.0 == old(manager).next_node_id(),
            final(self).change == Some(
                TransactionChange::NewNode(TransactionChangeNewNode { node_id: r }),
            ),
            reads_back(final(self).change->Some_0),
            final(manager).next_node_id() == old(manager).next_node_id() + 1,
            final(manager).next_transaction_id() == old(manager).next_transaction_id(),
            final(manager).log().wf(),
            final(manager).log().contents() == old(manager).log().contents() + encode_change(
                final(self).change->Some_0,
            ),
            final(manager).log().unflushed() == old(manager).log().unflushed() + encode_change(
                final(self).change->Some_0,
            ),
            final(manager).log().watermark() == old(manager).log().watermark(),
    {
        let new_node = manager.new_art_descriptor_node();
        let new_node_id = new_node.node_id();
        self.change = Some(TransactionChange::NewNode(new_node));
        self.commit(manager);
        new_node_id
    }

    /// Logs the change that this transaction holds.
    fn commit(&self, manager: &mut TransactionManager)
        requires
            self.change is Some,
            old(manager).log().wf(),
        ensures
            reads_back(self.change->Some_0),
            final(manager).next_node_id() == old(manager).next_node_id(),
            final(manager).next_transaction_id() == old(manager).next_transaction_id(),
            final(manager).log().wf(),
            final(manager).log().contents() == old(manager).log().contents() + encode_change(
                self.change->Some_0,
            ),
            final(manager).log().unflushed() == old(manager).log().unflushed() + encode_change(
                self.change->Some_0,
            ),
            final(manager).log().watermark() == old(manager).log().watermark(),
    {
        match &self.change {
            Some(change) => manager.log_append_change(change),
            None => {},
        }
    }
}

/// A unit of work of the engine's users. Node identifiers that it allocates
/// are logged at once; the changes that it buffers are logged on commit.
pub struct Transaction {
    id: Id,
    changes: Vec<TransactionChange>,
}

impl Transaction {
    pub closed spec fn transaction_id(&self) -> u64 {
        self.id.0
    }

    /// The changes buffered for the commit.
    pub closed spec fn pending(&self) -> Seq<TransactionChange> {
        self.changes@
    }

    pub fn new(id: Id) -> (r: Transaction)
        ensures
            r.transaction_id() == id.0,
            r.pending() == Seq::<TransactionChange>::empty(),
    {
        Transaction { id, changes: Vec::new() }
    }

    /// Logs the buffered changes, in order.
    pub fn commit(&mut self, db: &mut Db)
        requires
            old(db).wf() || old(self).pending().len() == 0,
        ensures
            final(self).transaction_id() == old(self).transaction_id(),
            final(self).pending() == old(self).pending(),
            final(db).log_contents() == old(db).log_contents() + encode_changes(old(self).pending()),
            final(db).log_unflushed() == old(db).log_unflushed() + encode_changes(
                old(self).pending(),
            ),
            final(db).next_node_id() == old(db).next_node_id(),
            final(db).next_transaction_id() == old(db).next_transaction_id(),
            final(db).recovered_watermark() == old(db).recovered_watermark(),
            old(db).wf() && old(self).pending().len() == 0 ==> final(db).wf(),
    {
        db.log_append(&self.changes)
    }

    /// Allocates a node identifier whose allocation is logged before it is
    /// returned.
    pub fn new_art_descriptor_node(&mut self, db: &mut Db) -> (r: node::Id)
        requires
            old(db).wf(),
            old(db).next_node_id() < u64::MAX,
        ensures
            final(self).transaction_id() == old(self).transaction_id(),
            final(self).pending() == old(self).pending(),
            db_allocation_step(*old(db), *final(db), r),
    {
        db.new_art_descriptor_node()
    }

    pub fn id(&self) -> (r: Id)
        ensures
            r.0 == self.transaction_id(),
    {
        self.id
    }
}

} // verus!
