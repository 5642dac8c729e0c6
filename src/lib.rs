use vstd::prelude::*;

pub mod buffer_manager;
pub mod log;
pub mod node;
pub mod transaction_manager;

use crate::buffer_manager::BufferManager;
use crate::log::{
    encode_change, encode_changes, lemma_recovered_bounds_logged_ids, lemma_replay_concat,
    lemma_replay_record, logged_ids, replay, replay_log, Log, ReplayOutcome,
};
use crate::transaction_manager::{
    SystemTransaction, Transaction, TransactionChange, TransactionChangeNewNode, TransactionManager,
};

verus! {

/// `std::io::Error`, carried as it is in `DbError::Io`.
#[verifier::external_type_specification]
#[verifier::external_body]
pub struct ExIoError(std::io::Error);

/// Why opening a database failed.
#[derive(Debug)]
pub enum DbError {
    /// An I/O failure, among them a log whose last record is cut short.
    Io(std::io::Error),
    /// The log holds a record whose type byte names no known change.
    BadLogRecordType { bad_type: u8 },
    /// The log records the allocation of the same node identifier twice.
    LoggedMultipleNodeIdAllocations { node_id: node::Id },
}

/// One allocation of a node identifier, from the engine state `before` to
/// `after`: `id` is the next identifier, the allocator moves one past it, and
/// the log gains the record of its allocation and still replays cleanly.
pub open spec fn db_allocation_step(before: Db, after: Db, id: node::Id) -> bool {
    let record = encode_change(TransactionChange::NewNode(TransactionChangeNewNode { node_id: id }));
    &&& id.0 == before.next_node_id()
    &&& after.next_node_id() == id.0 + 1
    &&& after.next_transaction_id() == before.next_transaction_id()
    &&& after.recovered_watermark() == before.recovered_watermark()
    &&& after.log_contents() == before.log_contents() + record
    &&& after.log_unflushed() == before.log_unflushed() + record
    &&& logged_ids(after.log_contents()) == logged_ids(before.log_contents()).push(id.0)
    &&& after.wf()
}

/// The transaction `t` was begun, from the engine state `before` to `after`:
/// it gets the next transaction identifier and buffers nothing, and the log
/// and the node allocator are left as they were.
pub open spec fn db_begin_step(before: Db, after: Db, t: Transaction) -> bool {
    &&& t.transaction_id() == before.next_transaction_id()
    &&& t.pending() == Seq::<TransactionChange>::empty()
    &&& after.next_transaction_id() == before.next_transaction_id() + 1
    &&& after.next_node_id() == before.next_node_id()
    &&& after.log_contents() == before.log_contents()
    &&& after.log_unflushed() == before.log_unflushed()
    &&& after.recovered_watermark() == before.recovered_watermark()
    &&& before.wf() ==> after.wf()
}

/// `db` is an engine just opened on a log holding `contents`, which
/// replays cleanly: the allocator starts one above the recovered watermark
/// and no transaction has been begun.
pub open spec fn opened_from(db: Db, contents: Seq<u8>) -> bool {
    &&& replay_log(contents) is Recovered
    &&& db.wf()
    &&& db.log_contents() == contents
    &&& db.log_unflushed() == Seq::<u8>::empty()
    &&& db.recovered_watermark() == replay_log(contents)->Recovered_0
    &&& db.next_node_id() == replay_log(contents)->Recovered_0 + 1
    &&& db.next_transaction_id() == 0
}

/// What opening the engine on a log holding `contents` gives: an engine
/// just opened on it when it replays cleanly, otherwise the corruption found.
pub open spec fn open_outcome(contents: Seq<u8>, r: Result<Db, DbError>) -> bool {
    match replay_log(contents) {
        ReplayOutcome::Recovered(_) => r is Ok && opened_from(r->Ok_0, contents),
        ReplayOutcome::BadType(b) => r == Err::<Db, DbError>(
            DbError::BadLogRecordType { bad_type: b },
        ),
        ReplayOutcome::DuplicateId(id) => r == Err::<Db, DbError>(
            DbError::LoggedMultipleNodeIdAllocations { node_id: node::Id(id) },
        ),
        ReplayOutcome::Truncated => r matches Err(DbError::Io(_)),
    }
}

/// The storage engine's state: the transaction manager, which owns the node
/// identifier allocator and the log. Transactions refer to it by being handed
/// it at each call.
pub struct Db {
    transaction_manager: TransactionManager,
}

impl Db {
    /// The node identifier that the next allocation returns.
    pub closed spec fn next_node_id(&self) -> u64 {
        self.transaction_manager.next_node_id()
    }

    /// The transaction identifier that the next transaction gets.
    pub closed spec fn next_transaction_id(&self) -> u64 {
        self.transaction_manager.next_transaction_id()
    }

    /// Every byte of the log, written or still to be written.
    pub closed spec fn log_contents(&self) -> Seq<u8> {
        self.transaction_manager.log().contents()
    }

    /// The log bytes that the host has yet to write to the file.
    pub closed spec fn log_unflushed(&self) -> Seq<u8> {
        self.transaction_manager.log().unflushed()
    }

    /// The largest node identifier that the log held when it was opened.
    pub closed spec fn recovered_watermark(&self) -> u64 {
        self.transaction_manager.log().watermark()
    }

    /// The log replays cleanly, to a watermark below the next identifier to
    /// be allocated, and the bytes still to be written are its tail.
    pub open spec fn wf(&self) -> bool {
        &&& self.log_unflushed().len() <= self.log_contents().len()
        &&& self.log_contents().subrange(
            self.log_contents().len() - self.log_unflushed().len(),
            self.log_contents().len() as int,
        ) == self.log_unflushed()
        &&& replay_log(self.log_contents()) is Recovered
        &&& replay_log(self.log_contents())->Recovered_0 < self.next_node_id()
    }

    /// Opens the engine on the bytes of its log file: `is_dir_empty` when
    /// the directory was fresh and the log has just been created empty. The
    /// allocator starts one above the recovered watermark.
    pub fn open(log_contents: &Vec<u8>, is_dir_empty: bool) -> (r: Result<Db, DbError>)
        requires
            is_dir_empty ==> log_contents@.len() == 0,
            replay_log(log_contents@) is Recovered ==> replay_log(log_contents@)->Recovered_0
                < u64::MAX,
        ensures
            open_outcome(log_contents@, r),
    {
        let log = match Log::open(log_contents, is_dir_empty) {
            Ok(log) => log,
            Err(e) => {
                return Err(e);
            },
        };
        let buffer_manager = BufferManager::new(log.max_logged_node_id().next());
        let transaction_manager = TransactionManager::new(buffer_manager, log);
        Ok(Db { transaction_manager })
    }

    /// Opens the engine as `open` does, unless the log already records the
    /// largest node identifier, so that none is left to allocate: then
    /// `None`.
    pub fn open_checked(log_contents: &Vec<u8>, is_dir_empty: bool) -> (r: Option<
        Result<Db, DbError>,
    >)
        requires
            is_dir_empty ==> log_contents@.len() == 0,
        ensures
            r is None <==> replay_log(log_contents@) == ReplayOutcome::Recovered(u64::MAX),
            r matches Some(opened) ==> open_outcome(log_contents@, opened),
    {
        if !is_dir_empty {
            if let ReplayOutcome::Recovered(w) = replay(log_contents) {
                if w == u64::MAX {
                    return None;
                }
            }
        }
        Some(Db::open(log_contents, is_dir_empty))
    }

    /// Starts a transaction with the next transaction identifier.
    pub fn begin_transaction(&mut self) -> (r: Transaction)
        requires
            old(self).next_transaction_id() < u64::MAX,
        ensures
            db_begin_step(*old(self), *final(self), r),
    {
        let new_transaction_id = self.transaction_manager.assign_next_id();
        Transaction::new(new_transaction_id)
    }

    /// Allocates a node identifier and logs its allocation before handing it
    /// out.
    pub fn new_art_descriptor_node(&mut self) -> (r: node::Id)
        requires
            old(self).wf(),
            old(self).next_node_id() < u64::MAX,
        ensures
            db_allocation_step(*old(self), *final(self), r),
    {
        let ghost before = self.log_contents();
        let mut system_transaction = SystemTransaction::new();
        let new_node_id = system_transaction.commit_new_art_descriptor_node(
            &mut self.transaction_manager,
        );
        proof {
            let change = TransactionChange::NewNode(TransactionChangeNewNode { node_id: new_node_id });
            let w = replay_log(before)->Recovered_0;
            lemma_replay_concat(before, encode_change(change), 0);
            lemma_replay_record(change, w);
            assert(logged_ids(before) + seq![new_node_id.0] =~= logged_ids(before).push(
                new_node_id.0,
            ));
        }
        new_node_id
    }

    /// Appends the records of a list of changes to the log, in order.
    pub fn log_append(&mut self, changes: &Vec<TransactionChange>)
        requires
            old(self).wf() || changes@.len() == 0,
        ensures
            final(self).log_contents() == old(self).log_contents() + encode_changes(changes@),
            final(self).log_unflushed() == old(self).log_unflushed() + encode_changes(changes@),
            final(self).next_node_id() == old(self).next_node_id(),
            final(self).next_transaction_id() == old(self).next_transaction_id(),
            final(self).recovered_watermark() == old(self).recovered_watermark(),
            old(self).wf() && changes@.len() == 0 ==> final(self).wf(),
    {
        if changes.len() == 0 {
            assert(encode_changes(changes@) =~= Seq::<u8>::empty());
            assert(self.log_contents() + encode_changes(changes@) =~= self.log_contents());
            assert(self.log_unflushed() + encode_changes(changes@) =~= self.log_unflushed());
            return;
        }
        self.transaction_manager.log_append(changes);
    }

    /// Whether a node identifier can still be allocated without wrapping.
    pub fn can_allocate_node_id(&self) -> (r: bool)
        ensures
            r == (self.next_node_id() < u64::MAX),
    {
        self.transaction_manager.can_allocate_node_id()
    }

    /// Whether a transaction identifier can still be assigned without
    /// wrapping.
    pub fn can_begin_transaction(&self) -> (r: bool)
        ensures
            r == (self.next_transaction_id() < u64::MAX),
    {
        self.transaction_manager.can_assign_next_id()
    }

    /// Hands the log bytes appended since the last call to the host, which
    /// appends them to the log file.
    pub fn take_log_output(&mut self) -> (r: Vec<u8>)
        requires
            old(self).wf(),
        ensures
            r@ == old(self).log_unflushed(),
            final(self).wf(),
            final(self).log_unflushed() == Seq::<u8>::empty(),
            final(self).log_contents() == old(self).log_contents(),
            final(self).recovered_watermark() == old(self).recovered_watermark(),
            final(self).next_node_id() == old(self).next_node_id(),
            final(self).next_transaction_id() == old(self).next_transaction_id(),
    {
        self.transaction_manager.take_log_output()
    }
}

/// Node identifiers allocated one after another within a session increase
/// strictly: allocation `i` goes from `befores[i]` to `afters[i]`, and what
/// happens between two allocations does not lower the next identifier.
pub proof fn lemma_allocations_increase(befores: Seq<Db>, afters: Seq<Db>, ids: Seq<node::Id>)
    requires
        befores.len() == ids.len(),
        afters.len() == ids.len(),
        forall|i: int| 0 <= i < ids.len() ==> db_allocation_step(befores[i], afters[i], ids[i]),
        forall|i: int|
            0 < i < ids.len() ==> afters[i - 1].next_node_id() <= #[trigger] befores[i].next_node_id(),
    ensures
        forall|i: int, j: int| 0 <= i < j < ids.len() ==> ids[i].0 < ids[j].0,
{
    assert forall|i: int, j: int| 0 <= i < j < ids.len() implies ids[i].0 < ids[j].0 by {
        lemma_allocation_gap(befores, afters, ids, i, j);
    }
}

proof fn lemma_allocation_gap(
    befores: Seq<Db>,
    afters: Seq<Db>,
    ids: Seq<node::Id>,
    i: int,
    j: int,
)
    requires
        befores.len() == ids.len(),
        afters.len() == ids.len(),
        forall|k: int| 0 <= k < ids.len() ==> db_allocation_step(befores[k], afters[k], ids[k]),
        forall|k: int|
            0 < k < ids.len() ==> afters[k - 1].next_node_id() <= #[trigger] befores[k].next_node_id(),
        0 <= i < j < ids.len(),
    ensures
        ids[i].0 < ids[j].0,
    decreases j - i,
{
    assert(db_allocation_step(befores[j - 1], afters[j - 1], ids[j - 1]));
    assert(db_allocation_step(befores[j], afters[j], ids[j]));
    if i < j - 1 {
        lemma_allocation_gap(befores, afters, ids, i, j - 1);
    }
}

/// Reopening the engine on its whole log, once the host has written it,
/// succeeds, and the allocator then starts above every node identifier
/// that the log records, in whatever order the records were written.
pub proof fn lemma_reopen_allocates_above_logged(db: Db)
    requires
        db.wf(),
    ensures
        replay_log(db.log_contents()) is Recovered,
        replay_log(db.log_contents())->Recovered_0 < u64::MAX,
        forall|i: int|
            0 <= i < logged_ids(db.log_contents()).len() ==> #[trigger] logged_ids(
                db.log_contents(),
            )[i] < replay_log(db.log_contents())->Recovered_0 + 1,
{
    lemma_recovered_bounds_logged_ids(db.log_contents(), 0);
}

/// An empty log, as a fresh directory gets, replays to watermark zero, so
/// the engine opened on it hands out one first.
pub proof fn lemma_fresh_log_starts_at_one(db: Db)
    requires
        opened_from(db, Seq::<u8>::empty()),
    ensures
        db.next_node_id() == 1,
{
}

/// Opening the engine twice in a row on the same log, with nothing written
/// in between, recovers the same watermark both times.
pub proof fn lemma_reopen_idempotent(first: Db, second: Db, contents: Seq<u8>)
    requires
        opened_from(first, contents),
        opened_from(second, first.log_contents()),
    ensures
        second.recovered_watermark() == first.recovered_watermark(),
        second.next_node_id() == first.next_node_id(),
        second.log_contents() == first.log_contents(),
{
}

/// A transaction that is begun and dropped leaves the log as it was, while
/// a node identifier allocated through it is in the log whether or not it is
/// committed.
pub proof fn lemma_uncommitted_transaction_trace(
    d0: Db,
    d1: Db,
    t: Transaction,
    d2: Db,
    id: node::Id,
)
    requires
        db_begin_step(d0, d1, t),
    ensures
        d1.log_contents() == d0.log_contents(),
        db_allocation_step(d1, d2, id) ==> logged_ids(d2.log_contents()).last() == id.0,
{
}

} // verus!
