use vstd::prelude::*;

use crate::node::{self, ne_bytes_of, ne_u64_of, u64_from_ne_bytes};
use crate::transaction_manager::TransactionChange;
use crate::DbError;

verus! {

/// Number of bytes of a `NewNode` record: the type byte and the identifier.
pub const NEW_NODE_RECORD_LEN: usize = 9;

/// The kind of a log record, stored as its first byte.
#[derive(Debug, Clone, Copy, PartialEq, Eq, Structural)]
pub enum ChangeId {
    NewNode,
}

/// The type byte that stands for `id` in the log.
pub open spec fn type_byte_of(id: ChangeId) -> u8 {
    match id {
        ChangeId::NewNode => 0,
    }
}

/// The record kind that a type byte stands for, if any.
pub open spec fn change_id_of_byte(b: u8) -> Option<ChangeId> {
    if b == 0 {
        Some(ChangeId::NewNode)
    } else {
        None
    }
}

impl ChangeId {
    pub open spec fn of_change(change: TransactionChange) -> ChangeId {
        match change {
            TransactionChange::NewNode(_) => ChangeId::NewNode,
        }
    }

    pub fn new(transaction_change: &TransactionChange) -> (r: ChangeId)
        ensures
            r == ChangeId::of_change(*transaction_change),
    {
        match transaction_change {
            TransactionChange::NewNode(_) => ChangeId::NewNode,
        }
    }

    pub fn as_u8(self) -> (r: u8)
        ensures
            r == type_byte_of(self),
    {
        match self {
            ChangeId::NewNode => 0,
        }
    }

    pub fn try_from_u8(b: u8) -> (r: Option<ChangeId>)
        ensures
            r == change_id_of_byte(b),
    {
        if b == 0 {
            Some(ChangeId::NewNode)
        } else {
            None
        }
    }
}

/// The bytes that the log holds for one change.
pub open spec fn encode_change(change: TransactionChange) -> Seq<u8> {
    match change {
        TransactionChange::NewNode(n) => seq![type_byte_of(ChangeId::NewNode)] + ne_bytes_of(
            n.node_id.0,
        ),
    }
}

/// The record of `change` is nine bytes long and reads back as that change.
pub open spec fn reads_back(change: TransactionChange) -> bool {
    match change {
        TransactionChange::NewNode(n) => {
            let record = encode_change(change);
            &&& record.len() == NEW_NODE_RECORD_LEN
            &&& change_id_of_byte(record[0]) == Some(ChangeId::NewNode)
            &&& ne_u64_of(record.subrange(1, NEW_NODE_RECORD_LEN as int)) == n.node_id.0
        },
    }
}

/// The bytes that the log holds for a list of changes, in order.
pub open spec fn encode_changes(changes: Seq<TransactionChange>) -> Seq<u8>
    decreases changes.len(),
{
    if changes.len() == 0 {
        Seq::empty()
    } else {
        encode_changes(changes.drop_last()) + encode_change(changes.last())
    }
}

/// What a scan of the log finds.
#[derive(Debug, Clone, Copy, PartialEq, Eq, Structural)]
pub enum ReplayOutcome {
    /// Every record is well formed; the largest node identifier logged.
    Recovered(u64),
    /// A record starts with a type byte that names no known change.
    BadType(u8),
    /// A record allocates the identifier that is the largest one seen so far.
    DuplicateId(u64),
    /// The last record is cut short.
    Truncated,
}

/// Scans `bytes` record by record, with `max` the largest identifier seen
/// before them.
pub open spec fn replay_from(bytes: Seq<u8>, max: u64) -> ReplayOutcome
    decreases bytes.len(),
{
    if bytes.len() == 0 {
        ReplayOutcome::Recovered(max)
    } else {
        match change_id_of_byte(bytes[0]) {
            None => ReplayOutcome::BadType(bytes[0]),
            Some(ChangeId::NewNode) => {
                if bytes.len() < NEW_NODE_RECORD_LEN {
                    ReplayOutcome::Truncated
                } else {
                    let id = ne_u64_of(bytes.subrange(1, NEW_NODE_RECORD_LEN as int));
                    if id == max {
                        ReplayOutcome::DuplicateId(id)
                    } else {
                        replay_from(
                            bytes.subrange(NEW_NODE_RECORD_LEN as int, bytes.len() as int),
                            if id > max {
                                id
                            } else {
                                max
                            },
                        )
                    }
                }
            }
        }
    }
}

/// The outcome of scanning a whole log from its start.
pub open spec fn replay_log(bytes: Seq<u8>) -> ReplayOutcome {
    replay_from(bytes, 0)
}

/// The identifiers of the whole `NewNode` records at the start of `bytes`, in
/// order, up to the first byte that does not begin one.
pub open spec fn logged_ids(bytes: Seq<u8>) -> Seq<u64>
    decreases bytes.len(),
{
    if bytes.len() < NEW_NODE_RECORD_LEN || change_id_of_byte(bytes[0]) != Some(
        ChangeId::NewNode,
    ) {
        Seq::empty()
    } else {
        seq![ne_u64_of(bytes.subrange(1, NEW_NODE_RECORD_LEN as int))] + logged_ids(
            bytes.subrange(NEW_NODE_RECORD_LEN as int, bytes.len() as int),
        )
    }
}

/// A log prefix that replays cleanly can be scanned past: what follows is
/// replayed from the watermark that the prefix reached, and its identifiers
/// follow those of the prefix.
pub proof fn lemma_replay_concat(a: Seq<u8>, b: Seq<u8>, max: u64)
    requires
        replay_from(a, max) is Recovered,
    ensures
        replay_from(a + b, max) == replay_from(b, replay_from(a, max)->Recovered_0),
        logged_ids(a + b) == logged_ids(a) + logged_ids(b),
    decreases a.len(),
{
    if a.len() == 0 {
        assert(a + b =~= b);
        assert(logged_ids(a) =~= Seq::<u64>::empty());
        assert(logged_ids(a) + logged_ids(b) =~= logged_ids(b));
    } else {
        let n = NEW_NODE_RECORD_LEN as int;
        let id = ne_u64_of(a.subrange(1, n));
        let next_max = if id > max {
            id
        } else {
            max
        };
        let a_rest = a.subrange(n, a.len() as int);
        assert((a + b)[0] == a[0]);
        assert((a + b).subrange(1, n) =~= a.subrange(1, n));
        assert((a + b).subrange(n, (a + b).len() as int) =~= a_rest + b);
        lemma_replay_concat(a_rest, b, next_max);
        assert(seq![id] + (logged_ids(a_rest) + logged_ids(b)) =~= (seq![id] + logged_ids(a_rest))
            + logged_ids(b));
    }
}

/// Replaying the record of one change: it raises the watermark, is accepted
/// below it, and is corruption when it repeats it.
pub proof fn lemma_replay_record(change: TransactionChange, max: u64)
    requires
        reads_back(change),
    ensures
        ({
            let id = match change {
                TransactionChange::NewNode(n) => n.node_id.0,
            };
            &&& replay_from(encode_change(change), max) == if id == max {
                ReplayOutcome::DuplicateId(id)
            } else if id > max {
                ReplayOutcome::Recovered(id)
            } else {
                ReplayOutcome::Recovered(max)
            }
            &&& logged_ids(encode_change(change)) == seq![id]
        }),
{
    let record = encode_change(change);
    let tail = record.subrange(NEW_NODE_RECORD_LEN as int, record.len() as int);
    assert(tail =~= Seq::<u8>::empty());
    let id = ne_u64_of(record.subrange(1, NEW_NODE_RECORD_LEN as int));
    let next_max = if id > max {
        id
    } else {
        max
    };
    assert(replay_from(tail, next_max) == ReplayOutcome::Recovered(next_max));
    assert(logged_ids(tail) =~= Seq::<u64>::empty());
    assert(seq![ne_u64_of(record.subrange(1, NEW_NODE_RECORD_LEN as int))] + logged_ids(tail)
        =~= seq![ne_u64_of(record.subrange(1, NEW_NODE_RECORD_LEN as int))]);
}

/// A clean replay ends on a watermark no lower than where it started and no
/// lower than any identifier logged.
pub proof fn lemma_recovered_bounds_logged_ids(bytes: Seq<u8>, max: u64)
    requires
        replay_from(bytes, max) is Recovered,
    ensures
        max <= replay_from(bytes, max)->Recovered_0,
        forall|i: int|
            0 <= i < logged_ids(bytes).len() ==> #[trigger] logged_ids(bytes)[i]
                <= replay_from(bytes, max)->Recovered_0,
    decreases bytes.len(),
{
    if bytes.len() > 0 {
        let n = NEW_NODE_RECORD_LEN as int;
        let id = ne_u64_of(bytes.subrange(1, n));
        let rest = bytes.subrange(n, bytes.len() as int);
        let next_max = if id > max {
            id
        } else {
            max
        };
        lemma_recovered_bounds_logged_ids(rest, next_max);
        assert(logged_ids(bytes) == seq![id] + logged_ids(rest));
        assert forall|i: int| 0 <= i < logged_ids(bytes).len() implies #[trigger] logged_ids(
            bytes,
        )[i] <= replay_from(bytes, max)->Recovered_0 by {
            if i > 0 {
                assert(logged_ids(bytes)[i] == logged_ids(rest)[i - 1]);
            }
        }
    }
}

/// Whole `NewNode` records of distinct identifiers, none equal to `max`,
/// replay cleanly from `max`, to one of those values that bounds them all.
proof fn lemma_distinct_records_replay(bytes: Seq<u8>, max: u64)
    requires
        logged_ids(bytes).len() * NEW_NODE_RECORD_LEN == bytes.len(),
        forall|i: int| 0 <= i < logged_ids(bytes).len() ==> #[trigger] logged_ids(bytes)[i] != max,
        forall|i: int, j: int|
            0 <= i < j < logged_ids(bytes).len() ==> logged_ids(bytes)[i] != logged_ids(
                bytes,
            )[j],
    ensures
        replay_from(bytes, max) is Recovered,
        max <= replay_from(bytes, max)->Recovered_0,
        forall|i: int|
            0 <= i < logged_ids(bytes).len() ==> #[trigger] logged_ids(bytes)[i]
                <= replay_from(bytes, max)->Recovered_0,
        replay_from(bytes, max)->Recovered_0 == max || logged_ids(bytes).contains(
            replay_from(bytes, max)->Recovered_0,
        ),
    decreases bytes.len(),
{
    if bytes.len() > 0 {
        let n = NEW_NODE_RECORD_LEN as int;
        let ids = logged_ids(bytes);
        let rest = bytes.subrange(n, bytes.len() as int);
        let id = ne_u64_of(bytes.subrange(1, n));
        assert(ids == seq![id] + logged_ids(rest));
        let next_max = if id > max {
            id
        } else {
            max
        };
        assert(ids[0] == id);
        assert forall|i: int| 0 <= i < logged_ids(rest).len() implies #[trigger] logged_ids(
            rest,
        )[i] != next_max by {
            assert(logged_ids(rest)[i] == ids[i + 1]);
        }
        assert forall|i: int, j: int| 0 <= i < j < logged_ids(rest).len() implies logged_ids(
            rest,
        )[i] != logged_ids(rest)[j] by {
            assert(logged_ids(rest)[i] == ids[i + 1]);
            assert(logged_ids(rest)[j] == ids[j + 1]);
        }
        lemma_distinct_records_replay(rest, next_max);
        let w = replay_from(rest, next_max)->Recovered_0;
        assert forall|i: int| 0 <= i < ids.len() implies #[trigger] ids[i] <= w by {
            if i > 0 {
                assert(ids[i] == logged_ids(rest)[i - 1]);
            }
        }
        if w != max {
            if w == next_max {
                assert(ids[0] == w);
            } else {
                let k = choose|k: int| 0 <= k < logged_ids(rest).len() && logged_ids(rest)[k] == w;
                assert(ids[k + 1] == w);
            }
        }
    }
}

/// Records of distinct node identifiers, all above the watermark that a log
/// replays to, may be appended in any order: the log still replays cleanly,
/// to a watermark no lower than any identifier it records.
pub proof fn lemma_records_in_any_order(prefix: Seq<u8>, records: Seq<u8>)
    requires
        replay_log(prefix) is Recovered,
        logged_ids(records).len() * NEW_NODE_RECORD_LEN == records.len(),
        forall|i: int|
            0 <= i < logged_ids(records).len() ==> #[trigger] logged_ids(records)[i] > replay_log(
                prefix,
            )->Recovered_0,
        forall|i: int, j: int|
            0 <= i < j < logged_ids(records).len() ==> logged_ids(records)[i] != logged_ids(
                records,
            )[j],
    ensures
        replay_log(prefix + records) is Recovered,
        forall|i: int|
            0 <= i < logged_ids(prefix + records).len() ==> #[trigger] logged_ids(
                prefix + records,
            )[i] <= replay_log(prefix + records)->Recovered_0,
{
    let w = replay_log(prefix)->Recovered_0;
    lemma_replay_concat(prefix, records, 0);
    lemma_distinct_records_replay(records, w);
    lemma_recovered_bounds_logged_ids(prefix + records, 0);
}

/// A log whose clean part, at watermark `w`, is followed by a record that
/// allocates `w` again is reported as a duplicate allocation of `w`, whatever
/// follows.
pub proof fn lemma_duplicate_detected(prefix: Seq<u8>, record: Seq<u8>, rest: Seq<u8>)
    requires
        replay_log(prefix) is Recovered,
        record.len() == NEW_NODE_RECORD_LEN,
        change_id_of_byte(record[0]) == Some(ChangeId::NewNode),
        ne_u64_of(record.subrange(1, NEW_NODE_RECORD_LEN as int)) == replay_log(
            prefix,
        )->Recovered_0,
    ensures
        replay_log(prefix + record + rest) == ReplayOutcome::DuplicateId(
            replay_log(prefix)->Recovered_0,
        ),
{
    let w = replay_log(prefix)->Recovered_0;
    lemma_replay_concat(prefix, record + rest, 0);
    assert(prefix + record + rest =~= prefix + (record + rest));
    assert((record + rest)[0] == record[0]);
    assert((record + rest).subrange(1, NEW_NODE_RECORD_LEN as int) =~= record.subrange(
        1,
        NEW_NODE_RECORD_LEN as int,
    ));
}

/// A log whose clean part is followed by a byte that names no record kind is
/// reported as a bad record type carrying that byte, whatever follows.
pub proof fn lemma_bad_type_detected(prefix: Seq<u8>, type_byte: u8, rest: Seq<u8>)
    requires
        replay_log(prefix) is Recovered,
        change_id_of_byte(type_byte) is None,
    ensures
        replay_log(prefix + seq![type_byte] + rest) == ReplayOutcome::BadType(type_byte),
{
    lemma_replay_concat(prefix, seq![type_byte] + rest, 0);
    assert(prefix + seq![type_byte] + rest =~= prefix + (seq![type_byte] + rest));
    assert((seq![type_byte] + rest)[0] == type_byte);
}

/// Scans a log's bytes from the start: the recovered watermark, or the first
/// corruption found.
pub fn replay(contents: &Vec<u8>) -> (r: ReplayOutcome)
    ensures
        r == replay_log(contents@),
{
    let len = contents.len();
    let mut pos: usize = 0;
    let mut max: u64 = 0;
    assert(contents@.subrange(0, len as int) =~= contents@);
    while pos < len
        invariant
            pos <= len,
            len == contents@.len(),
            replay_from(contents@.subrange(pos as int, len as int), max) == replay_log(contents@),
        decreases len - pos,
    {
        let ghost rest = contents@.subrange(pos as int, len as int);
        let type_byte = contents[pos];
        match ChangeId::try_from_u8(type_byte) {
            None => {
                return ReplayOutcome::BadType(type_byte);
            },
            Some(ChangeId::NewNode) => {
                if len - pos < NEW_NODE_RECORD_LEN {
                    return ReplayOutcome::Truncated;
                }
                let mut buf: [u8; 8] = [0u8; 8];
                let mut i: usize = 0;
                while i < 8
                    invariant
                        i <= 8,
                        pos + NEW_NODE_RECORD_LEN <= len,
                        len == contents@.len(),
                        forall|k: int| 0 <= k < i ==> buf@[k] == contents@[pos + 1 + k],
                    decreases 8 - i,
                {
                    buf[i] = contents[pos + 1 + i];
                    i = i + 1;
                }
                let node_id = u64_from_ne_bytes(buf);
                assert(buf@ =~= rest.subrange(1, NEW_NODE_RECORD_LEN as int));
                if node_id == max {
                    return ReplayOutcome::DuplicateId(node_id);
                }
                if node_id > max {
                    max = node_id;
                }
                assert(rest.subrange(NEW_NODE_RECORD_LEN as int, rest.len() as int)
                    =~= contents@.subrange((pos + NEW_NODE_RECORD_LEN) as int, len as int));
                pos = pos + NEW_NODE_RECORD_LEN;
            },
        }
    }
    ReplayOutcome::Recovered(max)
}

/// Relies on `std::io::Error::from` with `ErrorKind::UnexpectedEof`: the error
/// that reading a record cut short by the end of the file gives.
#[verifier::external_body]
fn unexpected_eof_error() -> std::io::Error {
    std::io::Error::from(std::io::ErrorKind::UnexpectedEof)
}

/// The write-ahead log: the bytes that it holds, the watermark recovered when
/// it was opened, and the bytes appended since that the host has yet to write
/// to the file.
pub struct Log {
    max_logged_node_id: node::Id,
    unflushed: Vec<u8>,
    contents: Ghost<Seq<u8>>,
}

impl Log {
    /// Every byte of the log, those already in the file and those still to
    /// be written.
    pub closed spec fn contents(&self) -> Seq<u8> {
        self.contents@
    }

    /// The bytes appended that the host has not yet taken to write.
    pub closed spec fn unflushed(&self) -> Seq<u8> {
        self.unflushed@
    }

    /// The largest node identifier that the log held when it was opened.
    pub closed spec fn watermark(&self) -> u64 {
        self.max_logged_node_id.0
    }

    /// The bytes still to be written are the tail of the log.
    pub open spec fn wf(&self) -> bool {
        &&& self.unflushed().len() <= self.contents().len()
        &&& self.contents().subrange(
            self.contents().len() - self.unflushed().len(),
            self.contents().len() as int,
        ) == self.unflushed()
    }

    /// Opens the log from the bytes of its file: a new, empty one when
    /// `create` holds, otherwise one that is replayed to recover its
    /// watermark, or to find that it is corrupt.
    pub fn open(contents: &Vec<u8>, create: bool) -> (r: Result<Log, DbError>)
        requires
            create ==> contents@.len() == 0,
        ensures
            match replay_log(contents@) {
                ReplayOutcome::Recovered(w) => {
                    &&& r is Ok
                    &&& r->Ok_0.wf()
                    &&& r->Ok_0.contents() == contents@
                    &&& r->Ok_0.unflushed() == Seq::<u8>::empty()
                    &&& r->Ok_0.watermark() == w
                },
                ReplayOutcome::BadType(b) => r == Err::<Log, DbError>(
                    DbError::BadLogRecordType { bad_type: b },
                ),
                ReplayOutcome::DuplicateId(id) => r == Err::<Log, DbError>(
                    DbError::LoggedMultipleNodeIdAllocations { node_id: node::Id(id) },
                ),
                ReplayOutcome::Truncated => r matches Err(DbError::Io(_)),
            },
    {
        let max_logged_node_id = if create {
            assert(contents@ =~= Seq::<u8>::empty());
            0
        } else {
            match replay(contents) {
                ReplayOutcome::Recovered(w) => w,
                ReplayOutcome::BadType(b) => {
                    return Err(DbError::BadLogRecordType { bad_type: b });
                },
                ReplayOutcome::DuplicateId(id) => {
                    return Err(DbError::LoggedMultipleNodeIdAllocations { node_id: node::Id(id) });
                },
                ReplayOutcome::Truncated => {
                    return Err(DbError::Io(unexpected_eof_error()));
                },
            }
        };
        let r = Log {
            max_logged_node_id: node::Id(max_logged_node_id),
            unflushed: Vec::new(),
            contents: Ghost(contents@),
        };
        assert(r.contents().subrange(r.contents().len() as int, r.contents().len() as int)
            =~= Seq::<u8>::empty());
        Ok(r)
    }

    /// Appends the record of one change.
    pub fn append_change(&mut self, change: &TransactionChange)
        requires
            old(self).wf(),
        ensures
            final(self).wf(),
            final(self).contents() == old(self).contents() + encode_change(*change),
            final(self).unflushed() == old(self).unflushed() + encode_change(*change),
            final(self).watermark() == old(self).watermark(),
            reads_back(*change),
    {
        let change_type_id = ChangeId::new(change).as_u8();
        match change {
            TransactionChange::NewNode(new_node) => {
                let bytes = new_node.node_id().to_ne_bytes();
                let ghost record = encode_change(*change);
                self.unflushed.push(change_type_id);
                let mut i: usize = 0;
                while i < 8
                    invariant
                        i <= 8,
                        bytes@ == ne_bytes_of(new_node.node_id.0),
                        ne_u64_of(bytes@) == new_node.node_id.0,
                        record == seq![0u8] + bytes@,
                        self.unflushed@ == old(self).unflushed@ + record.subrange(0, i + 1),
                        self.max_logged_node_id == old(self).max_logged_node_id,
                        self.contents == old(self).contents,
                    decreases 8 - i,
                {
                    self.unflushed.push(bytes[i]);
                    i = i + 1;
                    assert(record.subrange(0, i + 1) =~= record.subrange(0, i as int) + seq![
                        record[i as int],
                    ]);
                }
                assert(record.subrange(0, 9) =~= record);
                assert(record.subrange(1, 9) =~= bytes@);
                self.contents = Ghost(self.contents@ + record);
                assert(self.contents().subrange(
                    self.contents().len() - self.unflushed().len(),
                    self.contents().len() as int,
                ) =~= self.unflushed());
            },
        }
    }

    /// Appends the records of a list of changes, in order.
    pub fn append_changes(&mut self, changes: &Vec<TransactionChange>)
        requires
            old(self).wf(),
        ensures
            final(self).wf(),
            final(self).contents() == old(self).contents() + encode_changes(changes@),
            final(self).unflushed() == old(self).unflushed() + encode_changes(changes@),
            final(self).watermark() == old(self).watermark(),
    {
        let mut i: usize = 0;
        while i < changes.len()
            invariant
                i <= changes@.len(),
                self.wf(),
                self.contents() == old(self).contents() + encode_changes(changes@.subrange(0, i as int)),
                self.unflushed() == old(self).unflushed() + encode_changes(changes@.subrange(0, i as int)),
                self.watermark() == old(self).watermark(),
            decreases changes@.len() - i,
        {
            self.append_change(&changes[i]);
            i = i + 1;
            assert(changes@.subrange(0, i as int).drop_last() =~= changes@.subrange(0, i - 1));
        }
        assert(changes@.subrange(0, i as int) =~= changes@);
    }

    /// The watermark recovered when the log was opened.
    pub fn max_logged_node_id(&self) -> (r: node::Id)
        ensures
            r.0 == self.watermark(),
    {
        self.max_logged_node_id
    }

    /// Hands the bytes appended since the last call to the host, which
    /// writes them at the end of the log file, and forgets them.
    pub fn take_unflushed(&mut self) -> (r: Vec<u8>)
        requires
            old(self).wf(),
        ensures
            final(self).wf(),
            r@ == old(self).unflushed(),
            final(self).unflushed() == Seq::<u8>::empty(),
            final(self).contents() == old(self).contents(),
            final(self).watermark() == old(self).watermark(),
    {
        let mut r: Vec<u8> = Vec::new();
        std::mem::swap(&mut r, &mut self.unflushed);
        assert(self.contents().subrange(self.contents().len() as int, self.contents().len() as int)
            =~= Seq::<u8>::empty());
        r
    }
}

} // verus!
