use kirunadb::node;
use kirunadb::transaction_manager::Transaction;
use kirunadb::{Db, DbError};

/// The log file of a database, as the host keeps it.
struct LogFile {
    bytes: Vec<u8>,
    created: bool,
}

impl LogFile {
    fn new() -> LogFile {
        LogFile { bytes: Vec::new(), created: false }
    }

    fn open_db(&mut self) -> Result<Db, DbError> {
        let is_dir_empty = !self.created;
        let result = Db::open(&self.bytes, is_dir_empty);
        if result.is_ok() {
            self.created = true;
        }
        result
    }

    fn flush(&mut self, db: &mut Db) {
        let out = db.take_log_output();
        self.bytes.extend_from_slice(&out);
    }
}

fn commit_ok(mut t: Transaction, db: &mut Db, file: &mut LogFile) {
    t.commit(db);
    file.flush(db);
}

fn allocate(t: &mut Transaction, db: &mut Db, file: &mut LogFile) -> node::Id {
    let id = t.new_art_descriptor_node(db);
    file.flush(db);
    id
}

fn expect_u64(bytes: &[u8], offset: usize, value: u64) {
    let mut u64_buf = [0u8; 8];
    u64_buf.copy_from_slice(&bytes[offset..offset + 8]);
    assert_eq!(u64::from_ne_bytes(u64_buf), value);
}

fn replace_u64(bytes: &mut [u8], offset: usize, expected: u64, new: u64) {
    expect_u64(bytes, offset, expected);
    bytes[offset..offset + 8].copy_from_slice(&new.to_ne_bytes());
}

fn replace_u8(bytes: &mut [u8], offset: usize, expected: u8, new: u8) {
    assert_eq!(bytes[offset], expected);
    bytes[offset] = new;
}

#[test]
fn open_created_db() {
    let mut file = LogFile::new();
    assert!(file.open_db().is_ok());
    assert!(file.open_db().is_ok());
}

#[test]
fn begin_transaction() {
    let mut file = LogFile::new();
    let mut db = file.open_db().unwrap();
    let _transaction = db.begin_transaction();
}

#[test]
fn sequential_transaction_ids() {
    let mut file = LogFile::new();
    let mut db = file.open_db().unwrap();
    let t1 = db.begin_transaction();
    let t1_id = t1.id();
    commit_ok(t1, &mut db, &mut file);
    let t2 = db.begin_transaction();
    let t2_id = t2.id();
    commit_ok(t2, &mut db, &mut file);
    assert_ne!(t1_id, t2_id);
}

#[test]
fn interleaved_transaction_ids() {
    let mut file = LogFile::new();
    let mut db = file.open_db().unwrap();
    let t1 = db.begin_transaction();
    let t1_id = t1.id();
    let t2 = db.begin_transaction();
    let t2_id = t2.id();
    commit_ok(t1, &mut db, &mut file);
    commit_ok(t2, &mut db, &mut file);
    assert_ne!(t1_id, t2_id);
}

#[test]
fn transaction_new_node() {
    let mut file = LogFile::new();
    let mut db = file.open_db().unwrap();
    let mut transaction = db.begin_transaction();
    let _new_node_id = allocate(&mut transaction, &mut db, &mut file);
    commit_ok(transaction, &mut db, &mut file);
}

#[test]
fn transaction_two_new_nodes() {
    let mut file = LogFile::new();
    let mut db = file.open_db().unwrap();
    let mut t1 = db.begin_transaction();
    let t1_new_node_id = allocate(&mut t1, &mut db, &mut file);
    commit_ok(t1, &mut db, &mut file);
    let mut t2 = db.begin_transaction();
    let t2_new_node_id = allocate(&mut t2, &mut db, &mut file);
    commit_ok(t2, &mut db, &mut file);
    assert_ne!(t1_new_node_id, t2_new_node_id);
}

#[test]
fn node_id_assignment_consistent_on_reopen() {
    let mut file = LogFile::new();
    let n1_id;
    {
        let mut created_db = file.open_db().unwrap();
        let mut transaction = created_db.begin_transaction();
        n1_id = allocate(&mut transaction, &mut created_db, &mut file);
        commit_ok(transaction, &mut created_db, &mut file);
    }
    {
        let mut opened_db = file.open_db().unwrap();
        let mut transaction = opened_db.begin_transaction();
        let n2_id = allocate(&mut transaction, &mut opened_db, &mut file);
        commit_ok(transaction, &mut opened_db, &mut file);
        assert_ne!(n1_id, n2_id);
    }
}

#[test]
fn node_id_assignment_consistent_on_reopen_two_ids() {
    let mut file = LogFile::new();
    let n1_id;
    let n2_id;
    {
        let mut created_db = file.open_db().unwrap();
        let mut t1 = created_db.begin_transaction();
        n1_id = allocate(&mut t1, &mut created_db, &mut file);
        commit_ok(t1, &mut created_db, &mut file);
        let mut t2 = created_db.begin_transaction();
        n2_id = allocate(&mut t2, &mut created_db, &mut file);
        commit_ok(t2, &mut created_db, &mut file);
    }
    {
        let mut opened_db = file.open_db().unwrap();
        let mut transaction = opened_db.begin_transaction();
        let n3_id = allocate(&mut transaction, &mut opened_db, &mut file);
        commit_ok(transaction, &mut opened_db, &mut file);
        assert_ne!(n1_id, n3_id);
        assert_ne!(n2_id, n3_id);
    }
}

#[test]
fn node_id_assignment_consistent_on_reopen_two_ids_lower_id_committed_later() {
    let mut file = LogFile::new();
    let n1_id;
    let n2_id;
    {
        let mut created_db = file.open_db().unwrap();
        let mut t1 = created_db.begin_transaction();
        n1_id = allocate(&mut t1, &mut created_db, &mut file);
        let mut t2 = created_db.begin_transaction();
        n2_id = allocate(&mut t2, &mut created_db, &mut file);
        commit_ok(t2, &mut created_db, &mut file);
        commit_ok(t1, &mut created_db, &mut file);
    }
    {
        let mut opened_db = file.open_db().unwrap();
        let mut transaction = opened_db.begin_transaction();
        let n3_id = allocate(&mut transaction, &mut opened_db, &mut file);
        commit_ok(transaction, &mut opened_db, &mut file);
        assert_ne!(n1_id, n3_id);
        assert_ne!(n2_id, n3_id);
    }
}

#[test]
fn node_id_assignment_corruption_repeated_id() {
    let mut file = LogFile::new();
    let n1_id;
    let n2_id;
    {
        let mut created_db = file.open_db().unwrap();
        let mut t1 = created_db.begin_transaction();
        n1_id = allocate(&mut t1, &mut created_db, &mut file);
        commit_ok(t1, &mut created_db, &mut file);
        let mut t2 = created_db.begin_transaction();
        n2_id = allocate(&mut t2, &mut created_db, &mut file);
        commit_ok(t2, &mut created_db, &mut file);
    }
    expect_u64(&file.bytes, 1, n1_id.as_u64());
    replace_u64(&mut file.bytes, 10, n2_id.as_u64(), n1_id.as_u64());
    assert!(matches!(
        file.open_db(),
        Err(DbError::LoggedMultipleNodeIdAllocations { node_id }) if node_id == n1_id
    ));
}

#[test]
fn log_corruption_unknown_type() {
    let mut file = LogFile::new();
    {
        let mut created_db = file.open_db().unwrap();
        let mut transaction = created_db.begin_transaction();
        allocate(&mut transaction, &mut created_db, &mut file);
        commit_ok(transaction, &mut created_db, &mut file);
    }
    replace_u8(&mut file.bytes, 0, 0, 0xBD);
    assert!(matches!(
        file.open_db(),
        Err(DbError::BadLogRecordType { bad_type: 0xBD })
    ));
}

#[test]
fn fresh_database_allocates_one_first() {
    let mut file = LogFile::new();
    let mut db = file.open_db().unwrap();
    let mut t = db.begin_transaction();
    assert_eq!(allocate(&mut t, &mut db, &mut file), node::Id(1));
}

#[test]
fn allocations_increase_within_a_session() {
    let mut file = LogFile::new();
    let mut db = file.open_db().unwrap();
    let mut t1 = db.begin_transaction();
    let mut t2 = db.begin_transaction();
    let a = allocate(&mut t1, &mut db, &mut file);
    let b = allocate(&mut t2, &mut db, &mut file);
    let c = allocate(&mut t1, &mut db, &mut file);
    assert!(a.as_u64() < b.as_u64());
    assert!(b.as_u64() < c.as_u64());
    assert_eq!((a.as_u64(), b.as_u64(), c.as_u64()), (1, 2, 3));
}

#[test]
fn allocate_commit_reopen_scenario() {
    let mut file = LogFile::new();
    {
        let mut db = file.open_db().unwrap();
        let mut ta = db.begin_transaction();
        assert_eq!(allocate(&mut ta, &mut db, &mut file).as_u64(), 1);
        commit_ok(ta, &mut db, &mut file);
        let mut tb = db.begin_transaction();
        assert_eq!(allocate(&mut tb, &mut db, &mut file).as_u64(), 2);
        commit_ok(tb, &mut db, &mut file);
    }
    let mut db = file.open_db().unwrap();
    let mut tc = db.begin_transaction();
    assert_eq!(allocate(&mut tc, &mut db, &mut file).as_u64(), 3);
}

#[test]
fn reopening_twice_recovers_equal_watermarks() {
    let mut file = LogFile::new();
    {
        let mut db = file.open_db().unwrap();
        let mut t = db.begin_transaction();
        allocate(&mut t, &mut db, &mut file);
        allocate(&mut t, &mut db, &mut file);
    }
    let mut first = file.open_db().unwrap();
    let mut second = file.open_db().unwrap();
    let mut t1 = first.begin_transaction();
    let mut t2 = second.begin_transaction();
    assert_eq!(t1.new_art_descriptor_node(&mut first), node::Id(3));
    assert_eq!(t2.new_art_descriptor_node(&mut second), node::Id(3));
}

#[test]
fn fresh_database_reopened_empty_recovers_zero() {
    let mut file = LogFile::new();
    let _created = file.open_db().unwrap();
    let mut reopened = file.open_db().unwrap();
    let mut t = reopened.begin_transaction();
    assert_eq!(t.new_art_descriptor_node(&mut reopened), node::Id(1));
}

#[test]
fn dropped_transaction_without_allocation_leaves_log_unchanged() {
    let mut file = LogFile::new();
    let mut db = file.open_db().unwrap();
    {
        let _t = db.begin_transaction();
    }
    assert!(db.take_log_output().is_empty());
    let t = db.begin_transaction();
    commit_ok(t, &mut db, &mut file);
    assert!(file.bytes.is_empty());
}

#[test]
fn dropped_transaction_keeps_its_allocation_durable() {
    let mut file = LogFile::new();
    let id;
    {
        let mut db = file.open_db().unwrap();
        let mut t = db.begin_transaction();
        id = allocate(&mut t, &mut db, &mut file);
    }
    let mut expected = vec![0u8];
    expected.extend_from_slice(&id.to_ne_bytes());
    assert_eq!(file.bytes, expected);
    let mut db = file.open_db().unwrap();
    let mut t = db.begin_transaction();
    assert_eq!(t.new_art_descriptor_node(&mut db).as_u64(), id.as_u64() + 1);
}

#[test]
fn transaction_ids_restart_at_zero_on_reopen() {
    let mut file = LogFile::new();
    {
        let mut db = file.open_db().unwrap();
        assert_eq!(db.begin_transaction().id().as_u64(), 0);
        assert_eq!(db.begin_transaction().id().as_u64(), 1);
    }
    let mut db = file.open_db().unwrap();
    assert_eq!(db.begin_transaction().id().as_u64(), 0);
}

#[test]
fn truncated_log_fails_open_with_io_error() {
    let mut file = LogFile::new();
    {
        let mut db = file.open_db().unwrap();
        let mut t = db.begin_transaction();
        allocate(&mut t, &mut db, &mut file);
    }
    file.bytes.pop();
    assert!(matches!(file.open_db(), Err(DbError::Io(_))));
}

#[test]
fn open_reports_whether_limits_are_reached() {
    let mut bytes = vec![0u8];
    bytes.extend_from_slice(&(u64::MAX - 1).to_ne_bytes());
    let mut db = Db::open(&bytes, false).unwrap();
    assert!(!db.can_allocate_node_id());
    assert!(db.can_begin_transaction());
    let _t = db.begin_transaction();
}

#[test]
fn open_checked_refuses_exhausted_log() {
    let mut bytes = vec![0u8];
    bytes.extend_from_slice(&u64::MAX.to_ne_bytes());
    assert!(Db::open_checked(&bytes, false).is_none());
    let mut bytes = vec![0u8];
    bytes.extend_from_slice(&(u64::MAX - 1).to_ne_bytes());
    assert!(matches!(Db::open_checked(&bytes, false), Some(Ok(_))));
    assert!(matches!(Db::open_checked(&Vec::new(), true), Some(Ok(_))));
    assert!(matches!(
        Db::open_checked(&vec![3u8], false),
        Some(Err(DbError::BadLogRecordType { bad_type: 3 }))
    ));
}
