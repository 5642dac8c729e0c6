use kirunadb::log::{replay, ChangeId, Log, ReplayOutcome};
use kirunadb::node::Id;
use kirunadb::transaction_manager::{TransactionChange, TransactionChangeNewNode};
use kirunadb::DbError;

fn record(id: u64) -> Vec<u8> {
    let mut bytes = vec![0u8];
    bytes.extend_from_slice(&id.to_ne_bytes());
    bytes
}

fn records(ids: &[u64]) -> Vec<u8> {
    let mut bytes = Vec::new();
    for id in ids {
        bytes.extend_from_slice(&record(*id));
    }
    bytes
}

fn new_node(id: u64) -> TransactionChange {
    TransactionChange::NewNode(TransactionChangeNewNode::new(Id::from(id)))
}

#[test]
fn replay_empty_log_recovers_zero() {
    assert_eq!(replay(&Vec::new()), ReplayOutcome::Recovered(0));
}

#[test]
fn replay_recovers_largest_id() {
    assert_eq!(replay(&records(&[1, 2, 3])), ReplayOutcome::Recovered(3));
}

#[test]
fn replay_accepts_lower_id_logged_later() {
    assert_eq!(replay(&records(&[2, 1])), ReplayOutcome::Recovered(2));
    assert_eq!(replay(&records(&[5, 7, 6])), ReplayOutcome::Recovered(7));
}

#[test]
fn replay_repeat_of_earlier_non_maximal_id_is_accepted() {
    assert_eq!(replay(&records(&[1, 2, 1])), ReplayOutcome::Recovered(2));
}

#[test]
fn replay_detects_repeated_maximum() {
    assert_eq!(replay(&records(&[1, 1])), ReplayOutcome::DuplicateId(1));
    assert_eq!(replay(&records(&[3, 5, 5, 9])), ReplayOutcome::DuplicateId(5));
}

#[test]
fn replay_treats_id_zero_as_duplicate_of_initial_watermark() {
    assert_eq!(replay(&records(&[0])), ReplayOutcome::DuplicateId(0));
}

#[test]
fn replay_detects_bad_type() {
    let mut bytes = records(&[1]);
    bytes[0] = 0xBD;
    assert_eq!(replay(&bytes), ReplayOutcome::BadType(0xBD));
    let mut bytes = records(&[1, 2]);
    bytes[9] = 7;
    assert_eq!(replay(&bytes), ReplayOutcome::BadType(7));
}

#[test]
fn replay_detects_truncated_record() {
    let mut bytes = records(&[1, 2]);
    bytes.truncate(13);
    assert_eq!(replay(&bytes), ReplayOutcome::Truncated);
    assert_eq!(replay(&vec![0u8]), ReplayOutcome::Truncated);
}

#[test]
fn change_id_round_trips_through_its_byte() {
    assert_eq!(ChangeId::NewNode.as_u8(), 0);
    assert_eq!(ChangeId::try_from_u8(0), Some(ChangeId::NewNode));
    assert_eq!(ChangeId::try_from_u8(1), None);
    assert_eq!(ChangeId::try_from_u8(0xFF), None);
    assert_eq!(ChangeId::new(&new_node(4)), ChangeId::NewNode);
}

#[test]
fn log_open_created_is_empty() {
    let log = Log::open(&Vec::new(), true).unwrap();
    assert_eq!(log.max_logged_node_id(), Id(0));
}

#[test]
fn log_open_existing_recovers_watermark() {
    let log = Log::open(&records(&[4, 9, 6]), false).unwrap();
    assert_eq!(log.max_logged_node_id(), Id(9));
}

#[test]
fn log_open_reports_each_corruption() {
    let mut bytes = records(&[1]);
    bytes[0] = 2;
    assert!(matches!(
        Log::open(&bytes, false),
        Err(DbError::BadLogRecordType { bad_type: 2 })
    ));
    assert!(matches!(
        Log::open(&records(&[8, 8]), false),
        Err(DbError::LoggedMultipleNodeIdAllocations { node_id: Id(8) })
    ));
    let mut bytes = records(&[1]);
    bytes.pop();
    match Log::open(&bytes, false) {
        Err(DbError::Io(e)) => assert_eq!(e.kind(), std::io::ErrorKind::UnexpectedEof),
        _ => panic!("a cut-short record must be an I/O error"),
    }
}

#[test]
fn log_append_encodes_records() {
    let mut log = Log::open(&Vec::new(), true).unwrap();
    log.append_change(&new_node(7));
    assert_eq!(log.take_unflushed(), record(7));
    assert_eq!(log.take_unflushed(), Vec::<u8>::new());
    log.append_changes(&vec![new_node(1), new_node(2)]);
    assert_eq!(log.take_unflushed(), records(&[1, 2]));
    assert_eq!(log.max_logged_node_id(), Id(0));
}

#[test]
fn replay_distinct_records_in_any_order_after_clean_prefix() {
    let mut bytes = records(&[1, 2]);
    bytes.extend_from_slice(&records(&[9, 4, 7]));
    assert_eq!(replay(&bytes), ReplayOutcome::Recovered(9));
}
