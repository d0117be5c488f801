use clientd::event_log::EventLog;
use clientd::report::{
    failure_message, fetch_message, record_failure, record_fetch, record_reissue,
    record_unreachable, reissue_message, unreachable_message,
};

fn ok(text: &str) -> Result<String, String> {
    Ok(String::from(text))
}

fn err(text: &str) -> Result<String, String> {
    Err(String::from(text))
}

fn texts(log: &EventLog) -> Vec<String> {
    log.get(0).iter().map(|e| e.data().to_string()).collect()
}

#[test]
fn a_fetched_item_is_reported_with_its_transaction() {
    assert_eq!(fetch_message(&ok("4f2a")), "successfully fetched: 4f2a");
    assert_eq!(fetch_message(&ok("")), "successfully fetched: ");
}

#[test]
fn a_failed_item_is_reported_with_its_error() {
    assert_eq!(fetch_message(&err("Timeout")), "Error while fetching: Timeout");
}

#[test]
fn a_reissue_is_reported_with_its_out_point() {
    assert_eq!(
        reissue_message(&ok("OutPoint { txid: 9c, out_idx: 0 }")),
        "Successful reissue, outpoint: OutPoint { txid: 9c, out_idx: 0 }"
    );
    assert_eq!(
        reissue_message(&err("MintApiError")),
        "Error while reissue: MintApiError"
    );
}

#[test]
fn an_unreachable_worker_is_reported_as_critical() {
    assert_eq!(
        unreachable_message("channel closed"),
        "Critical error, restart the deamon: channel closed"
    );
}

#[test]
fn a_refresh_pass_leaves_one_event_for_each_item() {
    let mut log = EventLog::new(16);
    log.add(String::from("before"));
    let outcomes = vec![ok("aa"), err("Timeout"), ok("bb")];
    let stamps = record_fetch(&mut log, &outcomes);
    assert_eq!(stamps.len(), 3);
    assert_eq!(log.len(), 4);
    let mut read = texts(&log);
    read.sort();
    assert_eq!(
        read,
        vec![
            "Error while fetching: Timeout",
            "before",
            "successfully fetched: aa",
            "successfully fetched: bb",
        ]
    );
    let all = log.get(0);
    for stamp in stamps {
        assert!(all.iter().any(|e| e.timestamp() == stamp));
    }
}

#[test]
fn a_refresh_pass_goes_on_after_a_failed_item() {
    let mut log = EventLog::new(16);
    let outcomes = vec![err("first"), err("second"), ok("cc")];
    let stamps = record_fetch(&mut log, &outcomes);
    assert_eq!(stamps.len(), 3);
    let read = texts(&log);
    assert!(read.contains(&String::from("Error while fetching: first")));
    assert!(read.contains(&String::from("Error while fetching: second")));
    assert!(read.contains(&String::from("successfully fetched: cc")));
}

#[test]
fn a_refresh_pass_without_items_leaves_nothing() {
    let mut log = EventLog::new(4);
    let stamps = record_fetch(&mut log, &Vec::new());
    assert!(stamps.is_empty());
    assert_eq!(log.len(), 0);
}

#[test]
fn a_refresh_pass_larger_than_the_log_fills_it() {
    let mut log = EventLog::new(2);
    let outcomes = vec![ok("a"), ok("b"), ok("c"), ok("d"), ok("e")];
    let stamps = record_fetch(&mut log, &outcomes);
    assert_eq!(stamps.len(), 5);
    assert_eq!(log.len(), 2);
}

#[test]
fn a_reissue_that_went_well_is_recorded_and_signalled() {
    let mut log = EventLog::new(4);
    let (timestamp, signal) = record_reissue(&mut log, &ok("OutPoint(1)"));
    assert!(signal);
    assert_eq!(texts(&log), vec!["Successful reissue, outpoint: OutPoint(1)"]);
    assert_eq!(log.get(0)[0].timestamp(), timestamp);
}

#[test]
fn a_reissue_that_failed_is_recorded_and_not_signalled() {
    let mut log = EventLog::new(4);
    let (timestamp, signal) = record_reissue(&mut log, &err("InvalidSignature"));
    assert!(!signal);
    assert_eq!(texts(&log), vec!["Error while reissue: InvalidSignature"]);
    assert_eq!(log.get(0)[0].timestamp(), timestamp);
}

#[test]
fn a_failed_signal_is_recorded() {
    let mut log = EventLog::new(4);
    let timestamp = record_unreachable(&mut log, "channel closed");
    assert_eq!(
        texts(&log),
        vec!["Critical error, restart the deamon: channel closed"]
    );
    assert_eq!(log.get(timestamp).len(), 1);
}

#[test]
fn a_failed_operation_is_reported_with_what_was_done() {
    assert_eq!(
        failure_message("peg-in", "InvalidProof"),
        "Error while peg-in: InvalidProof"
    );
    assert_eq!(failure_message("", ""), "Error while : ");
    assert_eq!(
        failure_message("fetching", "Timeout"),
        fetch_message(&err("Timeout"))
    );
    assert_eq!(
        failure_message("reissue", "Timeout"),
        reissue_message(&err("Timeout"))
    );
}

#[test]
fn a_failed_operation_is_recorded() {
    let mut log = EventLog::new(4);
    let timestamp = record_failure(&mut log, "spend", "NotEnoughCoins");
    assert_eq!(texts(&log), vec!["Error while spend: NotEnoughCoins"]);
    assert_eq!(log.get(0)[0].timestamp(), timestamp);
}
