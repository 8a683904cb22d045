use tracking::persist::{Recorder, StoreError};
use tracking::sample::{classify, Sample};
use tracking::snapshot::{get_focused_window, WindowNode, WindowProps};

fn sample(class: &str, ts: i64) -> Sample {
    Sample { class: class.to_string(), title: format!("{} window", class), idle: false, timestamp: ts }
}

fn row(s: &Sample) -> (String, String, bool, i64) {
    (s.class.clone(), s.title.clone(), s.idle, s.timestamp)
}

/// Runs one cycle for `s`, answering each insert with the next entry of
/// `outcomes` (success once they run out); returns the rows written.
fn cycle(rec: &mut Recorder, s: Sample, outcomes: &[Result<(), StoreError>], store: &mut Vec<(String, String, bool, i64)>) -> usize {
    rec.start_cycle(s);
    let mut attempts = 0;
    while let Some(next) = rec.next_insert() {
        let res = outcomes.get(attempts).copied().unwrap_or(Ok(()));
        if res.is_ok() {
            store.push(row(next));
        }
        rec.record_result(res);
        attempts += 1;
    }
    attempts
}

#[test]
fn cycles_without_failures_write_one_row_each_in_order() {
    let mut rec = Recorder::new();
    let mut store = vec![];
    for ts in [100, 110, 120, 130] {
        cycle(&mut rec, sample("app", ts), &[Ok(())], &mut store);
        assert!(rec.cycle_done());
        assert_eq!(rec.buffered(), 0);
    }
    let ts: Vec<i64> = store.iter().map(|r| r.3).collect();
    assert_eq!(ts, vec![100, 110, 120, 130]);
    assert_eq!(store[0], ("app".to_string(), "app window".to_string(), false, 100));
}

#[test]
fn transient_failure_is_retried_in_order() {
    let mut rec = Recorder::new();
    let mut store = vec![];
    cycle(&mut rec, sample("a", 10), &[Err(StoreError::Busy)], &mut store);
    assert_eq!(rec.buffered(), 1);
    cycle(&mut rec, sample("b", 20), &[Err(StoreError::Full)], &mut store);
    assert_eq!(rec.buffered(), 2);
    cycle(&mut rec, sample("c", 30), &[], &mut store);
    assert_eq!(rec.buffered(), 0);
    let ts: Vec<i64> = store.iter().map(|r| r.3).collect();
    assert_eq!(ts, vec![10, 20, 30]);
}

#[test]
fn hard_failure_of_buffered_entry_drops_only_it() {
    let mut rec = Recorder::new();
    let mut store = vec![];
    cycle(&mut rec, sample("a", 10), &[Err(StoreError::Locked)], &mut store);
    cycle(&mut rec, sample("b", 20), &[Err(StoreError::Busy)], &mut store);
    assert_eq!(rec.buffered(), 2);
    let n = cycle(&mut rec, sample("c", 30), &[Err(StoreError::Other)], &mut store);
    assert_eq!(n, 3);
    let ts: Vec<i64> = store.iter().map(|r| r.3).collect();
    assert_eq!(ts, vec![20, 30]);
    assert_eq!(rec.buffered(), 0);
}

#[test]
fn direct_insert_failure_of_any_kind_is_buffered() {
    let mut rec = Recorder::new();
    let mut store = vec![];
    cycle(&mut rec, sample("a", 10), &[Err(StoreError::Other)], &mut store);
    assert_eq!(rec.buffered(), 1);
    assert!(store.is_empty());
    cycle(&mut rec, sample("b", 20), &[], &mut store);
    let ts: Vec<i64> = store.iter().map(|r| r.3).collect();
    assert_eq!(ts, vec![10, 20]);
}

#[test]
fn transient_failure_while_flushing_ends_the_cycle() {
    let mut rec = Recorder::new();
    let mut store = vec![];
    cycle(&mut rec, sample("a", 10), &[Err(StoreError::Busy)], &mut store);
    let n = cycle(&mut rec, sample("b", 20), &[Ok(()), Err(StoreError::Locked)], &mut store);
    assert_eq!(n, 2);
    assert!(rec.cycle_done());
    assert_eq!(rec.buffered(), 1);
    let ts: Vec<i64> = store.iter().map(|r| r.3).collect();
    assert_eq!(ts, vec![10]);
}

#[test]
fn focused_terminal_is_written_as_active_row() {
    let tree = WindowNode {
        focused: false,
        props: None,
        nodes: vec![WindowNode {
            focused: true,
            props: Some(WindowProps { class: "terminal".to_string(), title: "bash".to_string() }),
            nodes: vec![],
        }],
    };
    let s = classify(get_focused_window(&tree), false, 1_700_000_000);
    let mut rec = Recorder::new();
    let mut store = vec![];
    cycle(&mut rec, s, &[Ok(())], &mut store);
    assert_eq!(store, vec![("terminal".to_string(), "bash".to_string(), false, 1_700_000_000)]);
}

#[test]
fn locked_twice_then_written_once_before_later_samples() {
    let mut rec = Recorder::new();
    let mut store = vec![];
    cycle(&mut rec, sample("first", 10), &[Err(StoreError::Locked)], &mut store);
    cycle(&mut rec, sample("second", 20), &[Err(StoreError::Locked)], &mut store);
    assert!(store.is_empty());
    cycle(&mut rec, sample("third", 30), &[Ok(())], &mut store);
    let ts: Vec<i64> = store.iter().map(|r| r.3).collect();
    assert_eq!(ts, vec![10, 20, 30]);
    assert_eq!(store.iter().filter(|r| r.3 == 10).count(), 1);
}

#[test]
fn store_errors_are_classified() {
    assert!(StoreError::Busy.is_transient());
    assert!(StoreError::Locked.is_transient());
    assert!(StoreError::Full.is_transient());
    assert!(!StoreError::Other.is_transient());
}
