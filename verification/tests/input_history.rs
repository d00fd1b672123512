use dezes::input_history::{HistoryQueue, InputHistory, CMD_INPUT_HIST_SIZE};

#[test]
fn test_history_queue_up_down_draft() {
    let mut q: HistoryQueue<String> = HistoryQueue::new();
    q.push("A".to_string());
    q.push("B".to_string());
    q.push("C".to_string());

    let draft = "draft_text".to_string();

    assert_eq!(q.navigate_up(&draft), Some("C".to_string()));
    assert_eq!(q.navigate_up(&draft), Some("B".to_string()));
    assert_eq!(q.navigate_up(&draft), Some("A".to_string()));
    assert_eq!(q.navigate_up(&draft), Some("A".to_string()));

    assert_eq!(q.navigate_down(&draft), Some("B".to_string()));
    assert_eq!(q.navigate_down(&draft), Some("C".to_string()));
    assert_eq!(q.navigate_down(&draft), Some("draft_text".to_string()));

    assert_eq!(q.navigate_down(&draft), Some("C".to_string()));
}

#[test]
fn test_history_queue_dedup() {
    let mut q: HistoryQueue<String> = HistoryQueue::new();
    q.push("100".to_string());
    q.push("200".to_string());
    q.push("100".to_string());
    assert_eq!(q.history.len(), 2);
    assert_eq!(q.history[0], "200");
    assert_eq!(q.history[1], "100");
}

#[test]
fn the_history_is_capped() {
    let mut q: HistoryQueue<String> = HistoryQueue::new();
    for i in 0..(CMD_INPUT_HIST_SIZE + 10) {
        q.push(format!("cmd_{}", i));
    }
    assert_eq!(q.history.len(), CMD_INPUT_HIST_SIZE);
    assert!(!q.history.contains(&"cmd_0".to_string()));
    assert!(q.history.contains(&format!("cmd_{}", CMD_INPUT_HIST_SIZE + 9)));
}

#[test]
fn an_empty_history_gives_nothing() {
    let mut q: HistoryQueue<String> = HistoryQueue::new();
    let d = "x".to_string();
    assert_eq!(q.navigate_up(&d), None);
    assert_eq!(q.navigate_down(&d), None);
    q.push("a".to_string());
    q.reset_nav();
    assert!(q.history_index.is_none());
}

#[test]
fn test_duplicate_entry_moves_to_latest() {
    let mut hist = InputHistory::new();
    hist.push("set theme sage23".to_string());
    hist.push("goto 100".to_string());
    hist.push("set theme dark".to_string());

    hist.push("set theme sage23".to_string());
    assert_eq!(hist.history.len(), 3);

    hist.up();
    assert_eq!(hist.input, "set theme sage23");

    hist.up();
    assert_eq!(hist.input, "set theme dark");

    hist.up();
    assert_eq!(hist.input, "goto 100");
}

#[test]
fn test_history_capacity_limit() {
    let mut hist = InputHistory::new();
    for i in 0..(CMD_INPUT_HIST_SIZE + 10) {
        hist.push(format!("cmd_{}", i));
    }
    assert_eq!(hist.history.len(), CMD_INPUT_HIST_SIZE);
    assert!(!hist.history.contains(&"cmd_0".to_string()));
    assert!(hist.history.contains(&format!("cmd_{}", CMD_INPUT_HIST_SIZE + 9)));
}
