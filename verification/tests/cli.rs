use sqtop::cli::{detect_current_user_from_sources, HistoryWindow};

#[test]
fn detects_user_from_env_prefer_user_over_logname() {
    let user = detect_current_user_from_sources(Some("alice"), Some("bob"), Some("carol"));
    assert_eq!(user.as_deref(), Some("alice"));
}

#[test]
fn detects_user_from_logname_and_id_output() {
    let from_logname = detect_current_user_from_sources(None, Some("bob"), Some("carol"));
    let from_id = detect_current_user_from_sources(None, None, Some("carol\n"));
    assert_eq!(from_logname.as_deref(), Some("bob"));
    assert_eq!(from_id.as_deref(), Some("carol"));
}

#[test]
fn cycles_history_window() {
    assert_eq!(HistoryWindow::H24.next(), HistoryWindow::D3);
    assert_eq!(HistoryWindow::D3.next(), HistoryWindow::D7);
    assert_eq!(HistoryWindow::D7.next(), HistoryWindow::H24);
}
