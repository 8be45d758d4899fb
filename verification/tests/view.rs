use delray::stats::{ProcessSnapshot, TrafficSnapshot};
use delray::view::{
    handle_key, next_page, on_key, pid_label, preview_footer, prev_page, process_label, scroll,
    scroll_to_bottom, scroll_to_top, selected_row, status_hint, AppState, IpFocus, KeyCode,
    KeyOutcome, KeyPress, LoopStep, Page,
};

fn key(code: KeyCode) -> KeyPress {
    KeyPress { code, ctrl: false }
}

#[test]
fn page_key_reports_changed() {
    let mut state = AppState::new();
    let snapshot = TrafficSnapshot::default();

    let outcome = handle_key(&mut state, key(KeyCode::Char('2')), &snapshot);

    assert!(matches!(outcome, KeyOutcome::Changed));
    assert!(state.page == Page::Processes);
}

#[test]
fn page_key_draws_before_checking_for_snapshot_update() {
    let mut state = AppState::new();
    let snapshot = TrafficSnapshot::empty();

    let step = on_key(&mut state, Some(key(KeyCode::Char('2'))), &snapshot);

    assert_eq!(step, LoopStep::DrawThenPoll);
    assert_eq!(state.page, Page::Processes);
    assert_eq!(on_key(&mut state, None, &snapshot), LoopStep::Poll);
    assert_eq!(on_key(&mut state, Some(key(KeyCode::Char('q'))), &snapshot), LoopStep::Quit);
    assert_eq!(on_key(&mut state, Some(key(KeyCode::Char('x'))), &snapshot), LoopStep::Poll);
}

#[test]
fn quit_keys() {
    let snapshot = TrafficSnapshot::empty();
    let mut state = AppState::new();
    assert_eq!(handle_key(&mut state, key(KeyCode::Esc), &snapshot), KeyOutcome::Quit);
    assert_eq!(
        handle_key(&mut state, KeyPress { code: KeyCode::Char('c'), ctrl: true }, &snapshot),
        KeyOutcome::Quit
    );
    assert_eq!(handle_key(&mut state, key(KeyCode::Char('c')), &snapshot), KeyOutcome::Ignored);
    assert_eq!(state, AppState::new());
}

#[test]
fn pages_wrap_in_both_directions() {
    assert_eq!(next_page(Page::About), Page::Overview);
    assert_eq!(prev_page(Page::Overview), Page::About);
    for page in [Page::Overview, Page::Processes, Page::Ips, Page::About] {
        assert_eq!(prev_page(next_page(page)), page);
        assert_eq!(next_page(prev_page(page)), page);
        assert_eq!(next_page(next_page(next_page(next_page(page)))), page);
        assert_eq!(Page::at(page.index()), page);
    }
}

#[test]
fn tab_switches_focus_only_on_the_address_page() {
    let snapshot = TrafficSnapshot::empty();
    let mut state = AppState::new();
    assert_eq!(handle_key(&mut state, key(KeyCode::Tab), &snapshot), KeyOutcome::Ignored);
    handle_key(&mut state, key(KeyCode::Char('3')), &snapshot);
    assert_eq!(handle_key(&mut state, key(KeyCode::Tab), &snapshot), KeyOutcome::Changed);
    assert_eq!(state.ip_focus, IpFocus::Outbound);
}

#[test]
fn scrolling_stops_at_the_first_row() {
    let mut state = AppState::new();
    state.page = Page::Processes;
    scroll(&mut state, -3);
    assert_eq!(state.proc_scroll, 0);
    scroll(&mut state, 4);
    assert_eq!(state.proc_scroll, 4);
    scroll(&mut state, -1);
    assert_eq!(state.proc_scroll, 3);
    scroll_to_top(&mut state);
    assert_eq!(state.proc_scroll, 0);
    scroll(&mut state, isize::MIN);
    assert_eq!(state.proc_scroll, 0);
}

#[test]
fn page_keys_scroll_by_the_table_height() {
    let snapshot = TrafficSnapshot::empty();
    let mut state = AppState::new();
    state.page = Page::Processes;
    state.fit_processes(14, 100);
    assert_eq!(state.proc_view_height, 10);
    handle_key(&mut state, key(KeyCode::PageDown), &snapshot);
    assert_eq!(state.proc_scroll, 10);
    handle_key(&mut state, key(KeyCode::Char('j')), &snapshot);
    assert_eq!(state.proc_scroll, 11);
    handle_key(&mut state, key(KeyCode::PageUp), &snapshot);
    assert_eq!(state.proc_scroll, 1);
    handle_key(&mut state, key(KeyCode::Up), &snapshot);
    handle_key(&mut state, key(KeyCode::Up), &snapshot);
    assert_eq!(state.proc_scroll, 0);
}

#[test]
fn end_scrolls_the_last_row_to_the_bottom() {
    let mut state = AppState::new();
    state.page = Page::Ips;
    state.fit_ips(7, 7, 10, 10);
    assert_eq!(state.ip_in_view_height, 3);
    let snapshot = TrafficSnapshot::empty();
    scroll_to_bottom(&mut state, &snapshot);
    assert_eq!(state.ip_in_scroll, 0);
}

#[test]
fn fitting_keeps_the_scroll_on_a_row() {
    let mut state = AppState::new();
    state.proc_scroll = 50;
    state.fit_processes(3, 5);
    assert_eq!(state.proc_view_height, 1);
    assert_eq!(state.proc_scroll, 4);
    state.fit_processes(30, 0);
    assert_eq!(state.proc_scroll, 0);
    assert_eq!(selected_row(0, 3), None);
    assert_eq!(selected_row(5, 3), Some(3));
    assert_eq!(selected_row(5, 9), Some(4));
}

#[test]
fn overview_footers_count_the_rows_left_out() {
    assert_eq!(preview_footer(12, 5, 2), "+7 more (press 2)");
    assert_eq!(preview_footer(5, 5, 3), "");
    assert_eq!(preview_footer(0, 5, 3), "");
}

#[test]
fn status_hints_name_the_keys_of_each_page() {
    assert_eq!(status_hint(Page::Overview), "1-4:page  ←→/hl:switch  q:quit");
    assert!(status_hint(Page::Ips).contains("Tab:panel"));
    assert!(status_hint(Page::Processes).contains("Home/End"));
}

#[test]
fn process_rows_show_labels_and_ids() {
    let attributed =
        ProcessSnapshot::attributed(7, Some("curl --silent".to_string()), None, 0, 40, 60);
    let unattributed = ProcessSnapshot::unattributed(40, 60, 0);
    assert_eq!(process_label(&attributed, 4), "curl…");
    assert_eq!(process_label(&attributed, 40), "curl --silent");
    assert_eq!(process_label(&unattributed, 4), "<unattributed traffic>");
    assert_eq!(pid_label(&attributed), "7");
    assert_eq!(pid_label(&unattributed), "-");
}
