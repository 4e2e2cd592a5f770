//! The routing-mode submodel: the fixed option list, the cursor, and the
//! reported mode.

use clash_tui::Config;
use clash_tui::GeneralState;

#[test]
fn starts_with_fixed_modes() {
    let gs = GeneralState::new();
    assert_eq!(gs.modes, vec!["global".to_string(), "rule".to_string(), "direct".to_string()]);
    assert_eq!(gs.index, 0);
    assert!(gs.config.is_none());
}

#[test]
fn mode_cycle_wraps_after_three_steps() {
    let mut gs = GeneralState::new();
    gs.next_mode();
    assert_eq!(gs.index, 1);
    gs.next_mode();
    assert_eq!(gs.index, 2);
    gs.next_mode();
    assert_eq!(gs.index, 0);
    gs.previous_mode();
    assert_eq!(gs.index, 2);
    gs.previous_mode();
    gs.previous_mode();
    assert_eq!(gs.index, 0);
}

#[test]
fn select_mode_names_the_highlighted_option() {
    let mut gs = GeneralState::new();
    assert_eq!(gs.select_mode(), "global");
    gs.next_mode();
    assert_eq!(gs.select_mode(), "rule");
    gs.next_mode();
    assert_eq!(gs.select_mode(), "direct");
}

#[test]
fn fetch_stores_reported_mode_and_keeps_cursor() {
    let mut gs = GeneralState::new();
    gs.next_mode();
    gs.fetch_data(Some(Config { mode: "direct".to_string() }));
    assert_eq!(gs.index, 1);
    assert_eq!(gs.config.as_ref().unwrap().mode, "direct");
    gs.fetch_data(None);
    assert_eq!(gs.index, 1);
    assert!(gs.config.is_none());
}
