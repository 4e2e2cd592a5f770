//! The focus-and-dispatch controller: section navigation, pane focus, and
//! the transport actions each input demands.

use clash_tui::process_key;
use clash_tui::Action;
use clash_tui::App;
use clash_tui::Config;
use clash_tui::Key;
use clash_tui::Pane;
use clash_tui::Proxy;
use clash_tui::ProxyKind;
use clash_tui::Route;

fn group(name: &str, members: &[&str]) -> Proxy {
    Proxy {
        name: name.to_string(),
        kind: ProxyKind::Group {
            members: members.iter().map(|m| m.to_string()).collect(),
            now: None,
        },
    }
}

#[test]
fn new_app_starts_on_menu() {
    let app = App::new();
    assert_eq!(app.page, 0);
    assert_eq!(app.focus, Pane::Menu);
    assert_eq!(
        app.routes,
        vec![Route::General, Route::Proxies, Route::Rules, Route::Connections, Route::Logs]
    );
    assert_eq!(app.route(), Some(&Route::General));
}

#[test]
fn quit_works_from_any_focus() {
    let mut app = App::new();
    assert_eq!(process_key(Key::Quit, &mut app), Action::Quit);
    process_key(Key::Enter, &mut app);
    assert_eq!(app.focus, Pane::General);
    assert_eq!(process_key(Key::Quit, &mut app), Action::Quit);
    assert_eq!(app.focus, Pane::General);
}

#[test]
fn menu_wraps_over_five_sections() {
    let mut app = App::new();
    let mut actions = Vec::new();
    for _ in 0..5 {
        actions.push(process_key(Key::Down, &mut app));
    }
    assert_eq!(app.page, 0);
    assert_eq!(
        actions,
        vec![
            Action::FetchProxies,
            Action::Noop,
            Action::Noop,
            Action::Noop,
            Action::FetchGeneral,
        ]
    );
    for _ in 0..5 {
        process_key(Key::Up, &mut app);
    }
    assert_eq!(app.page, 0);
}

#[test]
fn jump_navigates_and_requests_fetch() {
    let mut app = App::new();
    assert_eq!(process_key(Key::Jump(1), &mut app), Action::FetchProxies);
    assert_eq!(app.page, 1);
    assert_eq!(process_key(Key::Jump(4), &mut app), Action::Noop);
    assert_eq!(app.page, 4);
    assert_eq!(process_key(Key::Jump(0), &mut app), Action::FetchGeneral);
    assert_eq!(app.page, 0);
}

#[test]
fn enter_moves_focus_only_on_interactive_sections() {
    let mut app = App::new();
    assert_eq!(process_key(Key::Enter, &mut app), Action::FetchGeneral);
    assert_eq!(app.focus, Pane::General);
    assert_eq!(process_key(Key::Back, &mut app), Action::Noop);
    assert_eq!(app.focus, Pane::Menu);
    process_key(Key::Jump(1), &mut app);
    assert_eq!(process_key(Key::Enter, &mut app), Action::FetchProxies);
    assert_eq!(app.focus, Pane::Proxies);
    process_key(Key::Back, &mut app);
    process_key(Key::Jump(2), &mut app);
    assert_eq!(process_key(Key::Enter, &mut app), Action::Noop);
    assert_eq!(app.focus, Pane::Menu);
}

#[test]
fn unrecognized_inputs_are_noops() {
    let mut app = App::new();
    assert_eq!(process_key(Key::NextTab, &mut app), Action::Noop);
    assert_eq!(process_key(Key::Confirm, &mut app), Action::Noop);
    assert_eq!(app.page, 0);
    assert_eq!(app.focus, Pane::Menu);
    process_key(Key::Enter, &mut app);
    assert_eq!(process_key(Key::NextTab, &mut app), Action::Noop);
    assert_eq!(process_key(Key::Jump(3), &mut app), Action::Noop);
    assert_eq!(app.page, 0);
    assert_eq!(app.focus, Pane::General);
}

#[test]
fn confirm_issues_patch_then_get() {
    let mut app = App::new();
    assert_eq!(process_key(Key::Enter, &mut app), Action::FetchGeneral);
    // the mock server currently reports "rule"
    app.general_state.fetch_data(Some(Config { mode: "rule".to_string() }));
    // cursor still on the first option, so the mutation carries "global"
    let action = process_key(Key::Confirm, &mut app);
    assert_eq!(action, Action::SelectMode { mode: "global".to_string() });
    // the forced refetch stores whatever the mock reports back
    app.general_state.fetch_data(Some(Config { mode: "global".to_string() }));
    assert_eq!(app.general_state.config.as_ref().unwrap().mode, "global");
    assert_eq!(app.general_state.index, 0);
}

#[test]
fn mode_keys_cycle_in_general_pane() {
    let mut app = App::new();
    process_key(Key::Enter, &mut app);
    process_key(Key::Down, &mut app);
    assert_eq!(app.general_state.index, 1);
    process_key(Key::Down, &mut app);
    process_key(Key::Down, &mut app);
    assert_eq!(app.general_state.index, 0);
    process_key(Key::Up, &mut app);
    assert_eq!(app.general_state.index, 2);
}

#[test]
fn proxy_confirm_carries_names_and_ranks() {
    let mut app = App::new();
    process_key(Key::Jump(1), &mut app);
    process_key(Key::Enter, &mut app);
    let snapshot = || vec![group("A", &["a1", "a2"]), group("B", &["b2", "b1"])];
    app.proxies_state.fetch_data(Some(snapshot()));
    app.proxies_state.fetch_data(Some(snapshot()));
    process_key(Key::NextTab, &mut app);
    process_key(Key::Down, &mut app);
    let action = process_key(Key::Confirm, &mut app);
    assert_eq!(
        action,
        Action::SelectProxy {
            provider: "B".to_string(),
            proxy: "b2".to_string(),
            provider_index: 1,
            proxy_index: 1,
        }
    );
    // the controller itself does not move the cursors on confirm
    assert_eq!((app.proxies_state.provider, app.proxies_state.proxy_index), (1, 1));
}

#[test]
fn proxy_confirm_is_noop_on_empty_pane() {
    let mut app = App::new();
    process_key(Key::Jump(1), &mut app);
    process_key(Key::Enter, &mut app);
    assert_eq!(process_key(Key::Confirm, &mut app), Action::Noop);
}

#[test]
fn route_titles() {
    assert_eq!(Route::General.title(), "General");
    assert_eq!(Route::Proxies.title(), "Proxies");
    assert_eq!(Route::Rules.title(), "Rules");
    assert_eq!(Route::Connections.title(), "Connections");
    assert_eq!(Route::Logs.title(), "Logs");
}
