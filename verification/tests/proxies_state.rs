//! The proxy-group submodel: fetch reset policy, nested cursors, member
//! resolution, and the post-confirm snap-back.

use clash_tui::Proxy;
use clash_tui::ProxyKind;
use clash_tui::ProxiesState;

fn group(name: &str, members: &[&str]) -> Proxy {
    Proxy {
        name: name.to_string(),
        kind: ProxyKind::Group {
            members: members.iter().map(|m| m.to_string()).collect(),
            now: None,
        },
    }
}

fn leaf(name: &str) -> Proxy {
    Proxy { name: name.to_string(), kind: ProxyKind::Leaf }
}

fn two_groups() -> Vec<Proxy> {
    vec![group("A", &["a1", "a2"]), group("B", &["b1", "b2"]), leaf("node")]
}

#[test]
fn is_provider_marks_groups_only() {
    assert!(group("G", &["m"]).is_provider());
    assert!(!leaf("n").is_provider());
}

#[test]
fn fetch_sorts_groups_by_name() {
    let mut st = ProxiesState::default();
    st.fetch_data(Some(vec![group("B", &["y", "x"]), group("A", &["m"]), leaf("z")]));
    let providers = st.providers();
    assert_eq!(providers.len(), 2);
    assert_eq!(providers[0].name, "A");
    assert_eq!(providers[1].name, "B");
    assert_eq!(st.providers_len, 2);
    assert_eq!(st.provider, 0);
    assert_eq!(st.proxy_index, 0);
    // the very first fetch follows an empty snapshot, so the member count
    // is not yet taken from the new head group
    assert_eq!(st.proxies_len, 0);
}

#[test]
fn refetch_takes_member_count_from_head_group() {
    let mut st = ProxiesState::default();
    st.fetch_data(Some(vec![group("B", &["y", "x"]), group("A", &["m"])]));
    st.fetch_data(Some(vec![group("B", &["y", "x"]), group("A", &["m"])]));
    assert_eq!(st.provider, 0);
    assert_eq!(st.proxy_index, 0);
    assert_eq!(st.proxies_len, 1);
    st.next_tab();
    assert_eq!(st.provider, 1);
    assert_eq!(st.providers()[st.provider].name, "B");
    assert_eq!(st.member_names(), vec!["x".to_string(), "y".to_string()]);
    assert_eq!(st.proxies_len, 2);
}

#[test]
fn fetch_success_resets_cursors_to_head() {
    let mut st = ProxiesState::default();
    st.fetch_data(Some(two_groups()));
    st.fetch_data(Some(two_groups()));
    st.next_tab();
    st.next_proxy();
    assert_eq!((st.provider, st.proxy_index), (1, 1));
    st.fetch_data(Some(two_groups()));
    assert_eq!((st.provider, st.proxy_index), (0, 0));
}

#[test]
fn fetch_failure_clears_state() {
    let mut st = ProxiesState::default();
    st.fetch_data(Some(two_groups()));
    st.fetch_data(Some(two_groups()));
    st.next_tab();
    st.next_proxy();
    st.fetch_data(None);
    assert_eq!(st.providers().len(), 0);
    assert_eq!(st.providers_len, 0);
    assert_eq!(st.proxies_len, 0);
    assert_eq!(st.provider, 0);
    assert_eq!(st.proxy_index, 0);
}

#[test]
fn group_wraparound_returns_to_start() {
    let mut st = ProxiesState::default();
    st.fetch_data(Some(two_groups()));
    st.next_tab();
    let start = st.provider;
    for _ in 0..st.providers_len {
        st.next_tab();
    }
    assert_eq!(st.provider, start);
    for _ in 0..st.providers_len {
        st.previous_tab();
    }
    assert_eq!(st.provider, start);
}

#[test]
fn member_wraparound_returns_to_start() {
    let mut st = ProxiesState::default();
    st.fetch_data(Some(two_groups()));
    st.fetch_data(Some(two_groups()));
    st.next_proxy();
    let start = st.proxy_index;
    for _ in 0..st.proxies_len {
        st.next_proxy();
    }
    assert_eq!(st.proxy_index, start);
    for _ in 0..st.proxies_len {
        st.previous_proxy();
    }
    assert_eq!(st.proxy_index, start);
}

#[test]
fn group_switch_resets_member_cursor() {
    let mut st = ProxiesState::default();
    st.fetch_data(Some(two_groups()));
    st.fetch_data(Some(two_groups()));
    st.next_proxy();
    assert_eq!(st.proxy_index, 1);
    st.next_tab();
    assert_eq!(st.proxy_index, 0);
    assert_eq!(st.proxies_len, 2);
    st.next_proxy();
    st.previous_tab();
    assert_eq!(st.proxy_index, 0);
    assert_eq!(st.proxies_len, 2);
}

#[test]
fn cursors_stay_pinned_on_empty_state() {
    let mut st = ProxiesState::default();
    st.next_tab();
    st.previous_tab();
    st.next_proxy();
    st.previous_proxy();
    assert_eq!((st.provider, st.proxy_index), (0, 0));
    assert_eq!((st.providers_len, st.proxies_len), (0, 0));
    assert_eq!(st.select_proxy(), None);
}

#[test]
fn select_resolves_sorted_member_names() {
    let mut st = ProxiesState::default();
    let snapshot = || vec![group("G", &["zeta", "alpha", "mid"])];
    st.fetch_data(Some(snapshot()));
    st.fetch_data(Some(snapshot()));
    assert_eq!(st.select_proxy(), Some(("G".to_string(), "alpha".to_string())));
    st.next_proxy();
    assert_eq!(st.select_proxy(), Some(("G".to_string(), "mid".to_string())));
    st.next_proxy();
    assert_eq!(st.select_proxy(), Some(("G".to_string(), "zeta".to_string())));
}

#[test]
fn confirm_snaps_back_to_ranks() {
    let mut st = ProxiesState::default();
    let snapshot = || vec![group("A", &["a1", "a2"]), group("B", &["b1", "b2"])];
    st.fetch_data(Some(snapshot()));
    st.fetch_data(Some(snapshot()));
    st.next_tab();
    st.next_proxy();
    assert_eq!((st.provider, st.proxy_index), (1, 1));
    // resolution happens before the mutating call goes out
    let (provider, proxy) = st.select_proxy().unwrap();
    assert_eq!(provider, "B");
    assert_eq!(proxy, "b2");
    let pre = (st.provider, st.proxy_index);
    // the forced refetch returns a same-shape snapshot and resets to head
    st.fetch_data(Some(snapshot()));
    assert_eq!((st.provider, st.proxy_index), (0, 0));
    st.restore_selection(pre.0, pre.1);
    assert_eq!((st.provider, st.proxy_index), (1, 1));
    assert_eq!(st.proxies_len, 2);
}

#[test]
fn restore_clamps_vanished_ranks() {
    let mut st = ProxiesState::default();
    let big = || vec![group("A", &["a1", "a2", "a3"]), group("B", &["b1"]), group("C", &["c1"])];
    let small = || vec![group("A", &["a1", "a2", "a3"])];
    st.fetch_data(Some(big()));
    st.fetch_data(Some(big()));
    st.next_tab();
    st.next_tab();
    let pre = (st.provider, st.proxy_index);
    assert_eq!(pre, (2, 0));
    // the refetch after the confirm finds fewer groups
    st.fetch_data(Some(small()));
    st.restore_selection(pre.0, pre.1);
    assert_eq!((st.provider, st.proxy_index), (0, 0));
    assert_eq!(st.proxies_len, 3);
}

#[test]
fn member_names_empty_without_groups() {
    let st = ProxiesState::default();
    assert_eq!(st.member_names(), Vec::<String>::new());
}
