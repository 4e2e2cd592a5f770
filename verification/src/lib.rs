//! Core of a terminal dashboard that inspects and controls a local
//! proxy-routing daemon over its HTTP control API.
//!
//! This crate holds the navigation-and-remote-state-synchronization engine:
//! the section menu, the routing-mode submodel, the proxy-group submodel with
//! its two nested cyclable cursors, and the dispatch controller that maps one
//! input to one state transition.  All HTTP and terminal I/O lives outside
//! the crate; the submodels receive fetch results as plain values and hand
//! back the names and actions the transport layer needs.

mod control;
mod cycle;
mod escape;
mod general;
mod laws;
mod order;
mod proxies;

pub use control::dispatch;
pub use control::fetch_action_spec;
pub use control::process_key;
pub use control::Action;
pub use control::App;
pub use control::Key;
pub use control::Pane;
pub use control::Route;
pub use cycle::cycle_next;
pub use cycle::cycle_next_many;
pub use cycle::cycle_previous;
pub use cycle::cycle_previous_many;
pub use cycle::lemma_cycle_in_bounds;
pub use cycle::lemma_cycle_wraparound;
pub use escape::escape_path_segment;
pub use escape::escaped;
pub use escape::escape_byte;
pub use escape::hex_digit;
pub use escape::must_escape;
pub use general::Config;
pub use general::GeneralState;
pub use laws::group_cursor_after;
pub use laws::member_cursor_after;
pub use laws::menu_cursor_after;
pub use laws::mode_cursor_after;
pub use laws::lemma_group_wraparound;
pub use laws::lemma_member_wraparound;
pub use laws::lemma_menu_wraparound;
pub use laws::lemma_mode_wraparound;
pub use order::lex_le;
pub use order::name_le;
pub use order::names_view;
pub use order::sort_names;
pub use order::str_le;
pub use proxies::is_provider_pred;
pub use proxies::proxies_names_view;
pub use proxies::sorted_providers;
pub use proxies::ProxiesState;
pub use proxies::Proxy;
pub use proxies::ProxyKind;
