//! The focus-and-dispatch controller: the section menu, which pane owns
//! input, and the single entry point that maps one input event to one state
//! transition plus the transport action that transition demands.
//!
//! Reads and mutations of the daemon happen outside this crate: a dispatch
//! returns an [`Action`] naming the call to make, and the caller hands each
//! fetch result back to the owning submodel's `fetch_data`.

use vstd::prelude::*;
use crate::cycle::cycle_next;
use crate::cycle::cycle_previous;
use crate::general::GeneralState;
use crate::proxies::ProxiesState;

verus! {

/// The five fixed dashboard sections, in their menu order.
#[derive(Clone, Copy, PartialEq, Eq, Structural, Debug)]
pub enum Route {
    General,
    Proxies,
    Rules,
    Connections,
    Logs,
}

impl Route {
    /// The section's display title.
    pub open spec fn title_spec(self) -> Seq<char> {
        match self {
            Route::General => "General"@,
            Route::Proxies => "Proxies"@,
            Route::Rules => "Rules"@,
            Route::Connections => "Connections"@,
            Route::Logs => "Logs"@,
        }
    }

    /// The section's display title, for a renderer.
    pub fn title(&self) -> (r: &'static str)
        ensures
            r@ == self.title_spec(),
    {
        match self {
            Route::General => "General",
            Route::Proxies => "Proxies",
            Route::Rules => "Rules",
            Route::Connections => "Connections",
            Route::Logs => "Logs",
        }
    }
}

/// Which component currently owns keyboard input.
#[derive(Clone, Copy, PartialEq, Eq, Structural, Debug)]
pub enum Pane {
    Menu,
    Proxies,
    General,
}

/// One semantic input event, as the terminal layer maps key presses.
#[derive(Clone, Copy, PartialEq, Eq, Structural, Debug)]
pub enum Key {
    /// Terminate, whatever has focus.
    Quit,
    /// Move down the menu, the mode list, or the member list.
    Down,
    /// Move up the menu, the mode list, or the member list.
    Up,
    /// Enter the highlighted section's pane.
    Enter,
    /// Return focus to the menu.
    Back,
    /// Confirm the highlighted mode or member.
    Confirm,
    /// Cycle to the previous proxy group.
    PreviousTab,
    /// Cycle to the next proxy group.
    NextTab,
    /// Jump straight to a section by its menu position.
    Jump(usize),
}

/// What the transport layer must do after a dispatch: nothing, terminate,
/// refetch a section's data, or issue a mutation (always followed by the
/// forced refetch of the mutated section).
#[derive(Debug, PartialEq, Eq)]
pub enum Action {
    Noop,
    Quit,
    FetchGeneral,
    FetchProxies,
    /// Ask the daemon to switch to `mode`, then refetch the mode.
    SelectMode { mode: String },
    /// Ask the daemon to activate `proxy` within the group `provider`, then
    /// refetch the collection and snap the cursors back to the recorded
    /// ranks.
    SelectProxy { provider: String, proxy: String, provider_index: usize, proxy_index: usize },
}

/// The whole dashboard state: the section menu, the input focus, and the
/// two submodels.
pub struct App {
    pub routes: Vec<Route>,
    pub page: usize,
    pub focus: Pane,
    pub general_state: GeneralState,
    pub proxies_state: ProxiesState,
}

/// The refetch a section needs on becoming current: the placeholder
/// sections have no data.
pub open spec fn fetch_action_spec(r: Route) -> Action {
    match r {
        Route::General => Action::FetchGeneral,
        Route::Proxies => Action::FetchProxies,
        _ => Action::Noop,
    }
}

impl App {
    /// The menu holds the five sections in their fixed order, the page
    /// cursor is in bounds, and both submodels are well formed.
    pub open spec fn wf(&self) -> bool {
        &&& self.routes@ =~= seq![
            Route::General,
            Route::Proxies,
            Route::Rules,
            Route::Connections,
            Route::Logs,
        ]
        &&& self.page < 5
        &&& self.general_state.wf()
        &&& self.proxies_state.wf()
    }

    /// A fresh dashboard: menu focus, first section highlighted, submodels
    /// empty.
    pub fn new() -> (r: App)
        ensures
            r.wf(),
            r.page == 0,
            r.focus == Pane::Menu,
            r.general_state.index == 0,
            r.general_state.config is None,
            r.proxies_state.providers_len == 0,
            r.proxies_state.proxies_len == 0,
    {
        let mut routes: Vec<Route> = Vec::new();
        routes.push(Route::General);
        routes.push(Route::Proxies);
        routes.push(Route::Rules);
        routes.push(Route::Connections);
        routes.push(Route::Logs);
        proof {
            assert(routes@ =~= seq![
                Route::General,
                Route::Proxies,
                Route::Rules,
                Route::Connections,
                Route::Logs,
            ]);
        }
        App {
            routes,
            page: 0,
            focus: Pane::Menu,
            general_state: GeneralState::new(),
            proxies_state: ProxiesState::default(),
        }
    }

    /// The currently highlighted section.
    pub fn current_route(&self) -> (r: Route)
        requires
            self.wf(),
        ensures
            r == self.routes@[self.page as int],
    {
        self.routes[self.page]
    }

    /// The currently highlighted section, if the cursor is in bounds (under
    /// well-formedness it always is).
    pub fn route(&self) -> (r: Option<&Route>)
        requires
            self.wf(),
        ensures
            r matches Some(x) && *x == self.routes@[self.page as int],
    {
        if self.page < self.routes.len() {
            Some(&self.routes[self.page])
        } else {
            None
        }
    }

    /// The refetch entering the current section requires.
    pub fn fetch_action(&self) -> (a: Action)
        requires
            self.wf(),
        ensures
            a == fetch_action_spec(self.routes@[self.page as int]),
    {
        match self.current_route() {
            Route::General => Action::FetchGeneral,
            Route::Proxies => Action::FetchProxies,
            Route::Rules => Action::Noop,
            Route::Connections => Action::Noop,
            Route::Logs => Action::Noop,
        }
    }

    /// Jumps straight to section `page` (modulo the section count) and
    /// names the refetch the destination needs.
    pub fn navigate(&mut self, page: usize) -> (a: Action)
        requires
            old(self).wf(),
        ensures
            final(self).wf(),
            *final(self) == (App { page: (page % 5) as usize, ..*old(self) }),
            a == fetch_action_spec(final(self).routes@[final(self).page as int]),
    {
        self.page = page % self.routes.len();
        self.fetch_action()
    }

    /// Moves the menu cursor to the next section, wrapping after the last,
    /// and names the refetch the destination needs.
    pub fn next_menu(&mut self) -> (a: Action)
        requires
            old(self).wf(),
        ensures
            final(self).wf(),
            *final(self) == (App {
                page: cycle_next(old(self).page as nat, 5) as usize,
                ..*old(self)
            }),
            a == fetch_action_spec(final(self).routes@[final(self).page as int]),
    {
        let page = self.page + 1;
        self.page = page % self.routes.len();
        self.fetch_action()
    }

    /// Moves the menu cursor to the previous section, wrapping before the
    /// first, and names the refetch the destination needs.
    pub fn previous_menu(&mut self) -> (a: Action)
        requires
            old(self).wf(),
        ensures
            final(self).wf(),
            *final(self) == (App {
                page: cycle_previous(old(self).page as nat, 5) as usize,
                ..*old(self)
            }),
            a == fetch_action_spec(final(self).routes@[final(self).page as int]),
    {
        let page = self.page + self.routes.len() - 1;
        self.page = page % self.routes.len();
        self.fetch_action()
    }
}

/// The complete input-dispatch relation: for a state before an input, the
/// state after it and the transport action the transition demands.  Inputs
/// the current focus does not recognize change nothing.
pub open spec fn dispatch(pre: App, code: Key, post: App, a: Action) -> bool {
    if code == Key::Quit {
        &&& post == pre
        &&& a == Action::Quit
    } else {
        match pre.focus {
            Pane::Menu => match code {
                Key::Down => {
                    let page = cycle_next(pre.page as nat, 5) as usize;
                    &&& post == App { page, ..pre }
                    &&& a == fetch_action_spec(pre.routes@[page as int])
                },
                Key::Up => {
                    let page = cycle_previous(pre.page as nat, 5) as usize;
                    &&& post == App { page, ..pre }
                    &&& a == fetch_action_spec(pre.routes@[page as int])
                },
                Key::Jump(n) => {
                    let page = (n % 5) as usize;
                    &&& post == App { page, ..pre }
                    &&& a == fetch_action_spec(pre.routes@[page as int])
                },
                Key::Enter => {
                    if pre.routes@[pre.page as int] == Route::Proxies {
                        &&& post == App { focus: Pane::Proxies, ..pre }
                        &&& a == Action::FetchProxies
                    } else if pre.routes@[pre.page as int] == Route::General {
                        &&& post == App { focus: Pane::General, ..pre }
                        &&& a == Action::FetchGeneral
                    } else {
                        &&& post == pre
                        &&& a == Action::Noop
                    }
                },
                _ => post == pre && a == Action::Noop,
            },
            Pane::General => match code {
                Key::Back => post == App { focus: Pane::Menu, ..pre } && a == Action::Noop,
                Key::Confirm => {
                    &&& post == pre
                    &&& a matches Action::SelectMode { mode } && mode@
                        == pre.general_state.modes@[pre.general_state.index as int]@
                },
                Key::Down => post == App {
                    general_state: pre.general_state.after_next_mode(),
                    ..pre
                } && a == Action::Noop,
                Key::Up => post == App {
                    general_state: pre.general_state.after_previous_mode(),
                    ..pre
                } && a == Action::Noop,
                _ => post == pre && a == Action::Noop,
            },
            Pane::Proxies => match code {
                Key::Back => post == App { focus: Pane::Menu, ..pre } && a == Action::Noop,
                Key::Confirm => {
                    &&& post == pre
                    &&& if pre.proxies_state.providers_len != 0 && pre.proxies_state.proxies_len
                        != 0 {
                        let state = pre.proxies_state;
                        a matches Action::SelectProxy {
                            provider,
                            proxy,
                            provider_index,
                            proxy_index,
                        } && provider@ == state.proxies@[state.provider as int].name@ && proxy@
                            == state.proxies@[state.provider as int].sorted_member_names()[state.proxy_index as int]
                            && provider_index == state.provider && proxy_index == state.proxy_index
                    } else {
                        a == Action::Noop
                    }
                },
                Key::Down => post == App {
                    proxies_state: pre.proxies_state.after_next_proxy(),
                    ..pre
                } && a == Action::Noop,
                Key::Up => post == App {
                    proxies_state: pre.proxies_state.after_previous_proxy(),
                    ..pre
                } && a == Action::Noop,
                Key::NextTab => post == App {
                    proxies_state: pre.proxies_state.after_next_tab(),
                    ..pre
                } && a == Action::Noop,
                Key::PreviousTab => post == App {
                    proxies_state: pre.proxies_state.after_previous_tab(),
                    ..pre
                } && a == Action::Noop,
                _ => post == pre && a == Action::Noop,
            },
        }
    }
}

/// Applies one input event to the dashboard and returns the transport
/// action it requires; the single entry point for all input.
pub fn process_key(code: Key, app: &mut App) -> (a: Action)
    requires
        old(app).wf(),
    ensures
        final(app).wf(),
        dispatch(*old(app), code, *final(app), a),
{
    if let Key::Quit = code {
        return Action::Quit;
    }
    match app.focus {
        Pane::Menu => match code {
            Key::Down => app.next_menu(),
            Key::Up => app.previous_menu(),
            Key::Jump(n) => app.navigate(n),
            Key::Enter => {
                match app.current_route() {
                    Route::Proxies => {
                        app.focus = Pane::Proxies;
                        Action::FetchProxies
                    },
                    Route::General => {
                        app.focus = Pane::General;
                        Action::FetchGeneral
                    },
                    _ => Action::Noop,
                }
            },
            _ => Action::Noop,
        },
        Pane::General => match code {
            Key::Back => {
                app.focus = Pane::Menu;
                Action::Noop
            },
            Key::Confirm => {
                let mode = app.general_state.select_mode();
                Action::SelectMode { mode }
            },
            Key::Down => {
                app.general_state.next_mode();
                Action::Noop
            },
            Key::Up => {
                app.general_state.previous_mode();
                Action::Noop
            },
            _ => Action::Noop,
        },
        Pane::Proxies => match code {
            Key::Back => {
                app.focus = Pane::Menu;
                Action::Noop
            },
            Key::Confirm => {
                match app.proxies_state.select_proxy() {
                    Some((provider, proxy)) => Action::SelectProxy {
                        provider,
                        proxy,
                        provider_index: app.proxies_state.provider,
                        proxy_index: app.proxies_state.proxy_index,
                    },
                    None => Action::Noop,
                }
            },
            Key::Down => {
                app.proxies_state.next_proxy();
                Action::Noop
            },
            Key::Up => {
                app.proxies_state.previous_proxy();
                Action::Noop
            },
            Key::NextTab => {
                app.proxies_state.next_tab();
                Action::Noop
            },
            Key::PreviousTab => {
                app.proxies_state.previous_tab();
                Action::Noop
            },
            _ => Action::Noop,
        },
    }
}

} // verus!
