//! Wraparound laws for the four cyclable cursors.
//!
//! Each navigation step leaves its cursor exactly where [`cycle_next`]
//! says, so stepping a cursor forward once per item of its list returns it
//! to its starting rank.  The lemmas here state that round trip over the
//! transition functions the navigation methods are proved against.

use vstd::prelude::*;
use crate::control::App;
use crate::cycle::cycle_next;
use crate::cycle::cycle_next_many;
use crate::cycle::lemma_cycle_wraparound;
use crate::general::GeneralState;
use crate::proxies::ProxiesState;

verus! {

/// The state after `k` forward steps of the group cursor.
pub open spec fn group_cursor_after(s: ProxiesState, k: nat) -> ProxiesState
    decreases k,
{
    if k == 0 {
        s
    } else {
        group_cursor_after(s, (k - 1) as nat).after_next_tab()
    }
}

/// The state after `k` forward steps of the member cursor.
pub open spec fn member_cursor_after(s: ProxiesState, k: nat) -> ProxiesState
    decreases k,
{
    if k == 0 {
        s
    } else {
        member_cursor_after(s, (k - 1) as nat).after_next_proxy()
    }
}

/// The state after `k` forward steps of the mode cursor.
pub open spec fn mode_cursor_after(s: GeneralState, k: nat) -> GeneralState
    decreases k,
{
    if k == 0 {
        s
    } else {
        mode_cursor_after(s, (k - 1) as nat).after_next_mode()
    }
}

/// The state after moving to the next section `k` times.
pub open spec fn menu_cursor_after(s: App, k: nat) -> App
    decreases k,
{
    if k == 0 {
        s
    } else {
        let t = menu_cursor_after(s, (k - 1) as nat);
        App { page: cycle_next(t.page as nat, 5) as usize, ..t }
    }
}

proof fn lemma_group_cursor_iterates(s: ProxiesState, k: nat)
    ensures
        group_cursor_after(s, k).providers_len == s.providers_len,
        group_cursor_after(s, k).provider as nat == cycle_next_many(
            s.provider as nat,
            s.providers_len as nat,
            k,
        ),
    decreases k,
{
    if k > 0 {
        lemma_group_cursor_iterates(s, (k - 1) as nat);
    }
}

proof fn lemma_member_cursor_iterates(s: ProxiesState, k: nat)
    ensures
        member_cursor_after(s, k).proxies_len == s.proxies_len,
        member_cursor_after(s, k).proxy_index as nat == cycle_next_many(
            s.proxy_index as nat,
            s.proxies_len as nat,
            k,
        ),
    decreases k,
{
    if k > 0 {
        lemma_member_cursor_iterates(s, (k - 1) as nat);
    }
}

proof fn lemma_mode_cursor_iterates(s: GeneralState, k: nat)
    ensures
        mode_cursor_after(s, k).index as nat == cycle_next_many(s.index as nat, 3, k),
    decreases k,
{
    if k > 0 {
        lemma_mode_cursor_iterates(s, (k - 1) as nat);
    }
}

proof fn lemma_menu_cursor_iterates(s: App, k: nat)
    ensures
        menu_cursor_after(s, k).page as nat == cycle_next_many(s.page as nat, 5, k),
    decreases k,
{
    if k > 0 {
        lemma_menu_cursor_iterates(s, (k - 1) as nat);
    }
}

/// Law: stepping the group cursor forward once per group returns it to its
/// original rank.
pub proof fn lemma_group_wraparound(s: ProxiesState)
    requires
        s.wf(),
        s.providers_len > 0,
    ensures
        group_cursor_after(s, s.providers_len as nat).provider == s.provider,
{
    lemma_group_cursor_iterates(s, s.providers_len as nat);
    lemma_cycle_wraparound(s.provider as nat, s.providers_len as nat);
}

/// Law: stepping the member cursor forward once per member of the current
/// group returns it to its original rank.
pub proof fn lemma_member_wraparound(s: ProxiesState)
    requires
        s.wf(),
        s.proxies_len > 0,
    ensures
        member_cursor_after(s, s.proxies_len as nat).proxy_index == s.proxy_index,
{
    lemma_member_cursor_iterates(s, s.proxies_len as nat);
    lemma_cycle_wraparound(s.proxy_index as nat, s.proxies_len as nat);
}

/// Law: stepping the mode cursor forward once per mode (three times)
/// returns it to its original rank.
pub proof fn lemma_mode_wraparound(s: GeneralState)
    requires
        s.wf(),
    ensures
        mode_cursor_after(s, 3).index == s.index,
{
    lemma_mode_cursor_iterates(s, 3);
    lemma_cycle_wraparound(s.index as nat, 3);
}

/// Law: moving to the next section once per section (five times) returns
/// the menu cursor to its original rank.
pub proof fn lemma_menu_wraparound(s: App)
    requires
        s.wf(),
    ensures
        menu_cursor_after(s, 5).page == s.page,
{
    lemma_menu_cursor_iterates(s, 5);
    lemma_cycle_wraparound(s.page as nat, 5);
}

} // verus!
