//! The proxy-group submodel: two nested cyclable cursors over the
//! name-sorted group entries of the last snapshot and the name-sorted
//! members of the current group.
//!
//! The daemon's collection is replaced wholesale on every fetch; groups and
//! members are addressed by rank in name-sorted order, and the cursors are
//! kept in bounds across every refresh.

use vstd::prelude::*;
use vstd::multiset::Multiset;
use vstd::pervasive::unreached;
use vstd::relations::sorted_by;
use crate::cycle::cycle_next;
use crate::cycle::cycle_previous;
use crate::order::lex_le;
use crate::order::lemma_lex_le_total;
use crate::order::lemma_lex_le_transitive;
use crate::order::name_le;
use crate::order::names_view;
use crate::order::sort_names;
use crate::order::str_le;

verus! {

broadcast use {vstd::seq_lib::group_to_multiset_ensures, vstd::multiset::group_multiset_axioms};

/// What a proxy entry is: a group ("provider") carries its member names and
/// the name the server currently routes through; a leaf is a plain endpoint.
pub enum ProxyKind {
    Group { members: Vec<String>, now: Option<String> },
    Leaf,
}

/// One entry of the daemon's proxy collection.
pub struct Proxy {
    pub name: String,
    pub kind: ProxyKind,
}

impl Proxy {
    /// Whether this entry is a group with selectable members.
    pub open spec fn is_provider_spec(&self) -> bool {
        self.kind is Group
    }

    /// Whether this entry is a group with selectable members.
    pub fn is_provider(&self) -> (r: bool)
        ensures
            r == self.is_provider_spec(),
    {
        match &self.kind {
            ProxyKind::Group { .. } => true,
            ProxyKind::Leaf => false,
        }
    }

    /// The entry's member names as reported (empty for a leaf).
    pub open spec fn members_spec(&self) -> Seq<String> {
        match self.kind {
            ProxyKind::Group { members, .. } => members@,
            ProxyKind::Leaf => Seq::empty(),
        }
    }

    /// How many members the entry has.
    pub open spec fn member_count_spec(&self) -> nat {
        self.members_spec().len()
    }

    /// The entry's member names in name-sorted order: the list the member
    /// cursor ranges over.
    pub open spec fn sorted_member_names(&self) -> Seq<Seq<char>> {
        names_view(self.members_spec()).sort_by(name_le())
    }
}

/// The names of a list of proxy entries.
pub open spec fn proxies_names_view(s: Seq<Proxy>) -> Seq<Seq<char>> {
    Seq::new(s.len(), |i: int| s[i].name@)
}

/// The group test as a first-class predicate, for `filter`.
pub open spec fn is_provider_pred() -> spec_fn(Proxy) -> bool {
    |p: Proxy| p.is_provider_spec()
}

/// The member names of a group entry.
fn members_of(p: &Proxy) -> (r: &Vec<String>)
    requires
        p.is_provider_spec(),
    ensures
        r@ == p.members_spec(),
{
    match &p.kind {
        ProxyKind::Group { members, .. } => members,
        ProxyKind::Leaf => unreached(),
    }
}

/// How many members an entry has.
fn member_len(p: &Proxy) -> (r: usize)
    ensures
        r == p.member_count_spec(),
{
    match &p.kind {
        ProxyKind::Group { members, .. } => members.len(),
        ProxyKind::Leaf => 0,
    }
}

/// The rank of an entry with a least name in a nonempty list.
fn min_provider_index(v: &Vec<Proxy>) -> (m: usize)
    requires
        v@.len() > 0,
    ensures
        m < v@.len(),
        forall|k: int| 0 <= k < v@.len() ==> lex_le(v@[m as int].name@, v@[k].name@),
{
    let mut m: usize = 0;
    let mut j: usize = 1;
    proof {
        lemma_lex_le_total(v@[0].name@, v@[0].name@);
    }
    while j < v.len()
        invariant
            m < j,
            j <= v@.len(),
            forall|k: int| 0 <= k < j ==> lex_le(v@[m as int].name@, v@[k].name@),
        decreases v@.len() - j,
    {
        if str_le(v[j].name.as_str(), v[m].name.as_str()) {
            proof {
                assert forall|k: int| 0 <= k < j + 1 implies lex_le(
                    v@[j as int].name@,
                    v@[k].name@,
                ) by {
                    if k < j {
                        lemma_lex_le_transitive(v@[j as int].name@, v@[m as int].name@, v@[k].name@);
                    } else {
                        lemma_lex_le_total(v@[j as int].name@, v@[j as int].name@);
                    }
                }
            }
            m = j;
        } else {
            proof {
                lemma_lex_le_total(v@[m as int].name@, v@[j as int].name@);
            }
        }
        j = j + 1;
    }
    m
}

/// The group entries of a snapshot, name-sorted.
pub fn sorted_providers(list: Vec<Proxy>) -> (r: Vec<Proxy>)
    ensures
        r@.to_multiset() == list@.filter(is_provider_pred()).to_multiset(),
        sorted_by(proxies_names_view(r@), name_le()),
        forall|i: int| 0 <= i < r@.len() ==> (#[trigger] r@[i]).is_provider_spec(),
{
    let ghost all_groups = list@.filter(is_provider_pred()).to_multiset();
    let mut rest = list;
    let mut groups: Vec<Proxy> = Vec::new();
    while rest.len() > 0
        invariant
            groups@.to_multiset().add(rest@.filter(is_provider_pred()).to_multiset())
                == all_groups,
            forall|i: int| 0 <= i < groups@.len() ==> (#[trigger] groups@[i]).is_provider_spec(),
        decreases rest@.len(),
    {
        let ghost pre = rest@;
        let x = match rest.pop() {
            Some(x) => x,
            None => unreached(),
        };
        proof {
            reveal(Seq::filter);
            assert(rest@ =~= pre.drop_last());
            assert(pre.last() == x);
            if is_provider_pred()(x) {
                assert(pre.filter(is_provider_pred()) == rest@.filter(is_provider_pred()).push(
                    x,
                ));
                assert(groups@.push(x).to_multiset().add(
                    rest@.filter(is_provider_pred()).to_multiset(),
                ) =~= all_groups);
            } else {
                assert(pre.filter(is_provider_pred()) == rest@.filter(is_provider_pred()));
            }
        }
        if x.is_provider() {
            groups.push(x);
        }
    }
    proof {
        reveal(Seq::filter);
        assert(rest@.filter(is_provider_pred()) =~= Seq::<Proxy>::empty());
        assert(rest@.filter(is_provider_pred()).to_multiset() =~= Multiset::<Proxy>::empty());
        assert(groups@.to_multiset() =~= all_groups);
    }
    // sort the group entries by name
    let mut out: Vec<Proxy> = Vec::new();
    while groups.len() > 0
        invariant
            sorted_by(proxies_names_view(out@), name_le()),
            out@.to_multiset().add(groups@.to_multiset()) == all_groups,
            forall|i: int| 0 <= i < groups@.len() ==> (#[trigger] groups@[i]).is_provider_spec(),
            forall|i: int| 0 <= i < out@.len() ==> (#[trigger] out@[i]).is_provider_spec(),
            forall|p: int, q: int|
                0 <= p < out@.len() && 0 <= q < groups@.len() ==> lex_le(
                    out@[p].name@,
                    groups@[q].name@,
                ),
        decreases groups@.len(),
    {
        let ghost pre = groups@;
        let m = min_provider_index(&groups);
        let x = groups.remove(m);
        proof {
            assert(groups@.to_multiset() =~= pre.to_multiset().remove(x));
            assert(out@.push(x).to_multiset().add(groups@.to_multiset()) =~= all_groups);
            assert(proxies_names_view(out@.push(x)) =~= proxies_names_view(out@).push(x.name@));
            assert forall|i: int, j: int|
                0 <= i < j < proxies_names_view(out@.push(x)).len() implies name_le()(
                proxies_names_view(out@.push(x))[i],
                proxies_names_view(out@.push(x))[j],
            ) by {
                if j < out@.len() {
                    assert(name_le()(proxies_names_view(out@)[i], proxies_names_view(out@)[j]));
                } else {
                    assert(lex_le(out@[i].name@, pre[m as int].name@));
                }
            }
        }
        out.push(x);
        proof {
            assert forall|p: int, q: int|
                0 <= p < out@.len() && 0 <= q < groups@.len() implies lex_le(
                out@[p].name@,
                groups@[q].name@,
            ) by {
                let q0: int = if q < m { q } else { q + 1 };
                assert(groups@[q] == pre[q0]);
                if p < out@.len() - 1 {
                    assert(lex_le(out@[p].name@, pre[q0].name@));
                } else {
                    assert(out@[p] == pre[m as int]);
                    assert(lex_le(pre[m as int].name@, pre[q0].name@));
                }
            }
        }
    }
    proof {
        assert(groups@.to_multiset() =~= Multiset::<Proxy>::empty());
        assert(out@.to_multiset() =~= all_groups);
    }
    out
}

/// The proxy-group submodel.
pub struct ProxiesState {
    /// The group entries of the last successful snapshot, name-sorted;
    /// empty when the last fetch failed or none has happened yet.
    pub proxies: Vec<Proxy>,
    /// Cursor over the sorted groups.
    pub provider: usize,
    /// Cursor over the name-sorted members of the current group.
    pub proxy_index: usize,
    /// Member count of the current group, or zero right after a refresh
    /// that followed an empty snapshot.
    pub proxies_len: usize,
    /// Group count of the snapshot.
    pub providers_len: usize,
}

impl ProxiesState {
    /// The snapshot is sorted and holds groups only.
    pub open spec fn groups_wf(&self) -> bool {
        &&& sorted_by(proxies_names_view(self.proxies@), name_le())
        &&& forall|i: int|
            0 <= i < self.proxies@.len() ==> (#[trigger] self.proxies@[i]).is_provider_spec()
    }

    /// Both cursors are in bounds (and pinned to zero over an empty list),
    /// the group count matches the snapshot, and a nonzero member count is
    /// the member count of the current group.
    pub open spec fn wf(&self) -> bool {
        &&& self.groups_wf()
        &&& self.providers_len == self.proxies@.len()
        &&& if self.providers_len == 0 {
            self.provider == 0
        } else {
            self.provider < self.providers_len
        }
        &&& if self.proxies_len == 0 {
            self.proxy_index == 0
        } else {
            self.proxy_index < self.proxies_len
        }
        &&& self.proxies_len != 0 ==> self.providers_len != 0 && self.proxies_len
            == self.proxies@[self.provider as int].member_count_spec()
    }

    /// The state after the group cursor moves forward.
    pub open spec fn after_next_tab(self) -> ProxiesState {
        if self.providers_len == 0 {
            ProxiesState { provider: 0, ..self }
        } else {
            let p = cycle_next(self.provider as nat, self.providers_len as nat);
            ProxiesState {
                provider: p as usize,
                proxy_index: 0,
                proxies_len: self.proxies@[p as int].member_count_spec() as usize,
                ..self
            }
        }
    }

    /// The state after the group cursor moves back.
    pub open spec fn after_previous_tab(self) -> ProxiesState {
        if self.providers_len == 0 {
            ProxiesState { provider: 0, ..self }
        } else {
            let p = cycle_previous(self.provider as nat, self.providers_len as nat);
            ProxiesState {
                provider: p as usize,
                proxy_index: 0,
                proxies_len: self.proxies@[p as int].member_count_spec() as usize,
                ..self
            }
        }
    }

    /// The state after the member cursor moves forward.
    pub open spec fn after_next_proxy(self) -> ProxiesState {
        ProxiesState {
            proxy_index: cycle_next(self.proxy_index as nat, self.proxies_len as nat) as usize,
            ..self
        }
    }

    /// The state after the member cursor moves back.
    pub open spec fn after_previous_proxy(self) -> ProxiesState {
        ProxiesState {
            proxy_index: cycle_previous(self.proxy_index as nat, self.proxies_len as nat) as usize,
            ..self
        }
    }
}

impl Default for ProxiesState {
    /// The empty submodel, before any fetch.
    fn default() -> (r: Self)
        ensures
            r.wf(),
            r.proxies@.len() == 0,
            r.provider == 0,
            r.proxy_index == 0,
            r.proxies_len == 0,
            r.providers_len == 0,
    {
        ProxiesState {
            proxies: Vec::new(),
            provider: 0,
            proxy_index: 0,
            proxies_len: 0,
            providers_len: 0,
        }
    }
}

impl ProxiesState {
    /// The name-sorted group entries of the last snapshot.
    pub fn providers(&self) -> (r: &Vec<Proxy>)
        ensures
            r@ == self.proxies@,
    {
        &self.proxies
    }

    /// Replaces the snapshot from a fetch result.  On failure everything is
    /// cleared; on success both cursors return to the head, and the member
    /// count is taken from the new head group unless the previous group
    /// count was zero.
    pub fn fetch_data(&mut self, result: Option<Vec<Proxy>>)
        ensures
            final(self).wf(),
            final(self).provider == 0,
            final(self).proxy_index == 0,
            result is None ==> final(self).proxies@ =~= Seq::<Proxy>::empty()
                && final(self).providers_len == 0 && final(self).proxies_len == 0,
            result matches Some(list) ==> {
                &&& final(self).proxies@.to_multiset() == list@.filter(
                    is_provider_pred(),
                ).to_multiset()
                &&& sorted_by(proxies_names_view(final(self).proxies@), name_le())
                &&& final(self).providers_len == final(self).proxies@.len()
                &&& final(self).proxies_len == if old(self).providers_len != 0 && final(self).proxies@.len() > 0 {
                    final(self).proxies@[0].member_count_spec()
                } else {
                    0
                }
            },
    {
        match result {
            None => {
                self.proxies = Vec::new();
                self.provider = 0;
                self.proxy_index = 0;
                self.providers_len = 0;
                self.proxies_len = 0;
            },
            Some(list) => {
                let sorted = sorted_providers(list);
                self.provider = 0;
                if self.providers_len != 0 && sorted.len() > 0 {
                    self.proxies_len = member_len(&sorted[0]);
                } else {
                    self.proxies_len = 0;
                }
                self.proxy_index = 0;
                self.providers_len = sorted.len();
                self.proxies = sorted;
            },
        }
    }

    /// Moves the group cursor one group forward and returns the member
    /// cursor to the head of the new group's member list.
    pub fn next_tab(&mut self)
        requires
            old(self).wf(),
        ensures
            final(self).wf(),
            final(self).proxies@ == old(self).proxies@,
            final(self).providers_len == old(self).providers_len,
            *final(self) == old(self).after_next_tab(),
            final(self).provider as nat == cycle_next(
                old(self).provider as nat,
                old(self).providers_len as nat,
            ),
            old(self).providers_len == 0 ==> *final(self) == *old(self),
            old(self).providers_len > 0 ==> final(self).proxy_index == 0 && final(self).proxies_len
                == final(self).proxies@[final(self).provider as int].member_count_spec(),
    {
        if self.providers_len == 0 {
            self.provider = 0;
            return ;
        }
        let index = self.provider + 1;
        self.provider = index % self.providers_len;
        self.proxies_len = member_len(&self.proxies[self.provider]);
        self.proxy_index = 0;
    }

    /// Moves the group cursor one group back and returns the member cursor
    /// to the head of the new group's member list.
    pub fn previous_tab(&mut self)
        requires
            old(self).wf(),
        ensures
            final(self).wf(),
            final(self).proxies@ == old(self).proxies@,
            final(self).providers_len == old(self).providers_len,
            *final(self) == old(self).after_previous_tab(),
            final(self).provider as nat == cycle_previous(
                old(self).provider as nat,
                old(self).providers_len as nat,
            ),
            old(self).providers_len == 0 ==> *final(self) == *old(self),
            old(self).providers_len > 0 ==> final(self).proxy_index == 0 && final(self).proxies_len
                == final(self).proxies@[final(self).provider as int].member_count_spec(),
    {
        if self.providers_len == 0 {
            self.provider = 0;
            return ;
        }
        let index = if self.provider == 0 {
            self.providers_len - 1
        } else {
            self.provider - 1
        };
        proof {
            let i = old(self).provider as int;
            let n = old(self).providers_len as int;
            assert((i + n - 1) % n == index) by (nonlinear_arith)
                requires
                    n > 0,
                    0 <= i < n,
                    index == if i == 0 { n - 1 } else { i - 1 },
            ;
        }
        self.provider = index;
        self.proxies_len = member_len(&self.proxies[self.provider]);
        self.proxy_index = 0;
    }

    /// Moves the member cursor one member forward; never touches the group
    /// cursor.
    pub fn next_proxy(&mut self)
        requires
            old(self).wf(),
        ensures
            final(self).wf(),
            final(self).proxies@ == old(self).proxies@,
            final(self).provider == old(self).provider,
            final(self).providers_len == old(self).providers_len,
            final(self).proxies_len == old(self).proxies_len,
            *final(self) == old(self).after_next_proxy(),
            final(self).proxy_index as nat == cycle_next(
                old(self).proxy_index as nat,
                old(self).proxies_len as nat,
            ),
    {
        if self.proxies_len == 0 {
            self.proxy_index = 0;
            return ;
        }
        let index = self.proxy_index + 1;
        self.proxy_index = index % self.proxies_len;
    }

    /// Moves the member cursor one member back; never touches the group
    /// cursor.
    pub fn previous_proxy(&mut self)
        requires
            old(self).wf(),
        ensures
            final(self).wf(),
            final(self).proxies@ == old(self).proxies@,
            final(self).provider == old(self).provider,
            final(self).providers_len == old(self).providers_len,
            final(self).proxies_len == old(self).proxies_len,
            *final(self) == old(self).after_previous_proxy(),
            final(self).proxy_index as nat == cycle_previous(
                old(self).proxy_index as nat,
                old(self).proxies_len as nat,
            ),
    {
        if self.proxies_len == 0 {
            self.proxy_index = 0;
            return ;
        }
        let index = if self.proxy_index == 0 {
            self.proxies_len - 1
        } else {
            self.proxy_index - 1
        };
        proof {
            let i = old(self).proxy_index as int;
            let n = old(self).proxies_len as int;
            assert((i + n - 1) % n == index) by (nonlinear_arith)
                requires
                    n > 0,
                    0 <= i < n,
                    index == if i == 0 { n - 1 } else { i - 1 },
            ;
        }
        self.proxy_index = index;
    }

    /// Resolves the `(group name, member name)` pair the cursors point at,
    /// ready for a member-selection request; `None` when there is nothing
    /// to select.
    pub fn select_proxy(&self) -> (r: Option<(String, String)>)
        requires
            self.wf(),
        ensures
            (self.providers_len != 0 && self.proxies_len != 0) <==> r is Some,
            r matches Some(t) ==> t.0@ == self.proxies@[self.provider as int].name@ && t.1@
                == self.proxies@[self.provider as int].sorted_member_names()[self.proxy_index as int],
    {
        if self.providers_len == 0 || self.proxies_len == 0 {
            return None;
        }
        let p = &self.proxies[self.provider];
        let sorted = sort_names(members_of(p));
        let member = sorted[self.proxy_index].clone();
        proof {
            assert(member@ == names_view(sorted@)[self.proxy_index as int]);
        }
        Some((p.name.clone(), member))
    }

    /// After the refetch a confirmed selection forces, snaps the cursors
    /// back to their pre-confirm ranks where those ranks still exist in the
    /// new snapshot; a restored group cursor brings the member count of the
    /// newly current group with it.
    pub fn restore_selection(&mut self, provider: usize, proxy_index: usize)
        requires
            old(self).wf(),
        ensures
            final(self).wf(),
            final(self).proxies@ == old(self).proxies@,
            final(self).providers_len == old(self).providers_len,
            (old(self).providers_len == 0 || old(self).proxies_len == 0) ==> *final(self) == *old(self),
            (old(self).providers_len != 0 && old(self).proxies_len != 0 && provider < old(self).providers_len) ==> {
                &&& final(self).provider == provider
                &&& final(self).proxies_len == old(self).proxies@[provider as int].member_count_spec()
                &&& final(self).proxy_index == if proxy_index < old(self).proxies@[provider as int].member_count_spec() {
                    proxy_index as int
                } else {
                    0
                }
            },
            (old(self).providers_len != 0 && old(self).proxies_len != 0 && provider >= old(self).providers_len) ==> {
                &&& final(self).provider == old(self).provider
                &&& final(self).proxies_len == old(self).proxies_len
                &&& final(self).proxy_index == if proxy_index < old(self).proxies_len {
                    proxy_index as int
                } else {
                    old(self).proxy_index as int
                }
            },
    {
        if self.providers_len == 0 || self.proxies_len == 0 {
            return ;
        }
        if provider < self.providers_len {
            self.provider = provider;
            self.proxies_len = member_len(&self.proxies[provider]);
            self.proxy_index = 0;
        }
        if proxy_index < self.proxies_len {
            self.proxy_index = proxy_index;
        }
    }

    /// The name-sorted member names of the current group, for a renderer;
    /// empty when the snapshot has no groups.
    pub fn member_names(&self) -> (r: Vec<String>)
        requires
            self.wf(),
        ensures
            self.providers_len == 0 ==> r@.len() == 0,
            self.providers_len != 0 ==> names_view(r@) == self.proxies@[self.provider as int].sorted_member_names(),
    {
        if self.providers_len == 0 {
            return Vec::new();
        }
        let p = &self.proxies[self.provider];
        sort_names(members_of(p))
    }
}

} // verus!
