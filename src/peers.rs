//! The browser's peer table: resolved services keyed by their fully
//! qualified name, with the short display name derived from that name.
use vstd::prelude::*;

use crate::text::{chars_of, push_char};

verus! {

/// Instance names of advertised services start with this.
pub const SERVICE_PREFIX: &'static str = "RemoteSync-";

/// One discovered remote endpoint.
#[derive(Clone, Debug, PartialEq, Eq)]
pub struct Peer {
    pub name: String,
    pub host: String,
    pub port: u16,
}

/// Mathematical model of a [`Peer`].
pub struct PeerView {
    pub name: Seq<char>,
    pub host: Seq<char>,
    pub port: u16,
}

impl View for Peer {
    type V = PeerView;

    open spec fn view(&self) -> PeerView {
        PeerView { name: self.name@, host: self.host@, port: self.port }
    }
}

/// A field-by-field copy of a peer.
pub fn copy_peer(p: &Peer) -> (r: Peer)
    ensures
        r@ == p@,
{
    Peer { name: p.name.clone(), host: p.host.clone(), port: p.port }
}

/// The characters before the first `.`.
pub open spec fn before_dot(s: Seq<char>) -> Seq<char>
    decreases s.len(),
{
    if s.len() == 0 || s[0] == '.' {
        Seq::empty()
    } else {
        seq![s[0]] + before_dot(s.drop_first())
    }
}

/// Display name of a service: with the instance prefix, what follows it up
/// to the first `.`; without it, the whole name.
pub open spec fn display_name_spec(full: Seq<char>) -> Seq<char> {
    let p = SERVICE_PREFIX@;
    if full.len() >= p.len() && full.subrange(0, p.len() as int) == p {
        before_dot(full.subrange(p.len() as int, full.len() as int))
    } else {
        full
    }
}

fn has_prefix(s: &Vec<char>, p: &Vec<char>) -> (r: bool)
    ensures
        r == (s@.len() >= p@.len() && s@.subrange(0, p@.len() as int) == p@),
{
    if s.len() < p.len() {
        return false;
    }
    let mut i: usize = 0;
    while i < p.len()
        invariant
            i <= p@.len() <= s@.len(),
            s@.subrange(0, i as int) == p@.subrange(0, i as int),
        decreases p.len() - i,
    {
        if s[i] != p[i] {
            assert(s@.subrange(0, p@.len() as int)[i as int] != p@[i as int]);
            return false;
        }
        assert(s@.subrange(0, i + 1) =~= s@.subrange(0, i as int).push(s@[i as int]));
        assert(p@.subrange(0, i + 1) =~= p@.subrange(0, i as int).push(p@[i as int]));
        i = i + 1;
    }
    assert(p@.subrange(0, i as int) =~= p@);
    true
}

/// The short name shown for a service's fully qualified name
/// (`RemoteSync-Mac2.local.` gives `Mac2`).
pub fn display_name(full: &str) -> (r: String)
    ensures
        r@ == display_name_spec(full@),
{
    let cs = chars_of(full);
    let p = chars_of(SERVICE_PREFIX);
    if !has_prefix(&cs, &p) {
        return full.to_string();
    }
    let ghost rest = cs@.subrange(p@.len() as int, cs@.len() as int);
    let mut out = String::new();
    let mut i: usize = p.len();
    while i < cs.len() && cs[i] != '.'
        invariant
            p@.len() <= i <= cs@.len(),
            before_dot(rest) == out@ + before_dot(cs@.subrange(i as int, cs@.len() as int)),
        decreases cs.len() - i,
    {
        let ghost tail = cs@.subrange(i as int, cs@.len() as int);
        assert(tail.drop_first() =~= cs@.subrange(i + 1, cs@.len() as int));
        let ghost before = out@;
        push_char(&mut out, cs[i]);
        assert(before + (seq![cs@[i as int]] + before_dot(tail.drop_first())) =~= out@
            + before_dot(tail.drop_first()));
        i = i + 1;
    }
    assert(out@ + before_dot(cs@.subrange(i as int, cs@.len() as int)) =~= out@);
    out
}

/// A discovery event, as far as the peer table cares.
pub enum DiscoveryEvent {
    /// A service was resolved to an address and port.
    Resolved { fullname: String, host: String, port: u16 },
    /// A service went away.
    Removed { fullname: String },
    /// Anything else the browser reports.
    Other,
}

/// Mathematical model of a [`DiscoveryEvent`].
pub enum DiscoveryEventView {
    Resolved { fullname: Seq<char>, host: Seq<char>, port: u16 },
    Removed { fullname: Seq<char> },
    Other,
}

impl View for DiscoveryEvent {
    type V = DiscoveryEventView;

    open spec fn view(&self) -> DiscoveryEventView {
        match self {
            DiscoveryEvent::Resolved { fullname, host, port } => DiscoveryEventView::Resolved {
                fullname: fullname@,
                host: host@,
                port: *port,
            },
            DiscoveryEvent::Removed { fullname } => DiscoveryEventView::Removed {
                fullname: fullname@,
            },
            DiscoveryEvent::Other => DiscoveryEventView::Other,
        }
    }
}

/// The peer that a resolved service stands for.
pub open spec fn resolved_peer(fullname: Seq<char>, host: Seq<char>, port: u16) -> PeerView {
    PeerView { name: display_name_spec(fullname), host, port }
}

/// How one event changes the table, keyed by fully qualified name.
pub open spec fn step(m: Map<Seq<char>, PeerView>, ev: DiscoveryEventView) -> Map<
    Seq<char>,
    PeerView,
> {
    match ev {
        DiscoveryEventView::Resolved { fullname, host, port } => m.insert(
            fullname,
            resolved_peer(fullname, host, port),
        ),
        DiscoveryEventView::Removed { fullname } => m.remove(fullname),
        DiscoveryEventView::Other => m,
    }
}

/// The table after a sequence of events, from an empty one.
pub open spec fn replay(evs: Seq<DiscoveryEventView>) -> Map<Seq<char>, PeerView>
    decreases evs.len(),
{
    if evs.len() == 0 {
        Map::empty()
    } else {
        step(replay(evs.drop_last()), evs.last())
    }
}

/// Whether the event resolves the name `k`.
pub open spec fn resolves(ev: DiscoveryEventView, k: Seq<char>) -> bool {
    ev is Resolved && ev->Resolved_fullname == k
}

/// Whether the event removes the name `k`.
pub open spec fn removes(ev: DiscoveryEventView, k: Seq<char>) -> bool {
    ev is Removed && ev->Removed_fullname == k
}

/// The names resolved by some event and not removed by a later one.
pub open spec fn live_names(evs: Seq<DiscoveryEventView>) -> Set<Seq<char>> {
    Set::new(
        |k: Seq<char>|
            exists|i: int|
                0 <= i < evs.len() && resolves(#[trigger] evs[i], k) && forall|j: int|
                    i < j < evs.len() ==> !removes(#[trigger] evs[j], k),
    )
}

/// The table holds exactly the names resolved and not removed since, each
/// with the display name derived from it.
pub proof fn lemma_replay_live(evs: Seq<DiscoveryEventView>)
    ensures
        replay(evs).dom() == live_names(evs),
        forall|k: Seq<char>| #[trigger]
            replay(evs).contains_key(k) ==> replay(evs)[k].name == display_name_spec(k),
    decreases evs.len(),
{
    if evs.len() == 0 {
        assert(live_names(evs) =~= Set::<Seq<char>>::empty());
    } else {
        let pre = evs.drop_last();
        let last = evs.last();
        let n = evs.len() - 1;
        lemma_replay_live(pre);
        assert forall|k: Seq<char>| live_names(evs).contains(k) == replay(evs).dom().contains(
            k,
        ) by {
            if replay(evs).dom().contains(k) {
                if resolves(last, k) {
                    assert(resolves(evs[n], k));
                } else {
                    assert(live_names(pre).contains(k));
                    let i = choose|i: int|
                        0 <= i < pre.len() && resolves(#[trigger] pre[i], k) && forall|j: int|
                            i < j < pre.len() ==> !removes(#[trigger] pre[j], k);
                    assert(resolves(evs[i], k));
                    assert forall|j: int| i < j < evs.len() implies !removes(
                        #[trigger] evs[j],
                        k,
                    ) by {
                        if j < n {
                            assert(evs[j] == pre[j]);
                        }
                    }
                }
            }
            if live_names(evs).contains(k) {
                let i = choose|i: int|
                    0 <= i < evs.len() && resolves(#[trigger] evs[i], k) && forall|j: int|
                        i < j < evs.len() ==> !removes(#[trigger] evs[j], k);
                if i < n {
                    assert(resolves(pre[i], k));
                    assert forall|j: int| i < j < pre.len() implies !removes(
                        #[trigger] pre[j],
                        k,
                    ) by {
                        assert(evs[j] == pre[j]);
                    }
                    assert(live_names(pre).contains(k));
                    assert(!removes(evs[n], k));
                }
            }
        }
        assert(replay(evs).dom() =~= live_names(evs));
    }
}

/// One table entry: fully qualified name and peer.
pub type EntryView = (Seq<char>, PeerView);

/// The entries held by `v`, as mathematical values.
pub open spec fn entries_view(v: Seq<(String, Peer)>) -> Seq<EntryView> {
    v.map_values(|e: (String, Peer)| (e.0@, e.1@))
}

/// No two entries share a name.
pub open spec fn keys_unique(s: Seq<EntryView>) -> bool {
    forall|i: int, j: int| 0 <= i < j < s.len() ==> #[trigger] s[i].0 != #[trigger] s[j].0
}

/// The map from name to peer that a list of entries stands for.
pub open spec fn entries_map(s: Seq<EntryView>) -> Map<Seq<char>, PeerView>
    decreases s.len(),
{
    if s.len() == 0 {
        Map::empty()
    } else {
        entries_map(s.drop_last()).insert(s.last().0, s.last().1)
    }
}

proof fn lemma_entries_map_has(s: Seq<EntryView>, k: Seq<char>)
    requires
        keys_unique(s),
    ensures
        entries_map(s).contains_key(k) <==> exists|i: int| 0 <= i < s.len() && #[trigger] s[i].0 == k,
        forall|i: int| 0 <= i < s.len() && #[trigger] s[i].0 == k ==> entries_map(s)[k] == s[i].1,
    decreases s.len(),
{
    if s.len() > 0 {
        let pre = s.drop_last();
        assert(keys_unique(pre)) by {
            assert forall|i: int, j: int| 0 <= i < j < pre.len() implies #[trigger] pre[i].0
                != #[trigger] pre[j].0 by {
                assert(pre[i] == s[i] && pre[j] == s[j]);
            }
        }
        lemma_entries_map_has(pre, k);
        if entries_map(pre).contains_key(k) {
            let i = choose|i: int| 0 <= i < pre.len() && #[trigger] pre[i].0 == k;
            assert(s[i].0 == k);
        }
        assert forall|i: int| 0 <= i < s.len() && #[trigger] s[i].0 == k implies entries_map(s)[k]
            == s[i].1 by {
            if i < s.len() - 1 {
                assert(pre[i] == s[i]);
                assert(s[s.len() - 1].0 != k);
            }
        }
        if exists|i: int| 0 <= i < s.len() && #[trigger] s[i].0 == k {
            let i = choose|i: int| 0 <= i < s.len() && #[trigger] s[i].0 == k;
            if i < s.len() - 1 {
                assert(pre[i] == s[i]);
            }
        }
    }
}

proof fn lemma_entries_map_update(s: Seq<EntryView>, i: int, v: PeerView)
    requires
        keys_unique(s),
        0 <= i < s.len(),
    ensures
        entries_map(s.update(i, (s[i].0, v))) == entries_map(s).insert(s[i].0, v),
    decreases s.len(),
{
    let k = s[i].0;
    let t = s.update(i, (k, v));
    if i == s.len() - 1 {
        assert(t.drop_last() =~= s.drop_last());
        assert(entries_map(t) =~= entries_map(s).insert(k, v));
    } else {
        let pre = s.drop_last();
        assert(keys_unique(pre)) by {
            assert forall|a: int, b: int| 0 <= a < b < pre.len() implies #[trigger] pre[a].0
                != #[trigger] pre[b].0 by {
                assert(pre[a] == s[a] && pre[b] == s[b]);
            }
        }
        assert(pre[i] == s[i]);
        lemma_entries_map_update(pre, i, v);
        assert(t.drop_last() =~= pre.update(i, (k, v)));
        assert(s.last().0 != k);
        assert(entries_map(t) =~= entries_map(s).insert(k, v));
    }
}

proof fn lemma_entries_map_remove(s: Seq<EntryView>, i: int)
    requires
        keys_unique(s),
        0 <= i < s.len(),
    ensures
        entries_map(s.remove(i)) == entries_map(s).remove(s[i].0),
        keys_unique(s.remove(i)),
    decreases s.len(),
{
    let k = s[i].0;
    let t = s.remove(i);
    let pre = s.drop_last();
    assert(keys_unique(pre)) by {
        assert forall|a: int, b: int| 0 <= a < b < pre.len() implies #[trigger] pre[a].0
            != #[trigger] pre[b].0 by {
            assert(pre[a] == s[a] && pre[b] == s[b]);
        }
    }
    assert(keys_unique(t)) by {
        assert forall|a: int, b: int| 0 <= a < b < t.len() implies #[trigger] t[a].0
            != #[trigger] t[b].0 by {
            let a2 = if a < i { a } else { a + 1 };
            let b2 = if b < i { b } else { b + 1 };
            assert(t[a] == s[a2] && t[b] == s[b2]);
        }
    }
    if i == s.len() - 1 {
        assert(t =~= pre);
        lemma_entries_map_has(pre, k);
        assert forall|a: int| 0 <= a < pre.len() implies #[trigger] pre[a].0 != k by {
            assert(pre[a] == s[a]);
        }
        assert(!entries_map(pre).contains_key(k));
        assert(entries_map(t) =~= entries_map(s).remove(k));
    } else {
        assert(pre[i] == s[i]);
        lemma_entries_map_remove(pre, i);
        assert(t.drop_last() =~= pre.remove(i));
        assert(t.last() == s.last());
        assert(s.last().0 != k);
        assert(entries_map(t) =~= entries_map(s).remove(k));
    }
}

/// The browser's table of resolved peers, in order of first resolution.
pub struct PeerTable {
    entries: Vec<(String, Peer)>,
}

impl PeerTable {
    /// The table's entries as mathematical values.
    pub closed spec fn entries(&self) -> Seq<EntryView> {
        entries_view(self.entries@)
    }

    /// No name appears twice.
    pub open spec fn wf(&self) -> bool {
        keys_unique(self.entries())
    }

    /// The table as a map from fully qualified name to peer.
    pub open spec fn map(&self) -> Map<Seq<char>, PeerView> {
        entries_map(self.entries())
    }

    /// An empty table.
    pub fn new() -> (r: PeerTable)
        ensures
            r.wf(),
            r.map() == Map::<Seq<char>, PeerView>::empty(),
            r.entries().len() == 0,
    {
        let r = PeerTable { entries: Vec::new() };
        assert(r.entries() =~= Seq::<EntryView>::empty());
        r
    }

    fn position(&self, key: &String) -> (r: Option<usize>)
        ensures
            match r {
                Some(i) => i < self.entries().len() && self.entries()[i as int].0 == key@,
                None => forall|i: int| 0 <= i < self.entries().len() ==> #[trigger] self.entries()[i].0 != key@,
            },
    {
        let mut i: usize = 0;
        while i < self.entries.len()
            invariant
                i <= self.entries@.len(),
                forall|j: int| 0 <= j < i ==> #[trigger] self.entries()[j].0 != key@,
            decreases self.entries.len() - i,
        {
            if self.entries[i].0 == *key {
                return Some(i);
            }
            i = i + 1;
        }
        None
    }

    /// Inserts or replaces the peer stored under `fullname`.
    pub fn resolve(&mut self, fullname: String, host: String, port: u16)
        requires
            old(self).wf(),
        ensures
            final(self).wf(),
            final(self).map() == old(self).map().insert(
                fullname@,
                resolved_peer(fullname@, host@, port),
            ),
    {
        let name = display_name(fullname.as_str());
        let peer = Peer { name, host, port };
        let ghost pv = peer@;
        let ghost key = fullname@;
        let ghost before = self.entries();
        match self.position(&fullname) {
            Some(i) => {
                self.entries.set(i, (fullname, peer));
                proof {
                    assert(self.entries() =~= before.update(i as int, (before[i as int].0, pv)));
                    lemma_entries_map_update(before, i as int, pv);
                    assert(keys_unique(self.entries())) by {
                        assert forall|a: int, b: int|
                            0 <= a < b < self.entries().len() implies #[trigger] self.entries()[a].0
                            != #[trigger] self.entries()[b].0 by {
                            assert(before[a].0 == self.entries()[a].0);
                            assert(before[b].0 == self.entries()[b].0);
                        }
                    }
                }
            },
            None => {
                self.entries.push((fullname, peer));
                proof {
                    assert(self.entries() =~= before.push((key, pv)));
                    assert(self.entries().drop_last() =~= before);
                    assert(keys_unique(self.entries())) by {
                        assert forall|a: int, b: int|
                            0 <= a < b < self.entries().len() implies #[trigger] self.entries()[a].0
                            != #[trigger] self.entries()[b].0 by {
                            if b < before.len() {
                                assert(before[a] == self.entries()[a]);
                                assert(before[b] == self.entries()[b]);
                            } else {
                                assert(before[a] == self.entries()[a]);
                            }
                        }
                    }
                }
            },
        }
    }

    /// Removes the peer stored under `fullname`, if any.
    pub fn remove(&mut self, fullname: &String)
        requires
            old(self).wf(),
        ensures
            final(self).wf(),
            final(self).map() == old(self).map().remove(fullname@),
    {
        let ghost before = self.entries();
        match self.position(fullname) {
            Some(i) => {
                self.entries.remove(i);
                proof {
                    assert(self.entries() =~= before.remove(i as int));
                    lemma_entries_map_remove(before, i as int);
                }
            },
            None => {
                proof {
                    lemma_entries_map_has(before, fullname@);
                    assert(self.map() =~= old(self).map().remove(fullname@));
                }
            },
        }
    }

    /// The current peers, one per name, in table order.
    pub fn snapshot(&self) -> (r: Vec<Peer>)
        requires
            self.wf(),
        ensures
            r@.len() == self.entries().len(),
            forall|i: int| 0 <= i < r@.len() ==> #[trigger] r@[i]@ == self.entries()[i].1,
            forall|i: int|
                0 <= i < r@.len() ==> self.map().contains_key(#[trigger] self.entries()[i].0)
                    && self.map()[self.entries()[i].0] == r@[i]@,
            forall|k: Seq<char>| #[trigger]
                self.map().contains_key(k) ==> exists|i: int|
                    0 <= i < r@.len() && self.entries()[i].0 == k && #[trigger] r@[i]@ == self.map()[k],
    {
        let mut r: Vec<Peer> = Vec::new();
        let mut i: usize = 0;
        while i < self.entries.len()
            invariant
                i <= self.entries@.len(),
                r@.len() == i,
                forall|j: int| 0 <= j < i ==> #[trigger] r@[j]@ == self.entries()[j].1,
            decreases self.entries.len() - i,
        {
            r.push(copy_peer(&self.entries[i].1));
            i = i + 1;
        }
        proof {
            assert forall|k: Seq<char>| #[trigger] self.map().contains_key(k) implies exists|j: int|
                0 <= j < r@.len() && self.entries()[j].0 == k && #[trigger] r@[j]@ == self.map()[k] by {
                lemma_entries_map_has(self.entries(), k);
                let j = choose|j: int| 0 <= j < self.entries().len() && #[trigger] self.entries()[j].0 == k;
                assert(r@[j]@ == self.map()[k]);
            }
            assert forall|j: int| 0 <= j < r@.len() implies self.map().contains_key(
                #[trigger] self.entries()[j].0,
            ) && self.map()[self.entries()[j].0] == r@[j]@ by {
                lemma_entries_map_has(self.entries(), self.entries()[j].0);
            }
        }
        r
    }

    /// Applies one discovery event and, when the table may have changed,
    /// gives the snapshot to report.
    pub fn handle_event(&mut self, ev: DiscoveryEvent) -> (r: Option<Vec<Peer>>)
        requires
            old(self).wf(),
        ensures
            final(self).wf(),
            final(self).map() == step(old(self).map(), ev@),
            r is Some <==> !(ev@ is Other),
            r is Some ==> r->Some_0@.len() == final(self).entries().len() && forall|i: int|
                0 <= i < final(self).entries().len() ==> #[trigger] r->Some_0@[i]@ == final(self).entries()[i].1,
    {
        match ev {
            DiscoveryEvent::Resolved { fullname, host, port } => {
                self.resolve(fullname, host, port);
                Some(self.snapshot())
            },
            DiscoveryEvent::Removed { fullname } => {
                self.remove(&fullname);
                Some(self.snapshot())
            },
            DiscoveryEvent::Other => None,
        }
    }
}

/// Feeding one more event to a table that stands for a sequence of events
/// gives the table of the longer sequence.
pub proof fn lemma_replay_step(evs: Seq<DiscoveryEventView>, ev: DiscoveryEventView)
    ensures
        replay(evs.push(ev)) == step(replay(evs), ev),
{
    assert(evs.push(ev).drop_last() =~= evs);
}

/// The peer list reported by a table built from a sequence of events holds
/// one entry per name resolved and not removed since, and nothing else,
/// each shown under the display name derived from its fully qualified
/// name.
pub proof fn lemma_reported_peers_are_live(entries: Seq<EntryView>, evs: Seq<DiscoveryEventView>)
    requires
        keys_unique(entries),
        entries_map(entries) == replay(evs),
    ensures
        forall|i: int|
            0 <= i < entries.len() ==> live_names(evs).contains(#[trigger] entries[i].0)
                && entries[i].1.name == display_name_spec(entries[i].0),
        forall|k: Seq<char>| #[trigger]
            live_names(evs).contains(k) ==> exists|i: int| 0 <= i < entries.len() && #[trigger] entries[i].0 == k,
        forall|i: int, j: int| 0 <= i < j < entries.len() ==> #[trigger] entries[i].0 != #[trigger] entries[j].0,
{
    lemma_replay_live(evs);
    assert forall|i: int| 0 <= i < entries.len() implies live_names(evs).contains(
        #[trigger] entries[i].0,
    ) && entries[i].1.name == display_name_spec(entries[i].0) by {
        lemma_entries_map_has(entries, entries[i].0);
    }
    assert forall|k: Seq<char>| #[trigger] live_names(evs).contains(k) implies exists|i: int|
        0 <= i < entries.len() && #[trigger] entries[i].0 == k by {
        lemma_entries_map_has(entries, k);
    }
}

} // verus!
