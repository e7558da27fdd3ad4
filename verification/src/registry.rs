//! The peer registry: who is connected, under which identity, and whether the
//! entry was refreshed since the last sweep.
//!
//! The registry keeps its entries in registration order and never holds two
//! entries for one identity. Its model is the sequence of its entries; every
//! operation is stated as a function on that sequence.

use vstd::prelude::*;

use crate::text::same_text;

verus! {

/// Names the delivery queue of one connection.
pub type Handle = u64;

/// One registry entry.
#[derive(Clone, Debug, PartialEq, Eq)]
pub struct Peer {
    pub identity: String,
    pub handle: Handle,
    /// Set when the entry is inserted or replaced, cleared by each sweep.
    pub alive: bool,
}

/// The mathematical value of a [`Peer`].
pub struct PeerView {
    pub identity: Seq<char>,
    pub handle: Handle,
    pub alive: bool,
}

impl View for Peer {
    type V = PeerView;

    open spec fn view(&self) -> PeerView {
        PeerView { identity: self.identity@, handle: self.handle, alive: self.alive }
    }
}

/// The values of a list of entries.
pub open spec fn peer_views(entries: Seq<Peer>) -> Seq<PeerView> {
    entries.map_values(|p: Peer| p@)
}

/// No identity occurs twice.
pub open spec fn distinct(s: Seq<PeerView>) -> bool {
    forall|i: int, j: int| 0 <= i < j < s.len() ==> s[i].identity != s[j].identity
}

/// Some entry is registered under `id`.
pub open spec fn registered(s: Seq<PeerView>, id: Seq<char>) -> bool {
    exists|i: int| 0 <= i < s.len() && #[trigger] s[i].identity == id
}

/// The place of the entry registered under `id`.
pub open spec fn position(s: Seq<PeerView>, id: Seq<char>) -> int {
    choose|i: int| 0 <= i < s.len() && #[trigger] s[i].identity == id
}

/// The entry registered under `id`.
pub open spec fn entry(s: Seq<PeerView>, id: Seq<char>) -> PeerView {
    s[position(s, id)]
}

/// The membership snapshot: the identities, in registration order.
pub open spec fn identities(s: Seq<PeerView>) -> Seq<Seq<char>> {
    s.map_values(|p: PeerView| p.identity)
}

/// A freshly registered entry.
pub open spec fn fresh(id: Seq<char>, handle: Handle) -> PeerView {
    PeerView { identity: id, handle, alive: true }
}

/// The registry after `id` registers with `handle`: its entry is replaced in
/// place if there is one, appended otherwise.
pub open spec fn upserted(s: Seq<PeerView>, id: Seq<char>, handle: Handle) -> Seq<PeerView> {
    if registered(s, id) {
        s.update(position(s, id), fresh(id, handle))
    } else {
        s.push(fresh(id, handle))
    }
}

/// The registry without the entry of `id`.
pub open spec fn removed(s: Seq<PeerView>, id: Seq<char>) -> Seq<PeerView> {
    if registered(s, id) {
        s.remove(position(s, id))
    } else {
        s
    }
}

/// An entry with its liveness flag cleared.
pub open spec fn cleared(p: PeerView) -> PeerView {
    PeerView { identity: p.identity, handle: p.handle, alive: false }
}

/// The entries whose liveness flag is set, in order.
pub open spec fn live(s: Seq<PeerView>) -> Seq<PeerView> {
    s.filter(|p: PeerView| p.alive)
}

/// The entries whose liveness flag is cleared, in order.
pub open spec fn stale(s: Seq<PeerView>) -> Seq<PeerView> {
    s.filter(|p: PeerView| !p.alive)
}

/// The registry after a sweep: the entries whose flag was set, each with the
/// flag cleared.
pub open spec fn survivors(s: Seq<PeerView>) -> Seq<PeerView> {
    live(s).map_values(|p: PeerView| cleared(p))
}

/// The identities that a sweep evicts: those whose flag was already cleared.
pub open spec fn evicted(s: Seq<PeerView>) -> Seq<Seq<char>> {
    stale(s).map_values(|p: PeerView| p.identity)
}

/// In a registry without duplicates, an entry under `id` is at `position`.
pub proof fn lemma_position(s: Seq<PeerView>, id: Seq<char>, i: int)
    requires
        distinct(s),
        0 <= i < s.len(),
        s[i].identity == id,
    ensures
        registered(s, id),
        position(s, id) == i,
{
    let c = position(s, id);
    assert(0 <= c < s.len() && s[c].identity == id);
    if c < i {
        assert(s[c].identity != s[i].identity);
    } else if i < c {
        assert(s[i].identity != s[c].identity);
    }
}

/// `f` may be applied to the entry `p`.
pub open spec fn accepts<R, F: Fn(&str, Handle) -> R>(f: F, p: PeerView) -> bool {
    forall|id: &str| id@ == p.identity ==> call_requires(f, (id, p.handle))
}

/// `r` is what `f` gave for the entry `p`.
pub open spec fn applied<R, F: Fn(&str, Handle) -> R>(f: F, p: PeerView, r: R) -> bool {
    exists|id: &str| id@ == p.identity && call_ensures(f, (id, p.handle), r)
}

/// A sweep of a registry with one more entry at its end.
pub proof fn lemma_sweep_push(s: Seq<PeerView>, p: PeerView)
    ensures
        survivors(s.push(p)) == if p.alive {
            survivors(s).push(cleared(p))
        } else {
            survivors(s)
        },
        evicted(s.push(p)) == if p.alive {
            evicted(s)
        } else {
            evicted(s).push(p.identity)
        },
{
    let stays = |p: PeerView| p.alive;
    let goes = |p: PeerView| !p.alive;
    s.lemma_filter_push(p, stays);
    s.lemma_filter_push(p, goes);
    if p.alive {
        assert(survivors(s.push(p)) =~= survivors(s).push(cleared(p)));
    } else {
        assert(evicted(s.push(p)) =~= evicted(s).push(p.identity));
    }
}

/// A sweep of the empty registry.
pub proof fn lemma_sweep_empty()
    ensures
        survivors(Seq::<PeerView>::empty()) == Seq::<PeerView>::empty(),
        evicted(Seq::<PeerView>::empty()) == Seq::<Seq<char>>::empty(),
{
    reveal(Seq::filter);
    assert(survivors(Seq::<PeerView>::empty()) =~= Seq::<PeerView>::empty());
    assert(evicted(Seq::<PeerView>::empty()) =~= Seq::<Seq<char>>::empty());
}

/// The place of the entry under `identity`, if there is one.
fn find(entries: &Vec<Peer>, identity: &str) -> (r: Option<usize>)
    ensures
        match r {
            Some(i) => i < entries@.len() && entries@[i as int].identity@ == identity@,
            None => forall|k: int| 0 <= k < entries@.len() ==> entries@[k].identity@ != identity@,
        },
{
    let mut i: usize = 0;
    while i < entries.len()
        invariant
            i <= entries@.len(),
            forall|k: int| 0 <= k < i ==> entries@[k].identity@ != identity@,
        decreases entries@.len() - i,
    {
        if same_text(entries[i].identity.as_str(), identity) {
            return Some(i);
        }
        i += 1;
    }
    None
}

/// The table of connected peers.
pub struct Registry {
    entries: Vec<Peer>,
}

impl View for Registry {
    type V = Seq<PeerView>;

    closed spec fn view(&self) -> Seq<PeerView> {
        peer_views(self.entries@)
    }
}

impl Registry {
    /// Every registry, at every moment: no identity occurs twice.
    #[verifier::type_invariant]
    spec fn well_formed(self) -> bool {
        distinct(self@)
    }

    /// An empty registry.
    pub fn new() -> (r: Registry)
        ensures
            r@ == Seq::<PeerView>::empty(),
            distinct(r@),
    {
        let r = Registry { entries: Vec::new() };
        assert(r@ =~= Seq::<PeerView>::empty());
        r
    }

    /// The number of entries.
    pub fn len(&self) -> (n: usize)
        ensures
            n == self@.len(),
            distinct(self@),
    {
        proof {
            use_type_invariant(self);
        }
        self.entries.len()
    }

    /// The entry registered under `identity`, if there is one.
    pub fn get(&self, identity: &str) -> (r: Option<&Peer>)
        ensures
            r is Some <==> registered(self@, identity@),
            r matches Some(p) ==> p@ == entry(self@, identity@),
    {
        proof {
            use_type_invariant(self);
        }
        match find(&self.entries, identity) {
            Some(i) => {
                proof {
                    lemma_position(self@, identity@, i as int);
                }
                Some(&self.entries[i])
            },
            None => None,
        }
    }

    /// Inserts or replaces the entry for `identity` and marks it alive. A
    /// replaced entry keeps its place; a new one goes to the end.
    pub fn upsert(&mut self, identity: String, handle: Handle)
        ensures
            final(self)@ == upserted(old(self)@, identity@, handle),
            distinct(final(self)@),
    {
        proof {
            use_type_invariant(&*self);
        }
        let ghost before = self@;
        let found = find(&self.entries, identity.as_str());
        let mut entries = Vec::new();
        std::mem::swap(&mut entries, &mut self.entries);
        let ghost id = identity@;
        let peer = Peer { identity, handle, alive: true };
        match found {
            Some(i) => {
                proof {
                    lemma_position(before, id, i as int);
                }
                entries[i] = peer;
            },
            None => {
                entries.push(peer);
            },
        }
        assert(peer_views(entries@) =~= upserted(before, id, handle));
        self.entries = entries;
    }

    /// Deletes the entry of `identity` if there is one, and says whether there
    /// was.
    pub fn remove(&mut self, identity: &str) -> (r: bool)
        ensures
            final(self)@ == removed(old(self)@, identity@),
            r == registered(old(self)@, identity@),
            distinct(final(self)@),
    {
        proof {
            use_type_invariant(&*self);
        }
        let ghost before = self@;
        let found = find(&self.entries, identity);
        match found {
            Some(i) => {
                proof {
                    lemma_position(before, identity@, i as int);
                }
                let mut entries = Vec::new();
                std::mem::swap(&mut entries, &mut self.entries);
                entries.remove(i);
                assert(peer_views(entries@) =~= removed(before, identity@));
                self.entries = entries;
                true
            },
            None => false,
        }
    }

    /// Whether the registry is empty.
    pub fn is_empty(&self) -> (r: bool)
        ensures
            r == (self@.len() == 0),
    {
        self.entries.len() == 0
    }

    /// The membership snapshot: the identities, in registration order.
    pub fn snapshot_identities(&self) -> (r: Vec<String>)
        ensures
            r.deep_view() == identities(self@),
    {
        let mut out: Vec<String> = Vec::new();
        let mut i: usize = 0;
        while i < self.entries.len()
            invariant
                i <= self.entries@.len(),
                out@.len() == i,
                forall|k: int| 0 <= k < i ==> out@[k]@ == self.entries@[k].identity@,
            decreases self.entries@.len() - i,
        {
            out.push(self.entries[i].identity.clone());
            i += 1;
        }
        assert(out.deep_view() =~= identities(self@));
        out
    }

    /// Applies `f` to every entry, in registration order, and returns what it
    /// gave for each. No result of `f` keeps it from the entries that follow.
    pub fn for_each_handle<R, F: Fn(&str, Handle) -> R>(&self, f: F) -> (out: Vec<R>)
        requires
            forall|i: int| 0 <= i < self@.len() ==> accepts(f, #[trigger] self@[i]),
        ensures
            out@.len() == self@.len(),
            forall|i: int| 0 <= i < self@.len() ==> applied(f, self@[i], #[trigger] out@[i]),
    {
        let mut out: Vec<R> = Vec::new();
        let mut i: usize = 0;
        while i < self.entries.len()
            invariant
                i <= self.entries@.len(),
                out@.len() == i,
                forall|i: int| 0 <= i < self@.len() ==> accepts(f, #[trigger] self@[i]),
                forall|k: int| 0 <= k < i ==> applied(f, self@[k], #[trigger] out@[k]),
            decreases self.entries@.len() - i,
        {
            let id = self.entries[i].identity.as_str();
            let handle = self.entries[i].handle;
            proof {
                assert(accepts(f, self@[i as int]));
                assert(id@ == self@[i as int].identity);
            }
            let r = f(id, handle);
            proof {
                assert(call_ensures(f, (id, self@[i as int].handle), r));
                assert(applied(f, self@[i as int], r));
            }
            out.push(r);
            i += 1;
        }
        out
    }

    /// One sweep: removes every entry whose liveness flag is already cleared
    /// and returns their identities; clears the flag of every entry that stays.
    pub fn sweep_and_clear(&mut self) -> (gone: Vec<String>)
        ensures
            final(self)@ == survivors(old(self)@),
            gone.deep_view() == evicted(old(self)@),
            distinct(final(self)@),
    {
        proof {
            use_type_invariant(&*self);
        }
        let ghost before = self@;
        let mut entries = Vec::new();
        std::mem::swap(&mut entries, &mut self.entries);
        let mut kept: Vec<Peer> = Vec::new();
        let mut gone: Vec<String> = Vec::new();
        let mut i: usize = 0;
        proof {
            assert(before.take(0) =~= Seq::<PeerView>::empty());
            lemma_sweep_empty();
            assert(peer_views(kept@) =~= Seq::<PeerView>::empty());
            assert(gone.deep_view() =~= Seq::<Seq<char>>::empty());
        }
        while i < entries.len()
            invariant
                i <= entries@.len(),
                before == peer_views(entries@),
                distinct(before),
                peer_views(kept@) == survivors(before.take(i as int)),
                gone.deep_view() == evicted(before.take(i as int)),
                forall|k: int|
                    0 <= k < kept@.len() ==> exists|j: int|
                        0 <= j < i && #[trigger] kept@[k].identity@ == before[j].identity,
                distinct(peer_views(kept@)),
            decreases entries@.len() - i,
        {
            proof {
                assert(before.take(i + 1) =~= before.take(i as int).push(before[i as int]));
                lemma_sweep_push(before.take(i as int), before[i as int]);
            }
            let ghost kept_before = kept@;
            let ghost gone_before = gone.deep_view();
            if entries[i].alive {
                kept.push(
                    Peer {
                        identity: entries[i].identity.clone(),
                        handle: entries[i].handle,
                        alive: false,
                    },
                );
                proof {
                    assert(peer_views(kept@) =~= peer_views(kept_before).push(
                        cleared(before[i as int]),
                    ));
                    assert forall|a: int, b: int| 0 <= a < b < kept@.len() implies peer_views(
                        kept@,
                    )[a].identity != peer_views(kept@)[b].identity by {
                        if b == kept@.len() - 1 {
                            let j = choose|j: int|
                                0 <= j < i && #[trigger] kept_before[a].identity@
                                    == before[j].identity;
                            assert(before[j].identity != before[i as int].identity);
                        } else {
                            assert(peer_views(kept_before)[a].identity != peer_views(
                                kept_before,
                            )[b].identity);
                        }
                    }
                    assert forall|k: int| 0 <= k < kept@.len() implies exists|j: int|
                        0 <= j < i + 1 && #[trigger] kept@[k].identity@ == before[j].identity by {
                        if k == kept@.len() - 1 {
                            assert(kept@[k].identity@ == before[i as int].identity);
                        } else {
                            let j = choose|j: int|
                                0 <= j < i && #[trigger] kept_before[k].identity@
                                    == before[j].identity;
                            assert(kept@[k].identity@ == before[j].identity);
                        }
                    }
                }
            } else {
                gone.push(entries[i].identity.clone());
                proof {
                    assert(gone.deep_view() =~= gone_before.push(before[i as int].identity));
                }
            }
            i += 1;
        }
        proof {
            assert(before.take(i as int) =~= before);
        }
        self.entries = kept;
        gone
    }
}

} // verus!
