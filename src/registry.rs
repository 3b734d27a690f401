use vstd::prelude::*;
use crate::addr::PeerAddr;
use crate::errors::ServerError;

verus! {

/// The text a peer receives when `origin` sends `text`: `"<origin>: <text>\n"`.
pub open spec fn framed(origin: Seq<char>, text: Seq<char>) -> Seq<char> {
    origin + seq![':', ' '] + text + seq!['\n']
}

/// Builds the line relayed to the other peers when `origin` sends `text`.
pub fn frame_message(origin: &PeerAddr, text: &str) -> (r: String)
    ensures
        r@ == framed(origin@, text@),
{
    let mut s = origin.as_str().to_owned();
    s.append(": ");
    s.append(text);
    s.append("\n");
    proof {
        reveal_strlit(": ");
        reveal_strlit("\n");
        assert(s@ =~= framed(origin@, text@));
    }
    s
}

/// The addresses after inserting `a`: unchanged if `a` is already there,
/// else `a` joins at the end.
pub open spec fn after_insert(addrs: Seq<Seq<char>>, a: Seq<char>) -> Seq<Seq<char>> {
    if addrs.contains(a) {
        addrs
    } else {
        addrs.push(a)
    }
}

/// Whether a registry holding `addrs` has room for one more client.
pub open spec fn has_room(addrs: Seq<Seq<char>>, max_clients: nat) -> bool {
    addrs.len() < max_clients
}

/// The addresses after an admission attempt by `a`.
pub open spec fn after_admit(addrs: Seq<Seq<char>>, a: Seq<char>, max_clients: nat) -> Seq<
    Seq<char>,
> {
    if has_room(addrs, max_clients) {
        after_insert(addrs, a)
    } else {
        addrs
    }
}

/// `targets` lists, in increasing order, exactly the indices of `addrs` whose
/// address differs from `origin`.
pub open spec fn is_target_list(targets: Seq<usize>, addrs: Seq<Seq<char>>, origin: Seq<char>) -> bool {
    &&& forall|k: int| 0 <= k < targets.len() ==> #[trigger] targets[k] < addrs.len()
    &&& forall|k: int| 0 <= k < targets.len() ==> addrs[#[trigger] targets[k] as int] != origin
    &&& forall|i: int| 0 <= i < addrs.len() && addrs[i] != origin ==> targets.contains(i as usize)
    &&& forall|k1: int, k2: int| 0 <= k1 < k2 < targets.len() ==> targets[k1] < targets[k2]
}

/// What each admission attempt comes to when the clients `arrivals` come one
/// after another to a registry holding `addrs`: `true` where one is let in.
pub open spec fn admission_outcomes(
    addrs: Seq<Seq<char>>,
    arrivals: Seq<Seq<char>>,
    max_clients: nat,
) -> Seq<bool>
    decreases arrivals.len(),
{
    if arrivals.len() == 0 {
        Seq::empty()
    } else {
        seq![has_room(addrs, max_clients)] + admission_outcomes(
            after_admit(addrs, arrivals[0], max_clients),
            arrivals.drop_first(),
            max_clients,
        )
    }
}

proof fn lemma_outcomes_from(addrs: Seq<Seq<char>>, arrivals: Seq<Seq<char>>, max_clients: nat)
    requires
        addrs.no_duplicates(),
        arrivals.no_duplicates(),
        addrs.len() <= max_clients,
        arrivals.len() == max_clients - addrs.len() + 1,
        forall|x: Seq<char>| arrivals.contains(x) ==> !addrs.contains(x),
    ensures
        admission_outcomes(addrs, arrivals, max_clients).len() == arrivals.len(),
        forall|k: int|
            0 <= k < max_clients - addrs.len() ==> admission_outcomes(
                addrs,
                arrivals,
                max_clients,
            )[k],
        !admission_outcomes(addrs, arrivals, max_clients)[max_clients - addrs.len()],
    decreases arrivals.len(),
{
    let outs = admission_outcomes(addrs, arrivals, max_clients);
    let rest = arrivals.drop_first();
    assert(arrivals.contains(arrivals[0]));
    if addrs.len() == max_clients {
        if rest.len() > 0 {
            assert(rest.len() == 0);
        }
        assert(admission_outcomes(addrs, rest, max_clients) =~= Seq::<bool>::empty());
        assert(outs =~= seq![false]);
    } else {
        let next = addrs.push(arrivals[0]);
        assert(after_admit(addrs, arrivals[0], max_clients) == next);
        assert(next.no_duplicates()) by {
            assert forall|x: int, y: int| 0 <= x < y < next.len() implies next[x] != next[y] by {
                if y == addrs.len() {
                    assert(addrs.contains(next[x]));
                }
            }
        }
        assert(rest.no_duplicates()) by {
            assert forall|x: int, y: int| 0 <= x < y < rest.len() implies rest[x] != rest[y] by {
                assert(rest[x] == arrivals[x + 1] && rest[y] == arrivals[y + 1]);
            }
        }
        assert forall|x: Seq<char>| rest.contains(x) implies !next.contains(x) by {
            let k = choose|k: int| 0 <= k < rest.len() && rest[k] == x;
            assert(arrivals[k + 1] == x);
            assert(arrivals.contains(x));
            if next.contains(x) {
                let j = choose|j: int| 0 <= j < next.len() && next[j] == x;
                if j < addrs.len() {
                    assert(addrs[j] == x);
                }
            }
        }
        lemma_outcomes_from(next, rest, max_clients);
        let tail = admission_outcomes(next, rest, max_clients);
        assert(outs == seq![true] + tail);
        assert forall|k: int| 0 <= k < max_clients - addrs.len() implies outs[k] by {
            if k > 0 {
                assert(outs[k] == tail[k - 1]);
            }
        }
        assert(outs[max_clients - addrs.len()] == tail[max_clients - next.len()]);
    }
}

/// Capacity is enforced: when `max_clients + 1` distinct clients come one
/// after another to an empty registry with room for `max_clients`, the first
/// `max_clients` are let in and the last one is refused.
pub proof fn lemma_admission_stops_at_capacity(arrivals: Seq<Seq<char>>, max_clients: nat)
    requires
        arrivals.no_duplicates(),
        arrivals.len() == max_clients + 1,
    ensures
        admission_outcomes(Seq::empty(), arrivals, max_clients).len() == max_clients + 1,
        forall|k: int|
            0 <= k < max_clients ==> admission_outcomes(Seq::empty(), arrivals, max_clients)[k],
        !admission_outcomes(Seq::empty(), arrivals, max_clients)[max_clients as int],
{
    lemma_outcomes_from(Seq::empty(), arrivals, max_clients);
}

/// A client that is let in is present in the registry afterwards.
pub proof fn lemma_admitted_is_present(addrs: Seq<Seq<char>>, a: Seq<char>, max_clients: nat)
    requires
        has_room(addrs, max_clients),
    ensures
        after_admit(addrs, a, max_clients).contains(a),
{
    if !addrs.contains(a) {
        assert(addrs.push(a)[addrs.len() as int] == a);
    }
}

/// A departed peer is not written to: once its address is gone from the
/// entries, no broadcast over them, from any origin, targets that address.
pub proof fn lemma_departed_peer_not_targeted(
    before: Seq<Seq<char>>,
    after: Seq<Seq<char>>,
    departed: Seq<char>,
    origin: Seq<char>,
    targets: Seq<usize>,
)
    requires
        forall|x: Seq<char>| #[trigger] after.contains(x) <==> (before.contains(x) && x != departed),
        is_target_list(targets, after, origin),
    ensures
        forall|k: int| 0 <= k < targets.len() ==> after[#[trigger] targets[k] as int] != departed,
{
    assert forall|k: int| 0 <= k < targets.len() implies after[#[trigger] targets[k] as int]
        != departed by {
        assert(after.contains(after[targets[k] as int]));
    }
}

/// Who is currently connected: each peer address with its connection. An
/// address appears at most once; entries keep the order in which they came.
pub struct Registry<C> {
    addrs: Vec<PeerAddr>,
    conns: Vec<C>,
}

/// What one broadcast does: `frame` goes to the connection at each index of
/// `targets`, in that order.
pub struct Broadcast {
    pub targets: Vec<usize>,
    pub frame: String,
}

impl<C> Registry<C> {
    /// The addresses of the entries, in order.
    pub closed spec fn spec_addrs(&self) -> Seq<Seq<char>> {
        self.addrs@.map_values(|a: PeerAddr| a@)
    }

    /// The connections of the entries, in the same order as the addresses.
    pub closed spec fn spec_conns(&self) -> Seq<C> {
        self.conns@
    }

    /// The registry's invariant: one connection per address, no address twice.
    pub open spec fn wf(&self) -> bool {
        &&& self.spec_addrs().len() == self.spec_conns().len()
        &&& self.spec_addrs().no_duplicates()
    }

    /// An empty registry.
    pub fn new() -> (r: Registry<C>)
        ensures
            r.wf(),
            r.spec_addrs() == Seq::<Seq<char>>::empty(),
    {
        let r = Registry { addrs: Vec::new(), conns: Vec::new() };
        assert(r.spec_addrs() =~= Seq::<Seq<char>>::empty());
        r
    }

    /// The number of entries.
    pub fn size(&self) -> (r: usize)
        requires
            self.wf(),
        ensures
            r == self.spec_addrs().len(),
    {
        self.addrs.len()
    }

    /// The index of `a`'s entry, if it has one.
    pub fn position(&self, a: &PeerAddr) -> (r: Option<usize>)
        requires
            self.wf(),
        ensures
            r is None <==> !self.spec_addrs().contains(a@),
            r matches Some(i) ==> i < self.spec_addrs().len() && self.spec_addrs()[i as int] == a@,
    {
        let mut i: usize = 0;
        while i < self.addrs.len()
            invariant
                self.wf(),
                i <= self.addrs@.len(),
                forall|j: int| 0 <= j < i ==> self.spec_addrs()[j] != a@,
            decreases self.addrs@.len() - i,
        {
            if self.addrs[i].same_as(a) {
                assert(self.spec_addrs()[i as int] == a@);
                return Some(i);
            }
            i = i + 1;
        }
        None
    }

    /// Whether `a` has an entry.
    pub fn contains(&self, a: &PeerAddr) -> (r: bool)
        requires
            self.wf(),
        ensures
            r == self.spec_addrs().contains(a@),
    {
        self.position(a).is_some()
    }

    /// Stores `conn` under `addr`. An entry already held for `addr` keeps its
    /// place and has its connection replaced; the old connection is returned.
    pub fn insert(&mut self, addr: PeerAddr, conn: C) -> (r: Option<C>)
        requires
            old(self).wf(),
        ensures
            final(self).wf(),
            final(self).spec_addrs() == after_insert(old(self).spec_addrs(), addr@),
            forall|j: int|
                0 <= j < final(self).spec_addrs().len() ==> #[trigger] final(self).spec_conns()[j]
                    == if final(self).spec_addrs()[j] == addr@ {
                    conn
                } else {
                    old(self).spec_conns()[j]
                },
            r is Some <==> old(self).spec_addrs().contains(addr@),
            r matches Some(c) ==> exists|j: int|
                0 <= j < old(self).spec_addrs().len() && old(self).spec_addrs()[j] == addr@
                    && c == old(self).spec_conns()[j],
    {
        match self.position(&addr) {
            Some(i) => {
                let mut c = conn;
                core::mem::swap(&mut self.conns[i], &mut c);
                Some(c)
            },
            None => {
                let ghost before = self.spec_addrs();
                self.addrs.push(addr);
                self.conns.push(conn);
                assert(self.spec_addrs() =~= before.push(addr@));
                assert(self.spec_addrs().no_duplicates()) by {
                    assert forall|x: int, y: int|
                        0 <= x < y < self.spec_addrs().len() implies self.spec_addrs()[x]
                        != self.spec_addrs()[y] by {
                        if y == before.len() {
                            assert(before[x] == self.spec_addrs()[x]);
                        }
                    }
                }
                None
            },
        }
    }

    /// Admission under the capacity bound: with `max_clients` or more entries
    /// the registry is left as it is and `MaxClientsReached` comes back;
    /// otherwise `conn` is stored under `addr` as `insert` does.
    pub fn admit_client(&mut self, addr: PeerAddr, conn: C, max_clients: usize) -> (r: Result<
        (),
        ServerError,
    >)
        requires
            old(self).wf(),
        ensures
            final(self).wf(),
            r is Ok <==> has_room(old(self).spec_addrs(), max_clients as nat),
            r is Err ==> (r matches Err(ServerError::MaxClientsReached)) && *final(self) == *old(self),
            final(self).spec_addrs() == after_admit(old(self).spec_addrs(), addr@, max_clients as nat),
            r is Ok ==> forall|j: int|
                0 <= j < final(self).spec_addrs().len() ==> #[trigger] final(self).spec_conns()[j]
                    == if final(self).spec_addrs()[j] == addr@ {
                    conn
                } else {
                    old(self).spec_conns()[j]
                },
            old(self).spec_addrs().len() <= max_clients ==> final(self).spec_addrs().len()
                <= max_clients,
    {
        if self.addrs.len() >= max_clients {
            return Err(ServerError::MaxClientsReached);
        }
        let _ = self.insert(addr, conn);
        Ok(())
    }

    /// Drops `a`'s entry and hands back its connection; when `a` has no entry
    /// nothing changes and `None` comes back.
    pub fn remove(&mut self, a: &PeerAddr) -> (r: Option<C>)
        requires
            old(self).wf(),
        ensures
            final(self).wf(),
            r is None <==> !old(self).spec_addrs().contains(a@),
            r is None ==> *final(self) == *old(self),
            r matches Some(c) ==> exists|i: int|
                0 <= i < old(self).spec_addrs().len() && old(self).spec_addrs()[i] == a@ && c
                    == old(self).spec_conns()[i] && final(self).spec_addrs() == old(
                    self,
                ).spec_addrs().remove(i) && final(self).spec_conns() == old(
                    self,
                ).spec_conns().remove(i),
            !final(self).spec_addrs().contains(a@),
            forall|x: Seq<char>|
                #[trigger] final(self).spec_addrs().contains(x) <==> (old(
                    self,
                ).spec_addrs().contains(x) && x != a@),
    {
        match self.position(a) {
            None => None,
            Some(i) => {
                let ghost before = self.spec_addrs();
                self.addrs.remove(i);
                let c = self.conns.remove(i);
                assert(self.spec_addrs() =~= before.remove(i as int));
                assert forall|x: Seq<char>|
                    #[trigger] self.spec_addrs().contains(x) <==> (before.contains(x) && x != a@) by {
                    if before.contains(x) && x != a@ {
                        let k = choose|k: int| 0 <= k < before.len() && before[k] == x;
                        if k < i {
                            assert(self.spec_addrs()[k] == x);
                        } else {
                            assert(k != i);
                            assert(self.spec_addrs()[k - 1] == x);
                        }
                    }
                    if self.spec_addrs().contains(x) {
                        let k = choose|k: int| 0 <= k < self.spec_addrs().len() && self.spec_addrs()[k] == x;
                        if k < i {
                            assert(before[k] == x);
                        } else {
                            assert(before[k + 1] == x);
                        }
                    }
                }
                Some(c)
            },
        }
    }

    /// What relaying `text` from `origin` takes: the framed line, and the
    /// indices of every entry but `origin`'s own. Nothing is sent from here,
    /// and the registry is not changed.
    pub fn broadcast(&self, origin: &PeerAddr, text: &str) -> (r: Broadcast)
        requires
            self.wf(),
        ensures
            is_target_list(r.targets@, self.spec_addrs(), origin@),
            r.frame@ == framed(origin@, text@),
    {
        let mut targets: Vec<usize> = Vec::new();
        let mut i: usize = 0;
        while i < self.addrs.len()
            invariant
                self.wf(),
                i <= self.addrs@.len(),
                forall|k: int| 0 <= k < targets@.len() ==> #[trigger] targets@[k] < i,
                forall|k: int|
                    0 <= k < targets@.len() ==> self.spec_addrs()[#[trigger] targets@[k] as int]
                        != origin@,
                forall|j: int|
                    0 <= j < i && self.spec_addrs()[j] != origin@ ==> targets@.contains(j as usize),
                forall|k1: int, k2: int|
                    0 <= k1 < k2 < targets@.len() ==> targets@[k1] < targets@[k2],
            decreases self.addrs@.len() - i,
        {
            assert(self.spec_addrs()[i as int] == self.addrs@[i as int]@);
            if !self.addrs[i].same_as(origin) {
                let ghost prev = targets@;
                targets.push(i);
                assert(targets@[targets@.len() - 1] == i);
                assert forall|j: int|
                    0 <= j < i && self.spec_addrs()[j] != origin@ implies targets@.contains(
                    j as usize,
                ) by {
                    let k = choose|k: int| 0 <= k < prev.len() && prev[k] == j as usize;
                    assert(targets@[k] == j as usize);
                }
            }
            i = i + 1;
        }
        Broadcast { targets, frame: frame_message(origin, text) }
    }

    /// The address of the entry at `i`.
    pub fn address(&self, i: usize) -> (r: &PeerAddr)
        requires
            self.wf(),
            i < self.spec_addrs().len(),
        ensures
            r@ == self.spec_addrs()[i as int],
    {
        &self.addrs[i]
    }

    /// The connection of the entry at `i`, to send on it. The entries'
    /// addresses stay as they are.
    pub fn connection_mut(&mut self, i: usize) -> (r: &mut C)
        requires
            old(self).wf(),
            i < old(self).spec_addrs().len(),
        ensures
            *r == old(self).spec_conns()[i as int],
            final(self).spec_addrs() == old(self).spec_addrs(),
            final(self).spec_conns() == old(self).spec_conns().update(i as int, *final(r)),
            final(self).wf(),
    {
        &mut self.conns[i]
    }
}

} // verus!
