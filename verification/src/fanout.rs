//! Networking fan-out server model: tracks each peer's connection
//! lifecycle and emits the events handed to the application. For every
//! peer it emits at most one `Connected`, data payloads only while the
//! peer is connected, and at most one terminal `Disconnected`; the ghost
//! event history carries the proof of that ordering.

use vstd::prelude::*;

use crate::events::{PeerAddr, RemoteMessage};

verus! {

/// The kind of a remote message, with its payload forgotten.
#[derive(Clone, Copy, PartialEq, Eq, Structural, Debug)]
pub enum MsgKind {
    Connected,
    Data,
    Disconnected,
}

/// Which part of its lifecycle a known peer is in.
#[derive(Clone, Copy, PartialEq, Eq, Structural, Debug)]
pub enum PeerPhase {
    Connected,
    Disconnected,
}

/// Why binding the listening endpoint failed.
#[derive(Clone, Copy, PartialEq, Eq, Structural, Debug)]
pub enum BindError {
    PortUnavailable,
}

/// Position `i` of the history holds an event of kind `k` for peer `a`.
pub open spec fn is_evt(h: Seq<(PeerAddr, MsgKind)>, i: int, a: PeerAddr, k: MsgKind) -> bool {
    h[i].0 == a && h[i].1 == k
}

/// Some position of the history holds an event of kind `k` for peer `a`.
pub open spec fn has_kind(h: Seq<(PeerAddr, MsgKind)>, a: PeerAddr, k: MsgKind) -> bool {
    exists|i: int| 0 <= i < h.len() && #[trigger] is_evt(h, i, a, k)
}

/// Peer `a` has at most one event of kind `k` in the history.
pub open spec fn at_most_one(h: Seq<(PeerAddr, MsgKind)>, a: PeerAddr, k: MsgKind) -> bool {
    forall|i: int, j: int|
        0 <= i < j < h.len() && #[trigger] is_evt(h, i, a, k) && #[trigger] is_evt(h, j, a, k)
            ==> false
}

/// Every data event for peer `a` is preceded by its `Connected` event.
pub open spec fn connected_before_data(h: Seq<(PeerAddr, MsgKind)>, a: PeerAddr) -> bool {
    forall|j: int|
        0 <= j < h.len() && #[trigger] is_evt(h, j, a, MsgKind::Data) ==> exists|i: int|
            0 <= i < j && #[trigger] is_evt(h, i, a, MsgKind::Connected)
}

/// No data event for peer `a` follows its `Disconnected` event.
pub open spec fn data_before_disconnect(h: Seq<(PeerAddr, MsgKind)>, a: PeerAddr) -> bool {
    forall|i: int, j: int|
        0 <= i < h.len() && 0 <= j < h.len() && #[trigger] is_evt(h, i, a, MsgKind::Disconnected)
            && #[trigger] is_evt(h, j, a, MsgKind::Data) ==> j < i
}

/// The `Connected` event of peer `a` precedes its `Disconnected` event.
pub open spec fn connect_before_disconnect(h: Seq<(PeerAddr, MsgKind)>, a: PeerAddr) -> bool {
    forall|i: int, j: int|
        0 <= i < h.len() && 0 <= j < h.len() && #[trigger] is_evt(h, i, a, MsgKind::Disconnected)
            && #[trigger] is_evt(h, j, a, MsgKind::Connected) ==> j < i
}

/// The per-peer ordering discipline of the fan-out contract.
pub open spec fn per_peer_ordered(h: Seq<(PeerAddr, MsgKind)>, a: PeerAddr) -> bool {
    &&& at_most_one(h, a, MsgKind::Connected)
    &&& at_most_one(h, a, MsgKind::Disconnected)
    &&& connected_before_data(h, a)
    &&& data_before_disconnect(h, a)
    &&& connect_before_disconnect(h, a)
}

/// Every peer's slice of the history is ordered.
pub open spec fn valid_history(h: Seq<(PeerAddr, MsgKind)>) -> bool {
    forall|a: PeerAddr| #[trigger] per_peer_ordered(h, a)
}

/// The peer table and the emitted history agree about peer `a`.
pub open spec fn table_consistent(
    s: Seq<(PeerAddr, PeerPhase)>,
    h: Seq<(PeerAddr, MsgKind)>,
    a: PeerAddr,
) -> bool {
    match phase_in(s, a) {
        None => {
            &&& !has_kind(h, a, MsgKind::Connected)
            &&& !has_kind(h, a, MsgKind::Data)
            &&& !has_kind(h, a, MsgKind::Disconnected)
        },
        Some(PeerPhase::Connected) => {
            &&& has_kind(h, a, MsgKind::Connected)
            &&& !has_kind(h, a, MsgKind::Disconnected)
        },
        Some(PeerPhase::Disconnected) => {
            &&& has_kind(h, a, MsgKind::Connected)
            &&& has_kind(h, a, MsgKind::Disconnected)
        },
    }
}

/// The lifecycle phase recorded for `a` in a peer table, if any.
pub open spec fn phase_in(s: Seq<(PeerAddr, PeerPhase)>, a: PeerAddr) -> Option<PeerPhase>
    decreases s.len(),
{
    if s.len() == 0 {
        None
    } else if s.last().0 == a {
        Some(s.last().1)
    } else {
        phase_in(s.drop_last(), a)
    }
}

/// No two entries of the peer table share an address.
pub open spec fn distinct_keys(s: Seq<(PeerAddr, PeerPhase)>) -> bool {
    forall|i: int, j: int|
        0 <= i < j < s.len() ==> (#[trigger] s[i]).0 != (#[trigger] s[j]).0
}

proof fn lemma_is_evt_push(h: Seq<(PeerAddr, MsgKind)>, e: (PeerAddr, MsgKind))
    ensures
        forall|i: int, a: PeerAddr, k: MsgKind|
            0 <= i < h.len() ==> #[trigger] is_evt(h.push(e), i, a, k) == is_evt(h, i, a, k),
        forall|i: int, a: PeerAddr, k: MsgKind|
            0 <= i < h.len() ==> #[trigger] is_evt(h, i, a, k) == is_evt(h.push(e), i, a, k),
        forall|a: PeerAddr, k: MsgKind|
            #[trigger] is_evt(h.push(e), h.len() as int, a, k) == (e.0 == a && e.1 == k),
{
    assert forall|i: int, a: PeerAddr, k: MsgKind| 0 <= i < h.len() implies #[trigger] is_evt(
        h.push(e),
        i,
        a,
        k,
    ) == is_evt(h, i, a, k) by {
        assert(h.push(e)[i] == h[i]);
    }
}

proof fn lemma_has_kind_push(h: Seq<(PeerAddr, MsgKind)>, e: (PeerAddr, MsgKind), b: PeerAddr, k: MsgKind)
    ensures
        has_kind(h.push(e), b, k) == (has_kind(h, b, k) || (e.0 == b && e.1 == k)),
{
    lemma_is_evt_push(h, e);
    let h2 = h.push(e);
    if has_kind(h, b, k) {
        let i0 = choose|i: int| 0 <= i < h.len() && #[trigger] is_evt(h, i, b, k);
        assert(is_evt(h2, i0, b, k));
    }
    if e.0 == b && e.1 == k {
        assert(is_evt(h2, h.len() as int, b, k));
    }
    if has_kind(h2, b, k) {
        let i0 = choose|i: int| 0 <= i < h2.len() && #[trigger] is_evt(h2, i, b, k);
        if i0 < h.len() {
            assert(is_evt(h, i0, b, k));
        } else {
            assert(e.0 == b && e.1 == k);
        }
    }
}

/// Appending an event of another peer keeps `b`'s slice ordered.
proof fn lemma_ordered_push_other(h: Seq<(PeerAddr, MsgKind)>, e: (PeerAddr, MsgKind), b: PeerAddr)
    requires
        per_peer_ordered(h, b),
        e.0 != b,
    ensures
        per_peer_ordered(h.push(e), b),
{
    lemma_is_evt_push(h, e);
    let h2 = h.push(e);
    let n = h.len() as int;
    assert forall|j: int|
        0 <= j < h2.len() && #[trigger] is_evt(h2, j, b, MsgKind::Data) implies exists|i: int|
        0 <= i < j && #[trigger] is_evt(h2, i, b, MsgKind::Connected) by {
        assert(j < n);
        assert(is_evt(h, j, b, MsgKind::Data));
        let i0 = choose|i: int| 0 <= i < j && #[trigger] is_evt(h, i, b, MsgKind::Connected);
        assert(is_evt(h2, i0, b, MsgKind::Connected));
    }
}

/// A first `Connected` for a peer with no recorded events keeps its slice
/// ordered.
proof fn lemma_ordered_push_fresh_connect(h: Seq<(PeerAddr, MsgKind)>, a: PeerAddr)
    requires
        !has_kind(h, a, MsgKind::Connected),
        !has_kind(h, a, MsgKind::Data),
        !has_kind(h, a, MsgKind::Disconnected),
    ensures
        per_peer_ordered(h.push((a, MsgKind::Connected)), a),
{
    lemma_is_evt_push(h, (a, MsgKind::Connected));
    let h2 = h.push((a, MsgKind::Connected));
    let n = h.len() as int;
    assert forall|i: int, k: MsgKind|
        0 <= i < n && #[trigger] is_evt(h2, i, a, k) implies false by {
        assert(is_evt(h, i, a, k));
    }
}

/// A data event for a connected, not yet disconnected peer keeps its slice
/// ordered.
proof fn lemma_ordered_push_data(h: Seq<(PeerAddr, MsgKind)>, a: PeerAddr)
    requires
        per_peer_ordered(h, a),
        has_kind(h, a, MsgKind::Connected),
        !has_kind(h, a, MsgKind::Disconnected),
    ensures
        per_peer_ordered(h.push((a, MsgKind::Data)), a),
{
    lemma_is_evt_push(h, (a, MsgKind::Data));
    let h2 = h.push((a, MsgKind::Data));
    let n = h.len() as int;
    assert forall|i: int|
        0 <= i < h2.len() && #[trigger] is_evt(h2, i, a, MsgKind::Disconnected) implies false by {
        assert(i < n);
        assert(is_evt(h, i, a, MsgKind::Disconnected));
    }
    assert forall|j: int|
        0 <= j < h2.len() && #[trigger] is_evt(h2, j, a, MsgKind::Data) implies exists|i: int|
        0 <= i < j && #[trigger] is_evt(h2, i, a, MsgKind::Connected) by {
        if j < n {
            assert(is_evt(h, j, a, MsgKind::Data));
            let i0 = choose|i: int| 0 <= i < j && #[trigger] is_evt(h, i, a, MsgKind::Connected);
            assert(is_evt(h2, i0, a, MsgKind::Connected));
        } else {
            let i0 = choose|i: int| 0 <= i < h.len() && #[trigger] is_evt(h, i, a, MsgKind::Connected);
            assert(is_evt(h2, i0, a, MsgKind::Connected));
        }
    }
}

/// The terminal `Disconnected` for a connected, not yet disconnected peer
/// keeps its slice ordered.
proof fn lemma_ordered_push_disconnect(h: Seq<(PeerAddr, MsgKind)>, a: PeerAddr)
    requires
        per_peer_ordered(h, a),
        !has_kind(h, a, MsgKind::Disconnected),
    ensures
        per_peer_ordered(h.push((a, MsgKind::Disconnected)), a),
{
    lemma_is_evt_push(h, (a, MsgKind::Disconnected));
    let h2 = h.push((a, MsgKind::Disconnected));
    let n = h.len() as int;
    assert forall|i: int|
        0 <= i < n && #[trigger] is_evt(h2, i, a, MsgKind::Disconnected) implies false by {
        assert(is_evt(h, i, a, MsgKind::Disconnected));
    }
    assert forall|j: int|
        0 <= j < h2.len() && #[trigger] is_evt(h2, j, a, MsgKind::Data) implies exists|i: int|
        0 <= i < j && #[trigger] is_evt(h2, i, a, MsgKind::Connected) by {
        assert(j < n);
        assert(is_evt(h, j, a, MsgKind::Data));
        let i0 = choose|i: int| 0 <= i < j && #[trigger] is_evt(h, i, a, MsgKind::Connected);
        assert(is_evt(h2, i0, a, MsgKind::Connected));
    }
}

proof fn lemma_phase_in_push(s: Seq<(PeerAddr, PeerPhase)>, e: (PeerAddr, PeerPhase))
    ensures
        phase_in(s.push(e), e.0) == Some(e.1),
        forall|b: PeerAddr|
            b != e.0 ==> #[trigger] phase_in(s.push(e), b) == phase_in(s, b),
{
    assert(s.push(e).drop_last() =~= s);
    assert(s.push(e).last() == e);
}

/// An address the table does not resolve appears in no entry.
proof fn lemma_phase_in_absent(s: Seq<(PeerAddr, PeerPhase)>, a: PeerAddr)
    requires
        phase_in(s, a) is None,
    ensures
        forall|i: int| 0 <= i < s.len() ==> (#[trigger] s[i]).0 != a,
    decreases s.len(),
{
    if s.len() > 0 {
        assert(s.drop_last() =~= s.subrange(0, s.len() - 1));
        lemma_phase_in_absent(s.drop_last(), a);
        assert forall|i: int| 0 <= i < s.len() implies (#[trigger] s[i]).0 != a by {
            if i < s.len() - 1 {
                assert(s.drop_last()[i] == s[i]);
            } else {
                assert(s[i] == s.last());
            }
        }
    }
}

/// Re-phasing one entry changes only that address's resolution.
proof fn lemma_phase_in_update(s: Seq<(PeerAddr, PeerPhase)>, idx: int, p: PeerPhase)
    requires
        distinct_keys(s),
        0 <= idx < s.len(),
    ensures
        phase_in(s.update(idx, (s[idx].0, p)), s[idx].0) == Some(p),
        forall|b: PeerAddr|
            b != s[idx].0 ==> #[trigger] phase_in(s.update(idx, (s[idx].0, p)), b) == phase_in(
                s,
                b,
            ),
    decreases s.len(),
{
    let key = s[idx].0;
    let s2 = s.update(idx, (key, p));
    if idx == s.len() - 1 {
        assert(s2.last() == (key, p));
        assert(s2.drop_last() =~= s.drop_last());
        assert forall|b: PeerAddr|
            b != key implies #[trigger] phase_in(s2, b) == phase_in(s, b) by {
            assert(phase_in(s2, b) == phase_in(s2.drop_last(), b));
            assert(phase_in(s, b) == phase_in(s.drop_last(), b));
        }
    } else {
        let sd = s.drop_last();
        assert(s2.last() == s.last());
        assert(s2.drop_last() =~= sd.update(idx, (key, p)));
        assert forall|i: int, j: int|
            0 <= i < j < sd.len() implies (#[trigger] sd[i]).0 != (#[trigger] sd[j]).0 by {
            assert(sd[i] == s[i]);
            assert(sd[j] == s[j]);
        }
        assert(sd[idx] == s[idx]);
        lemma_phase_in_update(sd, idx, p);
        assert(s.last() == s[s.len() - 1]);
        assert(s.last().0 != key);
        assert(phase_in(s2, key) == phase_in(s2.drop_last(), key));
        assert(phase_in(s2.drop_last(), key) == phase_in(sd.update(idx, (key, p)), key));
        assert(phase_in(s2, key) == Some(p));
        assert forall|b: PeerAddr|
            b != key implies #[trigger] phase_in(s2, b) == phase_in(s, b) by {
            if s.last().0 == b {
                assert(phase_in(s2, b) == Some(s2.last().1));
                assert(phase_in(s, b) == Some(s.last().1));
            } else {
                assert(phase_in(s2, b) == phase_in(s2.drop_last(), b));
                assert(phase_in(s2.drop_last(), b) == phase_in(sd.update(idx, (key, p)), b));
                assert(phase_in(sd.update(idx, (key, p)), b) == phase_in(sd, b));
                assert(phase_in(s, b) == phase_in(sd, b));
            }
        }
    }
}

/// The fan-out server: the bound port, whether `start` has been called,
/// the lifecycle phase of every peer seen so far, and the ghost history of
/// all events it has emitted.
pub struct FanoutServer {
    pub port: u16,
    pub started: bool,
    pub peers: Vec<(PeerAddr, PeerPhase)>,
    pub history: Ghost<Seq<(PeerAddr, MsgKind)>>,
}

impl FanoutServer {
    /// The lifecycle phase recorded for peer `a`, if it was ever seen.
    pub open spec fn phase_of(self, a: PeerAddr) -> Option<PeerPhase> {
        phase_in(self.peers@, a)
    }

    /// The server invariant: distinct peer entries, an ordered history,
    /// and agreement between table and history.
    pub open spec fn wf(self) -> bool {
        &&& distinct_keys(self.peers@)
        &&& valid_history(self.history@)
        &&& forall|a: PeerAddr| #[trigger] table_consistent(self.peers@, self.history@, a)
    }

    /// Binds the listening endpoint. `transport_bound` reports whether the
    /// transport layer could take the port; when it could not, the result
    /// is the startup-fatal bind error.
    pub fn new_public_server(port: u16, transport_bound: bool) -> (r: Result<FanoutServer, BindError>)
        ensures
            r is Ok <==> transport_bound,
            r matches Ok(s) ==> {
                &&& s.port == port
                &&& !s.started
                &&& s.peers@.len() == 0
                &&& s.history@.len() == 0
                &&& s.wf()
            },
            r is Err ==> r == Err::<FanoutServer, BindError>(BindError::PortUnavailable),
    {
        if !transport_bound {
            return Err(BindError::PortUnavailable);
        }
        let s = FanoutServer {
            port,
            started: false,
            peers: Vec::new(),
            history: Ghost(Seq::empty()),
        };
        proof {
            assert forall|a: PeerAddr| #[trigger] per_peer_ordered(s.history@, a) by {}
            assert forall|a: PeerAddr| #[trigger] table_consistent(s.peers@, s.history@, a) by {
                assert(phase_in(s.peers@, a) is None);
            }
        }
        Ok(s)
    }

    /// Begins accepting connections; acceptance and relay then happen on
    /// the transport's own scheduling, not synchronously in this call.
    pub fn start(&mut self)
        requires
            old(self).wf(),
        ensures
            final(self).wf(),
            final(self).started,
            final(self).port == old(self).port,
            final(self).peers@ == old(self).peers@,
            final(self).history@ == old(self).history@,
    {
        self.started = true;
        proof {
            assert forall|a: PeerAddr| #[trigger] table_consistent(
                self.peers@,
                self.history@,
                a,
            ) by {
                assert(table_consistent(old(self).peers@, old(self).history@, a));
            }
        }
    }

    /// Looks the peer up in the table.
    fn find_peer(&self, addr: PeerAddr) -> (r: Option<usize>)
        ensures
            match r {
                Some(i) => {
                    &&& i < self.peers@.len()
                    &&& self.peers@[i as int].0 == addr
                    &&& phase_in(self.peers@, addr) == Some(self.peers@[i as int].1)
                },
                None => phase_in(self.peers@, addr) is None,
            },
    {
        let ghost s = self.peers@;
        let n = self.peers.len();
        let mut i: usize = n;
        proof {
            assert(s.take(n as int) =~= s);
        }
        while i > 0
            invariant
                i <= n,
                n == s.len(),
                s == self.peers@,
                phase_in(s, addr) == phase_in(s.take(i as int), addr),
            decreases i,
        {
            i = i - 1;
            let entry = self.peers[i];
            proof {
                assert(s.take(i as int + 1).len() == i + 1);
                assert(s.take(i as int + 1).last() == s[i as int]);
            }
            if entry.0 == addr {
                return Some(i);
            }
            proof {
                assert(s.take(i as int + 1).drop_last() =~= s.take(i as int));
            }
        }
        proof {
            assert(s.take(0).len() == 0);
        }
        None
    }

    /// A peer connected at the transport. Emits the peer's one `Connected`
    /// event the first time the peer is seen while the server accepts;
    /// anything else is suppressed.
    pub fn peer_connected(&mut self, addr: PeerAddr) -> (r: Option<RemoteMessage>)
        requires
            old(self).wf(),
        ensures
            final(self).wf(),
            final(self).port == old(self).port,
            final(self).started == old(self).started,
            (old(self).started && old(self).phase_of(addr) is None) ==> {
                &&& r == Some(RemoteMessage::Connected)
                &&& final(self).history@ == old(self).history@.push((addr, MsgKind::Connected))
                &&& final(self).phase_of(addr) == Some(PeerPhase::Connected)
                &&& forall|b: PeerAddr|
                    b != addr ==> #[trigger] final(self).phase_of(b) == old(self).phase_of(b)
            },
            !(old(self).started && old(self).phase_of(addr) is None) ==> {
                &&& r is None
                &&& final(self).history@ == old(self).history@
                &&& final(self).peers@ == old(self).peers@
            },
    {
        if !self.started {
            return None;
        }
        match self.find_peer(addr) {
            Some(_) => None,
            None => {
                proof {
                    lemma_phase_in_absent(self.peers@, addr);
                }
                let ghost s0 = self.peers@;
                let ghost h0 = self.history@;
                self.peers.push((addr, PeerPhase::Connected));
                self.history = Ghost(self.history@.push((addr, MsgKind::Connected)));
                proof {
                    let s1 = self.peers@;
                    let h1 = self.history@;
                    lemma_phase_in_push(s0, (addr, PeerPhase::Connected));
                    assert forall|i: int, j: int|
                        0 <= i < j < s1.len() implies (#[trigger] s1[i]).0 != (
                    #[trigger] s1[j]).0 by {
                        if j < s0.len() as int {
                            assert(s1[i] == s0[i]);
                            assert(s1[j] == s0[j]);
                        } else {
                            assert(s1[i] == s0[i]);
                            assert(s1[j] == (addr, PeerPhase::Connected));
                        }
                    }
                    assert(table_consistent(s0, h0, addr));
                    assert forall|b: PeerAddr| #[trigger] per_peer_ordered(h1, b) by {
                        assert(per_peer_ordered(h0, b));
                        if b == addr {
                            lemma_ordered_push_fresh_connect(h0, addr);
                        } else {
                            lemma_ordered_push_other(h0, (addr, MsgKind::Connected), b);
                        }
                    }
                    assert forall|b: PeerAddr| #[trigger] table_consistent(s1, h1, b) by {
                        lemma_has_kind_push(h0, (addr, MsgKind::Connected), b, MsgKind::Connected);
                        lemma_has_kind_push(h0, (addr, MsgKind::Connected), b, MsgKind::Data);
                        lemma_has_kind_push(h0, (addr, MsgKind::Connected), b, MsgKind::Disconnected);
                        assert(table_consistent(s0, h0, b));
                    }
                }
                Some(RemoteMessage::Connected)
            },
        }
    }

    /// A payload arrived from a peer. Emits a `Data` event only while the
    /// peer is connected and the server accepts; anything else is
    /// suppressed.
    pub fn peer_data(&mut self, addr: PeerAddr, payload: Vec<u8>) -> (r: Option<RemoteMessage>)
        requires
            old(self).wf(),
        ensures
            final(self).wf(),
            final(self).port == old(self).port,
            final(self).started == old(self).started,
            final(self).peers@ == old(self).peers@,
            (old(self).started && old(self).phase_of(addr) == Some(PeerPhase::Connected)) ==> {
                &&& r == Some(RemoteMessage::Data(payload))
                &&& final(self).history@ == old(self).history@.push((addr, MsgKind::Data))
            },
            !(old(self).started && old(self).phase_of(addr) == Some(PeerPhase::Connected)) ==> {
                &&& r is None
                &&& final(self).history@ == old(self).history@
            },
    {
        if !self.started {
            return None;
        }
        match self.find_peer(addr) {
            None => None,
            Some(i) => {
                let phase = self.peers[i].1;
                if !matches!(phase, PeerPhase::Connected) {
                    return None;
                }
                let ghost s0 = self.peers@;
                let ghost h0 = self.history@;
                self.history = Ghost(self.history@.push((addr, MsgKind::Data)));
                proof {
                    let s1 = self.peers@;
                    let h1 = self.history@;
                    assert(table_consistent(s0, h0, addr));
                    assert forall|b: PeerAddr| #[trigger] per_peer_ordered(h1, b) by {
                        assert(per_peer_ordered(h0, b));
                        if b == addr {
                            lemma_ordered_push_data(h0, addr);
                        } else {
                            lemma_ordered_push_other(h0, (addr, MsgKind::Data), b);
                        }
                    }
                    assert forall|b: PeerAddr| #[trigger] table_consistent(s1, h1, b) by {
                        lemma_has_kind_push(h0, (addr, MsgKind::Data), b, MsgKind::Connected);
                        lemma_has_kind_push(h0, (addr, MsgKind::Data), b, MsgKind::Data);
                        lemma_has_kind_push(h0, (addr, MsgKind::Data), b, MsgKind::Disconnected);
                        assert(table_consistent(s0, h0, b));
                    }
                }
                Some(RemoteMessage::Data(payload))
            },
        }
    }

    /// A peer's transport closed. Emits the peer's one terminal
    /// `Disconnected` event if it was connected; anything else is
    /// suppressed.
    pub fn peer_disconnected(&mut self, addr: PeerAddr) -> (r: Option<RemoteMessage>)
        requires
            old(self).wf(),
        ensures
            final(self).wf(),
            final(self).port == old(self).port,
            final(self).started == old(self).started,
            (old(self).started && old(self).phase_of(addr) == Some(PeerPhase::Connected)) ==> {
                &&& r == Some(RemoteMessage::Disconnected)
                &&& final(self).history@ == old(self).history@.push((addr, MsgKind::Disconnected))
                &&& final(self).phase_of(addr) == Some(PeerPhase::Disconnected)
                &&& forall|b: PeerAddr|
                    b != addr ==> #[trigger] final(self).phase_of(b) == old(self).phase_of(b)
            },
            !(old(self).started && old(self).phase_of(addr) == Some(PeerPhase::Connected)) ==> {
                &&& r is None
                &&& final(self).history@ == old(self).history@
                &&& final(self).peers@ == old(self).peers@
            },
    {
        if !self.started {
            return None;
        }
        match self.find_peer(addr) {
            None => None,
            Some(i) => {
                let phase = self.peers[i].1;
                if !matches!(phase, PeerPhase::Connected) {
                    return None;
                }
                let ghost s0 = self.peers@;
                let ghost h0 = self.history@;
                self.peers.set(i, (addr, PeerPhase::Disconnected));
                self.history = Ghost(self.history@.push((addr, MsgKind::Disconnected)));
                proof {
                    let s1 = self.peers@;
                    let h1 = self.history@;
                    assert(s1 =~= s0.update(i as int, (s0[i as int].0, PeerPhase::Disconnected)));
                    lemma_phase_in_update(s0, i as int, PeerPhase::Disconnected);
                    assert forall|ii: int, jj: int|
                        0 <= ii < jj < s1.len() implies (#[trigger] s1[ii]).0 != (
                    #[trigger] s1[jj]).0 by {
                        assert(s1[ii].0 == s0[ii].0);
                        assert(s1[jj].0 == s0[jj].0);
                    }
                    assert(table_consistent(s0, h0, addr));
                    assert forall|b: PeerAddr| #[trigger] per_peer_ordered(h1, b) by {
                        assert(per_peer_ordered(h0, b));
                        if b == addr {
                            lemma_ordered_push_disconnect(h0, addr);
                        } else {
                            lemma_ordered_push_other(h0, (addr, MsgKind::Disconnected), b);
                        }
                    }
                    assert forall|b: PeerAddr| #[trigger] table_consistent(s1, h1, b) by {
                        lemma_has_kind_push(h0, (addr, MsgKind::Disconnected), b, MsgKind::Connected);
                        lemma_has_kind_push(h0, (addr, MsgKind::Disconnected), b, MsgKind::Data);
                        lemma_has_kind_push(h0, (addr, MsgKind::Disconnected), b, MsgKind::Disconnected);
                        assert(table_consistent(s0, h0, b));
                    }
                }
                Some(RemoteMessage::Disconnected)
            },
        }
    }
}

/// Law: in every reachable server state, each peer's slice of the emitted
/// history obeys the fan-out contract: `Connected` at most once and
/// strictly before any `Data` and before the `Disconnected`;
/// `Disconnected` at most once and strictly after all `Data`; and a
/// `Connected` event was emitted exactly for the peers the server knows.
pub proof fn lemma_peer_event_ordering(s: FanoutServer, a: PeerAddr)
    requires
        s.wf(),
    ensures
        at_most_one(s.history@, a, MsgKind::Connected),
        at_most_one(s.history@, a, MsgKind::Disconnected),
        connected_before_data(s.history@, a),
        data_before_disconnect(s.history@, a),
        connect_before_disconnect(s.history@, a),
        has_kind(s.history@, a, MsgKind::Connected) <==> s.phase_of(a) is Some,
        has_kind(s.history@, a, MsgKind::Disconnected) <==> s.phase_of(a) == Some(
            PeerPhase::Disconnected,
        ),
{
    assert(per_peer_ordered(s.history@, a));
    assert(table_consistent(s.peers@, s.history@, a));
}

} // verus!
