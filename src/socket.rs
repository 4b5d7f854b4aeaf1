//! The UDP side of the bridge: where serial bytes go, and what incoming
//! datagrams do to the serial stream and to the peer registry.
use vstd::prelude::*;
use crate::addr::{PeerAddr, AddressingMode, spec_mode_for, resolve_mode};
use crate::registry::{PeerRegistry, spec_fresh, spec_keeps_most_recent, is_idle, capacity_eviction_keeps_all_within_bound};

verus! {

/// A datagram and the peer it comes from or goes to.
#[derive(Clone, Debug)]
pub struct Datagram {
    pub peer: PeerAddr,
    pub payload: Vec<u8>,
}

/// How the registry is kept small.
#[derive(Clone, Copy, Debug, PartialEq, Eq, Structural)]
pub struct PeerPolicy {
    /// The most peers tracked after a write.
    pub max_peers: usize,
    /// Whether idle peers are evicted before each write.
    pub idle_eviction: bool,
    /// How long a peer may stay silent before it counts as idle.
    pub max_age: u64,
}

/// The UDP endpoint of the bridge, with the peers it has heard from.
pub struct Socket {
    mode: AddressingMode,
    bind: PeerAddr,
    registry: PeerRegistry,
    policy: PeerPolicy,
}

/// The bytes of all payloads, in order.
pub open spec fn spec_joined(ds: Seq<Datagram>) -> Seq<u8>
    decreases ds.len(),
{
    if ds.len() == 0 {
        Seq::empty()
    } else {
        spec_joined(ds.drop_last()) + ds.last().payload@
    }
}

/// Whether some datagram is empty.
pub open spec fn spec_has_empty(ds: Seq<Datagram>) -> bool {
    exists|i: int| 0 <= i < ds.len() && ds[i].payload@.len() == 0
}

/// The registry after the senders of the non-empty datagrams were heard
/// from at `now`, in order.
pub open spec fn spec_recorded(m: Map<PeerAddr, u64>, ds: Seq<Datagram>, now: u64) -> Map<
    PeerAddr,
    u64,
>
    decreases ds.len(),
{
    if ds.len() == 0 {
        m
    } else {
        let before = spec_recorded(m, ds.drop_last(), now);
        if ds.last().payload@.len() == 0 {
            before
        } else {
            before.insert(ds.last().peer, now)
        }
    }
}

/// The registry before the capacity policy applies to a write at `now`.
pub open spec fn spec_after_idle(m: Map<PeerAddr, u64>, policy: PeerPolicy, now: u64) -> Map<
    PeerAddr,
    u64,
> {
    if policy.idle_eviction {
        spec_fresh(m, now, policy.max_age)
    } else {
        m
    }
}

/// What a write of `data` at `now` does: the same socket comes back, and
/// every datagram carries `data`. In client mode there is one, to the remote
/// address, and the registry is left alone. In server mode idle peers are
/// evicted first (when the policy says so), then all but the `max_peers`
/// most recent, and every remaining peer gets one datagram.
pub open spec fn spec_write(pre: Socket, post: Socket, data: Seq<u8>, now: u64, r: Seq<Datagram>) -> bool {
    &&& post.wf()
    &&& post.mode() == pre.mode()
    &&& post.bind_address_spec() == pre.bind_address_spec()
    &&& post.policy() == pre.policy()
    &&& forall|i: int| 0 <= i < r.len() ==> (#[trigger] r[i]).payload@ == data
    &&& match pre.mode() {
        AddressingMode::Client { remote } => {
            &&& r.len() == 1
            &&& r[0].peer == remote
            &&& post.peers_view() == pre.peers_view()
        },
        AddressingMode::Server => {
            &&& spec_keeps_most_recent(
                spec_after_idle(pre.peers_view(), pre.policy(), now),
                post.peers_view(),
                pre.policy().max_peers as nat,
            )
            &&& spec_destinations(r).no_duplicates()
            &&& spec_destinations(r).to_set() == post.peers_view().dom()
        },
    }
}

/// What taking in the drained datagrams `ds` at `now` does: the same
/// socket comes back, in server mode with the senders of the non-empty
/// datagrams recorded, in client mode with the registry untouched;
/// `bytes` is every payload in order, and `calibrate` says whether some
/// datagram was empty.
pub open spec fn spec_read(pre: Socket, post: Socket, ds: Seq<Datagram>, now: u64, bytes: Seq<u8>, calibrate: bool) -> bool {
    &&& post.wf()
    &&& post.mode() == pre.mode()
    &&& post.bind_address_spec() == pre.bind_address_spec()
    &&& post.policy() == pre.policy()
    &&& bytes == spec_joined(ds)
    &&& calibrate == spec_has_empty(ds)
    &&& post.peers_view() == if pre.mode() is Server {
        spec_recorded(pre.peers_view(), ds, now)
    } else {
        pre.peers_view()
    }
}

/// The peers that the datagrams go to, in order.
pub open spec fn spec_destinations(r: Seq<Datagram>) -> Seq<PeerAddr> {
    r.map_values(|d: Datagram| d.peer)
}

/// The local address bound in client mode: every interface, the given port.
pub open spec fn spec_client_bind(listen_port: u16) -> PeerAddr {
    PeerAddr { ipv6: false, ip: 0, port: listen_port, scope_id: 0 }
}

/// A socket for the configured UDP address. A loopback or unspecified
/// address is bound as given (server mode); any other is the one remote
/// peer, and the socket binds `listen_port` on every interface (client
/// mode).
pub fn new(address: PeerAddr, listen_port: u16, policy: PeerPolicy) -> (r: Socket)
    ensures
        r.wf(),
        r.mode() == spec_mode_for(address),
        r.bind_address_spec() == if spec_mode_for(address) is Server {
            address
        } else {
            spec_client_bind(listen_port)
        },
        r.policy() == policy,
        r.peers_view() == Map::<PeerAddr, u64>::empty(),
{
    let mode = resolve_mode(address);
    let bind = match mode {
        AddressingMode::Server => address,
        AddressingMode::Client { .. } => PeerAddr { ipv6: false, ip: 0, port: listen_port, scope_id: 0 },
    };
    Socket { mode, bind, registry: PeerRegistry::new(), policy }
}

impl Socket {
    pub open spec fn wf(&self) -> bool {
        self.peers_view().dom().finite()
    }

    pub closed spec fn mode(&self) -> AddressingMode {
        self.mode
    }

    pub closed spec fn bind_address_spec(&self) -> PeerAddr {
        self.bind
    }

    pub closed spec fn policy(&self) -> PeerPolicy {
        self.policy
    }

    /// The tracked peers with their last-seen times.
    pub closed spec fn peers_view(&self) -> Map<PeerAddr, u64> {
        self.registry@
    }

    /// The local address to bind.
    pub fn bind_address(&self) -> (r: PeerAddr)
        ensures
            r == self.bind_address_spec(),
    {
        self.bind
    }

    pub fn addressing_mode(&self) -> (r: AddressingMode)
        ensures
            r == self.mode(),
    {
        self.mode
    }

    /// Number of tracked peers.
    pub fn peer_count(&self) -> (r: usize)
        ensures
            r == self.peers_view().len(),
    {
        self.registry.len()
    }

    /// The datagrams that carry `data` out. In client mode: one, to the
    /// remote address, and the registry is left alone. In server mode: idle
    /// peers are evicted first (when the policy says so), then all but the
    /// `max_peers` most recent, and every remaining peer gets one.
    pub fn write(&mut self, data: &[u8], now: u64) -> (r: Vec<Datagram>)
        requires
            old(self).wf(),
        ensures
            spec_write(*old(self), *final(self), data@, now, r@),
    {
        match self.mode {
            AddressingMode::Client { remote } => {
                let mut out: Vec<Datagram> = Vec::new();
                out.push(Datagram { peer: remote, payload: copy_bytes(data) });
                out
            },
            AddressingMode::Server => {
                if self.policy.idle_eviction {
                    self.registry.evict_idle(now, self.policy.max_age);
                }
                self.registry.evict_by_capacity(self.policy.max_peers);
                let peers = self.registry.peers();
                let mut out: Vec<Datagram> = Vec::new();
                let mut i: usize = 0;
                while i < peers.len()
                    invariant
                        i <= peers@.len(),
                        out@.len() == i,
                        forall|j: int|
                            0 <= j < i ==> (#[trigger] out@[j]).peer == peers@[j]
                                && out@[j].payload@ == data@,
                    decreases peers@.len() - i,
                {
                    out.push(Datagram { peer: peers[i], payload: copy_bytes(data) });
                    i = i + 1;
                }
                assert(spec_destinations(out@) =~= peers@);
                out
            },
        }
    }

    /// Takes in the datagrams drained from the socket, in arrival order.
    /// Returns the bytes for the serial line, every non-empty payload in
    /// order, and whether an empty datagram asked for a line-rate
    /// calibration. In server mode the sender of each non-empty datagram is
    /// recorded as heard from at `now`; an empty one forwards nothing and
    /// records nothing. In client mode the registry is not used.
    pub fn read(&mut self, datagrams: &Vec<Datagram>, now: u64) -> (r: (Vec<u8>, bool))
        requires
            old(self).wf(),
        ensures
            spec_read(*old(self), *final(self), datagrams@, now, r.0@, r.1),
    {
        let ghost start = self.registry@;
        let mut data: Vec<u8> = Vec::new();
        let mut empty_seen = false;
        let mut i: usize = 0;
        while i < datagrams.len()
            invariant
                self.wf(),
                self.mode == old(self).mode,
                self.bind == old(self).bind,
                self.policy == old(self).policy,
                i <= datagrams@.len(),
                data@ == spec_joined(datagrams@.subrange(0, i as int)),
                empty_seen == spec_has_empty(datagrams@.subrange(0, i as int)),
                self.registry@ == if self.mode is Server {
                    spec_recorded(start, datagrams@.subrange(0, i as int), now)
                } else {
                    start
                },
            decreases datagrams@.len() - i,
        {
            let ghost prefix = datagrams@.subrange(0, i as int);
            let ghost next = datagrams@.subrange(0, i + 1);
            assert(next.drop_last() =~= prefix);
            let d = &datagrams[i];
            if d.payload.len() == 0 {
                empty_seen = true;
            } else if matches!(self.mode, AddressingMode::Server) {
                self.registry.record_activity(d.peer, now);
            }
            append_bytes(&mut data, &d.payload);
            proof {
                if spec_has_empty(next) && !spec_has_empty(prefix) {
                    let j = choose|j: int| 0 <= j < next.len() && next[j].payload@.len() == 0;
                    assert(j == i);
                }
                if spec_has_empty(prefix) {
                    let j = choose|j: int| 0 <= j < prefix.len() && prefix[j].payload@.len() == 0;
                    assert(next[j] == prefix[j]);
                }
                if d.payload@.len() == 0 {
                    assert(next[i as int] == *d);
                }
            }
            i = i + 1;
        }
        assert(datagrams@.subrange(0, datagrams@.len() as int) =~= datagrams@);
        (data, empty_seen)
    }
}

/// A copy of the bytes.
fn copy_bytes(data: &[u8]) -> (r: Vec<u8>)
    ensures
        r@ == data@,
{
    let mut out: Vec<u8> = Vec::new();
    let mut i: usize = 0;
    while i < data.len()
        invariant
            i <= data@.len(),
            out@ == data@.subrange(0, i as int),
        decreases data@.len() - i,
    {
        out.push(data[i]);
        i = i + 1;
    }
    assert(out@ =~= data@);
    out
}

/// Appends the bytes of `more` to `data`.
fn append_bytes(data: &mut Vec<u8>, more: &Vec<u8>)
    ensures
        final(data)@ == old(data)@ + more@,
{
    let ghost start = data@;
    let mut i: usize = 0;
    while i < more.len()
        invariant
            i <= more@.len(),
            data@ == start + more@.subrange(0, i as int),
        decreases more@.len() - i,
    {
        data.push(more[i]);
        i = i + 1;
        assert(data@ =~= start + more@.subrange(0, i as int));
    }
    assert(more@.subrange(0, more@.len() as int) =~= more@);
}

/// Fan-out completeness: in server mode, when no tracked peer is idle and
/// no more than `max_peers` are tracked, a write sends `data` unchanged to
/// every tracked peer, once each, and to nobody else.
pub proof fn fan_out_reaches_every_peer(pre: Socket, post: Socket, data: Seq<u8>, now: u64, r: Seq<Datagram>)
    requires
        pre.wf(),
        pre.mode() is Server,
        spec_write(pre, post, data, now, r),
        pre.policy().idle_eviction ==> forall|k: PeerAddr|
            #[trigger] pre.peers_view().contains_key(k) ==> !is_idle(pre.peers_view()[k], now, pre.policy().max_age),
        pre.peers_view().len() <= pre.policy().max_peers,
    ensures
        post.peers_view() == pre.peers_view(),
        spec_destinations(r).no_duplicates(),
        spec_destinations(r).to_set() == pre.peers_view().dom(),
        forall|i: int| 0 <= i < r.len() ==> (#[trigger] r[i]).payload@ == data,
{
    let m = pre.peers_view();
    let after = spec_after_idle(m, pre.policy(), now);
    assert(after == m) by {
        if pre.policy().idle_eviction {
            assert(spec_fresh(m, now, pre.policy().max_age) =~= m);
        }
    }
    capacity_eviction_keeps_all_within_bound(m, post.peers_view(), pre.policy().max_peers as nat);
}

proof fn lemma_joined_append(a: Seq<Datagram>, b: Seq<Datagram>)
    ensures
        spec_joined(a + b) == spec_joined(a) + spec_joined(b),
    decreases b.len(),
{
    if b.len() == 0 {
        assert(a + b =~= a);
        assert(spec_joined(a) + spec_joined(b) =~= spec_joined(a));
    } else {
        lemma_joined_append(a, b.drop_last());
        assert((a + b).drop_last() =~= a + b.drop_last());
        assert((a + b).last() == b.last());
        assert(spec_joined(a) + spec_joined(b) =~= spec_joined(a) + spec_joined(b.drop_last())
            + b.last().payload@);
    }
}

/// Fan-in order: the bytes for the serial line hold each datagram's
/// payload whole, after the payloads of the datagrams that arrived before
/// it and before those of the datagrams that arrived after it.
pub proof fn fan_in_keeps_arrival_order(ds: Seq<Datagram>, i: int)
    requires
        0 <= i < ds.len(),
    ensures
        spec_joined(ds) == spec_joined(ds.take(i)) + ds[i].payload@ + spec_joined(ds.skip(i + 1)),
{
    let single = seq![ds[i]];
    assert(ds =~= ds.take(i) + single + ds.skip(i + 1));
    lemma_joined_append(ds.take(i) + single, ds.skip(i + 1));
    lemma_joined_append(ds.take(i), single);
    assert(single.drop_last() =~= Seq::<Datagram>::empty());
    assert(spec_joined(single.drop_last()) == Seq::<u8>::empty());
    assert(spec_joined(single) =~= ds[i].payload@);
}

/// An empty datagram asks for a calibration and adds nothing: no bytes for
/// the serial line and no peer in the registry.
pub proof fn empty_datagram_is_never_forwarded(ds: Seq<Datagram>, d: Datagram, m: Map<PeerAddr, u64>, now: u64)
    requires
        d.payload@.len() == 0,
    ensures
        spec_joined(ds.push(d)) == spec_joined(ds),
        spec_has_empty(ds.push(d)),
        spec_recorded(m, ds.push(d), now) == spec_recorded(m, ds, now),
{
    assert(ds.push(d).drop_last() =~= ds);
    assert(spec_joined(ds) + d.payload@ =~= spec_joined(ds));
    assert(ds.push(d)[ds.len() as int] == d);
}

/// Client-mode bypass: in client mode a write goes to the remote address
/// alone, whatever peers the registry holds, and leaves the registry as it
/// was.
pub proof fn client_mode_writes_only_to_remote(pre: Socket, post: Socket, data: Seq<u8>, now: u64, r: Seq<Datagram>)
    requires
        pre.mode() is Client,
        spec_write(pre, post, data, now, r),
    ensures
        spec_destinations(r) == seq![pre.mode()->remote],
        r[0].payload@ == data,
        post.peers_view() == pre.peers_view(),
{
    assert(spec_destinations(r) =~= seq![pre.mode()->remote]);
}

/// In server mode a write leaves at most `max_peers` peers tracked.
pub proof fn write_bounds_the_registry(pre: Socket, post: Socket, data: Seq<u8>, now: u64, r: Seq<Datagram>)
    requires
        pre.mode() is Server,
        spec_write(pre, post, data, now, r),
    ensures
        post.peers_view().len() <= pre.policy().max_peers,
{
}

/// In client mode the registry is not used: taking in datagrams records no
/// sender, and a write leaves it as it was, so a client socket's registry
/// stays as `new` made it, empty.
pub proof fn client_mode_never_records_peers(
    pre: Socket,
    mid: Socket,
    post: Socket,
    ds: Seq<Datagram>,
    now: u64,
    bytes: Seq<u8>,
    calibrate: bool,
    data: Seq<u8>,
    later: u64,
    r: Seq<Datagram>,
)
    requires
        pre.mode() is Client,
        spec_read(pre, mid, ds, now, bytes, calibrate),
        spec_write(mid, post, data, later, r),
    ensures
        mid.peers_view() == pre.peers_view(),
        post.peers_view() == pre.peers_view(),
{
}

} // verus!
