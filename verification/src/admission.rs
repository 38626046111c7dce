//! Who may open a connection: limits on connections that have not logged in,
//! a connection rate per address, and bans after repeated login failures.
use std::collections::VecDeque;

use vstd::prelude::*;

use crate::config::AppConfig;
use crate::net;
use crate::net::{IpAddr, IpTable};
use crate::time;
use crate::time::{Duration, Instant};

verus! {

/// The limits that connections are held to.
#[derive(Clone, Copy, Debug, PartialEq, Eq, Structural)]
pub struct AdmissionConfig {
    pub max_unauth_connections_global: usize,
    pub max_unauth_connections_per_ip: usize,
    pub max_unauth_connections_per_subnet: usize,
    pub new_connections_per_minute_per_ip: usize,
    pub new_connections_burst_per_ip: usize,
    pub auth_failure_ban_threshold: usize,
    pub auth_failure_ban_window: Duration,
    pub auth_failure_ban_duration: Duration,
}

impl AdmissionConfig {
    pub fn from_app_config(config: &AppConfig) -> (r: Self)
        ensures
            r == (AdmissionConfig {
                max_unauth_connections_global: config.max_unauth_connections_global,
                max_unauth_connections_per_ip: config.max_unauth_connections_per_ip,
                max_unauth_connections_per_subnet: config.max_unauth_connections_per_subnet,
                new_connections_per_minute_per_ip: config.new_connections_per_minute_per_ip,
                new_connections_burst_per_ip: config.new_connections_burst_per_ip,
                auth_failure_ban_threshold: config.auth_failure_ban_threshold,
                auth_failure_ban_window: config.auth_failure_ban_window,
                auth_failure_ban_duration: config.auth_failure_ban_duration,
            }),
    {
        AdmissionConfig {
            max_unauth_connections_global: config.max_unauth_connections_global,
            max_unauth_connections_per_ip: config.max_unauth_connections_per_ip,
            max_unauth_connections_per_subnet: config.max_unauth_connections_per_subnet,
            new_connections_per_minute_per_ip: config.new_connections_per_minute_per_ip,
            new_connections_burst_per_ip: config.new_connections_burst_per_ip,
            auth_failure_ban_threshold: config.auth_failure_ban_threshold,
            auth_failure_ban_window: config.auth_failure_ban_window,
            auth_failure_ban_duration: config.auth_failure_ban_duration,
        }
    }
}

/// Why a connection is turned away.
#[derive(Clone, Copy, Debug, PartialEq, Eq, Structural)]
pub enum RejectReason {
    TooManyUnauthenticatedConnections,
    TooManyUnauthenticatedConnectionsForIp,
    TooManyUnauthenticatedConnectionsForSubnet,
    ConnectionRateLimited,
    TemporarilyBanned,
}

impl RejectReason {
    pub open spec fn text(self) -> Seq<char> {
        match self {
            RejectReason::TooManyUnauthenticatedConnections =>
                "global unauthenticated connection limit reached"@,
            RejectReason::TooManyUnauthenticatedConnectionsForIp =>
                "per-IP unauthenticated connection limit reached"@,
            RejectReason::TooManyUnauthenticatedConnectionsForSubnet =>
                "per-subnet unauthenticated connection limit reached"@,
            RejectReason::ConnectionRateLimited => "connection rate limited"@,
            RejectReason::TemporarilyBanned =>
                "peer temporarily banned after repeated authentication failures"@,
        }
    }

    /// The reason in words.
    pub fn label(self) -> (r: &'static str)
        ensures
            r@ == self.text(),
    {
        match self {
            RejectReason::TooManyUnauthenticatedConnections =>
                "global unauthenticated connection limit reached",
            RejectReason::TooManyUnauthenticatedConnectionsForIp =>
                "per-IP unauthenticated connection limit reached",
            RejectReason::TooManyUnauthenticatedConnectionsForSubnet =>
                "per-subnet unauthenticated connection limit reached",
            RejectReason::ConnectionRateLimited => "connection rate limited",
            RejectReason::TemporarilyBanned =>
                "peer temporarily banned after repeated authentication failures",
        }
    }
}

/// A peer's connection tokens. Their number is fractional: it is kept as the
/// bits that the last `TokenReply` gave, and is the whole burst before that.
#[derive(Clone, Copy, Debug, PartialEq, Eq, Structural)]
pub struct TokenBucket {
    pub level: Option<u64>,
    pub last_refill: Instant,
}

/// The question whether a bucket has a token to spare.
#[derive(Clone, Copy, Debug, PartialEq, Eq, Structural)]
pub struct TokenRequest {
    /// The bits of the tokens that are left; none for a full bucket.
    pub level: Option<u64>,
    /// The time since the bucket was last filled up, in nanoseconds.
    pub elapsed_nanos: u64,
    pub limit_per_minute: usize,
    pub burst_limit: usize,
}

/// The answer to a `TokenRequest`.
#[derive(Clone, Copy, Debug, PartialEq, Eq, Structural)]
pub struct TokenReply {
    /// The bits of the tokens that are left now.
    pub level: u64,
    /// Whether a token was taken.
    pub granted: bool,
}

/// How long the controller waits, in nanoseconds, before it looks again for
/// peers that can be forgotten.
pub const SWEEP_INTERVAL_NANOS: u64 = 60_000_000_000;

/// Whether a bucket holds its whole burst at `now`: no token has been taken out
/// of it, or enough time has passed for all of them to come back.
pub open spec fn bucket_full(bucket: TokenBucket, config: AdmissionConfig, now: Instant) -> bool {
    bucket.level is None || time::elapsed(bucket.last_refill, now)
        * config.new_connections_per_minute_per_ip >= config.new_connections_burst_per_ip
        * 60_000_000_000
}

/// What is known of a peer.
pub struct PeerView {
    pub connections: usize,
    pub failures: Seq<Instant>,
    /// The clock reading at which the ban ends.
    pub banned_until: Option<u128>,
    pub bucket: TokenBucket,
}

/// What the controller keeps count of.
pub struct AdmissionView {
    pub config: AdmissionConfig,
    /// The connections that have not logged in.
    pub total: usize,
    /// The same by the first address of their subnet.
    pub per_subnet: Map<IpAddr, usize>,
    pub per_peer: Map<IpAddr, PeerView>,
    /// When the peers that can be forgotten were last looked for.
    pub last_sweep: Instant,
}

/// The failures without the oldest ones, as far as those lie more than
/// `window` back.
pub open spec fn recent(failures: Seq<Instant>, window: Duration, now: Instant) -> Seq<Instant>
    decreases failures.len(),
{
    if failures.len() > 0 && failures[0].nanos + window.total() < now.nanos {
        recent(failures.skip(1), window, now)
    } else {
        failures
    }
}

impl PeerView {
    pub open spec fn fresh(now: Instant) -> PeerView {
        PeerView {
            connections: 0,
            failures: Seq::empty(),
            banned_until: None,
            bucket: TokenBucket { level: None, last_refill: now },
        }
    }

    pub open spec fn is_banned(self, now: Instant) -> bool {
        self.banned_until matches Some(until) && until > now.nanos
    }

    /// The peer without a ban that has ended and failures that are too old.
    pub open spec fn refreshed(self, window: Duration, now: Instant) -> PeerView {
        PeerView {
            banned_until: if self.is_banned(now) {
                self.banned_until
            } else {
                None
            },
            failures: recent(self.failures, window, now),
            ..self
        }
    }

    /// Whether nothing about the peer is worth keeping.
    pub open spec fn is_idle(self, config: AdmissionConfig, now: Instant) -> bool {
        self.connections == 0 && self.banned_until is None && self.failures.len() == 0
            && bucket_full(self.bucket, config, now)
    }
}

impl AdmissionView {
    /// How many connections of `ip` have not logged in.
    pub open spec fn connections_of(self, ip: IpAddr) -> nat {
        if self.per_peer.contains_key(ip) {
            self.per_peer[ip].connections as nat
        } else {
            0
        }
    }

    /// How many connections out of the subnet of `ip` have not logged in.
    pub open spec fn neighbours_of(self, ip: IpAddr) -> nat {
        let addr = net::subnet_of(ip).addr;
        if self.per_subnet.contains_key(addr) {
            self.per_subnet[addr] as nat
        } else {
            0
        }
    }

    /// The state before the first connection.
    pub open spec fn initial(config: AdmissionConfig) -> AdmissionView {
        AdmissionView {
            config,
            total: 0,
            per_subnet: Map::empty(),
            per_peer: Map::empty(),
            last_sweep: Instant { nanos: 0 },
        }
    }

    /// What counts of `ip` at `now`: what is known of it without what is out of
    /// date; nothing if it can be forgotten.
    pub open spec fn seen(self, ip: IpAddr, now: Instant) -> Option<PeerView> {
        if self.per_peer.contains_key(ip) {
            let peer = self.per_peer[ip].refreshed(self.config.auth_failure_ban_window, now);
            if peer.is_idle(self.config, now) {
                None
            } else {
                Some(peer)
            }
        } else {
            None
        }
    }

    pub open spec fn sweep_due(self, now: Instant) -> bool {
        time::elapsed(self.last_sweep, now) >= SWEEP_INTERVAL_NANOS
    }

    /// The state without what is out of date about any peer.
    pub open spec fn swept(self, now: Instant) -> AdmissionView {
        AdmissionView {
            per_peer: Map::new(
                |ip: IpAddr| self.seen(ip, now) is Some,
                |ip: IpAddr| self.seen(ip, now)->Some_0,
            ),
            last_sweep: now,
            ..self
        }
    }

    /// The state without what is out of date about `ip`, or about any peer if
    /// it is time to look at all of them.
    pub open spec fn cleaned(self, ip: IpAddr, now: Instant) -> AdmissionView {
        if self.sweep_due(now) {
            self.swept(now)
        } else {
            AdmissionView {
                per_peer: match self.seen(ip, now) {
                    Some(peer) => self.per_peer.insert(ip, peer),
                    None => self.per_peer.remove(ip),
                },
                ..self
            }
        }
    }

    /// The cleaned state, with an entry for `ip` in any case.
    pub open spec fn met(self, ip: IpAddr, now: Instant) -> AdmissionView {
        let s = self.cleaned(ip, now);
        if s.per_peer.contains_key(ip) {
            s
        } else {
            AdmissionView { per_peer: s.per_peer.insert(ip, PeerView::fresh(now)), ..s }
        }
    }

    /// The state with another entry for `ip`.
    pub open spec fn with_peer(self, ip: IpAddr, peer: PeerView) -> AdmissionView {
        AdmissionView { per_peer: self.per_peer.insert(ip, peer), ..self }
    }

    /// The question that decides on the connection rate of `ip`.
    pub open spec fn token_request(self, ip: IpAddr, now: Instant) -> TokenRequest {
        let bucket = self.per_peer[ip].bucket;
        TokenRequest {
            level: bucket.level,
            elapsed_nanos: time::elapsed(bucket.last_refill, now) as u64,
            limit_per_minute: self.config.new_connections_per_minute_per_ip,
            burst_limit: self.config.new_connections_burst_per_ip,
        }
    }

    /// The state once the question on the connection rate has been answered.
    pub open spec fn tokens_taken(self, ip: IpAddr, now: Instant, reply: TokenReply) -> AdmissionView {
        self.with_peer(
            ip,
            PeerView {
                bucket: TokenBucket { level: Some(reply.level), last_refill: now },
                ..self.per_peer[ip]
            },
        )
    }

    /// The state with one more connection of `ip`.
    pub open spec fn counted(self, ip: IpAddr) -> AdmissionView {
        let addr = net::subnet_of(ip).addr;
        let peer = self.per_peer[ip];
        AdmissionView {
            config: self.config,
            total: (self.total + 1) as usize,
            per_subnet: self.per_subnet.insert(addr, (self.neighbours_of(ip) + 1) as usize),
            per_peer: self.per_peer.insert(
                ip,
                PeerView { connections: (peer.connections + 1) as usize, ..peer },
            ),
            last_sweep: self.last_sweep,
        }
    }

    /// What comes of a connection of `ip`, given the answer on its rate.
    pub open spec fn settled(self, ip: IpAddr, now: Instant, reply: TokenReply) -> (
        AdmissionView,
        Option<RejectReason>,
    ) {
        let s = self.tokens_taken(ip, now, reply);
        if !reply.granted {
            (s, Some(RejectReason::ConnectionRateLimited))
        } else if s.total >= s.config.max_unauth_connections_global {
            (s, Some(RejectReason::TooManyUnauthenticatedConnections))
        } else if s.connections_of(ip) >= s.config.max_unauth_connections_per_ip {
            (s, Some(RejectReason::TooManyUnauthenticatedConnectionsForIp))
        } else if s.neighbours_of(ip) >= s.config.max_unauth_connections_per_subnet {
            (s, Some(RejectReason::TooManyUnauthenticatedConnectionsForSubnet))
        } else {
            (s.counted(ip), None)
        }
    }

    /// What comes of a failed login from `ip`: the state after it, and whether
    /// the peer is banned for it.
    pub open spec fn failed(self, ip: IpAddr, now: Instant) -> (AdmissionView, bool) {
        let s = self.met(ip, now);
        let peer = s.per_peer[ip];
        let failures = recent(peer.failures, s.config.auth_failure_ban_window, now).push(now);
        if failures.len() >= s.config.auth_failure_ban_threshold {
            let until = (now.nanos + s.config.auth_failure_ban_duration.total()) as u128;
            (
                s.with_peer(
                    ip,
                    PeerView { failures: Seq::empty(), banned_until: Some(until), ..peer },
                ),
                true,
            )
        } else {
            (s.with_peer(ip, PeerView { failures, ..peer }), false)
        }
    }

    /// The state with one connection of `ip` less.
    pub open spec fn uncounted(self, ip: IpAddr) -> AdmissionView {
        let addr = net::subnet_of(ip).addr;
        let peer = self.per_peer[ip];
        AdmissionView {
            config: self.config,
            total: if self.total > 0 {
                (self.total - 1) as usize
            } else {
                0
            },
            per_subnet: if self.neighbours_of(ip) > 1 {
                self.per_subnet.insert(addr, (self.neighbours_of(ip) - 1) as usize)
            } else {
                self.per_subnet.remove(addr)
            },
            per_peer: if self.connections_of(ip) > 0 {
                self.per_peer.insert(
                    ip,
                    PeerView { connections: (peer.connections - 1) as usize, ..peer },
                )
            } else {
                self.per_peer
            },
            last_sweep: self.last_sweep,
        }
    }

    /// What comes of the end of a connection of `ip`, or of its login.
    pub open spec fn released(self, ip: IpAddr, now: Instant) -> AdmissionView {
        self.uncounted(ip).cleaned(ip, now)
    }
}

/// What is kept of a peer.
struct PeerState {
    unauthenticated_connections: usize,
    auth_failures: VecDeque<Instant>,
    banned_until: Option<u128>,
    connection_bucket: TokenBucket,
}

impl View for PeerState {
    type V = PeerView;

    closed spec fn view(&self) -> PeerView {
        PeerView {
            connections: self.unauthenticated_connections,
            failures: self.auth_failures@,
            banned_until: self.banned_until,
            bucket: self.connection_bucket,
        }
    }
}

/// Drops the oldest failures as far as they lie more than `window` back.
fn prune_before(failures: &mut VecDeque<Instant>, window: Duration, now: Instant)
    ensures
        final(failures)@ == recent(old(failures)@, window, now),
{
    while failures.len() > 0 && failures[0].after(window) < now.nanos as u128
        invariant
            recent(failures@, window, now) == recent(old(failures)@, window, now),
        decreases failures@.len(),
    {
        let ghost before = failures@;
        failures.pop_front();
        assert(failures@ =~= before.skip(1));
    }
}

impl PeerState {
    fn new(now: Instant) -> (r: Self)
        ensures
            r@ == PeerView::fresh(now),
    {
        let r = PeerState {
            unauthenticated_connections: 0,
            auth_failures: VecDeque::new(),
            banned_until: None,
            connection_bucket: TokenBucket { level: None, last_refill: now },
        };
        assert(r@.failures =~= Seq::<Instant>::empty());
        r
    }

    fn is_banned(&self, now: Instant) -> (r: bool)
        ensures
            r == self@.is_banned(now),
    {
        match self.banned_until {
            Some(until) => until > now.nanos as u128,
            None => false,
        }
    }

    fn refresh(&mut self, window: Duration, now: Instant)
        ensures
            final(self)@ == old(self)@.refreshed(window, now),
    {
        if !self.is_banned(now) {
            self.banned_until = None;
        }
        prune_before(&mut self.auth_failures, window, now);
    }

    fn has_full_bucket(&self, config: AdmissionConfig, now: Instant) -> (r: bool)
        ensures
            r == bucket_full(self@.bucket, config, now),
    {
        if self.connection_bucket.level.is_none() {
            return true;
        }
        let waited: u64 = now.nanos_since(self.connection_bucket.last_refill);
        let rate: usize = config.new_connections_per_minute_per_ip;
        assert(0 <= waited * rate <= 0xffff_ffff_ffff_ffff * 0xffff_ffff_ffff_ffff)
            by (nonlinear_arith)
            requires
                0 <= waited <= 0xffff_ffff_ffff_ffff,
                0 <= rate <= 0xffff_ffff_ffff_ffff,
        ;
        (waited as u128) * (rate as u128) >= (config.new_connections_burst_per_ip as u128)
            * 60_000_000_000u128
    }

    fn is_idle(&self, config: AdmissionConfig, now: Instant) -> (r: bool)
        ensures
            r == self@.is_idle(config, now),
    {
        self.unauthenticated_connections == 0 && self.banned_until.is_none()
            && self.auth_failures.len() == 0 && self.has_full_bucket(config, now)
    }
}

/// A connection that counts as not logged in. It is given back to the
/// controller once it ends or logs in, which can happen but once.
#[derive(Debug)]
pub struct AdmissionGuard {
    peer_ip: IpAddr,
}

impl AdmissionGuard {
    pub closed spec fn peer(self) -> IpAddr {
        self.peer_ip
    }

    pub fn peer_ip(&self) -> (r: IpAddr)
        ensures
            r == self.peer(),
    {
        self.peer_ip
    }

    /// The connection has logged in and no longer counts.
    pub fn mark_authenticated(self, controller: &mut AdmissionController, now: Instant)
        ensures
            final(controller)@ == old(controller)@.released(self.peer(), now),
    {
        controller.release(self, now);
    }
}

/// Decides who may open a connection.
pub struct AdmissionController {
    config: AdmissionConfig,
    unauthenticated_connections: usize,
    per_subnet: IpTable<usize>,
    per_peer: IpTable<PeerState>,
    last_sweep: Instant,
}

impl View for AdmissionController {
    type V = AdmissionView;

    closed spec fn view(&self) -> AdmissionView {
        AdmissionView {
            config: self.config,
            total: self.unauthenticated_connections,
            per_subnet: self.per_subnet@,
            per_peer: self.per_peer@,
            last_sweep: self.last_sweep,
        }
    }
}

/// Whether `peers` is what was known `before`, with the entries of the addresses
/// in `done` brought up to date.
spec fn renewed_so_far(
    before: AdmissionView,
    peers: Map<IpAddr, PeerView>,
    done: Seq<IpAddr>,
    now: Instant,
) -> bool {
    forall|ip: IpAddr|
        #![trigger peers.contains_key(ip)]
        if done.contains(ip) {
            (match before.seen(ip, now) {
                Some(peer) => peers.contains_key(ip) && peers[ip] == peer,
                None => !peers.contains_key(ip),
            })
        } else {
            peers.contains_key(ip) == before.per_peer.contains_key(ip) && (peers.contains_key(ip)
                ==> peers[ip] == before.per_peer[ip])
        }
}

proof fn lemma_one_more_renewed(
    before: AdmissionView,
    peers: Map<IpAddr, PeerView>,
    after: Map<IpAddr, PeerView>,
    done: Seq<IpAddr>,
    ip: IpAddr,
    now: Instant,
)
    requires
        renewed_so_far(before, peers, done, now),
        after == match before.seen(ip, now) {
            Some(peer) => peers.insert(ip, peer),
            None => peers.remove(ip),
        },
    ensures
        renewed_so_far(before, after, done.push(ip), now),
{
    let next = done.push(ip);
    assert(next[done.len() as int] == ip);
    assert forall|other: IpAddr|
        #![trigger after.contains_key(other)]
        if next.contains(other) {
            (match before.seen(other, now) {
                Some(peer) => after.contains_key(other) && after[other] == peer,
                None => !after.contains_key(other),
            })
        } else {
            after.contains_key(other) == before.per_peer.contains_key(other) && (
            after.contains_key(other) ==> after[other] == before.per_peer[other])
        } by {
        if other != ip {
            assert(peers.contains_key(other) == after.contains_key(other));
            if done.contains(other) {
                assert(next[done.index_of(other)] == other);
            } else if next.contains(other) {
                let k = next.index_of(other);
                assert(done[k] == other);
            }
        }
    }
}

/// The reason of a refusal, if `r` is one.
pub open spec fn refusal<T>(r: Result<T, RejectReason>) -> Option<RejectReason> {
    match r {
        Ok(_) => None,
        Err(reason) => Some(reason),
    }
}

impl AdmissionController {
    pub fn new(config: AdmissionConfig) -> (r: Self)
        ensures
            r@ == AdmissionView::initial(config),
    {
        AdmissionController {
            config,
            unauthenticated_connections: 0,
            per_subnet: IpTable::new(),
            per_peer: IpTable::new(),
            last_sweep: Instant { nanos: 0 },
        }
    }

    /// Brings what is known of a peer up to date, or forgets it.
    fn renew_peer(&mut self, peer_ip: IpAddr, now: Instant)
        ensures
            final(self)@ == (AdmissionView {
                per_peer: match old(self)@.seen(peer_ip, now) {
                    Some(peer) => old(self)@.per_peer.insert(peer_ip, peer),
                    None => old(self)@.per_peer.remove(peer_ip),
                },
                ..old(self)@
            }),
    {
        let ghost before = self@;
        match self.per_peer.remove(peer_ip) {
            Some(mut peer) => {
                peer.refresh(self.config.auth_failure_ban_window, now);
                let ghost p = peer@;
                if !peer.is_idle(self.config, now) {
                    self.per_peer.insert(peer_ip, peer);
                    assert(self@.per_peer =~= before.per_peer.insert(peer_ip, p));
                }
            },
            None => {},
        }
    }

    /// Brings what is known of every peer up to date, and forgets the idle ones.
    fn sweep_peers(&mut self, now: Instant)
        ensures
            final(self)@ == old(self)@.swept(now),
    {
        let ghost before = self@;
        let addresses = self.per_peer.addresses();
        for i in 0..addresses.len()
            invariant
                addresses@.no_duplicates(),
                self@ == (AdmissionView { per_peer: self@.per_peer, ..before }),
                renewed_so_far(before, self@.per_peer, addresses@.take(i as int), now),
        {
            let ghost done = addresses@.take(i as int);
            let ip = addresses[i];
            assert(!done.contains(ip));
            assert(self@.per_peer.contains_key(ip) == before.per_peer.contains_key(ip));
            assert(self@.seen(ip, now) == before.seen(ip, now));
            assert(addresses@.take(i + 1) =~= done.push(ip));
            let ghost mid = self@;
            self.renew_peer(ip, now);
            proof {
                lemma_one_more_renewed(before, mid.per_peer, self@.per_peer, done, ip, now);
            }
        }
        self.last_sweep = now;
        assert(addresses@.take(addresses@.len() as int) =~= addresses@);
        assert(self@.per_peer =~= before.swept(now).per_peer) by {
            assert forall|ip: IpAddr| #[trigger] self@.per_peer.contains_key(ip) == (before.seen(
                ip,
                now,
            ) is Some) by {
                assert(addresses@.contains(ip) <==> before.per_peer.contains_key(ip));
            }
        }
    }

    fn cleanup_peer(&mut self, peer_ip: IpAddr, now: Instant)
        ensures
            final(self)@ == old(self)@.cleaned(peer_ip, now),
    {
        if now.nanos_since(self.last_sweep) >= SWEEP_INTERVAL_NANOS {
            self.sweep_peers(now);
        } else {
            self.renew_peer(peer_ip, now);
        }
    }

    /// Takes the entry of a peer out of the cleaned table, or a fresh one.
    fn take_peer(&mut self, peer_ip: IpAddr, now: Instant) -> (r: PeerState)
        ensures
            old(self)@.met(peer_ip, now) == final(self)@.with_peer(peer_ip, r@),
    {
        self.cleanup_peer(peer_ip, now);
        let ghost s = self@;
        let peer = match self.per_peer.remove(peer_ip) {
            Some(peer) => peer,
            None => PeerState::new(now),
        };
        assert(self@.per_peer.insert(peer_ip, peer@) =~= old(self)@.met(peer_ip, now).per_peer);
        peer
    }

    /// Opens a request for a connection: unless the peer is banned, the
    /// question on its connection rate comes back.
    pub fn begin_acquire(&mut self, peer_ip: IpAddr, now: Instant) -> (r: Result<
        TokenRequest,
        RejectReason,
    >)
        ensures
            final(self)@ == old(self)@.met(peer_ip, now),
            r == (if final(self)@.per_peer[peer_ip].is_banned(now) {
                Err::<TokenRequest, RejectReason>(RejectReason::TemporarilyBanned)
            } else {
                Ok::<TokenRequest, RejectReason>(final(self)@.token_request(peer_ip, now))
            }),
    {
        let peer = self.take_peer(peer_ip, now);
        let banned = peer.is_banned(now);
        let bucket = peer.connection_bucket;
        self.per_peer.insert(peer_ip, peer);
        if banned {
            Err(RejectReason::TemporarilyBanned)
        } else {
            Ok(
                TokenRequest {
                    level: bucket.level,
                    elapsed_nanos: now.nanos_since(bucket.last_refill),
                    limit_per_minute: self.config.new_connections_per_minute_per_ip,
                    burst_limit: self.config.new_connections_burst_per_ip,
                },
            )
        }
    }

    /// Decides on a connection of a known peer, given the answer on its
    /// connection rate.
    pub fn finish_acquire(&mut self, peer_ip: IpAddr, now: Instant, reply: TokenReply) -> (r: Result<
        AdmissionGuard,
        RejectReason,
    >)
        requires
            old(self)@.per_peer.contains_key(peer_ip),
        ensures
            (final(self)@, refusal(r)) == old(self)@.settled(peer_ip, now, reply),
            r matches Ok(guard) ==> guard.peer() == peer_ip,
    {
        let ghost s = self@.tokens_taken(peer_ip, now, reply);
        let mut peer = match self.per_peer.remove(peer_ip) {
            Some(peer) => peer,
            None => PeerState::new(now),
        };
        peer.connection_bucket = TokenBucket { level: Some(reply.level), last_refill: now };
        assert(s.per_peer[peer_ip] == peer@);
        let connections = peer.unauthenticated_connections;
        let addr = net::subnet_key(peer_ip).addr;
        let neighbours: usize = match self.per_subnet.get(addr) {
            Some(count) => *count,
            None => 0,
        };
        let reason = if !reply.granted {
            Some(RejectReason::ConnectionRateLimited)
        } else if self.unauthenticated_connections >= self.config.max_unauth_connections_global {
            Some(RejectReason::TooManyUnauthenticatedConnections)
        } else if connections >= self.config.max_unauth_connections_per_ip {
            Some(RejectReason::TooManyUnauthenticatedConnectionsForIp)
        } else if neighbours >= self.config.max_unauth_connections_per_subnet {
            Some(RejectReason::TooManyUnauthenticatedConnectionsForSubnet)
        } else {
            None
        };
        match reason {
            Some(reason) => {
                self.per_peer.insert(peer_ip, peer);
                assert(self@.per_peer =~= s.per_peer);
                Err(reason)
            },
            None => {
                self.unauthenticated_connections = self.unauthenticated_connections + 1;
                peer.unauthenticated_connections = connections + 1;
                self.per_subnet.insert(addr, neighbours + 1);
                self.per_peer.insert(peer_ip, peer);
                assert(self@.per_peer =~= s.counted(peer_ip).per_peer);
                Ok(AdmissionGuard { peer_ip })
            },
        }
    }

    /// Decides on a connection of `peer_ip`. The rate limit counts fractions
    /// of a token, which `take_token` keeps.
    pub fn try_acquire_at<F: FnOnce(TokenRequest) -> TokenReply>(
        &mut self,
        peer_ip: IpAddr,
        now: Instant,
        take_token: F,
    ) -> (r: Result<AdmissionGuard, RejectReason>)
        requires
            !old(self)@.met(peer_ip, now).per_peer[peer_ip].is_banned(now) ==> take_token.requires(
                (old(self)@.met(peer_ip, now).token_request(peer_ip, now),),
            ),
        ensures
            ({
                let met = old(self)@.met(peer_ip, now);
                if met.per_peer[peer_ip].is_banned(now) {
                    final(self)@ == met && refusal(r) == Some(RejectReason::TemporarilyBanned)
                } else {
                    exists|reply: TokenReply|
                        take_token.ensures((met.token_request(peer_ip, now),), reply) && (
                            final(self)@,
                            refusal(r),
                        ) == #[trigger] met.settled(peer_ip, now, reply)
                }
            }),
            r matches Ok(guard) ==> guard.peer() == peer_ip,
    {
        match self.begin_acquire(peer_ip, now) {
            Err(reason) => Err(reason),
            Ok(request) => {
                let reply = take_token(request);
                self.finish_acquire(peer_ip, now, reply)
            },
        }
    }

    /// Takes note of a failed login; tells whether it gets the peer banned.
    pub fn record_auth_failure_at(&mut self, peer_ip: IpAddr, now: Instant) -> (r: bool)
        ensures
            (final(self)@, r) == old(self)@.failed(peer_ip, now),
    {
        let ghost met = self@.met(peer_ip, now);
        let mut peer = self.take_peer(peer_ip, now);
        assert(met.per_peer[peer_ip] == peer@);
        prune_before(&mut peer.auth_failures, self.config.auth_failure_ban_window, now);
        peer.auth_failures.push_back(now);
        let banned = peer.auth_failures.len() >= self.config.auth_failure_ban_threshold;
        if banned {
            peer.auth_failures.clear();
            peer.banned_until = Some(now.after(self.config.auth_failure_ban_duration));
            assert(peer@.failures =~= Seq::<Instant>::empty());
        }
        self.per_peer.insert(peer_ip, peer);
        assert(self@.per_peer =~= old(self)@.failed(peer_ip, now).0.per_peer);
        banned
    }

    /// Takes back a connection that has ended or logged in.
    pub fn release(&mut self, guard: AdmissionGuard, now: Instant)
        ensures
            final(self)@ == old(self)@.released(guard.peer(), now),
    {
        let peer_ip = guard.peer_ip;
        let ghost next = self@.uncounted(peer_ip);
        if self.unauthenticated_connections > 0 {
            self.unauthenticated_connections = self.unauthenticated_connections - 1;
        }
        let addr = net::subnet_key(peer_ip).addr;
        match self.per_subnet.remove(addr) {
            Some(count) => {
                if count > 1 {
                    self.per_subnet.insert(addr, count - 1);
                }
            },
            None => {},
        }
        assert(self@.per_subnet =~= next.per_subnet);
        match self.per_peer.remove(peer_ip) {
            Some(mut peer) => {
                if peer.unauthenticated_connections > 0 {
                    peer.unauthenticated_connections = peer.unauthenticated_connections - 1;
                }
                self.per_peer.insert(peer_ip, peer);
            },
            None => {},
        }
        assert(self@.per_peer =~= next.per_peer);
        self.cleanup_peer(peer_ip, now);
    }
}

/// How often `ip` occurs among the peers of `open` connections.
pub open spec fn open_from(open: Seq<IpAddr>, ip: IpAddr) -> nat
    decreases open.len(),
{
    if open.len() == 0 {
        0
    } else {
        open_from(open.drop_last(), ip) + if open.last() == ip {
            1nat
        } else {
            0
        }
    }
}

/// How many of the peers of `open` connections belong to the subnet that
/// starts at `addr`.
pub open spec fn open_near(open: Seq<IpAddr>, addr: IpAddr) -> nat
    decreases open.len(),
{
    if open.len() == 0 {
        0
    } else {
        open_near(open.drop_last(), addr) + if net::subnet_of(open.last()).addr == addr {
            1nat
        } else {
            0
        }
    }
}

proof fn lemma_open_remove(open: Seq<IpAddr>, i: int, ip: IpAddr, addr: IpAddr)
    requires
        0 <= i < open.len(),
    ensures
        open_from(open, ip) == open_from(open.remove(i), ip) + if open[i] == ip {
            1nat
        } else {
            0
        },
        open_near(open, addr) == open_near(open.remove(i), addr) + if net::subnet_of(
            open[i],
        ).addr == addr {
            1nat
        } else {
            0
        },
    decreases open.len(),
{
    if i == open.len() - 1 {
        assert(open.remove(i) =~= open.drop_last());
    } else {
        assert(open.remove(i).drop_last() =~= open.drop_last().remove(i));
        assert(open.remove(i).last() == open.last());
        lemma_open_remove(open.drop_last(), i, ip, addr);
    }
}

impl AdmissionView {
    /// Whether no limit on connections is exceeded.
    pub open spec fn within_limits(self) -> bool {
        &&& self.total <= self.config.max_unauth_connections_global
        &&& forall|ip: IpAddr| #[trigger]
            self.connections_of(ip) <= self.config.max_unauth_connections_per_ip
        &&& forall|ip: IpAddr| #[trigger]
            self.neighbours_of(ip) <= self.config.max_unauth_connections_per_subnet
    }

    /// Whether the counts are those of the `open` connections, one peer address
    /// for each.
    pub open spec fn tracks(self, open: Seq<IpAddr>) -> bool {
        &&& self.total == open.len()
        &&& forall|ip: IpAddr| #[trigger] self.connections_of(ip) == open_from(open, ip)
        &&& forall|addr: IpAddr| #[trigger]
            self.per_subnet.contains_key(addr) <==> open_near(open, addr) > 0
        &&& forall|addr: IpAddr| #[trigger]
            self.per_subnet.contains_key(addr) ==> self.per_subnet[addr] == open_near(open, addr)
    }

    /// The clock reading at which the ban on `ip` ends, if there is one.
    pub open spec fn ban_of(self, ip: IpAddr) -> Option<u128> {
        if self.per_peer.contains_key(ip) {
            self.per_peer[ip].banned_until
        } else {
            None
        }
    }
}

/// The limits hold in every state: at the start, and after every operation on
/// a state in which they hold, whatever the rate limit answers.
pub proof fn law_limits_hold(s: AdmissionView, ip: IpAddr, now: Instant, reply: TokenReply)
    requires
        s.within_limits(),
    ensures
        s.met(ip, now).within_limits(),
        s.met(ip, now).settled(ip, now, reply).0.within_limits(),
        s.failed(ip, now).0.within_limits(),
        s.released(ip, now).within_limits(),
        AdmissionView::initial(s.config).within_limits(),
{
    let met = s.met(ip, now);
    assert forall|other: IpAddr| #[trigger]
        met.connections_of(other) <= s.config.max_unauth_connections_per_ip by {
        assert(met.connections_of(other) == s.connections_of(other));
    }
    assert forall|other: IpAddr| #[trigger]
        met.neighbours_of(other) <= s.config.max_unauth_connections_per_subnet by {
        assert(met.neighbours_of(other) == s.neighbours_of(other));
    }
    let taken = met.tokens_taken(ip, now, reply);
    let after = met.settled(ip, now, reply).0;
    assert forall|other: IpAddr| #[trigger]
        after.connections_of(other) <= s.config.max_unauth_connections_per_ip by {
        assert(met.connections_of(other) <= s.config.max_unauth_connections_per_ip);
    }
    assert forall|other: IpAddr| #[trigger]
        after.neighbours_of(other) <= s.config.max_unauth_connections_per_subnet by {
        assert(met.neighbours_of(other) <= s.config.max_unauth_connections_per_subnet);
        assert(taken.neighbours_of(ip) == met.neighbours_of(ip));
    }
    let failed = s.failed(ip, now).0;
    assert forall|other: IpAddr| #[trigger]
        failed.connections_of(other) <= s.config.max_unauth_connections_per_ip by {
        assert(met.connections_of(other) <= s.config.max_unauth_connections_per_ip);
    }
    assert forall|other: IpAddr| #[trigger]
        failed.neighbours_of(other) <= s.config.max_unauth_connections_per_subnet by {
        assert(met.neighbours_of(other) <= s.config.max_unauth_connections_per_subnet);
    }
    let released = s.released(ip, now);
    assert forall|other: IpAddr| #[trigger]
        released.connections_of(other) <= s.config.max_unauth_connections_per_ip by {
        assert(s.connections_of(other) <= s.config.max_unauth_connections_per_ip);
    }
    assert forall|other: IpAddr| #[trigger]
        released.neighbours_of(other) <= s.config.max_unauth_connections_per_subnet by {
        assert(s.neighbours_of(other) <= s.config.max_unauth_connections_per_subnet);
    }
}

/// The counts are always those of the connections that are open and have not
/// logged in: a connection that is let in is counted, one that is turned away
/// and a failed login are not, and one that is released is taken off.
pub proof fn law_counts_follow_connections(
    s: AdmissionView,
    open: Seq<IpAddr>,
    ip: IpAddr,
    now: Instant,
    reply: TokenReply,
    i: int,
)
    requires
        s.tracks(open),
    ensures
        s.met(ip, now).tracks(open),
        s.met(ip, now).settled(ip, now, reply).1 is Some ==> s.met(ip, now).settled(
            ip,
            now,
            reply,
        ).0.tracks(open),
        s.met(ip, now).settled(ip, now, reply).1 is None ==> s.met(ip, now).settled(
            ip,
            now,
            reply,
        ).0.tracks(open.push(ip)),
        s.failed(ip, now).0.tracks(open),
        0 <= i < open.len() && open[i] == ip ==> s.released(ip, now).tracks(open.remove(i)),
        AdmissionView::initial(s.config).tracks(Seq::empty()),
{
    let met = s.met(ip, now);
    assert forall|other: IpAddr| #[trigger]
        met.connections_of(other) == open_from(open, other) by {
        assert(s.connections_of(other) == open_from(open, other));
    }
    let (after, refused) = met.settled(ip, now, reply);
    if refused is Some {
        assert forall|other: IpAddr| #[trigger]
            after.connections_of(other) == open_from(open, other) by {
            assert(met.connections_of(other) == open_from(open, other));
        }
    } else {
        assert(open.push(ip).drop_last() =~= open);
        let own = net::subnet_of(ip).addr;
        let taken = met.tokens_taken(ip, now, reply);
        assert(taken.neighbours_of(ip) == open_near(open, own)) by {
            assert(taken.per_subnet == s.per_subnet);
            assert(s.per_subnet.contains_key(own) <==> open_near(open, own) > 0);
        }
        assert forall|other: IpAddr| #[trigger]
            after.connections_of(other) == open_from(open.push(ip), other) by {
            assert(met.connections_of(other) == open_from(open, other));
        }
        assert forall|addr: IpAddr| #[trigger]
            after.per_subnet.contains_key(addr) <==> open_near(open.push(ip), addr) > 0 by {
            assert(s.per_subnet.contains_key(addr) <==> open_near(open, addr) > 0);
        }
        assert forall|addr: IpAddr| #[trigger]
            after.per_subnet.contains_key(addr) implies after.per_subnet[addr] == open_near(
            open.push(ip),
            addr,
        ) by {
            assert(s.per_subnet.contains_key(addr) <==> open_near(open, addr) > 0);
        }
    }
    let failed = s.failed(ip, now).0;
    assert forall|other: IpAddr| #[trigger]
        failed.connections_of(other) == open_from(open, other) by {
        assert(met.connections_of(other) == open_from(open, other));
    }
    if 0 <= i < open.len() && open[i] == ip {
        let rest = open.remove(i);
        let own = net::subnet_of(ip).addr;
        let after = s.released(ip, now);
        lemma_open_remove(open, i, ip, own);
        assert(s.connections_of(ip) == open_from(open, ip));
        assert(s.per_subnet.contains_key(own) <==> open_near(open, own) > 0);
        assert forall|other: IpAddr| #[trigger]
            after.connections_of(other) == open_from(rest, other) by {
            lemma_open_remove(open, i, other, own);
            assert(s.connections_of(other) == open_from(open, other));
        }
        assert forall|addr: IpAddr| #[trigger]
            after.per_subnet.contains_key(addr) <==> open_near(rest, addr) > 0 by {
            lemma_open_remove(open, i, ip, addr);
            assert(s.per_subnet.contains_key(addr) <==> open_near(open, addr) > 0);
        }
        assert forall|addr: IpAddr| #[trigger]
            after.per_subnet.contains_key(addr) implies after.per_subnet[addr] == open_near(
            rest,
            addr,
        ) by {
            lemma_open_remove(open, i, ip, addr);
            assert(s.per_subnet.contains_key(addr) <==> open_near(open, addr) > 0);
        }
    }
}

/// Releasing a connection undoes the counting of it, whenever that happens.
pub proof fn law_release_undoes_acquire(
    s: AdmissionView,
    open: Seq<IpAddr>,
    ip: IpAddr,
    now: Instant,
    reply: TokenReply,
    later: Instant,
)
    requires
        s.tracks(open),
        s.met(ip, now).settled(ip, now, reply).1 is None,
    ensures
        ({
            let after = s.met(ip, now).settled(ip, now, reply).0.released(ip, later);
            &&& after.total == s.total
            &&& after.per_subnet == s.per_subnet
            &&& forall|other: IpAddr| #[trigger]
                after.connections_of(other) == s.connections_of(other)
        }),
{
    let met = s.met(ip, now);
    let held = met.settled(ip, now, reply).0;
    let after = held.released(ip, later);
    let own = net::subnet_of(ip).addr;
    assert(s.per_subnet.contains_key(own) <==> open_near(open, own) > 0);
    assert(held.neighbours_of(ip) == s.neighbours_of(ip) + 1);
    assert(after.per_subnet =~= s.per_subnet);
    assert forall|other: IpAddr| #[trigger]
        after.connections_of(other) == s.connections_of(other) by {
        assert(met.connections_of(other) == s.connections_of(other));
    }
}

/// The failed login that reaches the threshold bans its peer: until the ban
/// duration has passed, every connection of that peer is turned away.
pub proof fn law_ban_follows_failures(s: AdmissionView, ip: IpAddr, now: Instant, later: Instant)
    requires
        s.failed(ip, now).1,
        later.nanos < now.nanos + s.config.auth_failure_ban_duration.total(),
    ensures
        s.failed(ip, now).0.met(ip, later).per_peer[ip].is_banned(later),
{
}

/// A ban stays until its time is over, whatever connections are asked for,
/// let in or released in the meantime, and a further failed login moves it
/// only to its own end.
pub proof fn law_ban_stays(
    s: AdmissionView,
    ip: IpAddr,
    until: u128,
    other: IpAddr,
    now: Instant,
    reply: TokenReply,
)
    requires
        s.ban_of(ip) == Some(until),
        now.nanos < until,
    ensures
        s.met(other, now).ban_of(ip) == Some(until),
        s.met(other, now).settled(other, now, reply).0.ban_of(ip) == Some(until),
        s.released(other, now).ban_of(ip) == Some(until),
        s.failed(other, now).0.ban_of(ip) == Some(until) || (other == ip && s.failed(
            other,
            now,
        ).0.ban_of(ip) == Some(
            (now.nanos + s.config.auth_failure_ban_duration.total()) as u128,
        )),
{
}

/// Once its time is over a ban turns nobody away.
pub proof fn law_ban_ends(s: AdmissionView, ip: IpAddr, now: Instant)
    requires
        s.ban_of(ip) matches Some(until) ==> until <= now.nanos,
    ensures
        !s.met(ip, now).per_peer[ip].is_banned(now),
{
}

/// What is gone at one time is gone at every later one.
proof fn lemma_recent_again(f: Seq<Instant>, window: Duration, a: Instant, b: Instant)
    requires
        a.nanos <= b.nanos,
    ensures
        recent(recent(f, window, a), window, b) == recent(f, window, b),
    decreases f.len(),
{
    if f.len() > 0 && f[0].nanos + window.total() < a.nanos {
        lemma_recent_again(f.skip(1), window, a, b);
    }
}

/// A peer that can be forgotten at one time can be forgotten at every later one,
/// and to look at it in between changes nothing.
proof fn lemma_seen_later(s: AdmissionView, ip: IpAddr, now: Instant, later: Instant)
    requires
        now.nanos <= later.nanos,
        s.per_peer.contains_key(ip),
    ensures
        s.seen(ip, now) is None ==> s.seen(ip, later) is None,
        s.seen(ip, now) matches Some(peer) ==> peer.refreshed(
            s.config.auth_failure_ban_window,
            later,
        ) == s.per_peer[ip].refreshed(s.config.auth_failure_ban_window, later),
{
    let peer = s.per_peer[ip];
    lemma_recent_again(peer.failures, s.config.auth_failure_ban_window, now, later);
    let short = time::elapsed(peer.bucket.last_refill, now);
    let long = time::elapsed(peer.bucket.last_refill, later);
    let rate = s.config.new_connections_per_minute_per_ip;
    assert(short * rate <= long * rate) by (nonlinear_arith)
        requires
            short <= long,
            rate >= 0,
    ;
}

/// Cleaning changes nothing that counts of any peer.
proof fn lemma_cleaned_seen(
    s: AdmissionView,
    ip: IpAddr,
    now: Instant,
    other: IpAddr,
    later: Instant,
)
    requires
        now.nanos <= later.nanos,
    ensures
        s.cleaned(ip, now).seen(other, later) == s.seen(other, later),
{
    if s.per_peer.contains_key(other) {
        lemma_seen_later(s, other, now, later);
    }
}

/// What one peer does leaves what counts of every other peer as it was: then and
/// at any later time.
pub proof fn law_peers_are_separate(
    s: AdmissionView,
    ip: IpAddr,
    other: IpAddr,
    now: Instant,
    reply: TokenReply,
    later: Instant,
)
    requires
        ip != other,
        now.nanos <= later.nanos,
    ensures
        s.met(ip, now).seen(other, later) == s.seen(other, later),
        s.met(ip, now).settled(ip, now, reply).0.seen(other, later) == s.seen(other, later),
        s.failed(ip, now).0.seen(other, later) == s.seen(other, later),
        s.released(ip, now).seen(other, later) == s.seen(other, later),
{
    lemma_cleaned_seen(s, ip, now, other, later);
    lemma_cleaned_seen(s.uncounted(ip), ip, now, other, later);
}

/// The end of a connection, or its login, gives no token back: the bucket of
/// every peer stays as it was, unless it has filled up by itself.
pub proof fn law_release_keeps_tokens(s: AdmissionView, ip: IpAddr, now: Instant, peer: IpAddr)
    requires
        s.per_peer.contains_key(peer),
    ensures
        ({
            let after = s.released(ip, now).per_peer;
            let bucket = s.per_peer[peer].bucket;
            if after.contains_key(peer) {
                after[peer].bucket == bucket
            } else {
                bucket_full(bucket, s.config, now)
            }
        }),
{
}

/// No idle entry outlives a sweep: what is left was worth keeping at that time.
/// A sweep comes with every operation, unless the last one was less than the
/// interval ago.
pub proof fn law_sweep_forgets_idle_peers(s: AdmissionView, ip: IpAddr, now: Instant, peer: IpAddr)
    requires
        time::elapsed(s.last_sweep, now) >= SWEEP_INTERVAL_NANOS,
    ensures
        s.cleaned(ip, now).per_peer.contains_key(peer) ==> !s.cleaned(
            ip,
            now,
        ).per_peer[peer].is_idle(s.config, now),
        s.cleaned(ip, now).last_sweep == now,
        peer != ip ==> s.met(ip, now).per_peer.contains_key(peer) == (s.seen(peer, now) is Some),
        peer != ip ==> s.failed(ip, now).0.per_peer.contains_key(peer) == (s.seen(peer, now) is Some),
        peer != ip ==> s.released(ip, now).per_peer.contains_key(peer) == (s.seen(peer, now)
            is Some),
        s.released(ip, now).per_peer.contains_key(peer) ==> !s.released(
            ip,
            now,
        ).per_peer[peer].is_idle(s.config, now),
{
}

/// Something that the controller is told.
pub enum AdmissionEvent {
    /// A connection is asked for, and this is the answer on its rate.
    Connection { ip: IpAddr, now: Instant, reply: TokenReply },
    /// A login fails.
    Failure { ip: IpAddr, now: Instant },
    /// A connection ends or logs in.
    Release { ip: IpAddr, now: Instant },
}

impl AdmissionEvent {
    pub open spec fn time(self) -> Instant {
        match self {
            AdmissionEvent::Connection { now, .. } => now,
            AdmissionEvent::Failure { now, .. } => now,
            AdmissionEvent::Release { now, .. } => now,
        }
    }
}

impl AdmissionView {
    /// The state after one more event.
    pub open spec fn step(self, event: AdmissionEvent) -> AdmissionView {
        match event {
            AdmissionEvent::Connection { ip, now, reply } => {
                let met = self.met(ip, now);
                if met.per_peer[ip].is_banned(now) {
                    met
                } else {
                    met.settled(ip, now, reply).0
                }
            },
            AdmissionEvent::Failure { ip, now } => self.failed(ip, now).0,
            AdmissionEvent::Release { ip, now } => self.released(ip, now),
        }
    }

    /// The failed logins of `ip` that are remembered.
    pub open spec fn remembered(self, ip: IpAddr) -> Seq<Instant> {
        if self.per_peer.contains_key(ip) {
            self.per_peer[ip].failures
        } else {
            Seq::empty()
        }
    }
}

/// The state of a controller that has been told `events`.
pub open spec fn state_after(config: AdmissionConfig, events: Seq<AdmissionEvent>) -> AdmissionView
    decreases events.len(),
{
    if events.len() == 0 {
        AdmissionView::initial(config)
    } else {
        state_after(config, events.drop_last()).step(events.last())
    }
}

/// Whether no event lies before the one that came ahead of it.
pub open spec fn in_order(events: Seq<AdmissionEvent>) -> bool {
    forall|i: int, j: int|
        0 <= i <= j < events.len() ==> #[trigger] events[i].time().nanos <= #[trigger] events[j].time().nanos
}

/// When logins of `ip` failed, from the one behind the last that got it banned
/// on.
pub open spec fn failures_since_ban(
    config: AdmissionConfig,
    events: Seq<AdmissionEvent>,
    ip: IpAddr,
) -> Seq<Instant>
    decreases events.len(),
{
    if events.len() == 0 {
        Seq::empty()
    } else {
        let before = failures_since_ban(config, events.drop_last(), ip);
        match events.last() {
            AdmissionEvent::Failure { ip: peer, now } => if peer != ip {
                before
            } else if state_after(config, events.drop_last()).failed(ip, now).1 {
                Seq::empty()
            } else {
                before.push(now)
            },
            _ => before,
        }
    }
}

/// How many of `times` lie no more than `window` before `now`.
pub open spec fn within_window(times: Seq<Instant>, window: Duration, now: Instant) -> nat
    decreases times.len(),
{
    if times.len() == 0 {
        0
    } else {
        within_window(times.drop_last(), window, now) + if times.last().nanos + window.total()
            >= now.nanos {
            1nat
        } else {
            0
        }
    }
}

proof fn lemma_recent_push(f: Seq<Instant>, window: Duration, a: Instant, x: Instant, b: Instant)
    requires
        a.nanos <= b.nanos,
    ensures
        recent(recent(f, window, a).push(x), window, b) == recent(f.push(x), window, b),
    decreases f.len(),
{
    if f.len() > 0 && f[0].nanos + window.total() < a.nanos {
        lemma_recent_push(f.skip(1), window, a, x, b);
        assert(f.push(x).skip(1) =~= f.skip(1).push(x));
    }
}

/// Of times in order, the recent ones are those within the window.
proof fn lemma_recent_counts(f: Seq<Instant>, window: Duration, now: Instant)
    requires
        forall|i: int, j: int| 0 <= i <= j < f.len() ==> f[i].nanos <= f[j].nanos,
    ensures
        recent(f, window, now).len() == within_window(f, window, now),
    decreases f.len(),
{
    if f.len() > 0 {
        lemma_recent_counts(f.drop_last(), window, now);
        lemma_recent_last(f, window, now);
    }
}

proof fn lemma_recent_last(f: Seq<Instant>, window: Duration, now: Instant)
    requires
        f.len() > 0,
        forall|i: int, j: int| 0 <= i <= j < f.len() ==> f[i].nanos <= f[j].nanos,
    ensures
        recent(f, window, now).len() == recent(f.drop_last(), window, now).len() + if f.last().nanos
            + window.total() >= now.nanos {
            1nat
        } else {
            0
        },
    decreases f.len(),
{
    if f[0].nanos + window.total() < now.nanos {
        if f.len() > 1 {
            assert(f.drop_last().skip(1) =~= f.skip(1).drop_last());
            lemma_recent_last(f.skip(1), window, now);
        } else {
            assert(recent(f.skip(1), window, now) == f.skip(1));
            assert(recent(f.drop_last(), window, now) == f.drop_last());
        }
    } else {
        assert(f[0].nanos <= f[f.len() - 1].nanos);
        assert(recent(f.drop_last(), window, now) == f.drop_last());
    }
}

proof fn lemma_cleaned_remembers(
    s: AdmissionView,
    ip: IpAddr,
    now: Instant,
    peer: IpAddr,
    later: Instant,
)
    requires
        now.nanos <= later.nanos,
    ensures
        recent(
            s.cleaned(ip, now).remembered(peer),
            s.config.auth_failure_ban_window,
            later,
        ) == recent(s.remembered(peer), s.config.auth_failure_ban_window, later),
{
    lemma_recent_again(s.remembered(peer), s.config.auth_failure_ban_window, now, later);
}

proof fn lemma_config_stays(config: AdmissionConfig, events: Seq<AdmissionEvent>)
    ensures
        state_after(config, events).config == config,
    decreases events.len(),
{
    if events.len() > 0 {
        lemma_config_stays(config, events.drop_last());
    }
}

proof fn lemma_order_of_earlier(events: Seq<AdmissionEvent>)
    requires
        in_order(events),
        events.len() > 0,
    ensures
        in_order(events.drop_last()),
{
    let before = events.drop_last();
    assert forall|i: int, j: int| 0 <= i <= j < before.len() implies
        #[trigger] before[i].time().nanos <= #[trigger] before[j].time().nanos by {
        assert(events[i].time().nanos <= events[j].time().nanos);
    }
}

/// The failures since the last ban are in order, and none is later than the
/// last event.
proof fn lemma_failures_in_order(config: AdmissionConfig, events: Seq<AdmissionEvent>, ip: IpAddr)
    requires
        in_order(events),
    ensures
        ({
            let f = failures_since_ban(config, events, ip);
            &&& forall|i: int, j: int| 0 <= i <= j < f.len() ==> f[i].nanos <= f[j].nanos
            &&& forall|i: int|
                0 <= i < f.len() ==> events.len() > 0 && #[trigger] f[i].nanos
                    <= events.last().time().nanos
        }),
    decreases events.len(),
{
    if events.len() > 0 {
        let before = events.drop_last();
        lemma_order_of_earlier(events);
        lemma_failures_in_order(config, before, ip);
        if before.len() > 0 {
            assert(events[before.len() - 1].time().nanos <= events[before.len() as int].time().nanos);
        }
        let earlier = failures_since_ban(config, before, ip);
        let f = failures_since_ban(config, events, ip);
        let at = events.last().time();
        assert(f == earlier || f.len() == 0 || f == earlier.push(at));
        assert forall|i: int| 0 <= i < f.len() implies #[trigger] f[i].nanos <= at.nanos by {
            if i < earlier.len() {
                assert(earlier[i].nanos <= before.last().time().nanos);
            }
        }
        assert forall|i: int, j: int| 0 <= i <= j < f.len() implies f[i].nanos <= f[j].nanos by {
            if j < earlier.len() {
                assert(earlier[i].nanos <= earlier[j].nanos);
            }
        }
    }
}

/// What is remembered of a peer's failed logins and what they were since its last
/// ban agree, as far as they still count.
proof fn lemma_failures_remembered(
    config: AdmissionConfig,
    events: Seq<AdmissionEvent>,
    ip: IpAddr,
    later: Instant,
)
    requires
        in_order(events),
        events.len() > 0 ==> events.last().time().nanos <= later.nanos,
    ensures
        recent(state_after(config, events).remembered(ip), config.auth_failure_ban_window, later)
            == recent(
            failures_since_ban(config, events, ip),
            config.auth_failure_ban_window,
            later,
        ),
    decreases events.len(),
{
    if events.len() > 0 {
        let before = events.drop_last();
        lemma_order_of_earlier(events);
        if before.len() > 0 {
            assert(events[before.len() - 1].time().nanos <= events[before.len() as int].time().nanos);
        }
        let window = config.auth_failure_ban_window;
        let s = state_after(config, before);
        let a = events.last().time();
        lemma_config_stays(config, before);
        lemma_failures_remembered(config, before, ip, a);
        lemma_failures_remembered(config, before, ip, later);
        match events.last() {
            AdmissionEvent::Connection { ip: peer, now, reply } => {
                lemma_cleaned_remembers(s, peer, now, ip, later);
            },
            AdmissionEvent::Failure { ip: peer, now } => {
                lemma_cleaned_remembers(s, peer, now, ip, later);
                if peer == ip {
                    lemma_cleaned_remembers(s, peer, now, ip, now);
                    let since = failures_since_ban(config, before, ip);
                    lemma_recent_push(since, window, now, now, later);
                }
            },
            AdmissionEvent::Release { ip: peer, now } => {
                assert(s.uncounted(peer).remembered(ip) == s.remembered(ip));
                lemma_cleaned_remembers(s.uncounted(peer), peer, now, ip, later);
            },
        }
    }
}

/// A failed login gets its peer banned exactly if it is at least the threshold-th
/// one of that peer within the window, counted from the last time the peer was
/// banned on. The peer is then turned away for the ban duration and no longer, and
/// its count starts anew. No other peer's count or ban changes.
pub proof fn law_ban_counts_failures(
    config: AdmissionConfig,
    events: Seq<AdmissionEvent>,
    ip: IpAddr,
    now: Instant,
    other: IpAddr,
    later: Instant,
)
    requires
        in_order(events),
        events.len() > 0 ==> events.last().time().nanos <= now.nanos,
        now.nanos <= later.nanos,
        other != ip,
    ensures
        ({
            let s = state_after(config, events);
            let (after, banned) = s.failed(ip, now);
            let told = events.push(AdmissionEvent::Failure { ip, now });
            &&& after == state_after(config, told)
            &&& banned <==> within_window(
                failures_since_ban(config, events, ip),
                config.auth_failure_ban_window,
                now,
            ) + 1 >= config.auth_failure_ban_threshold
            &&& banned ==> failures_since_ban(config, told, ip).len() == 0
            &&& banned ==> (after.met(ip, later).per_peer[ip].is_banned(later) <==> later.nanos
                < now.nanos + config.auth_failure_ban_duration.total())
            &&& !banned ==> failures_since_ban(config, told, ip) == failures_since_ban(
                config,
                events,
                ip,
            ).push(now)
            &&& !banned ==> after.met(ip, later).per_peer[ip].is_banned(later) == s.met(
                ip,
                later,
            ).per_peer[ip].is_banned(later)
            &&& failures_since_ban(config, told, other) == failures_since_ban(config, events, other)
            &&& after.met(other, later).per_peer[other].is_banned(later) == s.met(
                other,
                later,
            ).per_peer[other].is_banned(later)
        }),
{
    let s = state_after(config, events);
    let told = events.push(AdmissionEvent::Failure { ip, now });
    assert(told.drop_last() =~= events);
    assert(told.last() == AdmissionEvent::Failure { ip, now });
    lemma_config_stays(config, events);
    lemma_failures_remembered(config, events, ip, now);
    lemma_cleaned_remembers(s, ip, now, ip, now);
    let since = failures_since_ban(config, events, ip);
    lemma_failures_in_order(config, events, ip);
    lemma_recent_counts(since, config.auth_failure_ban_window, now);
    lemma_cleaned_seen(s, ip, now, other, later);
    lemma_cleaned_seen(s, ip, now, ip, later);
}

/// A ban holds out whatever happens in the meantime: after the failed login that
/// brought it on, the peer is turned away at every time before the ban duration
/// has passed.
pub proof fn law_ban_outlasts_events(
    config: AdmissionConfig,
    events: Seq<AdmissionEvent>,
    k: int,
    ip: IpAddr,
    now: Instant,
    later: Instant,
)
    requires
        in_order(events),
        0 <= k < events.len(),
        events[k] == (AdmissionEvent::Failure { ip, now }),
        state_after(config, events.take(k)).failed(ip, now).1,
        events.last().time().nanos <= later.nanos,
        later.nanos < now.nanos + config.auth_failure_ban_duration.total(),
    ensures
        state_after(config, events).met(ip, later).per_peer[ip].is_banned(later),
        state_after(config, events).ban_of(ip) matches Some(until) && until >= now.nanos
            + config.auth_failure_ban_duration.total(),
    decreases events.len(),
{
    let before = events.drop_last();
    lemma_config_stays(config, before);
    if k == events.len() - 1 {
        assert(events.take(k) =~= before);
    } else {
        lemma_order_of_earlier(events);
        assert(before.take(k) =~= events.take(k));
        assert(events[k].time().nanos <= events[events.len() - 1].time().nanos);
        assert(events[events.len() - 2].time().nanos <= events[events.len() - 1].time().nanos);
        law_ban_outlasts_events(config, before, k, ip, now, later);
        let s = state_after(config, before);
        let until = s.ban_of(ip)->Some_0;
        match events.last() {
            AdmissionEvent::Connection { ip: peer, now: at, reply } => {
                law_ban_stays(s, ip, until, peer, at, reply);
            },
            AdmissionEvent::Failure { ip: peer, now: at } => {
                law_ban_stays(s, ip, until, peer, at, TokenReply { level: 0, granted: false });
            },
            AdmissionEvent::Release { ip: peer, now: at } => {
                law_ban_stays(s, ip, until, peer, at, TokenReply { level: 0, granted: false });
            },
        }
    }
}

/// A connection is let in exactly if the rate limit grants it, fewer connections
/// than allowed have not logged in, fewer of its own address, and fewer out of
/// its subnet; else the first of these that fails is the reason. One that is let
/// in is counted once for each; one that is turned away is not.
pub proof fn law_connections_are_let_in_below_the_limits(
    controller: &mut AdmissionController,
    ip: IpAddr,
    now: Instant,
    reply: TokenReply,
    r: Result<AdmissionGuard, RejectReason>,
)
    requires
        old(controller)@.per_peer.contains_key(ip),
        call_ensures(AdmissionController::finish_acquire, (controller, ip, now, reply), r),
    ensures
        ({
            let before = old(controller)@;
            let after = final(controller)@;
            let own = before.per_peer[ip].connections;
            let near = before.neighbours_of(ip);
            let limits = before.config;
            &&& r is Ok <==> reply.granted && before.total < limits.max_unauth_connections_global
                && own < limits.max_unauth_connections_per_ip && near
                < limits.max_unauth_connections_per_subnet
            &&& !reply.granted ==> r->Err_0 is ConnectionRateLimited
            &&& reply.granted && before.total >= limits.max_unauth_connections_global
                ==> r->Err_0 is TooManyUnauthenticatedConnections
            &&& reply.granted && before.total < limits.max_unauth_connections_global && own
                >= limits.max_unauth_connections_per_ip
                ==> r->Err_0 is TooManyUnauthenticatedConnectionsForIp
            &&& reply.granted && before.total < limits.max_unauth_connections_global && own
                < limits.max_unauth_connections_per_ip && near
                >= limits.max_unauth_connections_per_subnet
                ==> r->Err_0 is TooManyUnauthenticatedConnectionsForSubnet
            &&& r is Ok ==> after.total == before.total + 1 && after.per_peer[ip].connections == own
                + 1 && after.neighbours_of(ip) == near + 1 && r->Ok_0.peer() == ip
            &&& r is Err ==> after.total == before.total && after.per_peer[ip].connections == own
                && after.per_subnet == before.per_subnet
            &&& after.per_peer.contains_key(ip)
            &&& after.per_peer[ip].bucket.level == Some(reply.level)
            &&& after.per_peer[ip].bucket.last_refill == now
            &&& after.per_peer[ip].banned_until == before.per_peer[ip].banned_until
            &&& after.per_peer[ip].failures == before.per_peer[ip].failures
            &&& after.config == before.config
        }),
{
}

/// A peer that is banned is turned away before anything else is asked; of any
/// other it is asked whether its bucket, as it is and since it was last filled
/// up, has a token to spare by the limits on connections of one address.
pub proof fn law_banned_peers_are_turned_away_first(
    controller: &mut AdmissionController,
    ip: IpAddr,
    now: Instant,
    r: Result<TokenRequest, RejectReason>,
)
    requires
        call_ensures(AdmissionController::begin_acquire, (controller, ip, now), r),
    ensures
        ({
            let after = final(controller)@;
            let ban = old(controller)@.ban_of(ip);
            &&& after.per_peer.contains_key(ip)
            &&& r is Err <==> ban is Some && now.nanos < ban->0
            &&& r is Err ==> r->Err_0 is TemporarilyBanned
            &&& r matches Ok(request) ==> {
                &&& request.limit_per_minute == after.config.new_connections_per_minute_per_ip
                &&& request.burst_limit == after.config.new_connections_burst_per_ip
                &&& request.level == after.per_peer[ip].bucket.level
                &&& now.nanos >= after.per_peer[ip].bucket.last_refill.nanos
                    ==> request.elapsed_nanos == now.nanos
                    - after.per_peer[ip].bucket.last_refill.nanos
                &&& now.nanos < after.per_peer[ip].bucket.last_refill.nanos
                    ==> request.elapsed_nanos == 0
            }
            &&& after.config == old(controller)@.config
            &&& after.total == old(controller)@.total
            &&& after.per_subnet == old(controller)@.per_subnet
        }),
{
}

/// A peer is forgotten only when nothing is lost by it: it has no connection, no
/// ban, no failed login within the window, and its tokens have all come back,
/// which takes as many minutes as the burst lasts at the rate.
pub proof fn law_only_idle_peers_are_forgotten(s: AdmissionView, ip: IpAddr, now: Instant)
    requires
        s.per_peer.contains_key(ip),
    ensures
        s.seen(ip, now) is None <==> {
            let peer = s.per_peer[ip];
            &&& peer.connections == 0
            &&& peer.banned_until is None || peer.banned_until->0 <= now.nanos
            &&& recent(peer.failures, s.config.auth_failure_ban_window, now).len() == 0
            &&& peer.bucket.level is None || (if now.nanos >= peer.bucket.last_refill.nanos {
                now.nanos - peer.bucket.last_refill.nanos
            } else {
                0
            }) * s.config.new_connections_per_minute_per_ip
                >= s.config.new_connections_burst_per_ip * 60_000_000_000
        },
        s.seen(ip, now) matches Some(peer) ==> peer.connections == s.per_peer[ip].connections
            && peer.bucket == s.per_peer[ip].bucket,
{
}

/// A failed login is forgotten once more than the window has passed since; what
/// is left of the failed logins stands in the order it came in, and none of it
/// is new.
pub proof fn law_old_failures_are_forgotten(
    failures: Seq<Instant>,
    window: Duration,
    now: Instant,
)
    ensures
        exists|k: int|
            0 <= k <= failures.len() && recent(failures, window, now) == #[trigger] failures.skip(k)
                && (forall|i: int|
                0 <= i < k ==> (#[trigger] failures[i]).nanos + window.secs * 1_000_000_000
                    + window.nanos < now.nanos),
        recent(failures, window, now).len() > 0 ==> recent(failures, window, now)[0].nanos
            + window.secs * 1_000_000_000 + window.nanos >= now.nanos,
    decreases failures.len(),
{
    if failures.len() > 0 && failures[0].nanos + window.total() < now.nanos {
        let rest = failures.skip(1);
        law_old_failures_are_forgotten(rest, window, now);
        let k = choose|k: int|
            0 <= k <= rest.len() && recent(rest, window, now) == #[trigger] rest.skip(k) && (forall|
                i: int,
            |
                0 <= i < k ==> (#[trigger] rest[i]).nanos + window.secs * 1_000_000_000
                    + window.nanos < now.nanos);
        assert(rest.skip(k) =~= failures.skip(k + 1));
        assert forall|i: int| 0 <= i < k + 1 implies (#[trigger] failures[i]).nanos + window.secs
            * 1_000_000_000 + window.nanos < now.nanos by {
            if i > 0 {
                assert(rest[i - 1] == failures[i]);
            }
        }
    } else {
        assert(failures.skip(0) =~= failures);
    }
}

/// A failed login counts once, for its own peer, and a ban ends the ban duration
/// behind the failed login that brought it on.
pub proof fn law_failures_are_counted(
    controller: &mut AdmissionController,
    ip: IpAddr,
    now: Instant,
    banned: bool,
)
    requires
        call_ensures(AdmissionController::record_auth_failure_at, (controller, ip, now), banned),
    ensures
        ({
            let before = old(controller)@;
            let after = final(controller)@;
            let peer = after.per_peer[ip];
            let limits = before.config;
            &&& after.per_peer.contains_key(ip)
            &&& banned ==> peer.failures.len() == 0 && peer.banned_until is Some
                && peer.banned_until->0 == now.nanos + limits.auth_failure_ban_duration.secs
                * 1_000_000_000 + limits.auth_failure_ban_duration.nanos
            &&& !banned ==> peer.failures.len() > 0 && peer.failures.last() == now
                && peer.failures.len() < limits.auth_failure_ban_threshold
            &&& limits.auth_failure_ban_threshold <= 1 ==> banned
            &&& after.total == before.total
            &&& after.per_subnet == before.per_subnet
            &&& after.config == before.config
        }),
{
}

/// A connection that ends or logs in makes room for one more: of all, of its
/// address and of its subnet. It gives nothing back twice.
pub proof fn law_release_makes_room(
    controller: &mut AdmissionController,
    guard: AdmissionGuard,
    now: Instant,
)
    requires
        call_ensures(AdmissionController::release, (controller, guard, now), ()),
    ensures
        ({
            let before = old(controller)@;
            let after = final(controller)@;
            let ip = guard.peer();
            &&& before.total > 0 ==> after.total == before.total - 1
            &&& before.total == 0 ==> after.total == 0
            &&& before.connections_of(ip) > 0 ==> after.connections_of(ip)
                == before.connections_of(ip) - 1
            &&& before.neighbours_of(ip) > 0 ==> after.neighbours_of(ip) == before.neighbours_of(
                ip,
            ) - 1
            &&& after.config == before.config
        }),
{
}

/// Peers are looked through for those that can be forgotten once a minute has
/// passed since the last time, and not before.
pub proof fn law_peers_are_looked_through_each_minute(s: AdmissionView, ip: IpAddr, now: Instant)
    ensures
        now.nanos >= s.last_sweep.nanos + 60_000_000_000 ==> s.cleaned(ip, now).last_sweep == now,
        now.nanos < s.last_sweep.nanos + 60_000_000_000 ==> s.cleaned(ip, now).last_sweep
            == s.last_sweep,
        s.cleaned(ip, now).total == s.total,
        s.cleaned(ip, now).per_subnet == s.per_subnet,
        s.cleaned(ip, now).config == s.config,
{
}

/// At the start nobody is connected, known or banned.
pub proof fn law_nobody_is_known_at_the_start(
    config: AdmissionConfig,
    controller: AdmissionController,
    ip: IpAddr,
)
    requires
        call_ensures(AdmissionController::new, (config,), controller),
    ensures
        controller@.config == config,
        controller@.total == 0,
        controller@.connections_of(ip) == 0,
        controller@.neighbours_of(ip) == 0,
        controller@.ban_of(ip) is None,
{
}

/// Each limit is the setting of its name.
pub proof fn law_limits_come_from_the_settings(config: &AppConfig, r: AdmissionConfig)
    requires
        call_ensures(AdmissionConfig::from_app_config, (config,), r),
    ensures
        r.max_unauth_connections_global == config@.max_unauth_connections_global,
        r.max_unauth_connections_per_ip == config@.max_unauth_connections_per_ip,
        r.max_unauth_connections_per_subnet == config@.max_unauth_connections_per_subnet,
        r.new_connections_per_minute_per_ip == config@.new_connections_per_minute_per_ip,
        r.new_connections_burst_per_ip == config@.new_connections_burst_per_ip,
        r.auth_failure_ban_threshold == config@.auth_failure_ban_threshold,
        r.auth_failure_ban_window == config@.auth_failure_ban_window,
        r.auth_failure_ban_duration == config@.auth_failure_ban_duration,
{
}

/// A connection of a banned peer is turned away as such without being counted.
/// Any other is put to the rate limit under the peer's own bucket, and is let in
/// only if that grants it and the limits leave room; it is then counted once. A
/// connection that has logged in makes room again.
pub proof fn law_connections_ask_for_room<F: FnOnce(TokenRequest) -> TokenReply>(
    controller: &mut AdmissionController,
    ip: IpAddr,
    now: Instant,
    take_token: F,
    r: Result<AdmissionGuard, RejectReason>,
    guard: AdmissionGuard,
    freed: &mut AdmissionController,
    then: Instant,
    whose: IpAddr,
)
    requires
        call_ensures(
            AdmissionController::try_acquire_at::<F>,
            (controller, ip, now, take_token),
            r,
        ),
        call_ensures(AdmissionGuard::peer_ip, (&guard,), whose),
        call_ensures(AdmissionGuard::mark_authenticated, (guard, freed, then), ()),
    ensures
        ({
            let met = old(controller)@.met(ip, now);
            let peer = met.per_peer[ip];
            let banned = peer.banned_until is Some && now.nanos < peer.banned_until->0;
            let after = final(controller)@;
            &&& banned ==> r is Err && r->Err_0 is TemporarilyBanned && after == met
            &&& !banned ==> exists|question: TokenRequest, reply: TokenReply| #[trigger]
                take_token.ensures((question,), reply) && {
                    &&& question.level == peer.bucket.level
                    &&& question.limit_per_minute == met.config.new_connections_per_minute_per_ip
                    &&& question.burst_limit == met.config.new_connections_burst_per_ip
                    &&& peer.bucket.last_refill.nanos <= now.nanos ==> question.elapsed_nanos
                        == now.nanos - peer.bucket.last_refill.nanos
                    &&& r is Ok <==> reply.granted && met.total
                        < met.config.max_unauth_connections_global && peer.connections
                        < met.config.max_unauth_connections_per_ip && met.neighbours_of(ip)
                        < met.config.max_unauth_connections_per_subnet
                }
            &&& r is Ok ==> after.total == met.total + 1 && r->Ok_0.peer() == ip
            &&& r is Err ==> after.total == met.total
        }),
        whose == guard.peer(),
        old(freed)@.total > 0 ==> final(freed)@.total == old(freed)@.total - 1,
{
    let met = old(controller)@.met(ip, now);
    if !met.per_peer[ip].is_banned(now) {
        let question = met.token_request(ip, now);
        let reply = choose|reply: TokenReply|
            take_token.ensures((question,), reply) && (final(controller)@, refusal(r))
                == #[trigger] met.settled(ip, now, reply);
        assert(take_token.ensures((question,), reply));
    }
}

/// Each reason for turning a connection away is told in its own words.
pub proof fn law_refusals_are_told_in_words(e: RejectReason, words: &'static str)
    requires
        call_ensures(RejectReason::label, (e,), words),
    ensures
        words@ == (match e {
            RejectReason::TooManyUnauthenticatedConnections =>
                "global unauthenticated connection limit reached"@,
            RejectReason::TooManyUnauthenticatedConnectionsForIp =>
                "per-IP unauthenticated connection limit reached"@,
            RejectReason::TooManyUnauthenticatedConnectionsForSubnet =>
                "per-subnet unauthenticated connection limit reached"@,
            RejectReason::ConnectionRateLimited => "connection rate limited"@,
            RejectReason::TemporarilyBanned =>
                "peer temporarily banned after repeated authentication failures"@,
        }),
{
}

} // verus!
