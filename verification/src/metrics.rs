//! Counters on what the daemon turned away.
use vstd::prelude::*;
use vstd::string::*;

use crate::net::IpAddr;
use crate::text;

verus! {

/// A counter after one more event; it starts over behind the largest number.
pub open spec fn bumped(count: u64) -> u64 {
    if count < u64::MAX {
        (count + 1) as u64
    } else {
        0
    }
}

/// Where the tally of `key` stands; the number of tallies if it has none.
pub open spec fn place_of<K>(tallies: Seq<(K, u64)>, key: K) -> nat
    decreases tallies.len(),
{
    if tallies.len() == 0 || tallies[0].0 == key {
        0
    } else {
        1 + place_of(tallies.skip(1), key)
    }
}

/// How often `key` has been counted, if ever.
pub open spec fn tally_of<K>(tallies: Seq<(K, u64)>, key: K) -> Option<u64> {
    let i = place_of(tallies, key) as int;
    if i < tallies.len() {
        Some(tallies[i].1)
    } else {
        None
    }
}

/// The tallies with `key` counted once more.
pub open spec fn tallied<K>(tallies: Seq<(K, u64)>, key: K) -> Seq<(K, u64)> {
    let i = place_of(tallies, key) as int;
    if i < tallies.len() {
        tallies.update(i, (key, bumped(tallies[i].1)))
    } else {
        tallies.push((key, 1))
    }
}

proof fn lemma_place_of<K>(tallies: Seq<(K, u64)>, key: K)
    ensures
        place_of(tallies, key) <= tallies.len(),
        place_of(tallies, key) < tallies.len() ==> tallies[place_of(tallies, key) as int].0 == key,
        forall|j: int| 0 <= j < place_of(tallies, key) ==> (#[trigger] tallies[j]).0 != key,
    decreases tallies.len(),
{
    if tallies.len() > 0 && tallies[0].0 != key {
        let rest = tallies.skip(1);
        lemma_place_of(rest, key);
        assert forall|j: int| 0 <= j < place_of(tallies, key) implies (#[trigger] tallies[j]).0
            != key by {
            if j > 0 {
                assert(tallies[j] == rest[j - 1]);
            }
        }
    }
}

proof fn lemma_place_is<K>(tallies: Seq<(K, u64)>, key: K, i: nat)
    requires
        i <= tallies.len(),
        forall|j: int| 0 <= j < i ==> (#[trigger] tallies[j]).0 != key,
        i < tallies.len() ==> tallies[i as int].0 == key,
    ensures
        place_of(tallies, key) == i,
{
    lemma_place_of(tallies, key);
}

/// What the counters say.
pub struct MetricsView {
    pub current_unauthenticated_connections: usize,
    pub rejected_connections_by_reason: Seq<(Seq<char>, u64)>,
    pub auth_failures_by_ip: Seq<(IpAddr, u64)>,
    /// The failures of addresses that no tally was opened for.
    pub auth_failure_ip_overflow: u64,
    pub temporary_bans_issued: u64,
    pub preauth_timeouts: u64,
    pub malformed_packet_disconnects: u64,
    pub authorized_keys_reload_successes: u64,
    pub authorized_keys_reload_failures: u64,
}

/// The state of the counters at one point in time.
#[derive(Clone, Debug, PartialEq, Eq)]
pub struct MetricsSnapshot {
    pub current_unauthenticated_connections: usize,
    pub rejected_connections_by_reason: Vec<(String, u64)>,
    pub auth_failures_by_ip: Vec<(IpAddr, u64)>,
    pub auth_failure_ip_overflow: u64,
    pub temporary_bans_issued: u64,
    pub preauth_timeouts: u64,
    pub malformed_packet_disconnects: u64,
    pub authorized_keys_reload_successes: u64,
    pub authorized_keys_reload_failures: u64,
}

/// Tallies by text.
pub open spec fn by_text(tallies: Seq<(String, u64)>) -> Seq<(Seq<char>, u64)> {
    tallies.map_values(|t: (String, u64)| (t.0@, t.1))
}

impl View for MetricsSnapshot {
    type V = MetricsView;

    open spec fn view(&self) -> MetricsView {
        MetricsView {
            current_unauthenticated_connections: self.current_unauthenticated_connections,
            rejected_connections_by_reason: by_text(self.rejected_connections_by_reason@),
            auth_failures_by_ip: self.auth_failures_by_ip@,
            auth_failure_ip_overflow: self.auth_failure_ip_overflow,
            temporary_bans_issued: self.temporary_bans_issued,
            preauth_timeouts: self.preauth_timeouts,
            malformed_packet_disconnects: self.malformed_packet_disconnects,
            authorized_keys_reload_successes: self.authorized_keys_reload_successes,
            authorized_keys_reload_failures: self.authorized_keys_reload_failures,
        }
    }
}

fn find_reason(tallies: &Vec<(String, u64)>, reason: &str) -> (r: usize)
    ensures
        r == place_of(by_text(tallies@), reason@),
        r <= tallies@.len(),
{
    let ghost all = by_text(tallies@);
    let mut i: usize = 0;
    while i < tallies.len()
        invariant
            i <= tallies@.len(),
            all == by_text(tallies@),
            forall|j: int| 0 <= j < i ==> (#[trigger] all[j]).0 != reason@,
        decreases tallies.len() - i,
    {
        assert(all[i as int].0 == tallies@[i as int].0@);
        if text::same_str(tallies[i].0.as_str(), reason) {
            proof {
                lemma_place_is(all, reason@, i as nat);
            }
            return i;
        }
        i = i + 1;
    }
    proof {
        lemma_place_is(all, reason@, i as nat);
    }
    i
}

fn find_ip(tallies: &Vec<(IpAddr, u64)>, ip: IpAddr) -> (r: usize)
    ensures
        r == place_of(tallies@, ip),
        r <= tallies@.len(),
{
    let mut i: usize = 0;
    while i < tallies.len()
        invariant
            i <= tallies@.len(),
            forall|j: int| 0 <= j < i ==> (#[trigger] tallies@[j]).0 != ip,
        decreases tallies.len() - i,
    {
        if tallies[i].0 == ip {
            proof {
                lemma_place_is(tallies@, ip, i as nat);
            }
            return i;
        }
        i = i + 1;
    }
    proof {
        lemma_place_is(tallies@, ip, i as nat);
    }
    i
}

impl MetricsSnapshot {
    /// How many connections were turned away for this reason, if any.
    pub fn rejected_for(&self, reason: &str) -> (r: Option<u64>)
        ensures
            r == tally_of(self@.rejected_connections_by_reason, reason@),
    {
        let i = find_reason(&self.rejected_connections_by_reason, reason);
        if i < self.rejected_connections_by_reason.len() {
            Some(self.rejected_connections_by_reason[i].1)
        } else {
            None
        }
    }

    /// How many logins from this address failed, if a tally was kept.
    pub fn auth_failures_of(&self, ip: IpAddr) -> (r: Option<u64>)
        ensures
            r == tally_of(self@.auth_failures_by_ip, ip),
    {
        let i = find_ip(&self.auth_failures_by_ip, ip);
        if i < self.auth_failures_by_ip.len() {
            Some(self.auth_failures_by_ip[i].1)
        } else {
            None
        }
    }
}

/// The daemon's counters.
pub struct ServerMetrics {
    counters: MetricsSnapshot,
    max_auth_failure_ips: usize,
}

impl View for ServerMetrics {
    type V = MetricsView;

    closed spec fn view(&self) -> MetricsView {
        self.counters@
    }
}

impl MetricsView {
    /// The counters at the start.
    pub open spec fn initial() -> MetricsView {
        MetricsView {
            current_unauthenticated_connections: 0,
            rejected_connections_by_reason: Seq::empty(),
            auth_failures_by_ip: Seq::empty(),
            auth_failure_ip_overflow: 0,
            temporary_bans_issued: 0,
            preauth_timeouts: 0,
            malformed_packet_disconnects: 0,
            authorized_keys_reload_successes: 0,
            authorized_keys_reload_failures: 0,
        }
    }

    /// What comes of a failed login.
    pub open spec fn failed(self, peer: Option<IpAddr>, banned: bool, max_ips: nat) -> MetricsView {
        let counted = match peer {
            None => self,
            Some(ip) => if tally_of(self.auth_failures_by_ip, ip) is Some
                || self.auth_failures_by_ip.len() < max_ips {
                MetricsView {
                    auth_failures_by_ip: tallied(self.auth_failures_by_ip, ip),
                    ..self
                }
            } else {
                MetricsView {
                    auth_failure_ip_overflow: bumped(self.auth_failure_ip_overflow),
                    ..self
                }
            },
        };
        if banned {
            MetricsView { temporary_bans_issued: bumped(self.temporary_bans_issued), ..counted }
        } else {
            counted
        }
    }
}

impl ServerMetrics {
    /// The number of addresses that a tally is kept for at most.
    pub closed spec fn max_ips(self) -> nat {
        self.max_auth_failure_ips as nat
    }

    pub fn new(max_auth_failure_ips: usize) -> (r: Self)
        ensures
            r.max_ips() == max_auth_failure_ips,
            r@ == MetricsView::initial(),
    {
        let r = ServerMetrics {
            counters: MetricsSnapshot {
                current_unauthenticated_connections: 0,
                rejected_connections_by_reason: Vec::new(),
                auth_failures_by_ip: Vec::new(),
                auth_failure_ip_overflow: 0,
                temporary_bans_issued: 0,
                preauth_timeouts: 0,
                malformed_packet_disconnects: 0,
                authorized_keys_reload_successes: 0,
                authorized_keys_reload_failures: 0,
            },
            max_auth_failure_ips,
        };
        assert(r@.rejected_connections_by_reason =~= Seq::<(Seq<char>, u64)>::empty());
        r
    }

    pub fn preauth_connection_opened(&mut self)
        ensures
            final(self).max_ips() == old(self).max_ips(),
            final(self)@ == (MetricsView {
                current_unauthenticated_connections: if old(self)@.current_unauthenticated_connections < usize::MAX {
                    (old(self)@.current_unauthenticated_connections + 1) as usize
                } else {
                    0
                },
                ..old(self)@
            }),
    {
        self.counters.current_unauthenticated_connections =
        self.counters.current_unauthenticated_connections.wrapping_add(1);
    }

    pub fn preauth_connection_closed(&mut self)
        ensures
            final(self).max_ips() == old(self).max_ips(),
            final(self)@ == (MetricsView {
                current_unauthenticated_connections: if old(self)@.current_unauthenticated_connections > 0 {
                    (old(self)@.current_unauthenticated_connections - 1) as usize
                } else {
                    0
                },
                ..old(self)@
            }),
    {
        self.counters.current_unauthenticated_connections =
        self.counters.current_unauthenticated_connections.saturating_sub(1);
    }

    pub fn record_rejected_connection(&mut self, reason: &str)
        ensures
            final(self).max_ips() == old(self).max_ips(),
            final(self)@ == (MetricsView {
                rejected_connections_by_reason: tallied(
                    old(self)@.rejected_connections_by_reason,
                    reason@,
                ),
                ..old(self)@
            }),
    {
        let ghost before = self@.rejected_connections_by_reason;
        let i = find_reason(&self.counters.rejected_connections_by_reason, reason);
        let name = String::from_str(reason);
        if i < self.counters.rejected_connections_by_reason.len() {
            let count: u64 = self.counters.rejected_connections_by_reason[i].1;
            self.counters.rejected_connections_by_reason.set(i, (name, count.wrapping_add(1)));
        } else {
            self.counters.rejected_connections_by_reason.push((name, 1));
        }
        assert(self@.rejected_connections_by_reason =~= tallied(before, reason@));
    }

    pub fn record_auth_failure(&mut self, peer_ip: Option<IpAddr>, temporary_ban_issued: bool)
        ensures
            final(self).max_ips() == old(self).max_ips(),
            final(self)@ == old(self)@.failed(peer_ip, temporary_ban_issued, old(self).max_ips()),
    {
        match peer_ip {
            Some(ip) => {
                let ghost before = self@.auth_failures_by_ip;
                let i = find_ip(&self.counters.auth_failures_by_ip, ip);
                if i < self.counters.auth_failures_by_ip.len() {
                    let count: u64 = self.counters.auth_failures_by_ip[i].1;
                    self.counters.auth_failures_by_ip.set(i, (ip, count.wrapping_add(1)));
                    assert(self@.auth_failures_by_ip =~= tallied(before, ip));
                } else if self.counters.auth_failures_by_ip.len() < self.max_auth_failure_ips {
                    self.counters.auth_failures_by_ip.push((ip, 1));
                    assert(self@.auth_failures_by_ip =~= tallied(before, ip));
                } else {
                    self.counters.auth_failure_ip_overflow =
                    self.counters.auth_failure_ip_overflow.wrapping_add(1);
                }
            },
            None => {},
        }
        if temporary_ban_issued {
            self.counters.temporary_bans_issued =
            self.counters.temporary_bans_issued.wrapping_add(1);
        }
    }

    pub fn record_preauth_timeout(&mut self)
        ensures
            final(self).max_ips() == old(self).max_ips(),
            final(self)@ == (MetricsView {
                preauth_timeouts: bumped(old(self)@.preauth_timeouts),
                ..old(self)@
            }),
    {
        self.counters.preauth_timeouts = self.counters.preauth_timeouts.wrapping_add(1);
    }

    pub fn record_malformed_disconnect(&mut self)
        ensures
            final(self).max_ips() == old(self).max_ips(),
            final(self)@ == (MetricsView {
                malformed_packet_disconnects: bumped(old(self)@.malformed_packet_disconnects),
                ..old(self)@
            }),
    {
        self.counters.malformed_packet_disconnects =
        self.counters.malformed_packet_disconnects.wrapping_add(1);
    }

    pub fn record_cache_reload_success(&mut self)
        ensures
            final(self).max_ips() == old(self).max_ips(),
            final(self)@ == (MetricsView {
                authorized_keys_reload_successes: bumped(
                    old(self)@.authorized_keys_reload_successes,
                ),
                ..old(self)@
            }),
    {
        self.counters.authorized_keys_reload_successes =
        self.counters.authorized_keys_reload_successes.wrapping_add(1);
    }

    pub fn record_cache_reload_failure(&mut self)
        ensures
            final(self).max_ips() == old(self).max_ips(),
            final(self)@ == (MetricsView {
                authorized_keys_reload_failures: bumped(
                    old(self)@.authorized_keys_reload_failures,
                ),
                ..old(self)@
            }),
    {
        self.counters.authorized_keys_reload_failures =
        self.counters.authorized_keys_reload_failures.wrapping_add(1);
    }

    pub fn snapshot(&self) -> (r: MetricsSnapshot)
        ensures
            r@ == self@,
    {
        let reasons = &self.counters.rejected_connections_by_reason;
        let mut rejected: Vec<(String, u64)> = Vec::new();
        let mut i: usize = 0;
        while i < reasons.len()
            invariant
                i <= reasons@.len(),
                rejected@.len() == i,
                forall|j: int|
                    0 <= j < i ==> (#[trigger] rejected@[j]).0@ == reasons@[j].0@ && rejected@[j].1
                        == reasons@[j].1,
            decreases reasons.len() - i,
        {
            rejected.push((String::from_str(reasons[i].0.as_str()), reasons[i].1));
            i = i + 1;
        }
        assert(by_text(rejected@) =~= by_text(reasons@));
        let tallies = &self.counters.auth_failures_by_ip;
        let mut failures: Vec<(IpAddr, u64)> = Vec::new();
        let mut k: usize = 0;
        while k < tallies.len()
            invariant
                k <= tallies@.len(),
                failures@ == tallies@.take(k as int),
            decreases tallies.len() - k,
        {
            failures.push((tallies[k].0, tallies[k].1));
            assert(failures@ =~= tallies@.take(k + 1));
            k = k + 1;
        }
        assert(failures@ =~= tallies@);
        MetricsSnapshot {
            current_unauthenticated_connections: self.counters.current_unauthenticated_connections,
            rejected_connections_by_reason: rejected,
            auth_failures_by_ip: failures,
            auth_failure_ip_overflow: self.counters.auth_failure_ip_overflow,
            temporary_bans_issued: self.counters.temporary_bans_issued,
            preauth_timeouts: self.counters.preauth_timeouts,
            malformed_packet_disconnects: self.counters.malformed_packet_disconnects,
            authorized_keys_reload_successes: self.counters.authorized_keys_reload_successes,
            authorized_keys_reload_failures: self.counters.authorized_keys_reload_failures,
        }
    }
}

/// The sum of all tallies.
pub open spec fn sum<K>(tallies: Seq<(K, u64)>) -> nat
    decreases tallies.len(),
{
    if tallies.len() == 0 {
        0
    } else {
        sum(tallies.drop_last()) + tallies.last().1 as nat
    }
}

proof fn lemma_sum_update<K>(tallies: Seq<(K, u64)>, i: int, t: (K, u64))
    requires
        0 <= i < tallies.len(),
    ensures
        sum(tallies.update(i, t)) == sum(tallies) - tallies[i].1 + t.1,
    decreases tallies.len(),
{
    let next = tallies.update(i, t);
    if i == tallies.len() - 1 {
        assert(next.drop_last() =~= tallies.drop_last());
    } else {
        assert(next.drop_last() =~= tallies.drop_last().update(i, t));
        lemma_sum_update(tallies.drop_last(), i, t);
    }
}

/// However many addresses fail to log in, tallies are kept for no more of them
/// than the limit says.
pub proof fn law_tallied_addresses_are_bounded(
    m: MetricsView,
    peer: Option<IpAddr>,
    banned: bool,
    max_ips: nat,
)
    requires
        m.auth_failures_by_ip.len() <= max_ips,
    ensures
        m.failed(peer, banned, max_ips).auth_failures_by_ip.len() <= max_ips,
{
}

/// Every failed login from a known address is counted once: in the tally of
/// its address or as overflow.
pub proof fn law_every_failure_is_counted(
    m: MetricsView,
    ip: IpAddr,
    banned: bool,
    max_ips: nat,
)
    requires
        m.auth_failure_ip_overflow < u64::MAX,
        forall|i: int|
            0 <= i < m.auth_failures_by_ip.len() ==> (#[trigger] m.auth_failures_by_ip[i]).1
                < u64::MAX,
    ensures
        ({
            let after = m.failed(Some(ip), banned, max_ips);
            sum(after.auth_failures_by_ip) + after.auth_failure_ip_overflow == sum(
                m.auth_failures_by_ip,
            ) + m.auth_failure_ip_overflow + 1
        }),
{
    let tallies = m.auth_failures_by_ip;
    lemma_place_of(tallies, ip);
    let i = place_of(tallies, ip) as int;
    if i < tallies.len() {
        lemma_sum_update(tallies, i, (ip, bumped(tallies[i].1)));
    } else {
        assert(tallies.push((ip, 1u64)).drop_last() =~= tallies);
    }
}

/// A failed login, as it is reported to the counters.
pub struct FailureReport {
    pub peer: Option<IpAddr>,
    pub banned: bool,
}

/// The counters after these reports.
pub open spec fn metrics_after(reports: Seq<FailureReport>, max_ips: nat) -> MetricsView
    decreases reports.len(),
{
    if reports.len() == 0 {
        MetricsView::initial()
    } else {
        metrics_after(reports.drop_last(), max_ips).failed(
            reports.last().peer,
            reports.last().banned,
            max_ips,
        )
    }
}

/// How many of the reports name an address.
pub open spec fn with_address(reports: Seq<FailureReport>) -> nat
    decreases reports.len(),
{
    if reports.len() == 0 {
        0
    } else {
        with_address(reports.drop_last()) + if reports.last().peer is Some {
            1nat
        } else {
            0
        }
    }
}

/// How many of the reports tell of a ban.
pub open spec fn with_ban(reports: Seq<FailureReport>) -> nat
    decreases reports.len(),
{
    if reports.len() == 0 {
        0
    } else {
        with_ban(reports.drop_last()) + if reports.last().banned {
            1nat
        } else {
            0
        }
    }
}

/// How many of the reports are about `ip`.
pub open spec fn reports_of(reports: Seq<FailureReport>, ip: IpAddr) -> nat
    decreases reports.len(),
{
    if reports.len() == 0 {
        0
    } else {
        reports_of(reports.drop_last(), ip) + if reports.last().peer == Some(ip) {
            1nat
        } else {
            0
        }
    }
}

proof fn lemma_tally_in_sum<K>(tallies: Seq<(K, u64)>, i: int)
    requires
        0 <= i < tallies.len(),
    ensures
        tallies[i].1 <= sum(tallies),
    decreases tallies.len(),
{
    if i < tallies.len() - 1 {
        lemma_tally_in_sum(tallies.drop_last(), i);
    }
}

proof fn lemma_tallies_below<K>(tallies: Seq<(K, u64)>, n: nat)
    requires
        sum(tallies) < n,
    ensures
        forall|i: int| 0 <= i < tallies.len() ==> (#[trigger] tallies[i]).1 < n,
{
    assert forall|i: int| 0 <= i < tallies.len() implies (#[trigger] tallies[i]).1 < n by {
        lemma_tally_in_sum(tallies, i);
    }
}

/// Over any course of failed logins, as far as the counters reach: tallies are
/// kept for no more addresses than the limit says, the tallies and the overflow
/// together count every report with an address, and the bans are those reported.
pub proof fn law_failures_add_up(reports: Seq<FailureReport>, max_ips: nat)
    requires
        reports.len() <= u64::MAX,
    ensures
        ({
            let m = metrics_after(reports, max_ips);
            &&& m.auth_failures_by_ip.len() <= max_ips
            &&& sum(m.auth_failures_by_ip) + m.auth_failure_ip_overflow == with_address(reports)
            &&& m.temporary_bans_issued == with_ban(reports)
            &&& with_address(reports) <= reports.len()
            &&& with_ban(reports) <= reports.len()
        }),
    decreases reports.len(),
{
    if reports.len() > 0 {
        let before = reports.drop_last();
        law_failures_add_up(before, max_ips);
        let m = metrics_after(before, max_ips);
        lemma_tallies_below(m.auth_failures_by_ip, u64::MAX as nat);
        match reports.last().peer {
            Some(ip) => {
                law_every_failure_is_counted(m, ip, reports.last().banned, max_ips);
            },
            None => {},
        }
    }
}

proof fn lemma_tallied<K>(tallies: Seq<(K, u64)>, key: K, other: K)
    requires
        tally_of(tallies, key) matches Some(count) ==> count < u64::MAX,
    ensures
        tally_of(tallied(tallies, key), key) == Some(
            (tally_of(tallies, key).unwrap_or(0) + 1) as u64,
        ),
        other != key ==> tally_of(tallied(tallies, key), other) == tally_of(tallies, other),
{
    lemma_place_of(tallies, key);
    lemma_place_of(tallies, other);
    let next = tallied(tallies, key);
    let i = place_of(tallies, key);
    lemma_place_is(next, key, i);
    if other != key {
        let j = place_of(tallies, other);
        if j < tallies.len() {
            lemma_place_is(next, other, j);
        } else {
            lemma_place_is(next, other, next.len());
        }
    }
}

/// An address that a tally is kept for keeps it, and each of its failed logins
/// from there on is counted in it.
pub proof fn law_tallied_address_stays(
    reports: Seq<FailureReport>,
    max_ips: nat,
    ip: IpAddr,
    n: int,
)
    requires
        reports.len() <= u64::MAX,
        0 <= n <= reports.len(),
        tally_of(metrics_after(reports.take(n), max_ips).auth_failures_by_ip, ip) is Some,
    ensures
        tally_of(metrics_after(reports, max_ips).auth_failures_by_ip, ip) matches Some(count)
            && count == tally_of(
            metrics_after(reports.take(n), max_ips).auth_failures_by_ip,
            ip,
        )->Some_0 + reports_of(reports.skip(n), ip),
    decreases reports.len(),
{
    if n == reports.len() {
        assert(reports.take(n) =~= reports);
        assert(reports.skip(n).len() == 0);
    } else {
        let before = reports.drop_last();
        assert(before.take(n) =~= reports.take(n));
        assert(before.skip(n) =~= reports.skip(n).drop_last());
        law_tallied_address_stays(before, max_ips, ip, n);
        let m = metrics_after(before, max_ips);
        law_failures_add_up(before, max_ips);
        lemma_tallies_below(m.auth_failures_by_ip, u64::MAX as nat);
        match reports.last().peer {
            Some(peer) => {
                lemma_tallied(m.auth_failures_by_ip, peer, ip);
            },
            None => {},
        }
    }
}

/// Each event is counted in its own counter, once, and in no other; a connection
/// that closes is taken off again.
pub proof fn law_events_are_counted_in_their_own_counter(
    opened: &mut ServerMetrics,
    closed: &mut ServerMetrics,
    timeout: &mut ServerMetrics,
    malformed: &mut ServerMetrics,
    success: &mut ServerMetrics,
    failure: &mut ServerMetrics,
)
    requires
        call_ensures(ServerMetrics::preauth_connection_opened, (opened,), ()),
        call_ensures(ServerMetrics::preauth_connection_closed, (closed,), ()),
        call_ensures(ServerMetrics::record_preauth_timeout, (timeout,), ()),
        call_ensures(ServerMetrics::record_malformed_disconnect, (malformed,), ()),
        call_ensures(ServerMetrics::record_cache_reload_success, (success,), ()),
        call_ensures(ServerMetrics::record_cache_reload_failure, (failure,), ()),
    ensures
        old(opened)@.current_unauthenticated_connections < usize::MAX ==> final(opened)@ == (
        MetricsView {
            current_unauthenticated_connections: (old(opened)@.current_unauthenticated_connections
                + 1) as usize,
            ..old(opened)@
        }),
        old(closed)@.current_unauthenticated_connections > 0 ==> final(closed)@ == (MetricsView {
            current_unauthenticated_connections: (old(closed)@.current_unauthenticated_connections
                - 1) as usize,
            ..old(closed)@
        }),
        old(closed)@.current_unauthenticated_connections == 0 ==> final(closed)@ == old(closed)@,
        old(timeout)@.preauth_timeouts < u64::MAX ==> final(timeout)@ == (MetricsView {
            preauth_timeouts: (old(timeout)@.preauth_timeouts + 1) as u64,
            ..old(timeout)@
        }),
        old(malformed)@.malformed_packet_disconnects < u64::MAX ==> final(malformed)@ == (
        MetricsView {
            malformed_packet_disconnects: (old(malformed)@.malformed_packet_disconnects + 1) as u64,
            ..old(malformed)@
        }),
        old(success)@.authorized_keys_reload_successes < u64::MAX ==> final(success)@ == (
        MetricsView {
            authorized_keys_reload_successes: (old(success)@.authorized_keys_reload_successes
                + 1) as u64,
            ..old(success)@
        }),
        old(failure)@.authorized_keys_reload_failures < u64::MAX ==> final(failure)@ == (
        MetricsView {
            authorized_keys_reload_failures: (old(failure)@.authorized_keys_reload_failures
                + 1) as u64,
            ..old(failure)@
        }),
{
}

/// A connection that is turned away is counted under its reason, and no other
/// reason's count changes.
pub proof fn law_refusals_are_counted_by_reason(
    metrics: &mut ServerMetrics,
    reason: &str,
    other: Seq<char>,
)
    requires
        call_ensures(ServerMetrics::record_rejected_connection, (metrics, reason), ()),
        tally_of(old(metrics)@.rejected_connections_by_reason, reason@) matches Some(n) ==> n
            < u64::MAX,
    ensures
        tally_of(final(metrics)@.rejected_connections_by_reason, reason@) == Some(
            match tally_of(old(metrics)@.rejected_connections_by_reason, reason@) {
                Some(n) => (n + 1) as u64,
                None => 1u64,
            },
        ),
        other != reason@ ==> tally_of(final(metrics)@.rejected_connections_by_reason, other)
            == tally_of(old(metrics)@.rejected_connections_by_reason, other),
        final(metrics)@.auth_failures_by_ip == old(metrics)@.auth_failures_by_ip,
        final(metrics)@.preauth_timeouts == old(metrics)@.preauth_timeouts,
        final(metrics)@.temporary_bans_issued == old(metrics)@.temporary_bans_issued,
{
    lemma_tallied(old(metrics)@.rejected_connections_by_reason, reason@, other);
}

/// A failed login is counted under its address if that has a count or there is
/// room for one more, else as overflow; one from nowhere known is counted under
/// none. A ban that it brings on is counted too.
pub proof fn law_failures_are_counted_by_address(
    metrics: &mut ServerMetrics,
    peer: Option<IpAddr>,
    banned: bool,
    other: IpAddr,
)
    requires
        call_ensures(ServerMetrics::record_auth_failure, (metrics, peer, banned), ()),
        peer is Some ==> (tally_of(old(metrics)@.auth_failures_by_ip, peer->0) matches Some(n) ==> n
            < u64::MAX),
        old(metrics)@.temporary_bans_issued < u64::MAX,
        old(metrics)@.auth_failure_ip_overflow < u64::MAX,
    ensures
        ({
            let before = old(metrics)@;
            let after = final(metrics)@;
            let room = before.auth_failures_by_ip.len() < old(metrics).max_ips();
            &&& peer matches Some(ip) ==> match tally_of(before.auth_failures_by_ip, ip) {
                Some(n) => tally_of(after.auth_failures_by_ip, ip) == Some((n + 1) as u64)
                    && after.auth_failure_ip_overflow == before.auth_failure_ip_overflow,
                None => if room {
                    tally_of(after.auth_failures_by_ip, ip) == Some(1u64)
                        && after.auth_failure_ip_overflow == before.auth_failure_ip_overflow
                } else {
                    after.auth_failures_by_ip == before.auth_failures_by_ip
                        && after.auth_failure_ip_overflow == before.auth_failure_ip_overflow + 1
                },
            }
            &&& peer != Some(other) ==> tally_of(after.auth_failures_by_ip, other) == tally_of(
                before.auth_failures_by_ip,
                other,
            )
            &&& peer is None ==> after.auth_failures_by_ip == before.auth_failures_by_ip
                && after.auth_failure_ip_overflow == before.auth_failure_ip_overflow
            &&& after.temporary_bans_issued == before.temporary_bans_issued + (if banned {
                1int
            } else {
                0
            })
            &&& after.preauth_timeouts == before.preauth_timeouts
            &&& after.rejected_connections_by_reason == before.rejected_connections_by_reason
        }),
{
    if let Some(ip) = peer {
        lemma_tallied(old(metrics)@.auth_failures_by_ip, ip, other);
    }
}

/// A snapshot shows the counters as they are, and what it tells of a reason or
/// an address is that one's count.
pub proof fn law_snapshot_shows_the_counters(
    metrics: &ServerMetrics,
    snapshot: MetricsSnapshot,
    reason: &str,
    refused: Option<u64>,
    ip: IpAddr,
    failed: Option<u64>,
)
    requires
        call_ensures(ServerMetrics::snapshot, (metrics,), snapshot),
        call_ensures(MetricsSnapshot::rejected_for, (&snapshot, reason), refused),
        call_ensures(MetricsSnapshot::auth_failures_of, (&snapshot, ip), failed),
    ensures
        snapshot.current_unauthenticated_connections
            == metrics@.current_unauthenticated_connections,
        snapshot.auth_failure_ip_overflow == metrics@.auth_failure_ip_overflow,
        snapshot.temporary_bans_issued == metrics@.temporary_bans_issued,
        snapshot.preauth_timeouts == metrics@.preauth_timeouts,
        snapshot.malformed_packet_disconnects == metrics@.malformed_packet_disconnects,
        snapshot.authorized_keys_reload_successes == metrics@.authorized_keys_reload_successes,
        snapshot.authorized_keys_reload_failures == metrics@.authorized_keys_reload_failures,
        refused is None ==> forall|i: int|
            0 <= i < metrics@.rejected_connections_by_reason.len() ==> (
            #[trigger] metrics@.rejected_connections_by_reason[i]).0 != reason@,
        refused matches Some(n) ==> metrics@.rejected_connections_by_reason.contains((reason@, n)),
        failed is None ==> forall|i: int|
            0 <= i < metrics@.auth_failures_by_ip.len() ==> (
            #[trigger] metrics@.auth_failures_by_ip[i]).0 != ip,
        failed matches Some(n) ==> metrics@.auth_failures_by_ip.contains((ip, n)),
{
    lemma_place_of(metrics@.rejected_connections_by_reason, reason@);
    lemma_place_of(metrics@.auth_failures_by_ip, ip);
    if refused is Some {
        let i = place_of(metrics@.rejected_connections_by_reason, reason@) as int;
        assert(metrics@.rejected_connections_by_reason[i] == (reason@, refused->0));
    }
    if failed is Some {
        let i = place_of(metrics@.auth_failures_by_ip, ip) as int;
        assert(metrics@.auth_failures_by_ip[i] == (ip, failed->0));
    }
}

/// At the start nothing has been counted.
pub proof fn law_counters_start_at_zero(
    max: usize,
    metrics: ServerMetrics,
    reason: Seq<char>,
    ip: IpAddr,
)
    requires
        call_ensures(ServerMetrics::new, (max,), metrics),
    ensures
        metrics.max_ips() == max,
        metrics@.current_unauthenticated_connections == 0,
        metrics@.preauth_timeouts == 0,
        metrics@.malformed_packet_disconnects == 0,
        metrics@.temporary_bans_issued == 0,
        metrics@.auth_failure_ip_overflow == 0,
        metrics@.authorized_keys_reload_successes == 0,
        metrics@.authorized_keys_reload_failures == 0,
        tally_of(metrics@.rejected_connections_by_reason, reason) is None,
        tally_of(metrics@.auth_failures_by_ip, ip) is None,
{
}

} // verus!
