//! Limits how often the same kind of message about the same peer is logged.
use vstd::prelude::*;

use crate::net::IpAddr;
use crate::text;
use crate::time;
use crate::time::{Duration, Instant};

verus! {

/// What a message is about: messages with the same key count as repetitions.
#[derive(Clone, Copy, Debug)]
pub struct LogKey {
    pub peer_ip: Option<IpAddr>,
    pub category: &'static str,
}

impl View for LogKey {
    type V = (Option<IpAddr>, Seq<char>);

    open spec fn view(&self) -> (Option<IpAddr>, Seq<char>) {
        (self.peer_ip, self.category@)
    }
}

impl LogKey {
    fn same(&self, other: &LogKey) -> (r: bool)
        ensures
            r == (self@ == other@),
    {
        let same_peer = match (self.peer_ip, other.peer_ip) {
            (Some(a), Some(b)) => a == b,
            (None, None) => true,
            _ => false,
        };
        same_peer && text::same_str(self.category, other.category)
    }
}

/// What is to be done with a message.
#[derive(Clone, Copy, Debug, PartialEq, Eq, Structural)]
pub enum LogDecision {
    /// It is logged; so many like it have been left out before.
    Emit { suppressed: usize },
    /// It is left out.
    Suppress,
}

/// What is remembered of the messages with one key.
pub struct LogRecordView {
    pub key: (Option<IpAddr>, Seq<char>),
    pub last_emitted_at: Instant,
    pub suppressed: usize,
}

struct LogEntry {
    key: LogKey,
    last_emitted_at: Instant,
    suppressed: usize,
}

impl View for LogEntry {
    type V = LogRecordView;

    closed spec fn view(&self) -> LogRecordView {
        LogRecordView {
            key: self.key@,
            last_emitted_at: self.last_emitted_at,
            suppressed: self.suppressed,
        }
    }
}

/// What the limiter holds: one record per key, in the order in which the keys
/// came up.
pub struct LimiterView {
    pub window: Duration,
    pub max_entries: usize,
    pub records: Seq<LogRecordView>,
    pub last_cleanup: Instant,
}

/// Where the record of `key` stands; the number of records if it has none.
pub open spec fn place_of(
    records: Seq<LogRecordView>,
    key: (Option<IpAddr>, Seq<char>),
) -> nat
    decreases records.len(),
{
    if records.len() == 0 || records[0].key == key {
        0
    } else {
        1 + place_of(records.skip(1), key)
    }
}

/// The records that are no older than `span`.
pub open spec fn kept(
    records: Seq<LogRecordView>,
    span: nat,
    now: Instant,
) -> Seq<LogRecordView>
    decreases records.len(),
{
    if records.len() == 0 {
        records
    } else {
        let rest = kept(records.drop_last(), span, now);
        if time::elapsed(records.last().last_emitted_at, now) <= span {
            rest.push(records.last())
        } else {
            rest
        }
    }
}

/// The place of the oldest of the first `n` records, the first such place.
pub open spec fn oldest_of(records: Seq<LogRecordView>, n: nat) -> nat
    decreases n,
{
    if n <= 1 {
        0
    } else {
        let before = oldest_of(records, (n - 1) as nat);
        if records[n - 1].last_emitted_at.nanos < records[before as int].last_emitted_at.nanos {
            (n - 1) as nat
        } else {
            before
        }
    }
}

/// The records that are left when the oldest one is dropped until there are no
/// more than `max`.
pub open spec fn evicted(records: Seq<LogRecordView>, max: nat) -> Seq<LogRecordView>
    decreases records.len(),
{
    if records.len() <= max {
        records
    } else {
        let i = oldest_of(records, records.len()) as int;
        if 0 <= i < records.len() {
            evicted(records.remove(i), max)
        } else {
            records
        }
    }
}

impl LimiterView {
    /// Whether the records are due to be cleaned up.
    pub open spec fn cleanup_due(self, now: Instant) -> bool {
        self.records.len() > self.max_entries || time::elapsed(self.last_cleanup, now)
            >= self.window.total()
    }

    /// The limiter once it has cleaned up what is due: records that are older
    /// than two windows go, then the oldest ones that are too many.
    pub open spec fn cleaned(self, now: Instant) -> LimiterView {
        if self.cleanup_due(now) {
            LimiterView {
                records: evicted(
                    kept(self.records, 2 * self.window.total(), now),
                    self.max_entries as nat,
                ),
                last_cleanup: now,
                ..self
            }
        } else {
            self
        }
    }

    /// What comes of a message: the limiter after it, and what is to be done.
    pub open spec fn checked(self, key: (Option<IpAddr>, Seq<char>), now: Instant) -> (
        LimiterView,
        LogDecision,
    ) {
        let s = self.cleaned(now);
        let i = place_of(s.records, key) as int;
        if i >= s.records.len() {
            (
                LimiterView {
                    records: s.records.push(
                        LogRecordView { key, last_emitted_at: now, suppressed: 0 },
                    ),
                    ..s
                },
                LogDecision::Emit { suppressed: 0 },
            )
        } else {
            let record = s.records[i];
            if time::elapsed(record.last_emitted_at, now) >= s.window.total() {
                (
                    LimiterView {
                        records: s.records.update(
                            i,
                            LogRecordView { key: record.key, last_emitted_at: now, suppressed: 0 },
                        ),
                        ..s
                    },
                    LogDecision::Emit { suppressed: record.suppressed },
                )
            } else {
                (
                    LimiterView {
                        records: s.records.update(
                            i,
                            LogRecordView {
                                suppressed: if record.suppressed < usize::MAX {
                                    (record.suppressed + 1) as usize
                                } else {
                                    usize::MAX
                                },
                                ..record
                            },
                        ),
                        ..s
                    },
                    LogDecision::Suppress,
                )
            }
        }
    }
}

/// Whether no key has two records.
pub open spec fn distinct_keys(records: Seq<LogRecordView>) -> bool {
    forall|i: int, j: int| 0 <= i < j < records.len() ==> records[i].key != records[j].key
}

/// Whether there is a record of `key`.
pub open spec fn remembered(
    records: Seq<LogRecordView>,
    key: (Option<IpAddr>, Seq<char>),
) -> bool {
    exists|i: int| 0 <= i < records.len() && (#[trigger] records[i]).key == key
}

/// Whether no record is from later than `now`.
pub open spec fn none_later(records: Seq<LogRecordView>, now: Instant) -> bool {
    forall|i: int|
        0 <= i < records.len() ==> (#[trigger] records[i]).last_emitted_at.nanos <= now.nanos
}

/// Whether no record is older than `span`.
pub open spec fn none_older(records: Seq<LogRecordView>, span: nat, now: Instant) -> bool {
    forall|i: int|
        0 <= i < records.len() ==> time::elapsed((#[trigger] records[i]).last_emitted_at, now)
            <= span
}

/// Whether `after` is what a cleanup may leave of the records `before`: no more
/// than `max`, each as it was, and none that was dropped is newer than one that
/// was kept.
pub open spec fn keeps_the_newest(
    before: Seq<LogRecordView>,
    after: Seq<LogRecordView>,
    max: nat,
) -> bool {
    &&& after.len() <= max
    &&& forall|j: int| 0 <= j < after.len() ==> before.contains(#[trigger] after[j])
    &&& forall|i: int, j: int|
        0 <= i < before.len() && !after.contains(#[trigger] before[i]) && 0 <= j < after.len()
            ==> before[i].last_emitted_at.nanos <= (#[trigger] after[j]).last_emitted_at.nanos
}

/// Decides which messages are logged.
pub struct LogLimiter {
    window: Duration,
    max_entries: usize,
    entries: Vec<LogEntry>,
    last_cleanup: Instant,
}

spec fn records_of(entries: Seq<LogEntry>) -> Seq<LogRecordView> {
    entries.map_values(|e: LogEntry| e@)
}

impl View for LogLimiter {
    type V = LimiterView;

    closed spec fn view(&self) -> LimiterView {
        LimiterView {
            window: self.window,
            max_entries: self.max_entries,
            records: records_of(self.entries@),
            last_cleanup: self.last_cleanup,
        }
    }
}

proof fn lemma_place_of(records: Seq<LogRecordView>, key: (Option<IpAddr>, Seq<char>))
    ensures
        place_of(records, key) <= records.len(),
        place_of(records, key) < records.len() ==> records[place_of(records, key) as int].key
            == key,
        forall|j: int| 0 <= j < place_of(records, key) ==> records[j].key != key,
    decreases records.len(),
{
    if records.len() > 0 && records[0].key != key {
        let rest = records.skip(1);
        lemma_place_of(rest, key);
        assert forall|j: int| 0 <= j < place_of(records, key) implies records[j].key != key by {
            if j > 0 {
                assert(records[j] == rest[j - 1]);
            }
        }
    }
}

proof fn lemma_place_is(records: Seq<LogRecordView>, key: (Option<IpAddr>, Seq<char>), i: nat)
    requires
        i <= records.len(),
        forall|j: int| 0 <= j < i ==> records[j].key != key,
        i < records.len() ==> records[i as int].key == key,
    ensures
        place_of(records, key) == i,
{
    lemma_place_of(records, key);
}

proof fn lemma_oldest_of(records: Seq<LogRecordView>, n: nat)
    requires
        0 < n <= records.len(),
    ensures
        oldest_of(records, n) < n,
        forall|j: int|
            0 <= j < n ==> records[oldest_of(records, n) as int].last_emitted_at.nanos <= (
            #[trigger] records[j]).last_emitted_at.nanos,
    decreases n,
{
    if n > 1 {
        lemma_oldest_of(records, (n - 1) as nat);
    }
}

impl LogLimiter {
    pub fn new(window: Duration, max_entries: usize, now: Instant) -> (r: Self)
        ensures
            r@ == (LimiterView { window, max_entries, records: Seq::empty(), last_cleanup: now }),
            distinct_keys(r@.records),
    {
        let r = LogLimiter { window, max_entries, entries: Vec::new(), last_cleanup: now };
        assert(r@.records =~= Seq::<LogRecordView>::empty());
        r
    }

    pub fn window(&self) -> (r: Duration)
        ensures
            r == self@.window,
    {
        self.window
    }

    /// How many keys are remembered.
    pub fn len(&self) -> (r: usize)
        ensures
            r == self@.records.len(),
    {
        self.entries.len()
    }

    fn find(&self, key: &LogKey) -> (r: usize)
        ensures
            r == place_of(self@.records, key@),
            r <= self@.records.len(),
    {
        let ghost records = self@.records;
        let mut i: usize = 0;
        while i < self.entries.len()
            invariant
                i <= self.entries@.len(),
                records == records_of(self.entries@),
                forall|j: int| 0 <= j < i ==> records[j].key != key@,
            decreases self.entries.len() - i,
        {
            assert(records[i as int] == self.entries@[i as int]@);
            if self.entries[i].key.same(key) {
                proof {
                    lemma_place_is(records, key@, i as nat);
                }
                return i;
            }
            i = i + 1;
        }
        proof {
            lemma_place_is(records, key@, i as nat);
        }
        i
    }

    /// Whether a key is remembered.
    pub fn contains(&self, key: &LogKey) -> (r: bool)
        ensures
            r == remembered(self@.records, key@),
    {
        let i = self.find(key);
        proof {
            lemma_place_of(self@.records, key@);
        }
        i < self.entries.len()
    }

    fn drop_old(&mut self, now: Instant)
        ensures
            final(self)@ == (LimiterView {
                records: kept(old(self)@.records, 2 * old(self)@.window.total(), now),
                ..old(self)@
            }),
    {
        let ghost all = self@.records;
        let span: u128 = 2 * self.window.as_nanos();
        let mut fresh: Vec<LogEntry> = Vec::new();
        let mut i: usize = 0;
        assert(records_of(fresh@) =~= kept(all.take(0), span as nat, now));
        while i < self.entries.len()
            invariant
                i <= self.entries@.len(),
                all == records_of(self.entries@),
                records_of(fresh@) == kept(all.take(i as int), span as nat, now),
            decreases self.entries.len() - i,
        {
            assert(all[i as int] == self.entries@[i as int]@);
            assert(all.take(i + 1).drop_last() =~= all.take(i as int));
            assert(all.take(i + 1).last() == all[i as int]);
            let entry = &self.entries[i];
            let ghost before = fresh@;
            if now.nanos_since(entry.last_emitted_at) as u128 <= span {
                fresh.push(
                    LogEntry {
                        key: entry.key,
                        last_emitted_at: entry.last_emitted_at,
                        suppressed: entry.suppressed,
                    },
                );
                assert(records_of(fresh@) =~= records_of(before).push(all[i as int]));
            }
            i = i + 1;
        }
        assert(all.take(all.len() as int) =~= all);
        self.entries = fresh;
    }

    fn evict_oldest(&mut self)
        requires
            old(self)@.records.len() > 0,
        ensures
            final(self)@ == (LimiterView {
                records: old(self)@.records.remove(
                    oldest_of(old(self)@.records, old(self)@.records.len()) as int,
                ),
                ..old(self)@
            }),
            oldest_of(old(self)@.records, old(self)@.records.len()) < old(self)@.records.len(),
    {
        let ghost all = self@.records;
        let mut oldest: usize = 0;
        let mut i: usize = 1;
        while i < self.entries.len()
            invariant
                1 <= i <= self.entries@.len(),
                oldest < i,
                all == records_of(self.entries@),
                oldest == oldest_of(all, i as nat),
            decreases self.entries.len() - i,
        {
            assert(all[i as int] == self.entries@[i as int]@);
            assert(all[oldest as int] == self.entries@[oldest as int]@);
            if self.entries[i].last_emitted_at.nanos < self.entries[oldest].last_emitted_at.nanos {
                oldest = i;
            }
            i = i + 1;
        }
        self.entries.remove(oldest);
        assert(self@.records =~= all.remove(oldest as int));
    }

    /// Forgets what is due to be forgotten: records that are older than two
    /// windows, then the oldest ones that are too many.
    pub fn maybe_cleanup(&mut self, now: Instant)
        ensures
            final(self)@ == old(self)@.cleaned(now),
            distinct_keys(old(self)@.records) ==> distinct_keys(final(self)@.records),
            distinct_keys(old(self)@.records) && none_later(old(self)@.records, now)
                ==> keeps_the_newest(
                old(self)@.records,
                final(self)@.records,
                old(self)@.max_entries as nat,
            ),
            distinct_keys(old(self)@.records) && old(self)@.records.len() <= old(self)@.max_entries
                && none_older(old(self)@.records, 2 * old(self)@.window.total(), now)
                ==> final(self)@.records == old(self)@.records,
    {
        proof {
            let s = self@;
            if distinct_keys(s.records) {
                lemma_cleaned(s, now);
                if none_later(s.records, now) {
                    law_cleanup_drops_the_oldest(s, now);
                }
                if s.records.len() <= s.max_entries && none_older(
                    s.records,
                    2 * s.window.total(),
                    now,
                ) {
                    law_cleanup_keeps_what_it_can(s, now);
                }
            }
        }
        if self.entries.len() <= self.max_entries && (now.nanos_since(self.last_cleanup) as u128)
            < self.window.as_nanos() {
            return;
        }
        self.drop_old(now);
        self.last_cleanup = now;
        let ghost start = self@;
        while self.entries.len() > self.max_entries
            invariant
                start.max_entries == self.max_entries,
                self@ == (LimiterView { records: self@.records, ..start }),
                evicted(start.records, start.max_entries as nat) == evicted(
                    self@.records,
                    start.max_entries as nat,
                ),
            decreases self.entries@.len(),
        {
            self.evict_oldest();
        }
    }

    /// Decides on a message.
    pub fn check_at(&mut self, key: LogKey, now: Instant) -> (r: LogDecision)
        ensures
            (final(self)@, r) == old(self)@.checked(key@, now),
            distinct_keys(old(self)@.records) ==> distinct_keys(final(self)@.records),
    {
        proof {
            if distinct_keys(self@.records) {
                lemma_checked_distinct(self@, key@, now);
            }
        }
        self.maybe_cleanup(now);
        let ghost s = self@;
        let i = self.find(&key);
        if i >= self.entries.len() {
            self.entries.push(LogEntry { key, last_emitted_at: now, suppressed: 0 });
            assert(self@.records =~= old(self)@.checked(key@, now).0.records);
            return LogDecision::Emit { suppressed: 0 };
        }
        assert(s.records[i as int] == self.entries@[i as int]@);
        let found = LogEntry {
            key: self.entries[i].key,
            last_emitted_at: self.entries[i].last_emitted_at,
            suppressed: self.entries[i].suppressed,
        };
        if (now.nanos_since(found.last_emitted_at) as u128) >= self.window.as_nanos() {
            let suppressed = found.suppressed;
            self.entries.set(i, LogEntry { key: found.key, last_emitted_at: now, suppressed: 0 });
            assert(self@.records =~= old(self)@.checked(key@, now).0.records);
            LogDecision::Emit { suppressed }
        } else {
            self.entries.set(
                i,
                LogEntry {
                    key: found.key,
                    last_emitted_at: found.last_emitted_at,
                    suppressed: found.suppressed.saturating_add(1),
                },
            );
            assert(self@.records =~= old(self)@.checked(key@, now).0.records);
            LogDecision::Suppress
        }
    }
}

proof fn lemma_kept(records: Seq<LogRecordView>, span: nat, now: Instant)
    requires
        distinct_keys(records),
    ensures
        distinct_keys(kept(records, span, now)),
        kept(records, span, now).len() <= records.len(),
        forall|i: int|
            0 <= i < kept(records, span, now).len() ==> records.contains(
                #[trigger] kept(records, span, now)[i],
            ) && time::elapsed(kept(records, span, now)[i].last_emitted_at, now) <= span,
        forall|i: int|
            0 <= i < records.len() && time::elapsed(records[i].last_emitted_at, now) <= span
                ==> kept(records, span, now).contains(#[trigger] records[i]),
        (forall|i: int|
            0 <= i < records.len() ==> time::elapsed(
                (#[trigger] records[i]).last_emitted_at,
                now,
            ) <= span) ==> kept(records, span, now) == records,
    decreases records.len(),
{
    if records.len() > 0 {
        let front = records.drop_last();
        lemma_kept(front, span, now);
        let rest = kept(front, span, now);
        let all = kept(records, span, now);
        assert forall|i: int| 0 <= i < all.len() implies records.contains(#[trigger] all[i]) by {
            if i < rest.len() {
                assert(front.contains(rest[i]));
                let j = choose|j: int| 0 <= j < front.len() && front[j] == rest[i];
                assert(records[j] == all[i]);
            } else {
                assert(records[records.len() - 1] == all[i]);
            }
        }
        assert forall|i: int|
            0 <= i < records.len() && time::elapsed(records[i].last_emitted_at, now)
                <= span implies all.contains(#[trigger] records[i]) by {
            if i < front.len() {
                assert(front[i] == records[i]);
                assert(rest.contains(front[i]));
                let j = choose|j: int| 0 <= j < rest.len() && rest[j] == front[i];
                assert(all[j] == records[i]);
            } else {
                assert(all[all.len() - 1] == records[i]);
            }
        }
        if forall|i: int|
            0 <= i < records.len() ==> time::elapsed(
                (#[trigger] records[i]).last_emitted_at,
                now,
            ) <= span {
            assert forall|i: int| 0 <= i < front.len() implies time::elapsed(
                (#[trigger] front[i]).last_emitted_at,
                now,
            ) <= span by {
                assert(front[i] == records[i]);
            }
            assert(all =~= records);
        }
        assert forall|i: int, j: int| 0 <= i < j < all.len() implies all[i].key != all[j].key by {
            if j == rest.len() {
                assert(front.contains(rest[i]));
                let k = choose|k: int| 0 <= k < front.len() && front[k] == rest[i];
                assert(records[k].key != records[records.len() - 1].key);
            }
        }
    }
}

proof fn lemma_evicted(records: Seq<LogRecordView>, max: nat)
    requires
        distinct_keys(records),
    ensures
        distinct_keys(evicted(records, max)),
        evicted(records, max).len() == if records.len() <= max {
            records.len()
        } else {
            max
        },
        forall|i: int, j: int|
            0 <= i < records.len() && !evicted(records, max).contains(#[trigger] records[i]) && 0
                <= j < evicted(records, max).len() ==> records[i].last_emitted_at.nanos <= (
            #[trigger] evicted(records, max)[j]).last_emitted_at.nanos,
        forall|j: int|
            0 <= j < evicted(records, max).len() ==> records.contains(
                #[trigger] evicted(records, max)[j],
            ),
    decreases records.len(),
{
    if records.len() > max {
        let k = oldest_of(records, records.len()) as int;
        lemma_oldest_of(records, records.len());
        let rest = records.remove(k);
        lemma_evicted(rest, max);
        let end = evicted(rest, max);
        assert forall|j: int| 0 <= j < end.len() implies records.contains(#[trigger] end[j]) by {
            assert(rest.contains(end[j]));
            let m = choose|m: int| 0 <= m < rest.len() && rest[m] == end[j];
            assert(records[if m < k { m } else { m + 1 }] == end[j]);
        }
        assert forall|i: int, j: int|
            0 <= i < records.len() && !end.contains(#[trigger] records[i]) && 0 <= j
                < end.len() implies records[i].last_emitted_at.nanos <= (
        #[trigger] end[j]).last_emitted_at.nanos by {
            if i == k {
                assert(records.contains(end[j]));
            } else {
                assert(rest[if i < k { i } else { i - 1 }] == records[i]);
            }
        }
    } else {
        assert forall|j: int| 0 <= j < records.len() implies records.contains(
            #[trigger] evicted(records, max)[j],
        ) by {
            assert(records[j] == evicted(records, max)[j]);
        }
        assert forall|i: int| 0 <= i < records.len() implies evicted(records, max).contains(
            #[trigger] records[i],
        ) by {
            assert(evicted(records, max)[i] == records[i]);
        }
    }
}

/// A check keeps one record per key and at most one record more than the limit
/// says, if that held before.
pub proof fn law_records_stay_bounded(
    s: LimiterView,
    key: (Option<IpAddr>, Seq<char>),
    now: Instant,
)
    requires
        distinct_keys(s.records),
        s.records.len() <= s.max_entries + 1,
    ensures
        distinct_keys(s.checked(key, now).0.records),
        s.checked(key, now).0.records.len() <= s.max_entries + 1,
{
    lemma_kept(s.records, 2 * s.window.total(), now);
    lemma_evicted(kept(s.records, 2 * s.window.total(), now), s.max_entries as nat);
    let c = s.cleaned(now);
    lemma_place_of(c.records, key);
}

/// A cleanup leaves no more records than the limit says, each as it was, and
/// drops none that is newer than one it keeps.
pub proof fn law_cleanup_drops_the_oldest(s: LimiterView, now: Instant)
    requires
        distinct_keys(s.records),
        none_later(s.records, now),
    ensures
        keeps_the_newest(s.records, s.cleaned(now).records, s.max_entries as nat),
{
    let span = 2 * s.window.total();
    let left = kept(s.records, span, now);
    let end = s.cleaned(now).records;
    lemma_kept(s.records, span, now);
    lemma_evicted(left, s.max_entries as nat);
    lemma_cleaned(s, now);
    assert forall|i: int, j: int|
        0 <= i < s.records.len() && !end.contains(#[trigger] s.records[i]) && 0 <= j
            < end.len() implies s.records[i].last_emitted_at.nanos <= (
    #[trigger] end[j]).last_emitted_at.nanos by {
        if !s.cleanup_due(now) {
            assert(end[i] == s.records[i]);
        } else {
            assert(left.contains(end[j]));
            if time::elapsed(s.records[i].last_emitted_at, now) <= span {
                assert(left.contains(s.records[i]));
                let k = choose|k: int| 0 <= k < left.len() && left[k] == s.records[i];
                assert(!end.contains(left[k]));
            } else {
                let k = choose|k: int| 0 <= k < left.len() && left[k] == end[j];
                assert(time::elapsed(left[k].last_emitted_at, now) <= span);
                assert(s.records.contains(end[j]));
            }
        }
    }
}

/// A cleanup drops nothing if there are not too many records and none is older
/// than two windows.
pub proof fn law_cleanup_keeps_what_it_can(s: LimiterView, now: Instant)
    requires
        distinct_keys(s.records),
        s.records.len() <= s.max_entries,
        none_older(s.records, 2 * s.window.total(), now),
    ensures
        s.cleaned(now).records == s.records,
{
    lemma_kept(s.records, 2 * s.window.total(), now);
}

proof fn lemma_checked_distinct(
    s: LimiterView,
    key: (Option<IpAddr>, Seq<char>),
    now: Instant,
)
    requires
        distinct_keys(s.records),
    ensures
        distinct_keys(s.checked(key, now).0.records),
{
    lemma_cleaned(s, now);
    lemma_place_of(s.cleaned(now).records, key);
}

proof fn lemma_cleaned(s: LimiterView, now: Instant)
    requires
        distinct_keys(s.records),
    ensures
        distinct_keys(s.cleaned(now).records),
        forall|j: int|
            0 <= j < s.cleaned(now).records.len() ==> s.records.contains(
                #[trigger] s.cleaned(now).records[j],
            ),
{
    let left = kept(s.records, 2 * s.window.total(), now);
    let end = s.cleaned(now).records;
    lemma_kept(s.records, 2 * s.window.total(), now);
    lemma_evicted(left, s.max_entries as nat);
    assert forall|j: int| 0 <= j < end.len() implies s.records.contains(#[trigger] end[j]) by {
        if s.cleanup_due(now) {
            assert(left.contains(end[j]));
        } else {
            assert(s.records[j] == end[j]);
        }
    }
}

/// Within a window a repeated message is left out, and it is counted: the next
/// message with that key that is logged tells of it, if the key has not been
/// forgotten by then.
pub proof fn law_repetition_is_suppressed_and_counted(
    s: LimiterView,
    key: (Option<IpAddr>, Seq<char>),
    now: Instant,
    later: Instant,
)
    requires
        distinct_keys(s.records),
        ({
            let c = s.cleaned(now);
            let i = place_of(c.records, key) as int;
            let d = s.checked(key, now).0.cleaned(later);
            &&& i < c.records.len()
            &&& time::elapsed(c.records[i].last_emitted_at, now) < c.window.total()
            &&& c.records[i].suppressed < usize::MAX
            &&& place_of(d.records, key) < d.records.len()
            &&& time::elapsed(c.records[i].last_emitted_at, later) >= c.window.total()
        }),
    ensures
        s.checked(key, now).1 == LogDecision::Suppress,
        s.checked(key, now).0.checked(key, later).1 == (LogDecision::Emit {
            suppressed: (s.cleaned(now).records[place_of(
                s.cleaned(now).records,
                key,
            ) as int].suppressed + 1) as usize,
        }),
{
    let c = s.cleaned(now);
    lemma_cleaned(s, now);
    let i = place_of(c.records, key) as int;
    lemma_place_of(c.records, key);
    let t = s.checked(key, now).0;
    let d = t.cleaned(later);
    assert(distinct_keys(t.records)) by {
        assert forall|a: int, b: int| 0 <= a < b < t.records.len() implies t.records[a].key
            != t.records[b].key by {
            assert(t.records[a].key == c.records[a].key);
            assert(t.records[b].key == c.records[b].key);
        }
    }
    lemma_cleaned(t, later);
    lemma_place_of(d.records, key);
    let k = place_of(d.records, key) as int;
    assert(t.records.contains(d.records[k]));
    let m = choose|m: int| 0 <= m < t.records.len() && t.records[m] == d.records[k];
    assert(t.records[m].key == key);
    assert(t.records[i].key == key);
    assert(m == i);
}

/// A message that the limiter is asked about.
pub struct Check {
    pub key: (Option<IpAddr>, Seq<char>),
    pub now: Instant,
}

/// What became of the messages with one key.
pub struct KeyHistory {
    /// When one was last logged.
    pub last_emit: Option<Instant>,
    /// How many have been left out since.
    pub suppressed: nat,
}

/// What is to be done with the next message of a key: it is logged if none was
/// logged within the window before it, and then tells how many were left out.
pub open spec fn decision_for(h: KeyHistory, window: Duration, now: Instant) -> LogDecision {
    match h.last_emit {
        None => LogDecision::Emit { suppressed: 0 },
        Some(at) => if time::elapsed(at, now) >= window.total() {
            LogDecision::Emit {
                suppressed: if h.suppressed < usize::MAX {
                    h.suppressed as usize
                } else {
                    usize::MAX
                },
            }
        } else {
            LogDecision::Suppress
        },
    }
}

/// The history of `key`, to which its own messages alone contribute.
pub open spec fn key_history(
    checks: Seq<Check>,
    key: (Option<IpAddr>, Seq<char>),
    window: Duration,
) -> KeyHistory
    decreases checks.len(),
{
    if checks.len() == 0 {
        KeyHistory { last_emit: None, suppressed: 0 }
    } else {
        let h = key_history(checks.drop_last(), key, window);
        let now = checks.last().now;
        if checks.last().key != key {
            h
        } else if decision_for(h, window, now) == LogDecision::Suppress {
            KeyHistory { suppressed: h.suppressed + 1, ..h }
        } else {
            KeyHistory { last_emit: Some(now), suppressed: 0 }
        }
    }
}

/// The limiter after these messages.
pub open spec fn limiter_after(
    window: Duration,
    max_entries: usize,
    start: Instant,
    checks: Seq<Check>,
) -> LimiterView
    decreases checks.len(),
{
    if checks.len() == 0 {
        LimiterView { window, max_entries, records: Seq::empty(), last_cleanup: start }
    } else {
        limiter_after(window, max_entries, start, checks.drop_last()).checked(
            checks.last().key,
            checks.last().now,
        ).0
    }
}

/// The keys of these messages.
pub open spec fn keys_in(checks: Seq<Check>) -> Set<(Option<IpAddr>, Seq<char>)>
    decreases checks.len(),
{
    if checks.len() == 0 {
        Set::empty()
    } else {
        keys_in(checks.drop_last()).insert(checks.last().key)
    }
}

/// Whether the messages come in the order of time, and none of them later than
/// two windows after the last one with its key that was logged.
pub open spec fn timely(checks: Seq<Check>, window: Duration) -> bool
    decreases checks.len(),
{
    checks.len() > 0 ==> {
        let before = checks.drop_last();
        let check = checks.last();
        &&& timely(before, window)
        &&& before.len() > 0 ==> before.last().now.nanos <= check.now.nanos
        &&& key_history(before, check.key, window).last_emit matches Some(at) ==> time::elapsed(
            at,
            check.now,
        ) <= 2 * window.total()
    }
}

/// The record of `key`, if there is one.
spec fn record_of(
    records: Seq<LogRecordView>,
    key: (Option<IpAddr>, Seq<char>),
) -> Option<LogRecordView> {
    let i = place_of(records, key) as int;
    if i < records.len() {
        Some(records[i])
    } else {
        None
    }
}

proof fn lemma_record_at(records: Seq<LogRecordView>, i: int)
    requires
        distinct_keys(records),
        0 <= i < records.len(),
    ensures
        record_of(records, records[i].key) == Some(records[i]),
{
    let key = records[i].key;
    lemma_place_of(records, key);
    let k = place_of(records, key) as int;
    if k < i {
        assert(records[k].key != records[i].key);
    } else if k > i {
        assert(records[i].key != key);
    }
}

/// A limiter without too many records forgets those that are too old, and
/// nothing else.
proof fn lemma_cleaned_record(
    s: LimiterView,
    key: (Option<IpAddr>, Seq<char>),
    now: Instant,
)
    requires
        distinct_keys(s.records),
        s.records.len() <= s.max_entries,
    ensures
        match record_of(s.records, key) {
            None => record_of(s.cleaned(now).records, key) is None,
            Some(record) => match record_of(s.cleaned(now).records, key) {
                Some(same) => same == record,
                None => time::elapsed(record.last_emitted_at, now) > 2 * s.window.total(),
            },
        },
        s.cleaned(now).records.len() <= s.records.len(),
        distinct_keys(s.cleaned(now).records),
{
    let span = 2 * s.window.total();
    let end = s.cleaned(now).records;
    lemma_kept(s.records, span, now);
    lemma_place_of(s.records, key);
    lemma_place_of(end, key);
    if s.cleanup_due(now) {
        assert(end == kept(s.records, span, now));
        let i = place_of(end, key) as int;
        if i < end.len() {
            assert(s.records.contains(end[i]));
            let k = choose|k: int| 0 <= k < s.records.len() && s.records[k] == end[i];
            lemma_record_at(s.records, k);
        } else if record_of(s.records, key) is Some {
            let k = place_of(s.records, key) as int;
            if time::elapsed(s.records[k].last_emitted_at, now) <= span {
                assert(end.contains(s.records[k]));
                let j = choose|j: int| 0 <= j < end.len() && end[j] == s.records[k];
                lemma_record_at(end, j);
            }
        }
    }
}

/// Whether a record says what became of the messages with its key.
spec fn record_fits(record: LogRecordView, h: KeyHistory) -> bool {
    &&& h.last_emit == Some(record.last_emitted_at)
    &&& record.suppressed == if h.suppressed < usize::MAX {
        h.suppressed
    } else {
        usize::MAX as nat
    }
}

/// Records as far as they are needed: of every key either its record, or nothing
/// if no message was logged in the last two windows.
spec fn records_fit(s: LimiterView, checks: Seq<Check>) -> bool {
    &&& distinct_keys(s.records)
    &&& forall|i: int|
        0 <= i < s.records.len() ==> keys_in(checks).contains((#[trigger] s.records[i]).key)
    &&& forall|key: (Option<IpAddr>, Seq<char>)|
        #![trigger record_of(s.records, key)]
        match record_of(s.records, key) {
            Some(record) => record_fits(record, key_history(checks, key, s.window)),
            None => key_history(checks, key, s.window).last_emit matches Some(at) ==> time::elapsed(
                at,
                checks.last().now,
            ) > 2 * s.window.total(),
        }
}

proof fn lemma_few_records(s: LimiterView, checks: Seq<Check>)
    requires
        records_fit(s, checks),
    ensures
        s.records.len() <= keys_in(checks).len(),
{
    let keys = s.records.map_values(|r: LogRecordView| r.key);
    assert(keys.no_duplicates());
    keys.unique_seq_to_set();
    lemma_keys_finite(checks);
    assert forall|key: (Option<IpAddr>, Seq<char>)| keys.to_set().contains(key) implies keys_in(
        checks,
    ).contains(key) by {
        let i = choose|i: int| 0 <= i < keys.len() && keys[i] == key;
        assert(keys_in(checks).contains(s.records[i].key));
    }
    vstd::set_lib::lemma_len_subset(keys.to_set(), keys_in(checks));
}

proof fn lemma_keys_finite(checks: Seq<Check>)
    ensures
        keys_in(checks).finite(),
    decreases checks.len(),
{
    if checks.len() > 0 {
        lemma_keys_finite(checks.drop_last());
    }
}

proof fn lemma_emitted_before(checks: Seq<Check>, key: (Option<IpAddr>, Seq<char>), window: Duration)
    requires
        timely(checks, window),
    ensures
        key_history(checks, key, window).last_emit matches Some(at) ==> checks.len() > 0 && at.nanos
            <= checks.last().now.nanos,
    decreases checks.len(),
{
    if checks.len() > 0 {
        lemma_emitted_before(checks.drop_last(), key, window);
    }
}

/// One more message leads to the decision that its key's history calls for, and
/// the records go on to fit.
proof fn lemma_check_fits(s: LimiterView, checks: Seq<Check>, check: Check)
    requires
        records_fit(s, checks),
        timely(checks.push(check), s.window),
        keys_in(checks).len() <= s.max_entries,
    ensures
        s.checked(check.key, check.now).1 == decision_for(
            key_history(checks, check.key, s.window),
            s.window,
            check.now,
        ),
        records_fit(s.checked(check.key, check.now).0, checks.push(check)),
{
    let told = checks.push(check);
    assert(told.drop_last() =~= checks);
    lemma_few_records(s, checks);
    let c = s.cleaned(check.now);
    lemma_cleaned_record(s, check.key, check.now);
    lemma_emitted_before(checks, check.key, s.window);
    let (after, decision) = s.checked(check.key, check.now);
    let i = place_of(c.records, check.key) as int;
    lemma_place_of(c.records, check.key);
    lemma_cleaned(s, check.now);
    assert(record_of(s.records, check.key) is Some || record_of(s.records, check.key) is None);
    assert forall|a: int, b: int| 0 <= a < b < after.records.len() implies after.records[a].key
        != after.records[b].key by {
        if b < c.records.len() {
            assert(c.records[a].key != c.records[b].key);
        }
    }
    assert forall|j: int| 0 <= j < after.records.len() implies keys_in(told).contains(
        (#[trigger] after.records[j]).key,
    ) by {
        if j < c.records.len() && j != i {
            assert(s.records.contains(c.records[j]));
            let k = choose|k: int| 0 <= k < s.records.len() && s.records[k] == c.records[j];
            assert(keys_in(checks).contains(s.records[k].key));
        }
    }
    assert forall|key: (Option<IpAddr>, Seq<char>)|
        #![trigger record_of(after.records, key)]
        match record_of(after.records, key) {
            Some(record) => record_fits(record, key_history(told, key, s.window)),
            None => key_history(told, key, s.window).last_emit matches Some(at) ==> time::elapsed(
                at,
                check.now,
            ) > 2 * s.window.total(),
        } by {
        if key == check.key {
            lemma_record_at(after.records, i);
        } else {
            lemma_emitted_before(checks, key, s.window);
            lemma_cleaned_record(s, key, check.now);
            lemma_place_of(c.records, key);
            lemma_place_of(after.records, key);
            assert(record_of(after.records, key) == record_of(c.records, key)) by {
                let k = place_of(c.records, key) as int;
                if k < c.records.len() {
                    lemma_record_at(after.records, k);
                } else if place_of(after.records, key) < after.records.len() {
                    let m = place_of(after.records, key) as int;
                    assert(m < c.records.len());
                    assert(c.records[m].key == key);
                }
            }
            assert(record_of(s.records, key) is Some || record_of(s.records, key) is None);
        }
    }
}

proof fn lemma_limiter_fits(
    window: Duration,
    max_entries: usize,
    start: Instant,
    checks: Seq<Check>,
)
    requires
        timely(checks, window),
        keys_in(checks).len() <= max_entries,
    ensures
        records_fit(limiter_after(window, max_entries, start, checks), checks),
        limiter_after(window, max_entries, start, checks).window == window,
        limiter_after(window, max_entries, start, checks).max_entries == max_entries,
    decreases checks.len(),
{
    if checks.len() > 0 {
        let before = checks.drop_last();
        lemma_keys_finite(before);
        vstd::set_lib::lemma_len_subset(keys_in(before), keys_in(checks));
        lemma_limiter_fits(window, max_entries, start, before);
        assert(before.push(checks.last()) =~= checks);
        lemma_check_fits(
            limiter_after(window, max_entries, start, before),
            before,
            checks.last(),
        );
    }
}

/// Over any course of messages with no more keys than the limiter remembers, each
/// in good time after the last one with its key that was logged: the first
/// message of a key is logged, two that are logged lie at least the window apart,
/// one that comes at least the window after the last logged one is logged too and
/// tells how many were left out in between, and every other one is left out.
/// Messages with other keys make no difference.
pub proof fn law_each_key_is_limited_by_itself(
    window: Duration,
    max_entries: usize,
    start: Instant,
    checks: Seq<Check>,
    check: Check,
)
    requires
        timely(checks.push(check), window),
        keys_in(checks.push(check)).len() <= max_entries,
    ensures
        limiter_after(window, max_entries, start, checks).checked(check.key, check.now).1
            == decision_for(key_history(checks, check.key, window), window, check.now),
        key_history(checks, check.key, window) == key_history(
            checks.filter(|c: Check| c.key == check.key),
            check.key,
            window,
        ),
{
    let told = checks.push(check);
    assert(told.drop_last() =~= checks);
    lemma_keys_finite(checks);
    lemma_keys_finite(told);
    vstd::set_lib::lemma_len_subset(keys_in(checks), keys_in(told));
    lemma_limiter_fits(window, max_entries, start, checks);
    lemma_check_fits(limiter_after(window, max_entries, start, checks), checks, check);
    lemma_own_history(checks, check.key, window);
}

proof fn lemma_own_history(checks: Seq<Check>, key: (Option<IpAddr>, Seq<char>), window: Duration)
    ensures
        key_history(checks, key, window) == key_history(
            checks.filter(|c: Check| c.key == key),
            key,
            window,
        ),
    decreases checks.len(),
{
    reveal(Seq::filter);
    let own = |c: Check| c.key == key;
    if checks.len() > 0 {
        lemma_own_history(checks.drop_last(), key, window);
        let rest = checks.drop_last().filter(own);
        if own(checks.last()) {
            assert(checks.filter(own) == rest.push(checks.last()));
            assert(rest.push(checks.last()).drop_last() =~= rest);
        }
    }
}

/// What was done with the message at place `i`.
pub open spec fn decision_at(
    window: Duration,
    max_entries: usize,
    start: Instant,
    checks: Seq<Check>,
    i: int,
) -> LogDecision {
    limiter_after(window, max_entries, start, checks.take(i)).checked(
        checks[i].key,
        checks[i].now,
    ).1
}

proof fn lemma_timely_start(checks: Seq<Check>, window: Duration, n: int)
    requires
        timely(checks, window),
        0 <= n <= checks.len(),
    ensures
        timely(checks.take(n), window),
        keys_in(checks.take(n)).subset_of(keys_in(checks)),
    decreases checks.len(),
{
    if n == checks.len() {
        assert(checks.take(n) =~= checks);
    } else {
        assert(checks.drop_last().take(n) =~= checks.take(n));
        lemma_timely_start(checks.drop_last(), window, n);
    }
}

proof fn lemma_decision_at(
    window: Duration,
    max_entries: usize,
    start: Instant,
    checks: Seq<Check>,
    i: int,
)
    requires
        timely(checks, window),
        keys_in(checks).len() <= max_entries,
        0 <= i < checks.len(),
    ensures
        decision_at(window, max_entries, start, checks, i) == decision_for(
            key_history(checks.take(i), checks[i].key, window),
            window,
            checks[i].now,
        ),
{
    assert(checks.take(i).push(checks[i]) =~= checks.take(i + 1));
    lemma_timely_start(checks, window, i + 1);
    lemma_keys_finite(checks);
    vstd::set_lib::lemma_len_subset(keys_in(checks.take(i + 1)), keys_in(checks));
    law_each_key_is_limited_by_itself(window, max_entries, start, checks.take(i), checks[i]);
}

proof fn lemma_last_emit_after(checks: Seq<Check>, window: Duration, i: int, n: int)
    requires
        timely(checks, window),
        0 <= i < n <= checks.len(),
        decision_for(
            key_history(checks.take(i), checks[i].key, window),
            window,
            checks[i].now,
        ) != LogDecision::Suppress,
    ensures
        key_history(checks.take(n), checks[i].key, window).last_emit matches Some(at) && at.nanos
            >= checks[i].now.nanos,
    decreases n,
{
    let before = checks.take(n - 1);
    assert(checks.take(n).drop_last() =~= before);
    lemma_timely_start(checks, window, n);
    if i < n - 1 {
        lemma_last_emit_after(checks, window, i, n - 1);
        lemma_emitted_before(before, checks[i].key, window);
    } else {
        assert(checks.take(i) =~= before);
    }
}

/// Two messages of one key that are logged lie at least the window apart.
pub proof fn law_logged_messages_lie_apart(
    window: Duration,
    max_entries: usize,
    start: Instant,
    checks: Seq<Check>,
    i: int,
    j: int,
)
    requires
        timely(checks, window),
        keys_in(checks).len() <= max_entries,
        0 <= i < j < checks.len(),
        checks[i].key == checks[j].key,
        decision_at(window, max_entries, start, checks, i) is Emit,
        decision_at(window, max_entries, start, checks, j) is Emit,
    ensures
        checks[i].now.nanos + window.total() <= checks[j].now.nanos || window.total() == 0,
{
    lemma_decision_at(window, max_entries, start, checks, i);
    lemma_decision_at(window, max_entries, start, checks, j);
    lemma_last_emit_after(checks, window, i, j);
    let at = key_history(checks.take(j), checks[j].key, window).last_emit->Some_0;
    lemma_timely_start(checks, window, j);
    lemma_emitted_before(checks.take(j), checks[j].key, window);
}

/// How many messages of `key` are left out from place `i` on, up to place `j`.
pub open spec fn left_out(
    window: Duration,
    max_entries: usize,
    start: Instant,
    checks: Seq<Check>,
    key: (Option<IpAddr>, Seq<char>),
    i: int,
    j: int,
) -> nat
    decreases j - i,
{
    if i >= j {
        0
    } else {
        left_out(window, max_entries, start, checks, key, i, j - 1) + if checks[j - 1].key == key
            && decision_at(window, max_entries, start, checks, j - 1) == LogDecision::Suppress {
            1nat
        } else {
            0
        }
    }
}

proof fn lemma_left_out(
    window: Duration,
    max_entries: usize,
    start: Instant,
    checks: Seq<Check>,
    i: int,
    j: int,
)
    requires
        timely(checks, window),
        keys_in(checks).len() <= max_entries,
        0 <= i < j <= checks.len(),
        decision_at(window, max_entries, start, checks, i) is Emit,
        forall|k: int|
            i < k < j && (#[trigger] checks[k]).key == checks[i].key ==> decision_at(
                window,
                max_entries,
                start,
                checks,
                k,
            ) == LogDecision::Suppress,
    ensures
        key_history(checks.take(j), checks[i].key, window) == (KeyHistory {
            last_emit: Some(checks[i].now),
            suppressed: left_out(window, max_entries, start, checks, checks[i].key, i + 1, j),
        }),
    decreases j,
{
    let before = checks.take(j - 1);
    assert(checks.take(j).drop_last() =~= before);
    lemma_decision_at(window, max_entries, start, checks, j - 1);
    if i < j - 1 {
        lemma_left_out(window, max_entries, start, checks, i, j - 1);
        assert(checks.take(j).last() == checks[j - 1]);
    } else {
        assert(checks.take(i) =~= before);
    }
}

/// A message that is logged after another of its key, with none logged in
/// between, tells how many of that key were left out in between.
pub proof fn law_logged_message_tells_of_those_left_out(
    window: Duration,
    max_entries: usize,
    start: Instant,
    checks: Seq<Check>,
    i: int,
    j: int,
)
    requires
        timely(checks, window),
        keys_in(checks).len() <= max_entries,
        0 <= i < j < checks.len(),
        checks.len() <= usize::MAX,
        checks[i].key == checks[j].key,
        decision_at(window, max_entries, start, checks, i) is Emit,
        forall|k: int|
            i < k < j && (#[trigger] checks[k]).key == checks[i].key ==> decision_at(
                window,
                max_entries,
                start,
                checks,
                k,
            ) == LogDecision::Suppress,
    ensures
        decision_at(window, max_entries, start, checks, j) matches LogDecision::Emit { suppressed }
            ==> suppressed == left_out(
            window,
            max_entries,
            start,
            checks,
            checks[i].key,
            i + 1,
            j,
        ),
        decision_at(window, max_entries, start, checks, j) is Emit <==> time::elapsed(
            checks[i].now,
            checks[j].now,
        ) >= window.total(),
{
    lemma_left_out(window, max_entries, start, checks, i, j);
    lemma_decision_at(window, max_entries, start, checks, j);
    lemma_left_out_bound(window, max_entries, start, checks, checks[i].key, i + 1, j);
}

proof fn lemma_left_out_bound(
    window: Duration,
    max_entries: usize,
    start: Instant,
    checks: Seq<Check>,
    key: (Option<IpAddr>, Seq<char>),
    i: int,
    j: int,
)
    requires
        i <= j,
    ensures
        left_out(window, max_entries, start, checks, key, i, j) <= j - i,
    decreases j - i,
{
    if i < j {
        lemma_left_out_bound(window, max_entries, start, checks, key, i, j - 1);
    }
}

/// The first message of a key is logged and tells of none left out.
pub proof fn law_first_message_is_logged(
    window: Duration,
    max_entries: usize,
    start: Instant,
    checks: Seq<Check>,
    i: int,
)
    requires
        timely(checks, window),
        keys_in(checks).len() <= max_entries,
        0 <= i < checks.len(),
        forall|k: int| 0 <= k < i ==> (#[trigger] checks[k]).key != checks[i].key,
    ensures
        decision_at(window, max_entries, start, checks, i) == (LogDecision::Emit { suppressed: 0 }),
{
    lemma_decision_at(window, max_entries, start, checks, i);
    lemma_no_history(checks.take(i), checks[i].key, window);
}

proof fn lemma_no_history(checks: Seq<Check>, key: (Option<IpAddr>, Seq<char>), window: Duration)
    requires
        forall|k: int| 0 <= k < checks.len() ==> (#[trigger] checks[k]).key != key,
    ensures
        key_history(checks, key, window).last_emit is None,
    decreases checks.len(),
{
    if checks.len() > 0 {
        lemma_no_history(checks.drop_last(), key, window);
    }
}

/// A message is logged exactly if none of its key was logged within the window,
/// as far as that is remembered: with how many of its key were left out since.
/// One that is left out is counted; one that is logged starts the count anew.
pub proof fn law_messages_are_logged_once_a_window(
    limiter: &mut LogLimiter,
    key: LogKey,
    now: Instant,
    decision: LogDecision,
    i: int,
)
    requires
        call_ensures(LogLimiter::check_at, (limiter, key, now), decision),
        distinct_keys(old(limiter)@.records),
        old(limiter)@.records.len() <= old(limiter)@.max_entries,
        old(limiter)@.last_cleanup.nanos <= now.nanos,
        now.nanos < old(limiter)@.last_cleanup.nanos + old(limiter)@.window.secs * 1_000_000_000
            + old(limiter)@.window.nanos,
        0 <= i < old(limiter)@.records.len(),
        old(limiter)@.records[i].last_emitted_at.nanos <= now.nanos,
    ensures
        ({
            let record = old(limiter)@.records[i];
            let after = final(limiter)@.records;
            let quiet = now.nanos - record.last_emitted_at.nanos
                >= old(limiter)@.window.secs * 1_000_000_000 + old(limiter)@.window.nanos;
            &&& record.key == key@ && quiet ==> decision == (LogDecision::Emit {
                suppressed: record.suppressed,
            }) && after[i].last_emitted_at == now && after[i].suppressed == 0
            &&& record.key == key@ && !quiet ==> decision is Suppress && after[i].last_emitted_at
                == record.last_emitted_at && (record.suppressed < usize::MAX
                ==> after[i].suppressed == record.suppressed + 1)
            &&& record.key != key@ ==> after[i] == record
            &&& (forall|j: int|
                0 <= j < old(limiter)@.records.len() ==> (#[trigger] old(limiter)@.records[j]).key
                    != key@) ==> decision == (LogDecision::Emit { suppressed: 0 })
        }),
{
    let s = old(limiter)@;
    lemma_place_of(s.records, key@);
    if s.records[i].key == key@ {
        let k = place_of(s.records, key@) as int;
        if k < i {
            assert(s.records[k].key != s.records[i].key);
        }
        assert(k == i);
    }
}

/// A cleanup is due once a window has passed since the last one, or where there
/// are too many records. It forgets what was last logged more than two windows
/// ago, and where there is room keeps all the rest.
pub proof fn law_cleanup_forgets_after_two_windows(s: LimiterView, now: Instant, i: int)
    requires
        distinct_keys(s.records),
        0 <= i < s.records.len(),
        s.records[i].last_emitted_at.nanos <= now.nanos,
    ensures
        ({
            let window = s.window.secs * 1_000_000_000 + s.window.nanos;
            let after = s.cleaned(now);
            let due = s.records.len() > s.max_entries || now.nanos >= s.last_cleanup.nanos + window;
            let old = now.nanos - s.records[i].last_emitted_at.nanos > 2 * window;
            &&& due && now.nanos >= s.last_cleanup.nanos ==> after.last_cleanup == now
            &&& due && old ==> !after.records.contains(s.records[i])
            &&& s.records.len() <= s.max_entries && !old ==> after.records.contains(s.records[i])
            &&& !due && now.nanos >= s.last_cleanup.nanos ==> after == s
            &&& after.window == s.window
            &&& after.max_entries == s.max_entries
        }),
{
    let span = 2 * s.window.total();
    let left = kept(s.records, span, now);
    let end = evicted(left, s.max_entries as nat);
    lemma_kept(s.records, span, now);
    lemma_evicted(left, s.max_entries as nat);
    let r = s.records[i];
    if s.cleanup_due(now) {
        if end.contains(r) {
            let j = choose|j: int| 0 <= j < end.len() && end[j] == r;
            assert(left.contains(end[j]));
            let k = choose|k: int| 0 <= k < left.len() && left[k] == end[j];
            assert(time::elapsed(left[k].last_emitted_at, now) <= span);
        }
        if s.records.len() <= s.max_entries && time::elapsed(r.last_emitted_at, now) <= span {
            assert(left.contains(s.records[i]));
            assert(left.len() <= s.max_entries);
            assert(end == left);
        }
    } else {
        assert(s.cleaned(now).records[i] == r);
    }
}

/// A new limiter remembers nothing.
pub proof fn law_limiter_starts_empty(
    window: Duration,
    max: usize,
    now: Instant,
    limiter: LogLimiter,
)
    requires
        call_ensures(LogLimiter::new, (window, max, now), limiter),
    ensures
        limiter@.window == window,
        limiter@.max_entries == max,
        limiter@.records.len() == 0,
        limiter@.last_cleanup == now,
{
}

/// What a limiter remembers can be asked for: how many messages, whether one of
/// this key, and for how long. A cleanup that is due forgets what is older than
/// two windows and nothing newer, where there is room.
pub proof fn law_limiter_tells_what_it_remembers(
    limiter: &LogLimiter,
    n: usize,
    key: &LogKey,
    known: bool,
    window: Duration,
    cleaned: &mut LogLimiter,
    now: Instant,
    i: int,
)
    requires
        call_ensures(LogLimiter::len, (limiter,), n),
        call_ensures(LogLimiter::contains, (limiter, key), known),
        call_ensures(LogLimiter::window, (limiter,), window),
        call_ensures(LogLimiter::maybe_cleanup, (cleaned, now), ()),
        distinct_keys(old(cleaned)@.records),
        old(cleaned)@.records.len() <= old(cleaned)@.max_entries,
        0 <= i < old(cleaned)@.records.len(),
        old(cleaned)@.records[i].last_emitted_at.nanos <= now.nanos,
        old(cleaned)@.last_cleanup.nanos + old(cleaned)@.window.secs * 1_000_000_000 + old(cleaned)@.window.nanos <= now.nanos,
    ensures
        n == limiter@.records.len(),
        known ==> exists|j: int|
            0 <= j < limiter@.records.len() && (#[trigger] limiter@.records[j]).key.0
                == key.peer_ip && limiter@.records[j].key.1 == key.category@,
        !known ==> forall|j: int|
            0 <= j < limiter@.records.len() ==> (#[trigger] limiter@.records[j]).key.0
                != key.peer_ip || limiter@.records[j].key.1 != key.category@,
        window == limiter@.window,
        final(cleaned)@.records.contains(old(cleaned)@.records[i]) <==> now.nanos - old(cleaned)@.records[i].last_emitted_at.nanos <= 2 * (old(cleaned)@.window.secs * 1_000_000_000 + old(cleaned)@.window.nanos),
{
    law_cleanup_forgets_after_two_windows(old(cleaned)@, now, i);
    if !known {
        assert forall|j: int| 0 <= j < limiter@.records.len() implies (
        #[trigger] limiter@.records[j]).key.0 != key.peer_ip || limiter@.records[j].key.1
            != key.category@ by {
            if limiter@.records[j].key == key@ {
                assert(remembered(limiter@.records, key@));
            }
        }
    }
}

} // verus!
