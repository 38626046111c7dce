//! The time that a connection has to log in, and what is said of one that does
//! not.
use vstd::prelude::*;
use vstd::string::*;

use crate::admission::{AdmissionController, AdmissionGuard, RejectReason};
use crate::text;
use crate::time;
use crate::time::{Duration, Instant};
use crate::values;

verus! {

/// How many bytes of its first packet a client has to send for the key exchange
/// to count as started: the packet's length, its padding and its kind.
pub const KEX_HEADER_LEN: u8 = 6;

/// How far the line that a client is sending agrees with the four characters
/// that an identification starts with.
#[derive(Clone, Copy, Debug, PartialEq, Eq, Structural)]
pub enum LineStart {
    /// The line so far is the first so many of them.
    Agrees(u8),
    /// The line starts with all of them.
    Identifies,
    /// The line starts otherwise.
    Differs,
}

/// How far a client has come before it logs in.
#[derive(Clone, Copy, Debug, PartialEq, Eq, Structural)]
pub enum PreauthPhase {
    /// It has yet to send the line that identifies it.
    Banner(LineStart),
    /// It sent that line at `since`, and so many bytes of its first packet.
    Kex { since: Instant, seen: u8 },
    /// The key exchange has started.
    Started,
}

/// The bytes that the line which identifies a client starts with: `SSH-`.
pub open spec fn identification() -> Seq<u8> {
    seq![83u8, 83, 72, 45]
}

/// A line after one more byte, which does not end it.
pub open spec fn line_after(line: LineStart, byte: u8) -> LineStart {
    match line {
        LineStart::Agrees(n) => if n < 4 && byte == identification()[n as int] {
            if n == 3 {
                LineStart::Identifies
            } else {
                LineStart::Agrees((n + 1) as u8)
            }
        } else {
            LineStart::Differs
        },
        _ => line,
    }
}

/// The phase after one more byte, which came at `now`. A line that identifies
/// the client ends the first phase; after any other line a new one starts.
pub open spec fn phase_after(phase: PreauthPhase, byte: u8, now: Instant) -> PreauthPhase {
    match phase {
        PreauthPhase::Banner(line) => if byte != 10 {
            PreauthPhase::Banner(line_after(line, byte))
        } else if line == LineStart::Identifies {
            PreauthPhase::Kex { since: now, seen: 0 }
        } else {
            PreauthPhase::Banner(LineStart::Agrees(0))
        },
        PreauthPhase::Kex { since, seen } => if seen + 1 >= KEX_HEADER_LEN {
            PreauthPhase::Started
        } else {
            PreauthPhase::Kex { since, seen: (seen + 1) as u8 }
        },
        PreauthPhase::Started => PreauthPhase::Started,
    }
}

fn line_with(line: LineStart, byte: u8) -> (r: LineStart)
    ensures
        r == line_after(line, byte),
{
    match line {
        LineStart::Agrees(n) => {
            let agrees = (n == 0 && byte == 83) || (n == 1 && byte == 83) || (n == 2 && byte == 72)
                || (n == 3 && byte == 45);
            if !agrees {
                LineStart::Differs
            } else if n == 3 {
                LineStart::Identifies
            } else {
                LineStart::Agrees(n + 1)
            }
        },
        _ => line,
    }
}

/// The phase after bytes that came at `now`.
pub open spec fn phase_behind(phase: PreauthPhase, bytes: Seq<u8>, now: Instant) -> PreauthPhase
    decreases bytes.len(),
{
    if bytes.len() == 0 {
        phase
    } else {
        phase_after(phase_behind(phase, bytes.drop_last(), now), bytes.last(), now)
    }
}

/// Why a connection that has not logged in is closed.
#[derive(Clone, Copy, Debug, PartialEq, Eq, Structural)]
pub enum PreauthTimeout {
    LoginGrace,
    KexStart,
    Banner,
}

impl PreauthTimeout {
    pub open spec fn text(self) -> Seq<char> {
        match self {
            PreauthTimeout::LoginGrace =>
                "login grace time exceeded before authentication completed"@,
            PreauthTimeout::KexStart => "key exchange did not start in time"@,
            PreauthTimeout::Banner => "client did not identify itself in time"@,
        }
    }

    /// The reason in words.
    pub fn message(self) -> (r: &'static str)
        ensures
            r@ == self.text(),
    {
        match self {
            PreauthTimeout::LoginGrace =>
                "login grace time exceeded before authentication completed",
            PreauthTimeout::KexStart => "key exchange did not start in time",
            PreauthTimeout::Banner => "client did not identify itself in time",
        }
    }
}

/// The limits of a connection that has not logged in.
#[derive(Clone, Copy, Debug, PartialEq, Eq, Structural)]
pub struct PreauthLimits {
    pub client_banner_timeout: Duration,
    pub kex_start_timeout: Duration,
    pub login_grace_time: Duration,
}

/// The deadlines of a connection that has not logged in.
#[derive(Clone, Copy, Debug, PartialEq, Eq, Structural)]
pub struct PreauthWatch {
    pub accepted_at: Instant,
    pub limits: PreauthLimits,
    pub phase: PreauthPhase,
    pub authenticated: bool,
}

impl PreauthWatch {
    /// The clock reading at which the time to log in is over.
    pub open spec fn login_deadline(self) -> nat {
        (self.accepted_at.nanos + self.limits.login_grace_time.total()) as nat
    }

    /// The clock reading at which the time for the phase is over, and why the
    /// connection is then closed.
    pub open spec fn phase_deadline(self) -> Option<(nat, PreauthTimeout)> {
        match self.phase {
            PreauthPhase::Banner(_) => Some(
                (
                    (self.accepted_at.nanos + self.limits.client_banner_timeout.total()) as nat,
                    PreauthTimeout::Banner,
                ),
            ),
            PreauthPhase::Kex { since, .. } => Some(
                (
                    (since.nanos + self.limits.kex_start_timeout.total()) as nat,
                    PreauthTimeout::KexStart,
                ),
            ),
            PreauthPhase::Started => None,
        }
    }

    /// Why the connection is to be closed at `now`, if it is.
    pub open spec fn verdict_at(self, now: Instant) -> Option<PreauthTimeout> {
        if self.authenticated {
            None
        } else if now.nanos >= self.login_deadline() {
            Some(PreauthTimeout::LoginGrace)
        } else {
            match self.phase_deadline() {
                Some((at, timeout)) => if now.nanos >= at {
                    Some(timeout)
                } else {
                    None
                },
                None => None,
            }
        }
    }

    pub fn new(accepted_at: Instant, limits: PreauthLimits) -> (r: Self)
        ensures
            r == (PreauthWatch {
                accepted_at,
                limits,
                phase: PreauthPhase::Banner(LineStart::Agrees(0)),
                authenticated: false,
            }),
    {
        PreauthWatch {
            accepted_at,
            limits,
            phase: PreauthPhase::Banner(LineStart::Agrees(0)),
            authenticated: false,
        }
    }

    /// When the time for the phase is over, and what that means.
    fn phase_end(&self) -> (r: Option<(u128, PreauthTimeout)>)
        ensures
            match (r, self.phase_deadline()) {
                (Some((at, timeout)), Some((end, meaning))) => at == end && timeout == meaning,
                (None, None) => true,
                _ => false,
            },
    {
        match self.phase {
            PreauthPhase::Banner(_) => Some(
                (self.accepted_at.after(self.limits.client_banner_timeout), PreauthTimeout::Banner),
            ),
            PreauthPhase::Kex { since, .. } => Some(
                (since.after(self.limits.kex_start_timeout), PreauthTimeout::KexStart),
            ),
            PreauthPhase::Started => None,
        }
    }

    /// Takes note of bytes from the client.
    pub fn observe(&mut self, bytes: &Vec<u8>, now: Instant)
        ensures
            *final(self) == (PreauthWatch {
                phase: phase_behind(old(self).phase, bytes@, now),
                ..*old(self)
            }),
    {
        let ghost start = self.phase;
        let mut i: usize = 0;
        assert(phase_behind(start, bytes@.take(0), now) == start);
        while i < bytes.len()
            invariant
                i <= bytes@.len(),
                start == old(self).phase,
                *self == (PreauthWatch {
                    phase: phase_behind(start, bytes@.take(i as int), now),
                    ..*old(self)
                }),
            decreases bytes.len() - i,
        {
            assert(bytes@.take(i + 1).drop_last() =~= bytes@.take(i as int));
            let byte: u8 = bytes[i];
            self.phase = match self.phase {
                PreauthPhase::Banner(line) => {
                    if byte != 10 {
                        PreauthPhase::Banner(line_with(line, byte))
                    } else if line == LineStart::Identifies {
                        PreauthPhase::Kex { since: now, seen: 0 }
                    } else {
                        PreauthPhase::Banner(LineStart::Agrees(0))
                    }
                },
                PreauthPhase::Kex { since, seen } => {
                    if seen >= KEX_HEADER_LEN - 1 {
                        PreauthPhase::Started
                    } else {
                        PreauthPhase::Kex { since, seen: seen + 1 }
                    }
                },
                PreauthPhase::Started => PreauthPhase::Started,
            };
            i = i + 1;
        }
        assert(bytes@.take(bytes@.len() as int) =~= bytes@);
    }

    /// The client has logged in.
    pub fn mark_authenticated(&mut self)
        ensures
            *final(self) == (PreauthWatch { authenticated: true, ..*old(self) }),
    {
        self.authenticated = true;
    }

    /// Decides whether the connection is to be closed.
    pub fn verdict(&self, now: Instant) -> (r: Option<PreauthTimeout>)
        ensures
            r == self.verdict_at(now),
    {
        if self.authenticated {
            return None;
        }
        let reading: u128 = now.nanos as u128;
        if reading >= self.accepted_at.after(self.limits.login_grace_time) {
            return Some(PreauthTimeout::LoginGrace);
        }
        match self.phase_end() {
            Some((at, timeout)) => {
                if reading >= at {
                    Some(timeout)
                } else {
                    None
                }
            },
            None => None,
        }
    }

    /// The clock reading at which to look again; none once the client has
    /// logged in.
    pub fn next_deadline(&self) -> (r: Option<u128>)
        ensures
            match r {
                None => self.authenticated,
                Some(at) => !self.authenticated && forall|now: Instant| #[trigger]
                    self.verdict_at(now) is None <==> now.nanos < at,
            },
    {
        if self.authenticated {
            return None;
        }
        let login: u128 = self.accepted_at.after(self.limits.login_grace_time);
        match self.phase_end() {
            Some((at, _)) => {
                if at < login {
                    Some(at)
                } else {
                    Some(login)
                }
            },
            None => Some(login),
        }
    }
}

/// What an operation on a connection comes to.
#[derive(Clone, Copy, Debug, PartialEq, Eq, Structural)]
pub enum PollDecision {
    /// Whatever the operation itself comes to.
    Pass,
    /// The connection is to be closed.
    Fail(PreauthTimeout),
    /// Wait for the operation or the deadline, whichever comes first.
    Wait,
}

/// Decides what a read, write or flush comes to, given whether it could be done
/// at once.
pub fn poll_decision(watch: &PreauthWatch, now: Instant, ready: bool) -> (r: PollDecision)
    ensures
        r == (match watch.verdict_at(now) {
            Some(timeout) => PollDecision::Fail(timeout),
            None => if watch.authenticated || ready {
                PollDecision::Pass
            } else {
                PollDecision::Wait
            },
        }),
{
    match watch.verdict(now) {
        Some(timeout) => PollDecision::Fail(timeout),
        None => {
            if watch.authenticated || ready {
                PollDecision::Pass
            } else {
                PollDecision::Wait
            }
        },
    }
}

/// The time to log in is absolute: no bytes that a client sends put it off.
pub proof fn law_login_deadline_is_absolute(w: PreauthWatch, bytes: Seq<u8>, at: Instant, now: Instant)
    requires
        !w.authenticated,
        now.nanos >= w.login_deadline(),
    ensures
        (PreauthWatch { phase: phase_behind(w.phase, bytes, at), ..w }).verdict_at(now) == Some(
            PreauthTimeout::LoginGrace,
        ),
{
}

/// Bytes of a client that came at one time.
pub struct Arrival {
    pub bytes: Seq<u8>,
    pub now: Instant,
}

/// The connection after these arrivals.
pub open spec fn watch_after(w: PreauthWatch, arrivals: Seq<Arrival>) -> PreauthWatch
    decreases arrivals.len(),
{
    if arrivals.len() == 0 {
        w
    } else {
        let before = watch_after(w, arrivals.drop_last());
        PreauthWatch {
            phase: phase_behind(before.phase, arrivals.last().bytes, arrivals.last().now),
            ..before
        }
    }
}

/// All bytes of these arrivals.
pub open spec fn bytes_of(arrivals: Seq<Arrival>) -> Seq<u8>
    decreases arrivals.len(),
{
    if arrivals.len() == 0 {
        Seq::empty()
    } else {
        bytes_of(arrivals.drop_last()) + arrivals.last().bytes
    }
}

/// Whether the bytes from `from` to `to` are a line without its end: they stand
/// at the start or behind a line feed, and hold none.
pub open spec fn is_line(bytes: Seq<u8>, from: int, to: int) -> bool {
    &&& 0 <= from <= to <= bytes.len()
    &&& from == 0 || bytes[from - 1] == 10
    &&& forall|i: int| from <= i < to ==> (#[trigger] bytes[i]) != 10
}

/// Whether the bytes from `from` to `to` start with the identification.
pub open spec fn starts_identification(bytes: Seq<u8>, from: int, to: int) -> bool {
    &&& from + 4 <= to
    &&& bytes[from] == 83 && bytes[from + 1] == 83 && bytes[from + 2] == 72 && bytes[from + 3] == 45
}

/// Whether one of the lines in `bytes` that have ended starts with the
/// identification.
pub open spec fn identified(bytes: Seq<u8>) -> bool {
    exists|from: int, to: int| #[trigger]
        is_line(bytes, from, to) && to < bytes.len() && bytes[to] == 10 && starts_identification(
            bytes,
            from,
            to,
        )
}

/// Whether `line` says how the last line of `bytes`, which starts at `from`, has
/// started.
spec fn line_fits(bytes: Seq<u8>, from: int, line: LineStart) -> bool {
    let n = bytes.len() - from;
    &&& is_line(bytes, from, bytes.len() as int)
    &&& match line {
        LineStart::Agrees(m) => m == n && n < 4 && forall|k: int|
            0 <= k < n ==> bytes[from + k] == #[trigger] identification()[k],
        LineStart::Identifies => starts_identification(bytes, from, bytes.len() as int),
        LineStart::Differs => n > 0 && !starts_identification(bytes, from, bytes.len() as int) && (
        exists|k: int| 0 <= k < 4 && k < n && bytes[from + k] != #[trigger] identification()[k]),
    }
}

proof fn lemma_identified_grows(bytes: Seq<u8>, byte: u8)
    requires
        identified(bytes),
    ensures
        identified(bytes.push(byte)),
{
    let (from, to) = choose|from: int, to: int| #[trigger]
        is_line(bytes, from, to) && to < bytes.len() && bytes[to] == 10 && starts_identification(
            bytes,
            from,
            to,
        );
    let more = bytes.push(byte);
    assert(is_line(more, from, to)) by {
        assert forall|i: int| from <= i < to implies (#[trigger] more[i]) != 10 by {
            assert(bytes[i] != 10);
        }
    }
}

/// One more byte behind bytes that identify nobody.
proof fn lemma_line_goes_on(bytes: Seq<u8>, from: int, line: LineStart, byte: u8, at: Instant) -> (
    next: int)
    requires
        line_fits(bytes, from, line),
        !identified(bytes.push(byte)),
    ensures
        phase_after(PreauthPhase::Banner(line), byte, at) is Banner,
        line_fits(
            bytes.push(byte),
            next,
            phase_after(PreauthPhase::Banner(line), byte, at)->Banner_0,
        ),
{
    let more = bytes.push(byte);
    let end = bytes.len() as int;
    if byte == 10 {
        assert(is_line(more, from, end)) by {
            assert forall|i: int| from <= i < end implies (#[trigger] more[i]) != 10 by {
                assert(bytes[i] != 10);
            }
        }
        assert(!starts_identification(more, from, end));
        assert(line != LineStart::Identifies);
        assert(is_line(more, end + 1, end + 1));
        end + 1
    } else {
        assert(is_line(more, from, end + 1)) by {
            assert forall|i: int| from <= i < end + 1 implies (#[trigger] more[i]) != 10 by {
                if i < end {
                    assert(bytes[i] != 10);
                }
            }
        }
        match line {
            LineStart::Agrees(m) => {
                assert(more[from + m] == byte);
                if byte == identification()[m as int] {
                    if m == 3 {
                        assert(bytes[from] == identification()[0]);
                        assert(bytes[from + 1] == identification()[1]);
                        assert(bytes[from + 2] == identification()[2]);
                    } else {
                        assert forall|k: int| 0 <= k < m + 1 implies more[from + k]
                            == #[trigger] identification()[k] by {
                            if k < m {
                                assert(bytes[from + k] == identification()[k]);
                            }
                        }
                    }
                } else {
                    assert(more[from + m] != identification()[m as int]);
                }
            },
            LineStart::Identifies => {},
            LineStart::Differs => {
                let k = choose|k: int|
                    0 <= k < 4 && k < bytes.len() - from && bytes[from + k]
                        != #[trigger] identification()[k];
                assert(more[from + k] != identification()[k]);
            },
        }
        from
    }
}

proof fn lemma_still_unidentified(
    bytes: Seq<u8>,
    from: int,
    line: LineStart,
    more: Seq<u8>,
    at: Instant,
) -> (next: int)
    requires
        line_fits(bytes, from, line),
        !identified(bytes + more),
    ensures
        phase_behind(PreauthPhase::Banner(line), more, at) is Banner,
        line_fits(
            bytes + more,
            next,
            phase_behind(PreauthPhase::Banner(line), more, at)->Banner_0,
        ),
    decreases more.len(),
{
    if more.len() == 0 {
        assert(bytes + more =~= bytes);
        from
    } else {
        let front = more.drop_last();
        assert((bytes + front).push(more.last()) =~= bytes + more);
        if identified(bytes + front) {
            lemma_identified_grows(bytes + front, more.last());
        }
        let mid = lemma_still_unidentified(bytes, from, line, front, at);
        let reached = phase_behind(PreauthPhase::Banner(line), front, at)->Banner_0;
        lemma_line_goes_on(bytes + front, mid, reached, more.last(), at)
    }
}

proof fn lemma_unidentified_earlier(bytes: Seq<u8>, more: Seq<u8>)
    requires
        !identified(bytes + more),
    ensures
        !identified(bytes),
    decreases more.len(),
{
    if more.len() == 0 {
        assert(bytes + more =~= bytes);
    } else {
        assert((bytes + more.drop_last()).push(more.last()) =~= bytes + more);
        if identified(bytes + more.drop_last()) {
            lemma_identified_grows(bytes + more.drop_last(), more.last());
        }
        lemma_unidentified_earlier(bytes, more.drop_last());
    }
}

proof fn lemma_arrivals_unidentified(w: PreauthWatch, arrivals: Seq<Arrival>) -> (from: int)
    requires
        w.phase == PreauthPhase::Banner(LineStart::Agrees(0)),
        !identified(bytes_of(arrivals)),
    ensures
        watch_after(w, arrivals).phase is Banner,
        line_fits(bytes_of(arrivals), from, watch_after(w, arrivals).phase->Banner_0),
        watch_after(w, arrivals) == (PreauthWatch {
            phase: watch_after(w, arrivals).phase,
            ..w
        }),
    decreases arrivals.len(),
{
    if arrivals.len() == 0 {
        0
    } else {
        let before = arrivals.drop_last();
        let last = arrivals.last();
        lemma_unidentified_earlier(bytes_of(before), last.bytes);
        let from = lemma_arrivals_unidentified(w, before);
        let line = watch_after(w, before).phase->Banner_0;
        lemma_still_unidentified(bytes_of(before), from, line, last.bytes, last.now)
    }
}

/// A client that does not identify itself is closed once the time for that is
/// over, whatever else it sends and whenever: only a line that starts with the
/// identification ends the wait.
pub proof fn law_silent_client_is_closed(
    accepted_at: Instant,
    limits: PreauthLimits,
    arrivals: Seq<Arrival>,
    now: Instant,
)
    requires
        !identified(bytes_of(arrivals)),
        now.nanos >= accepted_at.nanos + limits.client_banner_timeout.total(),
    ensures
        watch_after(
            (PreauthWatch {
                accepted_at,
                limits,
                phase: PreauthPhase::Banner(LineStart::Agrees(0)),
                authenticated: false,
            }),
            arrivals,
        ).verdict_at(now) is Some,
{
    let w = PreauthWatch {
        accepted_at,
        limits,
        phase: PreauthPhase::Banner(LineStart::Agrees(0)),
        authenticated: false,
    };
    lemma_arrivals_unidentified(w, arrivals);
}

/// A client that has identified itself and then sends less than the start of a
/// packet is closed once the time for that is over; sending single bytes does
/// not put it off.
pub proof fn law_stalled_key_exchange_is_closed(
    w: PreauthWatch,
    since: Instant,
    seen: u8,
    bytes: Seq<u8>,
    at: Instant,
    now: Instant,
)
    requires
        !w.authenticated,
        w.phase == (PreauthPhase::Kex { since, seen }),
        seen + bytes.len() < KEX_HEADER_LEN,
        now.nanos >= since.nanos + w.limits.kex_start_timeout.total(),
    ensures
        (PreauthWatch { phase: phase_behind(w.phase, bytes, at), ..w }).verdict_at(now) is Some,
{
    lemma_kex_counts(since, seen, bytes, at);
}

proof fn lemma_kex_counts(since: Instant, seen: u8, bytes: Seq<u8>, at: Instant)
    requires
        seen + bytes.len() < KEX_HEADER_LEN,
    ensures
        phase_behind(PreauthPhase::Kex { since, seen }, bytes, at) == (PreauthPhase::Kex {
            since,
            seen: (seen + bytes.len()) as u8,
        }),
    decreases bytes.len(),
{
    if bytes.len() > 0 {
        lemma_kex_counts(since, seen, bytes.drop_last(), at);
    }
}

/// A connection that has logged in is never closed for its time.
pub proof fn law_logged_in_has_no_deadline(w: PreauthWatch, now: Instant)
    requires
        w.authenticated,
    ensures
        w.verdict_at(now) is None,
{
}

/// What a connection holds until it logs in.
#[derive(Debug)]
pub struct PreauthContext {
    admission_guard: Option<AdmissionGuard>,
}

impl PreauthContext {
    /// The peer whose connection still counts as not logged in.
    pub closed spec fn held(self) -> Option<crate::net::IpAddr> {
        match self.admission_guard {
            Some(guard) => Some(guard.peer()),
            None => None,
        }
    }

    pub fn new(admission_guard: AdmissionGuard) -> (r: Self)
        ensures
            r.held() == Some(admission_guard.peer()),
    {
        PreauthContext { admission_guard: Some(admission_guard) }
    }

    /// The connection has logged in or has ended: it no longer counts. Tells
    /// whether this is the first time.
    pub fn release(&mut self, controller: &mut AdmissionController, now: Instant) -> (r: bool)
        ensures
            final(self).held() is None,
            match old(self).held() {
                Some(ip) => r && final(controller)@ == old(controller)@.released(ip, now),
                None => !r && final(controller)@ == old(controller)@,
            },
    {
        match self.admission_guard.take() {
            Some(guard) => {
                controller.release(guard, now);
                true
            },
            None => false,
        }
    }
}

/// One link of the chain of errors behind a failure.
#[derive(Debug)]
pub struct Cause {
    /// Whether it is a system error that says that time ran out.
    pub timed_out: bool,
    pub message: String,
}

/// Whether one of the causes is that time ran out in this way.
pub open spec fn caused_by(causes: Seq<Cause>, timeout: PreauthTimeout) -> bool {
    exists|i: int|
        0 <= i < causes.len() && (#[trigger] causes[i]).timed_out && text::occurs(
            causes[i].message@,
            timeout.text(),
        )
}

/// Whether a failure came of a deadline before the login.
pub fn is_preauth_timeout(causes: &Vec<Cause>, timeout: PreauthTimeout) -> (r: bool)
    ensures
        r == caused_by(causes@, timeout),
{
    let words = text::chars_of(timeout.message());
    let mut i: usize = 0;
    while i < causes.len()
        invariant
            i <= causes@.len(),
            words@ == timeout.text(),
            forall|j: int|
                0 <= j < i ==> !((#[trigger] causes@[j]).timed_out && text::occurs(
                    causes@[j].message@,
                    timeout.text(),
                )),
        decreases causes.len() - i,
    {
        if causes[i].timed_out && text::contains_text(
            &text::chars_of(causes[i].message.as_str()),
            &words,
        ) {
            return true;
        }
        i = i + 1;
    }
    false
}

/// Whether a failure came of the time to log in being over.
pub fn is_login_grace_timeout(causes: &Vec<Cause>) -> (r: bool)
    ensures
        r == caused_by(causes@, PreauthTimeout::LoginGrace),
{
    is_preauth_timeout(causes, PreauthTimeout::LoginGrace)
}

/// Something to be said of a connection.
#[derive(Debug)]
pub struct Notice {
    /// The kind of warning that it counts as for the log limiter; none for what
    /// is said for debugging only.
    pub category: Option<&'static str>,
    pub text: String,
}

/// Whether a notice says this.
pub open spec fn notes(notice: Notice, category: Option<Seq<char>>, text: Seq<char>) -> bool {
    &&& notice.text@ == text
    &&& match (notice.category, category) {
        (Some(a), Some(b)) => a@ == b,
        (None, None) => true,
        _ => false,
    }
}

/// Four texts in a row.
fn phrase(a: &str, b: &str, c: &str, d: &str) -> (r: String)
    ensures
        r@ == a@ + b@ + c@ + d@,
{
    let mut out = values::sentence(a, b);
    out.append(c);
    out.append(d);
    out
}

impl RejectReason {
    /// The kind of warning that a refusal counts as.
    pub open spec fn kind(self) -> Seq<char> {
        match self {
            RejectReason::TooManyUnauthenticatedConnections => "admission-global-limit"@,
            RejectReason::TooManyUnauthenticatedConnectionsForIp => "admission-ip-limit"@,
            RejectReason::TooManyUnauthenticatedConnectionsForSubnet => "admission-subnet-limit"@,
            RejectReason::ConnectionRateLimited => "admission-rate-limit"@,
            RejectReason::TemporarilyBanned => "admission-banned"@,
        }
    }

    pub fn category(self) -> (r: &'static str)
        ensures
            r@ == self.kind(),
    {
        match self {
            RejectReason::TooManyUnauthenticatedConnections => "admission-global-limit",
            RejectReason::TooManyUnauthenticatedConnectionsForIp => "admission-ip-limit",
            RejectReason::TooManyUnauthenticatedConnectionsForSubnet => "admission-subnet-limit",
            RejectReason::ConnectionRateLimited => "admission-rate-limit",
            RejectReason::TemporarilyBanned => "admission-banned",
        }
    }
}

/// What is said of a connection that was turned away.
pub fn rejection_notice(peer: &str, reason: RejectReason) -> (r: Notice)
    ensures
        notes(
            r,
            Some(reason.kind()),
            "rejected connection from "@ + peer@ + ": "@ + reason.text(),
        ),
{
    Notice {
        category: Some(reason.category()),
        text: phrase("rejected connection from ", peer, ": ", reason.label()),
    }
}

/// How the start of a connection failed: the causes of the error, and the error
/// in words.
#[derive(Debug)]
pub struct SetupFailure {
    pub causes: Vec<Cause>,
    pub shown: String,
}

/// The deadline before the login that an error came of, if it came of one.
pub open spec fn timeout_behind(causes: Seq<Cause>) -> Option<PreauthTimeout> {
    if caused_by(causes, PreauthTimeout::LoginGrace) {
        Some(PreauthTimeout::LoginGrace)
    } else if caused_by(causes, PreauthTimeout::KexStart) {
        Some(PreauthTimeout::KexStart)
    } else if caused_by(causes, PreauthTimeout::Banner) {
        Some(PreauthTimeout::Banner)
    } else {
        None
    }
}

fn preauth_timeout_of(causes: &Vec<Cause>) -> (r: Option<PreauthTimeout>)
    ensures
        r == timeout_behind(causes@),
{
    if is_login_grace_timeout(causes) {
        Some(PreauthTimeout::LoginGrace)
    } else if is_preauth_timeout(causes, PreauthTimeout::KexStart) {
        Some(PreauthTimeout::KexStart)
    } else if is_preauth_timeout(causes, PreauthTimeout::Banner) {
        Some(PreauthTimeout::Banner)
    } else {
        None
    }
}

/// What is said of a connection that was closed for its time.
pub open spec fn timeout_text(peer: Seq<char>, timeout: PreauthTimeout, limits: PreauthLimits) -> Seq<
    char,
> {
    match timeout {
        PreauthTimeout::LoginGrace => "closing pre-auth connection from "@ + peer
            + " after login grace timeout of "@ + time::span_text(limits.login_grace_time),
        PreauthTimeout::KexStart => "closing pre-auth connection from "@ + peer
            + " after KEX start timeout of "@ + time::span_text(limits.kex_start_timeout),
        PreauthTimeout::Banner => "timed out waiting for SSH banner from "@ + peer + " after "@
            + time::span_text(limits.client_banner_timeout),
    }
}

/// The kind of warning that this counts as.
pub open spec fn timeout_kind(timeout: PreauthTimeout) -> Seq<char> {
    match timeout {
        PreauthTimeout::LoginGrace => "login-grace-timeout"@,
        PreauthTimeout::KexStart => "kex-start-timeout"@,
        PreauthTimeout::Banner => "banner-timeout"@,
    }
}

fn timeout_notice(peer: &str, timeout: PreauthTimeout, limits: PreauthLimits) -> (r: Notice)
    ensures
        notes(r, Some(timeout_kind(timeout)), timeout_text(peer@, timeout, limits)),
{
    match timeout {
        PreauthTimeout::LoginGrace => {
            let span = limits.login_grace_time.shown();
            Notice {
                category: Some("login-grace-timeout"),
                text: phrase(
                    "closing pre-auth connection from ",
                    peer,
                    " after login grace timeout of ",
                    span.as_str(),
                ),
            }
        },
        PreauthTimeout::KexStart => {
            let span = limits.kex_start_timeout.shown();
            Notice {
                category: Some("kex-start-timeout"),
                text: phrase(
                    "closing pre-auth connection from ",
                    peer,
                    " after KEX start timeout of ",
                    span.as_str(),
                ),
            }
        },
        PreauthTimeout::Banner => {
            let span = limits.client_banner_timeout.shown();
            Notice {
                category: Some("banner-timeout"),
                text: phrase(
                    "timed out waiting for SSH banner from ",
                    peer,
                    " after ",
                    span.as_str(),
                ),
            }
        },
    }
}

/// What is said of a connection that did not get as far as a session.
pub open spec fn setup_noted(
    notice: Notice,
    failure: SetupFailure,
    peer: Seq<char>,
    limits: PreauthLimits,
) -> bool {
    match timeout_behind(failure.causes@) {
        Some(timeout) => notes(
            notice,
            Some(timeout_kind(timeout)),
            timeout_text(peer, timeout, limits),
        ),
        None => notes(
            notice,
            None,
            "SSH setup from "@ + peer + " failed before authentication: "@ + failure.shown@,
        ),
    }
}

pub fn setup_notice(failure: SetupFailure, peer: &str, limits: PreauthLimits) -> (r: Notice)
    ensures
        setup_noted(r, failure, peer@, limits),
{
    match preauth_timeout_of(&failure.causes) {
        Some(timeout) => timeout_notice(peer, timeout, limits),
        None => Notice {
            category: None,
            text: phrase(
                "SSH setup from ",
                peer,
                " failed before authentication: ",
                failure.shown.as_str(),
            ),
        },
    }
}

/// Whether this is what is said of a session that ended with an error: only a
/// deadline before the login is worth a warning of its own.
pub open spec fn session_noted(
    notice: Option<Notice>,
    causes: Seq<Cause>,
    peer: Seq<char>,
    limits: PreauthLimits,
) -> bool {
    match (notice, timeout_behind(causes)) {
        (Some(notice), Some(timeout)) => notes(
            notice,
            Some(timeout_kind(timeout)),
            timeout_text(peer, timeout, limits),
        ),
        (None, None) => true,
        _ => false,
    }
}

pub fn session_notice(causes: &Vec<Cause>, peer: &str, limits: PreauthLimits) -> (r: Option<Notice>)
    ensures
        session_noted(r, causes@, peer@, limits),
{
    match preauth_timeout_of(causes) {
        Some(timeout) => Some(timeout_notice(peer, timeout, limits)),
        None => None,
    }
}

/// How far a connection that was let in has come.
#[derive(Clone, Copy, Debug, PartialEq, Eq, Structural)]
pub enum ConnectionStage {
    /// The SSH session is being set up.
    Handshaking,
    /// The session runs, but nobody has logged in.
    Serving,
    /// The session runs and somebody has logged in.
    LoggedIn,
    Closed,
}

/// What happens to a connection.
#[derive(Debug)]
pub enum ConnectionEvent {
    SetupDone,
    SetupFailed(SetupFailure),
    /// Somebody has logged in, at this time.
    LoggedIn(Instant),
    /// The session has ended, with an error if there are causes for one.
    Ended(Option<Vec<Cause>>),
}

/// What a connection's supervisor is to do.
#[derive(Debug)]
pub enum ConnectionAction {
    /// Let the session run.
    Serve,
    /// Say this, and let the session run on.
    Report(String),
    /// Say this if there is something to say, and be done with the connection;
    /// `failed` tells whether it ended with an error.
    Finish { notice: Option<Notice>, failed: bool },
    Nothing,
}

/// Follows a connection from the time that it was let in.
#[derive(Debug)]
pub struct ConnectionSupervisor {
    pub peer: String,
    pub limits: PreauthLimits,
    pub accepted_at: Instant,
    pub stage: ConnectionStage,
}

impl ConnectionSupervisor {
    pub fn new(peer: String, limits: PreauthLimits, accepted_at: Instant) -> (r: Self)
        ensures
            r == (ConnectionSupervisor {
                peer,
                limits,
                accepted_at,
                stage: ConnectionStage::Handshaking,
            }),
    {
        ConnectionSupervisor { peer, limits, accepted_at, stage: ConnectionStage::Handshaking }
    }

    /// The stage that an event leads to.
    pub open spec fn stage_after(self, event: ConnectionEvent) -> ConnectionStage {
        match (self.stage, event) {
            (ConnectionStage::Handshaking, ConnectionEvent::SetupDone) => ConnectionStage::Serving,
            (ConnectionStage::Handshaking, ConnectionEvent::SetupFailed(_)) =>
                ConnectionStage::Closed,
            (ConnectionStage::Serving, ConnectionEvent::LoggedIn(_)) => ConnectionStage::LoggedIn,
            (ConnectionStage::Serving, ConnectionEvent::Ended(_)) => ConnectionStage::Closed,
            (ConnectionStage::LoggedIn, ConnectionEvent::Ended(_)) => ConnectionStage::Closed,
            (stage, _) => stage,
        }
    }

    /// Whether `action` is what an event calls for.
    pub open spec fn calls_for(self, event: ConnectionEvent, action: ConnectionAction) -> bool {
        match (self.stage, event) {
            (ConnectionStage::Handshaking, ConnectionEvent::SetupDone) => action is Serve,
            (ConnectionStage::Handshaking, ConnectionEvent::SetupFailed(failure)) =>
                action matches ConnectionAction::Finish { notice: Some(notice), failed }
                && !failed && setup_noted(notice, failure, self.peer@, self.limits),
            (ConnectionStage::Serving, ConnectionEvent::LoggedIn(at)) =>
                action matches ConnectionAction::Report(text) && text@
                == "authentication completed for "@ + self.peer@ + " in "@ + time::span_text(
                time::spec_nanos(time::elapsed(self.accepted_at, at) as u64),
            ),
            (ConnectionStage::Serving, ConnectionEvent::Ended(Some(causes))) =>
                action matches ConnectionAction::Finish { notice, failed } && failed
                && session_noted(notice, causes@, self.peer@, self.limits),
            (ConnectionStage::Serving, ConnectionEvent::Ended(None)) => action
                == (ConnectionAction::Finish { notice: None, failed: false }),
            (ConnectionStage::LoggedIn, ConnectionEvent::Ended(causes)) => action
                == (ConnectionAction::Finish { notice: None, failed: causes is Some }),
            _ => action is Nothing,
        }
    }

    /// Takes an event and tells what is to be done.
    pub fn on_event(&mut self, event: ConnectionEvent) -> (r: ConnectionAction)
        ensures
            old(self).calls_for(event, r),
            *final(self) == (ConnectionSupervisor {
                stage: old(self).stage_after(event),
                ..*old(self)
            }),
    {
        match (self.stage, event) {
            (ConnectionStage::Handshaking, ConnectionEvent::SetupDone) => {
                self.stage = ConnectionStage::Serving;
                ConnectionAction::Serve
            },
            (ConnectionStage::Handshaking, ConnectionEvent::SetupFailed(failure)) => {
                self.stage = ConnectionStage::Closed;
                let notice = setup_notice(failure, self.peer.as_str(), self.limits);
                ConnectionAction::Finish { notice: Some(notice), failed: false }
            },
            (ConnectionStage::Serving, ConnectionEvent::LoggedIn(at)) => {
                self.stage = ConnectionStage::LoggedIn;
                let span = Duration::from_nanos(at.nanos_since(self.accepted_at)).shown();
                ConnectionAction::Report(
                    phrase(
                        "authentication completed for ",
                        self.peer.as_str(),
                        " in ",
                        span.as_str(),
                    ),
                )
            },
            (ConnectionStage::Serving, ConnectionEvent::Ended(Some(causes))) => {
                self.stage = ConnectionStage::Closed;
                let notice = session_notice(&causes, self.peer.as_str(), self.limits);
                ConnectionAction::Finish { notice, failed: true }
            },
            (ConnectionStage::Serving, ConnectionEvent::Ended(None)) => {
                self.stage = ConnectionStage::Closed;
                ConnectionAction::Finish { notice: None, failed: false }
            },
            (ConnectionStage::LoggedIn, ConnectionEvent::Ended(causes)) => {
                self.stage = ConnectionStage::Closed;
                ConnectionAction::Finish { notice: None, failed: causes.is_some() }
            },
            _ => ConnectionAction::Nothing,
        }
    }
}

/// A connection whose start fails is closed without an error, so that it takes
/// nothing else down with it.
pub proof fn law_failed_setup_is_contained(
    c: ConnectionSupervisor,
    failure: SetupFailure,
    action: ConnectionAction,
)
    requires
        c.stage == ConnectionStage::Handshaking,
        c.calls_for(ConnectionEvent::SetupFailed(failure), action),
    ensures
        c.stage_after(ConnectionEvent::SetupFailed(failure)) == ConnectionStage::Closed,
        action matches ConnectionAction::Finish { failed, .. } && !failed,
{
}

/// A connection is closed exactly when its time is over: the time to log in at
/// any stage, the time to identify itself as long as the client has not, and the
/// time to start the key exchange once it has. The reason is the time that is
/// over, and the time to log in comes first.
pub proof fn law_connections_are_closed_on_time(
    w: &PreauthWatch,
    now: Instant,
    r: Option<PreauthTimeout>,
)
    requires
        call_ensures(PreauthWatch::verdict, (w, now), r),
    ensures
        ({
            let login = w.accepted_at.nanos + w.limits.login_grace_time.secs * 1_000_000_000
                + w.limits.login_grace_time.nanos;
            let banner = w.accepted_at.nanos + w.limits.client_banner_timeout.secs * 1_000_000_000
                + w.limits.client_banner_timeout.nanos;
            &&& w.authenticated ==> r is None
            &&& !w.authenticated && now.nanos >= login ==> r == Some(PreauthTimeout::LoginGrace)
            &&& !w.authenticated && now.nanos < login ==> match w.phase {
                PreauthPhase::Banner(_) => if now.nanos >= banner {
                    r == Some(PreauthTimeout::Banner)
                } else {
                    r is None
                },
                PreauthPhase::Kex { since, .. } => if now.nanos >= since.nanos
                    + w.limits.kex_start_timeout.secs * 1_000_000_000
                    + w.limits.kex_start_timeout.nanos {
                    r == Some(PreauthTimeout::KexStart)
                } else {
                    r is None
                },
                PreauthPhase::Started => r is None,
            }
        }),
{
}

/// The next time to look is the first at which the connection is closed.
pub proof fn law_next_look_is_at_the_first_deadline(
    w: &PreauthWatch,
    r: Option<u128>,
    now: Instant,
    verdict: Option<PreauthTimeout>,
)
    requires
        call_ensures(PreauthWatch::next_deadline, (w,), r),
        call_ensures(PreauthWatch::verdict, (w, now), verdict),
    ensures
        r is None <==> w.authenticated,
        r matches Some(at) ==> (verdict is Some <==> now.nanos >= at),
{
    if r is Some {
        assert(w.verdict_at(now) is None <==> now.nanos < r->0);
    }
}

proof fn lemma_identifying_line(line: Seq<u8>, n: nat, now: Instant)
    requires
        n <= line.len(),
        line.len() >= 4,
        line[0] == 83 && line[1] == 83 && line[2] == 72 && line[3] == 45,
        forall|i: int| 0 <= i < line.len() ==> line[i] != 10,
    ensures
        phase_behind(PreauthPhase::Banner(LineStart::Agrees(0)), line.take(n as int), now) == (
        if n < 4 {
            PreauthPhase::Banner(LineStart::Agrees(n as u8))
        } else {
            PreauthPhase::Banner(LineStart::Identifies)
        }),
    decreases n,
{
    if n > 0 {
        lemma_identifying_line(line, (n - 1) as nat, now);
        assert(line.take(n as int).drop_last() =~= line.take(n - 1));
        assert(line.take(n as int).last() == line[n - 1]);
    }
}

/// A client that sends a line which starts with `SSH-` has identified itself at
/// the end of that line, whatever else the line holds; six bytes behind it the
/// key exchange has started, whatever they are, and five do not do.
pub proof fn law_identified_client_goes_on(
    rest: Seq<u8>,
    header: Seq<u8>,
    now: Instant,
    later: Instant,
)
    requires
        forall|i: int| 0 <= i < rest.len() ==> rest[i] != 10,
    ensures
        ({
            let line = seq![83u8, 83, 72, 45] + rest;
            let start = PreauthPhase::Banner(LineStart::Agrees(0));
            let there = phase_behind(start, line.push(10), now);
            &&& there == (PreauthPhase::Kex { since: now, seen: 0 })
            &&& phase_behind(start, line, now) is Banner
            &&& header.len() == 6 ==> phase_behind(there, header, later) is Started
            &&& header.len() == 5 ==> phase_behind(there, header, later) is Kex
        }),
{
    let line = seq![83u8, 83, 72, 45] + rest;
    assert forall|i: int| 0 <= i < line.len() implies line[i] != 10 by {
        if i >= 4 {
            assert(line[i] == rest[i - 4]);
        }
    }
    lemma_identifying_line(line, line.len(), now);
    assert(line.take(line.len() as int) =~= line);
    assert(line.push(10).drop_last() =~= line);
    if header.len() == 5 {
        lemma_kex_counts(now, 0, header, later);
    }
    if header.len() == 6 {
        lemma_kex_counts(now, 0, header.drop_last(), later);
    }
}

/// A line that starts otherwise does not count: behind it the client is where it
/// began.
pub proof fn law_other_lines_do_not_count(line: Seq<u8>, now: Instant)
    requires
        forall|i: int| 0 <= i < line.len() ==> line[i] != 10,
        !(line.len() >= 4 && line[0] == 83 && line[1] == 83 && line[2] == 72 && line[3] == 45),
    ensures
        phase_behind(PreauthPhase::Banner(LineStart::Agrees(0)), line.push(10), now)
            == PreauthPhase::Banner(LineStart::Agrees(0)),
{
    lemma_other_line(line, line.len(), now);
    assert(line.take(line.len() as int) =~= line);
    assert(line.push(10).drop_last() =~= line);
}

proof fn lemma_other_line(line: Seq<u8>, n: nat, now: Instant)
    requires
        n <= line.len(),
        forall|i: int| 0 <= i < line.len() ==> line[i] != 10,
        !(line.len() >= 4 && line[0] == 83 && line[1] == 83 && line[2] == 72 && line[3] == 45),
    ensures
        ({
            let phase = phase_behind(
                PreauthPhase::Banner(LineStart::Agrees(0)),
                line.take(n as int),
                now,
            );
            ||| phase == PreauthPhase::Banner(LineStart::Differs)
            ||| phase == PreauthPhase::Banner(LineStart::Agrees(n as u8)) && n < 4 && (n >= 1
                ==> line[0] == 83) && (n >= 2 ==> line[1] == 83) && (n >= 3 ==> line[2] == 72)
        }),
    decreases n,
{
    if n > 0 {
        lemma_other_line(line, (n - 1) as nat, now);
        assert(line.take(n as int).drop_last() =~= line.take(n - 1));
        assert(line.take(n as int).last() == line[n - 1]);
    }
}

/// A connection starts unidentified and not logged in, with the limits that it
/// was given; what the client sends changes neither them nor the start, and
/// only a login logs it in.
pub proof fn law_limits_stay(
    accepted_at: Instant,
    limits: PreauthLimits,
    fresh: PreauthWatch,
    w: &mut PreauthWatch,
    bytes: &Vec<u8>,
    now: Instant,
    done: &mut PreauthWatch,
)
    requires
        call_ensures(PreauthWatch::new, (accepted_at, limits), fresh),
        call_ensures(PreauthWatch::observe, (w, bytes, now), ()),
        call_ensures(PreauthWatch::mark_authenticated, (done,), ()),
    ensures
        fresh.accepted_at == accepted_at,
        fresh.limits == limits,
        fresh.phase == PreauthPhase::Banner(LineStart::Agrees(0)),
        !fresh.authenticated,
        final(w).accepted_at == old(w).accepted_at,
        final(w).limits == old(w).limits,
        final(w).authenticated == old(w).authenticated,
        final(done).authenticated,
{
}

/// An operation on a connection fails when the connection is to be closed, even
/// if it could be done; else it is done if it can be, and a connection that has
/// not logged in is looked at again when it cannot.
pub proof fn law_operations_fail_when_time_is_over(
    w: &PreauthWatch,
    now: Instant,
    ready: bool,
    r: PollDecision,
    verdict: Option<PreauthTimeout>,
)
    requires
        call_ensures(poll_decision, (w, now, ready), r),
        call_ensures(PreauthWatch::verdict, (w, now), verdict),
    ensures
        verdict matches Some(timeout) ==> r == PollDecision::Fail(timeout),
        verdict is None && ready ==> r is Pass,
        verdict is None && !ready && !w.authenticated ==> r is Wait,
        w.authenticated ==> r is Pass,
{
}

/// A connection counts as not logged in from the time it is let in until it is
/// released, which happens once.
pub proof fn law_connection_is_released_once(
    guard: AdmissionGuard,
    fresh: PreauthContext,
    context: &mut PreauthContext,
    controller: &mut AdmissionController,
    now: Instant,
    first: bool,
)
    requires
        call_ensures(PreauthContext::new, (guard,), fresh),
        call_ensures(PreauthContext::release, (context, controller, now), first),
    ensures
        fresh.held() == Some(guard.peer()),
        final(context).held() is None,
        first <==> old(context).held() is Some,
        !first ==> final(controller)@ == old(controller)@,
        first && old(controller)@.total > 0 ==> final(controller)@.total == old(controller)@.total
            - 1,
{
}

/// An error that says that a time is over is told apart by which: the words of
/// one are not found in those of another. One that is not about time is none.
pub proof fn law_timeouts_are_told_apart(cause: Cause, timeout: PreauthTimeout)
    requires
        cause.message@ == timeout.text(),
    ensures
        cause.timed_out ==> timeout_behind(seq![cause]) == Some(timeout),
        !cause.timed_out ==> timeout_behind(seq![cause]) is None,
        timeout_behind(Seq::empty()) is None,
{
    let causes = seq![cause];
    lemma_timeout_words();
    let kex = PreauthTimeout::KexStart.text();
    let banner = PreauthTimeout::Banner.text();
    let own = timeout.text();
    assert(own.subrange(0, 0 + own.len() as int) =~= own);
    assert(text::occurs(own, own));
    if cause.timed_out {
        assert(causes[0].timed_out && text::occurs(causes[0].message@, own));
        assert(caused_by(causes, timeout));
    }
    if timeout == PreauthTimeout::Banner && text::occurs(banner, kex) {
        let i = choose|i: int|
            0 <= i <= banner.len() - kex.len() && #[trigger] banner.subrange(i, i + kex.len())
                == kex;
        assert(banner.subrange(i, i + kex.len())[0] == banner[i]);
        assert(banner[i] != 'k');
        assert(false);
    }
}

proof fn lemma_timeout_words()
    ensures
        PreauthTimeout::LoginGrace.text().len() == 57,
        PreauthTimeout::KexStart.text().len() == 34,
        PreauthTimeout::Banner.text().len() == 38,
        PreauthTimeout::KexStart.text()[0] == 'k',
        forall|i: int| 0 <= i <= 4 ==> #[trigger] PreauthTimeout::Banner.text()[i] != 'k',
{
    reveal_strlit("login grace time exceeded before authentication completed");
    reveal_strlit("key exchange did not start in time");
    reveal_strlit("client did not identify itself in time");
    let banner = PreauthTimeout::Banner.text();
    assert(banner[0] == 'c' && banner[1] == 'l' && banner[2] == 'i' && banner[3] == 'e' && banner[4]
        == 'n');
}

/// What is said of a connection that was closed for its time is a warning of a
/// kind of its own, about the peer, and names the limit that was exceeded.
pub proof fn law_timeouts_are_noted_by_kind(
    failure: SetupFailure,
    peer: &str,
    limits: PreauthLimits,
    notice: Notice,
)
    requires
        call_ensures(setup_notice, (failure, peer, limits), notice),
    ensures
        ({
            let timeout = timeout_behind(failure.causes@);
            &&& notice.category is None <==> timeout is None
            &&& timeout == Some(PreauthTimeout::LoginGrace) ==> notice.category->0@
                == "login-grace-timeout"@ && notice.text@ == "closing pre-auth connection from "@
                + peer@ + " after login grace timeout of "@ + time::span_text(
                limits.login_grace_time,
            )
            &&& timeout == Some(PreauthTimeout::KexStart) ==> notice.category->0@
                == "kex-start-timeout"@ && notice.text@ == "closing pre-auth connection from "@
                + peer@ + " after KEX start timeout of "@ + time::span_text(
                limits.kex_start_timeout,
            )
            &&& timeout == Some(PreauthTimeout::Banner) ==> notice.category->0@ == "banner-timeout"@
                && notice.text@ == "timed out waiting for SSH banner from "@ + peer@ + " after "@
                + time::span_text(limits.client_banner_timeout)
            &&& timeout is None ==> notice.text@ == "SSH setup from "@ + peer@
                + " failed before authentication: "@ + failure.shown@
        }),
{
}

/// What is said of a session that ended is the same, but only where a time was
/// over before the login.
pub proof fn law_ended_sessions_are_noted_for_timeouts(
    causes: &Vec<Cause>,
    peer: &str,
    limits: PreauthLimits,
    notice: Option<Notice>,
)
    requires
        call_ensures(session_notice, (causes, peer, limits), notice),
    ensures
        notice is Some <==> timeout_behind(causes@) is Some,
        notice matches Some(notice) ==> notice.category is Some && (match timeout_behind(
            causes@,
        )->0 {
            PreauthTimeout::LoginGrace => notice.category->0@ == "login-grace-timeout"@,
            PreauthTimeout::KexStart => notice.category->0@ == "kex-start-timeout"@,
            PreauthTimeout::Banner => notice.category->0@ == "banner-timeout"@,
        }),
{
}

/// Each reason to turn a connection away is a warning of a kind of its own, and
/// tells the peer and the reason.
pub proof fn law_refusals_are_noted_by_kind(peer: &str, reason: RejectReason, notice: Notice)
    requires
        call_ensures(rejection_notice, (peer, reason), notice),
    ensures
        notice.category is Some,
        notice.category->0@ == match reason {
            RejectReason::TooManyUnauthenticatedConnections => "admission-global-limit"@,
            RejectReason::TooManyUnauthenticatedConnectionsForIp => "admission-ip-limit"@,
            RejectReason::TooManyUnauthenticatedConnectionsForSubnet => "admission-subnet-limit"@,
            RejectReason::ConnectionRateLimited => "admission-rate-limit"@,
            RejectReason::TemporarilyBanned => "admission-banned"@,
        },
        notice.text@ == "rejected connection from "@ + peer@ + ": "@ + match reason {
            RejectReason::TooManyUnauthenticatedConnections =>
                "global unauthenticated connection limit reached"@,
            RejectReason::TooManyUnauthenticatedConnectionsForIp =>
                "per-IP unauthenticated connection limit reached"@,
            RejectReason::TooManyUnauthenticatedConnectionsForSubnet =>
                "per-subnet unauthenticated connection limit reached"@,
            RejectReason::ConnectionRateLimited => "connection rate limited"@,
            RejectReason::TemporarilyBanned =>
                "peer temporarily banned after repeated authentication failures"@,
        },
{
}

/// A connection goes from its start to a session, to a login and to its end, and
/// never back; a session is served only once it is set up, an end finishes it,
/// and only an end with an error before the login is noted.
pub proof fn law_connections_go_forward(
    c: &mut ConnectionSupervisor,
    event: ConnectionEvent,
    action: ConnectionAction,
)
    requires
        call_ensures(ConnectionSupervisor::on_event, (c, event), action),
    ensures
        ({
            let before = old(c).stage;
            let after = final(c).stage;
            &&& before is Handshaking && event is SetupDone ==> after is Serving && action is Serve
            &&& before is Handshaking && event is SetupFailed ==> after is Closed
                && action is Finish && !action->failed && action->notice is Some
            &&& before is Serving && event is LoggedIn ==> after is LoggedIn && action is Report
            &&& before is Serving && event is Ended ==> after is Closed && action is Finish && (
            action->failed <==> event->Ended_0 is Some) && (event->Ended_0 is None
                ==> action->notice is None) && (event->Ended_0 is Some ==> (action->notice is Some
                <==> timeout_behind(event->Ended_0->0@) is Some))
            &&& before is LoggedIn && event is Ended ==> after is Closed && action is Finish && (
            action->failed <==> event->Ended_0 is Some) && action->notice is None
            &&& before is Closed ==> after is Closed && action is Nothing
            &&& action is Nothing ==> after == before
            &&& before is LoggedIn && !(event is Ended) ==> after is LoggedIn && action is Nothing
            &&& before is Serving && (event is SetupDone || event is SetupFailed)
                ==> after is Serving && action is Nothing
            &&& before is Handshaking && (event is LoggedIn || event is Ended)
                ==> after is Handshaking && action is Nothing
            &&& final(c).peer == old(c).peer
            &&& final(c).limits == old(c).limits
            &&& final(c).accepted_at == old(c).accepted_at
        }),
{
}

/// A connection that has been let in starts with its handshake.
pub proof fn law_connections_start_with_the_handshake(
    peer: String,
    limits: PreauthLimits,
    accepted_at: Instant,
    c: ConnectionSupervisor,
)
    requires
        call_ensures(ConnectionSupervisor::new, (peer, limits, accepted_at), c),
    ensures
        c.stage is Handshaking,
        c.peer@ == peer@,
        c.limits == limits,
        c.accepted_at == accepted_at,
{
}

/// Each timeout is told in its own words.
pub proof fn law_timeouts_are_told_in_words(e: PreauthTimeout, words: &'static str)
    requires
        call_ensures(PreauthTimeout::message, (e,), words),
    ensures
        words@ == (match e {
            PreauthTimeout::LoginGrace =>
                "login grace time exceeded before authentication completed"@,
            PreauthTimeout::KexStart => "key exchange did not start in time"@,
            PreauthTimeout::Banner => "client did not identify itself in time"@,
        }),
{
}

/// Warnings of connections that are turned away are limited by a category of
/// their own for each reason.
pub proof fn law_refusals_have_categories(e: RejectReason, words: &'static str)
    requires
        call_ensures(RejectReason::category, (e,), words),
    ensures
        words@ == (match e {
            RejectReason::TooManyUnauthenticatedConnections => "admission-global-limit"@,
            RejectReason::TooManyUnauthenticatedConnectionsForIp => "admission-ip-limit"@,
            RejectReason::TooManyUnauthenticatedConnectionsForSubnet => "admission-subnet-limit"@,
            RejectReason::ConnectionRateLimited => "admission-rate-limit"@,
            RejectReason::TemporarilyBanned => "admission-banned"@,
        }),
{
}

/// A login is told of with the peer and the time that it took since the
/// connection was let in.
pub proof fn law_login_is_told_with_its_time(
    supervisor: &mut ConnectionSupervisor,
    at: Instant,
    action: ConnectionAction,
    took: Duration,
    span: String,
)
    requires
        old(supervisor).stage is Serving,
        call_ensures(
            ConnectionSupervisor::on_event,
            (supervisor, ConnectionEvent::LoggedIn(at)),
            action,
        ),
        old(supervisor).accepted_at.nanos <= at.nanos,
        took.nanos < 1_000_000_000,
        took.secs * 1_000_000_000 + took.nanos == at.nanos - old(supervisor).accepted_at.nanos,
        call_ensures(Duration::shown, (took,), span),
    ensures
        action is Report,
        action->Report_0@ == "authentication completed for "@ + old(supervisor).peer@ + " in "@
            + span@,
{
    let n = (at.nanos - old(supervisor).accepted_at.nanos) as u64;
    assert(time::spec_nanos(n) == took);
}

/// A failure came of the time to log in being over exactly if it came of that
/// timeout; it did if one of its causes says that time ran out, in the words of
/// that timeout, and not if no cause is about time.
pub proof fn law_login_timeout_is_one_of_the_timeouts(
    causes: &Vec<Cause>,
    grace: bool,
    told: bool,
    other: PreauthTimeout,
    also: bool,
    i: int,
)
    requires
        call_ensures(is_login_grace_timeout, (causes,), grace),
        call_ensures(is_preauth_timeout, (causes, PreauthTimeout::LoginGrace), told),
        call_ensures(is_preauth_timeout, (causes, other), also),
    ensures
        grace == told,
        0 <= i < causes@.len() && causes@[i].timed_out && causes@[i].message@
            == "login grace time exceeded before authentication completed"@ ==> grace,
        (forall|j: int| 0 <= j < causes@.len() ==> !(#[trigger] causes@[j]).timed_out) ==> !grace
            && !also,
{
    let own = PreauthTimeout::LoginGrace.text();
    assert(own.subrange(0, 0 + own.len() as int) =~= own);
    assert(text::occurs(own, own));
}

} // verus!
