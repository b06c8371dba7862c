//! Protocol detection: whether a connection carries HTTP/1 or HTTP/2.
//!
//! Detection is a state machine over the bytes read so far and a clock. The
//! caller reads from the connection and watches the clock; it reports bytes,
//! ticks and closure here, and is told when the matter is settled. One
//! detector serves one connection, once: a settled detector stays settled.

use vstd::prelude::*;
use crate::errors::DetectionError;
use crate::octets::has_prefix;
use crate::policy::ProxyProtocol;
use crate::request::HttpVersion;

verus! {

/// The HTTP/2 connection preface, `PRI * HTTP/2.0\r\n\r\nSM\r\n\r\n`.
pub const PREFACE: [u8; 24] = [
    0x50, 0x52, 0x49, 0x20, 0x2a, 0x20, 0x48, 0x54, 0x54, 0x50, 0x2f, 0x32, 0x2e, 0x30, 0x0d, 0x0a,
    0x0d, 0x0a, 0x53, 0x4d, 0x0d, 0x0a, 0x0d, 0x0a,
];

/// The bytes `HTTP/1.` that open the version of an HTTP/1 request line.
pub const VERSION_STEM: [u8; 7] = [0x48, 0x54, 0x54, 0x50, 0x2f, 0x31, 0x2e];

/// Whether the bytes begin with the whole preface.
pub open spec fn has_preface(buf: Seq<u8>) -> bool {
    has_prefix(buf, PREFACE@)
}

/// Whether the bytes are a beginning of the preface that more bytes could
/// complete.
pub open spec fn opens_preface(buf: Seq<u8>) -> bool {
    buf.len() < PREFACE@.len() && buf == PREFACE@.subrange(0, buf.len() as int)
}

/// A byte that may stand in a method: a letter, a digit or one of
/// ``!#$%&'*+-.^_`|~``.
pub open spec fn is_token_byte(b: u8) -> bool {
    ||| 0x30 <= b <= 0x39
    ||| 0x41 <= b <= 0x5a
    ||| 0x61 <= b <= 0x7a
    ||| b == 0x21
    ||| 0x23 <= b <= 0x27
    ||| b == 0x2a
    ||| b == 0x2b
    ||| b == 0x2d
    ||| b == 0x2e
    ||| b == 0x5e
    ||| b == 0x5f
    ||| b == 0x60
    ||| b == 0x7c
    ||| b == 0x7e
}

/// A byte that may stand in a request target: anything but a space, a
/// control byte and DEL.
pub open spec fn is_target_byte(b: u8) -> bool {
    b > 0x20 && b != 0x7f
}

/// Whether `line` is a request line with its spaces at `a` and `b`: a method
/// of token bytes, a space, a target, a space, and `HTTP/1.` with one digit.
pub open spec fn request_line_at(line: Seq<u8>, a: int, b: int) -> bool {
    &&& 0 < a
    &&& a + 1 < b
    &&& b + 9 == line.len()
    &&& line[a] == 0x20
    &&& line[b] == 0x20
    &&& forall|i: int| 0 <= i < a ==> is_token_byte(#[trigger] line[i])
    &&& forall|i: int| a < i < b ==> is_target_byte(#[trigger] line[i])
    &&& line.subrange(b + 1, b + 8) == VERSION_STEM@
    &&& 0x30 <= line[b + 8] <= 0x39
}

/// Whether `line` is an HTTP/1 request line.
pub open spec fn is_request_line(line: Seq<u8>) -> bool {
    exists|a: int, b: int| request_line_at(line, a, b)
}

/// Whether the bytes hold a line feed at `at` and none before it.
pub open spec fn line_ends_at(buf: Seq<u8>, at: int) -> bool {
    &&& 0 <= at < buf.len()
    &&& buf[at] == 0x0a
    &&& forall|i: int| 0 <= i < at ==> buf[i] != 0x0a
}

/// The line that ends with the line feed at `at`, without the feed and
/// without the carriage return before it, if there is one.
pub open spec fn line_before(buf: Seq<u8>, at: int) -> Seq<u8> {
    if at > 0 && buf[at - 1] == 0x0d {
        buf.subrange(0, at - 1)
    } else {
        buf.subrange(0, at)
    }
}

/// Whether the bytes begin with a complete HTTP/1 request line.
pub open spec fn opens_with_request_line(buf: Seq<u8>) -> bool {
    exists|at: int| line_ends_at(buf, at) && is_request_line(line_before(buf, at))
}

/// What the bytes read so far say of the protocol.
///
/// Bytes that begin with the whole preface are HTTP/2. Bytes that could
/// still grow into the preface decide nothing. Bytes that cannot be HTTP/2
/// are HTTP/1 once they hold a complete request line; until then, and where
/// their first line is no request line, they decide nothing.
pub open spec fn sniffed(buf: Seq<u8>) -> Option<HttpVersion> {
    if has_preface(buf) {
        Some(HttpVersion::Http2)
    } else if opens_preface(buf) {
        None
    } else if opens_with_request_line(buf) {
        Some(HttpVersion::Http1)
    } else {
        None
    }
}

/// Where a detector stands.
#[derive(Clone, Copy, Debug, PartialEq, Eq, Structural)]
pub enum DetectState {
    /// Reading; nothing is decided.
    Sniffing,
    /// The protocol is known.
    Detected(HttpVersion),
    /// The time budget ran out first.
    TimedOut,
    /// The connection was closed first.
    Closed,
}

/// The detector of one connection.
pub struct Detector {
    started: u64,
    timeout: u64,
    buffered: Vec<u8>,
    state: DetectState,
}

/// The mathematical view of [`Detector`].
pub struct DetectorView {
    /// The instant at which reading began.
    pub started: u64,
    /// The time budget, counted from `started`.
    pub timeout: u64,
    /// The bytes taken so far, in order.
    pub buffered: Seq<u8>,
    pub state: DetectState,
}

impl View for Detector {
    type V = DetectorView;

    closed spec fn view(&self) -> DetectorView {
        DetectorView {
            started: self.started,
            timeout: self.timeout,
            buffered: self.buffered@,
            state: self.state,
        }
    }
}

impl DetectorView {
    /// The time that has passed at `now` since reading began.
    pub open spec fn elapsed(self, now: u64) -> int {
        if now >= self.started {
            now - self.started
        } else {
            0
        }
    }

    /// Whether the budget is used up at `now`.
    pub open spec fn expired(self, now: u64) -> bool {
        self.elapsed(now) >= self.timeout
    }

    /// The state after `chunk` was read at `now`.
    ///
    /// Bytes that come after the deadline are not taken and the detector
    /// times out. Bytes that come in time are taken; if they settle the
    /// protocol it is detected, and if they do not and the budget is used up
    /// the detector times out. With no budget at all, the bytes that are
    /// there when reading begins are the only ones looked at.
    pub open spec fn after_bytes(self, chunk: Seq<u8>, now: u64) -> DetectorView {
        if self.state != DetectState::Sniffing {
            self
        } else if self.elapsed(now) > self.timeout {
            DetectorView { state: DetectState::TimedOut, ..self }
        } else {
            let buffered = self.buffered + chunk;
            match sniffed(buffered) {
                Some(version) => DetectorView { buffered, state: DetectState::Detected(version), ..self },
                None => if self.expired(now) {
                    DetectorView { buffered, state: DetectState::TimedOut, ..self }
                } else {
                    DetectorView { buffered, ..self }
                },
            }
        }
    }

    /// The state after the clock was read at `now`.
    pub open spec fn after_tick(self, now: u64) -> DetectorView {
        if self.state == DetectState::Sniffing && self.expired(now) {
            DetectorView { state: DetectState::TimedOut, ..self }
        } else {
            self
        }
    }

    /// The state after the connection was closed.
    pub open spec fn after_close(self) -> DetectorView {
        if self.state == DetectState::Sniffing {
            DetectorView { state: DetectState::Closed, ..self }
        } else {
            self
        }
    }

    /// What the caller is told: nothing while sniffing, then the version or
    /// the reason why there is none.
    pub open spec fn outcome(self) -> Option<Result<HttpVersion, DetectionError>> {
        match self.state {
            DetectState::Sniffing => None,
            DetectState::Detected(version) => Some(Ok(version)),
            DetectState::TimedOut => Some(Err(DetectionError::DetectionTimeout)),
            DetectState::Closed => Some(Err(DetectionError::ConnectionClosed)),
        }
    }
}

/// Something that happens to a connection under detection.
pub enum DetectEvent {
    /// Bytes were read at an instant.
    Bytes(Seq<u8>, u64),
    /// The clock was read.
    Tick(u64),
    /// The connection was closed.
    Close,
}

/// The state after one event.
pub open spec fn after_event(state: DetectorView, event: DetectEvent) -> DetectorView {
    match event {
        DetectEvent::Bytes(chunk, now) => state.after_bytes(chunk, now),
        DetectEvent::Tick(now) => state.after_tick(now),
        DetectEvent::Close => state.after_close(),
    }
}

/// The state after a sequence of events.
pub open spec fn after_events(state: DetectorView, events: Seq<DetectEvent>) -> DetectorView
    decreases events.len(),
{
    if events.len() == 0 {
        state
    } else {
        after_event(after_events(state, events.drop_last()), events.last())
    }
}

/// More bytes do not change what earlier bytes settled.
pub proof fn lemma_sniffed_is_stable(buf: Seq<u8>, more: Seq<u8>)
    requires
        sniffed(buf) is Some,
    ensures
        sniffed(buf + more) == sniffed(buf),
{
    let all = buf + more;
    if has_preface(buf) {
        assert(all.subrange(0, PREFACE@.len() as int) =~= buf.subrange(0, PREFACE@.len() as int));
    } else {
        if has_preface(all) {
            if buf.len() >= PREFACE@.len() {
                assert(all.subrange(0, PREFACE@.len() as int) =~= buf.subrange(
                    0,
                    PREFACE@.len() as int,
                ));
            } else {
                assert(buf =~= all.subrange(0, PREFACE@.len() as int).subrange(0, buf.len() as int));
            }
        }
        if opens_preface(all) {
            assert(buf =~= PREFACE@.subrange(0, all.len() as int).subrange(0, buf.len() as int));
            assert(buf =~= PREFACE@.subrange(0, buf.len() as int));
        }
        let at = choose|at: int| line_ends_at(buf, at) && is_request_line(line_before(buf, at));
        assert(line_ends_at(all, at));
        assert(line_before(all, at) =~= line_before(buf, at));
    }
}

/// Whether a state can be met: a detected version is the one that the bytes
/// taken settle.
pub open spec fn consistent(state: DetectorView) -> bool {
    state.state matches DetectState::Detected(version) ==> sniffed(state.buffered) == Some(version)
}

/// Every event keeps a state consistent, and a settled state is not changed
/// by any event: detection is attempted once and never again.
pub proof fn lemma_event(state: DetectorView, event: DetectEvent)
    requires
        consistent(state),
    ensures
        consistent(after_event(state, event)),
        state.state != DetectState::Sniffing ==> after_event(state, event) == state,
        after_event(state, event).started == state.started,
        after_event(state, event).timeout == state.timeout,
{
}

/// What `lemma_event` says of one event holds of any sequence of events.
pub proof fn lemma_events(state: DetectorView, events: Seq<DetectEvent>)
    requires
        consistent(state),
    ensures
        consistent(after_events(state, events)),
        state.state != DetectState::Sniffing ==> after_events(state, events) == state,
    decreases events.len(),
{
    if events.len() > 0 {
        lemma_events(state, events.drop_last());
        lemma_event(after_events(state, events.drop_last()), events.last());
    }
}

/// Whether an event brings no byte.
pub open spec fn is_silent(event: DetectEvent) -> bool {
    event matches DetectEvent::Bytes(chunk, now) ==> chunk.len() == 0
}

/// Whether an event reads the clock at or after the deadline of `state`.
pub open spec fn is_late(state: DetectorView, event: DetectEvent) -> bool {
    match event {
        DetectEvent::Bytes(chunk, now) => state.expired(now),
        DetectEvent::Tick(now) => state.expired(now),
        DetectEvent::Close => false,
    }
}

/// A connection on which no byte arrives is never given a version, whatever
/// the budget and however the events fall; and if one of the events reads the
/// clock at or after the deadline while the connection is open, detection
/// ends, and never with a version.
pub proof fn lemma_silence_detects_nothing(timeout: u64, now: u64, events: Seq<DetectEvent>)
    requires
        forall|i: int| 0 <= i < events.len() ==> is_silent(#[trigger] events[i]),
    ensures
        ({
            let begun = DetectorView {
                started: now,
                timeout,
                buffered: Seq::empty(),
                state: DetectState::Sniffing,
            };
            let end = after_events(begun, events);
            &&& end.buffered.len() == 0
            &&& !(end.state is Detected)
            &&& (exists|i: int| 0 <= i < events.len() && is_late(begun, #[trigger] events[i]))
                ==> end.state != DetectState::Sniffing
        }),
    decreases events.len(),
{
    let begun = DetectorView {
        started: now,
        timeout,
        buffered: Seq::empty(),
        state: DetectState::Sniffing,
    };
    if events.len() > 0 {
        let init = events.drop_last();
        assert forall|i: int| 0 <= i < init.len() implies is_silent(#[trigger] init[i]) by {
            assert(init[i] == events[i]);
        }
        lemma_silence_detects_nothing(timeout, now, init);
        let before = after_events(begun, init);
        lemma_events(begun, init);
        assert(before.started == now && before.timeout == timeout) by {
            lemma_events_keep_clock(begun, init);
        }
        let last = events.last();
        assert(is_silent(last));
        match last {
            DetectEvent::Bytes(chunk, at) => {
                assert(before.buffered + chunk =~= Seq::<u8>::empty());
                assert(opens_preface(Seq::<u8>::empty())) by {
                    assert(Seq::<u8>::empty() =~= PREFACE@.subrange(0, 0));
                }
                assert(!has_preface(Seq::<u8>::empty()));
            },
            _ => {},
        }
        if exists|i: int| 0 <= i < events.len() && is_late(begun, #[trigger] events[i]) {
            let i = choose|i: int| 0 <= i < events.len() && is_late(begun, #[trigger] events[i]);
            if i < init.len() {
                assert(init[i] == events[i]);
            }
        }
    }
}

/// Whether an event brings bytes within the budget of `state`.
pub open spec fn is_timely_read(state: DetectorView, event: DetectEvent) -> bool {
    event matches DetectEvent::Bytes(chunk, now) && state.elapsed(now) <= state.timeout
}

/// The deadline is hard: a version is only ever found in bytes that were
/// read within the budget.
pub proof fn lemma_detected_in_time(timeout: u64, now: u64, events: Seq<DetectEvent>)
    ensures
        ({
            let begun = DetectorView {
                started: now,
                timeout,
                buffered: Seq::empty(),
                state: DetectState::Sniffing,
            };
            after_events(begun, events).state is Detected ==> exists|i: int|
                0 <= i < events.len() && is_timely_read(begun, #[trigger] events[i])
        }),
    decreases events.len(),
{
    let begun = DetectorView {
        started: now,
        timeout,
        buffered: Seq::empty(),
        state: DetectState::Sniffing,
    };
    if events.len() > 0 {
        let init = events.drop_last();
        lemma_detected_in_time(timeout, now, init);
        lemma_events_keep_clock(begun, init);
        let before = after_events(begun, init);
        if after_events(begun, events).state is Detected {
            if before.state is Detected {
                let i = choose|i: int| 0 <= i < init.len() && is_timely_read(begun, #[trigger] init[i]);
                assert(events[i] == init[i]);
            } else {
                assert(is_timely_read(begun, events[events.len() - 1]));
            }
        }
    }
}

/// Events leave the clock settings alone.
pub proof fn lemma_events_keep_clock(state: DetectorView, events: Seq<DetectEvent>)
    ensures
        after_events(state, events).started == state.started,
        after_events(state, events).timeout == state.timeout,
    decreases events.len(),
{
    if events.len() > 0 {
        lemma_events_keep_clock(state, events.drop_last());
    }
}

/// Decides whether a byte may stand in a method.
fn token_byte(b: u8) -> (r: bool)
    ensures
        r == is_token_byte(b),
{
    (0x30 <= b && b <= 0x39) || (0x41 <= b && b <= 0x5a) || (0x61 <= b && b <= 0x7a) || b == 0x21
        || (0x23 <= b && b <= 0x27) || b == 0x2a || b == 0x2b || b == 0x2d || b == 0x2e || b == 0x5e
        || b == 0x5f || b == 0x60 || b == 0x7c || b == 0x7e
}

/// Decides whether `line` is an HTTP/1 request line.
pub fn request_line(line: &[u8]) -> (r: bool)
    ensures
        r == is_request_line(line@),
{
    let mut a: usize = 0;
    while a < line.len() && token_byte(line[a])
        invariant
            a <= line.len(),
            forall|i: int| 0 <= i < a ==> is_token_byte(#[trigger] line@[i]),
        decreases line.len() - a,
    {
        a += 1;
    }
    if a == 0 || a >= line.len() || line[a] != 0x20 {
        assert forall|x: int, y: int| !request_line_at(line@, x, y) by {
            if request_line_at(line@, x, y) {
                if x < a {
                    assert(is_token_byte(line@[x]));
                } else if x > a {
                    assert(is_token_byte(line@[a as int]));
                }
            }
        }
        return false;
    }
    let mut b: usize = a + 1;
    while b < line.len() && line[b] > 0x20 && line[b] != 0x7f
        invariant
            a < b <= line.len(),
            forall|i: int| a < i < b ==> is_target_byte(#[trigger] line@[i]),
        decreases line.len() - b,
    {
        b += 1;
    }
    proof {
        assert forall|x: int, y: int| request_line_at(line@, x, y) implies x == a && y == b by {
            if x < a {
                assert(is_token_byte(line@[x]));
            } else if x > a {
                assert(is_token_byte(line@[a as int]));
            }
            if y < b {
                assert(is_target_byte(line@[y]));
            } else if y > b {
                assert(is_target_byte(line@[b as int]));
            }
        }
    }
    if b == a + 1 || b >= line.len() || line[b] != 0x20 || line.len() - b != 9 {
        return false;
    }
    let mut i: usize = 0;
    while i < 7
        invariant
            i <= 7,
            b + 9 == line.len(),
            forall|k: int| 0 <= k < i ==> line@[b + 1 + k] == VERSION_STEM@[k],
            forall|x: int, y: int| request_line_at(line@, x, y) ==> x == a && y == b,
        decreases 7 - i,
    {
        if line[b + 1 + i] != VERSION_STEM[i] {
            assert(line@.subrange(b + 1, b + 8)[i as int] != VERSION_STEM@[i as int]);
            return false;
        }
        i += 1;
    }
    assert(line@.subrange(b + 1, b + 8) =~= VERSION_STEM@);
    let digit = line[b + 8];
    if 0x30 <= digit && digit <= 0x39 {
        assert(request_line_at(line@, a as int, b as int));
        true
    } else {
        false
    }
}

/// Decides what the bytes read so far say of the protocol.
pub fn sniff(buf: &[u8]) -> (r: Option<HttpVersion>)
    ensures
        r == sniffed(buf@),
{
    let mut i: usize = 0;
    while i < buf.len() && i < 24
        invariant
            i <= buf.len(),
            i <= 24,
            forall|k: int| 0 <= k < i ==> buf@[k] == PREFACE@[k],
        decreases buf.len() - i,
    {
        if buf[i] != PREFACE[i] {
            proof {
                if has_preface(buf@) {
                    assert(buf@.subrange(0, 24)[i as int] == PREFACE@[i as int]);
                }
                if opens_preface(buf@) {
                    assert(PREFACE@.subrange(0, buf.len() as int)[i as int] == buf@[i as int]);
                }
            }
            return first_line_http1(buf);
        }
        i += 1;
    }
    if i == 24 {
        assert(buf@.subrange(0, 24) =~= PREFACE@);
        Some(HttpVersion::Http2)
    } else {
        assert(buf@ =~= PREFACE@.subrange(0, buf.len() as int));
        None
    }
}

/// Decides whether the bytes begin with a complete HTTP/1 request line.
fn first_line_http1(buf: &[u8]) -> (r: Option<HttpVersion>)
    ensures
        r == if opens_with_request_line(buf@) {
            Some(HttpVersion::Http1)
        } else {
            None::<HttpVersion>
        },
{
    let mut at: usize = 0;
    while at < buf.len() && buf[at] != 0x0a
        invariant
            at <= buf.len(),
            forall|i: int| 0 <= i < at ==> buf@[i] != 0x0a,
        decreases buf.len() - at,
    {
        at += 1;
    }
    if at >= buf.len() {
        assert forall|x: int| !line_ends_at(buf@, x) by {}
        return None;
    }
    assert(line_ends_at(buf@, at as int));
    assert forall|x: int| line_ends_at(buf@, x) implies x == at by {
        if x < at {
            assert(buf@[x] != 0x0a);
        }
    }
    let end: usize = if at > 0 && buf[at - 1] == 0x0d {
        at - 1
    } else {
        at
    };
    let line = vstd::slice::slice_subrange(buf, 0, end);
    assert(line@ == line_before(buf@, at as int));
    if request_line(line) {
        Some(HttpVersion::Http1)
    } else {
        None
    }
}

impl Detector {
    /// What holds of every detector: a detected version is the one that the
    /// bytes taken settle.
    #[verifier::type_invariant]
    closed spec fn well_formed(self) -> bool {
        consistent(self@)
    }

    /// Begins detection at `now` with a budget of `timeout` time units.
    pub fn start(timeout: u64, now: u64) -> (d: Detector)
        ensures
            d@ == (DetectorView {
                started: now,
                timeout,
                buffered: Seq::empty(),
                state: DetectState::Sniffing,
            }),
    {
        Detector { started: now, timeout, buffered: Vec::new(), state: DetectState::Sniffing }
    }

    /// Where the detector stands.
    pub fn state(&self) -> (s: DetectState)
        ensures
            s == self@.state,
    {
        self.state
    }

    /// The bytes taken so far: what is handed on with the connection.
    pub fn buffered(&self) -> (bytes: &Vec<u8>)
        ensures
            bytes@ == self@.buffered,
    {
        &self.buffered
    }

    /// What the caller is told at this point.
    pub fn outcome(&self) -> (r: Option<Result<HttpVersion, DetectionError>>)
        ensures
            r == self@.outcome(),
            r matches Some(Ok(version)) ==> sniffed(self@.buffered) == Some(version),
    {
        proof {
            use_type_invariant(self);
        }
        match self.state {
            DetectState::Sniffing => None,
            DetectState::Detected(version) => Some(Ok(version)),
            DetectState::TimedOut => Some(Err(DetectionError::DetectionTimeout)),
            DetectState::Closed => Some(Err(DetectionError::ConnectionClosed)),
        }
    }

    /// The time left of the budget at `now`; zero once it is used up.
    pub fn remaining(&self, now: u64) -> (left: u64)
        ensures
            left == if self@.expired(now) {
                0
            } else {
                self@.timeout - self@.elapsed(now)
            },
    {
        let elapsed: u64 = if now >= self.started {
            now - self.started
        } else {
            0
        };
        if elapsed >= self.timeout {
            0
        } else {
            self.timeout - elapsed
        }
    }

    /// Takes bytes read at `now` and says whether detection is settled.
    pub fn on_bytes(&mut self, chunk: &[u8], now: u64) -> (r: Option<
        Result<HttpVersion, DetectionError>,
    >)
        ensures
            final(self)@ == old(self)@.after_bytes(chunk@, now),
            r == final(self)@.outcome(),
    {
        match self.state {
            DetectState::Sniffing => {},
            _ => {
                return self.outcome();
            },
        }
        let elapsed: u64 = if now >= self.started {
            now - self.started
        } else {
            0
        };
        if elapsed > self.timeout {
            self.state = DetectState::TimedOut;
            return self.outcome();
        }
        let mut buffered = self.buffered.clone();
        buffered.extend_from_slice(chunk);
        assert(buffered@ =~= self.buffered@ + chunk@);
        let version = sniff(buffered.as_slice());
        self.buffered = buffered;
        match version {
            Some(version) => {
                self.state = DetectState::Detected(version);
            },
            None => {
                if elapsed >= self.timeout {
                    self.state = DetectState::TimedOut;
                }
            },
        }
        self.outcome()
    }

    /// Takes a reading of the clock and says whether detection is settled.
    pub fn on_tick(&mut self, now: u64) -> (r: Option<Result<HttpVersion, DetectionError>>)
        ensures
            final(self)@ == old(self)@.after_tick(now),
            r == final(self)@.outcome(),
    {
        let elapsed: u64 = if now >= self.started {
            now - self.started
        } else {
            0
        };
        match self.state {
            DetectState::Sniffing => {
                if elapsed >= self.timeout {
                    self.state = DetectState::TimedOut;
                }
            },
            _ => {},
        }
        self.outcome()
    }

    /// Takes note that the connection was closed.
    pub fn on_close(&mut self) -> (r: Option<Result<HttpVersion, DetectionError>>)
        ensures
            final(self)@ == old(self)@.after_close(),
            r == final(self)@.outcome(),
    {
        match self.state {
            DetectState::Sniffing => {
                self.state = DetectState::Closed;
            },
            _ => {},
        }
        self.outcome()
    }

    /// Ends detection: the version and the bytes read ahead, or the reason
    /// why there is no version. `None` while nothing is settled.
    pub fn finish(self) -> (r: Option<Result<(HttpVersion, Vec<u8>), DetectionError>>)
        ensures
            match self@.outcome() {
                None => r is None,
                Some(Err(e)) => r == Some(Err::<(HttpVersion, Vec<u8>), DetectionError>(e)),
                Some(Ok(version)) => r matches Some(Ok(found)) && found.0 == version && found.1@
                    == self@.buffered && sniffed(found.1@) == Some(version),
            },
    {
        proof {
            use_type_invariant(&self);
        }
        match self.state {
            DetectState::Sniffing => None,
            DetectState::Detected(version) => Some(Ok((version, self.buffered))),
            DetectState::TimedOut => Some(Err(DetectionError::DetectionTimeout)),
            DetectState::Closed => Some(Err(DetectionError::ConnectionClosed)),
        }
    }
}

/// How the protocol of a new connection is settled.
pub enum Settling {
    /// The policy fixes the protocol; nothing is sniffed.
    Fixed(HttpVersion),
    /// The protocol is sniffed by this detector.
    Sniffed(Detector),
}

impl ProxyProtocol {
    /// Begins to settle the protocol of a connection accepted under this
    /// policy. A detecting policy starts a detector at `now` with its own
    /// budget; a fixed protocol skips detection.
    pub fn settle(&self, now: u64) -> (r: Settling)
        ensures
            match *self {
                ProxyProtocol::Detect { timeout, .. } => r matches Settling::Sniffed(d) && d@ == (
                DetectorView {
                    started: now,
                    timeout,
                    buffered: Seq::empty(),
                    state: DetectState::Sniffing,
                }),
                ProxyProtocol::Http1(_) => r matches Settling::Fixed(v) && v == HttpVersion::Http1,
                ProxyProtocol::Http2(_) => r matches Settling::Fixed(v) && v == HttpVersion::Http2,
            },
    {
        match self {
            ProxyProtocol::Detect { timeout, .. } => Settling::Sniffed(Detector::start(*timeout, now)),
            ProxyProtocol::Http1(_) => Settling::Fixed(HttpVersion::Http1),
            ProxyProtocol::Http2(_) => Settling::Fixed(HttpVersion::Http2),
        }
    }
}

} // verus!
