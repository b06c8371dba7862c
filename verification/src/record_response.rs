//! Request and response duration recording.
//!
//! A recorded exchange yields one duration, observed when the response
//! stream truly ends: at its last data frame, at its trailers, at an error,
//! or when the stream is abandoned. The types here hold what the recorder
//! has to remember and decide; the caller drives them from its service and
//! body wrappers, reads the clock, and performs the observation it is handed.
//!
//! Instants and durations are nanoseconds on a monotonic clock of the
//! caller's choosing.

use vstd::prelude::*;
use crate::request::{HeaderField, Request};
use crate::stack::{ExtractParam, NewService};

verus! {

/// The outcome given to a labeler when a response stream is abandoned before
/// it reached its end.
#[derive(Clone, Copy, Debug)]
pub struct RequestCancelled(());

impl RequestCancelled {
    /// The one value of this type.
    pub closed spec fn value() -> RequestCancelled {
        RequestCancelled(())
    }

    /// What a labeler is told of an abandoned stream.
    pub fn message(&self) -> (text: &'static str)
        ensures
            text@ == "request was cancelled before completion"@,
    {
        "request was cancelled before completion"
    }
}

/// The error that ends an abandoned stream.
pub open spec fn cancelled() -> StreamError {
    StreamError::Cancelled(RequestCancelled::value())
}

/// Why a response stream ended without completing.
#[derive(Clone, Debug)]
pub enum StreamError {
    /// The stream was dropped before its end. Used to label the exchange and
    /// never handed to the caller of the service.
    Cancelled(RequestCancelled),
    /// The inner service or its body failed with this message.
    Failed(String),
}

/// The head of a response.
#[derive(Clone, Debug)]
pub struct ResponseHead {
    pub status: u16,
    pub headers: Vec<HeaderField>,
}

/// Decides, request by request, whether an exchange is recorded, and makes
/// the labeler of one that is.
pub trait MkStreamLabel {
    type EncodeLabelSet: Clone + Eq + core::fmt::Debug + core::hash::Hash + Send + Sync + 'static;

    type StreamLabel: StreamLabel<EncodeLabelSet = Self::EncodeLabelSet>;

    /// Returns `None` when the request should not be recorded.
    fn mk_stream_labeler(&self, req: &Request) -> Option<Self::StreamLabel>;
}

/// Follows one exchange and names the label set under which its duration is
/// recorded.
pub trait StreamLabel: Send + 'static {
    type EncodeLabelSet: Clone + Eq + core::fmt::Debug + core::hash::Hash + Send + Sync + 'static;

    /// Called once when the response head has arrived.
    fn init_response(&mut self, rsp: &ResponseHead);

    /// Called once when the response stream has ended: with its trailers, if
    /// it had any, or with the error that ended it.
    fn end_response(
        self,
        trailers: Result<Option<&Vec<HeaderField>>, &StreamError>,
    ) -> Self::EncodeLabelSet;
}

/// What a recorder is built from.
pub struct Params<L: MkStreamLabel, M> {
    pub labeler: L,
    pub metric: M,
}

/// Marks a recorder that measures from the arrival of the request to the end
/// of the response stream. Holds the histogram family it reports to.
#[derive(Clone, Debug)]
pub struct RequestDuration<F>(F);

/// Marks a recorder that measures from the end of the request stream to the
/// end of the response stream. Holds the histogram family it reports to.
#[derive(Clone, Debug)]
pub struct ResponseDuration<F>(F);

/// The upper bounds of the duration histograms' buckets, in milliseconds.
/// Both duration metrics use this one scheme.
pub const DURATION_BUCKETS_MILLIS: [u64; 7] = [25, 100, 250, 1000, 2500, 10000, 25000];

impl<F> RequestDuration<F> {
    /// The family reported to.
    pub closed spec fn family(&self) -> F {
        self.0
    }

    /// Marks `family` as the request-duration metric.
    pub fn new(family: F) -> (r: Self)
        ensures
            r.family() == family,
    {
        RequestDuration(family)
    }

    /// The family reported to.
    pub fn get(&self) -> (family: &F)
        ensures
            *family == self.family(),
    {
        &self.0
    }

    /// The name the metric is registered under. Its unit is seconds.
    pub fn name() -> (name: &'static str)
        ensures
            name@ == "request_duration"@,
    {
        "request_duration"
    }

    /// The help text the metric is registered with.
    pub fn help() -> (help: &'static str)
        ensures
            help@ == "The time between request initialization and response completion"@,
    {
        "The time between request initialization and response completion"
    }
}

impl<F> ResponseDuration<F> {
    /// The family reported to.
    pub closed spec fn family(&self) -> F {
        self.0
    }

    /// Marks `family` as the response-duration metric.
    pub fn new(family: F) -> (r: Self)
        ensures
            r.family() == family,
    {
        ResponseDuration(family)
    }

    /// The family reported to.
    pub fn get(&self) -> (family: &F)
        ensures
            *family == self.family(),
    {
        &self.0
    }

    /// The name the metric is registered under. Its unit is seconds.
    pub fn name() -> (name: &'static str)
        ensures
            name@ == "response_duration"@,
    {
        "response_duration"
    }

    /// The help text the metric is registered with.
    pub fn help() -> (help: &'static str)
        ensures
            help@ == "The time between request completion and response completion"@,
    {
        "The time between request completion and response completion"
    }
}

/// Builds `RecordResponse` services: `extract` pulls the labeler and metric
/// out of a stack target, `inner` builds the service that is wrapped.
#[derive(Debug)]
pub struct NewRecordResponse<L, X, M, N> {
    inner: N,
    extract: X,
    _marker: core::marker::PhantomData<(L, M)>,
}

/// A service wrapper that records request or response durations.
#[derive(Clone, Debug)]
pub struct RecordResponse<L, M, S> {
    inner: S,
    labeler: L,
    metric: M,
}

impl<L, X, M, N> NewRecordResponse<L, X, M, N> {
    /// The parameter extractor.
    pub closed spec fn extract(&self) -> X {
        self.extract
    }

    /// The inner stack.
    pub closed spec fn inner(&self) -> N {
        self.inner
    }

    /// Pairs an extractor with the inner stack.
    pub fn new(extract: X, inner: N) -> (r: Self)
        ensures
            r.extract() == extract,
            r.inner() == inner,
    {
        NewRecordResponse { extract, inner, _marker: core::marker::PhantomData }
    }
}

impl<L, X: Clone, M, N> NewRecordResponse<L, X, M, N> {
    /// The layer that wraps a stack with this builder: a function from the
    /// inner stack to the builder around it, each with its own copy of
    /// `extract`.
    pub fn layer_via(extract: X) -> (layer: impl Fn(N) -> Self)
        ensures
            forall|inner: N| call_requires(layer, (inner,)),
            forall|inner: N, made: Self|
                call_ensures(layer, (inner,), made) ==> made.inner() == inner && cloned(
                    extract,
                    made.extract(),
                ),
    {
        move |inner: N| -> (made: Self)
            ensures
                made.inner() == inner,
                cloned(extract, made.extract()),
            { Self::new(extract.clone(), inner) }
    }
}

impl<L, M, N> NewRecordResponse<L, (), M, N> {
    /// The layer of a builder whose parameters come from the target itself.
    pub fn layer() -> (layer: impl Fn(N) -> Self)
        ensures
            forall|inner: N| call_requires(layer, (inner,)),
            forall|inner: N, made: Self|
                call_ensures(layer, (inner,), made) ==> made.inner() == inner,
    {
        Self::layer_via(())
    }
}

impl<T, L, X, M, N> NewService<T> for NewRecordResponse<L, X, M, N> where
    L: MkStreamLabel,
    X: ExtractParam<Params<L, M>, T>,
    N: NewService<T>,
 {
    type Service = RecordResponse<L, M, N::Service>;

    /// Builds the recorder for `target`: the labeler and the metric are those
    /// that the extractor finds in the target, and the wrapped service is the
    /// one that the inner stack builds for it.
    fn new_service(&self, target: T) -> (svc: Self::Service)
        ensures
            exists|params: Params<L, M>| #[trigger]
                call_ensures(X::extract_param, (&self.extract(), &target), params)
                    && svc.labeler() == params.labeler && svc.metric() == params.metric,
            call_ensures(N::new_service, (&self.inner(), target), svc.inner()),
    {
        let Params { labeler, metric } = self.extract.extract_param(&target);
        let inner = self.inner.new_service(target);
        RecordResponse::new(labeler, metric, inner)
    }
}

impl<L, X: Clone, M, N: Clone> Clone for NewRecordResponse<L, X, M, N> {
    fn clone(&self) -> (r: Self)
        ensures
            cloned(self.extract(), r.extract()),
            cloned(self.inner(), r.inner()),
    {
        NewRecordResponse {
            inner: self.inner.clone(),
            extract: self.extract.clone(),
            _marker: core::marker::PhantomData,
        }
    }
}

impl<L, M, S> RecordResponse<L, M, S> {
    /// The wrapped service.
    pub closed spec fn inner(&self) -> S {
        self.inner
    }

    /// The labeler asked about every request.
    pub closed spec fn labeler(&self) -> L {
        self.labeler
    }

    /// The metric reported to.
    pub closed spec fn metric(&self) -> M {
        self.metric
    }

    /// Wraps `inner` with a labeler and the metric it reports to.
    pub fn new(labeler: L, metric: M, inner: S) -> (r: Self)
        ensures
            r.labeler() == labeler,
            r.metric() == metric,
            r.inner() == inner,
    {
        RecordResponse { inner, labeler, metric }
    }

    /// The wrapped service.
    pub fn get_ref(&self) -> (inner: &S)
        ensures
            *inner == self.inner(),
    {
        &self.inner
    }

    /// The wrapped service, to call it.
    pub fn get_mut(&mut self) -> (inner: &mut S)
        ensures
            *inner == old(self).inner(),
            final(self).inner() == *final(inner),
            final(self).labeler() == old(self).labeler(),
            final(self).metric() == old(self).metric(),
    {
        &mut self.inner
    }
}

/// When the measured interval of an exchange begins.
#[derive(Clone, Copy, Debug, PartialEq, Eq, Structural)]
pub enum Start {
    /// It began at this instant.
    At(u64),
    /// It begins when the request stream is flushed; the instant comes
    /// through the flush signal.
    OnFlush,
}

/// What is remembered of an exchange that is being recorded, until its
/// duration is observed.
pub struct ResponseState<L, M> {
    labeler: L,
    metric: M,
    start: Start,
}

/// One observation to make: `elapsed` nanoseconds for the series of `metric`
/// that `labels` names.
#[derive(Debug)]
pub struct Observation<S, M> {
    pub labels: S,
    pub elapsed: u64,
    pub metric: M,
}

impl<L, M> ResponseState<L, M> {
    /// The labeler that follows the exchange.
    pub closed spec fn labeler(&self) -> L {
        self.labeler
    }

    /// The metric that the duration is observed for.
    pub closed spec fn metric(&self) -> M {
        self.metric
    }

    /// When the measured interval begins.
    pub closed spec fn start(&self) -> Start {
        self.start
    }
}

/// The instant from which an exchange is measured: its own start, or what the
/// flush signal holds when the exchange ends. `None` where the signal was
/// never fulfilled.
pub open spec fn start_instant(start: Start, flushed: Option<u64>) -> Option<u64> {
    match start {
        Start::At(at) => Some(at),
        Start::OnFlush => flushed,
    }
}

/// The start of an exchange after the flush signal was read: a start that
/// waits for the flush takes the instant that the signal holds, and keeps it.
/// The signal gives its instant once, so what was read is remembered here.
pub open spec fn noted(start: Start, flushed: Option<u64>) -> Start {
    match (start, flushed) {
        (Start::OnFlush, Some(at)) => Start::At(at),
        _ => start,
    }
}

/// An instant once read from the flush signal is the one the exchange is
/// measured from, whatever the signal holds later.
pub proof fn lemma_noted_is_kept(start: Start, flushed: Option<u64>, later: Option<u64>)
    ensures
        start_instant(noted(start, flushed), later) == match start_instant(start, flushed) {
            Some(at) => Some(at),
            None => later,
        },
        noted(noted(start, flushed), later) == match noted(start, flushed) {
            Start::At(at) => Start::At(at),
            Start::OnFlush => noted(start, later),
        },
{
}

/// Takes note of what the flush signal holds.
pub fn note(start: Start, flushed: Option<u64>) -> (r: Start)
    ensures
        r == noted(start, flushed),
{
    match (start, flushed) {
        (Start::OnFlush, Some(at)) => Start::At(at),
        _ => start,
    }
}

/// The time from `start` to `now`: zero where there is no start, and zero
/// where the start is not before `now`.
pub open spec fn elapsed_between(start: Option<u64>, now: u64) -> u64 {
    match start {
        Some(at) => if now >= at {
            (now - at) as u64
        } else {
            0
        },
        None => 0,
    }
}

/// Computes the time from `start` to `now`.
pub fn elapsed(start: Option<u64>, now: u64) -> (r: u64)
    ensures
        r == elapsed_between(start, now),
{
    match start {
        Some(at) => if now >= at {
            now - at
        } else {
            0
        },
        None => 0,
    }
}

/// Whether `seen` is what ending an exchange in state `was` with `res` gives:
/// nothing where there is no state; else one observation, for the metric of
/// the state, of the time from the start of the exchange to `now`, under the
/// labels that the labeler names for `res`.
pub open spec fn observed<L: StreamLabel, M>(
    was: Option<ResponseState<L, M>>,
    res: Result<Option<&Vec<HeaderField>>, &StreamError>,
    flushed: Option<u64>,
    now: u64,
    seen: Option<Observation<L::EncodeLabelSet, M>>,
) -> bool {
    match was {
        None => seen is None,
        Some(was) => {
            &&& seen is Some
            &&& seen->0.elapsed == elapsed_between(start_instant(was.start(), flushed), now)
            &&& seen->0.metric == was.metric()
            &&& call_ensures(L::end_response, (was.labeler(), res), seen->0.labels)
        },
    }
}

/// Ends the recording of an exchange, if it is not ended yet.
///
/// The state is taken, so that whatever comes later finds nothing to end.
/// The labeler is given `res` and names the label set; the duration runs
/// from the start of the exchange to `now`. `flushed` is what the flush
/// signal holds at this moment.
pub fn end_stream<L: StreamLabel, M>(
    state: &mut Option<ResponseState<L, M>>,
    res: Result<Option<&Vec<HeaderField>>, &StreamError>,
    flushed: Option<u64>,
    now: u64,
) -> (r: Option<Observation<L::EncodeLabelSet, M>>)
    ensures
        *final(state) is None,
        observed(*old(state), res, flushed, now, r),
{
    match state.take() {
        None => None,
        Some(ResponseState { labeler, metric, start }) => {
            let labels = labeler.end_response(res);
            let begun = match start {
                Start::At(at) => Some(at),
                Start::OnFlush => flushed,
            };
            Some(Observation { labels, elapsed: elapsed(begun, now), metric })
        },
    }
}

/// Something that happens to a wrapped body.
pub enum BodyEvent {
    /// A poll for data came back, with a frame or an error, and with the
    /// body at its end or not.
    Data { failed: bool, end_stream: bool },
    /// A poll for trailers came back.
    Trailers,
    /// The body was dropped.
    Dropped,
}

/// Whether an event ends a response stream: an error, the end of the data,
/// the trailers, or the drop.
pub open spec fn ends_response(event: BodyEvent) -> bool {
    match event {
        BodyEvent::Data { failed, end_stream } => failed || end_stream,
        BodyEvent::Trailers => true,
        BodyEvent::Dropped => true,
    }
}

/// Whether an event flushes a request stream: the end of the data, the
/// trailers, or the drop. A failed poll does not, unless the body is at its
/// end.
pub open spec fn flushes_request(event: BodyEvent) -> bool {
    match event {
        BodyEvent::Data { failed, end_stream } => end_stream,
        BodyEvent::Trailers => true,
        BodyEvent::Dropped => true,
    }
}

/// The flush notifier of a request body: it holds the sending half of the
/// flush signal until the request stream is flushed, and hands it out then,
/// once, for the caller to send the instant through.
pub struct RequestBody<T> {
    flushed: Option<T>,
}

impl<T> RequestBody<T> {
    /// The sending half, while it is held.
    pub closed spec fn sender(&self) -> Option<T> {
        self.flushed
    }

    /// Whether the signal is still to be sent.
    pub open spec fn pending(&self) -> bool {
        self.sender() is Some
    }

    /// What `event` makes of a notifier that holds `sender`: the sender that
    /// stays held, and the one handed out.
    pub open spec fn step(sender: Option<T>, event: BodyEvent) -> (Option<T>, Option<T>) {
        if flushes_request(event) {
            (None, sender)
        } else {
            (sender, None)
        }
    }

    /// Holds `sender` until the request stream is flushed.
    pub fn new(sender: T) -> (r: Self)
        ensures
            r.sender() == Some(sender),
    {
        RequestBody { flushed: Some(sender) }
    }

    /// Takes note that a poll for data came back; `at_end` says whether the
    /// body is at its end now.
    pub fn poll_data(&mut self, at_end: bool) -> (fire: Option<T>)
        ensures
            (final(self).sender(), fire) == Self::step(
                old(self).sender(),
                BodyEvent::Data { failed: false, end_stream: at_end },
            ),
    {
        if at_end {
            self.flushed.take()
        } else {
            None
        }
    }

    /// Takes note that a poll for trailers came back.
    pub fn poll_trailers(&mut self) -> (fire: Option<T>)
        ensures
            (final(self).sender(), fire) == Self::step(old(self).sender(), BodyEvent::Trailers),
    {
        self.flushed.take()
    }

    /// Takes note that the body is dropped.
    pub fn on_drop(&mut self) -> (fire: Option<T>)
        ensures
            (final(self).sender(), fire) == Self::step(old(self).sender(), BodyEvent::Dropped),
    {
        self.flushed.take()
    }
}

/// The recorder's part of a response body: the state of the exchange until
/// the stream ends.
pub struct ResponseBody<L: StreamLabel, M> {
    state: Option<ResponseState<L, M>>,
}

impl<L: StreamLabel, M> ResponseBody<L, M> {
    /// The state of the exchange, while it is not ended.
    pub closed spec fn state(&self) -> Option<ResponseState<L, M>> {
        self.state
    }

    /// Whether the duration is still to be observed.
    pub open spec fn armed(&self) -> bool {
        self.state() is Some
    }

    /// Whether the duration is still to be observed.
    pub fn is_armed(&self) -> (r: bool)
        ensures
            r == self.armed(),
    {
        self.state.is_some()
    }

    /// Takes note that a poll for data came back: with `error` if it failed,
    /// and with the body at its end or not. An error ends the exchange with
    /// that error; the end of the data ends it without trailers. Where the
    /// exchange goes on, what the flush signal holds is remembered.
    pub fn poll_data(
        &mut self,
        error: Option<&StreamError>,
        at_end: bool,
        flushed: Option<u64>,
        now: u64,
    ) -> (r: Option<Observation<L::EncodeLabelSet, M>>)
        ensures
            r is Some <==> old(self).armed() && ends_response(
                BodyEvent::Data { failed: error is Some, end_stream: at_end },
            ),
            final(self).armed() <==> old(self).armed() && !ends_response(
                BodyEvent::Data { failed: error is Some, end_stream: at_end },
            ),
            final(self).armed() ==> {
                &&& final(self).state()->0.labeler() == old(self).state()->0.labeler()
                &&& final(self).state()->0.metric() == old(self).state()->0.metric()
                &&& final(self).state()->0.start() == noted(old(self).state()->0.start(), flushed)
            },
            r is Some ==> observed(
                old(self).state(),
                match error {
                    Some(e) => Err::<Option<&Vec<HeaderField>>, &StreamError>(e),
                    None => Ok::<Option<&Vec<HeaderField>>, &StreamError>(None),
                },
                flushed,
                now,
                r,
            ),
    {
        match error {
            Some(e) => end_stream(&mut self.state, Err(e), flushed, now),
            None => if at_end {
                end_stream(&mut self.state, Ok(None), flushed, now)
            } else {
                match self.state.take() {
                    Some(ResponseState { labeler, metric, start }) => {
                        self.state = Some(
                            ResponseState { labeler, metric, start: note(start, flushed) },
                        );
                    },
                    None => {},
                }
                None
            },
        }
    }

    /// Takes note that a poll for trailers came back, with the trailers or
    /// with an error. Either ends the exchange.
    pub fn poll_trailers(
        &mut self,
        res: Result<Option<&Vec<HeaderField>>, &StreamError>,
        flushed: Option<u64>,
        now: u64,
    ) -> (r: Option<Observation<L::EncodeLabelSet, M>>)
        ensures
            !final(self).armed(),
            observed(old(self).state(), res, flushed, now, r),
    {
        end_stream(&mut self.state, res, flushed, now)
    }

    /// Takes note that the body is dropped. If the stream had not ended, the
    /// exchange ends here, as cancelled.
    pub fn on_drop(&mut self, flushed: Option<u64>, now: u64) -> (r: Option<
        Observation<L::EncodeLabelSet, M>,
    >)
        ensures
            !final(self).armed(),
            observed(
                old(self).state(),
                Err::<Option<&Vec<HeaderField>>, &StreamError>(&cancelled()),
                flushed,
                now,
                r,
            ),
    {
        if self.state.is_some() {
            let cancelled = StreamError::Cancelled(RequestCancelled(()));
            end_stream(&mut self.state, Err(&cancelled), flushed, now)
        } else {
            None
        }
    }
}

/// The recorder's part of a response future: the state of the exchange until
/// the inner service answers.
pub struct ResponseFuture<L: StreamLabel, M> {
    state: Option<ResponseState<L, M>>,
}

impl<L: StreamLabel, M> ResponseFuture<L, M> {
    /// The state of the exchange; `None` where it is not recorded.
    pub closed spec fn state(&self) -> Option<ResponseState<L, M>> {
        self.state
    }

    /// Whether the exchange is recorded.
    pub open spec fn armed(&self) -> bool {
        self.state() is Some
    }

    /// Whether the exchange is recorded.
    pub fn is_armed(&self) -> (r: bool)
        ensures
            r == self.armed(),
    {
        self.state.is_some()
    }

    /// Takes the response of the inner service. The labeler sees the head.
    /// Where the body is at its end already, the exchange ends now, without
    /// trailers; otherwise its state passes on to the body, with the labeler
    /// as the head left it, with the metric unchanged, and with what the
    /// flush signal holds remembered in the start.
    pub fn on_response(self, rsp: &ResponseHead, at_end: bool, flushed: Option<u64>, now: u64) -> (r: (
        ResponseBody<L, M>,
        Option<Observation<L::EncodeLabelSet, M>>,
    ))
        ensures
            r.0.armed() <==> self.armed() && !at_end,
            r.1 is Some <==> self.armed() && at_end,
            r.0.armed() ==> r.0.state()->0.metric() == self.state()->0.metric() && r.0.state()->0.start()
                == noted(self.state()->0.start(), flushed),
            r.1 is Some ==> r.1->0.metric == self.state()->0.metric() && r.1->0.elapsed
                == elapsed_between(start_instant(self.state()->0.start(), flushed), now),
            self.state() matches Some(was) ==> exists|labeler: &mut L| #[trigger]
                call_ensures(L::init_response, (labeler, rsp), ()) && *labeler == was.labeler()
                    && if at_end {
                    &&& r.1 is Some
                    &&& r.1->0.elapsed == elapsed_between(start_instant(was.start(), flushed), now)
                    &&& r.1->0.metric == was.metric()
                    &&& call_ensures(
                        L::end_response,
                        (*final(labeler), Ok::<Option<&Vec<HeaderField>>, &StreamError>(None)),
                        r.1->0.labels,
                    )
                } else {
                    &&& r.0.state() is Some
                    &&& r.0.state()->0.labeler() == *final(labeler)
                    &&& r.0.state()->0.metric() == was.metric()
                    &&& r.0.state()->0.start() == noted(was.start(), flushed)
                },
    {
        let mut state = match self.state {
            Some(ResponseState { mut labeler, metric, start }) => {
                labeler.init_response(rsp);
                let start = if at_end {
                    start
                } else {
                    note(start, flushed)
                };
                Some(ResponseState { labeler, metric, start })
            },
            None => None,
        };
        let seen = if at_end {
            end_stream(&mut state, Ok(None), flushed, now)
        } else {
            None
        };
        (ResponseBody { state }, seen)
    }

    /// Takes the failure of the inner service: the exchange ends with it.
    pub fn on_error(self, error: &StreamError, flushed: Option<u64>, now: u64) -> (r: Option<
        Observation<L::EncodeLabelSet, M>,
    >)
        ensures
            observed(
                self.state(),
                Err::<Option<&Vec<HeaderField>>, &StreamError>(error),
                flushed,
                now,
                r,
            ),
    {
        let mut state = self.state;
        end_stream(&mut state, Err(error), flushed, now)
    }
}

impl<L: MkStreamLabel, F: Clone, S> RecordResponse<L, RequestDuration<F>, S> {
    /// Takes a request that arrives at `now`. If the labeler wants it
    /// recorded, the measured interval begins now.
    pub fn call(&self, req: &Request, now: u64) -> (r: ResponseFuture<L::StreamLabel, F>)
        ensures
            call_ensures(
                L::mk_stream_labeler,
                (&self.labeler(), req),
                match r.state() {
                    Some(s) => Some(s.labeler()),
                    None => None,
                },
            ),
            r.state() matches Some(s) ==> s.start() == Start::At(now) && cloned(
                self.metric().family(),
                s.metric(),
            ),
    {
        let state = match self.labeler.mk_stream_labeler(req) {
            Some(labeler) => Some(
                ResponseState { labeler, metric: self.metric.0.clone(), start: Start::At(now) },
            ),
            None => None,
        };
        ResponseFuture { state }
    }
}

impl<L: MkStreamLabel, F: Clone, S> RecordResponse<L, ResponseDuration<F>, S> {
    /// Takes a request. If the labeler wants it recorded, the measured
    /// interval begins when the request stream is flushed: the caller wraps
    /// the request body in a [`RequestBody`] then.
    pub fn call(&self, req: &Request) -> (r: ResponseFuture<L::StreamLabel, F>)
        ensures
            call_ensures(
                L::mk_stream_labeler,
                (&self.labeler(), req),
                match r.state() {
                    Some(s) => Some(s.labeler()),
                    None => None,
                },
            ),
            r.state() matches Some(s) ==> s.start() == Start::OnFlush && cloned(
                self.metric().family(),
                s.metric(),
            ),
    {
        let state = match self.labeler.mk_stream_labeler(req) {
            Some(labeler) => Some(
                ResponseState { labeler, metric: self.metric.0.clone(), start: Start::OnFlush },
            ),
            None => None,
        };
        ResponseFuture { state }
    }
}

/// Whether a response body that began armed or not is still armed after a
/// run of events: it was armed, and no event ended the stream.
pub open spec fn armed_after(armed: bool, events: Seq<BodyEvent>) -> bool
    decreases events.len(),
{
    if events.len() == 0 {
        armed
    } else {
        armed_after(armed, events.drop_last()) && !ends_response(events.last())
    }
}

/// Whether the last event of a run makes the observation: the body is armed
/// when the event comes, and the event ends the stream.
pub open spec fn observes_last(armed: bool, events: Seq<BodyEvent>) -> bool {
    events.len() > 0 && armed_after(armed, events.drop_last()) && ends_response(events.last())
}

/// The number of observations made along a run of events.
pub open spec fn observations(armed: bool, events: Seq<BodyEvent>) -> nat
    decreases events.len(),
{
    if events.len() == 0 {
        0
    } else {
        observations(armed, events.drop_last()) + if observes_last(armed, events) {
            1nat
        } else {
            0nat
        }
    }
}

/// An exchange is observed at most once, whatever happens to the body and in
/// whatever order: never where it is not recorded, and once where it is
/// recorded and some event ends the stream. The body stays armed exactly as
/// long as no event has ended the stream.
pub proof fn lemma_observed_once(armed: bool, events: Seq<BodyEvent>)
    ensures
        observations(armed, events) <= 1,
        observations(armed, events) == 1 <==> armed && exists|i: int|
            0 <= i < events.len() && ends_response(#[trigger] events[i]),
        armed_after(armed, events) <==> armed && forall|i: int|
            0 <= i < events.len() ==> !ends_response(#[trigger] events[i]),
    decreases events.len(),
{
    if events.len() > 0 {
        let init = events.drop_last();
        lemma_observed_once(armed, init);
        assert(forall|i: int| 0 <= i < init.len() ==> init[i] == events[i]);
        if armed && exists|i: int| 0 <= i < events.len() && ends_response(#[trigger] events[i]) {
            let i = choose|i: int| 0 <= i < events.len() && ends_response(#[trigger] events[i]);
            if i < init.len() {
                assert(ends_response(init[i]));
            }
        }
        if exists|i: int| 0 <= i < init.len() && ends_response(#[trigger] init[i]) {
            let i = choose|i: int| 0 <= i < init.len() && ends_response(#[trigger] init[i]);
            assert(ends_response(events[i]));
        }
    }
}

/// A recorded exchange whose response body is dropped is observed exactly
/// once. The drop itself makes the observation, and so labels it as
/// cancelled, exactly where no event before it ended the stream; where one
/// did, the drop observes nothing more.
pub proof fn lemma_drop_observes(events: Seq<BodyEvent>)
    requires
        events.len() > 0,
        events.last() is Dropped,
    ensures
        observations(true, events) == 1,
        observations(false, events) == 0,
        observes_last(true, events) <==> forall|i: int|
            0 <= i < events.len() - 1 ==> !ends_response(#[trigger] events[i]),
{
    lemma_observed_once(true, events);
    lemma_observed_once(false, events);
    lemma_observed_once(true, events.drop_last());
    assert(ends_response(events[events.len() - 1]));
    assert(forall|i: int| 0 <= i < events.len() - 1 ==> events.drop_last()[i] == events[i]);
}

/// Whether a flush notifier that began pending or not is still pending after
/// a run of events.
pub open spec fn pending_after(pending: bool, events: Seq<BodyEvent>) -> bool
    decreases events.len(),
{
    if events.len() == 0 {
        pending
    } else {
        pending_after(pending, events.drop_last()) && !flushes_request(events.last())
    }
}

/// The number of times the flush signal is sent along a run of events.
pub open spec fn flushes(pending: bool, events: Seq<BodyEvent>) -> nat
    decreases events.len(),
{
    if events.len() == 0 {
        0
    } else {
        flushes(pending, events.drop_last()) + if pending_after(pending, events.drop_last())
            && flushes_request(events.last()) {
            1nat
        } else {
            0nat
        }
    }
}

/// The flush signal is sent at most once, and exactly once by the time the
/// request body is dropped.
pub proof fn lemma_flushed_once(pending: bool, events: Seq<BodyEvent>)
    ensures
        flushes(pending, events) <= 1,
        flushes(pending, events) == 1 <==> pending && !pending_after(pending, events),
        !pending ==> !pending_after(pending, events),
        (pending && events.len() > 0 && events.last() is Dropped) ==> flushes(pending, events) == 1,
    decreases events.len(),
{
    if events.len() > 0 {
        lemma_flushed_once(pending, events.drop_last());
    }
}

} // verus!
