use vstd::prelude::*;

verus! {

/// Minimum time between two progress samples, in milliseconds.  A sample is
/// emitted on a chunk boundary only when more than this much time has passed
/// since the previous sample.
pub const SAMPLE_INTERVAL_MS: u64 = 50;

/// The ways a download can fail; the operation reports the first one it hits.
#[derive(Clone, Copy, PartialEq, Eq, Structural, Debug)]
pub enum DownloadError {
    /// The HTTP request never completed.
    NetworkUnreachable,
    /// The response carried no usable content length, so the download ratio
    /// cannot be computed.
    MissingContentLength,
    /// A chunk read failed mid-stream.
    StreamInterrupted,
    /// A clock reading went backward, so a sample interval could not be
    /// measured.
    ClockUnavailable,
}

/// One progress sample.  The host derives its two rates from these integers:
/// the transfer speed is `sample_bytes` over `elapsed_ms` milliseconds, and
/// the download ratio is `total_bytes` over `file_size`.
pub struct DownloadProgress {
    /// Bytes received since the previous sample.
    pub sample_bytes: u64,
    /// Milliseconds elapsed since the previous sample; always greater than
    /// `SAMPLE_INTERVAL_MS`.
    pub elapsed_ms: u64,
    /// Total bytes received so far in this download.
    pub total_bytes: u64,
    /// The content length the server declared.
    pub file_size: u64,
    /// The caller's correlation token.
    pub download_id: String,
}

/// One lifecycle or telemetry event, in the order the host must emit them.
pub enum Event {
    Start { download_id: String },
    Progress { sample: DownloadProgress },
    Finish { download_id: String },
}

impl Event {
    /// The name under which the host emits this event.
    pub fn name(&self) -> (r: &'static str)
        ensures
            self is Start ==> r@ == "start-download"@,
            self is Progress ==> r@ == "download-progress"@,
            self is Finish ==> r@ == "finish-download"@,
    {
        match self {
            Event::Start { .. } => "start-download",
            Event::Progress { .. } => "download-progress",
            Event::Finish { .. } => "finish-download",
        }
    }
}

/// The correlation token an event carries.
pub open spec fn event_id(e: Event) -> Seq<char> {
    match e {
        Event::Start { download_id } => download_id@,
        Event::Progress { sample } => sample.download_id@,
        Event::Finish { download_id } => download_id@,
    }
}

/// A well-formed progress event for a download with token `id` and declared
/// content length `len`: its sample respects the rate limit and reports the
/// declared length.
pub open spec fn progress_wf(e: Event, id: Seq<char>, len: u64) -> bool {
    &&& e is Progress
    &&& e->Progress_sample.download_id@ == id
    &&& e->Progress_sample.file_size == len
    &&& e->Progress_sample.elapsed_ms > SAMPLE_INTERVAL_MS
    &&& e->Progress_sample.sample_bytes <= e->Progress_sample.total_bytes
}

/// Total bytes a progress event reports; zero for the other events.
pub open spec fn progress_total(e: Event) -> u64 {
    match e {
        Event::Progress { sample } => sample.total_bytes,
        _ => 0,
    }
}

/// The full event sequence of a successful download: a start event first, a
/// finish event last, and only well-formed progress events in between, with
/// their reported totals never decreasing.
pub open spec fn successful_trace(t: Seq<Event>, id: Seq<char>, len: u64) -> bool {
    &&& t.len() >= 2
    &&& t[0] is Start
    &&& event_id(t[0]) == id
    &&& t[t.len() - 1] is Finish
    &&& event_id(t[t.len() - 1]) == id
    &&& forall|i: int| 1 <= i < t.len() - 1 ==> progress_wf(#[trigger] t[i], id, len)
    &&& forall|i: int, j: int|
        1 <= i <= j < t.len() - 1 ==> progress_total(t[i]) <= progress_total(t[j])
}

/// A download on which the start event has fired but no response has been
/// examined yet.
pub struct PendingDownload {
    download_id: String,
    events: Vec<Event>,
}

/// A download whose response declared a content length and whose body is
/// being streamed.
pub struct DownloadSession {
    download_id: String,
    content_length: u64,
    buffer: Vec<u8>,
    sample_bytes: u64,
    total_bytes: u64,
    last_sample_ms: u64,
    failed: bool,
    events: Vec<Event>,
}

/// The outcome of a download that ran to the end of its stream.
pub struct CompletedDownload {
    /// Every byte of the body, in order.
    pub bytes: Vec<u8>,
    /// Every event the download emitted, ending with the finish event.
    pub trace: Vec<Event>,
}

/// The outcome of a download that failed partway.
pub struct DownloadFailure {
    /// What went wrong.
    pub error: DownloadError,
    /// The events emitted before the failure; never a finish event.
    pub trace: Vec<Event>,
}

impl PendingDownload {
    pub closed spec fn id(&self) -> Seq<char> {
        self.download_id@
    }

    pub closed spec fn trace(&self) -> Seq<Event> {
        self.events@
    }

    pub closed spec fn wf(&self) -> bool {
        &&& self.events@.len() == 1
        &&& self.events@[0] is Start
        &&& event_id(self.events@[0]) == self.download_id@
    }

    /// Opens a download: the returned event is the start event, which the
    /// host emits before any network work.
    pub fn begin(download_id: String) -> (r: (PendingDownload, Event))
        ensures
            r.0.wf(),
            r.0.id() == download_id@,
            r.0.trace() == seq![r.1],
            r.1 is Start,
            event_id(r.1) == download_id@,
    {
        let emitted = Event::Start { download_id: download_id.clone() };
        let mut events: Vec<Event> = Vec::new();
        events.push(Event::Start { download_id: download_id.clone() });
        (PendingDownload { download_id, events }, emitted)
    }

    /// The request itself never completed: the download fails with only the
    /// start event emitted.
    pub fn fail_request(self) -> (r: DownloadFailure)
        requires
            self.wf(),
        ensures
            r.error is NetworkUnreachable,
            r.trace@ == self.trace(),
    {
        DownloadFailure { error: DownloadError::NetworkUnreachable, trace: self.events }
    }

    /// Examines the response's declared content length at time `now_ms`.
    /// Without a content length the download fails at once, with only the
    /// start event emitted; with one, streaming begins and `now_ms` anchors
    /// the first sample interval.
    pub fn on_response(self, content_length: Option<u64>, now_ms: u64) -> (r: Result<
        DownloadSession,
        DownloadFailure,
    >)
        requires
            self.wf(),
        ensures
            match r {
                Ok(s) => {
                    &&& content_length is Some
                    &&& s.wf()
                    &&& !s.has_failed()
                    &&& s.id() == self.id()
                    &&& s.declared_len() == content_length->Some_0
                    &&& s.trace() == self.trace()
                    &&& s.data() == Seq::<u8>::empty()
                    &&& s.total() == 0
                    &&& s.window_bytes() == 0
                    &&& s.anchor_ms() == now_ms
                },
                Err(f) => {
                    &&& content_length is None
                    &&& f.error is MissingContentLength
                    &&& f.trace@ == self.trace()
                },
            },
    {
        match content_length {
            Some(len) => Ok(
                DownloadSession {
                    download_id: self.download_id,
                    content_length: len,
                    buffer: Vec::new(),
                    sample_bytes: 0,
                    total_bytes: 0,
                    last_sample_ms: now_ms,
                    failed: false,
                    events: self.events,
                },
            ),
            None => Err(
                DownloadFailure { error: DownloadError::MissingContentLength, trace: self.events },
            ),
        }
    }
}

impl DownloadSession {
    pub closed spec fn id(&self) -> Seq<char> {
        self.download_id@
    }

    pub closed spec fn declared_len(&self) -> u64 {
        self.content_length
    }

    /// The bytes accumulated so far.
    pub closed spec fn data(&self) -> Seq<u8> {
        self.buffer@
    }

    pub closed spec fn total(&self) -> u64 {
        self.total_bytes
    }

    /// Bytes received since the last sample.
    pub closed spec fn window_bytes(&self) -> u64 {
        self.sample_bytes
    }

    /// The time of the last sample (or of the response), the anchor of the
    /// current sample interval.
    pub closed spec fn anchor_ms(&self) -> u64 {
        self.last_sample_ms
    }

    pub closed spec fn has_failed(&self) -> bool {
        self.failed
    }

    pub closed spec fn trace(&self) -> Seq<Event> {
        self.events@
    }

    pub closed spec fn wf(&self) -> bool {
        &&& self.total_bytes == self.buffer@.len()
        &&& self.sample_bytes <= self.total_bytes
        &&& self.events@.len() >= 1
        &&& self.events@[0] is Start
        &&& event_id(self.events@[0]) == self.download_id@
        &&& forall|i: int|
            1 <= i < self.events@.len() ==> progress_wf(
                #[trigger] self.events@[i],
                self.download_id@,
                self.content_length,
            )
        &&& forall|i: int|
            1 <= i < self.events@.len() ==> progress_total(#[trigger] self.events@[i])
                <= self.total_bytes
        &&& forall|i: int, j: int|
            1 <= i <= j < self.events@.len() ==> progress_total(self.events@[i]) <= progress_total(
                self.events@[j],
            )
    }

    /// Accounts for one received chunk at time `now_ms`.  The chunk is
    /// appended to the buffer and counted; then, if the clock went backward,
    /// the download fails, and otherwise a progress event is returned exactly
    /// when more than `SAMPLE_INTERVAL_MS` milliseconds have passed since the
    /// anchor.
    pub fn on_chunk(&mut self, chunk: Vec<u8>, now_ms: u64) -> (r: Result<
        Option<Event>,
        DownloadError,
    >)
        requires
            old(self).wf(),
            !old(self).has_failed(),
        ensures
            final(self).wf(),
            final(self).id() == old(self).id(),
            final(self).declared_len() == old(self).declared_len(),
            final(self).data() == old(self).data() + chunk@,
            final(self).total() == old(self).total() + chunk@.len(),
            match r {
                Ok(opt) => {
                    &&& !final(self).has_failed()
                    &&& now_ms >= old(self).anchor_ms()
                    &&& match opt {
                        Some(e) => {
                            &&& now_ms - old(self).anchor_ms() > SAMPLE_INTERVAL_MS
                            &&& progress_wf(e, old(self).id(), old(self).declared_len())
                            &&& e->Progress_sample.sample_bytes == old(self).window_bytes()
                                + chunk@.len()
                            &&& e->Progress_sample.elapsed_ms == now_ms - old(self).anchor_ms()
                            &&& e->Progress_sample.total_bytes == final(self).total()
                            &&& final(self).trace() == old(self).trace().push(e)
                            &&& final(self).window_bytes() == 0
                            &&& final(self).anchor_ms() == now_ms
                        },
                        None => {
                            &&& now_ms - old(self).anchor_ms() <= SAMPLE_INTERVAL_MS
                            &&& final(self).trace() == old(self).trace()
                            &&& final(self).window_bytes() == old(self).window_bytes()
                                + chunk@.len()
                            &&& final(self).anchor_ms() == old(self).anchor_ms()
                        },
                    }
                },
                Err(e) => {
                    &&& e is ClockUnavailable
                    &&& now_ms < old(self).anchor_ms()
                    &&& final(self).has_failed()
                    &&& final(self).trace() == old(self).trace()
                },
            },
    {
        let chunk_len: usize = chunk.len();
        let mut chunk = chunk;
        self.buffer.append(&mut chunk);
        let new_total: usize = self.buffer.len();
        self.total_bytes = new_total as u64;
        self.sample_bytes = self.sample_bytes + (chunk_len as u64);
        if now_ms < self.last_sample_ms {
            self.failed = true;
            return Err(DownloadError::ClockUnavailable);
        }
        let elapsed: u64 = now_ms - self.last_sample_ms;
        if elapsed > SAMPLE_INTERVAL_MS {
            let emitted = Event::Progress {
                sample: DownloadProgress {
                    sample_bytes: self.sample_bytes,
                    elapsed_ms: elapsed,
                    total_bytes: self.total_bytes,
                    file_size: self.content_length,
                    download_id: self.download_id.clone(),
                },
            };
            self.events.push(
                Event::Progress {
                    sample: DownloadProgress {
                        sample_bytes: self.sample_bytes,
                        elapsed_ms: elapsed,
                        total_bytes: self.total_bytes,
                        file_size: self.content_length,
                        download_id: self.download_id.clone(),
                    },
                },
            );
            self.sample_bytes = 0;
            self.last_sample_ms = now_ms;
            Ok(Some(emitted))
        } else {
            Ok(None)
        }
    }

    /// The stream is exhausted: the finish event fires and the accumulated
    /// bytes are handed out.  The returned event equals the last event of the
    /// returned trace.
    pub fn finish(self) -> (r: (CompletedDownload, Event))
        requires
            self.wf(),
            !self.has_failed(),
        ensures
            r.0.bytes@ == self.data(),
            r.0.trace@ == self.trace().push(r.1),
            r.1 is Finish,
            event_id(r.1) == self.id(),
            successful_trace(r.0.trace@, self.id(), self.declared_len()),
    {
        let emitted = Event::Finish { download_id: self.download_id.clone() };
        let mut events = self.events;
        events.push(Event::Finish { download_id: self.download_id.clone() });
        (CompletedDownload { bytes: self.buffer, trace: events }, emitted)
    }

    /// The stream broke (or the clock failed) partway: the download fails
    /// with the events emitted so far and no finish event.
    pub fn fail(self, error: DownloadError) -> (r: DownloadFailure)
        ensures
            r.error == error,
            r.trace@ == self.trace(),
    {
        DownloadFailure { error, trace: self.events }
    }
}

/// One chunk of a response body together with the clock reading taken at its
/// arrival.
pub struct ChunkArrival {
    pub data: Vec<u8>,
    pub now_ms: u64,
}

/// The bytes of a chunk list, in arrival order.
pub open spec fn chunks_data(cs: Seq<ChunkArrival>) -> Seq<u8>
    decreases cs.len(),
{
    if cs.len() == 0 {
        Seq::empty()
    } else {
        chunks_data(cs.drop_last()) + cs.last().data@
    }
}

/// Clock readings that never run backward: every chunk's reading is at least
/// the response's, and no later chunk reads an earlier time.
pub open spec fn times_monotone(start: u64, cs: Seq<ChunkArrival>) -> bool {
    &&& forall|i: int| 0 <= i < cs.len() ==> #[trigger] cs[i].now_ms >= start
    &&& forall|i: int, j: int| 0 <= i <= j < cs.len() ==> cs[i].now_ms <= cs[j].now_ms
}

/// Runs a whole download over a response already broken into plain values:
/// the declared content length and the body's chunks, each paired with the
/// clock reading at its arrival (`response_ms` is the reading taken at the
/// response itself).  A host that streams live takes the same steps one by
/// one through `PendingDownload::begin`, `on_response`, `on_chunk` and
/// `finish`; this function is their composition, so its contract is what a
/// full run guarantees: without a content length the download fails at once
/// having emitted only the start event, and a run over sane clock readings
/// returns every body byte with a well-formed event trace.
#[verifier::loop_isolation(false)]
pub fn run_download(
    download_id: String,
    content_length: Option<u64>,
    response_ms: u64,
    chunks: Vec<ChunkArrival>,
) -> (r: Result<CompletedDownload, DownloadFailure>)
    ensures
        match r {
            Ok(c) => {
                &&& content_length is Some
                &&& c.bytes@ == chunks_data(chunks@)
                &&& successful_trace(c.trace@, download_id@, content_length->Some_0)
            },
            Err(f) => {
                &&& f.trace@.len() >= 1
                &&& f.trace@[0] is Start
                &&& event_id(f.trace@[0]) == download_id@
                &&& forall|i: int| 1 <= i < f.trace@.len() ==> #[trigger] f.trace@[i] is Progress
                &&& (f.error is MissingContentLength <==> content_length is None)
                &&& (content_length is None ==> f.trace@.len() == 1)
                &&& (f.error is MissingContentLength || f.error is ClockUnavailable)
            },
        },
        content_length is Some && times_monotone(response_ms, chunks@) ==> r is Ok,
{
    let ghost id: Seq<char> = download_id@;
    let ghost cs0: Seq<ChunkArrival> = chunks@;
    let (pending, _start_event) = PendingDownload::begin(download_id);
    let mut session = match pending.on_response(content_length, response_ms) {
        Ok(s) => s,
        Err(f) => {
            return Err(f);
        },
    };
    let mut rest = chunks;
    while rest.len() > 0
        invariant
            session.wf(),
            !session.has_failed(),
            session.id() == id,
            session.declared_len() == content_length->Some_0,
            rest@.len() <= cs0.len(),
            rest@ == cs0.skip(cs0.len() - rest@.len()),
            session.data() == chunks_data(cs0.take(cs0.len() - rest@.len())),
            times_monotone(response_ms, cs0) ==> forall|j: int|
                cs0.len() - rest@.len() <= j < cs0.len() ==> session.anchor_ms()
                    <= #[trigger] cs0[j].now_ms,
        decreases rest@.len(),
    {
        let ghost k: int = cs0.len() - rest@.len();
        proof {
            assert(cs0.skip(k)[0] == cs0[k]);
        }
        let c = rest.remove(0);
        let now_ms = c.now_ms;
        proof {
            assert(rest@ =~= cs0.skip(k + 1));
            assert(cs0.take(k + 1).drop_last() =~= cs0.take(k));
            assert(cs0.take(k + 1).last() == cs0[k]);
        }
        match session.on_chunk(c.data, now_ms) {
            Ok(_) => {},
            Err(e) => {
                return Err(session.fail(e));
            },
        }
    }
    proof {
        assert(cs0.take(cs0.len() as int) =~= cs0);
    }
    let (completed, _finish_event) = session.finish();
    Ok(completed)
}

} // verus!
