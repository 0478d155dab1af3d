//! Supervision of a model's streamed answer: the per-chunk bookkeeping that
//! detects repetition and silence, the timeouts, the splitting of the byte
//! stream into lines, the cancellation registry, and the prompts sent along.
//!
//! Times are milliseconds on a monotonic clock that the caller reads.

use vstd::prelude::*;
use crate::chunking::{blen, byte_len};
use crate::text::{
    chars_of, decimal, push_str, str_eq, string_from_chars, to_owned_string, trim,
    trim_string, u64_to_decimal,
};

verus! {

/// Limits that end a stream.
#[derive(Debug, Clone, Copy)]
pub struct StreamConfig {
    /// Longest a whole stream may take.
    pub max_total_duration_ms: u64,
    /// Longest wait between two chunks.
    pub max_chunk_gap_ms: u64,
    /// Longest wait for one read of the connection.
    pub chunk_timeout_ms: u64,
    pub max_consecutive_repeats: usize,
    pub max_consecutive_empty_chunks: usize,
}

impl Default for StreamConfig {
    /// Five minutes in all, thirty seconds between chunks, ten seconds per
    /// read, five repeats and twenty-five empty chunks in a row.
    fn default() -> (c: Self)
        ensures
            c.max_total_duration_ms == 300_000,
            c.max_chunk_gap_ms == 30_000,
            c.chunk_timeout_ms == 10_000,
            c.max_consecutive_repeats == 5,
            c.max_consecutive_empty_chunks == 25,
    {
        StreamConfig {
            max_total_duration_ms: 300_000,
            max_chunk_gap_ms: 30_000,
            chunk_timeout_ms: 10_000,
            max_consecutive_repeats: 5,
            max_consecutive_empty_chunks: 25,
        }
    }
}

/// What a stream has shown so far.
#[derive(Debug)]
pub struct StreamState {
    pub start_ms: u64,
    pub last_chunk_ms: u64,
    pub chunk_count: usize,
    /// The last chunk with content, as received.
    pub last_chunk_text: String,
    /// How many times in a row the last chunk with content came again.
    pub repeat_count: usize,
    pub consecutive_empty_count: usize,
    pub total_empty_count: usize,
}

/// What to do after a chunk.
#[derive(Debug)]
pub enum ChunkResult {
    Continue,
    /// End the stream, with the reason.
    Exit(String),
}

/// The first `n` characters of `s` (all of `s` where it is shorter).
pub open spec fn first_chars(s: Seq<char>, n: nat) -> Seq<char> {
    if s.len() <= n {
        s
    } else {
        s.take(n as int)
    }
}

/// The reason given when a short chunk keeps coming.
pub open spec fn short_repeat_reason(chunk: Seq<char>, count: nat) -> Seq<char> {
    "Stream terminated: Detected repetitive short chunk '"@ + first_chars(chunk, 20) + "' ("@
        + decimal(count) + " times) - possible AI confusion"@
}

/// The reason given when a longer chunk keeps coming.
pub open spec fn long_repeat_reason(chunk: Seq<char>, count: nat) -> Seq<char> {
    "Stream terminated: Excessive repetition of content '"@ + first_chars(chunk, 30) + "' ("@
        + decimal(count) + " times)"@
}

/// Whether a chunk has only white space.
pub open spec fn blank(s: Seq<char>) -> bool {
    trim(s).len() == 0
}

/// Whether a chunk repeats the last chunk with content.
pub open spec fn repeats(st: StreamState, chunk: Seq<char>) -> bool {
    st.last_chunk_text@.len() > 0 && st.last_chunk_text@ == chunk
}

/// The reason a chunk ends the stream with, if it does: a chunk with
/// content that repeats the last one, once a chunk of at most twenty bytes
/// (trimmed) has come again more than three times, or a longer one more
/// than eight times.
pub open spec fn chunk_exit(st: StreamState, chunk: Seq<char>) -> Option<Seq<char>> {
    if !blank(chunk) && repeats(st, chunk) {
        let n = st.repeat_count + 1;
        if blen(trim(chunk)) <= 20 && n > 3 {
            Some(short_repeat_reason(chunk, n as nat))
        } else if blen(trim(chunk)) > 20 && n > 8 {
            Some(long_repeat_reason(chunk, n as nat))
        } else {
            None
        }
    } else {
        None
    }
}

/// Whether `after` is `before` with a chunk recorded that arrived at `now_ms`.
pub open spec fn chunk_recorded(before: StreamState, after: StreamState, chunk: Seq<char>, now_ms: u64) -> bool {
    &&& after.start_ms == before.start_ms
    &&& after.last_chunk_ms == now_ms
    &&& after.chunk_count == before.chunk_count + 1
    &&& if blank(chunk) {
        &&& after.consecutive_empty_count == before.consecutive_empty_count + 1
        &&& after.total_empty_count == before.total_empty_count + 1
        &&& after.repeat_count == before.repeat_count
        &&& after.last_chunk_text@ == before.last_chunk_text@
    } else if repeats(before, chunk) {
        &&& after.consecutive_empty_count == 0
        &&& after.total_empty_count == before.total_empty_count
        &&& after.repeat_count == before.repeat_count + 1
        &&& after.last_chunk_text@ == before.last_chunk_text@
    } else {
        &&& after.consecutive_empty_count == 0
        &&& after.total_empty_count == before.total_empty_count
        &&& after.repeat_count == 0
        &&& after.last_chunk_text@ == chunk
    }
}

fn first_chars_of(s: &str, n: usize) -> (r: String)
    ensures
        r@ == first_chars(s@, n as nat),
{
    let v = chars_of(s);
    let mut out: Vec<char> = Vec::new();
    let mut i: usize = 0;
    while i < v.len() && i < n
        invariant
            v@ == s@,
            i <= v.len(),
            i <= n,
            out@ == v@.take(i as int),
        decreases v.len() - i,
    {
        out.push(v[i]);
        assert(v@.take(i + 1) =~= v@.take(i as int).push(v@[i as int]));
        i = i + 1;
    }
    assert(v@.len() <= n ==> v@.take(i as int) =~= v@);
    string_from_chars(out.as_slice())
}

fn repeat_reason(lead: &str, chunk: &str, n: usize, count: usize, tail: &str) -> (r: String)
    ensures
        r@ == lead@ + first_chars(chunk@, n as nat) + "' ("@ + decimal(count as nat) + tail@,
{
    let mut r = to_owned_string(lead);
    let head = first_chars_of(chunk, n);
    push_str(&mut r, head.as_str());
    push_str(&mut r, "' (");
    let d = u64_to_decimal(count as u64);
    push_str(&mut r, d.as_str());
    push_str(&mut r, tail);
    r
}

impl StreamState {
    /// A stream that starts at `now_ms`, with nothing received yet.
    pub fn new(now_ms: u64) -> (st: Self)
        ensures
            st.start_ms == now_ms,
            st.last_chunk_ms == now_ms,
            st.chunk_count == 0,
            st.last_chunk_text@ == Seq::<char>::empty(),
            st.repeat_count == 0,
            st.consecutive_empty_count == 0,
            st.total_empty_count == 0,
    {
        StreamState {
            start_ms: now_ms,
            last_chunk_ms: now_ms,
            chunk_count: 0,
            last_chunk_text: String::new(),
            repeat_count: 0,
            consecutive_empty_count: 0,
            total_empty_count: 0,
        }
    }

    /// Records a chunk that arrived at `now_ms` and says whether the stream
    /// should go on. A blank chunk only counts as empty; a chunk equal to the
    /// last one with content counts as a repeat, and ends the stream once a
    /// chunk of at most twenty bytes (trimmed) has come again more than three
    /// times, or a longer one more than eight times.
    pub fn update_chunk(&mut self, chunk_text: &str, now_ms: u64) -> (r: ChunkResult)
        requires
            old(self).chunk_count < usize::MAX,
            old(self).consecutive_empty_count < usize::MAX,
            old(self).total_empty_count < usize::MAX,
            old(self).repeat_count < usize::MAX,
        ensures
            final(self).start_ms == old(self).start_ms,
            final(self).last_chunk_ms == now_ms,
            final(self).chunk_count == old(self).chunk_count + 1,
            blank(chunk_text@) ==> {
                &&& r is Continue
                &&& final(self).consecutive_empty_count == old(self).consecutive_empty_count + 1
                &&& final(self).total_empty_count == old(self).total_empty_count + 1
                &&& final(self).repeat_count == old(self).repeat_count
                &&& final(self).last_chunk_text@ == old(self).last_chunk_text@
            },
            !blank(chunk_text@) ==> {
                &&& final(self).consecutive_empty_count == 0
                &&& final(self).total_empty_count == old(self).total_empty_count
            },
            !blank(chunk_text@) && repeats(*old(self), chunk_text@) ==> {
                let n = old(self).repeat_count + 1;
                let short = blen(trim(chunk_text@)) <= 20;
                &&& final(self).repeat_count == n
                &&& final(self).last_chunk_text@ == old(self).last_chunk_text@
                &&& (short && n > 3 ==> (r matches ChunkResult::Exit(m) && m@ == short_repeat_reason(
                    chunk_text@,
                    n as nat,
                )))
                &&& (!short && n > 8 ==> (r matches ChunkResult::Exit(m) && m@ == long_repeat_reason(
                    chunk_text@,
                    n as nat,
                )))
                &&& ((short && n <= 3) || (!short && n <= 8) ==> r is Continue)
            },
            !blank(chunk_text@) && !repeats(*old(self), chunk_text@) ==> {
                &&& r is Continue
                &&& final(self).repeat_count == 0
                &&& final(self).last_chunk_text@ == chunk_text@
            },
            chunk_recorded(*old(self), *final(self), chunk_text@, now_ms),
            match r {
                ChunkResult::Exit(m) => chunk_exit(*old(self), chunk_text@) == Some(m@),
                ChunkResult::Continue => chunk_exit(*old(self), chunk_text@) is None,
            },
    {
        self.last_chunk_ms = now_ms;
        self.chunk_count = self.chunk_count + 1;
        let trimmed = trim_string(chunk_text);
        let tlen: usize = byte_len(trimmed.as_str());
        if trimmed.as_str().unicode_len() == 0 {
            self.consecutive_empty_count = self.consecutive_empty_count + 1;
            self.total_empty_count = self.total_empty_count + 1;
            return ChunkResult::Continue;
        }
        self.consecutive_empty_count = 0;
        let last_nonempty = self.last_chunk_text.as_str().unicode_len() > 0;
        if last_nonempty && str_eq(self.last_chunk_text.as_str(), chunk_text) {
            self.repeat_count = self.repeat_count + 1;
            if tlen <= 20 && self.repeat_count > 3 {
                return ChunkResult::Exit(
                    repeat_reason(
                        "Stream terminated: Detected repetitive short chunk '",
                        chunk_text,
                        20,
                        self.repeat_count,
                        " times) - possible AI confusion",
                    ),
                );
            }
            if tlen > 20 && self.repeat_count > 8 {
                return ChunkResult::Exit(
                    repeat_reason(
                        "Stream terminated: Excessive repetition of content '",
                        chunk_text,
                        30,
                        self.repeat_count,
                        " times)",
                    ),
                );
            }
            return ChunkResult::Continue;
        }
        self.repeat_count = 0;
        self.last_chunk_text = to_owned_string(chunk_text);
        ChunkResult::Continue
    }

    /// Which time limit, if any, the stream has passed at `now_ms`: the whole
    /// stream first, then the gap since the last chunk. An elapsed time is
    /// zero where `now_ms` lies before its start.
    pub fn should_timeout(&self, now_ms: u64, max_total_duration_ms: u64, max_chunk_gap_ms: u64) -> (r:
        Option<StreamTimeout>)
        ensures
            r == timeout_reason(*self, now_ms, max_total_duration_ms, max_chunk_gap_ms),
    {
        if now_ms.saturating_sub(self.start_ms) > max_total_duration_ms {
            return Some(StreamTimeout::Total);
        }
        if now_ms.saturating_sub(self.last_chunk_ms) > max_chunk_gap_ms {
            return Some(StreamTimeout::ChunkGap);
        }
        None
    }

    /// Whether the repeats or the empty chunks so far call for ending the
    /// stream, with the reason: at least three times `max_repeats` repeats, or
    /// more than `max_consecutive_empty_chunks` empty chunks in a row.
    pub fn should_terminate_patterns(&self, max_repeats: usize, max_consecutive_empty_chunks: usize) -> (r:
        Option<String>)
        requires
            max_repeats * 3 <= usize::MAX,
        ensures
            self.repeat_count >= max_repeats * 3 ==> (r matches Some(m) && m@
                == "Too many consecutive repeats: "@ + decimal(self.repeat_count as nat)),
            self.repeat_count < max_repeats * 3 && self.consecutive_empty_count
                > max_consecutive_empty_chunks ==> (r matches Some(m) && m@
                == "Too many consecutive empty chunks: "@ + decimal(
                self.consecutive_empty_count as nat,
            ) + " (total empty: "@ + decimal(self.total_empty_count as nat) + ")"@),
            self.repeat_count < max_repeats * 3 && self.consecutive_empty_count
                <= max_consecutive_empty_chunks ==> r is None,
            match r {
                Some(m) => pattern_reason(*self, max_repeats, max_consecutive_empty_chunks) == Some(m@),
                None => pattern_reason(*self, max_repeats, max_consecutive_empty_chunks) is None,
            },
    {
        if self.repeat_count >= max_repeats * 3 {
            let mut m = to_owned_string("Too many consecutive repeats: ");
            let d = u64_to_decimal(self.repeat_count as u64);
            push_str(&mut m, d.as_str());
            return Some(m);
        }
        if self.consecutive_empty_count > max_consecutive_empty_chunks {
            let mut m = to_owned_string("Too many consecutive empty chunks: ");
            let d = u64_to_decimal(self.consecutive_empty_count as u64);
            push_str(&mut m, d.as_str());
            push_str(&mut m, " (total empty: ");
            let t = u64_to_decimal(self.total_empty_count as u64);
            push_str(&mut m, t.as_str());
            push_str(&mut m, ")");
            return Some(m);
        }
        None
    }
}

/// Why the repeats or empty chunks so far end a stream, if they do.
pub open spec fn pattern_reason(st: StreamState, max_repeats: usize, max_empty: usize) -> Option<Seq<char>> {
    if st.repeat_count >= max_repeats * 3 {
        Some("Too many consecutive repeats: "@ + decimal(st.repeat_count as nat))
    } else if st.consecutive_empty_count > max_empty {
        Some(
            "Too many consecutive empty chunks: "@ + decimal(st.consecutive_empty_count as nat)
                + " (total empty: "@ + decimal(st.total_empty_count as nat) + ")"@,
        )
    } else {
        None
    }
}

/// A time limit that a stream passed.
#[derive(Debug, Clone, Copy, PartialEq, Eq, Structural)]
pub enum StreamTimeout {
    /// The whole stream took too long.
    Total,
    /// Too long passed since the last chunk.
    ChunkGap,
}

/// `a - b`, or zero where `b` exceeds `a`.
pub open spec fn elapsed(a: u64, b: u64) -> int {
    if a >= b {
        a - b
    } else {
        0
    }
}

/// Which time limit a stream has passed at `now_ms`.
pub open spec fn timeout_reason(st: StreamState, now_ms: u64, total: u64, gap: u64) -> Option<
    StreamTimeout,
> {
    if elapsed(now_ms, st.start_ms) > total {
        Some(StreamTimeout::Total)
    } else if elapsed(now_ms, st.last_chunk_ms) > gap {
        Some(StreamTimeout::ChunkGap)
    } else {
        None
    }
}


// ---------------------------------------------------------------------------
// Running a stream: what each check and each line leads to
// ---------------------------------------------------------------------------

/// Why a stream stopped.
#[derive(Debug)]
pub enum StreamStop {
    /// The user cancelled it.
    Cancelled,
    /// It passed a time limit.
    TimedOut(StreamTimeout),
    /// Its repeats or empty chunks called for ending it, for this reason.
    Pattern(String),
    /// The server closed the answer.
    Ended,
    /// No chunk came within the read timeout.
    ReadTimedOut,
    /// Reading failed, with this message.
    ReadFailed(String),
    /// The chunk bookkeeping ended it, for this reason.
    Terminated(String),
    /// The server marked the answer done.
    Done,
}

/// What the user interface is told when a stream stops.
#[derive(Debug, Clone, Copy, PartialEq, Eq, Structural)]
pub enum StreamNotice {
    Cancelled,
    Timeout,
    Error,
    Terminated,
    Complete,
}

/// The notices sent when a stream stops, in order.
pub open spec fn stop_notices(s: StreamStop) -> Seq<StreamNotice> {
    match s {
        StreamStop::Cancelled => seq![StreamNotice::Cancelled],
        StreamStop::TimedOut(_) => seq![StreamNotice::Timeout, StreamNotice::Complete],
        StreamStop::Pattern(_) => seq![StreamNotice::Error, StreamNotice::Complete],
        StreamStop::Ended => seq![StreamNotice::Complete],
        StreamStop::ReadTimedOut => seq![StreamNotice::Timeout, StreamNotice::Complete],
        StreamStop::ReadFailed(_) => seq![StreamNotice::Error],
        StreamStop::Terminated(_) => seq![StreamNotice::Terminated, StreamNotice::Complete],
        StreamStop::Done => seq![StreamNotice::Complete],
    }
}

/// Whether a stream that stopped so ends in an error.
pub open spec fn stop_is_error(s: StreamStop) -> bool {
    match s {
        StreamStop::TimedOut(_) | StreamStop::Pattern(_) | StreamStop::ReadTimedOut
        | StreamStop::ReadFailed(_) => true,
        _ => false,
    }
}

impl StreamStop {
    /// The notices to send, in order.
    pub fn notices(&self) -> (r: Vec<StreamNotice>)
        ensures
            r@ == stop_notices(*self),
    {
        let r = match self {
            StreamStop::Cancelled => vec![StreamNotice::Cancelled],
            StreamStop::TimedOut(_) => vec![StreamNotice::Timeout, StreamNotice::Complete],
            StreamStop::Pattern(_) => vec![StreamNotice::Error, StreamNotice::Complete],
            StreamStop::Ended => vec![StreamNotice::Complete],
            StreamStop::ReadTimedOut => vec![StreamNotice::Timeout, StreamNotice::Complete],
            StreamStop::ReadFailed(_) => vec![StreamNotice::Error],
            StreamStop::Terminated(_) => vec![StreamNotice::Terminated, StreamNotice::Complete],
            StreamStop::Done => vec![StreamNotice::Complete],
        };
        assert(r@ =~= stop_notices(*self));
        r
    }

    /// Whether the stream ends in an error.
    pub fn is_error(&self) -> (b: bool)
        ensures
            b == stop_is_error(*self),
    {
        match self {
            StreamStop::TimedOut(_) | StreamStop::Pattern(_) | StreamStop::ReadTimedOut
            | StreamStop::ReadFailed(_) => true,
            _ => false,
        }
    }
}

/// The checks made before each read, in order: whether the user cancelled,
/// whether a time limit passed, whether the repeats or empty chunks call for
/// ending the stream.
pub fn check_before_read(state: &StreamState, cancelled: bool, now_ms: u64, config: &StreamConfig) -> (r:
    Option<StreamStop>)
    requires
        config.max_consecutive_repeats * 3 <= usize::MAX,
    ensures
        cancelled ==> r matches Some(StreamStop::Cancelled),
        !cancelled ==> match timeout_reason(
            *state,
            now_ms,
            config.max_total_duration_ms,
            config.max_chunk_gap_ms,
        ) {
            Some(k) => r matches Some(StreamStop::TimedOut(k2)) && k2 == k,
            None => match pattern_reason(
                *state,
                config.max_consecutive_repeats,
                config.max_consecutive_empty_chunks,
            ) {
                Some(m) => r matches Some(StreamStop::Pattern(m2)) && m2@ == m,
                None => r is None,
            },
        },
{
    if cancelled {
        return Some(StreamStop::Cancelled);
    }
    match state.should_timeout(now_ms, config.max_total_duration_ms, config.max_chunk_gap_ms) {
        Some(k) => {
            return Some(StreamStop::TimedOut(k));
        },
        None => {},
    }
    match state.should_terminate_patterns(config.max_consecutive_repeats, config.max_consecutive_empty_chunks) {
        Some(m) => Some(StreamStop::Pattern(m)),
        None => None,
    }
}

/// What one read of the connection gave.
#[derive(Debug)]
pub enum ReadOutcome {
    /// Bytes came; they go to the line buffer.
    Data,
    /// The server closed the answer.
    End,
    /// Nothing came within the read timeout.
    TimedOut,
    /// Reading failed, with this error.
    Failed(String),
}

/// Whether a read stops the stream, and why.
pub fn after_read(outcome: ReadOutcome) -> (r: Option<StreamStop>)
    ensures
        match outcome {
            ReadOutcome::Data => r is None,
            ReadOutcome::End => r matches Some(StreamStop::Ended),
            ReadOutcome::TimedOut => r matches Some(StreamStop::ReadTimedOut),
            ReadOutcome::Failed(e) => r matches Some(StreamStop::ReadFailed(m)) && m@ == "Stream error: "@
                + e@,
        },
{
    match outcome {
        ReadOutcome::Data => None,
        ReadOutcome::End => Some(StreamStop::Ended),
        ReadOutcome::TimedOut => Some(StreamStop::ReadTimedOut),
        ReadOutcome::Failed(e) => {
            let mut m = to_owned_string("Stream error: ");
            push_str(&mut m, e.as_str());
            Some(StreamStop::ReadFailed(m))
        },
    }
}

/// What one line of the answer leads to.
#[derive(Debug)]
pub enum LineAction {
    /// Nothing to show: the line is no answer record, or its chunk is empty
    /// and not the last.
    Skip,
    /// Show the chunk and go on reading.
    Show,
    /// Show the chunk; the answer is complete.
    ShowAndFinish,
    /// The bookkeeping ended the stream, for this reason.
    Terminate(String),
}

/// Handles one line of the answer that arrived at `now_ms`: `record` is its
/// chunk text and done mark where the line is an answer record (`None` for
/// a blank or unreadable line). The chunk is recorded first; an exit that
/// the recording calls for ends the stream; otherwise an empty chunk that is
/// not the last is not shown.
pub fn on_answer_line(state: &mut StreamState, record: Option<(&str, bool)>, now_ms: u64) -> (r: LineAction)
    requires
        old(state).chunk_count < usize::MAX,
        old(state).consecutive_empty_count < usize::MAX,
        old(state).total_empty_count < usize::MAX,
        old(state).repeat_count < usize::MAX,
    ensures
        record is None ==> r is Skip && *final(state) == *old(state),
        record matches Some((text, done)) ==> {
            &&& chunk_recorded(*old(state), *final(state), text@, now_ms)
            &&& match chunk_exit(*old(state), text@) {
                Some(m) => r matches LineAction::Terminate(m2) && m2@ == m,
                None => if text@.len() == 0 && !done {
                    r is Skip
                } else if done {
                    r is ShowAndFinish
                } else {
                    r is Show
                },
            }
        },
{
    match record {
        None => LineAction::Skip,
        Some((text, done)) => {
            match state.update_chunk(text, now_ms) {
                ChunkResult::Exit(reason) => LineAction::Terminate(reason),
                ChunkResult::Continue => {
                    if text.unicode_len() == 0 && !done {
                        LineAction::Skip
                    } else if done {
                        LineAction::ShowAndFinish
                    } else {
                        LineAction::Show
                    }
                },
            }
        },
    }
}

// ---------------------------------------------------------------------------
// Lines of the byte stream
// ---------------------------------------------------------------------------

/// Takes the first complete line out of `buffer`: the bytes before the first
/// newline are returned, and they and the newline leave the buffer. A buffer
/// without a newline is left as it is.
pub fn take_line(buffer: &mut Vec<u8>) -> (r: Option<Vec<u8>>)
    ensures
        match r {
            Some(line) => {
                let p = line@.len() as int;
                &&& p < old(buffer)@.len()
                &&& old(buffer)@[p] == 10u8
                &&& !line@.contains(10u8)
                &&& line@ == old(buffer)@.take(p)
                &&& final(buffer)@ == old(buffer)@.skip(p + 1)
                &&& old(buffer)@ == line@ + seq![10u8] + final(buffer)@
            },
            None => !old(buffer)@.contains(10u8) && final(buffer)@ == old(buffer)@,
        },
{
    let mut p: usize = 0;
    while p < buffer.len() && buffer[p] != 10u8
        invariant
            p <= buffer.len(),
            forall|q: int| 0 <= q < p ==> buffer@[q] != 10u8,
        decreases buffer.len() - p,
    {
        p = p + 1;
    }
    if p == buffer.len() {
        proof {
            if buffer@.contains(10u8) {
                let q = choose|q: int| 0 <= q < buffer@.len() && buffer@[q] == 10u8;
                assert(buffer@[q] != 10u8);
            }
        }
        return None;
    }
    let ghost orig = buffer@;
    let mut rest = buffer.split_off(p + 1);
    std::mem::swap(buffer, &mut rest);
    let mut line = rest;
    line.pop();
    assert(line@ =~= orig.take(p as int));
    assert(orig =~= line@ + seq![10u8] + buffer@);
    proof {
        if line@.contains(10u8) {
            let q = choose|q: int| 0 <= q < line@.len() && line@[q] == 10u8;
            assert(orig[q] != 10u8);
        }
    }
    Some(line)
}

// ---------------------------------------------------------------------------
// Cancellation registry
// ---------------------------------------------------------------------------

/// Streams that are running, each with whether its cancellation was asked for.
pub struct CancelRegistry {
    entries: Vec<(String, bool)>,
}

impl CancelRegistry {
    /// Whether the ids are distinct.
    pub closed spec fn wf(&self) -> bool {
        forall|a: int, b: int|
            0 <= a < b < self.entries@.len() ==> (#[trigger] self.entries@[a]).0@ != (
            #[trigger] self.entries@[b]).0@
    }

    /// Whether the registry holds id `k`.
    pub closed spec fn holds(&self, k: Seq<char>) -> bool {
        exists|i: int| 0 <= i < self.entries@.len() && (#[trigger] self.entries@[i]).0@ == k
    }

    /// The streams and their cancellation flags.
    pub closed spec fn view(&self) -> Map<Seq<char>, bool> {
        Map::new(
            |k: Seq<char>| self.holds(k),
            |k: Seq<char>|
                self.entries@[choose|i: int|
                    0 <= i < self.entries@.len() && (#[trigger] self.entries@[i]).0@ == k].1,
        )
    }

    proof fn lemma_lookup(&self, i: int)
        requires
            self.wf(),
            0 <= i < self.entries@.len(),
        ensures
            self.view().contains_key(self.entries@[i].0@),
            self.view()[self.entries@[i].0@] == self.entries@[i].1,
    {
        let k = self.entries@[i].0@;
        assert(self.holds(k));
        let c = choose|c: int| 0 <= c < self.entries@.len() && (#[trigger] self.entries@[c]).0@ == k;
        if c != i {
            if c < i {
                assert(self.entries@[c].0@ != self.entries@[i].0@);
            } else {
                assert(self.entries@[i].0@ != self.entries@[c].0@);
            }
        }
    }

    /// An empty registry.
    pub fn new() -> (r: Self)
        ensures
            r.wf(),
            r.view() == Map::<Seq<char>, bool>::empty(),
    {
        let r = CancelRegistry { entries: Vec::new() };
        assert(r.view() =~= Map::<Seq<char>, bool>::empty());
        r
    }

    fn position(&self, id: &str) -> (r: Option<usize>)
        ensures
            match r {
                Some(i) => i < self.entries@.len() && self.entries@[i as int].0@ == id@,
                None => !self.holds(id@),
            },
    {
        let mut i: usize = 0;
        while i < self.entries.len()
            invariant
                i <= self.entries@.len(),
                forall|q: int| 0 <= q < i ==> (#[trigger] self.entries@[q]).0@ != id@,
            decreases self.entries.len() - i,
        {
            if str_eq(self.entries[i].0.as_str(), id) {
                return Some(i);
            }
            i = i + 1;
        }
        None
    }

    /// Sets the flag of stream `id`, adding the stream where it is not there.
    pub fn set(&mut self, id: &str, cancelled: bool)
        requires
            old(self).wf(),
        ensures
            final(self).wf(),
            final(self).view() == old(self).view().insert(id@, cancelled),
    {
        let ghost before = self.view();
        let ghost snapshot = *self;
        match self.position(id) {
            Some(i) => {
                let ghost old_entries = self.entries@;
                let (k, _) = self.entries.remove(i);
                self.entries.insert(i, (k, cancelled));
                assert(self.entries@ =~= old_entries.update(i as int, (old_entries[i as int].0,
                    cancelled)));
                assert forall|a: int, b: int|
                    0 <= a < b < self.entries@.len() implies (#[trigger] self.entries@[a]).0@ != (
                    #[trigger] self.entries@[b]).0@ by {
                    assert(self.entries@[a].0 == old_entries[a].0);
                    assert(self.entries@[b].0 == old_entries[b].0);
                }
                assert forall|q: Seq<char>| #[trigger] self.holds(q) == (before.contains_key(q)
                    || q == id@) by {
                    if self.holds(q) {
                        let j = choose|j: int| 0 <= j < self.entries@.len() && (
                        #[trigger] self.entries@[j]).0@ == q;
                        assert(old_entries[j].0@ == q);
                    }
                    if before.contains_key(q) {
                        let j = choose|j: int| 0 <= j < old_entries.len() && (
                        #[trigger] old_entries[j]).0@ == q;
                        assert(self.entries@[j].0@ == q);
                    }
                    if q == id@ {
                        assert(self.entries@[i as int].0@ == q);
                    }
                }
                assert forall|q: Seq<char>| #[trigger] self.view().contains_key(q) implies self.view()[q]
                    == before.insert(id@, cancelled)[q] by {
                    let j = choose|j: int| 0 <= j < self.entries@.len() && (
                    #[trigger] self.entries@[j]).0@ == q;
                    self.lemma_lookup(j);
                    if j != i {
                        assert(old_entries[j] == self.entries@[j]);
                        snapshot.lemma_lookup(j);
                    }
                }
                assert(self.view().dom() =~= before.insert(id@, cancelled).dom());
                assert(self.view() =~= before.insert(id@, cancelled));
            },
            None => {
                let ghost old_entries = self.entries@;
                self.entries.push((to_owned_string(id), cancelled));
                let ghost n = old_entries.len() as int;
                assert forall|a: int, b: int|
                    0 <= a < b < self.entries@.len() implies (#[trigger] self.entries@[a]).0@ != (
                    #[trigger] self.entries@[b]).0@ by {
                    if b == n {
                        assert(self.entries@[a] == old_entries[a]);
                    } else {
                        assert(self.entries@[a] == old_entries[a]);
                        assert(self.entries@[b] == old_entries[b]);
                    }
                }
                assert forall|q: Seq<char>| #[trigger] self.holds(q) == (before.contains_key(q)
                    || q == id@) by {
                    if self.holds(q) {
                        let j = choose|j: int| 0 <= j < self.entries@.len() && (
                        #[trigger] self.entries@[j]).0@ == q;
                        if j < n {
                            assert(old_entries[j].0@ == q);
                        }
                    }
                    if before.contains_key(q) {
                        let j = choose|j: int| 0 <= j < old_entries.len() && (
                        #[trigger] old_entries[j]).0@ == q;
                        assert(self.entries@[j].0@ == q);
                    }
                    if q == id@ {
                        assert(self.entries@[n].0@ == q);
                    }
                }
                assert forall|q: Seq<char>| #[trigger] self.view().contains_key(q) implies self.view()[q]
                    == before.insert(id@, cancelled)[q] by {
                    let j = choose|j: int| 0 <= j < self.entries@.len() && (
                    #[trigger] self.entries@[j]).0@ == q;
                    self.lemma_lookup(j);
                    if j < n {
                        assert(old_entries[j] == self.entries@[j]);
                        snapshot.lemma_lookup(j);
                    }
                }
                assert(self.view().dom() =~= before.insert(id@, cancelled).dom());
                assert(self.view() =~= before.insert(id@, cancelled));
            },
        }
    }

    /// Registers stream `id` as running and not cancelled.
    pub fn register(&mut self, id: &str)
        requires
            old(self).wf(),
        ensures
            final(self).wf(),
            final(self).view() == old(self).view().insert(id@, false),
    {
        self.set(id, false)
    }

    /// Asks for stream `id` to be cancelled.
    pub fn cancel(&mut self, id: &str)
        requires
            old(self).wf(),
        ensures
            final(self).wf(),
            final(self).view() == old(self).view().insert(id@, true),
    {
        self.set(id, true)
    }

    /// Whether cancellation of stream `id` was asked for (`false` for a stream
    /// that is not there).
    pub fn is_session_cancelled(&self, id: &str) -> (r: bool)
        requires
            self.wf(),
        ensures
            r == (self.view().contains_key(id@) && self.view()[id@]),
    {
        match self.position(id) {
            Some(i) => {
                proof {
                    self.lemma_lookup(i as int);
                }
                self.entries[i].1
            },
            None => false,
        }
    }

    /// Forgets stream `id`.
    pub fn cleanup_session(&mut self, id: &str)
        requires
            old(self).wf(),
        ensures
            final(self).wf(),
            final(self).view() == old(self).view().remove(id@),
    {
        let ghost before = self.view();
        let ghost snapshot = *self;
        match self.position(id) {
            None => {
                assert(self.view() =~= before.remove(id@));
            },
            Some(i) => {
                let ghost old_entries = self.entries@;
                self.entries.remove(i);
                assert(self.entries@ =~= old_entries.remove(i as int));
                assert forall|a: int, b: int|
                    0 <= a < b < self.entries@.len() implies (#[trigger] self.entries@[a]).0@ != (
                    #[trigger] self.entries@[b]).0@ by {
                    let oa = if a < i { a } else { a + 1 };
                    let ob = if b < i { b } else { b + 1 };
                    assert(self.entries@[a] == old_entries[oa]);
                    assert(self.entries@[b] == old_entries[ob]);
                }
                assert forall|q: Seq<char>| #[trigger] self.holds(q) == (before.contains_key(q)
                    && q != id@) by {
                    if self.holds(q) {
                        let j = choose|j: int| 0 <= j < self.entries@.len() && (
                        #[trigger] self.entries@[j]).0@ == q;
                        let oj = if j < i { j } else { j + 1 };
                        assert(old_entries[oj].0@ == q);
                        assert(oj != i);
                        assert(q != id@);
                    }
                    if before.contains_key(q) && q != id@ {
                        let j = choose|j: int| 0 <= j < old_entries.len() && (
                        #[trigger] old_entries[j]).0@ == q;
                        assert(j != i);
                        let nj = if j < i { j } else { j - 1 };
                        assert(self.entries@[nj].0@ == q);
                    }
                }
                assert forall|q: Seq<char>| #[trigger] self.view().contains_key(q) implies self.view()[q]
                    == before[q] by {
                    let j = choose|j: int| 0 <= j < self.entries@.len() && (
                    #[trigger] self.entries@[j]).0@ == q;
                    self.lemma_lookup(j);
                    let oj = if j < i { j } else { j + 1 };
                    assert(old_entries[oj] == self.entries@[j]);
                    snapshot.lemma_lookup(oj);
                }
                assert(self.view().dom() =~= before.remove(id@).dom());
                assert(self.view() =~= before.remove(id@));
            },
        }
    }
}

/// A stream whose cancellation was asked for reads as cancelled until it is
/// registered again or forgotten; a forgotten stream reads as not cancelled.
pub proof fn law_cancel_is_seen(m: Map<Seq<char>, bool>, id: Seq<char>, other: Seq<char>)
    ensures
        m.insert(id, true).contains_key(id) && m.insert(id, true)[id],
        !m.remove(id).contains_key(id),
        m.insert(id, false).contains_key(id) && !m.insert(id, false)[id],
        other != id ==> m.insert(id, true).contains_key(other) == m.contains_key(other),
        other != id && m.contains_key(other) ==> m.insert(id, true)[other] == m[other],
{
}

/// The limits of a stream: it has timed out as a whole exactly when more than
/// `total` milliseconds passed since it started; otherwise it has timed out
/// between chunks exactly when more than `gap` milliseconds passed since the
/// last chunk (not since the start). Within both limits there is no timeout.
pub proof fn law_timeouts_follow_the_clock(st: StreamState, now_ms: u64, total: u64, gap: u64)
    ensures
        (timeout_reason(st, now_ms, total, gap) == Some(StreamTimeout::Total)) <==> (now_ms >= st.start_ms
            && now_ms - st.start_ms > total),
        (timeout_reason(st, now_ms, total, gap) == Some(StreamTimeout::ChunkGap)) <==> (!(now_ms
            >= st.start_ms && now_ms - st.start_ms > total) && now_ms >= st.last_chunk_ms && now_ms
            - st.last_chunk_ms > gap),
        (timeout_reason(st, now_ms, total, gap) is None) <==> (!(now_ms >= st.start_ms && now_ms
            - st.start_ms > total) && !(now_ms >= st.last_chunk_ms && now_ms - st.last_chunk_ms > gap)),
{
}

/// Recording a chunk at `now_ms` resets the gap: right after it, the stream
/// has not timed out between chunks.
pub proof fn law_chunk_resets_gap(
    before: StreamState,
    after: StreamState,
    chunk: Seq<char>,
    now_ms: u64,
    total: u64,
    gap: u64,
)
    requires
        chunk_recorded(before, after, chunk, now_ms),
    ensures
        timeout_reason(after, now_ms, total, gap) != Some(StreamTimeout::ChunkGap),
{
}

} // verus!
