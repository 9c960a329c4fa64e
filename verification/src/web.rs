//! The downloader's data types and its decision logic.
//!
//! The host performs the I/O: it issues the probe, allocates and maps the
//! destination, runs the chunk workers and renames the finished file.  What
//! to do next, and what every response means, is decided here: probe
//! headers are interpreted, each chunk attempt is tracked and judged, and
//! `DownloadOp` drives the whole operation as a state machine from
//! `Probing` through `Publishing`, so that the destination name is only
//! ever touched after the finished file verified.

use vstd::prelude::*;

verus! {

use crate::plan::{
    chunks_wf,
    select_threads_spec,
    select_threads_with_cpu,
    plan_chunks,
};

/// A POST response body: text for textual content types, raw bytes else.
#[derive(Debug)]
pub enum ResponseBody {
    Text(String),
    Bytes(Vec<u8>),
}

/// A POST response: its status code and its body.
#[derive(Debug)]
pub struct ResPost {
    pub status_code: i32,
    pub body: ResponseBody,
}

impl ResPost {
    /// Bundle a status code and a body.
    pub fn new(status_code: i32, body: ResponseBody) -> (r: ResPost)
        ensures
            r.status_code == status_code,
            r.body == body,
    {
        ResPost { status_code, body }
    }
}

/// `needle` occurs in `haystack` starting at `i`.
pub open spec fn occurs_at(haystack: Seq<char>, needle: Seq<char>, i: int) -> bool {
    0 <= i && i + needle.len() <= haystack.len() && haystack.subrange(i, i + needle.len())
        == needle
}

/// `needle` occurs somewhere in `haystack`.
pub open spec fn has_substring(haystack: Seq<char>, needle: Seq<char>) -> bool {
    exists|i: int| occurs_at(haystack, needle, i)
}

/// Whether `needle` occurs in `haystack`.
pub fn contains_str(haystack: &str, needle: &str) -> (r: bool)
    ensures
        r == has_substring(haystack@, needle@),
{
    let h = haystack.unicode_len();
    let n = needle.unicode_len();
    if n > h {
        proof {
            assert(forall|i: int| !occurs_at(haystack@, needle@, i));
        }
        return false;
    }
    let mut i: usize = 0;
    loop
        invariant
            i <= h - n + 1,
            n <= h,
            h == haystack@.len(),
            n == needle@.len(),
            forall|m: int| 0 <= m < i ==> !occurs_at(haystack@, needle@, m),
        decreases h - n + 1 - i,
    {
        if i > h - n {
            proof {
                assert(forall|m: int| occurs_at(haystack@, needle@, m) ==> 0 <= m <= h - n);
            }
            return false;
        }
        let mut k: usize = 0;
        let mut matched = true;
        while k < n
            invariant
                k <= n,
                i + n <= h,
                h == haystack@.len(),
                n == needle@.len(),
                matched <==> (forall|t: int| 0 <= t < k ==> haystack@[i + t] == needle@[t]),
            decreases n - k,
        {
            if haystack.get_char(i + k) != needle.get_char(k) {
                matched = false;
                proof {
                    assert(haystack@[i + k as int] != needle@[k as int]);
                }
                k = n;
            } else {
                proof {
                    assert(haystack@[i + k as int] == needle@[k as int]);
                }
                k = k + 1;
            }
        }
        if matched {
            proof {
                assert(haystack@.subrange(i as int, i + n as int) =~= needle@);
                assert(occurs_at(haystack@, needle@, i as int));
            }
            return true;
        }
        proof {
            assert(!occurs_at(haystack@, needle@, i as int)) by {
                if occurs_at(haystack@, needle@, i as int) {
                    assert(forall|t: int| 0 <= t < n ==> #[trigger] haystack@.subrange(
                        i as int,
                        i + n as int,
                    )[t] == haystack@[i + t]);
                }
            }
        }
        i = i + 1;
    }
}

/// A content type delivered as text: it mentions `text/` or `json`.
pub open spec fn spec_is_text_content_type(ct: Seq<char>) -> bool {
    has_substring(ct, "text/"@) || has_substring(ct, "json"@)
}

/// Whether a response with this content type is delivered as text.
pub fn is_text_content_type(content_type: &str) -> (r: bool)
    ensures
        r == spec_is_text_content_type(content_type@),
{
    if contains_str(content_type, "text/") {
        true
    } else {
        contains_str(content_type, "json")
    }
}

/// Why a download failed.
#[derive(Debug)]
pub enum WebError {
    /// The underlying HTTP request could not be completed.
    RequestFailed(String),
    /// The server did not report a total length; transfers of unknown
    /// length are not started.
    MissingLength,
    /// A chunk exhausted its retry budget.
    ChunkFailed,
    /// The finished file's size did not match the announced total.
    ValidationFailed,
    /// A filesystem or mapping operation failed.
    Io(String),
    /// A malformed URL or destination.
    InvalidInput(String),
}

/// Numeric error codes mirroring the download errors for foreign callers.
#[derive(Debug, Clone, Copy, PartialEq, Eq, Structural)]
pub enum WebErrorCode {
    Success,
    InvalidUrl,
    InvalidPath,
    RequestFailed,
    FileValidationFailed,
    BufferPoolError,
    MemoryAllocationFailed,
    InvalidArgument,
}

/// The numeric value of an error code.
pub open spec fn web_error_code_value(c: WebErrorCode) -> int {
    match c {
        WebErrorCode::Success => 0,
        WebErrorCode::InvalidUrl => 1,
        WebErrorCode::InvalidPath => 2,
        WebErrorCode::RequestFailed => 3,
        WebErrorCode::FileValidationFailed => 4,
        WebErrorCode::BufferPoolError => 5,
        WebErrorCode::MemoryAllocationFailed => 6,
        WebErrorCode::InvalidArgument => 7,
    }
}

impl WebErrorCode {
    /// The code as an integer, as foreign callers receive it.
    pub fn as_int(&self) -> (r: i32)
        ensures
            r as int == web_error_code_value(*self),
    {
        match self {
            WebErrorCode::Success => 0,
            WebErrorCode::InvalidUrl => 1,
            WebErrorCode::InvalidPath => 2,
            WebErrorCode::RequestFailed => 3,
            WebErrorCode::FileValidationFailed => 4,
            WebErrorCode::BufferPoolError => 5,
            WebErrorCode::MemoryAllocationFailed => 6,
            WebErrorCode::InvalidArgument => 7,
        }
    }
}

/// What one finished download reports.
#[derive(Debug)]
pub struct DownloadResult {
    pub threads_used: usize,
    pub save_path: String,
    pub file_name: String,
}

/// What the probe learned about the origin server.
#[derive(Debug, Clone, Copy)]
pub struct ServerCapabilities {
    pub total_size: u64,
    pub supports_ranges: bool,
}

/// The immutable input of one download operation.
#[derive(Debug)]
pub struct DownloadRequest {
    pub url: String,
    pub destination: String,
    pub requested_threads: usize,
    pub force_thread_count: bool,
    pub buffer_pool_capacity: usize,
    pub buffer_size: usize,
}

impl DownloadRequest {
    /// A request the engine can run: at least one worker, and a buffer
    /// pool with room for at least one idle buffer.
    pub open spec fn wf(&self) -> bool {
        self.requested_threads >= 1 && self.buffer_pool_capacity >= 1
    }

    /// Check a request before the operation starts: exactly the
    /// well-formed requests are accepted.
    pub fn validate(&self) -> (r: Result<(), WebError>)
        ensures
            r is Ok <==> self.wf(),
            r matches Err(e) ==> e is InvalidInput,
    {
        if self.requested_threads == 0 {
            let mut msg = String::new();
            msg.append("requested thread count must be at least one");
            return Err(WebError::InvalidInput(msg));
        }
        if self.buffer_pool_capacity == 0 {
            let mut msg = String::new();
            msg.append("buffer pool capacity must be at least one");
            return Err(WebError::InvalidInput(msg));
        }
        Ok(())
    }
}

/// A decimal digit.
pub open spec fn is_digit(c: char) -> bool {
    0x30 <= c as u32 && c as u32 <= 0x39
}

/// The numeric value of a digit.
pub open spec fn digit_value(c: char) -> int {
    c as u32 - 0x30
}

/// Every character is a digit.
pub open spec fn all_digits(s: Seq<char>) -> bool {
    forall|i: int| 0 <= i < s.len() ==> is_digit(#[trigger] s[i])
}

/// The number a digit string denotes.
pub open spec fn digits_value(s: Seq<char>) -> int
    decreases s.len(),
{
    if s.len() == 0 {
        0
    } else {
        digits_value(s.drop_last()) * 10 + digit_value(s.last())
    }
}

/// What `str::parse::<u64>` yields: an optional leading `+`, then at least
/// one digit, denoting a value that fits.
pub open spec fn spec_parse_u64(s: Seq<char>) -> Option<u64> {
    let digits = if s.len() >= 1 && s[0] == '+' {
        s.skip(1)
    } else {
        s
    };
    if digits.len() >= 1 && all_digits(digits) && digits_value(digits) <= u64::MAX {
        Some(digits_value(digits) as u64)
    } else {
        None
    }
}

proof fn lemma_digits_value_nonneg(s: Seq<char>)
    requires
        all_digits(s),
    ensures
        digits_value(s) >= 0,
    decreases s.len(),
{
    if s.len() > 0 {
        let t = s.drop_last();
        assert(forall|i: int| 0 <= i < t.len() ==> is_digit(#[trigger] t[i]));
        lemma_digits_value_nonneg(t);
        assert(is_digit(s.last()));
    }
}

proof fn lemma_digits_value_prefix_le(s: Seq<char>, i: int)
    requires
        all_digits(s),
        0 <= i <= s.len(),
    ensures
        digits_value(s.take(i)) <= digits_value(s),
    decreases s.len() - i,
{
    if i < s.len() {
        lemma_digits_value_prefix_le(s, i + 1);
        let p = s.take(i + 1);
        assert(p.drop_last() =~= s.take(i));
        assert(forall|m: int| 0 <= m < p.len() ==> is_digit(#[trigger] p[m]));
        lemma_digits_value_nonneg(s.take(i));
        assert(is_digit(p.last()));
        assert(digits_value(p) == digits_value(s.take(i)) * 10 + digit_value(p.last()));
        assert(digits_value(s.take(i)) * 10 >= digits_value(s.take(i)));
    } else {
        assert(s.take(i) =~= s);
    }
}

/// Parse a decimal `u64` as `str::parse` does: an optional leading `+`,
/// then decimal digits; anything else, or a value that does not fit, is
/// rejected.
pub fn parse_u64(s: &str) -> (r: Option<u64>)
    ensures
        r == spec_parse_u64(s@),
{
    let n = s.unicode_len();
    let mut start: usize = 0;
    if n >= 1 && s.get_char(0) == '+' {
        start = 1;
    }
    let ghost digits = if s@.len() >= 1 && s@[0] == '+' {
        s@.skip(1)
    } else {
        s@
    };
    if start >= n {
        // no digits at all
        return None;
    }
    proof {
        assert(s@.skip(0) =~= s@);
    }
    let mut acc: u64 = 0;
    let mut i: usize = start;
    while i < n
        invariant
            start <= i <= n,
            start <= 1,
            n >= start + 1,
            n == s@.len(),
            start == 1 <==> (s@.len() >= 1 && s@[0] == '+'),
            digits == s@.skip(start as int),
            all_digits(digits.take(i - start)),
            acc == digits_value(digits.take(i - start)),
        decreases n - i,
    {
        proof {
            assert(s@.skip(0) =~= s@);
        }
        let c = s.get_char(i);
        let code = c as u32;
        if code < 0x30 || code > 0x39 {
            proof {
                assert(digits[i - start] == s@[i as int]);
                assert(!is_digit(digits[i - start]));
                assert(!all_digits(digits));
            }
            return None;
        }
        let d: u64 = (code - 0x30) as u64;
        let next = match acc.checked_mul(10) {
            Some(x) => x.checked_add(d),
            None => None,
        };
        match next {
            Some(v) => {
                proof {
                    let pre = digits.take(i - start);
                    let cur = digits.take(i + 1 - start);
                    assert(cur.drop_last() =~= pre);
                    assert(cur.last() == s@[i as int]);
                    assert(forall|m: int| 0 <= m < cur.len() ==> is_digit(#[trigger] cur[m]));
                }
                acc = v;
            },
            None => {
                proof {
                    let cur = digits.take(i + 1 - start);
                    assert(cur.drop_last() =~= digits.take(i - start));
                    assert(cur.last() == s@[i as int]);
                    assert(forall|m: int| 0 <= m < cur.len() ==> is_digit(#[trigger] cur[m]));
                    assert(digits_value(cur) > u64::MAX);
                    if all_digits(digits) && digits_value(digits) <= u64::MAX {
                        lemma_digits_value_prefix_le(digits, i + 1 - start);
                        assert(false);
                    }
                }
                return None;
            },
        }
        i = i + 1;
    }
    proof {
        assert(digits.take(n - start) =~= digits);
    }
    Some(acc)
}

/// The total size announced by a Content-Length header, if one was given
/// and parses.
pub open spec fn spec_content_length(cl: Option<Seq<char>>) -> Option<u64> {
    match cl {
        Some(s) => spec_parse_u64(s),
        None => None,
    }
}

/// Whether an Accept-Ranges header announces byte-range support: only the
/// literal `bytes` token counts.
pub open spec fn spec_supports_ranges(ar: Option<Seq<char>>) -> bool {
    match ar {
        Some(s) => s == "bytes"@,
        None => false,
    }
}

/// Interpret the probe's response headers.  A missing or unparsable
/// Content-Length is a hard error: transfers of unknown length are never
/// started.  Range support counts only when the header is exactly `bytes`.
pub fn interpret_probe(accept_ranges: &Option<String>, content_length: &Option<String>) -> (r:
    Result<ServerCapabilities, WebError>)
    ensures
        r matches Ok(c) ==> spec_content_length(content_length.deep_view()) == Some(c.total_size)
            && c.supports_ranges == spec_supports_ranges(accept_ranges.deep_view()),
        r matches Err(e) ==> e is MissingLength && spec_content_length(
            content_length.deep_view(),
        ) is None,
{
    let total_size = match content_length {
        Some(cl) => {
            match parse_u64(cl.as_str()) {
                Some(v) => v,
                None => {
                    return Err(WebError::MissingLength);
                },
            }
        },
        None => {
            return Err(WebError::MissingLength);
        },
    };
    let supports_ranges = match accept_ranges {
        Some(v) => {
            let token = "bytes".to_owned();
            *v == token
        },
        None => false,
    };
    Ok(ServerCapabilities { total_size, supports_ranges })
}

/// Retry budget for one chunk: attempts per chunk before it fails for good.
pub const MAX_RETRIES: u8 = 3;

/// Progress of one chunk attempt: how many of the expected bytes have been
/// copied into the chunk's exclusive region so far.
pub struct ChunkAttempt {
    pub expected: u64,
    pub copied: u64,
}

impl ChunkAttempt {
    /// Start an attempt for a span of `expected` bytes.
    pub fn begin(expected: u64) -> (r: ChunkAttempt)
        ensures
            r.expected == expected,
            r.copied == 0,
    {
        ChunkAttempt { expected, copied: 0 }
    }

    /// Account for `read` bytes arriving.  Returns whether they still fit
    /// the chunk's region; a read that would overrun the exclusive slice is
    /// refused, so a worker can never touch a byte outside its own span.
    pub fn on_read(&mut self, read: u64) -> (ok: bool)
        ensures
            ok <==> old(self).copied + read <= old(self).expected,
            final(self).expected == old(self).expected,
            ok ==> final(self).copied == old(self).copied + read,
            !ok ==> final(self).copied == old(self).copied,
    {
        match self.copied.checked_add(read) {
            Some(t) => {
                if t <= self.expected {
                    self.copied = t;
                    true
                } else {
                    false
                }
            },
            None => false,
        }
    }

    /// Whether the attempt has delivered exactly the expected span.
    pub fn is_complete(&self) -> (r: bool)
        ensures
            r == (self.copied == self.expected),
    {
        self.copied == self.expected
    }
}

/// What becomes of a chunk after one attempt.
#[derive(Debug, Clone, Copy, PartialEq, Eq, Structural)]
pub enum ChunkVerdict {
    /// The span arrived in full; the chunk is finished.
    Done,
    /// The span was short but the retry budget is not exhausted.
    Retry,
    /// The span was short on the final attempt; the chunk has failed.
    Failed,
}

/// Judge one finished attempt: the chunk succeeds exactly when every
/// expected byte was copied, retries while the budget lasts, and fails
/// for good when the last attempt came up short.  `attempt_index` counts
/// from zero.
pub fn chunk_attempt_verdict(copied: u64, expected: u64, attempt_index: u8) -> (v: ChunkVerdict)
    requires
        attempt_index < MAX_RETRIES,
    ensures
        v is Done <==> copied == expected,
        v is Retry <==> copied != expected && attempt_index + 1 < MAX_RETRIES,
        v is Failed <==> copied != expected && attempt_index + 1 == MAX_RETRIES,
{
    if copied == expected {
        ChunkVerdict::Done
    } else if attempt_index + 1 < MAX_RETRIES {
        ChunkVerdict::Retry
    } else {
        ChunkVerdict::Failed
    }
}

/// Where a download operation stands.
#[derive(Debug, Clone, Copy, PartialEq, Eq, Structural)]
pub enum DlPhase {
    Probing,
    Allocating,
    FetchingSingle,
    FetchingParallel,
    Verifying,
    Publishing,
    Done,
    Failed,
}

/// What the host reports back to the operation.
#[derive(Debug)]
pub enum DlEvent {
    /// The probe returned: the Accept-Ranges and Content-Length headers.
    ProbeResponse { accept_ranges: Option<String>, content_length: Option<String> },
    /// The probe request itself failed.
    ProbeFailed { message: String },
    /// The temporary file was created, sized and mapped.
    Allocated,
    /// Creating, sizing or mapping the temporary file failed.
    AllocationFailed { message: String },
    /// The single unranged transfer finished.
    SingleStreamDone,
    /// The single unranged transfer failed.
    SingleStreamFailed { message: String },
    /// Every chunk worker terminated; whether any failed for good.
    ChunksDone { any_failed: bool },
    /// The mapping was flushed and the file length read back.
    FlushedAndMeasured { size: u64 },
    /// Flushing or measuring failed.
    FlushFailed { message: String },
    /// The temporary file now stands under the destination name.
    Renamed,
    /// The rename failed.
    RenameFailed { message: String },
}

/// What the host must do next.
#[derive(Debug)]
pub enum DlAction {
    /// Issue the metadata probe for the operation's URL.
    Probe,
    /// Create the temporary file, set its length to `size`, and map it.
    Allocate { size: u64 },
    /// Stream one unranged request into the temporary file.
    FetchWhole,
    /// Run one worker per planned chunk (the plan is in `chunks`).
    FetchChunks,
    /// Flush the mapping and read the file's length back.
    FlushAndMeasure,
    /// Rename the temporary file to the destination name.
    Rename,
    /// The operation is over; inspect `result` or `error`.
    Stop,
}

/// A server for which only the single-stream path is taken: it refuses
/// ranges, or there is nothing to split.
pub open spec fn single_stream_caps(c: ServerCapabilities) -> bool {
    !c.supports_ranges || c.total_size == 0
}

/// One download operation, driven as a state machine: the host performs
/// each returned action and feeds the outcome back as an event.
pub struct DownloadOp {
    pub url: String,
    pub save_path: String,
    pub file_name: String,
    pub requested_threads: usize,
    pub force_thread_count: bool,
    pub cpu_cap: usize,
    pub phase: DlPhase,
    pub caps: Option<ServerCapabilities>,
    pub threads_used: usize,
    pub chunks: Vec<(u64, u64)>,
    pub error: Option<WebError>,
    pub result: Option<DownloadResult>,
}

/// The worker count an operation ends up with, given what the probe found.
pub open spec fn planned_threads(op: DownloadOp, c: ServerCapabilities) -> int {
    if single_stream_caps(c) {
        1
    } else {
        select_threads_spec(op.requested_threads, c.total_size, op.force_thread_count, op.cpu_cap)
    }
}

impl DownloadOp {
    /// The operation's invariant: what each phase guarantees about the
    /// stored capabilities, worker count, plan and outcome.
    pub open spec fn wf(self) -> bool {
        &&& self.cpu_cap >= 1
    &&& self.requested_threads >= 1
    &&& match self.phase {
        DlPhase::Probing => self.caps is None && self.error is None && self.result is None,
        DlPhase::Allocating => self.caps is Some && self.error is None && self.result is None,
        DlPhase::FetchingSingle => self.caps matches Some(c) && single_stream_caps(c)
            && self.threads_used == 1 && self.error is None && self.result is None,
        DlPhase::FetchingParallel => self.caps matches Some(c) && !single_stream_caps(c)
            && self.threads_used as int == planned_threads(self, c)
            && chunks_wf(self.chunks@, c.total_size) && self.chunks@.len() <= self.threads_used
            && self.error is None && self.result is None,
        DlPhase::Verifying => self.caps matches Some(c) && self.threads_used as int
            == planned_threads(self, c) && self.error is None && self.result is None,
        DlPhase::Publishing => self.caps matches Some(c) && self.threads_used as int
            == planned_threads(self, c) && self.error is None && self.result is None,
        DlPhase::Done => self.caps matches Some(c) && self.result matches Some(res)
            && res.threads_used as int == planned_threads(self, c)
            && res.save_path == self.save_path && res.file_name == self.file_name
            && self.error is None,
        DlPhase::Failed => self.error is Some && self.result is None,
    }
    }
}

/// A step that ended the operation in failure.
pub open spec fn stops_failed(post: DownloadOp, act: DlAction) -> bool {
    post.phase is Failed && post.result is None && act is Stop
}

/// A step fed an event its phase cannot accept.
pub open spec fn unexpected_event(post: DownloadOp, act: DlAction) -> bool {
    &&& stops_failed(post, act)
    &&& (post.error matches Some(e) && e is InvalidInput)
}

/// The transition relation of `DownloadOp::on_event`: for the phase the
/// operation was in and the event the host delivered, what the new state
/// and the emitted action are.
pub open spec fn step_post(pre: DownloadOp, ev: DlEvent, post: DownloadOp, act: DlAction) -> bool {
    &&& post.url == pre.url
    &&& post.save_path == pre.save_path
    &&& post.file_name == pre.file_name
    &&& post.requested_threads == pre.requested_threads
    &&& post.force_thread_count == pre.force_thread_count
    &&& post.cpu_cap == pre.cpu_cap
    &&& match pre.phase {
        DlPhase::Probing => match ev {
            DlEvent::ProbeResponse { accept_ranges, content_length } => match spec_content_length(
                content_length.deep_view(),
            ) {
                Some(total) => {
                    &&& post.phase is Allocating
                    &&& (post.caps matches Some(c) && c.total_size == total && c.supports_ranges
                        == spec_supports_ranges(accept_ranges.deep_view()))
                    &&& (act matches DlAction::Allocate { size } && size == total)
                },
                None => {
                    &&& stops_failed(post, act)
                    &&& (post.error matches Some(e) && e is MissingLength)
                },
            },
            DlEvent::ProbeFailed { .. } => {
                &&& stops_failed(post, act)
                &&& (post.error matches Some(e) && e is RequestFailed)
            },
            _ => unexpected_event(post, act),
        },
        DlPhase::Allocating => match ev {
            DlEvent::Allocated => pre.caps matches Some(c) && (if single_stream_caps(c) {
                &&& post.phase is FetchingSingle
                &&& post.caps == pre.caps
                &&& post.threads_used == 1
                &&& act is FetchWhole
            } else {
                &&& post.phase is FetchingParallel
                &&& post.caps == pre.caps
                &&& post.threads_used as int == select_threads_spec(
                    pre.requested_threads,
                    c.total_size,
                    pre.force_thread_count,
                    pre.cpu_cap,
                )
                &&& chunks_wf(post.chunks@, c.total_size)
                &&& post.chunks@.len() <= post.threads_used
                &&& act is FetchChunks
            }),
            DlEvent::AllocationFailed { .. } => {
                &&& stops_failed(post, act)
                &&& (post.error matches Some(e) && e is Io)
            },
            _ => unexpected_event(post, act),
        },
        DlPhase::FetchingSingle => match ev {
            DlEvent::SingleStreamDone => post.phase is Verifying && post.caps == pre.caps
                && post.threads_used == pre.threads_used && act is FlushAndMeasure,
            DlEvent::SingleStreamFailed { .. } => {
                &&& stops_failed(post, act)
                &&& (post.error matches Some(e) && e is RequestFailed)
            },
            _ => unexpected_event(post, act),
        },
        DlPhase::FetchingParallel => match ev {
            DlEvent::ChunksDone { any_failed } => if any_failed {
                &&& stops_failed(post, act)
                &&& (post.error matches Some(e) && e is ChunkFailed)
            } else {
                post.phase is Verifying && post.caps == pre.caps && post.threads_used
                    == pre.threads_used && act is FlushAndMeasure
            },
            _ => unexpected_event(post, act),
        },
        DlPhase::Verifying => match ev {
            DlEvent::FlushedAndMeasured { size } => pre.caps matches Some(c) && (if size
                == c.total_size {
                post.phase is Publishing && post.caps == pre.caps && post.threads_used
                    == pre.threads_used && act is Rename
            } else {
                &&& stops_failed(post, act)
                &&& (post.error matches Some(e) && e is ValidationFailed)
            }),
            DlEvent::FlushFailed { .. } => {
                &&& stops_failed(post, act)
                &&& (post.error matches Some(e) && e is Io)
            },
            _ => unexpected_event(post, act),
        },
        DlPhase::Publishing => match ev {
            DlEvent::Renamed => {
                &&& post.phase is Done
                &&& post.caps == pre.caps
                &&& (post.result matches Some(res) && res.threads_used == pre.threads_used
                    && res.save_path == pre.save_path && res.file_name == pre.file_name)
                &&& act is Stop
            },
            DlEvent::RenameFailed { .. } => {
                &&& stops_failed(post, act)
                &&& (post.error matches Some(e) && e is Io)
            },
            _ => unexpected_event(post, act),
        },
        DlPhase::Done => unexpected_event(post, act),
        DlPhase::Failed => unexpected_event(post, act),
    }
}

impl DownloadOp {
    /// Begin a download operation.  The destination path and file name are
    /// already resolved; `cpu_cap` is the host parallelism the thread
    /// budget may not exceed.  The first action is the probe.
    pub fn start(
        url: String,
        save_path: String,
        file_name: String,
        requested_threads: usize,
        force_thread_count: bool,
        cpu_cap: usize,
    ) -> (r: (DownloadOp, DlAction))
        requires
            requested_threads >= 1,
            cpu_cap >= 1,
        ensures
            r.0.wf(),
            r.0.phase is Probing,
            r.0.url == url,
            r.0.save_path == save_path,
            r.0.file_name == file_name,
            r.0.requested_threads == requested_threads,
            r.0.force_thread_count == force_thread_count,
            r.0.cpu_cap == cpu_cap,
            r.1 is Probe,
    {
        let op = DownloadOp {
            url,
            save_path,
            file_name,
            requested_threads,
            force_thread_count,
            cpu_cap,
            phase: DlPhase::Probing,
            caps: None,
            threads_used: 0,
            chunks: Vec::new(),
            error: None,
            result: None,
        };
        (op, DlAction::Probe)
    }

    /// Advance the operation by one host event, returning the next action.
    /// The temporary file is renamed to the destination only out of the
    /// `Publishing` phase, which is reached only after the finished file's
    /// measured size matched the announced total.
    pub fn on_event(&mut self, ev: DlEvent) -> (act: DlAction)
        requires
            old(self).wf(),
        ensures
            final(self).wf(),
            step_post(*old(self), ev, *final(self), act),
            act is Rename ==> old(self).phase is Verifying,
    {
        match self.phase {
            DlPhase::Probing => match ev {
                DlEvent::ProbeResponse { accept_ranges, content_length } => {
                    match interpret_probe(&accept_ranges, &content_length) {
                        Ok(c) => {
                            let size = c.total_size;
                            self.caps = Some(c);
                            self.phase = DlPhase::Allocating;
                            DlAction::Allocate { size }
                        },
                        Err(e) => {
                            self.phase = DlPhase::Failed;
                            self.error = Some(e);
                            DlAction::Stop
                        },
                    }
                },
                DlEvent::ProbeFailed { message } => {
                    self.phase = DlPhase::Failed;
                    self.error = Some(WebError::RequestFailed(message));
                    DlAction::Stop
                },
                _ => self.reject_event(),
            },
            DlPhase::Allocating => match ev {
                DlEvent::Allocated => {
                    let c = match self.caps {
                        Some(c) => c,
                        None => {
                            proof {
                                assert(false);
                            }
                            ServerCapabilities { total_size: 0, supports_ranges: false }
                        },
                    };
                    if !c.supports_ranges || c.total_size == 0 {
                        self.phase = DlPhase::FetchingSingle;
                        self.threads_used = 1;
                        DlAction::FetchWhole
                    } else {
                        let threads = select_threads_with_cpu(
                            self.requested_threads,
                            c.total_size,
                            self.force_thread_count,
                            self.cpu_cap,
                        );
                        let chunks = plan_chunks(c.total_size, threads, self.cpu_cap);
                        self.threads_used = threads;
                        self.chunks = chunks;
                        self.phase = DlPhase::FetchingParallel;
                        DlAction::FetchChunks
                    }
                },
                DlEvent::AllocationFailed { message } => {
                    self.phase = DlPhase::Failed;
                    self.error = Some(WebError::Io(message));
                    DlAction::Stop
                },
                _ => self.reject_event(),
            },
            DlPhase::FetchingSingle => match ev {
                DlEvent::SingleStreamDone => {
                    self.phase = DlPhase::Verifying;
                    DlAction::FlushAndMeasure
                },
                DlEvent::SingleStreamFailed { message } => {
                    self.phase = DlPhase::Failed;
                    self.error = Some(WebError::RequestFailed(message));
                    DlAction::Stop
                },
                _ => self.reject_event(),
            },
            DlPhase::FetchingParallel => match ev {
                DlEvent::ChunksDone { any_failed } => {
                    if any_failed {
                        self.phase = DlPhase::Failed;
                        self.error = Some(WebError::ChunkFailed);
                        DlAction::Stop
                    } else {
                        self.phase = DlPhase::Verifying;
                        DlAction::FlushAndMeasure
                    }
                },
                _ => self.reject_event(),
            },
            DlPhase::Verifying => match ev {
                DlEvent::FlushedAndMeasured { size } => {
                    let c = match self.caps {
                        Some(c) => c,
                        None => {
                            proof {
                                assert(false);
                            }
                            ServerCapabilities { total_size: 0, supports_ranges: false }
                        },
                    };
                    if size == c.total_size {
                        self.phase = DlPhase::Publishing;
                        DlAction::Rename
                    } else {
                        self.phase = DlPhase::Failed;
                        self.error = Some(WebError::ValidationFailed);
                        DlAction::Stop
                    }
                },
                DlEvent::FlushFailed { message } => {
                    self.phase = DlPhase::Failed;
                    self.error = Some(WebError::Io(message));
                    DlAction::Stop
                },
                _ => self.reject_event(),
            },
            DlPhase::Publishing => match ev {
                DlEvent::Renamed => {
                    let save_path = self.save_path.clone();
                    let file_name = self.file_name.clone();
                    self.result = Some(
                        DownloadResult { threads_used: self.threads_used, save_path, file_name },
                    );
                    self.phase = DlPhase::Done;
                    DlAction::Stop
                },
                DlEvent::RenameFailed { message } => {
                    self.phase = DlPhase::Failed;
                    self.error = Some(WebError::Io(message));
                    DlAction::Stop
                },
                _ => self.reject_event(),
            },
            DlPhase::Done => self.reject_event(),
            DlPhase::Failed => self.reject_event(),
        }
    }

    /// Fail the operation on an event its phase cannot accept.
    fn reject_event(&mut self) -> (act: DlAction)
        ensures
            unexpected_event(*final(self), act),
            final(self).url == old(self).url,
            final(self).save_path == old(self).save_path,
            final(self).file_name == old(self).file_name,
            final(self).requested_threads == old(self).requested_threads,
            final(self).force_thread_count == old(self).force_thread_count,
            final(self).cpu_cap == old(self).cpu_cap,
    {
        let mut msg = String::new();
        msg.append("event does not fit the operation phase");
        self.phase = DlPhase::Failed;
        self.error = Some(WebError::InvalidInput(msg));
        self.result = None;
        DlAction::Stop
    }
}

/// A download operation fails only for the six stated reasons: a missing
/// length, a failed request, a filesystem error, an exhausted chunk, a
/// size mismatch, or an event its phase cannot accept.  In particular no
/// failure concerns the buffer pool: releasing a buffer into a full pool
/// discards it silently (`BufferPool::put` is total), no event carries a
/// pool condition, and a chunk's verdict is a function of the delivered
/// byte counts alone — so exceeding the pool's capacity during concurrent
/// releases can never fail a download.
pub proof fn lemma_failure_kinds(pre: DownloadOp, ev: DlEvent, post: DownloadOp, act: DlAction)
    requires
        step_post(pre, ev, post, act),
        post.phase is Failed,
    ensures
        post.error matches Some(e) && (e is MissingLength || e is RequestFailed || e is Io
            || e is ChunkFailed || e is ValidationFailed || e is InvalidInput),
{
}

/// A server that refuses byte ranges (or an empty transfer) is fetched in
/// one stream: when such an operation completes, it reports exactly one
/// worker, whatever thread count was requested.
pub proof fn lemma_single_stream_uses_one_thread(op: DownloadOp)
    requires
        op.wf(),
        op.phase is Done,
        op.caps matches Some(c) && single_stream_caps(c),
    ensures
        op.result matches Some(res) && res.threads_used == 1,
{
}

/// A range-capable server with data to split is fetched with exactly the
/// selected worker budget: the request clamped by the host parallelism and
/// the transfer size, unless the caller forced a count.
pub proof fn lemma_parallel_uses_selected_threads(op: DownloadOp)
    requires
        op.wf(),
        op.phase is Done,
        op.caps matches Some(c) && !single_stream_caps(c),
    ensures
        op.caps matches Some(c) && (op.result matches Some(res) && res.threads_used as int
            == select_threads_spec(
            op.requested_threads,
            c.total_size,
            op.force_thread_count,
            op.cpu_cap,
        )),
{
}


/// Begin a download operation with the host's own parallelism as the cap.
pub fn begin_download(
    url: String,
    save_path: String,
    file_name: String,
    requested_threads: usize,
    force_thread_count: bool,
) -> (r: (DownloadOp, DlAction))
    requires
        requested_threads >= 1,
    ensures
        r.0.wf(),
        r.0.phase is Probing,
        r.0.url == url,
        r.0.save_path == save_path,
        r.0.file_name == file_name,
        r.1 is Probe,
{
    let cpu_cap = crate::plan::available_parallelism();
    DownloadOp::start(url, save_path, file_name, requested_threads, force_thread_count, cpu_cap)
}

} // verus!
