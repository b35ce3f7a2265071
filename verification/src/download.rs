//! Downloading model weights, one decision at a time.
//!
//! [`Download`] says what is to be done next; the caller does it and hands
//! back what came of it. The weights are written next to their place in the
//! cache and renamed at the end, so an interrupted download never leaves a
//! truncated file that passes for a model.

use crate::cache::CachePath;
use crate::catalog::{ModelCatalog, ModelInfo};
use crate::error::FfiDemucsError;
use crate::fraction::Fraction;
use crate::model::FfiDemucsModel;
use vstd::prelude::*;

verus! {

/// How far a download has come.
#[derive(Debug, Clone, Copy, PartialEq, Eq, Structural)]
pub struct FfiDownloadProgress {
    pub downloaded_bytes: u64,
    /// From `Content-Length`, or the model's nominal size when the server
    /// does not send one.
    pub total_bytes: u64,
    pub fraction: Fraction,
}

/// Called from a background thread. Return `false` to cancel the download.
pub trait FfiDownloadListener: Send + Sync {
    fn on_progress(&self, progress: FfiDownloadProgress) -> bool;
}

/// `c` is one of the ten decimal digits.
pub open spec fn is_digit(c: char) -> bool {
    '0' <= c <= '9'
}

/// The number that a run of decimal digits stands for.
pub open spec fn decimal(digits: Seq<char>) -> nat
    decreases digits.len(),
{
    if digits.len() == 0 {
        0
    } else {
        decimal(digits.drop_last()) * 10 + (digits.last() as nat - '0' as nat) as nat
    }
}

/// `text` without the plus sign it may begin with.
pub open spec fn unsigned(text: Seq<char>) -> Seq<char> {
    if text.len() > 0 && text[0] == '+' {
        text.skip(1)
    } else {
        text
    }
}

/// The byte count that `text` states: decimal digits, with a plus sign in
/// front or not, for a number of at most 64 bits.
pub open spec fn stated_count(text: Seq<char>) -> Option<u64> {
    let digits = unsigned(text);
    if digits.len() > 0 && (forall|i: int| 0 <= i < digits.len() ==> is_digit(#[trigger] digits[i]))
        && decimal(digits) <= u64::MAX {
        Some(decimal(digits) as u64)
    } else {
        None
    }
}

/// The first digits of a number do not stand for more than all of them.
proof fn decimal_grows(digits: Seq<char>, n: int)
    requires
        0 <= n <= digits.len(),
    ensures
        decimal(digits.take(n)) <= decimal(digits),
    decreases digits.len(),
{
    if n < digits.len() {
        decimal_grows(digits.drop_last(), n);
        assert(digits.drop_last().take(n) =~= digits.take(n));
    } else {
        assert(digits.take(n) =~= digits);
    }
}

/// Reads a byte count.
pub fn parse_count(text: &str) -> (r: Option<u64>)
    ensures
        r == stated_count(text@),
{
    let length: usize = text.unicode_len();
    let start: usize = if length > 0 && text.get_char(0) == '+' {
        1
    } else {
        0
    };
    let ghost digits = unsigned(text@);
    assert(digits =~= text@.skip(start as int));
    if start == length {
        return None;
    }
    let mut count: u64 = 0;
    assert(digits.take(0) =~= Seq::empty());
    for i in start..length
        invariant
            length == text@.len(),
            start <= length,
            digits == unsigned(text@),
            digits == text@.skip(start as int),
            digits.len() == length - start,
            digits.len() > 0,
            forall|j: int| 0 <= j < i - start ==> is_digit(#[trigger] digits[j]),
            count == decimal(digits.take(i - start)),
    {
        let c: char = text.get_char(i);
        let ghost k = i - start;
        assert(c == digits[k]);
        if c < '0' || c > '9' {
            return None;
        }
        let digit: u64 = (c as u32 - '0' as u32) as u64;
        assert(digits.take(k + 1).drop_last() =~= digits.take(k));
        assert(decimal(digits.take(k + 1)) == count * 10 + digit);
        if count > (u64::MAX - digit) / 10 {
            proof {
                decimal_grows(digits, k + 1);
            }
            return None;
        }
        count = count * 10 + digit;
    }
    assert(digits.take(digits.len() as int) =~= digits);
    Some(count)
}

/// What a download does next.
#[derive(Debug)]
pub enum DownloadState {
    /// Look whether the weights are there already.
    CheckTarget,
    /// Create the cache directory.
    CreateDir,
    /// Ask the server for the weights.
    Connect,
    /// Create the partial file.
    CreatePartial,
    /// Receive some bytes.
    Read,
    /// Append the `count` bytes just received to the partial file.
    Write { count: usize },
    /// Tell the listener.
    Report,
    /// Flush the partial file to disk.
    Sync,
    /// Rename the partial file to its target.
    Rename,
    /// Remove the partial file, whether or not that succeeds; then the
    /// download ends with `error`.
    RemovePartial { error: FfiDemucsError },
    /// Nothing: the download is over.
    Done { result: Result<(), FfiDemucsError> },
}

/// What came of what a download had to do.
#[derive(Debug)]
pub enum DownloadEvent {
    /// Whether the file looked for is there.
    Found { exists: bool },
    /// The server answered, with this `Content-Length` if it sent one.
    Connected { content_length: Option<String> },
    /// So many bytes came; none means that there are no more.
    Received { count: usize },
    /// The listener answered.
    Replied { proceed: bool },
    /// It worked.
    Succeeded,
    /// It did not.
    Failed { reason: String },
}

/// A download of one weights file into the cache.
#[derive(Debug)]
pub struct Download {
    /// The cache directory.
    pub dir: CachePath,
    /// The name of the weights file in it.
    pub target: String,
    /// The name of the file in it that the weights are first written to.
    pub partial: String,
    pub downloaded_bytes: u64,
    pub total_bytes: u64,
    pub state: DownloadState,
}

/// `n`, but at least one.
pub open spec fn at_least_one(n: u64) -> u64 {
    if n == 0 {
        1
    } else {
        n
    }
}

impl Download {
    /// The download is of the weights of `info` into the cache directory
    /// `dir`, and nothing has been done yet. Until the server states a size
    /// the model's nominal one is expected.
    pub open spec fn starts(self, info: ModelInfo, dir: CachePath) -> bool {
        &&& self.dir == dir
        &&& self.target@ == info.filename@
        &&& self.partial@ == info.filename@ + ".part"@
        &&& self.downloaded_bytes == 0
        &&& self.total_bytes == info.size_mb * 1_000_000
        &&& self.state == DownloadState::CheckTarget
    }

    /// Starts a download of the weights of `info` into the cache directory
    /// `dir`.
    pub fn new(info: &ModelInfo, dir: CachePath) -> (r: Download)
        ensures
            r.starts(*info, dir),
    {
        Download {
            dir,
            target: info.filename.clone(),
            partial: info.filename.clone().concat(".part"),
            downloaded_bytes: 0,
            total_bytes: info.size_mb as u64 * 1_000_000,
            state: DownloadState::CheckTarget,
        }
    }

    /// The byte count still has room for what `event` adds to it.
    pub open spec fn has_room_for(self, event: DownloadEvent) -> bool {
        (self.state, event) matches (DownloadState::Write { count }, DownloadEvent::Succeeded)
            ==> self.downloaded_bytes + count <= u64::MAX
    }

    /// The size of the weights where the server states `content_length`.
    pub open spec fn expected_bytes(self, content_length: Option<String>) -> u64 {
        match content_length {
            Some(text) => match stated_count(text@) {
                Some(count) => count,
                None => self.total_bytes,
            },
            None => self.total_bytes,
        }
    }

    /// The download once `event` has come of what it had to do. An event
    /// that does not answer what it had to do leaves it as it is.
    pub open spec fn after(self, event: DownloadEvent) -> Download {
        let (state, downloaded_bytes, total_bytes) = match (self.state, event) {
            (DownloadState::CheckTarget, DownloadEvent::Found { exists }) => (
                if exists {
                    DownloadState::Done { result: Ok(()) }
                } else {
                    DownloadState::CreateDir
                },
                self.downloaded_bytes,
                self.total_bytes,
            ),
            (DownloadState::CreateDir, DownloadEvent::Succeeded) => (
                DownloadState::Connect,
                self.downloaded_bytes,
                self.total_bytes,
            ),
            (DownloadState::CreateDir, DownloadEvent::Failed { reason }) => (
                DownloadState::Done { result: Err(FfiDemucsError::Io { reason }) },
                self.downloaded_bytes,
                self.total_bytes,
            ),
            (DownloadState::Connect, DownloadEvent::Connected { content_length }) => (
                DownloadState::CreatePartial,
                self.downloaded_bytes,
                self.expected_bytes(content_length),
            ),
            (DownloadState::Connect, DownloadEvent::Failed { reason }) => (
                DownloadState::Done { result: Err(FfiDemucsError::Download { reason }) },
                self.downloaded_bytes,
                self.total_bytes,
            ),
            (DownloadState::CreatePartial, DownloadEvent::Succeeded) => (
                DownloadState::Read,
                self.downloaded_bytes,
                self.total_bytes,
            ),
            (DownloadState::Read, DownloadEvent::Received { count }) => (
                if count == 0 {
                    DownloadState::Sync
                } else {
                    DownloadState::Write { count }
                },
                self.downloaded_bytes,
                self.total_bytes,
            ),
            (DownloadState::Write { count }, DownloadEvent::Succeeded) => (
                DownloadState::Report,
                (self.downloaded_bytes + count) as u64,
                self.total_bytes,
            ),
            (DownloadState::Report, DownloadEvent::Replied { proceed }) => (
                if proceed {
                    DownloadState::Read
                } else {
                    DownloadState::RemovePartial { error: FfiDemucsError::Cancelled }
                },
                self.downloaded_bytes,
                self.total_bytes,
            ),
            (DownloadState::Sync, DownloadEvent::Succeeded) => (
                DownloadState::Rename,
                self.downloaded_bytes,
                self.total_bytes,
            ),
            (DownloadState::Rename, DownloadEvent::Succeeded) => (
                DownloadState::Done { result: Ok(()) },
                self.downloaded_bytes,
                self.total_bytes,
            ),
            (
                DownloadState::CreatePartial
                | DownloadState::Read
                | DownloadState::Write { .. }
                | DownloadState::Sync
                | DownloadState::Rename,
                DownloadEvent::Failed { reason },
            ) => (
                DownloadState::RemovePartial { error: FfiDemucsError::Io { reason } },
                self.downloaded_bytes,
                self.total_bytes,
            ),
            (
                DownloadState::RemovePartial { error },
                DownloadEvent::Succeeded | DownloadEvent::Failed { .. },
            ) => (
                DownloadState::Done { result: Err(error) },
                self.downloaded_bytes,
                self.total_bytes,
            ),
            (state, _) => (state, self.downloaded_bytes, self.total_bytes),
        };
        Download { state, downloaded_bytes, total_bytes, ..self }
    }

    /// Takes note of what came of what the download had to do.
    pub fn step(self, event: DownloadEvent) -> (r: Download)
        requires
            self.has_room_for(event),
        ensures
            r == self.after(event),
    {
        let Download { dir, target, partial, downloaded_bytes, total_bytes, state } = self;
        let mut downloaded: u64 = downloaded_bytes;
        let mut total: u64 = total_bytes;
        let next = match (state, event) {
            (DownloadState::CheckTarget, DownloadEvent::Found { exists }) => if exists {
                DownloadState::Done { result: Ok(()) }
            } else {
                DownloadState::CreateDir
            },
            (DownloadState::CreateDir, DownloadEvent::Succeeded) => DownloadState::Connect,
            (DownloadState::CreateDir, DownloadEvent::Failed { reason }) => DownloadState::Done {
                result: Err(FfiDemucsError::Io { reason }),
            },
            (DownloadState::Connect, DownloadEvent::Connected { content_length }) => {
                if let Some(text) = content_length {
                    if let Some(count) = parse_count(text.as_str()) {
                        total = count;
                    }
                }
                DownloadState::CreatePartial
            },
            (DownloadState::Connect, DownloadEvent::Failed { reason }) => DownloadState::Done {
                result: Err(FfiDemucsError::Download { reason }),
            },
            (DownloadState::CreatePartial, DownloadEvent::Succeeded) => DownloadState::Read,
            (DownloadState::Read, DownloadEvent::Received { count }) => if count == 0 {
                DownloadState::Sync
            } else {
                DownloadState::Write { count }
            },
            (DownloadState::Write { count }, DownloadEvent::Succeeded) => {
                downloaded = downloaded + count as u64;
                DownloadState::Report
            },
            (DownloadState::Report, DownloadEvent::Replied { proceed }) => if proceed {
                DownloadState::Read
            } else {
                DownloadState::RemovePartial { error: FfiDemucsError::Cancelled }
            },
            (DownloadState::Sync, DownloadEvent::Succeeded) => DownloadState::Rename,
            (DownloadState::Rename, DownloadEvent::Succeeded) => DownloadState::Done {
                result: Ok(()),
            },
            (
                DownloadState::CreatePartial
                | DownloadState::Read
                | DownloadState::Write { .. }
                | DownloadState::Sync
                | DownloadState::Rename,
                DownloadEvent::Failed { reason },
            ) => DownloadState::RemovePartial { error: FfiDemucsError::Io { reason } },
            (
                DownloadState::RemovePartial { error },
                DownloadEvent::Succeeded | DownloadEvent::Failed { .. },
            ) => DownloadState::Done { result: Err(error) },
            (state, _) => state,
        };
        Download {
            dir,
            target,
            partial,
            downloaded_bytes: downloaded,
            total_bytes: total,
            state: next,
        }
    }

    /// What the listener is told.
    pub open spec fn to_report(self) -> FfiDownloadProgress {
        FfiDownloadProgress {
            downloaded_bytes: self.downloaded_bytes,
            total_bytes: self.total_bytes,
            fraction: Fraction {
                whole: self.downloaded_bytes,
                part: 0,
                parts: 1,
                of: at_least_one(self.total_bytes),
            },
        }
    }

    /// How far the download has come.
    pub fn progress(&self) -> (r: FfiDownloadProgress)
        ensures
            r == self.to_report(),
    {
        let of: u64 = if self.total_bytes == 0 {
            1
        } else {
            self.total_bytes
        };
        FfiDownloadProgress {
            downloaded_bytes: self.downloaded_bytes,
            total_bytes: self.total_bytes,
            fraction: Fraction { whole: self.downloaded_bytes, part: 0, parts: 1, of },
        }
    }

    /// Tells the listener how far the download has come and takes note of its
    /// reply, where that is what the download has to do.
    pub fn report<L: FfiDownloadListener>(self, listener: &L) -> (r: Download)
        ensures
            match self.state {
                DownloadState::Report => exists|proceed: bool| #[trigger]
                    call_ensures(L::on_progress, (listener, self.to_report()), proceed) && r
                        == self.after(DownloadEvent::Replied { proceed }),
                _ => r == self,
            },
    {
        match self.state {
            DownloadState::Report => {
                let proceed = listener.on_progress(self.progress());
                assert(call_ensures(L::on_progress, (listener, self.to_report()), proceed));
                self.step(DownloadEvent::Replied { proceed })
            },
            _ => self,
        }
    }
}

/// Starts a download of the weights of `model` into the cache directory,
/// unless there is none.
pub fn download_model(
    model: &FfiDemucsModel,
    catalog: &ModelCatalog,
    configured: Option<String>,
) -> (r: Result<Download, FfiDemucsError>)
    ensures
        exists|dir: Result<CachePath, FfiDemucsError>| #[trigger]
            crate::cache::is_cache_dir(configured, dir) && match dir {
                Ok(dir) => r matches Ok(download) && download.starts(model@.info(*catalog), dir),
                Err(error) => r == Err::<Download, FfiDemucsError>(error),
            },
{
    let dir = crate::cache::cache_dir(configured);
    assert(crate::cache::is_cache_dir(configured, dir));
    match dir {
        Ok(dir) => Ok(Download::new(model.info(catalog), dir)),
        Err(error) => Err(error),
    }
}

/// The download after all of `events`.
pub open spec fn run(start: Download, events: Seq<DownloadEvent>) -> Download
    decreases events.len(),
{
    if events.len() == 0 {
        start
    } else {
        run(start, events.drop_last()).after(events.last())
    }
}

/// How many bytes have been received over `events`.
pub open spec fn received(start: Download, events: Seq<DownloadEvent>) -> nat
    decreases events.len(),
{
    if events.len() == 0 {
        0
    } else {
        let before = received(start, events.drop_last());
        match (run(start, events.drop_last()).state, events.last()) {
            (DownloadState::Read, DownloadEvent::Received { count }) => before + count as nat,
            _ => before,
        }
    }
}

/// The state is one in which there may be a partial file.
pub open spec fn may_have_partial(state: DownloadState) -> bool {
    match state {
        DownloadState::CreatePartial
        | DownloadState::Read
        | DownloadState::Write { .. }
        | DownloadState::Report
        | DownloadState::Sync
        | DownloadState::Rename
        | DownloadState::RemovePartial { .. } => true,
        _ => false,
    }
}

/// Going on from where the first `n` events lead is one more step.
proof fn run_goes_on(start: Download, events: Seq<DownloadEvent>, n: int)
    requires
        0 <= n < events.len(),
    ensures
        run(start, events.take(n + 1)) == run(start, events.take(n)).after(events[n]),
{
    assert(events.take(n + 1).drop_last() =~= events.take(n));
}

/// A download that is over stays as it is.
pub proof fn done_is_final(start: Download, events: Seq<DownloadEvent>)
    requires
        start.state is Done,
    ensures
        run(start, events) == start,
    decreases events.len(),
{
    if events.len() > 0 {
        done_is_final(start, events.drop_last());
    }
}

/// A download stays with the files it started with.
pub proof fn files_stay(start: Download, events: Seq<DownloadEvent>)
    ensures
        run(start, events).dir == start.dir,
        run(start, events).target == start.target,
        run(start, events).partial == start.partial,
    decreases events.len(),
{
    if events.len() > 0 {
        files_stay(start, events.drop_last());
    }
}

/// The first error is the one a download ends with, whatever happens while
/// its partial file is removed.
pub proof fn first_error_is_the_result(
    start: Download,
    error: FfiDemucsError,
    events: Seq<DownloadEvent>,
)
    requires
        start.state == (DownloadState::RemovePartial { error }),
    ensures
        ({
            let state = run(start, events).state;
            ||| state == (DownloadState::RemovePartial { error })
            ||| state == (DownloadState::Done { result: Err(error) })
        }),
    decreases events.len(),
{
    if events.len() > 0 {
        first_error_is_the_result(start, error, events.drop_last());
    }
}

/// A listener that refuses to go on cancels the download: it can only end as
/// cancelled, and not before its partial file was to be removed.
pub proof fn refusal_cancels(
    start: Download,
    refusal: DownloadEvent,
    events: Seq<DownloadEvent>,
)
    requires
        start.state is Report,
        refusal == (DownloadEvent::Replied { proceed: false }),
    ensures
        start.after(refusal).state == (DownloadState::RemovePartial {
            error: FfiDemucsError::Cancelled,
        }),
        run(start.after(refusal), events).state matches DownloadState::Done { result } ==> result
            == Err::<(), FfiDemucsError>(FfiDemucsError::Cancelled),
{
    first_error_is_the_result(start.after(refusal), FfiDemucsError::Cancelled, events);
}

/// Weights that are there already are not downloaded again.
pub proof fn cached_weights_are_kept(start: Download, events: Seq<DownloadEvent>)
    requires
        start.state is CheckTarget,
        events.len() > 0,
        events[0] == (DownloadEvent::Found { exists: true }),
    ensures
        run(start, events).state == (DownloadState::Done { result: Ok(()) }),
    decreases events.len(),
{
    if events.len() > 1 {
        cached_weights_are_kept(start, events.drop_last());
    } else {
        assert(run(start, events.drop_last()) == start);
    }
}

/// A download succeeds only by finding the weights in place or by renaming
/// the partial file to its target.
pub proof fn success_means_weights_in_place(start: Download, events: Seq<DownloadEvent>)
    requires
        start.state is CheckTarget,
        run(start, events).state == (DownloadState::Done { result: Ok(()) }),
    ensures
        exists|n: int|
            0 <= n < events.len() && match (#[trigger] run(start, events.take(n))).state {
                DownloadState::CheckTarget => events[n] == (DownloadEvent::Found { exists: true }),
                DownloadState::Rename => events[n] == DownloadEvent::Succeeded,
                _ => false,
            },
    decreases events.len(),
{
    let init = events.drop_last();
    let last = events.len() - 1;
    assert(events.take(last) =~= init);
    if run(start, init).state == (DownloadState::Done { result: Ok(()) }) {
        success_means_weights_in_place(start, init);
        let n = choose|n: int|
            0 <= n < init.len() && match (#[trigger] run(start, init.take(n))).state {
                DownloadState::CheckTarget => init[n] == (DownloadEvent::Found { exists: true }),
                DownloadState::Rename => init[n] == DownloadEvent::Succeeded,
                _ => false,
            };
        assert(init.take(n) =~= events.take(n));
        assert(run(start, events.take(n)) == run(start, init.take(n)));
    } else {
        assert(run(start, events.take(last)) == run(start, init));
    }
}

/// Every byte counted as downloaded was received, and outside of a write and
/// of a failure every byte received is counted.
pub proof fn every_byte_is_counted(start: Download, events: Seq<DownloadEvent>)
    requires
        start.state is CheckTarget,
        start.downloaded_bytes == 0,
        received(start, events) <= u64::MAX,
    ensures
        ({
            let now = run(start, events);
            let bytes = received(start, events);
            &&& now.downloaded_bytes <= bytes
            &&& match now.state {
                DownloadState::Write { count } => now.downloaded_bytes + count == bytes,
                DownloadState::RemovePartial { .. } => true,
                DownloadState::Done { result: Err(_) } => true,
                _ => now.downloaded_bytes == bytes,
            }
        }),
    decreases events.len(),
{
    if events.len() > 0 {
        every_byte_is_counted(start, events.drop_last());
    }
}

/// The partial file is renamed only once the server has no more bytes and
/// every byte received has been written.
pub proof fn rename_comes_after_the_whole_file(start: Download, events: Seq<DownloadEvent>)
    requires
        start.state is CheckTarget,
        start.downloaded_bytes == 0,
        received(start, events) <= u64::MAX,
        run(start, events).state is Sync || run(start, events).state is Rename,
    ensures
        run(start, events).downloaded_bytes == received(start, events),
        exists|n: int|
            0 <= n < events.len() && (#[trigger] run(start, events.take(n))).state is Read
                && events[n] == (DownloadEvent::Received { count: 0 }),
    decreases events.len(),
{
    every_byte_is_counted(start, events);
    let init = events.drop_last();
    let last = events.len() - 1;
    assert(events.take(last) =~= init);
    if run(start, init).state is Sync || run(start, init).state is Rename {
        rename_comes_after_the_whole_file(start, init);
        let n = choose|n: int|
            0 <= n < init.len() && (#[trigger] run(start, init.take(n))).state is Read && init[n]
                == (DownloadEvent::Received { count: 0 });
        assert(init.take(n) =~= events.take(n));
        assert(run(start, events.take(n)) == run(start, init.take(n)));
    } else {
        assert(run(start, events.take(last)) == run(start, init));
    }
}

/// A download that fails once it has set out to create its partial file has
/// set out to remove that file since.
pub proof fn failure_removes_the_partial_file(start: Download, events: Seq<DownloadEvent>, n: int)
    requires
        0 <= n <= events.len(),
        run(start, events.take(n)).state is CreatePartial,
        run(start, events).state matches DownloadState::Done { result } && result is Err,
    ensures
        exists|m: int|
            n <= m <= events.len() && (#[trigger] run(start, events.take(m))).state is RemovePartial,
{
    assert(events.take(events.len() as int) =~= events);
    partial_file_is_looked_after(start, events, n, events.len() as int);
}

/// From the creation of the partial file on, a download may have one until it
/// has been renamed or was to be removed.
proof fn partial_file_is_looked_after(
    start: Download,
    events: Seq<DownloadEvent>,
    n: int,
    upto: int,
)
    requires
        0 <= n <= upto <= events.len(),
        run(start, events.take(n)).state is CreatePartial,
    ensures
        ({
            let state = run(start, events.take(upto)).state;
            ||| may_have_partial(state)
            ||| state == (DownloadState::Done { result: Ok(()) })
            ||| exists|m: int|
                n <= m <= upto && (#[trigger] run(start, events.take(m))).state is RemovePartial
        }),
    decreases upto,
{
    if n < upto {
        partial_file_is_looked_after(start, events, n, upto - 1);
        run_goes_on(start, events, upto - 1);
        let before = run(start, events.take(upto - 1));
        if before.state is RemovePartial {
            assert(run(start, events.take(upto - 1)).state is RemovePartial);
        }
    }
}

/// Once the server has answered, the expected size stays and the downloaded
/// size does not shrink.
proof fn counts_only_grow(start: Download, events: Seq<DownloadEvent>, n: int, m: int)
    requires
        start.state is CheckTarget,
        start.downloaded_bytes == 0,
        received(start, events) <= u64::MAX,
        0 <= n <= m <= events.len(),
        may_have_partial(run(start, events.take(n)).state),
    ensures
        run(start, events.take(m)).total_bytes == run(start, events.take(n)).total_bytes,
        run(start, events.take(m)).downloaded_bytes >= run(
            start,
            events.take(n),
        ).downloaded_bytes,
        may_have_partial(run(start, events.take(m)).state) || run(start, events.take(m)).state is Done,
    decreases m,
{
    if n < m {
        counts_only_grow(start, events, n, m - 1);
        run_goes_on(start, events, m - 1);
        received_only_grows(start, events, m - 1);
        every_byte_is_counted(start, events.take(m - 1));
        received_only_grows(start, events, m);
    }
}

/// The first events have not received more than all of them.
proof fn received_only_grows(start: Download, events: Seq<DownloadEvent>, n: int)
    requires
        0 <= n <= events.len(),
    ensures
        received(start, events.take(n)) <= received(start, events),
    decreases events.len(),
{
    if n < events.len() {
        received_only_grows(start, events.drop_last(), n);
        assert(events.drop_last().take(n) =~= events.take(n));
    } else {
        assert(events.take(n) =~= events);
    }
}

/// Over a download the reported fractions never go down, and each of them
/// lies between zero and one.
pub proof fn reported_fractions_grow(start: Download, events: Seq<DownloadEvent>, n: int, m: int)
    requires
        start.state is CheckTarget,
        start.downloaded_bytes == 0,
        received(start, events) <= u64::MAX,
        0 <= n <= m <= events.len(),
        run(start, events.take(n)).state is Report,
        run(start, events.take(m)).state is Report,
    ensures
        ({
            let earlier = run(start, events.take(n)).to_report();
            let later = run(start, events.take(m)).to_report();
            &&& earlier.fraction.valid()
            &&& later.fraction.valid()
            &&& 0 <= later.fraction.numer() <= later.fraction.denom()
            &&& earlier.fraction.at_most(later.fraction)
            &&& earlier.downloaded_bytes <= later.downloaded_bytes
            &&& earlier.total_bytes == later.total_bytes
        }),
{
    counts_only_grow(start, events, n, m);
    let f = run(start, events.take(n)).to_report().fraction;
    let g = run(start, events.take(m)).to_report().fraction;
    crate::fraction::fraction_is_between_zero_and_one(f);
    crate::fraction::fraction_is_between_zero_and_one(g);
    let (a, b, d) = (f.numer(), g.numer(), f.denom());
    assert(a * d <= b * d) by (nonlinear_arith)
        requires
            a <= b,
            d > 0,
    ;
}

/// A download begins with the model's own file in the directory it is given,
/// writes next to it, and expects the nominal size in megabytes.
pub proof fn downloads_start_from_the_catalog(
    info: &ModelInfo,
    dir: CachePath,
    download: Download,
)
    requires
        download.starts(*info, dir) || call_ensures(Download::new, (info, dir), download),
    ensures
        download.dir == dir,
        download.target@ == info.filename@,
        download.partial@.len() == info.filename@.len() + ".part"@.len(),
        download.partial@.take(info.filename@.len() as int) == info.filename@,
        download.partial@.skip(info.filename@.len() as int) == ".part"@,
        download.downloaded_bytes == 0,
        download.total_bytes == info.size_mb * 1_000_000,
        download.state is CheckTarget,
{
    assert(download.partial@.take(info.filename@.len() as int) =~= info.filename@);
    assert(download.partial@.skip(info.filename@.len() as int) =~= ".part"@);
}

/// What is looked up for a model is where its download puts the weights: the
/// download's target in the download's directory, wherever the platform's
/// directory stays the same between the two.
pub proof fn weights_are_looked_up_where_they_are_put(
    model: FfiDemucsModel,
    catalog: &ModelCatalog,
    configured: Option<String>,
    path: CachePath,
    download: Download,
)
    requires
        crate::cache::is_model_path(model@, *catalog, configured, Some(path)),
        call_ensures(
            download_model,
            (&model, catalog, configured),
            Ok::<Download, FfiDemucsError>(download),
        ),
        configured is None ==> path.root == download.dir.root,
    ensures
        path.root == download.dir.root,
        path.components() == download.dir.components().push(download.target@),
{
    let dir = choose|dir: Result<CachePath, FfiDemucsError>| #[trigger]
        crate::cache::is_cache_dir(configured, dir) && match dir {
            Ok(dir) => download.starts(model@.info(*catalog), dir),
            Err(error) => false,
        };
    crate::cache::model_path_is_in_the_cache_directory(
        model@,
        *catalog,
        configured,
        path,
        dir->Ok_0,
    );
}

/// What a download reports is the bytes downloaded, the bytes expected, and
/// the one over the other, held to one. Expecting none counts as expecting
/// one. So the fraction is one exactly where as much is downloaded as
/// expected.
pub proof fn reported_fraction_is_downloaded_over_total(
    download: &Download,
    told: FfiDownloadProgress,
)
    requires
        told == download.to_report() || call_ensures(Download::progress, (download,), told),
    ensures
        ({
            let n = if download.total_bytes == 0 { 1int } else { download.total_bytes as int };
            let d = download.downloaded_bytes as int;
            let f = told.fraction;
            &&& told.downloaded_bytes == d
            &&& told.total_bytes == download.total_bytes
            &&& f.parts > 0 && f.of > 0
            &&& (f.whole * f.parts + f.part) * n == d * (f.parts * f.of)
            &&& f.numer() * n == (if d <= n { d } else { n }) * f.denom()
            &&& f.complete() <==> d >= n
        }),
{
    let n = if download.total_bytes == 0 { 1int } else { download.total_bytes as int };
    let d = download.downloaded_bytes as int;
    let f = told.fraction;
    let (w, p, o) = (f.whole as int, f.parts as int, f.of as int);
    assert(w * p == w && p * o == o) by (nonlinear_arith)
        requires
            p == 1,
    ;
    assert(f.unclamped() == d && f.denom() == n);
}

/// The bytes expected are what the server states, where it states a count,
/// and what was expected before otherwise.
pub proof fn stated_size_is_expected(download: Download, content_length: Option<String>)
    ensures
        content_length is None ==> download.expected_bytes(content_length)
            == download.total_bytes,
        content_length matches Some(text) ==> {
            &&& stated_count(text@) is None ==> download.expected_bytes(content_length)
                == download.total_bytes
            &&& stated_count(text@) matches Some(count) ==> download.expected_bytes(content_length)
                == count
        },
{
}

/// Work that succeeds goes on, whatever the amounts: the directory, the
/// server, the partial file, then bytes received, written and reported in
/// turn until there are no more, and at last the file is flushed and renamed.
pub proof fn success_leads_on(download: Download, event: DownloadEvent, now: Download)
    requires
        download.has_room_for(event),
        now == download.after(event) || call_ensures(Download::step, (download, event), now),
    ensures
        match (download.state, event) {
            (DownloadState::CheckTarget, DownloadEvent::Found { exists }) => if exists {
                now.state == (DownloadState::Done { result: Ok(()) })
            } else {
                now.state is CreateDir
            },
            (DownloadState::CreateDir, DownloadEvent::Succeeded) => now.state is Connect,
            (DownloadState::Connect, DownloadEvent::Connected { content_length }) => {
                &&& now.state is CreatePartial
                &&& now.total_bytes == download.expected_bytes(content_length)
            },
            (DownloadState::CreatePartial, DownloadEvent::Succeeded) => now.state is Read,
            (DownloadState::Read, DownloadEvent::Received { count }) => if count > 0 {
                now.state == (DownloadState::Write { count })
            } else {
                now.state is Sync
            },
            (DownloadState::Write { count }, DownloadEvent::Succeeded) => {
                &&& now.state is Report
                &&& now.downloaded_bytes == download.downloaded_bytes + count
            },
            (DownloadState::Report, DownloadEvent::Replied { proceed }) => if proceed {
                now.state is Read
            } else {
                now.state == (DownloadState::RemovePartial { error: FfiDemucsError::Cancelled })
            },
            (DownloadState::Sync, DownloadEvent::Succeeded) => now.state is Rename,
            (DownloadState::Rename, DownloadEvent::Succeeded) => now.state == (
            DownloadState::Done { result: Ok(()) }),
            _ => true,
        },
        now.dir == download.dir,
        now.target == download.target,
        now.partial == download.partial,
{
}

/// Work that fails ends the download with its own reason: as a failed
/// download where the server was asked, as an i/o error elsewhere, and by way
/// of removing the partial file once that was to be created. Removing it ends
/// the download whether it works or not.
pub proof fn failure_ends_the_download(
    download: Download,
    event: DownloadEvent,
    reason: String,
    now: Download,
)
    requires
        event == (DownloadEvent::Failed { reason }) || event is Succeeded
            && download.state is RemovePartial,
        now == download.after(event) || call_ensures(Download::step, (download, event), now),
    ensures
        match download.state {
            DownloadState::CreateDir => now.state == (DownloadState::Done {
                result: Err(FfiDemucsError::Io { reason }),
            }),
            DownloadState::Connect => now.state == (DownloadState::Done {
                result: Err(FfiDemucsError::Download { reason }),
            }),
            DownloadState::CreatePartial
            | DownloadState::Read
            | DownloadState::Write { .. }
            | DownloadState::Sync
            | DownloadState::Rename => now.state == (DownloadState::RemovePartial {
                error: FfiDemucsError::Io { reason },
            }),
            DownloadState::RemovePartial { error } => now.state == (DownloadState::Done {
                result: Err(error),
            }),
            _ => now == download,
        },
{
}

/// A download stays as it is unless the event answers what it had to do, and
/// an answer changes no count but the one it is about.
pub proof fn only_answers_change_a_download(
    download: Download,
    event: DownloadEvent,
    now: Download,
)
    requires
        now == download.after(event) || call_ensures(Download::step, (download, event), now),
    ensures
        ({
            let answered = match download.state {
                DownloadState::CheckTarget => event is Found,
                DownloadState::Connect => event is Connected || event is Failed,
                DownloadState::Read => event is Received || event is Failed,
                DownloadState::Report => event is Replied,
                DownloadState::Done { .. } => false,
                _ => event is Succeeded || event is Failed,
            };
            &&& !answered ==> now == download
            &&& answered ==> now.state != download.state
            &&& now.total_bytes != download.total_bytes ==> download.state is Connect
                && event is Connected
            &&& now.downloaded_bytes != download.downloaded_bytes ==> download.state is Write
                && event is Succeeded
        }),
{
}

/// A download fails only because something it did failed, and then for that
/// reason, or because the listener refused to go on when told, and then as
/// cancelled.
pub proof fn failures_have_a_cause(
    start: Download,
    events: Seq<DownloadEvent>,
    error: FfiDemucsError,
)
    requires
        start.state is CheckTarget,
        ({
            let state = run(start, events).state;
            ||| state == (DownloadState::RemovePartial { error })
            ||| state == (DownloadState::Done { result: Err(error) })
        }),
    ensures
        exists|n: int|
            0 <= n < events.len() && match (#[trigger] run(start, events.take(n))).state {
                DownloadState::Report => events[n] == (DownloadEvent::Replied { proceed: false })
                    && error is Cancelled,
                DownloadState::Connect => events[n] matches DownloadEvent::Failed { reason }
                    && error == (FfiDemucsError::Download { reason }),
                DownloadState::CreateDir
                | DownloadState::CreatePartial
                | DownloadState::Read
                | DownloadState::Write { .. }
                | DownloadState::Sync
                | DownloadState::Rename => events[n] matches DownloadEvent::Failed { reason }
                    && error == (FfiDemucsError::Io { reason }),
                _ => false,
            },
    decreases events.len(),
{
    let init = events.drop_last();
    let last = events.len() - 1;
    assert(events.take(last) =~= init);
    let before = run(start, init).state;
    if before == (DownloadState::RemovePartial { error }) || before == (DownloadState::Done {
        result: Err(error),
    }) {
        failures_have_a_cause(start, init, error);
        let n = choose|n: int|
            0 <= n < init.len() && match (#[trigger] run(start, init.take(n))).state {
                DownloadState::Report => init[n] == (DownloadEvent::Replied { proceed: false })
                    && error is Cancelled,
                DownloadState::Connect => init[n] matches DownloadEvent::Failed { reason }
                    && error == (FfiDemucsError::Download { reason }),
                DownloadState::CreateDir
                | DownloadState::CreatePartial
                | DownloadState::Read
                | DownloadState::Write { .. }
                | DownloadState::Sync
                | DownloadState::Rename => init[n] matches DownloadEvent::Failed { reason }
                    && error == (FfiDemucsError::Io { reason }),
                _ => false,
            };
        assert(init.take(n) =~= events.take(n));
        assert(run(start, events.take(n)) == run(start, init.take(n)));
    } else {
        assert(events[last] == events.last());
        assert(run(start, events.take(last)) == run(start, init));
    }
}

/// While nothing fails and the listener agrees, a download does not fail.
pub proof fn downloads_that_go_well_do_not_fail(start: Download, events: Seq<DownloadEvent>)
    requires
        start.state is CheckTarget,
        forall|n: int|
            0 <= n < events.len() ==> !((#[trigger] events[n]) is Failed) && events[n] != (
            DownloadEvent::Replied { proceed: false }),
    ensures
        !(run(start, events).state is RemovePartial),
        run(start, events).state matches DownloadState::Done { result } ==> result is Ok,
{
    if let DownloadState::RemovePartial { error } = run(start, events).state {
        failures_have_a_cause(start, events, error);
    }
    if let DownloadState::Done { result } = run(start, events).state {
        if let Err(error) = result {
            failures_have_a_cause(start, events, error);
        }
    }
}

/// The answers to a server that sends `counts` bytes piece by piece, from the
/// first piece to the last, where each is written and agreed to.
pub open spec fn pieces(counts: Seq<usize>) -> Seq<DownloadEvent>
    decreases counts.len(),
{
    if counts.len() == 0 {
        Seq::empty()
    } else {
        pieces(counts.drop_last()) + seq![
            DownloadEvent::Received { count: counts.last() },
            DownloadEvent::Succeeded,
            DownloadEvent::Replied { proceed: true },
        ]
    }
}

/// The sum of `counts`.
pub open spec fn sum(counts: Seq<usize>) -> nat
    decreases counts.len(),
{
    if counts.len() == 0 {
        0
    } else {
        sum(counts.drop_last()) + counts.last() as nat
    }
}

/// Running on from where some events lead.
proof fn run_splits(start: Download, first: Seq<DownloadEvent>, then: Seq<DownloadEvent>)
    ensures
        run(start, first + then) == run(run(start, first), then),
    decreases then.len(),
{
    if then.len() == 0 {
        assert(first + then =~= first);
    } else {
        assert((first + then).drop_last() =~= first + then.drop_last());
        run_splits(start, first, then.drop_last());
    }
}

/// Pieces of any size are taken one after the other, and all are counted.
pub proof fn pieces_of_any_size_are_taken(start: Download, counts: Seq<usize>)
    requires
        start.state is Read,
        start.downloaded_bytes + sum(counts) <= u64::MAX,
        forall|i: int| 0 <= i < counts.len() ==> #[trigger] counts[i] > 0,
    ensures
        run(start, pieces(counts)).state is Read,
        run(start, pieces(counts)).downloaded_bytes == start.downloaded_bytes + sum(counts),
        run(start, pieces(counts)).total_bytes == start.total_bytes,
    decreases counts.len(),
{
    if counts.len() > 0 {
        let init = counts.drop_last();
        assert forall|i: int| 0 <= i < init.len() implies #[trigger] init[i] > 0 by {
            assert(init[i] == counts[i]);
        }
        pieces_of_any_size_are_taken(start, init);
        assert(counts[counts.len() - 1] > 0);
        let step = seq![
            DownloadEvent::Received { count: counts.last() },
            DownloadEvent::Succeeded,
            DownloadEvent::Replied { proceed: true },
        ];
        run_splits(start, pieces(init), step);
        let d = run(start, pieces(init));
        run_three(d, step);
    }
}

/// Three events are three steps.
proof fn run_three(d: Download, events: Seq<DownloadEvent>)
    requires
        events.len() == 3,
    ensures
        run(d, events) == d.after(events[0]).after(events[1]).after(events[2]),
{
    let two = events.drop_last();
    let one = two.drop_last();
    assert(one.drop_last() =~= Seq::empty());
    assert(run(d, one.drop_last()) == d);
    assert(run(d, one) == d.after(events[0]));
    assert(run(d, two) == d.after(events[0]).after(events[1]));
}

/// A download over which nothing fails ends with the weights in place, having
/// counted every byte sent, however many pieces they come in and however
/// large these are.
pub proof fn whole_downloads_succeed(
    start: Download,
    content_length: Option<String>,
    counts: Seq<usize>,
)
    requires
        start.state is CheckTarget,
        start.downloaded_bytes == 0,
        sum(counts) <= u64::MAX,
        forall|i: int| 0 <= i < counts.len() ==> #[trigger] counts[i] > 0,
    ensures
        ({
            let opening = seq![
                DownloadEvent::Found { exists: false },
                DownloadEvent::Succeeded,
                DownloadEvent::Connected { content_length },
            ];
            let created = seq![DownloadEvent::Succeeded];
            let ending = seq![
                DownloadEvent::Received { count: 0 },
                DownloadEvent::Succeeded,
                DownloadEvent::Succeeded,
            ];
            let over = run(start, opening + created + pieces(counts) + ending);
            &&& over.state == (DownloadState::Done { result: Ok(()) })
            &&& over.downloaded_bytes == sum(counts)
        }),
{
    let opening = seq![
        DownloadEvent::Found { exists: false },
        DownloadEvent::Succeeded,
        DownloadEvent::Connected { content_length },
    ];
    let created = seq![DownloadEvent::Succeeded];
    let ending = seq![
        DownloadEvent::Received { count: 0 },
        DownloadEvent::Succeeded,
        DownloadEvent::Succeeded,
    ];
    run_three(start, opening);
    run_splits(start, opening, created);
    let connected = run(start, opening);
    assert(created.drop_last() =~= Seq::empty());
    assert(run(connected, created.drop_last()) == connected);
    assert(run(connected, created) == connected.after(DownloadEvent::Succeeded));
    let reading = run(start, opening + created);
    pieces_of_any_size_are_taken(reading, counts);
    run_splits(start, opening + created, pieces(counts));
    run_splits(start, opening + created + pieces(counts), ending);
    run_three(run(reading, pieces(counts)), ending);
}

/// No text without a digit states a count.
pub proof fn counts_have_a_digit()
    ensures
        stated_count(Seq::empty()) is None,
        stated_count(seq!['+']) is None,
{
    assert(unsigned(seq!['+']) =~= Seq::empty());
}

/// A single digit states itself, with or without a plus sign before it.
pub proof fn a_digit_states_itself(c: char)
    requires
        '0' <= c <= '9',
    ensures
        stated_count(seq![c]) == Some((c as int - '0' as int) as u64),
        stated_count(seq!['+', c]) == Some((c as int - '0' as int) as u64),
{
    assert(unsigned(seq![c]) =~= seq![c]);
    assert(unsigned(seq!['+', c]) =~= seq![c]);
    assert(seq![c].drop_last() =~= Seq::<char>::empty());
    assert(decimal(seq![c].drop_last()) == 0);
}

/// One more digit makes a stated count ten times as large plus that digit,
/// where that has at most 64 bits; else no count is stated any more. What
/// states no count does not come to state one by going on, but for a sign that
/// its first digit follows. Anything but a digit ends a count.
pub proof fn counts_are_read_digit_by_digit(text: Seq<char>, c: char)
    requires
        text.len() > 0,
    ensures
        '0' <= c <= '9' ==> (stated_count(text) matches Some(count) ==> {
            let more = count * 10 + (c as int - '0' as int);
            stated_count(text.push(c)) == (if more <= u64::MAX {
                Some(more as u64)
            } else {
                None
            })
        }),
        '0' <= c <= '9' && stated_count(text) is None && text != seq!['+'] ==> stated_count(
            text.push(c),
        ) is None,
        !('0' <= c <= '9') ==> stated_count(text.push(c)) is None,
{
    let digits = unsigned(text);
    let more = unsigned(text.push(c));
    assert(more =~= digits.push(c));
    assert(more.drop_last() =~= digits);
    assert(more.last() == c);
    assert(decimal(more) == decimal(digits) * 10 + (c as nat - '0' as nat) as nat);
    assert(more[more.len() - 1] == c);
    if digits.len() == 0 {
        assert(text =~= seq!['+']);
    }
    if stated_count(text) is Some {
        assert forall|i: int| 0 <= i < more.len() && '0' <= c <= '9' implies is_digit(
            #[trigger] more[i],
        ) by {
            if i < digits.len() {
                assert(more[i] == digits[i]);
            }
        }
    }
    if stated_count(text.push(c)) is Some && text != seq!['+'] {
        assert forall|i: int| 0 <= i < digits.len() implies is_digit(#[trigger] digits[i]) by {
            assert(digits[i] == more[i]);
        }
    }
}

/// A byte count is read exactly where the text states one.
pub proof fn stated_counts_are_read(text: &str, r: Option<u64>)
    requires
        call_ensures(parse_count, (text,), r),
    ensures
        r == stated_count(text@),
{
}

/// An event can be taken note of unless the count of bytes would have more
/// than 64 bits.
pub proof fn events_have_room_unless_they_overflow(download: Download, event: DownloadEvent)
    ensures
        !download.has_room_for(event) <==> {
            &&& event is Succeeded
            &&& download.state matches DownloadState::Write { count }
                && download.downloaded_bytes + count > u64::MAX
        },
{
}

/// When it is time to report, the listener is told the bytes downloaded and
/// expected, and its reply decides: to go on reading, or to cancel. At any
/// other time it is not asked and nothing changes.
pub proof fn listeners_decide_when_told<L: FfiDownloadListener>(
    download: Download,
    listener: &L,
    now: Download,
)
    requires
        call_ensures(Download::report::<L>, (download, listener), now),
    ensures
        !(download.state is Report) ==> now == download,
        download.state is Report ==> exists|told: FfiDownloadProgress, proceed: bool| #[trigger]
            call_ensures(L::on_progress, (listener, told), proceed) && {
                &&& told.downloaded_bytes == download.downloaded_bytes
                &&& told.total_bytes == download.total_bytes
                &&& told == download.to_report()
                &&& proceed ==> now.state is Read
                &&& !proceed ==> now.state == (DownloadState::RemovePartial {
                    error: FfiDemucsError::Cancelled,
                })
                &&& now.downloaded_bytes == download.downloaded_bytes
                &&& now.total_bytes == download.total_bytes
            },
{
    if download.state is Report {
        let proceed = choose|proceed: bool| #[trigger]
            call_ensures(L::on_progress, (listener, download.to_report()), proceed) && now
                == download.after(DownloadEvent::Replied { proceed });
        assert(call_ensures(L::on_progress, (listener, download.to_report()), proceed));
    }
}

} // verus!
