//! The chunked download: what to do after each step, and which progress to
//! report.
//!
//! The embedding application owns the remote stream and the local file. It
//! feeds the outcome of every step to [`Download::step`] and performs the
//! actions that come back, in order.

use vstd::prelude::*;
use vstd::string::StringExecFns;
use crate::error::CoreError;

verus! {

/// The most that one read asks of the remote stream, in bytes.
pub const CHUNK_SIZE: usize = 32768;

/// How far a transfer has come. `percent` is always computed from the two
/// byte counts.
#[derive(Debug, Clone, Copy, PartialEq, Eq, Structural)]
pub struct TransferProgress {
    pub downloaded: u64,
    pub total: u64,
    pub percent: u8,
}

/// The whole percentage that `downloaded` is of `total`, rounded down and
/// never above 100. An empty file is complete from the start.
pub open spec fn percent_of(downloaded: nat, total: nat) -> nat {
    if downloaded >= total {
        100
    } else {
        downloaded * 100 / total
    }
}

/// The progress report for these two byte counts.
pub open spec fn progress_at(downloaded: u64, total: u64) -> TransferProgress {
    TransferProgress {
        downloaded,
        total,
        percent: percent_of(downloaded as nat, total as nat) as u8,
    }
}

/// A percentage is at most 100, and it does not fall when more has been
/// downloaded.
pub proof fn lemma_percent_of(smaller: nat, larger: nat, total: nat)
    requires
        smaller <= larger,
    ensures
        percent_of(smaller, total) <= percent_of(larger, total) <= 100,
{
    if larger < total {
        assert(smaller * 100 / total <= larger * 100 / total <= 100) by (nonlinear_arith)
            requires
                smaller <= larger < total,
        ;
    } else if smaller < total {
        assert(smaller * 100 / total <= 100) by (nonlinear_arith)
            requires
                smaller < total,
        ;
    }
}

/// Where a download stands.
#[derive(Debug, Clone, Copy, PartialEq, Eq, Structural)]
pub enum TransferPhase {
    /// Created, nothing requested yet.
    Idle,
    /// Waiting for the size of the remote file.
    AwaitingMetadata,
    /// Waiting for the remote stream and the local file to open.
    Opening,
    /// Waiting for the next chunk from the remote stream.
    Reading,
    /// Waiting for the chunk to be written to the local file.
    Writing,
    /// Waiting for the local file to be flushed and closed.
    Closing,
    /// Finished; the local file is complete.
    Done,
    /// Aborted; what was written so far stays on disk.
    Failed,
}

/// The outcome of the step that the download was waiting for.
#[derive(Debug, Clone, PartialEq, Eq)]
pub enum TransferEvent {
    /// The caller asks the download to start.
    Start,
    /// The remote file has this many bytes.
    Metadata(u64),
    /// The remote stream and the local file are open.
    Opened,
    /// The remote stream gave this many bytes; none means that it has ended.
    Read(usize),
    /// The chunk is in the local file, all of it.
    Written,
    /// The local file is flushed and closed.
    Closed,
    /// The remote side failed, with this message.
    RemoteFailed(String),
    /// The local side failed, with this message.
    LocalFailed(String),
}

/// Why a download was aborted.
#[derive(Debug, Clone, PartialEq, Eq)]
pub enum TransferFailure {
    /// The remote side failed, with this message.
    Remote(String),
    /// The local side failed, with this message.
    Local(String),
    /// The remote stream ended before the announced size was reached.
    Short { downloaded: u64, total: u64 },
    /// The remote stream went on beyond the announced size; the chunk that
    /// would have passed it was not written.
    Long { downloaded: u64, total: u64 },
}

impl TransferFailure {
    /// The message for the person at the display.
    pub open spec fn message_of(self) -> Seq<char> {
        match self {
            TransferFailure::Remote(message) => message@,
            TransferFailure::Local(message) => message@,
            TransferFailure::Short { .. } => "the remote file ended before its announced size"@,
            TransferFailure::Long { .. } => "the remote file is longer than its announced size"@,
        }
    }

    /// The failure as the error of the transfer: an input/output error for
    /// the local side, a protocol error for everything else.
    pub fn into_error(self) -> (error: CoreError)
        ensures
            match error {
                CoreError::Io(message) => self is Local && message@ == self.message_of(),
                CoreError::Protocol(message) => !(self is Local) && message@ == self.message_of(),
                _ => false,
            },
    {
        match self {
            TransferFailure::Remote(message) => CoreError::Protocol(message),
            TransferFailure::Local(message) => CoreError::Io(message),
            TransferFailure::Short { .. } => CoreError::Protocol(
                String::from_str("the remote file ended before its announced size"),
            ),
            TransferFailure::Long { .. } => CoreError::Protocol(
                String::from_str("the remote file is longer than its announced size"),
            ),
        }
    }
}

/// One thing the embedding application must do for the download.
#[derive(Debug, Clone, PartialEq, Eq)]
pub enum TransferAction {
    /// Ask the remote side for the file's size.
    FetchMetadata,
    /// Report this progress.
    Emit(TransferProgress),
    /// Open the remote file for reading and the local one for writing.
    Open,
    /// Read at most `max` bytes from the remote stream.
    Read { max: usize },
    /// Write the chunk just read to the local file, all of it.
    Write,
    /// Flush and close the local file.
    Close,
    /// Report that the download succeeded.
    Complete,
    /// Report that the download failed.
    Fail(TransferFailure),
}

/// A download: its phase, the byte counts, the bytes of the chunk being
/// written, and the percentage last reported.
#[derive(Debug, Clone, Copy, PartialEq, Eq)]
pub struct Download {
    pub phase: TransferPhase,
    pub downloaded: u64,
    pub total: u64,
    pub pending: usize,
    pub reported: u8,
}

/// True while the download waits for a step to end.
pub open spec fn in_flight(phase: TransferPhase) -> bool {
    phase != TransferPhase::Idle && phase != TransferPhase::Done && phase != TransferPhase::Failed
}

/// The byte count after a chunk of `pending` bytes, held at the largest
/// 64-bit number.
pub open spec fn grown(downloaded: u64, pending: usize) -> u64 {
    if downloaded + pending > u64::MAX {
        u64::MAX
    } else {
        (downloaded + pending) as u64
    }
}

/// The download after `event`.
pub open spec fn transfer_next(d: Download, event: TransferEvent) -> Download {
    match (d.phase, event) {
        (TransferPhase::Idle, TransferEvent::Start) => Download {
            phase: TransferPhase::AwaitingMetadata,
            ..d
        },
        (TransferPhase::AwaitingMetadata, TransferEvent::Metadata(size)) => Download {
            phase: TransferPhase::Opening,
            downloaded: 0,
            total: size,
            pending: 0,
            reported: progress_at(0, size).percent,
        },
        (TransferPhase::Opening, TransferEvent::Opened) => Download {
            phase: TransferPhase::Reading,
            ..d
        },
        (TransferPhase::Reading, TransferEvent::Read(count)) => if count == 0 {
            if d.downloaded == d.total {
                Download {
                    phase: TransferPhase::Closing,
                    reported: progress_at(d.downloaded, d.total).percent,
                    ..d
                }
            } else {
                Download { phase: TransferPhase::Failed, ..d }
            }
        } else if grown(d.downloaded, count) > d.total {
            Download { phase: TransferPhase::Failed, ..d }
        } else {
            Download { phase: TransferPhase::Writing, pending: count, ..d }
        },
        (TransferPhase::Writing, TransferEvent::Written) => Download {
            phase: TransferPhase::Reading,
            downloaded: grown(d.downloaded, d.pending),
            pending: 0,
            reported: progress_at(grown(d.downloaded, d.pending), d.total).percent,
            ..d
        },
        (TransferPhase::Closing, TransferEvent::Closed) => Download {
            phase: TransferPhase::Done,
            ..d
        },
        (phase, TransferEvent::RemoteFailed(_)) => if in_flight(phase) {
            Download { phase: TransferPhase::Failed, ..d }
        } else {
            d
        },
        (phase, TransferEvent::LocalFailed(_)) => if in_flight(phase) {
            Download { phase: TransferPhase::Failed, ..d }
        } else {
            d
        },
        (_, _) => d,
    }
}

/// The actions that `event` asks for, in the order in which they must be
/// performed.
///
/// Progress is reported once when the size is known, after a chunk only
/// where the whole percentage has changed, and once more when the stream has
/// ended.
pub open spec fn transfer_actions(d: Download, event: TransferEvent) -> Seq<TransferAction> {
    match (d.phase, event) {
        (TransferPhase::Idle, TransferEvent::Start) => seq![TransferAction::FetchMetadata],
        (TransferPhase::AwaitingMetadata, TransferEvent::Metadata(size)) => seq![
            TransferAction::Emit(progress_at(0, size)),
            TransferAction::Open,
        ],
        (TransferPhase::Opening, TransferEvent::Opened) => seq![
            TransferAction::Read { max: CHUNK_SIZE },
        ],
        (TransferPhase::Reading, TransferEvent::Read(count)) => if count == 0 {
            if d.downloaded == d.total {
                seq![
                    TransferAction::Emit(progress_at(d.downloaded, d.total)),
                    TransferAction::Close,
                ]
            } else {
                seq![
                    TransferAction::Fail(
                        TransferFailure::Short { downloaded: d.downloaded, total: d.total },
                    ),
                ]
            }
        } else if grown(d.downloaded, count) > d.total {
            seq![
                TransferAction::Fail(
                    TransferFailure::Long { downloaded: grown(d.downloaded, count), total: d.total },
                ),
            ]
        } else {
            seq![TransferAction::Write]
        },
        (TransferPhase::Writing, TransferEvent::Written) => {
            let now = progress_at(grown(d.downloaded, d.pending), d.total);
            if now.percent != d.reported {
                seq![TransferAction::Emit(now), TransferAction::Read { max: CHUNK_SIZE }]
            } else {
                seq![TransferAction::Read { max: CHUNK_SIZE }]
            }
        },
        (TransferPhase::Closing, TransferEvent::Closed) => seq![TransferAction::Complete],
        (phase, TransferEvent::RemoteFailed(message)) => if in_flight(phase) {
            seq![TransferAction::Fail(TransferFailure::Remote(message))]
        } else {
            seq![]
        },
        (phase, TransferEvent::LocalFailed(message)) => if in_flight(phase) {
            seq![TransferAction::Fail(TransferFailure::Local(message))]
        } else {
            seq![]
        },
        (_, _) => seq![],
    }
}

/// The download after a whole sequence of events, taken in order.
pub open spec fn transfer_next_all(d: Download, events: Seq<TransferEvent>) -> Download
    decreases events.len(),
{
    if events.len() == 0 {
        d
    } else {
        transfer_next_all(transfer_next(d, events[0]), events.drop_first())
    }
}

/// The actions of a whole sequence of events: those of the first event, then
/// those of the rest.
pub open spec fn transfer_actions_all(d: Download, events: Seq<TransferEvent>) -> Seq<
    TransferAction,
>
    decreases events.len(),
{
    if events.len() == 0 {
        seq![]
    } else {
        transfer_actions(d, events[0]) + transfer_actions_all(
            transfer_next(d, events[0]),
            events.drop_first(),
        )
    }
}

/// The progress reports among `actions`, in order.
pub open spec fn reports(actions: Seq<TransferAction>) -> Seq<TransferProgress>
    decreases actions.len(),
{
    if actions.len() == 0 {
        seq![]
    } else {
        let head = match actions[0] {
            TransferAction::Emit(progress) => seq![progress],
            _ => seq![],
        };
        head + reports(actions.drop_first())
    }
}

/// The progress for these two byte counts.
pub fn progress(downloaded: u64, total: u64) -> (p: TransferProgress)
    ensures
        p == progress_at(downloaded, total),
        p.percent <= 100,
{
    proof {
        lemma_percent_of(downloaded as nat, downloaded as nat, total as nat);
    }
    let percent: u8 = if downloaded >= total {
        100
    } else {
        let scaled: u128 = downloaded as u128 * 100;
        (scaled / (total as u128)) as u8
    };
    TransferProgress { downloaded, total, percent }
}

impl Download {
    /// A download that has not started.
    pub fn new() -> (d: Download)
        ensures
            d == (Download {
                phase: TransferPhase::Idle,
                downloaded: 0,
                total: 0,
                pending: 0,
                reported: 0,
            }),
    {
        Download { phase: TransferPhase::Idle, downloaded: 0, total: 0, pending: 0, reported: 0 }
    }

    /// The progress of the download as it stands.
    pub fn progress(&self) -> (p: TransferProgress)
        ensures
            p == progress_at(self.downloaded, self.total),
    {
        progress(self.downloaded, self.total)
    }

    fn is_in_flight(&self) -> (b: bool)
        ensures
            b == in_flight(self.phase),
    {
        self.phase != TransferPhase::Idle && self.phase != TransferPhase::Done && self.phase
            != TransferPhase::Failed
    }

    fn abort(&mut self, error: TransferFailure) -> (actions: Vec<TransferAction>)
        ensures
            *final(self) == (if in_flight(old(self).phase) {
                Download { phase: TransferPhase::Failed, ..*old(self) }
            } else {
                *old(self)
            }),
            actions@ == (if in_flight(old(self).phase) {
                seq![TransferAction::Fail(error)]
            } else {
                seq![]
            }),
    {
        if self.is_in_flight() {
            self.phase = TransferPhase::Failed;
            vec![TransferAction::Fail(error)]
        } else {
            Vec::new()
        }
    }

    fn grown_by(&self, count: usize) -> (r: u64)
        ensures
            r == grown(self.downloaded, count),
    {
        let more: u64 = if count as u128 > u64::MAX as u128 {
            u64::MAX
        } else {
            count as u64
        };
        self.downloaded.saturating_add(more)
    }

    fn written(&mut self) -> (actions: Vec<TransferAction>)
        requires
            old(self).phase == TransferPhase::Writing,
        ensures
            *final(self) == transfer_next(*old(self), TransferEvent::Written),
            actions@ == transfer_actions(*old(self), TransferEvent::Written),
    {
        self.downloaded = self.grown_by(self.pending);
        self.pending = 0;
        self.phase = TransferPhase::Reading;
        let now = self.progress();
        let actions = if now.percent != self.reported {
            vec![TransferAction::Emit(now), TransferAction::Read { max: CHUNK_SIZE }]
        } else {
            vec![TransferAction::Read { max: CHUNK_SIZE }]
        };
        self.reported = now.percent;
        actions
    }

    /// Takes the outcome of one step and returns what must be done next, in
    /// order.
    ///
    /// The size is fetched first and reported with nothing downloaded. Each
    /// chunk that is not empty is written before the next read is asked for;
    /// after it the progress is computed anew and reported where the whole
    /// percentage has changed. An empty read ends the stream: where the
    /// bytes read add up to the announced size, the progress is reported
    /// once more and the local file is closed; where they fall short, the
    /// download is aborted. A chunk that would pass the announced size is
    /// not written and aborts the download too, and so does a failure on
    /// either side. Events that do not belong to the phase are dropped.
    pub fn step(&mut self, event: TransferEvent) -> (actions: Vec<TransferAction>)
        ensures
            *final(self) == transfer_next(*old(self), event),
            actions@ == transfer_actions(*old(self), event),
    {
        let phase = self.phase;
        let actions = match (phase, event) {
            (TransferPhase::Idle, TransferEvent::Start) => {
                self.phase = TransferPhase::AwaitingMetadata;
                vec![TransferAction::FetchMetadata]
            },
            (TransferPhase::AwaitingMetadata, TransferEvent::Metadata(size)) => {
                let first = progress(0, size);
                self.phase = TransferPhase::Opening;
                self.downloaded = 0;
                self.total = size;
                self.pending = 0;
                self.reported = first.percent;
                vec![TransferAction::Emit(first), TransferAction::Open]
            },
            (TransferPhase::Opening, TransferEvent::Opened) => {
                self.phase = TransferPhase::Reading;
                vec![TransferAction::Read { max: CHUNK_SIZE }]
            },
            (TransferPhase::Reading, TransferEvent::Read(count)) => {
                if count == 0 {
                    if self.downloaded == self.total {
                        let last = self.progress();
                        self.phase = TransferPhase::Closing;
                        self.reported = last.percent;
                        vec![TransferAction::Emit(last), TransferAction::Close]
                    } else {
                        self.phase = TransferPhase::Failed;
                        vec![
                            TransferAction::Fail(
                                TransferFailure::Short {
                                    downloaded: self.downloaded,
                                    total: self.total,
                                },
                            ),
                        ]
                    }
                } else if self.grown_by(count) > self.total {
                    let reached = self.grown_by(count);
                    self.phase = TransferPhase::Failed;
                    vec![
                        TransferAction::Fail(
                            TransferFailure::Long { downloaded: reached, total: self.total },
                        ),
                    ]
                } else {
                    self.phase = TransferPhase::Writing;
                    self.pending = count;
                    vec![TransferAction::Write]
                }
            },
            (TransferPhase::Writing, TransferEvent::Written) => self.written(),
            (TransferPhase::Closing, TransferEvent::Closed) => {
                self.phase = TransferPhase::Done;
                vec![TransferAction::Complete]
            },
            (_, TransferEvent::RemoteFailed(message)) => self.abort(
                TransferFailure::Remote(message),
            ),
            (_, TransferEvent::LocalFailed(message)) => self.abort(TransferFailure::Local(message)),
            (_, _) => Vec::new(),
        };
        assert(actions@ =~= transfer_actions(*old(self), event));
        actions
    }

    /// Takes the outcomes of a run of steps in order and returns all their
    /// actions, in order.
    pub fn run(&mut self, events: Vec<TransferEvent>) -> (actions: Vec<TransferAction>)
        ensures
            *final(self) == transfer_next_all(*old(self), events@),
            actions@ == transfer_actions_all(*old(self), events@),
    {
        let mut actions: Vec<TransferAction> = Vec::new();
        let ghost all = events@;
        assert(all.skip(0) =~= all);
        assert(actions@ + transfer_actions_all(*self, all) =~= transfer_actions_all(*self, all));
        for event in it: events
            invariant
                it.seq() == all,
                transfer_next_all(*self, all.skip(it.index() as int)) == transfer_next_all(
                    *old(self),
                    all,
                ),
                actions@ + transfer_actions_all(*self, all.skip(it.index() as int))
                    == transfer_actions_all(*old(self), all),
        {
            let ghost rest = all.skip(it.index() as int);
            assert(rest[0] == event);
            assert(rest.drop_first() =~= all.skip(it.index() + 1));
            let mut more = self.step(event);
            assert((actions@ + more@) + transfer_actions_all(*self, rest.drop_first()) =~= actions@
                + (more@ + transfer_actions_all(*self, rest.drop_first())));
            actions.append(&mut more);
        }
        assert(all.skip(all.len() as int) =~= Seq::<TransferEvent>::empty());
        assert(actions@ + Seq::<TransferAction>::empty() =~= actions@);
        actions
    }
}

/// True where neither the byte count nor the percentage ever falls from one
/// report to a later one.
pub open spec fn never_falls(reports: Seq<TransferProgress>) -> bool {
    forall|i: int, j: int|
        0 <= i <= j < reports.len() ==> reports[i].downloaded <= reports[j].downloaded
            && reports[i].percent <= reports[j].percent
}

/// True once the size of the remote file is known to the download.
pub open spec fn sized(phase: TransferPhase) -> bool {
    phase != TransferPhase::Idle && phase != TransferPhase::AwaitingMetadata
}

/// True once the stream has ended or the download was aborted.
pub open spec fn past_streaming(phase: TransferPhase) -> bool {
    phase == TransferPhase::Closing || phase == TransferPhase::Done || phase
        == TransferPhase::Failed
}

proof fn lemma_reports_concat(a: Seq<TransferAction>, b: Seq<TransferAction>)
    ensures
        reports(a + b) == reports(a) + reports(b),
    decreases a.len(),
{
    if a.len() == 0 {
        assert(a + b =~= b);
        assert(reports(a) + reports(b) =~= reports(b));
    } else {
        assert((a + b).drop_first() =~= a.drop_first() + b);
        lemma_reports_concat(a.drop_first(), b);
        let head = match a[0] {
            TransferAction::Emit(progress) => seq![progress],
            _ => seq![],
        };
        assert(reports(a + b) =~= head + (reports(a.drop_first()) + reports(b)));
        assert(reports(a) + reports(b) =~= head + (reports(a.drop_first()) + reports(b)));
    }
}

proof fn lemma_reports_of_step(d: Download, event: TransferEvent)
    ensures
        ({
            let after = transfer_next(d, event);
            let made = reports(transfer_actions(d, event));
            &&& made == Seq::<TransferProgress>::empty() || made == seq![
                progress_at(after.downloaded, after.total),
            ]
            &&& sized(d.phase) ==> sized(after.phase) && after.total == d.total && after.downloaded
                >= d.downloaded
            &&& past_streaming(d.phase) ==> past_streaming(after.phase) && after.downloaded
                == d.downloaded && made == Seq::<TransferProgress>::empty()
            &&& d.phase == TransferPhase::Failed ==> after.phase == TransferPhase::Failed
            &&& !past_streaming(d.phase) && after.phase == TransferPhase::Closing ==> made == seq![
                progress_at(after.downloaded, after.total),
            ]
            &&& !past_streaming(d.phase) ==> after.phase != TransferPhase::Done
            &&& !past_streaming(d.phase) && after.phase == TransferPhase::Closing
                ==> after.downloaded == after.total
            &&& made.len() > 0 ==> sized(after.phase)
        }),
{
    reveal_with_fuel(reports, 3);
    let a = transfer_actions(d, event);
    let made = reports(a);
    let after = transfer_next(d, event);
    if a.len() == 1 {
        assert(a.drop_first().len() == 0);
    }
    if a.len() == 2 {
        assert(a.drop_first().len() == 1);
        assert(a.drop_first().drop_first().len() == 0);
    }
    assert(made =~= Seq::<TransferProgress>::empty() || made =~= seq![
        progress_at(after.downloaded, after.total),
    ]);
}

proof fn lemma_reports_of_run(d: Download, events: Seq<TransferEvent>)
    ensures
        ({
            let made = reports(transfer_actions_all(d, events));
            &&& never_falls(made)
            &&& forall|k: int|
                0 <= k < made.len() ==> #[trigger] made[k] == progress_at(
                    made[k].downloaded,
                    made[k].total,
                )
            &&& sized(d.phase) ==> forall|k: int|
                0 <= k < made.len() ==> (#[trigger] made[k]).total == d.total && made[k].downloaded
                    >= d.downloaded
        }),
    decreases events.len(),
{
    let made = reports(transfer_actions_all(d, events));
    if events.len() > 0 {
        let after = transfer_next(d, events[0]);
        let head = reports(transfer_actions(d, events[0]));
        let tail = reports(transfer_actions_all(after, events.drop_first()));
        lemma_reports_of_run(after, events.drop_first());
        lemma_reports_of_step(d, events[0]);
        lemma_reports_concat(
            transfer_actions(d, events[0]),
            transfer_actions_all(after, events.drop_first()),
        );
        assert(made == head + tail);
        if head.len() == 0 {
            assert(made =~= tail);
        } else {
            assert(sized(after.phase));
            assert forall|i: int, j: int| 0 <= i <= j < made.len() implies made[i].downloaded
                <= made[j].downloaded && made[i].percent <= made[j].percent by {
                if i == 0 && j > 0 {
                    assert(made[j] == tail[j - 1]);
                    lemma_percent_of(
                        made[i].downloaded as nat,
                        made[j].downloaded as nat,
                        after.total as nat,
                    );
                } else if i > 0 {
                    assert(made[i] == tail[i - 1]);
                    assert(made[j] == tail[j - 1]);
                }
            }
            assert forall|k: int| 0 <= k < made.len() implies #[trigger] made[k] == progress_at(
                made[k].downloaded,
                made[k].total,
            ) by {
                if k > 0 {
                    assert(made[k] == tail[k - 1]);
                }
            }
            if sized(d.phase) {
                assert forall|k: int| 0 <= k < made.len() implies (#[trigger] made[k]).total
                    == d.total && made[k].downloaded >= d.downloaded by {
                    if k > 0 {
                        assert(made[k] == tail[k - 1]);
                    }
                }
            }
        }
    }
}

proof fn lemma_nothing_after_streaming(d: Download, events: Seq<TransferEvent>)
    requires
        past_streaming(d.phase),
    ensures
        reports(transfer_actions_all(d, events)) == Seq::<TransferProgress>::empty(),
        transfer_next_all(d, events).downloaded == d.downloaded,
        transfer_next_all(d, events).total == d.total,
        d.phase == TransferPhase::Failed ==> transfer_next_all(d, events).phase
            == TransferPhase::Failed,
    decreases events.len(),
{
    if events.len() > 0 {
        let after = transfer_next(d, events[0]);
        lemma_reports_of_step(d, events[0]);
        lemma_nothing_after_streaming(after, events.drop_first());
        lemma_reports_concat(
            transfer_actions(d, events[0]),
            transfer_actions_all(after, events.drop_first()),
        );
        assert(reports(transfer_actions_all(d, events)) =~= Seq::<TransferProgress>::empty());
    }
}

proof fn lemma_last_report(d: Download, events: Seq<TransferEvent>)
    requires
        !past_streaming(d.phase),
        transfer_next_all(d, events).phase == TransferPhase::Done,
    ensures
        ({
            let made = reports(transfer_actions_all(d, events));
            let end = transfer_next_all(d, events);
            made.len() > 0 && made.last() == progress_at(end.downloaded, end.total)
                && end.downloaded == end.total
        }),
    decreases events.len(),
{
    if events.len() > 0 {
        let after = transfer_next(d, events[0]);
        let head = reports(transfer_actions(d, events[0]));
        let tail = reports(transfer_actions_all(after, events.drop_first()));
        lemma_reports_of_step(d, events[0]);
        lemma_reports_concat(
            transfer_actions(d, events[0]),
            transfer_actions_all(after, events.drop_first()),
        );
        if past_streaming(after.phase) {
            lemma_nothing_after_streaming(after, events.drop_first());
            assert(head + tail =~= head);
        } else {
            lemma_last_report(after, events.drop_first());
            assert((head + tail).last() == tail.last());
        }
    }
}

/// No read is asked for while a chunk waits to be written: a read is asked
/// for only when the files have just been opened or the last chunk has just
/// been written, and a chunk that was read is followed by its write alone.
pub proof fn law_chunk_is_written_before_next_read(d: Download, event: TransferEvent)
    ensures
        transfer_actions(d, event).contains(TransferAction::Read { max: CHUNK_SIZE }) ==> (d.phase
            == TransferPhase::Opening && event == TransferEvent::Opened) || (d.phase
            == TransferPhase::Writing && event == TransferEvent::Written),
        forall|max: usize| #[trigger]
            transfer_actions(d, event).contains(TransferAction::Read { max }) ==> max
                == CHUNK_SIZE,
        transfer_next(d, event).phase == TransferPhase::Writing && d.phase
            != TransferPhase::Writing ==> transfer_actions(d, event) == seq![TransferAction::Write],
{
    let a = transfer_actions(d, event);
    assert forall|max: usize| #[trigger]
        a.contains(TransferAction::Read { max }) implies max == CHUNK_SIZE && ((d.phase
        == TransferPhase::Opening && event == TransferEvent::Opened) || (d.phase
        == TransferPhase::Writing && event == TransferEvent::Written)) by {
        let i = choose|i: int| 0 <= i < a.len() && a[i] == (TransferAction::Read { max });
        assert(a[i] == (TransferAction::Read { max }));
    }
}

/// Progress never falls: over any run of a download, from any state, neither
/// the byte count nor the percentage of a report is below that of an earlier
/// one, and every percentage is the one computed from the report's own byte
/// counts.
pub proof fn law_progress_never_falls(d: Download, events: Seq<TransferEvent>)
    ensures
        never_falls(reports(transfer_actions_all(d, events))),
        forall|k: int|
            0 <= k < reports(transfer_actions_all(d, events)).len() ==> (#[trigger] reports(
                transfer_actions_all(d, events),
            )[k]).percent == percent_of(
                reports(transfer_actions_all(d, events))[k].downloaded as nat,
                reports(transfer_actions_all(d, events))[k].total as nat,
            ),
{
    lemma_reports_of_run(d, events);
    let made = reports(transfer_actions_all(d, events));
    assert forall|k: int| 0 <= k < made.len() implies (#[trigger] made[k]).percent == percent_of(
        made[k].downloaded as nat,
        made[k].total as nat,
    ) by {
        assert(made[k] == progress_at(made[k].downloaded, made[k].total));
        lemma_percent_of(
            made[k].downloaded as nat,
            made[k].downloaded as nat,
            made[k].total as nat,
        );
    }
}

/// A download that runs from its start to `Done` has reported at least once,
/// and its last report shows the whole file and 100 percent: the bytes
/// downloaded are the announced size.
pub proof fn law_finished_download_reports_completion(d: Download, events: Seq<TransferEvent>)
    requires
        d.phase == TransferPhase::Idle,
        transfer_next_all(d, events).phase == TransferPhase::Done,
    ensures
        ({
            let made = reports(transfer_actions_all(d, events));
            let end = transfer_next_all(d, events);
            &&& made.len() > 0
            &&& end.downloaded == end.total
            &&& made.last().downloaded == made.last().total
            &&& made.last().total == end.total
            &&& made.last().percent == 100
        }),
{
    lemma_last_report(d, events);
}

/// A download never writes beyond the announced size and never completes
/// short of it: a chunk is written only where it fits, and the local file is
/// closed for completion only where the bytes downloaded are the announced
/// size.
pub proof fn law_download_keeps_to_announced_size(d: Download, event: TransferEvent)
    ensures
        transfer_actions(d, event).contains(TransferAction::Write) ==> grown(
            d.downloaded,
            transfer_next(d, event).pending,
        ) <= d.total,
        transfer_actions(d, event).contains(TransferAction::Close) ==> d.downloaded == d.total,
{
    let a = transfer_actions(d, event);
    if a.contains(TransferAction::Write) {
        let i = choose|i: int| 0 <= i < a.len() && a[i] == TransferAction::Write;
        assert(a[i] == TransferAction::Write);
    }
    if a.contains(TransferAction::Close) {
        let i = choose|i: int| 0 <= i < a.len() && a[i] == TransferAction::Close;
        assert(a[i] == TransferAction::Close);
    }
}

} // verus!
