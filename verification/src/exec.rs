//! Out-of-band command execution: what a command's channel events add up
//! to.
//!
//! The embedding application opens a channel of its own on the shared
//! transport, requests the command, and hands every channel event to a
//! [`Collector`] until the channel ends or the collector says that it has
//! closed.

use vstd::prelude::*;
use vstd::string::StringExecFns;
use crate::error::CoreError;
use crate::session::ChannelEvent;
use crate::text::{trim, trimmed};

verus! {

/// The text that `String::from_utf8_lossy` makes of a sequence of bytes:
/// the decoded characters, with a replacement character for every invalid
/// sequence.
pub uninterp spec fn utf8_lossy(bytes: Seq<u8>) -> Seq<char>;

/// Decodes bytes with `String::from_utf8_lossy`. The result is a function of
/// the bytes alone; the contract gives it its name and says no more.
#[verifier::external_body]
fn decode_lossy(bytes: &Vec<u8>) -> (text: String)
    ensures
        text@ == utf8_lossy(bytes@),
{
    String::from_utf8_lossy(bytes).into_owned()
}

/// The output that a command's channel events carry: the decoded payloads of
/// the data events before the first end of stream or close, in order.
pub open spec fn collected_text(events: Seq<ChannelEvent>) -> Seq<char>
    decreases events.len(),
{
    if events.len() == 0 {
        Seq::empty()
    } else {
        match events[0] {
            ChannelEvent::Eof => Seq::empty(),
            ChannelEvent::Close => Seq::empty(),
            ChannelEvent::Data(bytes) => utf8_lossy(bytes@) + collected_text(events.drop_first()),
            _ => collected_text(events.drop_first()),
        }
    }
}

/// The exit status that a command's channel events carry: the last one sent
/// before the channel closes, if any, whether it came before or after the
/// end of the stream.
pub open spec fn collected_status(events: Seq<ChannelEvent>) -> Option<u32>
    decreases events.len(),
{
    if events.len() == 0 {
        None
    } else {
        match events[0] {
            ChannelEvent::Close => None,
            ChannelEvent::ExitStatus(status) => match collected_status(events.drop_first()) {
                Some(later) => Some(later),
                None => Some(status),
            },
            _ => collected_status(events.drop_first()),
        }
    }
}

/// A command succeeded where the remote side sent no exit status, or sent
/// zero.
pub open spec fn succeeded(status: Option<u32>) -> bool {
    status is None || status == Some(0u32)
}

/// True where `result` is what a command with this output and status comes
/// to: on success the trimmed output, otherwise a command failure that
/// carries the status and the output as it was.
pub open spec fn is_outcome(
    result: Result<String, CoreError>,
    text: Seq<char>,
    status: Option<u32>,
) -> bool {
    match result {
        Ok(output) => succeeded(status) && output@ == trimmed(text),
        Err(CoreError::RemoteCommand { status: code, output }) => !succeeded(status) && status
            == Some(code) && output@ == text,
        Err(_) => false,
    }
}

/// The state of one command's collection.
pub struct Collector {
    /// The decoded output so far.
    pub text: String,
    /// The last exit status seen, if any.
    pub status: Option<u32>,
    /// True once the end of the stream was seen: no more data is taken.
    pub ended: bool,
    /// True once the close of the channel was seen: nothing more is taken.
    pub closed: bool,
}

impl Collector {
    /// A collection that has seen nothing.
    pub fn new() -> (c: Collector)
        ensures
            c.text@ == Seq::<char>::empty(),
            c.status is None,
            !c.ended,
            !c.closed,
    {
        Collector { text: String::new(), status: None, ended: false, closed: false }
    }

    /// Takes one channel event and returns whether the collection goes on.
    ///
    /// Data is decoded and appended until the end of the stream. An exit
    /// status is recorded whenever it comes, before or after the end of the
    /// stream, and a later one replaces an earlier one. The close of the
    /// channel ends the collection; events after it change nothing.
    /// Anything else is passed over. The collection goes on until the
    /// channel closes, so the end of the stream alone does not end it.
    pub fn absorb(&mut self, event: &ChannelEvent) -> (more: bool)
        ensures
            more == !final(self).closed,
            old(self).closed ==> *final(self) == *old(self),
            !old(self).closed ==> match *event {
                ChannelEvent::Data(bytes) => {
                    &&& final(self).text@ == (if old(self).ended {
                        old(self).text@
                    } else {
                        old(self).text@ + utf8_lossy(bytes@)
                    })
                    &&& final(self).status == old(self).status
                    &&& final(self).ended == old(self).ended
                    &&& !final(self).closed
                },
                ChannelEvent::ExitStatus(status) => {
                    &&& final(self).text@ == old(self).text@
                    &&& final(self).status == Some(status)
                    &&& final(self).ended == old(self).ended
                    &&& !final(self).closed
                },
                ChannelEvent::Eof => {
                    &&& final(self).text@ == old(self).text@
                    &&& final(self).status == old(self).status
                    &&& final(self).ended
                    &&& !final(self).closed
                },
                ChannelEvent::Close => {
                    &&& final(self).text@ == old(self).text@
                    &&& final(self).status == old(self).status
                    &&& final(self).ended == old(self).ended
                    &&& final(self).closed
                },
                ChannelEvent::Other => *final(self) == *old(self),
            },
    {
        if self.closed {
            return false;
        }
        match event {
            ChannelEvent::Data(bytes) => {
                if !self.ended {
                    let piece = decode_lossy(bytes);
                    self.text.append(piece.as_str());
                }
            },
            ChannelEvent::ExitStatus(status) => {
                self.status = Some(*status);
            },
            ChannelEvent::Eof => {
                self.ended = true;
            },
            ChannelEvent::Close => {
                self.closed = true;
            },
            ChannelEvent::Other => {},
        }
        !self.closed
    }

    /// Ends the collection and says what the command came to: the trimmed
    /// output where the exit status is absent or zero, otherwise a command
    /// failure with the status and the output.
    pub fn finish(self) -> (result: Result<String, CoreError>)
        ensures
            is_outcome(result, self.text@, self.status),
    {
        match self.status {
            None => Ok(trim(self.text.as_str())),
            Some(status) => if status == 0 {
                Ok(trim(self.text.as_str()))
            } else {
                Err(CoreError::RemoteCommand { status, output: self.text })
            },
        }
    }
}

/// The status after the events, given the one recorded before them.
pub open spec fn status_after(before: Option<u32>, events: Seq<ChannelEvent>) -> Option<u32> {
    match collected_status(events) {
        Some(later) => Some(later),
        None => before,
    }
}

/// What a command came to, given all the events of its channel in arrival
/// order, up to the close of the channel or to the end of what arrived.
pub fn collect(events: &Vec<ChannelEvent>) -> (result: Result<String, CoreError>)
    ensures
        is_outcome(result, collected_text(events@), collected_status(events@)),
{
    let mut c = Collector::new();
    let mut i: usize = 0;
    let ghost all = events@;
    assert(all.skip(0) =~= all);
    assert(c.text@ + collected_text(all) =~= collected_text(all));
    while i < events.len()
        invariant_except_break
            i <= events.len(),
            all == events@,
            !c.closed,
            !c.ended ==> c.text@ + collected_text(all.skip(i as int)) == collected_text(all),
            c.ended ==> c.text@ == collected_text(all),
            status_after(c.status, all.skip(i as int)) == collected_status(all),
        ensures
            c.text@ == collected_text(all),
            c.status == collected_status(all),
        decreases events.len() - i,
    {
        let ghost rest = all.skip(i as int);
        let ghost before = c;
        assert(rest[0] == events@[i as int]);
        assert(rest.drop_first() =~= all.skip(i + 1));
        let more = c.absorb(&events[i]);
        proof {
            if let ChannelEvent::Data(bytes) = rest[0] {
                assert((before.text@ + utf8_lossy(bytes@)) + collected_text(rest.drop_first())
                    =~= before.text@ + (utf8_lossy(bytes@) + collected_text(rest.drop_first())));
            }
            if !before.ended && (rest[0] is Eof || rest[0] is Close) {
                assert(before.text@ + Seq::<char>::empty() =~= before.text@);
            }
        }
        if !more {
            break ;
        }
        i += 1;
    }
    c.finish()
}

proof fn lemma_no_status(events: Seq<ChannelEvent>)
    requires
        forall|j: int| 0 <= j < events.len() ==> !((#[trigger] events[j]) is ExitStatus),
    ensures
        collected_status(events) is None,
    decreases events.len(),
{
    if events.len() > 0 {
        assert(!(events[0] is ExitStatus));
        assert forall|j: int| 0 <= j < events.drop_first().len() implies !((
        #[trigger] events.drop_first()[j]) is ExitStatus) by {
            assert(events.drop_first()[j] == events[j + 1]);
        }
        lemma_no_status(events.drop_first());
    }
}

/// An exit status counts wherever it comes before the channel closes,
/// before the end of the stream or after it: where no close comes before it
/// and no other status after it, it is the status of the command.
pub proof fn law_status_counts_until_the_channel_closes(
    before: Seq<ChannelEvent>,
    status: u32,
    after: Seq<ChannelEvent>,
)
    requires
        forall|i: int| 0 <= i < before.len() ==> !((#[trigger] before[i]) is Close),
        forall|j: int| 0 <= j < after.len() ==> !((#[trigger] after[j]) is ExitStatus),
    ensures
        collected_status(before + seq![ChannelEvent::ExitStatus(status)] + after) == Some(status),
    decreases before.len(),
{
    let all = before + seq![ChannelEvent::ExitStatus(status)] + after;
    if before.len() == 0 {
        assert(all[0] == ChannelEvent::ExitStatus(status));
        assert(all.drop_first() =~= after);
        lemma_no_status(after);
    } else {
        assert(all[0] == before[0]);
        assert(!(before[0] is Close));
        assert(all.drop_first() =~= before.drop_first() + seq![ChannelEvent::ExitStatus(status)]
            + after);
        assert forall|i: int| 0 <= i < before.drop_first().len() implies !((
        #[trigger] before.drop_first()[i]) is Close) by {
            assert(before.drop_first()[i] == before[i + 1]);
        }
        law_status_counts_until_the_channel_closes(before.drop_first(), status, after);
    }
}

/// What the caller of an exec sees: the result that came through the reply
/// slot, or `DestinationGone` where the slot was dropped with nothing
/// written to it, because the session had terminated.
pub fn reply_or_gone(reply: Option<Result<String, CoreError>>) -> (result: Result<
    String,
    CoreError,
>)
    ensures
        result == match reply {
            Some(answer) => answer,
            None => Err(CoreError::DestinationGone),
        },
{
    match reply {
        Some(answer) => answer,
        None => Err(CoreError::DestinationGone),
    }
}

} // verus!
