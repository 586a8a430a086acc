//! Running a command on the server: what it printed, and what its end means.
use vstd::prelude::*;
use vstd::utf8::{decode_utf8, valid_utf8};
use crate::error::{outcome, Error, Fault};
use crate::proxy::ChannelEvent;
use crate::text::{chars_of, text_of, trim, trimmed};

verus! {

/// What `String::from_utf8_lossy` makes of bytes.
pub uninterp spec fn utf8_lossy(bytes: Seq<u8>) -> Seq<char>;

/// `String::from_utf8_lossy`. The result depends on the bytes alone; bytes that
/// are UTF-8 are decoded, and elsewhere a replacement character stands for what is
/// not.
#[verifier::external_body]
pub(crate) fn text_lossy(bytes: &[u8]) -> (r: String)
    ensures
        r@ == utf8_lossy(bytes@),
        valid_utf8(bytes@) ==> r@ == decode_utf8(bytes@),
{
    String::from_utf8_lossy(bytes).to_string()
}

/// What a command has printed so far, and its exit status once it is known.
pub struct Capture {
    pub out: Vec<u8>,
    pub code: Option<u32>,
}

/// What an event adds to the output.
pub open spec fn printed_by(event: ChannelEvent) -> Seq<u8> {
    match event {
        ChannelEvent::Data(bytes) => bytes@,
        ChannelEvent::ExtendedData(bytes) => bytes@,
        _ => Seq::empty(),
    }
}

/// The exit status after an event.
pub open spec fn status_after(code: Option<u32>, event: ChannelEvent) -> Option<u32> {
    match event {
        ChannelEvent::ExitStatus(status) => Some(status),
        _ => code,
    }
}

/// What the end of a command means: its output, unless its status says that it
/// failed.
pub open spec fn command_outcome(code: Option<u32>, text: Seq<char>) -> Result<Seq<char>, Fault> {
    match code {
        Some(c) if c != 0 => Err(Fault::RemoteExit(c, trimmed(text))),
        _ => Ok(text),
    }
}

/// What the end of a command means, given the text that it printed.
pub fn command_result(code: Option<u32>, text: &str) -> (r: Result<String, Error>)
    ensures
        outcome(r) == command_outcome(code, text@),
{
    match code {
        Some(c) => if c == 0 {
            Ok(text.to_string())
        } else {
            let cs = chars_of(text);
            Err(Error::RemoteExit(c, text_of(trim(cs.as_slice()))))
        },
        None => Ok(text.to_string()),
    }
}

impl Capture {
    /// Nothing has been printed.
    pub fn new() -> (r: Capture)
        ensures
            r.out@ == Seq::<u8>::empty(),
            r.code is None,
    {
        Capture { out: Vec::new(), code: None }
    }

    /// Takes in what arrived on the channel, and says whether there is more to
    /// come. Both outputs of the command are kept, as they arrive.
    pub fn on_event(&mut self, event: ChannelEvent) -> (more: bool)
        ensures
            final(self).out@ == old(self).out@ + printed_by(event),
            final(self).code == status_after(old(self).code, event),
            more == !(event is Ended),
    {
        match event {
            ChannelEvent::Data(bytes) => {
                let mut bytes = bytes;
                self.out.append(&mut bytes);
                true
            },
            ChannelEvent::ExtendedData(bytes) => {
                let mut bytes = bytes;
                self.out.append(&mut bytes);
                true
            },
            ChannelEvent::ExitStatus(status) => {
                self.code = Some(status);
                assert(self.out@ + Seq::<u8>::empty() == self.out@);
                true
            },
            ChannelEvent::Ended => {
                assert(self.out@ + Seq::<u8>::empty() == self.out@);
                false
            },
            ChannelEvent::Other => {
                assert(self.out@ + Seq::<u8>::empty() == self.out@);
                true
            },
        }
    }

    /// What the end of the command means.
    pub fn finish(&self) -> (r: Result<String, Error>)
        ensures
            outcome(r) == command_outcome(self.code, utf8_lossy(self.out@)),
    {
        command_result(self.code, text_lossy(self.out.as_slice()).as_str())
    }
}

/// What a command printed after `events`, and its exit status.
pub open spec fn captured(events: Seq<ChannelEvent>) -> (Seq<u8>, Option<u32>)
    decreases events.len(),
{
    if events.len() == 0 {
        (Seq::empty(), None)
    } else {
        let (out, code) = captured(events.drop_last());
        (out + printed_by(events.last()), status_after(code, events.last()))
    }
}

/// All that a command prints is kept, in the order in which it arrives, whichever of
/// its two outputs it comes from; the status is the last one that arrived, and data
/// does not change it.
pub proof fn law_output_is_kept_in_order(
    events: Seq<ChannelEvent>,
    data: Vec<u8>,
    status: u32,
)
    ensures
        captured(events.push(ChannelEvent::Data(data))) == (
            captured(events).0 + data@,
            captured(events).1,
        ),
        captured(events.push(ChannelEvent::ExtendedData(data))) == (
            captured(events).0 + data@,
            captured(events).1,
        ),
        captured(events.push(ChannelEvent::ExitStatus(status))) == (
            captured(events).0,
            Some(status),
        ),
        captured(events.push(ChannelEvent::Other)) == captured(events),
{
    let none = Seq::<u8>::empty();
    assert(captured(events).0 + none =~= captured(events).0);
    assert(events.push(ChannelEvent::Data(data)).drop_last() =~= events);
    assert(events.push(ChannelEvent::ExtendedData(data)).drop_last() =~= events);
    assert(events.push(ChannelEvent::ExitStatus(status)).drop_last() =~= events);
    assert(events.push(ChannelEvent::Other).drop_last() =~= events);
}

/// A command has failed exactly if it said so by a status other than zero; then the
/// status and what it printed are the error. Without a status, and with zero, what it
/// printed is the result, as it is.
pub proof fn law_status_tells_failure(code: u32, text: Seq<char>)
    ensures
        command_outcome(None, text) == Ok::<Seq<char>, Fault>(text),
        command_outcome(Some(0u32), text) == Ok::<Seq<char>, Fault>(text),
        code != 0 ==> command_outcome(Some(code), text) == Err::<Seq<char>, Fault>(
            Fault::RemoteExit(code, trimmed(text)),
        ),
{
}

} // verus!
