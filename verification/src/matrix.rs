//! The connection session: one serial link, the last published snapshot and
//! the tolerance policy for failing reads.
//!
//! Frames leave the link's buffer in arrival order, one per cycle. A frame
//! whose checksum matches replaces the snapshot. A frame whose checksum does
//! not match never replaces the decoded fields: it is recorded as the raw
//! bytes and the snapshot is flagged invalid until a valid frame arrives.

use vstd::prelude::*;
use crate::bytes::copy_bytes;
use crate::config::MatrixConfig;
use crate::error::ErrorKind;
use crate::serial::{first_frame_offset, read_outcome, trimmed, SerialManager};
use crate::telemetry::{
    blank,
    checksum_ok,
    decoded,
    frame_at,
    frame_bytes,
    latest_frame,
    latest_valid,
    parse_data,
    parsed_from,
    preferred,
    preferred_frame_is,
    valid_frame_at,
    well_formed,
    ParsedData,
    Snapshot,
};

verus! {

/// Number of consecutive read failures that are reported before further
/// failures are swallowed.
pub const ERROR_THRESHOLD: u8 = 5;

/// The snapshot published after a frame was received while `previous` was
/// published: a frame whose checksum matches replaces the snapshot; one whose
/// checksum does not match leaves the decoded fields as they were, records
/// the frame as the raw bytes and flags the snapshot invalid.
pub open spec fn published(previous: Snapshot, frame: Seq<u8>) -> Snapshot {
    if checksum_ok(frame) {
        decoded(frame, frame)
    } else {
        Snapshot { raw_data: frame, valid: false, ..previous }
    }
}

/// Parsing exactly one well-formed frame decodes that frame.
pub proof fn single_frame_parses_to_itself(frame: Seq<u8>)
    requires
        well_formed(frame),
    ensures
        parsed_from(frame) == decoded(frame, frame),
{
    assert(frame_at(frame, 0));
    assert(frame_bytes(frame, 0) =~= frame);
    assert forall|j: int| 0 < j implies !frame_at(frame, j) by {}
    assert(latest_frame(frame, 0));
    if checksum_ok(frame) {
        assert forall|j: int| 0 < j implies !valid_frame_at(frame, j) by {}
        assert(latest_valid(frame, 0));
    } else {
        assert forall|j: int| !valid_frame_at(frame, j) by {
            if j != 0 {
                assert(!frame_at(frame, j));
            }
        }
    }
    assert(preferred(frame, 0));
    preferred_frame_is(frame, 0);
}

/// One receive cycle on the link, when there is one.
fn read_link(link: &mut Option<SerialManager>, bytes: &[u8]) -> (outcome: Result<
    Option<[u8; 24]>,
    ErrorKind,
>)
    ensures
        match *old(link) {
            Some(before) => *final(link) matches Some(after) && read_outcome(
                before,
                bytes@,
                after,
                outcome,
            ),
            None => *final(link) is None && outcome == Err::<Option<[u8; 24]>, ErrorKind>(
                ErrorKind::TransportNotConnected,
            ),
        },
{
    match link {
        Some(m) => m.read(bytes),
        None => Err(ErrorKind::TransportNotConnected),
    }
}

/// A session with the device: the link when one is attached, the snapshot
/// last published and the count of consecutive failed reads.
pub struct DataParser {
    serial: Option<SerialManager>,
    parsed_data: ParsedData,
    config: MatrixConfig,
    error_count: u8,
}

impl DataParser {
    #[verifier::type_invariant]
    spec fn counter_in_range(self) -> bool {
        self.error_count <= ERROR_THRESHOLD
    }

    /// The attached link, if any.
    pub closed spec fn link(&self) -> Option<SerialManager> {
        self.serial
    }

    /// The snapshot last published.
    pub closed spec fn snapshot(&self) -> Snapshot {
        self.parsed_data@
    }

    /// The count of consecutive failed reads.
    pub closed spec fn errors(&self) -> nat {
        self.error_count as nat
    }

    /// The configuration the session was made with.
    pub closed spec fn settings(&self) -> MatrixConfig {
        self.config
    }

    /// A link is attached and its port is open.
    pub open spec fn connected(&self) -> bool {
        self.link() matches Some(m) && m.connected()
    }

    /// A session without a link, with a blank snapshot and no errors counted.
    pub fn new(config: MatrixConfig) -> (session: Self)
        ensures
            session.link() is None,
            session.snapshot() == blank(Seq::empty()),
            session.errors() == 0,
            session.settings() == config,
    {
        DataParser { serial: None, parsed_data: ParsedData::default(), config, error_count: 0 }
    }

    /// Attaches a link and forgets earlier read failures.
    pub fn connect(&mut self, serial: SerialManager)
        ensures
            final(self).link() == Some(serial),
            final(self).errors() == 0,
            final(self).snapshot() == old(self).snapshot(),
            final(self).settings() == old(self).settings(),
    {
        self.error_count = 0;
        self.serial = Some(serial);
    }

    /// Detaches the link and forgets earlier read failures.
    pub fn disconnect(&mut self)
        ensures
            final(self).link() is None,
            final(self).errors() == 0,
            final(self).snapshot() == old(self).snapshot(),
            final(self).settings() == old(self).settings(),
    {
        self.error_count = 0;
        self.serial = None;
    }

    /// One read-and-decode cycle. `received` is the outcome of the caller's
    /// read attempt on the transport: the bytes delivered, or the transport's
    /// message when the read failed.
    ///
    /// Without an open link the cycle fails with `TransportNotConnected` and
    /// changes nothing. A successful read resets the failure count and feeds
    /// the link; a frame, when one is complete, updates the snapshot as
    /// [`published`] says. A failed read is reported and counted while fewer
    /// than [`ERROR_THRESHOLD`] failures came in a row; after that it is
    /// swallowed, and the cycle succeeds without changing anything.
    pub fn read_and_parse(&mut self, received: Result<&[u8], String>) -> (outcome: Result<
        (),
        ErrorKind,
    >)
        ensures
            cycle(*old(self), received, *final(self), outcome),
    {
        proof {
            use_type_invariant(&*self);
        }
        let connected = match &self.serial {
            Some(m) => m.is_connected(),
            None => false,
        };
        if !connected {
            return Err(ErrorKind::TransportNotConnected);
        }
        match received {
            Err(message) => {
                if self.error_count < ERROR_THRESHOLD {
                    self.error_count += 1;
                    Err(ErrorKind::TransportReadError(message))
                } else {
                    Ok(())
                }
            },
            Ok(bytes) => {
                self.error_count = 0;
                let mut link: Option<SerialManager> = None;
                std::mem::swap(&mut self.serial, &mut link);
                let found = read_link(&mut link, bytes);
                self.serial = link;
                match found {
                    Ok(Some(frame)) => {
                        proof {
                            single_frame_parses_to_itself(frame@);
                        }
                        let fresh = parse_data(frame.as_slice());
                        if fresh.valid {
                            self.parsed_data = fresh;
                        } else {
                            self.parsed_data.raw_data = fresh.raw_data;
                            self.parsed_data.valid = false;
                        }
                    },
                    _ => {},
                }
                Ok(())
            },
        }
    }

    /// A copy of the snapshot last published.
    pub fn get_parsed_data(&self) -> (parsed: ParsedData)
        ensures
            parsed@ == self.snapshot(),
    {
        self.parsed_data.clone()
    }

    /// The raw bytes of the snapshot last published.
    pub fn get_raw_data(&self) -> (raw: Vec<u8>)
        ensures
            raw@ == self.snapshot().raw_data,
    {
        copy_bytes(self.parsed_data.raw_data.as_slice())
    }

    /// The key flags of the snapshot last published.
    pub fn get_keys(&self) -> (keys: [bool; 24])
        ensures
            keys@ == self.snapshot().keys,
    {
        self.parsed_data.keys
    }

    /// The ADC values of the snapshot last published.
    pub fn get_adc(&self) -> (adc: [u8; 14])
        ensures
            adc@ == self.snapshot().adc,
    {
        self.parsed_data.adc
    }

    /// The LED flags of the snapshot last published.
    pub fn get_leds(&self) -> (leds: [bool; 20])
        ensures
            leds@ == self.snapshot().leds,
    {
        self.parsed_data.leds
    }

    /// Whether the snapshot last published passed its checksum.
    pub fn is_data_valid(&self) -> (valid: bool)
        ensures
            valid == self.snapshot().valid,
    {
        self.parsed_data.valid
    }

    /// The configuration the session was made with.
    pub fn config(&self) -> (config: &MatrixConfig)
        ensures
            *config == self.settings(),
    {
        &self.config
    }

    /// The count of consecutive failed reads, never above
    /// [`ERROR_THRESHOLD`].
    pub fn error_count(&self) -> (count: u8)
        ensures
            count == self.errors(),
            count <= ERROR_THRESHOLD,
    {
        proof {
            use_type_invariant(self);
        }
        self.error_count
    }

    /// Offers a raw command for writing: the bytes to put on the wire when a
    /// link is open, `TransportNotConnected` when none is.
    pub fn send_command(&self, command: &[u8]) -> (outgoing: Result<Vec<u8>, ErrorKind>)
        ensures
            self.connected() ==> (outgoing matches Ok(bytes) && bytes@ == command@),
            !self.connected() ==> outgoing == Err::<Vec<u8>, ErrorKind>(
                ErrorKind::TransportNotConnected,
            ),
    {
        match &self.serial {
            Some(m) => m.send(command),
            None => Err(ErrorKind::TransportNotConnected),
        }
    }
}

/// How one read-and-decode cycle relates the session before (`pre`) and after
/// (`post`), the outcome of the read attempt and what the cycle returns.
pub open spec fn cycle(
    pre: DataParser,
    received: Result<&[u8], String>,
    post: DataParser,
    outcome: Result<(), ErrorKind>,
) -> bool {
    &&& post.settings() == pre.settings()
    &&& post.errors() <= ERROR_THRESHOLD
    &&& if !pre.connected() {
        &&& outcome == Err::<(), ErrorKind>(ErrorKind::TransportNotConnected)
        &&& post.link() == pre.link()
        &&& post.snapshot() == pre.snapshot()
        &&& post.errors() == pre.errors()
    } else {
        match received {
            Err(message) => {
                &&& post.link() == pre.link()
                &&& post.snapshot() == pre.snapshot()
                &&& if pre.errors() < ERROR_THRESHOLD {
                    &&& outcome == Err::<(), ErrorKind>(ErrorKind::TransportReadError(message))
                    &&& post.errors() == pre.errors() + 1
                } else {
                    &&& outcome == Ok::<(), ErrorKind>(())
                    &&& post.errors() == pre.errors()
                }
            },
            Ok(bytes) => {
                let before = pre.link()->0;
                let all = before.pending() + bytes@;
                &&& outcome == Ok::<(), ErrorKind>(())
                &&& post.errors() == 0
                &&& post.link() matches Some(after)
                &&& after.connected()
                &&& after.ceiling() == before.ceiling()
                &&& match first_frame_offset(all) {
                    Some(i) => {
                        &&& after.pending() == all.skip(i + 24)
                        &&& post.snapshot() == published(pre.snapshot(), frame_bytes(all, i))
                    },
                    None => {
                        &&& after.pending() == trimmed(all, before.ceiling())
                        &&& post.snapshot() == pre.snapshot()
                    },
                }
            },
        }
    }
}


/// Once [`ERROR_THRESHOLD`] failures came in a row, every further failed read
/// on an open link is swallowed: the cycle succeeds and changes nothing.
pub proof fn failures_beyond_threshold_are_swallowed(
    pre: DataParser,
    message: String,
    post: DataParser,
    outcome: Result<(), ErrorKind>,
)
    requires
        cycle(pre, Err(message), post, outcome),
        pre.connected(),
        pre.errors() >= ERROR_THRESHOLD,
    ensures
        outcome == Ok::<(), ErrorKind>(()),
        post.snapshot() == pre.snapshot(),
        post.link() == pre.link(),
        post.errors() == pre.errors(),
{
}

/// While fewer than [`ERROR_THRESHOLD`] failures came in a row, a failed read
/// on an open link is surfaced with the transport's message and counted.
pub proof fn failures_below_threshold_are_surfaced(
    pre: DataParser,
    message: String,
    post: DataParser,
    outcome: Result<(), ErrorKind>,
)
    requires
        cycle(pre, Err(message), post, outcome),
        pre.connected(),
        pre.errors() < ERROR_THRESHOLD,
    ensures
        outcome == Err::<(), ErrorKind>(ErrorKind::TransportReadError(message)),
        post.snapshot() == pre.snapshot(),
        post.errors() == pre.errors() + 1,
{
}

/// A frame with a matching checksum is published as a valid snapshot that
/// holds exactly the frame's decoded fields; any other frame leaves the
/// decoded fields as they were and flags the snapshot invalid.
pub proof fn published_policy(previous: Snapshot, frame: Seq<u8>)
    ensures
        checksum_ok(frame) ==> published(previous, frame) == decoded(frame, frame) && published(
            previous,
            frame,
        ).valid,
        !checksum_ok(frame) ==> {
            &&& !published(previous, frame).valid
            &&& published(previous, frame).raw_data == frame
            &&& published(previous, frame).index == previous.index
            &&& published(previous, frame).keys == previous.keys
            &&& published(previous, frame).adc == previous.adc
            &&& published(previous, frame).leds == previous.leds
        },
{
}

} // verus!
