//! The firmware upload as a state machine: the image is cut into chunks and
//! sent frame by frame, followed by the optional CRC frame and the
//! end-of-transfer frame. The client hands out the frame to write next and is
//! told whether the write succeeded; it never touches the transport.

use vstd::prelude::*;
use crate::crc32::{calc_crc32, crc32};
use crate::error::ErrorKind;
use crate::protocol::{
    crc_le_bytes,
    encode_crc_frame,
    encode_data_frame,
    encode_end_frame,
    encoded,
    DEVICE_ADDR,
    FUNC_SEND_CRC,
    FUNC_SEND_DATA,
    MAX_DATA_LEN,
};

verus! {

/// Where an upload stands.
#[derive(Clone, Copy, Debug, PartialEq, Eq, Structural)]
pub enum UploadState {
    /// No upload was started.
    Idle,
    /// Data frames are being sent.
    SendingChunks,
    /// All data went out; the CRC frame is next.
    SendingCrc,
    /// The end-of-transfer frame is next.
    SendingEnd,
    /// The end-of-transfer frame was written: the upload succeeded.
    Complete,
    /// A fatal error ended the upload.
    Failed,
}

/// Number of data frames that an image of `len` bytes takes.
pub open spec fn chunk_count(len: nat) -> nat {
    (len + 511) / 512
}

/// Number of frames of a whole upload: the data frames, the CRC frame when
/// CRC mode is on, and the end-of-transfer frame.
pub open spec fn frame_total(len: nat, use_crc: bool) -> nat {
    chunk_count(len) + (if use_crc {
        1nat
    } else {
        0nat
    }) + 1
}

/// Chunk `k` of `image`: its bytes `512k` up to `512(k + 1)`, the last chunk
/// ending with the image.
pub open spec fn chunk(image: Seq<u8>, k: int) -> Seq<u8> {
    image.subrange(
        512 * k,
        if 512 * (k + 1) <= image.len() {
            512 * (k + 1)
        } else {
            image.len() as int
        },
    )
}

/// The state of an upload of `len` bytes after `written` frames went out.
pub open spec fn progress_state(written: nat, len: nat, use_crc: bool) -> UploadState {
    if written < chunk_count(len) {
        UploadState::SendingChunks
    } else if use_crc && written == chunk_count(len) {
        UploadState::SendingCrc
    } else if written < frame_total(len, use_crc) {
        UploadState::SendingEnd
    } else {
        UploadState::Complete
    }
}

/// Frame `k` of the upload of `image`, carrying sequence number `seq`: a data
/// frame for each chunk, then the CRC frame when CRC mode is on, then the
/// end-of-transfer frame.
pub open spec fn upload_frame(image: Seq<u8>, use_crc: bool, k: int, seq: u8) -> Seq<u8> {
    if k < chunk_count(image.len()) {
        encoded(DEVICE_ADDR, FUNC_SEND_DATA, seq, chunk(image, k))
    } else if use_crc && k == chunk_count(image.len()) {
        encoded(DEVICE_ADDR, FUNC_SEND_CRC, seq, crc_le_bytes(crc32(image)))
    } else {
        encoded(DEVICE_ADDR, FUNC_SEND_DATA, seq, Seq::empty())
    }
}

/// The sequence number `k` frames after `first`: the counter wraps at 256.
pub open spec fn seq_after(first: u8, k: int) -> u8 {
    ((first + k) % 256) as u8
}

/// Every frame that an uninterrupted upload of `image` writes, in order,
/// when the first frame carries sequence number `first_seq`.
pub open spec fn upload_frames(image: Seq<u8>, use_crc: bool, first_seq: u8) -> Seq<Seq<u8>> {
    Seq::new(
        frame_total(image.len(), use_crc),
        |k: int| upload_frame(image, use_crc, k, seq_after(first_seq, k)),
    )
}

/// Bytes of an image of `len` bytes that its first `frames` data frames
/// carry.
pub open spec fn bytes_covered(frames: nat, len: nat) -> nat {
    if 512 * frames <= len {
        512 * frames
    } else {
        len
    }
}

/// The first `n` chunks of `image`, joined in order.
pub open spec fn joined_chunks(image: Seq<u8>, n: nat) -> Seq<u8>
    decreases n,
{
    if n == 0 {
        Seq::empty()
    } else {
        joined_chunks(image, (n - 1) as nat) + chunk(image, n - 1)
    }
}

/// Every chunk holds between 1 and 512 bytes, and every chunk but the last
/// holds 512.
pub proof fn chunk_bounds(image: Seq<u8>, k: int)
    requires
        0 <= k < chunk_count(image.len()),
    ensures
        1 <= chunk(image, k).len() <= 512,
        k + 1 < chunk_count(image.len()) ==> chunk(image, k).len() == 512,
{
}

/// The chunks, joined in order, are the image: segmentation neither drops,
/// repeats nor reorders a byte.
pub proof fn chunks_cover_image(image: Seq<u8>)
    ensures
        joined_chunks(image, chunk_count(image.len())) == image,
{
    joined_chunks_prefix(image, chunk_count(image.len()));
    assert(image.take(image.len() as int) =~= image);
}

proof fn joined_chunks_prefix(image: Seq<u8>, n: nat)
    requires
        n <= chunk_count(image.len()),
    ensures
        joined_chunks(image, n) == image.take(bytes_covered(n, image.len()) as int),
    decreases n,
{
    if n > 0 {
        joined_chunks_prefix(image, (n - 1) as nat);
        assert(joined_chunks(image, n) =~= image.take(bytes_covered(n, image.len()) as int));
    } else {
        assert(image.take(0) =~= Seq::<u8>::empty());
    }
}

#[derive(Clone, Copy, PartialEq, Eq, Structural)]
enum Stage {
    Idle,
    Active,
    Failed,
}

/// The sending side of one firmware upload: the image, the free-running
/// sequence counter and how many frames of the upload went out.
pub struct BootloaderClient {
    seq: u8,
    use_crc: bool,
    firmware: Vec<u8>,
    stage: Stage,
    written: usize,
}

impl BootloaderClient {
    #[verifier::type_invariant]
    spec fn within_plan(self) -> bool {
        self.stage == Stage::Active ==> self.written <= frame_total(
            self.firmware@.len(),
            self.use_crc,
        )
    }

    /// The image being uploaded.
    pub closed spec fn image(&self) -> Seq<u8> {
        self.firmware@
    }

    /// Whether the image's CRC32 is sent after the data.
    pub closed spec fn crc_enabled(&self) -> bool {
        self.use_crc
    }

    /// The sequence number of the next frame.
    pub closed spec fn sequence(&self) -> u8 {
        self.seq
    }

    /// Number of frames of the current upload that were written.
    pub closed spec fn frames_written(&self) -> nat {
        self.written as nat
    }

    /// Where the upload stands.
    pub closed spec fn state(&self) -> UploadState {
        match self.stage {
            Stage::Idle => UploadState::Idle,
            Stage::Failed => UploadState::Failed,
            Stage::Active => progress_state(
                self.written as nat,
                self.firmware@.len(),
                self.use_crc,
            ),
        }
    }

    /// A frame is waiting to be written.
    pub open spec fn sending(&self) -> bool {
        self.state() is SendingChunks || self.state() is SendingCrc || self.state() is SendingEnd
    }

    /// Everything but the state is as in `other`.
    pub open spec fn same_upload(&self, other: &Self) -> bool {
        &&& self.image() == other.image()
        &&& self.crc_enabled() == other.crc_enabled()
        &&& self.sequence() == other.sequence()
        &&& self.frames_written() == other.frames_written()
    }

    /// An idle client whose first frame will carry sequence number 0.
    pub fn new(use_crc: bool) -> (client: Self)
        ensures
            client.state() is Idle,
            client.crc_enabled() == use_crc,
            client.sequence() == 0,
            client.frames_written() == 0,
            client.image() == Seq::<u8>::empty(),
    {
        BootloaderClient { seq: 0, use_crc, firmware: Vec::new(), stage: Stage::Idle, written: 0 }
    }

    /// Where the upload stands.
    pub fn current_state(&self) -> (state: UploadState)
        ensures
            state == self.state(),
    {
        proof {
            use_type_invariant(self);
        }
        match self.stage {
            Stage::Idle => UploadState::Idle,
            Stage::Failed => UploadState::Failed,
            Stage::Active => {
                let len: usize = self.firmware.len();
                let chunks: usize = exec_chunk_count(len);
                if self.written < chunks {
                    UploadState::SendingChunks
                } else if self.use_crc && self.written == chunks {
                    UploadState::SendingCrc
                } else if self.written < exec_frame_total(len, self.use_crc) {
                    UploadState::SendingEnd
                } else {
                    UploadState::Complete
                }
            },
        }
    }

    /// Bytes of the image that were written, and the size of the image.
    pub fn progress(&self) -> (sent: (usize, usize))
        ensures
            sent.1 == self.image().len(),
            sent.0 == bytes_covered(self.frames_written(), self.image().len()),
    {
        let len: usize = self.firmware.len();
        if self.written <= len / 512 {
            (self.written * 512, len)
        } else {
            (len, len)
        }
    }

    /// Starts the upload of `firmware`. Only an idle client starts one: the
    /// result tells whether it did. A client that is not idle is left as it
    /// is.
    pub fn begin_upload(&mut self, firmware: Vec<u8>) -> (started: bool)
        ensures
            started == (old(self).state() is Idle),
            final(self).crc_enabled() == old(self).crc_enabled(),
            final(self).sequence() == old(self).sequence(),
            started ==> final(self).image() == firmware@ && final(self).frames_written() == 0
                && final(self).state() == progress_state(
                0,
                firmware@.len(),
                old(self).crc_enabled(),
            ),
            !started ==> final(self).same_upload(old(self)) && final(self).state() == old(
                self,
            ).state(),
    {
        match self.stage {
            Stage::Idle => {
                self.firmware = firmware;
                self.written = 0;
                self.stage = Stage::Active;
                true
            },
            _ => false,
        }
    }

    /// The frame to write next: the data frame of the next chunk, the CRC
    /// frame or the end-of-transfer frame. `None` when no upload is under
    /// way.
    pub fn pending_frame(&self) -> (frame: Option<Vec<u8>>)
        ensures
            self.sending() ==> (frame matches Some(bytes) && bytes@ == upload_frame(
                self.image(),
                self.crc_enabled(),
                self.frames_written() as int,
                self.sequence(),
            )),
            !self.sending() ==> frame is None,
    {
        match self.current_state() {
            UploadState::SendingChunks => {
                let len: usize = self.firmware.len();
                let start: usize = self.written * 512;
                let size: usize = if len - start < MAX_DATA_LEN {
                    len - start
                } else {
                    MAX_DATA_LEN
                };
                let payload = vstd::slice::slice_subrange(
                    self.firmware.as_slice(),
                    start,
                    start + size,
                );
                Some(encode_data_frame(DEVICE_ADDR, self.seq, payload))
            },
            UploadState::SendingCrc => {
                let crc: u32 = calc_crc32(self.firmware.as_slice());
                Some(encode_crc_frame(DEVICE_ADDR, self.seq, crc))
            },
            UploadState::SendingEnd => Some(encode_end_frame(DEVICE_ADDR, self.seq)),
            _ => None,
        }
    }

    /// Records that the pending frame was written: the sequence counter
    /// advances, wrapping at 256, and the upload moves on. Without a pending
    /// frame nothing changes.
    pub fn frame_written(&mut self)
        ensures
            final(self).image() == old(self).image(),
            final(self).crc_enabled() == old(self).crc_enabled(),
            old(self).sending() ==> final(self).frames_written() == old(self).frames_written() + 1
                && final(self).sequence() == seq_after(old(self).sequence(), 1)
                && final(self).state() == progress_state(
                final(self).frames_written(),
                final(self).image().len(),
                final(self).crc_enabled(),
            ),
            !old(self).sending() ==> final(self).same_upload(old(self)) && final(self).state()
                == old(self).state(),
    {
        match self.current_state() {
            UploadState::SendingChunks | UploadState::SendingCrc | UploadState::SendingEnd => {
                let len: usize = self.firmware.len();
                proof {
                    assert(self.written < frame_total(len as nat, self.use_crc));
                    assert(frame_total(len as nat, self.use_crc) <= usize::MAX);
                }
                self.seq = if self.seq == 255 {
                    0
                } else {
                    self.seq + 1
                };
                self.written = self.written + 1;
            },
            _ => {},
        }
    }

    /// Runs a whole upload of `firmware` as if every write succeeds, and
    /// returns the frames in the order in which they go on the wire: one
    /// data frame per chunk of at most 512 bytes, the CRC frame when CRC
    /// mode is on, and the end-of-transfer frame. A client that is not idle
    /// returns no frame and is left as it is.
    pub fn download_firmware(&mut self, firmware: Vec<u8>) -> (frames: Vec<Vec<u8>>)
        ensures
            final(self).crc_enabled() == old(self).crc_enabled(),
            old(self).state() is Idle ==> {
                &&& frames@.map_values(|f: Vec<u8>| f@) == upload_frames(
                    firmware@,
                    old(self).crc_enabled(),
                    old(self).sequence(),
                )
                &&& final(self).state() is Complete
                &&& final(self).image() == firmware@
                &&& final(self).frames_written() == frame_total(
                    firmware@.len(),
                    old(self).crc_enabled(),
                )
                &&& final(self).sequence() == seq_after(
                    old(self).sequence(),
                    frame_total(firmware@.len(), old(self).crc_enabled()) as int,
                )
            },
            !(old(self).state() is Idle) ==> {
                &&& frames@.len() == 0
                &&& final(self).same_upload(old(self))
                &&& final(self).state() == old(self).state()
            },
    {
        let ghost image = firmware@;
        let ghost first = self.sequence();
        let ghost use_crc = self.crc_enabled();
        let mut frames: Vec<Vec<u8>> = Vec::new();
        if !self.begin_upload(firmware) {
            return frames;
        }
        loop
            invariant
                self.image() == image,
                self.crc_enabled() == use_crc,
                self.state() == progress_state(self.frames_written(), image.len(), use_crc),
                self.frames_written() <= frame_total(image.len(), use_crc),
                frames@.len() == self.frames_written(),
                self.sequence() == seq_after(first, self.frames_written() as int),
                forall|k: int|
                    0 <= k < frames@.len() ==> (#[trigger] frames@[k])@ == upload_frame(
                        image,
                        use_crc,
                        k,
                        seq_after(first, k),
                    ),
            ensures
                self.state() is Complete,
                self.frames_written() == frame_total(image.len(), use_crc),
            decreases frame_total(image.len(), use_crc) - self.frames_written(),
        {
            match self.pending_frame() {
                Some(bytes) => {
                    frames.push(bytes);
                    self.frame_written();
                },
                None => {
                    break ;
                },
            }
        }
        proof {
            assert(frames@.map_values(|f: Vec<u8>| f@) =~= upload_frames(image, use_crc, first));
        }
        frames
    }

    /// Records that writing the pending frame failed, which is fatal: the
    /// upload fails. Returns the error to surface.
    pub fn write_failed(&mut self, message: String) -> (error: ErrorKind)
        ensures
            error == ErrorKind::TransportWriteError(message),
            final(self).same_upload(old(self)),
            old(self).sending() ==> final(self).state() is Failed,
            !old(self).sending() ==> final(self).state() == old(self).state(),
    {
        match self.current_state() {
            UploadState::SendingChunks | UploadState::SendingCrc | UploadState::SendingEnd => {
                self.stage = Stage::Failed;
            },
            _ => {},
        }
        ErrorKind::TransportWriteError(message)
    }

    /// Records that the firmware image could not be loaded, which is fatal:
    /// an idle client fails before any byte is sent. Returns the error to
    /// surface.
    pub fn firmware_unreadable(&mut self, message: String) -> (error: ErrorKind)
        ensures
            error == ErrorKind::FirmwareFileError(message),
            final(self).same_upload(old(self)),
            old(self).state() is Idle ==> final(self).state() is Failed,
            !(old(self).state() is Idle) ==> final(self).state() == old(self).state(),
    {
        match self.current_state() {
            UploadState::Idle => {
                self.stage = Stage::Failed;
            },
            _ => {},
        }
        ErrorKind::FirmwareFileError(message)
    }
}

/// Number of data frames that an image of `len` bytes takes.
fn exec_chunk_count(len: usize) -> (count: usize)
    ensures
        count == chunk_count(len as nat),
        count + 2 <= usize::MAX,
{
    len / 512 + (if len % 512 != 0 {
        1
    } else {
        0
    })
}

/// Number of frames of a whole upload.
fn exec_frame_total(len: usize, use_crc: bool) -> (count: usize)
    ensures
        count == frame_total(len as nat, use_crc),
{
    exec_chunk_count(len) + (if use_crc {
        1
    } else {
        0
    }) + 1
}

} // verus!
