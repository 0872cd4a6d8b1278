//! The 24-byte telemetry frame: its layout, its XOR checksum and the decoded
//! snapshot of keys, ADC channels and LEDs.

use vstd::prelude::*;
use crate::bytes::copy_bytes;

verus! {

/// Length of a telemetry frame on the wire.
pub const FRAME_LEN: usize = 24;

/// First byte of every telemetry frame.
pub const FRAME_START: u8 = 0xAA;

/// Last byte of every telemetry frame.
pub const FRAME_END: u8 = 0xBF;

/// Number of key flags in a frame.
pub const KEY_COUNT: usize = 24;

/// Number of ADC channels in a frame.
pub const ADC_COUNT: usize = 14;

/// Number of LED flags in a frame.
pub const LED_COUNT: usize = 20;

/// XOR of all bytes of `s`.
pub open spec fn xor_fold(s: Seq<u8>) -> u8
    decreases s.len(),
{
    if s.len() == 0 {
        0
    } else {
        xor_fold(s.drop_last()) ^ s.last()
    }
}

/// The checksum a frame should carry: the XOR of its bytes 0 to 21.
pub open spec fn frame_checksum(frame: Seq<u8>) -> u8 {
    xor_fold(frame.subrange(0, 22))
}

/// A frame is well formed when it has 24 bytes between the two markers.
pub open spec fn well_formed(frame: Seq<u8>) -> bool {
    &&& frame.len() == 24
    &&& frame[0] == FRAME_START
    &&& frame[23] == FRAME_END
}

/// The stored checksum (byte 22) matches the computed one.
pub open spec fn checksum_ok(frame: Seq<u8>) -> bool {
    frame[22] == frame_checksum(frame)
}

/// A frame is valid when it is well formed and its checksum matches.
pub open spec fn frame_valid(frame: Seq<u8>) -> bool {
    well_formed(frame) && checksum_ok(frame)
}

/// Whether bit `bit` (0 is the least significant) of `byte` is set.
pub open spec fn bit_of(byte: u8, bit: u8) -> bool {
    byte & (1u8 << bit) != 0
}

/// Flag `i` of a bitmask that starts at byte `base` of `frame`: bit `i % 8`
/// of byte `base + i / 8`.
pub open spec fn flag_at(frame: Seq<u8>, base: int, i: int) -> bool {
    bit_of(frame[base + i / 8], (i % 8) as u8)
}

/// The 24 key flags of a frame (bytes 2 to 4).
pub open spec fn frame_keys(frame: Seq<u8>) -> Seq<bool> {
    Seq::new(24, |i: int| flag_at(frame, 2, i))
}

/// The 14 ADC channel values of a frame (bytes 5 to 18).
pub open spec fn frame_adc(frame: Seq<u8>) -> Seq<u8> {
    frame.subrange(5, 19)
}

/// The 20 LED flags of a frame (bytes 19 to 21).
pub open spec fn frame_leds(frame: Seq<u8>) -> Seq<bool> {
    Seq::new(20, |i: int| flag_at(frame, 19, i))
}

/// Mathematical content of a [`ParsedData`].
pub struct Snapshot {
    pub index: u8,
    pub keys: Seq<bool>,
    pub adc: Seq<u8>,
    pub leds: Seq<bool>,
    pub raw_data: Seq<u8>,
    pub valid: bool,
}

/// What decoding `frame` yields when `raw` is recorded as the bytes consumed.
pub open spec fn decoded(frame: Seq<u8>, raw: Seq<u8>) -> Snapshot {
    Snapshot {
        index: frame[1],
        keys: frame_keys(frame),
        adc: frame_adc(frame),
        leds: frame_leds(frame),
        raw_data: raw,
        valid: checksum_ok(frame),
    }
}

/// The snapshot that holds nothing but the bytes consumed.
pub open spec fn blank(raw: Seq<u8>) -> Snapshot {
    Snapshot {
        index: 0,
        keys: Seq::new(24, |i: int| false),
        adc: Seq::new(14, |i: int| 0u8),
        leds: Seq::new(20, |i: int| false),
        raw_data: raw,
        valid: false,
    }
}

/// The checksum of a frame is a function of its bytes 0 to 21 alone: frames
/// that agree on them have the same checksum, whatever else they hold and
/// however often it is computed.
pub proof fn checksum_is_function_of_first_22_bytes(a: Seq<u8>, b: Seq<u8>)
    requires
        a.len() >= 22,
        b.len() >= 22,
        forall|i: int| 0 <= i < 22 ==> a[i] == b[i],
    ensures
        frame_checksum(a) == frame_checksum(b),
{
    assert(a.subrange(0, 22) =~= b.subrange(0, 22));
}

/// Decoding follows the wire layout: byte 1 is the sequence index, key `i`
/// is bit `i % 8` of byte `2 + i / 8`, ADC channel `i` is byte `5 + i`, LED
/// `i` is bit `i % 8` of byte `19 + i / 8`; and a valid frame decodes to a
/// snapshot flagged valid.
pub proof fn decoded_follows_layout(frame: Seq<u8>, raw: Seq<u8>)
    requires
        frame.len() == 24,
    ensures
        decoded(frame, raw).index == frame[1],
        decoded(frame, raw).keys.len() == 24,
        forall|i: int|
            0 <= i < 24 ==> decoded(frame, raw).keys[i] == bit_of(
                #[trigger] frame[2 + i / 8],
                (i % 8) as u8,
            ),
        decoded(frame, raw).adc.len() == 14,
        forall|i: int| 0 <= i < 14 ==> decoded(frame, raw).adc[i] == #[trigger] frame[5 + i],
        decoded(frame, raw).leds.len() == 20,
        forall|i: int|
            0 <= i < 20 ==> decoded(frame, raw).leds[i] == bit_of(
                #[trigger] frame[19 + i / 8],
                (i % 8) as u8,
            ),
        decoded(frame, raw).raw_data == raw,
        frame_valid(frame) ==> decoded(frame, raw).valid,
{
}

/// Decoded state of the device: sequence index, key, ADC and LED values, the
/// raw bytes they were read from and whether the checksum matched.
#[derive(Debug)]
pub struct ParsedData {
    pub index: u8,
    pub keys: [bool; 24],
    pub adc: [u8; 14],
    pub leds: [bool; 20],
    pub raw_data: Vec<u8>,
    pub valid: bool,
}

impl View for ParsedData {
    type V = Snapshot;

    open spec fn view(&self) -> Snapshot {
        Snapshot {
            index: self.index,
            keys: self.keys@,
            adc: self.adc@,
            leds: self.leds@,
            raw_data: self.raw_data@,
            valid: self.valid,
        }
    }
}

impl Default for ParsedData {
    fn default() -> (parsed: Self)
        ensures
            parsed@ == blank(Seq::empty()),
    {
        let parsed = ParsedData {
            index: 0,
            keys: [false; 24],
            adc: [0; 14],
            leds: [false; 20],
            raw_data: Vec::new(),
            valid: false,
        };
        proof {
            assert(parsed.keys@ =~= Seq::new(24, |i: int| false));
            assert(parsed.adc@ =~= Seq::new(14, |i: int| 0u8));
            assert(parsed.leds@ =~= Seq::new(20, |i: int| false));
            assert(parsed.raw_data@ =~= Seq::empty());
        }
        parsed
    }
}

impl Clone for ParsedData {
    fn clone(&self) -> (copy: Self)
        ensures
            copy@ == self@,
    {
        let raw_data = copy_bytes(self.raw_data.as_slice());
        ParsedData {
            index: self.index,
            keys: self.keys,
            adc: self.adc,
            leds: self.leds,
            raw_data,
            valid: self.valid,
        }
    }
}

/// XOR of the first 22 bytes of a frame.
pub fn compute_checksum(frame: &[u8; 24]) -> (checksum: u8)
    ensures
        checksum == frame_checksum(frame@),
{
    let mut checksum: u8 = 0;
    let mut j: usize = 0;
    while j < 22
        invariant
            j <= 22,
            checksum == xor_fold(frame@.subrange(0, j as int)),
        decreases 22 - j,
    {
        proof {
            assert(frame@.subrange(0, j + 1).drop_last() =~= frame@.subrange(0, j as int));
        }
        checksum = checksum ^ frame[j];
        j += 1;
    }
    checksum
}

/// Decodes one 24-byte frame. The fields are decoded whatever the bytes
/// hold; `valid` tells whether the stored checksum matches the computed one.
pub fn decode(frame: &[u8; 24]) -> (parsed: ParsedData)
    ensures
        parsed@ == decoded(frame@, frame@),
{
    let mut keys = [false; 24];
    let mut i: usize = 0;
    while i < 24
        invariant
            i <= 24,
            forall|k: int| 0 <= k < i ==> keys@[k] == flag_at(frame@, 2, k),
        decreases 24 - i,
    {
        keys[i] = frame[2 + i / 8] & (1u8 << ((i % 8) as u8)) != 0;
        i += 1;
    }
    let mut adc = [0u8; 14];
    let mut i: usize = 0;
    while i < 14
        invariant
            i <= 14,
            forall|k: int| 0 <= k < i ==> adc@[k] == frame@[5 + k],
        decreases 14 - i,
    {
        adc[i] = frame[5 + i];
        i += 1;
    }
    let mut leds = [false; 20];
    let mut i: usize = 0;
    while i < 20
        invariant
            i <= 20,
            forall|k: int| 0 <= k < i ==> leds@[k] == flag_at(frame@, 19, k),
        decreases 20 - i,
    {
        leds[i] = frame[19 + i / 8] & (1u8 << ((i % 8) as u8)) != 0;
        i += 1;
    }
    let valid = compute_checksum(frame) == frame[22];
    let raw_data = copy_bytes(frame.as_slice());
    proof {
        assert(keys@ =~= frame_keys(frame@));
        assert(adc@ =~= frame_adc(frame@));
        assert(leds@ =~= frame_leds(frame@));
    }
    ParsedData { index: frame[1], keys, adc, leds, raw_data, valid }
}

/// A well-formed frame occupies bytes `i` to `i + 23` of `data`.
pub open spec fn frame_at(data: Seq<u8>, i: int) -> bool {
    &&& 0 <= i
    &&& i + 24 <= data.len()
    &&& data[i] == FRAME_START
    &&& data[i + 23] == FRAME_END
}

/// The 24 bytes of `data` that start at offset `i`.
pub open spec fn frame_bytes(data: Seq<u8>, i: int) -> Seq<u8> {
    data.subrange(i, i + 24)
}

/// A well-formed frame with a matching checksum starts at offset `i`.
pub open spec fn valid_frame_at(data: Seq<u8>, i: int) -> bool {
    frame_at(data, i) && checksum_ok(frame_bytes(data, i))
}

/// Offset `i` holds the last valid frame of `data`.
pub open spec fn latest_valid(data: Seq<u8>, i: int) -> bool {
    &&& valid_frame_at(data, i)
    &&& forall|j: int| i < j ==> !valid_frame_at(data, j)
}

/// Offset `i` holds the last well-formed frame of `data`.
pub open spec fn latest_frame(data: Seq<u8>, i: int) -> bool {
    &&& frame_at(data, i)
    &&& forall|j: int| i < j ==> !frame_at(data, j)
}

/// Offset `i` is the frame that parsing prefers: the most recent valid frame,
/// or, when no frame of `data` validates, the most recent well-formed one.
pub open spec fn preferred(data: Seq<u8>, i: int) -> bool {
    ||| latest_valid(data, i)
    ||| ((forall|j: int| !valid_frame_at(data, j)) && latest_frame(data, i))
}

/// The offset of the preferred frame of `data`, if `data` holds any
/// well-formed frame.
pub open spec fn preferred_frame(data: Seq<u8>) -> Option<int> {
    if exists|i: int| preferred(data, i) {
        Some(choose|i: int| preferred(data, i))
    } else {
        None
    }
}

/// What parsing `data` yields: the preferred frame decoded, or a blank
/// snapshot when there is no frame. Either way `data` is recorded as the raw
/// bytes.
pub open spec fn parsed_from(data: Seq<u8>) -> Snapshot {
    match preferred_frame(data) {
        Some(i) => decoded(frame_bytes(data, i), data),
        None => blank(data),
    }
}

/// At most one offset is preferred, so `preferred_frame` names it.
pub proof fn preferred_frame_is(data: Seq<u8>, i: int)
    requires
        preferred(data, i),
    ensures
        preferred_frame(data) == Some(i),
{
    let c = choose|k: int| preferred(data, k);
    assert(preferred(data, c));
}

/// Without a well-formed frame there is no preferred frame.
pub proof fn preferred_frame_none(data: Seq<u8>)
    requires
        forall|j: int| !frame_at(data, j),
    ensures
        preferred_frame(data) is None,
{
    assert forall|i: int| !preferred(data, i) by {
        assert(!frame_at(data, i));
    }
}

/// Every buffer that contains a valid frame parses to a snapshot flagged
/// valid, whose fields are those of the last valid frame in the buffer.
pub proof fn valid_frame_parses_valid(data: Seq<u8>, i: int)
    requires
        valid_frame_at(data, i),
    ensures
        parsed_from(data).valid,
        preferred_frame(data) matches Some(k) && latest_valid(data, k) && parsed_from(data)
            == decoded(frame_bytes(data, k), data),
{
    let k = last_valid_from(data, data.len() as int);
    last_valid_from_spec(data, data.len() as int);
    assert(latest_valid(data, k));
    preferred_frame_is(data, k);
}

/// The greatest offset below `end` at which a valid frame starts, or -1
/// when there is none.
spec fn last_valid_from(data: Seq<u8>, end: int) -> int
    decreases end,
{
    if end <= 0 {
        -1
    } else if valid_frame_at(data, end - 1) {
        end - 1
    } else {
        last_valid_from(data, end - 1)
    }
}

/// `last_valid_from` finds a valid frame when it finds anything, and no
/// valid frame starts between its result and `end`.
proof fn last_valid_from_spec(data: Seq<u8>, end: int)
    ensures
        last_valid_from(data, end) >= 0 ==> valid_frame_at(data, last_valid_from(data, end)),
        forall|j: int| last_valid_from(data, end) < j < end ==> !valid_frame_at(data, j),
    decreases end,
{
    if end > 0 && !valid_frame_at(data, end - 1) {
        last_valid_from_spec(data, end - 1);
    }
}

/// Copies the 24 bytes at offset `start` of `data` into an array.
pub fn frame_array(data: &[u8], start: usize) -> (frame: [u8; 24])
    requires
        start + 24 <= data@.len(),
    ensures
        frame@ == frame_bytes(data@, start as int),
{
    let mut frame = [0u8; 24];
    let mut k: usize = 0;
    while k < 24
        invariant
            k <= 24,
            start + 24 <= data.len(),
            forall|j: int| 0 <= j < k ==> frame@[j] == data@[start + j],
        decreases 24 - k,
    {
        frame[k] = data[start + k];
        k += 1;
    }
    proof {
        assert(frame@ =~= frame_bytes(data@, start as int));
    }
    frame
}

/// Searches `data` from its end for the most recent well-formed frame; with
/// `need_valid`, for the most recent one whose checksum matches.
pub fn find_latest(data: &[u8], need_valid: bool) -> (found: Option<usize>)
    ensures
        match found {
            Some(i) => if need_valid {
                latest_valid(data@, i as int)
            } else {
                latest_frame(data@, i as int)
            },
            None => if need_valid {
                forall|j: int| !valid_frame_at(data@, j)
            } else {
                forall|j: int| !frame_at(data@, j)
            },
        },
{
    if data.len() < 24 {
        return None;
    }
    let mut i: usize = data.len() - 23;
    while i > 0
        invariant
            i + 23 <= data@.len(),
            need_valid ==> forall|j: int| i <= j ==> !valid_frame_at(data@, j),
            !need_valid ==> forall|j: int| i <= j ==> !frame_at(data@, j),
        decreases i,
    {
        i -= 1;
        if data[i] == FRAME_START && data[i + 23] == FRAME_END {
            if need_valid {
                let frame = frame_array(data, i);
                if compute_checksum(&frame) == frame[22] {
                    return Some(i);
                }
            } else {
                return Some(i);
            }
        }
    }
    None
}

/// Parses one read's worth of bytes. The most recent valid frame in `data`
/// is decoded; when none validates, the most recent well-formed frame is
/// decoded and flagged invalid; when there is no frame at all the snapshot is
/// blank. `data` itself is recorded as the raw bytes.
pub fn parse_data(data: &[u8]) -> (parsed: ParsedData)
    ensures
        parsed@ == parsed_from(data@),
{
    let found = match find_latest(data, true) {
        Some(i) => Some(i),
        None => find_latest(data, false),
    };
    match found {
        Some(i) => {
            proof {
                preferred_frame_is(data@, i as int);
            }
            let frame = frame_array(data, i);
            let mut parsed = decode(&frame);
            parsed.raw_data = copy_bytes(data);
            parsed
        },
        None => {
            proof {
                preferred_frame_none(data@);
            }
            let mut parsed = ParsedData::default();
            parsed.raw_data = copy_bytes(data);
            parsed
        },
    }
}

} // verus!
