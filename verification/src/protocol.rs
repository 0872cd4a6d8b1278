//! The frames of the upload protocol: address, function code, sequence
//! number, length and payload, closed by an additive checksum.

use vstd::prelude::*;
use crate::bytes::copy_bytes;

verus! {

/// Sum of all bytes of `s`, as a mathematical integer.
pub open spec fn byte_sum(s: Seq<u8>) -> int
    decreases s.len(),
{
    if s.len() == 0 {
        0
    } else {
        byte_sum(s.drop_last()) + s.last() as int
    }
}

/// The additive-complement checksum of `s`: the value that, added to the byte
/// sum, gives a multiple of 256. Always in `0..256`.
pub open spec fn additive_checksum(s: Seq<u8>) -> int {
    (256 - byte_sum(s) % 256) % 256
}

/// Computes the additive-complement checksum of `data`.
pub fn calc_checksum(data: &[u8]) -> (checksum: u16)
    ensures
        checksum as int == additive_checksum(data@),
        checksum < 256,
{
    let mut sum: u16 = 0;
    let mut i: usize = 0;
    while i < data.len()
        invariant
            i <= data.len(),
            sum as int == byte_sum(data@.take(i as int)) % 256,
        decreases data.len() - i,
    {
        proof {
            assert(data@.take(i + 1).drop_last() =~= data@.take(i as int));
        }
        sum = (sum + data[i] as u16) % 256;
        i += 1;
    }
    proof {
        assert(data@.take(i as int) =~= data@);
    }
    (256 - sum) % 256
}

/// Address of the device on the link.
pub const DEVICE_ADDR: u8 = 0x01;

/// Function code of a data frame and of the end-of-transfer frame.
pub const FUNC_SEND_DATA: u8 = 0x01;

/// Function code of the frame that carries the image's CRC32.
pub const FUNC_SEND_CRC: u8 = 0x06;

/// Largest payload of one data frame.
pub const MAX_DATA_LEN: usize = 512;

/// The bytes before the checksum: address, function code, sequence number,
/// the payload's length modulo 256, then the payload.
pub open spec fn frame_body(device_addr: u8, func_type: u8, seq: u8, payload: Seq<u8>) -> Seq<u8> {
    seq![device_addr, func_type, seq, (payload.len() % 256) as u8] + payload
}

/// A protocol frame on the wire: the body followed by its additive checksum
/// in two bytes, high byte first. The checksum never exceeds 255, so the
/// high byte is always zero.
pub open spec fn encoded(device_addr: u8, func_type: u8, seq: u8, payload: Seq<u8>) -> Seq<u8> {
    let body = frame_body(device_addr, func_type, seq, payload);
    body + seq![0u8, additive_checksum(body) as u8]
}

/// The four bytes of `crc`, least significant first.
pub open spec fn crc_le_bytes(crc: u32) -> Seq<u8> {
    seq![
        (crc & 0xFF) as u8,
        ((crc >> 8) & 0xFF) as u8,
        ((crc >> 16) & 0xFF) as u8,
        ((crc >> 24) & 0xFF) as u8,
    ]
}

/// One frame of the upload protocol before encoding.
#[derive(Debug)]
pub struct ProtocolFrame {
    pub device_addr: u8,
    pub func_type: u8,
    pub seq: u8,
    pub data: Vec<u8>,
}

impl ProtocolFrame {
    /// A frame with the given fields.
    pub fn new(device_addr: u8, func_type: u8, seq: u8, data: Vec<u8>) -> (frame: Self)
        ensures
            frame.device_addr == device_addr,
            frame.func_type == func_type,
            frame.seq == seq,
            frame.data == data,
    {
        ProtocolFrame { device_addr, func_type, seq, data }
    }

    /// The frame as it goes on the wire.
    pub open spec fn wire(&self) -> Seq<u8> {
        encoded(self.device_addr, self.func_type, self.seq, self.data@)
    }

    /// Encodes the frame.
    pub fn to_bytes(&self) -> (bytes: Vec<u8>)
        ensures
            bytes@ == self.wire(),
            bytes@.len() == self.data@.len() + 6,
    {
        let mut frame: Vec<u8> = Vec::new();
        frame.push(self.device_addr);
        frame.push(self.func_type);
        frame.push(self.seq);
        frame.push((self.data.len() % 256) as u8);
        let mut i: usize = 0;
        while i < self.data.len()
            invariant
                i <= self.data.len(),
                frame@ == seq![
                    self.device_addr,
                    self.func_type,
                    self.seq,
                    (self.data@.len() % 256) as u8,
                ] + self.data@.take(i as int),
            decreases self.data.len() - i,
        {
            frame.push(self.data[i]);
            proof {
                assert(self.data@.take(i + 1) =~= self.data@.take(i as int).push(
                    self.data@[i as int],
                ));
            }
            i += 1;
        }
        proof {
            assert(self.data@.take(i as int) =~= self.data@);
        }
        let checksum: u16 = calc_checksum(frame.as_slice());
        assert(checksum < 256 ==> (checksum >> 8) == 0) by (bit_vector);
        frame.push((checksum >> 8) as u8);
        frame.push(checksum as u8);
        proof {
            assert(frame@ =~= self.wire());
        }
        frame
    }
}

/// Encodes a data frame that carries `payload`.
pub fn encode_data_frame(address: u8, sequence: u8, payload: &[u8]) -> (bytes: Vec<u8>)
    ensures
        bytes@ == encoded(address, FUNC_SEND_DATA, sequence, payload@),
{
    ProtocolFrame::new(address, FUNC_SEND_DATA, sequence, copy_bytes(payload)).to_bytes()
}

/// Encodes the frame that carries the image's CRC32, least significant byte
/// first.
pub fn encode_crc_frame(address: u8, sequence: u8, crc: u32) -> (bytes: Vec<u8>)
    ensures
        bytes@ == encoded(address, FUNC_SEND_CRC, sequence, crc_le_bytes(crc)),
{
    let mut payload: Vec<u8> = Vec::new();
    assert((crc & 0xFF) < 256 && ((crc >> 8) & 0xFF) < 256 && ((crc >> 16) & 0xFF) < 256 && ((crc
        >> 24) & 0xFF) < 256) by (bit_vector);
    payload.push((crc & 0xFF) as u8);
    payload.push(((crc >> 8) & 0xFF) as u8);
    payload.push(((crc >> 16) & 0xFF) as u8);
    payload.push(((crc >> 24) & 0xFF) as u8);
    proof {
        assert(payload@ =~= crc_le_bytes(crc));
    }
    ProtocolFrame::new(address, FUNC_SEND_CRC, sequence, payload).to_bytes()
}

/// Encodes the end-of-transfer frame: a data frame without payload.
pub fn encode_end_frame(address: u8, sequence: u8) -> (bytes: Vec<u8>)
    ensures
        bytes@ == encoded(address, FUNC_SEND_DATA, sequence, Seq::empty()),
{
    ProtocolFrame::new(address, FUNC_SEND_DATA, sequence, Vec::new()).to_bytes()
}

} // verus!
