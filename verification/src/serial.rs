//! The receive side of the serial link: a bounded buffer of undelivered bytes
//! and the search for the next telemetry frame in it.

use vstd::prelude::*;
use crate::error::ErrorKind;
use crate::bytes::copy_bytes;
use crate::telemetry::{frame_array, frame_at, frame_bytes, FRAME_END, FRAME_START};

verus! {

/// Default ceiling of the receive buffer, in bytes.
pub const BUFFER_CEILING: usize = 1024;

/// Offset `i` holds the first well-formed frame of `data`.
pub open spec fn first_frame(data: Seq<u8>, i: int) -> bool {
    &&& frame_at(data, i)
    &&& forall|j: int| j < i ==> !frame_at(data, j)
}

/// The offset of the first well-formed frame of `data`, if there is one.
pub open spec fn first_frame_offset(data: Seq<u8>) -> Option<int> {
    if exists|i: int| first_frame(data, i) {
        Some(choose|i: int| first_frame(data, i))
    } else {
        None
    }
}

/// Offset `i` holds the last start marker of `data`.
pub open spec fn last_marker(data: Seq<u8>, i: int) -> bool {
    &&& 0 <= i < data.len()
    &&& data[i] == FRAME_START
    &&& forall|j: int| i < j < data.len() ==> data[j] != FRAME_START
}

/// What oversize trimming leaves of `data`: all of it while it is within the
/// ceiling; beyond that, the part from its last start marker on, or nothing
/// when it holds no start marker.
pub open spec fn trimmed(data: Seq<u8>, ceiling: nat) -> Seq<u8> {
    if data.len() <= ceiling {
        data
    } else if exists|i: int| last_marker(data, i) {
        data.skip(choose|i: int| last_marker(data, i))
    } else {
        Seq::empty()
    }
}

/// The first frame of a buffer is unique, so `first_frame_offset` names it.
pub proof fn first_frame_offset_is(data: Seq<u8>, i: int)
    requires
        first_frame(data, i),
    ensures
        first_frame_offset(data) == Some(i),
{
    let c = choose|k: int| first_frame(data, k);
    assert(first_frame(data, c));
    if c < i {
        assert(!frame_at(data, c));
    }
    if i < c {
        assert(!frame_at(data, i));
    }
}

/// A buffer in which no offset carries both markers has no first frame.
pub proof fn first_frame_offset_none(data: Seq<u8>)
    requires
        forall|j: int| !frame_at(data, j),
    ensures
        first_frame_offset(data) is None,
{
    assert forall|i: int| !first_frame(data, i) by {
        assert(!frame_at(data, i));
    }
}

/// The last start marker of a buffer is unique.
pub proof fn last_marker_unique(data: Seq<u8>, i: int, k: int)
    requires
        last_marker(data, i),
        last_marker(data, k),
    ensures
        i == k,
{
}

/// Shape of a trimmed buffer: it is a suffix of the buffer before trimming,
/// and it is either that whole buffer, within the ceiling, or empty, or it
/// begins with the start marker and holds no other.
pub proof fn trimmed_shape(data: Seq<u8>, ceiling: nat)
    ensures
        trimmed(data, ceiling).len() <= data.len(),
        trimmed(data, ceiling) == data.skip(data.len() - trimmed(data, ceiling).len()),
        ({
            ||| (data.len() <= ceiling && trimmed(data, ceiling) == data)
            ||| trimmed(data, ceiling).len() == 0
            ||| (trimmed(data, ceiling)[0] == FRAME_START && forall|j: int|
                0 < j < trimmed(data, ceiling).len() ==> trimmed(data, ceiling)[j] != FRAME_START)
        }),
{
    let t = trimmed(data, ceiling);
    if data.len() <= ceiling {
        assert(data.skip(0) =~= data);
    } else if exists|i: int| last_marker(data, i) {
        let c = choose|i: int| last_marker(data, i);
        assert(last_marker(data, c));
        assert(t == data.skip(c));
        assert(t[0] == data[c]);
        assert forall|j: int| 0 < j < t.len() implies t[j] != FRAME_START by {
            assert(t[j] == data[c + j]);
        }
    } else {
        assert(data.skip(data.len() as int) =~= Seq::<u8>::empty());
    }
}

/// Trimming bounds the buffer by the ceiling whenever the last start marker,
/// if the buffer holds one, lies within its final `ceiling` bytes. (A start
/// marker further back is kept with all that follows it, since a frame may
/// still begin there.)
pub proof fn trimmed_within_ceiling(data: Seq<u8>, ceiling: nat)
    requires
        forall|i: int| last_marker(data, i) ==> data.len() - i <= ceiling,
    ensures
        trimmed(data, ceiling).len() <= ceiling,
{
    if data.len() > ceiling && exists|i: int| last_marker(data, i) {
        let c = choose|i: int| last_marker(data, i);
        assert(last_marker(data, c));
    }
}

/// The receive side of one serial link: whether the port is open, the bytes
/// received and not yet delivered as a frame, and the ceiling beyond which
/// the buffer is trimmed.
pub struct SerialManager {
    connected: bool,
    buffer: Vec<u8>,
    ceiling: usize,
}

impl SerialManager {
    /// Whether the port is open.
    pub closed spec fn connected(&self) -> bool {
        self.connected
    }

    /// The bytes received and not yet consumed, oldest first.
    pub closed spec fn pending(&self) -> Seq<u8> {
        self.buffer@
    }

    /// The ceiling of the buffer.
    pub closed spec fn ceiling(&self) -> nat {
        self.ceiling as nat
    }

    /// A manager for a freshly opened port, with the default ceiling.
    pub fn new() -> (manager: Self)
        ensures
            manager.connected(),
            manager.pending() == Seq::<u8>::empty(),
            manager.ceiling() == BUFFER_CEILING,
    {
        SerialManager { connected: true, buffer: Vec::new(), ceiling: BUFFER_CEILING }
    }

    /// A manager for a freshly opened port, with a ceiling of the caller's
    /// choice.
    pub fn with_ceiling(ceiling: usize) -> (manager: Self)
        ensures
            manager.connected(),
            manager.pending() == Seq::<u8>::empty(),
            manager.ceiling() == ceiling,
    {
        SerialManager { connected: true, buffer: Vec::new(), ceiling }
    }

    /// Whether the port is open.
    pub fn is_connected(&self) -> (connected: bool)
        ensures
            connected == self.connected(),
    {
        self.connected
    }

    /// A copy of the bytes received and not yet consumed.
    pub fn buffered(&self) -> (bytes: Vec<u8>)
        ensures
            bytes@ == self.pending(),
    {
        copy_bytes(self.buffer.as_slice())
    }

    /// Adds newly read bytes to the tail of the buffer.
    pub fn append(&mut self, bytes: &[u8])
        ensures
            final(self).pending() == old(self).pending() + bytes@,
            final(self).connected() == old(self).connected(),
            final(self).ceiling() == old(self).ceiling(),
    {
        let mut i: usize = 0;
        while i < bytes.len()
            invariant
                i <= bytes.len(),
                self.buffer@ == old(self).buffer@ + bytes@.take(i as int),
                self.connected == old(self).connected,
                self.ceiling == old(self).ceiling,
            decreases bytes.len() - i,
        {
            self.buffer.push(bytes[i]);
            proof {
                assert(bytes@.take(i + 1) =~= bytes@.take(i as int).push(bytes@[i as int]));
            }
            i += 1;
        }
        proof {
            assert(bytes@.take(i as int) =~= bytes@);
        }
    }

    /// Takes the first well-formed frame out of the buffer, together with
    /// everything before it. Without a frame the buffer is left as it is.
    pub fn extract_frame(&mut self) -> (found: Option<[u8; 24]>)
        ensures
            match first_frame_offset(old(self).pending()) {
                Some(i) => {
                    &&& found matches Some(frame)
                    &&& frame@ == frame_bytes(old(self).pending(), i)
                    &&& final(self).pending() == old(self).pending().skip(i + 24)
                },
                None => found is None && final(self).pending() == old(self).pending(),
            },
            final(self).connected() == old(self).connected(),
            final(self).ceiling() == old(self).ceiling(),
    {
        let len: usize = self.buffer.len();
        if len < 24 {
            proof {
                first_frame_offset_none(self.buffer@);
            }
            return None;
        }
        let mut i: usize = 0;
        while i <= len - 24
            invariant
                24 <= len == self.buffer@.len(),
                self.buffer@ == old(self).buffer@,
                self.connected == old(self).connected,
                self.ceiling == old(self).ceiling,
                forall|j: int| j < i ==> !frame_at(self.buffer@, j),
            decreases len - i,
        {
            if self.buffer[i] == FRAME_START && self.buffer[i + 23] == FRAME_END {
                proof {
                    first_frame_offset_is(self.buffer@, i as int);
                }
                let frame = frame_array(self.buffer.as_slice(), i);
                let rest = self.buffer.split_off(i + 24);
                self.buffer = rest;
                proof {
                    assert(self.buffer@ =~= old(self).buffer@.skip(i + 24));
                }
                return Some(frame);
            }
            i += 1;
        }
        proof {
            first_frame_offset_none(self.buffer@);
        }
        None
    }

    /// Applies the oversize policy: a buffer beyond the ceiling is cut down
    /// to start at its last start marker, or emptied when it holds none.
    pub fn trim(&mut self)
        ensures
            final(self).pending() == trimmed(old(self).pending(), old(self).ceiling()),
            final(self).connected() == old(self).connected(),
            final(self).ceiling() == old(self).ceiling(),
    {
        let len: usize = self.buffer.len();
        if len <= self.ceiling {
            return ;
        }
        let mut i: usize = len;
        while i > 0
            invariant
                i <= len,
                len == self.buffer@.len(),
                len > self.ceiling,
                self.buffer@ == old(self).buffer@,
                self.connected == old(self).connected,
                self.ceiling == old(self).ceiling,
                forall|j: int| i <= j < len ==> self.buffer@[j] != FRAME_START,
            decreases i,
        {
            i -= 1;
            if self.buffer[i] == FRAME_START {
                proof {
                    assert(last_marker(self.buffer@, i as int));
                    let c = choose|k: int| last_marker(self.buffer@, k);
                    last_marker_unique(self.buffer@, i as int, c);
                }
                let rest = self.buffer.split_off(i);
                self.buffer = rest;
                proof {
                    assert(self.buffer@ =~= old(self).buffer@.skip(i as int));
                }
                return ;
            }
        }
        proof {
            assert forall|k: int| !last_marker(self.buffer@, k) by {
                if 0 <= k < len {
                    assert(self.buffer@[k] != FRAME_START);
                }
            }
        }
        self.buffer.clear();
    }

    /// One receive cycle: `received` holds the bytes that the port delivered
    /// (possibly none). They join the buffer, and the first frame in it is
    /// taken out. When no frame is found the bytes stay for the next cycle,
    /// subject to the oversize policy. A closed port is an error and leaves
    /// the buffer untouched.
    pub fn read(&mut self, received: &[u8]) -> (outcome: Result<Option<[u8; 24]>, ErrorKind>)
        ensures
            read_outcome(*old(self), received@, *final(self), outcome),
    {
        if !self.connected {
            return Err(ErrorKind::TransportNotConnected);
        }
        self.append(received);
        let found = self.extract_frame();
        if found.is_none() {
            self.trim();
        }
        Ok(found)
    }

    /// Offers `data` for writing: the bytes to put on the wire when the port
    /// is open, an error when it is not.
    pub fn send(&self, data: &[u8]) -> (outgoing: Result<Vec<u8>, ErrorKind>)
        ensures
            self.connected() ==> (outgoing matches Ok(bytes) && bytes@ == data@),
            !self.connected() ==> outgoing == Err::<Vec<u8>, ErrorKind>(
                ErrorKind::TransportNotConnected,
            ),
    {
        if self.connected {
            Ok(copy_bytes(data))
        } else {
            Err(ErrorKind::TransportNotConnected)
        }
    }

    /// Marks the port closed. Buffered bytes are kept.
    pub fn close(&mut self)
        ensures
            !final(self).connected(),
            final(self).pending() == old(self).pending(),
            final(self).ceiling() == old(self).ceiling(),
    {
        self.connected = false;
    }
}

/// How one receive cycle relates the manager before (`pre`) and after
/// (`post`), the bytes received and what the cycle returns.
pub open spec fn read_outcome(
    pre: SerialManager,
    received: Seq<u8>,
    post: SerialManager,
    outcome: Result<Option<[u8; 24]>, ErrorKind>,
) -> bool {
    let all = pre.pending() + received;
    &&& post.connected() == pre.connected()
    &&& post.ceiling() == pre.ceiling()
    &&& if !pre.connected() {
        &&& outcome == Err::<Option<[u8; 24]>, ErrorKind>(ErrorKind::TransportNotConnected)
        &&& post.pending() == pre.pending()
    } else {
        match first_frame_offset(all) {
            Some(i) => {
                &&& outcome matches Ok(Some(frame))
                &&& frame@ == frame_bytes(all, i)
                &&& post.pending() == all.skip(i + 24)
            },
            None => {
                &&& outcome == Ok::<Option<[u8; 24]>, ErrorKind>(None)
                &&& post.pending() == trimmed(all, pre.ceiling())
            },
        }
    }
}


/// A receive cycle on a buffer in which no 24 consecutive bytes carry both
/// markers delivers no frame and consumes nothing: the bytes stay, subject
/// only to the oversize policy.
pub proof fn no_marker_pair_no_frame(
    pre: SerialManager,
    received: Seq<u8>,
    post: SerialManager,
    outcome: Result<Option<[u8; 24]>, ErrorKind>,
)
    requires
        read_outcome(pre, received, post, outcome),
        pre.connected(),
        forall|i: int| !frame_at(pre.pending() + received, i),
    ensures
        outcome == Ok::<Option<[u8; 24]>, ErrorKind>(None),
        post.pending() == trimmed(pre.pending() + received, pre.ceiling()),
        (pre.pending() + received).len() <= pre.ceiling() ==> post.pending() == pre.pending()
            + received,
{
    first_frame_offset_none(pre.pending() + received);
}

} // verus!
