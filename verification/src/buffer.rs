//! The byte buffer that a render pass is written into: it has a fixed
//! capacity and never holds more.

use byteorder::{LittleEndian, WriteBytesExt};
use vstd::prelude::*;
use crate::command::{le_bytes_u16, le_bytes_u32};

verus! {

/// The capacity of the buffer that the host reads a render pass from.
pub const RENDER_COMMAND_BUFFER_SIZE: usize = 1024 * 100;

/// `WriteBytesExt::write_u8` of byteorder, on a vector, which takes every
/// write: the byte is appended.
#[verifier::external_body]
fn append_u8(out: &mut Vec<u8>, n: u8)
    ensures
        final(out)@ == old(out)@.push(n),
{
    let _ = out.write_u8(n);
}

/// `WriteBytesExt::write_u16` of byteorder with `LittleEndian`, on a vector,
/// which takes every write: the two bytes of the number are appended, the low
/// one first.
#[verifier::external_body]
fn append_u16(out: &mut Vec<u8>, n: u16)
    ensures
        final(out)@ == old(out)@ + le_bytes_u16(n),
{
    let _ = out.write_u16::<LittleEndian>(n);
}

/// `WriteBytesExt::write_u32` of byteorder with `LittleEndian`, on a vector,
/// which takes every write: the four bytes of the number are appended, the
/// lowest first.
#[verifier::external_body]
fn append_u32(out: &mut Vec<u8>, n: u32)
    ensures
        final(out)@ == old(out)@ + le_bytes_u32(n),
{
    let _ = out.write_u32::<LittleEndian>(n);
}

/// A byte buffer of fixed capacity, written from the start.
///
/// The buffer remembers every byte that it was asked to take: the stream
/// requested. While that stream fits, the buffer holds exactly it. Once it no
/// longer fits, the buffer has overflowed and stays so until it is cleared.
pub struct CommandBuffer {
    bytes: Vec<u8>,
    capacity: usize,
    overflowed: bool,
    requested: Ghost<Seq<u8>>,
}

impl View for CommandBuffer {
    type V = Seq<u8>;

    /// The bytes that the buffer holds: the stream requested, or nothing once
    /// that stream no longer fits.
    open spec fn view(&self) -> Seq<u8> {
        if self.overflowed_spec() {
            Seq::empty()
        } else {
            self.requested()
        }
    }
}

impl CommandBuffer {
    /// What every buffer keeps: it has overflowed exactly if the stream
    /// requested is longer than its capacity; until then it holds that
    /// stream, and from then on nothing.
    pub closed spec fn wf(&self) -> bool {
        &&& self.overflowed <==> self.requested@.len() > self.capacity
        &&& !self.overflowed ==> self.bytes@ == self.requested@
        &&& self.overflowed ==> self.bytes@ == Seq::<u8>::empty()
    }

    /// Every byte that the buffer was asked to take since it was last empty.
    pub closed spec fn requested(&self) -> Seq<u8> {
        self.requested@
    }

    /// The number of bytes that the buffer can hold.
    pub closed spec fn capacity_spec(&self) -> usize {
        self.capacity
    }

    /// Whether more was requested than the buffer can hold.
    pub open spec fn overflowed_spec(&self) -> bool {
        self.requested().len() > self.capacity_spec()
    }

    /// An empty buffer that can hold `capacity` bytes.
    pub fn new(capacity: usize) -> (r: CommandBuffer)
        ensures
            r.wf(),
            r.capacity_spec() == capacity,
            r.requested() == Seq::<u8>::empty(),
            r@ == Seq::<u8>::empty(),
    {
        CommandBuffer {
            bytes: Vec::new(),
            capacity,
            overflowed: false,
            requested: Ghost(Seq::empty()),
        }
    }

    /// Empties the buffer and forgets an overflow.
    pub fn clear(&mut self)
        ensures
            final(self).wf(),
            final(self).capacity_spec() == old(self).capacity_spec(),
            final(self).requested() == Seq::<u8>::empty(),
            final(self)@ == Seq::<u8>::empty(),
    {
        self.bytes.clear();
        self.overflowed = false;
        self.requested = Ghost(Seq::empty());
    }

    /// The number of bytes that the buffer can hold.
    #[verifier::when_used_as_spec(capacity_spec)]
    pub fn capacity(&self) -> (r: usize)
        ensures
            r == self.capacity_spec(),
    {
        self.capacity
    }

    /// Whether more was requested than the buffer can hold.
    #[verifier::when_used_as_spec(overflowed_spec)]
    pub fn has_overflowed(&self) -> (r: bool)
        requires
            self.wf(),
        ensures
            r == self.overflowed_spec(),
    {
        self.overflowed
    }

    /// The bytes in the buffer.
    pub fn as_slice(&self) -> (r: &[u8])
        requires
            self.wf(),
        ensures
            r@ == self@,
            r@.len() <= self.capacity_spec(),
    {
        self.bytes.as_slice()
    }

    /// Takes one byte, if there is room for it.
    pub fn write_u8(&mut self, n: u8)
        requires
            old(self).wf(),
        ensures
            final(self).wf(),
            final(self).capacity_spec() == old(self).capacity_spec(),
            final(self).requested() == old(self).requested().push(n),
    {
        if !self.overflowed && self.capacity - self.bytes.len() >= 1 {
            append_u8(&mut self.bytes, n);
        } else {
            self.overflowed = true;
            self.bytes.clear();
        }
        self.requested = Ghost(self.requested@.push(n));
    }

    /// Takes a 16-bit number, the low byte first, if there is room for it.
    pub fn write_u16(&mut self, n: u16)
        requires
            old(self).wf(),
        ensures
            final(self).wf(),
            final(self).capacity_spec() == old(self).capacity_spec(),
            final(self).requested() == old(self).requested() + le_bytes_u16(n),
    {
        if !self.overflowed && self.capacity - self.bytes.len() >= 2 {
            append_u16(&mut self.bytes, n);
        } else {
            self.overflowed = true;
            self.bytes.clear();
        }
        self.requested = Ghost(self.requested@ + le_bytes_u16(n));
    }

    /// Takes a 32-bit number, the lowest byte first, if there is room for it.
    pub fn write_u32(&mut self, n: u32)
        requires
            old(self).wf(),
        ensures
            final(self).wf(),
            final(self).capacity_spec() == old(self).capacity_spec(),
            final(self).requested() == old(self).requested() + le_bytes_u32(n),
    {
        if !self.overflowed && self.capacity - self.bytes.len() >= 4 {
            append_u32(&mut self.bytes, n);
        } else {
            self.overflowed = true;
            self.bytes.clear();
        }
        self.requested = Ghost(self.requested@ + le_bytes_u32(n));
    }
}

} // verus!
