//! A TCP segment owned as one byte buffer, with accessors for its header.
use crate::checksum::{ipv4_checksum, tcp_checksum, CHECKSUM_WORD, MAX_SEGMENT_LEN, PROTOCOL_TCP};
use crate::layout::{
    ack_number, checksum_field, dest_port, flags, payload_of, put16, put32, seq_number,
    src_port, window_size, with_data_offset, with_flags, ACK_OFFSET, CHECKSUM_OFFSET,
    DATA_OFFSET_OFFSET, DEST_PORT_OFFSET, FLAGS_OFFSET, HEADER_LEN, SEQ_OFFSET,
    SRC_PORT_OFFSET, WINDOW_OFFSET,
};
use vstd::prelude::*;
use vstd::slice::slice_subrange;

verus! {

/// Why a buffer could not be made into, or written as, a segment.
#[derive(Debug, Clone, Copy, PartialEq, Eq, Structural)]
pub enum PacketError {
    /// The bytes are fewer than a header needs.
    BufferTooShort,
    /// The payload given is not as long as the room the segment has for it.
    PayloadLengthMismatch,
}

/// A TCP segment: a 20-byte header followed by the payload.
#[derive(Clone)]
pub struct TCPPacket {
    buffer: Vec<u8>,
}

impl View for TCPPacket {
    type V = Seq<u8>;

    closed spec fn view(&self) -> Seq<u8> {
        self.buffer@
    }
}

impl TCPPacket {
    /// The buffer holds at least a whole header.
    pub open spec fn wf(&self) -> bool {
        self@.len() >= HEADER_LEN
    }

    /// A segment with a zeroed header and `payload_len` zero bytes of payload.
    pub fn new(payload_len: usize) -> (r: Self)
        requires
            payload_len <= usize::MAX - HEADER_LEN,
        ensures
            r.wf(),
            r@ == Seq::new((HEADER_LEN + payload_len) as nat, |i: int| 0u8),
    {
        let buffer = vec![0u8; HEADER_LEN + payload_len];
        let r = Self { buffer };
        assert(r@ =~= Seq::new((HEADER_LEN + payload_len) as nat, |i: int| 0u8));
        r
    }

    /// The segment held in `bytes`, which must hold at least a header.
    pub fn from_bytes(bytes: Vec<u8>) -> (r: Result<Self, PacketError>)
        ensures
            match r {
                Ok(p) => p.wf() && p@ == bytes@,
                Err(e) => e == PacketError::BufferTooShort,
            },
            r is Ok <==> bytes@.len() >= HEADER_LEN,
    {
        if bytes.len() < HEADER_LEN {
            Err(PacketError::BufferTooShort)
        } else {
            Ok(Self { buffer: bytes })
        }
    }

    fn read16(&self, off: usize) -> (r: u16)
        requires
            self.wf(),
            off + 2 <= HEADER_LEN,
        ensures
            r == crate::layout::be16(self@, off as int),
    {
        (self.buffer[off] as u16) * 256 + (self.buffer[off + 1] as u16)
    }

    fn write16(&mut self, off: usize, v: u16)
        requires
            old(self).wf(),
            off + 2 <= HEADER_LEN,
        ensures
            final(self)@ == put16(old(self)@, off as int, v),
            final(self).wf(),
    {
        self.buffer.set(off, (v / 256) as u8);
        self.buffer.set(off + 1, (v % 256) as u8);
    }

    fn read32(&self, off: usize) -> (r: u32)
        requires
            self.wf(),
            off + 4 <= HEADER_LEN,
        ensures
            r == crate::layout::be32(self@, off as int),
    {
        (self.read16(off) as u32) * 65536 + (self.read16(off + 2) as u32)
    }

    fn write32(&mut self, off: usize, v: u32)
        requires
            old(self).wf(),
            off + 4 <= HEADER_LEN,
        ensures
            final(self)@ == put32(old(self)@, off as int, v),
    {
        self.write16(off, (v / 65536) as u16);
        self.write16(off + 2, (v % 65536) as u16);
    }

    /// The source port.
    pub fn get_src(&self) -> (r: u16)
        requires
            self.wf(),
        ensures
            r == src_port(self@),
    {
        self.read16(SRC_PORT_OFFSET)
    }

    /// The destination port.
    pub fn get_dest(&self) -> (r: u16)
        requires
            self.wf(),
        ensures
            r == dest_port(self@),
    {
        self.read16(DEST_PORT_OFFSET)
    }

    /// The sequence number.
    pub fn get_seq(&self) -> (r: u32)
        requires
            self.wf(),
        ensures
            r == seq_number(self@),
    {
        self.read32(SEQ_OFFSET)
    }

    /// The acknowledgment number.
    pub fn get_ack(&self) -> (r: u32)
        requires
            self.wf(),
        ensures
            r == ack_number(self@),
    {
        self.read32(ACK_OFFSET)
    }

    /// The flags byte (SYN, ACK, PSH, RST, FIN, URG bits).
    pub fn get_flag(&self) -> (r: u8)
        requires
            self.wf(),
        ensures
            r == flags(self@),
    {
        self.buffer[FLAGS_OFFSET]
    }

    /// The window size.
    pub fn get_window_size(&self) -> (r: u16)
        requires
            self.wf(),
        ensures
            r == window_size(self@),
    {
        self.read16(WINDOW_OFFSET)
    }

    /// The checksum field as stored.
    pub fn get_checksum(&self) -> (r: u16)
        requires
            self.wf(),
        ensures
            r == checksum_field(self@),
    {
        self.read16(CHECKSUM_OFFSET)
    }

    pub fn set_src(&mut self, port: u16)
        requires
            old(self).wf(),
        ensures
            final(self)@ == put16(old(self)@, SRC_PORT_OFFSET as int, port),
            final(self).wf(),
    {
        self.write16(SRC_PORT_OFFSET, port);
    }

    pub fn set_dest(&mut self, port: u16)
        requires
            old(self).wf(),
        ensures
            final(self)@ == put16(old(self)@, DEST_PORT_OFFSET as int, port),
            final(self).wf(),
    {
        self.write16(DEST_PORT_OFFSET, port);
    }

    pub fn set_seq(&mut self, seq: u32)
        requires
            old(self).wf(),
        ensures
            final(self)@ == put32(old(self)@, SEQ_OFFSET as int, seq),
            final(self).wf(),
    {
        self.write32(SEQ_OFFSET, seq);
    }

    pub fn set_ack(&mut self, ack: u32)
        requires
            old(self).wf(),
        ensures
            final(self)@ == put32(old(self)@, ACK_OFFSET as int, ack),
            final(self).wf(),
    {
        self.write32(ACK_OFFSET, ack);
    }

    /// ORs `offset`, shifted into the high nibble, into the data-offset byte;
    /// bits set by an earlier call stay set.
    pub fn set_data_offset(&mut self, offset: u8)
        requires
            old(self).wf(),
        ensures
            final(self)@ == with_data_offset(old(self)@, offset),
            final(self).wf(),
    {
        let b = self.buffer[DATA_OFFSET_OFFSET] | (offset << 4u8);
        self.buffer.set(DATA_OFFSET_OFFSET, b);
    }

    /// Replaces the whole flags byte.
    pub fn set_flag(&mut self, flag: u8)
        requires
            old(self).wf(),
        ensures
            final(self)@ == with_flags(old(self)@, flag),
            final(self).wf(),
    {
        self.buffer.set(FLAGS_OFFSET, flag);
    }

    pub fn set_window_size(&mut self, size: u16)
        requires
            old(self).wf(),
        ensures
            final(self)@ == put16(old(self)@, WINDOW_OFFSET as int, size),
            final(self).wf(),
    {
        self.write16(WINDOW_OFFSET, size);
    }

    pub fn set_checksum(&mut self, checksum: u16)
        requires
            old(self).wf(),
        ensures
            final(self)@ == put16(old(self)@, CHECKSUM_OFFSET as int, checksum),
            final(self).wf(),
    {
        self.write16(CHECKSUM_OFFSET, checksum);
    }

    /// Copies `payload` after the header; it must fill the payload exactly.
    pub fn set_payload(&mut self, payload: &[u8]) -> (r: Result<(), PacketError>)
        requires
            old(self).wf(),
        ensures
            r is Ok <==> payload@.len() == old(self)@.len() - HEADER_LEN,
            r is Ok ==> final(self)@ == old(self)@.subrange(0, HEADER_LEN as int) + payload@,
            r is Err ==> r == Err::<(), PacketError>(PacketError::PayloadLengthMismatch)
                && final(self)@ == old(self)@,
            final(self).wf(),
    {
        if payload.len() != self.buffer.len() - HEADER_LEN {
            return Err(PacketError::PayloadLengthMismatch);
        }
        let mut i: usize = 0;
        while i < payload.len()
            invariant
                self.wf(),
                self@.len() == old(self)@.len(),
                self@.len() <= usize::MAX,
                payload@.len() == self@.len() - HEADER_LEN,
                0 <= i <= payload@.len(),
                forall|j: int| 0 <= j < HEADER_LEN ==> self@[j] == old(self)@[j],
                forall|j: int| 0 <= j < i ==> self@[HEADER_LEN + j] == payload@[j],
            decreases payload@.len() - i,
        {
            self.buffer.set(HEADER_LEN + i, payload[i]);
            i = i + 1;
        }
        assert(self@ =~= old(self)@.subrange(0, HEADER_LEN as int) + payload@);
        Ok(())
    }

    /// The checksum this segment should carry between `local_addr` and
    /// `remote_addr`; the stored checksum field does not enter into it.
    pub fn compute_checksum(&self, local_addr: [u8; 4], remote_addr: [u8; 4]) -> (r: u16)
        requires
            self.wf(),
            self@.len() <= MAX_SEGMENT_LEN,
        ensures
            r == tcp_checksum(self@, local_addr@, remote_addr@),
    {
        ipv4_checksum(self.buffer.as_slice(), CHECKSUM_WORD, local_addr, remote_addr, PROTOCOL_TCP)
    }

    /// Whether the stored checksum is the one the segment should carry
    /// between `local_addr` and `remote_addr`.
    pub fn is_correct_checksum(&self, local_addr: [u8; 4], remote_addr: [u8; 4]) -> (r: bool)
        requires
            self.wf(),
            self@.len() <= MAX_SEGMENT_LEN,
        ensures
            r == (checksum_field(self@) == tcp_checksum(self@, local_addr@, remote_addr@)),
    {
        self.get_checksum() == self.compute_checksum(local_addr, remote_addr)
    }

    /// The whole segment, header and payload.
    pub fn packet(&self) -> (r: &[u8])
        ensures
            r@ == self@,
    {
        self.buffer.as_slice()
    }

    /// The bytes after the header.
    pub fn payload(&self) -> (r: &[u8])
        requires
            self.wf(),
        ensures
            r@ == payload_of(self@),
    {
        slice_subrange(self.buffer.as_slice(), HEADER_LEN, self.buffer.len())
    }
}

} // verus!
