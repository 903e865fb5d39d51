use vstd::prelude::*;
use byteorder::{BigEndian, ReadBytesExt, WriteBytesExt};

verus! {

/// Why a value could not be read from or written to the network byte order.
#[derive(Debug, Clone, Copy, PartialEq, Eq, Structural)]
pub enum NetworkError {
    /// The input ended before the value was complete.
    UnexpectedEof,
    /// The bytes read correspond to no value of the type.
    NotFound,
}

/// The two bytes of `v` in network (big-endian) order.
pub open spec fn be_bytes_u16(v: u16) -> Seq<u8> {
    seq![(v / 256) as u8, (v % 256) as u8]
}

/// The number that two bytes denote in network (big-endian) order.
pub open spec fn be_value_u16(hi: u8, lo: u8) -> int {
    hi * 256 + lo
}

/// Appends `n` in big-endian order to `buffer`, through byteorder's
/// `WriteBytesExt::write_u16::<BigEndian>`.
///
/// Trusted: byteorder encodes `n` with `BigEndian::write_u16` (that is,
/// `u16::to_be_bytes`) and hands the two bytes to `write_all`, and `Vec<u8>`'s
/// `Write` appends them; the contract says the two big-endian bytes are appended.
#[verifier::external_body]
pub(crate) fn write_u16_be(buffer: &mut Vec<u8>, n: u16)
    ensures
        final(buffer)@ == old(buffer)@ + be_bytes_u16(n),
{
    let _ = buffer.write_u16::<BigEndian>(n);
}

/// Reads the first byte of `input`, through byteorder's `ReadBytesExt::read_u8`.
///
/// Trusted: byteorder fills a one-byte buffer with `read_exact`, which on a byte
/// slice fails exactly when the slice is empty; the contract says the result is
/// the first byte when there is one and `None` otherwise.
#[verifier::external_body]
pub(crate) fn read_u8(input: &[u8]) -> (r: Option<u8>)
    ensures
        r is Some <==> input@.len() >= 1,
        r matches Some(v) ==> v == input@[0],
{
    let mut rd: &[u8] = input;
    rd.read_u8().ok()
}

/// Reads a big-endian `u16` from the start of `input`, through byteorder's
/// `ReadBytesExt::read_u16::<BigEndian>`.
///
/// Trusted: byteorder fills a two-byte buffer with `read_exact`, which on a byte
/// slice fails exactly when fewer than two bytes are left, and decodes it with
/// `BigEndian::read_u16` (`u16::from_be_bytes`); the contract says the result is
/// the big-endian value of the first two bytes when there are two, `None` otherwise.
#[verifier::external_body]
pub(crate) fn read_u16_be(input: &[u8]) -> (r: Option<u16>)
    ensures
        r is Some <==> input@.len() >= 2,
        r matches Some(v) ==> v == be_value_u16(input@[0], input@[1]),
{
    let mut rd: &[u8] = input;
    rd.read_u16::<BigEndian>().ok()
}

/// The big-endian bytes of a `u16` give it back.
pub proof fn lemma_be_u16_roundtrip(v: u16)
    ensures
        be_bytes_u16(v).len() == 2,
        be_value_u16(be_bytes_u16(v)[0], be_bytes_u16(v)[1]) == v,
{
}

/// A read position over a byte slice, as a cursor that network values are read from.
pub struct NetReader<'a> {
    bytes: &'a [u8],
    pos: usize,
}

impl<'a> NetReader<'a> {
    #[verifier::type_invariant]
    spec fn inv(self) -> bool {
        self.pos <= self.bytes@.len()
    }

    /// All the bytes the reader reads from.
    pub closed spec fn data(self) -> Seq<u8> {
        self.bytes@
    }

    /// How many bytes have been read.
    pub closed spec fn pos(self) -> nat {
        self.pos as nat
    }

    /// The bytes not read yet.
    pub open spec fn rest(self) -> Seq<u8> {
        self.data().subrange(self.pos() as int, self.data().len() as int)
    }

    /// A reader at the start of `bytes`.
    pub fn new(bytes: &'a [u8]) -> (r: Self)
        ensures
            r.data() == bytes@,
            r.pos() == 0,
            r.rest() == bytes@,
    {
        NetReader { bytes, pos: 0 }
    }

    /// How many bytes have been read.
    pub fn position(&self) -> (p: usize)
        ensures
            p == self.pos(),
            self.pos() <= self.data().len(),
    {
        proof {
            use_type_invariant(self);
        }
        self.pos
    }

    /// How many bytes are left to read.
    pub fn remaining(&self) -> (n: usize)
        ensures
            n == self.rest().len(),
            self.pos() + n == self.data().len(),
            self.data().len() <= usize::MAX,
    {
        proof {
            use_type_invariant(self);
        }
        self.bytes.len() - self.pos
    }

    /// Reads one byte; at the end of the input it fails and reads nothing.
    pub fn read_u8(&mut self) -> (r: Result<u8, NetworkError>)
        ensures
            final(self).data() == old(self).data(),
            old(self).rest().len() >= 1 ==> {
                &&& r == Ok::<u8, NetworkError>(old(self).rest()[0])
                &&& final(self).pos() == old(self).pos() + 1
            },
            old(self).rest().len() < 1 ==> {
                &&& r == Err::<u8, NetworkError>(NetworkError::UnexpectedEof)
                &&& final(self).pos() == old(self).pos()
            },
    {
        proof {
            use_type_invariant(&*self);
        }
        if self.remaining() < 1 {
            return Err(NetworkError::UnexpectedEof);
        }
        let (_, rest) = self.bytes.split_at(self.pos);
        match read_u8(rest) {
            Some(v) => {
                self.pos = self.pos + 1;
                Ok(v)
            },
            None => Err(NetworkError::UnexpectedEof),
        }
    }

    /// Reads a big-endian `u16`; with fewer than two bytes left it fails and reads nothing.
    pub fn read_u16(&mut self) -> (r: Result<u16, NetworkError>)
        ensures
            final(self).data() == old(self).data(),
            old(self).rest().len() >= 2 ==> {
                &&& r matches Ok(v) && v == be_value_u16(old(self).rest()[0], old(self).rest()[1])
                &&& final(self).pos() == old(self).pos() + 2
            },
            old(self).rest().len() < 2 ==> {
                &&& r == Err::<u16, NetworkError>(NetworkError::UnexpectedEof)
                &&& final(self).pos() == old(self).pos()
            },
    {
        proof {
            use_type_invariant(&*self);
        }
        if self.remaining() < 2 {
            return Err(NetworkError::UnexpectedEof);
        }
        let (_, rest) = self.bytes.split_at(self.pos);
        match read_u16_be(rest) {
            Some(v) => {
                self.pos = self.pos + 2;
                Ok(v)
            },
            None => Err(NetworkError::UnexpectedEof),
        }
    }
}

} // verus!
