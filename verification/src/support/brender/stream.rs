use crate::support::Error;
use byteorder::{BigEndian, ByteOrder};
use vstd::prelude::*;
use vstd::utf8::{decode_utf8, valid_utf8};

verus! {

/// What a reader makes of the bytes of a stream from an absolute position:
/// a value and the position just past it; an error, with the position the
/// stream stands at after it where that is fixed (`None` where a short read
/// leaves it anywhere between the read's start and the end of the stream);
/// or a stop on input that the loaders do not read at all (unknown chunks,
/// unsupported layouts).
pub enum Parse<V> {
    Done(V, int),
    Fail(Error, Option<int>),
    Abort,
}

/// The executable counterpart of the two unsuccessful outcomes of [`Parse`].
#[derive(Debug)]
pub enum Stop {
    Fail(Error, Option<usize>),
    Abort,
}

/// The stream position that an executable failure carries, as an integer.
pub open spec fn at_pos(q: Option<usize>) -> Option<int> {
    match q {
        Some(p) => Some(p as int),
        None => None,
    }
}

/// `r` is the executable outcome that the specified outcome `p` describes.
pub open spec fn parsed_as<T: View>(r: Result<(T, usize), Stop>, p: Parse<T::V>) -> bool {
    match p {
        Parse::Done(v, e) => r matches Ok((t, q)) && t@ == v && q == e,
        Parse::Fail(err, q) => r matches Err(Stop::Fail(e2, q2)) && e2 == err && at_pos(q2) == q,
        Parse::Abort => r matches Err(Stop::Abort),
    }
}

/// A failure of `r` that fixes the stream position fixes one between `lo`
/// and `hi`.
pub open spec fn fails_within<T>(r: Result<T, Stop>, lo: int, hi: int) -> bool {
    r matches Err(Stop::Fail(_, Some(q))) ==> lo <= q <= hi
}

/// Big-endian 16-bit value of the two bytes at `i`.
pub open spec fn be_u16_at(s: Seq<u8>, i: int) -> u16 {
    (s[i] as int * 0x100 + s[i + 1] as int) as u16
}

/// Big-endian 32-bit value of the four bytes at `i`.
pub open spec fn be_u32_at(s: Seq<u8>, i: int) -> u32 {
    (s[i] as int * 0x1000000 + s[i + 1] as int * 0x10000 + s[i + 2] as int * 0x100 + s[i
        + 3] as int) as u32
}

/// `n` bytes are available at `i`.
pub open spec fn available(s: Seq<u8>, i: int, n: int) -> bool {
    0 <= i && i + n <= s.len()
}

/// Index of the first zero byte at or after `i`.
pub open spec fn nul_at(s: Seq<u8>, i: int) -> Option<int>
    decreases s.len() - i,
{
    if i < 0 || i >= s.len() {
        None
    } else if s[i] == 0 {
        Some(i)
    } else {
        nul_at(s, i + 1)
    }
}

/// A zero-terminated UTF-8 string starting at `i`; the position past it is
/// the one past the terminator. Where the string cannot be read, how much of
/// the stream was consumed is left open.
pub open spec fn c_string_at(s: Seq<u8>, i: int) -> Parse<Seq<char>> {
    match nul_at(s, i) {
        None => Parse::Fail(Error::UnexpectedEof, None),
        Some(j) => {
            let b = s.subrange(i, j);
            if valid_utf8(b) {
                Parse::Done(decode_utf8(b), j + 1)
            } else {
                Parse::Fail(Error::InvalidUtf8, None)
            }
        },
    }
}

pub proof fn lemma_nul_at(s: Seq<u8>, i: int)
    ensures
        nul_at(s, i) matches Some(j) ==> 0 <= i <= j < s.len() && s[j] == 0 && forall|k: int|
            i <= k < j ==> s[k] != 0,
        nul_at(s, i) is None ==> forall|k: int| 0 <= i <= k < s.len() ==> s[k] != 0,
    decreases s.len() - i,
{
    if 0 <= i < s.len() && s[i] != 0 {
        lemma_nul_at(s, i + 1);
    }
}

/// Reading past `t` does not change where the first zero byte of `s` lies.
pub proof fn lemma_nul_at_prefix(s: Seq<u8>, t: Seq<u8>, i: int)
    requires
        nul_at(s, i) is Some,
    ensures
        nul_at(s + t, i) == nul_at(s, i),
    decreases s.len() - i,
{
    if s[i] != 0 {
        lemma_nul_at_prefix(s, t, i + 1);
    }
}

/// `byteorder`'s `BigEndian::read_u16` on the bytes at `pos`: it combines the
/// first two bytes of its argument, most significant first (it panics on
/// fewer than two, which `requires` leaves out).
#[verifier::external_body]
pub(crate) fn read_be_u16(data: &[u8], pos: usize) -> (r: u16)
    requires
        pos + 2 <= data@.len(),
    ensures
        r == be_u16_at(data@, pos as int),
{
    BigEndian::read_u16(&data[pos..])
}

/// `byteorder`'s `BigEndian::read_u32` on the bytes at `pos`: it combines the
/// first four bytes of its argument, most significant first (it panics on
/// fewer than four, which `requires` leaves out).
#[verifier::external_body]
pub(crate) fn read_be_u32(data: &[u8], pos: usize) -> (r: u32)
    requires
        pos + 4 <= data@.len(),
    ensures
        r == be_u32_at(data@, pos as int),
{
    BigEndian::read_u32(&data[pos..])
}

/// std's `String::from_utf8`: it succeeds exactly on valid UTF-8, and the
/// string then holds the characters that the bytes encode.
#[verifier::external_body]
fn string_from_utf8(bytes: Vec<u8>) -> (r: Option<String>)
    ensures
        r is Some <==> valid_utf8(bytes@),
        r matches Some(s) ==> s@ == decode_utf8(bytes@),
{
    match String::from_utf8(bytes) {
        Ok(s) => Some(s),
        Err(_) => None,
    }
}

/// Reads a zero-terminated string starting at `pos`; on success also
/// returns the position past the terminator.
pub fn read_c_string(data: &Vec<u8>, pos: usize) -> (r: Result<(String, usize), Stop>)
    requires
        pos <= data@.len(),
    ensures
        parsed_as(r, c_string_at(data@, pos as int)),
{
    let mut j = pos;
    while j < data.len() && data[j] != 0
        invariant
            pos <= j <= data@.len(),
            nul_at(data@, pos as int) == nul_at(data@, j as int),
        decreases data@.len() - j,
    {
        j = j + 1;
    }
    if j == data.len() {
        return Err(Stop::Fail(Error::UnexpectedEof, None));
    }
    let mut bytes: Vec<u8> = Vec::new();
    let mut k = pos;
    while k < j
        invariant
            pos <= k <= j < data@.len(),
            bytes@ == data@.subrange(pos as int, k as int),
        decreases j - k,
    {
        bytes.push(data[k]);
        k = k + 1;
    }
    match string_from_utf8(bytes) {
        Some(s) => Ok((s, j + 1)),
        None => Err(Stop::Fail(Error::InvalidUtf8, None)),
    }
}

/// A stream of bytes read from its start on, as the loaders consume it.
pub struct ByteStream {
    data: Vec<u8>,
    pos: usize,
}

impl ByteStream {
    #[verifier::type_invariant]
    spec fn inv(self) -> bool {
        self.pos <= self.data@.len()
    }

    /// All bytes of the stream.
    pub closed spec fn bytes(self) -> Seq<u8> {
        self.data@
    }

    /// How many bytes have been consumed.
    pub closed spec fn position(self) -> int {
        self.pos as int
    }

    /// A stream positioned at the first of `data`.
    pub fn new(data: Vec<u8>) -> (s: Self)
        ensures
            s.bytes() == data@,
            s.position() == 0,
    {
        ByteStream { data, pos: 0 }
    }

    /// The bytes of the stream and how many of them have been consumed.
    pub fn parts(&self) -> (r: (&Vec<u8>, usize))
        ensures
            r.0@ == self.bytes(),
            r.1 == self.position(),
            r.1 <= r.0@.len(),
    {
        proof {
            use_type_invariant(self);
        }
        (&self.data, self.pos)
    }

    /// Number of bytes consumed so far.
    pub fn position_exec(&self) -> (p: usize)
        ensures
            p == self.position(),
            p <= self.bytes().len(),
    {
        proof {
            use_type_invariant(self);
        }
        self.pos
    }

    /// Moves the read position forward to `p`.
    pub fn seek(&mut self, p: usize)
        requires
            old(self).position() <= p <= old(self).bytes().len(),
        ensures
            final(self).bytes() == old(self).bytes(),
            final(self).position() == p,
    {
        self.pos = p;
    }
}

} // verus!
