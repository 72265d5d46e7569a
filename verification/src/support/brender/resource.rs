//
// Chunks of BRender resource files and the stack that loaders build
// resources on.
//
// Every value is stored big-endian. Single-precision floats are kept as the
// IEEE-754 bit patterns that the file stores (`f32::from_bits` gives the float).
//
pub mod actor_render_style;
pub mod actor_type;
pub mod camera_type;
pub mod chunk;
pub mod euler_angle_order;
pub mod file_type;
pub mod light_type;
pub mod material_flags;
pub mod pixelmap_type;

use crate::support::brender::stream::{
    at_pos, available, be_u16_at, be_u32_at, c_string_at, fails_within, lemma_nul_at,
    lemma_nul_at_prefix, nul_at, parsed_as, read_be_u16, read_be_u32, read_c_string, ByteStream, Parse, Stop,
};
use crate::support::brender::material::Material;
use crate::support::brender::model::Model;
use crate::support::brender::pixelmap::PixelMap;
use crate::support::Error;
use vstd::prelude::*;
use vstd::string::StringExecFns;

verus! {

//------------------------------------------------------------------
/// Read resource from a stream.
///
/// `parse_spec(s, i)` says what the bytes `s` hold from position `i` on.
/// A reader consumes exactly what it reads: on success the stream stands past
/// the value; on failure it stands where the failing read left it, which is
/// fixed where the error comes after whole chunks were read (past the last
/// of them) and left open where a read came short.
pub trait FromStream: Sized {
    type Output: View;

    spec fn parse_spec(s: Seq<u8>, i: int) -> Parse<<Self::Output as View>::V>;

    /// Every successful read consumes at least one byte, and no more than there are.
    proof fn lemma_progress(s: Seq<u8>, i: int)
        requires
            0 <= i,
        ensures
            Self::parse_spec(s, i) matches Parse::Done(_, e) ==> i < e <= s.len(),
    ;

    /// A value read from `s` is read the same when more bytes follow `s`.
    proof fn lemma_prefix(s: Seq<u8>, t: Seq<u8>, i: int)
        requires
            Self::parse_spec(s, i) is Done,
        ensures
            Self::parse_spec(s + t, i) == Self::parse_spec(s, i),
    ;

    /// A value is read the same wherever it stands: after the bytes `p`, it is
    /// read from `p.len() + i` as it is read from `i` without them, and ends
    /// `p.len()` bytes later.
    proof fn lemma_shift(p: Seq<u8>, s: Seq<u8>, i: int)
        requires
            0 <= i,
        ensures
            Self::parse_spec(p + s, p.len() + i) == shifted(Self::parse_spec(s, i), p.len() as int),
    ;

    /// Reads from absolute position `pos` of `data`.
    fn parse_at(data: &Vec<u8>, pos: usize) -> (r: Result<(Self::Output, usize), Stop>)
        requires
            pos <= data@.len(),
        ensures
            parsed_as(r, Self::parse_spec(data@, pos as int)),
            fails_within(r, pos as int, data@.len() as int),
    ;

    fn from_stream(source: &mut ByteStream) -> (r: Result<Self::Output, Error>)
        requires
            !(Self::parse_spec(old(source).bytes(), old(source).position()) is Abort),
        ensures
            final(source).bytes() == old(source).bytes(),
            match Self::parse_spec(old(source).bytes(), old(source).position()) {
                Parse::Done(v, e) => r matches Ok(o) && o@ == v && final(source).position() == e,
                Parse::Fail(err, q) => r matches Err(e2) && e2 == err && match q {
                    Some(p) => final(source).position() == p,
                    None => old(source).position() <= final(source).position() <= old(
                        source,
                    ).bytes().len(),
                },
                Parse::Abort => false,
            },
    {
        let (data, pos) = source.parts();
        match Self::parse_at(data, pos) {
            Ok((v, e)) => {
                proof {
                    Self::lemma_progress(source.bytes(), pos as int);
                }
                source.seek(e);
                Ok(v)
            },
            Err(Stop::Fail(e, Some(q))) => {
                source.seek(q);
                Err(e)
            },
            Err(Stop::Fail(e, None)) => Err(e),
            Err(Stop::Abort) => {
                assert(false);
                Err(Error::InvalidResourceFormat)
            },
        }
    }

    /// Whether reading from the stream stays clear of input that the reader
    /// does not read at all (the condition of `from_stream`).
    fn readable(source: &ByteStream) -> (b: bool)
        ensures
            b == !(Self::parse_spec(source.bytes(), source.position()) is Abort),
    {
        let (data, pos) = source.parts();
        match Self::parse_at(data, pos) {
            Err(Stop::Abort) => false,
            _ => true,
        }
    }
}

//------------------------------------------------------------------
/// The resources of type `T` read one after another from `i` on, until a read
/// fails, and the position where the failing read started; `None` when a read
/// meets input that the reader does not read at all.
pub open spec fn many_at<T: FromStream>(s: Seq<u8>, i: int) -> Option<
    (Seq<<T::Output as View>::V>, int),
>
    decreases s.len() - i,
{
    match T::parse_spec(s, i) {
        Parse::Done(v, e) => if i < e <= s.len() {
            match many_at::<T>(s, e) {
                Some((vs, end)) => Some((seq![v] + vs, end)),
                None => None,
            }
        } else {
            // (never taken for a position in the stream: see `lemma_progress`)
            None
        },
        Parse::Fail(..) => Some((Seq::empty(), i)),
        Parse::Abort => None,
    }
}

pub proof fn lemma_many_shift<T: FromStream>(p: Seq<u8>, s: Seq<u8>, i: int)
    requires
        0 <= i,
    ensures
        many_at::<T>(p + s, p.len() + i) == match many_at::<T>(s, i) {
            Some((vs, end)) => Some((vs, end + p.len())),
            None => None,
        },
    decreases s.len() - i,
{
    T::lemma_shift(p, s, i);
    T::lemma_progress(s, i);
    if let Parse::Done(v, e) = T::parse_spec(s, i) {
        lemma_many_shift::<T>(p, s, e);
    }
}

/// Resources stored one after another are all loaded: a stream that holds
/// one complete resource `a`, followed by the bytes `b`, loads as that
/// resource followed by the resources that `b` alone loads as (the stream
/// then ends up where it ends up in `b`, moved by the length of `a`).
pub proof fn lemma_load_many_concat<T: FromStream>(a: Seq<u8>, b: Seq<u8>)
    requires
        T::parse_spec(a, 0) matches Parse::Done(_, e) && e == a.len(),
    ensures
        many_at::<T>(a + b, 0) == match (T::parse_spec(a, 0), many_at::<T>(b, 0)) {
            (Parse::Done(v, _), Some((vs, end))) => Some((seq![v] + vs, a.len() + end)),
            _ => None,
        },
{
    T::lemma_prefix(a, b, 0);
    T::lemma_progress(a, 0);
    lemma_many_shift::<T>(a, b, 0);
}

/// Read an array of resources from a stream, one after another until a read
/// fails. Resources must be named to distinguish them from each other.
/// The stream is left past the last resource read.
pub trait LoadMany: FromStream {
    fn load_many(source: &mut ByteStream) -> (r: Vec<Self::Output>)
        requires
            many_at::<Self>(old(source).bytes(), old(source).position()) is Some,
        ensures
            final(source).bytes() == old(source).bytes(),
            many_at::<Self>(old(source).bytes(), old(source).position()) matches Some((vs, end))
                && views(r@) == vs && final(source).position() == end,
    {
        let (data, pos) = source.parts();
        match load_all::<Self>(data, pos) {
            Some((v, end)) => {
                source.seek(end);
                v
            },
            None => {
                assert(false);
                Vec::new()
            },
        }
    }

    /// Whether `load_many` can read the stream (the condition of `load_many`).
    fn loads_many(source: &ByteStream) -> (b: bool)
        ensures
            b == many_at::<Self>(source.bytes(), source.position()) is Some,
    {
        let (data, pos) = source.parts();
        load_all::<Self>(data, pos).is_some()
    }
}

/// Reads resources of type `T` from `pos` on until a read fails.
pub fn load_all<T: FromStream>(data: &Vec<u8>, pos: usize) -> (r: Option<(Vec<T::Output>, usize)>)
    requires
        pos <= data@.len(),
    ensures
        match many_at::<T>(data@, pos as int) {
            Some((vs, end)) => r matches Some((v, e)) && views(v@) == vs && e == end && pos <= e
                <= data@.len(),
            None => r is None,
        },
{
    let mut out: Vec<T::Output> = Vec::new();
    let mut cur = pos;
    loop
        invariant
            pos <= cur <= data@.len(),
            many_at::<T>(data@, pos as int) == match many_at::<T>(data@, cur as int) {
                Some((vs, end)) => Some((views(out@) + vs, end)),
                None => None,
            },
        decreases data@.len() - cur,
    {
        proof {
            T::lemma_progress(data@, cur as int);
        }
        match T::parse_at(data, cur) {
            Ok((v, e)) => {
                let ghost acc = views(out@);
                proof {
                    match many_at::<T>(data@, e as int) {
                        Some((vs, end)) => {
                            assert(acc + (seq![v@] + vs) =~= acc.push(v@) + vs);
                        },
                        None => {},
                    }
                }
                out.push(v);
                proof {
                    assert(views(out@) =~= acc.push(v@));
                }
                cur = e;
            },
            Err(Stop::Fail(..)) => {
                proof {
                    assert(views(out@) + Seq::empty() =~= views(out@));
                }
                return Some((out, cur));
            },
            Err(Stop::Abort) => {
                return None;
            },
        }
    }
}

/// A fixed-size value ends `n` bytes after `i`, if the bytes are there.
pub open spec fn fixed<V>(s: Seq<u8>, i: int, n: int, v: V) -> Parse<V> {
    if available(s, i, n) {
        Parse::Done(v, i + n)
    } else {
        Parse::Fail(Error::UnexpectedEof, None)
    }
}

/// The outcome `p` with its value passed through `f`.
pub open spec fn map_parse<A, B>(p: Parse<A>, f: spec_fn(A) -> B) -> Parse<B> {
    match p {
        Parse::Done(v, e) => Parse::Done(f(v), e),
        Parse::Fail(err, q) => Parse::Fail(err, q),
        Parse::Abort => Parse::Abort,
    }
}

/// `n` fixed bytes at `i`, then a zero-terminated string whose characters
/// complete the value through `f`.
pub open spec fn fixed_then_string<V>(
    s: Seq<u8>,
    i: int,
    n: int,
    f: spec_fn(Seq<char>) -> V,
) -> Parse<V> {
    if available(s, i, n) {
        map_parse(c_string_at(s, i + n), f)
    } else {
        Parse::Fail(Error::UnexpectedEof, None)
    }
}

pub proof fn lemma_c_string_progress(s: Seq<u8>, i: int)
    requires
        0 <= i,
    ensures
        c_string_at(s, i) matches Parse::Done(_, e) ==> i < e <= s.len(),
        !(c_string_at(s, i) is Abort),
{
    lemma_nul_at(s, i);
}

pub proof fn lemma_c_string_prefix(s: Seq<u8>, t: Seq<u8>, i: int)
    requires
        c_string_at(s, i) is Done,
    ensures
        c_string_at(s + t, i) == c_string_at(s, i),
{
    lemma_nul_at(s, i);
    lemma_nul_at_prefix(s, t, i);
    let j = nul_at(s, i)->0;
    assert((s + t).subrange(i, j) =~= s.subrange(i, j));
}

/// The views of the items of `v`.
pub open spec fn views<T: View>(v: Seq<T>) -> Seq<T::V> {
    v.map_values(|x: T| x@)
}

/// `count` values of `T` read one after another from `i`.
pub open spec fn array_at<T: FromStream>(s: Seq<u8>, i: int, count: nat) -> Parse<
    Seq<<T::Output as View>::V>,
>
    decreases count,
{
    if count == 0 {
        Parse::Done(Seq::empty(), i)
    } else {
        match T::parse_spec(s, i) {
            Parse::Done(v, e) => match array_at::<T>(s, e, (count - 1) as nat) {
                Parse::Done(vs, e2) => Parse::Done(seq![v] + vs, e2),
                Parse::Fail(err, q) => Parse::Fail(err, q),
                Parse::Abort => Parse::Abort,
            },
            Parse::Fail(err, q) => Parse::Fail(err, q),
            Parse::Abort => Parse::Abort,
        }
    }
}

/// The outcome `p` of reading the rest of an array after `acc` was read.
pub open spec fn after<V>(acc: Seq<V>, p: Parse<Seq<V>>) -> Parse<Seq<V>> {
    match p {
        Parse::Done(vs, e) => Parse::Done(acc + vs, e),
        Parse::Fail(err, q) => Parse::Fail(err, q),
        Parse::Abort => Parse::Abort,
    }
}

/// `r` is the executable outcome that `p` describes, item by item.
pub open spec fn parsed_as_all<T: View>(
    r: Result<(Vec<T>, usize), Stop>,
    p: Parse<Seq<T::V>>,
) -> bool {
    match p {
        Parse::Done(vs, e) => r matches Ok((t, q)) && views(t@) == vs && q == e,
        Parse::Fail(err, q) => r matches Err(Stop::Fail(e2, q2)) && e2 == err && at_pos(q2) == q,
        Parse::Abort => r matches Err(Stop::Abort),
    }
}

pub proof fn lemma_array_progress<T: FromStream>(s: Seq<u8>, i: int, count: nat)
    requires
        0 <= i,
        count == 0 ==> i <= s.len(),
    ensures
        array_at::<T>(s, i, count) matches Parse::Done(_, e) ==> i <= e <= s.len(),
        array_at::<T>(s, i, count) matches Parse::Done(_, e) ==> (count > 0 ==> i < e),
    decreases count,
{
    if count > 0 {
        T::lemma_progress(s, i);
        if let Parse::Done(v, e) = T::parse_spec(s, i) {
            lemma_array_progress::<T>(s, e, (count - 1) as nat);
        }
    }
}

pub proof fn lemma_array_prefix<T: FromStream>(s: Seq<u8>, t: Seq<u8>, i: int, count: nat)
    requires
        array_at::<T>(s, i, count) is Done,
    ensures
        array_at::<T>(s + t, i, count) == array_at::<T>(s, i, count),
    decreases count,
{
    if count > 0 {
        T::lemma_prefix(s, t, i);
        if let Parse::Done(v, e) = T::parse_spec(s, i) {
            lemma_array_prefix::<T>(s, t, e, (count - 1) as nat);
        }
    }
}

/// Reads `count` values of `T` one after another from `pos`.
pub fn parse_array<T: FromStream>(data: &Vec<u8>, pos: usize, count: u32) -> (r: Result<
    (Vec<T::Output>, usize),
    Stop,
>)
    requires
        pos <= data@.len(),
    ensures
        parsed_as_all(r, array_at::<T>(data@, pos as int, count as nat)),
        fails_within(r, pos as int, data@.len() as int),
{
    let mut out: Vec<T::Output> = Vec::new();
    let mut cur = pos;
    let mut k: u32 = 0;
    while k < count
        invariant
            pos <= cur <= data@.len(),
            k <= count,
            after(views(out@), array_at::<T>(data@, cur as int, (count - k) as nat)) == array_at::<
                T,
            >(data@, pos as int, count as nat),
        decreases count - k,
    {
        let ghost acc = views(out@);
        let ghost m = (count - k) as nat;
        match T::parse_at(data, cur) {
            Ok((v, e)) => {
                proof {
                    T::lemma_progress(data@, cur as int);
                    let rest = array_at::<T>(data@, e as int, (m - 1) as nat);
                    match rest {
                        Parse::Done(vs, e2) => {
                            assert(acc + (seq![v@] + vs) =~= acc.push(v@) + vs);
                        },
                        _ => {},
                    }
                }
                out.push(v);
                proof {
                    assert(views(out@) =~= acc.push(v@));
                }
                cur = e;
                k = k + 1;
            },
            Err(stop) => {
                return Err(stop);
            },
        }
    }
    proof {
        assert(views(out@) + Seq::empty() =~= views(out@));
    }
    Ok((out, cur))
}

/// The outcome `r` with its positions moved `k` bytes on.
pub open spec fn shifted<V>(r: Parse<V>, k: int) -> Parse<V> {
    match r {
        Parse::Done(v, e) => Parse::Done(v, e + k),
        Parse::Fail(err, q) => Parse::Fail(
            err,
            match q {
                Some(p) => Some(p + k),
                None => None,
            },
        ),
        Parse::Abort => Parse::Abort,
    }
}

pub proof fn lemma_nul_at_shift(p: Seq<u8>, s: Seq<u8>, i: int)
    requires
        0 <= i,
    ensures
        nul_at(p + s, p.len() + i) == match nul_at(s, i) {
            Some(j) => Some(j + p.len()),
            None => None,
        },
    decreases s.len() - i,
{
    if i < s.len() {
        assert((p + s)[p.len() + i] == s[i]);
        if s[i] != 0 {
            lemma_nul_at_shift(p, s, i + 1);
        }
    }
}

pub proof fn lemma_c_string_shift(p: Seq<u8>, s: Seq<u8>, i: int)
    requires
        0 <= i,
    ensures
        c_string_at(p + s, p.len() + i) == shifted(c_string_at(s, i), p.len() as int),
{
    lemma_nul_at_shift(p, s, i);
    lemma_nul_at(s, i);
    if let Some(j) = nul_at(s, i) {
        assert((p + s).subrange(p.len() + i, j + p.len()) =~= s.subrange(i, j));
    }
}

pub proof fn lemma_array_shift<T: FromStream>(p: Seq<u8>, s: Seq<u8>, i: int, count: nat)
    requires
        0 <= i,
    ensures
        array_at::<T>(p + s, p.len() + i, count) == shifted(
            array_at::<T>(s, i, count),
            p.len() as int,
        ),
    decreases count,
{
    if count > 0 {
        T::lemma_shift(p, s, i);
        T::lemma_progress(s, i);
        if let Parse::Done(v, e) = T::parse_spec(s, i) {
            lemma_array_shift::<T>(p, s, e, (count - 1) as nat);
        }
    }
}

pub proof fn lemma_counted_shift<T: FromStream>(p: Seq<u8>, s: Seq<u8>, i: int)
    requires
        0 <= i,
    ensures
        counted_at::<T>(p + s, p.len() + i) == shifted(counted_at::<T>(s, i), p.len() as int),
{
    if available(s, i, 4) {
        assert(be_u32_at(p + s, p.len() + i) == be_u32_at(s, i));
        lemma_array_shift::<T>(p, s, i + 4, be_u32_at(s, i) as nat);
    }
}

//------------------------------------------------------------------
/// A zero-terminated string.
impl FromStream for String {
    type Output = String;

    open spec fn parse_spec(s: Seq<u8>, i: int) -> Parse<Seq<char>> {
        c_string_at(s, i)
    }

    proof fn lemma_progress(s: Seq<u8>, i: int) {
        lemma_c_string_progress(s, i);
    }

    proof fn lemma_prefix(s: Seq<u8>, t: Seq<u8>, i: int) {
        lemma_c_string_prefix(s, t, i);
    }

    proof fn lemma_shift(p: Seq<u8>, s: Seq<u8>, i: int) {
        lemma_c_string_shift(p, s, i);
    }

    fn parse_at(data: &Vec<u8>, pos: usize) -> (r: Result<(String, usize), Stop>) {
        let r = read_c_string(data, pos);
        assert(parsed_as(r, Self::parse_spec(data@, pos as int)));
        r
    }
}

/// A big-endian 16-bit value.
impl FromStream for u16 {
    type Output = u16;

    open spec fn parse_spec(s: Seq<u8>, i: int) -> Parse<u16> {
        fixed(s, i, 2, be_u16_at(s, i))
    }

    proof fn lemma_progress(s: Seq<u8>, i: int) {
    }

    proof fn lemma_prefix(s: Seq<u8>, t: Seq<u8>, i: int) {
    }

    proof fn lemma_shift(p: Seq<u8>, s: Seq<u8>, i: int) {
    }

    fn parse_at(data: &Vec<u8>, pos: usize) -> (r: Result<(u16, usize), Stop>) {
        if data.len() - pos < 2 {
            return Err(Stop::Fail(Error::UnexpectedEof, None));
        }
        let r = Ok((read_be_u16(data.as_slice(), pos), pos + 2));
        assert(parsed_as(r, Self::parse_spec(data@, pos as int)));
        r
    }
}

/// A big-endian 32-bit value read first, then that many values of `T`.
pub open spec fn counted_at<T: FromStream>(s: Seq<u8>, i: int) -> Parse<
    Seq<<T::Output as View>::V>,
> {
    if available(s, i, 4) {
        array_at::<T>(s, i + 4, be_u32_at(s, i) as nat)
    } else {
        Parse::Fail(Error::UnexpectedEof, None)
    }
}

pub proof fn lemma_counted_progress<T: FromStream>(s: Seq<u8>, i: int)
    requires
        0 <= i,
    ensures
        counted_at::<T>(s, i) matches Parse::Done(_, e) ==> i < e <= s.len(),
{
    if available(s, i, 4) {
        lemma_array_progress::<T>(s, i + 4, be_u32_at(s, i) as nat);
    }
}

pub proof fn lemma_counted_prefix<T: FromStream>(s: Seq<u8>, t: Seq<u8>, i: int)
    requires
        counted_at::<T>(s, i) is Done,
    ensures
        counted_at::<T>(s + t, i) == counted_at::<T>(s, i),
{
    lemma_array_prefix::<T>(s, t, i + 4, be_u32_at(s, i) as nat);
}

/// Reads a big-endian 32-bit count at `pos`, then that many values of `T`.
pub fn parse_counted<T: FromStream>(data: &Vec<u8>, pos: usize) -> (r: Result<
    (Vec<T::Output>, usize),
    Stop,
>)
    requires
        pos <= data@.len(),
    ensures
        parsed_as_all(r, counted_at::<T>(data@, pos as int)),
        fails_within(r, pos as int, data@.len() as int),
{
    if data.len() - pos < 4 {
        return Err(Stop::Fail(Error::UnexpectedEof, None));
    }
    let count = read_be_u32(data.as_slice(), pos);
    parse_array::<T>(data, pos + 4, count)
}

//------------------------------------------------------------------
/// Chunk type wrapper for debugging.
#[derive(Clone, Copy, Debug)]
pub struct ChunkType(pub u32);

/// The name of a chunk type, "UNKNOWN" for a type without one.
pub open spec fn chunk_type_name(t: u32) -> Seq<char> {
    if t == chunk::END {
        "END"@
    } else if t == chunk::PIXELMAP {
        "PIXELMAP"@
    } else if t == chunk::MATERIAL {
        "MATERIAL"@
    } else if t == chunk::ANIM {
        "ANIM"@
    } else if t == chunk::ANIM_TRANSFORM {
        "ANIM_TRANSFORM"@
    } else if t == chunk::ANIM_RATE {
        "ANIM_RATE"@
    } else if t == chunk::FILE_INFO {
        "FILE_INFO"@
    } else if t == chunk::PIVOT {
        "PIVOT"@
    } else if t == chunk::MATERIAL_INDEX {
        "MATERIAL_INDEX"@
    } else if t == chunk::VERTICES {
        "VERTICES"@
    } else if t == chunk::VERTEX_UV {
        "VERTEX_UV"@
    } else if t == chunk::FACE_MATERIAL {
        "FACE_MATERIAL"@
    } else if t == chunk::COLOUR_MAP_REF {
        "COLOUR_MAP_REF"@
    } else if t == chunk::INDEX_BLEND_REF {
        "INDEX_BLEND_REF"@
    } else if t == chunk::INDEX_SHADE_REF {
        "INDEX_SHADE_REF"@
    } else if t == chunk::SCREENDOOR_REF {
        "SCREENDOOR_REF"@
    } else if t == chunk::PIXELS {
        "PIXELS"@
    } else if t == chunk::ADD_MAP {
        "ADD_MAP"@
    } else if t == chunk::ACTOR {
        "ACTOR"@
    } else if t == chunk::ACTOR_MODEL {
        "ACTOR_MODEL"@
    } else if t == chunk::ACTOR_TRANSFORM {
        "ACTOR_TRANSFORM"@
    } else if t == chunk::ACTOR_MATERIAL {
        "ACTOR_MATERIAL"@
    } else if t == chunk::ACTOR_LIGHT {
        "ACTOR_LIGHT"@
    } else if t == chunk::ACTOR_CAMERA {
        "ACTOR_CAMERA"@
    } else if t == chunk::ACTOR_BOUNDS {
        "ACTOR_BOUNDS"@
    } else if t == chunk::ACTOR_ADD_CHILD {
        "ACTOR_ADD_CHILD"@
    } else if t == chunk::TRANSFORM_MATRIX34 {
        "TRANSFORM_MATRIX34"@
    } else if t == chunk::TRANSFORM_MATRIX34_LP {
        "TRANSFORM_MATRIX34_LP"@
    } else if t == chunk::TRANSFORM_QUAT {
        "TRANSFORM_QUAT"@
    } else if t == chunk::TRANSFORM_EULER {
        "TRANSFORM_EULER"@
    } else if t == chunk::TRANSFORM_LOOK_UP {
        "TRANSFORM_LOOK_UP"@
    } else if t == chunk::TRANSFORM_TRANSLATION {
        "TRANSFORM_TRANSLATION"@
    } else if t == chunk::TRANSFORM_IDENTITY {
        "TRANSFORM_IDENTITY"@
    } else if t == chunk::BOUNDS {
        "BOUNDS"@
    } else if t == chunk::LIGHT {
        "LIGHT"@
    } else if t == chunk::CAMERA {
        "CAMERA"@
    } else if t == chunk::FACES {
        "FACES"@
    } else if t == chunk::MODEL {
        "MODEL"@
    } else if t == chunk::ACTOR_CLIP_PLANE {
        "ACTOR_CLIP_PLANE"@
    } else if t == chunk::PLANE {
        "PLANE"@
    } else {
        "UNKNOWN"@
    }
}

impl ChunkType {
    pub fn name(&self) -> (r: &'static str)
        ensures
            r@ == chunk_type_name(self.0),
    {
        let t = self.0;
        if t == chunk::END {
            "END"
        } else if t == chunk::PIXELMAP {
            "PIXELMAP"
        } else if t == chunk::MATERIAL {
            "MATERIAL"
        } else if t == chunk::ANIM {
            "ANIM"
        } else if t == chunk::ANIM_TRANSFORM {
            "ANIM_TRANSFORM"
        } else if t == chunk::ANIM_RATE {
            "ANIM_RATE"
        } else if t == chunk::FILE_INFO {
            "FILE_INFO"
        } else if t == chunk::PIVOT {
            "PIVOT"
        } else if t == chunk::MATERIAL_INDEX {
            "MATERIAL_INDEX"
        } else if t == chunk::VERTICES {
            "VERTICES"
        } else if t == chunk::VERTEX_UV {
            "VERTEX_UV"
        } else if t == chunk::FACE_MATERIAL {
            "FACE_MATERIAL"
        } else if t == chunk::COLOUR_MAP_REF {
            "COLOUR_MAP_REF"
        } else if t == chunk::INDEX_BLEND_REF {
            "INDEX_BLEND_REF"
        } else if t == chunk::INDEX_SHADE_REF {
            "INDEX_SHADE_REF"
        } else if t == chunk::SCREENDOOR_REF {
            "SCREENDOOR_REF"
        } else if t == chunk::PIXELS {
            "PIXELS"
        } else if t == chunk::ADD_MAP {
            "ADD_MAP"
        } else if t == chunk::ACTOR {
            "ACTOR"
        } else if t == chunk::ACTOR_MODEL {
            "ACTOR_MODEL"
        } else if t == chunk::ACTOR_TRANSFORM {
            "ACTOR_TRANSFORM"
        } else if t == chunk::ACTOR_MATERIAL {
            "ACTOR_MATERIAL"
        } else if t == chunk::ACTOR_LIGHT {
            "ACTOR_LIGHT"
        } else if t == chunk::ACTOR_CAMERA {
            "ACTOR_CAMERA"
        } else if t == chunk::ACTOR_BOUNDS {
            "ACTOR_BOUNDS"
        } else if t == chunk::ACTOR_ADD_CHILD {
            "ACTOR_ADD_CHILD"
        } else if t == chunk::TRANSFORM_MATRIX34 {
            "TRANSFORM_MATRIX34"
        } else if t == chunk::TRANSFORM_MATRIX34_LP {
            "TRANSFORM_MATRIX34_LP"
        } else if t == chunk::TRANSFORM_QUAT {
            "TRANSFORM_QUAT"
        } else if t == chunk::TRANSFORM_EULER {
            "TRANSFORM_EULER"
        } else if t == chunk::TRANSFORM_LOOK_UP {
            "TRANSFORM_LOOK_UP"
        } else if t == chunk::TRANSFORM_TRANSLATION {
            "TRANSFORM_TRANSLATION"
        } else if t == chunk::TRANSFORM_IDENTITY {
            "TRANSFORM_IDENTITY"
        } else if t == chunk::BOUNDS {
            "BOUNDS"
        } else if t == chunk::LIGHT {
            "LIGHT"
        } else if t == chunk::CAMERA {
            "CAMERA"
        } else if t == chunk::FACES {
            "FACES"
        } else if t == chunk::MODEL {
            "MODEL"
        } else if t == chunk::ACTOR_CLIP_PLANE {
            "ACTOR_CLIP_PLANE"
        } else if t == chunk::PLANE {
            "PLANE"
        } else {
            "UNKNOWN"
        }
    }
}

//------------------------------------------------------------------
/// A binary resource file consisting of chunks with specific size.
/// Reading from such file yields array of chunk results, some of
/// these chunks are service, some are useful to the client.
#[derive(Clone, Copy, Debug)]
pub struct ChunkHeader {
    pub chunk_type: u32,
    /// size of chunk without the header
    pub size: u32,
}

impl View for ChunkHeader {
    type V = ChunkHeader;

    open spec fn view(&self) -> ChunkHeader {
        *self
    }
}

pub open spec fn chunk_header_at(s: Seq<u8>, i: int) -> ChunkHeader {
    ChunkHeader { chunk_type: be_u32_at(s, i), size: be_u32_at(s, i + 4) }
}

impl FromStream for ChunkHeader {
    type Output = ChunkHeader;

    open spec fn parse_spec(s: Seq<u8>, i: int) -> Parse<ChunkHeader> {
        fixed(s, i, 8, chunk_header_at(s, i))
    }

    proof fn lemma_progress(s: Seq<u8>, i: int) {
    }

    proof fn lemma_prefix(s: Seq<u8>, t: Seq<u8>, i: int) {
    }

    proof fn lemma_shift(p: Seq<u8>, s: Seq<u8>, i: int) {
    }

    fn parse_at(data: &Vec<u8>, pos: usize) -> (r: Result<(ChunkHeader, usize), Stop>) {
        if data.len() - pos < 8 {
            return Err(Stop::Fail(Error::UnexpectedEof, None));
        }
        let chunk_type = read_be_u32(data.as_slice(), pos);
        let size = read_be_u32(data.as_slice(), pos + 4);
        let r = Ok((ChunkHeader { chunk_type, size }, pos + 8));
        assert(parsed_as(r, Self::parse_spec(data@, pos as int)));
        r
    }
}

//------------------------------------------------------------------
/// A by-name reference.
pub struct NameRefChunk {
    pub identifier: String,
}

impl View for NameRefChunk {
    type V = Seq<char>;

    open spec fn view(&self) -> Seq<char> {
        self.identifier@
    }
}

impl FromStream for NameRefChunk {
    type Output = NameRefChunk;

    open spec fn parse_spec(s: Seq<u8>, i: int) -> Parse<Seq<char>> {
        c_string_at(s, i)
    }

    proof fn lemma_progress(s: Seq<u8>, i: int) {
        lemma_c_string_progress(s, i);
    }

    proof fn lemma_prefix(s: Seq<u8>, t: Seq<u8>, i: int) {
        lemma_c_string_prefix(s, t, i);
    }

    proof fn lemma_shift(p: Seq<u8>, s: Seq<u8>, i: int) {
        lemma_c_string_shift(p, s, i);
    }

    fn parse_at(data: &Vec<u8>, pos: usize) -> (r: Result<(NameRefChunk, usize), Stop>) {
        let r = match read_c_string(data, pos) {
            Ok((identifier, e)) => Ok((NameRefChunk { identifier }, e)),
            Err(stop) => Err(stop),
        };
        assert(parsed_as(r, c_string_at(data@, pos as int)));
        r
    }
}

//------------------------------------------------------------------
// Universal chunks:
//------------------------------------------------------------------
#[derive(Clone, Copy, Debug)]
pub struct FileInfoChunk {
    pub file_type: u32,
    pub version: u32,
}

impl View for FileInfoChunk {
    type V = FileInfoChunk;

    open spec fn view(&self) -> FileInfoChunk {
        *self
    }
}

impl FromStream for FileInfoChunk {
    type Output = FileInfoChunk;

    open spec fn parse_spec(s: Seq<u8>, i: int) -> Parse<FileInfoChunk> {
        fixed(s, i, 8, FileInfoChunk { file_type: be_u32_at(s, i), version: be_u32_at(s, i + 4) })
    }

    proof fn lemma_progress(s: Seq<u8>, i: int) {
    }

    proof fn lemma_prefix(s: Seq<u8>, t: Seq<u8>, i: int) {
    }

    proof fn lemma_shift(p: Seq<u8>, s: Seq<u8>, i: int) {
    }

    fn parse_at(data: &Vec<u8>, pos: usize) -> (r: Result<(FileInfoChunk, usize), Stop>) {
        if data.len() - pos < 8 {
            return Err(Stop::Fail(Error::UnexpectedEof, None));
        }
        let file_type = read_be_u32(data.as_slice(), pos);
        let version = read_be_u32(data.as_slice(), pos + 4);
        let r = Ok((FileInfoChunk { file_type, version }, pos + 8));
        assert(parsed_as(r, Self::parse_spec(data@, pos as int)));
        r
    }
}

//------------------------------------------------------------------
// Model chunks: (BrModelLoadMany)
//------------------------------------------------------------------
pub struct ModelChunk {
    pub flags: u16,
    pub identifier: String,
}

pub struct ModelChunkView {
    pub flags: u16,
    pub identifier: Seq<char>,
}

impl View for ModelChunk {
    type V = ModelChunkView;

    open spec fn view(&self) -> ModelChunkView {
        ModelChunkView { flags: self.flags, identifier: self.identifier@ }
    }
}

impl FromStream for ModelChunk {
    type Output = ModelChunk;

    open spec fn parse_spec(s: Seq<u8>, i: int) -> Parse<ModelChunkView> {
        fixed_then_string(
            s,
            i,
            2,
            |identifier: Seq<char>| ModelChunkView { flags: be_u16_at(s, i), identifier },
        )
    }

    proof fn lemma_progress(s: Seq<u8>, i: int) {
        lemma_c_string_progress(s, i + 2);
    }

    proof fn lemma_prefix(s: Seq<u8>, t: Seq<u8>, i: int) {
        lemma_c_string_prefix(s, t, i + 2);
    }

    proof fn lemma_shift(p: Seq<u8>, s: Seq<u8>, i: int) {
        lemma_c_string_shift(p, s, i + 2);
    }

    fn parse_at(data: &Vec<u8>, pos: usize) -> (r: Result<(ModelChunk, usize), Stop>) {
        if data.len() - pos < 2 {
            return Err(Stop::Fail(Error::UnexpectedEof, None));
        }
        let flags = read_be_u16(data.as_slice(), pos);
        let r = match read_c_string(data, pos + 2) {
            Ok((identifier, e)) => Ok((ModelChunk { flags, identifier }, e)),
            Err(stop) => Err(stop),
        };
        assert(parsed_as(r, Self::parse_spec(data@, pos as int)));
        r
    }
}

//------------------------------------------------------------------
pub struct MaterialIndexChunk {
    pub materials: Vec<String>,
}

impl View for MaterialIndexChunk {
    type V = Seq<Seq<char>>;

    open spec fn view(&self) -> Seq<Seq<char>> {
        views(self.materials@)
    }
}

impl FromStream for MaterialIndexChunk {
    type Output = MaterialIndexChunk;

    open spec fn parse_spec(s: Seq<u8>, i: int) -> Parse<Seq<Seq<char>>> {
        counted_at::<String>(s, i)
    }

    proof fn lemma_progress(s: Seq<u8>, i: int) {
        lemma_counted_progress::<String>(s, i);
    }

    proof fn lemma_prefix(s: Seq<u8>, t: Seq<u8>, i: int) {
        lemma_counted_prefix::<String>(s, t, i);
    }

    proof fn lemma_shift(p: Seq<u8>, s: Seq<u8>, i: int) {
        lemma_counted_shift::<String>(p, s, i);
    }

    fn parse_at(data: &Vec<u8>, pos: usize) -> (r: Result<(MaterialIndexChunk, usize), Stop>) {
        let r = match parse_counted::<String>(data, pos) {
            Ok((materials, e)) => Ok((MaterialIndexChunk { materials }, e)),
            Err(stop) => Err(stop),
        };
        assert(parsed_as(r, Self::parse_spec(data@, pos as int)));
        r
    }
}

//------------------------------------------------------------------
/// A pair of single-precision floats, as their bit patterns.
#[derive(Clone, Copy, Debug)]
pub struct Vec2f {
    pub x: u32,
    pub y: u32,
}

impl View for Vec2f {
    type V = Vec2f;

    open spec fn view(&self) -> Vec2f {
        *self
    }
}

/// The 8 bytes at `i` read as a `Vec2f`.
pub open spec fn vec2f_at(s: Seq<u8>, i: int) -> Vec2f {
    Vec2f {
        x: be_u32_at(s, i),
        y: be_u32_at(s, i + 4),
    }
}

pub fn read_vec2f(data: &[u8], pos: usize) -> (v: Vec2f)
    requires
        pos + 8 <= data@.len(),
    ensures
        v == vec2f_at(data@, pos as int),
{
    let _len = data.len();
    Vec2f {
        x: read_be_u32(data, pos),
        y: read_be_u32(data, pos + 4),
    }
}

impl FromStream for Vec2f {
    type Output = Vec2f;

    open spec fn parse_spec(s: Seq<u8>, i: int) -> Parse<Vec2f> {
        fixed(s, i, 8, vec2f_at(s, i))
    }

    proof fn lemma_progress(s: Seq<u8>, i: int) {
    }

    proof fn lemma_prefix(s: Seq<u8>, t: Seq<u8>, i: int) {
    }

    proof fn lemma_shift(p: Seq<u8>, s: Seq<u8>, i: int) {
    }

    fn parse_at(data: &Vec<u8>, pos: usize) -> (r: Result<(Vec2f, usize), Stop>) {
        if data.len() - pos < 8 {
            return Err(Stop::Fail(Error::UnexpectedEof, None));
        }
        let r = Ok((read_vec2f(data.as_slice(), pos), pos + 8));
        assert(parsed_as(r, Self::parse_spec(data@, pos as int)));
        r
    }
}


//------------------------------------------------------------------
/// Three single-precision floats, as their bit patterns.
#[derive(Clone, Copy, Debug)]
pub struct Vec3f {
    pub x: u32,
    pub y: u32,
    pub z: u32,
}

impl View for Vec3f {
    type V = Vec3f;

    open spec fn view(&self) -> Vec3f {
        *self
    }
}

/// The 12 bytes at `i` read as a `Vec3f`.
pub open spec fn vec3f_at(s: Seq<u8>, i: int) -> Vec3f {
    Vec3f {
        x: be_u32_at(s, i),
        y: be_u32_at(s, i + 4),
        z: be_u32_at(s, i + 8),
    }
}

pub fn read_vec3f(data: &[u8], pos: usize) -> (v: Vec3f)
    requires
        pos + 12 <= data@.len(),
    ensures
        v == vec3f_at(data@, pos as int),
{
    let _len = data.len();
    Vec3f {
        x: read_be_u32(data, pos),
        y: read_be_u32(data, pos + 4),
        z: read_be_u32(data, pos + 8),
    }
}

impl FromStream for Vec3f {
    type Output = Vec3f;

    open spec fn parse_spec(s: Seq<u8>, i: int) -> Parse<Vec3f> {
        fixed(s, i, 12, vec3f_at(s, i))
    }

    proof fn lemma_progress(s: Seq<u8>, i: int) {
    }

    proof fn lemma_prefix(s: Seq<u8>, t: Seq<u8>, i: int) {
    }

    proof fn lemma_shift(p: Seq<u8>, s: Seq<u8>, i: int) {
    }

    fn parse_at(data: &Vec<u8>, pos: usize) -> (r: Result<(Vec3f, usize), Stop>) {
        if data.len() - pos < 12 {
            return Err(Stop::Fail(Error::UnexpectedEof, None));
        }
        let r = Ok((read_vec3f(data.as_slice(), pos), pos + 12));
        assert(parsed_as(r, Self::parse_spec(data@, pos as int)));
        r
    }
}


//------------------------------------------------------------------
/// Four single-precision floats, as their bit patterns.
#[derive(Clone, Copy, Debug)]
pub struct Vec4f {
    pub x: u32,
    pub y: u32,
    pub z: u32,
    pub w: u32,
}

impl View for Vec4f {
    type V = Vec4f;

    open spec fn view(&self) -> Vec4f {
        *self
    }
}

/// The 16 bytes at `i` read as a `Vec4f`.
pub open spec fn vec4f_at(s: Seq<u8>, i: int) -> Vec4f {
    Vec4f {
        x: be_u32_at(s, i),
        y: be_u32_at(s, i + 4),
        z: be_u32_at(s, i + 8),
        w: be_u32_at(s, i + 12),
    }
}

pub fn read_vec4f(data: &[u8], pos: usize) -> (v: Vec4f)
    requires
        pos + 16 <= data@.len(),
    ensures
        v == vec4f_at(data@, pos as int),
{
    let _len = data.len();
    Vec4f {
        x: read_be_u32(data, pos),
        y: read_be_u32(data, pos + 4),
        z: read_be_u32(data, pos + 8),
        w: read_be_u32(data, pos + 12),
    }
}

impl FromStream for Vec4f {
    type Output = Vec4f;

    open spec fn parse_spec(s: Seq<u8>, i: int) -> Parse<Vec4f> {
        fixed(s, i, 16, vec4f_at(s, i))
    }

    proof fn lemma_progress(s: Seq<u8>, i: int) {
    }

    proof fn lemma_prefix(s: Seq<u8>, t: Seq<u8>, i: int) {
    }

    proof fn lemma_shift(p: Seq<u8>, s: Seq<u8>, i: int) {
    }

    fn parse_at(data: &Vec<u8>, pos: usize) -> (r: Result<(Vec4f, usize), Stop>) {
        if data.len() - pos < 16 {
            return Err(Stop::Fail(Error::UnexpectedEof, None));
        }
        let r = Ok((read_vec4f(data.as_slice(), pos), pos + 16));
        assert(parsed_as(r, Self::parse_spec(data@, pos as int)));
        r
    }
}


//------------------------------------------------------------------
/// Texture coordinates of a vertex, as float bit patterns.
#[derive(Clone, Copy, Debug)]
pub struct VertexUV {
    pub u: u32,
    pub v: u32,
}

impl View for VertexUV {
    type V = VertexUV;

    open spec fn view(&self) -> VertexUV {
        *self
    }
}

/// The 8 bytes at `i` read as a `VertexUV`.
pub open spec fn vertex_uv_at(s: Seq<u8>, i: int) -> VertexUV {
    VertexUV {
        u: be_u32_at(s, i),
        v: be_u32_at(s, i + 4),
    }
}

pub fn read_vertex_uv(data: &[u8], pos: usize) -> (v: VertexUV)
    requires
        pos + 8 <= data@.len(),
    ensures
        v == vertex_uv_at(data@, pos as int),
{
    let _len = data.len();
    VertexUV {
        u: read_be_u32(data, pos),
        v: read_be_u32(data, pos + 4),
    }
}

impl FromStream for VertexUV {
    type Output = VertexUV;

    open spec fn parse_spec(s: Seq<u8>, i: int) -> Parse<VertexUV> {
        fixed(s, i, 8, vertex_uv_at(s, i))
    }

    proof fn lemma_progress(s: Seq<u8>, i: int) {
    }

    proof fn lemma_prefix(s: Seq<u8>, t: Seq<u8>, i: int) {
    }

    proof fn lemma_shift(p: Seq<u8>, s: Seq<u8>, i: int) {
    }

    fn parse_at(data: &Vec<u8>, pos: usize) -> (r: Result<(VertexUV, usize), Stop>) {
        if data.len() - pos < 8 {
            return Err(Stop::Fail(Error::UnexpectedEof, None));
        }
        let r = Ok((read_vertex_uv(data.as_slice(), pos), pos + 8));
        assert(parsed_as(r, Self::parse_spec(data@, pos as int)));
        r
    }
}


//------------------------------------------------------------------
/// A triangle: three vertex indices, a smoothing group and flags.
#[derive(Clone, Copy, Debug)]
pub struct Face {
    pub v1: u16,
    pub v2: u16,
    pub v3: u16,
    pub smoothing: u16,
    pub flags: u8,
}

impl View for Face {
    type V = Face;

    open spec fn view(&self) -> Face {
        *self
    }
}

/// The 9 bytes at `i` read as a `Face`.
pub open spec fn face_at(s: Seq<u8>, i: int) -> Face {
    Face {
        v1: be_u16_at(s, i),
        v2: be_u16_at(s, i + 2),
        v3: be_u16_at(s, i + 4),
        smoothing: be_u16_at(s, i + 6),
        flags: s[i + 8],
    }
}

pub fn read_face(data: &[u8], pos: usize) -> (v: Face)
    requires
        pos + 9 <= data@.len(),
    ensures
        v == face_at(data@, pos as int),
{
    let _len = data.len();
    Face {
        v1: read_be_u16(data, pos),
        v2: read_be_u16(data, pos + 2),
        v3: read_be_u16(data, pos + 4),
        smoothing: read_be_u16(data, pos + 6),
        flags: data[pos + 8],
    }
}

impl FromStream for Face {
    type Output = Face;

    open spec fn parse_spec(s: Seq<u8>, i: int) -> Parse<Face> {
        fixed(s, i, 9, face_at(s, i))
    }

    proof fn lemma_progress(s: Seq<u8>, i: int) {
    }

    proof fn lemma_prefix(s: Seq<u8>, t: Seq<u8>, i: int) {
    }

    proof fn lemma_shift(p: Seq<u8>, s: Seq<u8>, i: int) {
    }

    fn parse_at(data: &Vec<u8>, pos: usize) -> (r: Result<(Face, usize), Stop>) {
        if data.len() - pos < 9 {
            return Err(Stop::Fail(Error::UnexpectedEof, None));
        }
        let r = Ok((read_face(data.as_slice(), pos), pos + 9));
        assert(parsed_as(r, Self::parse_spec(data@, pos as int)));
        r
    }
}


//------------------------------------------------------------------
#[derive(Clone, Copy, Debug)]
pub struct PivotChunk {
    pub pivot: Vec3f,
}

impl View for PivotChunk {
    type V = PivotChunk;

    open spec fn view(&self) -> PivotChunk {
        *self
    }
}

/// The 12 bytes at `i` read as a `PivotChunk`.
pub open spec fn pivot_chunk_at(s: Seq<u8>, i: int) -> PivotChunk {
    PivotChunk {
        pivot: vec3f_at(s, i),
    }
}

pub fn read_pivot_chunk(data: &[u8], pos: usize) -> (v: PivotChunk)
    requires
        pos + 12 <= data@.len(),
    ensures
        v == pivot_chunk_at(data@, pos as int),
{
    let _len = data.len();
    PivotChunk {
        pivot: read_vec3f(data, pos),
    }
}

impl FromStream for PivotChunk {
    type Output = PivotChunk;

    open spec fn parse_spec(s: Seq<u8>, i: int) -> Parse<PivotChunk> {
        fixed(s, i, 12, pivot_chunk_at(s, i))
    }

    proof fn lemma_progress(s: Seq<u8>, i: int) {
    }

    proof fn lemma_prefix(s: Seq<u8>, t: Seq<u8>, i: int) {
    }

    proof fn lemma_shift(p: Seq<u8>, s: Seq<u8>, i: int) {
    }

    fn parse_at(data: &Vec<u8>, pos: usize) -> (r: Result<(PivotChunk, usize), Stop>) {
        if data.len() - pos < 12 {
            return Err(Stop::Fail(Error::UnexpectedEof, None));
        }
        let r = Ok((read_pivot_chunk(data.as_slice(), pos), pos + 12));
        assert(parsed_as(r, Self::parse_spec(data@, pos as int)));
        r
    }
}


//------------------------------------------------------------------
/// A colour of three float channels, as their bit patterns.
#[derive(Clone, Copy, Debug)]
pub struct Colour {
    pub r: u32,
    pub g: u32,
    pub b: u32,
}

impl View for Colour {
    type V = Colour;

    open spec fn view(&self) -> Colour {
        *self
    }
}

/// The 12 bytes at `i` read as a `Colour`.
pub open spec fn colour_at(s: Seq<u8>, i: int) -> Colour {
    Colour {
        r: be_u32_at(s, i),
        g: be_u32_at(s, i + 4),
        b: be_u32_at(s, i + 8),
    }
}

pub fn read_colour(data: &[u8], pos: usize) -> (v: Colour)
    requires
        pos + 12 <= data@.len(),
    ensures
        v == colour_at(data@, pos as int),
{
    let _len = data.len();
    Colour {
        r: read_be_u32(data, pos),
        g: read_be_u32(data, pos + 4),
        b: read_be_u32(data, pos + 8),
    }
}

impl FromStream for Colour {
    type Output = Colour;

    open spec fn parse_spec(s: Seq<u8>, i: int) -> Parse<Colour> {
        fixed(s, i, 12, colour_at(s, i))
    }

    proof fn lemma_progress(s: Seq<u8>, i: int) {
    }

    proof fn lemma_prefix(s: Seq<u8>, t: Seq<u8>, i: int) {
    }

    proof fn lemma_shift(p: Seq<u8>, s: Seq<u8>, i: int) {
    }

    fn parse_at(data: &Vec<u8>, pos: usize) -> (r: Result<(Colour, usize), Stop>) {
        if data.len() - pos < 12 {
            return Err(Stop::Fail(Error::UnexpectedEof, None));
        }
        let r = Ok((read_colour(data.as_slice(), pos), pos + 12));
        assert(parsed_as(r, Self::parse_spec(data@, pos as int)));
        r
    }
}


//------------------------------------------------------------------
/// A colour of three byte channels.
#[derive(Clone, Copy, Debug)]
pub struct Rgb {
    pub r: u8,
    pub g: u8,
    pub b: u8,
}

impl View for Rgb {
    type V = Rgb;

    open spec fn view(&self) -> Rgb {
        *self
    }
}

/// The 3 bytes at `i` read as a `Rgb`.
pub open spec fn rgb_at(s: Seq<u8>, i: int) -> Rgb {
    Rgb {
        r: s[i],
        g: s[i + 1],
        b: s[i + 2],
    }
}

pub fn read_rgb(data: &[u8], pos: usize) -> (v: Rgb)
    requires
        pos + 3 <= data@.len(),
    ensures
        v == rgb_at(data@, pos as int),
{
    let _len = data.len();
    Rgb {
        r: data[pos],
        g: data[pos + 1],
        b: data[pos + 2],
    }
}

impl FromStream for Rgb {
    type Output = Rgb;

    open spec fn parse_spec(s: Seq<u8>, i: int) -> Parse<Rgb> {
        fixed(s, i, 3, rgb_at(s, i))
    }

    proof fn lemma_progress(s: Seq<u8>, i: int) {
    }

    proof fn lemma_prefix(s: Seq<u8>, t: Seq<u8>, i: int) {
    }

    proof fn lemma_shift(p: Seq<u8>, s: Seq<u8>, i: int) {
    }

    fn parse_at(data: &Vec<u8>, pos: usize) -> (r: Result<(Rgb, usize), Stop>) {
        if data.len() - pos < 3 {
            return Err(Stop::Fail(Error::UnexpectedEof, None));
        }
        let r = Ok((read_rgb(data.as_slice(), pos), pos + 3));
        assert(parsed_as(r, Self::parse_spec(data@, pos as int)));
        r
    }
}


//------------------------------------------------------------------
pub type Vertex = Vec3f;

/// An angle, as the bit pattern of a single-precision float.
pub type Angle = u32;

//------------------------------------------------------------------
pub struct VerticesChunk {
    pub vertices: Vec<Vertex>,
}

impl View for VerticesChunk {
    type V = Seq<Vec3f>;

    open spec fn view(&self) -> Seq<Vec3f> {
        views(self.vertices@)
    }
}

impl FromStream for VerticesChunk {
    type Output = VerticesChunk;

    open spec fn parse_spec(s: Seq<u8>, i: int) -> Parse<Seq<Vec3f>> {
        counted_at::<Vec3f>(s, i)
    }

    proof fn lemma_progress(s: Seq<u8>, i: int) {
        lemma_counted_progress::<Vec3f>(s, i);
    }

    proof fn lemma_prefix(s: Seq<u8>, t: Seq<u8>, i: int) {
        lemma_counted_prefix::<Vec3f>(s, t, i);
    }

    proof fn lemma_shift(p: Seq<u8>, s: Seq<u8>, i: int) {
        lemma_counted_shift::<Vec3f>(p, s, i);
    }

    fn parse_at(data: &Vec<u8>, pos: usize) -> (r: Result<(VerticesChunk, usize), Stop>) {
        let r = match parse_counted::<Vec3f>(data, pos) {
            Ok((vertices, e)) => Ok((VerticesChunk { vertices }, e)),
            Err(stop) => Err(stop),
        };
        assert(parsed_as(r, Self::parse_spec(data@, pos as int)));
        r
    }
}

//------------------------------------------------------------------
pub struct VertexUvChunk {
    pub uvs: Vec<VertexUV>,
}

impl View for VertexUvChunk {
    type V = Seq<VertexUV>;

    open spec fn view(&self) -> Seq<VertexUV> {
        views(self.uvs@)
    }
}

impl FromStream for VertexUvChunk {
    type Output = VertexUvChunk;

    open spec fn parse_spec(s: Seq<u8>, i: int) -> Parse<Seq<VertexUV>> {
        counted_at::<VertexUV>(s, i)
    }

    proof fn lemma_progress(s: Seq<u8>, i: int) {
        lemma_counted_progress::<VertexUV>(s, i);
    }

    proof fn lemma_prefix(s: Seq<u8>, t: Seq<u8>, i: int) {
        lemma_counted_prefix::<VertexUV>(s, t, i);
    }

    proof fn lemma_shift(p: Seq<u8>, s: Seq<u8>, i: int) {
        lemma_counted_shift::<VertexUV>(p, s, i);
    }

    fn parse_at(data: &Vec<u8>, pos: usize) -> (r: Result<(VertexUvChunk, usize), Stop>) {
        let r = match parse_counted::<VertexUV>(data, pos) {
            Ok((uvs, e)) => Ok((VertexUvChunk { uvs }, e)),
            Err(stop) => Err(stop),
        };
        assert(parsed_as(r, Self::parse_spec(data@, pos as int)));
        r
    }
}

//------------------------------------------------------------------
pub struct FacesChunk {
    pub faces: Vec<Face>,
}

impl View for FacesChunk {
    type V = Seq<Face>;

    open spec fn view(&self) -> Seq<Face> {
        views(self.faces@)
    }
}

impl FromStream for FacesChunk {
    type Output = FacesChunk;

    open spec fn parse_spec(s: Seq<u8>, i: int) -> Parse<Seq<Face>> {
        counted_at::<Face>(s, i)
    }

    proof fn lemma_progress(s: Seq<u8>, i: int) {
        lemma_counted_progress::<Face>(s, i);
    }

    proof fn lemma_prefix(s: Seq<u8>, t: Seq<u8>, i: int) {
        lemma_counted_prefix::<Face>(s, t, i);
    }

    proof fn lemma_shift(p: Seq<u8>, s: Seq<u8>, i: int) {
        lemma_counted_shift::<Face>(p, s, i);
    }

    fn parse_at(data: &Vec<u8>, pos: usize) -> (r: Result<(FacesChunk, usize), Stop>) {
        let r = match parse_counted::<Face>(data, pos) {
            Ok((faces, e)) => Ok((FacesChunk { faces }, e)),
            Err(stop) => Err(stop),
        };
        assert(parsed_as(r, Self::parse_spec(data@, pos as int)));
        r
    }
}

//------------------------------------------------------------------
/// Material index of each face. Only entries of two bytes are read: a chunk
/// that declares another entry size stops the loader.
pub struct FaceMaterialChunk {
    pub face_material_indices: Vec<u16>,
}

impl View for FaceMaterialChunk {
    type V = Seq<u16>;

    open spec fn view(&self) -> Seq<u16> {
        views(self.face_material_indices@)
    }
}

impl FromStream for FaceMaterialChunk {
    type Output = FaceMaterialChunk;

    /// Entry count, entry size, then the entries.
    open spec fn parse_spec(s: Seq<u8>, i: int) -> Parse<Seq<u16>> {
        if !available(s, i, 8) {
            Parse::Fail(Error::UnexpectedEof, None)
        } else if be_u32_at(s, i + 4) != 2 {
            Parse::Abort
        } else {
            array_at::<u16>(s, i + 8, be_u32_at(s, i) as nat)
        }
    }

    proof fn lemma_progress(s: Seq<u8>, i: int) {
        if available(s, i, 8) {
            lemma_array_progress::<u16>(s, i + 8, be_u32_at(s, i) as nat);
        }
    }

    proof fn lemma_prefix(s: Seq<u8>, t: Seq<u8>, i: int) {
        lemma_array_prefix::<u16>(s, t, i + 8, be_u32_at(s, i) as nat);
    }

    proof fn lemma_shift(p: Seq<u8>, s: Seq<u8>, i: int) {
        if available(s, i, 8) {
            assert(be_u32_at(p + s, p.len() + i) == be_u32_at(s, i));
            assert(be_u32_at(p + s, p.len() + i + 4) == be_u32_at(s, i + 4));
            lemma_array_shift::<u16>(p, s, i + 8, be_u32_at(s, i) as nat);
        }
    }

    fn parse_at(data: &Vec<u8>, pos: usize) -> (r: Result<(FaceMaterialChunk, usize), Stop>) {
        if data.len() - pos < 8 {
            return Err(Stop::Fail(Error::UnexpectedEof, None));
        }
        let entry_count = read_be_u32(data.as_slice(), pos);
        let entry_size = read_be_u32(data.as_slice(), pos + 4);
        if entry_size != 2 {
            return Err(Stop::Abort);
        }
        let r = match parse_array::<u16>(data, pos + 8, entry_count) {
            Ok((face_material_indices, e)) => Ok((FaceMaterialChunk { face_material_indices }, e)),
            Err(stop) => Err(stop),
        };
        assert(parsed_as(r, Self::parse_spec(data@, pos as int)));
        r
    }
}


//------------------------------------------------------------------
// Material chunks: (BrMaterialLoadMany)
//------------------------------------------------------------------
/// The flags of a material, as the bits of `material_flags`.
#[derive(Clone, Copy, Debug)]
pub struct MaterialFlags(pub u16);

impl View for MaterialFlags {
    type V = MaterialFlags;

    open spec fn view(&self) -> MaterialFlags {
        *self
    }
}

/// `text` followed by `name` when `flag` is set in `bits`.
pub open spec fn with_flag(text: Seq<char>, bits: u16, flag: u16, name: Seq<char>) -> Seq<char> {
    if bits & flag != 0 {
        text + name
    } else {
        text
    }
}

/// The names of the flags set in `bits`, each followed by a space, in
/// brackets.
pub open spec fn material_flags_text(bits: u16) -> Seq<char> {
    let text = with_flag("["@, bits, material_flags::LIGHT, "LIGHT "@);
    let text = with_flag(text, bits, material_flags::PRELIT, "PRELIT "@);
    let text = with_flag(text, bits, material_flags::SMOOTH, "SMOOTH "@);
    let text = with_flag(text, bits, material_flags::ENVIRONMENT_I, "ENVIRONMENT_I "@);
    let text = with_flag(text, bits, material_flags::ENVIRONMENT_L, "ENVIRONMENT_L "@);
    let text = with_flag(text, bits, material_flags::PERSPECTIVE, "PERSPECTIVE "@);
    let text = with_flag(text, bits, material_flags::DECAL, "DECAL "@);
    let text = with_flag(text, bits, material_flags::I_FROM_U, "I_FROM_U "@);
    let text = with_flag(text, bits, material_flags::I_FROM_V, "I_FROM_V "@);
    let text = with_flag(text, bits, material_flags::U_FROM_I, "U_FROM_I "@);
    let text = with_flag(text, bits, material_flags::V_FROM_I, "V_FROM_I "@);
    let text = with_flag(text, bits, material_flags::ALWAYS_VISIBLE, "ALWAYS_VISIBLE "@);
    let text = with_flag(text, bits, material_flags::TWO_SIDED, "TWO_SIDED "@);
    let text = with_flag(text, bits, material_flags::FORCE_Z_0, "FORCE_Z_0 "@);
    let text = with_flag(text, bits, material_flags::DITHER, "DITHER "@);
    let text = with_flag(text, bits, material_flags::CUSTOM, "CUSTOM "@);
    text + "]"@
}

impl MaterialFlags {
    /// The names of the flags that are set, as in `[LIGHT SMOOTH ]`.
    pub fn describe(&self) -> (r: String)
        ensures
            r@ == material_flags_text(self.0),
    {
        let bits = self.0;
        let mut text = String::from_str("[");
        if bits & material_flags::LIGHT != 0 {
            text.append("LIGHT ");
        }
        if bits & material_flags::PRELIT != 0 {
            text.append("PRELIT ");
        }
        if bits & material_flags::SMOOTH != 0 {
            text.append("SMOOTH ");
        }
        if bits & material_flags::ENVIRONMENT_I != 0 {
            text.append("ENVIRONMENT_I ");
        }
        if bits & material_flags::ENVIRONMENT_L != 0 {
            text.append("ENVIRONMENT_L ");
        }
        if bits & material_flags::PERSPECTIVE != 0 {
            text.append("PERSPECTIVE ");
        }
        if bits & material_flags::DECAL != 0 {
            text.append("DECAL ");
        }
        if bits & material_flags::I_FROM_U != 0 {
            text.append("I_FROM_U ");
        }
        if bits & material_flags::I_FROM_V != 0 {
            text.append("I_FROM_V ");
        }
        if bits & material_flags::U_FROM_I != 0 {
            text.append("U_FROM_I ");
        }
        if bits & material_flags::V_FROM_I != 0 {
            text.append("V_FROM_I ");
        }
        if bits & material_flags::ALWAYS_VISIBLE != 0 {
            text.append("ALWAYS_VISIBLE ");
        }
        if bits & material_flags::TWO_SIDED != 0 {
            text.append("TWO_SIDED ");
        }
        if bits & material_flags::FORCE_Z_0 != 0 {
            text.append("FORCE_Z_0 ");
        }
        if bits & material_flags::DITHER != 0 {
            text.append("DITHER ");
        }
        if bits & material_flags::CUSTOM != 0 {
            text.append("CUSTOM ");
        }
        text.append("]");
        text
    }
}

//------------------------------------------------------------------
/// Surface properties of a material, and its name.
pub struct MaterialChunk {
    /// The colour as the file stores it, one byte per channel (a channel of
    /// the float colour is the byte over 255).
    pub color: Rgb,
    pub opacity: u8,
    pub ka: u32,
    pub kd: u32,
    pub ks: u32,
    pub power: u32,
    pub flags: MaterialFlags,
    pub map_transform_x: Vec2f,
    pub map_transform_y: Vec2f,
    pub map_transform_z: Vec2f,
    pub index_base: u8,
    pub index_range: u8,
    pub identifier: String,
}

pub struct MaterialChunkView {
    pub color: Rgb,
    pub opacity: u8,
    pub ka: u32,
    pub kd: u32,
    pub ks: u32,
    pub power: u32,
    pub flags: MaterialFlags,
    pub map_transform_x: Vec2f,
    pub map_transform_y: Vec2f,
    pub map_transform_z: Vec2f,
    pub index_base: u8,
    pub index_range: u8,
    pub identifier: Seq<char>,
}

impl View for MaterialChunk {
    type V = MaterialChunkView;

    open spec fn view(&self) -> MaterialChunkView {
        MaterialChunkView {
            color: self.color,
            opacity: self.opacity,
            ka: self.ka,
            kd: self.kd,
            ks: self.ks,
            power: self.power,
            flags: self.flags,
            map_transform_x: self.map_transform_x,
            map_transform_y: self.map_transform_y,
            map_transform_z: self.map_transform_z,
            index_base: self.index_base,
            index_range: self.index_range,
            identifier: self.identifier@,
        }
    }
}

impl FromStream for MaterialChunk {
    type Output = MaterialChunk;

    open spec fn parse_spec(s: Seq<u8>, i: int) -> Parse<MaterialChunkView> {
        fixed_then_string(
            s,
            i,
            48,
            |identifier: Seq<char>|
                MaterialChunkView {
                    color: rgb_at(s, i),
                    opacity: s[i + 3],
                    ka: be_u32_at(s, i + 4),
                    kd: be_u32_at(s, i + 8),
                    ks: be_u32_at(s, i + 12),
                    power: be_u32_at(s, i + 16),
                    flags: MaterialFlags(be_u16_at(s, i + 20)),
                    map_transform_x: vec2f_at(s, i + 22),
                    map_transform_y: vec2f_at(s, i + 30),
                    map_transform_z: vec2f_at(s, i + 38),
                    index_base: s[i + 46],
                    index_range: s[i + 47],
                    identifier,
                },
        )
    }

    proof fn lemma_progress(s: Seq<u8>, i: int) {
        lemma_c_string_progress(s, i + 48);
    }

    proof fn lemma_prefix(s: Seq<u8>, t: Seq<u8>, i: int) {
        lemma_c_string_prefix(s, t, i + 48);
    }

    proof fn lemma_shift(p: Seq<u8>, s: Seq<u8>, i: int) {
        lemma_c_string_shift(p, s, i + 48);
    }

    fn parse_at(data: &Vec<u8>, pos: usize) -> (r: Result<(MaterialChunk, usize), Stop>) {
        if data.len() - pos < 48 {
            return Err(Stop::Fail(Error::UnexpectedEof, None));
        }
        let color = read_rgb(data.as_slice(), pos);
        let opacity = data[pos + 3];
        let ka = read_be_u32(data.as_slice(), pos + 4);
        let kd = read_be_u32(data.as_slice(), pos + 8);
        let ks = read_be_u32(data.as_slice(), pos + 12);
        let power = read_be_u32(data.as_slice(), pos + 16);
        let flags = MaterialFlags(read_be_u16(data.as_slice(), pos + 20));
        let map_transform_x = read_vec2f(data.as_slice(), pos + 22);
        let map_transform_y = read_vec2f(data.as_slice(), pos + 30);
        let map_transform_z = read_vec2f(data.as_slice(), pos + 38);
        let index_base = data[pos + 46];
        let index_range = data[pos + 47];
        let r = match read_c_string(data, pos + 48) {
            Ok((identifier, e)) => Ok(
                (
                    MaterialChunk {
                        color,
                        opacity,
                        ka,
                        kd,
                        ks,
                        power,
                        flags,
                        map_transform_x,
                        map_transform_y,
                        map_transform_z,
                        index_base,
                        index_range,
                        identifier,
                    },
                    e,
                ),
            ),
            Err(stop) => Err(stop),
        };
        assert(parsed_as(r, Self::parse_spec(data@, pos as int)));
        r
    }
}


//------------------------------------------------------------------
/// Header of a pixelmap: its layout and name.
pub struct PixelMapChunk {
    pub pixel_type: u8,
    pub row_bytes: u16,
    pub width: u16,
    pub height: u16,
    pub origin_x: u16,
    pub origin_y: u16,
    pub identifier: String,
}

pub struct PixelMapChunkView {
    pub pixel_type: u8,
    pub row_bytes: u16,
    pub width: u16,
    pub height: u16,
    pub origin_x: u16,
    pub origin_y: u16,
    pub identifier: Seq<char>,
}

impl View for PixelMapChunk {
    type V = PixelMapChunkView;

    open spec fn view(&self) -> PixelMapChunkView {
        PixelMapChunkView {
            pixel_type: self.pixel_type,
            row_bytes: self.row_bytes,
            width: self.width,
            height: self.height,
            origin_x: self.origin_x,
            origin_y: self.origin_y,
            identifier: self.identifier@,
        }
    }
}

impl FromStream for PixelMapChunk {
    type Output = PixelMapChunk;

    open spec fn parse_spec(s: Seq<u8>, i: int) -> Parse<PixelMapChunkView> {
        fixed_then_string(
            s,
            i,
            11,
            |identifier: Seq<char>|
                PixelMapChunkView {
                    pixel_type: s[i],
                    row_bytes: be_u16_at(s, i + 1),
                    width: be_u16_at(s, i + 3),
                    height: be_u16_at(s, i + 5),
                    origin_x: be_u16_at(s, i + 7),
                    origin_y: be_u16_at(s, i + 9),
                    identifier,
                },
        )
    }

    proof fn lemma_progress(s: Seq<u8>, i: int) {
        lemma_c_string_progress(s, i + 11);
    }

    proof fn lemma_prefix(s: Seq<u8>, t: Seq<u8>, i: int) {
        lemma_c_string_prefix(s, t, i + 11);
    }

    proof fn lemma_shift(p: Seq<u8>, s: Seq<u8>, i: int) {
        lemma_c_string_shift(p, s, i + 11);
    }

    fn parse_at(data: &Vec<u8>, pos: usize) -> (r: Result<(PixelMapChunk, usize), Stop>) {
        if data.len() - pos < 11 {
            return Err(Stop::Fail(Error::UnexpectedEof, None));
        }
        let pixel_type = data[pos];
        let row_bytes = read_be_u16(data.as_slice(), pos + 1);
        let width = read_be_u16(data.as_slice(), pos + 3);
        let height = read_be_u16(data.as_slice(), pos + 5);
        let origin_x = read_be_u16(data.as_slice(), pos + 7);
        let origin_y = read_be_u16(data.as_slice(), pos + 9);
        let r = match read_c_string(data, pos + 11) {
            Ok((identifier, e)) => Ok(
                (
                    PixelMapChunk {
                        pixel_type,
                        row_bytes,
                        width,
                        height,
                        origin_x,
                        origin_y,
                        identifier,
                    },
                    e,
                ),
            ),
            Err(stop) => Err(stop),
        };
        assert(parsed_as(r, Self::parse_spec(data@, pos as int)));
        r
    }
}


//------------------------------------------------------------------
pub struct ActorChunk {
    pub actor_type: u8,
    pub render_style: u8,
    pub identifier: String,
}

pub struct ActorChunkView {
    pub actor_type: u8,
    pub render_style: u8,
    pub identifier: Seq<char>,
}

impl View for ActorChunk {
    type V = ActorChunkView;

    open spec fn view(&self) -> ActorChunkView {
        ActorChunkView {
            actor_type: self.actor_type,
            render_style: self.render_style,
            identifier: self.identifier@,
        }
    }
}

impl FromStream for ActorChunk {
    type Output = ActorChunk;

    open spec fn parse_spec(s: Seq<u8>, i: int) -> Parse<ActorChunkView> {
        fixed_then_string(
            s,
            i,
            2,
            |identifier: Seq<char>|
                ActorChunkView {
                    actor_type: s[i],
                    render_style: s[i + 1],
                    identifier,
                },
        )
    }

    proof fn lemma_progress(s: Seq<u8>, i: int) {
        lemma_c_string_progress(s, i + 2);
    }

    proof fn lemma_prefix(s: Seq<u8>, t: Seq<u8>, i: int) {
        lemma_c_string_prefix(s, t, i + 2);
    }

    proof fn lemma_shift(p: Seq<u8>, s: Seq<u8>, i: int) {
        lemma_c_string_shift(p, s, i + 2);
    }

    fn parse_at(data: &Vec<u8>, pos: usize) -> (r: Result<(ActorChunk, usize), Stop>) {
        if data.len() - pos < 2 {
            return Err(Stop::Fail(Error::UnexpectedEof, None));
        }
        let actor_type = data[pos];
        let render_style = data[pos + 1];
        let r = match read_c_string(data, pos + 2) {
            Ok((identifier, e)) => Ok((ActorChunk { actor_type, render_style, identifier }, e)),
            Err(stop) => Err(stop),
        };
        assert(parsed_as(r, Self::parse_spec(data@, pos as int)));
        r
    }
}


//------------------------------------------------------------------
pub struct LightChunk {
    pub light_type: u8,
    /// The colour as the file stores it, one byte per channel.
    pub color: Rgb,
    pub attn_c: u32,
    pub attn_l: u32,
    pub attn_q: u32,
    pub cone_inner: Angle,
    pub cone_outer: Angle,
    pub identifier: String,
}

pub struct LightChunkView {
    pub light_type: u8,
    pub color: Rgb,
    pub attn_c: u32,
    pub attn_l: u32,
    pub attn_q: u32,
    pub cone_inner: Angle,
    pub cone_outer: Angle,
    pub identifier: Seq<char>,
}

impl View for LightChunk {
    type V = LightChunkView;

    open spec fn view(&self) -> LightChunkView {
        LightChunkView {
            light_type: self.light_type,
            color: self.color,
            attn_c: self.attn_c,
            attn_l: self.attn_l,
            attn_q: self.attn_q,
            cone_inner: self.cone_inner,
            cone_outer: self.cone_outer,
            identifier: self.identifier@,
        }
    }
}

impl FromStream for LightChunk {
    type Output = LightChunk;

    open spec fn parse_spec(s: Seq<u8>, i: int) -> Parse<LightChunkView> {
        fixed_then_string(
            s,
            i,
            24,
            |identifier: Seq<char>|
                LightChunkView {
                    light_type: s[i],
                    color: rgb_at(s, i + 1),
                    attn_c: be_u32_at(s, i + 4),
                    attn_l: be_u32_at(s, i + 8),
                    attn_q: be_u32_at(s, i + 12),
                    cone_inner: be_u32_at(s, i + 16),
                    cone_outer: be_u32_at(s, i + 20),
                    identifier,
                },
        )
    }

    proof fn lemma_progress(s: Seq<u8>, i: int) {
        lemma_c_string_progress(s, i + 24);
    }

    proof fn lemma_prefix(s: Seq<u8>, t: Seq<u8>, i: int) {
        lemma_c_string_prefix(s, t, i + 24);
    }

    proof fn lemma_shift(p: Seq<u8>, s: Seq<u8>, i: int) {
        lemma_c_string_shift(p, s, i + 24);
    }

    fn parse_at(data: &Vec<u8>, pos: usize) -> (r: Result<(LightChunk, usize), Stop>) {
        if data.len() - pos < 24 {
            return Err(Stop::Fail(Error::UnexpectedEof, None));
        }
        let light_type = data[pos];
        let color = read_rgb(data.as_slice(), pos + 1);
        let attn_c = read_be_u32(data.as_slice(), pos + 4);
        let attn_l = read_be_u32(data.as_slice(), pos + 8);
        let attn_q = read_be_u32(data.as_slice(), pos + 12);
        let cone_inner = read_be_u32(data.as_slice(), pos + 16);
        let cone_outer = read_be_u32(data.as_slice(), pos + 20);
        let r = match read_c_string(data, pos + 24) {
            Ok((identifier, e)) => Ok(
                (
                    LightChunk {
                        light_type,
                        color,
                        attn_c,
                        attn_l,
                        attn_q,
                        cone_inner,
                        cone_outer,
                        identifier,
                    },
                    e,
                ),
            ),
            Err(stop) => Err(stop),
        };
        assert(parsed_as(r, Self::parse_spec(data@, pos as int)));
        r
    }
}


//------------------------------------------------------------------
pub struct CameraChunk {
    pub camera_type: u8,
    pub fov: Angle,
    pub hither_z: u32,
    pub yon_z: u32,
    pub aspect: u32,
    pub identifier: String,
}

pub struct CameraChunkView {
    pub camera_type: u8,
    pub fov: Angle,
    pub hither_z: u32,
    pub yon_z: u32,
    pub aspect: u32,
    pub identifier: Seq<char>,
}

impl View for CameraChunk {
    type V = CameraChunkView;

    open spec fn view(&self) -> CameraChunkView {
        CameraChunkView {
            camera_type: self.camera_type,
            fov: self.fov,
            hither_z: self.hither_z,
            yon_z: self.yon_z,
            aspect: self.aspect,
            identifier: self.identifier@,
        }
    }
}

impl FromStream for CameraChunk {
    type Output = CameraChunk;

    open spec fn parse_spec(s: Seq<u8>, i: int) -> Parse<CameraChunkView> {
        fixed_then_string(
            s,
            i,
            17,
            |identifier: Seq<char>|
                CameraChunkView {
                    camera_type: s[i],
                    fov: be_u32_at(s, i + 1),
                    hither_z: be_u32_at(s, i + 5),
                    yon_z: be_u32_at(s, i + 9),
                    aspect: be_u32_at(s, i + 13),
                    identifier,
                },
        )
    }

    proof fn lemma_progress(s: Seq<u8>, i: int) {
        lemma_c_string_progress(s, i + 17);
    }

    proof fn lemma_prefix(s: Seq<u8>, t: Seq<u8>, i: int) {
        lemma_c_string_prefix(s, t, i + 17);
    }

    proof fn lemma_shift(p: Seq<u8>, s: Seq<u8>, i: int) {
        lemma_c_string_shift(p, s, i + 17);
    }

    fn parse_at(data: &Vec<u8>, pos: usize) -> (r: Result<(CameraChunk, usize), Stop>) {
        if data.len() - pos < 17 {
            return Err(Stop::Fail(Error::UnexpectedEof, None));
        }
        let camera_type = data[pos];
        let fov = read_be_u32(data.as_slice(), pos + 1);
        let hither_z = read_be_u32(data.as_slice(), pos + 5);
        let yon_z = read_be_u32(data.as_slice(), pos + 9);
        let aspect = read_be_u32(data.as_slice(), pos + 13);
        let r = match read_c_string(data, pos + 17) {
            Ok((identifier, e)) => Ok(
                (
                    CameraChunk {
                        camera_type,
                        fov,
                        hither_z,
                        yon_z,
                        aspect,
                        identifier,
                    },
                    e,
                ),
            ),
            Err(stop) => Err(stop),
        };
        assert(parsed_as(r, Self::parse_spec(data@, pos as int)));
        r
    }
}


//------------------------------------------------------------------
/// Pixel data of a pixelmap: `units` units of `unit_bytes` bytes each.
pub struct PixelsChunk {
    pub units: u32,
    pub unit_bytes: u32,
    pub data: Vec<u8>,
}

pub struct PixelsChunkView {
    pub units: u32,
    pub unit_bytes: u32,
    pub data: Seq<u8>,
}

impl View for PixelsChunk {
    type V = PixelsChunkView;

    open spec fn view(&self) -> PixelsChunkView {
        PixelsChunkView { units: self.units, unit_bytes: self.unit_bytes, data: self.data@ }
    }
}

impl FromStream for PixelsChunk {
    type Output = PixelsChunk;

    /// The payload size `units * unit_bytes` is computed in 32 bits: a size
    /// that does not fit stops the loader.
    open spec fn parse_spec(s: Seq<u8>, i: int) -> Parse<PixelsChunkView> {
        if !available(s, i, 8) {
            Parse::Fail(Error::UnexpectedEof, None)
        } else {
            let units = be_u32_at(s, i);
            let unit_bytes = be_u32_at(s, i + 4);
            let n = units as int * unit_bytes as int;
            if n > u32::MAX {
                Parse::Abort
            } else if !available(s, i + 8, n) {
                Parse::Fail(Error::UnexpectedEof, None)
            } else {
                Parse::Done(
                    PixelsChunkView { units, unit_bytes, data: s.subrange(i + 8, i + 8 + n) },
                    i + 8 + n,
                )
            }
        }
    }

    proof fn lemma_progress(s: Seq<u8>, i: int) {
        if available(s, i, 8) {
            let n = be_u32_at(s, i) as int * be_u32_at(s, i + 4) as int;
            assert(n >= 0) by (nonlinear_arith)
                requires
                    n == be_u32_at(s, i) as int * be_u32_at(s, i + 4) as int,
            ;
        }
    }

    proof fn lemma_prefix(s: Seq<u8>, t: Seq<u8>, i: int) {
        let n = be_u32_at(s, i) as int * be_u32_at(s, i + 4) as int;
        assert((s + t).subrange(i + 8, i + 8 + n) =~= s.subrange(i + 8, i + 8 + n));
    }

    proof fn lemma_shift(p: Seq<u8>, s: Seq<u8>, i: int) {
        let n = be_u32_at(s, i) as int * be_u32_at(s, i + 4) as int;
        if available(s, i, 8) {
            assert(be_u32_at(p + s, p.len() + i) == be_u32_at(s, i));
            assert(be_u32_at(p + s, p.len() + i + 4) == be_u32_at(s, i + 4));
            if n <= u32::MAX && available(s, i + 8, n) {
                assert((p + s).subrange(p.len() + i + 8, p.len() + i + 8 + n) =~= s.subrange(
                    i + 8,
                    i + 8 + n,
                ));
            }
        }
    }

    fn parse_at(data: &Vec<u8>, pos: usize) -> (r: Result<(PixelsChunk, usize), Stop>) {
        if data.len() - pos < 8 {
            return Err(Stop::Fail(Error::UnexpectedEof, None));
        }
        let units = read_be_u32(data.as_slice(), pos);
        let unit_bytes = read_be_u32(data.as_slice(), pos + 4);
        assert(units as int * unit_bytes as int <= u64::MAX) by (nonlinear_arith)
            requires
                units <= u32::MAX,
                unit_bytes <= u32::MAX,
        ;
        let wide = units as u64 * unit_bytes as u64;
        if wide > 0xffff_ffff {
            return Err(Stop::Abort);
        }
        let n = wide as usize;
        let start = pos + 8;
        if data.len() - start < n {
            return Err(Stop::Fail(Error::UnexpectedEof, None));
        }
        let mut bytes: Vec<u8> = Vec::new();
        let mut k: usize = 0;
        while k < n
            invariant
                k <= n,
                start + n <= data@.len(),
                data@.len() == data.len(),
                bytes@ == data@.subrange(start as int, start + k),
            decreases n - k,
        {
            bytes.push(data[start + k]);
            k = k + 1;
            assert(bytes@ =~= data@.subrange(start as int, start + k));
        }
        let r = Ok((PixelsChunk { units, unit_bytes, data: bytes }, start + n));
        assert(parsed_as(r, Self::parse_spec(data@, pos as int)));
        r
    }
}

//------------------------------------------------------------------
// Actor chunks: (BrActorLoadMany)
//------------------------------------------------------------------
/// empty, simply attach transform on top of stack to the actor
pub struct ActorTransformActionChunk {}

/// empty, simply attach light on top of stack to the actor
pub struct ActorLightActionChunk {}

/// empty, simply attach camera on top of stack to the actor
pub struct ActorCameraActionChunk {}

/// empty, simply attach bounds on top of stack to the actor
pub struct ActorBoundsActionChunk {}

/// empty, simply attach clip plane on top of stack to the actor
pub struct ActorClipPlaneActionChunk {}

/// empty, simply attach actor on top of stack to the actor
pub struct ActorAddChildActionChunk {}

//------------------------------------------------------------------
/// A 3x4 transform: four rows of three floats.
pub struct TransformMatrix34Chunk {
    pub m: Vec<Vec3f>,
}

impl View for TransformMatrix34Chunk {
    type V = Seq<Vec3f>;

    open spec fn view(&self) -> Seq<Vec3f> {
        views(self.m@)
    }
}

impl FromStream for TransformMatrix34Chunk {
    type Output = TransformMatrix34Chunk;

    open spec fn parse_spec(s: Seq<u8>, i: int) -> Parse<Seq<Vec3f>> {
        array_at::<Vec3f>(s, i, 4)
    }

    proof fn lemma_progress(s: Seq<u8>, i: int) {
        lemma_array_progress::<Vec3f>(s, i, 4);
    }

    proof fn lemma_prefix(s: Seq<u8>, t: Seq<u8>, i: int) {
        lemma_array_prefix::<Vec3f>(s, t, i, 4);
    }

    proof fn lemma_shift(p: Seq<u8>, s: Seq<u8>, i: int) {
        lemma_array_shift::<Vec3f>(p, s, i, 4);
    }

    fn parse_at(data: &Vec<u8>, pos: usize) -> (r: Result<(TransformMatrix34Chunk, usize), Stop>) {
        let r = match parse_array::<Vec3f>(data, pos, 4) {
            Ok((m, e)) => Ok((TransformMatrix34Chunk { m }, e)),
            Err(stop) => Err(stop),
        };
        assert(parsed_as(r, Self::parse_spec(data@, pos as int)));
        r
    }
}

//------------------------------------------------------------------
#[derive(Clone, Copy, Debug)]
pub struct TransformQuatChunk {
    pub q_x: u32,
    pub q_y: u32,
    pub q_z: u32,
    pub q_w: u32,
    pub t: Vec3f,
}

impl View for TransformQuatChunk {
    type V = TransformQuatChunk;

    open spec fn view(&self) -> TransformQuatChunk {
        *self
    }
}

/// The 28 bytes at `i` read as a `TransformQuatChunk`.
pub open spec fn transform_quat_chunk_at(s: Seq<u8>, i: int) -> TransformQuatChunk {
    TransformQuatChunk {
        q_x: be_u32_at(s, i),
        q_y: be_u32_at(s, i + 4),
        q_z: be_u32_at(s, i + 8),
        q_w: be_u32_at(s, i + 12),
        t: vec3f_at(s, i + 16),
    }
}

pub fn read_transform_quat_chunk(data: &[u8], pos: usize) -> (v: TransformQuatChunk)
    requires
        pos + 28 <= data@.len(),
    ensures
        v == transform_quat_chunk_at(data@, pos as int),
{
    let _len = data.len();
    TransformQuatChunk {
        q_x: read_be_u32(data, pos),
        q_y: read_be_u32(data, pos + 4),
        q_z: read_be_u32(data, pos + 8),
        q_w: read_be_u32(data, pos + 12),
        t: read_vec3f(data, pos + 16),
    }
}

impl FromStream for TransformQuatChunk {
    type Output = TransformQuatChunk;

    open spec fn parse_spec(s: Seq<u8>, i: int) -> Parse<TransformQuatChunk> {
        fixed(s, i, 28, transform_quat_chunk_at(s, i))
    }

    proof fn lemma_progress(s: Seq<u8>, i: int) {
    }

    proof fn lemma_prefix(s: Seq<u8>, t: Seq<u8>, i: int) {
    }

    proof fn lemma_shift(p: Seq<u8>, s: Seq<u8>, i: int) {
    }

    fn parse_at(data: &Vec<u8>, pos: usize) -> (r: Result<(TransformQuatChunk, usize), Stop>) {
        if data.len() - pos < 28 {
            return Err(Stop::Fail(Error::UnexpectedEof, None));
        }
        let r = Ok((read_transform_quat_chunk(data.as_slice(), pos), pos + 28));
        assert(parsed_as(r, Self::parse_spec(data@, pos as int)));
        r
    }
}


//------------------------------------------------------------------
#[derive(Clone, Copy, Debug)]
pub struct TransformEulerChunk {
    pub e_order: u8,
    pub e_a: Angle,
    pub e_b: Angle,
    pub e_c: Angle,
    pub t: Vec3f,
}

impl View for TransformEulerChunk {
    type V = TransformEulerChunk;

    open spec fn view(&self) -> TransformEulerChunk {
        *self
    }
}

/// The 25 bytes at `i` read as a `TransformEulerChunk`.
pub open spec fn transform_euler_chunk_at(s: Seq<u8>, i: int) -> TransformEulerChunk {
    TransformEulerChunk {
        e_order: s[i],
        e_a: be_u32_at(s, i + 1),
        e_b: be_u32_at(s, i + 5),
        e_c: be_u32_at(s, i + 9),
        t: vec3f_at(s, i + 13),
    }
}

pub fn read_transform_euler_chunk(data: &[u8], pos: usize) -> (v: TransformEulerChunk)
    requires
        pos + 25 <= data@.len(),
    ensures
        v == transform_euler_chunk_at(data@, pos as int),
{
    let _len = data.len();
    TransformEulerChunk {
        e_order: data[pos],
        e_a: read_be_u32(data, pos + 1),
        e_b: read_be_u32(data, pos + 5),
        e_c: read_be_u32(data, pos + 9),
        t: read_vec3f(data, pos + 13),
    }
}

impl FromStream for TransformEulerChunk {
    type Output = TransformEulerChunk;

    open spec fn parse_spec(s: Seq<u8>, i: int) -> Parse<TransformEulerChunk> {
        fixed(s, i, 25, transform_euler_chunk_at(s, i))
    }

    proof fn lemma_progress(s: Seq<u8>, i: int) {
    }

    proof fn lemma_prefix(s: Seq<u8>, t: Seq<u8>, i: int) {
    }

    proof fn lemma_shift(p: Seq<u8>, s: Seq<u8>, i: int) {
    }

    fn parse_at(data: &Vec<u8>, pos: usize) -> (r: Result<(TransformEulerChunk, usize), Stop>) {
        if data.len() - pos < 25 {
            return Err(Stop::Fail(Error::UnexpectedEof, None));
        }
        let r = Ok((read_transform_euler_chunk(data.as_slice(), pos), pos + 25));
        assert(parsed_as(r, Self::parse_spec(data@, pos as int)));
        r
    }
}


//------------------------------------------------------------------
#[derive(Clone, Copy, Debug)]
pub struct TransformLookUpChunk {
    pub look: Vec3f,
    pub up: Vec3f,
    pub t: Vec3f,
}

impl View for TransformLookUpChunk {
    type V = TransformLookUpChunk;

    open spec fn view(&self) -> TransformLookUpChunk {
        *self
    }
}

/// The 36 bytes at `i` read as a `TransformLookUpChunk`.
pub open spec fn transform_look_up_chunk_at(s: Seq<u8>, i: int) -> TransformLookUpChunk {
    TransformLookUpChunk {
        look: vec3f_at(s, i),
        up: vec3f_at(s, i + 12),
        t: vec3f_at(s, i + 24),
    }
}

pub fn read_transform_look_up_chunk(data: &[u8], pos: usize) -> (v: TransformLookUpChunk)
    requires
        pos + 36 <= data@.len(),
    ensures
        v == transform_look_up_chunk_at(data@, pos as int),
{
    let _len = data.len();
    TransformLookUpChunk {
        look: read_vec3f(data, pos),
        up: read_vec3f(data, pos + 12),
        t: read_vec3f(data, pos + 24),
    }
}

impl FromStream for TransformLookUpChunk {
    type Output = TransformLookUpChunk;

    open spec fn parse_spec(s: Seq<u8>, i: int) -> Parse<TransformLookUpChunk> {
        fixed(s, i, 36, transform_look_up_chunk_at(s, i))
    }

    proof fn lemma_progress(s: Seq<u8>, i: int) {
    }

    proof fn lemma_prefix(s: Seq<u8>, t: Seq<u8>, i: int) {
    }

    proof fn lemma_shift(p: Seq<u8>, s: Seq<u8>, i: int) {
    }

    fn parse_at(data: &Vec<u8>, pos: usize) -> (r: Result<(TransformLookUpChunk, usize), Stop>) {
        if data.len() - pos < 36 {
            return Err(Stop::Fail(Error::UnexpectedEof, None));
        }
        let r = Ok((read_transform_look_up_chunk(data.as_slice(), pos), pos + 36));
        assert(parsed_as(r, Self::parse_spec(data@, pos as int)));
        r
    }
}


//------------------------------------------------------------------
#[derive(Clone, Copy, Debug)]
pub struct TransformTranslationChunk {
    pub t: Vec3f,
}

impl View for TransformTranslationChunk {
    type V = TransformTranslationChunk;

    open spec fn view(&self) -> TransformTranslationChunk {
        *self
    }
}

/// The 12 bytes at `i` read as a `TransformTranslationChunk`.
pub open spec fn transform_translation_chunk_at(s: Seq<u8>, i: int) -> TransformTranslationChunk {
    TransformTranslationChunk {
        t: vec3f_at(s, i),
    }
}

pub fn read_transform_translation_chunk(data: &[u8], pos: usize) -> (v: TransformTranslationChunk)
    requires
        pos + 12 <= data@.len(),
    ensures
        v == transform_translation_chunk_at(data@, pos as int),
{
    let _len = data.len();
    TransformTranslationChunk {
        t: read_vec3f(data, pos),
    }
}

impl FromStream for TransformTranslationChunk {
    type Output = TransformTranslationChunk;

    open spec fn parse_spec(s: Seq<u8>, i: int) -> Parse<TransformTranslationChunk> {
        fixed(s, i, 12, transform_translation_chunk_at(s, i))
    }

    proof fn lemma_progress(s: Seq<u8>, i: int) {
    }

    proof fn lemma_prefix(s: Seq<u8>, t: Seq<u8>, i: int) {
    }

    proof fn lemma_shift(p: Seq<u8>, s: Seq<u8>, i: int) {
    }

    fn parse_at(data: &Vec<u8>, pos: usize) -> (r: Result<
        (TransformTranslationChunk, usize),
        Stop,
    >) {
        if data.len() - pos < 12 {
            return Err(Stop::Fail(Error::UnexpectedEof, None));
        }
        let r = Ok((read_transform_translation_chunk(data.as_slice(), pos), pos + 12));
        assert(parsed_as(r, Self::parse_spec(data@, pos as int)));
        r
    }
}


//------------------------------------------------------------------
#[derive(Clone, Copy, Debug)]
pub struct BoundsChunk {
    pub min: Vec3f,
    pub max: Vec3f,
}

impl View for BoundsChunk {
    type V = BoundsChunk;

    open spec fn view(&self) -> BoundsChunk {
        *self
    }
}

/// The 24 bytes at `i` read as a `BoundsChunk`.
pub open spec fn bounds_chunk_at(s: Seq<u8>, i: int) -> BoundsChunk {
    BoundsChunk {
        min: vec3f_at(s, i),
        max: vec3f_at(s, i + 12),
    }
}

pub fn read_bounds_chunk(data: &[u8], pos: usize) -> (v: BoundsChunk)
    requires
        pos + 24 <= data@.len(),
    ensures
        v == bounds_chunk_at(data@, pos as int),
{
    let _len = data.len();
    BoundsChunk {
        min: read_vec3f(data, pos),
        max: read_vec3f(data, pos + 12),
    }
}

impl FromStream for BoundsChunk {
    type Output = BoundsChunk;

    open spec fn parse_spec(s: Seq<u8>, i: int) -> Parse<BoundsChunk> {
        fixed(s, i, 24, bounds_chunk_at(s, i))
    }

    proof fn lemma_progress(s: Seq<u8>, i: int) {
    }

    proof fn lemma_prefix(s: Seq<u8>, t: Seq<u8>, i: int) {
    }

    proof fn lemma_shift(p: Seq<u8>, s: Seq<u8>, i: int) {
    }

    fn parse_at(data: &Vec<u8>, pos: usize) -> (r: Result<(BoundsChunk, usize), Stop>) {
        if data.len() - pos < 24 {
            return Err(Stop::Fail(Error::UnexpectedEof, None));
        }
        let r = Ok((read_bounds_chunk(data.as_slice(), pos), pos + 24));
        assert(parsed_as(r, Self::parse_spec(data@, pos as int)));
        r
    }
}


//------------------------------------------------------------------
#[derive(Clone, Copy, Debug)]
pub struct PlaneChunk {
    pub equation: Vec4f,
}

impl View for PlaneChunk {
    type V = PlaneChunk;

    open spec fn view(&self) -> PlaneChunk {
        *self
    }
}

/// The 16 bytes at `i` read as a `PlaneChunk`.
pub open spec fn plane_chunk_at(s: Seq<u8>, i: int) -> PlaneChunk {
    PlaneChunk {
        equation: vec4f_at(s, i),
    }
}

pub fn read_plane_chunk(data: &[u8], pos: usize) -> (v: PlaneChunk)
    requires
        pos + 16 <= data@.len(),
    ensures
        v == plane_chunk_at(data@, pos as int),
{
    let _len = data.len();
    PlaneChunk {
        equation: read_vec4f(data, pos),
    }
}

impl FromStream for PlaneChunk {
    type Output = PlaneChunk;

    open spec fn parse_spec(s: Seq<u8>, i: int) -> Parse<PlaneChunk> {
        fixed(s, i, 16, plane_chunk_at(s, i))
    }

    proof fn lemma_progress(s: Seq<u8>, i: int) {
    }

    proof fn lemma_prefix(s: Seq<u8>, t: Seq<u8>, i: int) {
    }

    proof fn lemma_shift(p: Seq<u8>, s: Seq<u8>, i: int) {
    }

    fn parse_at(data: &Vec<u8>, pos: usize) -> (r: Result<(PlaneChunk, usize), Stop>) {
        if data.len() - pos < 16 {
            return Err(Stop::Fail(Error::UnexpectedEof, None));
        }
        let r = Ok((read_plane_chunk(data.as_slice(), pos), pos + 16));
        assert(parsed_as(r, Self::parse_spec(data@, pos as int)));
        r
    }
}


//------------------------------------------------------------------
pub type ColorMapRefChunk = NameRefChunk;

pub type IndexShadeRefChunk = NameRefChunk;

pub type IndexBlendRefChunk = NameRefChunk;

pub type ScreenDoorRefChunk = NameRefChunk;

pub type ActorModelChunk = NameRefChunk;

pub type ActorMaterialChunk = NameRefChunk;

//------------------------------------------------------------------
/// All chunk types (probably useless, use ModelLoadChunks, ActorLoadChunks etc)
pub enum Chunk {
    End(),
    FileInfo(FileInfoChunk),
    Model(ModelChunk),
    MaterialIndex(MaterialIndexChunk),
    Vertices(VerticesChunk),
    VertexUV(VertexUvChunk),
    Faces(FacesChunk),
    FaceMaterial(FaceMaterialChunk),
    Pivot(PivotChunk),
    Material(MaterialChunk),
    ColorMapRef(ColorMapRefChunk),
    IndexBlendRef(IndexBlendRefChunk),
    IndexShadeRef(IndexShadeRefChunk),
    ScreendoorRef(ScreenDoorRefChunk),
    PixelMap(PixelMapChunk),
    Pixels(PixelsChunk),
    AddMap(),
    Actor(ActorChunk),
    ActorModel(ActorModelChunk),
    ActorTransform(ActorTransformActionChunk),
    ActorMaterial(ActorMaterialChunk),
    ActorLight(ActorLightActionChunk),
    ActorCamera(ActorCameraActionChunk),
    ActorBounds(ActorBoundsActionChunk),
    ActorClipPlane(ActorClipPlaneActionChunk),
    ActorAddChild(ActorAddChildActionChunk),
    TransformMatrix34(TransformMatrix34Chunk),
    TransformMatrix34LP(TransformMatrix34Chunk),
    TransformQuat(TransformQuatChunk),
    TransformEuler(TransformEulerChunk),
    TransformLookUp(TransformLookUpChunk),
    TransformTranslation(TransformTranslationChunk),
    TransformIdentity(),
    Bounds(BoundsChunk),
    Light(LightChunk),
    Camera(CameraChunk),
    Plane(PlaneChunk),
}

/// What a chunk holds.
pub enum ChunkView {
    End,
    FileInfo(FileInfoChunk),
    Model(ModelChunkView),
    MaterialIndex(Seq<Seq<char>>),
    Vertices(Seq<Vec3f>),
    VertexUV(Seq<VertexUV>),
    Faces(Seq<Face>),
    FaceMaterial(Seq<u16>),
    Pivot(PivotChunk),
    Material(MaterialChunkView),
    ColorMapRef(Seq<char>),
    IndexBlendRef(Seq<char>),
    IndexShadeRef(Seq<char>),
    ScreendoorRef(Seq<char>),
    PixelMap(PixelMapChunkView),
    Pixels(PixelsChunkView),
    AddMap,
    Actor(ActorChunkView),
    ActorModel(Seq<char>),
    ActorTransform,
    ActorMaterial(Seq<char>),
    ActorLight,
    ActorCamera,
    ActorBounds,
    ActorClipPlane,
    ActorAddChild,
    TransformMatrix34(Seq<Vec3f>),
    TransformMatrix34LP(Seq<Vec3f>),
    TransformQuat(TransformQuatChunk),
    TransformEuler(TransformEulerChunk),
    TransformLookUp(TransformLookUpChunk),
    TransformTranslation(TransformTranslationChunk),
    TransformIdentity,
    Bounds(BoundsChunk),
    Light(LightChunkView),
    Camera(CameraChunkView),
    Plane(PlaneChunk),
}

impl View for Chunk {
    type V = ChunkView;

    open spec fn view(&self) -> ChunkView {
        match self {
            Chunk::End() => ChunkView::End,
            Chunk::FileInfo(c) => ChunkView::FileInfo(c@),
            Chunk::Model(c) => ChunkView::Model(c@),
            Chunk::MaterialIndex(c) => ChunkView::MaterialIndex(c@),
            Chunk::Vertices(c) => ChunkView::Vertices(c@),
            Chunk::VertexUV(c) => ChunkView::VertexUV(c@),
            Chunk::Faces(c) => ChunkView::Faces(c@),
            Chunk::FaceMaterial(c) => ChunkView::FaceMaterial(c@),
            Chunk::Pivot(c) => ChunkView::Pivot(c@),
            Chunk::Material(c) => ChunkView::Material(c@),
            Chunk::ColorMapRef(c) => ChunkView::ColorMapRef(c@),
            Chunk::IndexBlendRef(c) => ChunkView::IndexBlendRef(c@),
            Chunk::IndexShadeRef(c) => ChunkView::IndexShadeRef(c@),
            Chunk::ScreendoorRef(c) => ChunkView::ScreendoorRef(c@),
            Chunk::PixelMap(c) => ChunkView::PixelMap(c@),
            Chunk::Pixels(c) => ChunkView::Pixels(c@),
            Chunk::AddMap() => ChunkView::AddMap,
            Chunk::Actor(c) => ChunkView::Actor(c@),
            Chunk::ActorModel(c) => ChunkView::ActorModel(c@),
            Chunk::ActorTransform(_) => ChunkView::ActorTransform,
            Chunk::ActorMaterial(c) => ChunkView::ActorMaterial(c@),
            Chunk::ActorLight(_) => ChunkView::ActorLight,
            Chunk::ActorCamera(_) => ChunkView::ActorCamera,
            Chunk::ActorBounds(_) => ChunkView::ActorBounds,
            Chunk::ActorClipPlane(_) => ChunkView::ActorClipPlane,
            Chunk::ActorAddChild(_) => ChunkView::ActorAddChild,
            Chunk::TransformMatrix34(c) => ChunkView::TransformMatrix34(c@),
            Chunk::TransformMatrix34LP(c) => ChunkView::TransformMatrix34LP(c@),
            Chunk::TransformQuat(c) => ChunkView::TransformQuat(c@),
            Chunk::TransformEuler(c) => ChunkView::TransformEuler(c@),
            Chunk::TransformLookUp(c) => ChunkView::TransformLookUp(c@),
            Chunk::TransformTranslation(c) => ChunkView::TransformTranslation(c@),
            Chunk::TransformIdentity() => ChunkView::TransformIdentity,
            Chunk::Bounds(c) => ChunkView::Bounds(c@),
            Chunk::Light(c) => ChunkView::Light(c@),
            Chunk::Camera(c) => ChunkView::Camera(c@),
            Chunk::Plane(c) => ChunkView::Plane(c@),
        }
    }
}

/// What the payload of a chunk with header `h` holds from `b` on: the chunk
/// types that the reader does not know stop the loader, and so does a
/// FILE_INFO chunk whose size is not 8.
#[verifier::opaque]
pub open spec fn chunk_payload_at(h: ChunkHeader, s: Seq<u8>, b: int) -> Parse<ChunkView> {
    let t = h.chunk_type;
    if t == chunk::END {
        Parse::Done(ChunkView::End, b)
    } else if t == chunk::FILE_INFO {
        if h.size != 8 {
            Parse::Abort
        } else {
            map_parse(FileInfoChunk::parse_spec(s, b), |v| ChunkView::FileInfo(v))
        }
    } else if t == chunk::MODEL {
        map_parse(ModelChunk::parse_spec(s, b), |v| ChunkView::Model(v))
    } else if t == chunk::MATERIAL_INDEX {
        map_parse(MaterialIndexChunk::parse_spec(s, b), |v| ChunkView::MaterialIndex(v))
    } else if t == chunk::VERTICES {
        map_parse(VerticesChunk::parse_spec(s, b), |v| ChunkView::Vertices(v))
    } else if t == chunk::VERTEX_UV {
        map_parse(VertexUvChunk::parse_spec(s, b), |v| ChunkView::VertexUV(v))
    } else if t == chunk::FACES {
        map_parse(FacesChunk::parse_spec(s, b), |v| ChunkView::Faces(v))
    } else if t == chunk::FACE_MATERIAL {
        map_parse(FaceMaterialChunk::parse_spec(s, b), |v| ChunkView::FaceMaterial(v))
    } else if t == chunk::PIVOT {
        map_parse(PivotChunk::parse_spec(s, b), |v| ChunkView::Pivot(v))
    } else if t == chunk::MATERIAL {
        map_parse(MaterialChunk::parse_spec(s, b), |v| ChunkView::Material(v))
    } else if t == chunk::COLOUR_MAP_REF {
        map_parse(ColorMapRefChunk::parse_spec(s, b), |v| ChunkView::ColorMapRef(v))
    } else if t == chunk::INDEX_SHADE_REF {
        map_parse(IndexShadeRefChunk::parse_spec(s, b), |v| ChunkView::IndexShadeRef(v))
    } else if t == chunk::PIXELMAP {
        map_parse(PixelMapChunk::parse_spec(s, b), |v| ChunkView::PixelMap(v))
    } else if t == chunk::PIXELS {
        map_parse(PixelsChunk::parse_spec(s, b), |v| ChunkView::Pixels(v))
    } else if t == chunk::ACTOR {
        map_parse(ActorChunk::parse_spec(s, b), |v| ChunkView::Actor(v))
    } else if t == chunk::ACTOR_MODEL {
        map_parse(ActorModelChunk::parse_spec(s, b), |v| ChunkView::ActorModel(v))
    } else if t == chunk::ACTOR_TRANSFORM {
        Parse::Done(ChunkView::ActorTransform, b)
    } else if t == chunk::ACTOR_MATERIAL {
        map_parse(ActorMaterialChunk::parse_spec(s, b), |v| ChunkView::ActorMaterial(v))
    } else if t == chunk::ACTOR_LIGHT {
        Parse::Done(ChunkView::ActorLight, b)
    } else if t == chunk::ACTOR_CAMERA {
        Parse::Done(ChunkView::ActorCamera, b)
    } else if t == chunk::ACTOR_BOUNDS {
        Parse::Done(ChunkView::ActorBounds, b)
    } else if t == chunk::ACTOR_CLIP_PLANE {
        Parse::Done(ChunkView::ActorClipPlane, b)
    } else if t == chunk::ACTOR_ADD_CHILD {
        Parse::Done(ChunkView::ActorAddChild, b)
    } else if t == chunk::TRANSFORM_MATRIX34 {
        map_parse(TransformMatrix34Chunk::parse_spec(s, b), |v| ChunkView::TransformMatrix34(v))
    } else if t == chunk::TRANSFORM_MATRIX34_LP {
        map_parse(TransformMatrix34Chunk::parse_spec(s, b), |v| ChunkView::TransformMatrix34LP(v))
    } else if t == chunk::TRANSFORM_QUAT {
        map_parse(TransformQuatChunk::parse_spec(s, b), |v| ChunkView::TransformQuat(v))
    } else if t == chunk::TRANSFORM_EULER {
        map_parse(TransformEulerChunk::parse_spec(s, b), |v| ChunkView::TransformEuler(v))
    } else if t == chunk::TRANSFORM_LOOK_UP {
        map_parse(TransformLookUpChunk::parse_spec(s, b), |v| ChunkView::TransformLookUp(v))
    } else if t == chunk::TRANSFORM_TRANSLATION {
        map_parse(
            TransformTranslationChunk::parse_spec(s, b),
            |v| ChunkView::TransformTranslation(v),
        )
    } else if t == chunk::TRANSFORM_IDENTITY {
        Parse::Done(ChunkView::TransformIdentity, b)
    } else if t == chunk::BOUNDS {
        map_parse(BoundsChunk::parse_spec(s, b), |v| ChunkView::Bounds(v))
    } else if t == chunk::LIGHT {
        map_parse(LightChunk::parse_spec(s, b), |v| ChunkView::Light(v))
    } else if t == chunk::CAMERA {
        map_parse(CameraChunk::parse_spec(s, b), |v| ChunkView::Camera(v))
    } else if t == chunk::PLANE {
        map_parse(PlaneChunk::parse_spec(s, b), |v| ChunkView::Plane(v))
    } else {
        Parse::Abort
    }
}

proof fn lemma_chunk_payload_progress(h: ChunkHeader, s: Seq<u8>, b: int)
    requires
        0 <= b <= s.len(),
    ensures
        chunk_payload_at(h, s, b) matches Parse::Done(_, e) ==> b <= e <= s.len(),
{
    reveal(chunk_payload_at);
    let t = h.chunk_type;
    if t == chunk::FILE_INFO {
        FileInfoChunk::lemma_progress(s, b);
    } else if t == chunk::MODEL {
        ModelChunk::lemma_progress(s, b);
    } else if t == chunk::MATERIAL_INDEX {
        MaterialIndexChunk::lemma_progress(s, b);
    } else if t == chunk::VERTICES {
        VerticesChunk::lemma_progress(s, b);
    } else if t == chunk::VERTEX_UV {
        VertexUvChunk::lemma_progress(s, b);
    } else if t == chunk::FACES {
        FacesChunk::lemma_progress(s, b);
    } else if t == chunk::FACE_MATERIAL {
        FaceMaterialChunk::lemma_progress(s, b);
    } else if t == chunk::PIVOT {
        PivotChunk::lemma_progress(s, b);
    } else if t == chunk::MATERIAL {
        MaterialChunk::lemma_progress(s, b);
    } else if t == chunk::COLOUR_MAP_REF {
        ColorMapRefChunk::lemma_progress(s, b);
    } else if t == chunk::INDEX_SHADE_REF {
        IndexShadeRefChunk::lemma_progress(s, b);
    } else if t == chunk::PIXELMAP {
        PixelMapChunk::lemma_progress(s, b);
    } else if t == chunk::PIXELS {
        PixelsChunk::lemma_progress(s, b);
    } else if t == chunk::ACTOR {
        ActorChunk::lemma_progress(s, b);
    } else if t == chunk::ACTOR_MODEL {
        ActorModelChunk::lemma_progress(s, b);
    } else if t == chunk::ACTOR_MATERIAL {
        ActorMaterialChunk::lemma_progress(s, b);
    } else if t == chunk::TRANSFORM_MATRIX34 {
        TransformMatrix34Chunk::lemma_progress(s, b);
    } else if t == chunk::TRANSFORM_MATRIX34_LP {
        TransformMatrix34Chunk::lemma_progress(s, b);
    } else if t == chunk::TRANSFORM_QUAT {
        TransformQuatChunk::lemma_progress(s, b);
    } else if t == chunk::TRANSFORM_EULER {
        TransformEulerChunk::lemma_progress(s, b);
    } else if t == chunk::TRANSFORM_LOOK_UP {
        TransformLookUpChunk::lemma_progress(s, b);
    } else if t == chunk::TRANSFORM_TRANSLATION {
        TransformTranslationChunk::lemma_progress(s, b);
    } else if t == chunk::BOUNDS {
        BoundsChunk::lemma_progress(s, b);
    } else if t == chunk::LIGHT {
        LightChunk::lemma_progress(s, b);
    } else if t == chunk::CAMERA {
        CameraChunk::lemma_progress(s, b);
    } else if t == chunk::PLANE {
        PlaneChunk::lemma_progress(s, b);
    }
}

proof fn lemma_chunk_payload_prefix(h: ChunkHeader, s: Seq<u8>, t: Seq<u8>, b: int)
    requires
        chunk_payload_at(h, s, b) is Done,
    ensures
        chunk_payload_at(h, s + t, b) == chunk_payload_at(h, s, b),
{
    reveal(chunk_payload_at);
    let ty = h.chunk_type;
    if ty == chunk::FILE_INFO {
        FileInfoChunk::lemma_prefix(s, t, b);
    } else if ty == chunk::MODEL {
        ModelChunk::lemma_prefix(s, t, b);
    } else if ty == chunk::MATERIAL_INDEX {
        MaterialIndexChunk::lemma_prefix(s, t, b);
    } else if ty == chunk::VERTICES {
        VerticesChunk::lemma_prefix(s, t, b);
    } else if ty == chunk::VERTEX_UV {
        VertexUvChunk::lemma_prefix(s, t, b);
    } else if ty == chunk::FACES {
        FacesChunk::lemma_prefix(s, t, b);
    } else if ty == chunk::FACE_MATERIAL {
        FaceMaterialChunk::lemma_prefix(s, t, b);
    } else if ty == chunk::PIVOT {
        PivotChunk::lemma_prefix(s, t, b);
    } else if ty == chunk::MATERIAL {
        MaterialChunk::lemma_prefix(s, t, b);
    } else if ty == chunk::COLOUR_MAP_REF {
        ColorMapRefChunk::lemma_prefix(s, t, b);
    } else if ty == chunk::INDEX_SHADE_REF {
        IndexShadeRefChunk::lemma_prefix(s, t, b);
    } else if ty == chunk::PIXELMAP {
        PixelMapChunk::lemma_prefix(s, t, b);
    } else if ty == chunk::PIXELS {
        PixelsChunk::lemma_prefix(s, t, b);
    } else if ty == chunk::ACTOR {
        ActorChunk::lemma_prefix(s, t, b);
    } else if ty == chunk::ACTOR_MODEL {
        ActorModelChunk::lemma_prefix(s, t, b);
    } else if ty == chunk::ACTOR_MATERIAL {
        ActorMaterialChunk::lemma_prefix(s, t, b);
    } else if ty == chunk::TRANSFORM_MATRIX34 {
        TransformMatrix34Chunk::lemma_prefix(s, t, b);
    } else if ty == chunk::TRANSFORM_MATRIX34_LP {
        TransformMatrix34Chunk::lemma_prefix(s, t, b);
    } else if ty == chunk::TRANSFORM_QUAT {
        TransformQuatChunk::lemma_prefix(s, t, b);
    } else if ty == chunk::TRANSFORM_EULER {
        TransformEulerChunk::lemma_prefix(s, t, b);
    } else if ty == chunk::TRANSFORM_LOOK_UP {
        TransformLookUpChunk::lemma_prefix(s, t, b);
    } else if ty == chunk::TRANSFORM_TRANSLATION {
        TransformTranslationChunk::lemma_prefix(s, t, b);
    } else if ty == chunk::BOUNDS {
        BoundsChunk::lemma_prefix(s, t, b);
    } else if ty == chunk::LIGHT {
        LightChunk::lemma_prefix(s, t, b);
    } else if ty == chunk::CAMERA {
        CameraChunk::lemma_prefix(s, t, b);
    } else if ty == chunk::PLANE {
        PlaneChunk::lemma_prefix(s, t, b);
    }
}

proof fn lemma_chunk_payload_shift(h: ChunkHeader, p: Seq<u8>, s: Seq<u8>, b: int)
    requires
        0 <= b,
    ensures
        chunk_payload_at(h, p + s, p.len() + b) == shifted(
            chunk_payload_at(h, s, b),
            p.len() as int,
        ),
{
    reveal(chunk_payload_at);
    let ty = h.chunk_type;
    if ty == chunk::FILE_INFO {
        FileInfoChunk::lemma_shift(p, s, b);
    } else if ty == chunk::MODEL {
        ModelChunk::lemma_shift(p, s, b);
    } else if ty == chunk::MATERIAL_INDEX {
        MaterialIndexChunk::lemma_shift(p, s, b);
    } else if ty == chunk::VERTICES {
        VerticesChunk::lemma_shift(p, s, b);
    } else if ty == chunk::VERTEX_UV {
        VertexUvChunk::lemma_shift(p, s, b);
    } else if ty == chunk::FACES {
        FacesChunk::lemma_shift(p, s, b);
    } else if ty == chunk::FACE_MATERIAL {
        FaceMaterialChunk::lemma_shift(p, s, b);
    } else if ty == chunk::PIVOT {
        PivotChunk::lemma_shift(p, s, b);
    } else if ty == chunk::MATERIAL {
        MaterialChunk::lemma_shift(p, s, b);
    } else if ty == chunk::COLOUR_MAP_REF {
        ColorMapRefChunk::lemma_shift(p, s, b);
    } else if ty == chunk::INDEX_SHADE_REF {
        IndexShadeRefChunk::lemma_shift(p, s, b);
    } else if ty == chunk::PIXELMAP {
        PixelMapChunk::lemma_shift(p, s, b);
    } else if ty == chunk::PIXELS {
        PixelsChunk::lemma_shift(p, s, b);
    } else if ty == chunk::ACTOR {
        ActorChunk::lemma_shift(p, s, b);
    } else if ty == chunk::ACTOR_MODEL {
        ActorModelChunk::lemma_shift(p, s, b);
    } else if ty == chunk::ACTOR_MATERIAL {
        ActorMaterialChunk::lemma_shift(p, s, b);
    } else if ty == chunk::TRANSFORM_MATRIX34 {
        TransformMatrix34Chunk::lemma_shift(p, s, b);
    } else if ty == chunk::TRANSFORM_MATRIX34_LP {
        TransformMatrix34Chunk::lemma_shift(p, s, b);
    } else if ty == chunk::TRANSFORM_QUAT {
        TransformQuatChunk::lemma_shift(p, s, b);
    } else if ty == chunk::TRANSFORM_EULER {
        TransformEulerChunk::lemma_shift(p, s, b);
    } else if ty == chunk::TRANSFORM_LOOK_UP {
        TransformLookUpChunk::lemma_shift(p, s, b);
    } else if ty == chunk::TRANSFORM_TRANSLATION {
        TransformTranslationChunk::lemma_shift(p, s, b);
    } else if ty == chunk::BOUNDS {
        BoundsChunk::lemma_shift(p, s, b);
    } else if ty == chunk::LIGHT {
        LightChunk::lemma_shift(p, s, b);
    } else if ty == chunk::CAMERA {
        CameraChunk::lemma_shift(p, s, b);
    } else if ty == chunk::PLANE {
        PlaneChunk::lemma_shift(p, s, b);
    }
}

/// Reads the payload of a chunk with header `h` from `b` on.
#[verifier::rlimit(50)]
fn parse_chunk_payload(h: ChunkHeader, data: &Vec<u8>, b: usize) -> (r: Result<
    (Chunk, usize),
    Stop,
>)
    requires
        b <= data@.len(),
    ensures
        parsed_as(r, chunk_payload_at(h, data@, b as int)),
        fails_within(r, b as int, data@.len() as int),
{
    reveal(chunk_payload_at);
    let t = h.chunk_type;
    if t == chunk::END {
        Ok((Chunk::End(), b))
    } else if t == chunk::FILE_INFO {
        if h.size != 8 {
            Err(Stop::Abort)
        } else {
            match FileInfoChunk::parse_at(data, b) {
                Ok((v, e)) => Ok((Chunk::FileInfo(v), e)),
                Err(stop) => Err(stop),
            }
        }
    } else if t == chunk::MODEL {
        match ModelChunk::parse_at(data, b) {
            Ok((v, e)) => Ok((Chunk::Model(v), e)),
            Err(stop) => Err(stop),
        }
    } else if t == chunk::MATERIAL_INDEX {
        match MaterialIndexChunk::parse_at(data, b) {
            Ok((v, e)) => Ok((Chunk::MaterialIndex(v), e)),
            Err(stop) => Err(stop),
        }
    } else if t == chunk::VERTICES {
        match VerticesChunk::parse_at(data, b) {
            Ok((v, e)) => Ok((Chunk::Vertices(v), e)),
            Err(stop) => Err(stop),
        }
    } else if t == chunk::VERTEX_UV {
        match VertexUvChunk::parse_at(data, b) {
            Ok((v, e)) => Ok((Chunk::VertexUV(v), e)),
            Err(stop) => Err(stop),
        }
    } else if t == chunk::FACES {
        match FacesChunk::parse_at(data, b) {
            Ok((v, e)) => Ok((Chunk::Faces(v), e)),
            Err(stop) => Err(stop),
        }
    } else if t == chunk::FACE_MATERIAL {
        match FaceMaterialChunk::parse_at(data, b) {
            Ok((v, e)) => Ok((Chunk::FaceMaterial(v), e)),
            Err(stop) => Err(stop),
        }
    } else if t == chunk::PIVOT {
        match PivotChunk::parse_at(data, b) {
            Ok((v, e)) => Ok((Chunk::Pivot(v), e)),
            Err(stop) => Err(stop),
        }
    } else if t == chunk::MATERIAL {
        match MaterialChunk::parse_at(data, b) {
            Ok((v, e)) => Ok((Chunk::Material(v), e)),
            Err(stop) => Err(stop),
        }
    } else if t == chunk::COLOUR_MAP_REF {
        match ColorMapRefChunk::parse_at(data, b) {
            Ok((v, e)) => Ok((Chunk::ColorMapRef(v), e)),
            Err(stop) => Err(stop),
        }
    } else if t == chunk::INDEX_SHADE_REF {
        match IndexShadeRefChunk::parse_at(data, b) {
            Ok((v, e)) => Ok((Chunk::IndexShadeRef(v), e)),
            Err(stop) => Err(stop),
        }
    } else if t == chunk::PIXELMAP {
        match PixelMapChunk::parse_at(data, b) {
            Ok((v, e)) => Ok((Chunk::PixelMap(v), e)),
            Err(stop) => Err(stop),
        }
    } else if t == chunk::PIXELS {
        match PixelsChunk::parse_at(data, b) {
            Ok((v, e)) => Ok((Chunk::Pixels(v), e)),
            Err(stop) => Err(stop),
        }
    } else if t == chunk::ACTOR {
        match ActorChunk::parse_at(data, b) {
            Ok((v, e)) => Ok((Chunk::Actor(v), e)),
            Err(stop) => Err(stop),
        }
    } else if t == chunk::ACTOR_MODEL {
        match ActorModelChunk::parse_at(data, b) {
            Ok((v, e)) => Ok((Chunk::ActorModel(v), e)),
            Err(stop) => Err(stop),
        }
    } else if t == chunk::ACTOR_TRANSFORM {
        Ok((Chunk::ActorTransform(ActorTransformActionChunk {}), b))
    } else if t == chunk::ACTOR_MATERIAL {
        match ActorMaterialChunk::parse_at(data, b) {
            Ok((v, e)) => Ok((Chunk::ActorMaterial(v), e)),
            Err(stop) => Err(stop),
        }
    } else if t == chunk::ACTOR_LIGHT {
        Ok((Chunk::ActorLight(ActorLightActionChunk {}), b))
    } else if t == chunk::ACTOR_CAMERA {
        Ok((Chunk::ActorCamera(ActorCameraActionChunk {}), b))
    } else if t == chunk::ACTOR_BOUNDS {
        Ok((Chunk::ActorBounds(ActorBoundsActionChunk {}), b))
    } else if t == chunk::ACTOR_CLIP_PLANE {
        Ok((Chunk::ActorClipPlane(ActorClipPlaneActionChunk {}), b))
    } else if t == chunk::ACTOR_ADD_CHILD {
        Ok((Chunk::ActorAddChild(ActorAddChildActionChunk {}), b))
    } else if t == chunk::TRANSFORM_MATRIX34 {
        match TransformMatrix34Chunk::parse_at(data, b) {
            Ok((v, e)) => Ok((Chunk::TransformMatrix34(v), e)),
            Err(stop) => Err(stop),
        }
    } else if t == chunk::TRANSFORM_MATRIX34_LP {
        match TransformMatrix34Chunk::parse_at(data, b) {
            Ok((v, e)) => Ok((Chunk::TransformMatrix34LP(v), e)),
            Err(stop) => Err(stop),
        }
    } else if t == chunk::TRANSFORM_QUAT {
        match TransformQuatChunk::parse_at(data, b) {
            Ok((v, e)) => Ok((Chunk::TransformQuat(v), e)),
            Err(stop) => Err(stop),
        }
    } else if t == chunk::TRANSFORM_EULER {
        match TransformEulerChunk::parse_at(data, b) {
            Ok((v, e)) => Ok((Chunk::TransformEuler(v), e)),
            Err(stop) => Err(stop),
        }
    } else if t == chunk::TRANSFORM_LOOK_UP {
        match TransformLookUpChunk::parse_at(data, b) {
            Ok((v, e)) => Ok((Chunk::TransformLookUp(v), e)),
            Err(stop) => Err(stop),
        }
    } else if t == chunk::TRANSFORM_TRANSLATION {
        match TransformTranslationChunk::parse_at(data, b) {
            Ok((v, e)) => Ok((Chunk::TransformTranslation(v), e)),
            Err(stop) => Err(stop),
        }
    } else if t == chunk::TRANSFORM_IDENTITY {
        Ok((Chunk::TransformIdentity(), b))
    } else if t == chunk::BOUNDS {
        match BoundsChunk::parse_at(data, b) {
            Ok((v, e)) => Ok((Chunk::Bounds(v), e)),
            Err(stop) => Err(stop),
        }
    } else if t == chunk::LIGHT {
        match LightChunk::parse_at(data, b) {
            Ok((v, e)) => Ok((Chunk::Light(v), e)),
            Err(stop) => Err(stop),
        }
    } else if t == chunk::CAMERA {
        match CameraChunk::parse_at(data, b) {
            Ok((v, e)) => Ok((Chunk::Camera(v), e)),
            Err(stop) => Err(stop),
        }
    } else if t == chunk::PLANE {
        match PlaneChunk::parse_at(data, b) {
            Ok((v, e)) => Ok((Chunk::Plane(v), e)),
            Err(stop) => Err(stop),
        }
    } else {
        Err(Stop::Abort)
    }
}

impl FromStream for Chunk {
    type Output = Chunk;

    /// General chunk reader, no logic, just i/o: a header, then the payload
    /// that the header's type calls for.
    open spec fn parse_spec(s: Seq<u8>, i: int) -> Parse<ChunkView> {
        if available(s, i, 8) {
            chunk_payload_at(chunk_header_at(s, i), s, i + 8)
        } else {
            Parse::Fail(Error::UnexpectedEof, None)
        }
    }

    proof fn lemma_progress(s: Seq<u8>, i: int) {
        if available(s, i, 8) {
            lemma_chunk_payload_progress(chunk_header_at(s, i), s, i + 8);
        }
    }

    proof fn lemma_prefix(s: Seq<u8>, t: Seq<u8>, i: int) {
        assert(chunk_header_at(s + t, i) == chunk_header_at(s, i));
        lemma_chunk_payload_prefix(chunk_header_at(s, i), s, t, i + 8);
    }

    proof fn lemma_shift(p: Seq<u8>, s: Seq<u8>, i: int) {
        if available(s, i, 8) {
            assert(chunk_header_at(p + s, p.len() + i) == chunk_header_at(s, i));
            lemma_chunk_payload_shift(chunk_header_at(s, i), p, s, i + 8);
        }
    }

    fn parse_at(data: &Vec<u8>, pos: usize) -> (r: Result<(Chunk, usize), Stop>) {
        match ChunkHeader::parse_at(data, pos) {
            Ok((h, b)) => parse_chunk_payload(h, data, b),
            Err(stop) => Err(stop),
        }
    }
}


/// Only the chunk type of a header decides how the payload is read, but for
/// FILE_INFO, whose size the reader checks.
proof fn lemma_chunk_payload_type_only(h1: ChunkHeader, h2: ChunkHeader, s: Seq<u8>, b: int)
    requires
        h1.chunk_type == h2.chunk_type,
        h1.chunk_type != chunk::FILE_INFO,
    ensures
        chunk_payload_at(h1, s, b) == chunk_payload_at(h2, s, b),
{
    reveal(chunk_payload_at);
}

/// The size field of a chunk header matters only for FILE_INFO chunks: two
/// streams that differ only in the size field of a header of another type
/// read as the same chunk there, which ends at the same position (the payload
/// is measured by its own fields, never by the size).
pub proof fn lemma_size_field_ignored(s1: Seq<u8>, s2: Seq<u8>, i: int)
    requires
        0 <= i,
        s1.len() == s2.len(),
        forall|k: int| 0 <= k < s1.len() && !(i + 4 <= k < i + 8) ==> s1[k] == s2[k],
        be_u32_at(s1, i) != chunk::FILE_INFO,
    ensures
        Chunk::parse_spec(s1, i) == Chunk::parse_spec(s2, i),
{
    if available(s1, i, 8) {
        let b = i + 8;
        let h1 = chunk_header_at(s1, i);
        let h2 = chunk_header_at(s2, i);
        assert(h1.chunk_type == h2.chunk_type) by {
            assert(s1[i] == s2[i] && s1[i + 1] == s2[i + 1] && s1[i + 2] == s2[i + 2] && s1[i
                + 3] == s2[i + 3]);
        }
        let r = s1.skip(b);
        assert(r =~= s2.skip(b));
        assert(s1 =~= s1.take(b) + r);
        assert(s2 =~= s2.take(b) + r);
        lemma_chunk_payload_shift(h1, s1.take(b), r, 0);
        lemma_chunk_payload_shift(h1, s2.take(b), r, 0);
        lemma_chunk_payload_type_only(h1, h2, s2, b);
    }
}

/// The chunk type in a header decides which reader reads the payload, right
/// after the 8-byte header, and which kind of chunk comes out: each type has
/// its own reader and kind, the types without payload end right after the
/// header, a FILE_INFO chunk is read only with size 8, and a type the reader
/// does not know stops the loader.
#[verifier::rlimit(50)]
pub proof fn lemma_chunk_dispatch(s: Seq<u8>, i: int)
    requires
        0 <= i,
        i + 8 <= s.len(),
    ensures
        be_u32_at(s, i) == chunk::END ==> Chunk::parse_spec(s, i) == Parse::<ChunkView>::Done(ChunkView::End, i + 8),
        be_u32_at(s, i) == chunk::FILE_INFO && be_u32_at(s, i + 4) != 8 ==> Chunk::parse_spec(s, i) is Abort,
        be_u32_at(s, i) == chunk::FILE_INFO && be_u32_at(s, i + 4) == 8 ==> (Chunk::parse_spec(s, i) is Done) == (FileInfoChunk::parse_spec(s, i + 8) is Done),
        be_u32_at(s, i) == chunk::FILE_INFO && be_u32_at(s, i + 4) == 8 ==> (FileInfoChunk::parse_spec(s, i + 8) matches Parse::Done(v, e) ==> Chunk::parse_spec(s, i) == Parse::Done(ChunkView::FileInfo(v), e)),
        be_u32_at(s, i) == chunk::MODEL ==> (Chunk::parse_spec(s, i) is Done) == (ModelChunk::parse_spec(s, i + 8) is Done),
        be_u32_at(s, i) == chunk::MODEL ==> (ModelChunk::parse_spec(s, i + 8) matches Parse::Done(v, e) ==> Chunk::parse_spec(s, i) == Parse::Done(ChunkView::Model(v), e)),
        be_u32_at(s, i) == chunk::MATERIAL_INDEX ==> (Chunk::parse_spec(s, i) is Done) == (MaterialIndexChunk::parse_spec(s, i + 8) is Done),
        be_u32_at(s, i) == chunk::MATERIAL_INDEX ==> (MaterialIndexChunk::parse_spec(s, i + 8) matches Parse::Done(v, e) ==> Chunk::parse_spec(s, i) == Parse::Done(ChunkView::MaterialIndex(v), e)),
        be_u32_at(s, i) == chunk::VERTICES ==> (Chunk::parse_spec(s, i) is Done) == (VerticesChunk::parse_spec(s, i + 8) is Done),
        be_u32_at(s, i) == chunk::VERTICES ==> (VerticesChunk::parse_spec(s, i + 8) matches Parse::Done(v, e) ==> Chunk::parse_spec(s, i) == Parse::Done(ChunkView::Vertices(v), e)),
        be_u32_at(s, i) == chunk::VERTEX_UV ==> (Chunk::parse_spec(s, i) is Done) == (VertexUvChunk::parse_spec(s, i + 8) is Done),
        be_u32_at(s, i) == chunk::VERTEX_UV ==> (VertexUvChunk::parse_spec(s, i + 8) matches Parse::Done(v, e) ==> Chunk::parse_spec(s, i) == Parse::Done(ChunkView::VertexUV(v), e)),
        be_u32_at(s, i) == chunk::FACES ==> (Chunk::parse_spec(s, i) is Done) == (FacesChunk::parse_spec(s, i + 8) is Done),
        be_u32_at(s, i) == chunk::FACES ==> (FacesChunk::parse_spec(s, i + 8) matches Parse::Done(v, e) ==> Chunk::parse_spec(s, i) == Parse::Done(ChunkView::Faces(v), e)),
        be_u32_at(s, i) == chunk::FACE_MATERIAL ==> (Chunk::parse_spec(s, i) is Done) == (FaceMaterialChunk::parse_spec(s, i + 8) is Done),
        be_u32_at(s, i) == chunk::FACE_MATERIAL ==> (FaceMaterialChunk::parse_spec(s, i + 8) matches Parse::Done(v, e) ==> Chunk::parse_spec(s, i) == Parse::Done(ChunkView::FaceMaterial(v), e)),
        be_u32_at(s, i) == chunk::PIVOT ==> (Chunk::parse_spec(s, i) is Done) == (PivotChunk::parse_spec(s, i + 8) is Done),
        be_u32_at(s, i) == chunk::PIVOT ==> (PivotChunk::parse_spec(s, i + 8) matches Parse::Done(v, e) ==> Chunk::parse_spec(s, i) == Parse::Done(ChunkView::Pivot(v), e)),
        be_u32_at(s, i) == chunk::MATERIAL ==> (Chunk::parse_spec(s, i) is Done) == (MaterialChunk::parse_spec(s, i + 8) is Done),
        be_u32_at(s, i) == chunk::MATERIAL ==> (MaterialChunk::parse_spec(s, i + 8) matches Parse::Done(v, e) ==> Chunk::parse_spec(s, i) == Parse::Done(ChunkView::Material(v), e)),
        be_u32_at(s, i) == chunk::COLOUR_MAP_REF ==> (Chunk::parse_spec(s, i) is Done) == (ColorMapRefChunk::parse_spec(s, i + 8) is Done),
        be_u32_at(s, i) == chunk::COLOUR_MAP_REF ==> (ColorMapRefChunk::parse_spec(s, i + 8) matches Parse::Done(v, e) ==> Chunk::parse_spec(s, i) == Parse::Done(ChunkView::ColorMapRef(v), e)),
        be_u32_at(s, i) == chunk::INDEX_SHADE_REF ==> (Chunk::parse_spec(s, i) is Done) == (IndexShadeRefChunk::parse_spec(s, i + 8) is Done),
        be_u32_at(s, i) == chunk::INDEX_SHADE_REF ==> (IndexShadeRefChunk::parse_spec(s, i + 8) matches Parse::Done(v, e) ==> Chunk::parse_spec(s, i) == Parse::Done(ChunkView::IndexShadeRef(v), e)),
        be_u32_at(s, i) == chunk::PIXELMAP ==> (Chunk::parse_spec(s, i) is Done) == (PixelMapChunk::parse_spec(s, i + 8) is Done),
        be_u32_at(s, i) == chunk::PIXELMAP ==> (PixelMapChunk::parse_spec(s, i + 8) matches Parse::Done(v, e) ==> Chunk::parse_spec(s, i) == Parse::Done(ChunkView::PixelMap(v), e)),
        be_u32_at(s, i) == chunk::PIXELS ==> (Chunk::parse_spec(s, i) is Done) == (PixelsChunk::parse_spec(s, i + 8) is Done),
        be_u32_at(s, i) == chunk::PIXELS ==> (PixelsChunk::parse_spec(s, i + 8) matches Parse::Done(v, e) ==> Chunk::parse_spec(s, i) == Parse::Done(ChunkView::Pixels(v), e)),
        be_u32_at(s, i) == chunk::ACTOR ==> (Chunk::parse_spec(s, i) is Done) == (ActorChunk::parse_spec(s, i + 8) is Done),
        be_u32_at(s, i) == chunk::ACTOR ==> (ActorChunk::parse_spec(s, i + 8) matches Parse::Done(v, e) ==> Chunk::parse_spec(s, i) == Parse::Done(ChunkView::Actor(v), e)),
        be_u32_at(s, i) == chunk::ACTOR_MODEL ==> (Chunk::parse_spec(s, i) is Done) == (ActorModelChunk::parse_spec(s, i + 8) is Done),
        be_u32_at(s, i) == chunk::ACTOR_MODEL ==> (ActorModelChunk::parse_spec(s, i + 8) matches Parse::Done(v, e) ==> Chunk::parse_spec(s, i) == Parse::Done(ChunkView::ActorModel(v), e)),
        be_u32_at(s, i) == chunk::ACTOR_TRANSFORM ==> Chunk::parse_spec(s, i) == Parse::<ChunkView>::Done(ChunkView::ActorTransform, i + 8),
        be_u32_at(s, i) == chunk::ACTOR_MATERIAL ==> (Chunk::parse_spec(s, i) is Done) == (ActorMaterialChunk::parse_spec(s, i + 8) is Done),
        be_u32_at(s, i) == chunk::ACTOR_MATERIAL ==> (ActorMaterialChunk::parse_spec(s, i + 8) matches Parse::Done(v, e) ==> Chunk::parse_spec(s, i) == Parse::Done(ChunkView::ActorMaterial(v), e)),
        be_u32_at(s, i) == chunk::ACTOR_LIGHT ==> Chunk::parse_spec(s, i) == Parse::<ChunkView>::Done(ChunkView::ActorLight, i + 8),
        be_u32_at(s, i) == chunk::ACTOR_CAMERA ==> Chunk::parse_spec(s, i) == Parse::<ChunkView>::Done(ChunkView::ActorCamera, i + 8),
        be_u32_at(s, i) == chunk::ACTOR_BOUNDS ==> Chunk::parse_spec(s, i) == Parse::<ChunkView>::Done(ChunkView::ActorBounds, i + 8),
        be_u32_at(s, i) == chunk::ACTOR_CLIP_PLANE ==> Chunk::parse_spec(s, i) == Parse::<ChunkView>::Done(ChunkView::ActorClipPlane, i + 8),
        be_u32_at(s, i) == chunk::ACTOR_ADD_CHILD ==> Chunk::parse_spec(s, i) == Parse::<ChunkView>::Done(ChunkView::ActorAddChild, i + 8),
        be_u32_at(s, i) == chunk::TRANSFORM_MATRIX34 ==> (Chunk::parse_spec(s, i) is Done) == (TransformMatrix34Chunk::parse_spec(s, i + 8) is Done),
        be_u32_at(s, i) == chunk::TRANSFORM_MATRIX34 ==> (TransformMatrix34Chunk::parse_spec(s, i + 8) matches Parse::Done(v, e) ==> Chunk::parse_spec(s, i) == Parse::Done(ChunkView::TransformMatrix34(v), e)),
        be_u32_at(s, i) == chunk::TRANSFORM_MATRIX34_LP ==> (Chunk::parse_spec(s, i) is Done) == (TransformMatrix34Chunk::parse_spec(s, i + 8) is Done),
        be_u32_at(s, i) == chunk::TRANSFORM_MATRIX34_LP ==> (TransformMatrix34Chunk::parse_spec(s, i + 8) matches Parse::Done(v, e) ==> Chunk::parse_spec(s, i) == Parse::Done(ChunkView::TransformMatrix34LP(v), e)),
        be_u32_at(s, i) == chunk::TRANSFORM_QUAT ==> (Chunk::parse_spec(s, i) is Done) == (TransformQuatChunk::parse_spec(s, i + 8) is Done),
        be_u32_at(s, i) == chunk::TRANSFORM_QUAT ==> (TransformQuatChunk::parse_spec(s, i + 8) matches Parse::Done(v, e) ==> Chunk::parse_spec(s, i) == Parse::Done(ChunkView::TransformQuat(v), e)),
        be_u32_at(s, i) == chunk::TRANSFORM_EULER ==> (Chunk::parse_spec(s, i) is Done) == (TransformEulerChunk::parse_spec(s, i + 8) is Done),
        be_u32_at(s, i) == chunk::TRANSFORM_EULER ==> (TransformEulerChunk::parse_spec(s, i + 8) matches Parse::Done(v, e) ==> Chunk::parse_spec(s, i) == Parse::Done(ChunkView::TransformEuler(v), e)),
        be_u32_at(s, i) == chunk::TRANSFORM_LOOK_UP ==> (Chunk::parse_spec(s, i) is Done) == (TransformLookUpChunk::parse_spec(s, i + 8) is Done),
        be_u32_at(s, i) == chunk::TRANSFORM_LOOK_UP ==> (TransformLookUpChunk::parse_spec(s, i + 8) matches Parse::Done(v, e) ==> Chunk::parse_spec(s, i) == Parse::Done(ChunkView::TransformLookUp(v), e)),
        be_u32_at(s, i) == chunk::TRANSFORM_TRANSLATION ==> (Chunk::parse_spec(s, i) is Done) == (TransformTranslationChunk::parse_spec(s, i + 8) is Done),
        be_u32_at(s, i) == chunk::TRANSFORM_TRANSLATION ==> (TransformTranslationChunk::parse_spec(s, i + 8) matches Parse::Done(v, e) ==> Chunk::parse_spec(s, i) == Parse::Done(ChunkView::TransformTranslation(v), e)),
        be_u32_at(s, i) == chunk::TRANSFORM_IDENTITY ==> Chunk::parse_spec(s, i) == Parse::<ChunkView>::Done(ChunkView::TransformIdentity, i + 8),
        be_u32_at(s, i) == chunk::BOUNDS ==> (Chunk::parse_spec(s, i) is Done) == (BoundsChunk::parse_spec(s, i + 8) is Done),
        be_u32_at(s, i) == chunk::BOUNDS ==> (BoundsChunk::parse_spec(s, i + 8) matches Parse::Done(v, e) ==> Chunk::parse_spec(s, i) == Parse::Done(ChunkView::Bounds(v), e)),
        be_u32_at(s, i) == chunk::LIGHT ==> (Chunk::parse_spec(s, i) is Done) == (LightChunk::parse_spec(s, i + 8) is Done),
        be_u32_at(s, i) == chunk::LIGHT ==> (LightChunk::parse_spec(s, i + 8) matches Parse::Done(v, e) ==> Chunk::parse_spec(s, i) == Parse::Done(ChunkView::Light(v), e)),
        be_u32_at(s, i) == chunk::CAMERA ==> (Chunk::parse_spec(s, i) is Done) == (CameraChunk::parse_spec(s, i + 8) is Done),
        be_u32_at(s, i) == chunk::CAMERA ==> (CameraChunk::parse_spec(s, i + 8) matches Parse::Done(v, e) ==> Chunk::parse_spec(s, i) == Parse::Done(ChunkView::Camera(v), e)),
        be_u32_at(s, i) == chunk::PLANE ==> (Chunk::parse_spec(s, i) is Done) == (PlaneChunk::parse_spec(s, i + 8) is Done),
        be_u32_at(s, i) == chunk::PLANE ==> (PlaneChunk::parse_spec(s, i + 8) matches Parse::Done(v, e) ==> Chunk::parse_spec(s, i) == Parse::Done(ChunkView::Plane(v), e)),
        be_u32_at(s, i) != chunk::END && be_u32_at(s, i) != chunk::FILE_INFO && be_u32_at(s, i) != chunk::MODEL && be_u32_at(s, i) != chunk::MATERIAL_INDEX && be_u32_at(s, i) != chunk::VERTICES && be_u32_at(s, i) != chunk::VERTEX_UV && be_u32_at(s, i) != chunk::FACES && be_u32_at(s, i) != chunk::FACE_MATERIAL && be_u32_at(s, i) != chunk::PIVOT && be_u32_at(s, i) != chunk::MATERIAL && be_u32_at(s, i) != chunk::COLOUR_MAP_REF && be_u32_at(s, i) != chunk::INDEX_SHADE_REF && be_u32_at(s, i) != chunk::PIXELMAP && be_u32_at(s, i) != chunk::PIXELS && be_u32_at(s, i) != chunk::ACTOR && be_u32_at(s, i) != chunk::ACTOR_MODEL && be_u32_at(s, i) != chunk::ACTOR_TRANSFORM && be_u32_at(s, i) != chunk::ACTOR_MATERIAL && be_u32_at(s, i) != chunk::ACTOR_LIGHT && be_u32_at(s, i) != chunk::ACTOR_CAMERA && be_u32_at(s, i) != chunk::ACTOR_BOUNDS && be_u32_at(s, i) != chunk::ACTOR_CLIP_PLANE && be_u32_at(s, i) != chunk::ACTOR_ADD_CHILD && be_u32_at(s, i) != chunk::TRANSFORM_MATRIX34 && be_u32_at(s, i) != chunk::TRANSFORM_MATRIX34_LP && be_u32_at(s, i) != chunk::TRANSFORM_QUAT && be_u32_at(s, i) != chunk::TRANSFORM_EULER && be_u32_at(s, i) != chunk::TRANSFORM_LOOK_UP && be_u32_at(s, i) != chunk::TRANSFORM_TRANSLATION && be_u32_at(s, i) != chunk::TRANSFORM_IDENTITY && be_u32_at(s, i) != chunk::BOUNDS && be_u32_at(s, i) != chunk::LIGHT && be_u32_at(s, i) != chunk::CAMERA && be_u32_at(s, i) != chunk::PLANE ==> Chunk::parse_spec(s, i) is Abort,
{
    reveal(chunk_payload_at);
}

//------------------------------------------------------------------
/// Values on the resource stack.
pub enum Resource {
    Model(Model),
    PixelMap(PixelMap),
    Material(Material),
    Bounds(BoundsChunk),
    Light(LightChunk),
    Camera(CameraChunk),
    Plane(PlaneChunk),
}

/// Types whose values can stand on the resource stack.
pub trait ResourceTag: Sized {
    /// The value of this type that `r` holds, if it holds one.
    spec fn from_resource(r: Resource) -> Option<Self>;

    /// The stack entry that holds `v`.
    spec fn to_resource(v: Self) -> Resource;

    /// An entry holds the value it was made from.
    proof fn lemma_round_trip(v: Self)
        ensures
            Self::from_resource(Self::to_resource(v)) == Some(v),
    ;

    fn into_resource(self) -> (r: Resource)
        ensures
            r == Self::to_resource(self),
    ;

    fn take_from(r: Resource) -> (o: Option<Self>)
        ensures
            o == Self::from_resource(r),
    ;

    fn resource_mut(r: &mut Resource) -> (o: Option<&mut Self>)
        ensures
            match o {
                Some(m) => Self::from_resource(*old(r)) == Some(*m) && *final(r)
                    == Self::to_resource(*final(m)),
                None => Self::from_resource(*old(r)) is None && *final(r) == *old(r),
            },
    ;
}

impl ResourceTag for Model {
    open spec fn from_resource(r: Resource) -> Option<Model> {
        match r {
            Resource::Model(v) => Some(v),
            _ => None,
        }
    }

    open spec fn to_resource(v: Model) -> Resource {
        Resource::Model(v)
    }

    proof fn lemma_round_trip(v: Model) {
    }

    fn into_resource(self) -> (r: Resource) {
        Resource::Model(self)
    }

    fn take_from(r: Resource) -> (o: Option<Model>) {
        match r {
            Resource::Model(v) => Some(v),
            _ => None,
        }
    }

    fn resource_mut(r: &mut Resource) -> (o: Option<&mut Model>) {
        match r {
            Resource::Model(v) => Some(v),
            _ => None,
        }
    }
}

impl ResourceTag for PixelMap {
    open spec fn from_resource(r: Resource) -> Option<PixelMap> {
        match r {
            Resource::PixelMap(v) => Some(v),
            _ => None,
        }
    }

    open spec fn to_resource(v: PixelMap) -> Resource {
        Resource::PixelMap(v)
    }

    proof fn lemma_round_trip(v: PixelMap) {
    }

    fn into_resource(self) -> (r: Resource) {
        Resource::PixelMap(self)
    }

    fn take_from(r: Resource) -> (o: Option<PixelMap>) {
        match r {
            Resource::PixelMap(v) => Some(v),
            _ => None,
        }
    }

    fn resource_mut(r: &mut Resource) -> (o: Option<&mut PixelMap>) {
        match r {
            Resource::PixelMap(v) => Some(v),
            _ => None,
        }
    }
}

impl ResourceTag for Material {
    open spec fn from_resource(r: Resource) -> Option<Material> {
        match r {
            Resource::Material(v) => Some(v),
            _ => None,
        }
    }

    open spec fn to_resource(v: Material) -> Resource {
        Resource::Material(v)
    }

    proof fn lemma_round_trip(v: Material) {
    }

    fn into_resource(self) -> (r: Resource) {
        Resource::Material(self)
    }

    fn take_from(r: Resource) -> (o: Option<Material>) {
        match r {
            Resource::Material(v) => Some(v),
            _ => None,
        }
    }

    fn resource_mut(r: &mut Resource) -> (o: Option<&mut Material>) {
        match r {
            Resource::Material(v) => Some(v),
            _ => None,
        }
    }
}

impl ResourceTag for BoundsChunk {
    open spec fn from_resource(r: Resource) -> Option<BoundsChunk> {
        match r {
            Resource::Bounds(v) => Some(v),
            _ => None,
        }
    }

    open spec fn to_resource(v: BoundsChunk) -> Resource {
        Resource::Bounds(v)
    }

    proof fn lemma_round_trip(v: BoundsChunk) {
    }

    fn into_resource(self) -> (r: Resource) {
        Resource::Bounds(self)
    }

    fn take_from(r: Resource) -> (o: Option<BoundsChunk>) {
        match r {
            Resource::Bounds(v) => Some(v),
            _ => None,
        }
    }

    fn resource_mut(r: &mut Resource) -> (o: Option<&mut BoundsChunk>) {
        match r {
            Resource::Bounds(v) => Some(v),
            _ => None,
        }
    }
}

impl ResourceTag for LightChunk {
    open spec fn from_resource(r: Resource) -> Option<LightChunk> {
        match r {
            Resource::Light(v) => Some(v),
            _ => None,
        }
    }

    open spec fn to_resource(v: LightChunk) -> Resource {
        Resource::Light(v)
    }

    proof fn lemma_round_trip(v: LightChunk) {
    }

    fn into_resource(self) -> (r: Resource) {
        Resource::Light(self)
    }

    fn take_from(r: Resource) -> (o: Option<LightChunk>) {
        match r {
            Resource::Light(v) => Some(v),
            _ => None,
        }
    }

    fn resource_mut(r: &mut Resource) -> (o: Option<&mut LightChunk>) {
        match r {
            Resource::Light(v) => Some(v),
            _ => None,
        }
    }
}

impl ResourceTag for CameraChunk {
    open spec fn from_resource(r: Resource) -> Option<CameraChunk> {
        match r {
            Resource::Camera(v) => Some(v),
            _ => None,
        }
    }

    open spec fn to_resource(v: CameraChunk) -> Resource {
        Resource::Camera(v)
    }

    proof fn lemma_round_trip(v: CameraChunk) {
    }

    fn into_resource(self) -> (r: Resource) {
        Resource::Camera(self)
    }

    fn take_from(r: Resource) -> (o: Option<CameraChunk>) {
        match r {
            Resource::Camera(v) => Some(v),
            _ => None,
        }
    }

    fn resource_mut(r: &mut Resource) -> (o: Option<&mut CameraChunk>) {
        match r {
            Resource::Camera(v) => Some(v),
            _ => None,
        }
    }
}

impl ResourceTag for PlaneChunk {
    open spec fn from_resource(r: Resource) -> Option<PlaneChunk> {
        match r {
            Resource::Plane(v) => Some(v),
            _ => None,
        }
    }

    open spec fn to_resource(v: PlaneChunk) -> Resource {
        Resource::Plane(v)
    }

    proof fn lemma_round_trip(v: PlaneChunk) {
    }

    fn into_resource(self) -> (r: Resource) {
        Resource::Plane(self)
    }

    fn take_from(r: Resource) -> (o: Option<PlaneChunk>) {
        match r {
            Resource::Plane(v) => Some(v),
            _ => None,
        }
    }

    fn resource_mut(r: &mut Resource) -> (o: Option<&mut PlaneChunk>) {
        match r {
            Resource::Plane(v) => Some(v),
            _ => None,
        }
    }
}

//------------------------------------------------------------------
/// Loading stack for resource chunks.
/// The per-resource loaders use it to construct final Actor or Model object.
pub struct ResourceStack {
    stack: Vec<Resource>,
}

impl View for ResourceStack {
    type V = Seq<Resource>;

    /// The entries from the bottom of the stack to its top.
    closed spec fn view(&self) -> Seq<Resource> {
        self.stack@
    }
}

impl ResourceStack {
    pub fn new() -> (s: Self)
        ensures
            s@ == Seq::<Resource>::empty(),
    {
        ResourceStack { stack: Vec::new() }
    }

    pub fn push<T: ResourceTag>(&mut self, resource: Box<T>)
        ensures
            final(self)@ == old(self)@.push(T::to_resource(*resource)),
    {
        let r = (*resource).into_resource();
        self.stack.push(r);
    }

    /// Takes the top entry off the stack and gives back the `T` it holds. An
    /// entry that holds another type is taken off all the same.
    pub fn pop<T: ResourceTag>(&mut self) -> (r: Result<Box<T>, Error>)
        ensures
            old(self)@.len() == 0 ==> (r matches Err(Error::EmptyStack)),
            old(self)@.len() == 0 ==> final(self)@ == old(self)@,
            old(self)@.len() > 0 ==> final(self)@ == old(self)@.drop_last(),
            old(self)@.len() > 0 ==> match T::from_resource(old(self)@.last()) {
                Some(v) => (r matches Ok(b) && *b == v),
                None => r matches Err(Error::InvalidResourceType),
            },
    {
        match self.stack.pop() {
            None => Err(Error::EmptyStack),
            Some(entry) => match T::take_from(entry) {
                Some(v) => Ok(Box::new(v)),
                None => Err(Error::InvalidResourceType),
            },
        }
    }

    /// Give mutable access to the stack top.
    pub fn top<T: ResourceTag>(&mut self) -> (r: Result<&mut T, Error>)
        ensures
            match r {
                Ok(m) => old(self)@.len() > 0 && T::from_resource(old(self)@.last()) == Some(*m)
                    && final(self)@ == old(self)@.update(
                    old(self)@.len() - 1,
                    T::to_resource(*final(m)),
                ),
                Err(e) => final(self)@ == old(self)@ && (old(self)@.len() == 0 ==> e
                    is EmptyStack) && (old(self)@.len() > 0 ==> e is InvalidResourceType
                    && T::from_resource(old(self)@.last()) is None),
            },
    {
        let n = self.stack.len();
        if n == 0 {
            return Err(Error::EmptyStack);
        }
        let last = &mut self.stack[n - 1];
        match T::resource_mut(last) {
            Some(m) => Ok(m),
            None => Err(Error::InvalidResourceType),
        }
    }
}


/// A value pushed on the stack is what `pop` gives back, and taking it off
/// leaves the stack as it was before the push.
pub proof fn lemma_push_then_pop<T: ResourceTag>(st: Seq<Resource>, v: T)
    ensures
        st.push(T::to_resource(v)).len() > 0,
        T::from_resource(st.push(T::to_resource(v)).last()) == Some(v),
        st.push(T::to_resource(v)).drop_last() == st,
{
    T::lemma_round_trip(v);
    assert(st.push(T::to_resource(v)).drop_last() =~= st);
}

/// A value written through `top` is what `top` and `pop` give next, and the
/// entries below the top stay as they were.
pub proof fn lemma_top_write_then_read<T: ResourceTag>(st: Seq<Resource>, w: T)
    requires
        st.len() > 0,
    ensures
        T::from_resource(st.update(st.len() - 1, T::to_resource(w)).last()) == Some(w),
        st.update(st.len() - 1, T::to_resource(w)).len() == st.len(),
        st.update(st.len() - 1, T::to_resource(w)).drop_last() == st.drop_last(),
{
    T::lemma_round_trip(w);
    assert(st.update(st.len() - 1, T::to_resource(w)).drop_last() =~= st.drop_last());
}

//------------------------------------------------------------------
/// What a loader makes of one chunk, given the resource on top of its stack.
pub enum Step<V> {
    /// Read on, with this resource on top of the stack.
    Continue(Option<V>),
    /// The resource is complete.
    Finish(V),
    Fail(Error),
    /// A chunk that this loader does not read at all.
    Abort,
}

/// The executable counterpart of [`Step`].
pub enum Advance<T> {
    Continue,
    Finish(Box<T>),
    Fail(Error),
    Abort,
}

/// The resource of type `T` on top of a stack, if there is one.
pub open spec fn top_of<T: ResourceTag + View>(st: Seq<Resource>) -> Option<T::V> {
    if st.len() == 0 {
        None
    } else {
        match T::from_resource(st.last()) {
            Some(v) => Some(v@),
            None => None,
        }
    }
}

/// Every entry of the stack holds a `T`.
pub open spec fn holds_only<T: ResourceTag>(st: Seq<Resource>) -> bool {
    forall|k: int| 0 <= k < st.len() ==> (#[trigger] T::from_resource(st[k])) is Some
}

pub open spec fn advanced_as<T: View>(r: Advance<T>, step: Step<T::V>, top: Option<T::V>) -> bool {
    match step {
        Step::Continue(t) => r is Continue && top == t,
        Step::Finish(v) => r matches Advance::Finish(b) && b@ == v,
        Step::Fail(err) => r matches Advance::Fail(e2) && e2 == err,
        Step::Abort => r is Abort,
    }
}

/// A resource that a file holds as a run of chunks ending with an END chunk.
pub trait ChunkLoader: ResourceTag + View {
    /// What the loader makes of chunk `c` when `top` is on top of its stack.
    spec fn step(top: Option<Self::V>, c: ChunkView) -> Step<Self::V>;

    fn apply_chunk(stack: &mut ResourceStack, c: Chunk) -> (r: Advance<Self>)
        requires
            holds_only::<Self>(old(stack)@),
        ensures
            holds_only::<Self>(final(stack)@),
            advanced_as(
                r,
                Self::step(top_of::<Self>(old(stack)@), c@),
                top_of::<Self>(final(stack)@),
            ),
    ;
}

/// What the chunks from `i` on make of a resource, when `top` is on top of
/// the loading stack.
pub open spec fn load_at<L: ChunkLoader>(s: Seq<u8>, i: int, top: Option<L::V>) -> Parse<L::V>
    decreases s.len() - i,
{
    match Chunk::parse_spec(s, i) {
        Parse::Fail(err, q) => Parse::Fail(err, q),
        Parse::Abort => Parse::Abort,
        Parse::Done(c, e) => {
            // (never taken: a chunk read consumes bytes, see `lemma_progress`)
            if !(i < e <= s.len()) {
                Parse::Abort
            } else {
                match L::step(top, c) {
                    Step::Continue(t) => load_at::<L>(s, e, t),
                    Step::Finish(v) => Parse::Done(v, e),
                    Step::Fail(err) => Parse::Fail(err, Some(e)),
                    Step::Abort => Parse::Abort,
                }
            }
        },
    }
}

/// Loading goes chunk by chunk: a chunk read at `i` that the loader reads on
/// from leaves the rest of the load to the chunks after it, with the
/// loader's new top of stack; a chunk that completes the resource ends the
/// load past it.
pub proof fn lemma_load_step<L: ChunkLoader>(
    s: Seq<u8>,
    i: int,
    top: Option<L::V>,
    c: ChunkView,
    e: int,
)
    requires
        0 <= i,
        Chunk::parse_spec(s, i) == Parse::<ChunkView>::Done(c, e),
    ensures
        L::step(top, c) matches Step::Continue(t) ==> load_at::<L>(s, i, top) == load_at::<L>(
            s,
            e,
            t,
        ),
        L::step(top, c) matches Step::Finish(v) ==> load_at::<L>(s, i, top) == Parse::Done(v, e),
{
    Chunk::lemma_progress(s, i);
}

pub proof fn lemma_load_progress<L: ChunkLoader>(s: Seq<u8>, i: int, top: Option<L::V>)
    ensures
        load_at::<L>(s, i, top) matches Parse::Done(_, e) ==> i < e <= s.len(),
    decreases s.len() - i,
{
    if let Parse::Done(c, e) = Chunk::parse_spec(s, i) {
        if i < e <= s.len() {
            if let Step::Continue(t) = L::step(top, c) {
                lemma_load_progress::<L>(s, e, t);
            }
        }
    }
}

pub proof fn lemma_load_prefix<L: ChunkLoader>(s: Seq<u8>, t: Seq<u8>, i: int, top: Option<L::V>)
    requires
        load_at::<L>(s, i, top) is Done,
    ensures
        load_at::<L>(s + t, i, top) == load_at::<L>(s, i, top),
    decreases s.len() - i,
{
    Chunk::lemma_prefix(s, t, i);
    if let Parse::Done(c, e) = Chunk::parse_spec(s, i) {
        if let Step::Continue(top2) = L::step(top, c) {
            lemma_load_prefix::<L>(s, t, e, top2);
        }
    }
}

pub proof fn lemma_load_shift<L: ChunkLoader>(p: Seq<u8>, s: Seq<u8>, i: int, top: Option<L::V>)
    requires
        0 <= i,
    ensures
        load_at::<L>(p + s, p.len() + i, top) == shifted(load_at::<L>(s, i, top), p.len() as int),
    decreases s.len() - i,
{
    Chunk::lemma_shift(p, s, i);
    Chunk::lemma_progress(s, i);
    if let Parse::Done(c, e) = Chunk::parse_spec(s, i) {
        if let Step::Continue(top2) = L::step(top, c) {
            lemma_load_shift::<L>(p, s, e, top2);
        }
    }
}

/// Reads the chunks of one resource of type `L` from `pos` on.
pub fn load_chunks<L: ChunkLoader>(data: &Vec<u8>, pos: usize) -> (r: Result<(Box<L>, usize), Stop>)
    requires
        pos <= data@.len(),
    ensures
        parsed_as(r, load_at::<L>(data@, pos as int, None)),
        fails_within(r, pos as int, data@.len() as int),
{
    let mut stack = ResourceStack::new();
    let mut cur = pos;
    loop
        invariant
            pos <= cur <= data@.len(),
            holds_only::<L>(stack@),
            load_at::<L>(data@, cur as int, top_of::<L>(stack@)) == load_at::<L>(
                data@,
                pos as int,
                None,
            ),
        decreases data@.len() - cur,
    {
        let (c, e) = match Chunk::parse_at(data, cur) {
            Ok(x) => x,
            Err(stop) => {
                return Err(stop);
            },
        };
        proof {
            Chunk::lemma_progress(data@, cur as int);
        }
        match L::apply_chunk(&mut stack, c) {
            Advance::Continue => {},
            Advance::Finish(v) => {
                return Ok((v, e));
            },
            Advance::Fail(err) => {
                return Err(Stop::Fail(err, Some(e)));
            },
            Advance::Abort => {
                return Err(Stop::Abort);
            },
        }
        cur = e;
    }
}

//------------------------------------------------------------------
/// A Carma resource that has a name
pub trait NamedResource {
    spec fn name(&self) -> Seq<char>;

    fn resource_name(&self) -> (r: String)
        ensures
            r@ == self.name(),
    ;
}

impl<T: NamedResource> NamedResource for Box<T> {
    open spec fn name(&self) -> Seq<char> {
        (**self).name()
    }

    fn resource_name(&self) -> (r: String) {
        (**self).resource_name()
    }
}

impl NamedResource for Model {
    open spec fn name(&self) -> Seq<char> {
        self.identifier@
    }

    fn resource_name(&self) -> (r: String) {
        self.identifier.clone()
    }
}

impl NamedResource for PixelMap {
    open spec fn name(&self) -> Seq<char> {
        self.identifier@
    }

    fn resource_name(&self) -> (r: String) {
        self.identifier.clone()
    }
}

} // verus!
