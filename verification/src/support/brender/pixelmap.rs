use bevy::utils::HashMap;
use crate::support::brender::resource::{
    file_type, pixelmap_type, lemma_load_prefix, lemma_load_step, FileInfoChunk, PixelMapChunkView,
    PixelsChunkView, lemma_load_progress, lemma_load_shift, load_at,
    load_chunks, Advance, Chunk, ChunkLoader, ChunkView, FromStream, LoadMany, ResourceStack, Step,
};
use crate::support::brender::stream::{parsed_as, Parse, Stop};
use crate::support::Error;
use vstd::prelude::*;
use vstd::string::StringExecFns;

verus! {

/// Pixmap consists of two chunks: name and data.
pub struct PixelMap {
    pub identifier: String,
    /// One of `pixelmap_type`.
    pub pixel_type: u8,
    pub width: u16,
    pub height: u16,
    pub origin_x: u16,
    pub origin_y: u16,
    pub row_bytes: u16,
    pub units: u32,
    pub unit_bytes: u32,
    pub data: Vec<u8>,
}

pub struct PixelMapView {
    pub identifier: Seq<char>,
    pub pixel_type: u8,
    pub width: u16,
    pub height: u16,
    pub origin_x: u16,
    pub origin_y: u16,
    pub row_bytes: u16,
    pub units: u32,
    pub unit_bytes: u32,
    pub data: Seq<u8>,
}

impl View for PixelMap {
    type V = PixelMapView;

    open spec fn view(&self) -> PixelMapView {
        PixelMapView {
            identifier: self.identifier@,
            pixel_type: self.pixel_type,
            width: self.width,
            height: self.height,
            origin_x: self.origin_x,
            origin_y: self.origin_y,
            row_bytes: self.row_bytes,
            units: self.units,
            unit_bytes: self.unit_bytes,
            data: self.data@,
        }
    }
}


/// The character of the decimal digit `d`.
pub open spec fn digit_char(d: nat) -> char {
    (0x30 + d) as char
}

/// The decimal digits of `n`, most significant first, without leading zeros.
pub open spec fn decimal(n: nat) -> Seq<char>
    decreases n,
{
    if n < 10 {
        seq![digit_char(n)]
    } else {
        decimal(n / 10) + seq![digit_char(n % 10)]
    }
}

/// The one-character text of the decimal digit `d`.
fn digit_text(d: u32) -> (t: &'static str)
    requires
        d < 10,
    ensures
        t@ == seq![digit_char(d as nat)],
{
    proof {
        reveal_strlit("0");
        reveal_strlit("1");
        reveal_strlit("2");
        reveal_strlit("3");
        reveal_strlit("4");
        reveal_strlit("5");
        reveal_strlit("6");
        reveal_strlit("7");
        reveal_strlit("8");
        reveal_strlit("9");
    }
    let t = match d {
        0 => "0",
        1 => "1",
        2 => "2",
        3 => "3",
        4 => "4",
        5 => "5",
        6 => "6",
        7 => "7",
        8 => "8",
        _ => "9",
    };
    assert(t@ =~= seq![digit_char(d as nat)]);
    t
}

/// Appends the decimal digits of `n` to `text`.
fn append_decimal(text: &mut String, n: u32)
    ensures
        final(text)@ == old(text)@ + decimal(n as nat),
    decreases n,
{
    if n >= 10 {
        append_decimal(text, n / 10);
    }
    text.append(digit_text(n % 10));
    proof {
        if n >= 10 {
            assert(text@ =~= old(text)@ + decimal(n as nat));
        } else {
            assert(decimal(n as nat) == seq![digit_char(n as nat)]);
        }
    }
}

/// The text form of a pixelmap, as in
/// `SKY.PIX type 3 (2x1, stride 5 bytes, origin 6x4) in 2 units of 1 bytes each`.
/// The fields fill the slots in their declaration order: the "stride" slot
/// shows `origin_x`, and the "origin" slot `origin_y` and `row_bytes`.
pub open spec fn pixelmap_text(p: PixelMapView) -> Seq<char> {
    p.identifier + " type "@ + decimal(p.pixel_type as nat) + " ("@ + decimal(p.width as nat) + "x"@
        + decimal(p.height as nat) + ", stride "@ + decimal(p.origin_x as nat) + " bytes, origin "@
        + decimal(p.origin_y as nat) + "x"@ + decimal(p.row_bytes as nat) + ") in "@ + decimal(
        p.units as nat,
    ) + " units of "@ + decimal(p.unit_bytes as nat) + " bytes each"@
}

impl PixelMap {
    /// The text form of the pixelmap: its name, type, size, then its origin
    /// and row bytes, and its units (see `pixelmap_text` for the order).
    pub fn describe(&self) -> (r: String)
        ensures
            r@ == pixelmap_text(self@),
    {
        let mut text = String::from_str(self.identifier.as_str());
        text.append(" type ");
        append_decimal(&mut text, self.pixel_type as u32);
        text.append(" (");
        append_decimal(&mut text, self.width as u32);
        text.append("x");
        append_decimal(&mut text, self.height as u32);
        text.append(", stride ");
        append_decimal(&mut text, self.origin_x as u32);
        text.append(" bytes, origin ");
        append_decimal(&mut text, self.origin_y as u32);
        text.append("x");
        append_decimal(&mut text, self.row_bytes as u32);
        text.append(") in ");
        append_decimal(&mut text, self.units);
        text.append(" units of ");
        append_decimal(&mut text, self.unit_bytes);
        text.append(" bytes each");
        text
    }
}

impl ChunkLoader for PixelMap {
    /// A PIXELMAP chunk starts a pixelmap, a PIXELS chunk gives its data and
    /// the END chunk completes it.
    open spec fn step(top: Option<PixelMapView>, c: ChunkView) -> Step<PixelMapView> {
        match c {
            ChunkView::End => match top {
                Some(p) => Step::Finish(p),
                None => Step::Fail(Error::EmptyStack),
            },
            ChunkView::FileInfo(fi) => if fi.file_type != file_type::PIXELMAP {
                Step::Fail(
                    Error::InvalidFileType {
                        expected: file_type::PIXELMAP,
                        received: fi.file_type,
                    },
                )
            } else {
                Step::Continue(top)
            },
            ChunkView::PixelMap(h) => Step::Continue(
                Some(
                    PixelMapView {
                        identifier: h.identifier,
                        pixel_type: h.pixel_type,
                        width: h.width,
                        height: h.height,
                        origin_x: h.origin_x,
                        origin_y: h.origin_y,
                        row_bytes: h.row_bytes,
                        units: 0,
                        unit_bytes: 0,
                        data: Seq::empty(),
                    },
                ),
            ),
            ChunkView::Pixels(px) => match top {
                Some(p) => Step::Continue(
                    Some(
                        PixelMapView {
                            units: px.units,
                            unit_bytes: px.unit_bytes,
                            data: px.data,
                            ..p
                        },
                    ),
                ),
                None => Step::Fail(Error::EmptyStack),
            },
            _ => Step::Abort,
        }
    }

    fn apply_chunk(stack: &mut ResourceStack, c: Chunk) -> (r: Advance<PixelMap>) {
        match c {
            Chunk::End() => match stack.pop::<PixelMap>() {
                Ok(p) => Advance::Finish(p),
                Err(err) => Advance::Fail(err),
            },
            Chunk::FileInfo(fi) => {
                if fi.file_type != file_type::PIXELMAP {
                    Advance::Fail(
                        Error::InvalidFileType {
                            expected: file_type::PIXELMAP,
                            received: fi.file_type,
                        },
                    )
                } else {
                    Advance::Continue
                }
            },
            Chunk::PixelMap(h) => {
                let pixelmap = PixelMap {
                    identifier: h.identifier,
                    pixel_type: h.pixel_type,
                    row_bytes: h.row_bytes,
                    width: h.width,
                    height: h.height,
                    origin_x: h.origin_x,
                    origin_y: h.origin_y,
                    units: 0,
                    unit_bytes: 0,
                    data: Vec::new(),
                };
                stack.push(Box::new(pixelmap));
                Advance::Continue
            },
            Chunk::Pixels(px) => match stack.top::<PixelMap>() {
                Ok(p) => {
                    p.units = px.units;
                    p.unit_bytes = px.unit_bytes;
                    p.data = px.data;
                    Advance::Continue
                },
                Err(err) => Advance::Fail(err),
            },
            _ => Advance::Abort,
        }
    }
}

impl FromStream for PixelMap {
    type Output = Box<PixelMap>;

    /// Read chunks until last chunk is encountered.
    /// Certain chunks initialize certain properties.
    open spec fn parse_spec(s: Seq<u8>, i: int) -> Parse<PixelMapView> {
        load_at::<PixelMap>(s, i, None)
    }

    proof fn lemma_progress(s: Seq<u8>, i: int) {
        lemma_load_progress::<PixelMap>(s, i, None);
    }

    proof fn lemma_prefix(s: Seq<u8>, t: Seq<u8>, i: int) {
        lemma_load_prefix::<PixelMap>(s, t, i, None);
    }

    proof fn lemma_shift(p: Seq<u8>, s: Seq<u8>, i: int) {
        lemma_load_shift::<PixelMap>(p, s, i, None);
    }

    fn parse_at(data: &Vec<u8>, pos: usize) -> (r: Result<(Box<PixelMap>, usize), Stop>) {
        let r = load_chunks::<PixelMap>(data, pos);
        assert(parsed_as(r, Self::parse_spec(data@, pos as int)));
        r
    }
}

/// A single file may hold several of them, one after another.
impl LoadMany for PixelMap {
}


//------------------------------------------------------------------
/// Named pixelmaps, held in a `bevy::utils::HashMap<String, Box<PixelMap>>`.
#[verifier::external_body]
pub struct PixelMapTable {
    maps: HashMap<String, Box<PixelMap>>,
}

/// The pixelmaps that a table holds, by name.
pub uninterp spec fn pixelmaps_in(t: PixelMapTable) -> Map<Seq<char>, PixelMap>;

/// The table that the entries make, the first entry of a name winning.
pub open spec fn pixelmap_entries(es: Seq<(String, PixelMap)>) -> Map<Seq<char>, PixelMap>
    decreases es.len(),
{
    if es.len() == 0 {
        Map::empty()
    } else {
        pixelmap_entries(es.drop_first()).insert(es[0].0@, es[0].1)
    }
}

impl PixelMapTable {
    /// `HashMap::default`: a map that holds nothing.
    #[verifier::external_body]
    fn empty() -> (table: PixelMapTable)
        ensures
            pixelmaps_in(table) =~= Map::empty(),
    {
        PixelMapTable { maps: HashMap::default() }
    }

    /// `HashMap::insert`: afterwards `name` maps to `map`, and every other
    /// name to what it mapped to before.
    #[verifier::external_body]
    fn insert_entry(table: &mut PixelMapTable, name: String, map: PixelMap)
        ensures
            pixelmaps_in(*final(table)) == pixelmaps_in(*old(table)).insert(name@, map),
    {
        table.maps.insert(name, Box::new(map));
    }

    /// `HashMap::get`: the pixelmap that `name` maps to, if any.
    #[verifier::external_body]
    pub(crate) fn lookup(&self, name: &str) -> (r: Option<&PixelMap>)
        ensures
            match r {
                Some(p) => pixelmaps_in(*self).contains_key(name@) && pixelmaps_in(*self)[name@]
                    == *p,
                None => !pixelmaps_in(*self).contains_key(name@),
            },
    {
        match self.maps.get(name) {
            Some(b) => Some(&**b),
            None => None,
        }
    }

    /// A table of the given named pixelmaps.
    pub fn from_entries(entries: Vec<(String, PixelMap)>) -> (t: PixelMapTable)
        ensures
            pixelmaps_in(t) == pixelmap_entries(entries@),
    {
        let ghost all = entries@;
        let mut entries = entries;
        let mut t = PixelMapTable::empty();
        proof {
            assert(all.subrange(all.len() as int, all.len() as int) =~= Seq::<
                (String, PixelMap),
            >::empty());
        }
        while entries.len() > 0
            invariant
                entries@ == all.take(entries@.len() as int),
                entries@.len() <= all.len(),
                pixelmaps_in(t) == pixelmap_entries(
                    all.subrange(entries@.len() as int, all.len() as int),
                ),
            decreases entries@.len(),
        {
            let ghost n = entries@.len() as int;
            let (name, map) = entries.pop().unwrap();
            proof {
                assert(all.subrange(n - 1, all.len() as int).drop_first() =~= all.subrange(
                    n,
                    all.len() as int,
                ));
                assert(entries@ =~= all.take(n - 1));
            }
            PixelMapTable::insert_entry(&mut t, name, map);
        }
        proof {
            assert(all.subrange(0, all.len() as int) =~= all);
        }
        t
    }
}

//------------------------------------------------------------------
/// Bytes of one unit of the output of `remap_via_palette`: colour index 0
/// gives transparent black, another index `c` the red, green and blue bytes
/// of palette entry `c` and, as alpha, 255 less the entry's first byte.
pub open spec fn rgba_unit(color_map: PixelMapView, palette: PixelMapView, i: int) -> Seq<u8> {
    let c = color_map.data[i];
    if c == 0 {
        seq![0u8, 0u8, 0u8, 255u8]
    } else {
        let b = c as int * palette.unit_bytes as int;
        seq![
            palette.data[b + 1],
            palette.data[b + 2],
            palette.data[b + 3],
            (255 - palette.data[b]) as u8,
        ]
    }
}

/// Output bytes of the first `n` units.
pub open spec fn rgba_units(color_map: PixelMapView, palette: PixelMapView, n: nat) -> Seq<u8>
    decreases n,
{
    if n == 0 {
        Seq::empty()
    } else {
        rgba_units(color_map, palette, (n - 1) as nat) + rgba_unit(color_map, palette, n - 1)
    }
}

/// The indexed colour map and the palette it is remapped through are such
/// that every unit and every palette entry that the remapping reads is there,
/// and its 32-bit offsets do not overflow.
pub open spec fn remap_fits(color_map: PixelMapView, palette: PixelMapView) -> bool {
    &&& color_map.units <= color_map.data.len()
    &&& forall|i: int|
        0 <= i < color_map.units && #[trigger] color_map.data[i] != 0 ==> color_map.data[i] as int
            * palette.unit_bytes as int + 3 < palette.data.len() && color_map.data[i] as int
            * palette.unit_bytes as int + 3 <= u32::MAX
}

/// The RGBA pixelmap that `remap_via_palette` makes of a colour map and a palette.
pub open spec fn remapped(color_map: PixelMapView, palette: PixelMapView) -> PixelMapView {
    PixelMapView {
        identifier: Seq::empty(),
        pixel_type: pixelmap_type::RGBA_888,
        width: color_map.width,
        height: color_map.height,
        origin_x: 0,
        origin_y: 0,
        row_bytes: 0,
        units: color_map.units,
        unit_bytes: 4,
        data: rgba_units(color_map, palette, color_map.units as nat),
    }
}

impl PixelMap {
    /// Whether `remap` can read everything it needs (its condition).
    pub fn remap_fits(&self, palette: &PixelMap) -> (b: bool)
        ensures
            b == remap_fits(self@, palette@),
    {
        if self.units as usize > self.data.len() {
            return false;
        }
        let mut i: u32 = 0;
        while i < self.units
            invariant
                i <= self.units <= self.data@.len(),
                forall|j: int|
                    0 <= j < i && #[trigger] self.data@[j] != 0 ==> self.data@[j] as int
                        * palette.unit_bytes as int + 3 < palette.data@.len() && self.data@[j] as int
                        * palette.unit_bytes as int + 3 <= u32::MAX,
            decreases self.units - i,
        {
            let c = self.data[i as usize];
            if c != 0 {
                let ub = palette.unit_bytes;
                assert(c as int * ub as int <= 0xff * 0xffff_ffff) by (nonlinear_arith)
                    requires
                        c <= 0xff,
                        ub <= 0xffff_ffff,
                ;
                let wide = c as u64 * ub as u64 + 3;
                if wide > 0xffff_ffff || wide >= palette.data.len() as u64 {
                    return false;
                }
            }
            i = i + 1;
        }
        true
    }

    /// Convert indexed-color image to RGBA using `palette`.
    pub fn remap(&self, palette: &PixelMap) -> (out: PixelMap)
        requires
            remap_fits(self@, palette@),
        ensures
            out@ == remapped(self@, palette@),
    {
        let mut data: Vec<u8> = Vec::new();
        let mut i: u32 = 0;
        while i < self.units
            invariant
                remap_fits(self@, palette@),
                i <= self.units,
                data@ == rgba_units(self@, palette@, i as nat),
            decreases self.units - i,
        {
            let c = self.data[i as usize];
            let ghost before = data@;
            // colour index 0 is transparency
            if c == 0 {
                data.push(0);
                data.push(0);
                data.push(0);
                data.push(255);
            } else {
                assert(self@.data[i as int] == c);
                let b = c as u32 * palette.unit_bytes;
                data.push(palette.data[(b + 1) as usize]);
                data.push(palette.data[(b + 2) as usize]);
                data.push(palette.data[(b + 3) as usize]);
                data.push(255 - palette.data[b as usize]);
            }
            proof {
                assert(data@ =~= before + rgba_unit(self@, palette@, i as int));
            }
            i = i + 1;
        }
        PixelMap {
            identifier: String::new(),
            pixel_type: pixelmap_type::RGBA_888,
            width: self.width,
            height: self.height,
            origin_x: 0,
            origin_y: 0,
            row_bytes: 0,
            units: self.units,
            unit_bytes: 4,
            data,
        }
    }
}

/// The RGBA form of a colour map keeps the colour map's units, width and
/// height, has the RGBA_888 type with four bytes per unit, and holds four
/// bytes for each unit.
pub proof fn lemma_remapped_shape(color_map: PixelMapView, palette: PixelMapView)
    ensures
        remapped(color_map, palette).pixel_type == pixelmap_type::RGBA_888,
        remapped(color_map, palette).unit_bytes == 4,
        remapped(color_map, palette).units == color_map.units,
        remapped(color_map, palette).width == color_map.width,
        remapped(color_map, palette).height == color_map.height,
        remapped(color_map, palette).data.len() == 4 * color_map.units,
{
    lemma_remap_units(color_map, palette, color_map.units as nat);
}

/// The condition of `remap_via_palette`: when both pixelmaps are there, the
/// colour map can be remapped through the palette.
pub open spec fn remap_via_palette_fits(
    color_map_name: Seq<char>,
    index_shade_name: Seq<char>,
    t: Map<Seq<char>, PixelMap>,
) -> bool {
    t.contains_key(color_map_name) && t.contains_key(index_shade_name) ==> remap_fits(
        t[color_map_name]@,
        t[index_shade_name]@,
    )
}

/// Whether `remap_via_palette` can read everything it needs (its condition).
pub fn remap_via_palette_fits_in(
    color_map_name: &str,
    index_shade_name: &str,
    imgs: &PixelMapTable,
) -> (b: bool)
    ensures
        b == remap_via_palette_fits(color_map_name@, index_shade_name@, pixelmaps_in(*imgs)),
{
    match (imgs.lookup(color_map_name), imgs.lookup(index_shade_name)) {
        (Some(color_map), Some(palette)) => color_map.remap_fits(palette),
        _ => true,
    }
}

/// Convert indexed-color image to RGBA using provided palette.
///
/// `Palette = shade tab` in BRender parlance.
pub fn remap_via_palette(color_map_name: &str, index_shade_name: &str, imgs: &PixelMapTable) -> (r:
    Result<PixelMap, Error>)
    requires
        remap_via_palette_fits(color_map_name@, index_shade_name@, pixelmaps_in(*imgs)),
    ensures
        !pixelmaps_in(*imgs).contains_key(color_map_name@) ==> (r matches Err(
            Error::MissingPixelMap { pm_name },
        ) && pm_name@ == color_map_name@),
        pixelmaps_in(*imgs).contains_key(color_map_name@) && !pixelmaps_in(*imgs).contains_key(
            index_shade_name@,
        ) ==> (r matches Err(Error::MissingPixelMap { pm_name }) && pm_name@ == index_shade_name@),
        pixelmaps_in(*imgs).contains_key(color_map_name@) && pixelmaps_in(*imgs).contains_key(
            index_shade_name@,
        ) ==> (r matches Ok(p) && p@ == remapped(
            pixelmaps_in(*imgs)[color_map_name@]@,
            pixelmaps_in(*imgs)[index_shade_name@]@,
        )),
{
    let color_map = match imgs.lookup(color_map_name) {
        Some(p) => p,
        None => {
            return Err(Error::MissingPixelMap { pm_name: color_map_name.to_owned() });
        },
    };
    let palette = match imgs.lookup(index_shade_name) {
        Some(p) => p,
        None => {
            return Err(Error::MissingPixelMap { pm_name: index_shade_name.to_owned() });
        },
    };
    Ok(color_map.remap(palette))
}


/// The RGBA data has four bytes per unit of the colour map: colour index 0
/// gives transparent black (0, 0, 0, 255); another index `c` gives the bytes
/// 1, 2 and 3 of palette entry `c` and, as alpha, 255 less its byte 0.
pub proof fn lemma_remap_units(color_map: PixelMapView, palette: PixelMapView, n: nat)
    ensures
        rgba_units(color_map, palette, n).len() == 4 * n,
        forall|i: int|
            #![trigger color_map.data[i]]
            0 <= i < n ==> {
                let out = rgba_units(color_map, palette, n);
                let b = color_map.data[i] as int * palette.unit_bytes as int;
                if color_map.data[i] == 0 {
                    out[4 * i] == 0 && out[4 * i + 1] == 0 && out[4 * i + 2] == 0 && out[4 * i
                        + 3] == 255
                } else {
                    out[4 * i] == palette.data[b + 1] && out[4 * i + 1] == palette.data[b + 2]
                        && out[4 * i + 2] == palette.data[b + 3] && out[4 * i + 3] == (255
                        - palette.data[b]) as u8
                }
            },
    decreases n,
{
    if n > 0 {
        lemma_remap_units(color_map, palette, (n - 1) as nat);
    }
}

/// What each chunk does to the pixelmap on top of the loading stack. A
/// PIXELMAP chunk starts a new pixelmap whose name, type, row bytes, width,
/// height and origin are the header's own fields, each from the field of the
/// same name, with no pixels yet. A PIXELS chunk gives the pixelmap on top
/// its units, unit size and data, the header fields staying as they were;
/// with no pixelmap on the stack it is an error. The END chunk completes the
/// pixelmap on top, a FILE_INFO chunk is checked to be of a pixelmap file,
/// and any other chunk is not read by the pixelmap loader.
pub proof fn lemma_pixelmap_chunk_effects(top: Option<PixelMapView>, c: ChunkView)
    ensures
        c matches ChunkView::PixelMap(h) ==> (PixelMap::step(top, c) matches Step::Continue(
            Some(p2),
        ) && p2.identifier == h.identifier && p2.pixel_type == h.pixel_type && p2.row_bytes
            == h.row_bytes && p2.width == h.width && p2.height == h.height && p2.origin_x
            == h.origin_x && p2.origin_y == h.origin_y && p2.units == 0 && p2.unit_bytes == 0
            && p2.data.len() == 0),
        c matches ChunkView::Pixels(px) ==> (top matches Some(p) ==> (PixelMap::step(
            top,
            c,
        ) matches Step::Continue(Some(p2)) && p2.units == px.units
                && p2.unit_bytes == px.unit_bytes
                && p2.data == px.data
                && p2.identifier == p.identifier
                && p2.pixel_type == p.pixel_type
                && p2.width == p.width
                && p2.height == p.height
                && p2.origin_x == p.origin_x
                && p2.origin_y == p.origin_y
                && p2.row_bytes == p.row_bytes)),
        c matches ChunkView::Pixels(_) && top is None ==> PixelMap::step(top, c) == Step::<PixelMapView>::Fail(
            Error::EmptyStack,
        ),
        c is End ==> (top matches Some(p) ==> PixelMap::step(top, c) == Step::Finish(p)),
        c is End && top is None ==> PixelMap::step(top, c) == Step::<PixelMapView>::Fail(
            Error::EmptyStack,
        ),
        c matches ChunkView::FileInfo(fi) ==> (fi.file_type == file_type::PIXELMAP
            ==> PixelMap::step(top, c) == Step::Continue(top)),
        c matches ChunkView::FileInfo(fi) ==> (fi.file_type != file_type::PIXELMAP
            ==> PixelMap::step(top, c) == Step::<PixelMapView>::Fail(
            Error::InvalidFileType { expected: file_type::PIXELMAP, received: fi.file_type },
        )),
        !(c is PixelMap || c is Pixels || c is End || c is FileInfo) ==> PixelMap::step(top, c)
            is Abort,
{
}

/// A pixelmap file whose chunks are a FILE_INFO chunk of a pixelmap file, a
/// PIXELMAP header, a PIXELS chunk and the END chunk loads as the pixelmap
/// with the header's name, type, row bytes, width, height and origin (each
/// from the field of the same name) and the PIXELS chunk's units, unit size
/// and data, ending past the END chunk.
pub proof fn lemma_pixelmap_file(
    s: Seq<u8>,
    i: int,
    fi: FileInfoChunk,
    h: PixelMapChunkView,
    px: PixelsChunkView,
    e1: int,
    e2: int,
    e3: int,
    e4: int,
)
    requires
        0 <= i,
        Chunk::parse_spec(s, i) == Parse::<ChunkView>::Done(ChunkView::FileInfo(fi), e1),
        fi.file_type == file_type::PIXELMAP,
        Chunk::parse_spec(s, e1) == Parse::<ChunkView>::Done(ChunkView::PixelMap(h), e2),
        Chunk::parse_spec(s, e2) == Parse::<ChunkView>::Done(ChunkView::Pixels(px), e3),
        Chunk::parse_spec(s, e3) == Parse::<ChunkView>::Done(ChunkView::End, e4),
    ensures
        PixelMap::parse_spec(s, i) matches Parse::Done(p, e) && e == e4 && p.identifier
            == h.identifier && p.pixel_type == h.pixel_type && p.row_bytes == h.row_bytes && p.width
            == h.width && p.height == h.height && p.origin_x == h.origin_x && p.origin_y
            == h.origin_y && p.units == px.units && p.unit_bytes == px.unit_bytes && p.data
            == px.data,
{
    Chunk::lemma_progress(s, i);
    Chunk::lemma_progress(s, e1);
    Chunk::lemma_progress(s, e2);
    lemma_load_step::<PixelMap>(s, i, None, ChunkView::FileInfo(fi), e1);
    let t = match PixelMap::step(None, ChunkView::PixelMap(h)) {
        Step::Continue(t) => t,
        _ => None,
    };
    lemma_load_step::<PixelMap>(s, e1, None, ChunkView::PixelMap(h), e2);
    let t2 = match PixelMap::step(t, ChunkView::Pixels(px)) {
        Step::Continue(t2) => t2,
        _ => None,
    };
    lemma_load_step::<PixelMap>(s, e2, t, ChunkView::Pixels(px), e3);
    lemma_load_step::<PixelMap>(s, e3, t2, ChunkView::End, e4);
}

} // verus!
