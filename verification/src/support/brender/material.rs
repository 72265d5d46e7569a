use crate::support::brender::resource::{
    file_type, lemma_load_prefix, lemma_load_progress, lemma_load_step, FileInfoChunk, lemma_load_shift, load_at, load_chunks,
    Advance, Chunk, ChunkLoader, ChunkView, FromStream, LoadMany, MaterialChunk, MaterialChunkView,
    ResourceStack, Step,
};
use bevy::utils::HashMap;
use crate::support::brender::stream::{parsed_as, Parse, Stop};
use crate::support::Error;
use vstd::prelude::*;

verus! {

/// MAT file is an index of: material internal name, PIX file name and TAB file name.
pub struct Material {
    pub material: MaterialChunk,
    // We will remap names to resources when converting to bevy...
    pub color_map_name: String,
    /// Palette file used to convert u8 indexed color to RGBA
    pub index_shade_name: String,
    pub index_blend_name: String,
    pub screendoor_name: String,
}

pub struct MaterialView {
    pub material: MaterialChunkView,
    pub color_map_name: Seq<char>,
    pub index_shade_name: Seq<char>,
    pub index_blend_name: Seq<char>,
    pub screendoor_name: Seq<char>,
}

impl View for Material {
    type V = MaterialView;

    open spec fn view(&self) -> MaterialView {
        MaterialView {
            material: self.material@,
            color_map_name: self.color_map_name@,
            index_shade_name: self.index_shade_name@,
            index_blend_name: self.index_blend_name@,
            screendoor_name: self.screendoor_name@,
        }
    }
}

/// A loader of material assets. It holds nothing: materials are read through
/// `Material::load_many`.
pub struct MaterialLoader;


impl ChunkLoader for Material {
    /// A MATERIAL chunk starts a material, the reference chunks name its
    /// maps and tables, and the END chunk completes it.
    open spec fn step(top: Option<MaterialView>, c: ChunkView) -> Step<MaterialView> {
        match c {
            ChunkView::End => match top {
                Some(m) => Step::Finish(m),
                None => Step::Fail(Error::EmptyStack),
            },
            ChunkView::FileInfo(fi) => if fi.file_type != file_type::MATERIAL {
                Step::Fail(Error::InvalidResourceType)
            } else {
                Step::Continue(top)
            },
            ChunkView::Material(mc) => Step::Continue(
                Some(
                    MaterialView {
                        material: mc,
                        color_map_name: Seq::empty(),
                        index_shade_name: Seq::empty(),
                        index_blend_name: Seq::empty(),
                        screendoor_name: Seq::empty(),
                    },
                ),
            ),
            ChunkView::ColorMapRef(n) => match top {
                Some(m) => Step::Continue(Some(MaterialView { color_map_name: n, ..m })),
                None => Step::Fail(Error::EmptyStack),
            },
            ChunkView::IndexShadeRef(n) => match top {
                Some(m) => Step::Continue(Some(MaterialView { index_shade_name: n, ..m })),
                None => Step::Fail(Error::EmptyStack),
            },
            ChunkView::IndexBlendRef(n) => match top {
                Some(m) => Step::Continue(Some(MaterialView { index_blend_name: n, ..m })),
                None => Step::Fail(Error::EmptyStack),
            },
            ChunkView::ScreendoorRef(n) => match top {
                Some(m) => Step::Continue(Some(MaterialView { screendoor_name: n, ..m })),
                None => Step::Fail(Error::EmptyStack),
            },
            _ => Step::Abort,
        }
    }

    fn apply_chunk(stack: &mut ResourceStack, c: Chunk) -> (r: Advance<Material>) {
        match c {
            Chunk::End() => match stack.pop::<Material>() {
                Ok(m) => Advance::Finish(m),
                Err(err) => Advance::Fail(err),
            },
            Chunk::FileInfo(fi) => {
                if fi.file_type != file_type::MATERIAL {
                    Advance::Fail(Error::InvalidResourceType)
                } else {
                    Advance::Continue
                }
            },
            Chunk::Material(material) => {
                let mat = Material {
                    material,
                    color_map_name: String::new(),
                    index_shade_name: String::new(),
                    index_blend_name: String::new(),
                    screendoor_name: String::new(),
                };
                stack.push(Box::new(mat));
                Advance::Continue
            },
            Chunk::ColorMapRef(color_map) => match stack.top::<Material>() {
                Ok(m) => {
                    m.color_map_name = color_map.identifier;
                    Advance::Continue
                },
                Err(err) => Advance::Fail(err),
            },
            Chunk::IndexShadeRef(index_shade) => match stack.top::<Material>() {
                Ok(m) => {
                    m.index_shade_name = index_shade.identifier;
                    Advance::Continue
                },
                Err(err) => Advance::Fail(err),
            },
            Chunk::IndexBlendRef(index_blend) => match stack.top::<Material>() {
                Ok(m) => {
                    m.index_blend_name = index_blend.identifier;
                    Advance::Continue
                },
                Err(err) => Advance::Fail(err),
            },
            Chunk::ScreendoorRef(screendoor) => match stack.top::<Material>() {
                Ok(m) => {
                    m.screendoor_name = screendoor.identifier;
                    Advance::Continue
                },
                Err(err) => Advance::Fail(err),
            },
            _ => Advance::Abort,
        }
    }
}

impl FromStream for Material {
    type Output = Box<Material>;

    /// Read chunks until last chunk is encountered.
    /// Certain chunks initialize certain properties.
    open spec fn parse_spec(s: Seq<u8>, i: int) -> Parse<MaterialView> {
        load_at::<Material>(s, i, None)
    }

    proof fn lemma_progress(s: Seq<u8>, i: int) {
        lemma_load_progress::<Material>(s, i, None);
    }

    proof fn lemma_prefix(s: Seq<u8>, t: Seq<u8>, i: int) {
        lemma_load_prefix::<Material>(s, t, i, None);
    }

    proof fn lemma_shift(p: Seq<u8>, s: Seq<u8>, i: int) {
        lemma_load_shift::<Material>(p, s, i, None);
    }

    fn parse_at(data: &Vec<u8>, pos: usize) -> (r: Result<(Box<Material>, usize), Stop>) {
        let r = load_chunks::<Material>(data, pos);
        assert(parsed_as(r, Self::parse_spec(data@, pos as int)));
        r
    }
}

/// A single file may hold several of them, one after another.
impl LoadMany for Material {
}

//------------------------------------------------------------------
/// Named materials, held in a `bevy::utils::HashMap<String, Box<Material>>`.
#[verifier::external_body]
pub struct MaterialTable {
    materials: HashMap<String, Box<Material>>,
}

/// The materials that a table holds, by name.
pub uninterp spec fn materials_in(t: MaterialTable) -> Map<Seq<char>, Material>;

/// The table that the entries make, the first entry of a name winning.
pub open spec fn material_entries(es: Seq<(String, Material)>) -> Map<Seq<char>, Material>
    decreases es.len(),
{
    if es.len() == 0 {
        Map::empty()
    } else {
        material_entries(es.drop_first()).insert(es[0].0@, es[0].1)
    }
}

impl MaterialTable {
    /// `HashMap::default`: a map that holds nothing.
    #[verifier::external_body]
    fn empty() -> (table: MaterialTable)
        ensures
            materials_in(table) =~= Map::empty(),
    {
        MaterialTable { materials: HashMap::default() }
    }

    /// `HashMap::insert`: afterwards `name` maps to `map`, and every other
    /// name to what it mapped to before.
    #[verifier::external_body]
    fn insert_entry(table: &mut MaterialTable, name: String, material: Material)
        ensures
            materials_in(*final(table)) == materials_in(*old(table)).insert(name@, material),
    {
        table.materials.insert(name, Box::new(material));
    }

    /// `HashMap::get`: the material that `name` maps to, if any.
    #[verifier::external_body]
    pub(crate) fn lookup(&self, name: &str) -> (r: Option<&Material>)
        ensures
            match r {
                Some(p) => materials_in(*self).contains_key(name@) && materials_in(*self)[name@]
                    == *p,
                None => !materials_in(*self).contains_key(name@),
            },
    {
        match self.materials.get(name) {
            Some(b) => Some(&**b),
            None => None,
        }
    }

    /// A table of the given named materials.
    pub fn from_entries(entries: Vec<(String, Material)>) -> (t: MaterialTable)
        ensures
            materials_in(t) == material_entries(entries@),
    {
        let ghost all = entries@;
        let mut entries = entries;
        let mut t = MaterialTable::empty();
        proof {
            assert(all.subrange(all.len() as int, all.len() as int) =~= Seq::<
                (String, Material),
            >::empty());
        }
        while entries.len() > 0
            invariant
                entries@ == all.take(entries@.len() as int),
                entries@.len() <= all.len(),
                materials_in(t) == material_entries(
                    all.subrange(entries@.len() as int, all.len() as int),
                ),
            decreases entries@.len(),
        {
            let ghost n = entries@.len() as int;
            let (name, material) = entries.pop().unwrap();
            proof {
                assert(all.subrange(n - 1, all.len() as int).drop_first() =~= all.subrange(
                    n,
                    all.len() as int,
                ));
                assert(entries@ =~= all.take(n - 1));
            }
            MaterialTable::insert_entry(&mut t, name, material);
        }
        proof {
            assert(all.subrange(0, all.len() as int) =~= all);
        }
        t
    }
}


/// What each chunk does to the material on top of the loading stack. A
/// MATERIAL chunk starts a new material with the chunk's properties and no
/// map or table names. A COLOUR_MAP_REF, INDEX_SHADE_REF, INDEX_BLEND_REF or
/// SCREENDOOR_REF chunk sets that name of the material on top to the chunk's
/// name, the others staying as they were; with no material on the stack it is
/// an error. The END chunk completes the material on top, a FILE_INFO chunk
/// of another kind of file is refused, and any other chunk is not read by
/// the material loader.
pub proof fn lemma_material_chunk_effects(top: Option<MaterialView>, c: ChunkView)
    ensures
        c matches ChunkView::Material(mc) ==> (Material::step(top, c) matches Step::Continue(
            Some(m2),
        ) && m2.material == mc && m2.color_map_name.len() == 0 && m2.index_shade_name.len() == 0
            && m2.index_blend_name.len() == 0 && m2.screendoor_name.len() == 0),
        c matches ChunkView::ColorMapRef(n) ==> (top matches Some(m) ==> (Material::step(
            top,
            c,
        ) matches Step::Continue(Some(m2)) && m2.color_map_name == n
                && m2.material == m.material
                && m2.index_shade_name == m.index_shade_name
                && m2.index_blend_name == m.index_blend_name
                && m2.screendoor_name == m.screendoor_name)),
        c matches ChunkView::ColorMapRef(_) && top is None ==> Material::step(top, c) == Step::<MaterialView>::Fail(
            Error::EmptyStack,
        ),
        c matches ChunkView::IndexShadeRef(n) ==> (top matches Some(m) ==> (Material::step(
            top,
            c,
        ) matches Step::Continue(Some(m2)) && m2.index_shade_name == n
                && m2.material == m.material
                && m2.color_map_name == m.color_map_name
                && m2.index_blend_name == m.index_blend_name
                && m2.screendoor_name == m.screendoor_name)),
        c matches ChunkView::IndexShadeRef(_) && top is None ==> Material::step(top, c) == Step::<MaterialView>::Fail(
            Error::EmptyStack,
        ),
        c matches ChunkView::IndexBlendRef(n) ==> (top matches Some(m) ==> (Material::step(
            top,
            c,
        ) matches Step::Continue(Some(m2)) && m2.index_blend_name == n
                && m2.material == m.material
                && m2.color_map_name == m.color_map_name
                && m2.index_shade_name == m.index_shade_name
                && m2.screendoor_name == m.screendoor_name)),
        c matches ChunkView::IndexBlendRef(_) && top is None ==> Material::step(top, c) == Step::<MaterialView>::Fail(
            Error::EmptyStack,
        ),
        c matches ChunkView::ScreendoorRef(n) ==> (top matches Some(m) ==> (Material::step(
            top,
            c,
        ) matches Step::Continue(Some(m2)) && m2.screendoor_name == n
                && m2.material == m.material
                && m2.color_map_name == m.color_map_name
                && m2.index_shade_name == m.index_shade_name
                && m2.index_blend_name == m.index_blend_name)),
        c matches ChunkView::ScreendoorRef(_) && top is None ==> Material::step(top, c) == Step::<MaterialView>::Fail(
            Error::EmptyStack,
        ),
        c is End ==> (top matches Some(m) ==> Material::step(top, c) == Step::Finish(m)),
        c is End && top is None ==> Material::step(top, c) == Step::<MaterialView>::Fail(
            Error::EmptyStack,
        ),
        c matches ChunkView::FileInfo(fi) ==> (fi.file_type == file_type::MATERIAL
            ==> Material::step(top, c) == Step::Continue(top)),
        c matches ChunkView::FileInfo(fi) ==> (fi.file_type != file_type::MATERIAL
            ==> Material::step(top, c) == Step::<MaterialView>::Fail(Error::InvalidResourceType)),
        !(c is Material || c is ColorMapRef || c is IndexShadeRef || c is IndexBlendRef
            || c is ScreendoorRef || c is End || c is FileInfo) ==> Material::step(top, c) is Abort,
{
}

/// A material file whose chunks are a FILE_INFO chunk of a material file, a
/// MATERIAL chunk, a COLOUR_MAP_REF chunk, an INDEX_SHADE_REF chunk and the
/// END chunk loads as the material with the MATERIAL chunk's properties, the
/// first reference's name as its colour map and the second's as its shade
/// table, ending past the END chunk.
pub proof fn lemma_material_file(
    s: Seq<u8>,
    i: int,
    fi: FileInfoChunk,
    mc: MaterialChunkView,
    color_map: Seq<char>,
    shade: Seq<char>,
    e1: int,
    e2: int,
    e3: int,
    e4: int,
    e5: int,
)
    requires
        0 <= i,
        Chunk::parse_spec(s, i) == Parse::<ChunkView>::Done(ChunkView::FileInfo(fi), e1),
        fi.file_type == file_type::MATERIAL,
        Chunk::parse_spec(s, e1) == Parse::<ChunkView>::Done(ChunkView::Material(mc), e2),
        Chunk::parse_spec(s, e2) == Parse::<ChunkView>::Done(ChunkView::ColorMapRef(color_map), e3),
        Chunk::parse_spec(s, e3) == Parse::<ChunkView>::Done(ChunkView::IndexShadeRef(shade), e4),
        Chunk::parse_spec(s, e4) == Parse::<ChunkView>::Done(ChunkView::End, e5),
    ensures
        Material::parse_spec(s, i) matches Parse::Done(m, e) && e == e5 && m.material == mc
            && m.color_map_name == color_map && m.index_shade_name == shade
            && m.index_blend_name.len() == 0 && m.screendoor_name.len() == 0,
{
    Chunk::lemma_progress(s, i);
    Chunk::lemma_progress(s, e1);
    Chunk::lemma_progress(s, e2);
    Chunk::lemma_progress(s, e3);
    lemma_load_step::<Material>(s, i, None, ChunkView::FileInfo(fi), e1);
    let t = match Material::step(None, ChunkView::Material(mc)) {
        Step::Continue(t) => t,
        _ => None,
    };
    lemma_load_step::<Material>(s, e1, None, ChunkView::Material(mc), e2);
    let t2 = match Material::step(t, ChunkView::ColorMapRef(color_map)) {
        Step::Continue(t2) => t2,
        _ => None,
    };
    lemma_load_step::<Material>(s, e2, t, ChunkView::ColorMapRef(color_map), e3);
    let t3 = match Material::step(t2, ChunkView::IndexShadeRef(shade)) {
        Step::Continue(t3) => t3,
        _ => None,
    };
    lemma_load_step::<Material>(s, e3, t2, ChunkView::IndexShadeRef(shade), e4);
    lemma_load_step::<Material>(s, e4, t3, ChunkView::End, e5);
}

} // verus!
