use crate::support::brender::resource::{
    file_type, lemma_load_prefix, lemma_load_step, FileInfoChunk, ModelChunkView, lemma_load_progress, lemma_load_shift, load_at, load_chunks,
    views, Advance, Chunk, ChunkLoader, ChunkView, Face, FacesChunk, FromStream, LoadMany,
    ResourceStack, Step, Vec3f, VertexUV,
};
use crate::support::brender::material::{materials_in, Material, MaterialTable};
use crate::support::brender::pixelmap::{
    pixelmaps_in, remap_via_palette, remap_via_palette_fits, remapped, PixelMap, PixelMapTable,
    PixelMapView,
};
use crate::support::brender::stream::{parsed_as, Parse, Stop};
use crate::support::Error;
use vstd::prelude::*;

verus! {

/// A mesh: vertices with their texture coordinates, faces, and the names of
/// the materials that the faces use.
pub struct Model {
    pub identifier: String,
    pub vertices: Vec<Vec3f>,
    pub vertex_uvs: Vec<VertexUV>,
    pub faces: FacesChunk,
    pub material_names: Vec<String>,
    pub face_material_indices: Vec<u16>,
    pub pivot: Vec3f,
}

pub struct ModelView {
    pub identifier: Seq<char>,
    pub vertices: Seq<Vec3f>,
    pub vertex_uvs: Seq<VertexUV>,
    pub faces: Seq<Face>,
    pub material_names: Seq<Seq<char>>,
    pub face_material_indices: Seq<u16>,
    pub pivot: Vec3f,
}

impl View for Model {
    type V = ModelView;

    open spec fn view(&self) -> ModelView {
        ModelView {
            identifier: self.identifier@,
            vertices: views(self.vertices@),
            vertex_uvs: views(self.vertex_uvs@),
            faces: self.faces@,
            material_names: views(self.material_names@),
            face_material_indices: views(self.face_material_indices@),
            pivot: self.pivot,
        }
    }
}

/// A model named `identifier` with nothing else in it yet.
pub open spec fn empty_model(identifier: Seq<char>) -> ModelView {
    ModelView {
        identifier,
        vertices: Seq::empty(),
        vertex_uvs: Seq::empty(),
        faces: Seq::empty(),
        material_names: Seq::empty(),
        face_material_indices: Seq::empty(),
        pivot: Vec3f { x: 0, y: 0, z: 0 },
    }
}

impl Model {
    /// A model named `identifier` with nothing else in it yet.
    pub fn named(identifier: String) -> (m: Model)
        ensures
            m@ == empty_model(identifier@),
    {
        let m = Model {
            identifier,
            vertices: Vec::new(),
            vertex_uvs: Vec::new(),
            faces: FacesChunk { faces: Vec::new() },
            material_names: Vec::new(),
            face_material_indices: Vec::new(),
            pivot: Vec3f { x: 0, y: 0, z: 0 },
        };
        assert(m@.vertices =~= Seq::empty());
        assert(m@.vertex_uvs =~= Seq::empty());
        assert(m@.faces =~= Seq::empty());
        assert(m@.material_names =~= Seq::empty());
        assert(m@.face_material_indices =~= Seq::empty());
        m
    }
}


impl ChunkLoader for Model {
    /// Chunks that make a model: it is started by a MODEL chunk and completed
    /// by the END chunk; the chunks between set its parts.
    open spec fn step(top: Option<ModelView>, c: ChunkView) -> Step<ModelView> {
        match c {
            ChunkView::End => match top {
                Some(m) => Step::Finish(m),
                None => Step::Fail(Error::EmptyStack),
            },
            ChunkView::FileInfo(fi) => if fi.file_type != file_type::MODEL {
                Step::Fail(
                    Error::InvalidFileType { expected: file_type::MODEL, received: fi.file_type },
                )
            } else {
                Step::Continue(top)
            },
            ChunkView::Model(mc) => Step::Continue(Some(empty_model(mc.identifier))),
            ChunkView::Vertices(v) => match top {
                Some(m) => Step::Continue(Some(ModelView { vertices: v, ..m })),
                None => Step::Fail(Error::EmptyStack),
            },
            ChunkView::VertexUV(v) => match top {
                Some(m) => Step::Continue(Some(ModelView { vertex_uvs: v, ..m })),
                None => Step::Fail(Error::EmptyStack),
            },
            ChunkView::Faces(v) => match top {
                Some(m) => Step::Continue(Some(ModelView { faces: v, ..m })),
                None => Step::Fail(Error::EmptyStack),
            },
            ChunkView::MaterialIndex(v) => match top {
                Some(m) => Step::Continue(
                    Some(ModelView { material_names: seq![Seq::empty()] + v, ..m }),
                ),
                None => Step::Fail(Error::EmptyStack),
            },
            ChunkView::FaceMaterial(v) => match top {
                Some(m) => Step::Continue(Some(ModelView { face_material_indices: v, ..m })),
                None => Step::Fail(Error::EmptyStack),
            },
            ChunkView::Pivot(p) => match top {
                Some(m) => Step::Continue(Some(ModelView { pivot: p.pivot, ..m })),
                None => Step::Fail(Error::EmptyStack),
            },
            _ => Step::Abort,
        }
    }

    fn apply_chunk(stack: &mut ResourceStack, c: Chunk) -> (r: Advance<Model>) {
        match c {
            Chunk::End() => match stack.pop::<Model>() {
                Ok(m) => Advance::Finish(m),
                Err(err) => Advance::Fail(err),
            },
            Chunk::FileInfo(fi) => {
                if fi.file_type != file_type::MODEL {
                    Advance::Fail(
                        Error::InvalidFileType {
                            expected: file_type::MODEL,
                            received: fi.file_type,
                        },
                    )
                } else {
                    Advance::Continue
                }
            },
            Chunk::Model(mc) => {
                stack.push(Box::new(Model::named(mc.identifier)));
                Advance::Continue
            },
            Chunk::Vertices(v) => match stack.top::<Model>() {
                Ok(m) => {
                    m.vertices = v.vertices;
                    Advance::Continue
                },
                Err(err) => Advance::Fail(err),
            },
            Chunk::VertexUV(v) => match stack.top::<Model>() {
                Ok(m) => {
                    m.vertex_uvs = v.uvs;
                    Advance::Continue
                },
                Err(err) => Advance::Fail(err),
            },
            Chunk::Faces(v) => match stack.top::<Model>() {
                Ok(m) => {
                    m.faces = v;
                    Advance::Continue
                },
                Err(err) => Advance::Fail(err),
            },
            Chunk::MaterialIndex(v) => {
                let ghost materials_view = v@;
                let mut materials = v.materials;
                let mut names: Vec<String> = Vec::new();
                names.push(String::new());
                names.append(&mut materials);
                proof {
                    assert(views(names@) =~= seq![Seq::<char>::empty()] + materials_view);
                }
                match stack.top::<Model>() {
                    Ok(m) => {
                        m.material_names = names;
                        Advance::Continue
                    },
                    Err(err) => Advance::Fail(err),
                }
            },
            Chunk::FaceMaterial(v) => match stack.top::<Model>() {
                Ok(m) => {
                    m.face_material_indices = v.face_material_indices;
                    Advance::Continue
                },
                Err(err) => Advance::Fail(err),
            },
            Chunk::Pivot(p) => match stack.top::<Model>() {
                Ok(m) => {
                    m.pivot = p.pivot;
                    Advance::Continue
                },
                Err(err) => Advance::Fail(err),
            },
            _ => Advance::Abort,
        }
    }
}

impl FromStream for Model {
    type Output = Box<Model>;

    /// Read chunks until last chunk is encountered.
    /// Certain chunks initialize certain properties.
    open spec fn parse_spec(s: Seq<u8>, i: int) -> Parse<ModelView> {
        load_at::<Model>(s, i, None)
    }

    proof fn lemma_progress(s: Seq<u8>, i: int) {
        lemma_load_progress::<Model>(s, i, None);
    }

    proof fn lemma_prefix(s: Seq<u8>, t: Seq<u8>, i: int) {
        lemma_load_prefix::<Model>(s, t, i, None);
    }

    proof fn lemma_shift(p: Seq<u8>, s: Seq<u8>, i: int) {
        lemma_load_shift::<Model>(p, s, i, None);
    }

    fn parse_at(data: &Vec<u8>, pos: usize) -> (r: Result<(Box<Model>, usize), Stop>) {
        let r = load_chunks::<Model>(data, pos);
        assert(parsed_as(r, Self::parse_spec(data@, pos as int)));
        r
    }
}

/// A single file may hold several of them, one after another.
impl LoadMany for Model {
}


/// The condition of `material_texture`: when the material is there, its
/// colour map can be remapped through its shade table.
pub open spec fn material_texture_fits(
    mat_name: Seq<char>,
    mats: Map<Seq<char>, Material>,
    imgs: Map<Seq<char>, PixelMap>,
) -> bool {
    mats.contains_key(mat_name) ==> remap_via_palette_fits(
        mats[mat_name].color_map_name@,
        mats[mat_name].index_shade_name@,
        imgs,
    )
}

/// Whether `material_texture` can read everything it needs (its condition).
pub fn material_texture_fits_in(
    mat_name: &str,
    mats: &MaterialTable,
    imgs: &PixelMapTable,
) -> (b: bool)
    ensures
        b == material_texture_fits(mat_name@, materials_in(*mats), pixelmaps_in(*imgs)),
{
    match mats.lookup(mat_name) {
        Some(material) => crate::support::brender::pixelmap::remap_via_palette_fits_in(
            &material.color_map_name,
            &material.index_shade_name,
            imgs,
        ),
        None => true,
    }
}

/// The RGBA texture of the material named `mat_name`: its colour map
/// remapped through its shade table. This is what a model's mesh for that
/// material is drawn with.
pub fn material_texture(mat_name: &str, mats: &MaterialTable, imgs: &PixelMapTable) -> (r: Result<
    PixelMap,
    Error,
>)
    requires
        material_texture_fits(mat_name@, materials_in(*mats), pixelmaps_in(*imgs)),
    ensures
        !materials_in(*mats).contains_key(mat_name@) ==> (r matches Err(
            Error::MissingMaterial { mat_name: name },
        ) && name@ == mat_name@),
        materials_in(*mats).contains_key(mat_name@) ==> ({
            let m = materials_in(*mats)[mat_name@];
            let t = pixelmaps_in(*imgs);
            &&& !t.contains_key(m.color_map_name@) ==> (r matches Err(
                Error::MissingPixelMap { pm_name },
            ) && pm_name@ == m.color_map_name@)
            &&& t.contains_key(m.color_map_name@) && !t.contains_key(m.index_shade_name@)
                ==> (r matches Err(Error::MissingPixelMap { pm_name }) && pm_name@
                == m.index_shade_name@)
            &&& t.contains_key(m.color_map_name@) && t.contains_key(m.index_shade_name@)
                ==> (r matches Ok(p) && p@ == remapped(
                t[m.color_map_name@]@,
                t[m.index_shade_name@]@,
            ))
        }),
{
    match mats.lookup(mat_name) {
        Some(material) => remap_via_palette(
            &material.color_map_name,
            &material.index_shade_name,
            imgs,
        ),
        None => Err(Error::MissingMaterial { mat_name: mat_name.to_owned() }),
    }
}


/// The texture of the material named `name`, when the material and both of
/// its pixelmaps are there: its colour map remapped through its shade table.
pub open spec fn texture_of(
    name: Seq<char>,
    mats: Map<Seq<char>, Material>,
    imgs: Map<Seq<char>, PixelMap>,
) -> Option<PixelMapView> {
    if mats.contains_key(name) && imgs.contains_key(mats[name].color_map_name@)
        && imgs.contains_key(mats[name].index_shade_name@) {
        Some(remapped(imgs[mats[name].color_map_name@]@, imgs[mats[name].index_shade_name@]@))
    } else {
        None
    }
}

/// `e` is the error that `material_texture` reports for the material named
/// `name`: the material, or else its colour map, or else its shade table is
/// missing.
pub open spec fn texture_error(
    e: Error,
    name: Seq<char>,
    mats: Map<Seq<char>, Material>,
    imgs: Map<Seq<char>, PixelMap>,
) -> bool {
    if !mats.contains_key(name) {
        e matches Error::MissingMaterial { mat_name } && mat_name@ == name
    } else if !imgs.contains_key(mats[name].color_map_name@) {
        e matches Error::MissingPixelMap { pm_name } && pm_name@ == mats[name].color_map_name@
    } else {
        e matches Error::MissingPixelMap { pm_name } && pm_name@ == mats[name].index_shade_name@
    }
}

/// The condition of `Model::material_textures`: every material that the
/// model names can be textured.
pub open spec fn material_textures_fit(
    names: Seq<Seq<char>>,
    mats: Map<Seq<char>, Material>,
    imgs: Map<Seq<char>, PixelMap>,
) -> bool {
    forall|i: int| 0 <= i < names.len() ==> #[trigger] material_texture_fits(names[i], mats, imgs)
}

impl Model {
    /// Whether `material_textures` can read everything it needs (its condition).
    pub fn material_textures_fit_in(&self, mats: &MaterialTable, imgs: &PixelMapTable) -> (b: bool)
        ensures
            b == material_textures_fit(self@.material_names, materials_in(*mats), pixelmaps_in(*imgs)),
    {
        let n = self.material_names.len();
        let mut i: usize = 0;
        while i < n
            invariant
                n == self.material_names.len(),
                i <= n,
                forall|j: int|
                    0 <= j < i ==> #[trigger] material_texture_fits(
                        self@.material_names[j],
                        materials_in(*mats),
                        pixelmaps_in(*imgs),
                    ),
            decreases n - i,
        {
            assert(self@.material_names[i as int] == self.material_names[i as int]@);
            if !material_texture_fits_in(&self.material_names[i], mats, imgs) {
                assert(!material_texture_fits(
                    self@.material_names[i as int],
                    materials_in(*mats),
                    pixelmaps_in(*imgs),
                ));
                return false;
            }
            i = i + 1;
        }
        true
    }

    /// The textures of the materials that the model names, in the order of
    /// the names, or the error of the first material that cannot be textured.
    pub fn material_textures(&self, mats: &MaterialTable, imgs: &PixelMapTable) -> (r: Result<
        Vec<PixelMap>,
        Error,
    >)
        requires
            material_textures_fit(self@.material_names, materials_in(*mats), pixelmaps_in(*imgs)),
        ensures
            r matches Ok(ts) ==> ts.len() == self.material_names.len() && forall|i: int|
                0 <= i < ts.len() ==> texture_of(
                    self@.material_names[i],
                    materials_in(*mats),
                    pixelmaps_in(*imgs),
                ) == Some(#[trigger] ts@[i]@),
            r matches Err(e) ==> exists|k: int|
                0 <= k < self.material_names.len() && (forall|j: int|
                    0 <= j < k ==> #[trigger] texture_of(
                        self@.material_names[j],
                        materials_in(*mats),
                        pixelmaps_in(*imgs),
                    ) is Some) && texture_of(
                    self@.material_names[k],
                    materials_in(*mats),
                    pixelmaps_in(*imgs),
                ) is None && texture_error(
                    e,
                    self@.material_names[k],
                    materials_in(*mats),
                    pixelmaps_in(*imgs),
                ),
            r is Ok <==> forall|i: int|
                0 <= i < self.material_names.len() ==> (#[trigger] texture_of(
                    self@.material_names[i],
                    materials_in(*mats),
                    pixelmaps_in(*imgs),
                )) is Some,
    {
        let ghost m = materials_in(*mats);
        let ghost t = pixelmaps_in(*imgs);
        let n = self.material_names.len();
        let mut out: Vec<PixelMap> = Vec::new();
        let mut i: usize = 0;
        while i < n
            invariant
                n == self.material_names.len(),
                m == materials_in(*mats),
                t == pixelmaps_in(*imgs),
                material_textures_fit(self@.material_names, m, t),
                i <= n,
                out.len() == i,
                forall|j: int|
                    0 <= j < i ==> texture_of(self@.material_names[j], m, t) == Some(
                        #[trigger] out@[j]@,
                    ),
            decreases n - i,
        {
            assert(material_texture_fits(self@.material_names[i as int], m, t));
            assert(self@.material_names[i as int] == self.material_names[i as int]@);
            match material_texture(&self.material_names[i], mats, imgs) {
                Ok(tex) => {
                    out.push(tex);
                },
                Err(e) => {
                    proof {
                        assert forall|j: int| 0 <= j < i implies #[trigger] texture_of(
                            self@.material_names[j],
                            m,
                            t,
                        ) is Some by {
                            assert(texture_of(self@.material_names[j], m, t) == Some(out@[j]@));
                        }
                        assert(texture_of(self@.material_names[i as int], m, t) is None);
                    }
                    return Err(e);
                },
            }
            i = i + 1;
        }
        proof {
            assert forall|j: int| 0 <= j < n implies #[trigger] texture_of(
                self@.material_names[j],
                m,
                t,
            ) is Some by {
                assert(texture_of(self@.material_names[j], m, t) == Some(out@[j]@));
            }
        }
        Ok(out)
    }
}

/// The vertex indices of the faces, three per face in face order.
pub open spec fn face_indices_of(faces: Seq<Face>) -> Seq<u16>
    decreases faces.len(),
{
    if faces.len() == 0 {
        Seq::empty()
    } else {
        face_indices_of(faces.drop_last()) + seq![
            faces.last().v1,
            faces.last().v2,
            faces.last().v3,
        ]
    }
}

impl Model {
    /// The index list of the model's triangles, as a mesh takes it.
    pub fn face_indices(&self) -> (r: Vec<u16>)
        ensures
            r@ == face_indices_of(self@.faces),
    {
        let faces = &self.faces.faces;
        let mut r: Vec<u16> = Vec::new();
        let mut k: usize = 0;
        proof {
            assert(views(faces@).take(0) =~= Seq::<Face>::empty());
        }
        while k < faces.len()
            invariant
                k <= faces@.len(),
                faces == &self.faces.faces,
                r@ == face_indices_of(views(faces@).take(k as int)),
            decreases faces@.len() - k,
        {
            let f = faces[k];
            let ghost before = r@;
            r.push(f.v1);
            r.push(f.v2);
            r.push(f.v3);
            proof {
                let fs = views(faces@);
                assert(fs.take(k + 1).drop_last() =~= fs.take(k as int));
                assert(r@ =~= before + seq![f.v1, f.v2, f.v3]);
            }
            k = k + 1;
        }
        proof {
            assert(views(faces@).take(faces@.len() as int) =~= views(faces@));
        }
        r
    }
}


/// The list of material names of a model is empty or starts with the empty
/// name, which stands for the null material.
pub open spec fn names_start_with_null(m: ModelView) -> bool {
    m.material_names.len() == 0 || m.material_names[0] == Seq::<char>::empty()
}

proof fn lemma_load_keeps_null_material(s: Seq<u8>, i: int, top: Option<ModelView>)
    requires
        top matches Some(m) ==> names_start_with_null(m),
    ensures
        load_at::<Model>(s, i, top) matches Parse::Done(m, _) ==> names_start_with_null(m),
    decreases s.len() - i,
{
    if let Parse::Done(c, e) = Chunk::parse_spec(s, i) {
        if i < e <= s.len() {
            if let Step::Continue(t) = Model::step(top, c) {
                lemma_load_keeps_null_material(s, e, t);
            }
        }
    }
}

/// Every model read from a stream has a material list that is empty or
/// starts with the empty name (the null material that face material index 0
/// refers to).
pub proof fn lemma_model_null_material(s: Seq<u8>, i: int)
    ensures
        Model::parse_spec(s, i) matches Parse::Done(m, _) ==> names_start_with_null(m),
{
    lemma_load_keeps_null_material(s, i, None);
}

/// The index list has three entries per face: the face's three vertex
/// indices, in face order.
pub proof fn lemma_face_indices(faces: Seq<Face>)
    ensures
        face_indices_of(faces).len() == 3 * faces.len(),
        forall|k: int|
            0 <= k < faces.len() ==> face_indices_of(faces)[3 * k] == (#[trigger] faces[k]).v1
                && face_indices_of(faces)[3 * k + 1] == faces[k].v2 && face_indices_of(faces)[3
                * k + 2] == faces[k].v3,
    decreases faces.len(),
{
    if faces.len() > 0 {
        let init = faces.drop_last();
        lemma_face_indices(init);
        assert forall|k: int| 0 <= k < faces.len() implies face_indices_of(faces)[3 * k]
            == (#[trigger] faces[k]).v1 && face_indices_of(faces)[3 * k + 1] == faces[k].v2
            && face_indices_of(faces)[3 * k + 2] == faces[k].v3 by {
            if k < faces.len() - 1 {
                assert(init[k] == faces[k]);
            }
        }
    }
}

/// What each chunk does to the model on top of the loading stack. A MODEL
/// chunk starts a new model with the chunk's name and nothing else. A
/// VERTICES, VERTEX_UV, FACES, FACE_MATERIAL or PIVOT chunk sets that part of
/// the model on top to the chunk's contents, and a MATERIAL_INDEX chunk sets
/// its material names to an empty name (index 0, no material) followed by
/// the chunk's names; every other part stays as it was, and with no model on
/// the stack such a chunk is an error. The END chunk completes the model on
/// top, a FILE_INFO chunk is checked to be of a model file, and any other
/// chunk is not read by the model loader.
pub proof fn lemma_model_chunk_effects(top: Option<ModelView>, c: ChunkView)
    ensures
        c matches ChunkView::Model(mc) ==> (Model::step(top, c) matches Step::Continue(Some(m2))
            && m2.identifier == mc.identifier && m2.vertices.len() == 0 && m2.vertex_uvs.len() == 0
            && m2.faces.len() == 0 && m2.material_names.len() == 0
            && m2.face_material_indices.len() == 0 && m2.pivot == (Vec3f { x: 0, y: 0, z: 0 })),
        c matches ChunkView::Vertices(v) ==> (top matches Some(m) ==> (Model::step(
            top,
            c,
        ) matches Step::Continue(Some(m2)) && m2.vertices == v
                && m2.identifier == m.identifier
                && m2.vertex_uvs == m.vertex_uvs
                && m2.faces == m.faces
                && m2.material_names == m.material_names
                && m2.face_material_indices == m.face_material_indices
                && m2.pivot == m.pivot)),
        c matches ChunkView::Vertices(_) && top is None ==> Model::step(top, c) == Step::<ModelView>::Fail(
            Error::EmptyStack,
        ),
        c matches ChunkView::VertexUV(v) ==> (top matches Some(m) ==> (Model::step(
            top,
            c,
        ) matches Step::Continue(Some(m2)) && m2.vertex_uvs == v
                && m2.identifier == m.identifier
                && m2.vertices == m.vertices
                && m2.faces == m.faces
                && m2.material_names == m.material_names
                && m2.face_material_indices == m.face_material_indices
                && m2.pivot == m.pivot)),
        c matches ChunkView::VertexUV(_) && top is None ==> Model::step(top, c) == Step::<ModelView>::Fail(
            Error::EmptyStack,
        ),
        c matches ChunkView::Faces(v) ==> (top matches Some(m) ==> (Model::step(
            top,
            c,
        ) matches Step::Continue(Some(m2)) && m2.faces == v
                && m2.identifier == m.identifier
                && m2.vertices == m.vertices
                && m2.vertex_uvs == m.vertex_uvs
                && m2.material_names == m.material_names
                && m2.face_material_indices == m.face_material_indices
                && m2.pivot == m.pivot)),
        c matches ChunkView::Faces(_) && top is None ==> Model::step(top, c) == Step::<ModelView>::Fail(
            Error::EmptyStack,
        ),
        c matches ChunkView::FaceMaterial(v) ==> (top matches Some(m) ==> (Model::step(
            top,
            c,
        ) matches Step::Continue(Some(m2)) && m2.face_material_indices == v
                && m2.identifier == m.identifier
                && m2.vertices == m.vertices
                && m2.vertex_uvs == m.vertex_uvs
                && m2.faces == m.faces
                && m2.material_names == m.material_names
                && m2.pivot == m.pivot)),
        c matches ChunkView::FaceMaterial(_) && top is None ==> Model::step(top, c) == Step::<ModelView>::Fail(
            Error::EmptyStack,
        ),
        c matches ChunkView::Pivot(p) ==> (top matches Some(m) ==> (Model::step(
            top,
            c,
        ) matches Step::Continue(Some(m2)) && m2.pivot == p.pivot
                && m2.identifier == m.identifier
                && m2.vertices == m.vertices
                && m2.vertex_uvs == m.vertex_uvs
                && m2.faces == m.faces
                && m2.material_names == m.material_names
                && m2.face_material_indices == m.face_material_indices)),
        c matches ChunkView::Pivot(_) && top is None ==> Model::step(top, c) == Step::<ModelView>::Fail(
            Error::EmptyStack,
        ),
        c matches ChunkView::MaterialIndex(v) ==> (top matches Some(m) ==> (Model::step(
            top,
            c,
        ) matches Step::Continue(Some(m2)) && m2.material_names.len() == v.len() + 1
                && m2.material_names[0] == Seq::<char>::empty()
                && (forall|k: int| 0 <= k < v.len() ==> #[trigger] m2.material_names[k + 1] == v[k])
                && m2.identifier == m.identifier
                && m2.vertices == m.vertices
                && m2.vertex_uvs == m.vertex_uvs
                && m2.faces == m.faces
                && m2.face_material_indices == m.face_material_indices
                && m2.pivot == m.pivot)),
        c matches ChunkView::MaterialIndex(_) && top is None ==> Model::step(top, c) == Step::<ModelView>::Fail(
            Error::EmptyStack,
        ),
        c is End ==> (top matches Some(m) ==> Model::step(top, c) == Step::Finish(m)),
        c is End && top is None ==> Model::step(top, c) == Step::<ModelView>::Fail(Error::EmptyStack),
        c matches ChunkView::FileInfo(fi) ==> (fi.file_type == file_type::MODEL ==> Model::step(
            top,
            c,
        ) == Step::Continue(top)),
        c matches ChunkView::FileInfo(fi) ==> (fi.file_type != file_type::MODEL ==> Model::step(
            top,
            c,
        ) == Step::<ModelView>::Fail(
            Error::InvalidFileType { expected: file_type::MODEL, received: fi.file_type },
        )),
        !(c is Model || c is Vertices || c is VertexUV || c is Faces || c is FaceMaterial
            || c is Pivot || c is MaterialIndex || c is End || c is FileInfo) ==> Model::step(top, c)
            is Abort,
{
}

/// A model file whose chunks are a FILE_INFO chunk of a model file, a MODEL
/// chunk, a VERTICES chunk and the END chunk loads as the model with the
/// MODEL chunk's name and exactly the VERTICES chunk's vertices, and nothing
/// else, ending past the END chunk.
pub proof fn lemma_model_file_vertices(
    s: Seq<u8>,
    i: int,
    fi: FileInfoChunk,
    mc: ModelChunkView,
    vs: Seq<Vec3f>,
    e1: int,
    e2: int,
    e3: int,
    e4: int,
)
    requires
        0 <= i,
        Chunk::parse_spec(s, i) == Parse::<ChunkView>::Done(ChunkView::FileInfo(fi), e1),
        fi.file_type == file_type::MODEL,
        Chunk::parse_spec(s, e1) == Parse::<ChunkView>::Done(ChunkView::Model(mc), e2),
        Chunk::parse_spec(s, e2) == Parse::<ChunkView>::Done(ChunkView::Vertices(vs), e3),
        Chunk::parse_spec(s, e3) == Parse::<ChunkView>::Done(ChunkView::End, e4),
    ensures
        Model::parse_spec(s, i) matches Parse::Done(m, e) && e == e4 && m.identifier
            == mc.identifier && m.vertices == vs && m.vertex_uvs.len() == 0 && m.faces.len() == 0
            && m.material_names.len() == 0 && m.face_material_indices.len() == 0,
{
    Chunk::lemma_progress(s, i);
    Chunk::lemma_progress(s, e1);
    Chunk::lemma_progress(s, e2);
    lemma_model_chunk_effects(None, ChunkView::FileInfo(fi));
    lemma_load_step::<Model>(s, i, None, ChunkView::FileInfo(fi), e1);
    lemma_load_step::<Model>(s, e1, None, ChunkView::Model(mc), e2);
    let t = Some(empty_model(mc.identifier));
    lemma_load_step::<Model>(s, e2, t, ChunkView::Vertices(vs), e3);
    let t2 = Some(ModelView { vertices: vs, ..empty_model(mc.identifier) });
    assert(Model::step(t, ChunkView::Vertices(vs)) == Step::Continue(t2));
    lemma_load_step::<Model>(s, e3, t2, ChunkView::End, e4);
}

} // verus!
