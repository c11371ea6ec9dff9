use vstd::prelude::*;

verus! {

/// An RGBA color, one byte per channel.
#[derive(Clone, Copy, Debug, PartialEq, Eq, Structural)]
pub struct Rgba {
    pub r: u8,
    pub g: u8,
    pub b: u8,
    pub a: u8,
}

/// One vertex of a polygon: a position in pixel space, a color, and a texture
/// coordinate given in texels of the bound texture (divide by the texture's
/// width and height for the normalized coordinate).
#[derive(Clone, Copy, Debug, PartialEq, Eq, Structural)]
pub struct Vertex {
    pub x: i32,
    pub y: i32,
    pub color: Rgba,
    pub u: u32,
    pub v: u32,
}

/// The corners of one rendered glyph: where it lands on screen and where its
/// pixels sit in the atlas.
#[derive(Clone, Copy, Debug, PartialEq, Eq, Structural)]
pub struct GlyphQuad {
    pub min_x: i32,
    pub min_y: i32,
    pub max_x: i32,
    pub max_y: i32,
    pub tex_min_u: u32,
    pub tex_min_v: u32,
    pub tex_max_u: u32,
    pub tex_max_v: u32,
}

/// The mathematical content of a textured polygon.
pub struct PolygonModel {
    pub vertices: Seq<Vertex>,
    pub indices: Seq<u32>,
    pub texture: Option<u64>,
}

/// A vertex list, a triangle index list (empty: the vertices in order), and
/// the handle of the backend texture it samples, if any.
#[derive(Debug)]
pub struct TexturedPolygon {
    pub vertices: Vec<Vertex>,
    pub indices: Vec<u32>,
    pub texture: Option<u64>,
}

/// Every index names a vertex, and a polygon with vertices has at least three.
pub open spec fn polygon_wf(p: PolygonModel) -> bool {
    &&& forall|i: int| 0 <= i < p.indices.len() ==> (p.indices[i] as int) < p.vertices.len()
    &&& (p.vertices.len() > 0 ==> p.vertices.len() >= 3)
}

pub open spec fn quad_indices() -> Seq<u32> {
    seq![0u32, 1, 2, 2, 3, 0]
}

pub open spec fn quad_vertex(x: i32, y: i32, u: u32, v: u32) -> Vertex {
    Vertex { x, y, color: Rgba { r: 255, g: 255, b: 255, a: 255 }, u, v }
}

/// The four corners of a glyph, counter-clockwise from the top left.
pub open spec fn quad_vertices(q: GlyphQuad) -> Seq<Vertex> {
    seq![
        quad_vertex(q.min_x, q.min_y, q.tex_min_u, q.tex_min_v),
        quad_vertex(q.min_x, q.max_y, q.tex_min_u, q.tex_max_v),
        quad_vertex(q.max_x, q.max_y, q.tex_max_u, q.tex_max_v),
        quad_vertex(q.max_x, q.min_y, q.tex_max_u, q.tex_min_v),
    ]
}

pub open spec fn quad_model(q: GlyphQuad) -> PolygonModel {
    PolygonModel { vertices: quad_vertices(q), indices: quad_indices(), texture: None }
}

impl View for TexturedPolygon {
    type V = PolygonModel;

    open spec fn view(&self) -> PolygonModel {
        PolygonModel { vertices: self.vertices@, indices: self.indices@, texture: self.texture }
    }
}

impl TexturedPolygon {
    pub open spec fn wf(&self) -> bool {
        polygon_wf(self@)
    }

    /// A polygon with no vertices and no indices.
    pub fn empty(texture: Option<u64>) -> (r: TexturedPolygon)
        ensures
            r@.vertices.len() == 0,
            r@.indices.len() == 0,
            r@.texture == texture,
            r.wf(),
    {
        TexturedPolygon { vertices: Vec::new(), indices: Vec::new(), texture }
    }

    /// A polygon from its parts, refused where an index names no vertex or
    /// where fewer than three vertices are given.
    pub fn new(vertices: Vec<Vertex>, indices: Vec<u32>, texture: Option<u64>) -> (r: Option<
        TexturedPolygon,
    >)
        ensures
            r.is_some() <==> polygon_wf(
                PolygonModel { vertices: vertices@, indices: indices@, texture },
            ),
            r.is_some() ==> r.unwrap()@ == (PolygonModel {
                vertices: vertices@,
                indices: indices@,
                texture,
            }),
    {
        let n = vertices.len();
        if n > 0 && n < 3 {
            return None;
        }
        let mut i: usize = 0;
        while i < indices.len()
            invariant
                0 <= i <= indices@.len(),
                n == vertices@.len(),
                forall|j: int| 0 <= j < i ==> (indices@[j] as int) < n,
            decreases indices@.len() - i,
        {
            if indices[i] as usize >= n {
                let ghost m = PolygonModel { vertices: vertices@, indices: indices@, texture };
                assert(!((m.indices[i as int] as int) < m.vertices.len()));
                return None;
            }
            i = i + 1;
        }
        Some(TexturedPolygon { vertices, indices, texture })
    }

    /// The textured quad of one glyph: four white vertices, two triangles.
    pub fn from_glyph(q: GlyphQuad) -> (r: TexturedPolygon)
        ensures
            r@ == quad_model(q),
            r.wf(),
    {
        let white = Rgba { r: 255, g: 255, b: 255, a: 255 };
        let v1 = Vertex { x: q.min_x, y: q.min_y, color: white, u: q.tex_min_u, v: q.tex_min_v };
        let v2 = Vertex { x: q.min_x, y: q.max_y, color: white, u: q.tex_min_u, v: q.tex_max_v };
        let v3 = Vertex { x: q.max_x, y: q.max_y, color: white, u: q.tex_max_u, v: q.tex_max_v };
        let v4 = Vertex { x: q.max_x, y: q.min_y, color: white, u: q.tex_max_u, v: q.tex_min_v };
        let r = TexturedPolygon {
            vertices: vec![v1, v2, v3, v4],
            indices: vec![0, 1, 2, 2, 3, 0],
            texture: None,
        };
        assert(r@.vertices =~= quad_vertices(q));
        assert(r@.indices =~= quad_indices());
        r
    }

    /// A copy of this polygon with the same vertices, indices and texture.
    pub fn duplicate(&self) -> (r: TexturedPolygon)
        ensures
            r@ == self@,
    {
        let mut vertices: Vec<Vertex> = Vec::new();
        let mut i: usize = 0;
        while i < self.vertices.len()
            invariant
                0 <= i <= self.vertices@.len(),
                vertices@ =~= self.vertices@.take(i as int),
            decreases self.vertices@.len() - i,
        {
            vertices.push(self.vertices[i]);
            i = i + 1;
            assert(vertices@ =~= self.vertices@.take(i as int));
        }
        let mut indices: Vec<u32> = Vec::new();
        let mut j: usize = 0;
        while j < self.indices.len()
            invariant
                0 <= j <= self.indices@.len(),
                indices@ =~= self.indices@.take(j as int),
            decreases self.indices@.len() - j,
        {
            indices.push(self.indices[j]);
            j = j + 1;
            assert(indices@ =~= self.indices@.take(j as int));
        }
        assert(vertices@ =~= self.vertices@);
        assert(indices@ =~= self.indices@);
        TexturedPolygon { vertices, indices, texture: self.texture }
    }
}


/// What a drawable body was elaborated from (diagnostic only).
#[derive(Clone, Copy, Debug, PartialEq, Eq, Structural)]
pub enum BodyKind {
    Icon,
    MainMenu,
    Container,
    Button,
    TextField,
    Text,
}

/// The geometry elaborated from one component: an ordered list of polygons,
/// drawn in order.
#[derive(Debug)]
pub struct Body {
    pub kind: BodyKind,
    pub polygons: Vec<TexturedPolygon>,
}

pub open spec fn total_vertices(ps: Seq<PolygonModel>) -> nat
    decreases ps.len(),
{
    if ps.len() == 0 {
        0
    } else {
        total_vertices(ps.drop_last()) + ps.last().vertices.len()
    }
}

pub open spec fn total_indices(ps: Seq<PolygonModel>) -> nat
    decreases ps.len(),
{
    if ps.len() == 0 {
        0
    } else {
        total_indices(ps.drop_last()) + ps.last().indices.len()
    }
}

impl Body {
    pub open spec fn model(&self) -> Seq<PolygonModel> {
        self.polygons@.map_values(|p: TexturedPolygon| p@)
    }

    /// Every polygon of the body is well formed.
    pub open spec fn wf(&self) -> bool {
        forall|i: int| 0 <= i < self.polygons@.len() ==> #[trigger] self.polygons@[i].wf()
    }

    /// A body with no polygons.
    pub fn new(kind: BodyKind) -> (r: Body)
        ensures
            r.kind == kind,
            r.polygons@.len() == 0,
            r.wf(),
    {
        Body { kind, polygons: Vec::new() }
    }

    /// Appends a polygon after those already there.
    pub fn push_polygon(&mut self, p: TexturedPolygon)
        requires
            old(self).wf(),
            p.wf(),
        ensures
            final(self).wf(),
            final(self).kind == old(self).kind,
            final(self).model() == old(self).model().push(p@),
            final(self).polygons@.len() == old(self).polygons@.len() + 1,
            final(self).polygons@.last()@ == p@,
    {
        let ghost pv = p@;
        self.polygons.push(p);
        assert(self.model() =~= old(self).model().push(pv));
    }

    /// Number of polygons.
    pub fn polygon_count(&self) -> (r: usize)
        ensures
            r == self.polygons@.len(),
    {
        self.polygons.len()
    }

    /// Sum of the polygons' vertex counts, or `None` where it exceeds `usize`.
    pub fn vertex_count(&self) -> (r: Option<usize>)
        ensures
            r.is_some() <==> total_vertices(self.model()) <= usize::MAX,
            r.is_some() ==> r.unwrap() == total_vertices(self.model()),
    {
        let mut total: usize = 0;
        let mut i: usize = 0;
        while i < self.polygons.len()
            invariant
                0 <= i <= self.polygons@.len(),
                total == total_vertices(self.model().take(i as int)),
            decreases self.polygons@.len() - i,
        {
            assert(self.model().take(i + 1).drop_last() =~= self.model().take(i as int));
            let n = self.polygons[i].vertices.len();
            if total > usize::MAX - n {
                proof {
                    lemma_total_vertices_grows(self.model(), i as int + 1);
                }
                return None;
            }
            total = total + n;
            i = i + 1;
        }
        assert(self.model().take(i as int) =~= self.model());
        Some(total)
    }

    /// Sum of the polygons' index counts, or `None` where it exceeds `usize`.
    pub fn index_count(&self) -> (r: Option<usize>)
        ensures
            r.is_some() <==> total_indices(self.model()) <= usize::MAX,
            r.is_some() ==> r.unwrap() == total_indices(self.model()),
    {
        let mut total: usize = 0;
        let mut i: usize = 0;
        while i < self.polygons.len()
            invariant
                0 <= i <= self.polygons@.len(),
                total == total_indices(self.model().take(i as int)),
            decreases self.polygons@.len() - i,
        {
            assert(self.model().take(i + 1).drop_last() =~= self.model().take(i as int));
            let n = self.polygons[i].indices.len();
            if total > usize::MAX - n {
                proof {
                    lemma_total_indices_grows(self.model(), i as int + 1);
                }
                return None;
            }
            total = total + n;
            i = i + 1;
        }
        assert(self.model().take(i as int) =~= self.model());
        Some(total)
    }
}

proof fn lemma_total_vertices_grows(ps: Seq<PolygonModel>, k: int)
    requires
        0 <= k <= ps.len(),
    ensures
        total_vertices(ps.take(k)) <= total_vertices(ps),
    decreases ps.len() - k,
{
    if k < ps.len() {
        lemma_total_vertices_grows(ps, k + 1);
        assert(ps.take(k + 1).drop_last() =~= ps.take(k));
    } else {
        assert(ps.take(k) =~= ps);
    }
}

proof fn lemma_total_indices_grows(ps: Seq<PolygonModel>, k: int)
    requires
        0 <= k <= ps.len(),
    ensures
        total_indices(ps.take(k)) <= total_indices(ps),
    decreases ps.len() - k,
{
    if k < ps.len() {
        lemma_total_indices_grows(ps, k + 1);
        assert(ps.take(k + 1).drop_last() =~= ps.take(k));
    } else {
        assert(ps.take(k) =~= ps);
    }
}

} // verus!
