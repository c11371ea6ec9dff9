use vstd::prelude::*;

use crate::geometry::{polygon_wf, quad_model, Body, BodyKind, GlyphQuad, PolygonModel, Rgba, TexturedPolygon};
use crate::texture::{lemma_u32_product_fits, spliced, update_accepted, LazyTexture, Rect};

verus! {

/// How many times one pass may grow the atlas before giving up.
pub const MAX_ATLAS_GROWTH: u32 = 8;

/// Bytes the layout engine rasterized into one rectangle of the atlas.
#[derive(Debug)]
pub struct AtlasWrite {
    pub rect: Rect,
    pub data: Vec<u8>,
}

/// What one layout pass ended with.
#[derive(Debug)]
pub enum LayoutOutcome {
    /// Draw these glyphs, replacing the previous ones.
    Draw(Vec<GlyphQuad>),
    /// Nothing changed: draw the previous glyphs again.
    Redraw,
    /// The atlas must grow to at least this width and height.
    TooSmall(u32, u32),
}

/// What to do after an outcome was taken in.
#[derive(Clone, Copy, Debug, PartialEq, Eq, Structural)]
pub enum TextStep {
    /// The atlas was resized to this size: recreate the backend texture and
    /// the engine's atlas at it, then run the layout again.
    Retry(u32, u32),
    /// The polygons are up to date.
    Done,
}

#[derive(Clone, Copy, Debug, PartialEq, Eq, Structural)]
pub enum TextError {
    /// The atlas was asked to grow more often than a pass allows.
    TooManyGrowths,
    /// The requested atlas has more pixels than a buffer can hold.
    AtlasTooLarge,
    /// A write did not fit its rectangle; nothing of the batch was written.
    SizeMismatch,
}

/// A glyph layout engine: it lays out queued text, rasterizes glyphs into its
/// atlas and reports where they went.
pub trait GlyphLayout {
    /// Queues a run of text at a scale, in pixels, for the next pass.
    fn queue(&mut self, text: &str, scale: u32);

    /// Runs the layout on what was queued; returns, in the order they were
    /// made, the atlas writes of the pass, and how the pass ended.
    fn process(&mut self) -> (Vec<AtlasWrite>, LayoutOutcome);

    /// Gives the engine's atlas, and the backend texture behind it, a new size.
    fn resize_atlas(&mut self, width: u32, height: u32);
}

impl AtlasWrite {
    pub open spec fn model(&self) -> (Rect, Seq<u8>) {
        (self.rect, self.data@)
    }
}

/// Every write of the batch fits a `w` by `h` atlas.
pub open spec fn all_accepted(w: int, h: int, ws: Seq<(Rect, Seq<u8>)>) -> bool {
    forall|i: int| 0 <= i < ws.len() ==> update_accepted(w, h, #[trigger] ws[i].0, ws[i].1.len() as int)
}

/// The buffer after the writes of `ws`, in order.
pub open spec fn splice_all(buf: Seq<u8>, w: int, ws: Seq<(Rect, Seq<u8>)>) -> Seq<u8>
    decreases ws.len(),
{
    if ws.len() == 0 {
        buf
    } else {
        spliced(splice_all(buf, w, ws.drop_last()), w, ws.last().0, ws.last().1)
    }
}

pub open spec fn writes_model(ws: Seq<AtlasWrite>) -> Seq<(Rect, Seq<u8>)> {
    ws.map_values(|a: AtlasWrite| a.model())
}

pub open spec fn polygons_model(ps: Seq<TexturedPolygon>) -> Seq<PolygonModel> {
    ps.map_values(|p: TexturedPolygon| p@)
}

/// A run of text, the glyph polygons last built for it, and the alpha atlas
/// they sample.
#[derive(Debug)]
pub struct LazyText {
    pub text: String,
    pub scale: u32,
    pub color: Rgba,
    pub built: Vec<TexturedPolygon>,
    pub lazy_tex: LazyTexture,
}

impl LazyText {
    pub open spec fn wf(&self) -> bool {
        &&& self.lazy_tex.wf()
        &&& forall|i: int| 0 <= i < self.built@.len() ==> #[trigger] self.built@[i].wf()
    }

    /// A run with nothing built yet and an empty atlas.
    pub fn new(text: String, scale: u32, color: Rgba) -> (r: LazyText)
        ensures
            r.wf(),
            r.text@ == text@,
            r.scale == scale,
            r.color == color,
            r.built@.len() == 0,
            r.lazy_tex.tex_dims == (0u32, 0u32),
    {
        LazyText { text, scale, color, built: Vec::new(), lazy_tex: LazyTexture::new_empty() }
    }

    /// Replaces the text; what was built for the old text is dropped.
    pub fn set_text(&mut self, text: String)
        requires
            old(self).wf(),
        ensures
            final(self).wf(),
            final(self).text@ == text@,
            final(self).built@.len() == 0,
            final(self).scale == old(self).scale,
            final(self).color == old(self).color,
            final(self).lazy_tex == old(self).lazy_tex,
    {
        self.text = text;
        self.built = Vec::new();
    }

    /// Replaces the scale; what was built at the old scale is dropped.
    pub fn set_scale(&mut self, scale: u32)
        requires
            old(self).wf(),
        ensures
            final(self).wf(),
            final(self).scale == scale,
            final(self).built@.len() == 0,
            final(self).text@ == old(self).text@,
            final(self).color == old(self).color,
            final(self).lazy_tex == old(self).lazy_tex,
    {
        self.scale = scale;
        self.built = Vec::new();
    }

    /// Splices a batch of atlas writes into the atlas, in order. Where one of
    /// them does not fit, none is written.
    pub fn apply_writes(&mut self, writes: &Vec<AtlasWrite>) -> (r: Result<(), TextError>)
        requires
            old(self).wf(),
        ensures
            final(self).wf(),
            final(self).text@ == old(self).text@,
            final(self).scale == old(self).scale,
            final(self).color == old(self).color,
            final(self).built@ == old(self).built@,
            final(self).lazy_tex.tex_dims == old(self).lazy_tex.tex_dims,
            r.is_ok() <==> all_accepted(
                old(self).lazy_tex.tex_dims.0 as int,
                old(self).lazy_tex.tex_dims.1 as int,
                writes_model(writes@),
            ),
            r.is_ok() ==> final(self).lazy_tex.raw_data@ == splice_all(
                old(self).lazy_tex.raw_data@,
                old(self).lazy_tex.tex_dims.0 as int,
                writes_model(writes@),
            ),
            r.is_err() ==> r == Err::<(), TextError>(TextError::SizeMismatch)
                && final(self).lazy_tex.raw_data@ == old(self).lazy_tex.raw_data@,
    {
        let w = self.lazy_tex.tex_dims.0;
        let h = self.lazy_tex.tex_dims.1;
        let ghost ws = writes_model(writes@);
        let mut i: usize = 0;
        while i < writes.len()
            invariant
                0 <= i <= writes@.len(),
                ws == writes_model(writes@),
                *self == *old(self),
                self.wf(),
                w == self.lazy_tex.tex_dims.0,
                h == self.lazy_tex.tex_dims.1,
                forall|k: int|
                    0 <= k < i ==> update_accepted(w as int, h as int, #[trigger] ws[k].0, ws[k].1.len() as int),
            decreases writes@.len() - i,
        {
            assert(ws[i as int] == writes@[i as int].model());
            let rect = writes[i].rect;
            let n = writes[i].data.len();
            proof {
                if rect.min_x <= rect.max_x && rect.min_y <= rect.max_y {
                    lemma_u32_product_fits((rect.max_x - rect.min_x) as u32, (rect.max_y - rect.min_y) as u32);
                }
            }
            if !(rect.min_x <= rect.max_x && rect.max_x <= w && rect.min_y <= rect.max_y
                && rect.max_y <= h && n as u64 == (rect.max_x - rect.min_x) as u64 * (rect.max_y
                - rect.min_y) as u64) {
                assert(!update_accepted(w as int, h as int, ws[i as int].0, ws[i as int].1.len() as int));
                return Err(TextError::SizeMismatch);
            }
            assert(update_accepted(w as int, h as int, ws[i as int].0, ws[i as int].1.len() as int));
            i = i + 1;
        }
        let ghost start = self.lazy_tex.raw_data@;
        let mut j: usize = 0;
        while j < writes.len()
            invariant
                0 <= j <= writes@.len(),
                ws == writes_model(writes@),
                all_accepted(w as int, h as int, ws),
                self.wf(),
                self.lazy_tex.tex_dims == (w, h),
                self.text@ == old(self).text@,
                self.scale == old(self).scale,
                self.color == old(self).color,
                self.built@ == old(self).built@,
                self.lazy_tex.raw_data@ == splice_all(start, w as int, ws.take(j as int)),
            decreases writes@.len() - j,
        {
            assert(update_accepted(w as int, h as int, ws[j as int].0, ws[j as int].1.len() as int));
            let _ = self.lazy_tex.lazy_update(writes[j].rect, writes[j].data.as_slice());
            assert(ws.take(j + 1).drop_last() =~= ws.take(j as int));
            j = j + 1;
        }
        assert(ws.take(j as int) =~= ws);
        Ok(())
    }

    /// Takes in how a layout pass ended, the `attempt`-th growth of this pass
    /// being the next one. A request to grow resizes the atlas, dropping its
    /// content, and asks for a retry; new glyphs replace the built polygons
    /// with one quad each; a redraw keeps them.
    pub fn apply_outcome(&mut self, attempt: u32, outcome: LayoutOutcome) -> (r: Result<
        TextStep,
        TextError,
    >)
        requires
            old(self).wf(),
        ensures
            final(self).wf(),
            final(self).text@ == old(self).text@,
            final(self).scale == old(self).scale,
            final(self).color == old(self).color,
            match outcome {
                LayoutOutcome::TooSmall(w, h) => {
                    &&& final(self).built@ == old(self).built@
                    &&& attempt >= MAX_ATLAS_GROWTH ==> r == Err::<TextStep, TextError>(
                        TextError::TooManyGrowths,
                    ) && final(self).lazy_tex == old(self).lazy_tex
                    &&& attempt < MAX_ATLAS_GROWTH && w as int * h as int > isize::MAX ==> r
                        == Err::<TextStep, TextError>(TextError::AtlasTooLarge)
                        && final(self).lazy_tex == old(self).lazy_tex
                    &&& attempt < MAX_ATLAS_GROWTH && w as int * h as int <= isize::MAX ==> {
                        &&& r == Ok::<TextStep, TextError>(TextStep::Retry(w, h))
                        &&& final(self).lazy_tex.tex_dims == (w, h)
                        &&& final(self).lazy_tex.raw_data@ == Seq::new(
                            (w * h) as nat,
                            |i: int| 0u8,
                        )
                    }
                },
                LayoutOutcome::Draw(quads) => {
                    &&& r == Ok::<TextStep, TextError>(TextStep::Done)
                    &&& final(self).lazy_tex == old(self).lazy_tex
                    &&& final(self).built@.len() == quads@.len()
                    &&& forall|i: int|
                        0 <= i < quads@.len() ==> #[trigger] final(self).built@[i]@ == quad_model(
                            quads@[i],
                        )
                },
                LayoutOutcome::Redraw => {
                    &&& r == Ok::<TextStep, TextError>(TextStep::Done)
                    &&& final(self).lazy_tex == old(self).lazy_tex
                    &&& final(self).built@ == old(self).built@
                },
            },
    {
        match outcome {
            LayoutOutcome::TooSmall(w, h) => {
                if attempt >= MAX_ATLAS_GROWTH {
                    return Err(TextError::TooManyGrowths);
                }
                proof {
                    lemma_u32_product_fits(w, h);
                }
                if w as u64 * h as u64 > isize::MAX as u64 {
                    return Err(TextError::AtlasTooLarge);
                }
                self.lazy_tex.resize((w, h));
                Ok(TextStep::Retry(w, h))
            },
            LayoutOutcome::Draw(quads) => {
                let mut built: Vec<TexturedPolygon> = Vec::new();
                let mut i: usize = 0;
                while i < quads.len()
                    invariant
                        0 <= i <= quads@.len(),
                        built@.len() == i,
                        forall|k: int| 0 <= k < i ==> #[trigger] built@[k]@ == quad_model(quads@[k]),
                        forall|k: int| 0 <= k < i ==> #[trigger] built@[k].wf(),
                    decreases quads@.len() - i,
                {
                    built.push(TexturedPolygon::from_glyph(quads[i]));
                    i = i + 1;
                }
                self.built = built;
                Ok(TextStep::Done)
            },
            LayoutOutcome::Redraw => Ok(TextStep::Done),
        }
    }

    /// Queues the text on the engine and runs layout passes until one ends in
    /// glyphs or a redraw, growing the atlas when asked, at most
    /// `MAX_ATLAS_GROWTH` times. Each pass's writes are spliced into the atlas
    /// before its outcome is taken in.
    pub fn build_text<E: GlyphLayout>(&mut self, engine: &mut E) -> (r: Result<(), TextError>)
        requires
            old(self).wf(),
        ensures
            final(self).wf(),
            final(self).text@ == old(self).text@,
            final(self).scale == old(self).scale,
            final(self).color == old(self).color,
    {
        engine.queue(self.text.as_str(), self.scale);
        let mut attempt: u32 = 0;
        loop
            invariant
                self.wf(),
                self.text@ == old(self).text@,
                self.scale == old(self).scale,
                self.color == old(self).color,
                attempt <= MAX_ATLAS_GROWTH,
            decreases MAX_ATLAS_GROWTH - attempt,
        {
            let (writes, outcome) = engine.process();
            match self.apply_writes(&writes) {
                Ok(()) => {},
                Err(e) => {
                    return Err(e);
                },
            }
            match self.apply_outcome(attempt, outcome) {
                Ok(TextStep::Retry(w, h)) => {
                    engine.resize_atlas(w, h);
                    attempt = attempt + 1;
                },
                Ok(TextStep::Done) => {
                    return Ok(());
                },
                Err(e) => {
                    return Err(e);
                },
            }
        }
    }

    /// The built glyph polygons as one body, each sampling `texture`.
    pub fn to_body(&self, texture: Option<u64>) -> (r: Body)
        requires
            self.wf(),
        ensures
            r.wf(),
            r.kind == BodyKind::Text,
            r.polygons@.len() == self.built@.len(),
            forall|i: int|
                0 <= i < self.built@.len() ==> (#[trigger] r.polygons@[i])@ == (PolygonModel {
                    texture,
                    ..self.built@[i]@
                }),
    {
        let mut body = Body::new(BodyKind::Text);
        let mut i: usize = 0;
        while i < self.built.len()
            invariant
                0 <= i <= self.built@.len(),
                self.wf(),
                body.wf(),
                body.kind == BodyKind::Text,
                body.polygons@.len() == i,
                forall|k: int|
                    0 <= k < i ==> (#[trigger] body.polygons@[k])@ == (PolygonModel {
                        texture,
                        ..self.built@[k]@
                    }),
            decreases self.built@.len() - i,
        {
            assert(self.built@[i as int].wf());
            let mut p = self.built[i].duplicate();
            p.texture = texture;
            assert(p@.vertices == self.built@[i as int]@.vertices);
            assert(p@.indices == self.built@[i as int]@.indices);
            assert(polygon_wf(p@));
            let ghost before = body.polygons@;
            body.push_polygon(p);
            proof {
                assert forall|k: int| 0 <= k < i + 1 implies (#[trigger] body.polygons@[k])@ == (
                PolygonModel { texture, ..self.built@[k]@ }) by {
                    if k < i {
                        assert(body.model()[k] == before.map_values(|p: TexturedPolygon| p@)[k]);
                    } else {
                        assert(body.model()[k] == p@);
                    }
                }
            }
            i = i + 1;
        }
        body
    }
}

} // verus!
