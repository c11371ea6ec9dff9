use rui_lopez::geometry::{BodyKind, GlyphQuad, Rgba};
use rui_lopez::text::{
    AtlasWrite, GlyphLayout, LayoutOutcome, LazyText, TextError, TextStep, MAX_ATLAS_GROWTH,
};
use rui_lopez::texture::Rect;

/// A layout engine that plays back a fixed list of passes.
struct Scripted {
    passes: Vec<(Vec<AtlasWrite>, LayoutOutcome)>,
    queued: Vec<(String, u32)>,
    resizes: Vec<(u32, u32)>,
}

impl Scripted {
    fn new(mut passes: Vec<(Vec<AtlasWrite>, LayoutOutcome)>) -> Self {
        passes.reverse();
        Scripted { passes, queued: vec![], resizes: vec![] }
    }
}

impl GlyphLayout for Scripted {
    fn queue(&mut self, text: &str, scale: u32) {
        self.queued.push((text.to_string(), scale));
    }

    fn process(&mut self) -> (Vec<AtlasWrite>, LayoutOutcome) {
        self.passes.pop().unwrap_or((vec![], LayoutOutcome::Redraw))
    }

    fn resize_atlas(&mut self, width: u32, height: u32) {
        self.resizes.push((width, height));
    }
}

fn quad(x: i32) -> GlyphQuad {
    GlyphQuad {
        min_x: x,
        min_y: 0,
        max_x: x + 10,
        max_y: 20,
        tex_min_u: 0,
        tex_min_v: 0,
        tex_max_u: 10,
        tex_max_v: 20,
    }
}

fn green() -> Rgba {
    Rgba { r: 0, g: 255, b: 0, a: 0 }
}

#[test]
fn atlas_too_small_then_success_retries_once() {
    let mut text = LazyText::new("Hey".to_string(), 300, green());
    let mut engine = Scripted::new(vec![
        (vec![], LayoutOutcome::TooSmall(256, 256)),
        (
            vec![AtlasWrite { rect: Rect { min_x: 0, min_y: 0, max_x: 2, max_y: 1 }, data: vec![7, 8] }],
            LayoutOutcome::Draw(vec![quad(0), quad(10), quad(20)]),
        ),
    ]);
    assert_eq!(text.build_text(&mut engine), Ok(()));
    assert_eq!(text.lazy_tex.tex_dims, (256, 256));
    assert_eq!(text.lazy_tex.raw_data.len(), 256 * 256);
    assert_eq!(&text.lazy_tex.raw_data[0..3], &[7, 8, 0]);
    assert_eq!(engine.resizes, vec![(256, 256)]);
    assert_eq!(engine.queued, vec![("Hey".to_string(), 300)]);
    assert_eq!(text.built.len(), 3);
}

#[test]
fn empty_atlas_grows_before_drawing_quads() {
    let mut text = LazyText::new("Hey".to_string(), 300, green());
    assert_eq!(text.lazy_tex.tex_dims, (0, 0));
    let mut engine = Scripted::new(vec![
        (vec![], LayoutOutcome::TooSmall(512, 512)),
        (vec![], LayoutOutcome::Draw(vec![quad(0), quad(150), quad(300)])),
    ]);
    assert_eq!(text.build_text(&mut engine), Ok(()));
    assert!(!engine.resizes.is_empty());
    let body = text.to_body(Some(9));
    assert_eq!(body.kind, BodyKind::Text);
    let total = body.vertex_count().unwrap();
    assert_eq!(total % 4, 0);
    assert_eq!(total, 12);
    for p in body.polygons.iter() {
        assert_eq!(p.indices, vec![0, 1, 2, 2, 3, 0]);
        assert_eq!(p.vertices.len(), 4);
        assert_eq!(p.texture, Some(9));
    }
}

#[test]
fn redraw_keeps_previous_polygons() {
    let mut text = LazyText::new("Hey".to_string(), 30, green());
    let mut engine = Scripted::new(vec![
        (vec![], LayoutOutcome::Draw(vec![quad(0), quad(10)])),
        (vec![], LayoutOutcome::Redraw),
    ]);
    assert_eq!(text.build_text(&mut engine), Ok(()));
    let first: Vec<(i32, i32)> = text.built.iter().map(|p| (p.vertices[0].x, p.vertices[2].x)).collect();
    assert_eq!(text.build_text(&mut engine), Ok(()));
    let second: Vec<(i32, i32)> = text.built.iter().map(|p| (p.vertices[0].x, p.vertices[2].x)).collect();
    assert_eq!(first, vec![(0, 10), (10, 20)]);
    assert_eq!(first, second);
    assert!(engine.resizes.is_empty());
}

#[test]
fn endless_growth_is_an_error() {
    let mut text = LazyText::new("Hey".to_string(), 30, green());
    let passes = (0..20).map(|_| (vec![], LayoutOutcome::TooSmall(4, 4))).collect();
    let mut engine = Scripted::new(passes);
    assert_eq!(text.build_text(&mut engine), Err(TextError::TooManyGrowths));
    assert_eq!(engine.resizes.len(), MAX_ATLAS_GROWTH as usize);
}

#[test]
fn mismatched_write_is_reported() {
    let mut text = LazyText::new("Hey".to_string(), 30, green());
    text.lazy_tex.resize((4, 4));
    let mut engine = Scripted::new(vec![(
        vec![
            AtlasWrite { rect: Rect { min_x: 0, min_y: 0, max_x: 1, max_y: 1 }, data: vec![1] },
            AtlasWrite { rect: Rect { min_x: 0, min_y: 0, max_x: 2, max_y: 2 }, data: vec![1, 2, 3] },
        ],
        LayoutOutcome::Draw(vec![quad(0)]),
    )]);
    assert_eq!(text.build_text(&mut engine), Err(TextError::SizeMismatch));
    assert_eq!(text.lazy_tex.raw_data, vec![0; 16]);
    assert!(text.built.is_empty());
}

#[test]
fn too_small_step_resizes_and_asks_for_retry() {
    let mut text = LazyText::new("a".to_string(), 12, green());
    assert_eq!(text.apply_outcome(0, LayoutOutcome::TooSmall(3, 2)), Ok(TextStep::Retry(3, 2)));
    assert_eq!(text.lazy_tex.raw_data, vec![0; 6]);
    assert_eq!(
        text.apply_outcome(MAX_ATLAS_GROWTH, LayoutOutcome::TooSmall(8, 8)),
        Err(TextError::TooManyGrowths)
    );
    assert_eq!(text.lazy_tex.tex_dims, (3, 2));
}

#[test]
fn huge_atlas_is_refused() {
    let mut text = LazyText::new("a".to_string(), 12, green());
    assert_eq!(
        text.apply_outcome(0, LayoutOutcome::TooSmall(u32::MAX, u32::MAX)),
        Err(TextError::AtlasTooLarge)
    );
    assert_eq!(text.lazy_tex.tex_dims, (0, 0));
}

#[test]
fn draw_step_builds_one_quad_per_glyph() {
    let mut text = LazyText::new("ab".to_string(), 12, green());
    assert_eq!(text.apply_outcome(0, LayoutOutcome::Draw(vec![quad(5)])), Ok(TextStep::Done));
    let p = &text.built[0];
    let corners: Vec<(i32, i32, u32, u32)> = p.vertices.iter().map(|v| (v.x, v.y, v.u, v.v)).collect();
    assert_eq!(corners, vec![(5, 0, 0, 0), (5, 20, 0, 20), (15, 20, 10, 20), (15, 0, 10, 0)]);
    assert!(p.vertices.iter().all(|v| v.color == Rgba { r: 255, g: 255, b: 255, a: 255 }));
}

#[test]
fn changing_text_drops_built_polygons() {
    let mut text = LazyText::new("ab".to_string(), 12, green());
    assert_eq!(text.apply_outcome(0, LayoutOutcome::Draw(vec![quad(5)])), Ok(TextStep::Done));
    text.set_text("wow".to_string());
    assert!(text.built.is_empty());
    assert_eq!(text.text, "wow");
    assert_eq!(text.apply_outcome(0, LayoutOutcome::Draw(vec![quad(5)])), Ok(TextStep::Done));
    text.set_scale(40);
    assert!(text.built.is_empty());
    assert_eq!(text.scale, 40);
}

#[test]
fn writes_are_applied_in_order() {
    let mut text = LazyText::new("ab".to_string(), 12, green());
    text.lazy_tex.resize((2, 2));
    let writes = vec![
        AtlasWrite { rect: Rect { min_x: 0, min_y: 0, max_x: 2, max_y: 2 }, data: vec![1, 2, 3, 4] },
        AtlasWrite { rect: Rect { min_x: 1, min_y: 1, max_x: 2, max_y: 2 }, data: vec![9] },
    ];
    assert_eq!(text.apply_writes(&writes), Ok(()));
    assert_eq!(text.lazy_tex.raw_data, vec![1, 2, 3, 9]);
}
