use geswm::config::RgbaColor;
use geswm::backend::{layer_render_geometry, render_order, window_render_geometry, Layer, RenderSource};
use geswm::geometry::{centered_geometry, Point, Rectangle, Size, SurfaceGeometry};
use geswm::server::ServerState;
use geswm::surface::transformers::gap::saturating_sub;
use geswm::surface::{
    border_rects, ArrangeContext, SurfaceBorderTransformer, SurfaceGapTransformer, SurfaceTransform,
    SurfaceTransformPipeline, SurfaceTransformer, Window, WindowTransform,
};

fn rect(x: i32, y: i32, w: i32, h: i32) -> Rectangle {
    Rectangle { loc: Point { x, y }, size: Size { w, h } }
}

fn ctx() -> ArrangeContext {
    ArrangeContext { focused: false, fullscreen: false, floating: false, output_rect: rect(0, 0, 100, 100) }
}

fn geometry(x: i32, y: i32, w: i32, h: i32) -> SurfaceGeometry {
    SurfaceGeometry { position: Point { x, y }, size: Size { w, h } }
}

#[test]
fn border_defaults() {
    let border = SurfaceBorderTransformer::default();
    assert_eq!(border.width, 2);
    assert_eq!(Some(border.focused_color), RgbaColor::from_hex("#009999ff"));
    assert_eq!(Some(border.unfocused_color), RgbaColor::from_hex("#999999ff"));
    let custom = SurfaceBorderTransformer::default().width(5).focused_color("#ff0000ff").unfocused_color("#000000ff");
    assert_eq!(custom.width, 5);
    assert_eq!(custom.focused_color, RgbaColor { r: 0xff, g: 0, b: 0, a: 0xff });
    assert_eq!(custom.unfocused_color, RgbaColor { r: 0, g: 0, b: 0, a: 0xff });
}

#[test]
fn border_from_width_and_colors() {
    let focused = RgbaColor::from_hex("#009999ff").unwrap();
    let unfocused = RgbaColor::from_hex("#999999ff").unwrap();
    let border = SurfaceBorderTransformer::new(5, focused, unfocused);
    assert_eq!(border.width, 5);
    assert_eq!(border.focused_color, focused);
    assert_eq!(border.unfocused_color, unfocused);
}

#[test]
fn border_draws_below_in_its_focus_color() {
    let red = RgbaColor { r: 0xff, g: 0, b: 0, a: 0xff };
    let blue = RgbaColor { r: 0, g: 0, b: 0xff, a: 0xff };
    let mut pipeline = SurfaceTransformPipeline::new();
    pipeline.push(SurfaceTransform::Border(SurfaceBorderTransformer::new(2, red, blue)));
    pipeline.push(SurfaceTransform::Gap(SurfaceGapTransformer { gap: 1 }));
    pipeline.push(SurfaceTransform::Border(SurfaceBorderTransformer::new(1, blue, red)));
    let outer = geometry(0, 0, 10, 10);
    let focused_ctx = ArrangeContext { focused: true, ..ctx() };
    let run = pipeline.begin(outer, focused_ctx).arrange();
    let t = run.transform();
    assert_eq!(t.client_rect, rect(4, 4, 2, 2));
    let (pre, below) = run.render_pre();
    let strips = border_rects(t.outer_rect, t.client_rect);
    assert_eq!(below, vec![(red, strips.clone()), (blue, strips)]);
    let (_post, above) = pre.render_post();
    assert!(above.is_empty());
    let unfocused = pipeline.begin(outer, ctx()).arrange();
    let (_pre, below) = unfocused.render_pre();
    assert_eq!(below[0].0, blue);
    assert_eq!(below[1].0, red);
    assert_eq!(SurfaceBorderTransformer::new(2, red, blue).render_pre(t, true), vec![(red, border_rects(t.outer_rect, t.client_rect))]);
    assert!(SurfaceGapTransformer { gap: 1 }.render_pre(t, true).is_empty());
}

#[test]
fn border_shrinks_client() {
    let border = SurfaceBorderTransformer::default().width(5);
    let t = WindowTransform::from_geometry(geometry(10, 20, 100, 50));
    let out = border.arrange(t, &ctx());
    assert_eq!(out.client_rect, rect(15, 25, 90, 40));
    assert_eq!(out.configure_size, Size { w: 90, h: 40 });
    assert_eq!(out.outer_rect, rect(10, 20, 100, 50));
}

#[test]
fn border_keeps_at_least_one_pixel() {
    let border = SurfaceBorderTransformer::default().width(10);
    let out = border.arrange(WindowTransform::from_geometry(geometry(0, 0, 15, 30)), &ctx());
    assert_eq!(out.client_rect, rect(10, 10, 1, 10));
    let negative = SurfaceBorderTransformer::default().width(-4);
    let same = negative.arrange(WindowTransform::from_geometry(geometry(0, 0, 15, 30)), &ctx());
    assert_eq!(same.client_rect, rect(0, 0, 15, 30));
}

#[test]
fn gap_shrinks_and_saturates() {
    let gap = SurfaceGapTransformer { gap: 4 };
    let out = gap.arrange(WindowTransform::from_geometry(geometry(0, 0, 100, 6)), &ctx());
    assert_eq!(out.client_rect, rect(4, 4, 92, -2));
    assert_eq!(saturating_sub(i32::MIN, 1), i32::MIN);
    assert_eq!(saturating_sub(i32::MAX, -1), i32::MAX);
    assert_eq!(saturating_sub(5, 7), -2);
}

#[test]
fn pipeline_applies_in_order() {
    let mut pipeline = SurfaceTransformPipeline::new();
    let outer = geometry(0, 0, 100, 100);
    let unchanged = pipeline.begin(outer, ctx()).arrange();
    assert_eq!(unchanged.transform(), WindowTransform::from_geometry(outer));
    pipeline.push(SurfaceTransform::Gap(SurfaceGapTransformer { gap: 3 }));
    pipeline.push(SurfaceTransform::Border(SurfaceBorderTransformer::default().width(2)));
    let run = pipeline.begin(outer, ctx()).arrange();
    assert_eq!(run.client_rect(), rect(5, 5, 90, 90));
    assert_eq!(run.configure_size(), Size { w: 90, h: 90 });
    let (pre, below) = run.render_pre();
    assert_eq!(pre.client_rect(), rect(5, 5, 90, 90));
    assert_eq!(below.len(), 1);
    assert_eq!(below[0].0, SurfaceBorderTransformer::default().unfocused_color);
    assert_eq!(below[0].1, border_rects(rect(0, 0, 100, 100), rect(5, 5, 90, 90)));
    let (post, above) = pre.render_post();
    assert_eq!(post.transform().outer_rect, rect(0, 0, 100, 100));
    assert!(above.is_empty());
}

#[test]
fn border_rects_around_client() {
    let rects = border_rects(rect(0, 0, 10, 10), rect(2, 2, 6, 6));
    assert_eq!(rects, vec![rect(0, 0, 10, 2), rect(0, 8, 10, 2), rect(0, 2, 2, 6), rect(8, 2, 2, 6)]);
}

#[test]
fn border_rects_leave_out_empty_strips() {
    let rects = border_rects(rect(0, 0, 10, 10), rect(0, 0, 10, 5));
    assert_eq!(rects, vec![rect(0, 5, 10, 5)]);
    assert!(border_rects(rect(0, 0, 10, 10), rect(-5, -5, 30, 30)).is_empty());
}

#[test]
fn border_rects_tile_the_border() {
    let outer = rect(3, 4, 20, 15);
    let client = rect(6, 2, 9, 9);
    let rects = border_rects(outer, client);
    let inside = |r: &Rectangle, x: i32, y: i32| {
        r.loc.x <= x && x < r.loc.x + r.size.w && r.loc.y <= y && y < r.loc.y + r.size.h
    };
    for x in -5..40 {
        for y in -5..40 {
            let covering = rects.iter().filter(|r| inside(r, x, y)).count();
            let expected = if inside(&outer, x, y) && !inside(&client, x, y) { 1 } else { 0 };
            assert_eq!(covering, expected, "point ({x}, {y})");
        }
    }
}

#[test]
fn centering_and_layer_geometry() {
    assert_eq!(centered_geometry(Size { w: 100, h: 80 }, Size { w: 40, h: 100 }), geometry(30, 0, 40, 100));
    assert_eq!(layer_render_geometry(Size { w: 1000, h: 1000 }, None), geometry(180, 260, 640, 480));
    assert_eq!(
        layer_render_geometry(Size { w: 100, h: 100 }, Some(Size { w: 51, h: 10 })),
        geometry(24, 45, 51, 10)
    );
}

#[test]
fn window_render_geometry_defaults_to_unit_box() {
    let mut state = ServerState::new();
    state.add_window(Window::new(1));
    state.set_geometry_for_surface(1, geometry(1, 2, 3, 4));
    assert_eq!(window_render_geometry(&state, 1), geometry(1, 2, 3, 4));
    assert_eq!(window_render_geometry(&state, 2), geometry(0, 0, 1, 1));
}

#[test]
fn frame_draws_layers_around_windows() {
    let layers = vec![
        (true, Layer::Top),
        (true, Layer::Background),
        (false, Layer::Bottom),
        (true, Layer::Overlay),
        (true, Layer::Bottom),
    ];
    let order = render_order(&layers, 2);
    assert_eq!(
        order,
        vec![
            RenderSource::Layer(1),
            RenderSource::Layer(4),
            RenderSource::Toplevel(0),
            RenderSource::Toplevel(1),
            RenderSource::Layer(0),
            RenderSource::Layer(3),
        ]
    );
}

#[test]
fn new_window_is_plain() {
    let w = Window::new(9);
    assert_eq!(w.surface(), 9);
    assert!(w.matches_surface(9));
    assert!(!w.matches_surface(8));
    assert_eq!(w.geometry, SurfaceGeometry::default());
    assert!(!w.fullscreen && !w.floating);
}
