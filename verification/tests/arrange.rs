use geswm::geometry::{Point, Size, SurfaceGeometry};
use geswm::layout::MasterStackLayout;
use geswm::server::ServerState;
use geswm::surface::{SurfaceBorderTransformer, SurfaceTransform, SurfaceTransformPipeline, Window};

fn geometry(x: i32, y: i32, w: i32, h: i32) -> SurfaceGeometry {
    SurfaceGeometry { position: Point { x, y }, size: Size { w, h } }
}

#[test]
fn tiled_and_floating_windows_are_placed() {
    let mut state = ServerState::new();
    state.add_window(Window::new(1));
    state.add_window(Window::new(2));
    state.add_window(Window::new(3));
    let mut layout = MasterStackLayout::new(50);
    let mut pipeline = SurfaceTransformPipeline::new();
    pipeline.push(SurfaceTransform::Border(SurfaceBorderTransformer::default().width(2)));
    let output = Size { w: 800, h: 600 };
    let configured = state.arrange_windows(
        &mut layout,
        &pipeline,
        output,
        &vec![false, true, false],
        &vec![None, Some(Size { w: 200, h: 100 }), None],
    );
    // Both tiled windows fit in the master column, which then fills the output.
    assert_eq!(state.windows[0].geometry, geometry(0, 0, 800, 300));
    assert_eq!(state.windows[2].geometry, geometry(0, 300, 800, 300));
    // A floating window keeps its content size with the border around it, centered.
    assert_eq!(state.windows[1].geometry, geometry(298, 248, 204, 104));
    assert_eq!(configured, vec![(1, Size { w: 796, h: 296 }), (3, Size { w: 796, h: 296 })]);
    assert!(!state.layout_dirty);
}

#[test]
fn configure_size_is_at_least_one() {
    let mut state = ServerState::new();
    state.add_window(Window::new(1));
    let mut layout = MasterStackLayout::new(50);
    let pipeline = SurfaceTransformPipeline::new();
    let configured = state.arrange_windows(&mut layout, &pipeline, Size { w: 0, h: 0 }, &vec![false], &vec![None]);
    assert_eq!(configured, vec![(1, Size { w: 1, h: 1 })]);
    assert_eq!(state.windows[0].geometry, geometry(0, 0, 0, 0));
}

#[test]
fn configures_go_where_the_pending_size_changes() {
    let mut state = ServerState::new();
    state.add_window(Window::new(1));
    state.add_window(Window::new(2));
    state.add_window(Window::new(3));
    state.add_window(Window::new(4));
    let mut layout = MasterStackLayout::new(50);
    let mut pipeline = SurfaceTransformPipeline::new();
    pipeline.push(SurfaceTransform::Border(SurfaceBorderTransformer::default().width(2)));
    let size = Size { w: 796, h: 296 };
    let updates = state.arrange_and_configure(
        &mut layout,
        &pipeline,
        Size { w: 800, h: 600 },
        &vec![false, true, false, true],
        &vec![None, None, None, None],
        &vec![Some(size), Some(Size { w: 5, h: 5 }), None, None],
    );
    assert_eq!(updates, vec![(Some(size), false), (None, true), (Some(size), true), (None, false)]);
    assert_eq!(state.windows[0].geometry, geometry(0, 0, 800, 300));
    assert!(!state.layout_dirty);
}

#[test]
fn arrangement_fits_within_the_bounds() {
    let mut state = ServerState::new();
    state.add_window(Window::new(1));
    state.add_window(Window::new(2));
    let layout = MasterStackLayout::new(150);
    let mut pipeline = SurfaceTransformPipeline::new();
    pipeline.push(SurfaceTransform::Border(SurfaceBorderTransformer::default().width(2)));
    let flags = vec![false, true];
    let contents = vec![None, Some(Size { w: 200, h: 100 })];
    assert!(state.arrangement_fits(&layout, &pipeline, Size { w: 800, h: 600 }, &flags, &contents));
    assert!(!state.arrangement_fits(&layout, &pipeline, Size { w: -1, h: 600 }, &flags, &contents));
    assert!(!state.arrangement_fits(&layout, &pipeline, Size { w: 0x1000_0001, h: 600 }, &flags, &contents));
    assert!(!state.arrangement_fits(&MasterStackLayout::new(i32::MAX), &pipeline, Size { w: 800, h: 600 }, &flags, &contents));
    let mut wide = SurfaceTransformPipeline::new();
    wide.push(SurfaceTransform::Border(SurfaceBorderTransformer::default().width(0x0800_0001)));
    assert!(!state.arrangement_fits(&layout, &wide, Size { w: 800, h: 600 }, &flags, &contents));
    let huge = vec![None, Some(Size { w: 0x1000_0001, h: 100 })];
    assert!(!state.arrangement_fits(&layout, &pipeline, Size { w: 800, h: 600 }, &flags, &huge));
    assert!(!state.arrangement_fits(&layout, &pipeline, Size { w: 800, h: 600 }, &vec![false], &contents));
}
