use geswm::geometry::{Point, Size, SurfaceGeometry};
use geswm::layout::{Growable, Layout, LayoutContext, LayoutWindow, MasterStackLayout, MasterWindow, Shrinkable};

fn window(focused: bool) -> LayoutWindow {
    LayoutWindow { geometry: SurfaceGeometry::default(), focused }
}

fn geometry(x: i32, y: i32, w: i32, h: i32) -> SurfaceGeometry {
    SurfaceGeometry { position: Point { x, y }, size: Size { w, h } }
}

#[test]
fn new_layout_has_two_masters() {
    let layout = MasterStackLayout::new(60);
    assert_eq!(layout.master_percent, 60);
    assert_eq!(layout.master_count, 2);
}

#[test]
fn vertical_stack_splits_height_and_last_takes_rest() {
    let mut windows = vec![window(false), window(true), window(false)];
    MasterStackLayout::arrange_vertical_stack(&mut windows, 5, 10, 100, 100);
    assert_eq!(windows[0].geometry, geometry(5, 10, 100, 33));
    assert_eq!(windows[1].geometry, geometry(5, 43, 100, 33));
    assert_eq!(windows[2].geometry, geometry(5, 76, 100, 34));
    assert!(windows[1].focused);
    assert!(!windows[0].focused);
}

#[test]
fn vertical_stack_of_nothing_does_nothing() {
    let mut windows: Vec<LayoutWindow> = Vec::new();
    MasterStackLayout::arrange_vertical_stack(&mut windows, 0, 0, 10, 10);
    assert!(windows.is_empty());
}

#[test]
fn vertical_stack_negative_height_rounds_toward_zero() {
    let mut windows = vec![window(false), window(false), window(false)];
    MasterStackLayout::arrange_vertical_stack(&mut windows, 0, 0, 10, -10);
    assert_eq!(windows[0].geometry, geometry(0, 0, 10, -3));
    assert_eq!(windows[1].geometry, geometry(0, -3, 10, -3));
    assert_eq!(windows[2].geometry, geometry(0, -6, 10, -4));
}

#[test]
fn single_window_fills_output() {
    let mut layout = MasterStackLayout::new(60);
    let mut ctx = LayoutContext { output_size: Size { w: 800, h: 600 }, windows: vec![window(true)] };
    layout.arrange(&mut ctx);
    assert_eq!(ctx.windows[0].geometry, geometry(0, 0, 800, 600));
}

#[test]
fn masters_left_and_stack_right() {
    let mut layout = MasterStackLayout::new(60);
    let mut ctx = LayoutContext {
        output_size: Size { w: 1000, h: 600 },
        windows: vec![window(false), window(false), window(true)],
    };
    layout.arrange(&mut ctx);
    assert_eq!(ctx.windows[0].geometry, geometry(0, 0, 600, 300));
    assert_eq!(ctx.windows[1].geometry, geometry(0, 300, 600, 300));
    assert_eq!(ctx.windows[2].geometry, geometry(600, 0, 400, 600));
    assert!(ctx.windows[2].focused);
}

#[test]
fn zero_masters_stack_everything() {
    let mut layout = MasterStackLayout { master_percent: 60, master_count: 0 };
    let mut ctx = LayoutContext { output_size: Size { w: 300, h: 90 }, windows: vec![window(false), window(false)] };
    layout.arrange(&mut ctx);
    assert_eq!(ctx.windows[0].geometry, geometry(0, 0, 300, 45));
    assert_eq!(ctx.windows[1].geometry, geometry(0, 45, 300, 45));
}

#[test]
fn no_windows_arranges_nothing() {
    let mut layout = MasterStackLayout::new(60);
    let mut ctx = LayoutContext { output_size: Size { w: 300, h: 90 }, windows: Vec::new() };
    layout.arrange(&mut ctx);
    assert!(ctx.windows.is_empty());
}

#[test]
fn grow_and_shrink_bounds() {
    let mut layout = MasterStackLayout::new(88);
    layout.grow();
    assert_eq!(layout.master_percent, 90);
    layout.grow();
    assert_eq!(layout.master_percent, 90);
    let mut small = MasterStackLayout::new(12);
    small.shrink();
    assert_eq!(small.master_percent, 10);
    small.shrink();
    assert_eq!(small.master_percent, 10);
}

#[test]
fn shrink_undoes_grow() {
    let mut layout = MasterStackLayout::new(50);
    layout.grow();
    assert_eq!(layout.master_percent, 55);
    layout.shrink();
    assert_eq!(layout.master_percent, 50);
}

#[test]
fn master_count_up_and_down() {
    let mut layout = MasterStackLayout::new(50);
    layout.increase_master_count();
    assert_eq!(layout.master_count, 3);
    layout.decrease_master_count();
    assert_eq!(layout.master_count, 2);
    layout.decrease_master_count();
    layout.decrease_master_count();
    layout.decrease_master_count();
    assert_eq!(layout.master_count, 0);
}

#[test]
fn column_tiles_its_box() {
    let mut windows = vec![window(false); 7];
    MasterStackLayout::arrange_vertical_stack(&mut windows, 0, 20, 50, 101);
    assert_eq!(windows[0].geometry.position.y, 20);
    for i in 0..6 {
        let g = windows[i].geometry;
        assert_eq!(g.position.y + g.size.h, windows[i + 1].geometry.position.y);
    }
    let last = windows[6].geometry;
    assert_eq!(last.position.y + last.size.h, 121);
}

#[test]
fn layout_stays_within_output() {
    let mut layout = MasterStackLayout::new(37);
    let mut ctx = LayoutContext { output_size: Size { w: 1001, h: 777 }, windows: vec![window(false); 5] };
    layout.arrange(&mut ctx);
    for w in &ctx.windows {
        let g = w.geometry;
        assert!(g.position.x >= 0 && g.position.y >= 0);
        assert!(g.position.x + g.size.w <= 1001);
        assert!(g.position.y + g.size.h <= 777);
    }
}
