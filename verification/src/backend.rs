use vstd::prelude::*;

use crate::geometry::{centered_geometry, centered_geometry_spec, Point, Size, SurfaceGeometry};
use crate::server::state::first_index;
use crate::server::ServerState;
use crate::surface::SurfaceId;

verus! {

/// Whether the backend's event loop goes on, or ends with an exit code.
#[derive(Debug, Clone, Copy, PartialEq, Eq, Structural)]
pub enum BackendPumpStatus {
    Continue,
    Exit(i32),
}

/// The layer of a layer-shell surface, from the bottom up.
#[derive(Debug, Clone, Copy, PartialEq, Eq, Structural)]
pub enum Layer {
    Background,
    Bottom,
    Top,
    Overlay,
}

/// Whether surfaces of `layer` are drawn below the windows.
pub open spec fn below_windows(layer: Layer) -> bool {
    layer == Layer::Background || layer == Layer::Bottom
}

/// The size a layer surface is drawn at when it has not set one: 640 by 480.
pub open spec fn default_layer_size() -> Size {
    Size { w: 640, h: 480 }
}

/// Where a layer surface is drawn: centered on the output, at its own size
/// or else at 640 by 480.
pub open spec fn layer_geometry_spec(output: Size, layer_size: Option<Size>) -> SurfaceGeometry {
    centered_geometry_spec(
        output,
        match layer_size {
            Some(s) => s,
            None => default_layer_size(),
        },
    )
}

pub fn layer_render_geometry(output: Size, layer_size: Option<Size>) -> (g: SurfaceGeometry)
    requires
        ({
            let s = match layer_size {
                Some(s) => s,
                None => default_layer_size(),
            };
            &&& i32::MIN <= output.w - s.w <= i32::MAX
            &&& i32::MIN <= output.h - s.h <= i32::MAX
        }),
    ensures
        g == layer_geometry_spec(output, layer_size),
{
    let size = match layer_size {
        Some(s) => s,
        None => Size { w: 640, h: 480 },
    };
    centered_geometry(output, size)
}

/// Where a toplevel is drawn: at its window's geometry, or as a 1 by 1 box at
/// the origin where no window shows it.
pub fn window_render_geometry(state: &ServerState, surface: SurfaceId) -> (g: SurfaceGeometry)
    ensures
        first_index(state@.windows, surface) >= 0 ==> g == state@.windows[first_index(
            state@.windows,
            surface,
        )].geometry,
        first_index(state@.windows, surface) < 0 ==> g == (SurfaceGeometry {
            position: Point { x: 0, y: 0 },
            size: Size { w: 1, h: 1 },
        }),
{
    match state.geometry_for_surface(surface) {
        Some(g) => g,
        None => SurfaceGeometry { position: Point { x: 0, y: 0 }, size: Size { w: 1, h: 1 } },
    }
}

/// What to draw, by its index among the layer surfaces or the toplevels.
#[derive(Debug, Clone, Copy, PartialEq, Eq, Structural)]
pub enum RenderSource {
    Layer(usize),
    Toplevel(usize),
}

/// The live layer surfaces among the first `n` whose layer is below the
/// windows (where `below`) or above them (otherwise), in order.
pub open spec fn layer_sources(layers: Seq<(bool, Layer)>, below: bool, n: int) -> Seq<RenderSource>
    decreases n,
{
    if n <= 0 {
        Seq::empty()
    } else {
        let rest = layer_sources(layers, below, n - 1);
        if layers[n - 1].0 && below_windows(layers[n - 1].1) == below {
            rest.push(RenderSource::Layer((n - 1) as usize))
        } else {
            rest
        }
    }
}

/// The first `n` toplevels, in order.
pub open spec fn toplevel_sources(n: int) -> Seq<RenderSource> {
    Seq::new(if n > 0 { n as nat } else { 0 }, |i: int| RenderSource::Toplevel(i as usize))
}

/// The order in which a frame is drawn: the live layer surfaces in the
/// background and bottom layers, then every toplevel, then the live layer
/// surfaces in the top and overlay layers.
pub open spec fn render_order_spec(layers: Seq<(bool, Layer)>, toplevels: int) -> Seq<RenderSource> {
    layer_sources(layers, true, layers.len() as int) + toplevel_sources(toplevels) + layer_sources(
        layers,
        false,
        layers.len() as int,
    )
}

fn push_layer_sources(order: &mut Vec<RenderSource>, layers: &Vec<(bool, Layer)>, below: bool)
    ensures
        final(order)@ == old(order)@ + layer_sources(layers@, below, layers@.len() as int),
{
    let n = layers.len();
    let mut i: usize = 0;
    while i < n
        invariant
            n == layers@.len(),
            i <= n,
            order@ == old(order)@ + layer_sources(layers@, below, i as int),
        decreases n - i,
    {
        let (alive, layer) = layers[i];
        let is_below = layer == Layer::Background || layer == Layer::Bottom;
        if alive && is_below == below {
            order.push(RenderSource::Layer(i));
        }
        assert(order@ =~= old(order)@ + layer_sources(layers@, below, i + 1));
        i = i + 1;
    }
}

/// The order in which a frame is drawn, given whether each layer surface is
/// alive and its layer, and how many toplevels there are.
pub fn render_order(layers: &Vec<(bool, Layer)>, toplevels: usize) -> (order: Vec<RenderSource>)
    ensures
        order@ == render_order_spec(layers@, toplevels as int),
{
    let mut order: Vec<RenderSource> = Vec::new();
    push_layer_sources(&mut order, layers, true);
    let ghost below = order@;
    let mut i: usize = 0;
    while i < toplevels
        invariant
            i <= toplevels,
            order@ == below + toplevel_sources(i as int),
        decreases toplevels - i,
    {
        order.push(RenderSource::Toplevel(i));
        assert(order@ =~= below + toplevel_sources(i + 1));
        i = i + 1;
    }
    push_layer_sources(&mut order, layers, false);
    assert(order@ =~= render_order_spec(layers@, toplevels as int));
    order
}

/// Whether the layer of the surface `j` lies below the windows.
pub open spec fn drawn_below(layers: Seq<(bool, Layer)>, j: int) -> bool {
    layers[j].1 == Layer::Background || layers[j].1 == Layer::Bottom
}

/// The layer surfaces among the first `k` that `layer_sources` lists are
/// exactly the live ones on the asked side of the windows.
proof fn lemma_layer_sources(layers: Seq<(bool, Layer)>, below: bool, k: int)
    requires
        0 <= k <= layers.len(),
        layers.len() <= usize::MAX,
    ensures
        forall|i: int|
            0 <= i < layer_sources(layers, below, k).len() ==> {
                let s = #[trigger] layer_sources(layers, below, k)[i];
                &&& s is Layer
                &&& 0 <= s->Layer_0 < k
                &&& layers[s->Layer_0 as int].0
                &&& drawn_below(layers, s->Layer_0 as int) == below
            },
        forall|j: int|
            0 <= j < k && #[trigger] layers[j].0 && drawn_below(layers, j) == below ==> layer_sources(
                layers,
                below,
                k,
            ).contains(RenderSource::Layer(j as usize)),
    decreases k,
{
    if k > 0 {
        lemma_layer_sources(layers, below, k - 1);
        let rest = layer_sources(layers, below, k - 1);
        let now = layer_sources(layers, below, k);
        assert forall|j: int|
            0 <= j < k && #[trigger] layers[j].0 && drawn_below(layers, j) == below implies now.contains(
            RenderSource::Layer(j as usize),
        ) by {
            if j < k - 1 {
                let i = choose|i: int| 0 <= i < rest.len() && rest[i] == RenderSource::Layer(j as usize);
                assert(now[i] == RenderSource::Layer(j as usize));
            } else {
                assert(now[now.len() - 1] == RenderSource::Layer(j as usize));
            }
        }
    }
}

/// A frame draws exactly the live layer surfaces, those of the background
/// and bottom layers before every window and those of the top and overlay
/// layers after every window, and every one of the `toplevels` windows, in
/// order.
pub proof fn lemma_render_order_draws_live_layers(layers: Seq<(bool, Layer)>, toplevels: int)
    requires
        0 <= toplevels <= usize::MAX,
        layers.len() <= usize::MAX,
    ensures
        forall|i: int|
            0 <= i < render_order_spec(layers, toplevels).len() && (#[trigger] render_order_spec(
                layers,
                toplevels,
            )[i]) is Layer ==> {
                let j = render_order_spec(layers, toplevels)[i]->Layer_0 as int;
                0 <= j < layers.len() && layers[j].0
            },
        forall|j: int|
            0 <= j < layers.len() && #[trigger] layers[j].0 ==> render_order_spec(layers, toplevels).contains(
                RenderSource::Layer(j as usize),
            ),
        forall|i1: int, i2: int|
            0 <= i1 < i2 < render_order_spec(layers, toplevels).len() && (#[trigger] render_order_spec(
                layers,
                toplevels,
            )[i1]) is Layer && (#[trigger] render_order_spec(layers, toplevels)[i2]) is Toplevel ==> {
                let j = render_order_spec(layers, toplevels)[i1]->Layer_0 as int;
                layers[j].1 == Layer::Background || layers[j].1 == Layer::Bottom
            },
        forall|i1: int, i2: int|
            0 <= i1 < i2 < render_order_spec(layers, toplevels).len() && (#[trigger] render_order_spec(
                layers,
                toplevels,
            )[i1]) is Toplevel && (#[trigger] render_order_spec(layers, toplevels)[i2]) is Layer ==> {
                let j = render_order_spec(layers, toplevels)[i2]->Layer_0 as int;
                layers[j].1 == Layer::Top || layers[j].1 == Layer::Overlay
            },
        forall|k: int|
            0 <= k < toplevels ==> #[trigger] render_order_spec(layers, toplevels).contains(
                RenderSource::Toplevel(k as usize),
            ),
        forall|i1: int, i2: int|
            0 <= i1 < i2 < render_order_spec(layers, toplevels).len() && (#[trigger] render_order_spec(
                layers,
                toplevels,
            )[i1]) is Toplevel && (#[trigger] render_order_spec(layers, toplevels)[i2]) is Toplevel
                ==> render_order_spec(layers, toplevels)[i1]->Toplevel_0 < render_order_spec(
                layers,
                toplevels,
            )[i2]->Toplevel_0,
{
    let n = layers.len() as int;
    lemma_layer_sources(layers, true, n);
    lemma_layer_sources(layers, false, n);
    let lower = layer_sources(layers, true, n);
    let upper = layer_sources(layers, false, n);
    let tops = toplevel_sources(toplevels);
    let order = render_order_spec(layers, toplevels);
    let a = lower.len() as int;
    let b = a + tops.len();
    assert(order =~= lower + tops + upper);
    assert(forall|i: int| 0 <= i < a ==> order[i] == lower[i]);
    assert(forall|i: int| a <= i < b ==> order[i] == tops[i - a]);
    assert(forall|i: int| b <= i < order.len() ==> order[i] == upper[i - b]);
    assert forall|j: int| 0 <= j < layers.len() && #[trigger] layers[j].0 implies order.contains(
        RenderSource::Layer(j as usize),
    ) by {
        if drawn_below(layers, j) {
            let i = choose|i: int| 0 <= i < lower.len() && lower[i] == RenderSource::Layer(j as usize);
            assert(order[i] == lower[i]);
        } else {
            let i = choose|i: int| 0 <= i < upper.len() && upper[i] == RenderSource::Layer(j as usize);
            assert(order[i + b] == upper[i]);
        }
    }
    assert forall|k: int| 0 <= k < toplevels implies #[trigger] order.contains(RenderSource::Toplevel(k as usize)) by {
        assert(order[k + a] == tops[k]);
    }
    assert forall|i: int| 0 <= i < order.len() && (#[trigger] order[i]) is Toplevel implies a <= i < b
        && order[i]->Toplevel_0 == i - a by {
        if i < a {
            assert(order[i] == lower[i]);
        } else if i >= b {
            assert(order[i] == upper[i - b]);
        } else {
            assert(order[i] == tops[i - a]);
        }
    }
}

} // verus!
