//! The render queue: the positioned draw requests of one frame, built from
//! the live cells and the status label.

use vstd::prelude::*;
use crate::color::Color;
use crate::text::TextBlock;
use crate::world::{count_live, lemma_index_to_coordinates, World, WorldView};

verus! {

/// Name of the colour in which live cells are drawn.
pub const LIVE_CELL: &'static str = "Blue";

/// What a draw request shows.
#[derive(Clone, Debug, PartialEq)]
pub enum Drawable {
    /// The drawable of one cell in the colour of the given name. It is made
    /// once and shared by all requests that name it.
    Shared(&'static str),
    /// A text, drawn for this request alone.
    Text { text: String, fontname: String, fontsize: u32, color: Color },
}

/// One draw request: where and how large, in pixels, in which stacking order,
/// and what to draw.
#[derive(Clone, Debug, PartialEq)]
pub struct RenderData {
    pub x: usize,
    pub y: usize,
    pub z: isize,
    pub w: usize,
    pub h: usize,
    pub tex: Drawable,
}

/// The request that draws the cell in column `x` of row `y` where cells are
/// `size` pixels wide.
pub open spec fn pixel_request(x: int, y: int, size: int) -> RenderData {
    RenderData {
        x: (x * size) as usize,
        y: (y * size) as usize,
        z: 0,
        w: size as usize,
        h: size as usize,
        tex: Drawable::Shared(LIVE_CELL),
    }
}

/// The requests for the live cells among the first `n` cells of the grid, in
/// the order in which the cells are stored.
pub open spec fn pixel_requests(g: WorldView, size: int, n: int) -> Seq<RenderData>
    decreases n,
{
    if n <= 0 {
        Seq::empty()
    } else {
        let before = pixel_requests(g, size, n - 1);
        if g.cells[n - 1] {
            before.push(pixel_request(g.column_of(n - 1), g.row_of(n - 1), size))
        } else {
            before
        }
    }
}

/// The request that draws a label: place, stacking order and size are those
/// of the label, and the drawable is its text in its font, size and colour.
pub open spec fn text_request(t: TextBlock) -> RenderData {
    RenderData {
        x: t.x,
        y: t.y,
        z: t.z,
        w: t.w,
        h: t.h,
        tex: Drawable::Text {
            text: t.text,
            fontname: t.fontname,
            fontsize: t.fontsize,
            color: t.color,
        },
    }
}

/// The queue of one frame: one request for each live cell, then the request
/// for the status label.
pub open spec fn frame_requests(g: WorldView, label: TextBlock, pixel_size: int) -> Seq<
    RenderData,
> {
    pixel_requests(g, pixel_size, g.cells.len() as int).push(text_request(label))
}

/// Among the first `n` cells there is one request for each live cell.
proof fn lemma_pixel_requests_len(g: WorldView, size: int, n: int)
    requires
        0 <= n <= g.cells.len(),
    ensures
        pixel_requests(g, size, n).len() == count_live(g.cells.take(n)),
    decreases n,
{
    if n > 0 {
        lemma_pixel_requests_len(g, size, n - 1);
        assert(g.cells.take(n).drop_last() =~= g.cells.take(n - 1));
    }
}

/// The queue of a frame holds one request for each live cell and one for the
/// label; for a world without a live cell it holds the label alone.
pub proof fn lemma_one_request_per_live_cell(g: WorldView, label: TextBlock, pixel_size: int)
    ensures
        frame_requests(g, label, pixel_size).len() == g.live_count() + 1,
        frame_requests(g, label, pixel_size).last() == text_request(label),
{
    lemma_pixel_requests_len(g, pixel_size, g.cells.len() as int);
    assert(g.cells.take(g.cells.len() as int) =~= g.cells);
}

/// Appends to `rendq` one request for each live cell of `world`, in the order
/// in which the cells are stored, for cells `pixel_size` pixels wide.
pub fn prepare_pixels(world: &World, pixel_size: u32, rendq: &mut Vec<RenderData>)
    requires
        world@.width * pixel_size <= usize::MAX,
        world@.height * pixel_size <= usize::MAX,
    ensures
        final(rendq)@ == old(rendq)@ + pixel_requests(
            world@,
            pixel_size as int,
            world@.cells.len() as int,
        ),
{
    let cells: &Vec<bool> = world.cells();
    let width: usize = world.width() as usize;
    let size: usize = pixel_size as usize;
    let n: usize = cells.len();
    let mut i: usize = 0;
    while i < n
        invariant
            world@.wf(),
            world@.width * pixel_size <= usize::MAX,
            world@.height * pixel_size <= usize::MAX,
            cells@ == world@.cells,
            width == world@.width,
            size == pixel_size,
            n == cells@.len(),
            i <= n,
            rendq@ == old(rendq)@ + pixel_requests(world@, pixel_size as int, i as int),
        decreases n - i,
    {
        if cells[i] {
            proof {
                lemma_index_to_coordinates(world@, i as int);
                let x = world@.column_of(i as int);
                let y = world@.row_of(i as int);
                assert(0 <= x * size <= world@.width * size) by (nonlinear_arith)
                    requires
                        0 <= x < world@.width,
                        0 <= size,
                ;
                assert(0 <= y * size <= world@.height * size) by (nonlinear_arith)
                    requires
                        0 <= y < world@.height,
                        0 <= size,
                ;
            }
            let data = RenderData {
                x: (i % width) * size,
                y: (i / width) * size,
                z: 0,
                w: size,
                h: size,
                tex: Drawable::Shared(LIVE_CELL),
            };
            rendq.push(data);
        }
        i = i + 1;
        proof {
            assert(rendq@ =~= old(rendq)@ + pixel_requests(world@, pixel_size as int, i as int));
        }
    }
}

/// Appends to `rendq` the request for the label `text`, with the place and
/// the size that the label gives.
pub fn prepare_text(text: &TextBlock, rendq: &mut Vec<RenderData>)
    ensures
        final(rendq)@ == old(rendq)@.push(text_request(*text)),
{
    let data = RenderData {
        x: text.x,
        y: text.y,
        z: text.z,
        w: text.w,
        h: text.h,
        tex: Drawable::Text {
            text: text.text.clone(),
            fontname: text.fontname.clone(),
            fontsize: text.fontsize,
            color: text.color,
        },
    };
    rendq.push(data);
}

/// The queue of one frame: the requests for the live cells of `world`, then
/// the request for its status label. The world is only read.
pub fn render_queue(world: &World, pixel_size: u32) -> (rendq: Vec<RenderData>)
    requires
        world@.width * pixel_size <= usize::MAX,
        world@.height * pixel_size <= usize::MAX,
    ensures
        rendq@ == frame_requests(world@, world.label(), pixel_size as int),
{
    let mut rendq: Vec<RenderData> = Vec::new();
    prepare_pixels(world, pixel_size, &mut rendq);
    prepare_text(world.text(), &mut rendq);
    proof {
        assert(rendq@ =~= frame_requests(world@, world.label(), pixel_size as int));
    }
    rendq
}

} // verus!
