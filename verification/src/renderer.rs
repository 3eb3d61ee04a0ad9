//! The driver that fills the pixel buffer.
//!
//! A *sampler* computes the colour of one image point: it is given a random
//! source and the point's row and column, and returns the three 8-bit channels
//! (averaged over its samples, gamma-corrected and quantised). The driver decides
//! which point each buffer position shows, hands every call the random source of
//! the thread it runs on, and packs what comes back. Positions are independent
//! of one another, so a frame can be rendered as a whole, in parallel, or range
//! by range.

use crate::frame::{
    bgra, buffer_index, col_of, lemma_point_in_buffer, pixel_at, row_of, to_bgra,
};
use rand::rngs::ThreadRng;
use rayon::iter::{IntoParallelIterator, ParallelIterator};
use vstd::prelude::*;

verus! {

/// `rand::rngs::ThreadRng`: a handle to the random generator that rand keeps
/// for a thread. Nothing is known of its contents.
#[verifier::external_type_specification]
#[verifier::external_body]
pub struct ExThreadRng(ThreadRng);

/// `rand::thread_rng` returns a handle to the generator of the calling thread,
/// which rand seeds from the system when the thread first asks for it. Nothing
/// is claimed of the handle or of the numbers it will give.
pub assume_specification[ rand::thread_rng ]() -> (rng: ThreadRng);

/// The sampler may be called on every point of a `width` by `height` image,
/// whatever random source it is given.
pub open spec fn covers<F: Fn(ThreadRng, usize, usize) -> (u32, u32, u32)>(
    sampler: F,
    width: usize,
    height: usize,
) -> bool {
    forall|rng: ThreadRng, row: usize, col: usize|
        row < height && col < width ==> call_requires(sampler, (rng, row, col))
}

/// `p` is the packed form of a colour that the sampler can return for the image
/// point at `row` and `col`.
pub open spec fn shows<F: Fn(ThreadRng, usize, usize) -> (u32, u32, u32)>(
    sampler: F,
    row: int,
    col: int,
    p: u32,
) -> bool {
    exists|rng: ThreadRng, c: (u32, u32, u32)|
        #[trigger] call_ensures(sampler, (rng, row as usize, col as usize), c) && p == bgra(
            c.0,
            c.1,
            c.2,
        )
}

/// `buf` is a rendering of the buffer positions from `start` up to `end`: entry
/// `k` is the pixel of position `start + k`, sampled at the image point which
/// that position shows.
pub open spec fn is_span<F: Fn(ThreadRng, usize, usize) -> (u32, u32, u32)>(
    sampler: F,
    width: usize,
    height: usize,
    start: usize,
    end: usize,
    buf: Seq<u32>,
) -> bool {
    &&& start <= end <= width * height
    &&& buf.len() == end - start
    &&& forall|k: int|
        0 <= k < buf.len() ==> shows(
            sampler,
            row_of(width, height, (start + k) as usize),
            col_of(width, (start + k) as usize),
            #[trigger] buf[k],
        )
}

/// `buf` is a rendering of the whole image: one pixel for each of the
/// `width * height` positions, top row first.
pub open spec fn is_frame<F: Fn(ThreadRng, usize, usize) -> (u32, u32, u32)>(
    sampler: F,
    width: usize,
    height: usize,
    buf: Seq<u32>,
) -> bool {
    &&& width * height <= usize::MAX
    &&& is_span(sampler, width, height, 0, (width * height) as usize, buf)
}

/// The colour of every image point is fixed: whatever random source the sampler
/// is given, it returns the same channels for the same point.
pub open spec fn fixed_draws<F: Fn(ThreadRng, usize, usize) -> (u32, u32, u32)>(
    sampler: F,
) -> bool {
    forall|r1: ThreadRng, r2: ThreadRng, row: usize, col: usize, c1: (u32, u32, u32), c2: (
        u32,
        u32,
        u32,
    )|
        #[trigger] call_ensures(sampler, (r1, row, col), c1) && #[trigger] call_ensures(
            sampler,
            (r2, row, col),
            c2,
        ) ==> c1 == c2
}

/// Renders the pixel at buffer position `pos`: samples the image point that the
/// position shows, with the random source of the calling thread, and packs the
/// colour.
pub fn render_pixel<F>(sampler: &F, width: usize, height: usize, pos: usize) -> (p: u32) where
    F: Fn(ThreadRng, usize, usize) -> (u32, u32, u32),

    requires
        pos < width * height,
        covers(*sampler, width, height),
    ensures
        shows(*sampler, row_of(width, height, pos), col_of(width, pos), p),
{
    let (row, col) = pixel_at(width, height, pos);
    let rng = rand::thread_rng();
    let c = sampler(rng, row, col);
    assert(call_ensures(
        *sampler,
        (rng, row_of(width, height, pos) as usize, col_of(width, pos) as usize),
        c,
    ));
    to_bgra(c.0, c.1, c.2)
}

/// Renders the buffer positions from `start` up to `end` on the calling thread.
pub fn render_range<F>(
    sampler: &F,
    width: usize,
    height: usize,
    start: usize,
    end: usize,
) -> (buf: Vec<u32>) where F: Fn(ThreadRng, usize, usize) -> (u32, u32, u32)
    requires
        start <= end <= width * height,
        covers(*sampler, width, height),
    ensures
        is_span(*sampler, width, height, start, end, buf@),
{
    let mut buf: Vec<u32> = Vec::new();
    let mut pos: usize = start;
    while pos < end
        invariant
            start <= pos <= end <= width * height,
            covers(*sampler, width, height),
            is_span(*sampler, width, height, start, pos, buf@),
        decreases end - pos,
    {
        let p: u32 = render_pixel(sampler, width, height, pos);
        buf.push(p);
        pos = pos + 1;
    }
    buf
}

/// rayon's `into_par_iter` on the range `0..n`, followed by `map` and by
/// `collect` into a vector: rayon applies the closure to every index of the
/// range, on its worker threads, and collects the results in the order of the
/// indices. The closure is one call of `render_pixel`, so entry `pos` of the
/// result is a pixel that `render_pixel` can return for position `pos`.
#[verifier::external_body]
fn par_pixels<F>(sampler: &F, width: usize, height: usize, n: usize) -> (buf: Vec<u32>) where
    F: Fn(ThreadRng, usize, usize) -> (u32, u32, u32) + Sync,

    requires
        n == width * height,
        covers(*sampler, width, height),
    ensures
        is_span(*sampler, width, height, 0, n, buf@),
{
    (0..n).into_par_iter().map(|pos| render_pixel(sampler, width, height, pos)).collect()
}

/// Renders the whole image in parallel.
///
/// The result has one pixel for each of the `width * height` buffer positions,
/// row-major from the top of the image; each is the packed colour that the
/// sampler returned for the image point which the position shows.
pub fn render<F>(width: usize, height: usize, sampler: F) -> (buf: Vec<u32>) where
    F: Fn(ThreadRng, usize, usize) -> (u32, u32, u32) + Sync,

    requires
        width * height <= usize::MAX,
        covers(sampler, width, height),
    ensures
        is_frame(sampler, width, height, buf@),
{
    let n: usize = width * height;
    par_pixels(&sampler, width, height, n)
}

/// In a rendering of the whole image the pixel of every image point stands at
/// the buffer index of the point: in the row counted from the top that the
/// point's row is from the bottom.
pub proof fn lemma_frame_shows_every_point<F: Fn(ThreadRng, usize, usize) -> (u32, u32, u32)>(
    sampler: F,
    width: usize,
    height: usize,
    buf: Seq<u32>,
    row: usize,
    col: usize,
)
    requires
        is_frame(sampler, width, height, buf),
        row < height,
        col < width,
    ensures
        0 <= buffer_index(width, height, row as int, col as int) < buf.len(),
        shows(
            sampler,
            row as int,
            col as int,
            buf[buffer_index(width, height, row as int, col as int)],
        ),
{
    lemma_point_in_buffer(width, height, row, col);
    let pos: int = buffer_index(width, height, row as int, col as int);
    assert(shows(
        sampler,
        row_of(width, height, (0 + pos) as usize),
        col_of(width, (0 + pos) as usize),
        buf[pos],
    ));
}

/// Two adjacent ranges rendered apart and put end to end are a rendering of the
/// joined range: workers with disjoint contiguous ranges need no coordination.
pub proof fn lemma_spans_join<F: Fn(ThreadRng, usize, usize) -> (u32, u32, u32)>(
    sampler: F,
    width: usize,
    height: usize,
    start: usize,
    mid: usize,
    end: usize,
    a: Seq<u32>,
    b: Seq<u32>,
)
    requires
        is_span(sampler, width, height, start, mid, a),
        is_span(sampler, width, height, mid, end, b),
    ensures
        is_span(sampler, width, height, start, end, a + b),
{
    let joined = a + b;
    assert forall|k: int| 0 <= k < joined.len() implies shows(
        sampler,
        row_of(width, height, (start + k) as usize),
        col_of(width, (start + k) as usize),
        #[trigger] joined[k],
    ) by {
        if k < a.len() {
            assert(joined[k] == a[k]);
        } else {
            assert(joined[k] == b[k - a.len()]);
            assert(start + k == mid + (k - a.len()));
        }
    }
}

/// A rendering is reproducible: where the colour of every image point is fixed,
/// any two renderings of the same range are the same buffer, however the work
/// was divided among threads.
pub proof fn lemma_render_reproducible<F: Fn(ThreadRng, usize, usize) -> (u32, u32, u32)>(
    sampler: F,
    width: usize,
    height: usize,
    start: usize,
    end: usize,
    a: Seq<u32>,
    b: Seq<u32>,
)
    requires
        fixed_draws(sampler),
        is_span(sampler, width, height, start, end, a),
        is_span(sampler, width, height, start, end, b),
    ensures
        a == b,
{
    assert forall|k: int| 0 <= k < a.len() implies a[k] == b[k] by {
        let row: int = row_of(width, height, (start + k) as usize);
        let col: int = col_of(width, (start + k) as usize);
        assert(shows(sampler, row, col, a[k]));
        assert(shows(sampler, row, col, b[k]));
    }
    assert(a =~= b);
}

} // verus!
