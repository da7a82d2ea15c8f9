//! How the pixels of an image are dealt out to workers and put together
//! again.
//!
//! Pixels are numbered row by row. With `thread_count` workers, worker `t`
//! renders the pixels `t`, `t + thread_count`, `t + 2 * thread_count` and so
//! on, so that neighbouring pixels, which tend to cost alike, go to
//! different workers. Each worker hands back the colours of its pixels in
//! the order it rendered them; the image is rebuilt by undoing the deal.

use crate::vec3::Vec3;
use vstd::prelude::*;

verus! {

/// What one worker hands back: who it is, and the colours of its pixels.
#[derive(Debug, PartialEq, Eq)]
pub struct ThreadReturnData {
    pub thread_id: usize,
    pub color_data: Vec<Vec3>,
}

/// The number of the pixel that worker `thread_id` renders as its `i`-th.
pub open spec fn pixel_of(thread_id: int, thread_count: int, i: int) -> int {
    thread_id + i * thread_count
}

/// The column and the row of the pixel that worker `thread_id` renders as
/// its `i`-th, in an image `width` pixels wide.
pub open spec fn position_of(thread_id: usize, thread_count: usize, i: int, width: usize) -> (
    usize,
    usize,
) {
    let p = pixel_of(thread_id as int, thread_count as int, i);
    ((p % (width as int)) as usize, (p / (width as int)) as usize)
}

/// How many pixels of an image of `pixel_count` pixels fall to worker
/// `thread_id`.
pub open spec fn share(thread_id: int, thread_count: int, pixel_count: int) -> int {
    if thread_id >= pixel_count {
        0
    } else {
        (pixel_count - thread_id + thread_count - 1) / thread_count
    }
}

/// Where in what a worker hands back the colour of pixel `p` stands, if the
/// worker has rendered that pixel.
pub open spec fn place_in(data: ThreadReturnData, thread_count: int, p: int) -> Option<int> {
    let offset = p - data.thread_id;
    if offset >= 0 && offset % thread_count == 0 && offset / thread_count < data.color_data@.len() {
        Some(offset / thread_count)
    } else {
        None
    }
}

/// The colour of pixel `p` after the results of the workers have been put
/// together one after another: that of the last result that holds the
/// pixel, or `blank` where none does.
pub open spec fn assembled(
    results: Seq<ThreadReturnData>,
    thread_count: int,
    blank: Vec3,
    p: int,
) -> Vec3
    decreases results.len(),
{
    if results.len() == 0 {
        blank
    } else {
        match place_in(results.last(), thread_count, p) {
            Some(i) => results.last().color_data@[i],
            None => assembled(results.drop_last(), thread_count, blank, p),
        }
    }
}

/// Whether every colour a worker hands back belongs to a pixel of the
/// image.
pub open spec fn fits(data: ThreadReturnData, thread_count: int, pixel_count: int) -> bool {
    forall|i: int|
        0 <= i < data.color_data@.len() ==> #[trigger] pixel_of(
            data.thread_id as int,
            thread_count,
            i,
        ) < pixel_count
}

/// The column and the row of a pixel in an image `width` pixels wide.
pub fn pixel_position(pixel_index: usize, width: usize) -> (r: (usize, usize))
    requires
        width > 0,
    ensures
        r.0 == pixel_index % width,
        r.1 == pixel_index / width,
        r.0 < width,
        r.1 * width + r.0 == pixel_index,
{
    let x: usize = pixel_index % width;
    let y: usize = pixel_index / width;
    proof {
        assert(y * width + x == pixel_index) by (nonlinear_arith)
            requires
                width > 0,
                x == pixel_index % width,
                y == pixel_index / width,
        ;
    }
    (x, y)
}

/// Renders the pixels of one worker. `sample` gives the colour of the pixel
/// in a column and a row; it is asked once for each pixel of the worker, in
/// rising order of the pixels.
pub fn render_pixels<F: Fn(usize, usize) -> Vec3>(
    thread_id: usize,
    thread_count: usize,
    width: usize,
    height: usize,
    sample: &F,
) -> (r: ThreadReturnData)
    requires
        thread_count > 0,
        width > 0,
        width * height <= usize::MAX,
        forall|x: usize, y: usize| x < width && y < height ==> sample.requires((x, y)),
    ensures
        r.thread_id == thread_id,
        r.color_data@.len() == share(thread_id as int, thread_count as int, width * height),
        fits(r, thread_count as int, width * height),
        forall|i: int|
            0 <= i < r.color_data@.len() ==> sample.ensures(
                position_of(thread_id, thread_count, i, width),
                #[trigger] r.color_data@[i],
            ),
{
    let pixel_count: usize = width * height;
    let mut return_data = ThreadReturnData { thread_id, color_data: Vec::new() };
    let mut pixel_index: usize = thread_id;
    let mut more = true;
    proof {
        assert(pixel_of(thread_id as int, thread_count as int, 0) == thread_id) by (nonlinear_arith);
    }
    while more && pixel_index < pixel_count
        invariant
            thread_count > 0,
            width > 0,
            pixel_count == width * height,
            forall|x: usize, y: usize| x < width && y < height ==> sample.requires((x, y)),
            return_data.thread_id == thread_id,
            more ==> pixel_index == pixel_of(
                thread_id as int,
                thread_count as int,
                return_data.color_data@.len() as int,
            ),
            !more ==> pixel_of(
                thread_id as int,
                thread_count as int,
                return_data.color_data@.len() as int,
            ) >= pixel_count,
            return_data.color_data@.len() > 0 ==> pixel_of(
                thread_id as int,
                thread_count as int,
                return_data.color_data@.len() - 1,
            ) < pixel_count,
            forall|i: int|
                0 <= i < return_data.color_data@.len() ==> sample.ensures(
                    position_of(thread_id, thread_count, i, width),
                    #[trigger] return_data.color_data@[i],
                ),
        decreases pixel_count - pixel_index + if more { 1int } else { 0int },
    {
        let (x, y) = pixel_position(pixel_index, width);
        proof {
            assert(y < height) by (nonlinear_arith)
                requires
                    y * width + x == pixel_index,
                    pixel_index < width * height,
                    width > 0,
            ;
        }
        let color = sample(x, y);
        let ghost before = return_data.color_data@;
        return_data.color_data.push(color);
        proof {
            let n = before.len() as int;
            assert(pixel_of(thread_id as int, thread_count as int, n + 1) == pixel_of(
                thread_id as int,
                thread_count as int,
                n,
            ) + thread_count) by (nonlinear_arith);
            assert forall|i: int| 0 <= i < return_data.color_data@.len() implies sample.ensures(
                position_of(thread_id, thread_count, i, width),
                #[trigger] return_data.color_data@[i],
            ) by {
                if i < n {
                    assert(return_data.color_data@[i] == before[i]);
                }
            }
        }
        if pixel_count - pixel_index <= thread_count {
            more = false;
        } else {
            pixel_index = pixel_index + thread_count;
        }
    }
    proof {
        let n = return_data.color_data@.len() as int;
        lemma_share_counts(thread_id as int, thread_count as int, pixel_count as int, n);
        assert forall|i: int| 0 <= i < n implies #[trigger] pixel_of(
            thread_id as int,
            thread_count as int,
            i,
        ) < pixel_count by {
            assert(pixel_of(thread_id as int, thread_count as int, i) <= pixel_of(
                thread_id as int,
                thread_count as int,
                n - 1,
            )) by (nonlinear_arith)
                requires
                    i <= n - 1,
                    thread_count > 0,
            ;
        }
    }
    return_data
}

/// A worker's share is the number of its pixels: the `n` for which its
/// pixel before the `n`-th lies in the image and its `n`-th does not.
pub proof fn lemma_share_counts(thread_id: int, thread_count: int, pixel_count: int, n: int)
    requires
        thread_id >= 0,
        thread_count > 0,
        n >= 0,
        pixel_of(thread_id, thread_count, n) >= pixel_count,
        n > 0 ==> pixel_of(thread_id, thread_count, n - 1) < pixel_count,
    ensures
        n == share(thread_id, thread_count, pixel_count),
{
    if n == 0 {
        assert(pixel_of(thread_id, thread_count, 0) == thread_id) by (nonlinear_arith);
    } else {
        let rest = pixel_count - thread_id;
        assert(thread_id < pixel_count) by (nonlinear_arith)
            requires
                thread_id + (n - 1) * thread_count < pixel_count,
                n >= 1,
                thread_count > 0,
        ;
        assert((n - 1) * thread_count < rest <= n * thread_count) by (nonlinear_arith)
            requires
                thread_id + n * thread_count >= pixel_count,
                thread_id + (n - 1) * thread_count < pixel_count,
                rest == pixel_count - thread_id,
        ;
        assert((rest + thread_count - 1) / thread_count == n) by (nonlinear_arith)
            requires
                (n - 1) * thread_count < rest <= n * thread_count,
                thread_count > 0,
        ;
    }
}

/// Puts the image together from what the workers hand back: the `i`-th
/// colour of worker `t` becomes pixel `t + i * thread_count`. A pixel no
/// worker has rendered stays `blank`.
pub fn assemble(
    results: &Vec<ThreadReturnData>,
    thread_count: usize,
    pixel_count: usize,
    blank: Vec3,
) -> (pixels: Vec<Vec3>)
    requires
        thread_count > 0,
        forall|k: int|
            0 <= k < results@.len() ==> fits(
                #[trigger] results@[k],
                thread_count as int,
                pixel_count as int,
            ),
    ensures
        pixels@.len() == pixel_count,
        forall|p: int|
            0 <= p < pixel_count ==> #[trigger] pixels@[p] == assembled(
                results@,
                thread_count as int,
                blank,
                p,
            ),
{
    let mut pixels: Vec<Vec3> = Vec::new();
    let mut p: usize = 0;
    while p < pixel_count
        invariant
            p <= pixel_count,
            pixels@.len() == p,
            forall|q: int| 0 <= q < p ==> #[trigger] pixels@[q] == blank,
        decreases pixel_count - p,
    {
        pixels.push(blank);
        p += 1;
    }
    let mut k: usize = 0;
    while k < results.len()
        invariant
            k <= results@.len(),
            thread_count > 0,
            pixels@.len() == pixel_count,
            forall|j: int|
                0 <= j < results@.len() ==> fits(
                    #[trigger] results@[j],
                    thread_count as int,
                    pixel_count as int,
                ),
            forall|q: int|
                0 <= q < pixel_count ==> #[trigger] pixels@[q] == assembled(
                    results@.take(k as int),
                    thread_count as int,
                    blank,
                    q,
                ),
        decreases results@.len() - k,
    {
        let return_data = &results[k];
        let ghost done = results@.take(k as int);
        let mut i: usize = 0;
        while i < return_data.color_data.len()
            invariant
                i <= return_data.color_data@.len(),
                thread_count > 0,
                pixels@.len() == pixel_count,
                fits(*return_data, thread_count as int, pixel_count as int),
                forall|q: int|
                    0 <= q < pixel_count ==> #[trigger] pixels@[q] == match place_in(
                        *return_data,
                        thread_count as int,
                        q,
                    ) {
                        Some(at) => if at < i {
                            return_data.color_data@[at]
                        } else {
                            assembled(done, thread_count as int, blank, q)
                        },
                        None => assembled(done, thread_count as int, blank, q),
                    },
            decreases return_data.color_data@.len() - i,
        {
            proof {
                assert(pixel_of(return_data.thread_id as int, thread_count as int, i as int)
                    < pixel_count);
                assert(i * thread_count >= 0) by (nonlinear_arith)
                    requires
                        i >= 0,
                        thread_count > 0,
                ;
            }
            let target: usize = return_data.thread_id + i * thread_count;
            let ghost then = pixels@;
            pixels[target] = return_data.color_data[i];
            proof {
                lemma_place_of_pixel(*return_data, thread_count as int, i as int);
                assert forall|q: int| 0 <= q < pixel_count implies #[trigger] pixels@[q]
                    == match place_in(*return_data, thread_count as int, q) {
                    Some(at) => if at < i + 1 {
                        return_data.color_data@[at]
                    } else {
                        assembled(done, thread_count as int, blank, q)
                    },
                    None => assembled(done, thread_count as int, blank, q),
                } by {
                    if q != target {
                        assert(pixels@[q] == then[q]);
                        lemma_place_is_unique(*return_data, thread_count as int, q, i as int);
                    }
                }
            }
            i += 1;
        }
        proof {
            assert(results@.take(k + 1).drop_last() =~= done);
            assert(results@.take(k + 1).last() == *return_data);
        }
        k += 1;
    }
    proof {
        assert(results@.take(k as int) =~= results@);
    }
    pixels
}

/// Whether no two of the results come from the same worker, and every
/// worker named is one of the `thread_count` workers.
pub open spec fn from_distinct_workers(results: Seq<ThreadReturnData>, thread_count: int) -> bool {
    &&& forall|j: int| 0 <= j < results.len() ==> (#[trigger] results[j]).thread_id < thread_count
    &&& forall|i: int, j: int|
        0 <= i < j < results.len() ==> (#[trigger] results[i]).thread_id != (
        #[trigger] results[j]).thread_id
}

/// Every pixel is dealt to one worker and comes back to its place: pixel `p`
/// belongs to worker `p % thread_count`, who renders it as its
/// `p / thread_count`-th. Where the results come from distinct workers and
/// that worker's result is among them, complete, the assembled image shows
/// at `p` the colour that worker rendered for it, in whatever order the
/// results came in.
pub proof fn lemma_assembly_restores_raster_order(
    results: Seq<ThreadReturnData>,
    thread_count: int,
    pixel_count: int,
    blank: Vec3,
    p: int,
    k: int,
)
    requires
        thread_count > 0,
        0 <= p < pixel_count,
        from_distinct_workers(results, thread_count),
        0 <= k < results.len(),
        results[k].thread_id == p % thread_count,
        results[k].color_data@.len() == share(
            results[k].thread_id as int,
            thread_count,
            pixel_count,
        ),
    ensures
        p / thread_count < results[k].color_data@.len(),
        pixel_of(results[k].thread_id as int, thread_count, p / thread_count) == p,
        assembled(results, thread_count, blank, p) == results[k].color_data@[p / thread_count],
    decreases results.len(),
{
    let owner = p % thread_count;
    let turn = p / thread_count;
    assert(p == owner + turn * thread_count && 0 <= owner < thread_count && turn >= 0) by (nonlinear_arith)
        requires
            owner == p % thread_count,
            turn == p / thread_count,
            thread_count > 0,
            p >= 0,
    ;
    assert(turn < share(owner, thread_count, pixel_count)) by (nonlinear_arith)
        requires
            p == owner + turn * thread_count,
            p < pixel_count,
            thread_count > 0,
            0 <= owner,
            turn >= 0,
    {
        assert(owner < pixel_count);
        let rest = pixel_count - owner;
        assert(turn * thread_count < rest);
        assert((rest + thread_count - 1) / thread_count > turn);
    }
    let last = results.last();
    let n = results.len() - 1;
    if k == n {
        lemma_place_of_pixel(last, thread_count, turn);
    } else {
        assert(results[k].thread_id != results[n].thread_id);
        let offset = p - last.thread_id;
        if offset >= 0 && offset % thread_count == 0 {
            assert(false) by (nonlinear_arith)
                requires
                    offset == p - last.thread_id,
                    offset >= 0,
                    offset % thread_count == 0,
                    0 <= last.thread_id < thread_count,
                    last.thread_id != p % thread_count,
                    thread_count > 0,
            {
                let q = offset / thread_count;
                assert(offset == q * thread_count);
                assert(p == last.thread_id + q * thread_count);
                assert(p % thread_count == last.thread_id);
            }
        }
        assert(place_in(last, thread_count, p) is None);
        let front = results.drop_last();
        assert(from_distinct_workers(front, thread_count)) by {
            assert forall|j: int| 0 <= j < front.len() implies (#[trigger] front[j]).thread_id
                < thread_count by {
                assert(front[j] == results[j]);
            }
            assert forall|i: int, j: int| 0 <= i < j < front.len() implies (
            #[trigger] front[i]).thread_id != (#[trigger] front[j]).thread_id by {
                assert(front[i] == results[i] && front[j] == results[j]);
            }
        }
        assert(front[k] == results[k]);
        lemma_assembly_restores_raster_order(front, thread_count, pixel_count, blank, p, k);
    }
}

/// The `i`-th colour of a worker stands at place `i` for the worker's
/// `i`-th pixel.
pub proof fn lemma_place_of_pixel(data: ThreadReturnData, thread_count: int, i: int)
    requires
        thread_count > 0,
        0 <= i < data.color_data@.len(),
    ensures
        place_in(data, thread_count, pixel_of(data.thread_id as int, thread_count, i)) == Some(i),
{
    let offset = i * thread_count;
    assert(offset % thread_count == 0 && offset / thread_count == i) by (nonlinear_arith)
        requires
            offset == i * thread_count,
            thread_count > 0,
            i >= 0,
    ;
}

/// A pixel other than the worker's `i`-th does not stand at place `i`.
pub proof fn lemma_place_is_unique(data: ThreadReturnData, thread_count: int, q: int, i: int)
    requires
        thread_count > 0,
        q != pixel_of(data.thread_id as int, thread_count, i),
    ensures
        place_in(data, thread_count, q) != Some(i),
{
    let offset = q - data.thread_id;
    if offset >= 0 && offset % thread_count == 0 && offset / thread_count == i {
        assert(offset == i * thread_count) by (nonlinear_arith)
            requires
                offset % thread_count == 0,
                offset / thread_count == i,
                thread_count > 0,
        ;
    }
}

} // verus!
