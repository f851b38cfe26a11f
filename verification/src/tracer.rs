//! The rules of the two tracers: where a pixel lies in a frame buffer, which
//! solid a pixel shows, and when a traced path ends.
//!
//! A tracer asks every solid of a scene, in scene order, for the distance at
//! which a ray meets it. The answers arrive here as one `Option` per solid:
//! `None` for a miss, else the bit pattern of the distance.

use vstd::prelude::*;
use crate::config::{AREA, FAR, H, NEAR, W};
use crate::scalar::{is_nan, le, lemma_constants, less, less_eq, lt, rank, MAX};

verus! {

/// Samples traced through each pixel of a color frame.
pub const NUM_SAMPLES: u32 = 10;

/// Bounces after which a path is cut off.
pub const MAX_DEPTH: u32 = 10;

/// Place of pixel `(x, y)` in a row-major frame buffer whose row 0 is the
/// top of the image.
pub fn pixel_index(x: usize, y: usize) -> (i: usize)
    requires
        x < W,
        y < H,
    ensures
        i == y * W + x,
        i < AREA,
{
    y * W + x
}

/// Two pixels of a frame share a place in the buffer only if they are the
/// same pixel, and every place of the buffer belongs to a pixel.
pub proof fn lemma_pixel_index_one_to_one(x1: int, y1: int, x2: int, y2: int, i: int)
    requires
        0 <= x1 < W,
        0 <= x2 < W,
        0 <= y1 < H,
        0 <= y2 < H,
        0 <= i < AREA,
    ensures
        y1 * W + x1 == y2 * W + x2 ==> x1 == x2 && y1 == y2,
        0 <= i % (W as int) < W && 0 <= i / (W as int) < H && (i / (W as int)) * W + i % (W as int)
            == i,
{
}

/// Vertical screen coordinate of buffer row `y`: the screen's rows count
/// upwards, the buffer's downwards.
pub fn screen_row(y: usize) -> (v: usize)
    requires
        y < H,
    ensures
        v == H - y,
        0 < v <= H,
{
    H - y
}

/// A distance lies in the depth window when it is neither nearer than `NEAR`
/// nor beyond `FAR`.
pub open spec fn in_depth_window(d: u32) -> bool {
    less_eq(NEAR, d) && less_eq(d, FAR)
}

/// Decides whether a distance is shaded by the linear falloff. Outside the
/// window a hit shows as background.
pub fn depth_window(d: u32) -> (r: bool)
    ensures
        r == in_depth_window(d),
        less(d, NEAR) || less(FAR, d) || is_nan(d) ==> !r,
{
    le(NEAR, d) && le(d, FAR)
}

/// The window is closed: a hit at exactly `NEAR` or exactly `FAR` is shaded
/// by the falloff.
pub proof fn lemma_window_ends()
    ensures
        in_depth_window(NEAR),
        in_depth_window(FAR),
        less(NEAR, FAR),
{
    assert(0x3e4c_cccdu32 & 0x7fff_ffffu32 == 0x3e4c_cccdu32) by (bit_vector);
    assert(0x3e4c_cccdu32 & 0x8000_0000u32 == 0) by (bit_vector);
    assert(0x40f0_0000u32 & 0x7fff_ffffu32 == 0x40f0_0000u32) by (bit_vector);
    assert(0x40f0_0000u32 & 0x8000_0000u32 == 0) by (bit_vector);
}

/// `i` is the last solid of the scene that the ray meets.
pub open spec fn is_last_hit(hits: Seq<Option<u32>>, i: int) -> bool {
    &&& 0 <= i < hits.len()
    &&& hits[i] is Some
    &&& forall|j: int| i < j < hits.len() ==> hits[j] is None
}

/// The solid that a pixel of the depth frame shows: the last one in scene
/// order that the ray meets, whatever the distances. `None` where the ray
/// meets no solid.
pub fn last_hit(hits: &Vec<Option<u32>>) -> (r: Option<usize>)
    ensures
        match r {
            Some(i) => is_last_hit(hits@, i as int),
            None => forall|j: int| 0 <= j < hits.len() ==> hits[j] is None,
        },
{
    let mut i: usize = hits.len();
    while i > 0
        invariant
            i <= hits.len(),
            forall|j: int| i <= j < hits.len() ==> hits[j] is None,
        decreases i,
    {
        i -= 1;
        if hits[i].is_some() {
            return Some(i);
        }
    }
    None
}

/// What a pixel of the depth frame shows.
#[derive(Clone, Copy, Debug, PartialEq, Eq, Structural)]
pub enum DepthShade {
    /// The ray meets no solid: the pixel keeps the value it has.
    Untouched,
    /// The solid at this place of the scene is the last that the ray meets,
    /// at a distance outside the depth window: the pixel shows zero.
    Background(usize),
    /// The solid at this place of the scene is the last that the ray meets,
    /// at a distance inside the depth window: the pixel shows the falloff
    /// of that distance.
    Falloff(usize),
}

/// Decides what a pixel of the depth frame shows: the last solid in scene
/// order that the ray meets, not the nearest, shaded by the falloff where
/// its distance lies in the depth window and as background where not.
pub fn depth_shade(hits: &Vec<Option<u32>>) -> (r: DepthShade)
    ensures
        match r {
            DepthShade::Untouched => forall|j: int| 0 <= j < hits.len() ==> hits[j] is None,
            DepthShade::Background(i) => is_last_hit(hits@, i as int) && !in_depth_window(
                hits[i as int]->Some_0,
            ),
            DepthShade::Falloff(i) => is_last_hit(hits@, i as int) && in_depth_window(
                hits[i as int]->Some_0,
            ),
        },
{
    match last_hit(hits) {
        None => DepthShade::Untouched,
        Some(i) => {
            match hits[i] {
                Some(d) if depth_window(d) => DepthShade::Falloff(i),
                _ => DepthShade::Background(i),
            }
        },
    }
}

/// A solid can be the nearest only if the ray meets it at a distance below
/// the largest finite value.
pub open spec fn is_candidate(hit: Option<u32>) -> bool {
    hit is Some && less(hit->Some_0, MAX)
}

/// `i` is the nearest solid that the ray meets: the first in scene order
/// among the candidates at the least distance.
pub open spec fn is_nearest_hit(hits: Seq<Option<u32>>, i: int) -> bool {
    &&& 0 <= i < hits.len()
    &&& is_candidate(hits[i])
    &&& forall|j: int|
        0 <= j < hits.len() && is_candidate(#[trigger] hits[j]) ==> rank(hits[i]->Some_0) <= rank(
            hits[j]->Some_0,
        )
    &&& forall|j: int|
        0 <= j < i && is_candidate(#[trigger] hits[j]) ==> rank(hits[i]->Some_0) < rank(
            hits[j]->Some_0,
        )
}

/// The solid that a sample of the color frame meets first: the nearest one
/// along the ray. `None` where no solid is a candidate, and the ray escapes
/// the scene.
pub fn nearest_hit(hits: &Vec<Option<u32>>) -> (r: Option<usize>)
    ensures
        match r {
            Some(i) => is_nearest_hit(hits@, i as int),
            None => forall|j: int| 0 <= j < hits.len() ==> !is_candidate(#[trigger] hits[j]),
        },
{
    let mut best: Option<usize> = None;
    let mut bound: u32 = MAX;
    let mut k: usize = 0;
    proof {
        lemma_constants();
    }
    while k < hits.len()
        invariant
            k <= hits.len(),
            !is_nan(bound),
            match best {
                Some(i) => i < k && is_nearest_hit(hits@.take(k as int), i as int) && bound
                    == hits[i as int]->Some_0,
                None => bound == MAX && forall|j: int|
                    0 <= j < k ==> !is_candidate(#[trigger] hits[j]),
            },
        decreases hits.len() - k,
    {
        let ghost before = hits@.take(k as int);
        let ghost after = hits@.take(k + 1);
        assert(forall|j: int| 0 <= j < k ==> before[j] == after[j]);
        match hits[k] {
            Some(d) => {
                if lt(d, bound) {
                    best = Some(k);
                    bound = d;
                }
            },
            None => {},
        }
        k += 1;
    }
    assert(hits@.take(k as int) =~= hits@);
    best
}

/// A scene has at most one last hit and at most one nearest hit.
pub proof fn lemma_hits_are_unique(hits: Seq<Option<u32>>, i: int, j: int)
    ensures
        is_last_hit(hits, i) && is_last_hit(hits, j) ==> i == j,
        is_nearest_hit(hits, i) && is_nearest_hit(hits, j) ==> i == j,
{
}

/// Occlusion in the color tracer: a solid that the ray meets strictly
/// before every other candidate is the nearest hit, wherever it stands in
/// the scene.
pub proof fn lemma_front_solid_is_nearest(hits: Seq<Option<u32>>, front: int, i: int)
    requires
        0 <= front < hits.len(),
        is_candidate(hits[front]),
        forall|j: int|
            0 <= j < hits.len() && j != front && is_candidate(#[trigger] hits[j]) ==> rank(
                hits[front]->Some_0,
            ) < rank(hits[j]->Some_0),
    ensures
        is_nearest_hit(hits, front),
        is_nearest_hit(hits, i) ==> i == front,
{
}

/// The depth tracer shows the last solid that the ray meets, however far
/// it is: the choice is the same for any other distances at which the same
/// solids are met.
pub proof fn lemma_last_hit_ignores_distance(a: Seq<Option<u32>>, b: Seq<Option<u32>>, i: int)
    requires
        a.len() == b.len(),
        forall|j: int| 0 <= j < a.len() ==> (a[j] is Some <==> b[j] is Some),
        is_last_hit(a, i),
    ensures
        is_last_hit(b, i),
{
}

/// The nearest hit is never farther than the last hit, where the last hit is
/// a candidate at all.
pub proof fn lemma_nearest_not_beyond_last(hits: Seq<Option<u32>>, near: int, last: int)
    requires
        is_nearest_hit(hits, near),
        is_last_hit(hits, last),
        is_candidate(hits[last]),
    ensures
        near <= last,
        rank(hits[near]->Some_0) <= rank(hits[last]->Some_0),
{
}

/// What a path does with the answer of the scene.
#[derive(Clone, Copy, Debug, PartialEq, Eq, Structural)]
pub enum PathStep {
    /// The ray met the solid at this place of the scene first: the path
    /// takes up the solid's albedo and bounces off its surface.
    Scatter(usize),
    /// The ray left the scene: the path collects the background and ends.
    Escape,
}

/// The bounces that a path may still make.
#[derive(Clone, Copy, Debug)]
pub struct Path {
    pub bounces_left: u32,
}

impl Path {
    /// No path is granted more than `MAX_DEPTH` bounces.
    pub open spec fn wf(&self) -> bool {
        self.bounces_left <= MAX_DEPTH
    }

    /// The path after the scene has answered: one bounce fewer after a hit,
    /// none left after a miss.
    pub open spec fn after(&self, hit: bool) -> Path {
        if hit {
            Path { bounces_left: (self.bounces_left - 1) as u32 }
        } else {
            Path { bounces_left: 0 }
        }
    }

    /// The path after a run of answers, of which it takes in only those that
    /// come while it is live.
    pub open spec fn after_all(&self, hits: Seq<bool>) -> Path
        decreases hits.len(),
    {
        if hits.len() == 0 || self.bounces_left == 0 {
            *self
        } else {
            self.after(hits[0]).after_all(hits.drop_first())
        }
    }

    /// A path at its first ray.
    pub fn start() -> (p: Path)
        ensures
            p.bounces_left == MAX_DEPTH,
            p.wf(),
    {
        Path { bounces_left: MAX_DEPTH }
    }

    /// Whether the path casts another ray.
    pub fn is_live(&self) -> (r: bool)
        ensures
            r == (self.bounces_left > 0),
    {
        self.bounces_left > 0
    }

    /// Takes in the scene's answer to the path's ray, the nearest hit if
    /// there is one, and says what the path does with it. A hit costs one
    /// bounce; a miss ends the path.
    pub fn advance(&mut self, nearest: Option<usize>) -> (step: PathStep)
        requires
            old(self).wf(),
            old(self).bounces_left > 0,
        ensures
            *final(self) == old(self).after(nearest is Some),
            final(self).wf(),
            final(self).bounces_left < old(self).bounces_left,
            step == (match nearest {
                Some(solid) => PathStep::Scatter(solid),
                None => PathStep::Escape,
            }),
    {
        match nearest {
            Some(solid) => {
                self.bounces_left = self.bounces_left - 1;
                PathStep::Scatter(solid)
            },
            None => {
                self.bounces_left = 0;
                PathStep::Escape
            },
        }
    }
}

/// A path is cut off after `MAX_DEPTH` answers at the latest, whatever they
/// are, and earlier answers of which one is a miss end it there.
pub proof fn lemma_path_ends(p: Path, hits: Seq<bool>)
    requires
        p.wf(),
    ensures
        p.after_all(hits).wf(),
        p.after_all(hits).bounces_left <= p.bounces_left,
        hits.len() >= p.bounces_left ==> p.after_all(hits).bounces_left == 0,
        (exists|k: int| 0 <= k < hits.len() && !hits[k]) ==> p.after_all(hits).bounces_left == 0,
    decreases hits.len(),
{
    if hits.len() != 0 && p.bounces_left != 0 {
        let rest = hits.drop_first();
        lemma_path_ends(p.after(hits[0]), rest);
        if exists|k: int| 0 <= k < hits.len() && !hits[k] {
            let k = choose|k: int| 0 <= k < hits.len() && !hits[k];
            if k > 0 {
                assert(!rest[k - 1]);
            }
        }
    }
}

} // verus!
