//! Terrain chunks: sampling, landing-pad placement and streaming around the player.
use rand::{Rng, SeedableRng};
use vstd::prelude::*;

verus! {

/// Width of one chunk.
pub const CHUNK_WIDTH: i64 = 400_000;

/// Spacing between two height samples of a chunk.
pub const SAMPLE_SPACING: i64 = 2_000;

/// Number of height samples of a chunk: both of its edges are sampled.
pub const SAMPLES_PER_CHUNK: usize = 201;

/// Width of the camera viewport.
pub const VIEWPORT_WIDTH: i64 = 1_600_000;

/// Chunks that cover the viewport, plus one spare on each side:
/// `ceil(VIEWPORT_WIDTH / CHUNK_WIDTH) + 2`.
pub const CHUNKS_IN_VIEWPORT: i64 = 6;

/// Extra chunks kept alive beyond the viewport on each side.
pub const CHUNK_BUFFER: i64 = 3;

/// Chunks kept on each side of the player's chunk, `CHUNK_BUFFER + CHUNKS_IN_VIEWPORT / 2`:
/// the window is `[current - HALF_WINDOW, current + HALF_WINDOW)`.
pub const HALF_WINDOW: i64 = 6;

/// Largest player position (in absolute value) that the streamer accepts.
pub const POSITION_LIMIT: i64 = 4_000_000_000_000_000_000;

/// Largest chunk index (in absolute value) whose samples are addressable.
pub const CHUNK_INDEX_LIMIT: i64 = 20_000_000_000_000;

pub open spec fn valid_position(x: int) -> bool {
    -POSITION_LIMIT <= x <= POSITION_LIMIT
}

pub open spec fn valid_chunk_index(i: int) -> bool {
    -CHUNK_INDEX_LIMIT <= i <= CHUNK_INDEX_LIMIT
}

/// The chunk that holds world position `x`: `floor(x / CHUNK_WIDTH)`.
pub open spec fn chunk_index_of(x: int) -> int {
    x / (CHUNK_WIDTH as int)
}

/// The chunk indices that must be alive while the player stands at `x`.
pub open spec fn needed_window(x: int) -> Set<int> {
    Set::new(|i: int| chunk_index_of(x) - HALF_WINDOW <= i < chunk_index_of(x) + HALF_WINDOW)
}

/// The values of `s`, as a set of integers.
pub open spec fn int_set(s: Seq<i64>) -> Set<int> {
    Set::new(|v: int| exists|k: int| 0 <= k < s.len() && s[k] == v)
}

/// Left edge of chunk `index`.
pub open spec fn chunk_origin(index: int) -> int {
    index * CHUNK_WIDTH
}

/// World position of sample `j` of chunk `index`.
pub open spec fn sample_x(index: int, j: int) -> int {
    chunk_origin(index) + j * SAMPLE_SPACING
}

/// Index of the chunk under world position `x`, rounding toward negative infinity.
pub fn chunk_index(x: i64) -> (r: i64)
    requires
        valid_position(x as int),
    ensures
        r == chunk_index_of(x as int),
        valid_chunk_index(r - HALF_WINDOW),
        valid_chunk_index(r + HALF_WINDOW),
{
    if x >= 0 {
        x / CHUNK_WIDTH
    } else {
        let q = (-(x + 1)) / CHUNK_WIDTH;
        let r = -q - 1;
        assert(0 <= -(x + 1) - q * CHUNK_WIDTH < CHUNK_WIDTH);
        assert(r == x as int / (CHUNK_WIDTH as int));
        r
    }
}

/// The indices of the chunks that must be alive while the player stands at `x`,
/// in increasing order.
pub fn needed_chunk_indices(x: i64) -> (r: Vec<i64>)
    requires
        valid_position(x as int),
    ensures
        r@.len() == 2 * HALF_WINDOW,
        forall|k: int| 0 <= k < r@.len() ==> r@[k] == chunk_index_of(x as int) - HALF_WINDOW + k,
        int_set(r@) =~= needed_window(x as int),
{
    let current = chunk_index(x);
    let mut r: Vec<i64> = Vec::new();
    let mut i: i64 = current - HALF_WINDOW;
    while i < current + HALF_WINDOW
        invariant
            current == chunk_index_of(x as int),
            current - HALF_WINDOW <= i <= current + HALF_WINDOW,
            valid_chunk_index(current + HALF_WINDOW),
            r@.len() == i - (current - HALF_WINDOW),
            forall|k: int| 0 <= k < r@.len() ==> r@[k] == current - HALF_WINDOW + k,
        decreases current + HALF_WINDOW - i,
    {
        r.push(i);
        i = i + 1;
    }
    assert forall|v: int| needed_window(x as int).contains(v) implies int_set(r@).contains(v) by {
        assert(r@[v - (current - HALF_WINDOW)] == v);
    }
    r
}

/// Width of a landing pad.
pub const PAD_WIDTH: i64 = 24_000;

/// Samples from one end of a pad to the other: `PAD_WIDTH / SAMPLE_SPACING`.
pub const PAD_SPAN: usize = 12;

/// Largest height difference between the ends of a window that still holds a pad.
pub const FLATNESS_TOLERANCE: i64 = 4_000;

/// Score multiplier granted while the player rests on a pad, in hundredths.
pub const PAD_SCORE_MULTIPLIER: u32 = 300;

/// A chunk gets a chance at a pad with probability `PAD_CHANCE_NUMERATOR / PAD_CHANCE_DENOMINATOR`.
pub const PAD_CHANCE_NUMERATOR: u32 = 7;

pub const PAD_CHANCE_DENOMINATOR: u32 = 10;

/// A flattened stretch of terrain that grants a score multiplier.
#[derive(Clone, Copy, Debug, PartialEq, Eq, Structural)]
pub struct LandingPad {
    /// Sample at the pad's left end; its right end is `first_sample + PAD_SPAN`.
    pub first_sample: usize,
    /// World position of the pad's centre.
    pub x: i64,
    /// Height of the flattened surface.
    pub height: i64,
    /// In hundredths.
    pub score_multiplier: u32,
}

/// One generated stretch of terrain.
#[derive(Clone, Debug)]
pub struct TerrainChunk {
    pub index: i64,
    /// World position of the chunk's left edge.
    pub origin: i64,
    /// Heights at `origin + j * SAMPLE_SPACING`, pad already flattened.
    pub heights: Vec<i64>,
    pub pad: Option<LandingPad>,
}

pub open spec fn abs(v: int) -> int {
    if v < 0 { -v } else { v }
}

/// The window of samples `i ..= i + PAD_SPAN` lies inside `h` and its ends are level enough.
pub open spec fn is_flat_window(h: Seq<i64>, i: int) -> bool {
    &&& 0 <= i
    &&& i + PAD_SPAN < h.len()
    &&& abs(h[i] - h[i + PAD_SPAN]) <= FLATNESS_TOLERANCE
}

/// The pad candidates are all the windows of `PAD_SPAN` samples that lie inside `h`.
pub open spec fn is_candidate(h: Seq<i64>, i: int) -> bool {
    0 <= i && i + PAD_SPAN < h.len()
}

/// The first flat candidate window at or after `i`.
pub open spec fn first_flat_from(h: Seq<i64>, i: int) -> Option<int>
    decreases h.len() - i,
{
    if i < 0 || i + PAD_SPAN >= h.len() {
        None
    } else if is_flat_window(h, i) {
        Some(i)
    } else {
        first_flat_from(h, i + 1)
    }
}

/// The leftmost flat candidate window of `h`, if any.
pub open spec fn first_flat_window(h: Seq<i64>) -> Option<int> {
    first_flat_from(h, 0)
}

/// Mean of two heights, rounded toward negative infinity.
pub open spec fn mean(a: int, b: int) -> int {
    (a + b) / 2
}

/// `h` with the window starting at `i` levelled to the mean of its two ends.
pub open spec fn flattened(h: Seq<i64>, i: int) -> Seq<i64> {
    Seq::new(
        h.len(),
        |k: int|
            if i <= k <= i + PAD_SPAN {
                mean(h[i] as int, h[i + PAD_SPAN] as int) as i64
            } else {
                h[k]
            },
    )
}

/// The pad laid on the window starting at `i` of chunk `index`.
pub open spec fn pad_on(index: int, h: Seq<i64>, i: int) -> LandingPad {
    LandingPad {
        first_sample: i as usize,
        x: sample_x(index, i + PAD_SPAN / 2) as i64,
        height: mean(h[i] as int, h[i + PAD_SPAN] as int) as i64,
        score_multiplier: PAD_SCORE_MULTIPLIER,
    }
}

/// `c` is the chunk `index` built from the raw samples `raw`, where `roll` says
/// whether the chunk tries for a pad.
pub open spec fn built_from(c: TerrainChunk, index: int, raw: Seq<i64>, roll: bool) -> bool {
    &&& c.index == index
    &&& c.origin == chunk_origin(index)
    &&& match (if roll { first_flat_window(raw) } else { None }) {
        Some(i) => c.heights@ == flattened(raw, i) && c.pad == Some(pad_on(index, raw, i)),
        None => c.heights@ == raw && c.pad.is_none(),
    }
}

/// A chunk's pad, when it has one, sits on a window whose raw ends differ by
/// at most the flatness tolerance, and no candidate window to its left is flat
/// enough; after levelling, the pad's two ends are at the same height. A chunk
/// that tried for a pad and has none has no flat candidate window at all.
pub proof fn lemma_pad_is_leftmost_flat_window(c: TerrainChunk, index: int, raw: Seq<i64>, roll: bool)
    requires
        built_from(c, index, raw, roll),
        raw.len() == SAMPLES_PER_CHUNK,
    ensures
        match c.pad {
            Some(p) => {
                &&& is_candidate(raw, p.first_sample as int)
                &&& abs(raw[p.first_sample as int] - raw[p.first_sample + PAD_SPAN]) <= FLATNESS_TOLERANCE
                &&& forall|j: int| 0 <= j < p.first_sample ==> !#[trigger] is_flat_window(raw, j)
                &&& c.heights@[p.first_sample as int] == c.heights@[p.first_sample + PAD_SPAN]
            },
            None => roll ==> forall|j: int| #[trigger] is_candidate(raw, j) ==> !is_flat_window(raw, j),
        },
{
    lemma_first_flat_from(raw, 0);
    if roll {
        if let Some(i) = first_flat_window(raw) {
            let h = flattened(raw, i);
            assert(h[i] == h[i + PAD_SPAN]);
            assert((i as usize) as int == i);
        }
    }
}

/// Mean of two heights that differ by at most the flatness tolerance.
fn mean_height(a: i64, b: i64) -> (r: i64)
    requires
        abs(a - b) <= FLATNESS_TOLERANCE,
    ensures
        r == mean(a as int, b as int),
{
    let d = b - a;
    if d >= 0 {
        a + d / 2
    } else {
        a - (-d + 1) / 2
    }
}

/// Finds the leftmost flat candidate window of `h`.
pub fn find_flat_window(h: &Vec<i64>) -> (r: Option<usize>)
    ensures
        r == (match first_flat_window(h@) {
            Some(i) => Some(i as usize),
            None => None::<usize>,
        }),
{
    if h.len() <= PAD_SPAN {
        return None;
    }
    let end = h.len() - PAD_SPAN;
    let mut i: usize = 0;
    while i < end
        invariant
            0 <= i <= end,
            end == h@.len() - PAD_SPAN,
            h@.len() <= usize::MAX,
            first_flat_window(h@) == first_flat_from(h@, i as int),
        decreases end - i,
    {
        let j = i + PAD_SPAN;
        let a = h[i] as i128;
        let b = h[j] as i128;
        let d = a - b;
        if -(FLATNESS_TOLERANCE as i128) <= d && d <= FLATNESS_TOLERANCE as i128 {
            return Some(i);
        }
        i = i + 1;
    }
    None
}

/// Builds chunk `index` from its raw height samples. When `roll` holds, the
/// leftmost flat candidate window is levelled and carries a pad; otherwise, or
/// when no window is flat enough, the samples stay as they are.
pub fn build_chunk(index: i64, raw: Vec<i64>, roll: bool) -> (c: TerrainChunk)
    requires
        valid_chunk_index(index as int),
        raw@.len() == SAMPLES_PER_CHUNK,
    ensures
        built_from(c, index as int, raw@, roll),
{
    let origin = index * CHUNK_WIDTH;
    let found = if roll { find_flat_window(&raw) } else { None };
    match found {
        None => {
            TerrainChunk { index, origin, heights: raw, pad: None }
        },
        Some(i) => {
            proof {
                lemma_first_flat_from(raw@, 0);
                assert(first_flat_window(raw@) == Some(i as int));
                assert(is_flat_window(raw@, i as int));
            }
            let level = mean_height(raw[i], raw[i + PAD_SPAN]);
            let mut heights = raw;
            let mut k: usize = i;
            while k <= i + PAD_SPAN
                invariant
                    i <= k <= i + PAD_SPAN + 1,
                    i + PAD_SPAN < raw@.len(),
                    raw@.len() == SAMPLES_PER_CHUNK,
                    origin == chunk_origin(index as int),
                    valid_chunk_index(index as int),
                    heights@.len() == raw@.len(),
                    level == mean(raw@[i as int] as int, raw@[i + PAD_SPAN] as int),
                    forall|j: int|
                        0 <= j < raw@.len() ==> #[trigger] heights@[j] == (if i <= j < k {
                            level
                        } else {
                            raw@[j]
                        }),
                decreases i + PAD_SPAN + 1 - k,
            {
                heights.set(k, level);
                k = k + 1;
            }
            assert(heights@ =~= flattened(raw@, i as int));
            let pad = LandingPad {
                first_sample: i,
                x: origin + ((i + PAD_SPAN / 2) as i64) * SAMPLE_SPACING,
                height: level,
                score_multiplier: PAD_SCORE_MULTIPLIER,
            };
            TerrainChunk { index, origin, heights, pad: Some(pad) }
        },
    }
}

/// What `first_flat_from` finds is a flat candidate window with no flat
/// candidate window between `i` and it; when it finds nothing, no candidate
/// window at or after `i` is flat.
pub proof fn lemma_first_flat_from(h: Seq<i64>, i: int)
    requires
        0 <= i,
    ensures
        match first_flat_from(h, i) {
            Some(w) => i <= w && is_candidate(h, w) && is_flat_window(h, w) && forall|j: int|
                i <= j < w ==> !#[trigger] is_flat_window(h, j),
            None => forall|j: int| i <= j && is_candidate(h, j) ==> !#[trigger] is_flat_window(h, j),
        },
    decreases h.len() - i,
{
    if i + PAD_SPAN >= h.len() {
    } else if is_flat_window(h, i) {
    } else {
        lemma_first_flat_from(h, i + 1);
    }
}

/// What a generator seeded with `seed` draws for a `numerator / denominator` chance.
pub uninterp spec fn seeded_ratio_draw(seed: u64, numerator: u32, denominator: u32) -> bool;

/// Relies on rand's `StdRng::seed_from_u64` followed by `Rng::random_ratio`: the
/// draw is `true` with probability `numerator / denominator` and depends on the
/// three arguments alone. `random_ratio` panics when the denominator is zero or
/// below the numerator.
#[verifier::external_body]
fn seeded_draw(seed: u64, numerator: u32, denominator: u32) -> (r: bool)
    requires
        0 < denominator,
        numerator <= denominator,
    ensures
        r == seeded_ratio_draw(seed, numerator, denominator),
{
    rand::rngs::StdRng::seed_from_u64(seed).random_ratio(numerator, denominator)
}

/// Whether chunk `index` tries for a landing pad: a draw seeded by the chunk's
/// own index, so the answer never changes for a given chunk.
pub open spec fn pad_roll(index: i64) -> bool {
    seeded_ratio_draw(index as u64, PAD_CHANCE_NUMERATOR, PAD_CHANCE_DENOMINATOR)
}

pub fn chunk_pad_roll(index: i64) -> (r: bool)
    ensures
        r == pad_roll(index),
{
    seeded_draw(index as u64, PAD_CHANCE_NUMERATOR, PAD_CHANCE_DENOMINATOR)
}

/// `raw` holds, for each sample of chunk `index`, a height that `height_at` may
/// return at that sample's position.
pub open spec fn sampled_by<F: Fn(i64) -> i64>(height_at: F, index: int, raw: Seq<i64>) -> bool {
    &&& raw.len() == SAMPLES_PER_CHUNK
    &&& forall|j: int|
        0 <= j < raw.len() ==> height_at.ensures((sample_x(index, j) as i64,), #[trigger] raw[j])
}

/// `c` is what generating its chunk with the height function `height_at` gives.
pub open spec fn generated_by<F: Fn(i64) -> i64>(c: TerrainChunk, height_at: F) -> bool {
    exists|raw: Seq<i64>|
        sampled_by(height_at, c.index as int, raw) && built_from(c, c.index as int, raw, pad_roll(c.index))
}

/// Generating a chunk is deterministic: when `height_at` gives one height for
/// each position, any two chunks that it generates for the same index agree.
pub proof fn lemma_generation_is_deterministic<F: Fn(i64) -> i64>(
    a: TerrainChunk,
    b: TerrainChunk,
    height_at: F,
)
    requires
        forall|x: i64, h1: i64, h2: i64|
            #![trigger height_at.ensures((x,), h1), height_at.ensures((x,), h2)]
            height_at.ensures((x,), h1) && height_at.ensures((x,), h2) ==> h1 == h2,
        generated_by(a, height_at),
        generated_by(b, height_at),
        a.index == b.index,
    ensures
        a.origin == b.origin,
        a.heights@ == b.heights@,
        a.pad == b.pad,
{
    let ra = choose|raw: Seq<i64>|
        sampled_by(height_at, a.index as int, raw) && built_from(a, a.index as int, raw, pad_roll(a.index));
    let rb = choose|raw: Seq<i64>|
        sampled_by(height_at, b.index as int, raw) && built_from(b, b.index as int, raw, pad_roll(b.index));
    assert forall|j: int| 0 <= j < ra.len() implies ra[j] == rb[j] by {
        assert(height_at.ensures((sample_x(a.index as int, j) as i64,), ra[j]));
        assert(height_at.ensures((sample_x(a.index as int, j) as i64,), rb[j]));
    }
    assert(ra =~= rb);
}

/// Generates chunk `index`: samples `height_at` across the chunk, then lays a
/// pad on the leftmost flat window if the chunk's own draw asks for one.
pub fn create_chunk<F: Fn(i64) -> i64>(index: i64, height_at: &F) -> (c: TerrainChunk)
    requires
        valid_chunk_index(index as int),
        forall|x: i64| height_at.requires((x,)),
    ensures
        c.index == index,
        generated_by(c, *height_at),
{
    let origin = index * CHUNK_WIDTH;
    let mut raw: Vec<i64> = Vec::new();
    let mut j: usize = 0;
    while j < SAMPLES_PER_CHUNK
        invariant
            j <= SAMPLES_PER_CHUNK,
            raw@.len() == j,
            origin == chunk_origin(index as int),
            valid_chunk_index(index as int),
            forall|x: i64| height_at.requires((x,)),
            forall|k: int|
                0 <= k < j ==> height_at.ensures((sample_x(index as int, k) as i64,), #[trigger] raw@[k]),
        decreases SAMPLES_PER_CHUNK - j,
    {
        let x = origin + (j as i64) * SAMPLE_SPACING;
        let h = height_at(x);
        raw.push(h);
        j = j + 1;
    }
    let roll = chunk_pad_roll(index);
    let ghost samples = raw@;
    let c = build_chunk(index, raw, roll);
    assert(sampled_by(*height_at, index as int, samples));
    c
}

/// The indices of the chunks in `s`.
pub open spec fn indices_of(s: Seq<TerrainChunk>) -> Set<int> {
    Set::new(|v: int| exists|k: int| 0 <= k < s.len() && s[k].index == v)
}

/// No two chunks of `s` share an index, and every index is addressable.
pub open spec fn chunks_wf(s: Seq<TerrainChunk>) -> bool {
    &&& forall|a: int, b: int|
        0 <= a < s.len() && 0 <= b < s.len() && a != b ==> s[a].index != s[b].index
    &&& forall|a: int| 0 <= a < s.len() ==> valid_chunk_index(#[trigger] s[a].index as int)
}

/// Whether a chunk of `chunks` has index `index`.
fn has_chunk(chunks: &Vec<TerrainChunk>, index: i64) -> (r: bool)
    ensures
        r == indices_of(chunks@).contains(index as int),
{
    let mut k: usize = 0;
    while k < chunks.len()
        invariant
            k <= chunks@.len(),
            forall|m: int| 0 <= m < k ==> chunks@[m].index != index,
        decreases chunks@.len() - k,
    {
        if chunks[k].index == index {
            return true;
        }
        k = k + 1;
    }
    false
}

/// The chunks that one streaming step removed and added.
#[derive(Clone, Debug)]
pub struct StreamChanges {
    pub despawned: Vec<i64>,
    pub spawned: Vec<i64>,
}

/// Keeps exactly the chunks around the player alive.
pub struct TerrainStreamer {
    chunks: Vec<TerrainChunk>,
}

impl View for TerrainStreamer {
    type V = Seq<TerrainChunk>;

    closed spec fn view(&self) -> Seq<TerrainChunk> {
        self.chunks@
    }
}

impl TerrainStreamer {
    pub open spec fn wf(&self) -> bool {
        chunks_wf(self@)
    }

    /// The indices of the live chunks.
    pub open spec fn live(&self) -> Set<int> {
        indices_of(self@)
    }

    /// A streamer with no chunk alive.
    pub fn new() -> (r: Self)
        ensures
            r.wf(),
            r@.len() == 0,
    {
        TerrainStreamer { chunks: Vec::new() }
    }

    /// The live chunks.
    pub fn chunks(&self) -> (r: &Vec<TerrainChunk>)
        ensures
            r@ == self@,
    {
        &self.chunks
    }

    /// Brings the live chunks in line with the window around the player at `x`:
    /// chunks outside it are dropped, chunks inside it are kept as they are, and
    /// each missing one is generated with `height_at`.
    pub fn update<F: Fn(i64) -> i64>(&mut self, x: i64, height_at: F) -> (r: StreamChanges)
        requires
            old(self).wf(),
            valid_position(x as int),
            forall|p: i64| height_at.requires((p,)),
        ensures
            final(self).wf(),
            final(self).live() =~= needed_window(x as int),
            forall|k: int, j: int|
                0 <= k < final(self)@.len() && 0 <= j < old(self)@.len()
                    && #[trigger] final(self)@[k].index == #[trigger] old(self)@[j].index
                    ==> final(self)@[k] == old(self)@[j],
            forall|k: int|
                0 <= k < final(self)@.len() && !old(self).live().contains(#[trigger] final(self)@[k].index as int)
                    ==> generated_by(final(self)@[k], height_at),
            int_set(r.despawned@) =~= old(self).live().difference(needed_window(x as int)),
            int_set(r.spawned@) =~= needed_window(x as int).difference(old(self).live()),
    {
        let current = chunk_index(x);
        let lo = current - HALF_WINDOW;
        let hi = current + HALF_WINDOW;
        let ghost before = self.chunks@;
        let ghost window = int_range(lo as int, hi as int);
        assert(window =~= needed_window(x as int));
        let mut chunks: Vec<TerrainChunk> = Vec::new();
        core::mem::swap(&mut chunks, &mut self.chunks);
        let (mut kept, despawned) = split_window(chunks, lo, hi);
        let ghost after_split = kept@;
        let spawned = fill_window(&mut kept, lo, hi, &height_at);
        self.chunks = kept;
        proof {
            assert forall|k: int, j: int|
                0 <= k < self@.len() && 0 <= j < before.len() && self@[k].index == before[j].index
                    implies self@[k] == before[j] by {
                assert(indices_of(before).contains(before[j].index as int));
                if k < after_split.len() {
                    assert(before.contains(after_split[k]));
                    let j2 = choose|j2: int| 0 <= j2 < before.len() && before[j2] == after_split[k];
                    assert(j2 == j);
                } else {
                    assert(!indices_of(after_split).contains(self@[k].index as int));
                    assert(window.contains(self@[k].index as int));
                }
            }
            assert forall|k: int|
                0 <= k < self@.len() && !indices_of(before).contains(self@[k].index as int)
                    implies generated_by(self@[k], height_at) by {
                if k < after_split.len() {
                    assert(before.contains(after_split[k]));
                    let j2 = choose|j2: int| 0 <= j2 < before.len() && before[j2] == after_split[k];
                    assert(indices_of(before).contains(before[j2].index as int));
                }
            }
            assert(window.difference(indices_of(after_split)) =~= window.difference(indices_of(before)));
        }
        StreamChanges { despawned, spawned }
    }
}

/// The integers in `[lo, hi)`.
pub open spec fn int_range(lo: int, hi: int) -> Set<int> {
    Set::new(|v: int| lo <= v < hi)
}

proof fn lemma_indices_push(s: Seq<TerrainChunk>, c: TerrainChunk)
    ensures
        indices_of(s.push(c)) =~= indices_of(s).insert(c.index as int),
{
    assert forall|v: int| indices_of(s.push(c)).contains(v) implies indices_of(s).insert(c.index as int).contains(v) by {
        let k = choose|k: int| 0 <= k < s.push(c).len() && s.push(c)[k].index == v;
        if k < s.len() {
            assert(s[k].index == v);
        }
    }
    assert forall|v: int| indices_of(s).contains(v) implies indices_of(s.push(c)).contains(v) by {
        let k = choose|k: int| 0 <= k < s.len() && s[k].index == v;
        assert(s.push(c)[k].index == v);
    }
    assert(s.push(c)[s.len() as int].index == c.index);
}

proof fn lemma_int_set_push(s: Seq<i64>, x: i64)
    ensures
        int_set(s.push(x)) =~= int_set(s).insert(x as int),
{
    assert forall|v: int| int_set(s.push(x)).contains(v) implies int_set(s).insert(x as int).contains(v) by {
        let k = choose|k: int| 0 <= k < s.push(x).len() && s.push(x)[k] == v;
        if k < s.len() {
            assert(s[k] == v);
        }
    }
    assert forall|v: int| int_set(s).contains(v) implies int_set(s.push(x)).contains(v) by {
        let k = choose|k: int| 0 <= k < s.len() && s[k] == v;
        assert(s.push(x)[k] == v);
    }
    assert(s.push(x)[s.len() as int] == x);
}

proof fn lemma_indices_suffix(s: Seq<TerrainChunk>, n: int)
    requires
        0 < n <= s.len(),
    ensures
        indices_of(s.subrange(n - 1, s.len() as int)) =~= indices_of(s.subrange(n, s.len() as int)).insert(
            s[n - 1].index as int,
        ),
{
    let a = s.subrange(n - 1, s.len() as int);
    let b = s.subrange(n, s.len() as int);
    assert forall|v: int| indices_of(a).contains(v) implies indices_of(b).insert(s[n - 1].index as int).contains(v) by {
        let k = choose|k: int| 0 <= k < a.len() && a[k].index == v;
        if k > 0 {
            assert(b[k - 1].index == v);
        }
    }
    assert forall|v: int| indices_of(b).contains(v) implies indices_of(a).contains(v) by {
        let k = choose|k: int| 0 <= k < b.len() && b[k].index == v;
        assert(a[k + 1].index == v);
    }
    assert(a[0].index == s[n - 1].index);
}

/// Splits `chunks` into those whose index lies in `[lo, hi)`, kept as they are,
/// and the indices of the others.
fn split_window(chunks: Vec<TerrainChunk>, lo: i64, hi: i64) -> (r: (Vec<TerrainChunk>, Vec<i64>))
    requires
        chunks_wf(chunks@),
    ensures
        chunks_wf(r.0@),
        indices_of(r.0@) =~= indices_of(chunks@).intersect(int_range(lo as int, hi as int)),
        int_set(r.1@) =~= indices_of(chunks@).difference(int_range(lo as int, hi as int)),
        forall|k: int| 0 <= k < r.0@.len() ==> chunks@.contains(#[trigger] r.0@[k]),
{
    let ghost before = chunks@;
    let ghost window = int_range(lo as int, hi as int);
    let mut rest = chunks;
    let mut kept: Vec<TerrainChunk> = Vec::new();
    let mut despawned: Vec<i64> = Vec::new();
    proof {
        assert(indices_of(before.subrange(before.len() as int, before.len() as int)) =~= Set::empty());
        assert(int_set(despawned@) =~= Set::empty());
        assert(indices_of(kept@) =~= Set::empty());
    }
    while rest.len() > 0
        invariant
            chunks_wf(before),
            window == int_range(lo as int, hi as int),
            rest@.len() <= before.len(),
            rest@ =~= before.subrange(0, rest@.len() as int),
            chunks_wf(kept@),
            indices_of(kept@) =~= indices_of(before.subrange(rest@.len() as int, before.len() as int)).intersect(window),
            int_set(despawned@) =~= indices_of(before.subrange(rest@.len() as int, before.len() as int)).difference(window),
            forall|k: int|
                0 <= k < kept@.len() ==> exists|j: int|
                    rest@.len() <= j < before.len() && before[j] == #[trigger] kept@[k],
        decreases rest@.len(),
    {
        let ghost n = rest@.len() as int;
        let c = rest.pop().unwrap();
        assert(c == before[n - 1]);
        proof {
            lemma_indices_suffix(before, n);
        }
        let ghost old_kept = kept@;
        if lo <= c.index && c.index < hi {
            proof {
                assert forall|k: int| 0 <= k < old_kept.len() implies old_kept[k].index != c.index by {
                    let j = choose|j: int| n <= j < before.len() && before[j] == old_kept[k];
                    assert(j != n - 1);
                }
                lemma_indices_push(old_kept, c);
            }
            kept.push(c);
            proof {
                assert forall|k: int|
                    0 <= k < kept@.len() implies exists|j: int|
                        n - 1 <= j < before.len() && before[j] == #[trigger] kept@[k] by {
                    if k == kept@.len() - 1 {
                        assert(before[n - 1] == kept@[k]);
                    } else {
                        let j = choose|j: int| n <= j < before.len() && before[j] == old_kept[k];
                        assert(before[j] == kept@[k]);
                    }
                }
            }
        } else {
            proof {
                lemma_int_set_push(despawned@, c.index);
            }
            despawned.push(c.index);
            proof {
                assert forall|k: int|
                    0 <= k < kept@.len() implies exists|j: int|
                        n - 1 <= j < before.len() && before[j] == #[trigger] kept@[k] by {
                    let j = choose|j: int| n <= j < before.len() && before[j] == kept@[k];
                    assert(before[j] == kept@[k]);
                }
            }
        }
    }
    assert(before.subrange(0, before.len() as int) =~= before);
    assert forall|k: int| 0 <= k < kept@.len() implies before.contains(#[trigger] kept@[k]) by {
        let j = choose|j: int| rest@.len() <= j < before.len() && before[j] == kept@[k];
        assert(before[j] == kept@[k]);
    }
    (kept, despawned)
}

/// Generates, in increasing order, each chunk of `[lo, hi)` that `chunks` lacks.
/// Returns their indices.
fn fill_window<F: Fn(i64) -> i64>(chunks: &mut Vec<TerrainChunk>, lo: i64, hi: i64, height_at: &F) -> (spawned: Vec<i64>)
    requires
        chunks_wf(old(chunks)@),
        valid_chunk_index(lo as int),
        valid_chunk_index(hi as int),
        lo <= hi,
        indices_of(old(chunks)@).subset_of(int_range(lo as int, hi as int)),
        forall|p: i64| height_at.requires((p,)),
    ensures
        chunks_wf(final(chunks)@),
        indices_of(final(chunks)@) =~= int_range(lo as int, hi as int),
        int_set(spawned@) =~= int_range(lo as int, hi as int).difference(indices_of(old(chunks)@)),
        final(chunks)@.len() >= old(chunks)@.len(),
        forall|k: int| 0 <= k < old(chunks)@.len() ==> final(chunks)@[k] == old(chunks)@[k],
        forall|k: int|
            old(chunks)@.len() <= k < final(chunks)@.len() ==> !indices_of(old(chunks)@).contains(
                #[trigger] final(chunks)@[k].index as int,
            ) && generated_by(final(chunks)@[k], *height_at),
{
    let ghost start = chunks@;
    let mut spawned: Vec<i64> = Vec::new();
    let mut i: i64 = lo;
    proof {
        assert(int_set(spawned@) =~= Set::empty());
    }
    while i < hi
        invariant
            chunks_wf(chunks@),
            valid_chunk_index(lo as int),
            valid_chunk_index(hi as int),
            lo <= i <= hi,
            indices_of(start).subset_of(int_range(lo as int, hi as int)),
            forall|p: i64| height_at.requires((p,)),
            indices_of(chunks@) =~= indices_of(start).union(int_range(lo as int, i as int)),
            int_set(spawned@) =~= int_range(lo as int, i as int).difference(indices_of(start)),
            chunks@.len() >= start.len(),
            forall|k: int| 0 <= k < start.len() ==> chunks@[k] == start[k],
            forall|k: int|
                start.len() <= k < chunks@.len() ==> !indices_of(start).contains(
                    #[trigger] chunks@[k].index as int,
                ) && generated_by(chunks@[k], *height_at),
        decreases hi - i,
    {
        if !has_chunk(chunks, i) {
            let c = create_chunk(i, height_at);
            proof {
                lemma_indices_push(chunks@, c);
                lemma_int_set_push(spawned@, i);
                assert forall|k: int| 0 <= k < chunks@.len() implies chunks@[k].index != i by {
                    assert(indices_of(chunks@).contains(chunks@[k].index as int));
                }
            }
            chunks.push(c);
            spawned.push(i);
        }
        assert(int_range(lo as int, i + 1) =~= int_range(lo as int, i as int).insert(i as int));
        i = i + 1;
    }
    spawned
}

} // verus!
