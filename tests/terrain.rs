use moon_landr::terrain::{
    build_chunk, chunk_index, chunk_pad_roll, create_chunk, find_flat_window, needed_chunk_indices,
    TerrainStreamer, CHUNK_WIDTH, PAD_SCORE_MULTIPLIER, PAD_SPAN, POSITION_LIMIT, SAMPLES_PER_CHUNK,
    SAMPLE_SPACING,
};

fn steep(x: i64) -> i64 {
    x
}

#[test]
fn chunk_index_rounds_toward_negative_infinity() {
    assert_eq!(chunk_index(0), 0);
    assert_eq!(chunk_index(399_999), 0);
    assert_eq!(chunk_index(400_000), 1);
    assert_eq!(chunk_index(-1), -1);
    assert_eq!(chunk_index(-400_000), -1);
    assert_eq!(chunk_index(-400_001), -2);
    assert_eq!(chunk_index(1_250_000), 3);
}

#[test]
fn needed_window_is_twelve_chunks_around_the_player() {
    let w = needed_chunk_indices(0);
    assert_eq!(w, (-6..6).collect::<Vec<i64>>());
    let w = needed_chunk_indices(-1);
    assert_eq!(w, (-7..5).collect::<Vec<i64>>());
    let w = needed_chunk_indices(10 * CHUNK_WIDTH + 5);
    assert_eq!(w, (4..16).collect::<Vec<i64>>());
}

fn raw_with(values: &[(usize, i64)], base: impl Fn(usize) -> i64) -> Vec<i64> {
    let mut raw: Vec<i64> = (0..SAMPLES_PER_CHUNK).map(base).collect();
    for &(i, v) in values {
        raw[i] = v;
    }
    raw
}

#[test]
fn flat_window_search_starts_at_the_first_sample() {
    // Only the window starting at sample 0 is flat.
    let raw = raw_with(&[(0, 0), (PAD_SPAN, 0)], |j| (j as i64) * 10_000);
    assert_eq!(find_flat_window(&raw), Some(0));
    let c = build_chunk(1, raw, true);
    let pad = c.pad.expect("a pad");
    assert_eq!(pad.first_sample, 0);
    assert_eq!(pad.x, CHUNK_WIDTH + 6 * SAMPLE_SPACING);
}

#[test]
fn flat_window_search_on_level_ground_takes_window_zero() {
    let raw = vec![300_000; SAMPLES_PER_CHUNK];
    assert_eq!(find_flat_window(&raw), Some(0));
    let c = build_chunk(0, raw.clone(), true);
    assert_eq!(c.pad.expect("a pad").first_sample, 0);
    assert_eq!(c.heights, raw);
}

#[test]
fn flat_window_search_reaches_the_last_window() {
    let last = SAMPLES_PER_CHUNK - 1 - PAD_SPAN;
    let raw = raw_with(&[(last, 7), (last + PAD_SPAN, 7)], |j| (j as i64) * 10_000);
    assert_eq!(find_flat_window(&raw), Some(last));
}

#[test]
fn flat_window_search_finds_the_leftmost() {
    let raw = raw_with(&[(30, 5_000), (30 + PAD_SPAN, 1_000), (50, 0), (50 + PAD_SPAN, 0)], |j| {
        (j as i64) * 10_000
    });
    assert_eq!(find_flat_window(&raw), Some(30));
}

#[test]
fn flat_window_tolerance_is_inclusive() {
    let raw = raw_with(&[(7, 10_000), (7 + PAD_SPAN, 14_000)], |j| (j as i64) * 10_000 + 1_000_000);
    assert_eq!(find_flat_window(&raw), Some(7));
    let raw = raw_with(&[(7, 10_000), (7 + PAD_SPAN, 14_001)], |j| (j as i64) * 10_000 + 1_000_000);
    assert_eq!(find_flat_window(&raw), None);
}

#[test]
fn build_chunk_levels_the_pad_window() {
    let raw = raw_with(&[(30, 5_000), (30 + PAD_SPAN, 1_000)], |j| (j as i64) * 10_000);
    let c = build_chunk(2, raw.clone(), true);
    assert_eq!(c.index, 2);
    assert_eq!(c.origin, 800_000);
    let pad = c.pad.expect("a pad");
    assert_eq!(pad.first_sample, 30);
    // Mean of 5_000 and 1_000.
    assert_eq!(pad.height, 3_000);
    assert_eq!(pad.x, 800_000 + 36 * SAMPLE_SPACING);
    assert_eq!(pad.score_multiplier, PAD_SCORE_MULTIPLIER);
    for k in 0..SAMPLES_PER_CHUNK {
        if (30..=30 + PAD_SPAN).contains(&k) {
            assert_eq!(c.heights[k], 3_000);
        } else {
            assert_eq!(c.heights[k], raw[k]);
        }
    }
}

#[test]
fn build_chunk_mean_rounds_down_for_negative_heights() {
    let raw = raw_with(&[(1, -3), (1 + PAD_SPAN, 0)], |j| (j as i64) * 10_000);
    let c = build_chunk(-3, raw, true);
    let pad = c.pad.expect("a pad");
    assert_eq!(pad.height, -2);
    assert_eq!(c.origin, -1_200_000);
}

#[test]
fn build_chunk_without_roll_keeps_samples() {
    let raw = vec![300_000; SAMPLES_PER_CHUNK];
    let c = build_chunk(0, raw.clone(), false);
    assert!(c.pad.is_none());
    assert_eq!(c.heights, raw);
}

#[test]
fn build_chunk_without_flat_window_has_no_pad() {
    let raw: Vec<i64> = (0..SAMPLES_PER_CHUNK).map(|j| (j as i64) * 1_000).collect();
    let c = build_chunk(5, raw.clone(), true);
    assert!(c.pad.is_none());
    assert_eq!(c.heights, raw);
}

#[test]
fn pad_roll_is_fixed_per_chunk_and_varies_across_chunks() {
    let mut seen_true = false;
    let mut seen_false = false;
    for i in -100..100 {
        let a = chunk_pad_roll(i);
        assert_eq!(a, chunk_pad_roll(i));
        seen_true |= a;
        seen_false |= !a;
    }
    assert!(seen_true && seen_false);
}

#[test]
fn create_chunk_samples_the_height_function() {
    let c = create_chunk(3, &steep);
    assert_eq!(c.index, 3);
    assert_eq!(c.heights.len(), SAMPLES_PER_CHUNK);
    for (j, h) in c.heights.iter().enumerate() {
        assert_eq!(*h, 3 * CHUNK_WIDTH + (j as i64) * SAMPLE_SPACING);
    }
    assert!(c.pad.is_none());
}

#[test]
fn create_chunk_on_flat_ground_follows_its_roll() {
    for i in 0..20 {
        let c = create_chunk(i, &|_x: i64| 300_000);
        assert_eq!(c.pad.is_some(), chunk_pad_roll(i));
        if let Some(p) = c.pad {
            assert_eq!(p.first_sample, 0);
            assert_eq!(p.height, 300_000);
        }
    }
}

fn live(s: &TerrainStreamer) -> Vec<i64> {
    let mut v: Vec<i64> = s.chunks().iter().map(|c| c.index).collect();
    v.sort();
    v
}

#[test]
fn streamer_fills_the_window_from_empty() {
    let mut s = TerrainStreamer::new();
    let changes = s.update(0, steep);
    assert_eq!(live(&s), (-6..6).collect::<Vec<i64>>());
    assert!(changes.despawned.is_empty());
    let mut spawned = changes.spawned.clone();
    spawned.sort();
    assert_eq!(spawned, (-6..6).collect::<Vec<i64>>());
}

#[test]
fn streamer_moves_the_window_with_the_player() {
    let mut s = TerrainStreamer::new();
    s.update(0, steep);
    let before: Vec<(i64, Vec<i64>)> =
        s.chunks().iter().map(|c| (c.index, c.heights.clone())).collect();
    let changes = s.update(3 * CHUNK_WIDTH + 10, |_x: i64| 0);
    assert_eq!(live(&s), (-3..9).collect::<Vec<i64>>());
    let mut despawned = changes.despawned.clone();
    despawned.sort();
    assert_eq!(despawned, vec![-6, -5, -4]);
    let mut spawned = changes.spawned.clone();
    spawned.sort();
    assert_eq!(spawned, vec![6, 7, 8]);
    for c in s.chunks() {
        if let Some((_, h)) = before.iter().find(|(i, _)| *i == c.index) {
            assert_eq!(&c.heights, h);
        } else {
            assert!(c.heights.iter().all(|h| *h == 0));
        }
    }
}

#[test]
fn streamer_update_is_idempotent_in_place() {
    let mut s = TerrainStreamer::new();
    s.update(-5_000_000, steep);
    let changes = s.update(-5_000_000, steep);
    assert!(changes.despawned.is_empty());
    assert!(changes.spawned.is_empty());
    assert_eq!(live(&s), (-19..-7).collect::<Vec<i64>>());
}

#[test]
fn streamer_jump_replaces_every_chunk() {
    let mut s = TerrainStreamer::new();
    s.update(0, steep);
    let changes = s.update(100 * CHUNK_WIDTH, steep);
    assert_eq!(changes.despawned.len(), 12);
    assert_eq!(changes.spawned.len(), 12);
    assert_eq!(live(&s), (94..106).collect::<Vec<i64>>());
}

#[test]
fn streamer_works_at_the_edge_of_the_world() {
    assert_eq!(chunk_index(POSITION_LIMIT), 10_000_000_000_000);
    assert_eq!(chunk_index(-POSITION_LIMIT), -10_000_000_000_000);
    let mut s = TerrainStreamer::new();
    let changes = s.update(POSITION_LIMIT, steep);
    assert_eq!(changes.spawned.len(), 12);
    let changes = s.update(-POSITION_LIMIT, steep);
    assert_eq!(changes.spawned.len(), 12);
    assert_eq!(changes.despawned.len(), 12);
    let first = &s.chunks()[0];
    assert_eq!(first.origin, first.index * CHUNK_WIDTH);
}
