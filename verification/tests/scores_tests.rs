use constrained_decoding::scores::apply_mask_cells;
use constrained_decoding::scores::apply_penalty_cells;
use constrained_decoding::scores::score_positive;
use constrained_decoding::scores::SCORE_NEG_INF_BITS;
use constrained_decoding::scores::SCORE_ONE_BITS;

fn cells_of(scores: &[f32]) -> Vec<u32> {
    scores.iter().map(|s| s.to_bits()).collect()
}

fn floats_of(cells: &[u32]) -> Vec<f32> {
    cells.iter().map(|c| f32::from_bits(*c)).collect()
}

#[test]
fn score_constants_match_ieee() {
    assert_eq!(SCORE_ONE_BITS, 1.0f32.to_bits());
    assert_eq!(SCORE_NEG_INF_BITS, f32::NEG_INFINITY.to_bits());
}

#[test]
fn score_positive_matches_native_comparison() {
    for v in [
        0.0f32,
        -0.0,
        1.0,
        -1.0,
        1.5e-42, // subnormal
        -1.5e-42,
        f32::INFINITY,
        f32::NEG_INFINITY,
        f32::NAN,
        -3.25,
        2.5,
    ] {
        assert_eq!(score_positive(v.to_bits()), v > 0.0, "value {v}");
    }
}

#[test]
fn penalty_arithmetic_matches_native_arithmetic() {
    // one-cell vocabularies: the sole token is in the window, so the
    // result must be the native quotient or product, bit for bit
    let pairs = [
        (1.0f32, 1.2f32),
        (2.5, 2.0),
        (-3.0, 2.0),
        (0.0, 1.2),
        (-0.0, 1.2),
        (7.75, 0.5),
        (1.0e-40, 2.0),
        (3.4e38, 10.0),
    ];
    let history: Vec<u32> = vec![0];
    for (s, p) in pairs {
        let mut cells = vec![s.to_bits()];
        apply_penalty_cells(&mut cells, &history, p.to_bits(), 1);
        let expected = if s > 0.0 { s / p } else { s * p };
        assert_eq!(cells[0], expected.to_bits(), "score {s} under penalty {p}");
    }
}

#[test]
fn penalty_one_is_bit_identical_noop() {
    let scores = [1.0f32, -0.0, 0.0, -7.5, 3.25];
    let mut cells = cells_of(&scores);
    let before = cells.clone();
    let history: Vec<u32> = vec![0, 1, 2, 3, 4];
    apply_penalty_cells(&mut cells, &history, SCORE_ONE_BITS, 3);
    assert_eq!(cells, before);
}

#[test]
fn penalty_divides_positive_and_multiplies_nonpositive() {
    let p = 1.5f32;
    let scores = [2.5f32, -3.0, 0.0];
    let mut cells = cells_of(&scores);
    let history: Vec<u32> = vec![0, 1, 2];
    apply_penalty_cells(&mut cells, &history, p.to_bits(), 3);
    let out = floats_of(&cells);
    assert_eq!(out[0].to_bits(), (2.5f32 / p).to_bits());
    assert_eq!(out[1].to_bits(), (-3.0f32 * p).to_bits());
    assert_eq!(out[2].to_bits(), (0.0f32 * p).to_bits());
}

#[test]
fn penalty_applies_once_per_distinct_token() {
    // history [1, 1, 2], window 3: token 1 occurs twice in the window but
    // is penalized exactly once.
    let p = 1.2f32;
    let mut cells = cells_of(&[1.0; 5]);
    let history: Vec<u32> = vec![1, 1, 2];
    apply_penalty_cells(&mut cells, &history, p.to_bits(), 3);
    let expected = [1.0f32, 1.0 / p, 1.0 / p, 1.0, 1.0];
    assert_eq!(cells, cells_of(&expected));
}

#[test]
fn penalty_considers_only_the_window_suffix() {
    let p = 2.0f32;
    let mut cells = cells_of(&[1.0; 4]);
    let history: Vec<u32> = vec![0, 1, 2];
    apply_penalty_cells(&mut cells, &history, p.to_bits(), 2);
    // only tokens 1 and 2 are in the two most recent positions
    let expected = [1.0f32, 0.5, 0.5, 1.0];
    assert_eq!(cells, cells_of(&expected));
}

#[test]
fn penalty_ignores_out_of_range_history_tokens() {
    let p = 2.0f32;
    let mut cells = cells_of(&[1.0, 2.0, 3.0]);
    let before = cells.clone();
    let history: Vec<u32> = vec![9, 100, 3];
    apply_penalty_cells(&mut cells, &history, p.to_bits(), 3);
    assert_eq!(cells, before);
}

#[test]
fn penalty_with_empty_window_changes_nothing() {
    let mut cells = cells_of(&[1.0, 2.0, 3.0]);
    let before = cells.clone();
    let history: Vec<u32> = vec![0, 1, 2];
    apply_penalty_cells(&mut cells, &history, 2.0f32.to_bits(), 0);
    assert_eq!(cells, before);
}

#[test]
fn mask_is_exclusive_and_keeps_allowed_bits() {
    let scores = [0.5f32, -2.0, 3.0, -0.0, 9.5];
    let mut cells = cells_of(&scores);
    let allowed: Vec<u32> = vec![1, 3, 7];  // 7 is outside the vocabulary
    apply_mask_cells(&mut cells, &allowed);
    assert_eq!(cells[0], SCORE_NEG_INF_BITS);
    assert_eq!(cells[1], (-2.0f32).to_bits());
    assert_eq!(cells[2], SCORE_NEG_INF_BITS);
    assert_eq!(cells[3], (-0.0f32).to_bits());
    assert_eq!(cells[4], SCORE_NEG_INF_BITS);
}

#[test]
fn mask_with_empty_allowed_set_excludes_everything() {
    let mut cells = cells_of(&[1.0, 2.0]);
    let allowed: Vec<u32> = vec![];
    apply_mask_cells(&mut cells, &allowed);
    assert_eq!(cells, vec![SCORE_NEG_INF_BITS, SCORE_NEG_INF_BITS]);
}
