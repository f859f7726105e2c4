use hexboard::board::{resource_for_sample, Board, BoardSettings, Resource, WEIGHT_TOTAL};
use hexboard::hex::HexCoord;

fn settings_with_radius(radius: i64) -> BoardSettings {
    let mut s = BoardSettings::default();
    s.board_radius = radius;
    s
}

#[test]
fn default_settings_match_startup_configuration() {
    let s = BoardSettings::default();
    assert_eq!(s.tile_size, 40);
    assert_eq!(s.board_radius, 5);
    assert_eq!(s.gold_weight, 50_000);
    assert_eq!(s.wheat_weight, 400_000);
    assert_eq!(s.stone_weight, 200_000);
    assert_eq!(s.wood_weight, 350_000);
    assert_eq!(
        s.gold_weight + s.wheat_weight + s.stone_weight + s.wood_weight,
        WEIGHT_TOTAL
    );
}

#[test]
fn generate_produces_exact_tile_count() {
    for radius in [0i64, 1, 2, 5, 9] {
        let board = Board::generate(&settings_with_radius(radius));
        let expected = (3 * radius * radius + 3 * radius + 1) as usize;
        assert_eq!(board.tiles.len(), expected);
        for tile in &board.tiles {
            let c = tile.coord;
            assert_eq!(c.q + c.r + c.s, 0);
            assert!(c.is_in_bounds(radius));
        }
    }
}

#[test]
fn generated_coordinates_are_distinct() {
    let board = Board::generate(&settings_with_radius(3));
    for i in 0..board.tiles.len() {
        for j in 0..board.tiles.len() {
            if i != j {
                assert_ne!(board.tiles[i].coord, board.tiles[j].coord);
            }
        }
    }
}

#[test]
fn contains_matches_bounds() {
    let board = Board::generate(&settings_with_radius(5));
    assert!(board.contains(HexCoord { q: 0, r: 0, s: 0 }));
    assert!(board.contains(HexCoord { q: 1, r: 2, s: -3 }));
    assert!(board.contains(HexCoord { q: -5, r: 5, s: 0 }));
    assert!(!board.contains(HexCoord { q: 6, r: 0, s: -6 }));
    assert!(!board.contains(HexCoord { q: 5, r: 1, s: -6 }));
    // A non-zero-sum triple names no tile even when each component is small.
    assert!(!board.contains(HexCoord { q: 1, r: 1, s: 1 }));
}

#[test]
fn resource_at_is_some_exactly_on_board() {
    let board = Board::generate(&settings_with_radius(2));
    assert!(board.resource_at(HexCoord { q: 0, r: 0, s: 0 }).is_some());
    assert!(board.resource_at(HexCoord { q: 2, r: -2, s: 0 }).is_some());
    assert!(board.resource_at(HexCoord { q: 3, r: -3, s: 0 }).is_none());
}

#[test]
fn sample_thresholds_select_resources() {
    let s = BoardSettings::default();
    assert_eq!(resource_for_sample(0, &s), Resource::Gold);
    assert_eq!(resource_for_sample(49_999, &s), Resource::Gold);
    assert_eq!(resource_for_sample(50_000, &s), Resource::Wheat);
    assert_eq!(resource_for_sample(449_999, &s), Resource::Wheat);
    assert_eq!(resource_for_sample(450_000, &s), Resource::Stone);
    assert_eq!(resource_for_sample(649_999, &s), Resource::Stone);
    assert_eq!(resource_for_sample(650_000, &s), Resource::Wood);
    assert_eq!(resource_for_sample(999_999, &s), Resource::Wood);
}

#[test]
fn resource_frequencies_track_weights() {
    // Radius 60 gives 10981 tiles; with probabilities (0.05, 0.4, 0.2, 0.35)
    // the observed frequencies sit far within a 0.05 absolute tolerance.
    let board = Board::generate(&settings_with_radius(60));
    let n = board.tiles.len() as f64;
    let mut counts = [0usize; 4];
    for tile in &board.tiles {
        let k = match tile.resource {
            Resource::Gold => 0,
            Resource::Wheat => 1,
            Resource::Stone => 2,
            Resource::Wood => 3,
        };
        counts[k] += 1;
    }
    let expected = [0.05f64, 0.4, 0.2, 0.35];
    for k in 0..4 {
        let freq = counts[k] as f64 / n;
        assert!(
            (freq - expected[k]).abs() < 0.05,
            "frequency {} too far from {}",
            freq,
            expected[k]
        );
    }
}

#[test]
fn degenerate_weights_pin_every_draw() {
    // With the whole weight on gold, every uniform sample falls in the gold
    // bracket, whatever value the generator produced.
    let s = BoardSettings {
        tile_size: 40,
        board_radius: 4,
        gold_weight: WEIGHT_TOTAL,
        wheat_weight: 0,
        stone_weight: 0,
        wood_weight: 0,
    };
    let board = Board::generate(&s);
    assert_eq!(board.tiles.len(), 61);
    for tile in &board.tiles {
        assert_eq!(tile.resource, Resource::Gold);
    }
}

#[test]
fn every_in_bounds_coordinate_has_a_tile() {
    let board = Board::generate(&settings_with_radius(2));
    for q in -3i64..=3 {
        for r in -3i64..=3 {
            let c = HexCoord { q, r, s: -q - r };
            assert_eq!(board.contains(c), c.is_in_bounds(2));
        }
    }
}

#[test]
fn default_board_is_empty() {
    let b = Board::default();
    assert_eq!(b.tiles.len(), 0);
    assert_eq!(b.radius, 0);
}

#[test]
fn default_resource_is_wheat() {
    assert_eq!(Resource::default(), Resource::Wheat);
}
