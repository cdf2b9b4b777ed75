//! Tests for the solver: terminal outcomes, scenario grids, reproducibility
//! and the weighted selection heuristic.

use procedural_tilemaps::cartesian_grid::CartesianGrid;
use procedural_tilemaps::generator::{
    Generator, GeneratorBuilder, GeneratorBuilderError, ModelSelectionHeuristic,
    NodeSelectionHeuristic, RngMode,
};
use procedural_tilemaps::model::{Model, ModelInstance};
use procedural_tilemaps::rules::{Rules, RulesBuilder};
use procedural_tilemaps::socket::SocketCollection;

/// Two models, each matching only itself: "AA" carries socket `a` on every
/// face, "BB" carries socket `b` on every face.
fn self_matching_rules() -> Rules {
    let mut sockets = SocketCollection::new();
    let a = sockets.create();
    let b = sockets.create();
    sockets.register_compatibility(a, a);
    sockets.register_compatibility(b, b);
    let models = vec![Model::new(vec![a; 4]), Model::new(vec![b; 4])];
    RulesBuilder::new_cartesian_2d(models, sockets).build().unwrap()
}

fn chain_generator(rng_mode: RngMode) -> Generator<procedural_tilemaps::coordinates::Cartesian2D> {
    let grid = CartesianGrid::new_cartesian_2d(4, 1, false, false);
    GeneratorBuilder::new()
        .with_rules(self_matching_rules())
        .with_grid(grid)
        .with_rng(rng_mode)
        .with_node_heuristic(NodeSelectionHeuristic::MinimumRemainingValue)
        .with_model_heuristic(ModelSelectionHeuristic::WeightedProbability)
        .build()
        .unwrap()
}

#[test]
fn builder_reports_missing_parts() {
    let r: Result<Generator<procedural_tilemaps::coordinates::Cartesian2D>, _> =
        GeneratorBuilder::new().build();
    assert!(matches!(r.err(), Some(GeneratorBuilderError::NoRules)));
    let r: Result<Generator<procedural_tilemaps::coordinates::Cartesian2D>, _> =
        GeneratorBuilder::new().with_rules(self_matching_rules()).build();
    assert!(matches!(r.err(), Some(GeneratorBuilderError::NoGrid)));
}

#[test]
fn builder_rejects_mismatched_coordinate_systems() {
    // Rules compiled for four directions cannot drive a 3D grid.
    let grid = CartesianGrid::new_cartesian_3d(2, 2, 2, false, false, false);
    let r = GeneratorBuilder::new()
        .with_rules(self_matching_rules())
        .with_grid(grid)
        .build();
    assert!(matches!(
        r.err(),
        Some(GeneratorBuilderError::CoordinateSystemMismatch)
    ));
}

#[test]
fn chain_of_four_is_never_mixed() {
    // A 1D chain of 4 nodes with two self-matching models must come out all
    // one model, never mixed.
    let mut generator = chain_generator(RngMode::RandomSeed);
    for _ in 0..50 {
        let (info, data) = generator.generate_grid().unwrap();
        assert_eq!(info.processed_nodes, 4);
        let cells = data.iter();
        assert_eq!(cells.len(), 4);
        let first = cells[0].model_index;
        for cell in cells.iter() {
            assert_eq!(cell.model_index, first);
        }
    }
}

#[test]
fn no_compatibilities_yield_contradiction() {
    // With no declared compatibilities at all, no pair of nodes can ever be
    // adjacent: any grid with at least one edge must fail.
    let mut sockets = SocketCollection::new();
    let a = sockets.create();
    let models = vec![Model::new(vec![a; 4]), Model::new(vec![a; 4])];
    let rules = RulesBuilder::new_cartesian_2d(models, sockets).build().unwrap();
    let grid = CartesianGrid::new_cartesian_2d(2, 1, false, false);
    let mut generator = GeneratorBuilder::new()
        .with_rules(rules)
        .with_grid(grid)
        .with_rng(RngMode::FixedSeed(11))
        .build()
        .unwrap();
    for _ in 0..10 {
        let r = generator.generate_grid();
        match r {
            Ok(_) => panic!("expected a contradiction"),
            Err(e) => assert!(e.node_index < 2),
        }
    }
}

#[test]
fn single_node_grid_always_succeeds() {
    // A single bounded node has no edges, so no propagation constraint
    // applies, whatever the socket compatibilities say.
    let mut sockets = SocketCollection::new();
    let a = sockets.create();
    let models = vec![Model::new(vec![a; 4]), Model::new(vec![a; 4])];
    let rules = RulesBuilder::new_cartesian_2d(models, sockets).build().unwrap();
    let grid = CartesianGrid::new_cartesian_2d(1, 1, false, false);
    let mut generator = GeneratorBuilder::new()
        .with_rules(rules)
        .with_grid(grid)
        .build()
        .unwrap();
    for _ in 0..20 {
        let (info, data) = generator.generate_grid().unwrap();
        assert_eq!(info.processed_nodes, 1);
        assert_eq!(data.iter().len(), 1);
    }
}

#[test]
fn fixed_seed_is_reproducible() {
    // Two runs with identical grid, rules, heuristics and seed produce
    // identical assignments; reuse of the same generator resets its state.
    let mut g1 = chain_generator(RngMode::FixedSeed(1234));
    let mut g2 = chain_generator(RngMode::FixedSeed(1234));
    let (_, d1) = g1.generate_grid().unwrap();
    let (_, d2) = g2.generate_grid().unwrap();
    let cells1: Vec<ModelInstance> = d1.iter().clone();
    let cells2: Vec<ModelInstance> = d2.iter().clone();
    assert_eq!(cells1, cells2);
    // A repeated attempt on the same generator starts from scratch and
    // repeats the same outcome.
    let (_, d3) = g1.generate_grid().unwrap();
    assert_eq!(cells1, d3.iter().clone());
}

#[test]
fn different_seeds_cover_both_outcomes() {
    // With two equal-weight self-matching models, different seeds eventually
    // produce both the all-first and the all-second chain.
    let mut seen = [false, false];
    for seed in 0..64u64 {
        let mut generator = chain_generator(RngMode::FixedSeed(seed));
        let (_, data) = generator.generate_grid().unwrap();
        seen[data.iter()[0].model_index] = true;
    }
    assert!(seen[0] && seen[1]);
}

#[test]
fn weighted_selection_approaches_weights() {
    // On an edge-free grid with weights 1 and 3, the second model should be
    // chosen close to three quarters of the time.
    let mut sockets = SocketCollection::new();
    let a = sockets.create();
    let models = vec![
        Model::new(vec![a; 4]).with_weight(1),
        Model::new(vec![a; 4]).with_weight(3),
    ];
    let rules = RulesBuilder::new_cartesian_2d(models, sockets).build().unwrap();
    let grid = CartesianGrid::new_cartesian_2d(1, 1, false, false);
    let mut generator = GeneratorBuilder::new()
        .with_rules(rules)
        .with_grid(grid)
        .with_rng(RngMode::RandomSeed)
        .with_model_heuristic(ModelSelectionHeuristic::WeightedProbability)
        .build()
        .unwrap();
    let attempts = 4000;
    let mut second = 0usize;
    for _ in 0..attempts {
        let (_, data) = generator.generate_grid().unwrap();
        if data.iter()[0].model_index == 1 {
            second += 1;
        }
    }
    let freq = second as f64 / attempts as f64;
    assert!(freq > 0.70 && freq < 0.80, "frequency was {}", freq);
}

#[test]
fn scan_order_and_uniform_heuristics_work() {
    let grid = CartesianGrid::new_cartesian_2d(3, 3, false, false);
    let mut generator = GeneratorBuilder::new()
        .with_rules(self_matching_rules())
        .with_grid(grid)
        .with_rng(RngMode::FixedSeed(5))
        .with_node_heuristic(NodeSelectionHeuristic::FirstInScanOrder)
        .with_model_heuristic(ModelSelectionHeuristic::UniformRandom)
        .build()
        .unwrap();
    let (info, data) = generator.generate_grid().unwrap();
    assert_eq!(info.processed_nodes, 9);
    let first = data.iter()[0].model_index;
    for cell in data.iter().iter() {
        assert_eq!(cell.model_index, first);
    }
}

#[test]
fn three_dimensional_grid_generates() {
    let mut sockets = SocketCollection::new();
    let a = sockets.create();
    sockets.register_compatibility(a, a);
    let models = vec![Model::new(vec![a; 6]), Model::new(vec![a; 6])];
    let rules = RulesBuilder::new_cartesian_3d(models, sockets).build().unwrap();
    let grid = CartesianGrid::new_cartesian_3d(3, 2, 2, false, false, true);
    let mut generator = GeneratorBuilder::new()
        .with_rules(rules)
        .with_grid(grid)
        .with_rng(RngMode::FixedSeed(7))
        .build()
        .unwrap();
    let (info, data) = generator.generate_grid().unwrap();
    assert_eq!(info.processed_nodes, 12);
    assert_eq!(data.iter().len(), 12);
}

#[test]
fn fully_compatible_rules_always_succeed() {
    // When every socket matches every socket, the rule table permits every
    // pair, so generation can never hit a contradiction.
    let mut sockets = SocketCollection::new();
    let a = sockets.create();
    let b = sockets.create();
    sockets.register_compatibility(a, a);
    sockets.register_compatibility(a, b);
    sockets.register_compatibility(b, b);
    let models = vec![Model::new(vec![a; 4]), Model::new(vec![b; 4])];
    let rules = RulesBuilder::new_cartesian_2d(models, sockets).build().unwrap();
    let grid = CartesianGrid::new_cartesian_2d(3, 3, true, true);
    let mut generator = GeneratorBuilder::new()
        .with_rules(rules)
        .with_grid(grid)
        .with_rng(RngMode::RandomSeed)
        .build()
        .unwrap();
    for _ in 0..20 {
        let (info, _) = generator.generate_grid().unwrap();
        assert_eq!(info.processed_nodes, 9);
    }
}

#[test]
fn larger_grid_stays_consistent() {
    // On a looping 2D grid the committed instances must satisfy the rule
    // table across every edge, wraparound edges included.
    let mut sockets = SocketCollection::new();
    let a = sockets.create();
    let b = sockets.create();
    sockets.register_compatibility(a, a);
    sockets.register_compatibility(a, b);
    sockets.register_compatibility(b, b);
    let models = vec![
        Model::new(vec![a; 4]),
        Model::new(vec![a, b, a, b]).with_all_rotations(),
    ];
    let rules = RulesBuilder::new_cartesian_2d(models, sockets.clone()).build().unwrap();
    let grid = CartesianGrid::new_cartesian_2d(6, 5, true, true);
    let mut generator = GeneratorBuilder::new()
        .with_rules(rules.clone())
        .with_grid(grid.clone())
        .with_rng(RngMode::FixedSeed(99))
        .build()
        .unwrap();
    let (info, data) = generator.generate_grid().unwrap();
    assert_eq!(info.processed_nodes, 30);
    // Re-check every edge against the compiled rule table by hand.
    let cells = data.iter();
    let find_instance = |cell: &ModelInstance| -> usize {
        (0..rules.instance_count())
            .find(|&i| rules.instances[i] == *cell)
            .unwrap()
    };
    let dirs = [
        procedural_tilemaps::direction::Direction::XForward,
        procedural_tilemaps::direction::Direction::YForward,
        procedural_tilemaps::direction::Direction::XBackward,
        procedural_tilemaps::direction::Direction::YBackward,
    ];
    for i in 0..30usize {
        let pos = grid.pos_from_index(i);
        for d in dirs {
            if let Some(m) = grid.get_next_index_in_direction(&pos, d) {
                let x = find_instance(&cells[i]);
                let y = find_instance(&cells[m]);
                assert!(rules.is_allowed(x, d, y));
            }
        }
    }
}
