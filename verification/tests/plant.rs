use focus_garden::plant::{Plant, PlantStage, MAX_GROWTH};

fn grown(times: u32) -> Plant {
    let mut plant = Plant::new();
    for _ in 0..times {
        plant.add_growth();
    }
    plant
}

#[test]
fn new_plant_is_a_seed() {
    let plant = Plant::new();
    assert_eq!(plant.stage, PlantStage::Seed);
    assert_eq!(plant.growth_points, 0);
    assert!(!plant.is_complete());
}

#[test]
fn stage_numbers_go_both_ways() {
    let stages = [
        PlantStage::Seed,
        PlantStage::Sprout,
        PlantStage::Seedling,
        PlantStage::YoungPlant,
        PlantStage::FullGrown,
    ];
    for (n, stage) in stages.iter().enumerate() {
        assert_eq!(stage.to_u32(), n as u32);
        assert_eq!(PlantStage::from_u32(n as u32), *stage);
    }
}

#[test]
fn stage_numbers_past_the_last_give_the_last() {
    assert_eq!(PlantStage::from_u32(5), PlantStage::FullGrown);
    assert_eq!(PlantStage::from_u32(99), PlantStage::FullGrown);
    assert_eq!(PlantStage::from_u32(u32::MAX), PlantStage::FullGrown);
    assert_eq!(PlantStage::max_stage(), 4);
    assert_eq!(PlantStage::FullGrown.to_u32(), PlantStage::max_stage());
}

#[test]
fn stages_have_names_and_icons() {
    assert_eq!(PlantStage::Seed.name(), "Seed");
    assert_eq!(PlantStage::Sprout.name(), "Sprout");
    assert_eq!(PlantStage::Seedling.name(), "Seedling");
    assert_eq!(PlantStage::YoungPlant.name(), "Young Plant");
    assert_eq!(PlantStage::FullGrown.name(), "Full Grown");
    assert_eq!(PlantStage::Seed.icon(), "🌱");
    assert_eq!(PlantStage::Sprout.icon(), "🌿");
    assert_eq!(PlantStage::Seedling.icon(), "🪴");
    assert_eq!(PlantStage::YoungPlant.icon(), "🌸");
    assert_eq!(PlantStage::FullGrown.icon(), "🌳");
}

#[test]
fn stage_thresholds() {
    assert_eq!(PlantStage::Seed.threshold(), 0);
    assert_eq!(PlantStage::Sprout.threshold(), 2);
    assert_eq!(PlantStage::Seedling.threshold(), 5);
    assert_eq!(PlantStage::YoungPlant.threshold(), 8);
    assert_eq!(PlantStage::FullGrown.threshold(), 10);
}

#[test]
fn stage_follows_the_growth_points() {
    let expected = [
        PlantStage::Seed,
        PlantStage::Seed,
        PlantStage::Sprout,
        PlantStage::Sprout,
        PlantStage::Sprout,
        PlantStage::Seedling,
        PlantStage::Seedling,
        PlantStage::Seedling,
        PlantStage::YoungPlant,
        PlantStage::YoungPlant,
        PlantStage::FullGrown,
    ];
    for (points, stage) in expected.iter().enumerate() {
        assert_eq!(PlantStage::for_points(points as u32), *stage);
        let plant = grown(points as u32);
        assert_eq!(plant.growth_points, points as u32);
        assert_eq!(plant.stage, *stage);
    }
    assert_eq!(PlantStage::for_points(11), PlantStage::FullGrown);
    assert_eq!(PlantStage::for_points(u32::MAX), PlantStage::FullGrown);
}

#[test]
fn plant_is_complete_after_exactly_max_growth() {
    assert_eq!(MAX_GROWTH, 10);
    for times in 0..MAX_GROWTH {
        assert!(!grown(times).is_complete());
    }
    let plant = grown(MAX_GROWTH);
    assert!(plant.is_complete());
    assert_eq!(plant.stage, PlantStage::FullGrown);
    assert_eq!(plant.growth_points, 10);
}

#[test]
fn growth_saturates() {
    let full = grown(MAX_GROWTH);
    for extra in 1..5 {
        let plant = grown(MAX_GROWTH + extra);
        assert_eq!(plant, full);
        assert!(plant.is_complete());
    }
}

#[test]
fn sessions_to_next_stage_counts_down_to_the_boundary() {
    let expected = [2usize, 1, 3, 2, 1, 3, 2, 1, 2, 1, 0];
    for (points, left) in expected.iter().enumerate() {
        assert_eq!(grown(points as u32).sessions_to_next_stage(), *left);
    }
    assert_eq!(grown(14).sessions_to_next_stage(), 0);
}

#[test]
fn plant_progress_within_the_band() {
    let expected = [0u16, 50, 0, 33, 66, 0, 33, 66, 0, 50, 100];
    for (points, percent) in expected.iter().enumerate() {
        assert_eq!(grown(points as u32).progress(), *percent);
    }
}

#[test]
fn from_stage_takes_a_matching_pair() {
    let plant = Plant::from_stage(2, 6);
    assert_eq!(plant.stage, PlantStage::Seedling);
    assert_eq!(plant.growth_points, 6);
    let seed = Plant::from_stage(0, 0);
    assert_eq!(seed, Plant::new());
}

#[test]
fn from_stage_lets_the_points_decide() {
    let plant = Plant::from_stage(4, 3);
    assert_eq!(plant.stage, PlantStage::Sprout);
    assert_eq!(plant.growth_points, 3);
    let capped = Plant::from_stage(0, 500);
    assert_eq!(capped.stage, PlantStage::FullGrown);
    assert_eq!(capped.growth_points, 10);
    assert!(capped.is_complete());
}

#[test]
fn growth_mends_a_plant_out_of_order() {
    let mut plant = Plant { stage: PlantStage::FullGrown, growth_points: 0 };
    plant.add_growth();
    assert_eq!(plant, Plant { stage: PlantStage::Seed, growth_points: 1 });
    let mut over = Plant { stage: PlantStage::Seed, growth_points: 77 };
    assert!(over.is_complete());
    assert_eq!(over.sessions_to_next_stage(), 0);
    assert_eq!(over.progress(), 100);
    over.add_growth();
    assert_eq!(over, Plant { stage: PlantStage::FullGrown, growth_points: 10 });
}
