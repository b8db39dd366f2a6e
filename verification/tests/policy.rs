// Per-tick behavior: drive state, arrival, panic, avoidance, food
// seeking, roaming and resting.

use rat_sim::matrix::PathfindingMatrix;
use rat_sim::medicine::Medicine;
use rat_sim::medicine::MedicineEffect;
use rat_sim::policy::AgentState;
use rat_sim::policy::Cheese;
use rat_sim::policy::Goal;
use rat_sim::policy::MotionCommand;
use rat_sim::policy::Panic;
use rat_sim::policy::RememberedObstacles;
use rat_sim::policy::Rest;
use rat_sim::policy::Settings;
use rat_sim::policy::rest_tick;
use rat_sim::policy::set_goal_tick;
use rat_sim::rat::Rat;
use rat_sim::units::isqrt;
use rat_sim::units::rounded_units;

fn corridor() -> PathfindingMatrix {
    PathfindingMatrix::from_coordinates(&vec![(0, 0), (1000, 0), (2000, 0)])
}

fn idle_agent() -> AgentState {
    let mut a = AgentState::new();
    a.rest = None;
    a
}

#[test]
fn test_drive_clamp_all_default_combinations() {
    // Every subset of the default medicines leaves each channel in [0, 2].
    let base = rat_sim::medicine::Medicines::default();
    for mask in 0..8u32 {
        let mut meds: Vec<Medicine> = base.0.clone();
        for (i, m) in meds.iter_mut().enumerate() {
            m.in_experiment = mask & (1 << i) != 0;
        }
        let rat = Rat::default().with_medicines(&meds);
        assert!((0..=2).contains(&rat.appetite));
        assert!((0..=2).contains(&rat.smell));
        assert!((0..=2).contains(&rat.fear));
    }
}

#[test]
fn test_drive_clamp_extremes() {
    let mut strong = Medicine::default().with_name("X");
    strong.in_experiment = true;
    strong.set_effect(&MedicineEffect::Appetite, 100);
    strong.set_effect(&MedicineEffect::Smell, -100);
    strong.set_effect(&MedicineEffect::Fear, i32::MAX);
    let rat = Rat::default().with_medicines(&vec![strong.clone(), strong.clone()]);
    assert_eq!((rat.appetite, rat.smell, rat.fear), (2, 0, 2));
    // All three stock medicines together: appetite 1+1 = 2, smell 1+0 = 1,
    // fear 1+0 = 1.
    let mut meds = rat_sim::medicine::Medicines::default().0;
    for m in meds.iter_mut() {
        m.in_experiment = true;
    }
    let rat = Rat::default().with_medicines(&meds);
    assert_eq!((rat.appetite, rat.smell, rat.fear), (2, 1, 1));
}

#[test]
fn test_eating_lowers_appetite() {
    let mut rat = Rat { appetite: 2, smell: 1, fear: 1 };
    assert!(rat.eat());
    assert_eq!(rat.appetite, 1);
    assert!(rat.eat());
    assert_eq!(rat.appetite, 0);
    assert!(!rat.eat());
    assert_eq!(rat.appetite, 0);
}

#[test]
fn test_rest_tick_counts_down_and_ends() {
    let mut a = AgentState::new();
    rest_tick(&mut a, 200);
    assert_eq!(a.rest, Some(Rest { remaining_millis: 300 }));
    rest_tick(&mut a, 300);
    assert_eq!(a.rest, None);
    rest_tick(&mut a, 100);
    assert_eq!(a.rest, None);
}

#[test]
fn test_resting_agent_is_skipped() {
    let m = corridor();
    let settings = Settings::default();
    let mut a = AgentState::new();
    a.goal = Some(Goal((2, 1)));
    let cmd = set_goal_tick(
        &Rat::default(),
        &mut a,
        (0, 0, 0),
        &Vec::new(),
        &Vec::new(),
        &m,
        &settings,
        16,
    );
    assert_eq!(cmd, MotionCommand::Coast);
    assert_eq!(a.goal, Some(Goal((2, 1))));
}

#[test]
fn test_steering_before_the_arrival_threshold() {
    // 500 milli-units from the goal's center: farther than min_distance,
    // so the goal stays and the agent steers for it.
    let m = corridor();
    let settings = Settings::default();
    let mut a = idle_agent();
    a.goal = Some(Goal((2, 1)));
    let cmd = set_goal_tick(
        &Rat::default(),
        &mut a,
        (500, 0, 0),
        &Vec::new(),
        &Vec::new(),
        &m,
        &settings,
        16,
    );
    assert_eq!(cmd, MotionCommand::Steer((1000, 0, 0)));
    assert_eq!(a.goal, Some(Goal((2, 1))));
    assert!(a.rest.is_none());
}

#[test]
fn test_arrival_clears_goal_and_rests() {
    // 100 milli-units away: at or below min_distance, the goal is cleared
    // on this evaluation and, with nothing better to do, the agent rests
    // three tenths of the rest span (appetite 1).
    let m = corridor();
    let settings = Settings::default();
    let mut a = idle_agent();
    a.goal = Some(Goal((2, 1)));
    let cmd = set_goal_tick(
        &Rat::default(),
        &mut a,
        (900, 0, 0),
        &Vec::new(),
        &Vec::new(),
        &m,
        &settings,
        16,
    );
    assert_eq!(cmd, MotionCommand::Stop);
    assert_eq!(a.goal, None);
    assert_eq!(a.rest, Some(Rest { remaining_millis: 300 }));
    assert!(a.panic.is_none());
}

#[test]
fn test_rest_spans_by_appetite() {
    let m = corridor();
    let settings = Settings::default();
    for (appetite, expected) in [(0, 1000u64), (1, 300), (2, 0)] {
        let mut a = idle_agent();
        a.goal = Some(Goal((2, 1)));
        let rat = Rat { appetite, smell: 1, fear: 0 };
        set_goal_tick(&rat, &mut a, (1000, 0, 0), &Vec::new(), &Vec::new(), &m, &settings, 16);
        assert_eq!(a.rest, Some(Rest { remaining_millis: expected }));
    }
}

#[test]
fn test_hazard_discovery_enters_panic_and_is_remembered() {
    // A scare-trigger on the cell next to the agent: entering panic
    // appends that cell to the memory and times the panic by fear².
    let m = corridor();
    let settings = Settings::default();
    let mut a = idle_agent();
    a.goal = Some(Goal((2, 1)));
    let rat = Rat { appetite: 1, smell: 1, fear: 2 };
    let cmd = set_goal_tick(
        &rat,
        &mut a,
        (1000, 0, 0),
        &Vec::new(),
        &vec![(2000, 0, 0)],
        &m,
        &settings,
        16,
    );
    assert_eq!(cmd, MotionCommand::Stop);
    assert_eq!(a.memory.0, vec![(3, 1)]);
    assert_eq!(a.panic, Some(Panic { coord: (3, 1), remaining_millis: 4000 }));
    assert!(a.rest.is_none());
}

#[test]
fn test_fearless_agent_ignores_hazards() {
    let m = corridor();
    let settings = Settings::default();
    let mut a = idle_agent();
    a.goal = Some(Goal((2, 1)));
    let rat = Rat { appetite: 1, smell: 1, fear: 0 };
    set_goal_tick(&rat, &mut a, (1000, 0, 0), &Vec::new(), &vec![(2000, 0, 0)], &m, &settings, 16);
    assert!(a.memory.0.is_empty());
    assert!(a.panic.is_none());
    assert_eq!(a.rest, Some(Rest { remaining_millis: 300 }));
}

#[test]
fn test_food_seeking_steps_one_cell_toward_cheese() {
    let m = corridor();
    let settings = Settings::default();
    let mut a = idle_agent();
    let cheese = vec![Cheese { position: (2000, 0, 0), mouldy: false }];
    let cmd = set_goal_tick(
        &Rat::default(),
        &mut a,
        (0, 0, 0),
        &cheese,
        &Vec::new(),
        &m,
        &settings,
        16,
    );
    assert_eq!(cmd, MotionCommand::Coast);
    // One step along the unique path toward the cheese, not the whole way.
    assert_eq!(a.goal, Some(Goal((2, 1))));
}

#[test]
fn test_cheese_beyond_smell_range_is_ignored() {
    // Smell 1 reaches five units; a cheese six units away goes unnoticed,
    // and the agent roams to its only unblocked neighbour instead.
    let m = PathfindingMatrix::from_coordinates(&vec![
        (0, 0),
        (1000, 0),
        (2000, 0),
        (3000, 0),
        (4000, 0),
        (5000, 0),
        (6000, 0),
    ]);
    let settings = Settings::default();
    let mut a = idle_agent();
    let cheese = vec![Cheese { position: (6000, 0, 0), mouldy: false }];
    set_goal_tick(&Rat::default(), &mut a, (0, 0, 0), &cheese, &Vec::new(), &m, &settings, 16);
    assert_eq!(a.goal, Some(Goal((2, 1))));
    let mut b = idle_agent();
    // Smell 2 reaches ten units: the same cheese is found.
    let keen = Rat { appetite: 1, smell: 2, fear: 1 };
    set_goal_tick(&keen, &mut b, (0, 0, 0), &cheese, &Vec::new(), &m, &settings, 16);
    assert_eq!(b.goal, Some(Goal((2, 1))));
}

#[test]
fn test_mouldy_cheese_avoided_when_smell_works() {
    // A sated agent in the middle cell roams. With working smell the
    // mouldy cheese's cell is treated as blocked, so the roam can only go
    // left; without smell the mould goes unnoticed and both sides come up.
    let m = corridor();
    let settings = Settings::default();
    let cheese = vec![Cheese { position: (2000, 0, 0), mouldy: true }];
    let smeller = Rat { appetite: 0, smell: 1, fear: 1 };
    for _ in 0..50 {
        let mut a = idle_agent();
        set_goal_tick(&smeller, &mut a, (1000, 0, 0), &cheese, &Vec::new(), &m, &settings, 16);
        assert_eq!(a.goal, Some(Goal((1, 1))));
    }
    let anosmic = Rat { appetite: 0, smell: 0, fear: 1 };
    let mut saw_right = false;
    for _ in 0..50 {
        let mut b = idle_agent();
        set_goal_tick(&anosmic, &mut b, (1000, 0, 0), &cheese, &Vec::new(), &m, &settings, 16);
        let g = b.goal.expect("both neighbours are open").0;
        assert!(g == (1, 1) || g == (3, 1));
        if g == (3, 1) {
            saw_right = true;
        }
    }
    assert!(saw_right);
}

#[test]
fn test_remembered_cells_are_never_chosen() {
    // Avoidance persistence: with the middle cell remembered, an agent in
    // the left cell can neither path through it to food nor roam onto it,
    // over many evaluations of the policy (the roam choice is random).
    let m = corridor();
    let settings = Settings::default();
    let cheese = vec![Cheese { position: (2000, 0, 0), mouldy: false }];
    for _ in 0..50 {
        let mut a = idle_agent();
        a.memory = RememberedObstacles(vec![(2, 1)]);
        set_goal_tick(&Rat::default(), &mut a, (0, 0, 0), &cheese, &Vec::new(), &m, &settings, 16);
        assert_eq!(a.goal, None);
        assert_eq!(a.memory.0, vec![(2, 1)]);
    }
}

#[test]
fn test_roam_picks_an_unblocked_neighbour() {
    // A sated agent roams: from the middle cell both neighbours are open,
    // and whichever the randomness picks is adjacent and walkable.
    let m = corridor();
    let settings = Settings::default();
    let sated = Rat { appetite: 0, smell: 1, fear: 1 };
    for _ in 0..50 {
        let mut a = idle_agent();
        set_goal_tick(&sated, &mut a, (1000, 0, 0), &Vec::new(), &Vec::new(), &m, &settings, 16);
        let g = a.goal.expect("an open neighbour exists").0;
        assert!(g == (1, 1) || g == (3, 1));
    }
}

#[test]
fn test_panic_continuation_with_no_escape_route() {
    // The remembered hazard cell is carved out of the grid, so the flight
    // search finds no cell reachable both from the hazard and from the
    // agent; the hazard is rediscovered instead and the panic restarts.
    let m = corridor();
    let settings = Settings::default();
    let mut a = idle_agent();
    a.goal = Some(Goal((2, 1)));
    a.panic = Some(Panic { coord: (3, 1), remaining_millis: 1000 });
    a.memory = RememberedObstacles(vec![(3, 1)]);
    let rat = Rat { appetite: 1, smell: 1, fear: 1 };
    let cmd = set_goal_tick(
        &rat,
        &mut a,
        (1000, 0, 0),
        &Vec::new(),
        &vec![(2000, 0, 0)],
        &m,
        &settings,
        16,
    );
    assert_eq!(cmd, MotionCommand::Stop);
    assert_eq!(a.goal, None);
    // Rediscovered: the cell is remembered twice and the timer restarts.
    assert_eq!(a.memory.0, vec![(3, 1), (3, 1)]);
    assert_eq!(a.panic, Some(Panic { coord: (3, 1), remaining_millis: 1000 }));
}

#[test]
fn test_panic_expires_on_arrival() {
    let m = corridor();
    let settings = Settings::default();
    let mut a = idle_agent();
    a.goal = Some(Goal((2, 1)));
    a.panic = Some(Panic { coord: (3, 1), remaining_millis: 10 });
    // 16 ms elapse: the countdown runs out before the re-decision, the
    // panic is dropped, and the agent rests.
    set_goal_tick(
        &Rat::default(),
        &mut a,
        (1000, 0, 0),
        &Vec::new(),
        &Vec::new(),
        &m,
        &settings,
        16,
    );
    assert!(a.panic.is_none());
    assert_eq!(a.rest, Some(Rest { remaining_millis: 300 }));
}

#[test]
fn test_integer_square_roots_and_rounded_distances() {
    assert_eq!(isqrt(0), 0);
    assert_eq!(isqrt(10), 3);
    assert_eq!(isqrt(1_000_000), 1000);
    // 1.2 units → 1; 1.5 units → 2 (ties round up, as f32 rounding does).
    assert_eq!(rounded_units(1200 * 1200), 1);
    assert_eq!(rounded_units(1500 * 1500), 2);
    assert_eq!(rounded_units(0), 0);
}
