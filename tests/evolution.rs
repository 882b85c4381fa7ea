use neural_network_study::{ActivationFunction, NeuralNetwork};
use rand::rngs::StdRng;
use rand::SeedableRng;
use snake_evolution::brain::{Brain, INPUTS, OUTPUTS};
use snake_evolution::fitness::Fitness;
use snake_evolution::game::{Game, GameState};
use snake_evolution::senses::{Ray, Senses};
use snake_evolution::grid::{Dir, Pos, COLS, ROWS};
use snake_evolution::population::Population;
use snake_evolution::selection::{
    parent_for_draw, rank, ranked_weights, roulette, select_parents, sum_weights, Champion, SelectionError,
};
use snake_evolution::training::{Trainer, TrainingError};

fn game(body: &[(i32, i32)], steps: u64) -> Game {
    let cells = body.iter().map(|&(x, y)| Pos::new(x, y)).collect();
    let mut g = Game::with_snake(cells, Dir::Right, Pos::new(0, 0)).expect("cells on the grid");
    g.steps = steps;
    g
}

fn inputs(s: &Senses) -> Vec<f64> {
    let cols = COLS as f64;
    let rows = ROWS as f64;
    let ray = |r: &Ray| (r.distance as f64 / cols, if r.body_hit { 1.0 } else { 0.0 });
    let mut v = vec![
        s.head.x as f64 / cols,
        s.head.y as f64 / rows,
        s.heading_x as f64,
        s.heading_y as f64,
        s.food_dx as f64 / cols,
        s.food_dy as f64 / rows,
    ];
    for r in [&s.up, &s.down, &s.left, &s.right] {
        let (d, hit) = ray(r);
        v.push(d);
        v.push(hit);
    }
    v
}

fn decide(nn: &NeuralNetwork, s: &Senses) -> Option<Dir> {
    let out = nn.predict(inputs(s)).expect("input of the right length");
    let best = out
        .iter()
        .enumerate()
        .max_by(|a, b| a.1.partial_cmp(b.1).unwrap())
        .map(|(i, _)| i)
        .unwrap();
    Dir::from_index(best)
}

fn value(f: &Fitness) -> f64 {
    match *f {
        Fitness::Survived { steps } => 0.01 * steps as f64,
        Fitness::Grew { len, steps } => 100.0 * len as f64 / steps as f64,
    }
}

fn scalars(nn: &NeuralNetwork) -> Vec<f64> {
    let v: serde_json::Value = serde_json::to_value(nn).unwrap();
    let mut out = Vec::new();
    for key in ["weights", "biases"] {
        for m in v[key].as_array().unwrap() {
            for x in m["data"].as_array().unwrap() {
                out.push(x.as_f64().unwrap());
            }
        }
    }
    out
}

#[test]
fn fitness_of_a_snake_that_never_grew() {
    let g = game(&[(3, 3)], 50);
    assert_eq!(g.evaluate(), Fitness::Survived { steps: 50 });
    assert!((value(&g.evaluate()) - 0.5).abs() < 1e-12);
    assert_eq!(g.evaluate().selection_weight(), 5000);
    assert!(game(&[(3, 3)], 0).evaluate().is_zero());
}

#[test]
fn fitness_of_a_snake_that_grew() {
    let g = game(&[(3, 3), (2, 3), (1, 3)], 30);
    assert_eq!(g.evaluate(), Fitness::Grew { len: 3, steps: 30 });
    assert!((value(&g.evaluate()) - 10.0).abs() < 1e-12);
    assert_eq!(g.evaluate().selection_weight(), 100_000);
    assert!(!g.evaluate().is_zero());
}

#[test]
fn selection_weights_round_down_and_saturate() {
    assert_eq!(Fitness::Grew { len: 2, steps: 3 }.selection_weight(), 666_666);
    assert_eq!(Fitness::Grew { len: 2, steps: 0 }.selection_weight(), u64::MAX);
    assert_eq!(Fitness::Survived { steps: u64::MAX }.selection_weight(), u64::MAX);
    assert_eq!(Fitness::Survived { steps: 0 }.selection_weight(), 0);
    assert_eq!(Fitness::Grew { len: 2, steps: 3_000_000 }.selection_weight(), 1);
}

#[test]
fn one_draw_maps_to_one_parent() {
    let scores = vec![Fitness::Survived { steps: 3 }, Fitness::Grew { len: 2, steps: 100 }, Fitness::Survived { steps: 0 }];
    let order = rank(&scores);
    assert_eq!(order, vec![1, 0, 2]);
    let weights = ranked_weights(&scores, &order);
    assert_eq!(weights, vec![20_000, 300, 0]);
    assert_eq!(sum_weights(&weights), 20_300);
    assert_eq!(parent_for_draw(&scores, &order, &weights, 0), 1);
    assert_eq!(parent_for_draw(&scores, &order, &weights, 20_000), 1);
    assert_eq!(parent_for_draw(&scores, &order, &weights, 20_001), 0);
    assert_eq!(parent_for_draw(&scores, &order, &weights, 20_299), 0);
}

#[test]
fn a_tiny_positive_score_still_rules_out_zero_scores() {
    let mut rng = StdRng::seed_from_u64(24);
    let scores = vec![Fitness::Survived { steps: 0 }, Fitness::Grew { len: 2, steps: 5_000_000 }, Fitness::Survived { steps: 0 }];
    let parents = select_parents(&scores, 40, &mut rng).unwrap();
    assert_eq!(parents, vec![1; 40]);
}

#[test]
fn scores_compare_exactly() {
    let grew = Fitness::Grew { len: 2, steps: 20 };
    let survived = Fitness::Survived { steps: 1000 };
    let same = Fitness::Grew { len: 4, steps: 40 };
    assert!(!grew.exceeds(&survived));
    assert!(!survived.exceeds(&grew));
    assert!(!grew.exceeds(&same));
    assert!(Fitness::Survived { steps: 1001 }.exceeds(&grew));
    assert!(Fitness::Grew { len: 3, steps: 20 }.exceeds(&same));
    assert!(Fitness::Grew { len: 2, steps: 0 }.exceeds(&Fitness::Survived { steps: u64::MAX }));
}

#[test]
fn ranking_puts_best_first_and_keeps_ties_in_order() {
    let scores = vec![
        Fitness::Survived { steps: 3 },
        Fitness::Grew { len: 2, steps: 10 },
        Fitness::Survived { steps: 3 },
        Fitness::Survived { steps: 7 },
        Fitness::Grew { len: 4, steps: 20 },
    ];
    assert_eq!(rank(&scores), vec![1, 4, 3, 0, 2]);
    assert_eq!(rank(&vec![]), Vec::<usize>::new());
}

#[test]
fn roulette_stops_where_the_running_sum_reaches_the_draw() {
    let w = vec![5, 3, 0, 2];
    assert_eq!(roulette(&w, 0), 0);
    assert_eq!(roulette(&w, 5), 0);
    assert_eq!(roulette(&w, 6), 1);
    assert_eq!(roulette(&w, 8), 1);
    assert_eq!(roulette(&w, 9), 3);
}

#[test]
fn selection_from_an_empty_pool_fails() {
    let mut rng = StdRng::seed_from_u64(11);
    assert_eq!(select_parents(&vec![], 4, &mut rng), Err(SelectionError::EmptySelectionPool));
}

#[test]
fn selection_with_zero_total_returns_every_offspring() {
    let mut rng = StdRng::seed_from_u64(12);
    let scores = vec![Fitness::Survived { steps: 0 }; 6];
    let parents = select_parents(&scores, 6, &mut rng).unwrap();
    assert_eq!(parents.len(), 6);
    assert!(parents.iter().all(|&p| p < 6));
    let more = select_parents(&scores, 500, &mut rng).unwrap();
    assert_eq!(more.len(), 500);
    for i in 0..6 {
        assert!(more.contains(&i));
    }
}

#[test]
fn selection_never_picks_a_zero_score_parent() {
    let mut rng = StdRng::seed_from_u64(13);
    let scores = vec![Fitness::Survived { steps: 0 }, Fitness::Grew { len: 2, steps: 10 }, Fitness::Survived { steps: 0 }];
    let parents = select_parents(&scores, 50, &mut rng).unwrap();
    assert_eq!(parents, vec![1; 50]);
}

#[test]
fn selection_follows_the_weights() {
    let mut rng = StdRng::seed_from_u64(14);
    let scores = vec![Fitness::Survived { steps: 100 }, Fitness::Survived { steps: 300 }];
    let parents = select_parents(&scores, 4000, &mut rng).unwrap();
    let ones = parents.iter().filter(|&&p| p == 1).count();
    assert!(ones > 2800 && ones < 3200, "{} of 4000", ones);
}

#[test]
fn champion_keeps_the_best_score_seen() {
    let mut c = Champion::new();
    assert!(!c.consider(Fitness::Survived { steps: 0 }));
    assert_eq!(c.best, None);
    assert!(c.consider(Fitness::Survived { steps: 10 }));
    assert!(!c.consider(Fitness::Survived { steps: 10 }));
    assert!(!c.consider(Fitness::Survived { steps: 5 }));
    assert!(c.consider(Fitness::Grew { len: 2, steps: 50 }));
    assert_eq!(c.best, Some(Fitness::Grew { len: 2, steps: 50 }));
}

#[test]
fn population_plays_in_rounds() {
    let mut rng = StdRng::seed_from_u64(15);
    let mut pop = Population::new(3, &mut rng);
    assert_eq!(pop.games.len(), 3);
    assert!(pop.any_running());
    assert!(pop.round_due(5));
    assert!(!pop.round_due(0));
    let mut rounds = 0;
    while pop.round_due(30) {
        pop.advance_round(&vec![None, Some(Dir::Up), Some(Dir::Down)], &mut rng);
        rounds += 1;
    }
    assert_eq!(pop.rounds, rounds);
    assert!(rounds <= 30);
    assert!(!pop.any_running() || rounds == 30);
    let scores = pop.scores();
    for (g, s) in pop.games.iter().zip(scores.iter()) {
        assert_eq!(g.evaluate(), *s);
        assert!(g.steps <= rounds as u64);
    }
    assert_eq!(pop.games[1].snake.direction, Dir::Up);
}

#[test]
fn brain_has_the_configured_shape() {
    let mut rng = StdRng::seed_from_u64(16);
    let brain = Brain::new(&mut rng);
    assert_eq!(brain.nn.layer_sizes(), &[INPUTS, 16, OUTPUTS]);
    assert!(matches!(brain.nn.activation_function(), ActivationFunction::Tanh));
    assert!(brain.nn.predict(vec![0.0; INPUTS - 1]).is_err());
}

#[test]
fn predict_is_deterministic() {
    let mut rng = StdRng::seed_from_u64(17);
    let brain = Brain::new(&mut rng);
    let g = game(&[(4, 7), (4, 8)], 3);
    let input = inputs(&g.sense());
    assert_eq!(input.len(), INPUTS);
    let a = brain.nn.predict(input.clone()).unwrap();
    let b = brain.nn.predict(input).unwrap();
    assert_eq!(a, b);
    assert_eq!(a.len(), OUTPUTS);
}

#[test]
fn mutation_at_rate_zero_changes_nothing() {
    let mut rng = StdRng::seed_from_u64(18);
    let mut brain = Brain::new(&mut rng);
    let before = serde_json::to_string(&brain.nn).unwrap();
    brain.nn.mutate(&mut rng, 0.0);
    assert_eq!(serde_json::to_string(&brain.nn).unwrap(), before);
}

#[test]
fn mutation_at_rate_one_changes_nearly_everything() {
    let mut rng = StdRng::seed_from_u64(19);
    let mut nn = NeuralNetwork::new(vec![40, 20, 10], Some(&mut rng)).unwrap();
    let before = scalars(&nn);
    assert!(before.len() >= 1000);
    nn.mutate(&mut rng, 1.0);
    let after = scalars(&nn);
    let changed = before.iter().zip(after.iter()).filter(|(a, b)| a != b).count();
    assert!(changed * 100 >= before.len() * 99, "{} of {}", changed, before.len());
}

#[test]
fn serialized_network_predicts_the_same() {
    let mut rng = StdRng::seed_from_u64(20);
    let brain = Brain::new(&mut rng);
    let text = serde_json::to_string(&brain.nn).unwrap();
    let back: NeuralNetwork = serde_json::from_str(&text).unwrap();
    let probes = [vec![0.0; INPUTS], vec![1.0; INPUTS], (0..INPUTS).map(|i| i as f64 / 7.0 - 1.0).collect()];
    for p in probes {
        assert_eq!(brain.nn.predict(p.clone()).unwrap(), back.predict(p).unwrap());
    }
}

#[test]
fn short_training_run_yields_a_usable_champion() {
    let mut rng = StdRng::seed_from_u64(21);
    let (size, generations, max_steps, rate) = (10usize, 3usize, 50usize, 0.1);
    let mut brains: Vec<Brain> = (0..size).map(|_| Brain::new(&mut rng)).collect();
    let mut trainer = Trainer::new(generations);
    let mut best_net: Option<NeuralNetwork> = None;
    let mut summaries = 0;
    while !trainer.finished() {
        let mut pop = Population::new(size, &mut rng);
        while pop.round_due(max_steps) {
            let decisions = pop
                .games
                .iter()
                .zip(brains.iter())
                .map(|(g, b)| if g.state == GameState::Running { decide(&b.nn, &g.upcoming_senses()) } else { None })
                .collect();
            pop.advance_round(&decisions, &mut rng);
        }
        let scores = pop.scores();
        let generation = trainer.close_generation(&scores, &mut rng).unwrap();
        assert!(scores.iter().all(|s| !s.exceeds(&scores[generation.best])));
        if generation.champion_improved {
            best_net = Some(brains[generation.best].nn.clone());
        }
        summaries += 1;
        assert_eq!(generation.parents.len(), size);
        brains = generation
            .parents
            .iter()
            .map(|&p| {
                let mut nn = brains[p].nn.clone();
                nn.mutate(&mut rng, rate);
                Brain { nn }
            })
            .collect();
    }
    assert_eq!(summaries, 3);
    assert_eq!(trainer.closed, 3);
    assert!(trainer.outcome().is_ok());
    let net = best_net.expect("a champion");
    let out = net.predict(vec![0.0; INPUTS]).unwrap();
    assert_eq!(out.len(), 4);
    assert!(out.iter().all(|x| x.is_finite()));
}

#[test]
fn closing_a_generation_picks_the_first_best_and_tracks_the_champion() {
    let mut rng = StdRng::seed_from_u64(22);
    let mut trainer = Trainer::new(2);
    assert!(!trainer.finished());
    let first = vec![Fitness::Survived { steps: 4 }, Fitness::Grew { len: 2, steps: 10 }, Fitness::Grew { len: 4, steps: 20 }];
    let g = trainer.close_generation(&first, &mut rng).unwrap();
    assert_eq!(g.best, 1);
    assert!(g.champion_improved);
    assert_eq!(g.parents.len(), 3);
    assert!(g.parents.iter().all(|&p| p < 3));
    let second = vec![Fitness::Grew { len: 3, steps: 15 }, Fitness::Survived { steps: 9 }];
    let g = trainer.close_generation(&second, &mut rng).unwrap();
    assert_eq!(g.best, 0);
    assert!(!g.champion_improved);
    assert_eq!(g.parents.len(), 2);
    assert!(trainer.finished());
    assert_eq!(trainer.outcome(), Ok(Fitness::Grew { len: 2, steps: 10 }));
}

#[test]
fn training_without_any_score_finds_no_champion() {
    let mut rng = StdRng::seed_from_u64(23);
    let mut trainer = Trainer::new(1);
    let g = trainer.close_generation(&vec![Fitness::Survived { steps: 0 }; 4], &mut rng).unwrap();
    assert_eq!(g.best, 0);
    assert!(!g.champion_improved);
    assert_eq!(g.parents.len(), 4);
    assert_eq!(trainer.outcome(), Err(TrainingError::NoChampionFound));
    assert_eq!(trainer.close_generation(&vec![], &mut rng).err(), Some(SelectionError::EmptySelectionPool));
    assert_eq!(trainer.closed, 1);
}
