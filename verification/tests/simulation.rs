use lib_simulation::angle::{HALF_PI, PI};
use lib_simulation::animal::{speed_for, wrap_sum, Animal};
use lib_simulation::animal_individual::AnimalIndividual;
use lib_simulation::brain::Brain;
use lib_simulation::config::{
    Config, EAT_RANGE, GENERATION_LENGTH, ROTATION_ACCEL, SPEED_ACCEL, SPEED_MAX, SPEED_MIN,
};
use lib_simulation::eye::Eye;
use lib_simulation::food::Food;
use lib_simulation::geometry::Point;
use lib_simulation::scalar::ONE;
use lib_simulation::genetic::{GaussianMutation, GeneticAlgorithm, RouletteWheelSelection, UniformCrossover};
use lib_simulation::simulation::{Simulation, MUTATION_CHANCE, MUTATION_COEFF};
use lib_simulation::world::World;
use rand::SeedableRng;
use rand_chacha::ChaCha8Rng;

fn at(x: f64, y: f64) -> Point {
    Point { x: (x * 4294967296.0).floor() as i64, y: (y * 4294967296.0).floor() as i64 }
}

fn as_float(raw: i64) -> f64 {
    raw as f64 / 4294967296.0
}

fn on_torus(p: Point) -> bool {
    0 <= p.x && p.x < ONE && 0 <= p.y && p.y < ONE
}

const INITIAL_SPEED: i64 = 8589934;

fn animal_at(rng: &mut ChaCha8Rng, position: Point, rotation: i64) -> Animal {
    let eye = Eye::default();
    let brain = Brain::random(rng, &eye);
    Animal::new(position, rotation, INITIAL_SPEED, eye, brain)
}

/// A brain that always asks for the same change of speed and of heading.
fn steady_brain(push: i64, turn: i64) -> Brain {
    let mut genes = vec![0; (9 + 1) * 18 + (18 + 1) * 2];
    genes[180] = push;
    genes[199] = turn;
    Brain::from_chromosome(genes, &Eye::default())
}

fn small_world(rng: &mut ChaCha8Rng) -> World {
    World {
        animals: (0..3).map(|_| Animal::random(rng, &Config::default())).collect(),
        foods: vec![Food::random(rng), Food::random(rng), Food::random(rng), Food::random(rng)],
    }
}

#[test]
fn the_constants() {
    assert_eq!(GENERATION_LENGTH, 2500);
    assert_eq!(SPEED_MIN, 4294967);
    assert_eq!(SPEED_MAX, 21474836);
    assert_eq!(SPEED_ACCEL, 858993459);
    assert_eq!(ROTATION_ACCEL, HALF_PI);
    assert_eq!(EAT_RANGE, 55834574);
    assert_eq!(MUTATION_CHANCE, 42949672);
    assert_eq!(MUTATION_COEFF, 1288490188);
    assert!((as_float(SPEED_MIN) - 0.001).abs() < 1e-9 && (as_float(SPEED_MAX) - 0.005).abs() < 1e-9);
    assert!((as_float(EAT_RANGE) - 0.013).abs() < 1e-9 && (as_float(SPEED_ACCEL) - 0.2).abs() < 1e-9);
    assert!((as_float(MUTATION_CHANCE) - 0.01).abs() < 1e-9 && (as_float(MUTATION_COEFF) - 0.3).abs() < 1e-9);
    assert!((as_float(PI) - std::f64::consts::PI).abs() < 1e-9);
}

#[test]
fn a_random_word_gives_an_allowed_speed() {
    let config = Config::default();
    assert_eq!(speed_for(0, &config), SPEED_MIN);
    assert_eq!(speed_for(1 << 31, &config), SPEED_MIN + (SPEED_MAX - SPEED_MIN) / 2);
    assert_eq!(speed_for(u32::MAX, &config), SPEED_MAX - 2);
    let wide = Config::new(5, i64::MIN, i64::MAX, 0, 0, 0).unwrap();
    assert_eq!(speed_for(0, &wide), i64::MIN);
    assert_eq!(speed_for(1 << 31, &wide), -(1i64 << 62) - 1);
    let fixed = Config::new(5, 7, 7, 0, 0, 0).unwrap();
    assert_eq!(speed_for(u32::MAX, &fixed), 7);
}

#[test]
fn settings_are_checked() {
    let config = Config::default();
    assert_eq!(config.generation_length, GENERATION_LENGTH);
    assert_eq!((config.speed_min, config.speed_max), (SPEED_MIN, SPEED_MAX));
    assert_eq!((config.speed_accel, config.rotation_accel), (SPEED_ACCEL, ROTATION_ACCEL));
    assert_eq!(config.eat_range, EAT_RANGE);
    let made = Config::new(10, 1, 2, 3, 4, 5).unwrap();
    assert_eq!(made.generation_length, 10);
    assert_eq!((made.speed_min, made.speed_max, made.speed_accel), (1, 2, 3));
    assert_eq!((made.rotation_accel, made.eat_range), (4, 5));
    assert!(Config::new(10, 2, 2, 0, 0, -1).is_some());
    assert!(Config::new(10, 3, 2, 3, 4, 5).is_none());
    assert!(Config::new(10, 1, 2, -1, 4, 5).is_none());
    assert!(Config::new(10, 1, 2, 3, -1, 5).is_none());
    assert!(Config::new(usize::MAX, 1, 2, 3, 4, 5).is_none());
}

#[test]
fn settings_rule_the_simulation() {
    let mut rng = ChaCha8Rng::seed_from_u64(12);
    let eye = Eye::default();
    let animal = Animal::new(at(0.5, 0.5), 0, ONE / 100, eye, steady_brain(ONE, ONE));
    let food = Food { position: at(0.5, 0.7) };
    let world = World { animals: vec![animal], foods: vec![food] };
    let ga = GeneticAlgorithm::new(RouletteWheelSelection, UniformCrossover, GaussianMutation::new(0, 0));
    let config = Config::new(2, ONE / 100, ONE / 10, ONE / 50, ONE / 8, ONE / 4).unwrap();
    let mut sim = Simulation::with_config(world, ga, config);
    assert_eq!(sim.config().generation_length, 2);
    let genes = sim.world().animals()[0].as_chromosome();

    assert!(sim.step(&mut rng).is_none());
    let animal = &sim.world().animals()[0];
    assert_eq!(animal.satiation(), 1);
    assert_eq!(animal.speed(), ONE / 100 + ONE / 50);
    assert_eq!(animal.rotation(), ONE / 8);
    assert!(sim.step(&mut rng).is_none());
    assert_eq!(sim.world().animals()[0].speed(), ONE / 100 + 2 * (ONE / 50));
    assert_eq!(sim.age(), 2);
    let stats = sim.step(&mut rng).unwrap();
    assert!(stats.min_fitness >= ONE && stats.min_fitness == stats.max_fitness);
    assert_eq!(stats.avg_fitness, stats.max_fitness);
    assert_eq!(sim.age(), 0);
    assert_eq!(sim.world().animals()[0].as_chromosome(), genes);
}

#[test]
fn a_random_simulation() {
    let mut rng = ChaCha8Rng::seed_from_u64(1);
    let sim = Simulation::random(&mut rng);
    assert_eq!(sim.age(), 0);
    assert_eq!(sim.config().generation_length, 2500);
    assert_eq!(sim.config().eat_range, EAT_RANGE);
    assert_eq!(sim.world().animals().len(), 40);
    assert_eq!(sim.world().foods().len(), 60);
    assert_eq!(sim.ga.mutation_method.chance, MUTATION_CHANCE);
    assert_eq!(sim.ga.mutation_method.coeff, MUTATION_COEFF);
    for animal in sim.world().animals() {
        assert!(on_torus(animal.position()));
        assert!(-PI <= animal.rotation() && animal.rotation() < PI);
        assert!(SPEED_MIN <= animal.speed() && animal.speed() <= SPEED_MAX);
        assert_eq!(animal.satiation(), 0);
        assert_eq!(animal.as_chromosome().len(), 218);
    }
    assert!(sim.world().foods().iter().all(|f| on_torus(f.position()) && f.position().y % 256 == 0));
    assert!(sim.world().animals().iter().all(|a| a.as_chromosome().iter().all(|g| -ONE <= *g && *g < ONE)));
    let first = sim.world().animals()[0].position();
    assert!(sim.world().animals().iter().any(|a| a.position().x != first.x));
}

#[test]
fn an_animal_eats_the_food_in_its_reach() {
    let mut rng = ChaCha8Rng::seed_from_u64(2);
    let animal = animal_at(&mut rng, at(0.5, 0.5), 0);
    let near = at(0.5, 0.505);
    let world = World { animals: vec![animal], foods: vec![Food { position: near }] };
    let mut sim = Simulation::new(world);
    assert_eq!(sim.world().animals()[0].satiation(), 0);

    let stats = sim.step(&mut rng);

    assert!(stats.is_none());
    assert_eq!(sim.world().animals()[0].satiation(), 1);
    assert_eq!(sim.world().foods().len(), 1);
    let moved = sim.world().foods()[0].position();
    assert!(moved.x != near.x || moved.y != near.y);
    assert!(on_torus(moved));
    // The food lies where the two words drawn next put it.
    let mut again = ChaCha8Rng::seed_from_u64(2);
    animal_at(&mut again, at(0.5, 0.5), 0);
    let drawn = Food::random(&mut again).position();
    assert_eq!((moved.x, moved.y), (drawn.x, drawn.y));
    assert!(moved.x % 256 == 0 && moved.y % 256 == 0);
    assert_eq!(sim.age(), 1);
}

#[test]
fn food_out_of_reach_stays() {
    let mut rng = ChaCha8Rng::seed_from_u64(3);
    let animal = animal_at(&mut rng, at(0.5, 0.5), 0);
    let edge = Point { x: ONE / 2, y: ONE / 2 + EAT_RANGE };
    let beyond = Point { x: ONE / 2, y: ONE / 2 + EAT_RANGE + 1 };
    let world = World {
        animals: vec![animal],
        foods: vec![Food { position: beyond }, Food { position: edge }, Food { position: at(0.1, 0.9) }],
    };
    let mut sim = Simulation::new(world);
    sim.process_collisions(&mut rng);
    assert_eq!(sim.world().animals()[0].satiation(), 1);
    let foods = sim.world().foods();
    assert_eq!((foods[0].position().x, foods[0].position().y), (beyond.x, beyond.y));
    assert!(foods[1].position().x != edge.x || foods[1].position().y != edge.y);
    assert_eq!(foods[2].position().x, at(0.1, 0.9).x);
    assert_eq!(sim.age(), 0);
}

#[test]
fn every_animal_in_reach_eats_in_turn() {
    let mut rng = ChaCha8Rng::seed_from_u64(4);
    let first = animal_at(&mut rng, at(0.5, 0.5), 0);
    let second = animal_at(&mut rng, at(0.5, 0.5), 0);
    let mut foods = vec![Food { position: at(0.5, 0.5) }; 3];
    foods.push(Food { position: at(0.9, 0.9) });
    let mut first_alone = animal_at(&mut rng, at(0.5, 0.5), 0);
    let mut copy = foods.clone();
    first_alone.eat(&mut copy, &mut rng, EAT_RANGE);
    assert_eq!(first_alone.satiation(), 3);
    assert_eq!(copy[3].position().x, at(0.9, 0.9).x);
    let world = World { animals: vec![first, second], foods };
    let mut sim = Simulation::new(world);
    sim.process_collisions(&mut rng);
    assert_eq!(sim.world().animals()[0].satiation(), 3);
    assert_eq!(sim.world().animals()[1].satiation(), 0);
    assert_eq!(sim.world().foods().len(), 4);
}

#[test]
fn the_count_of_meals_stops_at_the_greatest() {
    let mut rng = ChaCha8Rng::seed_from_u64(5);
    let mut animal = animal_at(&mut rng, at(0.5, 0.5), 0);
    animal.satiation = usize::MAX;
    let mut foods = vec![Food { position: at(0.5, 0.5) }];
    animal.eat(&mut foods, &mut rng, EAT_RANGE);
    assert_eq!(animal.satiation(), usize::MAX);
}

#[test]
fn the_brain_steers_within_its_limits() {
    let eye = Eye::default();
    let mut animal = Animal::new(at(0.5, 0.5), 0, INITIAL_SPEED, eye, steady_brain(ONE, ONE / 4));
    animal.think(&[], &Config::default());
    assert_eq!(animal.speed(), SPEED_MAX);
    assert_eq!(animal.rotation(), ONE / 4);
    animal.think(&[], &Config::default());
    assert_eq!(animal.rotation(), ONE / 2);

    let mut animal = Animal::new(at(0.5, 0.5), PI - 5, SPEED_MIN, eye, steady_brain(ONE / 1024, 10 * ONE));
    animal.think(&[], &Config::default());
    assert_eq!(animal.speed(), SPEED_MIN + ONE / 1024);
    assert_eq!(animal.rotation(), -PI - 5 + HALF_PI);

    let mut animal = Animal::new(at(0.5, 0.5), 7, INITIAL_SPEED, eye, steady_brain(-ONE, -ONE));
    animal.think(&[], &Config::default());
    assert_eq!(animal.speed(), INITIAL_SPEED);
    assert_eq!(animal.rotation(), 7);
    animal.speed = 0;
    animal.think(&[], &Config::default());
    assert_eq!(animal.speed(), SPEED_MIN);
}

#[test]
fn what_the_eye_sees_reaches_the_brain() {
    let eye = Eye::default();
    let mut genes = vec![0; 218];
    // The first hidden neuron listens to the middle sector, the first output to it.
    genes[5] = ONE / 256;
    genes[181] = ONE;
    let brain = Brain::from_chromosome(genes, &eye);
    let mut animal = Animal::new(at(0.5, 0.5), 0, SPEED_MIN, eye, brain);
    animal.think(&[Food { position: at(0.5, 0.625) }], &Config::default());
    assert_eq!(animal.speed(), SPEED_MIN + ONE / 512);
    animal.speed = SPEED_MIN;
    animal.think(&[Food { position: at(0.625, 0.5) }], &Config::default());
    assert_eq!(animal.speed(), SPEED_MIN);
}

#[test]
fn an_animal_moves_along_its_heading() {
    let eye = Eye::default();
    let mut animal = Animal::new(at(0.5, 0.5), 0, SPEED_MAX, eye, steady_brain(0, 0));
    animal.advance();
    assert_eq!((animal.position().x, animal.position().y), (ONE / 2, ONE / 2 + SPEED_MAX));
    animal.rotation = HALF_PI;
    animal.advance();
    assert_eq!((animal.position().x, animal.position().y), (ONE / 2 - SPEED_MAX, ONE / 2 + SPEED_MAX));
    animal.rotation = -PI;
    animal.advance();
    assert_eq!((animal.position().x, animal.position().y), (ONE / 2 - SPEED_MAX, ONE / 2));
    let mut animal = Animal::new(at(0.5, 0.5), ONE / 4, SPEED_MAX, eye, steady_brain(0, 0));
    animal.advance();
    let dx = as_float(animal.position().x) - 0.5;
    let dy = as_float(animal.position().y) - 0.5;
    assert!((dx + 0.25f64.sin() * as_float(SPEED_MAX)).abs() < 1e-9);
    assert!((dy - 0.25f64.cos() * as_float(SPEED_MAX)).abs() < 1e-9);
}

#[test]
fn an_animal_that_leaves_the_world_comes_back_on_the_other_side() {
    let eye = Eye::default();
    let mut animal = Animal::new(at(0.5, 0.999), 0, SPEED_MAX, eye, steady_brain(0, 0));
    assert_eq!(animal.position().y, 4290672328);
    animal.advance();
    assert_eq!(animal.position().y, 17179868);
    assert_eq!(animal.position().x, ONE / 2);
    assert!((as_float(animal.position().y) - 0.004).abs() < 1e-9);

    let mut animal = Animal::new(at(0.0, 0.5), -HALF_PI, SPEED_MAX, eye, steady_brain(0, 0));
    animal.rotation = HALF_PI;
    animal.advance();
    assert_eq!(animal.position().x, ONE - SPEED_MAX);
    assert_eq!(wrap_sum(ONE - 1, 1), 0);
    assert_eq!(wrap_sum(0, -1), ONE - 1);
    assert_eq!(wrap_sum(ONE - 1, i64::MAX), (ONE - 1 + (i64::MAX % ONE)) % ONE);

    let mut rng = ChaCha8Rng::seed_from_u64(6);
    let mut sim = Simulation::random(&mut rng);
    for animal in sim.world.animals.iter_mut() {
        animal.speed = i64::MAX;
    }
    sim.process_movements();
    assert!(sim.world().animals().iter().all(|a| on_torus(a.position())));
}

#[test]
fn a_generation_ends_after_its_last_step() {
    let mut rng = ChaCha8Rng::seed_from_u64(7);
    let mut sim = Simulation::new(small_world(&mut rng));
    for step in 0..GENERATION_LENGTH {
        assert!(sim.step(&mut rng).is_none(), "step {}", step);
        assert_eq!(sim.age(), step + 1);
    }
    let meals: Vec<usize> = sim.world().animals().iter().map(|a| a.satiation()).collect();
    let stats = sim.step(&mut rng);
    assert!(stats.is_some());
    assert_eq!(sim.age(), 0);
    assert_eq!(sim.world().animals().len(), 3);
    assert_eq!(sim.world().foods().len(), 4);
    assert!(sim.world().animals().iter().all(|a| a.satiation() == 0));
    assert!(sim.world().animals().iter().all(|a| SPEED_MIN <= a.speed() && a.speed() <= SPEED_MAX));
    let stats = stats.unwrap();
    assert!(stats.min_fitness >= *meals.iter().min().unwrap() as i64 * ONE);
    assert!(stats.max_fitness <= (*meals.iter().max().unwrap() as i64 + 4) * ONE);
    assert!(sim.step(&mut rng).is_none());
    assert_eq!(sim.age(), 1);
}

#[test]
fn training_runs_to_the_end_of_the_generation() {
    let mut rng = ChaCha8Rng::seed_from_u64(8);
    let mut sim = Simulation::new(small_world(&mut rng));
    for _ in 0..2000 {
        sim.step(&mut rng);
    }
    let stats = sim.train(&mut rng);
    assert_eq!(sim.age(), 0);
    assert!(stats.min_fitness <= stats.avg_fitness && stats.avg_fitness <= stats.max_fitness);
    assert_eq!(sim.world().animals().len(), 3);
    for _ in 0..GENERATION_LENGTH {
        assert!(sim.step(&mut rng).is_none());
    }
    assert!(sim.step(&mut rng).is_some());
}

#[test]
fn training_is_stepping_to_the_end() {
    let mut rng = ChaCha8Rng::seed_from_u64(13);
    let mut trained = Simulation::new(small_world(&mut rng));
    let mut other = ChaCha8Rng::seed_from_u64(13);
    let mut walked = Simulation::new(small_world(&mut other));
    for _ in 0..700 {
        trained.step(&mut rng);
        walked.step(&mut other);
    }
    let stats = trained.train(&mut rng);
    let mut steps = 0;
    let ended = loop {
        steps += 1;
        if let Some(stats) = walked.step(&mut other) {
            break stats;
        }
    };
    assert_eq!(steps, GENERATION_LENGTH + 1 - 700);
    assert_eq!(
        (stats.min_fitness, stats.max_fitness, stats.avg_fitness),
        (ended.min_fitness, ended.max_fitness, ended.avg_fitness)
    );
    for (a, b) in trained.world().animals().iter().zip(walked.world().animals()) {
        assert_eq!((a.position().x, a.position().y), (b.position().x, b.position().y));
        assert_eq!((a.rotation(), a.speed()), (b.rotation(), b.speed()));
        assert_eq!(a.as_chromosome(), b.as_chromosome());
    }
    for (a, b) in trained.world().foods().iter().zip(walked.world().foods()) {
        assert_eq!((a.position().x, a.position().y), (b.position().x, b.position().y));
    }
}

#[test]
fn evolution_reports_the_generation_that_ends() {
    let mut rng = ChaCha8Rng::seed_from_u64(9);
    let mut world = small_world(&mut rng);
    world.animals[0].satiation = 2;
    world.animals[1].satiation = 1;
    world.animals[2].satiation = 6;
    let parents: Vec<Vec<i64>> = world.animals.iter().map(|a| a.as_chromosome()).collect();
    let foods: Vec<i64> = world.foods.iter().map(|f| f.position().x).collect();
    let mut sim = Simulation::new(world);
    sim.age = 17;
    let stats = sim.evolve(&mut rng);
    assert_eq!(stats.min_fitness, ONE);
    assert_eq!(stats.max_fitness, 6 * ONE);
    assert_eq!(stats.avg_fitness, 3 * ONE);
    assert_eq!(sim.age(), 0);
    assert_eq!(sim.world().animals().len(), 3);
    assert_eq!(sim.world().foods().len(), 4);
    assert!(sim.world().foods().iter().zip(&foods).all(|(f, x)| f.position().x != *x));
    assert!(sim.world().foods().iter().all(|f| f.position().x % 256 == 0 && on_torus(f.position())));
    for animal in sim.world().animals() {
        assert_eq!(animal.satiation(), 0);
        let genes = animal.as_chromosome();
        assert_eq!(genes.len(), 218);
        for (k, gene) in genes.iter().enumerate() {
            assert!(parents.iter().any(|p| (gene - p[k]).abs() <= MUTATION_COEFF));
        }
    }
}

#[test]
fn an_individual_keeps_meals_and_genes() {
    let mut rng = ChaCha8Rng::seed_from_u64(10);
    let mut animal = Animal::random(&mut rng, &Config::default());
    animal.satiation = 5;
    let individual = AnimalIndividual::from_animal(&animal);
    assert_eq!(individual.satiation, 5);
    assert_eq!(individual.chromosome, animal.as_chromosome());
    let eye = Eye::default();
    let child = individual.into_animal(eye, &mut rng, &Config::default());
    assert_eq!(child.satiation(), 0);
    assert_eq!(child.as_chromosome(), animal.as_chromosome());
    assert!(on_torus(child.position()));
    let plain = Animal::from_chromosome(vec![7; 218], eye, &mut rng, &Config::default());
    assert_eq!(plain.as_chromosome(), vec![7; 218]);
    assert_eq!(plain.satiation(), 0);
    assert!(SPEED_MIN <= plain.speed() && plain.speed() <= SPEED_MAX);
}

#[test]
fn a_full_world_steps() {
    let mut rng = ChaCha8Rng::seed_from_u64(11);
    let mut sim = Simulation::random(&mut rng);
    for _ in 0..20 {
        assert!(sim.step(&mut rng).is_none());
    }
    assert_eq!(sim.age(), 20);
    assert_eq!(sim.world().animals().len(), 40);
    assert_eq!(sim.world().foods().len(), 60);
    for animal in sim.world().animals() {
        assert!(on_torus(animal.position()));
        assert!(SPEED_MIN <= animal.speed() && animal.speed() <= SPEED_MAX);
        assert!(-PI <= animal.rotation() && animal.rotation() < PI);
    }
}
