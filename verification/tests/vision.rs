use lib_simulation::angle::{HALF_PI, PI};
use lib_simulation::brain::Brain;
use lib_simulation::eye::{Eye, CELLS, FOV_ANGLE, FOV_RANGE};
use lib_simulation::food::Food;
use lib_simulation::geometry::Point;
use lib_simulation::scalar::ONE;
use rand::SeedableRng;
use rand_chacha::ChaCha8Rng;

fn at(x: f64, y: f64) -> Point {
    Point { x: (x * 4294967296.0).floor() as i64, y: (y * 4294967296.0).floor() as i64 }
}

fn food(x: f64, y: f64) -> Food {
    Food { position: at(x, y) }
}

fn only(cell: usize, value: i64) -> Vec<i64> {
    let mut cells = vec![0; CELLS];
    cells[cell] = value;
    cells
}

#[test]
fn the_default_eye() {
    let eye = Eye::default();
    assert_eq!(eye.fov_range, FOV_RANGE);
    assert_eq!(eye.fov_range, ONE / 4);
    assert_eq!(eye.fov_angle, FOV_ANGLE);
    assert_eq!(eye.fov_angle, PI + PI / 4);
    assert_eq!(eye.cells(), 9);
    let eye = Eye::new(ONE / 2, PI, 3);
    assert_eq!((eye.fov_range, eye.fov_angle, eye.cells), (ONE / 2, PI, 3));
}

#[test]
fn an_eye_without_food_sees_nothing() {
    let eye = Eye::default();
    assert_eq!(eye.process_vision(at(0.5, 0.5), 0, &[]), vec![0; 9]);
}

#[test]
fn food_at_the_eye_has_intensity_one() {
    let eye = Eye::default();
    for heading in [0, HALF_PI, -HALF_PI, PI - 1, -PI, 1234567] {
        let cells = eye.process_vision(at(0.5, 0.5), heading, &[food(0.5, 0.5)]);
        assert_eq!(cells, only(4, ONE));
    }
}

#[test]
fn food_at_the_edge_of_the_range_has_intensity_zero() {
    let eye = Eye::default();
    assert_eq!(eye.process_vision(at(0.5, 0.5), 0, &[food(0.5, 0.75)]), vec![0; 9]);
    let one_nearer = Food { position: Point { x: ONE / 2, y: 3 * ONE / 4 - 1 } };
    assert_eq!(eye.process_vision(at(0.5, 0.5), 0, &[one_nearer]), only(4, 4));
}

#[test]
fn food_beyond_the_range_is_not_seen() {
    let eye = Eye::default();
    assert_eq!(eye.process_vision(at(0.5, 0.5), 0, &[food(0.5, 0.76), food(0.1, 0.9)]), vec![0; 9]);
}

#[test]
fn food_outside_the_field_of_view_is_not_seen() {
    let eye = Eye::default();
    assert_eq!(eye.process_vision(at(0.5, 0.5), 0, &[food(0.5, 0.4)]), vec![0; 9]);
    assert_eq!(eye.process_vision(at(0.5, 0.5), 0, &[food(0.45, 0.4), food(0.55, 0.4)]), vec![0; 9]);
    assert_eq!(eye.process_vision(at(0.5, 0.5), PI, &[food(0.5, 0.6)]), vec![0; 9]);
}

#[test]
fn intensity_falls_with_distance() {
    let eye = Eye::default();
    assert_eq!(eye.process_vision(at(0.5, 0.5), 0, &[food(0.5, 0.625)]), only(4, ONE / 2));
    assert_eq!(eye.process_vision(at(0.5, 0.5), 0, &[food(0.5, 0.5625)]), only(4, 3 * ONE / 4));
}

#[test]
fn the_angle_decides_the_sector() {
    let eye = Eye::default();
    // A positive angle lies towards the negative x axis.
    assert_eq!(eye.process_vision(at(0.5, 0.5), 0, &[food(0.375, 0.5)]), only(8, ONE / 2));
    assert_eq!(eye.process_vision(at(0.5, 0.5), 0, &[food(0.625, 0.5)]), only(0, ONE / 2));
    // Turning the eye a quarter turn to the left puts both of them elsewhere.
    assert_eq!(eye.process_vision(at(0.5, 0.5), HALF_PI, &[food(0.375, 0.5)]), only(4, ONE / 2));
    assert_eq!(eye.process_vision(at(0.5, 0.5), HALF_PI, &[food(0.5, 0.625)]), only(0, ONE / 2));
    assert_eq!(eye.process_vision(at(0.5, 0.5), -HALF_PI, &[food(0.5, 0.625)]), only(8, ONE / 2));
    for k in 0..9usize {
        let angle = -FOV_ANGLE / 2 + (2 * k as i64 + 1) * FOV_ANGLE / 18;
        assert_eq!(eye.sector_of(angle), k);
    }
    assert_eq!(eye.sector_of(-FOV_ANGLE / 2), 0);
    assert_eq!(eye.sector_of(FOV_ANGLE / 2), 8);
}

#[test]
fn food_in_one_sector_adds_up() {
    let eye = Eye::default();
    let foods = [food(0.5, 0.625), food(0.5, 0.5625), food(0.5, 0.5), food(0.625, 0.5), food(0.5, 0.1)];
    let mut expected = vec![0; 9];
    expected[4] = ONE / 2 + 3 * ONE / 4 + ONE;
    expected[0] = ONE / 2;
    assert_eq!(eye.process_vision(at(0.5, 0.5), 0, &foods), expected);
}

#[test]
fn relative_angles() {
    assert_eq!(Eye::relative_angle_to(at(0.5, 0.5), 0, at(0.5, 0.75)), 0);
    assert_eq!(Eye::relative_angle_to(at(0.5, 0.5), 0, at(0.25, 0.5)), HALF_PI);
    assert_eq!(Eye::relative_angle_to(at(0.5, 0.5), 0, at(0.75, 0.5)), -HALF_PI);
    assert_eq!(Eye::relative_angle_to(at(0.5, 0.5), 0, at(0.5, 0.25)), -PI);
    assert_eq!(Eye::relative_angle_to(at(0.5, 0.5), HALF_PI, at(0.5, 0.75)), -HALF_PI);
    assert_eq!(Eye::relative_angle_to(at(0.5, 0.5), i64::MAX, at(0.5, 0.5)), 0);
}

#[test]
fn a_brain_fits_its_eye() {
    let mut rng = ChaCha8Rng::seed_from_u64(1);
    let eye = Eye::new(ONE / 4, PI, 4);
    let topology = Brain::topology(&eye);
    assert_eq!(topology.iter().map(|t| t.neurons).collect::<Vec<_>>(), vec![4, 8, 2]);
    let brain = Brain::random(&mut rng, &eye);
    let genes = brain.as_chromosome();
    assert_eq!(genes.len(), (4 + 1) * 8 + (8 + 1) * 2);
    let copy = Brain::from_chromosome(genes.clone(), &eye);
    assert_eq!(copy.as_chromosome(), genes);
    assert_eq!(copy.nn.layers[0].neurons.len(), 8);
    assert_eq!(brain.nn.propagate(vec![ONE; 4]).len(), 2);
}
