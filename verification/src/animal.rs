//! The animal: a place, a heading, a speed, a count of meals, an eye and a
//! brain, and what one step of the simulation does to each of them.

use vstd::prelude::*;
use rand_chacha::ChaCha8Rng;
use crate::angle::{cosine, sin_cos, sine, wrap_wide_angle, wrapped_angle, PI};
use crate::config::Config;
use crate::brain::{genome_length, lemma_fitting_brain, Brain};
use crate::eye::{default_eye, lemma_vision_length, Eye};
use crate::food::{all_on_torus, Food};
use crate::genetic::Chromosome;
use crate::geometry::{distance, distance_between, wrapped_coordinate, Point};
use crate::random::{drawn_point, next_word, random_angle, random_point, unit, unit_of};
use crate::scalar::{
    clamp, clamped, difference, floor_div_mod, lemma_product_shrinks, product, sat_add, sat_mul,
    sat_sub, sum, Scalar, ONE,
};

verus! {

/// One animal.
#[derive(Debug)]
pub struct Animal {
    pub position: Point,
    pub rotation: Scalar,
    pub speed: Scalar,
    pub satiation: usize,
    pub eye: Eye,
    pub brain: Brain,
}

/// The speed that a random word stands for under these settings: the least
/// speed and the word's share of the span from there to the greatest.
pub open spec fn speed_of(word: u32, config: Config) -> Scalar {
    sum(config.speed_min, product(difference(config.speed_max, config.speed_min), unit_of(word)))
}

/// The speed after the brain has asked for the change `push`: the change is
/// limited to `speed_accel` either way, the result to the allowed speeds.
pub open spec fn steered_speed(speed: Scalar, push: Scalar, config: Config) -> Scalar {
    clamped(
        sum(speed, clamped(push, (-config.speed_accel) as i64, config.speed_accel)),
        config.speed_min,
        config.speed_max,
    )
}

/// The heading after the brain has asked for the turn `turn`: the turn is
/// limited to `rotation_accel` either way, and the heading is kept in
/// `[-PI, PI)`, whole turns being dropped.
pub open spec fn steered_rotation(rotation: Scalar, turn: Scalar, config: Config) -> Scalar {
    wrapped_angle(
        rotation + clamped(turn, (-config.rotation_accel) as i64, config.rotation_accel),
    )
}

/// The place reached in one step from `position` along `rotation` at `speed`.
/// Heading 0 points along the y axis, and a positive heading turns towards the
/// negative x axis. What leaves the world on one side enters it on the other.
pub open spec fn moved(position: Point, rotation: Scalar, speed: Scalar) -> Point {
    Point {
        x: wrapped_coordinate(position.x + product((-sine(rotation)) as i64, speed)),
        y: wrapped_coordinate(position.y + product(cosine(rotation), speed)),
    }
}

/// Whether food is near enough to `position` to be eaten: no farther than
/// `range`.
pub open spec fn in_reach(position: Point, food: Food, range: Scalar) -> bool {
    distance_between(position, food.position) <= range
}

/// How many of `foods` are in reach of `position`.
pub open spec fn meals(position: Point, foods: Seq<Food>, range: Scalar) -> nat
    decreases foods.len(),
{
    if foods.len() == 0 {
        0
    } else {
        meals(position, foods.drop_last(), range) + if in_reach(position, foods.last(), range) {
            1nat
        } else {
            0nat
        }
    }
}

/// What an animal at `position` leaves of the food `before`: every item in
/// its reach has come back at a place drawn at random, every item out of its
/// reach stays where it was, and every item is on the torus.
pub open spec fn fed(position: Point, before: Seq<Food>, after: Seq<Food>, range: Scalar) -> bool {
    &&& after.len() == before.len()
    &&& all_on_torus(after)
    &&& forall|j: int|
        0 <= j < before.len() ==> if in_reach(position, #[trigger] before[j], range) {
            drawn_point(after[j].position)
        } else {
            after[j] == before[j]
        }
}

/// A count of meals after `more` of them, held at the greatest count.
pub open spec fn satiated(satiation: usize, more: nat) -> usize {
    if satiation + more > usize::MAX {
        usize::MAX
    } else {
        (satiation + more) as usize
    }
}

impl Animal {
    /// The animal is on the torus, its eye is well formed, and its brain fits
    /// its eye.
    pub open spec fn wf(self) -> bool {
        &&& self.position.on_torus()
        &&& self.eye.wf()
        &&& self.brain.fits(self.eye)
    }

    /// What the brain answers to what the eye senses of `foods`.
    pub open spec fn response(self, foods: Seq<Food>) -> Seq<Scalar> {
        self.brain.nn.outputs(self.eye.vision(self.position, self.rotation, foods))
    }

    /// The animal after its brain has steered it: the first output changes
    /// the speed, the second the heading.
    pub open spec fn after_thinking(self, foods: Seq<Food>, config: Config) -> Animal {
        Animal {
            speed: steered_speed(self.speed, self.response(foods)[0], config),
            rotation: steered_rotation(self.rotation, self.response(foods)[1], config),
            ..self
        }
    }

    /// The animal after it has moved one step.
    pub open spec fn after_moving(self) -> Animal {
        Animal { position: moved(self.position, self.rotation, self.speed), ..self }
    }

    /// The animal after it has eaten what was in its reach of `foods`.
    pub open spec fn after_eating(self, foods: Seq<Food>, range: Scalar) -> Animal {
        Animal { satiation: satiated(self.satiation, meals(self.position, foods, range)), ..self }
    }

    /// An animal that has eaten nothing yet.
    pub fn new(position: Point, rotation: Scalar, speed: Scalar, eye: Eye, brain: Brain) -> (animal:
        Animal)
        requires
            position.on_torus(),
            eye.wf(),
            brain.fits(eye),
        ensures
            animal.position == position,
            animal.rotation == rotation,
            animal.speed == speed,
            animal.satiation == 0,
            animal.eye == eye,
            animal.brain == brain,
            animal.wf(),
    {
        Animal { position, rotation, speed, satiation: 0, eye, brain }
    }

    /// An animal with the default eye and a random brain, at a random place
    /// with a random heading and a random speed that the settings allow.
    pub fn random(rng: &mut ChaCha8Rng, config: &Config) -> (animal: Animal)
        requires
            config.wf(),
        ensures
            animal.wf(),
            animal.satiation == 0,
            config.speed_min <= animal.speed <= config.speed_max,
            -PI <= animal.rotation < PI,
            animal.eye == default_eye(),
            animal.brain.nn.within_unit(),
    {
        let eye: Eye = Eye::default();
        let brain: Brain = Brain::random(rng, &eye);
        let position: Point = random_point(rng);
        let rotation: Scalar = random_angle(rng);
        let speed: Scalar = random_speed(rng, config);
        Animal { position, rotation, speed, satiation: 0, eye, brain }
    }

    /// An animal with the given eye and the brain that `chromosome` holds, at
    /// a random place with a random heading and a random speed that the
    /// settings allow. The chromosome must have the length that the eye asks
    /// for.
    pub fn from_chromosome(
        chromosome: Chromosome,
        eye: Eye,
        rng: &mut ChaCha8Rng,
        config: &Config,
    ) -> (animal: Animal)
        requires
            eye.wf(),
            config.wf(),
            chromosome.len() == genome_length(eye.cells),
        ensures
            animal.wf(),
            animal.satiation == 0,
            config.speed_min <= animal.speed <= config.speed_max,
            -PI <= animal.rotation < PI,
            animal.eye == eye,
            animal.brain.genes() == chromosome@,
    {
        let brain: Brain = Brain::from_chromosome(chromosome, &eye);
        let position: Point = random_point(rng);
        let rotation: Scalar = random_angle(rng);
        let speed: Scalar = random_speed(rng, config);
        Animal { position, rotation, speed, satiation: 0, eye, brain }
    }

    /// The genes of the brain.
    pub fn as_chromosome(&self) -> (c: Chromosome)
        ensures
            c@ == self.brain.genes(),
    {
        self.brain.as_chromosome()
    }

    /// Where the animal is.
    pub fn position(&self) -> (p: Point)
        ensures
            p == self.position,
    {
        self.position
    }

    /// The heading, in `[-PI, PI)` once the animal has been steered.
    pub fn rotation(&self) -> (r: Scalar)
        ensures
            r == self.rotation,
    {
        self.rotation
    }

    /// How far the animal goes in one step.
    pub fn speed(&self) -> (s: Scalar)
        ensures
            s == self.speed,
    {
        self.speed
    }

    /// How many meals the animal has had in this generation.
    pub fn satiation(&self) -> (n: usize)
        ensures
            n == self.satiation,
    {
        self.satiation
    }

    /// Eats what is no farther than `range`: each such item counts as one meal
    /// and comes back at a random place.
    pub fn eat(&mut self, foods: &mut Vec<Food>, rng: &mut ChaCha8Rng, range: Scalar)
        requires
            old(self).position.on_torus(),
            all_on_torus(old(foods)@),
        ensures
            fed(old(self).position, old(foods)@, final(foods)@, range),
            *final(self) == old(self).after_eating(old(foods)@, range),
    {
        let position: Point = self.position;
        let mut count: usize = 0;
        let mut j: usize = 0;
        proof {
            assert(old(foods)@.take(0) =~= Seq::<Food>::empty());
        }
        while j < foods.len()
            invariant
                j <= foods.len(),
                position.on_torus(),
                foods.len() == old(foods).len(),
                all_on_torus(foods@),
                forall|k: int| j <= k < foods.len() ==> foods[k] == old(foods)[k],
                forall|k: int|
                    0 <= k < j ==> if in_reach(position, #[trigger] old(foods)[k], range) {
                        drawn_point(foods[k].position)
                    } else {
                        foods[k] == old(foods)[k]
                    },
                count == meals(position, old(foods)@.take(j as int), range),
                count <= j,
            decreases foods.len() - j,
        {
            proof {
                assert(old(foods)@.take(j + 1).drop_last() =~= old(foods)@.take(j as int));
                assert(old(foods)@.take(j + 1).last() == old(foods)[j as int]);
                assert(foods[j as int].position.on_torus());
            }
            let target: Point = foods[j].position;
            let d: Scalar = distance(&position, &target);
            if d <= range {
                let fresh: Food = Food::random(rng);
                foods.set(j, fresh);
                count += 1;
            }
            j += 1;
        }
        proof {
            assert(old(foods)@.take(foods.len() as int) =~= old(foods)@);
        }
        self.satiation = if count > usize::MAX - self.satiation {
            usize::MAX
        } else {
            self.satiation + count
        };
    }

    /// Lets the brain steer: it sees `foods` through the eye and changes the
    /// speed and the heading.
    pub fn think(&mut self, foods: &[Food], config: &Config)
        requires
            old(self).wf(),
            all_on_torus(foods@),
            config.wf(),
        ensures
            *final(self) == old(self).after_thinking(foods@, *config),
            final(self).wf(),
    {
        proof {
            lemma_fitting_brain(self.brain, self.eye);
            lemma_vision_length(self.eye, self.position, self.rotation, foods@);
        }
        let vision: Vec<Scalar> = self.eye.process_vision(self.position, self.rotation, foods);
        let response: Vec<Scalar> = self.brain.nn.propagate(vision);
        let push: Scalar = clamp(response[0], -config.speed_accel, config.speed_accel);
        let turn: Scalar = clamp(response[1], -config.rotation_accel, config.rotation_accel);
        self.speed = clamp(sat_add(self.speed, push), config.speed_min, config.speed_max);
        self.rotation = wrap_wide_angle(self.rotation as i128 + turn as i128);
    }

    /// Moves one step along the heading.
    pub fn advance(&mut self)
        requires
            old(self).wf(),
        ensures
            *final(self) == old(self).after_moving(),
            final(self).wf(),
    {
        let (s, c): (Scalar, Scalar) = sin_cos(self.rotation);
        let dx: Scalar = sat_mul(-s, self.speed);
        let dy: Scalar = sat_mul(c, self.speed);
        self.position = Point {
            x: wrap_sum(self.position.x, dx),
            y: wrap_sum(self.position.y, dy),
        };
    }
}

/// The speed that a random word stands for under these settings.
pub fn speed_for(word: u32, config: &Config) -> (s: Scalar)
    requires
        config.wf(),
    ensures
        s == speed_of(word, *config),
        config.speed_min <= s <= config.speed_max,
{
    let span: Scalar = sat_sub(config.speed_max, config.speed_min);
    let share: Scalar = unit(word);
    proof {
        lemma_product_shrinks(span, share);
    }
    sat_add(config.speed_min, sat_mul(span, share))
}

/// Draws a speed that the settings allow.
pub fn random_speed(rng: &mut ChaCha8Rng, config: &Config) -> (s: Scalar)
    requires
        config.wf(),
    ensures
        config.speed_min <= s <= config.speed_max,
        exists|word: u32| s == speed_of(word, *config),
{
    let word: u32 = next_word(rng);
    speed_for(word, config)
}

/// The coordinate reached from `from` by the step `by`.
pub fn wrap_sum(from: Scalar, by: Scalar) -> (r: Scalar)
    ensures
        r == wrapped_coordinate(from + by),
        0 <= r < ONE,
{
    let (_whole, part): (i128, i128) = floor_div_mod(from as i128 + by as i128, ONE as i128);
    part as i64
}

/// An animal that moves always lands on the torus, whatever its place, its
/// heading and its speed.
pub proof fn lemma_moved_on_torus(position: Point, rotation: Scalar, speed: Scalar)
    ensures
        moved(position, rotation, speed).on_torus(),
{
    vstd::arithmetic::div_mod::lemma_mod_bound(
        position.x + product((-sine(rotation)) as i64, speed),
        ONE as int,
    );
    vstd::arithmetic::div_mod::lemma_mod_bound(
        position.y + product(cosine(rotation), speed),
        ONE as int,
    );
}

/// A coordinate that a step carries past the edge of the world comes back in
/// at the other edge: past 1 it is the sum less 1, below 0 the sum and 1.
pub proof fn lemma_wrap_past_edge(from: Scalar, by: Scalar)
    requires
        0 <= from < ONE,
        -ONE <= by <= ONE,
    ensures
        from + by >= ONE ==> wrapped_coordinate(from + by) == from + by - ONE,
        0 <= from + by < ONE ==> wrapped_coordinate(from + by) == from + by,
        from + by < 0 ==> wrapped_coordinate(from + by) == from + by + ONE,
{
    let v = from + by;
    if v >= ONE {
        vstd::arithmetic::div_mod::lemma_fundamental_div_mod_converse(v, ONE as int, 1, v - ONE);
    } else if v >= 0 {
        vstd::arithmetic::div_mod::lemma_fundamental_div_mod_converse(v, ONE as int, 0, v);
    } else {
        vstd::arithmetic::div_mod::lemma_fundamental_div_mod_converse(v, ONE as int, -1, v + ONE);
    }
}

/// An animal that finds one item of food, and that in its reach, has one meal
/// more afterwards, and the item has come back at a place drawn at random.
pub proof fn lemma_one_meal(animal: Animal, food: Food, range: Scalar)
    requires
        in_reach(animal.position, food, range),
        animal.satiation < usize::MAX,
    ensures
        animal.after_eating(seq![food], range).satiation == animal.satiation + 1,
        forall|after: Seq<Food>|
            fed(animal.position, seq![food], after, range) ==> after.len() == 1 && drawn_point(
                (#[trigger] after[0]).position,
            ),
{
    assert forall|after: Seq<Food>| fed(animal.position, seq![food], after, range) implies after.len()
        == 1 && drawn_point((#[trigger] after[0]).position) by {
        assert(seq![food][0] == food);
    }
    assert(seq![food].drop_last() =~= Seq::<Food>::empty());
    assert(meals(animal.position, seq![food].drop_last(), range) == 0);
}

} // verus!
