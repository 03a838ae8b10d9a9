use genetic_algorithm::algorithm::uniform_length;
use genetic_algorithm::select::total_fitness;
use genetic_algorithm::{
    Chromosome, CrossoverMethod, GaussianMutation, GeneticAlgorithm, Individual, Layer,
    LayerTopology, MutationMethod, Network, Neuron, Prng, RouletteWheelSelection, Scalar,
    SelectionMethod, UniformCrossover,
};

/// Single-precision floating point as the engine's number type.
#[derive(Clone, Copy, Debug, PartialEq)]
struct Real(f32);

impl Scalar for Real {
    fn zero_value() -> Self {
        Self::zero()
    }

    fn one_value() -> Self {
        Self::one()
    }

    fn fraction_value(steps: u32) -> Self {
        Self::fraction(steps)
    }

    fn sum(self, rhs: Self) -> Self {
        self.plus(rhs)
    }

    fn difference(self, rhs: Self) -> Self {
        self.minus(rhs)
    }

    fn product(self, rhs: Self) -> Self {
        self.times(rhs)
    }

    fn below(self, rhs: Self) -> bool {
        self.less_than(rhs)
    }

    fn zero() -> Self {
        Real(0.0)
    }

    fn one() -> Self {
        Real(1.0)
    }

    fn fraction(steps: u32) -> Self {
        Real(steps as f32 / 8_388_608.0)
    }

    fn plus(self, rhs: Self) -> Self {
        Real(self.0 + rhs.0)
    }

    fn minus(self, rhs: Self) -> Self {
        Real(self.0 - rhs.0)
    }

    fn times(self, rhs: Self) -> Self {
        Real(self.0 * rhs.0)
    }

    fn less_than(self, rhs: Self) -> bool {
        self.0 < rhs.0
    }
}

fn reals(values: &[f32]) -> Vec<Real> {
    values.iter().map(|&value| Real(value)).collect()
}

fn chromosome(genes: &[f32]) -> Chromosome<Real> {
    Chromosome::new(reals(genes))
}

fn floats(chromosome: &Chromosome<Real>) -> Vec<f32> {
    chromosome.genes().iter().map(|gene| gene.0).collect()
}

struct Member {
    chromosome: Chromosome<Real>,
    fitness: f32,
}

impl Member {
    fn new(genes: &[f32], fitness: f32) -> Self {
        Member { chromosome: chromosome(genes), fitness }
    }
}

impl Individual<Real> for Member {
    fn genotype(&self) -> Chromosome<Real> {
        self.chromosome.clone()
    }

    fn score(&self) -> Real {
        Real(self.fitness)
    }

    fn chromosome(&self) -> &Chromosome<Real> {
        &self.chromosome
    }

    fn fitness(&self) -> Real {
        Real(self.fitness)
    }

    fn create(chromosome: Chromosome<Real>) -> Self {
        let fitness = chromosome.genes().iter().map(|gene| gene.0).sum();
        Member { chromosome, fitness }
    }
}

fn founders() -> Vec<Member> {
    vec![
        Member::new(&[0.0, 0.0, 0.0], 0.0),
        Member::new(&[1.0, 1.0, 1.0], 3.0),
        Member::new(&[1.0, 2.0, 1.0], 4.0),
        Member::new(&[1.0, 2.0, 4.0], 7.0),
    ]
}

fn algorithm() -> GeneticAlgorithm<RouletteWheelSelection, UniformCrossover, GaussianMutation<Real>> {
    GeneticAlgorithm::new(
        RouletteWheelSelection::new(),
        UniformCrossover::new(),
        GaussianMutation::new(Real(0.5), Real(0.5)),
    )
}

#[test]
fn chromosome_holds_its_genes_in_order() {
    let mut subject = chromosome(&[3.0, 1.0, 2.0]);
    assert_eq!(subject.len(), 3);
    assert_eq!(subject.get(0), Real(3.0));
    assert_eq!(subject.get(1), Real(1.0));
    assert_eq!(subject.get(2), Real(2.0));
    assert_eq!(floats(&subject), vec![3.0, 1.0, 2.0]);

    subject.set(1, Real(-5.0));
    assert_eq!(floats(&subject), vec![3.0, -5.0, 2.0]);
    assert_eq!(subject.len(), 3);

    let copy = subject.clone();
    assert_eq!(floats(&copy), vec![3.0, -5.0, 2.0]);
    assert_eq!(subject.into_genes(), reals(&[3.0, -5.0, 2.0]));
}

#[test]
fn chromosome_may_be_empty() {
    let subject = chromosome(&[]);
    assert_eq!(subject.len(), 0);
    assert_eq!(subject.clone().len(), 0);
    assert!(subject.into_genes().is_empty());
}

#[test]
fn same_seed_same_generations() {
    let run = |seed: u64| -> Vec<Vec<f32>> {
        let mut rng = Prng::with_seed(seed);
        let mut population = founders();
        for _ in 0..25 {
            population = algorithm().evolve(&mut rng, &population);
        }
        population.iter().map(|member| floats(member.chromosome())).collect()
    };
    assert_eq!(run(19), run(19));
    assert_eq!(run(0), run(0));
    assert_ne!(run(19), run(20));
}

#[test]
fn evolve_keeps_the_size_of_the_population() {
    for size in 1..10 {
        let population: Vec<Member> = (0..size)
            .map(|n| Member::new(&[n as f32, 1.0], n as f32 + 1.0))
            .collect();
        let next = algorithm().evolve(&mut Prng::with_seed(size as u64), &population);
        assert_eq!(next.len(), size);
        for member in &next {
            assert_eq!(member.chromosome().len(), 2);
        }
    }
}

#[test]
fn evolve_of_one_crosses_it_with_itself() {
    let algorithm = GeneticAlgorithm::new(
        RouletteWheelSelection::new(),
        UniformCrossover::new(),
        GaussianMutation::new(Real(0.0), Real(0.5)),
    );
    let population = vec![Member::new(&[1.5, -2.5, 3.5], 1.0)];
    let next = algorithm.evolve(&mut Prng::with_seed(2), &population);
    assert_eq!(next.len(), 1);
    assert_eq!(floats(next[0].chromosome()), vec![1.5, -2.5, 3.5]);
}

#[test]
fn evolve_only_reads_the_population() {
    let population = founders();
    let _ = algorithm().evolve(&mut Prng::with_seed(19), &population);
    assert_eq!(floats(population[3].chromosome()), vec![1.0, 2.0, 4.0]);
    assert_eq!(population[3].fitness(), Real(7.0));
}

#[test]
fn uniform_length_tells_mixed_populations() {
    assert!(uniform_length::<Real, Member>(&[]));
    assert!(uniform_length(&founders()));
    let mut mixed = founders();
    mixed.push(Member::new(&[1.0, 2.0], 3.0));
    assert!(!uniform_length(&mixed));
    mixed.swap(0, 4);
    assert!(!uniform_length(&mixed));
}

#[test]
fn wheel_stops_at_the_first_total_that_reaches_the_choice() {
    let population = vec![
        Member::new(&[], 2.0),
        Member::new(&[], 1.0),
        Member::new(&[], 4.0),
        Member::new(&[], 3.0),
    ];
    // running totals: 2, 3, 7, 10
    let stops: Vec<usize> = [0.0, 1.9, 2.0, 2.1, 3.0, 3.5, 7.0, 7.5, 10.0]
        .iter()
        .map(|&choice| RouletteWheelSelection::stop_at(&population, Real(choice)))
        .collect();
    assert_eq!(stops, vec![0, 0, 0, 1, 1, 2, 2, 3, 3]);
}

#[test]
fn wheel_stops_last_when_no_total_reaches_the_choice() {
    let population = vec![Member::new(&[], 2.0), Member::new(&[], 1.0)];
    assert_eq!(RouletteWheelSelection::stop_at(&population, Real(3.5)), 1);
    assert_eq!(RouletteWheelSelection::stop_at(&population, Real(f32::INFINITY)), 1);
}

#[test]
fn wheel_without_fitness_stops_first() {
    let population = vec![
        Member::new(&[1.0], 0.0),
        Member::new(&[2.0], 0.0),
        Member::new(&[3.0], 0.0),
    ];
    let method = RouletteWheelSelection::new();
    let mut rng = Prng::with_seed(19);
    for _ in 0..100 {
        assert_eq!(floats(method.select(&mut rng, &population).chromosome()), vec![1.0]);
    }
}

#[test]
fn wheel_passes_over_individuals_without_fitness() {
    let population = vec![
        Member::new(&[1.0], 1.0),
        Member::new(&[2.0], 0.0),
        Member::new(&[3.0], 1.0),
        Member::new(&[4.0], 0.0),
    ];
    let method = RouletteWheelSelection::new();
    let mut rng = Prng::with_seed(19);
    for _ in 0..1000 {
        let gene = method.select(&mut rng, &population).chromosome().get(0);
        assert!(gene == Real(1.0) || gene == Real(3.0));
    }
}

#[test]
fn wheel_with_one_individual_selects_it() {
    let population = vec![Member::new(&[9.0], 0.25)];
    let method = RouletteWheelSelection::new();
    let mut rng = Prng::with_seed(1);
    for _ in 0..10 {
        assert_eq!(floats(method.select(&mut rng, &population).chromosome()), vec![9.0]);
    }
}

#[test]
fn select_draws_once() {
    let population = founders();
    let mut rng = Prng::with_seed(19);
    let mut reference = Prng::with_seed(19);
    RouletteWheelSelection::new().select(&mut rng, &population);
    let _: Real = reference.unit();
    assert_eq!(rng.seed(), reference.seed());
}

#[test]
fn total_fitness_adds_up_in_order() {
    assert_eq!(total_fitness::<Real, Member>(&[]), Real(0.0));
    assert_eq!(total_fitness(&founders()), Real(14.0));
    let population = vec![
        Member::new(&[], 16_777_216.0),
        Member::new(&[], 1.0),
        Member::new(&[], -16_777_216.0),
    ];
    // the one is rounded away before the large number is taken off again
    assert_eq!(total_fitness(&population), Real(0.0));
}

#[test]
fn mix_with_follows_the_coins() {
    let parent_a = chromosome(&[1.0, 2.0, 3.0, 4.0]);
    let parent_b = chromosome(&[-1.0, -2.0, -3.0, -4.0]);
    let child = UniformCrossover::mix_with(&parent_a, &parent_b, &vec![true, false, false, true]);
    assert_eq!(floats(&child), vec![1.0, -2.0, -3.0, 4.0]);
    let child = UniformCrossover::mix_with(&parent_a, &parent_b, &vec![true; 4]);
    assert_eq!(floats(&child), floats(&parent_a));
    let child = UniformCrossover::mix_with(&parent_a, &parent_b, &vec![false; 4]);
    assert_eq!(floats(&child), floats(&parent_b));
    let child = UniformCrossover::mix_with(&chromosome(&[]), &chromosome(&[]), &vec![]);
    assert_eq!(child.len(), 0);
}

#[test]
fn crossover_draws_one_coin_for_each_gene() {
    let parent_a = chromosome(&[1.0, 2.0, 3.0, 4.0, 5.0]);
    let parent_b = chromosome(&[-1.0, -2.0, -3.0, -4.0, -5.0]);
    let mut rng = Prng::with_seed(41);
    let mut reference = Prng::with_seed(41);
    let child = UniformCrossover::new().crossover(&mut rng, &parent_a, &parent_b);
    let coins: Vec<bool> = (0..5).map(|_| reference.flip()).collect();
    assert_eq!(rng.seed(), reference.seed());
    assert_eq!(
        floats(&child),
        floats(&UniformCrossover::mix_with(&parent_a, &parent_b, &coins))
    );
    assert_eq!(floats(&parent_a), vec![1.0, 2.0, 3.0, 4.0, 5.0]);
    assert_eq!(floats(&parent_b), vec![-1.0, -2.0, -3.0, -4.0, -5.0]);
}

#[test]
fn crossover_of_a_parent_with_itself_is_the_parent() {
    let parent = chromosome(&[1.0, 2.0, 3.0]);
    let child = UniformCrossover::new().crossover(&mut Prng::with_seed(8), &parent, &parent);
    assert_eq!(floats(&child), vec![1.0, 2.0, 3.0]);
}

#[test]
fn mutation_without_chance_changes_nothing() {
    let genes: Vec<f32> = (1..=100).map(|n| n as f32).collect();
    let mut child = chromosome(&genes);
    GaussianMutation::new(Real(0.0), Real(0.5)).mutate(&mut Prng::with_seed(3), &mut child);
    assert_eq!(floats(&child), genes);
}

#[test]
fn mutation_without_coeff_changes_nothing() {
    let genes: Vec<f32> = (1..=100).map(|n| n as f32).collect();
    for chance in [0.0, 0.5, 1.0] {
        let mut child = chromosome(&genes);
        GaussianMutation::new(Real(chance), Real(0.0)).mutate(&mut Prng::with_seed(3), &mut child);
        assert_eq!(floats(&child), genes);
    }
}

#[test]
fn mutation_with_full_chance_changes_every_gene() {
    let genes: Vec<f32> = (1..=100).map(|n| n as f32).collect();
    let mut child = chromosome(&genes);
    GaussianMutation::new(Real(1.0), Real(0.5)).mutate(&mut Prng::with_seed(3), &mut child);
    assert_eq!(child.len(), 100);
    for (after, before) in floats(&child).iter().zip(&genes) {
        assert_ne!(after, before);
        assert!((after - before).abs() < 0.5);
    }
}

#[test]
fn mutation_with_half_chance_changes_some_genes() {
    let genes: Vec<f32> = (1..=1000).map(|n| n as f32).collect();
    let mut child = chromosome(&genes);
    GaussianMutation::new(Real(0.5), Real(0.5)).mutate(&mut Prng::with_seed(3), &mut child);
    let changed = floats(&child).iter().zip(&genes).filter(|(a, b)| a != b).count();
    assert!(changed > 400);
    assert!(changed < 600);
}

#[test]
fn mutation_is_not_idempotent() {
    let mutation = GaussianMutation::new(Real(1.0), Real(0.5));
    let mut rng = Prng::with_seed(3);
    let mut child = chromosome(&[1.0, 2.0, 3.0]);
    mutation.mutate(&mut rng, &mut child);
    let once = floats(&child);
    mutation.mutate(&mut rng, &mut child);
    assert_ne!(floats(&child), once);
}

#[test]
fn perturb_moves_by_the_magnitude_times_the_coeff() {
    let mutation = GaussianMutation::new(Real(0.5), Real(0.5));
    assert_eq!(mutation.perturb(Real(3.0), false, Real(0.25)), Real(3.125));
    assert_eq!(mutation.perturb(Real(3.0), true, Real(0.25)), Real(2.875));
    assert_eq!(mutation.perturb(Real(3.0), true, Real(0.0)), Real(3.0));
}

#[test]
fn mutate_gene_draws_direction_then_hit_then_magnitude() {
    let mutation = GaussianMutation::new(Real(0.5), Real(2.0));
    for seed in 0..50 {
        let mut rng = Prng::with_seed(seed);
        let mut reference = Prng::with_seed(seed);
        let gene = mutation.mutate_gene(&mut rng, Real(10.0));
        let negative = reference.flip();
        let roll: Real = reference.unit();
        let expected = if roll.0 < 0.5 {
            let magnitude: Real = reference.unit();
            mutation.perturb(Real(10.0), negative, magnitude)
        } else {
            Real(10.0)
        };
        assert_eq!(gene, expected);
        assert_eq!(rng.seed(), reference.seed());
    }
}

#[test]
fn layer_accepts_the_inputs_it_was_drawn_for() {
    let layer: Layer<Real> = Layer::random(&mut Prng::with_seed(4), 3, 4);
    assert_eq!(layer.len(), 4);
    assert!(layer.accepts(3));
    assert!(!layer.accepts(2));
    assert!(!layer.accepts(4));
    let empty: Layer<Real> = Layer::random(&mut Prng::with_seed(4), 3, 0);
    assert_eq!(empty.len(), 0);
    assert!(empty.accepts(3));
    assert!(empty.accepts(7));
    assert!(empty.propagate(reals(&[1.0; 7])).is_empty());
}

#[test]
fn network_accepts_the_inputs_of_its_first_layer() {
    let topology = [
        LayerTopology { neurons: 3 },
        LayerTopology { neurons: 4 },
        LayerTopology { neurons: 2 },
    ];
    let network: Network<Real> = Network::random(&mut Prng::with_seed(4), &topology);
    assert!(network.accepts(3));
    assert!(!network.accepts(4));
    assert!(!network.accepts(0));
    assert_eq!(network.propagate(reals(&[0.0, 0.0, 0.0])).len(), 2);
}

#[test]
fn network_draws_layer_by_layer() {
    let topology = [
        LayerTopology { neurons: 3 },
        LayerTopology { neurons: 4 },
        LayerTopology { neurons: 2 },
    ];
    let mut rng = Prng::with_seed(4);
    let mut reference = Prng::with_seed(4);
    let network: Network<Real> = Network::random(&mut rng, &topology);
    let first: Layer<Real> = Layer::random(&mut reference, 3, 4);
    let second: Layer<Real> = Layer::random(&mut reference, 4, 2);
    assert_eq!(rng.seed(), reference.seed());
    let inputs = reals(&[0.3, 0.6, 0.8]);
    assert_eq!(
        network.propagate(inputs.clone()),
        second.propagate(first.propagate(inputs))
    );
}

#[test]
fn neuron_draws_its_bias_first() {
    let mut rng = Prng::with_seed(4);
    let mut reference = Prng::with_seed(4);
    let neuron: Neuron<Real> = Neuron::random(&mut rng, 3);
    let draws: Vec<Real> = (0..4)
        .map(|_| {
            let point: Real = reference.unit();
            Real(point.0 * 2.0 - 1.0)
        })
        .collect();
    assert_eq!(neuron.bias(), draws[0]);
    assert_eq!(neuron.weights(), &draws[1..].to_vec());
    assert_eq!(rng.seed(), reference.seed());
}

#[test]
fn neuron_without_weights_puts_out_its_rectified_bias() {
    assert_eq!(Neuron::new(Real(0.75), vec![]).propagate(&[]), Real(0.75));
    assert_eq!(Neuron::new(Real(-0.75), vec![]).propagate(&[]), Real(0.0));
    assert_eq!(Neuron::new(Real(0.0), vec![]).propagate(&[]), Real(0.0));
}

#[test]
fn neuron_adds_up_in_order() {
    let neuron = Neuron::new(Real(1.0), reals(&[1.0, 1.0, 1.0]));
    // the large inputs cancel before the small one is added
    assert_eq!(
        neuron.propagate(&reals(&[16_777_216.0, -16_777_216.0, 1.0])),
        Real(2.0)
    );
    // the small input is rounded away between the large ones
    assert_eq!(
        neuron.propagate(&reals(&[16_777_216.0, 1.0, -16_777_216.0])),
        Real(1.0)
    );
}
