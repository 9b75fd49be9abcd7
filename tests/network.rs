use rand::rngs::SmallRng;
use rand::{Rng, SeedableRng};
use tinn::layout::NetError;
use tinn::network::{Scalar, Tinn};
use tinn::shuffle::shuffle_pairs;

#[derive(Clone, Copy, Debug, PartialEq)]
struct F(f64);

impl Scalar for F {
    fn spec_zero() -> Self {
        F(0.0)
    }

    fn spec_one() -> Self {
        F(1.0)
    }

    fn spec_half() -> Self {
        F(0.5)
    }

    fn spec_plus(self, other: Self) -> Self {
        F(self.0 + other.0)
    }

    fn spec_minus(self, other: Self) -> Self {
        F(self.0 - other.0)
    }

    fn spec_times(self, other: Self) -> Self {
        F(self.0 * other.0)
    }

    fn spec_sigmoid(self) -> Self {
        F(1.0 / (1.0 + std::f64::consts::E.powf(-self.0)))
    }

    fn zero() -> Self {
        Self::spec_zero()
    }

    fn one() -> Self {
        Self::spec_one()
    }

    fn half() -> Self {
        Self::spec_half()
    }

    fn plus(self, other: Self) -> Self {
        self.spec_plus(other)
    }

    fn minus(self, other: Self) -> Self {
        self.spec_minus(other)
    }

    fn times(self, other: Self) -> Self {
        self.spec_times(other)
    }

    fn sigmoid(self) -> Self {
        self.spec_sigmoid()
    }

    fn draw_weight(rng: &mut SmallRng) -> Self {
        F(rng.gen_range(-0.5, 0.5))
    }
}

fn fv(xs: &[f64]) -> Vec<F> {
    xs.iter().map(|&x| F(x)).collect()
}

fn seeded(seed: u8) -> SmallRng {
    SmallRng::from_seed([seed; 16])
}

fn toy() -> Tinn<F> {
    Tinn::from_parameters(1, 1, 1, fv(&[0.5]), fv(&[0.5]), F(0.1), F(0.2)).unwrap()
}

fn all_weights(t: &Tinn<F>) -> Vec<f64> {
    let l = t.layout();
    let mut v = Vec::new();
    for h in 0..l.nhid() {
        for i in 0..l.nips() {
            v.push(t.input_weight(h, i).0);
        }
    }
    for o in 0..l.nops() {
        for h in 0..l.nhid() {
            v.push(t.output_weight(o, h).0);
        }
    }
    v
}

#[test]
fn toy_example_forward_values() {
    let mut t = toy();
    t.forward(&fv(&[1.0])).unwrap();
    let h = t.hidden()[0].0;
    let o = t.outputs()[0].0;
    assert!((h - 0.645656).abs() < 1e-5);
    assert!((o - 0.627809).abs() < 1e-5);
    let e = t.error_score(&fv(&[1.0])).unwrap().0;
    assert!((e - 0.069265).abs() < 1e-5);
}

#[test]
fn toy_example_one_training_step() {
    let mut t = toy();
    let e = t.train(&fv(&[1.0]), &fv(&[1.0]), F(1.0)).unwrap().0;
    let h = 0.6456563062257954_f64;
    let o = 0.6278088449399347_f64;
    let a = o - 1.0;
    let b = o * (1.0 - o);
    let x_new = 0.5 - a * b * h;
    let w_new = 0.5 - (a * b * 0.5) * (h * (1.0 - h)) * 1.0;
    assert!((t.output_weight(0, 0).0 - x_new).abs() < 1e-12);
    assert!((t.input_weight(0, 0).0 - w_new).abs() < 1e-12);
    assert!((e - 0.5 * a * a).abs() < 1e-12);
}

#[test]
fn activations_stay_inside_unit_interval() {
    let mut rng = seeded(3);
    let mut t: Tinn<F> = Tinn::new(8, 5, 3, &mut rng).unwrap();
    for _ in 0..50 {
        let inp: Vec<F> = (0..8).map(|_| F(rng.gen_range(-4.0, 4.0))).collect();
        t.forward(&inp).unwrap();
        for v in t.hidden().iter().chain(t.outputs().iter()) {
            assert!(v.0 > 0.0 && v.0 < 1.0);
        }
    }
}

#[test]
fn error_score_is_non_negative_and_zero_on_exact_target() {
    let mut rng = seeded(5);
    let mut t: Tinn<F> = Tinn::new(4, 3, 2, &mut rng).unwrap();
    let inp = fv(&[0.1, 0.9, 0.4, 0.0]);
    let out = t.predict(&inp).unwrap();
    assert_eq!(t.error_score(&out).unwrap().0, 0.0);
    let e = t.error_score(&fv(&[1.0, 0.0])).unwrap().0;
    assert!(e > 0.0);
    let e2 = t.error_score(&fv(&[-3.0, 7.0])).unwrap().0;
    assert!(e2 >= 0.0);
}

#[test]
fn predict_twice_is_identical_and_keeps_parameters() {
    let mut rng = seeded(7);
    let mut t: Tinn<F> = Tinn::new(6, 4, 3, &mut rng).unwrap();
    let inp = fv(&[0.0, 1.0, 0.5, 0.25, 1.0, 0.0]);
    let before = all_weights(&t);
    let biases = t.bias_pair();
    let p1 = t.predict(&inp).unwrap();
    let p2 = t.predict(&inp).unwrap();
    assert_eq!(p1, p2);
    assert_eq!(before, all_weights(&t));
    assert_eq!(biases, t.bias_pair());
}

#[test]
fn zero_hidden_size_is_invalid_dimension() {
    let mut rng = seeded(1);
    assert!(matches!(Tinn::<F>::new(3, 0, 2, &mut rng), Err(NetError::InvalidDimension)));
    assert!(matches!(Tinn::<F>::new(0, 2, 2, &mut rng), Err(NetError::InvalidDimension)));
    assert!(matches!(Tinn::<F>::new(3, 2, 0, &mut rng), Err(NetError::InvalidDimension)));
    assert!(matches!(
        Tinn::from_parameters(1, 0, 1, fv(&[]), fv(&[]), F(0.0), F(0.0)),
        Err(NetError::InvalidDimension)
    ));
}

#[test]
fn short_input_is_dimension_mismatch() {
    let mut rng = seeded(2);
    let mut t: Tinn<F> = Tinn::new(3, 2, 2, &mut rng).unwrap();
    assert_eq!(t.forward(&fv(&[0.5, 0.5])), Err(NetError::DimensionMismatch));
    assert!(matches!(t.predict(&fv(&[0.5, 0.5])), Err(NetError::DimensionMismatch)));
    assert!(matches!(
        t.train(&fv(&[0.5, 0.5, 0.5]), &fv(&[1.0]), F(0.5)),
        Err(NetError::DimensionMismatch)
    ));
    assert!(matches!(t.error_score(&fv(&[1.0, 0.0, 0.0])), Err(NetError::DimensionMismatch)));
    assert!(t.forward(&fv(&[0.5, 0.5, 0.5])).is_ok());
}

#[test]
fn wrong_weight_buffer_is_dimension_mismatch() {
    assert!(matches!(
        Tinn::from_parameters(2, 2, 1, fv(&[0.1, 0.2, 0.3]), fv(&[0.1, 0.2]), F(0.0), F(0.0)),
        Err(NetError::DimensionMismatch)
    ));
    assert!(matches!(
        Tinn::from_parameters(2, 2, 1, fv(&[0.1, 0.2, 0.3, 0.4]), fv(&[0.1]), F(0.0), F(0.0)),
        Err(NetError::DimensionMismatch)
    ));
    let t = Tinn::from_parameters(2, 2, 1, fv(&[0.1, 0.2, 0.3, 0.4]), fv(&[0.5, 0.6]), F(0.7), F(0.8))
        .unwrap();
    assert_eq!(t.input_weight(1, 0), F(0.3));
    assert_eq!(t.output_weight(0, 1), F(0.6));
    assert_eq!(t.bias_pair(), (F(0.7), F(0.8)));
}

#[test]
fn new_draws_weights_inside_half_unit_range() {
    let mut rng = seeded(9);
    let t: Tinn<F> = Tinn::new(10, 6, 4, &mut rng).unwrap();
    let ws = all_weights(&t);
    assert_eq!(ws.len(), 10 * 6 + 4 * 6);
    for w in ws {
        assert!(w >= -0.5 && w < 0.5);
    }
    let (b0, b1) = t.bias_pair();
    assert!(b0.0 >= -0.5 && b0.0 < 0.5 && b1.0 >= -0.5 && b1.0 < 0.5);
    assert_eq!(t.hidden().len(), 6);
    assert_eq!(t.outputs().len(), 4);
}

#[test]
fn training_step_changes_weights_but_not_biases() {
    let mut rng = seeded(11);
    let mut t: Tinn<F> = Tinn::new(4, 3, 2, &mut rng).unwrap();
    let before = all_weights(&t);
    let (b0, b1) = t.bias_pair();
    t.train(&fv(&[1.0, 0.5, 0.25, 1.0]), &fv(&[1.0, 0.0]), F(1.0)).unwrap();
    let (c0, c1) = t.bias_pair();
    assert_eq!(b0.0.to_bits(), c0.0.to_bits());
    assert_eq!(b1.0.to_bits(), c1.0.to_bits());
    assert_ne!(before, all_weights(&t));
}

#[test]
fn training_reduces_mean_error() {
    let mut rng = seeded(42);
    let mut inp: Vec<Vec<F>> = Vec::new();
    let mut tg: Vec<Vec<F>> = Vec::new();
    for k in 0..40 {
        let a = (k % 10) as f64 / 10.0;
        let b = ((k * 7) % 10) as f64 / 10.0;
        let class = a + b > 1.0;
        inp.push(fv(&[a, b]));
        tg.push(if class { fv(&[1.0, 0.0]) } else { fv(&[0.0, 1.0]) });
    }
    let mut t: Tinn<F> = Tinn::new(2, 4, 2, &mut rng).unwrap();
    let mut rate = 1.0;
    let mut first = 0.0;
    let mut last = 0.0;
    for epoch in 0..100 {
        shuffle_pairs(&mut inp, &mut tg, &mut rng);
        let mut error = 0.0;
        for j in 0..inp.len() {
            error += t.train(&inp[j], &tg[j], F(rate)).unwrap().0;
        }
        let mean = error / inp.len() as f64;
        if epoch == 0 {
            first = mean;
        }
        last = mean;
        rate *= 0.99;
    }
    assert!(last < first);
}
