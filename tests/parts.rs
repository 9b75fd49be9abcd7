use rand::rngs::SmallRng;
use rand::SeedableRng;
use tinn::layout::{Layout, NetError};
use tinn::matrix::Matrix;
use tinn::shuffle::{shuffle_pairs, shuffle_pairs_by};

#[test]
fn layout_accepts_positive_sizes_only() {
    let l = Layout::new(256, 28, 10).unwrap();
    assert_eq!((l.nips(), l.nhid(), l.nops()), (256, 28, 10));
    assert_eq!(Layout::new(0, 28, 10), Err(NetError::InvalidDimension));
    assert_eq!(Layout::new(256, 0, 10), Err(NetError::InvalidDimension));
    assert_eq!(Layout::new(256, 28, 0), Err(NetError::InvalidDimension));
}

#[test]
fn layout_checks_vector_lengths() {
    let l = Layout::new(3, 2, 4).unwrap();
    assert_eq!(l.check_input(3), Ok(()));
    assert_eq!(l.check_input(2), Err(NetError::DimensionMismatch));
    assert_eq!(l.check_target(4), Ok(()));
    assert_eq!(l.check_target(5), Err(NetError::DimensionMismatch));
    assert_eq!(l.check_sample(3, 4), Ok(()));
    assert_eq!(l.check_sample(3, 3), Err(NetError::DimensionMismatch));
    assert_eq!(l.check_sample(4, 4), Err(NetError::DimensionMismatch));
}

#[test]
fn matrix_reads_rows_from_flat_buffer() {
    let m = Matrix::from_flat(2, 3, vec![1, 2, 3, 4, 5, 6]).unwrap();
    assert_eq!((m.rows(), m.cols()), (2, 3));
    assert_eq!(m.get(0, 2), 3);
    assert_eq!(m.get(1, 0), 4);
    assert_eq!(m.get(1, 2), 6);
    assert!(matches!(Matrix::from_flat(2, 3, vec![1, 2, 3]), Err(NetError::DimensionMismatch)));
    assert!(matches!(
        Matrix::from_flat(usize::MAX, 2, vec![1u8, 2]),
        Err(NetError::DimensionMismatch)
    ));
}

#[test]
fn matrix_set_changes_one_cell() {
    let mut m = Matrix::filled(3, 2, 7u32);
    m.set(2, 1, 9);
    for r in 0..3 {
        for c in 0..2 {
            let expected = if (r, c) == (2, 1) { 9 } else { 7 };
            assert_eq!(m.get(r, c), expected);
        }
    }
}

#[test]
fn shuffle_by_draws_is_exact() {
    let mut inp = vec!['a', 'b', 'c', 'd'];
    let mut tg = vec![0, 1, 2, 3];
    // Position 3 swaps with 0, position 2 stays, position 1 swaps with 0.
    shuffle_pairs_by(&mut inp, &mut tg, &vec![0, 0, 2, 0]);
    assert_eq!(inp, vec!['b', 'd', 'c', 'a']);
    assert_eq!(tg, vec![1, 3, 2, 0]);
}

#[test]
fn shuffle_keeps_pairs_together() {
    let mut rng = SmallRng::from_seed([13; 16]);
    let mut inp: Vec<u32> = (0..100).collect();
    let mut tg: Vec<u32> = (0..100).map(|x| x * 10).collect();
    shuffle_pairs(&mut inp, &mut tg, &mut rng);
    for k in 0..100 {
        assert_eq!(tg[k], inp[k] * 10);
    }
    let mut sorted = inp.clone();
    sorted.sort();
    assert_eq!(sorted, (0..100).collect::<Vec<u32>>());
    assert_ne!(inp, (0..100).collect::<Vec<u32>>());
}

#[test]
fn shuffle_of_short_vectors() {
    let mut rng = SmallRng::from_seed([1; 16]);
    let mut inp: Vec<u8> = vec![];
    let mut tg: Vec<u8> = vec![];
    shuffle_pairs(&mut inp, &mut tg, &mut rng);
    assert!(inp.is_empty() && tg.is_empty());
    let mut inp = vec![5u8];
    let mut tg = vec![6u8];
    shuffle_pairs(&mut inp, &mut tg, &mut rng);
    assert_eq!((inp, tg), (vec![5], vec![6]));
}
