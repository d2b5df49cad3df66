use ray_tracer::sequence::Sequence;

#[test]
fn a_sequence_returns_a_cyclic_sequence_of_numbers() {
    let mut gen = Sequence::new(vec![0.1, 0.5, 1.0]);
    assert_eq!(gen.next().unwrap(), 0.1);
    assert_eq!(gen.next().unwrap(), 0.5);
    assert_eq!(gen.next().unwrap(), 1.0);
    assert_eq!(gen.next().unwrap(), 0.1);
}

#[test]
fn a_sequence_of_one_value_repeats_it() {
    let mut gen = Sequence::new(vec![7]);
    assert_eq!(gen.len(), 1);
    for _ in 0..5 {
        assert_eq!(gen.next(), Some(7));
    }
}

#[test]
fn a_sequence_starts_over_after_its_last_value() {
    let mut gen = Sequence::new(vec!['a', 'b', 'c']);
    let drawn: Vec<char> = (0..8).map(|_| gen.next().unwrap()).collect();
    assert_eq!(drawn, vec!['a', 'b', 'c', 'a', 'b', 'c', 'a', 'b']);
}

#[test]
fn a_copy_of_a_sequence_goes_on_where_the_sequence_is() {
    let mut gen = Sequence::new(vec![1, 2, 3]);
    gen.next();
    let mut copy = gen.clone();
    assert_eq!(copy, gen);
    assert_eq!(copy.next(), Some(2));
    assert_eq!(gen.next(), Some(2));
    assert_eq!(copy.next(), Some(3));
    assert_eq!(copy.next(), Some(1));
}
