use cascade_wm::IdGenerator;

#[test]
fn next_id_starts_at_one_and_increases() {
    let mut gen = IdGenerator::new();
    let mut seen = Vec::new();
    for _ in 0..5 {
        seen.push(gen.next_id());
    }
    assert_eq!(seen, vec![1, 2, 3, 4, 5]);
    for i in 0..seen.len() {
        for j in (i + 1)..seen.len() {
            assert!(seen[i] < seen[j]);
            assert_ne!(seen[i], seen[j]);
        }
    }
}

#[test]
fn generators_are_independent() {
    let mut a = IdGenerator::new();
    let mut b = IdGenerator::new();
    assert_eq!(a.next_id(), 1);
    assert_eq!(a.next_id(), 2);
    assert_eq!(b.next_id(), 1);
}
