use exercises::philosophers::fork_order;
use exercises::philosophers::Philosopher;

#[test]
fn a_thought_names_the_thinker() {
    let plato = Philosopher::new("Plato");
    assert_eq!(plato.think(), "Eureka! Plato has a new idea!");
}

#[test]
fn forks_are_in_hand_only_while_eating() {
    let mut thales = Philosopher::new("Thales");
    assert!(!thales.is_eating());
    thales.pick_up(3, 4);
    assert!(thales.is_eating());
    thales.put_down();
    assert!(!thales.is_eating());
}

#[test]
fn everyone_reaches_for_the_lower_fork_first() {
    assert_eq!(fork_order(0, 5), (0, 1));
    assert_eq!(fork_order(3, 5), (3, 4));
    assert_eq!(fork_order(4, 5), (0, 4));
    for seat in 0..5 {
        let (first, second) = fork_order(seat, 5);
        assert!(first < second);
    }
}

#[test]
fn a_table_for_one_has_one_fork() {
    assert_eq!(fork_order(0, 1), (0, 0));
}
