//! Philosophers at a round table, one fork between each two of them. A
//! philosopher eats with the forks on both sides. The order in which each
//! takes them is fixed here so that no round of waiting can close.

use vstd::prelude::*;

verus! {

pub struct Philosopher {
    name: String,
    left_fork: Option<i32>,
    right_fork: Option<i32>,
}

/// What a philosopher with this name says on having an idea.
pub open spec fn eureka(name: Seq<char>) -> Seq<char> {
    "Eureka! "@ + name + " has a new idea!"@
}

impl Philosopher {
    pub closed spec fn name(&self) -> Seq<char> {
        self.name@
    }

    /// The forks in hand: left, then right.
    pub closed spec fn forks(&self) -> (Option<i32>, Option<i32>) {
        (self.left_fork, self.right_fork)
    }

    /// A philosopher with empty hands.
    pub fn new(name: &str) -> (philosopher: Philosopher)
        ensures
            philosopher.name() == name@,
            philosopher.forks() == (None::<i32>, None::<i32>),
    {
        Philosopher { name: name.to_owned(), left_fork: None, right_fork: None }
    }

    /// The thought that the philosopher has to share.
    pub fn think(&self) -> (thought: String)
        ensures
            thought@ == eureka(self.name()),
    {
        let mut thought = "Eureka! ".to_owned();
        thought.append(self.name.as_str());
        thought.append(" has a new idea!");
        thought
    }

    /// Takes both forks in hand, to eat.
    pub fn pick_up(&mut self, left: i32, right: i32)
        ensures
            final(self).name() == old(self).name(),
            final(self).forks() == (Some(left), Some(right)),
    {
        self.left_fork = Some(left);
        self.right_fork = Some(right);
    }

    /// Lays both forks down, having eaten.
    pub fn put_down(&mut self)
        ensures
            final(self).name() == old(self).name(),
            final(self).forks() == (None::<i32>, None::<i32>),
    {
        self.left_fork = None;
        self.right_fork = None;
    }

    /// Whether the philosopher holds both forks.
    pub fn is_eating(&self) -> (eating: bool)
        ensures
            eating == (self.forks().0 is Some && self.forks().1 is Some),
    {
        self.left_fork.is_some() && self.right_fork.is_some()
    }
}

/// The forks of the philosopher at `seat`, in the order in which to take
/// them. They are the fork at the seat and the next one round the table;
/// the philosopher at the last seat takes them the other way round, so that
/// everyone reaches for the fork with the lower number first.
pub fn fork_order(seat: usize, seats: usize) -> (order: (usize, usize))
    requires
        seat < seats,
    ensures
        order.0 == if seat + 1 == seats {
            0
        } else {
            seat as int
        },
        order.1 == if seat + 1 == seats {
            seat as int
        } else {
            seat + 1
        },
        seats >= 2 ==> order.0 < order.1 < seats,
{
    if seat == seats - 1 {
        (0, seat)
    } else {
        (seat, seat + 1)
    }
}

} // verus!
