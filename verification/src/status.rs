//! The aggregate liveness of a workspace's containers.

use vstd::prelude::*;

verus! {

/// Engine state of a container, extended with `Empty` for "no container".
///
/// The variants form a total order, from least to most alive:
/// `Empty < Dead < Exited < Removing < Created < Paused < Restarting < Running`.
/// A workspace's status is the maximum over its containers' states under this
/// order, so that "most alive wins" when the containers disagree.
#[derive(Debug, Clone, Copy, PartialEq, Eq, Structural)]
pub enum Status {
    Empty,
    Dead,
    Exited,
    Removing,
    Created,
    Paused,
    Restarting,
    Running,
}

/// Position of a status in the total order; larger means more alive.
pub open spec fn rank(s: Status) -> int {
    match s {
        Status::Empty => 0,
        Status::Dead => 1,
        Status::Exited => 2,
        Status::Removing => 3,
        Status::Created => 4,
        Status::Paused => 5,
        Status::Restarting => 6,
        Status::Running => 7,
    }
}

/// The more-alive of two statuses.
pub open spec fn spec_status_max2(a: Status, b: Status) -> Status {
    if rank(a) >= rank(b) {
        a
    } else {
        b
    }
}

/// Maximum status over a sequence of container states; `Empty` if empty.
pub open spec fn spec_status_max(s: Seq<Status>) -> Status
    decreases s.len(),
{
    if s.len() == 0 {
        Status::Empty
    } else {
        spec_status_max2(spec_status_max(s.drop_last()), s.last())
    }
}

impl Status {
    /// Rank of this status in the total order, as executable code.
    pub fn rank_val(&self) -> (r: u8)
        ensures
            r as int == rank(*self),
    {
        match self {
            Status::Empty => 0,
            Status::Dead => 1,
            Status::Exited => 2,
            Status::Removing => 3,
            Status::Created => 4,
            Status::Paused => 5,
            Status::Restarting => 6,
            Status::Running => 7,
        }
    }

    /// The more-alive of `self` and `other`.
    pub fn max2(self, other: Status) -> (r: Status)
        ensures
            r == spec_status_max2(self, other),
    {
        if self.rank_val() >= other.rank_val() {
            self
        } else {
            other
        }
    }
}

/// Aggregate status of a group of containers: the maximum of their states
/// under the liveness order, `Status::Empty` when the group is empty.
pub fn status_of_states(states: &Vec<Status>) -> (r: Status)
    ensures
        r == spec_status_max(states@),
{
    let mut r = Status::Empty;
    let mut i: usize = 0;
    while i < states.len()
        invariant
            0 <= i <= states@.len(),
            r == spec_status_max(states@.take(i as int)),
        decreases states@.len() - i,
    {
        proof {
            assert(states@.take(i + 1).drop_last() =~= states@.take(i as int));
            assert(states@.take(i + 1).last() == states@[i as int]);
        }
        r = r.max2(states[i]);
        i += 1;
    }
    proof {
        assert(states@.take(states@.len() as int) =~= states@);
    }
    r
}

/// The aggregate status of a group is an upper bound of every member, it is
/// `Empty` exactly when the group is empty, and otherwise it is itself one of
/// the members: the maximum under the liveness total order.
pub proof fn lemma_status_max_is_max(s: Seq<Status>)
    ensures
        forall|i: int| 0 <= i < s.len() ==> rank(s[i]) <= rank(spec_status_max(s)),
        s.len() == 0 ==> spec_status_max(s) == Status::Empty,
        s.len() > 0 ==> exists|i: int| 0 <= i < s.len() && s[i] == spec_status_max(s),
    decreases s.len(),
{
    if s.len() > 0 {
        lemma_status_max_is_max(s.drop_last());
        let m = spec_status_max(s);
        let mprev = spec_status_max(s.drop_last());
        assert forall|i: int| 0 <= i < s.len() implies rank(s[i]) <= rank(m) by {
            if i < s.len() - 1 {
                assert(s.drop_last()[i] == s[i]);
                assert(rank(s.drop_last()[i]) <= rank(mprev));
            } else {
                assert(s[i] == s.last());
            }
        }
        if m == s.last() {
            assert(s[s.len() - 1] == m);
        } else {
            assert(m == mprev);
            if s.len() == 1 {
                assert(m == Status::Empty && rank(s[0]) <= 0);
                assert(s[0] == Status::Empty);
            } else {
                let j = choose|j: int|
                    0 <= j < s.drop_last().len() && s.drop_last()[j] == mprev;
                assert(s.drop_last()[j] == s[j]);
            }
        }
    }
}

} // verus!
