//! Cluster labels of a Dirichlet-process mixture.
//!
//! Every observation carries a positive label, the cluster it belongs to.
//! The switch keeps the labels, for every label in use the set of its
//! observations, and a parameter per cluster.

use std::collections::HashMap;
use std::collections::HashSet;
use vstd::prelude::*;
use vstd::std_specs::hash::group_hash_axioms;

verus! {

/// The ways in which building a cluster switch fails.
#[derive(Clone, Copy, Debug, PartialEq, Eq, Structural)]
pub enum ClusterSwitchError {
    /// An observation carries the label zero.
    SMustBePositive,
    /// Anything else.
    Unknown,
}

impl ClusterSwitchError {
    /// The text that describes the error to a person.
    pub open spec fn description(self) -> Seq<char> {
        match self {
            ClusterSwitchError::SMustBePositive => "All elements of `s` must be positive"@,
            ClusterSwitchError::Unknown => "Unknown error"@,
        }
    }

    /// The description as a string.
    pub fn message(&self) -> (text: String)
        ensures
            text@ == self.description(),
    {
        match self {
            ClusterSwitchError::SMustBePositive => "All elements of `s` must be positive".to_owned(),
            ClusterSwitchError::Unknown => "Unknown error".to_owned(),
        }
    }
}

/// The observations that carry the label `k`.
pub open spec fn members(s: Seq<u32>, k: u32) -> Set<usize> {
    Set::new(|i: usize| i < s.len() && s[i as int] == k)
}

/// The labels in use.
pub open spec fn labels(s: Seq<u32>) -> Set<u32> {
    Set::new(|k: u32| exists|i: int| 0 <= i < s.len() && s[i] == k)
}

/// The largest label of `s`, and zero where there is none.
pub open spec fn greatest(s: Seq<u32>) -> u32
    decreases s.len(),
{
    if s.len() == 0 {
        0
    } else if greatest(s.drop_last()) < s.last() {
        s.last()
    } else {
        greatest(s.drop_last())
    }
}

/// Observation `i` is the only one of its cluster.
pub open spec fn alone(s: Seq<u32>, i: int) -> bool {
    forall|j: int| 0 <= j < s.len() && j != i ==> s[j] != s[i]
}

proof fn lemma_members_of_longer(s: Seq<u32>, label: u32, k: u32)
    requires
        s.len() < usize::MAX,
    ensures
        members(s.push(label), k) == if label == k {
            members(s, k).insert(s.len() as usize)
        } else {
            members(s, k)
        },
{
    let longer = s.push(label);
    assert forall|i: usize| members(longer, k).contains(i) <==> (if label == k {
        members(s, k).insert(s.len() as usize)
    } else {
        members(s, k)
    }).contains(i) by {
        if i < s.len() {
            assert(longer[i as int] == s[i as int]);
        }
    }
    assert(members(longer, k) =~= if label == k {
        members(s, k).insert(s.len() as usize)
    } else {
        members(s, k)
    });
}

/// A cluster is a finite set, without the observations that are not there.
pub proof fn lemma_members_finite(s: Seq<u32>, k: u32)
    requires
        s.len() <= usize::MAX,
    ensures
        members(s, k).finite(),
        members(s, k).len() <= s.len(),
    decreases s.len(),
{
    if s.len() == 0 {
        assert(members(s, k) =~= Set::empty());
    } else {
        let shorter = s.drop_last();
        lemma_members_finite(shorter, k);
        lemma_members_of_longer(shorter, s.last(), k);
        assert(shorter.push(s.last()) =~= s);
    }
}

proof fn lemma_labels_of_longer(s: Seq<u32>, label: u32)
    ensures
        labels(s.push(label)) == labels(s).insert(label),
{
    let longer = s.push(label);
    assert forall|k: u32| labels(longer).contains(k) <==> labels(s).insert(label).contains(
        k,
    ) by {
        if labels(longer).contains(k) {
            let i = choose|i: int| 0 <= i < longer.len() && longer[i] == k;
            if i < s.len() {
                assert(s[i] == k);
            }
        }
        if labels(s).contains(k) {
            let i = choose|i: int| 0 <= i < s.len() && s[i] == k;
            assert(longer[i] == k);
        }
        if k == label {
            assert(longer[s.len() as int] == k);
        }
    }
    assert(labels(longer) =~= labels(s).insert(label));
}

/// The labels in use are finitely many, no more than the observations.
pub proof fn lemma_labels_finite(s: Seq<u32>)
    ensures
        labels(s).finite(),
        labels(s).len() <= s.len(),
    decreases s.len(),
{
    if s.len() == 0 {
        assert(labels(s) =~= Set::empty());
    } else {
        lemma_labels_finite(s.drop_last());
        lemma_labels_of_longer(s.drop_last(), s.last());
        assert(s.drop_last().push(s.last()) =~= s);
    }
}

proof fn lemma_members_after_switch(s: Seq<u32>, i: int, label: u32, k: u32)
    requires
        0 <= i < s.len() <= usize::MAX,
    ensures
        members(s.update(i, label), k) == if k == label {
            members(s, k).remove(i as usize).insert(i as usize)
        } else {
            members(s, k).remove(i as usize)
        },
{
    let switched = s.update(i, label);
    let expected = if k == label {
        members(s, k).remove(i as usize).insert(i as usize)
    } else {
        members(s, k).remove(i as usize)
    };
    assert forall|j: usize| members(switched, k).contains(j) <==> expected.contains(j) by {
        if j < s.len() && j != i {
            assert(switched[j as int] == s[j as int]);
        }
    }
    assert(members(switched, k) =~= expected);
}

proof fn lemma_labels_after_switch(s: Seq<u32>, i: int, label: u32)
    requires
        0 <= i < s.len(),
    ensures
        labels(s.update(i, label)) == (if alone(s, i) {
            labels(s).remove(s[i])
        } else {
            labels(s)
        }).insert(label),
{
    let switched = s.update(i, label);
    let expected = (if alone(s, i) {
        labels(s).remove(s[i])
    } else {
        labels(s)
    }).insert(label);
    assert forall|k: u32| labels(switched).contains(k) <==> expected.contains(k) by {
        if labels(switched).contains(k) && k != label {
            let j = choose|j: int| 0 <= j < switched.len() && switched[j] == k;
            assert(j != i);
            assert(s[j] == k);
        }
        if expected.contains(k) && k != label {
            let j = choose|j: int| 0 <= j < s.len() && s[j] == k;
            if j == i {
                let other = choose|other: int| 0 <= other < s.len() && other != i && s[other] == s[i];
                assert(switched[other] == k);
            } else {
                assert(switched[j] == k);
            }
        }
        if k == label {
            assert(switched[i] == k);
        }
    }
    assert(labels(switched) =~= expected);
}

/// The only observation of a cluster is the one without which the cluster
/// is empty.
proof fn lemma_alone_leaves_nothing(s: Seq<u32>, i: int)
    requires
        0 <= i < s.len() <= usize::MAX,
    ensures
        alone(s, i) <==> members(s, s[i]).remove(i as usize).len() == 0,
{
    let others = members(s, s[i]).remove(i as usize);
    lemma_members_finite(s, s[i]);
    if alone(s, i) {
        assert(others =~= Set::empty());
    } else {
        let j = choose|j: int| 0 <= j < s.len() && j != i && s[j] == s[i];
        assert(others.contains(j as usize));
        if others.len() == 0 {
            others.lemma_len0_is_empty();
        }
    }
}

/// The clusters after observation `i` has moved to the cluster `label`:
/// `middle` holds the clusters without observation `i`, and `after` has it
/// added to the cluster `label`.
proof fn lemma_clusters_after_switch(
    s: Seq<u32>,
    i: int,
    label: u32,
    middle: Map<u32, HashSet<usize>>,
    after: Map<u32, HashSet<usize>>,
)
    requires
        0 <= i < s.len() <= usize::MAX,
        middle.dom() == if alone(s, i) {
            labels(s).remove(s[i])
        } else {
            labels(s)
        },
        forall|k: u32| #[trigger] middle.contains_key(k) ==> middle[k]@ == members(s, k).remove(
            i as usize,
        ),
        after.dom() == middle.dom().insert(label),
        forall|k: u32| k != label && #[trigger] middle.contains_key(k) ==> after[k] == middle[k],
        after[label]@ == (if middle.contains_key(label) {
            middle[label]@
        } else {
            Set::empty()
        }).insert(i as usize),
    ensures
        inverts(after, s.update(i, label)),
{
    lemma_labels_after_switch(s, i, label);
    assert forall|k: u32| #[trigger] after.contains_key(k) implies after[k]@ == members(
        s.update(i, label),
        k,
    ) by {
        lemma_members_after_switch(s, i, label, k);
        if k == label && !middle.contains_key(label) {
            if labels(s).contains(label) {
                lemma_alone_leaves_nothing(s, i);
                lemma_members_finite(s, label);
                members(s, label).remove(i as usize).lemma_len0_is_empty();
            } else {
                assert(members(s, label) =~= Set::empty()) by {
                    assert forall|j: usize| !members(s, label).contains(j) by {
                        if j < s.len() && s[j as int] == label {
                            assert(labels(s).contains(label));
                        }
                    }
                }
                assert(members(s, label).remove(i as usize) =~= Set::empty());
            }
        }
    }
}

/// What a cluster switch stands for.
pub struct ClusterSwitchView<T> {
    /// The label of every observation.
    pub s: Seq<u32>,
    /// The parameter of the clusters that have one.
    pub theta: Map<u32, T>,
    /// The largest label that was ever in use.
    pub max_k: u32,
}

/// The cluster labels of the observations, the observations of every
/// cluster, and the parameters of the clusters.
#[derive(Clone, Debug)]
pub struct ClusterSwitch<T> {
    s: Vec<u32>,
    s_inv: HashMap<u32, HashSet<usize>>,
    theta: HashMap<u32, T>,
    max_k: u32,
}

impl<T> View for ClusterSwitch<T> {
    type V = ClusterSwitchView<T>;

    closed spec fn view(&self) -> ClusterSwitchView<T> {
        ClusterSwitchView { s: self.s@, theta: self.theta@, max_k: self.max_k }
    }
}

/// The switch after observation `i` was given the label `si`, where zero
/// asks for a label that was never in use. A cluster that loses its only
/// observation loses its parameter with it.
pub open spec fn switched<T>(before: ClusterSwitchView<T>, i: int, si: u32) -> ClusterSwitchView<
    T,
> {
    let label = new_label(before.max_k, si);
    ClusterSwitchView {
        s: before.s.update(i, label),
        theta: if alone(before.s, i) {
            before.theta.remove(before.s[i])
        } else {
            before.theta
        },
        max_k: if before.max_k < label {
            label
        } else {
            before.max_k
        },
    }
}

/// The label that an observation gets when `si` is asked for: `si` itself,
/// and in place of zero the successor of the largest label ever in use.
pub open spec fn new_label(max_k: u32, si: u32) -> u32 {
    if si == 0 {
        (max_k + 1) as u32
    } else {
        si
    }
}

/// `s_inv` holds the clusters of the labels `s`.
spec fn inverts(s_inv: Map<u32, HashSet<usize>>, s: Seq<u32>) -> bool {
    &&& s_inv.dom() == labels(s)
    &&& forall|k: u32| #[trigger] s_inv.contains_key(k) ==> s_inv[k]@ == members(s, k)
}

impl<T> ClusterSwitch<T> {
    /// Every label is positive and at most `max_k`, and the clusters that are
    /// kept are those of the labels.
    pub closed spec fn well_formed(&self) -> bool {
        &&& forall|i: int| 0 <= i < self.s@.len() ==> 0 < #[trigger] self.s@[i] <= self.max_k
        &&& inverts(self.s_inv@, self.s@)
    }

    /// In every state of a switch the labels are positive, and none is
    /// above the largest label that was ever in use.
    pub proof fn lemma_labels_in_range(&self)
        requires
            self.well_formed(),
        ensures
            forall|i: int| 0 <= i < self@.s.len() ==> 0 < #[trigger] self@.s[i] <= self@.max_k,
    {
    }

    /// Takes the label of every observation and the parameters of the
    /// clusters. A label zero is refused.
    pub fn new(s: Vec<u32>, theta: HashMap<u32, T>) -> (switch: Result<Self, ClusterSwitchError>)
        ensures
            match switch {
                Ok(c) => {
                    &&& forall|i: int| 0 <= i < s@.len() ==> s@[i] != 0
                    &&& c.well_formed()
                    &&& c@.s == s@
                    &&& c@.theta == theta@
                    &&& c@.max_k == greatest(s@)
                },
                Err(e) => {
                    &&& e == ClusterSwitchError::SMustBePositive
                    &&& exists|i: int| 0 <= i < s@.len() && s@[i] == 0
                },
            },
    {
        broadcast use group_hash_axioms;

        let mut s_inv: HashMap<u32, HashSet<usize>> = HashMap::new();
        let mut max_k: u32 = 0;
        let mut i: usize = 0;
        proof {
            assert(labels(s@.take(0)) =~= Set::empty());
            assert(s_inv@.dom() =~= labels(s@.take(0)));
        }
        while i < s.len()
            invariant
                i <= s@.len(),
                forall|j: int| 0 <= j < i ==> 0 < #[trigger] s@[j] <= max_k,
                inverts(s_inv@, s@.take(i as int)),
                max_k == greatest(s@.take(i as int)),
            decreases s@.len() - i,
        {
            let si = s[i];
            if si == 0 {
                return Err(ClusterSwitchError::SMustBePositive);
            }
            let ghost before = s_inv@;
            let ghost seen = s@.take(i as int);
            s_inv.entry(si).or_insert(HashSet::new()).insert(i);
            if max_k < si {
                max_k = si;
            }
            proof {
                let longer = s@.take(i + 1);
                assert(seen.push(si) =~= longer);
                assert(longer.drop_last() =~= seen);
                lemma_labels_of_longer(seen, si);
                assert(s_inv@.dom() =~= labels(longer));
                assert forall|k: u32| #[trigger] s_inv@.contains_key(k) implies s_inv@[k]@
                    == members(longer, k) by {
                    lemma_members_of_longer(seen, si, k);
                    if k == si {
                        if !before.contains_key(si) {
                            assert(members(seen, si) =~= Set::empty()) by {
                                assert forall|j: usize| !members(seen, si).contains(j) by {
                                    if j < seen.len() && seen[j as int] == si {
                                        assert(labels(seen).contains(si));
                                    }
                                }
                            }
                        }
                    } else {
                        assert(before.contains_key(k));
                    }
                }
            }
            i += 1;
        }
        assert(s@.take(i as int) =~= s@);
        Ok(Self { s, s_inv, theta, max_k })
    }

    /// The label of every observation.
    pub fn s(&self) -> (s: &Vec<u32>)
        ensures
            s@ == self@.s,
    {
        &self.s
    }

    /// For every label in use, the observations that carry it.
    pub fn s_inv(&self) -> (s_inv: &HashMap<u32, HashSet<usize>>)
        requires
            self.well_formed(),
        ensures
            s_inv@.dom() == labels(self@.s),
            forall|k: u32| #[trigger] s_inv@.contains_key(k) ==> s_inv@[k]@ == members(self@.s, k),
    {
        &self.s_inv
    }

    /// The largest label that was ever in use, and zero where none was.
    pub fn max_k(&self) -> (max_k: u32)
        ensures
            max_k == self@.max_k,
    {
        self.max_k
    }

    /// The parameters of the clusters.
    pub fn theta(&self) -> (theta: &HashMap<u32, T>)
        ensures
            theta@ == self@.theta,
    {
        &self.theta
    }

    /// Gives observation `i` the label `si`, or a label that was never in use
    /// where `si` is zero, and returns the label given. Where the observation
    /// was alone in its cluster, that cluster's parameter is dropped, also
    /// where `si` is the label that the observation had.
    pub fn set_s(&mut self, i: usize, si: u32) -> (label: u32)
        requires
            old(self).well_formed(),
            i < old(self)@.s.len(),
            si == 0 ==> old(self)@.max_k < u32::MAX,
        ensures
            final(self).well_formed(),
            label == new_label(old(self)@.max_k, si),
            label > 0,
            final(self)@ == switched(old(self)@, i as int, si),
    {
        broadcast use group_hash_axioms;

        let previous = self.s[i];
        let ghost before = self.s@;
        let ghost label = new_label(self.max_k, si);
        proof {
            assert(before.len() == self.s.len());
            lemma_alone_leaves_nothing(before, i as int);
            assert(labels(before).contains(previous));
        }
        self.s_inv.entry(previous).or_insert(HashSet::new()).remove(&i);
        if self.s_inv.get(&previous).unwrap().len() == 0 {
            self.s_inv.remove(&previous);
            self.theta.remove(&previous);
        }
        let ghost middle = self.s_inv@;
        proof {
            assert(middle.dom() =~= if alone(before, i as int) {
                labels(before).remove(previous)
            } else {
                labels(before)
            });
            assert forall|k: u32| #[trigger] middle.contains_key(k) implies middle[k]@ == members(
                before,
                k,
            ).remove(i) by {
                if k != previous {
                    assert(members(before, k).remove(i) =~= members(before, k));
                }
            }
        }
        if si == 0 {
            self.max_k += 1;
            self.s.set(i, self.max_k);
            self.s_inv.entry(self.max_k).or_insert(HashSet::new()).insert(i);
            proof {
                lemma_clusters_after_switch(before, i as int, label, middle, self.s_inv@);
            }
            return self.max_k;
        }
        self.s.set(i, si);
        self.s_inv.entry(si).or_insert(HashSet::new()).insert(i);
        if self.max_k < si {
            self.max_k = si;
        }
        proof {
            lemma_clusters_after_switch(before, i as int, label, middle, self.s_inv@);
        }
        si
    }

    /// Gives observation `i` the label `si` as `set_s` does, and the cluster
    /// of that label the parameter `theta`.
    pub fn set_s_with_theta(&mut self, i: usize, si: u32, theta: T) -> (label: u32)
        requires
            old(self).well_formed(),
            i < old(self)@.s.len(),
            si == 0 ==> old(self)@.max_k < u32::MAX,
        ensures
            final(self).well_formed(),
            label == new_label(old(self)@.max_k, si),
            final(self)@.s == switched(old(self)@, i as int, si).s,
            final(self)@.max_k == switched(old(self)@, i as int, si).max_k,
            final(self)@.theta == switched(old(self)@, i as int, si).theta.insert(label, theta),
    {
        broadcast use group_hash_axioms;

        let new_k = self.set_s(i, si);
        self.theta.insert(new_k, theta);
        new_k
    }

    /// The number of observations that carry the label `k`.
    pub fn n(&self, k: u32) -> (count: usize)
        requires
            self.well_formed(),
        ensures
            count == members(self@.s, k).len(),
            count <= self@.s.len(),
    {
        broadcast use group_hash_axioms;

        proof {
            assert(self.s@.len() == self.s.len());
            lemma_members_finite(self.s@, k);
        }
        match self.s_inv.get(&k) {
            Some(v) => v.len(),
            None => {
                proof {
                    assert(members(self.s@, k) =~= Set::empty()) by {
                        assert forall|j: usize| !members(self.s@, k).contains(j) by {
                            if j < self.s@.len() && self.s@[j as int] == k {
                                assert(labels(self.s@).contains(k));
                            }
                        }
                    }
                }
                0
            },
        }
    }

    /// The number of clusters, which is the number of labels in use.
    pub fn clusters_len(&self) -> (count: usize)
        requires
            self.well_formed(),
        ensures
            count == labels(self@.s).len(),
            count <= self@.s.len(),
    {
        broadcast use group_hash_axioms;

        proof {
            lemma_labels_finite(self.s@);
        }
        self.s_inv.len()
    }
}

} // verus!
