//! Sampling importance resampling: the pool that particles are redrawn from.

use vstd::prelude::*;

verus! {

/// The pool in which particle `i` stands `copies[i]` times, the particles
/// in their order.
pub open spec fn replicated<T>(particles: Seq<T>, copies: Seq<usize>) -> Seq<T>
    decreases copies.len(),
{
    if copies.len() == 0 {
        Seq::empty()
    } else {
        replicated(particles, copies.drop_last()) + Seq::new(
            copies.last() as nat,
            |j: int| particles[copies.len() - 1],
        )
    }
}

/// The size of the pool: the sum of the numbers of copies.
pub open spec fn pool_size(copies: Seq<usize>) -> nat
    decreases copies.len(),
{
    if copies.len() == 0 {
        0
    } else {
        pool_size(copies.drop_last()) + copies.last() as nat
    }
}

/// The pool is as large as the numbers of copies say.
pub proof fn lemma_replicated_len<T>(particles: Seq<T>, copies: Seq<usize>)
    ensures
        replicated(particles, copies).len() == pool_size(copies),
    decreases copies.len(),
{
    if copies.len() > 0 {
        lemma_replicated_len(particles, copies.drop_last());
    }
}

/// Builds the pool from which particles are redrawn: `copies[i]` clones of
/// particle `i`, for every weight that was turned into a number of copies.
pub fn resampling_pool<T: Clone>(particles: &Vec<T>, copies: &Vec<usize>) -> (pool: Vec<T>)
    requires
        copies@.len() <= particles@.len(),
    ensures
        pool@.len() == pool_size(copies@),
        pool@.len() == replicated(particles@, copies@).len(),
        forall|j: int|
            0 <= j < pool@.len() ==> cloned(#[trigger] replicated(particles@, copies@)[j], pool@[j]),
{
    let mut pool: Vec<T> = Vec::new();
    let mut i: usize = 0;
    proof {
        assert(copies@.take(0) =~= Seq::<usize>::empty());
    }
    while i < copies.len()
        invariant
            i <= copies@.len() <= particles@.len(),
            pool@.len() == replicated(particles@, copies@.take(i as int)).len(),
            forall|j: int|
                0 <= j < pool@.len() ==> cloned(
                    #[trigger] replicated(particles@, copies@.take(i as int))[j],
                    pool@[j],
                ),
        decreases copies@.len() - i,
    {
        let ghost before = replicated(particles@, copies@.take(i as int));
        let ghost target = replicated(particles@, copies@.take(i + 1));
        proof {
            assert(copies@.take(i + 1).drop_last() =~= copies@.take(i as int));
            assert(target =~= before + Seq::new(copies@[i as int] as nat, |j: int| particles@[i as int]));
        }
        let mut made: usize = 0;
        while made < copies[i]
            invariant
                i < copies@.len() <= particles@.len(),
                made <= copies@[i as int],
                target =~= before + Seq::new(
                    copies@[i as int] as nat,
                    |j: int| particles@[i as int],
                ),
                pool@.len() == before.len() + made,
                forall|j: int| 0 <= j < pool@.len() ==> cloned(#[trigger] target[j], pool@[j]),
            decreases copies@[i as int] - made,
        {
            pool.push(particles[i].clone());
            made += 1;
        }
        i += 1;
    }
    proof {
        assert(copies@.take(i as int) =~= copies@);
        lemma_replicated_len(particles@, copies@);
    }
    pool
}

} // verus!
