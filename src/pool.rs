//! The pool of live sparks: spawning, ageing and removal of expired ones.
//!
//! The pool owns every spark. What moves a spark (its position and velocity)
//! is the caller's payload `T`; the pool keeps the remaining life of each
//! spark, in steps, and decides when a spark is gone.

use vstd::prelude::*;

verus! {

/// One spark: its remaining life in steps and its payload.
#[derive(Clone, Copy, Debug)]
pub struct Particle<T> {
    pub life: i64,
    pub body: T,
}

/// A spark is kept while its life has not fallen below zero.
pub open spec fn alive<T>(s: Particle<T>) -> bool {
    s.life >= 0
}

/// The sparks of `s` that are alive, in their order.
pub open spec fn pruned<T>(s: Seq<Particle<T>>) -> Seq<Particle<T>>
    decreases s.len(),
{
    if s.len() == 0 {
        Seq::empty()
    } else {
        let rest = pruned(s.drop_last());
        if alive(s.last()) {
            rest.push(s.last())
        } else {
            rest
        }
    }
}

/// `b` is `a` with every life one step shorter.
pub open spec fn lives_advanced<T>(a: Seq<Particle<T>>, b: Seq<Particle<T>>) -> bool {
    &&& b.len() == a.len()
    &&& forall|i: int| 0 <= i < a.len() ==> #[trigger] b[i].life == a[i].life - 1
}

/// A spark spawned with `n` steps to live, in an otherwise empty pool, stays
/// through `n + 1` cycles of `advance` then `prune` and is gone after the
/// next: after `j` cycles it is there, with `n - j` steps left, exactly when
/// `j <= n`. `trail[j]` is the pool after `j` cycles and `aged[j]` the pool
/// between the advance and the prune of cycle `j + 1`.
pub proof fn lemma_spark_lifecycle<T>(trail: Seq<Seq<Particle<T>>>, aged: Seq<Seq<Particle<T>>>, n: int)
    requires
        trail.len() == aged.len() + 1,
        trail[0].len() == 1,
        trail[0][0].life == n,
        n >= 0,
        forall|j: int|
            0 <= j < aged.len() ==> lives_advanced(trail[j], #[trigger] aged[j]) && trail[j + 1]
                == pruned(aged[j]),
    ensures
        forall|j: int| 0 <= j < trail.len() ==> (#[trigger] trail[j].len() == 1) == (j <= n),
        forall|j: int| 0 <= j < trail.len() && j <= n ==> #[trigger] trail[j][0].life == n - j,
        forall|j: int| 0 <= j < trail.len() && j > n ==> #[trigger] trail[j].len() == 0,
    decreases aged.len(),
{
    if aged.len() > 0 {
        let k = aged.len() - 1;
        let t = trail.drop_last();
        let a = aged.drop_last();
        assert forall|j: int| 0 <= j < a.len() implies lives_advanced(t[j], #[trigger] a[j])
            && t[j + 1] == pruned(a[j]) by {
            assert(lives_advanced(trail[j], aged[j]));
        }
        lemma_spark_lifecycle(t, a, n);
        assert(t[k] == trail[k]);
        assert(lives_advanced(trail[k], aged[k]));
        reveal_with_fuel(pruned, 2);
        if k <= n {
            assert(aged[k].len() == 1);
            assert(aged[k][0].life == trail[k][0].life - 1);
            assert(aged[k].drop_last().len() == 0);
        } else {
            assert(aged[k].len() == 0);
        }
        assert forall|j: int| 0 <= j < trail.len() implies (#[trigger] trail[j].len() == 1) == (j
            <= n) by {
            if j < k + 1 {
                assert(t[j] == trail[j]);
            }
        }
        assert forall|j: int| 0 <= j < trail.len() && j <= n implies #[trigger] trail[j][0].life
            == n - j by {
            if j < k + 1 {
                assert(t[j] == trail[j]);
            }
        }
        assert forall|j: int| 0 <= j < trail.len() && j > n implies #[trigger] trail[j].len()
            == 0 by {
            if j < k + 1 {
                assert(t[j] == trail[j]);
            }
        }
    }
}

pub struct SparkPool<T> {
    sparks: Vec<Particle<T>>,
}

impl<T: Copy> View for SparkPool<T> {
    type V = Seq<Particle<T>>;

    closed spec fn view(&self) -> Seq<Particle<T>> {
        self.sparks@
    }
}

impl<T: Copy> SparkPool<T> {
    /// No spark in the pool has a life below zero.
    pub open spec fn settled(&self) -> bool {
        forall|i: int| 0 <= i < self@.len() ==> alive(#[trigger] self@[i])
    }

    pub fn new() -> (r: Self)
        ensures
            r@ == Seq::<Particle<T>>::empty(),
    {
        SparkPool { sparks: Vec::new() }
    }

    pub fn len(&self) -> (r: usize)
        ensures
            r == self@.len(),
    {
        self.sparks.len()
    }

    pub fn get(&self, i: usize) -> (r: Particle<T>)
        requires
            i < self@.len(),
        ensures
            r == self@[i as int],
    {
        self.sparks[i]
    }

    /// Adds a spark with `life` steps to live.
    pub fn spawn(&mut self, life: u32, body: T)
        ensures
            final(self)@ == old(self)@.push(Particle { life: life as i64, body }),
            old(self).settled() ==> final(self).settled(),
    {
        self.sparks.push(Particle { life: life as i64, body });
        assert forall|i: int| 0 <= i < self@.len() && old(self).settled() implies alive(
            #[trigger] self@[i],
        ) by {
            if i < old(self)@.len() {
                assert(self@[i] == old(self)@[i]);
            }
        }
    }

    /// Ages every spark by one step and moves it with `motion`.
    pub fn advance<F: Fn(T) -> T>(&mut self, motion: &F)
        requires
            old(self).settled(),
            forall|b: T| motion.requires((b,)),
        ensures
            lives_advanced(old(self)@, final(self)@),
            forall|i: int|
                0 <= i < old(self)@.len() ==> motion.ensures(
                    (old(self)@[i].body,),
                    #[trigger] final(self)@[i].body,
                ),
    {
        let ghost start = self@;
        let n = self.sparks.len();
        let mut i: usize = 0;
        while i < n
            invariant
                n == start.len(),
                i <= n,
                self@.len() == n,
                forall|b: T| motion.requires((b,)),
                forall|j: int| i <= j < n ==> #[trigger] self@[j] == start[j],
                forall|j: int| 0 <= j < n ==> alive(#[trigger] start[j]),
                forall|j: int| 0 <= j < i ==> #[trigger] self@[j].life == start[j].life - 1,
                forall|j: int|
                    0 <= j < i ==> motion.ensures((start[j].body,), #[trigger] self@[j].body),
            decreases n - i,
        {
            let s = self.sparks[i];
            assert(alive(start[i as int]));
            let moved = motion(s.body);
            self.sparks.set(i, Particle { life: s.life - 1, body: moved });
            i = i + 1;
        }
    }

    /// Removes every spark whose life has fallen below zero; the others stay
    /// in their order.
    pub fn prune(&mut self)
        ensures
            final(self)@ == pruned(old(self)@),
            final(self).settled(),
    {
        let ghost start = self@;
        let mut kept: Vec<Particle<T>> = Vec::new();
        let n = self.sparks.len();
        let mut i: usize = 0;
        while i < n
            invariant
                n == start.len(),
                i <= n,
                self@ == start,
                kept@ == pruned(start.take(i as int)),
                forall|j: int| 0 <= j < kept@.len() ==> alive(#[trigger] kept@[j]),
            decreases n - i,
        {
            let s = self.sparks[i];
            assert(start.take(i + 1).drop_last() == start.take(i as int));
            if s.life >= 0 {
                kept.push(s);
            }
            i = i + 1;
        }
        assert(start.take(n as int) == start);
        self.sparks = kept;
    }
}

} // verus!
