//! The pool of ready parser instances of a parse worker.
use std::collections::VecDeque;

use vstd::prelude::*;

verus! {

/// A parser instance: what runs it, and its number.
pub struct ParseInstance<T> {
    pub id: u8,
    pub body: T,
}

/// Parser instances that wait, the one that waits longest first. Making an
/// instance is the caller's work; the pool says how many it lacks.
pub struct ParsePool<T> {
    pub ready: VecDeque<ParseInstance<T>>,
    /// How many instances should wait.
    pub target_size: usize,
    /// The number of the latest instance. It begins anew behind 255.
    pub current_count: u8,
}

/// The number of the `n`th instance made after the one numbered `count`.
pub open spec fn id_after(count: u8, n: int) -> u8 {
    ((count + n) % 256) as u8
}

/// New instances made of `bodies`, numbered on from `count`.
pub open spec fn numbered<T>(count: u8, bodies: Seq<T>) -> Seq<ParseInstance<T>> {
    Seq::new(
        bodies.len(),
        |i: int| ParseInstance { id: id_after(count, i + 1), body: bodies[i] },
    )
}

/// How many instances a pool lacks.
pub open spec fn lacking(ready: int, target: int) -> int {
    if ready < target {
        target - ready
    } else {
        0
    }
}

impl<T> ParsePool<T> {
    /// The instances that wait.
    pub open spec fn view(&self) -> Seq<ParseInstance<T>> {
        self.ready@
    }

    /// How many instances the pool lacks.
    pub open spec fn spec_wanted(&self) -> int {
        lacking(self@.len() as int, self.target_size as int)
    }

    /// A pool in which no instance waits yet.
    pub fn new(target_size: usize, current_count: u8) -> (res: ParsePool<T>)
        ensures
            res@ == Seq::<ParseInstance<T>>::empty(),
            res.target_size == target_size,
            res.current_count == current_count,
    {
        ParsePool { ready: VecDeque::new(), target_size, current_count }
    }

    /// Numbers a new instance.
    pub fn create_one(&mut self, body: T) -> (res: ParseInstance<T>)
        ensures
            res == (ParseInstance { id: id_after(old(self).current_count, 1), body }),
            final(self).current_count == res.id,
            final(self)@ == old(self)@,
            final(self).target_size == old(self).target_size,
    {
        self.current_count = self.current_count.wrapping_add(1);
        ParseInstance { id: self.current_count, body }
    }

    /// How many instances the pool lacks.
    pub fn wanted(&self) -> (res: usize)
        ensures
            res == self.spec_wanted(),
    {
        if self.ready.len() < self.target_size {
            self.target_size - self.ready.len()
        } else {
            0
        }
    }

    /// Puts new instances into the pool, behind those that wait.
    pub fn replenish(&mut self, fresh: Vec<T>)
        requires
            fresh@.len() <= old(self).spec_wanted(),
        ensures
            final(self)@ == old(self)@ + numbered(old(self).current_count, fresh@),
            final(self).target_size == old(self).target_size,
            final(self).current_count == id_after(old(self).current_count, fresh@.len() as int),
    {
        let ghost count = self.current_count;
        let ghost bodies = fresh@;
        let ghost waiting = self@;
        assert(waiting + numbered(count, bodies.subrange(0, 0)) =~= waiting);
        for body in it: fresh.into_iter()
            invariant
                it.seq() == bodies,
                self@ == waiting + numbered(count, bodies.subrange(0, it.index() as int)),
                self.target_size == old(self).target_size,
                self.current_count == id_after(count, it.index() as int),
        {
            let ghost i = it.index() as int;
            let inst = self.create_one(body);
            self.ready.push_back(inst);
            assert(self@ =~= waiting + numbered(count, bodies.subrange(0, i + 1)));
        }
        assert(bodies.subrange(0, bodies.len() as int) =~= bodies);
    }

    /// Whether a worker can start with the pool, or what it reports if not.
    pub fn pre_warmed(&self) -> (res: Result<(), String>)
        ensures
            res is Ok <==> self@.len() > 0,
            res matches Err(e) ==> e@ == "parse pool: failed to pre-warm any instance"@,
    {
        if self.ready.len() == 0 {
            Err("parse pool: failed to pre-warm any instance".to_string())
        } else {
            Ok(())
        }
    }

    /// Takes the instance that waits longest. Where none waits the caller has
    /// to make one.
    pub fn acquire(&mut self) -> (res: Option<ParseInstance<T>>)
        ensures
            res == (if old(self)@.len() > 0 {
                Some(old(self)@[0])
            } else {
                None
            }),
            final(self)@ == (if old(self)@.len() > 0 {
                old(self)@.drop_first()
            } else {
                old(self)@
            }),
            final(self).target_size == old(self).target_size,
            final(self).current_count == old(self).current_count,
    {
        let res = self.ready.pop_front();
        assert(old(self)@.len() > 0 ==> self@ =~= old(self)@.drop_first());
        res
    }

    /// Takes an instance back whose reset went well or not, and says how many
    /// instances the pool then lacks. One whose reset failed is given up.
    pub fn release(&mut self, inst: ParseInstance<T>, reset_ok: bool) -> (res: usize)
        ensures
            final(self)@ == (if reset_ok {
                old(self)@.push(inst)
            } else {
                old(self)@
            }),
            res == final(self).spec_wanted(),
            final(self).target_size == old(self).target_size,
            final(self).current_count == old(self).current_count,
    {
        if reset_ok {
            self.ready.push_back(inst);
        }
        self.wanted()
    }

    /// Takes an instance back as it is, and makes up for no other.
    pub fn release_without_reset(&mut self, inst: ParseInstance<T>)
        ensures
            final(self)@ == old(self)@.push(inst),
            final(self).target_size == old(self).target_size,
            final(self).current_count == old(self).current_count,
    {
        self.ready.push_back(inst);
    }

    /// Gives an instance up, and says how many the pool then lacks.
    pub fn discard_and_replenish(&mut self, inst: ParseInstance<T>) -> (res: usize)
        ensures
            *final(self) == *old(self),
            res == final(self).spec_wanted(),
    {
        let _ = inst;
        self.wanted()
    }
}

/// A pool that gets all the instances it lacks holds as many as it should, and
/// no pool is filled beyond that.
pub proof fn law_replenished_pool_is_full<T>(pool: ParsePool<T>, fresh: Seq<T>)
    requires
        fresh.len() <= pool.spec_wanted(),
    ensures
        (pool@ + numbered(pool.current_count, fresh)).len() <= crate::stats::larger(
            pool@.len() as int,
            pool.target_size as int,
        ),
        fresh.len() == pool.spec_wanted() ==> (pool@ + numbered(pool.current_count, fresh)).len()
            >= pool.target_size,
{
}

/// Instances are numbered one upon the other, and begin anew behind 255: no two of
/// 256 in a row have the same number.
pub proof fn law_numbers_follow(count: u8, m: int, n: int)
    requires
        0 <= m < n < m + 256,
    ensures
        id_after(count, 0) == count,
        id_after(count, m) < 255 ==> id_after(count, m + 1) == id_after(count, m) + 1,
        id_after(count, m) == 255 ==> id_after(count, m + 1) == 0,
        id_after(count, m) != id_after(count, n),
{
}

/// New instances are made of what they were given, in its order and all of it, each
/// with the number that follows upon the one before.
pub proof fn law_instances_keep_their_bodies<T>(count: u8, bodies: Seq<T>, i: int)
    requires
        0 <= i < bodies.len(),
    ensures
        numbered(count, bodies).len() == bodies.len(),
        numbered(count, bodies)[i].body == bodies[i],
        numbered(count, bodies)[i].id == id_after(
            if i == 0 {
                count
            } else {
                numbered(count, bodies)[i - 1].id
            },
            1,
        ),
{
}

/// What a pool lacks and what it has are what it should have, or what it has where
/// that is more.
pub proof fn law_pool_lacks_the_rest(ready: int, target: int)
    requires
        0 <= ready,
        0 <= target,
    ensures
        ready <= target ==> ready + lacking(ready, target) == target,
        target <= ready ==> lacking(ready, target) == 0,
        lacking(ready, target) >= 0,
{
}

} // verus!
