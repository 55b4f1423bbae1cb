//! A fixed-capacity reusable buffer of vector values.

use vstd::prelude::*;
use crate::fault::Fault;
use crate::vector::{v3_zero, Vector};

verus! {

/// A pool of vector slots, created at a fixed capacity and updated in place.
pub struct VectorPool {
    pool: Vec<Vector>,
}

impl View for VectorPool {
    type V = Seq<Vector>;

    closed spec fn view(&self) -> Seq<Vector> {
        self.pool@
    }
}

impl VectorPool {
    /// A new pool of `capacity` zero vectors.
    pub fn new(capacity: usize) -> (p: VectorPool)
        ensures
            p@.len() == capacity,
            forall|i: int| 0 <= i < capacity ==> p@[i]@ == v3_zero(),
    {
        let mut pool: Vec<Vector> = Vec::with_capacity(capacity);
        let mut k: usize = 0;
        while k < capacity
            invariant
                k <= capacity,
                pool@.len() == k,
                forall|i: int| 0 <= i < k ==> pool@[i]@ == v3_zero(),
            decreases capacity - k,
        {
            pool.push(Vector { x: 0, y: 0, z: 0 });
            k = k + 1;
        }
        VectorPool { pool }
    }

    /// Whether `index` names a slot of the pool.
    pub fn is_valid_index(&self, index: usize) -> (b: bool)
        ensures
            b == (self@.len() > 0 && index < self@.len()),
    {
        !self.pool.is_empty() && index < self.pool.len()
    }

    /// The vector at `index`; indexing outside the pool is the out-of-bounds
    /// fault.
    pub fn get(&self, index: usize) -> (r: Result<Vector, Fault>)
        ensures
            index < self@.len() <==> r is Ok,
            r matches Ok(v) ==> v == self@[index as int],
            r matches Err(f) ==> f == Fault::IndexOutOfBounds,
    {
        if self.is_valid_index(index) {
            Ok(self.pool[index])
        } else {
            Err(Fault::IndexOutOfBounds)
        }
    }

    /// Overwrite the slot at `index` with a vector.
    pub fn set(&mut self, index: usize, values: Vector) -> (r: Result<(), Fault>)
        ensures
            index < old(self)@.len() <==> r is Ok,
            r is Ok ==> final(self)@ == old(self)@.update(index as int, values),
            r is Err ==> final(self)@ == old(self)@,
            r matches Err(f) ==> f == Fault::IndexOutOfBounds,
    {
        if self.is_valid_index(index) {
            self.pool[index] = values;
            Ok(())
        } else {
            Err(Fault::IndexOutOfBounds)
        }
    }

    /// Overwrite the slot at `index` with the given components.
    pub fn set_values(&mut self, index: usize, x: i64, y: i64, z: i64) -> (r: Result<(), Fault>)
        ensures
            index < old(self)@.len() <==> r is Ok,
            r is Ok ==> final(self)@ == old(self)@.update(
                index as int,
                Vector { x: x, y: y, z: z },
            ),
            r is Err ==> final(self)@ == old(self)@,
            r matches Err(f) ==> f == Fault::IndexOutOfBounds,
    {
        if self.is_valid_index(index) {
            self.pool[index] = Vector { x, y, z };
            Ok(())
        } else {
            Err(Fault::IndexOutOfBounds)
        }
    }
}

} // verus!
