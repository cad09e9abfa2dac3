use vstd::prelude::*;

verus! {

/// A source of numbers that hands out a fixed list, first to last.
pub struct MockRand {
    pub results: Vec<u64>,
}

impl MockRand {
    pub fn new(results: Vec<u64>) -> (r: Self)
        ensures
            r.results@ == results@,
    {
        MockRand { results }
    }

    /// The next number of the list, which it leaves.
    pub fn next_u64(&mut self) -> (r: u64)
        requires
            old(self).results@.len() > 0,
        ensures
            r == old(self).results@[0],
            final(self).results@ == old(self).results@.drop_first(),
    {
        self.results.remove(0)
    }

    /// The low 32 bits of the next number of the list.
    pub fn next_u32(&mut self) -> (r: u32)
        requires
            old(self).results@.len() > 0,
        ensures
            r == old(self).results@[0] as u32,
            final(self).results@ == old(self).results@.drop_first(),
    {
        self.next_u64() as u32
    }
}

/// A die that maps a raw number onto the faces 1 to 6.
pub struct DumbDistr {}

/// The face for a raw number.
pub open spec fn face_of(raw: u64) -> int {
    (raw % 6) as int + 1
}

impl DumbDistr {
    /// Draws a face from the next number of `rng`.
    pub fn sample(&self, rng: &mut MockRand) -> (r: usize)
        requires
            old(rng).results@.len() > 0,
        ensures
            r == face_of(old(rng).results@[0]),
            1 <= r <= 6,
            final(rng).results@ == old(rng).results@.drop_first(),
    {
        let raw = rng.next_u64();
        (raw % 6) as usize + 1
    }
}

} // verus!
