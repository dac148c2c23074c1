use vstd::prelude::*;
use crate::constants::{
    MAX_TICK_INDEX, MAX_TICK_SPACING, MIN_TICK_INDEX, MIN_TICK_SPACING, TICK_ARRAY_SIZE,
};
use crate::errors::PoolError;
use crate::keys::Pubkey;
use crate::math::tick_math::{
    get_tick_array_start_index, lemma_align_unique, lemma_multiple_of_product,
    lemma_no_multiple_between, lemma_offset_in_array, spec_tick_array_start_index,
    spec_tick_in_bounds, spec_tick_valid, validate_tick_index,
};
use crate::state::tick::Tick;
use crate::state::tick_array::TickArray;

verus! {

/// The tick arrays of one pool, found by the index they start at.
#[derive(Debug, PartialEq, Eq)]
pub struct TickRegistry {
    /// Distance between usable ticks.
    pub tick_spacing: u16,
    /// The arrays, in the order they were added.
    pub arrays: Vec<TickArray>,
}

impl TickRegistry {
    /// Number of ticks that one array spans.
    pub open spec fn spec_span(&self) -> int {
        self.tick_spacing as int * TICK_ARRAY_SIZE as int
    }

    /// The spacing is within its limits, every array is well formed, and no
    /// two arrays start at the same index.
    pub open spec fn spec_wf(&self) -> bool {
        &&& MIN_TICK_SPACING <= self.tick_spacing <= MAX_TICK_SPACING
        &&& forall|i: int|
            0 <= i < self.arrays@.len() ==> (#[trigger] self.arrays@[i]).spec_wf(
                self.tick_spacing as int,
            )
        &&& forall|i: int, j: int|
            0 <= i < j < self.arrays@.len() ==> (#[trigger] self.arrays@[i]).start_tick_index != (
            #[trigger] self.arrays@[j]).start_tick_index
    }

    /// Whether an array starts at `start`.
    pub open spec fn spec_has_array(&self, start: int) -> bool {
        exists|i: int|
            0 <= i < self.arrays@.len() && (#[trigger] self.arrays@[i]).start_tick_index == start
    }

    /// The place of the array that starts at `start`.
    pub open spec fn spec_array_index(&self, start: int) -> int {
        choose|i: int|
            0 <= i < self.arrays@.len() && (#[trigger] self.arrays@[i]).start_tick_index == start
    }

    /// The index at which the array that covers `tick_index` starts.
    pub open spec fn spec_start_of(&self, tick_index: int) -> int {
        spec_tick_array_start_index(tick_index, self.tick_spacing as int, TICK_ARRAY_SIZE as int)
    }

    /// The record of a tick: there is one where the tick is usable in this
    /// pool and an array covers it.
    pub open spec fn spec_tick_at(&self, tick_index: int) -> Option<Tick> {
        let start = self.spec_start_of(tick_index);
        if spec_tick_valid(tick_index, self.tick_spacing as int) && self.spec_has_array(start) {
            Some(
                self.arrays@[self.spec_array_index(start)].ticks@[(tick_index - start) / (
                self.tick_spacing as int)],
            )
        } else {
            None
        }
    }

    /// Whether a tick has a record that is marked as initialized.
    pub open spec fn spec_is_initialized(&self, tick_index: int) -> bool {
        match self.spec_tick_at(tick_index) {
            Some(tick) => tick.initialized,
            None => false,
        }
    }

    /// `tick` is the nearest initialized tick from `from` in the direction
    /// of travel: at or below `from` when the price falls, above `from`
    /// when it rises.
    pub open spec fn spec_is_next_initialized(&self, from: int, a_to_b: bool, tick: int) -> bool {
        &&& self.spec_is_initialized(tick)
        &&& a_to_b ==> tick <= from && forall|u: int|
            tick < u <= from ==> !#[trigger] self.spec_is_initialized(u)
        &&& !a_to_b ==> tick > from && forall|u: int|
            from < u < tick ==> !#[trigger] self.spec_is_initialized(u)
    }

    /// The nearest initialized tick from `from` in the direction of travel,
    /// if there is one.
    pub open spec fn spec_next_initialized(&self, from: int, a_to_b: bool) -> Option<int> {
        if exists|tick: int| self.spec_is_next_initialized(from, a_to_b, tick) {
            Some(choose|tick: int| self.spec_is_next_initialized(from, a_to_b, tick))
        } else {
            None
        }
    }

    /// There is at most one nearest initialized tick.
    pub proof fn lemma_next_initialized_unique(&self, from: int, a_to_b: bool, t1: int, t2: int)
        requires
            self.spec_is_next_initialized(from, a_to_b, t1),
            self.spec_is_next_initialized(from, a_to_b, t2),
        ensures
            t1 == t2,
    {
    }

    /// No initialized tick lies from `from` on in the direction of travel.
    pub open spec fn spec_none_initialized(&self, from: int, a_to_b: bool) -> bool {
        &&& a_to_b ==> forall|u: int| u <= from ==> !#[trigger] self.spec_is_initialized(u)
        &&& !a_to_b ==> forall|u: int| from < u ==> !#[trigger] self.spec_is_initialized(u)
    }

    /// The two registries hold the same spacing and arrays that start at
    /// the same indices, in the same order.
    pub open spec fn spec_same_layout(&self, other: &TickRegistry) -> bool {
        &&& self.tick_spacing == other.tick_spacing
        &&& self.arrays@.len() == other.arrays@.len()
        &&& forall|i: int|
            0 <= i < self.arrays@.len() ==> (#[trigger] self.arrays@[i]).start_tick_index
                == other.arrays@[i].start_tick_index
    }

    /// Makes a registry without arrays. A spacing outside its limits is
    /// refused.
    pub fn new(tick_spacing: u16) -> (r: Result<TickRegistry, PoolError>)
        ensures
            MIN_TICK_SPACING <= tick_spacing <= MAX_TICK_SPACING ==> r is Ok && r.unwrap().spec_wf()
                && r.unwrap().tick_spacing == tick_spacing && r.unwrap().arrays@.len() == 0,
            !(MIN_TICK_SPACING <= tick_spacing <= MAX_TICK_SPACING) ==> r is Err && r->Err_0
                == PoolError::InvalidTickSpacing,
    {
        if tick_spacing < MIN_TICK_SPACING || tick_spacing > MAX_TICK_SPACING {
            return Err(PoolError::InvalidTickSpacing);
        }
        Ok(TickRegistry { tick_spacing, arrays: Vec::new() })
    }

    /// Tests whether the registry is well formed.
    pub fn is_well_formed(&self) -> (r: bool)
        ensures
            r == self.spec_wf(),
    {
        if self.tick_spacing < MIN_TICK_SPACING || self.tick_spacing > MAX_TICK_SPACING {
            return false;
        }
        let mut i: usize = 0;
        while i < self.arrays.len()
            invariant
                0 <= i <= self.arrays@.len(),
                MIN_TICK_SPACING <= self.tick_spacing <= MAX_TICK_SPACING,
                forall|k: int|
                    0 <= k < i ==> (#[trigger] self.arrays@[k]).spec_wf(self.tick_spacing as int),
                forall|k: int, j: int|
                    0 <= k < j < i ==> (#[trigger] self.arrays@[k]).start_tick_index != (
                    #[trigger] self.arrays@[j]).start_tick_index,
            decreases self.arrays@.len() - i,
        {
            if self.arrays[i].ticks.len() != TICK_ARRAY_SIZE {
                assert(!self.arrays@[i as int].spec_wf(self.tick_spacing as int));
                return false;
            }
            if !is_array_start(self.arrays[i].start_tick_index, self.tick_spacing) {
                assert(!self.arrays@[i as int].spec_wf(self.tick_spacing as int));
                return false;
            }
            let mut j: usize = 0;
            while j < i
                invariant
                    0 <= j <= i < self.arrays@.len(),
                    forall|k: int|
                        0 <= k < j ==> (#[trigger] self.arrays@[k]).start_tick_index
                            != self.arrays@[i as int].start_tick_index,
                decreases i - j,
            {
                if self.arrays[j].start_tick_index == self.arrays[i].start_tick_index {
                    assert(self.arrays@[j as int].start_tick_index
                        == self.arrays@[i as int].start_tick_index);
                    return false;
                }
                j = j + 1;
            }
            i = i + 1;
        }
        true
    }

    /// Finds the place of the array that starts at `start`.
    pub fn find_array(&self, start: i32) -> (r: Option<usize>)
        requires
            self.spec_wf(),
        ensures
            r is Some == self.spec_has_array(start as int),
            r is Some ==> r.unwrap() == self.spec_array_index(start as int) && r.unwrap()
                < self.arrays@.len() && self.arrays@[r.unwrap() as int].start_tick_index == start,
    {
        let mut i: usize = 0;
        while i < self.arrays.len()
            invariant
                self.spec_wf(),
                0 <= i <= self.arrays@.len(),
                forall|j: int| 0 <= j < i ==> (#[trigger] self.arrays@[j]).start_tick_index != start,
            decreases self.arrays@.len() - i,
        {
            if self.arrays[i].start_tick_index == start {
                proof {
                    assert(self.arrays@[i as int].start_tick_index == start);
                    assert(self.spec_has_array(start as int));
                    let c = self.spec_array_index(start as int);
                    assert(0 <= c < self.arrays@.len());
                    assert(self.arrays@[c].start_tick_index == start);
                    if c < i {
                        assert(self.arrays@[c].start_tick_index != self.arrays@[i as
                            int].start_tick_index);
                    } else if c > i {
                        assert(self.arrays@[i as int].start_tick_index
                            != self.arrays@[c].start_tick_index);
                    }
                    assert(c == i);
                }
                return Some(i);
            }
            i = i + 1;
        }
        None
    }

    /// Finds where the record of a tick stands: the place of its array and
    /// its offset in it.
    ///
    /// A tick that the pool cannot use is refused as an invalid index, one
    /// that no array covers as out of bounds.
    pub fn locate(&self, tick_index: i32) -> (r: Result<(usize, usize), PoolError>)
        requires
            self.spec_wf(),
        ensures
            match r {
                Ok((i, k)) => {
                    &&& self.spec_tick_at(tick_index as int) is Some
                    &&& i == self.spec_array_index(self.spec_start_of(tick_index as int))
                    &&& k == (tick_index - self.spec_start_of(tick_index as int)) / (
                    self.tick_spacing as int)
                    &&& i < self.arrays@.len()
                    &&& k < TICK_ARRAY_SIZE
                    &&& self.arrays@[i as int].start_tick_index == self.spec_start_of(
                        tick_index as int,
                    )
                    &&& self.spec_tick_at(tick_index as int) == Some(
                        self.arrays@[i as int].ticks@[k as int],
                    )
                },
                Err(e) => {
                    &&& self.spec_tick_at(tick_index as int) is None
                    &&& !spec_tick_valid(tick_index as int, self.tick_spacing as int) ==> e
                        == PoolError::InvalidTickIndex
                    &&& spec_tick_valid(tick_index as int, self.tick_spacing as int) ==> e
                        == PoolError::TickArrayIndexOutOfBounds
                },
            },
    {
        match validate_tick_index(tick_index, self.tick_spacing) {
            Ok(_) => {},
            Err(_) => { return Err(PoolError::InvalidTickIndex); },
        }
        assert(self.tick_spacing * TICK_ARRAY_SIZE <= 8800) by (nonlinear_arith)
            requires
                self.tick_spacing <= 100,
                TICK_ARRAY_SIZE == 88,
        ;
        let start: i32 = get_tick_array_start_index(tick_index, self.tick_spacing, TICK_ARRAY_SIZE);
        match self.find_array(start) {
            Some(i) => {
                proof {
                    let s = self.tick_spacing as int;
                    lemma_multiple_of_product(start as int, s, TICK_ARRAY_SIZE as int, 0);
                    lemma_offset_in_array(
                        start as int,
                        tick_index as int,
                        s,
                        TICK_ARRAY_SIZE as int,
                    );
                    assert(self.arrays@[i as int].spec_wf(s));
                }
                let k: usize = ((tick_index - start) / (self.tick_spacing as i32)) as usize;
                Ok((i, k))
            },
            None => Err(PoolError::TickArrayIndexOutOfBounds),
        }
    }

    /// Reads the record of a tick.
    pub fn get_tick(&self, tick_index: i32) -> (r: Result<Tick, PoolError>)
        requires
            self.spec_wf(),
        ensures
            match r {
                Ok(tick) => self.spec_tick_at(tick_index as int) == Some(tick),
                Err(e) => {
                    &&& self.spec_tick_at(tick_index as int) is None
                    &&& !spec_tick_valid(tick_index as int, self.tick_spacing as int) ==> e
                        == PoolError::InvalidTickIndex
                    &&& spec_tick_valid(tick_index as int, self.tick_spacing as int) ==> e
                        == PoolError::TickArrayIndexOutOfBounds
                },
            },
    {
        match self.locate(tick_index) {
            Ok((i, k)) => {
                assert(self.arrays@[i as int].spec_wf(self.tick_spacing as int));
                Ok(self.arrays[i].ticks[k])
            },
            Err(e) => Err(e),
        }
    }

    /// Writes the record of a tick. On a failure nothing is changed.
    pub fn set_tick(&mut self, tick_index: i32, tick: Tick) -> (r: Result<(), PoolError>)
        requires
            old(self).spec_wf(),
        ensures
            final(self).spec_wf(),
            final(self).spec_same_layout(old(self)),
            match r {
                Ok(_) => {
                    &&& old(self).spec_tick_at(tick_index as int) is Some
                    &&& forall|u: int|
                        #[trigger] final(self).spec_tick_at(u) == if u == tick_index {
                            Some(tick)
                        } else {
                            old(self).spec_tick_at(u)
                        }
                },
                Err(e) => {
                    &&& *final(self) == *old(self)
                    &&& old(self).spec_tick_at(tick_index as int) is None
                    &&& !spec_tick_valid(tick_index as int, old(self).tick_spacing as int) ==> e
                        == PoolError::InvalidTickIndex
                    &&& spec_tick_valid(tick_index as int, old(self).tick_spacing as int) ==> e
                        == PoolError::TickArrayIndexOutOfBounds
                },
            },
    {
        let (i, k) = match self.locate(tick_index) {
            Ok(place) => place,
            Err(e) => { return Err(e); },
        };
        assert(self.arrays@[i as int].spec_wf(self.tick_spacing as int));
        let ghost before = *self;
        self.arrays[i].ticks[k] = tick;
        proof {
            let after = *self;
            let s = before.tick_spacing as int;
            assert(after.tick_spacing == before.tick_spacing);
            assert(after.arrays@.len() == before.arrays@.len());
            assert forall|j: int| 0 <= j < after.arrays@.len() implies (
            #[trigger] after.arrays@[j]).start_tick_index == before.arrays@[j].start_tick_index
                && after.arrays@[j].spec_wf(s) by {
                assert(before.arrays@[j].spec_wf(s));
            }
            assert(after.spec_wf());
            assert forall|u: int| #[trigger]
                after.spec_tick_at(u) == if u == tick_index {
                    Some(tick)
                } else {
                    before.spec_tick_at(u)
                } by {
                before.lemma_same_layout_same_places(&after, u);
                let start = before.spec_start_of(u);
                if spec_tick_valid(u, s) && before.spec_has_array(start) {
                    let j = before.spec_array_index(start);
                    assert(after.spec_array_index(start) == j);
                    let ku = (u - start) / s;
                    lemma_multiple_of_product(start, s, TICK_ARRAY_SIZE as int, 0);
                    assert(before.arrays@[j].spec_wf(s));
                    vstd::arithmetic::div_mod::lemma_mod_bound(u, s * TICK_ARRAY_SIZE as int);
                    lemma_offset_in_array(start, u, s, TICK_ARRAY_SIZE as int);
                    if j == i && ku == k {
                        // the same array and offset: the same tick
                        let t0 = before.spec_start_of(tick_index as int);
                        assert(start == t0);
                        lemma_multiple_of_product(t0, s, TICK_ARRAY_SIZE as int, 0);
                        vstd::arithmetic::div_mod::lemma_mod_bound(
                            tick_index as int,
                            s * TICK_ARRAY_SIZE as int,
                        );
                        lemma_offset_in_array(t0, tick_index as int, s, TICK_ARRAY_SIZE as int);
                        assert(u == tick_index);
                    } else if u == tick_index {
                        assert(false);
                    }
                }
            }
        }
        Ok(())
    }

    /// Registries of one layout find every tick in the same place.
    pub proof fn lemma_same_layout_same_places(&self, other: &TickRegistry, tick_index: int)
        requires
            self.spec_wf(),
            other.spec_same_layout(self),
        ensures
            self.spec_start_of(tick_index) == other.spec_start_of(tick_index),
            self.spec_has_array(self.spec_start_of(tick_index)) == other.spec_has_array(
                self.spec_start_of(tick_index),
            ),
            self.spec_has_array(self.spec_start_of(tick_index)) ==> self.spec_array_index(
                self.spec_start_of(tick_index),
            ) == other.spec_array_index(self.spec_start_of(tick_index)),
            (self.spec_tick_at(tick_index) is Some) == (other.spec_tick_at(tick_index) is Some),
    {
        let start = self.spec_start_of(tick_index);
        if self.spec_has_array(start) {
            let j = self.spec_array_index(start);
            assert(other.arrays@[j].start_tick_index == start);
            let c = other.spec_array_index(start);
            assert(other.arrays@[c].start_tick_index == start);
            assert(self.arrays@[c].start_tick_index == start);
            assert(c == j);
        }
        if other.spec_has_array(start) {
            let c = other.spec_array_index(start);
            assert(self.arrays@[c].start_tick_index == start);
        }
    }

    /// Adds an array of empty records that starts at `start_tick_index`.
    ///
    /// A start that is not a multiple of the span of one array is refused
    /// as an invalid tick index, and so is a second array at the same
    /// start, as an invalid sequence of arrays. On a failure nothing is
    /// changed.
    pub fn add_array(&mut self, bump: u8, pool: Pubkey, start_tick_index: i32) -> (r: Result<
        (),
        PoolError,
    >)
        requires
            old(self).spec_wf(),
        ensures
            final(self).spec_wf(),
            final(self).tick_spacing == old(self).tick_spacing,
            match r {
                Ok(_) => {
                    &&& start_tick_index as int % old(self).spec_span() == 0
                    &&& !old(self).spec_has_array(start_tick_index as int)
                    &&& final(self).arrays@.len() == old(self).arrays@.len() + 1
                    &&& forall|i: int|
                        0 <= i < old(self).arrays@.len() ==> final(self).arrays@[i] == old(
                            self,
                        ).arrays@[i]
                    &&& final(self).arrays@.last().start_tick_index == start_tick_index
                    &&& final(self).arrays@.last().bump == bump
                    &&& final(self).arrays@.last().pool == pool
                    &&& forall|k: int|
                        0 <= k < TICK_ARRAY_SIZE ==> final(self).arrays@.last().ticks@[k]
                            == Tick::spec_empty()
                },
                Err(e) => {
                    &&& *final(self) == *old(self)
                    &&& start_tick_index as int % old(self).spec_span() != 0 ==> e
                        == PoolError::InvalidTickIndex
                    &&& start_tick_index as int % old(self).spec_span() == 0 ==> e
                        == PoolError::InvalidTickArraySequence && old(self).spec_has_array(
                        start_tick_index as int,
                    )
                },
            },
    {
        let array = match TickArray::new(bump, pool, start_tick_index, self.tick_spacing) {
            Ok(a) => a,
            Err(_) => { return Err(PoolError::InvalidTickIndex); },
        };
        if self.find_array(start_tick_index).is_some() {
            return Err(PoolError::InvalidTickArraySequence);
        }
        let ghost before = *self;
        self.arrays.push(array);
        proof {
            assert forall|i: int| 0 <= i < self.arrays@.len() implies (
            #[trigger] self.arrays@[i]).spec_wf(self.tick_spacing as int) by {
                if i < before.arrays@.len() {
                    assert(before.arrays@[i].spec_wf(before.tick_spacing as int));
                }
            }
            assert forall|i: int, j: int| 0 <= i < j < self.arrays@.len() implies (
            #[trigger] self.arrays@[i]).start_tick_index != (
            #[trigger] self.arrays@[j]).start_tick_index by {
                assert(before.arrays@[i] == self.arrays@[i]);
                if j < before.arrays@.len() {
                    assert(before.arrays@[j] == self.arrays@[j]);
                }
            }
        }
        Ok(())
    }
}

impl TickRegistry {
    /// Finds the nearest initialized tick from `tick_current` in the
    /// direction of travel: at or below it when the price falls
    /// (`a_to_b`), above it when the price rises.
    pub fn next_initialized_tick(&self, tick_current: i32, a_to_b: bool) -> (r: Option<i32>)
        requires
            self.spec_wf(),
        ensures
            match r {
                Some(t) => self.spec_is_next_initialized(tick_current as int, a_to_b, t as int)
                    && spec_tick_in_bounds(t as int) && self.spec_next_initialized(
                    tick_current as int,
                    a_to_b,
                ) == Some(t as int) && self.spec_tick_at(t as int) is Some,
                None => self.spec_none_initialized(tick_current as int, a_to_b)
                    && self.spec_next_initialized(tick_current as int, a_to_b) is None,
            },
    {
        let r = if a_to_b {
            self.next_initialized_at_or_below(tick_current)
        } else {
            self.next_initialized_above(tick_current)
        };
        proof {
            match r {
                Some(t) => {
                    let c = choose|tick: int|
                        self.spec_is_next_initialized(tick_current as int, a_to_b, tick);
                    self.lemma_next_initialized_unique(tick_current as int, a_to_b, t as int, c);
                },
                None => {
                    assert forall|tick: int| !self.spec_is_next_initialized(
                        tick_current as int,
                        a_to_b,
                        tick,
                    ) by {
                        if self.spec_is_next_initialized(tick_current as int, a_to_b, tick) {
                            assert(self.spec_is_initialized(tick));
                        }
                    }
                },
            }
        }
        r
    }

    fn next_initialized_at_or_below(&self, tick_current: i32) -> (r: Option<i32>)
        requires
            self.spec_wf(),
        ensures
            match r {
                Some(t) => self.spec_is_next_initialized(tick_current as int, true, t as int)
                    && spec_tick_in_bounds(t as int),
                None => self.spec_none_initialized(tick_current as int, true),
            },
    {
        if tick_current < MIN_TICK_INDEX {
            return None;
        }
        let from: i32 = if tick_current > MAX_TICK_INDEX {
            MAX_TICK_INDEX
        } else {
            tick_current
        };
        let ghost s = self.tick_spacing as int;
        let ghost span = s * TICK_ARRAY_SIZE as int;
        assert(span == s * 88 && s * 1 == s) by (nonlinear_arith)
            requires
                span == s * TICK_ARRAY_SIZE as int,
                TICK_ARRAY_SIZE == 88,
        ;
        let mut c: i32 = get_tick_array_start_index(from, self.tick_spacing, 1);
        proof {
            assert forall|u: int| c < u <= tick_current implies !#[trigger] self.spec_is_initialized(
                u,
            ) by {
                if u <= from {
                    lemma_no_multiple_between(c as int, u, s);
                }
            }
        }
        while c >= MIN_TICK_INDEX
            invariant
                self.spec_wf(),
                s == self.tick_spacing as int,
                span == s * 88,
                span == s * TICK_ARRAY_SIZE as int,
                c as int % s == 0,
                MIN_TICK_INDEX - 9000 <= c <= from <= MAX_TICK_INDEX,
                from <= tick_current,
                forall|u: int| c < u <= tick_current ==> !#[trigger] self.spec_is_initialized(u),
            decreases c - MIN_TICK_INDEX + 9000,
        {
            match self.get_tick(c) {
                Ok(tick) => {
                    if tick.initialized {
                        return Some(c);
                    }
                    proof {
                        lemma_multiple_of_product(c as int, s, 1, -1);
                        assert forall|u: int| c - s < u <= tick_current implies !#[trigger] self.spec_is_initialized(
                        u) by {
                            if u < c {
                                lemma_no_multiple_between(c - s, u, s);
                            }
                        }
                    }
                    c = c - (self.tick_spacing as i32);
                },
                Err(_) => {
                    let start: i32 = get_tick_array_start_index(
                        c,
                        self.tick_spacing,
                        TICK_ARRAY_SIZE,
                    );
                    proof {
                        lemma_multiple_of_product(start as int, s, TICK_ARRAY_SIZE as int, -1);
                        assert(!self.spec_has_array(start as int));
                        assert forall|u: int| start - s < u <= tick_current implies !#[trigger] self.spec_is_initialized(
                        u) by {
                            if u < start {
                                lemma_no_multiple_between(start - s, u, s);
                            } else if u <= c {
                                lemma_align_unique(start as int, u, span);
                                assert(self.spec_start_of(u) == start);
                            }
                        }
                    }
                    c = start - (self.tick_spacing as i32);
                },
            }
        }
        None
    }

    fn next_initialized_above(&self, tick_current: i32) -> (r: Option<i32>)
        requires
            self.spec_wf(),
        ensures
            match r {
                Some(t) => self.spec_is_next_initialized(tick_current as int, false, t as int)
                    && spec_tick_in_bounds(t as int),
                None => self.spec_none_initialized(tick_current as int, false),
            },
    {
        if tick_current >= MAX_TICK_INDEX {
            return None;
        }
        let from: i32 = if tick_current < MIN_TICK_INDEX - 1 {
            MIN_TICK_INDEX - 1
        } else {
            tick_current
        };
        let ghost s = self.tick_spacing as int;
        let ghost span = s * TICK_ARRAY_SIZE as int;
        assert(span == s * 88 && s * 1 == s && 88 * s == span) by (nonlinear_arith)
            requires
                span == s * TICK_ARRAY_SIZE as int,
                TICK_ARRAY_SIZE == 88,
        ;
        let base: i32 = get_tick_array_start_index(from, self.tick_spacing, 1);
        proof {
            lemma_multiple_of_product(base as int, s, 1, 1);
            assert forall|u: int| tick_current < u < base + s implies !#[trigger] self.spec_is_initialized(
            u) by {
                if u > from {
                    lemma_no_multiple_between(base as int, u, s);
                }
            }
        }
        let mut c: i32 = base + (self.tick_spacing as i32);
        while c <= MAX_TICK_INDEX
            invariant
                self.spec_wf(),
                s == self.tick_spacing as int,
                span == s * 88,
                88 * s == span,
                span == s * TICK_ARRAY_SIZE as int,
                c as int % s == 0,
                MIN_TICK_INDEX - 1 <= from < c <= MAX_TICK_INDEX + 9000,
                tick_current <= from,
                forall|u: int| tick_current < u < c ==> !#[trigger] self.spec_is_initialized(u),
            decreases MAX_TICK_INDEX + 9000 - c,
        {
            match self.get_tick(c) {
                Ok(tick) => {
                    if tick.initialized {
                        return Some(c);
                    }
                    proof {
                        lemma_multiple_of_product(c as int, s, 1, 1);
                        assert forall|u: int| tick_current < u < c + s implies !#[trigger] self.spec_is_initialized(
                        u) by {
                            if u > c {
                                lemma_no_multiple_between(c as int, u, s);
                            }
                        }
                    }
                    c = c + (self.tick_spacing as i32);
                },
                Err(_) => {
                    let start: i32 = get_tick_array_start_index(
                        c,
                        self.tick_spacing,
                        TICK_ARRAY_SIZE,
                    );
                    proof {
                        lemma_multiple_of_product(start as int, s, TICK_ARRAY_SIZE as int, 88);
                        assert(!self.spec_has_array(start as int));
                        assert forall|u: int| tick_current < u < start + span implies !#[trigger] self.spec_is_initialized(
                        u) by {
                            if u >= c {
                                lemma_align_unique(start as int, u, span);
                                assert(self.spec_start_of(u) == start);
                            }
                        }
                    }
                    c = start + (self.tick_spacing as i32) * (TICK_ARRAY_SIZE as i32);
                },
            }
        }
        None
    }
}

impl TickArray {
    /// Makes an array of `TICK_ARRAY_SIZE` empty records.
    ///
    /// The start must be a multiple of the span of one array,
    /// `tick_spacing * TICK_ARRAY_SIZE`; any other start is refused as an
    /// invalid tick index. A spacing of zero is refused as such.
    pub fn new(bump: u8, pool: Pubkey, start_tick_index: i32, tick_spacing: u16) -> (r: Result<
        TickArray,
        PoolError,
    >)
        ensures
            match r {
                Ok(array) => {
                    &&& tick_spacing > 0
                    &&& start_tick_index as int % (tick_spacing as int * TICK_ARRAY_SIZE as int)
                        == 0
                    &&& array.spec_wf(tick_spacing as int)
                    &&& array.bump == bump
                    &&& array.pool == pool
                    &&& array.start_tick_index == start_tick_index
                    &&& forall|k: int|
                        0 <= k < TICK_ARRAY_SIZE ==> array.ticks@[k] == Tick::spec_empty()
                },
                Err(e) => {
                    &&& tick_spacing == 0 ==> e == PoolError::InvalidTickSpacing
                    &&& tick_spacing > 0 ==> e == PoolError::InvalidTickIndex && start_tick_index as int
                        % (tick_spacing as int * TICK_ARRAY_SIZE as int) != 0
                },
            },
    {
        if tick_spacing == 0 {
            return Err(PoolError::InvalidTickSpacing);
        }
        if !is_array_start(start_tick_index, tick_spacing) {
            return Err(PoolError::InvalidTickIndex);
        }
        let mut ticks: Vec<Tick> = Vec::new();
        let mut k: usize = 0;
        while k < TICK_ARRAY_SIZE
            invariant
                0 <= k <= TICK_ARRAY_SIZE,
                ticks@.len() == k,
                forall|j: int| 0 <= j < k ==> ticks@[j] == Tick::spec_empty(),
            decreases TICK_ARRAY_SIZE - k,
        {
            ticks.push(Tick::new());
            k = k + 1;
        }
        Ok(TickArray { bump, pool, start_tick_index, ticks })
    }
}

impl TickArray {
    /// Whether the array covers a tick index.
    pub open spec fn spec_covers(&self, tick_index: int, tick_spacing: int) -> bool {
        self.start_tick_index <= tick_index < self.start_tick_index + tick_spacing
            * TICK_ARRAY_SIZE as int
    }

    /// Where the record of a tick stands in the array: refused as out of
    /// bounds for a tick that the array does not cover, and as an invalid
    /// tick index for a covered tick off the spacing.
    pub open spec fn spec_offset_of(&self, tick_index: int, tick_spacing: int) -> Result<
        int,
        PoolError,
    > {
        if !self.spec_covers(tick_index, tick_spacing) {
            Err(PoolError::TickArrayIndexOutOfBounds)
        } else if (tick_index - self.start_tick_index) % tick_spacing != 0 {
            Err(PoolError::InvalidTickIndex)
        } else {
            Ok((tick_index - self.start_tick_index) / tick_spacing)
        }
    }

    /// Finds where the record of a tick stands in the array.
    pub fn offset_of(&self, tick_index: i32, tick_spacing: u16) -> (r: Result<usize, PoolError>)
        requires
            self.spec_wf(tick_spacing as int),
        ensures
            match self.spec_offset_of(tick_index as int, tick_spacing as int) {
                Ok(k) => r == Ok::<usize, PoolError>(k as usize) && 0 <= k < TICK_ARRAY_SIZE,
                Err(e) => r == Err::<usize, PoolError>(e),
            },
    {
        assert(1 <= tick_spacing * TICK_ARRAY_SIZE <= 65535 * 88) by (nonlinear_arith)
            requires
                1 <= tick_spacing <= 65535,
                TICK_ARRAY_SIZE == 88,
        ;
        let span: i64 = (tick_spacing as i64) * (TICK_ARRAY_SIZE as i64);
        let distance: i64 = (tick_index as i64) - (self.start_tick_index as i64);
        if distance < 0 || distance >= span {
            return Err(PoolError::TickArrayIndexOutOfBounds);
        }
        if distance % (tick_spacing as i64) != 0 {
            return Err(PoolError::InvalidTickIndex);
        }
        proof {
            let s = tick_spacing as int;
            let d = distance as int;
            vstd::arithmetic::div_mod::lemma_fundamental_div_mod(d, s);
            vstd::arithmetic::div_mod::lemma_div_pos_is_pos(d, s);
            assert(d / s < 88) by (nonlinear_arith)
                requires
                    d == s * (d / s) + 0,
                    d < s * 88,
                    s > 0,
            ;
        }
        Ok((distance / (tick_spacing as i64)) as usize)
    }

    /// Reads the record of a tick that the array covers.
    pub fn get_tick(&self, tick_index: i32, tick_spacing: u16) -> (r: Result<Tick, PoolError>)
        requires
            self.spec_wf(tick_spacing as int),
        ensures
            match self.spec_offset_of(tick_index as int, tick_spacing as int) {
                Ok(k) => r == Ok::<Tick, PoolError>(self.ticks@[k]),
                Err(e) => r == Err::<Tick, PoolError>(e),
            },
    {
        match self.offset_of(tick_index, tick_spacing) {
            Ok(k) => Ok(self.ticks[k]),
            Err(e) => Err(e),
        }
    }

    /// Writes the record of a tick that the array covers. On a failure the
    /// array is left as it is.
    pub fn set_tick(&mut self, tick_index: i32, tick_spacing: u16, tick: Tick) -> (r: Result<
        (),
        PoolError,
    >)
        requires
            old(self).spec_wf(tick_spacing as int),
        ensures
            final(self).spec_wf(tick_spacing as int),
            final(self).bump == old(self).bump,
            final(self).pool == old(self).pool,
            final(self).start_tick_index == old(self).start_tick_index,
            match old(self).spec_offset_of(tick_index as int, tick_spacing as int) {
                Ok(k) => r == Ok::<(), PoolError>(()) && final(self).ticks@ == old(
                    self,
                ).ticks@.update(k, tick),
                Err(e) => r == Err::<(), PoolError>(e) && final(self).ticks@ == old(self).ticks@,
            },
    {
        match self.offset_of(tick_index, tick_spacing) {
            Ok(k) => {
                self.ticks[k] = tick;
                Ok(())
            },
            Err(e) => Err(e),
        }
    }
}

/// Whether an index is a multiple of the span of one tick array.
pub fn is_array_start(start_tick_index: i32, tick_spacing: u16) -> (r: bool)
    requires
        tick_spacing > 0,
    ensures
        r == (start_tick_index as int % (tick_spacing as int * TICK_ARRAY_SIZE as int) == 0),
{
    assert(1 <= tick_spacing * TICK_ARRAY_SIZE <= 65535 * 88) by (nonlinear_arith)
        requires
            1 <= tick_spacing <= 65535,
            TICK_ARRAY_SIZE == 88,
    ;
    let span: i64 = (tick_spacing as i64) * (TICK_ARRAY_SIZE as i64);
    let magnitude: i64 = if start_tick_index < 0 {
        -(start_tick_index as i64)
    } else {
        start_tick_index as i64
    };
    proof {
        // a number is a multiple of the span exactly when its magnitude is
        let t = start_tick_index as int;
        let n = span as int;
        let m = magnitude as int;
        vstd::arithmetic::div_mod::lemma_fundamental_div_mod(t, n);
        vstd::arithmetic::div_mod::lemma_fundamental_div_mod(m, n);
        if start_tick_index < 0 {
            if m % n == 0 {
                assert(t == (-(m / n)) * n + 0) by (nonlinear_arith)
                    requires
                        m == n * (m / n) + 0,
                        t == -m,
                ;
                vstd::arithmetic::div_mod::lemma_fundamental_div_mod_converse(t, n, -(m / n), 0);
            }
            if t % n == 0 {
                assert(m == (-(t / n)) * n + 0) by (nonlinear_arith)
                    requires
                        t == n * (t / n) + 0,
                        t == -m,
                ;
                vstd::arithmetic::div_mod::lemma_fundamental_div_mod_converse(m, n, -(t / n), 0);
            }
        }
    }
    magnitude % span == 0
}

} // verus!
