use vstd::prelude::*;
use crate::error_handler::HardwareError;

verus! {

/// Number of LEDs driven by a controller.
pub const LED_COUNT: usize = 2;

/// Levels after a `set_state` that stopped at output `k`: outputs before `k`
/// were driven to `level`, the rest keep their `before` level.
pub open spec fn driven_up_to(before: Seq<bool>, level: bool, k: int) -> Seq<bool> {
    Seq::new(before.len(), |i: int| if i < k { level } else { before[i] })
}

/// The writes `(0, level), (1, level), ..., (n - 1, level)`, in that order.
pub open spec fn writes_in_order(level: bool, n: int) -> Seq<(usize, bool)> {
    Seq::new(n as nat, |j: int| (j as usize, level))
}

/// A call `write(index, level)` can return `result`.
pub open spec fn write_returned<W: FnMut(usize, bool) -> Result<(), HardwareError>>(
    index: usize,
    level: bool,
    result: Result<(), HardwareError>,
) -> bool {
    exists|w: W| #[trigger] w.ensures((index, level), result)
}

/// A call `write(index, level)` can succeed.
pub open spec fn write_succeeded<W: FnMut(usize, bool) -> Result<(), HardwareError>>(
    index: usize,
    level: bool,
) -> bool {
    exists|o: Result<(), HardwareError>| o is Ok && #[trigger] write_returned::<W>(index, level, o)
}

/// A set of LEDs driven through a write function `write(index, level)`
/// (index 0 is LED1, index 1 is LED2). The controller keeps the level it last
/// commanded on each output; toggling goes by that level, so it is right only
/// while nothing else drives the outputs. It also keeps, as ghost state, the
/// list of writes it has issued.
pub struct LedController {
    levels: Vec<bool>,
    issued: Ghost<Seq<(usize, bool)>>,
}

/// What a `set_state(level)` call that returned `r` did, going from `before`
/// to `after`: on success it wrote every output in index order, each write
/// succeeding; on failure it wrote outputs `0..=k` in order, the writes
/// before `k` succeeding and the write to `k` returning the error, and
/// outputs after `k` were not written.
pub open spec fn set_all_done<W: FnMut(usize, bool) -> Result<(), HardwareError>>(
    before: LedController,
    after: LedController,
    level: bool,
    r: Result<(), HardwareError>,
) -> bool {
    &&& after.wf()
    &&& r is Ok ==> {
        &&& after.commanded() == driven_up_to(before.commanded(), level, LED_COUNT as int)
        &&& after.writes() == before.writes() + writes_in_order(level, LED_COUNT as int)
        &&& forall|i: usize| i < LED_COUNT ==> #[trigger] write_succeeded::<W>(i, level)
    }
    &&& r is Err ==> exists|k: usize|
        {
            &&& k < LED_COUNT
            &&& after.commanded() == driven_up_to(before.commanded(), level, k as int)
            &&& after.writes() == before.writes() + writes_in_order(level, k + 1)
            &&& forall|i: usize| i < k ==> #[trigger] write_succeeded::<W>(i, level)
            &&& #[trigger] write_returned::<W>(k, level, r)
        }
}

impl LedController {
    /// The last level commanded on each output, in index order.
    pub closed spec fn commanded(&self) -> Seq<bool> {
        self.levels@
    }

    /// Every write issued so far, as `(index, level)`, oldest first.
    pub closed spec fn writes(&self) -> Seq<(usize, bool)> {
        self.issued@
    }

    pub open spec fn wf(&self) -> bool {
        self.commanded().len() == LED_COUNT
    }

    /// A controller whose outputs start low, with no write issued.
    pub fn new() -> (r: Self)
        ensures
            r.wf(),
            r.commanded() == seq![false, false],
            r.writes() == Seq::<(usize, bool)>::empty(),
    {
        LedController { levels: vec![false, false], issued: Ghost(Seq::empty()) }
    }

    /// Drives output `index` to `level` with one write, and records the level
    /// when the write succeeds. Returns what the write returned.
    fn set_output<W>(&mut self, index: usize, level: bool, write: &mut W) -> (r: Result<(), HardwareError>)
        where
            W: FnMut(usize, bool) -> Result<(), HardwareError>,
        requires
            old(self).wf(),
            index < LED_COUNT,
            forall|w: W, i: usize, l: bool| w.requires((i, l)),
        ensures
            final(self).wf(),
            final(self).writes() == old(self).writes().push((index, level)),
            write_returned::<W>(index, level, r),
            r is Ok ==> final(self).commanded() == old(self).commanded().update(index as int, level),
            r is Err ==> final(self).commanded() == old(self).commanded(),
    {
        let ghost w0 = *write;
        let outcome = write(index, level);
        assert(w0.ensures((index, level), outcome));
        self.issued = Ghost(self.issued@.push((index, level)));
        if outcome.is_ok() {
            self.levels.set(index, level);
        }
        outcome
    }

    /// Inverts output `index` from its last commanded level.
    fn toggle<W>(&mut self, index: usize, write: &mut W) -> (r: Result<(), HardwareError>)
        where
            W: FnMut(usize, bool) -> Result<(), HardwareError>,
        requires
            old(self).wf(),
            index < LED_COUNT,
            forall|w: W, i: usize, l: bool| w.requires((i, l)),
        ensures
            final(self).wf(),
            final(self).writes() == old(self).writes().push(
                (index, !old(self).commanded()[index as int]),
            ),
            write_returned::<W>(index, !old(self).commanded()[index as int], r),
            r is Ok ==> final(self).commanded() == old(self).commanded().update(
                index as int,
                !old(self).commanded()[index as int],
            ),
            r is Err ==> final(self).commanded() == old(self).commanded(),
    {
        let level = !self.levels[index];
        self.set_output(index, level, write)
    }

    /// Sets LED1 to `state` with one write to output 0.
    pub fn set_led1<W>(&mut self, state: bool, write: &mut W) -> (r: Result<(), HardwareError>)
        where
            W: FnMut(usize, bool) -> Result<(), HardwareError>,
        requires
            old(self).wf(),
            forall|w: W, i: usize, l: bool| w.requires((i, l)),
        ensures
            final(self).wf(),
            final(self).writes() == old(self).writes().push((0, state)),
            write_returned::<W>(0, state, r),
            r is Ok ==> final(self).commanded() == old(self).commanded().update(0, state),
            r is Err ==> final(self).commanded() == old(self).commanded(),
    {
        self.set_output(0, state, write)
    }

    /// Sets LED2 to `state` with one write to output 1.
    pub fn set_led2<W>(&mut self, state: bool, write: &mut W) -> (r: Result<(), HardwareError>)
        where
            W: FnMut(usize, bool) -> Result<(), HardwareError>,
        requires
            old(self).wf(),
            forall|w: W, i: usize, l: bool| w.requires((i, l)),
        ensures
            final(self).wf(),
            final(self).writes() == old(self).writes().push((1, state)),
            write_returned::<W>(1, state, r),
            r is Ok ==> final(self).commanded() == old(self).commanded().update(1, state),
            r is Err ==> final(self).commanded() == old(self).commanded(),
    {
        self.set_output(1, state, write)
    }

    /// Drives every output to `state`, in index order, stopping at the first
    /// failed write. Outputs written before the failure keep the new level:
    /// nothing is rolled back, and the caller decides whether to retry.
    pub fn set_state<W>(&mut self, state: bool, write: &mut W) -> (r: Result<(), HardwareError>)
        where
            W: FnMut(usize, bool) -> Result<(), HardwareError>,
        requires
            old(self).wf(),
            forall|w: W, i: usize, l: bool| w.requires((i, l)),
        ensures
            set_all_done::<W>(*old(self), *final(self), state, r),
            r is Ok ==> forall|i: int| 0 <= i < LED_COUNT ==> #[trigger] final(self).commanded()[i] == state,
    {
        let mut i: usize = 0;
        while i < LED_COUNT
            invariant
                self.wf(),
                i <= LED_COUNT,
                self.commanded() == driven_up_to(old(self).commanded(), state, i as int),
                self.writes() == old(self).writes() + writes_in_order(state, i as int),
                forall|j: usize| j < i ==> #[trigger] write_succeeded::<W>(j, state),
                forall|w: W, j: usize, l: bool| w.requires((j, l)),
            decreases LED_COUNT - i,
        {
            let outcome = self.set_output(i, state, write);
            assert(self.writes() =~= old(self).writes() + writes_in_order(state, i + 1)) by {
                assert(writes_in_order(state, i + 1) =~= writes_in_order(state, i as int).push((i, state)));
            }
            match outcome {
                Ok(()) => {
                    assert(write_succeeded::<W>(i, state));
                    assert(self.commanded() =~= driven_up_to(
                        old(self).commanded(),
                        state,
                        i + 1,
                    ));
                },
                Err(e) => {
                    assert(write_returned::<W>(i, state, Err(e)));
                    return Err(e);
                },
            }
            i = i + 1;
        }
        Ok(())
    }

    /// Inverts LED1 from its last commanded level, with one write to output 0.
    pub fn toggle_led1<W>(&mut self, write: &mut W) -> (r: Result<(), HardwareError>)
        where
            W: FnMut(usize, bool) -> Result<(), HardwareError>,
        requires
            old(self).wf(),
            forall|w: W, i: usize, l: bool| w.requires((i, l)),
        ensures
            final(self).wf(),
            final(self).writes() == old(self).writes().push((0, !old(self).commanded()[0])),
            write_returned::<W>(0, !old(self).commanded()[0], r),
            r is Ok ==> final(self).commanded() == old(self).commanded().update(
                0,
                !old(self).commanded()[0],
            ),
            r is Err ==> final(self).commanded() == old(self).commanded(),
    {
        self.toggle(0, write)
    }

    /// Inverts LED2 from its last commanded level, with one write to output 1.
    pub fn toggle_led2<W>(&mut self, write: &mut W) -> (r: Result<(), HardwareError>)
        where
            W: FnMut(usize, bool) -> Result<(), HardwareError>,
        requires
            old(self).wf(),
            forall|w: W, i: usize, l: bool| w.requires((i, l)),
        ensures
            final(self).wf(),
            final(self).writes() == old(self).writes().push((1, !old(self).commanded()[1])),
            write_returned::<W>(1, !old(self).commanded()[1], r),
            r is Ok ==> final(self).commanded() == old(self).commanded().update(
                1,
                !old(self).commanded()[1],
            ),
            r is Err ==> final(self).commanded() == old(self).commanded(),
    {
        self.toggle(1, write)
    }

    /// The level last commanded on output `index`.
    pub fn commanded_level(&self, index: usize) -> (r: bool)
        requires
            self.wf(),
            index < LED_COUNT,
        ensures
            r == self.commanded()[index as int],
    {
        self.levels[index]
    }
}

} // verus!
