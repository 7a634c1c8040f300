//! Positions within a cycle, and the table entry that covers a position.

use vstd::prelude::*;

verus! {

/// The index, in a table of `length` entries that spans one cycle, of the
/// entry that covers the position `ticks / per_cycle`: the position scaled
/// to the table, rounded down, and wrapped into the table.
pub open spec fn table_index(ticks: int, per_cycle: int, length: int) -> int {
    ((ticks * length) / per_cycle) % length
}

/// A position in a periodic signal, as an exact fraction of a cycle.
///
/// The position is `ticks / per_cycle` cycles. It is normalized when it lies
/// in the first cycle; positions beyond it are legal and mean the same point
/// of the waveform one or more cycles later.
#[derive(Clone, Copy, Debug)]
pub struct Phase {
    ticks: u64,
    per_cycle: u64,
}

impl Phase {
    /// What holds of every position: its cycle has at least one tick.
    #[verifier::type_invariant]
    pub open spec fn wf(self) -> bool {
        self.spec_per_cycle() > 0
    }

    /// The numerator of the position.
    pub closed spec fn spec_ticks(self) -> nat {
        self.ticks as nat
    }

    /// The denominator of the position: how many ticks make one cycle.
    pub closed spec fn spec_per_cycle(self) -> nat {
        self.per_cycle as nat
    }

    /// Whether the position lies in the first cycle.
    pub open spec fn is_normalized(self) -> bool {
        self.spec_ticks() < self.spec_per_cycle()
    }

    /// The position `ticks / per_cycle`, or `None` when `per_cycle` is zero.
    pub fn new(ticks: u64, per_cycle: u64) -> (phase: Option<Phase>)
        ensures
            phase is None <==> per_cycle == 0,
            phase matches Some(p) ==> p.spec_ticks() == ticks && p.spec_per_cycle() == per_cycle,
    {
        if per_cycle == 0 {
            None
        } else {
            Some(Phase { ticks, per_cycle })
        }
    }

    /// The position `ticks / per_cycle`, for a `per_cycle` that is known not
    /// to be zero.
    pub(crate) fn within(ticks: u64, per_cycle: u64) -> (phase: Phase)
        requires
            per_cycle > 0,
        ensures
            phase.spec_ticks() == ticks,
            phase.spec_per_cycle() == per_cycle,
    {
        Phase { ticks, per_cycle }
    }

    /// The numerator of the position.
    pub fn ticks(&self) -> (ticks: u64)
        ensures
            ticks == self.spec_ticks(),
    {
        self.ticks
    }

    /// The denominator of the position; never zero.
    pub fn per_cycle(&self) -> (per_cycle: u64)
        ensures
            per_cycle == self.spec_per_cycle(),
            per_cycle > 0,
    {
        proof {
            use_type_invariant(self);
        }
        self.per_cycle
    }

    /// The table entry that covers this position in a table of `length`
    /// entries.
    pub fn index_in(&self, length: usize) -> (index: usize)
        requires
            length > 0,
        ensures
            index == table_index(
                self.spec_ticks() as int,
                self.spec_per_cycle() as int,
                length as int,
            ),
            index < length,
    {
        proof {
            use_type_invariant(self);
            assert(self.ticks * length <= u128::MAX) by (nonlinear_arith)
                requires
                    self.ticks <= u64::MAX,
                    length <= u64::MAX,
            ;
        }
        let scaled: u128 = (self.ticks as u128) * (length as u128);
        let index: u128 = (scaled / (self.per_cycle as u128)) % (length as u128);
        index as usize
    }
}

/// The table index of a position does not change when whole cycles are
/// added to the position, and always lies within the table.
pub proof fn lemma_table_index_periodic(ticks: int, per_cycle: int, length: int, cycles: int)
    requires
        length > 0,
        per_cycle > 0,
    ensures
        table_index(ticks + cycles * per_cycle, per_cycle, length) == table_index(
            ticks,
            per_cycle,
            length,
        ),
        0 <= table_index(ticks, per_cycle, length) < length,
{
    let shifted = (ticks + cycles * per_cycle) * length;
    let turns = cycles * length;
    assert(shifted == ticks * length + turns * per_cycle) by (nonlinear_arith)
        requires
            shifted == (ticks + cycles * per_cycle) * length,
            turns == cycles * length,
    ;
    let quotient = (ticks * length) / per_cycle;
    assert(shifted / per_cycle == quotient + turns) by {
        vstd::arithmetic::div_mod::lemma_hoist_over_denominator(
            ticks * length,
            turns,
            per_cycle as nat,
        );
    }
    assert((quotient + turns) % length == quotient % length) by {
        vstd::arithmetic::div_mod::lemma_mod_multiples_vanish(cycles, quotient, length);
        assert(length * cycles == cycles * length) by (nonlinear_arith);
    }
    vstd::arithmetic::div_mod::lemma_mod_bound(quotient, length);
}

/// The index of a position within the first cycle is the position scaled to
/// the table and rounded down; nothing is wrapped. Where the cycle has as
/// many ticks as the table has entries, the index is the number of ticks.
pub proof fn lemma_table_index_normalized(ticks: int, per_cycle: int, length: int)
    requires
        length > 0,
        0 <= ticks < per_cycle,
    ensures
        table_index(ticks, per_cycle, length) == (ticks * length) / per_cycle,
        per_cycle == length ==> table_index(ticks, per_cycle, length) == ticks,
{
    let scaled = ticks * length;
    assert(0 <= scaled < length * per_cycle) by (nonlinear_arith)
        requires
            length > 0,
            0 <= ticks < per_cycle,
            scaled == ticks * length,
    ;
    vstd::arithmetic::div_mod::lemma_div_pos_is_pos(scaled, per_cycle);
    vstd::arithmetic::div_mod::lemma_div_by_multiple_is_strongly_ordered(
        scaled,
        length * per_cycle,
        length,
        per_cycle,
    );
    vstd::arithmetic::div_mod::lemma_div_by_multiple(length, per_cycle);
    vstd::arithmetic::div_mod::lemma_small_mod((scaled / per_cycle) as nat, length as nat);
    if per_cycle == length {
        vstd::arithmetic::div_mod::lemma_div_by_multiple(ticks, length);
    }
}

} // verus!
