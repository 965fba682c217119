//! The droplet budget of the erosion simulation: how many droplets a pass
//! issues, how many have been issued so far, and the ceiling at which the
//! simulation stops issuing them.

use vstd::prelude::*;

verus! {

/// Largest number of droplets that one pass may issue.
pub const MAX_DROPS_PER_CYCLE: u32 = 2048;

/// Largest ceiling that the budget may have.
pub const MAX_DROP_CEILING: u32 = 400_000;

/// Droplets per pass of a fresh budget.
pub const DEFAULT_DROPS_PER_CYCLE: u32 = 1000;

/// Ceiling of a fresh budget.
pub const DEFAULT_MAX_DROPS: u32 = 200_000;

/// The counters that decide whether an erosion pass runs and how many
/// droplets it issues.
///
/// `drops_per_cycle` is at most `MAX_DROPS_PER_CYCLE` and `max_drops` at most
/// `MAX_DROP_CEILING`; a value outside its range is limited to it when it is
/// set. `drop_count` only grows, by `drops_per_cycle` in every pass that
/// runs, until `reset` puts it back to zero.
#[derive(Clone, Copy, Debug, PartialEq, Eq)]
pub struct DropBudget {
    drops_per_cycle: u32,
    drop_count: u32,
    max_drops: u32,
}

/// What a `DropBudget` holds.
pub struct BudgetView {
    pub drops_per_cycle: u32,
    pub drop_count: u32,
    pub max_drops: u32,
}

/// `v` if it is at most `limit`, else `limit`.
pub open spec fn at_most(v: u32, limit: u32) -> u32 {
    if v <= limit {
        v
    } else {
        limit
    }
}

impl BudgetView {
    /// Every counter is in its range.
    pub open spec fn wf(self) -> bool {
        &&& self.drops_per_cycle <= MAX_DROPS_PER_CYCLE
        &&& self.max_drops <= MAX_DROP_CEILING
        &&& self.drop_count <= MAX_DROP_CEILING + MAX_DROPS_PER_CYCLE
    }

    /// No further droplet may be issued.
    pub open spec fn exhausted(self) -> bool {
        self.drop_count >= self.max_drops
    }

    /// The budget after a pass has run: the whole batch is counted at once.
    pub open spec fn after_pass(self) -> BudgetView {
        BudgetView { drop_count: (self.drop_count + self.drops_per_cycle) as u32, ..self }
    }

    /// The budget after a pass was asked for: unchanged if the budget was
    /// exhausted, else with the batch counted.
    pub open spec fn after_request(self) -> BudgetView {
        if self.exhausted() {
            self
        } else {
            self.after_pass()
        }
    }

    /// The number of droplets that a pass asked for now would issue.
    pub open spec fn granted(self) -> Option<u32> {
        if self.exhausted() {
            None
        } else {
            Some(self.drops_per_cycle)
        }
    }
}

impl View for DropBudget {
    type V = BudgetView;

    closed spec fn view(&self) -> BudgetView {
        BudgetView {
            drops_per_cycle: self.drops_per_cycle,
            drop_count: self.drop_count,
            max_drops: self.max_drops,
        }
    }
}

/// The count never goes down in a pass, and a pass that runs adds exactly
/// the batch size to it.
pub proof fn lemma_count_is_monotonic(budget: BudgetView)
    requires
        budget.wf(),
    ensures
        budget.after_request().drop_count >= budget.drop_count,
        budget.after_request().drops_per_cycle == budget.drops_per_cycle,
        budget.after_request().max_drops == budget.max_drops,
        budget.after_request().wf(),
        !budget.exhausted() ==> budget.after_request().drop_count == budget.drop_count
            + budget.drops_per_cycle,
{
}

/// A budget whose ceiling is zero grants nothing, whatever the batch size.
pub proof fn lemma_zero_ceiling_grants_nothing(budget: BudgetView)
    requires
        budget.max_drops == 0,
    ensures
        budget.exhausted(),
        budget.granted() is None,
        budget.after_request() == budget,
{
}

/// A fresh budget whose ceiling equals its batch size is spent by one pass:
/// the pass issues the whole batch, and the next request grants nothing and
/// leaves the budget as it is.
pub proof fn lemma_single_batch_spends_budget(budget: BudgetView)
    requires
        budget.wf(),
        budget.drop_count == 0,
        budget.drops_per_cycle > 0,
        budget.max_drops == budget.drops_per_cycle,
    ensures
        budget.granted() == Some(budget.drops_per_cycle),
        budget.after_request().drop_count == budget.drops_per_cycle,
        budget.after_request().exhausted(),
        budget.after_request().granted() is None,
        budget.after_request().after_request() == budget.after_request(),
{
}

/// Once a budget is exhausted it stays exhausted through any number of
/// requests, as long as nobody raises the ceiling or resets the count.
pub proof fn lemma_exhausted_stays_exhausted(budget: BudgetView)
    requires
        budget.exhausted(),
    ensures
        budget.after_request() == budget,
        budget.after_request().exhausted(),
{
}

impl DropBudget {
    /// Holds of every budget that exists at run time.
    #[verifier::type_invariant]
    pub open spec fn wf(self) -> bool {
        self@.wf()
    }

    /// A budget with nothing issued yet. Each argument is limited to its
    /// range.
    pub fn new(drops_per_cycle: u32, max_drops: u32) -> (budget: DropBudget)
        ensures
            budget@.wf(),
            budget@.drops_per_cycle == at_most(drops_per_cycle, MAX_DROPS_PER_CYCLE),
            budget@.max_drops == at_most(max_drops, MAX_DROP_CEILING),
            budget@.drop_count == 0,
    {
        DropBudget {
            drops_per_cycle: if drops_per_cycle <= MAX_DROPS_PER_CYCLE {
                drops_per_cycle
            } else {
                MAX_DROPS_PER_CYCLE
            },
            drop_count: 0,
            max_drops: if max_drops <= MAX_DROP_CEILING {
                max_drops
            } else {
                MAX_DROP_CEILING
            },
        }
    }

    /// Droplets issued by every pass that runs.
    pub fn drops_per_cycle(&self) -> (n: u32)
        ensures
            n == self@.drops_per_cycle,
            n <= MAX_DROPS_PER_CYCLE,
    {
        proof {
            use_type_invariant(self);
        }
        self.drops_per_cycle
    }

    /// Droplets issued so far.
    pub fn drop_count(&self) -> (n: u32)
        ensures
            n == self@.drop_count,
    {
        self.drop_count
    }

    /// The count at which no further droplet is issued.
    pub fn max_drops(&self) -> (n: u32)
        ensures
            n == self@.max_drops,
            n <= MAX_DROP_CEILING,
    {
        proof {
            use_type_invariant(self);
        }
        self.max_drops
    }

    /// Sets the batch size, limited to `MAX_DROPS_PER_CYCLE`.
    pub fn set_drops_per_cycle(&mut self, drops_per_cycle: u32)
        ensures
            final(self)@ == (BudgetView {
                drops_per_cycle: at_most(drops_per_cycle, MAX_DROPS_PER_CYCLE),
                ..old(self)@
            }),
    {
        proof {
            use_type_invariant(&*self);
        }
        self.drops_per_cycle = if drops_per_cycle <= MAX_DROPS_PER_CYCLE {
            drops_per_cycle
        } else {
            MAX_DROPS_PER_CYCLE
        };
    }

    /// Sets the ceiling, limited to `MAX_DROP_CEILING`.
    pub fn set_max_drops(&mut self, max_drops: u32)
        ensures
            final(self)@ == (BudgetView {
                max_drops: at_most(max_drops, MAX_DROP_CEILING),
                ..old(self)@
            }),
    {
        proof {
            use_type_invariant(&*self);
        }
        self.max_drops = if max_drops <= MAX_DROP_CEILING {
            max_drops
        } else {
            MAX_DROP_CEILING
        };
    }

    /// Puts the budget back to what `default` gives.
    pub fn reset(&mut self)
        ensures
            final(self)@ == (BudgetView {
                drops_per_cycle: DEFAULT_DROPS_PER_CYCLE,
                drop_count: 0,
                max_drops: DEFAULT_MAX_DROPS,
            }),
    {
        *self = DropBudget {
            drops_per_cycle: DEFAULT_DROPS_PER_CYCLE,
            drop_count: 0,
            max_drops: DEFAULT_MAX_DROPS,
        };
    }

    /// Whether the ceiling has been reached, so that a pass must do nothing.
    pub fn exhausted(&self) -> (done: bool)
        ensures
            done == self@.exhausted(),
    {
        self.drop_count >= self.max_drops
    }

    /// Asks for a pass. An exhausted budget grants none and stays as it is.
    /// Otherwise the whole batch is counted now, and its size is returned:
    /// the number of droplets that the pass has to run.
    pub fn begin_pass(&mut self) -> (batch: Option<u32>)
        ensures
            batch == old(self)@.granted(),
            final(self)@ == old(self)@.after_request(),
    {
        proof {
            use_type_invariant(&*self);
        }
        if self.drop_count >= self.max_drops {
            None
        } else {
            self.drop_count = self.drop_count + self.drops_per_cycle;
            Some(self.drops_per_cycle)
        }
    }
}

impl Default for DropBudget {
    /// A thousand droplets per pass, two hundred thousand in all.
    fn default() -> (budget: DropBudget)
        ensures
            budget@ == (BudgetView {
                drops_per_cycle: DEFAULT_DROPS_PER_CYCLE,
                drop_count: 0,
                max_drops: DEFAULT_MAX_DROPS,
            }),
    {
        DropBudget {
            drops_per_cycle: DEFAULT_DROPS_PER_CYCLE,
            drop_count: 0,
            max_drops: DEFAULT_MAX_DROPS,
        }
    }
}

} // verus!
