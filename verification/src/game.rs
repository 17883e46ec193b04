//! The resource state and the five command handlers.
//!
//! A single [`GameState`] aggregate holds every counter. The handlers check
//! a command's preconditions against it, mutate it, and report what they
//! did; every rejected command leaves the state exactly as it was. The one
//! deliberate exception is [`GameState::assemble_units`]: the affordability
//! warning compares the reserves against the price of a single unit, yet
//! the debit scales with the requested count, so a large order can drive
//! the titanium balance below zero. The balance is therefore signed.

use vstd::prelude::*;
use crate::text::{normalize, normalize_spec, parse_spec, parse_u64, token_eq, trim_spec};

verus! {

/// Price of one assembled unit, in titanium.
pub const UNIT_COST: u64 = 5;

/// Starting price of the first upgrade of either module.
pub const BASE_UPGRADE_COST: u64 = 15;

/// Powers of two, for the doubling upgrade prices.
pub open spec fn pow2(n: nat) -> nat
    decreases n,
{
    if n == 0 {
        1
    } else {
        2 * pow2((n - 1) as nat)
    }
}

/// A power of two exceeds its exponent.
pub proof fn lemma_pow2_ge(n: nat)
    ensures
        pow2(n) >= n + 1,
    decreases n,
{
    if n > 0 {
        lemma_pow2_ge((n - 1) as nat);
    }
}

/// Bounds that the upgrade-price invariant puts on a state: the doubling
/// prices fit in a machine word only while the module counters stay small,
/// and each price never falls below the base price.
pub proof fn lemma_wf_bounds(s: GameState)
    requires
        s.wf(),
    ensures
        s.core_cost >= BASE_UPGRADE_COST,
        s.recycler_cost >= BASE_UPGRADE_COST,
        s.cores < u64::MAX,
        s.recycler < u64::MAX,
        s.recycler <= i64::MAX,
{
    lemma_pow2_ge((s.cores - 1) as nat);
    lemma_pow2_ge((s.recycler - 1) as nat);
    assert(BASE_UPGRADE_COST * s.cores <= BASE_UPGRADE_COST * pow2((s.cores - 1) as nat));
    assert(BASE_UPGRADE_COST * s.recycler <= BASE_UPGRADE_COST * pow2(
        (s.recycler - 1) as nat,
    ));
}

/// All the mutable counters of one play session.
#[derive(Clone, Copy, PartialEq, Eq, Structural, Debug)]
pub struct GameState {
    /// Raw resource on hand. Signed: an oversized assembly order may
    /// lawfully drive it below zero.
    pub titanium: i64,
    /// Production modules owned.
    pub cores: u64,
    /// Efficiency multiplier: titanium gained per production tick.
    pub recycler: u64,
    /// Price of the next core upgrade.
    pub core_cost: u64,
    /// Price of the next recycler upgrade.
    pub recycler_cost: u64,
    /// Assembled combat units owned.
    pub units: u64,
    /// Flavor attribute of the units; no handler reads it.
    pub unit_power: u64,
}

/// The statistics that an evaluation reports.
#[derive(Clone, Copy, PartialEq, Eq, Structural, Debug)]
pub struct Report {
    pub titanium: i64,
    pub cores: u64,
    pub recycler: u64,
    pub units: u64,
}

/// Why a handler abandoned the current command. Every error is recovered
/// locally: the caller reports it and returns to the menu.
#[derive(Clone, Copy, PartialEq, Eq, Structural, Debug)]
pub enum CommandError {
    /// A duration line that is not a non-negative number.
    ParseError,
    /// A model token outside the catalogue.
    UnrecognizedModel,
    /// A count line that is not a non-negative number.
    InvalidCount,
    /// An adjustment token outside the catalogue, or an unaffordable one.
    UnrecognizedAdjustment,
}

/// Which module an adjustment upgraded.
#[derive(Clone, Copy, PartialEq, Eq, Structural, Debug)]
pub enum AdjustKind {
    Cores,
    Recycler,
}

impl GameState {
    /// The upgrade-price invariant: each price equals the base price
    /// doubled once per successful upgrade of that module, and the module
    /// counters never fall below their starting values.
    pub open spec fn wf(self) -> bool {
        &&& self.cores >= 1
        &&& self.recycler >= 1
        &&& self.core_cost == BASE_UPGRADE_COST * pow2((self.cores - 1) as nat)
        &&& self.recycler_cost == BASE_UPGRADE_COST * pow2((self.recycler - 1) as nat)
    }

    /// The state every session starts from.
    pub fn initial() -> (s: GameState)
        ensures
            s.titanium == 0,
            s.cores == 1,
            s.recycler == 1,
            s.core_cost == BASE_UPGRADE_COST,
            s.recycler_cost == BASE_UPGRADE_COST,
            s.units == 0,
            s.unit_power == 10,
            s.wf(),
    {
        GameState {
            titanium: 0,
            cores: 1,
            recycler: 1,
            core_cost: BASE_UPGRADE_COST,
            recycler_cost: BASE_UPGRADE_COST,
            units: 0,
            unit_power: 10,
        }
    }

    /// Reads the statistics. Takes the state by shared borrow: evaluation
    /// cannot mutate anything.
    pub fn evaluate(&self) -> (r: Report)
        ensures
            r.titanium == self.titanium,
            r.cores == self.cores,
            r.recycler == self.recycler,
            r.units == self.units,
    {
        Report {
            titanium: self.titanium,
            cores: self.cores,
            recycler: self.recycler,
            units: self.units,
        }
    }

    /// The permanently unimplemented placeholder: attacking changes
    /// nothing.
    pub fn attack(&mut self)
        ensures
            *final(self) == *old(self),
    {
    }

    /// One production tick: the recycler level is credited to the titanium
    /// reserves.
    pub fn produce_tick(&mut self)
        requires
            old(self).recycler <= i64::MAX,
            old(self).titanium + old(self).recycler <= i64::MAX,
        ensures
            final(self).titanium == old(self).titanium + old(self).recycler,
            final(self).cores == old(self).cores,
            final(self).recycler == old(self).recycler,
            final(self).core_cost == old(self).core_cost,
            final(self).recycler_cost == old(self).recycler_cost,
            final(self).units == old(self).units,
            final(self).unit_power == old(self).unit_power,
            old(self).wf() ==> final(self).wf(),
    {
        self.titanium = self.titanium + (self.recycler as i64);
    }

    /// The whole effect of a production run: one tick per requested
    /// second. The caller paces the ticks itself when it wants the
    /// per-second progress report.
    pub fn produce(&mut self, seconds: u64)
        requires
            old(self).recycler <= i64::MAX,
            old(self).titanium + seconds * old(self).recycler <= i64::MAX,
        ensures
            final(self).titanium == old(self).titanium + seconds * old(self).recycler,
            final(self).cores == old(self).cores,
            final(self).recycler == old(self).recycler,
            final(self).core_cost == old(self).core_cost,
            final(self).recycler_cost == old(self).recycler_cost,
            final(self).units == old(self).units,
            final(self).unit_power == old(self).unit_power,
            old(self).wf() ==> final(self).wf(),
    {
        let mut k: u64 = 0;
        while k < seconds
            invariant
                k <= seconds,
                self.recycler == old(self).recycler,
                self.recycler <= i64::MAX,
                old(self).titanium + seconds * self.recycler <= i64::MAX,
                self.titanium == old(self).titanium + k * self.recycler,
                self.cores == old(self).cores,
                self.core_cost == old(self).core_cost,
                self.recycler_cost == old(self).recycler_cost,
                self.units == old(self).units,
                self.unit_power == old(self).unit_power,
            decreases seconds - k,
        {
            proof {
                assert((k + 1) * self.recycler == k * self.recycler + self.recycler)
                    by (nonlinear_arith);
                assert((k + 1) * self.recycler <= seconds * self.recycler)
                    by (nonlinear_arith)
                    requires
                        k + 1 <= seconds,
                        self.recycler >= 0,
                ;
            }
            self.produce_tick();
            k += 1;
        }
    }

    /// The production handler: reads the line as a duration in seconds and
    /// runs that many ticks. A line that is not a non-negative number
    /// abandons the command with a parse error and changes nothing.
    pub fn produce_command(&mut self, line: &str) -> (r: Result<u64, CommandError>)
        requires
            old(self).recycler <= i64::MAX,
            (match parse_spec(trim_spec(line@)) {
                Some(n) => old(self).titanium + n * old(self).recycler <= i64::MAX,
                None => true,
            }),
        ensures
            old(self).wf() ==> final(self).wf(),
            (match parse_spec(trim_spec(line@)) {
                Some(n) => {
                    &&& r == Ok::<u64, CommandError>(n)
                    &&& final(self).titanium == old(self).titanium + n * old(self).recycler
                    &&& final(self).cores == old(self).cores
                    &&& final(self).recycler == old(self).recycler
                    &&& final(self).core_cost == old(self).core_cost
                    &&& final(self).recycler_cost == old(self).recycler_cost
                    &&& final(self).units == old(self).units
                    &&& final(self).unit_power == old(self).unit_power
                },
                None => r == Err::<u64, CommandError>(CommandError::ParseError) && *final(self)
                    == *old(self),
            }),
    {
        match parse_u64(line) {
            Some(n) => {
                self.produce(n);
                Ok(n)
            },
            None => Err(CommandError::ParseError),
        }
    }

    /// Whether the reserves fall short of the price of a single unit: the
    /// warning the assembly flow prints before it reads a count. The
    /// warning does not stop the order.
    pub fn short_of_unit_cost(&self) -> (r: bool)
        ensures
            r == (self.titanium < UNIT_COST),
    {
        self.titanium < UNIT_COST as i64
    }

    /// Books an assembly order: debits the price of the whole order and
    /// credits the units. The debit is unconditional — the affordability
    /// warning compares against one unit's price only — so the balance may
    /// lawfully go negative here.
    pub fn assemble_units(&mut self, count: u64)
        requires
            old(self).titanium - UNIT_COST * count >= i64::MIN,
            old(self).units + count <= u64::MAX,
        ensures
            final(self).titanium == old(self).titanium - UNIT_COST * count,
            final(self).units == old(self).units + count,
            final(self).cores == old(self).cores,
            final(self).recycler == old(self).recycler,
            final(self).core_cost == old(self).core_cost,
            final(self).recycler_cost == old(self).recycler_cost,
            final(self).unit_power == old(self).unit_power,
            old(self).wf() ==> final(self).wf(),
    {
        let debit: u64 = UNIT_COST * count;
        self.titanium = ((self.titanium as i128) - (debit as i128)) as i64;
        self.units = self.units + count;
    }

    /// The assembly handler over both of its input lines: the model line
    /// must name the one catalogued model, then the count line is read as
    /// a non-negative number and the order is booked.
    pub fn assemble_command(&mut self, model_line: &str, count_line: &str) -> (r: Result<
        u64,
        CommandError,
    >)
        requires
            normalize_spec(model_line@) == "t800"@ ==> (match parse_spec(
                trim_spec(count_line@),
            ) {
                Some(n) => old(self).titanium - UNIT_COST * n >= i64::MIN && old(self).units + n
                    <= u64::MAX,
                None => true,
            }),
        ensures
            old(self).wf() ==> final(self).wf(),
            (if normalize_spec(model_line@) != "t800"@ {
                r == Err::<u64, CommandError>(CommandError::UnrecognizedModel) && *final(self)
                    == *old(self)
            } else {
                match parse_spec(trim_spec(count_line@)) {
                    Some(n) => {
                        &&& r == Ok::<u64, CommandError>(n)
                        &&& final(self).titanium == old(self).titanium - UNIT_COST * n
                        &&& final(self).units == old(self).units + n
                        &&& final(self).cores == old(self).cores
                        &&& final(self).recycler == old(self).recycler
                        &&& final(self).core_cost == old(self).core_cost
                        &&& final(self).recycler_cost == old(self).recycler_cost
                        &&& final(self).unit_power == old(self).unit_power
                    },
                    None => r == Err::<u64, CommandError>(CommandError::InvalidCount)
                        && *final(self) == *old(self),
                }
            }),
    {
        if !recognize_model(model_line) {
            return Err(CommandError::UnrecognizedModel);
        }
        match parse_u64(count_line) {
            Some(n) => {
                self.assemble_units(n);
                Ok(n)
            },
            None => Err(CommandError::InvalidCount),
        }
    }

    /// The adjustment handler: `cores` or `recycler` buys the next upgrade
    /// of that module when the reserves cover its current price — the
    /// price is debited, the module counter rises by one, and the price
    /// doubles. Any other token, or an unaffordable upgrade, is rejected
    /// with nothing changed.
    pub fn adjust_command(&mut self, line: &str) -> (r: Result<AdjustKind, CommandError>)
        requires
            old(self).wf(),
        ensures
            final(self).wf(),
            (if normalize_spec(line@) == "cores"@ && old(self).titanium >= old(self).core_cost {
                &&& r == Ok::<AdjustKind, CommandError>(AdjustKind::Cores)
                &&& final(self).titanium == old(self).titanium - old(self).core_cost
                &&& final(self).cores == old(self).cores + 1
                &&& final(self).core_cost == 2 * old(self).core_cost
                &&& final(self).recycler == old(self).recycler
                &&& final(self).recycler_cost == old(self).recycler_cost
                &&& final(self).units == old(self).units
                &&& final(self).unit_power == old(self).unit_power
            } else if normalize_spec(line@) == "recycler"@ && old(self).titanium >= old(
                self,
            ).recycler_cost {
                &&& r == Ok::<AdjustKind, CommandError>(AdjustKind::Recycler)
                &&& final(self).titanium == old(self).titanium - old(self).recycler_cost
                &&& final(self).recycler == old(self).recycler + 1
                &&& final(self).recycler_cost == 2 * old(self).recycler_cost
                &&& final(self).cores == old(self).cores
                &&& final(self).core_cost == old(self).core_cost
                &&& final(self).units == old(self).units
                &&& final(self).unit_power == old(self).unit_power
            } else {
                r == Err::<AdjustKind, CommandError>(CommandError::UnrecognizedAdjustment)
                    && *final(self) == *old(self)
            }),
    {
        proof {
            lemma_wf_bounds(*self);
            reveal_strlit("cores");
            reveal_strlit("recycler");
            assert("cores"@.len() == 5);
            assert("recycler"@.len() == 8);
        }
        let t = normalize(line);
        if token_eq(&t, "cores") {
            if self.titanium >= 0 && (self.titanium as u64) >= self.core_cost {
                self.titanium = self.titanium - (self.core_cost as i64);
                self.cores = self.cores + 1;
                self.core_cost = self.core_cost * 2;
                proof {
                    assert(pow2((self.cores - 1) as nat) == 2 * pow2(
                        (old(self).cores - 1) as nat,
                    ));
                }
                Ok(AdjustKind::Cores)
            } else {
                Err(CommandError::UnrecognizedAdjustment)
            }
        } else if token_eq(&t, "recycler") {
            if self.titanium >= 0 && (self.titanium as u64) >= self.recycler_cost {
                self.titanium = self.titanium - (self.recycler_cost as i64);
                self.recycler = self.recycler + 1;
                self.recycler_cost = self.recycler_cost * 2;
                proof {
                    assert(pow2((self.recycler - 1) as nat) == 2 * pow2(
                        (old(self).recycler - 1) as nat,
                    ));
                }
                Ok(AdjustKind::Recycler)
            } else {
                Err(CommandError::UnrecognizedAdjustment)
            }
        } else {
            Err(CommandError::UnrecognizedAdjustment)
        }
    }
}

/// Whether a model line names the one catalogued unit model.
pub fn recognize_model(line: &str) -> (r: bool)
    ensures
        r == (normalize_spec(line@) == "t800"@),
{
    let t = normalize(line);
    token_eq(&t, "t800")
}

} // verus!
