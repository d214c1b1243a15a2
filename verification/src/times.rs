//! Times as numbers, with the unit that they are shown in.

use crate::stats::{Arithmetic, Model, Operation, Relation};
use crate::units::TimeUnit;
use vstd::prelude::*;

verus! {

/// A time in nanoseconds, with the unit that it is shown in.
#[derive(Debug)]
pub struct TimeWithUnit<F> {
    pub nano: F,
    pub unit: TimeUnit,
}

impl<F: Copy> Clone for TimeWithUnit<F> {
    fn clone(&self) -> (copy: TimeWithUnit<F>)
        ensures
            copy == *self,
    {
        *self
    }
}

impl<F: Copy> Copy for TimeWithUnit<F> {

}

impl<F> Model<F> {
    /// The value is a number: it is at least as large as itself.
    pub open spec fn is_number(&self, value: F) -> bool {
        (self.relate)(Relation::AtLeast, value, value)
    }

    /// The size of a time is below the limit of a unit.
    pub open spec fn suits(&self, nano: F, unit: TimeUnit) -> bool {
        unit.limit() matches Some(limit) ==> (self.relate)(
            Relation::Above,
            (self.number)(limit),
            self.in_unit(self.size(nano), unit),
        )
    }

    /// The unit that a time is best read in, whatever its sign: the finest that suits it.
    pub open spec fn readable(&self, nano: F) -> TimeUnit {
        if self.suits(nano, TimeUnit::Nanoseconds) {
            TimeUnit::Nanoseconds
        } else if self.suits(nano, TimeUnit::Microseconds) {
            TimeUnit::Microseconds
        } else if self.suits(nano, TimeUnit::Milliseconds) {
            TimeUnit::Milliseconds
        } else if self.suits(nano, TimeUnit::Seconds) {
            TimeUnit::Seconds
        } else if self.suits(nano, TimeUnit::Minutes) {
            TimeUnit::Minutes
        } else if self.suits(nano, TimeUnit::Hours) {
            TimeUnit::Hours
        } else {
            TimeUnit::Days
        }
    }

    /// A time in a unit.
    pub open spec fn in_unit(&self, nano: F, unit: TimeUnit) -> F {
        let seconds = self.over(nano, (self.number)(1_000_000_000));
        match unit {
            TimeUnit::Nanoseconds => nano,
            TimeUnit::Microseconds => self.over(nano, (self.number)(1_000)),
            TimeUnit::Milliseconds => self.over(nano, (self.number)(1_000_000)),
            TimeUnit::Seconds => seconds,
            TimeUnit::Minutes => self.over(seconds, (self.number)(60)),
            TimeUnit::Hours => self.over(seconds, (self.number)(3600)),
            TimeUnit::Days => self.over(
                self.over(seconds, (self.number)(3600)),
                (self.number)(24),
            ),
        }
    }

    /// A time in its own unit, rounded.
    pub open spec fn in_own_unit(&self, time: TimeWithUnit<F>) -> F {
        self.round(self.in_unit(time.nano, time.unit))
    }

    /// An axis that ends at `end` is long enough for a value.
    pub open spec fn holds(&self, end: F, value: F) -> bool {
        (self.relate)(Relation::AtLeast, end, value)
    }

    /// The nice values, in ascending order: a tenth, and then whole numbers.
    pub open spec fn nice_value(&self, i: int) -> F {
        if i == 0 {
            self.over((self.number)(1), (self.number)(10))
        } else {
            (self.number)(nice_wholes()[i - 1])
        }
    }

    /// The end of an axis for a value that is above all nice values: the value rounded, unless
    /// that is below it.
    pub open spec fn whole_end(&self, value: F) -> F {
        if self.holds(self.round(value), value) {
            self.round(value)
        } else {
            value
        }
    }

    /// The first nice value from the `from`th on that is not below a value. If there is none, the
    /// value stands for itself, rounded unless that is below it.
    pub open spec fn next_nice(&self, value: F, from: nat) -> F
        decreases 9 - from,
    {
        if from >= 9 {
            self.whole_end(value)
        } else if self.holds(self.nice_value(from as int), value) {
            self.nice_value(from as int)
        } else {
            self.next_nice(value, from + 1)
        }
    }

    /// The size of a time in its own unit, not rounded.
    pub open spec fn size_in_own_unit(&self, time: TimeWithUnit<F>) -> F {
        self.size(self.in_unit(time.nano, time.unit))
    }

    /// The end of an axis that a time is shown on, in its own unit: the next nice value.
    pub open spec fn axis_end(&self, time: TimeWithUnit<F>) -> F {
        self.next_nice(self.size_in_own_unit(time), 0)
    }
}

/// The nice values that are whole numbers.
pub open spec fn nice_wholes() -> Seq<u64> {
    seq![1, 5, 10, 50, 100, 500, 1000, 5000]
}

impl<
    F: Copy,
    N: Fn(u64) -> F,
    O: Fn(Operation, F, F) -> F,
    R: Fn(Relation, F, F) -> bool,
    W: Fn(F) -> u64,
> Arithmetic<N, O, R, W> {
    /// The quotient of a number and a whole number.
    fn divide(&self, value: F, by: u64) -> (quotient: F)
        requires
            self.is_total(),
        ensures
            forall|model: Model<F>| #[trigger]
                self.follows(model) ==> quotient == model.over(value, (model.number)(by)),
    {
        (self.operate)(Operation::Over, value, (self.number)(by))
    }

    /// Tells whether a number is below a whole number.
    fn is_below(&self, value: F, limit: u64) -> (below: bool)
        requires
            self.is_total(),
        ensures
            forall|model: Model<F>| #[trigger]
                self.follows(model) ==> below == (model.relate)(
                    Relation::Above,
                    (model.number)(limit),
                    value,
                ),
    {
        (self.relate)(Relation::Above, (self.number)(limit), value)
    }
}

impl<F: Copy> TimeWithUnit<F> {
    /// A time in the unit that it is best read in.
    pub fn new<
        N: Fn(u64) -> F,
        O: Fn(Operation, F, F) -> F,
        R: Fn(Relation, F, F) -> bool,
        W: Fn(F) -> u64,
    >(nano: F, arithmetic: &Arithmetic<N, O, R, W>) -> (time: TimeWithUnit<F>)
        requires
            arithmetic.is_total(),
        ensures
            time.nano == nano,
            forall|model: Model<F>| #[trigger]
                arithmetic.follows(model) ==> time.unit == model.readable(nano),
    {
        let size = (arithmetic.operate)(Operation::Size, nano, nano);
        let time = TimeWithUnit::with_unit(size, TimeUnit::Nanoseconds);
        let unit = if arithmetic.is_below(size, 10_000) {
            TimeUnit::Nanoseconds
        } else if arithmetic.is_below(time.as_unit(TimeUnit::Microseconds, arithmetic), 10_000) {
            TimeUnit::Microseconds
        } else if arithmetic.is_below(time.as_unit(TimeUnit::Milliseconds, arithmetic), 10_000) {
            TimeUnit::Milliseconds
        } else if arithmetic.is_below(time.as_unit(TimeUnit::Seconds, arithmetic), 120) {
            TimeUnit::Seconds
        } else if arithmetic.is_below(time.as_unit(TimeUnit::Minutes, arithmetic), 600) {
            TimeUnit::Minutes
        } else if arithmetic.is_below(time.as_unit(TimeUnit::Hours, arithmetic), 48) {
            TimeUnit::Hours
        } else {
            TimeUnit::Days
        };
        TimeWithUnit { nano, unit }
    }

    /// A time that is shown in a given unit.
    pub fn with_unit(nano: F, unit: TimeUnit) -> (time: Self)
        ensures
            time == (TimeWithUnit { nano, unit }),
    {
        TimeWithUnit { nano, unit }
    }

    /// The time in a unit.
    pub fn as_unit<
        N: Fn(u64) -> F,
        O: Fn(Operation, F, F) -> F,
        R: Fn(Relation, F, F) -> bool,
        W: Fn(F) -> u64,
    >(&self, unit: TimeUnit, arithmetic: &Arithmetic<N, O, R, W>) -> (value: F)
        requires
            arithmetic.is_total(),
        ensures
            forall|model: Model<F>| #[trigger]
                arithmetic.follows(model) ==> value == model.in_unit(self.nano, unit),
    {
        match unit {
            TimeUnit::Nanoseconds => self.nano,
            TimeUnit::Microseconds => arithmetic.divide(self.nano, 1_000),
            TimeUnit::Milliseconds => arithmetic.divide(self.nano, 1_000_000),
            TimeUnit::Seconds => arithmetic.divide(self.nano, 1_000_000_000),
            TimeUnit::Minutes => arithmetic.divide(arithmetic.divide(self.nano, 1_000_000_000), 60),
            TimeUnit::Hours => arithmetic.divide(
                arithmetic.divide(self.nano, 1_000_000_000),
                3600,
            ),
            TimeUnit::Days => arithmetic.divide(
                arithmetic.divide(arithmetic.divide(self.nano, 1_000_000_000), 3600),
                24,
            ),
        }
    }

    /// The time in its own unit, rounded.
    pub fn as_own_unit<
        N: Fn(u64) -> F,
        O: Fn(Operation, F, F) -> F,
        R: Fn(Relation, F, F) -> bool,
        W: Fn(F) -> u64,
    >(&self, arithmetic: &Arithmetic<N, O, R, W>) -> (value: F)
        requires
            arithmetic.is_total(),
        ensures
            forall|model: Model<F>| #[trigger]
                arithmetic.follows(model) ==> value == model.in_own_unit(*self),
    {
        let value = self.as_unit(self.unit, arithmetic);
        (arithmetic.operate)(Operation::Round, value, value)
    }

    /// Rounds the time up to the next nice value in its own unit, at which an axis ends.
    pub fn nice_axis_end_value<
        N: Fn(u64) -> F,
        O: Fn(Operation, F, F) -> F,
        R: Fn(Relation, F, F) -> bool,
        W: Fn(F) -> u64,
    >(&self, arithmetic: &Arithmetic<N, O, R, W>) -> (end: F)
        requires
            arithmetic.is_total(),
        ensures
            forall|model: Model<F>| #[trigger]
                arithmetic.follows(model) ==> end == model.axis_end(*self),
    {
        let own = self.as_unit(self.unit, arithmetic);
        let value = (arithmetic.operate)(Operation::Size, own, own);
        let tenth = arithmetic.divide((arithmetic.number)(1), 10);
        if (arithmetic.relate)(Relation::AtLeast, tenth, value) {
            return tenth;
        }
        let wholes: Vec<u64> = vec![1, 5, 10, 50, 100, 500, 1000, 5000];
        let mut i: usize = 0;
        assert(wholes@ =~= nice_wholes());
        while i < wholes.len()
            invariant
                i <= wholes@.len(),
                wholes@ == nice_wholes(),
                arithmetic.is_total(),
                forall|model: Model<F>| #[trigger]
                    arithmetic.follows(model) ==> model.axis_end(*self) == model.next_nice(
                        value,
                        (i + 1) as nat,
                    ),
            decreases wholes.len() - i,
        {
            let end = (arithmetic.number)(wholes[i]);
            if (arithmetic.relate)(Relation::AtLeast, end, value) {
                return end;
            }
            i += 1;
        }
        let rounded = (arithmetic.operate)(Operation::Round, value, value);
        if (arithmetic.relate)(Relation::AtLeast, rounded, value) {
            rounded
        } else {
            value
        }
    }
}

impl<F> Model<F> {
    /// The relations order the numbers: `AtLeast` is transitive and compares any two, what is
    /// above a number is above all that are no larger, and whole numbers keep their order, as
    /// does dividing by a whole number other than 0, and rounding.
    pub open spec fn orders_numbers(&self) -> bool {
        &&& forall|a: F, b: F, c: F|
            #![trigger self.holds(a, b), self.holds(b, c)]
            self.holds(a, b) && self.holds(b, c) ==> self.holds(a, c)
        &&& forall|a: F, b: F|
            #![trigger self.holds(a, b)]
            self.is_number(a) && self.is_number(b) ==> self.holds(a, b) || self.holds(b, a)
        &&& forall|a: F, b: F, c: F|
            #![trigger (self.relate)(Relation::Above, a, b), self.holds(b, c)]
            (self.relate)(Relation::Above, a, b) && self.holds(b, c) ==> (self.relate)(
                Relation::Above,
                a,
                c,
            )
        &&& forall|a: F, b: F, n: u64|
            #![trigger self.over(a, (self.number)(n)), self.over(b, (self.number)(n))]
            n > 0 && self.holds(a, b) ==> self.holds(
                self.over(a, (self.number)(n)),
                self.over(b, (self.number)(n)),
            )
        &&& forall|a: F, b: F|
            #![trigger self.round(a), self.round(b)]
            self.holds(a, b) ==> self.holds(self.round(a), self.round(b))
        &&& forall|m: u64, n: u64|
            #![trigger (self.number)(m), (self.number)(n)]
            m >= n ==> self.holds((self.number)(m), (self.number)(n))
    }

    /// Rounding leaves whole numbers as they are, and takes a tenth down.
    pub open spec fn rounds_to_wholes(&self) -> bool {
        &&& forall|n: u64| #[trigger] self.round((self.number)(n)) == (self.number)(n)
        &&& self.holds(self.nice_value(0), self.round(self.nice_value(0)))
    }

    /// Whole numbers have no sign.
    pub open spec fn counts_without_sign(&self) -> bool {
        forall|n: u64| self.size(#[trigger] (self.number)(n)) == (self.number)(n)
    }

    /// Dividing a number by a whole number other than 0 gives a number, and divides its size.
    pub open spec fn divides_sizes(&self) -> bool {
        forall|a: F, n: u64|
            #![trigger self.over(a, (self.number)(n))]
            n > 0 && self.is_number(a) ==> {
                &&& self.is_number(self.over(a, (self.number)(n)))
                &&& self.size(self.over(a, (self.number)(n))) == self.over(
                    self.size(a),
                    (self.number)(n),
                )
            }
    }

    /// The size that a time has in a unit is below the limit of the unit.
    pub open spec fn is_within(&self, nano: F, unit: TimeUnit) -> bool {
        unit.limit() matches Some(limit) ==> (self.relate)(
            Relation::Above,
            (self.number)(limit),
            self.size(self.in_unit(nano, unit)),
        )
    }
}

/// A time is shown in the finest unit that suits it: its size is below the limit of the chosen
/// unit, and of no finer one.
pub proof fn unit_is_the_finest_that_suits<F>(model: Model<F>, nano: F, finer: TimeUnit)
    ensures
        model.suits(nano, model.readable(nano)),
        finer.nanoseconds() < model.readable(nano).nanoseconds() ==> !model.suits(nano, finer),
{
}

/// A time is shown in the finest unit in which its size is below the limit of that unit: in the
/// chosen unit it is below the limit, and in no finer unit it is.
pub proof fn unit_is_the_finest_within_its_limit<F>(model: Model<F>, nano: F, finer: TimeUnit)
    requires
        model.divides_sizes(),
        model.is_number(nano),
    ensures
        model.is_within(nano, model.readable(nano)),
        finer.nanoseconds() < model.readable(nano).nanoseconds() ==> !model.is_within(nano, finer),
{
    assert forall|unit: TimeUnit| #[trigger] model.is_within(nano, unit) == model.suits(
        nano,
        unit,
    ) by {
        size_in_unit(model, nano, unit);
    }
}

/// The size that a time has in a unit is the size of the time, in that unit.
pub proof fn size_in_unit<F>(model: Model<F>, nano: F, unit: TimeUnit)
    requires
        model.divides_sizes(),
        model.is_number(nano),
    ensures
        model.size(model.in_unit(nano, unit)) == model.in_unit(model.size(nano), unit),
        model.is_number(model.in_unit(nano, unit)),
{
    let seconds = model.over(nano, (model.number)(1_000_000_000));
    assert(model.is_number(seconds));
    let hours = model.over(seconds, (model.number)(3600));
    assert(model.is_number(hours));
}

/// The sign of a time does not matter for the unit that it is shown in.
pub proof fn unit_goes_by_size<F>(model: Model<F>, nano: F, other: F)
    requires
        model.size(nano) == model.size(other),
    ensures
        model.readable(nano) == model.readable(other),
{
}

/// A longer time is never shown in a finer unit.
pub proof fn longer_times_get_no_finer_unit<F>(model: Model<F>, shorter: F, longer: F)
    requires
        model.orders_numbers(),
        model.holds(model.size(longer), model.size(shorter)),
    ensures
        model.readable(shorter).nanoseconds() <= model.readable(longer).nanoseconds(),
{
    let (a, b) = (model.size(longer), model.size(shorter));
    assert forall|unit: TimeUnit| #[trigger] model.suits(longer, unit) implies model.suits(
        shorter,
        unit,
    ) by {
        let (x, y) = (
            model.over(a, (model.number)(1_000_000_000)),
            model.over(b, (model.number)(1_000_000_000)),
        );
        assert(model.holds(x, y));
        assert(model.holds(model.in_unit(a, unit), model.in_unit(b, unit)));
    }
}

impl<F> Model<F> {
    /// Numbers tell whether `n` nanoseconds are below the limits of the units.
    pub open spec fn measures(&self, n: u64) -> bool {
        forall|unit: TimeUnit| #[trigger]
            self.suits((self.number)(n), unit) == unit.suits(n as nat)
    }
}

/// A whole number of nanoseconds is shown in the unit that it is best read in.
pub proof fn whole_time_is_readable<F>(model: Model<F>, n: u64)
    requires
        model.measures(n),
    ensures
        model.readable((model.number)(n)) == TimeUnit::readable(n as nat),
{
}

/// An axis is long enough for the time that it is made for.
pub proof fn axis_holds_time<F>(model: Model<F>, time: TimeWithUnit<F>)
    requires
        model.is_number(model.size_in_own_unit(time)),
    ensures
        model.holds(model.axis_end(time), model.size_in_own_unit(time)),
{
    next_nice_holds(model, model.size_in_own_unit(time), 0);
}

/// The next nice value of a number is not below it.
proof fn next_nice_holds<F>(model: Model<F>, value: F, from: nat)
    requires
        model.is_number(value),
    ensures
        model.holds(model.next_nice(value, from), value),
    decreases 9 - from,
{
    if from < 9 && !model.holds(model.nice_value(from as int), value) {
        next_nice_holds(model, value, from + 1);
    }
}

/// No nice value that is passed over would do: an axis ends at the first nice value that is long
/// enough; if none is, it ends at the time, rounded unless that is below it.
pub proof fn axis_ends_at_first_nice_value<F>(model: Model<F>, time: TimeWithUnit<F>) -> (k: int)
    ensures
        0 <= k <= 9,
        forall|i: int|
            0 <= i < k ==> !model.holds(
                #[trigger] model.nice_value(i),
                model.size_in_own_unit(time),
            ),
        k < 9 ==> {
            &&& model.axis_end(time) == model.nice_value(k)
            &&& model.holds(model.nice_value(k), model.size_in_own_unit(time))
        },
        k == 9 ==> model.axis_end(time) == model.whole_end(model.size_in_own_unit(time)),
{
    first_nice(model, model.size_in_own_unit(time), 0)
}

/// Which of the nice values from the `from`th on is the first that is not below a value.
proof fn first_nice<F>(model: Model<F>, value: F, from: nat) -> (k: int)
    requires
        from <= 9,
    ensures
        from <= k <= 9,
        forall|i: int|
            from <= i < k ==> !model.holds(#[trigger] model.nice_value(i), value),
        k < 9 ==> {
            &&& model.next_nice(value, from) == model.nice_value(k)
            &&& model.holds(model.nice_value(k), value)
        },
        k == 9 ==> model.next_nice(value, from) == model.whole_end(value),
    decreases 9 - from,
{
    if from < 9 && !model.holds(model.nice_value(from as int), value) {
        first_nice(model, value, from + 1)
    } else {
        from as int
    }
}

/// An axis is long enough for its time as it is shown, rounded.
pub proof fn axis_holds_shown_time<F>(model: Model<F>, time: TimeWithUnit<F>)
    requires
        model.orders_numbers(),
        model.rounds_to_wholes(),
        model.is_number(model.size_in_own_unit(time)),
    ensures
        model.holds(model.axis_end(time), model.round(model.size_in_own_unit(time))),
{
    next_nice_holds_rounded(model, model.size_in_own_unit(time), 0);
}

/// The next nice value of a number is not below the number rounded.
proof fn next_nice_holds_rounded<F>(model: Model<F>, value: F, from: nat)
    requires
        model.orders_numbers(),
        model.rounds_to_wholes(),
        model.is_number(value),
    ensures
        model.holds(model.next_nice(value, from), model.round(value)),
    decreases 9 - from,
{
    let rounded = model.round(value);
    assert(model.holds(rounded, rounded)) by {
        assert(model.holds(value, value));
    }
    if from < 9 {
        let end = model.nice_value(from as int);
        if model.holds(end, value) {
            assert(model.holds(model.round(end), rounded));
            assert(model.holds(end, model.round(end))) by {
                if from > 0 {
                    assert(model.round(end) == end);
                    let whole = nice_wholes()[from - 1];
                    assert(model.holds((model.number)(whole), (model.number)(whole)));
                }
            }
        } else {
            next_nice_holds_rounded(model, value, from + 1);
        }
    }
}

/// An axis is at least a tenth long, also for no time at all.
pub proof fn axis_has_a_length<F>(model: Model<F>, time: TimeWithUnit<F>)
    requires
        model.orders_numbers(),
        model.is_number(model.size_in_own_unit(time)),
    ensures
        model.holds(model.axis_end(time), model.nice_value(0)),
{
    let value = model.size_in_own_unit(time);
    let tenth = model.nice_value(0);
    nice_value_is_number(model, 0);
    axis_holds_time(model, time);
    if !model.holds(tenth, value) {
        assert(model.holds(value, tenth));
    }
}

/// The nice values are numbers.
proof fn nice_value_is_number<F>(model: Model<F>, i: int)
    requires
        model.orders_numbers(),
    ensures
        model.is_number(model.nice_value(i)),
{
    let (one, ten) = ((model.number)(1), (model.number)(10));
    assert(model.holds(one, one));
    assert(model.holds(model.over(one, ten), model.over(one, ten)));
    if i != 0 {
        let whole = (model.number)(nice_wholes()[i - 1]);
        assert(model.holds(whole, whole));
    }
}

/// A longer time never gets a shorter axis in the same unit.
pub proof fn axis_grows_with_time<F>(
    model: Model<F>,
    shorter: TimeWithUnit<F>,
    longer: TimeWithUnit<F>,
)
    requires
        model.orders_numbers(),
        model.holds(model.size_in_own_unit(longer), model.size_in_own_unit(shorter)),
        model.is_number(model.size_in_own_unit(longer)),
    ensures
        model.holds(model.axis_end(longer), model.axis_end(shorter)),
{
    next_nice_grows(model, model.size_in_own_unit(shorter), model.size_in_own_unit(longer), 0);
}

/// A larger value never has a smaller next nice value.
proof fn next_nice_grows<F>(model: Model<F>, smaller: F, larger: F, from: nat)
    requires
        model.orders_numbers(),
        model.holds(larger, smaller),
        model.is_number(larger),
    ensures
        model.holds(model.next_nice(larger, from), model.next_nice(smaller, from)),
    decreases 9 - from,
{
    if from < 9 {
        let end = model.nice_value(from as int);
        nice_value_is_number(model, from as int);
        if model.holds(end, larger) {
            assert(model.holds(end, smaller));
        } else if model.holds(end, smaller) {
            assert(model.holds(larger, end));
            next_nice_holds(model, larger, from + 1);
        } else {
            next_nice_grows(model, smaller, larger, from + 1);
        }
    } else {
        let (a, b) = (model.round(larger), model.round(smaller));
        assert(model.holds(a, b));
        assert(model.holds(a, a));
        if !model.holds(a, larger) {
            assert(model.holds(larger, a));
        }
    }
}

/// A time in a unit is the time divided by the length of the unit, where dividing twice is dividing
/// by the product, and dividing by 1 changes nothing.
pub proof fn unit_divides_by_its_length<F>(model: Model<F>, nano: F, unit: TimeUnit)
    requires
        (model.operate)(Operation::Over, nano, (model.number)(1)) == nano,
        forall|a: F, m: u64, n: u64, product: u64|
            #![trigger (model.operate)(
                Operation::Over,
                (model.operate)(Operation::Over, a, (model.number)(m)),
                (model.number)(n),
            ), (model.number)(product)]
            product == m * n && product > 0 ==> (model.operate)(
                Operation::Over,
                (model.operate)(Operation::Over, a, (model.number)(m)),
                (model.number)(n),
            ) == (model.operate)(Operation::Over, a, (model.number)(product)),
    ensures
        model.in_unit(nano, unit) == (model.operate)(
            Operation::Over,
            nano,
            (model.number)(unit.nanoseconds() as u64),
        ),
{
    let seconds = (model.operate)(Operation::Over, nano, (model.number)(1_000_000_000));
    let hours = (model.operate)(Operation::Over, seconds, (model.number)(3600));
    assert(hours == (model.operate)(Operation::Over, nano, (model.number)(3_600_000_000_000)));
    assert((model.operate)(Operation::Over, seconds, (model.number)(60)) == (model.operate)(
        Operation::Over,
        nano,
        (model.number)(60_000_000_000),
    ));
    assert((model.operate)(Operation::Over, hours, (model.number)(24)) == (model.operate)(
        Operation::Over,
        nano,
        (model.number)(86_400_000_000_000),
    ));
}

/// The limits by which the unit of a time is chosen, and that its sign is left out: each unit is
/// chosen if the size of the time is below its limit there, and no finer unit has done.
pub proof fn unit_is_chosen_by_these_limits<F>(model: Model<F>, nano: F)
    ensures
        ({
            let size = (model.operate)(Operation::Size, nano, nano);
            let chosen = model.readable(nano);
            let above = Relation::Above;
            let ns = (model.relate)(
                above,
                (model.number)(10_000),
                model.in_unit(size, TimeUnit::Nanoseconds),
            );
            let us = (model.relate)(
                above,
                (model.number)(10_000),
                model.in_unit(size, TimeUnit::Microseconds),
            );
            let ms = (model.relate)(
                above,
                (model.number)(10_000),
                model.in_unit(size, TimeUnit::Milliseconds),
            );
            let s = (model.relate)(
                above,
                (model.number)(120),
                model.in_unit(size, TimeUnit::Seconds),
            );
            let min = (model.relate)(
                above,
                (model.number)(600),
                model.in_unit(size, TimeUnit::Minutes),
            );
            let h = (model.relate)(above, (model.number)(48), model.in_unit(size, TimeUnit::Hours));
            &&& chosen is Nanoseconds <==> ns
            &&& chosen is Microseconds <==> !ns && us
            &&& chosen is Milliseconds <==> !ns && !us && ms
            &&& chosen is Seconds <==> !ns && !us && !ms && s
            &&& chosen is Minutes <==> !ns && !us && !ms && !s && min
            &&& chosen is Hours <==> !ns && !us && !ms && !s && !min && h
            &&& chosen is Days <==> !ns && !us && !ms && !s && !min && !h
        }),
{
}

/// A time is shown rounded, in its own unit.
pub proof fn time_is_shown_rounded<F>(model: Model<F>, time: TimeWithUnit<F>)
    ensures
        model.in_own_unit(time) == (model.operate)(
            Operation::Round,
            model.in_unit(time.nano, time.unit),
            model.in_unit(time.nano, time.unit),
        ),
{
}

/// One of the values at which an axis may end: a tenth, or a whole number as it is easily read.
pub open spec fn is_easily_read<F>(model: Model<F>, value: F) -> bool {
    ||| value == (model.operate)(Operation::Over, (model.number)(1), (model.number)(10))
    ||| value == (model.number)(1)
    ||| value == (model.number)(5)
    ||| value == (model.number)(10)
    ||| value == (model.number)(50)
    ||| value == (model.number)(100)
    ||| value == (model.number)(500)
    ||| value == (model.number)(1000)
    ||| value == (model.number)(5000)
}

/// An axis ends at the smallest of the values that are easily read and not below the size of the
/// time. Where the time is above all of them, the axis ends at the size of the time, rounded unless
/// that is below it.
pub proof fn axis_ends_at_the_smallest_value_that_does<F>(
    model: Model<F>,
    time: TimeWithUnit<F>,
    other: F,
)
    requires
        model.orders_numbers(),
        model.holds(
            (model.number)(1),
            (model.operate)(Operation::Over, (model.number)(1), (model.number)(10)),
        ),
        is_easily_read(model, other),
    ensures
        ({
            let shown = model.in_unit(time.nano, time.unit);
            let size = (model.operate)(Operation::Size, shown, shown);
            let rounded = (model.operate)(Operation::Round, size, size);
            let end = model.axis_end(time);
            &&& (model.relate)(Relation::AtLeast, other, size) ==> {
                &&& is_easily_read(model, end)
                &&& (model.relate)(Relation::AtLeast, end, size)
                &&& (model.relate)(Relation::AtLeast, other, end)
            }
            &&& (forall|value: F| #[trigger]
                is_easily_read(model, value) ==> !(model.relate)(Relation::AtLeast, value, size))
                ==> end == if (model.relate)(Relation::AtLeast, rounded, size) {
                rounded
            } else {
                size
            }
        }),
{
    let shown = model.in_unit(time.nano, time.unit);
    let size = (model.operate)(Operation::Size, shown, shown);
    assert(size == model.size_in_own_unit(time));
    let k = first_nice(model, size, 0);
    assert forall|i: int| 0 <= i < 9 implies is_easily_read(
        model,
        #[trigger] model.nice_value(i),
    ) by {
        assert(i == 0 || i == 1 || i == 2 || i == 3 || i == 4 || i == 5 || i == 6 || i == 7 || i
            == 8);
    }
    let tenth = (model.operate)(Operation::Over, (model.number)(1), (model.number)(10));
    let j: int = if other == tenth {
        0
    } else if other == (model.number)(1) {
        1
    } else if other == (model.number)(5) {
        2
    } else if other == (model.number)(10) {
        3
    } else if other == (model.number)(50) {
        4
    } else if other == (model.number)(100) {
        5
    } else if other == (model.number)(500) {
        6
    } else if other == (model.number)(1000) {
        7
    } else {
        8
    };
    assert(model.nice_value(j) == other);
    if model.holds(other, size) {
        assert(k <= j);
        if k > 0 {
            assert(nice_wholes()[k - 1] <= nice_wholes()[j - 1]);
            assert(model.holds(model.nice_value(j), model.nice_value(k)));
        } else if j > 0 {
            assert(model.holds((model.number)(nice_wholes()[j - 1]), (model.number)(1)));
            assert(model.holds(other, (model.number)(1)));
            assert(model.holds((model.number)(1), tenth));
        } else {
            nice_value_is_number(model, 0);
        }
    }
}

} // verus!
