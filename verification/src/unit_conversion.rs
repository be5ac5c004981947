//! The unit-conversion utility: a standalone collaborator, independent of
//! the simulation.
//!
//! Supported unit codes fall into a distance family (m, in, ft) and a time
//! family (hr, min); conversion across families is always rejected, and so
//! is an unknown code. Values are exact rationals, so every supported
//! conversion multiplies by an exact factor: 1 m = 3.28 ft = 39.36 in and
//! 1 hr = 60 min.

use crate::text::{dec_digits, dec_string, dec_string_i64, int_digits, str_eq};
use vstd::prelude::*;
use vstd::string::StringExecFns;

verus! {

/// An exact fraction: `num / den` with a positive denominator.
#[derive(Clone, Copy)]
pub struct Rational {
    num: i64,
    den: i64,
}

/// Two rationals denote the same value.
pub open spec fn rat_eq(a: Rational, b: Rational) -> bool {
    a.spec_num() * b.spec_den() == b.spec_num() * a.spec_den()
}

impl Rational {
    pub closed spec fn spec_num(&self) -> i64 {
        self.num
    }

    pub closed spec fn spec_den(&self) -> i64 {
        self.den
    }

    pub open spec fn wf(&self) -> bool {
        self.spec_den() > 0
    }

    pub fn new(num: i64, den: i64) -> (r: Rational)
        requires
            den > 0,
        ensures
            r.wf(),
            r.spec_num() == num,
            r.spec_den() == den,
    {
        Rational { num, den }
    }

    pub fn from_int(v: i64) -> (r: Rational)
        ensures
            r.wf(),
            r.spec_num() == v,
            r.spec_den() == 1,
    {
        Rational { num: v, den: 1 }
    }

    pub fn num(&self) -> (r: i64)
        ensures
            r == self.spec_num(),
    {
        self.num
    }

    pub fn den(&self) -> (r: i64)
        ensures
            r == self.spec_den(),
    {
        self.den
    }
}

/// The decimal rendering of a rational: the numerator alone when the
/// denominator is one, the fraction otherwise.
pub open spec fn rational_digits(v: Rational) -> Seq<char> {
    if v.spec_den() == 1 {
        int_digits(v.spec_num() as int)
    } else {
        int_digits(v.spec_num() as int) + "/"@ + dec_digits(v.spec_den() as nat)
    }
}

/// Renders a rational for an error message.
pub fn rational_string(v: &Rational) -> (r: String)
    requires
        v.wf(),
    ensures
        r@ == rational_digits(*v),
{
    if v.den == 1 {
        dec_string_i64(v.num)
    } else {
        let mut s = dec_string_i64(v.num);
        s.append("/");
        s.append(dec_string(v.den as u64).as_str());
        proof {
            assert(s@ =~= rational_digits(*v));
        }
        s
    }
}

#[derive(Clone, Copy, PartialEq, Eq, Structural)]
pub enum Distance {
    Meters,
    Feet,
    Inches,
}

#[derive(Clone, Copy, PartialEq, Eq, Structural)]
pub enum Time {
    Hours,
    Minutes,
}

#[derive(Clone, Copy, PartialEq, Eq, Structural)]
pub enum ConversionUnit {
    Distance(Distance),
    Time(Time),
}

/// The long name of a distance unit.
pub open spec fn distance_name_model(d: Distance) -> Seq<char> {
    match d {
        Distance::Meters => "meters"@,
        Distance::Feet => "feet"@,
        Distance::Inches => "inches"@,
    }
}

/// The long name of a time unit.
pub open spec fn time_name_model(t: Time) -> Seq<char> {
    match t {
        Time::Hours => "hours"@,
        Time::Minutes => "minutes"@,
    }
}

/// The long name of a unit, as the error messages spell it.
pub open spec fn unit_name_model(u: ConversionUnit) -> Seq<char> {
    match u {
        ConversionUnit::Distance(d) => distance_name_model(d),
        ConversionUnit::Time(t) => time_name_model(t),
    }
}

/// The structural rendering of a unit, used by the message for a pair no
/// rule covers.
pub open spec fn unit_structure_model(u: ConversionUnit) -> Seq<char> {
    match u {
        ConversionUnit::Distance(Distance::Meters) => "Distance(Meters)"@,
        ConversionUnit::Distance(Distance::Feet) => "Distance(Feet)"@,
        ConversionUnit::Distance(Distance::Inches) => "Distance(Inches)"@,
        ConversionUnit::Time(Time::Hours) => "Time(Hours)"@,
        ConversionUnit::Time(Time::Minutes) => "Time(Minutes)"@,
    }
}

impl Distance {
    /// The long name of this unit.
    pub fn display_str(&self) -> (r: &'static str)
        ensures
            r@ == distance_name_model(*self),
    {
        match self {
            Distance::Meters => "meters",
            Distance::Feet => "feet",
            Distance::Inches => "inches",
        }
    }
}

impl Time {
    /// The long name of this unit.
    pub fn display_str(&self) -> (r: &'static str)
        ensures
            r@ == time_name_model(*self),
    {
        match self {
            Time::Hours => "hours",
            Time::Minutes => "minutes",
        }
    }
}

impl ConversionUnit {
    /// The long name of this unit.
    pub fn display_str(&self) -> (r: &'static str)
        ensures
            r@ == unit_name_model(*self),
    {
        match self {
            ConversionUnit::Distance(d) => d.display_str(),
            ConversionUnit::Time(t) => t.display_str(),
        }
    }

    fn structure_str(&self) -> (r: &'static str)
        ensures
            r@ == unit_structure_model(*self),
    {
        match self {
            ConversionUnit::Distance(Distance::Meters) => "Distance(Meters)",
            ConversionUnit::Distance(Distance::Feet) => "Distance(Feet)",
            ConversionUnit::Distance(Distance::Inches) => "Distance(Inches)",
            ConversionUnit::Time(Time::Hours) => "Time(Hours)",
            ConversionUnit::Time(Time::Minutes) => "Time(Minutes)",
        }
    }
}

/// The unit a code names, if any.
pub open spec fn parse_unit(code: Seq<char>) -> Option<ConversionUnit> {
    if code == "m"@ {
        Some(ConversionUnit::Distance(Distance::Meters))
    } else if code == "in"@ {
        Some(ConversionUnit::Distance(Distance::Inches))
    } else if code == "ft"@ {
        Some(ConversionUnit::Distance(Distance::Feet))
    } else if code == "hr"@ {
        Some(ConversionUnit::Time(Time::Hours))
    } else if code == "min"@ {
        Some(ConversionUnit::Time(Time::Minutes))
    } else {
        None
    }
}

fn parse_unit_code(code: &str) -> (r: Option<ConversionUnit>)
    ensures
        r == parse_unit(code@),
{
    if str_eq(code, "m") {
        Some(ConversionUnit::Distance(Distance::Meters))
    } else if str_eq(code, "in") {
        Some(ConversionUnit::Distance(Distance::Inches))
    } else if str_eq(code, "ft") {
        Some(ConversionUnit::Distance(Distance::Feet))
    } else if str_eq(code, "hr") {
        Some(ConversionUnit::Time(Time::Hours))
    } else if str_eq(code, "min") {
        Some(ConversionUnit::Time(Time::Minutes))
    } else {
        None
    }
}

/// Both units belong to the same family.
pub open spec fn same_family(a: ConversionUnit, b: ConversionUnit) -> bool {
    match (a, b) {
        (ConversionUnit::Distance(_), ConversionUnit::Distance(_)) => true,
        (ConversionUnit::Time(_), ConversionUnit::Time(_)) => true,
        _ => false,
    }
}

/// A conversion rule exists for this ordered pair of units.
pub open spec fn supported_pair(from: ConversionUnit, to: ConversionUnit) -> bool {
    same_family(from, to) && from != to
}

/// The numerator of the exact factor a supported conversion multiplies by.
pub open spec fn factor_num(from: ConversionUnit, to: ConversionUnit) -> int {
    match (from, to) {
        (ConversionUnit::Time(Time::Hours), ConversionUnit::Time(Time::Minutes)) => 60,
        (ConversionUnit::Time(Time::Minutes), ConversionUnit::Time(Time::Hours)) => 1,
        (ConversionUnit::Distance(Distance::Meters), ConversionUnit::Distance(Distance::Feet)) => 328,
        (ConversionUnit::Distance(Distance::Meters), ConversionUnit::Distance(Distance::Inches)) => 3936,
        (ConversionUnit::Distance(Distance::Feet), ConversionUnit::Distance(Distance::Inches)) => 12,
        (ConversionUnit::Distance(Distance::Feet), ConversionUnit::Distance(Distance::Meters)) => 100,
        (ConversionUnit::Distance(Distance::Inches), ConversionUnit::Distance(Distance::Feet)) => 1,
        (ConversionUnit::Distance(Distance::Inches), ConversionUnit::Distance(Distance::Meters)) => 100,
        _ => 0,
    }
}

/// The denominator of the exact factor a supported conversion multiplies
/// by.
pub open spec fn factor_den(from: ConversionUnit, to: ConversionUnit) -> int {
    match (from, to) {
        (ConversionUnit::Time(Time::Hours), ConversionUnit::Time(Time::Minutes)) => 1,
        (ConversionUnit::Time(Time::Minutes), ConversionUnit::Time(Time::Hours)) => 60,
        (ConversionUnit::Distance(Distance::Meters), ConversionUnit::Distance(Distance::Feet)) => 100,
        (ConversionUnit::Distance(Distance::Meters), ConversionUnit::Distance(Distance::Inches)) => 100,
        (ConversionUnit::Distance(Distance::Feet), ConversionUnit::Distance(Distance::Inches)) => 1,
        (ConversionUnit::Distance(Distance::Feet), ConversionUnit::Distance(Distance::Meters)) => 328,
        (ConversionUnit::Distance(Distance::Inches), ConversionUnit::Distance(Distance::Feet)) => 12,
        (ConversionUnit::Distance(Distance::Inches), ConversionUnit::Distance(Distance::Meters)) => 3936,
        _ => 1,
    }
}

/// The message for a code that names no unit on the `from` side.
pub open spec fn unknown_from_message(from: Seq<char>) -> Seq<char> {
    "Unknown from type: "@ + from
}

/// The message for a code that names no unit on the `to` side.
pub open spec fn unknown_to_message(to: Seq<char>) -> Seq<char> {
    "Unknown to type: "@ + to
}

/// The message for a request that crosses from time into distance.
pub open spec fn time_to_distance_message(value: Rational, from: Seq<char>, to: Seq<char>) -> Seq<
    char,
> {
    "Cannot convert time to distance: unit: "@ + rational_digits(value) + ", from: "@ + from
        + ", to: "@ + to
}

/// The message for a request that crosses from distance into time.
pub open spec fn distance_to_time_message(value: Rational, from: Seq<char>, to: Seq<char>) -> Seq<
    char,
> {
    "Cannot convert distance to time: unit: "@ + rational_digits(value) + ", from: "@ + from
        + ", to: "@ + to
}

/// The message for a pair of units no conversion rule covers.
pub open spec fn unknown_conversion_message(from: ConversionUnit, to: ConversionUnit) -> Seq<
    char,
> {
    "Cannot convert for Unkonwn Conversion type: from: "@ + unit_structure_model(from) + ", to: "@
        + unit_structure_model(to)
}

/// A rejected conversion request, carrying a user-facing message.
#[derive(Debug)]
pub struct ConversionError {
    message: String,
}

impl ConversionError {
    pub closed spec fn spec_message(&self) -> Seq<char> {
        self.message@
    }

    /// The user-facing description of what was rejected.
    pub fn message(&self) -> (r: &str)
        ensures
            r@ == self.spec_message(),
    {
        self.message.as_str()
    }
}

/// A validated conversion request: two units of the same family and the
/// value to convert.
pub struct ConversionQuery {
    from: ConversionUnit,
    to: ConversionUnit,
    value: Rational,
}

impl ConversionQuery {
    pub closed spec fn spec_from(&self) -> ConversionUnit {
        self.from
    }

    pub closed spec fn spec_to(&self) -> ConversionUnit {
        self.to
    }

    pub closed spec fn spec_value(&self) -> Rational {
        self.value
    }

    pub open spec fn wf(&self) -> bool {
        &&& same_family(self.spec_from(), self.spec_to())
        &&& self.spec_value().wf()
    }

    /// Validates a request: both codes must name units and the units must
    /// belong to the same family; anything else is rejected with the
    /// message naming what failed.
    pub fn new(n: Rational, from: &str, to: &str) -> (r: Result<ConversionQuery, ConversionError>)
        requires
            n.wf(),
        ensures
            match r {
                Ok(q) => {
                    &&& q.wf()
                    &&& parse_unit(from@) == Some(q.spec_from())
                    &&& parse_unit(to@) == Some(q.spec_to())
                    &&& q.spec_value() == n
                },
                Err(e) => {
                    if parse_unit(from@) is None {
                        e.spec_message() == unknown_from_message(from@)
                    } else if parse_unit(to@) is None {
                        e.spec_message() == unknown_to_message(to@)
                    } else {
                        let from_unit = parse_unit(from@)->Some_0;
                        let to_unit = parse_unit(to@)->Some_0;
                        &&& !same_family(from_unit, to_unit)
                        &&& from_unit is Time ==> e.spec_message() == time_to_distance_message(
                            n,
                            from@,
                            to@,
                        )
                        &&& from_unit is Distance ==> e.spec_message() == distance_to_time_message(
                            n,
                            from@,
                            to@,
                        )
                    }
                },
            },
            r is Ok <==> {
                &&& parse_unit(from@) is Some
                &&& parse_unit(to@) is Some
                &&& same_family(parse_unit(from@)->Some_0, parse_unit(to@)->Some_0)
            },
    {
        let from_unit = match parse_unit_code(from) {
            Some(u) => u,
            None => {
                let mut message = "Unknown from type: ".to_owned();
                message.append(from);
                proof {
                    assert(message@ =~= unknown_from_message(from@));
                }
                return Err(ConversionError { message });
            },
        };
        let to_unit = match parse_unit_code(to) {
            Some(u) => u,
            None => {
                let mut message = "Unknown to type: ".to_owned();
                message.append(to);
                proof {
                    assert(message@ =~= unknown_to_message(to@));
                }
                return Err(ConversionError { message });
            },
        };
        match (&from_unit, &to_unit) {
            (ConversionUnit::Time(_), ConversionUnit::Distance(_)) => {
                let mut message = "Cannot convert time to distance: unit: ".to_owned();
                message.append(rational_string(&n).as_str());
                message.append(", from: ");
                message.append(from);
                message.append(", to: ");
                message.append(to);
                proof {
                    assert(message@ =~= time_to_distance_message(n, from@, to@));
                }
                Err(ConversionError { message })
            },
            (ConversionUnit::Distance(_), ConversionUnit::Time(_)) => {
                let mut message = "Cannot convert distance to time: unit: ".to_owned();
                message.append(rational_string(&n).as_str());
                message.append(", from: ");
                message.append(from);
                message.append(", to: ");
                message.append(to);
                proof {
                    assert(message@ =~= distance_to_time_message(n, from@, to@));
                }
                Err(ConversionError { message })
            },
            _ => Ok(ConversionQuery { from: from_unit, to: to_unit, value: n }),
        }
    }

    /// The error a validated query that still cannot be converted reports:
    /// a cross-family pair names the families, any other uncovered pair is
    /// reported structurally.
    pub fn get_conversion_error(&self) -> (r: ConversionError)
        requires
            self.spec_value().wf(),
        ensures
            r.spec_message() == match (self.spec_from(), self.spec_to()) {
                (ConversionUnit::Time(_), ConversionUnit::Distance(_)) => time_to_distance_message(
                    self.spec_value(),
                    unit_name_model(self.spec_from()),
                    unit_name_model(self.spec_to()),
                ),
                (ConversionUnit::Distance(_), ConversionUnit::Time(_)) => distance_to_time_message(
                    self.spec_value(),
                    unit_name_model(self.spec_from()),
                    unit_name_model(self.spec_to()),
                ),
                _ => unknown_conversion_message(self.spec_from(), self.spec_to()),
            },
    {
        match (&self.from, &self.to) {
            (ConversionUnit::Time(_), ConversionUnit::Distance(_)) => {
                let mut message = "Cannot convert time to distance: unit: ".to_owned();
                message.append(rational_string(&self.value).as_str());
                message.append(", from: ");
                message.append(self.from.display_str());
                message.append(", to: ");
                message.append(self.to.display_str());
                proof {
                    assert(message@ =~= time_to_distance_message(
                        self.spec_value(),
                        unit_name_model(self.spec_from()),
                        unit_name_model(self.spec_to()),
                    ));
                }
                ConversionError { message }
            },
            (ConversionUnit::Distance(_), ConversionUnit::Time(_)) => {
                let mut message = "Cannot convert distance to time: unit: ".to_owned();
                message.append(rational_string(&self.value).as_str());
                message.append(", from: ");
                message.append(self.from.display_str());
                message.append(", to: ");
                message.append(self.to.display_str());
                proof {
                    assert(message@ =~= distance_to_time_message(
                        self.spec_value(),
                        unit_name_model(self.spec_from()),
                        unit_name_model(self.spec_to()),
                    ));
                }
                ConversionError { message }
            },
            _ => {
                let mut message = "Cannot convert for Unkonwn Conversion type: from: ".to_owned();
                message.append(self.from.structure_str());
                message.append(", to: ");
                message.append(self.to.structure_str());
                proof {
                    assert(message@ =~= unknown_conversion_message(
                        self.spec_from(),
                        self.spec_to(),
                    ));
                }
                ConversionError { message }
            },
        }
    }

    /// Applies the exact factor for this query's pair of units. A pair with
    /// a conversion rule yields the value times that factor; the only pair
    /// of the same family without a rule is a unit paired with itself,
    /// which is rejected with the uncovered-pair message.
    pub fn convert_units(&self) -> (r: Result<Rational, ConversionError>)
        requires
            self.wf(),
            -(i64::MAX / 3936) <= self.spec_value().spec_num() <= i64::MAX / 3936,
            self.spec_value().spec_den() <= i64::MAX / 3936,
        ensures
            r is Ok <==> supported_pair(self.spec_from(), self.spec_to()),
            match r {
                Ok(converted) => {
                    &&& converted.wf()
                    &&& converted.spec_num() == self.spec_value().spec_num() * factor_num(
                        self.spec_from(),
                        self.spec_to(),
                    )
                    &&& converted.spec_den() == self.spec_value().spec_den() * factor_den(
                        self.spec_from(),
                        self.spec_to(),
                    )
                },
                Err(e) => e.spec_message() == unknown_conversion_message(
                    self.spec_from(),
                    self.spec_to(),
                ),
            },
    {
        match (&self.from, &self.to) {
            (ConversionUnit::Time(Time::Hours), ConversionUnit::Time(Time::Minutes)) => Ok(
                Rational { num: self.value.num * 60, den: self.value.den },
            ),
            (ConversionUnit::Time(Time::Minutes), ConversionUnit::Time(Time::Hours)) => Ok(
                Rational { num: self.value.num, den: self.value.den * 60 },
            ),
            (
                ConversionUnit::Distance(Distance::Meters),
                ConversionUnit::Distance(Distance::Feet),
            ) => Ok(Rational { num: self.value.num * 328, den: self.value.den * 100 }),
            (
                ConversionUnit::Distance(Distance::Meters),
                ConversionUnit::Distance(Distance::Inches),
            ) => Ok(Rational { num: self.value.num * 3936, den: self.value.den * 100 }),
            (
                ConversionUnit::Distance(Distance::Feet),
                ConversionUnit::Distance(Distance::Inches),
            ) => Ok(Rational { num: self.value.num * 12, den: self.value.den }),
            (
                ConversionUnit::Distance(Distance::Feet),
                ConversionUnit::Distance(Distance::Meters),
            ) => Ok(Rational { num: self.value.num * 100, den: self.value.den * 328 }),
            (
                ConversionUnit::Distance(Distance::Inches),
                ConversionUnit::Distance(Distance::Feet),
            ) => Ok(Rational { num: self.value.num, den: self.value.den * 12 }),
            (
                ConversionUnit::Distance(Distance::Inches),
                ConversionUnit::Distance(Distance::Meters),
            ) => Ok(Rational { num: self.value.num * 100, den: self.value.den * 3936 }),
            _ => Err(self.get_conversion_error()),
        }
    }

    /// Validates and converts in one step.
    pub fn convert(n: Rational, from: &str, to: &str) -> (r: Result<Rational, ConversionError>)
        requires
            n.wf(),
            -(i64::MAX / 3936) <= n.spec_num() <= i64::MAX / 3936,
            n.spec_den() <= i64::MAX / 3936,
        ensures
            r is Ok <==> {
                &&& parse_unit(from@) is Some
                &&& parse_unit(to@) is Some
                &&& supported_pair(parse_unit(from@)->Some_0, parse_unit(to@)->Some_0)
            },
            r is Ok ==> {
                let converted = r->Ok_0;
                let from_unit = parse_unit(from@)->Some_0;
                let to_unit = parse_unit(to@)->Some_0;
                &&& converted.wf()
                &&& converted.spec_num() == n.spec_num() * factor_num(from_unit, to_unit)
                &&& converted.spec_den() == n.spec_den() * factor_den(from_unit, to_unit)
            },
    {
        let query = match Self::new(n, from, to) {
            Ok(q) => q,
            Err(e) => {
                return Err(e);
            },
        };
        query.convert_units()
    }
}

/// Law: a conversion followed by its reverse returns the original value
/// exactly: the two factors of a supported pair and of its reverse are
/// exact reciprocals, so no tolerance is needed.
pub proof fn lemma_round_trip(
    value: Rational,
    from: ConversionUnit,
    to: ConversionUnit,
    once: Rational,
    back: Rational,
)
    requires
        value.wf(),
        supported_pair(from, to),
        once.spec_num() == value.spec_num() * factor_num(from, to),
        once.spec_den() == value.spec_den() * factor_den(from, to),
        back.spec_num() == once.spec_num() * factor_num(to, from),
        back.spec_den() == once.spec_den() * factor_den(to, from),
    ensures
        supported_pair(to, from),
        rat_eq(back, value),
{
    let f1n = factor_num(from, to);
    let f1d = factor_den(from, to);
    let f2n = factor_num(to, from);
    let f2d = factor_den(to, from);
    assert(f1n * f2n == f1d * f2d);
    assert(back.spec_num() * value.spec_den() == back.spec_den() * value.spec_num())
        by (nonlinear_arith)
        requires
            back.spec_num() == value.spec_num() * f1n * f2n,
            back.spec_den() == value.spec_den() * f1d * f2d,
            f1n * f2n == f1d * f2d,
    ;
}

} // verus!
