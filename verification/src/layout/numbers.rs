//! Numbers as the header shows them: scaled to a unit that keeps them short.

use crate::decimal::{decimal, decimal_text};
use vstd::prelude::*;
use vstd::string::StringExecFns;

verus! {

/// `n` in decimal notation, with a zero in front if it has one digit only.
pub open spec fn two_digits(n: nat) -> Seq<char> {
    if n < 10 {
        "0"@ + decimal(n)
    } else {
        decimal(n)
    }
}

/// `n` in decimal notation, with zeros in front if it has fewer than three digits.
pub open spec fn three_digits(n: nat) -> Seq<char> {
    if n < 10 {
        "00"@ + decimal(n)
    } else if n < 100 {
        "0"@ + decimal(n)
    } else {
        decimal(n)
    }
}

/// The largest unit that is a power of `base`, at most `number` and of rank at most `limit`,
/// looked for from `unit`, which has rank `rank`; and its rank.
pub open spec fn unit_from(number: nat, base: nat, unit: nat, rank: nat, limit: nat) -> (nat, nat)
    decreases limit - rank,
{
    if rank < limit && unit * base <= number {
        unit_from(number, base, unit * base, rank + 1, limit)
    } else {
        (unit, rank)
    }
}

/// The prefixes of the units that are powers of one thousand.
pub open spec fn decimal_prefixes() -> Seq<Seq<char>> {
    seq!["K"@, "M"@, "G"@, "T"@, "P"@, "E"@]
}

/// The prefixes of the units that are powers of 1024.
pub open spec fn binary_prefixes() -> Seq<Seq<char>> {
    seq!["Ki"@, "Mi"@, "Gi"@, "Ti"@, "Pi"@, "Ei"@]
}

/// `number` written in the largest unit that does not exceed it: as it is below `base`, else
/// with two decimals, cut not rounded, and the prefix of the unit.
pub open spec fn scaled(number: nat, base: nat, prefixes: Seq<Seq<char>>) -> Seq<char> {
    let (unit, rank) = unit_from(number, base, 1, 0, prefixes.len());
    if rank == 0 {
        decimal(number)
    } else {
        decimal(number / unit) + "."@ + two_digits((number % unit) * 100 / unit) + prefixes[rank
            - 1]
    }
}

/// A duration of `nanos` nanoseconds, in seconds with three decimals, cut not rounded.
pub open spec fn duration(nanos: u64) -> Seq<char> {
    decimal(nanos as nat / 1_000_000_000) + "."@ + three_digits(
        (nanos as nat / 1_000_000) % 1000,
    ) + "s"@
}

/// Writes `n`, which is below one hundred, with two digits.
fn two_digits_text(n: u64) -> (res: String)
    requires
        n < 100,
    ensures
        res@ == two_digits(n as nat),
{
    if n < 10 {
        String::from_str("0").concat(decimal_text(n).as_str())
    } else {
        decimal_text(n)
    }
}

/// Writes `n`, which is below one thousand, with three digits.
fn three_digits_text(n: u64) -> (res: String)
    requires
        n < 1000,
    ensures
        res@ == three_digits(n as nat),
{
    if n < 10 {
        String::from_str("00").concat(decimal_text(n).as_str())
    } else if n < 100 {
        String::from_str("0").concat(decimal_text(n).as_str())
    } else {
        decimal_text(n)
    }
}

/// The prefix of the unit of rank `rank`, in powers of 1024 if `binary` and of one thousand
/// if not.
fn prefix_text(rank: usize, binary: bool) -> (res: &'static str)
    requires
        1 <= rank <= 6,
    ensures
        res@ == if binary {
            binary_prefixes()[rank - 1]
        } else {
            decimal_prefixes()[rank - 1]
        },
{
    if binary {
        if rank == 1 {
            "Ki"
        } else if rank == 2 {
            "Mi"
        } else if rank == 3 {
            "Gi"
        } else if rank == 4 {
            "Ti"
        } else if rank == 5 {
            "Pi"
        } else {
            "Ei"
        }
    } else {
        if rank == 1 {
            "K"
        } else if rank == 2 {
            "M"
        } else if rank == 3 {
            "G"
        } else if rank == 4 {
            "T"
        } else if rank == 5 {
            "P"
        } else {
            "E"
        }
    }
}

/// Writes `number` scaled to a power of `base`, which is 1024 if `binary` and one thousand
/// if not.
fn scaled_text(number: u64, binary: bool) -> (res: String)
    ensures
        res@ == if binary {
            scaled(number as nat, 1024, binary_prefixes())
        } else {
            scaled(number as nat, 1000, decimal_prefixes())
        },
{
    let base: u64 = if binary {
        1024
    } else {
        1000
    };
    let mut unit: u64 = 1;
    let mut rank: usize = 0;
    while rank < 6 && unit <= number / base
        invariant
            rank <= 6,
            base == 1000 || base == 1024,
            1 <= unit <= number || rank == 0 && unit == 1,
            unit_from(number as nat, base as nat, unit as nat, rank as nat, 6) == unit_from(
                number as nat,
                base as nat,
                1,
                0,
                6,
            ),
        decreases 6 - rank,
    {
        assert(unit * base <= number) by (nonlinear_arith)
            requires
                unit <= number / base,
                base > 0,
        ;
        unit = unit * base;
        rank = rank + 1;
    }
    proof {
        if rank < 6 {
            assert(unit * base > number) by (nonlinear_arith)
                requires
                    unit > number / base,
                    base > 0,
            ;
        }
    }
    if rank == 0 {
        decimal_text(number)
    } else {
        let whole = number / unit;
        let rest: u128 = (number % unit) as u128;
        let wide: u128 = rest * 100 / (unit as u128);
        assert(wide < 100) by (nonlinear_arith)
            requires
                wide == rest * 100 / (unit as int),
                rest < unit,
                unit > 0,
        ;
        let part: u64 = wide as u64;
        decimal_text(whole).concat(".").concat(two_digits_text(part).as_str()).concat(
            prefix_text(rank, binary),
        )
    }
}

/// Writes a count scaled to a power of one thousand: `999`, `1.00K`, `1.23M`.
pub fn count_text(number: u64) -> (res: String)
    ensures
        res@ == scaled(number as nat, 1000, decimal_prefixes()),
{
    scaled_text(number, false)
}

/// Writes a size scaled to a power of 1024, without the unit: `1023`, `1.00Ki`, `1.50Mi`.
pub fn size_text(number: u64) -> (res: String)
    ensures
        res@ == scaled(number as nat, 1024, binary_prefixes()),
{
    scaled_text(number, true)
}

/// Writes a duration of `nanos` nanoseconds, in seconds with three decimals: `12.503s`.
pub fn duration_text(nanos: u64) -> (res: String)
    ensures
        res@ == duration(nanos),
{
    let seconds = nanos / 1_000_000_000;
    let millis = (nanos / 1_000_000) % 1000;
    decimal_text(seconds).concat(".").concat(three_digits_text(millis).as_str()).concat("s")
}

} // verus!
