use vstd::prelude::*;

verus! {

/// The decimal digit character for `d < 10`.
pub open spec fn digit_char(d: nat) -> char {
    if d == 0 { '0' }
    else if d == 1 { '1' }
    else if d == 2 { '2' }
    else if d == 3 { '3' }
    else if d == 4 { '4' }
    else if d == 5 { '5' }
    else if d == 6 { '6' }
    else if d == 7 { '7' }
    else if d == 8 { '8' }
    else { '9' }
}

/// The decimal notation of `n`, most significant digit first, without leading zeros.
pub open spec fn decimal(n: nat) -> Seq<char>
    decreases n,
{
    if n < 10 {
        seq![digit_char(n)]
    } else {
        decimal(n / 10) + seq![digit_char(n % 10)]
    }
}

fn digit_str(d: u64) -> (r: &'static str)
    requires
        d < 10,
    ensures
        r@ == seq![digit_char(d as nat)],
{
    if d == 0 { proof { reveal_strlit("0"); } "0" }
    else if d == 1 { proof { reveal_strlit("1"); } "1" }
    else if d == 2 { proof { reveal_strlit("2"); } "2" }
    else if d == 3 { proof { reveal_strlit("3"); } "3" }
    else if d == 4 { proof { reveal_strlit("4"); } "4" }
    else if d == 5 { proof { reveal_strlit("5"); } "5" }
    else if d == 6 { proof { reveal_strlit("6"); } "6" }
    else if d == 7 { proof { reveal_strlit("7"); } "7" }
    else if d == 8 { proof { reveal_strlit("8"); } "8" }
    else { proof { reveal_strlit("9"); } "9" }
}

/// Appends the decimal notation of `n` to `s`.
pub fn push_decimal(s: &mut String, n: u64)
    ensures
        final(s)@ == old(s)@ + decimal(n as nat),
    decreases n,
{
    if n >= 10 {
        push_decimal(s, n / 10);
    }
    s.append(digit_str(n % 10));
}

/// The unit-suffixed text of a byte count: below 1000 in bytes; otherwise
/// the count is taken in whole kibibytes `k` and shown as `k` kB below
/// 100000, as whole mebibytes below 10000000 kB, as whole gibibytes below
/// 10000000000 kB, and as whole tebibytes beyond.
pub open spec fn number_text(nb: nat) -> Seq<char> {
    if nb < 1000 {
        decimal(nb) + seq![' ', 'B']
    } else {
        let k = nb / 1024;
        if k < 100_000 {
            decimal(k) + seq![' ', 'k', 'B']
        } else if k < 10_000_000 {
            decimal(k / 1024) + seq![' ', 'M', 'B']
        } else if k < 10_000_000_000 {
            decimal(k / 1_048_576) + seq![' ', 'G', 'B']
        } else {
            decimal(k / 1_073_741_824) + seq![' ', 'T', 'B']
        }
    }
}

/// Formats a byte count with a unit.
pub fn format_number(nb: u64) -> (r: String)
    ensures
        r@ == number_text(nb as nat),
{
    let mut r = String::new();
    if nb < 1000 {
        push_decimal(&mut r, nb);
        proof { reveal_strlit(" B"); }
        r.append(" B");
        return r;
    }
    let k = nb / 1024;
    if k < 100_000 {
        push_decimal(&mut r, k);
        proof { reveal_strlit(" kB"); }
        r.append(" kB");
    } else if k < 10_000_000 {
        push_decimal(&mut r, k / 1024);
        proof { reveal_strlit(" MB"); }
        r.append(" MB");
    } else if k < 10_000_000_000 {
        push_decimal(&mut r, k / 1_048_576);
        proof { reveal_strlit(" GB"); }
        r.append(" GB");
    } else {
        push_decimal(&mut r, k / 1_073_741_824);
        proof { reveal_strlit(" TB"); }
        r.append(" TB");
    }
    r
}

} // verus!
