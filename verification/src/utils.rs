use vstd::prelude::*;
use vstd::string::StringExecFns;
use crate::text::dec_str;
use crate::text::u64_to_string;

verus! {

/// The unit scale for a byte count: 0 for bytes up to 3 for gigabytes.
pub open spec fn size_scale(bytes: nat) -> int {
    if bytes < 1024 {
        0
    } else if bytes < 1048576 {
        1
    } else if bytes < 1073741824 {
        2
    } else {
        3
    }
}

/// The divisor of one unit scale.
pub open spec fn scale_divisor(k: int) -> nat {
    if k == 0 {
        1
    } else if k == 1 {
        1024
    } else if k == 2 {
        1048576
    } else {
        1073741824
    }
}

/// The suffix of one unit scale.
pub open spec fn scale_suffix(k: int) -> Seq<char> {
    if k == 0 {
        "B"@
    } else if k == 1 {
        "KB"@
    } else if k == 2 {
        "MB"@
    } else {
        "GB"@
    }
}

/// The scaled size in tenths of a unit, rounded to nearest with ties to
/// even.
pub open spec fn scaled_tenths(bytes: nat) -> nat {
    let d = scale_divisor(size_scale(bytes));
    let q = (bytes * 10) / d;
    let r = (bytes * 10) % d;
    if 2 * r > d {
        q + 1
    } else if 2 * r < d {
        q
    } else {
        q + (q % 2)
    }
}

/// A byte count rendered with one decimal digit and a unit suffix.
pub open spec fn file_size_view(bytes: nat) -> Seq<char> {
    let t = scaled_tenths(bytes);
    dec_str(t / 10) + seq!['.'] + dec_str(t % 10) + seq![' '] + scale_suffix(size_scale(bytes))
}

/// Renders a byte count in the largest unit that keeps it above one, with
/// one decimal digit.
pub fn format_file_size(bytes: u64) -> (s: String)
    ensures
        s@ == file_size_view(bytes as nat),
{
    let (divisor, unit): (u64, &str) = if bytes < 1024 {
        (1, "B")
    } else if bytes < 1048576 {
        (1024, "KB")
    } else if bytes < 1073741824 {
        (1048576, "MB")
    } else {
        (1073741824, "GB")
    };
    let num: u128 = (bytes as u128) * 10;
    let d: u128 = divisor as u128;
    let q: u128 = num / d;
    let r: u128 = num % d;
    let rounded: u128 = if 2 * r > d {
        q + 1
    } else if 2 * r < d {
        q
    } else {
        q + (q % 2)
    };
    proof {
        assert(q * d + r == num && r < d) by (nonlinear_arith)
            requires
                d > 0,
                q == num / d,
                r == num % d,
        ;
        assert(q <= num) by (nonlinear_arith)
            requires
                d >= 1,
                q * d + r == num,
                r >= 0,
                q >= 0,
        ;
        assert(rounded <= num + 1);
        if divisor == 1073741824 {
            assert(num <= 0xffffffffffffffff * 10) by (nonlinear_arith)
                requires
                    num == (bytes as u128) * 10,
                    bytes <= 0xffffffffffffffff,
            ;
            assert(q < 0x4000000000) by (nonlinear_arith)
                requires
                    q * d + r == num,
                    r >= 0,
                    d == 1073741824,
                    num <= 0xffffffffffffffff * 10,
            ;
        } else {
            assert(bytes < 1073741824);
            assert(num < 10737418240);
            assert(rounded <= num + 1);
        }
        assert(rounded <= 0xffffffffffffffff);
        assert(rounded == scaled_tenths(bytes as nat));
    }
    let t: u64 = rounded as u64;
    let whole = u64_to_string(t / 10);
    let tenth = u64_to_string(t % 10);
    let s = whole.concat(".").concat(tenth.as_str()).concat(" ").concat(unit);
    proof {
        reveal_strlit(".");
        reveal_strlit(" ");
        assert(s@ =~= file_size_view(bytes as nat));
    }
    s
}

} // verus!
