use vstd::prelude::*;
use vstd::string::StringSliceAdditionalSpecFns;

verus! {

/// ASCII-lowercase of one byte; bytes outside 'A'..='Z' are unchanged.
pub open spec fn ascii_lower_byte(b: u8) -> u8 {
    if 65 <= b && b <= 90 {
        (b + 32) as u8
    } else {
        b
    }
}

/// ASCII-lowercase of a byte sequence.
pub open spec fn lower_bytes(s: Seq<u8>) -> Seq<u8> {
    Seq::new(s.len(), |i: int| ascii_lower_byte(s[i]))
}

/// `needle` occurs in `hay` starting at position `i`.
pub open spec fn bytes_match_at(hay: Seq<u8>, needle: Seq<u8>, i: int) -> bool {
    &&& 0 <= i
    &&& i + needle.len() <= hay.len()
    &&& forall|j: int| 0 <= j < needle.len() ==> hay[i + j] == needle[j]
}

/// `needle` occurs somewhere in `hay`.
pub open spec fn contains_bytes(hay: Seq<u8>, needle: Seq<u8>) -> bool {
    exists|i: int| bytes_match_at(hay, needle, i)
}

/// `p` is a prefix of `s`.
pub open spec fn has_prefix(s: Seq<u8>, p: Seq<u8>) -> bool {
    p.len() <= s.len() && forall|j: int| 0 <= j < p.len() ==> s[j] == p[j]
}

fn lower_byte(b: u8) -> (r: u8)
    ensures
        r == ascii_lower_byte(b),
{
    if 65 <= b && b <= 90 {
        b + 32
    } else {
        b
    }
}

fn lowered_match_at(hay: &[u8], needle: &[u8], i: usize) -> (r: bool)
    requires
        i + needle@.len() <= hay@.len(),
    ensures
        r == bytes_match_at(lower_bytes(hay@), needle@, i as int),
{
    let n: usize = needle.len();
    let h: usize = hay.len();
    let mut j: usize = 0;
    while j < n
        invariant
            n == needle@.len(),
            h == hay@.len(),
            i + n <= h,
            0 <= j <= n,
            forall|k: int| 0 <= k < j ==> lower_bytes(hay@)[i + k] == needle@[k],
        decreases n - j,
    {
        if lower_byte(hay[i + j]) != needle[j] {
            return false;
        }
        j += 1;
    }
    true
}

/// Whether the ASCII-lowercased `hay` contains `needle` as a contiguous
/// subsequence. The needle is expected to be lowercase already.
pub fn contains_pattern(hay: &[u8], needle: &[u8]) -> (r: bool)
    ensures
        r == contains_bytes(lower_bytes(hay@), needle@),
{
    let h: usize = hay.len();
    let n: usize = needle.len();
    if n > h {
        assert(forall|i: int| !bytes_match_at(lower_bytes(hay@), needle@, i));
        return false;
    }
    let mut i: usize = 0;
    while i <= h - n
        invariant
            h == hay@.len(),
            n == needle@.len(),
            n <= h,
            0 <= i <= h - n + 1,
            forall|k: int| 0 <= k < i ==> !bytes_match_at(lower_bytes(hay@), needle@, k),
        decreases h - n + 1 - i,
    {
        if lowered_match_at(hay, needle, i) {
            return true;
        }
        i += 1;
    }
    assert(forall|k: int| !bytes_match_at(lower_bytes(hay@), needle@, k));
    false
}

fn match_at_exact(hay: &[u8], needle: &[u8], i: usize) -> (r: bool)
    requires
        i + needle@.len() <= hay@.len(),
    ensures
        r == bytes_match_at(hay@, needle@, i as int),
{
    let n: usize = needle.len();
    let h: usize = hay.len();
    let mut j: usize = 0;
    while j < n
        invariant
            n == needle@.len(),
            h == hay@.len(),
            i + n <= h,
            0 <= j <= n,
            forall|k: int| 0 <= k < j ==> hay@[i + k] == needle@[k],
        decreases n - j,
    {
        if hay[i + j] != needle[j] {
            return false;
        }
        j += 1;
    }
    true
}

/// Whether `hay` contains `needle` as a contiguous subsequence, byte for
/// byte, with no case folding.
pub fn contains_pattern_exact(hay: &[u8], needle: &[u8]) -> (r: bool)
    ensures
        r == contains_bytes(hay@, needle@),
{
    let h: usize = hay.len();
    let n: usize = needle.len();
    if n > h {
        assert(forall|i: int| !bytes_match_at(hay@, needle@, i));
        return false;
    }
    let mut i: usize = 0;
    while i <= h - n
        invariant
            h == hay@.len(),
            n == needle@.len(),
            n <= h,
            0 <= i <= h - n + 1,
            forall|k: int| 0 <= k < i ==> !bytes_match_at(hay@, needle@, k),
        decreases h - n + 1 - i,
    {
        if match_at_exact(hay, needle, i) {
            return true;
        }
        i += 1;
    }
    assert(forall|k: int| !bytes_match_at(hay@, needle@, k));
    false
}

/// Whether `s` begins with the byte sequence `prefix`.
pub fn starts_with_bytes(s: &[u8], prefix: &[u8]) -> (r: bool)
    ensures
        r == has_prefix(s@, prefix@),
{
    let n: usize = prefix.len();
    if n > s.len() {
        return false;
    }
    let mut j: usize = 0;
    while j < n
        invariant
            n == prefix@.len(),
            n <= s@.len(),
            0 <= j <= n,
            forall|k: int| 0 <= k < j ==> s@[k] == prefix@[k],
        decreases n - j,
    {
        if s[j] != prefix[j] {
            return false;
        }
        j += 1;
    }
    true
}

/// Elementwise equality of two byte slices.
pub fn bytes_eq(a: &[u8], b: &[u8]) -> (r: bool)
    ensures
        r == (a@ == b@),
{
    if a.len() != b.len() {
        return false;
    }
    let n: usize = a.len();
    let mut j: usize = 0;
    while j < n
        invariant
            n == a@.len(),
            n == b@.len(),
            0 <= j <= n,
            forall|k: int| 0 <= k < j ==> a@[k] == b@[k],
        decreases n - j,
    {
        if a[j] != b[j] {
            return false;
        }
        j += 1;
    }
    assert(a@ =~= b@);
    true
}

/// Appends every byte of `s` to `out`, in order.
pub fn push_bytes(out: &mut Vec<u8>, s: &[u8])
    ensures
        final(out)@ == old(out)@ + s@,
{
    let n: usize = s.len();
    let mut i: usize = 0;
    while i < n
        invariant
            n == s@.len(),
            0 <= i <= n,
            out@ == old(out)@ + s@.take(i as int),
        decreases n - i,
    {
        out.push(s[i]);
        proof {
            assert(out@ =~= old(out)@ + s@.take(i + 1));
        }
        i += 1;
    }
    proof {
        assert(old(out)@ + s@.take(n as int) =~= old(out)@ + s@);
    }
}

/// A vector holding exactly the bytes of `s`.
pub fn copy_bytes(s: &[u8]) -> (r: Vec<u8>)
    ensures
        r@ == s@,
{
    let mut out: Vec<u8> = Vec::new();
    push_bytes(&mut out, s);
    proof {
        assert(out@ =~= s@);
    }
    out
}

/// Equality of two string slices, stated over their character views.
pub fn str_eq(a: &str, b: &str) -> (r: bool)
    ensures
        r == (a@ == b@),
{
    let r = bytes_eq(a.as_bytes(), b.as_bytes());
    proof {
        if a.spec_bytes() == b.spec_bytes() {
            vstd::utf8::encode_utf8_decode_utf8(a@);
            vstd::utf8::encode_utf8_decode_utf8(b@);
        }
    }
    r
}

/// The ASCII byte of one lowercase hexadecimal digit, `n < 16`.
pub open spec fn hex_digit_byte(n: int) -> u8 {
    if n < 10 {
        (48 + n) as u8
    } else {
        (87 + n) as u8
    }
}

/// Four lowercase hexadecimal digits of a 16-bit value, most significant first.
pub open spec fn hex4(v: u16) -> Seq<u8> {
    seq![
        hex_digit_byte(v as int / 4096),
        hex_digit_byte((v as int / 256) % 16),
        hex_digit_byte((v as int / 16) % 16),
        hex_digit_byte(v as int % 16),
    ]
}

fn hex_digit(n: u16) -> (r: u8)
    requires
        n < 16,
    ensures
        r == hex_digit_byte(n as int),
{
    if n < 10 {
        48 + (n as u8)
    } else {
        87 + (n as u8)
    }
}

/// The four lowercase hexadecimal digits of `v`, as bytes.
pub fn hex4_bytes(v: u16) -> (r: Vec<u8>)
    ensures
        r@ == hex4(v),
{
    let mut out: Vec<u8> = Vec::new();
    out.push(hex_digit(v / 4096));
    out.push(hex_digit((v / 256) % 16));
    out.push(hex_digit((v / 16) % 16));
    out.push(hex_digit(v % 16));
    assert(out@ =~= hex4(v));
    out
}

/// The character of one decimal digit, `0 <= n < 10`.
pub open spec fn dec_digit(n: int) -> char {
    ((48 + n) as u8) as char
}

/// The canonical base-10 digit string of `n`: no sign, no padding.
pub open spec fn dec_str(n: nat) -> Seq<char>
    decreases n,
{
    if n < 10 {
        seq![dec_digit(n as int)]
    } else {
        dec_str(n / 10) + seq![dec_digit((n % 10) as int)]
    }
}

/// The characters of the digit values `ds[k..]`, read from the last digit
/// down to index `k`: the rendering order for digits collected least
/// significant first.
pub open spec fn digits_chars(ds: Seq<u64>, k: int) -> Seq<char>
    decreases ds.len() - k,
{
    if k < 0 || k >= ds.len() {
        Seq::empty()
    } else {
        digits_chars(ds, k + 1) + seq![dec_digit(ds[k] as int)]
    }
}

proof fn lemma_digits_chars_push(ds: Seq<u64>, x: u64, k: int)
    requires
        0 <= k <= ds.len(),
    ensures
        digits_chars(ds.push(x), k) =~= seq![dec_digit(x as int)] + digits_chars(ds, k),
    decreases ds.len() - k,
{
    if k == ds.len() {
        assert(digits_chars(ds.push(x), k + 1) == Seq::<char>::empty());
        assert(digits_chars(ds, k) == Seq::<char>::empty());
        assert(ds.push(x)[k] == x);
        assert(digits_chars(ds.push(x), k) =~= seq![dec_digit(x as int)] + digits_chars(ds, k));
    } else {
        lemma_digits_chars_push(ds, x, k + 1);
        assert(ds.push(x)[k] == ds[k]);
    }
}

/// The one-character string of a decimal digit value.
fn digit_str(d: u64) -> (r: &'static str)
    requires
        d < 10,
    ensures
        r@ == seq![dec_digit(d as int)],
{
    let r = match d {
        0 => "0",
        1 => "1",
        2 => "2",
        3 => "3",
        4 => "4",
        5 => "5",
        6 => "6",
        7 => "7",
        8 => "8",
        _ => "9",
    };
    proof {
        reveal_strlit("0");
        reveal_strlit("1");
        reveal_strlit("2");
        reveal_strlit("3");
        reveal_strlit("4");
        reveal_strlit("5");
        reveal_strlit("6");
        reveal_strlit("7");
        reveal_strlit("8");
        reveal_strlit("9");
        assert(r@ =~= seq![dec_digit(d as int)]);
    }
    r
}

/// The canonical base-10 rendering of `n`: digits are collected least
/// significant first, then appended from the most significant down.
pub fn u64_to_string(n: u64) -> (r: String)
    ensures
        r@ == dec_str(n as nat),
{
    if n == 0 {
        let r = "0".to_owned();
        proof {
            reveal_strlit("0");
            assert(r@ =~= dec_str(0));
        }
        return r;
    }
    let mut digits: Vec<u64> = Vec::new();
    let mut m: u64 = n;
    while m > 0
        invariant
            0 <= m <= n,
            n > 0,
            forall|i: int| 0 <= i < digits@.len() ==> digits@[i] < 10,
            m > 0 ==> dec_str(n as nat) == dec_str(m as nat) + digits_chars(digits@, 0),
            m == 0 ==> dec_str(n as nat) == digits_chars(digits@, 0),
        decreases m,
    {
        let ghost pre = digits@;
        let d = m % 10;
        digits.push(d);
        proof {
            lemma_digits_chars_push(pre, d, 0);
            if m >= 10 {
                assert(dec_str(m as nat) == dec_str(m as nat / 10) + seq![
                    dec_digit((m as nat % 10) as int),
                ]);
            } else {
                assert(dec_str(m as nat) == seq![dec_digit(m as int)]);
            }
            assert(dec_str(n as nat) =~= (if m / 10 > 0 {
                dec_str((m / 10) as nat) + digits_chars(digits@, 0)
            } else {
                digits_chars(digits@, 0)
            }));
        }
        m = m / 10;
    }
    let mut out = String::new();
    let mut k: usize = digits.len();
    while k > 0
        invariant
            k <= digits@.len(),
            forall|i: int| 0 <= i < digits@.len() ==> digits@[i] < 10,
            out@ == digits_chars(digits@, k as int),
        decreases k,
    {
        k = k - 1;
        out.append(digit_str(digits[k]));
        proof {
            assert(out@ =~= digits_chars(digits@, k as int));
        }
    }
    proof {
        assert(out@ == digits_chars(digits@, 0));
    }
    out
}

} // verus!
