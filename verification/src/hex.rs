//! Lower-case hexadecimal formatting, as `format!("{:x}")` and
//! `format!("{:016x}")` write numbers.
use vstd::prelude::*;

verus! {

/// The lower-case hex digit for `d < 16`.
pub open spec fn hex_char(d: nat) -> char {
    if d < 10 {
        (('0' as nat) + d) as char
    } else {
        (('a' as nat) + d - 10) as char
    }
}

/// The hex digits of `n`, most significant first, with no leading zeros
/// (`0` is written `0`).
pub open spec fn hex_of(n: nat) -> Seq<char>
    decreases n,
{
    if n < 16 {
        seq![hex_char(n)]
    } else {
        hex_of(n / 16).push(hex_char(n % 16))
    }
}

/// `k` zeros.
pub open spec fn zeros(k: nat) -> Seq<char> {
    Seq::new(k, |i: int| '0')
}

/// The hex digits of `n` padded with zeros on the left to 16 digits.
pub open spec fn hex16_of(n: nat) -> Seq<char> {
    zeros((16 - hex_of(n).len()) as nat) + hex_of(n)
}

pub open spec fn pow16(k: nat) -> nat
    decreases k,
{
    if k == 0 {
        1
    } else {
        16 * pow16((k - 1) as nat)
    }
}

proof fn lemma_hex_len(n: nat, k: nat)
    requires
        k >= 1,
        n < pow16(k),
    ensures
        1 <= hex_of(n).len() <= k,
    decreases n,
{
    if n >= 16 {
        assert(k >= 2) by {
            if k == 1 {
                assert(pow16(1) == 16 * pow16(0));
            }
        }
        let k1 = (k - 1) as nat;
        assert(pow16(k) == 16 * pow16(k1));
        assert(n / 16 < pow16(k1)) by (nonlinear_arith)
            requires
                n < 16 * pow16(k1),
        ;
        lemma_hex_len(n / 16, k1);
    }
}

proof fn lemma_u64_pow16()
    ensures
        pow16(16) == 0x1_0000_0000_0000_0000,
{
    reveal_with_fuel(pow16, 17);
}

/// The digit characters, indexed by value.
fn digit_str(d: u8) -> (r: &'static str)
    requires
        d < 16,
    ensures
        r@ == seq![hex_char(d as nat)],
{
    let digits = "0123456789abcdef";
    proof {
        reveal_strlit("0123456789abcdef");
    }
    let r = digits.substring_char(d as usize, d as usize + 1);
    assert(r@ =~= seq![hex_char(d as nat)]);
    r
}

/// `n` in lower-case hex, as `format!("{:x}", n)` writes it.
pub fn hex_string(n: u128) -> (r: String)
    ensures
        r@ == hex_of(n as nat),
{
    let mut vals: Vec<u8> = Vec::new();
    let mut m: u128 = n;
    let ghost mut suffix: Seq<char> = Seq::empty();
    while m >= 16
        invariant
            hex_of(n as nat) == hex_of(m as nat) + suffix,
            suffix.len() == vals@.len(),
            forall|i: int| 0 <= i < vals@.len() ==> vals@[i] < 16,
            forall|i: int| 0 <= i < suffix.len() ==> suffix[i] == hex_char(vals@[vals@.len() - 1 - i] as nat),
        decreases m,
    {
        let d = (m % 16) as u8;
        proof {
            let old_suffix = suffix;
            suffix = seq![hex_char(d as nat)] + old_suffix;
            assert(hex_of(m as nat) == hex_of((m / 16) as nat).push(hex_char(d as nat)));
            assert(hex_of(m as nat) + old_suffix =~= hex_of((m / 16) as nat) + suffix);
        }
        vals.push(d);
        m = m / 16;
    }
    let mut s = String::from_str(digit_str(m as u8));
    let ghost first = seq![hex_char(m as nat)];
    assert(hex_of(m as nat) == first);
    let mut k: usize = vals.len();
    assert(suffix.subrange(0, 0) =~= Seq::<char>::empty());
    assert(s@ =~= first + suffix.subrange(0, (vals@.len() - k) as int));
    while k > 0
        invariant
            k <= vals@.len(),
            suffix.len() == vals@.len(),
            forall|i: int| 0 <= i < vals@.len() ==> vals@[i] < 16,
            forall|i: int| 0 <= i < suffix.len() ==> suffix[i] == hex_char(vals@[vals@.len() - 1 - i] as nat),
            s@ == first + suffix.subrange(0, (vals@.len() - k) as int),
        decreases k,
    {
        let d = vals[k - 1];
        let ghost j = (vals@.len() - k) as int;
        assert(suffix[j] == hex_char(d as nat));
        s = s.concat(digit_str(d));
        k = k - 1;
        assert(s@ =~= first + suffix.subrange(0, (vals@.len() - k) as int));
    }
    assert(suffix.subrange(0, suffix.len() as int) =~= suffix);
    s
}

/// `n` in lower-case hex padded to 16 digits, as `format!("{:016x}", n)`
/// writes it.
pub fn hex16_string(n: u64) -> (r: String)
    ensures
        r@ == hex16_of(n as nat),
{
    let h = hex_string(n as u128);
    proof {
        lemma_u64_pow16();
        lemma_hex_len(n as nat, 16);
    }
    let len = h.as_str().unicode_len();
    let mut s = String::new();
    let mut i: usize = 0;
    while i + len < 16
        invariant
            len == hex_of(n as nat).len(),
            1 <= len <= 16,
            i + len <= 16,
            s@ == zeros(i as nat),
        decreases 16 - i - len,
    {
        s = s.concat("0");
        proof {
            reveal_strlit("0");
        }
        i = i + 1;
        assert(s@ =~= zeros(i as nat));
    }
    let r = s.concat(h.as_str());
    r
}

} // verus!
