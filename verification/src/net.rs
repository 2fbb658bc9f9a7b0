//! Decimal and dotted-quad text for numbers and IPv4 addresses.
use vstd::prelude::*;

verus! {

/// The ASCII digit for `d`, for `d < 10`.
pub open spec fn digit(d: nat) -> char {
    ((48 + d) as u32) as char
}

/// The decimal text of `n`: its digits, most significant first, without leading zeros.
pub open spec fn decimal(n: nat) -> Seq<char>
    decreases n,
{
    if n < 10 {
        seq![digit(n)]
    } else {
        decimal(n / 10).push(digit(n % 10))
    }
}

fn digit_char(d: u32) -> (c: char)
    requires
        d < 10,
    ensures
        c == digit(d as nat),
{
    let b: u8 = 48 + d as u8;
    b as char
}

/// Appends the decimal text of `n` to `out`.
pub fn push_decimal(out: &mut String, n: u32)
    ensures
        final(out)@ == old(out)@ + decimal(n as nat),
    decreases n,
{
    if n >= 10 {
        push_decimal(out, n / 10);
    }
    out.push(digit_char(n % 10));
    proof {
        if n >= 10 {
            assert(old(out)@ + decimal((n / 10) as nat) + seq![digit((n % 10) as nat)] =~= old(out)@
                + decimal(n as nat));
        } else {
            assert(old(out)@ + seq![digit(n as nat)] =~= old(out)@ + decimal(n as nat));
        }
    }
}

/// The `i`-th octet of an IPv4 address held as the 32-bit word read from its
/// four bytes in memory order (the first byte is the least significant).
pub open spec fn octet(addr: u32, i: nat) -> nat {
    (addr as nat / pow256(i)) % 256
}

/// `256` to the power `i`, for the octet positions `0..4`.
pub open spec fn pow256(i: nat) -> nat {
    if i == 0 {
        1
    } else if i == 1 {
        256
    } else if i == 2 {
        65536
    } else {
        16777216
    }
}

/// The dotted-quad text of an address held as in `octet`: the octets in memory
/// order, each in decimal, separated by `'.'` (as `Ipv4Addr` displays the address
/// whose octets those bytes are).
pub open spec fn ipv4_text(addr: u32) -> Seq<char> {
    decimal(octet(addr, 0)) + seq!['.'] + decimal(octet(addr, 1)) + seq!['.'] + decimal(
        octet(addr, 2),
    ) + seq!['.'] + decimal(octet(addr, 3))
}

/// The dotted-quad text of the address `addr` (see `ipv4_text`).
pub fn ipv4_string(addr: u32) -> (s: String)
    ensures
        s@ == ipv4_text(addr),
{
    let mut s = String::new();
    push_decimal(&mut s, addr % 256);
    s.push('.');
    push_decimal(&mut s, (addr / 256) % 256);
    s.push('.');
    push_decimal(&mut s, (addr / 65536) % 256);
    s.push('.');
    push_decimal(&mut s, (addr / 16777216) % 256);
    proof {
        assert(s@ =~= ipv4_text(addr));
    }
    s
}

/// The number that the decimal digits `s` denote, read most significant first.
pub open spec fn digits_value(s: Seq<char>) -> nat
    decreases s.len(),
{
    if s.len() == 0 {
        0
    } else {
        digits_value(s.drop_last()) * 10 + ((s.last() as u32) - 48) as nat
    }
}

/// `decimal(n)` is the usual base-ten text of `n`, for every `n`: a non-empty run
/// of the digits `'0'` to `'9'`, without a leading zero, that denotes `n`; it has
/// a single digit exactly when `n < 10`.
pub proof fn lemma_decimal_is_base_ten(n: nat)
    ensures
        decimal(n).len() > 0,
        forall|i: int| 0 <= i < decimal(n).len() ==> 48 <= #[trigger] (decimal(n)[i] as u32) <= 57,
        digits_value(decimal(n)) == n,
        decimal(n).len() > 1 ==> decimal(n)[0] != '0',
        decimal(n).len() == 1 <==> n < 10,
    decreases n,
{
    if n < 10 {
        let s = decimal(n);
        assert(s.drop_last() =~= Seq::<char>::empty());
        assert(s.last() == digit(n));
        assert((digit(n) as u32) == 48 + n);
        assert(digits_value(Seq::<char>::empty()) == 0);
        assert(digits_value(s) == digits_value(s.drop_last()) * 10 + ((s.last() as u32) - 48) as nat);
    } else {
        let d = decimal(n / 10);
        lemma_decimal_is_base_ten(n / 10);
        let s = decimal(n);
        assert(s == d.push(digit(n % 10)));
        assert(s.drop_last() =~= d);
        assert((digit(n % 10) as u32) == 48 + n % 10);
        assert(digits_value(s) == (n / 10) * 10 + n % 10);
        assert forall|i: int| 0 <= i < s.len() implies 48 <= #[trigger] (s[i] as u32) <= 57 by {
            if i < d.len() {
                assert(s[i] == d[i]);
            }
        }
        assert(s[0] == d[0]);
        if d.len() == 1 {
            assert(d == seq![digit(n / 10)]);
            assert((digit(n / 10) as u32) == 48 + n / 10);
        }
    }
}

/// `p` is a base-ten numeral: a non-empty run of the digits `'0'` to `'9'`
/// without a leading zero.
pub open spec fn is_numeral(p: Seq<char>) -> bool {
    &&& p.len() > 0
    &&& forall|i: int| 0 <= i < p.len() ==> 48 <= #[trigger] (p[i] as u32) <= 57
    &&& p.len() > 1 ==> p[0] != '0'
}

/// The dotted-quad text of `addr` is four numerals separated by dots, denoting
/// the bytes of `addr` from the least significant to the most significant.
pub proof fn lemma_ipv4_text_parts(addr: u32) -> (parts: (Seq<char>, Seq<char>, Seq<char>, Seq<char>))
    ensures
        ipv4_text(addr) == parts.0 + seq!['.'] + parts.1 + seq!['.'] + parts.2 + seq!['.']
            + parts.3,
        is_numeral(parts.0) && digits_value(parts.0) == addr % 256,
        is_numeral(parts.1) && digits_value(parts.1) == (addr / 256) % 256,
        is_numeral(parts.2) && digits_value(parts.2) == (addr / 65536) % 256,
        is_numeral(parts.3) && digits_value(parts.3) == (addr / 16777216) % 256,
{
    lemma_decimal_is_base_ten(octet(addr, 0));
    lemma_decimal_is_base_ten(octet(addr, 1));
    lemma_decimal_is_base_ten(octet(addr, 2));
    lemma_decimal_is_base_ten(octet(addr, 3));
    (decimal(octet(addr, 0)), decimal(octet(addr, 1)), decimal(octet(addr, 2)), decimal(
        octet(addr, 3),
    ))
}

pub proof fn lemma_digit(d: nat)
    requires
        d < 10,
    ensures
        digit(d) != '.',
        digit(d) == '1' <==> d == 1,
        digit(d) == '4' <==> d == 4,
        digit(d) == '5' <==> d == 5,
        digit(d) == '8' <==> d == 8,
{
}

/// The decimal text of an octet and the digits that it starts with.
pub proof fn lemma_octet_decimal(o: nat)
    requires
        o < 256,
    ensures
        o < 10 ==> decimal(o) == seq![digit(o)],
        10 <= o < 100 ==> decimal(o) == seq![digit(o / 10), digit(o % 10)],
        100 <= o ==> decimal(o) == seq![digit(o / 100), digit((o / 10) % 10), digit(o % 10)],
{
    if o >= 10 {
        assert(decimal(o) == decimal(o / 10).push(digit(o % 10)));
        if o >= 100 {
            assert(decimal(o / 10) == decimal(o / 100).push(digit((o / 10) % 10)));
            assert(decimal(o / 100) == seq![digit(o / 100)]);
        } else {
            assert(decimal(o / 10) == seq![digit(o / 10)]);
        }
    }
}
} // verus!
