//! Verified string utilities: equality, lexicographic order, prefix
//! matching, and a decimal codec for indices.

use vstd::prelude::*;

verus! {

/// Strict lexicographic order on character sequences, by code point.
pub open spec fn lex_lt(a: Seq<char>, b: Seq<char>) -> bool
    decreases a.len(),
{
    if b.len() == 0 {
        false
    } else if a.len() == 0 {
        true
    } else if a.first() != b.first() {
        (a.first() as u32) < (b.first() as u32)
    } else {
        lex_lt(a.drop_first(), b.drop_first())
    }
}

pub proof fn lemma_lex_lt_irrefl(a: Seq<char>)
    ensures
        !lex_lt(a, a),
    decreases a.len(),
{
    if a.len() > 0 {
        lemma_lex_lt_irrefl(a.drop_first());
    }
}

pub proof fn lemma_lex_lt_connected(a: Seq<char>, b: Seq<char>)
    requires
        !lex_lt(a, b),
        !lex_lt(b, a),
    ensures
        a == b,
    decreases a.len(),
{
    if b.len() == 0 {
        assert(a.len() == 0);
        assert(a =~= b);
    } else if a.len() == 0 {
        assert(lex_lt(a, b));
    } else {
        assert(a.first() as u32 == b.first() as u32);
        assert(a.first() == b.first()) by {
            vstd::utf8::char_u32_cast(a.first(), a.first() as u32);
            vstd::utf8::char_u32_cast(b.first(), b.first() as u32);
        }
        lemma_lex_lt_connected(a.drop_first(), b.drop_first());
        assert(a =~= seq![a.first()] + a.drop_first());
        assert(b =~= seq![b.first()] + b.drop_first());
    }
}

pub proof fn lemma_lex_lt_trans(a: Seq<char>, b: Seq<char>, c: Seq<char>)
    requires
        lex_lt(a, b),
        lex_lt(b, c),
    ensures
        lex_lt(a, c),
    decreases a.len(),
{
    if a.len() == 0 {
        assert(b.len() > 0);
        assert(c.len() > 0);
    } else {
        assert(b.len() > 0);
        assert(c.len() > 0);
        if a.first() == b.first() {
            if b.first() == c.first() {
                lemma_lex_lt_trans(a.drop_first(), b.drop_first(), c.drop_first());
            }
        }
    }
}

/// Character-content equality of two string slices.
pub fn str_eq(a: &str, b: &str) -> (r: bool)
    ensures
        r == (a@ == b@),
{
    let sa = String::from_str(a);
    let sb = String::from_str(b);
    sa == sb
}

/// Whether `a` comes strictly before `b` in lexicographic code point order.
pub fn str_lt(a: &str, b: &str) -> (r: bool)
    ensures
        r == lex_lt(a@, b@),
{
    let alen = a.unicode_len();
    let blen = b.unicode_len();
    let mut i: usize = 0;
    proof {
        assert(a@.skip(0) =~= a@);
        assert(b@.skip(0) =~= b@);
    }
    loop
        invariant
            i <= alen,
            i <= blen,
            alen == a@.len(),
            blen == b@.len(),
            lex_lt(a@, b@) == lex_lt(a@.skip(i as int), b@.skip(i as int)),
        decreases alen - i,
    {
        if i >= blen {
            proof {
                assert(b@.skip(i as int).len() == 0);
            }
            return false;
        }
        if i >= alen {
            proof {
                assert(a@.skip(i as int).len() == 0);
                assert(b@.skip(i as int).len() > 0);
            }
            return true;
        }
        let ca = a.get_char(i);
        let cb = b.get_char(i);
        proof {
            assert(a@.skip(i as int).first() == a@[i as int]);
            assert(b@.skip(i as int).first() == b@[i as int]);
        }
        if ca != cb {
            return (ca as u32) < (cb as u32);
        }
        proof {
            assert(a@.skip(i as int).drop_first() =~= a@.skip(i as int + 1));
            assert(b@.skip(i as int).drop_first() =~= b@.skip(i as int + 1));
        }
        i += 1;
    }
}

/// Whether the characters of `lit` occur in `s` starting at position `i`.
pub fn match_at(s: &str, i: usize, lit: &str) -> (r: bool)
    requires
        i <= s@.len(),
    ensures
        r == (i + lit@.len() <= s@.len() && s@.subrange(i as int, i + lit@.len()) == lit@),
{
    let n = s.unicode_len();
    let m = lit.unicode_len();
    if m > n - i {
        return false;
    }
    let mut j: usize = 0;
    loop
        invariant
            j <= m,
            m == lit@.len(),
            n == s@.len(),
            i + m <= n,
            s@.subrange(i as int, i + j) =~= lit@.subrange(0, j as int),
        decreases m - j,
    {
        if j >= m {
            proof {
                assert(s@.subrange(i as int, i + m) =~= lit@.subrange(0, m as int));
                assert(lit@.subrange(0, m as int) =~= lit@);
            }
            return true;
        }
        let cs = s.get_char(i + j);
        let cl = lit.get_char(j);
        if cs != cl {
            proof {
                assert(s@.subrange(i as int, i + lit@.len())[j as int] == s@[i + j]);
            }
            return false;
        }
        proof {
            assert(s@.subrange(i as int, i + (j + 1)) =~= s@.subrange(i as int, i + j).push(
                s@[i + j],
            ));
            assert(lit@.subrange(0, j as int + 1) =~= lit@.subrange(0, j as int).push(
                lit@[j as int],
            ));
        }
        j += 1;
    }
}

/// The character for a single decimal digit.
pub open spec fn digit_char(d: nat) -> char {
    if d == 0 {
        '0'
    } else if d == 1 {
        '1'
    } else if d == 2 {
        '2'
    } else if d == 3 {
        '3'
    } else if d == 4 {
        '4'
    } else if d == 5 {
        '5'
    } else if d == 6 {
        '6'
    } else if d == 7 {
        '7'
    } else if d == 8 {
        '8'
    } else {
        '9'
    }
}

/// Decimal notation of a natural number, without leading zeros.
pub open spec fn dec_digits(n: nat) -> Seq<char>
    decreases n,
{
    if n < 10 {
        seq![digit_char(n)]
    } else {
        dec_digits(n / 10).push(digit_char(n % 10))
    }
}

fn digit_str(d: usize) -> (r: &'static str)
    requires
        d < 10,
    ensures
        r@ =~= seq![digit_char(d as nat)],
{
    proof {
        reveal_strlit("0");
        reveal_strlit("1");
        reveal_strlit("2");
        reveal_strlit("3");
        reveal_strlit("4");
        reveal_strlit("5");
        reveal_strlit("6");
        reveal_strlit("7");
        reveal_strlit("8");
        reveal_strlit("9");
    }
    if d == 0 {
        "0"
    } else if d == 1 {
        "1"
    } else if d == 2 {
        "2"
    } else if d == 3 {
        "3"
    } else if d == 4 {
        "4"
    } else if d == 5 {
        "5"
    } else if d == 6 {
        "6"
    } else if d == 7 {
        "7"
    } else if d == 8 {
        "8"
    } else {
        "9"
    }
}

/// Append the decimal notation of `n` to `out`.
pub fn append_dec(out: &mut String, n: usize)
    ensures
        final(out)@ == old(out)@ + dec_digits(n as nat),
    decreases n,
{
    if n >= 10 {
        append_dec(out, n / 10);
        out.append(digit_str(n % 10));
        proof {
            assert(old(out)@ + dec_digits((n / 10) as nat) + seq![
                digit_char((n % 10) as nat),
            ] =~= old(out)@ + dec_digits(n as nat));
        }
    } else {
        out.append(digit_str(n));
    }
}

/// The decimal notation of `n` as a string.
pub fn dec_string(n: usize) -> (r: String)
    ensures
        r@ == dec_digits(n as nat),
{
    let mut out = String::new();
    append_dec(&mut out, n);
    proof {
        assert(Seq::<char>::empty() + dec_digits(n as nat) =~= dec_digits(n as nat));
    }
    out
}

/// Numeric value of a digit character, or 10 for any other character.
pub open spec fn char_digit_val(c: char) -> nat {
    if c == '0' {
        0
    } else if c == '1' {
        1
    } else if c == '2' {
        2
    } else if c == '3' {
        3
    } else if c == '4' {
        4
    } else if c == '5' {
        5
    } else if c == '6' {
        6
    } else if c == '7' {
        7
    } else if c == '8' {
        8
    } else if c == '9' {
        9
    } else {
        10
    }
}

/// Whether `s` is canonical decimal notation: digits only, nonempty, and no
/// leading zero except for "0" itself.
pub open spec fn is_dec(s: Seq<char>) -> bool {
    &&& s.len() > 0
    &&& forall|i: int| 0 <= i < s.len() ==> char_digit_val(#[trigger] s[i]) < 10
    &&& (s.len() > 1 ==> s.first() != '0')
}

/// Numeric value of a digit sequence.
pub open spec fn dec_val(s: Seq<char>) -> nat
    decreases s.len(),
{
    if s.len() == 0 {
        0
    } else {
        dec_val(s.drop_last()) * 10 + char_digit_val(s.last())
    }
}

pub proof fn lemma_dec_digits_len(n: nat)
    ensures
        dec_digits(n).len() >= 1,
        n >= 10 ==> dec_digits(n).len() >= 2,
    decreases n,
{
    if n >= 10 {
        lemma_dec_digits_len(n / 10);
    }
}

pub proof fn lemma_dec_digits_is_dec(n: nat)
    ensures
        is_dec(dec_digits(n)),
        dec_val(dec_digits(n)) == n,
    decreases n,
{
    if n < 10 {
        let s = seq![digit_char(n)];
        assert(dec_digits(n) == s);
        assert(s.drop_last() =~= Seq::<char>::empty());
        assert(s.last() == digit_char(n));
        assert(dec_val(s.drop_last()) == 0);
        assert(char_digit_val(digit_char(n)) == n);
        assert(dec_val(s) == n);
        assert(forall|i: int| 0 <= i < s.len() ==> char_digit_val(#[trigger] s[i]) < 10);
    } else {
        lemma_dec_digits_is_dec(n / 10);
        let p = dec_digits(n / 10);
        let w = p.push(digit_char(n % 10));
        assert(w.drop_last() =~= p);
        assert(w.last() == digit_char(n % 10));
        assert(char_digit_val(digit_char(n % 10)) == n % 10);
        assert(dec_val(w) == dec_val(p) * 10 + n % 10);
        assert(dec_val(p) == n / 10);
        assert(n == n / 10 * 10 + n % 10) by {
            vstd::arithmetic::div_mod::lemma_fundamental_div_mod(n as int, 10);
        }
        assert(n / 10 >= 1);
        if n / 10 < 10 {
            assert(p == seq![digit_char(n / 10)]);
            assert(p.first() == digit_char(n / 10));
            assert(p.first() != '0');
        } else {
            lemma_dec_digits_len(n / 10);
            assert(p.len() > 1);
        }
        assert(p.first() != '0');
        assert(w.first() == p.first());
        assert(w.len() > 1 ==> w.first() != '0');
        assert(forall|i: int|
            0 <= i < w.len() ==> char_digit_val(#[trigger] w[i]) < 10) by {
            assert(forall|i: int| 0 <= i < p.len() ==> char_digit_val(#[trigger] p[i]) < 10);
            assert(w.len() == p.len() + 1);
            assert(forall|i: int| 0 <= i < p.len() ==> w[i] == p[i]);
            assert(char_digit_val(w[p.len() as int]) < 10);
        }
    }
}

/// Parse canonical decimal notation; rejects anything `is_dec` rejects and
/// values that do not fit in `usize`.
pub fn parse_dec(s: &str) -> (r: Option<usize>)
    ensures
        match r {
            Some(v) => is_dec(s@) && dec_val(s@) == v,
            None => !is_dec(s@) || dec_val(s@) > usize::MAX,
        },
{
    let n = s.unicode_len();
    if n == 0 {
        return None;
    }
    if n > 1 && s.get_char(0) == '0' {
        return None;
    }
    let mut acc: usize = 0;
    let mut i: usize = 0;
    loop
        invariant
            i <= n,
            n == s@.len(),
            n > 0,
            n > 1 ==> s@.first() != '0',
            acc == dec_val(s@.subrange(0, i as int)),
            forall|j: int| 0 <= j < i ==> char_digit_val(#[trigger] s@[j]) < 10,
        decreases n - i,
    {
        if i >= n {
            proof {
                assert(s@.subrange(0, n as int) =~= s@);
            }
            return Some(acc);
        }
        let c = s.get_char(i);
        let d: usize = if c == '0' {
            0
        } else if c == '1' {
            1
        } else if c == '2' {
            2
        } else if c == '3' {
            3
        } else if c == '4' {
            4
        } else if c == '5' {
            5
        } else if c == '6' {
            6
        } else if c == '7' {
            7
        } else if c == '8' {
            8
        } else if c == '9' {
            9
        } else {
            return None;
        };
        proof {
            assert(char_digit_val(s@[i as int]) == d);
        }
        let shifted = acc.checked_mul(10);
        let next = match shifted {
            Some(sh) => sh.checked_add(d),
            None => None,
        };
        let na = match next {
            Some(v) => v,
            None => {
                proof {
                    if is_dec(s@) {
                        assert(s@.subrange(0, i as int + 1).drop_last() =~= s@.subrange(
                            0,
                            i as int,
                        ));
                        assert(s@.subrange(0, i as int + 1).last() == s@[i as int]);
                        assert(dec_val(s@.subrange(0, i as int + 1)) > usize::MAX);
                        lemma_dec_val_prefix_le(s@, i as int + 1);
                    }
                }
                return None;
            },
        };
        proof {
            assert(s@.subrange(0, i as int + 1).drop_last() =~= s@.subrange(0, i as int));
            assert(s@.subrange(0, i as int + 1).last() == s@[i as int]);
        }
        acc = na;
        i += 1;
    }
}

/// The value of a decimal prefix never exceeds the value of the whole.
pub proof fn lemma_dec_val_prefix_le(s: Seq<char>, i: int)
    requires
        0 <= i <= s.len(),
        forall|j: int| 0 <= j < s.len() ==> char_digit_val(#[trigger] s[j]) < 10,
    ensures
        dec_val(s.subrange(0, i)) <= dec_val(s),
    decreases s.len() - i,
{
    if i == s.len() {
        assert(s.subrange(0, i) =~= s);
    } else {
        lemma_dec_val_prefix_le(s, i + 1);
        let p = s.subrange(0, i);
        let q = s.subrange(0, i + 1);
        assert(q.drop_last() =~= p);
        assert(dec_val(q) == dec_val(p) * 10 + char_digit_val(s[i]));
        assert(dec_val(p) <= dec_val(p) * 10) by (nonlinear_arith);
    }
}

} // verus!
