//! Decimal formatting of integers and splitting of strings at a separator,
//! each stated over `Seq<char>`.

use vstd::prelude::*;
use vstd::string::*;

verus! {

/// `String::push` appends one character to the end of the string.
pub assume_specification[ String::push ](string: &mut String, ch: char)
    ensures
        final(string)@ == old(string)@.push(ch),
;

/// The ASCII character of a decimal digit.
pub open spec fn digit_char(d: nat) -> char
    recommends
        d < 10,
{
    (48 + d) as char
}

/// The decimal digits of a natural number, most significant first, without
/// leading zeros (zero itself is "0").
pub open spec fn decimal(n: nat) -> Seq<char>
    decreases n,
{
    if n < 10 {
        seq![digit_char(n)]
    } else {
        decimal(n / 10).push(digit_char(n % 10))
    }
}

/// The decimal form of an integer: a minus sign before the digits of a
/// negative number.
pub open spec fn decimal_int(i: int) -> Seq<char> {
    if i < 0 {
        seq!['-'] + decimal((-i) as nat)
    } else {
        decimal(i as nat)
    }
}

/// The number that a string of decimal digits denotes, read most
/// significant digit first.
pub open spec fn digits_value(s: Seq<char>) -> nat
    decreases s.len(),
{
    if s.len() == 0 {
        0
    } else {
        digits_value(s.drop_last()) * 10 + ((s.last() as int - 48) as nat)
    }
}

/// A decimal numeral: at least one digit, only digits, and no leading zero
/// unless the numeral is "0" itself.
pub open spec fn is_decimal_numeral(s: Seq<char>) -> bool {
    &&& s.len() >= 1
    &&& forall|k: int| 0 <= k < s.len() ==> '0' <= #[trigger] s[k] <= '9'
    &&& s.len() > 1 ==> s[0] != '0'
}

/// `s` is the usual decimal numeral of the integer `i`: a minus sign before
/// the digits exactly when `i` is negative.
pub open spec fn is_signed_numeral_of(s: Seq<char>, i: int) -> bool {
    if i < 0 {
        &&& s.len() >= 2
        &&& s[0] == '-'
        &&& is_decimal_numeral(s.drop_first())
        &&& digits_value(s.drop_first()) == -i
    } else {
        is_decimal_numeral(s) && digits_value(s) == i
    }
}

/// `decimal(n)` is a decimal numeral and denotes `n`.
pub proof fn lemma_decimal_numeral(n: nat)
    ensures
        is_decimal_numeral(decimal(n)),
        digits_value(decimal(n)) == n,
    decreases n,
{
    let s = decimal(n);
    if n < 10 {
        assert(s.drop_last() =~= Seq::<char>::empty());
        assert(digits_value(s) == digits_value(s.drop_last()) * 10 + ((s.last() as int - 48) as nat));
    } else {
        let q = n / 10;
        let prefix = decimal(q);
        lemma_decimal_numeral(q);
        assert(s == prefix.push(digit_char(n % 10)));
        assert(s.drop_last() =~= prefix);
        assert(digits_value(s) == digits_value(prefix) * 10 + n % 10);
        assert(forall|k: int| 0 <= k < s.len() ==> '0' <= #[trigger] s[k] <= '9') by {
            assert forall|k: int| 0 <= k < s.len() implies '0' <= #[trigger] s[k] <= '9' by {
                if k < prefix.len() {
                    assert(s[k] == prefix[k]);
                }
            }
        }
        assert(s[0] == prefix[0]);
        if prefix.len() == 1 {
            assert(prefix.drop_last() =~= Seq::<char>::empty());
            assert(digits_value(prefix) == digits_value(prefix.drop_last()) * 10 + ((prefix.last()
                as int - 48) as nat));
            assert(prefix[0] != '0');
        }
    }
}

/// `decimal_int(i)` is the usual numeral of `i`.
pub proof fn lemma_decimal_int_numeral(i: int)
    ensures
        is_signed_numeral_of(decimal_int(i), i),
{
    if i < 0 {
        let digits = decimal((-i) as nat);
        lemma_decimal_numeral((-i) as nat);
        assert((seq!['-'] + digits).drop_first() =~= digits);
    } else {
        lemma_decimal_numeral(i as nat);
    }
}

/// Every character of `decimal(n)` is one of '0'..'9'.
pub proof fn lemma_decimal_digits(n: nat)
    ensures
        decimal(n).len() >= 1,
        forall|k: int| 0 <= k < decimal(n).len() ==> '0' <= #[trigger] decimal(n)[k] <= '9',
    decreases n,
{
    if n >= 10 {
        lemma_decimal_digits(n / 10);
    }
}

/// Ten to the power `k`.
pub open spec fn pow10(k: nat) -> nat
    decreases k,
{
    if k == 0 {
        1
    } else {
        10 * pow10((k - 1) as nat)
    }
}

/// A number below `10^k` (for `k >= 1`) has at most `k` decimal digits.
pub proof fn lemma_decimal_len(n: nat, k: nat)
    requires
        k >= 1,
        n < pow10(k),
    ensures
        decimal(n).len() <= k,
    decreases k,
{
    if n >= 10 {
        let p = pow10((k - 1) as nat);
        assert(k >= 2) by {
            if k == 1 {
                assert(pow10(0) == 1);
            }
        }
        assert(n / 10 < p) by (nonlinear_arith)
            requires
                n < 10 * p,
        ;
        lemma_decimal_len(n / 10, (k - 1) as nat);
    }
}

/// An unsigned 64-bit number has at most 20 decimal digits.
pub proof fn lemma_decimal_len_u64(n: u64)
    ensures
        decimal(n as nat).len() <= 20,
{
    reveal_with_fuel(pow10, 21);
    assert(pow10(20) == 100000000000000000000nat);
    lemma_decimal_len(n as nat, 20);
}

fn digit(d: u64) -> (c: char)
    requires
        d < 10,
    ensures
        c == digit_char(d as nat),
{
    let b: u8 = d as u8 + 48;
    b as char
}

/// Appends the decimal digits of `n` to `out`.
pub fn push_decimal(out: &mut String, n: u64)
    ensures
        final(out)@ == old(out)@ + decimal(n as nat),
    decreases n,
{
    if n >= 10 {
        push_decimal(out, n / 10);
    }
    let ghost before = out@;
    out.push(digit(n % 10));
    proof {
        if n >= 10 {
            assert(before == old(out)@ + decimal((n / 10) as nat));
            assert(decimal(n as nat) == decimal((n / 10) as nat).push(digit_char((n % 10) as nat)));
            assert(out@ =~= old(out)@ + decimal(n as nat));
        } else {
            assert(out@ =~= old(out)@ + decimal(n as nat));
        }
    }
}

/// Appends the decimal form of `i` to `out`, with a minus sign when it is
/// negative.
pub fn push_decimal_i64(out: &mut String, i: i64)
    ensures
        final(out)@ == old(out)@ + decimal_int(i as int),
{
    if i < 0 {
        out.push('-');
        let magnitude: u64 = (-(i + 1)) as u64 + 1;
        assert(magnitude == -i);
        push_decimal(out, magnitude);
        assert(out@ =~= old(out)@ + decimal_int(i as int));
    } else {
        push_decimal(out, i as u64);
    }
}

/// The decimal form of an unsigned integer, as `u64::to_string` gives it.
pub fn format_u64(n: u64) -> (s: String)
    ensures
        s@ == decimal(n as nat),
{
    let mut s = String::new();
    push_decimal(&mut s, n);
    assert(s@ =~= decimal(n as nat));
    s
}

/// The decimal form of a signed integer, as `i64::to_string` gives it.
pub fn format_i64(i: i64) -> (s: String)
    ensures
        s@ == decimal_int(i as int),
{
    let mut s = String::new();
    push_decimal_i64(&mut s, i);
    assert(s@ =~= decimal_int(i as int));
    s
}

/// The pieces of `s` between occurrences of `sep`, as `str::split` with a
/// character pattern yields them: one more piece than there are separators,
/// empty pieces included.
pub open spec fn split_on(s: Seq<char>, sep: char) -> Seq<Seq<char>>
    decreases s.len(),
{
    if s.len() == 0 {
        seq![Seq::empty()]
    } else {
        let pieces = split_on(s.drop_last(), sep);
        if s.last() == sep {
            pieces.push(Seq::empty())
        } else {
            pieces.update(pieces.len() - 1, pieces.last().push(s.last()))
        }
    }
}

/// Splitting always yields at least one piece.
pub proof fn lemma_split_nonempty(s: Seq<char>, sep: char)
    ensures
        split_on(s, sep).len() >= 1,
    decreases s.len(),
{
    if s.len() > 0 {
        lemma_split_nonempty(s.drop_last(), sep);
    }
}

/// A string without the separator is a single piece.
pub proof fn lemma_split_without_separator(s: Seq<char>, sep: char)
    requires
        !s.contains(sep),
    ensures
        split_on(s, sep) == seq![s],
    decreases s.len(),
{
    if s.len() > 0 {
        let init = s.drop_last();
        assert(!init.contains(sep)) by {
            if init.contains(sep) {
                let k = choose|k: int| 0 <= k < init.len() && init[k] == sep;
                assert(s[k] == sep);
            }
        }
        lemma_split_without_separator(init, sep);
        assert(s[s.len() - 1] != sep);
        assert(init.push(s.last()) =~= s);
        assert(split_on(s, sep) =~= seq![s]);
    } else {
        assert(s =~= Seq::<char>::empty());
        assert(split_on(s, sep) =~= seq![s]);
    }
}

/// Joining two separator-free strings with one separator splits back into
/// exactly those two strings.
pub proof fn lemma_split_pair(a: Seq<char>, b: Seq<char>, sep: char)
    requires
        !a.contains(sep),
        !b.contains(sep),
    ensures
        split_on(a + seq![sep] + b, sep) == seq![a, b],
    decreases b.len(),
{
    let s = a + seq![sep] + b;
    if b.len() == 0 {
        assert(s.drop_last() =~= a);
        assert(s.last() == sep);
        lemma_split_without_separator(a, sep);
        assert(split_on(s, sep) == split_on(a, sep).push(Seq::empty()));
        assert(b =~= Seq::<char>::empty());
        assert(split_on(s, sep) =~= seq![a, b]);
    } else {
        let init = b.drop_last();
        assert(!init.contains(sep)) by {
            if init.contains(sep) {
                let k = choose|k: int| 0 <= k < init.len() && init[k] == sep;
                assert(b[k] == sep);
            }
        }
        lemma_split_pair(a, init, sep);
        assert(s.drop_last() =~= a + seq![sep] + init);
        assert(s.last() == b[b.len() - 1]);
        assert(b[b.len() - 1] != sep);
        assert(init.push(b.last()) =~= b);
        assert(split_on(s, sep) =~= seq![a, b]);
    }
}

/// The pieces joined back with the separator between consecutive pieces.
pub open spec fn join_with(pieces: Seq<Seq<char>>, sep: char) -> Seq<char>
    decreases pieces.len(),
{
    if pieces.len() == 0 {
        Seq::empty()
    } else if pieces.len() == 1 {
        pieces[0]
    } else {
        join_with(pieces.drop_last(), sep) + seq![sep] + pieces.last()
    }
}

/// Joining the pieces of a split with the separator gives back the string.
pub proof fn lemma_split_join(s: Seq<char>, sep: char)
    ensures
        join_with(split_on(s, sep), sep) == s,
    decreases s.len(),
{
    if s.len() == 0 {
        assert(s =~= Seq::<char>::empty());
    } else {
        let init = s.drop_last();
        let c = s.last();
        let pieces = split_on(init, sep);
        lemma_split_join(init, sep);
        lemma_split_nonempty(init, sep);
        assert(init.push(c) =~= s);
        if c == sep {
            let next = pieces.push(Seq::empty());
            assert(next.drop_last() =~= pieces);
            assert(join_with(next, sep) =~= init + seq![sep] + Seq::<char>::empty());
            assert(join_with(next, sep) =~= s);
        } else {
            let n = pieces.len();
            let next = pieces.update(n - 1, pieces.last().push(c));
            if n == 1 {
                assert(join_with(pieces, sep) == pieces[0]);
                assert(join_with(next, sep) == next[0]);
                assert(join_with(next, sep) =~= s);
            } else {
                assert(next.drop_last() =~= pieces.drop_last());
                assert(join_with(next, sep) =~= join_with(pieces.drop_last(), sep) + seq![sep]
                    + pieces.last().push(c));
                assert(join_with(next, sep) =~= s);
            }
        }
    }
}

/// A string that splits into exactly two pieces is those two pieces around
/// one separator.
pub proof fn lemma_split_two_rejoin(s: Seq<char>, sep: char)
    requires
        split_on(s, sep).len() == 2,
    ensures
        s == split_on(s, sep)[0] + seq![sep] + split_on(s, sep)[1],
{
    let pieces = split_on(s, sep);
    lemma_split_join(s, sep);
    assert(pieces.drop_last() =~= seq![pieces[0]]);
    assert(join_with(pieces.drop_last(), sep) == pieces[0]);
}

/// The views of a vector of strings.
pub open spec fn views(strings: Seq<String>) -> Seq<Seq<char>> {
    strings.map_values(|s: String| s@)
}

/// Splits `text` at every occurrence of `sep`, as
/// `text.split(sep).collect::<Vec<_>>()` does, each piece as an owned string.
pub fn split_at_char(text: &str, sep: char) -> (pieces: Vec<String>)
    ensures
        views(pieces@) == split_on(text@, sep),
{
    let n = text.unicode_len();
    let mut pieces: Vec<String> = Vec::new();
    let mut current = String::new();
    let mut i: usize = 0;
    assert(text@.take(0) =~= Seq::<char>::empty());
    assert(views(pieces@).push(current@) =~= split_on(text@.take(0), sep));
    while i < n
        invariant
            i <= n,
            n == text@.len(),
            views(pieces@).push(current@) == split_on(text@.take(i as int), sep),
        decreases n - i,
    {
        let c = text.get_char(i);
        let ghost prefix = text@.take(i as int);
        let ghost next = text@.take(i + 1);
        proof {
            assert(next.drop_last() =~= prefix);
            assert(next.last() == c);
            lemma_split_nonempty(prefix, sep);
        }
        let ghost before = views(pieces@);
        let ghost piece = current@;
        if c == sep {
            pieces.push(current);
            current = String::new();
            assert(views(pieces@) =~= before.push(piece));
            assert(views(pieces@).push(current@) =~= split_on(next, sep));
        } else {
            current.push(c);
            assert(views(pieces@).push(current@) =~= split_on(next, sep));
        }
        i = i + 1;
    }
    assert(text@.take(n as int) =~= text@);
    let ghost before = views(pieces@);
    pieces.push(current);
    assert(views(pieces@) =~= before.push(current@));
    pieces
}

} // verus!
