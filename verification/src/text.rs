//! Decimal rendering of integers and the small string helpers the buffer
//! logic is built from.

use vstd::prelude::*;

verus! {

/// The character for one decimal digit.
pub open spec fn digit(d: nat) -> char {
    if d == 0 {
        '0'
    } else if d == 1 {
        '1'
    } else if d == 2 {
        '2'
    } else if d == 3 {
        '3'
    } else if d == 4 {
        '4'
    } else if d == 5 {
        '5'
    } else if d == 6 {
        '6'
    } else if d == 7 {
        '7'
    } else if d == 8 {
        '8'
    } else {
        '9'
    }
}

/// The decimal numeral of `n`, most significant digit first, without leading
/// zeros (`0` is written "0").
pub open spec fn decimal(n: nat) -> Seq<char>
    decreases n,
{
    if n < 10 {
        seq![digit(n)]
    } else {
        decimal(n / 10).push(digit(n % 10))
    }
}

/// The decimal numeral of a signed integer: a minus sign in front of the
/// numeral of the magnitude when negative.
pub open spec fn signed_decimal(i: int) -> Seq<char> {
    if i < 0 {
        seq!['-'] + decimal((-i) as nat)
    } else {
        decimal(i as nat)
    }
}

/// The numeral of `n` padded with zeros on the left to at least four digits.
pub open spec fn padded4(n: nat) -> Seq<char> {
    if n < 10 {
        seq!['0', '0', '0'] + decimal(n)
    } else if n < 100 {
        seq!['0', '0'] + decimal(n)
    } else if n < 1000 {
        seq!['0'] + decimal(n)
    } else {
        decimal(n)
    }
}

/// `items` joined with `sep` between neighbours.
pub open spec fn join(items: Seq<Seq<char>>, sep: Seq<char>) -> Seq<char>
    decreases items.len(),
{
    if items.len() == 0 {
        Seq::empty()
    } else if items.len() == 1 {
        items[0]
    } else {
        join(items.drop_last(), sep) + sep + items.last()
    }
}

fn digit_str(d: u128) -> (r: &'static str)
    requires
        d < 10,
    ensures
        r@ == seq![digit(d as nat)],
{
    proof {
        reveal_strlit("0");
        reveal_strlit("1");
        reveal_strlit("2");
        reveal_strlit("3");
        reveal_strlit("4");
        reveal_strlit("5");
        reveal_strlit("6");
        reveal_strlit("7");
        reveal_strlit("8");
        reveal_strlit("9");
    }
    let r = if d == 0 {
        "0"
    } else if d == 1 {
        "1"
    } else if d == 2 {
        "2"
    } else if d == 3 {
        "3"
    } else if d == 4 {
        "4"
    } else if d == 5 {
        "5"
    } else if d == 6 {
        "6"
    } else if d == 7 {
        "7"
    } else if d == 8 {
        "8"
    } else {
        "9"
    };
    assert(r@ =~= seq![digit(d as nat)]);
    r
}

/// Appends the decimal numeral of `n` to `out`.
pub fn push_decimal(out: &mut String, n: u128)
    ensures
        final(out)@ == old(out)@ + decimal(n as nat),
    decreases n,
{
    if n >= 10 {
        push_decimal(out, n / 10);
    }
    out.append(digit_str(n % 10));
    assert(out@ =~= old(out)@ + decimal(n as nat));
}

/// The decimal numeral of an unsigned 64-bit number.
pub fn u64_to_string(n: u64) -> (r: String)
    ensures
        r@ == decimal(n as nat),
{
    let mut out = String::new();
    push_decimal(&mut out, n as u128);
    assert(out@ =~= decimal(n as nat));
    out
}

/// The decimal numeral of a signed number.
pub fn signed_to_string(i: i128) -> (r: String)
    ensures
        r@ == signed_decimal(i as int),
{
    let mut out = String::new();
    if i < 0 {
        proof {
            reveal_strlit("-");
        }
        out.append("-");
        let magnitude: u128 = (-(i + 1)) as u128 + 1;
        push_decimal(&mut out, magnitude);
        assert(out@ =~= signed_decimal(i as int));
    } else {
        push_decimal(&mut out, i as u128);
        assert(out@ =~= signed_decimal(i as int));
    }
    out
}

/// The numeral of `n` padded to four digits, as in a user's tag.
pub fn padded4_to_string(n: u16) -> (r: String)
    ensures
        r@ == padded4(n as nat),
{
    let mut out = String::new();
    proof {
        reveal_strlit("0");
        reveal_strlit("00");
        reveal_strlit("000");
    }
    if n < 10 {
        out.append("000");
    } else if n < 100 {
        out.append("00");
    } else if n < 1000 {
        out.append("0");
    }
    push_decimal(&mut out, n as u128);
    assert(out@ =~= padded4(n as nat));
    out
}

/// An owned copy of a string slice.
pub fn owned(s: &str) -> (r: String)
    ensures
        r@ == s@,
{
    s.to_owned()
}

/// Whether two strings hold the same characters.
pub fn same_text(a: &String, b: &String) -> (r: bool)
    ensures
        r == (a@ == b@),
{
    *a == *b
}

/// Whether a character is a decimal digit.
pub open spec fn is_digit(c: char) -> bool {
    c == '0' || c == '1' || c == '2' || c == '3' || c == '4' || c == '5' || c == '6' || c == '7'
        || c == '8' || c == '9'
}

/// A numeral is not empty and holds digits only.
pub proof fn lemma_decimal_shape(n: nat)
    ensures
        decimal(n).len() >= 1,
        n >= 10 ==> decimal(n).len() >= 2,
        forall|i: int| 0 <= i < decimal(n).len() ==> is_digit(#[trigger] decimal(n)[i]),
    decreases n,
{
    if n >= 10 {
        lemma_decimal_shape(n / 10);
    }
}

/// Different numbers have different numerals.
pub proof fn lemma_decimal_injective(a: nat, b: nat)
    requires
        decimal(a) == decimal(b),
    ensures
        a == b,
    decreases a,
{
    lemma_decimal_shape(a);
    lemma_decimal_shape(b);
    if a < 10 || b < 10 {
        assert(decimal(a).len() == 1 || decimal(b).len() == 1);
        assert(a < 10 && b < 10);
        assert(decimal(a)[0] == digit(a) && decimal(b)[0] == digit(b));
        lemma_digit_injective(a, b);
    } else {
        assert(decimal(a).last() == digit(a % 10));
        assert(decimal(b).last() == digit(b % 10));
        assert(decimal(a).drop_last() =~= decimal(a / 10));
        assert(decimal(b).drop_last() =~= decimal(b / 10));
        lemma_decimal_injective(a / 10, b / 10);
        lemma_digit_injective(a % 10, b % 10);
    }
}

/// Different digits are written with different characters, the lesser digit
/// with the lesser character.
pub proof fn lemma_digit_injective(a: nat, b: nat)
    requires
        a < 10,
        b < 10,
    ensures
        digit(a) == digit(b) ==> a == b,
        a < b ==> (digit(a) as int) < (digit(b) as int),
        is_digit(digit(a)),
{
}

/// Two texts, each a numeral followed by a mark that is no digit and then
/// by anything, are equal only if the numerals are equal and what follows
/// the mark is.
pub proof fn lemma_numeral_prefix(a: nat, rest_a: Seq<char>, b: nat, rest_b: Seq<char>, mark: char)
    requires
        !is_digit(mark),
        decimal(a) + seq![mark] + rest_a == decimal(b) + seq![mark] + rest_b,
    ensures
        a == b,
        rest_a == rest_b,
{
    lemma_decimal_shape(a);
    lemma_decimal_shape(b);
    let left = decimal(a) + seq![mark] + rest_a;
    let right = decimal(b) + seq![mark] + rest_b;
    let la = decimal(a).len() as int;
    let lb = decimal(b).len() as int;
    assert(left[la] == mark);
    assert(right[lb] == mark);
    if la < lb {
        assert(right[la] == decimal(b)[la]);
    } else if lb < la {
        assert(left[lb] == decimal(a)[lb]);
    }
    assert(decimal(a) =~= left.take(la));
    assert(decimal(b) =~= right.take(lb));
    lemma_decimal_injective(a, b);
    assert(rest_a =~= left.skip(la + 1));
    assert(rest_b =~= right.skip(lb + 1));
}

/// Whether `a` comes before `b` when texts are compared character by
/// character: at the first place where they differ `a` has the lesser
/// character, or `a` ends there and `b` goes on.
pub open spec fn lex_less(a: Seq<char>, b: Seq<char>) -> bool {
    exists|k: int|
        0 <= k <= a.len() && k <= b.len() && #[trigger] a.take(k) == b.take(k) && (if k
            == a.len() {
            k < b.len()
        } else {
            k < b.len() && (a[k] as int) < (b[k] as int)
        })
}

/// Of two numbers whose numerals are equally long the lesser has the numeral
/// that comes first, whatever follows the numerals.
pub proof fn lemma_numeral_order(a: nat, rest_a: Seq<char>, b: nat, rest_b: Seq<char>)
    requires
        a < b,
        decimal(a).len() == decimal(b).len(),
    ensures
        lex_less(decimal(a) + rest_a, decimal(b) + rest_b),
    decreases a,
{
    let left = decimal(a) + rest_a;
    let right = decimal(b) + rest_b;
    lemma_decimal_shape(a);
    lemma_decimal_shape(b);
    if a < 10 {
        assert(b < 10);
        lemma_digit_injective(a, b);
        assert(left[0] == digit(a) && right[0] == digit(b));
        assert(left.take(0) =~= right.take(0));
    } else {
        assert(b >= 10);
        let front_a = decimal(a / 10);
        let front_b = decimal(b / 10);
        let tail_a = seq![digit(a % 10)] + rest_a;
        let tail_b = seq![digit(b % 10)] + rest_b;
        assert(left =~= front_a + tail_a);
        assert(right =~= front_b + tail_b);
        if a / 10 < b / 10 {
            lemma_numeral_order(a / 10, tail_a, b / 10, tail_b);
        } else {
            assert(a / 10 == b / 10);
            let k = front_a.len() as int;
            lemma_digit_injective(a % 10, b % 10);
            assert(left[k] == digit(a % 10) && right[k] == digit(b % 10));
            assert(left.take(k) =~= right.take(k));
        }
    }
}

} // verus!
