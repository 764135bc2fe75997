//! Decimal rendering of integers, used for fresh names and for assembly
//! operands.
use vstd::prelude::*;

verus! {

/// The character of the decimal digit `d`.
pub open spec fn digit_char(d: nat) -> char {
    if d == 0 { '0' }
    else if d == 1 { '1' }
    else if d == 2 { '2' }
    else if d == 3 { '3' }
    else if d == 4 { '4' }
    else if d == 5 { '5' }
    else if d == 6 { '6' }
    else if d == 7 { '7' }
    else if d == 8 { '8' }
    else { '9' }
}

/// The decimal digits of `n`, most significant first, without leading zeros.
pub open spec fn decimal(n: nat) -> Seq<char>
    decreases n,
{
    if n < 10 {
        seq![digit_char(n)]
    } else {
        decimal(n / 10).push(digit_char(n % 10))
    }
}

/// The decimal text of `v`, with a leading `-` when it is negative.
pub open spec fn signed_decimal(v: int) -> Seq<char> {
    if v < 0 {
        seq!['-'] + decimal((-v) as nat)
    } else {
        decimal(v as nat)
    }
}

fn digit_str(d: u64) -> (r: &'static str)
    requires
        d < 10,
    ensures
        r@ == seq![digit_char(d as nat)],
{
    if d == 0 {
        proof { reveal_strlit("0"); }
        "0"
    } else if d == 1 {
        proof { reveal_strlit("1"); }
        "1"
    } else if d == 2 {
        proof { reveal_strlit("2"); }
        "2"
    } else if d == 3 {
        proof { reveal_strlit("3"); }
        "3"
    } else if d == 4 {
        proof { reveal_strlit("4"); }
        "4"
    } else if d == 5 {
        proof { reveal_strlit("5"); }
        "5"
    } else if d == 6 {
        proof { reveal_strlit("6"); }
        "6"
    } else if d == 7 {
        proof { reveal_strlit("7"); }
        "7"
    } else if d == 8 {
        proof { reveal_strlit("8"); }
        "8"
    } else {
        proof { reveal_strlit("9"); }
        "9"
    }
}

/// Appends the decimal digits of `n` to `out`.
pub fn push_decimal(out: &mut String, n: u64)
    ensures
        final(out)@ == old(out)@ + decimal(n as nat),
    decreases n,
{
    if n >= 10 {
        push_decimal(out, n / 10);
    }
    out.append(digit_str(n % 10));
    proof {
        if n >= 10 {
            assert(decimal(n as nat) == decimal((n / 10) as nat).push(digit_char((n % 10) as nat)));
        }
        assert(final(out)@ =~= old(out)@ + decimal(n as nat));
    }
}

/// Appends the decimal text of `v`, with its sign, to `out`.
pub fn push_signed_decimal(out: &mut String, v: i32)
    ensures
        final(out)@ == old(out)@ + signed_decimal(v as int),
{
    if v < 0 {
        proof { reveal_strlit("-"); }
        out.append("-");
        let magnitude: i64 = -(v as i64);
        push_decimal(out, magnitude as u64);
        assert(final(out)@ =~= old(out)@ + signed_decimal(v as int));
    } else {
        push_decimal(out, v as u64);
    }
}

/// `prefix.n`: the name minted from `prefix` with the counter `n`.
pub open spec fn numbered(prefix: Seq<char>, n: nat) -> Seq<char> {
    prefix + seq!['.'] + decimal(n)
}

/// Mints the name `prefix.n`.
pub fn numbered_name(prefix: &str, n: u64) -> (r: String)
    ensures
        r@ == numbered(prefix@, n as nat),
{
    let mut out = String::from_str(prefix);
    proof { reveal_strlit("."); }
    out.append(".");
    push_decimal(&mut out, n);
    assert(out@ =~= numbered(prefix@, n as nat));
    out
}

proof fn lemma_decimal_shape(n: nat)
    ensures
        decimal(n).len() >= 1,
        n >= 10 ==> decimal(n).len() >= 2,
        forall|i: int| 0 <= i < decimal(n).len() ==> #[trigger] decimal(n)[i] != '.',
    decreases n,
{
    if n >= 10 {
        lemma_decimal_shape(n / 10);
        let d = decimal(n / 10).push(digit_char(n % 10));
        assert forall|i: int| 0 <= i < d.len() implies #[trigger] d[i] != '.' by {
            if i < d.len() - 1 {
                assert(d[i] == decimal(n / 10)[i]);
            }
        }
    }
}

proof fn lemma_digit_char_injective(a: nat, b: nat)
    requires
        a < 10,
        b < 10,
        digit_char(a) == digit_char(b),
    ensures
        a == b,
{
}

proof fn lemma_decimal_injective(i: nat, j: nat)
    requires
        decimal(i) == decimal(j),
    ensures
        i == j,
    decreases i,
{
    lemma_decimal_shape(i);
    lemma_decimal_shape(j);
    if i < 10 && j < 10 {
        assert(decimal(i)[0] == digit_char(i));
        assert(decimal(j)[0] == digit_char(j));
        lemma_digit_char_injective(i, j);
    } else if i >= 10 && j >= 10 {
        let di = decimal(i);
        let dj = decimal(j);
        assert(di.last() == digit_char(i % 10));
        assert(dj.last() == digit_char(j % 10));
        lemma_digit_char_injective(i % 10, j % 10);
        assert(di.drop_last() =~= decimal(i / 10));
        assert(dj.drop_last() =~= decimal(j / 10));
        lemma_decimal_injective(i / 10, j / 10);
    }
}

/// Names minted with different counters differ, whatever their prefixes.
pub proof fn lemma_numbered_injective(x: Seq<char>, i: nat, y: Seq<char>, j: nat)
    requires
        numbered(x, i) == numbered(y, j),
    ensures
        i == j,
{
    let s = numbered(x, i);
    let di = decimal(i);
    let dj = decimal(j);
    let xs = x + seq!['.'];
    let ys = y + seq!['.'];
    lemma_decimal_shape(i);
    lemma_decimal_shape(j);
    assert(s == xs + di);
    assert(s == ys + dj);
    assert(s[x.len() as int] == xs[x.len() as int]);
    assert(s[y.len() as int] == ys[y.len() as int]);
    if x.len() < y.len() {
        let k = y.len() - xs.len();
        assert(s[y.len() as int] == di[k]);
        assert(di[k] != '.');
    } else if y.len() < x.len() {
        let k = x.len() - ys.len();
        assert(s[x.len() as int] == dj[k]);
        assert(dj[k] != '.');
    }
    assert(x.len() == y.len());
    assert(di =~= s.subrange(x.len() + 1int, s.len() as int));
    assert(dj =~= s.subrange(y.len() + 1int, s.len() as int));
    lemma_decimal_injective(i, j);
}

} // verus!
