//! Decimal text of fixed-point values.

use vstd::prelude::*;
use vstd::string::*;

use crate::types::{Point, SCALE};

verus! {

/// The character of decimal digit `d`.
pub open spec fn digit_char(d: int) -> char {
    if d == 0 {
        '0'
    } else if d == 1 {
        '1'
    } else if d == 2 {
        '2'
    } else if d == 3 {
        '3'
    } else if d == 4 {
        '4'
    } else if d == 5 {
        '5'
    } else if d == 6 {
        '6'
    } else if d == 7 {
        '7'
    } else if d == 8 {
        '8'
    } else {
        '9'
    }
}

/// The decimal digits of `n`, most significant first, without leading
/// zeros.
pub open spec fn digits(n: nat) -> Seq<char>
    decreases n,
{
    if n < 10 {
        seq![digit_char(n as int)]
    } else {
        digits(n / 10).push(digit_char((n % 10) as int))
    }
}

/// The digits of thousandths `f` (1 to 999) after the point, without
/// trailing zeros.
pub open spec fn fraction_text(f: int) -> Seq<char> {
    if f % 100 == 0 {
        seq![digit_char(f / 100)]
    } else if f % 10 == 0 {
        seq![digit_char(f / 100), digit_char(f / 10 % 10)]
    } else {
        seq![digit_char(f / 100), digit_char(f / 10 % 10), digit_char(f % 10)]
    }
}

/// The shortest decimal text of the fixed-point value `v`: a minus sign when
/// negative, the whole part, and the fraction when it is not zero.
pub open spec fn decimal_text(v: int) -> Seq<char> {
    let a = if v < 0 {
        -v
    } else {
        v
    };
    let whole = digits((a / SCALE as int) as nat);
    let f = a % SCALE as int;
    let sign = if v < 0 {
        seq!['-']
    } else {
        Seq::<char>::empty()
    };
    let frac = if f == 0 {
        Seq::<char>::empty()
    } else {
        seq!['.'] + fraction_text(f)
    };
    sign + whole + frac
}

fn digit_str(d: u128) -> (r: &'static str)
    requires
        d < 10,
    ensures
        r@ == seq![digit_char(d as int)],
{
    proof {
        reveal_strlit("0");
        reveal_strlit("1");
        reveal_strlit("2");
        reveal_strlit("3");
        reveal_strlit("4");
        reveal_strlit("5");
        reveal_strlit("6");
        reveal_strlit("7");
        reveal_strlit("8");
        reveal_strlit("9");
    }
    let r = if d == 0 {
        "0"
    } else if d == 1 {
        "1"
    } else if d == 2 {
        "2"
    } else if d == 3 {
        "3"
    } else if d == 4 {
        "4"
    } else if d == 5 {
        "5"
    } else if d == 6 {
        "6"
    } else if d == 7 {
        "7"
    } else if d == 8 {
        "8"
    } else {
        "9"
    };
    assert(r@ =~= seq![digit_char(d as int)]);
    r
}

fn push_digits(out: &mut String, n: u128)
    ensures
        final(out)@ == old(out)@ + digits(n as nat),
    decreases n,
{
    if n >= 10 {
        push_digits(out, n / 10);
    }
    out.append(digit_str(n % 10));
    proof {
        if n >= 10 {
            assert(digits(n as nat) == digits((n / 10) as nat).push(digit_char((n % 10) as int)));
        }
    }
    assert(out@ =~= old(out)@ + digits(n as nat));
}

/// The shortest decimal text of the fixed-point value `v`, as in `20`,
/// `-1.5` or `0.125`.
pub fn format_fixed(v: i128) -> (r: String)
    requires
        v > i128::MIN,
    ensures
        r@ == decimal_text(v as int),
{
    let a: u128 = if v < 0 {
        (-v) as u128
    } else {
        v as u128
    };
    let mut out = String::new();
    if v < 0 {
        proof {
            reveal_strlit("-");
        }
        out.append("-");
    }
    push_digits(&mut out, a / 1000);
    let f = a % 1000;
    if f != 0 {
        proof {
            reveal_strlit(".");
        }
        out.append(".");
        out.append(digit_str(f / 100));
        if f % 100 != 0 {
            out.append(digit_str(f / 10 % 10));
            if f % 10 != 0 {
                out.append(digit_str(f % 10));
            }
        }
    }
    proof {
        let sign = if v < 0 { seq!['-'] } else { Seq::<char>::empty() };
        let whole = digits((a / 1000) as nat);
        let frac = if f == 0 { Seq::<char>::empty() } else { seq!['.'] + fraction_text(f as int) };
        assert(out@ =~= sign + whole + frac);
    }
    out
}

/// One command of a path: a move to the first point, a line to any other.
pub open spec fn point_command(p: Point, first: bool) -> Seq<char> {
    let letter = if first {
        seq!['M']
    } else {
        seq!['L']
    };
    letter + decimal_text(p.x as int) + seq![','] + decimal_text(p.y as int)
}

/// The path through `points` in order, its commands separated by spaces.
pub open spec fn path_text(points: Seq<Point>) -> Seq<char>
    decreases points.len(),
{
    if points.len() == 0 {
        Seq::<char>::empty()
    } else if points.len() == 1 {
        point_command(points[0], true)
    } else {
        path_text(points.drop_last()) + seq![' '] + point_command(points.last(), false)
    }
}

fn push_command(out: &mut String, p: Point, first: bool)
    requires
        p.x > i128::MIN,
        p.y > i128::MIN,
    ensures
        final(out)@ == old(out)@ + point_command(p, first),
{
    proof {
        reveal_strlit("M");
        reveal_strlit("L");
        reveal_strlit(",");
    }
    if first {
        out.append("M");
    } else {
        out.append("L");
    }
    let x = format_fixed(p.x);
    out.append(x.as_str());
    out.append(",");
    let y = format_fixed(p.y);
    out.append(y.as_str());
    assert(out@ =~= old(out)@ + point_command(p, first));
}

/// The path text that draws straight lines through `points` in order, as in
/// `M0,400 L300,200 L600,0`.
pub fn path_of(points: &Vec<Point>) -> (r: String)
    requires
        forall|i: int| 0 <= i < points@.len() ==> #[trigger] points@[i].x > i128::MIN && points@[i].y > i128::MIN,
    ensures
        r@ == path_text(points@),
{
    let mut out = String::new();
    let mut i: usize = 0;
    while i < points.len()
        invariant
            forall|j: int| 0 <= j < points@.len() ==> #[trigger] points@[j].x > i128::MIN && points@[j].y > i128::MIN,
            0 <= i <= points@.len(),
            out@ == path_text(points@.subrange(0, i as int)),
        decreases points@.len() - i,
    {
        let ghost before = points@.subrange(0, i as int);
        let ghost after = points@.subrange(0, i as int + 1);
        assert(after.drop_last() =~= before);
        assert(after.last() == points@[i as int]);
        if i > 0 {
            proof {
                reveal_strlit(" ");
            }
            out.append(" ");
        }
        push_command(&mut out, points[i], i == 0);
        proof {
            if i == 0 {
                assert(path_text(before) =~= Seq::<char>::empty());
                assert(out@ =~= path_text(after));
            } else {
                assert(out@ =~= path_text(after));
            }
        }
        i = i + 1;
    }
    assert(points@.subrange(0, points@.len() as int) =~= points@);
    out
}

} // verus!
