//! Rendering of numbers and name lists into message text.
use vstd::prelude::*;
use vstd::string::*;

verus! {

/// The character of a decimal digit.
pub open spec fn digit_char(d: nat) -> char {
    if d == 0 {
        '0'
    } else if d == 1 {
        '1'
    } else if d == 2 {
        '2'
    } else if d == 3 {
        '3'
    } else if d == 4 {
        '4'
    } else if d == 5 {
        '5'
    } else if d == 6 {
        '6'
    } else if d == 7 {
        '7'
    } else if d == 8 {
        '8'
    } else {
        '9'
    }
}

/// Decimal digits of `n`, without leading zeros.
pub open spec fn decimal(n: nat) -> Seq<char>
    decreases n,
{
    if n < 10 {
        seq![digit_char(n)]
    } else {
        decimal(n / 10) + seq![digit_char(n % 10)]
    }
}

/// `v` tenths, written with one decimal place.
pub open spec fn tenths_text(v: nat) -> Seq<char> {
    decimal(v / 10) + "."@ + decimal(v % 10)
}

/// `v` hundredths, written with two decimal places.
pub open spec fn hundredths_text(v: nat) -> Seq<char> {
    decimal(v / 100) + "."@ + (if v % 100 < 10 {
        "0"@
    } else {
        Seq::empty()
    }) + decimal(v % 100)
}

/// `a / b` rounded to the nearest integer, halves upwards.
pub open spec fn round_div(a: nat, b: nat) -> nat {
    if b == 0 {
        0
    } else {
        (2 * a + b) / (2 * b)
    }
}

/// The items joined with `sep` between neighbours.
pub open spec fn join(items: Seq<Seq<char>>, sep: Seq<char>) -> Seq<char>
    decreases items.len(),
{
    if items.len() == 0 {
        Seq::empty()
    } else if items.len() == 1 {
        items[0]
    } else {
        join(items.drop_last(), sep) + sep + items.last()
    }
}

/// Each name in double quotes.
pub open spec fn quoted(items: Seq<Seq<char>>) -> Seq<Seq<char>> {
    items.map_values(|s: Seq<char>| "\""@ + s + "\""@)
}

/// The names as a bracketed, comma-separated list of quoted names.
pub open spec fn list_text(items: Seq<Seq<char>>) -> Seq<char> {
    "["@ + join(quoted(items), ", "@) + "]"@
}

fn digit_str(d: u64) -> (r: &'static str)
    requires
        d < 10,
    ensures
        r@ == seq![digit_char(d as nat)],
{
    proof {
        reveal_strlit("0");
        reveal_strlit("1");
        reveal_strlit("2");
        reveal_strlit("3");
        reveal_strlit("4");
        reveal_strlit("5");
        reveal_strlit("6");
        reveal_strlit("7");
        reveal_strlit("8");
        reveal_strlit("9");
    }
    if d == 0 {
        "0"
    } else if d == 1 {
        "1"
    } else if d == 2 {
        "2"
    } else if d == 3 {
        "3"
    } else if d == 4 {
        "4"
    } else if d == 5 {
        "5"
    } else if d == 6 {
        "6"
    } else if d == 7 {
        "7"
    } else if d == 8 {
        "8"
    } else {
        "9"
    }
}

/// Appends the decimal digits of `n` to `out`.
pub fn push_decimal(out: &mut String, n: u64)
    ensures
        final(out)@ == old(out)@ + decimal(n as nat),
    decreases n,
{
    if n < 10 {
        out.append(digit_str(n));
    } else {
        push_decimal(out, n / 10);
        out.append(digit_str(n % 10));
        assert(old(out)@ + decimal(n as nat) == old(out)@ + decimal((n / 10) as nat) + seq![
            digit_char((n % 10) as nat),
        ]);
    }
}

/// Appends `v` tenths with one decimal place.
pub fn push_tenths(out: &mut String, v: u64)
    ensures
        final(out)@ == old(out)@ + tenths_text(v as nat),
{
    push_decimal(out, v / 10);
    out.append(".");
    push_decimal(out, v % 10);
    assert(out@ =~= old(out)@ + tenths_text(v as nat));
}

/// Appends `v` hundredths with two decimal places.
pub fn push_hundredths(out: &mut String, v: u64)
    ensures
        final(out)@ == old(out)@ + hundredths_text(v as nat),
{
    push_decimal(out, v / 100);
    out.append(".");
    if v % 100 < 10 {
        out.append("0");
    }
    push_decimal(out, v % 100);
    assert(out@ =~= old(out)@ + hundredths_text(v as nat));
}

/// Appends the names joined by `sep`, each in double quotes when `quote` holds.
pub fn push_joined(out: &mut String, items: &Vec<String>, sep: &str, quote: bool)
    ensures
        final(out)@ == old(out)@ + join(
            if quote {
                quoted(items@.map_values(|s: String| s@))
            } else {
                items@.map_values(|s: String| s@)
            },
            sep@,
        ),
{
    let ghost names = items@.map_values(|s: String| s@);
    let ghost shown = if quote {
        quoted(names)
    } else {
        names
    };
    let mut i: usize = 0;
    while i < items.len()
        invariant
            i <= items.len(),
            names == items@.map_values(|s: String| s@),
            shown == (if quote {
                quoted(names)
            } else {
                names
            }),
            shown.len() == items.len(),
            out@ == old(out)@ + join(shown.subrange(0, i as int), sep@),
        decreases items.len() - i,
    {
        let ghost before = out@;
        if i > 0 {
            out.append(sep);
        }
        let ghost mid = out@;
        let name = items[i].as_str();
        assert(name@ == names[i as int]);
        if quote {
            out.append("\"");
            out.append(name);
            out.append("\"");
            assert(out@ =~= mid + ("\""@ + names[i as int] + "\""@));
        } else {
            out.append(name);
        }
        proof {
            let pre = shown.subrange(0, i as int);
            let post = shown.subrange(0, i + 1);
            assert(post.drop_last() =~= pre);
            assert(shown[i as int] == (if quote {
                "\""@ + items@[i as int]@ + "\""@
            } else {
                items@[i as int]@
            }));
            assert(post.last() == shown[i as int]);
            assert(out@ =~= mid + shown[i as int]);
            assert(mid == if i > 0 {
                before + sep@
            } else {
                before
            });
            if i == 0 {
                assert(join(post, sep@) == post[0]);
                assert(out@ =~= old(out)@ + join(post, sep@));
            } else {
                assert(join(post, sep@) == join(pre, sep@) + sep@ + post.last());
                assert(out@ =~= old(out)@ + join(post, sep@));
            }
        }
        i = i + 1;
    }
    assert(shown.subrange(0, items.len() as int) =~= shown);
}

} // verus!
