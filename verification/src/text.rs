use vstd::prelude::*;
use vstd::string::StringExecFns;
use vstd::std_specs::iter::IteratorSpec;

verus! {

/// Whether two string slices hold the same characters.
pub fn str_eq(a: &str, b: &str) -> (r: bool)
    ensures
        r == (a@ == b@),
{
    let left = a.to_owned();
    let right = b.to_owned();
    left == right
}

/// The characters of a string slice.
pub fn chars_of(s: &str) -> (chars: Vec<char>)
    ensures
        chars@ == s@,
{
    broadcast use vstd::string::group_string_axioms;

    let mut chars: Vec<char> = Vec::new();
    let ghost all = s@;
    for c in it: s.chars()
        invariant
            it.seq() == all,
            chars@ == all.take(it.index()),
    {
        chars.push(c);
        assert(all.take(it.index() + 1) == all.take(it.index()).push(all[it.index()]));
    }
    assert(all.take(all.len() as int) == all);
    chars
}

/// The character of decimal digit `d`.
pub open spec fn digit_char(d: int) -> char {
    ('0' as int + d) as char
}

/// The shortest decimal text of `v`.
pub open spec fn decimal_text(v: nat) -> Seq<char>
    decreases v,
{
    if v < 10 {
        seq![digit_char(v as int)]
    } else {
        decimal_text(v / 10).push(digit_char((v % 10) as int))
    }
}

fn digit_str(d: u64) -> (s: &'static str)
    requires
        d < 10,
    ensures
        s@ == seq![digit_char(d as int)],
{
    match d {
        0 => {
            proof {
                reveal_strlit("0");
            }
            "0"
        },
        1 => {
            proof {
                reveal_strlit("1");
            }
            "1"
        },
        2 => {
            proof {
                reveal_strlit("2");
            }
            "2"
        },
        3 => {
            proof {
                reveal_strlit("3");
            }
            "3"
        },
        4 => {
            proof {
                reveal_strlit("4");
            }
            "4"
        },
        5 => {
            proof {
                reveal_strlit("5");
            }
            "5"
        },
        6 => {
            proof {
                reveal_strlit("6");
            }
            "6"
        },
        7 => {
            proof {
                reveal_strlit("7");
            }
            "7"
        },
        8 => {
            proof {
                reveal_strlit("8");
            }
            "8"
        },
        _ => {
            proof {
                reveal_strlit("9");
            }
            "9"
        },
    }
}

/// Appends the decimal text of `v` to `text`.
pub fn push_decimal(text: &mut String, v: u64)
    ensures
        final(text)@ == old(text)@ + decimal_text(v as nat),
    decreases v,
{
    if v >= 10 {
        push_decimal(text, v / 10);
    }
    let ghost mid = text@;
    text.append(digit_str(v % 10));
    proof {
        if v >= 10 {
            assert(text@ =~= old(text)@ + decimal_text(v as nat));
        } else {
            assert(text@ =~= old(text)@ + decimal_text(v as nat));
        }
    }
}

/// Whether `c` is one of the ASCII digits `0` to `9`.
pub open spec fn is_decimal_digit(c: char) -> bool {
    '0' <= c <= '9'
}

/// The value of a run of decimal digits, most significant first.
pub open spec fn digits_value(s: Seq<char>) -> int
    decreases s.len(),
{
    if s.len() == 0 {
        0
    } else {
        digits_value(s.drop_last()) * 10 + (s.last() as int - '0' as int)
    }
}

/// The digits of an unsigned integer's text: everything after an optional
/// leading `+`.
pub open spec fn unsigned_digits(s: Seq<char>) -> Seq<char> {
    if s.len() > 0 && s[0] == '+' {
        s.skip(1)
    } else {
        s
    }
}

/// Whether `s` is the text of a `u64`: an optional `+`, then one or more
/// decimal digits whose value fits in 64 bits.
pub open spec fn is_u64_text(s: Seq<char>) -> bool {
    let d = unsigned_digits(s);
    &&& d.len() > 0
    &&& forall|i: int| 0 <= i < d.len() ==> is_decimal_digit(#[trigger] d[i])
    &&& digits_value(d) <= u64::MAX
}

/// The decimal text of a number is a nonempty run of digits that reads back
/// as that number.
pub proof fn lemma_decimal_text_reads_back(v: nat)
    ensures
        decimal_text(v).len() > 0,
        forall|i: int|
            0 <= i < decimal_text(v).len() ==> is_decimal_digit(#[trigger] decimal_text(v)[i]),
        digits_value(decimal_text(v)) == v,
    decreases v,
{
    if v >= 10 {
        lemma_decimal_text_reads_back(v / 10);
        let prev = decimal_text(v / 10);
        let d = (v % 10) as int;
        assert(decimal_text(v).drop_last() == prev);
        assert(decimal_text(v).last() == digit_char(d));
        assert(digit_char(d) as int == '0' as int + d);
        assert((v / 10) * 10 + v % 10 == v) by (nonlinear_arith);
        assert(digits_value(decimal_text(v)) == digits_value(prev) * 10 + d);
        assert forall|i: int| 0 <= i < decimal_text(v).len() implies is_decimal_digit(
            #[trigger] decimal_text(v)[i],
        ) by {
            if i < prev.len() {
                assert(decimal_text(v)[i] == prev[i]);
            }
        }
    } else {
        let d = v as int;
        assert(digit_char(d) as int == '0' as int + d);
        assert(decimal_text(v).drop_last() =~= Seq::<char>::empty());
        assert(decimal_text(v).last() == digit_char(d));
        assert(digits_value(decimal_text(v)) == digits_value(Seq::<char>::empty()) * 10 + d);
    }
}

/// The decimal text of every `u64` is the text of that `u64`.
pub proof fn lemma_decimal_text_is_u64_text(v: u64)
    ensures
        is_u64_text(decimal_text(v as nat)),
        digits_value(unsigned_digits(decimal_text(v as nat))) == v,
{
    lemma_decimal_text_reads_back(v as nat);
    assert(is_decimal_digit(decimal_text(v as nat)[0]));
}

} // verus!
