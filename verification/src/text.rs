//! Text as the listing measures and writes it: display widths in grapheme
//! clusters, and numbers in decimal.

use vstd::prelude::*;
use vstd::string::*;
use vstd::utf8::{encode_utf8, encode_utf8_decode_utf8};

verus! {

/// The number of extended grapheme clusters that `text` is made of.
pub uninterp spec fn grapheme_count(text: Seq<char>) -> nat;

/// The character of a decimal digit.
pub open spec fn digit_char(digit: nat) -> char
    recommends
        digit < 10,
{
    if digit == 0 {
        '0'
    } else if digit == 1 {
        '1'
    } else if digit == 2 {
        '2'
    } else if digit == 3 {
        '3'
    } else if digit == 4 {
        '4'
    } else if digit == 5 {
        '5'
    } else if digit == 6 {
        '6'
    } else if digit == 7 {
        '7'
    } else if digit == 8 {
        '8'
    } else {
        '9'
    }
}

/// `value` in decimal, without leading zeros.
pub open spec fn decimal(value: nat) -> Seq<char>
    decreases value,
{
    if value < 10 {
        seq![digit_char(value)]
    } else {
        decimal(value / 10).push(digit_char(value % 10))
    }
}

/// The text of `text` where there is one, else nothing.
pub open spec fn text_or_empty(text: Option<Seq<char>>) -> Seq<char> {
    match text {
        Some(chars) => chars,
        None => Seq::empty(),
    }
}

fn digit_text(digit: usize) -> (text: &'static str)
    requires
        digit < 10,
    ensures
        text@ == seq![digit_char(digit as nat)],
{
    proof {
        reveal_strlit("0");
        reveal_strlit("1");
        reveal_strlit("2");
        reveal_strlit("3");
        reveal_strlit("4");
        reveal_strlit("5");
        reveal_strlit("6");
        reveal_strlit("7");
        reveal_strlit("8");
        reveal_strlit("9");
    }
    let text = if digit == 0 {
        "0"
    } else if digit == 1 {
        "1"
    } else if digit == 2 {
        "2"
    } else if digit == 3 {
        "3"
    } else if digit == 4 {
        "4"
    } else if digit == 5 {
        "5"
    } else if digit == 6 {
        "6"
    } else if digit == 7 {
        "7"
    } else if digit == 8 {
        "8"
    } else {
        "9"
    };
    assert(text@ =~= seq![digit_char(digit as nat)]);
    text
}

/// Appends `value` in decimal to `out`.
pub fn push_decimal(out: &mut String, value: usize)
    ensures
        final(out)@ == old(out)@ + decimal(value as nat),
    decreases value,
{
    if value >= 10 {
        push_decimal(out, value / 10);
    }
    let digit = digit_text(value % 10);
    out.append(digit);
    proof {
        if value >= 10 {
            assert(final(out)@ =~= old(out)@ + decimal((value / 10) as nat).push(
                digit_char((value % 10) as nat),
            ));
        } else {
            assert(final(out)@ =~= old(out)@ + seq![digit_char(value as nat)]);
        }
    }
}

/// Appends `text` to `out` where there is one.
pub fn push_optional(out: &mut String, text: &Option<String>)
    ensures
        final(out)@ == old(out)@ + text_or_empty(optional_view(*text)),
{
    match text {
        Some(chars) => {
            out.append(chars.as_str());
        },
        None => {
            assert(out@ + Seq::<char>::empty() =~= out@);
        },
    }
}

/// The characters of an optional string.
pub open spec fn optional_view(text: Option<String>) -> Option<Seq<char>> {
    match text {
        Some(chars) => Some(chars@),
        None => None,
    }
}

/// `text` with every letter turned into its lower case.
pub uninterp spec fn lowercased(text: Seq<char>) -> Seq<char>;

/// Turns `text` into lower case with `str::to_lowercase`.
///
/// Trusted: the result is the lower case of `text`, which depends on nothing
/// but `text`.
#[verifier::external_body]
pub(crate) fn to_lowercase(text: &str) -> (lower: String)
    ensures
        lower@ == lowercased(text@),
{
    text.to_lowercase()
}

/// Whether two texts are made of the same characters.
pub fn same_text(left: &str, right: &str) -> (same: bool)
    ensures
        same == (left@ == right@),
{
    let a = left.as_bytes();
    let b = right.as_bytes();
    proof {
        encode_utf8_decode_utf8(left@);
        encode_utf8_decode_utf8(right@);
    }
    if a.len() != b.len() {
        return false;
    }
    let mut at: usize = 0;
    while at < a.len()
        invariant
            at <= a.len(),
            a@.len() == b@.len(),
            a@ == encode_utf8(left@),
            b@ == encode_utf8(right@),
            left@ == right@ ==> a@ == b@,
            forall|i: int| 0 <= i < at ==> a@[i] == b@[i],
        decreases a.len() - at,
    {
        if a[at] != b[at] {
            return false;
        }
        at = at + 1;
    }
    assert(a@ =~= b@);
    true
}

/// `text` written `times` times over.
pub open spec fn repeated(text: Seq<char>, times: int) -> Seq<char>
    decreases times,
{
    if times <= 0 {
        Seq::empty()
    } else {
        repeated(text, times - 1) + text
    }
}

/// Appends `text` to `out` `times` times over.
pub fn push_repeated(out: &mut String, text: &str, times: usize)
    ensures
        final(out)@ == old(out)@ + repeated(text@, times as int),
{
    let mut done: usize = 0;
    assert(out@ + repeated(text@, 0) =~= out@);
    while done < times
        invariant
            done <= times,
            out@ == old(out)@ + repeated(text@, done as int),
        decreases times - done,
    {
        out.append(text);
        done = done + 1;
        assert(out@ =~= old(out)@ + repeated(text@, done as int));
    }
}

} // verus!
