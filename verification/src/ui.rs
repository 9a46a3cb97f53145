use vstd::prelude::*;
use crate::resources::Score;

verus! {

/// The decimal digit character for `d`.
pub open spec fn digit_char(d: int) -> char {
    ((48 + d) as u8) as char
}

/// The decimal digits of `n`, most significant first, with no leading
/// zero except for `n == 0` itself.
pub open spec fn spec_digits(n: nat) -> Seq<char>
    decreases n,
{
    if n < 10 {
        seq![digit_char(n as int)]
    } else {
        spec_digits(n / 10).push(digit_char((n % 10) as int))
    }
}

/// The score line the UI shows.
pub open spec fn spec_score_text(n: nat) -> Seq<char> {
    "Score: "@ + spec_digits(n)
}

/// Relies on `String::push`: it appends exactly the given character.
#[verifier::external_body]
fn push_char(s: &mut String, c: char)
    ensures
        final(s)@ == old(s)@.push(c),
{
    s.push(c);
}

/// Appends the decimal digits of `n`, most significant first.
fn push_digits(n: u32, s: &mut String)
    ensures
        final(s)@ == old(s)@ + spec_digits(n as nat),
    decreases n,
{
    if n >= 10 {
        push_digits(n / 10, s);
    }
    let d: u8 = 48 + (n % 10) as u8;
    push_char(s, d as char);
    proof {
        if n < 10 {
            assert(old(s)@ + spec_digits(n as nat) =~= old(s)@.push(digit_char(n as int)));
            assert(d as char == digit_char(n as int));
        } else {
            assert(old(s)@ + spec_digits(n as nat) =~= (old(s)@ + spec_digits((n / 10) as nat)).push(
                digit_char((n % 10) as int),
            ));
        }
    }
}

/// Renders the one line of UI text: the word `Score`, a colon, a
/// space, and the score's decimal digits.
pub fn update_score_text(score: &Score) -> (text: String)
    ensures
        text@ == spec_score_text(score.value as nat),
{
    let mut text = String::from_str("Score: ");
    push_digits(score.value, &mut text);
    text
}

} // verus!
