//! What a filter request from the command line means: which filter was
//! chosen, how strong a blur is, which files count as input and what the
//! output file is called.

use crate::kernel::{force_odd, odd_size};
use vstd::prelude::*;
use vstd::string::*;

verus! {

/// The two filters on offer.
#[derive(Clone, Copy, Debug, PartialEq, Eq, Structural)]
pub enum Filter {
    Blur,
    Sharpen,
}

/// The blur strength used when none readable was entered.
pub const DEFAULT_BLUR_STRENGTH: usize = 5;

/// The filter that an answer, already trimmed, selects: `1` is the blur, `2`
/// the sharpen filter, anything else selects none.
pub open spec fn chosen_filter(answer: Seq<char>) -> Option<Filter> {
    if answer == "1"@ {
        Some(Filter::Blur)
    } else if answer == "2"@ {
        Some(Filter::Sharpen)
    } else {
        None
    }
}

/// Whether a file extension, without its dot, is one of `jpg` and `jpeg`.
pub open spec fn is_jpeg(extension: Seq<char>) -> bool {
    extension == "jpg"@ || extension == "jpeg"@
}

/// The character for a decimal digit.
pub open spec fn digit_char(digit: nat) -> char
    recommends
        digit < 10,
{
    if digit == 0 {
        '0'
    } else if digit == 1 {
        '1'
    } else if digit == 2 {
        '2'
    } else if digit == 3 {
        '3'
    } else if digit == 4 {
        '4'
    } else if digit == 5 {
        '5'
    } else if digit == 6 {
        '6'
    } else if digit == 7 {
        '7'
    } else if digit == 8 {
        '8'
    } else {
        '9'
    }
}

/// A number written in decimal, without leading zeros.
pub open spec fn decimal(number: nat) -> Seq<char>
    decreases number,
{
    if number < 10 {
        seq![digit_char(number)]
    } else {
        decimal(number / 10).push(digit_char(number % 10))
    }
}

/// The output path for an image blurred with the given strength.
pub open spec fn blurred_path(stem: Seq<char>, strength: nat) -> Seq<char> {
    "images/"@ + stem + "_blurred_"@ + decimal(strength) + ".jpg"@
}

/// The output path for a sharpened image.
pub open spec fn sharpened_path(stem: Seq<char>) -> Seq<char> {
    "images/"@ + stem + "_sharpened.jpg"@
}

/// Reads the answer to the choice of filter. The answer is taken as it is:
/// surrounding blanks are the caller's to remove.
pub fn parse_choice(answer: &str) -> (filter: Option<Filter>)
    ensures
        filter == chosen_filter(answer@),
{
    proof {
        reveal_strlit("1");
        reveal_strlit("2");
    }
    if answer.unicode_len() != 1 {
        return None;
    }
    let first = answer.get_char(0);
    if first == '1' {
        assert(answer@ =~= "1"@);
        Some(Filter::Blur)
    } else if first == '2' {
        assert(answer@ =~= "2"@);
        Some(Filter::Sharpen)
    } else {
        None
    }
}

/// The side of the blur kernel for an entered strength: the strength, or the
/// default where none could be read, made odd.
pub fn blur_strength(entered: Option<usize>) -> (strength: usize)
    ensures
        strength == odd_size(
            match entered {
                Some(value) => value as nat,
                None => DEFAULT_BLUR_STRENGTH as nat,
            },
        ),
        strength % 2 == 1,
{
    match entered {
        Some(value) => force_odd(value),
        None => force_odd(DEFAULT_BLUR_STRENGTH),
    }
}

/// Whether a file with this extension is taken as input.
pub fn is_jpeg_extension(extension: &str) -> (accepted: bool)
    ensures
        accepted == is_jpeg(extension@),
{
    proof {
        reveal_strlit("jpg");
        reveal_strlit("jpeg");
    }
    let len: usize = extension.unicode_len();
    if len == 3 {
        let accepted = extension.get_char(0) == 'j' && extension.get_char(1) == 'p'
            && extension.get_char(2) == 'g';
        if accepted {
            assert(extension@ =~= "jpg"@);
        }
        accepted
    } else if len == 4 {
        let accepted = extension.get_char(0) == 'j' && extension.get_char(1) == 'p'
            && extension.get_char(2) == 'e' && extension.get_char(3) == 'g';
        if accepted {
            assert(extension@ =~= "jpeg"@);
        }
        accepted
    } else {
        false
    }
}

fn digit_text(digit: usize) -> (text: &'static str)
    requires
        digit < 10,
    ensures
        text@ == seq![digit_char(digit as nat)],
{
    proof {
        reveal_strlit("0");
        reveal_strlit("1");
        reveal_strlit("2");
        reveal_strlit("3");
        reveal_strlit("4");
        reveal_strlit("5");
        reveal_strlit("6");
        reveal_strlit("7");
        reveal_strlit("8");
        reveal_strlit("9");
    }
    let text = if digit == 0 {
        "0"
    } else if digit == 1 {
        "1"
    } else if digit == 2 {
        "2"
    } else if digit == 3 {
        "3"
    } else if digit == 4 {
        "4"
    } else if digit == 5 {
        "5"
    } else if digit == 6 {
        "6"
    } else if digit == 7 {
        "7"
    } else if digit == 8 {
        "8"
    } else {
        "9"
    };
    assert(text@ =~= seq![digit_char(digit as nat)]);
    text
}

/// Writes a number in decimal.
pub fn decimal_text(number: usize) -> (text: String)
    ensures
        text@ == decimal(number as nat),
    decreases number,
{
    if number < 10 {
        String::from_str(digit_text(number))
    } else {
        let mut text = decimal_text(number / 10);
        text.append(digit_text(number % 10));
        assert(text@ =~= decimal(number as nat));
        text
    }
}

/// The path the blurred image is written to:
/// `images/<stem>_blurred_<strength>.jpg`.
pub fn blurred_name(stem: &str, strength: usize) -> (path: String)
    ensures
        path@ == blurred_path(stem@, strength as nat),
{
    let mut path = String::from_str("images/");
    path.append(stem);
    path.append("_blurred_");
    let digits = decimal_text(strength);
    path.append(digits.as_str());
    path.append(".jpg");
    path
}

/// The path the sharpened image is written to: `images/<stem>_sharpened.jpg`.
pub fn sharpened_name(stem: &str) -> (path: String)
    ensures
        path@ == sharpened_path(stem@),
{
    let mut path = String::from_str("images/");
    path.append(stem);
    path.append("_sharpened.jpg");
    path
}

} // verus!
