//! The errors of this library and their wording.

use vstd::prelude::*;
use vstd::string::StringExecFns;

verus! {

/// What can go wrong when a train is put together or chosen.
#[derive(Debug, Clone, Copy, PartialEq, Eq)]
pub enum Error {
    /// An animation was asked to run at this speed, which is not positive.
    InvalidAnimationSpeed(usize),
    /// An animation was left without a single frame.
    EmptyAnimation,
    /// The text of a frame had no contents at all.
    EmptyFrame,
    /// No built-in train has this index.
    InvalidTrainIndex(usize),
}

/// The character that stands for a single decimal digit.
pub open spec fn digit(d: nat) -> char
    recommends
        d < 10,
{
    if d == 0 {
        '0'
    } else if d == 1 {
        '1'
    } else if d == 2 {
        '2'
    } else if d == 3 {
        '3'
    } else if d == 4 {
        '4'
    } else if d == 5 {
        '5'
    } else if d == 6 {
        '6'
    } else if d == 7 {
        '7'
    } else if d == 8 {
        '8'
    } else {
        '9'
    }
}

/// The decimal numeral of `n`, without leading zeros.
pub open spec fn decimal(n: nat) -> Seq<char>
    decreases n,
{
    if n < 10 {
        seq![digit(n)]
    } else {
        decimal(n / 10).push(digit(n % 10))
    }
}

/// What `Error::message` says of each error.
pub open spec fn message_of(error: Error) -> Seq<char> {
    match error {
        Error::InvalidAnimationSpeed(speed) => "Invalid animation speed '"@ + decimal(speed as nat)
            + "'"@,
        Error::EmptyAnimation => "Animations must have frames, none found"@,
        Error::EmptyFrame => "Attempt to load animation frame with no contents"@,
        Error::InvalidTrainIndex(index) => "Invalid train index '"@ + decimal(index as nat) + "'"@,
    }
}

/// The one-character text of a decimal digit.
fn digit_text(d: usize) -> (text: &'static str)
    requires
        d < 10,
    ensures
        text@ == seq![digit(d as nat)],
{
    proof {
        reveal_strlit("0");
        reveal_strlit("1");
        reveal_strlit("2");
        reveal_strlit("3");
        reveal_strlit("4");
        reveal_strlit("5");
        reveal_strlit("6");
        reveal_strlit("7");
        reveal_strlit("8");
        reveal_strlit("9");
    }
    let text = if d == 0 {
        "0"
    } else if d == 1 {
        "1"
    } else if d == 2 {
        "2"
    } else if d == 3 {
        "3"
    } else if d == 4 {
        "4"
    } else if d == 5 {
        "5"
    } else if d == 6 {
        "6"
    } else if d == 7 {
        "7"
    } else if d == 8 {
        "8"
    } else {
        "9"
    };
    text
}

/// Writes `n` as a decimal numeral.
pub fn decimal_text(n: usize) -> (text: String)
    ensures
        text@ == decimal(n as nat),
    decreases n,
{
    if n < 10 {
        String::from_str(digit_text(n))
    } else {
        let mut text = decimal_text(n / 10);
        text.append(digit_text(n % 10));
        text
    }
}

impl Error {
    /// A sentence for the user that names the error.
    pub fn message(&self) -> (text: String)
        ensures
            text@ == message_of(*self),
    {
        match self {
            Error::InvalidAnimationSpeed(speed) => {
                let mut text = String::from_str("Invalid animation speed '");
                text.append(decimal_text(*speed).as_str());
                text.append("'");
                text
            },
            Error::EmptyAnimation => String::from_str("Animations must have frames, none found"),
            Error::EmptyFrame => String::from_str(
                "Attempt to load animation frame with no contents",
            ),
            Error::InvalidTrainIndex(index) => {
                let mut text = String::from_str("Invalid train index '");
                text.append(decimal_text(*index).as_str());
                text.append("'");
                text
            },
        }
    }
}

} // verus!
