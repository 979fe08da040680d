//! The log entries as lines of text.

use crate::session::Message;
use vstd::prelude::*;
use vstd::string::StringExecFns;

verus! {

/// The character of the decimal digit `d`.
pub open spec fn digit(d: int) -> char {
    if d == 0 {
        '0'
    } else if d == 1 {
        '1'
    } else if d == 2 {
        '2'
    } else if d == 3 {
        '3'
    } else if d == 4 {
        '4'
    } else if d == 5 {
        '5'
    } else if d == 6 {
        '6'
    } else if d == 7 {
        '7'
    } else if d == 8 {
        '8'
    } else {
        '9'
    }
}

/// `n` written in decimal, without leading zeros.
pub open spec fn decimal(n: nat) -> Seq<char>
    decreases n,
{
    if n < 10 {
        seq![digit(n as int)]
    } else {
        decimal(n / 10) + seq![digit((n % 10) as int)]
    }
}

impl Message {
    /// The line of text that the entry stands for. Columns are counted from 1.
    pub open spec fn text(self) -> Seq<char> {
        match self {
            Message::HowToPlay =>
                "Use the arrow keys to choose where to play. Then press enter or spacebar."@,
            Message::HowToQuit => "Press Escape key at any time to exit."@,
            Message::HumanPlayed { col } => "Playing to column "@ + decimal((col + 1) as nat),
            Message::AiPlayed { col, iterations } => "AI plays to column "@ + decimal(
                (col + 1) as nat,
            ) + " after thinking for "@ + decimal(iterations as nat) + " moves."@,
            Message::HumanWins => "You win!"@,
            Message::AiWins => "AI Wins!"@,
            Message::Tie => "Tie"@,
        }
    }

    /// The entry as a line of text.
    pub fn to_text(&self) -> (line: String)
        ensures
            line@ == self.text(),
    {
        match *self {
            Message::HowToPlay => String::from_str(
                "Use the arrow keys to choose where to play. Then press enter or spacebar.",
            ),
            Message::HowToQuit => String::from_str("Press Escape key at any time to exit."),
            Message::HumanPlayed { col } => {
                let number = decimal_string(col as u128 + 1);
                String::from_str("Playing to column ").concat(number.as_str())
            },
            Message::AiPlayed { col, iterations } => {
                let number = decimal_string(col as u128 + 1);
                let rounds = decimal_string(iterations as u128);
                String::from_str("AI plays to column ").concat(number.as_str()).concat(
                    " after thinking for ",
                ).concat(rounds.as_str()).concat(" moves.")
            },
            Message::HumanWins => String::from_str("You win!"),
            Message::AiWins => String::from_str("AI Wins!"),
            Message::Tie => String::from_str("Tie"),
        }
    }
}

/// The decimal digit `d` as a string of one character.
fn digit_str(d: u128) -> (s: &'static str)
    requires
        d < 10,
    ensures
        s@ == seq![digit(d as int)],
{
    proof {
        reveal_strlit("0");
        reveal_strlit("1");
        reveal_strlit("2");
        reveal_strlit("3");
        reveal_strlit("4");
        reveal_strlit("5");
        reveal_strlit("6");
        reveal_strlit("7");
        reveal_strlit("8");
        reveal_strlit("9");
    }
    let s = if d == 0 {
        "0"
    } else if d == 1 {
        "1"
    } else if d == 2 {
        "2"
    } else if d == 3 {
        "3"
    } else if d == 4 {
        "4"
    } else if d == 5 {
        "5"
    } else if d == 6 {
        "6"
    } else if d == 7 {
        "7"
    } else if d == 8 {
        "8"
    } else {
        "9"
    };
    assert(s@ =~= seq![digit(d as int)]);
    s
}

/// `n` written in decimal, without leading zeros.
pub fn decimal_string(n: u128) -> (s: String)
    ensures
        s@ == decimal(n as nat),
    decreases n,
{
    if n < 10 {
        String::from_str(digit_str(n))
    } else {
        decimal_string(n / 10).concat(digit_str(n % 10))
    }
}

} // verus!
