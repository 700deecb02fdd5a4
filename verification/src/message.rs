//! The messages that actors receive, and the mailbox that carries them.

use vstd::prelude::*;
use tokio::sync::mpsc::{Receiver, Sender};
use vstd::string::StringExecFns;
use crate::mailbox::bounded_channel;

verus! {

/// A signal routed to an actor: the `Shutdown` control instruction, or an
/// application payload.
#[derive(Debug, PartialEq, Eq, Structural)]
pub enum Message {
    /// Control instruction: stop receiving and terminate.
    Shutdown,
    /// Application payload carrying a number.
    Ping(u32),
    /// Application acknowledgment.
    Pong,
}

/// The character that shows the digit `d`.
pub open spec fn digit_char(d: nat) -> char {
    if d == 0 {
        '0'
    } else if d == 1 {
        '1'
    } else if d == 2 {
        '2'
    } else if d == 3 {
        '3'
    } else if d == 4 {
        '4'
    } else if d == 5 {
        '5'
    } else if d == 6 {
        '6'
    } else if d == 7 {
        '7'
    } else if d == 8 {
        '8'
    } else {
        '9'
    }
}

/// The decimal numeral of `n`, without leading zeros.
pub open spec fn decimal(n: nat) -> Seq<char>
    decreases n,
{
    if n < 10 {
        seq![digit_char(n)]
    } else {
        decimal(n / 10).push(digit_char(n % 10))
    }
}

/// How a message shows in text: its variant's name, and for `Ping` the
/// payload in decimal between round brackets.
pub open spec fn message_text(m: Message) -> Seq<char> {
    match m {
        Message::Shutdown => "Shutdown"@,
        Message::Ping(x) => "Ping("@ + decimal(x as nat) + ")"@,
        Message::Pong => "Pong"@,
    }
}

fn digit_str(d: u32) -> (r: &'static str)
    requires
        d < 10,
    ensures
        r@ == seq![digit_char(d as nat)],
{
    proof {
        reveal_strlit("0");
        reveal_strlit("1");
        reveal_strlit("2");
        reveal_strlit("3");
        reveal_strlit("4");
        reveal_strlit("5");
        reveal_strlit("6");
        reveal_strlit("7");
        reveal_strlit("8");
        reveal_strlit("9");
    }
    let r = match d {
        0 => "0",
        1 => "1",
        2 => "2",
        3 => "3",
        4 => "4",
        5 => "5",
        6 => "6",
        7 => "7",
        8 => "8",
        _ => "9",
    };
    assert(r@ =~= seq![digit_char(d as nat)]);
    r
}

/// Writes `n` in decimal.
pub fn decimal_string(n: u32) -> (r: String)
    ensures
        r@ == decimal(n as nat),
    decreases n,
{
    if n < 10 {
        digit_str(n).to_owned()
    } else {
        let mut s = decimal_string(n / 10);
        s.append(digit_str(n % 10));
        assert(s@ =~= decimal(n as nat));
        s
    }
}

impl Message {
    /// The message in text.
    pub fn to_string(&self) -> (r: String)
        ensures
            r@ == message_text(*self),
    {
        match self {
            Message::Shutdown => "Shutdown".to_owned(),
            Message::Ping(x) => {
                let mut s = "Ping(".to_owned();
                let digits = decimal_string(*x);
                s.append(digits.as_str());
                s.append(")");
                s
            },
            Message::Pong => "Pong".to_owned(),
        }
    }
}

/// The capacity of the mailbox that each actor gets by default.
pub const MAILBOX_CAPACITY: usize = 10;

/// Creates a mailbox of the default capacity.
pub fn message_channel() -> (r: (Sender<Message>, Receiver<Message>))
    ensures
        crate::mailbox::sender_bound(r.0) == MAILBOX_CAPACITY,
        crate::mailbox::receiver_bound(r.1) == MAILBOX_CAPACITY,
        !crate::mailbox::receiver_closed(r.1),
{
    bounded_channel(MAILBOX_CAPACITY)
}

} // verus!
