//! Where the packet is sent: a host or broadcast address and a UDP port.

use vstd::prelude::*;
use vstd::string::StringExecFns;

verus! {

/// The limited broadcast address, to which a packet goes when no other
/// address is given.
pub const DEFAULT_ADDRESS: &'static str = "255.255.255.255";

/// The discard port, by convention the port of Wake-on-LAN.
pub const DEFAULT_PORT: u16 = 9;

/// The character of a single decimal digit.
pub open spec fn decimal_digit(digit: nat) -> char
    recommends
        digit < 10,
{
    (digit + '0' as nat) as char
}

/// A number written in decimal, without sign or leading zeros.
pub open spec fn decimal(number: nat) -> Seq<char>
    decreases number,
{
    if number < 10 {
        seq![decimal_digit(number)]
    } else {
        decimal(number / 10).push(decimal_digit(number % 10))
    }
}

fn digit_text(digit: u16) -> (text: &'static str)
    requires
        digit < 10,
    ensures
        text@ == seq![decimal_digit(digit as nat)],
{
    proof {
        reveal_strlit("0");
        reveal_strlit("1");
        reveal_strlit("2");
        reveal_strlit("3");
        reveal_strlit("4");
        reveal_strlit("5");
        reveal_strlit("6");
        reveal_strlit("7");
        reveal_strlit("8");
        reveal_strlit("9");
    }
    let text = match digit {
        0 => "0",
        1 => "1",
        2 => "2",
        3 => "3",
        4 => "4",
        5 => "5",
        6 => "6",
        7 => "7",
        8 => "8",
        _ => "9",
    };
    assert(text@ =~= seq![decimal_digit(digit as nat)]);
    text
}

/// Appends `number`, written in decimal, to `out`.
pub fn push_decimal(out: &mut String, number: u16)
    ensures
        final(out)@ == old(out)@ + decimal(number as nat),
    decreases number,
{
    if number >= 10 {
        push_decimal(out, number / 10);
    }
    out.append(digit_text(number % 10));
    assert(final(out)@ =~= old(out)@ + decimal(number as nat));
}

/// The target of the datagram.
#[derive(Debug)]
pub struct Destination {
    /// Host name or address, as text.
    pub address: String,
    /// UDP port.
    pub port: u16,
}

impl Destination {
    /// The destination written as `address:port`.
    pub open spec fn text(&self) -> Seq<char> {
        self.address@ + seq![':'] + decimal(self.port as nat)
    }

    /// The destination with the given address and port.
    pub fn new(address: String, port: u16) -> (destination: Destination)
        ensures
            destination.address == address,
            destination.port == port,
    {
        Destination { address, port }
    }

    /// The destination used when none is given: port 9 of the limited
    /// broadcast address.
    pub fn broadcast() -> (destination: Destination)
        ensures
            destination.address@ == DEFAULT_ADDRESS@,
            destination.port == DEFAULT_PORT,
    {
        Destination { address: String::from_str(DEFAULT_ADDRESS), port: DEFAULT_PORT }
    }

    /// Writes the destination as `address:port`, the port in decimal.
    pub fn to_text(&self) -> (text: String)
        ensures
            text@ == self.text(),
    {
        let mut text = self.address.clone();
        text.append(":");
        proof {
            reveal_strlit(":");
            assert(text@ =~= self.address@ + seq![':']);
        }
        push_decimal(&mut text, self.port);
        text
    }
}

} // verus!
