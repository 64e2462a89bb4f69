use vstd::prelude::*;

verus! {

/// Decimal digits of a natural number, most significant first.
pub open spec fn decimal(n: nat) -> Seq<char>
    decreases n,
{
    if n < 10 {
        seq![digit_char(n)]
    } else {
        decimal(n / 10) + seq![digit_char(n % 10)]
    }
}

pub open spec fn digit_char(d: nat) -> char {
    ((d + 48) as u8) as char
}

/// The text `host:port` that the listener binds.
pub open spec fn address_of(ip: Seq<char>, port: u16) -> Seq<char> {
    ip + seq![':'] + decimal(port as nat)
}

/// The one-character text of a decimal digit.
fn digit_text(d: u16) -> (r: &'static str)
    requires
        d < 10,
    ensures
        r@ == seq![digit_char(d as nat)],
{
    proof {
        reveal_strlit("0");
        reveal_strlit("1");
        reveal_strlit("2");
        reveal_strlit("3");
        reveal_strlit("4");
        reveal_strlit("5");
        reveal_strlit("6");
        reveal_strlit("7");
        reveal_strlit("8");
        reveal_strlit("9");
    }
    let r = match d {
        0 => "0",
        1 => "1",
        2 => "2",
        3 => "3",
        4 => "4",
        5 => "5",
        6 => "6",
        7 => "7",
        8 => "8",
        _ => "9",
    };
    proof {
        assert(r@ =~= seq![digit_char(d as nat)]);
    }
    r
}

/// Appends the decimal digits of `n`.
fn push_decimal(s: &mut String, n: u16)
    ensures
        final(s)@ == old(s)@ + decimal(n as nat),
    decreases n,
{
    if n >= 10 {
        push_decimal(s, n / 10);
    }
    s.append(digit_text(n % 10));
    assert(s@ =~= old(s)@ + decimal(n as nat));
}

/// Listening configuration: host and TCP port.
pub struct Args {
    pub ip: String,
    pub port: u16,
}

pub const DEFAULT_PORT: u16 = 8080;

impl Args {
    pub open spec fn is_default(&self) -> bool {
        &&& self.ip@ == seq!['1', '2', '7', '.', '0', '.', '0', '.', '1']
        &&& self.port == DEFAULT_PORT
    }

    /// Loopback host on the default port.
    pub fn new_default() -> (r: Args)
        ensures
            r.is_default(),
    {
        proof {
            reveal_strlit("127.0.0.1");
        }
        let ip = String::from_str("127.0.0.1");
        assert(ip@ =~= seq!['1', '2', '7', '.', '0', '.', '0', '.', '1']);
        Args { ip, port: DEFAULT_PORT }
    }

    /// The address text handed to the listener.
    pub fn address(&self) -> (r: String)
        ensures
            r@ == address_of(self.ip@, self.port),
    {
        let mut r = self.ip.clone();
        r.append(":");
        push_decimal(&mut r, self.port);
        proof {
            reveal_strlit(":");
        }
        r
    }
}

/// Readiness notification sent to an observer once the listener is bound.
#[derive(Debug, Clone, Copy, PartialEq, Eq, Structural)]
pub enum Event {
    Connected,
}

} // verus!
