use vstd::prelude::*;
use vstd::string::*;

verus! {

/// Terminal colours, as ANSI escape sequences.
#[derive(Debug)]
pub struct Color;

pub const RESET: &'static str = "\x1b[0m";
pub const BOLD: &'static str = "\x1b[1m";
pub const RED: &'static str = "\x1b[31m";
pub const GREEN: &'static str = "\x1b[32m";
pub const YELLOW: &'static str = "\x1b[33m";
pub const BLUE: &'static str = "\x1b[34m";
pub const MAGENTA: &'static str = "\x1b[35m";
pub const CYAN: &'static str = "\x1b[36m";
pub const WHITE: &'static str = "\x1b[37m";

/// The decimal digit for `d < 10`.
pub open spec fn digit(d: nat) -> char {
    if d == 0 { '0' } else if d == 1 { '1' } else if d == 2 { '2' } else if d == 3 { '3' }
    else if d == 4 { '4' } else if d == 5 { '5' } else if d == 6 { '6' } else if d == 7 { '7' }
    else if d == 8 { '8' } else { '9' }
}

/// The decimal rendering of `n`, without leading zeros.
pub open spec fn decimal(n: nat) -> Seq<char>
    decreases n,
{
    if n < 10 {
        seq![digit(n)]
    } else {
        decimal(n / 10).push(digit(n % 10))
    }
}

/// The escape sequence that `Color::rgb` produces.
pub open spec fn rgb_seq(r: nat, g: nat, b: nat) -> Seq<char> {
    "\x1b[38;5;"@ + decimal(r) + ";"@ + decimal(g) + ";"@ + decimal(b) + "m"@
}

fn digit_str(d: u8) -> (r: &'static str)
    requires
        d < 10,
    ensures
        r@ == seq![digit(d as nat)],
{
    let ds: &str = "0123456789";
    proof {
        reveal_strlit("0123456789");
    }
    let r = ds.substring_char(d as usize, d as usize + 1);
    assert(r@ =~= seq![digit(d as nat)]);
    r
}

fn decimal_u8(n: u8) -> (r: String)
    ensures
        r@ == decimal(n as nat),
{
    let d0 = n % 10;
    if n < 10 {
        String::from_str(digit_str(n))
    } else if n < 100 {
        assert(decimal((n / 10) as nat) == seq![digit((n / 10) as nat)]);
        assert(decimal(n as nat) == decimal((n / 10) as nat).push(digit(d0 as nat)));
        assert(decimal(n as nat) =~= seq![digit((n / 10) as nat), digit(d0 as nat)]);
        String::from_str(digit_str(n / 10)).concat(digit_str(d0))
    } else {
        let d1 = (n / 10) % 10;
        let d2 = n / 100;
        assert((n / 10) / 10 == n / 100);
        assert(decimal(d2 as nat) == seq![digit(d2 as nat)]);
        assert(decimal((n / 10) as nat) == decimal(d2 as nat).push(digit(d1 as nat)));
        assert(decimal(n as nat) == decimal((n / 10) as nat).push(digit(d0 as nat)));
        assert(decimal(n as nat) =~= seq![digit(d2 as nat), digit(d1 as nat), digit(d0 as nat)]);
        String::from_str(digit_str(d2)).concat(digit_str(d1)).concat(digit_str(d0))
    }
}

impl Color {
    /// `text` framed by `color` and the reset sequence.
    pub fn wrap(text: &str, color: &str) -> (r: String)
        ensures
            r@ == color@ + text@ + RESET@,
    {
        String::from_str(color).concat(text).concat(RESET)
    }

    /// The 256-colour escape sequence carrying `r`, `g` and `b` in decimal.
    pub fn rgb(r: u8, g: u8, b: u8) -> (s: String)
        ensures
            s@ == rgb_seq(r as nat, g as nat, b as nat),
    {
        let mut s = String::from_str("\x1b[38;5;");
        let dr = decimal_u8(r);
        s.append(dr.as_str());
        s.append(";");
        let dg = decimal_u8(g);
        s.append(dg.as_str());
        s.append(";");
        let db = decimal_u8(b);
        s.append(db.as_str());
        s.append("m");
        s
    }
}

} // verus!
