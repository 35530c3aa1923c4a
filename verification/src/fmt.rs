//! Rendering durations as text: each non-zero unit as
//! `<magnitude><suffix> `, largest unit first, zero magnitudes omitted.

use vstd::prelude::*;

use crate::duration::{Days, Duration, Hours, Minutes, Seconds, Weeks};

verus! {

use vstd::arithmetic::div_mod::{lemma_div_decreases, lemma_fundamental_div_mod, lemma_mod_bound};
use vstd::string::StringExecFns;

/// The character for one decimal digit.
pub open spec fn digit_char(d: int) -> char
    recommends
        0 <= d <= 9,
{
    if d == 0 {
        '0'
    } else if d == 1 {
        '1'
    } else if d == 2 {
        '2'
    } else if d == 3 {
        '3'
    } else if d == 4 {
        '4'
    } else if d == 5 {
        '5'
    } else if d == 6 {
        '6'
    } else if d == 7 {
        '7'
    } else if d == 8 {
        '8'
    } else {
        '9'
    }
}

/// The decimal rendering of a non-negative number, most significant digit
/// first, with no leading zeros (zero itself rendering as one digit).
pub open spec fn dec_str(n: int) -> Seq<char>
    recommends
        n >= 0,
    decreases n,
    via dec_str_decreases
{
    if n < 10 {
        seq![digit_char(n)]
    } else {
        dec_str(n / 10).push(digit_char(n % 10))
    }
}

#[via_fn]
proof fn dec_str_decreases(n: int) {
    if n >= 10 {
        lemma_div_decreases(n, 10);
        lemma_div_pos(n);
    }
}

proof fn lemma_div_pos(n: int)
    requires
        n >= 10,
    ensures
        n / 10 >= 0,
{
    vstd::arithmetic::div_mod::lemma_div_pos_is_pos(n, 10);
}

/// The single-character string for one decimal digit.
fn digit_str(d: u64) -> (r: &'static str)
    requires
        d < 10,
    ensures
        r@ == seq![digit_char(d as int)],
{
    if d == 0 {
        proof {
            reveal_strlit("0");
            assert("0"@ =~= seq![digit_char(0)]);
        }
        "0"
    } else if d == 1 {
        proof {
            reveal_strlit("1");
            assert("1"@ =~= seq![digit_char(1)]);
        }
        "1"
    } else if d == 2 {
        proof {
            reveal_strlit("2");
            assert("2"@ =~= seq![digit_char(2)]);
        }
        "2"
    } else if d == 3 {
        proof {
            reveal_strlit("3");
            assert("3"@ =~= seq![digit_char(3)]);
        }
        "3"
    } else if d == 4 {
        proof {
            reveal_strlit("4");
            assert("4"@ =~= seq![digit_char(4)]);
        }
        "4"
    } else if d == 5 {
        proof {
            reveal_strlit("5");
            assert("5"@ =~= seq![digit_char(5)]);
        }
        "5"
    } else if d == 6 {
        proof {
            reveal_strlit("6");
            assert("6"@ =~= seq![digit_char(6)]);
        }
        "6"
    } else if d == 7 {
        proof {
            reveal_strlit("7");
            assert("7"@ =~= seq![digit_char(7)]);
        }
        "7"
    } else if d == 8 {
        proof {
            reveal_strlit("8");
            assert("8"@ =~= seq![digit_char(8)]);
        }
        "8"
    } else {
        proof {
            reveal_strlit("9");
            assert("9"@ =~= seq![digit_char(9)]);
        }
        "9"
    }
}

/// Renders a number in decimal.
pub fn fmt_u64(n: u64) -> (r: String)
    ensures
        r@ == dec_str(n as int),
    decreases n,
{
    if n < 10 {
        let s = digit_str(n);
        s.to_owned()
    } else {
        proof {
            lemma_div_decreases(n as int, 10);
            lemma_div_pos(n as int);
            lemma_fundamental_div_mod(n as int, 10);
            lemma_mod_bound(n as int, 10);
        }
        let head = fmt_u64(n / 10);
        let tail = digit_str(n % 10);
        let r = head.concat(tail);
        proof {
            assert(dec_str(n as int) =~= dec_str(n as int / 10) + seq![
                digit_char(n as int % 10),
            ]);
        }
        r
    }
}

impl Weeks {
    /// Renders the magnitude followed by the unit's suffix.
    pub fn format(&self) -> (r: String)
        ensures
            r@ == dec_str(self.0 as int).push('w'),
    {
        proof {
            reveal_strlit("w");
            assert(dec_str(self.0 as int).push('w') =~= dec_str(self.0 as int) + "w"@);
        }
        fmt_u64(self.0).concat("w")
    }
}

impl Days {
    /// Renders the magnitude followed by the unit's suffix.
    pub fn format(&self) -> (r: String)
        ensures
            r@ == dec_str(self.0 as int).push('d'),
    {
        proof {
            reveal_strlit("d");
            assert(dec_str(self.0 as int).push('d') =~= dec_str(self.0 as int) + "d"@);
        }
        fmt_u64(self.0).concat("d")
    }
}

impl Hours {
    /// Renders the magnitude followed by the unit's suffix.
    pub fn format(&self) -> (r: String)
        ensures
            r@ == dec_str(self.0 as int).push('h'),
    {
        proof {
            reveal_strlit("h");
            assert(dec_str(self.0 as int).push('h') =~= dec_str(self.0 as int) + "h"@);
        }
        fmt_u64(self.0).concat("h")
    }
}

impl Minutes {
    /// Renders the magnitude followed by the unit's suffix.
    pub fn format(&self) -> (r: String)
        ensures
            r@ == dec_str(self.0 as int).push('m'),
    {
        proof {
            reveal_strlit("m");
            assert(dec_str(self.0 as int).push('m') =~= dec_str(self.0 as int) + "m"@);
        }
        fmt_u64(self.0).concat("m")
    }
}

impl Seconds {
    /// Renders the magnitude followed by the unit's suffix.
    pub fn format(&self) -> (r: String)
        ensures
            r@ == dec_str(self.0 as int).push('s'),
    {
        proof {
            reveal_strlit("s");
            assert(dec_str(self.0 as int).push('s') =~= dec_str(self.0 as int) + "s"@);
        }
        fmt_u64(self.0).concat("s")
    }
}

/// One unit's contribution to the rendering: nothing where the magnitude is
/// zero, else the magnitude, the suffix and a trailing space.
pub open spec fn piece(n: int, suffix: char) -> Seq<char> {
    if n == 0 {
        seq![]
    } else {
        dec_str(n).push(suffix).push(' ')
    }
}

/// The full rendering of a duration: the pieces of its five units in
/// descending unit order.
pub open spec fn format_spec(d: Duration) -> Seq<char> {
    piece(d.weeks.0 as int, 'w') + piece(d.days.0 as int, 'd') + piece(d.hours.0 as int, 'h')
        + piece(d.minutes.0 as int, 'm') + piece(d.seconds.0 as int, 's')
}

impl Duration {
    /// Renders the duration: every non-zero unit as `<magnitude><suffix> `,
    /// largest unit first; the zero duration renders as the empty string.
    pub fn format(&self) -> (r: String)
        ensures
            r@ == format_spec(*self),
    {
        proof {
            reveal_strlit(" ");
        }
        let mut out = String::new();
        if self.weeks.0 != 0 {
            let u = self.weeks.format();
            out.append(u.as_str());
            out.append(" ");
        }
        proof {
            assert(out@ =~= piece(self.weeks.0 as int, 'w'));
        }
        if self.days.0 != 0 {
            let u = self.days.format();
            out.append(u.as_str());
            out.append(" ");
        }
        proof {
            assert(out@ =~= piece(self.weeks.0 as int, 'w') + piece(self.days.0 as int, 'd'));
        }
        if self.hours.0 != 0 {
            let u = self.hours.format();
            out.append(u.as_str());
            out.append(" ");
        }
        proof {
            assert(out@ =~= piece(self.weeks.0 as int, 'w') + piece(self.days.0 as int, 'd')
                + piece(self.hours.0 as int, 'h'));
        }
        if self.minutes.0 != 0 {
            let u = self.minutes.format();
            out.append(u.as_str());
            out.append(" ");
        }
        proof {
            assert(out@ =~= piece(self.weeks.0 as int, 'w') + piece(self.days.0 as int, 'd')
                + piece(self.hours.0 as int, 'h') + piece(self.minutes.0 as int, 'm'));
        }
        if self.seconds.0 != 0 {
            let u = self.seconds.format();
            out.append(u.as_str());
            out.append(" ");
        }
        proof {
            assert(out@ =~= format_spec(*self));
        }
        out
    }
}

} // verus!
