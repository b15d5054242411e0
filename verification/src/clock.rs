//! Wall-clock time of day: validity, parsing helpers, and the count of
//! seconds since midnight that the normalizer computes with.

use vstd::prelude::*;

verus! {

/// A wall-clock reading on a 24-hour clock: hour, minute, second; no date,
/// no time zone.
#[derive(Clone, Copy, PartialEq, Eq, Structural, Debug)]
pub struct TimeOfDay {
    pub hour: u8,
    pub minute: u8,
    pub second: u8,
}

impl TimeOfDay {
    /// A valid clock reading: hour below 24, minute and second below 60.
    pub open spec fn wf(self) -> bool {
        self.hour < 24 && self.minute < 60 && self.second < 60
    }

    /// The reading as a count of seconds since midnight.
    pub open spec fn spec_seconds(self) -> int {
        self.hour * 3600 + self.minute * 60 + self.second
    }

    /// Seconds since midnight; always below one day for a valid reading.
    pub fn seconds_since_midnight(self) -> (r: u32)
        requires
            self.wf(),
        ensures
            r == self.spec_seconds(),
            r < 86400,
    {
        self.hour as u32 * 3600 + self.minute as u32 * 60 + self.second as u32
    }
}

/// The value of a decimal digit character, and 10 for anything else.
pub open spec fn digit_val(c: char) -> int {
    if c == '0' {
        0
    } else if c == '1' {
        1
    } else if c == '2' {
        2
    } else if c == '3' {
        3
    } else if c == '4' {
        4
    } else if c == '5' {
        5
    } else if c == '6' {
        6
    } else if c == '7' {
        7
    } else if c == '8' {
        8
    } else if c == '9' {
        9
    } else {
        10
    }
}

/// A decimal digit character.
pub open spec fn is_clock_digit(c: char) -> bool {
    digit_val(c) < 10
}

/// The value of the two digit characters starting at position `i`.
pub open spec fn two_digit_val(s: Seq<char>, i: int) -> int {
    10 * digit_val(s[i]) + digit_val(s[i + 1])
}

/// A time token in the fixed zero-padded 24-hour format `HH:MM:SS`.
pub open spec fn valid_time_token(s: Seq<char>) -> bool {
    &&& s.len() == 8
    &&& s[2] == ':'
    &&& s[5] == ':'
    &&& is_clock_digit(s[0])
    &&& is_clock_digit(s[1])
    &&& is_clock_digit(s[3])
    &&& is_clock_digit(s[4])
    &&& is_clock_digit(s[6])
    &&& is_clock_digit(s[7])
    &&& two_digit_val(s, 0) < 24
    &&& two_digit_val(s, 3) < 60
    &&& two_digit_val(s, 6) < 60
}

/// The clock reading that a valid time token denotes.
pub open spec fn token_time(s: Seq<char>) -> TimeOfDay {
    TimeOfDay {
        hour: two_digit_val(s, 0) as u8,
        minute: two_digit_val(s, 3) as u8,
        second: two_digit_val(s, 6) as u8,
    }
}

/// The value of a digit character, or 10 when the character is no digit.
fn digit_of(c: char) -> (r: u8)
    ensures
        r == digit_val(c),
{
    if c == '0' {
        0
    } else if c == '1' {
        1
    } else if c == '2' {
        2
    } else if c == '3' {
        3
    } else if c == '4' {
        4
    } else if c == '5' {
        5
    } else if c == '6' {
        6
    } else if c == '7' {
        7
    } else if c == '8' {
        8
    } else if c == '9' {
        9
    } else {
        10
    }
}

/// Parse a time token against the fixed `HH:MM:SS` format. Returns `None`
/// exactly when the token does not match the format; no partial or
/// defaulted parsing.
pub fn parse_time(token: &str) -> (r: Option<TimeOfDay>)
    ensures
        r is Some <==> valid_time_token(token@),
        r matches Some(t) ==> t == token_time(token@) && t.wf(),
{
    let n = token.unicode_len();
    if n != 8 {
        return None;
    }
    if token.get_char(2) != ':' || token.get_char(5) != ':' {
        return None;
    }
    let h1 = digit_of(token.get_char(0));
    let h2 = digit_of(token.get_char(1));
    let m1 = digit_of(token.get_char(3));
    let m2 = digit_of(token.get_char(4));
    let s1 = digit_of(token.get_char(6));
    let s2 = digit_of(token.get_char(7));
    if h1 >= 10 || h2 >= 10 || m1 >= 10 || m2 >= 10 || s1 >= 10 || s2 >= 10 {
        return None;
    }
    let hour: u8 = 10 * h1 + h2;
    let minute: u8 = 10 * m1 + m2;
    let second: u8 = 10 * s1 + s2;
    if hour >= 24 || minute >= 60 || second >= 60 {
        return None;
    }
    Some(TimeOfDay { hour, minute, second })
}

/// The digit character for a value below ten.
pub open spec fn digit_char(d: int) -> char {
    if d == 0 {
        '0'
    } else if d == 1 {
        '1'
    } else if d == 2 {
        '2'
    } else if d == 3 {
        '3'
    } else if d == 4 {
        '4'
    } else if d == 5 {
        '5'
    } else if d == 6 {
        '6'
    } else if d == 7 {
        '7'
    } else if d == 8 {
        '8'
    } else {
        '9'
    }
}

/// The eight characters `HH:MM:SS` of a second count below one day.
pub open spec fn hms_chars(r: int) -> Seq<char> {
    seq![
        digit_char(r / 3600 / 10),
        digit_char(r / 3600 % 10),
        ':',
        digit_char((r % 3600) / 60 / 10),
        digit_char((r % 3600) / 60 % 10),
        ':',
        digit_char(r % 60 / 10),
        digit_char(r % 60 % 10),
    ]
}

/// The display form of an elapsed duration in seconds: its remainder
/// modulo 24 hours rendered as `HH:MM:SS`; the day-count component is
/// dropped from the rendered string.
pub open spec fn rendered_duration(total: int) -> Seq<char> {
    hms_chars(total % 86400)
}

/// The one-character string for a digit value.
fn digit_str(d: u8) -> (r: &'static str)
    requires
        d < 10,
    ensures
        r@ == seq![digit_char(d as int)],
{
    if d == 0 {
        proof {
            reveal_strlit("0");
            assert("0"@ =~= seq![digit_char(0)]);
        }
        "0"
    } else if d == 1 {
        proof {
            reveal_strlit("1");
            assert("1"@ =~= seq![digit_char(1)]);
        }
        "1"
    } else if d == 2 {
        proof {
            reveal_strlit("2");
            assert("2"@ =~= seq![digit_char(2)]);
        }
        "2"
    } else if d == 3 {
        proof {
            reveal_strlit("3");
            assert("3"@ =~= seq![digit_char(3)]);
        }
        "3"
    } else if d == 4 {
        proof {
            reveal_strlit("4");
            assert("4"@ =~= seq![digit_char(4)]);
        }
        "4"
    } else if d == 5 {
        proof {
            reveal_strlit("5");
            assert("5"@ =~= seq![digit_char(5)]);
        }
        "5"
    } else if d == 6 {
        proof {
            reveal_strlit("6");
            assert("6"@ =~= seq![digit_char(6)]);
        }
        "6"
    } else if d == 7 {
        proof {
            reveal_strlit("7");
            assert("7"@ =~= seq![digit_char(7)]);
        }
        "7"
    } else if d == 8 {
        proof {
            reveal_strlit("8");
            assert("8"@ =~= seq![digit_char(8)]);
        }
        "8"
    } else {
        proof {
            reveal_strlit("9");
            assert("9"@ =~= seq![digit_char(9)]);
        }
        "9"
    }
}

/// Append a value below one hundred as two zero-padded digits.
fn push_two_digits(out: &mut String, v: u64)
    requires
        v < 100,
    ensures
        final(out)@ == old(out)@ + seq![digit_char(v as int / 10), digit_char(v as int % 10)],
{
    out.append(digit_str((v / 10) as u8));
    out.append(digit_str((v % 10) as u8));
    proof {
        assert(final(out)@ =~= old(out)@ + seq![
            digit_char(v as int / 10),
            digit_char(v as int % 10),
        ]);
    }
}

/// Render an elapsed duration, given in seconds, as `HH:MM:SS`.
/// Durations of 24 hours or more are displayed as their remainder modulo
/// 24 hours; the day-count component is dropped from the rendered string.
pub fn reconstitute_time_str(total_seconds: u64) -> (r: String)
    ensures
        r@ == rendered_duration(total_seconds as int),
        r@.len() == 8,
{
    let rem = total_seconds % 86400;
    let h = rem / 3600;
    let m = (rem % 3600) / 60;
    let s = rem % 60;
    let mut out = String::new();
    push_two_digits(&mut out, h);
    out.append(":");
    push_two_digits(&mut out, m);
    out.append(":");
    push_two_digits(&mut out, s);
    proof {
        reveal_strlit(":");
        assert(out@ =~= rendered_duration(total_seconds as int));
    }
    out
}

} // verus!
