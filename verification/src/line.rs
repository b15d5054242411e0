//! Input lines: splitting a raw line into a time token and its payload,
//! and rendering an output line from an elapsed duration and its payload.

use vstd::prelude::*;
use crate::clock::TimeOfDay;
use crate::clock::parse_time;
use crate::clock::reconstitute_time_str;
use crate::clock::rendered_duration;
use crate::clock::token_time;
use crate::clock::valid_time_token;

verus! {

/// A parsed input entry: a wall-clock reading plus the transcription text
/// that followed it on the line. Immutable once constructed.
#[derive(Clone, PartialEq, Eq, Debug)]
pub struct TimestampedEntry {
    pub time: TimeOfDay,
    pub transcription: String,
}

/// An output entry: elapsed whole seconds since the first entry plus the
/// unchanged transcription text. Immutable once constructed.
#[derive(Clone, PartialEq, Eq, Debug)]
pub struct ElapsedEntry {
    pub seconds: u64,
    pub transcription: String,
}

/// Why a line was rejected. Either failure is fatal to the whole run: no
/// partial or defaulted parsing.
#[derive(Clone, Copy, PartialEq, Eq, Structural, Debug)]
pub enum FormatError {
    /// The line holds no space separator.
    MissingSeparator,
    /// The token before the first space does not match `HH:MM:SS`.
    BadTimeToken,
}

/// No space character anywhere in the line.
pub open spec fn no_space(s: Seq<char>) -> bool {
    forall|i: int| 0 <= i < s.len() ==> s[i] != ' '
}

/// `i` is the index of the first space character of `s`.
pub open spec fn is_first_space(s: Seq<char>, i: int) -> bool {
    &&& 0 <= i < s.len()
    &&& s[i] == ' '
    &&& forall|j: int| 0 <= j < i ==> s[j] != ' '
}

/// The index of the first space character, on a line that has one.
pub open spec fn first_space(s: Seq<char>) -> int {
    choose|i: int| is_first_space(s, i)
}

/// The time token of a line: everything before the first space.
pub open spec fn time_token_of(s: Seq<char>) -> Seq<char> {
    s.subrange(0, first_space(s))
}

/// The payload of a line: everything after the first space.
pub open spec fn payload_of(s: Seq<char>) -> Seq<char> {
    s.subrange(first_space(s) + 1, s.len() as int)
}

/// Split one raw line on its first space into a time token and a payload,
/// and parse the token against the fixed `HH:MM:SS` format.
/// Fails exactly when the line has no space separator or the token does
/// not match the format.
pub fn line_to_entry(line: &str) -> (r: Result<TimestampedEntry, FormatError>)
    ensures
        no_space(line@) ==> (r matches Err(e) && e == FormatError::MissingSeparator),
        !no_space(line@) && valid_time_token(time_token_of(line@)) ==> (r matches Ok(entry) && {
            &&& entry.time == token_time(time_token_of(line@))
            &&& entry.time.wf()
            &&& entry.transcription@ == payload_of(line@)
        }),
        !no_space(line@) && !valid_time_token(time_token_of(line@)) ==> (r matches Err(e) && e
            == FormatError::BadTimeToken),
{
    let len = line.unicode_len();
    let mut i: usize = 0;
    while i < len && line.get_char(i) != ' '
        invariant
            i <= len,
            len == line@.len(),
            forall|j: int| 0 <= j < i ==> line@[j] != ' ',
        decreases len - i,
    {
        i = i + 1;
    }
    if i == len {
        return Err(FormatError::MissingSeparator);
    }
    proof {
        assert(is_first_space(line@, i as int));
        let k = first_space(line@);
        assert(is_first_space(line@, k));
        assert(k == i as int);
    }
    let token = line.substring_char(0, i);
    let payload = line.substring_char(i + 1, len);
    match parse_time(token) {
        None => Err(FormatError::BadTimeToken),
        Some(time) => Ok(
            TimestampedEntry { time, transcription: payload.to_owned() },
        ),
    }
}

/// The full text of one output line: the rendered duration, one space,
/// then the unchanged payload.
pub open spec fn rendered_line(seconds: int, payload: Seq<char>) -> Seq<char> {
    rendered_duration(seconds) + seq![' '] + payload
}

/// Render one output entry as its final line of text (without the
/// terminating newline, which the writer adds).
pub fn render_line(entry: &ElapsedEntry) -> (r: String)
    ensures
        r@ == rendered_line(entry.seconds as int, entry.transcription@),
{
    let mut out = reconstitute_time_str(entry.seconds);
    out.append(" ");
    out.append(entry.transcription.as_str());
    proof {
        reveal_strlit(" ");
        assert(out@ =~= rendered_line(entry.seconds as int, entry.transcription@));
    }
    out
}

} // verus!
