//! The whole pass, composed: parse every line, normalize the readings to
//! elapsed durations, and render every output line. Fails on the first
//! malformed line, as the run itself does.

use vstd::prelude::*;
use crate::line::FormatError;
use crate::line::TimestampedEntry;
use crate::line::line_to_entry;
use crate::line::no_space;
use crate::line::payload_of;
use crate::line::render_line;
use crate::line::rendered_line;
use crate::line::time_token_of;
use crate::clock::token_time;
use crate::clock::valid_time_token;
use crate::normalize::duration_at;
use crate::normalize::normalize;
use crate::normalize::times_of;

verus! {

/// A line that the parser accepts: it has a space separator and its time
/// token matches `HH:MM:SS`.
pub open spec fn line_ok(s: Seq<char>) -> bool {
    !no_space(s) && valid_time_token(time_token_of(s))
}

/// The error a malformed line is owed: a missing separator outranks a bad
/// time token, since without a separator there is no token.
pub open spec fn line_error(s: Seq<char>) -> FormatError {
    if no_space(s) {
        FormatError::MissingSeparator
    } else {
        FormatError::BadTimeToken
    }
}

/// The clock readings denoted by a sequence of well-formed lines, in
/// seconds since midnight.
pub open spec fn line_times(lines: Seq<Seq<char>>) -> Seq<int> {
    Seq::new(lines.len(), |i: int| token_time(time_token_of(lines[i])).spec_seconds())
}

/// The first malformed line of the run: its index and why it was
/// rejected.
#[derive(Clone, Copy, PartialEq, Eq, Debug)]
pub struct BadLine {
    pub index: usize,
    pub kind: FormatError,
}

/// Run the whole pass over the input lines: split and parse each one,
/// normalize the readings to elapsed durations since the first entry,
/// and render each output line. Returns the output lines, or the first
/// malformed line; nothing is produced for or after a malformed line.
pub fn process_lines(lines: &Vec<String>) -> (r: Result<Vec<String>, BadLine>)
    requires
        lines@.len() <= 0xFFFF_FFFF,
    ensures
        (r is Ok <==> forall|i: int| 0 <= i < lines@.len() ==> line_ok(#[trigger] lines@[i]@)),
        r matches Ok(out) ==> {
            &&& out@.len() == lines@.len()
            &&& forall|i: int|
                0 <= i < out@.len() ==> (#[trigger] out@[i])@ == rendered_line(
                    duration_at(line_times(lines@.map_values(|l: String| l@)), i),
                    payload_of(lines@[i]@),
                )
        },
        r matches Err(bad) ==> {
            &&& bad.index < lines@.len()
            &&& !line_ok(lines@[bad.index as int]@)
            &&& bad.kind == line_error(lines@[bad.index as int]@)
            &&& forall|j: int| 0 <= j < bad.index ==> line_ok(#[trigger] lines@[j]@)
        },
{
    let ghost views = lines@.map_values(|l: String| l@);
    let n = lines.len();
    let mut entries: Vec<TimestampedEntry> = Vec::new();
    let mut i: usize = 0;
    while i < n
        invariant
            n == lines@.len(),
            views == lines@.map_values(|l: String| l@),
            i <= n,
            entries@.len() == i,
            forall|j: int| 0 <= j < i ==> line_ok(#[trigger] lines@[j]@),
            forall|j: int|
                0 <= j < i ==> (#[trigger] entries@[j]).time == token_time(
                    time_token_of(lines@[j]@),
                ),
            forall|j: int| 0 <= j < i ==> (#[trigger] entries@[j]).time.wf(),
            forall|j: int|
                0 <= j < i ==> (#[trigger] entries@[j]).transcription@ == payload_of(lines@[j]@),
        decreases n - i,
    {
        match line_to_entry(lines[i].as_str()) {
            Ok(entry) => {
                entries.push(entry);
            },
            Err(kind) => {
                return Err(BadLine { index: i, kind });
            },
        }
        i = i + 1;
    }
    let ghost times = line_times(views);
    proof {
        assert(times =~= times_of(entries@));
    }
    let normalized = normalize(entries);
    let mut out: Vec<String> = Vec::new();
    let mut k: usize = 0;
    while k < normalized.len()
        invariant
            normalized@.len() == n,
            n == lines@.len(),
            views == lines@.map_values(|l: String| l@),
            times == line_times(views),
            forall|j: int|
                0 <= j < n ==> (#[trigger] normalized@[j]).seconds == duration_at(times, j),
            forall|j: int|
                0 <= j < n ==> (#[trigger] normalized@[j]).transcription@ == payload_of(
                    lines@[j]@,
                ),
            k <= n,
            out@.len() == k,
            forall|j: int|
                0 <= j < k ==> (#[trigger] out@[j])@ == rendered_line(
                    duration_at(times, j),
                    payload_of(lines@[j]@),
                ),
        decreases n - k,
    {
        let rendered = render_line(&normalized[k]);
        out.push(rendered);
        k = k + 1;
    }
    Ok(out)
}

} // verus!
