//! Reading FFmpeg's `-progress` key/value records line by line.
use vstd::prelude::*;
use vstd::string::*;
use crate::text::{
    chars_eq_str, chars_of, parse_i64_chars, parse_i64_spec, parse_u64_chars, parse_unsigned,
    split_once, split_once_chars, string_of, trim, trim_chars,
};

verus! {

/// One progress record. `fps` and `speed` are kept as FFmpeg wrote them (speed
/// without its `x`), for the caller to read as numbers.
#[derive(Debug)]
pub struct Progress {
    pub frame: Option<u64>,
    pub fps: Option<String>,
    pub speed: Option<String>,
    pub total_size: Option<u64>,
    /// Signed microseconds; `N/A` is `None`.
    pub out_time_us: Option<i64>,
    pub dup_frames: Option<u64>,
    pub drop_frames: Option<u64>,
    pub finished: bool,
}

/// A record as plain values, field by field.
pub type ProgressView = (
    Option<u64>,
    Option<Seq<char>>,
    Option<Seq<char>>,
    Option<u64>,
    Option<i64>,
    Option<u64>,
    Option<u64>,
    bool,
);

/// The view of an optional string.
pub open spec fn text_view(o: Option<String>) -> Option<Seq<char>> {
    match o {
        Some(s) => Some(s@),
        None => None,
    }
}

impl View for Progress {
    type V = ProgressView;

    open spec fn view(&self) -> ProgressView {
        (
            self.frame,
            text_view(self.fps),
            text_view(self.speed),
            self.total_size,
            self.out_time_us,
            self.dup_frames,
            self.drop_frames,
            self.finished,
        )
    }
}

/// The empty record.
pub open spec fn empty_progress() -> ProgressView {
    (None, None, None, None, None, None, None, false)
}

/// `str::parse::<u64>` as an option.
pub open spec fn u64_value(v: Seq<char>) -> Option<u64> {
    match parse_unsigned(v, u64::MAX as nat) {
        Some(n) => Some(n as u64),
        None => None,
    }
}

/// `str::parse::<i64>` as an option.
pub open spec fn i64_value(v: Seq<char>) -> Option<i64> {
    match parse_i64_spec(v) {
        Some(n) => Some(n as i64),
        None => None,
    }
}

/// `v` without one trailing `x`.
pub open spec fn without_x(v: Seq<char>) -> Seq<char> {
    if v.len() > 0 && v.last() == 'x' {
        v.drop_last()
    } else {
        v
    }
}

/// The key and trimmed value of a `key=value` line.
pub open spec fn key_value(line: Seq<char>) -> Option<(Seq<char>, Seq<char>)> {
    match split_once(trim(line), '=') {
        Some((k, v)) => Some((k, trim(v))),
        None => None,
    }
}

/// What one line does: the record being collected afterwards, and the record it
/// completes, if any. A `progress` line completes the record when its value is
/// `continue` or `end` and discards it otherwise.
pub open spec fn progress_step(cur: ProgressView, line: Seq<char>) -> (ProgressView, Option<
    ProgressView,
>) {
    let (frame, fps, speed, total, time, dup, drop, fin) = cur;
    match key_value(line) {
        None => (cur, None),
        Some((k, v)) => if k == "frame"@ {
            ((u64_value(v), fps, speed, total, time, dup, drop, fin), None)
        } else if k == "fps"@ {
            ((frame, Some(v), speed, total, time, dup, drop, fin), None)
        } else if k == "speed"@ {
            ((frame, fps, Some(without_x(v)), total, time, dup, drop, fin), None)
        } else if k == "total_size"@ {
            ((frame, fps, speed, u64_value(v), time, dup, drop, fin), None)
        } else if k == "out_time_us"@ {
            ((frame, fps, speed, total, i64_value(v), dup, drop, fin), None)
        } else if k == "dup_frames"@ {
            ((frame, fps, speed, total, time, u64_value(v), drop, fin), None)
        } else if k == "drop_frames"@ {
            ((frame, fps, speed, total, time, dup, u64_value(v), fin), None)
        } else if k == "progress"@ {
            if v == "continue"@ || v == "end"@ {
                (empty_progress(), Some((frame, fps, speed, total, time, dup, drop, v == "end"@)))
            } else {
                (empty_progress(), None)
            }
        } else {
            (cur, None)
        },
    }
}

/// Collects progress records from lines, without needing the input's duration or
/// frame rate.
#[derive(Debug)]
pub struct ProgressParser {
    current: Progress,
}

fn empty() -> (p: Progress)
    ensures
        p@ == empty_progress(),
{
    Progress {
        frame: None,
        fps: None,
        speed: None,
        total_size: None,
        out_time_us: None,
        dup_frames: None,
        drop_frames: None,
        finished: false,
    }
}

impl Default for Progress {
    /// A record with no values, not finished.
    fn default() -> (p: Progress)
        ensures
            p@ == empty_progress(),
    {
        empty()
    }
}

impl ProgressParser {
    /// The record being collected.
    pub closed spec fn pending(&self) -> ProgressView {
        self.current@
    }

    /// A parser with an empty record.
    pub fn new() -> (p: ProgressParser)
        ensures
            p.pending() == empty_progress(),
    {
        ProgressParser { current: empty() }
    }

    /// Reads one line; returns the record a `progress` line completes.
    pub fn push_line(&mut self, line: &str) -> (r: Option<Progress>)
        ensures
            final(self).pending() == progress_step(old(self).pending(), line@).0,
            r matches Some(p) ==> progress_step(old(self).pending(), line@).1 == Some(p@),
            r is None ==> progress_step(old(self).pending(), line@).1 is None,
    {
        let chars = chars_of(line);
        let t = trim_chars(chars.as_slice());
        let (key, raw) = match split_once_chars(t.as_slice(), '=') {
            Some(kv) => kv,
            None => return None,
        };
        let value = trim_chars(raw.as_slice());
        let v = value.as_slice();
        if chars_eq_str(key.as_slice(), "frame") {
            self.current.frame = parse_u64_chars(v);
        } else if chars_eq_str(key.as_slice(), "fps") {
            self.current.fps = Some(string_of(v));
        } else if chars_eq_str(key.as_slice(), "speed") {
            let n = v.len();
            let s = if n > 0 && v[n - 1] == 'x' {
                let mut out = String::new();
                let mut i: usize = 0;
                while i < n - 1
                    invariant
                        n == v@.len(),
                        n > 0,
                        i <= n - 1,
                        out@ == v@.take(i as int),
                    decreases n - 1 - i,
                {
                    crate::text::push_char(&mut out, v[i]);
                    assert(out@ =~= v@.take(i + 1));
                    i += 1;
                }
                assert(v@.take(n - 1) =~= v@.drop_last());
                out
            } else {
                string_of(v)
            };
            self.current.speed = Some(s);
        } else if chars_eq_str(key.as_slice(), "total_size") {
            self.current.total_size = parse_u64_chars(v);
        } else if chars_eq_str(key.as_slice(), "out_time_us") {
            self.current.out_time_us = parse_i64_chars(v);
        } else if chars_eq_str(key.as_slice(), "dup_frames") {
            self.current.dup_frames = parse_u64_chars(v);
        } else if chars_eq_str(key.as_slice(), "drop_frames") {
            self.current.drop_frames = parse_u64_chars(v);
        } else if chars_eq_str(key.as_slice(), "progress") {
            let mut record = empty();
            std::mem::swap(&mut record, &mut self.current);
            let end = chars_eq_str(v, "end");
            if !(chars_eq_str(v, "continue") || end) {
                return None;
            }
            record.finished = end;
            return Some(record);
        }
        None
    }
}

} // verus!
