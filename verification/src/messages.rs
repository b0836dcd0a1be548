//! The message log: sources, levels, filters, and FFmpeg output split into lines.
use vstd::prelude::*;
use vstd::string::*;
use crate::text::{chars_of, lines, lines_of, push_char, string_of, trim, trim_chars, views};

verus! {

/// Where a message comes from.
#[derive(Debug, Clone, Copy, PartialEq, Eq, Structural)]
pub enum MessageSource {
    Program,
    Ffmpeg,
    Command,
}

/// How important a message is.
#[derive(Debug, Clone, Copy, PartialEq, Eq, Structural)]
pub enum MessageLevel {
    Debug,
    Info,
    Warning,
    Error,
}

/// The label a source is shown with.
pub open spec fn source_label(s: MessageSource) -> Seq<char> {
    match s {
        MessageSource::Program => "Program"@,
        MessageSource::Ffmpeg => "FFmpeg"@,
        MessageSource::Command => "Command"@,
    }
}

/// The label a level is shown with.
pub open spec fn level_label(l: MessageLevel) -> Seq<char> {
    match l {
        MessageLevel::Debug => "DEBUG"@,
        MessageLevel::Info => "INFO"@,
        MessageLevel::Warning => "WARN"@,
        MessageLevel::Error => "ERROR"@,
    }
}

impl MessageSource {
    /// The label this source is shown with.
    pub fn label(self) -> (s: &'static str)
        ensures
            s@ == source_label(self),
    {
        match self {
            MessageSource::Program => "Program",
            MessageSource::Ffmpeg => "FFmpeg",
            MessageSource::Command => "Command",
        }
    }
}

impl MessageLevel {
    /// The label this level is shown with.
    pub fn label(self) -> (s: &'static str)
        ensures
            s@ == level_label(self),
    {
        match self {
            MessageLevel::Debug => "DEBUG",
            MessageLevel::Info => "INFO",
            MessageLevel::Warning => "WARN",
            MessageLevel::Error => "ERROR",
        }
    }
}

/// One message.
#[derive(Debug)]
pub struct NewMessage {
    pub source: MessageSource,
    pub level: MessageLevel,
    pub text: String,
}

/// The event raised when the message panel opens or closes.
#[derive(Debug)]
pub struct ExpansionChanged;

/// Which messages the log shows.
#[derive(Debug, Clone, Copy, PartialEq, Eq, Structural)]
pub enum Filter {
    All,
    Program,
    Ffmpeg,
    Commands,
    Warnings,
    Errors,
}

/// The filter a menu label selects.
pub open spec fn filter_of_label(l: Seq<char>) -> Option<Filter> {
    if l == "All messages"@ {
        Some(Filter::All)
    } else if l == "Program"@ {
        Some(Filter::Program)
    } else if l == "FFmpeg"@ {
        Some(Filter::Ffmpeg)
    } else if l == "Commands"@ {
        Some(Filter::Commands)
    } else if l == "Warnings"@ {
        Some(Filter::Warnings)
    } else if l == "Errors"@ {
        Some(Filter::Errors)
    } else {
        None
    }
}

/// Whether filter `f` shows a message from `s` at level `l`.
pub open spec fn shows(f: Filter, s: MessageSource, l: MessageLevel) -> bool {
    match f {
        Filter::All => true,
        Filter::Program => s == MessageSource::Program,
        Filter::Ffmpeg => s == MessageSource::Ffmpeg,
        Filter::Commands => s == MessageSource::Command,
        Filter::Warnings => l == MessageLevel::Warning,
        Filter::Errors => l == MessageLevel::Error,
    }
}

/// How filter `f` writes a message: with level and source under all messages,
/// with the level under the program filter, raw for FFmpeg and commands, and with
/// the source for warnings and errors; each on its own line.
pub open spec fn shown_line(f: Filter, s: MessageSource, l: MessageLevel, t: Seq<char>) -> Seq<char> {
    match f {
        Filter::All => "["@ + level_label(l) + "] ["@ + source_label(s) + "] "@ + t + "\n"@,
        Filter::Program => "["@ + level_label(l) + "] "@ + t + "\n"@,
        Filter::Ffmpeg | Filter::Commands => t + "\n"@,
        Filter::Warnings | Filter::Errors => "["@ + source_label(s) + "] "@ + t + "\n"@,
    }
}

impl Filter {
    /// The filter a menu label selects.
    pub fn from_label(label: &str) -> (f: Filter)
        requires
            filter_of_label(label@) is Some,
        ensures
            filter_of_label(label@) == Some(f),
    {
        if crate::text::str_eq(label, "All messages") {
            Filter::All
        } else if crate::text::str_eq(label, "Program") {
            Filter::Program
        } else if crate::text::str_eq(label, "FFmpeg") {
            Filter::Ffmpeg
        } else if crate::text::str_eq(label, "Commands") {
            Filter::Commands
        } else if crate::text::str_eq(label, "Warnings") {
            Filter::Warnings
        } else {
            Filter::Errors
        }
    }

    /// Whether this filter shows `message`.
    pub fn matches(self, message: &NewMessage) -> (r: bool)
        ensures
            r == shows(self, message.source, message.level),
    {
        match self {
            Filter::All => true,
            Filter::Program => message.source == MessageSource::Program,
            Filter::Ffmpeg => message.source == MessageSource::Ffmpeg,
            Filter::Commands => message.source == MessageSource::Command,
            Filter::Warnings => message.level == MessageLevel::Warning,
            Filter::Errors => message.level == MessageLevel::Error,
        }
    }

    /// The line this filter writes for `message`.
    pub fn display_line(self, message: &NewMessage) -> (s: String)
        ensures
            s@ == shown_line(self, message.source, message.level, message.text@),
    {
        let t = message.text.as_str();
        match self {
            Filter::All => String::from_str("[").concat(message.level.label()).concat("] [").concat(
                message.source.label(),
            ).concat("] ").concat(t).concat("\n"),
            Filter::Program => String::from_str("[").concat(message.level.label()).concat("] ").concat(
                t,
            ).concat("\n"),
            Filter::Ffmpeg | Filter::Commands => String::from_str(t).concat("\n"),
            Filter::Warnings | Filter::Errors => String::from_str("[").concat(
                message.source.label(),
            ).concat("] ").concat(t).concat("\n"),
        }
    }
}

/// Whether `c` ends an FFmpeg output line.
pub open spec fn is_line_break(c: char) -> bool {
    c == '\r' || c == '\n'
}

/// Reading `s` after the state `st` (finished lines, unfinished tail): a line ends
/// at `\r` or `\n`, empty lines are dropped, and what follows the last break stays
/// unfinished.
pub open spec fn scan_from(st: (Seq<Seq<char>>, Seq<char>), s: Seq<char>) -> (Seq<Seq<char>>, Seq<char>)
    decreases s.len(),
{
    if s.len() == 0 {
        st
    } else {
        let (done, cur) = scan_from(st, s.drop_last());
        let c = s.last();
        if is_line_break(c) {
            (
                if cur.len() > 0 {
                    done.push(cur)
                } else {
                    done
                },
                seq![],
            )
        } else {
            (done, cur.push(c))
        }
    }
}

/// The finished lines and unfinished tail of `s`.
pub open spec fn scan_lines(s: Seq<char>) -> (Seq<Seq<char>>, Seq<char>) {
    scan_from((seq![], seq![]), s)
}

proof fn lemma_scan_fold(st: (Seq<Seq<char>>, Seq<char>), x: Seq<char>, y: Seq<char>)
    ensures
        scan_from(st, x + y) == scan_from(scan_from(st, x), y),
    decreases y.len(),
{
    if y.len() == 0 {
        assert(x + y =~= x);
    } else {
        assert((x + y).drop_last() =~= x + y.drop_last());
        assert((x + y).last() == y.last());
        lemma_scan_fold(st, x, y.drop_last());
    }
}

proof fn lemma_scan_carries_done(done: Seq<Seq<char>>, cur: Seq<char>, y: Seq<char>)
    ensures
        scan_from((done, cur), y) == (done + scan_from((seq![], cur), y).0, scan_from((seq![], cur), y).1),
    decreases y.len(),
{
    if y.len() == 0 {
        assert(done + seq![] =~= done);
    } else {
        lemma_scan_carries_done(done, cur, y.drop_last());
        let (d0, c0) = scan_from((seq![], cur), y.drop_last());
        assert((done + d0).push(c0) =~= done + d0.push(c0));
    }
}

proof fn lemma_scan_tail_unbroken(x: Seq<char>)
    ensures
        forall|i: int| 0 <= i < scan_lines(x).1.len() ==> !is_line_break(#[trigger] scan_lines(x).1[i]),
    decreases x.len(),
{
    if x.len() > 0 {
        lemma_scan_tail_unbroken(x.drop_last());
        let (d0, c0) = scan_lines(x.drop_last());
        let c = x.last();
        if !is_line_break(c) {
            assert forall|i: int| 0 <= i < c0.push(c).len() implies !is_line_break(#[trigger] c0.push(c)[i]) by {
                if i < c0.len() {
                    assert(c0.push(c)[i] == c0[i]);
                }
            }
        }
    }
}

proof fn lemma_scan_unbroken(x: Seq<char>)
    requires
        forall|i: int| 0 <= i < x.len() ==> !is_line_break(#[trigger] x[i]),
    ensures
        scan_lines(x) == (Seq::<Seq<char>>::empty(), x),
    decreases x.len(),
{
    if x.len() > 0 {
        assert forall|i: int| 0 <= i < x.drop_last().len() implies !is_line_break(#[trigger] x.drop_last()[i]) by {
            assert(x.drop_last()[i] == x[i]);
        }
        lemma_scan_unbroken(x.drop_last());
        assert(x.drop_last().push(x.last()) =~= x);
    } else {
        assert(x =~= seq![]);
    }
}

/// Feeding FFmpeg output in two chunks completes the same lines, in the same order,
/// and leaves the same unfinished line as feeding it at once.
pub proof fn law_chunks_complete_the_same_lines(pending: Seq<char>, a: Seq<char>, b: Seq<char>)
    ensures
        scan_lines(pending + a).0 + scan_lines(scan_lines(pending + a).1 + b).0 == scan_lines(
            pending + a + b,
        ).0,
        scan_lines(scan_lines(pending + a).1 + b).1 == scan_lines(pending + a + b).1,
{
    let (l1, r1) = scan_lines(pending + a);
    lemma_scan_fold((seq![], seq![]), pending + a, b);
    lemma_scan_carries_done(l1, r1, b);
    lemma_scan_tail_unbroken(pending + a);
    lemma_scan_unbroken(r1);
    lemma_scan_fold((seq![], seq![]), r1, b);
}

/// The views of a list of strings.
pub open spec fn texts(v: Seq<String>) -> Seq<Seq<char>> {
    v.map_values(|s: String| s@)
}

/// Appends `chunk` to the unfinished FFmpeg output `pending` and takes out the
/// nonempty lines it completes; a `\r\n` pair ends one line.
pub fn complete_ffmpeg_lines(pending: &mut String, chunk: &str) -> (r: Vec<String>)
    ensures
        texts(r@) == scan_lines(old(pending)@ + chunk@).0,
        final(pending)@ == scan_lines(old(pending)@ + chunk@).1,
{
    let ghost all = pending@ + chunk@;
    let mut chars = chars_of(pending.as_str());
    let more = chars_of(chunk);
    let mut k: usize = 0;
    while k < more.len()
        invariant
            k <= more@.len(),
            more@ == chunk@,
            chars@ == old(pending)@ + chunk@.take(k as int),
        decreases more@.len() - k,
    {
        chars.push(more[k]);
        assert(chunk@.take(k + 1) =~= chunk@.take(k as int).push(chunk@[k as int]));
        k += 1;
    }
    assert(chunk@.take(chunk@.len() as int) =~= chunk@);
    assert(chars@ =~= all);
    let mut complete: Vec<String> = Vec::new();
    let mut cur = String::new();
    let mut i: usize = 0;
    assert(all.take(0) =~= seq![]);
    while i < chars.len()
        invariant
            chars@ == all,
            i <= all.len(),
            (texts(complete@), cur@) == scan_lines(all.take(i as int)),
        decreases all.len() - i,
    {
        let c = chars[i];
        proof {
            assert(all.take(i + 1).drop_last() =~= all.take(i as int));
            assert(all.take(i + 1).last() == c);
        }
        if c == '\r' || c == '\n' {
            if !cur.as_str().is_empty() {
                let ghost before = texts(complete@);
                let line = cur;
                complete.push(line);
                assert(texts(complete@) =~= before.push(line@));
            }
            cur = String::new();
        } else {
            push_char(&mut cur, c);
        }
        i += 1;
    }
    assert(all.take(all.len() as int) =~= all);
    *pending = cur;
    complete
}

/// The number of bytes `c` takes in UTF-8.
pub open spec fn utf8_width(c: char) -> nat {
    if (c as u32) < 0x80 {
        1
    } else if (c as u32) < 0x800 {
        2
    } else if (c as u32) < 0x10000 {
        3
    } else {
        4
    }
}

/// The number of bytes `s` takes in UTF-8.
pub open spec fn utf8_len(s: Seq<char>) -> nat
    decreases s.len(),
{
    if s.len() == 0 {
        0
    } else {
        utf8_len(s.drop_last()) + utf8_width(s.last())
    }
}

/// Whether the UTF-8 form of `s` is longer than `limit` bytes.
fn longer_than(s: &str, limit: usize) -> (r: bool)
    ensures
        r == (utf8_len(s@) > limit),
{
    let chars = chars_of(s);
    let mut n: usize = 0;
    let mut i: usize = 0;
    assert(s@.take(0) =~= seq![]);
    while i < chars.len()
        invariant
            chars@ == s@,
            i <= s@.len(),
            n == utf8_len(s@.take(i as int)),
            n <= limit,
        decreases s@.len() - i,
    {
        let c = chars[i];
        let w: usize = if (c as u32) < 0x80 {
            1
        } else if (c as u32) < 0x800 {
            2
        } else if (c as u32) < 0x10000 {
            3
        } else {
            4
        };
        assert(s@.take(i + 1).drop_last() =~= s@.take(i as int));
        if w > limit - n {
            proof {
                lemma_utf8_len_prefix(s@, i as nat + 1);
            }
            return true;
        }
        n = n + w;
        i += 1;
    }
    assert(s@.take(s@.len() as int) =~= s@);
    false
}

proof fn lemma_utf8_len_prefix(s: Seq<char>, k: nat)
    requires
        k <= s.len(),
    ensures
        utf8_len(s.take(k as int)) <= utf8_len(s),
    decreases s.len() - k,
{
    if k < s.len() {
        assert(s.take(k + 1 as int).drop_last() =~= s.take(k as int));
        lemma_utf8_len_prefix(s, k + 1);
    } else {
        assert(s.take(k as int) =~= s);
    }
}

/// A message as plain values.
pub open spec fn message_view(m: NewMessage) -> (MessageSource, MessageLevel, Seq<char>) {
    (m.source, m.level, m.text@)
}

/// The messages of a log as plain values.
pub open spec fn message_views(v: Seq<NewMessage>) -> Seq<(MessageSource, MessageLevel, Seq<char>)> {
    v.map_values(|m: NewMessage| message_view(m))
}

/// The text a filter shows for a list of messages.
pub open spec fn shown_text(f: Filter, ms: Seq<(MessageSource, MessageLevel, Seq<char>)>) -> Seq<char>
    decreases ms.len(),
{
    if ms.len() == 0 {
        seq![]
    } else {
        let (s, l, t) = ms.last();
        shown_text(f, ms.drop_last()) + if shows(f, s, l) {
            shown_line(f, s, l, t)
        } else {
            seq![]
        }
    }
}

/// The nonblank lines of `ls` as messages from `s` at level `l`.
pub open spec fn entries_of(s: MessageSource, l: MessageLevel, ls: Seq<Seq<char>>) -> Seq<
    (MessageSource, MessageLevel, Seq<char>),
>
    decreases ls.len(),
{
    if ls.len() == 0 {
        seq![]
    } else {
        entries_of(s, l, ls.drop_last()) + if trim(ls.last()).len() > 0 {
            seq![(s, l, ls.last())]
        } else {
            seq![]
        }
    }
}

/// The lines a message adds to the log and the unfinished FFmpeg line afterwards.
pub open spec fn pushed_lines(partial: Seq<char>, m: (MessageSource, MessageLevel, Seq<char>)) -> (
    Seq<Seq<char>>,
    Seq<char>,
) {
    let (source, _, text) = m;
    if source == MessageSource::Ffmpeg {
        let (done, rest) = scan_lines(partial + text);
        if utf8_len(rest) > PARTIAL_LIMIT {
            (done.push(rest), seq![])
        } else {
            (done, rest)
        }
    } else {
        (lines(text), partial)
    }
}

/// What a filter shows for two lists of messages is what it shows for each, in order.
pub proof fn lemma_shown_text_concat(
    f: Filter,
    a: Seq<(MessageSource, MessageLevel, Seq<char>)>,
    b: Seq<(MessageSource, MessageLevel, Seq<char>)>,
)
    ensures
        shown_text(f, a + b) == shown_text(f, a) + shown_text(f, b),
    decreases b.len(),
{
    if b.len() == 0 {
        assert(a + b =~= a);
    } else {
        assert((a + b).drop_last() =~= a + b.drop_last());
        assert((a + b).last() == b.last());
        lemma_shown_text_concat(f, a, b.drop_last());
    }
}

/// The longest unfinished FFmpeg line kept before it is logged as it stands.
pub const PARTIAL_LIMIT: usize = 8192;

/// The messages shown so far, the unfinished FFmpeg line and the selected filter.
pub struct MessageLog {
    entries: Vec<NewMessage>,
    ffmpeg_partial: String,
    filter: Filter,
}

impl MessageLog {
    /// The logged messages.
    pub closed spec fn logged(&self) -> Seq<(MessageSource, MessageLevel, Seq<char>)> {
        message_views(self.entries@)
    }

    /// The unfinished FFmpeg line.
    pub closed spec fn partial(&self) -> Seq<char> {
        self.ffmpeg_partial@
    }

    /// The selected filter.
    pub closed spec fn current_filter(&self) -> Filter {
        self.filter
    }

    /// An empty log showing all messages.
    pub fn new() -> (l: MessageLog)
        ensures
            l.logged() == Seq::<(MessageSource, MessageLevel, Seq<char>)>::empty(),
            l.partial() == Seq::<char>::empty(),
            l.current_filter() == Filter::All,
    {
        let l = MessageLog { entries: Vec::new(), ffmpeg_partial: String::new(), filter: Filter::All };
        assert(l.logged() =~= Seq::<(MessageSource, MessageLevel, Seq<char>)>::empty());
        l
    }

    /// Logs one line unless it is blank; returns what the filter shows of it.
    fn push_line(&mut self, source: MessageSource, level: MessageLevel, text: String) -> (shown:
        String)
        ensures
            final(self).partial() == old(self).partial(),
            final(self).current_filter() == old(self).current_filter(),
            trim(text@).len() == 0 ==> final(self).logged() == old(self).logged() && shown@
                == Seq::<char>::empty(),
            trim(text@).len() > 0 ==> final(self).logged() == old(self).logged().push(
                (source, level, text@),
            ) && shown@ == shown_text(
                old(self).current_filter(),
                seq![(source, level, text@)],
            ),
    {
        let chars = chars_of(text.as_str());
        let t = trim_chars(chars.as_slice());
        if t.len() == 0 {
            return String::new();
        }
        let message = NewMessage { source, level, text };
        let shown = if self.filter.matches(&message) {
            self.filter.display_line(&message)
        } else {
            String::new()
        };
        let ghost before = self.logged();
        self.entries.push(message);
        assert(self.logged() =~= before.push((source, level, message.text@)));
        let ghost one = seq![(source, level, message.text@)];
        assert(one.drop_last() =~= seq![]);
        assert(one.last() == (source, level, message.text@));
        assert(shown_text(self.filter, one.drop_last()) == Seq::<char>::empty());
        assert(shown_text(self.filter, one) =~= shown@);
        shown
    }

    /// Logs a message and returns the text the filter shows of it. FFmpeg output
    /// arrives in chunks: only completed lines are logged, and an unfinished line
    /// longer than the partial limit is logged as it stands. Other messages are
    /// logged line by line. Blank lines are dropped.
    pub fn push(&mut self, message: NewMessage) -> (shown: String)
        ensures
            final(self).current_filter() == old(self).current_filter(),
            final(self).partial() == pushed_lines(old(self).partial(), message_view(message)).1,
            final(self).logged() == old(self).logged() + entries_of(
                message.source,
                message.level,
                pushed_lines(old(self).partial(), message_view(message)).0,
            ),
            shown@ == shown_text(
                old(self).current_filter(),
                entries_of(
                    message.source,
                    message.level,
                    pushed_lines(old(self).partial(), message_view(message)).0,
                ),
            ),
    {
        let ghost start = self.logged();
        let ghost f = self.filter;
        let mut shown = String::new();
        let source = message.source;
        let level = message.level;
        let lines_to_log: Vec<String> = if source == MessageSource::Ffmpeg {
            let mut done = complete_ffmpeg_lines(&mut self.ffmpeg_partial, message.text.as_str());
            if longer_than(self.ffmpeg_partial.as_str(), PARTIAL_LIMIT) {
                let mut line = String::new();
                std::mem::swap(&mut line, &mut self.ffmpeg_partial);
                let ghost before = texts(done@);
                done.push(line);
                assert(texts(done@) =~= before.push(line@));
            }
            done
        } else {
            let chars = chars_of(message.text.as_str());
            let ls = lines_of(chars.as_slice());
            let mut out: Vec<String> = Vec::new();
            let mut j: usize = 0;
            while j < ls.len()
                invariant
                    j <= ls@.len(),
                    texts(out@) =~= views(ls@).take(j as int),
                decreases ls@.len() - j,
            {
                let ghost before = texts(out@);
                out.push(string_of(ls[j].as_slice()));
                assert(texts(out@) =~= before.push(ls@[j as int]@));
                j += 1;
            }
            assert(views(ls@).take(ls@.len() as int) =~= views(ls@));
            out
        };
        let ghost all = texts(lines_to_log@);
        assert(all == pushed_lines(old(self).partial(), message_view(message)).0);
        let mut i: usize = 0;
        assert(all.take(0) =~= seq![]);
        assert(start + entries_of(source, level, all.take(0)) =~= start);
        while i < lines_to_log.len()
            invariant
                all == texts(lines_to_log@),
                i <= all.len(),
                self.filter == f,
                self.partial() == pushed_lines(old(self).partial(), message_view(message)).1,
                self.logged() == start + entries_of(source, level, all.take(i as int)),
                shown@ == shown_text(f, entries_of(source, level, all.take(i as int))),
            decreases all.len() - i,
        {
            let ghost prev = entries_of(source, level, all.take(i as int));
            let s = self.push_line(source, level, lines_to_log[i].clone());
            proof {
                assert(all.take(i + 1).drop_last() =~= all.take(i as int));
                assert(all.take(i + 1).last() == all[i as int]);
                let add = if trim(all[i as int]).len() > 0 {
                    seq![(source, level, all[i as int])]
                } else {
                    seq![]
                };
                assert(entries_of(source, level, all.take(i + 1)) == prev + add);
                lemma_shown_text_concat(f, prev, add);
                if trim(all[i as int]).len() == 0 {
                    assert(prev + add =~= prev);
                    assert(shown_text(f, add) == Seq::<char>::empty());
                }
                assert(start + (prev + add) =~= (start + prev) + add);
            }
            shown = shown.concat(s.as_str());
            i += 1;
        }
        assert(all.take(all.len() as int) =~= all);
        shown
    }

    /// Logs the unfinished FFmpeg line, if any, at debug level; returns what the
    /// filter shows of it.
    pub fn finish(&mut self) -> (shown: String)
        ensures
            final(self).partial() == Seq::<char>::empty(),
            final(self).current_filter() == old(self).current_filter(),
            old(self).partial().len() == 0 ==> final(self).logged() == old(self).logged(),
            old(self).partial().len() > 0 && trim(old(self).partial()).len() > 0
                ==> final(self).logged() == old(self).logged().push(
                (MessageSource::Ffmpeg, MessageLevel::Debug, old(self).partial()),
            ),
    {
        if self.ffmpeg_partial.as_str().is_empty() {
            return String::new();
        }
        let mut line = String::new();
        std::mem::swap(&mut line, &mut self.ffmpeg_partial);
        self.push_line(MessageSource::Ffmpeg, MessageLevel::Debug, line)
    }

    /// Forgets every message and the unfinished line.
    pub fn clear(&mut self)
        ensures
            final(self).logged() == Seq::<(MessageSource, MessageLevel, Seq<char>)>::empty(),
            final(self).partial() == Seq::<char>::empty(),
            final(self).current_filter() == old(self).current_filter(),
    {
        self.entries = Vec::new();
        self.ffmpeg_partial = String::new();
        assert(self.logged() =~= Seq::<(MessageSource, MessageLevel, Seq<char>)>::empty());
    }

    /// The text the selected filter shows for every logged message.
    pub fn text(&self) -> (t: String)
        ensures
            t@ == shown_text(self.current_filter(), self.logged()),
    {
        let mut content = String::new();
        let mut i: usize = 0;
        let ghost ms = self.logged();
        assert(ms.take(0) =~= seq![]);
        while i < self.entries.len()
            invariant
                ms == message_views(self.entries@),
                i <= ms.len(),
                content@ == shown_text(self.filter, ms.take(i as int)),
            decreases ms.len() - i,
        {
            let m = &self.entries[i];
            proof {
                assert(ms.take(i + 1).drop_last() =~= ms.take(i as int));
                assert(ms.take(i + 1).last() == message_view(*m));
            }
            if self.filter.matches(m) {
                content = content.concat(self.filter.display_line(m).as_str());
            }
            i += 1;
        }
        assert(ms.take(ms.len() as int) =~= ms);
        content
    }

    /// Selects another filter and returns the text it shows.
    pub fn set_filter(&mut self, filter: Filter) -> (t: String)
        ensures
            final(self).current_filter() == filter,
            final(self).logged() == old(self).logged(),
            final(self).partial() == old(self).partial(),
            t@ == shown_text(filter, old(self).logged()),
    {
        self.filter = filter;
        self.text()
    }
}

/// The severity of a log record.
#[derive(Debug, Clone, Copy, PartialEq, Eq, Structural)]
pub enum RecordLevel {
    Error,
    Warn,
    Info,
    Debug,
    Trace,
}

/// Whether a record from `target` at `level` reaches the message log: debug or
/// more severe, from the core library, the runtime, or this program's own targets.
pub open spec fn record_accepted(level: RecordLevel, target: Seq<char>) -> bool {
    level != RecordLevel::Trace && (crate::text::has_prefix(target, "yog_core"@)
        || crate::text::has_prefix(target, "yog_runtime"@) || crate::text::has_prefix(target, "yog::"@))
}

/// The source a record's target is logged under.
pub open spec fn record_source(target: Seq<char>) -> MessageSource {
    if target == "yog::ffmpeg"@ {
        MessageSource::Ffmpeg
    } else if target == "yog::command"@ {
        MessageSource::Command
    } else {
        MessageSource::Program
    }
}

/// The message level of a record level.
pub open spec fn record_message_level(level: RecordLevel) -> MessageLevel {
    match level {
        RecordLevel::Error => MessageLevel::Error,
        RecordLevel::Warn => MessageLevel::Warning,
        RecordLevel::Info => MessageLevel::Info,
        RecordLevel::Debug | RecordLevel::Trace => MessageLevel::Debug,
    }
}

fn starts_with(s: &str, p: &str) -> (r: bool)
    ensures
        r == crate::text::has_prefix(s@, p@),
{
    let chars = chars_of(s);
    match crate::text::strip_prefix_chars(chars.as_slice(), p) {
        Some(_) => true,
        None => false,
    }
}

/// Whether a record from `target` at `level` reaches the message log.
pub fn accepts_record(level: RecordLevel, target: &str) -> (r: bool)
    ensures
        r == record_accepted(level, target@),
{
    level != RecordLevel::Trace && (starts_with(target, "yog_core") || starts_with(target, "yog_runtime")
        || starts_with(target, "yog::"))
}

/// The message a log record becomes, or `None` when the log does not take it.
pub fn message_for_record(level: RecordLevel, target: &str, text: String) -> (r: Option<NewMessage>)
    ensures
        !record_accepted(level, target@) ==> r is None,
        record_accepted(level, target@) ==> (r matches Some(m) && m.source == record_source(target@)
            && m.level == record_message_level(level) && m.text == text),
{
    if !accepts_record(level, target) {
        return None;
    }
    let source = if crate::text::str_eq(target, "yog::ffmpeg") {
        MessageSource::Ffmpeg
    } else if crate::text::str_eq(target, "yog::command") {
        MessageSource::Command
    } else {
        MessageSource::Program
    };
    let level = match level {
        RecordLevel::Error => MessageLevel::Error,
        RecordLevel::Warn => MessageLevel::Warning,
        RecordLevel::Info => MessageLevel::Info,
        RecordLevel::Debug | RecordLevel::Trace => MessageLevel::Debug,
    };
    Some(NewMessage { source, level, text })
}

} // verus!
