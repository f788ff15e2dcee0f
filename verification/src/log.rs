//! The rolling log: the most recent messages, oldest first, never more than
//! [`LOG_CAPACITY`] of them.

use vstd::prelude::*;

verus! {

/// The number of lines that the log keeps.
pub const LOG_CAPACITY: usize = 200;

/// One line of the log.
#[derive(Debug)]
pub struct LogEntry {
    /// The time of day at which the line was written.
    pub stamp: String,
    /// Who speaks: a device's label, or the application.
    pub source: String,
    /// What is said.
    pub text: String,
}

/// A log line as character sequences.
pub struct LogLine {
    pub stamp: Seq<char>,
    pub source: Seq<char>,
    pub text: Seq<char>,
}

/// A log line without its time: who said what.
pub struct Note {
    pub source: Seq<char>,
    pub text: Seq<char>,
}

impl View for LogEntry {
    type V = LogLine;

    open spec fn view(&self) -> LogLine {
        LogLine { stamp: self.stamp@, source: self.source@, text: self.text@ }
    }
}

/// The line as it is shown: the time and the source in square brackets, then the text.
pub open spec fn rendered(line: LogLine) -> Seq<char> {
    "["@ + line.stamp + "] ["@ + line.source + "] "@ + line.text
}

/// The last `n` items of `s`, or all of `s` where it has no more than `n`.
pub open spec fn last_n<T>(s: Seq<T>, n: nat) -> Seq<T> {
    if s.len() > n {
        s.skip(s.len() - n)
    } else {
        s
    }
}

/// The lines without their times.
pub open spec fn notes_of(lines: Seq<LogLine>) -> Seq<Note> {
    Seq::new(lines.len(), |i: int| Note { source: lines[i].source, text: lines[i].text })
}

/// The log after `notes` were written to it one by one, each pushing out
/// the oldest line once the log is full.
pub open spec fn written<T>(log: Seq<T>, notes: Seq<T>) -> Seq<T>
    decreases notes.len(),
{
    if notes.len() == 0 {
        log
    } else {
        last_n(written(log, notes.drop_last()).push(notes.last()), LOG_CAPACITY as nat)
    }
}

/// Writing lines one by one to a log that is within its capacity leaves the
/// most recent [`LOG_CAPACITY`] of all lines, old and new, in their order.
pub proof fn law_log_keeps_latest<T>(log: Seq<T>, notes: Seq<T>)
    requires
        log.len() <= LOG_CAPACITY,
    ensures
        written(log, notes) == last_n(log + notes, LOG_CAPACITY as nat),
        written(log, notes).len() <= LOG_CAPACITY,
    decreases notes.len(),
{
    if notes.len() == 0 {
        assert(log + notes =~= log);
    } else {
        law_log_keeps_latest(log, notes.drop_last());
        assert(log + notes =~= (log + notes.drop_last()).push(notes.last()));
        assert(written(log, notes) =~= last_n(log + notes, LOG_CAPACITY as nat));
    }
}

/// Writing one more note is one more push.
pub proof fn lemma_written_push<T>(log: Seq<T>, notes: Seq<T>, note: T)
    ensures
        written(log, notes.push(note)) == last_n(
            written(log, notes).push(note),
            LOG_CAPACITY as nat,
        ),
{
    assert(notes.push(note).drop_last() =~= notes);
}

/// Writing `first` and then `second` is writing `first + second`.
pub proof fn lemma_written_concat<T>(log: Seq<T>, first: Seq<T>, second: Seq<T>)
    ensures
        written(written(log, first), second) == written(log, first + second),
    decreases second.len(),
{
    if second.len() == 0 {
        assert(first + second =~= first);
    } else {
        lemma_written_concat(log, first, second.drop_last());
        assert((first + second).drop_last() =~= first + second.drop_last());
        assert((first + second).last() == second.last());
    }
}

/// The line that says `note` at the time `stamp`.
pub open spec fn stamped(stamp: Seq<char>, note: Note) -> LogLine {
    LogLine { stamp, source: note.source, text: note.text }
}

/// `after` is `before` with one line written to it for each of `notes`, in
/// order, each with some time of its own. The lines of `before` that stay
/// are the same lines, times included.
pub open spec fn logged(before: Seq<LogLine>, after: Seq<LogLine>, notes: Seq<Note>) -> bool {
    exists|lines: Seq<LogLine>|
        notes_of(lines) == notes && after == #[trigger] written(before, lines)
}

/// Nothing written leaves the log as it was.
pub proof fn lemma_logged_nothing(log: Seq<LogLine>)
    ensures
        logged(log, log, Seq::empty()),
{
    let lines = Seq::<LogLine>::empty();
    assert(notes_of(lines) =~= Seq::<Note>::empty());
    assert(log == written(log, lines));
}

/// One line written is one note logged.
pub proof fn lemma_logged_line(log: Seq<LogLine>, line: LogLine)
    ensures
        logged(
            log,
            last_n(log.push(line), LOG_CAPACITY as nat),
            Seq::empty().push(Note { source: line.source, text: line.text }),
        ),
{
    let lines = Seq::<LogLine>::empty().push(line);
    lemma_written_push(log, Seq::empty(), line);
    assert(notes_of(lines) =~= Seq::empty().push(Note { source: line.source, text: line.text }));
    assert(last_n(log.push(line), LOG_CAPACITY as nat) == written(log, lines));
}

/// What is logged first and what is logged next is logged together.
pub proof fn lemma_logged_then(
    a: Seq<LogLine>,
    b: Seq<LogLine>,
    c: Seq<LogLine>,
    first: Seq<Note>,
    next: Seq<Note>,
)
    requires
        logged(a, b, first),
        logged(b, c, next),
    ensures
        logged(a, c, first + next),
{
    let l1 = choose|l: Seq<LogLine>| notes_of(l) == first && b == #[trigger] written(a, l);
    let l2 = choose|l: Seq<LogLine>| notes_of(l) == next && c == #[trigger] written(b, l);
    lemma_written_concat(a, l1, l2);
    assert(notes_of(l1 + l2) =~= first + next);
    assert(c == written(a, l1 + l2));
}

/// Leaving out the times of what was written is writing the notes.
pub proof fn lemma_notes_of_written(log: Seq<LogLine>, lines: Seq<LogLine>)
    ensures
        notes_of(written(log, lines)) == written(notes_of(log), notes_of(lines)),
    decreases lines.len(),
{
    if lines.len() == 0 {
        assert(notes_of(lines) =~= Seq::<Note>::empty());
    } else {
        let earlier = written(log, lines.drop_last());
        lemma_notes_of_written(log, lines.drop_last());
        assert(notes_of(lines).drop_last() =~= notes_of(lines.drop_last()));
        assert(notes_of(earlier.push(lines.last())) =~= notes_of(earlier).push(
            notes_of(lines).last(),
        ));
        assert(notes_of(last_n(earlier.push(lines.last()), LOG_CAPACITY as nat)) =~= last_n(
            notes_of(earlier.push(lines.last())),
            LOG_CAPACITY as nat,
        ));
    }
}

/// What is logged shows in the notes.
pub proof fn lemma_logged_notes(before: Seq<LogLine>, after: Seq<LogLine>, notes: Seq<Note>)
    requires
        logged(before, after, notes),
    ensures
        notes_of(after) == written(notes_of(before), notes),
{
    let lines = choose|l: Seq<LogLine>|
        notes_of(l) == notes && after == #[trigger] written(before, l);
    lemma_notes_of_written(before, lines);
}

/// The bounded log of timestamped messages.
#[derive(Debug)]
pub struct RollingLog {
    entries: Vec<LogEntry>,
}

impl View for RollingLog {
    type V = Seq<LogLine>;

    closed spec fn view(&self) -> Seq<LogLine> {
        Seq::new(self.entries@.len(), |i: int| self.entries@[i]@)
    }
}

/// The format of a line's time: hours, minutes, seconds and milliseconds.
pub open spec fn stamp_format() -> Seq<char> {
    "%H:%M:%S%.3f"@
}

/// Asks `chrono::Local::now` for the local time and has chrono write it in
/// the given format. The text is the time of day: nothing is promised of it.
/// Only the log's own format is let in, which chrono's formatter accepts. As
/// chrono does, this relies on a system clock that is not set before 1970.
#[verifier::external_body]
fn local_time_text(format: &str) -> (stamp: String)
    requires
        format@ == stamp_format(),
{
    chrono::Local::now().format(format).to_string()
}

impl RollingLog {
    /// The log is within its capacity.
    pub open spec fn wf(&self) -> bool {
        self@.len() <= LOG_CAPACITY
    }

    /// The lines without their times.
    pub open spec fn notes(&self) -> Seq<Note> {
        notes_of(self@)
    }

    /// An empty log.
    pub fn new() -> (log: RollingLog)
        ensures
            log@ == Seq::<LogLine>::empty(),
            log.wf(),
    {
        let log = RollingLog { entries: Vec::new() };
        assert(log@ =~= Seq::<LogLine>::empty());
        log
    }

    /// The number of lines held.
    pub fn len(&self) -> (n: usize)
        ensures
            n == self@.len(),
    {
        self.entries.len()
    }

    /// The line at `index`, counted from the oldest, or nothing where the log is shorter.
    pub fn entry(&self, index: usize) -> (entry: Option<&LogEntry>)
        ensures
            index < self@.len() ==> entry is Some && entry->0@ == self@[index as int],
            index >= self@.len() ==> entry is None,
    {
        if index < self.entries.len() {
            Some(&self.entries[index])
        } else {
            None
        }
    }

    /// The line at `index` as it is shown, or nothing where the log is shorter.
    pub fn line(&self, index: usize) -> (shown: Option<String>)
        ensures
            index < self@.len() ==> shown is Some && shown->0@ == rendered(self@[index as int]),
            index >= self@.len() ==> shown is None,
    {
        if index < self.entries.len() {
            let entry = &self.entries[index];
            let mut shown = String::from_str("[");
            shown.append(entry.stamp.as_str());
            shown.append("] [");
            shown.append(entry.source.as_str());
            shown.append("] ");
            shown.append(entry.text.as_str());
            Some(shown)
        } else {
            None
        }
    }

    /// Writes a line with the given time, and drops the oldest line where
    /// the log would grow past its capacity.
    pub fn push_stamped(&mut self, stamp: String, source: &str, text: String)
        requires
            old(self).wf(),
        ensures
            final(self)@ == last_n(
                old(self)@.push(LogLine { stamp: stamp@, source: source@, text: text@ }),
                LOG_CAPACITY as nat,
            ),
            final(self).wf(),
    {
        let entry = LogEntry { stamp, source: String::from_str(source), text };
        self.entries.push(entry);
        if self.entries.len() > LOG_CAPACITY {
            self.entries.remove(0);
        }
        assert(final(self)@ =~= last_n(
            old(self)@.push(LogLine { stamp: stamp@, source: source@, text: text@ }),
            LOG_CAPACITY as nat,
        ));
    }

    /// Writes a line with the present time of day. Whatever the clock says,
    /// the log then holds what it held before, each line with the time it
    /// had, and the new line with some time, cut to its capacity from the
    /// oldest end.
    pub fn push(&mut self, source: &str, text: String)
        requires
            old(self).wf(),
        ensures
            exists|stamp: Seq<char>|
                final(self)@ == last_n(
                    old(self)@.push(
                        #[trigger] stamped(stamp, Note { source: source@, text: text@ }),
                    ),
                    LOG_CAPACITY as nat,
                ),
            logged(
                old(self)@,
                final(self)@,
                Seq::empty().push(Note { source: source@, text: text@ }),
            ),
            final(self).notes() == last_n(
                old(self).notes().push(Note { source: source@, text: text@ }),
                LOG_CAPACITY as nat,
            ),
            final(self).wf(),
    {
        let stamp = local_time_text("%H:%M:%S%.3f");
        self.push_stamped(stamp, source, text);
        proof {
            let line = LogLine { stamp: stamp@, source: source@, text: text@ };
            assert(line == stamped(stamp@, Note { source: source@, text: text@ }));
            assert(final(self)@ == last_n(old(self)@.push(line), LOG_CAPACITY as nat));
            lemma_logged_line(old(self)@, line);
        }
        assert(final(self).notes() =~= last_n(
            old(self).notes().push(Note { source: source@, text: text@ }),
            LOG_CAPACITY as nat,
        ));
    }
}

} // verus!
