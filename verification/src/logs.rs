//! The scrollable log pane of the operator client.

use vstd::prelude::*;
use crate::text::{first_index, lemma_first_index, push_char, push_str};

verus! {

/// The most lines the pane keeps; older lines are dropped first.
pub const MAX_LOG_LINES: usize = 1000;

/// One retained log entry as the pane shows it.
#[derive(Debug, Clone)]
pub struct LogLine {
    pub timestamp: String,
    pub severity: String,
    pub message: String,
}

/// The text of one entry: `timestamp [severity] message`.
pub open spec fn entry_text(entry: LogLine) -> Seq<char> {
    entry.timestamp@ + " ["@ + entry.severity@ + "] "@ + entry.message@
}

/// A line without a trailing carriage return.
pub open spec fn strip_cr(line: Seq<char>) -> Seq<char> {
    if line.len() > 0 && line.last() == '\r' {
        line.drop_last()
    } else {
        line
    }
}

/// The lines of a text: split at LF, a CR before the LF dropped, no line after a final LF.
pub open spec fn lines_of(text: Seq<char>) -> Seq<Seq<char>>
    decreases text.len(),
{
    if text.len() == 0 {
        Seq::empty()
    } else {
        match first_index(text, '\n') {
            Some(k) => {
                if 0 <= k < text.len() {
                    seq![strip_cr(text.subrange(0, k))] + lines_of(text.subrange(k + 1, text.len() as int))
                } else {
                    Seq::empty()
                }
            },
            None => seq![text],
        }
    }
}

pub open spec fn strings_view(v: Seq<String>) -> Seq<Seq<char>> {
    v.map_values(|s: String| s@)
}

pub open spec fn saturating_sub(a: int, b: int) -> int {
    if a > b {
        a - b
    } else {
        0
    }
}

/// The lines that log entries show: the newest `MAX_LOG_LINES` of them, or a placeholder
/// when there are none.
pub open spec fn replaced_lines(entries: Seq<LogLine>) -> Seq<Seq<char>> {
    if entries.len() == 0 {
        seq!["No log entries available."@]
    } else {
        entries.subrange(saturating_sub(entries.len() as int, MAX_LOG_LINES as int), entries.len() as int).map_values(
            |e: LogLine| entry_text(e),
        )
    }
}

/// The lines that a notice shows: its lines, or one empty line when it has none.
pub open spec fn notice_lines(message: Seq<char>) -> Seq<Seq<char>> {
    if lines_of(message).len() > 0 {
        lines_of(message)
    } else {
        seq![Seq::<char>::empty()]
    }
}

/// The retained lines, the rows scrolled back from the end, and the visible rows.
pub struct LogStore {
    lines: Vec<String>,
    scrollback: usize,
    viewport_rows: usize,
}

impl LogStore {
    #[verifier::type_invariant]
    spec fn well_formed(&self) -> bool {
        &&& self.viewport_rows >= 1
        &&& self.lines@.len() >= 1
        &&& self.scrollback <= saturating_sub(self.lines@.len() as int, self.viewport_rows as int)
    }

    pub closed spec fn spec_lines(&self) -> Seq<Seq<char>> {
        strings_view(self.lines@)
    }

    pub closed spec fn spec_scrollback(&self) -> nat {
        self.scrollback as nat
    }

    pub closed spec fn spec_viewport(&self) -> nat {
        self.viewport_rows as nat
    }

    /// Rows that can be scrolled back at most.
    pub open spec fn spec_available(&self) -> int {
        saturating_sub(self.spec_lines().len() as int, self.spec_viewport() as int)
    }

    /// The first visible line.
    pub open spec fn spec_scroll(&self) -> int {
        saturating_sub(self.spec_available(), self.spec_scrollback() as int)
    }

    pub fn new() -> (r: LogStore)
        ensures
            r.spec_lines() == seq!["Logs will appear here when Cadder is running."@],
            r.spec_scrollback() == 0,
            r.spec_viewport() == 1,
    {
        let mut lines: Vec<String> = Vec::new();
        lines.push("Logs will appear here when Cadder is running.".to_owned());
        proof {
            assert(strings_view(lines@) =~= seq!["Logs will appear here when Cadder is running."@]);
        }
        LogStore { lines, scrollback: 0, viewport_rows: 1 }
    }

    /// Shows the newest `MAX_LOG_LINES` entries, or a placeholder when there are none, from the
    /// newest row.
    pub fn replace(&mut self, entries: Vec<LogLine>)
        ensures
            final(self).spec_lines() == replaced_lines(entries@),
            entries@.len() == 0 ==> final(self).spec_lines() == seq!["No log entries available."@],
            entries@.len() > 0 ==> final(self).spec_lines() == entries@.subrange(
                saturating_sub(entries@.len() as int, MAX_LOG_LINES as int),
                entries@.len() as int,
            ).map_values(|e: LogLine| entry_text(e)),
            final(self).spec_scrollback() == 0,
            final(self).spec_viewport() == old(self).spec_viewport(),
    {
        proof {
            use_type_invariant(&*self);
        }
        let n = entries.len();
        let start: usize = if n > MAX_LOG_LINES {
            n - MAX_LOG_LINES
        } else {
            0
        };
        let mut lines: Vec<String> = Vec::new();
        if n == 0 {
            lines.push("No log entries available.".to_owned());
            proof {
                assert(strings_view(lines@) =~= seq!["No log entries available."@]);
            }
        } else {
            let mut i: usize = start;
            while i < n
                invariant
                    start <= i <= n,
                    n == entries@.len(),
                    strings_view(lines@) == entries@.subrange(start as int, i as int).map_values(
                        |e: LogLine| entry_text(e),
                    ),
                    lines@.len() == i - start,
                decreases n - i,
            {
                let entry = &entries[i];
                let mut text = entry.timestamp.clone();
                push_str(&mut text, " [");
                push_str(&mut text, entry.severity.as_str());
                push_str(&mut text, "] ");
                push_str(&mut text, entry.message.as_str());
                assert(text@ == entry_text(entries@[i as int]));
                let ghost before = strings_view(lines@);
                lines.push(text);
                proof {
                    assert(strings_view(lines@) =~= before.push(entry_text(entries@[i as int])));
                    assert(entries@.subrange(start as int, i + 1) =~= entries@.subrange(start as int, i as int).push(entries@[i as int]));
                    assert(strings_view(lines@) =~= entries@.subrange(start as int, i + 1).map_values(
                        |e: LogLine| entry_text(e),
                    ));
                }
                i = i + 1;
            }
        }
        let viewport_rows = self.viewport_rows;
        *self = LogStore { lines, scrollback: 0, viewport_rows };
    }

    /// Shows the lines of `message`; an empty message shows one empty line.
    pub fn set_notice(&mut self, message: &str)
        ensures
            final(self).spec_lines() == notice_lines(message@),
            lines_of(message@).len() > 0 ==> final(self).spec_lines() == lines_of(message@),
            lines_of(message@).len() == 0 ==> final(self).spec_lines() == seq![Seq::<char>::empty()],
            final(self).spec_scrollback() == 0,
            final(self).spec_viewport() == old(self).spec_viewport(),
    {
        proof {
            use_type_invariant(&*self);
        }
        let mut lines = split_lines(message);
        if lines.len() == 0 {
            lines.push(String::new());
            proof {
                assert(strings_view(lines@) =~= seq![Seq::<char>::empty()]);
            }
        }
        let viewport_rows = self.viewport_rows;
        *self = LogStore { lines, scrollback: 0, viewport_rows };
    }

    /// Sets the number of visible rows (at least one) and keeps the scroll position in range.
    pub fn set_viewport(&mut self, rows: u16)
        ensures
            final(self).spec_viewport() == if rows >= 1 { rows as nat } else { 1 },
            final(self).spec_lines() == old(self).spec_lines(),
            final(self).spec_scrollback() == if old(self).spec_scrollback()
                <= final(self).spec_available() {
                old(self).spec_scrollback() as int
            } else {
                final(self).spec_available()
            },
    {
        let rows: usize = if rows >= 1 {
            rows as usize
        } else {
            1
        };
        let available = if self.lines.len() > rows {
            self.lines.len() - rows
        } else {
            0
        };
        let scrollback = if self.scrollback <= available {
            self.scrollback
        } else {
            available
        };
        proof {
            use_type_invariant(&*self);
        }
        self.scrollback = scrollback;
        self.viewport_rows = rows;
    }

    pub fn lines(&self) -> (r: &[String])
        ensures
            strings_view(r@) == self.spec_lines(),
    {
        self.lines.as_slice()
    }

    /// The first visible line: the newest rows stay visible unless scrolled back.
    pub fn scroll(&self) -> (r: usize)
        ensures
            r == self.spec_scroll(),
            r == self.spec_available() - self.spec_scrollback(),
            self.spec_viewport() >= 1,
            r + self.spec_viewport() <= self.spec_lines().len() || r == 0,
    {
        proof {
            use_type_invariant(self);
        }
        let available = self.available_scrollback();
        if available > self.scrollback {
            available - self.scrollback
        } else {
            0
        }
    }

    /// Scrolls back by `amount` rows, no further than the oldest line.
    pub fn scroll_up(&mut self, amount: usize)
        ensures
            final(self).spec_lines() == old(self).spec_lines(),
            final(self).spec_viewport() == old(self).spec_viewport(),
            final(self).spec_scrollback() == if old(self).spec_scrollback() + amount
                <= old(self).spec_available() {
                old(self).spec_scrollback() + amount
            } else {
                old(self).spec_available()
            },
    {
        proof {
            use_type_invariant(&*self);
        }
        let available = self.available_scrollback();
        let scrollback = if amount <= available - self.scrollback {
            self.scrollback + amount
        } else {
            available
        };
        self.scrollback = scrollback;
    }

    /// Scrolls forward by `amount` rows, no further than the newest line.
    pub fn scroll_down(&mut self, amount: usize)
        ensures
            final(self).spec_lines() == old(self).spec_lines(),
            final(self).spec_viewport() == old(self).spec_viewport(),
            final(self).spec_scrollback() == saturating_sub(
                old(self).spec_scrollback() as int,
                amount as int,
            ),
    {
        proof {
            use_type_invariant(&*self);
        }
        let scrollback = if self.scrollback > amount {
            self.scrollback - amount
        } else {
            0
        };
        self.scrollback = scrollback;
    }

    fn available_scrollback(&self) -> (r: usize)
        ensures
            r == self.spec_available(),
    {
        if self.lines.len() > self.viewport_rows {
            self.lines.len() - self.viewport_rows
        } else {
            0
        }
    }
}

/// The lines of a text, as `str::lines` yields them.
pub fn split_lines(text: &str) -> (r: Vec<String>)
    ensures
        strings_view(r@) == lines_of(text@),
{
    let chars = crate::text::to_chars(text);
    let mut out: Vec<String> = Vec::new();
    let mut current = String::new();
    let mut i: usize = 0;
    proof {
        assert(current@ + chars@.subrange(0, chars@.len() as int) =~= text@);
        assert(strings_view(out@) =~= Seq::<Seq<char>>::empty());
        assert(strings_view(out@) + lines_of(text@) =~= lines_of(text@));
    }
    while i < chars.len()
        invariant
            i <= chars.len(),
            chars@ == text@,
            !current@.contains('\n'),
            strings_view(out@) + lines_of(current@ + chars@.subrange(i as int, chars@.len() as int))
                == lines_of(text@),
        decreases chars.len() - i,
    {
        let c = chars[i];
        let ghost rest = chars@.subrange(i + 1, chars@.len() as int);
        let ghost before = strings_view(out@);
        assert(chars@.subrange(i as int, chars@.len() as int) =~= seq![c] + rest);
        if c == '\n' {
            proof {
                assert(current@ + (seq![c] + rest) =~= current@ + seq!['\n'] + rest);
                lemma_lines_of_break(current@, rest);
            }
            let line = strip_trailing_cr(&current);
            out.push(line);
            proof {
                assert(strings_view(out@) =~= before.push(strip_cr(current@)));
            }
            current = String::new();
            proof {
                assert(current@ + rest =~= rest);
                assert(before.push(strip_cr(current@)) + lines_of(rest) =~= before + (seq![
                    strip_cr(current@),
                ] + lines_of(rest)));
            }
        } else {
            let ghost old_current = current@;
            push_char(&mut current, c);
            proof {
                assert(current@ + rest =~= old_current + (seq![c] + rest));
                assert forall|j: int| 0 <= j < current@.len() implies current@[j] != '\n' by {
                    if j < old_current.len() {
                        assert(current@[j] == old_current[j]);
                    }
                }
            }
        }
        i = i + 1;
    }
    proof {
        assert(current@ + chars@.subrange(i as int, chars@.len() as int) =~= current@);
        lemma_lines_of_no_break(current@);
    }
    if !current.as_str().is_empty() {
        let ghost before = strings_view(out@);
        out.push(current);
        proof {
            assert(strings_view(out@) =~= before.push(current@));
            assert(before + seq![current@] =~= before.push(current@));
        }
    } else {
        proof {
            assert(strings_view(out@) + Seq::<Seq<char>>::empty() =~= strings_view(out@));
        }
    }
    out
}

fn strip_trailing_cr(line: &String) -> (r: String)
    ensures
        r@ == strip_cr(line@),
{
    let chars = crate::text::to_chars(line.as_str());
    if chars.len() > 0 && chars[chars.len() - 1] == '\r' {
        let kept = crate::text::slice_chars(&chars, 0, chars.len() - 1);
        proof {
            assert(kept@ =~= line@.drop_last());
        }
        crate::text::from_chars(kept.as_slice())
    } else {
        crate::text::from_chars(chars.as_slice())
    }
}

proof fn lemma_lines_of_break(current: Seq<char>, rest: Seq<char>)
    requires
        !current.contains('\n'),
    ensures
        lines_of(current + seq!['\n'] + rest) == seq![strip_cr(current)] + lines_of(rest),
{
    let all = current + seq!['\n'] + rest;
    assert forall|j: int| 0 <= j < current.len() implies all[j] != '\n' by {
        assert(all[j] == current[j]);
    }
    assert(all[current.len() as int] == '\n');
    crate::text::lemma_first_index_unique(all, '\n', current.len() as int);
    assert(all.subrange(0, current.len() as int) =~= current);
    assert(all.subrange(current.len() as int + 1, all.len() as int) =~= rest);
}

proof fn lemma_lines_of_no_break(current: Seq<char>)
    requires
        !current.contains('\n'),
    ensures
        current.len() == 0 ==> lines_of(current) == Seq::<Seq<char>>::empty(),
        current.len() > 0 ==> lines_of(current) == seq![current],
{
    lemma_first_index(current, '\n');
    if first_index(current, '\n') is Some {
        let k = first_index(current, '\n')->0;
        assert(current[k] == '\n');
        assert(current.contains('\n'));
    }
}

} // verus!
