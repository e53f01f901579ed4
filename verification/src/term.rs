//! Line accounting for a terminal "page".
//!
//! A menu page writes to the screen below a persistent scrollback log.  So
//! that the page can later erase exactly its own output — and nothing of the
//! log — [`TrackedTerm`] counts the lines the page has written
//! (`lines_written`) and how many of them currently sit above the cursor
//! because of explicit upward movement (`net_up`).  Every operation returns
//! the raw terminal action it calls for (lines to print, amounts to move or
//! erase); the caller that owns the real terminal performs them in order.

use vstd::prelude::*;

verus! {

/// The abstract state of the tracker: how many lines the current page has
/// written, and how many of them are above the cursor due to upward movement.
pub ghost struct TermView {
    pub lines_written: int,
    pub net_up: int,
}

impl TermView {
    /// The tracker never claims to have moved further up than it has written.
    pub open spec fn wf(self) -> bool {
        0 <= self.net_up <= self.lines_written
    }

    /// The tracked lines still below or at the cursor, i.e. those a plain
    /// "erase the last n lines" can reach without touching the log.
    pub open spec fn visible(self) -> int {
        self.lines_written - self.net_up
    }
}

/// State after moving the cursor up by `n`: the displacement grows by `n`,
/// clamped so that it never exceeds the number of written lines (moving
/// above the page would run into the persistent log).
pub open spec fn up_step(v: TermView, n: int) -> TermView {
    if v.net_up + n <= v.lines_written {
        (TermView { lines_written: v.lines_written, net_up: v.net_up + n })
    } else {
        (TermView { lines_written: v.lines_written, net_up: v.lines_written })
    }
}

/// State after moving the cursor down by `n`: first consume accumulated
/// upward displacement; moving past the bottom of the tracked region counts
/// the shortfall as freshly created blank tracked lines.
pub open spec fn down_step(v: TermView, n: int) -> TermView {
    if n <= v.net_up {
        (TermView { lines_written: v.lines_written, net_up: v.net_up - n })
    } else {
        (TermView { lines_written: v.lines_written + (n - v.net_up), net_up: 0 })
    }
}

/// How many tracked lines the cursor moves past the bottom of the page when
/// moving down by `n`; those become new tracked lines.
pub open spec fn down_growth(v: TermView, n: int) -> int {
    if n <= v.net_up {
        0
    } else {
        n - v.net_up
    }
}

/// How many lines a request to clear `n` lines actually erases: clamped to
/// the still-visible tracked remainder, so the log is never erased into.
pub open spec fn clear_amount(v: TermView, n: int) -> int {
    if n <= v.visible() {
        n
    } else {
        v.visible()
    }
}

/// State after clearing the last `n` visible tracked lines: the erased lines
/// are consumed, i.e. counted into the displacement.
pub open spec fn clear_step(v: TermView, n: int) -> TermView {
    TermView { lines_written: v.lines_written, net_up: v.net_up + clear_amount(v, n) }
}

/// How many lines a reset erases: every tracked line, plus the one prompt
/// line conventionally left behind by the selection widget just below the
/// tracked region.
pub open spec fn reset_erase(v: TermView) -> int {
    v.lines_written + 1
}

/// The raw terminal actions a reset calls for, in order: move the cursor
/// down by `move_down`, then erase the last `erase` lines.
pub struct ResetAction {
    pub move_down: usize,
    pub erase: usize,
}

/// Counts the lines of the current page so that it can be erased exactly,
/// leaving the scrollback log above it untouched.
pub struct TrackedTerm {
    lines_written: usize,
    net_up: usize,
}

impl View for TrackedTerm {
    type V = TermView;

    closed spec fn view(&self) -> TermView {
        TermView { lines_written: self.lines_written as int, net_up: self.net_up as int }
    }
}

impl TrackedTerm {
    /// A fresh tracker: nothing written, no displacement.
    pub fn new() -> (t: TrackedTerm)
        ensures
            t@.lines_written == 0,
            t@.net_up == 0,
    {
        TrackedTerm { lines_written: 0, net_up: 0 }
    }

    /// The number of lines the current page has written.
    pub fn lines_written(&self) -> (n: usize)
        ensures
            n == self@.lines_written,
    {
        self.lines_written
    }

    /// The accumulated, not yet consumed upward cursor displacement.
    pub fn net_up_displacement(&self) -> (n: usize)
        ensures
            n == self@.net_up,
    {
        self.net_up
    }

    /// Restores the cursor to the top of the page and erases every tracked
    /// line, plus the widget's prompt line below them.  The caller must move
    /// the real cursor down by `act.move_down`, then erase the last
    /// `act.erase` lines.  The log above the page is untouched: only the
    /// page's own lines and the prompt line below them are erased.
    pub fn reset(&mut self) -> (act: ResetAction)
        requires
            old(self)@.wf(),
            old(self)@.lines_written < usize::MAX,
        ensures
            final(self)@.lines_written == 0,
            final(self)@.net_up == 0,
            act.move_down == old(self)@.net_up,
            act.erase == reset_erase(old(self)@),
    {
        let down = self.net_up;
        self.net_up = 0;
        let erase = self.lines_written + 1;
        self.lines_written = 0;
        ResetAction { move_down: down, erase }
    }

    /// Erases the bottom `n` still-visible tracked lines, clamped so that
    /// the erase never reaches the persistent log.  Returns how many lines
    /// the real terminal must erase.
    pub fn clear_last_lines(&mut self, n: usize) -> (erased: usize)
        requires
            old(self)@.wf(),
        ensures
            final(self)@.wf(),
            final(self)@ == clear_step(old(self)@, n as int),
            erased == clear_amount(old(self)@, n as int),
            erased <= old(self)@.visible(),
            final(self)@.lines_written == old(self)@.lines_written,
    {
        let visible = self.lines_written - self.net_up;
        if n > visible {
            self.net_up = self.net_up + visible;
            visible
        } else {
            self.net_up = self.net_up + n;
            n
        }
    }

    /// Moves the cursor up by `n`, clamped to the top of the tracked page so
    /// that the cursor never enters the log.  Returns how far the real
    /// cursor must move up.
    pub fn move_cursor_up(&mut self, n: usize) -> (moved: usize)
        requires
            old(self)@.wf(),
        ensures
            final(self)@.wf(),
            final(self)@ == up_step(old(self)@, n as int),
            moved == final(self)@.net_up - old(self)@.net_up,
            moved <= n,
            final(self)@.lines_written == old(self)@.lines_written,
    {
        let room = self.lines_written - self.net_up;
        if n > room {
            self.net_up = self.lines_written;
            room
        } else {
            self.net_up = self.net_up + n;
            n
        }
    }

    /// Moves the cursor down by `n` (the real cursor moves by exactly `n`).
    /// Downward movement first consumes the accumulated displacement; any
    /// shortfall counts as new blank tracked lines below the page.
    pub fn move_cursor_down(&mut self, n: usize)
        requires
            old(self)@.wf(),
            old(self)@.lines_written + down_growth(old(self)@, n as int) <= usize::MAX,
        ensures
            final(self)@.wf(),
            final(self)@ == down_step(old(self)@, n as int),
    {
        if n <= self.net_up {
            self.net_up = self.net_up - n;
        } else {
            self.lines_written = self.lines_written + (n - self.net_up);
            self.net_up = 0;
        }
    }
}

/// Law: clearing never erases more than the still-visible tracked remainder,
/// and never shrinks the set of lines attributed to the page — so the
/// persistent log above the page is never erased into.
pub proof fn lemma_clear_spares_log(v: TermView, n: int)
    requires
        v.wf(),
        n >= 0,
    ensures
        clear_amount(v, n) <= v.visible(),
        clear_step(v, n).lines_written == v.lines_written,
        clear_step(v, n).wf(),
{
}

/// Law: moving up by `n` and then immediately down by `n` returns the
/// displacement to its prior value and changes no tracked-line count,
/// provided the upward move stays within the written page (beyond it the
/// upward move is clamped).
pub proof fn lemma_up_then_down(v: TermView, n: int)
    requires
        v.wf(),
        n >= 0,
        v.net_up + n <= v.lines_written,
    ensures
        down_step(up_step(v, n), n) == v,
{
}

/// The lines of `s` as a terminal prints them: split at `\n` boundaries,
/// where a `\r` directly before the `\n` belongs to the boundary and is
/// dropped, and a boundary at the very end opens no further line.
pub open spec fn lines_of(s: Seq<char>) -> Seq<Seq<char>>
    decreases s.len(),
{
    if s.len() == 0 {
        Seq::empty()
    } else if s[0] == '\n' {
        seq![Seq::<char>::empty()] + lines_of(s.skip(1))
    } else if s[0] == '\r' && s.len() >= 2 && s[1] == '\n' {
        seq![Seq::<char>::empty()] + lines_of(s.skip(2))
    } else {
        glue(seq![s[0]], lines_of(s.skip(1)))
    }
}

/// Prepends `cur`, an open line still being assembled, onto the first of the
/// lines in `rest`; an empty `cur` before no further lines opens no line.
pub open spec fn glue(cur: Seq<char>, rest: Seq<Seq<char>>) -> Seq<Seq<char>> {
    if rest.len() == 0 {
        if cur.len() == 0 {
            Seq::empty()
        } else {
            seq![cur]
        }
    } else {
        rest.update(0, cur + rest[0])
    }
}

proof fn lemma_glue_push(cur: Seq<char>, c: char, rest: Seq<Seq<char>>)
    ensures
        glue(cur, glue(seq![c], rest)) == glue(cur.push(c), rest),
{
    if rest.len() == 0 {
        assert(glue(cur, glue(seq![c], rest)) =~~= glue(cur.push(c), rest));
    } else {
        assert(cur + (seq![c] + rest[0]) =~= cur.push(c) + rest[0]);
        assert(glue(cur, glue(seq![c], rest)) =~~= glue(cur.push(c), rest));
    }
}

proof fn lemma_glue_empty(rest: Seq<Seq<char>>)
    ensures
        glue(Seq::<char>::empty(), rest) == rest,
{
    if rest.len() == 0 {
        assert(glue(Seq::<char>::empty(), rest) =~~= rest);
    } else {
        assert(Seq::<char>::empty() + rest[0] =~= rest[0]);
        assert(glue(Seq::<char>::empty(), rest) =~~= rest);
    }
}

proof fn lemma_glue_close(cur: Seq<char>, rest: Seq<Seq<char>>)
    ensures
        glue(cur, seq![Seq::<char>::empty()] + rest) == seq![cur] + rest,
{
    assert(glue(cur, seq![Seq::<char>::empty()] + rest) =~~= seq![cur] + rest);
}

/// The single line that `"\n"` prints: one empty line.
pub proof fn lemma_lines_of_newline()
    ensures
        lines_of("\n"@) == seq![Seq::<char>::empty()],
{
    reveal_strlit("\n");
    assert("\n"@.len() == 1);
    assert("\n"@[0] == '\n');
    assert("\n"@.skip(1).len() == 0);
    assert(lines_of("\n"@.skip(1)) == Seq::<Seq<char>>::empty());
    assert(lines_of("\n"@) == seq![Seq::<char>::empty()] + lines_of("\n"@.skip(1)));
    assert(lines_of("\n"@) =~~= seq![Seq::<char>::empty()]);
}

/// Splits `s` into the lines a terminal would print for it, exactly as
/// [`lines_of`] describes.
fn split_lines(s: &str) -> (out: Vec<String>)
    ensures
        out.deep_view() == lines_of(s@),
{
    let n = s.unicode_len();
    let mut out: Vec<String> = Vec::new();
    let mut start: usize = 0;
    let mut i: usize = 0;
    proof {
        assert(s@.subrange(0, 0) =~= Seq::<char>::empty());
        assert(s@.skip(0) =~= s@);
        lemma_glue_empty(lines_of(s@));
        assert(lines_of(s@) =~~= out.deep_view() + glue(
            s@.subrange(0, 0),
            lines_of(s@.skip(0)),
        ));
    }
    while i < n
        invariant
            start <= i <= n,
            n == s@.len(),
            lines_of(s@) == out.deep_view() + glue(
                s@.subrange(start as int, i as int),
                lines_of(s@.skip(i as int)),
            ),
        decreases n - i,
    {
        let ghost cur = s@.subrange(start as int, i as int);
        let ghost suffix = s@.skip(i as int);
        proof {
            assert(suffix.len() > 0);
            assert(suffix[0] == s@[i as int]);
        }
        let c = s.get_char(i);
        if c == '\n' {
            out.push(String::from_str(s.substring_char(start, i)));
            proof {
                assert(suffix.skip(1) =~= s@.skip(i + 1));
                lemma_glue_close(cur, lines_of(s@.skip(i + 1)));
                assert(out.deep_view() =~~= out.deep_view().take(out.deep_view().len() - 1).push(
                    cur,
                ));
            }
            i = i + 1;
            start = i;
            proof {
                assert(s@.subrange(start as int, i as int) =~= Seq::<char>::empty());
                assert(lines_of(s@) =~~= out.deep_view() + glue(
                    s@.subrange(start as int, i as int),
                    lines_of(s@.skip(i as int)),
                ));
            }
        } else if c == '\r' && i + 1 < n && s.get_char(i + 1) == '\n' {
            proof {
                assert(suffix.len() >= 2);
                assert(suffix[1] == s@[i + 1]);
            }
            out.push(String::from_str(s.substring_char(start, i)));
            proof {
                assert(suffix.skip(2) =~= s@.skip(i + 2));
                lemma_glue_close(cur, lines_of(s@.skip(i + 2)));
                assert(out.deep_view() =~~= out.deep_view().take(out.deep_view().len() - 1).push(
                    cur,
                ));
            }
            i = i + 2;
            start = i;
            proof {
                assert(s@.subrange(start as int, i as int) =~= Seq::<char>::empty());
                assert(lines_of(s@) =~~= out.deep_view() + glue(
                    s@.subrange(start as int, i as int),
                    lines_of(s@.skip(i as int)),
                ));
            }
        } else {
            proof {
                assert(suffix.skip(1) =~= s@.skip(i + 1));
                assert(lines_of(suffix) == glue(seq![suffix[0]], lines_of(s@.skip(i + 1))));
                lemma_glue_push(cur, s@[i as int], lines_of(s@.skip(i + 1)));
                assert(s@.subrange(start as int, i + 1) =~= cur.push(s@[i as int]));
            }
            i = i + 1;
        }
    }
    if start < n {
        out.push(String::from_str(s.substring_char(start, n)));
        proof {
            assert(s@.skip(n as int).len() == 0);
            assert(s@.subrange(start as int, n as int).len() > 0);
            assert(out.deep_view() =~~= out.deep_view().take(out.deep_view().len() - 1).push(
                s@.subrange(start as int, n as int),
            ));
            assert(lines_of(s@) =~~= out.deep_view());
        }
    } else {
        proof {
            assert(s@.skip(n as int).len() == 0);
            assert(s@.subrange(start as int, start as int).len() == 0);
            assert(lines_of(s@) =~~= out.deep_view());
        }
    }
    out
}


/// A string never splits into more lines than it has characters: each line
/// consumes at least the character that opened it or ended it.  Callers use
/// this to bound the growth of the tracked count by the input's length.
pub proof fn lemma_lines_of_len(s: Seq<char>)
    ensures
        lines_of(s).len() <= s.len(),
    decreases s.len(),
{
    if s.len() == 0 {
    } else if s[0] == '\n' {
        lemma_lines_of_len(s.skip(1));
    } else if s[0] == '\r' && s.len() >= 2 && s[1] == '\n' {
        lemma_lines_of_len(s.skip(2));
    } else {
        lemma_lines_of_len(s.skip(1));
    }
}

/// State after writing `s`: every line of `s` is a new tracked line; the
/// displacement is untouched.
pub open spec fn write_step(v: TermView, s: Seq<char>) -> TermView {
    TermView { lines_written: v.lines_written + lines_of(s).len(), net_up: v.net_up }
}

impl TrackedTerm {
    /// Writes `s` to the page: every line of `s` becomes one tracked line.
    /// Returns the lines the real terminal must print, in order; write
    /// failures there are swallowed, output is best-effort.
    pub fn write_line(&mut self, s: &str) -> (out: Vec<String>)
        requires
            old(self)@.wf(),
            old(self)@.lines_written + lines_of(s@).len() <= usize::MAX,
        ensures
            final(self)@.wf(),
            final(self)@ == write_step(old(self)@, s@),
            out.deep_view() == lines_of(s@),
    {
        let out = split_lines(s);
        proof {
            assert(out.deep_view().len() == out@.len());
        }
        self.lines_written = self.lines_written + out.len();
        out
    }

    /// Writes one empty line to the page, incrementing the tracked count.
    pub fn line_break(&mut self) -> (out: Vec<String>)
        requires
            old(self)@.wf(),
            old(self)@.lines_written < usize::MAX,
        ensures
            final(self)@.wf(),
            final(self)@.lines_written == old(self)@.lines_written + 1,
            final(self)@.net_up == old(self)@.net_up,
            out.deep_view() == seq![Seq::<char>::empty()],
    {
        proof {
            lemma_lines_of_newline();
        }
        self.write_line("\n")
    }
}

/// The tracker state after a sequence of writes.
pub open spec fn after_writes(v: TermView, msgs: Seq<Seq<char>>) -> TermView
    decreases msgs.len(),
{
    if msgs.len() == 0 {
        v
    } else {
        after_writes(write_step(v, msgs[0]), msgs.skip(1))
    }
}

/// The total number of lines a sequence of writes emits.
pub open spec fn total_emitted(msgs: Seq<Seq<char>>) -> int
    decreases msgs.len(),
{
    if msgs.len() == 0 {
        0
    } else {
        lines_of(msgs[0]).len() + total_emitted(msgs.skip(1))
    }
}

proof fn lemma_after_writes(v: TermView, msgs: Seq<Seq<char>>)
    ensures
        after_writes(v, msgs).lines_written == v.lines_written + total_emitted(msgs),
        after_writes(v, msgs).net_up == v.net_up,
    decreases msgs.len(),
{
    if msgs.len() > 0 {
        lemma_after_writes(write_step(v, msgs[0]), msgs.skip(1));
    }
}

/// Law: starting from a fresh tracker, a sequence of writes emitting `k`
/// lines in total leaves the count at exactly `k` and no displacement, and
/// the reset that follows erases exactly `k + 1` lines (the page plus the
/// widget's prompt line) and returns the count to zero.
pub proof fn lemma_writes_then_reset(msgs: Seq<Seq<char>>)
    ensures
        after_writes(TermView { lines_written: 0, net_up: 0 }, msgs).lines_written
            == total_emitted(msgs),
        after_writes(TermView { lines_written: 0, net_up: 0 }, msgs).net_up == 0,
        reset_erase(after_writes(TermView { lines_written: 0, net_up: 0 }, msgs)) == total_emitted(
            msgs,
        ) + 1,
{
    lemma_after_writes(TermView { lines_written: 0, net_up: 0 }, msgs);
}

} // verus!
