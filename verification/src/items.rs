//! The menu item types.
//!
//! A menu item is anything with a display name, an enabled flag, and an
//! `exec` action that runs against the shared [`TrackedTerm`] when the item
//! is activated.  The concrete page types here are flat data structures,
//! each implementing that capability independently.

use vstd::prelude::*;
use vstd::string::*;

use crate::term::{lines_of, TrackedTerm};

verus! {

/// The menu item capability: a display name, an enabled flag, and an action.
///
/// `exec` runs the item's page against the tracker and returns the lines the
/// real terminal must print for it, in order.  Every implementation keeps
/// the tracker's books straight: the tracked count grows by exactly the
/// number of lines handed back, and the cursor displacement is untouched.
pub trait MenuItem {
    /// How many lines one activation of this item emits.
    spec fn emit_len(&self) -> nat;

    /// The item's display name, as the parent menu shows it.
    spec fn spec_name(&self) -> Seq<char>;

    /// Whether the item can be selected and activated.
    spec fn spec_enabled(&self) -> bool;

    /// The title displayed in a parent menu.
    fn name(&self) -> (r: &str)
        ensures
            r@ == self.spec_name(),
    ;

    /// Whether a user can select and activate this item; a disabled item is
    /// shown but skipped over.
    fn is_enabled(&self) -> (r: bool)
        ensures
            r == self.spec_enabled(),
    ;

    /// Runs the item's page.  The returned lines are what the real terminal
    /// must print; each of them is accounted to the current page.
    fn exec(&mut self, term: &mut TrackedTerm) -> (out: Vec<String>)
        requires
            old(term)@.wf(),
            old(term)@.lines_written + old(self).emit_len() <= usize::MAX,
        ensures
            final(term)@.wf(),
            out@.len() == old(self).emit_len(),
            final(term)@.lines_written == old(term)@.lines_written + out@.len(),
            final(term)@.net_up == old(term)@.net_up,
    ;
}

/// A non-interactive line within a menu list: shown, never selectable.
pub struct Text {
    content: String,
}

impl View for Text {
    type V = Seq<char>;

    closed spec fn view(&self) -> Seq<char> {
        self.content@
    }
}

impl Text {
    /// A display-only entry showing `text`.
    pub fn new(text: &str) -> (t: Text)
        ensures
            t@ == text@,
    {
        Text { content: String::from_str(text) }
    }
}

impl MenuItem for Text {
    open spec fn emit_len(&self) -> nat {
        0
    }

    open spec fn spec_name(&self) -> Seq<char> {
        self@
    }

    open spec fn spec_enabled(&self) -> bool {
        false
    }

    fn name(&self) -> (r: &str) {
        self.content.as_str()
    }

    /// A separator or header is never selectable.
    fn is_enabled(&self) -> (r: bool) {
        false
    }

    /// Activating a display-only entry does nothing.
    fn exec(&mut self, term: &mut TrackedTerm) -> (out: Vec<String>) {
        Vec::new()
    }
}

/// The abstract state of a [`Toggle`]: its title, labels, current value,
/// and the display string cached for the parent menu's list.
pub ghost struct ToggleView {
    pub title: Seq<char>,
    pub content: Seq<char>,
    pub value: bool,
    pub true_text: Seq<char>,
    pub false_text: Seq<char>,
}

/// The display label of a toggle: its title, a separator, and the label of
/// its current value.
pub open spec fn toggle_label(v: ToggleView) -> Seq<char> {
    v.title + ": "@ + (if v.value {
        v.true_text
    } else {
        v.false_text
    })
}

impl ToggleView {
    /// The cached display string always reflects the current title, value
    /// and labels.
    pub open spec fn wf(self) -> bool {
        self.content == toggle_label(self)
    }
}

/// A boolean menu entry that flips on every activation, displaying
/// `title: label` with a per-value label.
pub struct Toggle {
    title: String,
    content: String,
    value: bool,
    true_text: String,
    false_text: String,
}

impl View for Toggle {
    type V = ToggleView;

    closed spec fn view(&self) -> ToggleView {
        ToggleView {
            title: self.title@,
            content: self.content@,
            value: self.value,
            true_text: self.true_text@,
            false_text: self.false_text@,
        }
    }
}

impl Toggle {
    /// A toggle titled `text`, initially false, labelled `true`/`false`.
    pub fn new(text: &str) -> (t: Toggle)
        ensures
            t@.wf(),
            t@.title == text@,
            t@.value == false,
            t@.true_text == "true"@,
            t@.false_text == "false"@,
    {
        let mut t = Toggle {
            title: String::from_str(text),
            content: String::from_str(text),
            value: false,
            true_text: String::from_str("true"),
            false_text: String::from_str("false"),
        };
        t.update_content();
        t
    }

    /// Sets the current value.
    pub fn value(self, value: bool) -> (t: Toggle)
        ensures
            t@.wf(),
            t@.value == value,
            t@.title == self@.title,
            t@.true_text == self@.true_text,
            t@.false_text == self@.false_text,
    {
        let mut t = self;
        t.value = value;
        t.update_content();
        t
    }

    /// Sets the label displayed while the value is true.
    pub fn true_text(self, text: &str) -> (t: Toggle)
        ensures
            t@.wf(),
            t@.true_text == text@,
            t@.title == self@.title,
            t@.value == self@.value,
            t@.false_text == self@.false_text,
    {
        let mut t = self;
        t.true_text = String::from_str(text);
        t.update_content();
        t
    }

    /// Sets the label displayed while the value is false.
    pub fn false_text(self, text: &str) -> (t: Toggle)
        ensures
            t@.wf(),
            t@.false_text == text@,
            t@.title == self@.title,
            t@.value == self@.value,
            t@.true_text == self@.true_text,
    {
        let mut t = self;
        t.false_text = String::from_str(text);
        t.update_content();
        t
    }

    /// Recomputes the cached display string from the current fields.
    fn update_content(&mut self)
        ensures
            final(self)@.wf(),
            final(self)@.title == old(self)@.title,
            final(self)@.value == old(self)@.value,
            final(self)@.true_text == old(self)@.true_text,
            final(self)@.false_text == old(self)@.false_text,
    {
        let mut content = String::from_str(self.title.as_str());
        content.append(": ");
        if self.value {
            content.append(self.true_text.as_str());
        } else {
            content.append(self.false_text.as_str());
        }
        self.content = content;
    }
}

impl MenuItem for Toggle {
    open spec fn emit_len(&self) -> nat {
        0
    }

    open spec fn spec_name(&self) -> Seq<char> {
        self@.content
    }

    open spec fn spec_enabled(&self) -> bool {
        true
    }

    fn name(&self) -> (r: &str) {
        self.content.as_str()
    }

    fn is_enabled(&self) -> (r: bool) {
        true
    }

    /// Flips the stored value and refreshes the display label.  The toggle
    /// writes nothing itself: the parent menu re-renders its list, which
    /// then shows the new label.
    fn exec(&mut self, term: &mut TrackedTerm) -> (out: Vec<String>)
        ensures
            final(self)@.wf(),
            final(self)@.value == !old(self)@.value,
            final(self)@.title == old(self)@.title,
            final(self)@.true_text == old(self)@.true_text,
            final(self)@.false_text == old(self)@.false_text,
    {
        self.value = !self.value;
        self.update_content();
        Vec::new()
    }
}

/// A fire-and-forget menu entry.  The process that drives the real terminal
/// keeps a table of actions; activating this entry runs the action stored at
/// `callback` in that table.
pub struct Function {
    pub title: String,
    pub callback: usize,
}

impl Function {
    /// A callback entry titled `title`, running action number `callback`.
    pub fn new(title: &str, callback: usize) -> (f: Function)
        ensures
            f.title@ == title@,
            f.callback == callback,
    {
        Function { title: String::from_str(title), callback }
    }

    /// The title displayed in a parent menu.
    pub fn name(&self) -> (r: &str)
        ensures
            r@ == self.title@,
    {
        self.title.as_str()
    }

    /// A callback entry is always selectable.
    pub fn is_enabled(&self) -> (r: bool)
        ensures
            r == true,
    {
        true
    }
}


/// The abstract state of a [`Paragraph`]: its title and the body paragraphs,
/// in display order.
pub ghost struct ParagraphView {
    pub title: Seq<char>,
    pub paragraphs: Seq<Seq<char>>,
}

/// The lines emitted for the paragraph bodies: each body's lines followed by
/// one blank separator line.
pub open spec fn body_lines(ps: Seq<Seq<char>>) -> Seq<Seq<char>>
    decreases ps.len(),
{
    if ps.len() == 0 {
        Seq::empty()
    } else {
        body_lines(ps.drop_last()) + lines_of(ps.last()) + seq![Seq::<char>::empty()]
    }
}

/// Everything one activation of a paragraph page prints: the title, a blank
/// line, each body paragraph followed by a blank line, and the instruction
/// footer.
pub open spec fn page_lines(v: ParagraphView) -> Seq<Seq<char>> {
    lines_of(v.title) + seq![Seq::<char>::empty()] + body_lines(v.paragraphs) + lines_of(
        "  Press 's' to save to a file, or 'q' to go back"@,
    )
}

/// A static multi-paragraph text page.
pub struct Paragraph {
    title: String,
    paragraphs: Vec<String>,
}

impl View for Paragraph {
    type V = ParagraphView;

    closed spec fn view(&self) -> ParagraphView {
        ParagraphView { title: self.title@, paragraphs: self.paragraphs.deep_view() }
    }
}

impl Paragraph {
    /// An empty text page titled `title`.
    pub fn new(title: &str) -> (p: Paragraph)
        ensures
            p@.title == title@,
            p@.paragraphs.len() == 0,
    {
        let p = Paragraph { title: String::from_str(title), paragraphs: Vec::new() };
        proof {
            assert(p@.paragraphs =~~= Seq::<Seq<char>>::empty());
        }
        p
    }

    /// Appends one body paragraph to the page.
    pub fn paragraph(&mut self, text: &str)
        ensures
            final(self)@.title == old(self)@.title,
            final(self)@.paragraphs == old(self)@.paragraphs.push(text@),
    {
        self.paragraphs.push(String::from_str(text));
        proof {
            assert(self@.paragraphs =~~= old(self)@.paragraphs.push(text@));
        }
    }
}

impl MenuItem for Paragraph {
    open spec fn emit_len(&self) -> nat {
        page_lines(self@).len()
    }

    open spec fn spec_name(&self) -> Seq<char> {
        self@.title
    }

    open spec fn spec_enabled(&self) -> bool {
        true
    }

    fn name(&self) -> (r: &str) {
        self.title.as_str()
    }

    fn is_enabled(&self) -> (r: bool) {
        true
    }

    /// Prints the page: title, blank line, each body paragraph followed by a
    /// blank line, then the instruction footer.
    fn exec(&mut self, term: &mut TrackedTerm) -> (out: Vec<String>)
        ensures
            final(self)@ == old(self)@,
            out.deep_view() == page_lines(old(self)@),
    {
        let ghost ps = self@.paragraphs;
        proof {
            lemma_body_lines_split(ps, 0);
            assert(ps.take(0) =~~= Seq::<Seq<char>>::empty());
            assert(ps.skip(0) =~~= ps);
        }
        let mut out = term.write_line(self.title.as_str());
        let mut chunk = term.line_break();
        let ghost d0 = out.deep_view();
        let ghost c0 = chunk.deep_view();
        out.append(&mut chunk);
        proof {
            assert(out.deep_view() =~~= d0 + c0);
            assert(out.deep_view() =~~= lines_of(self@.title) + seq![Seq::<char>::empty()]
                + body_lines(ps.take(0)));
        }
        let mut k: usize = 0;
        while k < self.paragraphs.len()
            invariant
                old(term)@.wf(),
                term@.wf(),
                k <= self.paragraphs.len(),
                *self == *old(self),
                ps == self@.paragraphs,
                old(term)@.lines_written + page_lines(self@).len() <= usize::MAX,
                out.deep_view() =~~= lines_of(self@.title) + seq![Seq::<char>::empty()]
                    + body_lines(ps.take(k as int)),
                term@.lines_written == old(term)@.lines_written + out.deep_view().len(),
                term@.net_up == old(term)@.net_up,
            decreases self.paragraphs.len() - k,
        {
            proof {
                lemma_body_lines_split(ps, k as int);
                assert(ps.skip(k as int).len() > 0);
                assert(ps.skip(k as int).drop_first() =~~= ps.skip(k + 1));
                lemma_body_lines_head(ps.skip(k as int));
                assert(ps.skip(k as int)[0] == ps[k as int]);
                assert(self.paragraphs@[k as int]@ == ps[k as int]);
            }
            let ghost d1 = out.deep_view();
            let mut chunk = term.write_line(self.paragraphs[k].as_str());
            let ghost c1 = chunk.deep_view();
            out.append(&mut chunk);
            proof {
                assert(out.deep_view() =~~= d1 + c1);
            }
            let ghost d2 = out.deep_view();
            let mut chunk = term.line_break();
            let ghost c2 = chunk.deep_view();
            out.append(&mut chunk);
            proof {
                assert(out.deep_view() =~~= d2 + c2);
                assert(ps.take(k + 1).drop_last() =~~= ps.take(k as int));
                assert(ps.take(k + 1).last() == ps[k as int]);
                assert(body_lines(ps.take(k + 1)) == body_lines(ps.take(k as int)) + lines_of(
                    ps[k as int],
                ) + seq![Seq::<char>::empty()]);
                assert(out.deep_view() =~~= lines_of(self@.title) + seq![Seq::<char>::empty()]
                    + body_lines(ps.take(k + 1)));
            }
            k = k + 1;
        }
        proof {
            assert(ps.take(ps.len() as int) =~~= ps);
            lemma_body_lines_split(ps, ps.len() as int);
            assert(ps.skip(ps.len() as int).len() == 0);
        }
        let ghost d3 = out.deep_view();
        let mut chunk = term.write_line("  Press 's' to save to a file, or 'q' to go back");
        let ghost c3 = chunk.deep_view();
        out.append(&mut chunk);
        proof {
            assert(out.deep_view() =~~= d3 + c3);
            assert(out.deep_view() =~~= page_lines(self@));
        }
        out
    }
}

/// The body lines of a whole list are those of any prefix followed by those
/// of the rest.
proof fn lemma_body_lines_split(ps: Seq<Seq<char>>, k: int)
    requires
        0 <= k <= ps.len(),
    ensures
        body_lines(ps) == body_lines(ps.take(k)) + body_lines(ps.skip(k)),
    decreases ps.len() - k,
{
    if k == ps.len() {
        assert(ps.take(k) =~~= ps);
        assert(body_lines(ps) =~~= body_lines(ps.take(k)) + body_lines(ps.skip(k)));
    } else {
        lemma_body_lines_split(ps, k + 1);
        lemma_body_lines_head(ps.skip(k));
        assert(ps.skip(k).drop_first() =~~= ps.skip(k + 1));
        assert(ps.take(k + 1).drop_last() =~~= ps.take(k));
        assert(ps.take(k + 1).last() == ps[k]);
        assert(body_lines(ps) =~~= body_lines(ps.take(k)) + body_lines(ps.skip(k)));
    }
}

/// Peeling the first paragraph off the front of the body.
proof fn lemma_body_lines_head(ps: Seq<Seq<char>>)
    requires
        ps.len() > 0,
    ensures
        body_lines(ps) == lines_of(ps[0]) + seq![Seq::<char>::empty()] + body_lines(
            ps.drop_first(),
        ),
    decreases ps.len(),
{
    if ps.len() == 1 {
        assert(ps.drop_last() =~~= Seq::<Seq<char>>::empty());
        assert(ps.drop_first() =~~= Seq::<Seq<char>>::empty());
        assert(ps.last() == ps[0]);
        assert(body_lines(ps) =~~= lines_of(ps[0]) + seq![Seq::<char>::empty()] + body_lines(
            ps.drop_first(),
        ));
    } else {
        lemma_body_lines_head(ps.drop_last());
        assert(ps.drop_last()[0] == ps[0]);
        assert(ps.drop_first().drop_last() =~~= ps.drop_last().drop_first());
        assert(ps.drop_first().last() == ps.last());
        assert(ps.drop_first().len() > 0);
        assert(body_lines(ps) =~~= lines_of(ps[0]) + seq![Seq::<char>::empty()] + body_lines(
            ps.drop_first(),
        ));
    }
}

} // verus!
