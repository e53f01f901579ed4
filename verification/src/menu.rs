//! Menus and the selection loop's state machine.
//!
//! A [`Directory`] is a navigable menu: an ordered list of items, a title, a
//! prompt, the index last selected, and an optional exit-confirmation text.
//! Its interactive loop — show the list, wait for the selection widget,
//! dispatch the chosen item — alternates outside work (the widget, the key
//! reads) with decisions.  The decisions live here, as transitions of an
//! explicit state machine over [`DirState`]; the process that drives the
//! real terminal performs the widget calls and feeds their outcomes back in.

use vstd::prelude::*;
use vstd::string::*;

use crate::items::{Function, MenuItem, Paragraph, Text, Toggle};

verus! {

/// One entry of a menu: any of the concrete page types, or a nested menu.
pub enum Item {
    /// A display-only line, never selectable.
    Text(Text),
    /// A boolean flip entry.
    Toggle(Toggle),
    /// A fire-and-forget callback entry.
    Function(Function),
    /// A static multi-paragraph text page.
    Paragraph(Paragraph),
    /// A nested menu.
    Menu(Box<Directory>),
}

impl Item {
    /// The display name the parent menu shows for this entry.
    pub open spec fn spec_name(&self) -> Seq<char> {
        match self {
            Item::Text(t) => t@,
            Item::Toggle(t) => t@.content,
            Item::Function(f) => f.title@,
            Item::Paragraph(p) => p@.title,
            Item::Menu(d) => d.spec_title(),
        }
    }

    /// Whether the entry can be selected: everything but a display-only
    /// line.
    pub open spec fn spec_enabled(&self) -> bool {
        !(self is Text)
    }

    /// The display name the parent menu shows for this entry.
    pub fn name(&self) -> (r: &str)
        ensures
            r@ == self.spec_name(),
    {
        match self {
            Item::Text(t) => t.name(),
            Item::Toggle(t) => t.name(),
            Item::Function(f) => f.name(),
            Item::Paragraph(p) => p.name(),
            Item::Menu(d) => d.name(),
        }
    }

    /// Whether a user can select and activate this entry.
    pub fn is_enabled(&self) -> (r: bool)
        ensures
            r == self.spec_enabled(),
    {
        match self {
            Item::Text(t) => t.is_enabled(),
            Item::Toggle(t) => t.is_enabled(),
            Item::Function(f) => f.is_enabled(),
            Item::Paragraph(p) => p.is_enabled(),
            Item::Menu(d) => d.is_enabled(),
        }
    }
}

/// Where a menu's interactive loop stands.
#[derive(Clone, Copy, Debug, PartialEq, Eq, Structural)]
pub enum DirState {
    /// The selection widget is active, waiting for input.
    Displaying,
    /// A choice was confirmed; the chosen item's page is being run.
    Dispatching { choice: usize },
    /// The user asked to leave and the exit confirmation is being shown.
    Confirming,
    /// The loop is over; control returns to the caller.
    Terminated,
}

/// What the selection decisions read of a menu: which entries are
/// selectable, which index is currently selected, and whether leaving needs
/// confirmation.
pub ghost struct DirModel {
    pub enabled: Seq<bool>,
    pub selected: int,
    pub has_confirmation: bool,
}

/// The decision taken on the selection widget's outcome, from the
/// `Displaying` state.  A confirmed choice of a selectable entry is
/// persisted and dispatched; a choice out of range or of a disabled entry is
/// ignored; a cancellation either terminates the loop or, when an exit
/// confirmation is configured, asks first.
pub open spec fn select_step(m: DirModel, choice: Option<usize>) -> (DirModel, DirState) {
    match choice {
        Option::Some(v) => if v < m.enabled.len() && m.enabled[v as int] {
            (
                (DirModel { enabled: m.enabled, selected: v as int, has_confirmation: m.has_confirmation }),
                (DirState::Dispatching { choice: v }),
            )
        } else {
            (m, DirState::Displaying)
        },
        Option::None => if m.has_confirmation {
            (m, DirState::Confirming)
        } else {
            (m, DirState::Terminated)
        },
    }
}

/// The decision taken on the confirmation widget's answer, from the
/// `Confirming` state: yes terminates the loop, no returns to the list.
pub open spec fn confirm_step(yes: bool) -> DirState {
    if yes {
        DirState::Terminated
    } else {
        DirState::Displaying
    }
}

/// A navigable menu of [`Item`]s; itself usable as an entry of another menu.
pub struct Directory {
    title: String,
    prompt: String,
    /// The entries, in display order.  The process driving the real
    /// terminal dispatches into them, so they are reachable directly.
    pub items: Vec<Item>,
    selected: usize,
    exit_confirmation: Option<String>,
}

impl Directory {
    /// The menu's title, as a parent menu displays it.
    pub closed spec fn spec_title(&self) -> Seq<char> {
        self.title@
    }

    /// The prompt shown above the selection list.
    pub closed spec fn spec_prompt(&self) -> Seq<char> {
        self.prompt@
    }

    /// The entries, in display order.
    pub closed spec fn spec_items(&self) -> Seq<Item> {
        self.items@
    }

    /// The index highlighted by default, persisted across activations.
    pub closed spec fn spec_selected(&self) -> int {
        self.selected as int
    }

    /// The exit-confirmation text, when one is configured.
    pub closed spec fn spec_confirmation(&self) -> Option<Seq<char>> {
        match self.exit_confirmation {
            Option::Some(ref s) => Option::Some(s@),
            Option::None => Option::None,
        }
    }

    /// The selected index stays within the list whenever the list is
    /// non-empty; an empty menu is a degenerate but legal leaf.
    pub open spec fn wf(&self) -> bool {
        self.spec_items().len() == 0 || 0 <= self.spec_selected() < self.spec_items().len()
    }

    /// What the selection decisions read of this menu.
    pub open spec fn model(&self) -> DirModel {
        DirModel {
            enabled: self.spec_items().map(|i: int, it: Item| it.spec_enabled()),
            selected: self.spec_selected(),
            has_confirmation: self.spec_confirmation() is Some,
        }
    }

    /// An empty menu titled `title`, prompting with the title itself.
    pub fn new(title: &str) -> (d: Directory)
        ensures
            d.spec_title() == title@,
            d.spec_prompt() == title@,
            d.spec_items().len() == 0,
            d.spec_selected() == 0,
            d.spec_confirmation() is None,
            d.wf(),
    {
        Directory {
            title: String::from_str(title),
            prompt: String::from_str(title),
            items: Vec::new(),
            selected: 0,
            exit_confirmation: Option::None,
        }
    }

    /// Sets a custom prompt to display above the selection list.
    pub fn prompt(&mut self, prompt: &str)
        ensures
            final(self).spec_prompt() == prompt@,
            final(self).spec_title() == old(self).spec_title(),
            final(self).spec_items() == old(self).spec_items(),
            final(self).spec_selected() == old(self).spec_selected(),
            final(self).spec_confirmation() == old(self).spec_confirmation(),
    {
        self.prompt = String::from_str(prompt);
    }

    /// Appends an entry; insertion order is display order.
    pub fn item(&mut self, item: Item)
        ensures
            final(self).spec_items() == old(self).spec_items().push(item),
            final(self).spec_title() == old(self).spec_title(),
            final(self).spec_prompt() == old(self).spec_prompt(),
            final(self).spec_selected() == old(self).spec_selected(),
            final(self).spec_confirmation() == old(self).spec_confirmation(),
    {
        self.items.push(item);
    }

    /// Sets the index highlighted by default when the menu is shown.
    pub fn default(&mut self, def: usize)
        ensures
            final(self).spec_selected() == def as int,
            final(self).spec_title() == old(self).spec_title(),
            final(self).spec_prompt() == old(self).spec_prompt(),
            final(self).spec_items() == old(self).spec_items(),
            final(self).spec_confirmation() == old(self).spec_confirmation(),
    {
        self.selected = def;
    }

    /// Configures an exit-confirmation prompt: leaving the menu then asks
    /// first.
    pub fn confirmation(&mut self, prompt: &str)
        ensures
            final(self).spec_confirmation() == Option::Some(prompt@),
            final(self).spec_title() == old(self).spec_title(),
            final(self).spec_prompt() == old(self).spec_prompt(),
            final(self).spec_items() == old(self).spec_items(),
            final(self).spec_selected() == old(self).spec_selected(),
    {
        self.exit_confirmation = Option::Some(String::from_str(prompt));
    }

    /// The prompt shown above the selection list.
    pub fn prompt_text(&self) -> (r: &str)
        ensures
            r@ == self.spec_prompt(),
    {
        self.prompt.as_str()
    }

    /// The menu's title, under which a parent menu lists it.
    pub fn name(&self) -> (r: &str)
        ensures
            r@ == self.spec_title(),
    {
        self.title.as_str()
    }

    /// A nested menu is always selectable.
    pub fn is_enabled(&self) -> (r: bool)
        ensures
            r == true,
    {
        true
    }

    /// The number of entries.
    pub fn len(&self) -> (n: usize)
        ensures
            n == self.spec_items().len(),
    {
        self.items.len()
    }

    /// The currently selected index.
    pub fn selected(&self) -> (n: usize)
        ensures
            n == self.spec_selected(),
    {
        self.selected
    }

    /// The exit-confirmation text, when one is configured.
    pub fn confirmation_text(&self) -> (r: Option<&String>)
        ensures
            match r {
                Option::Some(s) => self.spec_confirmation() == Option::Some(s@),
                Option::None => self.spec_confirmation() is None,
            },
    {
        self.exit_confirmation.as_ref()
    }

    /// The display names of all entries, in order, selectable or not: the
    /// selection widget shows every entry and skips the disabled ones.
    pub fn names(&self) -> (out: Vec<&str>)
        ensures
            out@.len() == self.spec_items().len(),
            forall|i: int| 0 <= i < out@.len() ==> out@[i]@ == self.spec_items()[i].spec_name(),
    {
        let mut out: Vec<&str> = Vec::new();
        let mut k: usize = 0;
        while k < self.items.len()
            invariant
                k <= self.items.len(),
                out@.len() == k as int,
                forall|i: int| 0 <= i < k as int ==> out@[i]@ == self.items@[i].spec_name(),
            decreases self.items.len() - k,
        {
            out.push(self.items[k].name());
            k = k + 1;
        }
        out
    }

    /// Takes the selection widget's outcome from the `Displaying` state:
    /// exactly [`select_step`] on the menu's model.  A dispatched choice is
    /// persisted as the new selected index; everything else about the menu
    /// is unchanged.
    pub fn on_select(&mut self, state: DirState, choice: Option<usize>) -> (next: DirState)
        requires
            state is Displaying,
        ensures
            (final(self).model(), next) == select_step(old(self).model(), choice),
            final(self).spec_title() == old(self).spec_title(),
            final(self).spec_prompt() == old(self).spec_prompt(),
            final(self).spec_items() == old(self).spec_items(),
            final(self).spec_confirmation() == old(self).spec_confirmation(),
            next matches DirState::Dispatching { choice: v } ==> v < final(self).spec_items().len()
                && final(self).spec_items()[v as int].spec_enabled() && final(self).spec_selected()
                == v as int && final(self).wf(),
            !(next is Dispatching) ==> final(self).spec_selected() == old(self).spec_selected(),
    {
        match choice {
            Option::Some(v) => {
                if v < self.items.len() && self.items[v].is_enabled() {
                    self.selected = v;
                    DirState::Dispatching { choice: v }
                } else {
                    DirState::Displaying
                }
            },
            Option::None => {
                if self.exit_confirmation.is_some() {
                    DirState::Confirming
                } else {
                    DirState::Terminated
                }
            },
        }
    }

    /// Takes the confirmation widget's answer from the `Confirming` state:
    /// exactly [`confirm_step`].  The menu itself — the selected index
    /// included — is untouched.
    pub fn on_confirm(&self, state: DirState, yes: bool) -> (next: DirState)
        requires
            state is Confirming,
        ensures
            next == confirm_step(yes),
    {
        if yes {
            DirState::Terminated
        } else {
            DirState::Displaying
        }
    }

    /// Returns to the list once a dispatched item's page has run.
    pub fn on_dispatched(&self, state: DirState) -> (next: DirState)
        requires
            state is Dispatching,
        ensures
            next is Displaying,
    {
        DirState::Displaying
    }
}

/// Law: the loop never dispatches a disabled entry, nor one out of range —
/// even when it is the default selection — whatever the widget reports.
pub proof fn lemma_dispatch_only_enabled(m: DirModel, choice: Option<usize>)
    ensures
        select_step(m, choice).1 matches DirState::Dispatching { choice: v } ==> choice
            == Option::Some(v) && 0 <= v < m.enabled.len() && m.enabled[v as int],
{
}

/// Law: with an exit confirmation configured, a cancellation only presents
/// the confirmation and changes nothing; a negative answer returns to the
/// list — the menu, its selected index included, as it was — and an
/// affirmative answer terminates the loop, returning control to the caller.
pub proof fn lemma_cancel_asks_first(m: DirModel)
    requires
        m.has_confirmation,
    ensures
        select_step(m, Option::None) == (m, DirState::Confirming),
        confirm_step(false) == DirState::Displaying,
        confirm_step(true) == DirState::Terminated,
{
}

} // verus!
