use diraloguer::DirState;
use diraloguer::Directory;
use diraloguer::Function;
use diraloguer::Item;
use diraloguer::MenuItem;
use diraloguer::Paragraph;
use diraloguer::Text;
use diraloguer::Toggle;
use diraloguer::TrackedTerm;

#[test]
fn toggle_label_flips_between_yes_and_no() {
    let mut toggle = Toggle::new("Is this true?").true_text("yes").false_text("no");
    assert_eq!(toggle.name(), "Is this true?: no");
    assert!(toggle.name().ends_with(": no"));
    let mut term = TrackedTerm::new();
    toggle.exec(&mut term);
    assert!(toggle.name().ends_with(": yes"));
    assert_eq!(toggle.name(), "Is this true?: yes");
    toggle.exec(&mut term);
    assert!(toggle.name().ends_with(": no"));
    assert_eq!(term.lines_written(), 0);
}

#[test]
fn toggle_defaults_to_false_with_plain_labels() {
    let toggle = Toggle::new("Another toggle");
    assert_eq!(toggle.name(), "Another toggle: false");
    assert!(toggle.is_enabled());
    let toggle = toggle.value(true);
    assert_eq!(toggle.name(), "Another toggle: true");
}

#[test]
fn text_item_is_never_enabled() {
    let text = Text::new("a separator");
    assert!(!text.is_enabled());
    assert_eq!(text.name(), "a separator");
    let mut copy = Text::new("a separator");
    let mut term = TrackedTerm::new();
    let out = copy.exec(&mut term);
    assert!(out.is_empty());
    assert_eq!(term.lines_written(), 0);
}

#[test]
fn selection_never_dispatches_a_disabled_default() {
    let mut dir = Directory::new("Menu");
    dir.item(Item::Text(Text::new("header")));
    dir.item(Item::Toggle(Toggle::new("flag")));
    dir.default(0);
    let next = dir.on_select(DirState::Displaying, Some(0));
    assert_eq!(next, DirState::Displaying);
    assert_eq!(dir.selected(), 0);
    let next = dir.on_select(DirState::Displaying, Some(1));
    assert_eq!(next, DirState::Dispatching { choice: 1 });
    assert_eq!(dir.selected(), 1);
}

#[test]
fn selection_ignores_out_of_range_choice() {
    let mut dir = Directory::new("Menu");
    dir.item(Item::Toggle(Toggle::new("flag")));
    let next = dir.on_select(DirState::Displaying, Some(5));
    assert_eq!(next, DirState::Displaying);
    assert_eq!(dir.selected(), 0);
}

#[test]
fn cancellation_with_confirmation_asks_first() {
    let mut dir = Directory::new("Menu");
    dir.confirmation("Are you sure?");
    dir.item(Item::Toggle(Toggle::new("flag")));
    dir.default(0);
    let next = dir.on_select(DirState::Displaying, None);
    assert_eq!(next, DirState::Confirming);
    assert_eq!(dir.selected(), 0);
    let next = dir.on_confirm(DirState::Confirming, false);
    assert_eq!(next, DirState::Displaying);
    assert_eq!(dir.selected(), 0);
    let next = dir.on_confirm(DirState::Confirming, true);
    assert_eq!(next, DirState::Terminated);
}

#[test]
fn cancellation_without_confirmation_terminates() {
    let mut dir = Directory::new("Menu");
    dir.item(Item::Toggle(Toggle::new("flag")));
    let next = dir.on_select(DirState::Displaying, None);
    assert_eq!(next, DirState::Terminated);
}

#[test]
fn dispatch_returns_to_displaying() {
    let mut dir = Directory::new("Menu");
    dir.item(Item::Function(Function::new("go", 0)));
    let next = dir.on_select(DirState::Displaying, Some(0));
    assert_eq!(next, DirState::Dispatching { choice: 0 });
    let next = dir.on_dispatched(next);
    assert_eq!(next, DirState::Displaying);
}

#[test]
fn builder_sets_prompt_default_and_confirmation() {
    let mut dir = Directory::new("Title");
    assert_eq!(dir.name(), "Title");
    assert_eq!(dir.prompt_text(), "Title");
    assert!(dir.is_enabled());
    dir.prompt("Prompt");
    assert_eq!(dir.prompt_text(), "Prompt");
    dir.default(1);
    assert_eq!(dir.selected(), 1);
    assert!(dir.confirmation_text().is_none());
    dir.confirmation("Are you sure you want to quit?");
    assert_eq!(dir.confirmation_text().unwrap().as_str(), "Are you sure you want to quit?");
    assert_eq!(dir.len(), 0);
}

#[test]
fn names_lists_every_entry_in_display_order() {
    let mut sub = Directory::new("Extra Sub Menu");
    sub.item(Item::Toggle(Toggle::new("secret toggle!")));
    let mut dir = Directory::new("Second Sub Menu");
    dir.item(Item::Toggle(Toggle::new("Another toggle")));
    dir.item(Item::Text(Text::new("---")));
    dir.item(Item::Menu(Box::new(sub)));
    dir.item(Item::Function(Function::new("Print Cool Stuff", 0)));
    let names = dir.names();
    assert_eq!(
        names,
        vec!["Another toggle: false", "---", "Extra Sub Menu", "Print Cool Stuff"]
    );
}

#[test]
fn paragraph_page_prints_title_bodies_and_footer() {
    let mut page = Paragraph::new("Lorem Ipsum");
    page.paragraph("Lorem Ipsum is a dummy text used in the printing and typesetting industry.");
    page.paragraph("It is a long established fact that the reader will be distracted.");
    let mut dir = Directory::new("Main Menu");
    dir.item(Item::Paragraph(page));
    let names = dir.names();
    assert_eq!(names, vec!["Lorem Ipsum"]);
    let next = dir.on_select(DirState::Displaying, Some(0));
    assert_eq!(next, DirState::Dispatching { choice: 0 });
    let mut term = TrackedTerm::new();
    let out = match &mut dir.items[0] {
        Item::Paragraph(p) => p.exec(&mut term),
        _ => unreachable!(),
    };
    assert_eq!(
        out,
        vec![
            "Lorem Ipsum".to_string(),
            String::new(),
            "Lorem Ipsum is a dummy text used in the printing and typesetting industry."
                .to_string(),
            String::new(),
            "It is a long established fact that the reader will be distracted.".to_string(),
            String::new(),
            "  Press 's' to save to a file, or 'q' to go back".to_string(),
        ]
    );
    assert_eq!(term.lines_written(), out.len());
    let act = term.reset();
    assert_eq!(act.erase, out.len() + 1);
    assert_eq!(term.lines_written(), 0);
}

#[test]
fn function_entry_keeps_title_and_callback_index() {
    let f = Function::new("Print Cool Stuff", 3);
    assert_eq!(f.name(), "Print Cool Stuff");
    assert!(f.is_enabled());
    assert_eq!(f.callback, 3);
}

#[test]
fn item_names_and_enablement_delegate_to_variants() {
    let toggle = Item::Toggle(Toggle::new("t"));
    assert_eq!(toggle.name(), "t: false");
    assert!(toggle.is_enabled());
    let text = Item::Text(Text::new("plain"));
    assert_eq!(text.name(), "plain");
    assert!(!text.is_enabled());
    let menu = Item::Menu(Box::new(Directory::new("Sub Menu")));
    assert_eq!(menu.name(), "Sub Menu");
    assert!(menu.is_enabled());
    let para = Item::Paragraph(Paragraph::new("Page"));
    assert_eq!(para.name(), "Page");
    assert!(para.is_enabled());
}

#[test]
fn empty_directory_is_a_degenerate_leaf() {
    let mut dir = Directory::new("Empty");
    assert!(dir.names().is_empty());
    let next = dir.on_select(DirState::Displaying, Some(0));
    assert_eq!(next, DirState::Displaying);
    let next = dir.on_select(DirState::Displaying, None);
    assert_eq!(next, DirState::Terminated);
}

#[test]
fn paragraph_page_without_bodies_prints_title_and_footer() {
    let mut page = Paragraph::new("Page");
    let mut term = TrackedTerm::new();
    let out = page.exec(&mut term);
    assert_eq!(
        out,
        vec![
            "Page".to_string(),
            String::new(),
            "  Press 's' to save to a file, or 'q' to go back".to_string(),
        ]
    );
    assert_eq!(term.lines_written(), 3);
}
