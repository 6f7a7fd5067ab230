//! The interface-facing pieces: focus bookkeeping, tips, help entries and
//! the head menu.

use m163_core::event::HeadMenuKey;
use m163_core::ui::focus::Focus;
use m163_core::ui::head::default_menu;
use m163_core::ui::help::Help;
use m163_core::ui::tip::{Confirm, Msg, SimpleMsg, Type};
use m163_core::ui::global_help;

#[test]
fn focus_tree() {
    let root = Focus::root();
    let slide = root.sub("slide");
    let content = slide.sub("content");
    let mut current = String::new();
    assert!(root.is_me(&current));
    assert!(!slide.is_me(&current));
    slide.set("slide", &mut current);
    assert!(slide.is_me(&current));
    content.set("content", &mut current);
    assert!(content.is_me(&current));
    content.back(&mut current);
    assert!(slide.is_me(&current));
    // Only the focused node can give focus back.
    content.back(&mut current);
    assert!(slide.is_me(&current));
}

#[test]
fn tips() {
    let c = Confirm("delete it?");
    assert_eq!(c.msg, "delete it? y/n");
    assert!(matches!(c.typ, Type::confirm(false)));
    assert!(!c.closed());
    let mut c = c;
    c.answer();
    assert!(c.closed());

    let mut m = Msg("hello", 1500);
    assert_eq!(m.msg, "hello");
    assert!(!m.closed());
    m.tick();
    assert!(matches!(m.typ, Type::normal(500)));
    m.tick();
    assert!(m.closed());

    let s = SimpleMsg("tiny", 1000);
    assert!(s.simple);
    assert!(!s.closed());
}

#[test]
fn global_help_appends() {
    let base = vec![(String::from("x"), String::from("example"))];
    let all = global_help(base);
    assert_eq!(all.len(), 8);
    assert_eq!(all[0].0, "x");
    assert_eq!(all[1].0, "space");
    assert_eq!(all[7].0, "z");
    assert_eq!(all[7].1, "\u{7eaf}\u{51c0}\u{6a21}\u{5f0f}");
}

#[test]
fn help_overlay() {
    let mut h = Help::new(vec![(String::from("q"), String::from("quit"))]);
    assert!(!h.closed());
    h.dismiss();
    assert!(h.closed());
}

#[test]
fn head_menu_entries() {
    let m = default_menu();
    assert_eq!(m.len(), 3);
    assert!(matches!(m[0].Key, HeadMenuKey::My));
    assert!(matches!(m[1].Key, HeadMenuKey::Maybe));
    assert!(matches!(m[2].Key, HeadMenuKey::About));
    assert_eq!(m[1].Title, "\u{63a8}\u{8350}");
}
