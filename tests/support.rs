use keyviz::app_state::AppState;
use keyviz::props::{AttrValue, Attribute, Props};
use keyviz::style::{get_block, Alignment, BorderSides, BorderType, Borders, Color};
use keyviz::{Id, Msg};

#[test]
fn props_set_and_get() {
    let mut p = Props::new();
    assert!(p.get(Attribute::Foreground).is_none());
    p.set(Attribute::Foreground, AttrValue::Color(Color::Red));
    match p.get(Attribute::Foreground) {
        Some(AttrValue::Color(c)) => assert_eq!(c, Color::Red),
        other => panic!("unexpected {:?}", other),
    }
    p.set(Attribute::Text, AttrValue::String("hi".to_string()));
    match p.get(Attribute::Text) {
        Some(AttrValue::String(s)) => assert_eq!(s, "hi"),
        other => panic!("unexpected {:?}", other),
    }
}

#[test]
fn props_ignore_value_of_other_kind() {
    let mut p = Props::new();
    p.set(Attribute::Focus, AttrValue::Color(Color::Red));
    assert!(p.focus.is_none());
    assert!(p.get(Attribute::Focus).is_none());
}

#[test]
fn block_border_style_follows_focus() {
    let b = Borders::default().color(Color::Yellow).modifiers(BorderType::Rounded);
    let focused = get_block(b, ("t".to_string(), Alignment::Left), true);
    assert_eq!(focused.border_style.fg, Some(Color::Yellow));
    assert_eq!(focused.border_style.bg, None);
    assert_eq!(focused.border_type, BorderType::Rounded);
    assert_eq!(focused.title, "t");
    assert_eq!(focused.title_alignment, Alignment::Left);
    let plain = get_block(b, (String::new(), Alignment::Center), false);
    assert_eq!(plain.border_style.fg, Some(Color::Reset));
    assert_eq!(plain.border_style.bg, Some(Color::Reset));
    assert_eq!(plain.sides, BorderSides { bits: 15 });
}

#[test]
fn app_state_updates() {
    let mut s = AppState::new();
    assert!(!s.quit && s.redraw);
    s.redraw = false;
    assert_eq!(s.update(None), None);
    assert!(!s.redraw);
    assert_eq!(s.update(Some(Msg::KeyPressed("a".to_string()))), None);
    assert!(s.redraw && !s.quit);
    assert_eq!(s.update(Some(Msg::CounterChanged(-3))), Some(-3));
    assert_eq!(s.update(Some(Msg::AppClose)), None);
    assert!(s.quit);
}

#[test]
fn ids_compare() {
    assert_eq!(Id::Keyboard, Id::Keyboard);
    assert_ne!(Id::Keyboard, Id::SimpleCounter);
}
