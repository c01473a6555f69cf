use keyviz::input::{key_token, Event, Key, KeyEvent, KeyModifiers, MOD_ALT, MOD_CONTROL, MOD_SHIFT};
use keyviz::keyboard::{first_match, Keyboard};
use keyviz::keycap::{Keycap, Look};
use keyviz::style::TextModifiers;
use keyviz::layout::Area;
use keyviz::props::{AttrValue, Attribute};
use keyviz::style::{BorderSides, BorderType, Borders, Color};
use keyviz::Msg;

fn border_at(kb: &Keyboard, i: usize, j: usize) -> Option<Borders> {
    kb.keycaps()[i][j].border()
}

fn color_at(kb: &Keyboard, i: usize, j: usize) -> Option<Color> {
    border_at(kb, i, j).map(|b| b.color)
}

fn key(code: Key, bits: u8) -> Event {
    Event::Keyboard(KeyEvent { code, modifiers: KeyModifiers { bits } })
}

#[test]
fn qwerty_layout_rows() {
    let kb = Keyboard::new();
    let rows = kb.keycaps();
    let lens: Vec<usize> = rows.iter().map(|r| r.len()).collect();
    assert_eq!(lens, vec![15, 14, 13, 13, 6]);
    assert_eq!(rows[1][0].label_with_width_suffix(), "Tab:7");
    assert_eq!(rows[4][0].label_with_width_suffix(), ":8");
    assert_eq!(rows[0][13].label_with_width_suffix(), "\\");
}

#[test]
fn default_keyboard_has_one_key() {
    let kb = Keyboard::default();
    assert_eq!(kb.keycaps().len(), 1);
    assert_eq!(kb.keycaps()[0][0].label_with_width_suffix(), "?");
}

#[test]
fn reset_gives_neutral_and_invisible_borders() {
    let mut kb = Keyboard::with_custom_layout(vec![vec![":8", "A", "B:6"]]);
    kb.highlight("a");
    let found = kb.highlight("");
    assert!(!found);
    assert_eq!(color_at(&kb, 0, 0), Some(Color::Black));
    assert_eq!(color_at(&kb, 0, 1), Some(Color::DarkGray));
    assert_eq!(color_at(&kb, 0, 2), Some(Color::DarkGray));
}

#[test]
fn highlight_single_match_keeps_sides_and_kind() {
    let mut kb = Keyboard::with_custom_layout(vec![vec!["Tab:7", "Q", "W"], vec![":4", "A"]]);
    kb.highlight("");
    let before: Vec<Vec<Option<Borders>>> = kb
        .keycaps()
        .iter()
        .map(|r| r.iter().map(|k| k.border()).collect())
        .collect();
    let found = kb.highlight("TAB");
    assert!(found);
    assert_eq!(color_at(&kb, 0, 0), Some(Color::Yellow));
    assert_eq!(color_at(&kb, 0, 1), Some(Color::DarkGray));
    assert_eq!(color_at(&kb, 1, 0), Some(Color::Black));
    for (i, row) in kb.keycaps().iter().enumerate() {
        for (j, k) in row.iter().enumerate() {
            let b = k.border().unwrap();
            let old = before[i][j].unwrap();
            assert_eq!(b.sides, old.sides);
            assert_eq!(b.modifiers, old.modifiers);
        }
    }
}

#[test]
fn highlight_without_match() {
    let mut kb = Keyboard::with_custom_layout(vec![vec!["A", "B"]]);
    assert!(!kb.highlight("zz"));
    assert_eq!(color_at(&kb, 0, 0), Some(Color::DarkGray));
    assert_eq!(color_at(&kb, 0, 1), Some(Color::DarkGray));
}

#[test]
fn highlight_first_of_equal_labels_wins() {
    let mut kb = Keyboard::with_custom_layout(vec![vec!["X", "Alt"], vec!["Alt:6"]]);
    assert!(kb.highlight("alt"));
    assert_eq!(color_at(&kb, 0, 1), Some(Color::Yellow));
    assert_eq!(color_at(&kb, 1, 0), Some(Color::DarkGray));
}

#[test]
fn highlight_keeps_custom_border_kind() {
    let mut kb = Keyboard::with_custom_layout(vec![vec!["A"]]).borders(Borders {
        sides: BorderSides { bits: 5 },
        modifiers: BorderType::Double,
        color: Color::Blue,
    });
    assert!(kb.highlight("A"));
    let b = border_at(&kb, 0, 0).unwrap();
    assert_eq!(b.sides, BorderSides { bits: 5 });
    assert_eq!(b.modifiers, BorderType::Double);
    assert_eq!(b.color, Color::Yellow);
}

#[test]
fn event_char_a_lights_a() {
    let mut kb = Keyboard::new();
    let msg = kb.on(key(Key::Char('a'), 0));
    assert_eq!(msg, Some(Msg::KeyPressed("a".to_string())));
    assert_eq!(color_at(&kb, 2, 1), Some(Color::Yellow));
    assert_eq!(color_at(&kb, 2, 2), Some(Color::DarkGray));
    assert_eq!(color_at(&kb, 4, 0), Some(Color::Black));
}

#[test]
fn event_escape_closes_and_changes_nothing() {
    let mut kb = Keyboard::new();
    kb.on(key(Key::Char('q'), 0));
    let before: Vec<Option<Color>> = kb.keycaps().iter().flatten().map(|k| k.border().map(|b| b.color)).collect();
    let msg = kb.on(key(Key::Esc, 0));
    assert_eq!(msg, Some(Msg::AppClose));
    let after: Vec<Option<Color>> = kb.keycaps().iter().flatten().map(|k| k.border().map(|b| b.color)).collect();
    assert_eq!(before, after);
    assert_eq!(color_at(&kb, 1, 1), Some(Color::Yellow));
}

#[test]
fn event_escape_with_modifier_is_a_key() {
    let mut kb = Keyboard::new();
    let msg = kb.on(key(Key::Esc, MOD_SHIFT));
    assert_eq!(msg, Some(Msg::KeyPressed("modifier".to_string())));
    assert_eq!(color_at(&kb, 3, 0), Some(Color::Yellow));
}

#[test]
fn event_shift_w_lights_both() {
    let mut kb = Keyboard::new();
    let msg = kb.on(key(Key::Char('w'), MOD_SHIFT));
    assert_eq!(msg, Some(Msg::KeyPressed("w".to_string())));
    assert_eq!(color_at(&kb, 3, 0), Some(Color::Yellow));
    assert_eq!(color_at(&kb, 1, 2), Some(Color::Yellow));
    assert_eq!(color_at(&kb, 3, 11), Some(Color::DarkGray));
    assert_eq!(color_at(&kb, 1, 1), Some(Color::DarkGray));
}

#[test]
fn event_all_modifiers_only() {
    let mut kb = Keyboard::new();
    let msg = kb.on(key(Key::Other, MOD_ALT | MOD_CONTROL | MOD_SHIFT));
    assert_eq!(msg, Some(Msg::KeyPressed("modifier".to_string())));
    assert_eq!(color_at(&kb, 4, 1), Some(Color::Yellow));
    assert_eq!(color_at(&kb, 2, 0), Some(Color::Yellow));
    assert_eq!(color_at(&kb, 3, 0), Some(Color::Yellow));
}

#[test]
fn event_unknown_key_reports_empty_token() {
    let mut kb = Keyboard::new();
    kb.on(key(Key::Char('a'), 0));
    let msg = kb.on(key(Key::Other, 0));
    assert_eq!(msg, Some(Msg::KeyPressed(String::new())));
    assert_eq!(color_at(&kb, 2, 1), Some(Color::DarkGray));
}

#[test]
fn event_named_keys() {
    let mut kb = Keyboard::new();
    assert_eq!(kb.on(key(Key::Char(' '), 0)), Some(Msg::KeyPressed("space".to_string())));
    assert_eq!(color_at(&kb, 4, 3), Some(Color::Yellow));
    assert_eq!(kb.on(key(Key::Tab, 0)), Some(Msg::KeyPressed("tab".to_string())));
    assert_eq!(color_at(&kb, 1, 0), Some(Color::Yellow));
    assert_eq!(kb.on(key(Key::Backspace, 0)), Some(Msg::KeyPressed("Bs".to_string())));
    assert_eq!(color_at(&kb, 1, 13), Some(Color::Yellow));
    assert_eq!(kb.on(key(Key::Enter, 0)), Some(Msg::KeyPressed("Enter".to_string())));
    assert_eq!(color_at(&kb, 2, 12), Some(Color::Yellow));
}

#[test]
fn other_events_are_ignored() {
    let mut kb = Keyboard::new();
    assert_eq!(kb.on(Event::Other), None);
    assert_eq!(border_at(&kb, 0, 0), None);
}

#[test]
fn key_tokens() {
    assert_eq!(key_token(Key::Char('x')), "x");
    assert_eq!(key_token(Key::Char('Z')), "Z");
    assert_eq!(key_token(Key::Char(' ')), "space");
    assert_eq!(key_token(Key::Left), "←");
    assert_eq!(key_token(Key::Right), "→");
    assert_eq!(key_token(Key::Up), "↑");
    assert_eq!(key_token(Key::Down), "↓");
    assert_eq!(key_token(Key::Esc), "");
}

#[test]
fn first_match_in_row_major_order() {
    let grid = vec![
        vec![Some("a".to_string()), Some("b".to_string())],
        vec![None, Some("c".to_string()), Some("b".to_string())],
    ];
    assert_eq!(first_match(&grid, &"b".to_string()), Some((0, 1)));
    assert_eq!(first_match(&grid, &"c".to_string()), Some((1, 1)));
    assert_eq!(first_match(&grid, &"B".to_string()), None);
    assert_eq!(first_match(&Vec::new(), &"a".to_string()), None);
}

#[test]
fn spacer_is_never_lit() {
    let mut kb = Keyboard::with_custom_layout(vec![vec![":"]]);
    assert!(!kb.highlight(":"));
    assert_eq!(color_at(&kb, 0, 0), Some(Color::Black));
    let mut kb = Keyboard::with_custom_layout(vec![vec![":8", "X"]]);
    assert!(!kb.highlight(":8"));
    assert_eq!(color_at(&kb, 0, 0), Some(Color::Black));
}

#[test]
fn modifier_without_key_cap_reports_empty_token() {
    let mut kb = Keyboard::with_custom_layout(vec![vec!["A"]]);
    assert_eq!(kb.on(key(Key::Other, MOD_ALT)), Some(Msg::KeyPressed(String::new())));
    let mut kb = Keyboard::with_custom_layout(Vec::new());
    assert_eq!(kb.on(key(Key::Other, MOD_SHIFT)), Some(Msg::KeyPressed(String::new())));
    let mut kb = Keyboard::with_custom_layout(vec![vec!["A", "Shift"]]);
    assert_eq!(kb.on(key(Key::Other, MOD_ALT | MOD_SHIFT)), Some(Msg::KeyPressed("modifier".to_string())));
}

#[test]
fn layout_overflowing_row_stays_inside() {
    let mut kb = Keyboard::with_custom_layout(vec![vec!["A:5", "B:1", "C:5"]]);
    let area = Area { x: 3, y: 0, width: 7, height: 3 };
    let draws = kb.render(area);
    assert_eq!(draws[0].len(), 3);
    for d in &draws[0] {
        assert!(d.area.x >= 3 && d.area.x + d.area.width <= 10);
        assert_eq!(d.area.y, 0);
        assert_eq!(d.area.height, 3);
    }
}

#[test]
fn layout_widths_seven_one_one_one() {
    let mut kb = Keyboard::with_custom_layout(vec![vec!["A:7", "B:1", "C:1", "D:1"]]);
    let draws = kb.render(Area { x: 0, y: 0, width: 10, height: 3 });
    assert_eq!(draws.len(), 1);
    let widths: Vec<u16> = draws[0].iter().map(|d| d.area.width).collect();
    assert_eq!(widths, vec![7, 1, 1, 1]);
    let xs: Vec<u16> = draws[0].iter().map(|d| d.area.x).collect();
    assert_eq!(xs, vec![0, 7, 8, 9]);
    for w in draws[0].windows(2) {
        assert!(w[0].area.x + w[0].area.width <= w[1].area.x);
    }
}

#[test]
fn layout_rows_are_three_lines() {
    let mut kb = Keyboard::with_custom_layout(vec![vec!["A"], vec!["B"]]);
    let draws = kb.render(Area { x: 2, y: 1, width: 20, height: 10 });
    assert_eq!(draws[0][0].area.y, 1);
    assert_eq!(draws[0][0].area.height, 3);
    assert_eq!(draws[1][0].area.y, 4);
    assert_eq!(draws[0][0].area.width, 5);
    assert_eq!(draws[0][0].area.x, 2);
}

#[test]
fn render_spacer_border_invisible() {
    let mut kb = Keyboard::with_custom_layout(vec![vec![":8", "A"]]);
    kb.highlight("");
    let draws = kb.render(Area { x: 0, y: 0, width: 20, height: 3 });
    assert_eq!(draws[0][0].block.border_style.fg, Some(Color::Black));
    assert_eq!(draws[0][0].text, "");
    assert_eq!(draws[0][1].block.border_style.fg, Some(Color::DarkGray));
    assert_eq!(draws[0][1].text, "A");
    assert_eq!(draws[0][1].style.fg, Some(Color::White));
    assert_eq!(draws[0][1].block.border_type, BorderType::Rounded);
}

#[test]
fn render_draws_highlight_colour() {
    let mut kb = Keyboard::with_custom_layout(vec![vec!["Tab:7", "Q"]]);
    kb.on(key(Key::Tab, 0));
    let draws = kb.render(Area { x: 0, y: 0, width: 20, height: 3 });
    assert_eq!(draws[0][0].block.border_style.fg, Some(Color::Yellow));
    assert_eq!(draws[0][0].text, "Tab");
    assert_eq!(draws[0][1].block.border_style.fg, Some(Color::DarkGray));
}

#[test]
fn keyboard_colours_reach_key_caps() {
    let mut kb = Keyboard::with_custom_layout(vec![vec!["A"]])
        .foreground(Color::Green)
        .background(Color::Blue);
    let draws = kb.render(Area { x: 0, y: 0, width: 20, height: 3 });
    assert_eq!(draws[0][0].style.fg, Some(Color::Green));
    assert_eq!(draws[0][0].style.bg, Some(Color::Blue));
    match kb.query(Attribute::Foreground) {
        Some(AttrValue::Color(c)) => assert_eq!(c, Color::Green),
        other => panic!("unexpected {:?}", other),
    }
}

#[test]
fn keycap_render_defaults() {
    let k = Keycap::new("Tab:7");
    let d = k.render(Area { x: 1, y: 2, width: 7, height: 3 });
    assert_eq!(d.text, "Tab");
    assert_eq!(d.style.fg, Some(Color::Red));
    assert_eq!(d.style.bg, Some(Color::Reset));
    assert_eq!(d.block.border_type, BorderType::Rounded);
    assert_eq!(d.block.border_style.fg, Some(Color::Reset));
    assert_eq!(d.block.title, "");
    assert_eq!(d.area, Area { x: 1, y: 2, width: 7, height: 3 });
}

#[test]
fn keycap_builders() {
    let k = Keycap::new("Q")
        .label("Quit")
        .foreground(Color::Cyan)
        .background(Color::Black)
        .borders(Borders::default().color(Color::Green));
    let d = k.render(Area { x: 0, y: 0, width: 5, height: 3 });
    assert_eq!(d.text, "Quit");
    assert_eq!(d.style.fg, Some(Color::Cyan));
    assert_eq!(d.style.bg, Some(Color::Black));
    assert_eq!(d.block.border_type, BorderType::Plain);
    assert_eq!(d.block.border_style.fg, Some(Color::Green));
    assert_eq!(k.display_label(), "Q");
}

#[test]
fn key_cap_keeps_its_own_colours_over_fallback() {
    let k = Keycap::new("A").foreground(Color::Cyan);
    let look = Look {
        alignment: keyviz::style::Alignment::Left,
        modifiers: TextModifiers { bits: 1 },
        foreground: Color::White,
        background: Color::Blue,
    };
    let d = k.render_with(Area { x: 0, y: 0, width: 5, height: 3 }, look);
    assert_eq!(d.style.fg, Some(Color::Cyan));
    assert_eq!(d.style.bg, Some(Color::Blue));
    assert_eq!(d.style.add_modifier, TextModifiers { bits: 1 });
    assert_eq!(d.alignment, keyviz::style::Alignment::Left);
}

#[test]
fn key_cap_border_drawn_in_its_colour() {
    let k = Keycap::new("A").borders(Borders::default().color(Color::Magenta));
    let d = k.render(Area { x: 0, y: 0, width: 5, height: 3 });
    assert_eq!(d.block.border_style.fg, Some(Color::Magenta));
}
