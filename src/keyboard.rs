//! The keyboard: rows of key caps, their layout in an area of the terminal,
//! and the highlighting of the keys of the last key event.
use vstd::prelude::*;

use crate::input::{has_modifier, key_token, spec_key_token, Event, Key, KeyEvent, MOD_ALT, MOD_CONTROL, MOD_SHIFT};
use crate::keycap::{draws_with, framed_as, Keycap, KeycapDraw, KeycapView, Look};
use crate::label::{is_spacer, spec_display_label, spec_is_spacer, spec_width_hint, width_hint};
use crate::layout::{
    lengths_fit, prefix_sum, row_heights, split_area, split_holds, Area, Direction, ROW_HEIGHT,
};
use crate::props::{spec_empty_props, spec_get_is, spec_set, AttrValue, Attribute, Props};
use crate::style::{
    Alignment, BorderSides, BorderType, Borders, Color, TextModifiers, ACTIVE_COLOR, INVISIBLE_COLOR,
    NEUTRAL_COLOR, SIDES_ALL,
};

use crate::Msg;

verus! {

/// The lower-case form of `s`, as `str::to_lowercase` gives it.
pub uninterp spec fn lower_of(s: Seq<char>) -> Seq<char>;

/// Relies on `str::to_lowercase`: its result depends on the characters of
/// `s` alone; it is empty exactly when `s` is, as every character maps to
/// at least one.
#[verifier::external_body]
fn lowercase(s: &str) -> (r: String)
    ensures
        r@ == lower_of(s@),
        s@.len() == 0 ==> r@.len() == 0,
        s@.len() > 0 ==> r@.len() > 0,
{
    s.to_lowercase()
}

/// A keyboard: rows of key caps, top to bottom, each row left to right, and
/// the attributes it draws every key cap with.
pub struct Keyboard {
    props: Props,
    keycaps: Vec<Vec<Keycap>>,
}

/// What a keyboard is, for contracts.
pub struct KeyboardView {
    pub props: Props,
    pub rows: Seq<Seq<KeycapView>>,
}

impl View for Keyboard {
    type V = KeyboardView;

    closed spec fn view(&self) -> KeyboardView {
        KeyboardView {
            props: self.props,
            rows: self.keycaps@.map_values(|r: Vec<Keycap>| r@.map_values(|k: Keycap| k@)),
        }
    }
}

/// The border a key cap gets from the keyboard when it has none of its own.
pub open spec fn keyboard_borders(p: Props) -> Borders {
    match p.borders {
        Some(b) => b,
        None => Borders {
            sides: BorderSides { bits: SIDES_ALL },
            modifiers: BorderType::Rounded,
            color: NEUTRAL_COLOR,
        },
    }
}

/// The border that key cap `k` of a keyboard with attributes `kb` is drawn with.
pub open spec fn cap_borders(kb: Props, k: KeycapView) -> Borders {
    match k.props.borders {
        Some(b) => b,
        None => keyboard_borders(kb),
    }
}

pub open spec fn with_borders(k: KeycapView, b: Borders) -> KeycapView {
    KeycapView { label: k.label, props: Props { borders: Some(b), ..k.props } }
}

pub open spec fn with_color(b: Borders, c: Color) -> Borders {
    Borders { color: c, ..b }
}

/// The colour a key cap's border returns to when no key is pressed.
pub open spec fn rest_color(k: KeycapView) -> Color {
    if spec_is_spacer(k.label) {
        INVISIBLE_COLOR
    } else {
        NEUTRAL_COLOR
    }
}

/// Key cap `k` with its border back at rest: same sides and line kind.
pub open spec fn rest_cap(kb: Props, k: KeycapView) -> KeycapView {
    with_borders(k, with_color(cap_borders(kb, k), rest_color(k)))
}

/// Every key cap of `v` with its border at rest.
pub open spec fn spec_reset(v: KeyboardView) -> KeyboardView {
    KeyboardView {
        props: v.props,
        rows: v.rows.map_values(|r: Seq<KeycapView>| r.map_values(|k: KeycapView| rest_cap(v.props, k))),
    }
}

/// Key cap `k` answers to `key`: it is no spacer, and its display label and
/// `key` are equal once both are in lower case.
pub open spec fn key_matches(k: KeycapView, key: Seq<char>) -> bool {
    !spec_is_spacer(k.label) && lower_of(spec_display_label(k.label)) == lower_of(key)
}

pub open spec fn in_grid(rows: Seq<Seq<KeycapView>>, i: int, j: int) -> bool {
    0 <= i < rows.len() && 0 <= j < rows[i].len()
}

/// Position `(a, b)` comes before `(i, j)` in row-major order.
pub open spec fn before(a: int, b: int, i: int, j: int) -> bool {
    a < i || (a == i && b < j)
}

pub open spec fn has_match(rows: Seq<Seq<KeycapView>>, key: Seq<char>) -> bool {
    exists|i: int, j: int| in_grid(rows, i, j) && key_matches(#[trigger] rows[i][j], key)
}

/// `(i, j)` is the first key cap, in row-major order, that answers to `key`.
pub open spec fn first_match_at(rows: Seq<Seq<KeycapView>>, key: Seq<char>, i: int, j: int) -> bool {
    &&& in_grid(rows, i, j)
    &&& key_matches(rows[i][j], key)
    &&& forall|a: int, b: int|
        in_grid(rows, a, b) && before(a, b, i, j) ==> !key_matches(#[trigger] rows[a][b], key)
}

/// The keyboard after the first key cap that answers to `key` is lit; one
/// that has no such key cap stays as it is.
pub open spec fn spec_press(v: KeyboardView, key: Seq<char>) -> KeyboardView {
    if has_match(v.rows, key) {
        let ij = choose|ij: (int, int)| first_match_at(v.rows, key, ij.0, ij.1);
        let k = v.rows[ij.0][ij.1];
        KeyboardView {
            props: v.props,
            rows: v.rows.update(
                ij.0,
                v.rows[ij.0].update(ij.1, with_borders(k, with_color(cap_borders(v.props, k), ACTIVE_COLOR))),
            ),
        }
    } else {
        v
    }
}

/// The keyboard after `highlight(label)`: every border at rest, then the
/// first key cap that answers to a non-empty `label` lit.
pub open spec fn spec_highlight(v: KeyboardView, label: Seq<char>) -> KeyboardView {
    if label.len() == 0 {
        spec_reset(v)
    } else {
        spec_press(spec_reset(v), label)
    }
}

/// What the keyboard draws a key cap with where the key cap sets nothing of
/// its own: its own attributes, else centred white on the terminal's
/// background, no modifiers.
pub open spec fn kb_look(p: Props) -> Look {
    Look {
        alignment: match p.alignment {
            Some(a) => a,
            None => Alignment::Center,
        },
        modifiers: match p.modifiers {
            Some(m) => m,
            None => TextModifiers { bits: 0 },
        },
        foreground: match p.foreground {
            Some(c) => c,
            None => Color::White,
        },
        background: match p.background {
            Some(c) => c,
            None => Color::Reset,
        },
    }
}

/// `f` is key cap `k` framed by a keyboard with attributes `kb`.
pub open spec fn framed(kb: Props, k: KeycapView, f: KeycapView) -> bool {
    framed_as(k, f, keyboard_borders(kb))
}

/// The column widths of a row of key caps.
pub open spec fn widths_of(row: Seq<KeycapView>) -> Seq<u16> {
    row.map_values(|k: KeycapView| spec_width_hint(k.label))
}

/// A length of `ROW_HEIGHT` for each of `n` rows.
pub open spec fn heights_of(n: nat) -> Seq<u16> {
    Seq::new(n, |i: int| ROW_HEIGHT)
}

pub open spec fn areas_of(row: Seq<KeycapDraw>) -> Seq<Area> {
    row.map_values(|d: KeycapDraw| d.area)
}

/// `draws` lays the key caps of `v` out in `area`: `rows` cuts `area` into
/// rows of `ROW_HEIGHT` lines, and each row is cut into the widths of its
/// key caps.
pub open spec fn laid_out(area: Area, v: KeyboardView, rows: Seq<Area>, draws: Seq<Vec<KeycapDraw>>) -> bool {
    &&& split_holds(area, Direction::Vertical, heights_of(v.rows.len()), rows)
    &&& draws.len() == v.rows.len()
    &&& forall|i: int|
        0 <= i < v.rows.len() ==> split_holds(
            rows[i],
            Direction::Horizontal,
            widths_of(v.rows[i]),
            areas_of(#[trigger] draws[i]@),
        )
}

/// `w` is a keyboard made from `layout`, a raw label per key cap, with no
/// attribute set.
pub open spec fn built_from(w: KeyboardView, layout: Seq<Seq<Seq<char>>>) -> bool {
    &&& w.props == spec_empty_props()
    &&& w.rows.len() == layout.len()
    &&& forall|i: int| 0 <= i < layout.len() ==> #[trigger] w.rows[i].len() == layout[i].len()
    &&& forall|i: int, j: int|
        0 <= i < layout.len() && 0 <= j < layout[i].len() ==> (#[trigger] w.rows[i][j]).label
            == layout[i][j] && w.rows[i][j].props == spec_empty_props()
}

/// The labels of a layout given as string slices.
pub open spec fn layout_labels(layout: Seq<Vec<&str>>) -> Seq<Seq<Seq<char>>> {
    layout.map_values(|row: Vec<&str>| row@.map_values(|s: &str| s@))
}

/// The raw labels of the QWERTY keyboard, row by row.
pub open spec fn qwerty_labels() -> Seq<Seq<Seq<char>>> {
    seq![
        seq![
            "Esc"@, "1"@, "2"@, "3"@, "4"@, "5"@, "6"@, "7"@, "8"@, "9"@, "0"@, "-"@, "="@,
            "\\"@, "`"@,
        ],
        seq![
            "Tab:7"@, "Q"@, "W"@, "E"@, "R"@, "T"@, "Y"@, "U"@, "I"@, "O"@, "P"@, "["@, "]"@,
            "Bs:8"@,
        ],
        seq![
            "Caps:9"@, "A"@, "S"@, "D"@, "F"@, "G"@, "H"@, "J"@, "K"@, "L"@, ";"@, "'"@,
            "Enter:11"@,
        ],
        seq![
            "Shift:11"@, "Z"@, "X"@, "C"@, "V"@, "B"@, "N"@, "M"@, ","@, "."@, "/"@, "Shift:9"@,
            "Fn"@,
        ],
        seq![":8"@, "Alt"@, "Cmd:9"@, "Space:27"@, "Cmd:9"@, "Alt"@],
    ]
}

/// The keyboard after lighting each of `keys` in turn, with no reset between.
pub open spec fn press_all(v: KeyboardView, keys: Seq<Seq<char>>) -> KeyboardView
    decreases keys.len(),
{
    if keys.len() == 0 {
        v
    } else {
        spec_press(press_all(v, keys.drop_last()), keys.last())
    }
}

/// The glyph labels of the modifiers held in `e`: `Alt`, then `Caps` for
/// Control, then `Shift`.
pub open spec fn modifier_labels(e: KeyEvent) -> Seq<Seq<char>> {
    (if has_modifier(e.modifiers, MOD_ALT) { seq!["Alt"@] } else { Seq::empty() })
        + (if has_modifier(e.modifiers, MOD_CONTROL) { seq!["Caps"@] } else { Seq::empty() })
        + (if has_modifier(e.modifiers, MOD_SHIFT) { seq!["Shift"@] } else { Seq::empty() })
}

/// The labels lit for `e`: its modifiers, then its key when it has a token.
pub open spec fn event_labels(e: KeyEvent) -> Seq<Seq<char>> {
    if spec_key_token(e.code).len() > 0 {
        modifier_labels(e).push(spec_key_token(e.code))
    } else {
        modifier_labels(e)
    }
}

/// Escape with no modifier closes the application.
pub open spec fn is_close(e: KeyEvent) -> bool {
    e.code == Key::Esc && e.modifiers.bits == 0
}

/// Some key cap of `rows` answers to one of `keys`.
pub open spec fn any_match(rows: Seq<Seq<KeycapView>>, keys: Seq<Seq<char>>) -> bool
    decreases keys.len(),
{
    keys.len() > 0 && (any_match(rows, keys.drop_last()) || has_match(rows, keys.last()))
}

/// Some held modifier of `e` has a key cap in `rows` that answers to it.
pub open spec fn modifier_matched(rows: Seq<Seq<KeycapView>>, e: KeyEvent) -> bool {
    any_match(rows, modifier_labels(e))
}

/// The token the key-pressed message of `e` carries on a keyboard of `rows`:
/// the key's token, else `modifier` when a held modifier's key cap was lit,
/// else nothing.
pub open spec fn reply_token(rows: Seq<Seq<KeycapView>>, e: KeyEvent) -> Seq<char> {
    if spec_key_token(e.code).len() > 0 {
        spec_key_token(e.code)
    } else if modifier_matched(rows, e) {
        "modifier"@
    } else {
        Seq::empty()
    }
}

/// The keyboard after key event `e`: one reset, then each label of `e` lit.
pub open spec fn spec_after_key(v: KeyboardView, e: KeyEvent) -> KeyboardView {
    if is_close(e) {
        v
    } else {
        press_all(spec_reset(v), event_labels(e))
    }
}

/// Cell `c` holds the text `key`.
pub open spec fn holds_key(c: Option<String>, key: Seq<char>) -> bool {
    c matches Some(t) && t@ == key
}

/// `(i, j)` is the first position, in row-major order, where `grid` holds `key`.
pub open spec fn first_equal_at(grid: Seq<Vec<Option<String>>>, key: Seq<char>, i: int, j: int) -> bool {
    &&& 0 <= i < grid.len() && 0 <= j < grid[i]@.len()
    &&& holds_key(grid[i]@[j], key)
    &&& forall|a: int, b: int|
        0 <= a < grid.len() && 0 <= b < grid[a]@.len() && before(a, b, i, j) ==> !holds_key(
            #[trigger] grid[a]@[b],
            key,
        )
}

/// Cell `c` is what the keyboard looks key cap `k` up by: nothing for a
/// spacer, else its display label in lower case.
pub open spec fn folded_is(c: Option<String>, k: KeycapView) -> bool {
    if spec_is_spacer(k.label) {
        c is None
    } else {
        c matches Some(t) && t@ == lower_of(spec_display_label(k.label))
    }
}

/// The first position, in row-major order, where `grid` holds `key`; an
/// empty cell holds nothing. The keyboard calls it with the lower-case
/// display labels of its key caps, spacers left empty, and the lower-case
/// form of the key it looks for.
pub fn first_match(grid: &Vec<Vec<Option<String>>>, key: &String) -> (r: Option<(usize, usize)>)
    ensures
        match r {
            Some((i, j)) => first_equal_at(grid@, key@, i as int, j as int),
            None => forall|a: int, b: int|
                0 <= a < grid@.len() && 0 <= b < grid@[a]@.len() ==> !holds_key(#[trigger] grid@[a]@[b], key@),
        },
{
    let n = grid.len();
    let mut i: usize = 0;
    while i < n
        invariant
            n == grid@.len(),
            i <= n,
            forall|a: int, b: int|
                0 <= a < i && 0 <= b < grid@[a]@.len() ==> !holds_key(#[trigger] grid@[a]@[b], key@),
        decreases n - i,
    {
        let m = grid[i].len();
        let mut j: usize = 0;
        while j < m
            invariant
                n == grid@.len(),
                i < n,
                m == grid@[i as int]@.len(),
                j <= m,
                forall|a: int, b: int|
                    0 <= a < n && 0 <= b < grid@[a]@.len() && before(a, b, i as int, j as int) ==> !holds_key(
                        #[trigger] grid@[a]@[b],
                        key@,
                    ),
            decreases m - j,
        {
            match &grid[i][j] {
                Some(t) => {
                    if *t == *key {
                        return Some((i, j));
                    }
                },
                None => {},
            }
            j = j + 1;
        }
        i = i + 1;
    }
    None
}

proof fn lemma_first_match_unique(rows: Seq<Seq<KeycapView>>, key: Seq<char>, i: int, j: int)
    requires
        first_match_at(rows, key, i, j),
    ensures
        has_match(rows, key),
        (choose|ij: (int, int)| first_match_at(rows, key, ij.0, ij.1)) == (i, j),
{
    assert(key_matches(rows[i][j], key));
    let w = (i, j);
    assert(first_match_at(rows, key, w.0, w.1));
    let ij = choose|ij: (int, int)| first_match_at(rows, key, ij.0, ij.1);
    assert(first_match_at(rows, key, ij.0, ij.1));
    if before(ij.0, ij.1, i, j) {
        assert(!key_matches(rows[ij.0][ij.1], key));
    }
    if before(i, j, ij.0, ij.1) {
        assert(!key_matches(rows[i][j], key));
    }
}

proof fn lemma_reset_keeps_labels(v: KeyboardView)
    ensures
        spec_reset(v).rows.len() == v.rows.len(),
        forall|i: int| 0 <= i < v.rows.len() ==> #[trigger] spec_reset(v).rows[i].len() == v.rows[i].len(),
        forall|i: int, j: int|
            in_grid(v.rows, i, j) ==> (#[trigger] spec_reset(v).rows[i][j]).label == v.rows[i][j].label,
        forall|key: Seq<char>| has_match(spec_reset(v).rows, key) == has_match(v.rows, key),
{
    assert forall|key: Seq<char>| has_match(spec_reset(v).rows, key) == has_match(v.rows, key) by {
        if has_match(v.rows, key) {
            let (i, j) = choose|i: int, j: int| in_grid(v.rows, i, j) && key_matches(#[trigger] v.rows[i][j], key);
            assert(key_matches(spec_reset(v).rows[i][j], key));
        }
        if has_match(spec_reset(v).rows, key) {
            let (i, j) = choose|i: int, j: int|
                in_grid(spec_reset(v).rows, i, j) && key_matches(#[trigger] spec_reset(v).rows[i][j], key);
            assert(key_matches(v.rows[i][j], key));
        }
    }
}

/// Drawing frames a spacer with an invisible border, whatever border it had.
pub proof fn lemma_spacer_drawn_invisible(
    kb: Props,
    k: KeycapView,
    f: KeycapView,
    area: Area,
    d: KeycapDraw,
    look: Look,
)
    requires
        spec_is_spacer(k.label),
        framed(kb, k, f),
        draws_with(f, area, d, look),
    ensures
        f.props.borders matches Some(b) && b.color == INVISIBLE_COLOR,
        d.block.border_style.fg == Some(INVISIBLE_COLOR),
{
}

/// `highlight(x)` never lights a spacer: whatever `x` and whatever came
/// before, every spacer's border is invisible afterwards.
pub proof fn lemma_spacer_never_lit(v: KeyboardView, x: Seq<char>)
    ensures
        forall|i: int, j: int|
            in_grid(v.rows, i, j) && spec_is_spacer(v.rows[i][j].label) ==> ((#[trigger] spec_highlight(
                v,
                x,
            ).rows[i][j]).props.borders matches Some(b) && b.color == INVISIBLE_COLOR),
{
    let r = spec_reset(v);
    lemma_reset_keeps_labels(v);
    if x.len() > 0 && has_match(r.rows, x) {
        let ij = choose|ij: (int, int)| first_match_at(r.rows, x, ij.0, ij.1);
        let (i0, j0) = choose|i: int, j: int| in_grid(r.rows, i, j) && key_matches(#[trigger] r.rows[i][j], x);
        lemma_has_first_match(r.rows, x, i0, j0);
        assert(first_match_at(r.rows, x, ij.0, ij.1));
        assert(!spec_is_spacer(r.rows[ij.0][ij.1].label));
    }
}

/// `highlight(x)` changes no border's sides or line kind, whatever `x` and
/// whatever came before; a key cap without a border counts with the
/// keyboard's.
pub proof fn lemma_highlight_keeps_shape(v: KeyboardView, x: Seq<char>)
    ensures
        spec_highlight(v, x).rows.len() == v.rows.len(),
        forall|i: int| 0 <= i < v.rows.len() ==> #[trigger] spec_highlight(v, x).rows[i].len() == v.rows[i].len(),
        forall|i: int, j: int|
            in_grid(v.rows, i, j) ==> ((#[trigger] spec_highlight(v, x).rows[i][j]).props.borders matches Some(nb)
                && nb.sides == cap_borders(v.props, v.rows[i][j]).sides && nb.modifiers == cap_borders(
                v.props,
                v.rows[i][j],
            ).modifiers),
{
    let r = spec_reset(v);
    lemma_reset_keeps_labels(v);
    if x.len() > 0 && has_match(r.rows, x) {
        let ij = choose|ij: (int, int)| first_match_at(r.rows, x, ij.0, ij.1);
        let (i0, j0) = choose|i: int, j: int| in_grid(r.rows, i, j) && key_matches(#[trigger] r.rows[i][j], x);
        lemma_has_first_match(r.rows, x, i0, j0);
        assert(first_match_at(r.rows, x, ij.0, ij.1));
    }
}

/// A key event with a token and no modifier puts every border at rest once
/// and lights the key of that token: the same as `highlight` of the token.
pub proof fn lemma_plain_key_is_one_highlight(v: KeyboardView, e: KeyEvent)
    requires
        e.modifiers.bits == 0,
        spec_key_token(e.code).len() > 0,
    ensures
        spec_after_key(v, e) == spec_highlight(v, spec_key_token(e.code)),
{
    assert(0u8 & MOD_ALT != MOD_ALT) by (bit_vector);
    assert(0u8 & MOD_CONTROL != MOD_CONTROL) by (bit_vector);
    assert(0u8 & MOD_SHIFT != MOD_SHIFT) by (bit_vector);
    assert(modifier_labels(e) =~= Seq::<Seq<char>>::empty());
    let keys = event_labels(e);
    assert(keys =~= seq![spec_key_token(e.code)]);
    assert(keys.drop_last() =~= Seq::<Seq<char>>::empty());
    assert(e.code != Key::Esc);
    assert(!is_close(e));
    assert(press_all(spec_reset(v), keys.drop_last()) == spec_reset(v));
    assert(press_all(spec_reset(v), keys) == spec_press(spec_reset(v), keys.last()));
}

/// When a row's widths fit its area, each key cap of it is drawn exactly as
/// wide as its width hint, starting where the key caps before it end.
pub proof fn lemma_drawn_width(area: Area, v: KeyboardView, rows: Seq<Area>, draws: Seq<Vec<KeycapDraw>>, i: int, j: int)
    requires
        laid_out(area, v, rows, draws),
        in_grid(v.rows, i, j),
        lengths_fit(rows[i], Direction::Horizontal, widths_of(v.rows[i])),
    ensures
        draws[i]@[j].area.width == spec_width_hint(v.rows[i][j].label),
        draws[i]@[j].area.x == rows[i].x + prefix_sum(widths_of(v.rows[i]), j),
{
    assert(split_holds(rows[i], Direction::Horizontal, widths_of(v.rows[i]), areas_of(draws[i]@)));
    assert(areas_of(draws[i]@)[j] == draws[i]@[j].area);
}

/// Framing a framed key cap again changes nothing that is drawn: same label,
/// same text, same border, every other attribute as it was.
pub proof fn lemma_frame_twice(kb: Props, k: KeycapView, f: KeycapView, g: KeycapView)
    requires
        framed(kb, k, f),
        framed(kb, f, g),
    ensures
        g.label == f.label,
        g.props.borders == f.props.borders,
        g.props.text matches Some(t) && f.props.text matches Some(u) && t@ == u@,
        g.props == (Props { text: g.props.text, ..f.props }),
{
}

/// `highlight("")` leaves every spacer's border invisible and every other
/// border neutral, whatever came before.
pub proof fn lemma_reset_colors(v: KeyboardView)
    ensures
        forall|i: int, j: int|
            in_grid(v.rows, i, j) ==> ((#[trigger] spec_highlight(v, Seq::empty()).rows[i][j]).props.borders
                matches Some(b) && b.color == (if spec_is_spacer(v.rows[i][j].label) {
                INVISIBLE_COLOR
            } else {
                NEUTRAL_COLOR
            })),
{
}

/// `highlight(x)` when exactly one key cap answers to `x`: that key cap is
/// lit, every other border is at rest, and no border changes its sides or
/// line kind.
pub proof fn lemma_highlight_single(v: KeyboardView, x: Seq<char>, i: int, j: int)
    requires
        x.len() > 0,
        in_grid(v.rows, i, j),
        key_matches(v.rows[i][j], x),
        forall|a: int, b: int| in_grid(v.rows, a, b) && (a != i || b != j) ==> !key_matches(#[trigger] v.rows[a][b], x),
    ensures
        spec_highlight(v, x).rows[i][j].props.borders matches Some(b) && b.color == ACTIVE_COLOR,
        forall|a: int, b: int|
            in_grid(v.rows, a, b) && (a != i || b != j) ==> (#[trigger] spec_highlight(v, x).rows[a][b]).props.borders
                == Some(with_color(cap_borders(v.props, v.rows[a][b]), rest_color(v.rows[a][b]))),
        forall|a: int, b: int|
            in_grid(v.rows, a, b) ==> ((#[trigger] spec_highlight(v, x).rows[a][b]).props.borders matches Some(nb)
                && nb.sides == cap_borders(v.props, v.rows[a][b]).sides && nb.modifiers == cap_borders(
                v.props,
                v.rows[a][b],
            ).modifiers),
{
    let r = spec_reset(v);
    lemma_reset_keeps_labels(v);
    assert(key_matches(r.rows[i][j], x));
    assert forall|a: int, b: int| in_grid(r.rows, a, b) && before(a, b, i, j) implies !key_matches(
        #[trigger] r.rows[a][b],
        x,
    ) by {
        assert(r.rows[a][b].label == v.rows[a][b].label);
    }
    assert(first_match_at(r.rows, x, i, j));
    lemma_first_match_unique(r.rows, x, i, j);
}

/// Rows of the same shape and labels answer to the same keys.
proof fn lemma_same_labels_same_matches(r1: Seq<Seq<KeycapView>>, r2: Seq<Seq<KeycapView>>)
    requires
        r1.len() == r2.len(),
        forall|i: int| 0 <= i < r1.len() ==> #[trigger] r1[i].len() == r2[i].len(),
        forall|i: int, j: int| in_grid(r1, i, j) ==> (#[trigger] r1[i][j]).label == r2[i][j].label,
    ensures
        forall|key: Seq<char>| has_match(r1, key) == has_match(r2, key),
{
    assert forall|key: Seq<char>| has_match(r1, key) == has_match(r2, key) by {
        if has_match(r1, key) {
            let (i, j) = choose|i: int, j: int| in_grid(r1, i, j) && key_matches(#[trigger] r1[i][j], key);
            assert(key_matches(r2[i][j], key));
        }
        if has_match(r2, key) {
            let (i, j) = choose|i: int, j: int| in_grid(r2, i, j) && key_matches(#[trigger] r2[i][j], key);
            assert(r1[i][j].label == r2[i][j].label);
            assert(key_matches(r1[i][j], key));
        }
    }
}

/// Lighting key caps changes no label, so no key caps answer to.
proof fn lemma_press_all_keeps_matches(v: KeyboardView, keys: Seq<Seq<char>>)
    ensures
        press_all(v, keys).rows.len() == v.rows.len(),
        forall|i: int| 0 <= i < v.rows.len() ==> #[trigger] press_all(v, keys).rows[i].len() == v.rows[i].len(),
        forall|i: int, j: int|
            in_grid(v.rows, i, j) ==> (#[trigger] press_all(v, keys).rows[i][j]).label == v.rows[i][j].label,
        forall|key: Seq<char>| has_match(press_all(v, keys).rows, key) == has_match(v.rows, key),
    decreases keys.len(),
{
    if keys.len() > 0 {
        lemma_press_all_keeps_matches(v, keys.drop_last());
        let w = press_all(v, keys.drop_last());
        let key = keys.last();
        if has_match(w.rows, key) {
            let ij = choose|ij: (int, int)| first_match_at(w.rows, key, ij.0, ij.1);
            let (i0, j0) = choose|i: int, j: int| in_grid(w.rows, i, j) && key_matches(#[trigger] w.rows[i][j], key);
            assert(first_match_at(w.rows, key, ij.0, ij.1)) by {
                lemma_has_first_match(w.rows, key, i0, j0);
            }
        }
        lemma_same_labels_same_matches(press_all(v, keys).rows, v.rows);
    } else {
        lemma_same_labels_same_matches(press_all(v, keys).rows, v.rows);
    }
}

/// A key that some key cap answers to has a first such key cap.
proof fn lemma_has_first_match(rows: Seq<Seq<KeycapView>>, key: Seq<char>, i: int, j: int)
    requires
        in_grid(rows, i, j),
        key_matches(rows[i][j], key),
    ensures
        exists|ij: (int, int)| first_match_at(rows, key, ij.0, ij.1),
    decreases i, j,
{
    if exists|a: int, b: int| in_grid(rows, a, b) && before(a, b, i, j) && key_matches(#[trigger] rows[a][b], key) {
        let (a, b) = choose|a: int, b: int|
            in_grid(rows, a, b) && before(a, b, i, j) && key_matches(#[trigger] rows[a][b], key);
        lemma_has_first_match(rows, key, a, b);
    } else {
        let w = (i, j);
        assert(first_match_at(rows, key, w.0, w.1));
    }
}

proof fn lemma_any_match_same(r1: Seq<Seq<KeycapView>>, r2: Seq<Seq<KeycapView>>, keys: Seq<Seq<char>>)
    requires
        forall|key: Seq<char>| has_match(r1, key) == has_match(r2, key),
    ensures
        any_match(r1, keys) == any_match(r2, keys),
    decreases keys.len(),
{
    if keys.len() > 0 {
        lemma_any_match_same(r1, r2, keys.drop_last());
    }
}

proof fn lemma_press_all_push(v: KeyboardView, keys: Seq<Seq<char>>, key: Seq<char>)
    ensures
        press_all(v, keys.push(key)) == spec_press(press_all(v, keys), key),
{
    assert(keys.push(key).drop_last() =~= keys);
}

impl Default for Keyboard {
    /// A keyboard of a single `?` key.
    fn default() -> (r: Keyboard)
        ensures
            built_from(r@, seq![seq!["?"@]]),
    {
        let keycaps = vec![vec![Keycap::new("?")]];
        let r = Keyboard { props: Props::new(), keycaps };
        assert(r@.rows[0].len() == 1);
        r
    }
}

impl Keyboard {
    /// The QWERTY keyboard.
    pub fn new() -> (r: Keyboard)
        ensures
            built_from(r@, qwerty_labels()),
    {
        let layout = vec![
            vec!["Esc", "1", "2", "3", "4", "5", "6", "7", "8", "9", "0", "-", "=", "\\", "`"],
            vec!["Tab:7", "Q", "W", "E", "R", "T", "Y", "U", "I", "O", "P", "[", "]", "Bs:8"],
            vec!["Caps:9", "A", "S", "D", "F", "G", "H", "J", "K", "L", ";", "'", "Enter:11"],
            vec!["Shift:11", "Z", "X", "C", "V", "B", "N", "M", ",", ".", "/", "Shift:9", "Fn"],
            vec![":8", "Alt", "Cmd:9", "Space:27", "Cmd:9", "Alt"],
        ];
        assert(layout_labels(layout@) =~= qwerty_labels()) by {
            assert(layout_labels(layout@)[0] =~= qwerty_labels()[0]);
            assert(layout_labels(layout@)[1] =~= qwerty_labels()[1]);
            assert(layout_labels(layout@)[2] =~= qwerty_labels()[2]);
            assert(layout_labels(layout@)[3] =~= qwerty_labels()[3]);
            assert(layout_labels(layout@)[4] =~= qwerty_labels()[4]);
        }
        Self::with_custom_layout(layout)
    }

    /// A keyboard with one key cap per label of `layout`, row by row.
    pub fn with_custom_layout(layout: Vec<Vec<&str>>) -> (r: Keyboard)
        ensures
            built_from(r@, layout_labels(layout@)),
    {
        let ghost labels = layout_labels(layout@);
        let mut keycaps: Vec<Vec<Keycap>> = Vec::new();
        let n = layout.len();
        let mut i: usize = 0;
        while i < n
            invariant
                n == layout@.len(),
                labels == layout_labels(layout@),
                i <= n,
                keycaps@.len() == i,
                forall|a: int| 0 <= a < i ==> #[trigger] keycaps@[a]@.len() == labels[a].len(),
                forall|a: int, b: int|
                    0 <= a < i && 0 <= b < labels[a].len() ==> (#[trigger] keycaps@[a]@[b])@.label
                        == labels[a][b] && keycaps@[a]@[b]@.props == spec_empty_props(),
            decreases n - i,
        {
            let mut row: Vec<Keycap> = Vec::new();
            let m = layout[i].len();
            let mut j: usize = 0;
            while j < m
                invariant
                    n == layout@.len(),
                    labels == layout_labels(layout@),
                    i < n,
                    m == layout@[i as int]@.len(),
                    j <= m,
                    row@.len() == j,
                    forall|b: int|
                        0 <= b < j ==> (#[trigger] row@[b])@.label == labels[i as int][b]
                            && row@[b]@.props == spec_empty_props(),
                decreases m - j,
            {
                row.push(Keycap::new(layout[i][j]));
                j = j + 1;
            }
            keycaps.push(row);
            i = i + 1;
        }
        let r = Keyboard { props: Props::new(), keycaps };
        assert forall|a: int| 0 <= a < labels.len() implies #[trigger] r@.rows[a].len() == labels[a].len() by {}
        assert forall|a: int, b: int| 0 <= a < labels.len() && 0 <= b < labels[a].len() implies (
        #[trigger] r@.rows[a][b]).label == labels[a][b] && r@.rows[a][b].props == spec_empty_props() by {
            assert(r@.rows[a][b] == keycaps@[a]@[b]@);
        }
        r
    }

    pub fn borders(self, b: Borders) -> (r: Keyboard)
        ensures
            r@.props == (Props { borders: Some(b), ..self@.props }),
            r@.rows == self@.rows,
    {
        let mut k = self;
        k.attr(Attribute::Borders, AttrValue::Borders(b));
        k
    }

    pub fn foreground(self, color: Color) -> (r: Keyboard)
        ensures
            r@.props == (Props { foreground: Some(color), ..self@.props }),
            r@.rows == self@.rows,
    {
        let mut k = self;
        k.attr(Attribute::Foreground, AttrValue::Color(color));
        k
    }

    pub fn background(self, color: Color) -> (r: Keyboard)
        ensures
            r@.props == (Props { background: Some(color), ..self@.props }),
            r@.rows == self@.rows,
    {
        let mut k = self;
        k.attr(Attribute::Background, AttrValue::Color(color));
        k
    }

    /// The key caps, row by row.
    pub fn keycaps(&self) -> (r: &Vec<Vec<Keycap>>)
        ensures
            r@.map_values(|row: Vec<Keycap>| row@.map_values(|k: Keycap| k@)) == self@.rows,
    {
        &self.keycaps
    }

    pub fn query(&self, attr: Attribute) -> (r: Option<AttrValue>)
        ensures
            spec_get_is(self@.props, attr, r),
    {
        self.props.get(attr)
    }

    pub fn attr(&mut self, attr: Attribute, value: AttrValue)
        ensures
            final(self)@.props == spec_set(old(self)@.props, attr, value),
            final(self)@.rows == old(self)@.rows,
    {
        self.props.set(attr, value);
    }

    /// The border of key cap `(i, j)` becomes `b`; nothing else changes.
    fn set_cap_borders(&mut self, i: usize, j: usize, b: Borders)
        requires
            in_grid(old(self)@.rows, i as int, j as int),
        ensures
            final(self)@.props == old(self)@.props,
            final(self)@.rows == old(self)@.rows.update(
                i as int,
                old(self)@.rows[i as int].update(j as int, with_borders(old(self)@.rows[i as int][j as int], b)),
            ),
    {
        let ghost before_rows = self.keycaps@;
        self.keycaps[i][j].attr(Attribute::Borders, AttrValue::Borders(b));
        assert(self.keycaps@[i as int]@ =~= before_rows[i as int]@.update(j as int, self.keycaps@[i as int]@[j as int]));
        assert(self.keycaps@ =~= before_rows.update(i as int, self.keycaps@[i as int]));
        assert(self@.rows[i as int] =~= old(self)@.rows[i as int].update(
            j as int,
            with_borders(old(self)@.rows[i as int][j as int], b),
        ));
        assert(self@.rows =~= old(self)@.rows.update(
            i as int,
            old(self)@.rows[i as int].update(j as int, with_borders(old(self)@.rows[i as int][j as int], b)),
        ));
    }
    /// The border a key cap without one of its own is drawn with.
    fn default_borders(&self) -> (r: Borders)
        ensures
            r == keyboard_borders(self@.props),
    {
        match self.props.borders {
            Some(b) => b,
            None => Borders::default().modifiers(BorderType::Rounded).color(NEUTRAL_COLOR),
        }
    }

    /// The border that key cap `(i, j)` is drawn with.
    fn cap_border(&self, i: usize, j: usize) -> (r: Borders)
        requires
            in_grid(self@.rows, i as int, j as int),
        ensures
            r == cap_borders(self@.props, self@.rows[i as int][j as int]),
    {
        match self.keycaps[i][j].border() {
            Some(b) => b,
            None => self.default_borders(),
        }
    }

    /// Frames key cap `(i, j)` for drawing; nothing else changes.
    fn frame_cap(&mut self, i: usize, j: usize)
        requires
            in_grid(old(self)@.rows, i as int, j as int),
        ensures
            final(self)@.props == old(self)@.props,
            final(self)@.rows.len() == old(self)@.rows.len(),
            final(self)@.rows[i as int].len() == old(self)@.rows[i as int].len(),
            framed(old(self)@.props, old(self)@.rows[i as int][j as int], final(self)@.rows[i as int][j as int]),
            forall|a: int, b: int|
                in_grid(old(self)@.rows, a, b) && (a != i || b != j) ==> #[trigger] final(self)@.rows[a][b]
                    == old(self)@.rows[a][b],
            forall|a: int| 0 <= a < old(self)@.rows.len() ==> #[trigger] final(self)@.rows[a].len() == old(self)@.rows[a].len(),
    {
        let fallback = self.default_borders();
        let ghost before_rows = self.keycaps@;
        self.keycaps[i][j].frame(fallback);
        assert(self.keycaps@[i as int]@ =~= before_rows[i as int]@.update(j as int, self.keycaps@[i as int]@[j as int]));
        assert(self.keycaps@ =~= before_rows.update(i as int, self.keycaps@[i as int]));
        assert forall|a: int, b: int|
            in_grid(old(self)@.rows, a, b) && (a != i || b != j) implies #[trigger] self@.rows[a][b]
                == old(self)@.rows[a][b] by {
            if a == i {
                assert(self.keycaps@[a]@[b] == before_rows[a]@[b]);
            }
        }
    }

    /// What the keyboard draws a key cap with where it sets nothing itself.
    fn look(&self) -> (r: Look)
        ensures
            r == kb_look(self@.props),
    {
        Look {
            alignment: match self.props.alignment {
                Some(a) => a,
                None => Alignment::Center,
            },
            modifiers: match self.props.modifiers {
                Some(m) => m,
                None => TextModifiers { bits: 0 },
            },
            foreground: match self.props.foreground {
                Some(c) => c,
                None => Color::White,
            },
            background: match self.props.background {
                Some(c) => c,
                None => Color::Reset,
            },
        }
    }

    /// The column widths of row `i`.
    fn row_widths(&self, i: usize) -> (r: Vec<u16>)
        requires
            0 <= i < self@.rows.len(),
        ensures
            r@ == widths_of(self@.rows[i as int]),
    {
        assert(self@.rows[i as int].len() == self.keycaps@[i as int]@.len());
        let m = self.keycaps[i].len();
        let mut r: Vec<u16> = Vec::new();
        let mut j: usize = 0;
        while j < m
            invariant
                0 <= i < self@.rows.len(),
                m == self@.rows[i as int].len(),
                j <= m,
                r@ =~= widths_of(self@.rows[i as int]).take(j as int),
            decreases m - j,
        {
            assert(self@.rows[i as int].len() == self.keycaps@[i as int]@.len());
            r.push(width_hint(self.keycaps[i][j].label_with_width_suffix()));
            j = j + 1;
            assert(r@ =~= widths_of(self@.rows[i as int]).take(j as int));
        }
        assert(widths_of(self@.rows[i as int]).take(m as int) =~= widths_of(self@.rows[i as int]));
        r
    }

    /// Frames every key cap (its display label as text, its border set) and
    /// lays the rows out in `area`: rows of `ROW_HEIGHT` lines from the top,
    /// each cut into the widths of its key caps from the left. Gives how to
    /// draw each key cap, row by row; what a key cap does not set itself is
    /// taken from the keyboard.
    pub fn render(&mut self, area: Area) -> (r: Vec<Vec<KeycapDraw>>)
        ensures
            final(self)@.props == old(self)@.props,
            final(self)@.rows.len() == old(self)@.rows.len(),
            forall|i: int| 0 <= i < old(self)@.rows.len() ==> #[trigger] final(self)@.rows[i].len() == old(self)@.rows[i].len(),
            forall|i: int, j: int|
                in_grid(old(self)@.rows, i, j) ==> framed(
                    old(self)@.props,
                    old(self)@.rows[i][j],
                    #[trigger] final(self)@.rows[i][j],
                ),
            exists|rows: Seq<Area>| laid_out(area, old(self)@, rows, r@),
            forall|i: int| 0 <= i < old(self)@.rows.len() ==> #[trigger] r@[i]@.len() == old(self)@.rows[i].len(),
            forall|i: int, j: int|
                in_grid(old(self)@.rows, i, j) ==> draws_with(
                    final(self)@.rows[i][j],
                    r@[i]@[j].area,
                    #[trigger] r@[i]@[j],
                    kb_look(old(self)@.props),
                ),
    {
        let n = self.keycaps.len();
        let look = self.look();
        let heights = row_heights(n);
        let row_chunks = split_area(area, Direction::Vertical, &heights);
        assert(heights@ == heights_of(n as nat));
        let mut out: Vec<Vec<KeycapDraw>> = Vec::new();
        let mut i: usize = 0;
        while i < n
            invariant
                n == old(self)@.rows.len(),
                i <= n,
                look == kb_look(old(self)@.props),
                split_holds(area, Direction::Vertical, heights_of(n as nat), row_chunks@),
                self@.props == old(self)@.props,
                self@.rows.len() == n,
                forall|a: int| 0 <= a < n ==> #[trigger] self@.rows[a].len() == old(self)@.rows[a].len(),
                forall|a: int, b: int|
                    in_grid(old(self)@.rows, a, b) && a >= i ==> #[trigger] self@.rows[a][b] == old(self)@.rows[a][b],
                forall|a: int, b: int|
                    in_grid(old(self)@.rows, a, b) && a < i ==> framed(
                        old(self)@.props,
                        old(self)@.rows[a][b],
                        #[trigger] self@.rows[a][b],
                    ),
                out@.len() == i,
                forall|a: int| 0 <= a < i ==> #[trigger] out@[a]@.len() == old(self)@.rows[a].len(),
                forall|a: int|
                    0 <= a < i ==> split_holds(
                        row_chunks@[a],
                        Direction::Horizontal,
                        widths_of(old(self)@.rows[a]),
                        areas_of(#[trigger] out@[a]@),
                    ),
                forall|a: int, b: int|
                    in_grid(old(self)@.rows, a, b) && a < i ==> draws_with(
                        self@.rows[a][b],
                        out@[a]@[b].area,
                        #[trigger] out@[a]@[b],
                        look,
                    ),
            decreases n - i,
        {
            let widths = self.row_widths(i);
            assert(self@.rows[i as int] =~= old(self)@.rows[i as int]);
            let chunks = split_area(row_chunks[i], Direction::Horizontal, &widths);
            let m = widths.len();
            let mut row_out: Vec<KeycapDraw> = Vec::new();
            let mut j: usize = 0;
            while j < m
                invariant
                    n == old(self)@.rows.len(),
                    i < n,
                    m == old(self)@.rows[i as int].len(),
                    j <= m,
                    look == kb_look(old(self)@.props),
                    split_holds(row_chunks@[i as int], Direction::Horizontal, widths_of(old(self)@.rows[i as int]), chunks@),
                    chunks@.len() == m,
                    self@.props == old(self)@.props,
                    self@.rows.len() == n,
                    forall|a: int| 0 <= a < n ==> #[trigger] self@.rows[a].len() == old(self)@.rows[a].len(),
                    forall|a: int, b: int|
                        in_grid(old(self)@.rows, a, b) && (a > i || (a == i && b >= j)) ==> #[trigger] self@.rows[a][b]
                            == old(self)@.rows[a][b],
                    forall|a: int, b: int|
                        in_grid(old(self)@.rows, a, b) && (a < i || (a == i && b < j)) ==> framed(
                            old(self)@.props,
                            old(self)@.rows[a][b],
                            #[trigger] self@.rows[a][b],
                        ),
                    out@.len() == i,
                    forall|a: int| 0 <= a < i ==> #[trigger] out@[a]@.len() == old(self)@.rows[a].len(),
                    forall|a: int, b: int|
                        in_grid(old(self)@.rows, a, b) && a < i ==> draws_with(
                            self@.rows[a][b],
                            out@[a]@[b].area,
                            #[trigger] out@[a]@[b],
                            look,
                        ),
                    row_out@.len() == j,
                    forall|b: int| 0 <= b < j ==> (#[trigger] row_out@[b]).area == chunks@[b],
                    forall|b: int|
                        0 <= b < j ==> draws_with(
                            self@.rows[i as int][b],
                            row_out@[b].area,
                            #[trigger] row_out@[b],
                            look,
                        ),
                decreases m - j,
            {
                self.frame_cap(i, j);
                assert(self@.rows[i as int].len() == self.keycaps@[i as int]@.len());
                let d = self.keycaps[i][j].render_with(chunks[j], look);
                row_out.push(d);
                j = j + 1;
            }
            assert(areas_of(row_out@) =~= chunks@);
            out.push(row_out);
            assert(out@[i as int]@ == row_out@);
            i = i + 1;
        }
        assert(laid_out(area, old(self)@, row_chunks@, out@));
        out
    }

    /// Answers an input event. Escape alone closes the application and
    /// changes nothing. Any other key event puts every border at rest once,
    /// then lights the key caps of the held modifiers (`Alt`, `Caps` for
    /// Control, `Shift`) and of the key's token, and reports the key.
    /// Other events are not answered.
    pub fn on(&mut self, ev: Event) -> (r: Option<Msg>)
        ensures
            match ev {
                Event::Keyboard(e) => if is_close(e) {
                    r == Some(Msg::AppClose) && final(self)@ == old(self)@
                } else {
                    &&& r matches Some(Msg::KeyPressed(t)) && t@ == reply_token(old(self)@.rows, e)
                    &&& final(self)@ == spec_after_key(old(self)@, e)
                },
                Event::Other => r is None && final(self)@ == old(self)@,
            },
    {
        match ev {
            Event::Keyboard(e) => {
                if e.code == Key::Esc && e.modifiers.bits == 0 {
                    return Some(Msg::AppClose);
                }
                let token = key_token(e.code);
                let mut modified = false;
                self.reset_borders();
                let ghost base = self@;
                let ghost mut pressed: Seq<Seq<char>> = Seq::empty();
                assert(press_all(base, pressed) == base);
                proof {
                    lemma_reset_keeps_labels(old(self)@);
                }
                assert(modified == any_match(base.rows, pressed));
                if e.modifiers.contains(MOD_ALT) {
                    proof {
                        lemma_press_all_keeps_matches(base, pressed);
                    }
                    let lit = self.press("Alt");
                    proof {
                        assert(lit == has_match(base.rows, "Alt"@));
                        lemma_press_all_push(base, pressed, "Alt"@);
                        assert(pressed.push("Alt"@).drop_last() =~= pressed);
                        assert(pressed.push("Alt"@).last() == "Alt"@);
                        assert(any_match(base.rows, pressed.push("Alt"@)) == (any_match(base.rows, pressed) || lit));
                        pressed = pressed.push("Alt"@);
                    }
                    modified = modified || lit;
                    assert(modified == any_match(base.rows, pressed));
                }
                if e.modifiers.contains(MOD_CONTROL) {
                    proof {
                        lemma_press_all_keeps_matches(base, pressed);
                    }
                    let lit = self.press("Caps");
                    proof {
                        assert(lit == has_match(base.rows, "Caps"@));
                        lemma_press_all_push(base, pressed, "Caps"@);
                        assert(pressed.push("Caps"@).drop_last() =~= pressed);
                        assert(pressed.push("Caps"@).last() == "Caps"@);
                        assert(any_match(base.rows, pressed.push("Caps"@)) == (any_match(base.rows, pressed) || lit));
                        pressed = pressed.push("Caps"@);
                    }
                    modified = modified || lit;
                    assert(modified == any_match(base.rows, pressed));
                }
                if e.modifiers.contains(MOD_SHIFT) {
                    proof {
                        lemma_press_all_keeps_matches(base, pressed);
                    }
                    let lit = self.press("Shift");
                    proof {
                        assert(lit == has_match(base.rows, "Shift"@));
                        lemma_press_all_push(base, pressed, "Shift"@);
                        assert(pressed.push("Shift"@).drop_last() =~= pressed);
                        assert(pressed.push("Shift"@).last() == "Shift"@);
                        assert(any_match(base.rows, pressed.push("Shift"@)) == (any_match(base.rows, pressed) || lit));
                        pressed = pressed.push("Shift"@);
                    }
                    modified = modified || lit;
                    assert(modified == any_match(base.rows, pressed));
                }
                assert(pressed =~= modifier_labels(e));
                assert(modified == any_match(base.rows, pressed));
                assert(any_match(base.rows, pressed) == any_match(old(self)@.rows, pressed)) by {
                    lemma_any_match_same(base.rows, old(self)@.rows, pressed);
                }
                if !token.as_str().is_empty() {
                    self.press(token.as_str());
                    proof {
                        lemma_press_all_push(base, pressed, token@);
                    }
                    return Some(Msg::KeyPressed(token));
                } else if modified {
                    return Some(Msg::KeyPressed("modifier".to_owned()));
                }
                Some(Msg::KeyPressed(String::new()))
            },
            Event::Other => None,
        }
    }

    /// Puts the border of every key cap at rest: spacers hidden, every other
    /// key cap neutral, sides and line kind kept.
    fn reset_borders(&mut self)
        ensures
            final(self)@ == spec_reset(old(self)@),
    {
        let n = self.keycaps.len();
        let mut i: usize = 0;
        while i < n
            invariant
                n == old(self)@.rows.len(),
                i <= n,
                self@.props == old(self)@.props,
                self@.rows.len() == n,
                forall|a: int| 0 <= a < n ==> #[trigger] self@.rows[a].len() == old(self)@.rows[a].len(),
                forall|a: int, b: int|
                    in_grid(old(self)@.rows, a, b) ==> #[trigger] self@.rows[a][b] == if a < i {
                        rest_cap(old(self)@.props, old(self)@.rows[a][b])
                    } else {
                        old(self)@.rows[a][b]
                    },
            decreases n - i,
        {
            assert(self@.rows[i as int].len() == self.keycaps@[i as int]@.len());
            let m = self.keycaps[i].len();
            let mut j: usize = 0;
            while j < m
                invariant
                    n == old(self)@.rows.len(),
                    i < n,
                    j <= m,
                    m == old(self)@.rows[i as int].len(),
                    self@.props == old(self)@.props,
                    self@.rows.len() == n,
                    forall|a: int| 0 <= a < n ==> #[trigger] self@.rows[a].len() == old(self)@.rows[a].len(),
                    forall|a: int, b: int|
                        in_grid(old(self)@.rows, a, b) ==> #[trigger] self@.rows[a][b] == if a < i || (a == i
                            && b < j) {
                            rest_cap(old(self)@.props, old(self)@.rows[a][b])
                        } else {
                            old(self)@.rows[a][b]
                        },
                decreases m - j,
            {
                assert(self@.rows[i as int].len() == self.keycaps@[i as int]@.len());
                let border = self.cap_border(i, j);
                let color = if is_spacer(self.keycaps[i][j].label_with_width_suffix()) {
                    INVISIBLE_COLOR
                } else {
                    NEUTRAL_COLOR
                };
                self.set_cap_borders(i, j, border.color(color));
                j = j + 1;
            }
            i = i + 1;
        }
        assert(self@.rows =~= spec_reset(old(self)@).rows) by {
            assert forall|a: int| 0 <= a < n implies #[trigger] self@.rows[a] =~= spec_reset(
                old(self)@,
            ).rows[a] by {
                assert forall|b: int| 0 <= b < self@.rows[a].len() implies #[trigger] self@.rows[a][b]
                    == spec_reset(old(self)@).rows[a][b] by {
                    assert(in_grid(old(self)@.rows, a, b));
                }
            }
        }
    }

    /// The display label of every key cap in lower case, row by row.
    fn folded_labels(&self) -> (r: Vec<Vec<Option<String>>>)
        ensures
            r@.len() == self@.rows.len(),
            forall|i: int| 0 <= i < r@.len() ==> #[trigger] r@[i]@.len() == self@.rows[i].len(),
            forall|i: int, j: int|
                in_grid(self@.rows, i, j) ==> folded_is(#[trigger] r@[i]@[j], self@.rows[i][j]),
    {
        let n = self.keycaps.len();
        let mut r: Vec<Vec<Option<String>>> = Vec::new();
        let mut i: usize = 0;
        while i < n
            invariant
                n == self@.rows.len(),
                i <= n,
                r@.len() == i,
                forall|a: int| 0 <= a < i ==> #[trigger] r@[a]@.len() == self@.rows[a].len(),
                forall|a: int, b: int|
                    in_grid(self@.rows, a, b) && a < i ==> folded_is(#[trigger] r@[a]@[b], self@.rows[a][b]),
            decreases n - i,
        {
            assert(self@.rows[i as int].len() == self.keycaps@[i as int]@.len());
            let m = self.keycaps[i].len();
            let mut row: Vec<Option<String>> = Vec::new();
            let mut j: usize = 0;
            while j < m
                invariant
                    n == self@.rows.len(),
                    i < n,
                    m == self@.rows[i as int].len(),
                    j <= m,
                    row@.len() == j,
                    forall|b: int| 0 <= b < j ==> folded_is(#[trigger] row@[b], self@.rows[i as int][b]),
                decreases m - j,
            {
                assert(self@.rows[i as int].len() == self.keycaps@[i as int]@.len());
                if is_spacer(self.keycaps[i][j].label_with_width_suffix()) {
                    row.push(None);
                } else {
                    let shown = self.keycaps[i][j].display_label();
                    row.push(Some(lowercase(shown.as_str())));
                }
                j = j + 1;
            }
            r.push(row);
            i = i + 1;
        }
        r
    }

    /// Lights the first key cap, in row-major order, that is no spacer and
    /// whose display label equals `key` once both are in lower case. Tells
    /// whether there was one.
    fn press(&mut self, key: &str) -> (r: bool)
        ensures
            r == has_match(old(self)@.rows, key@),
            final(self)@ == spec_press(old(self)@, key@),
    {
        let wanted = lowercase(key);
        let folded = self.folded_labels();
        match first_match(&folded, &wanted) {
            Some((i, j)) => {
                assert(folded_is(folded@[i as int]@[j as int], self@.rows[i as int][j as int]));
                assert forall|a: int, b: int|
                    in_grid(self@.rows, a, b) && before(a, b, i as int, j as int) implies !key_matches(
                    #[trigger] self@.rows[a][b],
                    key@,
                ) by {
                    assert(folded_is(folded@[a]@[b], self@.rows[a][b]));
                    assert(!holds_key(folded@[a]@[b], wanted@));
                }
                proof {
                    lemma_first_match_unique(self@.rows, key@, i as int, j as int);
                }
                let border = self.cap_border(i, j);
                self.set_cap_borders(i, j, border.color(ACTIVE_COLOR));
                true
            },
            None => {
                assert(!has_match(self@.rows, key@)) by {
                    if has_match(self@.rows, key@) {
                        let (a, b) = choose|a: int, b: int|
                            in_grid(self@.rows, a, b) && key_matches(#[trigger] self@.rows[a][b], key@);
                        assert(folded_is(folded@[a]@[b], self@.rows[a][b]));
                        assert(!holds_key(folded@[a]@[b], wanted@));
                    }
                }
                false
            },
        }
    }

    /// Puts every border at rest, then, for a non-empty `label`, lights the
    /// first key cap that answers to it. Tells whether one did.
    pub fn highlight(&mut self, label: &str) -> (r: bool)
        ensures
            r == (label@.len() > 0 && has_match(old(self)@.rows, label@)),
            final(self)@ == spec_highlight(old(self)@, label@),
    {
        self.reset_borders();
        proof {
            lemma_reset_keeps_labels(old(self)@);
        }
        if label.is_empty() {
            return false;
        }
        self.press(label)
    }
}

} // verus!
