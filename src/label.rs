//! Key labels: the raw label of a key may carry a column width after a `:`
//! separator (`"Tab:7"`). The text drawn on the key is the label without that
//! suffix; the raw label decides the width and whether the key is a spacer.
use vstd::prelude::*;

verus! {

/// Column width of a key whose label carries no usable width.
pub const DEFAULT_WIDTH: u16 = 5;

/// The character that separates a key's name from its width.
pub const SEPARATOR: char = ':';

pub open spec fn is_digit(c: char) -> bool {
    '0' <= c && c <= '9'
}

pub open spec fn all_digits(s: Seq<char>) -> bool {
    forall|i: int| 0 <= i < s.len() ==> is_digit(#[trigger] s[i])
}

pub open spec fn digit_value(c: char) -> nat {
    (c as nat - '0' as nat) as nat
}

/// The number that a run of decimal digits spells.
pub open spec fn digits_value(s: Seq<char>) -> nat
    decreases s.len(),
{
    if s.len() == 0 {
        0
    } else {
        digits_value(s.drop_last()) * 10 + digit_value(s.last())
    }
}

/// The digits of a `u16` numeral: an optional `+`, then the digits.
pub open spec fn numeral_digits(s: Seq<char>) -> Seq<char> {
    if s.len() > 0 && s[0] == '+' {
        s.drop_first()
    } else {
        s
    }
}

/// `s` is text that `u16`'s `FromStr` accepts: an optional `+` followed by
/// at least one decimal digit, with a value that fits in 16 bits.
pub open spec fn is_u16_numeral(s: Seq<char>) -> bool {
    let d = numeral_digits(s);
    d.len() > 0 && all_digits(d) && digits_value(d) <= u16::MAX
}

/// `p` is the position of the first separator in `s`.
pub open spec fn first_sep_at(s: Seq<char>, p: int) -> bool {
    0 <= p < s.len() && s[p] == SEPARATOR && forall|i: int| 0 <= i < p ==> s[i] != SEPARATOR
}

/// `p` is the position of the last separator in `s`.
pub open spec fn last_sep_at(s: Seq<char>, p: int) -> bool {
    0 <= p < s.len() && s[p] == SEPARATOR && forall|i: int| p < i < s.len() ==> s[i] != SEPARATOR
}

pub open spec fn has_sep(s: Seq<char>) -> bool {
    exists|i: int| 0 <= i < s.len() && s[i] == SEPARATOR
}

/// The position of the first separator in `s`, or -1 when there is none.
pub open spec fn first_sep(s: Seq<char>) -> int {
    if has_sep(s) {
        choose|p: int| first_sep_at(s, p)
    } else {
        -1
    }
}

/// What follows the first separator of a label that has one.
pub open spec fn width_text(s: Seq<char>) -> Seq<char> {
    s.subrange(first_sep(s) + 1, s.len() as int)
}

/// The column width of a key: the `u16` written after the first separator,
/// or `DEFAULT_WIDTH` when there is no separator or what follows it is no
/// such number.
pub open spec fn spec_width_hint(s: Seq<char>) -> u16 {
    if has_sep(s) && is_u16_numeral(width_text(s)) {
        digits_value(numeral_digits(width_text(s))) as u16
    } else {
        DEFAULT_WIDTH
    }
}

/// `s` ends in a separator followed by one or more digits.
pub open spec fn has_width_suffix(s: Seq<char>) -> bool {
    exists|p: int|
        #![trigger last_sep_at(s, p)]
        last_sep_at(s, p) && p + 1 < s.len() && all_digits(s.subrange(p + 1, s.len() as int))
}

/// The text drawn on a key: the raw label without a trailing `:<digits>`.
pub open spec fn spec_display_label(s: Seq<char>) -> Seq<char> {
    if has_width_suffix(s) {
        s.take(choose|p: int| last_sep_at(s, p))
    } else {
        s
    }
}

/// A spacer is a key whose raw label is the separator followed only by digits.
pub open spec fn spec_is_spacer(s: Seq<char>) -> bool {
    s.len() > 0 && s[0] == SEPARATOR && all_digits(s.drop_first())
}

proof fn lemma_first_sep_unique(s: Seq<char>, p: int)
    requires
        first_sep_at(s, p),
    ensures
        has_sep(s),
        first_sep(s) == p,
{
    assert(s[p] == SEPARATOR);
    let q = choose|q: int| first_sep_at(s, q);
    assert(first_sep_at(s, q));
    if q < p {
        assert(s[q] != SEPARATOR);
    }
    if p < q {
        assert(s[p] != SEPARATOR);
    }
}

proof fn lemma_last_sep_unique(s: Seq<char>, p: int, q: int)
    requires
        last_sep_at(s, p),
        last_sep_at(s, q),
    ensures
        p == q,
{
    if q < p {
        assert(s[p] != SEPARATOR);
    }
    if p < q {
        assert(s[q] != SEPARATOR);
    }
}

proof fn lemma_digits_value_push(s: Seq<char>, c: char)
    ensures
        digits_value(s.push(c)) == digits_value(s) * 10 + digit_value(c),
{
    assert(s.push(c).drop_last() =~= s);
}

/// `s` is a name without separator, one separator at `p`, and a `u16`
/// numeral after it.
pub open spec fn one_sep_numeral(s: Seq<char>, p: int) -> bool {
    &&& 0 <= p < s.len()
    &&& s[p] == SEPARATOR
    &&& forall|i: int| 0 <= i < s.len() && i != p ==> s[i] != SEPARATOR
    &&& is_u16_numeral(s.subrange(p + 1, s.len() as int))
}

proof fn lemma_has_first_sep(s: Seq<char>)
    requires
        has_sep(s),
    ensures
        exists|p: int| first_sep_at(s, p),
    decreases s.len(),
{
    let t = s.drop_last();
    if has_sep(t) {
        lemma_has_first_sep(t);
        let p = choose|p: int| first_sep_at(t, p);
        assert(s[p] == t[p]);
        assert forall|i: int| 0 <= i < p implies s[i] != SEPARATOR by {
            assert(s[i] == t[i]);
        }
        assert(first_sep_at(s, p));
    } else {
        let k = choose|k: int| 0 <= k < s.len() && s[k] == SEPARATOR;
        if k < s.len() - 1 {
            assert(t[k] == SEPARATOR);
        }
        assert forall|i: int| 0 <= i < s.len() - 1 implies s[i] != SEPARATOR by {
            assert(t[i] == s[i]);
        }
        assert(first_sep_at(s, s.len() - 1));
    }
}

/// A label made of a name, one separator and a `u16` numeral has that
/// number as its width.
pub proof fn lemma_width_hint_of_numeral(s: Seq<char>, p: int)
    requires
        one_sep_numeral(s, p),
    ensures
        spec_width_hint(s) == digits_value(numeral_digits(s.subrange(p + 1, s.len() as int))) as u16,
{
    assert(first_sep_at(s, p));
    lemma_first_sep_unique(s, p);
}

/// Every other label has the default width.
pub proof fn lemma_width_hint_default(s: Seq<char>)
    requires
        forall|p: int| !one_sep_numeral(s, p),
    ensures
        spec_width_hint(s) == DEFAULT_WIDTH,
{
    if has_sep(s) && is_u16_numeral(width_text(s)) {
        lemma_has_first_sep(s);
        let p = choose|p: int| first_sep_at(s, p);
        lemma_first_sep_unique(s, p);
        let w = width_text(s);
        assert forall|i: int| 0 <= i < s.len() && i != p implies s[i] != SEPARATOR by {
            if i > p {
                assert(s[i] == w[i - p - 1]);
                if w.len() > 0 && w[0] == '+' {
                    if i - p - 1 > 0 {
                        assert(w[i - p - 1] == numeral_digits(w)[i - p - 2]);
                        assert(is_digit(numeral_digits(w)[i - p - 2]));
                    }
                } else {
                    assert(is_digit(numeral_digits(w)[i - p - 1]));
                }
            }
        }
        assert(one_sep_numeral(s, p));
    }
}

/// A label without separator is its own display label.
pub proof fn lemma_display_label_plain(s: Seq<char>)
    requires
        !has_sep(s),
    ensures
        spec_display_label(s) == s,
{
    if has_width_suffix(s) {
        let p = choose|p: int|
            #![trigger last_sep_at(s, p)]
            last_sep_at(s, p) && p + 1 < s.len() && all_digits(s.subrange(p + 1, s.len() as int));
        assert(s[p] == SEPARATOR);
    }
}

/// Finds the first separator of `s`.
fn find_first_sep(s: &str) -> (r: Option<usize>)
    ensures
        match r {
            Some(p) => first_sep_at(s@, p as int),
            None => !has_sep(s@),
        },
{
    let n = s.unicode_len();
    let mut i: usize = 0;
    while i < n
        invariant
            n == s@.len(),
            i <= n,
            forall|k: int| 0 <= k < i ==> s@[k] != SEPARATOR,
        decreases n - i,
    {
        if s.get_char(i) == SEPARATOR {
            return Some(i);
        }
        i = i + 1;
    }
    None
}

/// Finds the last separator of `s`.
fn find_last_sep(s: &str) -> (r: Option<usize>)
    ensures
        match r {
            Some(p) => last_sep_at(s@, p as int),
            None => !has_sep(s@),
        },
{
    let n = s.unicode_len();
    let mut i: usize = n;
    while i > 0
        invariant
            n == s@.len(),
            i <= n,
            forall|k: int| i <= k < n ==> s@[k] != SEPARATOR,
        decreases i,
    {
        if s.get_char(i - 1) == SEPARATOR {
            return Some(i - 1);
        }
        i = i - 1;
    }
    None
}

/// Whether every character of `s` from position `from` on is a decimal digit.
fn digits_from(s: &str, from: usize) -> (r: bool)
    requires
        from <= s@.len(),
    ensures
        r == all_digits(s@.subrange(from as int, s@.len() as int)),
{
    let n = s.unicode_len();
    let mut i: usize = from;
    while i < n
        invariant
            n == s@.len(),
            from <= i <= n,
            forall|k: int| from <= k < i ==> is_digit(s@[k]),
        decreases n - i,
    {
        let c = s.get_char(i);
        if !('0' <= c && c <= '9') {
            assert(!is_digit(s@.subrange(from as int, n as int)[i - from]));
            return false;
        }
        i = i + 1;
    }
    assert forall|k: int| 0 <= k < n - from implies is_digit(
        #[trigger] s@.subrange(from as int, n as int)[k],
    ) by {
        assert(s@.subrange(from as int, n as int)[k] == s@[from + k]);
    }
    true
}

/// Reads `t` as `u16`'s `FromStr` does: an optional `+` and then decimal
/// digits, with no more than 16 bits of value.
pub fn parse_u16(t: &str) -> (r: Option<u16>)
    ensures
        r == (if is_u16_numeral(t@) {
            Some(digits_value(numeral_digits(t@)) as u16)
        } else {
            None::<u16>
        }),
{
    let n = t.unicode_len();
    let start: usize = if n > 0 && t.get_char(0) == '+' {
        1
    } else {
        0
    };
    let ghost d = numeral_digits(t@);
    assert(d =~= t@.subrange(start as int, n as int));
    if start == n {
        return None;
    }
    // `acc` holds the value read so far, or 65536 once that is too large.
    let mut acc: u32 = 0;
    let mut i: usize = start;
    while i < n
        invariant
            n == t@.len(),
            start <= i <= n,
            d == numeral_digits(t@),
            d =~= t@.subrange(start as int, n as int),
            all_digits(t@.subrange(start as int, i as int)),
            acc as nat == if digits_value(t@.subrange(start as int, i as int)) < 65536 {
                digits_value(t@.subrange(start as int, i as int))
            } else {
                65536
            },
        decreases n - i,
    {
        let c = t.get_char(i);
        if !('0' <= c && c <= '9') {
            assert(d[i - start] == c);
            assert(!is_digit(d[i - start]));
            assert(!all_digits(d));
            assert(!is_u16_numeral(t@));
            return None;
        }
        let ghost prev = t@.subrange(start as int, i as int);
        assert(t@.subrange(start as int, i + 1) =~= prev.push(c));
        proof {
            lemma_digits_value_push(prev, c);
        }
        let ghost v = digits_value(prev);
        let dv: u32 = (c as u32) - ('0' as u32);
        assert(dv as nat == digit_value(c));
        if acc < 65536 {
            assert(acc as nat == v);
            acc = acc * 10 + dv;
            assert(acc as nat == v * 10 + digit_value(c));
            if acc > 65536 {
                acc = 65536;
            }
        } else {
            assert(v >= 65536);
            assert(v * 10 + digit_value(c) >= 65536) by (nonlinear_arith)
                requires
                    v >= 65536,
            ;
        }
        i = i + 1;
    }
    assert(t@.subrange(start as int, n as int) =~= d);
    if acc < 65536 {
        Some(acc as u16)
    } else {
        None
    }
}

/// The column width of a key, read from its raw label.
pub fn width_hint(label: &str) -> (r: u16)
    ensures
        r == spec_width_hint(label@),
{
    match find_first_sep(label) {
        None => DEFAULT_WIDTH,
        Some(p) => {
            proof {
                lemma_first_sep_unique(label@, p as int);
            }
            let n = label.unicode_len();
            let rest = label.substring_char(p + 1, n);
            assert(rest@ == width_text(label@));
            match parse_u16(rest) {
                Some(w) => w,
                None => DEFAULT_WIDTH,
            }
        },
    }
}

/// The text drawn on a key: its raw label without a trailing `:<digits>`.
pub fn display_label(label: &str) -> (r: String)
    ensures
        r@ == spec_display_label(label@),
{
    match find_last_sep(label) {
        None => {
            assert(!has_width_suffix(label@));
            label.to_owned()
        },
        Some(p) => {
            let n = label.unicode_len();
            let digits = p + 1 < n && digits_from(label, p + 1);
            if digits {
                proof {
                    let q = choose|q: int| last_sep_at(label@, q);
                    assert(has_width_suffix(label@));
                    lemma_last_sep_unique(label@, p as int, q);
                }
                label.substring_char(0, p).to_owned()
            } else {
                assert(!has_width_suffix(label@)) by {
                    if has_width_suffix(label@) {
                        let q = choose|q: int|
                            #![trigger last_sep_at(label@, q)]
                            last_sep_at(label@, q) && q + 1 < label@.len() && all_digits(
                                label@.subrange(q + 1, label@.len() as int),
                            );
                        lemma_last_sep_unique(label@, p as int, q);
                    }
                }
                label.to_owned()
            }
        },
    }
}

/// Whether a raw label names a spacer: the separator followed only by digits.
pub fn is_spacer(label: &str) -> (r: bool)
    ensures
        r == spec_is_spacer(label@),
{
    let n = label.unicode_len();
    if n == 0 || label.get_char(0) != SEPARATOR {
        return false;
    }
    let r = digits_from(label, 1);
    assert(label@.subrange(1, n as int) =~= label@.drop_first());
    r
}

} // verus!
