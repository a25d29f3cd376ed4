//! Conversion settings read from the text fields of a request, with the
//! defaults that apply when a field is missing or malformed, and the choice of
//! the point that the drawing is placed by.
use vstd::prelude::*;

verus! {

/// Whether two texts are the same characters.
pub fn text_equals(s: &str, t: &str) -> (same: bool)
    ensures
        same == (s@ == t@),
{
    let n = s.unicode_len();
    if n != t.unicode_len() {
        return false;
    }
    let mut i: usize = 0;
    while i < n
        invariant
            i <= n,
            n == s@.len(),
            n == t@.len(),
            s@.take(i as int) == t@.take(i as int),
        decreases n - i,
    {
        if s.get_char(i) != t.get_char(i) {
            assert(s@.take(i + 1)[i as int] != t@.take(i + 1)[i as int]);
            return false;
        }
        assert(s@.take(i + 1) =~= t@.take(i + 1));
        i = i + 1;
    }
    assert(s@ =~= s@.take(n as int));
    assert(t@ =~= t@.take(n as int));
    true
}

pub open spec fn is_decimal_digit(c: char) -> bool {
    '0' <= c && c <= '9'
}

pub open spec fn all_decimal_digits(s: Seq<char>) -> bool {
    forall|i: int| 0 <= i < s.len() ==> is_decimal_digit(#[trigger] s[i])
}

/// The number written by a sequence of decimal digits.
pub open spec fn decimal_value(s: Seq<char>) -> nat
    decreases s.len(),
{
    if s.len() == 0 {
        0
    } else {
        decimal_value(s.drop_last()) * 10 + ((s.last() as int) - ('0' as int)) as nat
    }
}

/// The digits of an unsigned number: the text after one leading `+`, if any.
pub open spec fn unsigned_digits(s: Seq<char>) -> Seq<char> {
    if s.len() > 0 && s[0] == '+' {
        s.drop_first()
    } else {
        s
    }
}

/// An unsigned number as `usize` parsing reads it: an optional `+` and then
/// at least one decimal digit and nothing else, naming a value that fits.
pub open spec fn usize_text_value(s: Seq<char>) -> Option<usize> {
    let d = unsigned_digits(s);
    if d.len() > 0 && all_decimal_digits(d) && decimal_value(d) <= usize::MAX {
        Some(decimal_value(d) as usize)
    } else {
        None
    }
}

proof fn lemma_decimal_value_grows(s: Seq<char>, i: int)
    requires
        0 <= i <= s.len(),
        all_decimal_digits(s),
    ensures
        decimal_value(s.take(i)) <= decimal_value(s),
    decreases s.len() - i,
{
    if i < s.len() {
        lemma_decimal_value_grows(s, i + 1);
        assert(s.take(i + 1).drop_last() =~= s.take(i));
        assert(is_decimal_digit(s[i]));
    } else {
        assert(s.take(i) =~= s);
    }
}

/// Reads an unsigned number the way `usize` parsing does.
pub fn parse_usize(s: &str) -> (value: Option<usize>)
    ensures
        value == usize_text_value(s@),
{
    let n = s.unicode_len();
    let mut i: usize = 0;
    if n > 0 && s.get_char(0) == '+' {
        i = 1;
    }
    let ghost d = unsigned_digits(s@);
    assert(d =~= s@.skip(i as int));
    if i == n {
        return None;
    }
    let start = i;
    let mut value: usize = 0;
    while i < n
        invariant
            start <= i <= n,
            start < n,
            n == s@.len(),
            d == s@.skip(start as int),
            d == unsigned_digits(s@),
            all_decimal_digits(d.take(i - start)),
            value as nat == decimal_value(d.take(i - start)),
        decreases n - i,
    {
        let c = s.get_char(i);
        assert(d[i - start] == c);
        if c < '0' || c > '9' {
            assert(!is_decimal_digit(d[i - start]));
            return None;
        }
        let digit = (c as u32 - '0' as u32) as usize;
        assert(d.take(i - start + 1).drop_last() =~= d.take(i - start));
        assert(all_decimal_digits(d.take(i - start + 1)));
        let tens = value.checked_mul(10);
        match tens {
            None => {
                proof {
                    assert(decimal_value(d.take(i - start + 1)) > usize::MAX);
                    if all_decimal_digits(d) {
                        lemma_decimal_value_grows(d, i - start + 1);
                    }
                }
                return None;
            },
            Some(t) => {
                match t.checked_add(digit) {
                    None => {
                        proof {
                            assert(decimal_value(d.take(i - start + 1)) > usize::MAX);
                            if all_decimal_digits(d) {
                                lemma_decimal_value_grows(d, i - start + 1);
                            }
                        }
                        return None;
                    },
                    Some(v) => {
                        value = v;
                    },
                }
            },
        }
        i = i + 1;
    }
    assert(d.take(n - start) =~= d);
    Some(value)
}

/// A boolean as `bool` parsing reads it: exactly `true` or `false`.
pub open spec fn bool_text_value(s: Seq<char>) -> Option<bool> {
    if s == "true"@ {
        Some(true)
    } else if s == "false"@ {
        Some(false)
    } else {
        None
    }
}

/// Reads a boolean the way `bool` parsing does.
pub fn parse_bool(s: &str) -> (value: Option<bool>)
    ensures
        value == bool_text_value(s@),
{
    if text_equals(s, "true") {
        Some(true)
    } else if text_equals(s, "false") {
        Some(false)
    } else {
        None
    }
}

pub open spec fn samples_setting(field: Option<Seq<char>>) -> usize {
    match field {
        Some(t) => match usize_text_value(t) {
            Some(n) => n,
            None => 10,
        },
        None => 10,
    }
}

pub open spec fn field_view(field: Option<&str>) -> Option<Seq<char>> {
    match field {
        Some(t) => Some(t@),
        None => None,
    }
}

/// The number of samples per curve: the field read as an unsigned number,
/// or 10 when it is missing or is not one.
pub fn samples_or_default(field: Option<&str>) -> (samples: usize)
    ensures
        samples == samples_setting(field_view(field)),
        field matches Some(t) ==> (usize_text_value(t@) matches Some(n) ==> samples == n),
        !(field matches Some(t) && usize_text_value(t@) is Some) ==> samples == 10,
{
    proof {
        lemma_samples_setting(field_view(field));
    }
    match field {
        Some(t) => match parse_usize(t) {
            Some(n) => n,
            None => 10,
        },
        None => 10,
    }
}

pub open spec fn flip_y_setting(field: Option<Seq<char>>) -> bool {
    match field {
        Some(t) => match bool_text_value(t) {
            Some(b) => b,
            None => true,
        },
        None => true,
    }
}

/// Whether the y axis is flipped: the field read as a boolean, or `true`
/// when it is missing or is not one.
pub fn flip_y_or_default(field: Option<&str>) -> (flip: bool)
    ensures
        flip == flip_y_setting(field_view(field)),
        !flip <==> field_view(field) == Some("false"@),
{
    proof {
        lemma_flip_y_only_false_turns_off(field_view(field));
    }
    match field {
        Some(t) => match parse_bool(t) {
            Some(b) => b,
            None => true,
        },
        None => true,
    }
}

/// A pen command: the field when it is given and not empty, else `default`.
pub open spec fn command_setting(field: Option<Seq<char>>, default: Seq<char>) -> Seq<char> {
    match field {
        Some(t) => if t.len() > 0 {
            t
        } else {
            default
        },
        None => default,
    }
}

fn command_or_default(field: Option<&str>, default: &str) -> (command: String)
    ensures
        command@ == command_setting(field_view(field), default@),
{
    match field {
        Some(t) => if t.unicode_len() > 0 {
            String::from_str(t)
        } else {
            String::from_str(default)
        },
        None => String::from_str(default),
    }
}

/// The command that lowers the pen: the field when given and not empty,
/// else `M3 S1000`.
pub fn pen_down_or_default(field: Option<&str>) -> (command: String)
    ensures
        command@ == command_setting(field_view(field), "M3 S1000"@),
        field matches Some(t) ==> (t@.len() > 0 ==> command@ == t@),
        !(field matches Some(t) && t@.len() > 0) ==> command@ == "M3 S1000"@,
{
    proof {
        lemma_given_command_is_kept(field_view(field), "M3 S1000"@);
    }
    command_or_default(field, "M3 S1000")
}

/// The command that raises the pen: the field when given and not empty,
/// else `M5`.
pub fn pen_up_or_default(field: Option<&str>) -> (command: String)
    ensures
        command@ == command_setting(field_view(field), "M5"@),
        field matches Some(t) ==> (t@.len() > 0 ==> command@ == t@),
        !(field matches Some(t) && t@.len() > 0) ==> command@ == "M5"@,
{
    proof {
        lemma_given_command_is_kept(field_view(field), "M5"@);
    }
    command_or_default(field, "M5")
}

/// The corner or centre of the drawing that the plotter origin is put at.
#[derive(Clone, Copy, Debug, PartialEq, Eq, Structural)]
pub enum ReferenceKind {
    BottomLeft,
    TopLeft,
    Center,
}

pub open spec fn reference_setting(field: Option<Seq<char>>) -> ReferenceKind {
    match field {
        Some(t) => if t == "top_left"@ {
            ReferenceKind::TopLeft
        } else if t == "center"@ {
            ReferenceKind::Center
        } else {
            ReferenceKind::BottomLeft
        },
        None => ReferenceKind::BottomLeft,
    }
}

/// The reference point named by the field: `top_left` or `center`, and
/// the bottom left corner for `bottom_left`, any other text, or no field.
pub fn reference_or_default(field: Option<&str>) -> (kind: ReferenceKind)
    ensures
        kind == reference_setting(field_view(field)),
        kind == ReferenceKind::TopLeft <==> field_view(field) == Some("top_left"@),
        kind == ReferenceKind::Center <==> field_view(field) == Some("center"@),
{
    proof {
        lemma_reference_names(field_view(field));
    }
    match field {
        Some(t) => if text_equals(t, "top_left") {
            ReferenceKind::TopLeft
        } else if text_equals(t, "center") {
            ReferenceKind::Center
        } else {
            ReferenceKind::BottomLeft
        },
        None => ReferenceKind::BottomLeft,
    }
}

/// The samples setting is the number the field writes, whenever it writes
/// one; otherwise it is 10.
pub proof fn lemma_samples_setting(field: Option<Seq<char>>)
    ensures
        field matches Some(t) ==> (usize_text_value(t) matches Some(n) ==> samples_setting(field)
            == n),
        !(field matches Some(t) && usize_text_value(t) is Some) ==> samples_setting(field) == 10,
{
}

/// The y axis is left unflipped only when the field is exactly `false`.
pub proof fn lemma_flip_y_only_false_turns_off(field: Option<Seq<char>>)
    ensures
        !flip_y_setting(field) <==> field == Some("false"@),
        field == Some("true"@) ==> flip_y_setting(field),
{
    reveal_strlit("true");
    reveal_strlit("false");
    assert("true"@.len() != "false"@.len());
}

/// A pen command given in a non-empty field is used exactly as given; a
/// missing or empty field gives the default.
pub proof fn lemma_given_command_is_kept(field: Option<Seq<char>>, default: Seq<char>)
    ensures
        field matches Some(t) ==> (t.len() > 0 ==> command_setting(field, default) == t),
        !(field matches Some(t) && t.len() > 0) ==> command_setting(field, default) == default,
{
}

/// `top_left` and `center` select their reference point, and every other
/// field (or none) selects the bottom left corner.
pub proof fn lemma_reference_names(field: Option<Seq<char>>)
    ensures
        reference_setting(field) == ReferenceKind::TopLeft <==> field == Some("top_left"@),
        reference_setting(field) == ReferenceKind::Center <==> field == Some("center"@),
        reference_setting(field) == ReferenceKind::BottomLeft <==> field != Some("top_left"@)
            && field != Some("center"@),
{
    reveal_strlit("top_left");
    reveal_strlit("center");
    assert("top_left"@.len() != "center"@.len());
}

/// Each known anchor name selects its anchor, and nothing else does.
pub proof fn lemma_anchor_names(name: Option<Seq<char>>)
    ensures
        anchor_named(name) == Anchor::Center <==> name == Some("center"@),
        anchor_named(name) == Anchor::TopRight <==> name == Some("top_right"@),
        anchor_named(name) == Anchor::BottomRight <==> name == Some("bottom_right"@),
        anchor_named(name) == Anchor::BottomLeft <==> name != Some("center"@) && name != Some(
            "top_right"@,
        ) && name != Some("bottom_right"@),
{
    reveal_strlit("center");
    reveal_strlit("top_right");
    reveal_strlit("bottom_right");
    assert("center"@.len() != "top_right"@.len());
    assert("center"@.len() != "bottom_right"@.len());
    assert("top_right"@.len() != "bottom_right"@.len());
}

/// The value of a decimal digit.
pub open spec fn digit_value(c: char) -> int {
    (c as int) - ('0' as int)
}

/// Reading numbers: the empty text and a lone `+` are not numbers, and a
/// single digit is its own value.
pub proof fn lemma_usize_text_short(c: char)
    ensures
        usize_text_value(Seq::empty()) is None,
        usize_text_value(seq!['+']) is None,
        is_decimal_digit(c) ==> usize_text_value(seq![c]) == Some(digit_value(c) as usize),
        !is_decimal_digit(c) ==> usize_text_value(seq![c]) is None,
{
    assert(seq!['+'].drop_first() =~= Seq::<char>::empty());
    assert(seq![c].drop_last() =~= Seq::<char>::empty());
    if !is_decimal_digit(c) && c != '+' {
        assert(!is_decimal_digit(seq![c][0]));
    }
}

/// Reading numbers: appending a digit to a number `n` gives `10 n + d` when
/// that fits, and no number when it does not.
pub proof fn lemma_usize_text_append_digit(s: Seq<char>, c: char, n: usize)
    requires
        usize_text_value(s) == Some(n),
        is_decimal_digit(c),
    ensures
        n * 10 + digit_value(c) <= usize::MAX ==> usize_text_value(s.push(c)) == Some(
            (n * 10 + digit_value(c)) as usize,
        ),
        n * 10 + digit_value(c) > usize::MAX ==> usize_text_value(s.push(c)) is None,
{
    let d = unsigned_digits(s);
    let t = s.push(c);
    assert(unsigned_digits(t) =~= d.push(c));
    assert(d.push(c).drop_last() =~= d);
    assert forall|i: int| 0 <= i < d.push(c).len() implies is_decimal_digit(#[trigger] d.push(c)[i]) by {
        if i < d.len() {
            assert(d.push(c)[i] == d[i]);
        }
    }
}

/// Reading numbers: any character that is not a digit, other than one
/// leading `+`, makes the text no number.
pub proof fn lemma_usize_text_rejects_non_digit(s: Seq<char>, i: int)
    requires
        0 <= i < s.len(),
        !is_decimal_digit(s[i]),
        !(i == 0 && s[0] == '+'),
    ensures
        usize_text_value(s) is None,
{
    let d = unsigned_digits(s);
    if s.len() > 0 && s[0] == '+' {
        assert(d[i - 1] == s[i]);
    } else {
        assert(d[i] == s[i]);
    }
}

/// Reading numbers: one leading `+` does not change the number read.
pub proof fn lemma_usize_text_plus_sign(s: Seq<char>)
    requires
        s.len() > 0,
        s[0] != '+',
    ensures
        usize_text_value(seq!['+'] + s) == usize_text_value(s),
{
    assert((seq!['+'] + s).drop_first() =~= s);
}

/// Reading booleans: exactly `true` and `false` are booleans.
pub proof fn lemma_bool_text(s: Seq<char>)
    ensures
        bool_text_value(s) == Some(true) <==> s == "true"@,
        bool_text_value(s) == Some(false) <==> s == "false"@,
        bool_text_value(s) is None <==> s != "true"@ && s != "false"@,
{
    reveal_strlit("true");
    reveal_strlit("false");
    assert("true"@.len() != "false"@.len());
}

/// The point of the drawing that is moved to the origin when its paths are
/// extracted (the y axis already flipped).
#[derive(Clone, Copy, Debug, PartialEq, Eq, Structural)]
pub enum Anchor {
    BottomLeft,
    BottomRight,
    TopRight,
    Center,
}

/// Whether `name` is one of the reference point names known for placing
/// the drawing (no name at all counts as known).
pub open spec fn anchor_name_known(name: Option<Seq<char>>) -> bool {
    match name {
        None => true,
        Some(t) => t == "center"@ || t == "top_right"@ || t == "bottom_right"@ || t
            == "bottom_left"@,
    }
}

/// The anchor named: `center`, `top_right` or `bottom_right`, and the bottom
/// left corner for `bottom_left`, for no name and for any name not known.
pub open spec fn anchor_named(name: Option<Seq<char>>) -> Anchor {
    match name {
        Some(t) => if t == "center"@ {
            Anchor::Center
        } else if t == "top_right"@ {
            Anchor::TopRight
        } else if t == "bottom_right"@ {
            Anchor::BottomRight
        } else {
            Anchor::BottomLeft
        },
        None => Anchor::BottomLeft,
    }
}

/// The anchor named by `reference_point` (see `anchor_named`), and whether
/// the name was known; for an unknown name the caller warns.
pub fn translation_anchor(reference_point: Option<&str>) -> (choice: (Anchor, bool))
    ensures
        choice.0 == anchor_named(field_view(reference_point)),
        choice.1 == anchor_name_known(field_view(reference_point)),
        choice.0 == Anchor::Center <==> field_view(reference_point) == Some("center"@),
        choice.0 == Anchor::TopRight <==> field_view(reference_point) == Some("top_right"@),
        choice.0 == Anchor::BottomRight <==> field_view(reference_point) == Some("bottom_right"@),
{
    proof {
        lemma_anchor_names(field_view(reference_point));
    }
    match reference_point {
        None => (Anchor::BottomLeft, true),
        Some(t) => if text_equals(t, "center") {
            (Anchor::Center, true)
        } else if text_equals(t, "top_right") {
            (Anchor::TopRight, true)
        } else if text_equals(t, "bottom_right") {
            (Anchor::BottomRight, true)
        } else {
            (Anchor::BottomLeft, text_equals(t, "bottom_left"))
        },
    }
}

/// A missing or unknown reference name places the drawing as `bottom_left`
/// does.
pub proof fn lemma_unknown_reference_is_bottom_left(name: Seq<char>)
    requires
        !anchor_name_known(Some(name)),
    ensures
        anchor_named(Some(name)) == anchor_named(None),
        anchor_named(None) == anchor_named(Some("bottom_left"@)),
{
    reveal_strlit("bottom_left");
    reveal_strlit("center");
    reveal_strlit("top_right");
    reveal_strlit("bottom_right");
    assert("bottom_left"@.len() != "center"@.len());
    assert("bottom_left"@.len() != "top_right"@.len());
    assert("bottom_left"@.len() != "bottom_right"@.len());
}

/// Refuses empty SVG input before it is parsed.
pub fn check_svg_data(svg_data: &[u8]) -> (checked: Result<(), String>)
    ensures
        checked is Ok <==> svg_data@.len() > 0,
        checked matches Err(e) ==> e@ == "SVG data is empty"@,
{
    if svg_data.len() == 0 {
        Err(String::from_str("SVG data is empty"))
    } else {
        Ok(())
    }
}

} // verus!
