//! Numbers and positions, written out for the page.

use vstd::prelude::*;
use vstd::string::StringExecFns;

use crate::protocol::{Coords, ModuleId, WindowGeometry};

verus! {

/// The digit for a number below ten.
pub open spec fn digit(n: nat) -> char {
    seq!['0', '1', '2', '3', '4', '5', '6', '7', '8', '9'][n as int]
}

/// A natural number in decimal digits, without leading zeros.
pub open spec fn digits(n: nat) -> Seq<char>
    decreases n,
{
    if n < 10 {
        seq![digit(n)]
    } else {
        digits(n / 10).push(digit(n % 10))
    }
}

/// A number in decimal digits, with a minus sign where it is negative.
pub open spec fn decimal(n: int) -> Seq<char> {
    if n < 0 {
        "-"@ + digits((-n) as nat)
    } else {
        digits(n as nat)
    }
}

/// A length in pixels.
pub open spec fn pixels_text(n: int) -> Seq<char> {
    decimal(n) + "px"@
}

/// The style that puts an element at a point.
pub open spec fn position_style_text(position: Coords) -> Seq<char> {
    "left:"@ + decimal(position.x as int) + "px; top:"@ + decimal(position.y as int) + "px;"@
}

/// The style that puts a window where it stands.
pub open spec fn window_style_text(geometry: WindowGeometry) -> Seq<char> {
    position_style_text(geometry.position) + " z-index:"@ + decimal(geometry.z_index as int) + ";"@
}

/// The name of one of the fields of a module's window, unlike that of any other module's.
pub open spec fn field_id_text(module: ModuleId, field: Seq<char>) -> Seq<char> {
    "w"@ + decimal(module.0 as int) + field
}

/// The digit for a number below ten.
fn digit_text(n: u64) -> (text: &'static str)
    requires
        n < 10,
    ensures
        text@ == seq![digit(n as nat)],
{
    proof {
        reveal_strlit("0");
        reveal_strlit("1");
        reveal_strlit("2");
        reveal_strlit("3");
        reveal_strlit("4");
        reveal_strlit("5");
        reveal_strlit("6");
        reveal_strlit("7");
        reveal_strlit("8");
        reveal_strlit("9");
    }
    match n {
        0 => "0",
        1 => "1",
        2 => "2",
        3 => "3",
        4 => "4",
        5 => "5",
        6 => "6",
        7 => "7",
        8 => "8",
        _ => "9",
    }
}

/// A natural number in decimal digits.
fn digits_of(n: u64) -> (text: String)
    ensures
        text@ == digits(n as nat),
    decreases n,
{
    if n < 10 {
        String::from_str(digit_text(n))
    } else {
        let mut text = digits_of(n / 10);
        text.append(digit_text(n % 10));
        text
    }
}

/// A coordinate in decimal digits.
pub fn decimal_of(n: i32) -> (text: String)
    ensures
        text@ == decimal(n as int),
{
    if n < 0 {
        let magnitude: i64 = -(n as i64);
        let digits = digits_of(magnitude as u64);
        String::from_str("-").concat(digits.as_str())
    } else {
        digits_of(n as u64)
    }
}

/// A length in pixels.
pub fn pixels(n: i32) -> (text: String)
    ensures
        text@ == pixels_text(n as int),
{
    decimal_of(n).concat("px")
}

/// The style that puts an element at a point.
pub fn position_style(position: Coords) -> (style: String)
    ensures
        style@ == position_style_text(position),
{
    let mut style = String::from_str("left:");
    style.append(decimal_of(position.x).as_str());
    style.append("px; top:");
    style.append(decimal_of(position.y).as_str());
    style.append("px;");
    style
}

/// The style that puts a window where it stands.
pub fn window_style(geometry: WindowGeometry) -> (style: String)
    ensures
        style@ == window_style_text(geometry),
{
    let mut style = position_style(geometry.position);
    style.append(" z-index:");
    style.append(digits_of(geometry.z_index as u64).as_str());
    style.append(";");
    style
}

/// The name of one of the fields of a module's window.
pub fn field_id(module: ModuleId, field: &str) -> (name: String)
    ensures
        name@ == field_id_text(module, field@),
{
    let mut name = String::from_str("w");
    name.append(digits_of(module.0 as u64).as_str());
    name.append(field);
    name
}

/// A number in decimal digits is made of digits alone.
proof fn lemma_digits_are_digits(n: nat, i: int)
    requires
        0 <= i < digits(n).len(),
    ensures
        digits(n)[i] != '-',
    decreases n,
{
    if n >= 10 && i < digits(n / 10).len() {
        lemma_digits_are_digits(n / 10, i);
    }
}

/// Different numbers have different digits.
proof fn lemma_digits_differ(a: nat, b: nat)
    requires
        digits(a) == digits(b),
    ensures
        a == b,
    decreases a,
{
    lemma_digits_not_empty(a / 10);
    lemma_digits_not_empty(b / 10);
    if a >= 10 && b >= 10 {
        assert(digits(a).last() == digit(a % 10));
        assert(digits(b).last() == digit(b % 10));
        assert(digits(a).drop_last() =~= digits(a / 10));
        assert(digits(b).drop_last() =~= digits(b / 10));
        lemma_digits_differ(a / 10, b / 10);
        assert(a % 10 == b % 10);
    } else if a < 10 && b < 10 {
        assert(digits(a)[0] == digit(a));
        assert(digits(b)[0] == digit(b));
    } else if a >= 10 {
        assert(digits(a).len() == digits(a / 10).len() + 1);
    } else {
        assert(digits(b).len() == digits(b / 10).len() + 1);
    }
}

/// Every number has a digit.
proof fn lemma_digits_not_empty(n: nat)
    ensures
        digits(n).len() > 0,
{
}

/// No field of one module's window has the name of a field of another's, where fields are named
/// by a dash and what follows it.
pub proof fn law_field_ids_differ(a: ModuleId, b: ModuleId, x: Seq<char>, y: Seq<char>)
    requires
        a != b,
        x.len() > 0 && x[0] == '-',
        y.len() > 0 && y[0] == '-',
    ensures
        field_id_text(a, x) != field_id_text(b, y),
{
    reveal_strlit("w");
    let m = digits(a.0 as nat);
    let n = digits(b.0 as nat);
    let s = field_id_text(a, x);
    let t = field_id_text(b, y);
    if s == t {
        assert(s[1 + m.len() as int] == '-');
        assert(t[1 + n.len() as int] == '-');
        if m.len() < n.len() {
            assert(t[1 + m.len() as int] == n[m.len() as int]);
            lemma_digits_are_digits(b.0 as nat, m.len() as int);
        } else if n.len() < m.len() {
            assert(s[1 + n.len() as int] == m[n.len() as int]);
            lemma_digits_are_digits(a.0 as nat, n.len() as int);
        } else {
            assert forall|i: int| 0 <= i < m.len() implies m[i] == n[i] by {
                assert(s[1 + i] == m[i]);
                assert(t[1 + i] == n[i]);
            }
            assert(m =~= n);
            lemma_digits_differ(a.0 as nat, b.0 as nat);
        }
    }
}

/// The number that digits stand for: each counts ten times as much as the one after it.
pub open spec fn value_of(text: Seq<char>) -> int
    decreases text.len(),
{
    if text.len() == 0 {
        0
    } else {
        10 * value_of(text.drop_last()) + (text.last() as int - '0' as int)
    }
}

/// Whether the text is made of digits, one or more, and begins with a zero only if that is all.
pub open spec fn is_numeral(text: Seq<char>) -> bool {
    &&& text.len() > 0
    &&& forall|i: int| 0 <= i < text.len() ==> '0' <= #[trigger] text[i] && text[i] <= '9'
    &&& text.len() > 1 ==> text[0] != '0'
}

/// Whether the text is the usual way to write a number down.
pub open spec fn reads_as(text: Seq<char>, n: int) -> bool {
    if n < 0 {
        &&& text.len() > 0
        &&& text[0] == '-'
        &&& is_numeral(text.skip(1))
        &&& value_of(text.skip(1)) == -n
    } else {
        is_numeral(text) && value_of(text) == n
    }
}

/// The digits of a number are the usual way to write it down.
proof fn lemma_digits_read_back(n: nat)
    ensures
        is_numeral(digits(n)),
        value_of(digits(n)) == n,
        n > 0 ==> digits(n)[0] != '0',
    decreases n,
{
    let text = digits(n);
    if n < 10 {
        assert(text.drop_last() =~= Seq::empty());
        assert(value_of(text.drop_last()) == 0);
        assert(text.last() == digit(n));
    } else {
        lemma_digits_read_back(n / 10);
        assert(text.drop_last() =~= digits(n / 10));
        assert(text.last() == digit(n % 10));
        assert(text[0] == digits(n / 10)[0]);
        assert forall|i: int| 0 <= i < text.len() implies '0' <= #[trigger] text[i] && text[i]
            <= '9' by {
            if i < text.len() - 1 {
                assert(text[i] == digits(n / 10)[i]);
            }
        }
    }
}

/// A number written in decimal is the usual way to write it down.
proof fn lemma_decimal_reads_back(n: int)
    ensures
        reads_as(decimal(n), n),
{
    reveal_strlit("-");
    if n < 0 {
        lemma_digits_read_back((-n) as nat);
        assert(decimal(n).skip(1) =~= digits((-n) as nat));
    } else {
        lemma_digits_read_back(n as nat);
    }
}

/// Every number is written down in the usual way.
pub proof fn law_numbers_read_back(n: i32, text: String)
    requires
        call_ensures(decimal_of, (n,), text),
    ensures
        reads_as(text@, n as int),
{
    lemma_decimal_reads_back(n as int);
}

/// A length is a number and the unit.
pub proof fn law_lengths_are_in_pixels(n: i32, text: String) -> (number: Seq<char>)
    requires
        call_ensures(pixels, (n,), text),
    ensures
        reads_as(number, n as int),
        text@ == number + seq!['p', 'x'],
{
    reveal_strlit("px");
    lemma_decimal_reads_back(n as int);
    assert(text@ =~= decimal(n as int) + seq!['p', 'x']);
    decimal(n as int)
}

/// The style for a point says how far from the left it is, then how far from the top.
proof fn lemma_position_style(position: Coords)
    ensures
        position_style_text(position) == seq!['l', 'e', 'f', 't', ':'] + decimal(position.x as int)
            + seq!['p', 'x', ';', ' ', 't', 'o', 'p', ':'] + decimal(position.y as int) + seq![
            'p',
            'x',
            ';',
        ],
        reads_as(decimal(position.x as int), position.x as int),
        reads_as(decimal(position.y as int), position.y as int),
{
    reveal_strlit("left:");
    reveal_strlit("px; top:");
    reveal_strlit("px;");
    lemma_decimal_reads_back(position.x as int);
    lemma_decimal_reads_back(position.y as int);
    assert("left:"@ =~= seq!['l', 'e', 'f', 't', ':']);
    assert("px; top:"@ =~= seq!['p', 'x', ';', ' ', 't', 'o', 'p', ':']);
    assert("px;"@ =~= seq!['p', 'x', ';']);
}

/// The style for a point says how far from the left it is, then how far from the top.
pub proof fn law_styles_say_where(position: Coords, style: String) -> (parts: (
    Seq<char>,
    Seq<char>,
))
    requires
        call_ensures(position_style, (position,), style),
    ensures
        reads_as(parts.0, position.x as int),
        reads_as(parts.1, position.y as int),
        style@ == seq!['l', 'e', 'f', 't', ':'] + parts.0 + seq![
            'p',
            'x',
            ';',
            ' ',
            't',
            'o',
            'p',
            ':',
        ] + parts.1 + seq!['p', 'x', ';'],
{
    lemma_position_style(position);
    (decimal(position.x as int), decimal(position.y as int))
}

/// The style of a window says where it stands, as that for a point does, and then on what layer.
pub proof fn law_window_styles_say_how_far_in_front(
    geometry: WindowGeometry,
    style: String,
    place: String,
) -> (layer: Seq<char>)
    requires
        call_ensures(window_style, (geometry,), style),
        call_ensures(position_style, (geometry.position,), place),
    ensures
        reads_as(layer, geometry.z_index as int),
        style@ == place@ + seq![' ', 'z', '-', 'i', 'n', 'd', 'e', 'x', ':'] + layer + seq![';'],
{
    reveal_strlit(" z-index:");
    reveal_strlit(";");
    lemma_decimal_reads_back(geometry.z_index as int);
    assert(" z-index:"@ =~= seq![' ', 'z', '-', 'i', 'n', 'd', 'e', 'x', ':']);
    assert(";"@ =~= seq![';']);
    decimal(geometry.z_index as int)
}

/// The name of a field is a letter, the number of the module, and what the field is called.
pub proof fn law_field_ids_name_the_module(
    module: ModuleId,
    field: &str,
    name: String,
) -> (number: Seq<char>)
    requires
        call_ensures(field_id, (module, field), name),
    ensures
        reads_as(number, module.0 as int),
        name@ == seq!['w'] + number + field@,
{
    reveal_strlit("w");
    lemma_decimal_reads_back(module.0 as int);
    assert("w"@ =~= seq!['w']);
    decimal(module.0 as int)
}

} // verus!
