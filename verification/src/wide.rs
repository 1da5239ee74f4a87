//! UTF-16 text, as the window system exchanges it.
use vstd::prelude::*;
use vstd::string::*;

verus! {

/// The UTF-16 code units of one character.
pub open spec fn code_units(c: char) -> Seq<u16> {
    if (c as int) < 0x10000 {
        seq![(c as int) as u16]
    } else {
        seq![
            (0xD800 + (c as int - 0x10000) / 0x400) as u16,
            (0xDC00 + (c as int - 0x10000) % 0x400) as u16,
        ]
    }
}

/// The UTF-16 encoding of a text.
pub open spec fn utf16(text: Seq<char>) -> Seq<u16>
    decreases text.len(),
{
    if text.len() == 0 {
        Seq::empty()
    } else {
        code_units(text.first()) + utf16(text.drop_first())
    }
}

/// Tells whether a code unit opens a surrogate pair.
pub open spec fn is_high_surrogate(unit: u16) -> bool {
    0xD800 <= unit < 0xDC00
}

/// Tells whether a code unit closes a surrogate pair.
pub open spec fn is_low_surrogate(unit: u16) -> bool {
    0xDC00 <= unit < 0xE000
}

/// The text that a sequence of code units stands for, with U+FFFD in place of
/// each surrogate that has no partner.
pub open spec fn utf16_lossy(units: Seq<u16>) -> Seq<char>
    decreases units.len(),
{
    if units.len() == 0 {
        Seq::empty()
    } else if is_high_surrogate(units[0]) && units.len() > 1 && is_low_surrogate(units[1]) {
        seq![(0x10000 + (units[0] - 0xD800) * 0x400 + (units[1] - 0xDC00)) as char] + utf16_lossy(
            units.skip(2),
        )
    } else if is_high_surrogate(units[0]) || is_low_surrogate(units[0]) {
        seq!['\u{FFFD}'] + utf16_lossy(units.skip(1))
    } else {
        seq![units[0] as char] + utf16_lossy(units.skip(1))
    }
}

proof fn lemma_code_units(c: char)
    ensures
        (c as int) < 0x10000 ==> {
            &&& code_units(c).len() == 1
            &&& code_units(c)[0] == c as int
            &&& !is_high_surrogate(code_units(c)[0])
            &&& !is_low_surrogate(code_units(c)[0])
            &&& code_units(c)[0] as char == c
        },
        (c as int) >= 0x10000 ==> {
            &&& code_units(c).len() == 2
            &&& is_high_surrogate(code_units(c)[0])
            &&& is_low_surrogate(code_units(c)[1])
            &&& (0x10000 + (code_units(c)[0] - 0xD800) * 0x400 + (code_units(c)[1] - 0xDC00))
                as char == c
        },
{
}

proof fn lemma_surrogate_pair(high: u16, low: u16)
    requires
        is_high_surrogate(high),
        is_low_surrogate(low),
    ensures
        code_units((0x10000 + (high - 0xD800) * 0x400 + (low - 0xDC00)) as char) == seq![high, low],
{
}

/// Decoding what was encoded gives the text back.
pub proof fn encoding_round_trips(text: Seq<char>)
    ensures
        utf16_lossy(utf16(text)) == text,
    decreases text.len(),
{
    if text.len() > 0 {
        let rest = text.drop_first();
        let units = utf16(text);
        encoding_round_trips(rest);
        lemma_code_units(text.first());
        if (text.first() as int) < 0x10000 {
            assert(units.skip(1) =~= utf16(rest));
        } else {
            assert(units.skip(2) =~= utf16(rest));
        }
        assert(seq![text.first()] + rest =~= text);
    }
}

/// A sequence of code units decodes to a text without U+FFFD exactly when it is
/// the encoding of that text.
pub proof fn decoding_is_exact(units: Seq<u16>, text: Seq<char>)
    requires
        !text.contains('\u{FFFD}'),
    ensures
        utf16_lossy(units) == text <==> units == utf16(text),
    decreases units.len(),
{
    encoding_round_trips(text);
    if utf16_lossy(units) == text && units.len() == 0 {
        assert(units =~= utf16(text));
    }
    if utf16_lossy(units) == text && units.len() > 0 {
        let used: int = if is_high_surrogate(units[0]) && units.len() > 1 && is_low_surrogate(
            units[1],
        ) {
            2
        } else {
            1
        };
        let rest = text.drop_first();
        assert(text[0] == utf16_lossy(units)[0]);
        assert(text.contains(text[0]));
        assert(rest =~= utf16_lossy(units.skip(used)));
        assert(!rest.contains('\u{FFFD}')) by {
            if rest.contains('\u{FFFD}') {
                let i = choose|i: int| 0 <= i < rest.len() && rest[i] == '\u{FFFD}';
                assert(text[i + 1] == '\u{FFFD}');
            }
        }
        decoding_is_exact(units.skip(used), rest);
        if used == 2 {
            lemma_surrogate_pair(units[0], units[1]);
        }
        assert(units =~= code_units(text[0]) + units.skip(used));
    }
}

fn push_code_units(units: &mut Vec<u16>, c: char)
    ensures
        final(units)@ == old(units)@ + code_units(c),
{
    let code: u32 = c as u32;
    if code < 0x10000 {
        units.push(code as u16);
    } else {
        units.push((0xD800 + (code - 0x10000) / 0x400) as u16);
        units.push((0xDC00 + (code - 0x10000) % 0x400) as u16);
    }
    assert(units@ =~= old(units)@ + code_units(c));
}

/// The UTF-16 encoding of `text`.
pub fn encode_utf16(text: &str) -> (r: Vec<u16>)
    ensures
        r@ == utf16(text@),
{
    let mut units: Vec<u16> = Vec::new();
    assert(text@.skip(0) =~= text@);
    for c in it: text.chars()
        invariant
            units@ + utf16(text@.skip(it.index())) == utf16(text@),
            it.seq() == text@,
    {
        let ghost before = units@;
        let ghost rest = text@.skip(it.index());
        assert(rest.drop_first() =~= text@.skip(it.index() + 1));
        push_code_units(&mut units, c);
        assert(units@ + utf16(rest.drop_first()) =~= before + utf16(rest));
    }
    assert(text@.skip(text@.len() as int) =~= Seq::<char>::empty());
    assert(units@ =~= utf16(text@));
    units
}

/// A log line as the debugger takes it: UTF-16 with a closing zero.
pub fn debug_log_units(line: &str) -> (r: Vec<u16>)
    ensures
        r@ == utf16(line@).push(0),
{
    let mut units = encode_utf16(line);
    units.push(0);
    units
}

/// Tells whether a class name is that of a combo box.
pub open spec fn is_combo_box_class(name: Seq<u16>) -> bool {
    utf16_lossy(name) == "ComboBox"@
}

/// Tells whether the class name in the first `len` units of `class_name` is
/// that of a combo box; there is no name when `len` is not positive.
pub fn is_combo_box(class_name: &[u16], len: i32) -> (r: bool)
    requires
        len <= class_name@.len(),
    ensures
        r == (len > 0 && is_combo_box_class(class_name@.take(len as int))),
{
    if len <= 0 {
        return false;
    }
    let expected = encode_utf16("ComboBox");
    let ghost name = class_name@.take(len as int);
    proof {
        reveal_strlit("ComboBox");
        decoding_is_exact(name, "ComboBox"@);
    }
    if expected.len() != len as usize {
        return false;
    }
    let mut i: usize = 0;
    while i < expected.len()
        invariant
            i <= expected.len(),
            expected@ == utf16("ComboBox"@),
            expected@.len() == len,
            len <= class_name@.len(),
            name == class_name@.take(len as int),
            forall|j: int| 0 <= j < i ==> expected@[j] == class_name@[j],
            is_combo_box_class(name) <==> name == utf16("ComboBox"@),
        decreases expected.len() - i,
    {
        if class_name[i] != expected[i] {
            assert(name[i as int] != expected@[i as int]);
            return false;
        }
        i = i + 1;
    }
    assert(name =~= expected@);
    true
}

/// A character of the basic plane is one code unit of the same code; any other is
/// a high and a low surrogate that hold its code above the basic plane.
pub proof fn characters_are_one_unit_or_two(c: char)
    ensures
        (c as int) < 0x10000 ==> code_units(c).len() == 1 && code_units(c)[0] == c as int,
        (c as int) >= 0x10000 ==> {
            &&& code_units(c).len() == 2
            &&& 0xD800 <= code_units(c)[0] < 0xDC00
            &&& 0xDC00 <= code_units(c)[1] < 0xE000
            &&& (code_units(c)[0] - 0xD800) * 0x400 + (code_units(c)[1] - 0xDC00) == c as int
                - 0x10000
        },
{
}

/// Texts are encoded character by character.
pub proof fn encoding_goes_by_characters(a: Seq<char>, b: Seq<char>, c: char)
    ensures
        utf16(Seq::<char>::empty()) == Seq::<u16>::empty(),
        utf16(seq![c]) == code_units(c),
        utf16(a + b) == utf16(a) + utf16(b),
    decreases a.len(),
{
    assert(seq![c].drop_first() =~= Seq::empty());
    assert(utf16(seq![c]) =~= code_units(c) + utf16(Seq::empty()));
    if a.len() == 0 {
        assert(a + b =~= b);
        assert(utf16(a + b) =~= utf16(a) + utf16(b));
    } else {
        assert((a + b).drop_first() =~= a.drop_first() + b);
        encoding_goes_by_characters(a.drop_first(), b, c);
        assert(utf16(a + b) =~= utf16(a) + utf16(b));
    }
}

/// The class of combo boxes has one name: these code units and no others.
pub proof fn combo_boxes_have_one_name(name: Seq<u16>)
    ensures
        is_combo_box_class(name) <==> name == seq![
            0x43u16,
            0x6F,
            0x6D,
            0x62,
            0x6F,
            0x42,
            0x6F,
            0x78,
        ],
{
    let expected = seq![0x43u16, 0x6F, 0x6D, 0x62, 0x6F, 0x42, 0x6F, 0x78];
    reveal_strlit("ComboBox");
    decoding_is_exact(name, "ComboBox"@);
    reveal_with_fuel(utf16, 9);
    assert(utf16("ComboBox"@) =~= expected);
}

} // verus!
