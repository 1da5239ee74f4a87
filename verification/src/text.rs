//! Text of the log: numerals, window handles, lists and trimming.
use vstd::prelude::*;
use vstd::string::*;

verus! {

/// `String::push` appends one character.
pub assume_specification[ String::push ](text: &mut String, ch: char)
    ensures
        final(text)@ == old(text)@.push(ch),
;

/// The text that `Debug` formatting gives to a string: quoted, with its
/// special characters escaped.
pub uninterp spec fn quoted(text: Seq<char>) -> Seq<char>;

/// Formats a string with `Debug` (`{:?}`). The escaping rules are those of
/// the standard library; the result depends on the string alone.
#[verifier::external_body]
fn debug_str(text: &str) -> (r: String)
    ensures
        r@ == quoted(text@),
{
    format!("{:?}", text)
}

/// The digit of value `value` in lower-case hexadecimal notation.
pub open spec fn digit(value: int) -> char {
    if value < 10 {
        (value + '0' as int) as char
    } else {
        (value - 10 + 'a' as int) as char
    }
}

/// The shortest numeral of `n` in the given radix.
pub open spec fn numeral(n: nat, radix: nat) -> Seq<char>
    decreases n,
{
    if radix < 2 {
        Seq::empty()
    } else if n < radix {
        seq![digit(n as int)]
    } else {
        proof {
            assert(n / radix < n) by (nonlinear_arith)
                requires
                    n >= radix,
                    radix >= 2,
            ;
        }
        numeral(n / radix, radix).push(digit((n % radix) as int))
    }
}

/// The decimal numeral of an integer, with a leading `-` when it is negative.
pub open spec fn decimal(n: int) -> Seq<char> {
    if n < 0 {
        seq!['-'] + numeral((-n) as nat, 10)
    } else {
        numeral(n as nat, 10)
    }
}

/// The text of a window handle: its address in hexadecimal, as in `HWND(0x1f)`.
pub open spec fn hwnd_text(hwnd: usize) -> Seq<char> {
    "HWND(0x"@ + numeral(hwnd as nat, 16) + ")"@
}

/// The text of a truth value.
pub open spec fn bool_text(value: bool) -> Seq<char> {
    if value {
        "true"@
    } else {
        "false"@
    }
}

/// The items one after another, with `, ` between neighbours.
pub open spec fn joined(items: Seq<Seq<char>>) -> Seq<char>
    decreases items.len(),
{
    if items.len() == 0 {
        Seq::empty()
    } else if items.len() == 1 {
        items[0]
    } else {
        joined(items.drop_last()) + ", "@ + items.last()
    }
}

/// The text of a list of strings: each one quoted, in square brackets.
pub open spec fn string_list_text(items: Seq<Seq<char>>) -> Seq<char> {
    "["@ + joined(items.map_values(|s: Seq<char>| quoted(s))) + "]"@
}

/// The text of a list of numbers, in square brackets.
pub open spec fn number_list_text(items: Seq<u64>) -> Seq<char> {
    "["@ + joined(items.map_values(|n: u64| decimal(n as int))) + "]"@
}

/// The views of a list of strings.
pub open spec fn string_views(items: Seq<String>) -> Seq<Seq<char>> {
    items.map_values(|s: String| s@)
}

fn digit_of(value: u128) -> (r: char)
    requires
        value < 16,
    ensures
        r == digit(value as int),
{
    if value < 10 {
        (value as u8 + '0' as u8) as char
    } else {
        (value as u8 - 10 + 'a' as u8) as char
    }
}

fn push_numeral(text: &mut String, n: u128, radix: u128)
    requires
        radix == 10 || radix == 16,
    ensures
        final(text)@ == old(text)@ + numeral(n as nat, radix as nat),
    decreases n,
{
    if n < radix {
        text.push(digit_of(n));
    } else {
        assert(n / radix < n) by (nonlinear_arith)
            requires
                n > 0,
                radix == 10 || radix == 16,
        ;
        push_numeral(text, n / radix, radix);
        text.push(digit_of(n % radix));
    }
}

/// Appends the decimal numeral of `n`.
pub fn push_decimal(text: &mut String, n: i128)
    ensures
        final(text)@ == old(text)@ + decimal(n as int),
{
    if n < 0 {
        text.push('-');
        push_numeral(text, (-(n + 1)) as u128 + 1, 10);
    } else {
        push_numeral(text, n as u128, 10);
    }
}

/// Appends the text of a window handle.
pub fn push_hwnd(text: &mut String, hwnd: usize)
    ensures
        final(text)@ == old(text)@ + hwnd_text(hwnd),
{
    text.append("HWND(0x");
    push_numeral(text, hwnd as u128, 16);
    text.append(")");
}

/// Appends the text of a truth value.
pub fn push_bool(text: &mut String, value: bool)
    ensures
        final(text)@ == old(text)@ + bool_text(value),
{
    if value {
        text.append("true");
    } else {
        text.append("false");
    }
}

/// Appends the text of a list of strings.
pub fn push_string_list(text: &mut String, items: &Vec<String>)
    ensures
        final(text)@ == old(text)@ + string_list_text(string_views(items@)),
{
    let ghost shown = string_views(items@).map_values(|s: Seq<char>| quoted(s));
    text.append("[");
    let ghost start = text@;
    let mut i: usize = 0;
    while i < items.len()
        invariant
            i <= items.len(),
            shown == string_views(items@).map_values(|s: Seq<char>| quoted(s)),
            text@ == start + joined(shown.take(i as int)),
        decreases items.len() - i,
    {
        let item = debug_str(items[i].as_str());
        if i > 0 {
            text.append(", ");
        }
        text.append(item.as_str());
        assert(shown.take(i + 1).drop_last() =~= shown.take(i as int));
        assert(shown.take(i + 1).last() == item@);
        i = i + 1;
    }
    assert(shown.take(i as int) =~= shown);
    text.append("]");
}

/// Appends the text of a list of numbers.
pub fn push_number_list(text: &mut String, items: &[u64])
    ensures
        final(text)@ == old(text)@ + number_list_text(items@),
{
    let ghost shown = items@.map_values(|n: u64| decimal(n as int));
    text.append("[");
    let ghost start = text@;
    let mut i: usize = 0;
    while i < items.len()
        invariant
            i <= items.len(),
            shown == items@.map_values(|n: u64| decimal(n as int)),
            text@ == start + joined(shown.take(i as int)),
        decreases items.len() - i,
    {
        if i > 0 {
            text.append(", ");
        }
        push_decimal(text, items[i] as i128);
        assert(shown.take(i + 1).drop_last() =~= shown.take(i as int));
        assert(shown.take(i + 1).last() == decimal(items[i as int] as int));
        i = i + 1;
    }
    assert(shown.take(i as int) =~= shown);
    text.append("]");
}

/// The characters with the Unicode property `White_Space`.
pub open spec fn is_white_space(c: char) -> bool {
    ||| '\u{9}' <= c <= '\u{d}'
    ||| c == '\u{20}'
    ||| c == '\u{85}'
    ||| c == '\u{a0}'
    ||| c == '\u{1680}'
    ||| '\u{2000}' <= c <= '\u{200a}'
    ||| c == '\u{2028}'
    ||| c == '\u{2029}'
    ||| c == '\u{202f}'
    ||| c == '\u{205f}'
    ||| c == '\u{3000}'
}

/// `text` without its leading white space.
pub open spec fn trimmed_start(text: Seq<char>) -> Seq<char>
    decreases text.len(),
{
    if text.len() > 0 && is_white_space(text.first()) {
        trimmed_start(text.drop_first())
    } else {
        text
    }
}

/// `text` without its trailing white space.
pub open spec fn trimmed_end(text: Seq<char>) -> Seq<char>
    decreases text.len(),
{
    if text.len() > 0 && is_white_space(text.last()) {
        trimmed_end(text.drop_last())
    } else {
        text
    }
}

/// `text` without the white space at both ends.
pub open spec fn trimmed(text: Seq<char>) -> Seq<char> {
    trimmed_end(trimmed_start(text))
}

/// Tells whether a character is white space.
pub fn white_space(c: char) -> (r: bool)
    ensures
        r == is_white_space(c),
{
    ('\u{9}' <= c && c <= '\u{d}') || c == '\u{20}' || c == '\u{85}' || c == '\u{a0}' || c
        == '\u{1680}' || ('\u{2000}' <= c && c <= '\u{200a}') || c == '\u{2028}' || c == '\u{2029}'
        || c == '\u{202f}' || c == '\u{205f}' || c == '\u{3000}'
}

/// Copies `text` without the white space at both ends.
pub fn trim(text: &str) -> (r: String)
    ensures
        r@ == trimmed(text@),
{
    let mut chars: Vec<char> = Vec::new();
    for c in it: text.chars()
        invariant
            chars@ == text@.take(it.index()),
            it.seq() == text@,
    {
        chars.push(c);
    }
    assert(chars@ =~= text@);
    let mut from: usize = 0;
    let mut to: usize = chars.len();
    assert(chars@.skip(0) =~= chars@);
    while from < to && white_space(chars[from])
        invariant
            from <= to == chars.len(),
            chars@ == text@,
            trimmed_start(text@) == trimmed_start(text@.skip(from as int)),
        decreases to - from,
    {
        assert(text@.skip(from as int).drop_first() =~= text@.skip(from + 1));
        from = from + 1;
    }
    assert(trimmed_start(text@) == text@.skip(from as int));
    assert(text@.subrange(from as int, to as int) =~= text@.skip(from as int));
    while from < to && white_space(chars[to - 1])
        invariant
            from <= to <= chars.len(),
            chars@ == text@,
            trimmed(text@) == trimmed_end(text@.subrange(from as int, to as int)),
        decreases to - from,
    {
        assert(text@.subrange(from as int, to as int).drop_last() =~= text@.subrange(
            from as int,
            to - 1,
        ));
        to = to - 1;
    }
    text.substring_char(from, to).to_owned()
}

proof fn lemma_trimmed_start(text: Seq<char>)
    ensures
        trimmed_start(text).len() > 0 ==> !is_white_space(trimmed_start(text).first()),
    decreases text.len(),
{
    if text.len() > 0 && is_white_space(text.first()) {
        lemma_trimmed_start(text.drop_first());
    }
}

proof fn lemma_trimmed_end(text: Seq<char>)
    ensures
        trimmed_end(text).len() > 0 ==> {
            &&& !is_white_space(trimmed_end(text).last())
            &&& trimmed_end(text).first() == text.first()
        },
    decreases text.len(),
{
    if text.len() > 0 && is_white_space(text.last()) {
        lemma_trimmed_end(text.drop_last());
    }
}

/// What is left of a trimmed text has no white space at its ends, and trimming
/// it again changes nothing.
pub proof fn trimmed_has_clean_ends(text: Seq<char>)
    ensures
        trimmed(text).len() > 0 ==> {
            &&& !is_white_space(trimmed(text).first())
            &&& !is_white_space(trimmed(text).last())
        },
        trimmed(trimmed(text)) == trimmed(text),
{
    lemma_trimmed_start(text);
    lemma_trimmed_end(trimmed_start(text));
}

/// White space are these characters and no others.
pub proof fn white_space_is_known(c: char)
    ensures
        is_white_space(c) <==> seq![
            0x9int,
            0xA,
            0xB,
            0xC,
            0xD,
            0x20,
            0x85,
            0xA0,
            0x1680,
            0x2000,
            0x2001,
            0x2002,
            0x2003,
            0x2004,
            0x2005,
            0x2006,
            0x2007,
            0x2008,
            0x2009,
            0x200A,
            0x2028,
            0x2029,
            0x202F,
            0x205F,
            0x3000,
        ].contains(c as int),
{
    let codes = seq![
        0x9int,
        0xA,
        0xB,
        0xC,
        0xD,
        0x20,
        0x85,
        0xA0,
        0x1680,
        0x2000,
        0x2001,
        0x2002,
        0x2003,
        0x2004,
        0x2005,
        0x2006,
        0x2007,
        0x2008,
        0x2009,
        0x200A,
        0x2028,
        0x2029,
        0x202F,
        0x205F,
        0x3000,
    ];
    let code = c as int;
    if is_white_space(c) {
        let i: int = if code <= 0xD {
            code - 9
        } else if code == 0x20 {
            5
        } else if code == 0x85 {
            6
        } else if code == 0xA0 {
            7
        } else if code == 0x1680 {
            8
        } else if code <= 0x200A {
            code - 0x2000 + 9
        } else if code == 0x2028 {
            20
        } else if code == 0x2029 {
            21
        } else if code == 0x202F {
            22
        } else if code == 0x205F {
            23
        } else {
            24
        };
        assert(codes[i] == code);
    }
}

proof fn lemma_trimmed_start_cut(text: Seq<char>) -> (from: int)
    ensures
        0 <= from <= text.len(),
        trimmed_start(text) == text.skip(from),
        forall|i: int| 0 <= i < from ==> is_white_space(#[trigger] text[i]),
        from < text.len() ==> !is_white_space(text[from]),
    decreases text.len(),
{
    if text.len() > 0 && is_white_space(text.first()) {
        let rest = lemma_trimmed_start_cut(text.drop_first());
        assert(text.drop_first().skip(rest) =~= text.skip(rest + 1));
        assert forall|i: int| 0 <= i < rest + 1 implies is_white_space(#[trigger] text[i]) by {
            if i > 0 {
                assert(text.drop_first()[i - 1] == text[i]);
            }
        }
        rest + 1
    } else {
        assert(text.skip(0) =~= text);
        0
    }
}

proof fn lemma_trimmed_end_cut(text: Seq<char>) -> (to: int)
    ensures
        0 <= to <= text.len(),
        trimmed_end(text) == text.take(to),
        forall|i: int| to <= i < text.len() ==> is_white_space(#[trigger] text[i]),
        to > 0 ==> !is_white_space(text[to - 1]),
    decreases text.len(),
{
    if text.len() > 0 && is_white_space(text.last()) {
        let to = lemma_trimmed_end_cut(text.drop_last());
        assert(text.drop_last().take(to) =~= text.take(to));
        assert forall|i: int| to <= i < text.len() implies is_white_space(#[trigger] text[i]) by {
            if i < text.len() - 1 {
                assert(text.drop_last()[i] == text[i]);
            }
        }
        to
    } else {
        assert(text.take(text.len() as int) =~= text);
        text.len() as int
    }
}

/// Trimming cuts a text at two places: what it cuts off is white space, and what
/// it leaves, if anything, begins and ends with another character.
pub proof fn trimming_cuts_white_space_only(text: Seq<char>)
    ensures
        exists|from: int, to: int|
            {
                &&& 0 <= from <= to <= text.len()
                &&& trimmed(text) == #[trigger] text.subrange(from, to)
                &&& from < to ==> !is_white_space(text[from]) && !is_white_space(text[to - 1])
                &&& forall|i: int|
                    0 <= i < from || to <= i < text.len() ==> is_white_space(#[trigger] text[i])
            },
{
    let from = lemma_trimmed_start_cut(text);
    let rest = text.skip(from);
    let end = lemma_trimmed_end_cut(rest);
    let to = from + end;
    assert(rest.take(end) =~= text.subrange(from, to));
    assert forall|i: int| 0 <= i < from || to <= i < text.len() implies is_white_space(
        #[trigger] text[i],
    ) by {
        if i >= to {
            assert(rest[i - from] == text[i]);
        }
    }
    if from < to {
        assert(rest[end - 1] == text[to - 1]);
        assert(from < text.len());
    }
    assert(trimmed(text) == text.subrange(from, to));
}

/// The value of a digit.
pub open spec fn digit_value(digit: char) -> int {
    if digit <= '9' {
        digit as int - 0x30
    } else {
        digit as int - 0x61 + 10
    }
}

/// The number that a numeral stands for.
pub open spec fn numeral_value(text: Seq<char>, radix: nat) -> int
    decreases text.len(),
{
    if text.len() == 0 {
        0
    } else {
        numeral_value(text.drop_last(), radix) * radix + digit_value(text.last())
    }
}

/// A numeral stands for its number, is made of digits of its radix in lower case,
/// and begins with a zero only when it is that of zero.
pub proof fn numerals_stand_for_their_numbers(n: nat, radix: nat)
    requires
        2 <= radix <= 16,
    ensures
        numeral_value(numeral(n, radix), radix) == n,
        numeral(n, radix).len() > 0,
        forall|i: int|
            0 <= i < numeral(n, radix).len() ==> {
                let digit = #[trigger] numeral(n, radix)[i];
                &&& '0' <= digit <= '9' || 'a' <= digit <= 'f'
                &&& digit_value(digit) < radix
            },
        numeral(n, radix)[0] == '0' ==> n == 0,
        n < radix ==> numeral(n, radix).len() == 1,
    decreases n,
{
    if n < radix {
        assert(numeral(n, radix).drop_last() =~= Seq::empty());
        assert(numeral_value(Seq::<char>::empty(), radix) == 0);
        assert(0 * radix == 0) by (nonlinear_arith);
    } else {
        vstd::arithmetic::div_mod::lemma_fundamental_div_mod(n as int, radix as int);
        vstd::arithmetic::div_mod::lemma_mod_bound(n as int, radix as int);
        assert(0 < n / radix < n) by (nonlinear_arith)
            requires
                n >= radix,
                radix >= 2,
        ;
        numerals_stand_for_their_numbers(n / radix, radix);
        let front = numeral(n / radix, radix);
        assert(numeral(n, radix).drop_last() =~= front);
        assert(n == (n / radix) * radix + n % radix) by (nonlinear_arith)
            requires
                n as int == radix as int * (n as int / radix as int) + n as int % radix as int,
        ;
        assert forall|i: int| 0 <= i < numeral(n, radix).len() implies ({
            let digit = #[trigger] numeral(n, radix)[i];
            &&& '0' <= digit <= '9' || 'a' <= digit <= 'f'
            &&& digit_value(digit) < radix
        }) by {
            if i < front.len() {
                assert(front[i] == numeral(n, radix)[i]);
            }
        }
    }
}

/// Decimal numerals can be read back, and differ from those of the opposite
/// number by a minus sign alone.
pub proof fn decimals_are_read_back(n: nat)
    ensures
        numeral_value(decimal(n as int), 10) == n,
        forall|i: int|
            0 <= i < decimal(n as int).len() ==> '0' <= #[trigger] decimal(n as int)[i] <= '9',
        decimal(n as int)[0] == '0' ==> n == 0 && decimal(n as int).len() == 1,
        n > 0 ==> decimal(-n) == seq!['-'] + decimal(n as int),
{
    numerals_stand_for_their_numbers(n, 10);
}

/// A window handle shows its address in hexadecimal between fixed words.
pub proof fn handles_show_their_address(hwnd: usize)
    ensures
        exists|address: Seq<char>|
            {
                &&& hwnd_text(hwnd) == #[trigger] ("HWND(0x"@ + address) + ")"@
                &&& numeral_value(address, 16) == hwnd
                &&& address.len() > 0
                &&& address[0] == '0' ==> hwnd == 0 && address.len() == 1
                &&& forall|i: int|
                    0 <= i < address.len() ==> '0' <= #[trigger] address[i] <= '9' || 'a'
                        <= address[i] <= 'f'
            },
{
    numerals_stand_for_their_numbers(hwnd as nat, 16);
    let address = numeral(hwnd as nat, 16);
    assert(hwnd_text(hwnd) == ("HWND(0x"@ + address) + ")"@);
    assert forall|i: int| 0 <= i < address.len() implies '0' <= #[trigger] address[i] <= '9' || 'a'
        <= address[i] <= 'f' by {}
}

/// Truth values show as two different words.
pub proof fn truth_values_show(value: bool)
    ensures
        value <==> bool_text(value) == "true"@,
        !value <==> bool_text(value) == "false"@,
{
    reveal_strlit("true");
    reveal_strlit("false");
    assert("true"@.len() != "false"@.len());
}

/// Joining two lists joins their texts, with a comma between them unless one of
/// them is empty; a single item stands for itself.
pub proof fn lists_join(a: Seq<Seq<char>>, b: Seq<Seq<char>>, item: Seq<char>)
    ensures
        joined(seq![item]) == item,
        a.len() == 0 ==> joined(a) == Seq::<char>::empty(),
        a.len() > 0 && b.len() > 0 ==> joined(a + b) == joined(a) + ", "@ + joined(b),
    decreases b.len(),
{
    if a.len() > 0 && b.len() > 0 {
        let front = b.drop_last();
        assert((a + b).drop_last() =~= a + front);
        assert((a + b).last() == b.last());
        if front.len() > 0 {
            lists_join(a, front, item);
            assert(joined(a + b) =~= joined(a) + ", "@ + joined(b));
        } else {
            assert(a + front =~= a);
        }
    }
}

/// A list shows the text of each of its items, in order, between brackets:
/// strings quoted, numbers in decimal.
pub proof fn lists_show_their_items(strings: Seq<Seq<char>>, numbers: Seq<u64>)
    ensures
        string_list_text(strings) == "["@ + joined(
            Seq::new(strings.len(), |i: int| quoted(strings[i])),
        ) + "]"@,
        number_list_text(numbers) == "["@ + joined(
            Seq::new(numbers.len(), |i: int| decimal(numbers[i] as int)),
        ) + "]"@,
{
    assert(strings.map_values(|s: Seq<char>| quoted(s)) =~= Seq::new(
        strings.len(),
        |i: int| quoted(strings[i]),
    ));
    assert(numbers.map_values(|n: u64| decimal(n as int)) =~= Seq::new(
        numbers.len(),
        |i: int| decimal(numbers[i] as int),
    ));
}

/// Each string of a list shows in its view.
pub proof fn string_views_are_faithful(items: Seq<String>)
    ensures
        string_views(items).len() == items.len(),
        forall|i: int| 0 <= i < items.len() ==> #[trigger] string_views(items)[i] == items[i]@,
{
}

} // verus!
