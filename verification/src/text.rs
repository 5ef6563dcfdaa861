//! Text helpers: comparison, joining, hexadecimal and decimal digits, blank
//! space, ASCII case and the byte order of the storage engine.
use vstd::prelude::*;
use vstd::string::{StrSliceExecFns, StringExecFns};
use vstd::utf8::encode_utf8;

verus! {

/// The characters of an optional text.
pub open spec fn opt_text(value: Option<String>) -> Option<Seq<char>> {
    match value {
        Some(text) => Some(text@),
        None => None,
    }
}

/// The characters of an optional borrowed text.
pub open spec fn opt_str(value: Option<&str>) -> Option<Seq<char>> {
    match value {
        Some(text) => Some(text@),
        None => None,
    }
}

/// The characters of each text of a list.
pub open spec fn texts(values: Seq<String>) -> Seq<Seq<char>> {
    Seq::new(values.len(), |i: int| values[i]@)
}

/// Whether two texts hold the same characters.
pub fn same(left: &str, right: &str) -> (equal: bool)
    ensures
        equal == (left@ == right@),
{
    left.to_owned() == right.to_owned()
}

/// Whether two optional texts are both absent or hold the same characters.
pub fn same_opt(left: &Option<String>, right: &Option<String>) -> (equal: bool)
    ensures
        equal == (opt_text(*left) == opt_text(*right)),
{
    match (left, right) {
        (Some(left), Some(right)) => same(left.as_str(), right.as_str()),
        (None, None) => true,
        _ => false,
    }
}

/// Whether an optional text is present and holds the characters of `wanted`.
pub fn is_some_text(value: &Option<String>, wanted: &str) -> (equal: bool)
    ensures
        equal == (opt_text(*value) == Some(wanted@)),
{
    match value {
        Some(text) => same(text.as_str(), wanted),
        None => false,
    }
}

/// A copy of an optional text.
pub fn copy_opt(value: &Option<String>) -> (copy: Option<String>)
    ensures
        copy == *value,
{
    match value {
        Some(text) => Some(text.clone()),
        None => None,
    }
}

/// A borrow of an optional text.
pub fn borrow_opt(value: &Option<String>) -> (text: Option<&str>)
    ensures
        opt_str(text) == opt_text(*value),
{
    match value {
        Some(text) => Some(text.as_str()),
        None => None,
    }
}

/// An owned copy of an optional borrowed text.
pub fn own_opt(value: Option<&str>) -> (text: Option<String>)
    ensures
        opt_text(text) == opt_str(value),
{
    match value {
        Some(text) => Some(text.to_owned()),
        None => None,
    }
}

/// Whether a list of texts holds `wanted`.
pub fn contains_text(values: &Vec<String>, wanted: &str) -> (found: bool)
    ensures
        found == texts(values@).contains(wanted@),
{
    let mut i: usize = 0;
    while i < values.len()
        invariant
            i <= values.len(),
            forall|k: int| 0 <= k < i ==> (#[trigger] values[k])@ != wanted@,
        decreases values.len() - i,
    {
        if same(values[i].as_str(), wanted) {
            assert(texts(values@)[i as int] == wanted@);
            return true;
        }
        i = i + 1;
    }
    assert forall|k: int| 0 <= k < texts(values@).len() implies texts(values@)[k] != wanted@ by {
        assert(values[k]@ != wanted@);
    }
    false
}

/// `head`, `middle` and `tail` one after the other.
pub fn joined(head: &str, middle: &str, tail: &str) -> (text: String)
    ensures
        text@ == head@ + middle@ + tail@,
{
    let mut text = head.to_owned();
    text.append(middle);
    text.append(tail);
    text
}

/// `head` and `tail` one after the other.
pub fn followed(head: &str, tail: &str) -> (text: String)
    ensures
        text@ == head@ + tail@,
{
    let mut text = head.to_owned();
    text.append(tail);
    text
}

/// The characters of a text as a list.
pub fn characters(text: &str) -> (list: Vec<char>)
    ensures
        list@ == text@,
{
    let mut list: Vec<char> = Vec::new();
    let size: usize = text.unicode_len();
    let mut i: usize = 0;
    while i < size
        invariant
            i <= size,
            size == text@.len(),
            list@ =~= text@.take(i as int),
        decreases size - i,
    {
        list.push(text.get_char(i));
        i = i + 1;
    }
    list
}

// ----------------------------------------------------------------------------
// Hexadecimal and decimal digits
// ----------------------------------------------------------------------------

/// The lower-case hexadecimal digit of a value below sixteen.
pub open spec fn hex_digit(value: int) -> char {
    if value < 10 {
        (48 + value) as char
    } else {
        (87 + value) as char
    }
}

fn hex_digit_text(value: u8) -> (digit: &'static str)
    requires
        value < 16,
    ensures
        digit@ == seq![hex_digit(value as int)],
{
    proof {
        reveal_strlit("0");
        reveal_strlit("1");
        reveal_strlit("2");
        reveal_strlit("3");
        reveal_strlit("4");
        reveal_strlit("5");
        reveal_strlit("6");
        reveal_strlit("7");
        reveal_strlit("8");
        reveal_strlit("9");
        reveal_strlit("a");
        reveal_strlit("b");
        reveal_strlit("c");
        reveal_strlit("d");
        reveal_strlit("e");
        reveal_strlit("f");
    }
    match value {
        0 => "0",
        1 => "1",
        2 => "2",
        3 => "3",
        4 => "4",
        5 => "5",
        6 => "6",
        7 => "7",
        8 => "8",
        9 => "9",
        10 => "a",
        11 => "b",
        12 => "c",
        13 => "d",
        14 => "e",
        _ => "f",
    }
}

/// Two lower-case hexadecimal digits for each byte.
pub open spec fn hex_bytes(bytes: Seq<u8>) -> Seq<char>
    decreases bytes.len(),
{
    if bytes.len() == 0 {
        Seq::empty()
    } else {
        hex_bytes(bytes.drop_last()) + seq![
            hex_digit(bytes.last() as int / 16),
            hex_digit(bytes.last() as int % 16),
        ]
    }
}

/// Writes bytes as lower-case hexadecimal digits.
pub fn hex_of_bytes(bytes: &Vec<u8>) -> (text: String)
    ensures
        text@ == hex_bytes(bytes@),
{
    let mut text = String::new();
    let mut i: usize = 0;
    while i < bytes.len()
        invariant
            i <= bytes.len(),
            text@ == hex_bytes(bytes@.take(i as int)),
        decreases bytes.len() - i,
    {
        proof {
            assert(bytes@.take(i as int + 1).drop_last() =~= bytes@.take(i as int));
        }
        text.append(hex_digit_text(bytes[i] / 16));
        text.append(hex_digit_text(bytes[i] % 16));
        assert(text@ =~= hex_bytes(bytes@.take(i as int + 1)));
        i = i + 1;
    }
    assert(bytes@.take(i as int) =~= bytes@);
    text
}

/// Whether a character is a digit or one of the letters from `a` to `f`.
pub open spec fn is_lower_hex(digit: char) -> bool {
    '0' <= digit <= '9' || 'a' <= digit <= 'f'
}

/// Bytes are written in two lower-case digits each.
pub proof fn lemma_hex_bytes(bytes: Seq<u8>)
    ensures
        hex_bytes(bytes).len() == 2 * bytes.len(),
        forall|i: int|
            0 <= i < hex_bytes(bytes).len() ==> is_lower_hex(#[trigger] hex_bytes(bytes)[i]),
    decreases bytes.len(),
{
    if bytes.len() > 0 {
        lemma_hex_bytes(bytes.drop_last());
        let head = hex_bytes(bytes.drop_last());
        assert forall|i: int| 0 <= i < hex_bytes(bytes).len() implies is_lower_hex(
            #[trigger] hex_bytes(bytes)[i],
        ) by {
            if i < head.len() {
                assert(hex_bytes(bytes)[i] == head[i]);
            }
        }
    }
}

/// Bytes that are written alike are the same.
pub proof fn law_hex_bytes_apart(bytes: Seq<u8>, others: Seq<u8>)
    requires
        hex_bytes(bytes) == hex_bytes(others),
    ensures
        bytes == others,
    decreases bytes.len(),
{
    lemma_hex_bytes(bytes);
    lemma_hex_bytes(others);
    if bytes.len() > 0 {
        let size = hex_bytes(bytes).len();
        let head = hex_bytes(bytes.drop_last());
        let other = hex_bytes(others.drop_last());
        lemma_hex_bytes(bytes.drop_last());
        lemma_hex_bytes(others.drop_last());
        assert(head =~= hex_bytes(bytes).take(size - 2));
        assert(other =~= hex_bytes(others).take(size - 2));
        law_hex_bytes_apart(bytes.drop_last(), others.drop_last());
        let last = bytes.last() as int;
        let end = others.last() as int;
        assert(hex_bytes(bytes)[size - 2] == hex_digit(last / 16));
        assert(hex_bytes(others)[size - 2] == hex_digit(end / 16));
        assert(hex_bytes(bytes)[size - 1] == hex_digit(last % 16));
        assert(hex_bytes(others)[size - 1] == hex_digit(end % 16));
        lemma_hex_digit_value(last / 16);
        lemma_hex_digit_value(end / 16);
        lemma_hex_digit_value(last % 16);
        lemma_hex_digit_value(end % 16);
        assert(bytes =~= bytes.drop_last().push(bytes.last()));
        assert(others =~= others.drop_last().push(others.last()));
    } else {
        assert(bytes =~= others);
    }
}

/// The last `width` hexadecimal digits of `value`, padded with zeros.
pub open spec fn hex_fixed(value: nat, width: nat) -> Seq<char>
    decreases width,
{
    if width == 0 {
        Seq::empty()
    } else {
        hex_fixed(value / 16, (width - 1) as nat).push(hex_digit((value % 16) as int))
    }
}

/// Writes the last `width` hexadecimal digits of `value`, padded with zeros.
pub fn hex_of_number(value: u128, width: u32) -> (text: String)
    ensures
        text@ == hex_fixed(value as nat, width as nat),
    decreases width,
{
    if width == 0 {
        String::new()
    } else {
        let mut text = hex_of_number(value / 16, width - 1);
        text.append(hex_digit_text((value % 16) as u8));
        assert(text@ =~= hex_fixed(value as nat, width as nat));
        text
    }
}

/// The value of a hexadecimal digit of either case, or -1.
pub open spec fn digit_value(digit: char) -> int {
    if '0' <= digit && digit <= '9' {
        digit as int - 48
    } else if 'a' <= digit && digit <= 'f' {
        digit as int - 87
    } else if 'A' <= digit && digit <= 'F' {
        digit as int - 55
    } else {
        -1
    }
}

/// Whether every character is a hexadecimal digit.
pub open spec fn all_hex(digits: Seq<char>) -> bool {
    forall|i: int| 0 <= i < digits.len() ==> digit_value(#[trigger] digits[i]) >= 0
}

/// The number that hexadecimal digits write.
pub open spec fn hex_number(digits: Seq<char>) -> int
    decreases digits.len(),
{
    if digits.len() == 0 {
        0
    } else {
        hex_number(digits.drop_last()) * 16 + digit_value(digits.last())
    }
}

/// The digits of a number text: what follows an optional plus sign.
pub open spec fn unsigned_digits(text: Seq<char>) -> Seq<char> {
    if text.len() > 0 && text[0] == '+' {
        text.skip(1)
    } else {
        text
    }
}

/// The number below 2^128 that a text writes in hexadecimal, with an optional
/// plus sign, or nothing.
pub open spec fn hex_parsed(text: Seq<char>) -> Option<int> {
    let digits = unsigned_digits(text);
    if digits.len() > 0 && all_hex(digits) && hex_number(digits) <= u128::MAX {
        Some(hex_number(digits))
    } else {
        None
    }
}

proof fn lemma_hex_number_grows(digits: Seq<char>, size: int)
    requires
        all_hex(digits),
        0 <= size <= digits.len(),
    ensures
        0 <= hex_number(digits.take(size)) <= hex_number(digits),
    decreases digits.len(),
{
    if digits.len() == 0 {
        assert(digits.take(size) =~= digits);
    } else if size == digits.len() {
        assert(digits.take(size) =~= digits);
        lemma_hex_number_grows(digits.drop_last(), 0);
    } else {
        assert(digits.drop_last().take(size) =~= digits.take(size));
        assert(digit_value(digits[digits.len() - 1]) >= 0);
        lemma_hex_number_grows(digits.drop_last(), size);
    }
}

fn hex_digit_number(digit: char) -> (value: Option<u8>)
    ensures
        value is Some == (digit_value(digit) >= 0),
        value matches Some(number) ==> number == digit_value(digit) && number < 16,
{
    if '0' <= digit && digit <= '9' {
        Some((digit as u32 - 48) as u8)
    } else if 'a' <= digit && digit <= 'f' {
        Some((digit as u32 - 87) as u8)
    } else if 'A' <= digit && digit <= 'F' {
        Some((digit as u32 - 55) as u8)
    } else {
        None
    }
}

/// Reads a hexadecimal number below 2^128, with an optional plus sign.
pub fn parse_hex(text: &str) -> (value: Option<u128>)
    ensures
        match value {
            Some(number) => hex_parsed(text@) == Some(number as int),
            None => hex_parsed(text@) is None,
        },
{
    let list = characters(text);
    let signed = list.len() > 0 && list[0] == '+';
    let start: usize = if signed { 1 } else { 0 };
    let ghost digits = unsigned_digits(text@);
    assert(digits =~= list@.skip(start as int));
    if start == list.len() {
        return None;
    }
    let mut value: u128 = 0;
    let mut i: usize = start;
    while i < list.len()
        invariant
            start <= i <= list.len(),
            start <= 1,
            digits == list@.skip(start as int),
            list@ == text@,
            digits == unsigned_digits(text@),
            all_hex(digits.take(i - start)),
            value == hex_number(digits.take(i - start)),
        decreases list.len() - i,
    {
        let ghost done = digits.take(i - start);
        let ghost next = digits.take(i + 1 - start);
        proof {
            assert(next.drop_last() =~= done);
            assert(next.last() == list[i as int]);
        }
        match hex_digit_number(list[i]) {
            None => {
                assert(digits[i - start] == list[i as int]);
                return None;
            },
            Some(number) => {
                if value > (u128::MAX - number as u128) / 16 {
                    proof {
                        assert(hex_number(next) == value * 16 + number);
                        assert(hex_number(next) > u128::MAX);
                        if all_hex(digits) {
                            lemma_hex_number_grows(digits, i + 1 - start);
                        }
                    }
                    return None;
                }
                value = value * 16 + number as u128;
                proof {
                    assert forall|k: int|
                        0 <= k < next.len() implies digit_value(#[trigger] next[k]) >= 0 by {
                        if k < done.len() {
                            assert(next[k] == done[k]);
                        }
                    }
                }
            },
        }
        i = i + 1;
    }
    assert(digits.take(i - start) =~= digits);
    Some(value)
}

proof fn lemma_hex_digit_value(value: int)
    requires
        0 <= value < 16,
    ensures
        digit_value(hex_digit(value)) == value,
{
}

/// The power of sixteen that bounds `width` digits.
pub open spec fn sixteens(width: nat) -> nat
    decreases width,
{
    if width == 0 {
        1
    } else {
        16 * sixteens((width - 1) as nat)
    }
}

proof fn lemma_hex_fixed(value: nat, width: nat)
    requires
        value < sixteens(width),
    ensures
        hex_fixed(value, width).len() == width,
        all_hex(hex_fixed(value, width)),
        hex_number(hex_fixed(value, width)) == value,
    decreases width,
{
    if width > 0 {
        let shorter = (width - 1) as nat;
        lemma_hex_fixed(value / 16, shorter);
        lemma_hex_digit_value((value % 16) as int);
        let head = hex_fixed(value / 16, shorter);
        let whole = hex_fixed(value, width);
        assert(whole.drop_last() =~= head);
        assert forall|i: int|
            0 <= i < whole.len() implies digit_value(#[trigger] whole[i]) >= 0 by {
            if i < head.len() {
                assert(whole[i] == head[i]);
            }
        }
    }
}

/// Writing a number in thirty-two hexadecimal digits and reading it back gives
/// the number.
pub proof fn law_hex_round_trip(value: u128)
    ensures
        hex_parsed(hex_fixed(value as nat, 32)) == Some(value as int),
{
    assert(sixteens(32) == 0x1_0000_0000_0000_0000_0000_0000_0000_0000) by {
        reveal_with_fuel(sixteens, 33);
    }
    lemma_hex_fixed(value as nat, 32);
    let digits = hex_fixed(value as nat, 32);
    assert(digit_value(digits[0]) >= 0);
    assert(unsigned_digits(digits) == digits);
}

/// The decimal digits of a number.
pub open spec fn decimal(value: nat) -> Seq<char>
    decreases value,
{
    if value < 10 {
        seq![hex_digit(value as int)]
    } else {
        decimal(value / 10).push(hex_digit((value % 10) as int))
    }
}

/// Writes a number in decimal digits.
pub fn decimal_of(value: usize) -> (text: String)
    ensures
        text@ == decimal(value as nat),
    decreases value,
{
    if value < 10 {
        hex_digit_text(value as u8).to_owned()
    } else {
        let mut text = decimal_of(value / 10);
        text.append(hex_digit_text((value % 10) as u8));
        assert(text@ =~= decimal(value as nat));
        text
    }
}

// ----------------------------------------------------------------------------
// Blank space and ASCII case
// ----------------------------------------------------------------------------

/// Whether a character is Unicode white space.
pub open spec fn is_space(c: char) -> bool {
    let code = c as int;
    ||| 9 <= code <= 13
    ||| code == 32
    ||| code == 133
    ||| code == 160
    ||| code == 5760
    ||| 8192 <= code <= 8202
    ||| code == 8232
    ||| code == 8233
    ||| code == 8239
    ||| code == 8287
    ||| code == 12288
}

/// Whether a text holds nothing but white space.
pub open spec fn is_blank(text: Seq<char>) -> bool {
    forall|i: int| 0 <= i < text.len() ==> is_space(#[trigger] text[i])
}

/// Decides whether a character is Unicode white space.
pub fn space(c: char) -> (yes: bool)
    ensures
        yes == is_space(c),
{
    let code: u32 = c as u32;
    (9 <= code && code <= 13) || code == 32 || code == 133 || code == 160 || code == 5760
        || (8192 <= code
        && code <= 8202) || code == 8232 || code == 8233 || code == 8239 || code == 8287 || code == 12288
}

/// Decides whether a text holds nothing but white space.
pub fn blank(text: &str) -> (yes: bool)
    ensures
        yes == is_blank(text@),
{
    let list = characters(text);
    let mut i: usize = 0;
    while i < list.len()
        invariant
            i <= list.len(),
            list@ == text@,
            forall|k: int| 0 <= k < i ==> is_space(#[trigger] text@[k]),
        decreases list.len() - i,
    {
        if !space(list[i]) {
            assert(!is_space(text@[i as int]));
            return false;
        }
        i = i + 1;
    }
    true
}

/// `text` without the white space at its start.
pub open spec fn trim_start(text: Seq<char>) -> Seq<char>
    decreases text.len(),
{
    if text.len() > 0 && is_space(text[0]) {
        trim_start(text.skip(1))
    } else {
        text
    }
}

/// `text` without the white space at its end.
pub open spec fn trim_end(text: Seq<char>) -> Seq<char>
    decreases text.len(),
{
    if text.len() > 0 && is_space(text.last()) {
        trim_end(text.drop_last())
    } else {
        text
    }
}

/// `text` without the white space around it.
pub open spec fn trim(text: Seq<char>) -> Seq<char> {
    trim_end(trim_start(text))
}

/// The lower-case form of an ASCII letter; any other character as it is.
pub open spec fn lower(c: char) -> char {
    if 'A' <= c && c <= 'Z' {
        (c as int + 32) as char
    } else {
        c
    }
}

/// `text` with each ASCII letter in lower case.
pub open spec fn ascii_lower(text: Seq<char>) -> Seq<char> {
    Seq::new(text.len(), |i: int| lower(text[i]))
}

/// The characters of `text`, without the white space around it and with each
/// ASCII letter in lower case.
pub fn trimmed_lower(text: &str) -> (list: Vec<char>)
    ensures
        list@ == ascii_lower(trim(text@)),
{
    let all = characters(text);
    assert(text@.skip(0) =~= text@);
    let mut start: usize = 0;
    while start < all.len() && space(all[start])
        invariant
            start <= all.len(),
            all@ == text@,
            trim_start(text@) == trim_start(text@.skip(start as int)),
        decreases all.len() - start,
    {
        assert(text@.skip(start as int).skip(1) =~= text@.skip(start as int + 1));
        start = start + 1;
    }
    assert(trim_start(text@) =~= text@.skip(start as int));
    let mut end: usize = all.len();
    while end > start && space(all[end - 1])
        invariant
            start <= end <= all.len(),
            all@ == text@,
            trim(text@) == trim_end(text@.subrange(start as int, end as int)),
        decreases end,
    {
        assert(text@.subrange(start as int, end as int).drop_last() =~= text@.subrange(
            start as int,
            end - 1,
        ));
        end = end - 1;
    }
    assert(trim(text@) =~= text@.subrange(start as int, end as int));
    let mut list: Vec<char> = Vec::new();
    let mut i: usize = start;
    while i < end
        invariant
            start <= i <= end <= all.len(),
            all@ == text@,
            list@ =~= ascii_lower(text@.subrange(start as int, i as int)),
        decreases end - i,
    {
        list.push(lowered_char(all[i]));
        i = i + 1;
    }
    list
}

/// An ASCII letter in lower case; any other character as it is.
pub fn lowered_char(c: char) -> (small: char)
    ensures
        small == lower(c),
{
    if 'A' <= c && c <= 'Z' {
        ((c as u8) + 32) as char
    } else {
        c
    }
}

/// Whether a list of characters spells `word`.
pub fn spells(list: &Vec<char>, word: &str) -> (yes: bool)
    ensures
        yes == (list@ == word@),
{
    let wanted = characters(word);
    if list.len() != wanted.len() {
        return false;
    }
    let mut i: usize = 0;
    while i < list.len()
        invariant
            i <= list.len(),
            list.len() == wanted.len(),
            wanted@ == word@,
            forall|k: int| 0 <= k < i ==> list[k] == wanted[k],
        decreases list.len() - i,
    {
        if list[i] != wanted[i] {
            return false;
        }
        i = i + 1;
    }
    assert(list@ =~= word@);
    true
}

/// Whether `word` stands in `text` from place `at` on.
pub open spec fn stands_at(text: Seq<char>, word: Seq<char>, at: int) -> bool {
    0 <= at && at + word.len() <= text.len() && text.subrange(at, at + word.len()) == word
}

/// Whether `word` stands anywhere in `text`.
pub open spec fn is_within(text: Seq<char>, word: Seq<char>) -> bool {
    exists|at: int| #[trigger] stands_at(text, word, at)
}

/// Whether `word` stands anywhere in `text`.
pub fn holds(text: &str, word: &str) -> (yes: bool)
    ensures
        yes == is_within(text@, word@),
{
    let all = characters(text);
    let wanted = characters(word);
    if wanted.len() > all.len() {
        return false;
    }
    let last: usize = all.len() - wanted.len();
    let mut at: usize = 0;
    while at <= last
        invariant
            all@ == text@,
            wanted@ == word@,
            last == all.len() - wanted.len(),
            at <= last + 1,
            forall|k: int| 0 <= k < at ==> !stands_at(text@, word@, k),
        decreases last + 1 - at,
    {
        let mut same_so_far: usize = 0;
        while same_so_far < wanted.len() && all[at + same_so_far] == wanted[same_so_far]
            invariant
                all@ == text@,
                wanted@ == word@,
                at + wanted.len() <= all.len(),
                same_so_far <= wanted.len(),
                forall|k: int| 0 <= k < same_so_far ==> all[at + k] == wanted[k],
            decreases wanted.len() - same_so_far,
        {
            same_so_far = same_so_far + 1;
        }
        if same_so_far == wanted.len() {
            assert(text@.subrange(at as int, at + word@.len()) =~= word@);
            assert(stands_at(text@, word@, at as int));
            return true;
        }
        assert(!stands_at(text@, word@, at as int)) by {
            let there = text@.subrange(at as int, at + word@.len());
            assert(there[same_so_far as int] == all[at + same_so_far]);
        }
        if at == last {
            assert forall|k: int| !stands_at(text@, word@, k) by {}
            return false;
        }
        at = at + 1;
    }
    false
}

// ----------------------------------------------------------------------------
// Byte order
// ----------------------------------------------------------------------------

/// Whether `left` comes before `right` when bytes are compared one by one.
pub open spec fn bytes_before(left: Seq<u8>, right: Seq<u8>) -> bool
    decreases left.len(),
{
    if right.len() == 0 {
        false
    } else if left.len() == 0 {
        true
    } else if left[0] != right[0] {
        left[0] < right[0]
    } else {
        bytes_before(left.skip(1), right.skip(1))
    }
}

/// Whether `left` comes before `right` in the order of their UTF-8 bytes, the
/// order in which the storage engine compares texts.
pub open spec fn text_before(left: Seq<char>, right: Seq<char>) -> bool {
    bytes_before(encode_utf8(left), encode_utf8(right))
}

/// Decides whether `left` comes before `right` in the order of their bytes.
pub fn before(left: &str, right: &str) -> (yes: bool)
    ensures
        yes == text_before(left@, right@),
{
    let a = left.as_bytes();
    let b = right.as_bytes();
    let mut i: usize = 0;
    assert(a@.skip(0) =~= a@);
    assert(b@.skip(0) =~= b@);
    loop
        invariant
            i <= a.len(),
            i <= b.len(),
            bytes_before(a@, b@) == bytes_before(a@.skip(i as int), b@.skip(i as int)),
            a@ == encode_utf8(left@),
            b@ == encode_utf8(right@),
        decreases a.len() - i,
    {
        if i == b.len() {
            return false;
        }
        if i == a.len() {
            return true;
        }
        if a[i] != b[i] {
            return a[i] < b[i];
        }
        assert(a@.skip(i as int).skip(1) =~= a@.skip(i as int + 1));
        assert(b@.skip(i as int).skip(1) =~= b@.skip(i as int + 1));
        i = i + 1;
    }
}

/// No text comes before itself.
pub proof fn lemma_bytes_irreflexive(text: Seq<u8>)
    ensures
        !bytes_before(text, text),
    decreases text.len(),
{
    if text.len() > 0 {
        lemma_bytes_irreflexive(text.skip(1));
    }
}

/// The byte order is transitive.
pub proof fn lemma_bytes_transitive(a: Seq<u8>, b: Seq<u8>, c: Seq<u8>)
    requires
        bytes_before(a, b),
        bytes_before(b, c),
    ensures
        bytes_before(a, c),
    decreases a.len(),
{
    if a.len() > 0 && a[0] == b[0] && b[0] == c[0] {
        lemma_bytes_transitive(a.skip(1), b.skip(1), c.skip(1));
    }
}

/// Two byte texts of which neither comes first are equal.
pub proof fn lemma_bytes_total(a: Seq<u8>, b: Seq<u8>)
    requires
        !bytes_before(a, b),
        !bytes_before(b, a),
    ensures
        a == b,
    decreases a.len(),
{
    if a.len() > 0 && b.len() > 0 {
        lemma_bytes_total(a.skip(1), b.skip(1));
        assert(a =~= seq![a[0]] + a.skip(1));
        assert(b =~= seq![b[0]] + b.skip(1));
    } else {
        assert(a =~= b);
    }
}

/// Two texts of which neither comes first are equal.
pub proof fn lemma_text_total(a: Seq<char>, b: Seq<char>)
    requires
        !text_before(a, b),
        !text_before(b, a),
    ensures
        a == b,
{
    broadcast use vstd::utf8::encode_utf8_decode_utf8;

    lemma_bytes_total(encode_utf8(a), encode_utf8(b));
    assert(vstd::utf8::decode_utf8(encode_utf8(a)) == a);
    assert(vstd::utf8::decode_utf8(encode_utf8(b)) == b);
}

/// Texts are in a strict total order.
pub proof fn lemma_text_order(a: Seq<char>, b: Seq<char>)
    ensures
        !text_before(a, a),
        text_before(a, b) ==> !text_before(b, a) && a != b,
        a == b || text_before(a, b) || text_before(b, a),
{
    lemma_bytes_irreflexive(encode_utf8(a));
    if text_before(a, b) && text_before(b, a) {
        lemma_bytes_transitive(encode_utf8(a), encode_utf8(b), encode_utf8(a));
    }
    if !text_before(a, b) && !text_before(b, a) {
        lemma_text_total(a, b);
    }
}

/// The order of texts is transitive.
pub proof fn lemma_text_transitive(a: Seq<char>, b: Seq<char>, c: Seq<char>)
    requires
        text_before(a, b),
        text_before(b, c),
    ensures
        text_before(a, c),
{
    lemma_bytes_transitive(encode_utf8(a), encode_utf8(b), encode_utf8(c));
}

} // verus!
