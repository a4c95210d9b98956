//! Byte and character helpers shared by the terminal protocol code.
use vstd::prelude::*;

verus! {

broadcast use vstd::string::group_string_axioms;

/// Appends one character, as `String::push` does: the text grows by exactly that character.
pub assume_specification[ String::push ](string: &mut String, ch: char)
    ensures
        final(string)@ == old(string)@.push(ch),
;

/// The UTF-8 text of `bytes`, or nothing when they are not UTF-8, as `std::str::from_utf8`
/// reports it.
#[verifier::external_body]
pub(crate) fn utf8_text(bytes: &[u8]) -> (text: Option<&str>)
    ensures
        text is Some <==> vstd::utf8::valid_utf8(bytes@),
        text matches Some(text) ==> vstd::utf8::encode_utf8(text@) == bytes@,
{
    std::str::from_utf8(bytes).ok()
}

/// A text in quotes, with what cannot be printed escaped, as the debug formatting of `str` writes
/// it.
pub uninterp spec fn quoted_text(value: Seq<char>) -> Seq<char>;

/// Writes a text in quotes with the debug formatting of `str`, which [`quoted_text`] names.
#[verifier::external_body]
pub(crate) fn quoted(value: &str) -> (text: String)
    ensures
        text@ == quoted_text(value@),
{
    format!("{value:?}")
}

/// Whether `part` stands in `whole` at `index`.
pub open spec fn occurs_at<T>(whole: Seq<T>, part: Seq<T>, index: int) -> bool {
    &&& 0 <= index
    &&& index + part.len() <= whole.len()
    &&& whole.subrange(index, index + part.len()) == part
}

/// Whether `part` stands anywhere in `whole`.
pub open spec fn occurs<T>(whole: Seq<T>, part: Seq<T>) -> bool {
    exists|index: int| occurs_at(whole, part, index)
}

/// Compares two byte strings.
pub fn same_bytes(left: &[u8], right: &[u8]) -> (same: bool)
    ensures
        same == (left@ == right@),
{
    if left.len() != right.len() {
        return false;
    }
    let mut index: usize = 0;
    while index < left.len()
        invariant
            index <= left.len(),
            left.len() == right.len(),
            forall|i: int| 0 <= i < index ==> left@[i] == right@[i],
        decreases left.len() - index,
    {
        if left[index] != right[index] {
            return false;
        }
        index += 1;
    }
    assert(left@ =~= right@);
    true
}

/// Equal encodings belong to equal texts.
pub proof fn lemma_same_encoding(left: Seq<char>, right: Seq<char>)
    ensures
        vstd::utf8::encode_utf8(left) == vstd::utf8::encode_utf8(right) <==> left == right,
{
    vstd::utf8::encode_utf8_decode_utf8(left);
    vstd::utf8::encode_utf8_decode_utf8(right);
}

/// Compares two texts.
pub fn same_text(left: &str, right: &str) -> (same: bool)
    ensures
        same == (left@ == right@),
{
    proof {
        lemma_same_encoding(left@, right@);
    }
    same_bytes(left.as_bytes(), right.as_bytes())
}

/// Whether `part` stands in `bytes` at `index`.
pub fn bytes_at(bytes: &[u8], index: usize, part: &[u8]) -> (found: bool)
    requires
        index <= bytes@.len(),
    ensures
        found == occurs_at(bytes@, part@, index as int),
{
    if bytes.len() - index < part.len() {
        return false;
    }
    same_bytes(vstd::slice::slice_subrange(bytes, index, index + part.len()), part)
}

/// Whether `part` stands anywhere in `bytes`.
pub fn bytes_contain(bytes: &[u8], part: &[u8]) -> (found: bool)
    ensures
        found == occurs(bytes@, part@),
{
    let mut index: usize = 0;
    while index < bytes.len()
        invariant
            index <= bytes@.len(),
            forall|i: int| 0 <= i < index ==> !occurs_at(bytes@, part@, i),
        decreases bytes@.len() - index,
    {
        if bytes_at(bytes, index, part) {
            return true;
        }
        index += 1;
    }
    bytes_at(bytes, index, part)
}

/// Appends `more` to `bytes`.
pub fn append_bytes(bytes: &mut Vec<u8>, more: &[u8])
    ensures
        final(bytes)@ == old(bytes)@ + more@,
{
    bytes.extend_from_slice(more);
    assert(bytes@ =~= old(bytes)@ + more@);
}

/// Appends the encoding of `more` to `bytes`.
pub fn append_text(bytes: &mut Vec<u8>, more: &str)
    ensures
        final(bytes)@ == old(bytes)@ + vstd::utf8::encode_utf8(more@),
{
    append_bytes(bytes, more.as_bytes());
}

/// The digit character that stands for `value`, in base ten or sixteen.
pub open spec fn digit_char(value: nat) -> char {
    if value < 10 {
        (48 + value) as u8 as char
    } else {
        (87 + value) as u8 as char
    }
}

/// `value` written in base ten without leading zeros.
pub open spec fn decimal_text(value: nat) -> Seq<char>
    decreases value,
{
    if value < 10 {
        seq![digit_char(value)]
    } else {
        decimal_text(value / 10).push(digit_char(value % 10))
    }
}

/// The digit character of `value`, in lower case.
pub fn digit(value: u8) -> (ch: char)
    requires
        value < 16,
    ensures
        ch == digit_char(value as nat),
{
    if value < 10 {
        (48 + value) as char
    } else {
        (87 + value) as char
    }
}

/// Writes `value` in base ten.
pub fn decimal(value: u64) -> (text: String)
    ensures
        text@ == decimal_text(value as nat),
    decreases value,
{
    if value < 10 {
        let mut text = String::new();
        text.push(digit(value as u8));
        assert(text@ =~= decimal_text(value as nat));
        text
    } else {
        let mut text = decimal(value / 10);
        text.push(digit((value % 10) as u8));
        text
    }
}

/// Whether `ch` is an ASCII decimal digit.
pub open spec fn is_digit(ch: char) -> bool {
    '0' <= ch <= '9'
}

/// The number that a run of decimal digits stands for.
pub open spec fn digits_value(digits: Seq<char>) -> nat
    decreases digits.len(),
{
    if digits.len() == 0 {
        0
    } else {
        digits_value(digits.drop_last()) * 10 + (digits.last() as nat - 48) as nat
    }
}

/// The digits of an unsigned number: what is left after an optional plus sign.
pub open spec fn unsigned_digits(text: Seq<char>) -> Seq<char> {
    if text.len() > 0 && text[0] == '+' {
        text.drop_first()
    } else {
        text
    }
}

/// The value of an unsigned decimal number, if `text` is one: an optional plus sign followed by
/// at least one digit.
pub open spec fn unsigned_value(text: Seq<char>) -> Option<nat> {
    let digits = unsigned_digits(text);
    if digits.len() > 0 && (forall|i: int| 0 <= i < digits.len() ==> is_digit(#[trigger] digits[i])) {
        Some(digits_value(digits))
    } else {
        None
    }
}

proof fn lemma_digits_value_grows(digits: Seq<char>, count: int)
    requires
        0 <= count <= digits.len(),
    ensures
        digits_value(digits.take(count)) <= digits_value(digits),
    decreases digits.len() - count,
{
    if count < digits.len() {
        let next = digits.take(count + 1);
        assert(next.drop_last() =~= digits.take(count));
        lemma_digits_value_grows(digits, count + 1);
    } else {
        assert(digits.take(count) =~= digits);
    }
}

proof fn lemma_decimal_digits(value: nat)
    ensures
        decimal_text(value).len() > 0,
        forall|i: int| 0 <= i < decimal_text(value).len() ==> is_digit(#[trigger] decimal_text(value)[i]),
        digits_value(decimal_text(value)) == value,
    decreases value,
{
    if value >= 10 {
        lemma_decimal_digits(value / 10);
        assert(decimal_text(value).drop_last() =~= decimal_text(value / 10));
    } else {
        assert(decimal_text(value).drop_last() =~= Seq::<char>::empty());
        assert(digits_value(decimal_text(value).drop_last()) == 0);
        assert(digits_value(decimal_text(value)) == value);
    }
}

/// Reading a written number gives it back.
pub proof fn lemma_decimal_round_trip(value: nat)
    ensures
        unsigned_value(decimal_text(value)) == Some(value),
{
    lemma_decimal_digits(value);
    assert(is_digit(decimal_text(value)[0]));
}

/// Reads an unsigned decimal number of at most `max`, as `str::parse` reads an unsigned integer
/// type whose largest value is `max`.
pub fn parse_unsigned(text: &[char], max: u64) -> (value: Option<u64>)
    ensures
        value matches Some(value) ==> unsigned_value(text@) == Some(value as nat) && value <= max,
        value is None ==> unsigned_value(text@) is None || unsigned_value(text@)->0 > max,
{
    let start: usize = if text.len() > 0 && text[0] == '+' { 1 } else { 0 };
    let ghost digits = unsigned_digits(text@);
    assert(digits =~= text@.subrange(start as int, text@.len() as int));
    if start == text.len() {
        return None;
    }
    let mut index: usize = start;
    let mut value: u64 = 0;
    while index < text.len()
        invariant
            start <= index <= text@.len(),
            start < text@.len(),
            digits == text@.subrange(start as int, text@.len() as int),
            digits == unsigned_digits(text@),
            value == digits_value(digits.take(index - start)),
            value <= max,
            forall|i: int| 0 <= i < index - start ==> is_digit(#[trigger] digits[i]),
        decreases text@.len() - index,
    {
        let ch = text[index];
        assert(ch == digits[index - start]);
        if !(ch >= '0' && ch <= '9') {
            return None;
        }
        let step: u64 = (ch as u64) - 48;
        let ghost next = digits.take(index - start + 1);
        assert(next.drop_last() =~= digits.take(index - start));
        assert(digits_value(next) == value * 10 + step);
        if value > max / 10 || step > max - value * 10 {
            proof {
                lemma_digits_value_grows(digits, index - start + 1);
            }
            return None;
        }
        value = value * 10 + step;
        index += 1;
    }
    assert(digits.take(index - start) =~= digits);
    Some(value)
}

/// The characters of `text` in order.
pub fn chars_of(text: &str) -> (chars: Vec<char>)
    ensures
        chars@ == text@,
{
    let mut chars: Vec<char> = Vec::new();
    let mut iter = text.chars();
    loop
        invariant
            vstd::std_specs::iter::IteratorSpec::obeys_prophetic_iter_laws(&iter),
            vstd::std_specs::iter::IteratorSpec::decrease(&iter) is Some,
            chars@ + vstd::std_specs::iter::IteratorSpec::remaining(&iter) == text@,
        ensures
            chars@ == text@,
        decreases vstd::std_specs::iter::IteratorSpec::decrease(&iter)->0,
    {
        match iter.next() {
            Some(ch) => {
                chars.push(ch);
                assert(chars@ + vstd::std_specs::iter::IteratorSpec::remaining(&iter) =~= text@);
            },
            None => {
                assert(chars@ =~= text@);
                break;
            },
        }
    }
    chars
}

/// The text of `chars`.
pub fn text_of(chars: &[char]) -> (text: String)
    ensures
        text@ == chars@,
{
    let mut text = String::new();
    let mut index: usize = 0;
    while index < chars.len()
        invariant
            index <= chars@.len(),
            text@ == chars@.take(index as int),
        decreases chars@.len() - index,
    {
        text.push(chars[index]);
        index += 1;
        assert(text@ =~= chars@.take(index as int));
    }
    assert(chars@.take(index as int) =~= chars@);
    text
}

/// Compares two runs of characters.
pub fn same_chars(left: &[char], right: &[char]) -> (same: bool)
    ensures
        same == (left@ == right@),
{
    if left.len() != right.len() {
        return false;
    }
    let mut index: usize = 0;
    while index < left.len()
        invariant
            index <= left.len(),
            left.len() == right.len(),
            forall|i: int| 0 <= i < index ==> left@[i] == right@[i],
        decreases left.len() - index,
    {
        if left[index] != right[index] {
            return false;
        }
        index += 1;
    }
    assert(left@ =~= right@);
    true
}

/// Whether `chars` spell `literal`.
pub fn spells(chars: &[char], literal: &str) -> (same: bool)
    ensures
        same == (chars@ == literal@),
{
    let expected = chars_of(literal);
    same_chars(chars, expected.as_slice())
}

/// Whether `part` stands anywhere in `whole`.
pub fn text_contains(whole: &str, part: &str) -> (found: bool)
    ensures
        found == occurs(whole@, part@),
{
    let whole_chars = chars_of(whole);
    let part_chars = chars_of(part);
    if part_chars.len() > whole_chars.len() {
        assert forall|index: int| !occurs_at(whole@, part@, index) by {}
        return false;
    }
    let last: usize = whole_chars.len() - part_chars.len();
    let mut index: usize = 0;
    while index < last
        invariant
            index <= last,
            last + part_chars.len() == whole_chars.len(),
            whole_chars@ == whole@,
            part_chars@ == part@,
            forall|i: int| 0 <= i < index ==> !occurs_at(whole@, part@, i),
        decreases last - index,
    {
        let window = vstd::slice::slice_subrange(
            whole_chars.as_slice(),
            index,
            index + part_chars.len(),
        );
        if same_chars(window, part_chars.as_slice()) {
            assert(occurs_at(whole@, part@, index as int));
            return true;
        }
        index += 1;
    }
    let window = vstd::slice::slice_subrange(
        whole_chars.as_slice(),
        index,
        index + part_chars.len(),
    );
    let found = same_chars(window, part_chars.as_slice());
    if found {
        assert(occurs_at(whole@, part@, index as int));
    } else {
        assert forall|i: int| !occurs_at(whole@, part@, i) by {}
    }
    found
}

/// The fields of `text` between occurrences of `separator`. There is always at least one field.
pub open spec fn split(text: Seq<char>, separator: char) -> Seq<Seq<char>>
    decreases text.len(),
{
    if text.len() == 0 {
        seq![Seq::<char>::empty()]
    } else {
        let before = split(text.drop_last(), separator);
        if text.last() == separator {
            before.push(Seq::<char>::empty())
        } else {
            before.drop_last().push(before.last().push(text.last()))
        }
    }
}

proof fn lemma_split_holds_a_field(text: Seq<char>, separator: char)
    ensures
        split(text, separator).len() > 0,
    decreases text.len(),
{
    if text.len() > 0 {
        lemma_split_holds_a_field(text.drop_last(), separator);
    }
}

/// A text without the separator is one field.
pub proof fn lemma_split_one(text: Seq<char>, separator: char)
    requires
        !text.contains(separator),
    ensures
        split(text, separator) == seq![text],
    decreases text.len(),
{
    if text.len() > 0 {
        let front = text.drop_last();
        assert forall|i: int| 0 <= i < front.len() implies front[i] != separator by {
            assert(text[i] == front[i]);
        }
        assert(text[text.len() - 1] == text.last());
        lemma_split_one(front, separator);
        assert(front.push(text.last()) =~= text);
        assert(seq![front].drop_last().push(text) =~= seq![text]);
    } else {
        assert(text =~= Seq::<char>::empty());
    }
}

/// The first field ends at the first separator, and the rest is split on its own.
pub proof fn lemma_split_first(first: Seq<char>, separator: char, rest: Seq<char>)
    requires
        !first.contains(separator),
    ensures
        split(first.push(separator) + rest, separator) == seq![first] + split(rest, separator),
    decreases rest.len(),
{
    let text = first.push(separator) + rest;
    lemma_split_one(first, separator);
    if rest.len() == 0 {
        assert(text =~= first.push(separator));
        assert(text.drop_last() =~= first);
        assert(seq![first].push(Seq::<char>::empty()) =~= seq![first] + split(rest, separator));
    } else {
        lemma_split_first(first, separator, rest.drop_last());
        lemma_split_holds_a_field(rest.drop_last(), separator);
        assert(text.drop_last() =~= first.push(separator) + rest.drop_last());
        assert(text.last() == rest.last());
        let before = split(rest.drop_last(), separator);
        assert((seq![first] + before).last() == before.last());
        assert(split(text, separator) =~= seq![first] + split(rest, separator));
    }
}

/// The contents of each of `fields`.
pub open spec fn field_views(fields: Seq<Vec<char>>) -> Seq<Seq<char>> {
    Seq::new(fields.len(), |i: int| fields[i]@)
}

/// Splits `text` at each `separator`.
pub fn split_fields(text: &[char], separator: char) -> (fields: Vec<Vec<char>>)
    ensures
        field_views(fields@) == split(text@, separator),
        fields@.len() > 0,
{
    let mut fields: Vec<Vec<char>> = Vec::new();
    let mut current: Vec<char> = Vec::new();
    let mut index: usize = 0;
    assert(field_views(fields@).push(current@) =~= split(text@.take(0), separator));
    while index < text.len()
        invariant
            index <= text@.len(),
            field_views(fields@).push(current@) == split(text@.take(index as int), separator),
        decreases text@.len() - index,
    {
        let ch = text[index];
        let ghost before = field_views(fields@);
        let ghost held = current@;
        assert(text@.take(index + 1).drop_last() =~= text@.take(index as int));
        if ch == separator {
            fields.push(current);
            current = Vec::new();
            assert(field_views(fields@) =~= before.push(held));
        } else {
            current.push(ch);
            assert(before.push(held).drop_last() =~= before);
        }
        index += 1;
    }
    assert(text@.take(index as int) =~= text@);
    let ghost before = field_views(fields@);
    let ghost held = current@;
    fields.push(current);
    assert(field_views(fields@) =~= before.push(held));
    fields
}

/// Encoding a joined text joins the encodings.
pub proof fn lemma_encode_concat(left: Seq<char>, right: Seq<char>)
    ensures
        vstd::utf8::encode_utf8(left + right) == vstd::utf8::encode_utf8(left) + vstd::utf8::encode_utf8(right),
    decreases left.len(),
{
    if left.len() == 0 {
        assert(left + right =~= right);
        assert(vstd::utf8::encode_utf8(left) + vstd::utf8::encode_utf8(right) =~= vstd::utf8::encode_utf8(right));
    } else {
        let tail = left.drop_first();
        lemma_encode_concat(tail, right);
        assert((left + right).drop_first() =~= tail + right);
        assert(vstd::utf8::encode_utf8(left + right) =~= vstd::utf8::encode_utf8(left) + vstd::utf8::encode_utf8(right));
    }
}

/// What each of these texts says.
pub open spec fn views(texts: Seq<String>) -> Seq<Seq<char>> {
    texts.map_values(|text: String| text@)
}

/// Copies a list of texts.
pub fn copy_texts(texts: &[String]) -> (copy: Vec<String>)
    ensures
        views(copy@) == views(texts@),
{
    let mut copy: Vec<String> = Vec::new();
    append_texts(&mut copy, texts);
    assert(views(copy@) =~= views(texts@));
    copy
}

/// Appends copies of `more`.
pub fn append_texts(texts: &mut Vec<String>, more: &[String])
    ensures
        views(final(texts)@) == views(old(texts)@) + views(more@),
{
    let mut index: usize = 0;
    while index < more.len()
        invariant
            index <= more@.len(),
            views(texts@) =~= views(old(texts)@) + views(more@).take(index as int),
        decreases more@.len() - index,
    {
        push_text(texts, more[index].as_str());
        index += 1;
    }
    assert(views(more@).take(index as int) =~= views(more@));
}

/// Appends a copy of `more`.
pub fn push_text(texts: &mut Vec<String>, more: &str)
    ensures
        views(final(texts)@) == views(old(texts)@).push(more@),
{
    texts.push(more.to_owned());
    assert(views(texts@) =~= views(old(texts)@).push(more@));
}

/// `value` in base sixteen, in so many digits.
pub open spec fn hex_text(value: nat, digits: nat) -> Seq<char>
    decreases digits,
{
    if digits == 0 {
        Seq::empty()
    } else {
        hex_text(value / 16, (digits - 1) as nat).push(digit_char(value % 16))
    }
}

/// Writes `value` in base sixteen, in so many digits.
pub fn hexadecimal(value: u64, digits: usize) -> (text: String)
    ensures
        text@ == hex_text(value as nat, digits as nat),
    decreases digits,
{
    if digits == 0 {
        let text = String::new();
        assert(text@ =~= hex_text(value as nat, 0));
        return text;
    }
    let mut text = hexadecimal(value / 16, digits - 1);
    text.push(digit((value % 16) as u8));
    text
}

/// Whether the bytes `left` come before `right` or are the same, in dictionary order.
pub open spec fn bytes_up_to(left: Seq<u8>, right: Seq<u8>) -> bool
    decreases left.len(),
{
    if left.len() == 0 {
        true
    } else if right.len() == 0 {
        false
    } else if left[0] != right[0] {
        left[0] < right[0]
    } else {
        bytes_up_to(left.skip(1), right.skip(1))
    }
}

/// Whether the text `left` comes before `right` or is the same, in dictionary order of the bytes.
pub open spec fn up_to(left: Seq<char>, right: Seq<char>) -> bool {
    bytes_up_to(vstd::utf8::encode_utf8(left), vstd::utf8::encode_utf8(right))
}

/// Compares two texts in dictionary order of their bytes.
pub fn is_up_to(left: &str, right: &str) -> (result: bool)
    ensures
        result == up_to(left@, right@),
{
    let left_bytes = left.as_bytes();
    let right_bytes = right.as_bytes();
    let mut index: usize = 0;
    assert(left_bytes@.skip(0) =~= left_bytes@);
    assert(right_bytes@.skip(0) =~= right_bytes@);
    while index < left_bytes.len() && index < right_bytes.len()
        invariant
            left_bytes@ == vstd::utf8::encode_utf8(left@),
            right_bytes@ == vstd::utf8::encode_utf8(right@),
            index <= left_bytes@.len(),
            index <= right_bytes@.len(),
            bytes_up_to(left_bytes@, right_bytes@) == bytes_up_to(
                left_bytes@.skip(index as int),
                right_bytes@.skip(index as int),
            ),
        decreases left_bytes@.len() - index,
    {
        if left_bytes[index] != right_bytes[index] {
            return left_bytes[index] < right_bytes[index];
        }
        assert(left_bytes@.skip(index as int).skip(1) =~= left_bytes@.skip(index + 1));
        assert(right_bytes@.skip(index as int).skip(1) =~= right_bytes@.skip(index + 1));
        index += 1;
    }
    index >= left_bytes.len()
}

/// Of two texts, one comes before the other.
pub proof fn lemma_order_is_total(left: Seq<char>, right: Seq<char>)
    ensures
        up_to(left, right) || up_to(right, left),
{
    lemma_bytes_total(vstd::utf8::encode_utf8(left), vstd::utf8::encode_utf8(right));
}

proof fn lemma_bytes_total(left: Seq<u8>, right: Seq<u8>)
    ensures
        bytes_up_to(left, right) || bytes_up_to(right, left),
    decreases left.len(),
{
    if left.len() > 0 && right.len() > 0 && left[0] == right[0] {
        lemma_bytes_total(left.skip(1), right.skip(1));
    }
}

/// The order of texts carries over.
pub proof fn lemma_order_is_transitive(first: Seq<char>, second: Seq<char>, third: Seq<char>)
    requires
        up_to(first, second),
        up_to(second, third),
    ensures
        up_to(first, third),
{
    lemma_bytes_transitive(
        vstd::utf8::encode_utf8(first),
        vstd::utf8::encode_utf8(second),
        vstd::utf8::encode_utf8(third),
    );
}

proof fn lemma_bytes_transitive(first: Seq<u8>, second: Seq<u8>, third: Seq<u8>)
    requires
        bytes_up_to(first, second),
        bytes_up_to(second, third),
    ensures
        bytes_up_to(first, third),
    decreases first.len(),
{
    if first.len() > 0 && second.len() > 0 && third.len() > 0 && first[0] == second[0] && second[0]
        == third[0] {
        lemma_bytes_transitive(first.skip(1), second.skip(1), third.skip(1));
    }
}

/// A part occurs in a whole exactly if the whole is something, then the part, then something.
pub proof fn lemma_occurs_is_containment<T>(whole: Seq<T>, part: Seq<T>)
    ensures
        occurs(whole, part) <==> exists|before: Seq<T>, after: Seq<T>|
            whole == #[trigger] (before + part + after),
{
    if occurs(whole, part) {
        let index = choose|index: int| occurs_at(whole, part, index);
        let before = whole.take(index);
        let after = whole.skip(index + part.len());
        assert forall|i: int| 0 <= i < part.len() implies part[i] == whole[index + i] by {
            assert(part[i] == whole.subrange(index, index + part.len())[i]);
        }
        assert(whole =~= before + part + after);
    }
    if exists|before: Seq<T>, after: Seq<T>| whole == #[trigger] (before + part + after) {
        let (before, after) = choose|before: Seq<T>, after: Seq<T>|
            whole == #[trigger] (before + part + after);
        assert(whole.subrange(before.len() as int, (before.len() + part.len()) as int) =~= part);
        assert(occurs_at(whole, part, before.len() as int));
    }
}

/// Texts are ordered as in a dictionary: by the first byte in which they differ, and a text comes
/// before what it is the beginning of, but not after anything that is longer.
pub proof fn lemma_order_is_that_of_a_dictionary(
    common: Seq<u8>,
    left: u8,
    left_rest: Seq<u8>,
    right: u8,
    right_rest: Seq<u8>,
)
    ensures
        bytes_up_to(common, common),
        bytes_up_to(common, common.push(right) + right_rest),
        !bytes_up_to(common.push(left) + left_rest, common),
        left < right ==> bytes_up_to(common.push(left) + left_rest, common.push(right) + right_rest),
        left > right ==> !bytes_up_to(
            common.push(left) + left_rest,
            common.push(right) + right_rest,
        ),
    decreases common.len(),
{
    if common.len() > 0 {
        let rest = common.skip(1);
        lemma_order_is_that_of_a_dictionary(rest, left, left_rest, right, right_rest);
        assert((common.push(left) + left_rest).skip(1) =~= rest.push(left) + left_rest);
        assert((common.push(right) + right_rest).skip(1) =~= rest.push(right) + right_rest);
    } else {
        assert(common =~= Seq::<u8>::empty());
    }
}

/// A number in base sixteen has as many digits as asked for, each a digit of that base, and is the
/// number as far as it fits.
pub proof fn lemma_hexadecimal_digits(value: nat, digits: nat, index: int)
    requires
        0 <= index < digits,
    ensures
        hex_text(value, digits).len() == digits,
        ({
            let ch = hex_text(value, digits)[index];
            '0' <= ch <= '9' || 'a' <= ch <= 'f'
        }),
        ({
            let last = hex_text(value, digits)[digits - 1];
            value % 16 == if last <= '9' {
                last as int - '0' as int
            } else {
                last as int - 'a' as int + 10
            }
        }),
        index < digits - 1 ==> hex_text(value, digits)[index] == hex_text(
            value / 16,
            (digits - 1) as nat,
        )[index],
    decreases digits,
{
    reveal_with_fuel(hex_text, 2);
    if index < digits - 1 {
        lemma_hexadecimal_digits(value / 16, (digits - 1) as nat, index);
    } else if digits > 1 {
        lemma_hexadecimal_digits(value / 16, (digits - 1) as nat, 0);
    }
}

/// What stands behind the last separator is the last field.
pub proof fn lemma_split_last(text: Seq<char>, separator: char, last: Seq<char>)
    requires
        !last.contains(separator),
    ensures
        split(text.push(separator) + last, separator) == split(text, separator).push(last),
    decreases last.len(),
{
    let whole = text.push(separator) + last;
    if last.len() == 0 {
        assert(whole =~= text.push(separator));
        assert(whole.drop_last() =~= text);
        assert(last =~= Seq::<char>::empty());
    } else {
        let front = last.drop_last();
        assert forall|i: int| 0 <= i < front.len() implies front[i] != separator by {
            assert(last[i] == front[i]);
        }
        assert(last[last.len() - 1] != separator);
        lemma_split_last(text, separator, front);
        assert(whole.drop_last() =~= text.push(separator) + front);
        assert(front.push(last.last()) =~= last);
        assert(split(whole, separator) =~= split(text, separator).push(last));
    }
}

/// A text comes before everything that begins with it, and nothing that is longer comes before its
/// own beginning.
pub proof fn lemma_beginnings_come_first(text: Seq<char>, rest: Seq<char>)
    ensures
        up_to(text, text + rest),
        rest.len() > 0 ==> !up_to(text + rest, text),
{
    lemma_encode_concat(text, rest);
    let common = vstd::utf8::encode_utf8(text);
    let more = vstd::utf8::encode_utf8(rest);
    if more.len() > 0 {
        lemma_order_is_that_of_a_dictionary(common, more[0], more.skip(1), more[0], more.skip(1));
        assert(common + more =~= common.push(more[0]) + more.skip(1));
    } else {
        lemma_order_is_that_of_a_dictionary(common, 0, more, 0, more);
        assert(common + more =~= common);
    }
}

} // verus!
