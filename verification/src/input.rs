//! Input events as they are written on a command line, and the bytes they send.
use crate::session::live;
use crate::text;
use vstd::prelude::*;

verus! {

broadcast use vstd::string::group_string_axioms;

/// An input event that there is no key for.
#[derive(Debug)]
pub struct UnsupportedEvent {
    pub event: String,
}

impl UnsupportedEvent {
    /// What the error says.
    pub open spec fn says(&self) -> Seq<char> {
        "unsupported input event "@ + text::quoted_text(self.event@)
            + "; use text:<value>, ctrl-a through ctrl-z, enter, escape, arrows, tab, shift-tab, backspace, delete, home, end, page-up, or page-down"@
    }

    /// Writes out the error.
    pub fn message(&self) -> (message: String)
        ensures
            message@ == self.says(),
    {
        let mut message = "unsupported input event ".to_owned();
        message.append(text::quoted(self.event.as_str()).as_str());
        message.append(
            "; use text:<value>, ctrl-a through ctrl-z, enter, escape, arrows, tab, shift-tab, backspace, delete, home, end, page-up, or page-down",
        );
        message
    }
}

/// Whether `text` begins with `prefix`.
pub open spec fn starts_with(text: Seq<char>, prefix: Seq<char>) -> bool {
    text.len() >= prefix.len() && text.take(prefix.len() as int) == prefix
}

/// The byte that a letter sends together with the control key.
pub open spec fn control_byte(letter: char) -> Option<u8> {
    if 'a' <= letter <= 'z' {
        Some((letter as u8 - 96) as u8)
    } else if 'A' <= letter <= 'Z' {
        Some((letter as u8 - 64) as u8)
    } else {
        None
    }
}

/// The bytes of a key that has a name.
pub open spec fn named_key(event: Seq<char>) -> Option<Seq<u8>> {
    if event == "enter"@ {
        Some(seq![13u8])
    } else if event == "escape"@ || event == "esc"@ {
        Some(seq![27u8])
    } else if event == "up"@ {
        Some(seq![27u8, 91u8, 65u8])
    } else if event == "down"@ {
        Some(seq![27u8, 91u8, 66u8])
    } else if event == "left"@ {
        Some(seq![27u8, 91u8, 68u8])
    } else if event == "right"@ {
        Some(seq![27u8, 91u8, 67u8])
    } else if event == "tab"@ {
        Some(seq![9u8])
    } else if event == "shift-tab"@ {
        Some(seq![27u8, 91u8, 90u8])
    } else if event == "backspace"@ {
        Some(seq![127u8])
    } else if event == "delete"@ {
        Some(seq![27u8, 91u8, 51u8, 126u8])
    } else if event == "home"@ {
        Some(seq![27u8, 91u8, 72u8])
    } else if event == "end"@ {
        Some(seq![27u8, 91u8, 70u8])
    } else if event == "page-up"@ {
        Some(seq![27u8, 91u8, 53u8, 126u8])
    } else if event == "page-down"@ {
        Some(seq![27u8, 91u8, 54u8, 126u8])
    } else {
        None
    }
}

/// The bytes that an event sends: the text after `text:`, a letter with the control key, or a
/// named key.
pub open spec fn event_bytes(event: Seq<char>) -> Option<Seq<u8>> {
    if starts_with(event, "text:"@) {
        Some(vstd::utf8::encode_utf8(event.skip(5)))
    } else if (starts_with(event, "ctrl-"@) || starts_with(event, "ctrl:"@)) && event.len() == 6
        && control_byte(event[5]) is Some {
        Some(seq![control_byte(event[5])->0])
    } else {
        named_key(event)
    }
}

/// The rest of `chars` after `prefix`, where they begin with it.
fn after_prefix<'a>(chars: &'a Vec<char>, prefix: &str) -> (rest: Option<&'a [char]>)
    ensures
        rest is Some <==> starts_with(chars@, prefix@),
        rest matches Some(rest) ==> rest@ == chars@.skip(prefix@.len() as int),
{
    let expected = text::chars_of(prefix);
    let length: usize = expected.len();
    if chars.len() < length {
        return None;
    }
    let head = vstd::slice::slice_subrange(chars.as_slice(), 0, length);
    assert(head@ =~= chars@.take(prefix@.len() as int));
    if !text::same_chars(head, expected.as_slice()) {
        return None;
    }
    let rest = vstd::slice::slice_subrange(chars.as_slice(), length, chars.len());
    assert(rest@ =~= chars@.skip(prefix@.len() as int));
    Some(rest)
}

fn control_key(letter: char) -> (byte: Option<u8>)
    ensures
        byte == control_byte(letter),
{
    if 'a' <= letter && letter <= 'z' {
        Some(letter as u8 - 96)
    } else if 'A' <= letter && letter <= 'Z' {
        Some(letter as u8 - 64)
    } else {
        None
    }
}

fn key_of_name(event: &str) -> (bytes: Option<Vec<u8>>)
    ensures
        bytes is Some <==> named_key(event@) is Some,
        bytes matches Some(bytes) ==> named_key(event@) == Some(bytes@),
{
    let bytes: Vec<u8> = if text::same_text(event, "enter") {
        vec![13u8]
    } else if text::same_text(event, "escape") || text::same_text(event, "esc") {
        vec![27u8]
    } else if text::same_text(event, "up") {
        vec![27u8, 91u8, 65u8]
    } else if text::same_text(event, "down") {
        vec![27u8, 91u8, 66u8]
    } else if text::same_text(event, "left") {
        vec![27u8, 91u8, 68u8]
    } else if text::same_text(event, "right") {
        vec![27u8, 91u8, 67u8]
    } else if text::same_text(event, "tab") {
        vec![9u8]
    } else if text::same_text(event, "shift-tab") {
        vec![27u8, 91u8, 90u8]
    } else if text::same_text(event, "backspace") {
        vec![127u8]
    } else if text::same_text(event, "delete") {
        vec![27u8, 91u8, 51u8, 126u8]
    } else if text::same_text(event, "home") {
        vec![27u8, 91u8, 72u8]
    } else if text::same_text(event, "end") {
        vec![27u8, 91u8, 70u8]
    } else if text::same_text(event, "page-up") {
        vec![27u8, 91u8, 53u8, 126u8]
    } else if text::same_text(event, "page-down") {
        vec![27u8, 91u8, 54u8, 126u8]
    } else {
        return None;
    };
    assert(named_key(event@)->0 =~= bytes@);
    Some(bytes)
}

/// The bytes of the characters `chars`.
fn encoded(chars: &[char]) -> (bytes: Vec<u8>)
    ensures
        bytes@ == vstd::utf8::encode_utf8(chars@),
{
    let text = text::text_of(chars);
    vstd::slice::slice_to_vec(text.as_str().as_bytes())
}

/// The bytes that an event sends.
pub fn input_event(event: &str) -> (result: Result<Vec<u8>, UnsupportedEvent>)
    ensures
        result is Ok <==> event_bytes(event@) is Some,
        result matches Ok(bytes) ==> event_bytes(event@) == Some(bytes@),
        result matches Err(error) ==> error.event@ == event@,
{
    proof {
        reveal_strlit("text:");
        reveal_strlit("ctrl-");
        reveal_strlit("ctrl:");
    }
    let chars = text::chars_of(event);
    if let Some(value) = after_prefix(&chars, "text:") {
        return Ok(encoded(value));
    }
    let key = match after_prefix(&chars, "ctrl-") {
        Some(key) => Some(key),
        None => after_prefix(&chars, "ctrl:"),
    };
    if let Some(key) = key {
        if key.len() == 1 {
            assert(key@[0] == event@[5]);
            if let Some(byte) = control_key(key[0]) {
                let bytes: Vec<u8> = vec![byte];
                assert(bytes@ =~= seq![byte]);
                return Ok(bytes);
            }
        }
    }
    match key_of_name(event) {
        Some(bytes) => Ok(bytes),
        None => Err(UnsupportedEvent { event: event.to_owned() }),
    }
}

/// The first of `events` that there is no key for.
pub open spec fn first_unsupported(events: Seq<Seq<char>>) -> Option<Seq<char>>
    decreases events.len(),
{
    if events.len() == 0 {
        None
    } else {
        match first_unsupported(events.drop_last()) {
            Some(event) => Some(event),
            None => if event_bytes(events.last()) is None {
                Some(events.last())
            } else {
                None
            },
        }
    }
}

/// The bytes that `events` send, one after the other.
pub open spec fn joined_bytes(events: Seq<Seq<char>>) -> Seq<u8>
    decreases events.len(),
{
    if events.len() == 0 {
        Seq::empty()
    } else {
        joined_bytes(events.drop_last()) + event_bytes(events.last())->0
    }
}

proof fn lemma_first_stays_first(events: Seq<Seq<char>>, count: int)
    requires
        0 <= count <= events.len(),
        first_unsupported(events.take(count)) is Some,
    ensures
        first_unsupported(events) == first_unsupported(events.take(count)),
    decreases events.len() - count,
{
    if count < events.len() {
        assert(events.take(count + 1).drop_last() =~= events.take(count));
        lemma_first_stays_first(events, count + 1);
    } else {
        assert(events.take(count) =~= events);
    }
}

/// The bytes that `events` send, one after the other.
pub fn input_bytes(events: &[String]) -> (result: Result<Vec<u8>, UnsupportedEvent>)
    ensures
        result is Ok <==> first_unsupported(text::views(events@)) is None,
        result matches Ok(bytes) ==> bytes@ == joined_bytes(text::views(events@)),
        result matches Err(error) ==> Some(error.event@) == first_unsupported(text::views(events@)),
{
    let ghost views = text::views(events@);
    let mut input: Vec<u8> = Vec::new();
    let mut index: usize = 0;
    assert(views.take(0) =~= Seq::<Seq<char>>::empty());
    while index < events.len()
        invariant
            index <= events@.len(),
            views == text::views(events@),
            first_unsupported(views.take(index as int)) is None,
            input@ == joined_bytes(views.take(index as int)),
        decreases events@.len() - index,
    {
        assert(views.take(index + 1).drop_last() =~= views.take(index as int));
        assert(views.take(index + 1).last() == events@[index as int]@);
        match input_event(events[index].as_str()) {
            Ok(bytes) => text::append_bytes(&mut input, bytes.as_slice()),
            Err(error) => {
                proof {
                    lemma_first_stays_first(views, index + 1);
                }
                return Err(error);
            },
        }
        index += 1;
    }
    assert(views.take(index as int) =~= views);
    Ok(input)
}

/// What each of these bursts holds.
pub open spec fn burst_views(bursts: Seq<Vec<u8>>) -> Seq<Seq<u8>> {
    bursts.map_values(|burst: Vec<u8>| burst@)
}

/// Each character of `text` as a burst of its own.
pub open spec fn character_bursts(text: Seq<char>) -> Seq<Seq<u8>> {
    text.map_values(|ch: char| vstd::utf8::encode_utf8(seq![ch]))
}

/// The bursts that an event is sent in when input is paced: text is split into its characters, a
/// key is never split.
pub open spec fn paced_bursts(event: Seq<char>) -> Seq<Seq<u8>> {
    if starts_with(event, "text:"@) {
        character_bursts(event.skip(5))
    } else {
        seq![event_bytes(event)->0]
    }
}

/// The bursts that `events` are sent in when input is paced.
pub open spec fn all_paced_bursts(events: Seq<Seq<char>>) -> Seq<Seq<u8>>
    decreases events.len(),
{
    if events.len() == 0 {
        Seq::empty()
    } else {
        all_paced_bursts(events.drop_last()) + paced_bursts(events.last())
    }
}

fn push_characters(input: &mut Vec<Vec<u8>>, chars: &[char])
    ensures
        burst_views(final(input)@) == burst_views(old(input)@) + character_bursts(chars@),
{
    let mut index: usize = 0;
    while index < chars.len()
        invariant
            index <= chars@.len(),
            burst_views(input@) =~= burst_views(old(input)@) + character_bursts(chars@).take(
                index as int,
            ),
        decreases chars@.len() - index,
    {
        let ghost held = burst_views(input@);
        let one = vstd::slice::slice_subrange(chars, index, index + 1);
        assert(one@ =~= seq![chars@[index as int]]);
        let burst = encoded(one);
        let ghost last = burst@;
        input.push(burst);
        assert(burst_views(input@) =~= held.push(last));
        assert(character_bursts(chars@).take(index + 1) =~= character_bursts(chars@).take(
            index as int,
        ).push(last));
        index += 1;
    }
    assert(character_bursts(chars@).take(index as int) =~= character_bursts(chars@));
}

/// The bursts that `events` are sent in: all of them in one where input is not paced.
pub fn session_input(events: &[String], paced: bool) -> (result: Result<
    Vec<Vec<u8>>,
    UnsupportedEvent,
>)
    ensures
        result is Ok <==> first_unsupported(text::views(events@)) is None,
        result matches Ok(input) ==> burst_views(input@) == if paced {
            all_paced_bursts(text::views(events@))
        } else {
            seq![joined_bytes(text::views(events@))]
        },
        result matches Err(error) ==> Some(error.event@) == first_unsupported(text::views(events@)),
{
    let ghost views = text::views(events@);
    let mut input: Vec<Vec<u8>> = Vec::new();
    if !paced {
        match input_bytes(events) {
            Ok(bytes) => {
                input.push(bytes);
                assert(burst_views(input@) =~= seq![joined_bytes(views)]);
                return Ok(input);
            },
            Err(error) => {
                return Err(error);
            },
        }
    }
    let mut index: usize = 0;
    assert(views.take(0) =~= Seq::<Seq<char>>::empty());
    assert(burst_views(input@) =~= all_paced_bursts(views.take(0)));
    while index < events.len()
        invariant
            index <= events@.len(),
            views == text::views(events@),
            first_unsupported(views.take(index as int)) is None,
            burst_views(input@) == all_paced_bursts(views.take(index as int)),
        decreases events@.len() - index,
    {
        assert(views.take(index + 1).drop_last() =~= views.take(index as int));
        assert(views.take(index + 1).last() == events@[index as int]@);
        proof {
            reveal_strlit("text:");
        }
        let chars = text::chars_of(events[index].as_str());
        match after_prefix(&chars, "text:") {
            Some(value) => push_characters(&mut input, value),
            None => {
                match input_event(events[index].as_str()) {
                    Ok(bytes) => {
                        let ghost held = burst_views(input@);
                        let ghost last = bytes@;
                        input.push(bytes);
                        assert(burst_views(input@) =~= held + seq![last]);
                    },
                    Err(error) => {
                        proof {
                            lemma_first_stays_first(views, index + 1);
                        }
                        return Err(error);
                    },
                }
            },
        }
        index += 1;
    }
    assert(views.take(index as int) =~= views);
    Ok(input)
}

proof fn lemma_bytes_of_joined(left: Seq<Seq<u8>>, right: Seq<Seq<u8>>)
    ensures
        live::all_bytes(left + right) == live::all_bytes(left) + live::all_bytes(right),
    decreases right.len(),
{
    if right.len() == 0 {
        assert(left + right =~= left);
    } else {
        assert((left + right).drop_last() =~= left + right.drop_last());
        lemma_bytes_of_joined(left, right.drop_last());
        assert(live::all_bytes(left + right) =~= live::all_bytes(left) + live::all_bytes(right));
    }
}

proof fn lemma_characters_make_text(text: Seq<char>)
    ensures
        live::all_bytes(character_bursts(text)) == vstd::utf8::encode_utf8(text),
    decreases text.len(),
{
    if text.len() == 0 {
        assert(text =~= Seq::<char>::empty());
        assert(vstd::utf8::encode_utf8(text) =~= Seq::<u8>::empty());
    } else {
        assert(character_bursts(text).drop_last() =~= character_bursts(text.drop_last()));
        lemma_characters_make_text(text.drop_last());
        text::lemma_encode_concat(text.drop_last(), seq![text.last()]);
        assert(text =~= text.drop_last() + seq![text.last()]);
    }
}

/// Pacing changes when bytes are sent, not which: the bursts together are what is sent at once
/// without pacing.
pub proof fn lemma_pacing_keeps_input(events: Seq<Seq<char>>)
    ensures
        live::all_bytes(all_paced_bursts(events)) == joined_bytes(events),
    decreases events.len(),
{
    if events.len() > 0 {
        lemma_pacing_keeps_input(events.drop_last());
        lemma_bytes_of_joined(all_paced_bursts(events.drop_last()), paced_bursts(events.last()));
        if starts_with(events.last(), "text:"@) {
            lemma_characters_make_text(events.last().skip(5));
        } else {
            let one = seq![event_bytes(events.last())->0];
            assert(one.drop_last() =~= Seq::<Seq<u8>>::empty());
            assert(live::all_bytes(one.drop_last()) =~= Seq::<u8>::empty());
            assert(live::all_bytes(one) =~= one.last());
        }
    }
}

/// A letter with the control key sends one of the first twenty-six control bytes, whatever its
/// case.
pub proof fn lemma_control_bytes(letter: char)
    ensures
        control_byte(letter) matches Some(byte) ==> 1 <= byte <= 26,
        control_byte(letter) is Some <==> 'a' <= letter <= 'z' || 'A' <= letter <= 'Z',
{
}

/// A text event sends its text, and a letter with the control key its place in the alphabet.
pub proof fn lemma_events_send_what_they_say(value: Seq<char>, letter: char)
    ensures
        event_bytes("text:"@ + value) == Some(vstd::utf8::encode_utf8(value)),
        'a' <= letter <= 'z' ==> event_bytes("ctrl-"@.push(letter)) == Some(
            seq![(letter as int - 'a' as int + 1) as u8],
        ) && event_bytes("ctrl:"@.push(letter)) == event_bytes("ctrl-"@.push(letter)),
        'A' <= letter <= 'Z' ==> event_bytes("ctrl-"@.push(letter)) == Some(
            seq![(letter as int - 'A' as int + 1) as u8],
        ) && event_bytes("ctrl:"@.push(letter)) == event_bytes("ctrl-"@.push(letter)),
{
    reveal_strlit("text:");
    reveal_strlit("ctrl-");
    reveal_strlit("ctrl:");
    assert(("text:"@ + value).take(5) =~= "text:"@);
    assert(("text:"@ + value).skip(5) =~= value);
    let dashed = "ctrl-"@.push(letter);
    let colon = "ctrl:"@.push(letter);
    assert(dashed.take(5) =~= "ctrl-"@);
    assert(colon.take(5) =~= "ctrl:"@);
    assert(dashed.take(5)[0] == 'c' && colon.take(5)[0] == 'c' && "text:"@[0] == 't');
}

/// Keys that a terminal names by a sequence send that sequence: an escape, a bracket and the letter
/// or the number of the key.
pub proof fn lemma_named_keys_send_their_sequence()
    ensures
        event_bytes("enter"@) == Some(seq![13u8]),
        event_bytes("tab"@) == Some(seq![9u8]),
        event_bytes("escape"@) == Some(seq![27u8]),
        event_bytes("esc"@) == Some(seq![27u8]),
        event_bytes("backspace"@) == Some(seq![127u8]),
        event_bytes("up"@) == Some(seq![27u8, 91u8, 65u8]),
        event_bytes("down"@) == Some(seq![27u8, 91u8, 66u8]),
        event_bytes("right"@) == Some(seq![27u8, 91u8, 67u8]),
        event_bytes("left"@) == Some(seq![27u8, 91u8, 68u8]),
        event_bytes("end"@) == Some(seq![27u8, 91u8, 70u8]),
        event_bytes("home"@) == Some(seq![27u8, 91u8, 72u8]),
        event_bytes("shift-tab"@) == Some(seq![27u8, 91u8, 90u8]),
        event_bytes("delete"@) == Some(seq![27u8, 91u8, 51u8, 126u8]),
        event_bytes("page-up"@) == Some(seq![27u8, 91u8, 53u8, 126u8]),
        event_bytes("page-down"@) == Some(seq![27u8, 91u8, 54u8, 126u8]),
{
    reveal_strlit("text:");
    reveal_strlit("ctrl-");
    reveal_strlit("ctrl:");
    reveal_strlit("enter");
    reveal_strlit("tab");
    reveal_strlit("escape");
    reveal_strlit("esc");
    reveal_strlit("backspace");
    reveal_strlit("up");
    reveal_strlit("down");
    reveal_strlit("right");
    reveal_strlit("left");
    reveal_strlit("end");
    reveal_strlit("home");
    reveal_strlit("shift-tab");
    reveal_strlit("delete");
    reveal_strlit("page-up");
    reveal_strlit("page-down");
    lemma_first_letters("enter"@);
    lemma_first_letters("tab"@);
    lemma_first_letters("escape"@);
    lemma_first_letters("esc"@);
    lemma_first_letters("backspace"@);
    lemma_first_letters("up"@);
    lemma_first_letters("down"@);
    lemma_first_letters("right"@);
    lemma_first_letters("left"@);
    lemma_first_letters("end"@);
    lemma_first_letters("home"@);
    lemma_first_letters("shift-tab"@);
    lemma_first_letters("delete"@);
    lemma_first_letters("page-up"@);
    lemma_first_letters("page-down"@);
    assert("tab"@[0] == 't' && "esc"@[0] == 'e' && "end"@[0] == 'e');
    assert("esc"@[1] == 's' && "end"@[1] == 'n');
    assert("down"@[0] == 'd' && "left"@[0] == 'l' && "home"@[0] == 'h');
    assert("enter"@[0] == 'e' && "right"@[0] == 'r');
    assert("escape"@[0] == 'e' && "delete"@[0] == 'd');
    assert("backspace"@[0] == 'b' && "shift-tab"@[0] == 's' && "page-down"@[0] == 'p');
}

/// A key whose name begins otherwise is neither a text nor a letter with the control key.
proof fn lemma_first_letters(event: Seq<char>)
    requires
        event.len() > 0,
        event.len() < 5 || (event[0] != 'c' && event[0] != 't'),
    ensures
        !starts_with(event, "text:"@),
        !starts_with(event, "ctrl-"@),
        !starts_with(event, "ctrl:"@),
{
    reveal_strlit("text:");
    reveal_strlit("ctrl-");
    reveal_strlit("ctrl:");
    if event.len() >= 5 {
        assert(event.take(5)[0] == event[0]);
        assert("text:"@[0] == 't' && "ctrl-"@[0] == 'c' && "ctrl:"@[0] == 'c');
    }
}

/// Events are sent one after the other, none twice and none left out.
pub proof fn lemma_events_are_sent_in_order(left: Seq<Seq<char>>, right: Seq<Seq<char>>, event: Seq<char>)
    ensures
        joined_bytes(left + right) == joined_bytes(left) + joined_bytes(right),
        event_bytes(event) matches Some(bytes) ==> joined_bytes(seq![event]) == bytes,
        all_paced_bursts(left + right) == all_paced_bursts(left) + all_paced_bursts(right),
    decreases right.len(),
{
    assert(seq![event].drop_last() =~= Seq::<Seq<char>>::empty());
    assert(joined_bytes(seq![event].drop_last()) =~= Seq::<u8>::empty());
    if event_bytes(event) is Some {
        assert(joined_bytes(seq![event]) =~= event_bytes(event)->0);
    }
    if right.len() == 0 {
        assert(left + right =~= left);
        assert(joined_bytes(left) + joined_bytes(right) =~= joined_bytes(left));
        assert(all_paced_bursts(left) + all_paced_bursts(right) =~= all_paced_bursts(left));
    } else {
        assert((left + right).drop_last() =~= left + right.drop_last());
        lemma_events_are_sent_in_order(left, right.drop_last(), event);
        assert(joined_bytes(left + right) =~= joined_bytes(left) + joined_bytes(right));
        assert(all_paced_bursts(left + right) =~= all_paced_bursts(left) + all_paced_bursts(
            right,
        ));
    }
}

/// Paced, a text is sent one character at a time, and a key is never split.
pub proof fn lemma_pacing_splits_only_text(value: Seq<char>, event: Seq<char>, index: int)
    ensures
        all_paced_bursts(seq!["text:"@ + value]).len() == value.len(),
        0 <= index < value.len() ==> all_paced_bursts(seq!["text:"@ + value])[index]
            == vstd::utf8::encode_utf8(seq![value[index]]),
        event_bytes(event) is Some && event.len() > 0 && event[0] != 't' ==> all_paced_bursts(
            seq![event],
        ) == seq![event_bytes(event)->0],
{
    reveal_strlit("text:");
    let whole = "text:"@ + value;
    assert(whole.take(5) =~= "text:"@);
    assert(whole.skip(5) =~= value);
    assert(seq![whole].drop_last() =~= Seq::<Seq<char>>::empty());
    assert(all_paced_bursts(seq![whole].drop_last()) =~= Seq::<Seq<u8>>::empty());
    assert(all_paced_bursts(seq![whole]) =~= character_bursts(value));
    assert(seq![event].drop_last() =~= Seq::<Seq<char>>::empty());
    if event.len() > 0 && event[0] != 't' {
        if event.len() >= 5 {
            assert(event.take(5)[0] == event[0]);
            assert("text:"@[0] == 't');
        }
        assert(all_paced_bursts(seq![event].drop_last()) =~= Seq::<Seq<u8>>::empty());
        assert(all_paced_bursts(seq![event]) =~= paced_bursts(event));
    }
}

/// Where there is no key for an event, the first such event is named, and only then is input
/// refused.
pub proof fn lemma_first_unsupported_is_named(events: Seq<Seq<char>>)
    ensures
        match first_unsupported(events) {
            Some(event) => exists|i: int|
                0 <= i < events.len() && (#[trigger] events[i]) == event && event_bytes(events[i])
                    is None && forall|j: int| 0 <= j < i ==> event_bytes(#[trigger] events[j])
                    is Some,
            None => forall|i: int|
                0 <= i < events.len() ==> event_bytes(#[trigger] events[i]) is Some,
        },
    decreases events.len(),
{
    if events.len() > 0 {
        let front = events.drop_last();
        lemma_first_unsupported_is_named(front);
        match first_unsupported(front) {
            Some(event) => {
                let i = choose|i: int|
                    0 <= i < front.len() && (#[trigger] front[i]) == event && event_bytes(front[i])
                        is None && forall|j: int|
                        0 <= j < i ==> event_bytes(#[trigger] front[j]) is Some;
                assert(events[i] == front[i]);
                assert forall|j: int| 0 <= j < i implies event_bytes(#[trigger] events[j])
                    is Some by {
                    assert(front[j] == events[j]);
                }
            },
            None => {
                assert(events[events.len() - 1] == events.last());
                assert forall|j: int| 0 <= j < events.len() - 1 implies event_bytes(
                    #[trigger] events[j],
                ) is Some by {
                    assert(front[j] == events[j]);
                }
            },
        }
    }
}

} // verus!
