//! The line protocol of the panel: one chunk of received text is turned
//! into the events it announces. Chunks are decoded independently of one
//! another; a line cut in two by a chunk boundary is not reassembled.

use vstd::prelude::*;
use vstd::slice::slice_subrange;
use crate::text::{
    all_digits, find_first, first_field, first_of, leading_field, measured_value, only_digits,
    parse_measurement, to_chars, to_text, trim, trimmed, CharClass,
};

verus! {

/// What one token of the line protocol announces.
#[derive(Clone, Debug, PartialEq, Eq)]
pub enum DecodedEvent {
    /// The panel's heartbeat.
    StandbyPulse,
    /// Staff cleared the call of the station whose code ends in this digit.
    Acknowledgment { target_last_digit: char },
    /// A station signals, with the analog measurement that came with it.
    Trigger { code: String, adc_value: i32 },
}

/// The mathematical content of a `DecodedEvent`.
pub enum DecodedEventView {
    StandbyPulse,
    Acknowledgment { target_last_digit: char },
    Trigger { code: Seq<char>, adc_value: int },
}

impl View for DecodedEvent {
    type V = DecodedEventView;

    open spec fn view(&self) -> DecodedEventView {
        match self {
            DecodedEvent::StandbyPulse => DecodedEventView::StandbyPulse,
            DecodedEvent::Acknowledgment { target_last_digit } => DecodedEventView::Acknowledgment {
                target_last_digit: *target_last_digit,
            },
            DecodedEvent::Trigger { code, adc_value } => DecodedEventView::Trigger {
                code: code@,
                adc_value: *adc_value as int,
            },
        }
    }
}

/// The views of a run of events, in order.
pub open spec fn event_views(events: Seq<DecodedEvent>) -> Seq<DecodedEventView> {
    events.map_values(|e: DecodedEvent| e@)
}

/// A device code: exactly three decimal digits.
pub open spec fn is_code(s: Seq<char>) -> bool {
    s.len() == 3 && all_digits(s)
}

/// A device code of the reset family, `90` followed by the station digit.
pub open spec fn is_reset_code(s: Seq<char>) -> bool {
    is_code(s) && s[0] == '9' && s[1] == '0'
}

/// The heartbeat mark `99:` stands at position `i` of `s`.
pub open spec fn pulse_at(s: Seq<char>, i: int) -> bool {
    0 <= i && i + 2 < s.len() && s[i] == '9' && s[i + 1] == '9' && s[i + 2] == ':'
}

/// The heartbeat mark occurs somewhere in `s`, token boundaries
/// notwithstanding.
pub open spec fn has_pulse(s: Seq<char>) -> bool {
    exists|i: int| pulse_at(s, i)
}

/// What a single token announces. The token is cut at its first colon
/// into a code and a rest, both trimmed. A reset code with nothing after
/// the colon acknowledges; any code followed by a field of digits (or by
/// nothing) triggers; everything else is noise.
pub open spec fn decode_token(token: Seq<char>) -> Option<DecodedEventView> {
    let colon = first_of(token, CharClass::Colon);
    if colon >= token.len() {
        None
    } else {
        let code = trimmed(token.take(colon));
        let rest = trimmed(token.skip(colon + 1));
        let field = first_field(rest);
        if is_reset_code(code) && rest.len() == 0 {
            Some(DecodedEventView::Acknowledgment { target_last_digit: code[2] })
        } else if is_code(code) && all_digits(field) {
            Some(DecodedEventView::Trigger { code: code, adc_value: measured_value(field) })
        } else {
            None
        }
    }
}

/// The events of a token as a sequence of length zero or one.
pub open spec fn token_events(token: Seq<char>) -> Seq<DecodedEventView> {
    match decode_token(token) {
        Some(e) => seq![e],
        None => Seq::empty(),
    }
}

/// The events announced by the tokens of `s`, where every carriage return
/// and every line feed ends a token.
pub open spec fn decode_lines(s: Seq<char>) -> Seq<DecodedEventView>
    decreases s.len(),
{
    let k = first_of(s, CharClass::LineBreak);
    if 0 <= k < s.len() {
        token_events(s.take(k)) + decode_lines(s.skip(k + 1))
    } else {
        token_events(s)
    }
}

/// Everything a chunk of text announces: one heartbeat if the mark `99:`
/// occurs anywhere in it, then the events of its tokens in order.
pub open spec fn decode(text: Seq<char>) -> Seq<DecodedEventView> {
    if has_pulse(text) {
        seq![DecodedEventView::StandbyPulse] + decode_lines(text)
    } else {
        decode_lines(text)
    }
}

/// Decodes one token.
pub fn decode_one(token: &[char]) -> (r: Option<DecodedEvent>)
    ensures
        r.is_some() == decode_token(token@).is_some(),
        r matches Some(e) ==> e@ == decode_token(token@).unwrap(),
{
    let n = token.len();
    let colon = find_first(token, CharClass::Colon);
    if colon >= n {
        return None;
    }
    let left = slice_subrange(token, 0, colon);
    let right = slice_subrange(token, colon + 1, n);
    assert(left@ =~= token@.take(colon as int));
    assert(right@ =~= token@.skip(colon + 1));
    let code = trim(left);
    let rest = trim(right);
    let code_ok = code.len() == 3 && only_digits(code);
    if code_ok && code[0] == '9' && code[1] == '0' && rest.len() == 0 {
        return Some(DecodedEvent::Acknowledgment { target_last_digit: code[2] });
    }
    let field = leading_field(rest);
    if code_ok && only_digits(field) {
        let adc_value = parse_measurement(field);
        Some(DecodedEvent::Trigger { code: to_text(code), adc_value })
    } else {
        None
    }
}

/// Looks for the heartbeat mark.
pub fn find_pulse(s: &[char]) -> (r: bool)
    ensures
        r == has_pulse(s@),
{
    let n = s.len();
    if n < 3 {
        assert(forall|i: int| !pulse_at(s@, i));
        return false;
    }
    let mut i: usize = 0;
    while i + 2 < n
        invariant
            n == s@.len(),
            i + 2 <= n,
            forall|j: int| 0 <= j < i ==> !pulse_at(s@, j),
        decreases n - i,
    {
        if s[i] == '9' && s[i + 1] == '9' && s[i + 2] == ':' {
            assert(pulse_at(s@, i as int));
            return true;
        }
        i = i + 1;
    }
    assert(forall|j: int| !pulse_at(s@, j));
    false
}

/// Decodes the tokens of `s`.
pub fn decode_tokens(s: &[char]) -> (events: Vec<DecodedEvent>)
    ensures
        event_views(events@) == decode_lines(s@),
{
    let n = s.len();
    let mut events: Vec<DecodedEvent> = Vec::new();
    let mut start: usize = 0;
    let mut more = true;
    assert(s@.skip(0) =~= s@);
    assert(event_views(events@) =~= Seq::empty());
    while more
        invariant
            n == s@.len(),
            start <= n,
            more ==> decode_lines(s@) == event_views(events@) + decode_lines(
                s@.skip(start as int),
            ),
            !more ==> decode_lines(s@) == event_views(events@),
        decreases (if more { 1int } else { 0int }), n - start,
    {
        let tail = slice_subrange(s, start, n);
        assert(tail@ =~= s@.skip(start as int));
        let k = find_first(tail, CharClass::LineBreak);
        let token = slice_subrange(tail, 0, k);
        assert(token@ =~= tail@.take(k as int));
        let ghost before = event_views(events@);
        let found = decode_one(token);
        match found {
            Some(e) => {
                events.push(e);
                assert(event_views(events@) =~= before + token_events(token@));
            },
            None => {
                assert(event_views(events@) =~= before + token_events(token@));
            },
        }
        if k < tail.len() {
            assert(tail@.skip(k + 1) =~= s@.skip(start + k + 1));
            start = start + k + 1;
        } else {
            assert(token@ =~= tail@);
            more = false;
        }
    }
    events
}

/// Decodes one chunk of received text.
pub fn decode_text(text: &str) -> (events: Vec<DecodedEvent>)
    ensures
        event_views(events@) == decode(text@),
{
    let chars = to_chars(text);
    let tokens = decode_tokens(chars.as_slice());
    if find_pulse(chars.as_slice()) {
        let mut events: Vec<DecodedEvent> = Vec::new();
        events.push(DecodedEvent::StandbyPulse);
        let mut tokens = tokens;
        let ghost announced = event_views(tokens@);
        events.append(&mut tokens);
        assert(event_views(events@) =~= seq![DecodedEventView::StandbyPulse] + announced);
        events
    } else {
        tokens
    }
}

/// The text that lossy UTF-8 decoding makes of `bytes`: well-formed
/// sequences give their characters, and each ill-formed one gives the
/// replacement character.
pub uninterp spec fn utf8_lossy(bytes: Seq<u8>) -> Seq<char>;

/// `String::from_utf8_lossy`: the result is a function of the bytes
/// alone, named `utf8_lossy`. Nothing more is claimed of it.
#[verifier::external_body]
pub(crate) fn lossy_text(bytes: &[u8]) -> (text: String)
    ensures
        text@ == utf8_lossy(bytes@),
{
    String::from_utf8_lossy(bytes).into_owned()
}

/// A chunk as it came off the line, read as text, with what it announces.
pub struct Chunk {
    pub text: String,
    pub events: Vec<DecodedEvent>,
}

/// Reads a chunk of received bytes as text and decodes it.
pub fn decode_chunk(bytes: &[u8]) -> (chunk: Chunk)
    ensures
        chunk.text@ == utf8_lossy(bytes@),
        event_views(chunk.events@) == decode(utf8_lossy(bytes@)),
{
    let text = lossy_text(bytes);
    let events = decode_text(text.as_str());
    Chunk { text, events }
}

} // verus!
