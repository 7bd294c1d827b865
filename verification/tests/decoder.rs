use nurse_call_bridge::decoder::{decode_chunk, decode_one, decode_text, find_pulse, DecodedEvent};

fn trigger(code: &str, adc_value: i32) -> DecodedEvent {
    DecodedEvent::Trigger { code: code.to_string(), adc_value }
}

fn ack(digit: char) -> DecodedEvent {
    DecodedEvent::Acknowledgment { target_last_digit: digit }
}

fn chars(s: &str) -> Vec<char> {
    s.chars().collect()
}

#[test]
fn trigger_line_is_decoded() {
    assert_eq!(decode_text("105: 200\r\n"), vec![trigger("105", 200)]);
}

#[test]
fn acknowledgment_line_is_decoded() {
    assert_eq!(decode_text("905:\n"), vec![ack('5')]);
    assert_eq!(decode_text(" 901 :  \r"), vec![ack('1')]);
}

#[test]
fn reset_code_with_a_value_is_a_trigger() {
    assert_eq!(decode_text("905: 200"), vec![trigger("905", 200)]);
}

#[test]
fn heartbeat_is_found_anywhere_and_once() {
    assert_eq!(decode_text("99:"), vec![DecodedEvent::StandbyPulse]);
    assert_eq!(decode_text("99: 0\r\n99: 0\r\n99: 0\r\n"), vec![DecodedEvent::StandbyPulse]);
    assert_eq!(decode_text("xx99:yy"), vec![DecodedEvent::StandbyPulse]);
    assert_eq!(decode_text("99 :"), vec![]);
    assert_eq!(decode_text("9\n9:"), vec![]);
}

#[test]
fn heartbeat_comes_before_the_tokens_of_its_chunk() {
    assert_eq!(
        decode_text("105: 200\n99:\n901:\n"),
        vec![DecodedEvent::StandbyPulse, trigger("105", 200), ack('1')]
    );
}

#[test]
fn heartbeat_inside_a_code_counts_too() {
    assert_eq!(decode_text("199: 80"), vec![DecodedEvent::StandbyPulse, trigger("199", 80)]);
}

#[test]
fn tokens_end_at_carriage_return_and_line_feed() {
    assert_eq!(
        decode_text("101: 80\r102: 90\n103: 100\r\n104: 110"),
        vec![trigger("101", 80), trigger("102", 90), trigger("103", 100), trigger("104", 110)]
    );
}

#[test]
fn token_is_cut_at_its_first_colon() {
    assert_eq!(decode_text("105: 200:300"), vec![]);
    assert_eq!(decode_text("105: 200 :300"), vec![trigger("105", 200)]);
    assert_eq!(decode_text("105:: 200"), vec![]);
}

#[test]
fn only_the_first_field_of_the_rest_counts() {
    assert_eq!(decode_text("105: 200 mV extra"), vec![trigger("105", 200)]);
    assert_eq!(decode_text("105: mV 200"), vec![]);
    assert_eq!(decode_text("105:\t  77\t1"), vec![trigger("105", 77)]);
}

#[test]
fn measurement_that_cannot_be_read_counts_as_zero() {
    assert_eq!(decode_text("105:"), vec![trigger("105", 0)]);
    assert_eq!(decode_text("105: 99999999999"), vec![trigger("105", 0)]);
    assert_eq!(decode_text("105: 2147483647"), vec![trigger("105", 2147483647)]);
    assert_eq!(decode_text("105: 2147483648"), vec![trigger("105", 0)]);
}

#[test]
fn noise_is_ignored() {
    for text in ["", "\r\n", "hello", "105", "105 200", "10: 200", "1050: 200", "10a: 200",
        "105: -200", "105: 2.5", ": 200", "abc: def", "１０５: 200"]
    {
        assert_eq!(decode_text(text), vec![], "{:?}", text);
    }
}

#[test]
fn a_line_cut_by_a_chunk_boundary_is_lost() {
    assert_eq!(decode_text("10"), vec![]);
    assert_eq!(decode_text("5: 200\n"), vec![]);
}

#[test]
fn decode_one_reads_a_single_token() {
    assert_eq!(decode_one(&chars("105: 200")), Some(trigger("105", 200)));
    assert_eq!(decode_one(&chars("909:")), Some(ack('9')));
    assert_eq!(decode_one(&chars("909")), None);
    assert_eq!(decode_one(&chars("")), None);
}

#[test]
fn find_pulse_looks_for_the_mark() {
    assert!(find_pulse(&chars("99:")));
    assert!(find_pulse(&chars("a99:")));
    assert!(!find_pulse(&chars("99")));
    assert!(!find_pulse(&chars("9:9")));
    assert!(!find_pulse(&chars("")));
}

#[test]
fn chunk_bytes_are_read_as_text() {
    let chunk = decode_chunk(b"105: 200\n");
    assert_eq!(chunk.text, "105: 200\n");
    assert_eq!(chunk.events, vec![trigger("105", 200)]);
}

#[test]
fn ill_formed_bytes_become_replacement_characters() {
    let chunk = decode_chunk(&[0x31, 0x30, 0x35, 0x3a, 0x20, 0x38, 0x30, 0xff, 0x0a, 0xc3]);
    assert_eq!(chunk.text, "105: 80\u{fffd}\n\u{fffd}");
    assert_eq!(chunk.events, vec![]);
    let chunk = decode_chunk(&[0xff, 0x0a, 0x39, 0x30, 0x32, 0x3a, 0x0a]);
    assert_eq!(chunk.text, "\u{fffd}\n902:\n");
    assert_eq!(chunk.events, vec![ack('2')]);
}

#[test]
fn blanks_beyond_ascii_are_trimmed() {
    let chunk = decode_chunk("\u{a0}105\u{2003}:\u{3000}200\u{a0}\n".as_bytes());
    assert_eq!(chunk.events, vec![trigger("105", 200)]);
}
