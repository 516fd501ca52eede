use stt_stream::events::OutputItem;
use stt_stream::render::{permille_str, render_item, time_field, u64_dec};

#[test]
fn decimal_rendering() {
    assert_eq!(u64_dec(0), "0");
    assert_eq!(u64_dec(7), "7");
    assert_eq!(u64_dec(10), "10");
    assert_eq!(u64_dec(1000), "1000");
    assert_eq!(u64_dec(987654), "987654");
}

#[test]
fn time_fields_are_five_wide_with_two_decimals() {
    assert_eq!(time_field(0), " 0.00");
    assert_eq!(time_field(40), " 0.40");
    assert_eq!(time_field(105), " 1.05");
    assert_eq!(time_field(999), " 9.99");
    assert_eq!(time_field(1000), "10.00");
    assert_eq!(time_field(1234), "12.34");
    assert_eq!(time_field(123456), "1234.56");
}

#[test]
fn permille_renders_like_the_decimal_fraction() {
    assert_eq!(permille_str(0), "0");
    assert_eq!(permille_str(1000), "1");
    assert_eq!(permille_str(600), "0.6");
    assert_eq!(permille_str(250), "0.25");
    assert_eq!(permille_str(70), "0.07");
    assert_eq!(permille_str(507), "0.507");
    assert_eq!(permille_str(5), "0.005");
}

#[test]
fn open_ended_span_renders_with_blank_stop_edge() {
    let item = OutputItem::TimedWord {
        text: "tail".to_string(),
        start_centis: 62,
        stop_centis: None,
    };
    assert_eq!(render_item(&item, true), "[ 0.62-     ] tail\n");
}

#[test]
fn closed_span_renders_both_edges() {
    let item = OutputItem::TimedWord {
        text: "mid".to_string(),
        start_centis: 1250,
        stop_centis: Some(1300),
    };
    assert_eq!(render_item(&item, true), "[12.50-13.00] mid\n");
}

#[test]
fn plain_word_is_space_prefixed() {
    let item = OutputItem::PlainWord { text: "word".to_string() };
    assert_eq!(render_item(&item, false), " word");
}
