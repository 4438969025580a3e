use osc_bridge::encode::{encode_arg, encode_message, epoch_time_ms};
use osc_bridge::types::{OscColorWrapper, OscMessageWrapper, OscTypeWrapper};

#[test]
fn int32_wire_text() {
    assert_eq!(
        encode_arg(&OscTypeWrapper::Int32(5)),
        "{\"type\":\"i\",\"value\":5}"
    );
    assert_eq!(
        encode_arg(&OscTypeWrapper::Int32(-7)),
        "{\"type\":\"i\",\"value\":-7}"
    );
    assert_eq!(
        encode_arg(&OscTypeWrapper::Int32(i32::MIN)),
        "{\"type\":\"i\",\"value\":-2147483648}"
    );
    assert_eq!(
        encode_arg(&OscTypeWrapper::Int32(i32::MAX)),
        "{\"type\":\"i\",\"value\":2147483647}"
    );
}

#[test]
fn int64_wire_text() {
    assert_eq!(
        encode_arg(&OscTypeWrapper::Int64(0)),
        "{\"type\":\"h\",\"value\":0}"
    );
    assert_eq!(
        encode_arg(&OscTypeWrapper::Int64(i64::MIN)),
        "{\"type\":\"h\",\"value\":-9223372036854775808}"
    );
    assert_eq!(
        encode_arg(&OscTypeWrapper::Int64(i64::MAX)),
        "{\"type\":\"h\",\"value\":9223372036854775807}"
    );
}

#[test]
fn float_wire_text_uses_rendered_number() {
    let rendered = serde_json::to_string(&1.5f32).unwrap();
    let arg = OscTypeWrapper::Float32(rendered);
    assert_eq!(encode_arg(&arg), "{\"type\":\"f\",\"value\":1.5}");

    let rendered64 = serde_json::to_string(&2.25f64).unwrap();
    let arg64 = OscTypeWrapper::Float64(rendered64);
    assert_eq!(encode_arg(&arg64), "{\"type\":\"d\",\"value\":2.25}");
}

#[test]
fn string_wire_text_plain() {
    let arg = OscTypeWrapper::Utf8String(String::from("hello"));
    assert_eq!(encode_arg(&arg), "{\"type\":\"s\",\"value\":\"hello\"}");
}

#[test]
fn string_wire_text_escapes() {
    let arg = OscTypeWrapper::Utf8String(String::from("a\"b\\c\nd\te\rf"));
    assert_eq!(
        encode_arg(&arg),
        "{\"type\":\"s\",\"value\":\"a\\\"b\\\\c\\nd\\te\\rf\"}"
    );
    // Named control escapes for backspace and form feed, \u00.. for the rest,
    // exactly as the JSON serializer under [dependencies] writes them.
    let ctl = OscTypeWrapper::Utf8String(String::from("\u{8}\u{c}\u{1}\u{1f}"));
    let expect = serde_json::to_string("\u{8}\u{c}\u{1}\u{1f}").unwrap();
    assert_eq!(
        encode_arg(&ctl),
        format!("{{\"type\":\"s\",\"value\":{}}}", expect)
    );
    assert_eq!(expect, "\"\\b\\f\\u0001\\u001f\"");
}

#[test]
fn string_wire_text_unicode_verbatim() {
    let arg = OscTypeWrapper::Utf8String(String::from("héllo ☂"));
    assert_eq!(encode_arg(&arg), "{\"type\":\"s\",\"value\":\"héllo ☂\"}");
}

#[test]
fn empty_string_wire_text() {
    let arg = OscTypeWrapper::Utf8String(String::new());
    assert_eq!(encode_arg(&arg), "{\"type\":\"s\",\"value\":\"\"}");
}

#[test]
fn blob_wire_text() {
    let arg = OscTypeWrapper::ByteBlob(vec![0, 1, 255]);
    assert_eq!(encode_arg(&arg), "{\"type\":\"b\",\"value\":[0,1,255]}");
    let empty = OscTypeWrapper::ByteBlob(vec![]);
    assert_eq!(encode_arg(&empty), "{\"type\":\"b\",\"value\":[]}");
}

#[test]
fn char_wire_text() {
    assert_eq!(
        encode_arg(&OscTypeWrapper::Char('x')),
        "{\"type\":\"c\",\"value\":\"x\"}"
    );
    assert_eq!(
        encode_arg(&OscTypeWrapper::Char('"')),
        "{\"type\":\"c\",\"value\":\"\\\"\"}"
    );
}

#[test]
fn color_wire_text() {
    let arg = OscTypeWrapper::Color(OscColorWrapper {
        r: 1,
        g: 2,
        b: 3,
        a: 255,
    });
    assert_eq!(
        encode_arg(&arg),
        "{\"type\":\"r\",\"value\":{\"r\":1,\"g\":2,\"b\":3,\"a\":255}}"
    );
}

#[test]
fn midi_wire_text() {
    let arg = OscTypeWrapper::Midi(0, 144, 60, 127);
    assert_eq!(encode_arg(&arg), "{\"type\":\"m\",\"value\":[0,144,60,127]}");
}

#[test]
fn bare_value_encodings() {
    assert_eq!(encode_arg(&OscTypeWrapper::Bool(true)), "true");
    assert_eq!(encode_arg(&OscTypeWrapper::Bool(false)), "false");
    assert_eq!(encode_arg(&OscTypeWrapper::Nil), "null");
    assert_eq!(encode_arg(&OscTypeWrapper::Infinitum), "1.0");
}

#[test]
fn timestamp_at_unix_epoch_is_zero_ms() {
    assert_eq!(epoch_time_ms(2208988800, 0), 0);
    let arg = OscTypeWrapper::Timestamp(2208988800, 0);
    assert_eq!(
        encode_arg(&arg),
        "{\"rawNTP\":[2208988800,0],\"epochTimeMs\":0}"
    );
}

#[test]
fn timestamp_with_half_second_fraction() {
    assert_eq!(epoch_time_ms(2208988801, 2147483648), 1500);
    let arg = OscTypeWrapper::Timestamp(2208988801, 2147483648);
    assert_eq!(
        encode_arg(&arg),
        "{\"rawNTP\":[2208988801,2147483648],\"epochTimeMs\":1500}"
    );
}

#[test]
fn timestamp_truncates_milliseconds() {
    // frac = 2^32 / 3: one third of a second, 333.33..ms, truncated to 333.
    assert_eq!(epoch_time_ms(2208988800, 1431655765), 333);
}

#[test]
fn timestamp_before_unix_epoch_clamps_to_zero() {
    assert_eq!(epoch_time_ms(0, 0), 0);
    assert_eq!(epoch_time_ms(2208988799, 4294967295), 0);
}

#[test]
fn end_to_end_message_wire_text() {
    let rendered = serde_json::to_string(&1.5f32).unwrap();
    let msg = OscMessageWrapper::new(
        String::from("/x"),
        vec![
            OscTypeWrapper::Int32(5),
            OscTypeWrapper::Bool(true),
            OscTypeWrapper::Array(vec![OscTypeWrapper::Float32(rendered), OscTypeWrapper::Nil]),
        ],
    );
    assert_eq!(
        encode_message(&msg),
        "{\"address\":\"/x\",\"args\":[{\"type\":\"i\",\"value\":5},true,[{\"type\":\"f\",\"value\":1.5},null]]}"
    );
}

#[test]
fn message_with_no_args() {
    let msg = OscMessageWrapper::new(String::from("/empty"), vec![]);
    assert_eq!(encode_message(&msg), "{\"address\":\"/empty\",\"args\":[]}");
}

#[test]
fn message_address_is_escaped() {
    let msg = OscMessageWrapper::new(String::from("/a\"b"), vec![]);
    assert_eq!(encode_message(&msg), "{\"address\":\"/a\\\"b\",\"args\":[]}");
}

#[test]
fn fmt_u64_renders_decimal() {
    assert_eq!(osc_bridge::wire::fmt_u64(0), "0");
    assert_eq!(osc_bridge::wire::fmt_u64(42), "42");
    assert_eq!(osc_bridge::wire::fmt_u64(u64::MAX), "18446744073709551615");
}
