//! The argument encoder and message normalizer: the exact JSON text written
//! for each argument kind, matching the reference codec's field names and its
//! two envelope exceptions (booleans and arrays are bare values), and the
//! NTP-to-Unix timestamp conversion.

use vstd::prelude::*;
use vstd::string::StringExecFns;

use crate::types::{OscMessageWrapper, OscTypeWrapper};
use crate::wire::{
    append_escaped_char, append_i64, append_json_string, append_u64, dec_int, dec_nat, esc_char,
    esc_string, json_string, lemma_dec_int_value, lemma_dec_nat_shape, lemma_unescape_inverts_escaping,
    parse_int, push_char, unescape,
};

verus! {

/// Seconds between the NTP epoch (1900-01-01) and the Unix epoch (1970-01-01).
pub const NTP_UNIX_OFFSET_SECS: u32 = 2208988800;

/// Milliseconds since the Unix epoch for an NTP timestamp of whole seconds
/// and a 1/2^32 fractional part: `((secs - offset) + frac / 2^32) * 1000`,
/// truncated. A timestamp before the Unix epoch clamps to zero.
pub open spec fn epoch_ms(secs: u32, frac: u32) -> nat {
    if secs < NTP_UNIX_OFFSET_SECS {
        0
    } else {
        (secs - NTP_UNIX_OFFSET_SECS) as nat * 1000 + (frac as nat * 1000) / 0x1_0000_0000
    }
}

/// The decimal-rendered body of a JSON array of bytes (no brackets).
pub open spec fn bytes_body(b: Seq<u8>) -> Seq<char>
    decreases b.len(),
{
    if b.len() == 0 {
        Seq::empty()
    } else if b.len() == 1 {
        dec_nat(b[0] as nat)
    } else {
        bytes_body(b.drop_last()) + seq![','] + dec_nat(b.last() as nat)
    }
}

/// The comma-separated encodings of a sequence of arguments (no brackets).
pub open spec fn args_body(s: Seq<OscTypeWrapper>) -> Seq<char>
    decreases s,
{
    if s.len() == 0 {
        Seq::empty()
    } else if s.len() == 1 {
        arg_wire(s[0])
    } else {
        args_body(s.drop_last()) + seq![','] + arg_wire(s.last())
    }
}

/// The wire text of one argument. Every variant but three uses the
/// `{"type":tag,"value":...}` envelope; booleans and arrays are bare JSON
/// values and a timestamp carries its raw NTP pair beside the converted
/// Unix milliseconds, as the reference codec does.
pub open spec fn arg_wire(a: OscTypeWrapper) -> Seq<char>
    decreases a,
{
    match a {
        OscTypeWrapper::Int32(i) => "{\"type\":\"i\",\"value\":"@ + dec_int(i as int) + "}"@,
        OscTypeWrapper::Float32(t) => "{\"type\":\"f\",\"value\":"@ + t@ + "}"@,
        OscTypeWrapper::Utf8String(s) => "{\"type\":\"s\",\"value\":"@ + json_string(s@) + "}"@,
        OscTypeWrapper::ByteBlob(b) => "{\"type\":\"b\",\"value\":["@ + bytes_body(b@) + "]}"@,
        OscTypeWrapper::Timestamp(secs, frac) => "{\"rawNTP\":["@ + dec_nat(secs as nat) + ","@
            + dec_nat(frac as nat) + "],\"epochTimeMs\":"@ + dec_nat(epoch_ms(secs, frac)) + "}"@,
        OscTypeWrapper::Int64(h) => "{\"type\":\"h\",\"value\":"@ + dec_int(h as int) + "}"@,
        OscTypeWrapper::Float64(t) => "{\"type\":\"d\",\"value\":"@ + t@ + "}"@,
        OscTypeWrapper::Char(c) => "{\"type\":\"c\",\"value\":"@ + json_string(seq![c]) + "}"@,
        OscTypeWrapper::Color(col) => "{\"type\":\"r\",\"value\":{\"r\":"@ + dec_nat(col.r as nat)
            + ",\"g\":"@ + dec_nat(col.g as nat) + ",\"b\":"@ + dec_nat(col.b as nat) + ",\"a\":"@
            + dec_nat(col.a as nat) + "}}"@,
        OscTypeWrapper::Midi(p, st, d1, d2) => "{\"type\":\"m\",\"value\":["@ + dec_nat(p as nat)
            + ","@ + dec_nat(st as nat) + ","@ + dec_nat(d1 as nat) + ","@ + dec_nat(d2 as nat)
            + "]}"@,
        OscTypeWrapper::Bool(b) => if b {
            "true"@
        } else {
            "false"@
        },
        OscTypeWrapper::Array(v) => "["@ + args_body(v@) + "]"@,
        OscTypeWrapper::Nil => "null"@,
        OscTypeWrapper::Infinitum => "1.0"@,
    }
}

/// The wire text of a whole normalized message:
/// `{"address":...,"args":[...]}`.
pub open spec fn message_wire(m: OscMessageWrapper) -> Seq<char> {
    "{\"address\":"@ + json_string(m.address@) + ",\"args\":["@ + args_body(m.args@) + "]}"@
}

/// Converts an NTP timestamp to truncated milliseconds since the Unix epoch.
pub fn epoch_time_ms(secs: u32, frac: u32) -> (ms: u64)
    ensures
        ms as nat == epoch_ms(secs, frac),
{
    if secs < NTP_UNIX_OFFSET_SECS {
        0
    } else {
        let whole: u64 = (secs - NTP_UNIX_OFFSET_SECS) as u64;
        whole * 1000 + (frac as u64 * 1000) / 0x1_0000_0000
    }
}

/// Appends the body of a JSON byte array.
fn append_bytes_body(out: &mut String, b: &Vec<u8>)
    ensures
        final(out)@ == old(out)@ + bytes_body(b@),
{
    let ghost orig = out@;
    let mut j: usize = 0;
    while j < b.len()
        invariant
            j <= b@.len(),
            out@ == orig + bytes_body(b@.subrange(0, j as int)),
        decreases b@.len() - j,
    {
        if j > 0 {
            push_char(out, ',');
        }
        append_u64(out, b[j] as u64);
        proof {
            let t = b@.subrange(0, j as int + 1);
            assert(t.drop_last() =~= b@.subrange(0, j as int));
            assert(t.last() == b@[j as int]);
            assert(out@ =~= orig + bytes_body(t));
        }
        j = j + 1;
    }
    proof {
        assert(b@.subrange(0, b@.len() as int) =~= b@);
    }
}

/// Appends the comma-separated encodings of a sequence of arguments.
fn append_args_body(out: &mut String, v: &Vec<OscTypeWrapper>)
    ensures
        final(out)@ == old(out)@ + args_body(v@),
    decreases v@,
{
    let ghost orig = out@;
    let mut j: usize = 0;
    while j < v.len()
        invariant
            j <= v@.len(),
            out@ == orig + args_body(v@.subrange(0, j as int)),
        decreases v@.len() - j,
    {
        if j > 0 {
            push_char(out, ',');
        }
        append_arg(out, &v[j]);
        proof {
            let t = v@.subrange(0, j as int + 1);
            assert(t.drop_last() =~= v@.subrange(0, j as int));
            assert(t.last() == v@[j as int]);
            assert(out@ =~= orig + args_body(t));
        }
        j = j + 1;
    }
    proof {
        assert(v@.subrange(0, v@.len() as int) =~= v@);
    }
}

/// Appends the wire text of one argument.
fn append_arg(out: &mut String, a: &OscTypeWrapper)
    ensures
        final(out)@ == old(out)@ + arg_wire(*a),
    decreases *a,
{
    match a {
        OscTypeWrapper::Int32(i) => {
            out.append("{\"type\":\"i\",\"value\":");
            append_i64(out, *i as i64);
            out.append("}");
        },
        OscTypeWrapper::Float32(t) => {
            out.append("{\"type\":\"f\",\"value\":");
            out.append(t.as_str());
            out.append("}");
        },
        OscTypeWrapper::Utf8String(s) => {
            out.append("{\"type\":\"s\",\"value\":");
            append_json_string(out, s.as_str());
            out.append("}");
        },
        OscTypeWrapper::ByteBlob(b) => {
            out.append("{\"type\":\"b\",\"value\":[");
            append_bytes_body(out, b);
            out.append("]}");
        },
        OscTypeWrapper::Timestamp(secs, frac) => {
            out.append("{\"rawNTP\":[");
            append_u64(out, *secs as u64);
            out.append(",");
            append_u64(out, *frac as u64);
            out.append("],\"epochTimeMs\":");
            let ms = epoch_time_ms(*secs, *frac);
            append_u64(out, ms);
            out.append("}");
        },
        OscTypeWrapper::Int64(h) => {
            out.append("{\"type\":\"h\",\"value\":");
            append_i64(out, *h);
            out.append("}");
        },
        OscTypeWrapper::Float64(t) => {
            out.append("{\"type\":\"d\",\"value\":");
            out.append(t.as_str());
            out.append("}");
        },
        OscTypeWrapper::Char(c) => {
            out.append("{\"type\":\"c\",\"value\":");
            append_json_string_char(out, *c);
            out.append("}");
        },
        OscTypeWrapper::Color(col) => {
            out.append("{\"type\":\"r\",\"value\":{\"r\":");
            append_u64(out, col.r as u64);
            out.append(",\"g\":");
            append_u64(out, col.g as u64);
            out.append(",\"b\":");
            append_u64(out, col.b as u64);
            out.append(",\"a\":");
            append_u64(out, col.a as u64);
            out.append("}}");
        },
        OscTypeWrapper::Midi(p, st, d1, d2) => {
            out.append("{\"type\":\"m\",\"value\":[");
            append_u64(out, *p as u64);
            out.append(",");
            append_u64(out, *st as u64);
            out.append(",");
            append_u64(out, *d1 as u64);
            out.append(",");
            append_u64(out, *d2 as u64);
            out.append("]}");
        },
        OscTypeWrapper::Bool(b) => {
            if *b {
                out.append("true");
            } else {
                out.append("false");
            }
        },
        OscTypeWrapper::Array(v) => {
            out.append("[");
            append_args_body(out, v);
            out.append("]");
        },
        OscTypeWrapper::Nil => {
            out.append("null");
        },
        OscTypeWrapper::Infinitum => {
            out.append("1.0");
        },
    }
    assert(out@ =~= old(out)@ + arg_wire(*a));
}

/// Appends a JSON string literal holding exactly one character.
fn append_json_string_char(out: &mut String, c: char)
    ensures
        final(out)@ == old(out)@ + json_string(seq![c]),
{
    push_char(out, '"');
    append_escaped_char(out, c);
    push_char(out, '"');
    proof {
        let s = seq![c];
        assert(s.drop_last() =~= Seq::<char>::empty());
        assert(esc_string(Seq::<char>::empty()) == Seq::<char>::empty());
        assert(esc_string(s) =~= esc_char(c));
        assert(out@ =~= old(out)@ + json_string(s));
    }
}

/// Encodes one argument to its wire text.
pub fn encode_arg(a: &OscTypeWrapper) -> (s: String)
    ensures
        s@ == arg_wire(*a),
{
    let mut out = String::new();
    append_arg(&mut out, a);
    assert(out@ =~= arg_wire(*a));
    out
}

/// The fourteen argument kinds, as bare tags.
pub enum WireTag {
    Int32,
    Float32,
    Utf8String,
    ByteBlob,
    Timestamp,
    Int64,
    Float64,
    Char,
    Color,
    Midi,
    Bool,
    Array,
    Nil,
    Infinitum,
}

/// The tag of an argument value.
pub open spec fn arg_tag(a: OscTypeWrapper) -> WireTag {
    match a {
        OscTypeWrapper::Int32(_) => WireTag::Int32,
        OscTypeWrapper::Float32(_) => WireTag::Float32,
        OscTypeWrapper::Utf8String(_) => WireTag::Utf8String,
        OscTypeWrapper::ByteBlob(_) => WireTag::ByteBlob,
        OscTypeWrapper::Timestamp(_, _) => WireTag::Timestamp,
        OscTypeWrapper::Int64(_) => WireTag::Int64,
        OscTypeWrapper::Float64(_) => WireTag::Float64,
        OscTypeWrapper::Char(_) => WireTag::Char,
        OscTypeWrapper::Color(_) => WireTag::Color,
        OscTypeWrapper::Midi(_, _, _, _) => WireTag::Midi,
        OscTypeWrapper::Bool(_) => WireTag::Bool,
        OscTypeWrapper::Array(_) => WireTag::Array,
        OscTypeWrapper::Nil => WireTag::Nil,
        OscTypeWrapper::Infinitum => WireTag::Infinitum,
    }
}

/// Reads the tag back off a wire text, as the reference schema's reader does:
/// objects carry either the raw-NTP pair or a one-letter `type` tag, and the
/// four bare encodings (boolean, array, null, the impulse number) are told
/// apart by their first character.
pub open spec fn decoded_tag(w: Seq<char>) -> WireTag {
    if w.len() == 0 {
        WireTag::Nil
    } else if w[0] == '{' {
        if w.len() > 2 && w[2] == 'r' {
            WireTag::Timestamp
        } else if w.len() > 9 {
            if w[9] == 'i' {
                WireTag::Int32
            } else if w[9] == 'f' {
                WireTag::Float32
            } else if w[9] == 's' {
                WireTag::Utf8String
            } else if w[9] == 'b' {
                WireTag::ByteBlob
            } else if w[9] == 'h' {
                WireTag::Int64
            } else if w[9] == 'd' {
                WireTag::Float64
            } else if w[9] == 'c' {
                WireTag::Char
            } else if w[9] == 'r' {
                WireTag::Color
            } else {
                WireTag::Midi
            }
        } else {
            WireTag::Midi
        }
    } else if w[0] == '[' {
        WireTag::Array
    } else if w[0] == 't' || w[0] == 'f' {
        WireTag::Bool
    } else if w[0] == 'n' {
        WireTag::Nil
    } else {
        WireTag::Infinitum
    }
}

/// Law (round-trip tagging): every argument's wire text still identifies the
/// variant it came from — reading the tag back off the encoding recovers the
/// tag of the original value, for all fourteen kinds at any nesting depth.
pub proof fn lemma_wire_tag_recoverable(a: OscTypeWrapper)
    ensures
        decoded_tag(arg_wire(a)) == arg_tag(a),
{
    reveal_strlit("{\"type\":\"i\",\"value\":");
    reveal_strlit("{\"type\":\"f\",\"value\":");
    reveal_strlit("{\"type\":\"s\",\"value\":");
    reveal_strlit("{\"type\":\"b\",\"value\":[");
    reveal_strlit("{\"rawNTP\":[");
    reveal_strlit("{\"type\":\"h\",\"value\":");
    reveal_strlit("{\"type\":\"d\",\"value\":");
    reveal_strlit("{\"type\":\"c\",\"value\":");
    reveal_strlit("{\"type\":\"r\",\"value\":{\"r\":");
    reveal_strlit("{\"type\":\"m\",\"value\":[");
    reveal_strlit("true");
    reveal_strlit("false");
    reveal_strlit("[");
    reveal_strlit("null");
    reveal_strlit("1.0");
    let w = arg_wire(a);
    match a {
        OscTypeWrapper::Int32(_) => {
            assert(w[0] == '{' && w[2] == 't' && w[9] == 'i');
        },
        OscTypeWrapper::Float32(_) => {
            assert(w[0] == '{' && w[2] == 't' && w[9] == 'f');
        },
        OscTypeWrapper::Utf8String(_) => {
            assert(w[0] == '{' && w[2] == 't' && w[9] == 's');
        },
        OscTypeWrapper::ByteBlob(_) => {
            assert(w[0] == '{' && w[2] == 't' && w[9] == 'b');
        },
        OscTypeWrapper::Timestamp(_, _) => {
            assert(w[0] == '{' && w[2] == 'r');
        },
        OscTypeWrapper::Int64(_) => {
            assert(w[0] == '{' && w[2] == 't' && w[9] == 'h');
        },
        OscTypeWrapper::Float64(_) => {
            assert(w[0] == '{' && w[2] == 't' && w[9] == 'd');
        },
        OscTypeWrapper::Char(_) => {
            assert(w[0] == '{' && w[2] == 't' && w[9] == 'c');
        },
        OscTypeWrapper::Color(_) => {
            assert(w[0] == '{' && w[2] == 't' && w[9] == 'r');
        },
        OscTypeWrapper::Midi(_, _, _, _) => {
            assert(w[0] == '{' && w[2] == 't' && w[9] == 'm');
        },
        OscTypeWrapper::Bool(_) => {
            assert(w[0] == 't' || w[0] == 'f');
        },
        OscTypeWrapper::Array(_) => {
            assert(w[0] == '[');
        },
        OscTypeWrapper::Nil => {
            assert(w[0] == 'n');
        },
        OscTypeWrapper::Infinitum => {
            assert(w[0] == '1');
        },
    }
}

/// The value text inside a one-letter-tag envelope: what stands between the
/// twenty-character `{"type":_,"value":` prefix and the closing brace.
pub open spec fn value_text(w: Seq<char>) -> Seq<char> {
    w.subrange(20, w.len() - 1)
}

/// Law (round-trip value, integer kinds): for the two integer argument kinds,
/// the decimal text inside the envelope parses back to exactly the original
/// value.
pub proof fn lemma_wire_int_value_recoverable(a: OscTypeWrapper)
    requires
        a is Int32 || a is Int64,
    ensures
        a is Int32 ==> parse_int(value_text(arg_wire(a))) == a->Int32_0 as int,
        a is Int64 ==> parse_int(value_text(arg_wire(a))) == a->Int64_0 as int,
{
    reveal_strlit("{\"type\":\"i\",\"value\":");
    reveal_strlit("{\"type\":\"h\",\"value\":");
    reveal_strlit("}");
    match a {
        OscTypeWrapper::Int32(i) => {
            if i >= 0 {
                lemma_dec_nat_shape(i as nat);
            } else {
                lemma_dec_nat_shape((-(i as int)) as nat);
            }
            assert(value_text(arg_wire(a)) =~= dec_int(i as int));
            lemma_dec_int_value(i as int);
        },
        OscTypeWrapper::Int64(h) => {
            if h >= 0 {
                lemma_dec_nat_shape(h as nat);
            } else {
                lemma_dec_nat_shape((-(h as int)) as nat);
            }
            assert(value_text(arg_wire(a)) =~= dec_int(h as int));
            lemma_dec_int_value(h as int);
        },
        _ => {
        },
    }
}

/// Law (round-trip value, number-text kinds): a single- or double-precision
/// argument carries its value as the number text the decode edge rendered,
/// and the envelope returns exactly that text.
pub proof fn lemma_wire_float_value_recoverable(a: OscTypeWrapper)
    requires
        a is Float32 || a is Float64,
    ensures
        a is Float32 ==> value_text(arg_wire(a)) == a->Float32_0@,
        a is Float64 ==> value_text(arg_wire(a)) == a->Float64_0@,
{
    reveal_strlit("{\"type\":\"f\",\"value\":");
    reveal_strlit("{\"type\":\"d\",\"value\":");
    reveal_strlit("}");
    match a {
        OscTypeWrapper::Float32(t) => {
            assert(value_text(arg_wire(a)) =~= t@);
        },
        OscTypeWrapper::Float64(t) => {
            assert(value_text(arg_wire(a)) =~= t@);
        },
        _ => {
        },
    }
}

/// Law (round-trip value, booleans): the two boolean encodings stay distinct,
/// so the value is read back off the first character.
pub proof fn lemma_wire_bool_value_recoverable(b: bool)
    ensures
        (arg_wire(OscTypeWrapper::Bool(b))[0] == 't') <==> b,
{
    reveal_strlit("true");
    reveal_strlit("false");
}

/// The escaped body inside a text argument's envelope: what stands between
/// the twenty-character prefix with its opening quote and the closing quote
/// and brace.
pub open spec fn text_value_body(w: Seq<char>) -> Seq<char> {
    w.subrange(21, w.len() - 2)
}

/// Law (round-trip value, text kinds): for string and character arguments,
/// reading the escaped body inside the envelope back yields exactly the
/// original text.
pub proof fn lemma_wire_text_value_recoverable(a: OscTypeWrapper)
    requires
        a is Utf8String || a is Char,
    ensures
        a is Utf8String ==> unescape(text_value_body(arg_wire(a))) == a->Utf8String_0@,
        a is Char ==> unescape(text_value_body(arg_wire(a))) == seq![a->Char_0],
{
    reveal_strlit("{\"type\":\"s\",\"value\":");
    reveal_strlit("{\"type\":\"c\",\"value\":");
    reveal_strlit("}");
    match a {
        OscTypeWrapper::Utf8String(s) => {
            assert(text_value_body(arg_wire(a)) =~= esc_string(s@));
            lemma_unescape_inverts_escaping(s@);
        },
        OscTypeWrapper::Char(c) => {
            assert(text_value_body(arg_wire(a)) =~= esc_string(seq![c]));
            lemma_unescape_inverts_escaping(seq![c]);
        },
        _ => {
        },
    }
}

/// Normalizes one message to its complete JSON wire string.
pub fn encode_message(m: &OscMessageWrapper) -> (s: String)
    ensures
        s@ == message_wire(*m),
{
    let mut out = String::new();
    out.append("{\"address\":");
    append_json_string(&mut out, m.address.as_str());
    out.append(",\"args\":[");
    append_args_body(&mut out, &m.args);
    out.append("]}");
    assert(out@ =~= message_wire(*m));
    out
}

} // verus!
