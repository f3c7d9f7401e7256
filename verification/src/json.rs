//! The wire format: each payload is rendered as JSON, byte for byte, by the
//! functions here; the specification functions say exactly which bytes.

use vstd::prelude::*;
use vstd::utf8::encode_utf8;

use crate::types::{
    AttrSeq, NewrAttributes, NewrLog, NewrLogV, NewrLogs, NewrLogsV, NewrSpan, NewrSpanV,
    NewrSpans, NewrSpansV, Value, ValueV,
};
use crate::utils::{dec_i64, dec_u64, fmt_i64, fmt_u64};

verus! {

/// The lowercase hexadecimal digit for `d`.
pub open spec fn hex_digit(d: int) -> u8 {
    if d < 10 {
        (48 + d) as u8
    } else {
        (87 + d) as u8
    }
}

/// How one byte of a string is rendered inside a JSON string literal: quote
/// and backslash are escaped, control bytes take the `\u00XX` form, and
/// every other byte (including the bytes of multi-byte characters) passes
/// through.
pub open spec fn esc_byte(b: u8) -> Seq<u8> {
    if b == 34 {
        seq![92u8, 34u8]
    } else if b == 92 {
        seq![92u8, 92u8]
    } else if b < 32 {
        seq![92u8, 117u8, 48u8, 48u8, hex_digit(b as int / 16), hex_digit(b as int % 16)]
    } else {
        seq![b]
    }
}

/// The string's bytes, escaped byte for byte.
pub open spec fn esc_bytes(bs: Seq<u8>) -> Seq<u8>
    decreases bs.len(),
{
    if bs.len() == 0 {
        Seq::empty()
    } else {
        esc_byte(bs[0]) + esc_bytes(bs.skip(1))
    }
}

proof fn lemma_esc_bytes_push(bs: Seq<u8>, b: u8)
    ensures
        esc_bytes(bs.push(b)) == esc_bytes(bs) + esc_byte(b),
    decreases bs.len(),
{
    if bs.len() == 0 {
        assert(bs.push(b)[0] == b);
        assert(bs.push(b).skip(1) =~= Seq::<u8>::empty());
        assert(esc_bytes(Seq::<u8>::empty()) =~= Seq::<u8>::empty());
        assert(esc_bytes(bs.push(b)) =~= esc_byte(b));
        assert(esc_bytes(bs) + esc_byte(b) =~= esc_byte(b));
    } else {
        assert(bs.push(b)[0] == bs[0]);
        assert(bs.push(b).skip(1) =~= bs.skip(1).push(b));
        lemma_esc_bytes_push(bs.skip(1), b);
        assert(esc_bytes(bs.push(b)) =~= esc_bytes(bs) + esc_byte(b));
    }
}

/// A JSON string literal: the UTF-8 bytes of `s`, escaped, in quotes.
pub open spec fn json_str(s: Seq<char>) -> Seq<u8> {
    seq![34u8] + esc_bytes(encode_utf8(s)) + seq![34u8]
}

/// How one attribute value is rendered: numbers in decimal, booleans as
/// keywords, strings as JSON string literals.
pub open spec fn json_value(v: ValueV) -> Seq<u8> {
    match v {
        ValueV::I64(i) => encode_utf8(dec_i64(i as int)),
        ValueV::U64(u) => encode_utf8(dec_u64(u as nat)),
        ValueV::Bool(b) => if b {
            encode_utf8("true"@)
        } else {
            encode_utf8("false"@)
        },
        ValueV::Str(s) => json_str(s),
    }
}

/// One `"key":value` member.
pub open spec fn json_attr_item(kv: (Seq<char>, ValueV)) -> Seq<u8> {
    json_str(kv.0) + seq![58u8] + json_value(kv.1)
}

/// The pieces joined with commas.
pub open spec fn json_join(items: Seq<Seq<u8>>) -> Seq<u8>
    decreases items.len(),
{
    if items.len() == 0 {
        Seq::empty()
    } else if items.len() == 1 {
        items[0]
    } else {
        items[0] + seq![44u8] + json_join(items.skip(1))
    }
}

proof fn lemma_json_join_push(items: Seq<Seq<u8>>, x: Seq<u8>)
    ensures
        json_join(items.push(x)) == if items.len() == 0 {
            x
        } else {
            json_join(items) + seq![44u8] + x
        },
    decreases items.len(),
{
    if items.len() == 0 {
        assert(items.push(x)[0] == x);
        assert(json_join(items.push(x)) == x);
    } else if items.len() == 1 {
        assert(items.push(x)[0] == items[0]);
        assert(items.push(x).skip(1) =~= seq![x]);
        assert(json_join(seq![x]) == x);
        assert(json_join(items.push(x)) =~= json_join(items) + seq![44u8] + x);
    } else {
        assert(items.push(x)[0] == items[0]);
        assert(items.push(x).skip(1) =~= items.skip(1).push(x));
        lemma_json_join_push(items.skip(1), x);
        assert(json_join(items.push(x)) =~= json_join(items) + seq![44u8] + x);
    }
}

/// An attribute mapping as a JSON object, members in storage order.
pub open spec fn json_attrs(kvs: AttrSeq) -> Seq<u8> {
    seq![123u8] + json_join(kvs.map_values(|kv: (Seq<char>, ValueV)| json_attr_item(kv)))
        + seq![125u8]
}

/// One span record as a JSON object.
pub open spec fn json_span(s: NewrSpanV) -> Seq<u8> {
    encode_utf8("{\"id\":"@) + json_str(s.id) + encode_utf8(",\"trace.id\":"@) + (match s.trace_id {
        Some(t) => json_str(t),
        None => encode_utf8("null"@),
    }) + encode_utf8(",\"timestamp\":"@) + encode_utf8(dec_u64(s.timestamp as nat)) + encode_utf8(
        ",\"attributes\":"@,
    ) + json_attrs(s.attributes) + seq![125u8]
}

/// One log record as a JSON object.
pub open spec fn json_log(l: NewrLogV) -> Seq<u8> {
    encode_utf8("{\"timestamp\":"@) + encode_utf8(dec_u64(l.timestamp as nat)) + encode_utf8(
        ",\"logtype\":"@,
    ) + json_str(l.logtype) + encode_utf8(",\"attributes\":"@) + json_attrs(l.attributes)
        + encode_utf8(",\"level\":"@) + json_str(l.level) + seq![125u8]
}

/// The shared attribute block.
pub open spec fn json_common(c: AttrSeq) -> Seq<u8> {
    encode_utf8("{\"attributes\":"@) + json_attrs(c) + seq![125u8]
}

/// One log-stream payload.
pub open spec fn json_logs(b: NewrLogsV) -> Seq<u8> {
    encode_utf8("{\"logs\":["@) + json_join(b.logs.map_values(|l: NewrLogV| json_log(l)))
        + encode_utf8("],\"common\":"@) + json_common(b.common) + seq![125u8]
}

/// One span-stream payload.
pub open spec fn json_spans(b: NewrSpansV) -> Seq<u8> {
    encode_utf8("{\"spans\":["@) + json_join(b.spans.map_values(|s: NewrSpanV| json_span(s)))
        + encode_utf8("],\"common\":"@) + json_common(b.common) + seq![125u8]
}

/// A request body: the window's log payloads as a JSON array.
pub open spec fn json_logs_array(bs: Seq<NewrLogsV>) -> Seq<u8> {
    seq![91u8] + json_join(bs.map_values(|b: NewrLogsV| json_logs(b))) + seq![93u8]
}

/// A request body: the window's span payloads as a JSON array.
pub open spec fn json_spans_array(bs: Seq<NewrSpansV>) -> Seq<u8> {
    seq![91u8] + json_join(bs.map_values(|b: NewrSpansV| json_spans(b))) + seq![93u8]
}

/// Append a slice of bytes.
fn write_bytes(out: &mut Vec<u8>, s: &[u8])
    ensures
        final(out)@ == old(out)@ + s@,
{
    let mut i: usize = 0;
    while i < s.len()
        invariant
            i <= s.len(),
            out@ == old(out)@ + s@.take(i as int),
        decreases s.len() - i,
    {
        out.push(s[i]);
        proof {
            assert(out@ =~= old(out)@ + s@.take(i as int + 1));
        }
        i += 1;
    }
    proof {
        assert(s@.take(s@.len() as int) =~= s@);
    }
}

/// Append a string's UTF-8 bytes, unescaped.
fn write_str(out: &mut Vec<u8>, s: &str)
    ensures
        final(out)@ == old(out)@ + encode_utf8(s@),
{
    write_bytes(out, s.as_bytes());
}

fn hex_digit_exec(d: u8) -> (r: u8)
    requires
        d < 16,
    ensures
        r == hex_digit(d as int),
{
    if d < 10 {
        48 + d
    } else {
        87 + d
    }
}

/// Append a JSON string literal.
fn write_json_str(out: &mut Vec<u8>, s: &str)
    ensures
        final(out)@ == old(out)@ + json_str(s@),
{
    out.push(34);
    let b = s.as_bytes();
    let mut i: usize = 0;
    while i < b.len()
        invariant
            i <= b.len(),
            b@ == encode_utf8(s@),
            out@ == old(out)@ + seq![34u8] + esc_bytes(b@.take(i as int)),
        decreases b.len() - i,
    {
        let ghost pre = out@;
        let c = b[i];
        if c == 34 {
            out.push(92);
            out.push(34);
        } else if c == 92 {
            out.push(92);
            out.push(92);
        } else if c < 32 {
            out.push(92);
            out.push(117);
            out.push(48);
            out.push(48);
            out.push(hex_digit_exec(c / 16));
            out.push(hex_digit_exec(c % 16));
        } else {
            out.push(c);
        }
        proof {
            assert(out@ =~= pre + esc_byte(b@[i as int]));
            lemma_esc_bytes_push(b@.take(i as int), b@[i as int]);
            assert(b@.take(i as int).push(b@[i as int]) =~= b@.take(i as int + 1));
            assert(out@ =~= old(out)@ + seq![34u8] + esc_bytes(b@.take(i as int + 1)));
        }
        i += 1;
    }
    out.push(34);
    proof {
        assert(b@.take(b@.len() as int) =~= b@);
        assert(final(out)@ =~= old(out)@ + json_str(s@));
    }
}

/// Append a decimal unsigned integer.
fn write_u64(out: &mut Vec<u8>, n: u64)
    ensures
        final(out)@ == old(out)@ + encode_utf8(dec_u64(n as nat)),
{
    let s = fmt_u64(n);
    write_str(out, s.as_str());
}

/// Append one attribute value.
fn write_json_value(out: &mut Vec<u8>, v: &Value)
    ensures
        final(out)@ == old(out)@ + json_value(v@),
{
    match v {
        Value::I64(i) => {
            let s = fmt_i64(*i);
            write_str(out, s.as_str());
        },
        Value::U64(u) => {
            write_u64(out, *u);
        },
        Value::Bool(bv) => {
            if *bv {
                write_str(out, "true");
            } else {
                write_str(out, "false");
            }
        },
        Value::String(s) => {
            write_json_str(out, s.as_str());
        },
    }
}

/// Append an attribute mapping as a JSON object.
fn write_json_attrs(out: &mut Vec<u8>, a: &NewrAttributes)
    ensures
        final(out)@ == old(out)@ + json_attrs(a@),
{
    out.push(123);
    let n = a.len();
    let ghost items = a@.map_values(|kv: (Seq<char>, ValueV)| json_attr_item(kv));
    let mut i: usize = 0;
    while i < n
        invariant
            i <= n,
            n == a@.len(),
            items == a@.map_values(|kv: (Seq<char>, ValueV)| json_attr_item(kv)),
            out@ == old(out)@ + seq![123u8] + json_join(items.take(i as int)),
        decreases n - i,
    {
        let ghost pre = out@;
        if i > 0 {
            out.push(44);
        }
        let kv = a.entry_at(i);
        write_json_str(out, kv.0.as_str());
        out.push(58);
        write_json_value(out, &kv.1);
        proof {
            assert(out@ =~= pre + (if i == 0 {
                Seq::<u8>::empty()
            } else {
                seq![44u8]
            }) + json_attr_item(a@[i as int]));
            assert(items[i as int] == json_attr_item(a@[i as int]));
            lemma_json_join_push(items.take(i as int), items[i as int]);
            assert(items.take(i as int).push(items[i as int]) =~= items.take(i as int + 1));
            assert(out@ =~= old(out)@ + seq![123u8] + json_join(items.take(i as int + 1)));
        }
        i += 1;
    }
    out.push(125);
    proof {
        assert(items.take(items.len() as int) =~= items);
        assert(final(out)@ =~= old(out)@ + json_attrs(a@));
    }
}

/// Append one span record.
fn write_json_span(out: &mut Vec<u8>, s: &NewrSpan)
    ensures
        final(out)@ == old(out)@ + json_span(s@),
{
    write_str(out, "{\"id\":");
    write_json_str(out, s.id.as_str());
    write_str(out, ",\"trace.id\":");
    match &s.trace_id {
        Some(t) => write_json_str(out, t.as_str()),
        None => write_str(out, "null"),
    }
    write_str(out, ",\"timestamp\":");
    write_u64(out, s.timestamp);
    write_str(out, ",\"attributes\":");
    write_json_attrs(out, &s.attributes);
    out.push(125);
    proof {
        assert(final(out)@ =~= old(out)@ + json_span(s@));
    }
}

/// Append one log record.
fn write_json_log(out: &mut Vec<u8>, l: &NewrLog)
    ensures
        final(out)@ == old(out)@ + json_log(l@),
{
    write_str(out, "{\"timestamp\":");
    write_u64(out, l.timestamp);
    write_str(out, ",\"logtype\":");
    write_json_str(out, l.logtype.as_str());
    write_str(out, ",\"attributes\":");
    write_json_attrs(out, &l.attributes);
    write_str(out, ",\"level\":");
    write_json_str(out, l.level.as_str());
    out.push(125);
    proof {
        assert(final(out)@ =~= old(out)@ + json_log(l@));
    }
}

/// Append one log-stream payload.
fn write_json_logs(out: &mut Vec<u8>, b: &NewrLogs)
    ensures
        final(out)@ == old(out)@ + json_logs(b@),
{
    write_str(out, "{\"logs\":[");
    let ghost items = b@.logs.map_values(|l: NewrLogV| json_log(l));
    let mut i: usize = 0;
    while i < b.logs.len()
        invariant
            i <= b.logs.len(),
            items == b@.logs.map_values(|l: NewrLogV| json_log(l)),
            items.len() == b.logs.len(),
            out@ == old(out)@ + encode_utf8("{\"logs\":["@) + json_join(items.take(i as int)),
        decreases b.logs.len() - i,
    {
        let ghost pre = out@;
        if i > 0 {
            out.push(44);
        }
        write_json_log(out, &b.logs[i]);
        proof {
            assert(items[i as int] == json_log(b@.logs[i as int]));
            lemma_json_join_push(items.take(i as int), items[i as int]);
            assert(items.take(i as int).push(items[i as int]) =~= items.take(i as int + 1));
            assert(out@ =~= old(out)@ + encode_utf8("{\"logs\":["@) + json_join(
                items.take(i as int + 1),
            ));
        }
        i += 1;
    }
    write_str(out, "],\"common\":");
    write_str(out, "{\"attributes\":");
    write_json_attrs(out, &b.common.attributes);
    out.push(125);
    out.push(125);
    proof {
        assert(items.take(items.len() as int) =~= items);
        assert(final(out)@ =~= old(out)@ + json_logs(b@));
    }
}

/// Append one span-stream payload.
fn write_json_spans(out: &mut Vec<u8>, b: &NewrSpans)
    ensures
        final(out)@ == old(out)@ + json_spans(b@),
{
    write_str(out, "{\"spans\":[");
    let ghost items = b@.spans.map_values(|s: NewrSpanV| json_span(s));
    let mut i: usize = 0;
    while i < b.spans.len()
        invariant
            i <= b.spans.len(),
            items == b@.spans.map_values(|s: NewrSpanV| json_span(s)),
            items.len() == b.spans.len(),
            out@ == old(out)@ + encode_utf8("{\"spans\":["@) + json_join(items.take(i as int)),
        decreases b.spans.len() - i,
    {
        let ghost pre = out@;
        if i > 0 {
            out.push(44);
        }
        write_json_span(out, &b.spans[i]);
        proof {
            assert(items[i as int] == json_span(b@.spans[i as int]));
            lemma_json_join_push(items.take(i as int), items[i as int]);
            assert(items.take(i as int).push(items[i as int]) =~= items.take(i as int + 1));
            assert(out@ =~= old(out)@ + encode_utf8("{\"spans\":["@) + json_join(
                items.take(i as int + 1),
            ));
        }
        i += 1;
    }
    write_str(out, "],\"common\":");
    write_str(out, "{\"attributes\":");
    write_json_attrs(out, &b.common.attributes);
    out.push(125);
    out.push(125);
    proof {
        assert(items.take(items.len() as int) =~= items);
        assert(final(out)@ =~= old(out)@ + json_spans(b@));
    }
}

/// Render a window of log payloads as the request body.
#[verifier::rlimit(60)]
pub fn logs_body(data: &[NewrLogs]) -> (r: Vec<u8>)
    ensures
        r@ == json_logs_array(data@.map_values(|b: NewrLogs| b@)),
{
    let mut out: Vec<u8> = Vec::new();
    out.push(91);
    let ghost items = data@.map_values(|b: NewrLogs| b@).map_values(
        |b: NewrLogsV| json_logs(b),
    );
    let mut i: usize = 0;
    while i < data.len()
        invariant
            i <= data.len(),
            items == data@.map_values(|b: NewrLogs| b@).map_values(|b: NewrLogsV| json_logs(b)),
            items.len() == data.len(),
            out@ == seq![91u8] + json_join(items.take(i as int)),
        decreases data.len() - i,
    {
        if i > 0 {
            out.push(44);
        }
        write_json_logs(&mut out, &data[i]);
        proof {
            assert(items[i as int] == json_logs(data@[i as int]@));
            lemma_json_join_push(items.take(i as int), items[i as int]);
            assert(items.take(i as int).push(items[i as int]) =~= items.take(i as int + 1));
            assert(out@ =~= seq![91u8] + json_join(items.take(i as int + 1)));
        }
        i += 1;
    }
    out.push(93);
    proof {
        assert(items.take(items.len() as int) =~= items);
        assert(out@ =~= json_logs_array(data@.map_values(|b: NewrLogs| b@)));
    }
    out
}

/// Render a window of span payloads as the request body.
#[verifier::rlimit(60)]
pub fn spans_body(data: &[NewrSpans]) -> (r: Vec<u8>)
    ensures
        r@ == json_spans_array(data@.map_values(|b: NewrSpans| b@)),
{
    let mut out: Vec<u8> = Vec::new();
    out.push(91);
    let ghost items = data@.map_values(|b: NewrSpans| b@).map_values(
        |b: NewrSpansV| json_spans(b),
    );
    let mut i: usize = 0;
    while i < data.len()
        invariant
            i <= data.len(),
            items == data@.map_values(|b: NewrSpans| b@).map_values(
                |b: NewrSpansV| json_spans(b),
            ),
            items.len() == data.len(),
            out@ == seq![91u8] + json_join(items.take(i as int)),
        decreases data.len() - i,
    {
        if i > 0 {
            out.push(44);
        }
        write_json_spans(&mut out, &data[i]);
        proof {
            assert(items[i as int] == json_spans(data@[i as int]@));
            lemma_json_join_push(items.take(i as int), items[i as int]);
            assert(items.take(i as int).push(items[i as int]) =~= items.take(i as int + 1));
            assert(out@ =~= seq![91u8] + json_join(items.take(i as int + 1)));
        }
        i += 1;
    }
    out.push(93);
    proof {
        assert(items.take(items.len() as int) =~= items);
        assert(out@ =~= json_spans_array(data@.map_values(|b: NewrSpans| b@)));
    }
    out
}

} // verus!
