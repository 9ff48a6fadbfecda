//! The wire format of a telemetry record: one JSON object per record, with
//! camelCase field names, header maps as objects from name to the array of
//! values, and numbers in plain decimal.
//!
//! The encoding is defined here as a function on the record's model and the
//! encoder is proved to produce exactly that sequence of characters. String
//! escaping follows the usual JSON rules: quote, backslash, backspace, tab,
//! newline, form feed and carriage return get two-character escapes, every
//! other control character a `\u00` escape with two lowercase hex digits,
//! and every other character stands for itself.

use vstd::prelude::*;
use vstd::string::*;
use crate::record::{HeaderEntry, HeaderEntryModel, RequestInfoModel, ResponseInfoModel,
    TelemetryRecord, TelemetryRecordModel};

verus! {

/// The decimal digit characters, low to high.
pub open spec fn dec_char(d: nat) -> char {
    if d == 0 {
        '0'
    } else if d == 1 {
        '1'
    } else if d == 2 {
        '2'
    } else if d == 3 {
        '3'
    } else if d == 4 {
        '4'
    } else if d == 5 {
        '5'
    } else if d == 6 {
        '6'
    } else if d == 7 {
        '7'
    } else if d == 8 {
        '8'
    } else {
        '9'
    }
}

/// The lowercase hexadecimal digit characters, low to high.
pub open spec fn hex_char(d: nat) -> char {
    if d < 10 {
        dec_char(d)
    } else if d == 10 {
        'a'
    } else if d == 11 {
        'b'
    } else if d == 12 {
        'c'
    } else if d == 13 {
        'd'
    } else if d == 14 {
        'e'
    } else {
        'f'
    }
}

/// The plain decimal rendering of a number, without sign or padding.
pub open spec fn dec_of(n: nat) -> Seq<char>
    decreases n,
{
    if n < 10 {
        seq![dec_char(n)]
    } else {
        dec_of(n / 10).push(dec_char(n % 10))
    }
}

/// The escape of one character inside a JSON string.
pub open spec fn json_escaped_char(c: char) -> Seq<char> {
    if c == '"' {
        seq!['\\', '"']
    } else if c == '\\' {
        seq!['\\', '\\']
    } else if c == '\u{8}' {
        seq!['\\', 'b']
    } else if c == '\t' {
        seq!['\\', 't']
    } else if c == '\n' {
        seq!['\\', 'n']
    } else if c == '\u{c}' {
        seq!['\\', 'f']
    } else if c == '\r' {
        seq!['\\', 'r']
    } else if (c as u32) < 32 {
        seq!['\\', 'u', '0', '0', hex_char((c as u32 / 16) as nat), hex_char((c as u32 % 16) as nat)]
    } else {
        seq![c]
    }
}

/// A character sequence with every character escaped.
pub open spec fn json_escaped(s: Seq<char>) -> Seq<char>
    decreases s.len(),
{
    if s.len() == 0 {
        Seq::<char>::empty()
    } else {
        json_escaped(s.drop_last()) + json_escaped_char(s.last())
    }
}

/// A JSON string literal: the escaped characters between double quotes.
pub open spec fn json_string(s: Seq<char>) -> Seq<char> {
    "\""@ + json_escaped(s) + "\""@
}

/// JSON string literals joined by commas.
pub open spec fn comma_join_strings(vs: Seq<Seq<char>>) -> Seq<char>
    decreases vs.len(),
{
    if vs.len() == 0 {
        Seq::<char>::empty()
    } else if vs.len() == 1 {
        json_string(vs[0])
    } else {
        comma_join_strings(vs.drop_last()) + ","@ + json_string(vs.last())
    }
}

/// A JSON array of string literals.
pub open spec fn json_of_values(vs: Seq<Seq<char>>) -> Seq<char> {
    "["@ + comma_join_strings(vs) + "]"@
}

/// One header entry as a JSON object member: the name as key, the array of
/// values as value.
pub open spec fn json_of_header(h: HeaderEntryModel) -> Seq<char> {
    json_string(h.name) + ":"@ + json_of_values(h.values)
}

/// Header members joined by commas.
pub open spec fn comma_join_headers(hs: Seq<HeaderEntryModel>) -> Seq<char>
    decreases hs.len(),
{
    if hs.len() == 0 {
        Seq::<char>::empty()
    } else if hs.len() == 1 {
        json_of_header(hs[0])
    } else {
        comma_join_headers(hs.drop_last()) + ","@ + json_of_header(hs.last())
    }
}

/// A header map as a JSON object.
pub open spec fn json_of_headers(hs: Seq<HeaderEntryModel>) -> Seq<char> {
    "{"@ + comma_join_headers(hs) + "}"@
}

/// A captured request as a JSON object.
pub open spec fn json_of_request(r: RequestInfoModel) -> Seq<char> {
    "{\"httpProtocol\":"@ + json_string(r.http_protocol) + ",\"headers\":"@ + json_of_headers(
        r.headers,
    ) + ",\"method\":"@ + json_string(r.method) + ",\"body\":"@ + json_string(r.body) + ",\"ip\":"@
        + json_string(r.ip) + ",\"resource\":"@ + json_string(r.resource) + ",\"uri\":"@
        + json_string(r.uri) + "}"@
}

/// A captured response as a JSON object.
pub open spec fn json_of_response(r: ResponseInfoModel) -> Seq<char> {
    "{\"statusCode\":"@ + dec_of(r.status_code as nat) + ",\"headers\":"@ + json_of_headers(
        r.headers,
    ) + ",\"body\":"@ + json_string(r.body) + "}"@
}

/// A whole telemetry record as a JSON object.
pub open spec fn json_of_record(r: TelemetryRecordModel) -> Seq<char> {
    "{\"version\":"@ + json_string(r.version) + ",\"dateCreated\":"@ + dec_of(
        r.date_created as nat,
    ) + ",\"executionTime\":"@ + dec_of(r.execution_time as nat) + ",\"request\":"@
        + json_of_request(r.request) + ",\"response\":"@ + json_of_response(r.response) + "}"@
}

/// Relies on `String::push`: it appends exactly the given character.
#[verifier::external_body]
fn push_char(out: &mut String, c: char)
    ensures
        final(out)@ == old(out)@ + seq![c],
{
    out.push(c);
}

/// The decimal digit character for a value below ten.
fn dec_digit(d: u64) -> (c: char)
    requires
        d < 10,
    ensures
        c == dec_char(d as nat),
{
    if d == 0 {
        '0'
    } else if d == 1 {
        '1'
    } else if d == 2 {
        '2'
    } else if d == 3 {
        '3'
    } else if d == 4 {
        '4'
    } else if d == 5 {
        '5'
    } else if d == 6 {
        '6'
    } else if d == 7 {
        '7'
    } else if d == 8 {
        '8'
    } else {
        '9'
    }
}

/// The lowercase hexadecimal digit character for a value below sixteen.
fn hex_digit(d: u32) -> (c: char)
    requires
        d < 16,
    ensures
        c == hex_char(d as nat),
{
    if d < 10 {
        dec_digit(d as u64)
    } else if d == 10 {
        'a'
    } else if d == 11 {
        'b'
    } else if d == 12 {
        'c'
    } else if d == 13 {
        'd'
    } else if d == 14 {
        'e'
    } else {
        'f'
    }
}

/// Appends the plain decimal rendering of a number.
pub fn push_dec_u64(out: &mut String, n: u64)
    ensures
        final(out)@ == old(out)@ + dec_of(n as nat),
    decreases n,
{
    if n >= 10 {
        push_dec_u64(out, n / 10);
    }
    let d = dec_digit(n % 10);
    push_char(out, d);
    proof {
        if n < 10 {
            assert(out@ =~= old(out)@ + dec_of(n as nat));
        } else {
            assert(dec_of(n as nat) == dec_of(n as nat / 10).push(dec_char(n as nat % 10)));
            assert(out@ =~= old(out)@ + dec_of(n as nat));
        }
    }
}

/// Appends the escape of one character.
fn push_escaped_char(out: &mut String, c: char)
    ensures
        final(out)@ == old(out)@ + json_escaped_char(c),
{
    if c == '"' {
        out.append("\\\"");
        proof {
            reveal_strlit("\\\"");
            assert(out@ =~= old(out)@ + json_escaped_char(c));
        }
    } else if c == '\\' {
        out.append("\\\\");
        proof {
            reveal_strlit("\\\\");
            assert(out@ =~= old(out)@ + json_escaped_char(c));
        }
    } else if c == '\u{8}' {
        out.append("\\b");
        proof {
            reveal_strlit("\\b");
            assert(out@ =~= old(out)@ + json_escaped_char(c));
        }
    } else if c == '\t' {
        out.append("\\t");
        proof {
            reveal_strlit("\\t");
            assert(out@ =~= old(out)@ + json_escaped_char(c));
        }
    } else if c == '\n' {
        out.append("\\n");
        proof {
            reveal_strlit("\\n");
            assert(out@ =~= old(out)@ + json_escaped_char(c));
        }
    } else if c == '\u{c}' {
        out.append("\\f");
        proof {
            reveal_strlit("\\f");
            assert(out@ =~= old(out)@ + json_escaped_char(c));
        }
    } else if c == '\r' {
        out.append("\\r");
        proof {
            reveal_strlit("\\r");
            assert(out@ =~= old(out)@ + json_escaped_char(c));
        }
    } else if (c as u32) < 32 {
        out.append("\\u00");
        let u = c as u32;
        let h = hex_digit(u / 16);
        push_char(out, h);
        let l = hex_digit(u % 16);
        push_char(out, l);
        proof {
            reveal_strlit("\\u00");
            assert("\\u00"@ =~= seq!['\\', 'u', '0', '0']);
            assert(out@ =~= old(out)@ + json_escaped_char(c));
        }
    } else {
        push_char(out, c);
        proof {
            assert(out@ =~= old(out)@ + json_escaped_char(c));
        }
    }
}

/// Appends a JSON string literal holding the given text.
pub fn push_json_string(out: &mut String, s: &str)
    ensures
        final(out)@ == old(out)@ + json_string(s@),
{
    out.append("\"");
    let n = s.unicode_len();
    let mut i: usize = 0;
    while i < n
        invariant
            0 <= i <= n,
            n == s@.len(),
            out@ == old(out)@ + "\""@ + json_escaped(s@.subrange(0, i as int)),
        decreases n - i,
    {
        let c = s.get_char(i);
        let ghost pre = s@.subrange(0, i as int);
        let ghost ext = s@.subrange(0, i as int + 1);
        push_escaped_char(out, c);
        proof {
            assert(ext.drop_last() =~= pre);
            assert(ext.last() == s@[i as int]);
            assert(json_escaped(ext) == json_escaped(pre) + json_escaped_char(s@[i as int]));
            assert(out@ =~= old(out)@ + "\""@ + json_escaped(ext));
        }
        i += 1;
    }
    proof {
        assert(s@.subrange(0, n as int) =~= s@);
    }
    out.append("\"");
    proof {
        assert(out@ =~= old(out)@ + json_string(s@));
    }
}

/// Appends a JSON array holding the given strings.
pub fn push_json_values(out: &mut String, vs: &Vec<String>)
    ensures
        final(out)@ == old(out)@ + json_of_values(vs.deep_view()),
{
    out.append("[");
    let ghost dv = vs.deep_view();
    let mut i: usize = 0;
    proof {
        assert(dv.len() == vs@.len());
        assert(dv.subrange(0, 0) =~= Seq::<Seq<char>>::empty());
    }
    while i < vs.len()
        invariant
            0 <= i <= vs@.len(),
            dv == vs.deep_view(),
            dv.len() == vs@.len(),
            out@ == old(out)@ + "["@ + comma_join_strings(dv.subrange(0, i as int)),
        decreases vs@.len() - i,
    {
        if i > 0 {
            out.append(",");
        }
        push_json_string(out, vs[i].as_str());
        proof {
            let ext = dv.subrange(0, i as int + 1);
            assert(ext.drop_last() =~= dv.subrange(0, i as int));
            assert(ext.last() == dv[i as int]);
            assert(vs@[i as int]@ == dv[i as int]);
            if i == 0 {
                assert(comma_join_strings(ext) == json_string(dv[0]));
            } else {
                assert(comma_join_strings(ext) == comma_join_strings(dv.subrange(0, i as int))
                    + ","@ + json_string(dv[i as int]));
            }
            assert(out@ =~= old(out)@ + "["@ + comma_join_strings(ext));
        }
        i += 1;
    }
    proof {
        assert(dv.subrange(0, dv.len() as int) =~= dv);
    }
    out.append("]");
    proof {
        assert(out@ =~= old(out)@ + json_of_values(dv));
    }
}

/// Appends a JSON object holding the given header map.
pub fn push_json_headers(out: &mut String, hs: &Vec<HeaderEntry>)
    ensures
        final(out)@ == old(out)@ + json_of_headers(hs.deep_view()),
{
    out.append("{");
    let ghost dv = hs.deep_view();
    let mut i: usize = 0;
    proof {
        assert(dv.len() == hs@.len());
        assert(dv.subrange(0, 0) =~= Seq::<HeaderEntryModel>::empty());
    }
    while i < hs.len()
        invariant
            0 <= i <= hs@.len(),
            dv == hs.deep_view(),
            dv.len() == hs@.len(),
            out@ == old(out)@ + "{"@ + comma_join_headers(dv.subrange(0, i as int)),
        decreases hs@.len() - i,
    {
        if i > 0 {
            out.append(",");
        }
        push_json_string(out, hs[i].name.as_str());
        out.append(":");
        push_json_values(out, &hs[i].values);
        proof {
            let ext = dv.subrange(0, i as int + 1);
            assert(ext.drop_last() =~= dv.subrange(0, i as int));
            assert(ext.last() == dv[i as int]);
            assert(hs@[i as int]@ == dv[i as int]);
            if i == 0 {
                assert(comma_join_headers(ext) == json_of_header(dv[0]));
            } else {
                assert(comma_join_headers(ext) == comma_join_headers(dv.subrange(0, i as int))
                    + ","@ + json_of_header(dv[i as int]));
            }
            assert(out@ =~= old(out)@ + "{"@ + comma_join_headers(ext));
        }
        i += 1;
    }
    proof {
        assert(dv.subrange(0, dv.len() as int) =~= dv);
    }
    out.append("}");
    proof {
        assert(out@ =~= old(out)@ + json_of_headers(dv));
    }
}

/// Serializes one telemetry record to its JSON wire form.
#[verifier::rlimit(50)]
pub fn encode_record(rec: &TelemetryRecord) -> (r: String)
    ensures
        r@ == json_of_record(rec@),
{
    let mut out = String::new();
    out.append("{\"version\":");
    push_json_string(&mut out, rec.version.as_str());
    out.append(",\"dateCreated\":");
    push_dec_u64(&mut out, rec.date_created);
    out.append(",\"executionTime\":");
    push_dec_u64(&mut out, rec.execution_time);
    out.append(",\"request\":");
    out.append("{\"httpProtocol\":");
    push_json_string(&mut out, rec.request.http_protocol.as_str());
    out.append(",\"headers\":");
    push_json_headers(&mut out, &rec.request.headers);
    out.append(",\"method\":");
    push_json_string(&mut out, rec.request.method.as_str());
    out.append(",\"body\":");
    push_json_string(&mut out, rec.request.body.as_str());
    out.append(",\"ip\":");
    push_json_string(&mut out, rec.request.ip.as_str());
    out.append(",\"resource\":");
    push_json_string(&mut out, rec.request.resource.as_str());
    out.append(",\"uri\":");
    push_json_string(&mut out, rec.request.uri.as_str());
    out.append("}");
    out.append(",\"response\":");
    out.append("{\"statusCode\":");
    push_dec_u64(&mut out, rec.response.status_code as u64);
    out.append(",\"headers\":");
    push_json_headers(&mut out, &rec.response.headers);
    out.append(",\"body\":");
    push_json_string(&mut out, rec.response.body.as_str());
    out.append("}");
    out.append("}");
    proof {
        assert(rec.response.status_code as u64 as nat == rec@.response.status_code as nat);
        assert(out@ =~= json_of_record(rec@));
    }
    out
}

} // verus!
