//! Telemetry records.
//!
//! A `TelemetryRecord` is the immutable structured representation of one
//! completed HTTP exchange: a schema version, the epoch millisecond at which
//! the request began, the elapsed milliseconds until the response completed,
//! and snapshots of the request and the response. Header maps are kept as an
//! ordered list of names, each with the ordered list of all its values, so
//! repeated headers are never collapsed.

use vstd::prelude::*;
use vstd::string::*;
use vstd::utf8::{encode_utf8, valid_utf8};
use crate::path::{convert_path_to_resource, is_normalization_of};

verus! {

/// Relies on `str::from_utf8` and `str::to_string`: the captured bytes
/// become body text exactly when they are valid UTF-8, and the text then
/// encodes back to those very bytes; invalid bytes yield nothing, and the
/// caller skips telemetry for that exchange instead of failing it.
#[verifier::external_body]
pub fn body_text_of_bytes(bytes: &[u8]) -> (r: Option<String>)
    ensures
        r is Some <==> valid_utf8(bytes@),
        (r matches Some(s) ==> encode_utf8(s@) == bytes@),
{
    match std::str::from_utf8(bytes) {
        Ok(text) => Some(text.to_string()),
        Err(_) => None,
    }
}

/// One header name with all its values, in order.
pub struct HeaderEntry {
    pub name: String,
    pub values: Vec<String>,
}

/// The mathematical model of a header entry.
#[verifier::ext_equal]
pub struct HeaderEntryModel {
    pub name: Seq<char>,
    pub values: Seq<Seq<char>>,
}

impl View for HeaderEntry {
    type V = HeaderEntryModel;

    open spec fn view(&self) -> HeaderEntryModel {
        HeaderEntryModel { name: self.name@, values: self.values.deep_view() }
    }
}

impl DeepView for HeaderEntry {
    type V = HeaderEntryModel;

    open spec fn deep_view(&self) -> HeaderEntryModel {
        self.view()
    }
}

/// Where a header name already stands in a grouped header list: the index
/// of its entry, or a negative value when no entry has the name.
pub open spec fn find_name(hs: Seq<HeaderEntryModel>, n: Seq<char>) -> int
    decreases hs.len(),
{
    if hs.len() == 0 {
        -1
    } else {
        let p = find_name(hs.drop_last(), n);
        if p >= 0 {
            p
        } else if hs.last().name == n {
            hs.len() - 1
        } else {
            -1
        }
    }
}

proof fn lemma_find_name(hs: Seq<HeaderEntryModel>, n: Seq<char>)
    ensures
        find_name(hs, n) == -1 ==> forall|k: int| 0 <= k < hs.len() ==> (#[trigger] hs[k]).name != n,
        find_name(hs, n) >= 0 ==> {
            &&& find_name(hs, n) < hs.len()
            &&& hs[find_name(hs, n)].name == n
            &&& forall|k: int| 0 <= k < find_name(hs, n) ==> (#[trigger] hs[k]).name != n
        },
    decreases hs.len(),
{
    if hs.len() > 0 {
        lemma_find_name(hs.drop_last(), n);
        assert forall|k: int| 0 <= k < hs.len() - 1 implies hs.drop_last()[k] == hs[k] by {}
    }
}

/// One incoming pair folded into a grouped header list: the value joins the
/// entry that already carries the name, or opens a new entry at the end.
pub open spec fn group_step(
    pre: Seq<HeaderEntryModel>,
    name: Seq<char>,
    value: Seq<char>,
) -> Seq<HeaderEntryModel> {
    let j = find_name(pre, name);
    if j >= 0 {
        pre.update(j, HeaderEntryModel { name: pre[j].name, values: pre[j].values.push(value) })
    } else {
        pre.push(HeaderEntryModel { name: name, values: seq![value] })
    }
}

/// A sequence of name-value pairs grouped into one entry per name: names in
/// order of first appearance, each with all its values in arrival order, so
/// repeated headers are preserved, never collapsed.
pub open spec fn group_pairs(ps: Seq<(Seq<char>, Seq<char>)>) -> Seq<HeaderEntryModel>
    decreases ps.len(),
{
    if ps.len() == 0 {
        Seq::<HeaderEntryModel>::empty()
    } else {
        group_step(group_pairs(ps.drop_last()), ps.last().0, ps.last().1)
    }
}

/// A grouped header list names each header once: no two entries share a
/// name, so the header object of the wire format has no repeated key.
pub proof fn lemma_group_pairs_names_unique(ps: Seq<(Seq<char>, Seq<char>)>)
    ensures
        forall|j: int, k: int|
            0 <= j < k < group_pairs(ps).len() ==> (#[trigger] group_pairs(ps)[j]).name != (
            #[trigger] group_pairs(ps)[k]).name,
    decreases ps.len(),
{
    if ps.len() > 0 {
        lemma_group_pairs_names_unique(ps.drop_last());
        let pre = group_pairs(ps.drop_last());
        let name = ps.last().0;
        lemma_find_name(pre, name);
        let g = group_pairs(ps);
        assert(g == group_step(pre, name, ps.last().1));
        assert forall|j: int, k: int| 0 <= j < k < g.len() implies (#[trigger] g[j]).name != (
        #[trigger] g[k]).name by {
            if find_name(pre, name) >= 0 {
                assert(g.len() == pre.len());
                assert(g[j].name == pre[j].name);
                assert(g[k].name == pre[k].name);
            } else {
                if k < pre.len() {
                    assert(g[j].name == pre[j].name);
                    assert(g[k].name == pre[k].name);
                } else {
                    assert(g[j] == pre[j]);
                    assert(g[k].name == name);
                }
            }
        }
    }
}

/// Groups captured name-value pairs into one entry per header name: names
/// keep the order of their first appearance and each entry holds all the
/// name's values in arrival order. Nothing is dropped: a repeated header
/// contributes every one of its values.
pub fn group_header_pairs(pairs: Vec<(String, String)>) -> (hs: Vec<HeaderEntry>)
    ensures
        hs.deep_view() == group_pairs(pairs.deep_view()),
{
    let ghost pdv = pairs.deep_view();
    let mut entries: Vec<HeaderEntry> = Vec::new();
    let mut i: usize = 0;
    proof {
        assert(pdv.subrange(0, 0) =~= Seq::<(Seq<char>, Seq<char>)>::empty());
        assert(entries.deep_view() =~~= group_pairs(pdv.subrange(0, 0)));
    }
    while i < pairs.len()
        invariant
            0 <= i <= pairs@.len(),
            pdv == pairs.deep_view(),
            pdv.len() == pairs@.len(),
            entries.deep_view() == group_pairs(pdv.subrange(0, i as int)),
        decreases pairs@.len() - i,
    {
        let ghost pre = entries.deep_view();
        let pair = &pairs[i];
        let name = pair.0.clone();
        let value = pair.1.clone();
        let ghost namev = name@;
        let ghost valuev = value@;
        proof {
            assert(pairs@[i as int].deep_view() == pdv[i as int]);
            assert(namev == pdv[i as int].0);
            assert(valuev == pdv[i as int].1);
            lemma_find_name(pre, namev);
        }
        let n = entries.len();
        let mut j: usize = 0;
        let mut found: usize = n;
        while j < n
            invariant
                0 <= j <= n,
                n == entries@.len(),
                entries.deep_view() == pre,
                pre.len() == n,
                name@ == namev,
                found <= n,
                found == n ==> forall|k: int| 0 <= k < j ==> (#[trigger] pre[k]).name != namev,
                found < n ==> pre[found as int].name == namev && (forall|k: int|
                    0 <= k < found ==> (#[trigger] pre[k]).name != namev),
            decreases n - j,
        {
            if found == n && entries[j].name == name {
                proof {
                    assert(entries@[j as int]@ == pre[j as int]);
                }
                found = j;
            }
            j += 1;
        }
        if found < n {
            proof {
                // the loop found the first match, which is what `find_name`
                // points at
                assert(find_name(pre, namev) >= 0);
                assert(find_name(pre, namev) == found);
            }
            let ghost before_vec = entries@;
            let mut entry = entries.remove(found);
            proof {
                assert(entry == before_vec[found as int]);
                assert(entry.deep_view() == pre[found as int]);
            }
            entry.values.push(value);
            let ghost grown = entry.deep_view();
            proof {
                assert(grown.name == pre[found as int].name);
                assert(grown.values =~~= pre[found as int].values.push(valuev));
            }
            entries.insert(found, entry);
            proof {
                assert(entries@ =~= before_vec.update(found as int, entry));
                assert(entries.deep_view() =~~= pre.update(found as int, grown));
                assert(entries.deep_view() =~~= group_step(pre, namev, valuev));
            }
        } else {
            proof {
                assert(find_name(pre, namev) == -1) by {
                    if find_name(pre, namev) >= 0 {
                        assert(pre[find_name(pre, namev)].name == namev);
                    }
                }
            }
            let mut values: Vec<String> = Vec::new();
            values.push(value);
            entries.push(HeaderEntry { name, values });
            proof {
                assert(entries.deep_view() =~~= group_step(pre, namev, valuev));
            }
        }
        proof {
            let ext = pdv.subrange(0, i as int + 1);
            assert(ext.drop_last() =~= pdv.subrange(0, i as int));
            assert(ext.last() == pdv[i as int]);
            assert(group_pairs(ext) == group_step(
                group_pairs(pdv.subrange(0, i as int)),
                pdv[i as int].0,
                pdv[i as int].1,
            ));
            assert(entries.deep_view() =~~= group_pairs(ext));
        }
        i += 1;
    }
    proof {
        assert(pdv.subrange(0, pdv.len() as int) =~= pdv);
    }
    entries
}

/// The protocol of an exchange, as far as the record format distinguishes
/// protocols; anything else is labeled as unknown.
pub enum ProtocolVersion {
    Http09,
    Http10,
    Http11,
    Http2,
    Http3,
    Unknown,
}

/// The label string a protocol is recorded under.
pub open spec fn protocol_label(v: ProtocolVersion) -> Seq<char> {
    match v {
        ProtocolVersion::Http09 => "HTTP/0.9"@,
        ProtocolVersion::Http10 => "HTTP/1.0"@,
        ProtocolVersion::Http11 => "HTTP/1.1"@,
        ProtocolVersion::Http2 => "HTTP/2.0"@,
        ProtocolVersion::Http3 => "HTTP/3.0"@,
        ProtocolVersion::Unknown => "Unknown HTTP Protocol"@,
    }
}

/// The label string a protocol is recorded under.
pub fn protocol_label_str(v: &ProtocolVersion) -> (s: &'static str)
    ensures
        s@ == protocol_label(*v),
{
    match v {
        ProtocolVersion::Http09 => "HTTP/0.9",
        ProtocolVersion::Http10 => "HTTP/1.0",
        ProtocolVersion::Http11 => "HTTP/1.1",
        ProtocolVersion::Http2 => "HTTP/2.0",
        ProtocolVersion::Http3 => "HTTP/3.0",
        ProtocolVersion::Unknown => "Unknown HTTP Protocol",
    }
}

/// The captured request half of an exchange.
pub struct RequestInfo {
    pub http_protocol: String,
    pub headers: Vec<HeaderEntry>,
    pub method: String,
    pub body: String,
    pub ip: String,
    pub resource: String,
    pub uri: String,
}

/// The mathematical model of a captured request.
#[verifier::ext_equal]
pub struct RequestInfoModel {
    pub http_protocol: Seq<char>,
    pub headers: Seq<HeaderEntryModel>,
    pub method: Seq<char>,
    pub body: Seq<char>,
    pub ip: Seq<char>,
    pub resource: Seq<char>,
    pub uri: Seq<char>,
}

impl View for RequestInfo {
    type V = RequestInfoModel;

    open spec fn view(&self) -> RequestInfoModel {
        RequestInfoModel {
            http_protocol: self.http_protocol@,
            headers: self.headers.deep_view(),
            method: self.method@,
            body: self.body@,
            ip: self.ip@,
            resource: self.resource@,
            uri: self.uri@,
        }
    }
}

/// The captured response half of an exchange.
pub struct ResponseInfo {
    pub status_code: u16,
    pub headers: Vec<HeaderEntry>,
    pub body: String,
}

/// The mathematical model of a captured response.
#[verifier::ext_equal]
pub struct ResponseInfoModel {
    pub status_code: u16,
    pub headers: Seq<HeaderEntryModel>,
    pub body: Seq<char>,
}

impl View for ResponseInfo {
    type V = ResponseInfoModel;

    open spec fn view(&self) -> ResponseInfoModel {
        ResponseInfoModel {
            status_code: self.status_code,
            headers: self.headers.deep_view(),
            body: self.body@,
        }
    }
}

/// One immutable telemetry record, produced once per completed exchange.
pub struct TelemetryRecord {
    pub version: String,
    pub date_created: u64,
    pub execution_time: u64,
    pub request: RequestInfo,
    pub response: ResponseInfo,
}

/// The mathematical model of a telemetry record.
#[verifier::ext_equal]
pub struct TelemetryRecordModel {
    pub version: Seq<char>,
    pub date_created: u64,
    pub execution_time: u64,
    pub request: RequestInfoModel,
    pub response: ResponseInfoModel,
}

impl View for TelemetryRecord {
    type V = TelemetryRecordModel;

    open spec fn view(&self) -> TelemetryRecordModel {
        TelemetryRecordModel {
            version: self.version@,
            date_created: self.date_created,
            execution_time: self.execution_time,
            request: self.request@,
            response: self.response@,
        }
    }
}

/// The constant identifying the record format.
pub open spec fn schema_version() -> Seq<char> {
    "1.0.0-alpha"@
}

/// A full URI put back together from its captured parts.
pub open spec fn uri_of(scheme: Seq<char>, host: Seq<char>, path: Seq<char>) -> Seq<char> {
    scheme + "://"@ + host + path
}

/// The elapsed milliseconds of an exchange, clamped to zero when the clock
/// ran backwards, so a duration is never negative.
pub open spec fn elapsed_millis(start_ms: u64, end_ms: u64) -> u64 {
    if end_ms >= start_ms {
        (end_ms - start_ms) as u64
    } else {
        0
    }
}

/// Assembles the request snapshot of an exchange: the protocol is mapped to
/// its label, the path is normalized into the templated resource, and the
/// full URI is rebuilt from scheme, host and path; everything else is stored
/// as captured.
pub fn build_request_info(
    protocol: ProtocolVersion,
    headers: Vec<HeaderEntry>,
    method: String,
    body: String,
    ip: String,
    scheme: &str,
    host: &str,
    path: &str,
) -> (r: RequestInfo)
    ensures
        r@.http_protocol == protocol_label(protocol),
        r@.headers == headers.deep_view(),
        r@.method == method@,
        r@.body == body@,
        r@.ip == ip@,
        is_normalization_of(path@, r@.resource),
        r@.uri == uri_of(scheme@, host@, path@),
{
    let http_protocol = protocol_label_str(&protocol).to_owned();
    let resource = convert_path_to_resource(path);
    let mut uri = scheme.to_owned();
    uri.append("://");
    uri.append(host);
    uri.append(path);
    proof {
        assert(uri@ =~= uri_of(scheme@, host@, path@));
    }
    RequestInfo { http_protocol, headers, method, body, ip, resource, uri }
}

/// Assembles one telemetry record from the two snapshots of an exchange and
/// its start and end timestamps in epoch milliseconds. The execution time is
/// the elapsed span, clamped to zero when the end lies before the start.
pub fn build_record(
    request: RequestInfo,
    response: ResponseInfo,
    start_ms: u64,
    end_ms: u64,
) -> (rec: TelemetryRecord)
    ensures
        rec@.version == schema_version(),
        rec@.date_created == start_ms,
        rec@.execution_time == elapsed_millis(start_ms, end_ms),
        rec@.request == request@,
        rec@.response == response@,
{
    let execution_time: u64 = if end_ms >= start_ms {
        end_ms - start_ms
    } else {
        0
    };
    TelemetryRecord {
        version: String::from_str("1.0.0-alpha"),
        date_created: start_ms,
        execution_time,
        request,
        response,
    }
}

} // verus!
