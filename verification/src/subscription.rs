//! The typed view of a subscription document.
//!
//! A document is an ordered JSON object. The view keeps every key other than
//! "inbounds" opaque for verbatim round-tripping, and decodes the "inbounds"
//! array into entries that expose the three fields the transformer reads.

use vstd::prelude::*;
use crate::errors::Error;
use crate::strutil::str_eq;
use crate::jsonval::{
    arr_texts_of, json_arr, json_elem_field_str, json_elem_field_text, json_elem_is_object,
    json_field_str, json_field_text, json_is_object, json_text, parsed_entries, parsed_json,
    parse_json, value_clone, value_entries, value_is_object, value_items, field_str, field_text,
};

verus! {

/// One inbound listener, with the fields the transformer reads decoded to
/// plain values and the received JSON value kept for verbatim pass-through.
pub struct InboundEntry {
    /// The "type" field, when present (always a string in a decoded entry).
    pub kind: Option<String>,
    /// The "listen" field, when present and a string.
    pub listen: Option<String>,
    /// The compact text of the "listen_port" field, when present.
    pub port_text: Option<String>,
    /// The entry as received.
    pub raw: serde_json::Value,
}

/// The decoded fields agree with the received value.
pub open spec fn entry_decoded(e: InboundEntry) -> bool {
    &&& json_is_object(e.raw)
    &&& match e.kind {
        Some(k) => json_field_str(e.raw, "type"@) == Some(k@),
        None => json_field_text(e.raw, "type"@) is None,
    }
    &&& match e.listen {
        Some(l) => json_field_str(e.raw, "listen"@) == Some(l@),
        None => json_field_str(e.raw, "listen"@) is None,
    }
    &&& match e.port_text {
        Some(p) => json_field_text(e.raw, "listen_port"@) == Some(p@),
        None => json_field_text(e.raw, "listen_port"@) is None,
    }
}

/// Decodes one element of the "inbounds" array. An element that is not an
/// object, or whose "type" field is present but not a string, is malformed;
/// a missing "type", "listen" or "listen_port" is not an error here.
pub fn decode_inbound(item: serde_json::Value) -> (r: Result<InboundEntry, Error>)
    ensures
        r is Err <==> !json_is_object(item)
            || (json_field_text(item, "type"@) is Some && json_field_str(item, "type"@) is None),
        r matches Err(e) ==> e == Error::MalformedInbound,
        r matches Ok(en) ==> en.raw == item && entry_decoded(en),
{
    if !value_is_object(&item) {
        return Err(Error::MalformedInbound);
    }
    let kind: Option<String> = match field_text(&item, "type") {
        None => None,
        Some(_) => match field_str(&item, "type") {
            None => {
                return Err(Error::MalformedInbound);
            },
            Some(s) => Some(s),
        },
    };
    let listen = field_str(&item, "listen");
    let port_text = field_text(&item, "listen_port");
    Ok(InboundEntry { kind, listen, port_text, raw: item })
}

/// The subscription document: the top-level entries before the "inbounds"
/// key, the decoded inbound array (or `None` when the key is absent), and
/// the entries after it.
pub struct SubscriptionDoc {
    pub before: Vec<(String, serde_json::Value)>,
    pub inbounds: Option<Vec<InboundEntry>>,
    pub after: Vec<(String, serde_json::Value)>,
}

/// Every decoded inbound entry agrees with the JSON value it carries.
pub open spec fn doc_entries_decoded(doc: SubscriptionDoc) -> bool {
    match doc.inbounds {
        Some(ibs) => forall|k: int| 0 <= k < ibs@.len() ==> entry_decoded(#[trigger] ibs@[k]),
        None => true,
    }
}

/// The element at index `k` of the array value can be decoded: it is an
/// object whose "type" field, if present, is a string.
pub open spec fn elem_decodable(v: serde_json::Value, k: int) -> bool {
    json_elem_is_object(v, k) && !(json_elem_field_text(v, k, "type"@) is Some
        && json_elem_field_str(v, k, "type"@) is None)
}

/// The "inbounds" value is an array whose every element decodes.
pub open spec fn inbounds_decodable(v: serde_json::Value) -> bool {
    json_arr(v) matches Some(ts) && (forall|k: int| 0 <= k < ts.len() ==> elem_decodable(v, k))
}

/// The decoded entry's fields agree with the `k`-th element of the array
/// value.
pub open spec fn entry_matches_elem(e: InboundEntry, v: serde_json::Value, k: int) -> bool {
    &&& json_elem_is_object(v, k)
    &&& match e.kind {
        Some(s) => json_elem_field_str(v, k, "type"@) == Some(s@),
        None => json_elem_field_text(v, k, "type"@) is None,
    }
    &&& match e.listen {
        Some(s) => json_elem_field_str(v, k, "listen"@) == Some(s@),
        None => json_elem_field_str(v, k, "listen"@) is None,
    }
    &&& match e.port_text {
        Some(s) => json_elem_field_text(v, k, "listen_port"@) == Some(s@),
        None => json_elem_field_text(v, k, "listen_port"@) is None,
    }
}

/// `i` is the position of the first "inbounds" key among the entries.
pub open spec fn first_inbounds_at(s: Seq<(String, serde_json::Value)>, i: int) -> bool {
    &&& 0 <= i < s.len()
    &&& s[i].0@ == "inbounds"@
    &&& forall|j: int| 0 <= j < i ==> (#[trigger] s[j].0)@ != "inbounds"@
}

/// No entry carries the "inbounds" key.
pub open spec fn no_inbounds(s: Seq<(String, serde_json::Value)>) -> bool {
    forall|j: int| 0 <= j < s.len() ==> (#[trigger] s[j].0)@ != "inbounds"@
}

/// A copy of a top-level entry, equal to the original.
fn pair_dup(p: &(String, serde_json::Value)) -> (r: (String, serde_json::Value))
    ensures
        r == *p,
{
    (p.0.clone(), value_clone(&p.1))
}

/// Builds the typed view from the top-level entries of the decoded object.
///
/// Success is owed whenever there is no "inbounds" key; with one, the value
/// under it must be an array of decodable entries, and the failure is always
/// `MalformedInbound`.
pub fn doc_from_entries(entries: Vec<(String, serde_json::Value)>) -> (r: Result<
    SubscriptionDoc,
    Error,
>)
    ensures
        r matches Err(e) ==> e == Error::MalformedInbound,
        r matches Ok(doc) ==> (doc.inbounds is None <==> no_inbounds(entries@)),
        r matches Ok(doc) ==> (doc.inbounds is None ==> doc.after@.len() == 0),
        r matches Ok(doc) ==> doc_entries_decoded(doc),
        no_inbounds(entries@) ==> (r matches Ok(doc) && doc.before@ == entries@
            && doc.inbounds is None && doc.after@.len() == 0),
        forall|i: int|
            first_inbounds_at(entries@, i) ==> {
                &&& (r is Ok <==> inbounds_decodable(entries@[i].1))
                &&& r matches Ok(doc) ==> {
                    &&& doc.before@ == entries@.subrange(0, i)
                    &&& doc.after@ == entries@.subrange(i + 1, entries@.len() as int)
                    &&& json_arr(entries@[i].1) == arr_texts_of(json_text(entries@[i].1))
                    &&& doc.inbounds matches Some(ibs)
                        && json_arr(entries@[i].1) matches Some(ts)
                        && ibs@.len() == ts.len()
                        && (forall|k: int| 0 <= k < ibs@.len()
                            ==> entry_decoded(#[trigger] ibs@[k])
                                && json_text(ibs@[k].raw) == ts[k]
                                && entry_matches_elem(ibs@[k], entries@[i].1, k))
                }
            },
{
    let n = entries.len();
    let mut i: usize = 0;
    while i < n && !str_eq(entries[i].0.as_str(), "inbounds")
        invariant
            n == entries@.len(),
            0 <= i <= n,
            forall|j: int| 0 <= j < i ==> (#[trigger] entries@[j].0)@ != "inbounds"@,
        decreases n - i,
    {
        i += 1;
    }
    if i == n {
        return Ok(SubscriptionDoc { before: entries, inbounds: None, after: Vec::new() });
    }
    assert(first_inbounds_at(entries@, i as int));
    assert(forall|i2: int| first_inbounds_at(entries@, i2) ==> i2 == i as int);
    let ghost v = entries@[i as int].1;
    let items = match value_items(&entries[i].1) {
        None => {
            assert(!inbounds_decodable(v));
            return Err(Error::MalformedInbound);
        },
        Some(it) => it,
    };
    let ghost ts = json_arr(v)->Some_0;
    let mut ibs: Vec<InboundEntry> = Vec::new();
    let mut k: usize = 0;
    while k < items.len()
        invariant
            first_inbounds_at(entries@, i as int),
            forall|i2: int| first_inbounds_at(entries@, i2) ==> i2 == i as int,
            v == entries@[i as int].1,
            json_arr(v) == Some(ts),
            json_arr(v) == arr_texts_of(json_text(v)),
            k <= items@.len(),
            ts.len() == items@.len(),
            forall|m: int| 0 <= m < items@.len() ==> ts[m] == json_text(#[trigger] items@[m]),
            forall|m: int| 0 <= m < items@.len()
                ==> json_is_object(#[trigger] items@[m]) == json_elem_is_object(v, m),
            forall|m: int, key: Seq<char>| 0 <= m < items@.len()
                ==> #[trigger] json_field_text(items@[m], key) == json_elem_field_text(v, m, key),
            forall|m: int, key: Seq<char>| 0 <= m < items@.len()
                ==> #[trigger] json_field_str(items@[m], key) == json_elem_field_str(v, m, key),
            ibs@.len() == k,
            forall|m: int| 0 <= m < k
                ==> entry_decoded(#[trigger] ibs@[m]) && json_text(ibs@[m].raw) == ts[m]
                    && entry_matches_elem(ibs@[m], v, m) && elem_decodable(v, m),
        decreases items@.len() - k,
    {
        let item = value_clone(&items[k]);
        proof {
            assert(json_field_text(items@[k as int], "type"@) == json_elem_field_text(
                v,
                k as int,
                "type"@,
            ));
            assert(json_field_str(items@[k as int], "type"@) == json_elem_field_str(
                v,
                k as int,
                "type"@,
            ));
            assert(json_field_str(items@[k as int], "listen"@) == json_elem_field_str(
                v,
                k as int,
                "listen"@,
            ));
            assert(json_field_text(items@[k as int], "listen_port"@) == json_elem_field_text(
                v,
                k as int,
                "listen_port"@,
            ));
        }
        match decode_inbound(item) {
            Err(e) => {
                proof {
                    assert(!elem_decodable(v, k as int));
                    assert(!inbounds_decodable(v));
                }
                return Err(e);
            },
            Ok(en) => {
                proof {
                    assert(elem_decodable(v, k as int));
                    assert(entry_matches_elem(en, v, k as int));
                }
                ibs.push(en);
            },
        }
        k += 1;
    }
    proof {
        assert forall|m: int| 0 <= m < ts.len() implies elem_decodable(v, m) by {
            assert(entry_decoded(ibs@[m]));
        }
        assert(inbounds_decodable(v));
    }
    let mut before: Vec<(String, serde_json::Value)> = Vec::new();
    let mut j: usize = 0;
    while j < i
        invariant
            i < entries@.len(),
            j <= i,
            before@ == entries@.subrange(0, j as int),
        decreases i - j,
    {
        before.push(pair_dup(&entries[j]));
        assert(before@ == entries@.subrange(0, j as int + 1));
        j += 1;
    }
    let mut after: Vec<(String, serde_json::Value)> = Vec::new();
    let mut m: usize = i + 1;
    while m < n
        invariant
            n == entries@.len(),
            i + 1 <= m <= n,
            after@ == entries@.subrange(i as int + 1, m as int),
        decreases n - m,
    {
        after.push(pair_dup(&entries[m]));
        assert(after@ == entries@.subrange(i as int + 1, m as int + 1));
        m += 1;
    }
    Ok(SubscriptionDoc { before, inbounds: Some(ibs), after })
}

/// The (key, compact value text) views of a sequence of top-level entries.
pub open spec fn entry_views(s: Seq<(String, serde_json::Value)>) -> Seq<(Seq<char>, Seq<char>)> {
    s.map(|i: int, p: (String, serde_json::Value)| (p.0@, json_text(p.1)))
}

/// No pair carries the "inbounds" key.
pub open spec fn no_inbounds_views(pes: Seq<(Seq<char>, Seq<char>)>) -> bool {
    forall|j: int| 0 <= j < pes.len() ==> (#[trigger] pes[j]).0 != "inbounds"@
}

/// `i` is the position of the first "inbounds" key among the pairs.
pub open spec fn first_inbounds_views_at(pes: Seq<(Seq<char>, Seq<char>)>, i: int) -> bool {
    &&& 0 <= i < pes.len()
    &&& pes[i].0 == "inbounds"@
    &&& forall|j: int| 0 <= j < i ==> (#[trigger] pes[j]).0 != "inbounds"@
}

/// The decoded document is the body's top-level entries split at the first
/// "inbounds" key; the kept raw inbound values are, by their compact texts,
/// the elements of the array written under that key.
pub open spec fn doc_matches_views(
    doc: SubscriptionDoc,
    pes: Seq<(Seq<char>, Seq<char>)>,
) -> bool {
    &&& (doc.inbounds is None <==> no_inbounds_views(pes))
    &&& (no_inbounds_views(pes) ==> entry_views(doc.before@) == pes && doc.after@.len() == 0)
    &&& forall|i: int|
        first_inbounds_views_at(pes, i) ==> {
            &&& entry_views(doc.before@) == pes.take(i)
            &&& entry_views(doc.after@) == pes.skip(i + 1)
            &&& doc.inbounds matches Some(ibs) && arr_texts_of(pes[i].1) matches Some(ts)
                && ibs@.len() == ts.len()
                && (forall|k: int| 0 <= k < ibs@.len()
                    ==> json_text((#[trigger] ibs@[k]).raw) == ts[k])
        }
}

/// Everything the decode stage promises of its result, relative to the
/// response body alone.
pub open spec fn decode_post(body: Seq<char>, r: Result<SubscriptionDoc, Error>) -> bool {
    &&& (r == Err::<SubscriptionDoc, Error>(Error::MalformedSubscription) <==> parsed_entries(
        body,
    ) is None)
    &&& (r matches Err(e) ==> e == Error::MalformedSubscription || e == Error::MalformedInbound)
    &&& ((parsed_entries(body) matches Some(pes) && no_inbounds_views(pes)) ==> r is Ok)
    &&& (r matches Ok(doc) ==> parsed_entries(body) matches Some(pes) && doc_matches_views(
        doc,
        pes,
    ) && doc_entries_decoded(doc))
}

/// Decodes a fetched response body: the body must parse as a JSON object.
/// `decode_post` fixes the result against the body: `MalformedSubscription`
/// exactly when the body is not a JSON object, success owed whenever the
/// object has no "inbounds" key, and every successful document is the body's
/// entries split at that key.
pub fn decode_subscription(body: &str) -> (r: Result<SubscriptionDoc, Error>)
    ensures
        parsed_json(body@) is None ==> r == Err::<SubscriptionDoc, Error>(
            Error::MalformedSubscription,
        ),
        r is Ok ==> parsed_json(body@) is Some,
        r matches Err(e) ==> e == Error::MalformedSubscription || e == Error::MalformedInbound,
        r matches Ok(doc) ==> (doc.inbounds is None ==> doc.after@.len() == 0),
        r matches Ok(doc) ==> doc_entries_decoded(doc),
        decode_post(body@, r),
{
    match parse_json(body) {
        None => Err(Error::MalformedSubscription),
        Some(v) => match value_entries(&v) {
            None => Err(Error::MalformedSubscription),
            Some(entries) => {
                let ghost pes = parsed_entries(body@)->Some_0;
                proof {
                    assert(pes =~= entry_views(entries@));
                }
                let r = doc_from_entries(entries);
                proof {
                    lemma_views_bridge(entries@, pes, r);
                }
                r
            },
        },
    }
}

proof fn lemma_views_bridge(
    entries: Seq<(String, serde_json::Value)>,
    pes: Seq<(Seq<char>, Seq<char>)>,
    r: Result<SubscriptionDoc, Error>,
)
    requires
        pes == entry_views(entries),
        r matches Err(e) ==> e == Error::MalformedInbound,
        r matches Ok(doc) ==> (doc.inbounds is None <==> no_inbounds(entries)),
        r matches Ok(doc) ==> (doc.inbounds is None ==> doc.after@.len() == 0),
        no_inbounds(entries) ==> (r matches Ok(doc) && doc.before@ == entries
            && doc.inbounds is None && doc.after@.len() == 0),
        forall|i: int|
            first_inbounds_at(entries, i) ==> (r matches Ok(doc) ==> {
                &&& doc.before@ == entries.subrange(0, i)
                &&& doc.after@ == entries.subrange(i + 1, entries.len() as int)
                &&& json_arr(entries[i].1) == arr_texts_of(json_text(entries[i].1))
                &&& doc.inbounds matches Some(ibs) && json_arr(entries[i].1) matches Some(ts)
                    && ibs@.len() == ts.len()
                    && (forall|k: int| 0 <= k < ibs@.len()
                        ==> json_text((#[trigger] ibs@[k]).raw) == ts[k])
            }),
    ensures
        no_inbounds_views(pes) ==> r is Ok,
        r matches Ok(doc) ==> doc_matches_views(doc, pes),
{
    assert(forall|j: int| 0 <= j < pes.len() ==> #[trigger] pes[j] == (
        entries[j].0@,
        json_text(entries[j].1),
    ));
    assert(no_inbounds_views(pes) <==> no_inbounds(entries)) by {
        if no_inbounds_views(pes) {
            assert forall|j: int| 0 <= j < entries.len() implies (
                #[trigger] entries[j].0)@ != "inbounds"@ by {
                assert(pes[j].0 == entries[j].0@);
            }
        }
        if no_inbounds(entries) {
            assert forall|j: int| 0 <= j < pes.len() implies (#[trigger] pes[j]).0
                != "inbounds"@ by {
                assert(entries[j].0@ != "inbounds"@);
            }
        }
    }
    if r is Ok {
        let doc = r->Ok_0;
        if no_inbounds(entries) {
            assert(entry_views(doc.before@) =~= pes);
        }
        assert forall|i: int| first_inbounds_views_at(pes, i) implies {
            &&& entry_views(doc.before@) == pes.take(i)
            &&& entry_views(doc.after@) == pes.skip(i + 1)
            &&& doc.inbounds matches Some(ibs) && arr_texts_of(pes[i].1) matches Some(ts)
                && ibs@.len() == ts.len()
                && (forall|k: int| 0 <= k < ibs@.len()
                    ==> json_text((#[trigger] ibs@[k]).raw) == ts[k])
        } by {
            assert(first_inbounds_at(entries, i)) by {
                assert(pes[i].0 == entries[i].0@);
                assert forall|j: int| 0 <= j < i implies (#[trigger] entries[j].0)@
                    != "inbounds"@ by {
                    assert(pes[j].0 == entries[j].0@);
                }
            }
            assert(entry_views(doc.before@) =~= pes.take(i));
            assert(entry_views(doc.after@) =~= pes.skip(i + 1));
            assert(pes[i].1 == json_text(entries[i].1));
        }
    }
}

/// The whole fetch stage, with the network handed in as plain values: a
/// non-success status is a `FetchError` carrying that status, and a success
/// body must decode as a subscription document.
pub fn subscription_from_response(status: u16, body: &str) -> (r: Result<SubscriptionDoc, Error>)
    ensures
        !(200 <= status < 300) <==> r == Err::<SubscriptionDoc, Error>(Error::FetchError(status)),
        (200 <= status < 300 && parsed_json(body@) is None) ==> r == Err::<SubscriptionDoc, Error>(
            Error::MalformedSubscription,
        ),
        r is Ok ==> 200 <= status < 300 && parsed_json(body@) is Some,
        r matches Ok(doc) ==> doc_entries_decoded(doc),
        200 <= status < 300 ==> decode_post(body@, r),
{
    if !(200 <= status && status < 300) {
        Err(Error::FetchError(status))
    } else {
        decode_subscription(body)
    }
}

} // verus!
