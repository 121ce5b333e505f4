//! The config transformer: keeps only the "mixed" inbound listeners and
//! records the bind endpoint of the last one.

use vstd::prelude::*;
use crate::errors::Error;
use crate::jsonval::value_clone;
use crate::strutil::str_eq;
use crate::subscription::{InboundEntry, SubscriptionDoc};

verus! {

/// The bind endpoint of the retained "mixed" listener; empty when there is
/// none.
pub struct ControllerInfo {
    pub address: String,
    pub port: String,
}

impl Default for ControllerInfo {
    /// The empty endpoint.
    fn default() -> (r: Self)
        ensures
            r.address@ == Seq::<char>::empty(),
            r.port@ == Seq::<char>::empty(),
    {
        ControllerInfo { address: String::new(), port: String::new() }
    }
}

/// An inbound whose "type" field is exactly the string "mixed".
pub open spec fn is_mixed(e: InboundEntry) -> bool {
    e.kind matches Some(k) && k@ == "mixed"@
}

/// A "mixed" inbound that can feed the controller: both endpoint fields are
/// present.
pub open spec fn mixed_complete(e: InboundEntry) -> bool {
    e.listen is Some && e.port_text is Some
}

/// Some "mixed" entry lacks "listen" or "listen_port".
pub open spec fn bad_mixed(s: Seq<InboundEntry>) -> bool {
    exists|j: int| 0 <= j < s.len() && is_mixed(#[trigger] s[j]) && !mixed_complete(s[j])
}

/// The subsequence of "mixed" entries, in their original order.
pub open spec fn mixed_of(s: Seq<InboundEntry>) -> Seq<InboundEntry>
    decreases s.len(),
{
    if s.len() == 0 {
        Seq::empty()
    } else {
        mixed_of(s.drop_last()) + (if is_mixed(s.last()) {
            seq![s.last()]
        } else {
            Seq::empty()
        })
    }
}

/// The "listen" address of the last "mixed" entry; empty when there is none.
pub open spec fn ctrl_address(s: Seq<InboundEntry>) -> Seq<char>
    decreases s.len(),
{
    if s.len() == 0 {
        Seq::empty()
    } else if is_mixed(s.last()) {
        match s.last().listen {
            Some(l) => l@,
            None => Seq::empty(),
        }
    } else {
        ctrl_address(s.drop_last())
    }
}

/// The "listen_port" text of the last "mixed" entry; empty when there is
/// none.
pub open spec fn ctrl_port(s: Seq<InboundEntry>) -> Seq<char>
    decreases s.len(),
{
    if s.len() == 0 {
        Seq::empty()
    } else if is_mixed(s.last()) {
        match s.last().port_text {
            Some(p) => p@,
            None => Seq::empty(),
        }
    } else {
        ctrl_port(s.drop_last())
    }
}

proof fn lemma_prefix_step(s: Seq<InboundEntry>, i: int)
    requires
        0 <= i < s.len(),
    ensures
        mixed_of(s.take(i + 1)) == mixed_of(s.take(i)) + (if is_mixed(s[i]) {
            seq![s[i]]
        } else {
            Seq::empty()
        }),
        ctrl_address(s.take(i + 1)) == (if is_mixed(s[i]) {
            match s[i].listen {
                Some(l) => l@,
                None => Seq::<char>::empty(),
            }
        } else {
            ctrl_address(s.take(i))
        }),
        ctrl_port(s.take(i + 1)) == (if is_mixed(s[i]) {
            match s[i].port_text {
                Some(p) => p@,
                None => Seq::<char>::empty(),
            }
        } else {
            ctrl_port(s.take(i))
        }),
{
    let t = s.take(i + 1);
    assert(t.drop_last() =~= s.take(i));
    assert(t.last() == s[i]);
}

/// An equal copy of an optional string.
fn dup_opt_string(o: &Option<String>) -> (r: Option<String>)
    ensures
        r == *o,
{
    match o {
        None => None,
        Some(s) => Some(s.clone()),
    }
}

/// An equal copy of an inbound entry.
fn dup_entry(e: &InboundEntry) -> (r: InboundEntry)
    ensures
        r == *e,
{
    InboundEntry {
        kind: dup_opt_string(&e.kind),
        listen: dup_opt_string(&e.listen),
        port_text: dup_opt_string(&e.port_text),
        raw: value_clone(&e.raw),
    }
}

/// Whether the entry's "type" field equals "mixed".
fn entry_is_mixed(e: &InboundEntry) -> (r: bool)
    ensures
        r == is_mixed(*e),
{
    match &e.kind {
        None => false,
        Some(k) => str_eq(k.as_str(), "mixed"),
    }
}

/// Rewrites the document: the "inbounds" array is replaced by its "mixed"
/// entries alone, every other top-level entry is kept unchanged, and the
/// endpoint of the last "mixed" entry (or the empty default) is returned
/// beside it.
///
/// A document without an "inbounds" key is refused with `MissingInbounds`;
/// a "mixed" entry without "listen" or "listen_port" is refused with
/// `MalformedInbound`.
pub fn transform(doc: SubscriptionDoc) -> (r: Result<(SubscriptionDoc, ControllerInfo), Error>)
    ensures
        doc.inbounds is None <==> r == Err::<(SubscriptionDoc, ControllerInfo), Error>(
            Error::MissingInbounds,
        ),
        (doc.inbounds matches Some(ibs) && bad_mixed(ibs@)) <==> r == Err::<(
            SubscriptionDoc,
            ControllerInfo,
        ), Error>(Error::MalformedInbound),
        r is Err ==> r == Err::<(SubscriptionDoc, ControllerInfo), Error>(Error::MissingInbounds)
            || r == Err::<(SubscriptionDoc, ControllerInfo), Error>(Error::MalformedInbound),
        doc.inbounds matches Some(ibs) ==> (r matches Ok(out) ==> {
            &&& out.0.before@ == doc.before@
            &&& out.0.after@ == doc.after@
            &&& out.0.inbounds matches Some(fibs) && fibs@ == mixed_of(ibs@)
            &&& out.1.address@ == ctrl_address(ibs@)
            &&& out.1.port@ == ctrl_port(ibs@)
        }),
{
    let SubscriptionDoc { before, inbounds, after } = doc;
    let ibs = match inbounds {
        None => {
            return Err(Error::MissingInbounds);
        },
        Some(v) => v,
    };
    let mut fibs: Vec<InboundEntry> = Vec::new();
    let mut address: String = String::new();
    let mut port: String = String::new();
    let mut i: usize = 0;
    while i < ibs.len()
        invariant
            doc.inbounds == Some(ibs),
            i <= ibs@.len(),
            forall|j: int| 0 <= j < i && is_mixed(#[trigger] ibs@[j]) ==> mixed_complete(ibs@[j]),
            fibs@ == mixed_of(ibs@.take(i as int)),
            address@ == ctrl_address(ibs@.take(i as int)),
            port@ == ctrl_port(ibs@.take(i as int)),
        decreases ibs@.len() - i,
    {
        let e = &ibs[i];
        if entry_is_mixed(e) {
            let l = match &e.listen {
                None => {
                    assert(bad_mixed(ibs@)) by {
                        assert(is_mixed(ibs@[i as int]) && !mixed_complete(ibs@[i as int]));
                    }
                    return Err(Error::MalformedInbound);
                },
                Some(s) => s.clone(),
            };
            let p = match &e.port_text {
                None => {
                    assert(bad_mixed(ibs@)) by {
                        assert(is_mixed(ibs@[i as int]) && !mixed_complete(ibs@[i as int]));
                    }
                    return Err(Error::MalformedInbound);
                },
                Some(s) => s.clone(),
            };
            address = l;
            port = p;
            fibs.push(dup_entry(e));
        }
        proof {
            lemma_prefix_step(ibs@, i as int);
        }
        i += 1;
    }
    proof {
        assert(ibs@.take(ibs@.len() as int) =~= ibs@);
    }
    Ok((
        SubscriptionDoc { before, inbounds: Some(fibs), after },
        ControllerInfo { address, port },
    ))
}

/// Law: every entry of the rewritten "inbounds" array is a "mixed" entry and
/// stands, by value, in the original array.
pub proof fn lemma_mixed_subset(s: Seq<InboundEntry>)
    ensures
        forall|k: int| 0 <= k < mixed_of(s).len() ==> is_mixed(#[trigger] mixed_of(s)[k]),
        forall|k: int| 0 <= k < mixed_of(s).len() ==> s.contains(#[trigger] mixed_of(s)[k]),
    decreases s.len(),
{
    if s.len() > 0 {
        lemma_mixed_subset(s.drop_last());
        assert forall|k: int| 0 <= k < mixed_of(s).len() implies is_mixed(
            #[trigger] mixed_of(s)[k],
        ) && s.contains(mixed_of(s)[k]) by {
            let dl = s.drop_last();
            if k < mixed_of(dl).len() {
                assert(mixed_of(s)[k] == mixed_of(dl)[k]);
                assert(dl.contains(mixed_of(dl)[k]));
                let w = choose|w: int| 0 <= w < dl.len() && dl[w] == mixed_of(dl)[k];
                assert(s[w] == mixed_of(s)[k]);
            } else {
                assert(mixed_of(s)[k] == s.last());
                assert(s[s.len() - 1] == s.last());
            }
        }
    }
}

/// Law: with no "mixed" entry at all, the rewritten array is empty and the
/// controller endpoint is the empty default.
pub proof fn lemma_no_mixed(s: Seq<InboundEntry>)
    requires
        forall|j: int| 0 <= j < s.len() ==> !is_mixed(#[trigger] s[j]),
    ensures
        mixed_of(s) =~= Seq::<InboundEntry>::empty(),
        ctrl_address(s) == Seq::<char>::empty(),
        ctrl_port(s) == Seq::<char>::empty(),
    decreases s.len(),
{
    if s.len() > 0 {
        assert(!is_mixed(s[s.len() - 1]));
        lemma_no_mixed(s.drop_last());
    }
}

/// Law: with exactly one "mixed" entry, the rewritten array is exactly that
/// entry and the controller endpoint is its bind address and port text.
pub proof fn lemma_single_mixed(s: Seq<InboundEntry>, j: int)
    requires
        0 <= j < s.len(),
        is_mixed(s[j]),
        forall|k: int| 0 <= k < s.len() && k != j ==> !is_mixed(#[trigger] s[k]),
    ensures
        mixed_of(s) =~= seq![s[j]],
        ctrl_address(s) == (match s[j].listen {
            Some(l) => l@,
            None => Seq::<char>::empty(),
        }),
        ctrl_port(s) == (match s[j].port_text {
            Some(p) => p@,
            None => Seq::<char>::empty(),
        }),
    decreases s.len(),
{
    if j == s.len() - 1 {
        assert(s[j] == s.last());
        lemma_no_mixed(s.drop_last());
    } else {
        assert(!is_mixed(s.last()));
        lemma_single_mixed(s.drop_last(), j);
        assert(s.drop_last()[j] == s[j]);
    }
}

} // verus!
