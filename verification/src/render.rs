//! Serialization of the rewritten document.
//!
//! The output is the pretty-printed JSON object serde_json would write for
//! the rewritten mapping: two-space indentation at every depth, every
//! top-level entry on its own line, one "inbounds" element per line. Keys
//! are quoted and escaped exactly as serde_json writes strings, and each
//! value is serde_json's own pretty form, re-indented for the depth at
//! which it stands.

use vstd::prelude::*;
use vstd::string::StringExecFns;
use crate::jsonval::{json_pretty, value_pretty};
use crate::subscription::{InboundEntry, SubscriptionDoc};

verus! {

/// What `serde_json::to_string` makes of a string: its quoted, escaped JSON
/// form, a function of the characters alone.
pub uninterp spec fn json_quoted(s: Seq<char>) -> Seq<char>;

/// Relies on `serde_json::to_string` for `&str`: the quoted, escaped JSON
/// form of the string (for a string this serialization cannot fail).
#[verifier::external_body]
fn quote_str(s: &str) -> (r: String)
    ensures
        r@ == json_quoted(s@),
{
    match serde_json::to_string(s) {
        Ok(q) => q,
        Err(_) => String::new(),
    }
}

/// The text with the pad inserted after every newline: a pretty-printed
/// value re-indented for the depth at which it is embedded.
pub open spec fn indented(t: Seq<char>, pad: Seq<char>) -> Seq<char>
    decreases t.len(),
{
    if t.len() == 0 {
        Seq::empty()
    } else if t.last() == '\n' {
        indented(t.drop_last(), pad) + seq![t.last()] + pad
    } else {
        indented(t.drop_last(), pad) + seq![t.last()]
    }
}

proof fn lemma_indented_step(t: Seq<char>, pad: Seq<char>, i: int)
    requires
        0 <= i < t.len(),
    ensures
        indented(t.take(i + 1), pad) == if t[i] == '\n' {
            indented(t.take(i), pad) + seq![t[i]] + pad
        } else {
            indented(t.take(i), pad) + seq![t[i]]
        },
{
    let s = t.take(i + 1);
    assert(s.drop_last() =~= t.take(i));
    assert(s.last() == t[i]);
}

/// Re-indents a pretty-printed value: the pad follows every newline.
fn indent_text(t: &str, pad: &str) -> (r: String)
    ensures
        r@ == indented(t@, pad@),
{
    let n = t.unicode_len();
    let mut out = String::new();
    let mut start: usize = 0;
    let mut j: usize = 0;
    while j < n
        invariant
            n == t@.len(),
            0 <= start <= j <= n,
            forall|m: int| start <= m < j ==> t@[m] != '\n',
            out@ + t@.subrange(start as int, j as int) == indented(t@.take(j as int), pad@),
        decreases n - j,
    {
        let c = t.get_char(j);
        proof {
            lemma_indented_step(t@, pad@, j as int);
        }
        if c == '\n' {
            let run = t.substring_char(start, j);
            out.append(run);
            out.append("\n");
            out.append(pad);
            proof {
                reveal_strlit("\n");
                assert("\n"@ =~= seq!['\n']);
                assert(out@ =~= indented(t@.take(j as int + 1), pad@));
            }
            start = j + 1;
        } else {
            proof {
                assert(out@ + t@.subrange(start as int, j as int + 1) =~= indented(
                    t@.take(j as int + 1),
                    pad@,
                ));
            }
        }
        j += 1;
    }
    let tail = t.substring_char(start, n);
    out.append(tail);
    proof {
        assert(t@.take(n as int) =~= t@);
    }
    out
}

/// The parts joined by the separator.
pub open spec fn joined(parts: Seq<Seq<char>>, sep: Seq<char>) -> Seq<char>
    decreases parts.len(),
{
    if parts.len() == 0 {
        Seq::empty()
    } else if parts.len() == 1 {
        parts.last()
    } else {
        joined(parts.drop_last(), sep) + sep + parts.last()
    }
}

proof fn lemma_joined_step(parts: Seq<Seq<char>>, sep: Seq<char>, i: int)
    requires
        0 <= i < parts.len(),
    ensures
        joined(parts.take(i + 1), sep) == if i == 0 {
            parts[0]
        } else {
            joined(parts.take(i), sep) + sep + parts[i]
        },
{
    let t = parts.take(i + 1);
    assert(t.drop_last() =~= parts.take(i));
    assert(t.last() == parts[i]);
}

/// One kept top-level entry, as a line of the output object: its value is
/// serde_json's pretty form, re-indented one level deep.
pub open spec fn plain_entry_text(k: Seq<char>, pretty: Seq<char>) -> Seq<char> {
    "  "@ + json_quoted(k) + ": "@ + indented(pretty, "  "@)
}

/// The rewritten "inbounds" array: empty brackets, or one element per line,
/// each element's pretty form re-indented two levels deep.
pub open spec fn inbounds_array_text(ts: Seq<Seq<char>>) -> Seq<char> {
    if ts.len() == 0 {
        "[]"@
    } else {
        "[\n    "@ + joined(ts, ",\n    "@) + "\n  ]"@
    }
}

/// The lines of the output object, in document order.
pub open spec fn entry_texts(doc: SubscriptionDoc) -> Seq<Seq<char>> {
    doc.before@.map(|i: int, p: (String, serde_json::Value)| plain_entry_text(p.0@, json_pretty(p.1)))
        + (match doc.inbounds {
        Some(ibs) => seq![
            "  \"inbounds\": "@ + inbounds_array_text(
                ibs@.map(|i: int, e: InboundEntry| indented(json_pretty(e.raw), "    "@)),
            ),
        ],
        None => Seq::empty(),
    }) + doc.after@.map(
        |i: int, p: (String, serde_json::Value)| plain_entry_text(p.0@, json_pretty(p.1)),
    )
}

/// The whole output document.
pub open spec fn render_spec(doc: SubscriptionDoc) -> Seq<char> {
    if entry_texts(doc).len() == 0 {
        "{}"@
    } else {
        "{\n"@ + joined(entry_texts(doc), ",\n"@) + "\n}"@
    }
}

/// Law: round trip — every top-level entry of the document other than
/// "inbounds" stands, as its own unchanged line, among the lines of the
/// rendered output.
pub proof fn lemma_round_trip(doc: SubscriptionDoc)
    ensures
        forall|j: int| 0 <= j < doc.before@.len() ==> entry_texts(doc).contains(
            plain_entry_text((#[trigger] doc.before@[j]).0@, json_pretty(doc.before@[j].1)),
        ),
        forall|j: int| 0 <= j < doc.after@.len() ==> entry_texts(doc).contains(
            plain_entry_text((#[trigger] doc.after@[j]).0@, json_pretty(doc.after@[j].1)),
        ),
{
    let all = entry_texts(doc);
    let nb = doc.before@.len() as int;
    let mid: int = if doc.inbounds is Some {
        1
    } else {
        0
    };
    assert forall|j: int| 0 <= j < doc.before@.len() implies all.contains(
        plain_entry_text((#[trigger] doc.before@[j]).0@, json_pretty(doc.before@[j].1)),
    ) by {
        assert(all[j] == plain_entry_text(doc.before@[j].0@, json_pretty(doc.before@[j].1)));
    }
    assert forall|j: int| 0 <= j < doc.after@.len() implies all.contains(
        plain_entry_text((#[trigger] doc.after@[j]).0@, json_pretty(doc.after@[j].1)),
    ) by {
        assert(all[nb + mid + j] == plain_entry_text(
            doc.after@[j].0@,
            json_pretty(doc.after@[j].1),
        ));
    }
}

/// One output line for a kept top-level entry.
fn plain_entry_line(p: &(String, serde_json::Value)) -> (r: String)
    ensures
        r@ == plain_entry_text(p.0@, json_pretty(p.1)),
{
    let mut line: String = "  ".to_owned();
    let q = quote_str(p.0.as_str());
    line.append(q.as_str());
    line.append(": ");
    let t = value_pretty(&p.1);
    let ind = indent_text(t.as_str(), "  ");
    line.append(ind.as_str());
    line
}

/// The output text of the rewritten "inbounds" array.
fn inbounds_line(ibs: &Vec<InboundEntry>) -> (r: String)
    ensures
        r@ == "  \"inbounds\": "@ + inbounds_array_text(
            ibs@.map(|i: int, e: InboundEntry| indented(json_pretty(e.raw), "    "@)),
        ),
{
    let ghost tex = ibs@.map(|i: int, e: InboundEntry| indented(json_pretty(e.raw), "    "@));
    if ibs.len() == 0 {
        let mut line: String = "  \"inbounds\": ".to_owned();
        line.append("[]");
        assert(tex.len() == 0);
        return line;
    }
    let mut out: String = "  \"inbounds\": ".to_owned();
    out.append("[\n    ");
    let mut i: usize = 0;
    while i < ibs.len()
        invariant
            tex == ibs@.map(|k: int, e: InboundEntry| indented(json_pretty(e.raw), "    "@)),
            tex.len() == ibs@.len(),
            0 <= i <= ibs@.len(),
            i == 0 ==> out@ == "  \"inbounds\": "@ + "[\n    "@,
            i > 0 ==> out@ == "  \"inbounds\": "@ + "[\n    "@ + joined(
                tex.take(i as int),
                ",\n    "@,
            ),
        decreases ibs@.len() - i,
    {
        if i > 0 {
            out.append(",\n    ");
        }
        let t = value_pretty(&ibs[i].raw);
        let ind = indent_text(t.as_str(), "    ");
        out.append(ind.as_str());
        proof {
            assert(tex[i as int] == indented(json_pretty(ibs@[i as int].raw), "    "@));
            lemma_joined_step(tex, ",\n    "@, i as int);
        }
        i += 1;
    }
    out.append("\n  ]");
    proof {
        assert(tex.take(tex.len() as int) =~= tex);
    }
    out
}

/// Serializes the document. The result is one JSON object holding exactly
/// the document's entries, in order, in serde_json's pretty layout.
pub fn render_config(doc: &SubscriptionDoc) -> (r: String)
    ensures
        r@ == render_spec(*doc),
{
    let ghost all = entry_texts(*doc);
    let mut parts: Vec<String> = Vec::new();
    let mut i: usize = 0;
    while i < doc.before.len()
        invariant
            all == entry_texts(*doc),
            0 <= i <= doc.before@.len(),
            parts@.len() == i,
            forall|j: int| 0 <= j < i ==> (#[trigger] parts@[j])@ == all[j],
        decreases doc.before@.len() - i,
    {
        let line = plain_entry_line(&doc.before[i]);
        parts.push(line);
        i += 1;
    }
    match &doc.inbounds {
        Some(ibs) => {
            let line = inbounds_line(ibs);
            assert(all[doc.before@.len() as int] == line@);
            parts.push(line);
        },
        None => {},
    }
    let ghost base = parts@.len() as int;
    let mut m: usize = 0;
    while m < doc.after.len()
        invariant
            all == entry_texts(*doc),
            base == all.len() - doc.after@.len(),
            0 <= m <= doc.after@.len(),
            parts@.len() == base + m,
            forall|j: int| 0 <= j < parts@.len() ==> (#[trigger] parts@[j])@ == all[j],
        decreases doc.after@.len() - m,
    {
        let line = plain_entry_line(&doc.after[m]);
        assert(all[base + m as int] == line@);
        parts.push(line);
        m += 1;
    }
    let ghost ptex = parts@.map(|k: int, p: String| p@);
    proof {
        assert(ptex =~= all);
    }
    if parts.len() == 0 {
        return "{}".to_owned();
    }
    let mut out: String = "{\n".to_owned();
    let mut k: usize = 0;
    while k < parts.len()
        invariant
            ptex == parts@.map(|k2: int, p: String| p@),
            ptex.len() == parts@.len(),
            0 < parts@.len(),
            0 <= k <= parts@.len(),
            k == 0 ==> out@ == "{\n"@,
            k > 0 ==> out@ == "{\n"@ + joined(ptex.take(k as int), ",\n"@),
        decreases parts@.len() - k,
    {
        if k > 0 {
            out.append(",\n");
        }
        out.append(parts[k].as_str());
        proof {
            assert(ptex[k as int] == parts@[k as int]@);
            lemma_joined_step(ptex, ",\n"@, k as int);
        }
        k += 1;
    }
    out.append("\n}");
    proof {
        assert(ptex.take(ptex.len() as int) =~= ptex);
    }
    out
}

} // verus!
