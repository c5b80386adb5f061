//! The text of a request on the wire: a JSON object tagged by `"type"`, with
//! the variant's fields beside the tag, keys as sixteen uppercase hex digits.

use vstd::prelude::*;
use vstd::utf8::is_ascii_chars;
use crate::query::{encode_key_text, upper_hex, Key, Request};

verus! {

/// Bytes of ASCII text, one per character.
pub open spec fn ascii(s: Seq<char>) -> Seq<u8> {
    Seq::new(s.len(), |i: int| s[i] as u8)
}

/// What serde_json writes for a string: the JSON string literal holding it.
pub uninterp spec fn json_string(s: Seq<char>) -> Seq<u8>;

/// Decimal digits of `n`, most significant first, without leading zeros.
pub open spec fn decimal(n: nat) -> Seq<char>
    decreases n,
{
    if n < 10 {
        seq![((n + 48) as u8) as char]
    } else {
        decimal(n / 10).push((((n % 10) + 48) as u8) as char)
    }
}

/// A key as a JSON string: its sixteen uppercase hex digits in quotes.
pub open spec fn key_json(k: Key) -> Seq<u8> {
    seq![34u8] + ascii(upper_hex(k@)) + seq![34u8]
}

/// The wire text of a request.
pub open spec fn request_json(r: Request) -> Seq<u8> {
    match r {
        Request::GetItem(i) => ascii("{\"type\":\"GetItem\",\"table_id\":"@) + key_json(i.table_id)
            + ascii(",\"key\":"@) + key_json(i.key) + ascii("}"@),
        Request::PutItem(i) => ascii("{\"type\":\"PutItem\",\"table_id\":"@) + key_json(i.table_id)
            + ascii(",\"item\":{\"key\":"@) + key_json(i.item.key) + ascii(",\"value\":"@)
            + json_string(i.item.value@) + ascii("}}"@),
        Request::ScanItem(i) => ascii("{\"type\":\"ScanItem\",\"table_id\":"@) + key_json(
            i.table_id,
        ) + ascii(",\"start\":"@) + match i.start {
            Some(k) => key_json(k),
            None => ascii("null"@),
        } + ascii(",\"backward\":"@) + if i.backward {
            ascii("true"@)
        } else {
            ascii("false"@)
        } + ascii(",\"limit\":"@) + ascii(decimal(i.limit as nat)) + ascii("}"@),
    }
}

/// Relies on serde_json::to_vec on a `str`: the JSON string literal for it,
/// with quotes and escapes; none where serde_json reports an error.
#[verifier::external_body]
fn json_quote(s: &str) -> (r: Option<Vec<u8>>)
    ensures
        r matches Some(v) ==> v@ == json_string(s@),
{
    serde_json::to_vec(s).ok()
}

/// Relies on `usize`'s `ToString`: plain decimal digits.
#[verifier::external_body]
fn decimal_text(n: usize) -> (r: String)
    ensures
        r@ == decimal(n as nat),
{
    n.to_string()
}

proof fn lemma_decimal_ascii(n: nat)
    ensures
        is_ascii_chars(decimal(n)),
    decreases n,
{
    if n >= 10 {
        lemma_decimal_ascii(n / 10);
    }
}

/// Appends the bytes of ASCII text.
fn push_ascii(out: &mut Vec<u8>, s: &str)
    requires
        is_ascii_chars(s@),
    ensures
        final(out)@ == old(out)@ + ascii(s@),
{
    proof {
        vstd::string::is_ascii_spec_bytes(s);
    }
    let b = s.as_bytes();
    assert(b@ == ascii(s@));
    let mut i: usize = 0;
    while i < b.len()
        invariant
            0 <= i <= b@.len(),
            b@ == ascii(s@),
            out@ == old(out)@ + b@.subrange(0, i as int),
        decreases b@.len() - i,
    {
        out.push(b[i]);
        i = i + 1;
        assert(out@ =~= old(out)@ + b@.subrange(0, i as int));
    }
    assert(b@.subrange(0, i as int) =~= b@);
}

/// Appends a key as a JSON string.
fn push_key(out: &mut Vec<u8>, k: &Key)
    ensures
        final(out)@ == old(out)@ + key_json(*k),
{
    let t = encode_key_text(k);
    proof {
        crate::query::lemma_key_text_round_trip(*k);
    }
    out.push(34u8);
    push_ascii(out, t.as_str());
    out.push(34u8);
    assert(out@ =~= old(out)@ + key_json(*k));
}

/// The wire text of a request: a JSON object whose `"type"` names the
/// variant, followed by the variant's fields in declaration order. None only
/// where serde_json fails to quote the value of an item to store.
pub fn encode_request(request: &Request) -> (r: Option<Vec<u8>>)
    ensures
        r matches Some(v) ==> v@ == request_json(*request),
        !(request is PutItem) ==> r is Some,
{
    let mut out: Vec<u8> = Vec::new();
    match request {
        Request::GetItem(i) => {
            proof {
                reveal_strlit("{\"type\":\"GetItem\",\"table_id\":");
                reveal_strlit(",\"key\":");
                reveal_strlit("}");
            }
            push_ascii(&mut out, "{\"type\":\"GetItem\",\"table_id\":");
            push_key(&mut out, &i.table_id);
            push_ascii(&mut out, ",\"key\":");
            push_key(&mut out, &i.key);
            push_ascii(&mut out, "}");
        },
        Request::PutItem(i) => {
            proof {
                reveal_strlit("{\"type\":\"PutItem\",\"table_id\":");
                reveal_strlit(",\"item\":{\"key\":");
                reveal_strlit(",\"value\":");
                reveal_strlit("}}");
            }
            push_ascii(&mut out, "{\"type\":\"PutItem\",\"table_id\":");
            push_key(&mut out, &i.table_id);
            push_ascii(&mut out, ",\"item\":{\"key\":");
            push_key(&mut out, &i.item.key);
            push_ascii(&mut out, ",\"value\":");
            let quoted = json_quote(i.item.value.as_str());
            match quoted {
                Some(q) => {
                    let mut j: usize = 0;
                    let ghost before = out@;
                    while j < q.len()
                        invariant
                            0 <= j <= q@.len(),
                            out@ == before + q@.subrange(0, j as int),
                        decreases q@.len() - j,
                    {
                        out.push(q[j]);
                        j = j + 1;
                        assert(out@ =~= before + q@.subrange(0, j as int));
                    }
                    assert(q@.subrange(0, j as int) =~= q@);
                },
                None => {
                    return None;
                },
            }
            push_ascii(&mut out, "}}");
        },
        Request::ScanItem(i) => {
            proof {
                reveal_strlit("{\"type\":\"ScanItem\",\"table_id\":");
                reveal_strlit(",\"start\":");
                reveal_strlit("null");
                reveal_strlit(",\"backward\":");
                reveal_strlit("true");
                reveal_strlit("false");
                reveal_strlit(",\"limit\":");
                reveal_strlit("}");
            }
            push_ascii(&mut out, "{\"type\":\"ScanItem\",\"table_id\":");
            push_key(&mut out, &i.table_id);
            push_ascii(&mut out, ",\"start\":");
            match &i.start {
                Some(k) => push_key(&mut out, k),
                None => push_ascii(&mut out, "null"),
            }
            push_ascii(&mut out, ",\"backward\":");
            if i.backward {
                push_ascii(&mut out, "true");
            } else {
                push_ascii(&mut out, "false");
            }
            push_ascii(&mut out, ",\"limit\":");
            let digits = decimal_text(i.limit);
            proof {
                lemma_decimal_ascii(i.limit as nat);
            }
            push_ascii(&mut out, digits.as_str());
            push_ascii(&mut out, "}");
        },
    }
    assert(out@ =~= request_json(*request));
    Some(out)
}

} // verus!
