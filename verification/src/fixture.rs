//! Fixture side-car formats and the determinism verifier: canonical bytes
//! are persisted as lowercase hex with a trailing newline or as raw bytes,
//! digests as lowercase hex of 32 bytes with a trailing newline. The
//! verifier re-encodes a decoded record and recomputes its digest, so a
//! drifting encoder or a stale side-car is caught byte-for-byte.

use vstd::prelude::*;
use vstd::string::*;
use vstd::utf8::encode_utf8;
use vstd::multiset::Multiset;

use crate::bytes::bytes_eq;
use crate::digest::digest32;
use crate::digest::digest32_of;
use crate::hexfmt::hex_decode;
use crate::hexfmt::hex_encode;
use crate::hexfmt::is_hex_text;
use crate::hexfmt::spec_hex_decode;
use crate::hexfmt::spec_hex_encode;
use crate::records::CanonicalRecord;
use crate::records::strings_bytes;

verus! {

broadcast use vstd::seq_lib::group_to_multiset_ensures;

/// Whether a byte is ASCII whitespace as fixture files may carry it: space,
/// tab, line feed or carriage return.
pub open spec fn is_ws(b: u8) -> bool {
    b == 32 || b == 9 || b == 10 || b == 13
}

/// The byte string with leading whitespace removed.
pub open spec fn trim_start(s: Seq<u8>) -> Seq<u8>
    decreases s.len(),
{
    if s.len() > 0 && is_ws(s[0]) {
        trim_start(s.drop_first())
    } else {
        s
    }
}

/// The byte string with trailing whitespace removed.
pub open spec fn trim_end(s: Seq<u8>) -> Seq<u8>
    decreases s.len(),
{
    if s.len() > 0 && is_ws(s.last()) {
        trim_end(s.drop_last())
    } else {
        s
    }
}

/// The byte string with whitespace removed at both ends.
pub open spec fn trim_ws(s: Seq<u8>) -> Seq<u8> {
    trim_end(trim_start(s))
}

/// Renders bytes as a lowercase hex line with a trailing newline, the
/// `.hex` side-car format.
pub fn to_hex_line(bytes: &[u8]) -> (r: String)
    ensures
        r@ == spec_hex_encode(bytes@) + "\n"@,
{
    let mut line = hex_encode(bytes);
    line.append("\n");
    line
}

/// Renders a digest as a lowercase hex line with a trailing newline, the
/// `.digest` side-car format.
pub fn digest_file_text(digest: &[u8; 32]) -> (r: String)
    ensures
        r@ == spec_hex_encode(digest@) + "\n"@,
{
    to_hex_line(digest.as_slice())
}

/// Returns the bounds of `content` with surrounding ASCII whitespace
/// removed.
fn trim_bounds(content: &[u8]) -> (r: (usize, usize))
    ensures
        r.0 <= r.1 <= content@.len(),
        content@.subrange(r.0 as int, r.1 as int) == trim_ws(content@),
{
    proof {
        assert(content@.skip(0) =~= content@);
    }
    let mut start: usize = 0;
    while start < content.len() && (content[start] == 32 || content[start] == 9 || content[start]
        == 10 || content[start] == 13)
        invariant
            start <= content@.len(),
            trim_start(content@) == trim_start(content@.skip(start as int)),
        decreases content@.len() - start,
    {
        proof {
            let tail = content@.skip(start as int);
            assert(tail[0] == content@[start as int]);
            assert(tail.drop_first() =~= content@.skip(start as int + 1));
        }
        start = start + 1;
    }
    proof {
        let tail = content@.skip(start as int);
        if tail.len() > 0 {
            assert(tail[0] == content@[start as int]);
        }
        assert(trim_start(content@) == tail);
    }
    let mut end: usize = content.len();
    while end > start && (content[end - 1] == 32 || content[end - 1] == 9 || content[end - 1]
        == 10 || content[end - 1] == 13)
        invariant
            start <= end <= content@.len(),
            trim_start(content@) == content@.skip(start as int),
            trim_end(content@.subrange(start as int, end as int)) == trim_end(
                content@.skip(start as int),
            ),
        decreases end,
    {
        proof {
            let cur = content@.subrange(start as int, end as int);
            assert(cur.last() == content@[end - 1]);
            assert(cur.drop_last() =~= content@.subrange(start as int, end as int - 1));
        }
        end = end - 1;
    }
    proof {
        let cur = content@.subrange(start as int, end as int);
        if cur.len() > 0 {
            assert(cur.last() == content@[end - 1]);
        }
        assert(trim_end(cur) == cur);
        assert(content@.skip(start as int) =~= content@.subrange(
            start as int,
            content@.len() as int,
        ));
    }
    (start, end)
}

/// Parses the text of a `.hex` side-car: the hex line, surrounding
/// whitespace ignored, decoded to the canonical bytes it denotes. Returns
/// the bytes exactly when the trimmed text is well-formed hex.
pub fn parse_hex_fixture(content: &[u8]) -> (r: Option<Vec<u8>>)
    ensures
        r is Some <==> is_hex_text(trim_ws(content@)),
        r matches Some(b) ==> b@ == spec_hex_decode(trim_ws(content@)),
{
    let (start, end) = trim_bounds(content);
    let line = vstd::slice::slice_subrange(content, start, end);
    hex_decode(line)
}

/// Parses the text of a `.digest` side-car: the hex line decoded to the 32
/// digest bytes it denotes. Returns the bytes exactly when the trimmed text
/// is well-formed hex of 32 bytes.
pub fn parse_digest_fixture(content: &[u8]) -> (r: Option<Vec<u8>>)
    ensures
        r is Some <==> is_hex_text(trim_ws(content@)) && spec_hex_decode(trim_ws(content@)).len()
            == 32,
        r matches Some(b) ==> b@ == spec_hex_decode(trim_ws(content@)) && b@.len() == 32,
{
    match parse_hex_fixture(content) {
        Some(b) => {
            if b.len() == 32 {
                Some(b)
            } else {
                None
            }
        },
        None => None,
    }
}

/// Checks one fixture: the record's canonical bytes must equal the side-car
/// bytes, and the digest of those bytes under the fixture's domain triple
/// must equal the side-car digest.
pub fn verify_fixture<M: CanonicalRecord>(
    record: &M,
    bytes: &[u8],
    domain: &str,
    schema_id: &str,
    schema_version: &str,
    expected_digest: &[u8],
) -> (r: bool)
    ensures
        r == (record.canon() == bytes@ && digest32_of(
            domain.spec_bytes(),
            schema_id.spec_bytes(),
            schema_version.spec_bytes(),
            bytes@,
        ) == expected_digest@),
{
    let encoded = record.canonical_bytes();
    if !bytes_eq(encoded.as_slice(), bytes) {
        return false;
    }
    let digest = digest32(domain, schema_id, schema_version, bytes);
    bytes_eq(digest.as_slice(), expected_digest)
}

/// Whether `a` is lexicographically at or before `b`, byte by byte.
pub open spec fn lex_le(a: Seq<u8>, b: Seq<u8>) -> bool
    decreases a.len(),
{
    if a.len() == 0 {
        true
    } else if b.len() == 0 {
        false
    } else if a[0] < b[0] {
        true
    } else if a[0] > b[0] {
        false
    } else {
        lex_le(a.drop_first(), b.drop_first())
    }
}

/// Compares two byte strings lexicographically.
pub fn bytes_lex_le(a: &[u8], b: &[u8]) -> (r: bool)
    ensures
        r == lex_le(a@, b@),
{
    proof {
        assert(a@.skip(0) =~= a@);
        assert(b@.skip(0) =~= b@);
    }
    let mut i: usize = 0;
    while i < a.len() && i < b.len()
        invariant
            i <= a@.len(),
            i <= b@.len(),
            lex_le(a@, b@) == lex_le(a@.skip(i as int), b@.skip(i as int)),
        decreases a@.len() - i,
    {
        proof {
            let ta = a@.skip(i as int);
            let tb = b@.skip(i as int);
            assert(ta[0] == a@[i as int]);
            assert(tb[0] == b@[i as int]);
            assert(ta.drop_first() =~= a@.skip(i as int + 1));
            assert(tb.drop_first() =~= b@.skip(i as int + 1));
        }
        if a[i] < b[i] {
            return true;
        }
        if a[i] > b[i] {
            return false;
        }
        i = i + 1;
    }
    proof {
        let ta = a@.skip(i as int);
        let tb = b@.skip(i as int);
        if ta.len() > 0 {
            assert(ta[0] == a@[i as int]);
        }
        if tb.len() > 0 {
            assert(tb[0] == b@[i as int]);
        }
    }
    i >= a.len()
}

/// Whether a sequence of byte strings is in ascending lexicographic order.
pub open spec fn sorted_bytes(elems: Seq<Seq<u8>>) -> bool {
    forall|i: int| 0 <= i && i + 1 < elems.len() ==> lex_le(#[trigger] elems[i], elems[i + 1])
}

/// Checks that strings are in ascending byte order, the discipline every
/// set-typed repeated field must satisfy before encoding.
pub fn strings_sorted(items: &Vec<String>) -> (r: bool)
    ensures
        r == sorted_bytes(strings_bytes(items@)),
{
    let ghost elems = strings_bytes(items@);
    let n: usize = items.len();
    if n <= 1 {
        return true;
    }
    let mut i: usize = 0;
    while i < n - 1
        invariant
            2 <= n,
            n == items@.len(),
            i <= n - 1,
            elems == strings_bytes(items@),
            forall|j: int| 0 <= j < i ==> lex_le(#[trigger] elems[j], elems[j + 1]),
        decreases items@.len() - i,
    {
        let ok = bytes_lex_le(items[i].as_str().as_bytes(), items[i + 1].as_str().as_bytes());
        proof {
            assert(elems[i as int] == encode_utf8(items@[i as int]@));
            assert(elems[i as int + 1] == encode_utf8(items@[i as int + 1]@));
        }
        if !ok {
            proof {
                assert(!lex_le(elems[i as int], elems[i as int + 1]));
            }
            return false;
        }
        i = i + 1;
    }
    true
}

/// One registry entry: a fixture name and the schema it exercises.
#[derive(Clone, Debug, PartialEq, Eq)]
pub struct FixtureEntry {
    pub name: String,
    pub schema: String,
}

/// A byte string's first byte is below another's: the strings are in
/// ascending lexicographic order.
proof fn lemma_lex_le_first_lt(a: Seq<u8>, b: Seq<u8>)
    requires
        a.len() > 0,
        b.len() > 0,
        a[0] < b[0],
    ensures
        lex_le(a, b),
{
}

/// The fixture registry: one entry per persisted fixture, sorted by name,
/// covering every schema of the catalog.
pub fn fixture_registry() -> (r: Vec<FixtureEntry>)
    ensures
        r@.len() == 9,
        r@[0].name@ == "asset_digest_morphology_v1"@ && r@[0].schema@ == "ucf.v1.AssetDigest"@,
        r@[1].name@ == "canonical_intent_query"@ && r@[1].schema@ == "ucf.v1.CanonicalIntent"@,
        r@[2].name@ == "digest32_basic"@ && r@[2].schema@ == "ucf.v1.Digest32"@,
        r@[3].name@ == "mc_cfg_hpa"@ && r@[3].schema@
            == "ucf.v1.MicrocircuitConfigEvidence"@,
        r@[4].name@ == "proof_receipt_accepted"@ && r@[4].schema@ == "ucf.v1.ProofReceipt"@,
        r@[5].name@ == "query_params_basic"@ && r@[5].schema@ == "ucf.v1.QueryParams"@,
        r@[6].name@ == "reason_codes_basic"@ && r@[6].schema@ == "ucf.v1.ReasonCodes"@,
        r@[7].name@ == "ref_basic"@ && r@[7].schema@ == "ucf.v1.Ref"@,
        r@[8].name@ == "signature_ed25519"@ && r@[8].schema@ == "ucf.v1.Signature"@,
        sorted_bytes(registry_names(r@)),
        registry_has_schema(r@, encode_utf8("ucf.v1.AssetDigest"@)),
        registry_has_schema(r@, encode_utf8("ucf.v1.CanonicalIntent"@)),
        registry_has_schema(r@, encode_utf8("ucf.v1.Digest32"@)),
        registry_has_schema(r@, encode_utf8("ucf.v1.MicrocircuitConfigEvidence"@)),
        registry_has_schema(r@, encode_utf8("ucf.v1.ProofReceipt"@)),
        registry_has_schema(r@, encode_utf8("ucf.v1.QueryParams"@)),
        registry_has_schema(r@, encode_utf8("ucf.v1.ReasonCodes"@)),
        registry_has_schema(r@, encode_utf8("ucf.v1.Ref"@)),
        registry_has_schema(r@, encode_utf8("ucf.v1.Signature"@)),
{
    let mut reg: Vec<FixtureEntry> = Vec::new();
    reg.push(
        FixtureEntry {
            name: String::from_str("asset_digest_morphology_v1"),
            schema: String::from_str("ucf.v1.AssetDigest"),
        },
    );
    reg.push(
        FixtureEntry {
            name: String::from_str("canonical_intent_query"),
            schema: String::from_str("ucf.v1.CanonicalIntent"),
        },
    );
    reg.push(
        FixtureEntry {
            name: String::from_str("digest32_basic"),
            schema: String::from_str("ucf.v1.Digest32"),
        },
    );
    reg.push(
        FixtureEntry {
            name: String::from_str("mc_cfg_hpa"),
            schema: String::from_str("ucf.v1.MicrocircuitConfigEvidence"),
        },
    );
    reg.push(
        FixtureEntry {
            name: String::from_str("proof_receipt_accepted"),
            schema: String::from_str("ucf.v1.ProofReceipt"),
        },
    );
    reg.push(
        FixtureEntry {
            name: String::from_str("query_params_basic"),
            schema: String::from_str("ucf.v1.QueryParams"),
        },
    );
    reg.push(
        FixtureEntry {
            name: String::from_str("reason_codes_basic"),
            schema: String::from_str("ucf.v1.ReasonCodes"),
        },
    );
    reg.push(
        FixtureEntry {
            name: String::from_str("ref_basic"),
            schema: String::from_str("ucf.v1.Ref"),
        },
    );
    reg.push(
        FixtureEntry {
            name: String::from_str("signature_ed25519"),
            schema: String::from_str("ucf.v1.Signature"),
        },
    );
    proof {
        assert(encode_utf8(reg@[0].schema@) == encode_utf8("ucf.v1.AssetDigest"@));
        assert(encode_utf8(reg@[1].schema@) == encode_utf8("ucf.v1.CanonicalIntent"@));
        assert(encode_utf8(reg@[2].schema@) == encode_utf8("ucf.v1.Digest32"@));
        assert(encode_utf8(reg@[3].schema@) == encode_utf8(
            "ucf.v1.MicrocircuitConfigEvidence"@,
        ));
        assert(encode_utf8(reg@[4].schema@) == encode_utf8("ucf.v1.ProofReceipt"@));
        assert(encode_utf8(reg@[5].schema@) == encode_utf8("ucf.v1.QueryParams"@));
        assert(encode_utf8(reg@[6].schema@) == encode_utf8("ucf.v1.ReasonCodes"@));
        assert(encode_utf8(reg@[7].schema@) == encode_utf8("ucf.v1.Ref"@));
        assert(encode_utf8(reg@[8].schema@) == encode_utf8("ucf.v1.Signature"@));
        lemma_registry_names_sorted_pinned(reg@);
    }
    reg
}

/// The nine registered fixture names stand in ascending byte order.
proof fn lemma_registry_names_sorted_pinned(reg: Seq<FixtureEntry>)
    requires
        reg.len() == 9,
        reg[0].name@ == "asset_digest_morphology_v1"@,
        reg[1].name@ == "canonical_intent_query"@,
        reg[2].name@ == "digest32_basic"@,
        reg[3].name@ == "mc_cfg_hpa"@,
        reg[4].name@ == "proof_receipt_accepted"@,
        reg[5].name@ == "query_params_basic"@,
        reg[6].name@ == "reason_codes_basic"@,
        reg[7].name@ == "ref_basic"@,
        reg[8].name@ == "signature_ed25519"@,
    ensures
        sorted_bytes(registry_names(reg)),
{
    reveal_strlit("asset_digest_morphology_v1");
    reveal_strlit("canonical_intent_query");
    reveal_strlit("digest32_basic");
    reveal_strlit("mc_cfg_hpa");
    reveal_strlit("proof_receipt_accepted");
    reveal_strlit("query_params_basic");
    reveal_strlit("reason_codes_basic");
    reveal_strlit("ref_basic");
    reveal_strlit("signature_ed25519");
    let names = registry_names(reg);
    assert(names.len() == 9);
    assert(vstd::utf8::is_ascii_chars(reg[0].name@));
    assert(vstd::utf8::is_ascii_chars(reg[1].name@));
    assert(vstd::utf8::is_ascii_chars(reg[2].name@));
    assert(vstd::utf8::is_ascii_chars(reg[3].name@));
    assert(vstd::utf8::is_ascii_chars(reg[4].name@));
    assert(vstd::utf8::is_ascii_chars(reg[5].name@));
    assert(vstd::utf8::is_ascii_chars(reg[6].name@));
    assert(vstd::utf8::is_ascii_chars(reg[7].name@));
    assert(vstd::utf8::is_ascii_chars(reg[8].name@));
    vstd::utf8::is_ascii_chars_encode_utf8(reg[0].name@);
    vstd::utf8::is_ascii_chars_encode_utf8(reg[1].name@);
    vstd::utf8::is_ascii_chars_encode_utf8(reg[2].name@);
    vstd::utf8::is_ascii_chars_encode_utf8(reg[3].name@);
    vstd::utf8::is_ascii_chars_encode_utf8(reg[4].name@);
    vstd::utf8::is_ascii_chars_encode_utf8(reg[5].name@);
    vstd::utf8::is_ascii_chars_encode_utf8(reg[6].name@);
    vstd::utf8::is_ascii_chars_encode_utf8(reg[7].name@);
    vstd::utf8::is_ascii_chars_encode_utf8(reg[8].name@);
    assert forall|i: int| 0 <= i && i + 1 < names.len() implies lex_le(
        #[trigger] names[i],
        names[i + 1],
    ) by {
        assert(names[i] == encode_utf8(reg[i].name@));
        assert(names[i + 1] == encode_utf8(reg[i + 1].name@));
        if i == 6 {
            let a = encode_utf8(reg[6].name@);
            let b = encode_utf8(reg[7].name@);
            assert(a[0] == 114 && b[0] == 114);
            assert(a[1] == 101 && b[1] == 101);
            assert(a[2] == 97 && b[2] == 102);
            let a1 = a.drop_first();
            let b1 = b.drop_first();
            let a2 = a1.drop_first();
            let b2 = b1.drop_first();
            assert(a2[0] == a[2] && b2[0] == b[2]);
            lemma_lex_le_first_lt(a2, b2);
            assert(a1[0] == a[1] && b1[0] == b[1]);
            assert(lex_le(a1, b1));
            assert(lex_le(a, b));
        } else {
            let a = encode_utf8(reg[i].name@);
            let b = encode_utf8(reg[i + 1].name@);
            assert(a[0] < b[0]) by {
                if i == 0 {
                    assert(a[0] == 97 && b[0] == 99);
                } else if i == 1 {
                    assert(a[0] == 99 && b[0] == 100);
                } else if i == 2 {
                    assert(a[0] == 100 && b[0] == 109);
                } else if i == 3 {
                    assert(a[0] == 109 && b[0] == 112);
                } else if i == 4 {
                    assert(a[0] == 112 && b[0] == 113);
                } else if i == 5 {
                    assert(a[0] == 113 && b[0] == 114);
                } else {
                    assert(a[0] == 114 && b[0] == 115);
                }
            }
            lemma_lex_le_first_lt(a, b);
        }
    }
}

/// The schema catalog: every record schema this library defines canonical
/// bytes for.
pub fn schema_catalog() -> (r: Vec<String>)
    ensures
        r@.len() == 9,
        r@[0]@ == "ucf.v1.AssetDigest"@,
        r@[1]@ == "ucf.v1.CanonicalIntent"@,
        r@[2]@ == "ucf.v1.Digest32"@,
        r@[3]@ == "ucf.v1.MicrocircuitConfigEvidence"@,
        r@[4]@ == "ucf.v1.ProofReceipt"@,
        r@[5]@ == "ucf.v1.QueryParams"@,
        r@[6]@ == "ucf.v1.ReasonCodes"@,
        r@[7]@ == "ucf.v1.Ref"@,
        r@[8]@ == "ucf.v1.Signature"@,
{
    let mut cat: Vec<String> = Vec::new();
    cat.push(String::from_str("ucf.v1.AssetDigest"));
    cat.push(String::from_str("ucf.v1.CanonicalIntent"));
    cat.push(String::from_str("ucf.v1.Digest32"));
    cat.push(String::from_str("ucf.v1.MicrocircuitConfigEvidence"));
    cat.push(String::from_str("ucf.v1.ProofReceipt"));
    cat.push(String::from_str("ucf.v1.QueryParams"));
    cat.push(String::from_str("ucf.v1.ReasonCodes"));
    cat.push(String::from_str("ucf.v1.Ref"));
    cat.push(String::from_str("ucf.v1.Signature"));
    cat
}

/// The names of registry entries, as byte strings.
pub open spec fn registry_names(reg: Seq<FixtureEntry>) -> Seq<Seq<u8>> {
    Seq::new(reg.len(), |i: int| encode_utf8(reg[i].name@))
}

/// The schemas of registry entries, as byte strings.
pub open spec fn registry_schemas(reg: Seq<FixtureEntry>) -> Seq<Seq<u8>> {
    Seq::new(reg.len(), |i: int| encode_utf8(reg[i].schema@))
}

/// Checks that a registry is sorted by fixture name.
pub fn registry_names_sorted(reg: &Vec<FixtureEntry>) -> (r: bool)
    ensures
        r == sorted_bytes(registry_names(reg@)),
{
    let ghost names = registry_names(reg@);
    let n: usize = reg.len();
    if n <= 1 {
        return true;
    }
    let mut i: usize = 0;
    while i < n - 1
        invariant
            2 <= n,
            n == reg@.len(),
            i <= n - 1,
            names == registry_names(reg@),
            forall|j: int| 0 <= j < i ==> lex_le(#[trigger] names[j], names[j + 1]),
        decreases reg@.len() - i,
    {
        let ok = bytes_lex_le(
            reg[i].name.as_str().as_bytes(),
            reg[i + 1].name.as_str().as_bytes(),
        );
        proof {
            assert(names[i as int] == encode_utf8(reg@[i as int].name@));
            assert(names[i as int + 1] == encode_utf8(reg@[i as int + 1].name@));
        }
        if !ok {
            proof {
                assert(!lex_le(names[i as int], names[i as int + 1]));
            }
            return false;
        }
        i = i + 1;
    }
    true
}

/// Whether some registry entry exercises the given schema.
pub open spec fn registry_has_schema(reg: Seq<FixtureEntry>, schema: Seq<u8>) -> bool {
    exists|i: int| 0 <= i < reg.len() && encode_utf8(#[trigger] reg[i].schema@) == schema
}

/// Checks that every schema of the catalog is exercised by at least one
/// fixture of the registry.
pub fn registry_covers(reg: &Vec<FixtureEntry>, catalog: &Vec<String>) -> (r: bool)
    ensures
        r == forall|j: int|
            0 <= j < catalog@.len() ==> registry_has_schema(
                reg@,
                encode_utf8(#[trigger] catalog@[j]@),
            ),
{
    let mut j: usize = 0;
    while j < catalog.len()
        invariant
            j <= catalog@.len(),
            forall|j2: int|
                0 <= j2 < j ==> registry_has_schema(reg@, encode_utf8(#[trigger] catalog@[j2]@)),
        decreases catalog@.len() - j,
    {
        let mut found = false;
        let mut i: usize = 0;
        while i < reg.len() && !found
            invariant
                i <= reg@.len(),
                found ==> registry_has_schema(reg@, encode_utf8(catalog@[j as int]@)),
                !found ==> forall|i2: int|
                    0 <= i2 < i ==> encode_utf8(#[trigger] reg@[i2].schema@) != encode_utf8(
                        catalog@[j as int]@,
                    ),
                j < catalog@.len(),
            decreases reg@.len() - i + (if found {
                0int
            } else {
                1int
            }),
        {
            let same = bytes_eq(
                reg[i].schema.as_str().as_bytes(),
                catalog[j].as_str().as_bytes(),
            );
            if same {
                found = true;
            } else {
                i = i + 1;
            }
        }
        if !found {
            proof {
                assert(!registry_has_schema(reg@, encode_utf8(catalog@[j as int]@)));
            }
            return false;
        }
        j = j + 1;
    }
    true
}


/// The lexicographic order on byte strings is total.
pub proof fn lemma_lex_le_total(a: Seq<u8>, b: Seq<u8>)
    ensures
        lex_le(a, b) || lex_le(b, a),
    decreases a.len(),
{
    if a.len() > 0 && b.len() > 0 && a[0] == b[0] {
        lemma_lex_le_total(a.drop_first(), b.drop_first());
    }
}

/// The lexicographic order on byte strings is transitive.
pub proof fn lemma_lex_le_trans(a: Seq<u8>, b: Seq<u8>, c: Seq<u8>)
    requires
        lex_le(a, b),
        lex_le(b, c),
    ensures
        lex_le(a, c),
    decreases a.len(),
{
    if a.len() > 0 && b.len() > 0 && c.len() > 0 && a[0] == b[0] && b[0] == c[0] {
        lemma_lex_le_trans(a.drop_first(), b.drop_first(), c.drop_first());
    }
}

/// Normalizes a set-typed repeated field: returns the same strings in
/// ascending byte order, ready for the canonical encoder. This is the
/// builder step every producer runs before encoding a set field.
pub fn sort_string_set(items: Vec<String>) -> (r: Vec<String>)
    ensures
        sorted_bytes(strings_bytes(r@)),
        r@.to_multiset() == items@.to_multiset(),
{
    let ghost orig = items@;
    let mut rest = items;
    let mut out: Vec<String> = Vec::new();
    proof {
        assert(out@.to_multiset().add(rest@.to_multiset()) =~= orig.to_multiset());
        assert(strings_bytes(out@) =~= Seq::<Seq<u8>>::empty());
    }
    while rest.len() > 0
        invariant
            out@.to_multiset().add(rest@.to_multiset()) == orig.to_multiset(),
            sorted_bytes(strings_bytes(out@)),
            forall|j: int, k: int|
                0 <= j < out@.len() && 0 <= k < rest@.len() ==> lex_le(
                    encode_utf8(#[trigger] out@[j]@),
                    encode_utf8(#[trigger] rest@[k]@),
                ),
        decreases rest@.len(),
    {
        let mut min_idx: usize = 0;
        proof {
            lemma_lex_le_total(encode_utf8(rest@[0]@), encode_utf8(rest@[0]@));
        }
        let mut i: usize = 1;
        while i < rest.len()
            invariant
                0 < rest@.len(),
                min_idx < i,
                i <= rest@.len(),
                forall|k: int|
                    0 <= k < i ==> lex_le(
                        encode_utf8(rest@[min_idx as int]@),
                        encode_utf8(#[trigger] rest@[k]@),
                    ),
            decreases rest@.len() - i,
        {
            let smaller = bytes_lex_le(
                rest[i].as_str().as_bytes(),
                rest[min_idx].as_str().as_bytes(),
            );
            if smaller {
                proof {
                    assert forall|k: int| 0 <= k < i + 1 implies lex_le(
                        encode_utf8(rest@[i as int]@),
                        encode_utf8(rest@[k]@),
                    ) by {
                        if k < i {
                            lemma_lex_le_trans(
                                encode_utf8(rest@[i as int]@),
                                encode_utf8(rest@[min_idx as int]@),
                                encode_utf8(rest@[k]@),
                            );
                        } else {
                            lemma_lex_le_total(
                                encode_utf8(rest@[i as int]@),
                                encode_utf8(rest@[i as int]@),
                            );
                        }
                    }
                }
                min_idx = i;
            } else {
                proof {
                    lemma_lex_le_total(
                        encode_utf8(rest@[i as int]@),
                        encode_utf8(rest@[min_idx as int]@),
                    );
                }
            }
            i = i + 1;
        }
        let ghost pre_rest = rest@;
        let ghost pre_out = out@;
        let m = rest.remove(min_idx);
        proof {
            assert(pre_rest[min_idx as int] == m);
            assert(pre_rest.contains(m));
            assert(pre_rest.to_multiset().count(m) > 0);
            assert(pre_rest.remove(min_idx as int).to_multiset() =~= pre_rest.to_multiset()
                .remove(m));
        }
        out.push(m);
        proof {
            assert(out@.to_multiset() =~= pre_out.to_multiset().insert(m));
            assert(out@.to_multiset().add(rest@.to_multiset()) =~= orig.to_multiset());
            let obs = strings_bytes(out@);
            assert(obs =~= strings_bytes(pre_out).push(encode_utf8(m@)));
            assert forall|j: int| 0 <= j && j + 1 < obs.len() implies lex_le(
                #[trigger] obs[j],
                obs[j + 1],
            ) by {
                if j + 1 < obs.len() - 1 {
                    assert(obs[j] == strings_bytes(pre_out)[j]);
                    assert(obs[j + 1] == strings_bytes(pre_out)[j + 1]);
                } else {
                    assert(obs[j] == encode_utf8(pre_out[j]@));
                    assert(obs[j + 1] == encode_utf8(m@));
                    assert(lex_le(encode_utf8(pre_out[j]@), encode_utf8(pre_rest[min_idx as int]@)));
                }
            }
            assert(sorted_bytes(obs));
            assert forall|j: int, k: int|
                0 <= j < out@.len() && 0 <= k < rest@.len() implies lex_le(
                encode_utf8(#[trigger] out@[j]@),
                encode_utf8(#[trigger] rest@[k]@),
            ) by {
                let mapped = if k < min_idx {
                    k
                } else {
                    k + 1
                };
                assert(rest@[k] == pre_rest[mapped]);
                if j < out@.len() - 1 {
                    assert(out@[j] == pre_out[j]);
                } else {
                    assert(out@[j] == m);
                    assert(lex_le(
                        encode_utf8(pre_rest[min_idx as int]@),
                        encode_utf8(pre_rest[mapped]@),
                    ));
                }
            }
        }
    }
    proof {
        assert(rest@.to_multiset() =~= Multiset::<String>::empty());
        assert(out@.to_multiset() =~= orig.to_multiset());
    }
    out
}

/// Set discipline on the wire: a set-typed repeated field that the producer
/// handed over in ascending byte order reads back from the canonical bytes
/// as the same, still-sorted sequence.
pub proof fn lemma_set_field_sorted_on_wire(v: crate::records::ReasonCodesV)
    requires
        v.wf(),
        sorted_bytes(v.codes),
    ensures
        crate::codec::parse_reason_codes(crate::records::canon_reason_codes(v)) matches Ok(m)
            && sorted_bytes(m.codes),
{
    crate::codec::lemma_reason_codes_round_trip(v);
}

} // verus!
