//! Decoding canonical bytes back into records, and the round-trip laws: for
//! every well-formed record model, parsing its canonical bytes returns the
//! model unchanged, so re-encoding what was decoded reproduces the bytes.

use vstd::prelude::*;
use vstd::utf8::valid_utf8;
use vstd::utf8::encode_utf8;

use crate::records::Digest32;
use crate::records::Digest32V;
use crate::records::Ref;
use crate::records::RefV;
use crate::records::ReasonCodes;
use crate::records::ReasonCodesV;
use crate::records::Signature;
use crate::records::SignatureV;
use crate::records::QueryParams;
use crate::records::QueryParamsV;
use crate::records::AssetDigest;
use crate::records::AssetDigestV;
use crate::records::CanonicalIntent;
use crate::records::CanonicalIntentV;
use crate::records::IntentParams;
use crate::records::IntentParamsV;
use crate::records::MicrocircuitConfigEvidence;
use crate::records::MicrocircuitConfigEvidenceV;
use crate::records::ProofReceipt;
use crate::records::ProofReceiptV;
use crate::records::AssetKind;
use crate::records::Channel;
use crate::records::DataClass;
use crate::records::MicroModule;
use crate::records::ReceiptStatus;
use crate::records::RiskLevel;
use crate::records::asset_kind_code;
use crate::records::asset_kind_of_code;
use crate::records::channel_code;
use crate::records::channel_of_code;
use crate::records::data_class_code;
use crate::records::data_class_of_code;
use crate::records::micro_module_code;
use crate::records::micro_module_of_code;
use crate::records::receipt_status_code;
use crate::records::receipt_status_of_code;
use crate::records::risk_level_code;
use crate::records::risk_level_of_code;
use crate::records::canon_asset_digest;
use crate::records::canon_digest32;
use crate::records::canon_intent;
use crate::records::canon_micro;
use crate::records::canon_query_params;
use crate::records::canon_reason_codes;
use crate::records::canon_receipt;
use crate::records::canon_ref;
use crate::records::canon_signature;
use crate::records::opt_canon_digest32;
use crate::records::opt_canon_params;
use crate::records::opt_canon_reason_codes;
use crate::records::opt_canon_ref;
use crate::records::opt_canon_signature;
use crate::wire::DecodeError;
use crate::wire::enc_bytes_field;
use crate::wire::enc_delim_field;
use crate::wire::enc_rep_delim_field;
use crate::wire::enc_scalar_field;
use crate::wire::first_byte_gt;
use crate::wire::parse_delim_field;
use crate::wire::parse_rep_delim_field;
use crate::wire::parse_scalar_field;
use crate::wire::parse_end;
use crate::wire::tag_byte;
use crate::wire::lemma_delim_field_exact;
use crate::wire::lemma_rep_delim_field_exact;
use crate::wire::lemma_enc_bytes_first;
use crate::wire::lemma_enc_delim_first;
use crate::wire::lemma_enc_rep_first;
use crate::wire::lemma_enc_scalar_first;
use crate::wire::lemma_concat_assoc;
use crate::wire::lemma_first_byte_gt_concat;
use crate::wire::lemma_scalar_field_exact;
use crate::wire::lemma_tail_after;
use crate::wire::read_delim_field;
use crate::wire::read_rep_delim_field;
use crate::wire::read_scalar_field;
use crate::wire::check_end;

verus! {

/// Relies on `String::from_utf8` (std): it succeeds exactly on valid UTF-8
/// input, and the returned string holds exactly the input bytes.
#[verifier::external_body]
pub(crate) fn string_from_utf8(bytes: Vec<u8>) -> (r: Option<String>)
    ensures
        r is Some <==> valid_utf8(bytes@),
        r matches Some(s) ==> encode_utf8(s@) == bytes@,
{
    match String::from_utf8(bytes) {
        Ok(s) => Some(s),
        Err(_) => None,
    }
}

/// Parses one optional bytes field at `pos`: absent means empty, and a
/// written-out empty content is rejected as non-canonical.
pub open spec fn parse_bytes_field(s: Seq<u8>, pos: int, field: u64) -> Result<
    (Seq<u8>, int),
    DecodeError,
> {
    match parse_delim_field(s, pos, field) {
        Ok((c, p)) => match c {
            Some(b) => if b.len() == 0 {
                Err(DecodeError::MalformedWire)
            } else {
                Ok((b, p))
            },
            None => Ok((Seq::empty(), p)),
        },
        Err(e) => Err(e),
    }
}

/// Parses one optional string field at `pos`: a bytes field whose content
/// must be UTF-8.
pub open spec fn parse_string_field(s: Seq<u8>, pos: int, field: u64) -> Result<
    (Seq<u8>, int),
    DecodeError,
> {
    match parse_bytes_field(s, pos, field) {
        Ok((b, p)) => if valid_utf8(b) {
            Ok((b, p))
        } else {
            Err(DecodeError::FieldTypeMismatch)
        },
        Err(e) => Err(e),
    }
}

/// Parses one string field with explicit presence at `pos`: present content
/// may be empty, and must be UTF-8.
pub open spec fn parse_opt_string_field(s: Seq<u8>, pos: int, field: u64) -> Result<
    (Option<Seq<u8>>, int),
    DecodeError,
> {
    match parse_delim_field(s, pos, field) {
        Ok((c, p)) => match c {
            Some(b) => if valid_utf8(b) {
                Ok((Some(b), p))
            } else {
                Err(DecodeError::FieldTypeMismatch)
            },
            None => Ok((None, p)),
        },
        Err(e) => Err(e),
    }
}

/// Whether every byte string in a sequence is valid UTF-8.
pub open spec fn all_valid_utf8(elems: Seq<Seq<u8>>) -> bool {
    forall|i: int| 0 <= i < elems.len() ==> valid_utf8(#[trigger] elems[i])
}

/// Parses a repeated string field at `pos`: every element must be UTF-8.
pub open spec fn parse_rep_string_field(s: Seq<u8>, pos: int, field: u64) -> Result<
    (Seq<Seq<u8>>, int),
    DecodeError,
> {
    match parse_rep_delim_field(s, pos, field) {
        Ok((elems, p)) => if all_valid_utf8(elems) {
            Ok((elems, p))
        } else {
            Err(DecodeError::FieldTypeMismatch)
        },
        Err(e) => Err(e),
    }
}

/// Parses one optional varint-typed field at `pos` whose value must fit a
/// 32-bit integer.
pub open spec fn parse_u32_field(s: Seq<u8>, pos: int, field: u64) -> Result<
    (u32, int),
    DecodeError,
> {
    match parse_scalar_field(s, pos, field) {
        Ok((v, p)) => if v <= 0xffff_ffffu64 {
            Ok((v as u32, p))
        } else {
            Err(DecodeError::FieldTypeMismatch)
        },
        Err(e) => Err(e),
    }
}

/// Parsing an encoded bytes field at its position returns its content and
/// consumes exactly its encoding.
pub proof fn lemma_bytes_field_exact(s: Seq<u8>, pos: int, field: u64, b: Seq<u8>, rest: Seq<u8>)
    requires
        0 <= pos <= s.len(),
        1 <= field,
        field * 8 + 2 < 128,
        s.subrange(pos, s.len() as int) == enc_bytes_field(field, b) + rest,
        b.len() == 0 ==> first_byte_gt(rest, tag_byte(field, 2)),
        b.len() <= 0xffff_ffff_ffff_ffffu64,
    ensures
        parse_bytes_field(s, pos, field) == Ok::<(Seq<u8>, int), DecodeError>(
            (b, pos + enc_bytes_field(field, b).len()),
        ),
{
    if b.len() == 0 {
        assert(enc_bytes_field(field, b) =~= enc_delim_field(field, Option::None));
        lemma_delim_field_exact(s, pos, field, Option::None, rest);
        assert(b =~= Seq::<u8>::empty());
    } else {
        assert(enc_bytes_field(field, b) == enc_delim_field(field, Option::Some(b)));
        lemma_delim_field_exact(s, pos, field, Option::Some(b), rest);
    }
}

/// Reads one optional bytes field at `pos`, exactly as `parse_bytes_field`
/// accepts it.
pub fn read_bytes_field(buf: &[u8], pos: usize, field: u64) -> (r: Result<
    (Vec<u8>, usize),
    DecodeError,
>)
    requires
        pos <= buf@.len(),
        1 <= field,
        field * 8 + 2 < 128,
    ensures
        match r {
            Ok((b, p)) => pos <= p <= buf@.len() && parse_bytes_field(buf@, pos as int, field)
                == Ok::<(Seq<u8>, int), DecodeError>((b@, p as int)),
            Err(e) => parse_bytes_field(buf@, pos as int, field) == Err::<
                (Seq<u8>, int),
                DecodeError,
            >(e),
        },
{
    match read_delim_field(buf, pos, field) {
        Err(e) => Err(e),
        Ok((c, p)) => match c {
            Some(b) => {
                proof {
                    assert(b.deep_view() =~= b@);
                }
                if b.len() == 0 {
                    proof {
                        assert(b@.len() == 0);
                    }
                    Err(DecodeError::MalformedWire)
                } else {
                    Ok((b, p))
                }
            },
            None => {
                let empty: Vec<u8> = Vec::new();
                proof {
                    assert(empty@ =~= Seq::<u8>::empty());
                }
                Ok((empty, p))
            },
        },
    }
}

/// Reads one optional string field at `pos`, exactly as
/// `parse_string_field` accepts it.
pub fn read_string_field(buf: &[u8], pos: usize, field: u64) -> (r: Result<
    (String, usize),
    DecodeError,
>)
    requires
        pos <= buf@.len(),
        1 <= field,
        field * 8 + 2 < 128,
    ensures
        match r {
            Ok((v, p)) => pos <= p <= buf@.len() && parse_string_field(buf@, pos as int, field)
                == Ok::<(Seq<u8>, int), DecodeError>((encode_utf8(v@), p as int)),
            Err(e) => parse_string_field(buf@, pos as int, field) == Err::<
                (Seq<u8>, int),
                DecodeError,
            >(e),
        },
{
    match read_bytes_field(buf, pos, field) {
        Err(e) => Err(e),
        Ok((b, p)) => {
            let ghost bs = b@;
            match string_from_utf8(b) {
                Some(v) => Ok((v, p)),
                None => Err(DecodeError::FieldTypeMismatch),
            }
        },
    }
}

/// Reads one string field with explicit presence at `pos`, exactly as
/// `parse_opt_string_field` accepts it.
pub fn read_opt_string_field(buf: &[u8], pos: usize, field: u64) -> (r: Result<
    (Option<String>, usize),
    DecodeError,
>)
    requires
        pos <= buf@.len(),
        1 <= field,
        field * 8 + 2 < 128,
    ensures
        match r {
            Ok((v, p)) => pos <= p <= buf@.len() && parse_opt_string_field(buf@, pos as int, field)
                == Ok::<(Option<Seq<u8>>, int), DecodeError>(
                (
                    match v {
                        Some(x) => Some(encode_utf8(x@)),
                        None => None,
                    },
                    p as int,
                ),
            ),
            Err(e) => parse_opt_string_field(buf@, pos as int, field) == Err::<
                (Option<Seq<u8>>, int),
                DecodeError,
            >(e),
        },
{
    match read_delim_field(buf, pos, field) {
        Err(e) => Err(e),
        Ok((c, p)) => match c {
            Some(b) => {
                proof {
                    assert(b.deep_view() =~= b@);
                }
                match string_from_utf8(b) {
                    Some(v) => Ok((Some(v), p)),
                    None => Err(DecodeError::FieldTypeMismatch),
                }
            },
            None => Ok((None, p)),
        },
    }
}

/// Reads a repeated string field at `pos`, exactly as
/// `parse_rep_string_field` accepts it.
pub fn read_rep_string_field(buf: &[u8], pos: usize, field: u64) -> (r: Result<
    (Vec<String>, usize),
    DecodeError,
>)
    requires
        pos <= buf@.len(),
        1 <= field,
        field * 8 + 2 < 128,
    ensures
        match r {
            Ok((v, p)) => pos <= p <= buf@.len() && parse_rep_string_field(buf@, pos as int, field)
                == Ok::<(Seq<Seq<u8>>, int), DecodeError>(
                (crate::records::strings_bytes(v@), p as int),
            ),
            Err(e) => parse_rep_string_field(buf@, pos as int, field) == Err::<
                (Seq<Seq<u8>>, int),
                DecodeError,
            >(e),
        },
{
    match read_rep_delim_field(buf, pos, field) {
        Err(e) => Err(e),
        Ok((raw, p)) => {
            let ghost elems = raw.deep_view();
            let mut raw = raw;
            let mut out: Vec<String> = Vec::new();
            proof {
                assert(raw.deep_view() =~= elems.skip(0));
            }
            while raw.len() > 0
                invariant
                    pos <= p <= buf@.len(),
                    parse_rep_delim_field(buf@, pos as int, field) == Ok::<
                        (Seq<Seq<u8>>, int),
                        DecodeError,
                    >((elems, p as int)),
                    out@.len() + raw@.len() == elems.len(),
                    raw.deep_view() == elems.skip(out@.len() as int),
                    forall|j: int|
                        0 <= j < out@.len() ==> valid_utf8(#[trigger] elems[j]) && encode_utf8(
                            out@[j]@,
                        ) == elems[j],
                decreases raw@.len(),
            {
                let ghost i = out@.len() as int;
                let ghost pre = raw.deep_view();
                let elem = raw.remove(0);
                proof {
                    assert(elem.deep_view() =~= elem@);
                    assert(pre[0] == elems[i]);
                    assert(elem@ == pre[0]);
                    assert(raw.deep_view() =~= pre.drop_first());
                    assert(pre.drop_first() =~= elems.skip(i + 1));
                }
                match string_from_utf8(elem) {
                    Some(v) => {
                        out.push(v);
                    },
                    None => {
                        proof {
                            assert(0 <= i < elems.len());
                            assert(!valid_utf8(elems[i]));
                            assert(!all_valid_utf8(elems));
                        }
                        return Err(DecodeError::FieldTypeMismatch);
                    },
                }
            }
            proof {
                assert(all_valid_utf8(elems));
                assert(crate::records::strings_bytes(out@) =~= elems);
            }
            Ok((out, p))
        },
    }
}

/// Reads one optional varint-typed field at `pos` whose value must fit a
/// 32-bit integer, exactly as `parse_u32_field` accepts it.
pub fn read_u32_field(buf: &[u8], pos: usize, field: u64) -> (r: Result<(u32, usize), DecodeError>)
    requires
        pos <= buf@.len(),
        1 <= field,
        field * 8 + 2 < 128,
    ensures
        match r {
            Ok((v, p)) => pos <= p <= buf@.len() && parse_u32_field(buf@, pos as int, field)
                == Ok::<(u32, int), DecodeError>((v, p as int)),
            Err(e) => parse_u32_field(buf@, pos as int, field) == Err::<(u32, int), DecodeError>(e),
        },
{
    match read_scalar_field(buf, pos, field) {
        Err(e) => Err(e),
        Ok((v, p)) => {
            if v <= 0xffff_ffffu64 {
                Ok((v as u32, p))
            } else {
                Err(DecodeError::FieldTypeMismatch)
            }
        },
    }
}

/// Whether every byte string in a sequence fits a 64-bit length.
pub open spec fn all_len_ok(elems: Seq<Seq<u8>>) -> bool {
    forall|i: int| 0 <= i < elems.len() ==> (#[trigger] elems[i]).len()
        <= 0xffff_ffff_ffff_ffffu64
}

impl Digest32V {
    /// Well-formedness: the value's length fits a 64-bit length field.
    pub open spec fn wf(&self) -> bool {
        self.value.len() <= 0xffff_ffff_ffff_ffffu64
    }
}

impl SignatureV {
    /// Well-formedness: the algorithm is UTF-8 text and every field's
    /// length fits a 64-bit length field.
    pub open spec fn wf(&self) -> bool {
        &&& valid_utf8(self.algorithm)
        &&& self.algorithm.len() <= 0xffff_ffff_ffff_ffffu64
        &&& self.signer.len() <= 0xffff_ffff_ffff_ffffu64
        &&& self.signature.len() <= 0xffff_ffff_ffff_ffffu64
    }
}

impl RefV {
    /// Well-formedness: both components are UTF-8 text of bounded length.
    pub open spec fn wf(&self) -> bool {
        &&& valid_utf8(self.uri)
        &&& self.uri.len() <= 0xffff_ffff_ffff_ffffu64
        &&& valid_utf8(self.label)
        &&& self.label.len() <= 0xffff_ffff_ffff_ffffu64
    }
}

impl ReasonCodesV {
    /// Well-formedness: every code is UTF-8 text of bounded length.
    pub open spec fn wf(&self) -> bool {
        all_valid_utf8(self.codes) && all_len_ok(self.codes)
    }
}

impl QueryParamsV {
    /// Well-formedness: the query and every selector are UTF-8 text of
    /// bounded length.
    pub open spec fn wf(&self) -> bool {
        &&& valid_utf8(self.query)
        &&& self.query.len() <= 0xffff_ffff_ffff_ffffu64
        &&& all_valid_utf8(self.selectors)
        &&& all_len_ok(self.selectors)
    }
}

/// Parses the canonical bytes of a digest record.
pub open spec fn parse_digest32(s: Seq<u8>) -> Result<Digest32V, DecodeError> {
    match parse_bytes_field(s, 0, 1) {
        Err(e) => Err(e),
        Ok((value, p1)) => match parse_end(s, p1) {
            Err(e) => Err(e),
            Ok(_) => Ok(Digest32V { value }),
        },
    }
}

/// Parsing the canonical bytes of a well-formed digest model returns the
/// model unchanged.
pub proof fn lemma_digest32_round_trip(v: Digest32V)
    requires
        v.wf(),
    ensures
        parse_digest32(canon_digest32(v)) == Ok::<Digest32V, DecodeError>(v),
{
    let s = canon_digest32(v);
    let e1 = enc_bytes_field(1, v.value);
    let r1 = Seq::<u8>::empty();
    assert(s.subrange(0, s.len() as int) =~= e1 + r1);
    lemma_bytes_field_exact(s, 0, 1, v.value, r1);
    assert(e1.len() == s.len());
    assert(parse_end(s, e1.len() as int) == Ok::<(), DecodeError>(()));
}

impl Digest32 {
    /// Decodes canonical bytes into a digest record, accepting exactly what
    /// `parse_digest32` accepts.
    pub fn decode(buf: &[u8]) -> (r: Result<Digest32, DecodeError>)
        ensures
            match r {
                Ok(m) => parse_digest32(buf@) == Ok::<Digest32V, DecodeError>(m@),
                Err(e) => parse_digest32(buf@) == Err::<Digest32V, DecodeError>(e),
            },
    {
        match read_bytes_field(buf, 0, 1) {
            Err(e) => Err(e),
            Ok((value, p1)) => match check_end(buf, p1) {
                Err(e) => Err(e),
                Ok(_) => Ok(Digest32 { value }),
            },
        }
    }
}

/// Parses the canonical bytes of a reference record.
pub open spec fn parse_ref(s: Seq<u8>) -> Result<RefV, DecodeError> {
    match parse_string_field(s, 0, 1) {
        Err(e) => Err(e),
        Ok((uri, p1)) => match parse_string_field(s, p1, 2) {
            Err(e) => Err(e),
            Ok((label, p2)) => match parse_end(s, p2) {
                Err(e) => Err(e),
                Ok(_) => Ok(RefV { uri, label }),
            },
        },
    }
}

/// Parsing the canonical bytes of a well-formed reference model returns the
/// model unchanged.
pub proof fn lemma_ref_round_trip(v: RefV)
    requires
        v.wf(),
    ensures
        parse_ref(canon_ref(v)) == Ok::<RefV, DecodeError>(v),
{
    let s = canon_ref(v);
    let e1 = enc_bytes_field(1, v.uri);
    let e2 = enc_bytes_field(2, v.label);
    let r2 = Seq::<u8>::empty();
    let r1 = e2 + r2;
    lemma_enc_bytes_first(2, v.label);
    lemma_first_byte_gt_concat(e2, r2, tag_byte(2, 2), tag_byte(1, 2));
    assert(s.subrange(0, s.len() as int) =~= e1 + r1);
    lemma_bytes_field_exact(s, 0, 1, v.uri, r1);
    lemma_tail_after(s, 0, e1, r1);
    let p1 = e1.len() as int;
    lemma_bytes_field_exact(s, p1, 2, v.label, r2);
    let p2 = p1 + e2.len();
    assert(p2 == s.len());
    assert(parse_end(s, p2) == Ok::<(), DecodeError>(()));
}

impl Ref {
    /// Decodes canonical bytes into a reference record, accepting exactly
    /// what `parse_ref` accepts.
    pub fn decode(buf: &[u8]) -> (r: Result<Ref, DecodeError>)
        ensures
            match r {
                Ok(m) => parse_ref(buf@) == Ok::<RefV, DecodeError>(m@),
                Err(e) => parse_ref(buf@) == Err::<RefV, DecodeError>(e),
            },
    {
        match read_string_field(buf, 0, 1) {
            Err(e) => Err(e),
            Ok((uri, p1)) => match read_string_field(buf, p1, 2) {
                Err(e) => Err(e),
                Ok((label, p2)) => match check_end(buf, p2) {
                    Err(e) => Err(e),
                    Ok(_) => Ok(Ref { uri, label }),
                },
            },
        }
    }
}

/// Parses the canonical bytes of a signature record.
pub open spec fn parse_signature(s: Seq<u8>) -> Result<SignatureV, DecodeError> {
    match parse_string_field(s, 0, 1) {
        Err(e) => Err(e),
        Ok((algorithm, p1)) => match parse_bytes_field(s, p1, 2) {
            Err(e) => Err(e),
            Ok((signer, p2)) => match parse_bytes_field(s, p2, 3) {
                Err(e) => Err(e),
                Ok((signature, p3)) => match parse_end(s, p3) {
                    Err(e) => Err(e),
                    Ok(_) => Ok(SignatureV { algorithm, signer, signature }),
                },
            },
        },
    }
}

/// Parsing the canonical bytes of a well-formed signature model returns the
/// model unchanged.
pub proof fn lemma_signature_round_trip(v: SignatureV)
    requires
        v.wf(),
    ensures
        parse_signature(canon_signature(v)) == Ok::<SignatureV, DecodeError>(v),
{
    let s = canon_signature(v);
    let e1 = enc_bytes_field(1, v.algorithm);
    let e2 = enc_bytes_field(2, v.signer);
    let e3 = enc_bytes_field(3, v.signature);
    let r3 = Seq::<u8>::empty();
    let r2 = e3 + r3;
    let r1 = e2 + r2;
    lemma_enc_bytes_first(2, v.signer);
    lemma_enc_bytes_first(3, v.signature);
    lemma_first_byte_gt_concat(e3, r3, tag_byte(3, 2), tag_byte(2, 2));
    lemma_first_byte_gt_concat(e2, r2, tag_byte(2, 2), tag_byte(1, 2));
    assert(s.subrange(0, s.len() as int) =~= e1 + r1);
    lemma_bytes_field_exact(s, 0, 1, v.algorithm, r1);
    lemma_tail_after(s, 0, e1, r1);
    let p1 = e1.len() as int;
    lemma_bytes_field_exact(s, p1, 2, v.signer, r2);
    lemma_tail_after(s, p1, e2, r2);
    let p2 = p1 + e2.len();
    lemma_bytes_field_exact(s, p2, 3, v.signature, r3);
    let p3 = p2 + e3.len();
    assert(p3 == s.len());
    assert(parse_end(s, p3) == Ok::<(), DecodeError>(()));
}

impl Signature {
    /// Decodes canonical bytes into a signature record, accepting exactly
    /// what `parse_signature` accepts.
    pub fn decode(buf: &[u8]) -> (r: Result<Signature, DecodeError>)
        ensures
            match r {
                Ok(m) => parse_signature(buf@) == Ok::<SignatureV, DecodeError>(m@),
                Err(e) => parse_signature(buf@) == Err::<SignatureV, DecodeError>(e),
            },
    {
        match read_string_field(buf, 0, 1) {
            Err(e) => Err(e),
            Ok((algorithm, p1)) => match read_bytes_field(buf, p1, 2) {
                Err(e) => Err(e),
                Ok((signer, p2)) => match read_bytes_field(buf, p2, 3) {
                    Err(e) => Err(e),
                    Ok((signature, p3)) => match check_end(buf, p3) {
                        Err(e) => Err(e),
                        Ok(_) => Ok(Signature { algorithm, signer, signature }),
                    },
                },
            },
        }
    }
}

/// Parses the canonical bytes of a reason-codes record.
pub open spec fn parse_reason_codes(s: Seq<u8>) -> Result<ReasonCodesV, DecodeError> {
    match parse_rep_string_field(s, 0, 1) {
        Err(e) => Err(e),
        Ok((codes, p1)) => match parse_end(s, p1) {
            Err(e) => Err(e),
            Ok(_) => Ok(ReasonCodesV { codes }),
        },
    }
}

/// Parsing the canonical bytes of a well-formed reason-codes model returns
/// the model unchanged.
pub proof fn lemma_reason_codes_round_trip(v: ReasonCodesV)
    requires
        v.wf(),
    ensures
        parse_reason_codes(canon_reason_codes(v)) == Ok::<ReasonCodesV, DecodeError>(v),
{
    let s = canon_reason_codes(v);
    let e1 = enc_rep_delim_field(1, v.codes);
    let r1 = Seq::<u8>::empty();
    assert(s.subrange(0, s.len() as int) =~= e1 + r1);
    lemma_rep_delim_field_exact(s, 0, 1, v.codes, r1);
    assert(e1.len() == s.len());
    assert(parse_end(s, e1.len() as int) == Ok::<(), DecodeError>(()));
}

impl ReasonCodes {
    /// Decodes canonical bytes into a reason-codes record, accepting exactly
    /// what `parse_reason_codes` accepts.
    pub fn decode(buf: &[u8]) -> (r: Result<ReasonCodes, DecodeError>)
        ensures
            match r {
                Ok(m) => parse_reason_codes(buf@) == Ok::<ReasonCodesV, DecodeError>(m@),
                Err(e) => parse_reason_codes(buf@) == Err::<ReasonCodesV, DecodeError>(e),
            },
    {
        match read_rep_string_field(buf, 0, 1) {
            Err(e) => Err(e),
            Ok((codes, p1)) => match check_end(buf, p1) {
                Err(e) => Err(e),
                Ok(_) => Ok(ReasonCodes { codes }),
            },
        }
    }
}

/// Parses the canonical bytes of a query-parameters record.
pub open spec fn parse_query_params(s: Seq<u8>) -> Result<QueryParamsV, DecodeError> {
    match parse_string_field(s, 0, 1) {
        Err(e) => Err(e),
        Ok((query, p1)) => match parse_rep_string_field(s, p1, 2) {
            Err(e) => Err(e),
            Ok((selectors, p2)) => match parse_end(s, p2) {
                Err(e) => Err(e),
                Ok(_) => Ok(QueryParamsV { query, selectors }),
            },
        },
    }
}

/// Parsing the canonical bytes of a well-formed query-parameters model
/// returns the model unchanged.
pub proof fn lemma_query_params_round_trip(v: QueryParamsV)
    requires
        v.wf(),
    ensures
        parse_query_params(canon_query_params(v)) == Ok::<QueryParamsV, DecodeError>(v),
{
    let s = canon_query_params(v);
    let e1 = enc_bytes_field(1, v.query);
    let e2 = enc_rep_delim_field(2, v.selectors);
    let r2 = Seq::<u8>::empty();
    let r1 = e2 + r2;
    lemma_enc_rep_first(2, v.selectors);
    lemma_first_byte_gt_concat(e2, r2, tag_byte(2, 2), tag_byte(1, 2));
    assert(s.subrange(0, s.len() as int) =~= e1 + r1);
    lemma_bytes_field_exact(s, 0, 1, v.query, r1);
    lemma_tail_after(s, 0, e1, r1);
    let p1 = e1.len() as int;
    lemma_rep_delim_field_exact(s, p1, 2, v.selectors, r2);
    let p2 = p1 + e2.len();
    assert(p2 == s.len());
    assert(parse_end(s, p2) == Ok::<(), DecodeError>(()));
}

impl QueryParams {
    /// Decodes canonical bytes into a query-parameters record, accepting
    /// exactly what `parse_query_params` accepts.
    pub fn decode(buf: &[u8]) -> (r: Result<QueryParams, DecodeError>)
        ensures
            match r {
                Ok(m) => parse_query_params(buf@) == Ok::<QueryParamsV, DecodeError>(m@),
                Err(e) => parse_query_params(buf@) == Err::<QueryParamsV, DecodeError>(e),
            },
    {
        match read_string_field(buf, 0, 1) {
            Err(e) => Err(e),
            Ok((query, p1)) => match read_rep_string_field(buf, p1, 2) {
                Err(e) => Err(e),
                Ok((selectors, p2)) => match check_end(buf, p2) {
                    Err(e) => Err(e),
                    Ok(_) => Ok(QueryParams { query, selectors }),
                },
            },
        }
    }
}

/// Parses one optional digest sub-message field at `pos`.
pub open spec fn parse_digest32_field(s: Seq<u8>, pos: int, field: u64) -> Result<
    (Option<Digest32V>, int),
    DecodeError,
> {
    match parse_delim_field(s, pos, field) {
        Err(e) => Err(e),
        Ok((c, p)) => match c {
            Some(b) => match parse_digest32(b) {
                Ok(d) => Ok((Some(d), p)),
                Err(e) => Err(e),
            },
            None => Ok((None, p)),
        },
    }
}

/// Parses one optional reference sub-message field at `pos`.
pub open spec fn parse_ref_field(s: Seq<u8>, pos: int, field: u64) -> Result<
    (Option<RefV>, int),
    DecodeError,
> {
    match parse_delim_field(s, pos, field) {
        Err(e) => Err(e),
        Ok((c, p)) => match c {
            Some(b) => match parse_ref(b) {
                Ok(r) => Ok((Some(r), p)),
                Err(e) => Err(e),
            },
            None => Ok((None, p)),
        },
    }
}

/// Parses one optional signature sub-message field at `pos`.
pub open spec fn parse_signature_field(s: Seq<u8>, pos: int, field: u64) -> Result<
    (Option<SignatureV>, int),
    DecodeError,
> {
    match parse_delim_field(s, pos, field) {
        Err(e) => Err(e),
        Ok((c, p)) => match c {
            Some(b) => match parse_signature(b) {
                Ok(sig) => Ok((Some(sig), p)),
                Err(e) => Err(e),
            },
            None => Ok((None, p)),
        },
    }
}

/// Parsing an encoded optional digest sub-message field returns its model
/// and consumes exactly its encoding.
pub proof fn lemma_digest32_field_exact(
    s: Seq<u8>,
    pos: int,
    field: u64,
    c: Option<Digest32V>,
    rest: Seq<u8>,
)
    requires
        0 <= pos <= s.len(),
        1 <= field,
        field * 8 + 2 < 128,
        s.subrange(pos, s.len() as int) == enc_delim_field(field, opt_canon_digest32(c)) + rest,
        c is None ==> first_byte_gt(rest, tag_byte(field, 2)),
        c matches Some(d) ==> d.wf() && canon_digest32(d).len() <= 0xffff_ffff_ffff_ffffu64,
    ensures
        parse_digest32_field(s, pos, field) == Ok::<(Option<Digest32V>, int), DecodeError>(
            (c, pos + enc_delim_field(field, opt_canon_digest32(c)).len()),
        ),
{
    match c {
        None => {
            lemma_delim_field_exact(s, pos, field, Option::None, rest);
        },
        Some(d) => {
            lemma_delim_field_exact(s, pos, field, Option::Some(canon_digest32(d)), rest);
            lemma_digest32_round_trip(d);
        },
    }
}

/// Parsing an encoded optional reference sub-message field returns its
/// model and consumes exactly its encoding.
pub proof fn lemma_ref_field_exact(
    s: Seq<u8>,
    pos: int,
    field: u64,
    c: Option<RefV>,
    rest: Seq<u8>,
)
    requires
        0 <= pos <= s.len(),
        1 <= field,
        field * 8 + 2 < 128,
        s.subrange(pos, s.len() as int) == enc_delim_field(field, opt_canon_ref(c)) + rest,
        c is None ==> first_byte_gt(rest, tag_byte(field, 2)),
        c matches Some(r) ==> r.wf() && canon_ref(r).len() <= 0xffff_ffff_ffff_ffffu64,
    ensures
        parse_ref_field(s, pos, field) == Ok::<(Option<RefV>, int), DecodeError>(
            (c, pos + enc_delim_field(field, opt_canon_ref(c)).len()),
        ),
{
    match c {
        None => {
            lemma_delim_field_exact(s, pos, field, Option::None, rest);
        },
        Some(r) => {
            lemma_delim_field_exact(s, pos, field, Option::Some(canon_ref(r)), rest);
            lemma_ref_round_trip(r);
        },
    }
}

/// Parsing an encoded optional signature sub-message field returns its
/// model and consumes exactly its encoding.
pub proof fn lemma_signature_field_exact(
    s: Seq<u8>,
    pos: int,
    field: u64,
    c: Option<SignatureV>,
    rest: Seq<u8>,
)
    requires
        0 <= pos <= s.len(),
        1 <= field,
        field * 8 + 2 < 128,
        s.subrange(pos, s.len() as int) == enc_delim_field(field, opt_canon_signature(c)) + rest,
        c is None ==> first_byte_gt(rest, tag_byte(field, 2)),
        c matches Some(sig) ==> sig.wf() && canon_signature(sig).len()
            <= 0xffff_ffff_ffff_ffffu64,
    ensures
        parse_signature_field(s, pos, field) == Ok::<(Option<SignatureV>, int), DecodeError>(
            (c, pos + enc_delim_field(field, opt_canon_signature(c)).len()),
        ),
{
    match c {
        None => {
            lemma_delim_field_exact(s, pos, field, Option::None, rest);
        },
        Some(sig) => {
            lemma_delim_field_exact(s, pos, field, Option::Some(canon_signature(sig)), rest);
            lemma_signature_round_trip(sig);
        },
    }
}

/// Reads one optional digest sub-message field at `pos`, exactly as
/// `parse_digest32_field` accepts it.
pub fn read_digest32_field(buf: &[u8], pos: usize, field: u64) -> (r: Result<
    (Option<Digest32>, usize),
    DecodeError,
>)
    requires
        pos <= buf@.len(),
        1 <= field,
        field * 8 + 2 < 128,
    ensures
        match r {
            Ok((c, p)) => pos <= p <= buf@.len() && parse_digest32_field(buf@, pos as int, field)
                == Ok::<(Option<Digest32V>, int), DecodeError>(
                (
                    match c {
                        Some(d) => Some(d@),
                        None => None,
                    },
                    p as int,
                ),
            ),
            Err(e) => parse_digest32_field(buf@, pos as int, field) == Err::<
                (Option<Digest32V>, int),
                DecodeError,
            >(e),
        },
{
    match read_delim_field(buf, pos, field) {
        Err(e) => Err(e),
        Ok((c, p)) => match c {
            Some(b) => {
                proof {
                    assert(b.deep_view() =~= b@);
                }
                match Digest32::decode(b.as_slice()) {
                    Ok(d) => Ok((Some(d), p)),
                    Err(e) => Err(e),
                }
            },
            None => Ok((None, p)),
        },
    }
}

/// Reads one optional reference sub-message field at `pos`, exactly as
/// `parse_ref_field` accepts it.
pub fn read_ref_field(buf: &[u8], pos: usize, field: u64) -> (r: Result<
    (Option<Ref>, usize),
    DecodeError,
>)
    requires
        pos <= buf@.len(),
        1 <= field,
        field * 8 + 2 < 128,
    ensures
        match r {
            Ok((c, p)) => pos <= p <= buf@.len() && parse_ref_field(buf@, pos as int, field)
                == Ok::<(Option<RefV>, int), DecodeError>(
                (
                    match c {
                        Some(x) => Some(x@),
                        None => None,
                    },
                    p as int,
                ),
            ),
            Err(e) => parse_ref_field(buf@, pos as int, field) == Err::<
                (Option<RefV>, int),
                DecodeError,
            >(e),
        },
{
    match read_delim_field(buf, pos, field) {
        Err(e) => Err(e),
        Ok((c, p)) => match c {
            Some(b) => {
                proof {
                    assert(b.deep_view() =~= b@);
                }
                match Ref::decode(b.as_slice()) {
                    Ok(x) => Ok((Some(x), p)),
                    Err(e) => Err(e),
                }
            },
            None => Ok((None, p)),
        },
    }
}

/// Reads one optional signature sub-message field at `pos`, exactly as
/// `parse_signature_field` accepts it.
pub fn read_signature_field(buf: &[u8], pos: usize, field: u64) -> (r: Result<
    (Option<Signature>, usize),
    DecodeError,
>)
    requires
        pos <= buf@.len(),
        1 <= field,
        field * 8 + 2 < 128,
    ensures
        match r {
            Ok((c, p)) => pos <= p <= buf@.len() && parse_signature_field(buf@, pos as int, field)
                == Ok::<(Option<SignatureV>, int), DecodeError>(
                (
                    match c {
                        Some(sig) => Some(sig@),
                        None => None,
                    },
                    p as int,
                ),
            ),
            Err(e) => parse_signature_field(buf@, pos as int, field) == Err::<
                (Option<SignatureV>, int),
                DecodeError,
            >(e),
        },
{
    match read_delim_field(buf, pos, field) {
        Err(e) => Err(e),
        Ok((c, p)) => match c {
            Some(b) => {
                proof {
                    assert(b.deep_view() =~= b@);
                }
                match Signature::decode(b.as_slice()) {
                    Ok(sig) => Ok((Some(sig), p)),
                    Err(e) => Err(e),
                }
            },
            None => Ok((None, p)),
        },
    }
}

impl ProofReceiptV {
    /// Well-formedness: every present sub-message is well-formed and its
    /// encoding fits a 64-bit length field.
    pub open spec fn wf(&self) -> bool {
        &&& match self.receipt_digest {
            Some(d) => d.wf() && canon_digest32(d).len() <= 0xffff_ffff_ffff_ffffu64,
            None => true,
        }
        &&& match self.validator {
            Some(sig) => sig.wf() && canon_signature(sig).len() <= 0xffff_ffff_ffff_ffffu64,
            None => true,
        }
        &&& match self.vrf_digest {
            Some(d) => d.wf() && canon_digest32(d).len() <= 0xffff_ffff_ffff_ffffu64,
            None => true,
        }
    }
}

/// Parses the canonical bytes of a proof receipt record.
pub open spec fn parse_receipt(s: Seq<u8>) -> Result<ProofReceiptV, DecodeError> {
    match parse_scalar_field(s, 0, 1) {
        Err(e) => Err(e),
        Ok((code, p1)) => match receipt_status_of_code(code) {
            None => Err(DecodeError::FieldTypeMismatch),
            Some(status) => match parse_digest32_field(s, p1, 2) {
                Err(e) => Err(e),
                Ok((receipt_digest, p2)) => match parse_signature_field(s, p2, 3) {
                    Err(e) => Err(e),
                    Ok((validator, p3)) => match parse_digest32_field(s, p3, 4) {
                        Err(e) => Err(e),
                        Ok((vrf_digest, p4)) => match parse_end(s, p4) {
                            Err(e) => Err(e),
                            Ok(_) => Ok(
                                ProofReceiptV { status, receipt_digest, validator, vrf_digest },
                            ),
                        },
                    },
                },
            },
        },
    }
}

/// Parsing the canonical bytes of a well-formed proof receipt model returns
/// the model unchanged.
#[verifier::rlimit(60)]
pub proof fn lemma_receipt_round_trip(v: ProofReceiptV)
    requires
        v.wf(),
    ensures
        parse_receipt(canon_receipt(v)) == Ok::<ProofReceiptV, DecodeError>(v),
{
    let s = canon_receipt(v);
    let e1 = enc_scalar_field(1, receipt_status_code(v.status));
    let e2 = enc_delim_field(2, opt_canon_digest32(v.receipt_digest));
    let e3 = enc_delim_field(3, opt_canon_signature(v.validator));
    let e4 = enc_delim_field(4, opt_canon_digest32(v.vrf_digest));
    let r4 = Seq::<u8>::empty();
    let r3 = e4 + r4;
    let r2 = e3 + r3;
    let r1 = e2 + r2;
    lemma_enc_delim_first(2, opt_canon_digest32(v.receipt_digest));
    lemma_enc_delim_first(3, opt_canon_signature(v.validator));
    lemma_enc_delim_first(4, opt_canon_digest32(v.vrf_digest));
    lemma_first_byte_gt_concat(e4, r4, tag_byte(4, 2), tag_byte(3, 2));
    lemma_first_byte_gt_concat(e3, r3, tag_byte(3, 2), tag_byte(2, 2));
    lemma_first_byte_gt_concat(e2, r2, tag_byte(2, 2), tag_byte(1, 2));
    assert(s.subrange(0, s.len() as int) =~= e1 + r1);
    lemma_scalar_field_exact(s, 0, 1, receipt_status_code(v.status), r1);
    assert(receipt_status_of_code(receipt_status_code(v.status)) == Some(v.status));
    lemma_tail_after(s, 0, e1, r1);
    let p1 = e1.len() as int;
    lemma_digest32_field_exact(s, p1, 2, v.receipt_digest, r2);
    lemma_tail_after(s, p1, e2, r2);
    let p2 = p1 + e2.len();
    lemma_signature_field_exact(s, p2, 3, v.validator, r3);
    lemma_tail_after(s, p2, e3, r3);
    let p3 = p2 + e3.len();
    lemma_digest32_field_exact(s, p3, 4, v.vrf_digest, r4);
    let p4 = p3 + e4.len();
    assert(p4 == s.len());
    assert(parse_end(s, p4) == Ok::<(), DecodeError>(()));
}

impl ProofReceipt {
    /// Decodes canonical bytes into a proof receipt record, accepting
    /// exactly what `parse_receipt` accepts.
    pub fn decode(buf: &[u8]) -> (r: Result<ProofReceipt, DecodeError>)
        ensures
            match r {
                Ok(m) => parse_receipt(buf@) == Ok::<ProofReceiptV, DecodeError>(m@),
                Err(e) => parse_receipt(buf@) == Err::<ProofReceiptV, DecodeError>(e),
            },
    {
        match read_scalar_field(buf, 0, 1) {
            Err(e) => Err(e),
            Ok((code, p1)) => match ReceiptStatus::from_code(code) {
                None => Err(DecodeError::FieldTypeMismatch),
                Some(status) => match read_digest32_field(buf, p1, 2) {
                    Err(e) => Err(e),
                    Ok((receipt_digest, p2)) => match read_signature_field(buf, p2, 3) {
                        Err(e) => Err(e),
                        Ok((validator, p3)) => match read_digest32_field(buf, p3, 4) {
                            Err(e) => Err(e),
                            Ok((vrf_digest, p4)) => match check_end(buf, p4) {
                                Err(e) => Err(e),
                                Ok(_) => Ok(
                                    ProofReceipt { status, receipt_digest, validator, vrf_digest },
                                ),
                            },
                        },
                    },
                },
            },
        }
    }
}

impl AssetDigestV {
    /// Well-formedness: every present sub-message is well-formed and its
    /// encoding fits a 64-bit length field.
    pub open spec fn wf(&self) -> bool {
        &&& match self.digest {
            Some(d) => d.wf() && canon_digest32(d).len() <= 0xffff_ffff_ffff_ffffu64,
            None => true,
        }
        &&& match self.prev_digest {
            Some(d) => d.wf() && canon_digest32(d).len() <= 0xffff_ffff_ffff_ffffu64,
            None => true,
        }
        &&& match self.proof_receipt_ref {
            Some(r) => r.wf() && canon_ref(r).len() <= 0xffff_ffff_ffff_ffffu64,
            None => true,
        }
    }
}

/// Parses the canonical bytes of an asset digest record.
pub open spec fn parse_asset_digest(s: Seq<u8>) -> Result<AssetDigestV, DecodeError> {
    match parse_scalar_field(s, 0, 1) {
        Err(e) => Err(e),
        Ok((code, p1)) => match asset_kind_of_code(code) {
            None => Err(DecodeError::FieldTypeMismatch),
            Some(kind) => match parse_u32_field(s, p1, 2) {
                Err(e) => Err(e),
                Ok((version, p2)) => match parse_digest32_field(s, p2, 3) {
                    Err(e) => Err(e),
                    Ok((digest, p3)) => match parse_scalar_field(s, p3, 4) {
                        Err(e) => Err(e),
                        Ok((created_at_ms, p4)) => match parse_digest32_field(s, p4, 5) {
                            Err(e) => Err(e),
                            Ok((prev_digest, p5)) => match parse_ref_field(s, p5, 6) {
                                Err(e) => Err(e),
                                Ok((proof_receipt_ref, p6)) => match parse_end(s, p6) {
                                    Err(e) => Err(e),
                                    Ok(_) => Ok(
                                        AssetDigestV {
                                            kind,
                                            version,
                                            digest,
                                            created_at_ms,
                                            prev_digest,
                                            proof_receipt_ref,
                                        },
                                    ),
                                },
                            },
                        },
                    },
                },
            },
        },
    }
}

/// Parses the tail of an asset digest record, fields two through six, from
/// `p1`, and shows that the tail's first byte belongs to a later field than
/// the first.
proof fn lemma_asset_digest_round_trip_tail(s: Seq<u8>, p1: int, v: AssetDigestV)
    requires
        v.wf(),
        0 <= p1 <= s.len(),
        s.subrange(p1, s.len() as int) == enc_scalar_field(2, v.version as u64)
            + (enc_delim_field(3, opt_canon_digest32(v.digest)) + (enc_scalar_field(
            4,
            v.created_at_ms,
        ) + (enc_delim_field(5, opt_canon_digest32(v.prev_digest)) + (enc_delim_field(
            6,
            opt_canon_ref(v.proof_receipt_ref),
        ) + Seq::<u8>::empty())))),
    ensures
        ({
            let e2 = enc_scalar_field(2, v.version as u64);
            let e3 = enc_delim_field(3, opt_canon_digest32(v.digest));
            let e4 = enc_scalar_field(4, v.created_at_ms);
            let e5 = enc_delim_field(5, opt_canon_digest32(v.prev_digest));
            let e6 = enc_delim_field(6, opt_canon_ref(v.proof_receipt_ref));
            &&& first_byte_gt(s.subrange(p1, s.len() as int), tag_byte(1, 2))
            &&& parse_u32_field(s, p1, 2) == Ok::<(u32, int), DecodeError>(
                (v.version, p1 + e2.len()),
            )
            &&& parse_digest32_field(s, p1 + e2.len(), 3) == Ok::<
                (Option<Digest32V>, int),
                DecodeError,
            >((v.digest, p1 + e2.len() + e3.len()))
            &&& parse_scalar_field(s, p1 + e2.len() + e3.len(), 4) == Ok::<
                (u64, int),
                DecodeError,
            >((v.created_at_ms, p1 + e2.len() + e3.len() + e4.len()))
            &&& parse_digest32_field(s, p1 + e2.len() + e3.len() + e4.len(), 5) == Ok::<
                (Option<Digest32V>, int),
                DecodeError,
            >((v.prev_digest, p1 + e2.len() + e3.len() + e4.len() + e5.len()))
            &&& parse_ref_field(s, p1 + e2.len() + e3.len() + e4.len() + e5.len(), 6) == Ok::<
                (Option<RefV>, int),
                DecodeError,
            >((v.proof_receipt_ref, p1 + e2.len() + e3.len() + e4.len() + e5.len() + e6.len()))
            &&& p1 + e2.len() + e3.len() + e4.len() + e5.len() + e6.len() == s.len()
        }),
{
    let e2 = enc_scalar_field(2, v.version as u64);
    let e3 = enc_delim_field(3, opt_canon_digest32(v.digest));
    let e4 = enc_scalar_field(4, v.created_at_ms);
    let e5 = enc_delim_field(5, opt_canon_digest32(v.prev_digest));
    let e6 = enc_delim_field(6, opt_canon_ref(v.proof_receipt_ref));
    let r6 = Seq::<u8>::empty();
    let r5 = e6 + r6;
    let r4 = e5 + r5;
    let r3 = e4 + r4;
    let r2 = e3 + r3;
    let r1 = e2 + r2;
    lemma_enc_scalar_first(2, v.version as u64);
    lemma_enc_delim_first(3, opt_canon_digest32(v.digest));
    lemma_enc_scalar_first(4, v.created_at_ms);
    lemma_enc_delim_first(5, opt_canon_digest32(v.prev_digest));
    lemma_enc_delim_first(6, opt_canon_ref(v.proof_receipt_ref));
    lemma_first_byte_gt_concat(e6, r6, tag_byte(6, 2), tag_byte(5, 2));
    lemma_first_byte_gt_concat(e5, r5, tag_byte(5, 2), tag_byte(4, 2));
    lemma_first_byte_gt_concat(e4, r4, tag_byte(4, 0), tag_byte(3, 2));
    lemma_first_byte_gt_concat(e3, r3, tag_byte(3, 2), tag_byte(2, 2));
    lemma_first_byte_gt_concat(e2, r2, tag_byte(2, 0), tag_byte(1, 2));
    lemma_scalar_field_exact(s, p1, 2, v.version as u64, r2);
    assert((v.version as u64) as u32 == v.version);
    lemma_tail_after(s, p1, e2, r2);
    let p2 = p1 + e2.len();
    lemma_digest32_field_exact(s, p2, 3, v.digest, r3);
    lemma_tail_after(s, p2, e3, r3);
    let p3 = p2 + e3.len();
    lemma_scalar_field_exact(s, p3, 4, v.created_at_ms, r4);
    lemma_tail_after(s, p3, e4, r4);
    let p4 = p3 + e4.len();
    lemma_digest32_field_exact(s, p4, 5, v.prev_digest, r5);
    lemma_tail_after(s, p4, e5, r5);
    let p5 = p4 + e5.len();
    lemma_ref_field_exact(s, p5, 6, v.proof_receipt_ref, r6);
}

/// Parsing the canonical bytes of a well-formed asset digest model returns
/// the model unchanged.
/// Assembles an asset digest parse from the six field parses.
proof fn lemma_asset_digest_assemble(
    s: Seq<u8>,
    v: AssetDigestV,
    p1: int,
    p2: int,
    p3: int,
    p4: int,
    p5: int,
    p6: int,
)
    requires
        parse_scalar_field(s, 0, 1) == Ok::<(u64, int), DecodeError>(
            (asset_kind_code(v.kind), p1),
        ),
        parse_u32_field(s, p1, 2) == Ok::<(u32, int), DecodeError>((v.version, p2)),
        parse_digest32_field(s, p2, 3) == Ok::<(Option<Digest32V>, int), DecodeError>(
            (v.digest, p3),
        ),
        parse_scalar_field(s, p3, 4) == Ok::<(u64, int), DecodeError>((v.created_at_ms, p4)),
        parse_digest32_field(s, p4, 5) == Ok::<(Option<Digest32V>, int), DecodeError>(
            (v.prev_digest, p5),
        ),
        parse_ref_field(s, p5, 6) == Ok::<(Option<RefV>, int), DecodeError>(
            (v.proof_receipt_ref, p6),
        ),
        parse_end(s, p6) == Ok::<(), DecodeError>(()),
    ensures
        parse_asset_digest(s) == Ok::<AssetDigestV, DecodeError>(v),
{
    assert(asset_kind_of_code(asset_kind_code(v.kind)) == Some(v.kind));
}

/// Parsing the canonical bytes of a well-formed asset digest model returns
/// the model unchanged.
#[verifier::rlimit(100)]
pub proof fn lemma_asset_digest_round_trip(v: AssetDigestV)
    requires
        v.wf(),
    ensures
        parse_asset_digest(canon_asset_digest(v)) == Ok::<AssetDigestV, DecodeError>(v),
{
    let s = canon_asset_digest(v);
    let e1 = enc_scalar_field(1, asset_kind_code(v.kind));
    let e2 = enc_scalar_field(2, v.version as u64);
    let e3 = enc_delim_field(3, opt_canon_digest32(v.digest));
    let e4 = enc_scalar_field(4, v.created_at_ms);
    let e5 = enc_delim_field(5, opt_canon_digest32(v.prev_digest));
    let e6 = enc_delim_field(6, opt_canon_ref(v.proof_receipt_ref));
    let r1 = e2 + (e3 + (e4 + (e5 + (e6 + Seq::<u8>::empty()))));
    assert(e6 + Seq::<u8>::empty() =~= e6);
    lemma_concat_assoc(e1 + e2 + e3 + e4, e5, e6);
    lemma_concat_assoc(e1 + e2 + e3, e4, e5 + e6);
    lemma_concat_assoc(e1 + e2, e3, e4 + (e5 + e6));
    lemma_concat_assoc(e1, e2, e3 + (e4 + (e5 + e6)));
    assert(s == e1 + r1);
    assert(s.subrange(0, s.len() as int) =~= s);
    lemma_tail_after(s, 0, e1, r1);
    let p1 = e1.len() as int;
    lemma_asset_digest_round_trip_tail(s, p1, v);
    lemma_scalar_field_exact(s, 0, 1, asset_kind_code(v.kind), r1);
    let p6 = p1 + e2.len() + e3.len() + e4.len() + e5.len() + e6.len();
    assert(parse_end(s, p6) == Ok::<(), DecodeError>(()));
    lemma_asset_digest_assemble(
        s,
        v,
        p1,
        p1 + e2.len(),
        p1 + e2.len() + e3.len(),
        p1 + e2.len() + e3.len() + e4.len(),
        p1 + e2.len() + e3.len() + e4.len() + e5.len(),
        p6,
    );
}

impl AssetDigest {
    /// Decodes canonical bytes into an asset digest record, accepting
    /// exactly what `parse_asset_digest` accepts.
    pub fn decode(buf: &[u8]) -> (r: Result<AssetDigest, DecodeError>)
        ensures
            match r {
                Ok(m) => parse_asset_digest(buf@) == Ok::<AssetDigestV, DecodeError>(m@),
                Err(e) => parse_asset_digest(buf@) == Err::<AssetDigestV, DecodeError>(e),
            },
    {
        match read_scalar_field(buf, 0, 1) {
            Err(e) => Err(e),
            Ok((code, p1)) => match AssetKind::from_code(code) {
                None => Err(DecodeError::FieldTypeMismatch),
                Some(kind) => match read_u32_field(buf, p1, 2) {
                    Err(e) => Err(e),
                    Ok((version, p2)) => match read_digest32_field(buf, p2, 3) {
                        Err(e) => Err(e),
                        Ok((digest, p3)) => match read_scalar_field(buf, p3, 4) {
                            Err(e) => Err(e),
                            Ok((created_at_ms, p4)) => match read_digest32_field(buf, p4, 5) {
                                Err(e) => Err(e),
                                Ok((prev_digest, p5)) => match read_ref_field(buf, p5, 6) {
                                    Err(e) => Err(e),
                                    Ok((proof_receipt_ref, p6)) => match check_end(buf, p6) {
                                        Err(e) => Err(e),
                                        Ok(_) => Ok(
                                            AssetDigest {
                                                kind,
                                                version,
                                                digest,
                                                created_at_ms,
                                                prev_digest,
                                                proof_receipt_ref,
                                            },
                                        ),
                                    },
                                },
                            },
                        },
                    },
                },
            },
        }
    }
}


impl IntentParamsV {
    /// Well-formedness: the one variant's payload is well-formed and its
    /// encoding fits a 64-bit length field.
    pub open spec fn wf(&self) -> bool {
        match self {
            IntentParamsV::Query(q) => q.wf() && canon_query_params(*q).len()
                <= 0xffff_ffff_ffff_ffffu64,
        }
    }
}

impl CanonicalIntentV {
    /// Well-formedness: the identifier is UTF-8 text of bounded length and
    /// every present sub-message is well-formed with a bounded encoding.
    pub open spec fn wf(&self) -> bool {
        &&& valid_utf8(self.intent_id)
        &&& self.intent_id.len() <= 0xffff_ffff_ffff_ffffu64
        &&& match self.subject {
            Some(r) => r.wf() && canon_ref(r).len() <= 0xffff_ffff_ffff_ffffu64,
            None => true,
        }
        &&& match self.reason_codes {
            Some(rc) => rc.wf() && canon_reason_codes(rc).len() <= 0xffff_ffff_ffff_ffffu64,
            None => true,
        }
        &&& match self.params {
            Some(p) => p.wf(),
            None => true,
        }
    }
}

impl MicrocircuitConfigEvidenceV {
    /// Well-formedness: every present sub-message is well-formed with a
    /// bounded encoding, and the key identifier is UTF-8 text.
    pub open spec fn wf(&self) -> bool {
        &&& match self.config_digest {
            Some(d) => d.wf() && canon_digest32(d).len() <= 0xffff_ffff_ffff_ffffu64,
            None => true,
        }
        &&& match self.prev_config_digest {
            Some(d) => d.wf() && canon_digest32(d).len() <= 0xffff_ffff_ffff_ffffu64,
            None => true,
        }
        &&& match self.proof_receipt_ref {
            Some(r) => r.wf() && canon_ref(r).len() <= 0xffff_ffff_ffff_ffffu64,
            None => true,
        }
        &&& match self.attestation_sig {
            Some(sig) => sig.wf() && canon_signature(sig).len() <= 0xffff_ffff_ffff_ffffu64,
            None => true,
        }
        &&& match self.attestation_key_id {
            Some(k) => valid_utf8(k) && k.len() <= 0xffff_ffff_ffff_ffffu64,
            None => true,
        }
    }
}

/// Parses one optional reason-codes sub-message field at `pos`.
pub open spec fn parse_reason_codes_field(s: Seq<u8>, pos: int, field: u64) -> Result<
    (Option<ReasonCodesV>, int),
    DecodeError,
> {
    match parse_delim_field(s, pos, field) {
        Err(e) => Err(e),
        Ok((c, p)) => match c {
            Some(b) => match parse_reason_codes(b) {
                Ok(rc) => Ok((Some(rc), p)),
                Err(e) => Err(e),
            },
            None => Ok((None, p)),
        },
    }
}

/// Parses an intent's parameter group field at `pos`.
pub open spec fn parse_params_field(s: Seq<u8>, pos: int, field: u64) -> Result<
    (Option<IntentParamsV>, int),
    DecodeError,
> {
    match parse_delim_field(s, pos, field) {
        Err(e) => Err(e),
        Ok((c, p)) => match c {
            Some(b) => match parse_query_params(b) {
                Ok(q) => Ok((Some(IntentParamsV::Query(q)), p)),
                Err(e) => Err(e),
            },
            None => Ok((None, p)),
        },
    }
}

/// Parsing an encoded optional reason-codes field returns its model and
/// consumes exactly its encoding.
pub proof fn lemma_reason_codes_field_exact(
    s: Seq<u8>,
    pos: int,
    field: u64,
    c: Option<ReasonCodesV>,
    rest: Seq<u8>,
)
    requires
        0 <= pos <= s.len(),
        1 <= field,
        field * 8 + 2 < 128,
        s.subrange(pos, s.len() as int) == enc_delim_field(field, opt_canon_reason_codes(c))
            + rest,
        c is None ==> first_byte_gt(rest, tag_byte(field, 2)),
        c matches Some(rc) ==> rc.wf() && canon_reason_codes(rc).len()
            <= 0xffff_ffff_ffff_ffffu64,
    ensures
        parse_reason_codes_field(s, pos, field) == Ok::<(Option<ReasonCodesV>, int), DecodeError>(
            (c, pos + enc_delim_field(field, opt_canon_reason_codes(c)).len()),
        ),
{
    match c {
        None => {
            lemma_delim_field_exact(s, pos, field, Option::None, rest);
        },
        Some(rc) => {
            lemma_delim_field_exact(s, pos, field, Option::Some(canon_reason_codes(rc)), rest);
            lemma_reason_codes_round_trip(rc);
        },
    }
}

/// Parsing an encoded parameter group field returns its model and consumes
/// exactly its encoding.
pub proof fn lemma_params_field_exact(
    s: Seq<u8>,
    pos: int,
    field: u64,
    c: Option<IntentParamsV>,
    rest: Seq<u8>,
)
    requires
        0 <= pos <= s.len(),
        1 <= field,
        field * 8 + 2 < 128,
        s.subrange(pos, s.len() as int) == enc_delim_field(field, opt_canon_params(c)) + rest,
        c is None ==> first_byte_gt(rest, tag_byte(field, 2)),
        c matches Some(p) ==> p.wf(),
    ensures
        parse_params_field(s, pos, field) == Ok::<(Option<IntentParamsV>, int), DecodeError>(
            (c, pos + enc_delim_field(field, opt_canon_params(c)).len()),
        ),
{
    match c {
        None => {
            lemma_delim_field_exact(s, pos, field, Option::None, rest);
        },
        Some(p) => {
            match p {
                IntentParamsV::Query(q) => {
                    lemma_delim_field_exact(
                        s,
                        pos,
                        field,
                        Option::Some(canon_query_params(q)),
                        rest,
                    );
                    lemma_query_params_round_trip(q);
                },
            }
        },
    }
}

/// Reads one optional reason-codes sub-message field at `pos`, exactly as
/// `parse_reason_codes_field` accepts it.
pub fn read_reason_codes_field(buf: &[u8], pos: usize, field: u64) -> (r: Result<
    (Option<ReasonCodes>, usize),
    DecodeError,
>)
    requires
        pos <= buf@.len(),
        1 <= field,
        field * 8 + 2 < 128,
    ensures
        match r {
            Ok((c, p)) => pos <= p <= buf@.len() && parse_reason_codes_field(
                buf@,
                pos as int,
                field,
            ) == Ok::<(Option<ReasonCodesV>, int), DecodeError>(
                (
                    match c {
                        Some(rc) => Some(rc@),
                        None => None,
                    },
                    p as int,
                ),
            ),
            Err(e) => parse_reason_codes_field(buf@, pos as int, field) == Err::<
                (Option<ReasonCodesV>, int),
                DecodeError,
            >(e),
        },
{
    match read_delim_field(buf, pos, field) {
        Err(e) => Err(e),
        Ok((c, p)) => match c {
            Some(b) => {
                proof {
                    assert(b.deep_view() =~= b@);
                }
                match ReasonCodes::decode(b.as_slice()) {
                    Ok(rc) => Ok((Some(rc), p)),
                    Err(e) => Err(e),
                }
            },
            None => Ok((None, p)),
        },
    }
}

/// Reads an intent's parameter group field at `pos`, exactly as
/// `parse_params_field` accepts it.
pub fn read_params_field(buf: &[u8], pos: usize, field: u64) -> (r: Result<
    (Option<IntentParams>, usize),
    DecodeError,
>)
    requires
        pos <= buf@.len(),
        1 <= field,
        field * 8 + 2 < 128,
    ensures
        match r {
            Ok((c, p)) => pos <= p <= buf@.len() && parse_params_field(buf@, pos as int, field)
                == Ok::<(Option<IntentParamsV>, int), DecodeError>(
                (
                    match c {
                        Some(x) => Some(x@),
                        None => None,
                    },
                    p as int,
                ),
            ),
            Err(e) => parse_params_field(buf@, pos as int, field) == Err::<
                (Option<IntentParamsV>, int),
                DecodeError,
            >(e),
        },
{
    match read_delim_field(buf, pos, field) {
        Err(e) => Err(e),
        Ok((c, p)) => match c {
            Some(b) => {
                proof {
                    assert(b.deep_view() =~= b@);
                }
                match QueryParams::decode(b.as_slice()) {
                    Ok(q) => Ok((Some(IntentParams::Query(q)), p)),
                    Err(e) => Err(e),
                }
            },
            None => Ok((None, p)),
        },
    }
}

/// Parses the canonical bytes of an intent record.
pub open spec fn parse_intent(s: Seq<u8>) -> Result<CanonicalIntentV, DecodeError> {
    match parse_string_field(s, 0, 1) {
        Err(e) => Err(e),
        Ok((intent_id, p1)) => match parse_scalar_field(s, p1, 2) {
            Err(e) => Err(e),
            Ok((cc, p2)) => match channel_of_code(cc) {
                None => Err(DecodeError::FieldTypeMismatch),
                Some(channel) => match parse_scalar_field(s, p2, 3) {
                    Err(e) => Err(e),
                    Ok((rc, p3)) => match risk_level_of_code(rc) {
                        None => Err(DecodeError::FieldTypeMismatch),
                        Some(risk_level) => match parse_scalar_field(s, p3, 4) {
                            Err(e) => Err(e),
                            Ok((dc, p4)) => match data_class_of_code(dc) {
                                None => Err(DecodeError::FieldTypeMismatch),
                                Some(data_class) => match parse_ref_field(s, p4, 5) {
                                    Err(e) => Err(e),
                                    Ok((subject, p5)) => match parse_reason_codes_field(
                                        s,
                                        p5,
                                        6,
                                    ) {
                                        Err(e) => Err(e),
                                        Ok((reason_codes, p6)) => match parse_params_field(
                                            s,
                                            p6,
                                            7,
                                        ) {
                                            Err(e) => Err(e),
                                            Ok((params, p7)) => match parse_end(s, p7) {
                                                Err(e) => Err(e),
                                                Ok(_) => Ok(
                                                    CanonicalIntentV {
                                                        intent_id,
                                                        channel,
                                                        risk_level,
                                                        data_class,
                                                        subject,
                                                        reason_codes,
                                                        params,
                                                    },
                                                ),
                                            },
                                        },
                                    },
                                },
                            },
                        },
                    },
                },
            },
        },
    }
}

/// Parses the tail of an intent record, fields two through seven, from
/// `p1`, and shows that the tail's first byte belongs to a later field than
/// the first.
#[verifier::rlimit(100)]
proof fn lemma_intent_round_trip_tail(s: Seq<u8>, p1: int, v: CanonicalIntentV)
    requires
        v.wf(),
        0 <= p1 <= s.len(),
        s.subrange(p1, s.len() as int) == enc_scalar_field(2, channel_code(v.channel))
            + (enc_scalar_field(3, risk_level_code(v.risk_level)) + (enc_scalar_field(
            4,
            data_class_code(v.data_class),
        ) + (enc_delim_field(5, opt_canon_ref(v.subject)) + (enc_delim_field(
            6,
            opt_canon_reason_codes(v.reason_codes),
        ) + (enc_delim_field(7, opt_canon_params(v.params)) + Seq::<u8>::empty()))))),
    ensures
        ({
            let e2 = enc_scalar_field(2, channel_code(v.channel));
            let e3 = enc_scalar_field(3, risk_level_code(v.risk_level));
            let e4 = enc_scalar_field(4, data_class_code(v.data_class));
            let e5 = enc_delim_field(5, opt_canon_ref(v.subject));
            let e6 = enc_delim_field(6, opt_canon_reason_codes(v.reason_codes));
            let e7 = enc_delim_field(7, opt_canon_params(v.params));
            &&& first_byte_gt(s.subrange(p1, s.len() as int), tag_byte(1, 2))
            &&& parse_scalar_field(s, p1, 2) == Ok::<(u64, int), DecodeError>(
                (channel_code(v.channel), p1 + e2.len()),
            )
            &&& parse_scalar_field(s, p1 + e2.len(), 3) == Ok::<(u64, int), DecodeError>(
                (risk_level_code(v.risk_level), p1 + e2.len() + e3.len()),
            )
            &&& parse_scalar_field(s, p1 + e2.len() + e3.len(), 4) == Ok::<
                (u64, int),
                DecodeError,
            >((data_class_code(v.data_class), p1 + e2.len() + e3.len() + e4.len()))
            &&& parse_ref_field(s, p1 + e2.len() + e3.len() + e4.len(), 5) == Ok::<
                (Option<RefV>, int),
                DecodeError,
            >((v.subject, p1 + e2.len() + e3.len() + e4.len() + e5.len()))
            &&& parse_reason_codes_field(
                s,
                p1 + e2.len() + e3.len() + e4.len() + e5.len(),
                6,
            ) == Ok::<(Option<ReasonCodesV>, int), DecodeError>(
                (v.reason_codes, p1 + e2.len() + e3.len() + e4.len() + e5.len() + e6.len()),
            )
            &&& parse_params_field(
                s,
                p1 + e2.len() + e3.len() + e4.len() + e5.len() + e6.len(),
                7,
            ) == Ok::<(Option<IntentParamsV>, int), DecodeError>(
                (
                    v.params,
                    p1 + e2.len() + e3.len() + e4.len() + e5.len() + e6.len() + e7.len(),
                ),
            )
            &&& p1 + e2.len() + e3.len() + e4.len() + e5.len() + e6.len() + e7.len() == s.len()
        }),
{
    let e2 = enc_scalar_field(2, channel_code(v.channel));
    let e3 = enc_scalar_field(3, risk_level_code(v.risk_level));
    let e4 = enc_scalar_field(4, data_class_code(v.data_class));
    let e5 = enc_delim_field(5, opt_canon_ref(v.subject));
    let e6 = enc_delim_field(6, opt_canon_reason_codes(v.reason_codes));
    let e7 = enc_delim_field(7, opt_canon_params(v.params));
    let r7 = Seq::<u8>::empty();
    let r6 = e7 + r7;
    let r5 = e6 + r6;
    let r4 = e5 + r5;
    let r3 = e4 + r4;
    let r2 = e3 + r3;
    let r1 = e2 + r2;
    lemma_enc_scalar_first(2, channel_code(v.channel));
    lemma_enc_scalar_first(3, risk_level_code(v.risk_level));
    lemma_enc_scalar_first(4, data_class_code(v.data_class));
    lemma_enc_delim_first(5, opt_canon_ref(v.subject));
    lemma_enc_delim_first(6, opt_canon_reason_codes(v.reason_codes));
    lemma_enc_delim_first(7, opt_canon_params(v.params));
    lemma_first_byte_gt_concat(e7, r7, tag_byte(7, 2), tag_byte(6, 2));
    lemma_first_byte_gt_concat(e6, r6, tag_byte(6, 2), tag_byte(5, 2));
    lemma_first_byte_gt_concat(e5, r5, tag_byte(5, 2), tag_byte(4, 2));
    lemma_first_byte_gt_concat(e4, r4, tag_byte(4, 0), tag_byte(3, 2));
    lemma_first_byte_gt_concat(e3, r3, tag_byte(3, 0), tag_byte(2, 2));
    lemma_first_byte_gt_concat(e2, r2, tag_byte(2, 0), tag_byte(1, 2));
    lemma_scalar_field_exact(s, p1, 2, channel_code(v.channel), r2);
    lemma_tail_after(s, p1, e2, r2);
    let p2 = p1 + e2.len();
    lemma_scalar_field_exact(s, p2, 3, risk_level_code(v.risk_level), r3);
    lemma_tail_after(s, p2, e3, r3);
    let p3 = p2 + e3.len();
    lemma_scalar_field_exact(s, p3, 4, data_class_code(v.data_class), r4);
    lemma_tail_after(s, p3, e4, r4);
    let p4 = p3 + e4.len();
    lemma_ref_field_exact(s, p4, 5, v.subject, r5);
    lemma_tail_after(s, p4, e5, r5);
    let p5 = p4 + e5.len();
    lemma_reason_codes_field_exact(s, p5, 6, v.reason_codes, r6);
    lemma_tail_after(s, p5, e6, r6);
    let p6 = p5 + e6.len();
    lemma_params_field_exact(s, p6, 7, v.params, r7);
}

/// Assembles an intent parse from the seven field parses.
proof fn lemma_intent_assemble(
    s: Seq<u8>,
    v: CanonicalIntentV,
    p1: int,
    p2: int,
    p3: int,
    p4: int,
    p5: int,
    p6: int,
    p7: int,
)
    requires
        parse_string_field(s, 0, 1) == Ok::<(Seq<u8>, int), DecodeError>((v.intent_id, p1)),
        parse_scalar_field(s, p1, 2) == Ok::<(u64, int), DecodeError>(
            (channel_code(v.channel), p2),
        ),
        parse_scalar_field(s, p2, 3) == Ok::<(u64, int), DecodeError>(
            (risk_level_code(v.risk_level), p3),
        ),
        parse_scalar_field(s, p3, 4) == Ok::<(u64, int), DecodeError>(
            (data_class_code(v.data_class), p4),
        ),
        parse_ref_field(s, p4, 5) == Ok::<(Option<RefV>, int), DecodeError>((v.subject, p5)),
        parse_reason_codes_field(s, p5, 6) == Ok::<(Option<ReasonCodesV>, int), DecodeError>(
            (v.reason_codes, p6),
        ),
        parse_params_field(s, p6, 7) == Ok::<(Option<IntentParamsV>, int), DecodeError>(
            (v.params, p7),
        ),
        parse_end(s, p7) == Ok::<(), DecodeError>(()),
    ensures
        parse_intent(s) == Ok::<CanonicalIntentV, DecodeError>(v),
{
    assert(channel_of_code(channel_code(v.channel)) == Some(v.channel));
    assert(risk_level_of_code(risk_level_code(v.risk_level)) == Some(v.risk_level));
    assert(data_class_of_code(data_class_code(v.data_class)) == Some(v.data_class));
}

/// Parsing the canonical bytes of a well-formed intent model returns the
/// model unchanged.
#[verifier::rlimit(100)]
pub proof fn lemma_intent_round_trip(v: CanonicalIntentV)
    requires
        v.wf(),
    ensures
        parse_intent(canon_intent(v)) == Ok::<CanonicalIntentV, DecodeError>(v),
{
    let s = canon_intent(v);
    let e1 = enc_bytes_field(1, v.intent_id);
    let e2 = enc_scalar_field(2, channel_code(v.channel));
    let e3 = enc_scalar_field(3, risk_level_code(v.risk_level));
    let e4 = enc_scalar_field(4, data_class_code(v.data_class));
    let e5 = enc_delim_field(5, opt_canon_ref(v.subject));
    let e6 = enc_delim_field(6, opt_canon_reason_codes(v.reason_codes));
    let e7 = enc_delim_field(7, opt_canon_params(v.params));
    let r1 = e2 + (e3 + (e4 + (e5 + (e6 + (e7 + Seq::<u8>::empty())))));
    assert(e7 + Seq::<u8>::empty() =~= e7);
    lemma_concat_assoc(e1 + e2 + e3 + e4 + e5, e6, e7);
    lemma_concat_assoc(e1 + e2 + e3 + e4, e5, e6 + e7);
    lemma_concat_assoc(e1 + e2 + e3, e4, e5 + (e6 + e7));
    lemma_concat_assoc(e1 + e2, e3, e4 + (e5 + (e6 + e7)));
    lemma_concat_assoc(e1, e2, e3 + (e4 + (e5 + (e6 + e7))));
    assert(s == e1 + r1);
    assert(s.subrange(0, s.len() as int) =~= s);
    lemma_tail_after(s, 0, e1, r1);
    let p1 = e1.len() as int;
    lemma_intent_round_trip_tail(s, p1, v);
    lemma_bytes_field_exact(s, 0, 1, v.intent_id, r1);
    let p7 = p1 + e2.len() + e3.len() + e4.len() + e5.len() + e6.len() + e7.len();
    assert(parse_end(s, p7) == Ok::<(), DecodeError>(()));
    lemma_intent_assemble(
        s,
        v,
        p1,
        p1 + e2.len(),
        p1 + e2.len() + e3.len(),
        p1 + e2.len() + e3.len() + e4.len(),
        p1 + e2.len() + e3.len() + e4.len() + e5.len(),
        p1 + e2.len() + e3.len() + e4.len() + e5.len() + e6.len(),
        p7,
    );
}

impl CanonicalIntent {
    /// Decodes canonical bytes into an intent record, accepting exactly
    /// what `parse_intent` accepts.
    pub fn decode(buf: &[u8]) -> (r: Result<CanonicalIntent, DecodeError>)
        ensures
            match r {
                Ok(m) => parse_intent(buf@) == Ok::<CanonicalIntentV, DecodeError>(m@),
                Err(e) => parse_intent(buf@) == Err::<CanonicalIntentV, DecodeError>(e),
            },
    {
        match read_string_field(buf, 0, 1) {
            Err(e) => Err(e),
            Ok((intent_id, p1)) => match read_scalar_field(buf, p1, 2) {
                Err(e) => Err(e),
                Ok((cc, p2)) => match Channel::from_code(cc) {
                    None => Err(DecodeError::FieldTypeMismatch),
                    Some(channel) => match read_scalar_field(buf, p2, 3) {
                        Err(e) => Err(e),
                        Ok((rc, p3)) => match RiskLevel::from_code(rc) {
                            None => Err(DecodeError::FieldTypeMismatch),
                            Some(risk_level) => match read_scalar_field(buf, p3, 4) {
                                Err(e) => Err(e),
                                Ok((dc, p4)) => match DataClass::from_code(dc) {
                                    None => Err(DecodeError::FieldTypeMismatch),
                                    Some(data_class) => match read_ref_field(buf, p4, 5) {
                                        Err(e) => Err(e),
                                        Ok((subject, p5)) => match read_reason_codes_field(
                                            buf,
                                            p5,
                                            6,
                                        ) {
                                            Err(e) => Err(e),
                                            Ok((reason_codes, p6)) => match read_params_field(
                                                buf,
                                                p6,
                                                7,
                                            ) {
                                                Err(e) => Err(e),
                                                Ok((params, p7)) => match check_end(buf, p7) {
                                                    Err(e) => Err(e),
                                                    Ok(_) => Ok(
                                                        CanonicalIntent {
                                                            intent_id,
                                                            channel,
                                                            risk_level,
                                                            data_class,
                                                            subject,
                                                            reason_codes,
                                                            params,
                                                        },
                                                    ),
                                                },
                                            },
                                        },
                                    },
                                },
                            },
                        },
                    },
                },
            },
        }
    }
}


/// Parses the canonical bytes of a microcircuit configuration evidence
/// record.
pub open spec fn parse_micro(s: Seq<u8>) -> Result<MicrocircuitConfigEvidenceV, DecodeError> {
    match parse_scalar_field(s, 0, 1) {
        Err(e) => Err(e),
        Ok((mc, p1)) => match micro_module_of_code(mc) {
            None => Err(DecodeError::FieldTypeMismatch),
            Some(module) => match parse_u32_field(s, p1, 2) {
                Err(e) => Err(e),
                Ok((config_version, p2)) => match parse_digest32_field(s, p2, 3) {
                    Err(e) => Err(e),
                    Ok((config_digest, p3)) => match parse_scalar_field(s, p3, 4) {
                        Err(e) => Err(e),
                        Ok((created_at_ms, p4)) => match parse_digest32_field(s, p4, 5) {
                            Err(e) => Err(e),
                            Ok((prev_config_digest, p5)) => match parse_ref_field(s, p5, 6) {
                                Err(e) => Err(e),
                                Ok((proof_receipt_ref, p6)) => match parse_signature_field(
                                    s,
                                    p6,
                                    7,
                                ) {
                                    Err(e) => Err(e),
                                    Ok((attestation_sig, p7)) => match parse_opt_string_field(
                                        s,
                                        p7,
                                        8,
                                    ) {
                                        Err(e) => Err(e),
                                        Ok((attestation_key_id, p8)) => match parse_end(s, p8) {
                                            Err(e) => Err(e),
                                            Ok(_) => Ok(
                                                MicrocircuitConfigEvidenceV {
                                                    module,
                                                    config_version,
                                                    config_digest,
                                                    created_at_ms,
                                                    prev_config_digest,
                                                    proof_receipt_ref,
                                                    attestation_sig,
                                                    attestation_key_id,
                                                },
                                            ),
                                        },
                                    },
                                },
                            },
                        },
                    },
                },
            },
        },
    }
}

/// Parses the tail of a microcircuit configuration evidence record, fields
/// two through eight, from `p1`, and shows that the tail's first byte
/// belongs to a later field than the first.
#[verifier::rlimit(100)]
proof fn lemma_micro_round_trip_tail(s: Seq<u8>, p1: int, v: MicrocircuitConfigEvidenceV)
    requires
        v.wf(),
        0 <= p1 <= s.len(),
        s.subrange(p1, s.len() as int) == enc_scalar_field(2, v.config_version as u64)
            + (enc_delim_field(3, opt_canon_digest32(v.config_digest)) + (enc_scalar_field(
            4,
            v.created_at_ms,
        ) + (enc_delim_field(5, opt_canon_digest32(v.prev_config_digest)) + (enc_delim_field(
            6,
            opt_canon_ref(v.proof_receipt_ref),
        ) + (enc_delim_field(7, opt_canon_signature(v.attestation_sig)) + (enc_delim_field(
            8,
            v.attestation_key_id,
        ) + Seq::<u8>::empty())))))),
    ensures
        ({
            let e2 = enc_scalar_field(2, v.config_version as u64);
            let e3 = enc_delim_field(3, opt_canon_digest32(v.config_digest));
            let e4 = enc_scalar_field(4, v.created_at_ms);
            let e5 = enc_delim_field(5, opt_canon_digest32(v.prev_config_digest));
            let e6 = enc_delim_field(6, opt_canon_ref(v.proof_receipt_ref));
            let e7 = enc_delim_field(7, opt_canon_signature(v.attestation_sig));
            let e8 = enc_delim_field(8, v.attestation_key_id);
            &&& first_byte_gt(s.subrange(p1, s.len() as int), tag_byte(1, 2))
            &&& parse_u32_field(s, p1, 2) == Ok::<(u32, int), DecodeError>(
                (v.config_version, p1 + e2.len()),
            )
            &&& parse_digest32_field(s, p1 + e2.len(), 3) == Ok::<
                (Option<Digest32V>, int),
                DecodeError,
            >((v.config_digest, p1 + e2.len() + e3.len()))
            &&& parse_scalar_field(s, p1 + e2.len() + e3.len(), 4) == Ok::<
                (u64, int),
                DecodeError,
            >((v.created_at_ms, p1 + e2.len() + e3.len() + e4.len()))
            &&& parse_digest32_field(s, p1 + e2.len() + e3.len() + e4.len(), 5) == Ok::<
                (Option<Digest32V>, int),
                DecodeError,
            >((v.prev_config_digest, p1 + e2.len() + e3.len() + e4.len() + e5.len()))
            &&& parse_ref_field(s, p1 + e2.len() + e3.len() + e4.len() + e5.len(), 6) == Ok::<
                (Option<RefV>, int),
                DecodeError,
            >((v.proof_receipt_ref, p1 + e2.len() + e3.len() + e4.len() + e5.len() + e6.len()))
            &&& parse_signature_field(
                s,
                p1 + e2.len() + e3.len() + e4.len() + e5.len() + e6.len(),
                7,
            ) == Ok::<(Option<SignatureV>, int), DecodeError>(
                (
                    v.attestation_sig,
                    p1 + e2.len() + e3.len() + e4.len() + e5.len() + e6.len() + e7.len(),
                ),
            )
            &&& parse_opt_string_field(
                s,
                p1 + e2.len() + e3.len() + e4.len() + e5.len() + e6.len() + e7.len(),
                8,
            ) == Ok::<(Option<Seq<u8>>, int), DecodeError>(
                (
                    v.attestation_key_id,
                    p1 + e2.len() + e3.len() + e4.len() + e5.len() + e6.len() + e7.len()
                        + e8.len(),
                ),
            )
            &&& p1 + e2.len() + e3.len() + e4.len() + e5.len() + e6.len() + e7.len() + e8.len()
                == s.len()
        }),
{
    let e2 = enc_scalar_field(2, v.config_version as u64);
    let e3 = enc_delim_field(3, opt_canon_digest32(v.config_digest));
    let e4 = enc_scalar_field(4, v.created_at_ms);
    let e5 = enc_delim_field(5, opt_canon_digest32(v.prev_config_digest));
    let e6 = enc_delim_field(6, opt_canon_ref(v.proof_receipt_ref));
    let e7 = enc_delim_field(7, opt_canon_signature(v.attestation_sig));
    let e8 = enc_delim_field(8, v.attestation_key_id);
    let r8 = Seq::<u8>::empty();
    let r7 = e8 + r8;
    let r6 = e7 + r7;
    let r5 = e6 + r6;
    let r4 = e5 + r5;
    let r3 = e4 + r4;
    let r2 = e3 + r3;
    let r1 = e2 + r2;
    lemma_enc_scalar_first(2, v.config_version as u64);
    lemma_enc_delim_first(3, opt_canon_digest32(v.config_digest));
    lemma_enc_scalar_first(4, v.created_at_ms);
    lemma_enc_delim_first(5, opt_canon_digest32(v.prev_config_digest));
    lemma_enc_delim_first(6, opt_canon_ref(v.proof_receipt_ref));
    lemma_enc_delim_first(7, opt_canon_signature(v.attestation_sig));
    lemma_enc_delim_first(8, v.attestation_key_id);
    lemma_first_byte_gt_concat(e8, r8, tag_byte(8, 2), tag_byte(7, 2));
    lemma_first_byte_gt_concat(e7, r7, tag_byte(7, 2), tag_byte(6, 2));
    lemma_first_byte_gt_concat(e6, r6, tag_byte(6, 2), tag_byte(5, 2));
    lemma_first_byte_gt_concat(e5, r5, tag_byte(5, 2), tag_byte(4, 2));
    lemma_first_byte_gt_concat(e4, r4, tag_byte(4, 0), tag_byte(3, 2));
    lemma_first_byte_gt_concat(e3, r3, tag_byte(3, 2), tag_byte(2, 2));
    lemma_first_byte_gt_concat(e2, r2, tag_byte(2, 0), tag_byte(1, 2));
    lemma_scalar_field_exact(s, p1, 2, v.config_version as u64, r2);
    assert((v.config_version as u64) as u32 == v.config_version);
    lemma_tail_after(s, p1, e2, r2);
    let p2 = p1 + e2.len();
    lemma_digest32_field_exact(s, p2, 3, v.config_digest, r3);
    lemma_tail_after(s, p2, e3, r3);
    let p3 = p2 + e3.len();
    lemma_scalar_field_exact(s, p3, 4, v.created_at_ms, r4);
    lemma_tail_after(s, p3, e4, r4);
    let p4 = p3 + e4.len();
    lemma_digest32_field_exact(s, p4, 5, v.prev_config_digest, r5);
    lemma_tail_after(s, p4, e5, r5);
    let p5 = p4 + e5.len();
    lemma_ref_field_exact(s, p5, 6, v.proof_receipt_ref, r6);
    lemma_tail_after(s, p5, e6, r6);
    let p6 = p5 + e6.len();
    lemma_signature_field_exact(s, p6, 7, v.attestation_sig, r7);
    lemma_tail_after(s, p6, e7, r7);
    let p7 = p6 + e7.len();
    lemma_delim_field_exact(s, p7, 8, v.attestation_key_id, r8);
}

/// Assembles a microcircuit configuration evidence parse from the eight
/// field parses.
proof fn lemma_micro_assemble(
    s: Seq<u8>,
    v: MicrocircuitConfigEvidenceV,
    p1: int,
    p2: int,
    p3: int,
    p4: int,
    p5: int,
    p6: int,
    p7: int,
    p8: int,
)
    requires
        parse_scalar_field(s, 0, 1) == Ok::<(u64, int), DecodeError>(
            (micro_module_code(v.module), p1),
        ),
        parse_u32_field(s, p1, 2) == Ok::<(u32, int), DecodeError>((v.config_version, p2)),
        parse_digest32_field(s, p2, 3) == Ok::<(Option<Digest32V>, int), DecodeError>(
            (v.config_digest, p3),
        ),
        parse_scalar_field(s, p3, 4) == Ok::<(u64, int), DecodeError>((v.created_at_ms, p4)),
        parse_digest32_field(s, p4, 5) == Ok::<(Option<Digest32V>, int), DecodeError>(
            (v.prev_config_digest, p5),
        ),
        parse_ref_field(s, p5, 6) == Ok::<(Option<RefV>, int), DecodeError>(
            (v.proof_receipt_ref, p6),
        ),
        parse_signature_field(s, p6, 7) == Ok::<(Option<SignatureV>, int), DecodeError>(
            (v.attestation_sig, p7),
        ),
        parse_opt_string_field(s, p7, 8) == Ok::<(Option<Seq<u8>>, int), DecodeError>(
            (v.attestation_key_id, p8),
        ),
        parse_end(s, p8) == Ok::<(), DecodeError>(()),
    ensures
        parse_micro(s) == Ok::<MicrocircuitConfigEvidenceV, DecodeError>(v),
{
    assert(micro_module_of_code(micro_module_code(v.module)) == Some(v.module));
}

/// Parsing the canonical bytes of a well-formed microcircuit configuration
/// evidence model returns the model unchanged.
#[verifier::rlimit(100)]
pub proof fn lemma_micro_round_trip(v: MicrocircuitConfigEvidenceV)
    requires
        v.wf(),
    ensures
        parse_micro(canon_micro(v)) == Ok::<MicrocircuitConfigEvidenceV, DecodeError>(v),
{
    let s = canon_micro(v);
    let e1 = enc_scalar_field(1, micro_module_code(v.module));
    let e2 = enc_scalar_field(2, v.config_version as u64);
    let e3 = enc_delim_field(3, opt_canon_digest32(v.config_digest));
    let e4 = enc_scalar_field(4, v.created_at_ms);
    let e5 = enc_delim_field(5, opt_canon_digest32(v.prev_config_digest));
    let e6 = enc_delim_field(6, opt_canon_ref(v.proof_receipt_ref));
    let e7 = enc_delim_field(7, opt_canon_signature(v.attestation_sig));
    let e8 = enc_delim_field(8, v.attestation_key_id);
    let r1 = e2 + (e3 + (e4 + (e5 + (e6 + (e7 + (e8 + Seq::<u8>::empty()))))));
    assert(e8 + Seq::<u8>::empty() =~= e8);
    lemma_concat_assoc(e1 + e2 + e3 + e4 + e5 + e6, e7, e8);
    lemma_concat_assoc(e1 + e2 + e3 + e4 + e5, e6, e7 + e8);
    lemma_concat_assoc(e1 + e2 + e3 + e4, e5, e6 + (e7 + e8));
    lemma_concat_assoc(e1 + e2 + e3, e4, e5 + (e6 + (e7 + e8)));
    lemma_concat_assoc(e1 + e2, e3, e4 + (e5 + (e6 + (e7 + e8))));
    lemma_concat_assoc(e1, e2, e3 + (e4 + (e5 + (e6 + (e7 + e8)))));
    assert(s == e1 + r1);
    assert(s.subrange(0, s.len() as int) =~= s);
    lemma_tail_after(s, 0, e1, r1);
    let p1 = e1.len() as int;
    lemma_micro_round_trip_tail(s, p1, v);
    lemma_scalar_field_exact(s, 0, 1, micro_module_code(v.module), r1);
    let p8 = p1 + e2.len() + e3.len() + e4.len() + e5.len() + e6.len() + e7.len() + e8.len();
    assert(parse_end(s, p8) == Ok::<(), DecodeError>(()));
    lemma_micro_assemble(
        s,
        v,
        p1,
        p1 + e2.len(),
        p1 + e2.len() + e3.len(),
        p1 + e2.len() + e3.len() + e4.len(),
        p1 + e2.len() + e3.len() + e4.len() + e5.len(),
        p1 + e2.len() + e3.len() + e4.len() + e5.len() + e6.len(),
        p1 + e2.len() + e3.len() + e4.len() + e5.len() + e6.len() + e7.len(),
        p8,
    );
}

impl MicrocircuitConfigEvidence {
    /// Decodes canonical bytes into a microcircuit configuration evidence
    /// record, accepting exactly what `parse_micro` accepts.
    #[verifier::rlimit(100)]
    pub fn decode(buf: &[u8]) -> (r: Result<MicrocircuitConfigEvidence, DecodeError>)
        ensures
            match r {
                Ok(m) => parse_micro(buf@) == Ok::<MicrocircuitConfigEvidenceV, DecodeError>(m@),
                Err(e) => parse_micro(buf@) == Err::<MicrocircuitConfigEvidenceV, DecodeError>(e),
            },
    {
        match read_scalar_field(buf, 0, 1) {
            Err(e) => Err(e),
            Ok((mc, p1)) => match MicroModule::from_code(mc) {
                None => Err(DecodeError::FieldTypeMismatch),
                Some(module) => match read_u32_field(buf, p1, 2) {
                    Err(e) => Err(e),
                    Ok((config_version, p2)) => match read_digest32_field(buf, p2, 3) {
                        Err(e) => Err(e),
                        Ok((config_digest, p3)) => match read_scalar_field(buf, p3, 4) {
                            Err(e) => Err(e),
                            Ok((created_at_ms, p4)) => match read_digest32_field(buf, p4, 5) {
                                Err(e) => Err(e),
                                Ok((prev_config_digest, p5)) => match read_ref_field(
                                    buf,
                                    p5,
                                    6,
                                ) {
                                    Err(e) => Err(e),
                                    Ok((proof_receipt_ref, p6)) => match read_signature_field(
                                        buf,
                                        p6,
                                        7,
                                    ) {
                                        Err(e) => Err(e),
                                        Ok((attestation_sig, p7)) => match read_opt_string_field(
                                            buf,
                                            p7,
                                            8,
                                        ) {
                                            Err(e) => Err(e),
                                            Ok((attestation_key_id, p8)) => match check_end(
                                                buf,
                                                p8,
                                            ) {
                                                Err(e) => Err(e),
                                                Ok(_) => Ok(
                                                    MicrocircuitConfigEvidence {
                                                        module,
                                                        config_version,
                                                        config_digest,
                                                        created_at_ms,
                                                        prev_config_digest,
                                                        proof_receipt_ref,
                                                        attestation_sig,
                                                        attestation_key_id,
                                                    },
                                                ),
                                            },
                                        },
                                    },
                                },
                            },
                        },
                    },
                },
            },
        }
    }
}

} // verus!
