//! The tag-ordered, length-delimited wire format that canonical record bytes
//! follow. Fields are emitted in ascending field-number order; scalar zero
//! values, empty byte strings and absent sub-messages are elided; values set
//! under optional presence keep their field even at default value. The
//! parsing functions here accept exactly what the encoding functions emit.

use vstd::prelude::*;

verus! {

/// Why a byte string was rejected on decode.
#[derive(Clone, Copy, Debug, PartialEq, Eq, Structural)]
pub enum DecodeError {
    /// A truncated buffer, a malformed or non-minimal varint, or an elided
    /// default that was written out.
    MalformedWire,
    /// Bytes after the last recognised field that do not look like a field.
    TrailingBytes,
    /// A field value that does not fit the field's type.
    FieldTypeMismatch,
    /// A field this schema does not know, which canonical decoding cannot
    /// preserve.
    UnknownRequiredField,
}

/// The minimal base-128 varint encoding of `v`: seven value bits per byte,
/// low group first, high bit set on every byte but the last.
pub open spec fn varint(v: u64) -> Seq<u8>
    decreases v,
{
    if v < 128 {
        seq![v as u8]
    } else {
        seq![(v % 128 + 128) as u8] + varint(v / 128)
    }
}

/// Parses a varint from the front of `s`, accepting only the minimal
/// encoding of a value that fits in 64 bits; returns the value and the
/// number of bytes read.
pub open spec fn parse_varint(s: Seq<u8>) -> Result<(u64, int), DecodeError>
    decreases s.len(),
{
    if s.len() == 0 {
        Err(DecodeError::MalformedWire)
    } else if s[0] < 128 {
        Ok((s[0] as u64, 1))
    } else {
        match parse_varint(s.drop_first()) {
            Err(e) => Err(e),
            Ok((v, n)) => if v == 0 {
                Err(DecodeError::MalformedWire)
            } else if v <= (0xffff_ffff_ffff_ffffu64 - (s[0] - 128)) / 128 {
                Ok((((s[0] - 128) + 128 * v) as u64, n + 1))
            } else {
                Err(DecodeError::MalformedWire)
            },
        }
    }
}

/// A successful varint parse consumes between one byte and the whole buffer.
pub proof fn lemma_parse_varint_consumes(s: Seq<u8>)
    ensures
        parse_varint(s) matches Ok((v, n)) ==> 1 <= n <= s.len(),
    decreases s.len(),
{
    if s.len() > 0 && s[0] >= 128 {
        lemma_parse_varint_consumes(s.drop_first());
    }
}

/// Parsing the minimal encoding of `v`, whatever follows it, returns `v` and
/// consumes exactly the encoding.
pub proof fn lemma_parse_varint_exact(v: u64, rest: Seq<u8>)
    ensures
        parse_varint(varint(v) + rest) == Ok::<(u64, int), DecodeError>(
            (v, varint(v).len() as int),
        ),
    decreases v,
{
    let s = varint(v) + rest;
    if v < 128 {
        assert(s[0] == v as u8);
    } else {
        assert(s[0] == (v % 128 + 128) as u8);
        assert(s[0] >= 128);
        assert(s.drop_first() =~= varint(v / 128) + rest);
        lemma_parse_varint_exact(v / 128, rest);
        let inner = v / 128;
        let low = v % 128;
        assert(inner >= 1);
        assert(v == 128 * inner + low);
        assert(128 * inner <= 0xffff_ffff_ffff_ffffu64 - low);
        assert(inner <= (0xffff_ffff_ffff_ffffu64 - low) / 128);
        assert((s[0] - 128) + 128 * inner == v);
    }
}

/// Parses a varint at position `pos` of `s`; on success the second component
/// is the position after the varint.
pub open spec fn parse_varint_at(s: Seq<u8>, pos: int) -> Result<(u64, int), DecodeError>
    recommends
        0 <= pos <= s.len(),
{
    match parse_varint(s.subrange(pos, s.len() as int)) {
        Ok((v, n)) => Ok((v, pos + n)),
        Err(e) => Err(e),
    }
}

/// The single tag byte of a field: field number and wire type.
pub open spec fn tag_byte(field: u64, wire: u64) -> u8
    recommends
        1 <= field,
        field * 8 + wire < 128,
{
    (field * 8 + wire) as u8
}

/// The encoding of a varint-typed field: elided at zero, else the tag byte
/// and the minimal varint of the value.
pub open spec fn enc_scalar_field(field: u64, v: u64) -> Seq<u8> {
    if v == 0 {
        Seq::empty()
    } else {
        seq![tag_byte(field, 0)] + varint(v)
    }
}

/// The encoding of a length-delimited field with explicit presence: elided
/// when absent, else the tag byte, the length varint, and the content, even
/// when the content is empty.
pub open spec fn enc_delim_field(field: u64, content: Option<Seq<u8>>) -> Seq<u8> {
    match content {
        Option::None => Seq::empty(),
        Option::Some(b) => seq![tag_byte(field, 2)] + varint(b.len() as u64) + b,
    }
}

/// The encoding of a length-delimited field whose empty content is elided.
pub open spec fn enc_bytes_field(field: u64, b: Seq<u8>) -> Seq<u8> {
    if b.len() == 0 {
        Seq::empty()
    } else {
        enc_delim_field(field, Option::Some(b))
    }
}

/// The encoding of a repeated length-delimited field: one tagged element per
/// entry, in the order given, empty entries as well.
pub open spec fn enc_rep_delim_field(field: u64, elems: Seq<Seq<u8>>) -> Seq<u8>
    decreases elems.len(),
{
    if elems.len() == 0 {
        Seq::empty()
    } else {
        enc_delim_field(field, Option::Some(elems[0])) + enc_rep_delim_field(
            field,
            elems.drop_first(),
        )
    }
}

/// Parses one optional varint-typed field at `pos`: the value is zero when
/// the field is absent, and a written-out zero is rejected as non-canonical.
pub open spec fn parse_scalar_field(s: Seq<u8>, pos: int, field: u64) -> Result<
    (u64, int),
    DecodeError,
> {
    if pos < s.len() && s[pos] == tag_byte(field, 0) {
        match parse_varint_at(s, pos + 1) {
            Ok((v, p)) => if v == 0 {
                Err(DecodeError::MalformedWire)
            } else {
                Ok((v, p))
            },
            Err(e) => Err(e),
        }
    } else {
        Ok((0, pos))
    }
}

/// Parses one optional length-delimited field at `pos`, returning its
/// content when present.
pub open spec fn parse_delim_field(s: Seq<u8>, pos: int, field: u64) -> Result<
    (Option<Seq<u8>>, int),
    DecodeError,
> {
    if pos < s.len() && s[pos] == tag_byte(field, 2) {
        match parse_varint_at(s, pos + 1) {
            Ok((l, p)) => if p + l <= s.len() {
                Ok((Option::Some(s.subrange(p, p + l)), p + l))
            } else {
                Err(DecodeError::MalformedWire)
            },
            Err(e) => Err(e),
        }
    } else {
        Ok((Option::None, pos))
    }
}

/// Parses a repeated length-delimited field at `pos`: every consecutive
/// occurrence of the field's tag.
pub open spec fn parse_rep_delim_field(s: Seq<u8>, pos: int, field: u64) -> Result<
    (Seq<Seq<u8>>, int),
    DecodeError,
>
    recommends
        0 <= pos <= s.len(),
    decreases s.len() - pos,
    when 0 <= pos <= s.len()
    via parse_rep_delim_field_dec
{
    if pos < s.len() && s[pos] == tag_byte(field, 2) {
        match parse_varint_at(s, pos + 1) {
            Ok((l, p)) => if p + l <= s.len() {
                match parse_rep_delim_field(s, p + l, field) {
                    Ok((elems, fin)) => Ok((seq![s.subrange(p, p + l)] + elems, fin)),
                    Err(e) => Err(e),
                }
            } else {
                Err(DecodeError::MalformedWire)
            },
            Err(e) => Err(e),
        }
    } else {
        Ok((Seq::empty(), pos))
    }
}

#[via_fn]
proof fn parse_rep_delim_field_dec(s: Seq<u8>, pos: int, field: u64) {
    if pos < s.len() && s[pos] == tag_byte(field, 2) {
        lemma_parse_varint_consumes(s.subrange(pos + 1, s.len() as int));
    }
}

/// What must hold after the last field of a message: either the input ends,
/// or what follows is rejected, as an unknown field when it looks like one
/// and as trailing bytes otherwise.
pub open spec fn parse_end(s: Seq<u8>, pos: int) -> Result<(), DecodeError> {
    if pos == s.len() {
        Ok(())
    } else if pos < s.len() && (s[pos] % 8 == 0 || s[pos] % 8 == 2) && s[pos] / 8 >= 1 {
        Err(DecodeError::UnknownRequiredField)
    } else {
        Err(DecodeError::TrailingBytes)
    }
}

/// Whether `s` is empty or starts with a byte above `t`. In a canonical
/// message, what follows one field's encoding is a later field's tag byte,
/// which is larger, or the end of the message.
pub open spec fn first_byte_gt(s: Seq<u8>, t: u8) -> bool {
    s.len() == 0 || s[0] > t
}

/// Concatenation of byte strings is associative.
pub proof fn lemma_concat_assoc(a: Seq<u8>, b: Seq<u8>, c: Seq<u8>)
    ensures
        (a + b) + c == a + (b + c),
{
    assert((a + b) + c =~= a + (b + c));
}

/// If the bytes of `s` from `pos` on are `a + b`, then `pos` is in bounds
/// whenever `a` is non-empty, and the byte there is the first byte of `a`.
pub proof fn lemma_first_of(s: Seq<u8>, pos: int, a: Seq<u8>, b: Seq<u8>)
    requires
        0 <= pos <= s.len(),
        s.subrange(pos, s.len() as int) == a + b,
        a.len() > 0,
    ensures
        pos < s.len(),
        s[pos] == a[0],
{
    let tail = s.subrange(pos, s.len() as int);
    assert(tail.len() == a.len() + b.len());
    assert(tail[0] == s[pos]);
    assert(tail[0] == (a + b)[0]);
}

/// If the bytes of `s` from `pos` on are `a + b`, the bytes from
/// `pos + a.len()` on are `b`.
pub proof fn lemma_tail_after(s: Seq<u8>, pos: int, a: Seq<u8>, b: Seq<u8>)
    requires
        0 <= pos <= s.len(),
        s.subrange(pos, s.len() as int) == a + b,
    ensures
        pos + a.len() <= s.len(),
        s.subrange(pos + a.len(), s.len() as int) == b,
{
    let tail = s.subrange(pos, s.len() as int);
    assert(tail.len() == a.len() + b.len());
    let t2 = s.subrange(pos + a.len(), s.len() as int);
    assert forall|i: int| 0 <= i < b.len() implies t2[i] == b[i] by {
        assert(t2[i] == s[pos + a.len() + i]);
        assert(tail[a.len() + i] == s[pos + a.len() + i]);
        assert(tail[a.len() + i] == (a + b)[a.len() + i]);
    }
    assert(t2 =~= b);
}

/// If the bytes of `s` from `pos` on are `a + b`, the `a.len()` bytes at
/// `pos` are `a`.
pub proof fn lemma_head_of(s: Seq<u8>, pos: int, a: Seq<u8>, b: Seq<u8>)
    requires
        0 <= pos <= s.len(),
        s.subrange(pos, s.len() as int) == a + b,
    ensures
        pos + a.len() <= s.len(),
        s.subrange(pos, pos + a.len()) == a,
{
    let tail = s.subrange(pos, s.len() as int);
    assert(tail.len() == a.len() + b.len());
    let h = s.subrange(pos, pos + a.len());
    assert forall|i: int| 0 <= i < a.len() implies h[i] == a[i] by {
        assert(h[i] == s[pos + i]);
        assert(tail[i] == s[pos + i]);
        assert(tail[i] == (a + b)[i]);
    }
    assert(h =~= a);
}

/// A scalar field's encoding is empty or starts with its tag byte.
pub proof fn lemma_enc_scalar_first(field: u64, v: u64)
    requires
        1 <= field,
        field * 8 + 2 < 128,
    ensures
        enc_scalar_field(field, v).len() == 0 || enc_scalar_field(field, v)[0] == tag_byte(
            field,
            0,
        ),
{
    if v != 0 {
        assert(enc_scalar_field(field, v)[0] == (seq![tag_byte(field, 0)] + varint(v))[0]);
    }
}

/// A length-delimited field's encoding is empty or starts with its tag byte.
pub proof fn lemma_enc_delim_first(field: u64, content: Option<Seq<u8>>)
    requires
        1 <= field,
        field * 8 + 2 < 128,
    ensures
        enc_delim_field(field, content).len() == 0 || enc_delim_field(field, content)[0]
            == tag_byte(field, 2),
{
    match content {
        Option::None => {},
        Option::Some(b) => {
            assert(enc_delim_field(field, content)[0] == (seq![tag_byte(field, 2)] + varint(
                b.len() as u64,
            ) + b)[0]);
        },
    }
}

/// A bytes field's encoding is empty or starts with its tag byte.
pub proof fn lemma_enc_bytes_first(field: u64, b: Seq<u8>)
    requires
        1 <= field,
        field * 8 + 2 < 128,
    ensures
        enc_bytes_field(field, b).len() == 0 || enc_bytes_field(field, b)[0] == tag_byte(field, 2),
{
    if b.len() > 0 {
        lemma_enc_delim_first(field, Option::Some(b));
    }
}

/// A repeated field's encoding is empty or starts with its tag byte.
pub proof fn lemma_enc_rep_first(field: u64, elems: Seq<Seq<u8>>)
    requires
        1 <= field,
        field * 8 + 2 < 128,
    ensures
        enc_rep_delim_field(field, elems).len() == 0 || enc_rep_delim_field(field, elems)[0]
            == tag_byte(field, 2),
{
    if elems.len() > 0 {
        lemma_enc_delim_first(field, Option::Some(elems[0]));
        let one = enc_delim_field(field, Option::Some(elems[0]));
        assert(one.len() > 0);
        assert(enc_rep_delim_field(field, elems)[0] == (one + enc_rep_delim_field(
            field,
            elems.drop_first(),
        ))[0]);
    }
}

/// Prepending a later field's encoding to a remainder that starts beyond
/// `t` keeps the remainder starting beyond `t`.
pub proof fn lemma_first_byte_gt_concat(a: Seq<u8>, b: Seq<u8>, ta: u8, t: u8)
    requires
        a.len() == 0 || a[0] == ta,
        ta > t,
        first_byte_gt(b, t),
    ensures
        first_byte_gt(a + b, t),
{
    if a.len() > 0 {
        assert((a + b)[0] == a[0]);
    } else {
        assert(a + b =~= b);
        if b.len() > 0 {
            assert((a + b)[0] == b[0]);
        }
    }
}

/// Parsing an encoded scalar field at its position returns its value and
/// consumes exactly its encoding, provided what follows belongs to a later
/// field.
pub proof fn lemma_scalar_field_exact(s: Seq<u8>, pos: int, field: u64, v: u64, rest: Seq<u8>)
    requires
        0 <= pos <= s.len(),
        1 <= field,
        field * 8 + 2 < 128,
        s.subrange(pos, s.len() as int) == enc_scalar_field(field, v) + rest,
        v == 0 ==> first_byte_gt(rest, tag_byte(field, 2)),
    ensures
        parse_scalar_field(s, pos, field) == Ok::<(u64, int), DecodeError>(
            (v, pos + enc_scalar_field(field, v).len()),
        ),
{
    let tail = s.subrange(pos, s.len() as int);
    if v == 0 {
        assert(enc_scalar_field(field, v) =~= Seq::<u8>::empty());
        assert(tail =~= rest);
        if pos < s.len() {
            assert(s[pos] == tail[0]);
            assert(s[pos] > tag_byte(field, 2));
            assert(tag_byte(field, 2) == (field * 8 + 2) as u8);
            assert(tag_byte(field, 0) == (field * 8) as u8);
            assert(s[pos] != tag_byte(field, 0));
        }
    } else {
        let t = seq![tag_byte(field, 0)];
        assert(enc_scalar_field(field, v) + rest =~= t + (varint(v) + rest));
        lemma_first_of(s, pos, t + (varint(v) + rest), Seq::<u8>::empty());
        assert(t + (varint(v) + rest) + Seq::<u8>::empty() =~= enc_scalar_field(field, v) + rest);
        assert(s[pos] == tag_byte(field, 0));
        lemma_tail_after(s, pos, t, varint(v) + rest);
        lemma_parse_varint_exact(v, rest);
        assert(parse_varint_at(s, pos + 1) == Ok::<(u64, int), DecodeError>(
            (v, pos + 1 + varint(v).len()),
        ));
        assert(enc_scalar_field(field, v).len() == 1 + varint(v).len());
    }
}

/// Parsing an encoded length-delimited field at its position returns its
/// content and consumes exactly its encoding, provided what follows belongs
/// to a later field.
pub proof fn lemma_delim_field_exact(
    s: Seq<u8>,
    pos: int,
    field: u64,
    content: Option<Seq<u8>>,
    rest: Seq<u8>,
)
    requires
        0 <= pos <= s.len(),
        1 <= field,
        field * 8 + 2 < 128,
        s.subrange(pos, s.len() as int) == enc_delim_field(field, content) + rest,
        content is None ==> first_byte_gt(rest, tag_byte(field, 2)),
        content matches Some(b) ==> b.len() <= 0xffff_ffff_ffff_ffffu64,
    ensures
        parse_delim_field(s, pos, field) == Ok::<(Option<Seq<u8>>, int), DecodeError>(
            (content, pos + enc_delim_field(field, content).len()),
        ),
{
    let tail = s.subrange(pos, s.len() as int);
    match content {
        Option::None => {
            assert(enc_delim_field(field, content) =~= Seq::<u8>::empty());
            assert(tail =~= rest);
            if pos < s.len() {
                assert(s[pos] == tail[0]);
                assert(s[pos] != tag_byte(field, 2));
            }
        },
        Option::Some(b) => {
            let t = seq![tag_byte(field, 2)];
            let lv = varint(b.len() as u64);
            let enc = enc_delim_field(field, content);
            assert(enc =~= t + lv + b);
            assert(enc + rest =~= t + (lv + (b + rest)));
            lemma_first_of(s, pos, t, lv + (b + rest));
            assert(s[pos] == tag_byte(field, 2));
            lemma_tail_after(s, pos, t, lv + (b + rest));
            lemma_parse_varint_exact(b.len() as u64, b + rest);
            let p = pos + 1 + lv.len();
            assert(parse_varint_at(s, pos + 1) == Ok::<(u64, int), DecodeError>(
                (b.len() as u64, p),
            ));
            lemma_tail_after(s, pos + 1, lv, b + rest);
            lemma_head_of(s, p, b, rest);
            assert(p + b.len() <= s.len());
            assert(enc.len() == 1 + lv.len() + b.len());
        },
    }
}

/// Parsing an encoded repeated length-delimited field at its position
/// returns its elements in order and consumes exactly its encoding, provided
/// what follows belongs to a later field.
pub proof fn lemma_rep_delim_field_exact(
    s: Seq<u8>,
    pos: int,
    field: u64,
    elems: Seq<Seq<u8>>,
    rest: Seq<u8>,
)
    requires
        0 <= pos <= s.len(),
        1 <= field,
        field * 8 + 2 < 128,
        s.subrange(pos, s.len() as int) == enc_rep_delim_field(field, elems) + rest,
        first_byte_gt(rest, tag_byte(field, 2)),
        forall|i: int| 0 <= i < elems.len() ==> (#[trigger] elems[i]).len()
            <= 0xffff_ffff_ffff_ffffu64,
    ensures
        parse_rep_delim_field(s, pos, field) == Ok::<(Seq<Seq<u8>>, int), DecodeError>(
            (elems, pos + enc_rep_delim_field(field, elems).len()),
        ),
    decreases elems.len(),
{
    let tail = s.subrange(pos, s.len() as int);
    if elems.len() == 0 {
        assert(enc_rep_delim_field(field, elems) =~= Seq::<u8>::empty());
        assert(elems =~= Seq::<Seq<u8>>::empty());
        assert(tail =~= rest);
        if pos < s.len() {
            assert(s[pos] == tail[0]);
            assert(s[pos] != tag_byte(field, 2));
        }
        assert(parse_rep_delim_field(s, pos, field) == Ok::<(Seq<Seq<u8>>, int), DecodeError>(
            (elems, pos),
        ));
    } else {
        let b = elems[0];
        let t = seq![tag_byte(field, 2)];
        let lv = varint(b.len() as u64);
        let one = enc_delim_field(field, Option::Some(b));
        let remaining = enc_rep_delim_field(field, elems.drop_first());
        assert(one =~= t + lv + b);
        assert(enc_rep_delim_field(field, elems) == one + remaining);
        assert(enc_rep_delim_field(field, elems) + rest =~= t + (lv + (b + (remaining + rest))));
        lemma_first_of(s, pos, t, lv + (b + (remaining + rest)));
        assert(s[pos] == tag_byte(field, 2));
        lemma_tail_after(s, pos, t, lv + (b + (remaining + rest)));
        lemma_parse_varint_exact(b.len() as u64, b + (remaining + rest));
        let p = pos + 1 + lv.len();
        assert(parse_varint_at(s, pos + 1) == Ok::<(u64, int), DecodeError>((b.len() as u64, p)));
        lemma_tail_after(s, pos + 1, lv, b + (remaining + rest));
        lemma_head_of(s, p, b, remaining + rest);
        assert(p + b.len() <= s.len());
        lemma_tail_after(s, p, b, remaining + rest);
        lemma_rep_delim_field_exact(s, p + b.len(), field, elems.drop_first(), rest);
        assert(seq![b] + elems.drop_first() =~= elems);
        assert(enc_rep_delim_field(field, elems).len() == one.len() + remaining.len());
        assert(one.len() == 1 + lv.len() + b.len());
        assert(parse_rep_delim_field(s, p + b.len(), field) == Ok::<
            (Seq<Seq<u8>>, int),
            DecodeError,
        >((elems.drop_first(), p + b.len() + remaining.len())));
        assert(b.len() as u64 as int == b.len() as int);
        assert(parse_rep_delim_field(s, pos, field) == Ok::<(Seq<Seq<u8>>, int), DecodeError>(
            (seq![s.subrange(p, p + b.len())] + elems.drop_first(), p + b.len() + remaining.len()),
        ));
        assert(seq![s.subrange(p, p + b.len())] + elems.drop_first() == elems);
        assert(pos + enc_rep_delim_field(field, elems).len() == p + b.len() + remaining.len());
    }
}

/// Appends the minimal varint encoding of `v` to `out`.
pub fn emit_varint(out: &mut Vec<u8>, v: u64)
    ensures
        final(out)@ == old(out)@ + varint(v),
{
    let mut x: u64 = v;
    while x >= 128
        invariant
            old(out)@ + varint(v) == out@ + varint(x),
        decreases x,
    {
        let ghost pre = out@;
        let ghost xpre = x;
        out.push((x % 128 + 128) as u8);
        x = x / 128;
        proof {
            assert(varint(xpre) == seq![(xpre % 128 + 128) as u8] + varint(x));
            assert(pre + varint(xpre) =~= out@ + varint(x));
        }
    }
    let ghost pre = out@;
    out.push(x as u8);
    proof {
        assert(varint(x) == seq![x as u8]);
        assert(pre + varint(x) =~= out@);
    }
}

/// Appends the encoding of a varint-typed field: nothing at zero.
pub fn emit_scalar_field(out: &mut Vec<u8>, field: u64, v: u64)
    requires
        1 <= field,
        field * 8 + 2 < 128,
    ensures
        final(out)@ == old(out)@ + enc_scalar_field(field, v),
{
    if v == 0 {
        proof {
            assert(old(out)@ + enc_scalar_field(field, v) =~= out@);
        }
        return ;
    }
    let ghost pre = out@;
    out.push((field * 8) as u8);
    emit_varint(out, v);
    proof {
        assert(pre + enc_scalar_field(field, v) =~= out@);
    }
}

/// Appends the encoding of a present length-delimited field: its tag, the
/// length, and the content, the content being empty or not.
pub fn emit_delim_present(out: &mut Vec<u8>, field: u64, content: &[u8])
    requires
        1 <= field,
        field * 8 + 2 < 128,
    ensures
        final(out)@ == old(out)@ + enc_delim_field(field, Option::Some(content@)),
{
    let ghost pre = out@;
    out.push((field * 8 + 2) as u8);
    emit_varint(out, content.len() as u64);
    crate::bytes::append_bytes(out, content);
    proof {
        assert(pre + enc_delim_field(field, Option::Some(content@)) =~= out@);
    }
}

/// Appends the encoding of a length-delimited field whose empty content is
/// elided.
pub fn emit_bytes_field(out: &mut Vec<u8>, field: u64, content: &[u8])
    requires
        1 <= field,
        field * 8 + 2 < 128,
    ensures
        final(out)@ == old(out)@ + enc_bytes_field(field, content@),
{
    if content.len() > 0 {
        emit_delim_present(out, field, content);
    } else {
        proof {
            assert(old(out)@ + enc_bytes_field(field, content@) =~= out@);
        }
    }
}

/// Reads a varint at `pos`, exactly as `parse_varint_at` accepts it.
pub fn read_varint(buf: &[u8], pos: usize) -> (r: Result<(u64, usize), DecodeError>)
    requires
        pos <= buf@.len(),
    ensures
        match r {
            Ok((v, p)) => pos < p <= buf@.len() && parse_varint_at(buf@, pos as int) == Ok::<
                (u64, int),
                DecodeError,
            >((v, p as int)),
            Err(e) => parse_varint_at(buf@, pos as int) == Err::<(u64, int), DecodeError>(e),
        },
    decreases buf@.len() - pos,
{
    let ghost tail = buf@.subrange(pos as int, buf@.len() as int);
    if pos >= buf.len() {
        proof {
            assert(tail.len() == 0);
        }
        return Err(DecodeError::MalformedWire);
    }
    let b: u8 = buf[pos];
    proof {
        assert(tail[0] == buf@[pos as int]);
    }
    if b < 128 {
        return Ok((b as u64, pos + 1));
    }
    proof {
        assert(tail.drop_first() =~= buf@.subrange(pos as int + 1, buf@.len() as int));
    }
    match read_varint(buf, pos + 1) {
        Err(e) => Err(e),
        Ok((v, p)) => {
            if v == 0 {
                return Err(DecodeError::MalformedWire);
            }
            let low = (b - 128) as u64;
            if v <= (u64::MAX - low) / 128 {
                proof {
                    assert(128 * ((u64::MAX - low) / 128) <= u64::MAX - low);
                    assert(128 * v <= 128 * ((u64::MAX - low) / 128)) by (nonlinear_arith)
                        requires
                            v <= (u64::MAX - low) / 128,
                    ;
                }
                Ok((low + 128 * v, p))
            } else {
                Err(DecodeError::MalformedWire)
            }
        },
    }
}

/// Reads one optional varint-typed field at `pos`, exactly as
/// `parse_scalar_field` accepts it.
pub fn read_scalar_field(buf: &[u8], pos: usize, field: u64) -> (r: Result<
    (u64, usize),
    DecodeError,
>)
    requires
        pos <= buf@.len(),
        1 <= field,
        field * 8 + 2 < 128,
    ensures
        match r {
            Ok((v, p)) => pos <= p <= buf@.len() && parse_scalar_field(buf@, pos as int, field)
                == Ok::<(u64, int), DecodeError>((v, p as int)),
            Err(e) => parse_scalar_field(buf@, pos as int, field) == Err::<(u64, int), DecodeError>(
                e,
            ),
        },
{
    if pos < buf.len() && buf[pos] == (field * 8) as u8 {
        match read_varint(buf, pos + 1) {
            Err(e) => Err(e),
            Ok((v, p)) => {
                if v == 0 {
                    Err(DecodeError::MalformedWire)
                } else {
                    Ok((v, p))
                }
            },
        }
    } else {
        Ok((0, pos))
    }
}

/// Reads one optional length-delimited field at `pos`, exactly as
/// `parse_delim_field` accepts it.
pub fn read_delim_field(buf: &[u8], pos: usize, field: u64) -> (r: Result<
    (Option<Vec<u8>>, usize),
    DecodeError,
>)
    requires
        pos <= buf@.len(),
        1 <= field,
        field * 8 + 2 < 128,
    ensures
        match r {
            Ok((c, p)) => pos <= p <= buf@.len() && parse_delim_field(buf@, pos as int, field)
                == Ok::<(Option<Seq<u8>>, int), DecodeError>((c.deep_view(), p as int)),
            Err(e) => parse_delim_field(buf@, pos as int, field) == Err::<
                (Option<Seq<u8>>, int),
                DecodeError,
            >(e),
        },
{
    if pos < buf.len() && buf[pos] == (field * 8 + 2) as u8 {
        match read_varint(buf, pos + 1) {
            Err(e) => Err(e),
            Ok((l, p)) => {
                if l <= (buf.len() - p) as u64 {
                    let lu = l as usize;
                    let content = vstd::slice::slice_to_vec(
                        vstd::slice::slice_subrange(buf, p, p + lu),
                    );
                    proof {
                        assert(content.deep_view() =~= content@);
                    }
                    Ok((Some(content), p + lu))
                } else {
                    Err(DecodeError::MalformedWire)
                }
            },
        }
    } else {
        Ok((None, pos))
    }
}

/// Reads a repeated length-delimited field at `pos`, exactly as
/// `parse_rep_delim_field` accepts it.
pub fn read_rep_delim_field(buf: &[u8], pos: usize, field: u64) -> (r: Result<
    (Vec<Vec<u8>>, usize),
    DecodeError,
>)
    requires
        pos <= buf@.len(),
        1 <= field,
        field * 8 + 2 < 128,
    ensures
        match r {
            Ok((elems, p)) => pos <= p <= buf@.len() && parse_rep_delim_field(
                buf@,
                pos as int,
                field,
            ) == Ok::<(Seq<Seq<u8>>, int), DecodeError>((elems.deep_view(), p as int)),
            Err(e) => parse_rep_delim_field(buf@, pos as int, field) == Err::<
                (Seq<Seq<u8>>, int),
                DecodeError,
            >(e),
        },
{
    let mut elems: Vec<Vec<u8>> = Vec::new();
    let mut p: usize = pos;
    loop
        invariant
            pos <= p <= buf@.len(),
            1 <= field,
            field * 8 + 2 < 128,
            parse_rep_delim_field(buf@, pos as int, field) == (match parse_rep_delim_field(
                buf@,
                p as int,
                field,
            ) {
                Ok((rest, fin)) => Ok::<(Seq<Seq<u8>>, int), DecodeError>(
                    (elems.deep_view() + rest, fin),
                ),
                Err(e) => Err::<(Seq<Seq<u8>>, int), DecodeError>(e),
            }),
        decreases buf@.len() - p,
    {
        if p >= buf.len() || buf[p] != (field * 8 + 2) as u8 {
            proof {
                assert(parse_rep_delim_field(buf@, p as int, field) == Ok::<
                    (Seq<Seq<u8>>, int),
                    DecodeError,
                >((Seq::empty(), p as int)));
                assert(elems.deep_view() + Seq::<Seq<u8>>::empty() =~= elems.deep_view());
            }
            return Ok((elems, p));
        }
        match read_varint(buf, p + 1) {
            Err(e) => {
                return Err(e);
            },
            Ok((l, q)) => {
                if l <= (buf.len() - q) as u64 {
                    let lu = l as usize;
                    let content = vstd::slice::slice_to_vec(
                        vstd::slice::slice_subrange(buf, q, q + lu),
                    );
                    let ghost pre = elems.deep_view();
                    proof {
                        assert(parse_rep_delim_field(buf@, p as int, field) == (
                        match parse_rep_delim_field(buf@, q + lu, field) {
                            Ok((rest2, fin)) => Ok::<(Seq<Seq<u8>>, int), DecodeError>(
                                (seq![content@] + rest2, fin),
                            ),
                            Err(e) => Err::<(Seq<Seq<u8>>, int), DecodeError>(e),
                        }));
                    }
                    proof {
                        assert(content.deep_view() =~= content@);
                    }
                    elems.push(content);
                    proof {
                        assert(elems.deep_view() =~= pre.push(content@));
                        assert forall|rest2: Seq<Seq<u8>>|
                            pre + (seq![content@] + rest2) =~= elems.deep_view() + rest2 by {
                        }
                    }
                    p = q + lu;
                } else {
                    return Err(DecodeError::MalformedWire);
                }
            },
        }
    }
}

/// Checks that a message's bytes end at `pos`, exactly as `parse_end`
/// accepts it.
pub fn check_end(buf: &[u8], pos: usize) -> (r: Result<(), DecodeError>)
    requires
        pos <= buf@.len(),
    ensures
        r == parse_end(buf@, pos as int),
{
    if pos == buf.len() {
        Ok(())
    } else {
        let b: u8 = buf[pos];
        if (b % 8 == 0 || b % 8 == 2) && b / 8 >= 1 {
            Err(DecodeError::UnknownRequiredField)
        } else {
            Err(DecodeError::TrailingBytes)
        }
    }
}

} // verus!
