//! Binary wire-envelope codec.
//!
//! Layout of an envelope: one kind byte, the frame id as 8 big-endian bytes,
//! the document id length-prefixed by 4 big-endian bytes, then the payload
//! length-prefixed the same way; the buffer must hold exactly one envelope.
//! A revision payload is its document id, the two revision ids, the delta
//! and the checksum, in that order, with byte strings length-prefixed.
//!
//! Every executable function here is pinned to a specification-level codec
//! (`spec_encode_*` / `spec_decode_*`), and the round-trip lemmas state that
//! decoding an encoding returns the original value.

use vstd::prelude::*;

use crate::protocol::ClientFrame;
use crate::protocol::ClientFrameModel;
use crate::protocol::FrameKind;
use crate::protocol::NewUserPayload;
use crate::protocol::NewUserPayloadModel;
use crate::protocol::ProtocolError;
use crate::protocol::Revision;
use crate::protocol::RevisionModel;

verus! {

// ------------------------------------------------------------------
// Big-endian integers
// ------------------------------------------------------------------

/// The 8 big-endian bytes of a 64-bit integer.
pub open spec fn u64_be_bytes(v: u64) -> Seq<u8> {
    seq![
        ((v >> 56) & 0xff) as u8,
        ((v >> 48) & 0xff) as u8,
        ((v >> 40) & 0xff) as u8,
        ((v >> 32) & 0xff) as u8,
        ((v >> 24) & 0xff) as u8,
        ((v >> 16) & 0xff) as u8,
        ((v >> 8) & 0xff) as u8,
        (v & 0xff) as u8,
    ]
}

/// The 64-bit integer read from 8 big-endian bytes.
pub open spec fn be_u64(s: Seq<u8>) -> u64
    recommends
        s.len() == 8,
{
    (((s[0] as u64) << 56) | ((s[1] as u64) << 48) | ((s[2] as u64) << 40) | ((s[3] as u64) << 32)
        | ((s[4] as u64) << 24) | ((s[5] as u64) << 16) | ((s[6] as u64) << 8) | (s[7] as u64))
}

/// The 4 big-endian bytes of a 32-bit integer.
pub open spec fn u32_be_bytes(v: u32) -> Seq<u8> {
    seq![((v >> 24) & 0xff) as u8, ((v >> 16) & 0xff) as u8, ((v >> 8) & 0xff) as u8, (v & 0xff) as u8]
}

/// The 32-bit integer read from 4 big-endian bytes.
pub open spec fn be_u32(s: Seq<u8>) -> u32
    recommends
        s.len() == 4,
{
    (((s[0] as u32) << 24) | ((s[1] as u32) << 16) | ((s[2] as u32) << 8) | (s[3] as u32))
}

pub proof fn lemma_u64_be_round_trip(v: u64)
    ensures
        be_u64(u64_be_bytes(v)) == v,
{
    let b0 = ((v >> 56) & 0xff) as u8;
    let b1 = ((v >> 48) & 0xff) as u8;
    let b2 = ((v >> 40) & 0xff) as u8;
    let b3 = ((v >> 32) & 0xff) as u8;
    let b4 = ((v >> 24) & 0xff) as u8;
    let b5 = ((v >> 16) & 0xff) as u8;
    let b6 = ((v >> 8) & 0xff) as u8;
    let b7 = (v & 0xff) as u8;
    assert((b0 as u64) << 56 | (b1 as u64) << 48 | (b2 as u64) << 40 | (b3 as u64) << 32
        | (b4 as u64) << 24 | (b5 as u64) << 16 | (b6 as u64) << 8 | (b7 as u64) == v)
        by (bit_vector)
        requires
            b0 == ((v >> 56) & 0xff) as u8,
            b1 == ((v >> 48) & 0xff) as u8,
            b2 == ((v >> 40) & 0xff) as u8,
            b3 == ((v >> 32) & 0xff) as u8,
            b4 == ((v >> 24) & 0xff) as u8,
            b5 == ((v >> 16) & 0xff) as u8,
            b6 == ((v >> 8) & 0xff) as u8,
            b7 == (v & 0xff) as u8,
    ;
}

pub proof fn lemma_u32_be_round_trip(v: u32)
    ensures
        be_u32(u32_be_bytes(v)) == v,
{
    let b0 = ((v >> 24) & 0xff) as u8;
    let b1 = ((v >> 16) & 0xff) as u8;
    let b2 = ((v >> 8) & 0xff) as u8;
    let b3 = (v & 0xff) as u8;
    assert((b0 as u32) << 24 | (b1 as u32) << 16 | (b2 as u32) << 8 | (b3 as u32) == v)
        by (bit_vector)
        requires
            b0 == ((v >> 24) & 0xff) as u8,
            b1 == ((v >> 16) & 0xff) as u8,
            b2 == ((v >> 8) & 0xff) as u8,
            b3 == (v & 0xff) as u8,
    ;
}

/// Appends the 8 big-endian bytes of `v`.
pub fn encode_u64_be(out: &mut Vec<u8>, v: u64)
    ensures
        final(out)@ == old(out)@ + u64_be_bytes(v),
{
    out.push(((v >> 56) & 0xff) as u8);
    out.push(((v >> 48) & 0xff) as u8);
    out.push(((v >> 40) & 0xff) as u8);
    out.push(((v >> 32) & 0xff) as u8);
    out.push(((v >> 24) & 0xff) as u8);
    out.push(((v >> 16) & 0xff) as u8);
    out.push(((v >> 8) & 0xff) as u8);
    out.push((v & 0xff) as u8);
    assert(final(out)@ =~= old(out)@ + u64_be_bytes(v));
}

/// Appends the 4 big-endian bytes of `v`.
pub fn encode_u32_be(out: &mut Vec<u8>, v: u32)
    ensures
        final(out)@ == old(out)@ + u32_be_bytes(v),
{
    out.push(((v >> 24) & 0xff) as u8);
    out.push(((v >> 16) & 0xff) as u8);
    out.push(((v >> 8) & 0xff) as u8);
    out.push((v & 0xff) as u8);
    assert(final(out)@ =~= old(out)@ + u32_be_bytes(v));
}

/// Reads the 64-bit big-endian integer at offset `i`.
pub fn decode_u64_be(data: &Vec<u8>, i: usize) -> (r: u64)
    requires
        i + 8 <= data@.len(),
    ensures
        r == be_u64(data@.subrange(i as int, i as int + 8)),
{
    let n: usize = data.len();
    assert(i + 8 <= n);
    let r = ((data[i] as u64) << 56) | ((data[i + 1] as u64) << 48) | ((data[i + 2] as u64) << 40)
        | ((data[i + 3] as u64) << 32) | ((data[i + 4] as u64) << 24) | ((data[i + 5] as u64) << 16)
        | ((data[i + 6] as u64) << 8) | (data[i + 7] as u64);
    proof {
        let s = data@.subrange(i as int, i as int + 8);
        assert(s[0] == data@[i as int]);
        assert(s[1] == data@[i as int + 1]);
        assert(s[2] == data@[i as int + 2]);
        assert(s[3] == data@[i as int + 3]);
        assert(s[4] == data@[i as int + 4]);
        assert(s[5] == data@[i as int + 5]);
        assert(s[6] == data@[i as int + 6]);
        assert(s[7] == data@[i as int + 7]);
    }
    r
}

/// Reads the 32-bit big-endian integer at offset `i`.
pub fn decode_u32_be(data: &Vec<u8>, i: usize) -> (r: u32)
    requires
        i + 4 <= data@.len(),
    ensures
        r == be_u32(data@.subrange(i as int, i as int + 4)),
{
    let n: usize = data.len();
    assert(i + 4 <= n);
    let r = ((data[i] as u32) << 24) | ((data[i + 1] as u32) << 16) | ((data[i + 2] as u32) << 8)
        | (data[i + 3] as u32);
    proof {
        let s = data@.subrange(i as int, i as int + 4);
        assert(s[0] == data@[i as int]);
        assert(s[1] == data@[i as int + 1]);
        assert(s[2] == data@[i as int + 2]);
        assert(s[3] == data@[i as int + 3]);
    }
    r
}

// ------------------------------------------------------------------
// Byte-string helpers
// ------------------------------------------------------------------

/// A byte string prefixed by its length as 4 big-endian bytes.
pub open spec fn lp(b: Seq<u8>) -> Seq<u8>
    recommends
        b.len() <= u32::MAX,
{
    u32_be_bytes(b.len() as u32) + b
}

/// Appends `b` to `out`.
pub fn append_bytes(out: &mut Vec<u8>, b: &Vec<u8>)
    ensures
        final(out)@ == old(out)@ + b@,
{
    let n: usize = b.len();
    let mut i: usize = 0;
    while i < n
        invariant
            n == b@.len(),
            0 <= i <= n,
            out@ == old(out)@ + b@.subrange(0, i as int),
        decreases n - i,
    {
        out.push(b[i]);
        assert(old(out)@ + b@.subrange(0, i as int) + seq![b@[i as int]] =~= old(out)@
            + b@.subrange(0, i as int + 1));
        i = i + 1;
    }
    assert(b@.subrange(0, n as int) =~= b@);
}

/// Appends `b` length-prefixed.
pub fn append_lp(out: &mut Vec<u8>, b: &Vec<u8>)
    requires
        b@.len() <= u32::MAX,
    ensures
        final(out)@ == old(out)@ + lp(b@),
{
    encode_u32_be(out, b.len() as u32);
    append_bytes(out, b);
    assert(final(out)@ =~= old(out)@ + lp(b@));
}

/// Copies `len` bytes starting at offset `start` into a fresh vector.
pub fn read_bytes(data: &Vec<u8>, start: usize, len: usize) -> (r: Vec<u8>)
    requires
        start + len <= data@.len(),
    ensures
        r@ == data@.subrange(start as int, start as int + len as int),
{
    let n: usize = data.len();
    let mut r: Vec<u8> = Vec::new();
    let mut i: usize = 0;
    while i < len
        invariant
            n == data@.len(),
            start + len <= n,
            0 <= i <= len,
            r@ == data@.subrange(start as int, start as int + i as int),
        decreases len - i,
    {
        r.push(data[start + i]);
        assert(data@.subrange(start as int, start as int + i as int) + seq![
            data@[start as int + i as int],
        ] =~= data@.subrange(start as int, start as int + i as int + 1));
        i = i + 1;
    }
    r
}

// ------------------------------------------------------------------
// Frame kind
// ------------------------------------------------------------------

/// The wire byte of a frame kind.
pub open spec fn kind_byte(k: FrameKind) -> u8 {
    match k {
        FrameKind::Acknowledge => 0,
        FrameKind::PushRevision => 1,
        FrameKind::PullRevision => 2,
        FrameKind::UserConnect => 3,
    }
}

/// The frame kind of a wire byte; `None` for an unrecognized kind.
pub open spec fn kind_of_byte(b: u8) -> Option<FrameKind> {
    if b == 0 {
        Some(FrameKind::Acknowledge)
    } else if b == 1 {
        Some(FrameKind::PushRevision)
    } else if b == 2 {
        Some(FrameKind::PullRevision)
    } else if b == 3 {
        Some(FrameKind::UserConnect)
    } else {
        None
    }
}

pub proof fn lemma_kind_round_trip(k: FrameKind)
    ensures
        kind_of_byte(kind_byte(k)) == Some(k),
{
}

/// Executable form of [`kind_byte`].
pub fn kind_to_byte(k: FrameKind) -> (r: u8)
    ensures
        r == kind_byte(k),
{
    match k {
        FrameKind::Acknowledge => 0,
        FrameKind::PushRevision => 1,
        FrameKind::PullRevision => 2,
        FrameKind::UserConnect => 3,
    }
}

/// Executable form of [`kind_of_byte`].
pub fn byte_to_kind(b: u8) -> (r: Option<FrameKind>)
    ensures
        r == kind_of_byte(b),
{
    if b == 0 {
        Some(FrameKind::Acknowledge)
    } else if b == 1 {
        Some(FrameKind::PushRevision)
    } else if b == 2 {
        Some(FrameKind::PullRevision)
    } else if b == 3 {
        Some(FrameKind::UserConnect)
    } else {
        None
    }
}

// ------------------------------------------------------------------
// Envelope
// ------------------------------------------------------------------

/// A frame whose variable-length fields fit their 32-bit length prefixes.
pub open spec fn envelope_encodable(f: ClientFrameModel) -> bool {
    f.document_id.len() <= u32::MAX && f.payload.len() <= u32::MAX
}

/// The byte encoding of a wire envelope.
pub open spec fn spec_encode_envelope(f: ClientFrameModel) -> Seq<u8>
    recommends
        envelope_encodable(f),
{
    seq![kind_byte(f.kind)] + u64_be_bytes(f.frame_id) + lp(f.document_id) + lp(f.payload)
}

/// The envelope parsed from a byte buffer; `None` when the buffer does not
/// hold exactly one well-formed envelope.
pub open spec fn spec_decode_envelope(s: Seq<u8>) -> Option<ClientFrameModel> {
    if s.len() < 17 {
        None
    } else {
        match kind_of_byte(s[0]) {
            None => None,
            Some(kind) => {
                let frame_id = be_u64(s.subrange(1, 9));
                let dlen = be_u32(s.subrange(9, 13)) as int;
                if s.len() < 17 + dlen {
                    None
                } else {
                    let document_id = s.subrange(13, 13 + dlen);
                    let plen = be_u32(s.subrange(13 + dlen, 17 + dlen)) as int;
                    if s.len() != 17 + dlen + plen {
                        None
                    } else {
                        let payload = s.subrange(17 + dlen, s.len() as int);
                        Some(ClientFrameModel { document_id, frame_id, kind, payload })
                    }
                }
            },
        }
    }
}

/// Encodes one wire envelope.
pub fn encode_envelope(f: &ClientFrame) -> (r: Vec<u8>)
    requires
        envelope_encodable(f@),
    ensures
        r@ == spec_encode_envelope(f@),
{
    let mut out: Vec<u8> = Vec::new();
    out.push(kind_to_byte(f.kind));
    assert(out@ =~= seq![kind_byte(f@.kind)]);
    encode_u64_be(&mut out, f.frame_id);
    append_lp(&mut out, &f.document_id);
    append_lp(&mut out, &f.payload);
    assert(out@ =~= spec_encode_envelope(f@));
    out
}

/// Decodes one wire envelope; fails with `MalformedEnvelope` when the bytes
/// do not parse as the envelope schema.
pub fn decode_envelope(data: &Vec<u8>) -> (r: Result<ClientFrame, ProtocolError>)
    ensures
        match r {
            Ok(f) => spec_decode_envelope(data@) == Some(f@) && envelope_encodable(f@),
            Err(e) => e == ProtocolError::MalformedEnvelope && spec_decode_envelope(data@) is None,
        },
{
    if data.len() < 17 {
        return Err(ProtocolError::MalformedEnvelope);
    }
    let kind = match byte_to_kind(data[0]) {
        None => {
            return Err(ProtocolError::MalformedEnvelope);
        },
        Some(kind) => kind,
    };
    let frame_id = decode_u64_be(data, 1);
    let dlen = decode_u32_be(data, 9) as usize;
    if dlen > data.len() - 17 {
        return Err(ProtocolError::MalformedEnvelope);
    }
    let document_id = read_bytes(data, 13, dlen);
    let plen = decode_u32_be(data, 13 + dlen) as usize;
    if plen != data.len() - 17 - dlen {
        return Err(ProtocolError::MalformedEnvelope);
    }
    let payload = read_bytes(data, 17 + dlen, plen);
    let f = ClientFrame { document_id, frame_id, kind, payload };
    assert(f@.payload =~= data@.subrange(17 + dlen as int, data@.len() as int));
    assert(spec_decode_envelope(data@) == Some(f@));
    Ok(f)
}

/// Round trip: decoding an encoded well-formed envelope returns the original
/// frame.
#[verifier::rlimit(60)]
pub proof fn lemma_envelope_round_trip(f: ClientFrameModel)
    requires
        envelope_encodable(f),
    ensures
        spec_decode_envelope(spec_encode_envelope(f)) == Some(f),
{
    let s = spec_encode_envelope(f);
    let d = f.document_id.len() as int;
    let p = f.payload.len() as int;
    assert(s.len() == 17 + d + p);
    assert(s[0] == kind_byte(f.kind));
    lemma_kind_round_trip(f.kind);
    assert(s.subrange(1, 9) =~= u64_be_bytes(f.frame_id));
    lemma_u64_be_round_trip(f.frame_id);
    assert(s.subrange(9, 13) =~= u32_be_bytes(f.document_id.len() as u32));
    lemma_u32_be_round_trip(f.document_id.len() as u32);
    assert(s.subrange(13, 13 + d) =~= f.document_id);
    assert(s.subrange(13 + d, 17 + d) =~= u32_be_bytes(f.payload.len() as u32));
    lemma_u32_be_round_trip(f.payload.len() as u32);
    assert(s.subrange(17 + d, s.len() as int) =~= f.payload);
}

// ------------------------------------------------------------------
// Revision payload
// ------------------------------------------------------------------

/// A revision whose variable-length fields fit their 32-bit length prefixes.
pub open spec fn revision_encodable(r: RevisionModel) -> bool {
    r.doc_id.len() <= u32::MAX && r.delta.len() <= u32::MAX && r.checksum.len() <= u32::MAX
}

/// The byte encoding of a revision payload.
pub open spec fn spec_encode_revision(r: RevisionModel) -> Seq<u8>
    recommends
        revision_encodable(r),
{
    lp(r.doc_id) + u64_be_bytes(r.revision_id) + u64_be_bytes(r.base_revision_id) + lp(r.delta)
        + lp(r.checksum)
}

/// The revision parsed from a byte buffer; `None` when the buffer does not
/// hold exactly one well-formed revision payload.
pub open spec fn spec_decode_revision(s: Seq<u8>) -> Option<RevisionModel> {
    if s.len() < 28 {
        None
    } else {
        let dlen = be_u32(s.subrange(0, 4)) as int;
        if s.len() < 28 + dlen {
            None
        } else {
            let doc_id = s.subrange(4, 4 + dlen);
            let revision_id = be_u64(s.subrange(4 + dlen, 12 + dlen));
            let base_revision_id = be_u64(s.subrange(12 + dlen, 20 + dlen));
            let llen = be_u32(s.subrange(20 + dlen, 24 + dlen)) as int;
            if s.len() < 28 + dlen + llen {
                None
            } else {
                let delta = s.subrange(24 + dlen, 24 + dlen + llen);
                let clen = be_u32(s.subrange(24 + dlen + llen, 28 + dlen + llen)) as int;
                if s.len() != 28 + dlen + llen + clen {
                    None
                } else {
                    let checksum = s.subrange(28 + dlen + llen, s.len() as int);
                    Some(
                        RevisionModel {
                            doc_id,
                            revision_id,
                            base_revision_id,
                            delta,
                            checksum,
                        },
                    )
                }
            }
        }
    }
}

/// Encodes one revision payload.
pub fn encode_revision(r: &Revision) -> (out: Vec<u8>)
    requires
        revision_encodable(r@),
    ensures
        out@ == spec_encode_revision(r@),
{
    let mut out: Vec<u8> = Vec::new();
    append_lp(&mut out, &r.doc_id);
    encode_u64_be(&mut out, r.revision_id);
    encode_u64_be(&mut out, r.base_revision_id);
    append_lp(&mut out, &r.delta);
    append_lp(&mut out, &r.checksum);
    assert(out@ =~= spec_encode_revision(r@));
    out
}

/// Decodes one revision payload; fails with `MalformedPayload` when the
/// bytes do not match the shape a `PushRevision` payload must have.
pub fn decode_revision(data: &Vec<u8>) -> (r: Result<Revision, ProtocolError>)
    ensures
        match r {
            Ok(rev) => spec_decode_revision(data@) == Some(rev@) && revision_encodable(rev@),
            Err(e) => e == ProtocolError::MalformedPayload && spec_decode_revision(data@) is None,
        },
{
    if data.len() < 28 {
        return Err(ProtocolError::MalformedPayload);
    }
    let dlen = decode_u32_be(data, 0) as usize;
    if dlen > data.len() - 28 {
        return Err(ProtocolError::MalformedPayload);
    }
    let doc_id = read_bytes(data, 4, dlen);
    let revision_id = decode_u64_be(data, 4 + dlen);
    let base_revision_id = decode_u64_be(data, 12 + dlen);
    let llen = decode_u32_be(data, 20 + dlen) as usize;
    if llen > data.len() - 28 - dlen {
        return Err(ProtocolError::MalformedPayload);
    }
    let delta = read_bytes(data, 24 + dlen, llen);
    let clen = decode_u32_be(data, 24 + dlen + llen) as usize;
    if clen != data.len() - 28 - dlen - llen {
        return Err(ProtocolError::MalformedPayload);
    }
    let checksum = read_bytes(data, 28 + dlen + llen, clen);
    let rev = Revision { doc_id, revision_id, base_revision_id, delta, checksum };
    assert(rev@.checksum =~= data@.subrange(28 + dlen as int + llen as int, data@.len() as int));
    assert(spec_decode_revision(data@) == Some(rev@));
    Ok(rev)
}

/// Round trip: decoding an encoded well-formed revision returns the original
/// revision.
#[verifier::rlimit(60)]
pub proof fn lemma_revision_round_trip(r: RevisionModel)
    requires
        revision_encodable(r),
    ensures
        spec_decode_revision(spec_encode_revision(r)) == Some(r),
{
    let s = spec_encode_revision(r);
    let d = r.doc_id.len() as int;
    let l = r.delta.len() as int;
    let c = r.checksum.len() as int;
    assert(s.len() == 28 + d + l + c);
    assert(s.subrange(0, 4) =~= u32_be_bytes(r.doc_id.len() as u32));
    lemma_u32_be_round_trip(r.doc_id.len() as u32);
    assert(s.subrange(4, 4 + d) =~= r.doc_id);
    assert(s.subrange(4 + d, 12 + d) =~= u64_be_bytes(r.revision_id));
    lemma_u64_be_round_trip(r.revision_id);
    assert(s.subrange(12 + d, 20 + d) =~= u64_be_bytes(r.base_revision_id));
    lemma_u64_be_round_trip(r.base_revision_id);
    assert(s.subrange(20 + d, 24 + d) =~= u32_be_bytes(r.delta.len() as u32));
    lemma_u32_be_round_trip(r.delta.len() as u32);
    assert(s.subrange(24 + d, 24 + d + l) =~= r.delta);
    assert(s.subrange(24 + d + l, 28 + d + l) =~= u32_be_bytes(r.checksum.len() as u32));
    lemma_u32_be_round_trip(r.checksum.len() as u32);
    assert(s.subrange(28 + d + l, s.len() as int) =~= r.checksum);
}

// ------------------------------------------------------------------
// New-user payload
// ------------------------------------------------------------------

/// A new-user announcement whose fields fit their length prefixes.
pub open spec fn new_user_encodable(p: NewUserPayloadModel) -> bool {
    p.user_id.len() <= u32::MAX && revision_encodable(p.revision)
}

/// The byte encoding of a new-user payload: the user id length-prefixed,
/// followed by the embedded baseline revision.
pub open spec fn spec_encode_new_user(p: NewUserPayloadModel) -> Seq<u8>
    recommends
        new_user_encodable(p),
{
    lp(p.user_id) + spec_encode_revision(p.revision)
}

/// The new-user announcement parsed from a byte buffer.
pub open spec fn spec_decode_new_user(s: Seq<u8>) -> Option<NewUserPayloadModel> {
    if s.len() < 4 {
        None
    } else {
        let ulen = be_u32(s.subrange(0, 4)) as int;
        if s.len() < 4 + ulen {
            None
        } else {
            let user_id = s.subrange(4, 4 + ulen);
            match spec_decode_revision(s.subrange(4 + ulen, s.len() as int)) {
                None => None,
                Some(revision) => Some(NewUserPayloadModel { user_id, revision }),
            }
        }
    }
}

/// Encodes one new-user payload.
pub fn encode_new_user(p: &NewUserPayload) -> (out: Vec<u8>)
    requires
        new_user_encodable(p@),
    ensures
        out@ == spec_encode_new_user(p@),
{
    let mut out: Vec<u8> = Vec::new();
    append_lp(&mut out, &p.user_id);
    let rev = encode_revision(&p.revision);
    append_bytes(&mut out, &rev);
    assert(out@ =~= spec_encode_new_user(p@));
    out
}

/// Decodes one new-user payload; fails with `MalformedPayload` when the
/// bytes do not match the shape a `UserConnect` payload must have.
pub fn decode_new_user(data: &Vec<u8>) -> (r: Result<NewUserPayload, ProtocolError>)
    ensures
        match r {
            Ok(p) => spec_decode_new_user(data@) == Some(p@) && new_user_encodable(p@),
            Err(e) => e == ProtocolError::MalformedPayload && spec_decode_new_user(data@) is None,
        },
{
    if data.len() < 4 {
        return Err(ProtocolError::MalformedPayload);
    }
    let ulen = decode_u32_be(data, 0) as usize;
    if ulen > data.len() - 4 {
        return Err(ProtocolError::MalformedPayload);
    }
    let user_id = read_bytes(data, 4, ulen);
    let rest = read_bytes(data, 4 + ulen, data.len() - 4 - ulen);
    assert(rest@ =~= data@.subrange(4 + ulen as int, data@.len() as int));
    let revision = match decode_revision(&rest) {
        Err(_) => {
            return Err(ProtocolError::MalformedPayload);
        },
        Ok(revision) => revision,
    };
    let p = NewUserPayload { user_id, revision };
    assert(spec_decode_new_user(data@) == Some(p@));
    Ok(p)
}

/// Round trip: decoding an encoded well-formed new-user payload returns the
/// original announcement.
pub proof fn lemma_new_user_round_trip(p: NewUserPayloadModel)
    requires
        new_user_encodable(p),
    ensures
        spec_decode_new_user(spec_encode_new_user(p)) == Some(p),
{
    let s = spec_encode_new_user(p);
    let u = p.user_id.len() as int;
    assert(s.subrange(0, 4) =~= u32_be_bytes(p.user_id.len() as u32));
    lemma_u32_be_round_trip(p.user_id.len() as u32);
    assert(s.subrange(4, 4 + u) =~= p.user_id);
    assert(s.subrange(4 + u, s.len() as int) =~= spec_encode_revision(p.revision));
    lemma_revision_round_trip(p.revision);
}

} // verus!
