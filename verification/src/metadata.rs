use vstd::prelude::*;

verus! {

/// Largest field length the one-byte length prefixes of the encoding admit.
pub const METADATA_FIELD_MAX: usize = 255;

/// The small structured record encrypted alongside the content: the fields a
/// download response is rebuilt from. Both fields are transported bytes and
/// may be empty.
pub struct Metadata {
    /// Original file name.
    pub filename: Vec<u8>,
    /// Declared content type.
    pub content_type: Vec<u8>,
}

/// Whether the two fields fit the encoding's one-byte length prefixes.
pub open spec fn metadata_wf(filename: Seq<u8>, content_type: Seq<u8>) -> bool {
    filename.len() <= METADATA_FIELD_MAX && content_type.len() <= METADATA_FIELD_MAX
}

/// The fixed encoding of a metadata record: each field preceded by its
/// one-byte length.
pub open spec fn metadata_encoded(filename: Seq<u8>, content_type: Seq<u8>) -> Seq<u8>
    recommends
        metadata_wf(filename, content_type),
{
    seq![filename.len() as u8] + filename + seq![content_type.len() as u8] + content_type
}

/// What parsing an encoded metadata record yields: the two fields, exactly
/// when the bytes are a complete well-formed encoding.
pub open spec fn metadata_decoded(bytes: Seq<u8>) -> Option<(Seq<u8>, Seq<u8>)> {
    if bytes.len() < 1 {
        None
    } else {
        let flen = bytes[0] as int;
        if bytes.len() < 2 + flen {
            None
        } else {
            let clen = bytes[1 + flen] as int;
            if bytes.len() != 2 + flen + clen {
                None
            } else {
                Some((bytes.subrange(1, 1 + flen), bytes.subrange(2 + flen, 2 + flen + clen)))
            }
        }
    }
}

/// Law: decoding inverts encoding — every well-formed record round-trips
/// through the byte format unchanged.
pub proof fn lemma_metadata_round_trip(filename: Seq<u8>, content_type: Seq<u8>)
    requires
        metadata_wf(filename, content_type),
    ensures
        metadata_decoded(metadata_encoded(filename, content_type)) == Some((filename, content_type)),
{
    let enc = metadata_encoded(filename, content_type);
    let flen = filename.len() as int;
    let clen = content_type.len() as int;
    assert(enc.len() == 2 + flen + clen);
    assert(enc[0] == filename.len() as u8);
    assert(enc[0] as int == flen);
    assert(enc[1 + flen] == content_type.len() as u8);
    assert(enc.subrange(1, 1 + flen) =~= filename);
    assert(enc.subrange(2 + flen, 2 + flen + clen) =~= content_type);
}

/// Law: encoding is the only source of parseable bytes — whatever decodes to
/// a record is exactly that record's encoding, so distinct byte strings never
/// decode to the same record.
pub proof fn lemma_metadata_decode_inverts(bytes: Seq<u8>, filename: Seq<u8>, content_type: Seq<u8>)
    requires
        metadata_decoded(bytes) == Some((filename, content_type)),
    ensures
        metadata_wf(filename, content_type),
        metadata_encoded(filename, content_type) == bytes,
{
    let flen = bytes[0] as int;
    let clen = bytes[1 + flen] as int;
    assert(filename =~= bytes.subrange(1, 1 + flen));
    assert(content_type =~= bytes.subrange(2 + flen, 2 + flen + clen));
    assert(metadata_encoded(filename, content_type) =~= bytes);
}

/// Encode a metadata record into the fixed byte format.
pub fn encode_metadata(metadata: &Metadata) -> (r: Vec<u8>)
    requires
        metadata_wf(metadata.filename@, metadata.content_type@),
    ensures
        r@ == metadata_encoded(metadata.filename@, metadata.content_type@),
        r@.len() == 2 + metadata.filename@.len() + metadata.content_type@.len(),
{
    let ghost target = metadata_encoded(metadata.filename@, metadata.content_type@);
    let mut out: Vec<u8> = Vec::new();
    out.push(metadata.filename.len() as u8);
    let mut i: usize = 0;
    while i < metadata.filename.len()
        invariant
            i <= metadata.filename@.len(),
            out@ == seq![metadata.filename@.len() as u8] + metadata.filename@.take(i as int),
        decreases metadata.filename@.len() - i,
    {
        out.push(metadata.filename[i]);
        i = i + 1;
        proof {
            assert(out@ =~= seq![metadata.filename@.len() as u8] + metadata.filename@.take(
                i as int,
            ));
        }
    }
    out.push(metadata.content_type.len() as u8);
    let mut j: usize = 0;
    while j < metadata.content_type.len()
        invariant
            j <= metadata.content_type@.len(),
            out@ == seq![metadata.filename@.len() as u8] + metadata.filename@ + seq![
                metadata.content_type@.len() as u8,
            ] + metadata.content_type@.take(j as int),
        decreases metadata.content_type@.len() - j,
    {
        out.push(metadata.content_type[j]);
        j = j + 1;
        proof {
            assert(out@ =~= seq![metadata.filename@.len() as u8] + metadata.filename@ + seq![
                metadata.content_type@.len() as u8,
            ] + metadata.content_type@.take(j as int));
        }
    }
    proof {
        assert(out@ =~= target);
    }
    out
}

/// Parse an encoded metadata record. Returns the record exactly when the
/// bytes are a complete well-formed encoding, and nothing otherwise.
pub fn decode_metadata(bytes: &Vec<u8>) -> (r: Option<Metadata>)
    ensures
        (r matches Some(m)) <==> metadata_decoded(bytes@) is Some,
        r matches Some(m) ==> metadata_decoded(bytes@) == Some((m.filename@, m.content_type@)),
{
    if bytes.len() < 1 {
        return None;
    }
    let flen: usize = bytes[0] as usize;
    if bytes.len() < 2 + flen {
        return None;
    }
    let clen: usize = bytes[1 + flen] as usize;
    if bytes.len() != 2 + flen + clen {
        return None;
    }
    let mut filename: Vec<u8> = Vec::new();
    let mut i: usize = 0;
    while i < flen
        invariant
            i <= flen,
            bytes@.len() == 2 + flen + clen,
            filename@ == bytes@.subrange(1, 1 + i as int),
        decreases flen - i,
    {
        filename.push(bytes[1 + i]);
        i = i + 1;
        proof {
            assert(filename@ =~= bytes@.subrange(1, 1 + i as int));
        }
    }
    let mut content_type: Vec<u8> = Vec::new();
    let mut j: usize = 0;
    while j < clen
        invariant
            j <= clen,
            bytes@.len() == 2 + flen + clen,
            bytes@.len() <= usize::MAX,
            content_type@ == bytes@.subrange(2 + flen as int, 2 + flen as int + j as int),
        decreases clen - j,
    {
        content_type.push(bytes[2 + flen + j]);
        j = j + 1;
        proof {
            assert(content_type@ =~= bytes@.subrange(2 + flen as int, 2 + flen as int + j as int));
        }
    }
    Some(Metadata { filename, content_type })
}

} // verus!
