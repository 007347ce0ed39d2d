//! The wire codec: decoding a binary MerkleTreeLeaf and its chain blob into
//! an entry with a parsed leaf certificate and an ordered issuer chain, and
//! the matching encoder for synthetic leaves. The codec is pure: identical
//! inputs yield identical outputs, and decoding an encoded leaf gives back
//! what was encoded.

use vstd::prelude::*;

use crate::bytes::{
    be_bytes, be_uint, lemma_be_bytes_round_trip, lemma_be_uint_bound, lemma_be_uint_eq,
    lemma_pow256_values, pow256, push_be, read_be_u16, read_be_u24, read_be_u64,
};
use crate::certificate::{cert_matches, der_consumed_of, parse_certificate, Certificate};
use crate::error::LogError;

verus! {

/// One log entry: the moment the log recorded it (seconds of Unix time),
/// the parsed leaf certificate, and the issuer chain the log supplied.
#[derive(Clone, Debug)]
pub enum Entry {
    /// A leaf of entry type 0: an X509ChainEntry.
    Signed { timestamp: i64, certificate: Certificate, chain: Vec<Certificate> },
    /// A leaf of entry type 1: a PrecertChainEntry.
    Pending { timestamp: i64, certificate: Certificate, chain: Vec<Certificate> },
}

impl Entry {
    /// The leaf's timestamp, in seconds of Unix time.
    pub closed spec fn spec_timestamp(&self) -> i64 {
        match self {
            Entry::Signed { timestamp, .. } => *timestamp,
            Entry::Pending { timestamp, .. } => *timestamp,
        }
    }

    /// The parsed leaf certificate.
    pub closed spec fn spec_certificate(&self) -> Certificate {
        match self {
            Entry::Signed { certificate, .. } => *certificate,
            Entry::Pending { certificate, .. } => *certificate,
        }
    }

    /// The parsed issuer chain, in the order the log supplied it.
    pub closed spec fn spec_chain(&self) -> Seq<Certificate> {
        match self {
            Entry::Signed { chain, .. } => chain@,
            Entry::Pending { chain, .. } => chain@,
        }
    }

    /// The leaf's timestamp, in seconds of Unix time.
    pub fn timestamp(&self) -> (r: i64)
        ensures
            r == self.spec_timestamp(),
    {
        match self {
            Entry::Signed { timestamp, .. } => *timestamp,
            Entry::Pending { timestamp, .. } => *timestamp,
        }
    }

    /// The parsed leaf certificate, borrowed.
    pub fn certificate(&self) -> (r: &Certificate)
        ensures
            *r == self.spec_certificate(),
    {
        match self {
            Entry::Signed { certificate, .. } => certificate,
            Entry::Pending { certificate, .. } => certificate,
        }
    }

    /// The parsed issuer chain, borrowed.
    pub fn chain(&self) -> (r: &[Certificate])
        ensures
            r@ == self.spec_chain(),
    {
        match self {
            Entry::Signed { chain, .. } => chain.as_slice(),
            Entry::Pending { chain, .. } => chain.as_slice(),
        }
    }

    /// Whether the entry came from a PrecertChainEntry leaf.
    pub fn is_pending(&self) -> (r: bool)
        ensures
            r == (*self is Pending),
    {
        match self {
            Entry::Signed { .. } => false,
            Entry::Pending { .. } => true,
        }
    }
}

/// The kinds of failure the codec can meet, without their wording.
#[derive(Clone, Copy, Debug, PartialEq, Eq, Structural)]
pub enum LeafFault {
    /// A version byte other than 0.
    Version(u8),
    /// A leaf type byte other than 0.
    Leaf(u8),
    /// An entry type other than 0 or 1.
    Entry(u16),
    /// A length-prefixed field ran past the end of its buffer.
    Truncated,
    /// A certificate body did not parse.
    Cert,
}

/// What a well-formed leaf buffer carries: the variant, the millisecond
/// timestamp, and the certificate bytes.
pub struct LeafView {
    pub pending: bool,
    pub timestamp_ms: int,
    pub cert: Seq<u8>,
}

/// Decoding the MerkleTreeLeaf structure: a 12-byte header (version, leaf
/// type, timestamp, entry type), a 32-byte issuer-key hash for entry type 1,
/// then the 24-bit-length-prefixed certificate. Bytes past the certificate
/// are ignored.
pub open spec fn spec_leaf(b: Seq<u8>) -> Result<LeafView, LeafFault> {
    if b.len() < 12 {
        Err(LeafFault::Truncated)
    } else {
        let version = b[0];
        let leaf_type = b[1];
        let ts = be_uint(b, 2, 8);
        let et = be_uint(b, 10, 2);
        if version != 0 {
            Err(LeafFault::Version(version))
        } else if leaf_type != 0 {
            Err(LeafFault::Leaf(leaf_type))
        } else if et != 0 && et != 1 {
            Err(LeafFault::Entry(et as u16))
        } else {
            let off: int = if et == 1 { 44 } else { 12 };
            if b.len() < off + 3 {
                Err(LeafFault::Truncated)
            } else {
                let n = be_uint(b, off, 3);
                if b.len() < off + 3 + n {
                    Err(LeafFault::Truncated)
                } else {
                    Ok(
                        LeafView {
                            pending: et == 1,
                            timestamp_ms: ts as int,
                            cert: b.subrange(off + 3, off + 3 + n as int),
                        },
                    )
                }
            }
        }
    }
}

/// Decoding a run of 24-bit-length-prefixed blocks that consumes the whole
/// buffer.
pub open spec fn spec_chain_blocks(b: Seq<u8>) -> Result<Seq<Seq<u8>>, LeafFault>
    decreases b.len(),
{
    if b.len() == 0 {
        Ok(Seq::empty())
    } else if b.len() < 3 {
        Err(LeafFault::Truncated)
    } else {
        let n = be_uint(b, 0, 3);
        if b.len() < 3 + n {
            Err(LeafFault::Truncated)
        } else {
            match spec_chain_blocks(b.skip(3 + n as int)) {
                Ok(rest) => Ok(seq![b.subrange(3, 3 + n as int)] + rest),
                Err(e) => Err(e),
            }
        }
    }
}

/// Decoding the X509ChainEntry tail of the extra data: a 24-bit total
/// length, then that many bytes of length-prefixed chain certificates.
/// Bytes past the total are ignored.
pub open spec fn spec_extra_x509(b: Seq<u8>) -> Result<Seq<Seq<u8>>, LeafFault> {
    if b.len() < 3 {
        Err(LeafFault::Truncated)
    } else {
        let total = be_uint(b, 0, 3);
        if b.len() < 3 + total {
            Err(LeafFault::Truncated)
        } else {
            spec_chain_blocks(b.subrange(3, 3 + total as int))
        }
    }
}

/// Decoding the extra data: for a PrecertChainEntry, a 24-bit-length-prefixed
/// precert blob is skipped first; then the chain as in an X509ChainEntry.
pub open spec fn spec_extra(b: Seq<u8>, pending: bool) -> Result<Seq<Seq<u8>>, LeafFault> {
    if pending {
        if b.len() < 3 {
            Err(LeafFault::Truncated)
        } else {
            let p = be_uint(b, 0, 3);
            if b.len() < 3 + p {
                Err(LeafFault::Truncated)
            } else {
                spec_extra_x509(b.skip(3 + p as int))
            }
        }
    } else {
        spec_extra_x509(b)
    }
}

/// Whether every chain block parses as a certificate.
pub open spec fn all_blocks_parse(blocks: Seq<Seq<u8>>) -> bool {
    forall|i: int| 0 <= i < blocks.len() ==> der_consumed_of(#[trigger] blocks[i]) is Some
}

/// The outcome of decoding one entry: the leaf and the chain blocks, or the
/// first fault met, in the order the decoder looks — the leaf structure,
/// the leaf certificate, the chain structure, the chain certificates.
pub open spec fn spec_entry_outcome(leaf: Seq<u8>, extra: Seq<u8>) -> Result<
    (LeafView, Seq<Seq<u8>>),
    LeafFault,
> {
    match spec_leaf(leaf) {
        Err(e) => Err(e),
        Ok(lv) => if der_consumed_of(lv.cert) is None {
            Err(LeafFault::Cert)
        } else {
            match spec_extra(extra, lv.pending) {
                Err(e) => Err(e),
                Ok(blocks) => if !all_blocks_parse(blocks) {
                    Err(LeafFault::Cert)
                } else {
                    Ok((lv, blocks))
                },
            }
        },
    }
}

/// Which library error stands for which codec fault. The wording of `Parse`
/// and `BufferRead` messages is free.
pub open spec fn fault_matches(e: LogError, k: LeafFault) -> bool {
    match k {
        LeafFault::Version(v) => e == LogError::UnsupportedVersion(v),
        LeafFault::Leaf(v) => e == LogError::UnsupportedLeaf(v),
        LeafFault::Entry(v) => e == LogError::UnsupportedEntry(v),
        LeafFault::Truncated => e is BufferRead,
        LeafFault::Cert => e is Parse,
    }
}

/// Everything `parse_log_entry` promises of an entry built from a decoded
/// leaf and chain: the variant tag, the timestamp in seconds, the leaf
/// certificate parsed from the leaf's bytes, and one parsed certificate per
/// chain block, in order.
pub open spec fn entry_matches(e: Entry, lv: LeafView, blocks: Seq<Seq<u8>>) -> bool {
    &&& (e is Pending) == lv.pending
    &&& e.spec_timestamp() == lv.timestamp_ms / 1000
    &&& cert_matches(e.spec_certificate(), lv.cert)
    &&& e.spec_chain().len() == blocks.len()
    &&& forall|i: int|
        0 <= i < blocks.len() ==> cert_matches(#[trigger] e.spec_chain()[i], blocks[i])
}

/// Decodes the run of length-prefixed chain certificate blocks out of the
/// extra data, without parsing them.
#[verifier::loop_isolation(false)]
#[verifier::rlimit(60)]
fn parse_chain_blocks(extra: &[u8], pending: bool) -> (r: Result<Vec<Vec<u8>>, LogError>)
    ensures
        (r is Ok) == (spec_extra(extra@, pending) is Ok),
        r is Ok ==> r->Ok_0@.map_values(|v: Vec<u8>| v@) == spec_extra(extra@, pending)->Ok_0,
        r is Err ==> r->Err_0 is BufferRead && spec_extra(extra@, pending)->Err_0
            == LeafFault::Truncated,
{
    let len = extra.len();
    let mut base: usize = 0;
    if pending {
        if len < 3 {
            return Err(LogError::BufferRead("precert length"));
        }
        let p = read_be_u24(extra, 0) as usize;
        if p > len - 3 {
            return Err(LogError::BufferRead("precert body"));
        }
        base = 3 + p;
    }
    let ghost tail = extra@.skip(base as int);
    proof {
        assert(tail =~= extra@.skip(base as int));
        if pending {
            assert(spec_extra(extra@, pending) == spec_extra_x509(tail));
        } else {
            assert(tail =~= extra@);
        }
    }
    if len - base < 3 {
        return Err(LogError::BufferRead("chain length"));
    }
    proof {
        lemma_be_uint_eq(extra@, base as int, tail, 0, 3);
    }
    let total = read_be_u24(extra, base) as usize;
    if total > len - base - 3 {
        return Err(LogError::BufferRead("chain body"));
    }
    let region_start = base + 3;
    let ghost region = extra@.subrange(region_start as int, region_start as int + total as int);
    proof {
        assert(spec_extra_x509(tail) == spec_chain_blocks(region)) by {
            assert(tail.subrange(3, 3 + total as int) =~= region);
        }
    }

    let mut out: Vec<Vec<u8>> = Vec::new();
    let mut pos: usize = 0;
    proof {
        assert(region.skip(0) =~= region);
        assert(out@.map_values(|v: Vec<u8>| v@) =~= Seq::<Seq<u8>>::empty());
        if spec_chain_blocks(region) is Ok {
            assert(spec_chain_blocks(region)->Ok_0 =~= out@.map_values(|v: Vec<u8>| v@)
                + spec_chain_blocks(region.skip(0))->Ok_0);
        }
    }
    while pos < total
        invariant
            pos <= total,
            region_start + total <= extra@.len(),
            extra@.len() <= usize::MAX,
            region == extra@.subrange(region_start as int, region_start as int + total as int),
            region.len() == total as int,
            spec_chain_blocks(region) is Ok <==> spec_chain_blocks(region.skip(pos as int)) is Ok,
            spec_chain_blocks(region) is Err ==> spec_chain_blocks(region)->Err_0
                == spec_chain_blocks(region.skip(pos as int))->Err_0,
            spec_chain_blocks(region) is Ok ==> spec_chain_blocks(region)->Ok_0 == out@.map_values(
                |v: Vec<u8>| v@,
            ) + spec_chain_blocks(region.skip(pos as int))->Ok_0,
        decreases total - pos,
    {
        let ghost sub = region.skip(pos as int);
        assert(sub.len() == total - pos);
        if total - pos < 3 {
            assert(spec_chain_blocks(sub) == Result::<Seq<Seq<u8>>, LeafFault>::Err(
                LeafFault::Truncated,
            ));
            return Err(LogError::BufferRead("chain entry length"));
        }
        proof {
            assert(forall|k: int|
                0 <= k < 3 ==> #[trigger] extra@[region_start + pos + k] == sub[0 + k]);
            lemma_be_uint_eq(extra@, region_start + pos as int, sub, 0, 3);
        }
        let n = read_be_u24(extra, region_start + pos) as usize;
        if n > total - pos - 3 {
            assert(spec_chain_blocks(sub) == Result::<Seq<Seq<u8>>, LeafFault>::Err(
                LeafFault::Truncated,
            ));
            return Err(LogError::BufferRead("chain entry body"));
        }
        let block_start = region_start + pos + 3;
        let block = vstd::slice::slice_to_vec(
            vstd::slice::slice_subrange(extra, block_start, block_start + n),
        );
        proof {
            assert(block@ =~= sub.subrange(3, 3 + n as int));
            assert(sub.skip(3 + n as int) =~= region.skip(pos + 3 + n as int));
        }
        let ghost before = out@;
        out.push(block);
        pos = pos + 3 + n;
        proof {
            assert(out@.map_values(|v: Vec<u8>| v@) =~= before.map_values(|v: Vec<u8>| v@).push(
                block@,
            ));
            if spec_chain_blocks(region) is Ok {
                assert(spec_chain_blocks(sub)->Ok_0 =~= seq![block@] + spec_chain_blocks(
                    region.skip(pos as int),
                )->Ok_0);
                assert(spec_chain_blocks(region)->Ok_0 =~= out@.map_values(|v: Vec<u8>| v@)
                    + spec_chain_blocks(region.skip(pos as int))->Ok_0);
            }
        }
    }
    proof {
        assert(region.skip(total as int) =~= Seq::<u8>::empty());
        assert(spec_chain_blocks(region.skip(total as int)) == Result::<
            Seq<Seq<u8>>,
            LeafFault,
        >::Ok(Seq::empty()));
        assert(spec_chain_blocks(region)->Ok_0 =~= out@.map_values(|v: Vec<u8>| v@));
    }
    Ok(out)
}

/// Decodes one entry: the leaf buffer and the chain blob, both already
/// base64-decoded, into an entry with a parsed leaf certificate and a parsed
/// issuer chain. One malformed entry is one error; nothing is skipped.
#[verifier::loop_isolation(false)]
pub fn parse_log_entry(leaf_input: &[u8], extra_data: &[u8]) -> (r: Result<Entry, LogError>)
    ensures
        (r is Ok) == (spec_entry_outcome(leaf_input@, extra_data@) is Ok),
        r is Ok ==> entry_matches(
            r->Ok_0,
            spec_entry_outcome(leaf_input@, extra_data@)->Ok_0.0,
            spec_entry_outcome(leaf_input@, extra_data@)->Ok_0.1,
        ),
        r is Err ==> fault_matches(r->Err_0, spec_entry_outcome(leaf_input@, extra_data@)->Err_0),
{
    let len = leaf_input.len();
    if len < 12 {
        return Err(LogError::BufferRead("leaf header"));
    }
    let version = *vstd::slice::slice_index_get(leaf_input, 0);
    let leaf_type = *vstd::slice::slice_index_get(leaf_input, 1);
    let timestamp_ms = read_be_u64(leaf_input, 2);
    let entry_type = read_be_u16(leaf_input, 10);
    proof {
        lemma_be_uint_bound(leaf_input@, 10, 2);
        lemma_pow256_values();
    }
    if version != 0 {
        return Err(LogError::UnsupportedVersion(version));
    }
    if leaf_type != 0 {
        return Err(LogError::UnsupportedLeaf(leaf_type));
    }
    if entry_type > 1 {
        return Err(LogError::UnsupportedEntry(entry_type));
    }
    let pending = entry_type == 1;
    let off: usize = if pending {
        44
    } else {
        12
    };
    if len < off + 3 {
        return Err(LogError::BufferRead("certificate length"));
    }
    let n = read_be_u24(leaf_input, off) as usize;
    if n > len - off - 3 {
        return Err(LogError::BufferRead("certificate body"));
    }
    let cert_bytes = vstd::slice::slice_subrange(leaf_input, off + 3, off + 3 + n);
    let ghost lv = spec_leaf(leaf_input@)->Ok_0;
    proof {
        assert(cert_bytes@ =~= lv.cert);
    }
    let certificate = match parse_certificate(cert_bytes) {
        Some(c) => c,
        None => {
            return Err(LogError::Parse("leaf certificate"));
        }
    };

    let blocks = match parse_chain_blocks(extra_data, pending) {
        Ok(blocks) => blocks,
        Err(e) => {
            return Err(e);
        }
    };
    let ghost block_views = spec_extra(extra_data@, pending)->Ok_0;
    let mut chain: Vec<Certificate> = Vec::new();
    let block_count = blocks.len();
    for i in 0..block_count
        invariant
            block_count == blocks@.len(),
            blocks@.map_values(|v: Vec<u8>| v@) == block_views,
            chain@.len() == i,
            forall|j: int|
                0 <= j < i ==> cert_matches(#[trigger] chain@[j], block_views[j]),
            forall|j: int|
                0 <= j < i ==> der_consumed_of(#[trigger] block_views[j]) is Some,
    {
        assert(block_views[i as int] == blocks@[i as int]@);
        let parsed = match parse_certificate(blocks[i].as_slice()) {
            Some(c) => c,
            None => {
                assert(!all_blocks_parse(block_views));
                return Err(LogError::Parse("chain certificate"));
            }
        };
        chain.push(parsed);
    }
    assert(all_blocks_parse(block_views));

    let timestamp = (timestamp_ms / 1000) as i64;
    let entry = if pending {
        Entry::Pending { timestamp, certificate, chain }
    } else {
        Entry::Signed { timestamp, certificate, chain }
    };
    assert(entry_matches(entry, lv, block_views));
    Ok(entry)
}

/// Encodes a synthetic MerkleTreeLeaf: version 0, leaf type 0, the
/// millisecond timestamp, the entry type, the 32-byte issuer-key hash for a
/// pending entry, then the length-prefixed certificate.
pub open spec fn spec_encode_leaf(
    timestamp_ms: u64,
    pending: bool,
    hash: Seq<u8>,
    cert: Seq<u8>,
) -> Seq<u8> {
    seq![0u8, 0u8] + be_bytes(timestamp_ms as int, 8) + be_bytes(if pending { 1int } else { 0int }, 2)
        + (if pending { hash } else { Seq::empty() }) + be_bytes(cert.len() as int, 3) + cert
}

/// The concatenation of the chain blocks, each with its 24-bit length.
pub open spec fn spec_blocks_bytes(blocks: Seq<Seq<u8>>) -> Seq<u8>
    decreases blocks.len(),
{
    if blocks.len() == 0 {
        Seq::empty()
    } else {
        be_bytes(blocks.first().len() as int, 3) + blocks.first() + spec_blocks_bytes(
            blocks.drop_first(),
        )
    }
}

/// Encodes a synthetic extra-data blob: for a pending entry the
/// length-prefixed precert blob first, then the total-length-prefixed run of
/// length-prefixed chain certificates.
pub open spec fn spec_encode_extra(pending: bool, precert: Seq<u8>, blocks: Seq<Seq<u8>>) -> Seq<
    u8,
> {
    let body = spec_blocks_bytes(blocks);
    (if pending {
        be_bytes(precert.len() as int, 3) + precert
    } else {
        Seq::empty()
    }) + be_bytes(body.len() as int, 3) + body
}

/// Builds the leaf buffer of `spec_encode_leaf`.
pub fn encode_leaf(timestamp_ms: u64, pending: bool, hash: &[u8], cert: &[u8]) -> (r: Vec<u8>)
    requires
        cert@.len() < 0x1000000,
        hash@.len() == 32,
    ensures
        r@ == spec_encode_leaf(timestamp_ms, pending, hash@, cert@),
{
    let mut out: Vec<u8> = Vec::new();
    out.push(0);
    out.push(0);
    assert(out@ =~= seq![0u8, 0u8]);
    push_be(&mut out, timestamp_ms, 8);
    push_be(&mut out, if pending { 1 } else { 0 }, 2);
    if pending {
        out.extend_from_slice(hash);
    }
    push_be(&mut out, cert.len() as u64, 3);
    out.extend_from_slice(cert);
    assert(out@ =~= spec_encode_leaf(timestamp_ms, pending, hash@, cert@));
    out
}

/// Decoding an encoded leaf gives back the variant, the timestamp, and the
/// certificate bytes that were encoded.
pub proof fn lemma_leaf_round_trip(timestamp_ms: u64, pending: bool, hash: Seq<u8>, cert: Seq<u8>)
    requires
        hash.len() == 32,
        cert.len() < 0x1000000,
    ensures
        spec_leaf(spec_encode_leaf(timestamp_ms, pending, hash, cert)) is Ok,
        spec_leaf(spec_encode_leaf(timestamp_ms, pending, hash, cert))->Ok_0.pending == pending,
        spec_leaf(spec_encode_leaf(timestamp_ms, pending, hash, cert))->Ok_0.timestamp_ms
            == timestamp_ms as int,
        spec_leaf(spec_encode_leaf(timestamp_ms, pending, hash, cert))->Ok_0.cert == cert,
{
    lemma_pow256_values();
    let et: int = if pending {
        1
    } else {
        0
    };
    let bts = be_bytes(timestamp_ms as int, 8);
    let bet = be_bytes(et, 2);
    let hpart = if pending {
        hash
    } else {
        Seq::<u8>::empty()
    };
    let blen = be_bytes(cert.len() as int, 3);
    let s = spec_encode_leaf(timestamp_ms, pending, hash, cert);
    lemma_be_bytes_round_trip(timestamp_ms as int, 8);
    lemma_be_bytes_round_trip(et, 2);
    lemma_be_bytes_round_trip(cert.len() as int, 3);
    let off: int = if pending {
        44
    } else {
        12
    };
    assert(s.len() == off + 3 + cert.len());
    assert(s[0] == 0 && s[1] == 0);
    assert(forall|k: int| 0 <= k < 8 ==> #[trigger] s[2 + k] == bts[0 + k]);
    lemma_be_uint_eq(s, 2, bts, 0, 8);
    assert(forall|k: int| 0 <= k < 2 ==> #[trigger] s[10 + k] == bet[0 + k]);
    lemma_be_uint_eq(s, 10, bet, 0, 2);
    assert(be_uint(s, 10, 2) == et);
    assert(forall|k: int| 0 <= k < 3 ==> #[trigger] s[off + k] == blen[0 + k]);
    lemma_be_uint_eq(s, off, blen, 0, 3);
    assert(be_uint(s, off, 3) == cert.len());
    assert(s.subrange(off + 3, off + 3 + cert.len() as int) =~= cert);
}

/// Decoding an encoded run of chain blocks gives back the blocks.
pub proof fn lemma_blocks_round_trip(blocks: Seq<Seq<u8>>)
    requires
        forall|i: int| 0 <= i < blocks.len() ==> (#[trigger] blocks[i]).len() < 0x1000000,
    ensures
        spec_chain_blocks(spec_blocks_bytes(blocks)) is Ok,
        spec_chain_blocks(spec_blocks_bytes(blocks))->Ok_0 == blocks,
    decreases blocks.len(),
{
    lemma_pow256_values();
    let s = spec_blocks_bytes(blocks);
    if blocks.len() == 0 {
        assert(s.len() == 0);
        assert(spec_chain_blocks(s)->Ok_0 =~~= blocks);
    } else {
        let first = blocks.first();
        let rest = blocks.drop_first();
        let n0 = first.len() as int;
        let bn = be_bytes(n0, 3);
        let rest_bytes = spec_blocks_bytes(rest);
        lemma_be_bytes_round_trip(n0, 3);
        assert(forall|i: int| 0 <= i < rest.len() ==> (#[trigger] rest[i]).len() < 0x1000000);
        lemma_blocks_round_trip(rest);
        assert(s.len() == 3 + n0 + rest_bytes.len());
        assert(forall|k: int| 0 <= k < 3 ==> #[trigger] s[0 + k] == bn[0 + k]);
        lemma_be_uint_eq(s, 0, bn, 0, 3);
        assert(be_uint(s, 0, 3) == n0);
        assert(s.subrange(3, 3 + n0) =~= first);
        assert(s.skip(3 + n0) =~= rest_bytes);
        assert(spec_chain_blocks(s)->Ok_0 =~~= blocks);
    }
}

/// Decoding an encoded extra-data blob gives back the chain blocks.
pub proof fn lemma_extra_round_trip(pending: bool, precert: Seq<u8>, blocks: Seq<Seq<u8>>)
    requires
        precert.len() < 0x1000000,
        forall|i: int| 0 <= i < blocks.len() ==> (#[trigger] blocks[i]).len() < 0x1000000,
        spec_blocks_bytes(blocks).len() < 0x1000000,
    ensures
        spec_extra(spec_encode_extra(pending, precert, blocks), pending) is Ok,
        spec_extra(spec_encode_extra(pending, precert, blocks), pending)->Ok_0 == blocks,
{
    lemma_pow256_values();
    let body = spec_blocks_bytes(blocks);
    let total = body.len() as int;
    let btotal = be_bytes(total, 3);
    let s = spec_encode_extra(pending, precert, blocks);
    let tail = btotal + body;
    lemma_be_bytes_round_trip(total, 3);
    lemma_blocks_round_trip(blocks);
    if pending {
        let bp = be_bytes(precert.len() as int, 3);
        lemma_be_bytes_round_trip(precert.len() as int, 3);
        assert(s.len() == 3 + precert.len() + 3 + total);
        assert(forall|k: int| 0 <= k < 3 ==> #[trigger] s[0 + k] == bp[0 + k]);
        lemma_be_uint_eq(s, 0, bp, 0, 3);
        assert(be_uint(s, 0, 3) == precert.len());
        assert(s.skip(3 + precert.len() as int) =~= tail);
    } else {
        assert(s =~= tail);
    }
    assert(tail.len() == 3 + total);
    assert(forall|k: int| 0 <= k < 3 ==> #[trigger] tail[0 + k] == btotal[0 + k]);
    lemma_be_uint_eq(tail, 0, btotal, 0, 3);
    assert(be_uint(tail, 0, 3) == total);
    assert(tail.subrange(3, 3 + total) =~= body);
}

/// Decoding an encoded entry gives back what was encoded: for every
/// synthetic leaf built from a timestamp, an entry type, certificate bytes
/// that parse, and chain blocks that parse, the decoded outcome is the same
/// leaf and the same blocks.
pub proof fn lemma_codec_round_trip(
    timestamp_ms: u64,
    pending: bool,
    hash: Seq<u8>,
    precert: Seq<u8>,
    cert: Seq<u8>,
    blocks: Seq<Seq<u8>>,
)
    requires
        hash.len() == 32,
        cert.len() < 0x1000000,
        precert.len() < 0x1000000,
        forall|i: int| 0 <= i < blocks.len() ==> (#[trigger] blocks[i]).len() < 0x1000000,
        spec_blocks_bytes(blocks).len() < 0x1000000,
        der_consumed_of(cert) is Some,
        all_blocks_parse(blocks),
    ensures
        ({
            let outcome = spec_entry_outcome(
                spec_encode_leaf(timestamp_ms, pending, hash, cert),
                spec_encode_extra(pending, precert, blocks),
            );
            &&& outcome is Ok
            &&& outcome->Ok_0.0.pending == pending
            &&& outcome->Ok_0.0.timestamp_ms == timestamp_ms as int
            &&& outcome->Ok_0.0.cert == cert
            &&& outcome->Ok_0.1 == blocks
        }),
{
    lemma_leaf_round_trip(timestamp_ms, pending, hash, cert);
    lemma_extra_round_trip(pending, precert, blocks);
}

/// When the certificate parser consumes the whole leaf certificate field,
/// the `encoded` bytes of the parsed leaf certificate are exactly the bytes
/// that were fed in.
pub proof fn lemma_entry_encoded_exact(e: Entry, lv: LeafView, blocks: Seq<Seq<u8>>)
    requires
        entry_matches(e, lv, blocks),
        der_consumed_of(lv.cert) is Some,
        der_consumed_of(lv.cert).unwrap() == lv.cert.len(),
    ensures
        e.spec_certificate().spec_encoded() == lv.cert,
{
    assert(lv.cert.take(lv.cert.len() as int) =~= lv.cert);
}

/// Builds the extra-data blob of `spec_encode_extra`.
#[verifier::loop_isolation(false)]
pub fn encode_chain(pending: bool, precert: &[u8], blocks: &Vec<Vec<u8>>) -> (r: Vec<u8>)
    requires
        precert@.len() < 0x1000000,
        forall|i: int| 0 <= i < blocks@.len() ==> (#[trigger] blocks@[i])@.len() < 0x1000000,
        spec_blocks_bytes(blocks@.map_values(|v: Vec<u8>| v@)).len() < 0x1000000,
    ensures
        r@ == spec_encode_extra(pending, precert@, blocks@.map_values(|v: Vec<u8>| v@)),
{
    let ghost views = blocks@.map_values(|v: Vec<u8>| v@);
    let mut body: Vec<u8> = Vec::new();
    let count = blocks.len();
    proof {
        assert(views.skip(0) =~= views);
        assert(spec_blocks_bytes(views) =~= body@ + spec_blocks_bytes(views.skip(0)));
    }
    for i in 0..count
        invariant
            count == blocks@.len(),
            views == blocks@.map_values(|v: Vec<u8>| v@),
            forall|j: int| 0 <= j < count ==> (#[trigger] blocks@[j])@.len() < 0x1000000,
            spec_blocks_bytes(views).len() < 0x1000000,
            spec_blocks_bytes(views) == body@ + spec_blocks_bytes(views.skip(i as int)),
    {
        let ghost rest = views.skip(i as int);
        assert(rest.first() == blocks@[i as int]@);
        let block = &blocks[i];
        push_be(&mut body, block.len() as u64, 3);
        body.extend_from_slice(block.as_slice());
        proof {
            assert(rest.drop_first() =~= views.skip(i + 1));
            assert(spec_blocks_bytes(views) =~= body@ + spec_blocks_bytes(views.skip(i + 1)));
        }
    }
    proof {
        assert(views.skip(count as int) =~= Seq::<Seq<u8>>::empty());
        assert(body@ =~= spec_blocks_bytes(views));
    }

    let mut out: Vec<u8> = Vec::new();
    if pending {
        push_be(&mut out, precert.len() as u64, 3);
        out.extend_from_slice(precert);
    }
    push_be(&mut out, body.len() as u64, 3);
    out.extend_from_slice(body.as_slice());
    assert(out@ =~= spec_encode_extra(pending, precert@, views));
    out
}

} // verus!
