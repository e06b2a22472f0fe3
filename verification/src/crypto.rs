use vstd::prelude::*;
use vstd::bytes::{
    spec_u16_to_le_bytes, spec_u32_to_le_bytes, spec_u64_to_le_bytes, u16_to_le_bytes,
    u32_to_le_bytes, u64_to_le_bytes,
};
use vstd::utf8::encode_utf8;

use blake2::{Blake2b512, Digest};

use crate::application::quorum::{QuorumNode, QuorumNodeView, QuorumSet, QuorumSetView, QuorumSlice};
use crate::scp::ballot_protocol::SCPBallot;
use crate::scp::scp_driver::HashValue;

verus! {

/// The BLAKE2b-512 digest of `data`.
pub uninterp spec fn blake2b_digest(data: Seq<u8>) -> Seq<u8>;

/// Calls `Blake2b512::digest` of the `blake2` crate: the 64-byte BLAKE2b
/// digest of `data`, which depends on `data` alone.
#[verifier::external_body]
pub(crate) fn blake2b_512(data: &Vec<u8>) -> (h: HashValue)
    ensures
        h@ == blake2b_digest(data@),
{
    let digest = Blake2b512::digest(data.as_slice());
    digest.into()
}

/// The placeholder digest carried by envelopes that are not signed.
pub fn test_default_blake2() -> (h: HashValue)
    ensures
        h@ == Seq::new(64, |i: int| 0u8),
{
    let h = [0u8; 64];
    assert(h@ =~= Seq::new(64, |i: int| 0u8));
    h
}

// The canonical byte encoding that digests are taken of: integers little-endian,
// sequences prefixed by their length as eight bytes, options by a tag byte.
pub open spec fn enc_u16(x: u16) -> Seq<u8> {
    spec_u16_to_le_bytes(x)
}

pub open spec fn enc_u32(x: u32) -> Seq<u8> {
    spec_u32_to_le_bytes(x)
}

pub open spec fn enc_u64(x: u64) -> Seq<u8> {
    spec_u64_to_le_bytes(x)
}

pub open spec fn enc_len(n: nat) -> Seq<u8> {
    spec_u64_to_le_bytes(n as u64)
}

pub open spec fn enc_bytes(b: Seq<u8>) -> Seq<u8> {
    enc_len(b.len()) + b
}

pub open spec fn enc_str(s: Seq<char>) -> Seq<u8> {
    enc_bytes(encode_utf8(s))
}

pub open spec fn enc_node(n: QuorumNodeView) -> Seq<u8> {
    enc_str(n.node_id) + match n.ip_addr {
        None => seq![0u8],
        Some((a, p)) => seq![1u8] + enc_u32(a) + enc_u16(p),
    }
}

pub open spec fn enc_nodes(s: Seq<QuorumNodeView>) -> Seq<u8>
    decreases s.len(),
{
    if s.len() == 0 {
        Seq::empty()
    } else {
        enc_nodes(s.drop_last()) + enc_node(s.last())
    }
}

pub open spec fn enc_slice(s: Seq<QuorumNodeView>) -> Seq<u8> {
    enc_len(s.len()) + enc_nodes(s)
}

pub open spec fn enc_slices(s: Seq<Seq<QuorumNodeView>>) -> Seq<u8>
    decreases s.len(),
{
    if s.len() == 0 {
        Seq::empty()
    } else {
        enc_slices(s.drop_last()) + enc_slice(s.last())
    }
}

pub open spec fn enc_qset(q: QuorumSetView) -> Seq<u8> {
    enc_u32(q.threshold) + enc_len(q.slices.len()) + enc_slices(q.slices)
}

pub open spec fn enc_opt_qset(q: Option<QuorumSetView>) -> Seq<u8> {
    match q {
        None => seq![0u8],
        Some(q) => seq![1u8] + enc_qset(q),
    }
}

pub open spec fn enc_ballot(b: SCPBallot) -> Seq<u8> {
    enc_u32(b.counter) + enc_u64(b.value)
}

pub open spec fn enc_opt_ballot(b: Option<SCPBallot>) -> Seq<u8> {
    match b {
        None => seq![0u8],
        Some(b) => seq![1u8] + enc_ballot(b),
    }
}

pub open spec fn enc_values(s: Seq<u64>) -> Seq<u8>
    decreases s.len(),
{
    if s.len() == 0 {
        Seq::empty()
    } else {
        enc_values(s.drop_last()) + enc_u64(s.last())
    }
}

pub open spec fn enc_value_list(s: Seq<u64>) -> Seq<u8> {
    enc_len(s.len()) + enc_values(s)
}

pub fn put_u8(out: &mut Vec<u8>, x: u8)
    ensures
        final(out)@ == old(out)@ + seq![x],
{
    out.push(x);
}

pub fn put_u16(out: &mut Vec<u8>, x: u16)
    ensures
        final(out)@ == old(out)@ + enc_u16(x),
{
    let mut b = u16_to_le_bytes(x);
    out.append(&mut b);
}

pub fn put_u32(out: &mut Vec<u8>, x: u32)
    ensures
        final(out)@ == old(out)@ + enc_u32(x),
{
    let mut b = u32_to_le_bytes(x);
    out.append(&mut b);
}

pub fn put_u64(out: &mut Vec<u8>, x: u64)
    ensures
        final(out)@ == old(out)@ + enc_u64(x),
{
    let mut b = u64_to_le_bytes(x);
    out.append(&mut b);
}

pub fn put_len(out: &mut Vec<u8>, n: usize)
    ensures
        final(out)@ == old(out)@ + enc_len(n as nat),
{
    put_u64(out, n as u64);
}

pub fn put_bytes(out: &mut Vec<u8>, b: &[u8])
    ensures
        final(out)@ == old(out)@ + enc_bytes(b@),
{
    put_len(out, b.len());
    let ghost start = out@;
    let mut i: usize = 0;
    while i < b.len()
        invariant
            i <= b@.len(),
            out@ == start + b@.subrange(0, i as int),
        decreases b@.len() - i,
    {
        out.push(b[i]);
        i = i + 1;
        assert(out@ =~= start + b@.subrange(0, i as int));
    }
    assert(b@.subrange(0, i as int) =~= b@);
}

pub fn put_str(out: &mut Vec<u8>, s: &String)
    ensures
        final(out)@ == old(out)@ + enc_str(s@),
{
    put_bytes(out, s.as_str().as_bytes());
}

pub fn put_node(out: &mut Vec<u8>, n: &QuorumNode)
    ensures
        final(out)@ == old(out)@ + enc_node(n@),
{
    let ghost start = out@;
    put_str(out, &n.node_id);
    match n.ip_addr {
        None => {
            put_u8(out, 0);
        },
        Some((a, p)) => {
            put_u8(out, 1);
            put_u32(out, a);
            put_u16(out, p);
        },
    }
    assert(out@ =~= start + enc_node(n@));
}

pub fn put_slice(out: &mut Vec<u8>, s: &QuorumSlice)
    ensures
        final(out)@ == old(out)@ + enc_slice(s@),
{
    put_len(out, s.data.len());
    let ghost start = out@;
    let mut i: usize = 0;
    while i < s.data.len()
        invariant
            i <= s.data@.len(),
            out@ == start + enc_nodes(s@.subrange(0, i as int)),
        decreases s.data@.len() - i,
    {
        put_node(out, &s.data[i]);
        proof {
            assert(s@.subrange(0, i + 1).drop_last() =~= s@.subrange(0, i as int));
        }
        i = i + 1;
        assert(out@ =~= start + enc_nodes(s@.subrange(0, i as int)));
    }
    assert(s@.subrange(0, i as int) =~= s@);
}

pub fn put_qset(out: &mut Vec<u8>, q: &QuorumSet)
    ensures
        final(out)@ == old(out)@ + enc_qset(q@),
{
    let ghost first = out@;
    put_u32(out, q.threshold);
    put_len(out, q.slices.len());
    let ghost start = out@;
    let mut i: usize = 0;
    while i < q.slices.len()
        invariant
            i <= q.slices@.len(),
            out@ == start + enc_slices(q@.slices.subrange(0, i as int)),
        decreases q.slices@.len() - i,
    {
        put_slice(out, &q.slices[i]);
        proof {
            assert(q@.slices.subrange(0, i + 1).drop_last() =~= q@.slices.subrange(0, i as int));
        }
        i = i + 1;
        assert(out@ =~= start + enc_slices(q@.slices.subrange(0, i as int)));
    }
    assert(q@.slices.subrange(0, i as int) =~= q@.slices);
    assert(out@ =~= first + enc_qset(q@));
}

pub fn put_opt_qset(out: &mut Vec<u8>, q: &Option<QuorumSet>)
    ensures
        final(out)@ == old(out)@ + enc_opt_qset(crate::application::quorum::opt_qset_view(*q)),
{
    let ghost start = out@;
    match q {
        None => {
            put_u8(out, 0);
        },
        Some(q) => {
            put_u8(out, 1);
            put_qset(out, q);
        },
    }
    assert(out@ =~= start + enc_opt_qset(crate::application::quorum::opt_qset_view(*q)));
}

pub fn put_ballot(out: &mut Vec<u8>, b: &SCPBallot)
    ensures
        final(out)@ == old(out)@ + enc_ballot(*b),
{
    let ghost start = out@;
    put_u32(out, b.counter);
    put_u64(out, b.value);
    assert(out@ =~= start + enc_ballot(*b));
}

pub fn put_opt_ballot(out: &mut Vec<u8>, b: &Option<SCPBallot>)
    ensures
        final(out)@ == old(out)@ + enc_opt_ballot(*b),
{
    let ghost start = out@;
    match b {
        None => {
            put_u8(out, 0);
        },
        Some(b) => {
            put_u8(out, 1);
            put_ballot(out, b);
        },
    }
    assert(out@ =~= start + enc_opt_ballot(*b));
}

pub fn put_value_list(out: &mut Vec<u8>, s: &Vec<u64>)
    ensures
        final(out)@ == old(out)@ + enc_value_list(s@),
{
    let ghost first = out@;
    put_len(out, s.len());
    let ghost start = out@;
    let mut i: usize = 0;
    while i < s.len()
        invariant
            i <= s@.len(),
            out@ == start + enc_values(s@.subrange(0, i as int)),
        decreases s@.len() - i,
    {
        put_u64(out, s[i]);
        proof {
            assert(s@.subrange(0, i + 1).drop_last() =~= s@.subrange(0, i as int));
        }
        i = i + 1;
        assert(out@ =~= start + enc_values(s@.subrange(0, i as int)));
    }
    assert(s@.subrange(0, i as int) =~= s@);
    assert(out@ =~= first + enc_value_list(s@));
}

pub fn put_hash(out: &mut Vec<u8>, h: &HashValue)
    ensures
        final(out)@ == old(out)@ + h@,
{
    let ghost start = out@;
    let mut i: usize = 0;
    while i < 64
        invariant
            i <= 64,
            h@.len() == 64,
            out@ == start + h@.subrange(0, i as int),
        decreases 64 - i,
    {
        out.push(h[i]);
        i = i + 1;
        assert(out@ =~= start + h@.subrange(0, i as int));
    }
    assert(h@.subrange(0, 64) =~= h@);
}

impl QuorumSet {
    /// The digest of the quorum set's encoding.
    pub fn hash_value(&self) -> (h: HashValue)
        ensures
            h@ == blake2b_digest(enc_qset(self@)),
    {
        let mut out: Vec<u8> = Vec::new();
        put_qset(&mut out, self);
        assert(out@ =~= enc_qset(self@));
        blake2b_512(&out)
    }
}

} // verus!

verus! {

use crate::scp::statement::{
    ConfirmView, ExternalizeView, NominateView, PrepareView, SCPStatement, SCPStatementConfirm,
    SCPStatementExternalize, SCPStatementNominate, SCPStatementPrepare, StatementView,
};

pub open spec fn enc_prepare(st: PrepareView) -> Seq<u8> {
    seq![0u8] + st.quorum_set_hash + enc_ballot(st.ballot) + enc_opt_ballot(st.prepared)
        + enc_opt_ballot(st.prepared_prime) + enc_u32(st.num_commit) + enc_u32(st.num_high)
        + enc_opt_qset(st.quorum_set)
}

pub open spec fn enc_confirm(st: ConfirmView) -> Seq<u8> {
    seq![1u8] + st.quorum_set_hash + enc_ballot(st.ballot) + enc_u32(st.num_prepared) + enc_u32(
        st.num_commit,
    ) + enc_u32(st.num_high) + enc_opt_qset(st.quorum_set)
}

pub open spec fn enc_externalize(st: ExternalizeView) -> Seq<u8> {
    seq![2u8] + st.commit_quorum_set_hash + enc_ballot(st.commit) + enc_u32(st.num_high)
        + enc_opt_qset(st.commit_quorum_set)
}

pub open spec fn enc_nominate(st: NominateView) -> Seq<u8> {
    seq![3u8] + enc_str(st.node_id) + st.quorum_set_hash + enc_value_list(st.votes)
        + enc_value_list(st.accepted) + enc_opt_qset(st.quorum_set)
}

pub open spec fn enc_statement(s: StatementView) -> Seq<u8> {
    match s {
        StatementView::Prepare(st) => enc_prepare(st),
        StatementView::Confirm(st) => enc_confirm(st),
        StatementView::Externalize(st) => enc_externalize(st),
        StatementView::Nominate(st) => enc_nominate(st),
    }
}

fn put_prepare(out: &mut Vec<u8>, st: &SCPStatementPrepare)
    ensures
        final(out)@ == old(out)@ + enc_prepare(st@),
{
    let ghost start = out@;
    put_u8(out, 0);
    put_hash(out, &st.quorum_set_hash);
    put_ballot(out, &st.ballot);
    put_opt_ballot(out, &st.prepared);
    put_opt_ballot(out, &st.prepared_prime);
    put_u32(out, st.num_commit);
    put_u32(out, st.num_high);
    put_opt_qset(out, &st.quorum_set);
    assert(out@ =~= start + enc_prepare(st@));
}

fn put_confirm(out: &mut Vec<u8>, st: &SCPStatementConfirm)
    ensures
        final(out)@ == old(out)@ + enc_confirm(st@),
{
    let ghost start = out@;
    put_u8(out, 1);
    put_hash(out, &st.quorum_set_hash);
    put_ballot(out, &st.ballot);
    put_u32(out, st.num_prepared);
    put_u32(out, st.num_commit);
    put_u32(out, st.num_high);
    put_opt_qset(out, &st.quorum_set);
    assert(out@ =~= start + enc_confirm(st@));
}

fn put_externalize(out: &mut Vec<u8>, st: &SCPStatementExternalize)
    ensures
        final(out)@ == old(out)@ + enc_externalize(st@),
{
    let ghost start = out@;
    put_u8(out, 2);
    put_hash(out, &st.commit_quorum_set_hash);
    put_ballot(out, &st.commit);
    put_u32(out, st.num_high);
    put_opt_qset(out, &st.commit_quorum_set);
    assert(out@ =~= start + enc_externalize(st@));
}

fn put_nominate(out: &mut Vec<u8>, st: &SCPStatementNominate)
    ensures
        final(out)@ == old(out)@ + enc_nominate(st@),
{
    let ghost start = out@;
    put_u8(out, 3);
    put_str(out, &st.node_id);
    put_hash(out, &st.quorum_set_hash);
    put_value_list(out, &st.votes);
    put_value_list(out, &st.accepted);
    put_opt_qset(out, &st.quorum_set);
    assert(out@ =~= start + enc_nominate(st@));
}

pub fn put_statement(out: &mut Vec<u8>, s: &SCPStatement)
    ensures
        final(out)@ == old(out)@ + enc_statement(s@),
{
    match s {
        SCPStatement::Prepare(st) => put_prepare(out, st),
        SCPStatement::Confirm(st) => put_confirm(out, st),
        SCPStatement::Externalize(st) => put_externalize(out, st),
        SCPStatement::Nominate(st) => put_nominate(out, st),
    }
}

} // verus!

verus! {

/// Strings are encoded injectively (for strings whose UTF-8 form has a
/// length that fits in eight bytes): an encoding followed by anything never
/// starts like the encoding of another string followed by anything.
pub proof fn law_string_encoding_prefix_free(
    a: Seq<char>,
    b: Seq<char>,
    ra: Seq<u8>,
    rb: Seq<u8>,
)
    requires
        a != b,
        vstd::utf8::encode_utf8(a).len() <= u64::MAX,
        vstd::utf8::encode_utf8(b).len() <= u64::MAX,
    ensures
        enc_str(a) + ra != enc_str(b) + rb,
{
    let ua = vstd::utf8::encode_utf8(a);
    let ub = vstd::utf8::encode_utf8(b);
    vstd::bytes::lemma_auto_spec_u64_to_from_le_bytes();
    vstd::utf8::encode_utf8_decode_utf8(a);
    vstd::utf8::encode_utf8_decode_utf8(b);
    let x = enc_str(a) + ra;
    let y = enc_str(b) + rb;
    if x == y {
        let la = spec_u64_to_le_bytes(ua.len() as u64);
        let lb = spec_u64_to_le_bytes(ub.len() as u64);
        assert(x.subrange(0, 8) =~= la);
        assert(y.subrange(0, 8) =~= lb);
        assert(ua.len() == ub.len());
        assert(x.subrange(8, 8 + ua.len() as int) =~= ua);
        assert(y.subrange(8, 8 + ub.len() as int) =~= ub);
        assert(ua == ub);
        assert(false);
    }
}

} // verus!
