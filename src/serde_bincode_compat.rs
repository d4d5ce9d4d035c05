//! Fixed-schema binary form of notifications.
//!
//! A notification is written as a little-endian `u32` variant tag (0 for `ChainCommitted`, 1 for
//! `ChainReorged`, 2 for `ChainReverted`) followed by its chains, `old` before `new`. A chain is
//! a little-endian `u64` block count followed by each block as two little-endian `u64`s, its
//! number and then its gas used.
use std::sync::Arc;
use vstd::bytes::*;
use vstd::prelude::*;
use vstd::slice::slice_subrange;

use crate::chain::{Block, Chain};
use crate::notification::NotificationView;

verus! {

/// Number of bytes one block takes on the wire.
pub const BLOCK_BYTES: usize = 16;

/// Why a byte buffer is not the encoding of a notification.
#[derive(Clone, Copy, Debug, PartialEq, Eq, Structural)]
pub enum DecodeError {
    /// The buffer ends before the value it announces is complete.
    UnexpectedEnd,
    /// The variant tag names none of the three notification shapes.
    InvalidTag { tag: u32 },
    /// Bytes remain after a complete notification.
    TrailingBytes,
}

/// Borrowed mirror of a notification: the same three shapes and field names, holding references
/// to the chains, from which the fixed-schema form is written.
#[derive(Debug)]
pub enum ExExNotification<'a> {
    /// Mirror of a commit.
    ChainCommitted { new: &'a Chain },
    /// Mirror of a reorg.
    ChainReorged { old: &'a Chain, new: &'a Chain },
    /// Mirror of a revert.
    ChainReverted { old: &'a Chain },
}

impl<'a> View for ExExNotification<'a> {
    type V = NotificationView;

    open spec fn view(&self) -> NotificationView {
        match self {
            ExExNotification::ChainCommitted { new } => NotificationView::Committed { new: new@ },
            ExExNotification::ChainReorged { old, new } => NotificationView::Reorged {
                old: old@,
                new: new@,
            },
            ExExNotification::ChainReverted { old } => NotificationView::Reverted { old: old@ },
        }
    }
}

/// The bytes of one block.
pub open spec fn spec_encode_block(b: Block) -> Seq<u8> {
    spec_u64_to_le_bytes(b.number) + spec_u64_to_le_bytes(b.gas_used)
}

/// The bytes of a sequence of blocks, one after the other.
pub open spec fn spec_encode_blocks(s: Seq<Block>) -> Seq<u8>
    decreases s.len(),
{
    if s.len() == 0 {
        Seq::empty()
    } else {
        spec_encode_blocks(s.drop_last()) + spec_encode_block(s.last())
    }
}

/// The bytes of a chain: its block count, then its blocks.
pub open spec fn spec_encode_chain(s: Seq<Block>) -> Seq<u8> {
    spec_u64_to_le_bytes(s.len() as u64) + spec_encode_blocks(s)
}

/// The fixed-schema encoding of a notification.
pub open spec fn spec_encode(v: NotificationView) -> Seq<u8> {
    match v {
        NotificationView::Committed { new } => spec_u32_to_le_bytes(0) + spec_encode_chain(new),
        NotificationView::Reorged { old, new } => spec_u32_to_le_bytes(1) + spec_encode_chain(old)
            + spec_encode_chain(new),
        NotificationView::Reverted { old } => spec_u32_to_le_bytes(2) + spec_encode_chain(old),
    }
}

proof fn lemma_encode_blocks_len(s: Seq<Block>)
    ensures
        spec_encode_blocks(s).len() == 16 * s.len(),
    decreases s.len(),
{
    lemma_auto_spec_u64_to_from_le_bytes();
    if s.len() > 0 {
        lemma_encode_blocks_len(s.drop_last());
    }
}

fn write_chain(out: &mut Vec<u8>, chain: &Chain)
    ensures
        final(out)@ == old(out)@ + spec_encode_chain(chain@),
{
    let n = chain.blocks.len();
    let mut head = u64_to_le_bytes(n as u64);
    out.append(&mut head);
    let ghost start = out@;
    let mut i: usize = 0;
    while i < n
        invariant
            n == chain@.len(),
            0 <= i <= n,
            out@ == start + spec_encode_blocks(chain@.subrange(0, i as int)),
        decreases n - i,
    {
        let b = chain.blocks[i];
        let mut number = u64_to_le_bytes(b.number);
        let mut gas = u64_to_le_bytes(b.gas_used);
        out.append(&mut number);
        out.append(&mut gas);
        proof {
            let s = chain@.subrange(0, i + 1);
            assert(s.drop_last() =~= chain@.subrange(0, i as int));
            assert(out@ =~= start + spec_encode_blocks(s));
        }
        i = i + 1;
    }
    proof {
        assert(chain@.subrange(0, n as int) =~= chain@);
    }
}

impl<'a> ExExNotification<'a> {
    /// Borrows the chains of `source` without copying them.
    pub fn from_source(source: &'a crate::notification::ExExNotification) -> (r: Self)
        ensures
            r@ == source@,
    {
        match source {
            crate::notification::ExExNotification::ChainCommitted { new } => {
                ExExNotification::ChainCommitted { new: &**new }
            },
            crate::notification::ExExNotification::ChainReorged { old, new } => {
                ExExNotification::ChainReorged { old: &**old, new: &**new }
            },
            crate::notification::ExExNotification::ChainReverted { old } => {
                ExExNotification::ChainReverted { old: &**old }
            },
        }
    }

    /// Rebuilds an owned notification, with fresh shared handles around copies of the chains.
    pub fn into_owned(self) -> (r: crate::notification::ExExNotification)
        ensures
            r@ == self@,
    {
        match self {
            ExExNotification::ChainCommitted { new } => {
                crate::notification::ExExNotification::ChainCommitted { new: Arc::new(new.copied()) }
            },
            ExExNotification::ChainReorged { old, new } => {
                crate::notification::ExExNotification::ChainReorged {
                    old: Arc::new(old.copied()),
                    new: Arc::new(new.copied()),
                }
            },
            ExExNotification::ChainReverted { old } => {
                crate::notification::ExExNotification::ChainReverted { old: Arc::new(old.copied()) }
            },
        }
    }

    /// Writes the fixed-schema encoding.
    pub fn serialize(&self) -> (r: Vec<u8>)
        ensures
            r@ == spec_encode(self@),
    {
        let mut out: Vec<u8> = Vec::new();
        match self {
            ExExNotification::ChainCommitted { new } => {
                let mut tag = u32_to_le_bytes(0);
                out.append(&mut tag);
                write_chain(&mut out, new);
            },
            ExExNotification::ChainReorged { old, new } => {
                let mut tag = u32_to_le_bytes(1);
                out.append(&mut tag);
                write_chain(&mut out, old);
                write_chain(&mut out, new);
            },
            ExExNotification::ChainReverted { old } => {
                let mut tag = u32_to_le_bytes(2);
                out.append(&mut tag);
                write_chain(&mut out, old);
            },
        }
        proof {
            assert(out@ =~= spec_encode(self@));
        }
        out
    }
}

/// Writes the fixed-schema encoding of `source`.
pub fn serialize_as(source: &crate::notification::ExExNotification) -> (r: Vec<u8>)
    ensures
        r@ == spec_encode(source@),
{
    ExExNotification::from_source(source).serialize()
}

/// The little-endian `u64` that starts at `pos`.
pub open spec fn spec_u64_at(b: Seq<u8>, pos: int) -> u64 {
    spec_u64_from_le_bytes(b.subrange(pos, pos + 8))
}

/// The block whose bytes start at `pos`.
pub open spec fn spec_block_at(b: Seq<u8>, pos: int) -> Block {
    Block { number: spec_u64_at(b, pos), gas_used: spec_u64_at(b, pos + 8) }
}

/// The `count` blocks whose bytes start at `pos`.
pub open spec fn spec_blocks_at(b: Seq<u8>, pos: int, count: nat) -> Seq<Block> {
    Seq::new(count, |i: int| spec_block_at(b, pos + 16 * i))
}

/// The chain whose encoding starts at `pos`, with the position just past it, or `None` where
/// the buffer ends first.
pub open spec fn spec_decode_chain(b: Seq<u8>, pos: int) -> Option<(Seq<Block>, int)> {
    if b.len() < pos + 8 {
        None
    } else {
        let count = spec_u64_at(b, pos) as nat;
        let end = pos + 8 + 16 * count;
        if b.len() < end {
            None
        } else {
            Some((spec_blocks_at(b, pos + 8, count), end))
        }
    }
}

/// `v`, provided that the buffer ends at `end`.
pub open spec fn spec_finish(b: Seq<u8>, end: int, v: NotificationView) -> Result<
    NotificationView,
    DecodeError,
> {
    if end == b.len() {
        Ok(v)
    } else {
        Err(DecodeError::TrailingBytes)
    }
}

/// What decoding a buffer gives: the notification it encodes, or why it encodes none.
pub open spec fn spec_decode(b: Seq<u8>) -> Result<NotificationView, DecodeError> {
    if b.len() < 4 {
        Err(DecodeError::UnexpectedEnd)
    } else {
        let tag = spec_u32_from_le_bytes(b.subrange(0, 4));
        if tag == 0 {
            match spec_decode_chain(b, 4) {
                Some((new, end)) => spec_finish(b, end, NotificationView::Committed { new }),
                None => Err(DecodeError::UnexpectedEnd),
            }
        } else if tag == 1 {
            match spec_decode_chain(b, 4) {
                Some((old, mid)) => match spec_decode_chain(b, mid) {
                    Some((new, end)) => spec_finish(b, end, NotificationView::Reorged { old, new }),
                    None => Err(DecodeError::UnexpectedEnd),
                },
                None => Err(DecodeError::UnexpectedEnd),
            }
        } else if tag == 2 {
            match spec_decode_chain(b, 4) {
                Some((old, end)) => spec_finish(b, end, NotificationView::Reverted { old }),
                None => Err(DecodeError::UnexpectedEnd),
            }
        } else {
            Err(DecodeError::InvalidTag { tag })
        }
    }
}

fn read_u64(bytes: &[u8], pos: usize) -> (r: u64)
    requires
        pos + 8 <= bytes@.len(),
    ensures
        r == spec_u64_at(bytes@, pos as int),
{
    let len = bytes.len();
    let end = pos + 8;
    assert(end <= len);
    u64_from_le_bytes(slice_subrange(bytes, pos, end))
}

fn read_chain(bytes: &[u8], pos: usize) -> (r: Option<(Chain, usize)>)
    requires
        pos <= bytes@.len(),
    ensures
        match spec_decode_chain(bytes@, pos as int) {
            Some((s, end)) => r is Some && r->Some_0.0@ == s && r->Some_0.1 == end,
            None => r is None,
        },
{
    let len = bytes.len();
    if len - pos < 8 {
        return None;
    }
    let count = read_u64(bytes, pos);
    let start = pos + 8;
    let avail = len - start;
    if count > (avail / BLOCK_BYTES) as u64 {
        proof {
            assert(16 * (count as int) > avail) by (nonlinear_arith)
                requires
                    count > avail / 16,
            ;
        }
        return None;
    }
    proof {
        assert(16 * (count as int) <= avail) by (nonlinear_arith)
            requires
                count <= avail / 16,
        ;
    }
    let n = count as usize;
    let ghost target = spec_blocks_at(bytes@, start as int, n as nat);
    let mut blocks: Vec<Block> = Vec::new();
    let mut i: usize = 0;
    while i < n
        invariant
            len == bytes@.len(),
            start + 16 * n <= len,
            0 <= i <= n,
            target == spec_blocks_at(bytes@, start as int, n as nat),
            blocks@ == target.subrange(0, i as int),
        decreases n - i,
    {
        let p = start + BLOCK_BYTES * i;
        let number = read_u64(bytes, p);
        let gas_used = read_u64(bytes, p + 8);
        blocks.push(Block { number, gas_used });
        proof {
            assert(blocks@ =~= target.subrange(0, i + 1));
        }
        i = i + 1;
    }
    proof {
        assert(blocks@ =~= target);
    }
    Some((Chain { blocks }, start + BLOCK_BYTES * n))
}

/// Reads a notification from its fixed-schema encoding, which must fill the buffer exactly.
pub fn deserialize_as(bytes: &[u8]) -> (r: Result<crate::notification::ExExNotification, DecodeError>)
    ensures
        match spec_decode(bytes@) {
            Ok(v) => r is Ok && r->Ok_0@ == v,
            Err(e) => r == Err::<crate::notification::ExExNotification, DecodeError>(e),
        },
{
    let len = bytes.len();
    if len < 4 {
        return Err(DecodeError::UnexpectedEnd);
    }
    let tag = u32_from_le_bytes(slice_subrange(bytes, 0, 4));
    if tag == 0 {
        match read_chain(bytes, 4) {
            Some((new, end)) => if end == len {
                Ok(crate::notification::ExExNotification::ChainCommitted { new: Arc::new(new) })
            } else {
                Err(DecodeError::TrailingBytes)
            },
            None => Err(DecodeError::UnexpectedEnd),
        }
    } else if tag == 1 {
        match read_chain(bytes, 4) {
            Some((old, mid)) => match read_chain(bytes, mid) {
                Some((new, end)) => if end == len {
                    Ok(
                        crate::notification::ExExNotification::ChainReorged {
                            old: Arc::new(old),
                            new: Arc::new(new),
                        },
                    )
                } else {
                    Err(DecodeError::TrailingBytes)
                },
                None => Err(DecodeError::UnexpectedEnd),
            },
            None => Err(DecodeError::UnexpectedEnd),
        }
    } else if tag == 2 {
        match read_chain(bytes, 4) {
            Some((old, end)) => if end == len {
                Ok(crate::notification::ExExNotification::ChainReverted { old: Arc::new(old) })
            } else {
                Err(DecodeError::TrailingBytes)
            },
            None => Err(DecodeError::UnexpectedEnd),
        }
    } else {
        Err(DecodeError::InvalidTag { tag })
    }
}

proof fn lemma_encode_blocks_at(s: Seq<Block>, i: int)
    requires
        0 <= i < s.len(),
    ensures
        spec_encode_blocks(s).subrange(16 * i, 16 * i + 16) == spec_encode_block(s[i]),
    decreases s.len(),
{
    lemma_auto_spec_u64_to_from_le_bytes();
    let d = s.drop_last();
    lemma_encode_blocks_len(d);
    if i < s.len() - 1 {
        lemma_encode_blocks_at(d, i);
        assert(spec_encode_blocks(s).subrange(16 * i, 16 * i + 16) =~= spec_encode_blocks(
            d,
        ).subrange(16 * i, 16 * i + 16));
    } else {
        assert(spec_encode_blocks(s).subrange(16 * i, 16 * i + 16) =~= spec_encode_block(
            s.last(),
        ));
    }
}

proof fn lemma_decode_chain(b: Seq<u8>, pos: int, s: Seq<Block>)
    requires
        0 <= pos,
        s.len() <= u64::MAX,
        pos + spec_encode_chain(s).len() <= b.len(),
        b.subrange(pos, pos + spec_encode_chain(s).len()) == spec_encode_chain(s),
    ensures
        spec_encode_chain(s).len() == 8 + 16 * s.len(),
        spec_decode_chain(b, pos) == Some((s, pos + 8 + 16 * s.len())),
{
    lemma_auto_spec_u64_to_from_le_bytes();
    lemma_encode_blocks_len(s);
    let e = spec_encode_chain(s);
    let blocks = spec_encode_blocks(s);
    assert(b.subrange(pos, pos + 8) =~= e.subrange(0, 8));
    assert(e.subrange(0, 8) =~= spec_u64_to_le_bytes(s.len() as u64));
    assert(spec_u64_at(b, pos) == s.len());
    let bb = b.subrange(pos + 8, pos + 8 + 16 * s.len());
    assert(bb =~= b.subrange(pos, pos + e.len()).subrange(8, e.len() as int));
    assert(e.subrange(8, e.len() as int) =~= blocks);
    assert forall|i: int| 0 <= i < s.len() implies spec_block_at(b, pos + 8 + 16 * i)
        == s[i] by {
        lemma_encode_blocks_at(s, i);
        let blk = blocks.subrange(16 * i, 16 * i + 16);
        assert(b.subrange(pos + 8 + 16 * i, pos + 8 + 16 * i + 16) =~= bb.subrange(16 * i, 16 * i + 16));
        assert(b.subrange(pos + 8 + 16 * i, pos + 8 + 16 * i + 8) =~= blk.subrange(0, 8));
        assert(blk.subrange(0, 8) =~= spec_u64_to_le_bytes(s[i].number));
        assert(b.subrange(pos + 8 + 16 * i + 8, pos + 8 + 16 * i + 16) =~= blk.subrange(8, 16));
        assert(blk.subrange(8, 16) =~= spec_u64_to_le_bytes(s[i].gas_used));
    }
    assert(spec_blocks_at(b, pos + 8, s.len()) =~= s);
}

/// Decoding the encoding of a notification whose chains can be counted in a `u64` gives the
/// notification back.
pub proof fn lemma_decode_encode(v: NotificationView)
    requires
        match v {
            NotificationView::Committed { new } => new.len() <= u64::MAX,
            NotificationView::Reorged { old, new } => old.len() <= u64::MAX && new.len()
                <= u64::MAX,
            NotificationView::Reverted { old } => old.len() <= u64::MAX,
        },
    ensures
        spec_decode(spec_encode(v)) == Ok::<NotificationView, DecodeError>(v),
{
    lemma_auto_spec_u32_to_from_le_bytes();
    let b = spec_encode(v);
    match v {
        NotificationView::Committed { new } => {
            let c = spec_encode_chain(new);
            assert(b.subrange(0, 4) =~= spec_u32_to_le_bytes(0));
            assert(b.subrange(4, 4 + c.len() as int) =~= c);
            lemma_decode_chain(b, 4, new);
        },
        NotificationView::Reorged { old, new } => {
            let c1 = spec_encode_chain(old);
            let c2 = spec_encode_chain(new);
            assert(b.subrange(0, 4) =~= spec_u32_to_le_bytes(1));
            assert(b.subrange(4, 4 + c1.len() as int) =~= c1);
            lemma_decode_chain(b, 4, old);
            assert(b.subrange(4 + c1.len() as int, 4 + c1.len() + c2.len() as int) =~= c2);
            lemma_decode_chain(b, 4 + c1.len() as int, new);
        },
        NotificationView::Reverted { old } => {
            let c = spec_encode_chain(old);
            assert(b.subrange(0, 4) =~= spec_u32_to_le_bytes(2));
            assert(b.subrange(4, 4 + c.len() as int) =~= c);
            lemma_decode_chain(b, 4, old);
        },
    }
}

/// Writing a notification in its fixed-schema form and reading it back gives a notification
/// with the same shape and the same blocks in each chain.
pub proof fn lemma_round_trip(n: crate::notification::ExExNotification)
    ensures
        spec_decode(spec_encode(n@)) == Ok::<NotificationView, DecodeError>(n@),
{
    match n {
        crate::notification::ExExNotification::ChainCommitted { new } => {
            assert(new.blocks.len() == new.blocks@.len());
        },
        crate::notification::ExExNotification::ChainReorged { old, new } => {
            assert(old.blocks.len() == old.blocks@.len());
            assert(new.blocks.len() == new.blocks@.len());
        },
        crate::notification::ExExNotification::ChainReverted { old } => {
            assert(old.blocks.len() == old.blocks@.len());
        },
    }
    lemma_decode_encode(n@);
}

proof fn lemma_encode_block_at(b: Seq<u8>, q: int)
    requires
        0 <= q,
        q + 16 <= b.len(),
    ensures
        spec_encode_block(spec_block_at(b, q)) == b.subrange(q, q + 16),
{
    lemma_auto_spec_u64_to_from_le_bytes();
    assert(b.subrange(q, q + 8).len() == 8);
    assert(b.subrange(q + 8, q + 16).len() == 8);
    assert(b.subrange(q, q + 16) =~= b.subrange(q, q + 8) + b.subrange(q + 8, q + 16));
}

proof fn lemma_encode_blocks_at_canonical(b: Seq<u8>, p: int, count: nat)
    requires
        0 <= p,
        p + 16 * count <= b.len(),
    ensures
        spec_encode_blocks(spec_blocks_at(b, p, count)) == b.subrange(p, p + 16 * count),
    decreases count,
{
    let s = spec_blocks_at(b, p, count);
    if count == 0 {
        assert(b.subrange(p, p) =~= Seq::<u8>::empty());
    } else {
        let c1 = (count - 1) as nat;
        assert(s.drop_last() =~= spec_blocks_at(b, p, c1));
        lemma_encode_blocks_at_canonical(b, p, c1);
        lemma_encode_block_at(b, p + 16 * c1);
        assert(b.subrange(p, p + 16 * count) =~= b.subrange(p, p + 16 * c1) + b.subrange(
            p + 16 * c1,
            p + 16 * count,
        ));
    }
}

proof fn lemma_decode_chain_canonical(b: Seq<u8>, pos: int)
    requires
        0 <= pos,
        spec_decode_chain(b, pos) is Some,
    ensures
        ({
            let (s, end) = spec_decode_chain(b, pos)->Some_0;
            &&& pos + spec_encode_chain(s).len() == end
            &&& b.subrange(pos, end) == spec_encode_chain(s)
        }),
{
    lemma_auto_spec_u64_to_from_le_bytes();
    let count = spec_u64_at(b, pos);
    let (s, end) = spec_decode_chain(b, pos)->Some_0;
    lemma_encode_blocks_at_canonical(b, pos + 8, count as nat);
    lemma_encode_blocks_len(s);
    assert(s.len() as u64 == count);
    assert(b.subrange(pos, end) =~= b.subrange(pos, pos + 8) + b.subrange(pos + 8, end));
}

/// A buffer that decodes is exactly the encoding of what it decodes to: no two buffers decode
/// to the same notification.
pub proof fn lemma_encode_decode(b: Seq<u8>)
    requires
        spec_decode(b) is Ok,
    ensures
        spec_encode(spec_decode(b)->Ok_0) == b,
{
    lemma_auto_spec_u32_to_from_le_bytes();
    let tag = spec_u32_from_le_bytes(b.subrange(0, 4));
    assert(b.subrange(0, 4).len() == 4);
    lemma_decode_chain_canonical(b, 4);
    let (first, mid) = spec_decode_chain(b, 4)->Some_0;
    if tag == 1 {
        lemma_decode_chain_canonical(b, mid);
        let (second, end) = spec_decode_chain(b, mid)->Some_0;
        assert(b =~= b.subrange(0, 4) + b.subrange(4, mid) + b.subrange(mid, end));
    } else {
        assert(b =~= b.subrange(0, 4) + b.subrange(4, mid));
    }
}

} // verus!
