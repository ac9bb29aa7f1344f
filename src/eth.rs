//! Block references accepted by the block and account queries.
use vstd::prelude::*;
use vstd::utf8::encode_utf8;
use crate::scan::bytes_eq;

verus! {

/// A block reference as a caller writes it: a number or a named tag.
#[derive(Clone, Debug)]
pub enum BlockNumberOrTagInput {
    Number(u64),
    Tag(String),
}

/// A resolved block reference.
#[derive(Clone, Copy, Debug, PartialEq, Eq, Structural)]
pub enum BlockTag {
    Number(u64),
    Latest,
    Earliest,
    Pending,
    Safe,
    Finalized,
}

/// The tag that a name stands for; no other name is a tag.
pub open spec fn tag_spec(b: Seq<u8>) -> Option<BlockTag> {
    if b == seq![108u8, 97u8, 116u8, 101u8, 115u8, 116u8] {
        Some(BlockTag::Latest)
    } else if b == seq![101u8, 97u8, 114u8, 108u8, 105u8, 101u8, 115u8, 116u8] {
        Some(BlockTag::Earliest)
    } else if b == seq![112u8, 101u8, 110u8, 100u8, 105u8, 110u8, 103u8] {
        Some(BlockTag::Pending)
    } else if b == seq![115u8, 97u8, 102u8, 101u8] {
        Some(BlockTag::Safe)
    } else if b == seq![102u8, 105u8, 110u8, 97u8, 108u8, 105u8, 122u8, 101u8, 100u8] {
        Some(BlockTag::Finalized)
    } else {
        None
    }
}

pub open spec fn resolve_spec(i: BlockNumberOrTagInput) -> Option<BlockTag> {
    match i {
        BlockNumberOrTagInput::Number(n) => Some(BlockTag::Number(n)),
        BlockNumberOrTagInput::Tag(s) => tag_spec(encode_utf8(s@)),
    }
}

fn tag_of_bytes(b: &[u8]) -> (r: Option<BlockTag>)
    ensures
        r == tag_spec(b@),
{
    let t: Vec<u8> = vec![108u8, 97u8, 116u8, 101u8, 115u8, 116u8];
    assert(t@ =~= seq![108u8, 97u8, 116u8, 101u8, 115u8, 116u8]);
    if bytes_eq(b, t.as_slice()) {
        return Some(BlockTag::Latest);
    }
    let t: Vec<u8> = vec![101u8, 97u8, 114u8, 108u8, 105u8, 101u8, 115u8, 116u8];
    assert(t@ =~= seq![101u8, 97u8, 114u8, 108u8, 105u8, 101u8, 115u8, 116u8]);
    if bytes_eq(b, t.as_slice()) {
        return Some(BlockTag::Earliest);
    }
    let t: Vec<u8> = vec![112u8, 101u8, 110u8, 100u8, 105u8, 110u8, 103u8];
    assert(t@ =~= seq![112u8, 101u8, 110u8, 100u8, 105u8, 110u8, 103u8]);
    if bytes_eq(b, t.as_slice()) {
        return Some(BlockTag::Pending);
    }
    let t: Vec<u8> = vec![115u8, 97u8, 102u8, 101u8];
    assert(t@ =~= seq![115u8, 97u8, 102u8, 101u8]);
    if bytes_eq(b, t.as_slice()) {
        return Some(BlockTag::Safe);
    }
    let t: Vec<u8> = vec![102u8, 105u8, 110u8, 97u8, 108u8, 105u8, 122u8, 101u8, 100u8];
    assert(t@ =~= seq![102u8, 105u8, 110u8, 97u8, 108u8, 105u8, 122u8, 101u8, 100u8]);
    if bytes_eq(b, t.as_slice()) {
        return Some(BlockTag::Finalized);
    }
    None
}

impl BlockNumberOrTagInput {
    /// Resolves the reference. An unknown tag is rejected with `None` rather
    /// than read as some default block, so that a caller's typo surfaces.
    pub fn to_block_tag(&self) -> (r: Option<BlockTag>)
        ensures
            r == resolve_spec(*self),
    {
        match self {
            BlockNumberOrTagInput::Number(n) => Some(BlockTag::Number(*n)),
            BlockNumberOrTagInput::Tag(s) => tag_of_bytes(s.as_str().as_bytes()),
        }
    }
}

} // verus!
