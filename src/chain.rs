//! Immutable chain snapshots carried by notifications.
use vstd::prelude::*;

verus! {

/// One block of a chain snapshot: its height and the gas its transactions used.
#[derive(Clone, Copy, Debug, PartialEq, Eq, Structural)]
pub struct Block {
    pub number: u64,
    pub gas_used: u64,
}

/// A contiguous range of blocks, shared read-only between notifications.
#[derive(Clone, Debug)]
pub struct Chain {
    pub blocks: Vec<Block>,
}

impl View for Chain {
    type V = Seq<Block>;

    open spec fn view(&self) -> Seq<Block> {
        self.blocks@
    }
}

impl Chain {
    /// Builds a snapshot from its blocks, in order.
    pub fn new(blocks: Vec<Block>) -> (r: Chain)
        ensures
            r@ == blocks@,
    {
        Chain { blocks }
    }

    /// An owned copy of the snapshot, holding the same blocks.
    pub fn copied(&self) -> (r: Chain)
        ensures
            r@ == self@,
    {
        let n = self.blocks.len();
        let mut blocks: Vec<Block> = Vec::new();
        let mut i: usize = 0;
        while i < n
            invariant
                n == self@.len(),
                0 <= i <= n,
                blocks@ == self@.subrange(0, i as int),
            decreases n - i,
        {
            blocks.push(self.blocks[i]);
            proof {
                assert(blocks@ =~= self@.subrange(0, i + 1));
            }
            i = i + 1;
        }
        proof {
            assert(blocks@ =~= self@);
        }
        Chain { blocks }
    }

    /// Number of blocks in the snapshot.
    pub fn len(&self) -> (r: usize)
        ensures
            r == self@.len(),
    {
        self.blocks.len()
    }
}

impl PartialEq for Chain {
    fn eq(&self, other: &Chain) -> (r: bool) {
        let n = self.blocks.len();
        if n != other.blocks.len() {
            return false;
        }
        let mut i: usize = 0;
        while i < n
            invariant
                n == self@.len(),
                n == other@.len(),
                0 <= i <= n,
                forall|j: int| 0 <= j < i ==> self@[j] == other@[j],
            decreases n - i,
        {
            if self.blocks[i] != other.blocks[i] {
                return false;
            }
            i = i + 1;
        }
        proof {
            assert(self@ =~= other@);
        }
        true
    }
}

impl vstd::std_specs::cmp::PartialEqSpecImpl for Chain {
    open spec fn obeys_eq_spec() -> bool {
        true
    }

    open spec fn eq_spec(&self, other: &Chain) -> bool {
        self@ == other@
    }
}

impl Eq for Chain {
}

} // verus!
