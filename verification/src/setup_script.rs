//! The script blocks of a single-file component: which of them is the plain
//! script and which the setup script.

use smallvec::SmallVec;
use vstd::prelude::*;

verus! {

/// One script block of a component.
#[derive(Clone, Debug, PartialEq, Eq)]
pub struct SfcScriptBlock {
    /// The text between the tags.
    pub source: String,
    /// The block carries the `setup` attribute.
    pub setup: bool,
}

impl SfcScriptBlock {
    pub fn is_setup(&self) -> (b: bool)
        ensures
            b == self.setup,
    {
        self.setup
    }
}

/// The script blocks of one component, in source order. There is mostly one,
/// which is why they are kept in a `smallvec::SmallVec` with room for one before
/// it allocates. The verifier does not look inside the vector: what it holds
/// is `script_blocks`, and what is known of that is what the four functions
/// below say on the word of the crate's source.
#[verifier::external_body]
pub struct ScriptBlocks {
    blocks: SmallVec<[SfcScriptBlock; 1]>,
}

/// The blocks that the vector holds, first to last.
pub uninterp spec fn script_blocks(scripts: ScriptBlocks) -> Seq<SfcScriptBlock>;

impl ScriptBlocks {
    /// Calls `SmallVec::new`. Taken on trust: the new vector holds nothing.
    #[verifier::external_body]
    fn empty() -> (scripts: ScriptBlocks)
        ensures
            script_blocks(scripts) == Seq::<SfcScriptBlock>::empty(),
    {
        ScriptBlocks { blocks: SmallVec::new() }
    }

    /// Calls `SmallVec::push`. Taken on trust: the vector then holds what it
    /// held, in the same order, and `block` after it.
    #[verifier::external_body]
    fn push(&mut self, block: SfcScriptBlock)
        ensures
            script_blocks(*final(self)) == script_blocks(*old(self)).push(block),
    {
        self.blocks.push(block)
    }

    /// Calls `SmallVec::len`. Taken on trust: the result is the number of
    /// blocks that the vector holds.
    #[verifier::external_body]
    fn count(&self) -> (n: usize)
        ensures
            n == script_blocks(*self).len(),
    {
        self.blocks.len()
    }

    /// Indexes the `SmallVec`, which indexes the slice of its elements. Taken
    /// on trust: the result is the block at `i`. Indexing panics where `i` is
    /// not below the length, so that is required.
    #[verifier::external_body]
    fn at(&self, i: usize) -> (block: &SfcScriptBlock)
        requires
            i < script_blocks(*self).len(),
        ensures
            *block == script_blocks(*self)[i as int],
    {
        &self.blocks[i]
    }

    /// The blocks of `blocks`, in the same order.
    pub fn from_vec(blocks: &Vec<SfcScriptBlock>) -> (scripts: ScriptBlocks)
        ensures
            script_blocks(scripts) == blocks@,
    {
        let mut scripts = ScriptBlocks::empty();
        let mut i: usize = 0;
        while i < blocks.len()
            invariant
                i <= blocks.len(),
                script_blocks(scripts) == blocks@.take(i as int),
            decreases blocks.len() - i,
        {
            scripts.push(SfcScriptBlock { source: blocks[i].source.clone(), setup: blocks[i].setup });
            assert(blocks@.take(i + 1) =~= blocks@.take(i as int).push(blocks@[i as int]));
            i += 1;
        }
        assert(blocks@.take(blocks.len() as int) =~= blocks@);
        scripts
    }
}

/// The index of the first block at `from` or after it that is a setup block,
/// or is none, as `setup` says.
pub open spec fn first_script_from(blocks: Seq<SfcScriptBlock>, setup: bool, from: int) -> Option<int>
    decreases blocks.len() - from,
{
    if 0 <= from < blocks.len() {
        if blocks[from].setup == setup {
            Some(from)
        } else {
            first_script_from(blocks, setup, from + 1)
        }
    } else {
        None
    }
}

/// The first block that is a setup block, or is none, as `setup` says.
pub open spec fn first_script(blocks: Seq<SfcScriptBlock>, setup: bool) -> Option<SfcScriptBlock> {
    match first_script_from(blocks, setup, 0) {
        Some(i) => Some(blocks[i]),
        None => None,
    }
}

pub open spec fn opt_block(o: Option<&SfcScriptBlock>) -> Option<SfcScriptBlock> {
    match o {
        Some(b) => Some(*b),
        None => None,
    }
}

fn find_script(scripts: &ScriptBlocks, setup: bool) -> (found: Option<&SfcScriptBlock>)
    ensures
        opt_block(found) == first_script(script_blocks(*scripts), setup),
{
    let n = scripts.count();
    let mut i: usize = 0;
    while i < n
        invariant
            i <= n,
            n == script_blocks(*scripts).len(),
            first_script_from(script_blocks(*scripts), setup, i as int) == first_script_from(
                script_blocks(*scripts),
                setup,
                0,
            ),
        decreases n - i,
    {
        let block = scripts.at(i);
        if block.is_setup() == setup {
            return Some(block);
        }
        i += 1;
    }
    None
}

/// The plain script and the setup script of a component: of each kind the
/// first block in source order, where there is one.
pub fn split_script(scripts: &ScriptBlocks) -> (r: (
    Option<&SfcScriptBlock>,
    Option<&SfcScriptBlock>,
))
    ensures
        opt_block(r.0) == first_script(script_blocks(*scripts), false),
        opt_block(r.1) == first_script(script_blocks(*scripts), true),
{
    let normal = find_script(scripts, false);
    let setup = find_script(scripts, true);
    (normal, setup)
}

} // verus!
