use vstd::prelude::*;

verus! {

/// Behaviour hooks a block kind may implement; none are required yet.
pub trait BlockBehaviour {

}

/// One block kind, named by its registry name.
#[derive(Clone)]
pub struct Block {
    pub registry_name: String,
}

/// Reading of a block list as a map from registry name to block; on a name
/// registered twice the later registration wins, replacing the earlier one.
pub open spec fn blocks_map(s: Seq<Block>) -> Map<Seq<char>, Block>
    decreases s.len(),
{
    if s.len() == 0 {
        Map::empty()
    } else {
        blocks_map(s.drop_last()).insert(s.last().registry_name@, s.last())
    }
}

/// The block registry: block kinds keyed by their registry name.
pub struct RegistryManager {
    blocks: Vec<Block>,
}

impl View for RegistryManager {
    type V = Map<Seq<char>, Block>;

    closed spec fn view(&self) -> Map<Seq<char>, Block> {
        blocks_map(self.blocks@)
    }
}

impl RegistryManager {
    /// An empty block registry.
    pub fn new() -> (r: RegistryManager)
        ensures
            r@ =~= Map::<Seq<char>, Block>::empty(),
    {
        RegistryManager { blocks: Vec::new() }
    }

    /// Register a block kind under its registry name, replacing any block
    /// kind previously registered under the same name.
    pub fn registry_block(&mut self, block: Block)
        ensures
            final(self)@ == old(self)@.insert(block.registry_name@, block),
    {
        let ghost before = self.blocks@;
        let ghost b = block;
        self.blocks.push(block);
        proof {
            assert(self.blocks@.drop_last() =~= before);
            assert(self.blocks@.last() == b);
        }
    }

    /// Look up the block kind registered under a name, if any.
    pub fn get_block(&self, name: &String) -> (r: Option<&Block>)
        ensures
            match r {
                Some(b) => self@.contains_key(name@) && *b == self@[name@],
                None => !self@.contains_key(name@),
            },
    {
        let n = self.blocks.len();
        let mut best: Option<usize> = None;
        for i in 0..n
            invariant
                n == self.blocks@.len(),
                match best {
                    Some(j) => j < i && self.blocks@[j as int].registry_name@ == name@
                        && forall|jj: int|
                            j < jj < i ==> (#[trigger] self.blocks@[jj]).registry_name@ != name@,
                    None => forall|jj: int|
                        0 <= jj < i ==> (#[trigger] self.blocks@[jj]).registry_name@ != name@,
                },
        {
            if self.blocks[i].registry_name == *name {
                best = Some(i);
            }
        }
        proof {
            match best {
                Some(j) => lemma_blocks_map_at(self.blocks@, j as int),
                None => lemma_blocks_map_absent(self.blocks@, name@),
            }
        }
        match best {
            Some(j) => Some(&self.blocks[j]),
            None => None,
        }
    }
}

/// The map of a block list sends a name to the last block registered under
/// it.
proof fn lemma_blocks_map_at(s: Seq<Block>, j: int)
    requires
        0 <= j < s.len(),
        forall|jj: int| j < jj < s.len() ==> (#[trigger] s[jj]).registry_name@ != s[j].registry_name@,
    ensures
        blocks_map(s).contains_key(s[j].registry_name@),
        blocks_map(s)[s[j].registry_name@] == s[j],
    decreases s.len(),
{
    if j == s.len() - 1 {
    } else {
        assert(forall|jj: int|
            0 <= jj < s.drop_last().len() ==> (#[trigger] s.drop_last()[jj]) == s[jj]);
        lemma_blocks_map_at(s.drop_last(), j);
        assert(s.last().registry_name@ != s[j].registry_name@);
    }
}

/// The map of a block list holds no name that no block has.
proof fn lemma_blocks_map_absent(s: Seq<Block>, name: Seq<char>)
    requires
        forall|jj: int| 0 <= jj < s.len() ==> (#[trigger] s[jj]).registry_name@ != name,
    ensures
        !blocks_map(s).contains_key(name),
    decreases s.len(),
{
    if s.len() > 0 {
        assert(forall|jj: int|
            0 <= jj < s.drop_last().len() ==> (#[trigger] s.drop_last()[jj]) == s[jj]);
        lemma_blocks_map_absent(s.drop_last(), name);
        assert(s.last().registry_name@ != name);
    }
}

} // verus!
