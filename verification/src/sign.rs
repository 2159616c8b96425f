//! Sign placement rules: the pure decisions behind placing a sign block.
//!
//! Placing against a horizontal face yields the block's wall variant,
//! facing away from the clicked face; placing on top or below yields the
//! free-standing variant. The wall variant's registry name is derived
//! from the standing block's name by textual rule; looking the name up in
//! the block registry, and every other world effect, is the caller's
//! side.
use vstd::prelude::*;
use vstd::string::StrSliceExecFns;
use vstd::string::StringExecFns;

verus! {

/// A face of a block a player can click.
#[derive(Clone, Copy, Debug, PartialEq, Eq, Structural)]
pub enum BlockFace {
    Bottom,
    Top,
    North,
    South,
    East,
    West,
}

impl BlockFace {
    /// The four compass faces are horizontal; top and bottom are not.
    pub open spec fn is_horizontal_spec(&self) -> bool {
        match *self {
            BlockFace::North => true,
            BlockFace::South => true,
            BlockFace::East => true,
            BlockFace::West => true,
            _ => false,
        }
    }

    pub fn is_horizontal(&self) -> (r: bool)
        ensures
            r == self.is_horizontal_spec(),
    {
        match *self {
            BlockFace::North => true,
            BlockFace::South => true,
            BlockFace::East => true,
            BlockFace::West => true,
            _ => false,
        }
    }

    /// The face pointing the other way.
    pub open spec fn spec_opposite(&self) -> BlockFace {
        match *self {
            BlockFace::Bottom => BlockFace::Top,
            BlockFace::Top => BlockFace::Bottom,
            BlockFace::North => BlockFace::South,
            BlockFace::South => BlockFace::North,
            BlockFace::East => BlockFace::West,
            BlockFace::West => BlockFace::East,
        }
    }

    pub fn opposite(&self) -> (r: BlockFace)
        ensures
            r == self.spec_opposite(),
    {
        match *self {
            BlockFace::Bottom => BlockFace::Top,
            BlockFace::Top => BlockFace::Bottom,
            BlockFace::North => BlockFace::South,
            BlockFace::South => BlockFace::North,
            BlockFace::East => BlockFace::West,
            BlockFace::West => BlockFace::East,
        }
    }
}

/// Index of the last underscore in `t`, or -1 when it has none.
pub open spec fn last_underscore(t: Seq<char>) -> int
    decreases t.len(),
{
    if t.len() == 0 {
        -1
    } else if t[t.len() - 1] == '_' {
        t.len() - 1
    } else {
        last_underscore(t.take(t.len() - 1))
    }
}

/// Converse characterization: an underscore with none after it is the
/// last one, and a text with no underscore at all has none.
pub proof fn lemma_last_underscore_is(t: Seq<char>, i: int)
    requires
        -1 <= i < t.len(),
        i >= 0 ==> t[i] == '_',
        forall|j: int| i < j < t.len() ==> t[j] != '_',
    ensures
        last_underscore(t) == i,
    decreases t.len(),
{
    if t.len() == 0 {
    } else if i == t.len() - 1 {
    } else {
        assert(t[t.len() - 1] != '_');
        assert(forall|j: int| i < j < t.len() - 1 ==> t.take(t.len() - 1)[j] == t[j]);
        lemma_last_underscore_is(t.take(t.len() - 1), i);
    }
}

/// What a placement decided: the wall variant with its derived registry
/// name and facing, or the free-standing variant.
pub enum SignPlacement {
    /// Use the wall variant. A `None` name means the textual rule found
    /// no variant name; the caller falls back to its default wall sign.
    Wall { wall_block_name: Option<String>, facing: BlockFace },
    /// Use the free-standing variant on top of the block below.
    Standing,
}

/// The sign block's placement behaviour.
pub struct SignBlock;

impl SignBlock {
    /// The namespace all sign blocks live under.
    pub fn namespace(&self) -> (r: &'static str)
        ensures
            r@ == "minecraft"@,
    {
        "minecraft"
    }

    /// Derive the wall variant's registry name from a standing sign's
    /// name: drop the last underscore and what follows, then append the
    /// wall suffix (`oak_sign` becomes `oak_wall_sign`). A name without
    /// an underscore has no wall variant.
    pub fn wall_sign_name(name: &str) -> (r: Option<String>)
        ensures
            r is Some <==> last_underscore(name@) >= 0,
            r matches Some(s) ==> s@ == name@.take(last_underscore(name@)) + "_wall_sign"@,
    {
        let n = name.unicode_len();
        let mut i: usize = n;
        while i > 0
            invariant
                i <= n,
                n == name@.len(),
                forall|j: int| i <= j < n ==> name@[j] != '_',
            decreases i,
        {
            if name.get_char(i - 1) == '_' {
                proof {
                    lemma_last_underscore_is(name@, i - 1);
                }
                let prefix = name.substring_char(0, i - 1);
                let mut r = String::from_str(prefix);
                r.append("_wall_sign");
                return Some(r);
            }
            i = i - 1;
        }
        proof {
            lemma_last_underscore_is(name@, -1);
        }
        None
    }

    /// Decide what placing this sign against `face` yields. Only the
    /// decision is made here; resolving the name to a block and writing
    /// the world state stay with the caller.
    pub fn placement(&self, block_name: &str, face: BlockFace) -> (r: SignPlacement)
        ensures
            face.is_horizontal_spec() ==> (r matches SignPlacement::Wall {
                wall_block_name,
                facing,
            } && facing == face.spec_opposite() && (wall_block_name is Some <==> last_underscore(
                block_name@,
            ) >= 0) && (wall_block_name matches Some(s) ==> s@ == block_name@.take(
                last_underscore(block_name@),
            ) + "_wall_sign"@)),
            !face.is_horizontal_spec() ==> r matches SignPlacement::Standing,
    {
        if face.is_horizontal() {
            SignPlacement::Wall {
                wall_block_name: SignBlock::wall_sign_name(block_name),
                facing: face.opposite(),
            }
        } else {
            SignPlacement::Standing
        }
    }
}

} // verus!
