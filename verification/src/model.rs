//! The scene data model: positions, stages, the stage graph and scenes, each
//! with its record in the registry file.

use crate::codec::{
    be_bytes, counted, counted_checked_size, counted_size, plus, flag_bytes, lemma_be_bytes_len, twos_complement, write_counted,
    write_flag, write_i32, all_encodable, EncodeBinary,
};
use crate::text::same_text;
use vstd::prelude::*;

verus! {

/// Three independent sex flags of a position.
#[derive(Clone, Copy, Debug, PartialEq, Eq, Structural)]
pub struct Sex {
    pub male: bool,
    pub female: bool,
    pub futa: bool,
}

/// A geometric offset in thousandths of a unit (x, y, z) and of a degree (r).
#[derive(Clone, Copy, Debug, PartialEq, Eq, Structural)]
pub struct Offset {
    pub x: i32,
    pub y: i32,
    pub z: i32,
    pub r: i32,
}

/// What else a position holds.
#[derive(Clone, Copy, Debug, PartialEq, Eq, Structural)]
pub struct PositionExtra {
    /// True only for positions of the last stage of a scene.
    pub climax: bool,
}

/// One actor's assignment in one stage.
#[derive(Clone, Debug)]
pub struct Position {
    /// The animation events of this position, never empty; more than one for a chain.
    pub event: Vec<String>,
    pub sex: Sex,
    pub race: String,
    /// Companion objects, separated by commas.
    pub anim_obj: String,
    pub offset: Offset,
    pub extra: PositionExtra,
}

/// What else a stage holds.
#[derive(Clone, Copy, Debug, PartialEq, Eq, Structural)]
pub struct StageExtra {
    /// The fixed length of the stage in thousandths of a second; zero or less
    /// means that the stage has no fixed length.
    pub fixed_len: i32,
}

/// One pose, shared by all actors of a scene.
#[derive(Clone, Debug)]
pub struct Stage {
    pub id: String,
    pub positions: Vec<Position>,
    pub tags: Vec<String>,
    pub extra: StageExtra,
}

/// The outgoing edges of a stage in the stage graph.
#[derive(Clone, Debug)]
pub struct Node {
    pub dest: Vec<String>,
}

/// The node of one stage; a valid graph holds one entry for a stage at most.
#[derive(Clone, Debug)]
pub struct GraphEntry {
    pub id: String,
    pub node: Node,
}

/// One authored animation sequence.
#[derive(Clone, Debug)]
pub struct Scene {
    pub id: String,
    pub name: String,
    pub has_warnings: bool,
    pub stages: Vec<Stage>,
    pub graph: Vec<GraphEntry>,
    pub root: String,
}

impl Scene {
    /// Whether the scene is valid: no stage has two entries in its graph.
    pub open spec fn wf(&self) -> bool {
        forall|i: int, j: int|
            0 <= i < j < self.graph@.len() ==> (#[trigger] self.graph@[i]).id@ != (
            #[trigger] self.graph@[j]).id@
    }

    /// Tests whether the scene is valid.
    pub fn is_valid(&self) -> (r: bool)
        ensures
            r == self.wf(),
    {
        let mut j: usize = 0;
        while j < self.graph.len()
            invariant
                j <= self.graph@.len(),
                forall|a: int, b: int|
                    0 <= a < b < j ==> (#[trigger] self.graph@[a]).id@ != (
                    #[trigger] self.graph@[b]).id@,
            decreases self.graph@.len() - j,
        {
            let mut i: usize = 0;
            while i < j
                invariant
                    i <= j < self.graph@.len(),
                    forall|a: int| 0 <= a < i ==> (#[trigger] self.graph@[a]).id@ != self.graph@[j as int].id@,
                decreases j - i,
            {
                if same_text(self.graph[i].id.as_str(), self.graph[j].id.as_str()) {
                    return false;
                }
                i += 1;
            }
            j += 1;
        }
        true
    }
}

/// The three sex flags, one byte each: male, female, futa.
pub open spec fn sex_bytes(sex: Sex) -> Seq<u8> {
    flag_bytes(sex.male) + flag_bytes(sex.female) + flag_bytes(sex.futa)
}

impl EncodeBinary for Offset {
    open spec fn encoding(&self) -> Seq<u8> {
        be_bytes(twos_complement(self.x as int), 4) + be_bytes(twos_complement(self.y as int), 4)
            + be_bytes(twos_complement(self.z as int), 4) + be_bytes(
            twos_complement(self.r as int),
            4,
        )
    }

    open spec fn encodable(&self) -> bool {
        true
    }

    fn get_byte_size(&self) -> (n: usize) {
        proof {
            lemma_offset_len(*self);
        }
        16
    }

    fn write_byte(&self, buf: &mut Vec<u8>) {
        write_i32(self.x, buf);
        write_i32(self.y, buf);
        write_i32(self.z, buf);
        write_i32(self.r, buf);
        proof {
            assert(final(buf)@ =~= old(buf)@ + self.encoding());
        }
    }

    fn checked_byte_size(&self) -> (r: Option<usize>) {
        proof {
            lemma_offset_len(*self);
        }
        Some(16)
    }
}

/// An offset always takes sixteen bytes.
pub proof fn lemma_offset_len(o: Offset)
    ensures
        o.encoding().len() == 16,
{
    lemma_be_bytes_len(twos_complement(o.x as int), 4);
    lemma_be_bytes_len(twos_complement(o.y as int), 4);
    lemma_be_bytes_len(twos_complement(o.z as int), 4);
    lemma_be_bytes_len(twos_complement(o.r as int), 4);
}

impl EncodeBinary for Position {
    open spec fn encoding(&self) -> Seq<u8> {
        counted(self.event@) + self.race.encoding() + self.anim_obj.encoding() + sex_bytes(
            self.sex,
        ) + flag_bytes(self.extra.climax) + self.offset.encoding()
    }

    open spec fn encodable(&self) -> bool {
        &&& all_encodable(self.event@)
        &&& self.encoding().len() <= usize::MAX
    }

    fn get_byte_size(&self) -> (n: usize) {
        proof {
            lemma_offset_len(self.offset);
        }
        counted_size(&self.event) + self.race.get_byte_size() + self.anim_obj.get_byte_size() + 3
            + 1 + 16
    }

    fn write_byte(&self, buf: &mut Vec<u8>) {
        write_counted(&self.event, buf);
        self.race.write_byte(buf);
        self.anim_obj.write_byte(buf);
        write_flag(self.sex.male, buf);
        write_flag(self.sex.female, buf);
        write_flag(self.sex.futa, buf);
        write_flag(self.extra.climax, buf);
        self.offset.write_byte(buf);
        proof {
            assert(final(buf)@ =~= old(buf)@ + self.encoding());
        }
    }

    fn checked_byte_size(&self) -> (r: Option<usize>) {
        proof {
            lemma_offset_len(self.offset);
        }
        let n = plus(counted_checked_size(&self.event), self.race.checked_byte_size());
        let n = plus(n, self.anim_obj.checked_byte_size());
        plus(n, Some(20))
    }
}

impl EncodeBinary for Stage {
    open spec fn encoding(&self) -> Seq<u8> {
        self.id.encoding() + counted(self.positions@) + be_bytes(
            twos_complement(self.extra.fixed_len as int),
            4,
        ) + counted(self.tags@)
    }

    open spec fn encodable(&self) -> bool {
        &&& all_encodable(self.positions@)
        &&& all_encodable(self.tags@)
        &&& self.encoding().len() <= usize::MAX
    }

    fn get_byte_size(&self) -> (n: usize) {
        proof {
            lemma_be_bytes_len(twos_complement(self.extra.fixed_len as int), 4);
        }
        self.id.get_byte_size() + counted_size(&self.positions) + 4 + counted_size(&self.tags)
    }

    fn write_byte(&self, buf: &mut Vec<u8>) {
        self.id.write_byte(buf);
        write_counted(&self.positions, buf);
        write_i32(self.extra.fixed_len, buf);
        write_counted(&self.tags, buf);
        proof {
            assert(final(buf)@ =~= old(buf)@ + self.encoding());
        }
    }

    fn checked_byte_size(&self) -> (r: Option<usize>) {
        proof {
            lemma_be_bytes_len(twos_complement(self.extra.fixed_len as int), 4);
        }
        let n = plus(self.id.checked_byte_size(), counted_checked_size(&self.positions));
        let n = plus(n, Some(4));
        plus(n, counted_checked_size(&self.tags))
    }
}

impl EncodeBinary for GraphEntry {
    open spec fn encoding(&self) -> Seq<u8> {
        self.id.encoding() + counted(self.node.dest@)
    }

    open spec fn encodable(&self) -> bool {
        &&& all_encodable(self.node.dest@)
        &&& self.encoding().len() <= usize::MAX
    }

    fn get_byte_size(&self) -> (n: usize) {
        self.id.get_byte_size() + counted_size(&self.node.dest)
    }

    fn write_byte(&self, buf: &mut Vec<u8>) {
        self.id.write_byte(buf);
        write_counted(&self.node.dest, buf);
        proof {
            assert(final(buf)@ =~= old(buf)@ + self.encoding());
        }
    }

    fn checked_byte_size(&self) -> (r: Option<usize>) {
        plus(self.id.checked_byte_size(), counted_checked_size(&self.node.dest))
    }
}

impl EncodeBinary for Scene {
    open spec fn encoding(&self) -> Seq<u8> {
        self.id.encoding() + self.name.encoding() + self.root.encoding() + counted(self.stages@)
            + counted(self.graph@)
    }

    open spec fn encodable(&self) -> bool {
        &&& self.wf()
        &&& all_encodable(self.stages@)
        &&& all_encodable(self.graph@)
        &&& self.encoding().len() <= usize::MAX
    }

    fn get_byte_size(&self) -> (n: usize) {
        self.id.get_byte_size() + self.name.get_byte_size() + self.root.get_byte_size()
            + counted_size(&self.stages) + counted_size(&self.graph)
    }

    fn write_byte(&self, buf: &mut Vec<u8>) {
        self.id.write_byte(buf);
        self.name.write_byte(buf);
        self.root.write_byte(buf);
        write_counted(&self.stages, buf);
        write_counted(&self.graph, buf);
        proof {
            assert(final(buf)@ =~= old(buf)@ + self.encoding());
        }
    }

    fn checked_byte_size(&self) -> (r: Option<usize>) {
        if !self.is_valid() {
            return None;
        }
        let n = plus(self.id.checked_byte_size(), self.name.checked_byte_size());
        let n = plus(n, self.root.checked_byte_size());
        let n = plus(n, counted_checked_size(&self.stages));
        plus(n, counted_checked_size(&self.graph))
    }
}

} // verus!
