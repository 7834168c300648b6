//! The project: the aggregate of scenes, and its record in the registry file.

use crate::codec::{
    be_bytes, encode_all, lemma_be_bytes_len, plus, text_bytes, write_raw, write_u64,
    EncodeBinary,
};
use crate::model::{Offset, Scene, Stage};
use crate::text::{find_text, occurs_at, same_text};
use crate::token::{is_token, lemma_token_bytes, new_token, PREFIX_HASH_LEN};
use vstd::prelude::*;

verus! {

/// The version of the registry file's layout.
pub const REGISTRY_VERSION: u8 = 3;

/// A pack of scenes. No two scenes share an identifier.
#[derive(Debug)]
pub struct Project {
    pub pack_name: String,
    pub pack_author: String,
    /// The namespace token: made once, when the project is made, and kept.
    pub prefix_hash: String,
    pub scenes: Vec<Scene>,
}

/// Why a project cannot be compiled.
#[derive(Debug)]
pub enum CompileError {
    /// A scene without warnings has no stage.
    EncodingInvariantViolation,
    /// A race key has no output folder.
    UnrecognizedRaceKey(String),
}

/// The index of the first of `scenes` with the identifier `id`, if there is one.
pub open spec fn scene_position(scenes: Seq<Scene>, id: Seq<char>) -> Option<int> {
    if exists|i: int| 0 <= i < scenes.len() && (#[trigger] scenes[i]).id@ == id {
        Some(choose|i: int| 0 <= i < scenes.len() && (#[trigger] scenes[i]).id@ == id)
    } else {
        None
    }
}

/// The scenes after `scene` was saved: in place of the scene with its
/// identifier, or as the last where there is none.
pub open spec fn with_scene(scenes: Seq<Scene>, scene: Scene) -> Seq<Scene> {
    match scene_position(scenes, scene.id@) {
        Some(i) => scenes.update(i, scene),
        None => scenes.push(scene),
    }
}

/// The index of the first of `stages` with the identifier `id`, or their number.
pub open spec fn first_stage(stages: Seq<Stage>, id: Seq<char>) -> int
    decreases stages.len(),
{
    if stages.len() == 0 {
        0
    } else if stages[0].id@ == id {
        0
    } else {
        1 + first_stage(stages.skip(1), id)
    }
}

/// The first stage with the identifier `id` in the first scene, from `from`
/// on, that has one: the scene's index and the stage's.
pub open spec fn stage_position(scenes: Seq<Scene>, id: Seq<char>, from: int) -> Option<(int, int)>
    decreases scenes.len() - from,
{
    if from < 0 || from >= scenes.len() {
        None
    } else if first_stage(scenes[from].stages@, id) < scenes[from].stages@.len() {
        Some((from, first_stage(scenes[from].stages@, id)))
    } else {
        stage_position(scenes, id, from + 1)
    }
}

/// The scenes that are written: those without warnings, in order.
pub open spec fn unwarned(scenes: Seq<Scene>) -> Seq<Scene>
    decreases scenes.len(),
{
    if scenes.len() == 0 {
        Seq::empty()
    } else if scenes.last().has_warnings {
        unwarned(scenes.drop_last())
    } else {
        unwarned(scenes.drop_last()).push(scenes.last())
    }
}

/// The bytes of a project before its scene records: the version, the name and
/// the author with their lengths, the namespace token as it is, and the
/// number of scenes that follow.
pub open spec fn header_bytes(p: &Project) -> Seq<u8> {
    seq![REGISTRY_VERSION] + text_bytes(p.pack_name@) + text_bytes(p.pack_author@)
        + vstd::utf8::encode_utf8(p.prefix_hash@) + be_bytes(unwarned(p.scenes@).len(), 8)
}

/// Where the scene count stands in the registry file.
pub open spec fn scene_count_offset(p: &Project) -> int {
    1 + text_bytes(p.pack_name@).len() + text_bytes(p.pack_author@).len() + PREFIX_HASH_LEN
}

/// The written scenes of a prefix that is one scene longer.
pub proof fn lemma_unwarned_step(scenes: Seq<Scene>, k: int)
    requires
        0 <= k < scenes.len(),
    ensures
        unwarned(scenes.take(k + 1)) == if scenes[k].has_warnings {
            unwarned(scenes.take(k))
        } else {
            unwarned(scenes.take(k)).push(scenes[k])
        },
{
    assert(scenes.take(k + 1).drop_last() =~= scenes.take(k));
}

/// Every scene among the written ones is a scene without warnings of the
/// project, and the written scenes of a prefix take no more bytes than all.
pub proof fn lemma_unwarned_prefix(scenes: Seq<Scene>, k: int)
    requires
        0 <= k <= scenes.len(),
    ensures
        encode_all(unwarned(scenes.take(k))).len() <= encode_all(unwarned(scenes)).len(),
        k < scenes.len() && !scenes[k].has_warnings ==> encode_all(unwarned(scenes.take(k))).len()
            + scenes[k].encoding().len() <= encode_all(unwarned(scenes)).len(),
    decreases scenes.len() - k,
{
    if k == scenes.len() {
        assert(scenes.take(k) =~= scenes);
    } else {
        lemma_unwarned_step(scenes, k);
        lemma_unwarned_prefix(scenes, k + 1);
        if !scenes[k].has_warnings {
            assert(unwarned(scenes.take(k + 1)).drop_last() =~= unwarned(scenes.take(k)));
        }
    }
}

impl Project {
    /// No two scenes share an identifier.
    pub open spec fn has_distinct_scenes(&self) -> bool {
        forall|i: int, j: int|
            0 <= i < j < self.scenes@.len() ==> (#[trigger] self.scenes@[i]).id@ != (
            #[trigger] self.scenes@[j]).id@
    }

    /// No two scenes share an identifier, and the namespace token is a token.
    pub open spec fn wf(&self) -> bool {
        &&& is_token(self.prefix_hash@, PREFIX_HASH_LEN as int)
        &&& self.has_distinct_scenes()
    }

    /// Whether a scene without warnings has no stage.
    pub open spec fn has_empty_scene(&self) -> bool {
        exists|i: int|
            0 <= i < self.scenes@.len() && !(#[trigger] self.scenes@[i]).has_warnings
                && self.scenes@[i].stages@.len() == 0
    }

    /// Whether the registry can be sized: every scene without warnings can be
    /// written, and the whole record fits a `usize`.
    pub open spec fn fits(&self) -> bool {
        &&& forall|i: int|
            0 <= i < self.scenes@.len() && !(#[trigger] self.scenes@[i]).has_warnings
                ==> self.scenes@[i].encodable()
        &&& self.encoding().len() <= usize::MAX
    }

    /// An empty project by an unknown author under the namespace `prefix_hash`.
    pub fn with_prefix_hash(prefix_hash: String) -> (p: Project)
        ensures
            p.pack_name@.len() == 0,
            p.pack_author@ == "Unknown"@,
            p.prefix_hash == prefix_hash,
            p.scenes@.len() == 0,
            p.has_distinct_scenes(),
            is_token(prefix_hash@, PREFIX_HASH_LEN as int) ==> p.wf(),
    {
        Project {
            pack_name: String::new(),
            pack_author: String::from_str("Unknown"),
            prefix_hash,
            scenes: Vec::new(),
        }
    }

    /// An empty project by an unknown author, under a fresh namespace token.
    pub fn new() -> (p: Project)
        ensures
            p.wf(),
            p.pack_name@.len() == 0,
            p.pack_author@ == "Unknown"@,
            p.scenes@.len() == 0,
    {
        Project::with_prefix_hash(new_token(PREFIX_HASH_LEN))
    }

    /// Replaces the project by a new, empty one with a namespace token of its own.
    pub fn reset(&mut self) -> (r: &Self)
        ensures
            final(self).wf(),
            final(self).pack_name@.len() == 0,
            final(self).pack_author@ == "Unknown"@,
            final(self).scenes@.len() == 0,
            *r == *final(self),
    {
        *self = Project::new();
        self
    }

    /// The index of the scene with the identifier `id`.
    pub fn find_scene(&self, id: &str) -> (r: Option<usize>)
        ensures
            match r {
                Some(i) => i < self.scenes@.len() && self.scenes@[i as int].id@ == id@ && forall|
                    j: int,
                | 0 <= j < i ==> (#[trigger] self.scenes@[j]).id@ != id@,
                None => forall|j: int|
                    0 <= j < self.scenes@.len() ==> (#[trigger] self.scenes@[j]).id@ != id@,
            },
    {
        let mut i: usize = 0;
        while i < self.scenes.len()
            invariant
                i <= self.scenes@.len(),
                forall|j: int| 0 <= j < i ==> (#[trigger] self.scenes@[j]).id@ != id@,
            decreases self.scenes@.len() - i,
        {
            if same_text(self.scenes[i].id.as_str(), id) {
                return Some(i);
            }
            i += 1;
        }
        None
    }

    /// Stores `scene` under its identifier, in place of the scene that had it
    /// or else as the last one, and returns the scene as it is stored.
    pub fn save_scene(&mut self, scene: Scene) -> (r: &Scene)
        requires
            old(self).has_distinct_scenes(),
        ensures
            final(self).has_distinct_scenes(),
            final(self).pack_name == old(self).pack_name,
            final(self).pack_author == old(self).pack_author,
            final(self).prefix_hash == old(self).prefix_hash,
            final(self).scenes@ == with_scene(old(self).scenes@, scene),
            *r == scene,
    {
        match self.find_scene(scene.id.as_str()) {
            Some(i) => {
                self.scenes[i] = scene;
                &self.scenes[i]
            },
            None => {
                self.scenes.push(scene);
                &self.scenes[self.scenes.len() - 1]
            },
        }
    }

    /// Takes the scene with the identifier `id` out of the project.
    pub fn discard_scene(&mut self, id: &String) -> (r: Option<Scene>)
        requires
            old(self).has_distinct_scenes(),
        ensures
            final(self).has_distinct_scenes(),
            final(self).pack_name == old(self).pack_name,
            final(self).pack_author == old(self).pack_author,
            final(self).prefix_hash == old(self).prefix_hash,
            match scene_position(old(self).scenes@, id@) {
                Some(i) => r == Some(old(self).scenes@[i]) && final(self).scenes@ == old(
                    self,
                ).scenes@.remove(i),
                None => r is None && final(self).scenes@ == old(self).scenes@,
            },
    {
        match self.find_scene(id.as_str()) {
            Some(i) => Some(self.scenes.remove(i)),
            None => None,
        }
    }

    /// The scene with the identifier `id`.
    pub fn get_scene(&self, id: &String) -> (r: Option<&Scene>)
        requires
            self.has_distinct_scenes(),
        ensures
            match scene_position(self.scenes@, id@) {
                Some(i) => r == Some(&self.scenes@[i]),
                None => r is None,
            },
    {
        match self.find_scene(id.as_str()) {
            Some(i) => Some(&self.scenes[i]),
            None => None,
        }
    }

    /// The scene with the identifier `id`, to be changed in place.
    pub fn get_scene_mut(&mut self, id: &String) -> (r: Option<&mut Scene>)
        requires
            old(self).has_distinct_scenes(),
        ensures
            final(self).pack_name == old(self).pack_name,
            final(self).pack_author == old(self).pack_author,
            final(self).prefix_hash == old(self).prefix_hash,
            match scene_position(old(self).scenes@, id@) {
                Some(i) => match r {
                    Some(scene) => *scene == old(self).scenes@[i] && final(self).scenes@ == old(
                        self,
                    ).scenes@.update(i, *final(scene)),
                    None => false,
                },
                None => r is None && final(self).scenes@ == old(self).scenes@,
            },
    {
        match self.find_scene(id.as_str()) {
            Some(i) => Some(&mut self.scenes[i]),
            None => None,
        }
    }

    /// The first stage with the identifier `id`, in the first scene that has one.
    pub fn get_stage(&self, id: &String) -> (r: Option<&Stage>)
        ensures
            match stage_position(self.scenes@, id@, 0) {
                Some((i, j)) => 0 <= i < self.scenes@.len() && 0 <= j
                    < self.scenes@[i].stages@.len() && r == Some(&self.scenes@[i].stages@[j])
                    && self.scenes@[i].stages@[j].id@ == id@,
                None => r is None,
            },
    {
        let mut i: usize = 0;
        while i < self.scenes.len()
            invariant
                i <= self.scenes@.len(),
                stage_position(self.scenes@, id@, 0) == stage_position(self.scenes@, id@, i as int),
            decreases self.scenes@.len() - i,
        {
            let found = self.scenes[i].get_stage(id);
            if found.is_some() {
                return found;
            }
            i += 1;
        }
        None
    }
}

/// Whether `stem` is what stands in `name` before the first `suffix`, or all
/// of `name` where it holds no `suffix`.
pub open spec fn is_stem(name: Seq<char>, suffix: Seq<char>, stem: Seq<char>) -> bool {
    &&& stem.len() <= name.len()
    &&& stem == name.subrange(0, stem.len() as int)
    &&& forall|k: int| 0 <= k < stem.len() ==> !occurs_at(name, suffix, k)
    &&& if stem.len() < name.len() {
        occurs_at(name, suffix, stem.len() as int)
    } else {
        forall|k: int| !occurs_at(name, suffix, k) || k == name.len()
    }
}

impl Project {
    /// Names the project after its file: the file's name up to the first
    /// `.slsb.json` in it.
    pub fn set_project_name_from_path(&mut self, file_name: &str)
        ensures
            is_stem(file_name@, ".slsb.json"@, final(self).pack_name@),
            final(self).pack_author == old(self).pack_author,
            final(self).prefix_hash == old(self).prefix_hash,
            final(self).scenes == old(self).scenes,
    {
        let end = match find_text(file_name, ".slsb.json") {
            Some(k) => k,
            None => file_name.unicode_len(),
        };
        self.pack_name = String::from_str(file_name.substring_char(0, end));
    }
}

impl Scene {
    /// The first stage of the scene with the identifier `id`.
    pub fn get_stage(&self, id: &String) -> (r: Option<&Stage>)
        ensures
            0 <= first_stage(self.stages@, id@) <= self.stages@.len(),
            first_stage(self.stages@, id@) < self.stages@.len() ==> r == Some(
                &self.stages@[first_stage(self.stages@, id@)],
            ) && self.stages@[first_stage(self.stages@, id@)].id@ == id@,
            first_stage(self.stages@, id@) == self.stages@.len() ==> r is None,
    {
        let mut i: usize = 0;
        proof {
            assert(self.stages@.skip(0) =~= self.stages@);
        }
        while i < self.stages.len()
            invariant
                i <= self.stages@.len(),
                first_stage(self.stages@, id@) == i + first_stage(self.stages@.skip(i as int), id@),
            decreases self.stages@.len() - i,
        {
            proof {
                assert(self.stages@.skip(i as int).skip(1) =~= self.stages@.skip(i + 1));
                assert(self.stages@.skip(i as int)[0] == self.stages@[i as int]);
            }
            if same_text(self.stages[i].id.as_str(), id.as_str()) {
                return Some(&self.stages[i]);
            }
            i += 1;
        }
        None
    }
}

impl EncodeBinary for Project {
    open spec fn encoding(&self) -> Seq<u8> {
        header_bytes(self) + encode_all(unwarned(self.scenes@))
    }

    open spec fn encodable(&self) -> bool {
        &&& !self.has_empty_scene()
        &&& self.fits()
    }

    fn get_byte_size(&self) -> (n: usize) {
        proof {
            lemma_be_bytes_len(unwarned(self.scenes@).len(), 8);
            assert(self.scenes@.take(0) =~= Seq::<Scene>::empty());
        }
        let token_len: usize = self.prefix_hash.as_str().as_bytes().len();
        let mut n: usize = 1 + self.pack_name.get_byte_size() + self.pack_author.get_byte_size()
            + token_len + 8;
        let mut i: usize = 0;
        while i < self.scenes.len()
            invariant
                i <= self.scenes@.len(),
                self.encodable(),
                n == header_bytes(self).len() + encode_all(unwarned(self.scenes@.take(i as int))).len(),
            decreases self.scenes@.len() - i,
        {
            proof {
                lemma_unwarned_step(self.scenes@, i as int);
                lemma_unwarned_prefix(self.scenes@, i as int);
                if !self.scenes@[i as int].has_warnings {
                    assert(unwarned(self.scenes@.take(i + 1)).drop_last() =~= unwarned(
                        self.scenes@.take(i as int),
                    ));
                }
            }
            if !self.scenes[i].has_warnings {
                n += self.scenes[i].get_byte_size();
            }
            i += 1;
        }
        proof {
            assert(self.scenes@.take(i as int) =~= self.scenes@);
        }
        n
    }

    fn write_byte(&self, buf: &mut Vec<u8>) {
        buf.push(REGISTRY_VERSION);
        self.pack_name.write_byte(buf);
        self.pack_author.write_byte(buf);
        write_raw(self.prefix_hash.as_str(), buf);
        let written = self.written_scenes();
        write_u64(written as u64, buf);
        proof {
            assert(self.scenes@.take(0) =~= Seq::<Scene>::empty());
            assert(buf@ =~= old(buf)@ + header_bytes(self) + encode_all(
                unwarned(self.scenes@.take(0)),
            ));
        }
        let mut i: usize = 0;
        while i < self.scenes.len()
            invariant
                i <= self.scenes@.len(),
                self.encodable(),
                buf@ == old(buf)@ + header_bytes(self) + encode_all(
                    unwarned(self.scenes@.take(i as int)),
                ),
            decreases self.scenes@.len() - i,
        {
            proof {
                lemma_unwarned_step(self.scenes@, i as int);
                if !self.scenes@[i as int].has_warnings {
                    assert(unwarned(self.scenes@.take(i + 1)).drop_last() =~= unwarned(
                        self.scenes@.take(i as int),
                    ));
                }
            }
            if !self.scenes[i].has_warnings {
                self.scenes[i].write_byte(buf);
            }
            i += 1;
            proof {
                assert(buf@ =~= old(buf)@ + header_bytes(self) + encode_all(
                    unwarned(self.scenes@.take(i as int)),
                ));
            }
        }
        proof {
            assert(self.scenes@.take(i as int) =~= self.scenes@);
            assert(buf@ =~= old(buf)@ + self.encoding());
        }
    }

    fn checked_byte_size(&self) -> (r: Option<usize>) {
        if self.find_empty_scene() {
            None
        } else {
            self.fitting_size()
        }
    }
}

impl Project {
    /// The size of the registry file where `fits` holds, and `None` where it
    /// does not.
    pub fn fitting_size(&self) -> (r: Option<usize>)
        ensures
            r is Some <==> self.fits(),
            r is Some ==> r->Some_0 == self.encoding().len(),
    {
        proof {
            lemma_be_bytes_len(unwarned(self.scenes@).len(), 8);
            assert(self.scenes@.take(0) =~= Seq::<Scene>::empty());
        }
        let token_len: usize = self.prefix_hash.as_str().as_bytes().len();
        let head = plus(self.pack_name.checked_byte_size(), self.pack_author.checked_byte_size());
        let mut n: usize = match plus(plus(head, Some(token_len)), Some(9)) {
            Some(n) => n,
            None => {
                return None;
            },
        };
        let mut i: usize = 0;
        while i < self.scenes.len()
            invariant
                i <= self.scenes@.len(),
                n == header_bytes(self).len() + encode_all(unwarned(self.scenes@.take(i as int))).len(),
                forall|j: int|
                    0 <= j < i && !(#[trigger] self.scenes@[j]).has_warnings
                        ==> self.scenes@[j].encodable(),
            decreases self.scenes@.len() - i,
        {
            proof {
                lemma_unwarned_step(self.scenes@, i as int);
                lemma_unwarned_prefix(self.scenes@, i as int);
                if !self.scenes@[i as int].has_warnings {
                    assert(unwarned(self.scenes@.take(i + 1)).drop_last() =~= unwarned(
                        self.scenes@.take(i as int),
                    ));
                }
            }
            if !self.scenes[i].has_warnings {
                match plus(Some(n), self.scenes[i].checked_byte_size()) {
                    Some(m) => {
                        n = m;
                    },
                    None => {
                        return None;
                    },
                }
            }
            i += 1;
        }
        proof {
            assert(self.scenes@.take(i as int) =~= self.scenes@);
        }
        Some(n)
    }

    /// The number of scenes without warnings.
    pub fn written_scenes(&self) -> (n: usize)
        ensures
            n == unwarned(self.scenes@).len(),
    {
        let mut n: usize = 0;
        let mut i: usize = 0;
        proof {
            assert(self.scenes@.take(0) =~= Seq::<Scene>::empty());
        }
        while i < self.scenes.len()
            invariant
                i <= self.scenes@.len(),
                n <= i,
                n == unwarned(self.scenes@.take(i as int)).len(),
            decreases self.scenes@.len() - i,
        {
            proof {
                lemma_unwarned_step(self.scenes@, i as int);
            }
            if !self.scenes[i].has_warnings {
                n += 1;
            }
            i += 1;
        }
        proof {
            assert(self.scenes@.take(i as int) =~= self.scenes@);
        }
        n
    }

    /// Whether a scene without warnings has no stage.
    pub fn find_empty_scene(&self) -> (r: bool)
        ensures
            r == self.has_empty_scene(),
    {
        let mut i: usize = 0;
        while i < self.scenes.len()
            invariant
                i <= self.scenes@.len(),
                forall|j: int|
                    0 <= j < i ==> (#[trigger] self.scenes@[j]).has_warnings
                        || self.scenes@[j].stages@.len() != 0,
            decreases self.scenes@.len() - i,
        {
            if !self.scenes[i].has_warnings && self.scenes[i].stages.len() == 0 {
                return true;
            }
            i += 1;
        }
        false
    }

    /// The registry file of the project: its header and the records of the
    /// scenes without warnings. A scene without warnings that has no stage
    /// is an error, and nothing is written.
    pub fn encode(&self) -> (r: Result<Vec<u8>, CompileError>)
        requires
            self.fits(),
        ensures
            match r {
                Ok(bytes) => !self.has_empty_scene() && bytes@ == self.encoding(),
                Err(e) => self.has_empty_scene() && e is EncodingInvariantViolation,
            },
    {
        if self.find_empty_scene() {
            return Err(CompileError::EncodingInvariantViolation);
        }
        let mut buf: Vec<u8> = Vec::with_capacity(self.get_byte_size());
        self.write_byte(&mut buf);
        proof {
            assert(buf@ =~= self.encoding());
        }
        Ok(buf)
    }
}

/// The registry file starts with the version, and the count in its header is
/// the number of the scenes without warnings, which are the scenes written.
pub proof fn lemma_header_scene_count(p: &Project)
    requires
        vstd::utf8::encode_utf8(p.prefix_hash@).len() == PREFIX_HASH_LEN,
    ensures
        p.encoding()[0] == REGISTRY_VERSION,
        p.encoding().subrange(scene_count_offset(p), scene_count_offset(p) + 8) == be_bytes(
            unwarned(p.scenes@).len(),
            8,
        ),
        unwarned(p.scenes@) == p.scenes@.filter(|s: Scene| !s.has_warnings),
        p.encoding().subrange(scene_count_offset(p) + 8, p.encoding().len() as int) == encode_all(
            unwarned(p.scenes@),
        ),
{
    lemma_be_bytes_len(unwarned(p.scenes@).len(), 8);
    lemma_unwarned_is_filter(p.scenes@);
    let e = p.encoding();
    let off = scene_count_offset(p);
    assert(e.subrange(off, off + 8) =~= be_bytes(unwarned(p.scenes@).len(), 8));
    assert(e.subrange(off + 8, e.len() as int) =~= encode_all(unwarned(p.scenes@)));
}

/// The written scenes are the scenes filtered by their warning flag.
pub proof fn lemma_unwarned_is_filter(scenes: Seq<Scene>)
    ensures
        unwarned(scenes) == scenes.filter(|s: Scene| !s.has_warnings),
    decreases scenes.len(),
{
    reveal(Seq::filter);
    if scenes.len() > 0 {
        lemma_unwarned_is_filter(scenes.drop_last());
    }
}

/// The namespace token of a well-formed project takes its fixed number of bytes.
pub proof fn lemma_wf_token_bytes(p: &Project)
    requires
        p.wf(),
    ensures
        vstd::utf8::encode_utf8(p.prefix_hash@).len() == PREFIX_HASH_LEN,
{
    lemma_token_bytes(p.prefix_hash@, PREFIX_HASH_LEN as int);
}

/// The positions of a stage after the offsets `offsets` were applied: each
/// position that has an offset in the list takes it, the others keep theirs.
pub open spec fn offsets_applied(before: Stage, offsets: Seq<Offset>, after: Stage) -> bool {
    &&& after.id == before.id
    &&& after.tags == before.tags
    &&& after.extra == before.extra
    &&& after.positions@.len() == before.positions@.len()
    &&& forall|n: int|
        0 <= n < after.positions@.len() ==> {
            &&& (#[trigger] after.positions@[n]).event == before.positions@[n].event
            &&& after.positions@[n].sex == before.positions@[n].sex
            &&& after.positions@[n].race == before.positions@[n].race
            &&& after.positions@[n].anim_obj == before.positions@[n].anim_obj
            &&& after.positions@[n].extra == before.positions@[n].extra
            &&& after.positions@[n].offset == if n < offsets.len() {
                offsets[n]
            } else {
                before.positions@[n].offset
            }
        }
}

/// The scene after `offsets` were applied to its first stage with the
/// identifier `stage_id`: that stage takes the offsets, and nothing else of
/// the scene changes.
pub open spec fn scene_offsets_applied(
    before: Scene,
    stage_id: Seq<char>,
    offsets: Seq<Offset>,
    after: Scene,
) -> bool {
    &&& after.id == before.id
    &&& after.name == before.name
    &&& after.has_warnings == before.has_warnings
    &&& after.graph == before.graph
    &&& after.root == before.root
    &&& after.stages@.len() == before.stages@.len()
    &&& forall|k: int|
        0 <= k < after.stages@.len() ==> if k == first_stage(before.stages@, stage_id) {
            offsets_applied(before.stages@[k], offsets, #[trigger] after.stages@[k])
        } else {
            after.stages@[k] == before.stages@[k]
        }
}

impl Stage {
    /// Gives each position the offset that `offsets` holds for it.
    pub fn import_offset(&mut self, offsets: &Vec<Offset>)
        ensures
            offsets_applied(*old(self), offsets@, *final(self)),
    {
        let mut n: usize = 0;
        while n < self.positions.len() && n < offsets.len()
            invariant
                n <= offsets@.len(),
                n <= self.positions@.len(),
                self.id == old(self).id,
                self.tags == old(self).tags,
                self.extra == old(self).extra,
                self.positions@.len() == old(self).positions@.len(),
                forall|m: int|
                    0 <= m < self.positions@.len() ==> {
                        &&& (#[trigger] self.positions@[m]).event == old(self).positions@[m].event
                        &&& self.positions@[m].sex == old(self).positions@[m].sex
                        &&& self.positions@[m].race == old(self).positions@[m].race
                        &&& self.positions@[m].anim_obj == old(self).positions@[m].anim_obj
                        &&& self.positions@[m].extra == old(self).positions@[m].extra
                        &&& self.positions@[m].offset == if m < n {
                            offsets@[m]
                        } else {
                            old(self).positions@[m].offset
                        }
                    },
            decreases self.positions@.len() - n,
        {
            self.positions[n].offset = offsets[n];
            n += 1;
        }
    }
}

impl Project {
    /// Applies `offsets` to the stage `stage_id` of the scene `scene_id`, and
    /// says whether the project has such a scene with such a stage. No other
    /// scene changes.
    pub fn import_offset(&mut self, scene_id: &String, stage_id: &String, offsets: &Vec<Offset>) -> (found:
        bool)
        requires
            old(self).has_distinct_scenes(),
        ensures
            final(self).has_distinct_scenes(),
            final(self).pack_name == old(self).pack_name,
            final(self).pack_author == old(self).pack_author,
            final(self).prefix_hash == old(self).prefix_hash,
            final(self).scenes@.len() == old(self).scenes@.len(),
            match scene_position(old(self).scenes@, scene_id@) {
                Some(i) => {
                    &&& found == (first_stage(old(self).scenes@[i].stages@, stage_id@) < old(
                        self,
                    ).scenes@[i].stages@.len())
                    &&& forall|j: int|
                        0 <= j < final(self).scenes@.len() && j != i ==> final(self).scenes@[j]
                            == old(self).scenes@[j]
                    &&& scene_offsets_applied(
                        old(self).scenes@[i],
                        stage_id@,
                        offsets@,
                        final(self).scenes@[i],
                    )
                },
                None => !found && final(self).scenes@ == old(self).scenes@,
            },
    {
        match self.find_scene(scene_id.as_str()) {
            Some(i) => self.scenes[i].import_offset(stage_id, offsets),
            None => false,
        }
    }
}

impl Scene {
    /// Applies `offsets` to the first stage with the identifier `stage_id`,
    /// and says whether the scene has such a stage.
    pub fn import_offset(&mut self, stage_id: &String, offsets: &Vec<Offset>) -> (found: bool)
        ensures
            found == (first_stage(old(self).stages@, stage_id@) < old(self).stages@.len()),
            scene_offsets_applied(*old(self), stage_id@, offsets@, *final(self)),
    {
        let mut i: usize = 0;
        proof {
            assert(self.stages@.skip(0) =~= self.stages@);
        }
        while i < self.stages.len()
            invariant
                *self == *old(self),
                i <= self.stages@.len(),
                first_stage(self.stages@, stage_id@) == i + first_stage(
                    self.stages@.skip(i as int),
                    stage_id@,
                ),
            decreases self.stages@.len() - i,
        {
            proof {
                assert(self.stages@.skip(i as int).skip(1) =~= self.stages@.skip(i + 1));
                assert(self.stages@.skip(i as int)[0] == self.stages@[i as int]);
            }
            if same_text(self.stages[i].id.as_str(), stage_id.as_str()) {
                self.stages[i].import_offset(offsets);
                return true;
            }
            i += 1;
        }
        false
    }
}

} // verus!
