//! Compilation: the lines of every position, each event expanded once, grouped
//! by race, and the files that the groups are written to.

use crate::fnis::{companion_objects, fnis_lines, make_fnis_lines};
use crate::model::{Position, Scene, Stage};
use crate::project::Project;
use crate::race::{alias_group, alias_targets};
use crate::text::same_text;
use vstd::prelude::*;

verus! {

/// The lines listed under one race key.
#[derive(Debug)]
pub struct RaceGroup {
    pub race: String,
    pub lines: Vec<String>,
}

/// What a `RaceGroup` holds.
pub struct GroupView {
    pub race: Seq<char>,
    pub lines: Seq<Seq<char>>,
}

impl View for RaceGroup {
    type V = GroupView;

    open spec fn view(&self) -> GroupView {
        GroupView { race: self.race@, lines: self.lines.deep_view() }
    }
}

/// The groups made so far, and the events that were expanded into them.
#[derive(Debug)]
pub struct LineGroups {
    /// The first events of the positions that were expanded, after two placeholders.
    pub control: Vec<String>,
    /// The groups, in the order in which their races first came up.
    pub groups: Vec<RaceGroup>,
}

/// What a `LineGroups` holds.
pub struct GroupsView {
    pub control: Seq<Seq<char>>,
    pub groups: Seq<GroupView>,
}

/// What a list of groups holds.
pub open spec fn groups_view(groups: Seq<RaceGroup>) -> Seq<GroupView> {
    Seq::new(groups.len(), |i: int| groups[i]@)
}

impl View for LineGroups {
    type V = GroupsView;

    open spec fn view(&self) -> GroupsView {
        GroupsView { control: self.control.deep_view(), groups: groups_view(self.groups@) }
    }
}

/// Whether `i` is the first group of `race`.
pub open spec fn is_group_of(groups: Seq<GroupView>, race: Seq<char>, i: int) -> bool {
    &&& 0 <= i < groups.len()
    &&& groups[i].race == race
    &&& forall|j: int| 0 <= j < i ==> (#[trigger] groups[j]).race != race
}

/// The groups after `lines` were listed under `race`: at the end of its group,
/// or as a new last group where it had none.
pub open spec fn with_lines(groups: Seq<GroupView>, race: Seq<char>, lines: Seq<Seq<char>>) -> Seq<
    GroupView,
> {
    if exists|i: int| is_group_of(groups, race, i) {
        let i = choose|i: int| is_group_of(groups, race, i);
        groups.update(i, GroupView { race, lines: groups[i].lines + lines })
    } else {
        groups.push(GroupView { race, lines })
    }
}

/// The groups after `lines` were listed under each of `races` in turn.
pub open spec fn with_lines_for_all(
    groups: Seq<GroupView>,
    races: Seq<Seq<char>>,
    lines: Seq<Seq<char>>,
) -> Seq<GroupView>
    decreases races.len(),
{
    if races.len() == 0 {
        groups
    } else {
        with_lines(with_lines_for_all(groups, races.drop_last(), lines), races.last(), lines)
    }
}

/// The lines of one position: those under the namespace `hash`, after the same
/// lines without a namespace where `blank_prefix` asks for both.
pub open spec fn position_lines(
    position: Position,
    hash: Seq<char>,
    fixed_len: bool,
    blank_prefix: bool,
) -> Seq<Seq<char>> {
    let objects = companion_objects(position.anim_obj@);
    let lines = fnis_lines(position.event.deep_view(), hash, fixed_len, objects);
    if blank_prefix {
        fnis_lines(position.event.deep_view(), Seq::empty(), fixed_len, objects) + lines
    } else {
        lines
    }
}

/// One position more: nothing changes where its first event was expanded
/// before; else the event is recorded and the position's lines are listed
/// under every race of its alias group.
pub open spec fn after_position(
    state: GroupsView,
    position: Position,
    hash: Seq<char>,
    fixed_len: bool,
    blank_prefix: bool,
) -> GroupsView {
    if position.event@.len() == 0 || state.control.contains(position.event@[0]@) {
        state
    } else {
        GroupsView {
            control: state.control.push(position.event@[0]@),
            groups: with_lines_for_all(
                state.groups,
                alias_group(position.race@),
                position_lines(position, hash, fixed_len, blank_prefix),
            ),
        }
    }
}

/// The positions of a stage, one after the other.
pub open spec fn after_positions(
    state: GroupsView,
    positions: Seq<Position>,
    hash: Seq<char>,
    fixed_len: bool,
    blank_prefix: bool,
) -> GroupsView
    decreases positions.len(),
{
    if positions.len() == 0 {
        state
    } else {
        after_position(
            after_positions(state, positions.drop_last(), hash, fixed_len, blank_prefix),
            positions.last(),
            hash,
            fixed_len,
            blank_prefix,
        )
    }
}

/// The positions of each stage in turn; a stage has a fixed length where its
/// timer is above zero.
pub open spec fn after_stages(
    state: GroupsView,
    stages: Seq<Stage>,
    hash: Seq<char>,
    blank_prefix: bool,
) -> GroupsView
    decreases stages.len(),
{
    if stages.len() == 0 {
        state
    } else {
        after_positions(
            after_stages(state, stages.drop_last(), hash, blank_prefix),
            stages.last().positions@,
            hash,
            stages.last().extra.fixed_len > 0,
            blank_prefix,
        )
    }
}

/// The stages of each scene in turn, but for the scenes with warnings.
pub open spec fn after_scenes(
    state: GroupsView,
    scenes: Seq<Scene>,
    hash: Seq<char>,
    blank_prefix: bool,
) -> GroupsView
    decreases scenes.len(),
{
    if scenes.len() == 0 {
        state
    } else if scenes.last().has_warnings {
        after_scenes(state, scenes.drop_last(), hash, blank_prefix)
    } else {
        after_stages(
            after_scenes(state, scenes.drop_last(), hash, blank_prefix),
            scenes.last().stages@,
            hash,
            blank_prefix,
        )
    }
}

/// Before the first position: no group, and two placeholders that are never expanded.
pub open spec fn initial_groups() -> GroupsView {
    GroupsView { control: seq!["__BLANK__"@, "__DEFAULT__"@], groups: Seq::empty() }
}

/// The groups of a whole project.
pub open spec fn project_groups(project: &Project, blank_prefix: bool) -> GroupsView {
    after_scenes(initial_groups(), project.scenes@, project.prefix_hash@, blank_prefix)
}

/// Whether one of `items` is `text`.
pub fn holds_text(items: &Vec<String>, text: &str) -> (r: bool)
    ensures
        r == items.deep_view().contains(text@),
{
    let mut i: usize = 0;
    while i < items.len()
        invariant
            i <= items@.len(),
            forall|j: int| 0 <= j < i ==> (#[trigger] items.deep_view()[j]) != text@,
        decreases items@.len() - i,
    {
        if same_text(items[i].as_str(), text) {
            proof {
                assert(items.deep_view()[i as int] == text@);
            }
            return true;
        }
        i += 1;
    }
    false
}

/// `first`, then `second`, in one list.
pub fn joined_texts(first: &Vec<String>, second: &Vec<String>) -> (r: Vec<String>)
    ensures
        r.deep_view() == first.deep_view() + second.deep_view(),
{
    let mut r: Vec<String> = Vec::new();
    let mut i: usize = 0;
    while i < first.len()
        invariant
            i <= first@.len(),
            r@.len() == i,
            forall|j: int| 0 <= j < i ==> (#[trigger] r@[j])@ == first@[j]@,
        decreases first@.len() - i,
    {
        r.push(first[i].clone());
        i += 1;
    }
    let mut k: usize = 0;
    while k < second.len()
        invariant
            k <= second@.len(),
            r@.len() == first@.len() + k,
            forall|j: int| 0 <= j < first@.len() ==> (#[trigger] r@[j])@ == first@[j]@,
            forall|j: int| 0 <= j < k ==> (#[trigger] r@[first@.len() + j])@ == second@[j]@,
        decreases second@.len() - k,
    {
        r.push(second[k].clone());
        k += 1;
    }
    proof {
        assert forall|j: int| 0 <= j < r@.len() implies r.deep_view()[j] == (first.deep_view()
            + second.deep_view())[j] by {
            if j >= first@.len() {
                assert(r@[first@.len() + (j - first@.len())]@ == second@[j - first@.len()]@);
            }
        }
        assert(r.deep_view() =~= first.deep_view() + second.deep_view());
    }
    r
}

impl LineGroups {
    /// No group, and the two placeholders.
    pub fn new() -> (r: LineGroups)
        ensures
            r@ == initial_groups(),
    {
        let mut control: Vec<String> = Vec::new();
        control.push(String::from_str("__BLANK__"));
        control.push(String::from_str("__DEFAULT__"));
        let r = LineGroups { control, groups: Vec::new() };
        proof {
            assert(r@.control =~= initial_groups().control);
            assert(r@.groups =~= initial_groups().groups);
        }
        r
    }

    /// Lists `lines` under `race`.
    pub fn insert(&mut self, race: &str, lines: &Vec<String>)
        ensures
            final(self)@.control == old(self)@.control,
            final(self)@.groups == with_lines(old(self)@.groups, race@, lines.deep_view()),
    {
        let ghost before = self@.groups;
        let mut i: usize = 0;
        while i < self.groups.len()
            invariant
                i <= self.groups@.len(),
                *self == *old(self),
                before == self@.groups,
                forall|j: int| 0 <= j < i ==> (#[trigger] before[j]).race != race@,
            decreases self.groups@.len() - i,
        {
            if same_text(self.groups[i].race.as_str(), race) {
                let all = joined_texts(&self.groups[i].lines, lines);
                self.groups[i] = RaceGroup { race: String::from_str(race), lines: all };
                proof {
                    assert(is_group_of(before, race@, i as int));
                    let k = choose|k: int| is_group_of(before, race@, k);
                    assert(k == i);
                    assert(self@.groups =~= with_lines(before, race@, lines.deep_view()));
                }
                return ;
            }
            i += 1;
        }
        self.groups.push(RaceGroup { race: String::from_str(race), lines: crate::text::copy_texts(lines) });
        proof {
            assert(!exists|k: int| is_group_of(before, race@, k));
            assert(self@.groups =~= with_lines(before, race@, lines.deep_view()));
        }
    }

    /// Takes one position in, as `after_position` says.
    pub fn add_position(
        &mut self,
        position: &Position,
        hash: &str,
        fixed_len: bool,
        blank_prefix: bool,
    )
        requires
            position.event@.len() > 0,
        ensures
            final(self)@ == after_position(old(self)@, *position, hash@, fixed_len, blank_prefix),
    {
        let event = &position.event[0];
        if holds_text(&self.control, event.as_str()) {
            return ;
        }
        self.control.push(event.clone());
        proof {
            assert(self.control.deep_view() =~= old(self).control.deep_view().push(event@));
        }
        let spaced = make_fnis_lines(
            &position.event,
            hash,
            fixed_len,
            position.anim_obj.as_str(),
        );
        let lines = if blank_prefix {
            let none = String::new();
            let bare = make_fnis_lines(
                &position.event,
                none.as_str(),
                fixed_len,
                position.anim_obj.as_str(),
            );
            joined_texts(&bare, &spaced)
        } else {
            spaced
        };
        let races = alias_targets(position.race.as_str());
        let ghost start = self@.groups;
        let ghost want = lines.deep_view();
        let mut i: usize = 0;
        proof {
            assert(races.deep_view().take(0) =~= Seq::<Seq<char>>::empty());
        }
        while i < races.len()
            invariant
                i <= races@.len(),
                want == lines.deep_view(),
                self@.control == old(self)@.control.push(event@),
                self@.groups == with_lines_for_all(start, races.deep_view().take(i as int), want),
            decreases races@.len() - i,
        {
            self.insert(races[i].as_str(), &lines);
            i += 1;
            proof {
                let all = races.deep_view();
                assert(all.take(i as int).drop_last() =~= all.take(i - 1));
                assert(all.take(i as int).last() == races@[i - 1]@);
            }
        }
        proof {
            assert(races.deep_view().take(i as int) =~= races.deep_view());
        }
    }

    /// Takes the positions of one stage in.
    pub fn add_stage(&mut self, stage: &Stage, hash: &str, blank_prefix: bool)
        requires
            forall|j: int|
                0 <= j < stage.positions@.len() ==> (#[trigger] stage.positions@[j]).event@.len()
                    > 0,
        ensures
            final(self)@ == after_positions(
                old(self)@,
                stage.positions@,
                hash@,
                stage.extra.fixed_len > 0,
                blank_prefix,
            ),
    {
        let fixed_len = stage.extra.fixed_len > 0;
        let mut i: usize = 0;
        proof {
            assert(stage.positions@.take(0) =~= Seq::<Position>::empty());
        }
        while i < stage.positions.len()
            invariant
                i <= stage.positions@.len(),
                fixed_len == (stage.extra.fixed_len > 0),
                forall|j: int|
                    0 <= j < stage.positions@.len() ==> (
                    #[trigger] stage.positions@[j]).event@.len() > 0,
                self@ == after_positions(
                    old(self)@,
                    stage.positions@.take(i as int),
                    hash@,
                    fixed_len,
                    blank_prefix,
                ),
            decreases stage.positions@.len() - i,
        {
            self.add_position(&stage.positions[i], hash, fixed_len, blank_prefix);
            i += 1;
            proof {
                assert(stage.positions@.take(i as int).drop_last() =~= stage.positions@.take(
                    i - 1,
                ));
            }
        }
        proof {
            assert(stage.positions@.take(i as int) =~= stage.positions@);
        }
    }

    /// Takes the stages of one scene in, whether it has warnings or not.
    pub fn add_scene(&mut self, scene: &Scene, hash: &str, blank_prefix: bool)
        requires
            has_events(*scene),
        ensures
            final(self)@ == after_stages(old(self)@, scene.stages@, hash@, blank_prefix),
    {
        let mut i: usize = 0;
        proof {
            assert(scene.stages@.take(0) =~= Seq::<Stage>::empty());
        }
        while i < scene.stages.len()
            invariant
                i <= scene.stages@.len(),
                has_events(*scene),
                self@ == after_stages(old(self)@, scene.stages@.take(i as int), hash@, blank_prefix),
            decreases scene.stages@.len() - i,
        {
            self.add_stage(&scene.stages[i], hash, blank_prefix);
            i += 1;
            proof {
                assert(scene.stages@.take(i as int).drop_last() =~= scene.stages@.take(i - 1));
            }
        }
        proof {
            assert(scene.stages@.take(i as int) =~= scene.stages@);
        }
    }
}

/// Whether every position of the scene has an event.
pub open spec fn has_events(scene: Scene) -> bool {
    forall|i: int, j: int|
        0 <= i < scene.stages@.len() && 0 <= j < scene.stages@[i].positions@.len() ==> (
        #[trigger] scene.stages@[i].positions@[j]).event@.len() > 0
}

/// Whether every position of every scene without warnings has an event.
pub open spec fn positions_have_events(project: &Project) -> bool {
    forall|i: int|
        0 <= i < project.scenes@.len() && !(#[trigger] project.scenes@[i]).has_warnings
            ==> has_events(project.scenes@[i])
}

/// The lines of the project, grouped by race: every scene without warnings,
/// stage by stage and position by position, each first event expanded once.
/// With `blank_prefix` every position also gives its lines without namespace.
pub fn collect_lines(project: &Project, blank_prefix: bool) -> (r: LineGroups)
    requires
        positions_have_events(project),
    ensures
        r@ == project_groups(project, blank_prefix),
{
    let mut r = LineGroups::new();
    let mut i: usize = 0;
    proof {
        assert(project.scenes@.take(0) =~= Seq::<Scene>::empty());
    }
    while i < project.scenes.len()
        invariant
            i <= project.scenes@.len(),
            positions_have_events(project),
            r@ == after_scenes(
                initial_groups(),
                project.scenes@.take(i as int),
                project.prefix_hash@,
                blank_prefix,
            ),
        decreases project.scenes@.len() - i,
    {
        if !project.scenes[i].has_warnings {
            r.add_scene(&project.scenes[i], project.prefix_hash.as_str(), blank_prefix);
        }
        i += 1;
        proof {
            assert(project.scenes@.take(i as int).drop_last() =~= project.scenes@.take(i - 1));
        }
    }
    proof {
        assert(project.scenes@.take(i as int) =~= project.scenes@);
    }
    r
}

/// A position whose first event was expanded before changes nothing: neither
/// the events recorded nor any group.
pub proof fn lemma_seen_event_adds_nothing(
    state: GroupsView,
    position: Position,
    hash: Seq<char>,
    fixed_len: bool,
    blank_prefix: bool,
)
    requires
        position.event@.len() > 0,
        state.control.contains(position.event@[0]@),
    ensures
        after_position(state, position, hash, fixed_len, blank_prefix) == state,
{
}

/// Each position that is expanded adds exactly one event to the record, and
/// the record never holds an event twice.
pub proof fn lemma_control_stays_distinct(
    state: GroupsView,
    position: Position,
    hash: Seq<char>,
    fixed_len: bool,
    blank_prefix: bool,
)
    requires
        state.control.no_duplicates(),
    ensures
        after_position(state, position, hash, fixed_len, blank_prefix).control.no_duplicates(),
        position.event@.len() > 0 ==> after_position(
            state,
            position,
            hash,
            fixed_len,
            blank_prefix,
        ).control.contains(position.event@[0]@),
{
    if position.event@.len() > 0 && !state.control.contains(position.event@[0]@) {
        let next = state.control.push(position.event@[0]@);
        assert(next[state.control.len() as int] == position.event@[0]@);
        assert forall|i: int, j: int| 0 <= i < next.len() && 0 <= j < next.len() && i != j implies next[i] != next[j] by {
            if i < state.control.len() {
                assert(state.control.contains(next[i]));
            }
            if j < state.control.len() {
                assert(state.control.contains(next[j]));
            }
        }
    }
}

/// The positions of a stage leave the record of events free of duplicates.
pub proof fn lemma_positions_keep_distinct(
    state: GroupsView,
    positions: Seq<Position>,
    hash: Seq<char>,
    fixed_len: bool,
    blank_prefix: bool,
)
    requires
        state.control.no_duplicates(),
    ensures
        after_positions(state, positions, hash, fixed_len, blank_prefix).control.no_duplicates(),
    decreases positions.len(),
{
    if positions.len() > 0 {
        lemma_positions_keep_distinct(state, positions.drop_last(), hash, fixed_len, blank_prefix);
        lemma_control_stays_distinct(
            after_positions(state, positions.drop_last(), hash, fixed_len, blank_prefix),
            positions.last(),
            hash,
            fixed_len,
            blank_prefix,
        );
    }
}

/// The stages of a scene leave the record of events free of duplicates.
pub proof fn lemma_stages_keep_distinct(
    state: GroupsView,
    stages: Seq<Stage>,
    hash: Seq<char>,
    blank_prefix: bool,
)
    requires
        state.control.no_duplicates(),
    ensures
        after_stages(state, stages, hash, blank_prefix).control.no_duplicates(),
    decreases stages.len(),
{
    if stages.len() > 0 {
        lemma_stages_keep_distinct(state, stages.drop_last(), hash, blank_prefix);
        lemma_positions_keep_distinct(
            after_stages(state, stages.drop_last(), hash, blank_prefix),
            stages.last().positions@,
            hash,
            stages.last().extra.fixed_len > 0,
            blank_prefix,
        );
    }
}

/// The scenes of a project leave the record of events free of duplicates.
pub proof fn lemma_scenes_keep_distinct(
    state: GroupsView,
    scenes: Seq<Scene>,
    hash: Seq<char>,
    blank_prefix: bool,
)
    requires
        state.control.no_duplicates(),
    ensures
        after_scenes(state, scenes, hash, blank_prefix).control.no_duplicates(),
    decreases scenes.len(),
{
    if scenes.len() > 0 {
        lemma_scenes_keep_distinct(state, scenes.drop_last(), hash, blank_prefix);
        if !scenes.last().has_warnings {
            lemma_stages_keep_distinct(
                after_scenes(state, scenes.drop_last(), hash, blank_prefix),
                scenes.last().stages@,
                hash,
                blank_prefix,
            );
        }
    }
}

/// In the groups of a project no event is recorded twice: however many
/// positions share a first event, it is expanded into lines once.
pub proof fn lemma_each_event_expanded_once(project: &Project, blank_prefix: bool)
    ensures
        project_groups(project, blank_prefix).control.no_duplicates(),
{
    reveal_strlit("__BLANK__");
    reveal_strlit("__DEFAULT__");
    assert("__BLANK__"@.len() != "__DEFAULT__"@.len());
    lemma_scenes_keep_distinct(
        initial_groups(),
        project.scenes@,
        project.prefix_hash@,
        blank_prefix,
    );
}

/// Whether `race` is outside the canine and the boar family, so that its
/// lines are listed under itself alone.
pub open spec fn stands_alone(race: Seq<char>) -> bool {
    &&& race != "Canine"@
    &&& race != "Dog"@
    &&& race != "Wolf"@
    &&& race != "Boar"@
    &&& race != "Boar (Mounted)"@
    &&& race != "Boar (Any)"@
}

/// Whether every position of the scenes without warnings has one event and
/// the race `race`.
pub open spec fn all_single_of(scenes: Seq<Scene>, race: Seq<char>) -> bool {
    forall|i: int, j: int, k: int|
        0 <= i < scenes.len() && !scenes[i].has_warnings && 0 <= j < scenes[i].stages@.len() && 0
            <= k < scenes[i].stages@[j].positions@.len() ==> (
        #[trigger] scenes[i].stages@[j].positions@[k]).event@.len() == 1
            && scenes[i].stages@[j].positions@[k].race@ == race
}

/// Whether the groups of `state` are what positions of one event each and of
/// the one race `race` leave: no group where no event was expanded, else the
/// one group of `race`, with one line for each event expanded.
pub open spec fn counts_agree(state: GroupsView, race: Seq<char>) -> bool {
    &&& state.control.len() >= 2
    &&& state.control.len() == 2 ==> state.groups.len() == 0
    &&& state.control.len() > 2 ==> state.groups.len() == 1 && state.groups[0].race == race
        && state.groups[0].lines.len() == state.control.len() - 2
}

/// A position of one event and of a race that stands alone keeps the count.
pub proof fn lemma_position_keeps_count(
    state: GroupsView,
    position: Position,
    hash: Seq<char>,
    fixed_len: bool,
    race: Seq<char>,
)
    requires
        counts_agree(state, race),
        stands_alone(race),
        position.event@.len() == 1,
        position.race@ == race,
    ensures
        counts_agree(after_position(state, position, hash, fixed_len, false), race),
{
    if !state.control.contains(position.event@[0]@) {
        let lines = position_lines(position, hash, fixed_len, false);
        assert(lines.len() == 1);
        assert(alias_group(race) =~= seq![race]);
        let races = seq![race];
        assert(races.drop_last() =~= Seq::<Seq<char>>::empty());
        assert(with_lines_for_all(state.groups, races.drop_last(), lines) == state.groups);
        assert(with_lines_for_all(state.groups, races, lines) == with_lines(
            state.groups,
            race,
            lines,
        ));
        if state.groups.len() == 1 {
            assert(is_group_of(state.groups, race, 0));
            let i = choose|i: int| is_group_of(state.groups, race, i);
            assert(i == 0);
        } else {
            assert(!exists|i: int| is_group_of(state.groups, race, i));
        }
    }
}

/// The positions of a stage keep the count.
pub proof fn lemma_positions_keep_count(
    state: GroupsView,
    positions: Seq<Position>,
    hash: Seq<char>,
    fixed_len: bool,
    race: Seq<char>,
)
    requires
        counts_agree(state, race),
        stands_alone(race),
        forall|k: int|
            0 <= k < positions.len() ==> (#[trigger] positions[k]).event@.len() == 1
                && positions[k].race@ == race,
    ensures
        counts_agree(after_positions(state, positions, hash, fixed_len, false), race),
    decreases positions.len(),
{
    if positions.len() > 0 {
        lemma_positions_keep_count(state, positions.drop_last(), hash, fixed_len, race);
        lemma_position_keeps_count(
            after_positions(state, positions.drop_last(), hash, fixed_len, false),
            positions.last(),
            hash,
            fixed_len,
            race,
        );
    }
}

/// The stages of a scene keep the count.
pub proof fn lemma_stages_keep_count(
    state: GroupsView,
    stages: Seq<Stage>,
    hash: Seq<char>,
    race: Seq<char>,
)
    requires
        counts_agree(state, race),
        stands_alone(race),
        forall|j: int, k: int|
            0 <= j < stages.len() && 0 <= k < stages[j].positions@.len() ==> (
            #[trigger] stages[j].positions@[k]).event@.len() == 1 && stages[j].positions@[k].race@
                == race,
    ensures
        counts_agree(after_stages(state, stages, hash, false), race),
    decreases stages.len(),
{
    if stages.len() > 0 {
        lemma_stages_keep_count(state, stages.drop_last(), hash, race);
        lemma_positions_keep_count(
            after_stages(state, stages.drop_last(), hash, false),
            stages.last().positions@,
            hash,
            stages.last().extra.fixed_len > 0,
            race,
        );
    }
}

/// The scenes of a project keep the count.
pub proof fn lemma_scenes_keep_count(
    state: GroupsView,
    scenes: Seq<Scene>,
    hash: Seq<char>,
    race: Seq<char>,
)
    requires
        counts_agree(state, race),
        stands_alone(race),
        all_single_of(scenes, race),
    ensures
        counts_agree(after_scenes(state, scenes, hash, false), race),
    decreases scenes.len(),
{
    if scenes.len() > 0 {
        let rest = scenes.drop_last();
        assert(all_single_of(rest, race)) by {
            assert forall|i: int, j: int, k: int|
                0 <= i < rest.len() && !rest[i].has_warnings && 0 <= j < rest[i].stages@.len() && 0
                    <= k < rest[i].stages@[j].positions@.len() implies (
            #[trigger] rest[i].stages@[j].positions@[k]).event@.len() == 1
                && rest[i].stages@[j].positions@[k].race@ == race by {
                assert(rest[i] == scenes[i]);
                assert(scenes[i].stages@[j].positions@[k].event@.len() == 1);
            }
        }
        lemma_scenes_keep_count(state, rest, hash, race);
        if !scenes.last().has_warnings {
            let last = scenes.last();
            assert forall|j: int, k: int|
                0 <= j < last.stages@.len() && 0 <= k < last.stages@[j].positions@.len() implies (
            #[trigger] last.stages@[j].positions@[k]).event@.len() == 1
                && last.stages@[j].positions@[k].race@ == race by {
                assert(scenes[scenes.len() - 1].stages@[j].positions@[k].event@.len() == 1);
            }
            lemma_stages_keep_count(after_scenes(state, rest, hash, false), last.stages@, hash, race);
        }
    }
}

/// Whether `e` is the first event of one of `positions`.
pub open spec fn is_first_event_in(positions: Seq<Position>, e: Seq<char>) -> bool {
    exists|k: int|
        0 <= k < positions.len() && (#[trigger] positions[k]).event@.len() > 0
            && positions[k].event@[0]@ == e
}

/// Whether `e` is the first event of a position of one of `stages`.
pub open spec fn is_first_event_of_stages(stages: Seq<Stage>, e: Seq<char>) -> bool {
    exists|j: int| 0 <= j < stages.len() && is_first_event_in((#[trigger] stages[j]).positions@, e)
}

/// Whether `e` is the first event of a position of a scene without warnings.
pub open spec fn is_first_event_of_scenes(scenes: Seq<Scene>, e: Seq<char>) -> bool {
    exists|i: int|
        0 <= i < scenes.len() && !(#[trigger] scenes[i]).has_warnings && is_first_event_of_stages(
            scenes[i].stages@,
            e,
        )
}

/// A list with one item more holds what it held, and that item.
pub proof fn lemma_push_contains(s: Seq<Seq<char>>, x: Seq<char>, e: Seq<char>)
    ensures
        s.push(x).contains(e) <==> s.contains(e) || e == x,
{
    if s.push(x).contains(e) {
        let i = choose|i: int| 0 <= i < s.push(x).len() && s.push(x)[i] == e;
        if i < s.len() {
            assert(s[i] == e);
        }
    }
    if s.contains(e) {
        let i = choose|i: int| 0 <= i < s.len() && s[i] == e;
        assert(s.push(x)[i] == e);
    }
    if e == x {
        assert(s.push(x)[s.len() as int] == e);
    }
}

/// After the positions of a stage the record holds what it held, and the
/// first event of each of the positions.
pub proof fn lemma_positions_are_recorded(
    state: GroupsView,
    positions: Seq<Position>,
    hash: Seq<char>,
    fixed_len: bool,
    blank_prefix: bool,
    e: Seq<char>,
)
    ensures
        after_positions(state, positions, hash, fixed_len, blank_prefix).control.contains(e) <==> (
        state.control.contains(e) || is_first_event_in(positions, e)),
    decreases positions.len(),
{
    if positions.len() > 0 {
        let rest = positions.drop_last();
        let last = positions.last();
        let mid = after_positions(state, rest, hash, fixed_len, blank_prefix);
        let after = after_position(mid, last, hash, fixed_len, blank_prefix);
        lemma_positions_are_recorded(state, rest, hash, fixed_len, blank_prefix, e);
        let is_last = last.event@.len() > 0 && last.event@[0]@ == e;
        assert(after.control.contains(e) <==> (mid.control.contains(e) || is_last)) by {
            if last.event@.len() > 0 && !mid.control.contains(last.event@[0]@) {
                lemma_push_contains(mid.control, last.event@[0]@, e);
            }
        }
        assert(is_first_event_in(positions, e) <==> (is_first_event_in(rest, e) || is_last)) by {
            if is_first_event_in(positions, e) {
                let k = choose|k: int|
                    0 <= k < positions.len() && (#[trigger] positions[k]).event@.len() > 0
                        && positions[k].event@[0]@ == e;
                if k < rest.len() {
                    assert(rest[k] == positions[k]);
                }
            }
            if is_first_event_in(rest, e) {
                let k = choose|k: int|
                    0 <= k < rest.len() && (#[trigger] rest[k]).event@.len() > 0
                        && rest[k].event@[0]@ == e;
                assert(positions[k] == rest[k]);
            }
            if is_last {
                assert(positions[positions.len() - 1] == last);
            }
        }
    }
}

/// After the stages of a scene the record holds what it held, and the first
/// event of each position of the stages.
pub proof fn lemma_stages_are_recorded(
    state: GroupsView,
    stages: Seq<Stage>,
    hash: Seq<char>,
    blank_prefix: bool,
    e: Seq<char>,
)
    ensures
        after_stages(state, stages, hash, blank_prefix).control.contains(e) <==> (
        state.control.contains(e) || is_first_event_of_stages(stages, e)),
    decreases stages.len(),
{
    if stages.len() > 0 {
        let rest = stages.drop_last();
        let last = stages.last();
        let mid = after_stages(state, rest, hash, blank_prefix);
        lemma_stages_are_recorded(state, rest, hash, blank_prefix, e);
        lemma_positions_are_recorded(
            mid,
            last.positions@,
            hash,
            last.extra.fixed_len > 0,
            blank_prefix,
            e,
        );
        let in_last = is_first_event_in(last.positions@, e);
        assert(is_first_event_of_stages(stages, e) <==> (is_first_event_of_stages(rest, e)
            || in_last)) by {
            if is_first_event_of_stages(stages, e) {
                let j = choose|j: int|
                    0 <= j < stages.len() && is_first_event_in((#[trigger] stages[j]).positions@, e);
                if j < rest.len() {
                    assert(rest[j] == stages[j]);
                }
            }
            if is_first_event_of_stages(rest, e) {
                let j = choose|j: int|
                    0 <= j < rest.len() && is_first_event_in((#[trigger] rest[j]).positions@, e);
                assert(stages[j] == rest[j]);
            }
            if in_last {
                assert(stages[stages.len() - 1] == last);
            }
        }
    }
}

/// After the scenes of a project the record holds what it held, and the
/// first event of each position of the scenes without warnings.
pub proof fn lemma_scenes_are_recorded(
    state: GroupsView,
    scenes: Seq<Scene>,
    hash: Seq<char>,
    blank_prefix: bool,
    e: Seq<char>,
)
    ensures
        after_scenes(state, scenes, hash, blank_prefix).control.contains(e) <==> (
        state.control.contains(e) || is_first_event_of_scenes(scenes, e)),
    decreases scenes.len(),
{
    if scenes.len() > 0 {
        let rest = scenes.drop_last();
        let last = scenes.last();
        let mid = after_scenes(state, rest, hash, blank_prefix);
        lemma_scenes_are_recorded(state, rest, hash, blank_prefix, e);
        if !last.has_warnings {
            lemma_stages_are_recorded(mid, last.stages@, hash, blank_prefix, e);
        }
        let in_last = !last.has_warnings && is_first_event_of_stages(last.stages@, e);
        assert(is_first_event_of_scenes(scenes, e) <==> (is_first_event_of_scenes(rest, e)
            || in_last)) by {
            if is_first_event_of_scenes(scenes, e) {
                let i = choose|i: int|
                    0 <= i < scenes.len() && !(#[trigger] scenes[i]).has_warnings
                        && is_first_event_of_stages(scenes[i].stages@, e);
                if i < rest.len() {
                    assert(rest[i] == scenes[i]);
                }
            }
            if is_first_event_of_scenes(rest, e) {
                let i = choose|i: int|
                    0 <= i < rest.len() && !(#[trigger] rest[i]).has_warnings
                        && is_first_event_of_stages(rest[i].stages@, e);
                assert(scenes[i] == rest[i]);
            }
            if in_last {
                assert(scenes[scenes.len() - 1] == last);
            }
        }
    }
}

/// The record of a project holds the two placeholders and the first events of
/// the positions of its scenes without warnings, and nothing else.
pub proof fn lemma_record_is_first_events(project: &Project, blank_prefix: bool, e: Seq<char>)
    ensures
        project_groups(project, blank_prefix).control.contains(e) <==> (e == "__BLANK__"@ || e
            == "__DEFAULT__"@ || is_first_event_of_scenes(project.scenes@, e)),
{
    lemma_scenes_are_recorded(
        initial_groups(),
        project.scenes@,
        project.prefix_hash@,
        blank_prefix,
        e,
    );
    let start = initial_groups().control;
    assert(start.contains(e) <==> (e == "__BLANK__"@ || e == "__DEFAULT__"@)) by {
        assert(start[0] == "__BLANK__"@);
        assert(start[1] == "__DEFAULT__"@);
        if start.contains(e) {
            let i = choose|i: int| 0 <= i < start.len() && start[i] == e;
            assert(i == 0 || i == 1);
        }
    }
}

/// Where every position of the scenes without warnings has one event and the
/// same race, outside the canine and the boar family, and the lines are made
/// under the namespace alone: the project has no group where no event was
/// expanded, else the one group of that race, and the number of its lines is
/// the number of events recorded after the two placeholders. The record
/// holds no event twice, and by `lemma_record_is_first_events` it holds the
/// placeholders and the first events of the positions and nothing else: so
/// that is the number of distinct first events that are no placeholder.
pub proof fn lemma_lines_count_distinct_events(project: &Project, race: Seq<char>)
    requires
        stands_alone(race),
        all_single_of(project.scenes@, race),
    ensures
        counts_agree(project_groups(project, false), race),
        project_groups(project, false).control.no_duplicates(),
{
    assert(initial_groups().control.len() == 2);
    lemma_scenes_keep_count(initial_groups(), project.scenes@, project.prefix_hash@, race);
    lemma_each_event_expanded_once(project, false);
}

/// Whether every position of the stage has an event.
pub fn stage_has_events(stage: &Stage) -> (r: bool)
    ensures
        r == forall|j: int|
            0 <= j < stage.positions@.len() ==> (#[trigger] stage.positions@[j]).event@.len() > 0,
{
    let mut j: usize = 0;
    while j < stage.positions.len()
        invariant
            j <= stage.positions@.len(),
            forall|k: int| 0 <= k < j ==> (#[trigger] stage.positions@[k]).event@.len() > 0,
        decreases stage.positions@.len() - j,
    {
        if stage.positions[j].event.len() == 0 {
            return false;
        }
        j += 1;
    }
    true
}

/// Whether every position of the scene has an event.
pub fn scene_has_events(scene: &Scene) -> (r: bool)
    ensures
        r == has_events(*scene),
{
    let mut i: usize = 0;
    while i < scene.stages.len()
        invariant
            i <= scene.stages@.len(),
            forall|k: int, j: int|
                0 <= k < i && 0 <= j < scene.stages@[k].positions@.len() ==> (
                #[trigger] scene.stages@[k].positions@[j]).event@.len() > 0,
        decreases scene.stages@.len() - i,
    {
        if !stage_has_events(&scene.stages[i]) {
            return false;
        }
        i += 1;
    }
    true
}

/// Whether every position of every scene without warnings has an event.
pub fn project_has_events(project: &Project) -> (r: bool)
    ensures
        r == positions_have_events(project),
{
    let mut i: usize = 0;
    while i < project.scenes.len()
        invariant
            i <= project.scenes@.len(),
            forall|k: int|
                0 <= k < i && !(#[trigger] project.scenes@[k]).has_warnings ==> has_events(
                    project.scenes@[k],
                ),
        decreases project.scenes@.len() - i,
    {
        if !project.scenes[i].has_warnings && !scene_has_events(&project.scenes[i]) {
            return false;
        }
        i += 1;
    }
    true
}

} // verus!
