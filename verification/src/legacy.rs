//! Import of the legacy format: a document of animations, each with actors
//! and their stage events, becomes a project of scenes with a linear graph.

use crate::model::{GraphEntry, Node, Offset, Position, PositionExtra, Scene, Sex, Stage, StageExtra};
use crate::project::{with_scene, Project};
use crate::race::{legacy_racekey, map_legacy_to_racekey};
use crate::text::{
    comma_fields, copy_texts, lowercase_text, same_text, split_fields, to_lower, trim_text,
    trimmed_text,
};
use crate::token::{is_token, new_token, NANOID_LENGTH};
use vstd::prelude::*;

verus! {

/// One stage event of an actor.
#[derive(Debug)]
pub struct LegacyStage {
    pub id: Option<String>,
}

/// One actor of a legacy animation.
#[derive(Debug)]
pub struct LegacyActor {
    /// The legacy code of the actor's gender, the field `type`.
    pub kind: Option<String>,
    pub race: Option<String>,
    pub stages: Option<Vec<LegacyStage>>,
}

/// A timer for one stage of a legacy animation.
#[derive(Debug)]
pub struct LegacyTimer {
    /// The index of the stage.
    pub number: Option<i64>,
    /// The timer in thousandths of a second.
    pub timer: i32,
}

/// One animation of a legacy document.
#[derive(Debug)]
pub struct LegacyAnimation {
    pub name: Option<String>,
    pub creature_race: Option<String>,
    pub actors: Option<Vec<LegacyActor>>,
    pub tags: Option<String>,
    pub stage: Option<Vec<LegacyTimer>>,
}

/// A legacy document: a pack of animations.
#[derive(Debug)]
pub struct LegacyDocument {
    pub name: Option<String>,
    pub animations: Option<Vec<LegacyAnimation>>,
}

/// A field that a legacy document must have, by the place where it is missing.
#[derive(Clone, Copy, Debug, PartialEq, Eq, Structural)]
pub enum LegacyField {
    /// `name` of the document.
    PackName,
    /// `animations` of the document.
    Animations,
    /// `name` of an animation.
    AnimationName,
    /// `actors` of an animation.
    Actors,
    /// `stages` of an actor.
    Stages,
    /// `id` of a stage event.
    EventId,
}

/// Why a legacy document cannot be imported.
#[derive(Debug)]
pub enum ImportError {
    MalformedLegacyDocument(LegacyField),
    /// An animation has no actor, or an actor has no stage.
    NoStages,
    /// An actor has another number of stages than the first actor.
    MismatchedStages,
    UnrecognizedLegacyGenderCode(String),
    UnrecognizedLegacyRace(String),
}

/// What an `ImportError` holds.
pub enum ImportFault {
    Missing(LegacyField),
    NoStages,
    MismatchedStages,
    Gender(Seq<char>),
    Race(Seq<char>),
}

impl View for ImportError {
    type V = ImportFault;

    open spec fn view(&self) -> ImportFault {
        match self {
            ImportError::MalformedLegacyDocument(f) => ImportFault::Missing(*f),
            ImportError::NoStages => ImportFault::NoStages,
            ImportError::MismatchedStages => ImportFault::MismatchedStages,
            ImportError::UnrecognizedLegacyGenderCode(c) => ImportFault::Gender(c@),
            ImportError::UnrecognizedLegacyRace(c) => ImportFault::Race(c@),
        }
    }
}

/// The sex flags of a male actor.
pub open spec fn male() -> Sex {
    Sex { male: true, female: false, futa: false }
}

/// The sex flags of a female actor.
pub open spec fn female() -> Sex {
    Sex { male: false, female: true, futa: false }
}

/// The sex and race of an actor with the lower-case gender code `code` and
/// the legacy race code `race_code`: `male` and `type` are a male human,
/// `female` a female human, and the two creature codes take the race that the
/// race code stands for.
pub open spec fn classified(code: Seq<char>, race_code: Seq<char>) -> Result<
    (Sex, Seq<char>),
    ImportFault,
> {
    if code == "male"@ || code == "type"@ {
        Ok((male(), "Human"@))
    } else if code == "female"@ {
        Ok((female(), "Human"@))
    } else if code == "creaturemale"@ || code == "creaturefemale"@ {
        match legacy_racekey(race_code) {
            Some(race) => Ok((if code == "creaturemale"@ { male() } else { female() }, race)),
            None => Err(ImportFault::Race(race_code)),
        }
    } else {
        Err(ImportFault::Gender(code))
    }
}

/// Classifies an actor by its lower-case gender code and its legacy race code.
pub fn classify_actor(code: &str, race_code: &str) -> (r: Result<(Sex, String), ImportError>)
    ensures
        match r {
            Ok((sex, race)) => classified(code@, race_code@) == Ok::<
                (Sex, Seq<char>),
                ImportFault,
            >((sex, race@)),
            Err(e) => classified(code@, race_code@) == Err::<(Sex, Seq<char>), ImportFault>(e@),
        },
{
    let m = Sex { male: true, female: false, futa: false };
    let f = Sex { male: false, female: true, futa: false };
    if same_text(code, "male") || same_text(code, "type") {
        Ok((m, String::from_str("Human")))
    } else if same_text(code, "female") {
        Ok((f, String::from_str("Human")))
    } else if same_text(code, "creaturemale") || same_text(code, "creaturefemale") {
        match map_legacy_to_racekey(race_code) {
            Ok(race) => Ok((if same_text(code, "creaturemale") { m } else { f }, race)),
            Err(_) => Err(ImportError::UnrecognizedLegacyRace(String::from_str(race_code))),
        }
    } else {
        Err(ImportError::UnrecognizedLegacyGenderCode(String::from_str(code)))
    }
}

/// The tags of an animation: the fields of its lower-case tag text, each
/// without white space at its ends; none where it has no tag text.
pub open spec fn tags_of(tags: Option<String>) -> Seq<Seq<char>> {
    match tags {
        Some(t) => comma_fields(lowercase_text(t@)).map_values(|f: Seq<char>| trimmed_text(f)),
        None => Seq::empty(),
    }
}

/// Reads the tags of an animation.
pub fn legacy_tags(tags: &Option<String>) -> (r: Vec<String>)
    ensures
        r.deep_view() == tags_of(*tags),
{
    let mut r: Vec<String> = Vec::new();
    match tags {
        Some(t) => {
            let lower = to_lower(t.as_str());
            let fields = split_fields(lower.as_str());
            let mut i: usize = 0;
            while i < fields.len()
                invariant
                    i <= fields@.len(),
                    r@.len() == i,
                    fields.deep_view() == comma_fields(lowercase_text(t@)),
                    forall|j: int|
                        0 <= j < i ==> (#[trigger] r@[j])@ == trimmed_text(fields.deep_view()[j]),
                decreases fields@.len() - i,
            {
                proof {
                    assert(fields.deep_view()[i as int] == fields@[i as int]@);
                }
                r.push(trim_text(fields[i].as_str()));
                i += 1;
            }
            proof {
                assert(r.deep_view() =~= tags_of(*tags));
            }
        },
        None => {
            proof {
                assert(r.deep_view() =~= tags_of(*tags));
            }
        },
    }
    r
}

/// The timer of stage `i`: that of the last entry that names the stage, or
/// zero where none does.
pub open spec fn timer_of(timers: Seq<LegacyTimer>, i: int) -> int
    decreases timers.len(),
{
    if timers.len() == 0 {
        0
    } else if timers.last().number is Some && timers.last().number->Some_0 == i {
        timers.last().timer as int
    } else {
        timer_of(timers.drop_last(), i)
    }
}

/// The timer of stage `i` of an animation; zero where it has no timers.
pub open spec fn stage_timer(timers: Option<Vec<LegacyTimer>>, i: int) -> int {
    match timers {
        Some(t) => timer_of(t@, i),
        None => 0,
    }
}

/// Looks the timer of stage `i` up.
pub fn legacy_timer(timers: &Option<Vec<LegacyTimer>>, i: usize) -> (r: i32)
    ensures
        r == stage_timer(*timers, i as int),
{
    let mut r: i32 = 0;
    match timers {
        Some(t) => {
            let mut k: usize = 0;
            proof {
                assert(t@.take(0) =~= Seq::<LegacyTimer>::empty());
            }
            while k < t.len()
                invariant
                    k <= t@.len(),
                    r == timer_of(t@.take(k as int), i as int),
                decreases t@.len() - k,
            {
                proof {
                    assert(t@.take(k + 1).drop_last() =~= t@.take(k as int));
                }
                match t[k].number {
                    Some(n) => {
                        if n >= 0 && n as u64 == i as u64 {
                            r = t[k].timer;
                        }
                    },
                    None => {},
                }
                k += 1;
            }
            proof {
                assert(t@.take(k as int) =~= t@);
            }
        },
        None => {},
    }
    r
}

/// The lower-case gender code of an actor; an actor without one counts as male.
pub open spec fn actor_code(actor: LegacyActor) -> Seq<char> {
    match actor.kind {
        Some(k) => lowercase_text(k@),
        None => "male"@,
    }
}

/// The legacy race code of an actor: its own, or else that of its animation.
pub open spec fn actor_race_code(actor: LegacyActor, creature_race: Seq<char>) -> Seq<char> {
    match actor.race {
        Some(r) => r@,
        None => creature_race,
    }
}

/// The legacy race code of an animation; empty where it has none.
pub open spec fn creature_race(animation: LegacyAnimation) -> Seq<char> {
    match animation.creature_race {
        Some(r) => r@,
        None => Seq::empty(),
    }
}

/// Whether a stage event of `stages` has no identifier.
pub open spec fn lacks_event_id(stages: Seq<LegacyStage>) -> bool {
    exists|i: int| 0 <= i < stages.len() && (#[trigger] stages[i]).id is None
}

/// What is wrong with an actor of an animation of `count` stages, if anything.
pub open spec fn actor_fault(actor: LegacyActor, creature_race: Seq<char>, count: int) -> Option<
    ImportFault,
> {
    match actor.stages {
        None => Some(ImportFault::Missing(LegacyField::Stages)),
        Some(stages) => if stages@.len() == 0 {
            Some(ImportFault::NoStages)
        } else if stages@.len() != count {
            Some(ImportFault::MismatchedStages)
        } else if stages@[0].id is None {
            Some(ImportFault::Missing(LegacyField::EventId))
        } else {
            match classified(actor_code(actor), actor_race_code(actor, creature_race)) {
                Err(fault) => Some(fault),
                Ok(_) => if lacks_event_id(stages@) {
                    Some(ImportFault::Missing(LegacyField::EventId))
                } else {
                    None
                },
            }
        },
    }
}

/// What the positions of one actor are made from.
#[derive(Debug)]
pub struct ActorPlan {
    pub sex: Sex,
    pub race: String,
    /// The actor's event of each stage.
    pub events: Vec<String>,
}

/// Whether `plan` holds the sex, the race and the events of `actor`.
pub open spec fn is_plan_of(plan: ActorPlan, actor: LegacyActor, creature_race: Seq<char>) -> bool {
    &&& classified(actor_code(actor), actor_race_code(actor, creature_race)) == Ok::<
        (Sex, Seq<char>),
        ImportFault,
    >((plan.sex, plan.race@))
    &&& actor.stages is Some
    &&& plan.events@.len() == actor.stages->Some_0@.len()
    &&& forall|i: int|
        0 <= i < plan.events@.len() ==> (#[trigger] actor.stages->Some_0@[i]).id is Some
            && actor.stages->Some_0@[i].id->Some_0@ == plan.events@[i]@
}

/// Reads one actor of an animation of `count` stages.
pub fn plan_actor(actor: &LegacyActor, creature_race: &str, count: usize) -> (r: Result<
    ActorPlan,
    ImportError,
>)
    ensures
        match r {
            Ok(plan) => actor_fault(*actor, creature_race@, count as int) is None && is_plan_of(
                plan,
                *actor,
                creature_race@,
            ),
            Err(e) => actor_fault(*actor, creature_race@, count as int) == Some(e@),
        },
{
    let stages = match &actor.stages {
        Some(stages) => stages,
        None => {
            return Err(ImportError::MalformedLegacyDocument(LegacyField::Stages));
        },
    };
    if stages.len() == 0 {
        return Err(ImportError::NoStages);
    }
    if stages.len() != count {
        return Err(ImportError::MismatchedStages);
    }
    if stages[0].id.is_none() {
        return Err(ImportError::MalformedLegacyDocument(LegacyField::EventId));
    }
    let code = match &actor.kind {
        Some(k) => to_lower(k.as_str()),
        None => String::from_str("male"),
    };
    let classes = match &actor.race {
        Some(r) => classify_actor(code.as_str(), r.as_str()),
        None => classify_actor(code.as_str(), creature_race),
    };
    let (sex, race) = match classes {
        Ok(pair) => pair,
        Err(e) => {
            return Err(e);
        },
    };
    let mut events: Vec<String> = Vec::new();
    let mut i: usize = 0;
    while i < stages.len()
        invariant
            i <= stages@.len(),
            events@.len() == i,
            actor.stages == Some(*stages),
            stages@.len() == count,
            stages@[0].id is Some,
            classified(actor_code(*actor), actor_race_code(*actor, creature_race@)) == Ok::<
                (Sex, Seq<char>),
                ImportFault,
            >((sex, race@)),
            forall|j: int|
                0 <= j < i ==> (#[trigger] stages@[j]).id is Some && stages@[j].id->Some_0@
                    == events@[j]@,
        decreases stages@.len() - i,
    {
        match &stages[i].id {
            Some(id) => {
                events.push(id.clone());
            },
            None => {
                proof {
                    assert(stages@[i as int].id is None);
                    assert(lacks_event_id(stages@));
                }
                return Err(ImportError::MalformedLegacyDocument(LegacyField::EventId));
            },
        }
        i += 1;
    }
    Ok(ActorPlan { sex, race, events })
}

/// The number of stages of an animation: that of its first actor.
pub open spec fn stage_count(animation: LegacyAnimation) -> int {
    match animation.actors {
        Some(actors) => if actors@.len() > 0 {
            match actors@[0].stages {
                Some(stages) => stages@.len() as int,
                None => 0,
            }
        } else {
            0
        },
        None => 0,
    }
}

/// Counts the stages of an animation.
pub fn count_stages(animation: &LegacyAnimation) -> (n: usize)
    ensures
        n == stage_count(*animation),
{
    match &animation.actors {
        Some(actors) => if actors.len() > 0 {
            match &actors[0].stages {
                Some(stages) => stages.len(),
                None => 0,
            }
        } else {
            0
        },
        None => 0,
    }
}

/// The fault of the first actor, from `from` on, that has one.
pub open spec fn actors_fault(
    actors: Seq<LegacyActor>,
    creature_race: Seq<char>,
    count: int,
    from: int,
) -> Option<ImportFault>
    decreases actors.len() - from,
{
    if from < 0 || from >= actors.len() {
        None
    } else {
        match actor_fault(actors[from], creature_race, count) {
            Some(fault) => Some(fault),
            None => actors_fault(actors, creature_race, count, from + 1),
        }
    }
}

/// What is wrong with an animation, if anything: a missing name, missing
/// actors, no actor at all, or the first fault among its actors.
pub open spec fn animation_fault(animation: LegacyAnimation) -> Option<ImportFault> {
    if animation.name is None {
        Some(ImportFault::Missing(LegacyField::AnimationName))
    } else {
        match animation.actors {
            None => Some(ImportFault::Missing(LegacyField::Actors)),
            Some(actors) => if actors@.len() == 0 {
                Some(ImportFault::NoStages)
            } else {
                actors_fault(actors@, creature_race(animation), stage_count(animation), 0)
            },
        }
    }
}

/// Whether `position` is what actor `actor` does in stage `i`.
pub open spec fn position_matches(
    actor: LegacyActor,
    creature_race: Seq<char>,
    position: Position,
    i: int,
    last: bool,
) -> bool {
    &&& actor.stages is Some
    &&& 0 <= i < actor.stages->Some_0@.len()
    &&& actor.stages->Some_0@[i].id is Some
    &&& position.event.deep_view() == seq![actor.stages->Some_0@[i].id->Some_0@]
    &&& classified(actor_code(actor), actor_race_code(actor, creature_race)) == Ok::<
        (Sex, Seq<char>),
        ImportFault,
    >((position.sex, position.race@))
    &&& position.anim_obj@.len() == 0
    &&& position.offset == (Offset { x: 0, y: 0, z: 0, r: 0 })
    &&& position.extra.climax == last
}

/// Whether `stage` is stage `i` of the animation: one position for each actor,
/// the animation's tags, its timer, and the climax on the last stage alone.
pub open spec fn stage_matches(animation: LegacyAnimation, stage: Stage, i: int) -> bool {
    &&& animation.actors is Some
    &&& stage.tags.deep_view() == tags_of(animation.tags)
    &&& stage.extra.fixed_len == stage_timer(animation.stage, i)
    &&& stage.positions@.len() == animation.actors->Some_0@.len()
    &&& forall|n: int|
        0 <= n < stage.positions@.len() ==> position_matches(
            animation.actors->Some_0@[n],
            creature_race(animation),
            #[trigger] stage.positions@[n],
            i,
            i == stage_count(animation) - 1,
        )
}

/// What a graph holds: the stage of each entry with its edges.
pub open spec fn graph_view(graph: Seq<GraphEntry>) -> Seq<(Seq<char>, Seq<Seq<char>>)> {
    Seq::new(graph.len(), |k: int| (graph[k].id@, graph[k].node.dest.deep_view()))
}

/// Whether one of `entries` is that of the stage `id`.
pub open spec fn names_stage(entries: Seq<(Seq<char>, Seq<Seq<char>>)>, id: Seq<char>) -> bool {
    exists|k: int| 0 <= k < entries.len() && (#[trigger] entries[k]).0 == id
}

/// The edges of stage `i` in a chain: the one to the stage that follows it,
/// none for the last stage.
pub open spec fn next_of(ids: Seq<Seq<char>>, i: int) -> Seq<Seq<char>> {
    if i + 1 < ids.len() {
        seq![ids[i + 1]]
    } else {
        Seq::empty()
    }
}

/// The chain of the first `upto` stages: the entry of each stage in order,
/// but for a stage whose identifier an earlier stage has, which gets none.
pub open spec fn chain_of(ids: Seq<Seq<char>>, upto: int) -> Seq<(Seq<char>, Seq<Seq<char>>)>
    decreases upto,
{
    if upto <= 0 {
        Seq::empty()
    } else {
        let before = chain_of(ids, upto - 1);
        if names_stage(before, ids[upto - 1]) {
            before
        } else {
            before.push((ids[upto - 1], next_of(ids, upto - 1)))
        }
    }
}

/// Whether `graph` is the chain of the stages with the identifiers `ids`.
pub open spec fn is_chain_of(graph: Seq<GraphEntry>, ids: Seq<Seq<char>>) -> bool {
    graph_view(graph) == chain_of(ids, ids.len() as int)
}

/// A chain holds one entry for a stage at most, and with distinct
/// identifiers it holds the entry of every stage, in order.
pub proof fn lemma_chain_entries(ids: Seq<Seq<char>>, upto: int)
    requires
        0 <= upto <= ids.len(),
    ensures
        chain_of(ids, upto).len() <= upto,
        forall|a: int, b: int|
            0 <= a < b < chain_of(ids, upto).len() ==> (#[trigger] chain_of(ids, upto)[a]).0 != (
            #[trigger] chain_of(ids, upto)[b]).0,
        (forall|i: int, j: int| 0 <= i < j < ids.len() ==> #[trigger] ids[i] != #[trigger] ids[j])
            ==> chain_of(ids, upto) == Seq::new(upto as nat, |i: int| (ids[i], next_of(ids, i))),
    decreases upto,
{
    if upto > 0 {
        lemma_chain_entries(ids, upto - 1);
        let before = chain_of(ids, upto - 1);
        let now = chain_of(ids, upto);
        if !names_stage(before, ids[upto - 1]) {
            assert forall|a: int, b: int| 0 <= a < b < now.len() implies (#[trigger] now[a]).0 != (
            #[trigger] now[b]).0 by {
                if b == before.len() {
                    assert(before[a].0 != ids[upto - 1]);
                } else {
                    assert(before[a].0 != before[b].0);
                }
            }
        }
        if forall|i: int, j: int| 0 <= i < j < ids.len() ==> #[trigger] ids[i] != #[trigger] ids[j] {
            let full = Seq::new((upto - 1) as nat, |i: int| (ids[i], next_of(ids, i)));
            assert(before == full);
            assert(!names_stage(before, ids[upto - 1])) by {
                if names_stage(before, ids[upto - 1]) {
                    let k = choose|k: int|
                        0 <= k < before.len() && (#[trigger] before[k]).0 == ids[upto - 1];
                    assert(before[k].0 == ids[k]);
                    assert(ids[k] != ids[upto - 1]);
                }
            }
            assert(now =~= Seq::new(upto as nat, |i: int| (ids[i], next_of(ids, i))));
        }
    } else {
        assert(chain_of(ids, upto) =~= Seq::new(upto as nat, |i: int| (ids[i], next_of(ids, i))));
    }
}

/// The identifiers of `stages`, in order.
pub open spec fn stage_ids_of(stages: Seq<Stage>) -> Seq<Seq<char>> {
    Seq::new(stages.len(), |i: int| stages[i].id@)
}

/// Whether `graph` is the chain of `stages`.
pub open spec fn is_chain(graph: Seq<GraphEntry>, stages: Seq<Stage>) -> bool {
    is_chain_of(graph, stage_ids_of(stages))
}

/// Whether `scene` is the scene of the animation.
pub open spec fn reconstructs(animation: LegacyAnimation, scene: Scene) -> bool {
    &&& animation.name is Some
    &&& scene.name@ == animation.name->Some_0@
    &&& !scene.has_warnings
    &&& scene.stages@.len() == stage_count(animation)
    &&& scene.stages@.len() > 0
    &&& forall|i: int|
        0 <= i < scene.stages@.len() ==> stage_matches(animation, #[trigger] scene.stages@[i], i)
    &&& scene.root@ == scene.stages@[0].id@
    &&& is_chain(scene.graph@, scene.stages@)
    &&& scene.wf()
}

/// Whether `position` is what `plan` gives for stage `i`.
pub open spec fn is_position_of(plan: ActorPlan, position: Position, i: int, last: bool) -> bool {
    &&& 0 <= i < plan.events@.len()
    &&& position.event.deep_view() == seq![plan.events@[i]@]
    &&& position.sex == plan.sex
    &&& position.race@ == plan.race@
    &&& position.anim_obj@.len() == 0
    &&& position.offset == (Offset { x: 0, y: 0, z: 0, r: 0 })
    &&& position.extra.climax == last
}

/// The positions of stage `i`: one for each plan, with the climax where the
/// stage is the last.
pub fn stage_positions(plans: &Vec<ActorPlan>, i: usize, last: bool) -> (r: Vec<Position>)
    requires
        forall|n: int| 0 <= n < plans@.len() ==> i < (#[trigger] plans@[n]).events@.len(),
    ensures
        r@.len() == plans@.len(),
        forall|n: int|
            0 <= n < r@.len() ==> is_position_of(plans@[n], #[trigger] r@[n], i as int, last),
{
    let mut r: Vec<Position> = Vec::new();
    let mut n: usize = 0;
    while n < plans.len()
        invariant
            n <= plans@.len(),
            r@.len() == n,
            forall|m: int| 0 <= m < plans@.len() ==> i < (#[trigger] plans@[m]).events@.len(),
            forall|m: int|
                0 <= m < n ==> is_position_of(plans@[m], #[trigger] r@[m], i as int, last),
        decreases plans@.len() - n,
    {
        let plan = &plans[n];
        let mut event: Vec<String> = Vec::new();
        event.push(plan.events[i].clone());
        let position = Position {
            event,
            sex: plan.sex,
            race: plan.race.clone(),
            anim_obj: String::new(),
            offset: Offset { x: 0, y: 0, z: 0, r: 0 },
            extra: PositionExtra { climax: last },
        };
        proof {
            assert(position.event.deep_view() =~= seq![plan.events@[i as int]@]);
        }
        r.push(position);
        n += 1;
    }
    r
}

/// Whether the graph has an entry for the stage `id`.
pub fn graph_names(graph: &Vec<GraphEntry>, id: &str) -> (r: bool)
    ensures
        r == names_stage(graph_view(graph@), id@),
{
    let mut k: usize = 0;
    while k < graph.len()
        invariant
            k <= graph@.len(),
            forall|m: int| 0 <= m < k ==> (#[trigger] graph_view(graph@)[m]).0 != id@,
        decreases graph@.len() - k,
    {
        if same_text(graph[k].id.as_str(), id) {
            proof {
                assert(graph_view(graph@)[k as int].0 == id@);
            }
            return true;
        }
        k += 1;
    }
    false
}

/// The chain of the stages with the identifiers `ids`, first stage first. A
/// stage whose identifier an earlier stage has gets no entry of its own.
pub fn chain_graph(ids: &Vec<String>) -> (graph: Vec<GraphEntry>)
    ensures
        is_chain_of(graph@, ids.deep_view()),
{
    let count = ids.len();
    let mut graph: Vec<GraphEntry> = Vec::new();
    let mut i: usize = 0;
    proof {
        assert(graph_view(graph@) =~= chain_of(ids.deep_view(), 0));
    }
    while i < count
        invariant
            count == ids@.len(),
            i <= count,
            graph_view(graph@) == chain_of(ids.deep_view(), i as int),
        decreases count - i,
    {
        proof {
            assert(ids.deep_view()[i as int] == ids@[i as int]@);
        }
        if !graph_names(&graph, ids[i].as_str()) {
            let mut dest: Vec<String> = Vec::new();
            if i + 1 < count {
                dest.push(ids[i + 1].clone());
            }
            let ghost before = graph_view(graph@);
            let entry = GraphEntry { id: ids[i].clone(), node: Node { dest } };
            proof {
                if i + 1 < count {
                    assert(ids.deep_view()[i + 1] == ids@[i + 1]@);
                }
                assert(entry.node.dest.deep_view() =~= next_of(ids.deep_view(), i as int));
            }
            graph.push(entry);
            proof {
                assert(graph_view(graph@) =~= before.push(
                    (ids.deep_view()[i as int], next_of(ids.deep_view(), i as int)),
                ));
            }
        }
        i += 1;
    }
    graph
}

/// Builds the scene of one animation, with the identifier `scene_id` and the
/// stage identifiers `stage_ids`. The first fault of the animation is an
/// error, and no scene is built.
pub fn reconstruct_scene(animation: &LegacyAnimation, scene_id: String, stage_ids: Vec<String>) -> (r:
    Result<Scene, ImportError>)
    requires
        stage_ids@.len() == stage_count(*animation),
    ensures
        match r {
            Ok(scene) => {
                &&& animation_fault(*animation) is None
                &&& reconstructs(*animation, scene)
                &&& scene.id == scene_id
                &&& forall|i: int|
                    0 <= i < scene.stages@.len() ==> (#[trigger] scene.stages@[i]).id@
                        == stage_ids@[i]@
            },
            Err(e) => animation_fault(*animation) == Some(e@),
        },
{
    let name = match &animation.name {
        Some(n) => n.clone(),
        None => {
            return Err(ImportError::MalformedLegacyDocument(LegacyField::AnimationName));
        },
    };
    let actors = match &animation.actors {
        Some(a) => a,
        None => {
            return Err(ImportError::MalformedLegacyDocument(LegacyField::Actors));
        },
    };
    if actors.len() == 0 {
        return Err(ImportError::NoStages);
    }
    let none = String::new();
    let race: &str = match &animation.creature_race {
        Some(r) => r.as_str(),
        None => none.as_str(),
    };
    let count = stage_ids.len();
    let mut plans: Vec<ActorPlan> = Vec::new();
    let mut n: usize = 0;
    while n < actors.len()
        invariant
            n <= actors@.len(),
            plans@.len() == n,
            animation.name is Some,
            animation.actors == Some(*actors),
            actors@.len() > 0,
            race@ == creature_race(*animation),
            count == stage_count(*animation),
            actors_fault(actors@, race@, count as int, 0) == actors_fault(
                actors@,
                race@,
                count as int,
                n as int,
            ),
            forall|m: int|
                0 <= m < n ==> is_plan_of(#[trigger] plans@[m], actors@[m], race@)
                    && plans@[m].events@.len() == count,
        decreases actors@.len() - n,
    {
        match plan_actor(&actors[n], race, count) {
            Ok(plan) => {
                plans.push(plan);
            },
            Err(e) => {
                return Err(e);
            },
        }
        n += 1;
    }
    proof {
        assert(is_plan_of(plans@[0], actors@[0], race@));
        assert(count > 0);
    }
    let tags = legacy_tags(&animation.tags);
    let mut stages: Vec<Stage> = Vec::new();
    let mut i: usize = 0;
    while i < count
        invariant
            i <= count,
            stages@.len() == i,
            count == stage_ids@.len(),
            count == stage_count(*animation),
            animation.actors == Some(*actors),
            race@ == creature_race(*animation),
            plans@.len() == actors@.len(),
            tags.deep_view() == tags_of(animation.tags),
            forall|m: int|
                0 <= m < plans@.len() ==> is_plan_of(#[trigger] plans@[m], actors@[m], race@)
                    && plans@[m].events@.len() == count,
            forall|j: int|
                0 <= j < i ==> stage_matches(*animation, #[trigger] stages@[j], j) && stages@[j].id@
                    == stage_ids@[j]@,
        decreases count - i,
    {
        let positions = stage_positions(&plans, i, i == count - 1);
        let stage = Stage {
            id: stage_ids[i].clone(),
            positions,
            tags: copy_texts(&tags),
            extra: StageExtra { fixed_len: legacy_timer(&animation.stage, i) },
        };
        proof {
            assert forall|n: int| 0 <= n < stage.positions@.len() implies position_matches(
                actors@[n],
                race@,
                #[trigger] stage.positions@[n],
                i as int,
                i == count - 1,
            ) by {
                assert(is_plan_of(plans@[n], actors@[n], race@));
                assert(is_position_of(plans@[n], stage.positions@[n], i as int, i == count - 1));
                let legacy = actors@[n].stages->Some_0@;
                assert(legacy[i as int].id is Some);
            }
            assert(stage_matches(*animation, stage, i as int));
        }
        stages.push(stage);
        i += 1;
    }
    let graph = chain_graph(&stage_ids);
    let root = stage_ids[0].clone();
    proof {
        assert(stage_ids_of(stages@) =~= stage_ids.deep_view());
        lemma_chain_entries(stage_ids.deep_view(), count as int);
        assert forall|a: int, b: int| 0 <= a < b < graph@.len() implies (#[trigger] graph@[a]).id@
            != (#[trigger] graph@[b]).id@ by {
            assert(graph_view(graph@)[a].0 == graph@[a].id@);
            assert(graph_view(graph@)[b].0 == graph@[b].id@);
        }
    }
    Ok(Scene { id: scene_id, name, has_warnings: false, stages, graph, root })
}

/// The fault of the first animation, from `from` on, that has one.
pub open spec fn animations_fault(animations: Seq<LegacyAnimation>, from: int) -> Option<
    ImportFault,
>
    decreases animations.len() - from,
{
    if from < 0 || from >= animations.len() {
        None
    } else {
        match animation_fault(animations[from]) {
            Some(fault) => Some(fault),
            None => animations_fault(animations, from + 1),
        }
    }
}

/// What is wrong with a document, if anything: a missing name, missing
/// animations, or the fault of the first animation that has one.
pub open spec fn document_fault(document: LegacyDocument) -> Option<ImportFault> {
    if document.name is None {
        Some(ImportFault::Missing(LegacyField::PackName))
    } else {
        match document.animations {
            None => Some(ImportFault::Missing(LegacyField::Animations)),
            Some(animations) => animations_fault(animations@, 0),
        }
    }
}

/// Whether the identifiers of the scene and of its stages are tokens of the
/// length of an identifier.
pub open spec fn has_token_ids(scene: Scene) -> bool {
    &&& is_token(scene.id@, NANOID_LENGTH as int)
    &&& forall|i: int|
        0 <= i < scene.stages@.len() ==> is_token(
            (#[trigger] scene.stages@[i]).id@,
            NANOID_LENGTH as int,
        )
}

/// Whether `made` holds the scene of each animation, in order, each under
/// identifiers that are tokens.
pub open spec fn are_scenes_of(animations: Seq<LegacyAnimation>, made: Seq<Scene>) -> bool {
    &&& made.len() == animations.len()
    &&& forall|k: int|
        0 <= k < made.len() ==> reconstructs(animations[k], #[trigger] made[k]) && has_token_ids(
            made[k],
        )
}

/// The scenes of a project after each of `made` was saved in turn.
pub open spec fn saved_all(made: Seq<Scene>) -> Seq<Scene>
    decreases made.len(),
{
    if made.len() == 0 {
        Seq::empty()
    } else {
        with_scene(saved_all(made.drop_last()), made.last())
    }
}

/// Whether `scenes` are what is left of the scenes of the animations after
/// they were saved one after the other, each under its identifier.
pub open spec fn are_imported(animations: Seq<LegacyAnimation>, scenes: Seq<Scene>) -> bool {
    exists|made: Seq<Scene>| #[trigger] are_scenes_of(animations, made) && scenes == saved_all(made)
}

/// `count` fresh identifiers, each a token of the length of an identifier.
pub fn fresh_ids(count: usize) -> (ids: Vec<String>)
    ensures
        ids@.len() == count,
        forall|i: int| 0 <= i < ids@.len() ==> is_token((#[trigger] ids@[i])@, NANOID_LENGTH as int),
{
    let mut ids: Vec<String> = Vec::new();
    let mut i: usize = 0;
    while i < count
        invariant
            i <= count,
            ids@.len() == i,
            forall|j: int| 0 <= j < i ==> is_token((#[trigger] ids@[j])@, NANOID_LENGTH as int),
        decreases count - i,
    {
        ids.push(new_token(NANOID_LENGTH));
        i += 1;
    }
    ids
}

impl Project {
    /// Imports a legacy document as a new project under a fresh namespace token.
    /// A document with a fault gives that fault as the error. Otherwise the
    /// project has the document's name and, under fresh identifiers, the scene of
    /// each animation; where two identifiers happen to be the same, the later
    /// scene stands in place of the earlier.
    pub fn from_slal(document: &LegacyDocument) -> (r: Result<Project, ImportError>)
        ensures
            match r {
                Ok(project) => {
                    &&& document_fault(*document) is None
                    &&& project.wf()
                    &&& project.pack_name@ == document.name->Some_0@
                    &&& project.pack_author@ == "Unknown"@
                    &&& are_imported(document.animations->Some_0@, project.scenes@)
                },
                Err(e) => document_fault(*document) == Some(e@),
            },
    {
        let mut project = Project::new();
        project.pack_name = match &document.name {
            Some(n) => n.clone(),
            None => {
                return Err(ImportError::MalformedLegacyDocument(LegacyField::PackName));
            },
        };
        let animations = match &document.animations {
            Some(a) => a,
            None => {
                return Err(ImportError::MalformedLegacyDocument(LegacyField::Animations));
            },
        };
        let mut i: usize = 0;
        let ghost mut made: Seq<Scene> = Seq::empty();
        while i < animations.len()
            invariant
                i <= animations@.len(),
                document.name is Some,
                document.animations == Some(*animations),
                project.wf(),
                project.pack_name@ == document.name->Some_0@,
                project.pack_author@ == "Unknown"@,
                animations_fault(animations@, 0) == animations_fault(animations@, i as int),
                made.len() == i,
                forall|k: int|
                0 <= k < i ==> reconstructs(animations@[k], #[trigger] made[k]) && has_token_ids(
                    made[k],
                ),
                project.scenes@ == saved_all(made),
            decreases animations@.len() - i,
        {
            let stage_ids = fresh_ids(count_stages(&animations[i]));
            let scene = match reconstruct_scene(
                &animations[i],
                new_token(NANOID_LENGTH),
                stage_ids,
            ) {
                Ok(scene) => scene,
                Err(e) => {
                    return Err(e);
                },
            };
            let ghost earlier = made;
            let ghost saved = scene;
            project.save_scene(scene);
            proof {
                assert(has_token_ids(saved));
            made = earlier.push(saved);
                assert(made.drop_last() =~= earlier);
                assert(made.last() == saved);
            }
            i += 1;
        }
        proof {
            assert(are_scenes_of(animations@, made));
        }
        Ok(project)
    }
}

/// The edges of each stage of a graph. In a valid graph a stage has one
/// entry; in any other the last entry of a stage counts.
pub open spec fn graph_map(graph: Seq<GraphEntry>) -> Map<Seq<char>, Seq<Seq<char>>>
    decreases graph.len(),
{
    if graph.len() == 0 {
        Map::empty()
    } else {
        graph_map(graph.drop_last()).insert(graph.last().id@, graph.last().node.dest.deep_view())
    }
}

/// A graph holds a stage exactly where an entry names it, and with entries of
/// distinct stages each stage has the edges of its entry.
pub proof fn lemma_graph_entries(graph: Seq<GraphEntry>)
    ensures
        forall|id: Seq<char>| #[trigger]
            graph_map(graph).contains_key(id) <==> exists|k: int|
                0 <= k < graph.len() && (#[trigger] graph[k]).id@ == id,
        (forall|i: int, j: int|
            0 <= i < j < graph.len() ==> (#[trigger] graph[i]).id@ != (#[trigger] graph[j]).id@)
            ==> forall|k: int|
            0 <= k < graph.len() ==> graph_map(graph)[(#[trigger] graph[k]).id@]
                == graph[k].node.dest.deep_view(),
    decreases graph.len(),
{
    if graph.len() > 0 {
        let rest = graph.drop_last();
        lemma_graph_entries(rest);
        assert forall|id: Seq<char>| #[trigger]
            graph_map(graph).contains_key(id) <==> exists|k: int|
                0 <= k < graph.len() && (#[trigger] graph[k]).id@ == id by {
            if graph_map(graph).contains_key(id) {
                if id == graph.last().id@ {
                    assert(graph[graph.len() - 1].id@ == id);
                } else {
                    assert(graph_map(rest).contains_key(id));
                    let k = choose|k: int| 0 <= k < rest.len() && (#[trigger] rest[k]).id@ == id;
                    assert(graph[k].id@ == id);
                }
            }
            if exists|k: int| 0 <= k < graph.len() && (#[trigger] graph[k]).id@ == id {
                let k = choose|k: int| 0 <= k < graph.len() && (#[trigger] graph[k]).id@ == id;
                if k < rest.len() {
                    assert(rest[k].id@ == id);
                    assert(graph_map(rest).contains_key(id));
                }
            }
        }
        if forall|i: int, j: int|
            0 <= i < j < graph.len() ==> (#[trigger] graph[i]).id@ != (#[trigger] graph[j]).id@ {
            assert forall|i: int, j: int| 0 <= i < j < rest.len() implies (#[trigger] rest[i]).id@ != (
            #[trigger] rest[j]).id@ by {
                assert(graph[i].id@ != graph[j].id@);
            }
            assert forall|k: int| 0 <= k < graph.len() implies graph_map(graph)[(
            #[trigger] graph[k]).id@] == graph[k].node.dest.deep_view() by {
                if k < rest.len() {
                    assert(graph[k].id@ != graph[graph.len() - 1].id@);
                    assert(rest[k] == graph[k]);
                    assert(graph_map(rest)[rest[k].id@] == rest[k].node.dest.deep_view());
                }
            }
        }
    }
}

/// The graph of a chain of stages with distinct identifiers is one path:
/// each stage but the last has the one edge to the stage that follows it,
/// the last has none, and the graph holds no other stage.
pub proof fn lemma_chain_is_linear(graph: Seq<GraphEntry>, stages: Seq<Stage>)
    requires
        is_chain(graph, stages),
        forall|i: int, j: int|
            0 <= i < j < stages.len() ==> (#[trigger] stages[i]).id@ != (#[trigger] stages[j]).id@,
    ensures
        graph.len() == stages.len(),
        forall|i: int|
            0 <= i < stages.len() ==> graph_map(graph).contains_key((#[trigger] stages[i]).id@)
                && graph_map(graph)[stages[i].id@] == if i + 1 < stages.len() {
                seq![stages[i + 1].id@]
            } else {
                Seq::<Seq<char>>::empty()
            },
        forall|id: Seq<char>| #[trigger]
            graph_map(graph).contains_key(id) ==> exists|i: int|
                0 <= i < stages.len() && (#[trigger] stages[i]).id@ == id,
{
    let n = stages.len() as int;
    let ids = stage_ids_of(stages);
    assert forall|i: int, j: int| 0 <= i < j < ids.len() implies #[trigger] ids[i]
        != #[trigger] ids[j] by {
        assert(stages[i].id@ != stages[j].id@);
    }
    lemma_chain_entries(ids, n);
    lemma_graph_entries(graph);
    assert(graph.len() == n);
    assert forall|k: int| 0 <= k < n implies (#[trigger] graph[k]).id@ == stages[k].id@
        && graph[k].node.dest.deep_view() == next_of(ids, k) by {
        assert(graph_view(graph)[k] == (ids[k], next_of(ids, k)));
    }
    assert forall|i: int, j: int| 0 <= i < j < graph.len() implies (#[trigger] graph[i]).id@ != (
    #[trigger] graph[j]).id@ by {
        assert(stages[i].id@ != stages[j].id@);
    }
    assert forall|i: int| 0 <= i < stages.len() implies graph_map(graph).contains_key(
        (#[trigger] stages[i]).id@,
    ) && graph_map(graph)[stages[i].id@] == if i + 1 < stages.len() {
        seq![stages[i + 1].id@]
    } else {
        Seq::<Seq<char>>::empty()
    } by {
        assert(graph[i].id@ == stages[i].id@);
        assert(graph_map(graph)[graph[i].id@] == graph[i].node.dest.deep_view());
    }
    assert forall|id: Seq<char>| #[trigger] graph_map(graph).contains_key(id) implies exists|i: int|
        0 <= i < stages.len() && (#[trigger] stages[i]).id@ == id by {
        let k = choose|k: int| 0 <= k < graph.len() && (#[trigger] graph[k]).id@ == id;
        assert(stages[k].id@ == id);
    }
}

/// The scene of an animation has one stage for each stage of the first
/// actor, every stage has one position for each actor, the root is the first
/// stage, and the graph has one entry for a stage at most. Where the stages
/// have distinct identifiers, the graph is the one path through them in order.
pub proof fn lemma_reconstructed_shape(animation: LegacyAnimation, scene: Scene)
    requires
        reconstructs(animation, scene),
    ensures
        scene.stages@.len() == stage_count(animation),
        forall|i: int|
            0 <= i < scene.stages@.len() ==> (#[trigger] scene.stages@[i]).positions@.len()
                == animation.actors->Some_0@.len(),
        scene.root@ == scene.stages@[0].id@,
        scene.wf(),
        scene.graph@.len() <= scene.stages@.len(),
        (forall|i: int, j: int|
            0 <= i < j < scene.stages@.len() ==> (#[trigger] scene.stages@[i]).id@ != (
            #[trigger] scene.stages@[j]).id@) ==> forall|i: int|
            0 <= i < scene.stages@.len() ==> graph_map(scene.graph@).contains_key(
                (#[trigger] scene.stages@[i]).id@,
            ) && graph_map(scene.graph@)[scene.stages@[i].id@] == if i + 1
                < scene.stages@.len() {
                seq![scene.stages@[i + 1].id@]
            } else {
                Seq::<Seq<char>>::empty()
            },
{
    assert forall|i: int| 0 <= i < scene.stages@.len() implies (
    #[trigger] scene.stages@[i]).positions@.len() == animation.actors->Some_0@.len() by {
        assert(stage_matches(animation, scene.stages@[i], i));
    }
    lemma_chain_entries(stage_ids_of(scene.stages@), scene.stages@.len() as int);
    if forall|i: int, j: int|
        0 <= i < j < scene.stages@.len() ==> (#[trigger] scene.stages@[i]).id@ != (
        #[trigger] scene.stages@[j]).id@ {
        lemma_chain_is_linear(scene.graph@, scene.stages@);
    }
}

} // verus!
