use scene_builder::legacy::{
    chain_graph, classify_actor, count_stages, fresh_ids, graph_names, legacy_tags,
    legacy_timer, plan_actor, reconstruct_scene, stage_positions, ActorPlan, ImportError,
    LegacyActor, LegacyAnimation, LegacyDocument, LegacyField, LegacyStage, LegacyTimer,
};
use scene_builder::model::{Offset, Sex};
use scene_builder::project::Project;

fn actor(kind: Option<&str>, race: Option<&str>, events: &[&str]) -> LegacyActor {
    LegacyActor {
        kind: kind.map(|s| s.to_string()),
        race: race.map(|s| s.to_string()),
        stages: Some(events.iter().map(|e| LegacyStage { id: Some(e.to_string()) }).collect()),
    }
}

fn animation(name: &str, actors: Vec<LegacyActor>) -> LegacyAnimation {
    LegacyAnimation {
        name: Some(name.to_string()),
        creature_race: None,
        actors: Some(actors),
        tags: None,
        stage: None,
    }
}

fn document(animations: Vec<LegacyAnimation>) -> LegacyDocument {
    LegacyDocument { name: Some("Legacy Pack".to_string()), animations: Some(animations) }
}

const MALE: Sex = Sex { male: true, female: false, futa: false };
const FEMALE: Sex = Sex { male: false, female: true, futa: false };

#[test]
fn two_actors_three_stages() {
    let doc = document(vec![animation(
        "Anim",
        vec![
            actor(Some("Female"), None, &["a1s1", "a1s2", "a1s3"]),
            actor(Some("male"), None, &["a2s1", "a2s2", "a2s3"]),
        ],
    )]);
    let project = Project::from_slal(&doc).unwrap();
    assert_eq!(project.pack_name, "Legacy Pack");
    assert_eq!(project.pack_author, "Unknown");
    assert_eq!(project.prefix_hash.len(), 4);
    assert_eq!(project.scenes.len(), 1);
    let scene = &project.scenes[0];
    assert_eq!(scene.name, "Anim");
    assert!(!scene.has_warnings);
    assert_eq!(scene.id.len(), 8);
    assert_eq!(scene.stages.len(), 3);
    for (i, stage) in scene.stages.iter().enumerate() {
        assert_eq!(stage.id.len(), 8);
        assert_eq!(stage.positions.len(), 2);
        assert_eq!(stage.positions[0].event, vec![format!("a1s{}", i + 1)]);
        assert_eq!(stage.positions[1].event, vec![format!("a2s{}", i + 1)]);
        assert_eq!(stage.positions[0].sex, FEMALE);
        assert_eq!(stage.positions[1].sex, MALE);
        assert_eq!(stage.positions[0].race, "Human");
        assert_eq!(stage.positions[0].extra.climax, i == 2);
        assert_eq!(stage.positions[1].extra.climax, i == 2);
        assert_eq!(stage.extra.fixed_len, 0);
        assert!(stage.tags.is_empty());
    }
    assert_eq!(scene.root, scene.stages[0].id);
    assert_eq!(scene.graph.len(), 3);
    let mut at = scene.root.clone();
    let mut seen = vec![at.clone()];
    loop {
        let entries: Vec<_> = scene.graph.iter().filter(|e| e.id == at).collect();
        assert_eq!(entries.len(), 1);
        let dest = &entries[0].node.dest;
        if dest.is_empty() {
            break;
        }
        assert_eq!(dest.len(), 1);
        at = dest[0].clone();
        seen.push(at.clone());
    }
    let order: Vec<String> = scene.stages.iter().map(|s| s.id.clone()).collect();
    assert_eq!(seen, order);
    assert_eq!(at, scene.stages[2].id);
}

#[test]
fn scene_from_given_identifiers() {
    let anim = animation("A", vec![actor(None, None, &["x", "y"])]);
    let scene = reconstruct_scene(
        &anim,
        "scene".to_string(),
        vec!["first".to_string(), "second".to_string()],
    )
    .unwrap();
    assert_eq!(scene.id, "scene");
    assert_eq!(scene.root, "first");
    assert_eq!(scene.stages[0].id, "first");
    assert_eq!(scene.stages[1].id, "second");
    assert_eq!(scene.stages[0].positions[0].sex, MALE);
    assert_eq!(scene.graph[0].id, "first");
    assert_eq!(scene.graph[0].node.dest, vec!["second"]);
    assert_eq!(scene.graph[1].id, "second");
    assert!(scene.graph[1].node.dest.is_empty());
    assert!(scene.is_valid());
}

#[test]
fn unknown_gender_is_fatal() {
    let doc = document(vec![animation("Anim", vec![actor(Some("amphibian"), None, &["e"])])]);
    match Project::from_slal(&doc) {
        Err(ImportError::UnrecognizedLegacyGenderCode(code)) => assert_eq!(code, "amphibian"),
        other => panic!("{:?}", other),
    }
}

#[test]
fn gender_codes() {
    assert_eq!(classify_actor("male", "").unwrap(), (MALE, "Human".to_string()));
    assert_eq!(classify_actor("type", "Wolves").unwrap(), (MALE, "Human".to_string()));
    assert_eq!(classify_actor("female", "").unwrap(), (FEMALE, "Human".to_string()));
    assert_eq!(classify_actor("creaturemale", "Wolves").unwrap(), (MALE, "Wolf".to_string()));
    assert_eq!(
        classify_actor("creaturefemale", "Spiders").unwrap(),
        (FEMALE, "Spider".to_string())
    );
    assert!(matches!(
        classify_actor("Male", ""),
        Err(ImportError::UnrecognizedLegacyGenderCode(_))
    ));
    match classify_actor("creaturemale", "Gryphons") {
        Err(ImportError::UnrecognizedLegacyRace(code)) => assert_eq!(code, "Gryphons"),
        other => panic!("{:?}", other),
    }
}

#[test]
fn gender_code_is_read_in_lower_case() {
    let doc = document(vec![animation(
        "Anim",
        vec![actor(Some("CreatureFemale"), Some("Dogs"), &["e"]), actor(Some("TYPE"), None, &["f"])],
    )]);
    let project = Project::from_slal(&doc).unwrap();
    let stage = &project.scenes[0].stages[0];
    assert_eq!(stage.positions[0].sex, FEMALE);
    assert_eq!(stage.positions[0].race, "Dog");
    assert_eq!(stage.positions[1].sex, MALE);
    assert_eq!(stage.positions[1].race, "Human");
    assert!(stage.positions[0].extra.climax);
}

#[test]
fn creature_race_of_the_animation_is_the_fallback() {
    let mut anim = animation(
        "Anim",
        vec![actor(Some("creaturemale"), None, &["e"]), actor(Some("creaturemale"), Some("Trolls"), &["f"])],
    );
    anim.creature_race = Some("Bears".to_string());
    let project = Project::from_slal(&document(vec![anim])).unwrap();
    let stage = &project.scenes[0].stages[0];
    assert_eq!(stage.positions[0].race, "Bear");
    assert_eq!(stage.positions[1].race, "Troll");
    let bare = animation("Anim", vec![actor(Some("creaturemale"), None, &["e"])]);
    match Project::from_slal(&document(vec![bare])) {
        Err(ImportError::UnrecognizedLegacyRace(code)) => assert_eq!(code, ""),
        other => panic!("{:?}", other),
    }
}

#[test]
fn tags_are_lower_case_and_trimmed() {
    assert_eq!(
        legacy_tags(&Some(" Foo , BAR,,baz qux ".to_string())),
        vec!["foo", "bar", "", "baz qux"]
    );
    assert_eq!(legacy_tags(&Some(String::new())), vec![""]);
    assert!(legacy_tags(&None).is_empty());
    let mut anim = animation("Anim", vec![actor(None, None, &["e", "f"])]);
    anim.tags = Some("Vaginal, Loving".to_string());
    let project = Project::from_slal(&document(vec![anim])).unwrap();
    for stage in &project.scenes[0].stages {
        assert_eq!(stage.tags, vec!["vaginal", "loving"]);
    }
}

#[test]
fn timers_name_their_stage() {
    let timers = Some(vec![
        LegacyTimer { number: Some(1), timer: 2500 },
        LegacyTimer { number: None, timer: 1 },
        LegacyTimer { number: Some(-1), timer: 2 },
        LegacyTimer { number: Some(2), timer: 100 },
        LegacyTimer { number: Some(2), timer: 300 },
    ]);
    assert_eq!(legacy_timer(&timers, 0), 0);
    assert_eq!(legacy_timer(&timers, 1), 2500);
    assert_eq!(legacy_timer(&timers, 2), 300);
    assert_eq!(legacy_timer(&None, 1), 0);
    let mut anim = animation("Anim", vec![actor(None, None, &["e", "f"])]);
    anim.stage = timers;
    let project = Project::from_slal(&document(vec![anim])).unwrap();
    assert_eq!(project.scenes[0].stages[0].extra.fixed_len, 0);
    assert_eq!(project.scenes[0].stages[1].extra.fixed_len, 2500);
}

#[test]
fn missing_fields_are_named() {
    let mut doc = document(Vec::new());
    doc.name = None;
    assert!(matches!(
        Project::from_slal(&doc),
        Err(ImportError::MalformedLegacyDocument(LegacyField::PackName))
    ));
    let mut doc = document(Vec::new());
    doc.animations = None;
    assert!(matches!(
        Project::from_slal(&doc),
        Err(ImportError::MalformedLegacyDocument(LegacyField::Animations))
    ));
    let mut anim = animation("A", vec![actor(None, None, &["e"])]);
    anim.name = None;
    assert!(matches!(
        Project::from_slal(&document(vec![anim])),
        Err(ImportError::MalformedLegacyDocument(LegacyField::AnimationName))
    ));
    let mut anim = animation("A", Vec::new());
    anim.actors = None;
    assert!(matches!(
        Project::from_slal(&document(vec![anim])),
        Err(ImportError::MalformedLegacyDocument(LegacyField::Actors))
    ));
    let mut a = actor(None, None, &["e"]);
    a.stages = None;
    assert!(matches!(
        Project::from_slal(&document(vec![animation("A", vec![a])])),
        Err(ImportError::MalformedLegacyDocument(LegacyField::Stages))
    ));
    let mut a = actor(None, None, &["e", "f"]);
    a.stages.as_mut().unwrap()[1].id = None;
    assert!(matches!(
        Project::from_slal(&document(vec![animation("A", vec![a])])),
        Err(ImportError::MalformedLegacyDocument(LegacyField::EventId))
    ));
}

#[test]
fn stage_counts_must_match() {
    assert!(matches!(
        Project::from_slal(&document(vec![animation("A", Vec::new())])),
        Err(ImportError::NoStages)
    ));
    assert!(matches!(
        Project::from_slal(&document(vec![animation("A", vec![actor(None, None, &[])])])),
        Err(ImportError::NoStages)
    ));
    assert!(matches!(
        Project::from_slal(&document(vec![animation(
            "A",
            vec![actor(None, None, &["e", "f"]), actor(None, None, &["g"])]
        )])),
        Err(ImportError::MismatchedStages)
    ));
}

#[test]
fn empty_document_gives_an_empty_project() {
    let project = Project::from_slal(&document(Vec::new())).unwrap();
    assert!(project.scenes.is_empty());
    assert_eq!(project.pack_name, "Legacy Pack");
    let two = Project::from_slal(&document(vec![
        animation("A", vec![actor(None, None, &["e"])]),
        animation("B", vec![actor(None, None, &["f"])]),
    ]))
    .unwrap();
    assert_eq!(two.scenes.len(), 2);
    assert_eq!(two.scenes[0].name, "A");
    assert_eq!(two.scenes[1].name, "B");
    assert_ne!(two.scenes[0].id, two.scenes[1].id);
}

#[test]
fn chain_runs_from_first_to_last() {
    let ids: Vec<String> = vec!["a".to_string(), "b".to_string(), "c".to_string()];
    let graph = chain_graph(&ids);
    assert_eq!(graph.len(), 3);
    assert_eq!(graph[0].id, "a");
    assert_eq!(graph[0].node.dest, vec!["b"]);
    assert_eq!(graph[1].id, "b");
    assert_eq!(graph[1].node.dest, vec!["c"]);
    assert_eq!(graph[2].id, "c");
    assert!(graph[2].node.dest.is_empty());
    assert!(chain_graph(&Vec::new()).is_empty());
}

#[test]
fn positions_come_from_plans() {
    let plans = vec![
        ActorPlan { sex: FEMALE, race: "Human".to_string(), events: vec!["x0".into(), "x1".into()] },
        ActorPlan { sex: MALE, race: "Wolf".to_string(), events: vec!["y0".into(), "y1".into()] },
    ];
    let positions = stage_positions(&plans, 1, true);
    assert_eq!(positions.len(), 2);
    assert_eq!(positions[0].event, vec!["x1"]);
    assert_eq!(positions[1].event, vec!["y1"]);
    assert_eq!(positions[1].race, "Wolf");
    assert_eq!(positions[1].sex, MALE);
    assert_eq!(positions[0].anim_obj, "");
    assert_eq!(positions[0].offset, Offset { x: 0, y: 0, z: 0, r: 0 });
    assert!(positions[0].extra.climax);
    assert!(!stage_positions(&plans, 0, false)[0].extra.climax);
}

#[test]
fn actors_are_planned() {
    let a = actor(Some("CreatureMale"), Some("Horses"), &["e", "f"]);
    let plan = plan_actor(&a, "Bears", 2).unwrap();
    assert_eq!(plan.sex, MALE);
    assert_eq!(plan.race, "Horse");
    assert_eq!(plan.events, vec!["e", "f"]);
    assert!(matches!(plan_actor(&a, "Bears", 3), Err(ImportError::MismatchedStages)));
    let anim = animation("A", vec![a]);
    assert_eq!(count_stages(&anim), 2);
    assert_eq!(count_stages(&animation("B", Vec::new())), 0);
    let ids = fresh_ids(5);
    assert_eq!(ids.len(), 5);
    assert!(ids.iter().all(|id| id.len() == 8));
}

#[test]
fn a_stage_has_one_entry_in_the_chain() {
    let ids: Vec<String> = vec!["a".to_string(), "b".to_string(), "a".to_string()];
    let graph = chain_graph(&ids);
    assert_eq!(graph.len(), 2);
    assert_eq!(graph[0].id, "a");
    assert_eq!(graph[0].node.dest, vec!["b"]);
    assert_eq!(graph[1].id, "b");
    assert_eq!(graph[1].node.dest, vec!["a"]);
    assert!(graph_names(&graph, "a"));
    assert!(!graph_names(&graph, "c"));
    let anim = animation("A", vec![actor(None, None, &["x", "y", "z"])]);
    let scene = reconstruct_scene(&anim, "s".to_string(), ids).unwrap();
    assert_eq!(scene.stages.len(), 3);
    assert_eq!(scene.graph.len(), 2);
    assert!(scene.is_valid());
}
