use scene_builder::compile::{collect_lines, project_has_events, LineGroups, RaceGroup};
use scene_builder::model::{
    GraphEntry, Node, Offset, Position, PositionExtra, Scene, Sex, Stage, StageExtra,
};
use scene_builder::output::{make_list_file_name, plan_lists, top_segment};
use scene_builder::project::{CompileError, Project};

fn position_of(events: &[&str], race: &str, anim_obj: &str) -> Position {
    Position {
        event: events.iter().map(|s| s.to_string()).collect(),
        sex: Sex { male: false, female: true, futa: false },
        race: race.to_string(),
        anim_obj: anim_obj.to_string(),
        offset: Offset { x: 0, y: 0, z: 0, r: 0 },
        extra: PositionExtra { climax: false },
    }
}

fn scene_of(id: &str, warned: bool, stages: Vec<(i32, Vec<Position>)>) -> Scene {
    let mut list = Vec::new();
    for (i, (fixed_len, positions)) in stages.into_iter().enumerate() {
        list.push(Stage {
            id: format!("{}{}", id, i),
            positions,
            tags: Vec::new(),
            extra: StageExtra { fixed_len },
        });
    }
    Scene {
        id: id.to_string(),
        name: id.to_string(),
        has_warnings: warned,
        stages: list,
        graph: Vec::new(),
        root: format!("{}0", id),
    }
}

fn project_of(scenes: Vec<Scene>) -> Project {
    let mut p = Project::with_prefix_hash("ns01".to_string());
    p.pack_name = "Pack".to_string();
    for s in scenes {
        p.save_scene(s);
    }
    p
}

fn group<'a>(groups: &'a LineGroups, race: &str) -> Option<&'a RaceGroup> {
    groups.groups.iter().find(|g| g.race == race)
}

#[test]
fn shared_event_is_expanded_once() {
    let p = project_of(vec![scene_of(
        "a",
        false,
        vec![
            (0, vec![position_of(&["ev"], "Human", ""), position_of(&["ev"], "Human", "")]),
            (0, vec![position_of(&["ev"], "Bear", ""), position_of(&["other"], "Human", "")]),
        ],
    )]);
    let groups = collect_lines(&p, false);
    assert_eq!(groups.control, vec!["__BLANK__", "__DEFAULT__", "ev", "other"]);
    assert_eq!(groups.groups.len(), 1);
    let human = group(&groups, "Human").unwrap();
    assert_eq!(human.lines, vec!["b ns01ev ns01ev.hkx", "b ns01other ns01other.hkx"]);
    assert!(group(&groups, "Bear").is_none());
    let raw: usize = groups.groups.iter().map(|g| g.lines.len()).sum();
    assert_eq!(raw, groups.control.len() - 2);
}

#[test]
fn placeholders_are_never_expanded() {
    let p = project_of(vec![scene_of(
        "a",
        false,
        vec![(0, vec![position_of(&["__BLANK__"], "Human", ""), position_of(&["__DEFAULT__"], "Human", "")])],
    )]);
    let groups = collect_lines(&p, false);
    assert!(groups.groups.is_empty());
    assert_eq!(groups.control.len(), 2);
}

#[test]
fn dog_is_listed_under_dog_and_canine() {
    let p = project_of(vec![scene_of(
        "a",
        false,
        vec![(0, vec![position_of(&["d"], "Dog", "")])],
    )]);
    let groups = collect_lines(&p, false);
    assert_eq!(group(&groups, "Dog").unwrap().lines, vec!["b ns01d ns01d.hkx"]);
    assert_eq!(group(&groups, "Canine").unwrap().lines, vec!["b ns01d ns01d.hkx"]);
    assert!(group(&groups, "Wolf").is_none());
}

#[test]
fn canine_is_listed_under_the_whole_family() {
    let p = project_of(vec![scene_of(
        "a",
        false,
        vec![(0, vec![position_of(&["c"], "Canine", ""), position_of(&["w"], "Wolf", "")])],
    )]);
    let groups = collect_lines(&p, false);
    assert_eq!(group(&groups, "Canine").unwrap().lines, vec!["b ns01c ns01c.hkx", "b ns01w ns01w.hkx"]);
    assert_eq!(group(&groups, "Dog").unwrap().lines, vec!["b ns01c ns01c.hkx"]);
    assert_eq!(group(&groups, "Wolf").unwrap().lines, vec!["b ns01c ns01c.hkx", "b ns01w ns01w.hkx"]);
    let races: Vec<&str> = groups.groups.iter().map(|g| g.race.as_str()).collect();
    assert_eq!(races, vec!["Canine", "Dog", "Wolf"]);
}

#[test]
fn boars_are_listed_together() {
    let p = project_of(vec![scene_of(
        "a",
        false,
        vec![(0, vec![position_of(&["b1"], "Boar", ""), position_of(&["b2"], "Boar (Mounted)", "")])],
    )]);
    let groups = collect_lines(&p, false);
    assert_eq!(groups.groups.len(), 1);
    assert_eq!(groups.groups[0].race, "Boar (Any)");
    assert_eq!(groups.groups[0].lines.len(), 2);
}

#[test]
fn warned_scenes_give_no_lines() {
    let p = project_of(vec![
        scene_of("a", true, vec![(0, vec![position_of(&["hidden"], "Human", "")])]),
        scene_of("b", false, vec![(1000, vec![position_of(&["x", "y"], "Troll", "o1,o2")])]),
    ]);
    let groups = collect_lines(&p, false);
    assert_eq!(groups.groups.len(), 1);
    assert_eq!(
        groups.groups[0].lines,
        vec!["s -o,a ns01x ns01x.hkx o1 o2", "+ -o,a,Tn ns01y ns01y.hkx o1 o2"]
    );
    assert_eq!(groups.control.len(), 3);
}

#[test]
fn blank_prefix_gives_both_sets() {
    let p = project_of(vec![scene_of(
        "a",
        false,
        vec![(0, vec![position_of(&["ev"], "Human", "")])],
    )]);
    let groups = collect_lines(&p, true);
    assert_eq!(groups.groups[0].lines, vec!["b ev ev.hkx", "b ns01ev ns01ev.hkx"]);
}

#[test]
fn list_files_are_named_by_segment() {
    assert_eq!(make_list_file_name("P", "character", "Human"), "FNIS_P_List.txt");
    assert_eq!(make_list_file_name("P", "canine", "Canine"), "FNIS_P_canine_List.txt");
    assert_eq!(make_list_file_name("P", "canine", "Dog"), "FNIS_P_dog_List.txt");
    assert_eq!(make_list_file_name("P", "canine", "Wolf"), "FNIS_P_wolf_List.txt");
    assert_eq!(make_list_file_name("P", "canine", "Fox"), "FNIS_P_wolf_List.txt");
    assert_eq!(make_list_file_name("P", "bear", "Bear"), "FNIS_P_bear_List.txt");
    assert_eq!(top_segment("bear"), "bear");
    assert_eq!(top_segment("dlc02\\scrib"), "dlc02");
    assert_eq!(top_segment("\\x"), "");
    assert_eq!(top_segment(""), "");
}

#[test]
fn compile_plans_registry_and_lists() {
    let p = project_of(vec![scene_of(
        "a",
        false,
        vec![(0, vec![position_of(&["h"], "Human", ""), position_of(&["d"], "Dog", "")])],
    )]);
    let out = p.build(false).unwrap();
    assert_eq!(out.registry_directory, "SKSE\\SexLab\\Registry\\");
    assert_eq!(out.registry_file, "Pack.slr");
    assert_eq!(out.registry, p.encode().unwrap());
    assert_eq!(out.lists.len(), 3);
    assert_eq!(out.lists[0].race, "Human");
    assert_eq!(out.lists[0].directory, "meshes\\actors\\character\\animations\\Pack");
    assert_eq!(out.lists[0].file_name, "FNIS_Pack_List.txt");
    assert_eq!(out.lists[0].lines, vec!["b ns01h ns01h.hkx"]);
    assert_eq!(out.lists[1].race, "Dog");
    assert_eq!(out.lists[1].directory, "meshes\\actors\\canine\\animations\\Pack");
    assert_eq!(out.lists[1].file_name, "FNIS_Pack_dog_List.txt");
    assert_eq!(out.lists[2].race, "Canine");
    assert_eq!(out.lists[2].file_name, "FNIS_Pack_canine_List.txt");
    assert_eq!(out.lists[2].lines, vec!["b ns01d ns01d.hkx"]);
}

#[test]
fn unnamed_pack_takes_the_token_as_file_name() {
    let mut p = project_of(Vec::new());
    p.pack_name = String::new();
    let out = p.build(false).unwrap();
    assert_eq!(out.registry_file, "ns01.slr");
    assert!(out.lists.is_empty());
}

#[test]
fn unknown_race_is_fatal() {
    let p = project_of(vec![scene_of(
        "a",
        false,
        vec![(0, vec![position_of(&["h"], "Human", ""), position_of(&["u"], "Unicorn", "")])],
    )]);
    match p.build(false) {
        Err(CompileError::UnrecognizedRaceKey(key)) => assert_eq!(key, "Unicorn"),
        other => panic!("{:?}", other),
    }
    let groups = collect_lines(&p, false);
    assert!(plan_lists(&groups.groups, "Pack").is_err());
}

#[test]
fn empty_scene_stops_the_compilation() {
    let p = project_of(vec![
        scene_of("a", false, vec![(0, vec![position_of(&["u"], "Unicorn", "")])]),
        scene_of("b", false, Vec::new()),
    ]);
    assert!(matches!(p.build(false), Err(CompileError::EncodingInvariantViolation)));
}

#[test]
fn position_without_event_cannot_be_compiled() {
    let good = project_of(vec![scene_of(
        "a",
        false,
        vec![(0, vec![position_of(&["h"], "Human", "")])],
    )]);
    assert!(project_has_events(&good));
    let out = good.checked_build(false).unwrap().unwrap();
    assert_eq!(out.lists.len(), 1);
    let bad = project_of(vec![scene_of("a", false, vec![(0, vec![position_of(&[], "Human", "")])])]);
    assert!(!project_has_events(&bad));
    assert!(bad.checked_build(false).is_none());
    let hidden =
        project_of(vec![scene_of("a", true, vec![(0, vec![position_of(&[], "Human", "")])])]);
    assert!(project_has_events(&hidden));
    assert!(hidden.checked_build(false).unwrap().is_ok());
    let mut long = project_of(Vec::new());
    long.prefix_hash = "toolong".to_string();
    let out = long.checked_build(false).unwrap().unwrap();
    assert_eq!(&out.registry[1 + 8 + 4 + 8 + 7..1 + 8 + 4 + 8 + 7 + 7], b"toolong");
    let mut twice = scene_of("a", false, vec![(0, vec![position_of(&["h"], "Human", "")])]);
    for _ in 0..2 {
        twice.graph.push(GraphEntry { id: "a0".to_string(), node: Node { dest: Vec::new() } });
    }
    assert!(!twice.is_valid());
    assert!(project_of(vec![twice]).checked_build(false).is_none());
}

#[test]
fn one_race_has_one_line_for_each_distinct_event() {
    let p = project_of(vec![
        scene_of(
            "a",
            false,
            vec![
                (0, vec![position_of(&["e1"], "Troll", ""), position_of(&["e2"], "Troll", "")]),
                (0, vec![position_of(&["e1"], "Troll", ""), position_of(&["__BLANK__"], "Troll", "")]),
            ],
        ),
        scene_of("b", false, vec![(5, vec![position_of(&["e3"], "Troll", "x"), position_of(&["e2"], "Troll", "")])]),
        scene_of("c", true, vec![(0, vec![position_of(&["e9"], "Troll", "")])]),
    ]);
    let out = p.build(false).unwrap();
    assert_eq!(out.lists.len(), 1);
    assert_eq!(out.lists[0].race, "Troll");
    assert_eq!(out.lists[0].lines.len(), 3);
    let none = project_of(vec![scene_of(
        "a",
        false,
        vec![(0, vec![position_of(&["__DEFAULT__"], "Troll", "")])],
    )]);
    assert!(none.build(false).unwrap().lists.is_empty());
}
