use scene_builder::codec::{write_i32, write_u64, EncodeBinary};
use scene_builder::model::{
    GraphEntry, Node, Offset, Position, PositionExtra, Scene, Sex, Stage, StageExtra,
};
use scene_builder::project::{CompileError, Project};
use scene_builder::token::{new_token, NANOID_LENGTH, PREFIX_HASH_LEN};

fn sample_position(event: &str, race: &str) -> Position {
    Position {
        event: vec![event.to_string()],
        sex: Sex { male: true, female: false, futa: false },
        race: race.to_string(),
        anim_obj: String::new(),
        offset: Offset { x: 1500, y: -250, z: 0, r: 90000 },
        extra: PositionExtra { climax: false },
    }
}

fn sample_scene(id: &str, warned: bool, stages: usize) -> Scene {
    let mut list = Vec::new();
    for i in 0..stages {
        list.push(Stage {
            id: format!("{}s{}", id, i),
            positions: vec![sample_position(&format!("{}e{}", id, i), "Human")],
            tags: vec!["tag".to_string()],
            extra: StageExtra { fixed_len: if i == 0 { 2500 } else { 0 } },
        });
    }
    Scene {
        id: id.to_string(),
        name: format!("scene {}", id),
        has_warnings: warned,
        stages: list,
        graph: vec![GraphEntry { id: format!("{}s0", id), node: Node { dest: Vec::new() } }],
        root: format!("{}s0", id),
    }
}

fn sample_project() -> Project {
    let mut p = Project::with_prefix_hash("ab12".to_string());
    p.pack_name = "Pack".to_string();
    p.pack_author = "Me".to_string();
    p.save_scene(sample_scene("one", false, 2));
    p.save_scene(sample_scene("two", true, 1));
    p.save_scene(sample_scene("three", false, 1));
    p
}

struct Reader<'a> {
    bytes: &'a [u8],
    at: usize,
}

fn take<'a>(r: &mut Reader<'a>, n: usize) -> &'a [u8] {
    let s = &r.bytes[r.at..r.at + n];
    r.at += n;
    s
}

fn read_u64(r: &mut Reader) -> u64 {
    let mut b = [0u8; 8];
    b.copy_from_slice(take(r, 8));
    u64::from_be_bytes(b)
}

fn read_i32(r: &mut Reader) -> i32 {
    let mut b = [0u8; 4];
    b.copy_from_slice(take(r, 4));
    i32::from_be_bytes(b)
}

fn read_text(r: &mut Reader) -> String {
    let n = read_u64(r) as usize;
    String::from_utf8(take(r, n).to_vec()).unwrap()
}

fn read_texts(r: &mut Reader) -> Vec<String> {
    let n = read_u64(r);
    (0..n).map(|_| read_text(r)).collect()
}

fn read_scene(r: &mut Reader) -> Scene {
    let id = read_text(r);
    let name = read_text(r);
    let root = read_text(r);
    let mut stages = Vec::new();
    for _ in 0..read_u64(r) {
        let id = read_text(r);
        let mut positions = Vec::new();
        for _ in 0..read_u64(r) {
            let event = read_texts(r);
            let race = read_text(r);
            let anim_obj = read_text(r);
            let flags = take(r, 4).to_vec();
            let offset =
                Offset { x: read_i32(r), y: read_i32(r), z: read_i32(r), r: read_i32(r) };
            positions.push(Position {
                event,
                sex: Sex { male: flags[0] == 1, female: flags[1] == 1, futa: flags[2] == 1 },
                race,
                anim_obj,
                offset,
                extra: PositionExtra { climax: flags[3] == 1 },
            });
        }
        let fixed_len = read_i32(r);
        let tags = read_texts(r);
        stages.push(Stage { id, positions, tags, extra: StageExtra { fixed_len } });
    }
    let mut graph = Vec::new();
    for _ in 0..read_u64(r) {
        let id = read_text(r);
        graph.push(GraphEntry { id, node: Node { dest: read_texts(r) } });
    }
    Scene { id, name, has_warnings: false, stages, graph, root }
}

#[test]
fn header_counts_scenes_without_warnings() {
    let p = sample_project();
    let bytes = p.encode().unwrap();
    let mut r = Reader { bytes: &bytes, at: 0 };
    assert_eq!(take(&mut r, 1), &[3u8]);
    assert_eq!(read_text(&mut r), "Pack");
    assert_eq!(read_text(&mut r), "Me");
    assert_eq!(take(&mut r, PREFIX_HASH_LEN), b"ab12");
    assert_eq!(read_u64(&mut r), 2);
    assert_eq!(p.written_scenes(), 2);
}

#[test]
fn header_bytes_are_exact() {
    let mut p = Project::with_prefix_hash("zz99".to_string());
    p.pack_name = "Aé".to_string();
    p.pack_author = "B".to_string();
    let bytes = p.encode().unwrap();
    let mut want: Vec<u8> = vec![3];
    want.extend_from_slice(&[0, 0, 0, 0, 0, 0, 0, 3, b'A', 0xc3, 0xa9]);
    want.extend_from_slice(&[0, 0, 0, 0, 0, 0, 0, 1, b'B']);
    want.extend_from_slice(b"zz99");
    want.extend_from_slice(&[0, 0, 0, 0, 0, 0, 0, 0]);
    assert_eq!(bytes, want);
}

#[test]
fn registry_round_trip() {
    let p = sample_project();
    let bytes = p.encode().unwrap();
    assert_eq!(bytes.len(), p.get_byte_size());
    let mut r = Reader { bytes: &bytes, at: 0 };
    assert_eq!(take(&mut r, 1), &[3u8]);
    assert_eq!(read_text(&mut r), p.pack_name);
    assert_eq!(read_text(&mut r), p.pack_author);
    assert_eq!(take(&mut r, PREFIX_HASH_LEN), p.prefix_hash.as_bytes());
    let count = read_u64(&mut r);
    assert_eq!(count, 2);
    let written: Vec<&Scene> = p.scenes.iter().filter(|s| !s.has_warnings).collect();
    for want in written {
        let got = read_scene(&mut r);
        assert_eq!(format!("{:?}", got), format!("{:?}", want));
    }
    assert_eq!(r.at, bytes.len());
}

#[test]
fn size_is_what_write_appends() {
    let p = sample_project();
    let mut buf = vec![9u8, 9];
    p.write_byte(&mut buf);
    assert_eq!(buf.len(), 2 + p.get_byte_size());
    assert_eq!(&buf[..2], &[9, 9]);
    let scene = sample_scene("x", false, 3);
    let mut b = Vec::new();
    scene.write_byte(&mut b);
    assert_eq!(b.len(), scene.get_byte_size());
    let o = Offset { x: 0, y: 0, z: 0, r: 0 };
    assert_eq!(o.get_byte_size(), 16);
    let name = "héllo".to_string();
    assert_eq!(name.get_byte_size(), 8 + 6);
}

#[test]
fn numbers_are_big_endian() {
    let mut buf = Vec::new();
    write_u64(0x0102030405060708, &mut buf);
    assert_eq!(buf, vec![1, 2, 3, 4, 5, 6, 7, 8]);
    let mut buf = Vec::new();
    write_i32(-1, &mut buf);
    write_i32(1500, &mut buf);
    write_i32(i32::MIN, &mut buf);
    write_i32(i32::MAX, &mut buf);
    assert_eq!(
        buf,
        vec![255, 255, 255, 255, 0, 0, 5, 220, 128, 0, 0, 0, 127, 255, 255, 255]
    );
    let mut buf = Vec::new();
    Offset { x: 1, y: -2, z: 3, r: -4 }.write_byte(&mut buf);
    assert_eq!(buf, vec![0, 0, 0, 1, 255, 255, 255, 254, 0, 0, 0, 3, 255, 255, 255, 252]);
}

#[test]
fn empty_scene_without_warnings_is_fatal() {
    let mut p = sample_project();
    p.save_scene(sample_scene("empty", false, 0));
    assert!(matches!(p.encode(), Err(CompileError::EncodingInvariantViolation)));
    assert!(p.find_empty_scene());
}

#[test]
fn empty_scene_with_warnings_is_skipped() {
    let mut p = sample_project();
    let before = p.encode().unwrap();
    p.save_scene(sample_scene("empty", true, 0));
    assert!(!p.find_empty_scene());
    assert_eq!(p.encode().unwrap(), before);
}

#[test]
fn new_project_has_a_token() {
    let p = Project::new();
    assert_eq!(p.pack_name, "");
    assert_eq!(p.pack_author, "Unknown");
    assert!(p.scenes.is_empty());
    assert_eq!(p.prefix_hash.chars().count(), PREFIX_HASH_LEN);
    assert!(p.prefix_hash.chars().all(|c| c.is_ascii_digit() || c.is_ascii_lowercase()));
    let id = new_token(NANOID_LENGTH);
    assert_eq!(id.len(), 8);
    assert!(id.chars().all(|c| c.is_ascii_digit() || c.is_ascii_lowercase()));
    let long = new_token(40);
    assert_eq!(long.len(), 40);
}

#[test]
fn reset_empties_the_project() {
    let mut p = sample_project();
    assert_eq!(p.reset().pack_author, "Unknown");
    assert_eq!(p.pack_name, "");
    assert_eq!(p.pack_author, "Unknown");
    assert!(p.scenes.is_empty());
    assert_eq!(p.prefix_hash.len(), PREFIX_HASH_LEN);
}

#[test]
fn save_replaces_a_scene_of_the_same_id() {
    let mut p = sample_project();
    assert_eq!(p.scenes.len(), 3);
    let mut again = sample_scene("two", false, 4);
    again.name = "changed".to_string();
    let saved = p.save_scene(again);
    assert_eq!(saved.name, "changed");
    assert_eq!(saved.stages.len(), 4);
    assert_eq!(p.scenes.len(), 3);
    assert_eq!(p.scenes[1].name, "changed");
    let saved = p.save_scene(sample_scene("four", false, 1));
    assert_eq!(saved.id, "four");
    assert_eq!(p.scenes.len(), 4);
    assert_eq!(p.scenes[3].id, "four");
}

#[test]
fn discard_takes_the_scene_out() {
    let mut p = sample_project();
    let gone = p.discard_scene(&"two".to_string()).unwrap();
    assert_eq!(gone.id, "two");
    assert_eq!(p.scenes.len(), 2);
    assert_eq!(p.scenes[0].id, "one");
    assert_eq!(p.scenes[1].id, "three");
    assert!(p.discard_scene(&"two".to_string()).is_none());
    assert_eq!(p.scenes.len(), 2);
}

#[test]
fn scenes_and_stages_are_found_by_id() {
    let mut p = sample_project();
    assert_eq!(p.get_scene(&"three".to_string()).unwrap().name, "scene three");
    assert!(p.get_scene(&"none".to_string()).is_none());
    assert_eq!(p.find_scene("two"), Some(1));
    assert_eq!(p.find_scene("zero"), None);
    p.get_scene_mut(&"one".to_string()).unwrap().name = "first".to_string();
    assert_eq!(p.scenes[0].name, "first");
    assert!(p.get_scene_mut(&"none".to_string()).is_none());
    let stage = p.get_stage(&"ones1".to_string()).unwrap();
    assert_eq!(stage.positions[0].event[0], "onee1");
    assert!(p.get_stage(&"ones9".to_string()).is_none());
    assert_eq!(p.scenes[2].get_stage(&"threes0".to_string()).unwrap().id, "threes0");
}

#[test]
fn project_is_named_after_its_file() {
    let mut p = sample_project();
    p.set_project_name_from_path("my pack.slsb.json");
    assert_eq!(p.pack_name, "my pack");
    p.set_project_name_from_path("other.json");
    assert_eq!(p.pack_name, "other.json");
    p.set_project_name_from_path("a.slsb.json.slsb.json");
    assert_eq!(p.pack_name, "a");
    p.set_project_name_from_path("");
    assert_eq!(p.pack_name, "");
    assert_eq!(p.pack_author, "Me");
}

#[test]
fn offsets_are_applied_to_the_named_stage() {
    let mut scene = sample_scene("x", false, 2);
    let new = Offset { x: 1, y: 2, z: 3, r: 4 };
    assert!(scene.import_offset(&"xs1".to_string(), &vec![new, new]));
    assert_eq!(scene.stages[1].positions[0].offset, new);
    assert_eq!(scene.stages[0].positions[0].offset, Offset { x: 1500, y: -250, z: 0, r: 90000 });
    assert!(!scene.import_offset(&"none".to_string(), &vec![new]));
    scene.stages[0].import_offset(&Vec::new());
    assert_eq!(scene.stages[0].positions[0].offset, Offset { x: 1500, y: -250, z: 0, r: 90000 });
    assert_eq!(scene.stages[0].positions[0].event, vec!["xe0"]);
}

#[test]
fn checked_size_agrees_with_size() {
    let p = sample_project();
    assert_eq!(p.checked_byte_size(), Some(p.get_byte_size()));
    assert_eq!(p.fitting_size(), Some(p.encode().unwrap().len()));
    let scene = sample_scene("x", false, 2);
    assert_eq!(scene.checked_byte_size(), Some(scene.get_byte_size()));
    assert_eq!(scene.stages[0].checked_byte_size(), Some(scene.stages[0].get_byte_size()));
    let position = sample_position("e", "Human");
    assert_eq!(position.checked_byte_size(), Some(8 + 8 + 1 + 8 + 5 + 8 + 4 + 16));
    assert_eq!("abc".to_string().checked_byte_size(), Some(11));
    let mut empty = sample_project();
    empty.save_scene(sample_scene("empty", false, 0));
    assert_eq!(empty.checked_byte_size(), None);
    assert!(empty.fitting_size().is_some());
}

#[test]
fn project_offsets_reach_one_scene() {
    let mut p = sample_project();
    let new = Offset { x: -5, y: 6, z: -7, r: 8 };
    assert!(p.import_offset(&"three".to_string(), &"threes0".to_string(), &vec![new]));
    assert_eq!(p.scenes[2].stages[0].positions[0].offset, new);
    assert_eq!(p.scenes[0].stages[0].positions[0].offset, Offset { x: 1500, y: -250, z: 0, r: 90000 });
    assert!(!p.import_offset(&"three".to_string(), &"ones0".to_string(), &vec![new]));
    assert!(!p.import_offset(&"none".to_string(), &"threes0".to_string(), &vec![new]));
    assert_eq!(p.scenes.len(), 3);
}
