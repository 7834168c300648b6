use scene_builder::fnis::{make_fnis_line, make_fnis_lines, split_companions};
use scene_builder::race::{alias_targets, map_legacy_to_racekey, map_race_to_folder};
use scene_builder::legacy::legacy_tags;
use scene_builder::text::{find_text, is_space_char, same_text, split_fields};

fn texts(items: &[&str]) -> Vec<String> {
    items.iter().map(|s| s.to_string()).collect()
}

#[test]
fn single_event_gives_one_basic_line() {
    let lines = make_fnis_lines(&texts(&["ev"]), "abcd", false, "");
    assert_eq!(lines, vec!["b abcdev abcdev.hkx".to_string()]);
}

#[test]
fn single_event_with_fixed_length_has_option_a() {
    let lines = make_fnis_lines(&texts(&["ev"]), "abcd", true, "");
    assert_eq!(lines, vec!["b -a abcdev abcdev.hkx".to_string()]);
}

#[test]
fn chain_marks_first_and_last() {
    let lines = make_fnis_lines(&texts(&["e1", "e2", "e3"]), "abcd", true, "");
    assert_eq!(
        lines,
        texts(&["s -a abcde1 abcde1.hkx", "+ abcde2 abcde2.hkx", "+ -a,Tn abcde3 abcde3.hkx"])
    );
}

#[test]
fn chain_without_fixed_length_leaves_last_bare() {
    let lines = make_fnis_lines(&texts(&["e1", "e2"]), "h", false, "");
    assert_eq!(lines, texts(&["s -a he1 he1.hkx", "+ he2 he2.hkx"]));
}

#[test]
fn companion_objects_are_split_and_joined() {
    let lines = make_fnis_lines(&texts(&["e1", "e2"]), "abcd", true, "obj1,,obj2,");
    assert_eq!(
        lines,
        texts(&["s -o,a abcde1 abcde1.hkx obj1 obj2", "+ -o,a,Tn abcde2 abcde2.hkx obj1 obj2"])
    );
    let single = make_fnis_lines(&texts(&["ev"]), "abcd", false, "obj");
    assert_eq!(single, texts(&["b -o, abcdev abcdev.hkx obj"]));
}

#[test]
fn no_events_give_no_lines() {
    let lines = make_fnis_lines(&Vec::new(), "abcd", true, "x");
    assert!(lines.is_empty());
}

#[test]
fn line_count_equals_event_count() {
    for n in 1..6usize {
        let events: Vec<String> = (0..n).map(|i| format!("e{}", i)).collect();
        let lines = make_fnis_lines(&events, "ns", true, "");
        assert_eq!(lines.len(), n);
        for (i, line) in lines.iter().enumerate() {
            if n > 1 && i > 0 && i < n - 1 {
                assert_eq!(line, &format!("+ nse{} nse{}.hkx", i, i));
            }
        }
    }
}

#[test]
fn one_line_in_full() {
    let line = make_fnis_line("s", "ev", "hash", "a", &texts(&["o1", "o2"]));
    assert_eq!(line, "s -o,a hashev hashev.hkx o1 o2");
    let bare = make_fnis_line("+", "ev", "", "", &Vec::new());
    assert_eq!(bare, "+ ev ev.hkx");
}

#[test]
fn split_companions_drops_empty_pieces() {
    assert_eq!(split_companions("a,b"), texts(&["a", "b"]));
    assert_eq!(split_companions(",a,,b,"), texts(&["a", "b"]));
    assert!(split_companions("").is_empty());
    assert!(split_companions(",,").is_empty());
    assert_eq!(split_companions("é,ü"), texts(&["é", "ü"]));
}

#[test]
fn split_fields_keeps_empty_fields() {
    assert_eq!(split_fields("a,b"), texts(&["a", "b"]));
    assert_eq!(split_fields(",a,,b,"), texts(&["", "a", "", "b", ""]));
    assert_eq!(split_fields(""), texts(&[""]));
}

#[test]
fn find_text_gives_first_position() {
    assert_eq!(find_text("pack.slsb.json", ".slsb.json"), Some(4));
    assert_eq!(find_text("abab", "ab"), Some(0));
    assert_eq!(find_text("xxab", "ab"), Some(2));
    assert_eq!(find_text("abc", "abcd"), None);
    assert_eq!(find_text("abc", "x"), None);
    assert_eq!(find_text("abc", ""), Some(0));
    assert!(same_text("abc", "abc"));
    assert!(!same_text("abc", "abd"));
}

#[test]
fn race_folders() {
    assert_eq!(map_race_to_folder("Human"), Ok("character".to_string()));
    assert_eq!(map_race_to_folder("Ash Hopper"), Ok("dlc02\\scrib".to_string()));
    assert_eq!(map_race_to_folder("Wisp"), Ok("witchlight".to_string()));
    assert_eq!(map_race_to_folder("Wispmother"), Ok("wisp".to_string()));
    assert_eq!(map_race_to_folder("Rabbit"), Ok("ambient\\hare".to_string()));
    assert_eq!(map_race_to_folder("Unicorn"), Err(()));
    assert_eq!(map_race_to_folder(""), Err(()));
    assert_eq!(map_race_to_folder("human"), Err(()));
}

#[test]
fn several_races_share_a_folder() {
    for race in ["Boar", "Boar (Any)", "Boar (Mounted)"] {
        assert_eq!(map_race_to_folder(race), Ok("dlc02\\boarriekling".to_string()));
    }
    for race in ["Canine", "Dog", "Wolf", "Fox"] {
        assert_eq!(map_race_to_folder(race), Ok("canine".to_string()));
    }
    for race in ["Spider", "Large Spider", "Giant Spider"] {
        assert_eq!(map_race_to_folder(race), Ok("frostbitespider".to_string()));
    }
}

#[test]
fn legacy_codes_resolve_to_race_keys() {
    assert_eq!(map_legacy_to_racekey("Wolves"), Ok("Wolf".to_string()));
    assert_eq!(map_legacy_to_racekey("Canines"), Ok("Canine".to_string()));
    assert_eq!(map_legacy_to_racekey("SabreCats"), Ok("Sabrecat".to_string()));
    assert_eq!(map_legacy_to_racekey("Chaurus"), Ok("Chaurus".to_string()));
    assert_eq!(map_legacy_to_racekey("Gryphons"), Err(()));
    assert_eq!(map_legacy_to_racekey(""), Err(()));
}

#[test]
fn every_legacy_race_has_a_folder() {
    for code in [
        "AshHoppers", "Bears", "Boars", "BoarsAny", "BoarsMounted", "Canines", "Chaurus",
        "ChaurusHunters", "ChaurusReapers", "Chickens", "Cows", "Deers", "Dogs", "DragonPriests",
        "Dragons", "Draugrs", "DwarvenBallistas", "DwarvenCenturions", "DwarvenSpheres",
        "DwarvenSpiders", "Falmers", "FlameAtronach", "Foxes", "FrostAtronach", "Gargoyles",
        "Giants", "Goats", "Hagravens", "Horkers", "Horses", "IceWraiths", "Lurkers", "Mammoths",
        "Mudcrabs", "Netches", "Rabbits", "Rieklings", "SabreCats", "Seekers", "Skeevers",
        "Slaughterfishes", "StormAtronach", "Spiders", "LargeSpiders", "GiantSpiders",
        "Spriggans", "Trolls", "VampireLords", "Werewolves", "Wispmothers", "Wisps", "Wolves",
    ] {
        let race = map_legacy_to_racekey(code).unwrap();
        assert!(map_race_to_folder(&race).is_ok(), "{}", race);
    }
}

#[test]
fn canine_family_shares_lines() {
    assert_eq!(alias_targets("Dog"), texts(&["Dog", "Canine"]));
    assert_eq!(alias_targets("Wolf"), texts(&["Wolf", "Canine"]));
    assert_eq!(alias_targets("Canine"), texts(&["Canine", "Dog", "Wolf"]));
    assert_eq!(alias_targets("Fox"), texts(&["Fox"]));
}

#[test]
fn boar_variants_collapse() {
    for race in ["Boar", "Boar (Mounted)", "Boar (Any)"] {
        assert_eq!(alias_targets(race), texts(&["Boar (Any)"]));
    }
    assert_eq!(alias_targets("Human"), texts(&["Human"]));
}

#[test]
fn token_stands_before_handle_and_file_stem() {
    let line = make_fnis_line("b", "A", "abcd", "", &Vec::new());
    assert_eq!(line, "b abcdA abcdA.hkx");
    assert_eq!(make_fnis_lines(&texts(&["A"]), "abcd", false, ""), texts(&["b abcdA abcdA.hkx"]));
}

#[test]
fn white_space_is_what_trimming_removes() {
    for code in 0..=0x10ffffu32 {
        if let Some(c) = char::from_u32(code) {
            assert_eq!(is_space_char(c), c.is_whitespace(), "{:x}", code);
        }
    }
    for c in ['\t', '\n', ' ', '\u{85}', '\u{a0}', '\u{1680}', '\u{2003}', '\u{2028}', '\u{3000}'] {
        let tags = legacy_tags(&Some(format!("{}a{}b{},{}", c, c, c, c)));
        assert_eq!(tags, vec![format!("a{}b", c), String::new()]);
    }
    assert_eq!(legacy_tags(&Some("\u{200b}x".to_string())), vec!["\u{200b}x"]);
}
