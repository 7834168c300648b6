//! Race keys: the output folder of each race, the race that a legacy code
//! stands for, and the groups under which the lines of a race are listed.

use crate::text::same_text;
use vstd::prelude::*;

verus! {

/// The folder, relative to the actors directory, that holds the animations of
/// `race`; `None` for a race key that has no folder.
pub open spec fn race_folder(race: Seq<char>) -> Option<Seq<char>> {
    if race == "Human"@ {
        Some("character"@)
    } else if race == "Ash Hopper"@ {
        Some("dlc02\\scrib"@)
    } else if race == "Bear"@ {
        Some("bear"@)
    } else if race == "Boar"@ || race == "Boar (Any)"@ || race == "Boar (Mounted)"@ {
        Some("dlc02\\boarriekling"@)
    } else if race == "Canine"@ || race == "Dog"@ || race == "Wolf"@ || race == "Fox"@ {
        Some("canine"@)
    } else if race == "Chaurus"@ || race == "Chaurus Reaper"@ {
        Some("chaurus"@)
    } else if race == "Chaurus Hunter"@ {
        Some("dlc01\\chaurusflyer"@)
    } else if race == "Chicken"@ {
        Some("ambient\\chicken"@)
    } else if race == "Cow"@ {
        Some("cow"@)
    } else if race == "Deer"@ {
        Some("deer"@)
    } else if race == "Dragon Priest"@ {
        Some("dragonpriest"@)
    } else if race == "Dragon"@ {
        Some("dragon"@)
    } else if race == "Draugr"@ {
        Some("draugr"@)
    } else if race == "Dwarven Ballista"@ {
        Some("dlc02\\dwarvenballistacenturion"@)
    } else if race == "Dwarven Centurion"@ {
        Some("dwarvensteamcenturion"@)
    } else if race == "Dwarven Sphere"@ {
        Some("dwarvenspherecenturion"@)
    } else if race == "Dwarven Spider"@ {
        Some("dwarvenspider"@)
    } else if race == "Falmer"@ {
        Some("falmer"@)
    } else if race == "Flame Atronach"@ {
        Some("atronachflame"@)
    } else if race == "Frost Atronach"@ {
        Some("atronachfrost"@)
    } else if race == "Storm Atronach"@ {
        Some("atronachstorm"@)
    } else if race == "Gargoyle"@ {
        Some("dlc01\\vampirebrute"@)
    } else if race == "Giant"@ {
        Some("giant"@)
    } else if race == "Goat"@ {
        Some("goat"@)
    } else if race == "Hagraven"@ {
        Some("hagraven"@)
    } else if race == "Horker"@ {
        Some("horker"@)
    } else if race == "Horse"@ {
        Some("horse"@)
    } else if race == "Ice Wraith"@ {
        Some("icewraith"@)
    } else if race == "Lurker"@ {
        Some("dlc02\\benthiclurker"@)
    } else if race == "Mammoth"@ {
        Some("mammoth"@)
    } else if race == "Mudcrab"@ {
        Some("mudcrab"@)
    } else if race == "Netch"@ {
        Some("dlc02\\netch"@)
    } else if race == "Rabbit"@ {
        Some("ambient\\hare"@)
    } else if race == "Riekling"@ {
        Some("dlc02\\riekling"@)
    } else if race == "Sabrecat"@ {
        Some("sabrecat"@)
    } else if race == "Seeker"@ {
        Some("dlc02\\hmdaedra"@)
    } else if race == "Skeever"@ {
        Some("skeever"@)
    } else if race == "Slaughterfish"@ {
        Some("slaughterfish"@)
    } else if race == "Spider"@ || race == "Large Spider"@ || race == "Giant Spider"@ {
        Some("frostbitespider"@)
    } else if race == "Spriggan"@ {
        Some("spriggan"@)
    } else if race == "Troll"@ {
        Some("troll"@)
    } else if race == "Vampire Lord"@ {
        Some("vampirelord"@)
    } else if race == "Werewolf"@ {
        Some("werewolfbeast"@)
    } else if race == "Wispmother"@ {
        Some("wisp"@)
    } else if race == "Wisp"@ {
        Some("witchlight"@)
    } else {
        None
    }
}

/// Looks up the output folder of a race key. Several keys share a folder; a
/// key that the table does not hold is an error.
pub fn map_race_to_folder(race: &str) -> (r: Result<String, ()>)
    ensures
        match race_folder(race@) {
            Some(folder) => r is Ok && r->Ok_0@ == folder,
            None => r is Err,
        },
{
    if same_text(race, "Human") {
        Ok(String::from_str("character"))
    } else if same_text(race, "Ash Hopper") {
        Ok(String::from_str("dlc02\\scrib"))
    } else if same_text(race, "Bear") {
        Ok(String::from_str("bear"))
    } else if same_text(race, "Boar") || same_text(race, "Boar (Any)") || same_text(race, "Boar (Mounted)") {
        Ok(String::from_str("dlc02\\boarriekling"))
    } else if same_text(race, "Canine") || same_text(race, "Dog") || same_text(race, "Wolf") || same_text(race, "Fox") {
        Ok(String::from_str("canine"))
    } else if same_text(race, "Chaurus") || same_text(race, "Chaurus Reaper") {
        Ok(String::from_str("chaurus"))
    } else if same_text(race, "Chaurus Hunter") {
        Ok(String::from_str("dlc01\\chaurusflyer"))
    } else if same_text(race, "Chicken") {
        Ok(String::from_str("ambient\\chicken"))
    } else if same_text(race, "Cow") {
        Ok(String::from_str("cow"))
    } else if same_text(race, "Deer") {
        Ok(String::from_str("deer"))
    } else if same_text(race, "Dragon Priest") {
        Ok(String::from_str("dragonpriest"))
    } else if same_text(race, "Dragon") {
        Ok(String::from_str("dragon"))
    } else if same_text(race, "Draugr") {
        Ok(String::from_str("draugr"))
    } else if same_text(race, "Dwarven Ballista") {
        Ok(String::from_str("dlc02\\dwarvenballistacenturion"))
    } else if same_text(race, "Dwarven Centurion") {
        Ok(String::from_str("dwarvensteamcenturion"))
    } else if same_text(race, "Dwarven Sphere") {
        Ok(String::from_str("dwarvenspherecenturion"))
    } else if same_text(race, "Dwarven Spider") {
        Ok(String::from_str("dwarvenspider"))
    } else if same_text(race, "Falmer") {
        Ok(String::from_str("falmer"))
    } else if same_text(race, "Flame Atronach") {
        Ok(String::from_str("atronachflame"))
    } else if same_text(race, "Frost Atronach") {
        Ok(String::from_str("atronachfrost"))
    } else if same_text(race, "Storm Atronach") {
        Ok(String::from_str("atronachstorm"))
    } else if same_text(race, "Gargoyle") {
        Ok(String::from_str("dlc01\\vampirebrute"))
    } else if same_text(race, "Giant") {
        Ok(String::from_str("giant"))
    } else if same_text(race, "Goat") {
        Ok(String::from_str("goat"))
    } else if same_text(race, "Hagraven") {
        Ok(String::from_str("hagraven"))
    } else if same_text(race, "Horker") {
        Ok(String::from_str("horker"))
    } else if same_text(race, "Horse") {
        Ok(String::from_str("horse"))
    } else if same_text(race, "Ice Wraith") {
        Ok(String::from_str("icewraith"))
    } else if same_text(race, "Lurker") {
        Ok(String::from_str("dlc02\\benthiclurker"))
    } else if same_text(race, "Mammoth") {
        Ok(String::from_str("mammoth"))
    } else if same_text(race, "Mudcrab") {
        Ok(String::from_str("mudcrab"))
    } else if same_text(race, "Netch") {
        Ok(String::from_str("dlc02\\netch"))
    } else if same_text(race, "Rabbit") {
        Ok(String::from_str("ambient\\hare"))
    } else if same_text(race, "Riekling") {
        Ok(String::from_str("dlc02\\riekling"))
    } else if same_text(race, "Sabrecat") {
        Ok(String::from_str("sabrecat"))
    } else if same_text(race, "Seeker") {
        Ok(String::from_str("dlc02\\hmdaedra"))
    } else if same_text(race, "Skeever") {
        Ok(String::from_str("skeever"))
    } else if same_text(race, "Slaughterfish") {
        Ok(String::from_str("slaughterfish"))
    } else if same_text(race, "Spider") || same_text(race, "Large Spider") || same_text(race, "Giant Spider") {
        Ok(String::from_str("frostbitespider"))
    } else if same_text(race, "Spriggan") {
        Ok(String::from_str("spriggan"))
    } else if same_text(race, "Troll") {
        Ok(String::from_str("troll"))
    } else if same_text(race, "Vampire Lord") {
        Ok(String::from_str("vampirelord"))
    } else if same_text(race, "Werewolf") {
        Ok(String::from_str("werewolfbeast"))
    } else if same_text(race, "Wispmother") {
        Ok(String::from_str("wisp"))
    } else if same_text(race, "Wisp") {
        Ok(String::from_str("witchlight"))
    } else {
        Err(())
    }
}

/// The race key that a legacy race code stands for; `None` for a code that is
/// not known.
pub open spec fn legacy_racekey(code: Seq<char>) -> Option<Seq<char>> {
    if code == "AshHoppers"@ {
        Some("Ash Hopper"@)
    } else if code == "Bears"@ {
        Some("Bear"@)
    } else if code == "Boars"@ {
        Some("Boar"@)
    } else if code == "BoarsAny"@ {
        Some("Boar (Any)"@)
    } else if code == "BoarsMounted"@ {
        Some("Boar (Mounted)"@)
    } else if code == "Canines"@ {
        Some("Canine"@)
    } else if code == "Chaurus"@ {
        Some("Chaurus"@)
    } else if code == "ChaurusHunters"@ {
        Some("Chaurus Hunter"@)
    } else if code == "ChaurusReapers"@ {
        Some("Chaurus Reaper"@)
    } else if code == "Chickens"@ {
        Some("Chicken"@)
    } else if code == "Cows"@ {
        Some("Cow"@)
    } else if code == "Deers"@ {
        Some("Deer"@)
    } else if code == "Dogs"@ {
        Some("Dog"@)
    } else if code == "DragonPriests"@ {
        Some("Dragon Priest"@)
    } else if code == "Dragons"@ {
        Some("Dragon"@)
    } else if code == "Draugrs"@ {
        Some("Draugr"@)
    } else if code == "DwarvenBallistas"@ {
        Some("Dwarven Ballista"@)
    } else if code == "DwarvenCenturions"@ {
        Some("Dwarven Centurion"@)
    } else if code == "DwarvenSpheres"@ {
        Some("Dwarven Sphere"@)
    } else if code == "DwarvenSpiders"@ {
        Some("Dwarven Spider"@)
    } else if code == "Falmers"@ {
        Some("Falmer"@)
    } else if code == "FlameAtronach"@ {
        Some("Flame Atronach"@)
    } else if code == "Foxes"@ {
        Some("Fox"@)
    } else if code == "FrostAtronach"@ {
        Some("Frost Atronach"@)
    } else if code == "Gargoyles"@ {
        Some("Gargoyle"@)
    } else if code == "Giants"@ {
        Some("Giant"@)
    } else if code == "Goats"@ {
        Some("Goat"@)
    } else if code == "Hagravens"@ {
        Some("Hagraven"@)
    } else if code == "Horkers"@ {
        Some("Horker"@)
    } else if code == "Horses"@ {
        Some("Horse"@)
    } else if code == "IceWraiths"@ {
        Some("Ice Wraith"@)
    } else if code == "Lurkers"@ {
        Some("Lurker"@)
    } else if code == "Mammoths"@ {
        Some("Mammoth"@)
    } else if code == "Mudcrabs"@ {
        Some("Mudcrab"@)
    } else if code == "Netches"@ {
        Some("Netch"@)
    } else if code == "Rabbits"@ {
        Some("Rabbit"@)
    } else if code == "Rieklings"@ {
        Some("Riekling"@)
    } else if code == "SabreCats"@ {
        Some("Sabrecat"@)
    } else if code == "Seekers"@ {
        Some("Seeker"@)
    } else if code == "Skeevers"@ {
        Some("Skeever"@)
    } else if code == "Slaughterfishes"@ {
        Some("Slaughterfish"@)
    } else if code == "StormAtronach"@ {
        Some("Storm Atronach"@)
    } else if code == "Spiders"@ {
        Some("Spider"@)
    } else if code == "LargeSpiders"@ {
        Some("Large Spider"@)
    } else if code == "GiantSpiders"@ {
        Some("Giant Spider"@)
    } else if code == "Spriggans"@ {
        Some("Spriggan"@)
    } else if code == "Trolls"@ {
        Some("Troll"@)
    } else if code == "VampireLords"@ {
        Some("Vampire Lord"@)
    } else if code == "Werewolves"@ {
        Some("Werewolf"@)
    } else if code == "Wispmothers"@ {
        Some("Wispmother"@)
    } else if code == "Wisps"@ {
        Some("Wisp"@)
    } else if code == "Wolves"@ {
        Some("Wolf"@)
    } else {
        None
    }
}

/// Resolves a legacy race code to its race key, and fails on an unknown code
/// rather than choosing a default.
pub fn map_legacy_to_racekey(code: &str) -> (r: Result<String, ()>)
    ensures
        match legacy_racekey(code@) {
            Some(key) => r is Ok && r->Ok_0@ == key,
            None => r is Err,
        },
{
    if same_text(code, "AshHoppers") {
        Ok(String::from_str("Ash Hopper"))
    } else if same_text(code, "Bears") {
        Ok(String::from_str("Bear"))
    } else if same_text(code, "Boars") {
        Ok(String::from_str("Boar"))
    } else if same_text(code, "BoarsAny") {
        Ok(String::from_str("Boar (Any)"))
    } else if same_text(code, "BoarsMounted") {
        Ok(String::from_str("Boar (Mounted)"))
    } else if same_text(code, "Canines") {
        Ok(String::from_str("Canine"))
    } else if same_text(code, "Chaurus") {
        Ok(String::from_str("Chaurus"))
    } else if same_text(code, "ChaurusHunters") {
        Ok(String::from_str("Chaurus Hunter"))
    } else if same_text(code, "ChaurusReapers") {
        Ok(String::from_str("Chaurus Reaper"))
    } else if same_text(code, "Chickens") {
        Ok(String::from_str("Chicken"))
    } else if same_text(code, "Cows") {
        Ok(String::from_str("Cow"))
    } else if same_text(code, "Deers") {
        Ok(String::from_str("Deer"))
    } else if same_text(code, "Dogs") {
        Ok(String::from_str("Dog"))
    } else if same_text(code, "DragonPriests") {
        Ok(String::from_str("Dragon Priest"))
    } else if same_text(code, "Dragons") {
        Ok(String::from_str("Dragon"))
    } else if same_text(code, "Draugrs") {
        Ok(String::from_str("Draugr"))
    } else if same_text(code, "DwarvenBallistas") {
        Ok(String::from_str("Dwarven Ballista"))
    } else if same_text(code, "DwarvenCenturions") {
        Ok(String::from_str("Dwarven Centurion"))
    } else if same_text(code, "DwarvenSpheres") {
        Ok(String::from_str("Dwarven Sphere"))
    } else if same_text(code, "DwarvenSpiders") {
        Ok(String::from_str("Dwarven Spider"))
    } else if same_text(code, "Falmers") {
        Ok(String::from_str("Falmer"))
    } else if same_text(code, "FlameAtronach") {
        Ok(String::from_str("Flame Atronach"))
    } else if same_text(code, "Foxes") {
        Ok(String::from_str("Fox"))
    } else if same_text(code, "FrostAtronach") {
        Ok(String::from_str("Frost Atronach"))
    } else if same_text(code, "Gargoyles") {
        Ok(String::from_str("Gargoyle"))
    } else if same_text(code, "Giants") {
        Ok(String::from_str("Giant"))
    } else if same_text(code, "Goats") {
        Ok(String::from_str("Goat"))
    } else if same_text(code, "Hagravens") {
        Ok(String::from_str("Hagraven"))
    } else if same_text(code, "Horkers") {
        Ok(String::from_str("Horker"))
    } else if same_text(code, "Horses") {
        Ok(String::from_str("Horse"))
    } else if same_text(code, "IceWraiths") {
        Ok(String::from_str("Ice Wraith"))
    } else if same_text(code, "Lurkers") {
        Ok(String::from_str("Lurker"))
    } else if same_text(code, "Mammoths") {
        Ok(String::from_str("Mammoth"))
    } else if same_text(code, "Mudcrabs") {
        Ok(String::from_str("Mudcrab"))
    } else if same_text(code, "Netches") {
        Ok(String::from_str("Netch"))
    } else if same_text(code, "Rabbits") {
        Ok(String::from_str("Rabbit"))
    } else if same_text(code, "Rieklings") {
        Ok(String::from_str("Riekling"))
    } else if same_text(code, "SabreCats") {
        Ok(String::from_str("Sabrecat"))
    } else if same_text(code, "Seekers") {
        Ok(String::from_str("Seeker"))
    } else if same_text(code, "Skeevers") {
        Ok(String::from_str("Skeever"))
    } else if same_text(code, "Slaughterfishes") {
        Ok(String::from_str("Slaughterfish"))
    } else if same_text(code, "StormAtronach") {
        Ok(String::from_str("Storm Atronach"))
    } else if same_text(code, "Spiders") {
        Ok(String::from_str("Spider"))
    } else if same_text(code, "LargeSpiders") {
        Ok(String::from_str("Large Spider"))
    } else if same_text(code, "GiantSpiders") {
        Ok(String::from_str("Giant Spider"))
    } else if same_text(code, "Spriggans") {
        Ok(String::from_str("Spriggan"))
    } else if same_text(code, "Trolls") {
        Ok(String::from_str("Troll"))
    } else if same_text(code, "VampireLords") {
        Ok(String::from_str("Vampire Lord"))
    } else if same_text(code, "Werewolves") {
        Ok(String::from_str("Werewolf"))
    } else if same_text(code, "Wispmothers") {
        Ok(String::from_str("Wispmother"))
    } else if same_text(code, "Wisps") {
        Ok(String::from_str("Wisp"))
    } else if same_text(code, "Wolves") {
        Ok(String::from_str("Wolf"))
    } else {
        Err(())
    }
}

/// The race keys under which the lines of a position of `race` are listed, in
/// the order in which they are filled: the canine family shares its lines, the
/// boar variants collapse into one group, every other race stands alone.
pub open spec fn alias_group(race: Seq<char>) -> Seq<Seq<char>> {
    if race == "Canine"@ {
        seq!["Canine"@, "Dog"@, "Wolf"@]
    } else if race == "Dog"@ || race == "Wolf"@ {
        seq![race, "Canine"@]
    } else if race == "Boar"@ || race == "Boar (Mounted)"@ || race == "Boar (Any)"@ {
        seq!["Boar (Any)"@]
    } else {
        seq![race]
    }
}

/// The race keys of `alias_group`, as strings.
pub fn alias_targets(race: &str) -> (r: Vec<String>)
    ensures
        r.deep_view() == alias_group(race@),
{
    let mut r: Vec<String> = Vec::new();
    if same_text(race, "Canine") {
        r.push(String::from_str("Canine"));
        r.push(String::from_str("Dog"));
        r.push(String::from_str("Wolf"));
    } else if same_text(race, "Dog") || same_text(race, "Wolf") {
        r.push(String::from_str(race));
        r.push(String::from_str("Canine"));
    } else if same_text(race, "Boar") || same_text(race, "Boar (Mounted)") || same_text(
        race,
        "Boar (Any)",
    ) {
        r.push(String::from_str("Boar (Any)"));
    } else {
        r.push(String::from_str(race));
    }
    proof {
        assert(r.deep_view() =~= alias_group(race@));
    }
    r
}

} // verus!
