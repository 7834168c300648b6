//! The files of a compiled project: where the registry goes, and the
//! directory and name of the list of each race.

use crate::codec::EncodeBinary;
use crate::compile::{
    collect_lines, positions_have_events, project_groups, project_has_events, GroupView, RaceGroup,
};
use crate::project::{CompileError, Project};
use crate::race::{map_race_to_folder, race_folder};
use crate::text::{copy_texts, same_text};
use vstd::prelude::*;

verus! {

/// The list of one race, ready to be written.
#[derive(Debug)]
pub struct ListFile {
    pub race: String,
    /// The directory of the file, relative to the output root.
    pub directory: String,
    pub file_name: String,
    pub lines: Vec<String>,
}

/// What a `ListFile` holds.
pub struct ListView {
    pub race: Seq<char>,
    pub directory: Seq<char>,
    pub file_name: Seq<char>,
    pub lines: Seq<Seq<char>>,
}

impl View for ListFile {
    type V = ListView;

    open spec fn view(&self) -> ListView {
        ListView {
            race: self.race@,
            directory: self.directory@,
            file_name: self.file_name@,
            lines: self.lines.deep_view(),
        }
    }
}

/// All that a compilation writes.
#[derive(Debug)]
pub struct Compiled {
    /// The directory of the registry file, relative to the output root.
    pub registry_directory: String,
    pub registry_file: String,
    pub registry: Vec<u8>,
    pub lists: Vec<ListFile>,
}

/// Whether `segment` is the top-level segment of `folder`: what stands before
/// its first backslash, or all of it where it has none.
pub open spec fn is_top_segment(folder: Seq<char>, segment: Seq<char>) -> bool {
    &&& segment.len() <= folder.len()
    &&& segment == folder.subrange(0, segment.len() as int)
    &&& !segment.contains('\\')
    &&& segment.len() < folder.len() ==> folder[segment.len() as int] == '\\'
}

/// The top-level segment of a folder.
pub fn top_segment(folder: &str) -> (segment: String)
    ensures
        is_top_segment(folder@, segment@),
{
    let n = folder.unicode_len();
    let mut i: usize = 0;
    let mut found = false;
    while i < n && !found
        invariant
            n == folder@.len(),
            i <= n,
            forall|j: int| 0 <= j < i ==> folder@[j] != '\\',
            found ==> i < n && folder@[i as int] == '\\',
        decreases n - i + (if found { 0int } else { 1int }),
    {
        if folder.get_char(i) == '\\' {
            found = true;
        } else {
            i += 1;
        }
    }
    let segment = String::from_str(folder.substring_char(0, i));
    proof {
        assert(segment@ =~= folder@.subrange(0, i as int));
        assert forall|j: int| 0 <= j < segment@.len() implies segment@[j] != '\\' by {
            assert(segment@[j] == folder@[j]);
        }
    }
    segment
}

/// Two top-level segments of one folder are the same.
pub proof fn lemma_top_segment_unique(folder: Seq<char>, a: Seq<char>, b: Seq<char>)
    requires
        is_top_segment(folder, a),
        is_top_segment(folder, b),
    ensures
        a == b,
{
    if a.len() < b.len() {
        assert(b[a.len() as int] == folder[a.len() as int]);
        assert(b.contains('\\'));
    } else if b.len() < a.len() {
        assert(a[b.len() as int] == folder[b.len() as int]);
        assert(a.contains('\\'));
    }
    assert(a =~= b);
}

/// The name of the list of `race`, whose folder has the top-level segment
/// `segment`: the character list has no suffix, the canine folder has one
/// list each for canines, dogs and wolves, and any other list is named by
/// the segment.
pub open spec fn list_file_name(pack_name: Seq<char>, segment: Seq<char>, race: Seq<char>) -> Seq<
    char,
> {
    if segment == "character"@ {
        "FNIS_"@ + pack_name + "_List.txt"@
    } else if segment == "canine"@ {
        if race == "Canine"@ {
            "FNIS_"@ + pack_name + "_canine_List.txt"@
        } else if race == "Dog"@ {
            "FNIS_"@ + pack_name + "_dog_List.txt"@
        } else {
            "FNIS_"@ + pack_name + "_wolf_List.txt"@
        }
    } else {
        "FNIS_"@ + pack_name + "_"@ + segment + "_List.txt"@
    }
}

/// Names the list of a race.
pub fn make_list_file_name(pack_name: &str, segment: &str, race: &str) -> (name: String)
    ensures
        name@ == list_file_name(pack_name@, segment@, race@),
{
    let mut name = String::from_str("FNIS_");
    name.append(pack_name);
    if same_text(segment, "character") {
        name.append("_List.txt");
    } else if same_text(segment, "canine") {
        if same_text(race, "Canine") {
            name.append("_canine_List.txt");
        } else if same_text(race, "Dog") {
            name.append("_dog_List.txt");
        } else {
            name.append("_wolf_List.txt");
        }
    } else {
        name.append("_");
        name.append(segment);
        name.append("_List.txt");
    }
    proof {
        assert(name@ =~= list_file_name(pack_name@, segment@, race@));
    }
    name
}

/// The directory of the lists of a folder, relative to the output root.
pub open spec fn list_directory(folder: Seq<char>, pack_name: Seq<char>) -> Seq<char> {
    "meshes\\actors\\"@ + folder + "\\animations\\"@ + pack_name
}

/// Whether `list` is the file of `group` in the pack `pack_name`.
pub open spec fn is_list_of(list: ListView, group: GroupView, pack_name: Seq<char>) -> bool {
    &&& list.race == group.race
    &&& list.lines == group.lines
    &&& race_folder(group.race) is Some
    &&& list.directory == list_directory(race_folder(group.race)->Some_0, pack_name)
    &&& exists|segment: Seq<char>|
        is_top_segment(race_folder(group.race)->Some_0, segment) && list.file_name
            == list_file_name(pack_name, segment, group.race)
}

/// Whether `e` says that `race` has no folder.
pub open spec fn names_race(e: CompileError, race: Seq<char>) -> bool {
    match e {
        CompileError::UnrecognizedRaceKey(key) => key@ == race,
        CompileError::EncodingInvariantViolation => false,
    }
}

/// The file of one group; an error where its race has no folder.
pub fn plan_list(group: &RaceGroup, pack_name: &str) -> (r: Result<ListFile, CompileError>)
    ensures
        match r {
            Ok(list) => is_list_of(list@, group@, pack_name@),
            Err(e) => race_folder(group.race@) is None && names_race(e, group.race@),
        },
{
    match map_race_to_folder(group.race.as_str()) {
        Ok(folder) => {
            let segment = top_segment(folder.as_str());
            let mut directory = String::from_str("meshes\\actors\\");
            directory.append(folder.as_str());
            directory.append("\\animations\\");
            directory.append(pack_name);
            let list = ListFile {
                race: group.race.clone(),
                directory,
                file_name: make_list_file_name(pack_name, segment.as_str(), group.race.as_str()),
                lines: copy_texts(&group.lines),
            };
            proof {
                assert(list@.directory =~= list_directory(folder@, pack_name@));
                assert(is_top_segment(race_folder(group@.race)->Some_0, segment@));
            }
            Ok(list)
        },
        Err(_) => Err(CompileError::UnrecognizedRaceKey(group.race.clone())),
    }
}

/// The files of all groups, in their order. The first group whose race has no
/// folder is an error, and no file is planned.
pub fn plan_lists(groups: &Vec<RaceGroup>, pack_name: &str) -> (r: Result<
    Vec<ListFile>,
    CompileError,
>)
    ensures
        match r {
            Ok(lists) => lists@.len() == groups@.len() && forall|i: int|
                0 <= i < groups@.len() ==> is_list_of(
                    (#[trigger] lists@[i])@,
                    groups@[i]@,
                    pack_name@,
                ),
            Err(e) => exists|i: int|
                0 <= i < groups@.len() && race_folder(#[trigger] groups@[i].race@) is None && (
                forall|j: int| 0 <= j < i ==> race_folder(#[trigger] groups@[j].race@) is Some)
                    && names_race(e, groups@[i].race@),
        },
{
    let mut lists: Vec<ListFile> = Vec::new();
    let mut i: usize = 0;
    while i < groups.len()
        invariant
            i <= groups@.len(),
            lists@.len() == i,
            forall|j: int| 0 <= j < i ==> is_list_of((#[trigger] lists@[j])@, groups@[j]@, pack_name@),
        decreases groups@.len() - i,
    {
        match plan_list(&groups[i], pack_name) {
            Ok(list) => {
                lists.push(list);
            },
            Err(e) => {
                proof {
                    assert(race_folder(groups@[i as int].race@) is None);
                    assert forall|j: int| 0 <= j < i implies race_folder(
                        #[trigger] groups@[j].race@,
                    ) is Some by {
                        assert(is_list_of(lists@[j]@, groups@[j]@, pack_name@));
                    }
                }
                return Err(e);
            },
        }
        i += 1;
    }
    Ok(lists)
}

/// The directory of the registry file, relative to the output root.
pub open spec fn registry_directory() -> Seq<char> {
    "SKSE\\SexLab\\Registry\\"@
}

/// The name of the registry file: the pack's name, or the namespace token
/// where the pack has no name, with the registry's extension.
pub open spec fn registry_file_name(project: &Project) -> Seq<char> {
    if project.pack_name@.len() == 0 {
        project.prefix_hash@ + ".slr"@
    } else {
        project.pack_name@ + ".slr"@
    }
}

/// Whether `r` is what compiling the project gives: the registry and the
/// list of each group, or the error of an empty scene, or else that of the
/// first group whose race has no folder.
pub open spec fn is_compilation(
    project: &Project,
    blank_prefix: bool,
    r: Result<Compiled, CompileError>,
) -> bool {
    match r {
        Ok(c) => {
            &&& !project.has_empty_scene()
            &&& c.registry@ == project.encoding()
            &&& c.registry_directory@ == registry_directory()
            &&& c.registry_file@ == registry_file_name(project)
            &&& c.lists@.len() == project_groups(project, blank_prefix).groups.len()
            &&& forall|i: int|
                0 <= i < c.lists@.len() ==> is_list_of(
                    (#[trigger] c.lists@[i])@,
                    project_groups(project, blank_prefix).groups[i],
                    project.pack_name@,
                )
        },
        Err(CompileError::EncodingInvariantViolation) => project.has_empty_scene(),
        Err(CompileError::UnrecognizedRaceKey(key)) => !project.has_empty_scene() && exists|
            i: int,
        |
            0 <= i < project_groups(project, blank_prefix).groups.len() && (
            #[trigger] project_groups(project, blank_prefix).groups[i]).race == key@
                && race_folder(key@) is None && forall|j: int|
                0 <= j < i ==> race_folder(
                    (#[trigger] project_groups(project, blank_prefix).groups[j]).race,
                ) is Some,
    }
}

impl Project {
    /// Compiles the project: the registry file, then the lists of every race.
    /// Nothing is compiled where a scene without warnings has no stage, or where
    /// the race of a group has no folder.
    pub fn build(&self, blank_prefix: bool) -> (r: Result<Compiled, CompileError>)
        requires
            self.fits(),
            positions_have_events(self),
        ensures
            is_compilation(self, blank_prefix, r),
    {
        let registry = match self.encode() {
            Ok(bytes) => bytes,
            Err(e) => {
                return Err(e);
            },
        };
        let mut registry_file = if self.pack_name.as_str().is_empty() {
            self.prefix_hash.clone()
        } else {
            self.pack_name.clone()
        };
        registry_file.append(".slr");
        let groups = collect_lines(self, blank_prefix);
        let lists = match plan_lists(&groups.groups, self.pack_name.as_str()) {
            Ok(lists) => lists,
            Err(e) => {
                proof {
                    let i = choose|i: int|
                        0 <= i < groups.groups@.len() && race_folder(
                            #[trigger] groups.groups@[i].race@,
                        ) is None && (forall|j: int|
                            0 <= j < i ==> race_folder(#[trigger] groups.groups@[j].race@) is Some)
                            && names_race(e, groups.groups@[i].race@);
                    assert(groups@.groups[i] == groups.groups@[i]@);
                    assert forall|j: int| 0 <= j < i implies race_folder(
                        (#[trigger] project_groups(self, blank_prefix).groups[j]).race,
                    ) is Some by {
                        assert(groups@.groups[j] == groups.groups@[j]@);
                        assert(race_folder(groups.groups@[j].race@) is Some);
                    }
                }
                return Err(e);
            },
        };
        proof {
            assert forall|i: int| 0 <= i < lists@.len() implies is_list_of(
                (#[trigger] lists@[i])@,
                project_groups(self, blank_prefix).groups[i],
                self.pack_name@,
            ) by {
                assert(groups@.groups[i] == groups.groups@[i]@);
            }
        }
        Ok(
            Compiled {
                registry_directory: String::from_str("SKSE\\SexLab\\Registry\\"),
                registry_file,
                registry,
                lists,
            },
        )
    }

    /// Compiles the project where it can be compiled at all: `None` where a
    /// position of a scene without warnings has no event or the registry would
    /// not fit a `usize`, else what `build` gives.
    pub fn checked_build(&self, blank_prefix: bool) -> (r: Option<Result<Compiled, CompileError>>)
        ensures
            r is Some <==> self.fits() && positions_have_events(self),
            r is Some ==> is_compilation(self, blank_prefix, r->Some_0),
    {
        if self.fitting_size().is_some() && project_has_events(self) {
            Some(self.build(blank_prefix))
        } else {
            None
        }
    }
}

} // verus!
