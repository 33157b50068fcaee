//! Where RetroArch keeps save states, and the file it reads for a slot.
use crate::path::{file_name, file_stem, join, parent, path_file_name, path_file_stem, path_join, path_parent};
use crate::layout::answered;
use crate::text::{decimal, push_decimal, push_str};
use vstd::prelude::*;

verus! {

/// Where RetroArch keeps states and how it sorts them, from `retroarch.cfg`.
#[derive(Debug, Clone, PartialEq, Eq)]
pub struct StateDirs {
    pub savestate_directory: String,
    /// `sort_savestates_enable`: a subdirectory named after the core.
    pub sort_by_core: bool,
    /// `sort_savestates_by_content_enable`: a subdirectory named after the ROM's directory.
    pub sort_by_content: bool,
    /// `savestates_in_content_dir`: next to the ROM, overriding the above.
    pub in_content_dir: bool,
}

/// The name of a slot's file: `<rom stem>.state` for slot 0,
/// `<rom stem>.stateN` otherwise (an empty stem when the ROM path has no
/// file name).
pub open spec fn slot_name(rom: Seq<char>, slot: u32) -> Seq<char> {
    let stem = match file_stem(rom) {
        Some(s) => s,
        None => Seq::empty(),
    };
    if slot == 0 {
        stem + ".state"@
    } else {
        stem + ".state"@ + decimal(slot as nat)
    }
}

/// The directory RetroArch reads a ROM's states from under a core: next
/// to the ROM when states live in the content directory, else the states
/// directory, or its subdirectory named after the core or after the ROM's
/// own directory, as the sorting settings say.
pub open spec fn slot_dir(
    dirs_root: Seq<char>,
    sort_by_core: bool,
    sort_by_content: bool,
    in_content_dir: bool,
    core_name: Seq<char>,
    rom: Seq<char>,
) -> Seq<char> {
    if in_content_dir {
        match parent(rom) {
            Some(p) => p,
            None => Seq::empty(),
        }
    } else if sort_by_core {
        join(dirs_root, core_name)
    } else if sort_by_content {
        let content_dir = match parent(rom) {
            Some(p) => match file_name(p) {
                Some(n) => n,
                None => Seq::empty(),
            },
            None => Seq::empty(),
        };
        join(dirs_root, content_dir)
    } else {
        dirs_root
    }
}

/// The file RetroArch reads for `--slot N` of `rom` under `core_name`.
pub open spec fn spec_slot_path(dirs: StateDirs, core_name: Seq<char>, rom: Seq<char>, slot: u32) -> Seq<char> {
    join(
        slot_dir(
            dirs.savestate_directory@,
            dirs.sort_by_core,
            dirs.sort_by_content,
            dirs.in_content_dir,
            core_name,
            rom,
        ),
        slot_name(rom, slot),
    )
}

/// The slot file's name: `<rom stem>.state` for slot 0, `<rom stem>.stateN` otherwise.
pub fn slot_file_name(rom: &str, slot: u32) -> (name: String)
    ensures
        name@ == slot_name(rom@, slot),
{
    let mut name = match path_file_stem(rom) {
        Some(s) => s,
        None => String::new(),
    };
    push_str(&mut name, ".state");
    if slot != 0 {
        push_decimal(&mut name, slot as u64);
    }
    name
}

/// The file RetroArch reads for `--slot N` of this ROM under this core:
/// `<dir>/<rom stem>.state` for slot 0, `<dir>/<rom stem>.stateN` otherwise.
pub fn slot_path(dirs: &StateDirs, core_name: &str, rom: &str, slot: u32) -> (p: String)
    ensures
        p@ == spec_slot_path(*dirs, core_name@, rom@, slot),
{
    let dir = if dirs.in_content_dir {
        match path_parent(rom) {
            Some(p) => p,
            None => String::new(),
        }
    } else if dirs.sort_by_core {
        path_join(dirs.savestate_directory.as_str(), core_name)
    } else if dirs.sort_by_content {
        let content_dir = match path_parent(rom) {
            Some(p) => match path_file_name(p.as_str()) {
                Some(n) => n,
                None => String::new(),
            },
            None => String::new(),
        };
        path_join(dirs.savestate_directory.as_str(), content_dir.as_str())
    } else {
        dirs.savestate_directory.clone()
    };
    let name = slot_file_name(rom, slot);
    path_join(dir.as_str(), name.as_str())
}

/// The directories `--slot N` of `rom` may be in when the core's name is
/// not known: next to the ROM when states live in the content directory,
/// else the states directory itself and then each of `subdirs`, its
/// immediate subdirectories (per-core and per-content sorting both add one
/// level).
pub open spec fn slot_candidates(dirs: StateDirs, rom: Seq<char>, subdirs: Seq<String>) -> Seq<
    Seq<char>,
> {
    if dirs.in_content_dir {
        seq![
            match parent(rom) {
                Some(p) => p,
                None => Seq::empty(),
            },
        ]
    } else {
        seq![dirs.savestate_directory@] + subdirs.map_values(|d: String| d@)
    }
}

/// Where `--slot N` of `rom` is, without knowing the core's name: the
/// slot's file in the first of [`slot_candidates`] for which `is_file`
/// answers `true`, every earlier one having answered `false`; `None` when
/// all answered `false`. `subdirs` are the states directory's immediate
/// subdirectories, as listed from disk (unused when states live next to
/// the ROM).
pub fn find_slot<P: Fn(&str) -> bool>(
    dirs: &StateDirs,
    rom: &str,
    slot: u32,
    subdirs: &Vec<String>,
    is_file: P,
) -> (r: Option<String>)
    requires
        forall|s: &str| is_file.requires((s,)),
    ensures
        ({
            let cands = slot_candidates(*dirs, rom@, subdirs@);
            let name = slot_name(rom@, slot);
            match r {
                Some(p) => exists|i: int|
                    0 <= i < cands.len() && p@ == join(cands[i], name) && answered(
                        is_file,
                        p@,
                        true,
                    ) && forall|j: int|
                        0 <= j < i ==> answered(is_file, #[trigger] join(cands[j], name), false),
                None => forall|j: int|
                    0 <= j < cands.len() ==> answered(is_file, #[trigger] join(cands[j], name), false),
            }
        }),
{
    let ghost cands = slot_candidates(*dirs, rom@, subdirs@);
    let name = slot_file_name(rom, slot);
    let mut dirs_to_try: Vec<String> = Vec::new();
    if dirs.in_content_dir {
        match path_parent(rom) {
            Some(p) => dirs_to_try.push(p),
            None => dirs_to_try.push(String::new()),
        }
    } else {
        dirs_to_try.push(dirs.savestate_directory.clone());
        let mut k: usize = 0;
        while k < subdirs.len()
            invariant
                0 <= k <= subdirs@.len(),
                dirs_to_try@.len() == k + 1,
                dirs_to_try@[0]@ == dirs.savestate_directory@,
                forall|j: int| 0 <= j < k ==> #[trigger] dirs_to_try@[j + 1]@ == subdirs@[j]@,
            decreases subdirs@.len() - k,
        {
            dirs_to_try.push(subdirs[k].clone());
            k = k + 1;
        }
        assert(cands =~= dirs_to_try@.map_values(|d: String| d@)) by {
            assert forall|j: int| 0 <= j < cands.len() implies cands[j] == dirs_to_try@[j]@ by {
                if j > 0 {
                    assert(dirs_to_try@[(j - 1) + 1]@ == subdirs@[j - 1]@);
                }
            }
        }
    }
    assert(cands =~= dirs_to_try@.map_values(|d: String| d@));
    let mut i: usize = 0;
    while i < dirs_to_try.len()
        invariant
            0 <= i <= dirs_to_try@.len(),
            cands == dirs_to_try@.map_values(|d: String| d@),
            cands == slot_candidates(*dirs, rom@, subdirs@),
            name@ == slot_name(rom@, slot),
            forall|s: &str| is_file.requires((s,)),
            forall|j: int|
                0 <= j < i ==> answered(is_file, #[trigger] join(cands[j], name@), false),
        decreases dirs_to_try@.len() - i,
    {
        let p = path_join(dirs_to_try[i].as_str(), name.as_str());
        let found = is_file(p.as_str());
        assert(answered(is_file, p@, found));
        if found {
            assert(cands[i as int] == dirs_to_try@[i as int]@);
            assert(p@ == join(cands[i as int], name@));
            return Some(p);
        }
        i = i + 1;
    }
    None
}

} // verus!
