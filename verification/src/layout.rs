//! Where RetroArch keeps things on macOS, and how the paths a run infers
//! (a bare core name, a save-state slot, the system directory) are
//! resolved against that layout: the defaults first, `retroarch.cfg` only
//! when a default candidate is missing.
use crate::config::{expand_tilde, read_all, spec_read_all, tilde_expanded};
use crate::core_path::{
    core_answers, core_candidates, core_not_found, core_said, resolve_core, spec_core_choice,
    view_path_result,
};
pub use crate::fs::answered;
use crate::fs::{dir_at, file_at, is_dir, is_file};
use crate::retroarch::cfgfile::{
    cfg_text, lemma_written_settings_read_back, plain_setting, settings_map,
};
use crate::state::{slot_path, spec_slot_path, StateDirs};
use crate::text::{push_str, str_eq};
use vstd::prelude::*;

verus! {

/// Where RetroArch keeps the things a hosted core needs. The values come
/// from RetroArch's Darwin platform driver: user documents under
/// `~/Documents/RetroArch`, hidden app data under
/// `~/Library/Application Support/RetroArch`.
#[derive(Debug, Clone, PartialEq, Eq)]
pub struct RetroArchDirs {
    pub libretro_dir: String,
    pub system_dir: String,
    pub states: StateDirs,
}

/// `home` as a sequence of characters.
pub open spec fn home_view(home: Option<&str>) -> Option<Seq<char>> {
    match home {
        Some(h) => Some(h@),
        None => None,
    }
}

/// The default cores directory.
pub open spec fn default_libretro(home: Option<Seq<char>>) -> Seq<char> {
    tilde_expanded("~/Library/Application Support/RetroArch/cores"@, home)
}

/// The default system directory.
pub open spec fn default_system(home: Option<Seq<char>>) -> Seq<char> {
    tilde_expanded("~/Documents/RetroArch/system"@, home)
}

/// The default states directory.
pub open spec fn default_states(home: Option<Seq<char>>) -> Seq<char> {
    tilde_expanded("~/Documents/RetroArch/states"@, home)
}

/// Whether `d` is RetroArch's macOS layout under `home`, with states sorted
/// into per-core folders.
pub open spec fn is_default_layout(d: RetroArchDirs, home: Option<Seq<char>>) -> bool {
    &&& d.libretro_dir@ == default_libretro(home)
    &&& d.system_dir@ == default_system(home)
    &&& d.states.savestate_directory@ == default_states(home)
    &&& d.states.sort_by_core
    &&& !d.states.sort_by_content
    &&& !d.states.in_content_dir
}

/// A directory a config names for `key`, `~` expanded, or `default`.
pub open spec fn dir_setting(
    m: Map<Seq<char>, Seq<char>>,
    key: Seq<char>,
    home: Option<Seq<char>>,
    default: Seq<char>,
) -> Seq<char> {
    if m.dom().contains(key) {
        tilde_expanded(m[key], home)
    } else {
        default
    }
}

/// A flag a config sets for `key` (`true` only when it says exactly
/// `true`), or `default`.
pub open spec fn flag_setting(m: Map<Seq<char>, Seq<char>>, key: Seq<char>, default: bool) -> bool {
    if m.dom().contains(key) {
        m[key] == "true"@
    } else {
        default
    }
}

/// Whether `d` is the layout the config `text` names, the defaults under
/// `home` filling any key it leaves out.
pub open spec fn is_config_layout(d: RetroArchDirs, text: Seq<char>, home: Option<Seq<char>>) -> bool {
    let m = spec_read_all(text);
    &&& d.libretro_dir@ == dir_setting(m, "libretro_directory"@, home, default_libretro(home))
    &&& d.system_dir@ == dir_setting(m, "system_directory"@, home, default_system(home))
    &&& d.states.savestate_directory@ == dir_setting(
        m,
        "savestate_directory"@,
        home,
        default_states(home),
    )
    &&& d.states.sort_by_core == flag_setting(m, "sort_savestates_enable"@, true)
    &&& d.states.sort_by_content == flag_setting(m, "sort_savestates_by_content_enable"@, false)
    &&& d.states.in_content_dir == flag_setting(m, "savestates_in_content_dir"@, false)
}

/// Which directory of a layout a lookup wants.
#[derive(Debug, Clone, PartialEq, Eq)]
pub enum Pick {
    /// The cores directory.
    Libretro,
    /// The system (BIOS) directory.
    System,
    /// The states directory.
    States,
    /// The file RetroArch reads for a save-state slot of a ROM under a
    /// core, by the layout's states settings.
    Slot { core_name: String, rom: String, slot: u32 },
}

/// The directory `which` of `d`.
pub open spec fn picked(d: RetroArchDirs, which: Pick) -> Seq<char> {
    match which {
        Pick::Libretro => d.libretro_dir@,
        Pick::System => d.system_dir@,
        Pick::States => d.states.savestate_directory@,
        Pick::Slot { core_name, rom, slot } => spec_slot_path(d.states, core_name@, rom@, slot),
    }
}

/// A copy of `s`, equal to it.
fn copy_states(s: &StateDirs) -> (r: StateDirs)
    ensures
        r == *s,
{
    StateDirs {
        savestate_directory: s.savestate_directory.clone(),
        sort_by_core: s.sort_by_core,
        sort_by_content: s.sort_by_content,
        in_content_dir: s.in_content_dir,
    }
}

impl RetroArchDirs {
    /// RetroArch's macOS defaults under `home` (`$HOME`), with states
    /// sorted into per-core folders.
    pub fn defaults(home: Option<&str>) -> (d: RetroArchDirs)
        ensures
            is_default_layout(d, home_view(home)),
    {
        RetroArchDirs {
            libretro_dir: expand_tilde("~/Library/Application Support/RetroArch/cores", home),
            system_dir: expand_tilde("~/Documents/RetroArch/system", home),
            states: StateDirs {
                savestate_directory: expand_tilde("~/Documents/RetroArch/states", home),
                sort_by_core: true,
                sort_by_content: false,
                in_content_dir: false,
            },
        }
    }

    /// The directories a `retroarch.cfg` names, `~` expanded against
    /// `home`, with the defaults filling any key it leaves out.
    pub fn from_config(text: &str, home: Option<&str>) -> (d: RetroArchDirs)
        ensures
            is_config_layout(d, text@, home_view(home)),
    {
        let keys = read_all(text);
        let base = RetroArchDirs::defaults(home);
        let libretro_dir = match keys.get("libretro_directory") {
            Some(v) => expand_tilde(v.as_str(), home),
            None => base.libretro_dir,
        };
        let system_dir = match keys.get("system_directory") {
            Some(v) => expand_tilde(v.as_str(), home),
            None => base.system_dir,
        };
        let savestate_directory = match keys.get("savestate_directory") {
            Some(v) => expand_tilde(v.as_str(), home),
            None => base.states.savestate_directory,
        };
        let sort_by_core = match keys.get("sort_savestates_enable") {
            Some(v) => str_eq(v.as_str(), "true"),
            None => base.states.sort_by_core,
        };
        let sort_by_content = match keys.get("sort_savestates_by_content_enable") {
            Some(v) => str_eq(v.as_str(), "true"),
            None => base.states.sort_by_content,
        };
        let in_content_dir = match keys.get("savestates_in_content_dir") {
            Some(v) => str_eq(v.as_str(), "true"),
            None => base.states.in_content_dir,
        };
        RetroArchDirs {
            libretro_dir,
            system_dir,
            states: StateDirs { savestate_directory, sort_by_core, sort_by_content, in_content_dir },
        }
    }

    /// The directory `which` of this layout.
    pub fn pick(&self, which: &Pick) -> (p: String)
        ensures
            p@ == picked(*self, *which),
    {
        match which {
            Pick::Libretro => self.libretro_dir.clone(),
            Pick::System => self.system_dir.clone(),
            Pick::States => self.states.savestate_directory.clone(),
            Pick::Slot { core_name, rom, slot } => slot_path(&self.states, core_name.as_str(), rom.as_str(), *slot),
        }
    }

    /// A copy of this layout, equal to it.
    pub fn duplicate(&self) -> (r: RetroArchDirs)
        ensures
            r == *self,
    {
        RetroArchDirs {
            libretro_dir: self.libretro_dir.clone(),
            system_dir: self.system_dir.clone(),
            states: copy_states(&self.states),
        }
    }
}

/// What [`DirResolver::locate`] found.
#[derive(Debug, Clone, PartialEq, Eq)]
pub enum Located {
    /// The first candidate that exists.
    Found(String),
    /// No candidate exists; every one tried, the default first.
    Missing(Vec<String>),
}

/// The note a verbose resolver records when it takes a path from the
/// config rather than the default.
pub open spec fn fallback_note(what: Seq<char>, default: Seq<char>, used: Seq<char>) -> Seq<char> {
    what + ": not at the default "@ + default + "; using "@ + used + " from retroarch.cfg"@
}

/// What a lookup of `which` did, from resolver `before` to resolver `after`,
/// answering `r`: the default candidate when `present` said it exists,
/// leaving the config unread; otherwise the config, read now if it had
/// not been, and its candidate when that differs and exists (noted when
/// verbose), or every candidate tried, the default first.
pub open spec fn layout_outcome<L: FnOnce() -> Option<String>, E: Fn(&str) -> bool>(
    before: DirResolver<L>,
    after: DirResolver<L>,
    what: Seq<char>,
    which: Pick,
    present: E,
    r: Result<RetroArchDirs, Vec<String>>,
) -> bool {
    let d = before.default_layout();
    let c0 = picked(d, which);
    &&& after.default_layout() == d
    &&& after.home_dir() == before.home_dir()
    &&& after.is_verbose() == before.is_verbose()
    &&& if answered(present, c0, true) && r == Ok::<RetroArchDirs, Vec<String>>(d) {
        // The default exists: the config is left unread.
        &&& after.unread() == before.unread()
        &&& after.config_layout() == before.config_layout()
        &&& after.noted() == before.noted()
    } else {
        &&& answered(present, c0, false)
        &&& !after.unread()
        &&& (before.unread() ==> exists|t: Option<String>|
            #[trigger] before.reader().ensures((), t) && match t {
                Some(text) => after.config_layout() matches Some(c)
                    && is_config_layout(c, text@, before.home_dir()),
                None => after.config_layout() is None,
            })
        &&& (!before.unread() ==> after.config_layout()
            == before.config_layout())
        &&& match after.config_layout() {
            Some(cfg) => {
                let c1 = picked(cfg, which);
                if c1 != c0 && answered(present, c1, true) && r == Ok::<
                    RetroArchDirs,
                    Vec<String>,
                >(cfg) {
                    after.noted() == if before.is_verbose() {
                        before.noted().push(fallback_note(what, c0, c1))
                    } else {
                        before.noted()
                    }
                } else {
                    &&& after.noted() == before.noted()
                    &&& r matches Err(tried)
                    &&& if c1 == c0 {
                        tried@.map_values(|p: String| p@) == seq![c0]
                    } else {
                        &&& answered(present, c1, false)
                        &&& tried@.map_values(|p: String| p@) == seq![c0, c1]
                    }
                }
            },
            None => {
                &&& after.noted() == before.noted()
                &&& r matches Err(tried)
                &&& tried@.map_values(|p: String| p@) == seq![c0]
            },
        }
    }
}

/// The candidates a failed lookup tried, by their characters.
pub open spec fn tried_view(r: Result<RetroArchDirs, Vec<String>>) -> Result<RetroArchDirs, Seq<Seq<char>>> {
    match r {
        Ok(d) => Ok(d),
        Err(t) => Err(t@.map_values(|p: String| p@)),
    }
}

/// The question a lookup asks of each candidate directory.
pub enum Presence {
    /// Whether the candidate is a file ([`crate::fs::is_file`]).
    File,
    /// Whether the candidate is a directory ([`crate::fs::is_dir`]).
    Dir,
    /// Whether the core argument resolves in the candidate
    /// ([`resolve_core`]).
    Core(Seq<char>),
}

/// Whether asking `test` of the path `p` answered `b`.
pub open spec fn presence_said(test: Presence, p: Seq<char>, b: bool) -> bool {
    match test {
        Presence::File => answered(is_file, p, b),
        Presence::Dir => answered(is_dir, p, b),
        Presence::Core(arg) => core_said(arg, p, b),
    }
}

/// What a lookup of `which` did, from `before` to `after`, answering `r`,
/// when asking `test` answered `a0` of the default candidate and `a1` of
/// the config's (asked only when the default is absent, a config was
/// found and its candidate differs; `false` when not asked): the default
/// layout when `a0`, leaving the config unread; otherwise the config, read
/// now if it had not been, and its layout when its candidate differs and
/// `a1` (noted when verbose), or the candidates tried, the default first.
pub open spec fn outcome_for_answers<L: FnOnce() -> Option<String>>(
    before: DirResolver<L>,
    after: DirResolver<L>,
    what: Seq<char>,
    which: Pick,
    test: Presence,
    a0: bool,
    a1: bool,
    r: Result<RetroArchDirs, Seq<Seq<char>>>,
) -> bool {
    let d = before.default_layout();
    let c0 = picked(d, which);
    &&& after.default_layout() == d
    &&& after.home_dir() == before.home_dir()
    &&& after.is_verbose() == before.is_verbose()
    &&& presence_said(test, c0, a0)
    &&& if a0 {
        &&& !a1
        &&& r == Ok::<RetroArchDirs, Seq<Seq<char>>>(d)
        &&& after.unread() == before.unread()
        &&& after.config_layout() == before.config_layout()
        &&& after.noted() == before.noted()
    } else {
        &&& !after.unread()
        &&& (before.unread() ==> exists|t: Option<String>|
            #[trigger] before.reader().ensures((), t) && match t {
                Some(text) => after.config_layout() matches Some(c)
                    && is_config_layout(c, text@, before.home_dir()),
                None => after.config_layout() is None,
            })
        &&& (!before.unread() ==> after.config_layout() == before.config_layout())
        &&& match after.config_layout() {
            Some(cfg) => {
                let c1 = picked(cfg, which);
                &&& (c1 != c0 ==> presence_said(test, c1, a1))
                &&& (c1 == c0 ==> !a1)
                &&& if c1 != c0 && a1 {
                    &&& r == Ok::<RetroArchDirs, Seq<Seq<char>>>(cfg)
                    &&& after.noted() == if before.is_verbose() {
                        before.noted().push(fallback_note(what, c0, c1))
                    } else {
                        before.noted()
                    }
                } else {
                    &&& after.noted() == before.noted()
                    &&& r == Err::<RetroArchDirs, Seq<Seq<char>>>(
                        if c1 == c0 {
                            seq![c0]
                        } else {
                            seq![c0, c1]
                        },
                    )
                }
            },
            None => {
                &&& !a1
                &&& after.noted() == before.noted()
                &&& r == Err::<RetroArchDirs, Seq<Seq<char>>>(seq![c0])
            },
        }
    }
}

/// A lookup whose presence test answers as `test` does is the lookup for
/// what `test` answered of its candidates.
pub proof fn lemma_outcome_has_answers<L: FnOnce() -> Option<String>, E: Fn(&str) -> bool>(
    before: DirResolver<L>,
    after: DirResolver<L>,
    what: Seq<char>,
    which: Pick,
    present: E,
    test: Presence,
    r: Result<RetroArchDirs, Vec<String>>,
)
    requires
        layout_outcome(before, after, what, which, present, r),
        forall|s: &str, b: bool| #[trigger] present.ensures((s,), b) ==> presence_said(test, s@, b),
    ensures
        exists|a0: bool, a1: bool|
            outcome_for_answers(before, after, what, which, test, a0, a1, tried_view(r)),
{
    let d = before.default_layout();
    let c0 = picked(d, which);
    if answered(present, c0, true) && r == Ok::<RetroArchDirs, Vec<String>>(d) {
        assert(outcome_for_answers(before, after, what, which, test, true, false, tried_view(r)));
    } else {
        assert(presence_said(test, c0, false));
        match after.config_layout() {
            Some(cfg) => {
                let c1 = picked(cfg, which);
                if c1 != c0 && answered(present, c1, true) && r == Ok::<RetroArchDirs, Vec<String>>(cfg) {
                    assert(presence_said(test, c1, true));
                    assert(outcome_for_answers(before, after, what, which, test, false, true, tried_view(r)));
                } else {
                    if c1 != c0 {
                        assert(presence_said(test, c1, false));
                    }
                    assert(outcome_for_answers(before, after, what, which, test, false, false, tried_view(r)));
                }
            },
            None => {
                assert(outcome_for_answers(before, after, what, which, test, false, false, tried_view(r)));
            },
        }
    }
}

/// Resolves paths inferred from RetroArch's layout: the defaults are tried
/// first, and `retroarch.cfg` is parsed (once, lazily) only when a default
/// candidate does not exist. A machine without RetroArch therefore works
/// with the default layout and never needs a config file.
pub struct DirResolver<L: FnOnce() -> Option<String>> {
    defaults: RetroArchDirs,
    /// `$HOME`, for the `~` in the config's paths.
    home: Option<String>,
    /// Reads the config text (or `None` when there is no file); taken on
    /// first use, so it runs at most once.
    load_config: Option<L>,
    /// The parsed config once `load_config` has run and found a file.
    config: Option<RetroArchDirs>,
    verbose: bool,
    /// What a verbose resolver has to report, in order.
    notes: Vec<String>,
}

impl<L: FnOnce() -> Option<String>> DirResolver<L> {
    /// The reader can be called while it has not been.
    #[verifier::type_invariant]
    spec fn loader_ready(self) -> bool {
        self.load_config matches Some(l) ==> l.requires(())
    }

    /// The default layout.
    pub closed spec fn default_layout(self) -> RetroArchDirs {
        self.defaults
    }

    /// `$HOME` as the resolver expands `~` with it.
    pub closed spec fn home_dir(self) -> Option<Seq<char>> {
        match self.home {
            Some(h) => Some(h@),
            None => None,
        }
    }

    /// Whether the config has not been read yet.
    pub closed spec fn unread(self) -> bool {
        self.load_config is Some
    }

    /// The config reader, while it has not run.
    pub closed spec fn reader(self) -> L {
        self.load_config->Some_0
    }

    /// The config's layout, once read and found.
    pub closed spec fn config_layout(self) -> Option<RetroArchDirs> {
        self.config
    }

    /// Whether notes are recorded.
    pub closed spec fn is_verbose(self) -> bool {
        self.verbose
    }

    /// The notes recorded so far.
    pub closed spec fn noted(self) -> Seq<Seq<char>> {
        self.notes@.map_values(|n: String| n@)
    }

    /// A resolver over `defaults` that reads the config with
    /// `load_config`, expanding its `~` against `home`, when it first
    /// needs it.
    pub fn new(defaults: RetroArchDirs, load_config: L, verbose: bool, home: Option<String>) -> (r: DirResolver<L>)
        requires
            load_config.requires(()),
        ensures
            r.default_layout() == defaults,
            r.home_dir() == match home {
                Some(h) => Some(h@),
                None => None::<Seq<char>>,
            },
            r.unread(),
            r.reader() == load_config,
            r.config_layout() is None,
            r.is_verbose() == verbose,
            r.noted() == Seq::<Seq<char>>::empty(),
    {
        let r = DirResolver {
            defaults,
            home,
            load_config: Some(load_config),
            config: None,
            verbose,
            notes: Vec::new(),
        };
        assert(r.noted() =~= Seq::<Seq<char>>::empty());
        r
    }

    /// The notes recorded so far, in order.
    pub fn notes(&self) -> (n: &Vec<String>)
        ensures
            n@.map_values(|s: String| s@) == self.noted(),
    {
        &self.notes
    }

    /// Reads and parses the config, if it has not been read.
    fn load(&mut self)
        ensures
            !final(self).unread(),
            final(self).default_layout() == old(self).default_layout(),
            final(self).home_dir() == old(self).home_dir(),
            final(self).is_verbose() == old(self).is_verbose(),
            final(self).noted() == old(self).noted(),
            old(self).unread() ==> exists|t: Option<String>|
                #[trigger] old(self).reader().ensures((), t) && match t {
                    Some(text) => final(self).config_layout() matches Some(c) && is_config_layout(
                        c,
                        text@,
                        old(self).home_dir(),
                    ),
                    None => final(self).config_layout() is None,
                },
            !old(self).unread() ==> final(self).config_layout() == old(self).config_layout(),
    {
        proof {
            use_type_invariant(&*self);
        }
        let mut taken: Option<L> = None;
        std::mem::swap(&mut taken, &mut self.load_config);
        match taken {
            Some(load) => {
                let text = load();
                let home = match &self.home {
                    Some(h) => Some(h.as_str()),
                    None => None,
                };
                self.config = match &text {
                    Some(t) => Some(RetroArchDirs::from_config(t.as_str(), home)),
                    None => None,
                };
                assert(old(self).reader().ensures((), text));
            },
            None => {},
        }
    }

    /// Like [`DirResolver::locate`], but returns the whole layout whose
    /// candidate exists, for a caller that needs more of it than the one
    /// path (how states are sorted, say). `Err` carries every candidate
    /// tried, the default first.
    pub fn locate_layout<E: Fn(&str) -> bool>(&mut self, what: &str, which: &Pick, present: E) -> (r: Result<RetroArchDirs, Vec<String>>)
        requires
            forall|s: &str| present.requires((s,)),
        ensures
            layout_outcome(*old(self), *final(self), what@, *which, present, r),
    {
        let candidate = self.defaults.pick(which);
        if present(candidate.as_str()) {
            return Ok(self.defaults.duplicate());
        }
        let mut tried: Vec<String> = Vec::new();
        tried.push(candidate);
        self.load();
        match &self.config {
            Some(cfg) => {
                let c1 = cfg.pick(which);
                let differs = !str_eq(c1.as_str(), tried[0].as_str());
                if differs && present(c1.as_str()) {
                    if self.verbose {
                        let mut note = what.to_string();
                        push_str(&mut note, ": not at the default ");
                        push_str(&mut note, tried[0].as_str());
                        push_str(&mut note, "; using ");
                        push_str(&mut note, c1.as_str());
                        push_str(&mut note, " from retroarch.cfg");
                        let ghost before = self.notes@;
                        let mut notes: Vec<String> = Vec::new();
                        std::mem::swap(&mut notes, &mut self.notes);
                        notes.push(note);
                        self.notes = notes;
                        assert(self.notes@.map_values(|n: String| n@) =~= before.map_values(
                            |n: String| n@,
                        ).push(fallback_note(what@, tried@[0]@, c1@)));
                    }
                    return Ok(cfg.duplicate());
                }
                if differs {
                    tried.push(c1);
                    assert(tried@.map_values(|p: String| p@) =~= seq![tried@[0]@, tried@[1]@]);
                } else {
                    assert(tried@.map_values(|p: String| p@) =~= seq![tried@[0]@]);
                }
                Err(tried)
            },
            None => {
                assert(tried@.map_values(|p: String| p@) =~= seq![tried@[0]@]);
                Err(tried)
            },
        }
    }

    /// `pick` names the candidate directory of a layout; `present` says
    /// whether a candidate is usable. The default layout is tried first,
    /// then the config's, read on first need.
    pub fn locate<E: Fn(&str) -> bool>(&mut self, what: &str, which: &Pick, present: E) -> (found: Located)
        requires
            forall|s: &str| present.requires((s,)),
        ensures
            match found {
                Located::Found(p) => exists|d: RetroArchDirs|
                    layout_outcome(*old(self), *final(self), what@, *which, present, Ok(d))
                        && p@ == picked(d, *which),
                Located::Missing(tried) => layout_outcome(
                    *old(self),
                    *final(self),
                    what@,
                    *which,
                    present,
                    Err(tried),
                ),
            },
    {
        match self.locate_layout(what, which, present) {
            Ok(layout) => Located::Found(layout.pick(which)),
            Err(tried) => Located::Missing(tried),
        }
    }

    /// The candidate directory `which` of the default layout or of the
    /// config's, as this resolver holds them.
    pub open spec fn known_dir(self, which: Pick, dir: Seq<char>) -> bool {
        dir == picked(self.default_layout(), which) || (self.config_layout() matches Some(c)
            && dir == picked(c, which))
    }

    /// A core path as given, or a bare name found in the cores directory:
    /// the default location first, `retroarch.cfg`'s `libretro_directory`
    /// only if the default has no such core. What comes back is
    /// [`core_lookup`] of what the disk answered: whether the argument is
    /// a file, and, when it is not, what the search of the cores
    /// directories found.
    pub fn find_core(&mut self, core_arg: &str) -> (r: Result<String, String>)
        ensures
            final(self).default_layout() == old(self).default_layout(),
            core_found_by(*old(self), *final(self), core_arg@, view_path_result(r)),
    {
        if file_at(core_arg) {
            let r = core_lookup(core_arg, true, Err(Vec::new()));
            assert(view_path_result(r) == spec_core_lookup(core_arg@, true, Err(Seq::empty())));
            return r;
        }
        let present = |dir: &str| -> (b: bool)
            ensures
                core_said(core_arg@, dir@, b),
            {
                let res = resolve_core(core_arg, dir);
                res.is_ok()
            };
        let ghost before = *self;
        let out = self.locate_layout("core", &Pick::Libretro, present);
        proof {
            lemma_outcome_has_answers(before, *self, "core"@, Pick::Libretro, present, Presence::Core(core_arg@), out);
        }
        let ghost out_v = tried_view(out);
        let found = match out {
            Ok(layout) => {
                let dir = layout.pick(&Pick::Libretro);
                Ok(resolve_core(core_arg, dir.as_str()))
            },
            Err(tried) => Err(tried),
        };
        let r = core_lookup(core_arg, false, found);
        proof {
            let f = view_found(found);
            let (a0, a1) = choose|a0: bool, a1: bool|
                outcome_for_answers(before, *self, "core"@, Pick::Libretro, Presence::Core(core_arg@), a0, a1, out_v);
            match out_v {
                Ok(d) => {
                    assert(f matches Ok(res) && exists|x: bool, y: bool, z: bool|
                        #[trigger] core_answers(core_arg@, picked(d, Pick::Libretro), x, y, z)
                            && res == spec_core_choice(core_arg@, picked(d, Pick::Libretro), x, y, z));
                },
                Err(t) => {},
            }
            assert(core_search(before, *self, core_arg@, f));
            assert(view_path_result(r) == spec_core_lookup(core_arg@, false, f));
        }
        r
    }

    /// The system directory a core reads BIOS files from: the first that
    /// exists, or the default when none does, so a core that needs
    /// nothing from it still runs and one that does names the path itself.
    pub fn system_dir(&mut self) -> (d: String)
        ensures
            final(self).default_layout() == old(self).default_layout(),
            final(self).known_dir(Pick::System, d@),
            exists|a0: bool, a1: bool, out: Result<RetroArchDirs, Seq<Seq<char>>>|
                #[trigger] outcome_for_answers(
                    *old(self),
                    *final(self),
                    "system directory"@,
                    Pick::System,
                    Presence::Dir,
                    a0,
                    a1,
                    out,
                ) && d@ == spec_found_or_first(located_view(out, Pick::System)),
    {
        let present = |p: &str| -> (b: bool)
            ensures
                answered(is_dir, p@, b),
            { dir_at(p) };
        let ghost before = *self;
        let out = self.locate_layout("system directory", &Pick::System, present);
        proof {
            lemma_outcome_has_answers(before, *self, "system directory"@, Pick::System, present, Presence::Dir, out);
        }
        let ghost out_v = tried_view(out);
        let found = match out {
            Ok(layout) => Located::Found(layout.pick(&Pick::System)),
            Err(tried) => Located::Missing(tried),
        };
        assert(view_located(found) == located_view(out_v, Pick::System));
        let d = found_or_first(found);
        proof {
            let (a0, a1) = choose|a0: bool, a1: bool|
                outcome_for_answers(before, *self, "system directory"@, Pick::System, Presence::Dir, a0, a1, out_v);
            assert(outcome_for_answers(before, *self, "system directory"@, Pick::System, Presence::Dir, a0, a1, out_v));
        }
        d
    }
}

/// A [`Located`] by its characters: the path found, or the candidates
/// tried.
pub open spec fn view_located(l: Located) -> Result<Seq<char>, Seq<Seq<char>>> {
    match l {
        Located::Found(p) => Ok(p@),
        Located::Missing(t) => Err(t@.map_values(|p: String| p@)),
    }
}

/// The path a lookup's outcome `out` gives for `which`: that of the
/// layout found, or the candidates tried.
pub open spec fn located_view(out: Result<RetroArchDirs, Seq<Seq<char>>>, which: Pick) -> Result<
    Seq<char>,
    Seq<Seq<char>>,
> {
    match out {
        Ok(d) => Ok(picked(d, which)),
        Err(t) => Err(t),
    }
}

/// The path found, or else the first candidate tried (the default's),
/// or nothing when none was tried.
pub open spec fn spec_found_or_first(l: Result<Seq<char>, Seq<Seq<char>>>) -> Seq<char> {
    match l {
        Ok(p) => p,
        Err(t) => if t.len() > 0 {
            t[0]
        } else {
            Seq::empty()
        },
    }
}

/// The path a lookup found, or else the first candidate it tried: the
/// default, which a caller can name in its own error.
pub fn found_or_first(found: Located) -> (p: String)
    ensures
        p@ == spec_found_or_first(view_located(found)),
{
    match found {
        Located::Found(p) => p,
        Located::Missing(tried) => {
            if tried.len() > 0 {
                assert(tried@.map_values(|p: String| p@)[0] == tried@[0]@);
                tried[0].clone()
            } else {
                String::new()
            }
        },
    }
}

/// The error for a core found in none of the directories `tried`.
pub open spec fn core_missing_message(arg: Seq<char>, tried: Seq<Seq<char>>) -> Seq<char> {
    "core "@ + arg + " not found in "@ + tried_text(tried)
}

/// A search of the cores directories, by its characters: what
/// `resolve_core` answered in the directory found, or the directories
/// tried.
pub open spec fn view_found(found: Result<Result<String, String>, Vec<String>>) -> Result<
    Result<Seq<char>, Seq<char>>,
    Seq<Seq<char>>,
> {
    match found {
        Ok(res) => Ok(view_path_result(res)),
        Err(t) => Err(t@.map_values(|p: String| p@)),
    }
}

/// What [`DirResolver::find_core`] answers once the disk has said whether
/// the argument itself is a file (`direct`) and, if not, what the search
/// of the cores directories found.
pub open spec fn spec_core_lookup(
    arg: Seq<char>,
    direct: bool,
    found: Result<Result<Seq<char>, Seq<char>>, Seq<Seq<char>>>,
) -> Result<Seq<char>, Seq<char>> {
    if direct {
        Ok(arg)
    } else {
        match found {
            Ok(res) => res,
            Err(tried) => Err(core_missing_message(arg, tried)),
        }
    }
}

/// The core `core_arg` names, given whether it is a file (`direct`) and
/// what the search of the cores directories found: the argument as given
/// when it is a file; else what `resolve_core` answered in the directory
/// found; else an error naming every directory tried.
pub fn core_lookup(core_arg: &str, direct: bool, found: Result<Result<String, String>, Vec<String>>) -> (r:
    Result<String, String>)
    ensures
        view_path_result(r) == spec_core_lookup(core_arg@, direct, view_found(found)),
{
    if direct {
        return Ok(core_arg.to_string());
    }
    match found {
        Ok(res) => res,
        Err(tried) => {
            let mut e = String::new();
            push_str(&mut e, "core ");
            push_str(&mut e, core_arg);
            push_str(&mut e, " not found in ");
            let t = describe_tried(tried.as_slice());
            push_str(&mut e, t.as_str());
            Err(e)
        },
    }
}

/// A search of the cores directories from `before` to `after` for `arg`
/// that found `found`: the lookup of the cores directory for some answers
/// of the presence test (whether `arg` resolves there), with what
/// `resolve_core` answered in the directory of the layout found, or the
/// directories tried.
pub open spec fn core_search<L: FnOnce() -> Option<String>>(
    before: DirResolver<L>,
    after: DirResolver<L>,
    arg: Seq<char>,
    found: Result<Result<Seq<char>, Seq<char>>, Seq<Seq<char>>>,
) -> bool {
    exists|a0: bool, a1: bool, out: Result<RetroArchDirs, Seq<Seq<char>>>|
        #[trigger] outcome_for_answers(before, after, "core"@, Pick::Libretro, Presence::Core(arg), a0, a1, out)
            && match out {
            Ok(d) => found matches Ok(res) && exists|x: bool, y: bool, z: bool|
                #[trigger] core_answers(arg, picked(d, Pick::Libretro), x, y, z)
                    && res == spec_core_choice(arg, picked(d, Pick::Libretro), x, y, z),
            Err(t) => found == Err::<Result<Seq<char>, Seq<char>>, Seq<Seq<char>>>(t),
        }
}

/// What [`DirResolver::find_core`] did, from `before` to `after`,
/// answering `r`: [`spec_core_lookup`] of some answers of the disk, the
/// resolver untouched when the argument was a file, and otherwise the
/// search of the cores directories that found what was used.
pub open spec fn core_found_by<L: FnOnce() -> Option<String>>(
    before: DirResolver<L>,
    after: DirResolver<L>,
    arg: Seq<char>,
    r: Result<Seq<char>, Seq<char>>,
) -> bool {
    exists|direct: bool, found: Result<Result<Seq<char>, Seq<char>>, Seq<Seq<char>>>|
        #[trigger] spec_core_lookup(arg, direct, found) == r && answered(is_file, arg, direct) && (
        direct ==> after == before) && (!direct ==> core_search(before, after, arg, found))
}

/// The candidates a [`Located::Missing`] tried, joined with ` or `.
pub open spec fn tried_text(tried: Seq<Seq<char>>) -> Seq<char>
    decreases tried.len(),
{
    if tried.len() == 0 {
        Seq::empty()
    } else if tried.len() == 1 {
        tried[0]
    } else {
        tried_text(tried.drop_last()) + " or "@ + tried.last()
    }
}

/// The candidates a [`Located::Missing`] tried, for an error message.
pub fn describe_tried(tried: &[String]) -> (s: String)
    ensures
        s@ == tried_text(tried@.map_values(|p: String| p@)),
{
    let ghost v = tried@.map_values(|p: String| p@);
    let mut s = String::new();
    let mut i: usize = 0;
    while i < tried.len()
        invariant
            0 <= i <= tried@.len(),
            v == tried@.map_values(|p: String| p@),
            s@ == tried_text(v.take(i as int)),
        decreases tried@.len() - i,
    {
        if i > 0 {
            push_str(&mut s, " or ");
        }
        push_str(&mut s, tried[i].as_str());
        proof {
            assert(v.take(i + 1).drop_last() =~= v.take(i as int));
            if i == 0 {
                assert(s@ =~= tried_text(v.take(1)));
            }
        }
        i = i + 1;
    }
    assert(v.take(tried@.len() as int) =~= v);
    s
}

/// A lookup whose default candidate exists leaves the config unread (and
/// unparsed): a machine without RetroArch's config never needs one.
pub proof fn lemma_default_hit_leaves_config_unread<L: FnOnce() -> Option<String>, E: Fn(&str) -> bool>(
    before: DirResolver<L>,
    after: DirResolver<L>,
    what: Seq<char>,
    which: Pick,
    present: E,
    r: Result<RetroArchDirs, Vec<String>>,
)
    requires
        layout_outcome(before, after, what, which, present, r),
        r == Ok::<RetroArchDirs, Vec<String>>(before.default_layout()),
        answered(present, picked(before.default_layout(), which), true),
    ensures
        after.unread() == before.unread(),
        after.config_layout() == before.config_layout(),
{
}

/// The config is read at most once: once a lookup has read it, no later
/// lookup reads it again, and the layout parsed from it stays as it was.
pub proof fn lemma_config_read_at_most_once<L: FnOnce() -> Option<String>, E: Fn(&str) -> bool>(
    before: DirResolver<L>,
    after: DirResolver<L>,
    what: Seq<char>,
    which: Pick,
    present: E,
    r: Result<RetroArchDirs, Vec<String>>,
)
    requires
        layout_outcome(before, after, what, which, present, r),
        !before.unread(),
    ensures
        !after.unread(),
        after.config_layout() == before.config_layout(),
{
}

/// A lookup that finds nothing reports every candidate it tried, the
/// default's first, and no more than the default's and the config's.
pub proof fn lemma_missing_reports_the_default_first<L: FnOnce() -> Option<String>, E: Fn(&str) -> bool>(
    before: DirResolver<L>,
    after: DirResolver<L>,
    what: Seq<char>,
    which: Pick,
    present: E,
    tried: Vec<String>,
)
    requires
        layout_outcome(before, after, what, which, present, Err(tried)),
    ensures
        1 <= tried@.len() <= 2,
        tried@[0]@ == picked(before.default_layout(), which),
        tried@.len() == 2 ==> (after.config_layout() matches Some(c) && tried@[1]@ == picked(
            c,
            which,
        )),
{
    assert(tried@.map_values(|p: String| p@).len() == tried@.len());
    assert(tried@.map_values(|p: String| p@)[0] == tried@[0]@);
    if tried@.len() == 2 {
        assert(tried@.map_values(|p: String| p@)[1] == tried@[1]@);
    }
}

/// One call's effect on a resolver: none (the call answered without a
/// lookup), or a lookup of some candidate answered by the presence test.
pub open spec fn lookup_step<L: FnOnce() -> Option<String>>(
    before: DirResolver<L>,
    after: DirResolver<L>,
) -> bool {
    ||| after == before
    ||| exists|
        what: Seq<char>,
        which: Pick,
        test: Presence,
        a0: bool,
        a1: bool,
        out: Result<RetroArchDirs, Seq<Seq<char>>>,
    | #[trigger] outcome_for_answers(before, after, what, which, test, a0, a1, out)
}

/// Whether `states` is a run of calls: each state follows from the one
/// before by a [`lookup_step`].
pub open spec fn lookup_run<L: FnOnce() -> Option<String>>(states: Seq<DirResolver<L>>) -> bool {
    forall|k: int| 0 <= k < states.len() - 1 ==> #[trigger] step_at(states, k)
}

/// The `k`th call of a run is a lookup step.
pub open spec fn step_at<L: FnOnce() -> Option<String>>(states: Seq<DirResolver<L>>, k: int) -> bool {
    lookup_step(states[k], states[k + 1])
}

/// Whether the `k`th call of a run reads the config.
pub open spec fn reads_at<L: FnOnce() -> Option<String>>(states: Seq<DirResolver<L>>, k: int) -> bool {
    states[k].unread() && !states[k + 1].unread()
}

/// Once the config has been read it stays read, and its parse stays what
/// it was, from state `i` to any later state `j` of a run.
proof fn lemma_read_stays<L: FnOnce() -> Option<String>>(states: Seq<DirResolver<L>>, i: int, j: int)
    requires
        lookup_run(states),
        0 <= i <= j < states.len(),
        !states[i].unread(),
    ensures
        !states[j].unread(),
        states[j].config_layout() == states[i].config_layout(),
    decreases j - i,
{
    if i < j {
        lemma_read_stays(states, i, j - 1);
        assert(step_at(states, j - 1));
        let before = states[j - 1];
        let after = states[j];
        if after != before {
            let (what, which, test, a0, a1, out) = choose|
                what: Seq<char>,
                which: Pick,
        test: Presence,
                a0: bool,
                a1: bool,
                out: Result<RetroArchDirs, Seq<Seq<char>>>,
            | #[trigger] outcome_for_answers(before, after, what, which, test, a0, a1, out);
            assert(outcome_for_answers(before, after, what, which, test, a0, a1, out));
        }
    }
}

/// Over any run of lookups on one resolver (`locate`, `locate_layout`,
/// `find_core`, `system_dir`, in any order), `retroarch.cfg` is read at
/// most once: no call after the one that reads it reads it again, every
/// later call sees the parse that call made, and the call that reads it
/// is a lookup whose default candidate was absent. The default layout is
/// the same throughout.
pub proof fn lemma_config_read_once<L: FnOnce() -> Option<String>>(states: Seq<DirResolver<L>>)
    requires
        lookup_run(states),
    ensures
        forall|i: int, j: int|
            #![trigger reads_at(states, i), reads_at(states, j)]
            0 <= i < j < states.len() - 1 && reads_at(states, i) ==> !reads_at(states, j),
        forall|i: int, j: int|
            #![trigger states[i], states[j]]
            0 <= i <= j < states.len() && !states[i].unread() ==> !states[j].unread()
                && states[j].config_layout() == states[i].config_layout(),
        forall|k: int|
            0 <= k < states.len() - 1 && #[trigger] reads_at(states, k) ==> exists|
                what: Seq<char>,
                which: Pick,
        test: Presence,
                a1: bool,
                out: Result<RetroArchDirs, Seq<Seq<char>>>,
            | #[trigger] outcome_for_answers(states[k], states[k + 1], what, which, test, false, a1, out),
        forall|k: int|
            0 <= k < states.len() ==> #[trigger] states[k].default_layout()
                == states[0].default_layout(),
{
    assert forall|i: int, j: int|
        0 <= i <= j < states.len() && !states[i].unread() implies !states[j].unread()
            && states[j].config_layout() == states[i].config_layout() by {
        lemma_read_stays(states, i, j);
    }
    assert forall|i: int, j: int|
        0 <= i < j < states.len() - 1 && reads_at(states, i) implies !reads_at(states, j) by {
        lemma_read_stays(states, i + 1, j);
    }
    assert forall|k: int| 0 <= k < states.len() - 1 && #[trigger] reads_at(states, k) implies exists|
        what: Seq<char>,
        which: Pick,
        test: Presence,
        a1: bool,
        out: Result<RetroArchDirs, Seq<Seq<char>>>,
    | #[trigger] outcome_for_answers(states[k], states[k + 1], what, which, test, false, a1, out) by {
        assert(step_at(states, k));
        let (what, which, test, a0, a1, out) = choose|
            what: Seq<char>,
            which: Pick,
        test: Presence,
            a0: bool,
            a1: bool,
            out: Result<RetroArchDirs, Seq<Seq<char>>>,
        | #[trigger] outcome_for_answers(states[k], states[k + 1], what, which, test, a0, a1, out);
        assert(outcome_for_answers(states[k], states[k + 1], what, which, test, false, a1, out));
    }
    assert forall|k: int| 0 <= k < states.len() implies #[trigger] states[k].default_layout()
        == states[0].default_layout() by {
        lemma_default_stays(states, k);
    }
}

/// The default layout of every state of a run is the first's.
proof fn lemma_default_stays<L: FnOnce() -> Option<String>>(states: Seq<DirResolver<L>>, k: int)
    requires
        lookup_run(states),
        0 <= k < states.len(),
    ensures
        states[k].default_layout() == states[0].default_layout(),
    decreases k,
{
    if k > 0 {
        lemma_default_stays(states, k - 1);
        assert(step_at(states, k - 1));
        if states[k] != states[k - 1] {
            let (what, which, test, a0, a1, out) = choose|
                what: Seq<char>,
                which: Pick,
        test: Presence,
                a0: bool,
                a1: bool,
                out: Result<RetroArchDirs, Seq<Seq<char>>>,
            | #[trigger] outcome_for_answers(states[k - 1], states[k], what, which, test, a0, a1, out);
            assert(outcome_for_answers(states[k - 1], states[k], what, which, test, a0, a1, out));
        }
    }
}

/// A lookup by `locate` or `locate_layout` is a step of a run.
pub proof fn lemma_layout_lookup_is_step<L: FnOnce() -> Option<String>, E: Fn(&str) -> bool>(
    before: DirResolver<L>,
    after: DirResolver<L>,
    what: Seq<char>,
    which: Pick,
    present: E,
    test: Presence,
    r: Result<RetroArchDirs, Vec<String>>,
)
    requires
        layout_outcome(before, after, what, which, present, r),
        forall|s: &str, b: bool| #[trigger] present.ensures((s,), b) ==> presence_said(test, s@, b),
    ensures
        lookup_step(before, after),
{
    lemma_outcome_has_answers(before, after, what, which, present, test, r);
    let (a0, a1) = choose|a0: bool, a1: bool|
        outcome_for_answers(before, after, what, which, test, a0, a1, tried_view(r));
    assert(outcome_for_answers(before, after, what, which, test, a0, a1, tried_view(r)));
}

/// A call of `find_core` is a step of a run.
pub proof fn lemma_core_lookup_is_step<L: FnOnce() -> Option<String>>(
    before: DirResolver<L>,
    after: DirResolver<L>,
    arg: Seq<char>,
    r: Result<Seq<char>, Seq<char>>,
)
    requires
        core_found_by(before, after, arg, r),
    ensures
        lookup_step(before, after),
{
    let (direct, found) = choose|direct: bool, found: Result<Result<Seq<char>, Seq<char>>, Seq<Seq<char>>>|
        #[trigger] spec_core_lookup(arg, direct, found) == r && answered(is_file, arg, direct) && (
        direct ==> after == before) && (!direct ==> core_search(before, after, arg, found));
    if !direct {
        let (a0, a1, out) = choose|a0: bool, a1: bool, out: Result<RetroArchDirs, Seq<Seq<char>>>|
            #[trigger] outcome_for_answers(before, after, "core"@, Pick::Libretro, Presence::Core(arg), a0, a1, out)
                && match out {
                Ok(d) => found matches Ok(res) && exists|x: bool, y: bool, z: bool|
                    #[trigger] core_answers(arg, picked(d, Pick::Libretro), x, y, z)
                        && res == spec_core_choice(arg, picked(d, Pick::Libretro), x, y, z),
                Err(t) => found == Err::<Result<Seq<char>, Seq<char>>, Seq<Seq<char>>>(t),
            };
        assert(outcome_for_answers(before, after, "core"@, Pick::Libretro, Presence::Core(arg), a0, a1, out));
    }
}

/// Whether two parsed configs say the same of `key`: both leave it out,
/// or both give it the same value.
pub open spec fn same_setting(m1: Map<Seq<char>, Seq<char>>, m2: Map<Seq<char>, Seq<char>>, key: Seq<char>) -> bool {
    &&& m1.dom().contains(key) == m2.dom().contains(key)
    &&& (m1.dom().contains(key) ==> m1[key] == m2[key])
}

/// Each of the states flags a config gives is read from its own key
/// alone: two configs that say the same of `savestates_in_content_dir`
/// put states next to the ROM alike, whatever else they set, and so for
/// `sort_savestates_by_content_enable` and `sort_savestates_enable`.
pub proof fn lemma_state_flags_read_their_own_keys(
    d1: RetroArchDirs,
    text1: Seq<char>,
    home1: Option<Seq<char>>,
    d2: RetroArchDirs,
    text2: Seq<char>,
    home2: Option<Seq<char>>,
)
    requires
        is_config_layout(d1, text1, home1),
        is_config_layout(d2, text2, home2),
    ensures
        same_setting(spec_read_all(text1), spec_read_all(text2), "savestates_in_content_dir"@)
            ==> d1.states.in_content_dir == d2.states.in_content_dir,
        same_setting(spec_read_all(text1), spec_read_all(text2), "sort_savestates_by_content_enable"@)
            ==> d1.states.sort_by_content == d2.states.sort_by_content,
        same_setting(spec_read_all(text1), spec_read_all(text2), "sort_savestates_enable"@)
            ==> d1.states.sort_by_core == d2.states.sort_by_core,
{
}

/// A config written as `key = "value"` lines sets the states flags from
/// the last line for each key: states go next to the ROM exactly when
/// `savestates_in_content_dir` is last set to `true`, are sorted by
/// content exactly when `sort_savestates_by_content_enable` is, and are
/// sorted by core unless `sort_savestates_enable` is last set to
/// something other than `true`.
pub proof fn lemma_state_flags_from_written_config(
    d: RetroArchDirs,
    lines: Seq<(Seq<char>, Seq<char>)>,
    home: Option<Seq<char>>,
)
    requires
        forall|i: int| 0 <= i < lines.len() ==> plain_setting(#[trigger] lines[i].0, lines[i].1),
        is_config_layout(d, cfg_text(lines), home),
    ensures
        d.states.in_content_dir == (settings_map(lines).dom().contains("savestates_in_content_dir"@)
            && settings_map(lines)["savestates_in_content_dir"@] == "true"@),
        d.states.sort_by_content == (settings_map(lines).dom().contains(
            "sort_savestates_by_content_enable"@,
        ) && settings_map(lines)["sort_savestates_by_content_enable"@] == "true"@),
        d.states.sort_by_core == (!settings_map(lines).dom().contains("sort_savestates_enable"@)
            || settings_map(lines)["sort_savestates_enable"@] == "true"@),
{
    lemma_written_settings_read_back(lines);
}

/// A config whose one line sets `savestates_in_content_dir` to `true`
/// puts states next to the ROM, and one whose one line sets
/// `sort_savestates_by_content_enable` to `true` does not.
pub proof fn lemma_in_content_dir_is_its_own_key(d: RetroArchDirs, e: RetroArchDirs, home: Option<Seq<char>>)
    requires
        is_config_layout(d, cfg_text(seq![("savestates_in_content_dir"@, "true"@)]), home),
        is_config_layout(e, cfg_text(seq![("sort_savestates_by_content_enable"@, "true"@)]), home),
    ensures
        d.states.in_content_dir,
        !e.states.in_content_dir,
        e.states.sort_by_content,
{
    reveal_strlit("savestates_in_content_dir");
    reveal_strlit("sort_savestates_by_content_enable");
    reveal_strlit("true");
    let l1 = seq![("savestates_in_content_dir"@, "true"@)];
    let l2 = seq![("sort_savestates_by_content_enable"@, "true"@)];
    assert(l1.drop_first() =~= Seq::empty());
    assert(l2.drop_first() =~= Seq::empty());
    reveal_with_fuel(crate::retroarch::cfgfile::insert_settings, 2);
    assert(plain_setting(l1[0].0, l1[0].1));
    assert(plain_setting(l2[0].0, l2[0].1));
    lemma_state_flags_from_written_config(d, l1, home);
    lemma_state_flags_from_written_config(e, l2, home);
    assert(settings_map(l1) == Map::<Seq<char>, Seq<char>>::empty().insert(l1[0].0, l1[0].1));
    assert(settings_map(l2) == Map::<Seq<char>, Seq<char>>::empty().insert(l2[0].0, l2[0].1));
    assert("savestates_in_content_dir"@ != "sort_savestates_by_content_enable"@) by {
        assert("savestates_in_content_dir"@[1] != "sort_savestates_by_content_enable"@[1]);
    }
}

} // verus!
