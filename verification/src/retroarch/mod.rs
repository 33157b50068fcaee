//! The RetroArch backend's logic: the app to launch, the command line and
//! run config it is launched with, and reading what it and `gpucapture`
//! answer. RetroArch runs on a config written for the run, never the
//! user's; the user's `retroarch.cfg` is consulted only to find a core, a
//! state slot, or the system directory that is not in the default place.
pub mod app;
pub mod appendconfig;
pub mod capture;
pub mod cfgfile;
pub mod entitle;
pub mod image;
pub mod remote;
pub mod runconfig;

use crate::backend::{Source, StateSource};
use crate::config::WindowMode;
use crate::display::{for_retroarch_window, spec_fill_mode};
use crate::fs::{answered, dir_at, file_at, is_dir, is_file};
use crate::core_path::{core_not_found, spec_core_choice, view_path_result};
use crate::image_file::{
    bad_extension_message, has_extension, not_found_message, spec_validate, validate_found,
};
use crate::launch::LaunchPlan;
use crate::layout::{
    core_found_by, core_missing_message, core_search, describe_tried, lemma_outcome_has_answers,
    outcome_for_answers, picked, spec_core_lookup, tried_text, tried_view, DirResolver, Pick,
    Presence, RetroArchDirs,
};
use crate::state::StateDirs;
use crate::text::push_str;
use runconfig::{PausedConfig, RunConfig};
use vstd::prelude::*;

verus! {

/// How to reach RetroArch: the app to launch and the command port to use.
#[derive(Debug, Clone, PartialEq, Eq)]
pub struct RetroArch {
    /// A `.app` bundle or the binary inside it.
    pub app: String,
    /// UDP port for RetroArch's command interface, enabled for this run only.
    pub cmd_port: u16,
    /// Leave RetroArch running after the capture.
    pub keep_running: bool,
}

impl Default for RetroArch {
    /// The stock app in `/Applications`, RetroArch's default command port,
    /// and RetroArch quit after the capture.
    fn default() -> (r: RetroArch)
        ensures
            r.app@ == "/Applications/RetroArch.app"@,
            r.cmd_port == 55355,
            !r.keep_running,
    {
        RetroArch { app: "/Applications/RetroArch.app".to_string(), cmd_port: 55355, keep_running: false }
    }
}

/// What a run resolved before anything is created on disk.
#[derive(Debug, Clone, PartialEq, Eq)]
pub struct Resolved {
    /// The core to load; `None` for an image, which the built-in viewer shows.
    pub core: Option<String>,
    /// The ROM or the image.
    pub content: String,
    pub state: Option<StateSource>,
    /// A core options file to copy in.
    pub options: Option<String>,
    /// The RetroArch binary to exec.
    pub binary: String,
}

/// A copy of `s`, equal to it.
fn copy_state_source(s: &Option<StateSource>) -> (r: Option<StateSource>)
    ensures
        r == *s,
{
    match s {
        Some(StateSource::File(f)) => Some(StateSource::File(f.clone())),
        Some(StateSource::Slot(n)) => Some(StateSource::Slot(*n)),
        None => None,
    }
}

/// A copy of `s`, equal to it.
fn copy_option(s: &Option<String>) -> (r: Option<String>)
    ensures
        r == *s,
{
    match s {
        Some(v) => Some(v.clone()),
        None => None,
    }
}

/// The refusal of the hosted backend's extension override.
pub open spec fn override_message() -> Seq<char> {
    "--skip-extension-check only applies to the librashader backend"@
}

/// The error for a ROM that is not a file.
pub open spec fn rom_missing_message(rom: Seq<char>) -> Seq<char> {
    "ROM not found at "@ + rom
}

/// The error for a preset that is not a file.
pub open spec fn shader_missing_message(shader: Seq<char>) -> Seq<char> {
    "shader preset not found at "@ + shader
}

/// The error when no states directory exists.
pub open spec fn states_missing_message(tried: Seq<Seq<char>>) -> Seq<char> {
    "states directory not found at "@ + tried_text(tried)
}

/// A paused-capture result with its error by its characters.
pub open spec fn view_paused(r: Result<PausedConfig, String>) -> Result<PausedConfig, Seq<char>> {
    match r {
        Ok(p) => Ok(p),
        Err(e) => Err(e@),
    }
}

/// The paused capture for a slot once the lookup of the states directory
/// has answered `out`: RetroArch's command port, the slot, and the states
/// layout found; or the error naming every candidate tried.
pub open spec fn spec_paused(port: u16, slot: u32, out: Result<RetroArchDirs, Seq<Seq<char>>>) -> Result<
    PausedConfig,
    Seq<char>,
> {
    match out {
        Ok(d) => Ok(PausedConfig { port, slot, states: d.states }),
        Err(t) => Err(states_missing_message(t)),
    }
}

/// The check of the request's source, once the disk has said whether the
/// image or ROM is a file (`content_is_file`): an image must carry an
/// extension the viewer accepts and exist; for a core the extension
/// override is refused first, then the ROM must exist.
pub open spec fn source_check(source: Source, content_is_file: bool) -> Result<(), Seq<char>> {
    match source {
        Source::Image(p) => spec_validate(
            p@,
            image::EXTENSIONS@,
            "RetroArch's image viewer"@,
            content_is_file,
        ),
        Source::Core { rom, skip_extension_check, .. } => if skip_extension_check {
            Err(override_message())
        } else if !content_is_file {
            Err(rom_missing_message(rom@))
        } else {
            Ok(())
        },
    }
}

/// What [`RetroArch::resolve`] answers, as the core to load and the
/// binary, once the disk has answered in order: whether the image or ROM
/// is a file, what the core search gave (`core`, for a core source),
/// whether the preset is a file, and what resolving the app gave
/// (`binary`). The first refusal stands.
pub open spec fn spec_resolve(
    source: Source,
    shader: Seq<char>,
    content_is_file: bool,
    core: Result<Seq<char>, Seq<char>>,
    shader_is_file: bool,
    binary: Result<Seq<char>, Seq<char>>,
) -> Result<(Option<Seq<char>>, Seq<char>), Seq<char>> {
    match source_check(source, content_is_file) {
        Err(e) => Err(e),
        Ok(_) => {
            let found: Result<Option<Seq<char>>, Seq<char>> = match source {
                Source::Image(_) => Ok(None),
                Source::Core { .. } => match core {
                    Ok(c) => Ok(Some(c)),
                    Err(e) => Err(e),
                },
            };
            match found {
                Err(e) => Err(e),
                Ok(c) => if !shader_is_file {
                    Err(shader_missing_message(shader))
                } else {
                    match binary {
                        Ok(b) => Ok((c, b)),
                        Err(e) => Err(e),
                    }
                },
            }
        },
    }
}

/// Whether the disk answered `content_is_file` for the source's content:
/// an image's path, asked when it has an extension the viewer accepts; a
/// core's ROM, asked unless the extension override was given.
pub open spec fn content_answer(source: Source, content_is_file: bool) -> bool {
    match source {
        Source::Image(p) => crate::image_file::image_answer(p@, image::EXTENSIONS@, content_is_file),
        Source::Core { rom, skip_extension_check, .. } => !skip_extension_check ==> answered(
            is_file,
            rom@,
            content_is_file,
        ),
    }
}

/// Whether [`spec_resolve`] asks whether the preset is a file: the source
/// and its core passed.
pub open spec fn shader_asked(
    source: Source,
    content_is_file: bool,
    core: Result<Seq<char>, Seq<char>>,
) -> bool {
    &&& source_check(source, content_is_file) is Ok
    &&& (source is Image || core is Ok)
}

/// Whether [`spec_resolve`] asks for the core: a core source that passed
/// its check.
pub open spec fn core_asked(source: Source, content_is_file: bool) -> bool {
    source is Core && source_check(source, content_is_file) is Ok
}

/// Whether [`spec_resolve`] asks for the binary: the source, its core
/// and the preset all passed.
pub open spec fn binary_asked(
    source: Source,
    content_is_file: bool,
    core: Result<Seq<char>, Seq<char>>,
    shader_is_file: bool,
) -> bool {
    &&& source_check(source, content_is_file) is Ok
    &&& (source is Image || core is Ok)
    &&& shader_is_file
}

/// The core argument of a core source.
pub open spec fn core_arg_of(source: Source) -> Seq<char> {
    match source {
        Source::Core { core, .. } => core@,
        Source::Image(_) => Seq::empty(),
    }
}

/// A resolution by its core and binary, or its refusal.
pub open spec fn view_resolved(r: Result<Resolved, String>) -> Result<(Option<Seq<char>>, Seq<char>), Seq<char>> {
    match r {
        Ok(res) => Ok(
            (
                match res.core {
                    Some(c) => Some(c@),
                    None => None,
                },
                res.binary@,
            ),
        ),
        Err(e) => Err(e@),
    }
}

/// A message that starts with a character other than the override
/// message's first is not it.
proof fn lemma_not_override_by_start(lit: Seq<char>, rest: Seq<char>)
    requires
        lit.len() > 0,
        lit[0] != '-',
    ensures
        lit + rest != override_message(),
{
    reveal_strlit("--skip-extension-check only applies to the librashader backend");
    assert((lit + rest)[0] == lit[0]);
}

/// A message that ends with a character other than the override
/// message's last is not it.
proof fn lemma_not_override_by_end(rest: Seq<char>, lit: Seq<char>)
    requires
        lit.len() > 0,
        lit.last() != 'd',
    ensures
        rest + lit != override_message(),
{
    reveal_strlit("--skip-extension-check only applies to the librashader backend");
    let e = rest + lit;
    assert(e[e.len() - 1] == lit.last());
    let o = override_message();
    assert(o[o.len() - 1] == 'd');
}

/// The override refusal is answered exactly for a core source that asks
/// for the override, whatever the disk answered: no other refusal reads
/// the same.
proof fn lemma_override_only_when_asked<L: FnOnce() -> Option<String>>(
    app: Seq<char>,
    source: Source,
    shader: Seq<char>,
    content_is_file: bool,
    core: Result<Seq<char>, Seq<char>>,
    shader_is_file: bool,
    binary: Result<Seq<char>, Seq<char>>,
    before: DirResolver<L>,
    after: DirResolver<L>,
)
    requires
        core_asked(source, content_is_file) ==> core_found_by(before, after, core_arg_of(source), core),
        binary_asked(source, content_is_file, core, shader_is_file) ==> exists|d: bool, i: bool, f: bool|
            binary == app::spec_binary(app, d, i, f),
    ensures
        (spec_resolve(source, shader, content_is_file, core, shader_is_file, binary) == Err::<
            (Option<Seq<char>>, Seq<char>),
            Seq<char>,
        >(override_message())) <==> (source matches Source::Core { skip_extension_check: true, .. }),
{
    let r = spec_resolve(source, shader, content_is_file, core, shader_is_file, binary);
    if source matches Source::Core { skip_extension_check: true, .. } {
        return;
    }
    reveal_strlit("image not found at ");
    reveal_strlit("ROM not found at ");
    reveal_strlit("shader preset not found at ");
    reveal_strlit("RetroArch app not found at ");
    reveal_strlit("core ");
    reveal_strlit(")");
    reveal_strlit(" has no Contents/MacOS/RetroArch");
    match source_check(source, content_is_file) {
        Err(e) => {
            match source {
                Source::Image(p) => {
                    let exts = image::EXTENSIONS@;
                    let dec = "RetroArch's image viewer"@;
                    if e == not_found_message(p@) {
                        lemma_not_override_by_start("image not found at "@, p@);
                    } else {
                        let m = bad_extension_message(p@, exts, dec);
                        assert(e == m);
                        lemma_not_override_by_end(
                            p@ + " does not have an image extension "@ + dec + " accepts ("@
                                + crate::image_file::joined(exts),
                            ")"@,
                        );
                    }
                },
                Source::Core { rom, .. } => {
                    lemma_not_override_by_start("ROM not found at "@, rom@);
                },
            }
        },
        Ok(_) => {
            if source is Core && core is Err {
                let arg = core_arg_of(source);
                let (direct, found) = choose|
                    direct: bool,
                    found: Result<Result<Seq<char>, Seq<char>>, Seq<Seq<char>>>,
                | #[trigger] spec_core_lookup(arg, direct, found) == core && (direct ==> after == before)
                    && (!direct ==> core_search(before, after, arg, found));
                match found {
                    Err(t) => {
                        lemma_not_override_by_start("core "@, arg + " not found in "@ + tried_text(t));
                        assert(core_missing_message(arg, t) == "core "@ + (arg + " not found in "@
                            + tried_text(t)));
                    },
                    Ok(res) => {
                        let (a0, a1, out) = choose|a0: bool, a1: bool, out: Result<crate::layout::RetroArchDirs, Seq<Seq<char>>>|
                            #[trigger] crate::layout::outcome_for_answers(before, after, "core"@, Pick::Libretro, crate::layout::Presence::Core(arg), a0, a1, out)
                                && match out {
                                Ok(d) => found matches Ok(res) && exists|x: bool, y: bool, z: bool|
                                    res == spec_core_choice(arg, picked(d, Pick::Libretro), x, y, z),
                                Err(t) => found == Err::<Result<Seq<char>, Seq<char>>, Seq<Seq<char>>>(t),
                            };
                        if let Ok(d) = out {
                            let dir = picked(d, Pick::Libretro);
                            let m = core_not_found(arg, dir);
                            let rest = crate::text::debug_quoted(arg) + " not found; tried "@
                                + crate::core_path::core_candidates(arg, dir).0 + " and "@
                                + crate::core_path::core_candidates(arg, dir).1;
                            assert(m == "core "@ + rest);
                            lemma_not_override_by_start("core "@, rest);
                        }
                    },
                }
            } else if !shader_is_file {
                lemma_not_override_by_start("shader preset not found at "@, shader);
            } else if binary is Err {
                let (d, i, f) = choose|d: bool, i: bool, f: bool| binary == app::spec_binary(app, d, i, f);
                lemma_not_override_by_start("RetroArch app not found at "@, app);
                lemma_not_override_by_end(app, " has no Contents/MacOS/RetroArch"@);
            }
        },
    }
}

/// The content, state and options a resolution carries over from the
/// source.
pub open spec fn carries_source(res: Resolved, source: Source) -> bool {
    match source {
        Source::Image(p) => res.content@ == p@ && res.state is None && res.options is None,
        Source::Core { rom, state, options, .. } => res.content@ == rom@ && res.state == state
            && res.options == options,
    }
}

/// The paused capture for a state staged into `dir`, as slot 0 of a
/// directory without sorting.
pub open spec fn staged_paused(port: u16, dir: Seq<char>) -> (u16, u32, Seq<char>, bool, bool, bool) {
    (port, 0, dir, false, false, false)
}

impl RetroArch {
    /// What a run resolves to once the disk has answered, in the order the
    /// checks are made: whether the image or ROM is a file, what the core
    /// search gave, whether the preset is a file, and what resolving the
    /// app gave. The first refusal stands; answers after it are not read.
    pub fn resolve_found(
        &self,
        source: &Source,
        shader: &str,
        content_is_file: bool,
        core: Result<String, String>,
        shader_is_file: bool,
        binary: Result<String, String>,
    ) -> (r: Result<Resolved, String>)
        ensures
            view_resolved(r) == spec_resolve(
                *source,
                shader@,
                content_is_file,
                view_path_result(core),
                shader_is_file,
                view_path_result(binary),
            ),
            r matches Ok(res) ==> carries_source(res, *source),
    {
        let (found, content, state, options) = match source {
            Source::Image(path) => {
                match validate_found(path.as_str(), &image::EXTENSIONS, "RetroArch's image viewer", content_is_file) {
                    Ok(()) => {},
                    Err(e) => {
                        return Err(e);
                    },
                }
                (None, path.clone(), None, None)
            },
            Source::Core { rom, state, options, skip_extension_check, .. } => {
                if *skip_extension_check {
                    return Err(
                        "--skip-extension-check only applies to the librashader backend".to_string(),
                    );
                }
                if !content_is_file {
                    let mut e = String::new();
                    push_str(&mut e, "ROM not found at ");
                    push_str(&mut e, rom.as_str());
                    return Err(e);
                }
                let c = match core {
                    Ok(c) => c,
                    Err(e) => {
                        return Err(e);
                    },
                };
                (Some(c), rom.clone(), copy_state_source(state), copy_option(options))
            },
        };
        if !shader_is_file {
            let mut e = String::new();
            push_str(&mut e, "shader preset not found at ");
            push_str(&mut e, shader);
            return Err(e);
        }
        let binary = match binary {
            Ok(b) => b,
            Err(e) => {
                return Err(e);
            },
        };
        Ok(Resolved { core: found, content, state, options, binary })
    }

    /// Everything a run needs before it creates anything: the request's
    /// source checked in order (an image's extension and presence; for a
    /// core the hosted backend's extension override is refused, the ROM
    /// must be a file, the core is found), then the preset must be a file
    /// and the app must resolve to a binary. What comes back is
    /// [`RetroArch::resolve_found`] of what the disk answered; the core is
    /// what [`DirResolver::find_core`] found, and the binary what
    /// [`app::resolve_binary`] gave.
    pub fn resolve<L: FnOnce() -> Option<String>>(
        &self,
        source: &Source,
        shader: &str,
        dirs: &mut DirResolver<L>,
    ) -> (r: Result<Resolved, String>)
        ensures
            final(dirs).default_layout() == old(dirs).default_layout(),
            exists|
                content_is_file: bool,
                core: Result<Seq<char>, Seq<char>>,
                shader_is_file: bool,
                binary: Result<Seq<char>, Seq<char>>,
            |
                #[trigger] spec_resolve(*source, shader@, content_is_file, core, shader_is_file, binary)
                    == view_resolved(r) && content_answer(*source, content_is_file) && (core_asked(
                    *source,
                    content_is_file,
                ) ==> core_found_by(*old(dirs), *final(dirs), core_arg_of(*source), core)) && (
                !core_asked(*source, content_is_file) ==> *final(dirs) == *old(dirs)) && (
                shader_asked(*source, content_is_file, core) ==> answered(
                    is_file,
                    shader@,
                    shader_is_file,
                )) && (binary_asked(*source, content_is_file, core, shader_is_file) ==> exists|
                    d: bool,
                    i: bool,
                    f: bool,
                |
                    #[trigger] app::binary_answers(self.app@, d, i, f) && binary == app::spec_binary(
                        self.app@,
                        d,
                        i,
                        f,
                    )),
            r matches Ok(res) ==> carries_source(res, *source),
            (r matches Err(e) && e@ == override_message()) <==> (source matches Source::Core {
                skip_extension_check: true,
                ..
            }),
    {
        let content_is_file = match source {
            Source::Image(path) => if has_extension(path.as_str(), &image::EXTENSIONS) {
                file_at(path.as_str())
            } else {
                false
            },
            Source::Core { rom, skip_extension_check, .. } => if *skip_extension_check {
                false
            } else {
                file_at(rom.as_str())
            },
        };
        assert(content_answer(*source, content_is_file));
        let ghost before = *dirs;
        let core = match source {
            Source::Core { core: core_arg, skip_extension_check, .. } => if !*skip_extension_check
                && content_is_file {
                dirs.find_core(core_arg.as_str())
            } else {
                Err(String::new())
            },
            Source::Image(_) => Err(String::new()),
        };
        let source_ok = content_is_file && match source {
            Source::Image(_) => true,
            Source::Core { .. } => core.is_ok(),
        };
        let shader_is_file = if source_ok {
            file_at(shader)
        } else {
            false
        };
        let binary = if source_ok && shader_is_file {
            app::resolve_binary(self.app.as_str())
        } else {
            Err(String::new())
        };
        let ghost core_v = view_path_result(core);
        let ghost binary_v = view_path_result(binary);
        let r = self.resolve_found(source, shader, content_is_file, core, shader_is_file, binary);
        proof {
            lemma_override_only_when_asked(self.app@, *source, shader@, content_is_file, core_v,
                shader_is_file, binary_v, before, *dirs);
            assert(spec_resolve(*source, shader@, content_is_file, core_v, shader_is_file, binary_v)
                == view_resolved(r));
        }
        r
    }

    /// The paused capture for a state file staged into `dir` as slot 0:
    /// the states directory is that one, unsorted.
    pub fn paused_for_staged(&self, dir: &str) -> (p: PausedConfig)
        ensures
            p.port == self.cmd_port,
            p.slot == 0,
            p.states.savestate_directory@ == dir@,
            !p.states.sort_by_core && !p.states.sort_by_content && !p.states.in_content_dir,
    {
        PausedConfig {
            port: self.cmd_port,
            slot: 0,
            states: StateDirs {
                savestate_directory: dir.to_string(),
                sort_by_core: false,
                sort_by_content: false,
                in_content_dir: false,
            },
        }
    }

    /// The paused capture for `--slot` once the lookup of the states
    /// directory has answered `found`: that layout's states, or an error
    /// naming every candidate tried.
    pub fn paused_from(&self, slot: u32, found: Result<RetroArchDirs, Vec<String>>) -> (r: Result<PausedConfig, String>)
        ensures
            view_paused(r) == spec_paused(self.cmd_port, slot, tried_view(found)),
    {
        match found {
            Ok(layout) => Ok(PausedConfig { port: self.cmd_port, slot, states: layout.states }),
            Err(tried) => {
                let mut e = String::new();
                push_str(&mut e, "states directory not found at ");
                let t = describe_tried(tried.as_slice());
                push_str(&mut e, t.as_str());
                Err(e)
            },
        }
    }

    /// The paused capture for `--slot`: RetroArch finds the slot itself,
    /// under the core's own name, so it only needs the states directory
    /// that exists (the default's, else the config's) and how it is sorted.
    pub fn paused_for_slot<L: FnOnce() -> Option<String>>(&self, slot: u32, dirs: &mut DirResolver<L>) -> (r: Result<PausedConfig, String>)
        ensures
            final(dirs).default_layout() == old(dirs).default_layout(),
            exists|a0: bool, a1: bool, out: Result<RetroArchDirs, Seq<Seq<char>>>|
                #[trigger] outcome_for_answers(
                    *old(dirs),
                    *final(dirs),
                    "states directory"@,
                    Pick::States,
                    Presence::Dir,
                    a0,
                    a1,
                    out,
                ) && view_paused(r) == spec_paused(self.cmd_port, slot, out),
    {
        let present = |p: &str| -> (b: bool)
            ensures
                answered(is_dir, p@, b),
            { dir_at(p) };
        let ghost before = *dirs;
        let out = dirs.locate_layout("states directory", &Pick::States, present);
        proof {
            lemma_outcome_has_answers(before, *dirs, "states directory"@, Pick::States, present, Presence::Dir, out);
        }
        let ghost out_v = tried_view(out);
        let r = self.paused_from(slot, out);
        proof {
            let (a0, a1) = choose|a0: bool, a1: bool|
                outcome_for_answers(before, *dirs, "states directory"@, Pick::States, Presence::Dir, a0, a1, out_v);
            assert(outcome_for_answers(before, *dirs, "states directory"@, Pick::States, Presence::Dir, a0, a1, out_v));
        }
        r
    }

    /// The command line for a resolved run: fullscreen exactly when the
    /// window mode is.
    pub fn launch_plan(
        resolved: &Resolved,
        shader: &str,
        config: &str,
        window: &WindowMode,
        verbose: bool,
    ) -> (p: LaunchPlan)
        ensures
            p.binary@ == resolved.binary@,
            p.rom@ == resolved.content@,
            p.shader matches Some(s) && s@ == shader@,
            p.appendconfig@ == config@,
            p.fullscreen == (*window == WindowMode::Fullscreen),
            p.verbose == verbose,
            match resolved.core {
                Some(c) => p.core matches Some(pc) && pc@ == c@,
                None => p.core is None,
            },
    {
        let fullscreen = match window {
            WindowMode::Fullscreen => true,
            _ => false,
        };
        LaunchPlan {
            binary: resolved.binary.clone(),
            core: match &resolved.core {
                Some(c) => Some(c.clone()),
                None => None,
            },
            rom: resolved.content.clone(),
            shader: Some(shader.to_string()),
            appendconfig: config.to_string(),
            fullscreen,
            verbose,
        }
    }
}

/// The run config for a resolved run: RetroArch's window as the request's
/// mode (a fill loses the title bar), the paths the run made, and the
/// image viewer for an image.
pub fn run_config_for(
    window: WindowMode,
    system_dir: String,
    savefile_dir: String,
    core_options: String,
    paused: Option<PausedConfig>,
    source: &Source,
) -> (c: RunConfig)
    ensures
        c.window == (match window {
            WindowMode::Fill { max } => spec_fill_mode(max),
            other => other,
        }),
        c.system_dir == system_dir,
        c.savefile_dir == savefile_dir,
        c.core_options == core_options,
        c.paused == paused,
        c.image_viewer == (source is Image),
{
    RunConfig {
        window: for_retroarch_window(window),
        system_dir,
        savefile_dir,
        core_options,
        paused,
        image_viewer: match source {
            Source::Image(_) => true,
            _ => false,
        },
    }
}

} // verus!
