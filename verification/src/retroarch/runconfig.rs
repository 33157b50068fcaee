//! The per-run `retroarch.cfg` that RetroArch is launched on (`-c`). It is
//! written from scratch for each run and holds only what this tool sets;
//! RetroArch fills everything else from its compiled defaults, so the
//! user's own config is never read for the run and never written.
use crate::config::WindowMode;
use crate::config::spec_read_all;
use crate::retroarch::cfgfile::{
    cfg_text, config_safe, insert_settings, key_absent, lemma_insert_settings_concat,
    lemma_insert_settings_keeps, lemma_insert_settings_last, lemma_written_settings_read_back,
    plain_setting, push_number_setting, push_setting, push_window_settings, settings_map,
    window_settings,
};
use crate::state::StateDirs;
use crate::text::{chars_of, contains_char, decimal, has_char, push_str};
use vstd::prelude::*;

verus! {

/// Whether `path` can be written into a `retroarch.cfg` value unchanged:
/// the format quotes values with `"` and has no escape for one, and a
/// newline would start a new key.
pub fn is_config_safe(path: &str) -> (b: bool)
    ensures
        b == config_safe(path@),
{
    let v = chars_of(path);
    !contains_char(&v, '"') && !contains_char(&v, '\n') && !contains_char(&v, '\r')
}

/// Configuration for paused capture mode.
#[derive(Debug, Clone, PartialEq, Eq)]
pub struct PausedConfig {
    /// UDP port for the command interface, enabled for this run only.
    pub port: u16,
    /// The slot RetroArch loads on `LOAD_STATE`.
    pub slot: u32,
    /// Where RetroArch looks for that slot: a temp dir holding a staged
    /// `--state` file, or the user's states layout for `--slot`.
    pub states: StateDirs,
}

/// The per-run config. Rendered text is the whole config RetroArch runs
/// on; every key not listed takes RetroArch's compiled default.
#[derive(Debug, Clone, PartialEq, Eq)]
pub struct RunConfig {
    pub window: WindowMode,
    /// Where cores find BIOS and other system files.
    pub system_dir: String,
    /// A per-run save directory, a second layer under `--sram-mode
    /// noload-nosave`; it must exist.
    pub savefile_dir: String,
    /// The core options file: a copy of `--core-options`, or empty so the
    /// core runs on its built-in defaults.
    pub core_options: String,
    /// Configuration for paused capture mode; `None` means the settle flow
    /// is used instead, and no command port is enabled.
    pub paused: Option<PausedConfig>,
    /// Whether this run loads a static image through RetroArch's built-in
    /// image viewer core rather than a game core.
    pub image_viewer: bool,
}

/// `"true"` or `"false"`.
pub open spec fn flag_text(b: bool) -> Seq<char> {
    if b {
        "true"@
    } else {
        "false"@
    }
}

/// The paths a run config writes, in the order they are checked.
pub open spec fn run_paths(c: RunConfig) -> Seq<Seq<char>> {
    let base = seq![c.system_dir@, c.savefile_dir@, c.core_options@];
    match c.paused {
        Some(p) => base.push(p.states.savestate_directory@),
        None => base,
    }
}

/// The first of `paths` that a config value cannot carry.
pub open spec fn first_unsafe(paths: Seq<Seq<char>>) -> Option<Seq<char>>
    decreases paths.len(),
{
    if paths.len() == 0 {
        None
    } else if !config_safe(paths[0]) {
        Some(paths[0])
    } else {
        first_unsafe(paths.drop_first())
    }
}

/// The settings every run sets, before the window's.
pub open spec fn run_common(c: RunConfig) -> Seq<(Seq<char>, Seq<char>)> {
    seq![
        ("config_save_on_exit"@, "false"@),
        ("video_driver"@, "vulkan"@),
        ("video_shader_enable"@, "true"@),
        ("system_directory"@, c.system_dir@),
        ("savefile_directory"@, c.savefile_dir@),
        ("sort_savefiles_enable"@, "false"@),
        ("sort_savefiles_by_content_enable"@, "false"@),
        ("savefiles_in_content_dir"@, "false"@),
        ("savestate_auto_save"@, "false"@),
        ("savestate_auto_load"@, "false"@),
        ("global_core_options"@, "true"@),
        ("core_options_path"@, c.core_options@),
        ("game_specific_options"@, "false"@),
        ("auto_overrides_enable"@, "false"@),
        ("auto_remaps_enable"@, "false"@),
        ("auto_shaders_enable"@, "false"@),
        ("history_list_enable"@, "false"@),
        ("pause_nonactive"@, "false"@),
        ("menu_show_load_content_animation"@, "false"@),
        ("video_font_enable"@, "false"@),
    ]
}

/// The settings for paused capture: where the states are, how they are
/// sorted, and the command port and slot.
pub open spec fn paused_settings(p: Option<PausedConfig>) -> Seq<(Seq<char>, Seq<char>)> {
    match p {
        Some(p) => seq![
            ("savestate_directory"@, p.states.savestate_directory@),
            ("sort_savestates_enable"@, flag_text(p.states.sort_by_core)),
            ("sort_savestates_by_content_enable"@, flag_text(p.states.sort_by_content)),
            ("savestates_in_content_dir"@, flag_text(p.states.in_content_dir)),
            ("network_cmd_enable"@, "true"@),
            ("network_cmd_port"@, decimal(p.port as nat)),
            ("state_slot"@, decimal(p.slot as nat)),
        ],
        None => seq![],
    }
}

/// The image viewer's setting, when the run loads an image.
pub open spec fn viewer_settings(image_viewer: bool) -> Seq<(Seq<char>, Seq<char>)> {
    if image_viewer {
        seq![("builtin_imageviewer_enable"@, "true"@)]
    } else {
        seq![]
    }
}

/// Every setting of a run config, in the order they are written.
pub open spec fn run_settings(c: RunConfig) -> Seq<(Seq<char>, Seq<char>)> {
    run_common(c) + window_settings(c.window) + paused_settings(c.paused) + viewer_settings(
        c.image_viewer,
    )
}

/// The error for a path a config value cannot carry.
pub open spec fn unsafe_path_message(p: Seq<char>) -> Seq<char> {
    p + " contains a quote or newline, which a retroarch.cfg value cannot carry"@
}

/// `flag_text` computed.
fn flag(b: bool) -> (s: &'static str)
    ensures
        s@ == flag_text(b),
{
    if b {
        "true"
    } else {
        "false"
    }
}

impl RunConfig {
    /// The config text. Fails, naming the path, if a path it would write
    /// cannot be carried by a `retroarch.cfg` value (see [`is_config_safe`]);
    /// the paths are checked in the order they are written.
    pub fn render(&self) -> (r: Result<String, String>)
        ensures
            match first_unsafe(run_paths(*self)) {
                Some(p) => r matches Err(e) && e@ == unsafe_path_message(p),
                None => r matches Ok(s) && s@ == cfg_text(run_settings(*self)),
            },
    {
        let ghost paths = run_paths(*self);
        proof {
            reveal_with_fuel(first_unsafe, 5);
        }
        assert(paths[0] == self.system_dir@);
        assert(paths.drop_first()[0] == self.savefile_dir@);
        assert(paths.drop_first().drop_first()[0] == self.core_options@);
        if !is_config_safe(self.system_dir.as_str()) {
            return Err(self.unsafe_path_error(&self.system_dir));
        }
        if !is_config_safe(self.savefile_dir.as_str()) {
            return Err(self.unsafe_path_error(&self.savefile_dir));
        }
        if !is_config_safe(self.core_options.as_str()) {
            return Err(self.unsafe_path_error(&self.core_options));
        }
        if let Some(paused) = &self.paused {
            if !is_config_safe(paused.states.savestate_directory.as_str()) {
                assert(paths.drop_first().drop_first().drop_first().drop_first() =~= seq![]);
                return Err(self.unsafe_path_error(&paused.states.savestate_directory));
            }
            assert(paths.drop_first().drop_first().drop_first().drop_first() =~= seq![]);
        } else {
            assert(paths.drop_first().drop_first().drop_first() =~= seq![]);
        }
        let mut out = String::new();
        let ghost mut l: Seq<(Seq<char>, Seq<char>)> = seq![];
        assert(out@ =~= cfg_text(l));
        push_setting(&mut out, Ghost(l), "config_save_on_exit", "false");
        proof { l = l.push(("config_save_on_exit"@, "false"@)); }
        push_setting(&mut out, Ghost(l), "video_driver", "vulkan");
        proof { l = l.push(("video_driver"@, "vulkan"@)); }
        push_setting(&mut out, Ghost(l), "video_shader_enable", "true");
        proof { l = l.push(("video_shader_enable"@, "true"@)); }
        push_setting(&mut out, Ghost(l), "system_directory", self.system_dir.as_str());
        proof { l = l.push(("system_directory"@, self.system_dir@)); }
        push_setting(&mut out, Ghost(l), "savefile_directory", self.savefile_dir.as_str());
        proof { l = l.push(("savefile_directory"@, self.savefile_dir@)); }
        push_setting(&mut out, Ghost(l), "sort_savefiles_enable", "false");
        proof { l = l.push(("sort_savefiles_enable"@, "false"@)); }
        push_setting(&mut out, Ghost(l), "sort_savefiles_by_content_enable", "false");
        proof { l = l.push(("sort_savefiles_by_content_enable"@, "false"@)); }
        push_setting(&mut out, Ghost(l), "savefiles_in_content_dir", "false");
        proof { l = l.push(("savefiles_in_content_dir"@, "false"@)); }
        push_setting(&mut out, Ghost(l), "savestate_auto_save", "false");
        proof { l = l.push(("savestate_auto_save"@, "false"@)); }
        push_setting(&mut out, Ghost(l), "savestate_auto_load", "false");
        proof { l = l.push(("savestate_auto_load"@, "false"@)); }
        push_setting(&mut out, Ghost(l), "global_core_options", "true");
        proof { l = l.push(("global_core_options"@, "true"@)); }
        push_setting(&mut out, Ghost(l), "core_options_path", self.core_options.as_str());
        proof { l = l.push(("core_options_path"@, self.core_options@)); }
        push_setting(&mut out, Ghost(l), "game_specific_options", "false");
        proof { l = l.push(("game_specific_options"@, "false"@)); }
        push_setting(&mut out, Ghost(l), "auto_overrides_enable", "false");
        proof { l = l.push(("auto_overrides_enable"@, "false"@)); }
        push_setting(&mut out, Ghost(l), "auto_remaps_enable", "false");
        proof { l = l.push(("auto_remaps_enable"@, "false"@)); }
        push_setting(&mut out, Ghost(l), "auto_shaders_enable", "false");
        proof { l = l.push(("auto_shaders_enable"@, "false"@)); }
        push_setting(&mut out, Ghost(l), "history_list_enable", "false");
        proof { l = l.push(("history_list_enable"@, "false"@)); }
        push_setting(&mut out, Ghost(l), "pause_nonactive", "false");
        proof { l = l.push(("pause_nonactive"@, "false"@)); }
        push_setting(&mut out, Ghost(l), "menu_show_load_content_animation", "false");
        proof { l = l.push(("menu_show_load_content_animation"@, "false"@)); }
        push_setting(&mut out, Ghost(l), "video_font_enable", "false");
        proof { l = l.push(("video_font_enable"@, "false"@)); }
        assert(l =~= run_common(*self));
        push_window_settings(&mut out, Ghost(l), &self.window);
        proof { l = l + window_settings(self.window); }
        if let Some(paused) = &self.paused {
            let states = &paused.states;
            push_setting(&mut out, Ghost(l), "savestate_directory", states.savestate_directory.as_str());
            proof { l = l.push(("savestate_directory"@, states.savestate_directory@)); }
            push_setting(&mut out, Ghost(l), "sort_savestates_enable", flag(states.sort_by_core));
            proof { l = l.push(("sort_savestates_enable"@, flag_text(states.sort_by_core))); }
            push_setting(
                &mut out,
                Ghost(l),
                "sort_savestates_by_content_enable",
                flag(states.sort_by_content),
            );
            proof { l = l.push(("sort_savestates_by_content_enable"@, flag_text(states.sort_by_content))); }
            push_setting(&mut out, Ghost(l), "savestates_in_content_dir", flag(states.in_content_dir));
            proof { l = l.push(("savestates_in_content_dir"@, flag_text(states.in_content_dir))); }
            push_setting(&mut out, Ghost(l), "network_cmd_enable", "true");
            proof { l = l.push(("network_cmd_enable"@, "true"@)); }
            push_number_setting(&mut out, Ghost(l), "network_cmd_port", paused.port as u64);
            proof { l = l.push(("network_cmd_port"@, decimal(paused.port as nat))); }
            push_number_setting(&mut out, Ghost(l), "state_slot", paused.slot as u64);
            proof { l = l.push(("state_slot"@, decimal(paused.slot as nat))); }
        }
        if self.image_viewer {
            push_setting(&mut out, Ghost(l), "builtin_imageviewer_enable", "true");
            proof { l = l.push(("builtin_imageviewer_enable"@, "true"@)); }
        }
        assert(l =~= run_settings(*self));
        Ok(out)
    }

    /// The error naming `p`.
    fn unsafe_path_error(&self, p: &String) -> (e: String)
        ensures
            e@ == unsafe_path_message(p@),
    {
        let mut e = p.clone();
        push_str(&mut e, " contains a quote or newline, which a retroarch.cfg value cannot carry");
        e
    }
}

/// Whether every setting of `lines` is read back as written.
pub open spec fn all_plain(lines: Seq<(Seq<char>, Seq<char>)>) -> bool {
    forall|i: int| 0 <= i < lines.len() ==> plain_setting(#[trigger] lines[i].0, lines[i].1)
}

proof fn lemma_common_plain(c: RunConfig)
    requires
        config_safe(c.system_dir@),
        config_safe(c.savefile_dir@),
        config_safe(c.core_options@),
    ensures
        all_plain(run_common(c)),
{
    reveal_strlit("config_save_on_exit");
    reveal_strlit("video_driver");
    reveal_strlit("video_shader_enable");
    reveal_strlit("system_directory");
    reveal_strlit("savefile_directory");
    reveal_strlit("sort_savefiles_enable");
    reveal_strlit("sort_savefiles_by_content_enable");
    reveal_strlit("savefiles_in_content_dir");
    reveal_strlit("savestate_auto_save");
    reveal_strlit("savestate_auto_load");
    reveal_strlit("global_core_options");
    reveal_strlit("core_options_path");
    reveal_strlit("game_specific_options");
    reveal_strlit("auto_overrides_enable");
    reveal_strlit("auto_remaps_enable");
    reveal_strlit("auto_shaders_enable");
    reveal_strlit("history_list_enable");
    reveal_strlit("pause_nonactive");
    reveal_strlit("menu_show_load_content_animation");
    reveal_strlit("video_font_enable");
    reveal_strlit("false");
    reveal_strlit("true");
    reveal_strlit("vulkan");
    let l = run_common(c);
    assert forall|i: int| 0 <= i < l.len() implies plain_setting(#[trigger] l[i].0, l[i].1) by {}
}

pub(crate) proof fn lemma_all_plain_concat(a: Seq<(Seq<char>, Seq<char>)>, b: Seq<(Seq<char>, Seq<char>)>)
    requires
        all_plain(a),
        all_plain(b),
    ensures
        all_plain(a + b),
{
    assert forall|i: int| 0 <= i < (a + b).len() implies plain_setting(
        #[trigger] (a + b)[i].0,
        (a + b)[i].1,
    ) by {
        if i >= a.len() {
            assert((a + b)[i] == b[i - a.len()]);
        }
    }
}

pub(crate) proof fn lemma_key_absent_concat(
    a: Seq<(Seq<char>, Seq<char>)>,
    b: Seq<(Seq<char>, Seq<char>)>,
    key: Seq<char>,
)
    requires
        key_absent(a, key),
        key_absent(b, key),
    ensures
        key_absent(a + b, key),
{
    assert forall|j: int| 0 <= j < (a + b).len() implies #[trigger] (a + b)[j].0 != key by {
        if j >= a.len() {
            assert((a + b)[j] == b[j - a.len()]);
        }
    }
}

/// A number in decimal is one line.
pub(crate) proof fn lemma_decimal_one_line(n: nat)
    ensures
        !has_char(decimal(n), '\n'),
    decreases n,
{
    if n >= 10 {
        lemma_decimal_one_line(n / 10);
        let d = decimal(n / 10);
        assert forall|i: int| 0 <= i < decimal(n).len() implies decimal(n)[i] != '\n' by {
            if i < d.len() {
                assert(decimal(n)[i] == d[i]);
            }
        }
    }
}

/// Every path a config writes can be carried when none is refused.
proof fn lemma_first_unsafe_none(paths: Seq<Seq<char>>)
    requires
        first_unsafe(paths) is None,
    ensures
        forall|i: int| 0 <= i < paths.len() ==> config_safe(#[trigger] paths[i]),
    decreases paths.len(),
{
    if paths.len() > 0 {
        lemma_first_unsafe_none(paths.drop_first());
        assert forall|i: int| 0 <= i < paths.len() implies config_safe(#[trigger] paths[i]) by {
            if i > 0 {
                assert(paths[i] == paths.drop_first()[i - 1]);
            }
        }
    }
}

pub(crate) proof fn lemma_window_plain(w: WindowMode)
    ensures
        all_plain(window_settings(w)),
{
    reveal_strlit("video_fullscreen");
    reveal_strlit("video_window_save_positions");
    reveal_strlit("video_scale");
    reveal_strlit("video_window_auto_width_max");
    reveal_strlit("video_window_auto_height_max");
    reveal_strlit("video_windowed_position_width");
    reveal_strlit("video_windowed_position_height");
    reveal_strlit("video_fullscreen_x");
    reveal_strlit("video_fullscreen_y");
    reveal_strlit("false");
    reveal_strlit("true");
    reveal_strlit("20");
    reveal_strlit("0");
    match w {
        WindowMode::Fill { max } => {
            lemma_decimal_one_line(max.width as nat);
            lemma_decimal_one_line(max.height as nat);
        },
        WindowMode::Exact(size) => {
            lemma_decimal_one_line(size.width as nat);
            lemma_decimal_one_line(size.height as nat);
        },
        WindowMode::Scale(n) => {
            lemma_decimal_one_line(n as nat);
        },
        WindowMode::Fullscreen => {},
    }
    let l = window_settings(w);
    assert forall|i: int| 0 <= i < l.len() implies plain_setting(#[trigger] l[i].0, l[i].1) by {}
}

proof fn lemma_paused_plain(p: Option<PausedConfig>)
    requires
        p matches Some(q) ==> config_safe(q.states.savestate_directory@),
    ensures
        all_plain(paused_settings(p)),
{
    reveal_strlit("savestate_directory");
    reveal_strlit("sort_savestates_enable");
    reveal_strlit("sort_savestates_by_content_enable");
    reveal_strlit("savestates_in_content_dir");
    reveal_strlit("network_cmd_enable");
    reveal_strlit("network_cmd_port");
    reveal_strlit("state_slot");
    reveal_strlit("false");
    reveal_strlit("true");
    if let Some(q) = p {
        lemma_decimal_one_line(q.port as nat);
        lemma_decimal_one_line(q.slot as nat);
    }
    let l = paused_settings(p);
    assert forall|i: int| 0 <= i < l.len() implies plain_setting(#[trigger] l[i].0, l[i].1) by {}
}

pub(crate) proof fn lemma_viewer_plain(b: bool)
    ensures
        all_plain(viewer_settings(b)),
{
    reveal_strlit("builtin_imageviewer_enable");
    reveal_strlit("true");
    let l = viewer_settings(b);
    assert forall|i: int| 0 <= i < l.len() implies plain_setting(#[trigger] l[i].0, l[i].1) by {}
}

/// The settings after the common ones.
pub open spec fn run_rest(c: RunConfig) -> Seq<(Seq<char>, Seq<char>)> {
    window_settings(c.window) + paused_settings(c.paused) + viewer_settings(c.image_viewer)
}

/// None of the keys of the window, paused and viewer settings is one of
/// the common keys.
proof fn lemma_rest_avoids_common(c: RunConfig, key: Seq<char>)
    requires
        key == "config_save_on_exit"@ || key == "savestate_auto_save"@ || key
            == "savestate_auto_load"@ || key == "pause_nonactive"@ || key == "system_directory"@
            || key == "savefile_directory"@ || key == "core_options_path"@,
    ensures
        key_absent(run_rest(c), key),
{
    reveal_strlit("config_save_on_exit");
    reveal_strlit("savestate_auto_save");
    reveal_strlit("savestate_auto_load");
    reveal_strlit("pause_nonactive");
    reveal_strlit("system_directory");
    reveal_strlit("savefile_directory");
    reveal_strlit("core_options_path");
    reveal_strlit("video_fullscreen");
    reveal_strlit("video_window_save_positions");
    reveal_strlit("video_scale");
    reveal_strlit("video_window_auto_width_max");
    reveal_strlit("video_window_auto_height_max");
    reveal_strlit("video_windowed_position_width");
    reveal_strlit("video_windowed_position_height");
    reveal_strlit("video_fullscreen_x");
    reveal_strlit("video_fullscreen_y");
    reveal_strlit("savestate_directory");
    reveal_strlit("sort_savestates_enable");
    reveal_strlit("sort_savestates_by_content_enable");
    reveal_strlit("savestates_in_content_dir");
    reveal_strlit("network_cmd_enable");
    reveal_strlit("network_cmd_port");
    reveal_strlit("state_slot");
    reveal_strlit("builtin_imageviewer_enable");
    let w = window_settings(c.window);
    let p = paused_settings(c.paused);
    let v = viewer_settings(c.image_viewer);
    assert forall|j: int| 0 <= j < w.len() implies #[trigger] w[j].0 != key by {
        match c.window {
            WindowMode::Fill { .. } => {},
            WindowMode::Exact(_) => {},
            WindowMode::Scale(_) => {},
            WindowMode::Fullscreen => {},
        }
        assert(w[j].0[0] != key[0] || w[j].0.len() != key.len());
    }
    assert forall|j: int| 0 <= j < p.len() implies #[trigger] p[j].0 != key by {
        assert(p[j].0[0] != key[0] || p[j].0.len() != key.len() || p[j].0[10] != key[10]);
    }
    assert forall|j: int| 0 <= j < v.len() implies #[trigger] v[j].0 != key by {
        assert(v[j].0.len() != key.len() || v[j].0[0] != key[0]);
    }
    lemma_key_absent_concat(w, p, key);
    lemma_key_absent_concat(w + p, v, key);
}

/// What RetroArch reads from the run config of `c`, when no path is
/// refused: every setting as written. So it never saves its config on
/// exit, never saves or loads a state on its own, keeps running when
/// unfocused, and finds the system, save and core options paths of the
/// run; with a paused capture its command interface is on at the port
/// and its states directory and slot are the run's; without one no
/// command interface is enabled.
pub proof fn lemma_run_config_reads_back(c: RunConfig)
    requires
        first_unsafe(run_paths(c)) is None,
    ensures
        ({
            let m = spec_read_all(cfg_text(run_settings(c)));
            &&& m == settings_map(run_settings(c))
            &&& m.dom().contains("config_save_on_exit"@) && m["config_save_on_exit"@] == "false"@
            &&& m.dom().contains("savestate_auto_save"@) && m["savestate_auto_save"@] == "false"@
            &&& m.dom().contains("savestate_auto_load"@) && m["savestate_auto_load"@] == "false"@
            &&& m.dom().contains("pause_nonactive"@) && m["pause_nonactive"@] == "false"@
            &&& m.dom().contains("system_directory"@) && m["system_directory"@] == c.system_dir@
            &&& m.dom().contains("savefile_directory"@) && m["savefile_directory"@]
                == c.savefile_dir@
            &&& m.dom().contains("core_options_path"@) && m["core_options_path"@]
                == c.core_options@
            &&& match c.paused {
                Some(p) => {
                    &&& m.dom().contains("network_cmd_enable"@) && m["network_cmd_enable"@]
                        == "true"@
                    &&& m.dom().contains("network_cmd_port"@) && m["network_cmd_port"@] == decimal(
                        p.port as nat,
                    )
                    &&& m.dom().contains("state_slot"@) && m["state_slot"@] == decimal(
                        p.slot as nat,
                    )
                    &&& m.dom().contains("savestate_directory"@) && m["savestate_directory"@]
                        == p.states.savestate_directory@
                },
                None => !m.dom().contains("network_cmd_enable"@),
            }
        }),
{
    let lines = run_settings(c);
    let paths = run_paths(c);
    lemma_first_unsafe_none(paths);
    assert(config_safe(paths[0]) && config_safe(paths[1]) && config_safe(paths[2]));
    if let Some(p) = c.paused {
        assert(config_safe(paths[3]));
    }
    lemma_common_plain(c);
    lemma_window_plain(c.window);
    lemma_paused_plain(c.paused);
    lemma_viewer_plain(c.image_viewer);
    let common = run_common(c);
    let w = window_settings(c.window);
    let ps = paused_settings(c.paused);
    let v = viewer_settings(c.image_viewer);
    lemma_all_plain_concat(common, w);
    lemma_all_plain_concat(common + w, ps);
    lemma_all_plain_concat(common + w + ps, v);
    assert(lines == common + w + ps + v);
    lemma_written_settings_read_back(lines);
    let m = settings_map(lines);
    let empty = Map::<Seq<char>, Seq<char>>::empty();
    // The common settings: each key once, none of them after.
    let rest = run_rest(c);
    assert(lines =~= common + rest);
    lemma_insert_settings_concat(empty, common, rest);
    reveal_strlit("config_save_on_exit");
    reveal_strlit("savestate_auto_save");
    reveal_strlit("savestate_auto_load");
    reveal_strlit("pause_nonactive");
    reveal_strlit("system_directory");
    reveal_strlit("savefile_directory");
    reveal_strlit("core_options_path");
    reveal_strlit("video_driver");
    reveal_strlit("video_shader_enable");
    reveal_strlit("sort_savefiles_enable");
    reveal_strlit("sort_savefiles_by_content_enable");
    reveal_strlit("savefiles_in_content_dir");
    reveal_strlit("global_core_options");
    reveal_strlit("game_specific_options");
    reveal_strlit("auto_overrides_enable");
    reveal_strlit("auto_remaps_enable");
    reveal_strlit("auto_shaders_enable");
    reveal_strlit("history_list_enable");
    reveal_strlit("menu_show_load_content_animation");
    reveal_strlit("video_font_enable");
    let first = insert_settings(empty, common);
    assert forall|i: int| 0 <= i < common.len() && (common[i].0 == "config_save_on_exit"@
        || common[i].0 == "savestate_auto_save"@ || common[i].0 == "savestate_auto_load"@
        || common[i].0 == "pause_nonactive"@ || common[i].0 == "system_directory"@
        || common[i].0 == "savefile_directory"@ || common[i].0 == "core_options_path"@) implies
        #[trigger] m.dom().contains(common[i].0) && m[common[i].0] == common[i].1 by {
        let tail = common.subrange(i + 1, common.len() as int);
        assert forall|j: int| 0 <= j < tail.len() implies #[trigger] tail[j].0 != common[i].0 by {
            assert(tail[j] == common[i + 1 + j]);
        }
        lemma_insert_settings_last(empty, common, i);
        lemma_rest_avoids_common(c, common[i].0);
        lemma_insert_settings_keeps(first, rest, common[i].0);
    }
    assert(common[0].0 == "config_save_on_exit"@ && m.dom().contains(common[0].0));
    assert(common[8].0 == "savestate_auto_save"@ && m.dom().contains(common[8].0));
    assert(common[9].0 == "savestate_auto_load"@ && m.dom().contains(common[9].0));
    assert(common[17].0 == "pause_nonactive"@ && m.dom().contains(common[17].0));
    assert(common[3].0 == "system_directory"@ && m.dom().contains(common[3].0));
    assert(common[4].0 == "savefile_directory"@ && m.dom().contains(common[4].0));
    assert(common[11].0 == "core_options_path"@ && m.dom().contains(common[11].0));
    // The paused settings, after which only the viewer's come.
    reveal_strlit("savestate_directory");
    reveal_strlit("sort_savestates_enable");
    reveal_strlit("sort_savestates_by_content_enable");
    reveal_strlit("savestates_in_content_dir");
    reveal_strlit("network_cmd_enable");
    reveal_strlit("network_cmd_port");
    reveal_strlit("state_slot");
    reveal_strlit("builtin_imageviewer_enable");
    let before = common + w;
    lemma_insert_settings_concat(empty, before + ps, v);
    lemma_insert_settings_concat(empty, before, ps);
    let at_paused = insert_settings(empty, before);
    let after_paused = insert_settings(at_paused, ps);
    assert forall|i: int| 0 <= i < ps.len() implies #[trigger] m.dom().contains(ps[i].0)
        && m[ps[i].0] == ps[i].1 by {
        let tail = ps.subrange(i + 1, ps.len() as int);
        assert forall|j: int| 0 <= j < tail.len() implies #[trigger] tail[j].0 != ps[i].0 by {
            assert(tail[j] == ps[i + 1 + j]);
        }
        lemma_insert_settings_last(at_paused, ps, i);
        assert forall|j: int| 0 <= j < v.len() implies #[trigger] v[j].0 != ps[i].0 by {}
        lemma_insert_settings_keeps(after_paused, v, ps[i].0);
    }
    match c.paused {
        Some(p) => {
            assert(ps[4].0 == "network_cmd_enable"@ && m.dom().contains(ps[4].0));
            assert(ps[5].0 == "network_cmd_port"@ && m.dom().contains(ps[5].0));
            assert(ps[6].0 == "state_slot"@ && m.dom().contains(ps[6].0));
            assert(ps[0].0 == "savestate_directory"@ && m.dom().contains(ps[0].0));
        },
        None => {
            let key = "network_cmd_enable"@;
            assert forall|j: int| 0 <= j < common.len() implies #[trigger] common[j].0 != key by {}
            lemma_rest_avoids_network(c);
            lemma_key_absent_concat(common, rest, key);
            lemma_insert_settings_keeps(empty, lines, key);
        },
    }
}

/// Without a paused capture no setting enables the command interface.
proof fn lemma_rest_avoids_network(c: RunConfig)
    requires
        c.paused is None,
    ensures
        key_absent(run_rest(c), "network_cmd_enable"@),
{
    reveal_strlit("network_cmd_enable");
    reveal_strlit("video_fullscreen");
    reveal_strlit("video_window_save_positions");
    reveal_strlit("video_scale");
    reveal_strlit("video_window_auto_width_max");
    reveal_strlit("video_window_auto_height_max");
    reveal_strlit("video_windowed_position_width");
    reveal_strlit("video_windowed_position_height");
    reveal_strlit("video_fullscreen_x");
    reveal_strlit("video_fullscreen_y");
    reveal_strlit("builtin_imageviewer_enable");
    let key = "network_cmd_enable"@;
    let w = window_settings(c.window);
    let p = paused_settings(c.paused);
    let v = viewer_settings(c.image_viewer);
    assert forall|j: int| 0 <= j < w.len() implies #[trigger] w[j].0 != key by {
        match c.window {
            WindowMode::Fill { .. } => {},
            WindowMode::Exact(_) => {},
            WindowMode::Scale(_) => {},
            WindowMode::Fullscreen => {},
        }
        assert(w[j].0[0] != key[0] || w[j].0.len() != key.len());
    }
    assert forall|j: int| 0 <= j < p.len() implies #[trigger] p[j].0 != key by {
        assert(p[j].0[0] != key[0] || p[j].0.len() != key.len() || p[j].0[10] != key[10]);
    }
    assert forall|j: int| 0 <= j < v.len() implies #[trigger] v[j].0 != key by {
        assert(v[j].0.len() != key.len() || v[j].0[0] != key[0]);
    }
    lemma_key_absent_concat(w, p, key);
    lemma_key_absent_concat(w + p, v, key);
}

/// Whether no key occurs twice in `lines`.
pub open spec fn keys_distinct(lines: Seq<(Seq<char>, Seq<char>)>) -> bool {
    forall|i: int, j: int| 0 <= i < j < lines.len() ==> #[trigger] lines[i].0 != #[trigger] lines[j].0
}

/// Whether no key of `a` is a key of `b`.
pub open spec fn keys_apart(a: Seq<(Seq<char>, Seq<char>)>, b: Seq<(Seq<char>, Seq<char>)>) -> bool {
    forall|i: int, j: int| 0 <= i < a.len() && 0 <= j < b.len() ==> #[trigger] a[i].0 != #[trigger] b[j].0
}

proof fn lemma_keys_distinct_concat(a: Seq<(Seq<char>, Seq<char>)>, b: Seq<(Seq<char>, Seq<char>)>)
    requires
        keys_distinct(a),
        keys_distinct(b),
        keys_apart(a, b),
    ensures
        keys_distinct(a + b),
{
    assert forall|i: int, j: int| 0 <= i < j < (a + b).len() implies #[trigger] (a + b)[i].0 != #[trigger] (a
        + b)[j].0 by {
        if j < a.len() {
            assert((a + b)[i] == a[i] && (a + b)[j] == a[j]);
        } else if i >= a.len() {
            assert((a + b)[i] == b[i - a.len()] && (a + b)[j] == b[j - a.len()]);
        } else {
            assert((a + b)[i] == a[i] && (a + b)[j] == b[j - a.len()]);
        }
    }
}

proof fn lemma_keys_apart_concat(
    a: Seq<(Seq<char>, Seq<char>)>,
    b: Seq<(Seq<char>, Seq<char>)>,
    c: Seq<(Seq<char>, Seq<char>)>,
)
    requires
        keys_apart(a, c),
        keys_apart(b, c),
    ensures
        keys_apart(a + b, c),
{
    assert forall|i: int, j: int| 0 <= i < (a + b).len() && 0 <= j < c.len() implies #[trigger] (a + b)[i].0
        != #[trigger] c[j].0 by {
        if i < a.len() {
            assert((a + b)[i] == a[i]);
        } else {
            assert((a + b)[i] == b[i - a.len()]);
        }
    }
}

/// Two keys differ where they differ in length or at one of the places
/// where keys of the same length here differ.
pub open spec fn keys_differ(x: Seq<char>, y: Seq<char>) -> bool {
    x.len() != y.len() || x[0] != y[0] || x[10] != y[10] || x[13] != y[13] || x[15] != y[15]
        || x[17] != y[17]
}

proof fn lemma_common_distinct(c: RunConfig)
    ensures
        keys_distinct(run_common(c)),
{
    reveal_strlit("config_save_on_exit");
    reveal_strlit("video_driver");
    reveal_strlit("video_shader_enable");
    reveal_strlit("system_directory");
    reveal_strlit("savefile_directory");
    reveal_strlit("sort_savefiles_enable");
    reveal_strlit("sort_savefiles_by_content_enable");
    reveal_strlit("savefiles_in_content_dir");
    reveal_strlit("savestate_auto_save");
    reveal_strlit("savestate_auto_load");
    reveal_strlit("global_core_options");
    reveal_strlit("core_options_path");
    reveal_strlit("game_specific_options");
    reveal_strlit("auto_overrides_enable");
    reveal_strlit("auto_remaps_enable");
    reveal_strlit("auto_shaders_enable");
    reveal_strlit("history_list_enable");
    reveal_strlit("pause_nonactive");
    reveal_strlit("menu_show_load_content_animation");
    reveal_strlit("video_font_enable");

    let l = run_common(c);
    assert forall|i: int, j: int| 0 <= i < j < l.len() implies #[trigger] l[i].0 != #[trigger] l[j].0 by {
        assert(keys_differ(l[i].0, l[j].0));
    }
}

proof fn lemma_window_distinct(c: RunConfig)
    ensures
        keys_distinct(window_settings(c.window)),
{
    reveal_strlit("video_fullscreen");
    reveal_strlit("video_window_save_positions");
    reveal_strlit("video_scale");
    reveal_strlit("video_window_auto_width_max");
    reveal_strlit("video_window_auto_height_max");
    reveal_strlit("video_windowed_position_width");
    reveal_strlit("video_windowed_position_height");
    reveal_strlit("video_fullscreen_x");
    reveal_strlit("video_fullscreen_y");
    let l = window_settings(c.window);
    assert forall|i: int, j: int| 0 <= i < j < l.len() implies #[trigger] l[i].0 != #[trigger] l[j].0 by {
        match c.window {
            WindowMode::Fill { .. } => {},
            WindowMode::Exact(_) => {},
            WindowMode::Scale(_) => {},
            WindowMode::Fullscreen => {},
        }
        assert(keys_differ(l[i].0, l[j].0));
    }
}

proof fn lemma_paused_distinct(c: RunConfig)
    ensures
        keys_distinct(paused_settings(c.paused)),
{
    reveal_strlit("savestate_directory");
    reveal_strlit("sort_savestates_enable");
    reveal_strlit("sort_savestates_by_content_enable");
    reveal_strlit("savestates_in_content_dir");
    reveal_strlit("network_cmd_enable");
    reveal_strlit("network_cmd_port");
    reveal_strlit("state_slot");
    let l = paused_settings(c.paused);
    assert forall|i: int, j: int| 0 <= i < j < l.len() implies #[trigger] l[i].0 != #[trigger] l[j].0 by {
        assert(keys_differ(l[i].0, l[j].0));
    }
}

proof fn lemma_common_apart_from_window(c: RunConfig)
    ensures
        keys_apart(run_common(c), window_settings(c.window)),
{
    reveal_strlit("config_save_on_exit");
    reveal_strlit("video_driver");
    reveal_strlit("video_shader_enable");
    reveal_strlit("system_directory");
    reveal_strlit("savefile_directory");
    reveal_strlit("sort_savefiles_enable");
    reveal_strlit("sort_savefiles_by_content_enable");
    reveal_strlit("savefiles_in_content_dir");
    reveal_strlit("savestate_auto_save");
    reveal_strlit("savestate_auto_load");
    reveal_strlit("global_core_options");
    reveal_strlit("core_options_path");
    reveal_strlit("game_specific_options");
    reveal_strlit("auto_overrides_enable");
    reveal_strlit("auto_remaps_enable");
    reveal_strlit("auto_shaders_enable");
    reveal_strlit("history_list_enable");
    reveal_strlit("pause_nonactive");
    reveal_strlit("menu_show_load_content_animation");
    reveal_strlit("video_font_enable");
    reveal_strlit("video_fullscreen");
    reveal_strlit("video_window_save_positions");
    reveal_strlit("video_scale");
    reveal_strlit("video_window_auto_width_max");
    reveal_strlit("video_window_auto_height_max");
    reveal_strlit("video_windowed_position_width");
    reveal_strlit("video_windowed_position_height");
    reveal_strlit("video_fullscreen_x");
    reveal_strlit("video_fullscreen_y");
    let a = run_common(c);
    let b = window_settings(c.window);
    assert forall|i: int, j: int| 0 <= i < a.len() && 0 <= j < b.len() implies #[trigger] a[i].0 != #[trigger] b[j].0 by {
        match c.window {
            WindowMode::Fill { .. } => {},
            WindowMode::Exact(_) => {},
            WindowMode::Scale(_) => {},
            WindowMode::Fullscreen => {},
        }
        assert(keys_differ(a[i].0, b[j].0));
    }
}

proof fn lemma_paused_apart(c: RunConfig)
    ensures
        keys_apart(run_common(c), paused_settings(c.paused)),
        keys_apart(window_settings(c.window), paused_settings(c.paused)),
{
    reveal_strlit("config_save_on_exit");
    reveal_strlit("video_driver");
    reveal_strlit("video_shader_enable");
    reveal_strlit("system_directory");
    reveal_strlit("savefile_directory");
    reveal_strlit("sort_savefiles_enable");
    reveal_strlit("sort_savefiles_by_content_enable");
    reveal_strlit("savefiles_in_content_dir");
    reveal_strlit("savestate_auto_save");
    reveal_strlit("savestate_auto_load");
    reveal_strlit("global_core_options");
    reveal_strlit("core_options_path");
    reveal_strlit("game_specific_options");
    reveal_strlit("auto_overrides_enable");
    reveal_strlit("auto_remaps_enable");
    reveal_strlit("auto_shaders_enable");
    reveal_strlit("history_list_enable");
    reveal_strlit("pause_nonactive");
    reveal_strlit("menu_show_load_content_animation");
    reveal_strlit("video_font_enable");
    reveal_strlit("video_fullscreen");
    reveal_strlit("video_window_save_positions");
    reveal_strlit("video_scale");
    reveal_strlit("video_window_auto_width_max");
    reveal_strlit("video_window_auto_height_max");
    reveal_strlit("video_windowed_position_width");
    reveal_strlit("video_windowed_position_height");
    reveal_strlit("video_fullscreen_x");
    reveal_strlit("video_fullscreen_y");
    reveal_strlit("savestate_directory");
    reveal_strlit("sort_savestates_enable");
    reveal_strlit("sort_savestates_by_content_enable");
    reveal_strlit("savestates_in_content_dir");
    reveal_strlit("network_cmd_enable");
    reveal_strlit("network_cmd_port");
    reveal_strlit("state_slot");
    let a = run_common(c);
    let w = window_settings(c.window);
    let b = paused_settings(c.paused);
    assert forall|i: int, j: int| 0 <= i < a.len() && 0 <= j < b.len() implies #[trigger] a[i].0 != #[trigger] b[j].0 by {
        assert(keys_differ(a[i].0, b[j].0));
    }
    assert forall|i: int, j: int| 0 <= i < w.len() && 0 <= j < b.len() implies #[trigger] w[i].0 != #[trigger] b[j].0 by {
        match c.window {
            WindowMode::Fill { .. } => {},
            WindowMode::Exact(_) => {},
            WindowMode::Scale(_) => {},
            WindowMode::Fullscreen => {},
        }
        assert(keys_differ(w[i].0, b[j].0));
    }
}

proof fn lemma_viewer_apart(c: RunConfig)
    ensures
        keys_apart(run_common(c), viewer_settings(c.image_viewer)),
        keys_apart(window_settings(c.window), viewer_settings(c.image_viewer)),
        keys_apart(paused_settings(c.paused), viewer_settings(c.image_viewer)),
        keys_distinct(viewer_settings(c.image_viewer)),
{
    reveal_strlit("config_save_on_exit");
    reveal_strlit("video_driver");
    reveal_strlit("video_shader_enable");
    reveal_strlit("system_directory");
    reveal_strlit("savefile_directory");
    reveal_strlit("sort_savefiles_enable");
    reveal_strlit("sort_savefiles_by_content_enable");
    reveal_strlit("savefiles_in_content_dir");
    reveal_strlit("savestate_auto_save");
    reveal_strlit("savestate_auto_load");
    reveal_strlit("global_core_options");
    reveal_strlit("core_options_path");
    reveal_strlit("game_specific_options");
    reveal_strlit("auto_overrides_enable");
    reveal_strlit("auto_remaps_enable");
    reveal_strlit("auto_shaders_enable");
    reveal_strlit("history_list_enable");
    reveal_strlit("pause_nonactive");
    reveal_strlit("menu_show_load_content_animation");
    reveal_strlit("video_font_enable");
    reveal_strlit("video_fullscreen");
    reveal_strlit("video_window_save_positions");
    reveal_strlit("video_scale");
    reveal_strlit("video_window_auto_width_max");
    reveal_strlit("video_window_auto_height_max");
    reveal_strlit("video_windowed_position_width");
    reveal_strlit("video_windowed_position_height");
    reveal_strlit("video_fullscreen_x");
    reveal_strlit("video_fullscreen_y");
    reveal_strlit("savestate_directory");
    reveal_strlit("sort_savestates_enable");
    reveal_strlit("sort_savestates_by_content_enable");
    reveal_strlit("savestates_in_content_dir");
    reveal_strlit("network_cmd_enable");
    reveal_strlit("network_cmd_port");
    reveal_strlit("state_slot");
    reveal_strlit("builtin_imageviewer_enable");
    let a = run_common(c);
    let w = window_settings(c.window);
    let p = paused_settings(c.paused);
    let v = viewer_settings(c.image_viewer);
    assert forall|i: int, j: int| 0 <= i < a.len() && 0 <= j < v.len() implies #[trigger] a[i].0 != #[trigger] v[j].0 by {
        assert(keys_differ(a[i].0, v[j].0));
    }
    assert forall|i: int, j: int| 0 <= i < w.len() && 0 <= j < v.len() implies #[trigger] w[i].0 != #[trigger] v[j].0 by {
        match c.window {
            WindowMode::Fill { .. } => {},
            WindowMode::Exact(_) => {},
            WindowMode::Scale(_) => {},
            WindowMode::Fullscreen => {},
        }
        assert(keys_differ(w[i].0, v[j].0));
    }
    assert forall|i: int, j: int| 0 <= i < p.len() && 0 <= j < v.len() implies #[trigger] p[i].0 != #[trigger] v[j].0 by {
        assert(keys_differ(p[i].0, v[j].0));
    }
}

/// A run config names each key once: its text holds no setting that a
/// later line would override.
pub proof fn lemma_run_config_keys_distinct(c: RunConfig)
    ensures
        keys_distinct(run_settings(c)),
{
    let a = run_common(c);
    let w = window_settings(c.window);
    let p = paused_settings(c.paused);
    let v = viewer_settings(c.image_viewer);
    lemma_common_distinct(c);
    lemma_window_distinct(c);
    lemma_paused_distinct(c);
    lemma_common_apart_from_window(c);
    lemma_paused_apart(c);
    lemma_viewer_apart(c);
    lemma_keys_distinct_concat(a, w);
    lemma_keys_apart_concat(a, w, p);
    lemma_keys_distinct_concat(a + w, p);
    lemma_keys_apart_concat(a, w, v);
    lemma_keys_apart_concat(a + w, p, v);
    lemma_keys_distinct_concat(a + w + p, v);
}

} // verus!
