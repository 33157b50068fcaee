//! The per-run appendconfig that overrides the user's `retroarch.cfg` for
//! one launch. The user's file is never written.
use crate::config::{spec_read_all, WindowMode};
use crate::retroarch::cfgfile::{
    cfg_text, config_safe, insert_settings, key_absent, lemma_insert_settings_concat,
    lemma_insert_settings_keeps, lemma_insert_settings_last, lemma_written_settings_read_back,
    plain_setting, push_number_setting, push_setting, push_window_settings, settings_map,
    window_settings,
};
use crate::retroarch::runconfig::{
    all_plain, lemma_all_plain_concat, lemma_decimal_one_line, lemma_key_absent_concat,
    lemma_viewer_plain, lemma_window_plain, viewer_settings,
};
use crate::text::decimal;
use vstd::prelude::*;

pub use crate::retroarch::runconfig::is_config_safe;

verus! {

/// Configuration for paused capture mode.
#[derive(Debug, Clone, Copy, PartialEq, Eq, Structural)]
pub struct PausedConfig {
    pub port: u16,
    pub slot: u32,
}

/// The per-run appendconfig. Rendered text overrides the user's config for
/// this launch only; the user's file is never written.
#[derive(Debug, Clone, PartialEq, Eq)]
pub struct AppendConfig {
    pub window: WindowMode,
    /// When a `--state` file was staged, the temp savestate dir to point RetroArch at.
    pub staged_states_dir: Option<String>,
    /// Configuration for paused capture mode; `None` means the settle flow
    /// is used instead, and no command port is enabled in the appendconfig.
    pub paused: Option<PausedConfig>,
    /// Whether this run loads a static image through RetroArch's built-in
    /// image viewer core rather than a game core.
    pub image_viewer: bool,
}

/// The settings every appendconfig sets, before the window's.
pub open spec fn append_common() -> Seq<(Seq<char>, Seq<char>)> {
    seq![
        ("config_save_on_exit"@, "false"@),
        ("savestate_auto_save"@, "false"@),
        ("savestate_auto_load"@, "false"@),
        ("pause_nonactive"@, "false"@),
        ("menu_show_load_content_animation"@, "false"@),
        ("video_font_enable"@, "false"@),
    ]
}

/// The settings that point RetroArch at a staged state's directory.
pub open spec fn staged_settings(dir: Option<String>) -> Seq<(Seq<char>, Seq<char>)> {
    match dir {
        Some(d) => seq![
            ("savestate_directory"@, d@),
            ("sort_savestates_enable"@, "false"@),
            ("sort_savestates_by_content_enable"@, "false"@),
            ("savestates_in_content_dir"@, "false"@),
        ],
        None => seq![],
    }
}

/// The command port and slot for paused capture.
pub open spec fn append_paused_settings(p: Option<PausedConfig>) -> Seq<(Seq<char>, Seq<char>)> {
    match p {
        Some(p) => seq![
            ("network_cmd_enable"@, "true"@),
            ("network_cmd_port"@, decimal(p.port as nat)),
            ("state_slot"@, decimal(p.slot as nat)),
        ],
        None => seq![],
    }
}

/// Every setting of an appendconfig, in the order they are written.
pub open spec fn append_settings(c: AppendConfig) -> Seq<(Seq<char>, Seq<char>)> {
    append_common() + window_settings(c.window) + staged_settings(c.staged_states_dir)
        + append_paused_settings(c.paused) + crate::retroarch::runconfig::viewer_settings(
        c.image_viewer,
    )
}

impl AppendConfig {
    /// The appendconfig text: the common settings, the window's, the staged
    /// states directory's, the paused capture's, and the image viewer's.
    pub fn render(&self) -> (s: String)
        ensures
            s@ == cfg_text(append_settings(*self)),
    {
        let mut out = String::new();
        let ghost mut l: Seq<(Seq<char>, Seq<char>)> = seq![];
        assert(out@ =~= cfg_text(l));
        push_setting(&mut out, Ghost(l), "config_save_on_exit", "false");
        proof { l = l.push(("config_save_on_exit"@, "false"@)); }
        push_setting(&mut out, Ghost(l), "savestate_auto_save", "false");
        proof { l = l.push(("savestate_auto_save"@, "false"@)); }
        push_setting(&mut out, Ghost(l), "savestate_auto_load", "false");
        proof { l = l.push(("savestate_auto_load"@, "false"@)); }
        push_setting(&mut out, Ghost(l), "pause_nonactive", "false");
        proof { l = l.push(("pause_nonactive"@, "false"@)); }
        push_setting(&mut out, Ghost(l), "menu_show_load_content_animation", "false");
        proof { l = l.push(("menu_show_load_content_animation"@, "false"@)); }
        push_setting(&mut out, Ghost(l), "video_font_enable", "false");
        proof { l = l.push(("video_font_enable"@, "false"@)); }
        assert(l =~= append_common());
        push_window_settings(&mut out, Ghost(l), &self.window);
        proof { l = l + window_settings(self.window); }
        if let Some(dir) = &self.staged_states_dir {
            push_setting(&mut out, Ghost(l), "savestate_directory", dir.as_str());
            proof { l = l.push(("savestate_directory"@, dir@)); }
            push_setting(&mut out, Ghost(l), "sort_savestates_enable", "false");
            proof { l = l.push(("sort_savestates_enable"@, "false"@)); }
            push_setting(&mut out, Ghost(l), "sort_savestates_by_content_enable", "false");
            proof { l = l.push(("sort_savestates_by_content_enable"@, "false"@)); }
            push_setting(&mut out, Ghost(l), "savestates_in_content_dir", "false");
            proof { l = l.push(("savestates_in_content_dir"@, "false"@)); }
        }
        if let Some(paused) = &self.paused {
            push_setting(&mut out, Ghost(l), "network_cmd_enable", "true");
            proof { l = l.push(("network_cmd_enable"@, "true"@)); }
            push_number_setting(&mut out, Ghost(l), "network_cmd_port", paused.port as u64);
            proof { l = l.push(("network_cmd_port"@, decimal(paused.port as nat))); }
            push_number_setting(&mut out, Ghost(l), "state_slot", paused.slot as u64);
            proof { l = l.push(("state_slot"@, decimal(paused.slot as nat))); }
        }
        if self.image_viewer {
            push_setting(&mut out, Ghost(l), "builtin_imageviewer_enable", "true");
            proof { l = l.push(("builtin_imageviewer_enable"@, "true"@)); }
        }
        assert(l =~= append_settings(*self));
        out
    }
}

/// The settings after the common ones.
pub open spec fn append_rest(c: AppendConfig) -> Seq<(Seq<char>, Seq<char>)> {
    window_settings(c.window) + staged_settings(c.staged_states_dir) + append_paused_settings(
        c.paused,
    ) + viewer_settings(c.image_viewer)
}

proof fn lemma_append_parts_plain(c: AppendConfig)
    requires
        c.staged_states_dir matches Some(d) ==> config_safe(d@),
    ensures
        all_plain(append_common()),
        all_plain(staged_settings(c.staged_states_dir)),
        all_plain(append_paused_settings(c.paused)),
{
    reveal_strlit("config_save_on_exit");
    reveal_strlit("savestate_auto_save");
    reveal_strlit("savestate_auto_load");
    reveal_strlit("pause_nonactive");
    reveal_strlit("menu_show_load_content_animation");
    reveal_strlit("video_font_enable");
    reveal_strlit("savestate_directory");
    reveal_strlit("sort_savestates_enable");
    reveal_strlit("sort_savestates_by_content_enable");
    reveal_strlit("savestates_in_content_dir");
    reveal_strlit("network_cmd_enable");
    reveal_strlit("network_cmd_port");
    reveal_strlit("state_slot");
    reveal_strlit("false");
    reveal_strlit("true");
    if let Some(p) = c.paused {
        lemma_decimal_one_line(p.port as nat);
        lemma_decimal_one_line(p.slot as nat);
    }
    let a = append_common();
    let b = staged_settings(c.staged_states_dir);
    let d = append_paused_settings(c.paused);
    assert forall|i: int| 0 <= i < a.len() implies plain_setting(#[trigger] a[i].0, a[i].1) by {}
    assert forall|i: int| 0 <= i < b.len() implies plain_setting(#[trigger] b[i].0, b[i].1) by {}
    assert forall|i: int| 0 <= i < d.len() implies plain_setting(#[trigger] d[i].0, d[i].1) by {}
}

/// None of the later settings has one of the common keys, or (without a
/// paused capture) the command interface's.
proof fn lemma_append_rest_avoids(c: AppendConfig, key: Seq<char>)
    requires
        key == "config_save_on_exit"@ || key == "savestate_auto_save"@ || key
            == "savestate_auto_load"@ || key == "pause_nonactive"@ || (c.paused is None && key
            == "network_cmd_enable"@),
    ensures
        key_absent(append_rest(c), key),
{
    reveal_strlit("config_save_on_exit");
    reveal_strlit("savestate_auto_save");
    reveal_strlit("savestate_auto_load");
    reveal_strlit("pause_nonactive");
    reveal_strlit("video_fullscreen");
    reveal_strlit("video_window_save_positions");
    reveal_strlit("video_scale");
    reveal_strlit("video_window_auto_width_max");
    reveal_strlit("video_window_auto_height_max");
    reveal_strlit("video_windowed_position_width");
    reveal_strlit("video_windowed_position_height");
    reveal_strlit("video_fullscreen_x");
    reveal_strlit("video_fullscreen_y");
    reveal_strlit("savestate_directory");
    reveal_strlit("sort_savestates_enable");
    reveal_strlit("sort_savestates_by_content_enable");
    reveal_strlit("savestates_in_content_dir");
    reveal_strlit("network_cmd_enable");
    reveal_strlit("network_cmd_port");
    reveal_strlit("state_slot");
    reveal_strlit("builtin_imageviewer_enable");
    let w = window_settings(c.window);
    let st = staged_settings(c.staged_states_dir);
    let p = append_paused_settings(c.paused);
    let v = viewer_settings(c.image_viewer);
    assert forall|j: int| 0 <= j < w.len() implies #[trigger] w[j].0 != key by {
        match c.window {
            WindowMode::Fill { .. } => {},
            WindowMode::Exact(_) => {},
            WindowMode::Scale(_) => {},
            WindowMode::Fullscreen => {},
        }
        assert(w[j].0[0] != key[0] || w[j].0.len() != key.len());
    }
    assert forall|j: int| 0 <= j < st.len() implies #[trigger] st[j].0 != key by {
        assert(st[j].0[0] != key[0] || st[j].0.len() != key.len() || st[j].0[10] != key[10]);
    }
    assert forall|j: int| 0 <= j < p.len() implies #[trigger] p[j].0 != key by {
        assert(p[j].0[0] != key[0] || p[j].0.len() != key.len());
    }
    assert forall|j: int| 0 <= j < v.len() implies #[trigger] v[j].0 != key by {
        assert(v[j].0.len() != key.len() || v[j].0[0] != key[0]);
    }
    lemma_key_absent_concat(w, st, key);
    lemma_key_absent_concat(w + st, p, key);
    lemma_key_absent_concat(w + st + p, v, key);
}

/// What RetroArch reads from the appendconfig of `c`, when the staged
/// states directory (if any) can be carried: every setting as written. So
/// it never saves its config on exit, never saves or loads a state on its
/// own and keeps running when unfocused; a staged state's directory is the
/// one it reads states from; with a paused capture its command interface
/// is on at the port and the slot is the run's; without one no command
/// interface is enabled.
pub proof fn lemma_appendconfig_reads_back(c: AppendConfig)
    requires
        c.staged_states_dir matches Some(d) ==> config_safe(d@),
    ensures
        ({
            let m = spec_read_all(cfg_text(append_settings(c)));
            &&& m == settings_map(append_settings(c))
            &&& m.dom().contains("config_save_on_exit"@) && m["config_save_on_exit"@] == "false"@
            &&& m.dom().contains("savestate_auto_save"@) && m["savestate_auto_save"@] == "false"@
            &&& m.dom().contains("savestate_auto_load"@) && m["savestate_auto_load"@] == "false"@
            &&& m.dom().contains("pause_nonactive"@) && m["pause_nonactive"@] == "false"@
            &&& (c.staged_states_dir matches Some(d) ==> m.dom().contains("savestate_directory"@)
                && m["savestate_directory"@] == d@)
            &&& match c.paused {
                Some(p) => {
                    &&& m.dom().contains("network_cmd_enable"@) && m["network_cmd_enable"@]
                        == "true"@
                    &&& m.dom().contains("network_cmd_port"@) && m["network_cmd_port"@] == decimal(
                        p.port as nat,
                    )
                    &&& m.dom().contains("state_slot"@) && m["state_slot"@] == decimal(
                        p.slot as nat,
                    )
                },
                None => !m.dom().contains("network_cmd_enable"@),
            }
        }),
{
    let lines = append_settings(c);
    let common = append_common();
    let w = window_settings(c.window);
    let st = staged_settings(c.staged_states_dir);
    let ps = append_paused_settings(c.paused);
    let v = viewer_settings(c.image_viewer);
    lemma_append_parts_plain(c);
    lemma_window_plain(c.window);
    lemma_viewer_plain(c.image_viewer);
    lemma_all_plain_concat(common, w);
    lemma_all_plain_concat(common + w, st);
    lemma_all_plain_concat(common + w + st, ps);
    lemma_all_plain_concat(common + w + st + ps, v);
    lemma_written_settings_read_back(lines);
    let m = settings_map(lines);
    let empty = Map::<Seq<char>, Seq<char>>::empty();
    reveal_strlit("config_save_on_exit");
    reveal_strlit("savestate_auto_save");
    reveal_strlit("savestate_auto_load");
    reveal_strlit("pause_nonactive");
    reveal_strlit("menu_show_load_content_animation");
    reveal_strlit("video_font_enable");
    reveal_strlit("savestate_directory");
    reveal_strlit("sort_savestates_enable");
    reveal_strlit("sort_savestates_by_content_enable");
    reveal_strlit("savestates_in_content_dir");
    reveal_strlit("network_cmd_enable");
    reveal_strlit("network_cmd_port");
    reveal_strlit("state_slot");
    reveal_strlit("builtin_imageviewer_enable");
    // The common settings: each key once, none of them after.
    let rest = append_rest(c);
    assert(lines =~= common + rest);
    lemma_insert_settings_concat(empty, common, rest);
    let first = insert_settings(empty, common);
    assert forall|i: int| 0 <= i < 4 implies #[trigger] m.dom().contains(common[i].0) && m[common[i].0]
        == common[i].1 by {
        let tail = common.subrange(i + 1, common.len() as int);
        assert forall|j: int| 0 <= j < tail.len() implies #[trigger] tail[j].0 != common[i].0 by {
            assert(tail[j] == common[i + 1 + j]);
        }
        lemma_insert_settings_last(empty, common, i);
        lemma_append_rest_avoids(c, common[i].0);
        lemma_insert_settings_keeps(first, rest, common[i].0);
    }
    assert(m.dom().contains(common[0].0) && m.dom().contains(common[1].0));
    assert(m.dom().contains(common[2].0) && m.dom().contains(common[3].0));
    // The staged directory, then the paused settings, then the viewer's.
    let before = common + w;
    lemma_insert_settings_concat(empty, before + st + ps, v);
    lemma_insert_settings_concat(empty, before + st, ps);
    lemma_insert_settings_concat(empty, before, st);
    let at_staged = insert_settings(empty, before);
    let after_staged = insert_settings(at_staged, st);
    let after_paused = insert_settings(after_staged, ps);
    if let Some(d) = c.staged_states_dir {
        let key = st[0].0;
        let tail = st.subrange(1, st.len() as int);
        assert forall|j: int| 0 <= j < tail.len() implies #[trigger] tail[j].0 != key by {
            assert(tail[j] == st[1 + j]);
        }
        lemma_insert_settings_last(at_staged, st, 0);
        assert forall|j: int| 0 <= j < ps.len() implies #[trigger] ps[j].0 != key by {}
        lemma_insert_settings_keeps(after_staged, ps, key);
        assert forall|j: int| 0 <= j < v.len() implies #[trigger] v[j].0 != key by {}
        lemma_insert_settings_keeps(after_paused, v, key);
        assert(m.dom().contains(key));
    }
    assert forall|i: int| 0 <= i < ps.len() implies #[trigger] m.dom().contains(ps[i].0)
        && m[ps[i].0] == ps[i].1 by {
        let tail = ps.subrange(i + 1, ps.len() as int);
        assert forall|j: int| 0 <= j < tail.len() implies #[trigger] tail[j].0 != ps[i].0 by {
            assert(tail[j] == ps[i + 1 + j]);
        }
        lemma_insert_settings_last(after_staged, ps, i);
        assert forall|j: int| 0 <= j < v.len() implies #[trigger] v[j].0 != ps[i].0 by {}
        lemma_insert_settings_keeps(after_paused, v, ps[i].0);
    }
    match c.paused {
        Some(p) => {
            assert(m.dom().contains(ps[0].0) && m.dom().contains(ps[1].0) && m.dom().contains(
                ps[2].0,
            ));
        },
        None => {
            let key = "network_cmd_enable"@;
            assert forall|j: int| 0 <= j < common.len() implies #[trigger] common[j].0 != key by {}
            lemma_append_rest_avoids(c, key);
            lemma_key_absent_concat(common, rest, key);
            lemma_insert_settings_keeps(empty, lines, key);
        },
    }
}

} // verus!
