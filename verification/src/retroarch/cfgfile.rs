//! Writing `retroarch.cfg` text: one `key = "value"` line per setting, and
//! the settings that size RetroArch's window.
use crate::config::{
    find_char, is_ws, line_entry, read_from, skip_ws, skip_ws_back, spec_read_all, Size,
    WindowMode,
};
use crate::text::{decimal, has_char, push_decimal, push_str};
use vstd::prelude::*;

verus! {

/// One setting as it is written: `key = "value"` and a newline.
pub open spec fn cfg_line(key: Seq<char>, value: Seq<char>) -> Seq<char> {
    key + " = \""@ + value + "\"\n"@
}

/// The text of a list of settings, in order.
pub open spec fn cfg_text(lines: Seq<(Seq<char>, Seq<char>)>) -> Seq<char>
    decreases lines.len(),
{
    if lines.len() == 0 {
        Seq::empty()
    } else {
        cfg_text(lines.drop_last()) + cfg_line(lines.last().0, lines.last().1)
    }
}

/// The text of the settings `a` and then `b` is the text of `a`, then
/// that of `b`.
pub proof fn lemma_cfg_text_concat(
    a: Seq<(Seq<char>, Seq<char>)>,
    b: Seq<(Seq<char>, Seq<char>)>,
)
    ensures
        cfg_text(a + b) == cfg_text(a) + cfg_text(b),
    decreases b.len(),
{
    if b.len() == 0 {
        assert(a + b =~= a);
        assert(cfg_text(b) =~= Seq::<char>::empty());
        assert(cfg_text(a) + cfg_text(b) =~= cfg_text(a));
    } else {
        lemma_cfg_text_concat(a, b.drop_last());
        assert((a + b).drop_last() =~= a + b.drop_last());
        assert((a + b).last() == b.last());
    }
}

/// Appends the setting `key = "value"` to `out`, which holds the text of
/// `lines`.
pub fn push_setting(
    out: &mut String,
    Ghost(lines): Ghost<Seq<(Seq<char>, Seq<char>)>>,
    key: &str,
    value: &str,
)
    requires
        old(out)@ == cfg_text(lines),
    ensures
        final(out)@ == cfg_text(lines.push((key@, value@))),
{
    push_str(out, key);
    push_str(out, " = \"");
    push_str(out, value);
    push_str(out, "\"\n");
    assert(lines.push((key@, value@)).drop_last() =~= lines);
    assert(final(out)@ =~= cfg_text(lines) + cfg_line(key@, value@));
}

/// Appends the setting `key = "n"` to `out`, which holds the text of
/// `lines`.
pub fn push_number_setting(
    out: &mut String,
    Ghost(lines): Ghost<Seq<(Seq<char>, Seq<char>)>>,
    key: &str,
    n: u64,
)
    requires
        old(out)@ == cfg_text(lines),
    ensures
        final(out)@ == cfg_text(lines.push((key@, decimal(n as nat)))),
{
    push_str(out, key);
    push_str(out, " = \"");
    push_decimal(out, n);
    push_str(out, "\"\n");
    assert(lines.push((key@, decimal(n as nat))).drop_last() =~= lines);
    assert(final(out)@ =~= cfg_text(lines) + cfg_line(key@, decimal(n as nat)));
}

/// The settings that size RetroArch's window for `window`.
pub open spec fn window_settings(window: WindowMode) -> Seq<(Seq<char>, Seq<char>)> {
    match window {
        WindowMode::Fill { max } => seq![
            ("video_fullscreen"@, "false"@),
            ("video_window_save_positions"@, "false"@),
            ("video_scale"@, "20"@),
            ("video_window_auto_width_max"@, decimal(max.width as nat)),
            ("video_window_auto_height_max"@, decimal(max.height as nat)),
        ],
        WindowMode::Exact(size) => seq![
            ("video_fullscreen"@, "false"@),
            ("video_window_save_positions"@, "true"@),
            ("video_windowed_position_width"@, decimal(size.width as nat)),
            ("video_windowed_position_height"@, decimal(size.height as nat)),
        ],
        WindowMode::Scale(n) => seq![
            ("video_fullscreen"@, "false"@),
            ("video_window_save_positions"@, "false"@),
            ("video_scale"@, decimal(n as nat)),
            ("video_window_auto_width_max"@, "0"@),
            ("video_window_auto_height_max"@, "0"@),
            ("video_fullscreen_x"@, "0"@),
            ("video_fullscreen_y"@, "0"@),
        ],
        WindowMode::Fullscreen => seq![],
    }
}

/// Appends the window settings for `window` to `out`, which holds the
/// text of `lines`.
pub fn push_window_settings(
    out: &mut String,
    Ghost(lines): Ghost<Seq<(Seq<char>, Seq<char>)>>,
    window: &WindowMode,
)
    requires
        old(out)@ == cfg_text(lines),
    ensures
        final(out)@ == cfg_text(lines + window_settings(*window)),
{
    let ghost l = lines;
    match window {
        WindowMode::Fill { max } => {
            push_setting(out, Ghost(l), "video_fullscreen", "false");
            proof { l = l.push(("video_fullscreen"@, "false"@)); }
            push_setting(out, Ghost(l), "video_window_save_positions", "false");
            proof { l = l.push(("video_window_save_positions"@, "false"@)); }
            push_setting(out, Ghost(l), "video_scale", "20");
            proof { l = l.push(("video_scale"@, "20"@)); }
            push_number_setting(out, Ghost(l), "video_window_auto_width_max", max.width as u64);
            proof { l = l.push(("video_window_auto_width_max"@, decimal(max.width as nat))); }
            push_number_setting(out, Ghost(l), "video_window_auto_height_max", max.height as u64);
            proof { l = l.push(("video_window_auto_height_max"@, decimal(max.height as nat))); }
        },
        WindowMode::Exact(size) => {
            push_setting(out, Ghost(l), "video_fullscreen", "false");
            proof { l = l.push(("video_fullscreen"@, "false"@)); }
            push_setting(out, Ghost(l), "video_window_save_positions", "true");
            proof { l = l.push(("video_window_save_positions"@, "true"@)); }
            push_number_setting(out, Ghost(l), "video_windowed_position_width", size.width as u64);
            proof { l = l.push(("video_windowed_position_width"@, decimal(size.width as nat))); }
            push_number_setting(out, Ghost(l), "video_windowed_position_height", size.height as u64);
            proof { l = l.push(("video_windowed_position_height"@, decimal(size.height as nat))); }
        },
        WindowMode::Scale(n) => {
            push_setting(out, Ghost(l), "video_fullscreen", "false");
            proof { l = l.push(("video_fullscreen"@, "false"@)); }
            push_setting(out, Ghost(l), "video_window_save_positions", "false");
            proof { l = l.push(("video_window_save_positions"@, "false"@)); }
            push_number_setting(out, Ghost(l), "video_scale", *n as u64);
            proof { l = l.push(("video_scale"@, decimal(*n as nat))); }
            push_setting(out, Ghost(l), "video_window_auto_width_max", "0");
            proof { l = l.push(("video_window_auto_width_max"@, "0"@)); }
            push_setting(out, Ghost(l), "video_window_auto_height_max", "0");
            proof { l = l.push(("video_window_auto_height_max"@, "0"@)); }
            push_setting(out, Ghost(l), "video_fullscreen_x", "0");
            proof { l = l.push(("video_fullscreen_x"@, "0"@)); }
            push_setting(out, Ghost(l), "video_fullscreen_y", "0");
            proof { l = l.push(("video_fullscreen_y"@, "0"@)); }
        },
        WindowMode::Fullscreen => {},
    }
    assert(l =~= lines + window_settings(*window));
}

/// Whether a path can be written into a `retroarch.cfg` value unchanged:
/// it holds no `"`, which the format has no escape for, and no newline or
/// carriage return, which would start a new key.
pub open spec fn config_safe(s: Seq<char>) -> bool {
    !has_char(s, '"') && !has_char(s, '\n') && !has_char(s, '\r')
}

/// Whether `key = "value"` is read back as written: the key is not empty,
/// starts and ends with no white space, does not start a `#` comment and
/// holds no `=`; neither holds a newline. The value is written between
/// quotes, so white space, quotes and `=` inside it survive.
pub open spec fn plain_setting(key: Seq<char>, value: Seq<char>) -> bool {
    &&& key.len() > 0
    &&& !is_ws(key[0])
    &&& !is_ws(key.last())
    &&& key[0] != '#'
    &&& !has_char(key, '=')
    &&& !has_char(key, '\n')
    &&& !has_char(value, '\n')
}

/// The settings inserted into `acc` in order, so that a later value for a
/// key replaces an earlier one.
pub open spec fn insert_settings(
    acc: Map<Seq<char>, Seq<char>>,
    lines: Seq<(Seq<char>, Seq<char>)>,
) -> Map<Seq<char>, Seq<char>>
    decreases lines.len(),
{
    if lines.len() == 0 {
        acc
    } else {
        insert_settings(acc.insert(lines[0].0, lines[0].1), lines.drop_first())
    }
}

/// Each key of `lines` with the value its last setting gives it.
pub open spec fn settings_map(lines: Seq<(Seq<char>, Seq<char>)>) -> Map<Seq<char>, Seq<char>> {
    insert_settings(Map::empty(), lines)
}

proof fn lemma_find_char_at(s: Seq<char>, c: char, a: int, j: int, b: int)
    requires
        a <= j < b,
        s[j] == c,
        forall|k: int| a <= k < j ==> s[k] != c,
    ensures
        find_char(s, c, a, b) == j,
    decreases j - a,
{
    if a < j {
        lemma_find_char_at(s, c, a + 1, j, b);
    }
}

/// The line `cfg_line(key, value)` standing at `pos` in `s` is read as
/// the pair `(key, value)`, and reading goes on after its newline.
proof fn lemma_line_read_back(
    s: Seq<char>,
    pos: int,
    key: Seq<char>,
    value: Seq<char>,
    acc: Map<Seq<char>, Seq<char>>,
)
    requires
        plain_setting(key, value),
        0 <= pos,
        pos + cfg_line(key, value).len() <= s.len(),
        s.subrange(pos, pos + cfg_line(key, value).len()) == cfg_line(key, value),
    ensures
        read_from(s, pos, acc) == read_from(
            s,
            pos + cfg_line(key, value).len(),
            acc.insert(key, value),
        ),
{
    reveal_strlit(" = \"");
    reveal_strlit("\"\n");
    let line = cfg_line(key, value);
    let kl = key.len() as int;
    let vl = value.len() as int;
    assert(line.len() == kl + vl + 6);
    assert forall|k: int| pos <= k < pos + line.len() implies #[trigger] s[k] == line[k - pos] by {
        assert(s.subrange(pos, pos + line.len())[k - pos] == s[k]);
    }
    assert forall|i: int| 0 <= i < kl implies #[trigger] line[i] == key[i] by {}
    assert forall|i: int| 0 <= i < vl implies #[trigger] line[kl + 4 + i] == value[i] by {}
    assert(line[kl] == ' ');
    assert(line[kl + 1] == '=');
    assert(line[kl + 2] == ' ');
    assert(line[kl + 3] == '"');
    assert(line[kl + 4 + vl] == '"');
    assert(line[kl + 5 + vl] == '\n');
    let e = pos + kl + vl + 5;
    // The line ends at its newline.
    assert forall|k: int| pos <= k < e implies s[k] != '\n' by {
        let i = k - pos;
        assert(s[pos + i] == line[i]);
        if i < kl {
            assert(line[i] == key[i]);
            assert(s[k] == key[i]);
            assert(!has_char(key, '\n'));
        } else if kl + 4 <= i < kl + 4 + vl {
            assert(line[kl + 4 + (i - kl - 4)] == value[i - kl - 4]);
            assert(s[k] == value[i - kl - 4]);
            assert(!has_char(value, '\n'));
        }
    }
    lemma_find_char_at(s, '\n', pos, e, s.len() as int);
    // Trimming the line changes nothing: it starts with the key and ends
    // with a quote.
    assert(s[pos] == key[0]);
    assert(skip_ws(s, pos, e) == pos);
    assert(s[e - 1] == '"');
    assert(skip_ws_back(s, pos, e) == e);
    // The first `=` is the one after the key.
    let eq = pos + kl + 1;
    assert forall|k: int| pos <= k < eq implies s[k] != '=' by {
        if k - pos < kl {
            assert(s[k] == key[k - pos]);
            assert(!has_char(key, '='));
        }
    }
    lemma_find_char_at(s, '=', pos, eq, e);
    // The key is the text before it, trimmed.
    assert(s[eq - 1] == ' ');
    assert(s[pos + kl - 1] == key.last());
    assert(skip_ws_back(s, pos, pos + kl) == pos + kl);
    assert(skip_ws_back(s, pos, eq) == pos + kl);
    assert(s.subrange(pos, pos + kl) =~= key);
    // The value is the text after it, trimmed and unquoted.
    assert(s[eq + 1] == ' ');
    assert(s[eq + 2] == '"');
    assert(skip_ws(s, eq + 2, e) == eq + 2);
    assert(skip_ws(s, eq + 1, e) == eq + 2);
    assert(skip_ws_back(s, eq + 2, e) == e);
    assert(s.subrange(eq + 3, e - 1) =~= value);
    assert(line_entry(s, pos, e) == Some((key, value)));
    assert(e + 1 == pos + line.len());
}

/// Reading the settings `lines` written after `prefix` inserts them into
/// `acc` in order.
proof fn lemma_settings_read_back(
    prefix: Seq<char>,
    lines: Seq<(Seq<char>, Seq<char>)>,
    acc: Map<Seq<char>, Seq<char>>,
)
    requires
        forall|i: int| 0 <= i < lines.len() ==> plain_setting(#[trigger] lines[i].0, lines[i].1),
    ensures
        read_from(prefix + cfg_text(lines), prefix.len() as int, acc) == insert_settings(
            acc,
            lines,
        ),
    decreases lines.len(),
{
    let s = prefix + cfg_text(lines);
    if lines.len() == 0 {
        assert(cfg_text(lines) =~= Seq::<char>::empty());
        assert(s =~= prefix);
    } else {
        let first = seq![lines[0]];
        let rest = lines.drop_first();
        assert(first + rest =~= lines);
        lemma_cfg_text_concat(first, rest);
        let none = Seq::<(Seq<char>, Seq<char>)>::empty();
        assert(first.drop_last() =~= none);
        assert(cfg_text(none) =~= Seq::<char>::empty());
        assert(cfg_text(first) =~= cfg_text(none) + cfg_line(lines[0].0, lines[0].1));
        assert(cfg_text(first) =~= cfg_line(lines[0].0, lines[0].1));
        let line = cfg_line(lines[0].0, lines[0].1);
        assert(plain_setting(lines[0].0, lines[0].1));
        assert(s =~= (prefix + line) + cfg_text(rest));
        assert(s.subrange(prefix.len() as int, (prefix.len() + line.len()) as int) =~= line);
        lemma_line_read_back(s, prefix.len() as int, lines[0].0, lines[0].1, acc);
        assert forall|i: int| 0 <= i < rest.len() implies plain_setting(
            #[trigger] rest[i].0,
            rest[i].1,
        ) by {
            assert(rest[i] == lines[i + 1]);
        }
        lemma_settings_read_back(prefix + line, rest, acc.insert(lines[0].0, lines[0].1));
    }
}

/// Inserting the settings `a` and then `b` is inserting `a + b`.
pub proof fn lemma_insert_settings_concat(
    acc: Map<Seq<char>, Seq<char>>,
    a: Seq<(Seq<char>, Seq<char>)>,
    b: Seq<(Seq<char>, Seq<char>)>,
)
    ensures
        insert_settings(acc, a + b) == insert_settings(insert_settings(acc, a), b),
    decreases a.len(),
{
    if a.len() == 0 {
        assert(a + b =~= b);
    } else {
        assert((a + b).drop_first() =~= a.drop_first() + b);
        assert((a + b)[0] == a[0]);
        lemma_insert_settings_concat(acc.insert(a[0].0, a[0].1), a.drop_first(), b);
    }
}

/// Whether no setting of `lines` has the key `key`.
pub open spec fn key_absent(lines: Seq<(Seq<char>, Seq<char>)>, key: Seq<char>) -> bool {
    forall|j: int| 0 <= j < lines.len() ==> #[trigger] lines[j].0 != key
}

/// Settings without `key` leave what `acc` holds for it as it was.
pub proof fn lemma_insert_settings_keeps(
    acc: Map<Seq<char>, Seq<char>>,
    lines: Seq<(Seq<char>, Seq<char>)>,
    key: Seq<char>,
)
    requires
        key_absent(lines, key),
    ensures
        insert_settings(acc, lines).dom().contains(key) == acc.dom().contains(key),
        acc.dom().contains(key) ==> insert_settings(acc, lines)[key] == acc[key],
    decreases lines.len(),
{
    if lines.len() > 0 {
        assert(lines[0].0 != key);
        assert forall|j: int| 0 <= j < lines.drop_first().len() implies #[trigger] lines.drop_first()[j].0
            != key by {
            assert(lines.drop_first()[j] == lines[j + 1]);
        }
        lemma_insert_settings_keeps(acc.insert(lines[0].0, lines[0].1), lines.drop_first(), key);
    }
}

/// The value the settings `lines` give a key is that of the last setting
/// with it: the one at `i` when none after it has its key.
pub proof fn lemma_insert_settings_last(
    acc: Map<Seq<char>, Seq<char>>,
    lines: Seq<(Seq<char>, Seq<char>)>,
    i: int,
)
    requires
        0 <= i < lines.len(),
        key_absent(lines.subrange(i + 1, lines.len() as int), lines[i].0),
    ensures
        insert_settings(acc, lines).dom().contains(lines[i].0),
        insert_settings(acc, lines)[lines[i].0] == lines[i].1,
    decreases lines.len(),
{
    let rest = lines.drop_first();
    if i == 0 {
        assert(rest =~= lines.subrange(1, lines.len() as int));
        lemma_insert_settings_keeps(acc.insert(lines[0].0, lines[0].1), rest, lines[0].0);
    } else {
        assert(rest[i - 1] == lines[i]);
        assert(rest.subrange(i, rest.len() as int) =~= lines.subrange(i + 1, lines.len() as int));
        lemma_insert_settings_last(acc.insert(lines[0].0, lines[0].1), rest, i - 1);
    }
}

/// Settings written as `key = "value"` lines are read back as written:
/// each key with the value of its last line, whatever the value holds
/// but a newline.
pub proof fn lemma_written_settings_read_back(lines: Seq<(Seq<char>, Seq<char>)>)
    requires
        forall|i: int| 0 <= i < lines.len() ==> plain_setting(#[trigger] lines[i].0, lines[i].1),
    ensures
        spec_read_all(cfg_text(lines)) == settings_map(lines),
{
    lemma_settings_read_back(Seq::empty(), lines, Map::empty());
    assert(Seq::<char>::empty() + cfg_text(lines) =~= cfg_text(lines));
}

} // verus!
