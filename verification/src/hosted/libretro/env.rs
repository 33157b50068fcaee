//! The frontend state a core reaches through its callbacks, and what the
//! environment and video callbacks do with it. The `extern "C"` callbacks
//! themselves, which read and write through the core's pointers, are the
//! application's: they decode what the core passed into an [`EnvData`],
//! call [`environment`], and write the [`EnvWrite`] back.
use crate::config::{ConfigMap, Size};
use crate::hosted::libretro::pixels::{
    rows_in_bounds, spec_bytes_per_pixel, spec_from_raw, to_frame, PixelFormat,
};
use crate::text::{chars_of, string_of_range};
use vstd::prelude::*;

pub use crate::hosted::render::Frame;

verus! {

/// libretro.h's `RETRO_ENVIRONMENT_EXPERIMENTAL` bit.
pub const RETRO_ENVIRONMENT_EXPERIMENTAL: u32 = 0x10000;
/// libretro.h's `RETRO_ENVIRONMENT_PRIVATE` bit, which marks a frontend's
/// own commands.
pub const RETRO_ENVIRONMENT_PRIVATE: u32 = 0x20000;
/// `RETRO_ENVIRONMENT_GET_CAN_DUPE`.
pub const RETRO_ENVIRONMENT_GET_CAN_DUPE: u32 = 3;
/// `RETRO_ENVIRONMENT_GET_SYSTEM_DIRECTORY`.
pub const RETRO_ENVIRONMENT_GET_SYSTEM_DIRECTORY: u32 = 9;
/// `RETRO_ENVIRONMENT_SET_PIXEL_FORMAT`.
pub const RETRO_ENVIRONMENT_SET_PIXEL_FORMAT: u32 = 10;
/// `RETRO_ENVIRONMENT_SET_HW_RENDER`.
pub const RETRO_ENVIRONMENT_SET_HW_RENDER: u32 = 14;
/// `RETRO_ENVIRONMENT_GET_VARIABLE`.
pub const RETRO_ENVIRONMENT_GET_VARIABLE: u32 = 15;
/// `RETRO_ENVIRONMENT_SET_VARIABLES`.
pub const RETRO_ENVIRONMENT_SET_VARIABLES: u32 = 16;
/// `RETRO_ENVIRONMENT_GET_VARIABLE_UPDATE`.
pub const RETRO_ENVIRONMENT_GET_VARIABLE_UPDATE: u32 = 17;
/// `RETRO_ENVIRONMENT_GET_SAVE_DIRECTORY`.
pub const RETRO_ENVIRONMENT_GET_SAVE_DIRECTORY: u32 = 31;
/// `RETRO_ENVIRONMENT_GET_CORE_OPTIONS_VERSION`.
pub const RETRO_ENVIRONMENT_GET_CORE_OPTIONS_VERSION: u32 = 52;
/// `RETRO_ENVIRONMENT_SET_CORE_OPTIONS`.
pub const RETRO_ENVIRONMENT_SET_CORE_OPTIONS: u32 = 53;
/// `RETRO_ENVIRONMENT_SET_CORE_OPTIONS_INTL`.
pub const RETRO_ENVIRONMENT_SET_CORE_OPTIONS_INTL: u32 = 54;
/// `RETRO_ENVIRONMENT_SET_CORE_OPTIONS_V2`.
pub const RETRO_ENVIRONMENT_SET_CORE_OPTIONS_V2: u32 = 67;
/// `RETRO_ENVIRONMENT_SET_CORE_OPTIONS_V2_INTL`.
pub const RETRO_ENVIRONMENT_SET_CORE_OPTIONS_V2_INTL: u32 = 68;

/// The core-options API version this frontend implements, answered to
/// `GET_CORE_OPTIONS_VERSION`; a core then registers with the v2 form.
pub const CORE_OPTIONS_VERSION: u32 = 2;

/// What the callbacks read and write.
pub struct Shared {
    /// Set when a core is opened; a second open while this is true is refused.
    pub claimed: bool,
    pub system_dir: Option<String>,
    pub save_dir: Option<String>,
    /// Values from `--core-options`; consulted first by `GET_VARIABLE`.
    pub options: ConfigMap,
    /// The defaults a core declared through `SET_VARIABLES` or one of the
    /// `SET_CORE_OPTIONS` forms; what `GET_VARIABLE` answers when
    /// `options` has nothing, which is what RetroArch does on a fresh
    /// config.
    pub defaults: ConfigMap,
    pub pixel_format: PixelFormat,
    pub asked_for_hw_render: bool,
    pub frame: Option<Frame>,
}

impl Default for Shared {
    /// Nothing claimed, no directories or options, and libretro's default
    /// pixel format for a core that never sets one.
    fn default() -> (s: Shared)
        ensures
            !s.claimed,
            s.system_dir is None,
            s.save_dir is None,
            s.options@ == Map::<Seq<char>, Seq<char>>::empty(),
            s.defaults@ == Map::<Seq<char>, Seq<char>>::empty(),
            s.pixel_format == PixelFormat::Xrgb1555,
            !s.asked_for_hw_render,
            s.frame is None,
    {
        Shared {
            claimed: false,
            system_dir: None,
            save_dir: None,
            options: ConfigMap::new(),
            defaults: ConfigMap::new(),
            pixel_format: PixelFormat::Xrgb1555,
            asked_for_hw_render: false,
            frame: None,
        }
    }
}

/// What a core passed with a command, as the callback decoded it for the
/// type libretro.h documents for that command.
pub enum EnvData {
    /// A null pointer.
    Null,
    /// A pointer to a value to be written (`bool`, `unsigned` or a string).
    Out,
    /// `SET_PIXEL_FORMAT`'s `enum retro_pixel_format` value.
    Format(u32),
    /// `GET_VARIABLE`'s key; `None` for a null key.
    Key(Option<String>),
    /// `SET_VARIABLES`' `retro_variable` entries up to the null key: each
    /// key with its value (`None` for a null value).
    Variables(Vec<(String, Option<String>)>),
    /// A v1 or v2 definition list up to the null key (empty for a null
    /// list): each key with its `default_value` and its first listed
    /// value, `None` where null.
    Definitions(Vec<(String, Option<String>, Option<String>)>),
}

/// What the callback writes back through the core's pointer.
#[derive(Debug, Clone, PartialEq, Eq)]
pub enum EnvWrite {
    /// Nothing.
    Nothing,
    /// A `bool`.
    Flag(bool),
    /// An `unsigned`.
    Number(u32),
    /// The system directory's string.
    SystemDirectory,
    /// The save directory's string.
    SaveDirectory,
    /// `GET_VARIABLE`'s value: the string, or null.
    Value(Option<String>),
}

/// The answer to one environment call.
pub struct EnvAnswer {
    /// What the callback returns to the core.
    pub handled: bool,
    pub write: EnvWrite,
}

/// The commands that declare a core's options.
pub open spec fn is_declaration(c: u32) -> bool {
    c == RETRO_ENVIRONMENT_SET_VARIABLES || c == RETRO_ENVIRONMENT_SET_CORE_OPTIONS || c
        == RETRO_ENVIRONMENT_SET_CORE_OPTIONS_INTL || c == RETRO_ENVIRONMENT_SET_CORE_OPTIONS_V2
        || c == RETRO_ENVIRONMENT_SET_CORE_OPTIONS_V2_INTL
}

/// A command with its experimental bit cleared; `None` for a private one,
/// which is somebody else's.
pub open spec fn spec_command(cmd: u32) -> Option<u32> {
    if cmd & RETRO_ENVIRONMENT_PRIVATE != 0 {
        None
    } else {
        Some(cmd & !RETRO_ENVIRONMENT_EXPERIMENTAL)
    }
}

/// The command the environment callback answers: RetroArch matches full
/// command values and only ever masks the experimental bit off, so a
/// private command is refused rather than answered as another.
pub fn command(cmd: u32) -> (c: Option<u32>)
    ensures
        c == spec_command(cmd),
{
    if cmd & RETRO_ENVIRONMENT_PRIVATE != 0 {
        None
    } else {
        Some(cmd & !RETRO_ENVIRONMENT_EXPERIMENTAL)
    }
}

/// Whether `data` is what a callback decodes for command `c`: a null
/// pointer, or the type libretro.h documents for it.
pub open spec fn data_fits(c: u32, data: EnvData) -> bool {
    match data {
        EnvData::Null => true,
        EnvData::Format(_) => c == RETRO_ENVIRONMENT_SET_PIXEL_FORMAT,
        EnvData::Key(_) => c == RETRO_ENVIRONMENT_GET_VARIABLE,
        EnvData::Variables(_) => c == RETRO_ENVIRONMENT_SET_VARIABLES,
        EnvData::Definitions(_) => c == RETRO_ENVIRONMENT_SET_CORE_OPTIONS || c
            == RETRO_ENVIRONMENT_SET_CORE_OPTIONS_INTL || c == RETRO_ENVIRONMENT_SET_CORE_OPTIONS_V2
            || c == RETRO_ENVIRONMENT_SET_CORE_OPTIONS_V2_INTL,
        EnvData::Out => c != RETRO_ENVIRONMENT_SET_PIXEL_FORMAT && c != RETRO_ENVIRONMENT_GET_VARIABLE
            && !is_declaration(c),
    }
}

/// The first index at which `"; "` starts in `t`, or `t.len()`.
pub open spec fn separator_at(t: Seq<char>, i: int) -> int
    decreases t.len() - i,
{
    if i + 1 >= t.len() {
        t.len() as int
    } else if t[i] == ';' && t[i + 1] == ' ' {
        i
    } else {
        separator_at(t, i + 1)
    }
}

/// The first `|` in `t` from `i`, or `t.len()`.
pub open spec fn bar_at(t: Seq<char>, i: int) -> int
    decreases t.len() - i,
{
    if i >= t.len() {
        t.len() as int
    } else if t[i] == '|' {
        i
    } else {
        bar_at(t, i + 1)
    }
}

/// The default of a v0 variable: its value is `"Description; a|b|c"` and
/// the first listed option is the default; a value without the `"; "`
/// separator is taken whole.
pub open spec fn spec_v0_default(value: Seq<char>) -> Seq<char> {
    let sep = separator_at(value, 0);
    let after = if sep < value.len() {
        value.subrange(sep + 2, value.len() as int)
    } else {
        value
    };
    after.subrange(0, bar_at(after, 0))
}

proof fn lemma_separator_bounds(t: Seq<char>, i: int)
    requires
        0 <= i,
    ensures
        i <= separator_at(t, i) || separator_at(t, i) == t.len(),
        separator_at(t, i) == t.len() || (separator_at(t, i) + 1 < t.len() && t[separator_at(
            t,
            i,
        )] == ';' && t[separator_at(t, i) + 1] == ' '),
    decreases t.len() - i,
{
    if i + 1 < t.len() && !(t[i] == ';' && t[i + 1] == ' ') {
        lemma_separator_bounds(t, i + 1);
    }
}

proof fn lemma_bar_bounds(t: Seq<char>, i: int)
    requires
        0 <= i <= t.len(),
    ensures
        i <= bar_at(t, i) <= t.len(),
    decreases t.len() - i,
{
    if i < t.len() && t[i] != '|' {
        lemma_bar_bounds(t, i + 1);
    }
}

/// The default of a v0 variable (RetroArch's `core_option_manager_new_vars`).
pub fn v0_default(value: &str) -> (d: String)
    ensures
        d@ == spec_v0_default(value@),
{
    let v = chars_of(value);
    let n = v.len();
    let mut i: usize = 0;
    while i < n && n - i > 1 && !(v[i] == ';' && v[i + 1] == ' ')
        invariant
            0 <= i <= n,
            n == v@.len(),
            separator_at(v@, 0) == separator_at(v@, i as int),
        decreases n - i,
    {
        i = i + 1;
    }
    let start = if i < n && n - i > 1 {
        i + 2
    } else {
        0
    };
    proof {
        lemma_separator_bounds(v@, 0);
        if !(i < n && n - i > 1) {
            assert(separator_at(v@, i as int) == n);
        }
    }
    let ghost after = if separator_at(v@, 0) < n {
        v@.subrange(separator_at(v@, 0) + 2, n as int)
    } else {
        v@
    };
    let mut j = start;
    while j < n && v[j] != '|'
        invariant
            start <= j <= n,
            n == v@.len(),
            after == v@.subrange(start as int, n as int),
            bar_at(after, 0) == bar_at(after, j - start),
        decreases n - j,
    {
        j = j + 1;
    }
    proof {
        lemma_bar_bounds(after, 0);
        assert(after.subrange(0, bar_at(after, 0)) =~= v@.subrange(start as int, j as int));
    }
    string_of_range(&v, start, j)
}

/// The default of a v1 or v2 definition: `default_value`, else the first
/// value, else nothing.
pub open spec fn spec_definition_default(
    default_value: Option<Seq<char>>,
    first: Option<Seq<char>>,
) -> Option<Seq<char>> {
    match default_value {
        Some(d) => Some(d),
        None => first,
    }
}

/// The defaults after a `SET_VARIABLES` list: each entry with a value, in
/// order, sets its key to the value's first option.
pub open spec fn with_variables(m: Map<Seq<char>, Seq<char>>, list: Seq<(String, Option<String>)>) -> Map<
    Seq<char>,
    Seq<char>,
>
    decreases list.len(),
{
    if list.len() == 0 {
        m
    } else {
        let before = with_variables(m, list.drop_last());
        match list.last().1 {
            Some(v) => before.insert(list.last().0@, spec_v0_default(v@)),
            None => before,
        }
    }
}

/// The defaults after a v1 or v2 definition list: each entry with a
/// default, in order, sets its key to it.
pub open spec fn with_definitions(
    m: Map<Seq<char>, Seq<char>>,
    list: Seq<(String, Option<String>, Option<String>)>,
) -> Map<Seq<char>, Seq<char>>
    decreases list.len(),
{
    if list.len() == 0 {
        m
    } else {
        let before = with_definitions(m, list.drop_last());
        let e = list.last();
        match spec_definition_default(opt_view(e.1), opt_view(e.2)) {
            Some(d) => before.insert(e.0@, d),
            None => before,
        }
    }
}

/// An optional string's characters.
pub open spec fn opt_view(s: Option<String>) -> Option<Seq<char>> {
    match s {
        Some(v) => Some(v@),
        None => None,
    }
}

/// `GET_VARIABLE`'s value for `key`: the `--core-options` value, else the
/// core's declared default, else none.
pub open spec fn variable_value(
    options: Map<Seq<char>, Seq<char>>,
    defaults: Map<Seq<char>, Seq<char>>,
    key: Seq<char>,
) -> Option<Seq<char>> {
    if options.dom().contains(key) {
        Some(options[key])
    } else if defaults.dom().contains(key) {
        Some(defaults[key])
    } else {
        None
    }
}

/// A `Shared` whose every part but the defaults, pixel format and hardware
/// request is as it was.
pub open spec fn same_but_answers(a: Shared, b: Shared) -> bool {
    &&& a.claimed == b.claimed
    &&& a.system_dir == b.system_dir
    &&& a.save_dir == b.save_dir
    &&& a.options@ == b.options@
    &&& a.frame == b.frame
}

/// Record a `SET_VARIABLES` list's defaults.
fn register_variables(s: &mut Shared, list: Vec<(String, Option<String>)>)
    ensures
        same_but_answers(*old(s), *final(s)),
        final(s).pixel_format == old(s).pixel_format,
        final(s).asked_for_hw_render == old(s).asked_for_hw_render,
        final(s).defaults@ == with_variables(old(s).defaults@, list@),
{
    let ghost start = s.defaults@;
    let mut i: usize = 0;
    while i < list.len()
        invariant
            0 <= i <= list@.len(),
            same_but_answers(*old(s), *s),
            s.pixel_format == old(s).pixel_format,
            s.asked_for_hw_render == old(s).asked_for_hw_render,
            start == old(s).defaults@,
            s.defaults@ == with_variables(start, list@.take(i as int)),
        decreases list@.len() - i,
    {
        assert(list@.take(i + 1).drop_last() =~= list@.take(i as int));
        match &list[i].1 {
            Some(v) => {
                let d = v0_default(v.as_str());
                let key = list[i].0.clone();
                s.defaults.insert(key, d);
            },
            None => {},
        }
        i = i + 1;
    }
    assert(list@.take(list@.len() as int) =~= list@);
}

/// Record a v1 or v2 definition list's defaults.
fn register_definitions(s: &mut Shared, list: Vec<(String, Option<String>, Option<String>)>)
    ensures
        same_but_answers(*old(s), *final(s)),
        final(s).pixel_format == old(s).pixel_format,
        final(s).asked_for_hw_render == old(s).asked_for_hw_render,
        final(s).defaults@ == with_definitions(old(s).defaults@, list@),
{
    let ghost start = s.defaults@;
    let mut i: usize = 0;
    while i < list.len()
        invariant
            0 <= i <= list@.len(),
            same_but_answers(*old(s), *s),
            s.pixel_format == old(s).pixel_format,
            s.asked_for_hw_render == old(s).asked_for_hw_render,
            start == old(s).defaults@,
            s.defaults@ == with_definitions(start, list@.take(i as int)),
        decreases list@.len() - i,
    {
        assert(list@.take(i + 1).drop_last() =~= list@.take(i as int));
        let e = &list[i];
        let chosen = match &e.1 {
            Some(d) => Some(d.clone()),
            None => match &e.2 {
                Some(f) => Some(f.clone()),
                None => None,
            },
        };
        match chosen {
            Some(d) => {
                s.defaults.insert(e.0.clone(), d);
            },
            None => {},
        }
        i = i + 1;
    }
    assert(list@.take(list@.len() as int) =~= list@);
}

/// What the environment callback answers for command `cmd` with `data`,
/// and how it leaves the state: a private command is refused; a null
/// option declaration is acknowledged, and a null pointer otherwise only
/// answers the core-options probe `GET_VARIABLE`; then each command a
/// software-rendered core needs is answered, and `false` is returned for
/// everything else.
pub open spec fn env_outcome(before: Shared, after: Shared, cmd: u32, data: EnvData, a: EnvAnswer) -> bool {
    match spec_command(cmd) {
        None => !a.handled && a.write == EnvWrite::Nothing && after == before,
        Some(c) => match data {
            EnvData::Null => a.handled == (is_declaration(c) || c == RETRO_ENVIRONMENT_GET_VARIABLE)
                && a.write == EnvWrite::Nothing && after == before,
            _ => if c == RETRO_ENVIRONMENT_GET_CAN_DUPE {
                a.handled && a.write == EnvWrite::Flag(true) && after == before
            } else if c == RETRO_ENVIRONMENT_GET_SYSTEM_DIRECTORY {
                a.handled == (before.system_dir is Some) && a.write == (if before.system_dir is Some {
                    EnvWrite::SystemDirectory
                } else {
                    EnvWrite::Nothing
                }) && after == before
            } else if c == RETRO_ENVIRONMENT_GET_SAVE_DIRECTORY {
                a.handled == (before.save_dir is Some) && a.write == (if before.save_dir is Some {
                    EnvWrite::SaveDirectory
                } else {
                    EnvWrite::Nothing
                }) && after == before
            } else if c == RETRO_ENVIRONMENT_SET_PIXEL_FORMAT {
                &&& a.write == EnvWrite::Nothing
                &&& data matches EnvData::Format(raw)
                &&& match spec_from_raw(raw) {
                    Some(f) => a.handled && after == (Shared { pixel_format: f, ..before }),
                    None => !a.handled && after == before,
                }
            } else if c == RETRO_ENVIRONMENT_GET_VARIABLE {
                &&& a.handled
                &&& after == before
                &&& data matches EnvData::Key(k)
                &&& a.write matches EnvWrite::Value(v)
                &&& opt_view(v) == match k {
                    Some(key) => variable_value(before.options@, before.defaults@, key@),
                    None => None,
                }
            } else if c == RETRO_ENVIRONMENT_GET_CORE_OPTIONS_VERSION {
                a.handled && a.write == EnvWrite::Number(CORE_OPTIONS_VERSION) && after == before
            } else if c == RETRO_ENVIRONMENT_SET_VARIABLES {
                &&& a.handled
                &&& a.write == EnvWrite::Nothing
                &&& data matches EnvData::Variables(list)
                &&& same_but_answers(before, after)
                &&& after.pixel_format == before.pixel_format
                &&& after.asked_for_hw_render == before.asked_for_hw_render
                &&& after.defaults@ == with_variables(before.defaults@, list@)
            } else if is_declaration(c) {
                &&& a.handled
                &&& a.write == EnvWrite::Nothing
                &&& data matches EnvData::Definitions(list)
                &&& same_but_answers(before, after)
                &&& after.pixel_format == before.pixel_format
                &&& after.asked_for_hw_render == before.asked_for_hw_render
                &&& after.defaults@ == with_definitions(before.defaults@, list@)
            } else if c == RETRO_ENVIRONMENT_GET_VARIABLE_UPDATE {
                a.handled && a.write == EnvWrite::Flag(false) && after == before
            } else if c == RETRO_ENVIRONMENT_SET_HW_RENDER {
                !a.handled && a.write == EnvWrite::Nothing && after == (Shared {
                    asked_for_hw_render: true,
                    ..before
                })
            } else {
                !a.handled && a.write == EnvWrite::Nothing && after == before
            },
        },
    }
}

/// The environment callback's logic. Answers exactly what a
/// software-rendered core needs and `false` to everything else.
pub fn environment(s: &mut Shared, cmd: u32, data: EnvData) -> (a: EnvAnswer)
    requires
        spec_command(cmd) matches Some(c) ==> data_fits(c, data),
    ensures
        env_outcome(*old(s), *final(s), cmd, data, a),
{
    let c = match command(cmd) {
        Some(c) => c,
        None => {
            return EnvAnswer { handled: false, write: EnvWrite::Nothing };
        },
    };
    let nothing = EnvWrite::Nothing;
    match data {
        EnvData::Null => {
            let declared = c == RETRO_ENVIRONMENT_SET_VARIABLES || c
                == RETRO_ENVIRONMENT_SET_CORE_OPTIONS || c == RETRO_ENVIRONMENT_SET_CORE_OPTIONS_INTL
                || c == RETRO_ENVIRONMENT_SET_CORE_OPTIONS_V2 || c
                == RETRO_ENVIRONMENT_SET_CORE_OPTIONS_V2_INTL;
            EnvAnswer { handled: declared || c == RETRO_ENVIRONMENT_GET_VARIABLE, write: nothing }
        },
        EnvData::Format(raw) => match PixelFormat::from_raw(raw) {
            Some(f) => {
                s.pixel_format = f;
                EnvAnswer { handled: true, write: nothing }
            },
            None => EnvAnswer { handled: false, write: nothing },
        },
        EnvData::Key(k) => {
            let v = match k {
                Some(key) => match s.options.get(key.as_str()) {
                    Some(v) => Some(v.clone()),
                    None => match s.defaults.get(key.as_str()) {
                        Some(v) => Some(v.clone()),
                        None => None,
                    },
                },
                None => None,
            };
            EnvAnswer { handled: true, write: EnvWrite::Value(v) }
        },
        EnvData::Variables(list) => {
            register_variables(s, list);
            EnvAnswer { handled: true, write: nothing }
        },
        EnvData::Definitions(list) => {
            register_definitions(s, list);
            EnvAnswer { handled: true, write: nothing }
        },
        EnvData::Out => {
            if c == RETRO_ENVIRONMENT_GET_CAN_DUPE {
                EnvAnswer { handled: true, write: EnvWrite::Flag(true) }
            } else if c == RETRO_ENVIRONMENT_GET_SYSTEM_DIRECTORY {
                match &s.system_dir {
                    Some(_) => EnvAnswer { handled: true, write: EnvWrite::SystemDirectory },
                    None => EnvAnswer { handled: false, write: nothing },
                }
            } else if c == RETRO_ENVIRONMENT_GET_SAVE_DIRECTORY {
                match &s.save_dir {
                    Some(_) => EnvAnswer { handled: true, write: EnvWrite::SaveDirectory },
                    None => EnvAnswer { handled: false, write: nothing },
                }
            } else if c == RETRO_ENVIRONMENT_GET_CORE_OPTIONS_VERSION {
                EnvAnswer { handled: true, write: EnvWrite::Number(CORE_OPTIONS_VERSION) }
            } else if c == RETRO_ENVIRONMENT_GET_VARIABLE_UPDATE {
                EnvAnswer { handled: true, write: EnvWrite::Flag(false) }
            } else if c == RETRO_ENVIRONMENT_SET_HW_RENDER {
                s.asked_for_hw_render = true;
                EnvAnswer { handled: false, write: nothing }
            } else {
                EnvAnswer { handled: false, write: nothing }
            }
        },
    }
}

/// How many bytes a framebuffer of `height` rows of `width` pixels,
/// `pitch` bytes apart, occupies (the last row without padding), or `None`
/// when it cannot be read: an empty frame, a row wider than the pitch, or
/// a size that overflows.
pub open spec fn spec_frame_bytes(format: PixelFormat, width: u32, height: u32, pitch: usize) -> Option<nat> {
    let row = width * spec_bytes_per_pixel(format);
    if width == 0 || height == 0 || row > usize::MAX || row > pitch || (height - 1) * pitch + row
        > usize::MAX {
        None
    } else {
        Some(((height - 1) * pitch + row) as nat)
    }
}

/// The byte count `spec_frame_bytes` gives, computed with checked
/// arithmetic.
pub fn frame_bytes(format: PixelFormat, width: u32, height: u32, pitch: usize) -> (r: Option<usize>)
    ensures
        match spec_frame_bytes(format, width, height, pitch) {
            Some(t) => r == Some(t as usize),
            None => r is None,
        },
{
    if width == 0 || height == 0 {
        return None;
    }
    let bpp = format.bytes_per_pixel();
    let row = match (width as usize).checked_mul(bpp) {
        Some(r) => r,
        None => return None,
    };
    if row > pitch {
        return None;
    }
    let rows = (height - 1) as usize;
    let body = match rows.checked_mul(pitch) {
        Some(b) => b,
        None => {
            proof {
                assert((height - 1) * pitch + row > usize::MAX) by (nonlinear_arith)
                    requires
                        (height - 1) * pitch > usize::MAX,
                        row >= 0,
                ;
            }
            return None;
        },
    };
    match body.checked_add(row) {
        Some(t) => Some(t),
        None => None,
    }
}

/// The frame a refresh with `data` leaves: the converted pixels, every
/// byte as the conversion defines it.
pub open spec fn is_frame_of(
    f: Frame,
    format: PixelFormat,
    data: Seq<u8>,
    width: u32,
    height: u32,
    pitch: usize,
) -> bool {
    &&& f.size == (Size { width, height })
    &&& f.format == crate::hosted::libretro::pixels::spec_frame_format(format)
    &&& f.pixels@.len() == width * height * 4
    &&& forall|j: int|
        0 <= j < f.pixels@.len() ==> #[trigger] f.pixels@[j]
            == crate::hosted::libretro::pixels::spec_frame_byte(
            format,
            data,
            width as nat,
            pitch as nat,
            j,
        )
}

/// The video callback's logic. No data is a dupe: the previous frame
/// stands. A frame whose geometry cannot be read in bounds is dropped, so
/// the caller sees no frame; otherwise the framebuffer, which holds
/// exactly [`frame_bytes`] bytes, is converted.
pub fn video_refresh(s: &mut Shared, data: Option<&[u8]>, width: u32, height: u32, pitch: usize)
    requires
        data matches Some(d) ==> (spec_frame_bytes(old(s).pixel_format, width, height, pitch) matches Some(t)
            ==> d@.len() == t && width * height * 4 <= isize::MAX),
    ensures
        same_but_frame(*old(s), *final(s)),
        match data {
            None => final(s).frame == old(s).frame,
            Some(d) => match spec_frame_bytes(old(s).pixel_format, width, height, pitch) {
                None => final(s).frame is None,
                Some(_) => final(s).frame matches Some(f) && is_frame_of(
                    f,
                    old(s).pixel_format,
                    d@,
                    width,
                    height,
                    pitch,
                ),
            },
        },
{
    let d = match data {
        Some(d) => d,
        None => return,
    };
    match frame_bytes(s.pixel_format, width, height, pitch) {
        None => {
            s.frame = None;
        },
        Some(_) => {
            proof {
                assert(rows_in_bounds(s.pixel_format, d@.len(), width as nat, height as nat, pitch as nat));
            }
            let f = to_frame(s.pixel_format, d, width, height, pitch);
            s.frame = Some(f);
        },
    }
}

/// Every part of a `Shared` but the frame is as it was.
pub open spec fn same_but_frame(a: Shared, b: Shared) -> bool {
    &&& a.claimed == b.claimed
    &&& a.system_dir == b.system_dir
    &&& a.save_dir == b.save_dir
    &&& a.options == b.options
    &&& a.defaults == b.defaults
    &&& a.pixel_format == b.pixel_format
    &&& a.asked_for_hw_render == b.asked_for_hw_render
}

/// A key a `SET_VARIABLES` list declares with a value is never answered
/// null by `GET_VARIABLE` afterwards: a core may take a non-null value as
/// "the option exists", so a declared key must always have one.
pub proof fn lemma_declared_variables_are_answered(
    options: Map<Seq<char>, Seq<char>>,
    defaults: Map<Seq<char>, Seq<char>>,
    list: Seq<(String, Option<String>)>,
    i: int,
)
    requires
        0 <= i < list.len(),
        list[i].1 is Some,
    ensures
        variable_value(options, with_variables(defaults, list), list[i].0@) is Some,
    decreases list.len(),
{
    if i < list.len() - 1 {
        assert(list.drop_last()[i] == list[i]);
        lemma_declared_variables_are_answered(options, defaults, list.drop_last(), i);
    }
}

/// A key a v1 or v2 definition list declares with a default value, or
/// with at least one value, is never answered null by `GET_VARIABLE`
/// afterwards.
pub proof fn lemma_defined_options_are_answered(
    options: Map<Seq<char>, Seq<char>>,
    defaults: Map<Seq<char>, Seq<char>>,
    list: Seq<(String, Option<String>, Option<String>)>,
    i: int,
)
    requires
        0 <= i < list.len(),
        list[i].1 is Some || list[i].2 is Some,
    ensures
        variable_value(options, with_definitions(defaults, list), list[i].0@) is Some,
    decreases list.len(),
{
    if i < list.len() - 1 {
        assert(list.drop_last()[i] == list[i]);
        lemma_defined_options_are_answered(options, defaults, list.drop_last(), i);
    }
}

/// `--core-options` wins: a key it sets is answered with its value,
/// whatever the core declared.
pub proof fn lemma_options_override_defaults(
    options: Map<Seq<char>, Seq<char>>,
    defaults: Map<Seq<char>, Seq<char>>,
    key: Seq<char>,
)
    requires
        options.dom().contains(key),
    ensures
        variable_value(options, defaults, key) == Some(options[key]),
{
}

} // verus!
