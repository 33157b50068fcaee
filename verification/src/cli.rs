//! What the command line decides once clap has parsed it: which flags the
//! chosen backend refuses, the source and window mode the arguments
//! describe.
use crate::backend::{Source, StateSource};
use crate::config::{Size, WindowMode};
use crate::text::push_str;
use vstd::prelude::*;

verus! {

/// The flags only the RetroArch backend honours, as given: `--app`,
/// `--cmd-port` and `--keep-running`, in that order.
pub fn retroarch_only_flags(app_given: bool, cmd_port_given: bool, keep_running: bool) -> (given: Vec<&'static str>)
    ensures
        given@.map_values(|f: &str| f@) == (if app_given {
            seq!["--app"@]
        } else {
            seq![]
        }) + (if cmd_port_given {
            seq!["--cmd-port"@]
        } else {
            seq![]
        }) + (if keep_running {
            seq!["--keep-running"@]
        } else {
            seq![]
        }),
{
    let mut given: Vec<&'static str> = Vec::new();
    if app_given {
        given.push("--app");
    }
    if cmd_port_given {
        given.push("--cmd-port");
    }
    if keep_running {
        given.push("--keep-running");
    }
    assert(given@.map_values(|f: &str| f@) =~= (if app_given {
        seq!["--app"@]
    } else {
        seq![]
    }) + (if cmd_port_given {
        seq!["--cmd-port"@]
    } else {
        seq![]
    }) + (if keep_running {
        seq!["--keep-running"@]
    } else {
        seq![]
    }));
    given
}

/// The flags only the librashader backend honours, as given:
/// `--skip-extension-check`.
pub fn librashader_only_flags(skip_extension_check: bool) -> (given: Vec<&'static str>)
    ensures
        given@.map_values(|f: &str| f@) == if skip_extension_check {
            seq!["--skip-extension-check"@]
        } else {
            seq![]
        },
{
    let mut given: Vec<&'static str> = Vec::new();
    if skip_extension_check {
        given.push("--skip-extension-check");
    }
    assert(given@.map_values(|f: &str| f@) =~= if skip_extension_check {
        seq!["--skip-extension-check"@]
    } else {
        seq![]
    });
    given
}

/// `list` joined with `, `.
pub open spec fn listed(list: Seq<Seq<char>>) -> Seq<char>
    decreases list.len(),
{
    if list.len() == 0 {
        Seq::empty()
    } else if list.len() == 1 {
        list[0]
    } else {
        listed(list.drop_last()) + ", "@ + list.last()
    }
}

/// Appends `flags` joined with `, `.
fn push_listed(s: &mut String, flags: &[&'static str])
    ensures
        final(s)@ == old(s)@ + listed(flags@.map_values(|f: &str| f@)),
{
    let ghost v = flags@.map_values(|f: &str| f@);
    let ghost head = s@;
    let mut i: usize = 0;
    while i < flags.len()
        invariant
            0 <= i <= flags@.len(),
            v == flags@.map_values(|f: &str| f@),
            s@ == head + listed(v.take(i as int)),
        decreases flags@.len() - i,
    {
        if i > 0 {
            push_str(s, ", ");
        }
        push_str(s, flags[i]);
        proof {
            assert(v.take(i + 1).drop_last() =~= v.take(i as int));
            if i == 0 {
                assert(s@ =~= head + listed(v.take(1)));
            } else {
                assert(s@ =~= head + listed(v.take(i + 1)));
            }
        }
        i = i + 1;
    }
    assert(v.take(flags@.len() as int) =~= v);
}

/// The refusal of librashader-only flags under the RetroArch backend.
pub open spec fn librashader_flags_message(flags: Seq<Seq<char>>) -> Seq<char> {
    listed(flags) + (if flags.len() == 1 {
        " only applies"@
    } else {
        " only apply"@
    }) + " to the librashader backend"@
}

/// The refusal of RetroArch-only flags under the librashader backend.
pub open spec fn retroarch_flags_message(flags: Seq<Seq<char>>) -> Seq<char> {
    listed(flags) + (if flags.len() == 1 {
        " only applies"@
    } else {
        " only apply"@
    }) + " to the RetroArch backend; add --backend retroarch or drop "@ + (if flags.len() == 1 {
        "it"@
    } else {
        "them"@
    })
}

/// The refusal for flags meant for the other backend, naming them, so a
/// user who drops `--backend` does not get a silently different run;
/// `None` when there are none. `retroarch_chosen` says which backend the
/// run uses.
pub fn refuse_other_backend_flags(retroarch_chosen: bool, flags: &[&'static str]) -> (r: Option<String>)
    ensures
        match r {
            None => flags@.len() == 0,
            Some(e) => flags@.len() > 0 && e@ == if retroarch_chosen {
                librashader_flags_message(flags@.map_values(|f: &str| f@))
            } else {
                retroarch_flags_message(flags@.map_values(|f: &str| f@))
            },
        },
{
    if flags.len() == 0 {
        return None;
    }
    let mut e = String::new();
    push_listed(&mut e, flags);
    if flags.len() == 1 {
        push_str(&mut e, " only applies");
    } else {
        push_str(&mut e, " only apply");
    }
    if retroarch_chosen {
        push_str(&mut e, " to the librashader backend");
    } else {
        push_str(&mut e, " to the RetroArch backend; add --backend retroarch or drop ");
        if flags.len() == 1 {
            push_str(&mut e, "it");
        } else {
            push_str(&mut e, "them");
        }
    }
    Some(e)
}

/// The window mode the flags ask for: fullscreen, an exact size, a scale,
/// or else the whole visible area of the main display.
pub fn window_mode(fullscreen: bool, size: Option<Size>, scale: Option<u32>, visible: Size) -> (m: WindowMode)
    ensures
        m == if fullscreen {
            WindowMode::Fullscreen
        } else if size is Some {
            WindowMode::Exact(size->Some_0)
        } else if scale is Some {
            WindowMode::Scale(scale->Some_0)
        } else {
            WindowMode::Fill { max: visible }
        },
{
    if fullscreen {
        WindowMode::Fullscreen
    } else if let Some(s) = size {
        WindowMode::Exact(s)
    } else if let Some(n) = scale {
        WindowMode::Scale(n)
    } else {
        WindowMode::Fill { max: visible }
    }
}

/// Where the frames come from: the image, or the core and ROM with the
/// state (a file before a slot) and the core options. Neither is an error
/// clap normally rules out.
pub fn source_from(
    image: Option<String>,
    core_arg: Option<String>,
    rom: Option<String>,
    state: Option<String>,
    slot: Option<u32>,
    options: Option<String>,
    skip_extension_check: bool,
) -> (r: Result<Source, String>)
    ensures
        match r {
            Ok(Source::Image(p)) => image == Some(p),
            Ok(Source::Core { core, rom: r2, state: st, options: o, skip_extension_check: sk }) => {
                &&& image is None
                &&& core_arg == Some(core)
                &&& rom == Some(r2)
                &&& o == options
                &&& sk == skip_extension_check
                &&& st == match state {
                    Some(f) => Some(StateSource::File(f)),
                    None => match slot {
                        Some(n) => Some(StateSource::Slot(n)),
                        None => None,
                    },
                }
            },
            Err(e) => image is None && (core_arg is None || rom is None) && e@
                == "--image, or --core with --rom, is required"@,
        },
{
    match image {
        Some(p) => Ok(Source::Image(p)),
        None => match (core_arg, rom) {
            (Some(c), Some(r)) => {
                let st = match state {
                    Some(f) => Some(StateSource::File(f)),
                    None => match slot {
                        Some(n) => Some(StateSource::Slot(n)),
                        None => None,
                    },
                };
                Ok(Source::Core { core: c, rom: r, state: st, options, skip_extension_check })
            },
            _ => Err("--image, or --core with --rom, is required".to_string()),
        },
    }
}

} // verus!
