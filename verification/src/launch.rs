//! Assembling the RetroArch command line and environment from a
//! [`LaunchPlan`].
use crate::text::{debug_quoted, debug_str, push_str};
use vstd::prelude::*;

verus! {

/// Everything needed to assemble the RetroArch command line.
#[derive(Debug, Clone)]
pub struct LaunchPlan {
    pub binary: String,
    /// The core to load with `-L`; `None` for an image, which the
    /// built-in viewer shows.
    pub core: Option<String>,
    pub rom: String,
    pub shader: Option<String>,
    pub appendconfig: String,
    pub fullscreen: bool,
    pub verbose: bool,
}

/// A fully assembled command: program, arguments in order, extra environment.
#[derive(Debug, Clone, PartialEq, Eq)]
pub struct LaunchCommand {
    pub program: String,
    pub args: Vec<String>,
    pub env: Vec<(String, String)>,
}

/// The arguments for `plan`, in order:
/// `[-L <core>] [-f] [--set-shader <p>] --appendconfig <cfg> [-v] <rom>`.
pub open spec fn launch_args(plan: LaunchPlan) -> Seq<Seq<char>> {
    core_args(plan.core) + (if plan.fullscreen {
        seq!["-f"@]
    } else {
        seq![]
    }) + match plan.shader {
        Some(s) => seq!["--set-shader"@, s@],
        None => seq![],
    } + seq!["--appendconfig"@, plan.appendconfig@] + (if plan.verbose {
        seq!["-v"@]
    } else {
        seq![]
    }) + seq![plan.rom@]
}

/// `-L <core>` for a core, nothing for an image.
pub open spec fn core_args(core: Option<String>) -> Seq<Seq<char>> {
    match core {
        Some(c) => seq!["-L"@, c@],
        None => seq![],
    }
}

/// The strings of `v`.
pub open spec fn strings(v: Seq<String>) -> Seq<Seq<char>> {
    v.map_values(|s: String| s@)
}

/// The pairs of `v`, as strings.
pub open spec fn string_pairs(v: Seq<(String, String)>) -> Seq<(Seq<char>, Seq<char>)> {
    v.map_values(|p: (String, String)| (p.0@, p.1@))
}

/// Appends `s` to `v`, whose strings are `seen`.
fn push_arg(v: &mut Vec<String>, s: &str, Ghost(seen): Ghost<Seq<Seq<char>>>)
    requires
        strings(old(v)@) == seen,
    ensures
        strings(final(v)@) == seen.push(s@),
{
    v.push(s.to_string());
    assert(strings(v@) =~= seen.push(s@));
}

/// Pure assembly of the RetroArch invocation.
/// Order: `[-L <core>] [-f] [--set-shader <p>] --appendconfig <cfg> [-v] <rom>`.
/// Env: `MTL_CAPTURE_ENABLED=1` so GPUToolsCapture loads into RetroArch.
pub fn build_command(plan: &LaunchPlan) -> (cmd: LaunchCommand)
    ensures
        cmd.program@ == plan.binary@,
        strings(cmd.args@) == launch_args(*plan),
        string_pairs(cmd.env@) == seq![("MTL_CAPTURE_ENABLED"@, "1"@)],
{
    let mut args: Vec<String> = Vec::new();
    let ghost mut seen: Seq<Seq<char>> = seq![];
    assert(strings(args@) =~= seen);
    if let Some(core) = &plan.core {
        push_arg(&mut args, "-L", Ghost(seen));
        proof { seen = seen.push("-L"@); }
        push_arg(&mut args, core.as_str(), Ghost(seen));
        proof { seen = seen.push(core@); }
    }
    if plan.fullscreen {
        push_arg(&mut args, "-f", Ghost(seen));
        proof { seen = seen.push("-f"@); }
    }
    if let Some(shader) = &plan.shader {
        push_arg(&mut args, "--set-shader", Ghost(seen));
        proof { seen = seen.push("--set-shader"@); }
        push_arg(&mut args, shader.as_str(), Ghost(seen));
        proof { seen = seen.push(shader@); }
    }
    push_arg(&mut args, "--appendconfig", Ghost(seen));
    proof { seen = seen.push("--appendconfig"@); }
    push_arg(&mut args, plan.appendconfig.as_str(), Ghost(seen));
    proof { seen = seen.push(plan.appendconfig@); }
    if plan.verbose {
        push_arg(&mut args, "-v", Ghost(seen));
        proof { seen = seen.push("-v"@); }
    }
    push_arg(&mut args, plan.rom.as_str(), Ghost(seen));
    proof { seen = seen.push(plan.rom@); }
    assert(seen =~= launch_args(*plan));
    let mut env: Vec<(String, String)> = Vec::new();
    env.push(("MTL_CAPTURE_ENABLED".to_string(), "1".to_string()));
    assert(string_pairs(env@) =~= seq![("MTL_CAPTURE_ENABLED"@, "1"@)]);
    LaunchCommand { program: plan.binary.clone(), args, env }
}

/// `k=v` for each pair, joined with spaces.
pub open spec fn env_text(env: Seq<(Seq<char>, Seq<char>)>) -> Seq<char>
    decreases env.len(),
{
    if env.len() == 0 {
        Seq::empty()
    } else if env.len() == 1 {
        env[0].0 + "="@ + env[0].1
    } else {
        env_text(env.drop_last()) + " "@ + env.last().0 + "="@ + env.last().1
    }
}

/// Each argument quoted as `{:?}` quotes it, joined with spaces.
pub open spec fn args_text(args: Seq<Seq<char>>) -> Seq<char>
    decreases args.len(),
{
    if args.len() == 0 {
        Seq::empty()
    } else if args.len() == 1 {
        debug_quoted(args[0])
    } else {
        args_text(args.drop_last()) + " "@ + debug_quoted(args.last())
    }
}

impl LaunchCommand {
    /// One-line rendering for `--verbose` output: the environment, the
    /// program, and the quoted arguments.
    pub fn display(&self) -> (s: String)
        ensures
            s@ == env_text(string_pairs(self.env@)) + " "@ + self.program@ + " "@ + args_text(
                strings(self.args@),
            ),
    {
        let ghost ev = string_pairs(self.env@);
        let ghost av = strings(self.args@);
        let mut s = String::new();
        let mut i: usize = 0;
        while i < self.env.len()
            invariant
                0 <= i <= self.env@.len(),
                ev == string_pairs(self.env@),
                s@ == env_text(ev.take(i as int)),
            decreases self.env@.len() - i,
        {
            if i > 0 {
                push_str(&mut s, " ");
            }
            push_str(&mut s, self.env[i].0.as_str());
            push_str(&mut s, "=");
            push_str(&mut s, self.env[i].1.as_str());
            proof {
                assert(ev.take(i + 1).drop_last() =~= ev.take(i as int));
                if i == 0 {
                    assert(s@ =~= env_text(ev.take(1)));
                } else {
                    assert(s@ =~= env_text(ev.take(i + 1)));
                }
            }
            i = i + 1;
        }
        assert(ev.take(self.env@.len() as int) =~= ev);
        push_str(&mut s, " ");
        push_str(&mut s, self.program.as_str());
        push_str(&mut s, " ");
        let ghost head = s@;
        let mut j: usize = 0;
        while j < self.args.len()
            invariant
                0 <= j <= self.args@.len(),
                av == strings(self.args@),
                s@ == head + args_text(av.take(j as int)),
            decreases self.args@.len() - j,
        {
            if j > 0 {
                push_str(&mut s, " ");
            }
            let q = debug_str(self.args[j].as_str());
            push_str(&mut s, q.as_str());
            proof {
                assert(av.take(j + 1).drop_last() =~= av.take(j as int));
                if j == 0 {
                    assert(s@ =~= head + args_text(av.take(1)));
                } else {
                    assert(s@ =~= head + args_text(av.take(j + 1)));
                }
            }
            j = j + 1;
        }
        assert(av.take(self.args@.len() as int) =~= av);
        s
    }
}

/// Whether no path of `plan` is spelled `flag`, so that `flag` among
/// the arguments can only be the flag itself.
pub open spec fn no_path_is(plan: LaunchPlan, flag: Seq<char>) -> bool {
    &&& (plan.core matches Some(c) ==> c@ != flag)
    &&& (plan.shader matches Some(p) ==> p@ != flag)
    &&& plan.appendconfig@ != flag
    &&& plan.rom@ != flag
}

/// What each option of a plan does to RetroArch's command line: a core
/// is loaded with `-L` first; a preset is always passed as
/// `--set-shader <preset>`, windowed or not; `-f` is there exactly when
/// the run is fullscreen and `-v` exactly when it is verbose (when no
/// path is itself spelled like the flag); the appended config follows
/// `--appendconfig`; the content comes last.
pub proof fn lemma_launch_args_roles(plan: LaunchPlan)
    ensures
        ({
            let a = launch_args(plan);
            &&& (plan.core matches Some(c) ==> a[0] == "-L"@ && a[1] == c@)
            &&& (plan.shader matches Some(p) ==> exists|i: int|
                0 <= i < a.len() - 1 && #[trigger] a[i] == "--set-shader"@ && a[i + 1] == p@)
            &&& (plan.fullscreen ==> a.contains("-f"@))
            &&& (plan.fullscreen ==> (plan.shader matches Some(p) ==> exists|i: int|
                0 <= i < a.len() - 2 && #[trigger] a[i] == "-f"@ && a[i + 1] == "--set-shader"@
                    && a[i + 2] == p@))
            &&& (!plan.fullscreen && no_path_is(plan, "-f"@) ==> !a.contains("-f"@))
            &&& (plan.verbose ==> a.contains("-v"@))
            &&& (!plan.verbose && no_path_is(plan, "-v"@) ==> !a.contains("-v"@))
            &&& exists|i: int|
                0 <= i < a.len() - 1 && #[trigger] a[i] == "--appendconfig"@ && a[i + 1]
                    == plan.appendconfig@
            &&& a.len() > 0 && a.last() == plan.rom@
        }),
{
    reveal_strlit("-L");
    reveal_strlit("-f");
    reveal_strlit("-v");
    reveal_strlit("--set-shader");
    reveal_strlit("--appendconfig");
    assert("-L"@ != "-f"@ && "-L"@ != "-v"@) by {
        assert("-L"@[1] != "-f"@[1] && "-L"@[1] != "-v"@[1]);
    }
    assert("-v"@ != "-f"@) by {
        assert("-v"@[1] != "-f"@[1]);
    }
    assert("--set-shader"@.len() != 2 && "--appendconfig"@.len() != 2);
    let a = launch_args(plan);
    let c = core_args(plan.core);
    let f: Seq<Seq<char>> = if plan.fullscreen {
        seq!["-f"@]
    } else {
        seq![]
    };
    let sh: Seq<Seq<char>> = match plan.shader {
        Some(s) => seq!["--set-shader"@, s@],
        None => seq![],
    };
    let ap: Seq<Seq<char>> = seq!["--appendconfig"@, plan.appendconfig@];
    let v: Seq<Seq<char>> = if plan.verbose {
        seq!["-v"@]
    } else {
        seq![]
    };
    let r: Seq<Seq<char>> = seq![plan.rom@];
    assert(a == c + f + sh + ap + v + r);
    let k = c.len() as int;
    let kf = k + f.len();
    let ks = kf + sh.len();
    let kv = ks + 2;
    if let Some(p) = plan.shader {
        assert(a[kf] == "--set-shader"@ && a[kf + 1] == p@);
    }
    if plan.fullscreen {
        assert(a[k] == "-f"@);
        if let Some(p) = plan.shader {
            assert(a[k + 1] == "--set-shader"@ && a[k + 2] == p@);
        }
    }
    if plan.verbose {
        assert(a[kv] == "-v"@);
    }
    assert(a[ks] == "--appendconfig"@ && a[ks + 1] == plan.appendconfig@);
    assert(a.last() == plan.rom@);
    if !plan.fullscreen && no_path_is(plan, "-f"@) {
        assert forall|i: int| 0 <= i < a.len() implies a[i] != "-f"@ by {
            if i < k {
                assert(a[i] == c[i]);
            } else if i < ks {
                assert(a[i] == sh[i - k]);
            } else if i < kv {
                assert(a[i] == ap[i - ks]);
            } else if i < kv + v.len() {
                assert(a[i] == v[i - kv]);
            } else {
                assert(a[i] == plan.rom@);
            }
        }
    }
    if !plan.verbose && no_path_is(plan, "-v"@) {
        assert forall|i: int| 0 <= i < a.len() implies a[i] != "-v"@ by {
            if i < k {
                assert(a[i] == c[i]);
            } else if i < kf {
                assert(a[i] == f[i - k]);
            } else if i < ks {
                assert(a[i] == sh[i - kf]);
            } else if i < kv {
                assert(a[i] == ap[i - ks]);
            } else {
                assert(a[i] == plan.rom@);
            }
        }
    }
}

} // verus!
