//! Reading what `gpucapture list` prints, the capture's settings, and the
//! decisions of the capture flow: whether a pid can be captured, when an
//! armed capture gives up, and how many frame advances close it.
use crate::retroarch::entitle::ENTITLEMENT;
use crate::text::{
    chars_of, contains_in, contains_range, decimal, first_word, first_word_at, line_at, line_end,
    line_text_end, parse_u32, parse_u32_range, push_decimal, push_str,
};
use vstd::prelude::*;

verus! {

/// One row of `gpucapture list`: a pid, and whether `gpucapture` can attach
/// to it. A process without the `get-task-allow` entitlement is listed with
/// a `[non-debuggable]` marker and cannot be captured.
#[derive(Debug, Clone, Copy, PartialEq, Eq, Structural)]
pub struct Listed {
    pub pid: u32,
    pub debuggable: bool,
}

/// The marker `gpucapture list` puts on a row it cannot attach to.
pub open spec fn non_debuggable_marker() -> Seq<char> {
    "[non-debuggable]"@
}

/// The rows of the lines of `s` from `pos` on: each line whose first word
/// parses as a `u32`, debuggable unless the line holds the marker.
pub open spec fn listing_from(s: Seq<char>, pos: int) -> Seq<Listed>
    decreases s.len() + 1 - pos,
{
    if pos < 0 || pos >= s.len() {
        Seq::empty()
    } else {
        proof {
            crate::text::lemma_line_end_bounds(s, pos);
        }
        let e = line_end(s, pos);
        let t = line_text_end(s, pos);
        let (ws, we) = first_word(s, pos, t);
        let rest = listing_from(s, e + 1);
        match parse_u32(s.subrange(ws, we)) {
            Some(p) => seq![
                Listed { pid: p, debuggable: !contains_in(s, pos, t, non_debuggable_marker()) },
            ] + rest,
            None => rest,
        }
    }
}

/// The pids of the rows of a listing are the first-column numbers that
/// [`crate::capture::parse_capturable_pids`] reads from the same text.
pub proof fn lemma_listing_pids(s: Seq<char>, pos: int)
    ensures
        listing_from(s, pos).map_values(|l: Listed| l.pid) == crate::capture::pids_from(s, pos),
    decreases s.len() + 1 - pos,
{
    if 0 <= pos < s.len() {
        crate::text::lemma_line_end_bounds(s, pos);
        let e = line_end(s, pos);
        lemma_listing_pids(s, e + 1);
        let rest = listing_from(s, e + 1);
        let t = line_text_end(s, pos);
        let (ws, we) = first_word(s, pos, t);
        match parse_u32(s.subrange(ws, we)) {
            Some(p) => {
                let row = Listed { pid: p, debuggable: !contains_in(s, pos, t, non_debuggable_marker()) };
                assert((seq![row] + rest).map_values(|l: Listed| l.pid) =~= seq![p] + rest.map_values(
                    |l: Listed| l.pid,
                ));
            },
            None => {},
        }
    } else {
        assert(listing_from(s, pos).map_values(|l: Listed| l.pid) =~= Seq::<u32>::empty());
    }
}

/// The rows of `gpucapture list`: every line whose first word parses as a
/// number. The header line's first word is `PID`, which does not, and the
/// footer explaining debuggability starts with a word.
pub fn parse_listing(list_output: &str) -> (rows: Vec<Listed>)
    ensures
        rows@ == listing_from(list_output@, 0),
{
    let s = chars_of(list_output);
    let marker = chars_of("[non-debuggable]");
    let n = s.len();
    let mut out: Vec<Listed> = Vec::new();
    let mut pos: usize = 0;
    while pos < n
        invariant
            n == s@.len(),
            s@ == list_output@,
            marker@ == non_debuggable_marker(),
            0 <= pos <= n,
            listing_from(s@, 0) == out@ + listing_from(s@, pos as int),
        decreases n - pos,
    {
        let (e, t) = line_at(&s, pos);
        let (ws, we) = first_word_at(&s, pos, t);
        let ghost rest = listing_from(s@, e + 1);
        let ghost before = out@;
        match parse_u32_range(&s, ws, we) {
            Some(p) => {
                let marked = contains_range(&s, pos, t, &marker);
                let row = Listed { pid: p, debuggable: !marked };
                out.push(row);
                assert(out@ + rest =~= before + (seq![row] + rest));
            },
            None => {},
        }
        if e < n {
            pos = e + 1;
        } else {
            pos = n;
        }
    }
    assert(out@ + listing_from(s@, n as int) =~= out@);
    out
}

/// What to wait for before capturing.
#[derive(Debug, Clone, Copy, PartialEq, Eq, Structural)]
pub enum Trigger {
    /// Wait this many milliseconds after RetroArch is capturable, then
    /// capture whatever is on screen.
    Settle(u64),
    /// Pause, load the configured state slot, advance `advance` frames before
    /// arming the capture; the recorded frame is a fixed number of further
    /// advances after that.
    Paused { port: u16, advance: u32 },
}

/// Everything a capture run needs beyond the command line: the trigger, how
/// many frame boundaries to record, where to write, and timeouts.
#[derive(Debug, Clone, PartialEq, Eq)]
pub struct CaptureOptions {
    /// What to wait for before capturing.
    pub trigger: Trigger,
    /// Number of frame boundaries to record.
    pub frames: u32,
    /// Absolute path of the `.gputrace` to write.
    pub output: String,
    /// Leave RetroArch running after the capture.
    pub keep_running: bool,
    /// How many milliseconds to wait for the pid to appear in `gpucapture list`.
    pub ready_timeout_ms: u64,
    /// Where RetroArch's stdout and stderr are written.
    pub log_path: String,
    /// The app as the user named it, for the error when it is not entitled
    /// for capture.
    pub app: String,
}

/// Per-frame allowance of advances sent while waiting for an armed capture
/// to close, added to `frames` to form the cap on closing advances.
pub const MAX_CLOSING_ADVANCES: u32 = 6;

/// How many seconds a free-running capture may take before RetroArch is
/// killed to release `gpucapture`: thirty, and two more per frame boundary.
pub fn settle_capture_timeout(frames: u32) -> (secs: u64)
    ensures
        secs == 30 + 2 * frames,
{
    30 + 2 * (frames as u64)
}

/// The most frame advances sent to close an armed paused capture of
/// `frames` boundaries.
pub open spec fn max_closing_advances_spec(frames: u32) -> u64 {
    (frames + MAX_CLOSING_ADVANCES) as u64
}

/// The most frame advances sent to close an armed paused capture.
pub fn max_closing_advances(frames: u32) -> (n: u64)
    ensures
        n == frames + MAX_CLOSING_ADVANCES,
        n == max_closing_advances_spec(frames),
{
    frames as u64 + MAX_CLOSING_ADVANCES as u64
}

/// Seconds to wait for `gpucapture start` to report that it is armed and
/// waiting for a frame boundary.
pub const ARM_TIMEOUT_SECS: u64 = 10;

/// Seconds to wait, once the closing-advance cap is reached, for
/// `gpucapture` to finish writing the bundle (tens of megabytes) before
/// the capture is taken to have stalled.
pub const BUNDLE_WRITE_GRACE_SECS: u64 = 15;

/// Where a pid stands in a `gpucapture list`.
#[derive(Debug, Clone, Copy, PartialEq, Eq, Structural)]
pub enum Capturable {
    /// Listed, and `gpucapture` can attach to it.
    Ready,
    /// Listed with the `[non-debuggable]` marker.
    NotDebuggable,
    /// Not listed (yet).
    Absent,
}

/// Where `pid` stands in `rows`: decided by the first row with that pid.
pub open spec fn capturable_in(rows: Seq<Listed>, pid: u32) -> Capturable {
    if exists|i: int| 0 <= i < rows.len() && rows[i].pid == pid {
        let i = choose|i: int|
            0 <= i < rows.len() && rows[i].pid == pid && forall|j: int|
                0 <= j < i ==> rows[j].pid != pid;
        if rows[i].debuggable {
            Capturable::Ready
        } else {
            Capturable::NotDebuggable
        }
    } else {
        Capturable::Absent
    }
}

/// Where `pid` stands in a parsed `gpucapture list`: the first row with
/// that pid says whether it can be captured.
pub fn find_capturable(rows: &Vec<Listed>, pid: u32) -> (c: Capturable)
    ensures
        c == capturable_in(rows@, pid),
        c == Capturable::Absent <==> forall|i: int| 0 <= i < rows@.len() ==> rows@[i].pid != pid,
{
    let mut i: usize = 0;
    while i < rows.len()
        invariant
            0 <= i <= rows@.len(),
            forall|j: int| 0 <= j < i ==> rows@[j].pid != pid,
        decreases rows@.len() - i,
    {
        if rows[i].pid == pid {
            let found = rows[i];
            proof {
                let k = choose|k: int|
                    0 <= k < rows@.len() && rows@[k].pid == pid && forall|j: int|
                        0 <= j < k ==> rows@[j].pid != pid;
                assert(0 <= i < rows@.len() && rows@[i as int].pid == pid && forall|j: int|
                    0 <= j < i ==> rows@[j].pid != pid);
                if k < i {
                    assert(rows@[k].pid != pid);
                } else if k > i {
                    assert(rows@[i as int].pid != pid);
                }
                assert(k == i);
            }
            if found.debuggable {
                return Capturable::Ready;
            } else {
                return Capturable::NotDebuggable;
            }
        }
        i = i + 1;
    }
    Capturable::Absent
}

/// The error for a pid that `gpucapture list` shows as non-debuggable: the
/// app as the user named it is not entitled for capture.
pub open spec fn non_debuggable_message(pid: u32, app: Seq<char>) -> Seq<char> {
    "`gpucapture list` shows pid "@ + decimal(pid as nat) + " as non-debuggable: "@ + app
        + " is not signed with "@ + ENTITLEMENT@
        + ", so gpucapture cannot attach to it. Run `ra-metal-capture entitle --app "@ + app
        + "` once (see the README), then retry"@
}

/// [`non_debuggable_message`] for `pid` and `app`.
pub fn not_debuggable(pid: u32, app: &str) -> (m: String)
    ensures
        m@ == non_debuggable_message(pid, app@),
{
    let mut m = String::new();
    push_str(&mut m, "`gpucapture list` shows pid ");
    push_decimal(&mut m, pid as u64);
    push_str(&mut m, " as non-debuggable: ");
    push_str(&mut m, app);
    push_str(&mut m, " is not signed with ");
    push_str(&mut m, ENTITLEMENT);
    push_str(&mut m, ", so gpucapture cannot attach to it. Run `ra-metal-capture entitle --app ");
    push_str(&mut m, app);
    push_str(&mut m, "` once (see the README), then retry");
    m
}

/// What one look at `gpucapture start` found while waiting for it to arm.
#[derive(Debug, Clone, Copy, PartialEq, Eq, Structural)]
pub enum ArmPoll {
    /// It reported that it is waiting for a frame boundary.
    Armed,
    /// Nothing yet within the polling tick.
    Quiet,
    /// It returned without reporting it was armed.
    Gone,
}

/// What to do next while waiting for `gpucapture start` to arm.
#[derive(Debug, Clone, Copy, PartialEq, Eq, Structural)]
pub enum Arming {
    /// Start advancing to close the capture.
    Proceed,
    /// Poll again.
    Wait,
    /// Kill RetroArch, join the capture, and fail: it never armed in time.
    TimedOut,
    /// Kill RetroArch and fail with what the capture returned.
    Gone,
}

/// The arming decision for `poll`, `past_deadline` being whether
/// [`ARM_TIMEOUT_SECS`] have gone by since `gpucapture start` was launched.
pub fn arming(poll: ArmPoll, past_deadline: bool) -> (a: Arming)
    ensures
        a == (match poll {
            ArmPoll::Armed => Arming::Proceed,
            ArmPoll::Gone => Arming::Gone,
            ArmPoll::Quiet => if past_deadline {
                Arming::TimedOut
            } else {
                Arming::Wait
            },
        }),
{
    match poll {
        ArmPoll::Armed => Arming::Proceed,
        ArmPoll::Gone => Arming::Gone,
        ArmPoll::Quiet => if past_deadline {
            Arming::TimedOut
        } else {
            Arming::Wait
        },
    }
}

/// The error when `gpucapture start` did not arm within [`ARM_TIMEOUT_SECS`].
pub open spec fn arm_timeout_message() -> Seq<char> {
    "gpucapture did not report it was armed within "@ + decimal(ARM_TIMEOUT_SECS as nat) + "s"@
}

/// [`arm_timeout_message`].
pub fn arm_timed_out() -> (m: String)
    ensures
        m@ == arm_timeout_message(),
{
    let mut m = String::new();
    push_str(&mut m, "gpucapture did not report it was armed within ");
    push_decimal(&mut m, ARM_TIMEOUT_SECS);
    push_str(&mut m, "s");
    m
}

/// What to do next while closing an armed paused capture.
#[derive(Debug, Clone, Copy, PartialEq, Eq, Structural)]
pub enum ClosingStep {
    /// The capture finished: join it and report its result.
    Join,
    /// Ctrl-C arrived: kill RetroArch, join the capture, and stop.
    Interrupted,
    /// Send one more frame advance (on failure: kill RetroArch and fail).
    Advance,
    /// The advance cap is reached: wait up to the grace period for the
    /// bundle to be written, then ask again.
    AwaitBundle,
    /// Even after the grace period the capture has not finished: kill
    /// RetroArch and fail.
    Stalled,
}

/// The closing of an armed paused capture. A paused RetroArch presents
/// only on frame advances, and `gpucapture` needs several presents to
/// close a boundary, so advances are sent until the capture finishes, up
/// to a cap that scales with the number of boundaries recorded.
pub struct Closing {
    sent: u64,
    cap: u64,
    grace_spent: bool,
}

impl Closing {
    /// Frame advances sent so far.
    pub closed spec fn spec_sent(self) -> u64 {
        self.sent
    }

    /// The most advances that will be sent.
    pub closed spec fn spec_cap(self) -> u64 {
        self.cap
    }

    /// Whether the grace period for writing the bundle has been spent.
    pub closed spec fn spec_grace_spent(self) -> bool {
        self.grace_spent
    }

    #[verifier::type_invariant]
    spec fn within_cap(self) -> bool {
        &&& self.sent <= self.cap
        &&& self.grace_spent ==> self.sent == self.cap
    }

    /// Nothing sent yet, for a capture of `frames` boundaries.
    pub fn new(frames: u32) -> (c: Closing)
        ensures
            c.spec_sent() == 0,
            c.spec_cap() == max_closing_advances_spec(frames),
            !c.spec_grace_spent(),
    {
        Closing { sent: 0, cap: max_closing_advances(frames), grace_spent: false }
    }

    /// Frame advances sent so far.
    pub fn sent(&self) -> (n: u64)
        ensures
            n == self.spec_sent(),
    {
        self.sent
    }

    /// The most advances that will be sent.
    pub fn cap(&self) -> (n: u64)
        ensures
            n == self.spec_cap(),
    {
        self.cap
    }

    /// The next step, given whether the capture has `finished` and whether
    /// Ctrl-C was pressed. A finished capture is joined; once the grace
    /// period is spent an unfinished one has stalled; otherwise an
    /// interrupt stops the run, the cap starts the grace period, and below
    /// the cap one more advance is sent (and counted).
    pub fn step(&mut self, finished: bool, interrupted: bool) -> (s: ClosingStep)
        ensures
            s == closing_step(*old(self), finished, interrupted),
            final(self).spec_cap() == old(self).spec_cap(),
            final(self).spec_sent() == (if s == ClosingStep::Advance {
                old(self).spec_sent() + 1
            } else {
                old(self).spec_sent() as int
            }),
            final(self).spec_grace_spent() == (old(self).spec_grace_spent() || s
                == ClosingStep::AwaitBundle),
            final(self).spec_sent() <= final(self).spec_cap(),
    {
        proof {
            use_type_invariant(&*self);
        }
        if finished {
            ClosingStep::Join
        } else if self.grace_spent {
            ClosingStep::Stalled
        } else if interrupted {
            ClosingStep::Interrupted
        } else if self.sent == self.cap {
            self.grace_spent = true;
            ClosingStep::AwaitBundle
        } else {
            self.sent = self.sent + 1;
            ClosingStep::Advance
        }
    }
}

/// The step [`Closing::step`] takes from `c`.
pub open spec fn closing_step(c: Closing, finished: bool, interrupted: bool) -> ClosingStep {
    if finished {
        ClosingStep::Join
    } else if c.spec_grace_spent() {
        ClosingStep::Stalled
    } else if interrupted {
        ClosingStep::Interrupted
    } else if c.spec_sent() == c.spec_cap() {
        ClosingStep::AwaitBundle
    } else {
        ClosingStep::Advance
    }
}

/// The error for a paused capture that did not close after `cap` advances
/// and the grace period.
pub open spec fn stalled_message(cap: u64) -> Seq<char> {
    "capture did not complete after "@ + decimal(cap as nat) + " frame advances and a "@
        + decimal(BUNDLE_WRITE_GRACE_SECS as nat)
        + "s grace period; RetroArch was killed to release gpucapture"@
}

impl Closing {
    /// [`stalled_message`] for this capture's cap.
    pub fn stalled(&self) -> (m: String)
        ensures
            m@ == stalled_message(self.spec_cap()),
    {
        let mut m = String::new();
        push_str(&mut m, "capture did not complete after ");
        push_decimal(&mut m, self.cap);
        push_str(&mut m, " frame advances and a ");
        push_decimal(&mut m, BUNDLE_WRITE_GRACE_SECS);
        push_str(&mut m, "s grace period; RetroArch was killed to release gpucapture");
        m
    }
}

} // verus!
