use ra_metal_capture::capture::parse_capturable_pids;
use ra_metal_capture::retroarch::capture::{
    arm_timed_out, arming, find_capturable, max_closing_advances, not_debuggable, parse_listing,
    settle_capture_timeout, ArmPoll, Arming, Capturable, Closing, ClosingStep, Listed,
    MAX_CLOSING_ADVANCES,
};
use std::time::Duration;

#[test]
fn parses_pids_from_first_column() {
    let out = "    PID  Device  Name  GPU(ms)  \n  12084       0  loop     0.02  \n  99  0  RetroArch  1.0\n";
    assert_eq!(parse_capturable_pids(out), vec![12084, 99]);
}

#[test]
fn empty_and_header_only_give_nothing() {
    assert!(parse_capturable_pids("").is_empty());
    assert!(parse_capturable_pids("    PID  Device  Name  GPU(ms)  \n").is_empty());
}

#[test]
fn capture_parses_pids_from_first_column() {
    let out = "    PID  Device  Name  GPU(ms)  \n  12084       0  loop     0.02  \n  99  0  RetroArch  1.0\n";
    assert_eq!(
        parse_listing(out),
        vec![
            Listed {
                pid: 12084,
                debuggable: true
            },
            Listed {
                pid: 99,
                debuggable: true
            }
        ]
    );
}

#[test]
fn capture_empty_and_header_only_give_nothing() {
    assert!(parse_listing("").is_empty());
    assert!(parse_listing("    PID  Device  Name  GPU(ms)  \n").is_empty());
}

#[test]
fn settle_capture_timeout_grows_with_frames() {
    assert_eq!(Duration::from_secs(settle_capture_timeout(1)), Duration::from_secs(32));
    assert_eq!(Duration::from_secs(settle_capture_timeout(10)), Duration::from_secs(50));
}

#[test]
fn non_debuggable_row_is_listed_but_not_debuggable() {
    let out = "    PID  Device  Name  GPU(ms)\n  94229       0   ???      nan  [non-debuggable]\n\n\
        Processes must be debuggable to be captured\n";
    assert_eq!(
        parse_listing(out),
        vec![Listed {
            pid: 94229,
            debuggable: false
        }]
    );
}

#[test]
fn listing_takes_crlf_lines_a_plus_sign_and_skips_overflowing_pids() {
    let out = "PID x\r\n  +7  0  a\r\n 4294967296 0 b\n 4294967295 0 c [non-debuggable]";
    assert_eq!(
        parse_listing(out),
        vec![
            Listed {
                pid: 7,
                debuggable: true
            },
            Listed {
                pid: 4294967295,
                debuggable: false
            }
        ]
    );
    assert_eq!(parse_capturable_pids(out), vec![7, 4294967295]);
}

#[test]
fn closing_advances_cap_is_frames_plus_the_allowance() {
    assert_eq!(MAX_CLOSING_ADVANCES, 6);
    assert_eq!(max_closing_advances(1), 7);
    assert_eq!(max_closing_advances(u32::MAX), u32::MAX as u64 + 6);
}

#[test]
fn the_first_row_with_the_pid_decides_whether_it_is_capturable() {
    let rows = vec![
        Listed { pid: 7, debuggable: true },
        Listed { pid: 42, debuggable: false },
        Listed { pid: 42, debuggable: true },
    ];
    assert_eq!(find_capturable(&rows, 7), Capturable::Ready);
    assert_eq!(find_capturable(&rows, 42), Capturable::NotDebuggable);
    assert_eq!(find_capturable(&rows, 5), Capturable::Absent);
    assert_eq!(find_capturable(&vec![], 7), Capturable::Absent);
}

#[test]
fn non_debuggable_error_names_the_app_and_the_entitlement() {
    assert_eq!(
        not_debuggable(42, "/Applications/RetroArch.app"),
        "`gpucapture list` shows pid 42 as non-debuggable: /Applications/RetroArch.app is not \
         signed with com.apple.security.get-task-allow, so gpucapture cannot attach to it. Run \
         `ra-metal-capture entitle --app /Applications/RetroArch.app` once (see the README), then retry"
    );
}

#[test]
fn arming_waits_until_the_deadline() {
    assert_eq!(arming(ArmPoll::Armed, false), Arming::Proceed);
    assert_eq!(arming(ArmPoll::Armed, true), Arming::Proceed);
    assert_eq!(arming(ArmPoll::Quiet, false), Arming::Wait);
    assert_eq!(arming(ArmPoll::Quiet, true), Arming::TimedOut);
    assert_eq!(arming(ArmPoll::Gone, false), Arming::Gone);
    assert_eq!(arm_timed_out(), "gpucapture did not report it was armed within 10s");
}

#[test]
fn closing_advances_up_to_the_cap_then_waits_for_the_bundle() {
    let mut c = Closing::new(1);
    assert_eq!(c.cap(), 7);
    for n in 1..=7 {
        assert_eq!(c.step(false, false), ClosingStep::Advance);
        assert_eq!(c.sent(), n);
    }
    assert_eq!(c.step(false, false), ClosingStep::AwaitBundle);
    assert_eq!(c.sent(), 7);
    assert_eq!(c.step(false, false), ClosingStep::Stalled);
    assert_eq!(
        c.stalled(),
        "capture did not complete after 7 frame advances and a 15s grace period; \
         RetroArch was killed to release gpucapture"
    );
}

#[test]
fn closing_joins_a_finished_capture_and_stops_on_interrupt() {
    let mut c = Closing::new(2);
    assert_eq!(c.step(false, false), ClosingStep::Advance);
    assert_eq!(c.step(false, true), ClosingStep::Interrupted);
    assert_eq!(c.sent(), 1);
    assert_eq!(c.step(true, false), ClosingStep::Join);
    let mut d = Closing::new(0);
    for _ in 0..6 {
        assert_eq!(d.step(false, false), ClosingStep::Advance);
    }
    assert_eq!(d.step(false, false), ClosingStep::AwaitBundle);
    assert_eq!(d.step(true, false), ClosingStep::Join);
}

#[test]
fn the_listing_holds_the_pids_the_first_column_gives() {
    let out = "    PID  Device  Name  GPU(ms)\n  94229       0   ???      nan  [non-debuggable]\n  7 0 RetroArch 1.0\n\n\
        Processes must be debuggable to be captured\n";
    let pids: Vec<u32> = parse_listing(out).iter().map(|l| l.pid).collect();
    assert_eq!(pids, parse_capturable_pids(out));
    assert_eq!(pids, vec![94229, 7]);
}
