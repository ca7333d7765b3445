use smoltalk::commands::{
    run_checked, timeout_message, wait_for_child_with_timeout, ChildPoll, RunOutcome,
};

#[test]
fn a_slow_program_is_killed() {
    assert_eq!(
        wait_for_child_with_timeout(false, 99_999_999, 100),
        ChildPoll::Wait { ms: 10 }
    );
    assert_eq!(
        wait_for_child_with_timeout(false, 100_000_000, 100),
        ChildPoll::TimedOut
    );
    assert_eq!(
        wait_for_child_with_timeout(true, 900_000_000, 100),
        ChildPoll::Exited
    );
    assert_eq!(timeout_message(2_000), "command timed out after 2000ms");
}

#[test]
fn a_run_that_fails_says_why() {
    assert_eq!(
        run_checked("wtype", RunOutcome::NotRun),
        Err("Failed to execute wtype".to_string())
    );
    assert_eq!(
        run_checked(
            "ydotool type",
            RunOutcome::Ran { success: false, stderr: "no socket".to_string() }
        ),
        Err("ydotool type failed: no socket".to_string())
    );
    assert_eq!(
        run_checked("wtype", RunOutcome::Ran { success: true, stderr: "noise".to_string() }),
        Ok(())
    );
}
