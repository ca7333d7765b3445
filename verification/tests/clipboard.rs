use smoltalk::clipboard::{ClipboardAction, ClipboardEvent, ClipboardFlow, ClipboardManager};

fn failed(error: &str) -> ClipboardEvent<String> {
    ClipboardEvent::Failed { error: error.to_string() }
}

fn run(flow: ClipboardFlow, events: Vec<ClipboardEvent<String>>) -> Vec<ClipboardAction<String>> {
    let mut flow = flow;
    let mut actions = Vec::new();
    for event in events {
        let (next, action) = flow.step(event);
        flow = next;
        actions.push(action);
    }
    actions
}

#[test]
fn the_clipboard_itself_is_tried_first() {
    let manager = ClipboardManager::new();
    assert_eq!(
        run(
            manager.copy_with_wayland_fallback("text"),
            vec![ClipboardEvent::Done, ClipboardEvent::Done]
        ),
        vec![ClipboardAction::SetText, ClipboardAction::Finish { result: Ok(()) }]
    );
    assert_eq!(
        run(manager.copy_with_wayland_fallback(""), vec![ClipboardEvent::Done]),
        vec![ClipboardAction::Finish { result: Ok(()) }]
    );
}

#[test]
fn the_previous_text_is_read_where_it_is_to_be_preserved() {
    let manager = ClipboardManager::new().with_preserve(true);
    assert_eq!(
        run(
            manager.copy_text("text"),
            vec![ClipboardEvent::Done, failed("empty"), failed("no display")]
        ),
        vec![
            ClipboardAction::ReadPrevious,
            ClipboardAction::SetText,
            ClipboardAction::Finish { result: Err("no display".to_string()) },
        ]
    );
}

#[test]
fn the_helper_takes_over_where_the_clipboard_fails() {
    let manager = ClipboardManager::new();
    assert_eq!(
        run(
            manager.copy_with_wayland_fallback("text"),
            vec![
                ClipboardEvent::Done,
                failed("no display"),
                ClipboardEvent::Done,
                ClipboardEvent::Done,
                ClipboardEvent::Exited { success: false, status: "exit status: 1".to_string() },
            ]
        ),
        vec![
            ClipboardAction::SetText,
            ClipboardAction::SpawnHelper,
            ClipboardAction::WriteHelper,
            ClipboardAction::WaitHelper,
            ClipboardAction::Finish {
                result: Err("wl-copy failed with status exit status: 1".to_string()),
            },
        ]
    );
}

#[test]
fn a_helper_that_takes_no_text_is_killed() {
    let manager = ClipboardManager::new();
    assert_eq!(
        run(
            manager.copy_with_wayland_fallback("text"),
            vec![
                ClipboardEvent::Done,
                failed("no display"),
                ClipboardEvent::Done,
                failed("broken pipe"),
                ClipboardEvent::Done,
            ]
        )[3..],
        [
            ClipboardAction::KillHelper,
            ClipboardAction::Finish { result: Err("broken pipe".to_string()) },
        ]
    );
    assert_eq!(
        run(
            manager.copy_with_wayland_fallback("text"),
            vec![ClipboardEvent::Done, failed("no display"), failed("not found")]
        )[2],
        ClipboardAction::Finish { result: Err("not found".to_string()) }
    );
}
