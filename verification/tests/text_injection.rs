use smoltalk::config::{InjectionConfig, InjectionForceMethod};
use smoltalk::text_injection::{
    choose_injection_plan, detect_type_method, force_method_name, pick_type_method, read_clipboard, text_contains_newline,
    typing_timeout_ms,
    ClipboardBackend, CopyAction, CopyEvent, CopyFlow, InjectAction, InjectEvent, InjectionPlan,
    PasteAction, PasteTool, ReadAction, TextInjector, TypeMethod,
};

fn settings() -> InjectionConfig {
    InjectionConfig {
        paste_threshold_chars: 10,
        force_method: None,
        restore_clipboard: true,
    }
}

/// A machine with a clipboard and programs that type and paste, which logs what it is asked to do.
struct Machine {
    clipboard: Option<String>,
    typing_works: bool,
    pasting_works: bool,
    /// What a user copies while the text is pasted.
    user_copy: Option<String>,
    log: Vec<String>,
}

impl Machine {
    fn new(clipboard: &str) -> Machine {
        Machine {
            clipboard: Some(clipboard.to_string()),
            typing_works: true,
            pasting_works: true,
            user_copy: None,
            log: Vec::new(),
        }
    }

    fn inject(&mut self, injector: &TextInjector, text: &str) -> Result<(), String> {
        let mut flow = injector.inject_text(text);
        let mut event = InjectEvent::Done;
        loop {
            let (next, action) = flow.step(event);
            flow = next;
            event = match action {
                InjectAction::Type { method } => {
                    self.log.push(format!("{}:{}", method.name(), method.type_args(text).join(",")));
                    if self.typing_works {
                        InjectEvent::Done
                    } else {
                        InjectEvent::Failed { error: "typing".to_string() }
                    }
                }
                InjectAction::Read => match &self.clipboard {
                    Some(text) => InjectEvent::Text { text: text.clone() },
                    None => InjectEvent::Failed { error: "unreadable".to_string() },
                },
                InjectAction::Copy { text } => {
                    self.log.push(format!("copy:{text}"));
                    if self.clipboard.is_some() {
                        self.clipboard = Some(text);
                    }
                    InjectEvent::Done
                }
                InjectAction::Sleep { ms: _ } => InjectEvent::Done,
                InjectAction::Paste => {
                    self.log.push("paste".to_string());
                    if let Some(copied) = self.user_copy.take() {
                        self.clipboard = Some(copied);
                    }
                    if self.pasting_works {
                        InjectEvent::Done
                    } else {
                        InjectEvent::Failed { error: "no shortcut".to_string() }
                    }
                }
                InjectAction::Finish { result } => return result,
            };
        }
    }
}

fn injector() -> TextInjector {
    TextInjector::with_tools(Some("wtype"), settings(), true, false)
}

#[test]
fn decision_uses_type_for_short_single_line_text() {
    assert_eq!(
        choose_injection_plan("short", &settings()),
        InjectionPlan::Type
    );
}

#[test]
fn decision_uses_paste_above_threshold_or_for_multiline() {
    assert_eq!(
        choose_injection_plan("this is too long", &settings()),
        InjectionPlan::Paste
    );
    assert_eq!(
        choose_injection_plan("line one\nline two", &settings()),
        InjectionPlan::Paste
    );
}

#[test]
fn decision_honors_forced_method() {
    let mut config = settings();
    config.force_method = Some(InjectionForceMethod::Paste);
    assert_eq!(
        choose_injection_plan("short", &config),
        InjectionPlan::Paste
    );

    config.force_method = Some(InjectionForceMethod::Type);
    assert_eq!(
        choose_injection_plan("line one\nline two", &config),
        InjectionPlan::Type
    );
}

#[test]
fn the_threshold_counts_characters() {
    assert_eq!(choose_injection_plan("0123456789", &settings()), InjectionPlan::Type);
    assert_eq!(choose_injection_plan("01234567890", &settings()), InjectionPlan::Paste);
    assert_eq!(
        choose_injection_plan("\u{8a9e}\u{8a9e}\u{8a9e}\u{8a9e}\u{8a9e}", &settings()),
        InjectionPlan::Type
    );
    assert_eq!(choose_injection_plan("a\rb", &settings()), InjectionPlan::Paste);
}

#[test]
fn short_type_path_never_invokes_clipboard_commands() {
    let mut machine = Machine::new("original");
    machine.inject(&injector(), "hello").unwrap();
    machine.inject(&injector(), "again").unwrap();

    assert_eq!(machine.log, vec!["wtype:hello", "wtype:again"]);
}

#[test]
fn long_paste_path_copies_pastes_then_restores_clipboard() {
    let mut machine = Machine::new("original");
    machine.inject(&injector(), "this is too long").unwrap();

    assert_eq!(machine.clipboard, Some("original".to_string()));
    assert_eq!(
        machine.log,
        vec!["copy:this is too long", "paste", "copy:original"]
    );
}

#[test]
fn long_paste_remains_available_to_a_delayed_clipboard_consumer() {
    let mut flow = injector().inject_text("this is too long");
    let mut slept: u64 = 0;
    for event in vec![
        InjectEvent::Done,
        InjectEvent::Text { text: "original".to_string() },
        InjectEvent::Done,
        InjectEvent::Done,
        InjectEvent::Text { text: "this is too long".to_string() },
        InjectEvent::Done,
    ] {
        let (next, action) = flow.step(event);
        flow = next;
        if let InjectAction::Sleep { ms } = action {
            slept = ms;
        }
    }

    assert_eq!(slept, 500);
}

#[test]
fn long_paste_skips_restore_when_clipboard_changes_during_injection() {
    let mut machine = Machine::new("original");
    machine.user_copy = Some("user-copy".to_string());
    machine.inject(&injector(), "this is too long").unwrap();

    assert_eq!(machine.clipboard, Some("user-copy".to_string()));
    assert_eq!(machine.log, vec!["copy:this is too long", "paste"]);
}

#[test]
fn typing_failure_falls_back_to_guarded_paste() {
    let mut machine = Machine::new("original");
    machine.typing_works = false;
    machine.inject(&injector(), "short").unwrap();

    assert_eq!(machine.clipboard, Some("original".to_string()));
    assert_eq!(
        machine.log,
        vec!["wtype:short", "copy:short", "paste", "copy:original"]
    );
}

#[test]
fn without_a_typing_tool_short_text_is_pasted() {
    let injector = TextInjector::with_tools(Some("clipboard"), settings(), true, true);
    assert_eq!(injector.type_method, None);
    let mut machine = Machine::new("original");
    machine.inject(&injector, "short").unwrap();

    assert_eq!(machine.log, vec!["copy:short", "paste", "copy:original"]);
}

#[test]
fn a_failed_paste_leaves_the_transcript_on_the_clipboard() {
    let mut machine = Machine::new("original");
    machine.pasting_works = false;

    assert_eq!(
        machine.inject(&injector(), "this is too long"),
        Err("no shortcut".to_string())
    );
    assert_eq!(machine.clipboard, Some("this is too long".to_string()));
}

#[test]
fn a_copy_that_cannot_be_verified_is_repeated_for_a_second() {
    let mut machine = Machine::new("original");
    machine.clipboard = None;
    machine.inject(&injector(), "this is too long").unwrap();

    let copies = machine.log.iter().filter(|line| line.starts_with("copy:")).count();
    // The waits are 50, 100 and then 200 milliseconds, until at least a second was waited.
    assert_eq!(copies, 8);
    assert_eq!(machine.log.last().unwrap(), "paste");
}

#[test]
fn nothing_is_injected_of_an_empty_text() {
    let mut machine = Machine::new("original");
    machine.inject(&injector(), "").unwrap();

    assert!(machine.log.is_empty());
}

#[test]
fn the_typing_tool_follows_the_preference() {
    assert_eq!(pick_type_method(Some("wtype"), true, true), Some(TypeMethod::Wtype));
    assert_eq!(pick_type_method(Some("wtype"), false, true), None);
    assert_eq!(pick_type_method(Some("ydotool"), true, true), Some(TypeMethod::Ydotool));
    assert_eq!(pick_type_method(Some("ydotool"), true, false), None);
    assert_eq!(pick_type_method(Some("other"), true, true), Some(TypeMethod::Ydotool));
    assert_eq!(pick_type_method(None, true, false), Some(TypeMethod::Wtype));
    assert_eq!(pick_type_method(None, false, false), None);
}

#[test]
fn a_new_injector_looks_for_its_tools() {
    let found = which::which("wtype").is_ok();
    let injector = TextInjector::new(Some("wtype"), settings()).unwrap();

    assert_eq!(injector.type_method.is_some(), found);
    assert_eq!(injector.settings, settings());
}

#[test]
fn typing_time_grows_with_the_text() {
    assert_eq!(typing_timeout_ms(""), 2_000);
    assert_eq!(typing_timeout_ms("hello"), 2_100);
}

#[test]
fn the_clipboard_is_read_with_the_first_tool_that_works() {
    assert_eq!(
        read_clipboard(None, None),
        ReadAction::Run { backend: ClipboardBackend::WlClipboard }
    );
    assert_eq!(
        read_clipboard(Some(ClipboardBackend::WlClipboard), None),
        ReadAction::Run { backend: ClipboardBackend::Xclip }
    );
    assert_eq!(
        read_clipboard(Some(ClipboardBackend::Xclip), Some("text".to_string())),
        ReadAction::Finish { result: Ok("text".to_string()) }
    );
    assert_eq!(
        read_clipboard(Some(ClipboardBackend::Xsel), None),
        ReadAction::Finish {
            result: Err(
                "Failed to read plain-text clipboard with wl-paste, xclip, or xsel".to_string()
            ),
        }
    );
}

fn run_copy(events: Vec<CopyEvent<String>>) -> Vec<CopyAction<String>> {
    let mut flow = CopyFlow::new();
    let mut actions = Vec::new();
    for event in events {
        let (next, action) = flow.step(event);
        flow = next;
        actions.push(action);
    }
    actions
}

#[test]
fn the_clipboard_is_written_with_the_first_tool_that_works() {
    assert_eq!(
        run_copy(vec![
            CopyEvent::Done,
            CopyEvent::Missing,
            CopyEvent::Done,
            CopyEvent::Done,
            CopyEvent::Exited { success: false },
            CopyEvent::Done,
            CopyEvent::Done,
            CopyEvent::Exited { success: true },
        ]),
        vec![
            CopyAction::Spawn { backend: ClipboardBackend::WlClipboard },
            CopyAction::Spawn { backend: ClipboardBackend::Xclip },
            CopyAction::Write,
            CopyAction::Wait,
            CopyAction::Spawn { backend: ClipboardBackend::Xsel },
            CopyAction::Write,
            CopyAction::Wait,
            CopyAction::Finish { result: Ok(()) },
        ]
    );
    let none = run_copy(vec![
        CopyEvent::Done,
        CopyEvent::Missing,
        CopyEvent::Missing,
        CopyEvent::Missing,
    ]);
    assert_eq!(
        none[3],
        CopyAction::Finish { result: Err("No clipboard copy tool available".to_string()) }
    );
}

#[test]
fn a_copy_tool_that_breaks_ends_the_copy() {
    assert_eq!(
        run_copy(vec![
            CopyEvent::Done,
            CopyEvent::Failed { error: "denied".to_string() },
        ])[1],
        CopyAction::Finish { result: Err("Failed to spawn wl-copy".to_string()) }
    );
    assert_eq!(
        run_copy(vec![
            CopyEvent::Done,
            CopyEvent::Done,
            CopyEvent::Failed { error: "broken pipe".to_string() },
            CopyEvent::Done,
        ])[2..],
        [
            CopyAction::Kill,
            CopyAction::Finish { result: Err("broken pipe".to_string()) },
        ]
    );
    assert_eq!(
        run_copy(vec![
            CopyEvent::Done,
            CopyEvent::Done,
            CopyEvent::Done,
            CopyEvent::Failed { error: "command timed out after 2000ms".to_string() },
        ])[3],
        CopyAction::Finish { result: Err("command timed out after 2000ms".to_string()) }
    );
}

#[test]
fn pasting_tries_the_typing_tool_first() {
    let wtype = injector();
    assert_eq!(
        wtype.simulate_paste(0, false),
        PasteAction::Run { tool: PasteTool::Method(TypeMethod::Wtype) }
    );
    assert_eq!(
        wtype.simulate_paste(1, false),
        PasteAction::Run { tool: PasteTool::Method(TypeMethod::Ydotool) }
    );
    assert_eq!(wtype.simulate_paste(1, true), PasteAction::Finish { result: Ok(()) });
    assert_eq!(
        wtype.simulate_paste(2, false),
        PasteAction::Run { tool: PasteTool::Xdotool }
    );
    assert_eq!(
        wtype.simulate_paste(3, false),
        PasteAction::Finish { result: Err("No paste shortcut backend succeeded".to_string()) }
    );
    assert!(!wtype.looks_for(PasteTool::Method(TypeMethod::Wtype)));
    assert!(wtype.looks_for(PasteTool::Method(TypeMethod::Ydotool)));
    assert!(wtype.looks_for(PasteTool::Xdotool));
    let none = TextInjector::with_tools(None, settings(), false, false);
    assert!(none.looks_for(PasteTool::Method(TypeMethod::Ydotool)));
    assert_eq!(
        none.simulate_paste(0, false),
        PasteAction::Run { tool: PasteTool::Method(TypeMethod::Ydotool) }
    );
}

#[test]
fn tools_are_run_with_their_arguments() {
    assert_eq!(TypeMethod::Ydotool.type_args("hi"), vec!["type", "hi"]);
    assert_eq!(TypeMethod::Ydotool.type_label(), "ydotool type");
    assert_eq!(
        PasteTool::Method(TypeMethod::Wtype).paste_args(),
        vec!["-M", "ctrl", "-P", "v", "-m", "ctrl", "-p", "v"]
    );
    assert_eq!(
        PasteTool::Method(TypeMethod::Ydotool).paste_args(),
        vec!["key", "29:1", "47:1", "47:0", "29:0"]
    );
    assert_eq!(PasteTool::Xdotool.paste_args(), vec!["key", "ctrl+v"]);
    assert_eq!(PasteTool::Xdotool.command(), "xdotool");
    assert_eq!(PasteTool::Xdotool.paste_label(), "xdotool paste");
    assert_eq!(PasteTool::Method(TypeMethod::Wtype).paste_label(), "wtype paste");
    assert_eq!(PasteTool::Method(TypeMethod::Ydotool).paste_label(), "ydotool paste");
    assert_eq!(ClipboardBackend::WlClipboard.copy_cmd(), "wl-copy");
    assert_eq!(ClipboardBackend::WlClipboard.copy_args(), Vec::<String>::new());
    assert_eq!(ClipboardBackend::WlClipboard.read_cmd(), "wl-paste");
    assert_eq!(ClipboardBackend::WlClipboard.read_args(), vec!["--no-newline"]);
    assert_eq!(ClipboardBackend::Xclip.copy_args(), vec!["-selection", "clipboard"]);
    assert_eq!(ClipboardBackend::Xclip.read_args(), vec!["-selection", "clipboard", "-out"]);
    assert_eq!(ClipboardBackend::Xsel.copy_args(), vec!["--clipboard", "--input"]);
    assert_eq!(ClipboardBackend::Xsel.read_args(), vec!["--clipboard", "--output"]);
    assert_eq!(ClipboardBackend::Xsel.name(), "xsel");
    assert_eq!(InjectionPlan::Type.name(), "type");
    assert_eq!(force_method_name(InjectionForceMethod::Paste), "paste");
}

#[test]
fn the_typing_tool_is_looked_for_on_the_search_path() {
    let wtype = which::which("wtype").is_ok();
    let ydotool = which::which("ydotool").is_ok();

    assert_eq!(detect_type_method(None), pick_type_method(None, wtype, ydotool));
    assert_eq!(detect_type_method(Some("clipboard")), None);
}

#[test]
fn line_breaks_are_found() {
    assert!(text_contains_newline("a\nb"));
    assert!(text_contains_newline("a\r"));
    assert!(!text_contains_newline("a b"));
}
