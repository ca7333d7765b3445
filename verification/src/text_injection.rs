//! Putting a text where the user types: by typing it, or by pasting it and then giving the
//! clipboard back.

use crate::commands::{find_program, found_under, FoundProgram};
use crate::config::{InjectionConfig, InjectionForceMethod};
use crate::text::{chars_of, opt_view, str_eq, str_view, views};
use vstd::prelude::*;

verus! {

/// A program that types.
#[derive(Clone, Copy, Debug, PartialEq, Eq, Structural)]
pub enum TypeMethod {
    Wtype,
    Ydotool,
}

impl TypeMethod {
    pub open spec fn label(self) -> Seq<char> {
        match self {
            TypeMethod::Wtype => "wtype"@,
            TypeMethod::Ydotool => "ydotool"@,
        }
    }

    pub fn name(self) -> (r: &'static str)
        ensures
            r@ == self.label(),
    {
        match self {
            TypeMethod::Wtype => "wtype",
            TypeMethod::Ydotool => "ydotool",
        }
    }

    /// The program.
    pub fn command(self) -> (r: &'static str)
        ensures
            r@ == self.label(),
    {
        self.name()
    }

    /// What the program is run with to type a text.
    pub open spec fn typing(self, text: Seq<char>) -> Seq<Seq<char>> {
        match self {
            TypeMethod::Wtype => seq![text],
            TypeMethod::Ydotool => seq!["type"@, text],
        }
    }

    /// What the program is run with to type a text.
    pub fn type_args(self, text: &str) -> (r: Vec<String>)
        ensures
            views(r@) == self.typing(text@),
    {
        let mut out: Vec<String> = Vec::new();
        match self {
            TypeMethod::Wtype => {},
            TypeMethod::Ydotool => {
                out.push("type".to_owned());
            },
        }
        out.push(text.to_owned());
        assert(views(out@) =~= self.typing(text@));
        out
    }

    /// What a run of the program that types is called in messages.
    pub fn type_label(self) -> (r: &'static str)
        ensures
            r@ == (match self {
                TypeMethod::Wtype => "wtype"@,
                TypeMethod::Ydotool => "ydotool type"@,
            }),
    {
        match self {
            TypeMethod::Wtype => "wtype",
            TypeMethod::Ydotool => "ydotool type",
        }
    }
}

/// How a text is put where the user types.
#[derive(Clone, Copy, Debug, PartialEq, Eq, Structural)]
pub enum InjectionPlan {
    Type,
    Paste,
}

impl InjectionPlan {
    pub open spec fn label(self) -> Seq<char> {
        match self {
            InjectionPlan::Type => "type"@,
            InjectionPlan::Paste => "paste"@,
        }
    }

    pub fn name(self) -> (r: &'static str)
        ensures
            r@ == self.label(),
    {
        match self {
            InjectionPlan::Type => "type",
            InjectionPlan::Paste => "paste",
        }
    }
}

/// The name of a method that is forced.
pub fn force_method_name(method: InjectionForceMethod) -> (r: &'static str)
    ensures
        r@ == (match method {
            InjectionForceMethod::Type => "type"@,
            InjectionForceMethod::Paste => "paste"@,
        }),
{
    match method {
        InjectionForceMethod::Type => "type",
        InjectionForceMethod::Paste => "paste",
    }
}

/// The text has more than one line.
pub open spec fn has_newline(s: Seq<char>) -> bool {
    exists|i: int| 0 <= i < s.len() && (#[trigger] s[i] == '\n' || s[i] == '\r')
}

/// The text has more than one line.
pub fn text_contains_newline(text: &str) -> (r: bool)
    ensures
        r == has_newline(text@),
{
    let chars = chars_of(text);
    let mut i: usize = 0;
    while i < chars.len()
        invariant
            chars@ == text@,
            i <= chars.len(),
            forall|k: int| 0 <= k < i ==> #[trigger] text@[k] != '\n' && text@[k] != '\r',
        decreases chars.len() - i,
    {
        if chars[i] == '\n' || chars[i] == '\r' {
            assert(text@[i as int] == '\n' || text@[i as int] == '\r');
            return true;
        }
        i += 1;
    }
    false
}

/// How a text is put where the user types: as is forced, else a text of one line that is not too
/// long is typed, and any other one is pasted.
pub open spec fn planned(text: Seq<char>, settings: InjectionConfig) -> InjectionPlan {
    match settings.force_method {
        Some(InjectionForceMethod::Type) => InjectionPlan::Type,
        Some(InjectionForceMethod::Paste) => InjectionPlan::Paste,
        None => if has_newline(text) || text.len() > settings.paste_threshold_chars {
            InjectionPlan::Paste
        } else {
            InjectionPlan::Type
        },
    }
}

/// How a text is put where the user types: as is forced, else a text of one line that is not too
/// long is typed, and any other one is pasted.
pub fn choose_injection_plan(text: &str, settings: &InjectionConfig) -> (r: InjectionPlan)
    ensures
        r == planned(text@, *settings),
{
    match settings.force_method {
        Some(InjectionForceMethod::Type) => InjectionPlan::Type,
        Some(InjectionForceMethod::Paste) => InjectionPlan::Paste,
        None => {
            if text_contains_newline(text) || chars_of(text).len() > settings.paste_threshold_chars {
                InjectionPlan::Paste
            } else {
                InjectionPlan::Type
            }
        },
    }
}

/// How long a program may take to type a text, in milliseconds: two seconds, and more for each
/// character, so that a long text is not cut short.
pub open spec fn typing_limit(chars: int) -> int {
    let ms = 2000 + 20 * chars;
    if ms <= u64::MAX {
        ms
    } else {
        u64::MAX as int
    }
}

/// How long a program may take to type a text, in milliseconds.
pub fn typing_timeout_ms(text: &str) -> (r: u64)
    ensures
        r == typing_limit(text@.len() as int),
{
    let chars: u64 = chars_of(text).len() as u64;
    match chars.checked_mul(20) {
        Some(extra) => extra.saturating_add(2000),
        None => u64::MAX,
    }
}

/// Law: a longer text may take longer to type, and every text may take two seconds.
pub proof fn law_typing_time_grows_with_the_text(shorter: int, longer: int)
    requires
        0 <= shorter <= longer,
    ensures
        2000 <= typing_limit(shorter) <= typing_limit(longer),
        longer > shorter && typing_limit(longer) < u64::MAX ==> typing_limit(shorter)
            < typing_limit(longer),
{
}

/// The program that types. Where one is preferred by name it is that one, and none where it is not
/// there; where the clipboard is preferred it is none; else it is whichever is there.
pub open spec fn detected(preferred: Option<Seq<char>>, wtype: bool, ydotool: bool) -> Option<
    TypeMethod,
> {
    if preferred == Some("wtype"@) {
        if wtype {
            Some(TypeMethod::Wtype)
        } else {
            None
        }
    } else if preferred == Some("ydotool"@) {
        if ydotool {
            Some(TypeMethod::Ydotool)
        } else {
            None
        }
    } else if preferred == Some("clipboard"@) {
        None
    } else if ydotool {
        Some(TypeMethod::Ydotool)
    } else if wtype {
        Some(TypeMethod::Wtype)
    } else {
        None
    }
}

/// The program that types, where it is known which ones are there.
pub fn pick_type_method(preferred: Option<&str>, wtype: bool, ydotool: bool) -> (r: Option<
    TypeMethod,
>)
    ensures
        r == detected(str_view(preferred), wtype, ydotool),
{
    if let Some(preferred) = preferred {
        if str_eq(preferred, "wtype") {
            return if wtype {
                Some(TypeMethod::Wtype)
            } else {
                None
            };
        }
        if str_eq(preferred, "ydotool") {
            return if ydotool {
                Some(TypeMethod::Ydotool)
            } else {
                None
            };
        }
        if str_eq(preferred, "clipboard") {
            return None;
        }
    }
    if ydotool {
        Some(TypeMethod::Ydotool)
    } else if wtype {
        Some(TypeMethod::Wtype)
    } else {
        None
    }
}

/// The program that types, looked for on the search path.
pub fn detect_type_method(preferred: Option<&str>) -> (r: Option<TypeMethod>)
    ensures
        looked_up(str_view(preferred), r),
{
    proof {
        reveal_strlit("wtype");
        reveal_strlit("ydotool");
    }
    let wtype = find_program(TypeMethod::Wtype.command());
    let ydotool = find_program(TypeMethod::Ydotool.command());
    let r = pick_type_method(preferred, wtype.is_some(), ydotool.is_some());
    assert(found_under(TypeMethod::Wtype.label(), wtype) && found_under(
        TypeMethod::Ydotool.label(),
        ydotool,
    ) && r == detected(str_view(preferred), wtype is Some, ydotool is Some));
    r
}

/// The program that types is picked among what was found under the names of the two.
pub open spec fn looked_up(preferred: Option<Seq<char>>, method: Option<TypeMethod>) -> bool {
    exists|wtype: Option<FoundProgram>, ydotool: Option<FoundProgram>|
        #![trigger
            found_under(TypeMethod::Wtype.label(), wtype),
            found_under(TypeMethod::Ydotool.label(), ydotool)
        ]
        found_under(TypeMethod::Wtype.label(), wtype) && found_under(
            TypeMethod::Ydotool.label(),
            ydotool,
        ) && method == detected(preferred, wtype is Some, ydotool is Some)
}

/// Puts texts where the user types.
pub struct TextInjector {
    pub type_method: Option<TypeMethod>,
    pub settings: InjectionConfig,
}

/// An injector could not be set up.
#[derive(Clone, Copy, Debug, PartialEq, Eq, Structural)]
pub struct InjectorError;

impl TextInjector {
    /// An injector that types with the preferred program, or with the one that is there.
    pub fn new(preferred: Option<&str>, settings: InjectionConfig) -> (r: Result<
        Self,
        InjectorError,
    >)
        ensures
            r matches Ok(injector) && injector.settings == settings && looked_up(
                str_view(preferred),
                injector.type_method,
            ),
    {
        let type_method = detect_type_method(preferred);
        Ok(TextInjector { type_method, settings })
    }

    /// An injector for a machine of which it is known which programs are there.
    pub fn with_tools(
        preferred: Option<&str>,
        settings: InjectionConfig,
        wtype: bool,
        ydotool: bool,
    ) -> (r: Self)
        ensures
            r.settings == settings,
            r.type_method == detected(str_view(preferred), wtype, ydotool),
    {
        TextInjector { type_method: pick_type_method(preferred, wtype, ydotool), settings }
    }
}

/// A pair of programs for the clipboard: one that copies and one that reads.
#[derive(Clone, Copy, Debug, PartialEq, Eq, Structural)]
pub enum ClipboardBackend {
    WlClipboard,
    Xclip,
    Xsel,
}

impl ClipboardBackend {
    pub open spec fn label(self) -> Seq<char> {
        match self {
            ClipboardBackend::WlClipboard => "wl-clipboard"@,
            ClipboardBackend::Xclip => "xclip"@,
            ClipboardBackend::Xsel => "xsel"@,
        }
    }

    pub fn name(self) -> (r: &'static str)
        ensures
            r@ == self.label(),
    {
        match self {
            ClipboardBackend::WlClipboard => "wl-clipboard",
            ClipboardBackend::Xclip => "xclip",
            ClipboardBackend::Xsel => "xsel",
        }
    }

    /// The program that copies.
    pub open spec fn copier(self) -> Seq<char> {
        match self {
            ClipboardBackend::WlClipboard => "wl-copy"@,
            ClipboardBackend::Xclip => "xclip"@,
            ClipboardBackend::Xsel => "xsel"@,
        }
    }

    pub fn copy_cmd(self) -> (r: &'static str)
        ensures
            r@ == self.copier(),
    {
        match self {
            ClipboardBackend::WlClipboard => "wl-copy",
            ClipboardBackend::Xclip => "xclip",
            ClipboardBackend::Xsel => "xsel",
        }
    }

    /// What it is run with.
    pub open spec fn copying(self) -> Seq<Seq<char>> {
        match self {
            ClipboardBackend::WlClipboard => Seq::empty(),
            ClipboardBackend::Xclip => seq!["-selection"@, "clipboard"@],
            ClipboardBackend::Xsel => seq!["--clipboard"@, "--input"@],
        }
    }

    pub fn copy_args(self) -> (r: Vec<String>)
        ensures
            views(r@) == self.copying(),
    {
        let mut out: Vec<String> = Vec::new();
        match self {
            ClipboardBackend::WlClipboard => {},
            ClipboardBackend::Xclip => {
                out.push("-selection".to_owned());
                out.push("clipboard".to_owned());
            },
            ClipboardBackend::Xsel => {
                out.push("--clipboard".to_owned());
                out.push("--input".to_owned());
            },
        }
        assert(views(out@) =~= self.copying());
        out
    }

    /// The program that reads.
    pub open spec fn reader(self) -> Seq<char> {
        match self {
            ClipboardBackend::WlClipboard => "wl-paste"@,
            ClipboardBackend::Xclip => "xclip"@,
            ClipboardBackend::Xsel => "xsel"@,
        }
    }

    pub fn read_cmd(self) -> (r: &'static str)
        ensures
            r@ == self.reader(),
    {
        match self {
            ClipboardBackend::WlClipboard => "wl-paste",
            ClipboardBackend::Xclip => "xclip",
            ClipboardBackend::Xsel => "xsel",
        }
    }

    /// What it is run with.
    pub open spec fn reading(self) -> Seq<Seq<char>> {
        match self {
            ClipboardBackend::WlClipboard => seq!["--no-newline"@],
            ClipboardBackend::Xclip => seq!["-selection"@, "clipboard"@, "-out"@],
            ClipboardBackend::Xsel => seq!["--clipboard"@, "--output"@],
        }
    }

    pub fn read_args(self) -> (r: Vec<String>)
        ensures
            views(r@) == self.reading(),
    {
        let mut out: Vec<String> = Vec::new();
        match self {
            ClipboardBackend::WlClipboard => {
                out.push("--no-newline".to_owned());
            },
            ClipboardBackend::Xclip => {
                out.push("-selection".to_owned());
                out.push("clipboard".to_owned());
                out.push("-out".to_owned());
            },
            ClipboardBackend::Xsel => {
                out.push("--clipboard".to_owned());
                out.push("--output".to_owned());
            },
        }
        assert(views(out@) =~= self.reading());
        out
    }

    /// The pair that is tried after this one.
    pub open spec fn following(self) -> Option<ClipboardBackend> {
        match self {
            ClipboardBackend::WlClipboard => Some(ClipboardBackend::Xclip),
            ClipboardBackend::Xclip => Some(ClipboardBackend::Xsel),
            ClipboardBackend::Xsel => None,
        }
    }

    pub fn next(self) -> (r: Option<ClipboardBackend>)
        ensures
            r == self.following(),
    {
        match self {
            ClipboardBackend::WlClipboard => Some(ClipboardBackend::Xclip),
            ClipboardBackend::Xclip => Some(ClipboardBackend::Xsel),
            ClipboardBackend::Xsel => None,
        }
    }
}

/// What is to be done to read the clipboard.
#[derive(Debug, PartialEq, Eq)]
pub enum ReadAction<T> {
    /// Run the program of a pair that reads, if it is there.
    Run { backend: ClipboardBackend },
    /// The read is over; this is the text, or the message of what failed.
    Finish { result: Result<T, T> },
}

impl View for ReadAction<String> {
    type V = ReadAction<Seq<char>>;

    open spec fn view(&self) -> ReadAction<Seq<char>> {
        match *self {
            ReadAction::Run { backend } => ReadAction::Run { backend },
            ReadAction::Finish { result } => ReadAction::Finish {
                result: match result {
                    Ok(text) => Ok(text@),
                    Err(error) => Err(error@),
                },
            },
        }
    }
}

/// What follows once a pair was tried: `output` is what it read, or nothing where its program is
/// not there or failed. Then the next pair is tried.
pub open spec fn read_next(tried: Option<ClipboardBackend>, output: Option<Seq<char>>) -> ReadAction<
    Seq<char>,
> {
    match (tried, output) {
        (None, _) => ReadAction::Run { backend: ClipboardBackend::WlClipboard },
        (Some(_), Some(text)) => ReadAction::Finish { result: Ok(text) },
        (Some(backend), None) => match backend.following() {
            Some(next) => ReadAction::Run { backend: next },
            None => ReadAction::Finish {
                result: Err("Failed to read plain-text clipboard with wl-paste, xclip, or xsel"@),
            },
        },
    }
}

/// Reads the clipboard, one step: `tried` is the pair that was just tried, if any, and `output` is
/// what it read.
pub fn read_clipboard(tried: Option<ClipboardBackend>, output: Option<String>) -> (r: ReadAction<
    String,
>)
    ensures
        r@ == read_next(
            tried,
            match output {
                Some(text) => Some(text@),
                None => None,
            },
        ),
{
    match tried {
        None => ReadAction::Run { backend: ClipboardBackend::WlClipboard },
        Some(backend) => match output {
            Some(text) => ReadAction::Finish { result: Ok(text) },
            None => match backend.next() {
                Some(next) => ReadAction::Run { backend: next },
                None => ReadAction::Finish {
                    result: Err(
                        "Failed to read plain-text clipboard with wl-paste, xclip, or xsel".to_owned(),
                    ),
                },
            },
        },
    }
}

/// What is to be done to copy a text.
#[derive(Debug, PartialEq, Eq)]
pub enum CopyAction<T> {
    /// Start the program of a pair that copies, if it is there.
    Spawn { backend: ClipboardBackend },
    /// Hand the text to it.
    Write,
    /// Kill it, and wait until it is gone.
    Kill,
    /// Wait until it ends.
    Wait,
    /// The copy is over; the message says what failed.
    Finish { result: Result<(), T> },
}

/// What came of it.
#[derive(Debug, PartialEq, Eq)]
pub enum CopyEvent<T> {
    Done,
    /// The program is not there.
    Missing,
    Failed { error: T },
    /// The program ended.
    Exited { success: bool },
}

/// Where the copy stands.
pub enum CopyState<T> {
    Begin,
    Spawning { backend: ClipboardBackend },
    Writing { backend: ClipboardBackend },
    /// The program is being killed, and then this is what failed.
    Killing { error: T },
    Waiting { backend: ClipboardBackend },
    Finished,
}

impl View for CopyAction<String> {
    type V = CopyAction<Seq<char>>;

    open spec fn view(&self) -> CopyAction<Seq<char>> {
        match *self {
            CopyAction::Spawn { backend } => CopyAction::Spawn { backend },
            CopyAction::Write => CopyAction::Write,
            CopyAction::Kill => CopyAction::Kill,
            CopyAction::Wait => CopyAction::Wait,
            CopyAction::Finish { result } => CopyAction::Finish {
                result: match result {
                    Ok(_) => Ok(()),
                    Err(error) => Err(error@),
                },
            },
        }
    }
}

impl View for CopyEvent<String> {
    type V = CopyEvent<Seq<char>>;

    open spec fn view(&self) -> CopyEvent<Seq<char>> {
        match *self {
            CopyEvent::Done => CopyEvent::Done,
            CopyEvent::Missing => CopyEvent::Missing,
            CopyEvent::Failed { error } => CopyEvent::Failed { error: error@ },
            CopyEvent::Exited { success } => CopyEvent::Exited { success },
        }
    }
}

impl View for CopyState<String> {
    type V = CopyState<Seq<char>>;

    open spec fn view(&self) -> CopyState<Seq<char>> {
        match *self {
            CopyState::Begin => CopyState::Begin,
            CopyState::Spawning { backend } => CopyState::Spawning { backend },
            CopyState::Writing { backend } => CopyState::Writing { backend },
            CopyState::Killing { error } => CopyState::Killing { error: error@ },
            CopyState::Waiting { backend } => CopyState::Waiting { backend },
            CopyState::Finished => CopyState::Finished,
        }
    }
}

/// The event is one that the state waits for.
pub open spec fn copy_expects(state: CopyState<Seq<char>>, event: CopyEvent<Seq<char>>) -> bool {
    match state {
        CopyState::Begin => event is Done,
        CopyState::Spawning { .. } => event is Done || event is Missing || event is Failed,
        CopyState::Writing { .. } => event is Done || event is Failed,
        CopyState::Killing { .. } => event is Done,
        CopyState::Waiting { .. } => event is Exited || event is Failed,
        CopyState::Finished => false,
    }
}

/// The end of a copy.
pub open spec fn copy_end(result: Result<(), Seq<char>>) -> (
    CopyState<Seq<char>>,
    CopyAction<Seq<char>>,
) {
    (CopyState::Finished, CopyAction::Finish { result })
}

/// The pair that is tried after another.
pub open spec fn copy_after(backend: ClipboardBackend) -> (
    CopyState<Seq<char>>,
    CopyAction<Seq<char>>,
) {
    match backend.following() {
        Some(next) => (CopyState::Spawning { backend: next }, CopyAction::Spawn { backend: next }),
        None => copy_end(Err("No clipboard copy tool available"@)),
    }
}

/// One step of a copy. A program that is not there, or that ends without success, is followed by
/// that of the next pair; one that cannot be run ends the copy.
pub open spec fn copy_step(state: CopyState<Seq<char>>, event: CopyEvent<Seq<char>>) -> (
    CopyState<Seq<char>>,
    CopyAction<Seq<char>>,
) {
    match (state, event) {
        (CopyState::Begin, _) => (
            CopyState::Spawning { backend: ClipboardBackend::WlClipboard },
            CopyAction::Spawn { backend: ClipboardBackend::WlClipboard },
        ),
        (CopyState::Spawning { backend }, CopyEvent::Missing) => copy_after(backend),
        (CopyState::Spawning { backend }, CopyEvent::Failed { .. }) => copy_end(
            Err("Failed to spawn "@ + backend.copier()),
        ),
        (CopyState::Spawning { backend }, _) => (CopyState::Writing { backend }, CopyAction::Write),
        (CopyState::Writing { backend }, CopyEvent::Failed { error }) => (
            CopyState::Killing { error },
            CopyAction::Kill,
        ),
        (CopyState::Writing { backend }, _) => (CopyState::Waiting { backend }, CopyAction::Wait),
        (CopyState::Killing { error }, _) => copy_end(Err(error)),
        (CopyState::Waiting { backend }, CopyEvent::Exited { success }) => if success {
            copy_end(Ok(()))
        } else {
            copy_after(backend)
        },
        (CopyState::Waiting { backend }, CopyEvent::Failed { error }) => copy_end(Err(error)),
        _ => copy_end(Ok(())),
    }
}

/// A copy of a text to the clipboard.
pub struct CopyFlow {
    pub state: CopyState<String>,
}

fn finish_copy(result: Result<(), String>) -> (r: (CopyFlow, CopyAction<String>))
    ensures
        (r.0.state@, r.1@) == copy_end(
            match result {
                Ok(_) => Ok(()),
                Err(error) => Err(error@),
            },
        ),
{
    (CopyFlow { state: CopyState::Finished }, CopyAction::Finish { result })
}

fn next_copier(backend: ClipboardBackend) -> (r: (CopyFlow, CopyAction<String>))
    ensures
        (r.0.state@, r.1@) == copy_after(backend),
{
    match backend.next() {
        Some(next) => (
            CopyFlow { state: CopyState::Spawning { backend: next } },
            CopyAction::Spawn { backend: next },
        ),
        None => finish_copy(Err("No clipboard copy tool available".to_owned())),
    }
}

impl CopyFlow {
    pub fn new() -> (r: Self)
        ensures
            r.state@ == CopyState::<Seq<char>>::Begin,
    {
        CopyFlow { state: CopyState::Begin }
    }

    /// The next step.
    pub fn step(self, event: CopyEvent<String>) -> (r: (Self, CopyAction<String>))
        requires
            copy_expects(self.state@, event@),
        ensures
            (r.0.state@, r.1@) == copy_step(self.state@, event@),
    {
        match (self.state, event) {
            (CopyState::Begin, _) => (
                CopyFlow { state: CopyState::Spawning { backend: ClipboardBackend::WlClipboard } },
                CopyAction::Spawn { backend: ClipboardBackend::WlClipboard },
            ),
            (CopyState::Spawning { backend }, CopyEvent::Missing) => next_copier(backend),
            (CopyState::Spawning { backend }, CopyEvent::Failed { error: _ }) => {
                let mut message = "Failed to spawn ".to_owned();
                message.append(backend.copy_cmd());
                finish_copy(Err(message))
            },
            (CopyState::Spawning { backend }, _) => (
                CopyFlow { state: CopyState::Writing { backend } },
                CopyAction::Write,
            ),
            (CopyState::Writing { backend: _ }, CopyEvent::Failed { error }) => (
                CopyFlow { state: CopyState::Killing { error } },
                CopyAction::Kill,
            ),
            (CopyState::Writing { backend }, _) => (
                CopyFlow { state: CopyState::Waiting { backend } },
                CopyAction::Wait,
            ),
            (CopyState::Killing { error }, _) => finish_copy(Err(error)),
            (CopyState::Waiting { backend }, CopyEvent::Exited { success }) => {
                if success {
                    finish_copy(Ok(()))
                } else {
                    next_copier(backend)
                }
            },
            (CopyState::Waiting { backend: _ }, CopyEvent::Failed { error }) => finish_copy(
                Err(error),
            ),
            _ => finish_copy(Ok(())),
        }
    }
}

/// A program that can press the keys for pasting.
#[derive(Clone, Copy, Debug, PartialEq, Eq, Structural)]
pub enum PasteTool {
    Method(TypeMethod),
    Xdotool,
}

impl PasteTool {
    pub open spec fn program(self) -> Seq<char> {
        match self {
            PasteTool::Method(method) => method.label(),
            PasteTool::Xdotool => "xdotool"@,
        }
    }

    pub fn command(self) -> (r: &'static str)
        ensures
            r@ == self.program(),
    {
        match self {
            PasteTool::Method(method) => method.command(),
            PasteTool::Xdotool => "xdotool",
        }
    }

    /// What it is run with.
    pub open spec fn pasting(self) -> Seq<Seq<char>> {
        match self {
            PasteTool::Method(TypeMethod::Wtype) => seq![
                "-M"@,
                "ctrl"@,
                "-P"@,
                "v"@,
                "-m"@,
                "ctrl"@,
                "-p"@,
                "v"@,
            ],
            PasteTool::Method(TypeMethod::Ydotool) => seq![
                "key"@,
                "29:1"@,
                "47:1"@,
                "47:0"@,
                "29:0"@,
            ],
            PasteTool::Xdotool => seq!["key"@, "ctrl+v"@],
        }
    }

    pub fn paste_args(self) -> (r: Vec<String>)
        ensures
            views(r@) == self.pasting(),
    {
        let mut out: Vec<String> = Vec::new();
        match self {
            PasteTool::Method(TypeMethod::Wtype) => {
                out.push("-M".to_owned());
                out.push("ctrl".to_owned());
                out.push("-P".to_owned());
                out.push("v".to_owned());
                out.push("-m".to_owned());
                out.push("ctrl".to_owned());
                out.push("-p".to_owned());
                out.push("v".to_owned());
            },
            PasteTool::Method(TypeMethod::Ydotool) => {
                out.push("key".to_owned());
                out.push("29:1".to_owned());
                out.push("47:1".to_owned());
                out.push("47:0".to_owned());
                out.push("29:0".to_owned());
            },
            PasteTool::Xdotool => {
                out.push("key".to_owned());
                out.push("ctrl+v".to_owned());
            },
        }
        assert(views(out@) =~= self.pasting());
        out
    }

    /// What a run of it is called in messages.
    pub fn paste_label(self) -> (r: &'static str)
        ensures
            r@ == (match self {
                PasteTool::Method(TypeMethod::Wtype) => "wtype paste"@,
                PasteTool::Method(TypeMethod::Ydotool) => "ydotool paste"@,
                PasteTool::Xdotool => "xdotool paste"@,
            }),
    {
        match self {
            PasteTool::Method(TypeMethod::Wtype) => "wtype paste",
            PasteTool::Method(TypeMethod::Ydotool) => "ydotool paste",
            PasteTool::Xdotool => "xdotool paste",
        }
    }
}

/// The programs that are tried for pasting, in order: the one that types, then the other ones.
pub open spec fn paste_order(type_method: Option<TypeMethod>) -> Seq<PasteTool> {
    match type_method {
        Some(TypeMethod::Wtype) => seq![
            PasteTool::Method(TypeMethod::Wtype),
            PasteTool::Method(TypeMethod::Ydotool),
            PasteTool::Xdotool,
        ],
        _ => seq![
            PasteTool::Method(TypeMethod::Ydotool),
            PasteTool::Method(TypeMethod::Wtype),
            PasteTool::Xdotool,
        ],
    }
}

/// What is to be done to paste.
#[derive(Debug, PartialEq, Eq)]
pub enum PasteAction<T> {
    /// Run a program. One that is not the program that types is looked for first, and counts as
    /// failed where it is not there.
    Run { tool: PasteTool },
    /// The paste is over; the message says what failed.
    Finish { result: Result<(), T> },
}

impl View for PasteAction<String> {
    type V = PasteAction<Seq<char>>;

    open spec fn view(&self) -> PasteAction<Seq<char>> {
        match *self {
            PasteAction::Run { tool } => PasteAction::Run { tool },
            PasteAction::Finish { result } => PasteAction::Finish {
                result: match result {
                    Ok(_) => Ok(()),
                    Err(error) => Err(error@),
                },
            },
        }
    }
}

/// What follows once `tried` programs were tried and the last one succeeded or not.
pub open spec fn paste_next(type_method: Option<TypeMethod>, tried: int, success: bool) -> PasteAction<
    Seq<char>,
> {
    if tried > 0 && success {
        PasteAction::Finish { result: Ok(()) }
    } else if tried < paste_order(type_method).len() {
        PasteAction::Run { tool: paste_order(type_method)[tried] }
    } else {
        PasteAction::Finish { result: Err("No paste shortcut backend succeeded"@) }
    }
}

impl TextInjector {
    /// Presses the keys for pasting, one step: `tried` programs were tried, and `success` says
    /// whether the last one succeeded.
    pub fn simulate_paste(&self, tried: usize, success: bool) -> (r: PasteAction<String>)
        ensures
            r@ == paste_next(self.type_method, tried as int, success),
    {
        if tried > 0 && success {
            return PasteAction::Finish { result: Ok(()) };
        }
        let (first, second) = match self.type_method {
            Some(TypeMethod::Wtype) => (TypeMethod::Wtype, TypeMethod::Ydotool),
            _ => (TypeMethod::Ydotool, TypeMethod::Wtype),
        };
        if tried == 0 {
            PasteAction::Run { tool: PasteTool::Method(first) }
        } else if tried == 1 {
            PasteAction::Run { tool: PasteTool::Method(second) }
        } else if tried == 2 {
            PasteAction::Run { tool: PasteTool::Xdotool }
        } else {
            PasteAction::Finish { result: Err("No paste shortcut backend succeeded".to_owned()) }
        }
    }

    /// The program is looked for before it is run for pasting: so is every one but the program that
    /// types.
    pub fn looks_for(&self, tool: PasteTool) -> (r: bool)
        ensures
            r == !(tool matches PasteTool::Method(method) && self.type_method == Some(method)),
    {
        match (tool, self.type_method) {
            (PasteTool::Method(method), Some(typing)) => method != typing,
            _ => true,
        }
    }
}

/// What is to be done to put a text where the user types.
#[derive(Debug, PartialEq, Eq)]
pub enum InjectAction<T> {
    /// Type the text.
    Type { method: TypeMethod },
    /// Read the clipboard.
    Read,
    /// Copy a text to the clipboard.
    Copy { text: T },
    /// Wait.
    Sleep { ms: u64 },
    /// Press the keys for pasting.
    Paste,
    /// The injection is over; the message says what failed.
    Finish { result: Result<(), T> },
}

/// What came of it.
#[derive(Debug, PartialEq, Eq)]
pub enum InjectEvent<T> {
    Done,
    Failed { error: T },
    /// What the clipboard holds.
    Text { text: T },
}

/// Where an injection stands.
pub enum InjectState<T> {
    Begin,
    Typing,
    /// The clipboard is being read, so that it can be given back.
    Snapshotting,
    /// The text is being copied; so many milliseconds were waited for it in all, and the next wait
    /// takes `delay`.
    Copying { previous: Option<T>, delay: u64, total: u64 },
    /// The copy is given a moment.
    Settling { previous: Option<T>, delay: u64, total: u64 },
    /// The clipboard is being read, to see whether the text is there.
    Verifying { previous: Option<T>, delay: u64, total: u64 },
    /// The copy is given more time.
    Waiting { previous: Option<T>, delay: u64, total: u64 },
    Pasting { previous: Option<T> },
    /// The text is left on the clipboard for a while, for those who read it late.
    Lingering { previous: Option<T> },
    /// The clipboard is being read, to see whether the text is still there.
    Checking { snapshot: T },
    Restoring,
    Finished,
}

impl View for InjectAction<String> {
    type V = InjectAction<Seq<char>>;

    open spec fn view(&self) -> InjectAction<Seq<char>> {
        match *self {
            InjectAction::Type { method } => InjectAction::Type { method },
            InjectAction::Read => InjectAction::Read,
            InjectAction::Copy { text } => InjectAction::Copy { text: text@ },
            InjectAction::Sleep { ms } => InjectAction::Sleep { ms },
            InjectAction::Paste => InjectAction::Paste,
            InjectAction::Finish { result } => InjectAction::Finish {
                result: match result {
                    Ok(_) => Ok(()),
                    Err(error) => Err(error@),
                },
            },
        }
    }
}

impl View for InjectEvent<String> {
    type V = InjectEvent<Seq<char>>;

    open spec fn view(&self) -> InjectEvent<Seq<char>> {
        match *self {
            InjectEvent::Done => InjectEvent::Done,
            InjectEvent::Failed { error } => InjectEvent::Failed { error: error@ },
            InjectEvent::Text { text } => InjectEvent::Text { text: text@ },
        }
    }
}

impl View for InjectState<String> {
    type V = InjectState<Seq<char>>;

    open spec fn view(&self) -> InjectState<Seq<char>> {
        match *self {
            InjectState::Begin => InjectState::Begin,
            InjectState::Typing => InjectState::Typing,
            InjectState::Snapshotting => InjectState::Snapshotting,
            InjectState::Copying { previous, delay, total } => InjectState::Copying {
                previous: opt_view(previous),
                delay,
                total,
            },
            InjectState::Settling { previous, delay, total } => InjectState::Settling {
                previous: opt_view(previous),
                delay,
                total,
            },
            InjectState::Verifying { previous, delay, total } => InjectState::Verifying {
                previous: opt_view(previous),
                delay,
                total,
            },
            InjectState::Waiting { previous, delay, total } => InjectState::Waiting {
                previous: opt_view(previous),
                delay,
                total,
            },
            InjectState::Pasting { previous } => InjectState::Pasting {
                previous: opt_view(previous),
            },
            InjectState::Lingering { previous } => InjectState::Lingering {
                previous: opt_view(previous),
            },
            InjectState::Checking { snapshot } => InjectState::Checking { snapshot: snapshot@ },
            InjectState::Restoring => InjectState::Restoring,
            InjectState::Finished => InjectState::Finished,
        }
    }
}

pub type Text = Seq<char>;

/// The event is one that the state waits for.
pub open spec fn inject_expects(state: InjectState<Text>, event: InjectEvent<Text>) -> bool {
    match state {
        InjectState::Typing => event is Done || event is Failed,
        InjectState::Snapshotting => event is Text || event is Failed,
        InjectState::Copying { .. } => event is Done || event is Failed,
        InjectState::Verifying { .. } => event is Text || event is Failed,
        InjectState::Pasting { .. } => event is Done || event is Failed,
        InjectState::Checking { .. } => event is Text || event is Failed,
        InjectState::Restoring => event is Done || event is Failed,
        InjectState::Finished => false,
        _ => event is Done,
    }
}

/// The end of an injection.
pub open spec fn inject_end(result: Result<(), Text>) -> (InjectState<Text>, InjectAction<Text>) {
    (InjectState::Finished, InjectAction::Finish { result })
}

/// The text is copied for the first time.
pub open spec fn first_copy(text: Text, previous: Option<Text>) -> (
    InjectState<Text>,
    InjectAction<Text>,
) {
    (
        InjectState::Copying { previous, delay: 50, total: 0 },
        InjectAction::Copy { text },
    )
}

/// A paste begins: with a look at the clipboard where it is to be given back.
pub open spec fn begin_paste(text: Text, restore: bool) -> (InjectState<Text>, InjectAction<Text>) {
    if restore {
        (InjectState::Snapshotting, InjectAction::Read)
    } else {
        first_copy(text, None)
    }
}

/// The wait after one of `delay` milliseconds.
pub open spec fn next_delay(delay: u64) -> u64 {
    if delay * 2 <= 200 {
        (delay * 2) as u64
    } else {
        200
    }
}

/// One step of an injection of a text.
pub open spec fn inject_step(
    injector: TextInjector,
    text: Text,
    state: InjectState<Text>,
    event: InjectEvent<Text>,
) -> (InjectState<Text>, InjectAction<Text>) {
    let restore = injector.settings.restore_clipboard;
    match (state, event) {
        (InjectState::Begin, _) => if text.len() == 0 {
            inject_end(Ok(()))
        } else {
            match (planned(text, injector.settings), injector.type_method) {
                (InjectionPlan::Type, Some(method)) => (
                    InjectState::Typing,
                    InjectAction::Type { method },
                ),
                _ => begin_paste(text, restore),
            }
        },
        (InjectState::Typing, InjectEvent::Failed { .. }) => begin_paste(text, restore),
        (InjectState::Snapshotting, InjectEvent::Text { text: current }) => first_copy(
            text,
            Some(current),
        ),
        (InjectState::Snapshotting, _) => first_copy(text, None),
        (InjectState::Copying { .. }, InjectEvent::Failed { error }) => inject_end(Err(error)),
        (InjectState::Copying { previous, delay, total }, _) => (
            InjectState::Settling { previous, delay, total },
            InjectAction::Sleep { ms: 10 },
        ),
        (InjectState::Settling { previous, delay, total }, _) => (
            InjectState::Verifying { previous, delay, total },
            InjectAction::Read,
        ),
        (InjectState::Verifying { previous, delay, total }, event) => if event == (
        InjectEvent::Text { text }) || total >= 1000 {
            (InjectState::Pasting { previous }, InjectAction::Paste)
        } else {
            (
                InjectState::Waiting { previous, delay, total },
                InjectAction::Sleep { ms: delay },
            )
        },
        (InjectState::Waiting { previous, delay, total }, _) => (
            InjectState::Copying {
                previous,
                delay: next_delay(delay),
                total: (total + delay) as u64,
            },
            InjectAction::Copy { text },
        ),
        (InjectState::Pasting { .. }, InjectEvent::Failed { error }) => inject_end(Err(error)),
        (InjectState::Pasting { previous }, _) => (
            InjectState::Lingering { previous },
            InjectAction::Sleep { ms: 500 },
        ),
        (InjectState::Lingering { previous: Some(previous) }, _) => (
            InjectState::Checking { snapshot: previous },
            InjectAction::Read,
        ),
        (InjectState::Checking { snapshot }, event) => if event == (InjectEvent::Text { text }) {
            (InjectState::Restoring, InjectAction::Copy { text: snapshot })
        } else {
            inject_end(Ok(()))
        },
        _ => inject_end(Ok(())),
    }
}

/// The waits that an injection can be in.
pub open spec fn waits_valid(state: InjectState<Text>) -> bool {
    match state {
        InjectState::Copying { delay, total, .. } => wait_valid(delay, total),
        InjectState::Settling { delay, total, .. } => wait_valid(delay, total),
        InjectState::Verifying { delay, total, .. } => wait_valid(delay, total),
        InjectState::Waiting { delay, total, .. } => wait_valid(delay, total) && total < 1000,
        _ => true,
    }
}

/// The next wait takes between 50 and 200 milliseconds, and little more than a second was waited
/// in all.
pub open spec fn wait_valid(delay: u64, total: u64) -> bool {
    50 <= delay <= 200 && total < 1200
}

/// An injection of a text.
pub struct InjectFlow {
    injector: TextInjector,
    text: String,
    state: InjectState<String>,
}

fn finish_inject(injector: TextInjector, text: String, result: Result<(), String>) -> (r: (
    InjectFlow,
    InjectAction<String>,
))
    ensures
        r.0.injector() == injector,
        r.0.text() == text@,
        (r.0.state(), r.1@) == inject_end(
            match result {
                Ok(_) => Ok(()),
                Err(error) => Err(error@),
            },
        ),
{
    (
        InjectFlow { injector, text, state: InjectState::Finished },
        InjectAction::Finish { result },
    )
}

fn copy_first(injector: TextInjector, text: String, previous: Option<String>) -> (r: (
    InjectFlow,
    InjectAction<String>,
))
    ensures
        r.0.injector() == injector,
        r.0.text() == text@,
        (r.0.state(), r.1@) == first_copy(text@, opt_view(previous)),
{
    let copy = text.clone();
    (
        InjectFlow {
            injector,
            text,
            state: InjectState::Copying { previous, delay: 50, total: 0 },
        },
        InjectAction::Copy { text: copy },
    )
}

fn start_paste(injector: TextInjector, text: String) -> (r: (InjectFlow, InjectAction<String>))
    ensures
        r.0.injector() == injector,
        r.0.text() == text@,
        (r.0.state(), r.1@) == begin_paste(text@, injector.settings.restore_clipboard),
{
    if injector.settings.restore_clipboard {
        (InjectFlow { injector, text, state: InjectState::Snapshotting }, InjectAction::Read)
    } else {
        copy_first(injector, text, None)
    }
}

fn holds(event: &InjectEvent<String>, text: &str) -> (r: bool)
    ensures
        r == (event@ == (InjectEvent::<Text>::Text { text: text@ })),
{
    match event {
        InjectEvent::Text { text: current } => str_eq(current.as_str(), text),
        _ => false,
    }
}

impl InjectFlow {
    pub closed spec fn injector(&self) -> TextInjector {
        self.injector
    }

    pub closed spec fn text(&self) -> Text {
        self.text@
    }

    pub closed spec fn state(&self) -> InjectState<Text> {
        self.state@
    }

    /// The next step.
    pub fn step(self, event: InjectEvent<String>) -> (r: (Self, InjectAction<String>))
        requires
            inject_expects(self.state(), event@),
            waits_valid(self.state()),
        ensures
            (r.0.state(), r.1@) == inject_step(
                self.injector(),
                self.text(),
                self.state(),
                event@,
            ),
            r.0.injector() == self.injector(),
            r.0.text() == self.text(),
            waits_valid(r.0.state()),
    {
        let InjectFlow { injector, text, state } = self;
        match (state, event) {
            (InjectState::Begin, _) => {
                if text.as_str().is_empty() {
                    return finish_inject(injector, text, Ok(()));
                }
                match (
                    choose_injection_plan(text.as_str(), &injector.settings),
                    injector.type_method,
                ) {
                    (InjectionPlan::Type, Some(method)) => (
                        InjectFlow { injector, text, state: InjectState::Typing },
                        InjectAction::Type { method },
                    ),
                    _ => start_paste(injector, text),
                }
            },
            (InjectState::Typing, InjectEvent::Failed { error: _ }) => start_paste(injector, text),
            (InjectState::Snapshotting, InjectEvent::Text { text: current }) => copy_first(
                injector,
                text,
                Some(current),
            ),
            (InjectState::Snapshotting, _) => copy_first(injector, text, None),
            (
                InjectState::Copying { previous: _, delay: _, total: _ },
                InjectEvent::Failed { error },
            ) => finish_inject(injector, text, Err(error)),
            (InjectState::Copying { previous, delay, total }, _) => (
                InjectFlow {
                    injector,
                    text,
                    state: InjectState::Settling { previous, delay, total },
                },
                InjectAction::Sleep { ms: 10 },
            ),
            (InjectState::Settling { previous, delay, total }, _) => (
                InjectFlow {
                    injector,
                    text,
                    state: InjectState::Verifying { previous, delay, total },
                },
                InjectAction::Read,
            ),
            (InjectState::Verifying { previous, delay, total }, event) => {
                if holds(&event, text.as_str()) || total >= 1000 {
                    (
                        InjectFlow { injector, text, state: InjectState::Pasting { previous } },
                        InjectAction::Paste,
                    )
                } else {
                    (
                        InjectFlow {
                            injector,
                            text,
                            state: InjectState::Waiting { previous, delay, total },
                        },
                        InjectAction::Sleep { ms: delay },
                    )
                }
            },
            (InjectState::Waiting { previous, delay, total }, _) => {
                let doubled: u64 = if delay * 2 <= 200 {
                    delay * 2
                } else {
                    200
                };
                let copy = text.clone();
                (
                    InjectFlow {
                        injector,
                        text,
                        state: InjectState::Copying {
                            previous,
                            delay: doubled,
                            total: total + delay,
                        },
                    },
                    InjectAction::Copy { text: copy },
                )
            },
            (InjectState::Pasting { previous: _ }, InjectEvent::Failed { error }) => finish_inject(
                injector,
                text,
                Err(error),
            ),
            (InjectState::Pasting { previous }, _) => (
                InjectFlow { injector, text, state: InjectState::Lingering { previous } },
                InjectAction::Sleep { ms: 500 },
            ),
            (InjectState::Lingering { previous: Some(previous) }, _) => (
                InjectFlow { injector, text, state: InjectState::Checking { snapshot: previous } },
                InjectAction::Read,
            ),
            (InjectState::Checking { snapshot }, event) => {
                if holds(&event, text.as_str()) {
                    (
                        InjectFlow { injector, text, state: InjectState::Restoring },
                        InjectAction::Copy { text: snapshot },
                    )
                } else {
                    finish_inject(injector, text, Ok(()))
                }
            },
            _ => finish_inject(injector, text, Ok(())),
        }
    }
}

impl TextInjector {
    /// Puts a text where the user types: the steps of it.
    pub fn inject_text(&self, text: &str) -> (r: InjectFlow)
        ensures
            r.injector() == *self,
            r.text() == text@,
            r.state() == InjectState::<Text>::Begin,
    {
        InjectFlow {
            injector: TextInjector { type_method: self.type_method, settings: self.settings },
            text: text.to_owned(),
            state: InjectState::Begin,
        }
    }
}

/// Law: a text of one line that is not too long, and for which a program that types is there, is
/// typed without a look at the clipboard, and where that succeeds the injection is over.
pub proof fn law_short_text_never_touches_the_clipboard(
    injector: TextInjector,
    text: Text,
    method: TypeMethod,
)
    requires
        text.len() > 0,
        injector.settings.force_method is None,
        !has_newline(text),
        text.len() <= injector.settings.paste_threshold_chars,
        injector.type_method == Some(method),
    ensures
        ({
            let (state, action) = inject_step(
                injector,
                text,
                InjectState::Begin,
                InjectEvent::Done,
            );
            &&& action == (InjectAction::<Text>::Type { method })
            &&& inject_step(injector, text, state, InjectEvent::Done) == inject_end(Ok(()))
        }),
{
}

/// Law: the clipboard is given back only where it still holds the text that was pasted. What the
/// user copied in the meantime stays, and after a paste that failed the text stays, so that the
/// user can paste it.
pub proof fn law_the_users_clipboard_is_safe(
    injector: TextInjector,
    text: Text,
    state: InjectState<Text>,
    event: InjectEvent<Text>,
)
    requires
        inject_expects(state, event),
        inject_step(injector, text, state, event).1 matches InjectAction::Copy { text: copied }
            && copied != text,
    ensures
        state matches InjectState::Checking { snapshot } && event == (InjectEvent::<Text>::Text {
            text,
        }) && inject_step(injector, text, state, event).1 == (InjectAction::<Text>::Copy {
            text: snapshot,
        }),
{
}

/// Law: where a program that types fails, and where none is there, the text is pasted instead.
pub proof fn law_typing_falls_back_to_pasting(injector: TextInjector, text: Text, error: Text)
    requires
        text.len() > 0,
    ensures
        inject_step(injector, text, InjectState::Typing, InjectEvent::Failed { error })
            == begin_paste(text, injector.settings.restore_clipboard),
        injector.type_method is None ==> inject_step(
            injector,
            text,
            InjectState::Begin,
            InjectEvent::Done,
        ) == begin_paste(text, injector.settings.restore_clipboard),
{
}

/// What the state holds to give back to the clipboard.
pub open spec fn remembered(state: InjectState<Text>) -> Option<Text> {
    match state {
        InjectState::Copying { previous, .. } => previous,
        InjectState::Settling { previous, .. } => previous,
        InjectState::Verifying { previous, .. } => previous,
        InjectState::Waiting { previous, .. } => previous,
        InjectState::Pasting { previous } => previous,
        InjectState::Lingering { previous } => previous,
        InjectState::Checking { snapshot } => Some(snapshot),
        _ => None,
    }
}

/// Law: what the clipboard held before a paste is remembered until the injection is over. It is
/// what was read at the start of the paste, and no step before the last read changes it.
pub proof fn law_the_clipboard_is_remembered(
    injector: TextInjector,
    text: Text,
    state: InjectState<Text>,
    event: InjectEvent<Text>,
)
    requires
        inject_expects(state, event),
    ensures
        ({
            let next = inject_step(injector, text, state, event).0;
            &&& state is Snapshotting ==> remembered(next) == (match event {
                InjectEvent::Text { text: held } => Some(held),
                _ => None,
            })
            &&& !(state is Snapshotting) && !(next is Finished) && !(next is Restoring)
                ==> remembered(next) == remembered(state)
        }),
{
}

/// Law: a paste gives back what the clipboard held. Once the keys were pressed, the text is left
/// where it is for a moment, and if it is still there then, what was remembered is copied back.
pub proof fn law_the_clipboard_is_given_back(injector: TextInjector, text: Text, held: Text)
    ensures
        ({
            let pasting = InjectState::Pasting { previous: Some(held) };
            let (lingering, first) = inject_step(injector, text, pasting, InjectEvent::Done);
            let (checking, second) = inject_step(injector, text, lingering, InjectEvent::Done);
            let (restoring, third) = inject_step(
                injector,
                text,
                checking,
                InjectEvent::Text { text },
            );
            &&& first is Sleep
            &&& second is Read
            &&& third == (InjectAction::<Text>::Copy { text: held })
            &&& inject_step(injector, text, restoring, InjectEvent::Done) == inject_end(Ok(()))
        }),
{
}

/// Law: where the clipboard is not to be given back nothing but the text is ever copied to it.
pub proof fn law_nothing_is_restored_unasked(
    injector: TextInjector,
    text: Text,
    state: InjectState<Text>,
    event: InjectEvent<Text>,
)
    requires
        inject_expects(state, event),
        !injector.settings.restore_clipboard,
        no_snapshot(state),
    ensures
        no_snapshot(inject_step(injector, text, state, event).0),
        inject_step(injector, text, state, event).1 matches InjectAction::Copy { text: copied }
            ==> copied == text,
{
}

/// The state holds nothing to give back.
pub open spec fn no_snapshot(state: InjectState<Text>) -> bool {
    match state {
        InjectState::Snapshotting => false,
        InjectState::Copying { previous, .. } => previous is None,
        InjectState::Settling { previous, .. } => previous is None,
        InjectState::Verifying { previous, .. } => previous is None,
        InjectState::Waiting { previous, .. } => previous is None,
        InjectState::Pasting { previous } => previous is None,
        InjectState::Lingering { previous } => previous is None,
        InjectState::Checking { .. } => false,
        _ => true,
    }
}

/// The most copies of the text that can still follow.
pub open spec fn copies_left(total: u64) -> nat {
    if total >= 1000 {
        0
    } else {
        ((1049 - total) / 50) as nat
    }
}

/// The most steps that an injection can still take.
pub open spec fn inject_steps_left(state: InjectState<Text>) -> nat {
    match state {
        InjectState::Begin => 100,
        InjectState::Typing => 99,
        InjectState::Snapshotting => 98,
        InjectState::Copying { total, .. } => 4 * copies_left(total) + 8,
        InjectState::Settling { total, .. } => 4 * copies_left(total) + 7,
        InjectState::Verifying { total, .. } => 4 * copies_left(total) + 6,
        InjectState::Waiting { total, .. } => (4 * copies_left(total) + 5) as nat,
        InjectState::Pasting { .. } => 4,
        InjectState::Lingering { .. } => 3,
        InjectState::Checking { .. } => 2,
        InjectState::Restoring => 1,
        InjectState::Finished => 0,
    }
}

/// Law: an injection ends. Each step leaves fewer steps, however the programs behave: the text is
/// copied again only while little time was spent on it.
pub proof fn law_an_injection_ends(
    injector: TextInjector,
    text: Text,
    state: InjectState<Text>,
    event: InjectEvent<Text>,
)
    requires
        inject_expects(state, event),
        waits_valid(state),
    ensures
        waits_valid(inject_step(injector, text, state, event).0),
        inject_steps_left(inject_step(injector, text, state, event).0) < inject_steps_left(state)
            <= 100,
{
}

/// Where an injection of a text stands after some of the events.
pub open spec fn state_after(
    injector: TextInjector,
    text: Text,
    events: Seq<InjectEvent<Text>>,
    count: int,
) -> InjectState<Text>
    decreases count,
{
    if count <= 0 {
        InjectState::Begin
    } else {
        inject_step(
            injector,
            text,
            state_after(injector, text, events, count - 1),
            events[count - 1],
        ).0
    }
}

/// What an injection of a text asks for at one of the events. The event after it tells what came of
/// that.
pub open spec fn asked_at(
    injector: TextInjector,
    text: Text,
    events: Seq<InjectEvent<Text>>,
    i: int,
) -> InjectAction<Text> {
    inject_step(injector, text, state_after(injector, text, events, i), events[i]).1
}

/// Every event is one that the injection waits for.
pub open spec fn answers(
    injector: TextInjector,
    text: Text,
    events: Seq<InjectEvent<Text>>,
) -> bool {
    forall|i: int|
        0 <= i < events.len() ==> inject_expects(
            state_after(injector, text, events, i),
            #[trigger] events[i],
        )
}

/// Among the first `count` events one tells that the text was typed.
pub open spec fn typed_by(
    injector: TextInjector,
    text: Text,
    events: Seq<InjectEvent<Text>>,
    count: int,
) -> bool {
    exists|i: int|
        0 <= i && i + 1 < count && #[trigger] asked_at(injector, text, events, i) is Type
            && events[i + 1] is Done
}

/// Among the first `count` events one makes the injection copy the text.
pub open spec fn copied_by(
    injector: TextInjector,
    text: Text,
    events: Seq<InjectEvent<Text>>,
    count: int,
) -> bool {
    exists|i: int|
        0 <= i < count && #[trigger] asked_at(injector, text, events, i) == (InjectAction::<
            Text,
        >::Copy { text })
}

/// Among the first `count` events one tells that the keys for pasting were pressed, after the text
/// was copied.
pub open spec fn pasted_by(
    injector: TextInjector,
    text: Text,
    events: Seq<InjectEvent<Text>>,
    count: int,
) -> bool {
    exists|j: int|
        0 <= j && j + 1 < count && #[trigger] asked_at(injector, text, events, j) is Paste
            && events[j + 1] is Done && copied_by(injector, text, events, j)
}

/// How long the injection has asked to wait among the first `count` events, in all, in
/// milliseconds.
pub open spec fn waited_by(
    injector: TextInjector,
    text: Text,
    events: Seq<InjectEvent<Text>>,
    count: int,
) -> int
    decreases count,
{
    if count <= 0 {
        0
    } else {
        waited_by(injector, text, events, count - 1) + match asked_at(
            injector,
            text,
            events,
            count - 1,
        ) {
            InjectAction::Sleep { ms } => ms as int,
            _ => 0,
        }
    }
}

/// What has happened when an injection of a text that is not empty stands where it does: it is at
/// its first event or not, this is what it asked for last, the text was copied before that, or by
/// then, or it was pasted, or it was typed.
spec fn past_of(
    text: Text,
    state: InjectState<Text>,
    first: bool,
    last: InjectAction<Text>,
    copied_before: bool,
    copied: bool,
    pasted: bool,
    typed: bool,
) -> bool {
    &&& first <==> state is Begin
    &&& match state {
        InjectState::Begin => true,
        InjectState::Typing => last is Type,
        InjectState::Snapshotting => last == InjectAction::<Text>::Read,
        InjectState::Copying { .. } => last == (InjectAction::<Text>::Copy { text }) && copied,
        InjectState::Settling { .. } => last is Sleep && copied,
        InjectState::Verifying { .. } => last == InjectAction::<Text>::Read && copied,
        InjectState::Waiting { .. } => last is Sleep && copied,
        InjectState::Pasting { .. } => last is Paste && copied_before,
        InjectState::Lingering { .. } => pasted,
        InjectState::Checking { .. } => pasted,
        InjectState::Restoring => pasted,
        InjectState::Finished => last == (InjectAction::<Text>::Finish { result: Ok(()) })
            ==> typed || pasted,
    }
}

proof fn lemma_past_grows(
    injector: TextInjector,
    text: Text,
    state: InjectState<Text>,
    event: InjectEvent<Text>,
    first: bool,
    last: InjectAction<Text>,
    copied_before: bool,
    copied: bool,
    pasted: bool,
    typed: bool,
    copied_now: bool,
    pasted_now: bool,
    typed_now: bool,
)
    requires
        text.len() > 0,
        inject_expects(state, event),
        past_of(text, state, first, last, copied_before, copied, pasted, typed),
        copied || inject_step(injector, text, state, event).1 == (InjectAction::<Text>::Copy { text })
            ==> copied_now,
        pasted || (!first && last is Paste && event is Done && copied_before) ==> pasted_now,
        typed || (!first && last is Type && event is Done) ==> typed_now,
    ensures
        past_of(
            text,
            inject_step(injector, text, state, event).0,
            false,
            inject_step(injector, text, state, event).1,
            copied,
            copied_now,
            pasted_now,
            typed_now,
        ),
{
}

/// What has happened by the first `n` events.
spec fn inject_history(
    injector: TextInjector,
    text: Text,
    events: Seq<InjectEvent<Text>>,
    n: int,
) -> bool {
    past_of(
        text,
        state_after(injector, text, events, n),
        n == 0,
        asked_at(injector, text, events, n - 1),
        copied_by(injector, text, events, n - 1),
        copied_by(injector, text, events, n),
        pasted_by(injector, text, events, n),
        typed_by(injector, text, events, n),
    )
}

/// What has happened stays so.
proof fn lemma_happened(
    injector: TextInjector,
    text: Text,
    events: Seq<InjectEvent<Text>>,
    k: int,
)
    requires
        0 <= k,
    ensures
        copied_by(injector, text, events, k) ==> copied_by(injector, text, events, k + 1),
        pasted_by(injector, text, events, k) ==> pasted_by(injector, text, events, k + 1),
        asked_at(injector, text, events, k) == (InjectAction::<Text>::Copy { text }) ==> copied_by(
            injector,
            text,
            events,
            k + 1,
        ),
        typed_by(injector, text, events, k) ==> typed_by(injector, text, events, k + 1),
        k >= 1 && asked_at(injector, text, events, k - 1) is Paste && events[k] is Done
            && copied_by(injector, text, events, k - 1) ==> pasted_by(
            injector,
            text,
            events,
            k + 1,
        ),
        k >= 1 && asked_at(injector, text, events, k - 1) is Type && events[k] is Done ==> typed_by(
            injector,
            text,
            events,
            k + 1,
        ),
{
    if k >= 1 {
        assert(events[(k - 1) + 1] == events[k]);
    }
    if typed_by(injector, text, events, k) {
        let i = choose|i: int|
            0 <= i && i + 1 < k && #[trigger] asked_at(injector, text, events, i) is Type
                && events[i + 1] is Done;
        assert(asked_at(injector, text, events, i) is Type);
    }
    if copied_by(injector, text, events, k) {
        let i = choose|i: int|
            0 <= i < k && #[trigger] asked_at(injector, text, events, i) == (InjectAction::<
                Text,
            >::Copy { text });
        assert(asked_at(injector, text, events, i) == (InjectAction::<Text>::Copy { text }));
    }
    if pasted_by(injector, text, events, k) {
        let j = choose|j: int|
            0 <= j && j + 1 < k && #[trigger] asked_at(injector, text, events, j) is Paste
                && events[j + 1] is Done && copied_by(injector, text, events, j);
        assert(asked_at(injector, text, events, j) is Paste);
    }
}

proof fn lemma_inject_history(
    injector: TextInjector,
    text: Text,
    events: Seq<InjectEvent<Text>>,
    n: int,
)
    requires
        text.len() > 0,
        answers(injector, text, events),
        0 <= n <= events.len(),
    ensures
        inject_history(injector, text, events, n),
    decreases n,
{
    if n > 0 {
        let k = n - 1;
        lemma_inject_history(injector, text, events, k);
        let state = state_after(injector, text, events, k);
        assert(inject_expects(state, events[k]));
        lemma_happened(injector, text, events, k);
        lemma_past_grows(
            injector,
            text,
            state,
            events[k],
            k == 0,
            asked_at(injector, text, events, k - 1),
            copied_by(injector, text, events, k - 1),
            copied_by(injector, text, events, k),
            pasted_by(injector, text, events, k),
            typed_by(injector, text, events, k),
            copied_by(injector, text, events, n),
            pasted_by(injector, text, events, n),
            typed_by(injector, text, events, n),
        );
    }
}

/// Law: an injection of a text that is not empty ends with success only after the text was
/// inserted. It was typed, or it was copied and then the keys for pasting were pressed, whether or
/// not the clipboard is to be given back.
pub proof fn law_success_means_that_the_text_was_inserted(
    injector: TextInjector,
    text: Text,
    events: Seq<InjectEvent<Text>>,
    end: int,
)
    requires
        text.len() > 0,
        answers(injector, text, events),
        0 <= end < events.len(),
        asked_at(injector, text, events, end) == (InjectAction::<Text>::Finish { result: Ok(()) }),
    ensures
        typed_by(injector, text, events, end + 1) || pasted_by(injector, text, events, end + 1),
{
    lemma_inject_history(injector, text, events, end);
    lemma_inject_history(injector, text, events, end + 1);
    assert(inject_expects(state_after(injector, text, events, end), events[end]));
}

/// Law: an injection fails just where the text could not be copied or the keys for pasting could not
/// be pressed, and its message is that of the failure. A program that fails to type, or a clipboard
/// that cannot be read, fails nothing.
pub proof fn law_an_injection_fails_with_its_cause(
    injector: TextInjector,
    text: Text,
    events: Seq<InjectEvent<Text>>,
    i: int,
    error: Text,
)
    requires
        text.len() > 0,
        answers(injector, text, events),
        0 <= i < events.len(),
    ensures
        asked_at(injector, text, events, i) == (InjectAction::<Text>::Finish {
            result: Err(error),
        }) <==> i >= 1 && events[i] == (InjectEvent::<Text>::Failed { error }) && (asked_at(
            injector,
            text,
            events,
            i - 1,
        ) is Paste || (asked_at(injector, text, events, i - 1) == (InjectAction::<Text>::Copy {
            text,
        }) && !pasted_by(injector, text, events, i))),
{
    lemma_inject_history(injector, text, events, i);
    lemma_not_pasted_yet(injector, text, events, i);
    assert(inject_expects(state_after(injector, text, events, i), events[i]));
    if i >= 1 {
        lemma_inject_history(injector, text, events, i - 1);
        assert(inject_expects(state_after(injector, text, events, i - 1), events[i - 1]));
    }
}

/// Before the keys were pressed, nothing was pasted.
proof fn lemma_not_pasted_yet(
    injector: TextInjector,
    text: Text,
    events: Seq<InjectEvent<Text>>,
    n: int,
)
    requires
        text.len() > 0,
        answers(injector, text, events),
        0 <= n <= events.len(),
    ensures
        ({
            let state = state_after(injector, text, events, n);
            state is Begin || state is Typing || state is Snapshotting || state is Copying
                || state is Settling || state is Verifying || state is Waiting || state is Pasting
                ==> !pasted_by(injector, text, events, n)
        }),
    decreases n,
{
    if n > 0 {
        let k = n - 1;
        lemma_not_pasted_yet(injector, text, events, k);
        assert(inject_expects(state_after(injector, text, events, k), events[k]));
        lemma_inject_history(injector, text, events, k);
        if pasted_by(injector, text, events, n) && !pasted_by(injector, text, events, k) {
            let j = choose|j: int|
                0 <= j && j + 1 < n && #[trigger] asked_at(injector, text, events, j) is Paste
                    && events[j + 1] is Done && copied_by(injector, text, events, j);
            assert(j + 1 == k);
            assert(asked_at(injector, text, events, k - 1) is Paste);
            assert(inject_expects(state_after(injector, text, events, k - 1), events[k - 1]));
        }
    }
}

/// Law: a text is typed just where it is forced to be, or where nothing is forced and it is a single
/// line of no more characters than the threshold; and then with the program that types, if there is
/// one. Typing is the first thing that is tried, and every other text is never typed.
pub proof fn law_only_short_lines_are_typed(
    injector: TextInjector,
    text: Text,
    events: Seq<InjectEvent<Text>>,
    i: int,
    method: TypeMethod,
)
    requires
        text.len() > 0,
        answers(injector, text, events),
        0 <= i < events.len(),
    ensures
        asked_at(injector, text, events, i) == (InjectAction::<Text>::Type { method }) <==> {
            &&& i == 0
            &&& injector.type_method == Some(method)
            &&& injector.settings.force_method == Some(InjectionForceMethod::Type) || (
            injector.settings.force_method is None && text.len()
                <= injector.settings.paste_threshold_chars && forall|k: int|
                0 <= k < text.len() ==> #[trigger] text[k] != '\n' && text[k] != '\r')
        },
{
    lemma_inject_history(injector, text, events, i);
    assert(inject_expects(state_after(injector, text, events, i), events[i]));
    if has_newline(text) {
        let k = choose|k: int| 0 <= k < text.len() && (#[trigger] text[k] == '\n' || text[k]
            == '\r');
        assert(text[k] == '\n' || text[k] == '\r');
    }
}

/// Law: a text that is empty is inserted at once, by doing nothing.
pub proof fn law_nothing_is_done_for_no_text(injector: TextInjector, event: InjectEvent<Text>)
    ensures
        inject_step(injector, Seq::empty(), InjectState::Begin, event) == (
            InjectState::<Text>::Finished,
            InjectAction::<Text>::Finish { result: Ok(()) },
        ),
{
}

proof fn lemma_waited(
    injector: TextInjector,
    text: Text,
    events: Seq<InjectEvent<Text>>,
    n: int,
)
    requires
        text.len() > 0,
        answers(injector, text, events),
        0 <= n <= events.len(),
    ensures
        0 <= waited_by(injector, text, events, n),
        waits_valid(state_after(injector, text, events, n)),
        match state_after(injector, text, events, n) {
            InjectState::Copying { total, .. } => total <= waited_by(injector, text, events, n),
            InjectState::Settling { total, .. } => total <= waited_by(injector, text, events, n),
            InjectState::Verifying { total, .. } => total <= waited_by(injector, text, events, n),
            InjectState::Waiting { total, delay, .. } => total + delay <= waited_by(
                injector,
                text,
                events,
                n,
            ),
            _ => true,
        },
    decreases n,
{
    if n > 0 {
        lemma_waited(injector, text, events, n - 1);
        assert(inject_expects(state_after(injector, text, events, n - 1), events[n - 1]));
        law_an_injection_ends(
            injector,
            text,
            state_after(injector, text, events, n - 1),
            events[n - 1],
        );
    }
}

/// Law: the keys for pasting are pressed only once the clipboard was seen to hold the text, or once
/// a second was waited for it.
pub proof fn law_a_paste_waits_for_its_copy(
    injector: TextInjector,
    text: Text,
    events: Seq<InjectEvent<Text>>,
    i: int,
)
    requires
        text.len() > 0,
        answers(injector, text, events),
        0 <= i < events.len(),
        asked_at(injector, text, events, i) is Paste,
    ensures
        i >= 1 && asked_at(injector, text, events, i - 1) == InjectAction::<Text>::Read,
        events[i] == (InjectEvent::<Text>::Text { text }) || waited_by(injector, text, events, i)
            >= 1000,
{
    lemma_inject_history(injector, text, events, i);
    lemma_waited(injector, text, events, i);
    assert(inject_expects(state_after(injector, text, events, i), events[i]));
}

/// Law: once the clipboard was seen to hold the text, the keys for pasting are pressed at once.
pub proof fn law_a_seen_copy_is_pasted(
    injector: TextInjector,
    text: Text,
    events: Seq<InjectEvent<Text>>,
    i: int,
)
    requires
        text.len() > 0,
        answers(injector, text, events),
        1 <= i < events.len(),
        asked_at(injector, text, events, i - 1) == InjectAction::<Text>::Read,
        copied_by(injector, text, events, i),
        !pasted_by(injector, text, events, i),
        events[i] == (InjectEvent::<Text>::Text { text }),
    ensures
        asked_at(injector, text, events, i) is Paste,
{
    lemma_inject_history(injector, text, events, i);
    lemma_inject_history(injector, text, events, i - 1);
    lemma_not_copied_yet(injector, text, events, i);
    assert(inject_expects(state_after(injector, text, events, i), events[i]));
    assert(inject_expects(state_after(injector, text, events, i - 1), events[i - 1]));
}

/// Before the clipboard was remembered, nothing was copied.
proof fn lemma_not_copied_yet(
    injector: TextInjector,
    text: Text,
    events: Seq<InjectEvent<Text>>,
    n: int,
)
    requires
        text.len() > 0,
        answers(injector, text, events),
        0 <= n <= events.len(),
    ensures
        ({
            let state = state_after(injector, text, events, n);
            state is Begin || state is Typing || state is Snapshotting ==> !copied_by(
                injector,
                text,
                events,
                n,
            )
        }),
    decreases n,
{
    if n > 0 {
        let k = n - 1;
        lemma_not_copied_yet(injector, text, events, k);
        lemma_inject_history(injector, text, events, k);
        assert(inject_expects(state_after(injector, text, events, k), events[k]));
        if copied_by(injector, text, events, n) && !copied_by(injector, text, events, k) {
            let i = choose|i: int|
                0 <= i < n && #[trigger] asked_at(injector, text, events, i) == (InjectAction::<
                    Text,
                >::Copy { text });
            assert(i == k);
        }
    }
}

/// Law: where the clipboard is to be given back, it is read before the text is copied to it, and
/// where it is not, it is not read before.
pub proof fn law_the_clipboard_is_read_before_it_is_taken(
    injector: TextInjector,
    text: Text,
    events: Seq<InjectEvent<Text>>,
    i: int,
)
    requires
        text.len() > 0,
        answers(injector, text, events),
        0 <= i < events.len(),
        asked_at(injector, text, events, i) == (InjectAction::<Text>::Copy { text }),
        !copied_by(injector, text, events, i),
    ensures
        injector.settings.restore_clipboard <==> i >= 1 && asked_at(injector, text, events, i - 1)
            == InjectAction::<Text>::Read,
        remembered(state_after(injector, text, events, i + 1)) == (match events[i] {
            InjectEvent::Text { text: held } => if injector.settings.restore_clipboard {
                Some(held)
            } else {
                None
            },
            _ => None,
        }),
{
    lemma_inject_history(injector, text, events, i);
    assert(inject_expects(state_after(injector, text, events, i), events[i]));
    if i >= 1 {
        lemma_inject_history(injector, text, events, i - 1);
        assert(inject_expects(state_after(injector, text, events, i - 1), events[i - 1]));
    }
}

proof fn lemma_remembers(
    injector: TextInjector,
    text: Text,
    events: Seq<InjectEvent<Text>>,
    from: int,
    to: int,
    held: Text,
)
    requires
        text.len() > 0,
        answers(injector, text, events),
        0 <= from <= to <= events.len(),
        remembered(state_after(injector, text, events, from)) == Some(held),
        state_after(injector, text, events, to) is Pasting,
    ensures
        remembered(state_after(injector, text, events, to)) == Some(held),
    decreases to - from,
{
    if from < to {
        let state = state_after(injector, text, events, from);
        assert(inject_expects(state, events[from]));
        law_the_clipboard_is_remembered(injector, text, state, events[from]);
        let next = inject_step(injector, text, state, events[from]).0;
        assert(state_after(injector, text, events, from + 1) == next);
        if next is Finished || next is Restoring {
            lemma_stays_past(injector, text, events, from + 1, to);
        } else {
            assert(!(state is Snapshotting));
            assert(remembered(next) == Some(held));
            lemma_remembers(injector, text, events, from + 1, to, held);
        }
    }
}

/// An injection that is over, or that gives the clipboard back, never pastes again.
proof fn lemma_stays_past(
    injector: TextInjector,
    text: Text,
    events: Seq<InjectEvent<Text>>,
    from: int,
    to: int,
)
    requires
        answers(injector, text, events),
        0 <= from <= to <= events.len(),
        ({
            let state = state_after(injector, text, events, from);
            state is Finished || state is Restoring
        }),
    ensures
        ({
            let state = state_after(injector, text, events, to);
            state is Finished || state is Restoring
        }),
    decreases to - from,
{
    if from < to {
        assert(inject_expects(state_after(injector, text, events, from), events[from]));
        assert(state_after(injector, text, events, from + 1) == inject_step(
            injector,
            text,
            state_after(injector, text, events, from),
            events[from],
        ).0);
        lemma_stays_past(injector, text, events, from + 1, to);
    }
}

/// Law: a paste gives back what the clipboard held before it. Where the clipboard held a text when
/// it was first taken, and after the paste it still holds the text that was pasted, what it held is
/// copied back; where the user has copied something else meanwhile, it is left alone.
pub proof fn law_a_paste_gives_the_clipboard_back(
    injector: TextInjector,
    text: Text,
    events: Seq<InjectEvent<Text>>,
    taken: int,
    paste: int,
    held: Text,
)
    requires
        text.len() > 0,
        injector.settings.restore_clipboard,
        answers(injector, text, events),
        0 <= taken < paste,
        paste + 3 < events.len(),
        asked_at(injector, text, events, taken) == (InjectAction::<Text>::Copy { text }),
        !copied_by(injector, text, events, taken),
        events[taken] == (InjectEvent::<Text>::Text { text: held }),
        asked_at(injector, text, events, paste) is Paste,
        events[paste + 1] is Done,
    ensures
        asked_at(injector, text, events, paste + 1) == (InjectAction::<Text>::Sleep { ms: 500 }),
        asked_at(injector, text, events, paste + 2) == InjectAction::<Text>::Read,
        events[paste + 3] == (InjectEvent::<Text>::Text { text }) ==> asked_at(
            injector,
            text,
            events,
            paste + 3,
        ) == (InjectAction::<Text>::Copy { text: held }),
        events[paste + 3] != (InjectEvent::<Text>::Text { text }) ==> asked_at(
            injector,
            text,
            events,
            paste + 3,
        ) == (InjectAction::<Text>::Finish { result: Ok(()) }),
{
    law_the_clipboard_is_read_before_it_is_taken(injector, text, events, taken);
    lemma_inject_history(injector, text, events, paste);
    assert(inject_expects(state_after(injector, text, events, paste), events[paste]));
    assert(state_after(injector, text, events, paste + 1) is Pasting);
    lemma_remembers(injector, text, events, taken + 1, paste + 1, held);
    assert(state_after(injector, text, events, paste + 1) == (InjectState::<Text>::Pasting {
        previous: Some(held),
    }));
    assert(state_after(injector, text, events, paste + 2) == (InjectState::<Text>::Lingering {
        previous: Some(held),
    }));
    assert(inject_expects(state_after(injector, text, events, paste + 2), events[paste + 2]));
    assert(state_after(injector, text, events, paste + 3) == (InjectState::<Text>::Checking {
        snapshot: held,
    }));
}

/// Law: a program that types is one that is there. One that is preferred by name is taken if it is
/// there, and no other one in its place; where the clipboard is preferred none is taken; without
/// such a preference `ydotool` is taken before `wtype`.
pub proof fn law_the_program_that_types_is_there(
    preferred: Option<Seq<char>>,
    wtype: bool,
    ydotool: bool,
)
    ensures
        ({
            let method = detected(preferred, wtype, ydotool);
            &&& method == Some(TypeMethod::Wtype) ==> wtype
            &&& method == Some(TypeMethod::Ydotool) ==> ydotool
            &&& preferred == Some("wtype"@) ==> (method == Some(TypeMethod::Wtype) <==> wtype)
                && method != Some(TypeMethod::Ydotool)
            &&& preferred == Some("ydotool"@) ==> (method == Some(TypeMethod::Ydotool) <==> ydotool)
                && method != Some(TypeMethod::Wtype)
            &&& preferred == Some("clipboard"@) ==> method is None
            &&& preferred is None ==> {
                &&& ydotool ==> method == Some(TypeMethod::Ydotool)
                &&& !ydotool && wtype ==> method == Some(TypeMethod::Wtype)
                &&& !ydotool && !wtype ==> method is None
            }
        }),
{
    reveal_strlit("wtype");
    reveal_strlit("ydotool");
    reveal_strlit("clipboard");
    assert("wtype"@.len() == 5 && "ydotool"@.len() == 7 && "clipboard"@.len() == 9);
}

/// Law: any other preference is none at all.
pub proof fn law_an_unknown_preference_is_ignored(
    preferred: Seq<char>,
    wtype: bool,
    ydotool: bool,
)
    requires
        preferred != "wtype"@,
        preferred != "ydotool"@,
        preferred != "clipboard"@,
    ensures
        detected(Some(preferred), wtype, ydotool) == detected(None, wtype, ydotool),
{
}

/// Law: the clipboard is read with `wl-paste`, then with `xclip`, then with `xsel`, until one of them
/// reads it, and what that one read is the result; where none does, the read fails.
pub proof fn law_the_clipboard_is_read_by_the_first_that_can(
    tried: ClipboardBackend,
    output: Option<Seq<char>>,
    text: Seq<char>,
)
    ensures
        read_next(None, output) == (ReadAction::<Seq<char>>::Run {
            backend: ClipboardBackend::WlClipboard,
        }),
        read_next(Some(tried), Some(text)) == (ReadAction::<Seq<char>>::Finish {
            result: Ok(text),
        }),
        read_next(Some(ClipboardBackend::WlClipboard), None) == (ReadAction::<Seq<char>>::Run {
            backend: ClipboardBackend::Xclip,
        }),
        read_next(Some(ClipboardBackend::Xclip), None) == (ReadAction::<Seq<char>>::Run {
            backend: ClipboardBackend::Xsel,
        }),
        read_next(Some(ClipboardBackend::Xsel), None) matches ReadAction::Finish {
            result: Err(_),
        },
{
}

/// Law: the programs for the clipboard and what they are run with.
pub proof fn law_the_clipboard_programs(backend: ClipboardBackend)
    ensures
        backend == ClipboardBackend::WlClipboard ==> backend.copier() == "wl-copy"@
            && backend.copying().len() == 0 && backend.reader() == "wl-paste"@
            && backend.reading() == seq!["--no-newline"@],
        backend == ClipboardBackend::Xclip ==> backend.copier() == "xclip"@ && backend.copying()
            == seq!["-selection"@, "clipboard"@] && backend.reader() == "xclip"@
            && backend.reading() == seq!["-selection"@, "clipboard"@, "-out"@],
        backend == ClipboardBackend::Xsel ==> backend.copier() == "xsel"@ && backend.copying()
            == seq!["--clipboard"@, "--input"@] && backend.reader() == "xsel"@
            && backend.reading() == seq!["--clipboard"@, "--output"@],
{
}

/// Law: a copy begins with `wl-copy`. A program that is there is handed the text and then waited
/// for; the copy succeeds just when the program does. One that is not there, or that ends without
/// success, is followed by the next one: `xclip`, then `xsel`, and then the copy fails.
pub proof fn law_a_copy_succeeds_with_its_program(
    state: CopyState<Seq<char>>,
    event: CopyEvent<Seq<char>>,
    backend: ClipboardBackend,
    error: Seq<char>,
)
    requires
        copy_expects(state, event),
        copy_step(state, event).1 == (CopyAction::<Seq<char>>::Spawn { backend }),
    ensures
        copy_step(CopyState::Begin, CopyEvent::Done).1 == (CopyAction::<Seq<char>>::Spawn {
            backend: ClipboardBackend::WlClipboard,
        }),
        ({
            let spawned = copy_step(state, event).0;
            let (writing, write) = copy_step(spawned, CopyEvent::Done);
            let (waiting, wait) = copy_step(writing, CopyEvent::Done);
            let (killing, kill) = copy_step(writing, CopyEvent::Failed { error });
            let missing = copy_step(spawned, CopyEvent::Missing).1;
            let failed = copy_step(waiting, CopyEvent::Exited { success: false }).1;
            let next = match backend {
                ClipboardBackend::WlClipboard => CopyAction::<Seq<char>>::Spawn {
                    backend: ClipboardBackend::Xclip,
                },
                ClipboardBackend::Xclip => CopyAction::<Seq<char>>::Spawn {
                    backend: ClipboardBackend::Xsel,
                },
                ClipboardBackend::Xsel => CopyAction::<Seq<char>>::Finish {
                    result: Err("No clipboard copy tool available"@),
                },
            };
            &&& write is Write && wait is Wait && kill is Kill
            &&& copy_step(waiting, CopyEvent::Exited { success: true }).1 == (CopyAction::<
                Seq<char>,
            >::Finish { result: Ok(()) })
            &&& copy_step(killing, CopyEvent::Done).1 == (CopyAction::<Seq<char>>::Finish {
                result: Err(error),
            })
            &&& copy_step(waiting, CopyEvent::Failed { error }).1 == (CopyAction::<
                Seq<char>,
            >::Finish { result: Err(error) })
            &&& missing == next && failed == next
            &&& copy_step(spawned, CopyEvent::Failed { error }).1 matches CopyAction::Finish {
                result: Err(_),
            }
        }),
{
}

/// Law: the keys for pasting are pressed by the program that types where there is one, then by the
/// others, each once, `xdotool` last, until one succeeds; where none does, the paste fails.
pub proof fn law_pasting_tries_every_program(type_method: Option<TypeMethod>, tried: int)
    requires
        tried >= 0,
    ensures
        tried > 0 ==> paste_next(type_method, tried, true) == (PasteAction::<Seq<char>>::Finish {
            result: Ok(()),
        }),
        tried >= 3 ==> paste_next(type_method, tried, false) == (PasteAction::<Seq<char>>::Finish {
            result: Err("No paste shortcut backend succeeded"@),
        }),
        type_method matches Some(method) ==> paste_next(type_method, 0, false) == (PasteAction::<
            Seq<char>,
        >::Run { tool: PasteTool::Method(method) }),
        type_method is None ==> paste_next(type_method, 0, false) == (PasteAction::<
            Seq<char>,
        >::Run { tool: PasteTool::Method(TypeMethod::Ydotool) }),
        paste_next(type_method, 2, false) == (PasteAction::<Seq<char>>::Run {
            tool: PasteTool::Xdotool,
        }),
        paste_next(type_method, 1, false) matches PasteAction::Run {
            tool: PasteTool::Method(_),
        } && paste_next(type_method, 1, false) != paste_next(type_method, 0, false),
{
}

/// Law: a text may take two seconds to be typed and twenty milliseconds more for each character, as
/// far as that can be counted.
pub proof fn law_typing_time(chars: int)
    requires
        0 <= chars,
    ensures
        2000 + 20 * chars <= u64::MAX ==> typing_limit(chars) == 2000 + 20 * chars,
        2000 + 20 * chars > u64::MAX ==> typing_limit(chars) == u64::MAX,
{
}

/// Law: the waits for a copy. After the text was copied the clipboard is read ten milliseconds
/// later; where it does not hold the text yet there is a wait of fifty milliseconds before the text
/// is copied again.
pub proof fn law_a_copy_is_looked_at_soon(
    injector: TextInjector,
    text: Text,
    state: InjectState<Text>,
    event: InjectEvent<Text>,
    seen: InjectEvent<Text>,
)
    requires
        inject_expects(state, event),
        state is Begin || state is Typing || state is Snapshotting,
        inject_step(injector, text, state, event).1 == (InjectAction::<Text>::Copy { text }),
        seen != (InjectEvent::<Text>::Text { text }),
    ensures
        ({
            let copying = inject_step(injector, text, state, event).0;
            let (settling, first) = inject_step(injector, text, copying, InjectEvent::Done);
            let (verifying, second) = inject_step(injector, text, settling, InjectEvent::Done);
            let (waiting, third) = inject_step(injector, text, verifying, seen);
            &&& first == (InjectAction::<Text>::Sleep { ms: 10 })
            &&& second == InjectAction::<Text>::Read
            &&& third == (InjectAction::<Text>::Sleep { ms: 50 })
            &&& inject_step(injector, text, waiting, InjectEvent::Done).1 == (InjectAction::<
                Text,
            >::Copy { text })
        }),
{
}

/// Law: each further wait for a copy is twice as long as the one before it, up to two hundred
/// milliseconds, until a second was waited in all.
pub proof fn law_waits_double(
    injector: TextInjector,
    text: Text,
    previous: Option<Text>,
    delay: u64,
    total: u64,
    seen: InjectEvent<Text>,
)
    requires
        50 <= delay <= 200,
        total + delay < 1000,
        seen != (InjectEvent::<Text>::Text { text }),
    ensures
        ({
            let waiting = InjectState::Waiting { previous, delay, total };
            let (copying, first) = inject_step(injector, text, waiting, InjectEvent::Done);
            let (settling, second) = inject_step(injector, text, copying, InjectEvent::Done);
            let (verifying, third) = inject_step(injector, text, settling, InjectEvent::Done);
            let (again, fourth) = inject_step(injector, text, verifying, seen);
            &&& first == (InjectAction::<Text>::Copy { text })
            &&& second == (InjectAction::<Text>::Sleep { ms: 10 })
            &&& third == InjectAction::<Text>::Read
            &&& fourth matches InjectAction::Sleep { ms } && ms == (if 2 * delay <= 200 {
                2 * delay
            } else {
                200
            })
            &&& again matches InjectState::Waiting { total: waited, .. } && waited == total + delay
        }),
{
}

/// Law: how the programs are told to type a text and to press the keys for pasting, which are the
/// control key and the letter v.
pub proof fn law_what_the_programs_are_told(text: Seq<char>)
    ensures
        TypeMethod::Wtype.label() == "wtype"@,
        TypeMethod::Ydotool.label() == "ydotool"@,
        TypeMethod::Wtype.typing(text) == seq![text],
        TypeMethod::Ydotool.typing(text) == seq!["type"@, text],
        PasteTool::Xdotool.program() == "xdotool"@,
        PasteTool::Xdotool.pasting() == seq!["key"@, "ctrl+v"@],
        PasteTool::Method(TypeMethod::Ydotool).program() == "ydotool"@,
        PasteTool::Method(TypeMethod::Ydotool).pasting() == seq![
            "key"@,
            "29:1"@,
            "47:1"@,
            "47:0"@,
            "29:0"@,
        ],
        PasteTool::Method(TypeMethod::Wtype).program() == "wtype"@,
        PasteTool::Method(TypeMethod::Wtype).pasting() == seq![
            "-M"@,
            "ctrl"@,
            "-P"@,
            "v"@,
            "-m"@,
            "ctrl"@,
            "-p"@,
            "v"@,
        ],
{
}

/// Law: a paste leaves the text on the clipboard for half a second, and is over then where nothing
/// is remembered that could be given back.
pub proof fn law_a_paste_lingers(
    injector: TextInjector,
    text: Text,
    state: InjectState<Text>,
    event: InjectEvent<Text>,
)
    requires
        inject_expects(state, event),
        inject_step(injector, text, state, event).1 is Paste,
    ensures
        ({
            let pasting = inject_step(injector, text, state, event).0;
            let (lingering, first) = inject_step(injector, text, pasting, InjectEvent::Done);
            &&& remembered(pasting) == remembered(state)
            &&& first == (InjectAction::<Text>::Sleep { ms: 500 })
            &&& remembered(state) is None ==> inject_step(
                injector,
                text,
                lingering,
                InjectEvent::Done,
            ).1 == (InjectAction::<Text>::Finish { result: Ok(()) })
        }),
{
}

} // verus!
