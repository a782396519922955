//! What the front end remembers and shows: the settings, the messages
//! between front end and worker, and the state of the progress display.

pub mod worker;

pub use worker::OptimizationWorker;

use vstd::prelude::*;
use crate::game::Game;
use crate::paths::{join_path, joined};
use crate::text::{chars_of, push_str, same_chars, starts_with, string_of, string_views};

verus! {

/// The settings that are kept between runs.
#[derive(Debug, Clone, PartialEq, Eq)]
pub struct AppSettings {
    pub profile_path: String,
    pub mods_path: String,
    pub data_path: String,
    pub output_path: String,
    pub preset: String,
    pub game: Game,
    pub custom_diffuse: u32,
    pub custom_normal: u32,
    pub custom_parallax: u32,
    pub custom_material: u32,
    pub thread_count: usize,
    pub backend: String,
}

/// From the worker to the front end.
#[derive(Debug, Clone, PartialEq, Eq)]
pub enum WorkerMessage {
    Progress { current: usize, total: usize, message: String },
    Log(String),
    Complete { success: bool, message: String },
}

/// A [`WorkerMessage`] with its strings as character sequences.
pub enum MessageView {
    Progress { current: usize, total: usize, message: Seq<char> },
    Log(Seq<char>),
    Complete { success: bool, message: Seq<char> },
}

impl View for WorkerMessage {
    type V = MessageView;

    open spec fn view(&self) -> MessageView {
        match self {
            WorkerMessage::Progress { current, total, message } => MessageView::Progress {
                current: *current,
                total: *total,
                message: message@,
            },
            WorkerMessage::Log(line) => MessageView::Log(line@),
            WorkerMessage::Complete { success, message } => MessageView::Complete {
                success: *success,
                message: message@,
            },
        }
    }
}

/// From the front end to the worker.
#[derive(Debug, Clone, Copy, PartialEq, Eq, Structural)]
pub enum ControlMessage {
    Cancel,
}

/// What the progress display shows.
#[derive(Debug, Clone, PartialEq, Eq)]
pub struct ProgressState {
    pub is_running: bool,
    pub progress_current: usize,
    pub progress_total: usize,
    pub progress_message: String,
    pub log_messages: Vec<String>,
    pub scroll_to_bottom: bool,
}

/// A [`ProgressState`] with its strings as character sequences.
pub struct ProgressView {
    pub is_running: bool,
    pub progress_current: usize,
    pub progress_total: usize,
    pub progress_message: Seq<char>,
    pub log_messages: Seq<Seq<char>>,
    pub scroll_to_bottom: bool,
}

impl View for ProgressState {
    type V = ProgressView;

    open spec fn view(&self) -> ProgressView {
        ProgressView {
            is_running: self.is_running,
            progress_current: self.progress_current,
            progress_total: self.progress_total,
            progress_message: self.progress_message@,
            log_messages: string_views(self.log_messages@),
            scroll_to_bottom: self.scroll_to_bottom,
        }
    }
}

/// The smallest limit a custom preset can be given.
pub const MIN_CUSTOM: u32 = 128;

/// The largest limit a custom preset can be given.
pub const MAX_CUSTOM: u32 = 8192;

/// The backend to begin with: the best one available.
pub fn default_backend() -> (r: String)
    ensures
        r@ == "auto"@,
{
    "auto".to_owned()
}

/// Calls `num_cpus::get`. Trusted; the number depends on the machine and
/// nothing is claimed of it.
#[verifier::external_body]
pub(crate) fn default_thread_count() -> usize {
    num_cpus::get()
}

/// The custom limit for base color textures to begin with.
pub fn default_diffuse() -> (r: u32)
    ensures
        r == 2048,
{
    2048
}

/// The custom limit for normal maps to begin with.
pub fn default_normal() -> (r: u32)
    ensures
        r == 1024,
{
    1024
}

/// The custom limit for parallax maps to begin with.
pub fn default_parallax() -> (r: u32)
    ensures
        r == 512,
{
    512
}

/// The custom limit for material maps to begin with.
pub fn default_material() -> (r: u32)
    ensures
        r == 512,
{
    512
}

/// A limit typed by the user, brought into the range that is offered.
pub fn clamp_custom(value: u32) -> (r: u32)
    ensures
        MIN_CUSTOM <= r <= MAX_CUSTOM,
        MIN_CUSTOM <= value <= MAX_CUSTOM ==> r == value,
        value < MIN_CUSTOM ==> r == MIN_CUSTOM,
        value > MAX_CUSTOM ==> r == MAX_CUSTOM,
{
    if value < MIN_CUSTOM {
        MIN_CUSTOM
    } else if value > MAX_CUSTOM {
        MAX_CUSTOM
    } else {
        value
    }
}

/// Whether a relative path begins like a path from the root that lost its
/// first slash.
pub open spec fn looks_rooted(path: Seq<char>) -> bool {
    ||| "home/"@.is_prefix_of(path)
    ||| "mnt/"@.is_prefix_of(path)
    ||| "usr/"@.is_prefix_of(path)
    ||| "opt/"@.is_prefix_of(path)
    ||| "var/"@.is_prefix_of(path)
}

/// A stored path made absolute: an empty path and an absolute one stay as
/// they are; a path that looks rooted gets its slash back; any other is
/// taken from the current directory, where that is known.
pub open spec fn absolute_form(path: Seq<char>, current_dir: Option<Seq<char>>) -> Seq<char> {
    if path.len() == 0 || path[0] == '/' {
        path
    } else if looks_rooted(path) {
        "/"@ + path
    } else {
        match current_dir {
            Some(dir) => joined(dir, path),
            None => path,
        }
    }
}

/// The line that announces the end of a run in the log.
pub open spec fn banner(message: Seq<char>) -> Seq<char> {
    "=== "@ + message + " ==="@
}

/// The state of the display after a message from the worker. Progress
/// replaces the numbers and the message shown. A log line is added to the
/// log. Completion ends the run, shows its message and announces it in the
/// log.
pub open spec fn after_message(state: ProgressView, message: MessageView) -> ProgressView {
    match message {
        MessageView::Progress { current, total, message } => ProgressView {
            progress_current: current,
            progress_total: total,
            progress_message: message,
            ..state
        },
        MessageView::Log(line) => ProgressView {
            log_messages: state.log_messages.push(line),
            scroll_to_bottom: true,
            ..state
        },
        MessageView::Complete { success, message } => ProgressView {
            is_running: false,
            progress_message: message,
            log_messages: state.log_messages.push(banner(message)),
            scroll_to_bottom: true,
            ..state
        },
    }
}

/// Whether a run can be started: none is under way and all four paths are
/// given.
pub open spec fn can_start(settings: AppSettings, is_running: bool) -> bool {
    &&& !is_running
    &&& settings.profile_path@.len() > 0
    &&& settings.mods_path@.len() > 0
    &&& settings.data_path@.len() > 0
    &&& settings.output_path@.len() > 0
}

impl Default for AppSettings {
    fn default() -> (r: Self)
        ensures
            r.profile_path@.len() == 0,
            r.mods_path@.len() == 0,
            r.data_path@.len() == 0,
            r.output_path@.len() == 0,
            r.preset@ == "Optimum"@,
            r.game == Game::SkyrimSE,
            r.custom_diffuse == 2048,
            r.custom_normal == 1024,
            r.custom_parallax == 512,
            r.custom_material == 512,
            r.backend@ == "auto"@,
    {
        AppSettings {
            profile_path: String::new(),
            mods_path: String::new(),
            data_path: String::new(),
            output_path: String::new(),
            preset: "Optimum".to_owned(),
            game: Game::SkyrimSE,
            custom_diffuse: default_diffuse(),
            custom_normal: default_normal(),
            custom_parallax: default_parallax(),
            custom_material: default_material(),
            thread_count: default_thread_count(),
            backend: default_backend(),
        }
    }
}

impl AppSettings {
    /// A stored path made absolute, given the current directory where it
    /// is known.
    pub fn normalize_path(path_str: &str, current_dir: Option<&str>) -> (r: String)
        ensures
            r@ == absolute_form(
                path_str@,
                match current_dir {
                    Some(dir) => Some(dir@),
                    None => None,
                },
            ),
    {
        let path = chars_of(path_str);
        if path.len() == 0 || path[0] == '/' {
            return path_str.to_owned();
        }
        if starts_with(&path, &chars_of("home/")) || starts_with(&path, &chars_of("mnt/"))
            || starts_with(&path, &chars_of("usr/")) || starts_with(&path, &chars_of("opt/"))
            || starts_with(&path, &chars_of("var/")) {
            let mut rooted: Vec<char> = Vec::new();
            push_str(&mut rooted, "/");
            push_str(&mut rooted, path_str);
            return string_of(&rooted);
        }
        match current_dir {
            Some(dir) => join_path(dir, path_str),
            None => path_str.to_owned(),
        }
    }

    /// The stored paths made absolute.
    pub fn with_absolute_paths(self, current_dir: Option<&str>) -> (r: Self)
        ensures
            r.profile_path@ == absolute_form(self.profile_path@, opt_str_view(current_dir)),
            r.mods_path@ == absolute_form(self.mods_path@, opt_str_view(current_dir)),
            r.data_path@ == absolute_form(self.data_path@, opt_str_view(current_dir)),
            r.output_path@ == absolute_form(self.output_path@, opt_str_view(current_dir)),
            r.preset == self.preset,
            r.game == self.game,
            r.custom_diffuse == self.custom_diffuse,
            r.custom_normal == self.custom_normal,
            r.custom_parallax == self.custom_parallax,
            r.custom_material == self.custom_material,
            r.thread_count == self.thread_count,
            r.backend == self.backend,
    {
        AppSettings {
            profile_path: Self::normalize_path(self.profile_path.as_str(), current_dir),
            mods_path: Self::normalize_path(self.mods_path.as_str(), current_dir),
            data_path: Self::normalize_path(self.data_path.as_str(), current_dir),
            output_path: Self::normalize_path(self.output_path.as_str(), current_dir),
            preset: self.preset,
            game: self.game,
            custom_diffuse: self.custom_diffuse,
            custom_normal: self.custom_normal,
            custom_parallax: self.custom_parallax,
            custom_material: self.custom_material,
            thread_count: self.thread_count,
            backend: self.backend,
        }
    }

    /// Whether a run can be started.
    pub fn start_enabled(&self, is_running: bool) -> (r: bool)
        ensures
            r == can_start(*self, is_running),
    {
        !is_running && !self.profile_path.as_str().is_empty()
            && !self.mods_path.as_str().is_empty() && !self.data_path.as_str().is_empty()
            && !self.output_path.as_str().is_empty()
    }
}

/// The value of a decimal digit.
pub open spec fn digit_value(c: char) -> Option<nat> {
    if c == '0' {
        Some(0)
    } else if c == '1' {
        Some(1)
    } else if c == '2' {
        Some(2)
    } else if c == '3' {
        Some(3)
    } else if c == '4' {
        Some(4)
    } else if c == '5' {
        Some(5)
    } else if c == '6' {
        Some(6)
    } else if c == '7' {
        Some(7)
    } else if c == '8' {
        Some(8)
    } else if c == '9' {
        Some(9)
    } else {
        None
    }
}

/// Whether `s` consists of decimal digits.
pub open spec fn all_digits(s: Seq<char>) -> bool {
    forall|i: int| 0 <= i < s.len() ==> (#[trigger] digit_value(s[i])) is Some
}

/// The number that a row of digits stands for.
pub open spec fn digits_value(s: Seq<char>) -> nat
    decreases s.len(),
{
    if s.len() == 0 {
        0
    } else {
        digits_value(s.drop_last()) * 10 + match digit_value(s.last()) {
            Some(d) => d,
            None => 0,
        }
    }
}

/// The number that a text stands for: one or more decimal digits, with or
/// without a plus sign before them, that come to no more than fits.
pub open spec fn typed_number(text: Seq<char>) -> Option<u32> {
    let digits = if text.len() > 0 && text[0] == '+' {
        text.skip(1)
    } else {
        text
    };
    if digits.len() > 0 && all_digits(digits) && digits_value(digits) <= u32::MAX {
        Some(digits_value(digits) as u32)
    } else {
        None
    }
}

/// A custom limit after the user typed `text` into its field: the number
/// typed, brought into range; the limit as it was where the text is no
/// number.
pub open spec fn typed_limit(text: Seq<char>, current: u32) -> u32 {
    match typed_number(text) {
        Some(n) => if n < MIN_CUSTOM {
            MIN_CUSTOM
        } else if n > MAX_CUSTOM {
            MAX_CUSTOM
        } else {
            n
        },
        None => current,
    }
}

/// What the selector shows for a backend.
pub open spec fn backend_text(backend: Seq<char>) -> Seq<char> {
    if backend == "nvtt3"@ {
        "NVTT3 (CUDA) - Fast"@
    } else if backend == "texconv"@ {
        "texconv (Wine)"@
    } else {
        "Auto (Best Available)"@
    }
}

proof fn lemma_digits_grow(s: Seq<char>, n: int)
    requires
        0 <= n <= s.len(),
    ensures
        digits_value(s.take(n)) <= digits_value(s),
    decreases s.len() - n,
{
    if n < s.len() {
        lemma_digits_grow(s, n + 1);
        assert(s.take(n + 1).drop_last() == s.take(n));
    } else {
        assert(s.take(n) == s);
    }
}

fn digit_of(c: char) -> (r: Option<u64>)
    ensures
        match r {
            Some(d) => digit_value(c) == Some(d as nat) && d < 10,
            None => digit_value(c) is None,
        },
{
    if c == '0' {
        Some(0)
    } else if c == '1' {
        Some(1)
    } else if c == '2' {
        Some(2)
    } else if c == '3' {
        Some(3)
    } else if c == '4' {
        Some(4)
    } else if c == '5' {
        Some(5)
    } else if c == '6' {
        Some(6)
    } else if c == '7' {
        Some(7)
    } else if c == '8' {
        Some(8)
    } else if c == '9' {
        Some(9)
    } else {
        None
    }
}

/// The number that a text stands for, if it stands for one.
pub fn parse_number(text: &str) -> (r: Option<u32>)
    ensures
        r == typed_number(text@),
{
    let chars = chars_of(text);
    let start: usize = if chars.len() > 0 && chars[0] == '+' {
        1
    } else {
        0
    };
    let ghost digits = chars@.skip(start as int);
    assert(chars@.skip(0) == chars@);
    if start == chars.len() {
        return None;
    }
    let mut value: u64 = 0;
    let mut i: usize = start;
    assert(digits.take(0) == Seq::<char>::empty());
    while i < chars.len()
        invariant
            start <= i <= chars.len(),
            start < chars.len(),
            chars@ == text@,
            digits == if text@.len() > 0 && text@[0] == '+' {
                text@.skip(1)
            } else {
                text@
            },
            digits == chars@.skip(start as int),
            all_digits(digits.take(i - start)),
            value == digits_value(digits.take(i - start)),
            value <= u32::MAX,
        decreases chars.len() - i,
    {
        let ghost upto = digits.take(i - start + 1);
        proof {
            assert(upto.drop_last() == digits.take(i - start));
            assert(upto.last() == chars@[i as int]);
        }
        match digit_of(chars[i]) {
            Some(d) => {
                let next = value * 10 + d;
                if next > u32::MAX as u64 {
                    proof {
                        lemma_digits_grow(digits, i - start + 1);
                    }
                    return None;
                }
                value = next;
                assert(all_digits(upto)) by {
                    assert forall|k: int| 0 <= k < upto.len() implies (#[trigger] digit_value(
                        upto[k],
                    )) is Some by {
                        if k < upto.len() - 1 {
                            assert(upto[k] == digits.take(i - start)[k]);
                        }
                    }
                }
            },
            None => {
                assert(digit_value(digits[i - start]) is None);
                return None;
            },
        }
        i = i + 1;
    }
    assert(digits.take(chars.len() - start) == digits);
    Some(value as u32)
}

/// A custom limit after the user typed `text` into its field.
pub fn custom_from_text(text: &str, current: u32) -> (r: u32)
    ensures
        r == typed_limit(text@, current),
{
    match parse_number(text) {
        Some(n) => clamp_custom(n),
        None => current,
    }
}

/// What the selector shows for a backend.
pub fn backend_label(backend: &str) -> (r: &'static str)
    ensures
        r@ == backend_text(backend@),
{
    let name = chars_of(backend);
    if same_chars(&name, &chars_of("nvtt3")) {
        "NVTT3 (CUDA) - Fast"
    } else if same_chars(&name, &chars_of("texconv")) {
        "texconv (Wine)"
    } else {
        "Auto (Best Available)"
    }
}

/// The view of an optional string slice.
pub open spec fn opt_str_view(s: Option<&str>) -> Option<Seq<char>> {
    match s {
        Some(text) => Some(text@),
        None => None,
    }
}

impl ProgressState {
    /// The display before anything has run.
    pub fn new() -> (r: Self)
        ensures
            r@ == (ProgressView {
                is_running: false,
                progress_current: 0,
                progress_total: 0,
                progress_message: "Ready"@,
                log_messages: Seq::empty(),
                scroll_to_bottom: false,
            }),
    {
        let r = ProgressState {
            is_running: false,
            progress_current: 0,
            progress_total: 0,
            progress_message: "Ready".to_owned(),
            log_messages: Vec::new(),
            scroll_to_bottom: false,
        };
        assert(string_views(r.log_messages@) == Seq::<Seq<char>>::empty());
        r
    }

    /// The display at the start of a run.
    pub fn start(&mut self)
        ensures
            final(self)@ == (ProgressView {
                is_running: true,
                progress_current: 0,
                progress_total: 0,
                progress_message: "Starting..."@,
                log_messages: Seq::empty(),
                scroll_to_bottom: old(self).scroll_to_bottom,
            }),
    {
        self.is_running = true;
        self.progress_current = 0;
        self.progress_total = 0;
        self.progress_message = "Starting...".to_owned();
        self.log_messages = Vec::new();
        assert(string_views(self.log_messages@) == Seq::<Seq<char>>::empty());
    }

    /// Takes a message from the worker in. Says whether the run has ended
    /// with it.
    pub fn apply(&mut self, message: WorkerMessage) -> (completed: bool)
        ensures
            final(self)@ == after_message(old(self)@, message@),
            completed == (message is Complete),
    {
        let ghost logs = self.log_messages@;
        match message {
            WorkerMessage::Progress { current, total, message } => {
                self.progress_current = current;
                self.progress_total = total;
                self.progress_message = message;
                false
            },
            WorkerMessage::Log(line) => {
                let ghost text = line@;
                self.log_messages.push(line);
                self.scroll_to_bottom = true;
                assert(string_views(self.log_messages@) == string_views(logs).push(text));
                false
            },
            WorkerMessage::Complete { success, message } => {
                let mut line: Vec<char> = Vec::new();
                push_str(&mut line, "=== ");
                push_str(&mut line, message.as_str());
                push_str(&mut line, " ===");
                let announced = string_of(&line);
                assert(announced@ == banner(message@));
                self.is_running = false;
                self.progress_message = message;
                self.log_messages.push(announced);
                self.scroll_to_bottom = true;
                assert(string_views(self.log_messages@) == string_views(logs).push(
                    announced@,
                ));
                true
            },
        }
    }
}

} // verus!
