//! The decisions of a background run: which preset the settings name,
//! where its paths lie, and what each step reports.

use vstd::prelude::*;
use crate::game::Game;
use crate::gui::{AppSettings, MessageView, WorkerMessage};
use crate::paths::{join_path, joined};
use crate::presets::OptimizationPreset;
use crate::text::{chars_of, push_str, same_chars, slice_of, starts_with, string_of};

verus! {

/// Runs an optimization in the background.
pub struct OptimizationWorker;

/// The steps of a run, in order.
#[derive(Debug, Clone, Copy, PartialEq, Eq, Structural)]
pub enum Step {
    LoadProfile,
    BuildNamespace,
    Discover,
    LoadExclusions,
    Filter,
    Extract,
    Optimize,
}

/// How many steps the progress display counts.
pub const STEP_TOTAL: usize = 6;

/// The number a step shows as done when it begins.
pub open spec fn step_number(step: Step) -> usize {
    match step {
        Step::LoadProfile => 0,
        Step::BuildNamespace => 1,
        Step::Discover => 2,
        Step::LoadExclusions => 3,
        Step::Filter => 4,
        Step::Extract => 5,
        Step::Optimize => 6,
    }
}

/// What the display says while a step runs.
pub open spec fn step_text(step: Step) -> Seq<char> {
    match step {
        Step::LoadProfile => "Loading MO2 profile..."@,
        Step::BuildNamespace => "Building virtual file system..."@,
        Step::Discover => "Discovering textures..."@,
        Step::LoadExclusions => "Loading exclusions..."@,
        Step::Filter => "Filtering textures..."@,
        Step::Extract => "Extracting textures..."@,
        Step::Optimize => "Optimizing textures..."@,
    }
}

/// The step that follows, if any.
pub open spec fn step_after(step: Step) -> Option<Step> {
    match step {
        Step::LoadProfile => Some(Step::BuildNamespace),
        Step::BuildNamespace => Some(Step::Discover),
        Step::Discover => Some(Step::LoadExclusions),
        Step::LoadExclusions => Some(Step::Filter),
        Step::Filter => Some(Step::Extract),
        Step::Extract => Some(Step::Optimize),
        Step::Optimize => None,
    }
}

/// The preset that a name stands for: one of the five built-in ones, the
/// custom limits of the settings for `Custom`, and the usual one for any
/// other name.
pub open spec fn named_preset(settings: AppSettings) -> (u32, u32, u32, u32) {
    let name = settings.preset@;
    if name == "HighQuality"@ {
        (2048, 2048, 1024, 1024)
    } else if name == "Quality"@ {
        (2048, 1024, 1024, 1024)
    } else if name == "Optimum"@ {
        (2048, 1024, 512, 512)
    } else if name == "Performance"@ {
        (2048, 512, 512, 512)
    } else if name == "Vanilla"@ {
        (512, 512, 512, 512)
    } else if name == "Custom"@ {
        (
            settings.custom_diffuse,
            settings.custom_normal,
            settings.custom_parallax,
            settings.custom_material,
        )
    } else {
        (2048, 1024, 512, 512)
    }
}

/// What `~` at the start of a path stands for, resolved: the rest of the
/// path taken from the home directory, where that is known.
pub open spec fn home_form(path: Seq<char>, home: Option<Seq<char>>) -> Seq<char> {
    if path.len() > 0 && path[0] == '~' {
        match home {
            Some(dir) => if "~/"@.is_prefix_of(path) {
                joined(dir, path.skip(2))
            } else {
                joined(dir, path.skip(1))
            },
            None => path,
        }
    } else {
        path
    }
}

/// A path of the settings in full: `~` resolved, and a relative path
/// taken from the current directory.
pub open spec fn expanded(path: Seq<char>, home: Option<Seq<char>>, current_dir: Seq<char>) -> Seq<
    char,
> {
    let resolved = home_form(path, home);
    if resolved.len() > 0 && resolved[0] == '/' {
        resolved
    } else {
        joined(current_dir, resolved)
    }
}

impl Step {
    /// The number the step shows as done when it begins.
    pub fn number(&self) -> (r: usize)
        ensures
            r == step_number(*self),
            r <= STEP_TOTAL,
    {
        match self {
            Step::LoadProfile => 0,
            Step::BuildNamespace => 1,
            Step::Discover => 2,
            Step::LoadExclusions => 3,
            Step::Filter => 4,
            Step::Extract => 5,
            Step::Optimize => 6,
        }
    }

    /// What the display says while the step runs.
    pub fn message(&self) -> (r: &'static str)
        ensures
            r@ == step_text(*self),
    {
        match self {
            Step::LoadProfile => "Loading MO2 profile...",
            Step::BuildNamespace => "Building virtual file system...",
            Step::Discover => "Discovering textures...",
            Step::LoadExclusions => "Loading exclusions...",
            Step::Filter => "Filtering textures...",
            Step::Extract => "Extracting textures...",
            Step::Optimize => "Optimizing textures...",
        }
    }

    /// The step to take next: none after the last one, and none once the
    /// run was cancelled.
    pub fn next(&self, cancelled: bool) -> (r: Option<Step>)
        ensures
            r == if cancelled {
                None
            } else {
                step_after(*self)
            },
    {
        if cancelled {
            return None;
        }
        match self {
            Step::LoadProfile => Some(Step::BuildNamespace),
            Step::BuildNamespace => Some(Step::Discover),
            Step::Discover => Some(Step::LoadExclusions),
            Step::LoadExclusions => Some(Step::Filter),
            Step::Filter => Some(Step::Extract),
            Step::Extract => Some(Step::Optimize),
            Step::Optimize => None,
        }
    }
}

fn named(text: &Vec<char>, literal: &str) -> (r: bool)
    ensures
        r == (text@ == literal@),
{
    same_chars(text, &chars_of(literal))
}

impl OptimizationWorker {
    /// The preset that the settings name.
    pub fn preset_for(settings: &AppSettings) -> (preset: OptimizationPreset)
        ensures
            (
                preset.diffuse_max,
                preset.normal_max,
                preset.parallax_max,
                preset.material_max,
            ) == named_preset(*settings),
    {
        let name = chars_of(settings.preset.as_str());
        if named(&name, "HighQuality") {
            OptimizationPreset::hq()
        } else if named(&name, "Quality") {
            OptimizationPreset::quality()
        } else if named(&name, "Optimum") {
            OptimizationPreset::optimum()
        } else if named(&name, "Performance") {
            OptimizationPreset::performance()
        } else if named(&name, "Vanilla") {
            OptimizationPreset::vanilla()
        } else if named(&name, "Custom") {
            OptimizationPreset {
                name: "Custom",
                diffuse_max: settings.custom_diffuse,
                normal_max: settings.custom_normal,
                parallax_max: settings.custom_parallax,
                material_max: settings.custom_material,
            }
        } else {
            OptimizationPreset::optimum()
        }
    }

    /// A path of the settings in full, given the home directory, where it
    /// is known, and the current directory.
    pub fn expand_path(path_str: &str, home: Option<&str>, current_dir: &str) -> (r: String)
        ensures
            r@ == expanded(
                path_str@,
                match home {
                    Some(dir) => Some(dir@),
                    None => None,
                },
                current_dir@,
            ),
    {
        let path = chars_of(path_str);
        let resolved = if path.len() > 0 && path[0] == '~' {
            match home {
                Some(dir) => {
                    let rest = if starts_with(&path, &chars_of("~/")) {
                        proof {
                            reveal_strlit("~/");
                        }
                        slice_of(&path, 2, path.len())
                    } else {
                        slice_of(&path, 1, path.len())
                    };
                    join_path(dir, string_of(&rest).as_str())
                },
                None => path_str.to_owned(),
            }
        } else {
            path_str.to_owned()
        };
        let chars = chars_of(resolved.as_str());
        if chars.len() > 0 && chars[0] == '/' {
            resolved
        } else {
            join_path(current_dir, resolved.as_str())
        }
    }
}

/// What the log says when a step begins.
pub open spec fn step_log(step: Step) -> Seq<char> {
    match step {
        Step::LoadProfile => "Step 1/6: Loading MO2 profile..."@,
        Step::BuildNamespace => "Step 2/6: Building virtual file system..."@,
        Step::Discover => "Step 3/6: Discovering textures..."@,
        Step::LoadExclusions => "Step 4/6: Loading exclusions..."@,
        Step::Filter => "Step 5/6: Filtering textures for optimization..."@,
        Step::Extract => "Step 6/6: Extracting and optimizing textures..."@,
        Step::Optimize => "Running texconv optimization..."@,
    }
}

/// The messages with which a step begins: the progress, then the log
/// line.
pub open spec fn step_messages(step: Step) -> Seq<MessageView> {
    seq![
        MessageView::Progress {
            current: step_number(step),
            total: STEP_TOTAL,
            message: step_text(step),
        },
        MessageView::Log(step_log(step)),
    ]
}

/// The views of messages.
pub open spec fn message_views(messages: Seq<WorkerMessage>) -> Seq<MessageView> {
    messages.map_values(|m: WorkerMessage| m@)
}

/// The messages that end a run: the success, or the error in the log and
/// then the failure.
pub open spec fn closing(error: Option<Seq<char>>) -> Seq<MessageView> {
    match error {
        None => seq![
            MessageView::Complete {
                success: true,
                message: "Optimization completed successfully!"@,
            },
        ],
        Some(e) => seq![
            MessageView::Log("Error: "@ + e),
            MessageView::Complete { success: false, message: "Optimization failed: "@ + e },
        ],
    }
}

/// Where the rule file of a game is looked for.
pub open spec fn rule_file(game: Game) -> Seq<char> {
    "./exclusions/"@ + match game {
        Game::SkyrimSE => "SkyrimSE_Exclusions.txt"@,
        Game::Fallout4 => "Fallout4_Exclusions.txt"@,
    }
}

/// Where the converter is: in the current directory where it was found
/// there, else beside the program where it was found there, else
/// nowhere.
pub open spec fn converter_place(
    current_dir: Seq<char>,
    found_here: bool,
    program_dir: Option<Seq<char>>,
    found_beside: bool,
) -> Option<Seq<char>> {
    if found_here {
        Some(joined(current_dir, "texconv.exe"@))
    } else if program_dir is Some && found_beside {
        Some(joined(program_dir->0, "texconv.exe"@))
    } else {
        None
    }
}

impl Step {
    /// What the log says when the step begins.
    pub fn log_line(&self) -> (r: &'static str)
        ensures
            r@ == step_log(*self),
    {
        match self {
            Step::LoadProfile => "Step 1/6: Loading MO2 profile...",
            Step::BuildNamespace => "Step 2/6: Building virtual file system...",
            Step::Discover => "Step 3/6: Discovering textures...",
            Step::LoadExclusions => "Step 4/6: Loading exclusions...",
            Step::Filter => "Step 5/6: Filtering textures for optimization...",
            Step::Extract => "Step 6/6: Extracting and optimizing textures...",
            Step::Optimize => "Running texconv optimization...",
        }
    }

    /// The messages with which the step begins.
    pub fn announce(&self) -> (r: Vec<WorkerMessage>)
        ensures
            message_views(r@) == step_messages(*self),
    {
        let mut r: Vec<WorkerMessage> = Vec::new();
        r.push(
            WorkerMessage::Progress {
                current: self.number(),
                total: STEP_TOTAL,
                message: self.message().to_owned(),
            },
        );
        r.push(WorkerMessage::Log(self.log_line().to_owned()));
        assert(message_views(r@) == step_messages(*self));
        r
    }
}

fn with_prefix(prefix: &str, text: &str) -> (r: String)
    ensures
        r@ == prefix@ + text@,
{
    let mut chars: Vec<char> = Vec::new();
    push_str(&mut chars, prefix);
    push_str(&mut chars, text);
    string_of(&chars)
}

impl OptimizationWorker {
    /// The messages that end a run, given the error it ended with, if
    /// any.
    pub fn closing_messages(error: Option<&str>) -> (r: Vec<WorkerMessage>)
        ensures
            message_views(r@) == closing(
                match error {
                    Some(e) => Some(e@),
                    None => None,
                },
            ),
    {
        let mut r: Vec<WorkerMessage> = Vec::new();
        match error {
            None => {
                r.push(
                    WorkerMessage::Complete {
                        success: true,
                        message: "Optimization completed successfully!".to_owned(),
                    },
                );
                assert(message_views(r@) == closing(None));
            },
            Some(e) => {
                r.push(WorkerMessage::Log(with_prefix("Error: ", e)));
                r.push(
                    WorkerMessage::Complete {
                        success: false,
                        message: with_prefix("Optimization failed: ", e),
                    },
                );
                assert(message_views(r@) == closing(Some(e@)));
            },
        }
        r
    }

    /// Where the rule file of a game is looked for.
    pub fn exclusions_path(game: Game) -> (r: String)
        ensures
            r@ == rule_file(game),
    {
        with_prefix("./exclusions/", game.exclusions_file())
    }

    /// Where the converter is, given the current directory, the directory
    /// of the program where it is known, and whether the converter was
    /// found in each.
    pub fn locate_converter(
        current_dir: &str,
        found_here: bool,
        program_dir: Option<&str>,
        found_beside: bool,
    ) -> (r: Option<String>)
        ensures
            match r {
                Some(path) => converter_place(
                    current_dir@,
                    found_here,
                    match program_dir {
                        Some(d) => Some(d@),
                        None => None,
                    },
                    found_beside,
                ) == Some(path@),
                None => converter_place(
                    current_dir@,
                    found_here,
                    match program_dir {
                        Some(d) => Some(d@),
                        None => None,
                    },
                    found_beside,
                ) is None,
            },
    {
        if found_here {
            Some(join_path(current_dir, "texconv.exe"))
        } else {
            match program_dir {
                Some(dir) => if found_beside {
                    Some(join_path(dir, "texconv.exe"))
                } else {
                    None
                },
                None => None,
            }
        }
    }
}

} // verus!
