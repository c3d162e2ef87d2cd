//! Taking a preview of a window that is about to be minimized: the files,
//! the steps that make them, and what becomes of the preview when a step
//! fails.

use vstd::prelude::*;
use vstd::string::StringExecFns;
use crate::number::{digits, push_digits};
use crate::paths::{preview_dir, preview_dir_path};

verus! {

/// One step of taking a preview.
#[derive(Debug)]
pub enum PreviewStep {
    /// Take a screenshot of the region `geometry` of the screen into `output`.
    Screenshot { geometry: String, output: String },
    /// Scale `input` so that it fills `width` by `height`, cut what stands
    /// over around the centre, and write the image to `output` at `quality`.
    Resize { input: String, width: u32, height: u32, quality: u32, output: String },
    /// Delete the file at `path`.
    Remove { path: String },
}

/// The mathematical content of a `PreviewStep`.
pub enum StepModel {
    Screenshot { geometry: Seq<char>, output: Seq<char> },
    Resize { input: Seq<char>, width: u32, height: u32, quality: u32, output: Seq<char> },
    Remove { path: Seq<char> },
}

impl View for PreviewStep {
    type V = StepModel;

    open spec fn view(&self) -> StepModel {
        match self {
            PreviewStep::Screenshot { geometry, output } => StepModel::Screenshot {
                geometry: geometry@,
                output: output@,
            },
            PreviewStep::Resize { input, width, height, quality, output } => StepModel::Resize {
                input: input@,
                width: *width,
                height: *height,
                quality: *quality,
                output: output@,
            },
            PreviewStep::Remove { path } => StepModel::Remove { path: path@ },
        }
    }
}

impl DeepView for PreviewStep {
    type V = StepModel;

    open spec fn deep_view(&self) -> StepModel {
        self@
    }
}

impl PartialEq for PreviewStep {
    fn eq(&self, other: &Self) -> (same: bool) {
        match (self, other) {
            (
                PreviewStep::Screenshot { geometry: g1, output: o1 },
                PreviewStep::Screenshot { geometry: g2, output: o2 },
            ) => *g1 == *g2 && *o1 == *o2,
            (
                PreviewStep::Resize { input: i1, width: w1, height: h1, quality: q1, output: o1 },
                PreviewStep::Resize { input: i2, width: w2, height: h2, quality: q2, output: o2 },
            ) => *i1 == *i2 && *w1 == *w2 && *h1 == *h2 && *q1 == *q2 && *o1 == *o2,
            (PreviewStep::Remove { path: p1 }, PreviewStep::Remove { path: p2 }) => *p1 == *p2,
            _ => false,
        }
    }
}

impl vstd::std_specs::cmp::PartialEqSpecImpl for PreviewStep {
    open spec fn obeys_eq_spec() -> bool {
        true
    }

    open spec fn eq_spec(&self, other: &Self) -> bool {
        self@ == other@
    }
}

/// The steps that take the preview of one window, and the file that is the
/// preview when all of them have succeeded.
#[derive(Debug)]
pub struct PreviewPlan {
    /// The steps, in the order in which they are taken.
    pub steps: Vec<PreviewStep>,
    /// The path of the thumbnail.
    pub thumbnail: String,
}

/// The mathematical content of a `PreviewPlan`.
pub struct PlanModel {
    pub steps: Seq<StepModel>,
    pub thumbnail: Seq<char>,
}

impl View for PreviewPlan {
    type V = PlanModel;

    open spec fn view(&self) -> PlanModel {
        PlanModel { steps: self.steps.deep_view(), thumbnail: self.thumbnail@ }
    }
}

/// The path of a file of the window `window_id` in the directory `dir`.
pub open spec fn preview_file(dir: Seq<char>, window_id: Seq<char>, ending: Seq<char>) -> Seq<char> {
    dir + "/"@ + window_id + ending
}

/// The plan for the preview of the window `window_id`, with the files in
/// `dir`: a screenshot of the window's region; from it a thumbnail of 200 by
/// 150 for menus and an icon of 64 by 64, both at quality 90; and last the
/// removal of the screenshot itself. The files are named by the window, so
/// that a later preview of the same window takes the place of this one.
pub open spec fn preview_plan(dir: Seq<char>, window_id: Seq<char>, geometry: Seq<char>) -> PlanModel {
    let screenshot = preview_file(dir, window_id, ".png"@);
    let thumbnail = preview_file(dir, window_id, ".thumb.png"@);
    let icon = preview_file(dir, window_id, ".icon.png"@);
    PlanModel {
        steps: seq![
            StepModel::Screenshot { geometry, output: screenshot },
            StepModel::Resize { input: screenshot, width: 200, height: 150, quality: 90, output: thumbnail },
            StepModel::Resize { input: screenshot, width: 64, height: 64, quality: 90, output: icon },
            StepModel::Remove { path: screenshot },
        ],
        thumbnail,
    }
}

fn file_in(dir: &str, window_id: &str, ending: &str) -> (path: String)
    ensures
        path@ == preview_file(dir@, window_id@, ending@),
{
    let mut path = String::from_str(dir);
    path.append("/");
    path.append(window_id);
    path.append(ending);
    path
}

/// Plans the preview of a window, with the files in `dir`.
pub fn plan_preview(dir: &str, window_id: &str, geometry: &str) -> (plan: PreviewPlan)
    ensures
        plan@ == preview_plan(dir@, window_id@, geometry@),
{
    let screenshot = file_in(dir, window_id, ".png");
    let thumbnail = file_in(dir, window_id, ".thumb.png");
    let icon = file_in(dir, window_id, ".icon.png");
    let mut steps: Vec<PreviewStep> = Vec::new();
    steps.push(
        PreviewStep::Screenshot { geometry: String::from_str(geometry), output: screenshot.clone() },
    );
    steps.push(
        PreviewStep::Resize {
            input: screenshot.clone(),
            width: 200,
            height: 150,
            quality: 90,
            output: thumbnail.clone(),
        },
    );
    steps.push(
        PreviewStep::Resize {
            input: screenshot.clone(),
            width: 64,
            height: 64,
            quality: 90,
            output: icon,
        },
    );
    steps.push(PreviewStep::Remove { path: screenshot });
    let plan = PreviewPlan { steps, thumbnail };
    assert(plan@.steps =~= preview_plan(dir@, window_id@, geometry@).steps);
    plan
}

/// Plans the preview of a window, with the files in the directory of the
/// previews.
pub fn capture_window_preview(window_id: &str, geometry: &str) -> (plan: PreviewPlan)
    ensures
        plan@ == preview_plan(preview_dir_path(), window_id@, geometry@),
{
    plan_preview(preview_dir(), window_id, geometry)
}

/// Whether every one of `results` is a success.
pub open spec fn all_succeeded(results: Seq<bool>) -> bool {
    forall|i: int| 0 <= i < results.len() ==> #[trigger] results[i]
}

/// Tests whether every one of `results` is a success.
pub fn none_failed(results: &Vec<bool>) -> (fine: bool)
    ensures
        fine == all_succeeded(results@),
{
    let mut i: usize = 0;
    while i < results.len()
        invariant
            i <= results.len(),
            forall|j: int| 0 <= j < i ==> #[trigger] results@[j],
        decreases results.len() - i,
    {
        if !results[i] {
            return false;
        }
        i += 1;
    }
    true
}

/// The step to take next, when the steps before it have ended as `results`
/// tells, one entry for each step taken. There is a next step as long as no
/// step has failed and steps are left: the first failure ends the taking of
/// the preview.
pub fn next_step<'a>(plan: &'a PreviewPlan, results: &Vec<bool>) -> (step: Option<&'a PreviewStep>)
    ensures
        step is Some <==> all_succeeded(results@) && results.len() < plan.steps.len(),
        step matches Some(s) ==> *s == plan.steps[results.len() as int],
{
    if results.len() < plan.steps.len() && none_failed(results) {
        Some(&plan.steps[results.len()])
    } else {
        None
    }
}

/// The preview that was taken: the thumbnail if every step of the plan was
/// taken and succeeded, and none otherwise. A window without a preview is
/// minimized all the same.
pub fn preview_result(plan: &PreviewPlan, results: &Vec<bool>) -> (preview: Option<String>)
    ensures
        preview is Some <==> all_succeeded(results@) && results.len() == plan.steps.len(),
        preview matches Some(path) ==> path@ == plan.thumbnail@,
{
    if results.len() == plan.steps.len() && none_failed(results) {
        Some(plan.thumbnail.clone())
    } else {
        None
    }
}

/// A program to run, with its arguments.
#[derive(Debug)]
pub struct ToolCall {
    pub program: String,
    pub args: Vec<String>,
}

/// The mathematical content of a `ToolCall`.
pub struct ToolModel {
    pub program: Seq<char>,
    pub args: Seq<Seq<char>>,
}

impl View for ToolCall {
    type V = ToolModel;

    open spec fn view(&self) -> ToolModel {
        ToolModel { program: self.program@, args: self.args.deep_view() }
    }
}

/// A size as the image tool takes it: width, the letter x, height.
pub open spec fn size_text(width: u32, height: u32) -> Seq<char> {
    digits(width as nat) + "x"@ + digits(height as nat)
}

/// The program that takes a step, with its arguments. The removal of a file
/// needs no program.
pub open spec fn tool_for(step: StepModel) -> Option<ToolModel> {
    match step {
        StepModel::Screenshot { geometry, output } => Some(
            ToolModel { program: "grim"@, args: seq!["-g"@, geometry, output] },
        ),
        StepModel::Resize { input, width, height, quality, output } => Some(
            ToolModel {
                program: "convert"@,
                args: seq![
                    input,
                    "-resize"@,
                    size_text(width, height) + "^"@,
                    "-gravity"@,
                    "center"@,
                    "-extent"@,
                    size_text(width, height),
                    "-quality"@,
                    digits(quality as nat),
                    output,
                ],
            },
        ),
        StepModel::Remove { path } => None,
    }
}

fn size_of(width: u32, height: u32) -> (text: String)
    ensures
        text@ == size_text(width, height),
{
    let mut text = String::new();
    push_digits(&mut text, width as u64);
    text.append("x");
    push_digits(&mut text, height as u64);
    assert(text@ =~= size_text(width, height));
    text
}

/// Writes out the program that takes a step, with its arguments.
pub fn tool_call(step: &PreviewStep) -> (call: Option<ToolCall>)
    ensures
        match call {
            Some(tool) => tool_for(step@) == Some(tool@),
            None => tool_for(step@) is None,
        },
{
    match step {
        PreviewStep::Screenshot { geometry, output } => {
            let mut args: Vec<String> = Vec::new();
            args.push(String::from_str("-g"));
            args.push(geometry.clone());
            args.push(output.clone());
            let call = ToolCall { program: String::from_str("grim"), args };
            assert(call@.args =~= tool_for(step@)->0.args);
            Some(call)
        },
        PreviewStep::Resize { input, width, height, quality, output } => {
            let mut fill = size_of(*width, *height);
            fill.append("^");
            let mut level = String::new();
            push_digits(&mut level, *quality as u64);
            assert(level@ =~= digits(*quality as nat));
            let mut args: Vec<String> = Vec::new();
            args.push(input.clone());
            args.push(String::from_str("-resize"));
            args.push(fill);
            args.push(String::from_str("-gravity"));
            args.push(String::from_str("center"));
            args.push(String::from_str("-extent"));
            args.push(size_of(*width, *height));
            args.push(String::from_str("-quality"));
            args.push(level);
            args.push(output.clone());
            let call = ToolCall { program: String::from_str("convert"), args };
            assert(call@.args =~= tool_for(step@)->0.args);
            Some(call)
        },
        PreviewStep::Remove { path } => None,
    }
}

} // verus!
