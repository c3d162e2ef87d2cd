use minhypr::preview::{
    capture_window_preview, next_step, none_failed, plan_preview, preview_result, tool_call,
    PreviewStep,
};

#[test]
fn the_plan_has_four_steps_in_order() {
    let plan = plan_preview("/p", "0xabc", "10,20 300x200");
    assert_eq!(plan.thumbnail, "/p/0xabc.thumb.png");
    assert_eq!(
        plan.steps,
        vec![
            PreviewStep::Screenshot {
                geometry: "10,20 300x200".to_string(),
                output: "/p/0xabc.png".to_string(),
            },
            PreviewStep::Resize {
                input: "/p/0xabc.png".to_string(),
                width: 200,
                height: 150,
                quality: 90,
                output: "/p/0xabc.thumb.png".to_string(),
            },
            PreviewStep::Resize {
                input: "/p/0xabc.png".to_string(),
                width: 64,
                height: 64,
                quality: 90,
                output: "/p/0xabc.icon.png".to_string(),
            },
            PreviewStep::Remove { path: "/p/0xabc.png".to_string() },
        ]
    );
}

#[test]
fn the_files_lie_in_the_directory_of_the_previews() {
    let plan = capture_window_preview("0xabc", "1,2 3x4");
    assert_eq!(plan.thumbnail, "/tmp/minhypr-previews/0xabc.thumb.png");
    assert_eq!(plan.steps, plan_preview("/tmp/minhypr-previews", "0xabc", "1,2 3x4").steps);
}

#[test]
fn a_second_preview_of_a_window_uses_the_same_files() {
    let first = capture_window_preview("0xabc", "1,2 3x4");
    let second = capture_window_preview("0xabc", "5,6 7x8");
    assert_eq!(first.thumbnail, second.thumbnail);
    assert_eq!(first.steps[3], second.steps[3]);
}

#[test]
fn the_steps_are_taken_one_after_the_other() {
    let plan = capture_window_preview("0xabc", "1,2 3x4");
    let mut results = Vec::new();
    for at in 0..4 {
        assert_eq!(next_step(&plan, &results), Some(&plan.steps[at]));
        assert_eq!(preview_result(&plan, &results), None);
        results.push(true);
    }
    assert_eq!(next_step(&plan, &results), None);
    assert_eq!(preview_result(&plan, &results), Some(plan.thumbnail.clone()));
}

#[test]
fn a_failure_at_any_step_ends_the_pipeline_without_a_preview() {
    let plan = capture_window_preview("0xabc", "1,2 3x4");
    for failing in 0..4 {
        let mut results = vec![true; failing];
        results.push(false);
        assert_eq!(next_step(&plan, &results), None, "step {}", failing);
        assert_eq!(preview_result(&plan, &results), None, "step {}", failing);
    }
}

#[test]
fn results_beyond_the_plan_give_no_preview() {
    let plan = capture_window_preview("0xabc", "1,2 3x4");
    let results = vec![true; 5];
    assert_eq!(next_step(&plan, &results), None);
    assert_eq!(preview_result(&plan, &results), None);
}

#[test]
fn none_failed_holds_of_successes_only() {
    assert!(none_failed(&vec![]));
    assert!(none_failed(&vec![true, true]));
    assert!(!none_failed(&vec![true, false, true]));
    assert!(!none_failed(&vec![false]));
}

#[test]
fn the_screenshot_is_taken_by_grim() {
    let plan = plan_preview("/p", "0xabc", "10,20 300x200");
    let call = tool_call(&plan.steps[0]).unwrap();
    assert_eq!(call.program, "grim");
    assert_eq!(call.args, vec!["-g", "10,20 300x200", "/p/0xabc.png"]);
}

#[test]
fn the_thumbnail_is_made_by_convert() {
    let plan = plan_preview("/p", "0xabc", "10,20 300x200");
    let call = tool_call(&plan.steps[1]).unwrap();
    assert_eq!(call.program, "convert");
    assert_eq!(
        call.args,
        vec![
            "/p/0xabc.png",
            "-resize",
            "200x150^",
            "-gravity",
            "center",
            "-extent",
            "200x150",
            "-quality",
            "90",
            "/p/0xabc.thumb.png",
        ]
    );
}

#[test]
fn the_icon_is_made_by_convert() {
    let plan = plan_preview("/p", "0xabc", "10,20 300x200");
    let call = tool_call(&plan.steps[2]).unwrap();
    assert_eq!(call.program, "convert");
    assert_eq!(
        call.args,
        vec![
            "/p/0xabc.png",
            "-resize",
            "64x64^",
            "-gravity",
            "center",
            "-extent",
            "64x64",
            "-quality",
            "90",
            "/p/0xabc.icon.png",
        ]
    );
}

#[test]
fn the_removal_needs_no_program() {
    let plan = plan_preview("/p", "0xabc", "10,20 300x200");
    assert!(tool_call(&plan.steps[3]).is_none());
}
