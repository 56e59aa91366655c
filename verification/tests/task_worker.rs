use chunkmydocs::task::{
    orchestrate_task, resolve_step, status_after_step, task_failure_update, PipelineStep, Status,
    TaskAction, TaskRun,
};

#[test]
fn steps_in_order() {
    assert_eq!(orchestrate_task(), vec!["update_metadata", "convert_to_images", "pages"]);
}

#[test]
fn steps_resolve_by_name() {
    assert_eq!(resolve_step("convert_to_images").unwrap(), PipelineStep::ConvertToImages);
    assert_eq!(resolve_step("pages").unwrap(), PipelineStep::Pages);
    assert_eq!(resolve_step("update_metadata").unwrap(), PipelineStep::UpdateMetadata);
    assert_eq!(resolve_step("ocr").unwrap_err(), "Unknown function: ocr");
    assert_eq!(resolve_step("").unwrap_err(), "Unknown function: ");
}

#[test]
fn status_after_step_defaults_message() {
    assert_eq!(status_after_step(Status::Processing, None), (Status::Processing, String::new()));
    assert_eq!(
        status_after_step(Status::Failed, Some("bad page".to_string())),
        (Status::Failed, "bad page".to_string())
    );
}

fn step_name(a: &TaskAction) -> Option<&'static str> {
    match a {
        TaskAction::RunStep(n) => Some(n),
        _ => None,
    }
}

#[test]
fn run_through_all_steps() {
    let (mut run, first) = TaskRun::start();
    assert_eq!(step_name(&first), Some("update_metadata"));
    assert_eq!(step_name(&run.after_step(Status::Processing)), Some("convert_to_images"));
    assert_eq!(step_name(&run.after_step(Status::Processing)), Some("pages"));
    match run.after_step(Status::Processing) {
        TaskAction::Conclude(s, m) => {
            assert_eq!(s, Status::Failed);
            assert_eq!(m, "Task succeeded");
        }
        other => panic!("unexpected {:?}", other),
    }
}

#[test]
fn run_stops_when_not_processing() {
    let (mut run, _) = TaskRun::start();
    assert!(matches!(run.after_step(Status::Succeeded), TaskAction::Stop));
    assert_eq!(step_name(&run.after_step(Status::Processing)), Some("convert_to_images"));
    assert!(matches!(run.after_step(Status::Failed), TaskAction::Stop));
}

#[test]
fn failure_messages() {
    assert_eq!(task_failure_update(3, 3), (Status::Failed, "Task failed".to_string()));
    assert_eq!(task_failure_update(5, 3), (Status::Failed, "Task failed".to_string()));
    assert_eq!(task_failure_update(1, 3), (Status::Failed, "Retrying task 1/3".to_string()));
    assert_eq!(task_failure_update(0, 10), (Status::Failed, "Retrying task 0/10".to_string()));
}
