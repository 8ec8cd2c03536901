use alkane::command::{deploy_exit_code, ToStatusCode, DEPLOY_FAILURE};
use alkane::deploy::{AlkaneDeployError, DeployError};
use alkane::runner::{ProcessOutcome, RecipeStatus};

#[test]
fn exit_codes_are_read_as_statuses() {
    assert_eq!(RecipeStatus::Success, RecipeStatus::from_status_code(0));
    assert_eq!(RecipeStatus::Warning, RecipeStatus::from_status_code(1));
    assert_eq!(RecipeStatus::Error, RecipeStatus::from_status_code(2));
    assert_eq!(RecipeStatus::Unknown, RecipeStatus::from_status_code(3));
    assert_eq!(RecipeStatus::Unknown, RecipeStatus::from_status_code(4));
    assert_eq!(RecipeStatus::Unknown, RecipeStatus::from_status_code(-1));
    assert_eq!(RecipeStatus::Unknown, RecipeStatus::from_status_code(127));
    assert_eq!(RecipeStatus::Unknown, RecipeStatus::from_status_code(i32::MAX));
    assert_eq!(RecipeStatus::Unknown, RecipeStatus::from_status_code(i32::MIN));
}

#[test]
fn statuses_have_exit_codes() {
    assert_eq!(0, RecipeStatus::Success.to_status_code());
    assert_eq!(1, RecipeStatus::Warning.to_status_code());
    assert_eq!(2, RecipeStatus::Error.to_status_code());
    assert_eq!(3, RecipeStatus::Unknown.to_status_code());
}

#[test]
fn codes_and_statuses_answer_each_other() {
    for code in 0..=3 {
        assert_eq!(code, RecipeStatus::from_status_code(code).to_status_code());
    }
    for status in [
        RecipeStatus::Success,
        RecipeStatus::Warning,
        RecipeStatus::Error,
        RecipeStatus::Unknown,
    ] {
        assert_eq!(status, RecipeStatus::from_status_code(status.to_status_code()));
    }
    for code in [-2, -1, 4, 5, 16, 255, 256] {
        assert_ne!(code, RecipeStatus::from_status_code(code).to_status_code());
    }
}

#[test]
fn end_of_a_process_is_read_as_a_status() {
    assert_eq!(
        RecipeStatus::Success,
        RecipeStatus::from_outcome(ProcessOutcome::Exited { code: 0 })
    );
    assert_eq!(
        RecipeStatus::Warning,
        RecipeStatus::from_outcome(ProcessOutcome::Exited { code: 1 })
    );
    assert_eq!(
        RecipeStatus::Error,
        RecipeStatus::from_outcome(ProcessOutcome::Exited { code: 2 })
    );
    assert_eq!(
        RecipeStatus::Unknown,
        RecipeStatus::from_outcome(ProcessOutcome::Exited { code: 42 })
    );
    assert_eq!(RecipeStatus::Unknown, RecipeStatus::from_outcome(ProcessOutcome::Signaled));
    assert_eq!(RecipeStatus::Error, RecipeStatus::from_outcome(ProcessOutcome::NotSpawned));
}

#[test]
fn answers_have_exit_codes() {
    assert_eq!(0, true.to_status_code());
    assert_eq!(1, false.to_status_code());
    assert_eq!(0, Some("site").to_status_code());
    assert_eq!(1, None::<String>.to_status_code());
    assert_eq!(0, Ok::<u8, String>(7).to_status_code());
    assert_eq!(1, Err::<u8, String>(String::from("no")).to_status_code());
}

#[test]
fn deployments_have_exit_codes() {
    assert_eq!(0, deploy_exit_code(&Ok(RecipeStatus::Success)));
    assert_eq!(1, deploy_exit_code(&Ok(RecipeStatus::Warning)));
    assert_eq!(2, deploy_exit_code(&Ok(RecipeStatus::Error)));
    assert_eq!(3, deploy_exit_code(&Ok(RecipeStatus::Unknown)));
    let error = DeployError::Alkane(AlkaneDeployError::new(
        "Can't resolve site path",
        "acme.org",
        "init",
    ));
    assert_eq!(16, deploy_exit_code(&Err(error)));
    assert_eq!(16, DEPLOY_FAILURE);
}

#[test]
fn errors_name_the_action_and_the_site() {
    let error = AlkaneDeployError::new("Can't resolve site path", "acme.org", "update");
    assert_eq!("Can't resolve site path", error.message);
    assert_eq!("acme.org", error.site_name);
    assert_eq!("update", error.action);
    assert_eq!(
        "Can't run deployment action 'update' for site 'acme.org': Can't resolve site path",
        error.to_text()
    );
    assert_eq!(
        "Can't run deployment action 'update' for site 'acme.org': Can't resolve site path",
        DeployError::Alkane(error).to_text()
    );
}

#[test]
fn errors_take_any_text() {
    let error = AlkaneDeployError::new("", "", "");
    assert_eq!("Can't run deployment action '' for site '': ", error.to_text());
}
