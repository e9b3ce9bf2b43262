use taildrop_notifier::prompt::{resolve_response, Decision, PromptResponse};

#[test]
fn accept_action_accepts() {
    let r = PromptResponse::Action("Accept".to_string());
    assert_eq!(resolve_response(&r), Decision::Accept);
}

#[test]
fn decline_action_declines() {
    let r = PromptResponse::Action("Decline".to_string());
    assert_eq!(resolve_response(&r), Decision::Decline);
}

#[test]
fn unrecognized_action_declines() {
    let r = PromptResponse::Action("open-settings".to_string());
    assert_eq!(resolve_response(&r), Decision::Decline);
    let r = PromptResponse::Action("accept".to_string());
    assert_eq!(resolve_response(&r), Decision::Decline);
    let r = PromptResponse::Action("".to_string());
    assert_eq!(resolve_response(&r), Decision::Decline);
}

#[test]
fn dismissal_declines() {
    assert_eq!(resolve_response(&PromptResponse::Dismissed), Decision::Decline);
}
