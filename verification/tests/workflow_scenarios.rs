use guild_onboarding::chapters::Chapter;
use guild_onboarding::chapters::Chapters;
use guild_onboarding::member_db::MemberJoinMessageStage;
use guild_onboarding::member_db::TrackingStore;
use guild_onboarding::secrets::Secrets;
use guild_onboarding::workflow::classify_component;
use guild_onboarding::workflow::handle_complete_onboarding;
use guild_onboarding::workflow::handle_form_submission;
use guild_onboarding::workflow::handle_member_join;
use guild_onboarding::workflow::handle_undo_completion;
use guild_onboarding::workflow::is_registration_modal;
use guild_onboarding::workflow::is_welcome_command;
use guild_onboarding::workflow::push_member_completion_message;
use guild_onboarding::workflow::validate_chapter_choice;
use guild_onboarding::workflow::ComponentAction;
use guild_onboarding::workflow::FormOutcome;
use guild_onboarding::workflow::RenderTarget;
use guild_onboarding::workflow::StageView;

fn sample_secrets() -> Secrets {
    Secrets {
        guild_id: 42,
        token: String::from("SECRET-REDACTED"),
        authorized_ids: vec![7, 8],
        nmi_channel_id: 900,
        new_member_role_id: 10,
        member_role_id: 11,
    }
}

fn sample_roster() -> Chapters {
    Chapters {
        chapters: vec![
            Chapter { name: String::from("Aegwynn"), role_id: 100 },
            Chapter { name: String::from("Tichondrius"), role_id: 200 },
        ],
    }
}

#[test]
fn component_tags_are_classified_exhaustively() {
    assert_eq!(classify_component("nmi_button"), ComponentAction::ShowRegistrationModal);
    assert_eq!(classify_component("guest_button"), ComponentAction::GuestInquiry);
    assert_eq!(
        classify_component("button_complete_registration"),
        ComponentAction::CompleteRegistration
    );
    assert_eq!(classify_component("button_undo_completed"), ComponentAction::UndoCompletion);
    assert_eq!(classify_component("something_else"), ComponentAction::Unrecognized);
    assert_eq!(classify_component(""), ComponentAction::Unrecognized);
}

#[test]
fn modal_and_command_tags_are_recognized() {
    assert!(is_registration_modal("nmi_modal"));
    assert!(!is_registration_modal("nmi_button"));
    assert!(is_welcome_command("create_welcome_message"));
    assert!(!is_welcome_command("create_welcome"));
}

#[test]
fn every_index_below_the_count_is_a_valid_choice() {
    for c in 0..5usize {
        assert_eq!(validate_chapter_choice(&c.to_string(), 5), Some(c));
    }
}

#[test]
fn out_of_range_and_non_numeric_choices_are_rejected_alike() {
    assert_eq!(validate_chapter_choice("5", 5), None);
    assert_eq!(validate_chapter_choice("99", 5), None);
    assert_eq!(validate_chapter_choice("-1", 5), None);
    assert_eq!(validate_chapter_choice("two", 5), None);
    assert_eq!(validate_chapter_choice("", 5), None);
    assert_eq!(validate_chapter_choice("0", 0), None);
}

#[test]
fn authorized_users_are_exactly_the_listed_ones() {
    let secrets = sample_secrets();
    assert!(secrets.is_authorized(7));
    assert!(secrets.is_authorized(8));
    assert!(!secrets.is_authorized(9));
}

// Scenario: a member joins, a record is created at stage NewMember, and
// a valid form submission moves them to Onboarding by editing the
// tracked message, granting exactly the chosen chapter's role.
#[test]
fn scenario_join_then_valid_form_submission() {
    let mut store = TrackingStore::new();
    let secrets = sample_secrets();
    let roster = sample_roster();
    let member_id = 1001u64;
    let announcement = 7001u64; // the tracking message

    handle_member_join(&mut store, member_id, announcement).unwrap();
    let record = store.get_message_by_discord_user_id(member_id).unwrap();
    assert_eq!(record.stage, MemberJoinMessageStage::NewMember);
    assert_eq!(record.message_id, announcement);

    let outcome = handle_form_submission(&store, &secrets, &roster, member_id, "0");
    match outcome {
        FormOutcome::Accepted { roles, plan } => {
            assert_eq!(roles.revoke, secrets.new_member_role_id);
            assert_eq!(roles.grant_member, secrets.member_role_id);
            assert_eq!(roles.grant_chapter, 100); // chapter at index 0
            assert_eq!(
                plan.render.target,
                RenderTarget::EditMessage { message_id: announcement }
            );
            assert_eq!(plan.render.view, StageView::AwaitingApproval);
            let persist = plan.persist.unwrap();
            assert_eq!(persist.stage, MemberJoinMessageStage::Onboarding);
            store.update_message(&persist.record, persist.stage).unwrap();
        }
        FormOutcome::Rejected => panic!("a valid chapter index was rejected"),
    }
    let record = store.get_message_by_discord_user_id(member_id).unwrap();
    assert_eq!(record.stage, MemberJoinMessageStage::Onboarding);
}

// Scenario: an invalid chapter index leaves the record at NewMember and
// plans no role change.
#[test]
fn scenario_invalid_form_submission_changes_nothing() {
    let mut store = TrackingStore::new();
    let secrets = sample_secrets();
    let roster = sample_roster();
    handle_member_join(&mut store, 1001, 7001).unwrap();

    for bad in ["2", "99", "first", ""] {
        let outcome = handle_form_submission(&store, &secrets, &roster, 1001, bad);
        assert_eq!(outcome, FormOutcome::Rejected);
    }
    let record = store.get_message_by_discord_user_id(1001).unwrap();
    assert_eq!(record.stage, MemberJoinMessageStage::NewMember);
}

// Scenario: mark complete on the tracked message, then undo it; the
// same message is edited both times and the stage round-trips.
#[test]
fn scenario_complete_then_undo_on_tracked_message() {
    let mut store = TrackingStore::new();
    let message = 7001u64;
    handle_member_join(&mut store, 1001, message).unwrap();

    let plan = handle_complete_onboarding(&store, message);
    assert_eq!(plan.render.target, RenderTarget::EditMessage { message_id: message });
    assert_eq!(plan.render.view, StageView::OnboardingComplete);
    let persist = plan.persist.unwrap();
    assert_eq!(persist.stage, MemberJoinMessageStage::Completed);
    store.update_message(&persist.record, persist.stage).unwrap();
    assert_eq!(
        store.get_message_by_message_id(message).unwrap().stage,
        MemberJoinMessageStage::Completed
    );

    let plan = handle_undo_completion(&store, message);
    assert_eq!(plan.render.target, RenderTarget::EditMessage { message_id: message });
    assert_eq!(plan.render.view, StageView::AwaitingApproval);
    let persist = plan.persist.unwrap();
    assert_eq!(persist.stage, MemberJoinMessageStage::Onboarding);
    store.update_message(&persist.record, persist.stage).unwrap();
    assert_eq!(
        store.get_message_by_message_id(message).unwrap().stage,
        MemberJoinMessageStage::Onboarding
    );
}

// Scenario: mark complete on a message with no stored record; the
// workflow falls back to creating a new message and touches no row.
#[test]
fn scenario_complete_without_record_creates_new_message() {
    let store = TrackingStore::new();
    let plan = handle_complete_onboarding(&store, 31337);
    assert_eq!(plan.render.target, RenderTarget::CreateMessage);
    assert_eq!(plan.render.view, StageView::OnboardingComplete);
    assert!(plan.persist.is_none());
    assert_eq!(store.all_rows().len(), 0);
}

// Scenario: the process restarts, the store is rebuilt from the
// persisted rows, and an officer's click on the old tracked message
// still finds and edits it.
#[test]
fn scenario_complete_after_restart_edits_the_old_message() {
    let rows = vec![guild_onboarding::member_db::StoredRow {
        id: 4,
        discord_user_id: String::from("1001"),
        message_id: String::from("7001"),
        stage: 1,
    }];
    let mut store = guild_onboarding::member_db::TrackingStore::from_rows(rows).unwrap();
    let plan = handle_complete_onboarding(&store, 7001);
    assert_eq!(plan.render.target, RenderTarget::EditMessage { message_id: 7001 });
    let persist = plan.persist.unwrap();
    assert_eq!(persist.record.id, 4);
    assert_eq!(persist.stage, MemberJoinMessageStage::Completed);
    store.update_message(&persist.record, persist.stage).unwrap();
    assert_eq!(
        store.get_message_by_message_id(7001).unwrap().stage,
        MemberJoinMessageStage::Completed
    );
}

// The approval-render fallback also holds for form submissions whose
// record is gone: a new message is planned instead of an edit.
#[test]
fn completion_message_falls_back_without_a_record() {
    let store = TrackingStore::new();
    let plan = push_member_completion_message(&store, 1001);
    assert_eq!(plan.render.target, RenderTarget::CreateMessage);
    assert_eq!(plan.render.view, StageView::AwaitingApproval);
    assert!(plan.persist.is_none());
}
