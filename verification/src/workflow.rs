//! The onboarding state machine and the workflow decisions around it:
//! which stage a platform event moves a record to, which view the review
//! channel must show, whether the tracked message is edited in place or
//! a fresh one is created, and which roles a successful registration
//! swaps. Every function here is pure decision logic; the embedding
//! program performs the platform calls a plan asks for, and persists a
//! plan's stage once its render has succeeded.

use vstd::prelude::*;
use vstd::pervasive::unreached;
use vstd::string::*;
use crate::chapters::Chapters;
use crate::chapters::formatted_list;
use crate::decimal::decimal_value;
use crate::decimal::is_valid_u64_text;
use crate::decimal::parse_u64;
use crate::member_db::MemberJoinMessage;
use crate::member_db::MemberJoinMessageStage;
use crate::member_db::RowModel;
use crate::member_db::StoreError;
use crate::member_db::TrackingStore;
use crate::member_db::created_row;
use crate::member_db::decoded_row;
use crate::member_db::find_member_row;
use crate::member_db::find_message_row;
use crate::secrets::Secrets;
use crate::text::str_eq;

verus! {

/// The view a stage is rendered as in the review channel.
#[derive(Debug, Clone, Copy, PartialEq, Eq, Structural)]
pub enum StageView {
    /// The member has joined and not yet submitted the form.
    AwaitingOnboarding,
    /// The form is in; an officer still has to mark the member complete.
    AwaitingApproval,
    /// An officer has marked onboarding complete.
    OnboardingComplete,
}

/// The view that renders a record's stage.
pub open spec fn view_for_stage(stage: MemberJoinMessageStage) -> StageView {
    match stage {
        MemberJoinMessageStage::NewMember => StageView::AwaitingOnboarding,
        MemberJoinMessageStage::Onboarding => StageView::AwaitingApproval,
        MemberJoinMessageStage::Completed => StageView::OnboardingComplete,
    }
}

/// How the review channel is brought to show a view: by editing the
/// message that already tracks the record, or by sending a brand-new
/// message when no usable record was found.
#[derive(Debug, Clone, Copy, PartialEq, Eq, Structural)]
pub enum RenderTarget {
    EditMessage { message_id: u64 },
    CreateMessage,
}

/// One render order for the review channel.
#[derive(Debug, Clone, Copy, PartialEq, Eq, Structural)]
pub struct RenderPlan {
    pub target: RenderTarget,
    pub view: StageView,
}

/// One pending stage write, to be persisted after the render succeeds.
#[derive(Debug, Clone, Copy, PartialEq, Eq, Structural)]
pub struct PersistStep {
    pub record: MemberJoinMessage,
    pub stage: MemberJoinMessageStage,
}

/// One planned transition: what to render where, and which record to
/// move to which stage once the render has succeeded. A missing persist
/// step means the lookup found nothing and no row may be touched.
#[derive(Debug, Clone, Copy, PartialEq, Eq, Structural)]
pub struct TransitionPlan {
    pub render: RenderPlan,
    pub persist: Option<PersistStep>,
}

/// The roles a successful registration swaps: the provisional role is
/// revoked, the standing member role and the chosen chapter's role are
/// granted.
#[derive(Debug, Clone, Copy, PartialEq, Eq, Structural)]
pub struct RoleChanges {
    pub revoke: u64,
    pub grant_member: u64,
    pub grant_chapter: u64,
}

/// What the workflow decides for one registration form submission.
#[derive(Debug, Clone, Copy, PartialEq, Eq, Structural)]
pub enum FormOutcome {
    /// The chapter field was rejected: tell the member privately, touch
    /// no role and no stored record.
    Rejected,
    /// The form was accepted: swap the roles, acknowledge the member
    /// privately, and carry out the transition plan.
    Accepted { roles: RoleChanges, plan: TransitionPlan },
}

/// The buttons and modals the platform hands back, by their tag.
#[derive(Debug, Clone, Copy, PartialEq, Eq, Structural)]
pub enum ComponentAction {
    /// The member pressed the registration button: show the form.
    ShowRegistrationModal,
    /// The member pressed the guest button.
    GuestInquiry,
    /// An officer pressed the completion button on a tracked message.
    CompleteRegistration,
    /// An officer pressed the undo button on a tracked message.
    UndoCompletion,
    /// A tag this workflow does not own; ignored.
    Unrecognized,
}

/// Which action a component interaction's tag names.
pub open spec fn spec_classify_component(id: Seq<char>) -> ComponentAction {
    if id == "nmi_button"@ {
        ComponentAction::ShowRegistrationModal
    } else if id == "guest_button"@ {
        ComponentAction::GuestInquiry
    } else if id == "button_complete_registration"@ {
        ComponentAction::CompleteRegistration
    } else if id == "button_undo_completed"@ {
        ComponentAction::UndoCompletion
    } else {
        ComponentAction::Unrecognized
    }
}

/// Sorts a component interaction by its tag.
pub fn classify_component(custom_id: &str) -> (r: ComponentAction)
    ensures
        r == spec_classify_component(custom_id@),
{
    if str_eq(custom_id, "nmi_button") {
        ComponentAction::ShowRegistrationModal
    } else if str_eq(custom_id, "guest_button") {
        ComponentAction::GuestInquiry
    } else if str_eq(custom_id, "button_complete_registration") {
        ComponentAction::CompleteRegistration
    } else if str_eq(custom_id, "button_undo_completed") {
        ComponentAction::UndoCompletion
    } else {
        ComponentAction::Unrecognized
    }
}

/// Whether a modal interaction is the registration form.
pub fn is_registration_modal(custom_id: &str) -> (r: bool)
    ensures
        r == (custom_id@ == "nmi_modal"@),
{
    str_eq(custom_id, "nmi_modal")
}

/// Whether a command interaction is the welcome-message command.
pub fn is_welcome_command(name: &str) -> (r: bool)
    ensures
        r == (name@ == "create_welcome_message"@),
{
    str_eq(name, "create_welcome_message")
}

/// Whether the chapter field of the form names a valid chapter index:
/// decimal text denoting a number below the roster's count. Non-numeric
/// text counts as out of range.
pub open spec fn valid_chapter_choice(input: Seq<char>, count: nat) -> bool {
    is_valid_u64_text(input) && decimal_value(input) < count
}

/// Parses and bounds the chapter field of the registration form.
pub fn validate_chapter_choice(input: &str, chapter_count: usize) -> (r: Option<usize>)
    ensures
        r == if valid_chapter_choice(input@, chapter_count as nat) {
            Some(decimal_value(input@) as usize)
        } else {
            None::<usize>
        },
{
    match parse_u64(input) {
        Some(v) => {
            if v < chapter_count as u64 {
                Some(v as usize)
            } else {
                None
            }
        },
        None => None,
    }
}

/// The transition planned for a member's form submission: edit the
/// member's tracked message to the approval view and then persist
/// `Onboarding`; with no record, fall back to a brand-new message and
/// leave the table alone.
pub open spec fn completion_plan(s: Seq<RowModel>, member_id: u64) -> TransitionPlan {
    match find_member_row(s, member_id) {
        Some(row) => TransitionPlan {
            render: RenderPlan {
                target: RenderTarget::EditMessage { message_id: decoded_row(row).message_id },
                view: StageView::AwaitingApproval,
            },
            persist: Some(
                PersistStep {
                    record: decoded_row(row),
                    stage: MemberJoinMessageStage::Onboarding,
                },
            ),
        },
        None => TransitionPlan {
            render: RenderPlan { target: RenderTarget::CreateMessage, view: StageView::AwaitingApproval },
            persist: None,
        },
    }
}

/// The transition planned for an officer's press of a button on the
/// message with the given id: edit that very message to the given view
/// and persist the given stage; with no record for it, fall back to a
/// brand-new message and leave the table alone.
pub open spec fn officer_plan(
    s: Seq<RowModel>,
    message_id: u64,
    stage: MemberJoinMessageStage,
) -> TransitionPlan {
    match find_message_row(s, message_id) {
        Some(row) => TransitionPlan {
            render: RenderPlan {
                target: RenderTarget::EditMessage { message_id },
                view: view_for_stage(stage),
            },
            persist: Some(PersistStep { record: decoded_row(row), stage }),
        },
        None => TransitionPlan {
            render: RenderPlan { target: RenderTarget::CreateMessage, view: view_for_stage(stage) },
            persist: None,
        },
    }
}

/// Handles a member joining the guild. The announcement message has
/// already been sent to the review channel; the member and that message
/// are recorded at stage `NewMember`. A `Full` store is reported to the
/// caller, which logs it and lets the announcement stand.
pub fn handle_member_join(
    store: &mut TrackingStore,
    member_id: u64,
    announcement_message_id: u64,
) -> (r: Result<(), StoreError>)
    requires
        old(store).wf(),
    ensures
        final(store).wf(),
        r is Ok <==> old(store).spec_next_id() < i64::MAX as int,
        r is Ok ==> final(store)@ == old(store)@.push(
            created_row(
                old(store).spec_next_id(),
                member_id,
                announcement_message_id,
                MemberJoinMessageStage::NewMember,
            ),
        ) && final(store).spec_next_id() == old(store).spec_next_id() + 1,
        r is Err ==> r == Err::<(), StoreError>(StoreError::Full) && *final(store) == *old(store),
{
    store.push_message(member_id, announcement_message_id, MemberJoinMessageStage::NewMember)
}

/// Plans the approval render for a member who has submitted the form:
/// the member's tracked message is edited when a record exists, a
/// brand-new message is created when none does — a lookup miss degrades
/// the workflow, it never stalls it.
pub fn push_member_completion_message(store: &TrackingStore, member_id: u64) -> (r: TransitionPlan)
    requires
        store.wf(),
    ensures
        r == completion_plan(store@, member_id),
{
    match store.get_message_by_discord_user_id(member_id) {
        Ok(record) => TransitionPlan {
            render: RenderPlan {
                target: RenderTarget::EditMessage { message_id: record.message_id },
                view: StageView::AwaitingApproval,
            },
            persist: Some(PersistStep { record, stage: MemberJoinMessageStage::Onboarding }),
        },
        Err(_) => TransitionPlan {
            render: RenderPlan { target: RenderTarget::CreateMessage, view: StageView::AwaitingApproval },
            persist: None,
        },
    }
}

/// Plans an officer's "mark complete" press on the message with the
/// given id: that message is edited to the complete view and the record
/// moves to `Completed`; with no matching record, a brand-new message
/// carries the view instead.
pub fn handle_complete_onboarding(store: &TrackingStore, message_id: u64) -> (r: TransitionPlan)
    requires
        store.wf(),
    ensures
        r == officer_plan(store@, message_id, MemberJoinMessageStage::Completed),
{
    match store.get_message_by_message_id(message_id) {
        Ok(record) => TransitionPlan {
            render: RenderPlan {
                target: RenderTarget::EditMessage { message_id },
                view: StageView::OnboardingComplete,
            },
            persist: Some(PersistStep { record, stage: MemberJoinMessageStage::Completed }),
        },
        Err(_) => TransitionPlan {
            render: RenderPlan {
                target: RenderTarget::CreateMessage,
                view: StageView::OnboardingComplete,
            },
            persist: None,
        },
    }
}

/// Plans an officer's "undo" press on the message with the given id: the
/// message goes back to the approval view and the record to
/// `Onboarding`; with no matching record, a brand-new message carries
/// the view instead.
pub fn handle_undo_completion(store: &TrackingStore, message_id: u64) -> (r: TransitionPlan)
    requires
        store.wf(),
    ensures
        r == officer_plan(store@, message_id, MemberJoinMessageStage::Onboarding),
{
    match store.get_message_by_message_id(message_id) {
        Ok(record) => TransitionPlan {
            render: RenderPlan {
                target: RenderTarget::EditMessage { message_id },
                view: StageView::AwaitingApproval,
            },
            persist: Some(PersistStep { record, stage: MemberJoinMessageStage::Onboarding }),
        },
        Err(_) => TransitionPlan {
            render: RenderPlan { target: RenderTarget::CreateMessage, view: StageView::AwaitingApproval },
            persist: None,
        },
    }
}

/// Decides one registration form submission. An invalid chapter field —
/// non-numeric text exactly like an out-of-range index — is rejected
/// with no role change and no record change. A valid index `c` yields
/// exactly the provisional-role revocation, the member role, and the
/// role of the chapter at index `c`, together with the approval plan for
/// the member's tracked message.
pub fn handle_form_submission(
    store: &TrackingStore,
    secrets: &Secrets,
    chapters: &Chapters,
    member_id: u64,
    chapter_input: &str,
) -> (r: FormOutcome)
    requires
        store.wf(),
    ensures
        !valid_chapter_choice(chapter_input@, chapters.chapters@.len() as nat) ==> r
            == FormOutcome::Rejected,
        valid_chapter_choice(chapter_input@, chapters.chapters@.len() as nat) ==> r == (
        FormOutcome::Accepted {
            roles: RoleChanges {
                revoke: secrets.new_member_role_id,
                grant_member: secrets.member_role_id,
                grant_chapter: chapters.chapters@[decimal_value(chapter_input@) as int].role_id,
            },
            plan: completion_plan(store@, member_id),
        }),
{
    let index = match validate_chapter_choice(chapter_input, chapters.get_count()) {
        Some(index) => index,
        None => {
            return FormOutcome::Rejected;
        },
    };
    let chapter = match chapters.get_by_id(index) {
        Some(chapter) => chapter,
        // a validated index is always on the roster
        None => unreached(),
    };
    let roles = RoleChanges {
        revoke: secrets.new_member_role_id,
        grant_member: secrets.member_role_id,
        grant_chapter: chapter.get_role_id(),
    };
    let plan = push_member_completion_message(store, member_id);
    FormOutcome::Accepted { roles, plan }
}

/// The body of the welcome message: the rendered roster, then the
/// invitation to pick a chapter number from it.
pub fn welcome_body(chapters: &Chapters) -> (r: String)
    requires
        forall|i: int|
            0 <= i < chapters.chapters@.len() ==> (#[trigger] chapters.chapters@[i].name@).len()
                <= 16,
    ensures
        r@ == formatted_list(chapters.chapters@) + "\n\n"@
            + "Welcome to the Old Gods! Please find your chapter number above and fill in the form below!"@,
{
    let mut body = chapters.to_formatted_list();
    body.append("\n\n");
    body.append(
        "Welcome to the Old Gods! Please find your chapter number above and fill in the form below!",
    );
    proof {
        assert(body@ =~= formatted_list(chapters.chapters@) + "\n\n"@
            + "Welcome to the Old Gods! Please find your chapter number above and fill in the form below!"@);
    }
    body
}

} // verus!
