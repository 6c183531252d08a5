//! The chat commands: who may make or unmake an admin, and what the chat is told.

use crate::catalog::KnownUser;
use crate::text::{push_signed_decimal, signed_decimal};
use vstd::prelude::*;
use vstd::string::StringExecFns;

verus! {

/// A command sent in the chat.
#[derive(Clone, Copy, Debug, PartialEq, Eq, Structural)]
pub enum Command {
    Help,
    MakeAdmin(i64),
    RemoveAdmin(i64),
}

/// How far an admin toggle has come.
#[derive(Debug)]
pub enum AdminToggle {
    /// The owner of the bot is still to be learnt.
    Asked { executor_id: i64, target_id: i64, make_admin: bool },
    /// The store is being asked for the user `target_id`.
    Finding { target_id: i64, make_admin: bool },
    /// The store is being asked to update the user called `name`.
    Updating { name: String, make_admin: bool },
    /// The chat has its reply.
    Done,
}

/// What happened since the toggle last spoke.
#[derive(Debug)]
pub enum ToggleEvent {
    /// The owner of the bot is this user.
    Owner(i64),
    /// The store answered the lookup.
    Found(Option<KnownUser>),
    /// The store took the update.
    Updated,
    /// What was asked of the store failed.
    Failed,
}

/// What is to be done next for a toggle.
#[derive(Debug)]
pub enum ToggleAction {
    /// Nothing new: what was asked for before is still awaited.
    KeepWaiting,
    /// Ask the store for the user with this key.
    FindUser(i64),
    /// Store the user as given here.
    Update(KnownUser),
    /// Tell the chat this, and be done.
    Reply(String),
}

/// What the chat is told when somebody but the owner asks.
pub open spec fn unauthorized_reply() -> Seq<char> {
    "<b>Error:</b> You are not authorized to use this command."@
}

/// What the chat is told when the store cannot be asked for the user.
pub open spec fn lookup_failed_reply() -> Seq<char> {
    "<b>Error:</b> Failed to retrieve user from the database."@
}

/// What the chat is told when the store does not take the update.
pub open spec fn update_failed_reply() -> Seq<char> {
    "<b>Error:</b> Something went wrong. Please try again later."@
}

/// What the chat is told when the store does not know the user.
pub open spec fn not_found_reply(target_id: i64) -> Seq<char> {
    "User "@ + signed_decimal(target_id as int) + " not found in the database."@
}

/// What the chat is told once the user called `name` is or is no longer an admin.
pub open spec fn done_reply(name: Seq<char>, make_admin: bool) -> Seq<char> {
    "User <b>"@ + name + "</b> has been "@ + if make_admin {
        "made an admin"@
    } else {
        "removed from admin"@
    } + "."@
}

/// What a toggle has to do next, said over the values it is built from.
pub enum TogglePlan {
    KeepWaiting,
    FindUser(i64),
    /// Store `user` with its admin flag set to `is_admin`.
    Update { user: KnownUser, is_admin: bool },
    Reply(Seq<char>),
}

/// Whether `action` is what `plan` asks for.
pub open spec fn toggle_carries_out(action: ToggleAction, plan: TogglePlan) -> bool {
    match plan {
        TogglePlan::KeepWaiting => action is KeepWaiting,
        TogglePlan::FindUser(id) => action == ToggleAction::FindUser(id),
        TogglePlan::Update { user, is_admin } => action matches ToggleAction::Update(changed)
            && changed == (KnownUser { is_admin, ..user }),
        TogglePlan::Reply(text) => action matches ToggleAction::Reply(reply) && reply@ == text,
    }
}

/// The state of a toggle as mathematics sees it.
pub enum ToggleModel {
    Asked { executor_id: i64, target_id: i64, make_admin: bool },
    Finding { target_id: i64, make_admin: bool },
    Updating { name: Seq<char>, make_admin: bool },
    Done,
}

impl View for AdminToggle {
    type V = ToggleModel;

    open spec fn view(&self) -> ToggleModel {
        match *self {
            AdminToggle::Asked { executor_id, target_id, make_admin } => ToggleModel::Asked {
                executor_id,
                target_id,
                make_admin,
            },
            AdminToggle::Finding { target_id, make_admin } => ToggleModel::Finding {
                target_id,
                make_admin,
            },
            AdminToggle::Updating { name, make_admin } => ToggleModel::Updating {
                name: name@,
                make_admin,
            },
            AdminToggle::Done => ToggleModel::Done,
        }
    }
}

/// What a toggle does on an event: only the owner gets past the first step; a user the store
/// knows is updated, and the chat learns how it went.
pub open spec fn toggled(state: ToggleModel, event: ToggleEvent) -> (ToggleModel, TogglePlan) {
    match (state, event) {
        (ToggleModel::Asked { executor_id, target_id, make_admin }, ToggleEvent::Owner(owner_id)) => {
            if executor_id != owner_id {
                (ToggleModel::Done, TogglePlan::Reply(unauthorized_reply()))
            } else {
                (ToggleModel::Finding { target_id, make_admin }, TogglePlan::FindUser(target_id))
            }
        },
        (ToggleModel::Finding { target_id, make_admin }, ToggleEvent::Found(Some(user))) => (
            ToggleModel::Updating { name: user.name@, make_admin },
            TogglePlan::Update { user, is_admin: make_admin },
        ),
        (ToggleModel::Finding { target_id, .. }, ToggleEvent::Found(None)) => (
            ToggleModel::Done,
            TogglePlan::Reply(not_found_reply(target_id)),
        ),
        (ToggleModel::Finding { .. }, ToggleEvent::Failed) => (
            ToggleModel::Done,
            TogglePlan::Reply(lookup_failed_reply()),
        ),
        (ToggleModel::Updating { name, make_admin }, ToggleEvent::Updated) => (
            ToggleModel::Done,
            TogglePlan::Reply(done_reply(name, make_admin)),
        ),
        (ToggleModel::Updating { .. }, ToggleEvent::Failed) => (
            ToggleModel::Done,
            TogglePlan::Reply(update_failed_reply()),
        ),
        _ => (state, TogglePlan::KeepWaiting),
    }
}

/// Starts the toggle a command asks for; `Help` asks for none.
pub fn answer(command: Command, executor_id: i64) -> (toggle: Option<AdminToggle>)
    ensures
        match command {
            Command::Help => toggle is None,
            Command::MakeAdmin(target_id) => toggle matches Some(state) && state@
                == (ToggleModel::Asked { executor_id, target_id, make_admin: true }),
            Command::RemoveAdmin(target_id) => toggle matches Some(state) && state@
                == (ToggleModel::Asked { executor_id, target_id, make_admin: false }),
        },
{
    match command {
        Command::Help => None,
        Command::MakeAdmin(target_id) => Some(
            AdminToggle::Asked { executor_id, target_id, make_admin: true },
        ),
        Command::RemoveAdmin(target_id) => Some(
            AdminToggle::Asked { executor_id, target_id, make_admin: false },
        ),
    }
}

/// Takes a toggle one step on.
pub fn handle_admin_toggle(state: AdminToggle, event: ToggleEvent) -> (next: (
    AdminToggle,
    ToggleAction,
))
    ensures
        next.0@ == toggled(state@, event).0,
        toggle_carries_out(next.1, toggled(state@, event).1),
{
    match (state, event) {
        (AdminToggle::Asked { executor_id, target_id, make_admin }, ToggleEvent::Owner(owner_id)) => {
            if executor_id != owner_id {
                (
                    AdminToggle::Done,
                    ToggleAction::Reply(
                        String::from_str(
                            "<b>Error:</b> You are not authorized to use this command.",
                        ),
                    ),
                )
            } else {
                (AdminToggle::Finding { target_id, make_admin }, ToggleAction::FindUser(target_id))
            }
        },
        (AdminToggle::Finding { target_id, make_admin }, ToggleEvent::Found(Some(user))) => {
            let name = user.name.clone();
            let changed = KnownUser { is_admin: make_admin, ..user };
            (AdminToggle::Updating { name, make_admin }, ToggleAction::Update(changed))
        },
        (AdminToggle::Finding { target_id, make_admin }, ToggleEvent::Found(None)) => {
            let mut reply = String::from_str("User ");
            push_signed_decimal(&mut reply, target_id);
            reply.append(" not found in the database.");
            (AdminToggle::Done, ToggleAction::Reply(reply))
        },
        (AdminToggle::Finding { target_id, make_admin }, ToggleEvent::Failed) => (
            AdminToggle::Done,
            ToggleAction::Reply(
                String::from_str("<b>Error:</b> Failed to retrieve user from the database."),
            ),
        ),
        (AdminToggle::Updating { name, make_admin }, ToggleEvent::Updated) => {
            let mut reply = String::from_str("User <b>");
            reply.append(name.as_str());
            reply.append("</b> has been ");
            if make_admin {
                reply.append("made an admin");
            } else {
                reply.append("removed from admin");
            }
            reply.append(".");
            (AdminToggle::Done, ToggleAction::Reply(reply))
        },
        (AdminToggle::Updating { name, make_admin }, ToggleEvent::Failed) => (
            AdminToggle::Done,
            ToggleAction::Reply(
                String::from_str("<b>Error:</b> Something went wrong. Please try again later."),
            ),
        ),
        (state, _) => (state, ToggleAction::KeepWaiting),
    }
}

} // verus!
