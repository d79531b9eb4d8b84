use vstd::prelude::*;

use crate::auth::{register_shape_ok, RegisterRequest};
use crate::errors::AppError;

verus! {

/// A credential record to be created.
#[derive(Debug, Clone, PartialEq, Eq)]
pub struct NewUser {
    pub username: String,
    pub email: String,
    pub nickname: String,
    pub password_hash: String,
    pub role_id: Option<i32>,
    pub status: i32,
}

/// Where a registration stands.
#[derive(Debug, Clone, Copy, PartialEq, Eq, Structural)]
pub enum RegisterState {
    CheckingUsername,
    CheckingEmail,
    FindingRole,
    Hashing { role_id: i32 },
    Inserting,
    Done,
}

/// What the caller reports back after carrying out an action.
#[derive(Debug, PartialEq, Eq)]
pub enum RegisterEvent {
    /// Whether a user with the username exists.
    UsernameLookup { taken: bool },
    /// Whether a user with the email exists.
    EmailLookup { taken: bool },
    /// The default role's id, if there is one.
    DefaultRole { role_id: Option<i32> },
    /// The result of hashing the password.
    Hashed { result: Result<String, AppError> },
    /// The id of the created record.
    Inserted { user_id: i32 },
    /// The storage collaborator failed.
    StorageFailed { message: String },
}

/// What the caller is to do next.
#[derive(Debug, PartialEq, Eq)]
pub enum RegisterAction {
    FindUserByUsername(String),
    FindUserByEmail(String),
    FindDefaultRole,
    /// Hash the password, off the request path.
    HashPassword(String),
    InsertUser(NewUser),
    /// The registration is over, with the new user's id or an error.
    Finish(Result<i32, AppError>),
}

/// The kind of an action, without its payload.
#[derive(Debug, Clone, Copy, PartialEq, Eq, Structural)]
pub enum Step {
    LookUpUsername,
    LookUpEmail,
    LookUpRole,
    Hash,
    Insert,
    Finish,
}

pub open spec fn step_of(a: RegisterAction) -> Step {
    match a {
        RegisterAction::FindUserByUsername(_) => Step::LookUpUsername,
        RegisterAction::FindUserByEmail(_) => Step::LookUpEmail,
        RegisterAction::FindDefaultRole => Step::LookUpRole,
        RegisterAction::HashPassword(_) => Step::Hash,
        RegisterAction::InsertUser(_) => Step::Insert,
        RegisterAction::Finish(_) => Step::Finish,
    }
}

/// The state after an event.
pub open spec fn next_state(s: RegisterState, e: RegisterEvent) -> RegisterState {
    match (s, e) {
        (RegisterState::CheckingUsername, RegisterEvent::UsernameLookup { taken }) =>
            if taken { RegisterState::Done } else { RegisterState::CheckingEmail },
        (RegisterState::CheckingEmail, RegisterEvent::EmailLookup { taken }) =>
            if taken { RegisterState::Done } else { RegisterState::FindingRole },
        (RegisterState::FindingRole, RegisterEvent::DefaultRole { role_id }) => match role_id {
            Some(id) => RegisterState::Hashing { role_id: id },
            None => RegisterState::Done,
        },
        (RegisterState::Hashing { role_id }, RegisterEvent::Hashed { result }) =>
            if result is Ok { RegisterState::Inserting } else { RegisterState::Done },
        _ => RegisterState::Done,
    }
}

/// The kind of action that answers an event.
pub open spec fn next_step(s: RegisterState, e: RegisterEvent) -> Step {
    match next_state(s, e) {
        RegisterState::CheckingEmail => Step::LookUpEmail,
        RegisterState::FindingRole => Step::LookUpRole,
        RegisterState::Hashing { .. } => Step::Hash,
        RegisterState::Inserting => Step::Insert,
        _ => Step::Finish,
    }
}

/// The kinds of action that a run of events brings about from state `s`.
pub open spec fn run_steps(s: RegisterState, events: Seq<RegisterEvent>) -> Seq<Step>
    decreases events.len(),
{
    if events.len() == 0 {
        seq![]
    } else {
        seq![next_step(s, events[0])] + run_steps(next_state(s, events[0]), events.drop_first())
    }
}

/// A registration in progress: the request and where it stands.
pub struct RegisterFlow {
    pub request: RegisterRequest,
    pub state: RegisterState,
}

impl RegisterFlow {
    /// Starts a registration: the payload is validated first, then the
    /// username is looked up.
    pub fn start(request: RegisterRequest) -> (r: (RegisterFlow, RegisterAction))
        ensures
            r.0.request == request,
            register_shape_ok(request) ==> r.0.state == RegisterState::CheckingUsername
                && r.1 == RegisterAction::FindUserByUsername(request.username),
            !register_shape_ok(request) ==> r.0.state == RegisterState::Done
                && (r.1 matches RegisterAction::Finish(Err(e)) && e is ValidationError),
    {
        match request.validate() {
            Err(e) => (RegisterFlow { request, state: RegisterState::Done }, RegisterAction::Finish(Err(e))),
            Ok(()) => {
                let name = request.username.clone();
                (RegisterFlow { request, state: RegisterState::CheckingUsername }, RegisterAction::FindUserByUsername(name))
            },
        }
    }

    /// Takes the outcome of the last action and decides the next one.
    /// Uniqueness of username and then of email is settled before the
    /// password is hashed.
    pub fn step(&mut self, event: RegisterEvent) -> (a: RegisterAction)
        ensures
            final(self).request == old(self).request,
            final(self).state == next_state(old(self).state, event),
            step_of(a) == next_step(old(self).state, event),
            a matches RegisterAction::FindUserByEmail(m) ==> m == old(self).request.email,
            a matches RegisterAction::HashPassword(p) ==> p == old(self).request.password,
            a matches RegisterAction::InsertUser(u) ==> ({
                &&& old(self).state matches RegisterState::Hashing { role_id }
                &&& u.role_id == Some(role_id)
                &&& event matches RegisterEvent::Hashed { result: Ok(h) }
                &&& u.password_hash == h
                &&& u.username == old(self).request.username
                &&& u.email == old(self).request.email
                &&& u.nickname == old(self).request.nickname
                &&& u.status == 1
            }),
            old(self).state == RegisterState::CheckingUsername && event == (RegisterEvent::UsernameLookup { taken: true })
                ==> (a matches RegisterAction::Finish(Err(AppError::Conflict(m))) && m@ == "Username already exists"@),
            old(self).state == RegisterState::CheckingEmail && event == (RegisterEvent::EmailLookup { taken: true })
                ==> (a matches RegisterAction::Finish(Err(AppError::Conflict(m))) && m@ == "Email already exists"@),
            old(self).state == RegisterState::FindingRole && event == (RegisterEvent::DefaultRole { role_id: None })
                ==> (a matches RegisterAction::Finish(Err(e)) && e is Internal),
            old(self).state is Hashing && event is Hashed && event->result is Err
                ==> a == RegisterAction::Finish(Err(event->result->Err_0)),
            old(self).state == RegisterState::Inserting && event is Inserted
                ==> a == RegisterAction::Finish(Ok(event->user_id)),
            event is StorageFailed && old(self).state != RegisterState::Done
                && next_state(old(self).state, event) == RegisterState::Done
                ==> (a matches RegisterAction::Finish(Err(AppError::DatabaseError(m))) && m == event->message),
    {
        let state = self.state;
        let (next, action) = match (state, event) {
            (RegisterState::CheckingUsername, RegisterEvent::UsernameLookup { taken }) => {
                if taken {
                    (RegisterState::Done, RegisterAction::Finish(Err(AppError::Conflict("Username already exists".to_string()))))
                } else {
                    (RegisterState::CheckingEmail, RegisterAction::FindUserByEmail(self.request.email.clone()))
                }
            },
            (RegisterState::CheckingEmail, RegisterEvent::EmailLookup { taken }) => {
                if taken {
                    (RegisterState::Done, RegisterAction::Finish(Err(AppError::Conflict("Email already exists".to_string()))))
                } else {
                    (RegisterState::FindingRole, RegisterAction::FindDefaultRole)
                }
            },
            (RegisterState::FindingRole, RegisterEvent::DefaultRole { role_id }) => match role_id {
                Some(id) => (RegisterState::Hashing { role_id: id }, RegisterAction::HashPassword(self.request.password.clone())),
                None => (RegisterState::Done, RegisterAction::Finish(Err(AppError::Internal("Default role not found".to_string())))),
            },
            (RegisterState::Hashing { role_id }, RegisterEvent::Hashed { result }) => match result {
                Ok(h) => (RegisterState::Inserting, RegisterAction::InsertUser(NewUser {
                    username: self.request.username.clone(),
                    email: self.request.email.clone(),
                    nickname: self.request.nickname.clone(),
                    password_hash: h,
                    role_id: Some(role_id),
                    status: 1,
                })),
                Err(e) => (RegisterState::Done, RegisterAction::Finish(Err(e))),
            },
            (RegisterState::Inserting, RegisterEvent::Inserted { user_id }) => (RegisterState::Done, RegisterAction::Finish(Ok(user_id))),
            (RegisterState::Done, _) => (RegisterState::Done, RegisterAction::Finish(Err(AppError::Internal("Registration already finished".to_string())))),
            (_, RegisterEvent::StorageFailed { message }) => (RegisterState::Done, RegisterAction::Finish(Err(AppError::DatabaseError(message)))),
            _ => (RegisterState::Done, RegisterAction::Finish(Err(AppError::Internal("Unexpected registration event".to_string())))),
        };
        self.state = next;
        action
    }
}

/// Starts the registration of `request`: see `RegisterFlow::start`.
pub fn register(request: RegisterRequest) -> (r: (RegisterFlow, RegisterAction))
    ensures
        r.0.request == request,
        register_shape_ok(request) ==> r.0.state == RegisterState::CheckingUsername
            && r.1 == RegisterAction::FindUserByUsername(request.username),
        !register_shape_ok(request) ==> r.0.state == RegisterState::Done
            && (r.1 matches RegisterAction::Finish(Err(e)) && e is ValidationError),
{
    RegisterFlow::start(request)
}

/// Once a registration is over, nothing more is done but to report it.
proof fn lemma_done_stays_done(events: Seq<RegisterEvent>)
    ensures
        forall|i: int| 0 <= i < events.len() ==> #[trigger] run_steps(RegisterState::Done, events)[i] == Step::Finish,
        run_steps(RegisterState::Done, events).len() == events.len(),
    decreases events.len(),
{
    if events.len() > 0 {
        lemma_done_stays_done(events.drop_first());
        let rest = run_steps(RegisterState::Done, events.drop_first());
        assert forall|i: int| 0 <= i < events.len() implies #[trigger] run_steps(RegisterState::Done, events)[i] == Step::Finish by {
            if i > 0 {
                assert(run_steps(RegisterState::Done, events)[i] == rest[i - 1]);
            }
        }
    }
}

/// A registration whose username is taken ends at once with a conflict:
/// whatever is reported afterwards, the password is never hashed.
pub proof fn lemma_taken_username_never_hashes(events: Seq<RegisterEvent>)
    requires
        events.len() > 0,
        events[0] == (RegisterEvent::UsernameLookup { taken: true }),
    ensures
        run_steps(RegisterState::CheckingUsername, events)[0] == Step::Finish,
        forall|i: int| 0 <= i < events.len() ==> #[trigger] run_steps(RegisterState::CheckingUsername, events)[i] != Step::Hash,
{
    lemma_done_stays_done(events.drop_first());
    let rest = run_steps(RegisterState::Done, events.drop_first());
    assert forall|i: int| 0 <= i < events.len() implies #[trigger] run_steps(RegisterState::CheckingUsername, events)[i] != Step::Hash by {
        if i > 0 {
            assert(run_steps(RegisterState::CheckingUsername, events)[i] == rest[i - 1]);
        }
    }
}

/// The password is hashed only once the username and then the email were
/// found free and the default role was found.
pub proof fn lemma_hash_only_after_checks(s: RegisterState, e: RegisterEvent)
    requires
        next_step(s, e) == Step::Hash,
    ensures
        s == RegisterState::FindingRole,
        e matches RegisterEvent::DefaultRole { role_id: Some(_) },
{
}

/// The state in which the email is looked up is reached only from the
/// username check, on a free username; the role lookup only from the email
/// check, on a free email.
pub proof fn lemma_checks_in_order(s: RegisterState, e: RegisterEvent)
    ensures
        next_state(s, e) == RegisterState::CheckingEmail ==>
            s == RegisterState::CheckingUsername && e == (RegisterEvent::UsernameLookup { taken: false }),
        next_state(s, e) == RegisterState::FindingRole ==>
            s == RegisterState::CheckingEmail && e == (RegisterEvent::EmailLookup { taken: false }),
{
}

} // verus!
