//! The handler of role changes: from one event to the permission level of
//! one member in the rooms of one group.
//!
//! The handler asks three things of the outside, in this order: the space of
//! the group, the rooms of that space, and, room by room, that the level be
//! set. Each question is a step that holds the state which takes the answer.
//! What is wrong with the event itself never fails the handler: the event is
//! passed over, and the outcome says why.
use crate::matrix::{is_room_id, room_id_syntax, PowerLevelError};
use crate::text::{
    clone_texts, lowercase, sort_dedup, sort_dedup_is_sorted, sorted_unique, strictly_sorted,
    strictly_sorted_is_unique,
};
use crate::types::event::GroupMemberRoleChangedPayload;
use crate::types::matrix_user_id::MatrixUserID;
use crate::types::role::Role;
use vstd::prelude::*;
use vstd::string::*;

verus! {

/// Why an event was passed over without any effect.
#[derive(Debug, PartialEq, Eq)]
pub enum Skip {
    /// The payload of the event could not be read.
    MalformedPayload,
    /// The group could not be looked up.
    GroupNotFound { group_id: u64 },
    /// The event does not name exactly one role.
    RoleCount { count: usize },
    /// The role is none of the known ones.
    UnknownRole { role: String },
    /// The space of the group lists no rooms.
    NoSpaceRooms { space_id: String },
}

/// What a handled event came to: the member, the rooms, and the level.
#[derive(Debug, PartialEq, Eq)]
pub struct Summary {
    pub user_id: String,
    pub room_ids: Vec<String>,
    pub power_level: u64,
}

/// How the handling of an event ended, where it did not fail.
#[derive(Debug, PartialEq, Eq)]
pub enum Outcome {
    /// Nothing was done.
    Skipped(Skip),
    /// The level stands in the rooms listed.
    Applied(Summary),
    /// The relay knows none of the rooms; those listed were tried.
    NotApplied(Summary),
}

/// Why the handling of an event failed.
#[derive(Debug, PartialEq, Eq)]
pub enum HandlerError {
    /// The primary room of the group is no room identifier.
    InvalidSpaceId { space_id: String },
    /// The rooms of the space could not be listed to the end.
    SpaceRooms,
    /// The level could not be set in a room that the relay knows. No further
    /// room is tried.
    PowerLevel { room_id: String, error: PowerLevelError },
}

/// The state that waits for the space of the group.
#[derive(Debug, PartialEq, Eq)]
pub struct AwaitGroup {
    pub user_id: String,
    pub group_id: u64,
    pub roles: Vec<String>,
}

/// The state that waits for the rooms of the space.
#[derive(Debug, PartialEq, Eq)]
pub struct AwaitRooms {
    pub user_id: String,
    pub space_id: String,
    pub power_level: u64,
}

/// The state that waits for the level to be set in one room. The rooms are
/// fixed when the state is first made, and are not asked for again.
#[derive(Debug, PartialEq, Eq)]
pub struct Applying {
    user_id: String,
    power_level: u64,
    room_ids: Vec<String>,
    next: usize,
    applied: Vec<String>,
}

/// What to do next for an event.
#[derive(Debug, PartialEq, Eq)]
pub enum HandlerStep {
    /// Look up the group `group_id`; then [`AwaitGroup::on_group`].
    GetGroup(AwaitGroup),
    /// List the rooms below `space_id`; then [`AwaitRooms::on_rooms`].
    GetSpaceRooms(AwaitRooms),
    /// Set the level of the member in the room of the state; then
    /// [`Applying::on_applied`].
    SetPowerLevel(Applying),
    /// The event is handled.
    Done(Outcome),
    /// The handler failed.
    Failed(HandlerError),
}

/// What a role-change event says.
pub struct PayloadView {
    pub principal: Seq<u8>,
    pub username: Seq<char>,
    pub group_id: u64,
    pub roles: Seq<Seq<char>>,
}

impl View for GroupMemberRoleChangedPayload {
    type V = PayloadView;

    open spec fn view(&self) -> PayloadView {
        PayloadView {
            principal: self.principal@,
            username: self.username@,
            group_id: self.group_id,
            roles: self.roles.deep_view(),
        }
    }
}

/// What a reason to pass an event over says.
pub enum SkipView {
    MalformedPayload,
    GroupNotFound { group_id: u64 },
    RoleCount { count: int },
    UnknownRole { role: Seq<char> },
    NoSpaceRooms { space_id: Seq<char> },
}

impl View for Skip {
    type V = SkipView;

    open spec fn view(&self) -> SkipView {
        match self {
            Skip::MalformedPayload => SkipView::MalformedPayload,
            Skip::GroupNotFound { group_id } => SkipView::GroupNotFound { group_id: *group_id },
            Skip::RoleCount { count } => SkipView::RoleCount { count: *count as int },
            Skip::UnknownRole { role } => SkipView::UnknownRole { role: role@ },
            Skip::NoSpaceRooms { space_id } => SkipView::NoSpaceRooms { space_id: space_id@ },
        }
    }
}

/// What a summary holds.
pub struct SummaryView {
    pub user_id: Seq<char>,
    pub room_ids: Seq<Seq<char>>,
    pub power_level: u64,
}

impl View for Summary {
    type V = SummaryView;

    open spec fn view(&self) -> SummaryView {
        SummaryView {
            user_id: self.user_id@,
            room_ids: self.room_ids.deep_view(),
            power_level: self.power_level,
        }
    }
}

/// What an outcome says.
pub enum OutcomeView {
    Skipped(SkipView),
    Applied(SummaryView),
    NotApplied(SummaryView),
}

impl View for Outcome {
    type V = OutcomeView;

    open spec fn view(&self) -> OutcomeView {
        match self {
            Outcome::Skipped(skip) => OutcomeView::Skipped(skip@),
            Outcome::Applied(summary) => OutcomeView::Applied(summary@),
            Outcome::NotApplied(summary) => OutcomeView::NotApplied(summary@),
        }
    }
}

/// What a handler error says.
pub enum HandlerErrorView {
    InvalidSpaceId { space_id: Seq<char> },
    SpaceRooms,
    PowerLevel { room_id: Seq<char>, error: PowerLevelError },
}

impl View for HandlerError {
    type V = HandlerErrorView;

    open spec fn view(&self) -> HandlerErrorView {
        match self {
            HandlerError::InvalidSpaceId { space_id } => HandlerErrorView::InvalidSpaceId {
                space_id: space_id@,
            },
            HandlerError::SpaceRooms => HandlerErrorView::SpaceRooms,
            HandlerError::PowerLevel { room_id, error } => HandlerErrorView::PowerLevel {
                room_id: room_id@,
                error: *error,
            },
        }
    }
}

/// The member, the group, and the roles that the event names.
pub struct AwaitGroupView {
    pub user_id: Seq<char>,
    pub group_id: u64,
    pub roles: Seq<Seq<char>>,
}

impl View for AwaitGroup {
    type V = AwaitGroupView;

    open spec fn view(&self) -> AwaitGroupView {
        AwaitGroupView {
            user_id: self.user_id@,
            group_id: self.group_id,
            roles: self.roles.deep_view(),
        }
    }
}

/// The member, the space of the group, and the level of the role.
pub struct AwaitRoomsView {
    pub user_id: Seq<char>,
    pub space_id: Seq<char>,
    pub power_level: u64,
}

impl View for AwaitRooms {
    type V = AwaitRoomsView;

    open spec fn view(&self) -> AwaitRoomsView {
        AwaitRoomsView {
            user_id: self.user_id@,
            space_id: self.space_id@,
            power_level: self.power_level,
        }
    }
}

/// The member and the level, the rooms in which the level is to be set, the
/// index of the room whose turn it is, and the rooms in which it stands.
pub struct ApplyingView {
    pub user_id: Seq<char>,
    pub power_level: u64,
    pub room_ids: Seq<Seq<char>>,
    pub next: int,
    pub applied: Seq<Seq<char>>,
}

impl View for Applying {
    type V = ApplyingView;

    closed spec fn view(&self) -> ApplyingView {
        ApplyingView {
            user_id: self.user_id@,
            power_level: self.power_level,
            room_ids: self.room_ids.deep_view(),
            next: self.next as int,
            applied: self.applied.deep_view(),
        }
    }
}

/// What a step says.
pub enum HandlerStepView {
    GetGroup(AwaitGroupView),
    GetSpaceRooms(AwaitRoomsView),
    SetPowerLevel(ApplyingView),
    Done(OutcomeView),
    Failed(HandlerErrorView),
}

impl View for HandlerStep {
    type V = HandlerStepView;

    open spec fn view(&self) -> HandlerStepView {
        match self {
            HandlerStep::GetGroup(state) => HandlerStepView::GetGroup(state@),
            HandlerStep::GetSpaceRooms(state) => HandlerStepView::GetSpaceRooms(state@),
            HandlerStep::SetPowerLevel(state) => HandlerStepView::SetPowerLevel(state@),
            HandlerStep::Done(outcome) => HandlerStepView::Done(outcome@),
            HandlerStep::Failed(error) => HandlerStepView::Failed(error@),
        }
    }
}

/// What the platform answers when a level is to be set in a room: the room
/// in which it now stands, none where the relay does not know the room, or
/// the failure.
pub open spec fn applied_view(answer: Result<Option<String>, PowerLevelError>) -> Result<
    Option<Seq<char>>,
    PowerLevelError,
> {
    match answer {
        Ok(room) => Ok(room.deep_view()),
        Err(error) => Err(error),
    }
}

/// The first step for an event. A payload that could not be read is passed
/// over. For any other the identity of the member on the chat platform is
/// made up from the principal, the user name and the home server, and the
/// group is looked up.
pub open spec fn first_step(payload: Option<PayloadView>, matrix_url: Seq<char>) -> HandlerStepView {
    match payload {
        None => HandlerStepView::Done(OutcomeView::Skipped(SkipView::MalformedPayload)),
        Some(payload) => HandlerStepView::GetGroup(
            AwaitGroupView {
                user_id: MatrixUserID::text(payload.principal, payload.username, matrix_url),
                group_id: payload.group_id,
                roles: payload.roles,
            },
        ),
    }
}

impl AwaitGroupView {
    /// The step after the lookup of the group, which gave the primary room of
    /// the group or nothing, for an event whose one role, where it names just
    /// one, was read as `role`. An event is passed over where the group was
    /// not found, where it names no role or several, and where its role is
    /// none of the known ones. An event that is not passed over fails the
    /// handler where the primary room is no room identifier. Else the level
    /// of the role is fixed and the rooms of the space are listed.
    pub open spec fn after_group_as(
        self,
        space_id: Option<Seq<char>>,
        role: Option<Role>,
    ) -> HandlerStepView {
        match space_id {
            None => HandlerStepView::Done(
                OutcomeView::Skipped(SkipView::GroupNotFound { group_id: self.group_id }),
            ),
            Some(space_id) => if self.roles.len() != 1 {
                HandlerStepView::Done(
                    OutcomeView::Skipped(SkipView::RoleCount { count: self.roles.len() as int }),
                )
            } else {
                match role {
                    None => HandlerStepView::Done(
                        OutcomeView::Skipped(SkipView::UnknownRole { role: self.roles[0] }),
                    ),
                    Some(role) => if !room_id_syntax(space_id) {
                        HandlerStepView::Failed(HandlerErrorView::InvalidSpaceId { space_id })
                    } else {
                        HandlerStepView::GetSpaceRooms(
                            AwaitRoomsView {
                                user_id: self.user_id,
                                space_id,
                                power_level: role.level(),
                            },
                        )
                    },
                }
            },
        }
    }

    /// The role of the event, read without regard to case, where the event
    /// names just one role and that role is known.
    pub open spec fn role(self) -> Option<Role> {
        if self.roles.len() == 1 {
            Role::parse(self.roles[0])
        } else {
            None
        }
    }

    /// The step after the lookup of the group.
    pub open spec fn after_group(self, space_id: Option<Seq<char>>) -> HandlerStepView {
        self.after_group_as(space_id, self.role())
    }
}

impl AwaitRoomsView {
    /// The rooms in which the level is to be set: the space itself and the
    /// rooms listed below it, in the order of their identifiers, each once.
    pub open spec fn targets(self, listed: Seq<Seq<char>>) -> Seq<Seq<char>> {
        sort_dedup(seq![self.space_id] + listed)
    }

    /// The step after the rooms of the space were listed. A listing that
    /// could not be had fails the handler; an empty one has the event passed
    /// over. Else the first of the target rooms is up.
    pub open spec fn after_rooms(self, listed: Option<Seq<Seq<char>>>) -> HandlerStepView {
        match listed {
            None => HandlerStepView::Failed(HandlerErrorView::SpaceRooms),
            Some(listed) => if listed.len() == 0 {
                HandlerStepView::Done(
                    OutcomeView::Skipped(SkipView::NoSpaceRooms { space_id: self.space_id }),
                )
            } else {
                HandlerStepView::SetPowerLevel(
                    ApplyingView {
                        user_id: self.user_id,
                        power_level: self.power_level,
                        room_ids: self.targets(listed),
                        next: 0,
                        applied: Seq::empty(),
                    },
                )
            },
        }
    }
}

impl ApplyingView {
    /// The room whose turn it is.
    pub open spec fn room_id(self) -> Seq<char> {
        self.room_ids[self.next]
    }

    /// How the handler ends once every room was tried: with the rooms in
    /// which the level stands, or, where there is none, with all the rooms
    /// that were tried.
    pub open spec fn summary(self, applied: Seq<Seq<char>>) -> OutcomeView {
        if applied.len() == 0 {
            OutcomeView::NotApplied(
                SummaryView {
                    user_id: self.user_id,
                    room_ids: self.room_ids,
                    power_level: self.power_level,
                },
            )
        } else {
            OutcomeView::Applied(
                SummaryView {
                    user_id: self.user_id,
                    room_ids: applied,
                    power_level: self.power_level,
                },
            )
        }
    }

    /// The step after the platform answered for the room whose turn it was. A
    /// failure fails the handler, and no further room is tried. A room that
    /// took the level is noted; one that the relay does not know is not. Then
    /// the next room is up, or, after the last, the handler ends.
    pub open spec fn after_applied(
        self,
        answer: Result<Option<Seq<char>>, PowerLevelError>,
    ) -> HandlerStepView {
        match answer {
            Err(error) => HandlerStepView::Failed(
                HandlerErrorView::PowerLevel { room_id: self.room_id(), error },
            ),
            Ok(room) => {
                let applied = match room {
                    Some(room) => self.applied.push(room),
                    None => self.applied,
                };
                if self.next + 1 < self.room_ids.len() {
                    HandlerStepView::SetPowerLevel(
                        ApplyingView {
                            user_id: self.user_id,
                            power_level: self.power_level,
                            room_ids: self.room_ids,
                            next: self.next + 1,
                            applied,
                        },
                    )
                } else {
                    HandlerStepView::Done(self.summary(applied))
                }
            },
        }
    }
}

impl Outcome {
    /// Whether the outcome is to be reported as a warning: nothing was
    /// applied. An outcome with rooms in which the level stands is reported
    /// as information.
    pub fn is_warning(&self) -> (out: bool)
        ensures
            out == !(self@ is Applied),
    {
        match self {
            Outcome::Applied(_) => false,
            _ => true,
        }
    }

    /// The line with which the outcome is reported.
    pub fn message(&self) -> (out: &'static str)
        ensures
            out@ == match self@ {
                OutcomeView::Applied(_) => "Successfully set member power level"@,
                OutcomeView::NotApplied(_) => "No rooms found to apply power level"@,
                OutcomeView::Skipped(SkipView::MalformedPayload) => "Skipping event, failed to read payload"@,
                OutcomeView::Skipped(SkipView::GroupNotFound { .. }) => "Skipping event, failed to get group by id"@,
                OutcomeView::Skipped(SkipView::RoleCount { .. }) => "Skipping event, expected exactly one role"@,
                OutcomeView::Skipped(SkipView::UnknownRole { .. }) => "Skipping event, failed to parse role"@,
                OutcomeView::Skipped(SkipView::NoSpaceRooms { .. }) => "Skipping event, no space room ids found"@,
            },
    {
        match self {
            Outcome::Applied(_) => "Successfully set member power level",
            Outcome::NotApplied(_) => "No rooms found to apply power level",
            Outcome::Skipped(Skip::MalformedPayload) => "Skipping event, failed to read payload",
            Outcome::Skipped(Skip::GroupNotFound { .. }) => "Skipping event, failed to get group by id",
            Outcome::Skipped(Skip::RoleCount { .. }) => "Skipping event, expected exactly one role",
            Outcome::Skipped(Skip::UnknownRole { .. }) => "Skipping event, failed to parse role",
            Outcome::Skipped(Skip::NoSpaceRooms { .. }) => "Skipping event, no space room ids found",
        }
    }
}

/// Begins to handle a role-change event, given its payload, or nothing where
/// the payload could not be read, and the address of the home server.
pub fn handle_group_role(
    payload: Option<GroupMemberRoleChangedPayload>,
    matrix_url: &str,
) -> (out: HandlerStep)
    ensures
        out@ == first_step(
            match payload {
                Some(payload) => Some(payload@),
                None => None,
            },
            matrix_url@,
        ),
{
    match payload {
        None => HandlerStep::Done(Outcome::Skipped(Skip::MalformedPayload)),
        Some(payload) => {
            let user = MatrixUserID::new(
                payload.principal,
                payload.username,
                String::from_str(matrix_url),
            );
            HandlerStep::GetGroup(
                AwaitGroup {
                    user_id: user.to_string(),
                    group_id: payload.group_id,
                    roles: payload.roles,
                },
            )
        },
    }
}

impl AwaitGroup {
    /// Takes the primary room of the group, or nothing where the group could
    /// not be looked up, and the role that the one role of the event was read
    /// as, or nothing where it is none of the known ones.
    pub fn on_group_as(self, space_id: Option<String>, role: Option<Role>) -> (out: HandlerStep)
        ensures
            out@ == self@.after_group_as(space_id.deep_view(), role),
    {
        let space_id = match space_id {
            None => {
                return HandlerStep::Done(
                    Outcome::Skipped(Skip::GroupNotFound { group_id: self.group_id }),
                );
            },
            Some(space_id) => space_id,
        };
        if self.roles.len() != 1 {
            return HandlerStep::Done(Outcome::Skipped(Skip::RoleCount { count: self.roles.len() }));
        }
        assert(self.roles.deep_view()[0] == self.roles@[0]@);
        let role = match role {
            None => {
                return HandlerStep::Done(
                    Outcome::Skipped(Skip::UnknownRole { role: self.roles[0].clone() }),
                );
            },
            Some(role) => role,
        };
        if !is_room_id(space_id.as_str()) {
            return HandlerStep::Failed(HandlerError::InvalidSpaceId { space_id });
        }
        HandlerStep::GetSpaceRooms(
            AwaitRooms { user_id: self.user_id, space_id, power_level: role.power_level() },
        )
    }

    /// Takes the primary room of the group, or nothing where the group could
    /// not be looked up.
    pub fn on_group(self, space_id: Option<String>) -> (out: HandlerStep)
        ensures
            out@ == self@.after_group(space_id.deep_view()),
    {
        let role = if self.roles.len() == 1 {
            assert(self.roles.deep_view()[0] == self.roles@[0]@);
            match Role::from_str(self.roles[0].as_str()) {
                Ok(role) => Some(role),
                Err(_) => None,
            }
        } else {
            None
        };
        self.on_group_as(space_id, role)
    }
}

impl AwaitRooms {
    /// Takes the rooms listed below the space, or nothing where the listing
    /// could not be had.
    pub fn on_rooms(self, listed: Option<Vec<String>>) -> (out: HandlerStep)
        ensures
            out@ == self@.after_rooms(listed.deep_view()),
    {
        let mut listed = match listed {
            None => {
                return HandlerStep::Failed(HandlerError::SpaceRooms);
            },
            Some(listed) => listed,
        };
        if listed.len() == 0 {
            return HandlerStep::Done(
                Outcome::Skipped(Skip::NoSpaceRooms { space_id: self.space_id }),
            );
        }
        let ghost below = listed.deep_view();
        let ghost all = seq![self.space_id@] + below;
        let mut rooms: Vec<String> = Vec::new();
        rooms.push(self.space_id);
        rooms.append(&mut listed);
        assert(rooms.deep_view() =~= all);
        let room_ids = sorted_unique(rooms);
        let applied: Vec<String> = Vec::new();
        proof {
            sort_dedup_is_sorted(all);
            assert(all[0] == self.space_id@);
            assert(all.contains(self.space_id@));
            assert(sort_dedup(all).contains(self.space_id@));
            assert(applied.deep_view() =~= Seq::<Seq<char>>::empty());
        }
        HandlerStep::SetPowerLevel(
            Applying {
                user_id: self.user_id,
                power_level: self.power_level,
                room_ids,
                next: 0,
                applied,
            },
        )
    }
}

impl Applying {
    #[verifier::type_invariant]
    spec fn in_turn(self) -> bool {
        self.next < self.room_ids@.len()
    }

    /// The room whose turn it is.
    pub fn room_id(&self) -> (out: &str)
        ensures
            0 <= self@.next < self@.room_ids.len(),
            out@ == self@.room_id(),
    {
        proof {
            use_type_invariant(self);
        }
        self.room_ids[self.next].as_str()
    }

    /// The member whose level is set.
    pub fn user_id(&self) -> (out: &str)
        ensures
            out@ == self@.user_id,
    {
        self.user_id.as_str()
    }

    /// The level that is set.
    pub fn power_level(&self) -> (out: u64)
        ensures
            out == self@.power_level,
    {
        self.power_level
    }

    /// All the rooms in which the level is to be set, in order.
    pub fn room_ids(&self) -> (out: Vec<String>)
        ensures
            out.deep_view() == self@.room_ids,
    {
        clone_texts(&self.room_ids)
    }

    /// Takes the answer of the platform for the room whose turn it is: the
    /// room in which the level now stands, nothing where the relay does not
    /// know the room, or the failure.
    pub fn on_applied(self, answer: Result<Option<String>, PowerLevelError>) -> (out: HandlerStep)
        ensures
            out@ == self@.after_applied(applied_view(answer)),
    {
        proof {
            use_type_invariant(&self);
        }
        let state = self;
        match answer {
            Err(error) => HandlerStep::Failed(
                HandlerError::PowerLevel { room_id: state.room_ids[state.next].clone(), error },
            ),
            Ok(room) => {
                let mut applied = state.applied;
                match room {
                    Some(room) => {
                        let ghost noted = applied.deep_view().push(room@);
                        applied.push(room);
                        assert(applied.deep_view() =~= noted);
                    },
                    None => {},
                }
                let count = state.room_ids.len();
                if state.next + 1 < count {
                    HandlerStep::SetPowerLevel(
                        Applying {
                            user_id: state.user_id,
                            power_level: state.power_level,
                            room_ids: state.room_ids,
                            next: state.next + 1,
                            applied,
                        },
                    )
                } else if applied.len() == 0 {
                    HandlerStep::Done(
                        Outcome::NotApplied(
                            Summary {
                                user_id: state.user_id,
                                room_ids: state.room_ids,
                                power_level: state.power_level,
                            },
                        ),
                    )
                } else {
                    HandlerStep::Done(
                        Outcome::Applied(
                            Summary {
                                user_id: state.user_id,
                                room_ids: applied,
                                power_level: state.power_level,
                            },
                        ),
                    )
                }
            },
        }
    }
}

/// What the outside answers while one event is handled. The answers are
/// fixed for the event: no question is asked twice.
pub struct Answers {
    /// The primary room of the group, or nothing where the lookup fails.
    pub group: Option<Seq<char>>,
    /// The rooms listed below the space, or nothing where the listing fails.
    pub rooms: Option<Seq<Seq<char>>>,
    /// For each room, what comes of setting the level there.
    pub level: spec_fn(Seq<char>) -> Result<Option<Seq<char>>, PowerLevelError>,
}

/// One request to set a level: the room, the member, and the level.
pub struct LevelCall {
    pub room_id: Seq<char>,
    pub user_id: Seq<char>,
    pub power_level: u64,
}

/// One event handled to its end: the requests to set a level that were made,
/// in order, and how the handler ended.
pub struct Run {
    pub calls: Seq<LevelCall>,
    pub end: Result<OutcomeView, HandlerErrorView>,
}

impl HandlerStepView {
    /// How many kinds of question can still follow the step.
    pub open spec fn rank(self) -> int {
        match self {
            HandlerStepView::GetGroup(_) => 3,
            HandlerStepView::GetSpaceRooms(_) => 2,
            HandlerStepView::SetPowerLevel(_) => 1,
            _ => 0,
        }
    }

    /// How many rooms are still to be tried.
    pub open spec fn rooms_left(self) -> int {
        match self {
            HandlerStepView::SetPowerLevel(state) => state.room_ids.len() - state.next,
            _ => 0,
        }
    }

    /// The rest of the handling of an event, from this step on, against the
    /// given answers.
    pub open spec fn run(self, answers: Answers) -> Run
        decreases self.rank(), self.rooms_left(),
    {
        match self {
            HandlerStepView::GetGroup(state) => state.after_group(answers.group).run(answers),
            HandlerStepView::GetSpaceRooms(state) => state.after_rooms(answers.rooms).run(answers),
            HandlerStepView::SetPowerLevel(state) => {
                let rest = state.after_applied((answers.level)(state.room_id())).run(answers);
                Run {
                    calls: seq![
                        LevelCall {
                            room_id: state.room_id(),
                            user_id: state.user_id,
                            power_level: state.power_level,
                        },
                    ] + rest.calls,
                    end: rest.end,
                }
            },
            HandlerStepView::Done(outcome) => Run { calls: Seq::empty(), end: Ok(outcome) },
            HandlerStepView::Failed(error) => Run { calls: Seq::empty(), end: Err(error) },
        }
    }
}

/// The handling of an event from its payload to its end.
pub open spec fn handling(payload: Option<PayloadView>, matrix_url: Seq<char>, answers: Answers) -> Run {
    first_step(payload, matrix_url).run(answers)
}

/// An event that names no role, or more than one, is handled with success,
/// and no request to set a level is made for it, whatever the outside
/// answers.
pub proof fn wrong_role_count_sets_no_level(
    payload: PayloadView,
    matrix_url: Seq<char>,
    answers: Answers,
)
    requires
        payload.roles.len() != 1,
    ensures
        handling(Some(payload), matrix_url, answers).calls.len() == 0,
        handling(Some(payload), matrix_url, answers).end is Ok,
        handling(Some(payload), matrix_url, answers).end->Ok_0 is Skipped,
{
    let first = first_step(Some(payload), matrix_url);
    let state = first->GetGroup_0;
    assert(first.run(answers) == state.after_group(answers.group).run(answers));
}

/// An event whose one role is, in lower case, none of `owner`, `admin`,
/// `moderator` and `member` is handled with success, and no request to set a
/// level is made for it, whatever the outside answers.
pub proof fn unknown_role_sets_no_level(
    payload: PayloadView,
    matrix_url: Seq<char>,
    answers: Answers,
)
    requires
        payload.roles.len() == 1,
        lowercase(payload.roles[0]) != "owner"@,
        lowercase(payload.roles[0]) != "admin"@,
        lowercase(payload.roles[0]) != "moderator"@,
        lowercase(payload.roles[0]) != "member"@,
    ensures
        handling(Some(payload), matrix_url, answers).calls.len() == 0,
        handling(Some(payload), matrix_url, answers).end is Ok,
        handling(Some(payload), matrix_url, answers).end->Ok_0 is Skipped,
{
    let first = first_step(Some(payload), matrix_url);
    let state = first->GetGroup_0;
    assert(first.run(answers) == state.after_group(answers.group).run(answers));
}

/// Whether the state is one that the handler can be in: a room has its turn.
pub open spec fn in_turn(state: ApplyingView) -> bool {
    0 <= state.next < state.room_ids.len()
}

/// From a state with rooms still to try, the requests made are for those
/// rooms in their order, up to the first failure, each for the member and
/// the level of the state; and the handler fails only where the platform
/// fails for a room.
pub proof fn requests_follow_the_rooms(state: ApplyingView, answers: Answers)
    requires
        in_turn(state),
    ensures
        ({
            let run = HandlerStepView::SetPowerLevel(state).run(answers);
            &&& 1 <= run.calls.len() <= state.room_ids.len() - state.next
            &&& forall|i: int|
                0 <= i < run.calls.len() ==> #[trigger] run.calls[i] == (LevelCall {
                    room_id: state.room_ids[state.next + i],
                    user_id: state.user_id,
                    power_level: state.power_level,
                })
            &&& forall|i: int|
                0 <= i < run.calls.len() - 1 ==> (#[trigger] (answers.level)(
                    state.room_ids[state.next + i],
                )) is Ok
            &&& run.end is Ok <==> (answers.level)(
                state.room_ids[state.next + run.calls.len() - 1],
            ) is Ok
            &&& run.end is Ok ==> run.calls.len() == state.room_ids.len() - state.next
        }),
    decreases state.room_ids.len() - state.next,
{
    let step = HandlerStepView::SetPowerLevel(state);
    let next = state.after_applied((answers.level)(state.room_id()));
    let run = step.run(answers);
    let rest = next.run(answers);
    assert(run.calls == seq![
        LevelCall {
            room_id: state.room_id(),
            user_id: state.user_id,
            power_level: state.power_level,
        },
    ] + rest.calls);
    if next is SetPowerLevel {
        let after = next->SetPowerLevel_0;
        requests_follow_the_rooms(after, answers);
        assert forall|i: int| 0 <= i < run.calls.len() implies #[trigger] run.calls[i] == (LevelCall {
            room_id: state.room_ids[state.next + i],
            user_id: state.user_id,
            power_level: state.power_level,
        }) by {
            if i > 0 {
                assert(run.calls[i] == rest.calls[i - 1]);
            }
        }
        assert forall|i: int| 0 <= i < run.calls.len() - 1 implies (#[trigger] (answers.level)(
            state.room_ids[state.next + i],
        )) is Ok by {
            if i > 0 {
                assert((answers.level)(after.room_ids[after.next + (i - 1)]) is Ok);
            }
        }
    } else {
        assert(rest.calls.len() == 0);
    }
}

/// Whether a room is the space or one of the rooms listed below it.
pub open spec fn is_target(state: AwaitRoomsView, listed: Seq<Seq<char>>, room: Seq<char>) -> bool {
    room == state.space_id || listed.contains(room)
}

/// The rooms in which a level is set are in the order of their identifiers,
/// none of them twice; they are the space and the rooms listed below it, and
/// no other.
pub proof fn targets_are_the_room_set(state: AwaitRoomsView, listed: Seq<Seq<char>>)
    ensures
        strictly_sorted(state.targets(listed)),
        forall|room: Seq<char>|
            #[trigger] state.targets(listed).contains(room) <==> is_target(state, listed, room),
{
    let all = seq![state.space_id] + listed;
    sort_dedup_is_sorted(all);
    assert forall|room: Seq<char>|
        #[trigger] state.targets(listed).contains(room) <==> is_target(state, listed, room) by {
        assert(sort_dedup(all).contains(room) <==> all.contains(room));
        if all.contains(room) {
            let k = choose|k: int| 0 <= k < all.len() && all[k] == room;
            if k > 0 {
                assert(listed[k - 1] == room);
            }
        }
        if room == state.space_id {
            assert(all[0] == room);
        }
        if listed.contains(room) {
            let k = choose|k: int| 0 <= k < listed.len() && listed[k] == room;
            assert(all[k + 1] == room);
        }
    }
}

/// The rooms in which a level is set depend on which rooms are listed, not
/// on the order of the listing nor on how often a room is listed.
pub proof fn targets_ignore_the_order(
    state: AwaitRoomsView,
    listed: Seq<Seq<char>>,
    other: Seq<Seq<char>>,
)
    requires
        forall|room: Seq<char>| listed.contains(room) <==> other.contains(room),
    ensures
        state.targets(listed) == state.targets(other),
{
    targets_are_the_room_set(state, listed);
    targets_are_the_room_set(state, other);
    let a = state.targets(listed);
    let b = state.targets(other);
    assert forall|room: Seq<char>| a.contains(room) <==> b.contains(room) by {
        assert(a.contains(room) <==> is_target(state, listed, room));
        assert(b.contains(room) <==> is_target(state, other, room));
    }
    strictly_sorted_is_unique(a, b);
}

/// The levels that stand on the platform: for a room and a member, the level
/// of the member in the room.
pub type LevelTable = Map<(Seq<char>, Seq<char>), u64>;

/// The levels after a list of requests has been granted, one after the
/// other, on a platform where a granted request puts the level of the member
/// in the room in place of the one that stood there.
pub open spec fn levels_after(table: LevelTable, calls: Seq<LevelCall>) -> LevelTable
    decreases calls.len(),
{
    if calls.len() == 0 {
        table
    } else {
        levels_after(table, calls.drop_last()).insert(
            (calls.last().room_id, calls.last().user_id),
            calls.last().power_level,
        )
    }
}

/// The level that the last request for a room and a member asks for, if
/// there is such a request.
pub open spec fn last_level(calls: Seq<LevelCall>, key: (Seq<char>, Seq<char>)) -> Option<u64>
    decreases calls.len(),
{
    if calls.len() == 0 {
        None
    } else if (calls.last().room_id, calls.last().user_id) == key {
        Some(calls.last().power_level)
    } else {
        last_level(calls.drop_last(), key)
    }
}

/// After a list of requests, a member has in a room the level of the last
/// request for that member and room, and where there was none, the level
/// that stood there before.
pub proof fn levels_after_are_last_levels(table: LevelTable, calls: Seq<LevelCall>)
    ensures
        forall|key: (Seq<char>, Seq<char>)|
            #![trigger levels_after(table, calls).dom().contains(key)]
            levels_after(table, calls).dom().contains(key) <==> (table.dom().contains(key)
                || last_level(calls, key) is Some),
        forall|key: (Seq<char>, Seq<char>)|
            #![trigger levels_after(table, calls)[key]]
            levels_after(table, calls).dom().contains(key) ==> levels_after(table, calls)[key]
                == match last_level(calls, key) {
                Some(level) => level,
                None => table[key],
            },
    decreases calls.len(),
{
    if calls.len() > 0 {
        let front = calls.drop_last();
        let last = (calls.last().room_id, calls.last().user_id);
        levels_after_are_last_levels(table, front);
        assert forall|key: (Seq<char>, Seq<char>)|
            #![trigger levels_after(table, calls).dom().contains(key)]
            levels_after(table, calls).dom().contains(key) <==> (table.dom().contains(key)
                || last_level(calls, key) is Some) by {
            assert(levels_after(table, front).dom().contains(key) <==> (table.dom().contains(key)
                || last_level(front, key) is Some));
        }
        assert forall|key: (Seq<char>, Seq<char>)|
            #![trigger levels_after(table, calls)[key]]
            levels_after(table, calls).dom().contains(key) implies levels_after(table, calls)[key]
                == match last_level(calls, key) {
                Some(level) => level,
                None => table[key],
            } by {
            if key != last {
                assert(levels_after(table, front).dom().contains(key));
                assert(levels_after(table, calls)[key] == levels_after(table, front)[key]);
            }
        }
    }
}

/// Granting a list of requests a second time leaves the levels as they were
/// after the first: on such a platform the replay of a batch of events, with
/// the same answers, changes nothing.
pub proof fn replay_changes_nothing(table: LevelTable, calls: Seq<LevelCall>)
    ensures
        levels_after(levels_after(table, calls), calls) == levels_after(table, calls),
{
    let once = levels_after(table, calls);
    let twice = levels_after(once, calls);
    levels_after_are_last_levels(table, calls);
    levels_after_are_last_levels(once, calls);
    assert(twice =~= once);
}

} // verus!
