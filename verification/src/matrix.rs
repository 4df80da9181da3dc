//! The relay's dealings with the chat platform, as far as they are decisions:
//! when to stop trying to join a room, how to walk the rooms of a space, and
//! in which order a permission level is put on a member of a room.
//!
//! Each of the three is a small machine. A step names what the caller does
//! next; where something is to be asked of the platform, the step holds the
//! state that takes the answer.
use crate::text::same_text;
use vstd::arithmetic::power2::{lemma2_to64, lemma_pow2_unfold, pow2};
use vstd::prelude::*;
use vstd::string::*;

verus! {

/// The seconds to wait after the first failed attempt to join a room.
pub const FIRST_JOIN_RETRY_DELAY: u64 = 2;

/// The longest wait that is followed by another attempt, in seconds.
pub const MAX_JOIN_RETRY_DELAY: u64 = 3600;

/// The highest permission level that the platform can carry: the largest
/// integer that a 64-bit float holds exactly.
pub const MAX_POWER_LEVEL: u64 = 0x001F_FFFF_FFFF_FFFF;

/// Whether a text has the form of a room identifier: it begins with `!`.
pub open spec fn room_id_syntax(s: Seq<char>) -> bool {
    s.len() > 0 && s[0] == '!'
}

/// Whether a text has the form of a user identifier, as
/// `matrix_sdk::ruma::UserId::parse` decides: it begins with `@`, holds a
/// colon, and what follows the first colon is a server name.
pub uninterp spec fn user_id_syntax(s: Seq<char>) -> bool;

/// Calls `matrix_sdk::ruma::RoomId::parse` and says whether it succeeded. The
/// validation behind it, in the configuration that `matrix-sdk` selects
/// (identifiers of any length), accepts exactly the texts whose first byte is
/// `!`.
#[verifier::external_body]
pub(crate) fn is_room_id(s: &str) -> (out: bool)
    ensures
        out == room_id_syntax(s@),
{
    matrix_sdk::ruma::RoomId::parse(s).is_ok()
}

/// Calls `matrix_sdk::ruma::UserId::parse` and says whether it succeeded. The
/// outcome depends on the text alone; the contract gives it a name.
#[verifier::external_body]
pub(crate) fn is_user_id(s: &str) -> (out: bool)
    ensures
        out == user_id_syntax(s@),
{
    matrix_sdk::ruma::UserId::parse(s).is_ok()
}

/// Calls `matrix_sdk::ruma::Int::try_from` on a `u64` and hands the integer
/// back as an `i64`. The conversion succeeds exactly up to the largest
/// integer that a float holds, and keeps the value.
#[verifier::external_body]
pub(crate) fn to_platform_level(power_level: u64) -> (out: Option<i64>)
    ensures
        out is Some <==> power_level <= MAX_POWER_LEVEL,
        out is Some ==> out->Some_0 == power_level,
{
    matrix_sdk::ruma::Int::try_from(power_level).ok().map(i64::from)
}

/// Whether an invitation is meant for the relay: the member that the event
/// speaks of is the relay's own user.
pub fn is_own_invitation(state_key: &str, own_user_id: &str) -> (out: bool)
    ensures
        out == (state_key@ == own_user_id@),
{
    same_text(state_key, own_user_id)
}

/// The state of one run of attempts to join a room: the seconds to wait if
/// the next attempt fails.
#[derive(Debug, Clone, Copy, PartialEq, Eq, Structural)]
pub struct JoinRetry {
    pub delay: u64,
}

/// What to do after an attempt to join.
#[derive(Debug, Clone, Copy, PartialEq, Eq, Structural)]
pub enum JoinStep {
    /// The room is joined.
    Joined,
    /// Sleep for `wait` seconds, then try again.
    Retry { wait: u64 },
    /// Sleep for `wait` seconds, then report the failure once and stop: the
    /// inviter will have to invite again.
    GiveUp { wait: u64 },
}

impl JoinRetry {
    /// The state before the first attempt.
    pub open spec fn fresh() -> JoinRetry {
        JoinRetry { delay: FIRST_JOIN_RETRY_DELAY }
    }

    /// The state and the step after an attempt. A success ends the run. A
    /// failure is followed by a wait of `delay` seconds; the delay then
    /// doubles, and the run ends once it has passed the maximum.
    pub open spec fn after_attempt(self, joined: bool) -> (JoinRetry, JoinStep) {
        if joined {
            (self, JoinStep::Joined)
        } else if self.delay * 2 > MAX_JOIN_RETRY_DELAY {
            (self, JoinStep::GiveUp { wait: self.delay })
        } else {
            (JoinRetry { delay: (self.delay * 2) as u64 }, JoinStep::Retry { wait: self.delay })
        }
    }

    /// The state after `n` failures in a row.
    pub open spec fn after_failures(self, n: nat) -> JoinRetry
        decreases n,
    {
        if n == 0 {
            self
        } else {
            self.after_failures((n - 1) as nat).after_attempt(false).0
        }
    }

    /// The state before the first attempt.
    pub fn new() -> (out: JoinRetry)
        ensures
            out == JoinRetry::fresh(),
    {
        JoinRetry { delay: FIRST_JOIN_RETRY_DELAY }
    }

    /// Takes the outcome of an attempt to join.
    pub fn on_attempt(self, joined: bool) -> (out: (JoinRetry, JoinStep))
        ensures
            out == self.after_attempt(joined),
    {
        if joined {
            (self, JoinStep::Joined)
        } else if self.delay > MAX_JOIN_RETRY_DELAY / 2 {
            (self, JoinStep::GiveUp { wait: self.delay })
        } else {
            (JoinRetry { delay: self.delay * 2 }, JoinStep::Retry { wait: self.delay })
        }
    }
}

/// The schedule of a run that starts fresh: the wait after the `n`-th failure
/// is 2 to the power of `n` seconds; the first ten failures are followed by
/// another attempt, the eleventh, with its wait of 2048 seconds, by none. So
/// a room is tried eleven times at most.
pub proof fn backoff_schedule(n: nat)
    ensures
        n <= 10 ==> JoinRetry::fresh().after_failures(n).delay == pow2(n + 1),
        n < 10 ==> JoinRetry::fresh().after_failures(n).after_attempt(false).1 == (JoinStep::Retry {
            wait: pow2(n + 1) as u64,
        }),
        n >= 10 ==> JoinRetry::fresh().after_failures(n).after_attempt(false).1 == (
        JoinStep::GiveUp { wait: 2048 }),
    decreases n,
{
    lemma2_to64();
    if n > 0 {
        backoff_schedule((n - 1) as nat);
        if n <= 10 {
            lemma_pow2_unfold(n + 1);
        }
    }
}

/// One request for a page of the rooms below a space.
#[derive(Debug, PartialEq, Eq)]
pub struct HierarchyRequest {
    /// The space whose rooms are asked for.
    pub space_id: String,
    /// How far below the space to look.
    pub max_depth: u64,
    /// The cursor that the page before handed out; none for the first page.
    pub from: Option<String>,
}

/// One page of the answer.
#[derive(Debug, PartialEq, Eq)]
pub struct HierarchyPage {
    /// The identifiers of the rooms on the page.
    pub rooms: Vec<String>,
    /// The cursor for the next page; none on the last one.
    pub next_batch: Option<String>,
}

/// The walk through the pages of a space: the request that is under way and
/// the rooms found so far.
#[derive(Debug, PartialEq, Eq)]
pub struct SpaceRooms {
    pub request: HierarchyRequest,
    pub rooms: Vec<String>,
}

/// What a walk holds.
pub struct SpaceRoomsView {
    pub space_id: Seq<char>,
    pub max_depth: u64,
    pub from: Option<Seq<char>>,
    pub rooms: Seq<Seq<char>>,
}

impl View for SpaceRooms {
    type V = SpaceRoomsView;

    open spec fn view(&self) -> SpaceRoomsView {
        SpaceRoomsView {
            space_id: self.request.space_id@,
            max_depth: self.request.max_depth,
            from: self.request.from.deep_view(),
            rooms: self.rooms.deep_view(),
        }
    }
}

/// What to do next on a walk.
#[derive(Debug, PartialEq, Eq)]
pub enum SpaceRoomsStep {
    /// Send `request` of the state, and hand the answer to
    /// [`SpaceRooms::on_page`].
    Request(SpaceRooms),
    /// The walk is over: these are the rooms, in the order of the pages.
    Done(Vec<String>),
    /// A page after the first could not be had.
    Failed,
}

/// What a step of a walk says.
pub enum SpaceRoomsStepView {
    Request(SpaceRoomsView),
    Done(Seq<Seq<char>>),
    Failed,
}

impl View for SpaceRoomsStep {
    type V = SpaceRoomsStepView;

    open spec fn view(&self) -> SpaceRoomsStepView {
        match self {
            SpaceRoomsStep::Request(walk) => SpaceRoomsStepView::Request(walk@),
            SpaceRoomsStep::Done(rooms) => SpaceRoomsStepView::Done(rooms.deep_view()),
            SpaceRoomsStep::Failed => SpaceRoomsStepView::Failed,
        }
    }
}

/// What a page holds.
pub struct PageView {
    pub rooms: Seq<Seq<char>>,
    pub next_batch: Option<Seq<char>>,
}

impl View for HierarchyPage {
    type V = PageView;

    open spec fn view(&self) -> PageView {
        PageView { rooms: self.rooms.deep_view(), next_batch: self.next_batch.deep_view() }
    }
}

/// What an answer to a request holds: the page, or nothing where the request
/// failed.
pub open spec fn page_view(page: Option<HierarchyPage>) -> Option<PageView> {
    match page {
        Some(page) => Some(page@),
        None => None,
    }
}

impl SpaceRoomsView {
    /// The walk at its beginning: the first page of the direct children of
    /// the space is asked for, and no room is known.
    pub open spec fn begin(space_id: Seq<char>) -> SpaceRoomsView {
        SpaceRoomsView { space_id, max_depth: 1, from: None, rooms: Seq::empty() }
    }

    /// The step after an answer. A first page that cannot be had ends the
    /// walk with no rooms; a later one fails it. A page adds its rooms to
    /// those found; its cursor, where it has one, is the start of the next
    /// request, and the walk ends where it has none.
    pub open spec fn after_page(self, page: Option<PageView>) -> SpaceRoomsStepView {
        match page {
            None => if self.from is None {
                SpaceRoomsStepView::Done(Seq::empty())
            } else {
                SpaceRoomsStepView::Failed
            },
            Some(page) => match page.next_batch {
                Some(cursor) => SpaceRoomsStepView::Request(
                    SpaceRoomsView {
                        space_id: self.space_id,
                        max_depth: self.max_depth,
                        from: Some(cursor),
                        rooms: self.rooms + page.rooms,
                    },
                ),
                None => SpaceRoomsStepView::Done(self.rooms + page.rooms),
            },
        }
    }
}

/// Begins the walk through the rooms directly below a space.
pub fn get_space_rooms(space_id: String) -> (out: SpaceRooms)
    ensures
        out@ == SpaceRoomsView::begin(space_id@),
{
    let out = SpaceRooms {
        request: HierarchyRequest { space_id, max_depth: 1, from: None },
        rooms: Vec::new(),
    };
    assert(out.rooms.deep_view() =~= Seq::<Seq<char>>::empty());
    out
}

impl SpaceRooms {
    /// Takes the answer to the request under way: the page, or nothing where
    /// the request failed.
    pub fn on_page(self, page: Option<HierarchyPage>) -> (out: SpaceRoomsStep)
        ensures
            out@ == self@.after_page(page_view(page)),
    {
        match page {
            None => {
                if self.request.from.is_none() {
                    let rooms: Vec<String> = Vec::new();
                    assert(rooms.deep_view() =~= Seq::<Seq<char>>::empty());
                    SpaceRoomsStep::Done(rooms)
                } else {
                    SpaceRoomsStep::Failed
                }
            },
            Some(page) => {
                let ghost before = self.rooms.deep_view();
                let ghost added = page.rooms.deep_view();
                let mut rooms = self.rooms;
                let mut more = page.rooms;
                rooms.append(&mut more);
                assert(rooms.deep_view() =~= before + added);
                match page.next_batch {
                    Some(cursor) => SpaceRoomsStep::Request(
                        SpaceRooms {
                            request: HierarchyRequest {
                                space_id: self.request.space_id,
                                max_depth: self.request.max_depth,
                                from: Some(cursor),
                            },
                            rooms,
                        },
                    ),
                    None => SpaceRoomsStep::Done(rooms),
                }
            },
        }
    }
}

impl SpaceRoomsView {
    /// The step that a walk has come to after the given pages were handed to
    /// it one after the other, as long as it asked for more.
    pub open spec fn after_pages(self, pages: Seq<PageView>) -> SpaceRoomsStepView
        decreases pages.len(),
    {
        if pages.len() == 0 {
            SpaceRoomsStepView::Request(self)
        } else {
            match self.after_page(Some(pages[0])) {
                SpaceRoomsStepView::Request(next) => next.after_pages(pages.drop_first()),
                other => other,
            }
        }
    }
}

/// The rooms of a list of pages, in the order of the pages.
pub open spec fn rooms_of(pages: Seq<PageView>) -> Seq<Seq<char>>
    decreases pages.len(),
{
    if pages.len() == 0 {
        Seq::empty()
    } else {
        pages[0].rooms + rooms_of(pages.drop_first())
    }
}

/// A walk follows the cursor until there is none: through pages of which each
/// but the last hands out a cursor, it ends after the last page, with the
/// rooms of all the pages in their order after those it had found before.
pub proof fn walk_collects_every_page(walk: SpaceRoomsView, pages: Seq<PageView>)
    requires
        pages.len() > 0,
        forall|i: int| 0 <= i < pages.len() - 1 ==> (#[trigger] pages[i]).next_batch is Some,
        pages.last().next_batch is None,
    ensures
        walk.after_pages(pages) == SpaceRoomsStepView::Done(walk.rooms + rooms_of(pages)),
    decreases pages.len(),
{
    let rest = pages.drop_first();
    if pages.len() == 1 {
        assert(pages[0] == pages.last());
        assert(rooms_of(rest) =~= Seq::<Seq<char>>::empty());
        assert(walk.rooms + rooms_of(pages) =~= walk.rooms + pages[0].rooms);
    } else {
        assert(pages[0].next_batch is Some);
        let next = walk.after_page(Some(pages[0]))->Request_0;
        assert(rest.last() == pages.last());
        assert(forall|i: int| 0 <= i < rest.len() ==> rest[i] == pages[i + 1]);
        walk_collects_every_page(next, rest);
        assert(next.rooms + rooms_of(rest) =~= walk.rooms + rooms_of(pages));
    }
}

/// What the platform says when asked whether the relay may set permission
/// levels in a room.
#[derive(Debug, Clone, Copy, PartialEq, Eq, Structural)]
pub enum Permission {
    Granted,
    Denied,
    /// The question could not be answered: the relay does not know its own
    /// user, or the request failed.
    Unknown,
}

/// Why a permission level was not set although the room is there.
#[derive(Debug, Clone, Copy, PartialEq, Eq, Structural)]
pub enum PowerLevelError {
    /// The platform could not say whether the relay may set levels.
    PermissionUnknown,
    /// The relay may not set levels in the room.
    PermissionDenied,
    /// The identity of the member is no user identifier.
    InvalidUserId,
    /// The level is higher than any the platform can carry.
    LevelOutOfRange,
    /// The platform refused the update.
    UpdateFailed,
}

impl PowerLevelError {
    /// The text of the error.
    pub fn message(&self) -> (out: &'static str)
        ensures
            out@ == match self {
                PowerLevelError::PermissionUnknown => "Failed to get can relayer send state events"@,
                PowerLevelError::PermissionDenied => "User does not have permission to set power levels"@,
                PowerLevelError::InvalidUserId => "Failed to parse user id"@,
                PowerLevelError::LevelOutOfRange => "Failed to convert power level"@,
                PowerLevelError::UpdateFailed => "Failed to update power levels"@,
            },
    {
        match self {
            PowerLevelError::PermissionUnknown => "Failed to get can relayer send state events",
            PowerLevelError::PermissionDenied => "User does not have permission to set power levels",
            PowerLevelError::InvalidUserId => "Failed to parse user id",
            PowerLevelError::LevelOutOfRange => "Failed to convert power level",
            PowerLevelError::UpdateFailed => "Failed to update power levels",
        }
    }
}

/// The first state of an update: is the room among those the relay knows?
#[derive(Debug, PartialEq, Eq)]
pub struct FindRoom {
    pub room_id: String,
    pub user_id: String,
    pub power_level: u64,
}

/// The second state: may the relay set permission levels in the room?
#[derive(Debug, PartialEq, Eq)]
pub struct CheckPermission {
    pub room_id: String,
    pub user_id: String,
    pub power_level: u64,
}

/// The third state: the level is to be sent to the platform.
#[derive(Debug, PartialEq, Eq)]
pub struct SendLevel {
    pub room_id: String,
    pub user_id: String,
    pub level: i64,
}

/// What to do next on an update. The first three steps hold the state that
/// takes the platform's answer.
#[derive(Debug, PartialEq, Eq)]
pub enum PowerLevelStep {
    /// Look the room up; then [`FindRoom::on_room`].
    FindRoom(FindRoom),
    /// Ask whether the relay may send permission levels to the room; then
    /// [`CheckPermission::on_permission`].
    CheckPermission(CheckPermission),
    /// Send the level of the member to the room; then [`SendLevel::on_sent`].
    SendLevel(SendLevel),
    /// The update is over: the level stands in the room named, or the relay
    /// does not know the room and nothing was done.
    Done(Option<String>),
    /// The update failed.
    Failed(PowerLevelError),
}

/// An update under way: the room, the member, and the level.
pub struct UpdateView {
    pub room_id: Seq<char>,
    pub user_id: Seq<char>,
    pub level: int,
}

impl View for FindRoom {
    type V = UpdateView;

    open spec fn view(&self) -> UpdateView {
        UpdateView { room_id: self.room_id@, user_id: self.user_id@, level: self.power_level as int }
    }
}

impl View for CheckPermission {
    type V = UpdateView;

    open spec fn view(&self) -> UpdateView {
        UpdateView { room_id: self.room_id@, user_id: self.user_id@, level: self.power_level as int }
    }
}

impl View for SendLevel {
    type V = UpdateView;

    open spec fn view(&self) -> UpdateView {
        UpdateView { room_id: self.room_id@, user_id: self.user_id@, level: self.level as int }
    }
}

/// What a step of an update says.
pub enum PowerLevelStepView {
    FindRoom(UpdateView),
    CheckPermission(UpdateView),
    SendLevel(UpdateView),
    Done(Option<Seq<char>>),
    Failed(PowerLevelError),
}

impl View for PowerLevelStep {
    type V = PowerLevelStepView;

    open spec fn view(&self) -> PowerLevelStepView {
        match self {
            PowerLevelStep::FindRoom(state) => PowerLevelStepView::FindRoom(state@),
            PowerLevelStep::CheckPermission(state) => PowerLevelStepView::CheckPermission(state@),
            PowerLevelStep::SendLevel(state) => PowerLevelStepView::SendLevel(state@),
            PowerLevelStep::Done(room) => PowerLevelStepView::Done(room.deep_view()),
            PowerLevelStep::Failed(error) => PowerLevelStepView::Failed(*error),
        }
    }
}

impl UpdateView {
    /// After the lookup: a room that the relay does not know ends the update
    /// with nothing done; for one that it knows the permission is checked.
    pub open spec fn after_room(self, found: bool) -> PowerLevelStepView {
        if found {
            PowerLevelStepView::CheckPermission(self)
        } else {
            PowerLevelStepView::Done(None)
        }
    }

    /// After the permission check, for a member whose identity is, or is not,
    /// a user identifier: only a relay that may set levels goes on, and only
    /// with a member that is a user identifier and a level that the platform
    /// can carry.
    pub open spec fn after_checked(self, permission: Permission, is_user: bool) -> PowerLevelStepView {
        match permission {
            Permission::Unknown => PowerLevelStepView::Failed(PowerLevelError::PermissionUnknown),
            Permission::Denied => PowerLevelStepView::Failed(PowerLevelError::PermissionDenied),
            Permission::Granted => if !is_user {
                PowerLevelStepView::Failed(PowerLevelError::InvalidUserId)
            } else if self.level > MAX_POWER_LEVEL {
                PowerLevelStepView::Failed(PowerLevelError::LevelOutOfRange)
            } else {
                PowerLevelStepView::SendLevel(self)
            },
        }
    }

    /// After the permission check.
    pub open spec fn after_permission(self, permission: Permission) -> PowerLevelStepView {
        self.after_checked(permission, user_id_syntax(self.user_id))
    }

    /// After the update was sent: the level stands in the room, or the
    /// platform refused.
    pub open spec fn after_sent(self, accepted: bool) -> PowerLevelStepView {
        if accepted {
            PowerLevelStepView::Done(Some(self.room_id))
        } else {
            PowerLevelStepView::Failed(PowerLevelError::UpdateFailed)
        }
    }
}

/// Begins to set the permission level of a member in a room.
pub fn set_member_power_level(room_id: String, user_id: String, power_level: u64) -> (out: FindRoom)
    ensures
        out@ == (UpdateView { room_id: room_id@, user_id: user_id@, level: power_level as int }),
{
    FindRoom { room_id, user_id, power_level }
}

impl FindRoom {
    /// Takes the answer to the lookup of the room.
    pub fn on_room(self, found: bool) -> (out: PowerLevelStep)
        ensures
            out@ == self@.after_room(found),
    {
        if found {
            PowerLevelStep::CheckPermission(
                CheckPermission {
                    room_id: self.room_id,
                    user_id: self.user_id,
                    power_level: self.power_level,
                },
            )
        } else {
            PowerLevelStep::Done(None)
        }
    }
}

impl CheckPermission {
    /// Takes the answer to the permission check, and whether the identity of
    /// the member is a user identifier.
    pub fn on_checked(self, permission: Permission, is_user: bool) -> (out: PowerLevelStep)
        ensures
            out@ == self@.after_checked(permission, is_user),
    {
        match permission {
            Permission::Unknown => PowerLevelStep::Failed(PowerLevelError::PermissionUnknown),
            Permission::Denied => PowerLevelStep::Failed(PowerLevelError::PermissionDenied),
            Permission::Granted => {
                if !is_user {
                    return PowerLevelStep::Failed(PowerLevelError::InvalidUserId);
                }
                match to_platform_level(self.power_level) {
                    None => PowerLevelStep::Failed(PowerLevelError::LevelOutOfRange),
                    Some(level) => PowerLevelStep::SendLevel(
                        SendLevel { room_id: self.room_id, user_id: self.user_id, level },
                    ),
                }
            },
        }
    }

    /// Takes the answer to the permission check.
    pub fn on_permission(self, permission: Permission) -> (out: PowerLevelStep)
        ensures
            out@ == self@.after_permission(permission),
    {
        let is_user = is_user_id(self.user_id.as_str());
        self.on_checked(permission, is_user)
    }
}

impl SendLevel {
    /// Takes the outcome of the update.
    pub fn on_sent(self, accepted: bool) -> (out: PowerLevelStep)
        ensures
            out@ == self@.after_sent(accepted),
    {
        if accepted {
            PowerLevelStep::Done(Some(self.room_id))
        } else {
            PowerLevelStep::Failed(PowerLevelError::UpdateFailed)
        }
    }
}

} // verus!
