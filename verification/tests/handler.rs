use relayer::consumer::group_role_change::{
    AwaitGroup, AwaitRooms, HandlerError, HandlerStep, Outcome, Skip, Summary,
};
use relayer::consumer::handle_group_role;
use relayer::matrix::PowerLevelError;
use relayer::types::{GroupMemberRoleChangedPayload, PrincipalId, Role};

const URL: &str = "https://matrix.example.org";
const USER: &str = "@2vxsx-fae/alice:example.org";
const SPACE: &str = "!space:example.org";

fn texts(items: &[&str]) -> Vec<String> {
    items.iter().map(|s| s.to_string()).collect()
}

fn payload(roles: &[&str]) -> GroupMemberRoleChangedPayload {
    GroupMemberRoleChangedPayload {
        principal: PrincipalId::from_slice(&[4]).unwrap(),
        username: "Alice".to_string(),
        group_id: 12,
        roles: texts(roles),
    }
}

/// What the platform does with a room in these tests.
#[derive(Clone, Copy)]
enum Room {
    Known,
    Unknown,
    Denied,
}

/// Drives the handler to its end. Returns the requests to set a level, as
/// (room, member, level), and how the handler ended.
fn drive(
    payload: Option<GroupMemberRoleChangedPayload>,
    group: Option<&str>,
    listed: Option<&[&str]>,
    room: impl Fn(&str) -> Room,
) -> (Vec<(String, String, u64)>, Result<Outcome, HandlerError>) {
    let mut calls = Vec::new();
    let mut step = handle_group_role(payload, URL);
    loop {
        step = match step {
            HandlerStep::GetGroup(state) => state.on_group(group.map(|s| s.to_string())),
            HandlerStep::GetSpaceRooms(state) => state.on_rooms(listed.map(texts)),
            HandlerStep::SetPowerLevel(state) => {
                let id = state.room_id().to_string();
                calls.push((id.clone(), state.user_id().to_string(), state.power_level()));
                let answer = match room(&id) {
                    Room::Known => Ok(Some(id)),
                    Room::Unknown => Ok(None),
                    Room::Denied => Err(PowerLevelError::PermissionDenied),
                };
                state.on_applied(answer)
            }
            HandlerStep::Done(outcome) => return (calls, Ok(outcome)),
            HandlerStep::Failed(error) => return (calls, Err(error)),
        };
    }
}

#[test]
fn first_step_looks_the_group_up() {
    assert_eq!(
        handle_group_role(Some(payload(&["Admin"])), URL),
        HandlerStep::GetGroup(AwaitGroup {
            user_id: USER.to_string(),
            group_id: 12,
            roles: texts(&["Admin"]),
        })
    );
}

#[test]
fn role_fixes_the_level_before_rooms_are_listed() {
    let state = AwaitGroup { user_id: USER.to_string(), group_id: 12, roles: texts(&["mOdErAtOr"]) };
    assert_eq!(
        state.on_group(Some(SPACE.to_string())),
        HandlerStep::GetSpaceRooms(AwaitRooms {
            user_id: USER.to_string(),
            space_id: SPACE.to_string(),
            power_level: 50,
        })
    );
}

#[test]
fn admin_is_applied_in_three_rooms() {
    let (calls, end) = drive(
        Some(payload(&["Admin"])),
        Some(SPACE),
        Some(&["!space:example.org", "!b:example.org", "!a:example.org"]),
        |_| Room::Known,
    );
    assert_eq!(
        calls,
        vec![
            ("!a:example.org".to_string(), USER.to_string(), 95),
            ("!b:example.org".to_string(), USER.to_string(), 95),
            ("!space:example.org".to_string(), USER.to_string(), 95),
        ]
    );
    let outcome = end.unwrap();
    assert_eq!(
        outcome,
        Outcome::Applied(Summary {
            user_id: USER.to_string(),
            room_ids: texts(&["!a:example.org", "!b:example.org", "!space:example.org"]),
            power_level: 95,
        })
    );
    assert!(!outcome.is_warning());
    assert_eq!(outcome.message(), "Successfully set member power level");
}

#[test]
fn children_listed_without_the_space() {
    let (calls, end) = drive(
        Some(payload(&["Admin"])),
        Some(SPACE),
        Some(&["!b:example.org", "!a:example.org"]),
        |_| Room::Known,
    );
    assert_eq!(calls.len(), 3);
    assert_eq!(
        end,
        Ok(Outcome::Applied(Summary {
            user_id: USER.to_string(),
            room_ids: texts(&["!a:example.org", "!b:example.org", "!space:example.org"]),
            power_level: 95,
        }))
    );
}

#[test]
fn space_alone_and_unknown_is_not_applied() {
    let (calls, end) =
        drive(Some(payload(&["member"])), Some(SPACE), Some(&[SPACE]), |_| Room::Unknown);
    assert_eq!(calls, vec![(SPACE.to_string(), USER.to_string(), 10)]);
    let outcome = end.unwrap();
    assert_eq!(
        outcome,
        Outcome::NotApplied(Summary {
            user_id: USER.to_string(),
            room_ids: texts(&[SPACE]),
            power_level: 10,
        })
    );
    assert!(outcome.is_warning());
    assert_eq!(outcome.message(), "No rooms found to apply power level");
}

#[test]
fn empty_listing_is_passed_over() {
    let (calls, end) = drive(Some(payload(&["member"])), Some(SPACE), Some(&[]), |_| Room::Known);
    assert!(calls.is_empty());
    let outcome = end.unwrap();
    assert_eq!(outcome, Outcome::Skipped(Skip::NoSpaceRooms { space_id: SPACE.to_string() }));
    assert!(outcome.is_warning());
    assert_eq!(outcome.message(), "Skipping event, no space room ids found");
}

#[test]
fn partial_application_is_success() {
    let (calls, end) = drive(
        Some(payload(&["owner"])),
        Some(SPACE),
        Some(&["!space:example.org", "!b:example.org", "!a:example.org"]),
        |id| if id == "!b:example.org" { Room::Unknown } else { Room::Known },
    );
    assert_eq!(calls.len(), 3);
    assert_eq!(
        end,
        Ok(Outcome::Applied(Summary {
            user_id: USER.to_string(),
            room_ids: texts(&["!a:example.org", "!space:example.org"]),
            power_level: 100,
        }))
    );
}

#[test]
fn denied_permission_fails_and_stops() {
    let (calls, end) = drive(
        Some(payload(&["owner"])),
        Some(SPACE),
        Some(&["!c:example.org", "!b:example.org", "!a:example.org"]),
        |id| if id == "!b:example.org" { Room::Denied } else { Room::Known },
    );
    assert_eq!(
        calls,
        vec![
            ("!a:example.org".to_string(), USER.to_string(), 100),
            ("!b:example.org".to_string(), USER.to_string(), 100),
        ]
    );
    assert_eq!(
        end,
        Err(HandlerError::PowerLevel {
            room_id: "!b:example.org".to_string(),
            error: PowerLevelError::PermissionDenied,
        })
    );
}

#[test]
fn no_role_or_several_roles_set_no_level() {
    for roles in [&[][..], &["admin", "member"][..], &["admin", "admin"][..]] {
        for group in [Some(SPACE), Some("not a room"), None] {
            let (calls, end) = drive(
                Some(payload(roles)),
                group,
                Some(&["!a:example.org"]),
                |_| Room::Known,
            );
            assert!(calls.is_empty());
            match (group, end) {
                (None, Ok(Outcome::Skipped(Skip::GroupNotFound { group_id }))) => {
                    assert_eq!(group_id, 12)
                }
                (Some(_), Ok(Outcome::Skipped(Skip::RoleCount { count }))) => {
                    assert_eq!(count, roles.len())
                }
                (_, other) => panic!("unexpected end {other:?}"),
            }
        }
    }
}

#[test]
fn unknown_roles_set_no_level() {
    for role in ["", "superuser", "owner ", "admins", "Ädmin", "0wner"] {
        for group in [Some(SPACE), Some("not a room")] {
            let (calls, end) = drive(
                Some(payload(&[role])),
                group,
                Some(&["!a:example.org"]),
                |_| Room::Known,
            );
            assert!(calls.is_empty());
            assert_eq!(end, Ok(Outcome::Skipped(Skip::UnknownRole { role: role.to_string() })));
        }
    }
}

#[test]
fn malformed_payload_is_passed_over() {
    let (calls, end) = drive(None, Some(SPACE), Some(&["!a:example.org"]), |_| Room::Known);
    assert!(calls.is_empty());
    let outcome = end.unwrap();
    assert_eq!(outcome, Outcome::Skipped(Skip::MalformedPayload));
    assert!(outcome.is_warning());
}

#[test]
fn group_lookup_failure_is_passed_over() {
    let (calls, end) = drive(Some(payload(&["admin"])), None, None, |_| Room::Known);
    assert!(calls.is_empty());
    assert_eq!(end, Ok(Outcome::Skipped(Skip::GroupNotFound { group_id: 12 })));
}

#[test]
fn primary_room_must_be_a_room_identifier() {
    for bad in ["", "space:example.org", "#space:example.org", " !space:example.org"] {
        let (calls, end) =
            drive(Some(payload(&["admin"])), Some(bad), Some(&["!a:example.org"]), |_| Room::Known);
        assert!(calls.is_empty());
        assert_eq!(end, Err(HandlerError::InvalidSpaceId { space_id: bad.to_string() }));
    }
}

#[test]
fn listing_failure_fails_the_handler() {
    let (calls, end) = drive(Some(payload(&["admin"])), Some(SPACE), None, |_| Room::Known);
    assert!(calls.is_empty());
    assert_eq!(end, Err(HandlerError::SpaceRooms));
}

#[test]
fn rooms_are_fixed_sorted_and_unique() {
    let state =
        AwaitRooms { user_id: USER.to_string(), space_id: SPACE.to_string(), power_level: 95 };
    let step = state.on_rooms(Some(texts(&[
        "!z:example.org",
        SPACE,
        "!a:example.org",
        "!z:example.org",
        "!A:example.org",
    ])));
    match step {
        HandlerStep::SetPowerLevel(state) => {
            assert_eq!(
                state.room_ids(),
                texts(&["!A:example.org", "!a:example.org", SPACE, "!z:example.org"])
            );
            assert_eq!(state.room_id(), "!A:example.org");
            assert_eq!(state.user_id(), USER);
            assert_eq!(state.power_level(), 95);
        }
        other => panic!("unexpected step {other:?}"),
    }
}

#[test]
fn replay_makes_the_same_requests() {
    let run = || {
        drive(
            Some(payload(&["Admin"])),
            Some(SPACE),
            Some(&["!space:example.org", "!b:example.org", "!a:example.org"]),
            |id| if id == "!b:example.org" { Room::Unknown } else { Room::Known },
        )
    };
    let (first_calls, first_end) = run();
    let (second_calls, second_end) = run();
    assert_eq!(first_calls, second_calls);
    assert_eq!(first_end, second_end);

    let mut levels = std::collections::BTreeMap::new();
    for (room, user, level) in first_calls.iter().filter(|c| c.0 != "!b:example.org") {
        levels.insert((room.clone(), user.clone()), *level);
    }
    let once = levels.clone();
    for (room, user, level) in second_calls.iter().filter(|c| c.0 != "!b:example.org") {
        levels.insert((room.clone(), user.clone()), *level);
    }
    assert_eq!(levels, once);
    assert_eq!(levels.len(), 2);
}

#[test]
fn group_answer_with_the_role_already_read() {
    let state = || AwaitGroup { user_id: USER.to_string(), group_id: 12, roles: texts(&["x"]) };
    assert_eq!(
        state().on_group_as(Some(SPACE.to_string()), Some(Role::Owner)),
        HandlerStep::GetSpaceRooms(AwaitRooms {
            user_id: USER.to_string(),
            space_id: SPACE.to_string(),
            power_level: 100,
        })
    );
    assert_eq!(
        state().on_group_as(Some(SPACE.to_string()), None),
        HandlerStep::Done(Outcome::Skipped(Skip::UnknownRole { role: "x".to_string() }))
    );
    assert_eq!(
        state().on_group_as(None, Some(Role::Owner)),
        HandlerStep::Done(Outcome::Skipped(Skip::GroupNotFound { group_id: 12 }))
    );
    assert_eq!(
        state().on_group_as(Some("space".to_string()), Some(Role::Owner)),
        HandlerStep::Failed(HandlerError::InvalidSpaceId { space_id: "space".to_string() })
    );
    let two = AwaitGroup { user_id: USER.to_string(), group_id: 12, roles: texts(&["a", "b"]) };
    assert_eq!(
        two.on_group_as(Some(SPACE.to_string()), Some(Role::Owner)),
        HandlerStep::Done(Outcome::Skipped(Skip::RoleCount { count: 2 }))
    );
}
