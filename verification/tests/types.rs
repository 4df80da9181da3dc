use relayer::consumer::QueueKey;
use relayer::types::{
    ApiError, HistoryEvent, HistoryEventEntry, HistoryEventKind, HistoryEventResult,
    HistoryPointResult, InvalidRole, MatrixUserID, PrincipalId, Role, UnknownKind,
};

#[test]
fn role_levels() {
    assert_eq!(Role::Owner.power_level(), 100);
    assert_eq!(Role::Admin.power_level(), 95);
    assert_eq!(Role::Moderator.power_level(), 50);
    assert_eq!(Role::Member.power_level(), 10);
}

#[test]
fn role_names_are_read_in_any_case() {
    assert_eq!(Role::from_str("owner"), Ok(Role::Owner));
    assert_eq!(Role::from_str("Admin"), Ok(Role::Admin));
    assert_eq!(Role::from_str("MODERATOR"), Ok(Role::Moderator));
    assert_eq!(Role::from_str("mEmBeR"), Ok(Role::Member));
}

#[test]
fn role_lowercase_lookup_is_exact() {
    assert_eq!(Role::from_lowercase("admin"), Some(Role::Admin));
    assert_eq!(Role::from_lowercase("Admin"), None);
    assert_eq!(Role::from_lowercase("admin "), None);
    assert_eq!(Role::from_lowercase(""), None);
}

#[test]
fn unknown_role_is_handed_back() {
    let error = Role::from_str("Janitor").unwrap_err();
    assert_eq!(error, InvalidRole { role: "Janitor".to_string() });
    assert_eq!(error.to_string(), "Invalid role: Janitor");
    assert!(Role::from_str("").is_err());
    assert!(Role::from_str("owners").is_err());
    assert!(Role::from_str(" owner").is_err());
}

#[test]
fn kind_identifier() {
    let kind = HistoryEventKind::GroupRoleChanged;
    assert_eq!(kind.as_str(), "group_role_changed");
    assert_eq!(kind.to_string(), "group_role_changed");
    assert_eq!(HistoryEventKind::from_str("group_role_changed"), Ok(kind));
}

#[test]
fn unknown_kind_is_handed_back() {
    assert_eq!(
        HistoryEventKind::from_str("GroupRoleChanged"),
        Err(UnknownKind { kind: "GroupRoleChanged".to_string() })
    );
    assert!(HistoryEventKind::from_str("").is_err());
}

#[test]
fn queue_key_format() {
    let key = QueueKey::from(HistoryEventKind::GroupRoleChanged);
    assert_eq!(key.to_string(), "queue_group_role_changed");
    assert_eq!(key.event_kind(), HistoryEventKind::GroupRoleChanged);
}

#[test]
fn queue_key_from_kind_identifier() {
    assert_eq!(
        QueueKey::from_str("group_role_changed"),
        Ok(QueueKey::from(HistoryEventKind::GroupRoleChanged))
    );
    assert_eq!(
        QueueKey::from_str("queue_group_role_changed"),
        Err(UnknownKind { kind: "queue_group_role_changed".to_string() })
    );
}

#[test]
fn principal_bounds() {
    assert!(PrincipalId::from_slice(&[]).is_some());
    assert!(PrincipalId::from_slice(&[7u8; 29]).is_some());
    assert!(PrincipalId::from_slice(&[7u8; 30]).is_none());
    let principal = PrincipalId::from_slice(&[1, 2, 3]).unwrap();
    assert_eq!(principal.as_slice(), &[1, 2, 3]);
    assert_eq!(principal.duplicate(), principal);
}

#[test]
fn principal_text() {
    assert_eq!(PrincipalId::from_slice(&[]).unwrap().to_text(), "aaaaa-aa");
    assert_eq!(PrincipalId::from_slice(&[4]).unwrap().to_text(), "2vxsx-fae");
    let bytes = [0xef, 0xcd, 0xab, 0, 0, 0, 0, 0, 1];
    assert_eq!(
        PrincipalId::from_slice(&bytes).unwrap().to_text(),
        "2chl6-4hpzw-vqaaa-aaaaa-c"
    );
    assert_eq!(
        PrincipalId::from_slice(&bytes).unwrap().to_text(),
        candid::Principal::from_slice(&bytes).to_text()
    );
}

#[test]
fn matrix_user_id_is_the_wire_form() {
    let id = MatrixUserID::new(
        PrincipalId::from_slice(&[4]).unwrap(),
        "Alice".to_string(),
        "https://matrix.example.org/".to_string(),
    );
    assert_eq!(id.to_string(), "@2vxsx-fae/alice:example.org");
}

#[test]
fn matrix_user_id_host() {
    let text = |url: &str| {
        MatrixUserID::new(
            PrincipalId::from_slice(&[]).unwrap(),
            "Bob".to_string(),
            url.to_string(),
        )
        .to_string()
    };
    assert_eq!(text("https://example.org"), "@aaaaa-aa/bob:example.org");
    assert_eq!(text("https://example.org///"), "@aaaaa-aa/bob:example.org");
    assert_eq!(text("https://matrix.https://matrix.example.org"), "@aaaaa-aa/bob:example.org");
    assert_eq!(text("https://matrix.https://example.org"), "@aaaaa-aa/bob:example.org");
    assert_eq!(text("https://https://matrix.example.org"), "@aaaaa-aa/bob:matrix.example.org");
    assert_eq!(text("http://matrix.example.org"), "@aaaaa-aa/bob:http://matrix.example.org");
    assert_eq!(text("example.org:8448/"), "@aaaaa-aa/bob:example.org:8448");
    assert_eq!(text(""), "@aaaaa-aa/bob:");
}

#[test]
fn matrix_user_id_compose() {
    assert_eq!(
        MatrixUserID::compose("abc-de", "carol", "https://matrix.chat.example/"),
        "@abc-de/carol:chat.example"
    );
}

#[test]
fn canister_results() {
    assert_eq!(HistoryPointResult::Success(50).into_result(), Ok(50));
    assert_eq!(
        HistoryPointResult::Failure(ApiError { message: "no".to_string() }).into_result(),
        Err(ApiError { message: "no".to_string() })
    );
    let entry = HistoryEventEntry {
        position: 3,
        event: HistoryEvent { kind: "group_role_changed".to_string(), payload: vec![1] },
    };
    assert_eq!(
        HistoryEventResult::Success(vec![entry.duplicate()]).into_result(),
        Ok(vec![entry])
    );
    assert_eq!(
        HistoryEventResult::Failure(ApiError { message: "down".to_string() }).into_result(),
        Err(ApiError { message: "down".to_string() })
    );
}
