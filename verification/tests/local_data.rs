use jira_gpui::local_data::{
    normalize_team_member_account_id, normalize_team_member_text, normalize_team_members,
    resolve_app_directory, resolve_state_directory, PersistedTeamMember,
    MAX_TEAM_MEMBERS, MAX_TEAM_MEMBER_DISPLAY_NAME_BYTES, MAX_TEAM_MEMBER_IDENTIFIER_BYTES,
};

#[test]
fn xdg_data_home_takes_precedence_over_home() {
    let app = resolve_app_directory(Some("/xdg/data"), Some("/home")).expect("path");
    assert_eq!(app, "/xdg/data/jira-desk");
}

#[test]
fn home_fallback_uses_local_share() {
    let app = resolve_app_directory(None, Some("/home/developer")).expect("path");
    assert_eq!(app, "/home/developer/.local/share/jira-desk");
}

#[test]
fn empty_or_missing_roots_are_rejected() {
    assert!(resolve_app_directory(None, None).is_err());
    assert!(resolve_app_directory(Some(""), Some("")).is_err());
}

#[test]
fn relative_roots_are_rejected() {
    assert!(resolve_app_directory(Some("relative-xdg"), None).is_err());
    assert!(resolve_app_directory(None, Some("relative-home")).is_err());
}

#[test]
fn xdg_state_home_takes_precedence_over_home() {
    let state = resolve_state_directory(Some("/xdg/state"), Some("/home")).expect("path");
    assert_eq!(state, "/xdg/state/jira-desk");
}

#[test]
fn home_fallback_uses_local_state() {
    let state = resolve_state_directory(None, Some("/home/developer")).expect("path");
    assert_eq!(state, "/home/developer/.local/state/jira-desk");
}

#[test]
fn state_roots_reject_missing_empty_and_relative_values() {
    assert!(resolve_state_directory(None, None).is_err());
    assert!(resolve_state_directory(Some(""), Some("")).is_err());
    assert!(resolve_state_directory(Some("relative-xdg"), None).is_err());
    assert!(resolve_state_directory(None, Some("relative-home")).is_err());
}

#[test]
fn team_members_normalize_trim_and_deduplicate_by_account_id() {
    let normalized = normalize_team_members(vec![
        PersistedTeamMember {
            identifier: "  first@example.com  ".to_owned(),
            account_id: "  account-1  ".to_owned(),
            display_name: "  First Person  ".to_owned(),
        },
        PersistedTeamMember {
            identifier: "second@example.com".to_owned(),
            account_id: "account-1".to_owned(),
            display_name: "Second Person".to_owned(),
        },
        PersistedTeamMember {
            identifier: "third@example.com".to_owned(),
            account_id: "account-2".to_owned(),
            display_name: "Third Person".to_owned(),
        },
    ])
    .expect("normalized team");

    assert_eq!(
        normalized,
        vec![
            PersistedTeamMember {
                identifier: "first@example.com".to_owned(),
                account_id: "account-1".to_owned(),
                display_name: "First Person".to_owned(),
            },
            PersistedTeamMember {
                identifier: "third@example.com".to_owned(),
                account_id: "account-2".to_owned(),
                display_name: "Third Person".to_owned(),
            },
        ]
    );
}

#[test]
fn team_members_reject_empty_oversized_and_control_values() {
    let cases = [
        PersistedTeamMember {
            identifier: "   ".to_owned(),
            account_id: "account-1".to_owned(),
            display_name: "Person".to_owned(),
        },
        PersistedTeamMember {
            identifier: "person@example.com".to_owned(),
            account_id: "   ".to_owned(),
            display_name: "Person".to_owned(),
        },
        PersistedTeamMember {
            identifier: "person@example.com".to_owned(),
            account_id: "account-1\n".to_owned(),
            display_name: "Person".to_owned(),
        },
        PersistedTeamMember {
            identifier: "person@example.com".to_owned(),
            account_id: "account-1\"unsafe".to_owned(),
            display_name: "Person".to_owned(),
        },
        PersistedTeamMember {
            identifier: "person\u{0007}@example.com".to_owned(),
            account_id: "account-1".to_owned(),
            display_name: "Person".to_owned(),
        },
        PersistedTeamMember {
            identifier: "person@example.com".to_owned(),
            account_id: "account-1".to_owned(),
            display_name: "Person\u{0007}".to_owned(),
        },
        PersistedTeamMember {
            identifier: "person@example.com".to_owned(),
            account_id: "account-1".to_owned(),
            display_name: "account-1".to_owned(),
        },
        PersistedTeamMember {
            identifier: "x".repeat(MAX_TEAM_MEMBER_IDENTIFIER_BYTES + 1),
            account_id: "account-1".to_owned(),
            display_name: "Person".to_owned(),
        },
        PersistedTeamMember {
            identifier: "person@example.com".to_owned(),
            account_id: "account-1".to_owned(),
            display_name: "x".repeat(MAX_TEAM_MEMBER_DISPLAY_NAME_BYTES + 1),
        },
    ];

    for member in cases {
        assert!(normalize_team_members(vec![member]).is_err());
    }
}

#[test]
fn team_members_enforce_conservative_size_limit() {
    let members = (0..=MAX_TEAM_MEMBERS)
        .map(|index| PersistedTeamMember {
            identifier: format!("person-{index}@example.com"),
            account_id: format!("account-{index}"),
            display_name: format!("Person {index}"),
        })
        .collect();
    assert!(normalize_team_members(members).is_err());

    let members = (0..MAX_TEAM_MEMBERS)
        .map(|index| PersistedTeamMember {
            identifier: format!("person-{index}@example.com"),
            account_id: format!("account-{index}"),
            display_name: format!("Person {index}"),
        })
        .collect();
    assert_eq!(
        normalize_team_members(members)
            .expect("limit boundary")
            .len(),
        MAX_TEAM_MEMBERS
    );
}

#[test]
fn duplicate_heavy_input_counts_before_deduplication() {
    let members = (0..=MAX_TEAM_MEMBERS)
        .map(|_| PersistedTeamMember {
            identifier: "same@example.com".to_owned(),
            account_id: "account-same".to_owned(),
            display_name: "Same Person".to_owned(),
        })
        .collect();
    assert!(normalize_team_members(members).is_err());
}

#[test]
fn single_fields_trim_and_refuse_exactly_the_documented_values() {
    assert_eq!(
        normalize_team_member_text("  Ada  ", 10).expect("text"),
        "Ada"
    );
    assert!(normalize_team_member_text("\t", 10).is_err());
    assert!(normalize_team_member_text("Ada Lovelace", 5).is_err());
    assert_eq!(
        normalize_team_member_account_id(" account-1 ").expect("account"),
        "account-1"
    );
    assert!(normalize_team_member_account_id("acc\\ount").is_err());
    assert!(normalize_team_member_account_id("").is_err());
}

#[test]
fn trailing_separator_of_a_root_is_not_doubled() {
    assert_eq!(
        resolve_app_directory(Some("/xdg/data/"), None).expect("path"),
        "/xdg/data/jira-desk"
    );
}

#[test]
fn a_stored_team_list_normalizes_to_itself() {
    let member = |identifier: &str, account: &str, name: &str| PersistedTeamMember {
        identifier: identifier.to_owned(),
        account_id: account.to_owned(),
        display_name: name.to_owned(),
    };
    let stored = normalize_team_members(vec![
        member(" a@example.com ", " account-1 ", " Ada "),
        member("b@example.com", "account-1", "Bea"),
        member("c@example.com", "account-2", "Cy"),
    ])
    .expect("normalized team");
    assert_eq!(normalize_team_members(stored.clone()).expect("stable"), stored);
}
