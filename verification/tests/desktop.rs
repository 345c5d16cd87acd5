use ockam_trust::desktop::{
    build_options_section, decode_enrollment_ticket, find_project, list_projects_with_admin,
    process_tray_menu_event, same_text, should_refresh_projects, ticket_arguments, MenuIcon,
    OutletStatus, Project, ProjectUser, TcpOutletActions, TicketError, TrayAction,
};
use ockam_trust::error::IdentityError;
use ockam_trust::nonce::NonceCounter;
use ockam_trust::share::{
    created_message, CloudOpts, CreateCommand, RoleInShare, SentInvitation, ShareScope,
};

#[test]
fn options_section_has_reset_and_quit() {
    let items = build_options_section(true);
    assert_eq!(items.len(), 2);
    assert_eq!(items[0].id, "reset");
    assert_eq!(items[0].title, "Reset");
    assert_eq!(items[0].accelerator.as_deref(), Some("cmd+r"));
    assert!(items[0].enabled);
    assert_eq!(items[0].icon, MenuIcon::Plain);
    assert_eq!(items[1].id, "quit");
    assert_eq!(items[1].title, "Quit Ockam");
    assert_eq!(items[1].accelerator.as_deref(), Some("cmd+q"));
}

#[test]
fn options_section_tells_of_a_corrupted_state() {
    let items = build_options_section(false);
    assert_eq!(items.len(), 3);
    assert_eq!(items[0].id, "reset");
    assert_eq!(items[1].id, "quit");
    assert_eq!(items[2].id, "error");
    assert_eq!(
        items[2].title,
        "The application state is corrupted, please re-enroll, reset or quit the application"
    );
    assert_eq!(items[2].accelerator, None);
    assert_eq!(items[2].icon, MenuIcon::Caution);
}

#[test]
fn tray_menu_events_and_what_they_ask_for() {
    assert_eq!(process_tray_menu_event("reset"), TrayAction::Reset);
    assert_eq!(process_tray_menu_event("quit"), TrayAction::Quit);
    assert_eq!(process_tray_menu_event("error"), TrayAction::Ignore);
    assert_eq!(process_tray_menu_event(""), TrayAction::Ignore);
    assert_eq!(process_tray_menu_event("Reset"), TrayAction::Ignore);
    assert_eq!(process_tray_menu_event("tcp_outlet_create"), TrayAction::Ignore);
    assert!(same_text("a", "a"));
    assert!(!same_text("a", "b"));
    assert!(!same_text("a", "aa"));
}

#[test]
fn outlet_section_lists_the_outlets() {
    let empty = TcpOutletActions::new();
    assert_eq!(empty.menu_items.len(), 2);
    assert_eq!(empty.menu_items[0].id, "tcp_outlet_header");
    assert_eq!(empty.menu_items[0].title, "TCP Outlets");
    assert!(!empty.menu_items[0].enabled);
    assert_eq!(empty.menu_items[1].id, "tcp_outlet_create");
    assert_eq!(empty.menu_items[1].title, "Create...");
    assert!(empty.menu_items[1].enabled);

    let outlets = vec![
        OutletStatus { worker_address: "/service/outlet".to_string(), tcp_addr: "127.0.0.1:5000".to_string() },
        OutletStatus { worker_address: "/service/db".to_string(), tcp_addr: "10.0.0.1:5432".to_string() },
    ];
    let full = TcpOutletActions::full(&outlets);
    assert_eq!(full.menu_items.len(), 4);
    assert_eq!(full.menu_items[0].id, "tcp_outlet_header");
    assert_eq!(full.menu_items[1].id, "tcp_outlet_create");
    assert_eq!(full.menu_items[2].id, "/service/outlet to 127.0.0.1:5000");
    assert_eq!(full.menu_items[2].title, "/service/outlet to 127.0.0.1:5000");
    assert!(full.menu_items[2].enabled);
    assert_eq!(full.menu_items[3].title, "/service/db to 10.0.0.1:5432");
    assert_eq!(TcpOutletActions::full(&vec![]).menu_items.len(), 2);
}

fn project(id: &str, name: &str, users: &[(&str, bool)]) -> Project {
    Project {
        id: id.to_string(),
        name: name.to_string(),
        users: users
            .iter()
            .map(|(email, admin)| ProjectUser { email: email.to_string(), admin: *admin })
            .collect(),
    }
}

fn projects() -> Vec<Project> {
    vec![
        project("p1", "one", &[("a@x.io", true), ("b@x.io", false)]),
        project("p2", "two", &[("b@x.io", true)]),
        project("p3", "three", &[("a@x.io", false), ("c@x.io", true), ("a@x.io", true)]),
        project("p4", "four", &[]),
        project("p1", "one again", &[("a@x.io", true)]),
    ]
}

#[test]
fn projects_are_listed_for_their_admins() {
    let all = projects();
    assert_eq!(list_projects_with_admin(&all, "a@x.io"), vec![0, 2, 4]);
    assert_eq!(list_projects_with_admin(&all, "b@x.io"), vec![1]);
    assert_eq!(list_projects_with_admin(&all, "c@x.io"), vec![2]);
    assert_eq!(list_projects_with_admin(&all, ""), Vec::<usize>::new());
    assert_eq!(list_projects_with_admin(&vec![], "a@x.io"), Vec::<usize>::new());
    assert!(all[0].has_admin("a@x.io"));
    assert!(!all[0].has_admin("b@x.io"));
    assert!(!all[3].has_admin("a@x.io"));
}

#[test]
fn project_is_found_by_its_id() {
    let all = projects();
    assert_eq!(find_project(&all, "p1"), Ok(0));
    assert_eq!(find_project(&all, "p3"), Ok(2));
    assert_eq!(find_project(&all, "p5"), Err(TicketError::ProjectNotFound));
    assert_eq!(find_project(&all, ""), Err(TicketError::ProjectNotFound));
    assert_eq!(find_project(&vec![], "p1"), Err(TicketError::ProjectNotFound));
}

#[test]
fn ticket_command_asks_for_fourteen_days() {
    let args = ticket_arguments(&project("p1", "one", &[]));
    assert_eq!(
        args,
        vec![
            "project",
            "ticket",
            "--quiet",
            "--project",
            "one",
            "--expires-in",
            "14d",
            "--to",
            "/project/one"
        ]
    );
}

#[test]
fn enrollment_ticket_is_read_from_hexadecimal_text() {
    assert_eq!(decode_enrollment_ticket(Some("7b7d")), Ok(vec![0x7b, 0x7d]));
    assert_eq!(decode_enrollment_ticket(Some("00FFa0")), Ok(vec![0x00, 0xff, 0xa0]));
    assert_eq!(decode_enrollment_ticket(Some("")), Ok(vec![]));
    assert_eq!(decode_enrollment_ticket(None), Err(TicketError::EnrollmentTicketFailed));
    assert_eq!(
        decode_enrollment_ticket(Some("7b7")),
        Err(TicketError::EnrollmentTicketDecodeFailed)
    );
    assert_eq!(
        decode_enrollment_ticket(Some("7b7d\n")),
        Err(TicketError::EnrollmentTicketDecodeFailed)
    );
    assert_eq!(
        decode_enrollment_ticket(Some("zz")),
        Err(TicketError::EnrollmentTicketDecodeFailed)
    );
}

#[test]
fn projects_are_fetched_only_once_enrolled() {
    assert!(should_refresh_projects(Some(true)));
    assert!(!should_refresh_projects(Some(false)));
    assert!(!should_refresh_projects(None));
}

#[test]
fn share_command_becomes_the_request() {
    let command = CreateCommand {
        cloud_opts: CloudOpts { identity: Some("me".to_string()) },
        scope: ShareScope::Project,
        target_id: "p-1".to_string(),
        recipient_email: "friend@x.io".to_string(),
        grant_role: RoleInShare::Guest,
        expires_at: Some("2030-01-01T00:00:00Z".to_string()),
    };
    let request = command.run();
    assert_eq!(request.expires_at.as_deref(), Some("2030-01-01T00:00:00Z"));
    assert_eq!(request.grant_role, RoleInShare::Guest);
    assert_eq!(request.recipient_email, "friend@x.io");
    assert_eq!(request.remaining_uses, None);
    assert_eq!(request.scope, ShareScope::Project);
    assert_eq!(request.target_id, "p-1");

    let command = CreateCommand {
        cloud_opts: CloudOpts { identity: None },
        scope: ShareScope::Space,
        target_id: "s".to_string(),
        recipient_email: "e".to_string(),
        grant_role: RoleInShare::default_role(),
        expires_at: None,
    };
    let request = command.run();
    assert_eq!(request.expires_at, None);
    assert_eq!(request.grant_role, RoleInShare::Admin);
    assert_eq!(request.scope, ShareScope::Space);
}

#[test]
fn created_invitation_is_reported_in_words() {
    let sent = SentInvitation {
        id: "inv-7".to_string(),
        expires_at: "2030-01-01".to_string(),
        grant_role: RoleInShare::Admin,
        owner_id: 1,
        recipient_email: "friend@x.io".to_string(),
        remaining_uses: 1,
        scope: ShareScope::Service,
        target_id: "svc-1".to_string(),
    };
    assert_eq!(
        created_message(&sent),
        "Invite inv-7 to service svc-1 created, expiring at 2030-01-01. friend@x.io will be notified via email."
    );
    assert_eq!(ShareScope::Project.name(), "project");
    assert_eq!(ShareScope::Space.name(), "space");
}

#[test]
fn last_nonce_is_never_given_out() {
    let mut counter = NonceCounter::resume(u64::MAX - 2);
    assert_eq!(counter.next_nonce(), Ok(u64::MAX - 2));
    assert_eq!(counter.next_nonce(), Ok(u64::MAX - 1));
    assert_eq!(counter.next_nonce(), Err(IdentityError::NonceOverflow));
    assert_eq!(counter.next_nonce(), Err(IdentityError::NonceOverflow));
}
