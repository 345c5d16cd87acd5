//! What the tray application decides: which menu items it shows, what a
//! click on one of them means, and how it asks for an enrollment ticket.

use vstd::prelude::*;
use vstd::string::{StringExecFns, StringSliceAdditionalSpecFns};
use crate::hex_text::{hex_decode, hex_decode_outcome, HexError};

verus! {

/// Whether two texts are the same.
pub fn same_text(a: &str, b: &str) -> (same: bool)
    ensures
        same == (a@ == b@),
{
    String::from_str(a) == String::from_str(b)
}

/// The icon a menu item carries.
#[derive(Clone, Copy, Debug, PartialEq, Eq, Structural)]
pub enum MenuIcon {
    /// No icon.
    Plain,
    /// The sign of caution.
    Caution,
}

/// One item of the tray menu.
#[derive(Debug)]
pub struct MenuItem {
    pub id: String,
    pub title: String,
    pub accelerator: Option<String>,
    pub enabled: bool,
    pub icon: MenuIcon,
}

/// One item of the tray menu, as plain values.
pub struct MenuItemModel {
    pub id: Seq<char>,
    pub title: Seq<char>,
    pub accelerator: Option<Seq<char>>,
    pub enabled: bool,
    pub icon: MenuIcon,
}

impl View for MenuItem {
    type V = MenuItemModel;

    open spec fn view(&self) -> MenuItemModel {
        MenuItemModel {
            id: self.id@,
            title: self.title@,
            accelerator: match self.accelerator {
                Some(a) => Some(a@),
                None => None,
            },
            enabled: self.enabled,
            icon: self.icon,
        }
    }
}

/// The plain values of a list of menu items.
pub open spec fn menu_models(items: Seq<MenuItem>) -> Seq<MenuItemModel> {
    items.map_values(|i: MenuItem| i@)
}

/// The item that resets the application.
pub open spec fn reset_item() -> MenuItemModel {
    MenuItemModel {
        id: "reset"@,
        title: "Reset"@,
        accelerator: Some("cmd+r"@),
        enabled: true,
        icon: MenuIcon::Plain,
    }
}

/// The item that quits the application.
pub open spec fn quit_item() -> MenuItemModel {
    MenuItemModel {
        id: "quit"@,
        title: "Quit Ockam"@,
        accelerator: Some("cmd+q"@),
        enabled: true,
        icon: MenuIcon::Plain,
    }
}

/// The item that tells of a corrupted state.
pub open spec fn error_item() -> MenuItemModel {
    MenuItemModel {
        id: "error"@,
        title: "The application state is corrupted, please re-enroll, reset or quit the application"@,
        accelerator: None,
        enabled: true,
        icon: MenuIcon::Caution,
    }
}

/// The options section of the menu: reset and quit, and the error item
/// where the state of the application could not be read.
pub open spec fn spec_options_section(state_readable: bool) -> Seq<MenuItemModel> {
    if state_readable {
        seq![reset_item(), quit_item()]
    } else {
        seq![reset_item(), quit_item(), error_item()]
    }
}

/// The options section of the menu. `state_readable` says whether asking
/// the application for its enrollment gave an answer at all.
pub fn build_options_section(state_readable: bool) -> (items: Vec<MenuItem>)
    ensures
        menu_models(items@) == spec_options_section(state_readable),
{
    let mut items: Vec<MenuItem> = Vec::new();
    items.push(
        MenuItem {
            id: String::from_str("reset"),
            title: String::from_str("Reset"),
            accelerator: Some(String::from_str("cmd+r")),
            enabled: true,
            icon: MenuIcon::Plain,
        },
    );
    items.push(
        MenuItem {
            id: String::from_str("quit"),
            title: String::from_str("Quit Ockam"),
            accelerator: Some(String::from_str("cmd+q")),
            enabled: true,
            icon: MenuIcon::Plain,
        },
    );
    if !state_readable {
        items.push(
            MenuItem {
                id: String::from_str("error"),
                title: String::from_str(
                    "The application state is corrupted, please re-enroll, reset or quit the application",
                ),
                accelerator: None,
                enabled: true,
                icon: MenuIcon::Caution,
            },
        );
    }
    assert(menu_models(items@) =~= spec_options_section(state_readable));
    items
}

/// What a click on a menu item asks for.
#[derive(Clone, Copy, Debug, PartialEq, Eq, Structural)]
pub enum TrayAction {
    /// Reset the persistent state.
    Reset,
    /// Quit the application.
    Quit,
    /// Nothing: the item belongs to another section.
    Ignore,
}

/// What a click on the item `id` asks for.
pub open spec fn spec_tray_action(id: Seq<char>) -> TrayAction {
    if id == "reset"@ {
        TrayAction::Reset
    } else if id == "quit"@ {
        TrayAction::Quit
    } else {
        TrayAction::Ignore
    }
}

/// What a click on the item `event_id` asks for.
pub fn process_tray_menu_event(event_id: &str) -> (action: TrayAction)
    ensures
        action == spec_tray_action(event_id@),
{
    if same_text(event_id, "reset") {
        TrayAction::Reset
    } else if same_text(event_id, "quit") {
        TrayAction::Quit
    } else {
        TrayAction::Ignore
    }
}

/// A TCP outlet as the menu shows it.
#[derive(Debug)]
pub struct OutletStatus {
    /// The address of the worker that serves the outlet.
    pub worker_address: String,
    /// The TCP address the outlet connects to.
    pub tcp_addr: String,
}

/// The header of the outlet section.
pub open spec fn outlet_header_item() -> MenuItemModel {
    MenuItemModel {
        id: "tcp_outlet_header"@,
        title: "TCP Outlets"@,
        accelerator: None,
        enabled: false,
        icon: MenuIcon::Plain,
    }
}

/// The item that creates an outlet.
pub open spec fn outlet_create_item() -> MenuItemModel {
    MenuItemModel {
        id: "tcp_outlet_create"@,
        title: "Create..."@,
        accelerator: None,
        enabled: true,
        icon: MenuIcon::Plain,
    }
}

/// The line that stands for one outlet.
pub open spec fn outlet_line(outlet: OutletStatus) -> Seq<char> {
    outlet.worker_address@ + " to "@ + outlet.tcp_addr@
}

/// The item that stands for one outlet: its line is its id and its title.
pub open spec fn outlet_item(outlet: OutletStatus) -> MenuItemModel {
    MenuItemModel {
        id: outlet_line(outlet),
        title: outlet_line(outlet),
        accelerator: None,
        enabled: true,
        icon: MenuIcon::Plain,
    }
}

/// The outlet section: the header, the item that creates an outlet, then
/// one item for each outlet, in order.
pub open spec fn spec_outlet_menu(outlets: Seq<OutletStatus>) -> Seq<MenuItemModel> {
    seq![outlet_header_item(), outlet_create_item()] + outlets.map_values(
        |o: OutletStatus| outlet_item(o),
    )
}

/// The menu items of the TCP outlet section.
#[derive(Debug)]
pub struct TcpOutletActions {
    pub menu_items: Vec<MenuItem>,
}

impl TcpOutletActions {
    /// The section without any outlet.
    pub fn new() -> (actions: TcpOutletActions)
        ensures
            menu_models(actions.menu_items@) == spec_outlet_menu(Seq::<OutletStatus>::empty()),
    {
        let mut menu_items: Vec<MenuItem> = Vec::new();
        menu_items.push(
            MenuItem {
                id: String::from_str("tcp_outlet_header"),
                title: String::from_str("TCP Outlets"),
                accelerator: None,
                enabled: false,
                icon: MenuIcon::Plain,
            },
        );
        menu_items.push(
            MenuItem {
                id: String::from_str("tcp_outlet_create"),
                title: String::from_str("Create..."),
                accelerator: None,
                enabled: true,
                icon: MenuIcon::Plain,
            },
        );
        assert(menu_models(menu_items@) =~= spec_outlet_menu(Seq::<OutletStatus>::empty()));
        TcpOutletActions { menu_items }
    }

    /// The section with one item for each of `outlets`.
    pub fn full(outlets: &Vec<OutletStatus>) -> (actions: TcpOutletActions)
        ensures
            menu_models(actions.menu_items@) == spec_outlet_menu(outlets@),
    {
        let mut s = TcpOutletActions::new();
        let mut i: usize = 0;
        assert(menu_models(s.menu_items@) =~= spec_outlet_menu(outlets@.take(0)));
        while i < outlets.len()
            invariant
                i <= outlets.len(),
                menu_models(s.menu_items@) == spec_outlet_menu(outlets@.take(i as int)),
            decreases outlets.len() - i,
        {
            let ghost before = menu_models(s.menu_items@);
            let mut line = outlets[i].worker_address.clone();
            line.append(" to ");
            line.append(outlets[i].tcp_addr.as_str());
            let item = MenuItem {
                id: line.clone(),
                title: line,
                accelerator: None,
                enabled: true,
                icon: MenuIcon::Plain,
            };
            s.menu_items.push(item);
            assert(outlets@.take(i + 1) =~= outlets@.take(i as int).push(outlets@[i as int]));
            assert(menu_models(s.menu_items@) =~= before.push(outlet_item(outlets@[i as int])));
            assert(spec_outlet_menu(outlets@.take(i + 1)) =~= spec_outlet_menu(
                outlets@.take(i as int),
            ).push(outlet_item(outlets@[i as int])));
            i = i + 1;
        }
        assert(outlets@.take(outlets@.len() as int) =~= outlets@);
        s
    }
}

/// A user of a project and whether the user administers it.
#[derive(Debug)]
pub struct ProjectUser {
    pub email: String,
    pub admin: bool,
}

/// A project as the controller lists it.
#[derive(Debug)]
pub struct Project {
    pub id: String,
    pub name: String,
    pub users: Vec<ProjectUser>,
}

/// The user `email` administers the project.
pub open spec fn has_admin_with_email(project: Project, email: Seq<char>) -> bool {
    exists|i: int|
        0 <= i < project.users@.len() && (#[trigger] project.users@[i]).admin
            && project.users@[i].email@ == email
}

/// The places of the projects that `email` administers, in order.
pub open spec fn admin_places(projects: Seq<Project>, email: Seq<char>) -> Seq<int>
    decreases projects.len(),
{
    if projects.len() == 0 {
        Seq::empty()
    } else if has_admin_with_email(projects.last(), email) {
        admin_places(projects.drop_last(), email).push(projects.len() - 1)
    } else {
        admin_places(projects.drop_last(), email)
    }
}

/// The place of the first project called `id`, if there is one.
pub open spec fn project_place(projects: Seq<Project>, id: Seq<char>) -> Option<int>
    decreases projects.len(),
{
    if projects.len() == 0 {
        None
    } else {
        match project_place(projects.drop_last(), id) {
            Some(i) => Some(i),
            None => if projects.last().id@ == id {
                Some(projects.len() - 1)
            } else {
                None
            },
        }
    }
}

impl Project {
    /// Whether the user `email` administers the project.
    pub fn has_admin(&self, email: &str) -> (yes: bool)
        ensures
            yes == has_admin_with_email(*self, email@),
    {
        let mut i: usize = 0;
        while i < self.users.len()
            invariant
                i <= self.users.len(),
                forall|j: int|
                    0 <= j < i ==> !((#[trigger] self.users@[j]).admin && self.users@[j].email@
                        == email@),
            decreases self.users.len() - i,
        {
            if self.users[i].admin && same_text(self.users[i].email.as_str(), email) {
                return true;
            }
            i = i + 1;
        }
        false
    }
}

/// The places of the projects that the user `email` administers, in the
/// order of the list.
pub fn list_projects_with_admin(projects: &Vec<Project>, email: &str) -> (places: Vec<usize>)
    ensures
        places@.map_values(|p: usize| p as int) == admin_places(projects@, email@),
{
    let mut places: Vec<usize> = Vec::new();
    let mut i: usize = 0;
    assert(projects@.take(0) =~= Seq::<Project>::empty());
    assert(places@.map_values(|p: usize| p as int) =~= Seq::<int>::empty());
    while i < projects.len()
        invariant
            i <= projects.len(),
            places@.map_values(|p: usize| p as int) == admin_places(projects@.take(i as int), email@),
        decreases projects.len() - i,
    {
        let ghost before = places@.map_values(|p: usize| p as int);
        let ghost upto = projects@.take(i + 1);
        assert(upto.drop_last() =~= projects@.take(i as int));
        assert(upto.last() == projects@[i as int]);
        if projects[i].has_admin(email) {
            places.push(i);
            assert(places@.map_values(|p: usize| p as int) =~= before.push(i as int));
        }
        i = i + 1;
    }
    assert(projects@.take(projects@.len() as int) =~= projects@);
    places
}

/// Why no enrollment ticket was had.
#[derive(Clone, Copy, Debug, PartialEq, Eq, Structural)]
pub enum TicketError {
    /// No project of the id asked for is among those the user administers.
    ProjectNotFound,
    /// The command that issues the ticket failed.
    EnrollmentTicketFailed,
    /// What the command printed is no ticket.
    EnrollmentTicketDecodeFailed,
}

/// The place of the first project called `id`, or the not-found error.
pub fn find_project(projects: &Vec<Project>, id: &str) -> (r: Result<usize, TicketError>)
    ensures
        match r {
            Ok(i) => project_place(projects@, id@) == Some(i as int) && i < projects@.len()
                && projects@[i as int].id@ == id@,
            Err(e) => project_place(projects@, id@) is None && e == TicketError::ProjectNotFound,
        },
{
    let mut i: usize = 0;
    assert(projects@.take(0) =~= Seq::<Project>::empty());
    while i < projects.len()
        invariant
            i <= projects.len(),
            project_place(projects@.take(i as int), id@) is None,
        decreases projects.len() - i,
    {
        let ghost upto = projects@.take(i + 1);
        assert(upto.drop_last() =~= projects@.take(i as int));
        assert(upto.last() == projects@[i as int]);
        if same_text(projects[i].id.as_str(), id) {
            proof {
                lemma_place_is_kept(projects@, id@, i + 1);
            }
            return Ok(i);
        }
        i = i + 1;
    }
    assert(projects@.take(projects@.len() as int) =~= projects@);
    Err(TicketError::ProjectNotFound)
}

/// A place found among the first `n` projects is the place found among all.
proof fn lemma_place_is_kept(projects: Seq<Project>, id: Seq<char>, n: int)
    requires
        0 <= n <= projects.len(),
        project_place(projects.take(n), id) is Some,
    ensures
        project_place(projects, id) == project_place(projects.take(n), id),
    decreases projects.len() - n,
{
    if n < projects.len() {
        let next = projects.take(n + 1);
        assert(next.drop_last() =~= projects.take(n));
        lemma_place_is_kept(projects, id, n + 1);
    } else {
        assert(projects.take(n) =~= projects);
    }
}

/// The arguments of the command that issues an enrollment ticket for the
/// project called `name`: a ticket for that project, valid for fourteen
/// days, for a member of the project.
pub open spec fn spec_ticket_arguments(name: Seq<char>) -> Seq<Seq<char>> {
    seq![
        "project"@,
        "ticket"@,
        "--quiet"@,
        "--project"@,
        name,
        "--expires-in"@,
        "14d"@,
        "--to"@,
        "/project/"@ + name,
    ]
}

/// The texts of a list of strings.
pub open spec fn texts(list: Seq<String>) -> Seq<Seq<char>> {
    list.map_values(|s: String| s@)
}

/// The arguments of the command that issues an enrollment ticket for `project`.
pub fn ticket_arguments(project: &Project) -> (arguments: Vec<String>)
    ensures
        texts(arguments@) == spec_ticket_arguments(project.name@),
{
    let mut arguments: Vec<String> = Vec::new();
    arguments.push(String::from_str("project"));
    arguments.push(String::from_str("ticket"));
    arguments.push(String::from_str("--quiet"));
    arguments.push(String::from_str("--project"));
    arguments.push(project.name.clone());
    arguments.push(String::from_str("--expires-in"));
    arguments.push(String::from_str("14d"));
    arguments.push(String::from_str("--to"));
    let mut to = String::from_str("/project/");
    to.append(project.name.as_str());
    arguments.push(to);
    assert(texts(arguments@) =~= spec_ticket_arguments(project.name@));
    arguments
}

/// What the output of the ticket command comes to: the bytes of the ticket
/// where the command ran and printed them in hexadecimal, the failure
/// otherwise.
pub open spec fn ticket_outcome(
    output: Option<Seq<u8>>,
    r: Result<Vec<u8>, TicketError>,
) -> bool {
    match output {
        None => r == Err::<Vec<u8>, TicketError>(TicketError::EnrollmentTicketFailed),
        Some(text) => match r {
            Ok(bytes) => crate::hex_text::is_hex_text(text) && bytes@
                == crate::hex_text::spec_hex_decode(text),
            Err(e) => !crate::hex_text::is_hex_text(text) && e
                == TicketError::EnrollmentTicketDecodeFailed,
        },
    }
}

/// The bytes of the enrollment ticket that the ticket command printed.
/// `output` is what the command printed, or nothing where it failed.
pub fn decode_enrollment_ticket(output: Option<&str>) -> (r: Result<Vec<u8>, TicketError>)
    ensures
        ticket_outcome(
            match output {
                Some(text) => Some(text.spec_bytes()),
                None => None,
            },
            r,
        ),
{
    match output {
        None => Err(TicketError::EnrollmentTicketFailed),
        Some(text) => match hex_decode(text.as_bytes()) {
            Ok(bytes) => Ok(bytes),
            Err(e) => {
                proof {
                    lemma_refused_text_is_not_hex(text.spec_bytes(), e);
                }
                Err(TicketError::EnrollmentTicketDecodeFailed)
            },
        },
    }
}

/// A text that decoding refuses is no hexadecimal text.
proof fn lemma_refused_text_is_not_hex(text: Seq<u8>, e: HexError)
    requires
        hex_decode_outcome(text, Err::<Vec<u8>, HexError>(e)),
    ensures
        !crate::hex_text::is_hex_text(text),
{
    match e {
        HexError::InvalidHexCharacter { c, index } => {
            assert(crate::hex_text::hex_value(text[index as int]) is None);
        },
        _ => {},
    }
}

/// Whether the projects are to be fetched again: only once the application
/// is enrolled, and not where that could not be found out.
pub fn should_refresh_projects(enrolled: Option<bool>) -> (yes: bool)
    ensures
        yes == (enrolled == Some(true)),
{
    match enrolled {
        Some(b) => b,
        None => false,
    }
}

} // verus!
