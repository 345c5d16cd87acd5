//! Invitations to share a space, a project or a service: the command that
//! asks for one, the request it sends, and the words that report the result.

use vstd::prelude::*;
use vstd::string::StringExecFns;

verus! {

/// What an invitation gives access to.
#[derive(Clone, Copy, Debug, PartialEq, Eq, Structural)]
pub enum ShareScope {
    Project,
    Service,
    Space,
}

/// The role an invitation grants.
#[derive(Clone, Copy, Debug, PartialEq, Eq, Structural)]
pub enum RoleInShare {
    Admin,
    Guest,
    Service,
}

impl ShareScope {
    /// The scope in words.
    pub open spec fn spec_name(self) -> Seq<char> {
        match self {
            ShareScope::Project => "project"@,
            ShareScope::Service => "service"@,
            ShareScope::Space => "space"@,
        }
    }

    /// The scope in words.
    pub fn name(&self) -> (s: String)
        ensures
            s@ == self.spec_name(),
    {
        match self {
            ShareScope::Project => String::from_str("project"),
            ShareScope::Service => String::from_str("service"),
            ShareScope::Space => String::from_str("space"),
        }
    }
}

impl RoleInShare {
    /// The role where the command names none.
    pub fn default_role() -> (role: RoleInShare)
        ensures
            role == RoleInShare::Admin,
    {
        RoleInShare::Admin
    }
}

/// The options that say as whom the controller is addressed.
#[derive(Debug)]
pub struct CloudOpts {
    /// The name of the identity to act as, where it is not the default one.
    pub identity: Option<String>,
}

/// The command that creates an invitation.
#[derive(Debug)]
pub struct CreateCommand {
    pub cloud_opts: CloudOpts,
    pub scope: ShareScope,
    pub target_id: String,
    pub recipient_email: String,
    pub grant_role: RoleInShare,
    pub expires_at: Option<String>,
}

/// The request to create an invitation.
#[derive(Debug)]
pub struct CreateInvitation {
    pub expires_at: Option<String>,
    pub grant_role: RoleInShare,
    pub recipient_email: String,
    pub remaining_uses: Option<usize>,
    pub scope: ShareScope,
    pub target_id: String,
}

/// An invitation as the controller reports it after it was sent.
#[derive(Debug)]
pub struct SentInvitation {
    pub id: String,
    pub expires_at: String,
    pub grant_role: RoleInShare,
    pub owner_id: usize,
    pub recipient_email: String,
    pub remaining_uses: usize,
    pub scope: ShareScope,
    pub target_id: String,
}

/// The text of an optional string.
pub open spec fn optional_text(text: Option<String>) -> Option<Seq<char>> {
    match text {
        Some(t) => Some(t@),
        None => None,
    }
}

/// The request carries what the command says, and leaves the number of uses open.
pub open spec fn is_request_of(request: CreateInvitation, command: CreateCommand) -> bool {
    &&& optional_text(request.expires_at) == optional_text(command.expires_at)
    &&& request.grant_role == command.grant_role
    &&& request.recipient_email@ == command.recipient_email@
    &&& request.remaining_uses is None
    &&& request.scope == command.scope
    &&& request.target_id@ == command.target_id@
}

/// The words that report a created invitation.
pub open spec fn spec_created_message(sent: SentInvitation) -> Seq<char> {
    "Invite "@ + sent.id@ + " to "@ + sent.scope.spec_name() + " "@ + sent.target_id@
        + " created, expiring at "@ + sent.expires_at@ + ". "@ + sent.recipient_email@
        + " will be notified via email."@
}

impl CreateCommand {
    /// The request that running the command sends to the controller.
    pub fn run(self) -> (request: CreateInvitation)
        ensures
            is_request_of(request, self),
    {
        CreateInvitation {
            expires_at: self.expires_at,
            grant_role: self.grant_role,
            recipient_email: self.recipient_email,
            remaining_uses: None,
            scope: self.scope,
            target_id: self.target_id,
        }
    }
}

/// The words that report a created invitation.
pub fn created_message(sent: &SentInvitation) -> (text: String)
    ensures
        text@ == spec_created_message(*sent),
{
    let mut text = String::from_str("Invite ");
    text.append(sent.id.as_str());
    text.append(" to ");
    let scope = sent.scope.name();
    text.append(scope.as_str());
    text.append(" ");
    text.append(sent.target_id.as_str());
    text.append(" created, expiring at ");
    text.append(sent.expires_at.as_str());
    text.append(". ");
    text.append(sent.recipient_email.as_str());
    text.append(" will be notified via email.");
    text
}

} // verus!
