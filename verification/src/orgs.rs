//! Organizations, memberships and invitations around the shared-task
//! engine: the request and response shapes of the membership API, and the
//! admin rules that guard membership mutations.

use vstd::prelude::*;

verus! {

/// A member's role in an organization.
#[derive(Clone, Copy, PartialEq, Eq, Structural, Debug)]
pub enum MemberRole {
    Admin,
    Member,
}

/// Body of `POST /organizations`.
#[derive(Debug)]
pub struct CreateOrganizationRequest {
    pub name: String,
    pub slug: String,
}

/// Body of `PATCH /organizations/{id}`.
#[derive(Debug)]
pub struct UpdateOrganizationRequest {
    pub name: String,
}

/// Body of `POST /organizations/{id}/invitations`.
#[derive(Debug)]
pub struct CreateInvitationRequest {
    pub email: String,
    pub role: MemberRole,
}

/// Answer of `POST /invitations/{token}/accept`.
#[derive(Debug)]
pub struct AcceptInvitationResponse {
    pub organization_id: String,
    pub organization_slug: String,
    pub role: MemberRole,
}

/// Body of `PATCH /organizations/{id}/members/{user}/role`.
#[derive(Clone, Copy, PartialEq, Eq, Structural, Debug)]
pub struct UpdateMemberRoleRequest {
    pub role: MemberRole,
}

/// Answer of `PATCH /organizations/{id}/members/{user}/role`.
#[derive(Clone, Copy, PartialEq, Eq, Structural, Debug)]
pub struct UpdateMemberRoleResponse {
    pub user_id: u128,
    pub role: MemberRole,
}

/// One pending invitation.
#[derive(Debug)]
pub struct Invitation {
    pub id: u128,
    pub organization_id: u128,
    pub invited_by_user_id: Option<u128>,
    pub email: String,
    pub role: MemberRole,
    pub token: String,
    pub created_at: i64,
    pub expires_at: i64,
}

/// One member row as the membership table holds it.
#[derive(Clone, Copy, PartialEq, Eq, Structural, Debug)]
pub struct MemberRecord {
    pub role: MemberRole,
    pub active: bool,
}

/// Why a membership mutation was refused.
#[derive(Clone, Copy, PartialEq, Eq, Structural, Debug)]
pub enum MemberActionError {
    OrganizationMismatch,
    SelfAction,
    NotMember,
    AdminRequired,
    MemberNotFound,
    LastAdmin,
}

/// How long an invitation stays valid, in milliseconds.
pub const INVITATION_TTL_MS: i64 = 604800000;

/// When an invitation created now expires: seven days later.
pub fn invitation_expiry(now: i64) -> (r: i64)
    requires
        now + INVITATION_TTL_MS <= i64::MAX,
    ensures
        r == now + INVITATION_TTL_MS,
{
    now + INVITATION_TTL_MS
}

/// Whether the given user is the one and only active admin listed.
pub open spec fn is_last_admin(admins: Seq<u128>, user: u128) -> bool {
    admins.len() == 1 && admins[0] == user
}

/// The admin rule guarding member removal: the acting user must be an
/// active admin of the addressed organization, may not remove themself,
/// the target must be an active member, and the last admin cannot go.
pub fn plan_remove_member(
    org_matches: bool,
    acting_user: u128,
    target_user: u128,
    acting: Option<MemberRecord>,
    target: Option<MemberRecord>,
    admins: &Vec<u128>,
) -> (r: Result<(), MemberActionError>)
    ensures
        r == (if !org_matches {
            Err::<(), MemberActionError>(MemberActionError::OrganizationMismatch)
        } else if acting_user == target_user {
            Err::<(), MemberActionError>(MemberActionError::SelfAction)
        } else if !(match acting {
            Some(m) => m.active,
            None => false,
        }) {
            Err::<(), MemberActionError>(MemberActionError::NotMember)
        } else if acting->0.role != MemberRole::Admin {
            Err::<(), MemberActionError>(MemberActionError::AdminRequired)
        } else if target is None {
            Err::<(), MemberActionError>(MemberActionError::MemberNotFound)
        } else if !target->0.active {
            Err::<(), MemberActionError>(MemberActionError::MemberNotFound)
        } else if target->0.role == MemberRole::Admin && is_last_admin(admins@, target_user) {
            Err::<(), MemberActionError>(MemberActionError::LastAdmin)
        } else {
            Ok::<(), MemberActionError>(())
        }),
{
    if !org_matches {
        return Err(MemberActionError::OrganizationMismatch);
    }
    if acting_user == target_user {
        return Err(MemberActionError::SelfAction);
    }
    let acting_rec = match acting {
        Some(m) => {
            if !m.active {
                return Err(MemberActionError::NotMember);
            }
            m
        },
        None => {
            return Err(MemberActionError::NotMember);
        },
    };
    if !matches!(acting_rec.role, MemberRole::Admin) {
        return Err(MemberActionError::AdminRequired);
    }
    let target_rec = match target {
        Some(m) => m,
        None => {
            return Err(MemberActionError::MemberNotFound);
        },
    };
    if !target_rec.active {
        return Err(MemberActionError::MemberNotFound);
    }
    if matches!(target_rec.role, MemberRole::Admin) && admins.len() == 1 && admins[0]
        == target_user {
        return Err(MemberActionError::LastAdmin);
    }
    Ok(())
}

/// What a role update decides: nothing to change, or apply the new role.
#[derive(Clone, Copy, PartialEq, Eq, Structural, Debug)]
pub enum RoleChange {
    Unchanged,
    Apply,
}

/// The admin rule guarding role updates: the acting user must be an active
/// admin, may not demote themself, the target must be an active member, an
/// equal role changes nothing, and the last admin cannot be demoted.
pub fn plan_update_member_role(
    org_matches: bool,
    acting_user: u128,
    target_user: u128,
    new_role: MemberRole,
    acting: Option<MemberRecord>,
    target: Option<MemberRecord>,
    admins: &Vec<u128>,
) -> (r: Result<RoleChange, MemberActionError>)
    ensures
        r == (if !org_matches {
            Err::<RoleChange, MemberActionError>(MemberActionError::OrganizationMismatch)
        } else if acting_user == target_user && new_role == MemberRole::Member {
            Err::<RoleChange, MemberActionError>(MemberActionError::SelfAction)
        } else if !(match acting {
            Some(m) => m.active,
            None => false,
        }) {
            Err::<RoleChange, MemberActionError>(MemberActionError::NotMember)
        } else if acting->0.role != MemberRole::Admin {
            Err::<RoleChange, MemberActionError>(MemberActionError::AdminRequired)
        } else if target is None {
            Err::<RoleChange, MemberActionError>(MemberActionError::MemberNotFound)
        } else if !target->0.active {
            Err::<RoleChange, MemberActionError>(MemberActionError::MemberNotFound)
        } else if target->0.role == new_role {
            Ok::<RoleChange, MemberActionError>(RoleChange::Unchanged)
        } else if target->0.role == MemberRole::Admin && new_role == MemberRole::Member
            && is_last_admin(admins@, target_user) {
            Err::<RoleChange, MemberActionError>(MemberActionError::LastAdmin)
        } else {
            Ok::<RoleChange, MemberActionError>(RoleChange::Apply)
        }),
{
    if !org_matches {
        return Err(MemberActionError::OrganizationMismatch);
    }
    if acting_user == target_user && matches!(new_role, MemberRole::Member) {
        return Err(MemberActionError::SelfAction);
    }
    let acting_rec = match acting {
        Some(m) => {
            if !m.active {
                return Err(MemberActionError::NotMember);
            }
            m
        },
        None => {
            return Err(MemberActionError::NotMember);
        },
    };
    if !matches!(acting_rec.role, MemberRole::Admin) {
        return Err(MemberActionError::AdminRequired);
    }
    let target_rec = match target {
        Some(m) => m,
        None => {
            return Err(MemberActionError::MemberNotFound);
        },
    };
    if !target_rec.active {
        return Err(MemberActionError::MemberNotFound);
    }
    if target_rec.role == new_role {
        return Ok(RoleChange::Unchanged);
    }
    if matches!(target_rec.role, MemberRole::Admin) && matches!(new_role, MemberRole::Member)
        && admins.len() == 1 && admins[0] == target_user {
        return Err(MemberActionError::LastAdmin);
    }
    Ok(RoleChange::Apply)
}

/// Lifecycle state of an invitation.
#[derive(Clone, Copy, PartialEq, Eq, Structural, Debug)]
pub enum InvitationStatus {
    Pending,
    Accepted,
    Expired,
    Revoked,
}

/// Why an invitation could not be accepted.
#[derive(Clone, Copy, PartialEq, Eq, Structural, Debug)]
pub enum AcceptInvitationError {
    NotFoundOrUsed,
    Expired,
}

/// The rule deciding an invitation acceptance: only a pending invitation
/// counts, and one past its expiry is marked expired instead of joining
/// the member.
pub fn plan_accept_invitation(
    invitation: Option<(InvitationStatus, i64, MemberRole)>,
    now: i64,
) -> (r: Result<MemberRole, AcceptInvitationError>)
    ensures
        r == (match invitation {
            Some((status, expires_at, role)) => if status != InvitationStatus::Pending {
                Err::<MemberRole, AcceptInvitationError>(AcceptInvitationError::NotFoundOrUsed)
            } else if expires_at < now {
                Err::<MemberRole, AcceptInvitationError>(AcceptInvitationError::Expired)
            } else {
                Ok::<MemberRole, AcceptInvitationError>(role)
            },
            None => Err::<MemberRole, AcceptInvitationError>(
                AcceptInvitationError::NotFoundOrUsed,
            ),
        }),
{
    match invitation {
        Some((status, expires_at, role)) => {
            if !matches!(status, InvitationStatus::Pending) {
                Err(AcceptInvitationError::NotFoundOrUsed)
            } else if expires_at < now {
                Err(AcceptInvitationError::Expired)
            } else {
                Ok(role)
            }
        },
        None => Err(AcceptInvitationError::NotFoundOrUsed),
    }
}

/// Sends organization invitations.  The engine only decides when one is
/// sent; carriers implement the sending.
pub trait Mailer {
    fn send_org_invitation(
        &self,
        org_slug: &str,
        email: &str,
        accept_url: &str,
        role: MemberRole,
        invited_by: Option<&str>,
    );
}

/// A mailer that sends nothing.
pub struct NoopMailer;

impl Mailer for NoopMailer {
    fn send_org_invitation(
        &self,
        org_slug: &str,
        email: &str,
        accept_url: &str,
        role: MemberRole,
        invited_by: Option<&str>,
    ) {
    }
}

} // verus!