//! Access control for WhatsApp messages.

use crate::whatsapp_business::config::WhatsAppAccountConfig;
use vstd::prelude::*;

verus! {

/// Who may write to the bot directly.
#[derive(Debug, Clone, Copy, PartialEq, Eq, Structural)]
pub enum DmPolicy {
    Open,
    Allowlist,
    Disabled,
}

/// Which groups the bot listens to.
#[derive(Debug, Clone, Copy, PartialEq, Eq, Structural)]
pub enum GroupPolicy {
    Open,
    Allowlist,
    Disabled,
}

/// The kind of chat a message came from.
#[derive(Debug, Clone, Copy, PartialEq, Eq, Structural)]
pub enum ChatType {
    Dm,
    Group,
    Channel,
}

/// Reason an inbound message was denied.
#[derive(Debug, Clone, Copy, PartialEq, Eq, Structural)]
pub enum AccessDenied {
    DmsDisabled,
    NotOnAllowlist,
    GroupsDisabled,
    GroupNotOnAllowlist,
}

impl AccessDenied {
    /// The reason in words.
    pub open spec fn message_spec(self) -> Seq<char> {
        match self {
            AccessDenied::DmsDisabled => "DMs are disabled"@,
            AccessDenied::NotOnAllowlist => "user not on allowlist"@,
            AccessDenied::GroupsDisabled => "groups are disabled"@,
            AccessDenied::GroupNotOnAllowlist => "group not on allowlist"@,
        }
    }

    /// The reason in words.
    pub fn message(&self) -> (s: String)
        ensures
            s@ == self.message_spec(),
    {
        match self {
            AccessDenied::DmsDisabled => "DMs are disabled".to_owned(),
            AccessDenied::NotOnAllowlist => "user not on allowlist".to_owned(),
            AccessDenied::GroupsDisabled => "groups are disabled".to_owned(),
            AccessDenied::GroupNotOnAllowlist => "group not on allowlist".to_owned(),
        }
    }
}

/// The verdict on a direct message.
pub open spec fn dm_access(policy: DmPolicy, peer_on_allowlist: bool) -> Result<(), AccessDenied> {
    match policy {
        DmPolicy::Disabled => Err(AccessDenied::DmsDisabled),
        DmPolicy::Open => Ok(()),
        DmPolicy::Allowlist => if peer_on_allowlist {
            Ok(())
        } else {
            Err(AccessDenied::NotOnAllowlist)
        },
    }
}

/// The verdict on a message from a group or channel.
pub open spec fn group_access(policy: GroupPolicy, group_on_allowlist: bool) -> Result<
    (),
    AccessDenied,
> {
    match policy {
        GroupPolicy::Disabled => Err(AccessDenied::GroupsDisabled),
        GroupPolicy::Open => Ok(()),
        GroupPolicy::Allowlist => if group_on_allowlist {
            Ok(())
        } else {
            Err(AccessDenied::GroupNotOnAllowlist)
        },
    }
}

/// Whether a direct message is let in, given whether its sender is on the
/// account's allowlist.
pub fn check_dm_access(policy: DmPolicy, peer_on_allowlist: bool) -> (r: Result<(), AccessDenied>)
    ensures
        r == dm_access(policy, peer_on_allowlist),
{
    match policy {
        DmPolicy::Disabled => Err(AccessDenied::DmsDisabled),
        DmPolicy::Open => Ok(()),
        DmPolicy::Allowlist => {
            if peer_on_allowlist {
                Ok(())
            } else {
                Err(AccessDenied::NotOnAllowlist)
            }
        },
    }
}

/// Whether a group message is let in, given whether its group is on the
/// account's group allowlist.
pub fn check_group_access(policy: GroupPolicy, group_on_allowlist: bool) -> (r: Result<
    (),
    AccessDenied,
>)
    ensures
        r == group_access(policy, group_on_allowlist),
{
    match policy {
        GroupPolicy::Disabled => Err(AccessDenied::GroupsDisabled),
        GroupPolicy::Open => Ok(()),
        GroupPolicy::Allowlist => {
            if group_on_allowlist {
                Ok(())
            } else {
                Err(AccessDenied::GroupNotOnAllowlist)
            }
        },
    }
}

/// Determines if an inbound message should be processed: a direct message
/// goes by the account's DM policy and whether its sender is on the
/// allowlist, a message from a group or channel by the group policy and
/// whether its group is on the group allowlist.
///
/// Returns `Ok(())` if the message is allowed, or `Err(reason)` if it
/// should be silently dropped.
pub fn check_access(
    config: &WhatsAppAccountConfig,
    chat_type: &ChatType,
    peer_on_allowlist: bool,
    group_on_allowlist: bool,
) -> (r: Result<(), AccessDenied>)
    ensures
        r == if *chat_type == ChatType::Dm {
            dm_access(config.dm_policy, peer_on_allowlist)
        } else {
            group_access(config.group_policy, group_on_allowlist)
        },
{
    match chat_type {
        ChatType::Dm => check_dm_access(config.dm_policy, peer_on_allowlist),
        ChatType::Group => check_group_access(config.group_policy, group_on_allowlist),
        ChatType::Channel => check_group_access(config.group_policy, group_on_allowlist),
    }
}

} // verus!
