//! The rows of the channel tables.
use crate::table::Record;
use crate::text::{copy_opt, opt_text};
use vstd::prelude::*;

verus! {

/// A connection to a messaging platform.
#[derive(Debug, Clone, PartialEq, Eq)]
pub struct ChannelConnectionRow<T = String> {
    pub id: T,
    pub owner_user_id: T,
    pub plugin_key: T,
    pub name: T,
    pub enabled: bool,
    pub config: T,
    pub status: Option<T>,
    pub last_connected: Option<i64>,
    pub created_at: i64,
    pub updated_at: i64,
}

impl View for ChannelConnectionRow<String> {
    type V = ChannelConnectionRow<Seq<char>>;

    open spec fn view(&self) -> ChannelConnectionRow<Seq<char>> {
        ChannelConnectionRow {
            id: self.id@,
            owner_user_id: self.owner_user_id@,
            plugin_key: self.plugin_key@,
            name: self.name@,
            enabled: self.enabled,
            config: self.config@,
            status: opt_text(self.status),
            last_connected: self.last_connected,
            created_at: self.created_at,
            updated_at: self.updated_at,
        }
    }
}

impl Record for ChannelConnectionRow<String> {
    fn duplicate(&self) -> (copy: Self) {
        ChannelConnectionRow {
            id: self.id.clone(),
            owner_user_id: self.owner_user_id.clone(),
            plugin_key: self.plugin_key.clone(),
            name: self.name.clone(),
            enabled: self.enabled,
            config: self.config.clone(),
            status: copy_opt(&self.status),
            last_connected: self.last_connected,
            created_at: self.created_at,
            updated_at: self.updated_at,
        }
    }
}

/// Someone on a platform whom an owner has let in, as it is stored.
#[derive(Debug, Clone, PartialEq, Eq)]
pub struct StoredChannelUserRow<T = String> {
    pub id: T,
    pub owner_user_id: T,
    pub connection_id: T,
    pub external_user_id: T,
    pub display_name: Option<T>,
    pub status: T,
    pub revoked_at: Option<i64>,
    pub authorized_at: i64,
    pub last_active: Option<i64>,
}

impl View for StoredChannelUserRow<String> {
    type V = StoredChannelUserRow<Seq<char>>;

    open spec fn view(&self) -> StoredChannelUserRow<Seq<char>> {
        StoredChannelUserRow {
            id: self.id@,
            owner_user_id: self.owner_user_id@,
            connection_id: self.connection_id@,
            external_user_id: self.external_user_id@,
            display_name: opt_text(self.display_name),
            status: self.status@,
            revoked_at: self.revoked_at,
            authorized_at: self.authorized_at,
            last_active: self.last_active,
        }
    }
}

impl Record for StoredChannelUserRow<String> {
    fn duplicate(&self) -> (copy: Self) {
        StoredChannelUserRow {
            id: self.id.clone(),
            owner_user_id: self.owner_user_id.clone(),
            connection_id: self.connection_id.clone(),
            external_user_id: self.external_user_id.clone(),
            display_name: copy_opt(&self.display_name),
            status: self.status.clone(),
            revoked_at: self.revoked_at,
            authorized_at: self.authorized_at,
            last_active: self.last_active,
        }
    }
}

/// Someone on a platform whom an owner has let in, with the platform that their
/// connection is to.
#[derive(Debug, Clone, PartialEq, Eq)]
pub struct ChannelUserRow<T = String> {
    pub id: T,
    pub owner_user_id: T,
    pub connection_id: T,
    pub platform_user_id: T,
    pub platform_type: T,
    pub display_name: Option<T>,
    pub status: T,
    pub revoked_at: Option<i64>,
    pub authorized_at: i64,
    pub last_active: Option<i64>,
}

impl View for ChannelUserRow<String> {
    type V = ChannelUserRow<Seq<char>>;

    open spec fn view(&self) -> ChannelUserRow<Seq<char>> {
        ChannelUserRow {
            id: self.id@,
            owner_user_id: self.owner_user_id@,
            connection_id: self.connection_id@,
            platform_user_id: self.platform_user_id@,
            platform_type: self.platform_type@,
            display_name: opt_text(self.display_name),
            status: self.status@,
            revoked_at: self.revoked_at,
            authorized_at: self.authorized_at,
            last_active: self.last_active,
        }
    }
}

impl Record for ChannelUserRow<String> {
    fn duplicate(&self) -> (copy: Self) {
        ChannelUserRow {
            id: self.id.clone(),
            owner_user_id: self.owner_user_id.clone(),
            connection_id: self.connection_id.clone(),
            platform_user_id: self.platform_user_id.clone(),
            platform_type: self.platform_type.clone(),
            display_name: copy_opt(&self.display_name),
            status: self.status.clone(),
            revoked_at: self.revoked_at,
            authorized_at: self.authorized_at,
            last_active: self.last_active,
        }
    }
}

/// The conversation that a chat on a platform goes to.
#[derive(Debug, Clone, PartialEq, Eq)]
pub struct ChannelConversationBindingRow<T = String> {
    pub id: T,
    pub owner_user_id: T,
    pub connection_id: T,
    pub user_id: T,
    pub chat_id: Option<T>,
    pub conversation_id: Option<T>,
    pub created_at: i64,
    pub last_activity: i64,
}

impl View for ChannelConversationBindingRow<String> {
    type V = ChannelConversationBindingRow<Seq<char>>;

    open spec fn view(&self) -> ChannelConversationBindingRow<Seq<char>> {
        ChannelConversationBindingRow {
            id: self.id@,
            owner_user_id: self.owner_user_id@,
            connection_id: self.connection_id@,
            user_id: self.user_id@,
            chat_id: opt_text(self.chat_id),
            conversation_id: opt_text(self.conversation_id),
            created_at: self.created_at,
            last_activity: self.last_activity,
        }
    }
}

impl Record for ChannelConversationBindingRow<String> {
    fn duplicate(&self) -> (copy: Self) {
        ChannelConversationBindingRow {
            id: self.id.clone(),
            owner_user_id: self.owner_user_id.clone(),
            connection_id: self.connection_id.clone(),
            user_id: self.user_id.clone(),
            chat_id: copy_opt(&self.chat_id),
            conversation_id: copy_opt(&self.conversation_id),
            created_at: self.created_at,
            last_activity: self.last_activity,
        }
    }
}

/// A request to be let in, as it is stored.
#[derive(Debug, Clone, PartialEq, Eq)]
pub struct StoredPairingRequestRow<T = String> {
    pub id: T,
    pub owner_user_id: T,
    pub connection_id: T,
    pub external_user_id: T,
    pub display_name: Option<T>,
    pub code_hash: T,
    pub status: T,
    pub requested_at: i64,
    pub expires_at: i64,
    pub approved_channel_user_id: Option<T>,
}

impl View for StoredPairingRequestRow<String> {
    type V = StoredPairingRequestRow<Seq<char>>;

    open spec fn view(&self) -> StoredPairingRequestRow<Seq<char>> {
        StoredPairingRequestRow {
            id: self.id@,
            owner_user_id: self.owner_user_id@,
            connection_id: self.connection_id@,
            external_user_id: self.external_user_id@,
            display_name: opt_text(self.display_name),
            code_hash: self.code_hash@,
            status: self.status@,
            requested_at: self.requested_at,
            expires_at: self.expires_at,
            approved_channel_user_id: opt_text(self.approved_channel_user_id),
        }
    }
}

impl Record for StoredPairingRequestRow<String> {
    fn duplicate(&self) -> (copy: Self) {
        StoredPairingRequestRow {
            id: self.id.clone(),
            owner_user_id: self.owner_user_id.clone(),
            connection_id: self.connection_id.clone(),
            external_user_id: self.external_user_id.clone(),
            display_name: copy_opt(&self.display_name),
            code_hash: self.code_hash.clone(),
            status: self.status.clone(),
            requested_at: self.requested_at,
            expires_at: self.expires_at,
            approved_channel_user_id: copy_opt(&self.approved_channel_user_id),
        }
    }
}

/// A request to be let in, with the platform that its connection is to.
#[derive(Debug, Clone, PartialEq, Eq)]
pub struct ChannelPairingRequestRow<T = String> {
    pub id: T,
    pub owner_user_id: T,
    pub connection_id: T,
    pub platform_user_id: T,
    pub platform_type: T,
    pub display_name: Option<T>,
    pub code_hash: T,
    pub status: T,
    pub requested_at: i64,
    pub expires_at: i64,
    pub approved_channel_user_id: Option<T>,
}

impl View for ChannelPairingRequestRow<String> {
    type V = ChannelPairingRequestRow<Seq<char>>;

    open spec fn view(&self) -> ChannelPairingRequestRow<Seq<char>> {
        ChannelPairingRequestRow {
            id: self.id@,
            owner_user_id: self.owner_user_id@,
            connection_id: self.connection_id@,
            platform_user_id: self.platform_user_id@,
            platform_type: self.platform_type@,
            display_name: opt_text(self.display_name),
            code_hash: self.code_hash@,
            status: self.status@,
            requested_at: self.requested_at,
            expires_at: self.expires_at,
            approved_channel_user_id: opt_text(self.approved_channel_user_id),
        }
    }
}

impl Record for ChannelPairingRequestRow<String> {
    fn duplicate(&self) -> (copy: Self) {
        ChannelPairingRequestRow {
            id: self.id.clone(),
            owner_user_id: self.owner_user_id.clone(),
            connection_id: self.connection_id.clone(),
            platform_user_id: self.platform_user_id.clone(),
            platform_type: self.platform_type.clone(),
            display_name: copy_opt(&self.display_name),
            code_hash: self.code_hash.clone(),
            status: self.status.clone(),
            requested_at: self.requested_at,
            expires_at: self.expires_at,
            approved_channel_user_id: copy_opt(&self.approved_channel_user_id),
        }
    }
}

/// Whose a conversation is.
#[derive(Debug, Clone, PartialEq, Eq)]
pub struct ConversationOwnerRow<T = String> {
    pub id: T,
    pub user_id: T,
}

impl View for ConversationOwnerRow<String> {
    type V = ConversationOwnerRow<Seq<char>>;

    open spec fn view(&self) -> ConversationOwnerRow<Seq<char>> {
        ConversationOwnerRow {
            id: self.id@,
            user_id: self.user_id@,
        }
    }
}

impl Record for ConversationOwnerRow<String> {
    fn duplicate(&self) -> (copy: Self) {
        ConversationOwnerRow {
            id: self.id.clone(),
            user_id: self.user_id.clone(),
        }
    }
}

/// Parameters for updating connection runtime status; what is absent stays.
#[derive(Debug, Clone, PartialEq, Eq)]
pub struct UpdateConnectionStatusParams {
    pub status: Option<String>,
    pub last_connected: Option<i64>,
    pub enabled: Option<bool>,
}

impl Default for UpdateConnectionStatusParams {
    /// No change.
    fn default() -> (params: Self)
        ensures
            params == (UpdateConnectionStatusParams {
                status: None,
                last_connected: None,
                enabled: None,
            }),
    {
        UpdateConnectionStatusParams { status: None, last_connected: None, enabled: None }
    }
}

} // verus!
