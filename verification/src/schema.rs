//! The tables of the store: their names, their columns and their keys.
//!
//! Table and column names are a durable on-disk contract. The key of a table
//! is made of its leading columns; no two rows of a table agree on all of
//! them, and none of them is ever `NULL`.

use vstd::prelude::*;
use crate::value::ValueKind;

verus! {

/// A column of a table.
#[derive(Clone, Copy, Debug)]
pub struct Column {
    /// The column's name in the database.
    pub name: &'static str,
    /// The kind of value it holds.
    pub kind: ValueKind,
    /// Whether it may hold `NULL`.
    pub nullable: bool,
}

/// The number of tables.
pub const TABLE_COUNT: usize = 16;

/// A table of the store.
#[derive(Clone, Copy, Debug, PartialEq, Eq, Structural)]
pub enum Table {
    /// The key-value table.
    Kv,
    /// The media cache.
    Media,
    /// One row per room.
    Rooms,
    /// Account data, per room and event type.
    AccountData,
    /// One presence event per user.
    Presence,
    /// Room membership, per room and user.
    Members,
    /// State events, per room, event type and state key.
    State,
    /// Receipts, per room, receipt type and user.
    Receipts,
    /// Pairwise sessions; several may share a sender key.
    Sessions,
    /// The replay guard: messages already seen.
    MessageHashes,
    /// Inbound group sessions, per room, sender key and session id.
    InboundGroupSessions,
    /// The outbound group session of each room.
    OutboundGroupSessions,
    /// Key-gossip requests, per request id.
    GossipRequests,
    /// One cryptographic identity per user.
    Identities,
    /// Devices, per user and device id.
    Devices,
    /// One tracking record per user.
    TrackedUsers,
}

// Columns of `statestore_kv`.
pub const KV_KEY: usize = 0;
pub const KV_VALUE: usize = 1;

// Columns of `statestore_media`.
pub const MEDIA_URL: usize = 0;
pub const MEDIA_DATA: usize = 1;
pub const MEDIA_LAST_ACCESS: usize = 2;

// Columns of `statestore_rooms`.
pub const ROOM_ID: usize = 0;
pub const ROOM_IS_PARTIAL: usize = 1;
pub const ROOM_INFO: usize = 2;

// Columns of `statestore_accountdata`.
pub const ACCOUNT_ROOM_ID: usize = 0;
pub const ACCOUNT_EVENT_TYPE: usize = 1;
pub const ACCOUNT_DATA: usize = 2;

// Columns of `statestore_presence`.
pub const PRESENCE_USER_ID: usize = 0;
pub const PRESENCE_EVENT: usize = 1;

// Columns of `statestore_members`.
pub const MEMBER_ROOM_ID: usize = 0;
pub const MEMBER_USER_ID: usize = 1;
pub const MEMBER_IS_PARTIAL: usize = 2;
pub const MEMBER_EVENT: usize = 3;
pub const MEMBER_DISPLAYNAME: usize = 4;
pub const MEMBER_JOINED: usize = 5;
pub const MEMBER_PROFILE: usize = 6;

// Columns of `statestore_state`.
pub const STATE_ROOM_ID: usize = 0;
pub const STATE_EVENT_TYPE: usize = 1;
pub const STATE_KEY: usize = 2;
pub const STATE_IS_PARTIAL: usize = 3;
pub const STATE_EVENT: usize = 4;
pub const STATE_EVENT_ID: usize = 5;

// Columns of `statestore_receipts`.
pub const RECEIPT_ROOM_ID: usize = 0;
pub const RECEIPT_TYPE: usize = 1;
pub const RECEIPT_USER_ID: usize = 2;
pub const RECEIPT_EVENT_ID: usize = 3;
pub const RECEIPT_DATA: usize = 4;

// Columns of `cryptostore_session`.
pub const SESSION_SENDER_KEY: usize = 0;
pub const SESSION_DATA: usize = 1;

// Columns of `cryptostore_message_hash`.
pub const HASH_SENDER_KEY: usize = 0;
pub const HASH_MESSAGE_HASH: usize = 1;

// Columns of `cryptostore_inbound_group_session`.
pub const INBOUND_ROOM_ID: usize = 0;
pub const INBOUND_SENDER_KEY: usize = 1;
pub const INBOUND_SESSION_ID: usize = 2;
pub const INBOUND_SESSION_DATA: usize = 3;

// Columns of `cryptostore_outbound_group_session`.
pub const OUTBOUND_ROOM_ID: usize = 0;
pub const OUTBOUND_SESSION_DATA: usize = 1;

// Columns of `cryptostore_gossip_request`.
pub const GOSSIP_REQUEST_ID: usize = 0;
pub const GOSSIP_RECIPIENT_ID: usize = 1;
pub const GOSSIP_INFO_KEY: usize = 2;
pub const GOSSIP_SENT_OUT: usize = 3;
pub const GOSSIP_DATA: usize = 4;

// Columns of `cryptostore_identity`.
pub const IDENTITY_USER_ID: usize = 0;
pub const IDENTITY_DATA: usize = 1;

// Columns of `cryptostore_device`.
pub const DEVICE_USER_ID: usize = 0;
pub const DEVICE_ID: usize = 1;
pub const DEVICE_INFO: usize = 2;

// Columns of `cryptostore_tracked_user`.
pub const TRACKED_USER_ID: usize = 0;
pub const TRACKED_USER_DATA: usize = 1;

impl Table {
    /// The table's name in the database.
    pub open spec fn spec_name(self) -> &'static str {
        match self {
            Table::Kv => "statestore_kv",
            Table::Media => "statestore_media",
            Table::Rooms => "statestore_rooms",
            Table::AccountData => "statestore_accountdata",
            Table::Presence => "statestore_presence",
            Table::Members => "statestore_members",
            Table::State => "statestore_state",
            Table::Receipts => "statestore_receipts",
            Table::Sessions => "cryptostore_session",
            Table::MessageHashes => "cryptostore_message_hash",
            Table::InboundGroupSessions => "cryptostore_inbound_group_session",
            Table::OutboundGroupSessions => "cryptostore_outbound_group_session",
            Table::GossipRequests => "cryptostore_gossip_request",
            Table::Identities => "cryptostore_identity",
            Table::Devices => "cryptostore_device",
            Table::TrackedUsers => "cryptostore_tracked_user",
        }
    }

    /// The table's columns, in the order in which a row holds them.
    pub open spec fn spec_columns(self) -> Seq<Column> {
        match self {
            Table::Kv => seq![
                Column { name: "kv_key", kind: ValueKind::Text, nullable: false },
                Column { name: "kv_value", kind: ValueKind::Blob, nullable: false },
            ],
            Table::Media => seq![
                Column { name: "media_url", kind: ValueKind::Text, nullable: false },
                Column { name: "media_data", kind: ValueKind::Blob, nullable: false },
                Column { name: "last_access", kind: ValueKind::Time, nullable: false },
            ],
            Table::Rooms => seq![
                Column { name: "room_id", kind: ValueKind::Text, nullable: false },
                Column { name: "is_partial", kind: ValueKind::Bool, nullable: false },
                Column { name: "room_info", kind: ValueKind::Blob, nullable: false },
            ],
            Table::AccountData => seq![
                Column { name: "room_id", kind: ValueKind::Text, nullable: false },
                Column { name: "event_type", kind: ValueKind::Text, nullable: false },
                Column { name: "account_data", kind: ValueKind::Blob, nullable: false },
            ],
            Table::Presence => seq![
                Column { name: "user_id", kind: ValueKind::Text, nullable: false },
                Column { name: "presence", kind: ValueKind::Blob, nullable: false },
            ],
            Table::Members => seq![
                Column { name: "room_id", kind: ValueKind::Text, nullable: false },
                Column { name: "user_id", kind: ValueKind::Text, nullable: false },
                Column { name: "is_partial", kind: ValueKind::Bool, nullable: false },
                Column { name: "member_event", kind: ValueKind::Blob, nullable: true },
                Column { name: "displayname", kind: ValueKind::Text, nullable: true },
                Column { name: "joined", kind: ValueKind::Bool, nullable: true },
                Column { name: "user_profile", kind: ValueKind::Blob, nullable: true },
            ],
            Table::State => seq![
                Column { name: "room_id", kind: ValueKind::Text, nullable: false },
                Column { name: "event_type", kind: ValueKind::Text, nullable: false },
                Column { name: "state_key", kind: ValueKind::Text, nullable: false },
                Column { name: "is_partial", kind: ValueKind::Bool, nullable: false },
                Column { name: "state_event", kind: ValueKind::Blob, nullable: false },
                Column { name: "event_id", kind: ValueKind::Text, nullable: true },
            ],
            Table::Receipts => seq![
                Column { name: "room_id", kind: ValueKind::Text, nullable: false },
                Column { name: "receipt_type", kind: ValueKind::Text, nullable: false },
                Column { name: "user_id", kind: ValueKind::Text, nullable: false },
                Column { name: "event_id", kind: ValueKind::Text, nullable: false },
                Column { name: "receipt", kind: ValueKind::Blob, nullable: false },
            ],
            Table::Sessions => seq![
                Column { name: "sender_key", kind: ValueKind::Text, nullable: false },
                Column { name: "session_data", kind: ValueKind::Blob, nullable: false },
            ],
            Table::MessageHashes => seq![
                Column { name: "sender_key", kind: ValueKind::Text, nullable: false },
                Column { name: "message_hash", kind: ValueKind::Text, nullable: false },
            ],
            Table::InboundGroupSessions => seq![
                Column { name: "room_id", kind: ValueKind::Text, nullable: false },
                Column { name: "sender_key", kind: ValueKind::Text, nullable: false },
                Column { name: "session_id", kind: ValueKind::Text, nullable: false },
                Column { name: "session_data", kind: ValueKind::Blob, nullable: false },
            ],
            Table::OutboundGroupSessions => seq![
                Column { name: "room_id", kind: ValueKind::Text, nullable: false },
                Column { name: "session_data", kind: ValueKind::Blob, nullable: false },
            ],
            Table::GossipRequests => seq![
                Column { name: "request_id", kind: ValueKind::Text, nullable: false },
                Column { name: "recipient_id", kind: ValueKind::Text, nullable: false },
                Column { name: "info_key", kind: ValueKind::Text, nullable: false },
                Column { name: "sent_out", kind: ValueKind::Bool, nullable: false },
                Column { name: "gossip_data", kind: ValueKind::Blob, nullable: false },
            ],
            Table::Identities => seq![
                Column { name: "user_id", kind: ValueKind::Text, nullable: false },
                Column { name: "identity_data", kind: ValueKind::Blob, nullable: false },
            ],
            Table::Devices => seq![
                Column { name: "user_id", kind: ValueKind::Text, nullable: false },
                Column { name: "device_id", kind: ValueKind::Text, nullable: false },
                Column { name: "device_info", kind: ValueKind::Blob, nullable: false },
            ],
            Table::TrackedUsers => seq![
                Column { name: "user_id", kind: ValueKind::Text, nullable: false },
                Column { name: "tracked_user_data", kind: ValueKind::Blob, nullable: false },
            ],
        }
    }

    /// How many leading columns make the table's key; 0 for a table whose
    /// rows are not keyed.
    pub open spec fn spec_key_len(self) -> nat {
        match self {
            Table::Kv => 1,
            Table::Media => 1,
            Table::Rooms => 1,
            Table::AccountData => 2,
            Table::Presence => 1,
            Table::Members => 2,
            Table::State => 3,
            Table::Receipts => 3,
            Table::Sessions => 0,
            Table::MessageHashes => 2,
            Table::InboundGroupSessions => 3,
            Table::OutboundGroupSessions => 1,
            Table::GossipRequests => 1,
            Table::Identities => 1,
            Table::Devices => 2,
            Table::TrackedUsers => 1,
        }
    }

    /// The table's position among the tables.
    pub open spec fn spec_index(self) -> nat {
        match self {
            Table::Kv => 0,
            Table::Media => 1,
            Table::Rooms => 2,
            Table::AccountData => 3,
            Table::Presence => 4,
            Table::Members => 5,
            Table::State => 6,
            Table::Receipts => 7,
            Table::Sessions => 8,
            Table::MessageHashes => 9,
            Table::InboundGroupSessions => 10,
            Table::OutboundGroupSessions => 11,
            Table::GossipRequests => 12,
            Table::Identities => 13,
            Table::Devices => 14,
            Table::TrackedUsers => 15,
        }
    }

    /// The number of columns.
    pub open spec fn spec_width(self) -> nat {
        self.spec_columns().len()
    }

    /// The kind of column `c`.
    pub open spec fn spec_kind(self, c: int) -> ValueKind {
        self.spec_columns()[c].kind
    }

    /// Whether column `c` may hold `NULL`.
    pub open spec fn spec_nullable(self, c: int) -> bool {
        self.spec_columns()[c].nullable
    }

    /// The table's name in the database.
    pub fn name(self) -> (r: &'static str)
        ensures
            r == self.spec_name(),
    {
        match self {
            Table::Kv => "statestore_kv",
            Table::Media => "statestore_media",
            Table::Rooms => "statestore_rooms",
            Table::AccountData => "statestore_accountdata",
            Table::Presence => "statestore_presence",
            Table::Members => "statestore_members",
            Table::State => "statestore_state",
            Table::Receipts => "statestore_receipts",
            Table::Sessions => "cryptostore_session",
            Table::MessageHashes => "cryptostore_message_hash",
            Table::InboundGroupSessions => "cryptostore_inbound_group_session",
            Table::OutboundGroupSessions => "cryptostore_outbound_group_session",
            Table::GossipRequests => "cryptostore_gossip_request",
            Table::Identities => "cryptostore_identity",
            Table::Devices => "cryptostore_device",
            Table::TrackedUsers => "cryptostore_tracked_user",
        }
    }

    /// The table's columns, in the order in which a row holds them.
    pub fn columns(self) -> (r: Vec<Column>)
        ensures
            r@ == self.spec_columns(),
    {
        let r = match self {
            Table::Kv => vec![
                Column { name: "kv_key", kind: ValueKind::Text, nullable: false },
                Column { name: "kv_value", kind: ValueKind::Blob, nullable: false },
            ],
            Table::Media => vec![
                Column { name: "media_url", kind: ValueKind::Text, nullable: false },
                Column { name: "media_data", kind: ValueKind::Blob, nullable: false },
                Column { name: "last_access", kind: ValueKind::Time, nullable: false },
            ],
            Table::Rooms => vec![
                Column { name: "room_id", kind: ValueKind::Text, nullable: false },
                Column { name: "is_partial", kind: ValueKind::Bool, nullable: false },
                Column { name: "room_info", kind: ValueKind::Blob, nullable: false },
            ],
            Table::AccountData => vec![
                Column { name: "room_id", kind: ValueKind::Text, nullable: false },
                Column { name: "event_type", kind: ValueKind::Text, nullable: false },
                Column { name: "account_data", kind: ValueKind::Blob, nullable: false },
            ],
            Table::Presence => vec![
                Column { name: "user_id", kind: ValueKind::Text, nullable: false },
                Column { name: "presence", kind: ValueKind::Blob, nullable: false },
            ],
            Table::Members => vec![
                Column { name: "room_id", kind: ValueKind::Text, nullable: false },
                Column { name: "user_id", kind: ValueKind::Text, nullable: false },
                Column { name: "is_partial", kind: ValueKind::Bool, nullable: false },
                Column { name: "member_event", kind: ValueKind::Blob, nullable: true },
                Column { name: "displayname", kind: ValueKind::Text, nullable: true },
                Column { name: "joined", kind: ValueKind::Bool, nullable: true },
                Column { name: "user_profile", kind: ValueKind::Blob, nullable: true },
            ],
            Table::State => vec![
                Column { name: "room_id", kind: ValueKind::Text, nullable: false },
                Column { name: "event_type", kind: ValueKind::Text, nullable: false },
                Column { name: "state_key", kind: ValueKind::Text, nullable: false },
                Column { name: "is_partial", kind: ValueKind::Bool, nullable: false },
                Column { name: "state_event", kind: ValueKind::Blob, nullable: false },
                Column { name: "event_id", kind: ValueKind::Text, nullable: true },
            ],
            Table::Receipts => vec![
                Column { name: "room_id", kind: ValueKind::Text, nullable: false },
                Column { name: "receipt_type", kind: ValueKind::Text, nullable: false },
                Column { name: "user_id", kind: ValueKind::Text, nullable: false },
                Column { name: "event_id", kind: ValueKind::Text, nullable: false },
                Column { name: "receipt", kind: ValueKind::Blob, nullable: false },
            ],
            Table::Sessions => vec![
                Column { name: "sender_key", kind: ValueKind::Text, nullable: false },
                Column { name: "session_data", kind: ValueKind::Blob, nullable: false },
            ],
            Table::MessageHashes => vec![
                Column { name: "sender_key", kind: ValueKind::Text, nullable: false },
                Column { name: "message_hash", kind: ValueKind::Text, nullable: false },
            ],
            Table::InboundGroupSessions => vec![
                Column { name: "room_id", kind: ValueKind::Text, nullable: false },
                Column { name: "sender_key", kind: ValueKind::Text, nullable: false },
                Column { name: "session_id", kind: ValueKind::Text, nullable: false },
                Column { name: "session_data", kind: ValueKind::Blob, nullable: false },
            ],
            Table::OutboundGroupSessions => vec![
                Column { name: "room_id", kind: ValueKind::Text, nullable: false },
                Column { name: "session_data", kind: ValueKind::Blob, nullable: false },
            ],
            Table::GossipRequests => vec![
                Column { name: "request_id", kind: ValueKind::Text, nullable: false },
                Column { name: "recipient_id", kind: ValueKind::Text, nullable: false },
                Column { name: "info_key", kind: ValueKind::Text, nullable: false },
                Column { name: "sent_out", kind: ValueKind::Bool, nullable: false },
                Column { name: "gossip_data", kind: ValueKind::Blob, nullable: false },
            ],
            Table::Identities => vec![
                Column { name: "user_id", kind: ValueKind::Text, nullable: false },
                Column { name: "identity_data", kind: ValueKind::Blob, nullable: false },
            ],
            Table::Devices => vec![
                Column { name: "user_id", kind: ValueKind::Text, nullable: false },
                Column { name: "device_id", kind: ValueKind::Text, nullable: false },
                Column { name: "device_info", kind: ValueKind::Blob, nullable: false },
            ],
            Table::TrackedUsers => vec![
                Column { name: "user_id", kind: ValueKind::Text, nullable: false },
                Column { name: "tracked_user_data", kind: ValueKind::Blob, nullable: false },
            ],
        };
        assert(r@ =~= self.spec_columns());
        r
    }

    /// How many leading columns make the table's key.
    pub fn key_len(self) -> (r: usize)
        ensures
            r == self.spec_key_len(),
    {
        match self {
            Table::Kv => 1,
            Table::Media => 1,
            Table::Rooms => 1,
            Table::AccountData => 2,
            Table::Presence => 1,
            Table::Members => 2,
            Table::State => 3,
            Table::Receipts => 3,
            Table::Sessions => 0,
            Table::MessageHashes => 2,
            Table::InboundGroupSessions => 3,
            Table::OutboundGroupSessions => 1,
            Table::GossipRequests => 1,
            Table::Identities => 1,
            Table::Devices => 2,
            Table::TrackedUsers => 1,
        }
    }

    /// The table's position among the tables.
    pub fn index(self) -> (r: usize)
        ensures
            r == self.spec_index(),
            r < TABLE_COUNT,
    {
        match self {
            Table::Kv => 0,
            Table::Media => 1,
            Table::Rooms => 2,
            Table::AccountData => 3,
            Table::Presence => 4,
            Table::Members => 5,
            Table::State => 6,
            Table::Receipts => 7,
            Table::Sessions => 8,
            Table::MessageHashes => 9,
            Table::InboundGroupSessions => 10,
            Table::OutboundGroupSessions => 11,
            Table::GossipRequests => 12,
            Table::Identities => 13,
            Table::Devices => 14,
            Table::TrackedUsers => 15,
        }
    }

    /// The table at position `i`.
    pub fn at(i: usize) -> (r: Option<Table>)
        ensures
            i < TABLE_COUNT <==> r is Some,
            r matches Some(t) ==> t.spec_index() == i,
    {
        match i {
            0 => Some(Table::Kv),
            1 => Some(Table::Media),
            2 => Some(Table::Rooms),
            3 => Some(Table::AccountData),
            4 => Some(Table::Presence),
            5 => Some(Table::Members),
            6 => Some(Table::State),
            7 => Some(Table::Receipts),
            8 => Some(Table::Sessions),
            9 => Some(Table::MessageHashes),
            10 => Some(Table::InboundGroupSessions),
            11 => Some(Table::OutboundGroupSessions),
            12 => Some(Table::GossipRequests),
            13 => Some(Table::Identities),
            14 => Some(Table::Devices),
            15 => Some(Table::TrackedUsers),
            _ => None,
        }
    }

    /// Every table has a column, its key lies within its columns, and no key
    /// column may hold `NULL`.
    pub proof fn lemma_schema(self)
        ensures
            0 < self.spec_width() <= 7,
            self.spec_key_len() <= self.spec_width(),
            forall|c: int| 0 <= c < self.spec_key_len() ==> !self.spec_nullable(c),
    {
    }
}

} // verus!
