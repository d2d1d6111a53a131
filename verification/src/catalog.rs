//! The statements of the store, one for each operation, as mathematical
//! values. They are what the methods of [`crate::helpers::SupportedDatabase`]
//! return.

use vstd::prelude::*;
use crate::schema::{
    Table, ACCOUNT_DATA, ACCOUNT_EVENT_TYPE, ACCOUNT_ROOM_ID, DEVICE_ID, DEVICE_INFO,
    DEVICE_USER_ID, GOSSIP_DATA, GOSSIP_INFO_KEY, GOSSIP_RECIPIENT_ID, GOSSIP_REQUEST_ID,
    GOSSIP_SENT_OUT, HASH_MESSAGE_HASH, HASH_SENDER_KEY, IDENTITY_DATA, IDENTITY_USER_ID,
    INBOUND_ROOM_ID, INBOUND_SENDER_KEY, INBOUND_SESSION_DATA, INBOUND_SESSION_ID, KV_KEY,
    KV_VALUE, MEDIA_DATA, MEDIA_LAST_ACCESS, MEDIA_URL, MEMBER_DISPLAYNAME, MEMBER_EVENT,
    MEMBER_IS_PARTIAL, MEMBER_JOINED, MEMBER_PROFILE, MEMBER_ROOM_ID, MEMBER_USER_ID,
    OUTBOUND_ROOM_ID, OUTBOUND_SESSION_DATA, PRESENCE_EVENT, PRESENCE_USER_ID, RECEIPT_DATA,
    RECEIPT_EVENT_ID, RECEIPT_ROOM_ID, RECEIPT_TYPE, RECEIPT_USER_ID, ROOM_ID, ROOM_INFO,
    ROOM_IS_PARTIAL, SESSION_DATA, SESSION_SENDER_KEY, STATE_EVENT, STATE_EVENT_ID,
    STATE_EVENT_TYPE, STATE_IS_PARTIAL, STATE_KEY, STATE_ROOM_ID, TRACKED_USER_DATA,
    TRACKED_USER_ID,
};
use crate::statement::{Clock, ConflictView, FilterView, Guard, Stamp, StatementView};

verus! {

/// How many payloads the media cache holds at most.
pub const MEDIA_CAPACITY: usize = 100;

/// The statement that stores a value under a key, in place of the value that
/// the key had.
pub open spec fn kv_upsert() -> StatementView {
    StatementView::Insert {
        table: Table::Kv,
        columns: seq![KV_KEY, KV_VALUE],
        stamp: None,
        conflict: ConflictView::Update(seq![1]),
    }
}

/// The statement that reads the value stored under a key.
pub open spec fn kv_load() -> StatementView {
    StatementView::Select {
        table: Table::Kv,
        columns: seq![KV_VALUE],
        filter: FilterView { equals: seq![KV_KEY], guards: seq![] },
    }
}

/// The statement that reads a cached media payload and marks it as used just
/// now.
pub open spec fn media_load(clock: Clock) -> StatementView {
    StatementView::Touch {
        table: Table::Media,
        stamp: Stamp { column: MEDIA_LAST_ACCESS, clock },
        filter: FilterView { equals: seq![MEDIA_URL], guards: seq![] },
        returning: seq![MEDIA_DATA],
    }
}

/// The statement that caches a media payload, as used just now, unless its
/// locator is cached already.
pub open spec fn media_insert_1(clock: Clock) -> StatementView {
    StatementView::Insert {
        table: Table::Media,
        columns: seq![MEDIA_URL, MEDIA_DATA],
        stamp: Some(Stamp { column: MEDIA_LAST_ACCESS, clock }),
        conflict: ConflictView::Ignore,
    }
}

/// The statement that evicts from the media cache all but the
/// [`MEDIA_CAPACITY`] most recently used payloads.
pub open spec fn media_insert_2() -> StatementView {
    StatementView::Trim { table: Table::Media, by: MEDIA_LAST_ACCESS, keep: MEDIA_CAPACITY }
}

/// The statement that removes a media payload from the cache.
pub open spec fn media_delete() -> StatementView {
    StatementView::Delete {
        table: Table::Media,
        filter: FilterView { equals: seq![MEDIA_URL], guards: seq![] },
    }
}

/// The statement that stores account data of one event type for a room.
pub open spec fn account_data_upsert() -> StatementView {
    StatementView::Insert {
        table: Table::AccountData,
        columns: seq![ACCOUNT_ROOM_ID, ACCOUNT_EVENT_TYPE, ACCOUNT_DATA],
        stamp: None,
        conflict: ConflictView::Update(seq![2]),
    }
}

/// The statement that reads the account data of one event type for a room.
pub open spec fn account_data_load() -> StatementView {
    StatementView::Select {
        table: Table::AccountData,
        columns: seq![ACCOUNT_DATA],
        filter: FilterView { equals: seq![ACCOUNT_ROOM_ID, ACCOUNT_EVENT_TYPE], guards: seq![] },
    }
}

/// The statement that stores the presence of a user.
pub open spec fn presence_upsert() -> StatementView {
    StatementView::Insert {
        table: Table::Presence,
        columns: seq![PRESENCE_USER_ID, PRESENCE_EVENT],
        stamp: None,
        conflict: ConflictView::Update(seq![1]),
    }
}

/// The statement that reads the presence of a user.
pub open spec fn presence_load() -> StatementView {
    StatementView::Select {
        table: Table::Presence,
        columns: seq![PRESENCE_EVENT],
        filter: FilterView { equals: seq![PRESENCE_USER_ID], guards: seq![] },
    }
}

/// The statement that stores the membership event of a user in a room, and
/// leaves the user's profile as it is.
pub open spec fn member_upsert() -> StatementView {
    StatementView::Insert {
        table: Table::Members,
        columns: seq![MEMBER_ROOM_ID, MEMBER_USER_ID, MEMBER_IS_PARTIAL, MEMBER_EVENT, MEMBER_DISPLAYNAME, MEMBER_JOINED],
        stamp: None,
        conflict: ConflictView::Update(seq![2, 3, 4, 5]),
    }
}

/// The statement that stores the profile of a user in a room, and leaves the
/// user's membership event as it is.
pub open spec fn member_profile_upsert() -> StatementView {
    StatementView::Insert {
        table: Table::Members,
        columns: seq![MEMBER_ROOM_ID, MEMBER_USER_ID, MEMBER_IS_PARTIAL, MEMBER_PROFILE],
        stamp: None,
        conflict: ConflictView::Update(seq![3]),
    }
}

/// The statement that stores a state event, in place of the event with the
/// same room, type and state key.
pub open spec fn state_upsert() -> StatementView {
    StatementView::Insert {
        table: Table::State,
        columns: seq![STATE_ROOM_ID, STATE_EVENT_TYPE, STATE_KEY, STATE_IS_PARTIAL, STATE_EVENT, STATE_EVENT_ID],
        stamp: None,
        conflict: ConflictView::Update(seq![3, 4, 5]),
    }
}

/// The statement that removes the state event of a room that has a given
/// event id.
pub open spec fn state_redact() -> StatementView {
    StatementView::Delete {
        table: Table::State,
        filter: FilterView { equals: seq![STATE_ROOM_ID, STATE_EVENT_ID], guards: seq![] },
    }
}

/// The statement that stores the information on a room.
pub open spec fn room_upsert() -> StatementView {
    StatementView::Insert {
        table: Table::Rooms,
        columns: seq![ROOM_ID, ROOM_IS_PARTIAL, ROOM_INFO],
        stamp: None,
        conflict: ConflictView::Update(seq![1, 2]),
    }
}

/// The statement that stores the receipt of a user in a room, in place of the
/// user's receipt of the same type.
pub open spec fn receipt_upsert() -> StatementView {
    StatementView::Insert {
        table: Table::Receipts,
        columns: seq![RECEIPT_ROOM_ID, RECEIPT_EVENT_ID, RECEIPT_TYPE, RECEIPT_USER_ID, RECEIPT_DATA],
        stamp: None,
        conflict: ConflictView::Update(seq![1, 2, 4]),
    }
}

/// The statement that reads a state event, unless it is partial.
pub open spec fn state_load() -> StatementView {
    StatementView::Select {
        table: Table::State,
        columns: seq![STATE_EVENT],
        filter: FilterView { equals: seq![STATE_ROOM_ID, STATE_EVENT_TYPE, STATE_KEY], guards: seq![Guard::IsFalse(STATE_IS_PARTIAL)] },
    }
}

/// The statement that reads the state events of one type in a room that are
/// partial, or those that are not.
pub open spec fn states_load() -> StatementView {
    StatementView::Select {
        table: Table::State,
        columns: seq![STATE_EVENT],
        filter: FilterView { equals: seq![STATE_ROOM_ID, STATE_EVENT_TYPE, STATE_IS_PARTIAL], guards: seq![] },
    }
}

/// The statement that reads the profile of a user in a room, if one is
/// stored.
pub open spec fn profile_load() -> StatementView {
    StatementView::Select {
        table: Table::Members,
        columns: seq![MEMBER_PROFILE],
        filter: FilterView { equals: seq![MEMBER_ROOM_ID, MEMBER_USER_ID], guards: seq![Guard::NotNull(MEMBER_PROFILE)] },
    }
}

/// The statement that removes a user from a room.
pub open spec fn member_remove() -> StatementView {
    StatementView::Delete {
        table: Table::Members,
        filter: FilterView { equals: seq![MEMBER_ROOM_ID, MEMBER_USER_ID], guards: seq![] },
    }
}

/// The statement that lists the users of a room.
pub open spec fn members_load() -> StatementView {
    StatementView::Select {
        table: Table::Members,
        columns: seq![MEMBER_USER_ID],
        filter: FilterView { equals: seq![MEMBER_ROOM_ID], guards: seq![] },
    }
}

/// The statement that lists the users of a room that have joined, or those
/// that have not.
pub open spec fn members_load_with_join_status() -> StatementView {
    StatementView::Select {
        table: Table::Members,
        columns: seq![MEMBER_USER_ID],
        filter: FilterView { equals: seq![MEMBER_ROOM_ID, MEMBER_JOINED], guards: seq![] },
    }
}

/// The statement that reads the membership event of a user in a room, if one
/// is stored, and whether it is partial.
pub open spec fn member_load() -> StatementView {
    StatementView::Select {
        table: Table::Members,
        columns: seq![MEMBER_IS_PARTIAL, MEMBER_EVENT],
        filter: FilterView { equals: seq![MEMBER_ROOM_ID, MEMBER_USER_ID], guards: seq![Guard::NotNull(MEMBER_EVENT)] },
    }
}

/// The statement that reads the information on the rooms that are partially
/// synced, or on those that are not.
pub open spec fn room_info_load() -> StatementView {
    StatementView::Select {
        table: Table::Rooms,
        columns: seq![ROOM_INFO],
        filter: FilterView { equals: seq![ROOM_IS_PARTIAL], guards: seq![] },
    }
}

/// The statement that lists the users of a room that go by a display name.
pub open spec fn users_with_display_name_load() -> StatementView {
    StatementView::Select {
        table: Table::Members,
        columns: seq![MEMBER_USER_ID],
        filter: FilterView { equals: seq![MEMBER_ROOM_ID, MEMBER_DISPLAYNAME], guards: seq![] },
    }
}

/// The statement that reads the receipt of one type of a user in a room, and
/// the event that it is on.
pub open spec fn receipt_load() -> StatementView {
    StatementView::Select {
        table: Table::Receipts,
        columns: seq![RECEIPT_EVENT_ID, RECEIPT_DATA],
        filter: FilterView { equals: seq![RECEIPT_ROOM_ID, RECEIPT_TYPE, RECEIPT_USER_ID], guards: seq![] },
    }
}

/// The statement that lists the receipts of one type on an event, each with
/// its user.
pub open spec fn event_receipt_load() -> StatementView {
    StatementView::Select {
        table: Table::Receipts,
        columns: seq![RECEIPT_USER_ID, RECEIPT_DATA],
        filter: FilterView { equals: seq![RECEIPT_ROOM_ID, RECEIPT_TYPE, RECEIPT_EVENT_ID], guards: seq![] },
    }
}

/// The statement that adds a session to those of a sender key.
pub open spec fn session_store() -> StatementView {
    StatementView::Insert {
        table: Table::Sessions,
        columns: seq![SESSION_SENDER_KEY, SESSION_DATA],
        stamp: None,
        conflict: ConflictView::Abort,
    }
}

/// The statement that records that a message has been seen.
pub open spec fn olm_message_hash_store() -> StatementView {
    StatementView::Insert {
        table: Table::MessageHashes,
        columns: seq![HASH_SENDER_KEY, HASH_MESSAGE_HASH],
        stamp: None,
        conflict: ConflictView::Abort,
    }
}

/// The statement that stores an inbound group session.
pub open spec fn inbound_group_session_upsert() -> StatementView {
    StatementView::Insert {
        table: Table::InboundGroupSessions,
        columns: seq![INBOUND_ROOM_ID, INBOUND_SENDER_KEY, INBOUND_SESSION_ID, INBOUND_SESSION_DATA],
        stamp: None,
        conflict: ConflictView::Update(seq![3]),
    }
}

/// The statement that stores the outbound group session of a room.
pub open spec fn outbound_group_session_store() -> StatementView {
    StatementView::Insert {
        table: Table::OutboundGroupSessions,
        columns: seq![OUTBOUND_ROOM_ID, OUTBOUND_SESSION_DATA],
        stamp: None,
        conflict: ConflictView::Update(seq![1]),
    }
}

/// The statement that stores a key-gossip request.
pub open spec fn gossip_request_store() -> StatementView {
    StatementView::Insert {
        table: Table::GossipRequests,
        columns: seq![GOSSIP_RECIPIENT_ID, GOSSIP_REQUEST_ID, GOSSIP_INFO_KEY, GOSSIP_SENT_OUT, GOSSIP_DATA],
        stamp: None,
        conflict: ConflictView::Update(seq![0, 2, 3, 4]),
    }
}

/// The statement that stores the cryptographic identity of a user.
pub open spec fn identity_upsert() -> StatementView {
    StatementView::Insert {
        table: Table::Identities,
        columns: seq![IDENTITY_USER_ID, IDENTITY_DATA],
        stamp: None,
        conflict: ConflictView::Update(seq![1]),
    }
}

/// The statement that stores a device of a user.
pub open spec fn device_upsert() -> StatementView {
    StatementView::Insert {
        table: Table::Devices,
        columns: seq![DEVICE_USER_ID, DEVICE_ID, DEVICE_INFO],
        stamp: None,
        conflict: ConflictView::Update(seq![2]),
    }
}

/// The statement that removes a device of a user.
pub open spec fn device_delete() -> StatementView {
    StatementView::Delete {
        table: Table::Devices,
        filter: FilterView { equals: seq![DEVICE_USER_ID, DEVICE_ID], guards: seq![] },
    }
}

/// The statement that lists the sessions of a sender key.
pub open spec fn sessions_for_user() -> StatementView {
    StatementView::Select {
        table: Table::Sessions,
        columns: seq![SESSION_DATA],
        filter: FilterView { equals: seq![SESSION_SENDER_KEY], guards: seq![] },
    }
}

/// The statement that reads an inbound group session by its key: its room,
/// its sender key and its session id.
pub open spec fn inbound_group_session_fetch() -> StatementView {
    StatementView::Select {
        table: Table::InboundGroupSessions,
        columns: seq![INBOUND_SESSION_DATA],
        filter: FilterView {
            equals: seq![INBOUND_ROOM_ID, INBOUND_SENDER_KEY, INBOUND_SESSION_ID],
            guards: seq![],
        },
    }
}

/// The statement that lists all inbound group sessions.
pub open spec fn inbound_group_sessions_fetch() -> StatementView {
    StatementView::Select {
        table: Table::InboundGroupSessions,
        columns: seq![INBOUND_SESSION_DATA],
        filter: FilterView { equals: seq![], guards: seq![] },
    }
}

/// The statement that reads the outbound group session of a room.
pub open spec fn outbound_group_session_load() -> StatementView {
    StatementView::Select {
        table: Table::OutboundGroupSessions,
        columns: seq![OUTBOUND_SESSION_DATA],
        filter: FilterView { equals: seq![OUTBOUND_ROOM_ID], guards: seq![] },
    }
}

/// The statement that stores the tracking record of a user.
pub open spec fn tracked_user_upsert() -> StatementView {
    StatementView::Insert {
        table: Table::TrackedUsers,
        columns: seq![TRACKED_USER_ID, TRACKED_USER_DATA],
        stamp: None,
        conflict: ConflictView::Update(seq![1]),
    }
}

/// The statement that reads a device of a user.
pub open spec fn device_fetch() -> StatementView {
    StatementView::Select {
        table: Table::Devices,
        columns: seq![DEVICE_INFO],
        filter: FilterView { equals: seq![DEVICE_USER_ID, DEVICE_ID], guards: seq![] },
    }
}

/// The statement that lists the devices of a user.
pub open spec fn devices_for_user() -> StatementView {
    StatementView::Select {
        table: Table::Devices,
        columns: seq![DEVICE_INFO],
        filter: FilterView { equals: seq![DEVICE_USER_ID], guards: seq![] },
    }
}

/// The statement that lists all tracking records.
pub open spec fn tracked_users_fetch() -> StatementView {
    StatementView::Select {
        table: Table::TrackedUsers,
        columns: seq![TRACKED_USER_DATA],
        filter: FilterView { equals: seq![], guards: seq![] },
    }
}

/// The statement that reads the cryptographic identity of a user.
pub open spec fn identity_fetch() -> StatementView {
    StatementView::Select {
        table: Table::Identities,
        columns: seq![IDENTITY_DATA],
        filter: FilterView { equals: seq![IDENTITY_USER_ID], guards: seq![] },
    }
}

/// The statement that reports, by an empty result row, that a message has
/// been seen.
pub open spec fn message_known() -> StatementView {
    StatementView::Select {
        table: Table::MessageHashes,
        columns: seq![],
        filter: FilterView { equals: seq![HASH_SENDER_KEY, HASH_MESSAGE_HASH], guards: seq![] },
    }
}

/// The statement that reads a key-gossip request by its id.
pub open spec fn gossip_request_fetch() -> StatementView {
    StatementView::Select {
        table: Table::GossipRequests,
        columns: seq![GOSSIP_DATA],
        filter: FilterView { equals: seq![GOSSIP_REQUEST_ID], guards: seq![] },
    }
}

/// The statement that lists the key-gossip requests with given request
/// information.
pub open spec fn gossip_request_info_fetch() -> StatementView {
    StatementView::Select {
        table: Table::GossipRequests,
        columns: seq![GOSSIP_DATA],
        filter: FilterView { equals: seq![GOSSIP_INFO_KEY], guards: seq![] },
    }
}

/// The statement that lists the key-gossip requests that have been sent, or
/// those that have not.
pub open spec fn gossip_requests_sent_state_fetch() -> StatementView {
    StatementView::Select {
        table: Table::GossipRequests,
        columns: seq![GOSSIP_DATA],
        filter: FilterView { equals: seq![GOSSIP_SENT_OUT], guards: seq![] },
    }
}

/// The statement that removes a key-gossip request.
pub open spec fn gossip_request_delete() -> StatementView {
    StatementView::Delete {
        table: Table::GossipRequests,
        filter: FilterView { equals: seq![GOSSIP_REQUEST_ID], guards: seq![] },
    }
}

/// The statements that remove a room: one for the room itself, then one for
/// each table that holds rows of the room.
pub open spec fn room_remove() -> Seq<StatementView> {
    seq![
        room_remove_from(Table::Rooms, ROOM_ID),
        room_remove_from(Table::AccountData, ACCOUNT_ROOM_ID),
        room_remove_from(Table::Members, MEMBER_ROOM_ID),
        room_remove_from(Table::State, STATE_ROOM_ID),
        room_remove_from(Table::Receipts, RECEIPT_ROOM_ID),
    ]
}

/// The statement that removes from `table` the rows whose column `room`
/// holds a given room id.
pub open spec fn room_remove_from(table: Table, room: usize) -> StatementView {
    StatementView::Delete { table, filter: FilterView { equals: seq![room], guards: seq![] } }
}

} // verus!
