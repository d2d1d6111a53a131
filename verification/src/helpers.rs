//! The dialects that the store supports, and the statements that each of
//! them runs.

use vstd::prelude::*;
use vstd::string::StringExecFns;
use crate::catalog;
use crate::catalog::MEDIA_CAPACITY;
use crate::schema::{
    Table, ACCOUNT_DATA, ACCOUNT_EVENT_TYPE, ACCOUNT_ROOM_ID, DEVICE_ID, DEVICE_INFO,
    DEVICE_USER_ID, GOSSIP_DATA, GOSSIP_INFO_KEY, GOSSIP_RECIPIENT_ID, GOSSIP_REQUEST_ID,
    GOSSIP_SENT_OUT, HASH_MESSAGE_HASH, HASH_SENDER_KEY, IDENTITY_DATA, IDENTITY_USER_ID,
    INBOUND_ROOM_ID, INBOUND_SENDER_KEY, INBOUND_SESSION_DATA, INBOUND_SESSION_ID, KV_KEY,
    KV_VALUE, MEDIA_DATA, MEDIA_LAST_ACCESS, MEDIA_URL, MEMBER_DISPLAYNAME, MEMBER_EVENT,
    MEMBER_IS_PARTIAL, MEMBER_JOINED, MEMBER_PROFILE, MEMBER_ROOM_ID, MEMBER_USER_ID,
    OUTBOUND_ROOM_ID, OUTBOUND_SESSION_DATA, PRESENCE_EVENT, PRESENCE_USER_ID, RECEIPT_DATA,
    RECEIPT_EVENT_ID, RECEIPT_ROOM_ID, RECEIPT_TYPE, RECEIPT_USER_ID, ROOM_ID, ROOM_INFO,
    ROOM_IS_PARTIAL, SESSION_DATA, SESSION_SENDER_KEY, STATE_EVENT, STATE_EVENT_ID,
    STATE_EVENT_TYPE, STATE_IS_PARTIAL, STATE_KEY, STATE_ROOM_ID, TRACKED_USER_DATA,
    TRACKED_USER_ID,
};
use crate::migrate::{
    build_migrator, postgres_type_names, postgres_types, sqlite_type_names, sqlite_types,
    store_migrator, Migrator, TypeNames,
};
use crate::statement::{Clock, Conflict, Filter, Guard, Stamp, Statement};
use crate::value::{copy_bytes, Value, ValueView};
use self::private::Sealed;

mod private;

verus! {

/// `sqlx::Postgres`, the marker of the PostgreSQL driver. It stands for the
/// PostgreSQL dialect here.
#[verifier::external_type_specification]
#[verifier::external_body]
pub struct ExPostgres(sqlx::Postgres);

/// `sqlx::Sqlite`, the marker of the SQLite driver. It stands for the
/// SQLite dialect here.
#[verifier::external_type_specification]
#[verifier::external_body]
pub struct ExSqlite(sqlx::Sqlite);

/// A type whose values a statement of dialect `DB` takes as parameters and
/// gives back in result rows.
pub trait SqlType<DB: SupportedDatabase>: Sized {
    /// What the store holds for the value.
    spec fn content(&self) -> ValueView;

    /// Whether a cell with content `v` holds a value of this type.
    spec fn accepts(v: ValueView) -> bool;

    /// The value, as a parameter.
    fn encode(&self) -> (v: Value)
        ensures
            v@ == self.content(),
            Self::accepts(v@),
    ;

    /// The value that a cell holds, if it holds one of this type.
    fn decode(v: &Value) -> (r: Option<Self>)
        ensures
            r is Some <==> Self::accepts(v@),
            r matches Some(x) ==> x.content() == v@,
    ;
}

impl<DB: SupportedDatabase> SqlType<DB> for bool {
    open spec fn content(&self) -> ValueView {
        ValueView::Bool(*self)
    }

    open spec fn accepts(v: ValueView) -> bool {
        v is Bool
    }

    fn encode(&self) -> (v: Value) {
        Value::Bool(*self)
    }

    fn decode(v: &Value) -> (r: Option<Self>) {
        match v {
            Value::Bool(b) => Some(*b),
            _ => None,
        }
    }
}

impl<DB: SupportedDatabase> SqlType<DB> for String {
    open spec fn content(&self) -> ValueView {
        ValueView::Text(self@)
    }

    open spec fn accepts(v: ValueView) -> bool {
        v is Text
    }

    fn encode(&self) -> (v: Value) {
        Value::Text(self.clone())
    }

    fn decode(v: &Value) -> (r: Option<Self>) {
        match v {
            Value::Text(s) => Some(s.clone()),
            _ => None,
        }
    }
}

impl<DB: SupportedDatabase> SqlType<DB> for Vec<u8> {
    open spec fn content(&self) -> ValueView {
        ValueView::Blob(self@)
    }

    open spec fn accepts(v: ValueView) -> bool {
        v is Blob
    }

    fn encode(&self) -> (v: Value) {
        Value::Blob(copy_bytes(self))
    }

    fn decode(v: &Value) -> (r: Option<Self>) {
        match v {
            Value::Blob(b) => Some(copy_bytes(b)),
            _ => None,
        }
    }
}

impl<DB: SupportedDatabase, T: SqlType<DB>> SqlType<DB> for Option<T> {
    open spec fn content(&self) -> ValueView {
        match self {
            Some(x) => x.content(),
            None => ValueView::Null,
        }
    }

    open spec fn accepts(v: ValueView) -> bool {
        v is Null || T::accepts(v)
    }

    fn encode(&self) -> (v: Value) {
        match self {
            Some(x) => x.encode(),
            None => Value::Null,
        }
    }

    fn decode(v: &Value) -> (r: Option<Self>) {
        if v.is_null() {
            Some(None)
        } else {
            match T::decode(v) {
                Some(x) => Some(Some(x)),
                None => None,
            }
        }
    }
}

/// A type whose values a statement of dialect `DB` takes as parameters and
/// gives back in result rows, and which borrows what it holds.
pub trait BorrowedSqlType<'a, DB: SupportedDatabase>: Sized + 'a {
    /// What the store holds for the value.
    spec fn content(&self) -> ValueView;

    /// Whether a cell with content `v` holds a value of this type.
    spec fn accepts(v: ValueView) -> bool;

    /// The value, as a parameter.
    fn encode(&self) -> (v: Value)
        ensures
            v@ == self.content(),
            Self::accepts(v@),
    ;

    /// The value that a cell holds, if it holds one of this type.
    fn decode(v: &'a Value) -> (r: Option<Self>)
        ensures
            r is Some <==> Self::accepts(v@),
            r matches Some(x) ==> x.content() == v@,
    ;
}

impl<'a, DB: SupportedDatabase> BorrowedSqlType<'a, DB> for &'a str {
    open spec fn content(&self) -> ValueView {
        ValueView::Text(self@)
    }

    open spec fn accepts(v: ValueView) -> bool {
        v is Text
    }

    fn encode(&self) -> (v: Value) {
        Value::Text(String::from_str(*self))
    }

    fn decode(v: &'a Value) -> (r: Option<Self>) {
        match v {
            Value::Text(s) => Some(s.as_str()),
            _ => None,
        }
    }
}

impl<'a, DB: SupportedDatabase> BorrowedSqlType<'a, DB> for &'a Vec<u8> {
    open spec fn content(&self) -> ValueView {
        ValueView::Blob(self@)
    }

    open spec fn accepts(v: ValueView) -> bool {
        v is Blob
    }

    fn encode(&self) -> (v: Value) {
        Value::Blob(copy_bytes(*self))
    }

    fn decode(v: &'a Value) -> (r: Option<Self>) {
        match v {
            Value::Blob(b) => Some(b),
            _ => None,
        }
    }
}

/// The statement that removes from `table` the rows whose column `room`
/// holds a given room id.
fn remove_by_room(table: Table, room: usize) -> (q: Statement)
    ensures
        q@ =~~= catalog::room_remove_from(table, room),
{
    Statement::Delete { table, filter: Filter { equals: vec![room], guards: vec![] } }
}

/// A dialect that the store supports.
///
/// Every operation of the store is a method here that returns the
/// operation's statement. The statements given here are those of PostgreSQL;
/// a dialect overrides a method where it has to spell the statement
/// differently, and only there. What a statement means does not depend on
/// the dialect.
///
/// The trait is sealed: the dialects are those that this crate implements
/// it for, `sqlx::Postgres` and `sqlx::Sqlite`.
pub trait SupportedDatabase: Sealed {
    /// How the dialect names the types of columns.
    spec fn type_names() -> TypeNames;

    /// The migrations that create the store's tables in a database of this
    /// dialect. Versions that a database has on record and that this list
    /// does not hold are ignored.
    fn get_migrator() -> (m: Migrator)
        ensures
            m@ == store_migrator(Self::type_names()),
    ;

    /// The statement that stores a value under a key, in place of the value
    /// that the key had.
    ///
    /// ```sql
    /// INSERT INTO statestore_kv (kv_key, kv_value) VALUES ($1, $2) ON
    /// CONFLICT (kv_key) DO UPDATE SET kv_value = $2
    /// ```
    ///
    /// # Parameters
    /// * `$1` - the key
    /// * `$2` - the value
    fn kv_upsert_query() -> (q: Statement)
        ensures
            q@ =~~= catalog::kv_upsert(),
    {
        Statement::Insert {
            table: Table::Kv,
            columns: vec![KV_KEY, KV_VALUE],
            stamp: None,
            conflict: Conflict::Update(vec![1]),
        }
    }

    /// The statement that reads the value stored under a key.
    ///
    /// ```sql
    /// SELECT kv_value FROM statestore_kv WHERE kv_key = $1
    /// ```
    ///
    /// # Parameters
    /// * `$1` - the key
    fn kv_load_query() -> (q: Statement)
        ensures
            q@ =~~= catalog::kv_load(),
    {
        Statement::Select {
            table: Table::Kv,
            columns: vec![KV_VALUE],
            filter: Filter { equals: vec![KV_KEY], guards: vec![] },
        }
    }

    /// The statement that reads a cached media payload and marks it as used
    /// just now.
    ///
    /// ```sql
    /// UPDATE statestore_media SET last_access = NOW() WHERE media_url = $1
    /// RETURNING media_data
    /// ```
    ///
    /// # Parameters
    /// * `$1` - the media locator
    fn media_load_query() -> (q: Statement)
        ensures
            q@ =~~= catalog::media_load(q@.clock()),
        default_ensures
            q@.clock() == Clock::Now,
    {
        Statement::Touch {
            table: Table::Media,
            stamp: Stamp { column: MEDIA_LAST_ACCESS, clock: Clock::Now },
            filter: Filter { equals: vec![MEDIA_URL], guards: vec![] },
            returning: vec![MEDIA_DATA],
        }
    }

    /// The statement that caches a media payload, as used just now, unless
    /// its locator is cached already.
    ///
    /// ```sql
    /// INSERT INTO statestore_media (media_url, media_data, last_access)
    /// VALUES ($1, $2, NOW()) ON CONFLICT (media_url) DO NOTHING
    /// ```
    ///
    /// # Parameters
    /// * `$1` - the media locator
    /// * `$2` - the payload
    fn media_insert_query_1() -> (q: Statement)
        ensures
            q@ =~~= catalog::media_insert_1(q@.clock()),
        default_ensures
            q@.clock() == Clock::Now,
    {
        Statement::Insert {
            table: Table::Media,
            columns: vec![MEDIA_URL, MEDIA_DATA],
            stamp: Some(Stamp { column: MEDIA_LAST_ACCESS, clock: Clock::Now }),
            conflict: Conflict::Ignore,
        }
    }

    /// The statement that evicts from the media cache all but the
    /// [`MEDIA_CAPACITY`] most recently used payloads.
    ///
    /// ```sql
    /// DELETE FROM statestore_media WHERE media_url NOT IN (SELECT media_url
    /// FROM statestore_media ORDER BY last_access DESC LIMIT 100)
    /// ```
    fn media_insert_query_2() -> (q: Statement)
        ensures
            q@ =~~= catalog::media_insert_2(),
    {
        Statement::Trim { table: Table::Media, by: MEDIA_LAST_ACCESS, keep: MEDIA_CAPACITY }
    }

    /// The statement that removes a media payload from the cache.
    ///
    /// ```sql
    /// DELETE FROM statestore_media WHERE media_url = $1
    /// ```
    ///
    /// # Parameters
    /// * `$1` - the media locator
    fn media_delete_query() -> (q: Statement)
        ensures
            q@ =~~= catalog::media_delete(),
    {
        Statement::Delete {
            table: Table::Media,
            filter: Filter { equals: vec![MEDIA_URL], guards: vec![] },
        }
    }

    /// The statements that remove a room: one for the room itself, then one
    /// for each table that holds rows of the room. No constraint in the
    /// database ties those rows to the room, so each statement must be run.
    ///
    /// ```sql
    /// DELETE FROM statestore_rooms WHERE room_id = $1
    /// DELETE FROM statestore_accountdata WHERE room_id = $1
    /// DELETE FROM statestore_members WHERE room_id = $1
    /// DELETE FROM statestore_state WHERE room_id = $1
    /// DELETE FROM statestore_receipts WHERE room_id = $1
    /// ```
    ///
    /// # Parameters
    /// * `$1` - the room id
    #[must_use]
    fn room_remove_queries() -> (q: Vec<Statement>)
        ensures
            q@.len() == catalog::room_remove().len(),
            forall|i: int| 0 <= i < q@.len() ==> (#[trigger] q@[i])@ =~~= catalog::room_remove()[i],
    {
        vec![
            remove_by_room(Table::Rooms, ROOM_ID),
            remove_by_room(Table::AccountData, ACCOUNT_ROOM_ID),
            remove_by_room(Table::Members, MEMBER_ROOM_ID),
            remove_by_room(Table::State, STATE_ROOM_ID),
            remove_by_room(Table::Receipts, RECEIPT_ROOM_ID),
        ]
    }

    /// The statement that stores account data of one event type for a room.
    ///
    /// ```sql
    /// INSERT INTO statestore_accountdata (room_id, event_type, account_data)
    /// VALUES ($1, $2, $3) ON CONFLICT (room_id, event_type) DO UPDATE SET
    /// account_data = $3
    /// ```
    ///
    /// # Parameters
    /// * `$1` - the room id, or the sentinel that stands for the whole
    ///   account
    /// * `$2` - the event type
    /// * `$3` - the content
    fn account_data_upsert_query() -> (q: Statement)
        ensures
            q@ =~~= catalog::account_data_upsert(),
    {
        Statement::Insert {
            table: Table::AccountData,
            columns: vec![ACCOUNT_ROOM_ID, ACCOUNT_EVENT_TYPE, ACCOUNT_DATA],
            stamp: None,
            conflict: Conflict::Update(vec![2]),
        }
    }

    /// The statement that reads the account data of one event type for a
    /// room.
    ///
    /// ```sql
    /// SELECT account_data FROM statestore_accountdata WHERE room_id = $1 AND
    /// event_type = $2
    /// ```
    ///
    /// # Parameters
    /// * `$1` - the room id
    /// * `$2` - the event type
    fn account_data_load_query() -> (q: Statement)
        ensures
            q@ =~~= catalog::account_data_load(),
    {
        Statement::Select {
            table: Table::AccountData,
            columns: vec![ACCOUNT_DATA],
            filter: Filter { equals: vec![ACCOUNT_ROOM_ID, ACCOUNT_EVENT_TYPE], guards: vec![] },
        }
    }

    /// The statement that stores the presence of a user.
    ///
    /// ```sql
    /// INSERT INTO statestore_presence (user_id, presence) VALUES ($1, $2) ON
    /// CONFLICT (user_id) DO UPDATE SET presence = $2
    /// ```
    ///
    /// # Parameters
    /// * `$1` - the user id
    /// * `$2` - the presence event
    fn presence_upsert_query() -> (q: Statement)
        ensures
            q@ =~~= catalog::presence_upsert(),
    {
        Statement::Insert {
            table: Table::Presence,
            columns: vec![PRESENCE_USER_ID, PRESENCE_EVENT],
            stamp: None,
            conflict: Conflict::Update(vec![1]),
        }
    }

    /// The statement that reads the presence of a user.
    ///
    /// ```sql
    /// SELECT presence FROM statestore_presence WHERE user_id = $1
    /// ```
    ///
    /// # Parameters
    /// * `$1` - the user id
    fn presence_load_query() -> (q: Statement)
        ensures
            q@ =~~= catalog::presence_load(),
    {
        Statement::Select {
            table: Table::Presence,
            columns: vec![PRESENCE_EVENT],
            filter: Filter { equals: vec![PRESENCE_USER_ID], guards: vec![] },
        }
    }

    /// The statement that stores the membership event of a user in a room,
    /// and leaves the user's profile as it is.
    ///
    /// ```sql
    /// INSERT INTO statestore_members (room_id, user_id, is_partial,
    /// member_event, displayname, joined) VALUES ($1, $2, $3, $4, $5, $6) ON
    /// CONFLICT (room_id, user_id) DO UPDATE SET is_partial = $3,
    /// member_event = $4, displayname = $5, joined = $6
    /// ```
    ///
    /// # Parameters
    /// * `$1` - the room id
    /// * `$2` - the user id
    /// * `$3` - whether the event is partial
    /// * `$4` - the membership event
    /// * `$5` - the user's display name
    /// * `$6` - whether the user has joined
    fn member_upsert_query() -> (q: Statement)
        ensures
            q@ =~~= catalog::member_upsert(),
    {
        Statement::Insert {
            table: Table::Members,
            columns: vec![MEMBER_ROOM_ID, MEMBER_USER_ID, MEMBER_IS_PARTIAL, MEMBER_EVENT, MEMBER_DISPLAYNAME, MEMBER_JOINED],
            stamp: None,
            conflict: Conflict::Update(vec![2, 3, 4, 5]),
        }
    }

    /// The statement that stores the profile of a user in a room, and leaves
    /// the user's membership event as it is.
    ///
    /// ```sql
    /// INSERT INTO statestore_members (room_id, user_id, is_partial,
    /// user_profile) VALUES ($1, $2, $3, $4) ON CONFLICT (room_id, user_id)
    /// DO UPDATE SET user_profile = $4
    /// ```
    ///
    /// # Parameters
    /// * `$1` - the room id
    /// * `$2` - the user id
    /// * `$3` - whether the information is partial, for a row that is new
    /// * `$4` - the profile
    fn member_profile_upsert_query() -> (q: Statement)
        ensures
            q@ =~~= catalog::member_profile_upsert(),
    {
        Statement::Insert {
            table: Table::Members,
            columns: vec![MEMBER_ROOM_ID, MEMBER_USER_ID, MEMBER_IS_PARTIAL, MEMBER_PROFILE],
            stamp: None,
            conflict: Conflict::Update(vec![3]),
        }
    }

    /// The statement that stores a state event, in place of the event with
    /// the same room, type and state key.
    ///
    /// ```sql
    /// INSERT INTO statestore_state (room_id, event_type, state_key,
    /// is_partial, state_event, event_id) VALUES ($1, $2, $3, $4, $5, $6) ON
    /// CONFLICT (room_id, event_type, state_key) DO UPDATE SET is_partial =
    /// $4, state_event = $5, event_id = $6
    /// ```
    ///
    /// # Parameters
    /// * `$1` - the room id
    /// * `$2` - the event type
    /// * `$3` - the state key
    /// * `$4` - whether the state is partial
    /// * `$5` - the event
    /// * `$6` - the event id
    fn state_upsert_query() -> (q: Statement)
        ensures
            q@ =~~= catalog::state_upsert(),
    {
        Statement::Insert {
            table: Table::State,
            columns: vec![STATE_ROOM_ID, STATE_EVENT_TYPE, STATE_KEY, STATE_IS_PARTIAL, STATE_EVENT, STATE_EVENT_ID],
            stamp: None,
            conflict: Conflict::Update(vec![3, 4, 5]),
        }
    }

    /// The statement that removes the state event of a room that has a given
    /// event id.
    ///
    /// ```sql
    /// DELETE FROM statestore_state WHERE room_id = $1 AND event_id = $2
    /// ```
    ///
    /// # Parameters
    /// * `$1` - the room id
    /// * `$2` - the event id
    fn state_redact_query() -> (q: Statement)
        ensures
            q@ =~~= catalog::state_redact(),
    {
        Statement::Delete {
            table: Table::State,
            filter: Filter { equals: vec![STATE_ROOM_ID, STATE_EVENT_ID], guards: vec![] },
        }
    }

    /// The statement that stores the information on a room.
    ///
    /// ```sql
    /// INSERT INTO statestore_rooms (room_id, is_partial, room_info) VALUES
    /// ($1, $2, $3) ON CONFLICT (room_id) DO UPDATE SET is_partial = $2,
    /// room_info = $3
    /// ```
    ///
    /// # Parameters
    /// * `$1` - the room id
    /// * `$2` - whether the room is partially synced
    /// * `$3` - the room information
    fn room_upsert_query() -> (q: Statement)
        ensures
            q@ =~~= catalog::room_upsert(),
    {
        Statement::Insert {
            table: Table::Rooms,
            columns: vec![ROOM_ID, ROOM_IS_PARTIAL, ROOM_INFO],
            stamp: None,
            conflict: Conflict::Update(vec![1, 2]),
        }
    }

    /// The statement that stores the receipt of a user in a room, in place of
    /// the user's receipt of the same type.
    ///
    /// ```sql
    /// INSERT INTO statestore_receipts (room_id, event_id, receipt_type,
    /// user_id, receipt) VALUES ($1, $2, $3, $4, $5) ON CONFLICT (room_id,
    /// receipt_type, user_id) DO UPDATE SET event_id = $2, receipt_type = $3,
    /// receipt = $5
    /// ```
    ///
    /// # Parameters
    /// * `$1` - the room id
    /// * `$2` - the event id
    /// * `$3` - the receipt type
    /// * `$4` - the user id
    /// * `$5` - the receipt
    fn receipt_upsert_query() -> (q: Statement)
        ensures
            q@ =~~= catalog::receipt_upsert(),
    {
        Statement::Insert {
            table: Table::Receipts,
            columns: vec![RECEIPT_ROOM_ID, RECEIPT_EVENT_ID, RECEIPT_TYPE, RECEIPT_USER_ID, RECEIPT_DATA],
            stamp: None,
            conflict: Conflict::Update(vec![1, 2, 4]),
        }
    }

    /// The statement that reads a state event, unless it is partial.
    ///
    /// ```sql
    /// SELECT state_event FROM statestore_state WHERE room_id = $1 AND
    /// event_type = $2 AND state_key = $3 AND is_partial = '0'
    /// ```
    ///
    /// # Parameters
    /// * `$1` - the room id
    /// * `$2` - the event type
    /// * `$3` - the state key
    fn state_load_query() -> (q: Statement)
        ensures
            q@ =~~= catalog::state_load(),
    {
        Statement::Select {
            table: Table::State,
            columns: vec![STATE_EVENT],
            filter: Filter { equals: vec![STATE_ROOM_ID, STATE_EVENT_TYPE, STATE_KEY], guards: vec![Guard::IsFalse(STATE_IS_PARTIAL)] },
        }
    }

    /// The statement that reads the state events of one type in a room that
    /// are partial, or those that are not.
    ///
    /// ```sql
    /// SELECT state_event FROM statestore_state WHERE room_id = $1 AND
    /// event_type = $2 AND is_partial = $3
    /// ```
    ///
    /// # Parameters
    /// * `$1` - the room id
    /// * `$2` - the event type
    /// * `$3` - whether to read the partial events
    fn states_load_query() -> (q: Statement)
        ensures
            q@ =~~= catalog::states_load(),
    {
        Statement::Select {
            table: Table::State,
            columns: vec![STATE_EVENT],
            filter: Filter { equals: vec![STATE_ROOM_ID, STATE_EVENT_TYPE, STATE_IS_PARTIAL], guards: vec![] },
        }
    }

    /// The statement that reads the profile of a user in a room, if one is
    /// stored.
    ///
    /// ```sql
    /// SELECT user_profile FROM statestore_members WHERE room_id = $1 AND
    /// user_id = $2 AND user_profile IS NOT NULL
    /// ```
    ///
    /// # Parameters
    /// * `$1` - the room id
    /// * `$2` - the user id
    fn profile_load_query() -> (q: Statement)
        ensures
            q@ =~~= catalog::profile_load(),
    {
        Statement::Select {
            table: Table::Members,
            columns: vec![MEMBER_PROFILE],
            filter: Filter { equals: vec![MEMBER_ROOM_ID, MEMBER_USER_ID], guards: vec![Guard::NotNull(MEMBER_PROFILE)] },
        }
    }

    /// The statement that removes a user from a room.
    ///
    /// ```sql
    /// DELETE FROM statestore_members WHERE room_id = $1 AND user_id = $2
    /// ```
    ///
    /// # Parameters
    /// * `$1` - the room id
    /// * `$2` - the user id
    fn member_remove_query() -> (q: Statement)
        ensures
            q@ =~~= catalog::member_remove(),
    {
        Statement::Delete {
            table: Table::Members,
            filter: Filter { equals: vec![MEMBER_ROOM_ID, MEMBER_USER_ID], guards: vec![] },
        }
    }

    /// The statement that lists the users of a room.
    ///
    /// ```sql
    /// SELECT user_id FROM statestore_members WHERE room_id = $1
    /// ```
    ///
    /// # Parameters
    /// * `$1` - the room id
    fn members_load_query() -> (q: Statement)
        ensures
            q@ =~~= catalog::members_load(),
    {
        Statement::Select {
            table: Table::Members,
            columns: vec![MEMBER_USER_ID],
            filter: Filter { equals: vec![MEMBER_ROOM_ID], guards: vec![] },
        }
    }

    /// The statement that lists the users of a room that have joined, or
    /// those that have not.
    ///
    /// ```sql
    /// SELECT user_id FROM statestore_members WHERE room_id = $1 AND joined =
    /// $2
    /// ```
    ///
    /// # Parameters
    /// * `$1` - the room id
    /// * `$2` - whether to list the users that have joined
    fn members_load_query_with_join_status() -> (q: Statement)
        ensures
            q@ =~~= catalog::members_load_with_join_status(),
    {
        Statement::Select {
            table: Table::Members,
            columns: vec![MEMBER_USER_ID],
            filter: Filter { equals: vec![MEMBER_ROOM_ID, MEMBER_JOINED], guards: vec![] },
        }
    }

    /// The statement that reads the membership event of a user in a room, if
    /// one is stored, and whether it is partial.
    ///
    /// ```sql
    /// SELECT is_partial, member_event FROM statestore_members WHERE room_id
    /// = $1 AND user_id = $2 AND member_event IS NOT NULL
    /// ```
    ///
    /// # Parameters
    /// * `$1` - the room id
    /// * `$2` - the user id
    fn member_load_query() -> (q: Statement)
        ensures
            q@ =~~= catalog::member_load(),
    {
        Statement::Select {
            table: Table::Members,
            columns: vec![MEMBER_IS_PARTIAL, MEMBER_EVENT],
            filter: Filter { equals: vec![MEMBER_ROOM_ID, MEMBER_USER_ID], guards: vec![Guard::NotNull(MEMBER_EVENT)] },
        }
    }

    /// The statement that reads the information on the rooms that are
    /// partially synced, or on those that are not.
    ///
    /// ```sql
    /// SELECT room_info FROM statestore_rooms WHERE is_partial = $1
    /// ```
    ///
    /// # Parameters
    /// * `$1` - whether to read the partially synced rooms
    fn room_info_load_query() -> (q: Statement)
        ensures
            q@ =~~= catalog::room_info_load(),
    {
        Statement::Select {
            table: Table::Rooms,
            columns: vec![ROOM_INFO],
            filter: Filter { equals: vec![ROOM_IS_PARTIAL], guards: vec![] },
        }
    }

    /// The statement that lists the users of a room that go by a display
    /// name.
    ///
    /// ```sql
    /// SELECT user_id FROM statestore_members WHERE room_id = $1 AND
    /// displayname = $2
    /// ```
    ///
    /// # Parameters
    /// * `$1` - the room id
    /// * `$2` - the display name
    fn users_with_display_name_load_query() -> (q: Statement)
        ensures
            q@ =~~= catalog::users_with_display_name_load(),
    {
        Statement::Select {
            table: Table::Members,
            columns: vec![MEMBER_USER_ID],
            filter: Filter { equals: vec![MEMBER_ROOM_ID, MEMBER_DISPLAYNAME], guards: vec![] },
        }
    }

    /// The statement that reads the receipt of one type of a user in a room,
    /// and the event that it is on.
    ///
    /// ```sql
    /// SELECT event_id, receipt FROM statestore_receipts WHERE room_id = $1
    /// AND receipt_type = $2 AND user_id = $3
    /// ```
    ///
    /// # Parameters
    /// * `$1` - the room id
    /// * `$2` - the receipt type
    /// * `$3` - the user id
    fn receipt_load_query() -> (q: Statement)
        ensures
            q@ =~~= catalog::receipt_load(),
    {
        Statement::Select {
            table: Table::Receipts,
            columns: vec![RECEIPT_EVENT_ID, RECEIPT_DATA],
            filter: Filter { equals: vec![RECEIPT_ROOM_ID, RECEIPT_TYPE, RECEIPT_USER_ID], guards: vec![] },
        }
    }

    /// The statement that lists the receipts of one type on an event, each
    /// with its user.
    ///
    /// ```sql
    /// SELECT user_id, receipt FROM statestore_receipts WHERE room_id = $1
    /// AND receipt_type = $2 AND event_id = $3
    /// ```
    ///
    /// # Parameters
    /// * `$1` - the room id
    /// * `$2` - the receipt type
    /// * `$3` - the event id
    fn event_receipt_load_query() -> (q: Statement)
        ensures
            q@ =~~= catalog::event_receipt_load(),
    {
        Statement::Select {
            table: Table::Receipts,
            columns: vec![RECEIPT_USER_ID, RECEIPT_DATA],
            filter: Filter { equals: vec![RECEIPT_ROOM_ID, RECEIPT_TYPE, RECEIPT_EVENT_ID], guards: vec![] },
        }
    }

    /// The statement that adds a session to those of a sender key.
    ///
    /// ```sql
    /// INSERT INTO cryptostore_session (sender_key, session_data) VALUES ($1,
    /// $2)
    /// ```
    ///
    /// # Parameters
    /// * `$1` - the hashed sender key
    /// * `$2` - the encrypted session
    fn session_store_query() -> (q: Statement)
        ensures
            q@ =~~= catalog::session_store(),
    {
        Statement::Insert {
            table: Table::Sessions,
            columns: vec![SESSION_SENDER_KEY, SESSION_DATA],
            stamp: None,
            conflict: Conflict::Abort,
        }
    }

    /// The statement that records that a message has been seen.
    ///
    /// ```sql
    /// INSERT INTO cryptostore_message_hash (sender_key, message_hash) VALUES
    /// ($1, $2)
    /// ```
    ///
    /// # Parameters
    /// * `$1` - the sender key
    /// * `$2` - the message hash
    fn olm_message_hash_store_query() -> (q: Statement)
        ensures
            q@ =~~= catalog::olm_message_hash_store(),
    {
        Statement::Insert {
            table: Table::MessageHashes,
            columns: vec![HASH_SENDER_KEY, HASH_MESSAGE_HASH],
            stamp: None,
            conflict: Conflict::Abort,
        }
    }

    /// The statement that stores an inbound group session.
    ///
    /// ```sql
    /// INSERT INTO cryptostore_inbound_group_session (room_id, sender_key,
    /// session_id, session_data) VALUES ($1, $2, $3, $4) ON CONFLICT
    /// (room_id, sender_key, session_id) DO UPDATE SET session_data = $4
    /// ```
    ///
    /// # Parameters
    /// * `$1` - the hashed room id
    /// * `$2` - the hashed sender key
    /// * `$3` - the hashed session id
    /// * `$4` - the encrypted session
    fn inbound_group_session_upsert_query() -> (q: Statement)
        ensures
            q@ =~~= catalog::inbound_group_session_upsert(),
    {
        Statement::Insert {
            table: Table::InboundGroupSessions,
            columns: vec![INBOUND_ROOM_ID, INBOUND_SENDER_KEY, INBOUND_SESSION_ID, INBOUND_SESSION_DATA],
            stamp: None,
            conflict: Conflict::Update(vec![3]),
        }
    }

    /// The statement that stores the outbound group session of a room.
    ///
    /// ```sql
    /// INSERT INTO cryptostore_outbound_group_session (room_id, session_data)
    /// VALUES ($1, $2) ON CONFLICT (room_id) DO UPDATE SET session_data = $2
    /// ```
    ///
    /// # Parameters
    /// * `$1` - the hashed room id
    /// * `$2` - the encrypted session
    fn outbound_group_session_store_query() -> (q: Statement)
        ensures
            q@ =~~= catalog::outbound_group_session_store(),
    {
        Statement::Insert {
            table: Table::OutboundGroupSessions,
            columns: vec![OUTBOUND_ROOM_ID, OUTBOUND_SESSION_DATA],
            stamp: None,
            conflict: Conflict::Update(vec![1]),
        }
    }

    /// The statement that stores a key-gossip request.
    ///
    /// ```sql
    /// INSERT INTO cryptostore_gossip_request (recipient_id, request_id,
    /// info_key, sent_out, gossip_data) VALUES ($1, $2, $3, $4, $5) ON
    /// CONFLICT (request_id) DO UPDATE SET recipient_id = $1, info_key = $3,
    /// sent_out = $4, gossip_data = $5
    /// ```
    ///
    /// # Parameters
    /// * `$1` - the hashed recipient id
    /// * `$2` - the hashed request id
    /// * `$3` - the hashed request information
    /// * `$4` - whether the request has been sent
    /// * `$5` - the encrypted request
    fn gossip_request_store_query() -> (q: Statement)
        ensures
            q@ =~~= catalog::gossip_request_store(),
    {
        Statement::Insert {
            table: Table::GossipRequests,
            columns: vec![GOSSIP_RECIPIENT_ID, GOSSIP_REQUEST_ID, GOSSIP_INFO_KEY, GOSSIP_SENT_OUT, GOSSIP_DATA],
            stamp: None,
            conflict: Conflict::Update(vec![0, 2, 3, 4]),
        }
    }

    /// The statement that stores the cryptographic identity of a user.
    ///
    /// ```sql
    /// INSERT INTO cryptostore_identity (user_id, identity_data) VALUES ($1,
    /// $2) ON CONFLICT (user_id) DO UPDATE SET identity_data = $2
    /// ```
    ///
    /// # Parameters
    /// * `$1` - the hashed user id
    /// * `$2` - the encrypted identity
    fn identity_upsert_query() -> (q: Statement)
        ensures
            q@ =~~= catalog::identity_upsert(),
    {
        Statement::Insert {
            table: Table::Identities,
            columns: vec![IDENTITY_USER_ID, IDENTITY_DATA],
            stamp: None,
            conflict: Conflict::Update(vec![1]),
        }
    }

    /// The statement that stores a device of a user.
    ///
    /// ```sql
    /// INSERT INTO cryptostore_device (user_id, device_id, device_info)
    /// VALUES ($1, $2, $3) ON CONFLICT (user_id, device_id) DO UPDATE SET
    /// device_info = $3
    /// ```
    ///
    /// # Parameters
    /// * `$1` - the hashed user id
    /// * `$2` - the hashed device id
    /// * `$3` - the encrypted device information
    fn device_upsert_query() -> (q: Statement)
        ensures
            q@ =~~= catalog::device_upsert(),
    {
        Statement::Insert {
            table: Table::Devices,
            columns: vec![DEVICE_USER_ID, DEVICE_ID, DEVICE_INFO],
            stamp: None,
            conflict: Conflict::Update(vec![2]),
        }
    }

    /// The statement that removes a device of a user.
    ///
    /// ```sql
    /// DELETE FROM cryptostore_device WHERE user_id = $1 AND device_id = $2
    /// ```
    ///
    /// # Parameters
    /// * `$1` - the hashed user id
    /// * `$2` - the hashed device id
    fn device_delete_query() -> (q: Statement)
        ensures
            q@ =~~= catalog::device_delete(),
    {
        Statement::Delete {
            table: Table::Devices,
            filter: Filter { equals: vec![DEVICE_USER_ID, DEVICE_ID], guards: vec![] },
        }
    }

    /// The statement that lists the sessions of a sender key.
    ///
    /// ```sql
    /// SELECT session_data FROM cryptostore_session WHERE sender_key = $1
    /// ```
    ///
    /// # Parameters
    /// * `$1` - the hashed sender key
    fn sessions_for_user_query() -> (q: Statement)
        ensures
            q@ =~~= catalog::sessions_for_user(),
    {
        Statement::Select {
            table: Table::Sessions,
            columns: vec![SESSION_DATA],
            filter: Filter { equals: vec![SESSION_SENDER_KEY], guards: vec![] },
        }
    }

    /// The statement that reads an inbound group session by its key: its
    /// room, its sender key and its session id.
    ///
    /// ```sql
    /// SELECT session_data FROM cryptostore_inbound_group_session WHERE
    /// room_id = $1 AND sender_key = $2 AND session_id = $3
    /// ```
    ///
    /// # Parameters
    /// * `$1` - the hashed room id
    /// * `$2` - the hashed sender key
    /// * `$3` - the hashed session id
    fn inbound_group_session_fetch_query() -> (q: Statement)
        ensures
            q@ =~~= catalog::inbound_group_session_fetch(),
    {
        Statement::Select {
            table: Table::InboundGroupSessions,
            columns: vec![INBOUND_SESSION_DATA],
            filter: Filter {
                equals: vec![INBOUND_ROOM_ID, INBOUND_SENDER_KEY, INBOUND_SESSION_ID],
                guards: vec![],
            },
        }
    }

    /// The statement that lists all inbound group sessions.
    ///
    /// ```sql
    /// SELECT session_data FROM cryptostore_inbound_group_session
    /// ```
    fn inbound_group_sessions_fetch_query() -> (q: Statement)
        ensures
            q@ =~~= catalog::inbound_group_sessions_fetch(),
    {
        Statement::Select {
            table: Table::InboundGroupSessions,
            columns: vec![INBOUND_SESSION_DATA],
            filter: Filter { equals: vec![], guards: vec![] },
        }
    }

    /// The statement that reads the outbound group session of a room.
    ///
    /// ```sql
    /// SELECT session_data FROM cryptostore_outbound_group_session WHERE
    /// room_id = $1
    /// ```
    ///
    /// # Parameters
    /// * `$1` - the hashed room id
    fn outbound_group_session_load_query() -> (q: Statement)
        ensures
            q@ =~~= catalog::outbound_group_session_load(),
    {
        Statement::Select {
            table: Table::OutboundGroupSessions,
            columns: vec![OUTBOUND_SESSION_DATA],
            filter: Filter { equals: vec![OUTBOUND_ROOM_ID], guards: vec![] },
        }
    }

    /// The statement that stores the tracking record of a user.
    ///
    /// ```sql
    /// INSERT INTO cryptostore_tracked_user (user_id, tracked_user_data)
    /// VALUES ($1, $2) ON CONFLICT (user_id) DO UPDATE SET tracked_user_data
    /// = $2
    /// ```
    ///
    /// # Parameters
    /// * `$1` - the hashed user id
    /// * `$2` - the encrypted tracking record
    fn tracked_user_upsert_query() -> (q: Statement)
        ensures
            q@ =~~= catalog::tracked_user_upsert(),
    {
        Statement::Insert {
            table: Table::TrackedUsers,
            columns: vec![TRACKED_USER_ID, TRACKED_USER_DATA],
            stamp: None,
            conflict: Conflict::Update(vec![1]),
        }
    }

    /// The statement that reads a device of a user.
    ///
    /// ```sql
    /// SELECT device_info FROM cryptostore_device WHERE user_id = $1 AND
    /// device_id = $2
    /// ```
    ///
    /// # Parameters
    /// * `$1` - the hashed user id
    /// * `$2` - the hashed device id
    fn device_fetch_query() -> (q: Statement)
        ensures
            q@ =~~= catalog::device_fetch(),
    {
        Statement::Select {
            table: Table::Devices,
            columns: vec![DEVICE_INFO],
            filter: Filter { equals: vec![DEVICE_USER_ID, DEVICE_ID], guards: vec![] },
        }
    }

    /// The statement that lists the devices of a user.
    ///
    /// ```sql
    /// SELECT device_info FROM cryptostore_device WHERE user_id = $1
    /// ```
    ///
    /// # Parameters
    /// * `$1` - the hashed user id
    fn devices_for_user_query() -> (q: Statement)
        ensures
            q@ =~~= catalog::devices_for_user(),
    {
        Statement::Select {
            table: Table::Devices,
            columns: vec![DEVICE_INFO],
            filter: Filter { equals: vec![DEVICE_USER_ID], guards: vec![] },
        }
    }

    /// The statement that lists all tracking records.
    ///
    /// ```sql
    /// SELECT tracked_user_data FROM cryptostore_tracked_user
    /// ```
    fn tracked_users_fetch_query() -> (q: Statement)
        ensures
            q@ =~~= catalog::tracked_users_fetch(),
    {
        Statement::Select {
            table: Table::TrackedUsers,
            columns: vec![TRACKED_USER_DATA],
            filter: Filter { equals: vec![], guards: vec![] },
        }
    }

    /// The statement that reads the cryptographic identity of a user.
    ///
    /// ```sql
    /// SELECT identity_data FROM cryptostore_identity WHERE user_id = $1
    /// ```
    ///
    /// # Parameters
    /// * `$1` - the hashed user id
    fn identity_fetch_query() -> (q: Statement)
        ensures
            q@ =~~= catalog::identity_fetch(),
    {
        Statement::Select {
            table: Table::Identities,
            columns: vec![IDENTITY_DATA],
            filter: Filter { equals: vec![IDENTITY_USER_ID], guards: vec![] },
        }
    }

    /// The statement that reports, by an empty result row, that a message has
    /// been seen.
    ///
    /// ```sql
    /// SELECT 1 FROM cryptostore_message_hash WHERE sender_key = $1 AND
    /// message_hash = $2
    /// ```
    ///
    /// # Parameters
    /// * `$1` - the sender key
    /// * `$2` - the message hash
    fn message_known_query() -> (q: Statement)
        ensures
            q@ =~~= catalog::message_known(),
    {
        Statement::Select {
            table: Table::MessageHashes,
            columns: vec![],
            filter: Filter { equals: vec![HASH_SENDER_KEY, HASH_MESSAGE_HASH], guards: vec![] },
        }
    }

    /// The statement that reads a key-gossip request by its id.
    ///
    /// ```sql
    /// SELECT gossip_data FROM cryptostore_gossip_request WHERE request_id =
    /// $1
    /// ```
    ///
    /// # Parameters
    /// * `$1` - the hashed request id
    fn gossip_request_fetch_query() -> (q: Statement)
        ensures
            q@ =~~= catalog::gossip_request_fetch(),
    {
        Statement::Select {
            table: Table::GossipRequests,
            columns: vec![GOSSIP_DATA],
            filter: Filter { equals: vec![GOSSIP_REQUEST_ID], guards: vec![] },
        }
    }

    /// The statement that lists the key-gossip requests with given request
    /// information.
    ///
    /// ```sql
    /// SELECT gossip_data FROM cryptostore_gossip_request WHERE info_key = $1
    /// ```
    ///
    /// # Parameters
    /// * `$1` - the hashed request information
    fn gossip_request_info_fetch_query() -> (q: Statement)
        ensures
            q@ =~~= catalog::gossip_request_info_fetch(),
    {
        Statement::Select {
            table: Table::GossipRequests,
            columns: vec![GOSSIP_DATA],
            filter: Filter { equals: vec![GOSSIP_INFO_KEY], guards: vec![] },
        }
    }

    /// The statement that lists the key-gossip requests that have been sent,
    /// or those that have not.
    ///
    /// ```sql
    /// SELECT gossip_data FROM cryptostore_gossip_request WHERE sent_out = $1
    /// ```
    ///
    /// # Parameters
    /// * `$1` - whether to list the requests that have been sent
    fn gossip_requests_sent_state_fetch_query() -> (q: Statement)
        ensures
            q@ =~~= catalog::gossip_requests_sent_state_fetch(),
    {
        Statement::Select {
            table: Table::GossipRequests,
            columns: vec![GOSSIP_DATA],
            filter: Filter { equals: vec![GOSSIP_SENT_OUT], guards: vec![] },
        }
    }

    /// The statement that removes a key-gossip request.
    ///
    /// ```sql
    /// DELETE FROM cryptostore_gossip_request WHERE request_id = $1
    /// ```
    ///
    /// # Parameters
    /// * `$1` - the hashed request id
    fn gossip_request_delete_query() -> (q: Statement)
        ensures
            q@ =~~= catalog::gossip_request_delete(),
    {
        Statement::Delete {
            table: Table::GossipRequests,
            filter: Filter { equals: vec![GOSSIP_REQUEST_ID], guards: vec![] },
        }
    }
}

impl SupportedDatabase for sqlx::Postgres {
    open spec fn type_names() -> TypeNames {
        postgres_types()
    }

    fn get_migrator() -> (m: Migrator) {
        build_migrator(postgres_type_names())
    }
}

impl SupportedDatabase for sqlx::Sqlite {
    open spec fn type_names() -> TypeNames {
        sqlite_types()
    }

    fn get_migrator() -> (m: Migrator) {
        build_migrator(sqlite_type_names())
    }

    /// SQLite has no `NOW()`; it takes the current time from `datetime`.
    ///
    /// ```sql
    /// UPDATE statestore_media SET last_access = datetime(CURRENT_TIMESTAMP,
    /// 'localtime') WHERE media_url = $1 RETURNING media_data
    /// ```
    fn media_load_query() -> (q: Statement)
        ensures
            q@.clock() == Clock::LocalDatetime,
    {
        Statement::Touch {
            table: Table::Media,
            stamp: Stamp { column: MEDIA_LAST_ACCESS, clock: Clock::LocalDatetime },
            filter: Filter { equals: vec![MEDIA_URL], guards: vec![] },
            returning: vec![MEDIA_DATA],
        }
    }

    /// SQLite has no `NOW()`; it takes the current time from `datetime`.
    ///
    /// ```sql
    /// INSERT INTO statestore_media (media_url, media_data, last_access)
    /// VALUES ($1, $2, datetime(CURRENT_TIMESTAMP, 'localtime')) ON CONFLICT
    /// (media_url) DO NOTHING
    /// ```
    fn media_insert_query_1() -> (q: Statement)
        ensures
            q@.clock() == Clock::LocalDatetime,
    {
        Statement::Insert {
            table: Table::Media,
            columns: vec![MEDIA_URL, MEDIA_DATA],
            stamp: Some(Stamp { column: MEDIA_LAST_ACCESS, clock: Clock::LocalDatetime }),
            conflict: Conflict::Ignore,
        }
    }
}

} // verus!
