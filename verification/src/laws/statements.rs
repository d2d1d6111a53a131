//! Every statement of the store makes sense for its table.

use vstd::prelude::*;
use crate::catalog;
use crate::statement::Clock;

verus! {

/// Every statement of the state store makes sense for its table, and takes
/// as many parameters as its description lists.
pub proof fn law_state_statements_are_well_formed(clock: Clock)
    ensures
        catalog::kv_upsert().wf() && catalog::kv_upsert().arity() == 2,
        catalog::kv_load().wf() && catalog::kv_load().arity() == 1,
        catalog::media_load(clock).wf() && catalog::media_load(clock).arity() == 1,
        catalog::media_insert_1(clock).wf() && catalog::media_insert_1(clock).arity() == 2,
        catalog::media_insert_2().wf() && catalog::media_insert_2().arity() == 0,
        catalog::media_delete().wf() && catalog::media_delete().arity() == 1,
        catalog::account_data_upsert().wf() && catalog::account_data_upsert().arity() == 3,
        catalog::account_data_load().wf() && catalog::account_data_load().arity() == 2,
        catalog::presence_upsert().wf() && catalog::presence_upsert().arity() == 2,
        catalog::presence_load().wf() && catalog::presence_load().arity() == 1,
        catalog::member_upsert().wf() && catalog::member_upsert().arity() == 6,
        catalog::member_profile_upsert().wf() && catalog::member_profile_upsert().arity() == 4,
        catalog::state_upsert().wf() && catalog::state_upsert().arity() == 6,
        catalog::state_redact().wf() && catalog::state_redact().arity() == 2,
        catalog::room_upsert().wf() && catalog::room_upsert().arity() == 3,
        catalog::receipt_upsert().wf() && catalog::receipt_upsert().arity() == 5,
        catalog::state_load().wf() && catalog::state_load().arity() == 3,
        catalog::states_load().wf() && catalog::states_load().arity() == 3,
        catalog::profile_load().wf() && catalog::profile_load().arity() == 2,
        catalog::member_remove().wf() && catalog::member_remove().arity() == 2,
        catalog::members_load().wf() && catalog::members_load().arity() == 1,
        catalog::members_load_with_join_status().wf() && catalog::members_load_with_join_status().arity() == 2,
        catalog::member_load().wf() && catalog::member_load().arity() == 2,
        catalog::room_info_load().wf() && catalog::room_info_load().arity() == 1,
        catalog::users_with_display_name_load().wf() && catalog::users_with_display_name_load().arity() == 2,
        catalog::receipt_load().wf() && catalog::receipt_load().arity() == 3,
        catalog::event_receipt_load().wf() && catalog::event_receipt_load().arity() == 3,
        forall|i: int|
            0 <= i < catalog::room_remove().len() ==> (#[trigger] catalog::room_remove()[i]).wf()
                && catalog::room_remove()[i].arity() == 1,
{
}

/// Every statement of the key-material store makes sense for its table, and
/// takes as many parameters as its description lists.
pub proof fn law_key_material_statements_are_well_formed()
    ensures
        catalog::session_store().wf() && catalog::session_store().arity() == 2,
        catalog::olm_message_hash_store().wf() && catalog::olm_message_hash_store().arity() == 2,
        catalog::inbound_group_session_upsert().wf() && catalog::inbound_group_session_upsert().arity() == 4,
        catalog::outbound_group_session_store().wf() && catalog::outbound_group_session_store().arity() == 2,
        catalog::gossip_request_store().wf() && catalog::gossip_request_store().arity() == 5,
        catalog::identity_upsert().wf() && catalog::identity_upsert().arity() == 2,
        catalog::device_upsert().wf() && catalog::device_upsert().arity() == 3,
        catalog::device_delete().wf() && catalog::device_delete().arity() == 2,
        catalog::sessions_for_user().wf() && catalog::sessions_for_user().arity() == 1,
        catalog::inbound_group_session_fetch().wf() && catalog::inbound_group_session_fetch().arity() == 3,
        catalog::inbound_group_sessions_fetch().wf() && catalog::inbound_group_sessions_fetch().arity() == 0,
        catalog::outbound_group_session_load().wf() && catalog::outbound_group_session_load().arity() == 1,
        catalog::tracked_user_upsert().wf() && catalog::tracked_user_upsert().arity() == 2,
        catalog::device_fetch().wf() && catalog::device_fetch().arity() == 2,
        catalog::devices_for_user().wf() && catalog::devices_for_user().arity() == 1,
        catalog::tracked_users_fetch().wf() && catalog::tracked_users_fetch().arity() == 0,
        catalog::identity_fetch().wf() && catalog::identity_fetch().arity() == 1,
        catalog::message_known().wf() && catalog::message_known().arity() == 2,
        catalog::gossip_request_fetch().wf() && catalog::gossip_request_fetch().arity() == 1,
        catalog::gossip_request_info_fetch().wf() && catalog::gossip_request_info_fetch().arity() == 1,
        catalog::gossip_requests_sent_state_fetch().wf() && catalog::gossip_requests_sent_state_fetch().arity() == 1,
        catalog::gossip_request_delete().wf() && catalog::gossip_request_delete().arity() == 1,
{
}

} // verus!
