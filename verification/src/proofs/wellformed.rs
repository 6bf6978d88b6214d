//! Each procedure keeps the store well formed.

use vstd::prelude::*;
use crate::accounts::{
    client_connected_spec, create_account_spec, create_company_spec, delete_invite_code_spec,
    generate_invite_code_spec, join_with_code_spec, update_profile_spec,
};
use crate::cascade::delete_company_spec;
use crate::connections::{
    accept_connection_spec, block_company_spec, cancel_request_spec, decline_connection_spec,
    disconnect_company_spec, request_connection_spec, send_connection_chat_spec,
    unblock_company_spec,
};
use crate::context::CtxView;
use crate::inbox::{
    clear_notifications_spec, mark_all_notifications_read_spec, mark_notification_read_spec,
};
use crate::projects::{
    accept_project_invite_spec, create_project_spec, decline_project_invite_spec,
    delete_project_spec, invite_to_project_spec, kick_from_project_spec, leave_project_spec,
    send_project_chat_spec,
};
use crate::proofs::{companies, links, people, records, seats};
use crate::roles::{Identity, UserRole};
use crate::team::{
    add_colleague_by_identity_spec, leave_company_spec, remove_colleague_spec,
    switch_active_company_spec, transfer_ownership_spec, update_capabilities_spec,
    update_company_profile_spec, update_user_role_spec,
};

verus! {

pub proof fn lemma_create_account_keeps_wf(
    c: CtxView,
    full_name: Seq<char>,
    nickname: Seq<char>,
    email: Seq<char>,
)
    requires
        c.db.wf(),
    ensures
        create_account_spec(c, full_name, nickname, email) matches Ok(db) ==> db.wf(),
{
    people::lemma_create_account_keeps_people(c, full_name, nickname, email);
}

pub proof fn lemma_update_profile_keeps_wf(c: CtxView, nickname: Seq<char>, email: Seq<char>)
    requires
        c.db.wf(),
    ensures
        update_profile_spec(c, nickname, email) matches Ok(db) ==> db.wf(),
{
    people::lemma_update_profile_keeps_people(c, nickname, email);
}

pub proof fn lemma_create_company_keeps_wf(c: CtxView, name: Seq<char>, slug: Seq<char>, location: Seq<char>)
    requires
        c.db.wf(),
        c.db.next_company_id < u64::MAX,
        c.db.next_member_id < u64::MAX,
    ensures
        create_company_spec(c, name, slug, location) matches Ok(db) ==> db.wf(),
{
    people::lemma_create_company_keeps_people(c, name, slug, location);
    companies::lemma_create_company_keeps_companies(c, name, slug, location);
    links::lemma_create_company_keeps_links(c, name, slug, location);
}

pub proof fn lemma_generate_invite_code_keeps_wf(c: CtxView, max_uses: u32, draws: Seq<u64>)
    requires
        c.db.wf(),
    ensures
        generate_invite_code_spec(c, max_uses, draws) matches Ok(db) ==> db.wf(),
{
    people::lemma_generate_invite_code_keeps_people(c, max_uses, draws);
    companies::lemma_generate_invite_code_keeps_companies(c, max_uses, draws);
    links::lemma_generate_invite_code_keeps_links(c, max_uses, draws);
}

pub proof fn lemma_join_with_code_keeps_wf(c: CtxView, code: Seq<char>)
    requires
        c.db.wf(),
        c.db.next_used_invite_id < u64::MAX,
        c.db.next_member_id < u64::MAX,
        c.db.next_notification_id + c.db.members.len() + 1 <= u64::MAX,
    ensures
        join_with_code_spec(c, code) matches Ok(db) ==> db.wf(),
{
    people::lemma_join_with_code_keeps_people(c, code);
    companies::lemma_join_with_code_keeps_companies(c, code);
    links::lemma_join_with_code_keeps_links(c, code);
    records::lemma_join_with_code_keeps_records(c, code);
}

pub proof fn lemma_delete_invite_code_keeps_wf(c: CtxView, code: Seq<char>)
    requires
        c.db.wf(),
    ensures
        delete_invite_code_spec(c, code) matches Ok(db) ==> db.wf(),
{
    people::lemma_delete_invite_code_keeps_people(c, code);
    companies::lemma_delete_invite_code_keeps_companies(c, code);
    links::lemma_delete_invite_code_keeps_links(c, code);
}

pub proof fn lemma_add_colleague_keeps_wf(c: CtxView, colleague: Identity)
    requires
        c.db.wf(),
        c.db.next_member_id < u64::MAX,
    ensures
        add_colleague_by_identity_spec(c, colleague) matches Ok(db) ==> db.wf(),
{
    people::lemma_add_colleague_keeps_people(c, colleague);
    companies::lemma_add_colleague_keeps_companies(c, colleague);
    links::lemma_add_colleague_keeps_links(c, colleague);
}

pub proof fn lemma_remove_colleague_keeps_wf(c: CtxView, colleague: Identity)
    requires
        c.db.wf(),
        c.db.next_notification_id < u64::MAX,
    ensures
        remove_colleague_spec(c, colleague) matches Ok(db) ==> db.wf(),
{
    people::lemma_remove_colleague_keeps_people(c, colleague);
    companies::lemma_remove_colleague_keeps_companies(c, colleague);
    links::lemma_remove_colleague_keeps_links(c, colleague);
    records::lemma_remove_colleague_keeps_records(c, colleague);
}

pub proof fn lemma_leave_company_keeps_wf(c: CtxView)
    requires
        c.db.wf(),
    ensures
        leave_company_spec(c) matches Ok(db) ==> db.wf(),
{
    people::lemma_leave_company_keeps_people(c);
    companies::lemma_leave_company_keeps_companies(c);
    links::lemma_leave_company_keeps_links(c);
}

pub proof fn lemma_switch_active_company_keeps_wf(c: CtxView, company_id: u64)
    requires
        c.db.wf(),
    ensures
        switch_active_company_spec(c, company_id) matches Ok(db) ==> db.wf(),
{
    people::lemma_switch_active_company_keeps_people(c, company_id);
}

pub proof fn lemma_update_company_profile_keeps_wf(
    c: CtxView,
    name: Seq<char>,
    slug: Seq<char>,
    location: Seq<char>,
    bio: Seq<char>,
    is_public: bool,
    kvk_number: Seq<char>,
)
    requires
        c.db.wf(),
    ensures
        update_company_profile_spec(c, name, slug, location, bio, is_public, kvk_number) matches Ok(db) ==> db.wf(),
{
    people::lemma_update_company_profile_keeps_people(c, name, slug, location, bio, is_public, kvk_number);
    companies::lemma_update_company_profile_keeps_companies(c, name, slug, location, bio, is_public, kvk_number);
    links::lemma_update_company_profile_keeps_links(c, name, slug, location, bio, is_public, kvk_number);
}

pub proof fn lemma_update_capabilities_keeps_wf(
    c: CtxView,
    can_install: bool,
    has_cnc: bool,
    has_large_format: bool,
    has_bucket_truck: bool,
)
    requires
        c.db.wf(),
    ensures
        update_capabilities_spec(c, can_install, has_cnc, has_large_format, has_bucket_truck) matches Ok(db) ==> db.wf(),
{
    people::lemma_update_capabilities_keeps_people(c, can_install, has_cnc, has_large_format, has_bucket_truck);
    companies::lemma_update_capabilities_keeps_companies(c, can_install, has_cnc, has_large_format, has_bucket_truck);
    links::lemma_update_capabilities_keeps_links(c, can_install, has_cnc, has_large_format, has_bucket_truck);
}

pub proof fn lemma_update_user_role_keeps_wf(c: CtxView, target: Identity, new_role: UserRole)
    requires
        c.db.wf(),
        c.db.next_notification_id < u64::MAX,
    ensures
        update_user_role_spec(c, target, new_role) matches Ok(db) ==> db.wf(),
{
    people::lemma_update_user_role_keeps_people(c, target, new_role);
    companies::lemma_update_user_role_keeps_companies(c, target, new_role);
    links::lemma_update_user_role_keeps_links(c, target, new_role);
    records::lemma_update_user_role_keeps_records(c, target, new_role);
}

pub proof fn lemma_transfer_ownership_keeps_wf(c: CtxView, new_owner: Identity)
    requires
        c.db.wf(),
    ensures
        transfer_ownership_spec(c, new_owner) matches Ok(db) ==> db.wf(),
{
    people::lemma_transfer_ownership_keeps_people(c, new_owner);
    companies::lemma_transfer_ownership_keeps_companies(c, new_owner);
    links::lemma_transfer_ownership_keeps_links(c, new_owner);
}

pub proof fn lemma_request_connection_keeps_wf(c: CtxView, target_company_id: u64, message: Seq<char>)
    requires
        c.db.wf(),
        c.db.next_connection_id < u64::MAX,
        c.db.room_for_fan_outs(1),
    ensures
        request_connection_spec(c, target_company_id, message) matches Ok(db) ==> db.wf(),
{
    people::lemma_request_connection_keeps_people(c, target_company_id, message);
    links::lemma_request_connection_keeps_links(c, target_company_id, message);
    records::lemma_request_connection_keeps_records(c, target_company_id, message);
}

pub proof fn lemma_cancel_request_keeps_wf(c: CtxView, target_company_id: u64)
    requires
        c.db.wf(),
    ensures
        cancel_request_spec(c, target_company_id) matches Ok(db) ==> db.wf(),
{
    people::lemma_cancel_request_keeps_people(c, target_company_id);
    links::lemma_cancel_request_keeps_links(c, target_company_id);
    records::lemma_cancel_request_keeps_records(c, target_company_id);
}

pub proof fn lemma_accept_connection_keeps_wf(c: CtxView, target_company_id: u64)
    requires
        c.db.wf(),
        c.db.room_for_fan_outs(1),
    ensures
        accept_connection_spec(c, target_company_id) matches Ok(db) ==> db.wf(),
{
    people::lemma_accept_connection_keeps_people(c, target_company_id);
    links::lemma_accept_connection_keeps_links(c, target_company_id);
    records::lemma_accept_connection_keeps_records(c, target_company_id);
}

pub proof fn lemma_decline_connection_keeps_wf(c: CtxView, target_company_id: u64)
    requires
        c.db.wf(),
        c.db.room_for_fan_outs(1),
    ensures
        decline_connection_spec(c, target_company_id) matches Ok(db) ==> db.wf(),
{
    people::lemma_decline_connection_keeps_people(c, target_company_id);
    links::lemma_decline_connection_keeps_links(c, target_company_id);
    records::lemma_decline_connection_keeps_records(c, target_company_id);
}

pub proof fn lemma_block_company_keeps_wf(c: CtxView, target_company_id: u64)
    requires
        c.db.wf(),
        c.db.next_connection_id < u64::MAX,
    ensures
        block_company_spec(c, target_company_id) matches Ok(db) ==> db.wf(),
{
    people::lemma_block_company_keeps_people(c, target_company_id);
    links::lemma_block_company_keeps_links(c, target_company_id);
}

pub proof fn lemma_unblock_company_keeps_wf(c: CtxView, target_company_id: u64)
    requires
        c.db.wf(),
    ensures
        unblock_company_spec(c, target_company_id) matches Ok(db) ==> db.wf(),
{
    people::lemma_unblock_company_keeps_people(c, target_company_id);
    links::lemma_unblock_company_keeps_links(c, target_company_id);
}

pub proof fn lemma_disconnect_company_keeps_wf(c: CtxView, target_company_id: u64)
    requires
        c.db.wf(),
    ensures
        disconnect_company_spec(c, target_company_id) matches Ok(db) ==> db.wf(),
{
    people::lemma_disconnect_company_keeps_people(c, target_company_id);
    links::lemma_disconnect_company_keeps_links(c, target_company_id);
    records::lemma_disconnect_company_keeps_records(c, target_company_id);
}

pub proof fn lemma_send_connection_chat_keeps_wf(c: CtxView, connection_id: u64, text: Seq<char>)
    requires
        c.db.wf(),
        c.db.next_connection_chat_id < u64::MAX,
        c.db.room_for_fan_outs(1),
    ensures
        send_connection_chat_spec(c, connection_id, text) matches Ok(db) ==> db.wf(),
{
    people::lemma_send_connection_chat_keeps_people(c, connection_id, text);
    records::lemma_send_connection_chat_keeps_records(c, connection_id, text);
}

pub proof fn lemma_create_project_keeps_wf(c: CtxView, name: Seq<char>, description: Seq<char>)
    requires
        c.db.wf(),
        c.db.next_project_id < u64::MAX,
        c.db.next_project_member_id < u64::MAX,
    ensures
        create_project_spec(c, name, description) matches Ok(db) ==> db.wf(),
{
    people::lemma_create_project_keeps_people(c, name, description);
    seats::lemma_create_project_keeps_projects(c, name, description);
    links::lemma_create_project_keeps_links(c, name, description);
}

pub proof fn lemma_invite_to_project_keeps_wf(c: CtxView, project_id: u64, target_company_id: u64)
    requires
        c.db.wf(),
        c.db.next_project_member_id < u64::MAX,
        c.db.room_for_fan_outs(1),
    ensures
        invite_to_project_spec(c, project_id, target_company_id) matches Ok(db) ==> db.wf(),
{
    people::lemma_invite_to_project_keeps_people(c, project_id, target_company_id);
    seats::lemma_invite_to_project_keeps_projects(c, project_id, target_company_id);
    links::lemma_invite_to_project_keeps_links(c, project_id, target_company_id);
    records::lemma_invite_to_project_keeps_records(c, project_id, target_company_id);
}

pub proof fn lemma_accept_project_invite_keeps_wf(c: CtxView, project_id: u64)
    requires
        c.db.wf(),
        c.db.room_for_fan_outs(c.db.project_members.len() as int),
    ensures
        accept_project_invite_spec(c, project_id) matches Ok(db) ==> db.wf(),
{
    people::lemma_accept_project_invite_keeps_people(c, project_id);
    seats::lemma_accept_project_invite_keeps_projects(c, project_id);
    links::lemma_accept_project_invite_keeps_links(c, project_id);
    records::lemma_accept_project_invite_keeps_records(c, project_id);
}

pub proof fn lemma_decline_project_invite_keeps_wf(c: CtxView, project_id: u64)
    requires
        c.db.wf(),
        c.db.room_for_fan_outs(1),
    ensures
        decline_project_invite_spec(c, project_id) matches Ok(db) ==> db.wf(),
{
    people::lemma_decline_project_invite_keeps_people(c, project_id);
    seats::lemma_decline_project_invite_keeps_projects(c, project_id);
    links::lemma_decline_project_invite_keeps_links(c, project_id);
    records::lemma_decline_project_invite_keeps_records(c, project_id);
}

pub proof fn lemma_send_project_chat_keeps_wf(c: CtxView, project_id: u64, text: Seq<char>)
    requires
        c.db.wf(),
        c.db.next_project_chat_id < u64::MAX,
        c.db.room_for_fan_outs(c.db.project_members.len() as int),
    ensures
        send_project_chat_spec(c, project_id, text) matches Ok(db) ==> db.wf(),
{
    people::lemma_send_project_chat_keeps_people(c, project_id, text);
    links::lemma_send_project_chat_keeps_links(c, project_id, text);
    records::lemma_send_project_chat_keeps_records(c, project_id, text);
}

pub proof fn lemma_leave_project_keeps_wf(c: CtxView, project_id: u64)
    requires
        c.db.wf(),
        c.db.room_for_fan_outs(c.db.project_members.len() as int),
    ensures
        leave_project_spec(c, project_id) matches Ok(db) ==> db.wf(),
{
    people::lemma_leave_project_keeps_people(c, project_id);
    seats::lemma_leave_project_keeps_projects(c, project_id);
    links::lemma_leave_project_keeps_links(c, project_id);
    records::lemma_leave_project_keeps_records(c, project_id);
}

pub proof fn lemma_kick_from_project_keeps_wf(c: CtxView, project_id: u64, target_company_id: u64)
    requires
        c.db.wf(),
        c.db.room_for_fan_outs(c.db.project_members.len() as int + 1),
    ensures
        kick_from_project_spec(c, project_id, target_company_id) matches Ok(db) ==> db.wf(),
{
    people::lemma_kick_from_project_keeps_people(c, project_id, target_company_id);
    seats::lemma_kick_from_project_keeps_projects(c, project_id, target_company_id);
    links::lemma_kick_from_project_keeps_links(c, project_id, target_company_id);
    records::lemma_kick_from_project_keeps_records(c, project_id, target_company_id);
}

pub proof fn lemma_delete_project_keeps_wf(c: CtxView, project_id: u64)
    requires
        c.db.wf(),
        c.db.room_for_fan_outs(c.db.project_members.len() as int),
    ensures
        delete_project_spec(c, project_id) matches Ok(db) ==> db.wf(),
{
    people::lemma_delete_project_keeps_people(c, project_id);
    seats::lemma_delete_project_keeps_projects(c, project_id);
    links::lemma_delete_project_keeps_links(c, project_id);
    records::lemma_delete_project_keeps_records(c, project_id);
}

pub proof fn lemma_mark_notification_read_keeps_wf(c: CtxView, notification_id: u64)
    requires
        c.db.wf(),
    ensures
        mark_notification_read_spec(c, notification_id) matches Ok(db) ==> db.wf(),
{
    people::lemma_mark_notification_read_keeps_people(c, notification_id);
    records::lemma_mark_notification_read_keeps_records(c, notification_id);
}

pub proof fn lemma_mark_all_notifications_read_keeps_wf(c: CtxView, company_id: u64)
    requires
        c.db.wf(),
    ensures
        mark_all_notifications_read_spec(c, company_id) matches Ok(db) ==> db.wf(),
{
    people::lemma_mark_all_notifications_read_keeps_people(c, company_id);
    records::lemma_mark_all_notifications_read_keeps_records(c, company_id);
}

pub proof fn lemma_clear_notifications_keeps_wf(c: CtxView, company_id: u64)
    requires
        c.db.wf(),
    ensures
        clear_notifications_spec(c, company_id) matches Ok(db) ==> db.wf(),
{
    people::lemma_clear_notifications_keeps_people(c, company_id);
    records::lemma_clear_notifications_keeps_records(c, company_id);
}

pub proof fn lemma_delete_company_keeps_wf(c: CtxView)
    requires
        c.db.wf(),
    ensures
        delete_company_spec(c) matches Ok(db) ==> db.wf(),
{
    people::lemma_delete_company_keeps_people(c);
    companies::lemma_delete_company_keeps_companies(c);
    if delete_company_spec(c) is Ok {
        seats::lemma_delete_company_cascade_keeps_projects(
            c.db,
            c.db.resolve(c.sender, UserRole::Owner)->Ok_0.1.company_id,
        );
    }
    links::lemma_delete_company_keeps_links(c);
    records::lemma_delete_company_keeps_records(c);
}

/// Presence changes the presence rows only.
pub proof fn lemma_presence_keeps_wf(c: CtxView)
    requires
        c.db.wf(),
    ensures
        client_connected_spec(c).wf(),
        c.db.set_online(c.sender, false).wf(),
{
    records::lemma_presence_keeps_records(c.db, c.sender, true);
    records::lemma_presence_keeps_records(c.db, c.sender, false);
}

} // verus!
