//! The connection state machine: the relationship between two companies is
//! absent, Pending, Accepted or Blocked, and carries a chat.

use vstd::prelude::*;
use vstd::string::*;
use crate::authority::require_role_at_least;
use crate::context::{CallContext, CtxView, applied};
use crate::model::DbView;
use crate::notify::{lemma_fan_out_frame, notify_company_role};
use crate::proofs::wellformed::{
    lemma_accept_connection_keeps_wf, lemma_block_company_keeps_wf, lemma_cancel_request_keeps_wf,
    lemma_decline_connection_keeps_wf, lemma_disconnect_company_keeps_wf,
    lemma_request_connection_keeps_wf, lemma_send_connection_chat_keeps_wf,
    lemma_unblock_company_keeps_wf,
};
use crate::roles::{ConnectionStatus, Error, NotificationType, UserRole};
use crate::rows::Connection;
use crate::text::{
    byte_len, join2, join3, preview_of, trim, trimmed, truncate_preview, validate_length,
};

verus! {

/// The longest message, in bytes.
pub const MAX_MESSAGE: usize = 500;

/// Finds the connection between two companies, whichever is named first.
pub fn find_connection(ctx: &CallContext, a: u64, b: u64) -> (found: Option<Connection>)
    ensures
        match found {
            Some(c) => ctx@.db.connection_between(a, b) == Some(c@),
            None => ctx@.db.connection_between(a, b) is None,
        },
{
    match ctx.db.connection_index_between(a, b) {
        Some(i) => Some(ctx.db.connections[i].duplicate()),
        None => None,
    }
}

/// Deletes all chat messages of a connection.
pub fn delete_connection_chat(ctx: &mut CallContext, connection_id: u64)
    ensures
        final(ctx)@ == old(ctx)@.with_db(old(ctx)@.db.drop_connection_chat(connection_id)),
        old(ctx)@.db.wf() ==> final(ctx)@.db.wf(),
{
    proof {
        if ctx@.db.wf() {
            crate::proofs::records::lemma_drop_connection_chat_keeps_records(ctx@.db, connection_id);
        }
    }
    ctx.db.drop_connection_chat(connection_id);
}

/// Determines which company the requester of a connection belongs to, by
/// their memberships of its two companies and not by their active company,
/// which may have changed since the request.
pub fn requesting_company_id(ctx: &CallContext, conn: &Connection) -> (r: Result<u64, Error>)
    ensures
        r == ctx@.db.requesting_company(conn@),
{
    if ctx.db.membership(conn.requested_by, conn.company_a).is_some() {
        return Ok(conn.company_a);
    }
    if ctx.db.membership(conn.requested_by, conn.company_b).is_some() {
        return Ok(conn.company_b);
    }
    Err(Error::InvalidState)
}

/// An Admin of one company asks another company for a connection.
///
/// Fails as `resolve` does for the role Admin; with `InvalidInput` where
/// the trimmed message is longer than 500 bytes; with `Conflict` where the
/// target is the caller's own company; with `NotFound` where the target
/// does not exist; with `Conflict` where a connection that is not Blocked
/// exists. Where a Blocked connection exists it succeeds and changes
/// nothing. Otherwise a Pending connection is inserted and the target's
/// Admins are notified.
pub open spec fn request_connection_spec(
    c: CtxView,
    target_company_id: u64,
    message: Seq<char>,
) -> Result<DbView, Error> {
    match c.db.resolve(c.sender, UserRole::Admin) {
        Err(e) => Err(e),
        Ok((_, me)) => {
            let mine = me.company_id;
            let message = trimmed(message);
            if byte_len(message) > MAX_MESSAGE {
                Err(Error::InvalidInput)
            } else if mine == target_company_id {
                Err(Error::Conflict)
            } else if c.db.company(target_company_id) is None {
                Err(Error::NotFound)
            } else {
                match c.db.connection_between(mine, target_company_id) {
                    Some(existing) => if existing.status == ConnectionStatus::Blocked {
                        Ok(c.db)
                    } else {
                        Err(Error::Conflict)
                    },
                    None => Ok(
                        c.db.add_connection(
                            mine,
                            target_company_id,
                            ConnectionStatus::Pending,
                            c.sender,
                            None,
                            message,
                            c.timestamp,
                        ).notify_company_role(
                            target_company_id,
                            UserRole::Admin,
                            None,
                            NotificationType::ConnectionRequest,
                            "Connection request"@,
                            c.db.company_name(mine) + " wants to connect"@,
                            c.timestamp,
                        ),
                    ),
                }
            }
        },
    }
}

/// Requests a connection with another company. If the target has blocked
/// the caller's company the call succeeds silently, so that the block is
/// never revealed.
pub fn request_connection(ctx: &mut CallContext, target_company_id: u64, message: String) -> (r: Result<(), Error>)
    requires
        old(ctx)@.db.next_connection_id < u64::MAX,
        old(ctx)@.db.room_for_fan_outs(1),
    ensures
        applied(old(ctx)@, final(ctx)@, r, request_connection_spec(old(ctx)@, target_company_id, message@)),
        old(ctx)@.db.wf() ==> final(ctx)@.db.wf(),
{
    proof {
        if ctx@.db.wf() {
            lemma_request_connection_keeps_wf(ctx@, target_company_id, message@);
        }
    }
    let (_caller, me) = match require_role_at_least(ctx, UserRole::Admin) {
        Ok(found) => found,
        Err(e) => {
            return Err(e);
        },
    };
    let my_company_id = me.company_id;
    let message = trim(message.as_str());
    if validate_length(message.as_str(), MAX_MESSAGE).is_err() {
        return Err(Error::InvalidInput);
    }
    if my_company_id == target_company_id {
        return Err(Error::Conflict);
    }
    if ctx.db.company_index(target_company_id).is_none() {
        return Err(Error::NotFound);
    }
    if let Some(i) = ctx.db.connection_index_between(my_company_id, target_company_id) {
        if ctx.db.connections[i].status == ConnectionStatus::Blocked {
            return Ok(());
        }
        return Err(Error::Conflict);
    }
    let my_company_name = ctx.db.company_name(my_company_id);
    let sender = ctx.sender;
    let now = ctx.timestamp;
    ctx.db.add_connection(my_company_id, target_company_id, ConnectionStatus::Pending, sender, None, message, now);
    proof {
        lemma_fan_out_frame(
            ctx@.db,
            target_company_id,
            UserRole::Admin,
            None,
            NotificationType::ConnectionRequest,
            "Connection request"@,
            my_company_name@ + " wants to connect"@,
            now,
        );
    }
    notify_company_role(
        ctx,
        target_company_id,
        UserRole::Admin,
        None,
        NotificationType::ConnectionRequest,
        String::from_str("Connection request"),
        join2(my_company_name.as_str(), " wants to connect"),
    );
    Ok(())
}

/// An Admin of the requesting company withdraws a Pending request.
///
/// Fails as `resolve` does for the role Admin; with `NotFound` where the two
/// companies have no connection; with `InvalidState` where it is not
/// Pending, or where its requester belongs to neither company; with
/// `NotAMember` where the caller's company is not the requesting one.
/// Otherwise the connection and its chat are deleted.
pub open spec fn cancel_request_spec(c: CtxView, target_company_id: u64) -> Result<DbView, Error> {
    match c.db.resolve(c.sender, UserRole::Admin) {
        Err(e) => Err(e),
        Ok((_, me)) => match c.db.connection_between(me.company_id, target_company_id) {
            None => Err(Error::NotFound),
            Some(conn) => if conn.status != ConnectionStatus::Pending {
                Err(Error::InvalidState)
            } else {
                match c.db.requesting_company(conn) {
                    Err(e) => Err(e),
                    Ok(requesting) => if requesting != me.company_id {
                        Err(Error::NotAMember)
                    } else {
                        Ok(c.db.drop_connection_chat(conn.id).drop_connection(conn.id))
                    },
                }
            },
        },
    }
}

/// Cancels a pending connection request. Only the requesting company can
/// cancel.
pub fn cancel_request(ctx: &mut CallContext, target_company_id: u64) -> (r: Result<(), Error>)
    ensures
        applied(old(ctx)@, final(ctx)@, r, cancel_request_spec(old(ctx)@, target_company_id)),
        old(ctx)@.db.wf() ==> final(ctx)@.db.wf(),
{
    proof {
        if ctx@.db.wf() {
            lemma_cancel_request_keeps_wf(ctx@, target_company_id);
        }
    }
    let (_caller, me) = match require_role_at_least(ctx, UserRole::Admin) {
        Ok(found) => found,
        Err(e) => {
            return Err(e);
        },
    };
    let conn = match find_connection(ctx, me.company_id, target_company_id) {
        Some(conn) => conn,
        None => {
            return Err(Error::NotFound);
        },
    };
    if conn.status != ConnectionStatus::Pending {
        return Err(Error::InvalidState);
    }
    match requesting_company_id(ctx, &conn) {
        Err(e) => {
            return Err(e);
        },
        Ok(requesting) => {
            if requesting != me.company_id {
                return Err(Error::NotAMember);
            }
        },
    }
    delete_connection_chat(ctx, conn.id);
    ctx.db.drop_connection(conn.id);
    Ok(())
}

/// An Admin of the company that was asked accepts a Pending request.
///
/// Fails as `resolve` does for the role Admin; with `NotFound` where the two
/// companies have no connection; with `InvalidState` where it is not
/// Pending, or where its requester belongs to neither company; with
/// `Conflict` where the caller's company is the requesting one. Otherwise
/// the connection becomes Accepted and the requesting company's Admins are
/// notified.
pub open spec fn accept_connection_spec(c: CtxView, target_company_id: u64) -> Result<DbView, Error> {
    match c.db.resolve(c.sender, UserRole::Admin) {
        Err(e) => Err(e),
        Ok((_, me)) => match c.db.connection_between(me.company_id, target_company_id) {
            None => Err(Error::NotFound),
            Some(conn) => if conn.status != ConnectionStatus::Pending {
                Err(Error::InvalidState)
            } else {
                match c.db.requesting_company(conn) {
                    Err(e) => Err(e),
                    Ok(requesting) => if requesting == me.company_id {
                        Err(Error::Conflict)
                    } else {
                        Ok(
                            c.db.set_connection_status(conn.id, ConnectionStatus::Accepted).notify_company_role(
                                requesting,
                                UserRole::Admin,
                                None,
                                NotificationType::ConnectionAccepted,
                                "Connection accepted"@,
                                c.db.company_name(me.company_id) + " accepted your connection request"@,
                                c.timestamp,
                            ),
                        )
                    },
                }
            },
        },
    }
}

/// Accepts a pending connection request. Only the non-requesting company
/// can accept.
pub fn accept_connection(ctx: &mut CallContext, target_company_id: u64) -> (r: Result<(), Error>)
    requires
        old(ctx)@.db.room_for_fan_outs(1),
    ensures
        applied(old(ctx)@, final(ctx)@, r, accept_connection_spec(old(ctx)@, target_company_id)),
        old(ctx)@.db.wf() ==> final(ctx)@.db.wf(),
{
    proof {
        if ctx@.db.wf() {
            lemma_accept_connection_keeps_wf(ctx@, target_company_id);
        }
    }
    let (_caller, me) = match require_role_at_least(ctx, UserRole::Admin) {
        Ok(found) => found,
        Err(e) => {
            return Err(e);
        },
    };
    let conn = match find_connection(ctx, me.company_id, target_company_id) {
        Some(conn) => conn,
        None => {
            return Err(Error::NotFound);
        },
    };
    if conn.status != ConnectionStatus::Pending {
        return Err(Error::InvalidState);
    }
    let requesting = match requesting_company_id(ctx, &conn) {
        Err(e) => {
            return Err(e);
        },
        Ok(requesting) => requesting,
    };
    if requesting == me.company_id {
        return Err(Error::Conflict);
    }
    let my_company_name = ctx.db.company_name(me.company_id);
    ctx.db.set_connection_status(conn.id, ConnectionStatus::Accepted);
    proof {
        lemma_fan_out_frame(
            ctx@.db,
            requesting,
            UserRole::Admin,
            None,
            NotificationType::ConnectionAccepted,
            "Connection accepted"@,
            my_company_name@ + " accepted your connection request"@,
            ctx.timestamp,
        );
    }
    notify_company_role(
        ctx,
        requesting,
        UserRole::Admin,
        None,
        NotificationType::ConnectionAccepted,
        String::from_str("Connection accepted"),
        join2(my_company_name.as_str(), " accepted your connection request"),
    );
    Ok(())
}

/// An Admin of the company that was asked declines a Pending request.
///
/// Fails as `accept_connection_spec` does. Otherwise the requesting
/// company's Admins are notified and the connection and its chat are
/// deleted.
pub open spec fn decline_connection_spec(c: CtxView, target_company_id: u64) -> Result<DbView, Error> {
    match c.db.resolve(c.sender, UserRole::Admin) {
        Err(e) => Err(e),
        Ok((_, me)) => match c.db.connection_between(me.company_id, target_company_id) {
            None => Err(Error::NotFound),
            Some(conn) => if conn.status != ConnectionStatus::Pending {
                Err(Error::InvalidState)
            } else {
                match c.db.requesting_company(conn) {
                    Err(e) => Err(e),
                    Ok(requesting) => if requesting == me.company_id {
                        Err(Error::Conflict)
                    } else {
                        Ok(
                            c.db.notify_company_role(
                                requesting,
                                UserRole::Admin,
                                None,
                                NotificationType::ConnectionDeclined,
                                "Connection declined"@,
                                c.db.company_name(me.company_id) + " declined your connection request"@,
                                c.timestamp,
                            ).drop_connection_chat(conn.id).drop_connection(conn.id),
                        )
                    },
                }
            },
        },
    }
}

/// Declines a pending connection request, which deletes it. Only the
/// non-requesting company can decline.
pub fn decline_connection(ctx: &mut CallContext, target_company_id: u64) -> (r: Result<(), Error>)
    requires
        old(ctx)@.db.room_for_fan_outs(1),
    ensures
        applied(old(ctx)@, final(ctx)@, r, decline_connection_spec(old(ctx)@, target_company_id)),
        old(ctx)@.db.wf() ==> final(ctx)@.db.wf(),
{
    proof {
        if ctx@.db.wf() {
            lemma_decline_connection_keeps_wf(ctx@, target_company_id);
        }
    }
    let (_caller, me) = match require_role_at_least(ctx, UserRole::Admin) {
        Ok(found) => found,
        Err(e) => {
            return Err(e);
        },
    };
    let conn = match find_connection(ctx, me.company_id, target_company_id) {
        Some(conn) => conn,
        None => {
            return Err(Error::NotFound);
        },
    };
    if conn.status != ConnectionStatus::Pending {
        return Err(Error::InvalidState);
    }
    let requesting = match requesting_company_id(ctx, &conn) {
        Err(e) => {
            return Err(e);
        },
        Ok(requesting) => requesting,
    };
    if requesting == me.company_id {
        return Err(Error::Conflict);
    }
    let my_company_name = ctx.db.company_name(me.company_id);
    proof {
        lemma_fan_out_frame(
            ctx@.db,
            requesting,
            UserRole::Admin,
            None,
            NotificationType::ConnectionDeclined,
            "Connection declined"@,
            my_company_name@ + " declined your connection request"@,
            ctx.timestamp,
        );
    }
    notify_company_role(
        ctx,
        requesting,
        UserRole::Admin,
        None,
        NotificationType::ConnectionDeclined,
        String::from_str("Connection declined"),
        join2(my_company_name.as_str(), " declined your connection request"),
    );
    delete_connection_chat(ctx, conn.id);
    ctx.db.drop_connection(conn.id);
    Ok(())
}

/// An Admin blocks another company, from any state of the connection.
///
/// Fails as `resolve` does for the role Admin; with `Conflict` where the
/// target is the caller's own company; with `NotFound` where the target
/// does not exist. Where the connection is already Blocked it succeeds and
/// changes nothing, so the first blocker stays. Where another connection
/// exists it becomes Blocked by the caller's company. Where none exists a
/// Blocked one is inserted.
pub open spec fn block_company_spec(c: CtxView, target_company_id: u64) -> Result<DbView, Error> {
    match c.db.resolve(c.sender, UserRole::Admin) {
        Err(e) => Err(e),
        Ok((_, me)) => {
            let mine = me.company_id;
            if mine == target_company_id {
                Err(Error::Conflict)
            } else if c.db.company(target_company_id) is None {
                Err(Error::NotFound)
            } else {
                match c.db.connection_between(mine, target_company_id) {
                    Some(conn) => if conn.status == ConnectionStatus::Blocked {
                        Ok(c.db)
                    } else {
                        Ok(c.db.set_blocked(conn.id, mine))
                    },
                    None => Ok(
                        c.db.add_connection(
                            mine,
                            target_company_id,
                            ConnectionStatus::Blocked,
                            c.sender,
                            Some(mine),
                            Seq::empty(),
                            c.timestamp,
                        ),
                    ),
                }
            }
        },
    }
}

/// Blocks a company. If it is already blocked the call succeeds without
/// overwriting who blocked first.
pub fn block_company(ctx: &mut CallContext, target_company_id: u64) -> (r: Result<(), Error>)
    requires
        old(ctx)@.db.next_connection_id < u64::MAX,
    ensures
        applied(old(ctx)@, final(ctx)@, r, block_company_spec(old(ctx)@, target_company_id)),
        old(ctx)@.db.wf() ==> final(ctx)@.db.wf(),
{
    proof {
        if ctx@.db.wf() {
            lemma_block_company_keeps_wf(ctx@, target_company_id);
        }
    }
    let (_caller, me) = match require_role_at_least(ctx, UserRole::Admin) {
        Ok(found) => found,
        Err(e) => {
            return Err(e);
        },
    };
    let my_company_id = me.company_id;
    if my_company_id == target_company_id {
        return Err(Error::Conflict);
    }
    if ctx.db.company_index(target_company_id).is_none() {
        return Err(Error::NotFound);
    }
    match ctx.db.connection_index_between(my_company_id, target_company_id) {
        Some(i) => {
            if ctx.db.connections[i].status == ConnectionStatus::Blocked {
                return Ok(());
            }
            let id = ctx.db.connections[i].id;
            ctx.db.set_blocked(id, my_company_id);
        },
        None => {
            let sender = ctx.sender;
            let now = ctx.timestamp;
            ctx.db.add_connection(
                my_company_id,
                target_company_id,
                ConnectionStatus::Blocked,
                sender,
                Some(my_company_id),
                String::new(),
                now,
            );
        },
    }
    Ok(())
}

/// An Admin of the company that blocked lifts the block.
///
/// Fails as `resolve` does for the role Admin; with `NotFound` where the two
/// companies have no connection; with `InvalidState` where it is not
/// Blocked; with `NotAMember` where the block was set by the other company.
/// Otherwise the connection is deleted.
pub open spec fn unblock_company_spec(c: CtxView, target_company_id: u64) -> Result<DbView, Error> {
    match c.db.resolve(c.sender, UserRole::Admin) {
        Err(e) => Err(e),
        Ok((_, me)) => match c.db.connection_between(me.company_id, target_company_id) {
            None => Err(Error::NotFound),
            Some(conn) => if conn.status != ConnectionStatus::Blocked {
                Err(Error::InvalidState)
            } else if conn.blocking_company_id is Some && conn.blocking_company_id != Some(me.company_id) {
                Err(Error::NotAMember)
            } else {
                Ok(c.db.drop_connection(conn.id))
            },
        },
    }
}

/// Unblocks a company. Only the company that performed the block can
/// unblock.
pub fn unblock_company(ctx: &mut CallContext, target_company_id: u64) -> (r: Result<(), Error>)
    ensures
        applied(old(ctx)@, final(ctx)@, r, unblock_company_spec(old(ctx)@, target_company_id)),
        old(ctx)@.db.wf() ==> final(ctx)@.db.wf(),
{
    proof {
        if ctx@.db.wf() {
            lemma_unblock_company_keeps_wf(ctx@, target_company_id);
        }
    }
    let (_caller, me) = match require_role_at_least(ctx, UserRole::Admin) {
        Ok(found) => found,
        Err(e) => {
            return Err(e);
        },
    };
    let conn = match find_connection(ctx, me.company_id, target_company_id) {
        Some(conn) => conn,
        None => {
            return Err(Error::NotFound);
        },
    };
    if conn.status != ConnectionStatus::Blocked {
        return Err(Error::InvalidState);
    }
    if let Some(blocker) = conn.blocking_company_id {
        if blocker != me.company_id {
            return Err(Error::NotAMember);
        }
    }
    ctx.db.drop_connection(conn.id);
    Ok(())
}

/// An Admin of either company ends an Accepted connection.
///
/// Fails as `resolve` does for the role Admin; with `NotFound` where the two
/// companies have no connection; with `InvalidState` where it is not
/// Accepted. Otherwise the connection and its chat are deleted.
pub open spec fn disconnect_company_spec(c: CtxView, target_company_id: u64) -> Result<DbView, Error> {
    match c.db.resolve(c.sender, UserRole::Admin) {
        Err(e) => Err(e),
        Ok((_, me)) => match c.db.connection_between(me.company_id, target_company_id) {
            None => Err(Error::NotFound),
            Some(conn) => if conn.status != ConnectionStatus::Accepted {
                Err(Error::InvalidState)
            } else {
                Ok(c.db.drop_connection_chat(conn.id).drop_connection(conn.id))
            },
        },
    }
}

/// Disconnects from a company: deletes the Accepted connection.
pub fn disconnect_company(ctx: &mut CallContext, target_company_id: u64) -> (r: Result<(), Error>)
    ensures
        applied(old(ctx)@, final(ctx)@, r, disconnect_company_spec(old(ctx)@, target_company_id)),
        old(ctx)@.db.wf() ==> final(ctx)@.db.wf(),
{
    proof {
        if ctx@.db.wf() {
            lemma_disconnect_company_keeps_wf(ctx@, target_company_id);
        }
    }
    let (_caller, me) = match require_role_at_least(ctx, UserRole::Admin) {
        Ok(found) => found,
        Err(e) => {
            return Err(e);
        },
    };
    let conn = match find_connection(ctx, me.company_id, target_company_id) {
        Some(conn) => conn,
        None => {
            return Err(Error::NotFound);
        },
    };
    if conn.status != ConnectionStatus::Accepted {
        return Err(Error::InvalidState);
    }
    delete_connection_chat(ctx, conn.id);
    ctx.db.drop_connection(conn.id);
    Ok(())
}

/// A member of at least Field role writes in the chat of a connection of
/// their company.
///
/// Fails as `resolve` does for the role Field; with `InvalidInput` where the
/// trimmed text is empty or longer than 500 bytes; with `NotFound` where
/// the connection does not exist; with `InvalidState` where it is Blocked;
/// with `NotAMember` where the caller's company is neither of its two.
/// Otherwise the message is inserted and the members of the other company
/// of at least Field role are notified, with a preview of 50 characters.
pub open spec fn send_connection_chat_spec(
    c: CtxView,
    connection_id: u64,
    text: Seq<char>,
) -> Result<DbView, Error> {
    match c.db.resolve(c.sender, UserRole::Field) {
        Err(e) => Err(e),
        Ok((account, me)) => {
            let mine = me.company_id;
            let text = trimmed(text);
            if text.len() == 0 || byte_len(text) > MAX_MESSAGE {
                Err(Error::InvalidInput)
            } else {
                match c.db.connection(connection_id) {
                    None => Err(Error::NotFound),
                    Some(conn) => if conn.status == ConnectionStatus::Blocked {
                        Err(Error::InvalidState)
                    } else if conn.company_a != mine && conn.company_b != mine {
                        Err(Error::NotAMember)
                    } else {
                        Ok(
                            c.db.add_connection_chat(connection_id, c.sender, text, c.timestamp).notify_company_role(
                                if conn.company_a == mine {
                                    conn.company_b
                                } else {
                                    conn.company_a
                                },
                                UserRole::Field,
                                None,
                                NotificationType::ChatMessage,
                                "New message"@,
                                account.nickname + ": "@ + preview_of(text, 50),
                                c.timestamp,
                            ),
                        )
                    },
                }
            }
        },
    }
}

/// Sends a chat message within a connection.
pub fn send_connection_chat(ctx: &mut CallContext, connection_id: u64, text: String) -> (r: Result<(), Error>)
    requires
        old(ctx)@.db.next_connection_chat_id < u64::MAX,
        old(ctx)@.db.room_for_fan_outs(1),
    ensures
        applied(old(ctx)@, final(ctx)@, r, send_connection_chat_spec(old(ctx)@, connection_id, text@)),
        old(ctx)@.db.wf() ==> final(ctx)@.db.wf(),
{
    proof {
        if ctx@.db.wf() {
            lemma_send_connection_chat_keeps_wf(ctx@, connection_id, text@);
        }
    }
    let (account, me) = match require_role_at_least(ctx, UserRole::Field) {
        Ok(found) => found,
        Err(e) => {
            return Err(e);
        },
    };
    let my_company_id = me.company_id;
    let text = trim(text.as_str());
    if text.as_str().is_empty() {
        return Err(Error::InvalidInput);
    }
    if validate_length(text.as_str(), MAX_MESSAGE).is_err() {
        return Err(Error::InvalidInput);
    }
    let i = match ctx.db.connection_index(connection_id) {
        Some(i) => i,
        None => {
            return Err(Error::NotFound);
        },
    };
    if ctx.db.connections[i].status == ConnectionStatus::Blocked {
        return Err(Error::InvalidState);
    }
    let company_a = ctx.db.connections[i].company_a;
    let company_b = ctx.db.connections[i].company_b;
    if company_a != my_company_id && company_b != my_company_id {
        return Err(Error::NotAMember);
    }
    let other_company_id = if company_a == my_company_id {
        company_b
    } else {
        company_a
    };
    let preview = truncate_preview(text.as_str(), 50);
    let body = join3(account.nickname.as_str(), ": ", preview.as_str());
    let sender = ctx.sender;
    let now = ctx.timestamp;
    ctx.db.add_connection_chat(connection_id, sender, text, now);
    proof {
        lemma_fan_out_frame(
            ctx@.db,
            other_company_id,
            UserRole::Field,
            None,
            NotificationType::ChatMessage,
            "New message"@,
            body@,
            now,
        );
    }
    notify_company_role(
        ctx,
        other_company_id,
        UserRole::Field,
        None,
        NotificationType::ChatMessage,
        String::from_str("New message"),
        body,
    );
    Ok(())
}

} // verus!
