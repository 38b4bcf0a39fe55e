//! The connection registry: the single source of truth for which
//! connections exist and who owns them.
//!
//! The registry keeps two maps, kept consistent by every operation: one
//! from connection identifier to the live connection record and its
//! first-in first-out outbound queue, and one from user identifier to the
//! identifiers of that user's connections. A user's entry exists exactly
//! while the user has at least one connection; the transition to an empty
//! set is the signal for a `UserOffline` presence event.
//!
//! The two maps are plain vectors rather than concurrent maps: their
//! mutual consistency is the registry's central invariant, proved here
//! for every operation, and verified code runs sequentially — internal
//! locking would be invisible to it. The embedding program serializes
//! access (one lock around the registry is enough; finer-grained locking
//! would need a concurrent store whose behaviour these proofs could only
//! assume).

use vstd::prelude::*;
use crate::core_types::{Id, Timestamp};
use crate::error::{Error, ServiceResult};
use crate::message::{
    clone_connection,
    clone_message,
    ConnectionView,
    MessageView,
    WebSocketConnection,
    WebSocketMessage,
};
use crate::textform::str_eq;
use crate::codec::{decode_message, sp_message};
use vstd::string::StringExecFns;

verus! {

/// A registered connection: its record and its outbound queue. Producers
/// append to the queue; the connection's writer drains it in order.
pub struct ActiveConnection {
    pub connection: WebSocketConnection,
    pub queue: Vec<WebSocketMessage>,
}

/// The mathematical shape of a registered connection.
pub struct ActiveConnectionView {
    pub connection: ConnectionView,
    pub queue: Seq<MessageView>,
}

impl View for ActiveConnection {
    type V = ActiveConnectionView;

    open spec fn view(&self) -> ActiveConnectionView {
        ActiveConnectionView { connection: self.connection@, queue: self.queue.deep_view() }
    }
}

impl DeepView for ActiveConnection {
    type V = ActiveConnectionView;

    open spec fn deep_view(&self) -> ActiveConnectionView {
        self.view()
    }
}

/// One user's entry in the user index: the identifiers of the user's
/// connections, never empty.
pub struct UserEntry {
    pub user_id: Id,
    pub connection_ids: Vec<String>,
}

/// The mathematical shape of a user entry.
pub struct UserEntryView {
    pub user_id: Id,
    pub connection_ids: Seq<Seq<char>>,
}

impl View for UserEntry {
    type V = UserEntryView;

    open spec fn view(&self) -> UserEntryView {
        UserEntryView { user_id: self.user_id, connection_ids: self.connection_ids.deep_view() }
    }
}

impl DeepView for UserEntry {
    type V = UserEntryView;

    open spec fn deep_view(&self) -> UserEntryView {
        self.view()
    }
}

/// Whether some connection in `c` carries the identifier `id`.
pub open spec fn has_conn_id(c: Seq<ActiveConnectionView>, id: Seq<char>) -> bool {
    exists|i: int| 0 <= i < c.len() && c[i].connection.connection_id == id
}

/// Whether some entry in `us` belongs to user `u`.
pub open spec fn has_user(us: Seq<UserEntryView>, u: Id) -> bool {
    exists|i: int| 0 <= i < us.len() && us[i].user_id == u
}

/// Whether some connection in `c` carries identifier `id` and belongs to
/// user `u`.
pub open spec fn backs(c: Seq<ActiveConnectionView>, id: Seq<char>, u: Id) -> bool {
    exists|ci: int|
        0 <= ci < c.len() && c[ci].connection.connection_id == id && c[ci].connection.user_id
            == Some(u)
}

/// Whether identifier `id` is listed under user `u` in the user index.
pub open spec fn listed(us: Seq<UserEntryView>, id: Seq<char>, u: Id) -> bool {
    exists|i: int, a: int|
        0 <= i < us.len() && us[i].user_id == u && 0 <= a < us[i].connection_ids.len()
            && #[trigger] us[i].connection_ids[a] == id
}

/// Connection identifiers are pairwise distinct.
pub open spec fn conns_distinct(c: Seq<ActiveConnectionView>) -> bool {
    forall|i: int, j: int|
        0 <= i < j < c.len() ==> c[i].connection.connection_id != c[j].connection.connection_id
}

/// User identifiers are pairwise distinct.
pub open spec fn users_distinct(us: Seq<UserEntryView>) -> bool {
    forall|i: int, j: int| 0 <= i < j < us.len() ==> us[i].user_id != us[j].user_id
}

/// Every user entry is non-empty and lists pairwise distinct identifiers.
pub open spec fn user_entries_clean(us: Seq<UserEntryView>) -> bool {
    forall|i: int|
        0 <= i < us.len() ==> {
            &&& (#[trigger] us[i]).connection_ids.len() > 0
            &&& (forall|a: int, b: int|
                0 <= a < b < us[i].connection_ids.len() ==> us[i].connection_ids[a]
                    != us[i].connection_ids[b])
        }
}

/// Every identifier listed under a user names a registered connection of
/// that user.
pub open spec fn user_entries_backed(
    us: Seq<UserEntryView>,
    c: Seq<ActiveConnectionView>,
) -> bool {
    forall|i: int, a: int|
        0 <= i < us.len() && 0 <= a < us[i].connection_ids.len() ==> backs(
            c,
            #[trigger] us[i].connection_ids[a],
            us[i].user_id,
        )
}

/// Every registered connection of a user is listed under that user.
pub open spec fn conns_listed(us: Seq<UserEntryView>, c: Seq<ActiveConnectionView>) -> bool {
    forall|ci: int|
        0 <= ci < c.len() ==> match (#[trigger] c[ci]).connection.user_id {
            Some(u) => listed(us, c[ci].connection.connection_id, u),
            None => true,
        }
}

/// The joint invariant of the two maps.
pub open spec fn maps_wf(c: Seq<ActiveConnectionView>, us: Seq<UserEntryView>) -> bool {
    &&& conns_distinct(c)
    &&& users_distinct(us)
    &&& user_entries_clean(us)
    &&& user_entries_backed(us, c)
    &&& conns_listed(us, c)
}

/// A backing connection survives appending another connection.
proof fn lemma_backs_push(
    c: Seq<ActiveConnectionView>,
    newc: ActiveConnectionView,
    id: Seq<char>,
    u: Id,
)
    requires
        backs(c, id, u),
    ensures
        backs(c.push(newc), id, u),
{
    let ci = choose|ci: int|
        0 <= ci < c.len() && c[ci].connection.connection_id == id && c[ci].connection.user_id
            == Some(u);
    assert(c.push(newc)[ci] == c[ci]);
}

/// A listing survives appending a fresh identifier to any entry or a fresh
/// entry to the index.
proof fn lemma_listed_extend(
    us: Seq<UserEntryView>,
    nus: Seq<UserEntryView>,
    id: Seq<char>,
    u: Id,
)
    requires
        listed(us, id, u),
        nus.len() >= us.len(),
        forall|i: int|
            0 <= i < us.len() ==> {
                &&& (#[trigger] nus[i]).user_id == us[i].user_id
                &&& nus[i].connection_ids.len() >= us[i].connection_ids.len()
                &&& (forall|a: int|
                    0 <= a < us[i].connection_ids.len() ==> #[trigger] nus[i].connection_ids[a]
                        == us[i].connection_ids[a])
            },
    ensures
        listed(nus, id, u),
{
    let (i, a) = choose|i: int, a: int|
        0 <= i < us.len() && us[i].user_id == u && 0 <= a < us[i].connection_ids.len()
            && #[trigger] us[i].connection_ids[a] == id;
    assert(0 <= i < nus.len() && nus[i].user_id == u && 0 <= a < nus[i].connection_ids.len()
        && nus[i].connection_ids[a] == id);
}

/// Appending a connection with a fresh identifier keeps identifiers
/// distinct and keeps every user entry backed.
proof fn lemma_conns_push_fresh(
    c: Seq<ActiveConnectionView>,
    us: Seq<UserEntryView>,
    newc: ActiveConnectionView,
)
    requires
        maps_wf(c, us),
        !has_conn_id(c, newc.connection.connection_id),
    ensures
        conns_distinct(c.push(newc)),
        user_entries_backed(us, c.push(newc)),
{
    let nc = c.push(newc);
    assert forall|i: int, j: int|
        0 <= i < j < nc.len() implies nc[i].connection.connection_id
        != nc[j].connection.connection_id by {
        if j < c.len() {
            assert(nc[i] == c[i]);
            assert(nc[j] == c[j]);
        } else {
            assert(nc[i] == c[i]);
            assert(has_conn_id(c, c[i].connection.connection_id));
        }
    }
    assert forall|i: int, a: int|
        0 <= i < us.len() && 0 <= a < us[i].connection_ids.len() implies backs(
        nc,
        #[trigger] us[i].connection_ids[a],
        us[i].user_id,
    ) by {
        assert(backs(c, us[i].connection_ids[a], us[i].user_id));
        lemma_backs_push(c, newc, us[i].connection_ids[a], us[i].user_id);
    }
}

/// Registering an anonymous connection preserves the joint invariant.
proof fn lemma_register_anonymous(
    c: Seq<ActiveConnectionView>,
    us: Seq<UserEntryView>,
    newc: ActiveConnectionView,
)
    requires
        maps_wf(c, us),
        !has_conn_id(c, newc.connection.connection_id),
        newc.connection.user_id is None,
    ensures
        maps_wf(c.push(newc), us),
{
    let nc = c.push(newc);
    lemma_conns_push_fresh(c, us, newc);
    assert forall|ci: int|
        0 <= ci < nc.len() implies match (#[trigger] nc[ci]).connection.user_id {
        Some(u) => listed(us, nc[ci].connection.connection_id, u),
        None => true,
    } by {
        if ci < c.len() {
            assert(nc[ci] == c[ci]);
        } else {
            assert(nc[ci].connection.user_id is None);
        }
    }
}

/// Registering a connection of a user already present preserves the joint
/// invariant when the user's entry gains the fresh identifier.
proof fn lemma_register_known_user(
    c: Seq<ActiveConnectionView>,
    us: Seq<UserEntryView>,
    newc: ActiveConnectionView,
    ui: int,
)
    requires
        maps_wf(c, us),
        !has_conn_id(c, newc.connection.connection_id),
        0 <= ui < us.len(),
        newc.connection.user_id == Some(us[ui].user_id),
    ensures
        maps_wf(
            c.push(newc),
            us.update(
                ui,
                UserEntryView {
                    user_id: us[ui].user_id,
                    connection_ids: us[ui].connection_ids.push(newc.connection.connection_id),
                },
            ),
        ),
{
    let nc = c.push(newc);
    let u = us[ui].user_id;
    let cid = newc.connection.connection_id;
    let newe = UserEntryView { user_id: u, connection_ids: us[ui].connection_ids.push(cid) };
    let nus = us.update(ui, newe);
    lemma_conns_push_fresh(c, us, newc);
    // The fresh identifier is not yet listed under the user: every listed
    // identifier names a connection that already exists.
    assert forall|a: int| 0 <= a < us[ui].connection_ids.len() implies #[trigger] us[
        ui
    ].connection_ids[a] != cid by {
        assert(backs(c, us[ui].connection_ids[a], u));
        let ci = choose|ci: int|
            0 <= ci < c.len() && c[ci].connection.connection_id == us[ui].connection_ids[a]
                && c[ci].connection.user_id == Some(u);
        assert(has_conn_id(c, c[ci].connection.connection_id));
    }
    assert(users_distinct(nus)) by {
        assert forall|i: int, j: int| 0 <= i < j < nus.len() implies nus[i].user_id
            != nus[j].user_id by {
            assert(nus[i].user_id == us[i].user_id);
            assert(nus[j].user_id == us[j].user_id);
        }
    }
    assert(user_entries_clean(nus)) by {
        assert forall|i: int| 0 <= i < nus.len() implies {
            &&& (#[trigger] nus[i]).connection_ids.len() > 0
            &&& (forall|a: int, b: int|
                0 <= a < b < nus[i].connection_ids.len() ==> nus[i].connection_ids[a]
                    != nus[i].connection_ids[b])
        } by {
            if i == ui {
                assert(nus[i] == newe);
                assert forall|a: int, b: int|
                    0 <= a < b < newe.connection_ids.len() implies newe.connection_ids[a]
                    != newe.connection_ids[b] by {
                    assert(newe.connection_ids[a] == us[ui].connection_ids[a]);
                    if b < us[ui].connection_ids.len() {
                        assert(newe.connection_ids[b] == us[ui].connection_ids[b]);
                    } else {
                        assert(newe.connection_ids[b] == cid);
                    }
                }
            } else {
                assert(nus[i] == us[i]);
            }
        }
    }
    assert(user_entries_backed(nus, nc)) by {
        assert forall|i: int, a: int|
            0 <= i < nus.len() && 0 <= a < nus[i].connection_ids.len() implies backs(
            nc,
            #[trigger] nus[i].connection_ids[a],
            nus[i].user_id,
        ) by {
            if i == ui && a == us[ui].connection_ids.len() {
                assert(nus[i].connection_ids[a] == cid);
                assert(nc[c.len() as int].connection.connection_id == cid
                    && nc[c.len() as int].connection.user_id == Some(u));
            } else {
                assert(nus[i].connection_ids[a] == us[i].connection_ids[a]);
                assert(nus[i].user_id == us[i].user_id);
                assert(backs(c, us[i].connection_ids[a], us[i].user_id));
                lemma_backs_push(c, newc, us[i].connection_ids[a], us[i].user_id);
            }
        }
    }
    assert(conns_listed(nus, nc)) by {
        assert forall|ci: int|
            0 <= ci < nc.len() implies match (#[trigger] nc[ci]).connection.user_id {
            Some(w) => listed(nus, nc[ci].connection.connection_id, w),
            None => true,
        } by {
            if ci < c.len() {
                assert(nc[ci] == c[ci]);
                match c[ci].connection.user_id {
                    Some(w) => {
                        assert(listed(us, c[ci].connection.connection_id, w));
                        lemma_listed_extend(us, nus, c[ci].connection.connection_id, w);
                    },
                    None => {},
                }
            } else {
                assert(nc[ci].connection.user_id == Some(u));
                assert(nus[ui].user_id == u
                    && nus[ui].connection_ids[us[ui].connection_ids.len() as int] == cid);
                assert(listed(nus, cid, u));
            }
        }
    }
}

/// Registering the first connection of a new user preserves the joint
/// invariant when a fresh entry is appended for the user.
proof fn lemma_register_new_user(
    c: Seq<ActiveConnectionView>,
    us: Seq<UserEntryView>,
    newc: ActiveConnectionView,
    u: Id,
)
    requires
        maps_wf(c, us),
        !has_conn_id(c, newc.connection.connection_id),
        newc.connection.user_id == Some(u),
        !has_user(us, u),
    ensures
        maps_wf(
            c.push(newc),
            us.push(
                UserEntryView {
                    user_id: u,
                    connection_ids: seq![newc.connection.connection_id],
                },
            ),
        ),
{
    let nc = c.push(newc);
    let cid = newc.connection.connection_id;
    let newe = UserEntryView { user_id: u, connection_ids: seq![cid] };
    let nus = us.push(newe);
    lemma_conns_push_fresh(c, us, newc);
    assert(users_distinct(nus)) by {
        assert forall|i: int, j: int| 0 <= i < j < nus.len() implies nus[i].user_id
            != nus[j].user_id by {
            if j < us.len() {
                assert(nus[i] == us[i]);
                assert(nus[j] == us[j]);
            } else {
                assert(nus[i] == us[i]);
                assert(has_user(us, us[i].user_id));
            }
        }
    }
    assert(user_entries_clean(nus)) by {
        assert forall|i: int| 0 <= i < nus.len() implies {
            &&& (#[trigger] nus[i]).connection_ids.len() > 0
            &&& (forall|a: int, b: int|
                0 <= a < b < nus[i].connection_ids.len() ==> nus[i].connection_ids[a]
                    != nus[i].connection_ids[b])
        } by {
            if i < us.len() {
                assert(nus[i] == us[i]);
            } else {
                assert(nus[i].connection_ids.len() == 1);
            }
        }
    }
    assert(user_entries_backed(nus, nc)) by {
        assert forall|i: int, a: int|
            0 <= i < nus.len() && 0 <= a < nus[i].connection_ids.len() implies backs(
            nc,
            #[trigger] nus[i].connection_ids[a],
            nus[i].user_id,
        ) by {
            if i == us.len() {
                assert(nus[i].connection_ids[a] == cid);
                assert(nc[c.len() as int].connection.connection_id == cid
                    && nc[c.len() as int].connection.user_id == Some(u));
            } else {
                assert(nus[i] == us[i]);
                assert(backs(c, us[i].connection_ids[a], us[i].user_id));
                lemma_backs_push(c, newc, us[i].connection_ids[a], us[i].user_id);
            }
        }
    }
    assert(conns_listed(nus, nc)) by {
        assert forall|ci: int|
            0 <= ci < nc.len() implies match (#[trigger] nc[ci]).connection.user_id {
            Some(w) => listed(nus, nc[ci].connection.connection_id, w),
            None => true,
        } by {
            if ci < c.len() {
                assert(nc[ci] == c[ci]);
                match c[ci].connection.user_id {
                    Some(w) => {
                        assert(listed(us, c[ci].connection.connection_id, w));
                        lemma_listed_extend(us, nus, c[ci].connection.connection_id, w);
                    },
                    None => {},
                }
            } else {
                assert(nc[ci].connection.user_id == Some(u));
                assert(nus[us.len() as int].user_id == u && nus[us.len() as int].connection_ids[0]
                    == cid);
                assert(listed(nus, cid, u));
            }
        }
    }
}

/// How often `u` occurs in `s`.
pub open spec fn occurrences(s: Seq<Id>, u: Option<Id>) -> nat
    decreases s.len(),
{
    if s.len() == 0 {
        0
    } else {
        occurrences(s.drop_last(), u) + (if u == Some(s.last()) {
            1nat
        } else {
            0nat
        })
    }
}

/// The records of user `u`'s connections, in registration order.
pub open spec fn conns_of_user(c: Seq<ActiveConnectionView>, u: Id) -> Seq<ConnectionView>
    decreases c.len(),
{
    if c.len() == 0 {
        Seq::<ConnectionView>::empty()
    } else {
        let rest = conns_of_user(c.drop_last(), u);
        if c.last().connection.user_id == Some(u) {
            rest.push(c.last().connection)
        } else {
            rest
        }
    }
}

/// A snapshot of registry sizes for an operational endpoint.
pub struct ConnectionStats {
    pub total_connections: usize,
    pub unique_users: usize,
    pub connections_by_user: Vec<(Id, usize)>,
}

/// The entry `e` with the identifier at position `a0` removed.
pub open spec fn entry_without(e: UserEntryView, a0: int) -> UserEntryView {
    UserEntryView { user_id: e.user_id, connection_ids: e.connection_ids.remove(a0) }
}

/// Every queue extended by one message; connections and order unchanged.
pub open spec fn with_broadcast(c: Seq<ActiveConnectionView>, m: MessageView) -> Seq<
    ActiveConnectionView,
> {
    c.map_values(
        |e: ActiveConnectionView| ActiveConnectionView {
            connection: e.connection,
            queue: e.queue.push(m),
        },
    )
}

/// What the reader decided about one inbound frame.
#[derive(Debug, Clone, PartialEq)]
pub enum InboundOutcome {
    /// A liveness probe, answered on the spot.
    Handled,
    /// A well-formed message this subsystem does not act on.
    Accepted,
    /// An in-band authentication attempt: the caller asks the
    /// authentication collaborator about the token, then reports back
    /// through `complete_authentication`.
    AuthRequest { token: String },
}

/// The connection map with the matching connection's activity stamp set.
pub open spec fn touch_map(c: Seq<ActiveConnectionView>, id: Seq<char>, now: int) -> Seq<
    ActiveConnectionView,
> {
    c.map_values(
        |e: ActiveConnectionView|
            if e.connection.connection_id == id {
                ActiveConnectionView {
                    connection: ConnectionView {
                        connection_id: e.connection.connection_id,
                        user_id: e.connection.user_id,
                        connected_at: e.connection.connected_at,
                        last_activity: now,
                        metadata: e.connection.metadata,
                    },
                    queue: e.queue,
                }
            } else {
                e
            },
    )
}

/// The connection map with a `Pong` appended to the matching queue.
pub open spec fn pong_map(c: Seq<ActiveConnectionView>, id: Seq<char>) -> Seq<
    ActiveConnectionView,
> {
    c.map_values(
        |e: ActiveConnectionView|
            if e.connection.connection_id == id {
                ActiveConnectionView { connection: e.connection, queue: e.queue.push(
                    MessageView::Pong,
                ) }
            } else {
                e
            },
    )
}

/// The presence event sent when a user's last connection goes away.
pub open spec fn offline_msg(u: Id) -> MessageView {
    MessageView::UserOffline { user_id: u, username: "User"@ }
}

/// A backing connection, other than the one at `i`, survives removing the
/// one at `i`.
proof fn lemma_backs_remove_other(c: Seq<ActiveConnectionView>, i: int, id: Seq<char>, u: Id)
    requires
        backs(c, id, u),
        0 <= i < c.len(),
        c[i].connection.connection_id != id,
    ensures
        backs(c.remove(i), id, u),
{
    let ci = choose|ci: int|
        0 <= ci < c.len() && c[ci].connection.connection_id == id && c[ci].connection.user_id
            == Some(u);
    if ci < i {
        assert(c.remove(i)[ci] == c[ci]);
    } else {
        assert(c.remove(i)[ci - 1] == c[ci]);
    }
}

/// In a well-formed pair of maps, an identifier listed under some entry
/// other than `(ui, a0)` differs from the identifier listed at `(ui, a0)`.
proof fn lemma_other_listing_differs(
    c: Seq<ActiveConnectionView>,
    us: Seq<UserEntryView>,
    ui: int,
    a0: int,
    k: int,
    a: int,
)
    requires
        maps_wf(c, us),
        0 <= ui < us.len(),
        0 <= a0 < us[ui].connection_ids.len(),
        0 <= k < us.len(),
        0 <= a < us[k].connection_ids.len(),
        (k, a) != (ui, a0),
    ensures
        us[k].connection_ids[a] != us[ui].connection_ids[a0],
{
    if k == ui {
        assert(us[ui].connection_ids[a] != us[ui].connection_ids[a0]) by {
            if a < a0 {
                assert(us[ui].connection_ids[a] != us[ui].connection_ids[a0]);
            } else {
                assert(us[ui].connection_ids[a0] != us[ui].connection_ids[a]);
            }
        }
    } else {
        if us[k].connection_ids[a] == us[ui].connection_ids[a0] {
            assert(backs(c, us[k].connection_ids[a], us[k].user_id));
            assert(backs(c, us[ui].connection_ids[a0], us[ui].user_id));
            let c1 = choose|ci: int|
                0 <= ci < c.len() && c[ci].connection.connection_id == us[k].connection_ids[a]
                    && c[ci].connection.user_id == Some(us[k].user_id);
            let c2 = choose|ci: int|
                0 <= ci < c.len() && c[ci].connection.connection_id == us[ui].connection_ids[a0]
                    && c[ci].connection.user_id == Some(us[ui].user_id);
            if c1 != c2 {
                if c1 < c2 {
                    assert(c[c1].connection.connection_id != c[c2].connection.connection_id);
                } else {
                    assert(c[c2].connection.connection_id != c[c1].connection.connection_id);
                }
            }
            assert(us[k].user_id == us[ui].user_id);
            if k < ui {
                assert(us[k].user_id != us[ui].user_id);
            } else {
                assert(us[ui].user_id != us[k].user_id);
            }
        }
    }
}

/// Removing an anonymous connection preserves the joint invariant.
proof fn lemma_deregister_anonymous(
    c: Seq<ActiveConnectionView>,
    us: Seq<UserEntryView>,
    i: int,
)
    requires
        maps_wf(c, us),
        0 <= i < c.len(),
        c[i].connection.user_id is None,
    ensures
        maps_wf(c.remove(i), us),
{
    let nc = c.remove(i);
    assert forall|x: int, y: int|
        0 <= x < y < nc.len() implies nc[x].connection.connection_id
        != nc[y].connection.connection_id by {
        let ox: int = if x < i { x } else { x + 1 };
        let oy: int = if y < i { y } else { y + 1 };
        assert(nc[x] == c[ox]);
        assert(nc[y] == c[oy]);
    }
    assert forall|k: int, a: int|
        0 <= k < us.len() && 0 <= a < us[k].connection_ids.len() implies backs(
        nc,
        #[trigger] us[k].connection_ids[a],
        us[k].user_id,
    ) by {
        assert(backs(c, us[k].connection_ids[a], us[k].user_id));
        let ci = choose|ci: int|
            0 <= ci < c.len() && c[ci].connection.connection_id == us[k].connection_ids[a]
                && c[ci].connection.user_id == Some(us[k].user_id);
        assert(ci != i);
        lemma_backs_remove_other(c, i, us[k].connection_ids[a], us[k].user_id);
    }
    assert forall|cj: int|
        0 <= cj < nc.len() implies match (#[trigger] nc[cj]).connection.user_id {
        Some(u) => listed(us, nc[cj].connection.connection_id, u),
        None => true,
    } by {
        let oj: int = if cj < i { cj } else { cj + 1 };
        assert(nc[cj] == c[oj]);
        match c[oj].connection.user_id {
            Some(u) => {
                assert(listed(us, c[oj].connection.connection_id, u));
            },
            None => {},
        }
    }
}

/// Removing one of several connections of a user preserves the joint
/// invariant when the identifier leaves the user's entry.
proof fn lemma_deregister_multi(
    c: Seq<ActiveConnectionView>,
    us: Seq<UserEntryView>,
    i: int,
    ui: int,
    a0: int,
)
    requires
        maps_wf(c, us),
        0 <= i < c.len(),
        0 <= ui < us.len(),
        c[i].connection.user_id == Some(us[ui].user_id),
        0 <= a0 < us[ui].connection_ids.len(),
        us[ui].connection_ids[a0] == c[i].connection.connection_id,
        us[ui].connection_ids.len() > 1,
    ensures
        maps_wf(c.remove(i), us.update(ui, entry_without(us[ui], a0))),
{
    let nc = c.remove(i);
    let u = us[ui].user_id;
    let cid = c[i].connection.connection_id;
    let newe = entry_without(us[ui], a0);
    let nus = us.update(ui, newe);
    assert forall|x: int, y: int|
        0 <= x < y < nc.len() implies nc[x].connection.connection_id
        != nc[y].connection.connection_id by {
        let ox: int = if x < i { x } else { x + 1 };
        let oy: int = if y < i { y } else { y + 1 };
        assert(nc[x] == c[ox]);
        assert(nc[y] == c[oy]);
    }
    assert(users_distinct(nus)) by {
        assert forall|x: int, y: int| 0 <= x < y < nus.len() implies nus[x].user_id
            != nus[y].user_id by {
            assert(nus[x].user_id == us[x].user_id);
            assert(nus[y].user_id == us[y].user_id);
        }
    }
    assert(user_entries_clean(nus)) by {
        assert forall|k: int| 0 <= k < nus.len() implies {
            &&& (#[trigger] nus[k]).connection_ids.len() > 0
            &&& (forall|a: int, b: int|
                0 <= a < b < nus[k].connection_ids.len() ==> nus[k].connection_ids[a]
                    != nus[k].connection_ids[b])
        } by {
            if k == ui {
                assert(newe.connection_ids.len() == us[ui].connection_ids.len() - 1);
                assert forall|a: int, b: int|
                    0 <= a < b < newe.connection_ids.len() implies newe.connection_ids[a]
                    != newe.connection_ids[b] by {
                    let oa: int = if a < a0 { a } else { a + 1 };
                    let ob: int = if b < a0 { b } else { b + 1 };
                    assert(newe.connection_ids[a] == us[ui].connection_ids[oa]);
                    assert(newe.connection_ids[b] == us[ui].connection_ids[ob]);
                }
            } else {
                assert(nus[k] == us[k]);
            }
        }
    }
    assert(user_entries_backed(nus, nc)) by {
        assert forall|k: int, a: int|
            0 <= k < nus.len() && 0 <= a < nus[k].connection_ids.len() implies backs(
            nc,
            #[trigger] nus[k].connection_ids[a],
            nus[k].user_id,
        ) by {
            let oa: int = if k == ui && a >= a0 {
                a + 1
            } else {
                a
            };
            assert(nus[k].connection_ids[a] == us[k].connection_ids[oa]);
            assert(nus[k].user_id == us[k].user_id);
            lemma_other_listing_differs(c, us, ui, a0, k, oa);
            assert(backs(c, us[k].connection_ids[oa], us[k].user_id));
            let ci = choose|ci: int|
                0 <= ci < c.len() && c[ci].connection.connection_id == us[k].connection_ids[oa]
                    && c[ci].connection.user_id == Some(us[k].user_id);
            assert(ci != i) by {
                if ci == i {
                    assert(us[k].connection_ids[oa] == cid);
                    assert(us[ui].connection_ids[a0] == cid);
                }
            }
            lemma_backs_remove_other(c, i, us[k].connection_ids[oa], us[k].user_id);
        }
    }
    assert(conns_listed(nus, nc)) by {
        assert forall|cj: int|
            0 <= cj < nc.len() implies match (#[trigger] nc[cj]).connection.user_id {
            Some(w) => listed(nus, nc[cj].connection.connection_id, w),
            None => true,
        } by {
            let oj: int = if cj < i { cj } else { cj + 1 };
            assert(nc[cj] == c[oj]);
            assert(oj != i);
            match c[oj].connection.user_id {
                Some(w) => {
                    assert(listed(us, c[oj].connection.connection_id, w));
                    let (k, a) = choose|k: int, a: int|
                        0 <= k < us.len() && us[k].user_id == w && 0 <= a < us[
                            k
                        ].connection_ids.len() && #[trigger] us[k].connection_ids[a] == c[
                            oj
                        ].connection.connection_id;
                    // The listed identifier differs from the removed one:
                    // distinct connections carry distinct identifiers.
                    assert((k, a) != (ui, a0)) by {
                        if k == ui && a == a0 {
                            assert(c[oj].connection.connection_id == cid);
                            if oj < i {
                                assert(c[oj].connection.connection_id
                                    != c[i].connection.connection_id);
                            } else {
                                assert(c[i].connection.connection_id
                                    != c[oj].connection.connection_id);
                            }
                        }
                    }
                    if k == ui {
                        let na: int = if a < a0 { a } else { a - 1 };
                        assert(newe.connection_ids[na] == us[ui].connection_ids[a]);
                        assert(0 <= ui < nus.len() && nus[ui].user_id == w && 0 <= na < nus[
                            ui
                        ].connection_ids.len() && nus[ui].connection_ids[na] == c[
                            oj
                        ].connection.connection_id);
                    } else {
                        assert(nus[k] == us[k]);
                        assert(0 <= k < nus.len() && nus[k].user_id == w && 0 <= a < nus[
                            k
                        ].connection_ids.len() && nus[k].connection_ids[a] == c[
                            oj
                        ].connection.connection_id);
                    }
                },
                None => {},
            }
        }
    }
}

/// Removing a user's last connection, together with the user's entry,
/// preserves the joint invariant.
proof fn lemma_deregister_last(
    c: Seq<ActiveConnectionView>,
    us: Seq<UserEntryView>,
    i: int,
    ui: int,
)
    requires
        maps_wf(c, us),
        0 <= i < c.len(),
        0 <= ui < us.len(),
        c[i].connection.user_id == Some(us[ui].user_id),
        us[ui].connection_ids.len() == 1,
        us[ui].connection_ids[0] == c[i].connection.connection_id,
    ensures
        maps_wf(c.remove(i), us.remove(ui)),
{
    let nc = c.remove(i);
    let u = us[ui].user_id;
    let cid = c[i].connection.connection_id;
    let nus = us.remove(ui);
    assert forall|x: int, y: int|
        0 <= x < y < nc.len() implies nc[x].connection.connection_id
        != nc[y].connection.connection_id by {
        let ox: int = if x < i { x } else { x + 1 };
        let oy: int = if y < i { y } else { y + 1 };
        assert(nc[x] == c[ox]);
        assert(nc[y] == c[oy]);
    }
    assert(users_distinct(nus)) by {
        assert forall|x: int, y: int| 0 <= x < y < nus.len() implies nus[x].user_id
            != nus[y].user_id by {
            let ox: int = if x < ui { x } else { x + 1 };
            let oy: int = if y < ui { y } else { y + 1 };
            assert(nus[x] == us[ox]);
            assert(nus[y] == us[oy]);
        }
    }
    assert(user_entries_clean(nus)) by {
        assert forall|k: int| 0 <= k < nus.len() implies {
            &&& (#[trigger] nus[k]).connection_ids.len() > 0
            &&& (forall|a: int, b: int|
                0 <= a < b < nus[k].connection_ids.len() ==> nus[k].connection_ids[a]
                    != nus[k].connection_ids[b])
        } by {
            let ok: int = if k < ui { k } else { k + 1 };
            assert(nus[k] == us[ok]);
        }
    }
    assert(user_entries_backed(nus, nc)) by {
        assert forall|k: int, a: int|
            0 <= k < nus.len() && 0 <= a < nus[k].connection_ids.len() implies backs(
            nc,
            #[trigger] nus[k].connection_ids[a],
            nus[k].user_id,
        ) by {
            let ok: int = if k < ui { k } else { k + 1 };
            assert(nus[k] == us[ok]);
            lemma_other_listing_differs(c, us, ui, 0, ok, a);
            assert(backs(c, us[ok].connection_ids[a], us[ok].user_id));
            let ci = choose|ci: int|
                0 <= ci < c.len() && c[ci].connection.connection_id == us[ok].connection_ids[a]
                    && c[ci].connection.user_id == Some(us[ok].user_id);
            assert(ci != i) by {
                if ci == i {
                    assert(us[ok].connection_ids[a] == cid);
                    assert(us[ui].connection_ids[0] == cid);
                }
            }
            lemma_backs_remove_other(c, i, us[ok].connection_ids[a], us[ok].user_id);
        }
    }
    assert(conns_listed(nus, nc)) by {
        assert forall|cj: int|
            0 <= cj < nc.len() implies match (#[trigger] nc[cj]).connection.user_id {
            Some(w) => listed(nus, nc[cj].connection.connection_id, w),
            None => true,
        } by {
            let oj: int = if cj < i { cj } else { cj + 1 };
            assert(nc[cj] == c[oj]);
            assert(oj != i);
            match c[oj].connection.user_id {
                Some(w) => {
                    assert(listed(us, c[oj].connection.connection_id, w));
                    let (k, a) = choose|k: int, a: int|
                        0 <= k < us.len() && us[k].user_id == w && 0 <= a < us[
                            k
                        ].connection_ids.len() && #[trigger] us[k].connection_ids[a] == c[
                            oj
                        ].connection.connection_id;
                    // The witness entry cannot be the removed user's: its one
                    // identifier names the removed connection, not this one.
                    assert(k != ui) by {
                        if k == ui {
                            assert(a == 0);
                            assert(c[oj].connection.connection_id == cid);
                            if oj < i {
                                assert(c[oj].connection.connection_id
                                    != c[i].connection.connection_id);
                            } else {
                                assert(c[i].connection.connection_id
                                    != c[oj].connection.connection_id);
                            }
                        }
                    }
                    let nk: int = if k < ui { k } else { k - 1 };
                    assert(nus[nk] == us[k]);
                    assert(0 <= nk < nus.len() && nus[nk].user_id == w && 0 <= a < nus[
                        nk
                    ].connection_ids.len() && nus[nk].connection_ids[a] == c[
                        oj
                    ].connection.connection_id);
                },
                None => {},
            }
        }
    }
}

/// Seconds elapsed between `last` and `now`; zero when the clock ran
/// backwards.
pub open spec fn elapsed(now: int, last: int) -> int {
    if now >= last {
        now - last
    } else {
        0
    }
}

/// Whether a sweep evicts the connection: silent for more than
/// `timeout` seconds; a zero timeout evicts unconditionally.
pub open spec fn is_stale(e: ActiveConnectionView, now: int, timeout: int) -> bool {
    elapsed(now, e.connection.last_activity) > timeout || timeout == 0
}

/// The connections that survive a sweep at `now`, in order.
pub open spec fn fresh_conns(c: Seq<ActiveConnectionView>, now: int, timeout: int) -> Seq<
    ActiveConnectionView,
>
    decreases c.len(),
{
    if c.len() == 0 {
        Seq::<ActiveConnectionView>::empty()
    } else {
        let rest = fresh_conns(c.drop_last(), now, timeout);
        if is_stale(c.last(), now, timeout) {
            rest
        } else {
            rest.push(c.last())
        }
    }
}

/// Whether some surviving connection carries the identifier `id`.
pub open spec fn id_is_fresh(
    c: Seq<ActiveConnectionView>,
    id: Seq<char>,
    now: int,
    timeout: int,
) -> bool {
    exists|i: int|
        0 <= i < c.len() && (#[trigger] c[i]).connection.connection_id == id && !is_stale(
            c[i],
            now,
            timeout,
        )
}

/// The identifiers in `ids` that still name a surviving connection.
pub open spec fn fresh_ids(
    ids: Seq<Seq<char>>,
    c: Seq<ActiveConnectionView>,
    now: int,
    timeout: int,
) -> Seq<Seq<char>>
    decreases ids.len(),
{
    if ids.len() == 0 {
        Seq::<Seq<char>>::empty()
    } else {
        let rest = fresh_ids(ids.drop_last(), c, now, timeout);
        if id_is_fresh(c, ids.last(), now, timeout) {
            rest.push(ids.last())
        } else {
            rest
        }
    }
}

/// The user entries that survive a sweep: entries keep their surviving
/// identifiers, and an entry with none left disappears.
pub open spec fn fresh_users(
    us: Seq<UserEntryView>,
    c: Seq<ActiveConnectionView>,
    now: int,
    timeout: int,
) -> Seq<UserEntryView>
    decreases us.len(),
{
    if us.len() == 0 {
        Seq::<UserEntryView>::empty()
    } else {
        let rest = fresh_users(us.drop_last(), c, now, timeout);
        let kept = fresh_ids(us.last().connection_ids, c, now, timeout);
        if kept.len() > 0 {
            rest.push(UserEntryView { user_id: us.last().user_id, connection_ids: kept })
        } else {
            rest
        }
    }
}

/// The users that a sweep takes offline, in index order.
pub open spec fn offline_users(
    us: Seq<UserEntryView>,
    c: Seq<ActiveConnectionView>,
    now: int,
    timeout: int,
) -> Seq<Id>
    decreases us.len(),
{
    if us.len() == 0 {
        Seq::<Id>::empty()
    } else {
        let rest = offline_users(us.drop_last(), c, now, timeout);
        if fresh_ids(us.last().connection_ids, c, now, timeout).len() == 0 {
            rest.push(us.last().user_id)
        } else {
            rest
        }
    }
}

/// The presence events a sweep broadcasts, in the order they are sent.
pub open spec fn offline_msgs(
    us: Seq<UserEntryView>,
    c: Seq<ActiveConnectionView>,
    now: int,
    timeout: int,
) -> Seq<MessageView> {
    offline_users(us, c, now, timeout).map_values(|u: Id| offline_msg(u))
}

/// Every queue extended by the messages `ms`, in order.
pub open spec fn with_msgs(c: Seq<ActiveConnectionView>, ms: Seq<MessageView>) -> Seq<
    ActiveConnectionView,
> {
    c.map_values(
        |e: ActiveConnectionView| ActiveConnectionView {
            connection: e.connection,
            queue: e.queue + ms,
        },
    )
}

/// Every element of the surviving sequence is one of the original fresh
/// connections, and every fresh original connection survives.
proof fn lemma_fresh_conns_elems(c: Seq<ActiveConnectionView>, now: int, timeout: int)
    ensures
        fresh_conns(c, now, timeout).len() <= c.len(),
        forall|j: int|
            0 <= j < fresh_conns(c, now, timeout).len() ==> (exists|i: int|
                0 <= i < c.len() && #[trigger] fresh_conns(c, now, timeout)[j] == c[i]
                    && !is_stale(c[i], now, timeout)),
        forall|i: int|
            0 <= i < c.len() && !is_stale(#[trigger] c[i], now, timeout) ==> (exists|j: int|
                0 <= j < fresh_conns(c, now, timeout).len() && fresh_conns(c, now, timeout)[j]
                    == c[i]),
    decreases c.len(),
{
    if c.len() > 0 {
        let dl = c.drop_last();
        lemma_fresh_conns_elems(dl, now, timeout);
        let f = fresh_conns(c, now, timeout);
        let fdl = fresh_conns(dl, now, timeout);
        assert forall|j: int|
            0 <= j < f.len() implies (exists|i: int|
                0 <= i < c.len() && #[trigger] f[j] == c[i] && !is_stale(c[i], now, timeout)) by {
            if j < fdl.len() {
                assert(f[j] == fdl[j]);
                let i = choose|i: int|
                    0 <= i < dl.len() && fdl[j] == dl[i] && !is_stale(dl[i], now, timeout);
                assert(c[i] == dl[i]);
                assert(f[j] == c[i] && !is_stale(c[i], now, timeout));
            } else {
                assert(!is_stale(c.last(), now, timeout));
                assert(0 <= c.len() - 1 < c.len() && f[j] == c[c.len() - 1] && !is_stale(
                    c[c.len() - 1],
                    now,
                    timeout,
                ));
            }
        }
        assert forall|i: int|
            0 <= i < c.len() && !is_stale(#[trigger] c[i], now, timeout) implies (exists|j: int|
                0 <= j < f.len() && f[j] == c[i]) by {
            if i < c.len() - 1 {
                assert(dl[i] == c[i]);
                let j = choose|j: int| 0 <= j < fdl.len() && fdl[j] == dl[i];
                assert(f[j] == fdl[j]);
                assert(0 <= j < f.len() && f[j] == c[i]);
            } else {
                assert(0 <= f.len() - 1 < f.len() && f[f.len() - 1] == c[i]);
            }
        }
    }
}

/// A sweep with timeout zero removes every connection.
pub proof fn lemma_sweep_zero_clears(c: Seq<ActiveConnectionView>, now: int)
    ensures
        fresh_conns(c, now, 0).len() == 0,
    decreases c.len(),
{
    if c.len() > 0 {
        lemma_sweep_zero_clears(c.drop_last(), now);
    }
}

/// A sweep never lengthens an identifier list.
proof fn lemma_fresh_ids_len(
    ids: Seq<Seq<char>>,
    c: Seq<ActiveConnectionView>,
    now: int,
    timeout: int,
)
    ensures
        fresh_ids(ids, c, now, timeout).len() <= ids.len(),
    decreases ids.len(),
{
    if ids.len() > 0 {
        lemma_fresh_ids_len(ids.drop_last(), c, now, timeout);
    }
}

/// Every surviving identifier still names a surviving connection.
proof fn lemma_fresh_ids_fresh(
    ids: Seq<Seq<char>>,
    c: Seq<ActiveConnectionView>,
    now: int,
    timeout: int,
)
    ensures
        forall|j: int|
            0 <= j < fresh_ids(ids, c, now, timeout).len() ==> id_is_fresh(
                c,
                #[trigger] fresh_ids(ids, c, now, timeout)[j],
                now,
                timeout,
            ),
    decreases ids.len(),
{
    if ids.len() > 0 {
        let dl = ids.drop_last();
        lemma_fresh_ids_fresh(dl, c, now, timeout);
        let f = fresh_ids(ids, c, now, timeout);
        let fdl = fresh_ids(dl, c, now, timeout);
        assert forall|j: int|
            0 <= j < f.len() implies id_is_fresh(c, #[trigger] f[j], now, timeout) by {
            if j < fdl.len() {
                assert(f[j] == fdl[j]);
            } else {
                assert(f[j] == ids.last());
            }
        }
    }
}

/// Every surviving identifier is one of the original identifiers.
proof fn lemma_fresh_ids_sound(
    ids: Seq<Seq<char>>,
    c: Seq<ActiveConnectionView>,
    now: int,
    timeout: int,
)
    ensures
        forall|j: int|
            0 <= j < fresh_ids(ids, c, now, timeout).len() ==> (exists|a: int|
                0 <= a < ids.len() && #[trigger] fresh_ids(ids, c, now, timeout)[j] == ids[a]),
    decreases ids.len(),
{
    if ids.len() > 0 {
        let dl = ids.drop_last();
        lemma_fresh_ids_sound(dl, c, now, timeout);
        let f = fresh_ids(ids, c, now, timeout);
        let fdl = fresh_ids(dl, c, now, timeout);
        assert forall|j: int|
            0 <= j < f.len() implies (exists|a: int|
                0 <= a < ids.len() && #[trigger] f[j] == ids[a]) by {
            if j < fdl.len() {
                assert(f[j] == fdl[j]);
                let a = choose|a: int| 0 <= a < dl.len() && fdl[j] == dl[a];
                assert(ids[a] == dl[a]);
                assert(0 <= a < ids.len() && f[j] == ids[a]);
            } else {
                assert(0 <= ids.len() - 1 < ids.len() && f[j] == ids[ids.len() - 1]);
            }
        }
    }
}

/// Every identifier that still names a surviving connection survives the
/// sweep of its list.
proof fn lemma_fresh_ids_complete(
    ids: Seq<Seq<char>>,
    c: Seq<ActiveConnectionView>,
    now: int,
    timeout: int,
)
    ensures
        forall|a: int| #![trigger ids[a]]
            0 <= a < ids.len() && id_is_fresh(c, ids[a], now, timeout) ==> (exists|j: int|
                #![trigger fresh_ids(ids, c, now, timeout)[j]]
                0 <= j < fresh_ids(ids, c, now, timeout).len() && fresh_ids(ids, c, now, timeout)[
                    j
                ] == ids[a]),
    decreases ids.len(),
{
    if ids.len() > 0 {
        let dl = ids.drop_last();
        lemma_fresh_ids_complete(dl, c, now, timeout);
        let f = fresh_ids(ids, c, now, timeout);
        let fdl = fresh_ids(dl, c, now, timeout);
        assert forall|a: int| #![trigger ids[a]]
            0 <= a < ids.len() && id_is_fresh(c, ids[a], now, timeout) implies (exists|j: int|
                #![trigger fresh_ids(ids, c, now, timeout)[j]]
                0 <= j < fresh_ids(ids, c, now, timeout).len() && fresh_ids(ids, c, now, timeout)[
                    j
                ] == ids[a]) by {
            if a < ids.len() - 1 {
                assert(dl[a] == ids[a]);
                let j = choose|j: int| #![trigger fresh_ids(dl, c, now, timeout)[j]]
                    0 <= j < fresh_ids(dl, c, now, timeout).len() && fresh_ids(
                        dl,
                        c,
                        now,
                        timeout,
                    )[j] == dl[a];
                assert(f[j] == fdl[j]);
                assert(0 <= j < f.len() && f[j] == ids[a]);
            } else {
                assert(id_is_fresh(c, ids.last(), now, timeout));
                assert(0 <= f.len() - 1 < f.len() && f[f.len() - 1] == ids[a]);
            }
        }
    }
}

/// Every surviving user entry stems from an original entry, keeping its
/// user and its surviving identifiers; and every original entry with a
/// surviving identifier yields a surviving entry.
proof fn lemma_fresh_users_elems(
    us: Seq<UserEntryView>,
    c: Seq<ActiveConnectionView>,
    now: int,
    timeout: int,
)
    ensures
        fresh_users(us, c, now, timeout).len() <= us.len(),
        forall|j: int|
            0 <= j < fresh_users(us, c, now, timeout).len() ==> (exists|k: int|
                0 <= k < us.len() && #[trigger] fresh_users(us, c, now, timeout)[j]
                    == (UserEntryView {
                    user_id: us[k].user_id,
                    connection_ids: fresh_ids(us[k].connection_ids, c, now, timeout),
                }) && fresh_ids(us[k].connection_ids, c, now, timeout).len() > 0),
        forall|k: int|
            0 <= k < us.len() && fresh_ids(
                (#[trigger] us[k]).connection_ids,
                c,
                now,
                timeout,
            ).len() > 0 ==> (exists|j: int|
                0 <= j < fresh_users(us, c, now, timeout).len() && fresh_users(us, c, now, timeout)[
                    j
                ] == (UserEntryView {
                    user_id: us[k].user_id,
                    connection_ids: fresh_ids(us[k].connection_ids, c, now, timeout),
                })),
    decreases us.len(),
{
    if us.len() > 0 {
        let dl = us.drop_last();
        lemma_fresh_users_elems(dl, c, now, timeout);
        let f = fresh_users(us, c, now, timeout);
        let fdl = fresh_users(dl, c, now, timeout);
        assert forall|j: int|
            0 <= j < f.len() implies (exists|k: int|
                0 <= k < us.len() && #[trigger] f[j] == (UserEntryView {
                    user_id: us[k].user_id,
                    connection_ids: fresh_ids(us[k].connection_ids, c, now, timeout),
                }) && fresh_ids(us[k].connection_ids, c, now, timeout).len() > 0) by {
            if j < fdl.len() {
                assert(f[j] == fdl[j]);
                let k = choose|k: int|
                    0 <= k < dl.len() && fdl[j] == (UserEntryView {
                        user_id: dl[k].user_id,
                        connection_ids: fresh_ids(dl[k].connection_ids, c, now, timeout),
                    }) && fresh_ids(dl[k].connection_ids, c, now, timeout).len() > 0;
                assert(us[k] == dl[k]);
            } else {
                assert(fresh_ids(us.last().connection_ids, c, now, timeout).len() > 0);
                assert(0 <= us.len() - 1 < us.len() && f[j] == (UserEntryView {
                    user_id: us[us.len() - 1].user_id,
                    connection_ids: fresh_ids(us[us.len() - 1].connection_ids, c, now, timeout),
                }) && fresh_ids(us[us.len() - 1].connection_ids, c, now, timeout).len() > 0);
            }
        }
        assert forall|k: int|
            0 <= k < us.len() && fresh_ids(
                (#[trigger] us[k]).connection_ids,
                c,
                now,
                timeout,
            ).len() > 0 implies (exists|j: int|
                0 <= j < f.len() && f[j] == (UserEntryView {
                    user_id: us[k].user_id,
                    connection_ids: fresh_ids(us[k].connection_ids, c, now, timeout),
                })) by {
            if k < us.len() - 1 {
                assert(dl[k] == us[k]);
                let j = choose|j: int|
                    0 <= j < fdl.len() && fdl[j] == (UserEntryView {
                        user_id: dl[k].user_id,
                        connection_ids: fresh_ids(dl[k].connection_ids, c, now, timeout),
                    });
                assert(f[j] == fdl[j]);
            } else {
                assert(0 <= f.len() - 1 < f.len() && f[f.len() - 1] == (UserEntryView {
                    user_id: us[k].user_id,
                    connection_ids: fresh_ids(us[k].connection_ids, c, now, timeout),
                }));
            }
        }
    }
}

/// A sweep keeps connection identifiers pairwise distinct.
proof fn lemma_fresh_conns_distinct(c: Seq<ActiveConnectionView>, now: int, timeout: int)
    requires
        conns_distinct(c),
    ensures
        conns_distinct(fresh_conns(c, now, timeout)),
    decreases c.len(),
{
    if c.len() > 0 {
        let dl = c.drop_last();
        assert(conns_distinct(dl)) by {
            assert forall|i: int, j: int|
                0 <= i < j < dl.len() implies dl[i].connection.connection_id
                != dl[j].connection.connection_id by {
                assert(dl[i] == c[i]);
                assert(dl[j] == c[j]);
            }
        }
        lemma_fresh_conns_distinct(dl, now, timeout);
        lemma_fresh_conns_elems(dl, now, timeout);
        let f = fresh_conns(c, now, timeout);
        let fdl = fresh_conns(dl, now, timeout);
        assert forall|x: int, y: int|
            0 <= x < y < f.len() implies f[x].connection.connection_id
            != f[y].connection.connection_id by {
            if y < fdl.len() {
                assert(f[x] == fdl[x]);
                assert(f[y] == fdl[y]);
            } else {
                assert(f[x] == fdl[x]);
                assert(f[y] == c.last());
                let i = choose|i: int|
                    0 <= i < dl.len() && #[trigger] fdl[x] == dl[i] && !is_stale(
                        dl[i],
                        now,
                        timeout,
                    );
                assert(c[i] == dl[i]);
                assert(c[i].connection.connection_id != c[c.len() - 1].connection.connection_id);
            }
        }
    }
}

/// A sweep keeps user identifiers pairwise distinct.
proof fn lemma_fresh_users_distinct(
    us: Seq<UserEntryView>,
    c: Seq<ActiveConnectionView>,
    now: int,
    timeout: int,
)
    requires
        users_distinct(us),
    ensures
        users_distinct(fresh_users(us, c, now, timeout)),
    decreases us.len(),
{
    if us.len() > 0 {
        let dl = us.drop_last();
        assert(users_distinct(dl)) by {
            assert forall|i: int, j: int| 0 <= i < j < dl.len() implies dl[i].user_id
                != dl[j].user_id by {
                assert(dl[i] == us[i]);
                assert(dl[j] == us[j]);
            }
        }
        lemma_fresh_users_distinct(dl, c, now, timeout);
        lemma_fresh_users_elems(dl, c, now, timeout);
        let f = fresh_users(us, c, now, timeout);
        let fdl = fresh_users(dl, c, now, timeout);
        assert forall|x: int, y: int| 0 <= x < y < f.len() implies f[x].user_id
            != f[y].user_id by {
            if y < fdl.len() {
                assert(f[x] == fdl[x]);
                assert(f[y] == fdl[y]);
            } else {
                assert(f[x] == fdl[x]);
                let k = choose|k: int|
                    0 <= k < dl.len() && #[trigger] fdl[x] == (UserEntryView {
                        user_id: dl[k].user_id,
                        connection_ids: fresh_ids(dl[k].connection_ids, c, now, timeout),
                    }) && fresh_ids(dl[k].connection_ids, c, now, timeout).len() > 0;
                assert(us[k] == dl[k]);
                assert(us[k].user_id != us[us.len() - 1].user_id);
            }
        }
    }
}

/// A sweep keeps the identifiers within one entry pairwise distinct.
proof fn lemma_fresh_ids_distinct(
    ids: Seq<Seq<char>>,
    c: Seq<ActiveConnectionView>,
    now: int,
    timeout: int,
)
    requires
        forall|a: int, b: int| 0 <= a < b < ids.len() ==> ids[a] != ids[b],
    ensures
        forall|a: int, b: int|
            0 <= a < b < fresh_ids(ids, c, now, timeout).len() ==> fresh_ids(
                ids,
                c,
                now,
                timeout,
            )[a] != fresh_ids(ids, c, now, timeout)[b],
    decreases ids.len(),
{
    if ids.len() > 0 {
        let dl = ids.drop_last();
        assert(forall|a: int, b: int| 0 <= a < b < dl.len() ==> dl[a] != dl[b]) by {
            assert forall|a: int, b: int| 0 <= a < b < dl.len() implies dl[a] != dl[b] by {
                assert(dl[a] == ids[a]);
                assert(dl[b] == ids[b]);
            }
        }
        lemma_fresh_ids_distinct(dl, c, now, timeout);
        lemma_fresh_ids_sound(dl, c, now, timeout);
        let f = fresh_ids(ids, c, now, timeout);
        let fdl = fresh_ids(dl, c, now, timeout);
        assert forall|a: int, b: int| 0 <= a < b < f.len() implies f[a] != f[b] by {
            if b < fdl.len() {
                assert(f[a] == fdl[a]);
                assert(f[b] == fdl[b]);
            } else {
                assert(f[a] == fdl[a]);
                assert(f[b] == ids.last());
                let a0 = choose|a0: int| 0 <= a0 < dl.len() && #[trigger] fdl[a] == dl[a0];
                assert(ids[a0] == dl[a0]);
                assert(ids[a0] != ids[ids.len() - 1]);
            }
        }
    }
}

/// A sweep leaves the registry's two maps listing exactly each other's
/// surviving contents.
#[verifier::rlimit(100)]
#[verifier::spinoff_prover]
proof fn lemma_sweep_wf(
    c: Seq<ActiveConnectionView>,
    us: Seq<UserEntryView>,
    now: int,
    timeout: int,
)
    requires
        maps_wf(c, us),
    ensures
        maps_wf(fresh_conns(c, now, timeout), fresh_users(us, c, now, timeout)),
{
    let fc = fresh_conns(c, now, timeout);
    let fus = fresh_users(us, c, now, timeout);
    lemma_fresh_conns_elems(c, now, timeout);
    lemma_fresh_conns_distinct(c, now, timeout);
    lemma_fresh_users_elems(us, c, now, timeout);
    lemma_fresh_users_distinct(us, c, now, timeout);
    assert(user_entries_clean(fus)) by {
        assert forall|k: int| 0 <= k < fus.len() implies {
            &&& (#[trigger] fus[k]).connection_ids.len() > 0
            &&& (forall|a: int, b: int|
                0 <= a < b < fus[k].connection_ids.len() ==> fus[k].connection_ids[a]
                    != fus[k].connection_ids[b])
        } by {
            let ok = choose|ok: int|
                0 <= ok < us.len() && #[trigger] fus[k] == (UserEntryView {
                    user_id: us[ok].user_id,
                    connection_ids: fresh_ids(us[ok].connection_ids, c, now, timeout),
                }) && fresh_ids(us[ok].connection_ids, c, now, timeout).len() > 0;
            lemma_fresh_ids_distinct(us[ok].connection_ids, c, now, timeout);
        }
    }
    assert(user_entries_backed(fus, fc)) by {
        assert forall|k: int, a: int|
            0 <= k < fus.len() && 0 <= a < fus[k].connection_ids.len() implies backs(
            fc,
            #[trigger] fus[k].connection_ids[a],
            fus[k].user_id,
        ) by {
            let ok = choose|ok: int|
                0 <= ok < us.len() && #[trigger] fus[k] == (UserEntryView {
                    user_id: us[ok].user_id,
                    connection_ids: fresh_ids(us[ok].connection_ids, c, now, timeout),
                }) && fresh_ids(us[ok].connection_ids, c, now, timeout).len() > 0;
            let ids = us[ok].connection_ids;
            let u = us[ok].user_id;
            lemma_fresh_ids_sound(ids, c, now, timeout);
            lemma_fresh_ids_fresh(ids, c, now, timeout);
            let id = fus[k].connection_ids[a];
            let a0 = choose|a0: int| 0 <= a0 < ids.len() && #[trigger] ids[a0] == id;
            assert(id_is_fresh(c, id, now, timeout));
            let i = choose|i: int|
                0 <= i < c.len() && (#[trigger] c[i]).connection.connection_id == id && !is_stale(
                    c[i],
                    now,
                    timeout,
                );
            assert(backs(c, ids[a0], u));
            let ci = choose|ci: int|
                0 <= ci < c.len() && c[ci].connection.connection_id == id
                    && c[ci].connection.user_id == Some(u);
            assert(ci == i) by {
                if ci != i {
                    if ci < i {
                        assert(c[ci].connection.connection_id != c[i].connection.connection_id);
                    } else {
                        assert(c[i].connection.connection_id != c[ci].connection.connection_id);
                    }
                }
            }
            let j = choose|j: int| 0 <= j < fc.len() && #[trigger] fc[j] == c[i];
            assert(0 <= j < fc.len() && fc[j].connection.connection_id == id
                && fc[j].connection.user_id == Some(u));
        }
    }
    assert(conns_listed(fus, fc)) by {
        assert forall|cj: int|
            0 <= cj < fc.len() implies match (#[trigger] fc[cj]).connection.user_id {
            Some(u) => listed(fus, fc[cj].connection.connection_id, u),
            None => true,
        } by {
            let i = choose|i: int|
                0 <= i < c.len() && #[trigger] fc[cj] == c[i] && !is_stale(c[i], now, timeout);
            match c[i].connection.user_id {
                Some(u) => {
                    let id = c[i].connection.connection_id;
                    assert(listed(us, id, u));
                    let (k, a) = choose|k: int, a: int|
                        0 <= k < us.len() && us[k].user_id == u && 0 <= a < us[
                            k
                        ].connection_ids.len() && #[trigger] us[k].connection_ids[a] == id;
                    let ids = us[k].connection_ids;
                    assert(id_is_fresh(c, id, now, timeout)) by {
                        assert(0 <= i < c.len() && c[i].connection.connection_id == id
                            && !is_stale(c[i], now, timeout));
                    }
                    lemma_fresh_ids_complete(ids, c, now, timeout);
                    let a1 = choose|a1: int|
                        #![trigger fresh_ids(ids, c, now, timeout)[a1]]
                        0 <= a1 < fresh_ids(ids, c, now, timeout).len() && fresh_ids(
                            ids,
                            c,
                            now,
                            timeout,
                        )[a1] == ids[a];
                    assert(fresh_ids(ids, c, now, timeout).len() > 0);
                    let j = choose|j: int|
                        0 <= j < fus.len() && #[trigger] fus[j] == (UserEntryView {
                            user_id: us[k].user_id,
                            connection_ids: fresh_ids(us[k].connection_ids, c, now, timeout),
                        });
                    assert(0 <= j < fus.len() && fus[j].user_id == u && 0 <= a1 < fus[
                        j
                    ].connection_ids.len() && fus[j].connection_ids[a1] == id);
                    assert(listed(fus, id, u));
                },
                None => {},
            }
        }
    }
}

/// The connection record `cv` with its activity stamp set to `now`.
pub open spec fn with_activity(cv: ConnectionView, now: int) -> ConnectionView {
    ConnectionView {
        connection_id: cv.connection_id,
        user_id: cv.user_id,
        connected_at: cv.connected_at,
        last_activity: now,
        metadata: cv.metadata,
    }
}

/// The record of a connection accepted at `now`.
pub open spec fn fresh_conn_view(cid: Seq<char>, user_id: Option<Id>, now: int) -> ConnectionView {
    ConnectionView {
        connection_id: cid,
        user_id: user_id,
        connected_at: now,
        last_activity: now,
        metadata: Seq::<(Seq<char>, Seq<char>)>::empty(),
    }
}

/// The presence event sent when a user's first connection arrives.
pub open spec fn online_msg(u: Id) -> MessageView {
    MessageView::UserOnline { user_id: u, username: "User"@ }
}

/// Changing only queues or activity stamps, while keeping every
/// connection's identifier and owner, preserves the joint invariant.
proof fn lemma_wf_same_connections(
    c: Seq<ActiveConnectionView>,
    nc: Seq<ActiveConnectionView>,
    us: Seq<UserEntryView>,
)
    requires
        maps_wf(c, us),
        nc.len() == c.len(),
        forall|j: int|
            0 <= j < c.len() ==> {
                &&& (#[trigger] nc[j]).connection.connection_id == c[j].connection.connection_id
                &&& nc[j].connection.user_id == c[j].connection.user_id
            },
    ensures
        maps_wf(nc, us),
{
    assert forall|i: int, j: int|
        0 <= i < j < nc.len() implies nc[i].connection.connection_id
        != nc[j].connection.connection_id by {
        assert(c[i].connection.connection_id != c[j].connection.connection_id);
    }
    assert forall|i: int, a: int|
        0 <= i < us.len() && 0 <= a < us[i].connection_ids.len() implies backs(
        nc,
        #[trigger] us[i].connection_ids[a],
        us[i].user_id,
    ) by {
        assert(backs(c, us[i].connection_ids[a], us[i].user_id));
        let ci = choose|ci: int|
            0 <= ci < c.len() && c[ci].connection.connection_id == us[i].connection_ids[a]
                && c[ci].connection.user_id == Some(us[i].user_id);
        assert(0 <= ci < nc.len() && nc[ci].connection.connection_id == us[i].connection_ids[a]
            && nc[ci].connection.user_id == Some(us[i].user_id));
    }
    assert forall|ci: int|
        0 <= ci < nc.len() implies match (#[trigger] nc[ci]).connection.user_id {
        Some(u) => listed(us, nc[ci].connection.connection_id, u),
        None => true,
    } by {
        match c[ci].connection.user_id {
            Some(u) => {
                assert(listed(us, c[ci].connection.connection_id, u));
            },
            None => {},
        }
    }
}

/// The in-memory connection registry and notification fan-out.
pub struct InMemoryWebSocketService {
    connections: Vec<ActiveConnection>,
    user_connections: Vec<UserEntry>,
}

impl InMemoryWebSocketService {
    /// The registered connections, in registration order.
    pub closed spec fn conns(self) -> Seq<ActiveConnectionView> {
        self.connections.deep_view()
    }

    /// The user index, in first-connection order.
    pub closed spec fn users(self) -> Seq<UserEntryView> {
        self.user_connections.deep_view()
    }

    /// The registry's invariant: distinct keys in both maps, no empty user
    /// entry, and the two maps listing exactly each other's contents.
    pub open spec fn wf(self) -> bool {
        maps_wf(self.conns(), self.users())
    }

    /// An empty registry.
    pub fn new() -> (r: InMemoryWebSocketService)
        ensures
            r.wf(),
            r.conns() == Seq::<ActiveConnectionView>::empty(),
            r.users() == Seq::<UserEntryView>::empty(),
    {
        let r = InMemoryWebSocketService { connections: Vec::new(), user_connections: Vec::new() };
        proof {
            assert(r.conns() =~= Seq::<ActiveConnectionView>::empty());
            assert(r.users() =~= Seq::<UserEntryView>::empty());
        }
        r
    }

    /// The index of the connection with the given identifier, if any.
    fn find_conn_index(&self, connection_id: &str) -> (r: Option<usize>)
        ensures
            match r {
                Some(i) => {
                    &&& i < self.conns().len()
                    &&& self.conns()[i as int].connection.connection_id == connection_id@
                },
                None => !has_conn_id(self.conns(), connection_id@),
            },
    {
        let mut i: usize = 0;
        let n = self.connections.len();
        while i < n
            invariant
                n == self.conns().len(),
                0 <= i <= n,
                forall|j: int|
                    0 <= j < i ==> self.conns()[j].connection.connection_id != connection_id@,
            decreases n - i,
        {
            if str_eq(self.connections[i].connection.connection_id.as_str(), connection_id) {
                return Some(i);
            }
            i = i + 1;
        }
        None
    }

    /// The index of the given user's entry, if any.
    fn find_user_index(&self, user_id: Id) -> (r: Option<usize>)
        ensures
            match r {
                Some(i) => {
                    &&& i < self.users().len()
                    &&& self.users()[i as int].user_id == user_id
                },
                None => !has_user(self.users(), user_id),
            },
    {
        let mut i: usize = 0;
        let n = self.user_connections.len();
        while i < n
            invariant
                n == self.users().len(),
                0 <= i <= n,
                forall|j: int| 0 <= j < i ==> self.users()[j].user_id != user_id,
            decreases n - i,
        {
            if self.user_connections[i].user_id == user_id {
                return Some(i);
            }
            i = i + 1;
        }
        None
    }

    /// Registers a connection under its identifier and, when it carries a
    /// user, lists it under that user. A duplicate identifier is rejected
    /// and changes nothing: overwriting would silently orphan the previous
    /// queue.
    pub fn add_connection(&mut self, connection: WebSocketConnection) -> (r: ServiceResult<()>)
        requires
            old(self).wf(),
        ensures
            final (self).wf(),
            has_conn_id(old(self).conns(), connection@.connection_id) ==> {
                &&& r matches Err(Error::Conflict(_))
                &&& final (self).conns() == old(self).conns()
                &&& final (self).users() == old(self).users()
            },
            !has_conn_id(old(self).conns(), connection@.connection_id) ==> {
                &&& r matches Ok(())
                &&& final (self).conns() == old(self).conns().push(
                    ActiveConnectionView {
                        connection: connection@,
                        queue: Seq::<MessageView>::empty(),
                    },
                )
                &&& match connection@.user_id {
                    None => final (self).users() == old(self).users(),
                    Some(u) => {
                        if has_user(old(self).users(), u) {
                            exists|ui: int|
                                {
                                    &&& 0 <= ui < old(self).users().len()
                                    &&& old(self).users()[ui].user_id == u
                                    &&& final (self).users() == old(self).users().update(
                                        ui,
                                        UserEntryView {
                                            user_id: u,
                                            connection_ids:
                                                old(self).users()[ui].connection_ids.push(
                                                connection@.connection_id,
                                            ),
                                        },
                                    )
                                }
                        } else {
                            final (self).users() == old(self).users().push(
                                UserEntryView {
                                    user_id: u,
                                    connection_ids: seq![connection@.connection_id],
                                },
                            )
                        }
                    },
                }
            },
    {
        if let Some(_) = self.find_conn_index(connection.connection_id.as_str()) {
            return Err(Error::Conflict(String::from_str("connection id already registered")));
        }
        let ghost oc = self.conns();
        let ghost ou = self.users();
        let ghost cv = connection@;
        let ghost cid = connection@.connection_id;
        let ghost newc = ActiveConnectionView {
            connection: cv,
            queue: Seq::<MessageView>::empty(),
        };
        let connection_id = connection.connection_id.clone();
        let user_id = connection.user_id;
        self.connections.push(ActiveConnection { connection, queue: Vec::new() });
        proof {
            assert(self.conns() =~= oc.push(newc)) by {
                assert(self.connections@.len() == oc.len() + 1);
                assert(self.connections@[oc.len() as int]@.queue =~= Seq::<
                    MessageView,
                >::empty());
            }
        }
        match user_id {
            None => {
                proof {
                    lemma_register_anonymous(oc, ou, newc);
                }
                Ok(())
            },
            Some(u) => {
                match self.find_user_index(u) {
                    Some(ui) => {
                        let ghost old_entry = ou[ui as int];
                        let ghost new_entry = UserEntryView {
                            user_id: old_entry.user_id,
                            connection_ids: old_entry.connection_ids.push(cid),
                        };
                        let mut entry = self.user_connections.remove(ui);
                        entry.connection_ids.push(connection_id);
                        self.user_connections.insert(ui, entry);
                        proof {
                            assert(self.users() =~= ou.update(ui as int, new_entry)) by {
                                assert(self.user_connections@[ui as int]@.connection_ids
                                    =~= old_entry.connection_ids.push(cid));
                            }
                            lemma_register_known_user(oc, ou, newc, ui as int);
                        }
                        Ok(())
                    },
                    None => {
                        let mut ids: Vec<String> = Vec::new();
                        ids.push(connection_id);
                        let ghost new_entry = UserEntryView {
                            user_id: u,
                            connection_ids: seq![cid],
                        };
                        self.user_connections.push(UserEntry { user_id: u, connection_ids: ids });
                        proof {
                            assert(self.users() =~= ou.push(new_entry)) by {
                                assert(self.user_connections@[ou.len() as int]@.connection_ids
                                    =~= seq![cid]);
                            }
                            lemma_register_new_user(oc, ou, newc, u);
                        }
                        Ok(())
                    },
                }
            },
        }
    }

    /// Appends `message` to the queue of the connection at index `i`,
    /// touching nothing else.
    fn enqueue_at(&mut self, i: usize, message: WebSocketMessage)
        requires
            i < old(self).conns().len(),
        ensures
            final (self).conns().len() == old(self).conns().len(),
            forall|j: int|
                0 <= j < old(self).conns().len() && j != i ==> final (self).conns()[j] == old(
                    self,
                ).conns()[j],
            final (self).conns()[i as int].connection == old(self).conns()[i as int].connection,
            final (self).conns()[i as int].queue == old(self).conns()[i as int].queue.push(
                message@,
            ),
            final (self).users() == old(self).users(),
    {
        let ghost oc = self.conns();
        let ghost mv = message@;
        let mut entry = self.connections.remove(i);
        let ghost oldq = entry.queue.deep_view();
        entry.queue.push(message);
        proof {
            assert(entry.queue.deep_view() =~= oldq.push(mv));
        }
        self.connections.insert(i, entry);
        proof {
            assert forall|j: int|
                0 <= j < oc.len() && j != i implies self.conns()[j] == oc[j] by {
                assert(self.connections@[j] == old(self).connections@[j]);
            }
            assert(self.conns()[i as int].connection == oc[i as int].connection);
            assert(self.conns()[i as int].queue =~= oc[i as int].queue.push(mv));
        }
    }

    /// Enqueues `message` for one connection; `NotFound` if the identifier
    /// names no registered connection. Nothing else changes either way, and
    /// the message goes to the end of the queue: repeated sends are drained
    /// in send order.
    pub fn send_to_connection(&mut self, connection_id: &str, message: WebSocketMessage) -> (r:
        ServiceResult<()>)
        requires
            old(self).wf(),
        ensures
            final (self).wf(),
            final (self).users() == old(self).users(),
            final (self).conns().len() == old(self).conns().len(),
            forall|j: int|
                0 <= j < old(self).conns().len() ==> (#[trigger] final (self).conns()[j]).connection
                    == old(self).conns()[j].connection,
            forall|j: int|
                0 <= j < old(self).conns().len() ==> (#[trigger] final (self).conns()[j]).queue
                    == (if old(self).conns()[j].connection.connection_id == connection_id@ {
                    old(self).conns()[j].queue.push(message@)
                } else {
                    old(self).conns()[j].queue
                }),
            (r matches Ok(())) <==> has_conn_id(old(self).conns(), connection_id@),
            r matches Err(e) ==> e matches Error::NotFound(_),
    {
        let ghost oc = self.conns();
        let ghost ou = self.users();
        match self.find_conn_index(connection_id) {
            Some(i) => {
                self.enqueue_at(i, message);
                proof {
                    assert forall|j: int|
                        0 <= j < oc.len() implies (#[trigger] self.conns()[j]).queue == (if oc[
                            j
                        ].connection.connection_id == connection_id@ {
                            oc[j].queue.push(message@)
                        } else {
                            oc[j].queue
                        }) by {
                        if j != i {
                            assert(self.conns()[j] == oc[j]);
                            assert(oc[j].connection.connection_id != connection_id@);
                        }
                    }
                    lemma_wf_same_connections(oc, self.conns(), ou);
                }
                Ok(())
            },
            None => {
                Err(Error::NotFound(String::from_str("connection not registered")))
            },
        }
    }

    /// Enqueues `message` to every registered connection.
    pub fn broadcast(&mut self, message: WebSocketMessage) -> (r: ServiceResult<()>)
        requires
            old(self).wf(),
        ensures
            final (self).wf(),
            final (self).users() == old(self).users(),
            final (self).conns().len() == old(self).conns().len(),
            forall|j: int|
                0 <= j < old(self).conns().len() ==> (#[trigger] final (self).conns()[j]).connection
                    == old(self).conns()[j].connection,
            forall|j: int|
                0 <= j < old(self).conns().len() ==> (#[trigger] final (self).conns()[j]).queue
                    == old(self).conns()[j].queue.push(message@),
            r matches Ok(()),
    {
        let ghost oc = self.conns();
        let ghost ou = self.users();
        let n = self.connections.len();
        let mut i: usize = 0;
        while i < n
            invariant
                n == oc.len(),
                0 <= i <= n,
                self.conns().len() == n,
                self.users() == ou,
                forall|j: int|
                    0 <= j < n ==> (#[trigger] self.conns()[j]).connection == oc[j].connection,
                forall|j: int|
                    0 <= j < i ==> (#[trigger] self.conns()[j]).queue == oc[j].queue.push(
                        message@,
                    ),
                forall|j: int| i <= j < n ==> (#[trigger] self.conns()[j]).queue == oc[j].queue,
            decreases n - i,
        {
            let m = clone_message(&message);
            self.enqueue_at(i, m);
            i = i + 1;
        }
        proof {
            lemma_wf_same_connections(oc, self.conns(), ou);
        }
        Ok(())
    }

    /// Enqueues `message` to every connection of `user_id`. An offline user
    /// has no registered connection, so nothing is enqueued and the call
    /// still succeeds.
    pub fn send_to_user(&mut self, user_id: Id, message: WebSocketMessage) -> (r: ServiceResult<
        (),
    >)
        requires
            old(self).wf(),
        ensures
            final (self).wf(),
            final (self).users() == old(self).users(),
            final (self).conns().len() == old(self).conns().len(),
            forall|j: int|
                0 <= j < old(self).conns().len() ==> (#[trigger] final (self).conns()[j]).connection
                    == old(self).conns()[j].connection,
            forall|j: int|
                0 <= j < old(self).conns().len() ==> (#[trigger] final (self).conns()[j]).queue
                    == (if old(self).conns()[j].connection.user_id == Some(user_id) {
                    old(self).conns()[j].queue.push(message@)
                } else {
                    old(self).conns()[j].queue
                }),
            r matches Ok(()),
    {
        let ghost oc = self.conns();
        let ghost ou = self.users();
        let n = self.connections.len();
        let mut i: usize = 0;
        while i < n
            invariant
                n == oc.len(),
                0 <= i <= n,
                self.conns().len() == n,
                self.users() == ou,
                forall|j: int|
                    0 <= j < n ==> (#[trigger] self.conns()[j]).connection == oc[j].connection,
                forall|j: int|
                    0 <= j < i ==> (#[trigger] self.conns()[j]).queue == (if oc[
                        j
                    ].connection.user_id == Some(user_id) {
                        oc[j].queue.push(message@)
                    } else {
                        oc[j].queue
                    }),
                forall|j: int| i <= j < n ==> (#[trigger] self.conns()[j]).queue == oc[j].queue,
            decreases n - i,
        {
            let matches_user = match self.connections[i].connection.user_id {
                Some(u) => u == user_id,
                None => false,
            };
            if matches_user {
                let m = clone_message(&message);
                self.enqueue_at(i, m);
            }
            i = i + 1;
        }
        proof {
            lemma_wf_same_connections(oc, self.conns(), ou);
        }
        Ok(())
    }

    /// Repeated `send_to_user`: a connection receives the message once per
    /// occurrence of its user in `user_ids`.
    pub fn broadcast_to_users(&mut self, user_ids: Vec<Id>, message: WebSocketMessage) -> (r:
        ServiceResult<()>)
        requires
            old(self).wf(),
        ensures
            final (self).wf(),
            final (self).users() == old(self).users(),
            final (self).conns().len() == old(self).conns().len(),
            forall|j: int|
                0 <= j < old(self).conns().len() ==> (#[trigger] final (self).conns()[j]).connection
                    == old(self).conns()[j].connection,
            forall|j: int|
                0 <= j < old(self).conns().len() ==> (#[trigger] final (self).conns()[j]).queue
                    == old(self).conns()[j].queue + Seq::new(
                    occurrences(user_ids@, old(self).conns()[j].connection.user_id),
                    |k: int| message@,
                ),
            r matches Ok(()),
    {
        let ghost oc = self.conns();
        let ghost ou = self.users();
        let n = user_ids.len();
        let mut i: usize = 0;
        while i < n
            invariant
                old(self).wf(),
                n == user_ids@.len(),
                0 <= i <= n,
                self.wf(),
                self.users() == ou,
                ou == old(self).users(),
                self.conns().len() == oc.len(),
                oc == old(self).conns(),
                forall|j: int|
                    0 <= j < oc.len() ==> (#[trigger] self.conns()[j]).connection == oc[
                        j
                    ].connection,
                forall|j: int|
                    0 <= j < oc.len() ==> (#[trigger] self.conns()[j]).queue == oc[j].queue
                        + Seq::new(
                        occurrences(user_ids@.take(i as int), oc[j].connection.user_id),
                        |k: int| message@,
                    ),
            decreases n - i,
        {
            let ghost mid = self.conns();
            let u = user_ids[i];
            let m = clone_message(&message);
            let _ = self.send_to_user(u, m);
            proof {
                assert forall|j: int|
                    0 <= j < oc.len() implies (#[trigger] self.conns()[j]).queue == oc[j].queue
                    + Seq::new(
                    occurrences(user_ids@.take(i + 1), oc[j].connection.user_id),
                    |k: int| message@,
                ) by {
                    assert(user_ids@.take(i + 1).drop_last() =~= user_ids@.take(i as int));
                    assert(user_ids@.take(i + 1).last() == user_ids@[i as int]);
                    let w = oc[j].connection.user_id;
                    assert(mid[j].queue == oc[j].queue + Seq::new(
                        occurrences(user_ids@.take(i as int), w),
                        |k: int| message@,
                    ));
                    if w == Some(u) {
                        assert(occurrences(user_ids@.take(i + 1), w) == occurrences(
                            user_ids@.take(i as int),
                            w,
                        ) + 1);
                        assert(self.conns()[j].queue =~= oc[j].queue + Seq::new(
                            occurrences(user_ids@.take(i + 1), w),
                            |k: int| message@,
                        ));
                    } else {
                        assert(occurrences(user_ids@.take(i + 1), w) == occurrences(
                            user_ids@.take(i as int),
                            w,
                        ));
                    }
                }
            }
            i = i + 1;
        }
        proof {
            assert(user_ids@.take(n as int) =~= user_ids@);
        }
        Ok(())
    }

    /// The record of one connection, if registered.
    pub fn get_connection(&self, connection_id: &str) -> (r: Option<WebSocketConnection>)
        requires
            self.wf(),
        ensures
            match r {
                Some(c) => {
                    &&& has_conn_id(self.conns(), connection_id@)
                    &&& c@.connection_id == connection_id@
                    &&& (forall|j: int|
                        0 <= j < self.conns().len() && (#[trigger] self.conns()[j]).connection.connection_id
                            == connection_id@ ==> c@ == self.conns()[j].connection)
                },
                None => !has_conn_id(self.conns(), connection_id@),
            },
    {
        match self.find_conn_index(connection_id) {
            Some(i) => {
                let c = clone_connection(&self.connections[i].connection);
                proof {
                    assert forall|j: int|
                        0 <= j < self.conns().len()
                            && (#[trigger] self.conns()[j]).connection.connection_id
                            == connection_id@ implies c@ == self.conns()[j].connection by {
                        if j != i {
                            assert(self.conns()[i as int].connection.connection_id
                                == connection_id@);
                            if j < i {
                                assert(self.conns()[j].connection.connection_id != self.conns()[
                                    i as int
                                ].connection.connection_id);
                            } else {
                                assert(self.conns()[i as int].connection.connection_id
                                    != self.conns()[j].connection.connection_id);
                            }
                        }
                    }
                }
                Some(c)
            },
            None => None,
        }
    }

    /// The records of all of one user's connections, in registration order.
    pub fn get_user_connections(&self, user_id: Id) -> (r: Vec<WebSocketConnection>)
        ensures
            r.deep_view() == conns_of_user(self.conns(), user_id),
    {
        let mut out: Vec<WebSocketConnection> = Vec::new();
        let n = self.connections.len();
        let mut i: usize = 0;
        while i < n
            invariant
                n == self.conns().len(),
                0 <= i <= n,
                out.deep_view() =~= conns_of_user(self.conns().take(i as int), user_id),
            decreases n - i,
        {
            let ghost prefix = self.conns().take(i as int);
            proof {
                assert(self.conns().take(i + 1).drop_last() =~= prefix);
                assert(self.conns().take(i + 1).last() == self.conns()[i as int]);
            }
            let matches_user = match self.connections[i].connection.user_id {
                Some(u) => u == user_id,
                None => false,
            };
            if matches_user {
                let c = clone_connection(&self.connections[i].connection);
                out.push(c);
            }
            i = i + 1;
        }
        proof {
            assert(self.conns().take(n as int) =~= self.conns());
        }
        out
    }

    /// The identifiers of the users that are online, in first-connection
    /// order.
    pub fn get_online_users(&self) -> (r: Vec<Id>)
        ensures
            r@.len() == self.users().len(),
            forall|i: int| 0 <= i < r@.len() ==> r@[i] == self.users()[i].user_id,
    {
        let mut out: Vec<Id> = Vec::new();
        let n = self.user_connections.len();
        let mut i: usize = 0;
        while i < n
            invariant
                n == self.users().len(),
                0 <= i <= n,
                out@.len() == i,
                forall|j: int| 0 <= j < i ==> out@[j] == self.users()[j].user_id,
            decreases n - i,
        {
            out.push(self.user_connections[i].user_id);
            i = i + 1;
        }
        out
    }

    /// Whether the user has at least one registered connection.
    pub fn is_user_online(&self, user_id: Id) -> (r: bool)
        ensures
            r == has_user(self.users(), user_id),
    {
        match self.find_user_index(user_id) {
            Some(_) => true,
            None => false,
        }
    }

    /// A snapshot of the registry's size: the connection count, the online
    /// user count, and each user's connection count.
    pub fn get_connection_stats(&self) -> (r: ConnectionStats)
        ensures
            r.total_connections == self.conns().len(),
            r.unique_users == self.users().len(),
            r.connections_by_user@.len() == self.users().len(),
            forall|i: int|
                0 <= i < self.users().len() ==> r.connections_by_user@[i] == (
                self.users()[i].user_id,
                self.users()[i].connection_ids.len() as usize,
            ),
    {
        let total_connections = self.connections.len();
        let unique_users = self.user_connections.len();
        let mut connections_by_user: Vec<(Id, usize)> = Vec::new();
        let n = self.user_connections.len();
        let mut i: usize = 0;
        while i < n
            invariant
                n == self.users().len(),
                0 <= i <= n,
                connections_by_user@.len() == i,
                forall|j: int|
                    0 <= j < i ==> connections_by_user@[j] == (
                    self.users()[j].user_id,
                    self.users()[j].connection_ids.len() as usize,
                ),
            decreases n - i,
        {
            let entry = (self.user_connections[i].user_id, self.user_connections[i].connection_ids.len());
            connections_by_user.push(entry);
            i = i + 1;
        }
        ConnectionStats { total_connections, unique_users, connections_by_user }
    }

    /// Hands the connection's queued messages to its writer, in enqueue
    /// order, leaving the queue empty; `None` if the connection is gone.
    pub fn drain_outbound(&mut self, connection_id: &str) -> (r: Option<Vec<WebSocketMessage>>)
        requires
            old(self).wf(),
        ensures
            final (self).wf(),
            final (self).users() == old(self).users(),
            final (self).conns().len() == old(self).conns().len(),
            forall|j: int|
                0 <= j < old(self).conns().len() ==> #[trigger] final (self).conns()[j] == (if old(
                    self,
                ).conns()[j].connection.connection_id == connection_id@ {
                    (ActiveConnectionView {
                        connection: old(self).conns()[j].connection,
                        queue: Seq::<MessageView>::empty(),
                    })
                } else {
                    old(self).conns()[j]
                }),
            match r {
                Some(v) => {
                    &&& has_conn_id(old(self).conns(), connection_id@)
                    &&& (forall|j: int|
                        0 <= j < old(self).conns().len()
                            && (#[trigger] old(self).conns()[j]).connection.connection_id
                            == connection_id@ ==> v.deep_view() == old(self).conns()[j].queue)
                },
                None => !has_conn_id(old(self).conns(), connection_id@),
            },
    {
        let ghost oc = self.conns();
        let ghost ou = self.users();
        match self.find_conn_index(connection_id) {
            Some(i) => {
                let entry = self.connections.remove(i);
                let queue = entry.queue;
                self.connections.insert(i, ActiveConnection { connection: entry.connection, queue: Vec::new() });
                proof {
                    assert forall|j: int|
                        0 <= j < oc.len() implies #[trigger] self.conns()[j] == (if oc[
                            j
                        ].connection.connection_id == connection_id@ {
                            (ActiveConnectionView {
                                connection: oc[j].connection,
                                queue: Seq::<MessageView>::empty(),
                            })
                        } else {
                            oc[j]
                        }) by {
                        if j == i {
                            assert(self.connections@[j]@.queue =~= Seq::<MessageView>::empty());
                        } else {
                            assert(self.connections@[j] == old(self).connections@[j]);
                            assert(oc[j].connection.connection_id != connection_id@);
                        }
                    }
                    assert forall|j: int|
                        0 <= j < oc.len() && (#[trigger] oc[j]).connection.connection_id
                            == connection_id@ implies queue.deep_view() == oc[j].queue by {
                        if j != i {
                            assert(oc[i as int].connection.connection_id == connection_id@);
                        }
                    }
                    lemma_wf_same_connections(oc, self.conns(), ou);
                }
                Some(queue)
            },
            None => None,
        }
    }

    /// The position of `id` in a list of identifiers, if present.
    fn find_id_index(ids: &Vec<String>, id: &str) -> (r: Option<usize>)
        ensures
            match r {
                Some(a) => {
                    &&& a < ids.deep_view().len()
                    &&& ids.deep_view()[a as int] == id@
                },
                None => forall|a: int| 0 <= a < ids.deep_view().len() ==> ids.deep_view()[a] != id@,
            },
    {
        let mut a: usize = 0;
        let n = ids.len();
        while a < n
            invariant
                n == ids.deep_view().len(),
                0 <= a <= n,
                forall|b: int| 0 <= b < a ==> ids.deep_view()[b] != id@,
            decreases n - a,
        {
            if str_eq(ids[a].as_str(), id) {
                return Some(a);
            }
            a = a + 1;
        }
        None
    }

    /// Removes the connection from both maps. Removing an unknown
    /// identifier is a no-op. Returns the owner's identifier exactly when
    /// the removed connection was that user's last: the caller then emits
    /// the presence event.
    pub fn deregister(&mut self, connection_id: &str) -> (r: Option<Id>)
        requires
            old(self).wf(),
        ensures
            final (self).wf(),
            !has_conn_id(old(self).conns(), connection_id@) ==> {
                &&& final (self).conns() == old(self).conns()
                &&& final (self).users() == old(self).users()
                &&& r is None
            },
            has_conn_id(old(self).conns(), connection_id@) ==> exists|i: int|
                {
                    &&& 0 <= i < old(self).conns().len()
                    &&& (#[trigger] old(self).conns()[i]).connection.connection_id
                        == connection_id@
                    &&& final (self).conns() == old(self).conns().remove(i)
                    &&& match old(self).conns()[i].connection.user_id {
                        None => final (self).users() == old(self).users() && r is None,
                        Some(u) => exists|ui: int, a0: int|
                            {
                                &&& 0 <= ui < old(self).users().len()
                                &&& old(self).users()[ui].user_id == u
                                &&& 0 <= a0
                                &&& a0 < old(self).users()[ui].connection_ids.len()
                                &&& #[trigger] old(self).users()[ui].connection_ids[a0]
                                    == connection_id@
                                &&& (if old(self).users()[ui].connection_ids.len() > 1 {
                                    final (self).users() == old(self).users().update(
                                        ui,
                                        entry_without(old(self).users()[ui], a0),
                                    ) && r is None
                                } else {
                                    final (self).users() == old(self).users().remove(ui) && r
                                        == Some(u)
                                })
                            },
                    }
                },
    {
        let ghost oc = self.conns();
        let ghost ou = self.users();
        match self.find_conn_index(connection_id) {
            None => None,
            Some(i) => {
                let entry = self.connections.remove(i);
                proof {
                    assert(self.conns() =~= oc.remove(i as int));
                }
                match entry.connection.user_id {
                    None => {
                        proof {
                            lemma_deregister_anonymous(oc, ou, i as int);
                        }
                        None
                    },
                    Some(u) => {
                        proof {
                            assert(listed(ou, connection_id@, u));
                        }
                        match self.find_user_index(u) {
                            None => {
                                proof {
                                    let (k, a) = choose|k: int, a: int|
                                        0 <= k < ou.len() && ou[k].user_id == u && 0 <= a < ou[
                                            k
                                        ].connection_ids.len() && #[trigger] ou[
                                            k
                                        ].connection_ids[a] == connection_id@;
                                    assert(has_user(ou, u));
                                    assert(false);
                                }
                                None
                            },
                            Some(ui) => {
                                let mut user_entry = self.user_connections.remove(ui);
                                let pos = Self::find_id_index(
                                    &user_entry.connection_ids,
                                    connection_id,
                                );
                                match pos {
                                    None => {
                                        proof {
                                            let (k, a) = choose|k: int, a: int|
                                                0 <= k < ou.len() && ou[k].user_id == u && 0 <= a
                                                    < ou[k].connection_ids.len() && #[trigger] ou[
                                                    k
                                                ].connection_ids[a] == connection_id@;
                                            assert(k == ui) by {
                                                if k != ui {
                                                    if k < ui {
                                                        assert(ou[k].user_id != ou[ui as int].user_id);
                                                    } else {
                                                        assert(ou[ui as int].user_id != ou[k].user_id);
                                                    }
                                                }
                                            }
                                            assert(user_entry@.connection_ids[a]
                                                == connection_id@);
                                            assert(false);
                                        }
                                        None
                                    },
                                    Some(a0) => {
                                        if user_entry.connection_ids.len() > 1 {
                                            let _removed = user_entry.connection_ids.remove(a0);
                                            let ghost newe = entry_without(
                                                ou[ui as int],
                                                a0 as int,
                                            );
                                            self.user_connections.insert(ui, user_entry);
                                            proof {
                                                assert(self.user_connections@[ui as int]@.connection_ids
                                                    =~= ou[ui as int].connection_ids.remove(
                                                    a0 as int,
                                                ));
                                                assert(self.users() =~= ou.update(
                                                    ui as int,
                                                    newe,
                                                ));
                                                lemma_deregister_multi(
                                                    oc,
                                                    ou,
                                                    i as int,
                                                    ui as int,
                                                    a0 as int,
                                                );
                                            }
                                            None
                                        } else {
                                            proof {
                                                assert(self.users() =~= ou.remove(ui as int));
                                                assert(ou[ui as int].connection_ids.len() == 1);
                                                assert(a0 == 0);
                                                lemma_deregister_last(
                                                    oc,
                                                    ou,
                                                    i as int,
                                                    ui as int,
                                                );
                                            }
                                            Some(u)
                                        }
                                    },
                                }
                            },
                        }
                    },
                }
            },
        }
    }

    /// Removes a connection and, exactly when it was its user's last,
    /// broadcasts the `UserOffline` presence event to every remaining
    /// connection. Removing an unknown identifier succeeds and changes
    /// nothing.
    pub fn remove_connection(&mut self, connection_id: &str) -> (r: ServiceResult<()>)
        requires
            old(self).wf(),
        ensures
            final (self).wf(),
            r matches Ok(()),
            !has_conn_id(old(self).conns(), connection_id@) ==> {
                &&& final (self).conns() == old(self).conns()
                &&& final (self).users() == old(self).users()
            },
            has_conn_id(old(self).conns(), connection_id@) ==> exists|i: int|
                {
                    &&& 0 <= i < old(self).conns().len()
                    &&& (#[trigger] old(self).conns()[i]).connection.connection_id
                        == connection_id@
                    &&& match old(self).conns()[i].connection.user_id {
                        None => {
                            &&& final (self).conns() == old(self).conns().remove(i)
                            &&& final (self).users() == old(self).users()
                        },
                        Some(u) => exists|ui: int, a0: int|
                            {
                                &&& 0 <= ui < old(self).users().len()
                                &&& old(self).users()[ui].user_id == u
                                &&& 0 <= a0
                                &&& a0 < old(self).users()[ui].connection_ids.len()
                                &&& #[trigger] old(self).users()[ui].connection_ids[a0]
                                    == connection_id@
                                &&& (if old(self).users()[ui].connection_ids.len() > 1 {
                                    final (self).conns() == old(self).conns().remove(i) && final (
                                    self).users() == old(self).users().update(
                                        ui,
                                        entry_without(old(self).users()[ui], a0),
                                    )
                                } else {
                                    final (self).conns() == with_broadcast(
                                        old(self).conns().remove(i),
                                        offline_msg(u),
                                    ) && final (self).users() == old(self).users().remove(ui)
                                })
                            },
                    }
                },
    {
        let ghost oc = self.conns();
        let ghost ou = self.users();
        let went_offline = self.deregister(connection_id);
        match went_offline {
            Some(u) => {
                let ghost mid = self.conns();
                let username = String::from_str("User");
                let _ = self.broadcast(WebSocketMessage::UserOffline { user_id: u, username });
                proof {
                    assert(self.conns() =~= with_broadcast(mid, offline_msg(u)));
                }
                Ok(())
            },
            None => Ok(()),
        }
    }

    /// Marks a connection as alive at `now`; reports whether it exists.
    pub fn touch_activity(&mut self, connection_id: &str, now: Timestamp) -> (r: bool)
        requires
            old(self).wf(),
        ensures
            final (self).wf(),
            final (self).users() == old(self).users(),
            final (self).conns().len() == old(self).conns().len(),
            forall|j: int|
                0 <= j < old(self).conns().len() ==> #[trigger] final (self).conns()[j] == (if old(
                    self,
                ).conns()[j].connection.connection_id == connection_id@ {
                    (ActiveConnectionView {
                        connection: with_activity(old(self).conns()[j].connection, now as int),
                        queue: old(self).conns()[j].queue,
                    })
                } else {
                    old(self).conns()[j]
                }),
            r == has_conn_id(old(self).conns(), connection_id@),
    {
        let ghost oc = self.conns();
        let ghost ou = self.users();
        match self.find_conn_index(connection_id) {
            Some(i) => {
                let mut entry = self.connections.remove(i);
                entry.connection.last_activity = now;
                self.connections.insert(i, entry);
                proof {
                    assert forall|j: int|
                        0 <= j < oc.len() implies #[trigger] self.conns()[j] == (if oc[
                            j
                        ].connection.connection_id == connection_id@ {
                            (ActiveConnectionView {
                                connection: with_activity(oc[j].connection, now as int),
                                queue: oc[j].queue,
                            })
                        } else {
                            oc[j]
                        }) by {
                        if j == i {
                            assert(self.conns()[j].connection =~= with_activity(
                                oc[j].connection,
                                now as int,
                            ));
                        } else {
                            assert(self.connections@[j] == old(self).connections@[j]);
                            assert(oc[j].connection.connection_id != connection_id@);
                        }
                    }
                    lemma_wf_same_connections(oc, self.conns(), ou);
                }
                true
            },
            None => false,
        }
    }

    /// Accepts a transport: registers a fresh record under the identifier
    /// and, exactly when this brings its user online, broadcasts the
    /// `UserOnline` presence event (the new connection receives it too). A
    /// duplicate identifier is rejected unchanged.
    pub fn accept_connection(
        &mut self,
        connection_id: String,
        user_id: Option<Id>,
        now: Timestamp,
    ) -> (r: ServiceResult<()>)
        requires
            old(self).wf(),
        ensures
            final (self).wf(),
            has_conn_id(old(self).conns(), connection_id@) ==> {
                &&& r matches Err(Error::Conflict(_))
                &&& final (self).conns() == old(self).conns()
                &&& final (self).users() == old(self).users()
            },
            !has_conn_id(old(self).conns(), connection_id@) ==> {
                &&& r matches Ok(())
                &&& match user_id {
                    None => {
                        &&& final (self).conns() == old(self).conns().push(
                            ActiveConnectionView {
                                connection: fresh_conn_view(connection_id@, user_id, now as int),
                                queue: Seq::<MessageView>::empty(),
                            },
                        )
                        &&& final (self).users() == old(self).users()
                    },
                    Some(u) => {
                        if has_user(old(self).users(), u) {
                            &&& final (self).conns() == old(self).conns().push(
                                ActiveConnectionView {
                                    connection: fresh_conn_view(
                                        connection_id@,
                                        user_id,
                                        now as int,
                                    ),
                                    queue: Seq::<MessageView>::empty(),
                                },
                            )
                            &&& exists|ui: int|
                                {
                                    &&& 0 <= ui < old(self).users().len()
                                    &&& (#[trigger] old(self).users()[ui]).user_id == u
                                    &&& final (self).users() == old(self).users().update(
                                        ui,
                                        UserEntryView {
                                            user_id: u,
                                            connection_ids: old(
                                                self,
                                            ).users()[ui].connection_ids.push(connection_id@),
                                        },
                                    )
                                }
                        } else {
                            &&& final (self).conns() == with_broadcast(
                                old(self).conns().push(
                                    ActiveConnectionView {
                                        connection: fresh_conn_view(
                                            connection_id@,
                                            user_id,
                                            now as int,
                                        ),
                                        queue: Seq::<MessageView>::empty(),
                                    },
                                ),
                                online_msg(u),
                            )
                            &&& final (self).users() == old(self).users().push(
                                UserEntryView {
                                    user_id: u,
                                    connection_ids: seq![connection_id@],
                                },
                            )
                        }
                    },
                }
            },
    {
        let ghost cid = connection_id@;
        let was_online = match user_id {
            Some(u) => self.is_user_online(u),
            None => true,
        };
        let connection = WebSocketConnection::new(connection_id, user_id, now);
        proof {
            assert(connection@ =~= fresh_conn_view(cid, user_id, now as int));
        }
        let result = self.add_connection(connection);
        match result {
            Err(e) => Err(e),
            Ok(()) => {
                if !was_online {
                    match user_id {
                        Some(u) => {
                            let ghost mid = self.conns();
                            let username = String::from_str("User");
                            let _ = self.broadcast(
                                WebSocketMessage::UserOnline { user_id: u, username },
                            );
                            proof {
                                assert(self.conns() =~= with_broadcast(mid, online_msg(u)));
                            }
                        },
                        None => {},
                    }
                }
                Ok(())
            },
        }
    }

    /// First sweep pass: keeps the connections still fresh at `now` and
    /// counts the evicted ones.
    #[verifier::loop_isolation(false)]
    #[verifier::rlimit(100)]
    #[verifier::spinoff_prover]
    fn sweep_connections(&mut self, now: Timestamp, timeout_seconds: u64) -> (r: u64)
        ensures
            final (self).conns() == fresh_conns(
                old(self).conns(),
                now as int,
                timeout_seconds as int,
            ),
            final (self).users() == old(self).users(),
            r as int == old(self).conns().len() - fresh_conns(
                old(self).conns(),
                now as int,
                timeout_seconds as int,
            ).len(),
    {
        let ghost oc = self.conns();
        let ghost ou = self.users();
        let ghost nowi = now as int;
        let ghost ti = timeout_seconds as int;
        let mut kept: Vec<ActiveConnection> = Vec::new();
        let mut removed: u64 = 0;
        let total = self.connections.len();
        let ghost mut k: int = 0;
        proof {
            assert(oc.len() == total as int);
        }
        while self.connections.len() > 0
            invariant
                0 <= k <= oc.len(),
                oc.len() == total as int,
                removed as int <= k,
                self.users() == ou,
                self.connections.deep_view() =~= oc.subrange(k, oc.len() as int),
                kept.deep_view() =~= fresh_conns(oc.take(k), nowi, ti),
                removed as int == k - fresh_conns(oc.take(k), nowi, ti).len(),
                fresh_conns(oc.take(k), nowi, ti).len() <= k,
            decreases self.connections@.len(),
        {
            proof {
                assert(0 <= k < oc.len());
                assert(self.connections.deep_view()[0] == oc.subrange(k, oc.len() as int)[0]);
                assert(self.connections.deep_view()[0] == self.connections@[0].deep_view());
            }
            let ghost pre_raw = self.connections@;
            let ghost pre_view = self.connections.deep_view();
            let e = self.connections.remove(0);
            proof {
                assert(e@ == oc[k]);
                assert(oc.take(k + 1).drop_last() =~= oc.take(k));
                assert(oc.take(k + 1).last() == oc[k]);
            }
            let last = e.connection.last_activity;
            let el: i128 = if (now as i128) >= (last as i128) {
                (now as i128) - (last as i128)
            } else {
                0
            };
            if el > (timeout_seconds as i128) || timeout_seconds == 0 {
                proof {
                    assert(is_stale(oc[k], nowi, ti));
                }
                removed = removed + 1;
            } else {
                proof {
                    assert(!is_stale(oc[k], nowi, ti));
                }
                kept.push(e);
                proof {
                    assert(kept.deep_view() =~= fresh_conns(oc.take(k + 1), nowi, ti));
                }
            }
            proof {
                k = k + 1;
                assert forall|i2: int|
                    0 <= i2 < self.connections@.len() implies self.connections.deep_view()[i2]
                    == oc.subrange(k, oc.len() as int)[i2] by {
                    assert(self.connections@[i2] == pre_raw[i2 + 1]);
                    assert(pre_view[i2 + 1] == pre_raw[i2 + 1].deep_view());
                }
                assert(self.connections.deep_view() =~= oc.subrange(k, oc.len() as int));
            }
        }
        proof {
            assert(oc.take(k) =~= oc);
        }
        self.connections = kept;
        removed
    }

    /// Second sweep pass: keeps the user entries that still name a
    /// surviving connection and returns the users that just went offline,
    /// in entry order. `oc` is the connection map as it stood before the
    /// first pass.
    #[verifier::loop_isolation(false)]
    #[verifier::rlimit(100)]
    #[verifier::spinoff_prover]
    fn sweep_users(
        &mut self,
        Ghost(oc): Ghost<Seq<ActiveConnectionView>>,
        now: Timestamp,
        timeout_seconds: u64,
    ) -> (offline: Vec<Id>)
        requires
            old(self).conns() == fresh_conns(oc, now as int, timeout_seconds as int),
        ensures
            final (self).conns() == old(self).conns(),
            final (self).users() == fresh_users(
                old(self).users(),
                oc,
                now as int,
                timeout_seconds as int,
            ),
            offline@ == offline_users(old(self).users(), oc, now as int, timeout_seconds as int),
    {
        let ghost ou = self.users();
        let ghost nowi = now as int;
        let ghost ti = timeout_seconds as int;
        let ghost fc = fresh_conns(oc, nowi, ti);
        proof {
            lemma_fresh_conns_elems(oc, nowi, ti);
        }
        let mut new_users: Vec<UserEntry> = Vec::new();
        let mut offline: Vec<Id> = Vec::new();
        let ghost mut k2: int = 0;
        while self.user_connections.len() > 0
            invariant
                0 <= k2 <= ou.len(),
                self.connections.deep_view() =~= fc,
                self.user_connections.deep_view() =~= ou.subrange(k2, ou.len() as int),
                new_users.deep_view() =~= fresh_users(ou.take(k2), oc, nowi, ti),
                offline@ =~= offline_users(ou.take(k2), oc, nowi, ti),
            decreases self.user_connections@.len(),
        {
            proof {
                assert(0 <= k2 < ou.len());
                assert(self.user_connections.deep_view()[0] == ou.subrange(
                    k2,
                    ou.len() as int,
                )[0]);
                assert(self.user_connections.deep_view()[0]
                    == self.user_connections@[0].deep_view());
            }
            let ghost upre_raw = self.user_connections@;
            let ghost upre_view = self.user_connections.deep_view();
            let mut e = self.user_connections.remove(0);
            let ghost entry = ou[k2];
            proof {
                assert(e@ == entry);
                assert(ou.take(k2 + 1).drop_last() =~= ou.take(k2));
                assert(ou.take(k2 + 1).last() == ou[k2]);
            }
            let ghost ids = entry.connection_ids;
            let mut kept_ids: Vec<String> = Vec::new();
            let ghost mut a: int = 0;
            while e.connection_ids.len() > 0
                invariant
                    0 <= a <= ids.len(),
                    e.user_id == entry.user_id,
                    self.connections.deep_view() =~= fc,
                    e.connection_ids.deep_view() =~= ids.subrange(a, ids.len() as int),
                    kept_ids.deep_view() =~= fresh_ids(ids.take(a), oc, nowi, ti),
                decreases e.connection_ids@.len(),
            {
                proof {
                    assert(0 <= a < ids.len());
                    assert(e.connection_ids.deep_view()[0] == ids.subrange(
                        a,
                        ids.len() as int,
                    )[0]);
                    assert(e.connection_ids.deep_view()[0]
                        == e.connection_ids@[0].deep_view());
                }
                let ghost ipre_raw = e.connection_ids@;
                let ghost ipre_view = e.connection_ids.deep_view();
                let id = e.connection_ids.remove(0);
                proof {
                    assert(id@ == ids[a]);
                    assert(ids.take(a + 1).drop_last() =~= ids.take(a));
                    assert(ids.take(a + 1).last() == ids[a]);
                }
                let present = match self.find_conn_index(id.as_str()) {
                    Some(_) => true,
                    None => false,
                };
                proof {
                    if present {
                        assert(has_conn_id(fc, ids[a]));
                        let j = choose|j: int|
                            0 <= j < fc.len() && fc[j].connection.connection_id == ids[a];
                        let i = choose|i: int|
                            0 <= i < oc.len() && #[trigger] fc[j] == oc[i] && !is_stale(
                                oc[i],
                                nowi,
                                ti,
                            );
                        assert(id_is_fresh(oc, ids[a], nowi, ti));
                    } else {
                        if id_is_fresh(oc, ids[a], nowi, ti) {
                            let i = choose|i: int|
                                0 <= i < oc.len() && (#[trigger] oc[i]).connection.connection_id
                                    == ids[a] && !is_stale(oc[i], nowi, ti);
                            let j = choose|j: int| 0 <= j < fc.len() && #[trigger] fc[j] == oc[i];
                            assert(has_conn_id(fc, ids[a]));
                        }
                    }
                }
                if present {
                    kept_ids.push(id);
                    proof {
                        assert(kept_ids.deep_view() =~= fresh_ids(ids.take(a + 1), oc, nowi, ti));
                    }
                }
                proof {
                    a = a + 1;
                    assert forall|i2: int|
                        0 <= i2 < e.connection_ids@.len() implies e.connection_ids.deep_view()[
                        i2
                    ] == ids.subrange(a, ids.len() as int)[i2] by {
                        assert(e.connection_ids@[i2] == ipre_raw[i2 + 1]);
                        assert(ipre_view[i2 + 1] == ipre_raw[i2 + 1].deep_view());
                    }
                    assert(e.connection_ids.deep_view() =~= ids.subrange(a, ids.len() as int));
                }
            }
            proof {
                assert(ids.take(a) =~= ids);
                assert(kept_ids.deep_view() == fresh_ids(entry.connection_ids, oc, nowi, ti));
                assert(ou.take(k2 + 1).last() == entry);
            }
            if kept_ids.len() > 0 {
                let ghost pre_users = new_users.deep_view();
                new_users.push(UserEntry { user_id: e.user_id, connection_ids: kept_ids });
                proof {
                    assert(fresh_users(ou.take(k2 + 1), oc, nowi, ti) == fresh_users(
                        ou.take(k2),
                        oc,
                        nowi,
                        ti,
                    ).push(
                        UserEntryView {
                            user_id: entry.user_id,
                            connection_ids: fresh_ids(entry.connection_ids, oc, nowi, ti),
                        },
                    ));
                    assert(new_users@.len() == pre_users.len() + 1);
                    assert(new_users.deep_view()[pre_users.len() as int]
                        == (UserEntryView {
                        user_id: entry.user_id,
                        connection_ids: fresh_ids(entry.connection_ids, oc, nowi, ti),
                    }));
                    assert(new_users.deep_view() =~= fresh_users(ou.take(k2 + 1), oc, nowi, ti));
                }
            } else {
                offline.push(e.user_id);
                proof {
                    assert(fresh_ids(entry.connection_ids, oc, nowi, ti).len() == 0);
                    assert(offline_users(ou.take(k2 + 1), oc, nowi, ti) == offline_users(
                        ou.take(k2),
                        oc,
                        nowi,
                        ti,
                    ).push(entry.user_id));
                    assert(offline@ =~= offline_users(ou.take(k2 + 1), oc, nowi, ti));
                }
            }
            proof {
                k2 = k2 + 1;
                assert forall|i2: int|
                    0 <= i2 < self.user_connections@.len() implies self.user_connections.deep_view()[
                    i2
                ] == ou.subrange(k2, ou.len() as int)[i2] by {
                    assert(self.user_connections@[i2] == upre_raw[i2 + 1]);
                    assert(upre_view[i2 + 1] == upre_raw[i2 + 1].deep_view());
                }
                assert(self.user_connections.deep_view() =~= ou.subrange(k2, ou.len() as int));
            }
        }
        proof {
            assert(ou.take(k2) =~= ou);
        }
        self.user_connections = new_users;
        proof {
            assert(self.conns() =~= fc);
            assert(self.users() =~= fresh_users(ou, oc, nowi, ti));
        }
        offline
    }

    /// One synchronous sweep at time `now`: evicts every connection silent
    /// for more than `timeout_seconds`, drops emptied user entries, sends
    /// each departed user's `UserOffline` to the survivors, and returns the
    /// eviction count. A zero timeout clears the registry.
    #[verifier::loop_isolation(false)]
    #[verifier::rlimit(60)]
    #[verifier::spinoff_prover]
    pub fn cleanup_at(&mut self, now: Timestamp, timeout_seconds: u64) -> (r: u64)
        requires
            old(self).wf(),
        ensures
            final (self).wf(),
            final (self).conns() == with_msgs(
                fresh_conns(old(self).conns(), now as int, timeout_seconds as int),
                offline_msgs(
                    old(self).users(),
                    old(self).conns(),
                    now as int,
                    timeout_seconds as int,
                ),
            ),
            final (self).users() == fresh_users(
                old(self).users(),
                old(self).conns(),
                now as int,
                timeout_seconds as int,
            ),
            r as int == old(self).conns().len() - fresh_conns(
                old(self).conns(),
                now as int,
                timeout_seconds as int,
            ).len(),
            timeout_seconds == 0 ==> final (self).conns().len() == 0 && r as int == old(
                self,
            ).conns().len(),
    {
        let ghost oc = self.conns();
        let ghost ou = self.users();
        let ghost nowi = now as int;
        let ghost ti = timeout_seconds as int;
        let removed = self.sweep_connections(now, timeout_seconds);
        let offline = self.sweep_users(Ghost(oc), now, timeout_seconds);
        let ghost fc = fresh_conns(oc, nowi, ti);
        proof {
            lemma_sweep_wf(oc, ou, nowi, ti);
        }
        let ghost off = offline_users(ou, oc, nowi, ti);
        let ghost msgs = offline_msgs(ou, oc, nowi, ti);
        let m = offline.len();
        let mut x: usize = 0;
        proof {
            assert(msgs.take(0) =~= Seq::<MessageView>::empty());
            assert forall|j: int|
                0 <= j < fc.len() implies (#[trigger] self.conns()[j]).queue == fc[j].queue
                + msgs.take(0) by {
                assert(fc[j].queue + Seq::<MessageView>::empty() =~= fc[j].queue);
            }
        }
        while x < m
            invariant
                m == off.len(),
                0 <= x <= m,
                offline@ =~= off,
                msgs == off.map_values(|u: Id| offline_msg(u)),
                self.wf(),
                self.users() == fresh_users(ou, oc, nowi, ti),
                self.conns().len() == fc.len(),
                forall|j: int|
                    0 <= j < fc.len() ==> (#[trigger] self.conns()[j]).connection == fc[
                        j
                    ].connection,
                forall|j: int|
                    0 <= j < fc.len() ==> (#[trigger] self.conns()[j]).queue == fc[j].queue
                        + msgs.take(x as int),
            decreases m - x,
        {
            let ghost mid = self.conns();
            let u = offline[x];
            let username = String::from_str("User");
            let _ = self.broadcast(WebSocketMessage::UserOffline { user_id: u, username });
            proof {
                assert forall|j: int|
                    0 <= j < fc.len() implies (#[trigger] self.conns()[j]).queue == fc[j].queue
                    + msgs.take(x + 1) by {
                    assert(self.conns()[j].queue == mid[j].queue.push(offline_msg(u)));
                    assert(msgs[x as int] == offline_msg(off[x as int]));
                    assert(msgs.take(x + 1) =~= msgs.take(x as int).push(offline_msg(u)));
                    assert(self.conns()[j].queue =~= fc[j].queue + msgs.take(x + 1));
                }
            }
            x = x + 1;
        }
        proof {
            assert(msgs.take(m as int) =~= msgs);
            assert forall|j: int|
                0 <= j < fc.len() implies #[trigger] self.conns()[j] == with_msgs(fc, msgs)[j] by {
                assert(self.conns()[j].queue == fc[j].queue + msgs);
            }
            assert(self.conns() =~= with_msgs(fc, msgs));
            if timeout_seconds == 0 {
                lemma_sweep_zero_clears(oc, nowi);
            }
        }
        removed
    }

    /// One synchronous sweep against the wall clock. Whatever instant the
    /// clock returns, a zero timeout clears the registry and the count says
    /// how many connections were evicted.
    pub fn cleanup_inactive_connections(&mut self, timeout_seconds: u64) -> (r: u64)
        requires
            old(self).wf(),
        ensures
            final (self).wf(),
            exists|now: int|
                {
                    &&& final (self).conns() == with_msgs(
                        fresh_conns(old(self).conns(), now, timeout_seconds as int),
                        #[trigger] offline_msgs(
                            old(self).users(),
                            old(self).conns(),
                            now,
                            timeout_seconds as int,
                        ),
                    )
                    &&& final (self).users() == fresh_users(
                        old(self).users(),
                        old(self).conns(),
                        now,
                        timeout_seconds as int,
                    )
                    &&& r as int == old(self).conns().len() - fresh_conns(
                        old(self).conns(),
                        now,
                        timeout_seconds as int,
                    ).len()
                },
            timeout_seconds == 0 ==> final (self).conns().len() == 0 && r as int == old(
                self,
            ).conns().len(),
    {
        let now = crate::core_types::now_ts();
        self.cleanup_at(now, timeout_seconds)
    }

    /// Enqueues the in-band authentication reply: `success` as the
    /// collaborator decided, with the matching text. `NotFound` when the
    /// connection is gone; the connection is never closed over a failed
    /// authentication.
    pub fn complete_authentication(&mut self, connection_id: &str, success: bool) -> (r:
        ServiceResult<()>)
        requires
            old(self).wf(),
        ensures
            final (self).wf(),
            final (self).users() == old(self).users(),
            final (self).conns().len() == old(self).conns().len(),
            forall|j: int|
                0 <= j < old(self).conns().len() ==> (#[trigger] final (self).conns()[j]).connection
                    == old(self).conns()[j].connection,
            forall|j: int|
                0 <= j < old(self).conns().len() ==> (#[trigger] final (self).conns()[j]).queue
                    == (if old(self).conns()[j].connection.connection_id == connection_id@ {
                    old(self).conns()[j].queue.push(
                        MessageView::AuthenticationResult {
                            success,
                            message: if success {
                                "Authenticated successfully"@
                            } else {
                                "Authentication failed"@
                            },
                        },
                    )
                } else {
                    old(self).conns()[j].queue
                }),
            (r matches Ok(())) <==> has_conn_id(old(self).conns(), connection_id@),
            r matches Err(e) ==> e matches Error::NotFound(_),
    {
        let message = if success {
            String::from_str("Authenticated successfully")
        } else {
            String::from_str("Authentication failed")
        };
        self.send_to_connection(
            connection_id,
            WebSocketMessage::AuthenticationResult { success, message },
        )
    }

    /// One inbound text frame, decided at time `now`. A malformed frame is
    /// rejected as `Validation` and changes nothing — the connection stays
    /// active and its activity stamp does not advance. A `Ping` is answered
    /// with a `Pong` on the same connection's queue. An `Authenticate` is
    /// handed back to the caller, who asks the authentication collaborator
    /// and then calls `complete_authentication`. Every other well-formed
    /// message is accepted without further action. Every well-formed frame
    /// refreshes the connection's activity stamp.
    #[verifier::loop_isolation(false)]
    #[verifier::rlimit(60)]
    #[verifier::spinoff_prover]
    pub fn handle_incoming_at(&mut self, connection_id: &str, text: &str, now: Timestamp) -> (r:
        ServiceResult<InboundOutcome>)
        requires
            old(self).wf(),
        ensures
            final (self).wf(),
            final (self).users() == old(self).users(),
            match sp_message(text@) {
                None => {
                    &&& final (self).conns() == old(self).conns()
                    &&& r matches Err(Error::Validation(_))
                },
                Some(mv) => match mv {
                    MessageView::Ping => {
                        if has_conn_id(old(self).conns(), connection_id@) {
                            &&& final (self).conns() == touch_map(
                                pong_map(old(self).conns(), connection_id@),
                                connection_id@,
                                now as int,
                            )
                            &&& r matches Ok(InboundOutcome::Handled)
                        } else {
                            &&& final (self).conns() == old(self).conns()
                            &&& r matches Err(Error::NotFound(_))
                        }
                    },
                    MessageView::Authenticate { token } => {
                        &&& final (self).conns() == touch_map(
                            old(self).conns(),
                            connection_id@,
                            now as int,
                        )
                        &&& (r matches Ok(InboundOutcome::AuthRequest { token: t }) && t@
                            == token)
                    },
                    _ => {
                        &&& final (self).conns() == touch_map(
                            old(self).conns(),
                            connection_id@,
                            now as int,
                        )
                        &&& r matches Ok(InboundOutcome::Accepted)
                    },
                },
            },
    {
        let ghost oc = self.conns();
        let decoded = decode_message(text);
        match decoded {
            None => {
                Err(Error::Validation(String::from_str("malformed frame")))
            },
            Some(message) => {
                match message {
                    WebSocketMessage::Ping => {
                        let sent = self.send_to_connection(connection_id, WebSocketMessage::Pong);
                        match sent {
                            Ok(()) => {
                                let ghost mid = self.conns();
                                let _ = self.touch_activity(connection_id, now);
                                proof {
                                    assert(mid =~= pong_map(oc, connection_id@));
                                    assert(self.conns() =~= touch_map(
                                        pong_map(oc, connection_id@),
                                        connection_id@,
                                        now as int,
                                    ));
                                }
                                Ok(InboundOutcome::Handled)
                            },
                            Err(e) => Err(e),
                        }
                    },
                    WebSocketMessage::Authenticate { token } => {
                        let _ = self.touch_activity(connection_id, now);
                        proof {
                            assert(self.conns() =~= touch_map(
                                oc,
                                connection_id@,
                                now as int,
                            ));
                        }
                        Ok(InboundOutcome::AuthRequest { token })
                    },
                    _ => {
                        let _ = self.touch_activity(connection_id, now);
                        proof {
                            assert(self.conns() =~= touch_map(
                                oc,
                                connection_id@,
                                now as int,
                            ));
                        }
                        Ok(InboundOutcome::Accepted)
                    },
                }
            },
        }
    }

    /// One inbound text frame against the wall clock. Whatever instant the
    /// clock returned: a malformed frame is rejected as `Validation` and
    /// changes nothing, a `Ping` is answered on the connection's own queue,
    /// an `Authenticate` is handed back for the collaborator, and every
    /// other well-formed message is accepted; well-formed frames refresh
    /// the activity stamp with the clock's instant.
    pub fn handle_incoming_message(&mut self, connection_id: &str, text: &str) -> (r:
        ServiceResult<InboundOutcome>)
        requires
            old(self).wf(),
        ensures
            final (self).wf(),
            final (self).users() == old(self).users(),
            match sp_message(text@) {
                None => {
                    &&& final (self).conns() == old(self).conns()
                    &&& r matches Err(Error::Validation(_))
                },
                Some(mv) => match mv {
                    MessageView::Ping => {
                        if has_conn_id(old(self).conns(), connection_id@) {
                            &&& (exists|now: int|
                                final (self).conns() == #[trigger] touch_map(
                                    pong_map(old(self).conns(), connection_id@),
                                    connection_id@,
                                    now,
                                ))
                            &&& r matches Ok(InboundOutcome::Handled)
                        } else {
                            &&& final (self).conns() == old(self).conns()
                            &&& r matches Err(Error::NotFound(_))
                        }
                    },
                    MessageView::Authenticate { token } => {
                        &&& (exists|now: int|
                            final (self).conns() == #[trigger] touch_map(
                                old(self).conns(),
                                connection_id@,
                                now,
                            ))
                        &&& (r matches Ok(InboundOutcome::AuthRequest { token: t }) && t@
                            == token)
                    },
                    _ => {
                        &&& (exists|now: int|
                            final (self).conns() == #[trigger] touch_map(
                                old(self).conns(),
                                connection_id@,
                                now,
                            ))
                        &&& r matches Ok(InboundOutcome::Accepted)
                    },
                },
            },
    {
        let now = crate::core_types::now_ts();
        self.handle_incoming_at(connection_id, text, now)
    }
}

/// The identifiers listed under user `u`, as a set.
pub open spec fn user_conn_id_set(us: Seq<UserEntryView>, u: Id) -> Set<Seq<char>> {
    Set::new(|id: Seq<char>| listed(us, id, u))
}

/// The identifiers of the registered connections of user `u`, as a set.
pub open spec fn conns_of_user_id_set(c: Seq<ActiveConnectionView>, u: Id) -> Set<Seq<char>> {
    Set::new(|id: Seq<char>| backs(c, id, u))
}

/// However registrations and deregistrations interleave, a well-formed
/// registry's user index lists for each user exactly the identifiers of
/// that user's registered connections.
pub proof fn lemma_user_index_exact(r: InMemoryWebSocketService, u: Id)
    requires
        r.wf(),
    ensures
        user_conn_id_set(r.users(), u) == conns_of_user_id_set(r.conns(), u),
{
    let us = r.users();
    let c = r.conns();
    assert forall|id: Seq<char>|
        user_conn_id_set(us, u).contains(id) == conns_of_user_id_set(c, u).contains(id) by {
        if listed(us, id, u) {
            let (k, a) = choose|k: int, a: int|
                0 <= k < us.len() && us[k].user_id == u && 0 <= a < us[k].connection_ids.len()
                    && #[trigger] us[k].connection_ids[a] == id;
            assert(backs(c, us[k].connection_ids[a], us[k].user_id));
        }
        if backs(c, id, u) {
            let ci = choose|ci: int|
                0 <= ci < c.len() && c[ci].connection.connection_id == id
                    && c[ci].connection.user_id == Some(u);
            assert(listed(us, c[ci].connection.connection_id, u));
        }
    }
    assert(user_conn_id_set(us, u) =~= conns_of_user_id_set(c, u));
}

/// An offline user owns no registered connection, so a send addressed to
/// that user finds no queue to extend: together with the contract of
/// `send_to_user`, such a call enqueues nothing and still succeeds.
pub proof fn lemma_offline_user_has_no_connection(r: InMemoryWebSocketService, u: Id)
    requires
        r.wf(),
        !has_user(r.users(), u),
    ensures
        forall|j: int|
            0 <= j < r.conns().len() ==> (#[trigger] r.conns()[j]).connection.user_id != Some(u),
{
    let c = r.conns();
    let us = r.users();
    assert forall|j: int|
        0 <= j < c.len() implies (#[trigger] c[j]).connection.user_id != Some(u) by {
        if c[j].connection.user_id == Some(u) {
            assert(listed(us, c[j].connection.connection_id, u));
            let (k, a) = choose|k: int, a: int|
                0 <= k < us.len() && us[k].user_id == u && 0 <= a < us[k].connection_ids.len()
                    && #[trigger] us[k].connection_ids[a] == c[j].connection.connection_id;
            assert(has_user(us, u));
        }
    }
}

/// A queue after enqueuing the messages of `ms` one at a time, in order.
pub open spec fn enqueue_all(q: Seq<MessageView>, ms: Seq<MessageView>) -> Seq<MessageView>
    decreases ms.len(),
{
    if ms.len() == 0 {
        q
    } else {
        enqueue_all(q.push(ms[0]), ms.skip(1))
    }
}

/// Messages enqueued to one connection one at a time are observed by its
/// writer in enqueue order: repeated appends amount to concatenation, so a
/// full drain returns them first-in first-out.
pub proof fn lemma_fifo_order(q: Seq<MessageView>, ms: Seq<MessageView>)
    ensures
        enqueue_all(q, ms) == q + ms,
    decreases ms.len(),
{
    if ms.len() == 0 {
        assert(q + ms =~= q);
    } else {
        lemma_fifo_order(q.push(ms[0]), ms.skip(1));
        assert(q.push(ms[0]) + ms.skip(1) =~= q + ms);
    }
}

} // verus!