use crate::cache::{live_entries, lookup};
use crate::refresh::{encoding, decoding, RefreshModel};
use crate::types::{added_node_id, lost_node_id, Authority, DataIdentifier, MessageId, XorName, STORE_REDUNDANCY};
use vstd::prelude::*;

verus! {

/// A message that the node asks the overlay to send, as plain values.
pub enum ActionModel {
    GetRequest { src: Authority, dst: Authority, data_id: DataIdentifier, id: MessageId },
    GetSuccess { src: Authority, dst: Authority, data: (XorName, Seq<u8>), id: MessageId },
    GetFailure { src: Authority, dst: Authority, data_id: DataIdentifier, text: Seq<u8>, id: MessageId },
    PutRequest { src: Authority, dst: Authority, data: (XorName, Seq<u8>), id: MessageId },
    PutSuccess { src: Authority, dst: Authority, data_id: DataIdentifier, id: MessageId },
    RefreshRequest { src: Authority, dst: Authority, content: Seq<u8>, id: MessageId },
}

/// The state of a node, as plain values. The `*_names` sequences list the keys of the
/// matching map in the order in which they were first inserted.
pub struct NodeModel {
    /// Where the replicas of each data item live.
    pub replicas: Map<XorName, Seq<XorName>>,
    pub replica_names: Seq<XorName>,
    /// The `Get` requests for each data item that wait on a fan-out.
    pub pending: Map<XorName, Seq<(Authority, MessageId)>>,
    /// The data items held here.
    pub store: Map<XorName, (XorName, Seq<u8>)>,
    pub store_names: Seq<XorName>,
    /// The account counter of each client.
    pub accounts: Map<XorName, u64>,
    pub account_names: Seq<XorName>,
    /// Where the success response of each relayed `Put` goes.
    pub cache: Map<MessageId, (Authority, Authority, u64)>,
}

/// `names` lists the keys of a map with domain `dom`, each once.
pub open spec fn lists_keys(names: Seq<XorName>, dom: Set<XorName>) -> bool {
    &&& names.no_duplicates()
    &&& forall|k: XorName| dom.contains(k) <==> names.contains(k)
}

/// The node's invariant: the key lists match their maps, and each replica set holds
/// distinct peers, at most `STORE_REDUNDANCY` of them.
pub open spec fn model_wf(m: NodeModel) -> bool {
    &&& lists_keys(m.replica_names, m.replicas.dom())
    &&& lists_keys(m.store_names, m.store.dom())
    &&& lists_keys(m.account_names, m.accounts.dom())
    &&& forall|k: XorName| #[trigger]
        m.replicas.contains_key(k) ==> m.replicas[k].len() <= STORE_REDUNDANCY
            && m.replicas[k].no_duplicates()
}

/// The key list after an insert of `k`.
pub open spec fn names_after_insert(names: Seq<XorName>, k: XorName) -> Seq<XorName> {
    if names.contains(k) {
        names
    } else {
        names.push(k)
    }
}

/// The payload of a `GetFailure` for data that is not known here.
pub open spec fn not_found_text() -> Seq<u8> {
    seq![68u8, 97u8, 116u8, 97u8, 32u8, 110u8, 111u8, 116u8, 32u8, 102u8, 111u8, 117u8, 110u8, 100u8]
}

/// The replica set for a new data item: the first `STORE_REDUNDANCY` distinct members of
/// its close group, in order.
pub open spec fn replica_set(close_group: Seq<XorName>) -> Seq<XorName>
    decreases close_group.len(),
{
    if close_group.len() == 0 {
        Seq::empty()
    } else {
        let t = replica_set(close_group.drop_last());
        if t.len() < STORE_REDUNDANCY && !t.contains(close_group.last()) {
            t.push(close_group.last())
        } else {
            t
        }
    }
}

/// `s` with every occurrence of `x` taken out.
pub open spec fn without(s: Seq<XorName>, x: XorName) -> Seq<XorName>
    decreases s.len(),
{
    if s.len() == 0 {
        s
    } else {
        let t = without(s.drop_last(), x);
        if s.last() == x {
            t
        } else {
            t.push(s.last())
        }
    }
}

/// The first member of `close_group` that is not in `holders`.
pub open spec fn first_outside(close_group: Seq<XorName>, holders: Seq<XorName>) -> Option<XorName>
    decreases close_group.len(),
{
    if close_group.len() == 0 {
        None
    } else if !holders.contains(close_group[0]) {
        Some(close_group[0])
    } else {
        first_outside(close_group.drop_first(), holders)
    }
}

/// The names, in the order of `names`, whose replica set in `r` lists `lost`.
pub open spec fn holding(names: Seq<XorName>, r: Map<XorName, Seq<XorName>>, lost: XorName) -> Seq<XorName>
    decreases names.len(),
{
    if names.len() == 0 {
        Seq::empty()
    } else {
        let t = holding(names.drop_last(), r, lost);
        if r[names.last()].contains(lost) {
            t.push(names.last())
        } else {
            t
        }
    }
}

/// A `Get` request for `data_id` from `src`, addressed to `dst`.
pub open spec fn get_step(
    m: NodeModel,
    data_id: DataIdentifier,
    id: MessageId,
    src: Authority,
    dst: Authority,
) -> (NodeModel, Seq<ActionModel>) {
    let n = data_id.name();
    let failure = ActionModel::GetFailure { src: dst, dst: src, data_id, text: not_found_text(), id };
    match dst {
        Authority::NaeManager(_) => if m.replicas.contains_key(n) {
            let queue = if m.pending.contains_key(n) {
                m.pending[n]
            } else {
                Seq::empty()
            };
            let acts = if queue.len() > 0 {
                Seq::empty()
            } else {
                get_requests(m.replicas[n], dst, data_id, id)
            };
            (NodeModel { pending: m.pending.insert(n, queue.push((src, id))), ..m }, acts)
        } else {
            (m, seq![failure])
        },
        Authority::ManagedNode(_) => if m.store.contains_key(n) {
            (m, seq![ActionModel::GetSuccess { src: dst, dst: src, data: m.store[n], id }])
        } else {
            (m, seq![failure])
        },
        _ => (m, Seq::empty()),
    }
}

/// The `GetRequest`s that ask each of `holders` for `data_id`.
pub open spec fn get_requests(
    holders: Seq<XorName>,
    src: Authority,
    data_id: DataIdentifier,
    id: MessageId,
) -> Seq<ActionModel> {
    holders.map_values(
        |p: XorName| ActionModel::GetRequest { src, dst: Authority::ManagedNode(p), data_id, id },
    )
}

/// The `PutRequest`s that store `data` on each of `holders`.
pub open spec fn put_requests(
    holders: Seq<XorName>,
    src: Authority,
    data: (XorName, Seq<u8>),
    id: MessageId,
) -> Seq<ActionModel> {
    holders.map_values(
        |p: XorName| ActionModel::PutRequest { src, dst: Authority::ManagedNode(p), data, id },
    )
}

/// A `Put` request of `data` from `src`, addressed to `dst`; `close_group` is the close group
/// of the data's name as the overlay gives it, and `now` the time in milliseconds. A
/// `ClientManager` drops its expired cache entries before it records the new one.
pub open spec fn put_step(
    m: NodeModel,
    data: (XorName, Seq<u8>),
    id: MessageId,
    src: Authority,
    dst: Authority,
    close_group: Option<Seq<XorName>>,
    now: u64,
) -> (NodeModel, Seq<ActionModel>) {
    let n = data.0;
    let ack = ActionModel::PutSuccess { src: dst, dst: src, data_id: DataIdentifier::Plain(n), id };
    match dst {
        Authority::NaeManager(_) => if m.replicas.contains_key(n) || close_group is None {
            (m, seq![ack])
        } else {
            let holders = replica_set(close_group->0);
            (
                NodeModel {
                    replicas: m.replicas.insert(n, holders),
                    replica_names: m.replica_names.push(n),
                    store: m.store.insert(n, data),
                    store_names: names_after_insert(m.store_names, n),
                    ..m
                },
                seq![ack] + put_requests(holders, dst, data, id) + seq![ack],
            )
        },
        Authority::ClientManager(_) => (
            NodeModel { cache: live_entries(m.cache, now).insert(id, (src, dst, now)), ..m },
            seq![
                ActionModel::PutRequest {
                    src: dst,
                    dst: Authority::NaeManager(n),
                    data,
                    id,
                }
            ],
        ),
        _ => (m, Seq::empty()),
    }
}

/// A refresh payload `b`: the entry it carries overwrites the matching table entry; a
/// payload that does not decode changes nothing.
pub open spec fn refresh_step(m: NodeModel, b: Seq<u8>) -> NodeModel {
    match decoding(b) {
        Some(RefreshModel::Client { client_name, data }) => NodeModel {
            accounts: m.accounts.insert(client_name, data),
            account_names: names_after_insert(m.account_names, client_name),
            ..m
        },
        Some(RefreshModel::NaeManager { data_name, data }) => NodeModel {
            store: m.store.insert(data_name, data),
            store_names: names_after_insert(m.store_names, data_name),
            ..m
        },
        None => m,
    }
}

/// A `PutSuccess` for `id` that reaches the node as a `ClientManager` at time `now`: it is
/// relayed to the requester where a live entry for `id` is cached, and the entry leaves.
pub open spec fn response_step(
    m: NodeModel,
    data_id: DataIdentifier,
    id: MessageId,
    now: u64,
) -> (NodeModel, Seq<ActionModel>) {
    let acts = match lookup(m.cache, id, now) {
        Some(pair) => seq![ActionModel::PutSuccess { src: pair.1, dst: pair.0, data_id, id }],
        None => Seq::empty(),
    };
    (NodeModel { cache: m.cache.remove(id), ..m }, acts)
}

/// The refresh of one client account.
pub open spec fn client_refresh(m: NodeModel, k: XorName, id: MessageId) -> ActionModel {
    ActionModel::RefreshRequest {
        src: Authority::ClientManager(k),
        dst: Authority::ClientManager(k),
        content: encoding(RefreshModel::Client { client_name: k, data: m.accounts[k] }),
        id,
    }
}

/// The refresh of one stored data item.
pub open spec fn data_refresh(k: XorName, data: (XorName, Seq<u8>), id: MessageId) -> ActionModel {
    ActionModel::RefreshRequest {
        src: Authority::NaeManager(k),
        dst: Authority::NaeManager(k),
        content: encoding(RefreshModel::NaeManager { data_name: k, data }),
        id,
    }
}

/// When `name` joins: one refresh per client account, then one per stored data item.
pub open spec fn node_added_actions(m: NodeModel, name: XorName) -> Seq<ActionModel> {
    m.account_names.map_values(|k: XorName| client_refresh(m, k, added_node_id(name)))
        + m.store_names.map_values(|k: XorName| data_refresh(k, m.store[k], added_node_id(name)))
}

/// When `lost` leaves: it is taken out of every replica set, and the names of the sets that
/// listed it come back, for repair.
pub open spec fn node_lost_step(m: NodeModel, lost: XorName) -> (NodeModel, Seq<XorName>) {
    (
        NodeModel {
            replicas: Map::new(
                |k: XorName| m.replicas.contains_key(k),
                |k: XorName| without(m.replicas[k], lost),
            ),
            ..m
        },
        holding(m.replica_names, m.replicas, lost),
    )
}

/// The repair of the replica set of `data_name` after `lost` left: where the set is short,
/// the item is held here and the close group has a member outside the set, the first such
/// member gets a copy and joins the set, and the group hears of it by a refresh.
pub open spec fn repair_step(
    m: NodeModel,
    data_name: XorName,
    lost: XorName,
    close_group: Option<Seq<XorName>>,
) -> (NodeModel, Seq<ActionModel>) {
    let id = lost_node_id(lost);
    if m.replicas.contains_key(data_name) && m.replicas[data_name].len() < STORE_REDUNDANCY
        && m.store.contains_key(data_name) && close_group is Some && first_outside(
        close_group->0,
        m.replicas[data_name],
    ) is Some {
        let p = first_outside(close_group->0, m.replicas[data_name])->0;
        let data = m.store[data_name];
        (
            NodeModel {
                replicas: m.replicas.insert(data_name, m.replicas[data_name].push(p)),
                ..m
            },
            seq![
                ActionModel::PutRequest {
                    src: Authority::NaeManager(data_name),
                    dst: Authority::ManagedNode(p),
                    data,
                    id,
                },
                data_refresh(data_name, data, id),
            ],
        )
    } else {
        (m, Seq::empty())
    }
}

/// The replica set of `data_name`, empty where there is none.
pub open spec fn holders_of(m: NodeModel, data_name: XorName) -> Seq<XorName> {
    if m.replicas.contains_key(data_name) {
        m.replicas[data_name]
    } else {
        Seq::empty()
    }
}

/// Whether `add_dm` admits `dm_name` as a holder of `data_name`.
pub open spec fn admits(
    m: NodeModel,
    data_name: XorName,
    dm_name: XorName,
    close_group: Option<Seq<XorName>>,
) -> bool {
    &&& !holders_of(m, data_name).contains(dm_name)
    &&& close_group is Some
    &&& close_group->0.contains(dm_name)
    &&& holders_of(m, data_name).len() < STORE_REDUNDANCY
}

/// Adding `dm_name` as a holder of `data_name`.
pub open spec fn add_dm_step(
    m: NodeModel,
    data_name: XorName,
    dm_name: XorName,
    close_group: Option<Seq<XorName>>,
) -> (NodeModel, bool) {
    if admits(m, data_name, dm_name, close_group) {
        (
            NodeModel {
                replicas: m.replicas.insert(data_name, holders_of(m, data_name).push(dm_name)),
                replica_names: names_after_insert(m.replica_names, data_name),
                ..m
            },
            true,
        )
    } else {
        (m, false)
    }
}

proof fn lemma_push_contains(s: Seq<XorName>, x: XorName)
    ensures
        forall|y: XorName| #[trigger] s.push(x).contains(y) <==> s.contains(y) || y == x,
        s.no_duplicates() && !s.contains(x) ==> s.push(x).no_duplicates(),
{
    assert forall|y: XorName| #[trigger] s.push(x).contains(y) <==> s.contains(y) || y == x by {
        if s.contains(y) {
            let i = choose|i: int| 0 <= i < s.len() && s[i] == y;
            assert(s.push(x)[i] == y);
        }
        if y == x {
            assert(s.push(x)[s.len() as int] == y);
        }
        if s.push(x).contains(y) && y != x {
            let i = choose|i: int| 0 <= i < s.push(x).len() && s.push(x)[i] == y;
            assert(s[i] == y);
        }
    }
    if s.no_duplicates() && !s.contains(x) {
        assert forall|i: int, j: int| 0 <= i < j < s.push(x).len() implies s.push(x)[i] != s.push(x)[j] by {
            if j == s.len() {
                assert(s.contains(s[i]));
            }
        }
    }
}

proof fn lemma_drop_last(s: Seq<XorName>)
    requires
        s.len() > 0,
    ensures
        s.drop_last().push(s.last()) == s,
{
    assert(s.drop_last().push(s.last()) =~= s);
}

proof fn lemma_names_after_insert(names: Seq<XorName>, dom: Set<XorName>, k: XorName)
    requires
        lists_keys(names, dom),
    ensures
        lists_keys(names_after_insert(names, k), dom.insert(k)),
{
    lemma_push_contains(names, k);
}

/// A replica set for a new item holds distinct members of the close group, at most
/// `STORE_REDUNDANCY` of them.
pub proof fn lemma_replica_set(close_group: Seq<XorName>)
    ensures
        replica_set(close_group).len() <= STORE_REDUNDANCY,
        replica_set(close_group).no_duplicates(),
        forall|p: XorName| replica_set(close_group).contains(p) ==> close_group.contains(p),
    decreases close_group.len(),
{
    if close_group.len() > 0 {
        let c = close_group.drop_last();
        lemma_replica_set(c);
        lemma_drop_last(close_group);
        lemma_push_contains(c, close_group.last());
        let t = replica_set(c);
        lemma_push_contains(t, close_group.last());
    }
}

/// For a close group without repeats, the replica set is the group cut to its first
/// `STORE_REDUNDANCY` members.
pub proof fn lemma_replica_set_truncates(close_group: Seq<XorName>)
    requires
        close_group.no_duplicates(),
    ensures
        replica_set(close_group) == close_group.take(
            if close_group.len() < STORE_REDUNDANCY {
                close_group.len() as int
            } else {
                STORE_REDUNDANCY as int
            },
        ),
    decreases close_group.len(),
{
    if close_group.len() == 0 {
        assert(close_group.take(0) =~= Seq::<XorName>::empty());
    } else {
        let d = close_group.drop_last();
        assert(d.no_duplicates());
        lemma_replica_set_truncates(d);
        let t = replica_set(d);
        if d.len() < STORE_REDUNDANCY {
            assert(t =~= d);
            assert(!d.contains(close_group.last())) by {
                if d.contains(close_group.last()) {
                    let i = choose|i: int| 0 <= i < d.len() && d[i] == close_group.last();
                    assert(close_group[i] == close_group[close_group.len() - 1]);
                }
            }
            assert(t.push(close_group.last()) =~= close_group.take(close_group.len() as int));
        } else {
            assert(t =~= close_group.take(STORE_REDUNDANCY as int));
        }
    }
}

/// Taking `x` out of `s` leaves the other members, distinct where they were; where `s`
/// listed `x` once, the result is one shorter.
pub proof fn lemma_without(s: Seq<XorName>, x: XorName)
    ensures
        without(s, x).len() <= s.len(),
        forall|y: XorName| without(s, x).contains(y) <==> s.contains(y) && y != x,
        s.no_duplicates() ==> without(s, x).no_duplicates(),
        s.no_duplicates() && s.contains(x) ==> without(s, x).len() == s.len() - 1,
        !s.contains(x) ==> without(s, x) == s,
    decreases s.len(),
{
    if s.len() > 0 {
        let d = s.drop_last();
        lemma_without(d, x);
        lemma_drop_last(s);
        lemma_push_contains(d, s.last());
        let t = without(d, x);
        lemma_push_contains(t, s.last());
        if s.no_duplicates() {
            assert(d.no_duplicates());
            assert(!d.contains(s.last())) by {
                if d.contains(s.last()) {
                    let i = choose|i: int| 0 <= i < d.len() && d[i] == s.last();
                    assert(s[i] == s[s.len() - 1]);
                }
            }
        }
    }
}

/// The first member of the close group outside the holders is a member of the close group
/// and no holder; where there is none, every member is a holder.
pub proof fn lemma_first_outside(close_group: Seq<XorName>, holders: Seq<XorName>)
    ensures
        match first_outside(close_group, holders) {
            Some(p) => close_group.contains(p) && !holders.contains(p),
            None => forall|i: int| 0 <= i < close_group.len() ==> holders.contains(#[trigger] close_group[i]),
        },
    decreases close_group.len(),
{
    if close_group.len() > 0 && holders.contains(close_group[0]) {
        let c = close_group.drop_first();
        lemma_first_outside(c, holders);
        match first_outside(c, holders) {
            Some(p) => {
                let i = choose|i: int| 0 <= i < c.len() && c[i] == p;
                assert(close_group[i + 1] == p);
            },
            None => {
                assert forall|i: int| 0 <= i < close_group.len() implies holders.contains(#[trigger] close_group[i]) by {
                    if i > 0 {
                        assert(close_group[i] == c[i - 1]);
                    }
                }
            },
        }
    } else if close_group.len() > 0 {
        assert(close_group[0] == close_group[0]);
    }
}

/// Each `Get` request keeps the node's invariant.
pub proof fn lemma_get_keeps_wf(m: NodeModel, data_id: DataIdentifier, id: MessageId, src: Authority, dst: Authority)
    requires
        model_wf(m),
    ensures
        model_wf(get_step(m, data_id, id, src, dst).0),
{
}

/// Each `Put` request keeps the node's invariant: in particular no replica set grows past
/// `STORE_REDUNDANCY`.
pub proof fn lemma_put_keeps_wf(
    m: NodeModel,
    data: (XorName, Seq<u8>),
    id: MessageId,
    src: Authority,
    dst: Authority,
    close_group: Option<Seq<XorName>>,
    now: u64,
)
    requires
        model_wf(m),
    ensures
        model_wf(put_step(m, data, id, src, dst, close_group, now).0),
{
    let n = data.0;
    if dst is NaeManager && !m.replicas.contains_key(n) && close_group is Some {
        lemma_replica_set(close_group->0);
        lemma_names_after_insert(m.replica_names, m.replicas.dom(), n);
        lemma_names_after_insert(m.store_names, m.store.dom(), n);
        let m2 = put_step(m, data, id, src, dst, close_group, now).0;
        assert(m2.replica_names == names_after_insert(m.replica_names, n));
    }
}

/// Each refresh keeps the node's invariant.
pub proof fn lemma_refresh_keeps_wf(m: NodeModel, b: Seq<u8>)
    requires
        model_wf(m),
    ensures
        model_wf(refresh_step(m, b)),
{
    match decoding(b) {
        Some(RefreshModel::Client { client_name, data }) => {
            lemma_names_after_insert(m.account_names, m.accounts.dom(), client_name);
        },
        Some(RefreshModel::NaeManager { data_name, data }) => {
            lemma_names_after_insert(m.store_names, m.store.dom(), data_name);
        },
        None => {},
    }
}

/// Each response keeps the node's invariant.
pub proof fn lemma_response_keeps_wf(m: NodeModel, data_id: DataIdentifier, id: MessageId, now: u64)
    requires
        model_wf(m),
    ensures
        model_wf(response_step(m, data_id, id, now).0),
{
}

/// The loss of a peer keeps the node's invariant.
pub proof fn lemma_node_lost_keeps_wf(m: NodeModel, lost: XorName)
    requires
        model_wf(m),
    ensures
        model_wf(node_lost_step(m, lost).0),
{
    let m2 = node_lost_step(m, lost).0;
    assert(m2.replicas.dom() =~= m.replicas.dom());
    assert forall|k: XorName| #[trigger] m2.replicas.contains_key(k) implies m2.replicas[k].len()
        <= STORE_REDUNDANCY && m2.replicas[k].no_duplicates() by {
        lemma_without(m.replicas[k], lost);
    }
}

/// A repair keeps the node's invariant.
pub proof fn lemma_repair_keeps_wf(m: NodeModel, data_name: XorName, lost: XorName, close_group: Option<Seq<XorName>>)
    requires
        model_wf(m),
    ensures
        model_wf(repair_step(m, data_name, lost, close_group).0),
{
    if close_group is Some {
        lemma_first_outside(close_group->0, holders_of(m, data_name));
        let m2 = repair_step(m, data_name, lost, close_group).0;
        if m2 != m {
            let h = m.replicas[data_name];
            let p = first_outside(close_group->0, h)->0;
            assert(m2.replicas.dom() =~= m.replicas.dom());
            lemma_push_contains(h, p);
        }
    }
}

/// Adding a holder keeps the node's invariant.
pub proof fn lemma_add_dm_keeps_wf(m: NodeModel, data_name: XorName, dm_name: XorName, close_group: Option<Seq<XorName>>)
    requires
        model_wf(m),
    ensures
        model_wf(add_dm_step(m, data_name, dm_name, close_group).0),
{
    if admits(m, data_name, dm_name, close_group) {
        let h = holders_of(m, data_name);
        lemma_names_after_insert(m.replica_names, m.replicas.dom(), data_name);
        lemma_push_contains(h, dm_name);
    }
}

/// A second `Put` of the same item to its `NaeManager` group changes nothing and sends
/// nothing but its acknowledgement, once the first one has made the item's replica set.
pub proof fn lemma_put_idempotent(
    m: NodeModel,
    data: (XorName, Seq<u8>),
    id1: MessageId,
    id2: MessageId,
    src: Authority,
    dst: Authority,
    close_group: Seq<XorName>,
    second_close_group: Option<Seq<XorName>>,
    t1: u64,
    t2: u64,
)
    requires
        dst is NaeManager,
    ensures
        ({
            let (m1, a1) = put_step(m, data, id1, src, dst, Some(close_group), t1);
            let (m2, a2) = put_step(m1, data, id2, src, dst, second_close_group, t2);
            &&& m1.replicas.contains_key(data.0)
            &&& m2 == m1
            &&& a2 == seq![
                ActionModel::PutSuccess {
                    src: dst,
                    dst: src,
                    data_id: DataIdentifier::Plain(data.0),
                    id: id2,
                },
            ]
        }),
{
}

/// When a peer that held a full replica set leaves, the repair that follows brings the set
/// back to `STORE_REDUNDANCY` members, where the item is held here and the close group has
/// a member outside what is left of the set.
pub proof fn lemma_loss_then_repair_restores(
    m: NodeModel,
    lost: XorName,
    data_name: XorName,
    close_group: Seq<XorName>,
)
    requires
        model_wf(m),
        m.replicas.contains_key(data_name),
        m.replicas[data_name].len() == STORE_REDUNDANCY,
        m.replicas[data_name].contains(lost),
        m.store.contains_key(data_name),
        exists|p: XorName| close_group.contains(p) && !without(m.replicas[data_name], lost).contains(p),
    ensures
        ({
            let (m1, names) = node_lost_step(m, lost);
            let (m2, acts) = repair_step(m1, data_name, lost, Some(close_group));
            &&& m1.replicas[data_name].len() < STORE_REDUNDANCY
            &&& m2.replicas[data_name].len() == STORE_REDUNDANCY
            &&& acts.len() == 2
        }),
{
    let (m1, names) = node_lost_step(m, lost);
    let h = without(m.replicas[data_name], lost);
    lemma_without(m.replicas[data_name], lost);
    assert(m1.replicas[data_name] == h);
    lemma_first_outside(close_group, h);
    let p = choose|p: XorName| close_group.contains(p) && !h.contains(p);
    if first_outside(close_group, h) is None {
        let i = choose|i: int| 0 <= i < close_group.len() && close_group[i] == p;
        assert(h.contains(close_group[i]));
    }
}

/// `add_dm` admits only a member of the item's current close group, and a rejection leaves
/// the node as it was.
pub proof fn lemma_add_dm_membership(
    m: NodeModel,
    data_name: XorName,
    dm_name: XorName,
    close_group: Option<Seq<XorName>>,
)
    ensures
        add_dm_step(m, data_name, dm_name, close_group).1 ==> close_group is Some
            && close_group->0.contains(dm_name),
        !add_dm_step(m, data_name, dm_name, close_group).1 ==> add_dm_step(
            m,
            data_name,
            dm_name,
            close_group,
        ).0 == m,
{
}

} // verus!
