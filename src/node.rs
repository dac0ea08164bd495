use crate::cache::PutRequestCache;
use crate::model::{
    add_dm_step, get_requests, get_step, holding, lists_keys, model_wf, node_added_actions, node_lost_step,
    not_found_text, put_requests, lemma_put_keeps_wf, lemma_refresh_keeps_wf, lemma_node_lost_keeps_wf, lemma_repair_keeps_wf, lemma_add_dm_keeps_wf, put_step, refresh_step, repair_step, response_step, without,
    ActionModel, NodeModel,
};
use crate::name_map::NameMap;
use crate::refresh::{decode, encode, RefreshContent, DecodeError};
use crate::seqs::{contains_name, first_outside_of, replica_set_of, without_name};
use crate::types::{copy_vec, Authority, Data, DataIdentifier, MessageId, XorName, STORE_REDUNDANCY};
use vstd::prelude::*;

verus! {

/// A message that the node asks the overlay to send.
#[derive(Debug)]
pub enum Action {
    GetRequest { src: Authority, dst: Authority, data_id: DataIdentifier, id: MessageId },
    GetSuccess { src: Authority, dst: Authority, data: Data, id: MessageId },
    GetFailure { src: Authority, dst: Authority, data_id: DataIdentifier, text: Vec<u8>, id: MessageId },
    PutRequest { src: Authority, dst: Authority, data: Data, id: MessageId },
    PutSuccess { src: Authority, dst: Authority, data_id: DataIdentifier, id: MessageId },
    RefreshRequest { src: Authority, dst: Authority, content: Vec<u8>, id: MessageId },
}

impl View for Action {
    type V = ActionModel;

    open spec fn view(&self) -> ActionModel {
        match self {
            Action::GetRequest { src, dst, data_id, id } => ActionModel::GetRequest {
                src: *src,
                dst: *dst,
                data_id: *data_id,
                id: *id,
            },
            Action::GetSuccess { src, dst, data, id } => ActionModel::GetSuccess {
                src: *src,
                dst: *dst,
                data: data@,
                id: *id,
            },
            Action::GetFailure { src, dst, data_id, text, id } => ActionModel::GetFailure {
                src: *src,
                dst: *dst,
                data_id: *data_id,
                text: text@,
                id: *id,
            },
            Action::PutRequest { src, dst, data, id } => ActionModel::PutRequest {
                src: *src,
                dst: *dst,
                data: data@,
                id: *id,
            },
            Action::PutSuccess { src, dst, data_id, id } => ActionModel::PutSuccess {
                src: *src,
                dst: *dst,
                data_id: *data_id,
                id: *id,
            },
            Action::RefreshRequest { src, dst, content, id } => ActionModel::RefreshRequest {
                src: *src,
                dst: *dst,
                content: content@,
                id: *id,
            },
        }
    }
}

/// The messages of a list of actions, as plain values.
pub open spec fn actions_view(v: Seq<Action>) -> Seq<ActionModel> {
    v.map_values(|a: Action| a@)
}

/// A close group as plain values.
pub open spec fn group_view(g: Option<Vec<XorName>>) -> Option<Seq<XorName>> {
    match g {
        Some(v) => Some(v@),
        None => None,
    }
}

/// A request that reaches the node.
#[derive(Debug)]
pub enum Request {
    Get(DataIdentifier, MessageId),
    Put(Data, MessageId),
    Post(Data, MessageId),
    Delete(Data, MessageId),
    GetAccountInfo(MessageId),
    Refresh(Vec<u8>, MessageId),
}

/// A response that reaches the node.
#[derive(Debug)]
pub enum Response {
    GetSuccess(Data, MessageId),
    GetFailure { id: MessageId, data_id: DataIdentifier, external_error_indicator: Vec<u8> },
    PutSuccess(DataIdentifier, MessageId),
    PutFailure { id: MessageId, data_id: DataIdentifier, external_error_indicator: Vec<u8> },
}

/// Whether the node can act on `request` addressed to `dst`; any other pairing breaks the
/// overlay's promise of which authorities address the node.
pub open spec fn request_addressed_rightly(request: Request, dst: Authority) -> bool {
    match request {
        Request::Get(_, _) => dst is NaeManager || dst is ManagedNode,
        Request::Put(_, _) => dst is NaeManager || dst is ClientManager,
        _ => true,
    }
}

/// Whether the node can act on `response` addressed to `dst`.
pub open spec fn response_addressed_rightly(response: Response, dst: Authority) -> bool {
    response is PutSuccess && dst is ClientManager
}

/// The data-management state of a node and the handlers of the events that reach it.
pub struct DataNode {
    dm_accounts: NameMap<Vec<XorName>>,
    client_request_cache: NameMap<Vec<(Authority, MessageId)>>,
    db: NameMap<Data>,
    client_accounts: NameMap<u64>,
    put_request_cache: PutRequestCache,
}

impl View for DataNode {
    type V = NodeModel;

    closed spec fn view(&self) -> NodeModel {
        NodeModel {
            replicas: self.dm_accounts@.map_values(|v: Vec<XorName>| v@),
            replica_names: self.dm_accounts.keys(),
            pending: self.client_request_cache@.map_values(|v: Vec<(Authority, MessageId)>| v@),
            store: self.db@.map_values(|d: Data| d@),
            store_names: self.db.keys(),
            accounts: self.client_accounts@,
            account_names: self.client_accounts.keys(),
            cache: self.put_request_cache@,
        }
    }
}

fn not_found() -> (r: Vec<u8>)
    ensures
        r@ == not_found_text(),
{
    let r = vec![68u8, 97u8, 116u8, 97u8, 32u8, 110u8, 111u8, 116u8, 32u8, 102u8, 111u8, 117u8, 110u8, 100u8];
    assert(r@ =~= not_found_text());
    r
}

fn get_request_actions(holders: &Vec<XorName>, src: Authority, data_id: DataIdentifier, id: MessageId) -> (r: Vec<Action>)
    ensures
        actions_view(r@) == get_requests(holders@, src, data_id, id),
{
    let mut out: Vec<Action> = Vec::new();
    let mut i: usize = 0;
    while i < holders.len()
        invariant
            i <= holders@.len(),
            out@.len() == i,
            actions_view(out@) =~= get_requests(holders@.subrange(0, i as int), src, data_id, id),
        decreases holders@.len() - i,
    {
        let ghost prev = out@;
        out.push(Action::GetRequest { src, dst: Authority::ManagedNode(holders[i]), data_id, id });
        proof {
            let newexp = get_requests(holders@.subrange(0, i + 1), src, data_id, id);
            let oldexp = get_requests(holders@.subrange(0, i as int), src, data_id, id);
            assert forall|k: int| 0 <= k < i + 1 implies actions_view(out@)[k] == newexp[k] by {
                if k < i {
                    assert(out@[k] == prev[k]);
                    assert(actions_view(prev)[k] == oldexp[k]);
                }
            }
            assert(actions_view(out@) =~= newexp);
        }
        i = i + 1;
    }
    assert(holders@.subrange(0, i as int) =~= holders@);
    out
}

fn put_request_actions(holders: &Vec<XorName>, src: Authority, data: &Data, id: MessageId) -> (r: Vec<Action>)
    ensures
        actions_view(r@) == put_requests(holders@, src, data@, id),
{
    let mut out: Vec<Action> = Vec::new();
    let mut i: usize = 0;
    while i < holders.len()
        invariant
            i <= holders@.len(),
            out@.len() == i,
            actions_view(out@) =~= put_requests(holders@.subrange(0, i as int), src, data@, id),
        decreases holders@.len() - i,
    {
        let ghost prev = out@;
        out.push(Action::PutRequest { src, dst: Authority::ManagedNode(holders[i]), data: data.duplicate(), id });
        proof {
            let newexp = put_requests(holders@.subrange(0, i + 1), src, data@, id);
            let oldexp = put_requests(holders@.subrange(0, i as int), src, data@, id);
            assert forall|k: int| 0 <= k < i + 1 implies actions_view(out@)[k] == newexp[k] by {
                if k < i {
                    assert(out@[k] == prev[k]);
                    assert(actions_view(prev)[k] == oldexp[k]);
                }
            }
            assert(actions_view(out@) =~= newexp);
        }
        i = i + 1;
    }
    assert(holders@.subrange(0, i as int) =~= holders@);
    out
}

impl DataNode {
    pub closed spec fn wf(&self) -> bool {
        &&& self.dm_accounts.wf()
        &&& self.client_request_cache.wf()
        &&& self.db.wf()
        &&& self.client_accounts.wf()
        &&& self.put_request_cache.wf()
        &&& model_wf(self@)
    }

    proof fn lemma_model_keys(&self)
        requires
            self.dm_accounts.wf(),
            self.db.wf(),
            self.client_accounts.wf(),
        ensures
            lists_keys(self@.replica_names, self@.replicas.dom()),
            lists_keys(self@.store_names, self@.store.dom()),
            lists_keys(self@.account_names, self@.accounts.dom()),
    {
        self.dm_accounts.lemma_keys();
        self.db.lemma_keys();
        self.client_accounts.lemma_keys();
    }

    /// Every replica set of a well-formed node holds distinct peers, at most
    /// `STORE_REDUNDANCY` of them; each handler keeps the node well-formed.
    pub proof fn lemma_redundancy_bound(&self)
        requires
            self.wf(),
        ensures
            forall|k: XorName| #[trigger]
                self@.replicas.contains_key(k) ==> self@.replicas[k].len() <= STORE_REDUNDANCY
                    && self@.replicas[k].no_duplicates(),
    {
    }

    /// A node that holds nothing yet.
    pub fn new() -> (r: Self)
        ensures
            r.wf(),
            r@.replicas.is_empty(),
            r@.pending.is_empty(),
            r@.store.is_empty(),
            r@.accounts.is_empty(),
            r@.cache.is_empty(),
    {
        let r = DataNode {
            dm_accounts: NameMap::new(),
            client_request_cache: NameMap::new(),
            db: NameMap::new(),
            client_accounts: NameMap::new(),
            put_request_cache: PutRequestCache::new(),
        };
        proof {
            r.lemma_model_keys();
            assert(r@.replicas =~= Map::empty());
            assert(r@.pending =~= Map::empty());
            assert(r@.store =~= Map::empty());
        }
        r
    }

    /// Answers a `Get` for `data_id` from `src`: as its `NaeManager`, by asking each holder
    /// of the item, once for all the requests that come in while the first one waits; as a
    /// `ManagedNode`, with the item held here. Either way with a `GetFailure` where the item
    /// is not known.
    pub fn handle_get_request(&mut self, data_id: DataIdentifier, id: MessageId, src: Authority, dst: Authority) -> (r: Vec<Action>)
        requires
            old(self).wf(),
            dst is NaeManager || dst is ManagedNode,
        ensures
            final(self).wf(),
            (final(self)@, actions_view(r@)) == get_step(old(self)@, data_id, id, src, dst),
    {
        let n = data_id.name();
        match dst {
            Authority::NaeManager(_) => {
                match self.dm_accounts.get(n) {
                    Some(holders) => {
                        let mut queue = match self.client_request_cache.get(n) {
                            Some(q) => copy_vec(q),
                            None => Vec::new(),
                        };
                        let first = queue.len() == 0;
                        queue.push((src, id));
                        let out = if first {
                            get_request_actions(holders, dst, data_id, id)
                        } else {
                            Vec::new()
                        };
                        self.client_request_cache.insert(n, queue);
                        proof {
                            let exp = get_step(old(self)@, data_id, id, src, dst);
                            assert(self@.pending =~= exp.0.pending);
                            assert(actions_view(out@) =~= exp.1);
                        }
                        out
                    },
                    None => vec![Action::GetFailure { src: dst, dst: src, data_id, text: not_found(), id }],
                }
            },
            _ => {
                match self.db.get(n) {
                    Some(data) => vec![Action::GetSuccess { src: dst, dst: src, data: data.duplicate(), id }],
                    None => vec![Action::GetFailure { src: dst, dst: src, data_id, text: not_found(), id }],
                }
            },
        }
    }

    /// Handles a `Put` of `data` from `src`. As the item's `NaeManager`: acknowledges it,
    /// and where the item is new and `close_group` (the item's close group, from the
    /// overlay) is known, stores it on the group's first `STORE_REDUNDANCY` distinct
    /// members, records them as its replica set, keeps a copy and acknowledges again. As a
    /// `ClientManager`: passes it on to the item's `NaeManager` and remembers, until the
    /// expiry, where its success response goes. `now` is the time in milliseconds.
    pub fn handle_put_request(
        &mut self,
        data: Data,
        id: MessageId,
        src: Authority,
        dst: Authority,
        close_group: Option<Vec<XorName>>,
        now: u64,
    ) -> (r: Vec<Action>)
        requires
            old(self).wf(),
            dst is NaeManager || dst is ClientManager,
        ensures
            final(self).wf(),
            (final(self)@, actions_view(r@)) == put_step(
                old(self)@,
                data@,
                id,
                src,
                dst,
                group_view(close_group),
                now,
            ),
    {
        let n = data.name;
        proof {
            lemma_put_keeps_wf(self@, data@, id, src, dst, group_view(close_group), now);
        }
        match dst {
            Authority::NaeManager(_) => {
                let ack = Action::PutSuccess { src: dst, dst: src, data_id: DataIdentifier::Plain(n), id };
                if self.dm_accounts.contains_key(n) {
                    let r = vec![ack];
                    assert(actions_view(r@) =~= seq![ack@]);
                    return r;
                }
                match close_group {
                    None => {
                        let r = vec![ack];
                        assert(actions_view(r@) =~= seq![ack@]);
                        r
                    },
                    Some(group) => {
                        let holders = replica_set_of(&group);
                        let mut out = vec![ack];
                        let mut puts = put_request_actions(&holders, dst, &data, id);
                        let ghost puts_v = puts@;
                        out.append(&mut puts);
                        out.push(Action::PutSuccess { src: dst, dst: src, data_id: DataIdentifier::Plain(n), id });
                        let ghost old_db = self.db@;
                        let ghost old_keys = self.db.keys();
                        self.dm_accounts.insert(n, holders);
                        self.db.insert(n, data);
                        proof {
                            self.lemma_model_keys();
                            old(self).lemma_model_keys();
                            let exp = put_step(old(self)@, data@, id, src, dst, group_view(close_group), now);
                            assert(self@.replicas =~= exp.0.replicas);
                            assert(self@.store =~= exp.0.store);
                            assert(self@.store_names =~= exp.0.store_names);
                            assert(actions_view(out@) =~= exp.1);
                        }
                        out
                    },
                }
            },
            _ => {
                let r = vec![Action::PutRequest { src: dst, dst: Authority::NaeManager(n), data, id }];
                let _ = self.put_request_cache.insert(id, src, dst, now);
                proof {
                    let exp = put_step(old(self)@, data@, id, src, dst, group_view(close_group), now);
                    assert(actions_view(r@) =~= exp.1);
                }
                r
            },
        }
    }

    /// Takes in a refresh payload: the entry it carries overwrites the matching entry of the
    /// client accounts or of the stored data. A payload that does not decode changes nothing
    /// and comes back as its error.
    pub fn handle_refresh(&mut self, content: &Vec<u8>) -> (r: Result<(), DecodeError>)
        requires
            old(self).wf(),
        ensures
            final(self).wf(),
            final(self)@ == refresh_step(old(self)@, content@),
            r is Ok <==> crate::refresh::decoding(content@) is Some,
    {
        proof {
            lemma_refresh_keeps_wf(self@, content@);
        }
        match decode(content) {
            Ok(RefreshContent::Client { client_name, data }) => {
                self.client_accounts.insert(client_name, data);
                proof {
                    self.lemma_model_keys();
                    old(self).lemma_model_keys();
                    let exp = refresh_step(old(self)@, content@);
                    assert(self@.account_names =~= exp.account_names);
                }
                Ok(())
            },
            Ok(RefreshContent::NaeManager { data_name, data }) => {
                self.db.insert(data_name, data);
                proof {
                    self.lemma_model_keys();
                    old(self).lemma_model_keys();
                    let exp = refresh_step(old(self)@, content@);
                    assert(self@.store =~= exp.store);
                    assert(self@.store_names =~= exp.store_names);
                }
                Ok(())
            },
            Err(e) => Err(e),
        }
    }

    /// Handles a `PutSuccess` that reaches the node as a `ClientManager`: it goes on to the
    /// client where the request's entry is cached and live; otherwise it is dropped. The
    /// entry leaves the cache either way.
    pub fn handle_put_success(&mut self, data_id: DataIdentifier, id: MessageId, now: u64) -> (r: Vec<Action>)
        requires
            old(self).wf(),
        ensures
            final(self).wf(),
            (final(self)@, actions_view(r@)) == response_step(old(self)@, data_id, id, now),
    {
        let r = match self.put_request_cache.remove(id, now) {
            Some(pair) => vec![Action::PutSuccess { src: pair.1, dst: pair.0, data_id, id }],
            None => Vec::new(),
        };
        proof {
            let exp = response_step(old(self)@, data_id, id, now);
            assert(actions_view(r@) =~= exp.1);
        }
        r
    }

    /// The refresh gossip that the node sends when `name` joins: one message per client
    /// account and one per stored data item, to the matching manager group.
    pub fn handle_node_added(&self, name: XorName) -> (r: Vec<Action>)
        requires
            self.wf(),
        ensures
            actions_view(r@) == node_added_actions(self@, name),
    {
        let id = MessageId::from_added_node(name);
        let mut out: Vec<Action> = Vec::new();
        let mut i: usize = 0;
        let ghost m = self@;
        let ghost f = |k: XorName| crate::model::client_refresh(m, k, crate::types::added_node_id(name));
        let ghost g = |k: XorName| crate::model::data_refresh(k, m.store[k], crate::types::added_node_id(name));
        while i < self.client_accounts.len()
            invariant
                self.wf(),
                m == self@,
                f == (|k: XorName| crate::model::client_refresh(m, k, crate::types::added_node_id(name))),
                id == crate::types::added_node_id(name),
                i <= m.account_names.len(),
                out@.len() == i,
                actions_view(out@) =~= m.account_names.subrange(0, i as int).map_values(f),
            decreases m.account_names.len() - i,
        {
            let k = self.client_accounts.key_at(i);
            let v = *self.client_accounts.value_at(i);
            let content = encode(&RefreshContent::Client { client_name: k, data: v });
            let ghost prev = out@;
            out.push(Action::RefreshRequest {
                src: Authority::ClientManager(k),
                dst: Authority::ClientManager(k),
                content,
                id,
            });
            proof {
                let newexp = m.account_names.subrange(0, i + 1).map_values(f);
                let oldexp = m.account_names.subrange(0, i as int).map_values(f);
                assert forall|j: int| 0 <= j < i + 1 implies actions_view(out@)[j] == newexp[j] by {
                    if j < i {
                        assert(out@[j] == prev[j]);
                        assert(actions_view(prev)[j] == oldexp[j]);
                    }
                }
                assert(actions_view(out@) =~= newexp);
            }
            i = i + 1;
        }
        assert(m.account_names.subrange(0, i as int) =~= m.account_names);
        let ghost first = out@;
        let mut j: usize = 0;
        while j < self.db.len()
            invariant
                self.wf(),
                m == self@,
                g == (|k: XorName| crate::model::data_refresh(k, m.store[k], crate::types::added_node_id(name))),
                id == crate::types::added_node_id(name),
                j <= m.store_names.len(),
                out@.len() == first.len() + j,
                out@.subrange(0, first.len() as int) == first,
                actions_view(out@.subrange(first.len() as int, out@.len() as int)) =~= m.store_names.subrange(0, j as int).map_values(g),
            decreases m.store_names.len() - j,
        {
            let k = self.db.key_at(j);
            let d = self.db.value_at(j);
            let content = encode(&RefreshContent::NaeManager { data_name: k, data: d.duplicate() });
            let ghost prev = out@;
            out.push(Action::RefreshRequest {
                src: Authority::NaeManager(k),
                dst: Authority::NaeManager(k),
                content,
                id,
            });
            proof {
                let tail = out@.subrange(first.len() as int, out@.len() as int);
                let ptail = prev.subrange(first.len() as int, prev.len() as int);
                let newexp = m.store_names.subrange(0, j + 1).map_values(g);
                let oldexp = m.store_names.subrange(0, j as int).map_values(g);
                assert forall|x: int| 0 <= x < j + 1 implies actions_view(tail)[x] == newexp[x] by {
                    if x < j {
                        assert(tail[x] == ptail[x]);
                        assert(actions_view(ptail)[x] == oldexp[x]);
                    }
                }
                assert(actions_view(tail) =~= newexp);
                assert(out@.subrange(0, first.len() as int) =~= first);
            }
            j = j + 1;
        }
        proof {
            assert(m.store_names.subrange(0, j as int) =~= m.store_names);
            assert(out@ =~= first + out@.subrange(first.len() as int, out@.len() as int));
            assert(actions_view(out@) =~= actions_view(first) + actions_view(out@.subrange(first.len() as int, out@.len() as int)));
        }
        out
    }

    /// Takes `lost` out of every replica set; the names of the sets that listed it come
    /// back, in the order of the replica table, for `repair`.
    pub fn handle_node_lost(&mut self, lost: XorName) -> (r: Vec<XorName>)
        requires
            old(self).wf(),
        ensures
            final(self).wf(),
            (final(self)@, r@) == node_lost_step(old(self)@, lost),
    {
        let ghost m = self@;
        let ghost dm = self.dm_accounts@;
        let ghost keys = self.dm_accounts.keys();
        proof {
            self.dm_accounts.lemma_keys();
            lemma_node_lost_keeps_wf(m, lost);
            assert(keys.subrange(0, 0) =~= Seq::<XorName>::empty());
        }
        let mut names: Vec<XorName> = Vec::new();
        let mut i: usize = 0;
        while i < self.dm_accounts.len()
            invariant
                self.dm_accounts.wf(),
                self.dm_accounts.keys() == keys,
                keys.no_duplicates(),
                m.replica_names == keys,
                forall|k: XorName| dm.contains_key(k) <==> keys.contains(k),
                m.replicas == dm.map_values(|v: Vec<XorName>| v@),
                self.client_request_cache == old(self).client_request_cache,
                self.db == old(self).db,
                self.client_accounts == old(self).client_accounts,
                self.put_request_cache == old(self).put_request_cache,
                i <= keys.len(),
                self.dm_accounts@.dom() == dm.dom(),
                forall|j: int| 0 <= j < i ==> self.dm_accounts@[#[trigger] keys[j]]@ == without(dm[keys[j]]@, lost),
                forall|j: int| i <= j < keys.len() ==> self.dm_accounts@[#[trigger] keys[j]] == dm[keys[j]],
                names@ == holding(keys.subrange(0, i as int), m.replicas, lost),
            decreases keys.len() - i,
        {
            let k = self.dm_accounts.key_at(i);
            let h = self.dm_accounts.value_at(i);
            let held = contains_name(h, lost);
            let nh = without_name(h, lost);
            proof {
                let pre = keys.subrange(0, i + 1);
                assert(pre.drop_last() =~= keys.subrange(0, i as int));
                assert(pre.last() == k);
                assert(keys.contains(k));
                assert(m.replicas[k] == dm[k]@);
            }
            self.dm_accounts.set_value_at(i, nh);
            if held {
                names.push(k);
            }
            proof {
                assert forall|j: int| 0 <= j < keys.len() && j != i implies keys[j] != k by {}
            }
            i = i + 1;
        }
        proof {
            assert(keys.subrange(0, i as int) =~= keys);
            let exp = node_lost_step(m, lost).0;
            assert forall|k: XorName| self@.replicas.contains_key(k) implies self@.replicas[k] == exp.replicas[k] by {
                let j = choose|j: int| 0 <= j < keys.len() && keys[j] == k;
            }
            assert(self@.replicas =~= exp.replicas);
        }
        names
    }

    /// Repairs the replica set of `data_name` after `lost` left. Where the set is short, the
    /// item is stored here and `close_group` (the item's close group, from the overlay) has a
    /// member outside the set, the first such member is sent a copy and joins the set, and
    /// the item's `NaeManager` group is sent a refresh of it; otherwise nothing happens.
    pub fn repair(&mut self, data_name: XorName, lost: XorName, close_group: Option<Vec<XorName>>) -> (r: Vec<Action>)
        requires
            old(self).wf(),
        ensures
            final(self).wf(),
            (final(self)@, actions_view(r@)) == repair_step(old(self)@, data_name, lost, group_view(close_group)),
    {
        proof {
            lemma_repair_keeps_wf(self@, data_name, lost, group_view(close_group));
        }
        let id = MessageId::from_lost_node(lost);
        let nothing: Vec<Action> = Vec::new();
        assert(actions_view(nothing@) =~= Seq::<ActionModel>::empty());
        let h = match self.dm_accounts.get(data_name) {
            Some(h) => h,
            None => return nothing,
        };
        if h.len() >= STORE_REDUNDANCY {
            return nothing;
        }
        let d = match self.db.get(data_name) {
            Some(d) => d,
            None => return nothing,
        };
        let g = match close_group {
            Some(g) => g,
            None => return nothing,
        };
        let p = match first_outside_of(&g, h) {
            Some(p) => p,
            None => return nothing,
        };
        let mut nh = copy_vec(h);
        nh.push(p);
        let content = encode(&RefreshContent::NaeManager { data_name, data: d.duplicate() });
        let out = vec![
            Action::PutRequest {
                src: Authority::NaeManager(data_name),
                dst: Authority::ManagedNode(p),
                data: d.duplicate(),
                id,
            },
            Action::RefreshRequest {
                src: Authority::NaeManager(data_name),
                dst: Authority::NaeManager(data_name),
                content,
                id,
            },
        ];
        self.dm_accounts.insert(data_name, nh);
        proof {
            let exp = repair_step(old(self)@, data_name, lost, group_view(close_group));
            assert(self@.replicas =~= exp.0.replicas);
            assert(actions_view(out@) =~= exp.1);
        }
        out
    }

    /// Admits `dm_name` as a holder of `data_name` where it is a member of `close_group`
    /// (the item's current close group, from the overlay), not yet a holder, and the set has
    /// room; says whether it was admitted. A rejection changes nothing.
    pub fn add_dm(&mut self, data_name: XorName, dm_name: XorName, close_group: Option<Vec<XorName>>) -> (r: bool)
        requires
            old(self).wf(),
        ensures
            final(self).wf(),
            (final(self)@, r) == add_dm_step(old(self)@, data_name, dm_name, group_view(close_group)),
    {
        proof {
            lemma_add_dm_keeps_wf(self@, data_name, dm_name, group_view(close_group));
        }
        let mut cur = match self.dm_accounts.get(data_name) {
            Some(h) => copy_vec(h),
            None => Vec::new(),
        };
        if contains_name(&cur, dm_name) {
            return false;
        }
        let g = match close_group {
            Some(g) => g,
            None => return false,
        };
        if !contains_name(&g, dm_name) || cur.len() >= STORE_REDUNDANCY {
            return false;
        }
        cur.push(dm_name);
        self.dm_accounts.insert(data_name, cur);
        proof {
            self.lemma_model_keys();
            old(self).lemma_model_keys();
            let exp = add_dm_step(old(self)@, data_name, dm_name, group_view(close_group));
            assert(self@.replicas =~= exp.0.replicas);
        }
        true
    }

    /// Dispatches a request from `src` addressed to `dst`. `close_group` is the close group
    /// of the name that `close_group_name` gives for the request, where it gives one, and
    /// `now` the time in milliseconds. `Post`, `Delete` and `GetAccountInfo` are not handled
    /// at this layer and change nothing; a refresh payload that does not decode is dropped.
    pub fn handle_request(
        &mut self,
        request: Request,
        src: Authority,
        dst: Authority,
        close_group: Option<Vec<XorName>>,
        now: u64,
    ) -> (r: Vec<Action>)
        requires
            old(self).wf(),
            request_addressed_rightly(request, dst),
        ensures
            final(self).wf(),
            match request {
                Request::Get(data_id, id) => (final(self)@, actions_view(r@)) == get_step(
                    old(self)@,
                    data_id,
                    id,
                    src,
                    dst,
                ),
                Request::Put(data, id) => (final(self)@, actions_view(r@)) == put_step(
                    old(self)@,
                    data@,
                    id,
                    src,
                    dst,
                    group_view(close_group),
                    now,
                ),
                Request::Refresh(content, _) => final(self)@ == refresh_step(old(self)@, content@)
                    && r@.len() == 0,
                _ => final(self)@ == old(self)@ && r@.len() == 0,
            },
    {
        match request {
            Request::Get(data_id, id) => self.handle_get_request(data_id, id, src, dst),
            Request::Put(data, id) => self.handle_put_request(data, id, src, dst, close_group, now),
            Request::Refresh(content, _) => {
                let _ = self.handle_refresh(&content);
                Vec::new()
            },
            _ => Vec::new(),
        }
    }

    /// Dispatches a response addressed to `dst`: only a `PutSuccess` to a `ClientManager`
    /// is expected, and it goes to `handle_put_success`.
    pub fn handle_response(&mut self, response: Response, dst: Authority, now: u64) -> (r: Vec<Action>)
        requires
            old(self).wf(),
            response_addressed_rightly(response, dst),
        ensures
            final(self).wf(),
            match response {
                Response::PutSuccess(data_id, id) => (final(self)@, actions_view(r@)) == response_step(
                    old(self)@,
                    data_id,
                    id,
                    now,
                ),
                _ => final(self)@ == old(self)@ && r@.len() == 0,
            },
    {
        match response {
            Response::PutSuccess(data_id, id) => self.handle_put_success(data_id, id, now),
            _ => Vec::new(),
        }
    }

    /// The replica set of `data_name`.
    pub fn holders(&self, data_name: XorName) -> (r: Option<Vec<XorName>>)
        requires
            self.wf(),
        ensures
            match r {
                Some(v) => self@.replicas.contains_key(data_name) && v@ == self@.replicas[data_name],
                None => !self@.replicas.contains_key(data_name),
            },
    {
        match self.dm_accounts.get(data_name) {
            Some(h) => Some(copy_vec(h)),
            None => None,
        }
    }

    /// The data item stored here under `data_name`.
    pub fn stored(&self, data_name: XorName) -> (r: Option<Data>)
        requires
            self.wf(),
        ensures
            match r {
                Some(d) => self@.store.contains_key(data_name) && d@ == self@.store[data_name],
                None => !self@.store.contains_key(data_name),
            },
    {
        match self.db.get(data_name) {
            Some(d) => Some(d.duplicate()),
            None => None,
        }
    }

    /// The account counter of `client_name`.
    pub fn account(&self, client_name: XorName) -> (r: Option<u64>)
        requires
            self.wf(),
        ensures
            match r {
                Some(v) => self@.accounts.contains_key(client_name) && v == self@.accounts[client_name],
                None => !self@.accounts.contains_key(client_name),
            },
    {
        match self.client_accounts.get(client_name) {
            Some(v) => Some(*v),
            None => None,
        }
    }

    /// The number of `Get` requests recorded for `data_name`.
    pub fn pending_requests(&self, data_name: XorName) -> (r: usize)
        requires
            self.wf(),
        ensures
            r == if self@.pending.contains_key(data_name) {
                self@.pending[data_name].len()
            } else {
                0
            },
    {
        match self.client_request_cache.get(data_name) {
            Some(q) => q.len(),
            None => 0,
        }
    }

    /// Where the success response of `id` would be relayed at time `now`.
    pub fn cached_put(&self, id: MessageId, now: u64) -> (r: Option<(Authority, Authority)>)
        requires
            self.wf(),
        ensures
            r == crate::cache::lookup(self@.cache, id, now),
    {
        self.put_request_cache.get(id, now)
    }
}

/// The name whose close group `handle_request` needs for `request` addressed to `dst`: that
/// of the data of a `Put` to its `NaeManager`.
pub fn close_group_name(request: &Request, dst: &Authority) -> (r: Option<XorName>)
    ensures
        r == match (*request, *dst) {
            (Request::Put(data, _), Authority::NaeManager(_)) => Some(data.name),
            _ => None,
        },
{
    match (request, dst) {
        (Request::Put(data, _), Authority::NaeManager(_)) => Some(data.name),
        _ => None,
    }
}

} // verus!
