use routing::cache::PUT_REQUEST_EXPIRY_MS;
use routing::node::{close_group_name, Action, DataNode, Request, Response};
use routing::refresh::{decode, encode, DecodeError, RefreshContent};
use routing::types::{Authority, Data, DataIdentifier, MessageId, XorName, STORE_REDUNDANCY};

fn n(x: u64) -> XorName {
    XorName(0, 0, 0, x)
}

fn names(xs: &[u64]) -> Vec<XorName> {
    xs.iter().map(|x| n(*x)).collect()
}

fn item(name: u64) -> Data {
    Data::new(n(name), vec![1, 2, 3, name as u8])
}

fn put_targets(actions: &[Action]) -> Vec<XorName> {
    actions
        .iter()
        .filter_map(|a| match a {
            Action::PutRequest { dst: Authority::ManagedNode(p), .. } => Some(*p),
            _ => None,
        })
        .collect()
}

fn count_put_success(actions: &[Action]) -> usize {
    actions.iter().filter(|a| matches!(a, Action::PutSuccess { .. })).count()
}

const X: u64 = 100;
const CLIENT: u64 = 7;

fn stored_node(group: &[u64]) -> DataNode {
    let mut node = DataNode::new();
    let _ = node.handle_put_request(
        item(X),
        MessageId(n(1)),
        Authority::ClientManager(n(CLIENT)),
        Authority::NaeManager(n(X)),
        Some(names(group)),
        0,
    );
    node
}

#[test]
fn put_to_nae_manager_stores_on_first_four() {
    let mut node = DataNode::new();
    let src = Authority::ClientManager(n(CLIENT));
    let dst = Authority::NaeManager(n(X));
    let actions = node.handle_put_request(item(X), MessageId(n(1)), src, dst, Some(names(&[1, 2, 3, 4, 5])), 0);
    assert_eq!(actions.len(), 6);
    assert_eq!(put_targets(&actions), names(&[1, 2, 3, 4]));
    match &actions[0] {
        Action::PutSuccess { src: s, dst: d, data_id, id } => {
            assert_eq!(*s, dst);
            assert_eq!(*d, src);
            assert_eq!(*data_id, DataIdentifier::Plain(n(X)));
            assert_eq!(*id, MessageId(n(1)));
        }
        other => panic!("unexpected {:?}", other),
    }
    for a in &actions[1..5] {
        match a {
            Action::PutRequest { src: s, data, id, .. } => {
                assert_eq!(*s, dst);
                assert_eq!(data.name, n(X));
                assert_eq!(data.value, vec![1, 2, 3, X as u8]);
                assert_eq!(*id, MessageId(n(1)));
            }
            other => panic!("unexpected {:?}", other),
        }
    }
    assert!(matches!(actions[5], Action::PutSuccess { dst: d, .. } if d == src));
    assert_eq!(node.holders(n(X)), Some(names(&[1, 2, 3, 4])));
    assert_eq!(node.stored(n(X)).map(|d| d.value), Some(vec![1, 2, 3, X as u8]));
}

#[test]
fn second_put_only_acknowledges() {
    let mut node = stored_node(&[1, 2, 3, 4, 5]);
    let actions = node.handle_put_request(
        item(X),
        MessageId(n(2)),
        Authority::ClientManager(n(CLIENT)),
        Authority::NaeManager(n(X)),
        Some(names(&[9, 8, 7, 6])),
        5,
    );
    assert_eq!(actions.len(), 1);
    assert_eq!(count_put_success(&actions), 1);
    assert!(put_targets(&actions).is_empty());
    assert_eq!(node.holders(n(X)), Some(names(&[1, 2, 3, 4])));
}

#[test]
fn put_without_close_group_only_acknowledges() {
    let mut node = DataNode::new();
    let actions = node.handle_put_request(
        item(X),
        MessageId(n(1)),
        Authority::ClientManager(n(CLIENT)),
        Authority::NaeManager(n(X)),
        None,
        0,
    );
    assert_eq!(actions.len(), 1);
    assert_eq!(node.holders(n(X)), None);
}

#[test]
fn replica_set_never_exceeds_redundancy() {
    let node = stored_node(&[1, 2, 2, 3, 1, 4, 5, 6, 7, 8]);
    let h = node.holders(n(X)).unwrap();
    assert_eq!(h.len(), STORE_REDUNDANCY);
    assert_eq!(h, names(&[1, 2, 3, 4]));
}

#[test]
fn lost_peer_is_replaced_by_first_eligible_member() {
    let mut node = stored_node(&[1, 2, 3, 4]);
    let to_repair = node.handle_node_lost(n(2));
    assert_eq!(to_repair, names(&[X]));
    assert_eq!(node.holders(n(X)), Some(names(&[1, 3, 4])));
    let actions = node.repair(n(X), n(2), Some(names(&[1, 3, 4, 5, 6])));
    assert_eq!(actions.len(), 2);
    assert_eq!(put_targets(&actions), names(&[5]));
    match &actions[0] {
        Action::PutRequest { src, id, .. } => {
            assert_eq!(*src, Authority::NaeManager(n(X)));
            assert_eq!(*id, MessageId::from_lost_node(n(2)));
        }
        other => panic!("unexpected {:?}", other),
    }
    match &actions[1] {
        Action::RefreshRequest { src, dst, content, .. } => {
            assert_eq!(*src, Authority::NaeManager(n(X)));
            assert_eq!(*dst, Authority::NaeManager(n(X)));
            match decode(content) {
                Ok(RefreshContent::NaeManager { data_name, data }) => {
                    assert_eq!(data_name, n(X));
                    assert_eq!(data.value, vec![1, 2, 3, X as u8]);
                }
                other => panic!("unexpected {:?}", other),
            }
        }
        other => panic!("unexpected {:?}", other),
    }
    assert_eq!(node.holders(n(X)), Some(names(&[1, 3, 4, 5])));
    assert_eq!(node.holders(n(X)).unwrap().len(), STORE_REDUNDANCY);
}

#[test]
fn repair_without_candidate_changes_nothing() {
    let mut node = stored_node(&[1, 2, 3, 4]);
    let _ = node.handle_node_lost(n(2));
    let actions = node.repair(n(X), n(2), Some(names(&[1, 3, 4])));
    assert!(actions.is_empty());
    assert_eq!(node.holders(n(X)), Some(names(&[1, 3, 4])));
    assert!(node.repair(n(X), n(2), None).is_empty());
}

#[test]
fn loss_of_unlisted_peer_touches_nothing() {
    let mut node = stored_node(&[1, 2, 3, 4]);
    assert!(node.handle_node_lost(n(9)).is_empty());
    assert_eq!(node.holders(n(X)), Some(names(&[1, 2, 3, 4])));
}

#[test]
fn add_dm_admits_only_close_group_members() {
    let mut node = stored_node(&[1, 2, 3]);
    assert!(!node.add_dm(n(X), n(9), Some(names(&[1, 2, 3, 4]))));
    assert_eq!(node.holders(n(X)), Some(names(&[1, 2, 3])));
    assert!(!node.add_dm(n(X), n(4), None));
    assert!(!node.add_dm(n(X), n(2), Some(names(&[1, 2, 3, 4]))));
    assert!(node.add_dm(n(X), n(4), Some(names(&[1, 2, 3, 4, 5]))));
    assert_eq!(node.holders(n(X)), Some(names(&[1, 2, 3, 4])));
    assert!(!node.add_dm(n(X), n(5), Some(names(&[1, 2, 3, 4, 5]))));
    assert!(node.add_dm(n(55), n(5), Some(names(&[5]))));
    assert_eq!(node.holders(n(55)), Some(names(&[5])));
}

#[test]
fn client_manager_put_is_relayed_and_answered_before_expiry() {
    let mut node = DataNode::new();
    let client = Authority::Client(n(CLIENT));
    let manager = Authority::ClientManager(n(CLIENT));
    let id = MessageId(n(42));
    let actions = node.handle_put_request(item(X), id, client, manager, None, 1_000);
    assert_eq!(actions.len(), 1);
    match &actions[0] {
        Action::PutRequest { src, dst, data, id: i } => {
            assert_eq!(*src, manager);
            assert_eq!(*dst, Authority::NaeManager(n(X)));
            assert_eq!(data.name, n(X));
            assert_eq!(*i, id);
        }
        other => panic!("unexpected {:?}", other),
    }
    let t = 1_000 + PUT_REQUEST_EXPIRY_MS - 1_000;
    assert_eq!(node.cached_put(id, t), Some((client, manager)));
    let answer = node.handle_put_success(DataIdentifier::Plain(n(X)), id, t);
    assert_eq!(answer.len(), 1);
    match &answer[0] {
        Action::PutSuccess { src, dst, data_id, id: i } => {
            assert_eq!(*src, manager);
            assert_eq!(*dst, client);
            assert_eq!(*data_id, DataIdentifier::Plain(n(X)));
            assert_eq!(*i, id);
        }
        other => panic!("unexpected {:?}", other),
    }
    assert_eq!(node.cached_put(id, t), None);
}

#[test]
fn expired_put_success_is_dropped() {
    let mut node = DataNode::new();
    let id = MessageId(n(43));
    let t0 = 5_000;
    let _ = node.handle_put_request(item(X), id, Authority::Client(n(CLIENT)), Authority::ClientManager(n(CLIENT)), None, t0);
    assert!(node.cached_put(id, t0 + 599_000).is_some());
    assert!(node.cached_put(id, t0 + 601_000).is_none());
    let answer = node.handle_response(Response::PutSuccess(DataIdentifier::Plain(n(X)), id), Authority::ClientManager(n(CLIENT)), t0 + 601_000);
    assert!(answer.is_empty());
}

#[test]
fn unknown_put_success_is_dropped() {
    let mut node = DataNode::new();
    let answer = node.handle_put_success(DataIdentifier::Plain(n(X)), MessageId(n(3)), 0);
    assert!(answer.is_empty());
}

#[test]
fn get_for_unknown_item_fails() {
    let mut node = DataNode::new();
    let src = Authority::Client(n(CLIENT));
    let dst = Authority::NaeManager(n(X));
    let actions = node.handle_get_request(DataIdentifier::Plain(n(X)), MessageId(n(1)), src, dst);
    assert_eq!(actions.len(), 1);
    match &actions[0] {
        Action::GetFailure { src: s, dst: d, text, .. } => {
            assert_eq!(*s, dst);
            assert_eq!(*d, src);
            assert_eq!(text.clone(), "Data not found".as_bytes().to_vec());
        }
        other => panic!("unexpected {:?}", other),
    }
}

#[test]
fn concurrent_gets_share_one_fan_out() {
    let mut node = stored_node(&[1, 2, 3, 4]);
    let dst = Authority::NaeManager(n(X));
    let first = node.handle_get_request(DataIdentifier::Plain(n(X)), MessageId(n(10)), Authority::Client(n(1)), dst);
    assert_eq!(first.len(), 4);
    let targets: Vec<XorName> = first
        .iter()
        .filter_map(|a| match a {
            Action::GetRequest { dst: Authority::ManagedNode(p), src, .. } if *src == dst => Some(*p),
            _ => None,
        })
        .collect();
    assert_eq!(targets, names(&[1, 2, 3, 4]));
    let second = node.handle_get_request(DataIdentifier::Plain(n(X)), MessageId(n(11)), Authority::Client(n(2)), dst);
    assert!(second.is_empty());
    assert_eq!(node.pending_requests(n(X)), 2);
}

#[test]
fn managed_node_answers_from_its_store() {
    let mut node = stored_node(&[1, 2, 3, 4]);
    let src = Authority::NaeManager(n(X));
    let dst = Authority::ManagedNode(n(1));
    let hit = node.handle_get_request(DataIdentifier::Plain(n(X)), MessageId(n(5)), src, dst);
    match &hit[..] {
        [Action::GetSuccess { src: s, dst: d, data, .. }] => {
            assert_eq!(*s, dst);
            assert_eq!(*d, src);
            assert_eq!(data.value, vec![1, 2, 3, X as u8]);
        }
        other => panic!("unexpected {:?}", other),
    }
    let miss = node.handle_get_request(DataIdentifier::Immutable(n(77)), MessageId(n(6)), src, dst);
    assert!(matches!(&miss[..], [Action::GetFailure { .. }]));
}

#[test]
fn refresh_round_trip_of_both_kinds() {
    let name = XorName(u64::MAX, 2, 0x0102030405060708, 4);
    let c = RefreshContent::Client { client_name: name, data: u64::MAX - 3 };
    match decode(&encode(&c)) {
        Ok(RefreshContent::Client { client_name, data }) => {
            assert_eq!(client_name, name);
            assert_eq!(data, u64::MAX - 3);
        }
        other => panic!("unexpected {:?}", other),
    }
    let d = RefreshContent::NaeManager { data_name: n(9), data: Data::new(n(10), vec![]) };
    let bytes = encode(&d);
    assert_eq!(bytes.len(), 65);
    match decode(&bytes) {
        Ok(RefreshContent::NaeManager { data_name, data }) => {
            assert_eq!(data_name, n(9));
            assert_eq!(data.name, n(10));
            assert!(data.value.is_empty());
        }
        other => panic!("unexpected {:?}", other),
    }
}

#[test]
fn refresh_encoding_layout() {
    let c = RefreshContent::Client { client_name: XorName(1, 0, 0, 0x0102030405060708), data: 9 };
    let mut expected = vec![0u8];
    expected.extend_from_slice(&[0, 0, 0, 0, 0, 0, 0, 1]);
    expected.extend_from_slice(&[0; 16]);
    expected.extend_from_slice(&[1, 2, 3, 4, 5, 6, 7, 8]);
    expected.extend_from_slice(&[0, 0, 0, 0, 0, 0, 0, 9]);
    assert_eq!(encode(&c), expected);
}

#[test]
fn refresh_decode_errors() {
    assert_eq!(decode(&vec![]).err(), Some(DecodeError::Empty));
    assert_eq!(decode(&vec![7, 1, 2]).err(), Some(DecodeError::UnknownTag));
    assert_eq!(decode(&vec![0, 1, 2]).err(), Some(DecodeError::BadLength));
    assert_eq!(decode(&vec![0; 40]).err(), Some(DecodeError::BadLength));
    assert_eq!(decode(&vec![0; 42]).err(), Some(DecodeError::BadLength));
    assert_eq!(decode(&vec![1; 64]).err(), Some(DecodeError::BadLength));
    assert!(decode(&vec![0; 41]).is_ok());
    assert!(decode(&vec![1; 65]).is_ok());
}

#[test]
fn refresh_overwrites_tables() {
    let mut node = DataNode::new();
    let c = encode(&RefreshContent::Client { client_name: n(3), data: 10 });
    assert!(node.handle_refresh(&c).is_ok());
    assert_eq!(node.account(n(3)), Some(10));
    let c2 = encode(&RefreshContent::Client { client_name: n(3), data: 4 });
    let _ = node.handle_request(Request::Refresh(c2, MessageId(n(0))), Authority::ClientManager(n(3)), Authority::ClientManager(n(3)), None, 0);
    assert_eq!(node.account(n(3)), Some(4));
    let d = encode(&RefreshContent::NaeManager { data_name: n(8), data: Data::new(n(8), vec![5]) });
    assert!(node.handle_refresh(&d).is_ok());
    assert_eq!(node.stored(n(8)).map(|x| x.value), Some(vec![5]));
    assert_eq!(node.handle_refresh(&vec![9]).err(), Some(DecodeError::UnknownTag));
}

#[test]
fn node_added_sends_refresh_per_entry() {
    let mut node = stored_node(&[1, 2, 3, 4]);
    let _ = node.handle_refresh(&encode(&RefreshContent::Client { client_name: n(3), data: 10 }));
    let actions = node.handle_node_added(n(50));
    assert_eq!(actions.len(), 2);
    match &actions[0] {
        Action::RefreshRequest { src, dst, content, id } => {
            assert_eq!(*src, Authority::ClientManager(n(3)));
            assert_eq!(*dst, Authority::ClientManager(n(3)));
            assert_eq!(*id, MessageId::from_added_node(n(50)));
            assert!(matches!(decode(content), Ok(RefreshContent::Client { data: 10, .. })));
        }
        other => panic!("unexpected {:?}", other),
    }
    match &actions[1] {
        Action::RefreshRequest { src, content, .. } => {
            assert_eq!(*src, Authority::NaeManager(n(X)));
            assert!(matches!(decode(content), Ok(RefreshContent::NaeManager { .. })));
        }
        other => panic!("unexpected {:?}", other),
    }
}

#[test]
fn churn_ids_differ() {
    assert_ne!(MessageId::from_added_node(n(5)), MessageId::from_lost_node(n(5)));
    assert_eq!(
        MessageId::from_lost_node(XorName(0, 1, u64::MAX, 5)),
        MessageId(XorName(u64::MAX, u64::MAX - 1, 0, u64::MAX - 5))
    );
}

#[test]
fn unhandled_requests_change_nothing() {
    let mut node = DataNode::new();
    let dst = Authority::NaeManager(n(X));
    assert!(node.handle_request(Request::Post(item(X), MessageId(n(1))), dst, dst, None, 0).is_empty());
    assert!(node.handle_request(Request::Delete(item(X), MessageId(n(1))), dst, dst, None, 0).is_empty());
    assert!(node.handle_request(Request::GetAccountInfo(MessageId(n(1))), dst, dst, None, 0).is_empty());
    assert_eq!(node.holders(n(X)), None);
}

#[test]
fn close_group_is_needed_for_manager_puts_only() {
    let put = Request::Put(item(X), MessageId(n(1)));
    assert_eq!(close_group_name(&put, &Authority::NaeManager(n(X))), Some(n(X)));
    assert_eq!(close_group_name(&put, &Authority::ClientManager(n(1))), None);
    assert_eq!(close_group_name(&Request::GetAccountInfo(MessageId(n(1))), &Authority::NaeManager(n(X))), None);
}


#[test]
fn new_relay_drops_expired_entries() {
    let mut node = DataNode::new();
    let client = Authority::Client(n(CLIENT));
    let manager = Authority::ClientManager(n(CLIENT));
    let old_id = MessageId(n(1));
    let new_id = MessageId(n(2));
    let _ = node.handle_put_request(item(X), old_id, client, manager, None, 0);
    assert!(node.cached_put(old_id, 0).is_some());
    let _ = node.handle_put_request(item(X), new_id, client, manager, None, 700_000);
    assert_eq!(node.cached_put(old_id, 0), None);
    assert_eq!(node.cached_put(new_id, 700_000), Some((client, manager)));
}
