use vstd::prelude::*;

verus! {

/// The number of replicas that the managers of a data item aim to keep.
pub const STORE_REDUNDANCY: usize = 4;

/// A 256-bit identifier naming both peers and data items in the overlay, as four 64-bit
/// words, the most significant first.
#[derive(Clone, Copy, Debug, PartialEq, Eq, Hash, Structural)]
pub struct XorName(pub u64, pub u64, pub u64, pub u64);

/// The name whose every bit is the opposite of that in `name`.
pub open spec fn complement(name: XorName) -> XorName {
    XorName(!name.0, !name.1, !name.2, !name.3)
}

/// A token that ties the messages of one logical operation together.
#[derive(Clone, Copy, Debug, PartialEq, Eq, Hash, Structural)]
pub struct MessageId(pub XorName);

/// The id of the refresh messages that a node sends when `name` joins the network.
pub open spec fn added_node_id(name: XorName) -> MessageId {
    MessageId(name)
}

/// The id of the messages that a node sends when `name` leaves the network.
pub open spec fn lost_node_id(name: XorName) -> MessageId {
    MessageId(complement(name))
}

impl MessageId {
    pub fn from_added_node(name: XorName) -> (r: MessageId)
        ensures
            r == added_node_id(name),
    {
        MessageId(name)
    }

    pub fn from_lost_node(name: XorName) -> (r: MessageId)
        ensures
            r == lost_node_id(name),
    {
        MessageId(XorName(!name.0, !name.1, !name.2, !name.3))
    }
}

/// The two churn events of one peer never share a message id.
pub proof fn lemma_churn_ids_differ(name: XorName)
    ensures
        added_node_id(name) != lost_node_id(name),
{
    let x = name.0;
    assert(x != !x) by (bit_vector);
}

/// The role under which a node sends or receives a message.
#[derive(Clone, Copy, Debug, PartialEq, Eq, Hash, Structural)]
pub enum Authority {
    /// A client, by its name.
    Client(XorName),
    /// The group that manages the account of the named client.
    ClientManager(XorName),
    /// The group that knows where the replicas of the named data item live.
    NaeManager(XorName),
    /// A node that stores replicas, by its own name.
    ManagedNode(XorName),
}

/// The key of a data item, as used by `Get` requests.
#[derive(Clone, Copy, Debug, PartialEq, Eq, Hash, Structural)]
pub enum DataIdentifier {
    Immutable(XorName),
    Plain(XorName),
}

impl DataIdentifier {
    pub open spec fn spec_name(&self) -> XorName {
        match *self {
            DataIdentifier::Immutable(n) => n,
            DataIdentifier::Plain(n) => n,
        }
    }

    #[verifier::when_used_as_spec(spec_name)]
    pub fn name(&self) -> (r: XorName)
        ensures
            r == self.spec_name(),
    {
        match self {
            DataIdentifier::Immutable(n) => *n,
            DataIdentifier::Plain(n) => *n,
        }
    }
}

/// A data item: its name and its content.
#[derive(Debug)]
pub struct Data {
    pub name: XorName,
    pub value: Vec<u8>,
}

impl View for Data {
    type V = (XorName, Seq<u8>);

    open spec fn view(&self) -> (XorName, Seq<u8>) {
        (self.name, self.value@)
    }
}

impl Data {
    pub fn new(name: XorName, value: Vec<u8>) -> (r: Data)
        ensures
            r@ == (name, value@),
    {
        Data { name, value }
    }

    pub fn name(&self) -> (r: XorName)
        ensures
            r == self.name,
    {
        self.name
    }

    /// A copy of this item with the same name and content.
    pub fn duplicate(&self) -> (r: Data)
        ensures
            r@ == self@,
    {
        let mut value: Vec<u8> = Vec::new();
        let mut i: usize = 0;
        while i < self.value.len()
            invariant
                i <= self.value@.len(),
                value@ == self.value@.subrange(0, i as int),
            decreases self.value@.len() - i,
        {
            value.push(self.value[i]);
            i = i + 1;
            assert(value@ =~= self.value@.subrange(0, i as int));
        }
        assert(value@ =~= self.value@);
        Data { name: self.name, value }
    }
}

/// A copy of a vector of plain values.
pub fn copy_vec<T: Copy>(v: &Vec<T>) -> (r: Vec<T>)
    ensures
        r@ == v@,
{
    let mut out: Vec<T> = Vec::new();
    let mut i: usize = 0;
    while i < v.len()
        invariant
            i <= v@.len(),
            out@ == v@.subrange(0, i as int),
        decreases v@.len() - i,
    {
        out.push(v[i]);
        i = i + 1;
        assert(out@ =~= v@.subrange(0, i as int));
    }
    assert(out@ =~= v@);
    out
}

} // verus!
