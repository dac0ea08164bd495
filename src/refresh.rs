use crate::types::{Data, XorName};
use vstd::prelude::*;

verus! {

/// The tag byte that starts a client-account refresh.
pub const CLIENT_TAG: u8 = 0;

/// The tag byte that starts a data refresh.
pub const NAE_MANAGER_TAG: u8 = 1;

/// The state that a refresh message carries to the other members of a group.
#[derive(Debug)]
pub enum RefreshContent {
    /// The account counter of a client, for its `ClientManager` group.
    Client { client_name: XorName, data: u64 },
    /// A data item, for its `NaeManager` group.
    NaeManager { data_name: XorName, data: Data },
}

/// What a refresh message says, as plain values.
#[allow(inconsistent_fields)]
pub enum RefreshModel {
    Client { client_name: XorName, data: u64 },
    NaeManager { data_name: XorName, data: (XorName, Seq<u8>) },
}

impl View for RefreshContent {
    type V = RefreshModel;

    open spec fn view(&self) -> RefreshModel {
        match self {
            RefreshContent::Client { client_name, data } => RefreshModel::Client {
                client_name: *client_name,
                data: *data,
            },
            RefreshContent::NaeManager { data_name, data } => RefreshModel::NaeManager {
                data_name: *data_name,
                data: data@,
            },
        }
    }
}

/// Why a refresh payload could not be read.
#[derive(Clone, Copy, Debug, PartialEq, Eq, Structural)]
pub enum DecodeError {
    /// The payload has no tag byte.
    Empty,
    /// The first byte is no known tag.
    UnknownTag,
    /// The payload is too short, or too long, for its tag.
    BadLength,
}

/// The eight bytes of `x`, most significant first.
#[verifier::opaque]
pub open spec fn u64_bytes(x: u64) -> Seq<u8> {
    seq![
        (x >> 56u64) as u8,
        (x >> 48u64) as u8,
        (x >> 40u64) as u8,
        (x >> 32u64) as u8,
        (x >> 24u64) as u8,
        (x >> 16u64) as u8,
        (x >> 8u64) as u8,
        x as u8,
    ]
}

/// The number whose eight bytes, most significant first, are `s[0..8]`.
#[verifier::opaque]
pub open spec fn u64_of(s: Seq<u8>) -> u64 {
    (s[0] as u64) << 56u64 | (s[1] as u64) << 48u64 | (s[2] as u64) << 40u64 | (s[3] as u64) << 32u64
        | (s[4] as u64) << 24u64 | (s[5] as u64) << 16u64 | (s[6] as u64) << 8u64 | (s[7] as u64)
}

/// The 32 bytes of a name, most significant first.
pub open spec fn name_bytes(n: XorName) -> Seq<u8> {
    u64_bytes(n.0) + u64_bytes(n.1) + u64_bytes(n.2) + u64_bytes(n.3)
}

/// The name whose 32 bytes, most significant first, are `s[0..32]`.
pub open spec fn name_of(s: Seq<u8>) -> XorName {
    XorName(
        u64_of(s.subrange(0, 8)),
        u64_of(s.subrange(8, 16)),
        u64_of(s.subrange(16, 24)),
        u64_of(s.subrange(24, 32)),
    )
}

/// The bytes of a refresh message: a tag byte, then the fields in order, each name in 32
/// bytes and each number in eight, and last the content of a data item.
pub open spec fn encoding(m: RefreshModel) -> Seq<u8> {
    match m {
        RefreshModel::Client { client_name, data } => seq![CLIENT_TAG] + name_bytes(client_name)
            + u64_bytes(data),
        RefreshModel::NaeManager { data_name, data } => seq![NAE_MANAGER_TAG] + name_bytes(
            data_name,
        ) + name_bytes(data.0) + data.1,
    }
}

/// What a payload reads as, or `None` where it is no encoding of a refresh message.
pub open spec fn decoding(b: Seq<u8>) -> Option<RefreshModel> {
    if b.len() == 41 && b[0] == CLIENT_TAG {
        Some(
            RefreshModel::Client {
                client_name: name_of(b.subrange(1, 33)),
                data: u64_of(b.subrange(33, 41)),
            },
        )
    } else if b.len() >= 65 && b[0] == NAE_MANAGER_TAG {
        Some(
            RefreshModel::NaeManager {
                data_name: name_of(b.subrange(1, 33)),
                data: (name_of(b.subrange(33, 65)), b.subrange(65, b.len() as int)),
            },
        )
    } else {
        None
    }
}

/// The error that `decode` gives for a payload that `decoding` rejects.
pub open spec fn decode_error(b: Seq<u8>) -> DecodeError {
    if b.len() == 0 {
        DecodeError::Empty
    } else if b[0] != CLIENT_TAG && b[0] != NAE_MANAGER_TAG {
        DecodeError::UnknownTag
    } else {
        DecodeError::BadLength
    }
}

proof fn lemma_u64_round_trip(x: u64)
    ensures
        u64_of(u64_bytes(x)) == x,
        u64_bytes(x).len() == 8,
{
    reveal(u64_of);
    reveal(u64_bytes);
    assert((((x >> 56u64) as u8) as u64) << 56u64 | (((x >> 48u64) as u8) as u64) << 48u64 | (((x
        >> 40u64) as u8) as u64) << 40u64 | (((x >> 32u64) as u8) as u64) << 32u64 | (((x >> 24u64)
        as u8) as u64) << 24u64 | (((x >> 16u64) as u8) as u64) << 16u64 | (((x >> 8u64) as u8)
        as u64) << 8u64 | ((x as u8) as u64) == x) by (bit_vector);
}

proof fn lemma_name_round_trip(n: XorName)
    ensures
        name_of(name_bytes(n)) == n,
        name_bytes(n).len() == 32,
{
    let b = name_bytes(n);
    lemma_u64_round_trip(n.0);
    lemma_u64_round_trip(n.1);
    lemma_u64_round_trip(n.2);
    lemma_u64_round_trip(n.3);
    assert(b.subrange(0, 8) =~= u64_bytes(n.0));
    assert(b.subrange(8, 16) =~= u64_bytes(n.1));
    assert(b.subrange(16, 24) =~= u64_bytes(n.2));
    assert(b.subrange(24, 32) =~= u64_bytes(n.3));
}

/// Decoding the encoding of a refresh message gives the message back.
pub proof fn lemma_refresh_round_trip(m: RefreshModel)
    ensures
        decoding(encoding(m)) == Some(m),
{
    let b = encoding(m);
    match m {
        RefreshModel::Client { client_name, data } => {
            lemma_name_round_trip(client_name);
            lemma_u64_round_trip(data);
            assert(b.subrange(1, 33) =~= name_bytes(client_name));
            assert(b.subrange(33, 41) =~= u64_bytes(data));
        },
        RefreshModel::NaeManager { data_name, data } => {
            lemma_name_round_trip(data_name);
            lemma_name_round_trip(data.0);
            assert(b.subrange(1, 33) =~= name_bytes(data_name));
            assert(b.subrange(33, 65) =~= name_bytes(data.0));
            assert(b.subrange(65, b.len() as int) =~= data.1);
        },
    }
}

fn push_u64(out: &mut Vec<u8>, x: u64)
    ensures
        final(out)@ == old(out)@ + u64_bytes(x),
{
    reveal(u64_bytes);
    out.push((x >> 56u64) as u8);
    out.push((x >> 48u64) as u8);
    out.push((x >> 40u64) as u8);
    out.push((x >> 32u64) as u8);
    out.push((x >> 24u64) as u8);
    out.push((x >> 16u64) as u8);
    out.push((x >> 8u64) as u8);
    out.push(x as u8);
    assert(out@ =~= old(out)@ + u64_bytes(x));
}

fn read_u64(b: &Vec<u8>, at: usize) -> (r: u64)
    requires
        at + 8 <= b@.len(),
    ensures
        r == u64_of(b@.subrange(at as int, at + 8)),
{
    let _n = b.len();
    reveal(u64_of);
    let s = Ghost(b@.subrange(at as int, at + 8));
    assert(s@[0] == b@[at as int] && s@[1] == b@[at + 1] && s@[2] == b@[at + 2] && s@[3] == b@[at
        + 3] && s@[4] == b@[at + 4] && s@[5] == b@[at + 5] && s@[6] == b@[at + 6] && s@[7] == b@[at
        + 7]);
    (b[at] as u64) << 56u64 | (b[at + 1] as u64) << 48u64 | (b[at + 2] as u64) << 40u64 | (b[at
        + 3] as u64) << 32u64 | (b[at + 4] as u64) << 24u64 | (b[at + 5] as u64) << 16u64 | (b[at
        + 6] as u64) << 8u64 | (b[at + 7] as u64)
}

fn push_name(out: &mut Vec<u8>, n: XorName)
    ensures
        final(out)@ == old(out)@ + name_bytes(n),
{
    proof {
        lemma_name_round_trip(n);
    }
    push_u64(out, n.0);
    push_u64(out, n.1);
    push_u64(out, n.2);
    push_u64(out, n.3);
    assert(out@ =~= old(out)@ + name_bytes(n));
}

fn read_name(b: &Vec<u8>, at: usize) -> (r: XorName)
    requires
        at + 32 <= b@.len(),
    ensures
        r == name_of(b@.subrange(at as int, at + 32)),
{
    let _n = b.len();
    let s = Ghost(b@.subrange(at as int, at + 32));
    assert(s@.subrange(0, 8) =~= b@.subrange(at as int, at + 8));
    assert(s@.subrange(8, 16) =~= b@.subrange(at + 8, at + 16));
    assert(s@.subrange(16, 24) =~= b@.subrange(at + 16, at + 24));
    assert(s@.subrange(24, 32) =~= b@.subrange(at + 24, at + 32));
    XorName(read_u64(b, at), read_u64(b, at + 8), read_u64(b, at + 16), read_u64(b, at + 24))
}

/// The bytes of a refresh message.
pub fn encode(content: &RefreshContent) -> (r: Vec<u8>)
    ensures
        r@ == encoding(content@),
{
    let mut out: Vec<u8> = Vec::new();
    match content {
        RefreshContent::Client { client_name, data } => {
            out.push(CLIENT_TAG);
            push_name(&mut out, *client_name);
            push_u64(&mut out, *data);
            assert(out@ =~= encoding(content@));
        },
        RefreshContent::NaeManager { data_name, data } => {
            out.push(NAE_MANAGER_TAG);
            push_name(&mut out, *data_name);
            push_name(&mut out, data.name);
            let mut i: usize = 0;
            while i < data.value.len()
                invariant
                    i <= data.value@.len(),
                    out@ == seq![NAE_MANAGER_TAG] + name_bytes(*data_name) + name_bytes(data.name)
                        + data.value@.subrange(0, i as int),
                decreases data.value@.len() - i,
            {
                out.push(data.value[i]);
                i = i + 1;
                assert(out@ =~= seq![NAE_MANAGER_TAG] + name_bytes(*data_name) + name_bytes(data.name)
                    + data.value@.subrange(0, i as int));
            }
            assert(data.value@.subrange(0, i as int) =~= data.value@);
        },
    }
    out
}

/// Reads a refresh message; the bytes that `encode` wrote read back as what was written.
pub fn decode(b: &Vec<u8>) -> (r: Result<RefreshContent, DecodeError>)
    ensures
        match r {
            Ok(c) => decoding(b@) == Some(c@),
            Err(e) => decoding(b@).is_none() && e == decode_error(b@),
        },
{
    if b.len() == 0 {
        return Err(DecodeError::Empty);
    }
    let tag = b[0];
    if tag != CLIENT_TAG && tag != NAE_MANAGER_TAG {
        return Err(DecodeError::UnknownTag);
    }
    if (tag == CLIENT_TAG && b.len() != 41) || (tag == NAE_MANAGER_TAG && b.len() < 65) {
        return Err(DecodeError::BadLength);
    }
    let first = read_name(b, 1);
    if tag == CLIENT_TAG {
        Ok(RefreshContent::Client { client_name: first, data: read_u64(b, 33) })
    } else {
        let second = read_name(b, 33);
        let mut value: Vec<u8> = Vec::new();
        let mut i: usize = 65;
        while i < b.len()
            invariant
                65 <= i <= b@.len(),
                value@ == b@.subrange(65, i as int),
            decreases b@.len() - i,
        {
            value.push(b[i]);
            i = i + 1;
            assert(value@ =~= b@.subrange(65, i as int));
        }
        Ok(RefreshContent::NaeManager { data_name: first, data: Data { name: second, value } })
    }
}

} // verus!
