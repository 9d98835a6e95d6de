//! Discovery of the public address by STUN.

use vstd::prelude::*;

use crate::ambient::random_transaction;

verus! {

pub const STUN_BINDING_REQUEST: u16 = 0x0001;

pub const STUN_BINDING_RESPONSE: u16 = 0x0101;

pub const STUN_MAGIC_COOKIE: u32 = 0x2112_A442;

pub const ATTR_XOR_MAPPED_ADDRESS: u16 = 0x0020;

/// An address of version 4 with its port.
#[derive(Debug, Clone, Copy, PartialEq, Eq)]
pub struct MappedAddress {
    pub ip: [u8; 4],
    pub port: u16,
}

/// Speaks STUN with a server.
pub struct StunClient;

/// The two bytes of `data` at `pos`, most significant first.
pub open spec fn be16(data: Seq<u8>, pos: int) -> int {
    data[pos] * 256 + data[pos + 1]
}

/// The two bytes of `n`, most significant first.
pub open spec fn be16_bytes(n: u16) -> Seq<u8> {
    seq![(n / 256) as u8, (n % 256) as u8]
}

/// The four bytes of `n`, most significant first.
pub open spec fn be32_bytes(n: u32) -> Seq<u8> {
    seq![
        (n / 0x100_0000) as u8,
        ((n / 0x1_0000) % 256) as u8,
        ((n / 256) % 256) as u8,
        (n % 256) as u8,
    ]
}

/// The request: its type, no attributes, the magic cookie, the transaction.
pub open spec fn binding_request_of(transaction: Seq<u8>) -> Seq<u8> {
    be16_bytes(STUN_BINDING_REQUEST) + be16_bytes(0) + be32_bytes(STUN_MAGIC_COOKIE) + transaction
}

/// A port under the most significant half of the magic cookie. The same again
/// takes it away.
pub open spec fn masked_port(port: u16) -> u16 {
    port ^ ((STUN_MAGIC_COOKIE / 0x1_0000) as u16)
}

/// A byte of an address under the byte of the magic cookie at the same place.
/// The same again takes it away.
pub open spec fn masked_byte(b: u8, i: int) -> u8 {
    b ^ be32_bytes(STUN_MAGIC_COOKIE)[i]
}

/// The address in the attribute value at `pos`.
pub open spec fn unmasked(data: Seq<u8>, pos: int) -> MappedAddress {
    MappedAddress {
        ip: [
            masked_byte(data[pos + 4], 0),
            masked_byte(data[pos + 5], 1),
            masked_byte(data[pos + 6], 2),
            masked_byte(data[pos + 7], 3),
        ],
        port: masked_port(be16(data, pos + 2) as u16),
    }
}

/// The first mapped address of version 4 among the attributes from `pos` on.
/// An attribute that does not lie within `data` is the last.
pub open spec fn mapped_from(data: Seq<u8>, pos: int) -> Option<MappedAddress>
    decreases data.len() - pos,
{
    let kind = be16(data, pos);
    let len = be16(data, pos + 2);
    let value = pos + 4;
    if pos < 0 || value > data.len() || value + len > data.len() {
        None
    } else if kind == ATTR_XOR_MAPPED_ADDRESS && data[value + 1] == 0x01 {
        Some(unmasked(data, value))
    } else {
        mapped_from(data, value + len)
    }
}

/// Whether the bytes that `mapped_from` reads of mapped addresses are there,
/// whatever the length of the attribute: four bytes of each, and eight where
/// the address is of version 4.
pub open spec fn readable_from(data: Seq<u8>, pos: int) -> bool
    decreases data.len() - pos,
{
    let kind = be16(data, pos);
    let len = be16(data, pos + 2);
    let value = pos + 4;
    if pos < 0 || value > data.len() || value + len > data.len() {
        true
    } else if kind == ATTR_XOR_MAPPED_ADDRESS && value + 4 > data.len() {
        false
    } else if kind == ATTR_XOR_MAPPED_ADDRESS && data[value + 1] == 0x01 {
        value + 8 <= data.len()
    } else {
        readable_from(data, value + len)
    }
}

/// Whether `data` is long enough to be a response and is one by its type.
pub open spec fn is_binding_response(data: Seq<u8>) -> bool {
    data.len() >= 20 && be16(data, 0) == STUN_BINDING_RESPONSE
}

/// Whether a response holds what it says of its mapped addresses.
pub open spec fn readable(data: Seq<u8>) -> bool {
    is_binding_response(data) ==> readable_from(data, 20)
}

/// The mapped address that a response carries.
pub open spec fn mapped_address(data: Seq<u8>) -> Option<MappedAddress> {
    if is_binding_response(data) {
        mapped_from(data, 20)
    } else {
        None
    }
}

fn read_be16(data: &[u8], pos: usize) -> (n: u16)
    requires
        pos + 2 <= data.len(),
    ensures
        n == be16(data@, pos as int),
{
    data[pos] as u16 * 256 + data[pos + 1] as u16
}

fn be16_array(n: u16) -> (out: [u8; 2])
    ensures
        out@ == be16_bytes(n),
{
    let out = [(n / 256) as u8, (n % 256) as u8];
    assert(out@ =~= be16_bytes(n));
    out
}

fn be32_array(n: u32) -> (out: [u8; 4])
    ensures
        out@ == be32_bytes(n),
{
    let out = [
        (n / 0x100_0000) as u8,
        ((n / 0x1_0000) % 256) as u8,
        ((n / 256) % 256) as u8,
        (n % 256) as u8,
    ];
    assert(out@ =~= be32_bytes(n));
    out
}

fn push_bytes(out: &mut Vec<u8>, bytes: &[u8])
    ensures
        final(out)@ == old(out)@ + bytes@,
{
    let ghost before = out@;
    let mut i: usize = 0;
    while i < bytes.len()
        invariant
            i <= bytes.len(),
            out@ == before + bytes@.take(i as int),
        decreases bytes.len() - i,
    {
        out.push(bytes[i]);
        i += 1;
        assert(out@ =~= before + bytes@.take(i as int));
    }
    assert(bytes@.take(bytes@.len() as int) =~= bytes@);
}

impl StunClient {
    /// A request for the public address, under a transaction drawn by chance.
    pub fn new_binding_request() -> (out: Vec<u8>)
        ensures
            exists|transaction: Seq<u8>|
                transaction.len() == 12 && out@ == #[trigger] binding_request_of(transaction),
    {
        let transaction = random_transaction();
        Self::binding_request(&transaction)
    }

    /// The request for the public address under the given transaction.
    pub fn binding_request(transaction: &[u8; 12]) -> (out: Vec<u8>)
        ensures
            out@ == binding_request_of(transaction@),
    {
        let mut out: Vec<u8> = Vec::with_capacity(20);
        push_bytes(&mut out, &be16_array(STUN_BINDING_REQUEST));
        push_bytes(&mut out, &be16_array(0));
        push_bytes(&mut out, &be32_array(STUN_MAGIC_COOKIE));
        push_bytes(&mut out, transaction);
        assert(out@ =~= binding_request_of(transaction@));
        out
    }

    /// Whether a response holds what it says of its mapped addresses, so that
    /// `parse_xor_address` can read it.
    pub fn is_readable(data: &[u8]) -> (r: bool)
        ensures
            r == readable(data@),
    {
        if data.len() < 20 || read_be16(data, 0) != STUN_BINDING_RESPONSE {
            return true;
        }
        let mut pos: usize = 20;
        while data.len() - pos >= 4
            invariant
                20 <= pos <= data.len(),
                is_binding_response(data@),
                readable_from(data@, 20) == readable_from(data@, pos as int),
            decreases data.len() - pos,
        {
            let kind: u16 = read_be16(data, pos);
            let len: usize = read_be16(data, pos + 2) as usize;
            pos += 4;
            if kind == ATTR_XOR_MAPPED_ADDRESS && len <= data.len() - pos {
                if data.len() - pos < 4 {
                    return false;
                }
                if data[pos + 1] == 0x01 {
                    return data.len() - pos >= 8;
                }
            }
            if len > data.len() - pos {
                return true;
            }
            pos += len;
        }
        true
    }

    /// The public address in a response: the first mapped address of
    /// version 4.
    pub fn parse_xor_address(data: &[u8]) -> (r: Option<MappedAddress>)
        requires
            readable(data@),
        ensures
            r == mapped_address(data@),
    {
        if data.len() < 20 || read_be16(data, 0) != STUN_BINDING_RESPONSE {
            return None;
        }
        let mut pos: usize = 20;
        while data.len() - pos >= 4
            invariant
                20 <= pos <= data.len(),
                readable_from(data@, pos as int),
                mapped_from(data@, 20) == mapped_from(data@, pos as int),
                is_binding_response(data@),
            decreases data.len() - pos,
        {
            let kind: u16 = read_be16(data, pos);
            let len: usize = read_be16(data, pos + 2) as usize;
            pos += 4;
            if kind == ATTR_XOR_MAPPED_ADDRESS && len <= data.len() - pos {
                if data[pos + 1] == 0x01 {
                    let cookie = be32_array(STUN_MAGIC_COOKIE);
                    let port: u16 = read_be16(data, pos + 2) ^ ((STUN_MAGIC_COOKIE / 0x1_0000)
                        as u16);
                    let ip: [u8; 4] = [
                        data[pos + 4] ^ cookie[0],
                        data[pos + 5] ^ cookie[1],
                        data[pos + 6] ^ cookie[2],
                        data[pos + 7] ^ cookie[3],
                    ];
                    assert(ip@ =~= unmasked(data@, pos as int).ip@);
                    return Some(MappedAddress { ip, port });
                }
            }
            if len > data.len() - pos {
                return None;
            }
            pos += len;
        }
        None
    }
}

/// An attribute: its kind, the length of its value, its value.
pub open spec fn attribute(kind: u16, value: Seq<u8>) -> Seq<u8> {
    be16_bytes(kind) + be16_bytes(value.len() as u16) + value
}

/// Attributes one behind the other.
pub open spec fn attributes(list: Seq<(u16, Seq<u8>)>) -> Seq<u8>
    decreases list.len(),
{
    if list.len() == 0 {
        seq![]
    } else {
        attributes(list.drop_last()) + attribute(list.last().0, list.last().1)
    }
}

/// The value of the attribute in which a server hands out an address.
pub open spec fn masked(address: MappedAddress) -> Seq<u8> {
    seq![0x00u8, 0x01u8] + be16_bytes(masked_port(address.port)) + seq![
        masked_byte(address.ip[0], 0),
        masked_byte(address.ip[1], 1),
        masked_byte(address.ip[2], 2),
        masked_byte(address.ip[3], 3),
    ]
}

proof fn lemma_be16_at(data: Seq<u8>, pos: int, n: u16)
    requires
        0 <= pos,
        pos + 2 <= data.len(),
        data.subrange(pos, pos + 2) == be16_bytes(n),
    ensures
        be16(data, pos) == n,
{
    assert(data[pos] == data.subrange(pos, pos + 2)[0]);
    assert(data[pos + 1] == data.subrange(pos, pos + 2)[1]);
}

/// An attribute of another kind is passed over.
proof fn lemma_other_attribute(head: Seq<u8>, kind: u16, value: Seq<u8>, rest: Seq<u8>)
    requires
        kind != ATTR_XOR_MAPPED_ADDRESS,
        value.len() <= 0xffff,
    ensures
        ({
            let data = head + attribute(kind, value) + rest;
            let next = head.len() + 4 + value.len();
            &&& mapped_from(data, head.len() as int) == mapped_from(data, next as int)
            &&& readable_from(data, head.len() as int) == readable_from(data, next as int)
        }),
{
    let data = head + attribute(kind, value) + rest;
    let pos = head.len() as int;
    assert(data.subrange(pos, pos + 2) =~= be16_bytes(kind));
    assert(data.subrange(pos + 2, pos + 4) =~= be16_bytes(value.len() as u16));
    lemma_be16_at(data, pos, kind);
    lemma_be16_at(data, pos + 2, value.len() as u16);
}

proof fn lemma_other_attributes(head: Seq<u8>, list: Seq<(u16, Seq<u8>)>, rest: Seq<u8>)
    requires
        forall|i: int|
            0 <= i < list.len() ==> (#[trigger] list[i]).0 != ATTR_XOR_MAPPED_ADDRESS
                && list[i].1.len() <= 0xffff,
    ensures
        ({
            let data = head + attributes(list) + rest;
            let next = head.len() + attributes(list).len();
            &&& mapped_from(data, head.len() as int) == mapped_from(data, next as int)
            &&& readable_from(data, head.len() as int) == readable_from(data, next as int)
        }),
    decreases list.len(),
{
    if list.len() > 0 {
        let before = list.drop_last();
        let kind = list.last().0;
        let value = list.last().1;
        assert(list[list.len() - 1].0 != ATTR_XOR_MAPPED_ADDRESS);
        assert forall|i: int| 0 <= i < before.len() implies (#[trigger] before[i]).0
            != ATTR_XOR_MAPPED_ADDRESS && before[i].1.len() <= 0xffff by {
            assert(before[i] == list[i]);
        }
        lemma_other_attributes(head, before, attribute(kind, value) + rest);
        lemma_other_attribute(head + attributes(before), kind, value, rest);
        let data = head + attributes(list) + rest;
        assert(data =~= head + attributes(before) + (attribute(kind, value) + rest));
        assert(data =~= (head + attributes(before)) + attribute(kind, value) + rest);
    }
}

proof fn lemma_mask(address: MappedAddress)
    ensures
        masked_port(masked_port(address.port)) == address.port,
        masked_byte(masked_byte(address.ip[0], 0), 0) == address.ip[0],
        masked_byte(masked_byte(address.ip[1], 1), 1) == address.ip[1],
        masked_byte(masked_byte(address.ip[2], 2), 2) == address.ip[2],
        masked_byte(masked_byte(address.ip[3], 3), 3) == address.ip[3],
{
    let p = address.port;
    let m = (STUN_MAGIC_COOKIE / 0x1_0000) as u16;
    assert((p ^ m) ^ m == p) by (bit_vector);
    let k = be32_bytes(STUN_MAGIC_COOKIE);
    lemma_mask_byte(address.ip[0], k[0]);
    lemma_mask_byte(address.ip[1], k[1]);
    lemma_mask_byte(address.ip[2], k[2]);
    lemma_mask_byte(address.ip[3], k[3]);
}

proof fn lemma_mask_byte(b: u8, k: u8)
    ensures
        (b ^ k) ^ k == b,
{
    assert((b ^ k) ^ k == b) by (bit_vector);
}

/// Whatever address a server hands out in a response, the client reads that
/// address, whichever attributes of other kinds stand before it and whatever
/// stands behind it.
pub proof fn address_round_trip(
    header: Seq<u8>,
    before: Seq<(u16, Seq<u8>)>,
    address: MappedAddress,
    behind: Seq<u8>,
)
    requires
        header.len() == 20,
        be16(header, 0) == STUN_BINDING_RESPONSE,
        forall|i: int|
            0 <= i < before.len() ==> (#[trigger] before[i]).0 != ATTR_XOR_MAPPED_ADDRESS
                && before[i].1.len() <= 0xffff,
    ensures
        ({
            let data = header + attributes(before) + (attribute(
                ATTR_XOR_MAPPED_ADDRESS,
                masked(address),
            ) + behind);
            &&& readable(data)
            &&& mapped_address(data) == Some(address)
        }),
{
    let own = attribute(ATTR_XOR_MAPPED_ADDRESS, masked(address));
    let data = header + attributes(before) + (own + behind);
    assert(data[0] == header[0] && data[1] == header[1]);
    lemma_other_attributes(header, before, own + behind);
    assert(data =~= (header + attributes(before)) + own + behind);
    lemma_own_attribute(header + attributes(before), address, behind);
}

/// The attribute that hands out an address is read.
proof fn lemma_own_attribute(head: Seq<u8>, address: MappedAddress, behind: Seq<u8>)
    ensures
        ({
            let data = head + attribute(ATTR_XOR_MAPPED_ADDRESS, masked(address)) + behind;
            &&& readable_from(data, head.len() as int)
            &&& mapped_from(data, head.len() as int) == Some(address)
        }),
{
    let own = attribute(ATTR_XOR_MAPPED_ADDRESS, masked(address));
    let data = head + own + behind;
    let pos = head.len() as int;
    assert(data.subrange(pos, pos + own.len()) =~= own);
    assert(data.subrange(pos, pos + 2) =~= be16_bytes(ATTR_XOR_MAPPED_ADDRESS));
    assert(data.subrange(pos + 2, pos + 4) =~= be16_bytes(8));
    lemma_be16_at(data, pos, ATTR_XOR_MAPPED_ADDRESS);
    lemma_be16_at(data, pos + 2, 8);
    let value = pos + 4;
    assert(data.subrange(value, value + 8) =~= masked(address));
    assert(data.subrange(value + 2, value + 4) =~= be16_bytes(masked_port(address.port)));
    lemma_be16_at(data, value + 2, masked_port(address.port));
    let shown = data.subrange(value, value + 8);
    assert(data[value + 1] == shown[1]);
    assert(data[value + 4] == shown[4]);
    assert(data[value + 5] == shown[5]);
    assert(data[value + 6] == shown[6]);
    assert(data[value + 7] == shown[7]);
    lemma_mask(address);
    assert(unmasked(data, value).ip@ =~= address.ip@);
    assert(unmasked(data, value).ip == address.ip);
}

/// The request asks for a binding, without attributes, under the cookie of the
/// protocol and the transaction that is given.
pub proof fn a_request_asks_for_a_binding(transaction: &[u8; 12], out: Vec<u8>)
    requires
        call_ensures(StunClient::binding_request, (transaction,), out),
    ensures
        out@ == seq![0x00u8, 0x01u8, 0x00u8, 0x00u8, 0x21u8, 0x12u8, 0xa4u8, 0x42u8]
            + transaction@,
{
    assert(out@ =~= seq![0x00u8, 0x01u8, 0x00u8, 0x00u8, 0x21u8, 0x12u8, 0xa4u8, 0x42u8]
        + transaction@);
}

/// A mapped address is read from its bytes, each under the byte of the cookie at
/// its place, and the port under the first two.
pub proof fn a_mapped_address_is_read_from_its_bytes(
    header: Seq<u8>,
    before: Seq<(u16, Seq<u8>)>,
    value: Seq<u8>,
    behind: Seq<u8>,
    ip: [u8; 4],
)
    requires
        header.len() == 20,
        header[0] == 0x01,
        header[1] == 0x01,
        forall|i: int|
            0 <= i < before.len() ==> (#[trigger] before[i]).0 != 0x0020 && before[i].1.len()
                <= 0xffff,
        value.len() == 8,
        value[0] == 0x00,
        value[1] == 0x01,
        ip@ == seq![value[4] ^ 0x21, value[5] ^ 0x12, value[6] ^ 0xa4, value[7] ^ 0x42],
    ensures
        ({
            let data = header + attributes(before) + (seq![0x00u8, 0x20u8, 0x00u8, 0x08u8] + value
                + behind);
            let port = (value[2] ^ 0x21) * 256 + (value[3] ^ 0x12);
            &&& readable(data)
            &&& mapped_address(data) == Some(MappedAddress { ip, port: port as u16 })
        }),
{
    let port = ((value[2] ^ 0x21) * 256 + (value[3] ^ 0x12)) as u16;
    let address = MappedAddress { ip, port };
    lemma_port_mask(value[2], value[3], port);
    lemma_mask_byte(value[4], 0x21);
    lemma_mask_byte(value[5], 0x12);
    lemma_mask_byte(value[6], 0xa4);
    lemma_mask_byte(value[7], 0x42);
    assert(ip@[0] == value[4] ^ 0x21 && ip@[1] == value[5] ^ 0x12 && ip@[2] == value[6] ^ 0xa4
        && ip@[3] == value[7] ^ 0x42);
    assert(ip[0] == ip@[0] && ip[1] == ip@[1] && ip[2] == ip@[2] && ip[3] == ip@[3]);
    let k = be32_bytes(STUN_MAGIC_COOKIE);
    assert(k[0] == 0x21 && k[1] == 0x12 && k[2] == 0xa4 && k[3] == 0x42);
    assert(masked(address) =~= value);
    let own = attribute(ATTR_XOR_MAPPED_ADDRESS, masked(address));
    assert(own =~= seq![0x00u8, 0x20u8, 0x00u8, 0x08u8] + value);
    assert(be16(header, 0) == STUN_BINDING_RESPONSE);
    address_round_trip(header, before, address, behind);
}

proof fn lemma_port_mask(hi: u8, lo: u8, port: u16)
    requires
        port == (hi ^ 0x21) * 256 + (lo ^ 0x12),
    ensures
        masked_port(port) / 256 == hi,
        masked_port(port) % 256 == lo,
{
    assert((STUN_MAGIC_COOKIE / 0x1_0000) as u16 == 0x2112);
    assert((port ^ 0x2112) / 256 == hi && (port ^ 0x2112) % 256 == lo) by (bit_vector)
        requires
            port == (hi ^ 0x21) * 256 + (lo ^ 0x12),
    ;
}

/// What is too short for a response, or is none by its type, names no address,
/// and neither does a response without a mapped address.
pub proof fn without_a_mapped_address_none_is_read(
    data: Seq<u8>,
    header: Seq<u8>,
    list: Seq<(u16, Seq<u8>)>,
)
    requires
        header.len() == 20,
        forall|i: int|
            0 <= i < list.len() ==> (#[trigger] list[i]).0 != 0x0020 && list[i].1.len() <= 0xffff,
    ensures
        data.len() < 20 || data[0] != 0x01 || data[1] != 0x01 ==> readable(data)
            && mapped_address(data) is None,
        readable(header + attributes(list)),
        mapped_address(header + attributes(list)) is None,
{
    let all = header + attributes(list) + seq![];
    assert(all =~= header + attributes(list));
    lemma_other_attributes(header, list, seq![]);
}

/// A mapped address of another version is passed over, and the one behind it is
/// read.
pub proof fn other_versions_are_passed_over(
    header: Seq<u8>,
    other: Seq<u8>,
    address: MappedAddress,
    behind: Seq<u8>,
)
    requires
        header.len() == 20,
        header[0] == 0x01,
        header[1] == 0x01,
        4 <= other.len() <= 0xffff,
        other[1] != 0x01,
    ensures
        ({
            let data = header + attribute(0x0020, other) + attribute(0x0020, masked(address))
                + behind;
            &&& readable(data)
            &&& mapped_address(data) == Some(address)
        }),
{
    let head = header + attribute(0x0020, other);
    let data = head + attribute(0x0020, masked(address)) + behind;
    assert(data[0] == header[0] && data[1] == header[1]);
    assert(be16(data, 0) == STUN_BINDING_RESPONSE);
    assert(data.subrange(20, 22) =~= be16_bytes(0x0020));
    assert(data.subrange(22, 24) =~= be16_bytes(other.len() as u16));
    lemma_be16_at(data, 20, 0x0020);
    lemma_be16_at(data, 22, other.len() as u16);
    assert(data[25] == other[1]);
    lemma_own_attribute(head, address, behind);
}

} // verus!
