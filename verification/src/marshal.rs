//! Writing a record into the caller's scratch buffer.
//!
//! The dispatcher hands over a buffer of a declared size, and everything that
//! the output record points to has to lie inside it. A record is laid out
//! from the start of the buffer as
//!
//! | bytes                 | content                                         |
//! |-----------------------|-------------------------------------------------|
//! | `POINTER_BYTES`       | the alias table: its terminating null entry     |
//! | `2 * POINTER_BYTES`   | the address table: one entry, then a null entry |
//! | 4 or 16               | the address, in network byte order              |
//! | name length + 1       | the name, then a zero byte                      |
//!
//! Both tables are written as zero bytes. The caller, who alone knows where
//! the buffer lies in memory, stores the address's location in the first
//! entry of the address table.

use vstd::prelude::*;
use crate::address::AddressFamily;
use crate::address::HostRecord;

verus! {

/// The size of one table entry: a pointer on the targets served.
pub const POINTER_BYTES: usize = 8;

/// The size of the two tables together.
pub const TABLES_BYTES: usize = 24;

/// `n` zero bytes.
pub open spec fn zeros(n: nat) -> Seq<u8> {
    Seq::new(n, |i: int| 0u8)
}

/// The bytes that a record with this address and name occupies.
pub open spec fn image(address: Seq<u8>, name: Seq<u8>) -> Seq<u8> {
    zeros(TABLES_BYTES as nat) + address + name.push(0u8)
}

/// The number of bytes that a record with an address of `addr_len` bytes and
/// a name of `name_len` bytes occupies.
pub open spec fn required_size(addr_len: nat, name_len: nat) -> nat {
    TABLES_BYTES as nat + addr_len + name_len + 1
}

/// Where the parts of a written record lie, as offsets from the start of the
/// buffer, with the two numbers that go into the output record as they are.
#[derive(Clone, Copy, Debug, PartialEq, Eq, Structural)]
pub struct RecordLayout {
    /// Offset of the alias table.
    pub aliases_at: usize,
    /// Offset of the address table.
    pub addr_list_at: usize,
    /// Offset of the address.
    pub address_at: usize,
    /// Offset of the name.
    pub name_at: usize,
    /// The family of the address.
    pub family: AddressFamily,
    /// The number of bytes in the address.
    pub addr_len: usize,
    /// The number of bytes written, from offset 0 on.
    pub total: usize,
}

/// The layout of a record of `family` with a name of `name_len` bytes.
pub open spec fn layout_of(family: AddressFamily, name_len: nat) -> RecordLayout
    recommends
        required_size(family.spec_addr_len(), name_len) <= usize::MAX,
{
    RecordLayout {
        aliases_at: 0,
        addr_list_at: POINTER_BYTES,
        address_at: TABLES_BYTES,
        name_at: (TABLES_BYTES + family.spec_addr_len()) as usize,
        family,
        addr_len: family.spec_addr_len() as usize,
        total: required_size(family.spec_addr_len(), name_len) as usize,
    }
}

/// Sets `n` bytes of `buf`, from offset `at` on, to zero.
pub fn fill_zeros(buf: &mut [u8], at: usize, n: usize)
    requires
        at + n <= old(buf)@.len(),
    ensures
        final(buf)@ == old(buf)@.subrange(0, at as int) + zeros(n as nat) + old(buf)@.subrange(
            at + n,
            old(buf)@.len() as int,
        ),
{
    let capacity: usize = buf.len();
    let mut i: usize = 0;
    while i < n
        invariant
            i <= n,
            at + n <= capacity,
            buf@.len() == capacity,
            capacity == old(buf)@.len(),
            forall|k: int| 0 <= k < at ==> buf@[k] == old(buf)@[k],
            forall|k: int| at <= k < at + i ==> buf@[k] == 0u8,
            forall|k: int| at + i <= k < buf@.len() ==> buf@[k] == old(buf)@[k],
        decreases n - i,
    {
        buf[at + i] = 0;
        i += 1;
    }
    assert(buf@ =~= old(buf)@.subrange(0, at as int) + zeros(n as nat) + old(buf)@.subrange(
        at + n,
        old(buf)@.len() as int,
    ));
}

/// Copies `src` into `buf` from offset `at` on.
pub fn fill(buf: &mut [u8], at: usize, src: &[u8])
    requires
        at + src@.len() <= old(buf)@.len(),
    ensures
        final(buf)@ == old(buf)@.subrange(0, at as int) + src@ + old(buf)@.subrange(
            at + src@.len(),
            old(buf)@.len() as int,
        ),
{
    let capacity: usize = buf.len();
    let n: usize = src.len();
    let mut i: usize = 0;
    while i < n
        invariant
            i <= n,
            n == src@.len(),
            at + n <= capacity,
            buf@.len() == capacity,
            capacity == old(buf)@.len(),
            forall|k: int| 0 <= k < at ==> buf@[k] == old(buf)@[k],
            forall|k: int| at <= k < at + i ==> buf@[k] == src@[k - at],
            forall|k: int| at + i <= k < buf@.len() ==> buf@[k] == old(buf)@[k],
        decreases n - i,
    {
        buf[at + i] = src[i];
        i += 1;
    }
    assert(buf@ =~= old(buf)@.subrange(0, at as int) + src@ + old(buf)@.subrange(
        at + src@.len(),
        old(buf)@.len() as int,
    ));
}

/// Writes `record` at the start of `buf` if it fits, and says where its parts
/// lie. Where it does not fit, nothing is written. Behind the record the
/// buffer keeps what it held.
pub fn write_record(record: &HostRecord, buf: &mut [u8]) -> (r: Option<RecordLayout>)
    requires
        record.wf(),
    ensures
        final(buf)@.len() == old(buf)@.len(),
        r.is_some() <==> required_size(record.address@.len(), record.name@.len()) <= old(
            buf,
        )@.len(),
        r.is_none() ==> final(buf)@ == old(buf)@,
        r.is_some() ==> r == Some(layout_of(record.family, record.name@.len())),
        r.is_some() ==> final(buf)@ == image(record.address@, record.name@) + old(buf)@.subrange(
            required_size(record.address@.len(), record.name@.len()) as int,
            old(buf)@.len() as int,
        ),
{
    let capacity: usize = buf.len();
    let addr_len: usize = record.address.len();
    let name_len: usize = record.name.len();
    if capacity < TABLES_BYTES + addr_len {
        return None;
    }
    let room: usize = capacity - TABLES_BYTES - addr_len;
    if room <= name_len {
        return None;
    }
    let name_at: usize = TABLES_BYTES + addr_len;
    let end: usize = name_at + name_len;
    fill_zeros(buf, 0, TABLES_BYTES);
    fill(buf, TABLES_BYTES, record.address.as_slice());
    fill(buf, name_at, record.name.as_slice());
    buf[end] = 0;
    assert(buf@ =~= image(record.address@, record.name@) + old(buf)@.subrange(
        required_size(record.address@.len(), record.name@.len()) as int,
        old(buf)@.len() as int,
    ));
    Some(
        RecordLayout {
            aliases_at: 0,
            addr_list_at: POINTER_BYTES,
            address_at: TABLES_BYTES,
            name_at,
            family: record.family,
            addr_len,
            total: end + 1,
        },
    )
}

} // verus!
