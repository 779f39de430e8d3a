//! MAT — message banks: the game's text storage.
//!
//! ```text
//! +0x00 2  count   number of messages
//! +0x02 2  key     per-bank seed for the entry obfuscation
//! +0x04 8*count    entries { u32 offset (bytes), u32 length (u16 units) }
//! ...             the strings: `length` little-endian u16 code units each,
//!                 tiling the member exactly in index order
//! ```
//!
//! The `length` of every message counts its trailing EOS unit (`0xFFFF`),
//! and every message's units end with one.
//!
//! Both layers are obfuscated with rolling XOR schemes:
//!
//! * Entries: each entry `n` XORed with the 16-bit seed
//!   `(key * 765 * (n+1)) & 0xFFFF` replicated into both halves.
//! * String units: message `n`'s units XORed with a rolling seed that
//!   starts at `((n+1) * 596947) & 0xFFFF` and grows by 18749 (mod
//!   0x10000) after each unit.

use vstd::prelude::*;
use crate::nds::{NdsError, spec_u16le, spec_u32le, u16le, u32le, slice_range};

verus! {

/// The EOS unit every message ends with.
pub const EOS: u16 = 0xFFFF;

/// The per-entry seed multiplier.
pub const ENTRY_MUL: u64 = 765;

/// The per-message text seed multiplier.
pub const TEXT_MUL: u64 = 596_947;

/// The per-unit text seed increment.
pub const TEXT_ADD: u64 = 18_749;

/// The 16-bit seed of entry `n`.
pub open spec fn entry_seed16(key: int, n: int) -> int {
    (key * 765 * (n + 1)) % 0x10000
}

/// The seed of entry `n`, replicated into both halves.
pub open spec fn entry_seed(key: int, n: int) -> u32 {
    (entry_seed16(key, n) + entry_seed16(key, n) * 0x10000) as u32
}

/// The text seed of unit `i` of message `n`.
pub open spec fn text_seed(n: int, i: int) -> u16 {
    (((n + 1) * 596947 + i * 18749) % 0x10000) as u16
}

/// The message count.
pub open spec fn mat_count(s: Seq<u8>) -> int {
    spec_u16le(s, 0) as int
}

/// The bank key.
pub open spec fn mat_key(s: Seq<u8>) -> u16 {
    spec_u16le(s, 2)
}

/// The end of the entry table.
pub open spec fn mat_table_end(s: Seq<u8>) -> int {
    4 + 8 * mat_count(s)
}

/// The decrypted offset of entry `n`.
pub open spec fn mat_offset(s: Seq<u8>, n: int) -> u32 {
    spec_u32le(s, 4 + 8 * n) ^ entry_seed(mat_key(s) as int, n)
}

/// The decrypted length (in units) of entry `n`.
pub open spec fn mat_length(s: Seq<u8>, n: int) -> u32 {
    spec_u32le(s, 8 + 8 * n) ^ entry_seed(mat_key(s) as int, n)
}

/// Where message `n` starts when the messages before it tile the member.
pub open spec fn mat_cursor(s: Seq<u8>, n: int) -> int
    decreases n,
{
    if n <= 0 {
        mat_table_end(s)
    } else {
        mat_cursor(s, n - 1) + 2 * mat_length(s, n - 1)
    }
}

/// Decrypted unit `i` of message `n`.
pub open spec fn mat_unit(s: Seq<u8>, n: int, i: int) -> u16 {
    spec_u16le(s, mat_cursor(s, n) + 2 * i) ^ text_seed(n, i)
}

/// The decrypted units of message `n`.
pub open spec fn mat_message(s: Seq<u8>, n: int) -> Seq<u16> {
    Seq::new(mat_length(s, n) as nat, |i: int| mat_unit(s, n, i))
}

/// Whether entry `n` is packed at the cursor, non-empty, inside the
/// member and ends with EOS.
pub open spec fn mat_entry_ok(s: Seq<u8>, n: int) -> bool {
    &&& mat_offset(s, n) == mat_cursor(s, n) as u32
    &&& mat_length(s, n) > 0
    &&& mat_cursor(s, n) + 2 * mat_length(s, n) <= s.len()
    &&& mat_unit(s, n, mat_length(s, n) - 1) == EOS
}

/// Whether `s` is a message bank the parser accepts.
pub open spec fn mat_ok(s: Seq<u8>) -> bool {
    &&& s.len() >= 4
    &&& mat_table_end(s) <= s.len()
    &&& forall|n: int| 0 <= n < mat_count(s) ==> #[trigger] mat_entry_ok(s, n)
    &&& mat_cursor(s, mat_count(s)) == s.len()
}

/// Message `k` of `n` whose starts are `starts`: up to the next start,
/// the last up to the end of `units`.
pub open spec fn msg_span(units: Seq<u16>, starts: Seq<usize>, n: int, k: int) -> Seq<u16> {
    units.subrange(
        starts[k] as int,
        if k + 1 < n {
            starts[k + 1] as int
        } else {
            units.len() as int
        },
    )
}

/// A parsed message bank. Borrows the member bytes; see
/// [`MsgBank::parse`].
#[derive(Debug)]
pub struct MsgBank<'a> {
    data: &'a [u8],
    key: u16,
    /// Every message's decrypted units, concatenated.
    units: Vec<u16>,
    /// Start of each message in `units`, then the end.
    starts: Vec<usize>,
}

/// The message spans of a well-formed bank: the first starts at 0, the
/// starts do not decrease, and the last is the unit count.
pub open spec fn spans_ok(starts: Seq<usize>, n_units: int) -> bool {
    &&& starts.len() >= 1
    &&& starts[0] == 0
    &&& starts[starts.len() - 1] == n_units
    &&& forall|i: int, j: int| 0 <= i <= j < starts.len() ==> starts[i] <= starts[j]
}

impl<'a> MsgBank<'a> {
    #[verifier::type_invariant]
    spec fn inv(self) -> bool {
        spans_ok(self.starts@, self.units@.len() as int)
    }

    /// The number of messages.
    pub closed spec fn spec_count(&self) -> int {
        self.starts@.len() - 1
    }

    /// Message `id`'s decrypted units.
    pub closed spec fn spec_message(&self, id: int) -> Seq<u16> {
        self.units@.subrange(self.starts@[id] as int, self.starts@[id + 1] as int)
    }

    /// The bank key.
    pub closed spec fn spec_key(&self) -> u16 {
        self.key
    }

    /// The member bytes.
    pub closed spec fn spec_raw(&self) -> Seq<u8> {
        self.data@
    }

    /// How a parse of `s` relates the bank to the bytes.
    pub open spec fn parsed_from(&self, s: Seq<u8>) -> bool {
        &&& self.spec_count() == mat_count(s)
        &&& self.spec_key() == mat_key(s)
        &&& self.spec_raw() == s
        &&& forall|n: int| 0 <= n < mat_count(s) ==> #[trigger] self.spec_message(n) == mat_message(s, n)
    }

    /// Parses a complete message bank: decrypts the entry table and every
    /// message, and enforces that the entries tile the member exactly in
    /// index order (the first right after the table, the last ending at
    /// the member end), that no message is empty, and that every message
    /// ends with EOS.
    pub fn parse(data: &'a [u8]) -> (res: Result<Self, NdsError>)
        ensures
            res is Ok <==> mat_ok(data@),
            res matches Ok(b) ==> b.parsed_from(data@),
            data@.len() < 4 ==> res == Err::<Self, NdsError>(
                NdsError::Truncated { what: "MAT header", need: 4, got: data@.len() as usize },
            ),
            data@.len() >= 4 && mat_table_end(data@) > data@.len() ==> res == Err::<Self, NdsError>(
                NdsError::Truncated {
                    what: "MAT entry table",
                    need: mat_table_end(data@) as usize,
                    got: data@.len() as usize,
                },
            ),
    {
        let ghost s = data@;
        if data.len() < 4 {
            return Err(NdsError::Truncated { what: "MAT header", need: 4, got: data.len() });
        }
        let count = u16le(data, 0)? as usize;
        let key = u16le(data, 2)?;
        let table_end = 4 + 8 * count;
        if data.len() < table_end {
            return Err(NdsError::Truncated { what: "MAT entry table", need: table_end, got: data.len() });
        }
        let mut units: Vec<u16> = Vec::new();
        let mut starts: Vec<usize> = Vec::new();
        let mut cursor = table_end;
        let mut n: usize = 0;
        while n < count
            invariant
                s == data@,
                count == mat_count(s),
                key == mat_key(s),
                table_end == mat_table_end(s),
                table_end <= s.len(),
                n <= count,
                cursor == mat_cursor(s, n as int),
                cursor <= s.len(),
                forall|k: int| 0 <= k < n ==> #[trigger] mat_entry_ok(s, k),
                starts@.len() == n,
                forall|k: int| 0 <= k < n ==> #[trigger] starts@[k] <= units@.len(),
                forall|i: int, j: int| 0 <= i <= j < n ==> starts@[i] <= starts@[j],
                n > 0 ==> starts@[0] == 0,
                n == 0 ==> units@.len() == 0,
                forall|k: int|
                    0 <= k < n ==> #[trigger] msg_span(units@, starts@, n as int, k) == mat_message(s, k),
            decreases count - n,
        {
            let entry_off = 4 + 8 * n;
            let seed = entry_seed_of(key, n);
            let offset = u32le(data, entry_off)? ^ seed;
            let length = u32le(data, entry_off + 4)? ^ seed;
            assert(offset == mat_offset(s, n as int));
            assert(length == mat_length(s, n as int));
            if offset != cursor as u32 {
                assert(!mat_entry_ok(s, n as int));
                return Err(NdsError::Invalid { what: "MAT entries are not packed in index order" });
            }
            if length == 0 {
                assert(!mat_entry_ok(s, n as int));
                return Err(NdsError::Invalid { what: "MAT message has zero or unrepresentable length" });
            }
            if length as u64 > ((data.len() - cursor) / 2) as u64 {
                assert(!mat_entry_ok(s, n as int));
                return Err(NdsError::Invalid { what: "MAT message span overruns the member" });
            }
            let len = length as usize;
            let end = cursor + 2 * len;
            let mut msg = decrypt_message(data, cursor, len, n);
            if msg[len - 1] != EOS {
                assert(!mat_entry_ok(s, n as int));
                return Err(NdsError::Invalid { what: "MAT message does not end with EOS" });
            }
            let ghost before = units@;
            let ghost sb = starts@;
            starts.push(units.len());
            units.append(&mut msg);
            proof {
                assert forall|k: int| 0 <= k < n + 1 implies #[trigger] msg_span(
                    units@,
                    starts@,
                    n + 1,
                    k,
                ) == mat_message(s, k) by {
                    if k < n {
                        assert(msg_span(before, sb, n as int, k) == mat_message(s, k));
                        assert(starts@[k] == sb[k]);
                        if k + 1 < n {
                            assert(starts@[k + 1] == sb[k + 1]);
                        }
                        assert(msg_span(units@, starts@, n + 1, k) =~= msg_span(before, sb, n as int, k));
                    } else {
                        assert(msg_span(units@, starts@, n + 1, k) =~= mat_message(s, k));
                    }
                }
                assert(mat_entry_ok(s, n as int));
            }
            cursor = end;
            n = n + 1;
        }
        if cursor != data.len() {
            return Err(NdsError::Invalid { what: "MAT messages do not tile the member exactly" });
        }
        let ghost pre = starts@;
        starts.push(units.len());
        let b = MsgBank { data, key, units, starts };
        proof {
            assert forall|k: int| 0 <= k < count implies #[trigger] b.spec_message(k) == mat_message(
                s,
                k,
            ) by {
                assert(msg_span(b.units@, pre, count as int, k) == mat_message(s, k));
                assert(b.starts@[k] == pre[k]);
                if k + 1 < count {
                    assert(b.starts@[k + 1] == pre[k + 1]);
                }
            }
        }
        Ok(b)
    }

    /// The number of messages in the bank.
    pub fn message_count(&self) -> (res: usize)
        ensures
            res == self.spec_count(),
    {
        proof {
            use_type_invariant(self);
        }
        self.starts.len() - 1
    }

    /// The per-bank key, as stored in the header.
    pub fn key(&self) -> (res: u16)
        ensures
            res == self.spec_key(),
    {
        self.key
    }

    /// The message's decrypted code units, including the trailing EOS.
    pub fn message(&self, id: usize) -> (res: Option<&[u16]>)
        ensures
            id < self.spec_count() ==> (res matches Some(m) && m@ == self.spec_message(id as int)),
            id >= self.spec_count() ==> res is None,
    {
        proof {
            use_type_invariant(self);
        }
        if id < self.starts.len() - 1 {
            Some(slice_range(self.units.as_slice(), self.starts[id], self.starts[id + 1]))
        } else {
            None
        }
    }

    /// Every message's decrypted code units, in index order.
    pub fn messages(&self) -> (res: Vec<&[u16]>)
        ensures
            res@.len() == self.spec_count(),
            forall|i: int| 0 <= i < res@.len() ==> #[trigger] res@[i]@ == self.spec_message(i),
    {
        proof {
            use_type_invariant(self);
        }
        let mut out: Vec<&[u16]> = Vec::new();
        let mut i: usize = 0;
        while i < self.starts.len() - 1
            invariant
                spans_ok(self.starts@, self.units@.len() as int),
                i < self.starts@.len(),
                out@.len() == i,
                forall|k: int| 0 <= k < i ==> #[trigger] out@[k]@ == self.spec_message(k),
            decreases self.starts@.len() - i,
        {
            out.push(slice_range(self.units.as_slice(), self.starts[i], self.starts[i + 1]));
            i = i + 1;
        }
        out
    }

    /// The raw member bytes, as passed to [`MsgBank::parse`].
    pub fn raw(&self) -> (res: &'a [u8])
        ensures
            res@ == self.spec_raw(),
    {
        self.data
    }
}

/// Decrypts the `len` units of message `n` at `cursor`.
fn decrypt_message(data: &[u8], cursor: usize, len: usize, n: usize) -> (res: Vec<u16>)
    requires
        cursor == mat_cursor(data@, n as int),
        len == mat_length(data@, n as int),
        cursor + 2 * len <= data.len(),
        n < 0x10000,
    ensures
        res@ == mat_message(data@, n as int),
{
    let mut out: Vec<u16> = Vec::new();
    let mut i: usize = 0;
    while i < len
        invariant
            cursor == mat_cursor(data@, n as int),
            len == mat_length(data@, n as int),
            cursor + 2 * len <= data.len(),
            n < 0x10000,
            i <= len,
            out@.len() == i,
            forall|k: int| 0 <= k < i ==> #[trigger] out@[k] == mat_unit(data@, n as int, k),
        decreases len - i,
    {
        let seed = text_seed_of(n, i);
        let at = cursor + 2 * i;
        let raw: u16 = data[at] as u16 + data[at + 1] as u16 * 0x100;
        out.push(raw ^ seed);
        i = i + 1;
    }
    assert(out@ =~= mat_message(data@, n as int));
    out
}

/// The replicated seed of entry `n`.
fn entry_seed_of(key: u16, n: usize) -> (res: u32)
    requires
        n < 0x10000,
    ensures
        res == entry_seed(key as int, n as int),
{
    proof {
        assert(key * 765 * (n + 1) <= 0xFFFF * 765 * 0x10000) by (nonlinear_arith)
            requires
                key <= 0xFFFF,
                n < 0x10000,
        ;
    }
    let seed = (key as u64 * ENTRY_MUL * (n as u64 + 1)) % 0x10000;
    (seed + seed * 0x10000) as u32
}

/// The text seed of unit `i` of message `n`.
fn text_seed_of(n: usize, i: usize) -> (res: u16)
    requires
        n < 0x10000,
        i <= 0x1_0000_0000,
    ensures
        res == text_seed(n as int, i as int),
{
    proof {
        assert((n + 1) * 596947 + i * 18749 <= 0x10000 * 596947 + 0x1_0000_0000 * 18749) by (
        nonlinear_arith)
            requires
                n < 0x10000,
                i <= 0x1_0000_0000,
        ;
    }
    (((n as u64 + 1) * TEXT_MUL + i as u64 * TEXT_ADD) % 0x10000) as u16
}

} // verus!
