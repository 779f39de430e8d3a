//! The NARC container: Nitro's archive format, a flat index-addressed
//! list of member blobs with an optional filename table.
//!
//! Layout: a 0x10-byte header (`NARC`, byte-order mark 0xFFFE, version,
//! total size, header size 0x10, chunk count 3) followed by exactly the
//! chunks BTAF (member ranges), BTNF (filename table) and GMIF (member
//! data), each `magic + u32 size` with the size counting the 8-byte
//! chunk header.

use vstd::prelude::*;
use vstd::utf8::*;
use crate::nds::{NdsError, utf8, spec_u16le, spec_u32le, spec_magic, u16le, u32le, has_magic, slice_range, str_eq};

verus! {

/// Whether `s` is a valid chunk header at `off`: magic `m`, a size of at
/// least 8 that keeps the chunk inside `s`.
pub open spec fn chunk_ok(s: Seq<u8>, off: int, m0: u8, m1: u8, m2: u8, m3: u8) -> bool {
    &&& spec_magic(s, off, m0, m1, m2, m3)
    &&& off + 8 <= s.len()
    &&& spec_u32le(s, off + 4) >= 8
    &&& off + spec_u32le(s, off + 4) <= s.len()
}

/// Offset of the BTAF chunk.
pub open spec fn btaf_off(s: Seq<u8>) -> int { 0x10 }

/// Offset of the BTNF chunk.
pub open spec fn btnf_off(s: Seq<u8>) -> int { 0x10 + spec_u32le(s, 0x14) }

/// Offset of the GMIF chunk.
pub open spec fn gmif_off(s: Seq<u8>) -> int { btnf_off(s) + spec_u32le(s, btnf_off(s) + 4) }

/// The member count the BTAF chunk declares.
pub open spec fn narc_member_count(s: Seq<u8>) -> int { spec_u16le(s, btaf_off(s) + 8) as int }

/// The `(start, end)` range of member `k`, relative to the GMIF body.
pub open spec fn narc_member(s: Seq<u8>, k: int) -> (u32, u32) {
    (spec_u32le(s, btaf_off(s) + 12 + 8 * k), spec_u32le(s, btaf_off(s) + 16 + 8 * k))
}

/// Every member range of the BTAF chunk.
pub open spec fn narc_members(s: Seq<u8>) -> Seq<(u32, u32)> {
    Seq::new(narc_member_count(s) as nat, |k: int| narc_member(s, k))
}

/// The bytes of member `k` of the archive `s`.
pub open spec fn narc_member_data(s: Seq<u8>, k: int) -> Seq<u8> {
    s.subrange(gmif_off(s) + 8 + narc_member(s, k).0, gmif_off(s) + 8 + narc_member(s, k).1)
}

/// Whether the header, the three chunks and the allocation table of `s`
/// are well formed (the filename table is checked on top of this).
pub open spec fn narc_layout_ok(s: Seq<u8>) -> bool {
    &&& s.len() >= 0x10
    &&& spec_magic(s, 0, 0x4E, 0x41, 0x52, 0x43)
    &&& spec_u16le(s, 4) == 0xFFFE
    &&& spec_u32le(s, 8) == s.len()
    &&& spec_u16le(s, 0x0C) == 0x10
    &&& spec_u16le(s, 0x0E) == 3
    &&& chunk_ok(s, btaf_off(s), 0x42, 0x54, 0x41, 0x46)
    &&& chunk_ok(s, btnf_off(s), 0x42, 0x54, 0x4E, 0x46)
    &&& chunk_ok(s, gmif_off(s), 0x47, 0x4D, 0x49, 0x46)
    &&& gmif_off(s) + spec_u32le(s, gmif_off(s) + 4) == s.len()
    &&& spec_u32le(s, 0x14) >= 12
    &&& spec_u32le(s, 0x14) == 12 + 8 * narc_member_count(s)
    &&& forall|k: int|
        0 <= k < narc_member_count(s) ==> {
            &&& #[trigger] narc_member(s, k).0 <= narc_member(s, k).1
            &&& narc_member(s, k).1 + 8 <= spec_u32le(s, gmif_off(s) + 4)
        }
}

/// The size of the BTNF chunk, its header included.
pub open spec fn btnf_size(s: Seq<u8>) -> int {
    spec_u32le(s, btnf_off(s) + 4) as int
}

/// Whether `s` is an archive the parser accepts: a well-formed layout
/// and a filename table consistent with the member count.
#[verifier::opaque]
pub open spec fn narc_ok(s: Seq<u8>) -> bool {
    narc_layout_ok(s) && btnf_ok(s, btnf_off(s), btnf_size(s), narc_member_count(s))
}

/// The member paths the filename table of `s` gives.
pub open spec fn narc_names(s: Seq<u8>) -> Seq<Option<Seq<char>>> {
    btnf_paths(s, btnf_off(s), btnf_size(s), narc_member_count(s))
}

/// Whether `data` begins with a NARC header.
pub open spec fn spec_is_narc(s: Seq<u8>) -> bool {
    s.len() >= 6 && s[0] == 0x4E && s[1] == 0x41 && s[2] == 0x52 && s[3] == 0x43 && s[4] == 0xFE
        && s[5] == 0xFF
}

/// A parsed NARC archive. Borrows the archive bytes; see [`Narc::parse`].
#[derive(Debug)]
pub struct Narc<'a> {
    data: &'a [u8],
    /// BTAF member ranges, relative to the GMIF body.
    members: Vec<(u32, u32)>,
    /// Absolute offset of the GMIF body within `data`.
    body: usize,
    /// Member names (full `dir/file` paths), by member id.
    names: Vec<Option<String>>,
}

impl<'a> Narc<'a> {
    #[verifier::type_invariant]
    spec fn wf(self) -> bool {
        &&& self.names@.len() == self.members@.len()
        &&& forall|k: int|
            0 <= k < self.members@.len() ==> {
                &&& #[trigger] self.members@[k].0 <= self.members@[k].1
                &&& self.body + self.members@[k].1 <= self.data@.len()
            }
    }

    /// The archive bytes.
    pub closed spec fn bytes(&self) -> Seq<u8> {
        self.data@
    }

    /// The member ranges, relative to the GMIF body.
    pub closed spec fn ranges(&self) -> Seq<(u32, u32)> {
        self.members@
    }

    /// The offset of the GMIF body.
    pub closed spec fn body(&self) -> int {
        self.body as int
    }

    /// The member names the filename table resolved.
    pub closed spec fn names(&self) -> Seq<Option<Seq<char>>> {
        names_view(self.names@)
    }

    /// The bytes of member `k`.
    pub open spec fn member_bytes(&self, k: int) -> Seq<u8> {
        self.bytes().subrange(self.body() + self.ranges()[k].0, self.body() + self.ranges()[k].1)
    }

    /// Parses a complete NARC archive.
    ///
    /// Fails when the header, chunks, allocation table or filename table
    /// are truncated or inconsistent.
    pub fn parse(data: &'a [u8]) -> (res: Result<Self, NdsError>)
        ensures
            res is Ok <==> narc_ok(data@),
            res matches Ok(n) ==> {
                &&& narc_layout_ok(data@)
                &&& n.bytes() == data@
                &&& n.ranges() == narc_members(data@)
                &&& n.body() == gmif_off(data@) + 8
                &&& n.names() == narc_names(data@)
            },
    {
        let (members, btnf_off, btnf_size, gmif_off, member_count) = match read_layout(data) {
            Ok(l) => l,
            Err(e) => {
                proof {
                    reveal(narc_ok);
                }
                return Err(e);
            },
        };
        let gmif_size = data.len() - gmif_off;
        let body_len = gmif_size - 8;
        proof {
            assert(members@.len() == member_count);
            assert(narc_layout_ok(data@));
            assert(gmif_size == spec_u32le(data@, gmif_off + 4));
            assert forall|k: int| 0 <= k < members@.len() implies #[trigger] members@[k].1 <= body_len by {
                assert(members@[k] == narc_member(data@, k));
                assert(0 <= k < narc_member_count(data@));
                assert(narc_member(data@, k).0 <= narc_member(data@, k).1);
                assert(narc_member(data@, k).1 + 8 <= spec_u32le(data@, self::gmif_off(data@) + 4));
            }
        }
        assert(narc_layout_ok(data@));
        let names = match parse_btnf(data, btnf_off, btnf_size, member_count) {
            Ok(v) => v,
            Err(e) => {
                proof {
                    reveal(narc_ok);
                }
                return Err(e);
            },
        };
        proof {
            reveal(narc_ok);
        }
        assert(gmif_off + gmif_size == data@.len());
        assert(forall|k: int| 0 <= k < members@.len() ==> #[trigger] members@[k].1 <= body_len);
        assert(data@.len() == data.len());
        let n = Narc { data, members, body: gmif_off + 8, names };
        proof {
            assert(n.names@.len() == n.members@.len());
            assert forall|k: int| 0 <= k < n.members@.len() implies
                #[trigger] n.members@[k].0 <= n.members@[k].1
                && n.body + n.members@[k].1 <= n.data@.len() by {
                assert(n.members@[k] == narc_member(data@, k));
            }
            assert(n.names().len() == n.names@.len());
        }
        Ok(n)
    }

    /// Checks the chunk header at `off` (magic, a size of at least 8 that
    /// stays inside the data) and returns the chunk size.
    fn chunk(data: &[u8], off: usize, m0: u8, m1: u8, m2: u8, m3: u8) -> (res: Result<
        usize,
        NdsError,
    >)
        ensures
            res is Ok <==> chunk_ok(data@, off as int, m0, m1, m2, m3),
            res matches Ok(size) ==> size == spec_u32le(data@, off + 4),
    {
        if !has_magic(data, off, m0, m1, m2, m3) {
            return Err(NdsError::Invalid { what: "NARC chunk magic or order" });
        }
        assert(data@.len() == data.len());
        let size = u32le(data, off + 4)? as usize;
        if size < 8 || size > data.len() - off {
            return Err(NdsError::Invalid { what: "NARC chunk overruns the archive" });
        }
        Ok(size)
    }

    /// The number of members in the archive.
    pub fn file_count(&self) -> (res: usize)
        ensures
            res == self.ranges().len(),
    {
        self.members.len()
    }

    /// The bytes of member `id`; fails when the id is out of range.
    pub fn file(&self, id: usize) -> (res: Result<&'a [u8], NdsError>)
        ensures
            id < self.ranges().len() ==> (res matches Ok(f) && f@ == self.member_bytes(id as int)),
            id >= self.ranges().len() ==> res is Err,
    {
        proof {
            use_type_invariant(self);
        }
        if id >= self.members.len() {
            return Err(NdsError::Invalid { what: "NARC member id out of range" });
        }
        let (start, end) = self.members[id];
        assert(self.members@[id as int].0 <= self.members@[id as int].1);
        assert(self.data@.len() == self.data.len());
        Ok(slice_range(self.data, self.body + start as usize, self.body + end as usize))
    }

    /// The full path (`dir/file`) of member `id`, if the filename table
    /// names it.
    pub fn name(&self, id: usize) -> (res: Option<&str>)
        ensures
            id >= self.names().len() ==> res is None,
            id < self.names().len() ==> match self.names()[id as int] {
                Some(n) => (res matches Some(r) && r@ == n),
                None => res is None,
            },
    {
        if id >= self.names.len() {
            return None;
        }
        match &self.names[id] {
            Some(n) => Some(n.as_str()),
            None => None,
        }
    }

    /// The bytes of the member named `path`, if the filename table names
    /// one (the first such member).
    pub fn file_by_name(&self, path: &str) -> (res: Option<&'a [u8]>)
        ensures
            res is Some <==> exists|k: int|
                0 <= k < self.names().len() && #[trigger] self.names()[k] == Some(path@),
            res matches Some(f) ==> exists|k: int|
                0 <= k < self.names().len() && #[trigger] self.names()[k] == Some(path@)
                    && f@ == self.member_bytes(k) && forall|j: int|
                    0 <= j < k ==> self.names()[j] != Some(path@),
    {
        proof {
            use_type_invariant(self);
        }
        let mut i: usize = 0;
        while i < self.names.len()
            invariant
                i <= self.names@.len(),
                self.names@.len() == self.members@.len(),
                forall|j: int| 0 <= j < i ==> self.names()[j] != Some(path@),
            decreases self.names@.len() - i,
        {
            let hit = match &self.names[i] {
                Some(n) => str_eq(n.as_str(), path),
                None => false,
            };
            assert(hit == (self.names()[i as int] == Some(path@)));
            if hit {
                let f = self.file(i);
                if let Ok(f) = f {
                    return Some(f);
                }
            }
            i += 1;
        }
        None
    }
}

/// A member range that is reversed or runs past the member data makes
/// the layout ill formed.
proof fn lemma_bad_member(s: Seq<u8>, i: int)
    requires
        0 <= i < narc_member_count(s),
        narc_member(s, i).0 > narc_member(s, i).1 || narc_member(s, i).1 + 8 > spec_u32le(
            s,
            gmif_off(s) + 4,
        ),
    ensures
        !narc_layout_ok(s),
{
}

/// Reads the header, the three chunk headers and the allocation table:
/// the member ranges, the BTNF offset and size, the GMIF offset and the
/// member count.
#[verifier::rlimit(40)]
fn read_layout(data: &[u8]) -> (res: Result<(Vec<(u32, u32)>, usize, usize, usize, usize), NdsError>)
    ensures
        res is Ok <==> narc_layout_ok(data@),
        res matches Ok((members, boff, bsize, goff, count)) ==> {
            &&& members@ == narc_members(data@)
            &&& boff == btnf_off(data@)
            &&& bsize == btnf_size(data@)
            &&& goff == gmif_off(data@)
            &&& count == narc_member_count(data@)
        },
{
    if data.len() < 0x10 {
        return Err(NdsError::Truncated { what: "NARC header", need: 0x10, got: data.len() });
    }
    if !has_magic(data, 0, 0x4E, 0x41, 0x52, 0x43) {
        return Err(NdsError::Invalid { what: "not a NARC archive" });
    }
    if u16le(data, 0x04)? != 0xFFFE {
        return Err(NdsError::Invalid { what: "NARC byte-order mark" });
    }
    let file_size = u32le(data, 0x08)?;
    if file_size as usize != data.len() {
        return Err(NdsError::Invalid { what: "NARC file size does not match its data" });
    }
    if u16le(data, 0x0C)? != 0x10 {
        return Err(NdsError::Invalid { what: "NARC header size" });
    }
    let chunk_count = u16le(data, 0x0E)?;
    if chunk_count != 3 {
        return Err(
            NdsError::Invalid {
                what: "NARC chunk count (only BTAF/BTNF/GMIF archives are supported)",
            },
        );
    }
    // The three chunks, in order; each size includes its 8-byte header.
    let btaf_off: usize = 0x10;
    let btaf_size = Narc::chunk(data, btaf_off, 0x42, 0x54, 0x41, 0x46)?;
    let btnf_off = btaf_off + btaf_size;
    let btnf_size = Narc::chunk(data, btnf_off, 0x42, 0x54, 0x4E, 0x46)?;
    let gmif_off = btnf_off + btnf_size;
    let gmif_size = Narc::chunk(data, gmif_off, 0x47, 0x4D, 0x49, 0x46)?;
    if gmif_off + gmif_size != data.len() {
        return Err(NdsError::Invalid { what: "NARC chunks do not cover the whole archive" });
    }
    // BTAF: member count, reserved, then one (start, end) per member.
    if btaf_size < 12 {
        return Err(NdsError::Truncated { what: "BTAF chunk", need: 12, got: btaf_size });
    }
    let member_count = u16le(data, btaf_off + 8)? as usize;
    if btaf_size != 12 + member_count * 8 {
        return Err(
            NdsError::Invalid { what: "BTAF chunk size disagrees with the member count" },
        );
    }
    let body_len = gmif_size - 8;
    let mut members: Vec<(u32, u32)> = Vec::new();
    let mut i: usize = 0;
    while i < member_count
        invariant
            data@.len() >= 0x10,
            btaf_off == 0x10,
            btaf_off + btaf_size <= data@.len(),
            btaf_size == 12 + member_count * 8,
            member_count == spec_u16le(data@, 0x18),
            i <= member_count,
            body_len + 8 == gmif_size,
            gmif_size == spec_u32le(data@, gmif_off + 4),
            gmif_off == self::gmif_off(data@),
            members@.len() == i,
            forall|k: int| 0 <= k < i ==> #[trigger] members@[k] == narc_member(data@, k),
            forall|k: int|
                #![trigger narc_member(data@, k)]
                0 <= k < i ==> narc_member(data@, k).0 <= narc_member(data@, k).1
                    && narc_member(data@, k).1 <= body_len,
        decreases member_count - i,
    {
        let o = btaf_off + 12 + 8 * i;
        let start = u32le(data, o)?;
        let end = u32le(data, o + 4)?;
        assert(narc_member(data@, i as int) == (start, end));
        if start > end {
            proof {
                lemma_bad_member(data@, i as int);
            }
            return Err(NdsError::Invalid { what: "BTAF member start is beyond its end" });
        }
        if end as usize > body_len {
            proof {
                lemma_bad_member(data@, i as int);
            }
            return Err(NdsError::Invalid { what: "BTAF member reaches beyond the GMIF data" });
        }
        members.push((start, end));
        i += 1;
    }
    proof {
        assert(members@ =~= narc_members(data@));
    }
    assert(narc_layout_ok(data@));
    Ok((members, btnf_off, btnf_size, gmif_off, member_count))
}

/// Whether `data` begins with a NARC header.
pub fn is_narc(data: &[u8]) -> (res: bool)
    ensures
        res == spec_is_narc(data@),
{
    data.len() >= 6 && data[0] == 0x4E && data[1] == 0x41 && data[2] == 0x52 && data[3] == 0x43
        && data[4] == 0xFE && data[5] == 0xFF
}

/// What a filename-table scan has gathered: per member its name and
/// owning directory, per directory its name and parent (the root has
/// neither).
pub type BtnfState = (Seq<Option<(Seq<char>, int)>>, Seq<Option<Seq<char>>>, Seq<Option<int>>);

/// The filename-table body of the BTNF chunk at `off`, `size` bytes
/// with its header.
pub open spec fn btnf_table(s: Seq<u8>, off: int, size: int) -> Seq<u8> {
    s.subrange(off + 8, off + size)
}

/// The directory count of a filename table (the root's third field).
pub open spec fn btnf_dir_count(t: Seq<u8>) -> int {
    spec_u16le(t, 6) as int
}

/// Nothing gathered yet: `m` unnamed members and `nd` unnamed,
/// parentless directories.
pub open spec fn btnf_init(nd: int, m: int) -> BtnfState {
    (
        Seq::new(m as nat, |_i: int| None),
        Seq::new(nd as nat, |_i: int| None),
        Seq::new(nd as nat, |_i: int| None),
    )
}

/// Walks the name subtable of directory `d` from `pos`, the next file
/// entry naming member `next`: `None` when an entry is cut short, a name
/// is not UTF-8, a directory id is 0 or past the last directory, or a
/// member id is past the last member; else the state after the
/// terminating zero byte.
pub open spec fn btnf_walk(t: Seq<u8>, nd: int, m: int, d: int, pos: int, next: int, st: BtnfState) -> Option<
    BtnfState,
>
    decreases t.len() + 1 - pos,
{
    if pos < 0 || pos >= t.len() {
        None
    } else {
        let first = t[pos];
        if first == 0 {
            Some(st)
        } else {
            let len: int = if first >= 0x80 {
                first - 0x80
            } else {
                first as int
            };
            let p1 = pos + 1;
            if len > t.len() - p1 {
                None
            } else {
                let nb = t.subrange(p1, p1 + len);
                if !valid_utf8(nb) {
                    None
                } else {
                    let name = decode_utf8(nb);
                    let p2 = p1 + len;
                    if first >= 0x80 {
                        if p2 + 2 > t.len() {
                            None
                        } else {
                            let child = (spec_u16le(t, p2) % 0x1000) as int;
                            if child == 0 || child >= nd {
                                None
                            } else {
                                btnf_walk(
                                    t,
                                    nd,
                                    m,
                                    d,
                                    p2 + 2,
                                    next,
                                    (st.0, st.1.update(child, Some(name)), st.2.update(child, Some(d))),
                                )
                            }
                        }
                    } else if next >= m {
                        None
                    } else {
                        btnf_walk(t, nd, m, d, p2, next + 1, (st.0.update(next, Some((name, d))), st.1, st.2))
                    }
                }
            }
        }
    }
}

/// The state after walking the subtables of the first `d` directories,
/// each from the offset and first member id its record holds.
pub open spec fn btnf_scan(t: Seq<u8>, nd: int, m: int, d: int) -> Option<BtnfState>
    decreases d,
{
    if d <= 0 {
        Some(btnf_init(nd, m))
    } else {
        match btnf_scan(t, nd, m, d - 1) {
            Some(st) => btnf_walk(
                t,
                nd,
                m,
                d - 1,
                spec_u32le(t, 8 * (d - 1)) as int,
                spec_u16le(t, 8 * (d - 1) + 4) as int,
                st,
            ),
            None => None,
        }
    }
}

/// The full path of `path` in directory `cur`, reached after `hops`
/// steps: the directory names up to the root prefixed with `/` each;
/// `None` on a nameless directory or a chain longer than the directory
/// count (a cycle).
pub open spec fn btnf_resolve(st: BtnfState, nd: int, path: Seq<char>, cur: int, hops: int) -> Option<Seq<char>>
    decreases nd + 1 - hops,
{
    if hops > nd || cur < 0 || cur >= nd {
        None
    } else {
        match st.2[cur] {
            None => Some(path),
            Some(parent) => match st.1[cur] {
                None => None,
                Some(dn) => if hops + 1 > nd {
                    None
                } else {
                    btnf_resolve(st, nd, dn + seq!['/'] + path, parent, hops + 1)
                },
            },
        }
    }
}

/// The path of member `k`: `Some(None)` for an unnamed member,
/// `Some(Some(path))` for a named one, `None` when its directory chain
/// does not resolve.
pub open spec fn btnf_member_path(st: BtnfState, nd: int, k: int) -> Option<Option<Seq<char>>> {
    match st.0[k] {
        None => Some(None),
        Some(f) => match btnf_resolve(st, nd, f.0, f.1, 0) {
            Some(p) => Some(Some(p)),
            None => None,
        },
    }
}

/// The state a filename table scans to (the initial state when it does
/// not scan).
pub open spec fn btnf_state(s: Seq<u8>, off: int, size: int, m: int) -> BtnfState {
    let t = btnf_table(s, off, size);
    let nd = btnf_dir_count(t);
    match btnf_scan(t, nd, m, nd) {
        Some(st) => st,
        None => btnf_init(nd, m),
    }
}

/// Whether the filename table at `off` (`size` bytes with its header)
/// names `m` members consistently: it fits, its directory records fit,
/// every subtable walks, every directory but the root is named by its
/// parent, and every named member's chain resolves.
pub open spec fn btnf_ok(s: Seq<u8>, off: int, size: int, m: int) -> bool {
    let t = btnf_table(s, off, size);
    let nd = btnf_dir_count(t);
    let st = btnf_state(s, off, size, m);
    &&& 0 <= off
    &&& 8 <= size
    &&& off + size <= s.len()
    &&& t.len() >= 8
    &&& nd * 8 <= t.len()
    &&& btnf_scan(t, nd, m, nd) is Some
    &&& forall|d: int| 1 <= d < nd ==> #[trigger] st.1[d] is Some
    &&& forall|k: int| 0 <= k < m ==> #[trigger] btnf_member_path(st, nd, k) is Some
}

/// The path of every member of a well-formed filename table.
pub open spec fn btnf_paths(s: Seq<u8>, off: int, size: int, m: int) -> Seq<Option<Seq<char>>> {
    let t = btnf_table(s, off, size);
    let st = btnf_state(s, off, size, m);
    Seq::new(m as nat, |k: int| btnf_member_path(st, btnf_dir_count(t), k)->0)
}

/// The names of a list of optional strings.
pub open spec fn names_view(v: Seq<Option<String>>) -> Seq<Option<Seq<char>>> {
    v.map_values(|n: Option<String>| match n {
        Some(x) => Some(x@),
        None => None,
    })
}

/// The names and directories of the member entries gathered so far.
pub open spec fn files_view(v: Seq<Option<(String, usize)>>) -> Seq<Option<(Seq<char>, int)>> {
    v.map_values(|f: Option<(String, usize)>| match f {
        Some(x) => Some((x.0@, x.1 as int)),
        None => None,
    })
}

/// The parents of the directories gathered so far.
pub open spec fn parents_view(v: Seq<Option<usize>>) -> Seq<Option<int>> {
    v.map_values(|p: Option<usize>| match p {
        Some(x) => Some(x as int),
        None => None,
    })
}

/// A failed scan stays failed over more directories.
proof fn lemma_scan_fails_on(t: Seq<u8>, nd: int, m: int, d: int, e: int)
    requires
        0 <= d <= e,
        btnf_scan(t, nd, m, d) is None,
    ensures
        btnf_scan(t, nd, m, e) is None,
    decreases e - d,
{
    if d < e {
        lemma_scan_fails_on(t, nd, m, d, e - 1);
    }
}

/// Walks the name subtable of directory `dir` of the table `t` from
/// `pos`, updating the gathered state; `Err` exactly where the walk in
/// the specification fails.
#[verifier::rlimit(40)]
fn btnf_walk_dir(
    t: &[u8],
    nd: usize,
    m: usize,
    dir: usize,
    start: usize,
    first_id: usize,
    file_names: &mut Vec<Option<(String, usize)>>,
    dir_names: &mut Vec<Option<String>>,
    dir_parents: &mut Vec<Option<usize>>,
) -> (res: Result<(), NdsError>)
    requires
        dir < nd,
        old(file_names)@.len() == m,
        old(dir_names)@.len() == nd,
        old(dir_parents)@.len() == nd,
    ensures
        final(file_names)@.len() == m,
        final(dir_names)@.len() == nd,
        final(dir_parents)@.len() == nd,
        res is Ok <==> btnf_walk(
            t@,
            nd as int,
            m as int,
            dir as int,
            start as int,
            first_id as int,
            (files_view(old(file_names)@), names_view(old(dir_names)@), parents_view(old(dir_parents)@)),
        ) is Some,
        res is Ok ==> btnf_walk(
            t@,
            nd as int,
            m as int,
            dir as int,
            start as int,
            first_id as int,
            (files_view(old(file_names)@), names_view(old(dir_names)@), parents_view(old(dir_parents)@)),
        ) == Some((files_view(final(file_names)@), names_view(final(dir_names)@), parents_view(final(dir_parents)@))),
{
    let ghost goal = btnf_walk(
        t@,
        nd as int,
        m as int,
        dir as int,
        start as int,
        first_id as int,
        (files_view(file_names@), names_view(dir_names@), parents_view(dir_parents@)),
    );
    let mut pos = start;
    let mut next_id = first_id;
    loop
        invariant
            dir < nd,
            file_names@.len() == m,
            dir_names@.len() == nd,
            dir_parents@.len() == nd,
            goal == btnf_walk(
                t@,
                nd as int,
                m as int,
                dir as int,
                pos as int,
                next_id as int,
                (files_view(file_names@), names_view(dir_names@), parents_view(dir_parents@)),
            ),
            goal == btnf_walk(
                t@,
                nd as int,
                m as int,
                dir as int,
                start as int,
                first_id as int,
                (files_view(old(file_names)@), names_view(old(dir_names)@), parents_view(old(dir_parents)@)),
            ),
        ensures
            file_names@.len() == m,
            dir_names@.len() == nd,
            dir_parents@.len() == nd,
        decreases t@.len() + 1 - pos,
    {
        let ghost st = (files_view(file_names@), names_view(dir_names@), parents_view(dir_parents@));
        if pos >= t.len() {
            return Err(NdsError::Truncated { what: "BTNF name subtable", need: pos.saturating_add(1), got: t.len() });
        }
        let first = t[pos];
        pos += 1;
        if first == 0 {
            return Ok(());
        }
        let is_dir = first >= 0x80;
        let name_len = (if is_dir {
            first - 0x80
        } else {
            first
        }) as usize;
        if name_len > t.len() - pos {
            return Err(NdsError::Truncated { what: "BTNF name", need: pos.saturating_add(name_len), got: t.len() });
        }
        let name_bytes = slice_range(t, pos, pos + name_len);
        let name = match utf8(name_bytes) {
            Some(n) => n.to_owned(),
            None => {
                return Err(NdsError::Invalid { what: "non-UTF-8 NARC member name" });
            },
        };
        pos += name_len;
        if is_dir {
            if pos > t.len() || t.len() - pos < 2 {
                return Err(NdsError::Truncated { what: "BTNF", need: pos.saturating_add(2), got: t.len() });
            }
            let id = u16le(t, pos)?;
            pos += 2;
            let child = (id % 0x1000) as usize;
            if child == 0 || child >= nd {
                return Err(NdsError::Invalid { what: "BTNF directory ID out of range" });
            }
            dir_names.set(child, Some(name));
            dir_parents.set(child, Some(dir));
            proof {
                assert(names_view(dir_names@) =~= st.1.update(child as int, Some(decode_utf8(name_bytes@))));
                assert(parents_view(dir_parents@) =~= st.2.update(child as int, Some(dir as int)));
            }
        } else {
            if next_id >= m {
                return Err(NdsError::Invalid { what: "BTNF member id out of range" });
            }
            file_names.set(next_id, Some((name, dir)));
            proof {
                assert(files_view(file_names@) =~= st.0.update(
                    next_id as int,
                    Some((decode_utf8(name_bytes@), dir as int)),
                ));
            }
            next_id += 1;
        }
    }
}

/// Parses the BTNF chunk at `off` (`size` bytes with its header) into
/// per-member full paths: an array of 8-byte directory records (the
/// root's third field holds the directory count) with length-prefixed
/// name subtables, offsets relative to the record array. Each named
/// member's path is its directory chain from the root joined with `/`.
fn parse_btnf(data: &[u8], off: usize, size: usize, member_count: usize) -> (res: Result<
    Vec<Option<String>>,
    NdsError,
>)
    ensures
        res is Ok <==> btnf_ok(data@, off as int, size as int, member_count as int),
        res matches Ok(v) ==> names_view(v@) == btnf_paths(data@, off as int, size as int, member_count as int),
        res matches Ok(v) ==> v@.len() == member_count,
{
    let ghost s = data@;
    let m = member_count;
    if off > data.len() || size > data.len() - off || size < 8 {
        return Err(NdsError::Truncated { what: "BTNF", need: off.saturating_add(size), got: data.len() });
    }
    let table = slice_range(data, off + 8, off + size);
    let ghost t = table@;
    assert(t == btnf_table(s, off as int, size as int));
    if table.len() < 8 {
        return Err(NdsError::Truncated { what: "BTNF directory records", need: 8, got: table.len() });
    }
    let nd = u16le(table, 6)? as usize;
    if table.len() < nd * 8 {
        return Err(NdsError::Truncated { what: "BTNF directory records", need: nd * 8, got: table.len() });
    }
    let mut file_names: Vec<Option<(String, usize)>> = Vec::new();
    while file_names.len() < m
        invariant
            file_names@.len() <= m,
            forall|k: int| 0 <= k < file_names@.len() ==> #[trigger] file_names@[k] is None,
        decreases m - file_names@.len(),
    {
        file_names.push(None);
    }
    let mut dir_names: Vec<Option<String>> = Vec::new();
    let mut dir_parents: Vec<Option<usize>> = Vec::new();
    while dir_names.len() < nd
        invariant
            dir_names@.len() == dir_parents@.len(),
            dir_names@.len() <= nd,
            forall|k: int| 0 <= k < dir_parents@.len() ==> #[trigger] dir_parents@[k] is None,
            forall|k: int| 0 <= k < dir_names@.len() ==> #[trigger] dir_names@[k] is None,
        decreases nd - dir_names@.len(),
    {
        dir_names.push(None);
        dir_parents.push(None);
    }
    proof {
        assert(files_view(file_names@) =~= btnf_init(nd as int, m as int).0);
        assert(names_view(dir_names@) =~= btnf_init(nd as int, m as int).1);
        assert(parents_view(dir_parents@) =~= btnf_init(nd as int, m as int).2);
    }
    let mut dir: usize = 0;
    while dir < nd
        invariant
            s == data@,
            m == member_count,
            t == btnf_table(s, off as int, size as int),
            nd == btnf_dir_count(t),
            t == table@,
            nd * 8 <= table@.len(),
            dir <= nd,
            file_names@.len() == m,
            dir_names@.len() == nd,
            dir_parents@.len() == nd,
            btnf_scan(t, nd as int, m as int, dir as int) == Some(
                (files_view(file_names@), names_view(dir_names@), parents_view(dir_parents@)),
            ),
        decreases nd - dir,
    {
        let sub = u32le(table, 8 * dir)? as usize;
        let first_id = u16le(table, 8 * dir + 4)? as usize;
        let ghost st0 = (files_view(file_names@), names_view(dir_names@), parents_view(dir_parents@));
        let r = btnf_walk_dir(table, nd, m, dir, sub, first_id, &mut file_names, &mut dir_names, &mut dir_parents);
        if r.is_err() {
            proof {
                assert(btnf_walk(t, nd as int, m as int, dir as int, sub as int, first_id as int, st0) is None);
                assert(btnf_scan(t, nd as int, m as int, dir as int + 1) is None);
                lemma_scan_fails_on(t, nd as int, m as int, dir as int + 1, nd as int);
            }
            return Err(NdsError::Invalid { what: "BTNF name subtable" });
        }
        dir += 1;
    }
    let ghost st = (files_view(file_names@), names_view(dir_names@), parents_view(dir_parents@));
    assert(btnf_state(s, off as int, size as int, m as int) == st);
    let mut d: usize = 1;
    while d < nd
        invariant
            s == data@,
            m == member_count,
            t == btnf_table(s, off as int, size as int),
            nd == btnf_dir_count(t),
            btnf_state(s, off as int, size as int, m as int) == st,
            dir_names@.len() == nd,
            st.1 == names_view(dir_names@),
            1 <= d,
            forall|j: int| 1 <= j < d ==> #[trigger] st.1[j] is Some,
        decreases nd - d,
    {
        if dir_names[d].is_none() {
            assert(st.1[d as int] is None);
            return Err(NdsError::Invalid { what: "BTNF directory never referenced" });
        }
        d += 1;
    }
    // Resolve each member's name to a full path through its owning
    // directory's parent chain; a chain longer than the directory count
    // is a cycle.
    let mut paths: Vec<Option<String>> = Vec::new();
    let mut k: usize = 0;
    while k < m
        invariant
            file_names@.len() == m,
            dir_names@.len() == nd,
            dir_parents@.len() == nd,
            st == (files_view(file_names@), names_view(dir_names@), parents_view(dir_parents@)),
            s == data@,
            m == member_count,
            t == btnf_table(s, off as int, size as int),
            nd == btnf_dir_count(t),
            btnf_state(s, off as int, size as int, m as int) == st,
            nd <= 0xFFFF,
            paths@.len() == k,
            k <= m,
            forall|j: int| 0 <= j < k ==> #[trigger] btnf_member_path(st, nd as int, j) is Some,
            forall|j: int|
                0 <= j < k ==> #[trigger] names_view(paths@)[j] == btnf_member_path(st, nd as int, j)->0,
        decreases m - k,
    {
        let ghost prev = paths@;
        match &file_names[k] {
            None => {
                paths.push(None);
                proof {
                    assert(names_view(paths@)[k as int] == btnf_member_path(st, nd as int, k as int)->0);
                }
            },
            Some((name, owner)) => {
                let ghost goal = btnf_resolve(st, nd as int, name@, *owner as int, 0);
                let mut path = name.clone();
                let mut cur: usize = *owner;
                let mut hops: usize = 0;
                assert(st.0[k as int] == Some((name@, *owner as int)));
                assert(btnf_member_path(st, nd as int, k as int) == match goal {
                    Some(p) => Some(Some(p)),
                    None => None::<Option<Seq<char>>>,
                });
                if cur >= nd {
                    assert(btnf_member_path(st, nd as int, k as int) is None);
                    return Err(NdsError::Invalid { what: "BTNF directory never referenced" });
                }
                loop
                    invariant
                        cur < nd,
                        nd <= 0xFFFF,
                        hops <= nd,
                        dir_names@.len() == nd,
                        dir_parents@.len() == nd,
                        st == (files_view(file_names@), names_view(dir_names@), parents_view(dir_parents@)),
                        goal == btnf_resolve(st, nd as int, path@, cur as int, hops as int),
                        s == data@,
                        m == member_count,
                        k < m,
                        t == btnf_table(s, off as int, size as int),
                        nd == btnf_dir_count(t),
                        btnf_state(s, off as int, size as int, m as int) == st,
                        btnf_member_path(st, nd as int, k as int) == match goal {
                            Some(p) => Some(Some(p)),
                            None => None::<Option<Seq<char>>>,
                        },
                    ensures
                        goal == Some(path@),
                    decreases nd + 1 - hops,
                {
                    assert(st.1[cur as int] == names_view(dir_names@)[cur as int]);
                    assert(st.2[cur as int] == parents_view(dir_parents@)[cur as int]);
                    let parent = match dir_parents[cur] {
                        Some(p) => p,
                        None => break,
                    };
                    let dir_name = match &dir_names[cur] {
                        Some(n) => n,
                        None => {
                            assert(goal is None);
                            assert(btnf_member_path(st, nd as int, k as int) is None);
                            return Err(NdsError::Invalid { what: "BTNF directory never referenced" });
                        },
                    };
                    if hops + 1 > nd {
                        assert(goal is None);
                        assert(btnf_member_path(st, nd as int, k as int) is None);
                        return Err(NdsError::Invalid { what: "BTNF directory parent cycle" });
                    }
                    if parent >= nd {
                        assert(btnf_resolve(st, nd as int, dir_name@ + seq!['/'] + path@, parent as int, hops + 1) is None);
                        assert(goal is None);
                        assert(btnf_member_path(st, nd as int, k as int) is None);
                        return Err(NdsError::Invalid { what: "BTNF directory parent cycle" });
                    }
                    let ghost old_path = path@;
                    let mut joined = dir_name.clone();
                    proof {
                        reveal_strlit("/");
                        assert("/"@ =~= seq!['/']);
                    }
                    joined.append("/");
                    joined.append(path.as_str());
                    path = joined;
                    assert(path@ =~= dir_name@ + seq!['/'] + old_path);
                    cur = parent;
                    hops += 1;
                }
                paths.push(Some(path));
                proof {
                    assert(names_view(paths@)[k as int] == btnf_member_path(st, nd as int, k as int)->0);
                }
            },
        }
        proof {
            assert forall|j: int| 0 <= j < k + 1 implies #[trigger] names_view(paths@)[j]
                == btnf_member_path(st, nd as int, j)->0 by {
                if j < k {
                    assert(paths@[j] == prev[j]);
                    assert(names_view(prev)[j] == btnf_member_path(st, nd as int, j)->0);
                }
            }
        }
        k += 1;
    }
    proof {
        assert(names_view(paths@) =~= btnf_paths(s, off as int, size as int, m as int));
    }
    Ok(paths)
}

} // verus!
