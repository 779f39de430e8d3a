//! Map script headers: which scripts run when a map loads, resumes or
//! is entered, and the per-frame table of conditional scripts.
//!
//! The member is 5-byte records `{u8 type; u32 payload}` terminated by
//! type 0. For types 2–4 the script id is the payload's low 16 bits
//! (0xFFFF = none). For type 1 (on-frame table) the payload is an
//! offset from the byte after the record to a table of 6-byte
//! `{u16 varA, varB, scriptId}` entries terminated by `varA == 0`; a
//! zero offset means no table. Each frame the first entry whose two
//! variables compare equal runs.

use vstd::prelude::*;

use crate::nds::{NdsError, u16le, u32le, spec_u16le, spec_u32le};

verus! {

/// NitroFS path of the script archive.
pub const SCRIPT_NARC: &'static str = "a/0/1/2";
/// The game's header buffer; members must be smaller.
pub const MAX_BYTES: usize = 0x100;
/// Bytes per header record.
pub const RECORD_SIZE: usize = 5;
/// Bytes per frame-table entry.
pub const FRAME_TABLE_ENTRY_SIZE: usize = 6;
/// The on-frame table type.
pub const ON_FRAME_TABLE: u8 = 1;
/// The on-transition type.
pub const ON_TRANSITION: u8 = 2;
/// The on-resume type.
pub const ON_RESUME: u8 = 3;
/// The on-load type.
pub const ON_LOAD: u8 = 4;
/// The script id meaning "none".
pub const NO_SCRIPT: u16 = 0xFFFF;

/// One header record.
#[derive(Debug, Clone, Copy, PartialEq, Eq, Hash, Structural)]
pub struct InitScriptRecord {
    /// The init script type.
    pub kind: u8,
    /// The raw payload: a script id (low 16 bits) or, for
    /// [`ON_FRAME_TABLE`], the table offset.
    pub payload: u32,
}

/// One frame-table entry.
#[derive(Debug, Clone, Copy, PartialEq, Eq, Hash, Structural)]
pub struct FrameTableEntry {
    /// The first variable.
    pub var_a: u16,
    /// The second variable.
    pub var_b: u16,
    /// The script to run when the two compare equal.
    pub script_id: u16,
}

/// A parsed script header.
#[derive(Debug, Clone, PartialEq, Eq, Default)]
pub struct InitScripts {
    /// The records before the terminator, in order.
    pub records: Vec<InitScriptRecord>,
    /// The on-frame table entries (empty without a table).
    pub frame_table: Vec<FrameTableEntry>,
}

/// The frame table from `q` on, after the entries `acc`: `None` when it
/// runs past the data before its terminator.
pub open spec fn frame_from(b: Seq<u8>, q: int, acc: Seq<FrameTableEntry>) -> Option<
    Seq<FrameTableEntry>,
>
    decreases b.len() - q,
{
    if q < 0 || q + 2 > b.len() {
        None
    } else if spec_u16le(b, q) == 0 {
        Some(acc)
    } else if q + 6 > b.len() {
        None
    } else {
        frame_from(
            b,
            q + 6,
            acc.push(
                FrameTableEntry {
                    var_a: spec_u16le(b, q),
                    var_b: spec_u16le(b, q + 2),
                    script_id: spec_u16le(b, q + 4),
                },
            ),
        )
    }
}

/// The records from `p` on, after `recs`, with the frame table `table`
/// read so far: `None` when the terminator or a table is missing.
pub open spec fn records_from(
    b: Seq<u8>,
    p: int,
    recs: Seq<InitScriptRecord>,
    table: Seq<FrameTableEntry>,
) -> Option<(Seq<InitScriptRecord>, Seq<FrameTableEntry>)>
    decreases b.len() - p,
{
    if p < 0 || p >= b.len() {
        None
    } else if b[p] == 0 {
        Some((recs, table))
    } else if p + 5 > b.len() {
        None
    } else {
        let kind = b[p];
        let payload = spec_u32le(b, p + 1);
        let recs2 = recs.push(InitScriptRecord { kind, payload });
        if kind == ON_FRAME_TABLE && payload != 0 && table.len() == 0 {
            match frame_from(b, p + 5 + payload, Seq::empty()) {
                None => None,
                Some(t) => records_from(b, p + 5, recs2, t),
            }
        } else {
            records_from(b, p + 5, recs2, table)
        }
    }
}

fn read_frame_table(bytes: &[u8], q0: usize) -> (res: Result<Vec<FrameTableEntry>, NdsError>)
    requires
        bytes@.len() < MAX_BYTES,
    ensures
        match frame_from(bytes@, q0 as int, Seq::empty()) {
            Some(t) => res matches Ok(v) && v@ == t,
            None => res is Err,
        },
{
    let mut v: Vec<FrameTableEntry> = Vec::new();
    let mut q = q0;
    loop
        invariant
            bytes@.len() < MAX_BYTES,
            frame_from(bytes@, q as int, v@) == frame_from(bytes@, q0 as int, Seq::empty()),
        decreases bytes@.len() - q,
    {
        if q > bytes.len() || bytes.len() - q < 2 {
            return Err(
                NdsError::Truncated {
                    what: "script frame table",
                    need: q.saturating_add(2),
                    got: bytes.len(),
                },
            );
        }
        let var_a = u16le(bytes, q)?;
        if var_a == 0 {
            return Ok(v);
        }
        let var_b = u16le(bytes, q + 2)?;
        let script_id = u16le(bytes, q + 4)?;
        v.push(FrameTableEntry { var_a, var_b, script_id });
        q = q + FRAME_TABLE_ENTRY_SIZE;
    }
}

impl InitScripts {
    /// Decodes a member. Fails when the member is as large as the
    /// game's buffer or larger, has no terminator, or a frame table runs
    /// past its end.
    pub fn parse(bytes: &[u8]) -> (res: Result<Self, NdsError>)
        ensures
            bytes@.len() >= MAX_BYTES ==> res is Err,
            bytes@.len() < MAX_BYTES ==> match records_from(
                bytes@,
                0,
                Seq::empty(),
                Seq::empty(),
            ) {
                Some((r, t)) => res matches Ok(s) && s.records@ == r && s.frame_table@ == t,
                None => res is Err,
            },
    {
        if bytes.len() >= MAX_BYTES {
            return Err(NdsError::Invalid { what: "script header size" });
        }
        let mut records: Vec<InitScriptRecord> = Vec::new();
        let mut frame_table: Vec<FrameTableEntry> = Vec::new();
        let mut p: usize = 0;
        loop
            invariant
                bytes@.len() < MAX_BYTES,
                records_from(bytes@, p as int, records@, frame_table@) == records_from(
                    bytes@,
                    0,
                    Seq::empty(),
                    Seq::empty(),
                ),
            decreases bytes@.len() - p,
        {
            if p >= bytes.len() {
                return Err(
                    NdsError::Truncated {
                        what: "script header terminator",
                        need: p.saturating_add(1),
                        got: bytes.len(),
                    },
                );
            }
            let kind = bytes[p];
            if kind == 0 {
                return Ok(InitScripts { records, frame_table });
            }
            let payload = u32le(bytes, p + 1)?;
            records.push(InitScriptRecord { kind, payload });
            p = p + RECORD_SIZE;
            if kind == ON_FRAME_TABLE && payload != 0 && frame_table.len() == 0 {
                let q = p as u64 + payload as u64;
                if q > bytes.len() as u64 {
                    return Err(
                        NdsError::Truncated {
                            what: "script frame table",
                            need: bytes.len() + 1,
                            got: bytes.len(),
                        },
                    );
                }
                frame_table = read_frame_table(bytes, q as usize)?;
            }
        }
    }

    /// The script of the first record of `kind`, if any and not
    /// [`NO_SCRIPT`].
    pub open spec fn spec_script(self, kind: u8) -> Option<u16> {
        let rs = self.records@;
        if exists|i: int| 0 <= i < rs.len() && rs[i].kind == kind {
            let i = choose|i: int|
                0 <= i < rs.len() && rs[i].kind == kind && forall|j: int|
                    0 <= j < i ==> #[trigger] rs[j].kind != kind;
            let id = rs[i].payload as u16;
            if id == NO_SCRIPT {
                None
            } else {
                Some(id)
            }
        } else {
            None
        }
    }

    /// The script of the first record of `kind`; `None` when there is
    /// no such record or its script is [`NO_SCRIPT`].
    pub fn script(&self, kind: u8) -> (res: Option<u16>)
        ensures
            res == self.spec_script(kind),
    {
        let mut i: usize = 0;
        while i < self.records.len()
            invariant
                i <= self.records@.len(),
                forall|j: int| 0 <= j < i ==> #[trigger] self.records@[j].kind != kind,
            decreases self.records@.len() - i,
        {
            if self.records[i].kind == kind {
                proof {
                    let rs = self.records@;
                    let k = choose|k: int|
                        0 <= k < rs.len() && rs[k].kind == kind && forall|j: int|
                            0 <= j < k ==> #[trigger] rs[j].kind != kind;
                    assert(0 <= i < rs.len() && rs[i as int].kind == kind && forall|j: int|
                        0 <= j < i ==> #[trigger] rs[j].kind != kind);
                    assert(0 <= k < rs.len() && rs[k].kind == kind);
                    if k < i {
                        assert(rs[k].kind != kind);
                    }
                    if k > i {
                        assert(rs[i as int].kind != kind);
                    }
                }
                let id = self.records[i].payload as u16;
                if id == NO_SCRIPT {
                    return None;
                }
                return Some(id);
            }
            i = i + 1;
        }
        None
    }

    /// The on-transition script.
    pub fn on_transition(&self) -> (res: Option<u16>)
        ensures
            res == self.spec_script(ON_TRANSITION),
    {
        self.script(ON_TRANSITION)
    }

    /// The on-resume script.
    pub fn on_resume(&self) -> (res: Option<u16>)
        ensures
            res == self.spec_script(ON_RESUME),
    {
        self.script(ON_RESUME)
    }

    /// The on-load script.
    pub fn on_load(&self) -> (res: Option<u16>)
        ensures
            res == self.spec_script(ON_LOAD),
    {
        self.script(ON_LOAD)
    }
}

} // verus!
