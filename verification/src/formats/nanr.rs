//! NANR — Nitro Animation: a bank of cell-animation sequences. Magic
//! `RNAN`.
//!
//! Each sequence steps through frames that reference cells of the paired
//! NCER bank, optionally with transforms. A retail file carries exactly
//! three sections, in order:
//!
//! - KNBA (the animation bank):
//!
//!   ```text
//!   +0x00 2  nSequences
//!   +0x02 2  nFrames     (total, across all sequences)
//!   +0x04 4  sequenceOffset   (always 0x18)
//!   +0x08 4  frameOffset      (always 0x18 + 0x10*nSequences)
//!   +0x0C 4  resultOffset     (body-relative; the results pool base)
//!   +0x10 4  reserved (always 0)
//!   +0x14 4  uaatOffset       (0 = none; body-relative)
//!   ```
//!
//!   then the sequence records (`u16 frameCount, u16 loopStartFrame, u16
//!   animationElement, u16 animationType (1), u32 playbackMode, u32
//!   frameDataOffset`), the frame records (`u32 resultOffset, u16
//!   frameDelay, u16 0xBEEF`) and the shared, deduplicated results pool,
//!   which ends at the UAAT block if there is one, else at the section
//!   end. Each frame's result must lie inside the pool.
//! - LBAL: one label per sequence, in order.
//! - UEXT (`TXEU`): always 0x0C bytes with a zero body.
//!
//! The optional UAAT block (`TAAU`, at `uaatOffset`) holds one `u32`
//! attribute per sequence and per frame behind derived pointers:
//!
//! ```text
//! +0x00 4  "TAAU"   +0x04 4  size = 0x10 + 0x10*nSeq + 8*nFrames
//! +0x08 2  nSeq     +0x0A 2  attrsPerFrame (1)   +0x0C 4  reserved (8)
//! +0x10     one 0x0C record per sequence:
//!           u16 frameCount, u16 0xBEEF, u32 seqAttrPtr, u32 frameAttrPtr
//! then      u32 frameSinglePtr[nFrames], u32 seqAttrs[nSeq],
//!           u32 frameAttrs[nFrames]   (ending the section)
//! ```
//!
//! Pointers are relative to the block start + 8.

use vstd::prelude::*;
use vstd::utf8::*;
use crate::formats::{
    nitro_sections, nitro_labels, nitro_ok, nitro_count, nitro_section_at, nitro_section_ok,
    nitro_sec_off, label_count, label_ok, label_bytes, NitroSection,
};
use crate::nds::{NdsError, spec_u16le, spec_u32le, u16le, u32le, has_magic, spec_magic, slice_range};

verus! {

/// What a frame's result holds (`animationElement`).
#[derive(Debug, Clone, Copy, PartialEq, Eq, Hash, Structural)]
pub enum AnimElement {
    /// A bare cell index (2-byte result).
    Cell,
    /// Scale-rotate-translate (0x10-byte result).
    Srt,
    /// Translate-only (8-byte result).
    Translate,
}

/// The element a raw value names (values above 2 name none).
pub open spec fn anim_element(raw: u16) -> AnimElement {
    if raw == 0 {
        AnimElement::Cell
    } else if raw == 1 {
        AnimElement::Srt
    } else {
        AnimElement::Translate
    }
}

/// The size of one result of an element.
pub open spec fn result_size_of(e: AnimElement) -> int {
    match e {
        AnimElement::Cell => 2,
        AnimElement::Srt => 0x10,
        AnimElement::Translate => 8,
    }
}

impl AnimElement {
    /// Decodes a raw `animationElement`; fails above 2.
    pub fn from_raw(raw: u16) -> (res: Result<Self, NdsError>)
        ensures
            res is Ok <==> raw <= 2,
            res matches Ok(e) ==> e == anim_element(raw),
    {
        if raw == 0 {
            Ok(AnimElement::Cell)
        } else if raw == 1 {
            Ok(AnimElement::Srt)
        } else if raw == 2 {
            Ok(AnimElement::Translate)
        } else {
            Err(NdsError::Invalid { what: "unknown NANR animationElement" })
        }
    }

    /// The size of one result of this element, in bytes.
    pub fn result_size(self) -> (res: usize)
        ensures
            res == result_size_of(self),
    {
        match self {
            AnimElement::Cell => 2,
            AnimElement::Srt => 0x10,
            AnimElement::Translate => 8,
        }
    }
}

/// How a sequence plays back (`playbackMode`).
#[derive(Debug, Clone, Copy, PartialEq, Eq, Hash, Structural)]
pub enum PlayMode {
    /// Forward, stop at the end (1).
    Forward,
    /// Forward, loop back to `loopStartFrame` (2).
    ForwardLoop,
    /// Reverse, stop at the end (3).
    Reverse,
    /// Reverse, loop (4).
    ReverseLoop,
}

/// The mode a raw value in 1..=4 names.
pub open spec fn play_mode(raw: u32) -> PlayMode {
    if raw == 1 {
        PlayMode::Forward
    } else if raw == 2 {
        PlayMode::ForwardLoop
    } else if raw == 3 {
        PlayMode::Reverse
    } else {
        PlayMode::ReverseLoop
    }
}

impl PlayMode {
    /// Decodes a raw `playbackMode`; fails outside 1..=4.
    pub fn from_raw(raw: u32) -> (res: Result<Self, NdsError>)
        ensures
            res is Ok <==> 1 <= raw <= 4,
            res matches Ok(m) ==> m == play_mode(raw),
    {
        if raw == 1 {
            Ok(PlayMode::Forward)
        } else if raw == 2 {
            Ok(PlayMode::ForwardLoop)
        } else if raw == 3 {
            Ok(PlayMode::Reverse)
        } else if raw == 4 {
            Ok(PlayMode::ReverseLoop)
        } else {
            Err(NdsError::Invalid { what: "unknown NANR playbackMode" })
        }
    }
}

/// One frame's decoded result from the shared pool.
#[derive(Debug, Clone, Copy, PartialEq, Eq, Structural)]
pub enum AnimResult {
    /// A bare cell index.
    Cell {
        /// The cell this frame shows.
        cell: u16,
    },
    /// Scale-rotate-translate; the scales are raw fx32.
    Srt {
        /// The cell this frame shows.
        cell: u16,
        /// Rotation angle.
        rotation: u16,
        /// X scale, fx32.
        scale_x: u32,
        /// Y scale, fx32.
        scale_y: u32,
        /// X translation.
        x: i16,
        /// Y translation.
        y: i16,
    },
    /// Translate-only.
    Translate {
        /// The cell this frame shows.
        cell: u16,
        /// X translation.
        x: i16,
        /// Y translation.
        y: i16,
    },
}

/// One frame: a delay plus a reference into the shared results pool.
#[derive(Debug, Clone, Copy, PartialEq, Eq, Structural)]
pub struct Frame {
    /// The frame's offset in the shared results pool.
    pub result_off: u32,
    /// How many ticks the frame holds before the sequence advances.
    pub delay: u16,
}

/// The result of element `e` at `at` of `pool`.
pub open spec fn decode_result(pool: Seq<u8>, at: int, e: AnimElement) -> AnimResult {
    match e {
        AnimElement::Cell => AnimResult::Cell { cell: spec_u16le(pool, at) },
        AnimElement::Srt => AnimResult::Srt {
            cell: spec_u16le(pool, at),
            rotation: spec_u16le(pool, at + 2),
            scale_x: spec_u32le(pool, at + 4),
            scale_y: spec_u32le(pool, at + 8),
            x: spec_u16le(pool, at + 12) as i16,
            y: spec_u16le(pool, at + 14) as i16,
        },
        AnimElement::Translate => AnimResult::Translate {
            cell: spec_u16le(pool, at),
            x: spec_u16le(pool, at + 4) as i16,
            y: spec_u16le(pool, at + 6) as i16,
        },
    }
}

/// One animation sequence. Borrows the file bytes.
#[derive(Debug)]
pub struct Sequence<'a> {
    frame_start: usize,
    frames: Vec<Frame>,
    loop_start: u16,
    element: AnimElement,
    play_mode: PlayMode,
    label: &'a str,
    pool: &'a [u8],
}

impl<'a> Sequence<'a> {
    /// The index of the first frame in the bank's frame numbering.
    pub closed spec fn spec_frame_start(&self) -> usize {
        self.frame_start
    }

    /// The frames.
    pub closed spec fn spec_frames(&self) -> Seq<Frame> {
        self.frames@
    }

    /// The loop start.
    pub closed spec fn spec_loop_start(&self) -> u16 {
        self.loop_start
    }

    /// The result element.
    pub closed spec fn spec_element(&self) -> AnimElement {
        self.element
    }

    /// The playback mode.
    pub closed spec fn spec_play_mode(&self) -> PlayMode {
        self.play_mode
    }

    /// The label.
    pub closed spec fn spec_label(&self) -> Seq<char> {
        self.label@
    }

    /// The shared results pool.
    pub closed spec fn spec_pool(&self) -> Seq<u8> {
        self.pool@
    }

    /// The number of frames.
    pub fn frame_count(&self) -> (res: usize)
        ensures
            res == self.spec_frames().len(),
    {
        self.frames.len()
    }

    /// The index of the frame the sequence restarts from when looping.
    pub fn loop_start(&self) -> (res: u16)
        ensures
            res == self.spec_loop_start(),
    {
        self.loop_start
    }

    /// What each frame's result holds.
    pub fn element(&self) -> (res: AnimElement)
        ensures
            res == self.spec_element(),
    {
        self.element
    }

    /// How the sequence plays back.
    pub fn play_mode(&self) -> (res: PlayMode)
        ensures
            res == self.spec_play_mode(),
    {
        self.play_mode
    }

    /// The sequence's label.
    pub fn label(&self) -> (res: &str)
        ensures
            res@ == self.spec_label(),
    {
        self.label
    }

    /// The index of the first frame in the bank's frame numbering (the
    /// UAAT frame attributes use that numbering).
    pub fn frame_start(&self) -> (res: usize)
        ensures
            res == self.spec_frame_start(),
    {
        self.frame_start
    }

    /// The frames, in order.
    pub fn frames(&self) -> (res: &[Frame])
        ensures
            res@ == self.spec_frames(),
    {
        self.frames.as_slice()
    }

    /// Decodes frame `i`'s result from the shared pool; `None` past the
    /// last frame or when the result runs past the pool.
    pub fn result(&self, i: usize) -> (res: Option<AnimResult>)
        ensures
            ({
                let ok = i < self.spec_frames().len() && self.spec_frames()[i as int].result_off
                    + result_size_of(self.spec_element()) <= self.spec_pool().len();
                &&& res is Some <==> ok
                &&& ok ==> res == Some(
                    decode_result(
                        self.spec_pool(),
                        self.spec_frames()[i as int].result_off as int,
                        self.spec_element(),
                    ),
                )
            }),
    {
        if i >= self.frames.len() {
            return None;
        }
        let at = self.frames[i].result_off as usize;
        let size = self.element.result_size();
        if at > self.pool.len() || size > self.pool.len() - at {
            return None;
        }
        let p = self.pool;
        let cell = match u16le(p, at) {
            Ok(v) => v,
            Err(_) => {
                return None;
            },
        };
        match self.element {
            AnimElement::Cell => Some(AnimResult::Cell { cell }),
            AnimElement::Srt => {
                let rotation = match u16le(p, at + 2) {
                    Ok(v) => v,
                    Err(_) => {
                        return None;
                    },
                };
                let scale_x = match u32le(p, at + 4) {
                    Ok(v) => v,
                    Err(_) => {
                        return None;
                    },
                };
                let scale_y = match u32le(p, at + 8) {
                    Ok(v) => v,
                    Err(_) => {
                        return None;
                    },
                };
                let x = match u16le(p, at + 12) {
                    Ok(v) => v,
                    Err(_) => {
                        return None;
                    },
                };
                let y = match u16le(p, at + 14) {
                    Ok(v) => v,
                    Err(_) => {
                        return None;
                    },
                };
                Some(
                    AnimResult::Srt {
                        cell,
                        rotation,
                        scale_x,
                        scale_y,
                        x: #[verifier::truncate] (x as i16),
                        y: #[verifier::truncate] (y as i16),
                    },
                )
            },
            AnimElement::Translate => {
                let x = match u16le(p, at + 4) {
                    Ok(v) => v,
                    Err(_) => {
                        return None;
                    },
                };
                let y = match u16le(p, at + 6) {
                    Ok(v) => v,
                    Err(_) => {
                        return None;
                    },
                };
                Some(
                    AnimResult::Translate {
                        cell,
                        x: #[verifier::truncate] (x as i16),
                        y: #[verifier::truncate] (y as i16),
                    },
                )
            },
        }
    }
}

/// The UAAT user-attribute block: one `u32` per sequence and per frame.
#[derive(Debug)]
pub struct Uaat {
    seq_attrs: Vec<u32>,
    frame_attrs: Vec<u32>,
}

impl Uaat {
    /// The per-sequence attributes.
    pub closed spec fn spec_seq_attrs(&self) -> Seq<u32> {
        self.seq_attrs@
    }

    /// The per-frame attributes.
    pub closed spec fn spec_frame_attrs(&self) -> Seq<u32> {
        self.frame_attrs@
    }

    /// The per-sequence user attributes, in sequence order.
    pub fn seq_attrs(&self) -> (res: &[u32])
        ensures
            res@ == self.spec_seq_attrs(),
    {
        self.seq_attrs.as_slice()
    }

    /// The per-frame user attributes, in the bank's frame numbering.
    pub fn frame_attrs(&self) -> (res: &[u32])
        ensures
            res@ == self.spec_frame_attrs(),
    {
        self.frame_attrs.as_slice()
    }

    /// The user attribute of sequence `i`.
    pub fn seq_attr(&self, i: usize) -> (res: Option<u32>)
        ensures
            i < self.spec_seq_attrs().len() ==> res == Some(self.spec_seq_attrs()[i as int]),
            i >= self.spec_seq_attrs().len() ==> res is None,
    {
        if i < self.seq_attrs.len() {
            Some(self.seq_attrs[i])
        } else {
            None
        }
    }

    /// The user attribute of frame `i` of the bank's frame numbering.
    pub fn frame_attr(&self, i: usize) -> (res: Option<u32>)
        ensures
            i < self.spec_frame_attrs().len() ==> res == Some(self.spec_frame_attrs()[i as int]),
            i >= self.spec_frame_attrs().len() ==> res is None,
    {
        if i < self.frame_attrs.len() {
            Some(self.frame_attrs[i])
        } else {
            None
        }
    }
}

// The layout of an animation bank, as functions of the file bytes.
/// The KNBA section.
pub open spec fn knba(s: Seq<u8>) -> NitroSection {
    nitro_section_at(s, 0)
}

/// The LBAL section.
pub open spec fn nanr_labl(s: Seq<u8>) -> NitroSection {
    nitro_section_at(s, 1)
}

/// The UEXT section.
pub open spec fn nanr_uext(s: Seq<u8>) -> NitroSection {
    nitro_section_at(s, 2)
}

/// Where the KNBA body starts.
pub open spec fn nb(s: Seq<u8>) -> int {
    knba(s).offset + 8
}

/// The KNBA body length.
pub open spec fn nl(s: Seq<u8>) -> int {
    knba(s).size - 8
}

/// The sequence count.
pub open spec fn nanr_n(s: Seq<u8>) -> int {
    spec_u16le(s, nb(s)) as int
}

/// The declared frame total.
pub open spec fn nanr_f(s: Seq<u8>) -> int {
    spec_u16le(s, nb(s) + 2) as int
}

/// The frame area offset.
pub open spec fn frame_field(s: Seq<u8>) -> int {
    spec_u32le(s, nb(s) + 8) as int
}

/// The results pool offset.
pub open spec fn result_field(s: Seq<u8>) -> int {
    spec_u32le(s, nb(s) + 0x0C) as int
}

/// The UAAT offset (0 = none).
pub open spec fn uaat_field(s: Seq<u8>) -> int {
    spec_u32le(s, nb(s) + 0x14) as int
}

/// Where the results pool ends (body-relative).
pub open spec fn pool_end(s: Seq<u8>) -> int {
    if uaat_field(s) != 0 {
        uaat_field(s)
    } else {
        nl(s)
    }
}

/// Where sequence record `i` starts.
pub open spec fn seq_at(s: Seq<u8>, i: int) -> int {
    nb(s) + 0x18 + 0x10 * i
}

/// The frame count of sequence `i`.
pub open spec fn seq_fc(s: Seq<u8>, i: int) -> int {
    spec_u16le(s, seq_at(s, i)) as int
}

/// The element of sequence `i`.
pub open spec fn seq_element(s: Seq<u8>, i: int) -> AnimElement {
    anim_element(spec_u16le(s, seq_at(s, i) + 4))
}

/// Where frame `k` of sequence `i` starts.
pub open spec fn frame_at(s: Seq<u8>, i: int, k: int) -> int {
    nb(s) + frame_field(s) + spec_u32le(s, seq_at(s, i) + 12) + 8 * k
}

/// The frames of the sequences before `i`.
pub open spec fn frames_before(s: Seq<u8>, i: int) -> int
    decreases i,
{
    if i <= 0 {
        0
    } else {
        frames_before(s, i - 1) + seq_fc(s, i - 1)
    }
}

/// Whether frame `k` of sequence `i` carries its marker and a result
/// inside the pool.
pub open spec fn frame_ok(s: Seq<u8>, i: int, k: int) -> bool {
    &&& spec_u16le(s, frame_at(s, i, k) + 6) == 0xBEEF
    &&& spec_u32le(s, frame_at(s, i, k)) + result_size_of(seq_element(s, i)) <= pool_end(s)
        - result_field(s)
}

/// Whether sequence record `i` and its frames are well formed.
pub open spec fn seq_ok(s: Seq<u8>, i: int) -> bool {
    let at = seq_at(s, i);
    &&& seq_fc(s, i) >= 1
    &&& spec_u16le(s, at + 2) < seq_fc(s, i)
    &&& spec_u16le(s, at + 4) <= 2
    &&& spec_u16le(s, at + 6) == 1
    &&& 1 <= spec_u32le(s, at + 8) <= 4
    &&& frame_field(s) + spec_u32le(s, at + 12) + 8 * seq_fc(s, i) <= result_field(s)
    &&& forall|k: int| 0 <= k < seq_fc(s, i) ==> #[trigger] frame_ok(s, i, k)
}

/// Whether the KNBA header is well formed.
pub open spec fn knba_head_ok(s: Seq<u8>) -> bool {
    &&& nanr_n(s) >= 1
    &&& spec_u32le(s, nb(s) + 4) == 0x18
    &&& frame_field(s) == 0x18 + 0x10 * nanr_n(s)
    &&& spec_u32le(s, nb(s) + 0x10) == 0
    &&& uaat_field(s) <= nl(s)
    &&& result_field(s) <= pool_end(s)
    &&& frame_field(s) <= result_field(s)
}

/// Whether every sequence is well formed and the frames add up to the
/// declared total.
#[verifier::opaque]
pub open spec fn knba_seqs_ok(s: Seq<u8>) -> bool {
    &&& forall|i: int| 0 <= i < nanr_n(s) ==> #[trigger] seq_ok(s, i)
    &&& frames_before(s, nanr_n(s)) == nanr_f(s)
}

/// Where the UAAT block starts.
pub open spec fn uaat_at(s: Seq<u8>) -> int {
    nb(s) + uaat_field(s)
}

/// Whether UAAT record `i` mirrors its sequence with derived pointers.
pub open spec fn uaat_rec_ok(s: Seq<u8>, i: int) -> bool {
    let n = nanr_n(s);
    let f = nanr_f(s);
    let rec = uaat_at(s) + 0x10 + 0x0C * i;
    &&& spec_u16le(s, rec) == seq_fc(s, i)
    &&& spec_u16le(s, rec + 2) == 0xBEEF
    &&& spec_u32le(s, rec + 4) == 8 + 0x0C * n + 4 * f + 4 * i
    &&& spec_u32le(s, rec + 8) == 8 + 0x0C * n + 4 * frames_before(s, i)
}

/// Whether UAAT frame pointer `j` is the derived one.
pub open spec fn uaat_ptr_ok(s: Seq<u8>, j: int) -> bool {
    let n = nanr_n(s);
    let f = nanr_f(s);
    spec_u32le(s, uaat_at(s) + 0x10 + 0x0C * n + 4 * j) == 8 + 0x0C * n + 4 * f + 4 * n + 4 * j
}

/// Whether the UAAT block (when there is one) is well formed and ends
/// the section.
#[verifier::opaque]
pub open spec fn uaat_ok(s: Seq<u8>) -> bool {
    let n = nanr_n(s);
    let f = nanr_f(s);
    let at = uaat_at(s);
    uaat_field(s) != 0 ==> {
        &&& at + 0x10 + 0x10 * n + 8 * f == nb(s) + nl(s)
        &&& spec_magic(s, at, 0x54, 0x41, 0x41, 0x55)
        &&& spec_u32le(s, at + 4) == 0x10 + 0x10 * n + 8 * f
        &&& spec_u16le(s, at + 8) == n
        &&& spec_u16le(s, at + 0x0A) == 1
        &&& spec_u32le(s, at + 0x0C) == 8
        &&& forall|i: int| 0 <= i < n ==> #[trigger] uaat_rec_ok(s, i)
        &&& forall|j: int| 0 <= j < f ==> #[trigger] uaat_ptr_ok(s, j)
    }
}

/// The body of the label bank.
pub open spec fn nanr_label_body(s: Seq<u8>) -> Seq<u8> {
    let l = nanr_labl(s);
    s.subrange(l.offset + 8, l.offset + l.size)
}

/// Whether the labels decode and name the sequences one to one.
pub open spec fn nanr_labels_ok(s: Seq<u8>) -> bool {
    let b = nanr_label_body(s);
    &&& label_count(b) == nanr_n(s)
    &&& forall|i: int| 0 <= i < label_count(b) ==> #[trigger] label_ok(b, i)
}

/// Whether the container holds the three sections in order, with a
/// zero UEXT block.
pub open spec fn nanr_container_ok(s: Seq<u8>) -> bool {
    &&& nitro_ok(s, seq![0x52u8, 0x4E, 0x41, 0x4E], 3)
    &&& spec_u16le(s, 6) == 0x0100
    &&& nitro_count(s) == 3
    &&& knba(s).spec_is(0x4B, 0x4E, 0x42, 0x41)
    &&& nanr_labl(s).spec_is(0x4C, 0x42, 0x41, 0x4C)
    &&& nanr_uext(s).spec_is(0x54, 0x58, 0x45, 0x55)
    &&& nanr_uext(s).size == 0x0C
    &&& spec_u32le(s, nanr_uext(s).offset + 8) == 0
}

/// Whether `s` is an animation bank the parser accepts.
pub open spec fn nanr_ok(s: Seq<u8>) -> bool {
    &&& nanr_container_ok(s)
    &&& knba_head_ok(s)
    &&& knba_seqs_ok(s)
    &&& uaat_ok(s)
    &&& nanr_labels_ok(s)
}

/// Sequence `q` is sequence `i` of `s`.
pub open spec fn seq_parsed(q: Sequence, s: Seq<u8>, i: int) -> bool {
    let at = seq_at(s, i);
    &&& q.spec_frame_start() == frames_before(s, i)
    &&& q.spec_frames().len() == seq_fc(s, i)
    &&& (forall|k: int|
        0 <= k < seq_fc(s, i) ==> #[trigger] q.spec_frames()[k] == (Frame {
            result_off: spec_u32le(s, frame_at(s, i, k)),
            delay: spec_u16le(s, frame_at(s, i, k) + 4),
        }))
    &&& q.spec_loop_start() == spec_u16le(s, at + 2)
    &&& q.spec_element() == seq_element(s, i)
    &&& q.spec_play_mode() == play_mode(spec_u32le(s, at + 8))
    &&& q.spec_pool() == s.subrange(nb(s) + result_field(s), nb(s) + pool_end(s))
    &&& q.spec_label() == decode_utf8(label_bytes(nanr_label_body(s), i))
}

/// A parsed NANR. Borrows the file bytes; see [`Nanr::parse`].
#[derive(Debug)]
pub struct Nanr<'a> {
    version: u16,
    sequences: Vec<Sequence<'a>>,
    uaat: Option<Uaat>,
}

/// Whether `data` begins with a NANR header.
pub fn is_nanr(data: &[u8]) -> (res: bool)
    ensures
        res == (data@.len() >= 6 && data@[0] == 0x52 && data@[1] == 0x4E && data@[2] == 0x41
            && data@[3] == 0x4E && data@[4] == 0xFF && data@[5] == 0xFE),
{
    data.len() >= 6 && data[0] == 0x52 && data[1] == 0x4E && data[2] == 0x41 && data[3] == 0x4E
        && data[4] == 0xFF && data[5] == 0xFE
}

/// The frames of the first `i` sequences.
pub open spec fn seqs_frames_total(seqs: Seq<Sequence>, i: int) -> int
    decreases i,
{
    if i <= 0 {
        0
    } else {
        seqs_frames_total(seqs, i - 1) + seqs[i - 1].spec_frames().len()
    }
}

impl<'a> Nanr<'a> {
    #[verifier::type_invariant]
    spec fn inv(self) -> bool {
        &&& self.sequences@.len() <= 0xFFFF
        &&& forall|i: int|
            0 <= i < self.sequences@.len() ==> (#[trigger] self.sequences@[i]).frames@.len() <= 0xFFFF
        &&& forall|i: int|
            0 <= i < self.sequences@.len() ==> (#[trigger] self.sequences@[i]).frame_start <= 0xFFFF
    }

    /// The container version.
    pub closed spec fn spec_version(&self) -> u16 {
        self.version
    }

    /// The sequences, in bank order.
    pub closed spec fn spec_sequences(&self) -> Seq<Sequence<'a>> {
        self.sequences@
    }

    /// The UAAT block.
    pub closed spec fn spec_uaat(&self) -> Option<Uaat> {
        self.uaat
    }

    /// How a parse of `s` relates the fields to the bytes.
    pub open spec fn parsed_from(&self, s: Seq<u8>) -> bool {
        let n = nanr_n(s);
        let f = nanr_f(s);
        let at = uaat_at(s);
        &&& self.spec_version() == spec_u16le(s, 6)
        &&& self.spec_sequences().len() == n
        &&& forall|i: int| 0 <= i < n ==> #[trigger] seq_parsed(self.spec_sequences()[i], s, i)
        &&& self.spec_uaat() is Some == (uaat_field(s) != 0)
        &&& (self.spec_uaat() matches Some(u) ==> {
            &&& u.spec_seq_attrs().len() == n
            &&& u.spec_frame_attrs().len() == f
            &&& forall|i: int|
                0 <= i < n ==> #[trigger] u.spec_seq_attrs()[i] == spec_u32le(
                    s,
                    at + 0x10 + 0x0C * n + 4 * f + 4 * i,
                )
            &&& forall|j: int|
                0 <= j < f ==> #[trigger] u.spec_frame_attrs()[j] == spec_u32le(
                    s,
                    at + 0x10 + 0x0C * n + 4 * f + 4 * n + 4 * j,
                )
        })
    }

    /// Parses a complete NANR file, enforcing the full layout: the
    /// container, the KNBA header constants, every sequence record, the
    /// 0xBEEF marker of every frame, frame areas outside the results
    /// pool, every result inside the pool, the frame total, one label
    /// per sequence and, with a UAAT block, its size and every derived
    /// pointer.
    pub fn parse(data: &'a [u8]) -> (res: Result<Self, NdsError>)
        ensures
            res is Ok <==> nanr_ok(data@),
            res matches Ok(n) ==> n.parsed_from(data@),
    {
        let ghost s = data@;
        let (version, l, body, body_len) = read_container(data)?;
        let h = read_knba_header(data, body, body_len)?;
        assert(nanr_label_body(s) == data@.subrange(l.offset + 8, l.offset + l.size));
        let labels = nitro_labels(data, l.offset, l.size)?;
        if labels.len() != h.n {
            return Err(NdsError::Invalid { what: "NANR label count (must equal the sequence count)" });
        }
        let pool = slice_range(data, body + h.ro, body + h.pe);
        let sequences = read_sequences(data, body, &h, pool, &labels)?;
        let uaat = read_uaat(data, body, body_len, &h)?;
        proof {
            reveal(knba_seqs_ok);
            assert forall|i: int| 0 <= i < h.n implies #[trigger] sequences@[i].frame_start <= 0xFFFF by {
                assert(seq_parsed(sequences@[i], s, i));
                lemma_frames_before_mono(s, i, h.n as int);
            }
            assert forall|i: int| 0 <= i < h.n implies #[trigger] sequences@[i].frames@.len() <= 0xFFFF by {
                assert(seq_parsed(sequences@[i], s, i));
            }
        }
        Ok(Nanr { version, sequences, uaat })
    }

    /// The container version (always 0x0100 on retail files).
    pub fn version(&self) -> (res: u16)
        ensures
            res == self.spec_version(),
    {
        self.version
    }

    /// The number of sequences in the bank.
    pub fn sequence_count(&self) -> (res: usize)
        ensures
            res == self.spec_sequences().len(),
    {
        self.sequences.len()
    }

    /// All sequences, in bank order.
    pub fn sequences(&self) -> (res: &[Sequence<'a>])
        ensures
            res@ == self.spec_sequences(),
    {
        self.sequences.as_slice()
    }

    /// Sequence `i`, if it exists.
    pub fn sequence(&self, i: usize) -> (res: Option<&Sequence<'a>>)
        ensures
            i < self.spec_sequences().len() ==> res == Some(&self.spec_sequences()[i as int]),
            i >= self.spec_sequences().len() ==> res is None,
    {
        if i < self.sequences.len() {
            Some(&self.sequences[i])
        } else {
            None
        }
    }

    /// The total number of frames across all sequences.
    pub fn total_frames(&self) -> (res: usize)
        ensures
            res == seqs_frames_total(self.spec_sequences(), self.spec_sequences().len() as int),
    {
        proof {
            use_type_invariant(self);
        }
        let mut total: usize = 0;
        let mut i: usize = 0;
        while i < self.sequences.len()
            invariant
                i <= self.sequences@.len(),
                self.sequences@.len() <= 0xFFFF,
                forall|j: int|
                    0 <= j < self.sequences@.len() ==> (#[trigger] self.sequences@[j]).frames@.len()
                        <= 0xFFFF,
                total == seqs_frames_total(self.sequences@, i as int),
                total <= 0xFFFF * i,
            decreases self.sequences@.len() - i,
        {
            assert(self.sequences@[i as int].frames@.len() <= 0xFFFF);
            total = total + self.sequences[i].frames.len();
            i = i + 1;
        }
        total
    }

    /// The UAAT user-attribute block, if the bank has one.
    pub fn uaat(&self) -> (res: Option<&Uaat>)
        ensures
            res is Some == self.spec_uaat() is Some,
            res matches Some(u) ==> *u == self.spec_uaat()->0,
    {
        match &self.uaat {
            Some(u) => Some(u),
            None => None,
        }
    }

    /// The UAAT attribute of frame `frame` of sequence `seq`, if the
    /// bank has a UAAT block and the sequence has that frame.
    pub fn frame_attr(&self, seq: usize, frame: usize) -> (res: Option<u32>)
        ensures
            res == (if seq < self.spec_sequences().len() && frame < self.spec_sequences()[seq as int].spec_frames().len()
                && self.spec_uaat() is Some && (self.spec_sequences()[seq as int].spec_frame_start() + frame)
                < self.spec_uaat()->0.spec_frame_attrs().len() {
                Some(
                    self.spec_uaat()->0.spec_frame_attrs()[self.spec_sequences()[seq as int].spec_frame_start()
                        + frame],
                )
            } else {
                None
            }),
    {
        proof {
            use_type_invariant(self);
        }
        if seq >= self.sequences.len() {
            return None;
        }
        if frame >= self.sequences[seq].frames.len() {
            return None;
        }
        let start = self.sequences[seq].frame_start;
        assert(self.sequences@[seq as int].frame_start <= 0xFFFF);
        assert(self.sequences@[seq as int].frames@.len() <= 0xFFFF);
        match &self.uaat {
            Some(u) => u.frame_attr(start + frame),
            None => None,
        }
    }
}

fn read_container(data: &[u8]) -> (res: Result<(u16, NitroSection, usize, usize), NdsError>)
    ensures
        res is Ok <==> nanr_container_ok(data@),
        res matches Ok((version, l, body, body_len)) ==> {
            &&& version == spec_u16le(data@, 6)
            &&& l == nanr_labl(data@)
            &&& l.offset + 8 <= l.offset + l.size <= data@.len()
            &&& body == nb(data@)
            &&& body_len == nl(data@)
            &&& body + body_len + 0x14 <= data.len()
        },
{
    let ghost s = data@;
    let (version, sections) = nitro_sections(data, [0x52, 0x4E, 0x41, 0x4E], 3)?;
    assert(seq![0x52u8, 0x4E, 0x41, 0x4E] =~= [0x52u8, 0x4E, 0x41, 0x4E]@);
    if version != 0x0100 {
        return Err(NdsError::Invalid { what: "NANR version (always 0x0100 on retail files)" });
    }
    if sections.len() != 3 {
        return Err(NdsError::Invalid { what: "NANR section count" });
    }
    let k = sections[0];
    let l = sections[1];
    let u = sections[2];
    assert(nitro_section_ok(s, nitro_sec_off(s, 0)));
    assert(nitro_section_ok(s, nitro_sec_off(s, 1)));
    assert(nitro_section_ok(s, nitro_sec_off(s, 2)));
    if !k.is(0x4B, 0x4E, 0x42, 0x41) || !l.is(0x4C, 0x42, 0x41, 0x4C) || !u.is(0x54, 0x58, 0x45, 0x55) {
        return Err(NdsError::Invalid { what: "NANR section order" });
    }
    if u.size != 0xC {
        return Err(NdsError::Invalid { what: "NANR UEXT block (always 0x0C bytes of zero)" });
    }
    if u32le(data, u.offset + 8)? != 0 {
        return Err(NdsError::Invalid { what: "NANR UEXT block (always 0x0C bytes of zero)" });
    }
    Ok((version, l, k.offset + 8, k.size - 8))
}

/// The KNBA header fields of a well-formed bank.
struct KnbaHeader {
    n: usize,
    f: usize,
    fo: usize,
    ro: usize,
    uo: usize,
    pe: usize,
}

fn read_knba_header(data: &[u8], body: usize, body_len: usize) -> (res: Result<KnbaHeader, NdsError>)
    requires
        body == nb(data@),
        body_len == nl(data@),
        body + body_len + 0x14 <= data.len(),
    ensures
        res is Ok <==> knba_head_ok(data@),
        res matches Ok(h) ==> {
            &&& h.n == nanr_n(data@)
            &&& h.f == nanr_f(data@)
            &&& h.fo == frame_field(data@)
            &&& h.ro == result_field(data@)
            &&& h.uo == uaat_field(data@)
            &&& h.pe == pool_end(data@)
            &&& h.fo <= h.ro <= h.pe <= body_len
            &&& h.n >= 1
        },
{
    if body_len < 0x28 {
        return Err(NdsError::Truncated { what: "NANR KNBA header", need: 0x28, got: body_len });
    }
    let n = u16le(data, body)? as usize;
    let f = u16le(data, body + 2)? as usize;
    if n == 0 {
        return Err(NdsError::Invalid { what: "NANR sequence count" });
    }
    if u32le(data, body + 4)? != 0x18 {
        return Err(NdsError::Invalid { what: "NANR sequenceOffset (always 0x18)" });
    }
    let fo = u32le(data, body + 8)? as usize;
    if fo != 0x18 + 0x10 * n {
        return Err(NdsError::Invalid { what: "NANR frameOffset (must follow the sequence records)" });
    }
    let ro = u32le(data, body + 0xC)? as usize;
    if u32le(data, body + 0x10)? != 0 {
        return Err(NdsError::Invalid { what: "NANR KNBA reserved field" });
    }
    let uo = u32le(data, body + 0x14)? as usize;
    if uo > body_len {
        return Err(NdsError::Invalid { what: "NANR uaatOffset (must sit inside the section)" });
    }
    let pe = if uo != 0 {
        uo
    } else {
        body_len
    };
    if ro > pe {
        return Err(NdsError::Invalid { what: "NANR resultOffset (must sit before the pool end)" });
    }
    if fo > ro {
        return Err(NdsError::Invalid { what: "NANR frameOffset (must sit before the results pool)" });
    }
    Ok(KnbaHeader { n, f, fo, ro, uo, pe })
}

fn read_frames(data: &[u8], body: usize, h: &KnbaHeader, i: usize, count: usize, fdo: usize, size: usize) -> (res: Result<Vec<Frame>, NdsError>)
    requires
        body == nb(data@),
        body + nl(data@) + 0x14 <= data.len(),
        h.fo == frame_field(data@),
        h.ro == result_field(data@),
        h.pe == pool_end(data@),
        h.fo <= h.ro <= h.pe <= nl(data@),
        count == seq_fc(data@, i as int),
        fdo == spec_u32le(data@, seq_at(data@, i as int) + 12),
        h.fo + fdo + 8 * count <= h.ro,
        size == result_size_of(seq_element(data@, i as int)),
    ensures
        res is Ok <==> forall|k: int| 0 <= k < count ==> #[trigger] frame_ok(data@, i as int, k),
        res matches Ok(frames) ==> {
            &&& frames@.len() == count
            &&& forall|k: int|
                0 <= k < count ==> #[trigger] frames@[k] == (Frame {
                    result_off: spec_u32le(data@, frame_at(data@, i as int, k)),
                    delay: spec_u16le(data@, frame_at(data@, i as int, k) + 4),
                })
        },
{
    let ghost s = data@;
    let mut frames: Vec<Frame> = Vec::new();
    let mut k: usize = 0;
    while k < count
        invariant
            s == data@,
            body == nb(s),
            body + nl(s) + 0x14 <= data.len(),
            h.fo == frame_field(s),
            h.ro == result_field(s),
            h.pe == pool_end(s),
            h.fo <= h.ro <= h.pe <= nl(s),
            count == seq_fc(s, i as int),
            fdo == spec_u32le(s, seq_at(s, i as int) + 12),
            h.fo + fdo + 8 * count <= h.ro,
            size == result_size_of(seq_element(s, i as int)),
            k <= count,
            frames@.len() == k,
            forall|j: int| 0 <= j < k ==> #[trigger] frame_ok(s, i as int, j),
            forall|j: int|
                0 <= j < k ==> #[trigger] frames@[j] == (Frame {
                    result_off: spec_u32le(s, frame_at(s, i as int, j)),
                    delay: spec_u16le(s, frame_at(s, i as int, j) + 4),
                }),
        decreases count - k,
    {
        let fr = body + h.fo + fdo + 8 * k;
        assert(fr == frame_at(s, i as int, k as int));
        let result_off = u32le(data, fr)?;
        let delay = u16le(data, fr + 4)?;
        if u16le(data, fr + 6)? != 0xBEEF {
            assert(!frame_ok(s, i as int, k as int));
            return Err(NdsError::Invalid { what: "NANR frame marker (always 0xBEEF)" });
        }
        if result_off as usize > h.pe - h.ro || size > h.pe - h.ro - result_off as usize {
            assert(!frame_ok(s, i as int, k as int));
            return Err(NdsError::Invalid { what: "NANR frame result reaches beyond the pool" });
        }
        frames.push(Frame { result_off, delay });
        k = k + 1;
    }
    Ok(frames)
}

fn read_sequences<'a>(
    data: &'a [u8],
    body: usize,
    h: &KnbaHeader,
    pool: &'a [u8],
    labels: &Vec<&'a str>,
) -> (res: Result<Vec<Sequence<'a>>, NdsError>)
    requires
        body == nb(data@),
        body + nl(data@) + 0x14 <= data.len(),
        h.n == nanr_n(data@),
        h.f == nanr_f(data@),
        h.fo == frame_field(data@),
        h.ro == result_field(data@),
        h.pe == pool_end(data@),
        h.fo <= h.ro <= h.pe <= nl(data@),
        h.fo == 0x18 + 0x10 * h.n,
        pool@ == data@.subrange(nb(data@) + result_field(data@), nb(data@) + pool_end(data@)),
        labels@.len() == h.n,
        forall|i: int|
            0 <= i < h.n ==> #[trigger] labels@[i]@ == decode_utf8(
                label_bytes(nanr_label_body(data@), i),
            ),
    ensures
        res is Ok <==> knba_seqs_ok(data@),
        res matches Ok(seqs) ==> {
            &&& seqs@.len() == h.n
            &&& forall|i: int| 0 <= i < h.n ==> #[trigger] seq_parsed(seqs@[i], data@, i)
        },
{
    let ghost s = data@;
    let mut seqs: Vec<Sequence<'a>> = Vec::new();
    let mut total: usize = 0;
    let mut i: usize = 0;
    while i < h.n
        invariant
            s == data@,
            body == nb(s),
            body + nl(s) + 0x14 <= data.len(),
            h.n == nanr_n(s),
            h.f == nanr_f(s),
            h.fo == frame_field(s),
            h.ro == result_field(s),
            h.pe == pool_end(s),
            h.fo <= h.ro <= h.pe <= nl(s),
            h.fo == 0x18 + 0x10 * h.n,
            pool@ == s.subrange(nb(s) + result_field(s), nb(s) + pool_end(s)),
            labels@.len() == h.n,
            forall|j: int|
                0 <= j < h.n ==> #[trigger] labels@[j]@ == decode_utf8(
                    label_bytes(nanr_label_body(s), j),
                ),
            i <= h.n,
            seqs@.len() == i,
            total == frames_before(s, i as int),
            total <= 0xFFFF * i,
            forall|j: int| 0 <= j < i ==> #[trigger] seq_ok(s, j),
            forall|j: int| 0 <= j < i ==> #[trigger] seq_parsed(seqs@[j], s, j),
        decreases h.n - i,
    {
        let at = body + 0x18 + 0x10 * i;
        assert(at == seq_at(s, i as int));
        let count = u16le(data, at)? as usize;
        let loop_start = u16le(data, at + 2)?;
        let el_raw = u16le(data, at + 4)?;
        let ty = u16le(data, at + 6)?;
        let pm_raw = u32le(data, at + 8)?;
        let fdo = u32le(data, at + 12)? as usize;
        if count == 0 || loop_start as usize >= count || ty != 1 {
            assert(!seq_ok(s, i as int));
            reveal(knba_seqs_ok);
            return Err(NdsError::Invalid { what: "NANR sequence record" });
        }
        let element = match AnimElement::from_raw(el_raw) {
            Ok(e) => e,
            Err(e) => {
                assert(!seq_ok(s, i as int));
                reveal(knba_seqs_ok);
                return Err(e);
            },
        };
        let play_mode = match PlayMode::from_raw(pm_raw) {
            Ok(m) => m,
            Err(e) => {
                assert(!seq_ok(s, i as int));
                reveal(knba_seqs_ok);
                return Err(e);
            },
        };
        if fdo > h.ro - h.fo || 8 * count > h.ro - h.fo - fdo {
            assert(!seq_ok(s, i as int));
            reveal(knba_seqs_ok);
            return Err(NdsError::Invalid { what: "NANR frame records (must stay out of the results pool)" });
        }
        let frames = match read_frames(data, body, h, i, count, fdo, element.result_size()) {
            Ok(f) => f,
            Err(e) => {
                assert(!seq_ok(s, i as int));
                reveal(knba_seqs_ok);
                return Err(e);
            },
        };
        let q = Sequence {
            frame_start: total,
            frames,
            loop_start,
            element,
            play_mode,
            label: labels[i],
            pool,
        };
        assert(seq_ok(s, i as int));
        assert(seq_parsed(q, s, i as int));
        seqs.push(q);
        total = total + count;
        i = i + 1;
    }
    if total != h.f {
        reveal(knba_seqs_ok);
        return Err(NdsError::Invalid { what: "NANR nFrames (must equal the summed sequence frame counts)" });
    }
    reveal(knba_seqs_ok);
    Ok(seqs)
}

fn read_uaat(data: &[u8], body: usize, body_len: usize, h: &KnbaHeader) -> (res: Result<
    Option<Uaat>,
    NdsError,
>)
    requires
        body == nb(data@),
        body_len == nl(data@),
        body + body_len + 0x14 <= data.len(),
        h.n == nanr_n(data@),
        h.f == nanr_f(data@),
        h.uo == uaat_field(data@),
        h.uo <= body_len,
        h.n >= 1,
        knba_seqs_ok(data@),
    ensures
        res is Ok <==> uaat_ok(data@),
        res matches Ok(u) ==> {
            &&& u is Some == (uaat_field(data@) != 0)
            &&& (u matches Some(u) ==> {
                let at = uaat_at(data@);
                let n = nanr_n(data@);
                let f = nanr_f(data@);
                &&& u.spec_seq_attrs().len() == n
                &&& u.spec_frame_attrs().len() == f
                &&& forall|i: int|
                    0 <= i < n ==> #[trigger] u.spec_seq_attrs()[i] == spec_u32le(
                        data@,
                        at + 0x10 + 0x0C * n + 4 * f + 4 * i,
                    )
                &&& forall|j: int|
                    0 <= j < f ==> #[trigger] u.spec_frame_attrs()[j] == spec_u32le(
                        data@,
                        at + 0x10 + 0x0C * n + 4 * f + 4 * n + 4 * j,
                    )
            })
        },
{
    let ghost s = data@;
    if h.uo == 0 {
        reveal(uaat_ok);
        return Ok(None);
    }
    let n = h.n;
    let f = h.f;
    let at = body + h.uo;
    if 0x10 * n + 8 * f + 0x10 != body_len - h.uo {
        reveal(uaat_ok);
        return Err(NdsError::Invalid { what: "NANR UAAT size (must tile the section end)" });
    }
    if !has_magic(data, at, 0x54, 0x41, 0x41, 0x55) || u32le(data, at + 4)? as usize != 0x10 + 0x10
        * n + 8 * f || u16le(data, at + 8)? as usize != n || u16le(data, at + 0xA)? != 1 || u32le(
        data,
        at + 0xC,
    )? != 8 {
        reveal(uaat_ok);
        return Err(NdsError::Invalid { what: "NANR UAAT header" });
    }
    let mut i: usize = 0;
    let mut before: usize = 0;
    while i < n
        invariant
            s == data@,
            body == nb(s),
            body_len == nl(s),
            body + body_len + 0x14 <= data.len(),
            n == nanr_n(s),
            f == nanr_f(s),
            h.uo == uaat_field(s),
            at == uaat_at(s),
            uaat_field(s) != 0,
            at + 0x10 + 0x10 * n + 8 * f == body + body_len,
            i <= n,
            before == frames_before(s, i as int),
            before <= f,
            knba_seqs_ok(s),
            forall|j: int| 0 <= j < i ==> #[trigger] uaat_rec_ok(s, j),
        decreases n - i,
    {
        proof {
            reveal(knba_seqs_ok);
            lemma_frames_before_mono(s, i as int + 1, n as int);
        }
        let rec = at + 0x10 + 0x0C * i;
        let fc = u16le(data, rec)? as usize;
        let seq_fc_val = u16le(data, body + 0x18 + 0x10 * i)? as usize;
        assert(seq_fc_val == seq_fc(s, i as int));
        if fc != seq_fc_val || u16le(data, rec + 2)? != 0xBEEF || u32le(data, rec + 4)? as usize != 8
            + 0x0C * n + 4 * f + 4 * i || u32le(data, rec + 8)? as usize != 8 + 0x0C * n + 4 * before {
            assert(!uaat_rec_ok(s, i as int));
            reveal(uaat_ok);
            return Err(NdsError::Invalid { what: "NANR UAAT sequence record" });
        }
        before = before + seq_fc_val;
        i = i + 1;
    }
    let mut j: usize = 0;
    while j < f
        invariant
            s == data@,
            n == nanr_n(s),
            f == nanr_f(s),
            at == uaat_at(s),
            uaat_field(s) != 0,
            at + 0x10 + 0x10 * n + 8 * f <= data.len(),
            j <= f,
            forall|k: int| 0 <= k < j ==> #[trigger] uaat_ptr_ok(s, k),
        decreases f - j,
    {
        if u32le(data, at + 0x10 + 0x0C * n + 4 * j)? as usize != 8 + 0x0C * n + 4 * f + 4 * n + 4
            * j {
            assert(!uaat_ptr_ok(s, j as int));
            reveal(uaat_ok);
            return Err(NdsError::Invalid { what: "NANR UAAT frame-attribute pointer" });
        }
        j = j + 1;
    }
    let base = at + 0x10 + 0x0C * n + 4 * f;
    let mut seq_attrs: Vec<u32> = Vec::new();
    let mut i: usize = 0;
    while i < n
        invariant
            base + 4 * n + 4 * f <= data.len(),
            i <= n,
            seq_attrs@.len() == i,
            forall|k: int| 0 <= k < i ==> #[trigger] seq_attrs@[k] == spec_u32le(data@, base + 4 * k),
        decreases n - i,
    {
        seq_attrs.push(u32le(data, base + 4 * i)?);
        i = i + 1;
    }
    let mut frame_attrs: Vec<u32> = Vec::new();
    let mut j: usize = 0;
    while j < f
        invariant
            base + 4 * n + 4 * f <= data.len(),
            j <= f,
            frame_attrs@.len() == j,
            forall|k: int|
                0 <= k < j ==> #[trigger] frame_attrs@[k] == spec_u32le(data@, base + 4 * n + 4 * k),
        decreases f - j,
    {
        frame_attrs.push(u32le(data, base + 4 * n + 4 * j)?);
        j = j + 1;
    }
    reveal(uaat_ok);
    Ok(Some(Uaat { seq_attrs, frame_attrs }))
}

/// The frames before a sequence never exceed those before a later one.
proof fn lemma_frames_before_mono(s: Seq<u8>, i: int, j: int)
    requires
        0 <= i <= j,
    ensures
        frames_before(s, i) <= frames_before(s, j),
    decreases j - i,
{
    if i < j {
        lemma_frames_before_mono(s, i, j - 1);
    }
}

} // verus!
