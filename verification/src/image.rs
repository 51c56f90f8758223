//! Turning an ELF executable into the image a board's loader writes to memory.
//!
//! The image is one contiguous block: every loadable segment's file bytes at its address, gaps
//! between segments filled with zeros. Zero-initialised data (the part of a segment that has no
//! file bytes) is not part of the block; the loader is expected to clear the memory after it.

use vstd::prelude::*;

use crate::elf::{elf_contents, read_elf, read_result_view, read_segment_tuple, object_file_contents};
use crate::board::Board;
use crate::text::{dec, hex, push_dec, push_hex, push_hex_wide, text};

verus! {

/// A loadable segment as values: its address, its bytes in the file, and its size in memory.
pub struct SegmentView {
    pub address: u64,
    pub data: Seq<u8>,
    pub size: u64,
}

/// A loadable segment: its address, its bytes in the file, and its size in memory.
#[derive(Debug)]
pub struct Segment {
    pub address: u64,
    pub data: Vec<u8>,
    pub size: u64,
}

impl View for Segment {
    type V = SegmentView;

    open spec fn view(&self) -> SegmentView {
        SegmentView { address: self.address, data: self.data@, size: self.size }
    }
}

/// A loadable segment as the ELF reader hands it over, as values: its file bytes may instead be
/// the message of the error that reading them gave.
pub struct ReadSegmentView {
    pub address: u64,
    pub data: Result<Seq<u8>, Seq<char>>,
    pub size: u64,
}

/// A loadable segment as the ELF reader hands it over: its file bytes may instead be the message
/// of the error that reading them gave.
#[derive(Debug)]
pub struct ReadSegment {
    pub address: u64,
    pub data: Result<Vec<u8>, String>,
    pub size: u64,
}

impl View for ReadSegment {
    type V = ReadSegmentView;

    open spec fn view(&self) -> ReadSegmentView {
        ReadSegmentView {
            address: self.address,
            data: match self.data {
                Ok(d) => Ok(d@),
                Err(e) => Err(e@),
            },
            size: self.size,
        }
    }
}

/// The segments as values.
pub open spec fn read_segments_view(segments: Seq<ReadSegment>) -> Seq<ReadSegmentView> {
    segments.map_values(|s: ReadSegment| s@)
}

/// The segments as values.
pub open spec fn segments_view(segments: Seq<Segment>) -> Seq<SegmentView> {
    segments.map_values(|s: Segment| s@)
}

/// The message of the first segment, in file order, whose bytes could not be read.
pub open spec fn first_read_error(segs: Seq<ReadSegmentView>) -> Option<Seq<char>>
    decreases segs.len(),
{
    if segs.len() == 0 {
        None
    } else {
        match first_read_error(segs.drop_last()) {
            Some(e) => Some(e),
            None => match segs.last().data {
                Err(e) => Some(e),
                Ok(_) => None,
            },
        }
    }
}

/// The segments that occupy memory (size not zero), in file order.
pub open spec fn loadable(segs: Seq<ReadSegmentView>) -> Seq<SegmentView>
    decreases segs.len(),
{
    if segs.len() == 0 {
        seq![]
    } else {
        let rest = loadable(segs.drop_last());
        let s = segs.last();
        if s.size == 0 {
            rest
        } else {
            rest.push(
                SegmentView {
                    address: s.address,
                    data: match s.data {
                        Ok(d) => d,
                        Err(_) => seq![],
                    },
                    size: s.size,
                },
            )
        }
    }
}

/// Whether the segment's file bytes or its memory reach past the end of the address space.
pub open spec fn too_long(s: SegmentView) -> bool {
    s.address + s.data.len() > u64::MAX || s.address + s.size > u64::MAX
}

/// Segment `i` comes before segment `j` when ordered by address, ties kept in file order.
pub open spec fn before(segs: Seq<SegmentView>, i: int, j: int) -> bool {
    segs[i].address < segs[j].address || (segs[i].address == segs[j].address && i < j)
}

/// Segment `i` comes before segment `j` and its file bytes reach into `j`'s address.
pub open spec fn overlaps(segs: Seq<SegmentView>, i: int, j: int) -> bool {
    &&& 0 <= i < segs.len()
    &&& 0 <= j < segs.len()
    &&& i != j
    &&& before(segs, i, j)
    &&& segs[i].address + segs[i].data.len() > segs[j].address
}

/// Some segment's file bytes reach into the segment at `address`.
pub open spec fn overlapped_at(segs: Seq<SegmentView>, address: u64) -> bool {
    exists|i: int, j: int| #[trigger] overlaps(segs, i, j) && segs[j].address == address
}

/// The lowest address at which segments overlap.
pub open spec fn lowest_overlap(segs: Seq<SegmentView>) -> u64 {
    choose|a: u64|
        overlapped_at(segs, a) && forall|b: u64| #[trigger] overlapped_at(segs, b) ==> a <= b
}

/// The lowest segment address.
pub open spec fn lowest_address(segs: Seq<SegmentView>) -> u64
    decreases segs.len(),
{
    if segs.len() <= 1 {
        segs[0].address
    } else {
        let rest = lowest_address(segs.drop_last());
        if segs.last().address < rest {
            segs.last().address
        } else {
            rest
        }
    }
}

/// The end of the highest segment's file bytes.
pub open spec fn highest_file_end(segs: Seq<SegmentView>) -> int
    decreases segs.len(),
{
    if segs.len() == 0 {
        0
    } else {
        let rest = highest_file_end(segs.drop_last());
        let end = segs.last().address + segs.last().data.len();
        if end > rest {
            end
        } else {
            rest
        }
    }
}

/// The end of the highest segment in memory.
pub open spec fn highest_memory_end(segs: Seq<SegmentView>) -> int
    decreases segs.len(),
{
    if segs.len() == 0 {
        0
    } else {
        let rest = highest_memory_end(segs.drop_last());
        let end = segs.last().address + segs.last().size;
        if end > rest {
            end
        } else {
            rest
        }
    }
}

/// Whether segment `s` has a file byte at `address`.
pub open spec fn covers(s: SegmentView, address: int) -> bool {
    s.address <= address < s.address + s.data.len()
}

/// The byte the image holds at `address`: the file byte of the segment there, or zero.
pub open spec fn image_byte(segs: Seq<SegmentView>, address: int) -> u8 {
    if exists|i: int| 0 <= i < segs.len() && #[trigger] covers(segs[i], address) {
        let i = choose|i: int| 0 <= i < segs.len() && #[trigger] covers(segs[i], address);
        segs[i].data[address - segs[i].address]
    } else {
        0
    }
}


/// The address of the first segment, in file order, that reaches past the end of the address
/// space.
pub open spec fn first_too_long(segs: Seq<SegmentView>) -> Option<u64>
    decreases segs.len(),
{
    if segs.len() == 0 {
        None
    } else {
        match first_too_long(segs.drop_last()) {
            Some(a) => Some(a),
            None => if too_long(segs.last()) {
                Some(segs.last().address)
            } else {
                None
            },
        }
    }
}

/// An image as values.
pub struct ImageView {
    pub load_address: u64,
    pub entry: u64,
    pub bytes: Seq<u8>,
    pub memory_end: u64,
}

/// The image of the loadable segments `segs`: it starts at the lowest segment, ends with the
/// highest file byte, and holds every segment's file bytes at their addresses and zeros between.
pub open spec fn flat_image(entry: u64, segs: Seq<SegmentView>) -> ImageView {
    let load = lowest_address(segs);
    ImageView {
        load_address: load,
        entry,
        bytes: Seq::new(
            (highest_file_end(segs) - load) as nat,
            |k: int| image_byte(segs, load + k),
        ),
        memory_end: highest_memory_end(segs) as u64,
    }
}

/// The message for a segment that could not be read.
pub open spec fn read_error_message(e: Seq<char>) -> Seq<char> {
    "cannot read a loadable segment: "@ + e
}

/// The message for a segment that reaches past the end of the address space.
pub open spec fn too_long_message(address: u64) -> Seq<char> {
    "the segment at "@ + hex(address as nat) + " reaches past the end of the address space"@
}

/// The message for segments that overlap.
pub open spec fn overlap_message(address: u64) -> Seq<char> {
    "loadable segments overlap at "@ + hex(address as nat) + "; cannot build a flat image"@
}

/// What the image of an ELF with entry point `entry` and segments `segs` (in file order) is, or
/// why there is none.
pub open spec fn image_from_segments(entry: u64, segs: Seq<ReadSegmentView>) -> Result<
    ImageView,
    Seq<char>,
> {
    let kept = loadable(segs);
    if first_read_error(segs) is Some {
        Err(read_error_message(first_read_error(segs)->Some_0))
    } else if first_too_long(kept) is Some {
        Err(too_long_message(first_too_long(kept)->Some_0))
    } else if kept.len() == 0 {
        Err("the ELF has no loadable segments"@)
    } else if exists|a: u64| overlapped_at(kept, a) {
        Err(overlap_message(lowest_overlap(kept)))
    } else if highest_file_end(kept) - lowest_address(kept) > usize::MAX {
        Err("the image is larger than the memory of this machine"@)
    } else {
        Ok(flat_image(entry, kept))
    }
}

/// An image that a board's loader writes to memory.
#[derive(Debug, PartialEq, Eq)]
pub struct Image {
    /// The address of the first byte of `bytes`.
    pub load_address: u64,
    /// The address execution starts at.
    pub entry: u64,
    pub bytes: Vec<u8>,
    /// The end of the memory the program occupies, including zero-initialised data.
    pub memory_end: u64,
}

impl View for Image {
    type V = ImageView;

    open spec fn view(&self) -> ImageView {
        ImageView {
            load_address: self.load_address,
            entry: self.entry,
            bytes: self.bytes@,
            memory_end: self.memory_end,
        }
    }
}

proof fn lemma_first_read_error_prefix(segs: Seq<ReadSegmentView>, k: int)
    requires
        0 <= k <= segs.len(),
        first_read_error(segs.take(k)) is Some,
    ensures
        first_read_error(segs) == first_read_error(segs.take(k)),
    decreases segs.len() - k,
{
    if k < segs.len() {
        assert(segs.take(k + 1).drop_last() =~= segs.take(k));
        lemma_first_read_error_prefix(segs, k + 1);
    } else {
        assert(segs.take(k) =~= segs);
    }
}

proof fn lemma_first_too_long_prefix(segs: Seq<SegmentView>, k: int)
    requires
        0 <= k <= segs.len(),
        first_too_long(segs.take(k)) is Some,
    ensures
        first_too_long(segs) == first_too_long(segs.take(k)),
    decreases segs.len() - k,
{
    if k < segs.len() {
        assert(segs.take(k + 1).drop_last() =~= segs.take(k));
        lemma_first_too_long_prefix(segs, k + 1);
    } else {
        assert(segs.take(k) =~= segs);
    }
}

/// A copy of `bytes`.
fn copy_bytes(bytes: &Vec<u8>) -> (r: Vec<u8>)
    ensures
        r@ == bytes@,
{
    let mut r: Vec<u8> = Vec::new();
    let mut i: usize = 0;
    while i < bytes.len()
        invariant
            i <= bytes.len(),
            r@ == bytes@.take(i as int),
        decreases bytes.len() - i,
    {
        r.push(bytes[i]);
        i = i + 1;
        assert(r@ =~= bytes@.take(i as int));
    }
    assert(bytes@.take(i as int) =~= bytes@);
    r
}

/// Keeps the segments that occupy memory, or gives the message of the first one that could not
/// be read.
fn collect_loadable(segments: &Vec<ReadSegment>) -> (r: Result<Vec<Segment>, String>)
    ensures
        match r {
            Ok(kept) => first_read_error(read_segments_view(segments@)) is None
                && segments_view(kept@) == loadable(read_segments_view(segments@)),
            Err(e) => first_read_error(read_segments_view(segments@)) is Some
                && e@ == read_error_message(first_read_error(read_segments_view(segments@))->Some_0),
        },
{
    let ghost rv = read_segments_view(segments@);
    let mut kept: Vec<Segment> = Vec::new();
    let mut i: usize = 0;
    while i < segments.len()
        invariant
            i <= segments.len(),
            rv == read_segments_view(segments@),
            first_read_error(rv.take(i as int)) is None,
            segments_view(kept@) == loadable(rv.take(i as int)),
        decreases segments.len() - i,
    {
        let segment = &segments[i];
        assert(rv.take(i + 1).drop_last() =~= rv.take(i as int));
        assert(rv.take(i + 1).last() == segment@);
        match &segment.data {
            Err(e) => {
                proof {
                    lemma_first_read_error_prefix(rv, i + 1);
                }
                let mut message = text("cannot read a loadable segment: ");
                message.append(e.as_str());
                return Err(message);
            },
            Ok(data) => {
                if segment.size != 0 {
                    let copy = copy_bytes(data);
                    kept.push(Segment { address: segment.address, data: copy, size: segment.size });
                    assert(segments_view(kept@) =~= loadable(rv.take(i + 1)));
                }
            },
        }
        i = i + 1;
    }
    assert(rv.take(i as int) =~= rv);
    Ok(kept)
}

/// The address of the first segment that reaches past the end of the address space, if any.
fn find_too_long(kept: &Vec<Segment>) -> (r: Option<u64>)
    ensures
        r == first_too_long(segments_view(kept@)),
{
    let ghost sv = segments_view(kept@);
    let mut i: usize = 0;
    while i < kept.len()
        invariant
            i <= kept.len(),
            sv == segments_view(kept@),
            first_too_long(sv.take(i as int)) is None,
        decreases kept.len() - i,
    {
        let segment = &kept[i];
        assert(sv.take(i + 1).drop_last() =~= sv.take(i as int));
        assert(sv.take(i + 1).last() == segment@);
        if segment.data.len() as u64 > u64::MAX - segment.address || segment.size > u64::MAX
            - segment.address {
            proof {
                lemma_first_too_long_prefix(sv, i + 1);
            }
            return Some(segment.address);
        }
        i = i + 1;
    }
    assert(sv.take(i as int) =~= sv);
    None
}

proof fn lemma_none_too_long(segs: Seq<SegmentView>, i: int)
    requires
        first_too_long(segs) is None,
        0 <= i < segs.len(),
    ensures
        !too_long(segs[i]),
    decreases segs.len(),
{
    if i < segs.len() - 1 {
        lemma_none_too_long(segs.drop_last(), i);
    }
}

/// Whether some segment's file bytes reach into segment `j`.
fn overlapped_by_some(kept: &Vec<Segment>, j: usize) -> (r: bool)
    requires
        j < kept.len(),
        first_too_long(segments_view(kept@)) is None,
    ensures
        r == exists|i: int| #[trigger] overlaps(segments_view(kept@), i, j as int),
{
    let ghost sv = segments_view(kept@);
    let mut i: usize = 0;
    while i < kept.len()
        invariant
            i <= kept.len(),
            j < kept.len(),
            sv == segments_view(kept@),
            first_too_long(sv) is None,
            forall|i2: int| 0 <= i2 < i ==> !#[trigger] overlaps(sv, i2, j as int),
        decreases kept.len() - i,
    {
        proof {
            lemma_none_too_long(sv, i as int);
        }
        let a = &kept[i];
        let b = &kept[j];
        if i != j && (a.address < b.address || (a.address == b.address && i < j))
            && a.address + a.data.len() as u64 > b.address {
            assert(overlaps(sv, i as int, j as int));
            return true;
        }
        i = i + 1;
    }
    false
}

/// The lowest address at which segments overlap, if they do.
fn find_overlap(kept: &Vec<Segment>) -> (r: Option<u64>)
    requires
        first_too_long(segments_view(kept@)) is None,
    ensures
        r is None <==> !exists|a: u64| overlapped_at(segments_view(kept@), a),
        r matches Some(m) ==> m == lowest_overlap(segments_view(kept@)),
{
    let ghost sv = segments_view(kept@);
    let mut best: Option<u64> = None;
    let mut j: usize = 0;
    while j < kept.len()
        invariant
            j <= kept.len(),
            sv == segments_view(kept@),
            first_too_long(sv) is None,
            best is None ==> forall|i2: int, j2: int|
                0 <= j2 < j ==> !#[trigger] overlaps(sv, i2, j2),
            best matches Some(m) ==> overlapped_at(sv, m) && forall|i2: int, j2: int|
                0 <= j2 < j && #[trigger] overlaps(sv, i2, j2) ==> m <= sv[j2].address,
        decreases kept.len() - j,
    {
        if overlapped_by_some(kept, j) {
            let address = kept[j].address;
            let better = match best {
                None => true,
                Some(m) => address < m,
            };
            if better {
                best = Some(address);
            }
        }
        j = j + 1;
    }
    proof {
        match best {
            None => {
                assert forall|a: u64| !overlapped_at(sv, a) by {
                    if overlapped_at(sv, a) {
                        let (i2, j2) = choose|i2: int, j2: int|
                            #[trigger] overlaps(sv, i2, j2) && sv[j2].address == a;
                        assert(overlaps(sv, i2, j2));
                    }
                }
            },
            Some(m) => {
                assert forall|b: u64| #[trigger] overlapped_at(sv, b) implies m <= b by {
                    let (i2, j2) = choose|i2: int, j2: int|
                        #[trigger] overlaps(sv, i2, j2) && sv[j2].address == b;
                    assert(overlaps(sv, i2, j2));
                }
                let l = lowest_overlap(sv);
                assert(overlapped_at(sv, l) && forall|b: u64| #[trigger] overlapped_at(sv, b) ==> l <= b);
                assert(m <= l && l <= m);
            },
        }
    }
    best
}

proof fn lemma_lowest_address(segs: Seq<SegmentView>)
    requires
        segs.len() >= 1,
    ensures
        forall|i: int| 0 <= i < segs.len() ==> lowest_address(segs) <= #[trigger] segs[i].address,
        exists|i: int| 0 <= i < segs.len() && lowest_address(segs) == #[trigger] segs[i].address,
    decreases segs.len(),
{
    if segs.len() == 1 {
        assert(lowest_address(segs) == segs[0].address);
    } else {
        lemma_lowest_address(segs.drop_last());
        let w = choose|i: int|
            0 <= i < segs.len() - 1 && lowest_address(segs.drop_last()) == #[trigger] segs.drop_last()[i].address;
        assert(segs.drop_last()[w] == segs[w]);
        assert forall|i: int| 0 <= i < segs.len() implies lowest_address(segs) <= #[trigger] segs[i].address by {
            if i < segs.len() - 1 {
                assert(segs.drop_last()[i] == segs[i]);
            }
        }
        if segs.last().address < lowest_address(segs.drop_last()) {
            assert(lowest_address(segs) == segs[segs.len() - 1].address);
        } else {
            assert(lowest_address(segs) == segs[w].address);
        }
    }
}

proof fn lemma_highest_ends(segs: Seq<SegmentView>)
    requires
        first_too_long(segs) is None,
    ensures
        forall|i: int| 0 <= i < segs.len() ==> #[trigger] segs[i].address + segs[i].data.len()
            <= highest_file_end(segs),
        forall|i: int| 0 <= i < segs.len() ==> #[trigger] segs[i].address + segs[i].size
            <= highest_memory_end(segs),
        0 <= highest_file_end(segs) <= u64::MAX,
        0 <= highest_memory_end(segs) <= u64::MAX,
    decreases segs.len(),
{
    if segs.len() > 0 {
        lemma_highest_ends(segs.drop_last());
        lemma_none_too_long(segs, segs.len() - 1);
        assert forall|i: int| 0 <= i < segs.len() implies #[trigger] segs[i].address
            + segs[i].data.len() <= highest_file_end(segs) && segs[i].address + segs[i].size
            <= highest_memory_end(segs) by {
            if i < segs.len() - 1 {
                assert(segs.drop_last()[i] == segs[i]);
            }
        }
    }
}

/// The lowest address and the highest file and memory ends of the segments.
fn bounds(kept: &Vec<Segment>) -> (r: (u64, u64, u64))
    requires
        kept.len() >= 1,
        first_too_long(segments_view(kept@)) is None,
    ensures
        r.0 == lowest_address(segments_view(kept@)),
        r.1 == highest_file_end(segments_view(kept@)),
        r.2 == highest_memory_end(segments_view(kept@)),
{
    let ghost sv = segments_view(kept@);
    let mut low = kept[0].address;
    let mut file_end: u64 = 0;
    let mut memory_end: u64 = 0;
    let mut i: usize = 0;
    while i < kept.len()
        invariant
            i <= kept.len(),
            kept.len() >= 1,
            sv == segments_view(kept@),
            first_too_long(sv) is None,
            low == lowest_address(sv.take(if i == 0 { 1 } else { i as int })),
            file_end == highest_file_end(sv.take(i as int)),
            memory_end == highest_memory_end(sv.take(i as int)),
        decreases kept.len() - i,
    {
        proof {
            lemma_none_too_long(sv, i as int);
        }
        let s = &kept[i];
        assert(sv.take(i + 1).drop_last() =~= sv.take(i as int));
        assert(sv.take(i + 1).last() == s@);
        if i > 0 && s.address < low {
            low = s.address;
        }
        let f = s.address + s.data.len() as u64;
        if f > file_end {
            file_end = f;
        }
        let m = s.address + s.size;
        if m > memory_end {
            memory_end = m;
        }
        i = i + 1;
    }
    assert(sv.take(i as int) =~= sv);
    (low, file_end, memory_end)
}

proof fn lemma_covers_unique(segs: Seq<SegmentView>, i: int, j: int, x: int)
    requires
        forall|a: u64| !overlapped_at(segs, a),
        0 <= i < segs.len(),
        0 <= j < segs.len(),
        covers(segs[i], x),
        covers(segs[j], x),
    ensures
        i == j,
{
    if i != j {
        if before(segs, i, j) {
            assert(overlaps(segs, i, j));
            assert(overlapped_at(segs, segs[j].address));
        } else {
            assert(overlaps(segs, j, i));
            assert(overlapped_at(segs, segs[i].address));
        }
    }
}

proof fn lemma_image_byte_step(segs: Seq<SegmentView>, n: int, x: int)
    requires
        forall|a: u64| !overlapped_at(segs, a),
        0 <= n < segs.len(),
    ensures
        image_byte(segs.take(n + 1), x) == if covers(segs[n], x) {
            segs[n].data[x - segs[n].address]
        } else {
            image_byte(segs.take(n), x)
        },
{
    let t1 = segs.take(n + 1);
    let t0 = segs.take(n);
    assert(t1[n] == segs[n]);
    if covers(segs[n], x) {
        assert(covers(t1[n], x));
        let c = choose|c: int| 0 <= c < t1.len() && #[trigger] covers(t1[c], x);
        assert(t1[c] == segs[c]);
        lemma_covers_unique(segs, c, n, x);
    } else {
        if exists|c: int| 0 <= c < t1.len() && #[trigger] covers(t1[c], x) {
            let c = choose|c: int| 0 <= c < t1.len() && #[trigger] covers(t1[c], x);
            assert(t1[c] == segs[c]);
            assert(c < n);
            assert(t0[c] == segs[c]);
            assert(covers(t0[c], x));
            let d = choose|d: int| 0 <= d < t0.len() && #[trigger] covers(t0[d], x);
            assert(t0[d] == segs[d]);
            lemma_covers_unique(segs, c, d, x);
        } else {
            if exists|d: int| 0 <= d < t0.len() && #[trigger] covers(t0[d], x) {
                let d = choose|d: int| 0 <= d < t0.len() && #[trigger] covers(t0[d], x);
                assert(t0[d] == t1[d]);
            }
        }
    }
}

/// Lays the segments' file bytes out in one block from `low` to `file_end`.
fn flatten(kept: &Vec<Segment>, low: u64, file_end: u64) -> (bytes: Vec<u8>)
    requires
        kept.len() >= 1,
        first_too_long(segments_view(kept@)) is None,
        forall|a: u64| !overlapped_at(segments_view(kept@), a),
        low == lowest_address(segments_view(kept@)),
        file_end == highest_file_end(segments_view(kept@)),
        file_end - low <= usize::MAX,
    ensures
        bytes@ == flat_image(0, segments_view(kept@)).bytes,
{
    let ghost sv = segments_view(kept@);
    proof {
        lemma_lowest_address(sv);
        lemma_highest_ends(sv);
        let w = choose|i: int| 0 <= i < sv.len() && lowest_address(sv) == #[trigger] sv[i].address;
        assert(sv[w].address + sv[w].data.len() <= file_end);
    }
    let span = (file_end - low) as usize;
    let mut bytes: Vec<u8> = vec![0u8; span];
    assert forall|k: int| 0 <= k < span implies bytes@[k] == image_byte(sv.take(0), low + k) by {
        assert(!exists|c: int| 0 <= c < sv.take(0).len() && #[trigger] covers(sv.take(0)[c], low + k));
    }
    let mut i: usize = 0;
    while i < kept.len()
        invariant
            i <= kept.len(),
            sv == segments_view(kept@),
            first_too_long(sv) is None,
            forall|a: u64| !overlapped_at(sv, a),
            low == lowest_address(sv),
            file_end == highest_file_end(sv),
            span == file_end - low,
            bytes.len() == span,
            forall|i2: int| 0 <= i2 < sv.len() ==> low <= #[trigger] sv[i2].address,
            forall|i2: int| 0 <= i2 < sv.len() ==> #[trigger] sv[i2].address + sv[i2].data.len()
                <= highest_file_end(sv),
            forall|k: int| 0 <= k < span ==> bytes@[k] == image_byte(sv.take(i as int), low + k),
        decreases kept.len() - i,
    {
        let s = &kept[i];
        assert(sv[i as int] == s@);
        assert(low <= sv[i as int].address);
        assert(sv[i as int].address + sv[i as int].data.len() <= highest_file_end(sv));
        let offset = (s.address - low) as usize;
        let len = s.data.len();
        assert(offset + len <= span);
        let ghost before_copy = bytes@;
        let mut t: usize = 0;
        while t < len
            invariant
                t <= len,
                len == s.data.len(),
                offset + len <= span,
                bytes.len() == span,
                forall|k: int|
                    0 <= k < span ==> bytes@[k] == if offset <= k < offset + t {
                        s.data@[k - offset]
                    } else {
                        before_copy[k]
                    },
            decreases len - t,
        {
            bytes.set(offset + t, s.data[t]);
            t = t + 1;
        }
        proof {
            assert forall|k: int| 0 <= k < span implies bytes@[k] == image_byte(
                sv.take(i + 1),
                low + k,
            ) by {
                lemma_image_byte_step(sv, i as int, low + k);
            }
        }
        i = i + 1;
    }
    assert(sv.take(i as int) =~= sv);
    assert(bytes@ =~= flat_image(0, sv).bytes);
    bytes
}

/// A result of building an image, as values.
pub open spec fn image_result_view(r: Result<Image, String>) -> Result<ImageView, Seq<char>> {
    match r {
        Ok(image) => Ok(image@),
        Err(e) => Err(e@),
    }
}

/// A result of checking, as values.
pub open spec fn unit_result_view(r: Result<(), String>) -> Option<Seq<char>> {
    match r {
        Ok(()) => None,
        Err(e) => Some(e@),
    }
}

/// What the image of an ELF is, given what the ELF reader makes of it.
pub open spec fn image_from_elf(contents: Result<(u64, Seq<ReadSegmentView>), Seq<char>>) -> Result<
    ImageView,
    Seq<char>,
> {
    match contents {
        Err(e) => Err("not a valid ELF: "@ + e),
        Ok((entry, segs)) => image_from_segments(entry, segs),
    }
}

/// Whether the image holds `data` at `address`.
pub open spec fn holds_at(image: ImageView, address: u64, data: Seq<u8>) -> bool {
    &&& image.load_address <= address
    &&& address - image.load_address + data.len() <= image.bytes.len()
    &&& image.bytes.subrange(
        address - image.load_address,
        address - image.load_address + data.len(),
    ) == data
}

/// The message for a segment that the image does not hold.
pub open spec fn mismatch_message(address: u64) -> Seq<char> {
    "the image does not match the ELF segment at "@ + hex(address as nat)
}

/// Why the image does not hold the segments `segs` (in file order) at their addresses: the
/// first segment that could not be read or that the image does not hold.
pub open spec fn verify_failure(image: ImageView, segs: Seq<ReadSegmentView>) -> Option<Seq<char>>
    decreases segs.len(),
{
    if segs.len() == 0 {
        None
    } else {
        match verify_failure(image, segs.drop_last()) {
            Some(e) => Some(e),
            None => {
                let s = segs.last();
                match s.data {
                    Err(e) => Some(read_error_message(e)),
                    Ok(d) => if s.size == 0 || holds_at(image, s.address, d) {
                        None
                    } else {
                        Some(mismatch_message(s.address))
                    },
                }
            },
        }
    }
}

/// Why the image does not hold what the ELF reader makes of an ELF.
pub open spec fn verify_failure_elf(
    image: ImageView,
    contents: Result<(u64, Seq<ReadSegmentView>), Seq<char>>,
) -> Option<Seq<char>> {
    match contents {
        Err(e) => Some("not a valid ELF: "@ + e),
        Ok((_, segs)) => verify_failure(image, segs),
    }
}

proof fn lemma_file_end_at_least_low(sv: Seq<SegmentView>)
    requires
        sv.len() >= 1,
        first_too_long(sv) is None,
    ensures
        lowest_address(sv) <= highest_file_end(sv),
{
    lemma_lowest_address(sv);
    lemma_highest_ends(sv);
    let w = choose|i: int| 0 <= i < sv.len() && lowest_address(sv) == #[trigger] sv[i].address;
    assert(sv[w].address + sv[w].data.len() <= highest_file_end(sv));
}

proof fn lemma_verify_failure_prefix(image: ImageView, segs: Seq<ReadSegmentView>, k: int)
    requires
        0 <= k <= segs.len(),
        verify_failure(image, segs.take(k)) is Some,
    ensures
        verify_failure(image, segs) == verify_failure(image, segs.take(k)),
    decreases segs.len() - k,
{
    if k < segs.len() {
        assert(segs.take(k + 1).drop_last() =~= segs.take(k));
        lemma_verify_failure_prefix(image, segs, k + 1);
    } else {
        assert(segs.take(k) =~= segs);
    }
}

/// The message for a value that the download frame cannot carry.
pub open spec fn too_wide_message(what: Seq<char>, value: nat) -> Seq<char> {
    "the "@ + what + " "@ + hex(value) + " does not fit in 32 bits"@
}

/// Why the image cannot run on `board`: the program must lie inside the board's program
/// memory, zero-initialised data included; the entry point must be inside the loaded bytes; the
/// image must be within the loader's payload limit; and its addresses and size must fit in the
/// 32 bits of the download frame.
pub open spec fn check_failure(image: ImageView, board: &Board) -> Option<Seq<char>> {
    let program = board.memory.program;
    let load = image.load_address;
    let len = image.bytes.len();
    if !(program.start <= load && image.memory_end <= program.end) {
        Some(
            "the program occupies "@ + hex(load as nat) + ".."@ + hex(image.memory_end as nat)
                + ", which is outside the memory "@ + board.name@ + " provides for programs, "@
                + hex(program.start as nat) + ".."@ + hex(program.end as nat),
        )
    } else if !(load <= image.entry && image.entry < load + len) {
        Some(
            "the entry point "@ + hex(image.entry as nat) + " is outside the loaded image "@ + hex(
                load as nat,
            ) + ".."@ + hex((load + len) as nat),
        )
    } else if board.loader.max_payload is Some && len > board.loader.max_payload->Some_0 {
        Some(
            "the image is "@ + dec(len) + " bytes, but the loader of "@ + board.name@
                + " accepts at most "@ + dec(board.loader.max_payload->Some_0 as nat),
        )
    } else if load > u32::MAX {
        Some(too_wide_message("load address"@, load as nat))
    } else if image.entry > u32::MAX {
        Some(too_wide_message("entry point"@, image.entry as nat))
    } else if len > u32::MAX {
        Some(too_wide_message("image size"@, len))
    } else {
        None
    }
}

/// Law: an image passes the check exactly when everything it occupies, zero-initialised memory
/// included, lies in the board's program memory, its entry point is one of its loaded bytes, the
/// bytes it sends are no more than the loader's payload limit, and its load address, entry point
/// and size each fit in 32 bits. Zero-initialised memory is never sent, so it never counts
/// against the payload limit.
pub proof fn law_check_conditions(image: ImageView, board: &Board)
    ensures
        check_failure(image, board) is None <==> {
            &&& board.memory.program.start <= image.load_address
            &&& image.memory_end <= board.memory.program.end
            &&& image.load_address <= image.entry
            &&& image.entry < image.load_address + image.bytes.len()
            &&& (board.loader.max_payload matches Some(limit) ==> image.bytes.len() <= limit)
            &&& image.load_address <= 0xffff_ffff
            &&& image.entry <= 0xffff_ffff
            &&& image.bytes.len() <= 0xffff_ffff
        },
{
}

/// The one-line description of an image.
pub open spec fn summary_text(image: ImageView) -> Seq<char> {
    "load address "@ + hex(image.load_address as nat) + ", entry "@ + hex(image.entry as nat)
        + ", "@ + dec(image.bytes.len()) + " bytes, memory up to "@ + hex(
        image.memory_end as nat,
    )
}

proof fn lemma_no_read_error(segs: Seq<ReadSegmentView>, i: int)
    requires
        first_read_error(segs) is None,
        0 <= i < segs.len(),
    ensures
        segs[i].data is Ok,
    decreases segs.len(),
{
    if i < segs.len() - 1 {
        assert(segs.drop_last()[i] == segs[i]);
        lemma_no_read_error(segs.drop_last(), i);
    }
}

proof fn lemma_loadable_contains(segs: Seq<ReadSegmentView>, i: int)
    requires
        0 <= i < segs.len(),
        segs[i].size != 0,
        segs[i].data is Ok,
    ensures
        exists|j: int|
            0 <= j < loadable(segs).len() && #[trigger] loadable(segs)[j] == (SegmentView {
                address: segs[i].address,
                data: segs[i].data->Ok_0,
                size: segs[i].size,
            }),
    decreases segs.len(),
{
    let target = SegmentView {
        address: segs[i].address,
        data: segs[i].data->Ok_0,
        size: segs[i].size,
    };
    let rest = loadable(segs.drop_last());
    if i == segs.len() - 1 {
        assert(loadable(segs)[rest.len() as int] == target);
    } else {
        assert(segs.drop_last()[i] == segs[i]);
        lemma_loadable_contains(segs.drop_last(), i);
        let j = choose|j: int| 0 <= j < rest.len() && #[trigger] rest[j] == target;
        assert(loadable(segs)[j] == rest[j]);
    }
}

/// Where in `segs` the `k`-th segment that occupies memory stands.
spec fn loadable_index(segs: Seq<ReadSegmentView>, k: int) -> int
    decreases segs.len(),
{
    if segs.len() == 0 {
        0
    } else if segs.last().size != 0 && k == loadable(segs.drop_last()).len() {
        segs.len() - 1
    } else {
        loadable_index(segs.drop_last(), k)
    }
}

proof fn lemma_loadable_index(segs: Seq<ReadSegmentView>)
    requires
        forall|i: int| 0 <= i < segs.len() ==> #[trigger] segs[i].data is Ok,
    ensures
        forall|k: int|
            0 <= k < loadable(segs).len() ==> {
                let i = #[trigger] loadable_index(segs, k);
                &&& 0 <= i < segs.len()
                &&& segs[i].size != 0
                &&& loadable(segs)[k] == (SegmentView {
                    address: segs[i].address,
                    data: segs[i].data->Ok_0,
                    size: segs[i].size,
                })
            },
        forall|k1: int, k2: int|
            0 <= k1 < k2 < loadable(segs).len() ==> #[trigger] loadable_index(segs, k1)
                < #[trigger] loadable_index(segs, k2),
    decreases segs.len(),
{
    if segs.len() > 0 {
        let p = segs.drop_last();
        assert forall|i: int| 0 <= i < p.len() implies #[trigger] p[i].data is Ok by {
            assert(p[i] == segs[i]);
        }
        lemma_loadable_index(p);
        let rest = loadable(p);
        let last = segs.len() - 1;
        assert(segs[last].data is Ok);
        assert forall|k: int| 0 <= k < loadable(segs).len() implies {
            let i = #[trigger] loadable_index(segs, k);
            &&& 0 <= i < segs.len()
            &&& segs[i].size != 0
            &&& loadable(segs)[k] == (SegmentView {
                address: segs[i].address,
                data: segs[i].data->Ok_0,
                size: segs[i].size,
            })
        } by {
            if k < rest.len() {
                assert(loadable(segs)[k] == rest[k]);
                assert(loadable_index(segs, k) == loadable_index(p, k));
                assert(p[loadable_index(p, k)] == segs[loadable_index(p, k)]);
            }
        }
        assert forall|k1: int, k2: int| 0 <= k1 < k2 < loadable(segs).len() implies #[trigger] loadable_index(
            segs,
            k1,
        ) < #[trigger] loadable_index(segs, k2) by {
            assert(loadable_index(segs, k1) == loadable_index(p, k1));
            if k2 < rest.len() {
                assert(loadable_index(segs, k2) == loadable_index(p, k2));
            }
        }
    }
}

proof fn lemma_all_read(segs: Seq<ReadSegmentView>)
    requires
        forall|i: int| 0 <= i < segs.len() ==> #[trigger] segs[i].data is Ok,
    ensures
        first_read_error(segs) is None,
    decreases segs.len(),
{
    if segs.len() > 0 {
        let p = segs.drop_last();
        assert forall|i: int| 0 <= i < p.len() implies #[trigger] p[i].data is Ok by {
            assert(p[i] == segs[i]);
        }
        lemma_all_read(p);
        assert(segs[segs.len() - 1].data is Ok);
    }
}

proof fn lemma_none_long(segs: Seq<SegmentView>)
    requires
        forall|k: int| 0 <= k < segs.len() ==> !too_long(#[trigger] segs[k]),
    ensures
        first_too_long(segs) is None,
    decreases segs.len(),
{
    if segs.len() > 0 {
        let p = segs.drop_last();
        assert forall|k: int| 0 <= k < p.len() implies !too_long(#[trigger] p[k]) by {
            assert(p[k] == segs[k]);
        }
        lemma_none_long(p);
        assert(!too_long(segs[segs.len() - 1]));
    }
}

proof fn lemma_highest_file_end_attained(segs: Seq<SegmentView>)
    requires
        segs.len() >= 1,
    ensures
        exists|w: int|
            0 <= w < segs.len() && highest_file_end(segs) == #[trigger] segs[w].address
                + segs[w].data.len(),
    decreases segs.len(),
{
    let last = segs.len() - 1;
    let end = segs[last].address + segs[last].data.len();
    if segs.len() == 1 {
        assert(segs.drop_last().len() == 0);
        assert(highest_file_end(segs.drop_last()) == 0);
        assert(highest_file_end(segs) == end);
    } else {
        let p = segs.drop_last();
        lemma_highest_file_end_attained(p);
        let w = choose|w: int|
            0 <= w < p.len() && highest_file_end(p) == #[trigger] p[w].address + p[w].data.len();
        assert(p[w] == segs[w]);
        if end > highest_file_end(p) {
            assert(highest_file_end(segs) == segs[last].address + segs[last].data.len());
        } else {
            assert(highest_file_end(segs) == segs[w].address + segs[w].data.len());
        }
    }
}

/// Law: segments that do not overlap make an image. When every segment could be read, each one
/// that occupies memory ends within the address space, at least one occupies memory, the file
/// bytes of each end at or before the address of every other one at or above it (segments may
/// touch), and the span from the lowest segment to the highest file byte fits in this machine's
/// memory, the image is built.
#[verifier::rlimit(40)]
pub proof fn law_disjoint_segments_build(entry: u64, segs: Seq<ReadSegmentView>)
    requires
        forall|i: int| 0 <= i < segs.len() ==> #[trigger] segs[i].data is Ok,
        forall|i: int|
            0 <= i < segs.len() && #[trigger] segs[i].size != 0 ==> segs[i].address
                + segs[i].data->Ok_0.len() <= u64::MAX && segs[i].address + segs[i].size
                <= u64::MAX,
        exists|i: int| 0 <= i < segs.len() && #[trigger] segs[i].size != 0,
        forall|i: int, j: int|
            0 <= i < segs.len() && 0 <= j < segs.len() && i != j && #[trigger] segs[i].size != 0
                && #[trigger] segs[j].size != 0 && segs[i].address <= segs[j].address
                ==> segs[i].address + segs[i].data->Ok_0.len() <= segs[j].address,
        forall|i: int, j: int|
            0 <= i < segs.len() && 0 <= j < segs.len() && #[trigger] segs[i].size != 0
                && #[trigger] segs[j].size != 0 ==> segs[j].address + segs[j].data->Ok_0.len()
                - segs[i].address <= usize::MAX,
    ensures
        image_from_segments(entry, segs) is Ok,
{
    let kept = loadable(segs);
    lemma_all_read(segs);
    lemma_loadable_index(segs);
    assert forall|k: int| 0 <= k < kept.len() implies !too_long(#[trigger] kept[k]) by {
        let i = loadable_index(segs, k);
        assert(segs[i].size != 0);
    }
    lemma_none_long(kept);
    let i0 = choose|i: int| 0 <= i < segs.len() && #[trigger] segs[i].size != 0;
    lemma_loadable_contains(segs, i0);
    assert(kept.len() > 0);
    if exists|a: u64| overlapped_at(kept, a) {
        let a = choose|a: u64| overlapped_at(kept, a);
        let (k1, k2) = choose|k1: int, k2: int| #[trigger] overlaps(kept, k1, k2) && kept[k2].address == a;
        let i1 = loadable_index(segs, k1);
        let i2 = loadable_index(segs, k2);
        if k1 < k2 {
            assert(i1 < i2);
        } else {
            assert(loadable_index(segs, k2) < loadable_index(segs, k1));
        }
        assert(segs[i1].size != 0 && segs[i2].size != 0);
        assert(false);
    }
    lemma_lowest_address(kept);
    lemma_highest_file_end_attained(kept);
    let v = choose|v: int| 0 <= v < kept.len() && lowest_address(kept) == #[trigger] kept[v].address;
    let w = choose|w: int|
        0 <= w < kept.len() && highest_file_end(kept) == #[trigger] kept[w].address + kept[w].data.len();
    let iv = loadable_index(segs, v);
    let iw = loadable_index(segs, w);
    assert(segs[iv].size != 0 && segs[iw].size != 0);
}

proof fn lemma_verify_none(image: ImageView, segs: Seq<ReadSegmentView>)
    requires
        forall|i: int| 0 <= i < segs.len() ==> (#[trigger] segs[i]).data is Ok,
        forall|i: int|
            0 <= i < segs.len() && (#[trigger] segs[i]).size != 0 ==> holds_at(
                image,
                segs[i].address,
                segs[i].data->Ok_0,
            ),
    ensures
        verify_failure(image, segs) is None,
    decreases segs.len(),
{
    if segs.len() > 0 {
        let p = segs.drop_last();
        assert forall|i: int| 0 <= i < p.len() implies (#[trigger] p[i]).data is Ok && (p[i].size
            != 0 ==> holds_at(image, p[i].address, p[i].data->Ok_0)) by {
            assert(p[i] == segs[i]);
        }
        lemma_verify_none(image, p);
        assert(segs.last() == segs[segs.len() - 1]);
    }
}

proof fn lemma_flat_image_holds(entry: u64, kept: Seq<SegmentView>, j: int)
    requires
        kept.len() >= 1,
        first_too_long(kept) is None,
        forall|a: u64| !overlapped_at(kept, a),
        0 <= j < kept.len(),
    ensures
        holds_at(flat_image(entry, kept), kept[j].address, kept[j].data),
{
    let image = flat_image(entry, kept);
    let load = lowest_address(kept);
    lemma_lowest_address(kept);
    lemma_highest_ends(kept);
    lemma_file_end_at_least_low(kept);
    let sj = kept[j];
    assert(load <= sj.address);
    assert(sj.address + sj.data.len() <= highest_file_end(kept));
    let off = sj.address - load;
    assert forall|x: int| 0 <= x < sj.data.len() implies image.bytes.subrange(
        off,
        off + sj.data.len(),
    )[x] == sj.data[x] by {
        let address = sj.address + x;
        assert(covers(kept[j], address));
        let c = choose|c: int| 0 <= c < kept.len() && #[trigger] covers(kept[c], address);
        lemma_covers_unique(kept, c, j, address);
        assert(image.bytes[off + x] == image_byte(kept, load + off + x));
    }
    assert(image.bytes.subrange(off, off + sj.data.len()) =~= sj.data);
}

/// Law: against segments that could all be read, an image verifies exactly when it holds every
/// segment that occupies memory: the segment's file bytes at its address.
pub proof fn law_verify_iff(image: ImageView, segs: Seq<ReadSegmentView>)
    requires
        forall|i: int| 0 <= i < segs.len() ==> #[trigger] segs[i].data is Ok,
    ensures
        verify_failure(image, segs) is None <==> forall|i: int|
            0 <= i < segs.len() && #[trigger] segs[i].size != 0 ==> holds_at(
                image,
                segs[i].address,
                segs[i].data->Ok_0,
            ),
    decreases segs.len(),
{
    if segs.len() > 0 {
        let p = segs.drop_last();
        assert forall|i: int| 0 <= i < p.len() implies #[trigger] p[i].data is Ok by {
            assert(p[i] == segs[i]);
        }
        law_verify_iff(image, p);
        let last = segs.len() - 1;
        assert(segs[last].data is Ok);
        if verify_failure(image, segs) is None {
            assert forall|i: int| 0 <= i < segs.len() && #[trigger] segs[i].size != 0 implies holds_at(
                image,
                segs[i].address,
                segs[i].data->Ok_0,
            ) by {
                if i < last {
                    assert(p[i] == segs[i]);
                }
            }
        } else {
            if verify_failure(image, p) is Some {
                let i = choose|i: int|
                    !(0 <= i < p.len() && #[trigger] p[i].size != 0 ==> holds_at(
                        image,
                        p[i].address,
                        p[i].data->Ok_0,
                    ));
                assert(p[i] == segs[i]);
            }
        }
    }
}

proof fn lemma_highest_memory_end_attained(segs: Seq<SegmentView>)
    requires
        segs.len() >= 1,
    ensures
        exists|w: int|
            0 <= w < segs.len() && highest_memory_end(segs) == #[trigger] segs[w].address
                + segs[w].size,
    decreases segs.len(),
{
    let last = segs.len() - 1;
    let end = segs[last].address + segs[last].size;
    if segs.len() == 1 {
        assert(segs.drop_last().len() == 0);
        assert(highest_memory_end(segs.drop_last()) == 0);
        assert(highest_memory_end(segs) == end);
    } else {
        let p = segs.drop_last();
        lemma_highest_memory_end_attained(p);
        let w = choose|w: int|
            0 <= w < p.len() && highest_memory_end(p) == #[trigger] p[w].address + p[w].size;
        assert(p[w] == segs[w]);
        if end > highest_memory_end(p) {
            assert(highest_memory_end(segs) == segs[last].address + segs[last].size);
        } else {
            assert(highest_memory_end(segs) == segs[w].address + segs[w].size);
        }
    }
}

/// Law: a built image spans exactly the segments that occupy memory. It starts at the lowest of
/// their addresses, its bytes end where the highest of their file bytes ends, its memory ends
/// where the highest of them ends in memory, and every byte that no such segment's file bytes
/// cover is zero.
#[verifier::rlimit(40)]
pub proof fn law_image_spans_segments(entry: u64, segs: Seq<ReadSegmentView>)
    requires
        image_from_segments(entry, segs) is Ok,
    ensures
        ({
            let image = image_from_segments(entry, segs)->Ok_0;
            let end = image.load_address + image.bytes.len();
            &&& image.entry == entry
            &&& forall|i: int|
                0 <= i < segs.len() && #[trigger] segs[i].size != 0 ==> {
                    &&& image.load_address <= segs[i].address
                    &&& segs[i].address + segs[i].data->Ok_0.len() <= end
                    &&& segs[i].address + segs[i].size <= image.memory_end
                }
            &&& exists|i: int|
                0 <= i < segs.len() && #[trigger] segs[i].size != 0 && segs[i].address
                    == image.load_address
            &&& exists|i: int|
                0 <= i < segs.len() && #[trigger] segs[i].size != 0 && segs[i].address
                    + segs[i].data->Ok_0.len() == end
            &&& exists|i: int|
                0 <= i < segs.len() && #[trigger] segs[i].size != 0 && segs[i].address
                    + segs[i].size == image.memory_end
            &&& forall|k: int|
                0 <= k < image.bytes.len() && (forall|i: int|
                    0 <= i < segs.len() && #[trigger] segs[i].size != 0 ==> !(segs[i].address
                        <= image.load_address + k < segs[i].address
                        + segs[i].data->Ok_0.len())) ==> #[trigger] image.bytes[k] == 0
        }),
{
    let kept = loadable(segs);
    let image = flat_image(entry, kept);
    assert forall|i: int| 0 <= i < segs.len() implies #[trigger] segs[i].data is Ok by {
        lemma_no_read_error(segs, i);
    }
    lemma_loadable_index(segs);
    lemma_lowest_address(kept);
    lemma_highest_ends(kept);
    lemma_highest_file_end_attained(kept);
    lemma_highest_memory_end_attained(kept);
    lemma_file_end_at_least_low(kept);
    let load = lowest_address(kept);
    assert(image.load_address + image.bytes.len() == highest_file_end(kept));
    assert forall|i: int| 0 <= i < segs.len() && #[trigger] segs[i].size != 0 implies {
        &&& image.load_address <= segs[i].address
        &&& segs[i].address + segs[i].data->Ok_0.len() <= image.load_address + image.bytes.len()
        &&& segs[i].address + segs[i].size <= image.memory_end
    } by {
        lemma_loadable_contains(segs, i);
        let target = SegmentView {
            address: segs[i].address,
            data: segs[i].data->Ok_0,
            size: segs[i].size,
        };
        let j = choose|j: int| 0 <= j < kept.len() && #[trigger] kept[j] == target;
        assert(kept[j].address + kept[j].data.len() <= highest_file_end(kept));
        assert(kept[j].address + kept[j].size <= highest_memory_end(kept));
    }
    let v = choose|v: int| 0 <= v < kept.len() && lowest_address(kept) == #[trigger] kept[v].address;
    let w = choose|w: int|
        0 <= w < kept.len() && highest_file_end(kept) == #[trigger] kept[w].address + kept[w].data.len();
    let u = choose|u: int|
        0 <= u < kept.len() && highest_memory_end(kept) == #[trigger] kept[u].address + kept[u].size;
    let iv = loadable_index(segs, v);
    let iw = loadable_index(segs, w);
    let iu = loadable_index(segs, u);
    assert(segs[iv].size != 0 && segs[iv].address == image.load_address);
    assert(segs[iw].size != 0 && segs[iw].address + segs[iw].data->Ok_0.len() == image.load_address
        + image.bytes.len());
    assert(segs[iu].size != 0 && segs[iu].address + segs[iu].size == image.memory_end);
    assert forall|k: int|
        0 <= k < image.bytes.len() && (forall|i: int|
            0 <= i < segs.len() && #[trigger] segs[i].size != 0 ==> !(segs[i].address
                <= image.load_address + k < segs[i].address
                + segs[i].data->Ok_0.len())) implies #[trigger] image.bytes[k] == 0 by {
        assert(image.bytes[k] == image_byte(kept, load + k));
        assert forall|j: int| 0 <= j < kept.len() implies !#[trigger] covers(kept[j], load + k) by {
            let i = loadable_index(segs, j);
            assert(segs[i].size != 0);
        }
    }
}

/// Law: an image built from an ELF's segments holds every one of them: checking the image
/// against the same segments finds nothing wrong.
pub proof fn law_built_image_verifies(entry: u64, segs: Seq<ReadSegmentView>)
    requires
        image_from_segments(entry, segs) is Ok,
    ensures
        verify_failure(image_from_segments(entry, segs)->Ok_0, segs) is None,
{
    let kept = loadable(segs);
    let image = flat_image(entry, kept);
    assert forall|i: int| 0 <= i < segs.len() implies (#[trigger] segs[i]).data is Ok by {
        lemma_no_read_error(segs, i);
    }
    assert forall|i: int|
        0 <= i < segs.len() && (#[trigger] segs[i]).size != 0 implies holds_at(
        image,
        segs[i].address,
        segs[i].data->Ok_0,
    ) by {
        lemma_no_read_error(segs, i);
        lemma_loadable_contains(segs, i);
        let target = SegmentView {
            address: segs[i].address,
            data: segs[i].data->Ok_0,
            size: segs[i].size,
        };
        let j = choose|j: int| 0 <= j < kept.len() && #[trigger] kept[j] == target;
        lemma_flat_image_holds(entry, kept, j);
    }
    lemma_verify_none(image, segs);
}

/// Law: the image built from an ELF passes the check against that same ELF.
pub proof fn law_elf_image_verifies(elf: Seq<u8>)
    requires
        image_from_elf(elf_contents(elf)) is Ok,
    ensures
        verify_failure_elf(image_from_elf(elf_contents(elf))->Ok_0, elf_contents(elf)) is None,
{
    match elf_contents(elf) {
        Ok((entry, segs)) => law_built_image_verifies(entry, segs),
        Err(_) => {},
    }
}

proof fn lemma_read_view(r: Result<(u64, Vec<ReadSegment>), String>)
    requires
        r is Ok,
    ensures
        ({
            let (entry, segments) = r->Ok_0;
            match read_result_view(r) {
                Ok((e, segs)) => e == entry && segs.map_values(
                    |t: (u64, Result<Seq<u8>, Seq<char>>, u64)|
                        ReadSegmentView { address: t.0, data: t.1, size: t.2 },
                ) == read_segments_view(segments@),
                Err(_) => false,
            }
        }),
{
    let (entry, segments) = r->Ok_0;
    let tuples = segments@.map_values(|s: ReadSegment| read_segment_tuple(s@));
    assert(tuples.map_values(
        |t: (u64, Result<Seq<u8>, Seq<char>>, u64)|
            ReadSegmentView { address: t.0, data: t.1, size: t.2 },
    ) =~= read_segments_view(segments@));
}

/// The message for a value that the download frame cannot carry.
fn too_wide(what: &str, value: u64) -> (r: String)
    ensures
        r@ == too_wide_message(what@, value as nat),
{
    let mut message = text("the ");
    message.append(what);
    message.append(" ");
    push_hex(&mut message, value);
    message.append(" does not fit in 32 bits");
    message
}

impl Image {
    /// The address just past the last byte of `bytes`.
    pub fn file_end(&self) -> (r: u64)
        requires
            self.load_address + self.bytes.len() <= u64::MAX,
        ensures
            r == self.load_address + self.bytes.len(),
    {
        self.load_address + self.bytes.len() as u64
    }

    /// Checks that the image can run on `board`.
    pub fn check_against(&self, board: &Board) -> (r: Result<(), String>)
        ensures
            unit_result_view(r) == check_failure(self@, board),
    {
        let program = board.memory.program;
        if !program.contains_range(self.load_address, self.memory_end) {
            let mut message = text("the program occupies ");
            push_hex(&mut message, self.load_address);
            message.append("..");
            push_hex(&mut message, self.memory_end);
            message.append(", which is outside the memory ");
            message.append(board.name.as_str());
            message.append(" provides for programs, ");
            push_hex(&mut message, program.start);
            message.append("..");
            push_hex(&mut message, program.end);
            return Err(message);
        }
        if !(self.load_address <= self.entry && self.entry - self.load_address
            < self.bytes.len() as u64) {
            let file_end: u128 = self.load_address as u128 + self.bytes.len() as u128;
            let mut message = text("the entry point ");
            push_hex(&mut message, self.entry);
            message.append(" is outside the loaded image ");
            push_hex(&mut message, self.load_address);
            message.append("..");
            push_hex_wide(&mut message, file_end);
            return Err(message);
        }
        if let Some(max_payload) = board.loader.max_payload {
            if self.bytes.len() as u64 > max_payload {
                let mut message = text("the image is ");
                push_dec(&mut message, self.bytes.len() as u64);
                message.append(" bytes, but the loader of ");
                message.append(board.name.as_str());
                message.append(" accepts at most ");
                push_dec(&mut message, max_payload);
                return Err(message);
            }
        }
        if self.load_address > 0xffff_ffff {
            return Err(too_wide("load address", self.load_address));
        }
        if self.entry > 0xffff_ffff {
            return Err(too_wide("entry point", self.entry));
        }
        if self.bytes.len() as u64 > 0xffff_ffff {
            return Err(too_wide("image size", self.bytes.len() as u64));
        }
        Ok(())
    }

    /// A one-line description of the image.
    pub fn summary(&self) -> (r: String)
        ensures
            r@ == summary_text(self@),
    {
        let mut text = text("load address ");
        push_hex(&mut text, self.load_address);
        text.append(", entry ");
        push_hex(&mut text, self.entry);
        text.append(", ");
        push_dec(&mut text, self.bytes.len() as u64);
        text.append(" bytes, memory up to ");
        push_hex(&mut text, self.memory_end);
        text
    }

    /// Builds the image from an ELF's entry point and its loadable segments in file order, as the
    /// ELF reader hands them over.
    pub fn from_segments(entry: u64, segments: &Vec<ReadSegment>) -> (r: Result<Image, String>)
        ensures
            image_result_view(r) == image_from_segments(entry, read_segments_view(segments@)),
    {
        let kept = match collect_loadable(segments) {
            Ok(kept) => kept,
            Err(e) => return Err(e),
        };
        let ghost sv = segments_view(kept@);
        if let Some(address) = find_too_long(&kept) {
            let mut message = text("the segment at ");
            push_hex(&mut message, address);
            message.append(" reaches past the end of the address space");
            return Err(message);
        }
        if kept.len() == 0 {
            return Err(text("the ELF has no loadable segments"));
        }
        if let Some(address) = find_overlap(&kept) {
            let mut message = text("loadable segments overlap at ");
            push_hex(&mut message, address);
            message.append("; cannot build a flat image");
            return Err(message);
        }
        let (low, file_end, memory_end) = bounds(&kept);
        proof {
            lemma_file_end_at_least_low(sv);
            lemma_highest_ends(sv);
        }
        if file_end - low > usize::MAX as u64 {
            return Err(text("the image is larger than the memory of this machine"));
        }
        let bytes = flatten(&kept, low, file_end);
        Ok(Image { load_address: low, entry, bytes, memory_end })
    }

    /// Builds the image an ELF executable describes.
    pub fn from_elf(elf: &[u8]) -> (r: Result<Image, String>)
        ensures
            image_result_view(r) == image_from_elf(elf_contents(elf@)),
    {
        let read = read_elf(elf);
        match read {
            Err(e) => {
                let mut message = text("not a valid ELF: ");
                message.append(e.as_str());
                Err(message)
            },
            Ok((entry, segments)) => {
                proof {
                    lemma_read_view(read);
                }
                Image::from_segments(entry, &segments)
            },
        }
    }

    /// Checks that the image holds exactly the ELF's segment bytes at the right offsets. Guards
    /// the flattening against padding and ordering mistakes.
    pub fn verify_against(&self, elf: &[u8]) -> (r: Result<(), String>)
        ensures
            unit_result_view(r) == verify_failure_elf(self@, elf_contents(elf@)),
    {
        let read = read_elf(elf);
        match read {
            Err(e) => {
                let mut message = text("not a valid ELF: ");
                message.append(e.as_str());
                Err(message)
            },
            Ok((_, segments)) => {
                proof {
                    lemma_read_view(read);
                }
                self.verify_segments(&segments)
            },
        }
    }

    /// Checks that the image holds exactly the segments' file bytes at the right offsets.
    pub fn verify_segments(&self, segments: &Vec<ReadSegment>) -> (r: Result<(), String>)
        ensures
            unit_result_view(r) == verify_failure(self@, read_segments_view(segments@)),
    {
        let ghost rv = read_segments_view(segments@);
        let mut i: usize = 0;
        while i < segments.len()
            invariant
                i <= segments.len(),
                rv == read_segments_view(segments@),
                verify_failure(self@, rv.take(i as int)) is None,
            decreases segments.len() - i,
        {
            let segment = &segments[i];
            assert(rv.take(i + 1).drop_last() =~= rv.take(i as int));
            assert(rv.take(i + 1).last() == segment@);
            match &segment.data {
                Err(e) => {
                    proof {
                        lemma_verify_failure_prefix(self@, rv, i + 1);
                    }
                    let mut message = text("cannot read a loadable segment: ");
                    message.append(e.as_str());
                    return Err(message);
                },
                Ok(data) => {
                    if segment.size != 0 && !self.holds(segment.address, data) {
                        proof {
                            lemma_verify_failure_prefix(self@, rv, i + 1);
                        }
                        let mut message = text("the image does not match the ELF segment at ");
                        push_hex(&mut message, segment.address);
                        return Err(message);
                    }
                },
            }
            i = i + 1;
        }
        assert(rv.take(i as int) =~= rv);
        Ok(())
    }

    /// Whether the image holds `data` at `address`.
    fn holds(&self, address: u64, data: &Vec<u8>) -> (r: bool)
        ensures
            r == holds_at(self@, address, data@),
    {
        if address < self.load_address {
            return false;
        }
        let offset = address - self.load_address;
        if offset > self.bytes.len() as u64 || data.len() > self.bytes.len() - offset as usize {
            return false;
        }
        let offset = offset as usize;
        let mut t: usize = 0;
        while t < data.len()
            invariant
                t <= data.len(),
                offset + data.len() <= self.bytes.len(),
                offset == address - self.load_address,
                forall|x: int| 0 <= x < t ==> self.bytes@[offset + x] == data@[x],
            decreases data.len() - t,
        {
            if self.bytes[offset + t] != data[t] {
                assert(self.bytes@.subrange(offset as int, offset + data.len())[t as int]
                    != data@[t as int]);
                return false;
            }
            t = t + 1;
        }
        assert(self.bytes@.subrange(offset as int, offset + data.len()) =~= data@);
        true
    }
}

} // verus!
