//! The serial protocol of a Scry board's boot loader.
//!
//! Download frame, host to board. All integers are little-endian:
//!
//! | bytes | content |
//! |---|---|
//! | 8 | the magic `SCRYLD! `, with its trailing space |
//! | 4 | entry address: where execution starts |
//! | 4 | load address: where the first payload byte goes |
//! | 4 | payload length |
//! | n | payload |
//! | 1 | checksum: the sum of the payload bytes, modulo 256 |
//!
//! The loader writes the payload to memory, clears the rest of the program memory after it, and
//! answers with one byte: `K` launched, `E` bad checksum, `T` timed out mid-frame.
//!
//! Report frame, board to host, sent when the program ends: the magic `SCRYRT! `, a status byte
//! (0 = clean halt, anything else = trap), an operand count, then per returned operand a tag byte
//! and a 32-bit value. Bytes before the magic are the program's own output.

use vstd::prelude::*;

use crate::board::Board;
use crate::image::{check_failure, Image, ImageView};
use crate::text::{dec, dec_int, push_char, push_dec, push_dec_int, text};

verus! {

/// The magic that starts the report frame: `SCRYRT! `.
pub open spec fn report_magic() -> Seq<u8> {
    seq![83u8, 67u8, 82u8, 89u8, 82u8, 84u8, 33u8, 32u8]
}

/// Byte `i` of the report magic.
fn report_magic_byte(i: usize) -> (b: u8)
    requires
        i < 8,
    ensures
        b == report_magic()[i as int],
{
    match i {
        0 => 83,
        1 => 67,
        2 => 82,
        3 => 89,
        4 => 82,
        5 => 84,
        6 => 33,
        _ => 32,
    }
}

/// The magic that starts the download frame: `SCRYLD! `.
pub open spec fn download_magic() -> Seq<u8> {
    seq![83u8, 67u8, 82u8, 89u8, 76u8, 68u8, 33u8, 32u8]
}

/// `x` as four little-endian bytes, keeping its low 32 bits.
pub open spec fn le32(x: nat) -> Seq<u8> {
    seq![
        (x % 256) as u8,
        ((x / 256) % 256) as u8,
        ((x / 65536) % 256) as u8,
        ((x / 16777216) % 256) as u8,
    ]
}

/// The sum of the bytes.
pub open spec fn byte_sum(s: Seq<u8>) -> nat
    decreases s.len(),
{
    if s.len() == 0 {
        0
    } else {
        byte_sum(s.drop_last()) + s.last() as nat
    }
}

/// Law: the byte sum adds up: nothing sums to zero, one byte sums to its own value, and two runs
/// of bytes joined sum to the sum of each.
pub proof fn law_byte_sum_adds(a: Seq<u8>, b: Seq<u8>, x: u8)
    ensures
        byte_sum(seq![]) == 0,
        byte_sum(seq![x]) == x,
        byte_sum(a + b) == byte_sum(a) + byte_sum(b),
    decreases b.len(),
{
    assert(seq![x].drop_last() =~= Seq::<u8>::empty());
    if b.len() == 0 {
        assert(a + b =~= a);
    } else {
        law_byte_sum_adds(a, b.drop_last(), x);
        assert((a + b).drop_last() =~= a + b.drop_last());
    }
}

/// The download frame for an image: the magic, the entry address, the load address and the
/// payload length (each keeping its low 32 bits), the payload, and the checksum.
pub open spec fn download_frame_bytes(image: ImageView) -> Seq<u8> {
    download_magic() + le32(image.entry as nat) + le32(image.load_address as nat) + le32(
        image.bytes.len(),
    ) + image.bytes + seq![(byte_sum(image.bytes) % 256) as u8]
}

/// The checksum of a payload: the sum of its bytes, modulo 256.
pub fn checksum(payload: &[u8]) -> (c: u8)
    ensures
        c == byte_sum(payload@) % 256,
{
    let mut sum: u8 = 0;
    let mut i: usize = 0;
    while i < payload.len()
        invariant
            i <= payload.len(),
            sum == byte_sum(payload@.take(i as int)) % 256,
        decreases payload.len() - i,
    {
        let byte = payload[i];
        proof {
            assert(payload@.take(i + 1).drop_last() =~= payload@.take(i as int));
            vstd::arithmetic::div_mod::lemma_add_mod_noop(
                byte_sum(payload@.take(i as int)) as int,
                byte as int,
                256,
            );
            vstd::arithmetic::div_mod::lemma_small_mod(byte as nat, 256);
            vstd::arithmetic::div_mod::lemma_small_mod(sum as nat, 256);
        }
        sum = ((sum as u16 + byte as u16) % 256) as u8;
        i = i + 1;
    }
    assert(payload@.take(i as int) =~= payload@);
    sum
}

/// Appends the low 32 bits of `x` as four little-endian bytes.
fn push_le32(frame: &mut Vec<u8>, x: u64)
    ensures
        final(frame)@ == old(frame)@ + le32(x as nat),
{
    frame.push((x % 256) as u8);
    frame.push(((x / 256) % 256) as u8);
    frame.push(((x / 65536) % 256) as u8);
    frame.push(((x / 16777216) % 256) as u8);
    assert(final(frame)@ =~= old(frame)@ + le32(x as nat));
}

/// Builds the download frame for `image`. The image should have passed `Image::check_against`,
/// which guarantees that its addresses and size fit in 32 bits; beyond 32 bits they are cut.
pub fn download_frame(image: &Image) -> (frame: Vec<u8>)
    ensures
        frame@ == download_frame_bytes(image@),
{
    let mut frame: Vec<u8> = Vec::new();
    let mut i: usize = 0;
    while i < 8
        invariant
            i <= 8,
            frame@ == download_magic().take(i as int),
        decreases 8 - i,
    {
        let b: u8 = match i {
            0 => 83,
            1 => 67,
            2 => 82,
            3 => 89,
            4 => 76,
            5 => 68,
            6 => 33,
            _ => 32,
        };
        frame.push(b);
        i = i + 1;
        assert(frame@ =~= download_magic().take(i as int));
    }
    assert(download_magic().take(8) =~= download_magic());
    push_le32(&mut frame, image.entry);
    push_le32(&mut frame, image.load_address);
    push_le32(&mut frame, image.bytes.len() as u64);
    let ghost header = frame@;
    let mut k: usize = 0;
    while k < image.bytes.len()
        invariant
            k <= image.bytes.len(),
            frame@ == header + image.bytes@.take(k as int),
        decreases image.bytes.len() - k,
    {
        frame.push(image.bytes[k]);
        k = k + 1;
        assert(frame@ =~= header + image.bytes@.take(k as int));
    }
    assert(image.bytes@.take(k as int) =~= image.bytes@);
    frame.push(checksum(image.bytes.as_slice()));
    frame
}

/// The number four little-endian bytes stand for.
pub open spec fn le32_value(b: Seq<u8>) -> nat {
    b[0] as nat + 256 * b[1] as nat + 65536 * b[2] as nat + 16777216 * b[3] as nat
}

proof fn lemma_le32_roundtrip(x: nat)
    requires
        x < 4294967296,
    ensures
        le32_value(le32(x)) == x,
{
    let b0 = x % 256;
    let q0 = x / 256;
    let b1 = q0 % 256;
    let q1 = q0 / 256;
    let b2 = q1 % 256;
    let q2 = q1 / 256;
    let b3 = q2 % 256;
    assert(x == 256 * q0 + b0) by (nonlinear_arith)
        requires
            b0 == x % 256,
            q0 == x / 256,
    ;
    assert(q0 == 256 * q1 + b1) by (nonlinear_arith)
        requires
            b1 == q0 % 256,
            q1 == q0 / 256,
    ;
    assert(q1 == 256 * q2 + b2) by (nonlinear_arith)
        requires
            b2 == q1 % 256,
            q2 == q1 / 256,
    ;
    assert(q2 < 256) by (nonlinear_arith)
        requires
            x < 4294967296,
            x == 256 * q0 + b0,
            q0 == 256 * q1 + b1,
            q1 == 256 * q2 + b2,
            0 <= b0 < 256,
            0 <= b1 < 256,
            0 <= b2 < 256,
            q2 >= 0,
    ;
    assert(b3 == q2) by {
        vstd::arithmetic::div_mod::lemma_small_mod(q2, 256);
    }
    vstd::arithmetic::div_mod::lemma_div_denominator(x as int, 256, 256);
    vstd::arithmetic::div_mod::lemma_div_denominator(x as int, 65536, 256);
    assert(x / 65536 == q1);
    assert(x / 16777216 == q2);
    assert(le32(x)[0] == b0 && le32(x)[1] == b1 && le32(x)[2] == b2 && le32(x)[3] == b3);
}

/// Law: the download frame of an image that passed the check against a board carries the
/// image exactly. Read back as the loader reads it, the frame gives the magic, the image's entry
/// point, load address and length, its bytes, and their checksum, and nothing more.
pub proof fn law_checked_frame_carries_image(image: ImageView, board: &Board)
    requires
        check_failure(image, board) is None,
    ensures
        ({
            let frame = download_frame_bytes(image);
            let n = image.bytes.len() as int;
            &&& frame.len() == 21 + n
            &&& frame.subrange(0, 8) == download_magic()
            &&& le32_value(frame.subrange(8, 12)) == image.entry
            &&& le32_value(frame.subrange(12, 16)) == image.load_address
            &&& le32_value(frame.subrange(16, 20)) == n
            &&& frame.subrange(20, 20 + n) == image.bytes
            &&& frame[20 + n] as nat == byte_sum(image.bytes) % 256
        }),
{
    let frame = download_frame_bytes(image);
    let n = image.bytes.len() as int;
    lemma_le32_roundtrip(image.entry as nat);
    lemma_le32_roundtrip(image.load_address as nat);
    lemma_le32_roundtrip(n as nat);
    assert(frame.subrange(0, 8) =~= download_magic());
    assert(frame.subrange(8, 12) =~= le32(image.entry as nat));
    assert(frame.subrange(12, 16) =~= le32(image.load_address as nat));
    assert(frame.subrange(16, 20) =~= le32(n as nat));
    assert(frame.subrange(20, 20 + n) =~= image.bytes);
}

/// The loader's answer to a download frame.
#[derive(Debug, PartialEq, Eq, Structural)]
pub enum Ack {
    Launched,
    BadChecksum,
    TimedOut,
    Unknown(u8),
}

/// The answer a byte from the loader stands for: `K` launched, `E` bad checksum, `T` timed out.
pub open spec fn ack_of(byte: u8) -> Ack {
    if byte == 75 {
        Ack::Launched
    } else if byte == 69 {
        Ack::BadChecksum
    } else if byte == 84 {
        Ack::TimedOut
    } else {
        Ack::Unknown(byte)
    }
}

impl From<u8> for Ack {
    fn from(byte: u8) -> (r: Self) {
        match byte {
            75 => Ack::Launched,
            69 => Ack::BadChecksum,
            84 => Ack::TimedOut,
            other => Ack::Unknown(other),
        }
    }
}

impl vstd::std_specs::convert::FromSpecImpl<u8> for Ack {
    open spec fn obeys_from_spec() -> bool {
        true
    }

    open spec fn from_spec(byte: u8) -> Self {
        ack_of(byte)
    }
}

/// The width, in bits, of a returned operand: `8 << n` for the tag's low two bits `n`.
pub open spec fn operand_width(tag: u8) -> nat {
    let n = tag & 3u8;
    if n == 0 {
        8
    } else if n == 1 {
        16
    } else if n == 2 {
        32
    } else {
        64
    }
}

/// The number a returned operand stands for: the value's low bits up to the operand's width (at
/// most 32), read as two's complement when the tag marks it signed.
pub open spec fn operand_number(tag: u8, value: u32) -> int {
    let w = operand_width(tag);
    let m: int = if w == 8 {
        256
    } else if w == 16 {
        65536
    } else {
        4294967296
    };
    let v = (value as int) % m;
    if tag & 0x20u8 != 0 && w < 64 && v >= m / 2 {
        v - m
    } else {
        v
    }
}

/// How scryer writes a returned operand: `NaR` for not-a-result, `NaN` for not-a-number, else
/// the number, `i` for signed or `u` for unsigned, and the width.
pub open spec fn operand_text(tag: u8, value: u32) -> Seq<char> {
    if tag & 0x80u8 != 0 {
        "NaR"@
    } else if tag & 0x40u8 != 0 {
        "NaN"@
    } else {
        dec_int(operand_number(tag, value)) + (if tag & 0x20u8 != 0 {
            "i"@
        } else {
            "u"@
        }) + dec(operand_width(tag))
    }
}

/// Law: a returned operand is written as the tag says. A tag of 128 or more is not-a-result and
/// is written `NaR`; else bit 6 (64) marks not-a-number, written `NaN`. Otherwise the operand is
/// `8 * 2^n` bits wide for the tag's low two bits `n`; its number agrees with the value modulo
/// `2^b`, where `b` is that width but at most 32, and lies in `0 .. 2^b`, or, when bit 5 (32)
/// marks it signed and it is narrower than 64 bits, in `-2^(b-1) .. 2^(b-1)`; the number is
/// followed by `i` for signed or `u` for unsigned and the width in decimal.
pub proof fn law_operand_layout(tag: u8, value: u32)
    ensures
        operand_width(tag) == 8 * vstd::arithmetic::power2::pow2((tag % 4) as nat),
        tag >= 128 ==> operand_text(tag, value) == "NaR"@,
        tag < 128 && (tag / 64) % 2 == 1 ==> operand_text(tag, value) == "NaN"@,
        tag < 64 ==> operand_text(tag, value) == dec_int(operand_number(tag, value)) + (if (tag
            / 32) % 2 == 1 {
            "i"@
        } else {
            "u"@
        }) + dec(operand_width(tag)),
        ({
            let b: nat = if operand_width(tag) > 32 {
                32
            } else {
                operand_width(tag)
            };
            let m = vstd::arithmetic::power2::pow2(b) as int;
            let n = operand_number(tag, value);
            &&& (n - value) % m == 0
            &&& ((tag / 32) % 2 == 1 && operand_width(tag) < 64) ==> -(m / 2) <= n < m / 2
            &&& !((tag / 32) % 2 == 1 && operand_width(tag) < 64) ==> 0 <= n < m
        }),
{
    assert((tag & 3u8) == tag % 4 && ((tag & 0x80u8) != 0) == (tag >= 128) && ((tag & 0x40u8)
        != 0) == ((tag / 64) % 2 == 1) && ((tag & 0x20u8) != 0) == ((tag / 32) % 2 == 1))
        by (bit_vector);
    vstd::arithmetic::power2::lemma2_to64();
    let w = operand_width(tag);
    let m: int = if w == 8 {
        256
    } else if w == 16 {
        65536
    } else {
        4294967296
    };
    let v = (value as int) % m;
    lemma_mod_facts(value as int, m);
}

/// What `%` gives for a positive modulus: `x` is a multiple of `m` away from `x % m`, which lies in
/// `0 .. m`.
proof fn lemma_mod_facts(x: int, m: int)
    requires
        m > 0,
    ensures
        0 <= x % m < m,
        (x % m - x) % m == 0,
        (x % m - m - x) % m == 0,
{
    vstd::arithmetic::div_mod::lemma_fundamental_div_mod(x, m);
    vstd::arithmetic::div_mod::lemma_mod_bound(x, m);
    let q = x / m;
    assert(x % m - x == (-q) * m) by (nonlinear_arith)
        requires
            x == m * q + x % m,
    ;
    assert(x % m - m - x == (-q - 1) * m) by (nonlinear_arith)
        requires
            x == m * q + x % m,
    ;
    vstd::arithmetic::div_mod::lemma_mod_multiples_basic(-q, m);
    vstd::arithmetic::div_mod::lemma_mod_multiples_basic(-q - 1, m);
}

/// Formats one returned operand. The tag's low two bits give the width as `8 << n` bits, 0x20
/// marks a signed value, 0x40 not-a-number and 0x80 not-a-result.
pub fn format_operand(tag: u8, value: u32) -> (r: String)
    ensures
        r@ == operand_text(tag, value),
{
    if tag & 0x80 != 0 {
        return text("NaR");
    }
    if tag & 0x40 != 0 {
        return text("NaN");
    }
    let low = tag & 3;
    let width: u64 = if low == 0 {
        8
    } else if low == 1 {
        16
    } else if low == 2 {
        32
    } else {
        64
    };
    let modulus: u64 = if width == 8 {
        256
    } else if width == 16 {
        65536
    } else {
        4294967296
    };
    let v: u64 = (value as u64) % modulus;
    let mut r = String::new();
    if tag & 0x20 != 0 {
        let n: i64 = if width < 64 && v >= modulus / 2 {
            v as i64 - modulus as i64
        } else {
            v as i64
        };
        push_dec_int(&mut r, n);
        push_char(&mut r, 'i');
    } else {
        push_dec(&mut r, v);
        push_char(&mut r, 'u');
    }
    push_dec(&mut r, width);
    proof {
        reveal_strlit("i");
        reveal_strlit("u");
        assert(operand_width(tag) == width);
        assert(operand_number(tag, value) == if tag & 0x20u8 != 0 && width < 64 && v >= modulus
            / 2 {
            v - modulus
        } else {
            v as int
        });
    }
    r
}

/// How scryer lists returned operands: each followed by `, `.
pub open spec fn operands_text(operands: Seq<(u8, u32)>) -> Seq<char>
    decreases operands.len(),
{
    if operands.len() == 0 {
        seq![]
    } else {
        operands_text(operands.drop_last()) + operand_text(
            operands.last().0,
            operands.last().1,
        ) + ", "@
    }
}

/// How scryer reports a finished program.
pub open spec fn scryer_text(report: ReportView) -> Seq<char> {
    if report.trapped {
        "----------  Error  ----------\nErr(\"The program trapped\")\n"@
    } else {
        "----------  Returned Operands  ----------\n"@ + operands_text(report.operands) + "\n"@
    }
}

impl Report {
    /// Formats the report the way scryer prints a finished program, so the two can be compared
    /// and checked by the same scripts.
    pub fn to_scryer_format(&self) -> (r: String)
        ensures
            r@ == scryer_text(self@),
    {
        if self.trapped {
            return text("----------  Error  ----------\nErr(\"The program trapped\")\n");
        }
        let mut r = text("----------  Returned Operands  ----------\n");
        let ghost header = r@;
        let mut i: usize = 0;
        while i < self.operands.len()
            invariant
                i <= self.operands.len(),
                r@ == header + operands_text(self.operands@.take(i as int)),
            decreases self.operands.len() - i,
        {
            let (tag, value) = self.operands[i];
            let operand = format_operand(tag, value);
            r.append(operand.as_str());
            r.append(", ");
            proof {
                assert(self.operands@.take(i + 1).drop_last() =~= self.operands@.take(i as int));
            }
            i = i + 1;
        }
        assert(self.operands@.take(i as int) =~= self.operands@);
        r.append("\n");
        r
    }
}

/// How a program ended, as values.
pub struct ReportView {
    pub trapped: bool,
    pub operands: Seq<(u8, u32)>,
}

/// What one received byte turned out to be, as values.
pub enum EventView {
    Output(Seq<u8>),
    Done(ReportView),
}

/// The state of a [`ReportParser`]: how much of the report magic has been matched, and the
/// report's bytes after the magic once the magic has been seen.
pub struct ParserState {
    pub matched: nat,
    pub report: Option<Seq<u8>>,
}

/// How a program ended.
#[derive(Debug, PartialEq, Eq)]
pub struct Report {
    pub trapped: bool,
    /// (tag, value) per returned operand.
    pub operands: Vec<(u8, u32)>,
}

impl View for Report {
    type V = ReportView;

    open spec fn view(&self) -> ReportView {
        ReportView { trapped: self.trapped, operands: self.operands@ }
    }
}

/// What one received byte turned out to be.
#[derive(Debug, PartialEq, Eq)]
pub enum Event {
    /// Bytes of program output, to be shown to the user. May be empty.
    Output(Vec<u8>),
    /// The report is complete.
    Done(Report),
}

impl View for Event {
    type V = EventView;

    open spec fn view(&self) -> EventView {
        match self {
            Event::Output(bytes) => EventView::Output(bytes@),
            Event::Done(report) => EventView::Done(report@),
        }
    }
}

/// Whether the report bytes `r` (after the magic) make a complete report: the status byte, the
/// operand count, and five bytes per operand.
pub open spec fn report_complete(r: Seq<u8>) -> bool {
    r.len() >= 2 && r.len() >= 2 + 5 * r[1]
}

/// The little-endian 32-bit value at `at`.
pub open spec fn le_u32_at(r: Seq<u8>, at: int) -> u32 {
    (r[at] + 256 * r[at + 1] + 65536 * r[at + 2] + 16777216 * r[at + 3]) as u32
}

/// The operands in the report bytes `r`: one per complete five-byte chunk after the status and
/// count bytes.
pub open spec fn report_operands(r: Seq<u8>) -> Seq<(u8, u32)> {
    Seq::new(((r.len() - 2) / 5) as nat, |k: int| (r[2 + 5 * k], le_u32_at(r, 3 + 5 * k)))
}

/// The report that the report bytes `r` describe.
pub open spec fn report_of(r: Seq<u8>) -> ReportView {
    ReportView { trapped: r[0] != 0, operands: report_operands(r) }
}

/// What the parser does with one byte: its next state and what the byte turned out to be.
pub open spec fn step(st: ParserState, byte: u8) -> (ParserState, EventView) {
    match st.report {
        Some(r) => {
            let r2 = r.push(byte);
            (
                ParserState { matched: st.matched, report: Some(r2) },
                if report_complete(r2) {
                    EventView::Done(report_of(r2))
                } else {
                    EventView::Output(seq![])
                },
            )
        },
        None => {
            if st.matched < 8 && byte == report_magic()[st.matched as int] {
                if st.matched + 1 == 8 {
                    (ParserState { matched: 0, report: Some(seq![]) }, EventView::Output(seq![]))
                } else {
                    (
                        ParserState { matched: st.matched + 1, report: None },
                        EventView::Output(seq![]),
                    )
                }
            } else {
                let held = report_magic().take(st.matched as int);
                if byte == report_magic()[0] {
                    (ParserState { matched: 1, report: None }, EventView::Output(held))
                } else {
                    (ParserState { matched: 0, report: None }, EventView::Output(held.push(byte)))
                }
            }
        },
    }
}

/// The state of a new parser: nothing matched, no report yet.
pub open spec fn initial_state() -> ParserState {
    ParserState { matched: 0, report: None }
}

/// Feeds the bytes `s` one by one, starting in state `st`, and stops at the first complete
/// report: the state reached, the program output collected, and the report if one completed.
pub open spec fn feed_all(st: ParserState, s: Seq<u8>) -> (ParserState, Seq<u8>, Option<ReportView>)
    decreases s.len(),
{
    if s.len() == 0 {
        (st, seq![], None)
    } else {
        let prev = feed_all(st, s.drop_last());
        if prev.2 is Some {
            prev
        } else {
            let (next, event) = step(prev.0, s.last());
            match event {
                EventView::Output(o) => (next, prev.1 + o, None),
                EventView::Done(r) => (next, prev.1, Some(r)),
            }
        }
    }
}

/// Whether `s` ends with `p`.
pub open spec fn ends_with(s: Seq<u8>, p: Seq<u8>) -> bool {
    p.len() <= s.len() && s.subrange(s.len() - p.len(), s.len() as int) == p
}

/// Whether the whole report magic occurs somewhere in `s`.
pub open spec fn contains_magic(s: Seq<u8>) -> bool {
    exists|i: int| 0 <= i && i + 8 <= s.len() && #[trigger] s.subrange(i, i + 8) == report_magic()
}

/// The state of a parser that has just seen the whole report magic.
pub open spec fn report_started() -> ParserState {
    ParserState { matched: 0, report: Some(seq![]) }
}

/// What the parser keeps while no magic has been seen: the program output so far and the held
/// back start of the magic add up to the stream, and what is held back is the one start of the
/// magic that the stream ends with.
spec fn scanning(s: Seq<u8>, st: ParserState, out: Seq<u8>) -> bool {
    &&& st.report is None
    &&& st.matched < 8
    &&& out + report_magic().take(st.matched as int) == s
    &&& st.matched > 0 ==> ends_with(s, report_magic().take(st.matched as int))
    &&& st.matched == 0 ==> forall|k: int| 1 <= k < 8 ==> !#[trigger] ends_with(s, report_magic().take(k))
}

/// The magic's first byte occurs in it only at the start, so a stream ends with at most one
/// non-empty start of the magic.
proof fn lemma_magic_starts_unique(s: Seq<u8>, i: int, j: int)
    requires
        1 <= i < j <= 8,
    ensures
        !(ends_with(s, report_magic().take(i)) && ends_with(s, report_magic().take(j))),
{
    let m = report_magic();
    let n = s.len();
    if ends_with(s, m.take(i)) && ends_with(s, m.take(j)) {
        assert(s.subrange(n - i, n as int)[0] == m.take(i)[0]);
        assert(s.subrange(n - j, n as int)[j - i] == m.take(j)[j - i]);
        assert(s[n - i] == m[0]);
        assert(s[n - i] == m[j - i]);
    }
}

proof fn lemma_scanning_step(s: Seq<u8>, st: ParserState, out: Seq<u8>, byte: u8)
    requires
        scanning(s, st, out),
        !ends_with(s.push(byte), report_magic()),
    ensures
        ({
            let (next, event) = step(st, byte);
            &&& event matches EventView::Output(o)
            &&& scanning(s.push(byte), next, out + event->Output_0)
        }),
{
    let m = report_magic();
    let s2 = s.push(byte);
    let k0 = st.matched as int;
    let (next, event) = step(st, byte);
    if byte == m[k0] {
        if k0 + 1 == 8 {
            assert(s2.subrange(s2.len() - 8, s2.len() as int) =~= m) by {
                if k0 > 0 {
                    assert(s.subrange(s.len() - k0, s.len() as int) == m.take(k0));
                }
                assert forall|x: int| 0 <= x < 8 implies #[trigger] s2.subrange(
                    s2.len() - 8,
                    s2.len() as int,
                )[x] == m[x] by {
                    if x < 7 {
                        assert(s.subrange(s.len() - k0, s.len() as int)[x] == m.take(k0)[x]);
                    }
                }
            }
            assert(false);
        } else {
            assert(s2.subrange(s2.len() - (k0 + 1), s2.len() as int) =~= m.take(k0 + 1)) by {
                assert forall|x: int| 0 <= x < k0 + 1 implies #[trigger] s2.subrange(
                    s2.len() - (k0 + 1),
                    s2.len() as int,
                )[x] == m.take(k0 + 1)[x] by {
                    if x < k0 {
                        assert(s.subrange(s.len() - k0, s.len() as int)[x] == m.take(k0)[x]);
                    }
                }
            }
            assert(out + event->Output_0 + m.take(k0 + 1) =~= s2);
        }
    } else {
        let held = m.take(k0);
        if byte == m[0] {
            assert(s2.subrange(s2.len() - 1, s2.len() as int) =~= m.take(1));
            assert(out + held + m.take(1) =~= s2);
            assert(out + event->Output_0 == out + held);
        } else {
            assert(out + held.push(byte) + m.take(0) =~= s2);
            assert forall|k: int| 1 <= k < 8 implies !#[trigger] ends_with(s2, m.take(k)) by {
                if ends_with(s2, m.take(k)) {
                    assert(s2.subrange(s2.len() - k, s2.len() as int)[k - 1] == m.take(k)[k - 1]);
                    if k == 1 {
                        assert(byte == m[0]);
                    } else {
                        assert(s.subrange(s.len() - (k - 1), s.len() as int) =~= m.take(k - 1)) by {
                            assert forall|x: int| 0 <= x < k - 1 implies #[trigger] s.subrange(
                                s.len() - (k - 1),
                                s.len() as int,
                            )[x] == m.take(k - 1)[x] by {
                                assert(s2.subrange(s2.len() - k, s2.len() as int)[x] == m.take(
                                    k,
                                )[x]);
                            }
                        }
                        if k0 == 0 {
                            assert(!ends_with(s, m.take(k - 1)));
                        } else if k0 < k - 1 {
                            lemma_magic_starts_unique(s, k0, k - 1);
                        } else if k - 1 < k0 {
                            lemma_magic_starts_unique(s, k - 1, k0);
                        } else {
                            assert(byte == m[k0]);
                        }
                    }
                }
            }
        }
    }
}

proof fn lemma_scanning_all(s: Seq<u8>)
    requires
        !contains_magic(s),
    ensures
        ({
            let (st, out, done) = feed_all(initial_state(), s);
            done is None && scanning(s, st, out)
        }),
    decreases s.len(),
{
    let m = report_magic();
    if s.len() == 0 {
        assert forall|k: int| 1 <= k < 8 implies !#[trigger] ends_with(s, m.take(k)) by {}
        assert(seq![] + m.take(0) =~= s);
    } else {
        let p = s.drop_last();
        assert(!contains_magic(p)) by {
            if contains_magic(p) {
                let i = choose|i: int|
                    0 <= i && i + 8 <= p.len() && #[trigger] p.subrange(i, i + 8) == m;
                assert(s.subrange(i, i + 8) =~= p.subrange(i, i + 8));
            }
        }
        lemma_scanning_all(p);
        let (st, out, done) = feed_all(initial_state(), p);
        assert(p.push(s.last()) =~= s);
        assert(!ends_with(s, m)) by {
            if ends_with(s, m) {
                assert(s.subrange(s.len() - 8, s.len() - 8 + 8) == m);
            }
        }
        lemma_scanning_step(p, st, out, s.last());
    }
}

/// Law: everything a program prints before the loader's report reaches the user unchanged, and
/// none of the report magic does. Feeding a new parser the program's output `pre` followed by
/// the magic yields exactly `pre` as output and leaves the parser reading the report, provided
/// the magic does not already occur earlier in that stream.
pub proof fn law_output_before_magic(pre: Seq<u8>)
    requires
        !contains_magic(pre + report_magic().take(7)),
    ensures
        feed_all(initial_state(), pre + report_magic()) == (report_started(), pre, None::<ReportView>),
{
    let m = report_magic();
    let s = pre + m.take(7);
    lemma_scanning_all(s);
    let (st, out, done) = feed_all(initial_state(), s);
    assert(s.subrange(s.len() - 7, s.len() as int) =~= m.take(7));
    let k0 = st.matched as int;
    if k0 == 0 {
        assert(!ends_with(s, m.take(7)));
    } else if k0 < 7 {
        lemma_magic_starts_unique(s, k0, 7);
    }
    assert(k0 == 7);
    assert((pre + m).drop_last() =~= s);
    assert((pre + m).last() == m[7]);
    assert(out + m.take(7) == pre + m.take(7));
    assert(out =~= pre) by {
        assert forall|x: int| 0 <= x < pre.len() implies out[x] == pre[x] by {
            assert((out + m.take(7))[x] == (pre + m.take(7))[x]);
        }
    }
    assert(out + seq![] =~= pre);
}

/// Law: once the magic has been seen, nothing more is output, and the report completes exactly
/// when its status, count and five bytes per counted operand have arrived; until then no report
/// is given.
pub proof fn law_report_after_magic(r: Seq<u8>)
    ensures
        !report_complete(r) ==> feed_all(report_started(), r) == (
            ParserState { matched: 0, report: Some(r) },
            Seq::<u8>::empty(),
            None::<ReportView>,
        ),
        r.len() >= 2 && r.len() == 2 + 5 * r[1] ==> feed_all(report_started(), r) == (
            ParserState { matched: 0, report: Some(r) },
            Seq::<u8>::empty(),
            Some(report_of(r)),
        ),
    decreases r.len(),
{
    if r.len() > 0 {
        let p = r.drop_last();
        assert(!report_complete(p) || !(r.len() >= 2 && r.len() == 2 + 5 * r[1]) || p.len() < 2 + 5 * p[1]);
        if r.len() >= 2 {
            assert(p.len() >= 2 ==> p[1] == r[1]);
        }
        assert(!report_complete(r) ==> !report_complete(p));
        assert(r.len() >= 2 && r.len() == 2 + 5 * r[1] ==> !report_complete(p));
        law_report_after_magic(p);
        assert(p.push(r.last()) =~= r);
        assert(Seq::<u8>::empty() + Seq::<u8>::empty() =~= Seq::<u8>::empty());
    } else {
        assert(r =~= seq![]);
    }
}

/// Law: a complete report reads as the report frame lays it out: the status byte says whether
/// the program trapped, the count byte says how many operands follow, and each operand is a tag
/// byte and a 32-bit value in little-endian order, least significant byte first.
pub proof fn law_report_layout(r: Seq<u8>)
    requires
        r.len() >= 2,
        r.len() == 2 + 5 * r[1],
    ensures
        report_of(r).trapped == (r[0] != 0),
        report_of(r).operands.len() == r[1],
        forall|k: int|
            0 <= k < r[1] ==> (#[trigger] report_of(r).operands[k]).0 == r[2 + 5 * k] && report_of(
                r,
            ).operands[k].1 as int == r[3 + 5 * k] as int + 256 * (r[4 + 5 * k] as int) + 65536 * (r[5
                + 5 * k] as int) + 16777216 * (r[6 + 5 * k] as int),
{
    assert((r.len() - 2) / 5 == r[1] as int) by (nonlinear_arith)
        requires
            r.len() == 2 + 5 * r[1],
    ;
    assert forall|k: int| 0 <= k < r[1] implies (#[trigger] report_of(r).operands[k]).0 == r[2 + 5
        * k] && report_of(r).operands[k].1 as int == r[3 + 5 * k] as int + 256 * (r[4 + 5
        * k] as int) + 65536 * (r[5 + 5 * k] as int) + 16777216 * (r[6 + 5 * k] as int) by {
        let a = r[3 + 5 * k];
        let b = r[4 + 5 * k];
        let c = r[5 + 5 * k];
        let d = r[6 + 5 * k];
        assert(a + 256 * b + 65536 * c + 16777216 * d <= 0xffff_ffff);
    }
}

/// Feeding `a` and then `b` is feeding `a + b`, as long as no report completed within `a`.
pub proof fn lemma_feed_all_append(st: ParserState, a: Seq<u8>, b: Seq<u8>)
    requires
        feed_all(st, a).2 is None,
    ensures
        feed_all(st, a + b) == ({
            let (st1, o1, _) = feed_all(st, a);
            let (st2, o2, d2) = feed_all(st1, b);
            (st2, o1 + o2, d2)
        }),
    decreases b.len(),
{
    let (st1, o1, _) = feed_all(st, a);
    if b.len() == 0 {
        assert(a + b =~= a);
        assert(o1 + seq![] =~= o1);
    } else {
        let b2 = b.drop_last();
        lemma_feed_all_append(st, a, b2);
        assert((a + b).drop_last() =~= a + b2);
        assert((a + b).last() == b.last());
        let (st2, o2, d2) = feed_all(st1, b2);
        let (next, event) = step(st2, b.last());
        match event {
            EventView::Output(o) => {
                assert(o1 + o2 + o =~= o1 + (o2 + o));
            },
            EventView::Done(r) => {},
        }
    }
}

/// Law: the stream from a running program splits into its output and its report. When the
/// program prints `pre` and the loader then sends the magic and a complete report `r`, a new
/// parser outputs exactly `pre` and reports what `r` says, provided the magic does not occur
/// earlier in the stream.
pub proof fn law_output_and_report(pre: Seq<u8>, r: Seq<u8>)
    requires
        !contains_magic(pre + report_magic().take(7)),
        r.len() >= 2,
        r.len() == 2 + 5 * r[1],
    ensures
        feed_all(initial_state(), pre + report_magic() + r).1 == pre,
        feed_all(initial_state(), pre + report_magic() + r).2 == Some(report_of(r)),
{
    law_output_before_magic(pre);
    law_report_after_magic(r);
    lemma_feed_all_append(initial_state(), pre + report_magic(), r);
    assert(pre + Seq::<u8>::empty() =~= pre);
}

/// Law: no program output is lost while no magic has arrived: what has been output and what the
/// parser holds back add up to the stream received, and what is held back is the longest start
/// of the magic that the stream ends with, at most seven bytes.
pub proof fn law_nothing_lost(s: Seq<u8>)
    requires
        !contains_magic(s),
    ensures
        ({
            let (st, out, done) = feed_all(initial_state(), s);
            &&& done is None
            &&& st.report is None
            &&& out + report_magic().take(st.matched as int) == s
            &&& st.matched < 8
            &&& ends_with(s, report_magic().take(st.matched as int))
            &&& forall|k: int|
                st.matched < k < 8 ==> !#[trigger] ends_with(s, report_magic().take(k))
        }),
{
    lemma_scanning_all(s);
    let (st, out, done) = feed_all(initial_state(), s);
    let m = report_magic();
    let k0 = st.matched as int;
    if k0 == 0 {
        assert(s.subrange(s.len() as int, s.len() as int) =~= m.take(0));
    }
    assert forall|k: int| k0 < k < 8 implies !#[trigger] ends_with(s, m.take(k)) by {
        if k0 > 0 {
            lemma_magic_starts_unique(s, k0, k);
        }
    }
}

/// Splits the byte stream coming from a running program into the program's own output and the
/// loader's final report.
pub struct ReportParser {
    /// How much of the report magic has been matched.
    matched: usize,
    /// The report's bytes after the magic, once the magic has been seen.
    report: Option<Vec<u8>>,
}

impl View for ReportParser {
    type V = ParserState;

    closed spec fn view(&self) -> ParserState {
        ParserState {
            matched: self.matched as nat,
            report: match self.report {
                Some(r) => Some(r@),
                None => None,
            },
        }
    }
}

impl ReportParser {
    /// At most seven bytes of the magic are ever held back.
    #[verifier::type_invariant]
    spec fn holds_a_partial_magic(self) -> bool {
        self.matched < 8
    }
}

impl Default for ReportParser {
    fn default() -> (p: Self)
        ensures
            p@ == initial_state(),
    {
        ReportParser { matched: 0, report: None }
    }
}

impl ReportParser {
    /// Reads the report bytes `r` into a report.
    fn build_report(r: &Vec<u8>) -> (report: Report)
        requires
            r.len() >= 2,
        ensures
            report@ == report_of(r@),
    {
        let len = r.len();
        let count = (len - 2) / 5;
        let mut operands: Vec<(u8, u32)> = Vec::new();
        let mut k: usize = 0;
        while k < count
            invariant
                len == r.len(),
                len >= 2,
                count == (len - 2) / 5,
                k <= count,
                operands@ == report_operands(r@).take(k as int),
            decreases count - k,
        {
            let at = 2 + 5 * k;
            let tag = r[at];
            let value: u32 = (r[at + 1] as u32) + (r[at + 2] as u32) * 256 + (r[at + 3] as u32)
                * 65536 + (r[at + 4] as u32) * 16777216;
            operands.push((tag, value));
            k = k + 1;
            assert(operands@ == report_operands(r@).take(k as int));
        }
        assert(operands@ == report_operands(r@));
        Report { trapped: r[0] != 0, operands }
    }

    /// Takes one received byte and says what it turned out to be.
    pub fn feed(&mut self, byte: u8) -> (event: Event)
        ensures
            old(self)@.matched < 8,
            (final(self)@, event@) == step(old(self)@, byte),
    {
        proof {
            use_type_invariant(&*self);
        }
        let mut pending: Option<Vec<u8>> = None;
        std::mem::swap(&mut pending, &mut self.report);
        if let Some(mut report) = pending {
            report.push(byte);
            let len = report.len();
            let complete = len >= 2 && len >= 2 + 5 * (report[1] as usize);
            let event = if complete {
                Event::Done(Self::build_report(&report))
            } else {
                Event::Output(Vec::new())
            };
            self.report = Some(report);
            return event;
        }
        let matched = self.matched;
        if byte == report_magic_byte(matched) {
            if matched + 1 == 8 {
                self.matched = 0;
                self.report = Some(Vec::new());
            } else {
                self.matched = matched + 1;
            }
            return Event::Output(Vec::new());
        }
        // Not the magic after all: what was held back is program output.
        let mut output: Vec<u8> = Vec::new();
        let mut i: usize = 0;
        while i < matched
            invariant
                i <= matched < 8,
                output@ == report_magic().take(i as int),
            decreases matched - i,
        {
            output.push(report_magic_byte(i));
            i = i + 1;
            assert(output@ == report_magic().take(i as int));
        }
        if byte == report_magic_byte(0) {
            self.matched = 1;
        } else {
            self.matched = 0;
            output.push(byte);
        }
        Event::Output(output)
    }
}

} // verus!
