//! The memory functions that the SDK's `compiler_builtins` provides for the code generator, which
//! calls them for copies and comparisons of larger values. They work a byte at a time. Here the
//! memory is a byte buffer and an address is an index into it.

use vstd::prelude::*;

verus! {

/// `mem` after the `n` bytes at `src` have been copied to `dest`, as they were before the copy.
pub open spec fn moved(mem: Seq<u8>, dest: int, src: int, n: int) -> Seq<u8> {
    Seq::new(
        mem.len(),
        |i: int|
            if dest <= i < dest + n {
                mem[src + (i - dest)]
            } else {
                mem[i]
            },
    )
}

/// Law: after a copy of `n` bytes from `src` to `dest`, the `n` bytes at `dest` are the `n` bytes
/// that were at `src`, and every other byte is as it was.
pub proof fn law_copy_moves_the_bytes(mem: Seq<u8>, dest: int, src: int, n: int)
    requires
        0 <= n,
        0 <= dest,
        dest + n <= mem.len(),
        0 <= src,
        src + n <= mem.len(),
    ensures
        moved(mem, dest, src, n).len() == mem.len(),
        moved(mem, dest, src, n).subrange(dest, dest + n) == mem.subrange(src, src + n),
        forall|i: int|
            0 <= i < mem.len() && !(dest <= i < dest + n) ==> #[trigger] moved(mem, dest, src, n)[i]
                == mem[i],
{
    assert(moved(mem, dest, src, n).subrange(dest, dest + n) =~= mem.subrange(src, src + n));
}

/// Copies `n` bytes from `src` to `dest`, which must not overlap; returns `dest`.
pub fn memcpy(mem: &mut Vec<u8>, dest: usize, src: usize, n: usize) -> (r: usize)
    requires
        dest + n <= old(mem).len(),
        src + n <= old(mem).len(),
        dest + n <= src || src + n <= dest,
    ensures
        r == dest,
        final(mem)@ == moved(old(mem)@, dest as int, src as int, n as int),
{
    let ghost start = mem@;
    let mut i: usize = 0;
    while i < n
        invariant
            i <= n,
            dest + n <= mem.len(),
            src + n <= mem.len(),
            dest + n <= src || src + n <= dest,
            mem@.len() == start.len(),
            forall|k: int|
                0 <= k < mem@.len() ==> mem@[k] == if dest <= k < dest + i {
                    start[src + (k - dest)]
                } else {
                    start[k]
                },
        decreases n - i,
    {
        let byte = mem[src + i];
        mem.set(dest + i, byte);
        i = i + 1;
    }
    assert(mem@ =~= moved(start, dest as int, src as int, n as int));
    dest
}

/// Copies `n` bytes from `src` to `dest`, which may overlap; returns `dest`.
pub fn memmove(mem: &mut Vec<u8>, dest: usize, src: usize, n: usize) -> (r: usize)
    requires
        dest + n <= old(mem).len(),
        src + n <= old(mem).len(),
    ensures
        r == dest,
        final(mem)@ == moved(old(mem)@, dest as int, src as int, n as int),
{
    let ghost start = mem@;
    if dest < src {
        // dest below src: a forward copy reads every byte before overwriting it.
        let mut i: usize = 0;
        while i < n
            invariant
                i <= n,
                dest < src,
                dest + n <= mem.len(),
                src + n <= mem.len(),
                mem@.len() == start.len(),
                forall|k: int|
                    0 <= k < mem@.len() ==> mem@[k] == if dest <= k < dest + i {
                        start[src + (k - dest)]
                    } else {
                        start[k]
                    },
            decreases n - i,
        {
            let byte = mem[src + i];
            mem.set(dest + i, byte);
            i = i + 1;
        }
    } else {
        // dest above (or equal to) src: copy backward.
        let mut i: usize = n;
        while i > 0
            invariant
                i <= n,
                dest >= src,
                dest + n <= mem.len(),
                src + n <= mem.len(),
                mem@.len() == start.len(),
                forall|k: int|
                    0 <= k < mem@.len() ==> mem@[k] == if dest + i <= k < dest + n {
                        start[src + (k - dest)]
                    } else {
                        start[k]
                    },
            decreases i,
        {
            i = i - 1;
            let byte = mem[src + i];
            mem.set(dest + i, byte);
        }
    }
    assert(mem@ =~= moved(start, dest as int, src as int, n as int));
    dest
}

/// Sets `n` bytes at `dest` to the low byte of `c`; returns `dest`.
pub fn memset(mem: &mut Vec<u8>, dest: usize, c: i32, n: usize) -> (r: usize)
    requires
        dest + n <= old(mem).len(),
    ensures
        r == dest,
        final(mem)@ == Seq::new(
            old(mem)@.len(),
            |i: int|
                if dest <= i < dest + n {
                    (c as int % 256) as u8
                } else {
                    old(mem)@[i]
                },
        ),
{
    let ghost start = mem@;
    let byte = ((c as i64 % 256 + 256) % 256) as u8;
    assert(byte == (c as int % 256) as u8) by (nonlinear_arith)
        requires
            byte == ((c as i64 % 256 + 256) % 256) as u8,
    ;
    let mut i: usize = 0;
    while i < n
        invariant
            i <= n,
            dest + n <= mem.len(),
            mem@.len() == start.len(),
            byte == (c as int % 256) as u8,
            forall|k: int|
                0 <= k < mem@.len() ==> mem@[k] == if dest <= k < dest + i {
                    byte
                } else {
                    start[k]
                },
        decreases n - i,
    {
        mem.set(dest + i, byte);
        i = i + 1;
    }
    assert(mem@ =~= Seq::new(
        start.len(),
        |i: int|
            if dest <= i < dest + n {
                (c as int % 256) as u8
            } else {
                start[i]
            },
    ));
    dest
}

/// How the `n` bytes at `s1` compare with those at `s2`: at the first position where they
/// differ, the difference of the two bytes read as unsigned; zero when they are all equal.
pub open spec fn compared(mem: Seq<u8>, s1: int, s2: int, n: int) -> int
    decreases n,
{
    if n <= 0 {
        0
    } else if mem[s1] != mem[s2] {
        mem[s1] - mem[s2]
    } else {
        compared(mem, s1 + 1, s2 + 1, n - 1)
    }
}

/// Law: comparing `n` bytes answers with the first position `k` where they differ, and there
/// with the byte at `s1 + k` minus the byte at `s2 + k`, both read as unsigned values 0 to 255.
pub proof fn law_compare_first_difference(mem: Seq<u8>, s1: int, s2: int, n: int, k: int)
    requires
        0 <= s1,
        0 <= s2,
        s1 + n <= mem.len(),
        s2 + n <= mem.len(),
        0 <= k < n,
        mem[s1 + k] != mem[s2 + k],
        forall|j: int| s1 <= j < s1 + k ==> #[trigger] mem[j] == mem[j - s1 + s2],
    ensures
        compared(mem, s1, s2, n) == (mem[s1 + k] as int) - (mem[s2 + k] as int),
        0 <= mem[s1 + k] as int <= 255,
        0 <= mem[s2 + k] as int <= 255,
    decreases k,
{
    if k > 0 {
        assert(mem[s1] == mem[s1 - s1 + s2]);
        law_compare_first_difference(mem, s1 + 1, s2 + 1, n - 1, k - 1);
    }
}

/// Law: `n` equal bytes compare as zero.
pub proof fn law_equal_bytes_compare_zero(mem: Seq<u8>, s1: int, s2: int, n: int)
    requires
        forall|j: int| s1 <= j < s1 + n ==> #[trigger] mem[j] == mem[j - s1 + s2],
    ensures
        compared(mem, s1, s2, n) == 0,
    decreases n,
{
    if n > 0 {
        assert(mem[s1] == mem[s1 - s1 + s2]);
        law_equal_bytes_compare_zero(mem, s1 + 1, s2 + 1, n - 1);
    }
}

/// How the `n` bytes at `s1` compare with those at `s2`.
pub open spec fn compared_at(mem: Seq<u8>, s1: usize, s2: usize, n: usize) -> int {
    compared(mem, s1 as int, s2 as int, n as int)
}

/// The difference of two bytes read as unsigned.
fn byte_difference(a: u8, b: u8) -> (r: i32)
    ensures
        r == a - b,
{
    a as i32 - b as i32
}

/// Compares `n` bytes at `s1` with `n` bytes at `s2`.
pub fn memcmp(mem: &Vec<u8>, s1: usize, s2: usize, n: usize) -> (r: i32)
    requires
        s1 + n <= mem.len(),
        s2 + n <= mem.len(),
    ensures
        r == compared_at(mem@, s1, s2, n),
{
    let mut i: usize = 0;
    while i < n
        invariant
            i <= n,
            s1 + n <= mem.len(),
            s2 + n <= mem.len(),
            compared_at(mem@, s1, s2, n) == compared(
                mem@,
                s1 + i,
                s2 + i,
                n - i,
            ),
        decreases n - i,
    {
        let a = mem[s1 + i];
        let b = mem[s2 + i];
        if a != b {
            // Bytes compare as unsigned; the difference fits (and signs) i32.
            return byte_difference(a, b);
        }
        i = i + 1;
    }
    0
}

/// Compares `n` bytes at `s1` with `n` bytes at `s2`; only whether the result is zero matters.
pub fn bcmp(mem: &Vec<u8>, s1: usize, s2: usize, n: usize) -> (r: i32)
    requires
        s1 + n <= mem.len(),
        s2 + n <= mem.len(),
    ensures
        r == compared_at(mem@, s1, s2, n),
{
    memcmp(mem, s1, s2, n)
}

} // verus!
