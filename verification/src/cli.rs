//! The decisions of the `cargo scry` command line: which arguments select a board and which go
//! on to cargo, and how settings are written into cargo's `--config` values.

use vstd::prelude::*;

use crate::text::{
    opt_string_view, push_char, same_text, starts_with, strings_view, text, text_from,
    text_starts_with,
};

verus! {

/// What scanning the arguments before `--` for `--board` finds: the arguments that stay, the
/// board named last, and whether a `--board` at the end lacks its value.
pub struct BoardScan {
    pub kept: Seq<Seq<char>>,
    pub board: Option<Seq<char>>,
    pub missing_value: bool,
}

/// Puts the scan of earlier arguments (`kept`, `board`) in front of the scan of the rest.
pub open spec fn after(kept: Seq<Seq<char>>, board: Option<Seq<char>>, rest: BoardScan) -> BoardScan {
    BoardScan {
        kept: kept + rest.kept,
        board: if rest.board is Some {
            rest.board
        } else {
            board
        },
        missing_value: rest.missing_value,
    }
}

/// Scans arguments for `--board <value>` and `--board=<value>`, left to right. A `--board`
/// takes the argument after it as its value, whatever it is; the last board named wins.
pub open spec fn scan_board_flag(args: Seq<Seq<char>>) -> BoardScan
    decreases args.len(),
{
    if args.len() == 0 {
        BoardScan { kept: seq![], board: None, missing_value: false }
    } else if starts_with(args[0], "--board="@) {
        after(seq![], Some(args[0].skip(8)), scan_board_flag(args.drop_first()))
    } else if args[0] == "--board"@ {
        if args.len() == 1 {
            BoardScan { kept: seq![args[0]], board: None, missing_value: true }
        } else {
            after(seq![], Some(args[1]), scan_board_flag(args.skip(2)))
        }
    } else {
        after(seq![args[0]], None, scan_board_flag(args.drop_first()))
    }
}

/// The index of the first `--`, or the number of arguments when there is none.
pub open spec fn separator_index(args: Seq<Seq<char>>) -> int
    decreases args.len(),
{
    if args.len() == 0 {
        0
    } else if args[0] == "--"@ {
        0
    } else {
        1 + separator_index(args.drop_first())
    }
}

proof fn lemma_separator_index(args: Seq<Seq<char>>)
    ensures
        0 <= separator_index(args) <= args.len(),
        forall|i: int| 0 <= i < separator_index(args) ==> args[i] != "--"@,
        separator_index(args) < args.len() ==> args[separator_index(args)] == "--"@,
    decreases args.len(),
{
    if args.len() > 0 && args[0] != "--"@ {
        lemma_separator_index(args.drop_first());
        assert forall|i: int| 0 <= i < separator_index(args) implies args[i] != "--"@ by {
            if i > 0 {
                assert(args.drop_first()[i - 1] == args[i]);
            }
        }
    }
}

proof fn lemma_separator_at(args: Seq<Seq<char>>, e: int)
    requires
        0 <= e <= args.len(),
        forall|i: int| 0 <= i < e ==> args[i] != "--"@,
        e < args.len() ==> args[e] == "--"@,
    ensures
        separator_index(args) == e,
    decreases args.len(),
{
    if args.len() > 0 && e > 0 {
        assert forall|i: int| 0 <= i < e - 1 implies args.drop_first()[i] != "--"@ by {
            assert(args.drop_first()[i] == args[i + 1]);
        }
        lemma_separator_at(args.drop_first(), e - 1);
    }
}

proof fn lemma_after_after(
    k: Seq<Seq<char>>,
    b: Option<Seq<char>>,
    k2: Seq<Seq<char>>,
    b2: Option<Seq<char>>,
    r: BoardScan,
)
    ensures
        after(k, b, after(k2, b2, r)) == after(
            k + k2,
            if b2 is Some {
                b2
            } else {
                b
            },
            r,
        ),
{
    assert(k + (k2 + r.kept) =~= (k + k2) + r.kept);
}

/// Removes `--board <value>` or `--board=<value>` from the cargo arguments and returns the value.
/// Arguments after `--` belong to the program's runner and are left alone.
#[verifier::rlimit(40)]
pub fn take_board_flag(args: &mut Vec<String>) -> (r: Result<Option<String>, String>)
    ensures
        ({
            let before = strings_view(old(args)@);
            let e = separator_index(before);
            let scan = scan_board_flag(before.take(e));
            &&& strings_view(final(args)@) == scan.kept + before.skip(e)
            &&& scan.missing_value ==> (r matches Err(m) && m@
                == "--board needs a board name or a profile file"@)
            &&& !scan.missing_value ==> (r matches Ok(b) && opt_string_view(b) == scan.board)
        }),
{
    let ghost before = strings_view(args@);
    let mut end: usize = 0;
    loop
        invariant
            end <= args.len(),
            before == strings_view(args@),
            forall|i: int| 0 <= i < end ==> before[i] != "--"@,
        ensures
            end <= args.len(),
            forall|i: int| 0 <= i < end ==> before[i] != "--"@,
            end < args.len() ==> before[end as int] == "--"@,
        decreases args.len() - end,
    {
        if end == args.len() {
            break;
        }
        if same_text(args[end].as_str(), "--") {
            break;
        }
        end = end + 1;
    }
    proof {
        lemma_separator_at(before, end as int);
    }
    let ghost front = before.take(end as int);
    let ghost back = before.skip(end as int);
    let mut board: Option<String> = None;
    let mut index: usize = 0;
    let mut remaining = end;
    while index < remaining
        invariant
            index <= remaining <= args.len(),
            before == strings_view(old(args)@),
            end == separator_index(before),
            front == before.take(end as int),
            back == before.skip(end as int),
            strings_view(args@) == strings_view(args@).take(remaining as int) + back,
            strings_view(args@).skip(remaining as int) == back,
            scan_board_flag(front) == after(
                strings_view(args@).take(index as int),
                opt_string_view(board),
                scan_board_flag(strings_view(args@).subrange(index as int, remaining as int)),
            ),
        decreases remaining - index,
    {
        let ghost current = strings_view(args@);
        let ghost pending = current.subrange(index as int, remaining as int);
        let ghost old_board = opt_string_view(board);
        assert(pending[0] == current[index as int]);
        if text_starts_with(args[index].as_str(), "--board=") {
            proof {
                reveal_strlit("--board=");
                assert(scan_board_flag(pending) == after(
                    seq![],
                    Some(pending[0].skip(8)),
                    scan_board_flag(pending.drop_first()),
                ));
            }
            let value = text_from(args[index].as_str(), 8);
            let ghost pending_value = pending[0].skip(8);
            board = Some(value);
            args.remove(index);
            remaining = remaining - 1;
            proof {
                let now = strings_view(args@);
                assert(now =~= current.remove(index as int));
                assert(now.take(index as int) =~= current.take(index as int));
                assert(now.subrange(index as int, remaining as int) =~= pending.drop_first());
                assert(now.skip(remaining as int) =~= back);
                assert(now =~= now.take(remaining as int) + back);
                assert(current.take(index as int) + seq![] =~= current.take(index as int));
                lemma_after_after(current.take(index as int), old_board, seq![], Some(pending_value), scan_board_flag(strings_view(args@).subrange(index as int, remaining as int)));
            }
            assert(scan_board_flag(front) == after(
                strings_view(args@).take(index as int),
                opt_string_view(board),
                scan_board_flag(strings_view(args@).subrange(index as int, remaining as int)),
            ));
        } else if same_text(args[index].as_str(), "--board") {
            if index + 1 >= remaining {
                proof {
                    assert(scan_board_flag(pending) == BoardScan {
                        kept: seq![pending[0]],
                        board: None,
                        missing_value: true,
                    });
                    assert(pending =~= seq![current[index as int]]);
                    assert(current.take(index as int) + seq![current[index as int]]
                        + back =~= current);
                    lemma_after_after(current.take(index as int), old_board, seq![pending[0]], None, BoardScan { kept: seq![], board: None, missing_value: true });
                    assert(seq![pending[0]] + seq![] =~= seq![pending[0]]);
                    assert(scan_board_flag(front).missing_value);
                    assert(scan_board_flag(front).kept == current.take(index as int) + seq![pending[0]]);
                    assert(strings_view(args@) == scan_board_flag(front).kept + back);
                }
                return Err(text("--board needs a board name or a profile file"));
            }
            proof {
                assert(scan_board_flag(pending) == after(
                    seq![],
                    Some(pending[1]),
                    scan_board_flag(pending.skip(2)),
                ));
            }
            let value = args.remove(index + 1);
            let ghost pending_value = pending[1];
            args.remove(index);
            board = Some(value);
            remaining = remaining - 2;
            proof {
                let now = strings_view(args@);
                assert(pending[1] == value@);
                assert(now =~= current.remove(index + 1).remove(index as int));
                assert(now.take(index as int) =~= current.take(index as int));
                assert(now.subrange(index as int, remaining as int) =~= pending.skip(2));
                assert(now.skip(remaining as int) =~= back);
                assert(now =~= now.take(remaining as int) + back);
                assert(current.take(index as int) + seq![] =~= current.take(index as int));
                lemma_after_after(current.take(index as int), old_board, seq![], Some(pending_value), scan_board_flag(strings_view(args@).subrange(index as int, remaining as int)));
            }
            assert(scan_board_flag(front) == after(
                strings_view(args@).take(index as int),
                opt_string_view(board),
                scan_board_flag(strings_view(args@).subrange(index as int, remaining as int)),
            ));
        } else {
            proof {
                assert(scan_board_flag(pending) == after(
                    seq![pending[0]],
                    None,
                    scan_board_flag(pending.drop_first()),
                ));
            }
            index = index + 1;
            proof {
                lemma_after_after(current.take(index - 1), old_board, seq![pending[0]], None, scan_board_flag(pending.drop_first()));
                assert(current.take(index as int) =~= current.take(index - 1) + seq![
                    current[index - 1],
                ]);
                assert(current.subrange(index as int, remaining as int) =~= pending.drop_first());
            }
            assert(scan_board_flag(front) == after(
                strings_view(args@).take(index as int),
                opt_string_view(board),
                scan_board_flag(strings_view(args@).subrange(index as int, remaining as int)),
            ));
        }
    }
    proof {
        let now = strings_view(args@);
        assert(now.subrange(index as int, remaining as int) =~= seq![]);
        assert(now.take(index as int) + seq![] =~= now.take(index as int));
    }
    Ok(board)
}

/// Once the board flag has been taken out, no argument that stays is `--board` or begins with
/// `--board=`, unless the last `--board` had no value to take.
pub proof fn law_board_flags_removed(args: Seq<Seq<char>>)
    ensures
        !scan_board_flag(args).missing_value ==> forall|i: int|
            0 <= i < scan_board_flag(args).kept.len() ==> #[trigger] scan_board_flag(args).kept[i]
                != "--board"@ && !starts_with(scan_board_flag(args).kept[i], "--board="@),
    decreases args.len(),
{
    if args.len() == 0 {
    } else if starts_with(args[0], "--board="@) {
        law_board_flags_removed(args.drop_first());
    } else if args[0] == "--board"@ {
        if args.len() > 1 {
            law_board_flags_removed(args.skip(2));
        }
    } else {
        let rest = scan_board_flag(args.drop_first());
        law_board_flags_removed(args.drop_first());
        assert forall|i: int| 0 <= i < scan_board_flag(args).kept.len() && !rest.missing_value
            implies #[trigger] scan_board_flag(args).kept[i] != "--board"@ && !starts_with(
            scan_board_flag(args).kept[i],
            "--board="@,
        ) by {
            if i > 0 {
                assert(scan_board_flag(args).kept[i] == rest.kept[i - 1]);
            }
        }
    }
}

/// The items quoted and separated by commas.
pub open spec fn quoted_items(items: Seq<Seq<char>>) -> Seq<char>
    decreases items.len(),
{
    if items.len() == 0 {
        seq![]
    } else if items.len() == 1 {
        seq!['"'] + items[0] + seq!['"']
    } else {
        quoted_items(items.drop_last()) + seq![','] + seq!['"'] + items.last() + seq!['"']
    }
}

/// A TOML array of strings: `["a","b"]`.
pub open spec fn toml_array_text(items: Seq<Seq<char>>) -> Seq<char> {
    seq!['['] + quoted_items(items) + seq![']']
}

/// Writes `items` as a TOML array of strings, for cargo's `--config` values. The items are
/// quoted as they are; paths are written with forward slashes beforehand, so they need no
/// escaping.
pub fn toml_array(items: &Vec<String>) -> (r: String)
    ensures
        r@ == toml_array_text(strings_view(items@)),
{
    let ghost sv = strings_view(items@);
    let mut r = text("[");
    assert(r@ == seq!['[']) by {
        reveal_strlit("[");
    }
    let mut i: usize = 0;
    while i < items.len()
        invariant
            i <= items.len(),
            sv == strings_view(items@),
            r@ == seq!['['] + quoted_items(sv.take(i as int)),
        decreases items.len() - i,
    {
        if i > 0 {
            push_char(&mut r, ',');
        }
        push_char(&mut r, '"');
        r.append(items[i].as_str());
        push_char(&mut r, '"');
        proof {
            assert(sv.take(i + 1).drop_last() =~= sv.take(i as int));
            assert(sv[i as int] == items@[i as int]@);
            if i == 0 {
                assert(sv.take(1)[0] == sv[0]);
            }
            assert(r@ =~= seq!['['] + quoted_items(sv.take(i + 1)));
        }
        i = i + 1;
    }
    assert(sv.take(i as int) =~= sv);
    push_char(&mut r, ']');
    r
}

/// `s` with every backslash turned into a forward slash.
pub open spec fn forward_slashes(s: Seq<char>) -> Seq<char> {
    s.map_values(|c: char| if c == '\\' { '/' } else { c })
}

/// A path as a TOML string. Forward slashes work everywhere and avoid TOML escaping.
pub fn toml_path(path: &str) -> (r: String)
    ensures
        r@ == forward_slashes(path@),
{
    let n = path.unicode_len();
    let mut r = String::new();
    let mut i: usize = 0;
    while i < n
        invariant
            i <= n,
            n == path@.len(),
            r@ == forward_slashes(path@.take(i as int)),
        decreases n - i,
    {
        let c = path.get_char(i);
        if c == '\\' {
            push_char(&mut r, '/');
        } else {
            push_char(&mut r, c);
        }
        assert(forward_slashes(path@.take(i + 1)) =~= forward_slashes(path@.take(i as int)).push(
            if c == '\\' { '/' } else { c },
        ));
        i = i + 1;
    }
    assert(path@.take(n as int) =~= path@);
    r
}

/// The board a build is for, when the command line or the environment names one: the `--board`
/// flag first, then the `SCRY_BOARD` variable unless it is empty. Without either, the project's
/// manifest is asked.
pub fn board_value(flag: Option<String>, from_env: Option<String>) -> (r: Option<String>)
    ensures
        opt_string_view(r) == match flag {
            Some(f) => Some(f@),
            None => match from_env {
                Some(e) => if e@.len() == 0 {
                    None
                } else {
                    Some(e@)
                },
                None => None,
            },
        },
{
    match flag {
        Some(f) => Some(f),
        None => match from_env {
            Some(e) => if e.as_str().unicode_len() == 0 {
                None
            } else {
                Some(e)
            },
            None => None,
        },
    }
}

/// The FNV-1a offset basis.
pub open spec fn fnv_offset() -> u64 {
    0xcbf2_9ce4_8422_2325
}

/// The FNV-1a prime.
pub open spec fn fnv_prime() -> u64 {
    0x0000_0100_0000_01b3
}

/// One FNV-1a step: the byte is XORed in, then the hash is multiplied by the prime, modulo
/// 2^64.
pub open spec fn fnv_step(hash: u64, byte: u8) -> u64 {
    (((hash ^ (byte as u64)) as nat * fnv_prime() as nat) % 0x1_0000_0000_0000_0000) as u64
}

/// Byte `i` of `value` in little-endian order.
pub open spec fn le_byte(value: u64, i: nat) -> u8 {
    ((value >> (8 * i) as u64) % 256) as u8
}

/// Mixes the first `count` little-endian bytes of `value` into the hash.
pub open spec fn fnv_mix_bytes(hash: u64, value: u64, count: nat) -> u64
    decreases count,
{
    if count == 0 {
        hash
    } else {
        fnv_step(fnv_mix_bytes(hash, value, (count - 1) as nat), le_byte(value, (count - 1) as nat))
    }
}

/// The FNV-1a hash of the values, each taken as its eight little-endian bytes.
pub open spec fn stamp_of(values: Seq<u64>) -> u64
    decreases values.len(),
{
    if values.len() == 0 {
        fnv_offset()
    } else {
        fnv_mix_bytes(stamp_of(values.drop_last()), values.last(), 8)
    }
}

/// A value that changes whenever any of the SDK's files is rebuilt: the FNV-1a hash of each
/// file's size and modification time, in nanoseconds since the Unix epoch, in that order, as
/// eight little-endian bytes each. FNV-1a, because the hash must be stable across runs, which
/// `std`'s default hasher is not guaranteed to be.
pub fn sdk_stamp(values: &Vec<u64>) -> (r: u64)
    ensures
        r == stamp_of(values@),
{
    let mut hash: u64 = 0xcbf2_9ce4_8422_2325;
    let mut i: usize = 0;
    while i < values.len()
        invariant
            i <= values.len(),
            hash == stamp_of(values@.take(i as int)),
        decreases values.len() - i,
    {
        let value = values[i];
        let ghost start = hash;
        let mut k: u64 = 0;
        while k < 8
            invariant
                k <= 8,
                hash == fnv_mix_bytes(start, value, k as nat),
            decreases 8 - k,
        {
            let byte = ((value >> (8 * k)) % 256) as u8;
            hash = (hash ^ (byte as u64)).wrapping_mul(0x0000_0100_0000_01b3);
            k = k + 1;
        }
        proof {
            assert(values@.take(i + 1).drop_last() =~= values@.take(i as int));
        }
        i = i + 1;
    }
    assert(values@.take(i as int) =~= values@);
    hash
}

} // verus!
