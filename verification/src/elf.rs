//! Reading an ELF executable's entry point and loadable segments, through the `object` crate.

use vstd::prelude::*;

use object::Object as _;
use object::ObjectSegment as _;

use crate::image::{ReadSegment, ReadSegmentView};

verus! {

/// What the `object` crate's file reader makes of the bytes of an executable: the message of
/// the error `object::File::parse` gives for it, or its entry point and, in the order of the
/// file's program headers, each loadable segment's address, file bytes (or the message of the
/// error reading them gave), and size in memory.
pub uninterp spec fn object_file_contents(file: Seq<u8>) -> Result<
    (u64, Seq<(u64, Result<Seq<u8>, Seq<char>>, u64)>),
    Seq<char>,
>;

/// The tuple form of a segment as the ELF reader hands it over.
pub open spec fn read_segment_tuple(s: ReadSegmentView) -> (u64, Result<Seq<u8>, Seq<char>>, u64) {
    (s.address, s.data, s.size)
}

/// A result of reading an ELF, as values.
pub open spec fn read_result_view(r: Result<(u64, Vec<ReadSegment>), String>) -> Result<
    (u64, Seq<(u64, Result<Seq<u8>, Seq<char>>, u64)>),
    Seq<char>,
> {
    match r {
        Ok((entry, segments)) => Ok(
            (entry, segments@.map_values(|s: ReadSegment| read_segment_tuple(s@))),
        ),
        Err(e) => Err(e@),
    }
}

/// What the ELF reader makes of `file`, with segments as [`ReadSegmentView`] values.
pub open spec fn elf_contents(file: Seq<u8>) -> Result<(u64, Seq<ReadSegmentView>), Seq<char>> {
    match object_file_contents(file) {
        Ok((entry, segs)) => Ok(
            (
                entry,
                segs.map_values(
                    |t: (u64, Result<Seq<u8>, Seq<char>>, u64)|
                        ReadSegmentView { address: t.0, data: t.1, size: t.2 },
                ),
            ),
        ),
        Err(e) => Err(e),
    }
}

/// Reads an executable with `object::File::parse`, then its entry point (`Object::entry`) and
/// its loadable segments (`Object::segments`, with `ObjectSegment::address`, `data` and
/// `size`), turning each value into a plain one and each error into its message. The contract
/// claims only that the result is what [`object_file_contents`] names for these bytes: the same
/// bytes always give the same result.
#[verifier::external_body]
pub(crate) fn read_elf(file: &[u8]) -> (r: Result<(u64, Vec<ReadSegment>), String>)
    ensures
        read_result_view(r) == object_file_contents(file@),
{
    let parsed = match object::File::parse(file) {
        Ok(parsed) => parsed,
        Err(error) => return Err(error.to_string()),
    };
    let mut segments = Vec::new();
    for segment in parsed.segments() {
        let data = match segment.data() {
            Ok(data) => Ok(data.to_vec()),
            Err(error) => Err(error.to_string()),
        };
        segments.push(ReadSegment { address: segment.address(), data, size: segment.size() });
    }
    Ok((parsed.entry(), segments))
}

} // verus!
