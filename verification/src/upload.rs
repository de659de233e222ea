use vstd::prelude::*;

use crate::device::MemorySegment;
use crate::error::FlashError;

verus! {

/// The last address of a read of `length` bytes from `start`; a length of
/// zero asks for everything up to the end of the memory.
pub open spec fn requested_end(start: u32, length: u32) -> Option<u32> {
    if length > 0 {
        Some((start + length - 1) as u32)
    } else {
        None
    }
}

/// The last address a read actually goes to: the requested one, or else the
/// last address of the last segment that was found.
pub open spec fn resolved_end(end: Option<u32>, segments: Seq<MemorySegment>) -> int {
    match end {
        Some(e) => e as int,
        None => segments.last().end_addr - 1,
    }
}

/// The inputs on which the read length can be computed in 32 bits: the last
/// segment does not end at address 0 (its last address is worked out even
/// when the end was requested), the end lies at or after the start, and the
/// span fits in a `u32`.
pub open spec fn upload_span_fits(start: u32, end: Option<u32>, segments: Seq<MemorySegment>) -> bool {
    segments.len() > 0 ==> {
        &&& segments.last().end_addr >= 1
        &&& start <= resolved_end(end, segments)
        &&& resolved_end(end, segments) - start + 1 <= u32::MAX
    }
}

/// The number of bytes a read from `start` to the resolved end transfers.
pub open spec fn upload_size(start: u32, end: Option<u32>, segments: Seq<MemorySegment>) -> int {
    resolved_end(end, segments) - start + 1
}

/// The last address of a read of `length` bytes starting at `start_address`,
/// or `None` when the length is zero (read to the end of the memory).
pub fn upload_end_address(start_address: u32, length: u32) -> (end: Option<u32>)
    requires
        length > 0 ==> start_address + length <= u32::MAX,
    ensures
        end == requested_end(start_address, length),
        length == 0 ==> end is None,
        length > 0 ==> end == Some((start_address + length - 1) as u32),
{
    if length > 0 {
        Some(start_address + length - 1)
    } else {
        None
    }
}

/// The number of bytes to read from `start_address`, given the requested end
/// and the memory segments that cover the range. Without any segment there is
/// nothing to read from.
pub fn upload_length(start_address: u32, end_address: Option<u32>, segments: &[MemorySegment]) -> (len: Result<u32, FlashError>)
    requires
        upload_span_fits(start_address, end_address, segments@),
    ensures
        match len {
            Ok(n) => segments@.len() > 0 && n == upload_size(start_address, end_address, segments@),
            Err(e) => segments@.len() == 0 && e == FlashError::NoMemorySegments,
        },
        segments@.len() > 0 && end_address is None ==> len == Ok::<u32, FlashError>(
            (segments@.last().end_addr - start_address) as u32,
        ),
        segments@.len() > 0 ==> (end_address matches Some(e) ==> len == Ok::<u32, FlashError>(
            (e - start_address + 1) as u32,
        )),
{
    if segments.len() == 0 {
        return Err(FlashError::NoMemorySegments);
    }
    let last_address = segments[segments.len() - 1].end_addr - 1;
    let end = match end_address {
        Some(e) => e,
        None => last_address,
    };
    Ok(end - start_address + 1)
}

/// Without a requested end, a read goes from its start up to the last address
/// of the last segment found, whatever the other segments are; with one, it
/// goes up to and including that end.
pub proof fn lemma_read_reaches_last_segment(start: u32, end: Option<u32>, segments: Seq<MemorySegment>)
    requires
        segments.len() > 0,
    ensures
        end is None ==> upload_size(start, end, segments) == segments.last().end_addr - start,
        end is None ==> resolved_end(end, segments) == segments[segments.len() - 1].end_addr - 1,
        end matches Some(e) ==> upload_size(start, end, segments) == e - start + 1,
{
}

/// A read of a requested length that some segment covers transfers exactly
/// that many bytes.
pub proof fn lemma_requested_length_is_read(start: u32, length: u32, segments: Seq<MemorySegment>)
    requires
        length > 0,
        start + length <= u32::MAX,
        segments.len() > 0,
        segments.last().end_addr >= 1,
    ensures
        upload_span_fits(start, requested_end(start, length), segments),
        upload_size(start, requested_end(start, length), segments) == length,
{
}

/// The next block number after a transfer of block `block_nr`: the next one
/// when the block arrived, the same one when the transfer failed.
pub open spec fn block_after(block_nr: u16, arrived: bool) -> u16 {
    if arrived {
        (block_nr + 1) as u16
    } else {
        block_nr
    }
}

/// The next block number after transfers with the outcomes `arrived`, in
/// order, starting from block `first`.
pub open spec fn blocks_after(first: u16, arrived: Seq<bool>) -> u16
    decreases arrived.len(),
{
    if arrived.len() == 0 {
        first
    } else {
        block_after(blocks_after(first, arrived.drop_last()), arrived.last())
    }
}

/// The number of transfers among `arrived` whose block arrived.
pub open spec fn arrived_count(arrived: Seq<bool>) -> nat
    decreases arrived.len(),
{
    if arrived.len() == 0 {
        0
    } else {
        arrived_count(arrived.drop_last()) + if arrived.last() {
            1nat
        } else {
            0nat
        }
    }
}

/// A read asks for its blocks in order 0, 1, 2, ...: after any sequence of
/// transfers from a fresh read, the next block number is the number of
/// blocks that arrived.
pub proof fn lemma_blocks_are_consecutive(arrived: Seq<bool>)
    requires
        arrived_count(arrived) <= u16::MAX,
    ensures
        blocks_after(0, arrived) == arrived_count(arrived),
    decreases arrived.len(),
{
    if arrived.len() > 0 {
        lemma_blocks_are_consecutive(arrived.drop_last());
    }
}

/// The progress of a read from the device: how many bytes it covers and the
/// number of the next block to request.
pub struct DfuUpload {
    length: u32,
    block_nr: u16,
}

impl View for DfuUpload {
    /// The length of the read and the number of the next block.
    type V = (u32, u16);

    closed spec fn view(&self) -> (u32, u16) {
        (self.length, self.block_nr)
    }
}

impl DfuUpload {
    /// A read of `length` bytes that has not requested any block yet.
    pub fn new(length: u32) -> (upload: DfuUpload)
        ensures
            upload@ == (length, 0u16),
    {
        DfuUpload { length, block_nr: 0 }
    }

    pub fn get_length(&self) -> (length: u32)
        ensures
            length == self@.0,
    {
        self.length
    }

    /// The number of the block the next transfer asks for.
    pub fn block_nr(&self) -> (block_nr: u16)
        ensures
            block_nr == self@.1,
    {
        self.block_nr
    }

    /// The size of the next block to ask for, after `received` bytes have
    /// come in: the rest of the read, at most `transfer_size` bytes. The read
    /// is over (`None`) once all bytes have come in, or when the device
    /// answered the last request with an empty block.
    pub fn next_request(&self, received: usize, last_block_empty: bool, transfer_size: u16) -> (size: Option<u16>)
        ensures
            size == if last_block_empty || received >= self@.0 {
                None::<u16>
            } else if self@.0 - received < transfer_size {
                Some((self@.0 - received) as u16)
            } else {
                Some(transfer_size)
            },
    {
        if last_block_empty || received >= self.length as usize {
            None
        } else {
            let remaining = self.length as usize - received;
            if remaining < transfer_size as usize {
                Some(remaining as u16)
            } else {
                Some(transfer_size)
            }
        }
    }

    /// Accounts for the transfer of block `block_nr()`: a block that arrived
    /// moves on to the next block number, a failed transfer leaves it. The
    /// transfer's outcome is handed back unchanged.
    pub fn upload<E>(&mut self, received: Result<Vec<u8>, E>) -> (data: Result<Vec<u8>, E>)
        requires
            received is Ok ==> old(self)@.1 < u16::MAX,
        ensures
            data == received,
            final(self)@.0 == old(self)@.0,
            final(self)@.1 == block_after(old(self)@.1, received is Ok),
            received is Ok ==> final(self)@.1 == old(self)@.1 + 1,
            received is Err ==> final(self)@.1 == old(self)@.1,
    {
        if received.is_ok() {
            self.block_nr = self.block_nr + 1;
        }
        received
    }
}

} // verus!
