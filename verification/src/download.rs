use vstd::prelude::*;

use crate::text::{decimal_padded, decimal_text, hex_fixed, hex_text, pad_left};

verus! {

/// A write to the device, prepared with the flash pages that have to be
/// erased before it.
pub struct DfuDownload {
    erase_pages: Vec<u32>,
}

impl View for DfuDownload {
    /// The addresses of the pages to erase.
    type V = Seq<u32>;

    closed spec fn view(&self) -> Seq<u32> {
        self.erase_pages@
    }
}

impl DfuDownload {
    pub fn new(erase_pages: Vec<u32>) -> (download: DfuDownload)
        ensures
            download@ == erase_pages@,
    {
        DfuDownload { erase_pages }
    }

    pub fn get_erase_pages(&self) -> (pages: Vec<u32>)
        ensures
            pages@ == self@,
    {
        let pages = self.erase_pages.clone();
        assert(pages@ =~= self.erase_pages@);
        pages
    }
}

/// The address a raw image is written at: the one asked for, or else the
/// device's default start address.
pub open spec fn image_start(start_address: Option<u32>, default_start: u32) -> u32 {
    match start_address {
        Some(a) => a,
        None => default_start,
    }
}

/// A raw image goes to the start address that was asked for, whatever its
/// value, and to the device's default start address only when none was.
pub proof fn lemma_image_start_is_requested(a: u32, default_start: u32)
    ensures
        image_start(Some(a), default_start) == a,
        image_start(None, default_start) == default_start,
{
}

/// The first and last address a raw image of `data_len` bytes occupies.
/// The length is taken modulo 2^32, as a 32-bit address computation does.
pub fn download_bounds(data_len: usize, start_address: Option<u32>, default_start: u32) -> (bounds: (
    u32,
    u32,
))
    requires
        1 <= image_start(start_address, default_start) + (data_len as u32) <= u32::MAX,
    ensures
        bounds.0 == image_start(start_address, default_start),
        bounds.1 == image_start(start_address, default_start) + (data_len as u32) - 1,
        start_address matches Some(a) ==> bounds.0 == a,
        start_address is None ==> bounds.0 == default_start,
        bounds.1 == bounds.0 + (data_len as u32) - 1,
{
    let start = match start_address {
        Some(a) => a,
        None => default_start,
    };
    let len = data_len as u32;
    (start, start + len - 1)
}

/// One transfer of a write: `len` bytes of the image, taken from `offset`,
/// sent to `address`.
#[derive(Debug, Clone, Copy, PartialEq, Eq, Structural)]
pub struct DownloadChunk {
    pub address: u32,
    pub offset: usize,
    pub len: usize,
}

/// `chunks` cuts an image of `data_len` bytes, written at `start`, into
/// consecutive transfers of `size` bytes, the last one possibly shorter.
pub open spec fn is_chunk_plan(chunks: Seq<DownloadChunk>, data_len: int, start: int, size: int) -> bool {
    &&& (chunks.len() == 0 <==> data_len == 0)
    &&& chunks.len() > 0 ==> chunks[0].offset == 0
    &&& chunks.len() > 0 ==> chunks.last().offset + chunks.last().len == data_len
    &&& forall|i: int|
        0 <= i < chunks.len() ==> {
            &&& (#[trigger] chunks[i]).address == start + chunks[i].offset
            &&& 0 < chunks[i].len <= size
        }
    &&& forall|i: int| 0 <= i < chunks.len() - 1 ==> (#[trigger] chunks[i]).len == size
    &&& forall|i: int|
        0 <= i < chunks.len() - 1 ==> #[trigger] chunks[i + 1].offset == chunks[i].offset
            + chunks[i].len
}

/// Cuts an image of `data_len` bytes, written at `start`, into transfers of
/// at most `transfer_size` bytes, in order.
pub fn download_chunks(data_len: usize, start: u32, transfer_size: u16) -> (chunks: Vec<
    DownloadChunk,
>)
    requires
        transfer_size > 0,
        start + data_len <= u32::MAX,
    ensures
        is_chunk_plan(chunks@, data_len as int, start as int, transfer_size as int),
{
    let size = transfer_size as usize;
    let mut chunks: Vec<DownloadChunk> = Vec::new();
    let mut offset: usize = 0;
    while offset < data_len
        invariant
            size == transfer_size,
            size > 0,
            start + data_len <= u32::MAX,
            offset <= data_len,
            chunks@.len() == 0 <==> offset == 0,
            chunks@.len() > 0 ==> chunks@[0].offset == 0,
            chunks@.len() > 0 ==> chunks@.last().offset + chunks@.last().len == offset,
            forall|i: int|
                0 <= i < chunks@.len() ==> {
                    &&& (#[trigger] chunks@[i]).address == start + chunks@[i].offset
                    &&& 0 < chunks@[i].len <= size
                },
            forall|i: int|
                0 <= i < chunks@.len() ==> (#[trigger] chunks@[i]).len == size || (i
                    == chunks@.len() - 1 && offset == data_len),
            forall|i: int|
                0 <= i < chunks@.len() - 1 ==> #[trigger] chunks@[i + 1].offset
                    == chunks@[i].offset + chunks@[i].len,
        decreases data_len - offset,
    {
        let len = if data_len - offset < size {
            data_len - offset
        } else {
            size
        };
        let ghost old_chunks = chunks@;
        chunks.push(DownloadChunk { address: start + offset as u32, offset, len });
        assert(chunks@ == old_chunks.push(DownloadChunk { address: (start + offset) as u32, offset, len }));
        offset = offset + len;
    }
    chunks
}

/// The bytes of `data` that a transfer carries.
pub open spec fn chunk_bytes(data: Seq<u8>, chunk: DownloadChunk) -> Seq<u8> {
    data.subrange(chunk.offset as int, chunk.offset + chunk.len)
}

/// The bytes that the transfers `chunks` carry, one after the other.
pub open spec fn sent_bytes(data: Seq<u8>, chunks: Seq<DownloadChunk>) -> Seq<u8>
    decreases chunks.len(),
{
    if chunks.len() == 0 {
        Seq::empty()
    } else {
        sent_bytes(data, chunks.drop_last()) + chunk_bytes(data, chunks.last())
    }
}

proof fn lemma_sent_prefix(data: Seq<u8>, chunks: Seq<DownloadChunk>, start: int, size: int, k: int)
    requires
        is_chunk_plan(chunks, data.len() as int, start, size),
        0 < k <= chunks.len(),
    ensures
        sent_bytes(data, chunks.take(k)) == data.subrange(0, chunks[k - 1].offset + chunks[k - 1].len),
    decreases k,
{
    let prefix = chunks.take(k);
    assert(prefix.drop_last() == chunks.take(k - 1));
    assert(prefix.last() == chunks[k - 1]);
    if k == 1 {
        assert(chunks.take(0).len() == 0);
        assert(sent_bytes(data, chunks.take(0)) == Seq::<u8>::empty());
        assert(data.subrange(0, chunks[0].offset + chunks[0].len) =~= Seq::<u8>::empty()
            + chunk_bytes(data, chunks[0]));
    } else {
        lemma_sent_prefix(data, chunks, start, size, k - 1);
        let mid = chunks[k - 2].offset + chunks[k - 2].len;
        assert(chunks[(k - 2) + 1].offset == chunks[k - 2].offset + chunks[k - 2].len);
        lemma_offsets_in_bounds(chunks, data.len() as int, start, size, k - 1);
        assert(data.subrange(0, mid) + data.subrange(mid, mid + chunks[k - 1].len) =~= data.subrange(
            0,
            mid + chunks[k - 1].len,
        ));
    }
}

proof fn lemma_offsets_in_bounds(chunks: Seq<DownloadChunk>, data_len: int, start: int, size: int, k: int)
    requires
        is_chunk_plan(chunks, data_len, start, size),
        0 <= k < chunks.len(),
    ensures
        0 <= chunks[k].offset,
        chunks[k].offset + chunks[k].len <= data_len,
    decreases chunks.len() - k,
{
    if k < chunks.len() - 1 {
        lemma_offsets_in_bounds(chunks, data_len, start, size, k + 1);
        assert(chunks[k + 1].offset == chunks[k].offset + chunks[k].len);
    }
}

/// The transfers of a write carry the whole image, in order, each byte once.
pub proof fn lemma_chunks_carry_image(data: Seq<u8>, chunks: Seq<DownloadChunk>, start: int, size: int)
    requires
        is_chunk_plan(chunks, data.len() as int, start, size),
    ensures
        sent_bytes(data, chunks) == data,
{
    if chunks.len() == 0 {
        assert(data =~= Seq::<u8>::empty());
    } else {
        lemma_sent_prefix(data, chunks, start, size, chunks.len() as int);
        assert(chunks.take(chunks.len() as int) =~= chunks);
        assert(data.subrange(0, data.len() as int) =~= data);
    }
}

/// Transfer `i` of a write starts `i` transfer sizes into the image, and a
/// write of `data_len` bytes takes `data_len / size` transfers, rounded up.
pub proof fn lemma_chunk_offsets(chunks: Seq<DownloadChunk>, data_len: int, start: int, size: int)
    requires
        is_chunk_plan(chunks, data_len, start, size),
        size > 0,
    ensures
        forall|i: int| 0 <= i < chunks.len() ==> (#[trigger] chunks[i]).offset == i * size,
        chunks.len() == (data_len + size - 1) / size,
{
    assert forall|i: int| 0 <= i < chunks.len() implies (#[trigger] chunks[i]).offset == i * size by {
        lemma_offset_at(chunks, data_len, start, size, i);
    }
    if chunks.len() > 0 {
        let k = chunks.len() - 1;
        lemma_offset_at(chunks, data_len, start, size, k);
        let last_len = chunks[k].len as int;
        assert(data_len == k * size + last_len);
        assert((data_len + size - 1) / size == k + 1) by (nonlinear_arith)
            requires
                data_len == k * size + last_len,
                0 < last_len <= size,
                k >= 0,
        ;
    } else {
        assert(data_len == 0);
        assert((data_len + size - 1) / size == 0) by (nonlinear_arith)
            requires
                data_len == 0,
                size > 0,
        ;
    }
}

proof fn lemma_offset_at(chunks: Seq<DownloadChunk>, data_len: int, start: int, size: int, i: int)
    requires
        is_chunk_plan(chunks, data_len, start, size),
        0 <= i < chunks.len(),
    ensures
        chunks[i].offset == i * size,
    decreases i,
{
    if i > 0 {
        lemma_offset_at(chunks, data_len, start, size, i - 1);
        assert(chunks[(i - 1) + 1].offset == chunks[i - 1].offset + chunks[i - 1].len);
        assert(chunks[i - 1].len == size);
        assert(i * size == (i - 1) * size + size) by (nonlinear_arith);
    } else {
        assert(0 * size == 0) by (nonlinear_arith);
    }
}

/// Every transfer of a write stays inside the address range that
/// `download_bounds` gives for the image, so the pages erased for that range
/// cover all the bytes sent.
pub proof fn lemma_chunks_within_bounds(chunks: Seq<DownloadChunk>, data_len: int, start: int, size: int)
    requires
        is_chunk_plan(chunks, data_len, start, size),
    ensures
        forall|i: int|
            0 <= i < chunks.len() ==> start <= (#[trigger] chunks[i]).address && chunks[i].address
                + chunks[i].len - 1 <= start + data_len - 1,
{
    assert forall|i: int| 0 <= i < chunks.len() implies start <= (#[trigger] chunks[i]).address
        && chunks[i].address + chunks[i].len - 1 <= start + data_len - 1 by {
        lemma_offsets_in_bounds(chunks, data_len, start, size, i);
    }
}

/// A progress bar with `filled` of its 60 cells marked.
pub open spec fn progress_bar(filled: int) -> Seq<char> {
    Seq::new(60, |i: int| if i < filled { '#' } else { ' ' })
}

/// The percentage shown after `done` of `total` bytes.
pub open spec fn percent_done(done: int, total: int) -> int {
    100 * done / total
}

/// The number of marked bar cells after `done` of `total` bytes.
pub open spec fn cells_done(done: int, total: int) -> int {
    60 * done / total
}

/// How far a write has got: a percentage and a bar of 60 cells.
pub struct FlashProgress {
    pub percentage: usize,
    pub bar: String,
}

/// The progress after `done` of `total` bytes.
pub fn flash_progress(done: usize, total: usize) -> (progress: FlashProgress)
    requires
        0 < total,
        done <= total,
        100 * done <= usize::MAX,
    ensures
        progress.percentage == percent_done(done as int, total as int),
        progress.percentage <= 100,
        progress.bar@ == progress_bar(cells_done(done as int, total as int)),
        progress.percentage * total <= 100 * done < (progress.percentage + 1) * total,
        progress.bar@.len() == 60,
        forall|i: int|
            0 <= i < 60 ==> #[trigger] progress.bar@[i] == if (i + 1) * total <= 60 * done {
                '#'
            } else {
                ' '
            },
{
    let percentage = (100 * done) / total;
    let filled = (60 * done) / total;
    assert(percent_done(done as int, total as int) <= 100) by (nonlinear_arith)
        requires
            0 < total,
            done <= total,
    ;
    assert(cells_done(done as int, total as int) <= 60) by (nonlinear_arith)
        requires
            0 < total,
            done <= total,
    ;
    let mut bar = String::new();
    let mut i: usize = 0;
    proof {
        reveal_strlit("#");
        reveal_strlit(" ");
    }
    while i < 60
        invariant
            filled <= 60,
            i <= 60,
            "#"@ == seq!['#'],
            " "@ == seq![' '],
            bar@ == Seq::new(i as nat, |j: int| if j < filled { '#' } else { ' ' }),
        decreases 60 - i,
    {
        if i < filled {
            bar.append("#");
        } else {
            bar.append(" ");
        }
        i = i + 1;
        assert(bar@ =~= Seq::new(i as nat, |j: int| if j < filled { '#' } else { ' ' }));
    }
    proof {
        let t = total as int;
        let p = percentage as int;
        let f = filled as int;
        assert(p * t <= 100 * done < (p + 1) * t) by (nonlinear_arith)
            requires
                t > 0,
                p == (100 * done) / t,
        ;
        assert forall|i: int| 0 <= i < 60 implies #[trigger] bar@[i] == if (i + 1) * t <= 60 * done {
            '#'
        } else {
            ' '
        } by {
            assert(f * t <= 60 * done < (f + 1) * t) by (nonlinear_arith)
                requires
                    t > 0,
                    f == (60 * done) / t,
            ;
            assert((i < f <==> (i + 1) * t <= 60 * done)) by (nonlinear_arith)
                requires
                    t > 0,
                    f * t <= 60 * done,
                    60 * done < (f + 1) * t,
            ;
        }
    }
    FlashProgress { percentage, bar }
}

/// The status line of a write after `done` of `total` bytes, such as
/// `\r  Flashing  50% [###   ...]`.
pub open spec fn flash_line(done: int, total: int) -> Seq<char> {
    "\r  Flashing "@ + pad_left(decimal_text(percent_done(done, total) as nat), 3) + "% ["@
        + progress_bar(cells_done(done, total)) + "]"@
}

/// The status line of a write after `done` of `total` bytes.
pub fn flash_progress_line(done: usize, total: usize) -> (line: String)
    requires
        0 < total,
        done <= total,
        100 * done <= usize::MAX,
    ensures
        line@ == flash_line(done as int, total as int),
{
    let progress = flash_progress(done, total);
    let mut line = String::new();
    line.append("\r  Flashing ");
    line.append(decimal_padded(progress.percentage, 3).as_str());
    line.append("% [");
    line.append(progress.bar.as_str());
    line.append("]");
    line
}

/// The status line while erasing page number `index` (counting from zero)
/// of `total` pages, at address `page`.
pub open spec fn erase_line(index: int, total: int, page: u32) -> Seq<char> {
    "\r  Erasing page "@ + pad_left(decimal_text((index + 1) as nat), 2) + " of "@ + pad_left(
        decimal_text(total as nat),
        2,
    ) + " @ 0x"@ + hex_text(page as nat, 8)
}

/// The status line while erasing page number `index` (counting from zero)
/// of `total` pages, at address `page`.
pub fn erase_progress_line(index: usize, total: usize, page: u32) -> (line: String)
    requires
        index < total,
    ensures
        line@ == erase_line(index as int, total as int, page),
{
    let mut line = String::new();
    line.append("\r  Erasing page ");
    line.append(decimal_padded(index + 1, 2).as_str());
    line.append(" of ");
    line.append(decimal_padded(total, 2).as_str());
    line.append(" @ 0x");
    line.append(hex_fixed(page, 8).as_str());
    line
}

/// Progress never goes back: more bytes written give at least the same
/// percentage and at least as many marked cells.
pub proof fn lemma_progress_monotone(done1: int, done2: int, total: int)
    requires
        0 < total,
        0 <= done1 <= done2 <= total,
    ensures
        percent_done(done1, total) <= percent_done(done2, total),
        cells_done(done1, total) <= cells_done(done2, total),
        percent_done(total, total) == 100,
        cells_done(total, total) == 60,
{
    assert(100 * done1 / total <= 100 * done2 / total) by (nonlinear_arith)
        requires
            0 < total,
            0 <= done1 <= done2,
    ;
    assert(60 * done1 / total <= 60 * done2 / total) by (nonlinear_arith)
        requires
            0 < total,
            0 <= done1 <= done2,
    ;
    assert(100 * total / total == 100) by (nonlinear_arith)
        requires
            0 < total,
    ;
    assert(60 * total / total == 60) by (nonlinear_arith)
        requires
            0 < total,
    ;
}

} // verus!
