use rs_dfu::{
    download_bounds, download_chunks, erase_progress_line, flash_progress, flash_progress_line,
    upload_end_address, upload_length, DfuDownload, DfuUpload, DownloadChunk, FlashError,
    MemorySegment,
};

fn segment(start_addr: u32, end_addr: u32) -> MemorySegment {
    MemorySegment {
        start_addr,
        end_addr,
        page_size: 0x800,
        readable: true,
        writable: false,
        erasable: false,
    }
}

#[test]
fn upload_end_of_requested_length() {
    assert_eq!(upload_end_address(0x0800_0000, 0x100), Some(0x0800_00ff));
    assert_eq!(upload_end_address(0x0800_1000, 51640), Some(0x0800_1000 + 51640 - 1));
    assert_eq!(upload_end_address(0x0800_0000, 0), None);
    assert_eq!(upload_end_address(u32::MAX - 1, 1), Some(u32::MAX - 1));
}

#[test]
fn upload_length_without_segments_fails() {
    assert_eq!(upload_length(0x0800_0000, Some(0x0800_00ff), &[]), Err(FlashError::NoMemorySegments));
    assert_eq!(upload_length(0x0800_0000, None, &[]), Err(FlashError::NoMemorySegments));
}

#[test]
fn upload_length_of_requested_range() {
    let segs = [segment(0x0800_0000, 0x0810_0000)];
    let end = upload_end_address(0x0800_1000, 51640);
    assert_eq!(upload_length(0x0800_1000, end, &segs), Ok(51640));
}

#[test]
fn upload_length_to_end_of_last_segment() {
    let segs = [segment(0x0800_0000, 0x0801_0000), segment(0x0801_0000, 0x0810_0000)];
    assert_eq!(upload_length(0x0800_0000, None, &segs), Ok(0x0010_0000));
    assert_eq!(upload_length(0x080f_ffff, None, &segs), Ok(1));
}

#[test]
fn upload_counts_blocks() {
    let mut upload = DfuUpload::new(4096);
    assert_eq!(upload.get_length(), 4096);
    assert_eq!(upload.block_nr(), 0);
    let got: Result<Vec<u8>, String> = upload.upload(Ok(vec![1, 2, 3]));
    assert_eq!(got, Ok(vec![1, 2, 3]));
    assert_eq!(upload.block_nr(), 1);
    let failed: Result<Vec<u8>, String> = upload.upload(Err("stall".to_string()));
    assert_eq!(failed, Err("stall".to_string()));
    assert_eq!(upload.block_nr(), 1);
    let _ = upload.upload::<String>(Ok(vec![]));
    let _ = upload.upload::<String>(Ok(vec![9]));
    assert_eq!(upload.block_nr(), 3);
    assert_eq!(upload.get_length(), 4096);
}

#[test]
fn download_keeps_erase_pages() {
    let download = DfuDownload::new(vec![0x0800_0000, 0x0800_0800]);
    assert_eq!(download.get_erase_pages(), vec![0x0800_0000, 0x0800_0800]);
    assert_eq!(DfuDownload::new(vec![]).get_erase_pages(), Vec::<u32>::new());
}

#[test]
fn download_bounds_use_default_start() {
    assert_eq!(download_bounds(1024, None, 0x0800_0000), (0x0800_0000, 0x0800_03ff));
    assert_eq!(download_bounds(1024, Some(0x0802_0000), 0x0800_0000), (0x0802_0000, 0x0802_03ff));
    assert_eq!(download_bounds(1, Some(0), 0x0800_0000), (0, 0));
    assert_eq!(download_bounds(0, Some(5), 0), (5, 4));
}

#[test]
fn chunks_cut_image_into_transfer_sizes() {
    let chunks = download_chunks(5, 100, 2);
    assert_eq!(
        chunks,
        vec![
            DownloadChunk { address: 100, offset: 0, len: 2 },
            DownloadChunk { address: 102, offset: 2, len: 2 },
            DownloadChunk { address: 104, offset: 4, len: 1 },
        ]
    );
    assert_eq!(download_chunks(0, 100, 2), vec![]);
    assert_eq!(download_chunks(4096, 0x0800_0000, 2048).len(), 2);
    assert_eq!(download_chunks(3, 7, 1024), vec![DownloadChunk { address: 7, offset: 0, len: 3 }]);
}

#[test]
fn chunks_carry_whole_image_like_slice_chunks() {
    let data: Vec<u8> = (0..1000u32).map(|i| (i * 7 % 251) as u8).collect();
    let chunks = download_chunks(data.len(), 0x0800_0000, 64);
    let mut sent = Vec::new();
    for c in &chunks {
        sent.extend_from_slice(&data[c.offset..c.offset + c.len]);
    }
    assert_eq!(sent, data);
    let expected: Vec<(u32, usize)> = data
        .chunks(64)
        .enumerate()
        .map(|(i, ch)| (0x0800_0000 + (i * 64) as u32, ch.len()))
        .collect();
    let got: Vec<(u32, usize)> = chunks.iter().map(|c| (c.address, c.len)).collect();
    assert_eq!(got, expected);
}

#[test]
fn progress_percentage_and_bar() {
    let p = flash_progress(50, 100);
    assert_eq!(p.percentage, 50);
    assert_eq!(p.bar, "#".repeat(30) + &" ".repeat(30));
    let p = flash_progress(0, 7);
    assert_eq!(p.percentage, 0);
    assert_eq!(p.bar, " ".repeat(60));
    let p = flash_progress(7, 7);
    assert_eq!(p.percentage, 100);
    assert_eq!(p.bar, "#".repeat(60));
    let p = flash_progress(1, 3);
    assert_eq!(p.percentage, 33);
    assert_eq!(p.bar, "#".repeat(20) + &" ".repeat(40));
}

#[test]
fn progress_never_goes_back() {
    let total = 997;
    let mut last = (0, 0);
    for done in 0..=total {
        let p = flash_progress(done, total);
        let filled = p.bar.chars().filter(|c| *c == '#').count();
        assert!(p.percentage >= last.0 && filled >= last.1);
        last = (p.percentage, filled);
    }
    assert_eq!(last, (100, 60));
}

#[test]
fn flash_line_matches_format() {
    for (done, total) in [(0usize, 10usize), (5, 10), (10, 10), (1, 3), (12345, 51640)] {
        let percentage = (100 * done) / total;
        let filled = (60 * done) / total;
        let expected = format!(
            "\r  Flashing {:3}% [{}]",
            percentage,
            "#".repeat(filled) + &" ".repeat(60 - filled)
        );
        assert_eq!(flash_progress_line(done, total), expected);
    }
}

#[test]
fn erase_line_matches_format() {
    for (i, total, page) in [(0usize, 3usize, 0x0800_0000u32), (9, 12, 0x0801_2800), (99, 120, 0xfff)] {
        let expected = format!("\r  Erasing page {:2} of {:2} @ 0x{:08x}", i + 1, total, page);
        assert_eq!(erase_progress_line(i, total, page), expected);
    }
}

#[test]
fn chunks_stay_within_erased_range() {
    for (len, start, size) in [(1usize, 0x0800_0000u32, 2048u16), (4097, 0x0800_0000, 2048), (77, 0x2000_0000, 7)] {
        let (first, last) = download_bounds(len, Some(start), 0);
        for c in download_chunks(len, start, size) {
            assert!(first <= c.address);
            assert!(c.address + c.len as u32 - 1 <= last);
        }
    }
}

#[test]
fn read_requests_cover_the_length() {
    let upload = DfuUpload::new(5000);
    assert_eq!(upload.next_request(0, false, 2048), Some(2048));
    assert_eq!(upload.next_request(4096, false, 2048), Some(904));
    assert_eq!(upload.next_request(5000, false, 2048), None);
    assert_eq!(upload.next_request(6000, false, 2048), None);
    assert_eq!(upload.next_request(2048, true, 2048), None);
    let mut received = 0usize;
    let mut sizes = Vec::new();
    while let Some(size) = upload.next_request(received, false, 1024) {
        sizes.push(size);
        received += size as usize;
    }
    assert_eq!(received, 5000);
    assert_eq!(sizes, vec![1024, 1024, 1024, 1024, 904]);
}

#[test]
fn upload_length_with_requested_end() {
    let segs = [segment(0x0800_0000, 0x0810_0000)];
    assert_eq!(upload_length(0x0800_0000, Some(0x0800_0000), &segs), Ok(1));
    assert_eq!(upload_length(0, Some(u32::MAX - 1), &[segment(0, 1)]), Ok(u32::MAX));
}
