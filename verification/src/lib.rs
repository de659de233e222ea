//! Device-selection, upload/download planning and UF2 range handling for
//! flashing STM32 devices in DFU mode.

pub mod args;
pub mod device;
pub mod download;
pub mod error;
pub mod filter;
pub mod selection;
pub mod text;
pub mod uf2_image;
pub mod upload;

pub use args::{hex_u16, parse_length, parse_size_panics, size_to_length};
pub use device::{find_calibration_interface, DeviceInfo, DfuInterface, MemorySegment};
pub use download::{
    download_bounds, download_chunks, erase_progress_line, flash_progress, flash_progress_line,
    DfuDownload, DownloadChunk, FlashProgress,
};
pub use error::FlashError;
pub use filter::DfuDeviceFilter;
pub use text::{decimal, decimal_padded, hex_fixed};
pub use selection::{reconnect_step, rediscover, select_device, RECONNECT_TIMEOUT_SECS};
pub use uf2_image::{
    bootloader_tag, tag_end_address, FinishAction, FlashSession, RangeAction, UF2AddressRange,
};
pub use upload::{upload_end_address, upload_length, DfuUpload};
