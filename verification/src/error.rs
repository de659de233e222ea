use vstd::prelude::*;

verus! {

/// The failures that the flashing logic itself decides on. Failures of the
/// USB transfers and of file access are reported by the code that performs
/// them.
#[derive(Debug, Clone, Copy, PartialEq, Eq, Structural)]
pub enum FlashError {
    /// No memory segment of the device covers the requested addresses.
    NoMemorySegments,
    /// The device did not come back within the reconnection time limit.
    Timeout,
    /// No DFU device matched the filter.
    NoDFUDevice,
    /// More than one DFU device matched the filter.
    ManyDFUDevices,
    /// Rebooting into the bootloader was asked for, but the UF2 image had no
    /// range that carries a reboot address.
    MissingRebootRange,
    /// The device exposes no interface whose name mentions the calibration
    /// flash.
    CalibrationNotFound,
}

} // verus!
