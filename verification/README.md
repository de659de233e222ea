# rs_dfu

The decisions behind flashing STM32 devices (EdgeTX radios) in DFU mode,
written in Verus and proved against their contracts.

- `src/filter.rs`: the vendor/product filter for finding devices.
- `src/device.rs`: memory segments, device identification, DFU interfaces,
  and finding the calibration-flash interface by name.
- `src/selection.rs`: choosing the one device to work with, rediscovering a
  device, and waiting for a restarted device to come back.
- `src/upload.rs`: how many bytes a read covers, and the block numbering of a
  read.
- `src/download.rs`: where a raw image goes, how it is cut into transfers,
  and the progress lines of erasing and flashing.
- `src/uf2_image.rs`: UF2 address ranges, the range-by-range decisions of
  writing a UF2 image (reboot ranges, restarting into the bootloader), and the
  listing line of a range.
- `src/args.rs`: reading vendor/product IDs and lengths from the command line.
- `src/text.rs`: hexadecimal and padded decimal notation.

`app/` holds the `rdfu` command line and the C++ bridge: they perform the USB
transfers and file access through the DFU and UF2 layers and follow the
decisions of the library.
