use rs_dfu::{
    find_calibration_interface, reconnect_step, rediscover, select_device, DeviceInfo,
    DfuDeviceFilter, DfuInterface, FlashError, MemorySegment, RECONNECT_TIMEOUT_SECS,
};

fn segment(start_addr: u32, end_addr: u32) -> MemorySegment {
    MemorySegment {
        start_addr,
        end_addr,
        page_size: 0x800,
        readable: true,
        writable: true,
        erasable: true,
    }
}

#[test]
fn empty_filter_matches_everything() {
    let filter = DfuDeviceFilter::empty_filter();
    assert_eq!(filter.vendor_id(), None);
    assert_eq!(filter.product_id(), None);
}

#[test]
fn filter_keeps_vendor_and_product() {
    let mut filter = DfuDeviceFilter::empty_filter();
    filter.with_vendor_id(0x0483);
    assert_eq!(filter.vendor_id(), Some(0x0483));
    assert_eq!(filter.product_id(), None);
    filter.with_product_id(0xdf11);
    assert_eq!(filter.vendor_id(), Some(0x0483));
    assert_eq!(filter.product_id(), Some(0xdf11));
}

#[test]
fn filter_settings_commute_and_last_wins() {
    let mut a = DfuDeviceFilter::empty_filter();
    a.with_vendor_id(0x0483);
    a.with_product_id(0xdf11);
    let mut b = DfuDeviceFilter::empty_filter();
    b.with_product_id(0xdf11);
    b.with_vendor_id(0x0483);
    assert_eq!((a.vendor_id(), a.product_id()), (b.vendor_id(), b.product_id()));
    a.with_vendor_id(0x1209);
    assert_eq!(a.vendor_id(), Some(0x1209));
    a.with_product_id(0x4f54);
    assert_eq!(a.product_id(), Some(0x4f54));
}

#[test]
fn device_info_without_product_string_is_empty() {
    let info = DeviceInfo::new(0x0483, 0xdf11, None);
    assert_eq!(info.vendor_id, 0x0483);
    assert_eq!(info.product_id, 0xdf11);
    assert_eq!(info.product_string, "");
    let info = DeviceInfo::new(1, 2, Some("STM32  BOOTLOADER"));
    assert_eq!(info.product_string, "STM32  BOOTLOADER");
}

#[test]
fn interface_getters_return_what_was_given() {
    let intf = DfuInterface::new(0, 1, "@Internal Flash".to_string(), vec![segment(0x0800_0000, 0x0810_0000)]);
    assert_eq!(intf.interface_nr(), 0);
    assert_eq!(intf.alt_setting(), 1);
    assert_eq!(intf.name(), "@Internal Flash");
    assert_eq!(intf.segments(), vec![segment(0x0800_0000, 0x0810_0000)]);
}

#[test]
fn erase_span_covers_all_segments() {
    let intf = DfuInterface::new(
        0,
        2,
        "@CALIBFLASH".to_string(),
        vec![segment(0x0810_0000, 0x0810_4000), segment(0x0810_4000, 0x0810_8000)],
    );
    assert_eq!(intf.erase_span(), (0x0810_0000, 0x0810_7fff));
}

#[test]
fn calibration_interface_is_found_by_name() {
    let interfaces = vec![
        DfuInterface::new(0, 0, "@Internal Flash  /0x08000000/256*08Kg".to_string(), vec![]),
        DfuInterface::new(0, 1, "@ext CALIBFLASH /0x90000000/1*4Kg".to_string(), vec![]),
        DfuInterface::new(0, 2, "@CALIBFLASH".to_string(), vec![]),
    ];
    assert_eq!(find_calibration_interface(&interfaces), Some(1));
}

#[test]
fn calibration_interface_absent() {
    let interfaces = vec![
        DfuInterface::new(0, 0, "@Internal Flash".to_string(), vec![]),
        DfuInterface::new(0, 1, "@CALIBFLAS".to_string(), vec![]),
        DfuInterface::new(0, 2, "calibflash".to_string(), vec![]),
    ];
    assert_eq!(find_calibration_interface(&interfaces), None);
    assert_eq!(find_calibration_interface(&Vec::new()), None);
}

#[test]
fn select_device_needs_exactly_one() {
    assert_eq!(select_device::<u8>(vec![]), Err(FlashError::NoDFUDevice));
    assert_eq!(select_device(vec![1u8, 2u8]), Err(FlashError::ManyDFUDevices));
    assert_eq!(select_device(vec![7u8]), Ok(7u8));
}

#[test]
fn rediscover_takes_first_found() {
    let mut current = 1u32;
    assert!(rediscover(&mut current, vec![5, 6]));
    assert_eq!(current, 5);
    assert!(!rediscover(&mut current, vec![]));
    assert_eq!(current, 5);
}

#[test]
fn reconnect_step_decides() {
    assert_eq!(reconnect_step(vec![3u8, 4u8], 100), Ok(Some(3u8)));
    assert_eq!(reconnect_step::<u8>(vec![], RECONNECT_TIMEOUT_SECS), Err(FlashError::Timeout));
    assert_eq!(reconnect_step::<u8>(vec![], 29), Ok(None));
    assert_eq!(RECONNECT_TIMEOUT_SECS, 30);
}
