use rs_dfu::{
    bootloader_tag, tag_end_address, FinishAction, FlashError, FlashSession, RangeAction,
    UF2AddressRange,
};

#[test]
fn empty_range_is_blank() {
    let range = UF2AddressRange::new_empty();
    assert_eq!(range.start_address(), 0);
    assert!(range.payload().is_empty());
    let mut addr = 0x1234;
    assert!(!range.reboot_address(&mut addr));
    assert_eq!(addr, 0x1234);
}

#[test]
fn reboot_address_is_written_out() {
    let range = UF2AddressRange::new(0x2000_0000, vec![1, 2, 3, 4], Some(0x0800_0000));
    assert_eq!(range.start_address(), 0x2000_0000);
    assert_eq!(range.payload(), &[1, 2, 3, 4]);
    let mut addr = 0;
    assert!(range.reboot_address(&mut addr));
    assert_eq!(addr, 0x0800_0000);
    assert_eq!(range.reboot_target(), Some(0x0800_0000));
}

#[test]
fn assign_next_replaces_or_keeps() {
    let mut range = UF2AddressRange::new_empty();
    assert!(range.assign_next(Some(UF2AddressRange::new(0x0800_0000, vec![7; 16], None))));
    assert_eq!(range.start_address(), 0x0800_0000);
    assert_eq!(range.payload().len(), 16);
    assert!(!range.assign_next(None));
    assert_eq!(range.start_address(), 0x0800_0000);
    assert_eq!(range.payload().len(), 16);
}

#[test]
fn describe_matches_listing_format() {
    let cases = [
        UF2AddressRange::new(0x0800_0000, vec![0; 1024], None),
        UF2AddressRange::new(0x2000_0000, vec![0; 4], Some(0x0800_0000)),
        UF2AddressRange::new(0xdead_beef, vec![0; 12_345_678], None),
        UF2AddressRange::new(0, vec![], Some(0xabc)),
    ];
    for range in cases.iter() {
        let expected = format!(
            "  - 0x{:08x}: {:7} bytes{}",
            range.start_address(),
            range.payload().len(),
            if let Some(addr) = range.reboot_target() {
                format!(" (reboot @ 0x{:08x})", addr)
            } else {
                "".into()
            }
        );
        assert_eq!(range.describe(), expected);
    }
}

#[test]
fn session_downloads_plain_ranges_and_leaves() {
    let mut session = FlashSession::new();
    let a = UF2AddressRange::new(0x0800_0000, vec![0; 256], None);
    let b = UF2AddressRange::new(0x0800_0100, vec![0; 256], None);
    assert_eq!(session.visit_range(&a), RangeAction::Download { address: 0x0800_0000 });
    assert_eq!(session.visit_range(&b), RangeAction::Download { address: 0x0800_0100 });
    assert_eq!(session.finish(false), Ok(FinishAction::Leave));
    assert_eq!(session.finish(true), Err(FlashError::MissingRebootRange));
}

#[test]
fn session_reboots_into_last_reboot_range() {
    let mut session = FlashSession::new();
    let r1 = UF2AddressRange::new(0x2000_0000, vec![0; 4], Some(0x0800_0000));
    let data = UF2AddressRange::new(0x0802_0000, vec![0; 256], None);
    let r2 = UF2AddressRange::new(0x2000_0004, vec![0; 4], Some(0x0802_0000));
    assert_eq!(
        session.visit_range(&r1),
        RangeAction::Reboot { address: 0x2000_0000, reboot_address: 0x0800_0000 }
    );
    assert_eq!(session.visit_range(&data), RangeAction::Download { address: 0x0802_0000 });
    assert_eq!(
        session.finish(true),
        Ok(FinishAction::RebootToBootloader { magic_address: 0x2000_0000, bootloader_address: 0x0800_0000 })
    );
    assert_eq!(
        session.visit_range(&r2),
        RangeAction::Reboot { address: 0x2000_0004, reboot_address: 0x0802_0000 }
    );
    assert_eq!(
        session.finish(true),
        Ok(FinishAction::RebootToBootloader { magic_address: 0x2000_0004, bootloader_address: 0x0802_0000 })
    );
    assert_eq!(session.finish(false), Ok(FinishAction::Leave));
}

#[test]
fn bootloader_tag_is_bbld() {
    assert_eq!(&bootloader_tag(), b"BBLD");
    assert_eq!(tag_end_address(0x2000_0000), 0x2000_0003);
    assert_eq!(tag_end_address(u32::MAX - 3), u32::MAX);
}
