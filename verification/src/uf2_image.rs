use vstd::prelude::*;

use crate::error::FlashError;
use crate::text::{decimal_padded, decimal_text, hex_fixed, hex_text, pad_left};

verus! {

/// One contiguous range of a UF2 image: where it goes, its bytes, and, for a
/// range that asks the device to restart, the address to restart into.
pub struct UF2AddressRange {
    start_address: u32,
    payload: Vec<u8>,
    reboot_address: Option<u32>,
}

impl View for UF2AddressRange {
    /// Start address, payload and reboot address.
    type V = (u32, Seq<u8>, Option<u32>);

    closed spec fn view(&self) -> (u32, Seq<u8>, Option<u32>) {
        (self.start_address, self.payload@, self.reboot_address)
    }
}

impl UF2AddressRange {
    pub fn new(start_address: u32, payload: Vec<u8>, reboot_address: Option<u32>) -> (range: UF2AddressRange)
        ensures
            range@ == (start_address, payload@, reboot_address),
    {
        UF2AddressRange { start_address, payload, reboot_address }
    }

    /// An empty range at address zero, to be filled by the range iteration.
    pub fn new_empty() -> (range: Box<UF2AddressRange>)
        ensures
            range@ == (0u32, Seq::<u8>::empty(), None::<u32>),
    {
        Box::new(UF2AddressRange { start_address: 0, payload: Vec::new(), reboot_address: None })
    }

    pub fn start_address(&self) -> (addr: u32)
        ensures
            addr == self@.0,
    {
        self.start_address
    }

    pub fn payload(&self) -> (payload: &[u8])
        ensures
            payload@ == self@.1,
    {
        self.payload.as_slice()
    }

    /// Writes the reboot address into `addr` and returns `true` when the range
    /// carries one; otherwise leaves `addr` alone and returns `false`.
    pub fn reboot_address(&self, addr: &mut u32) -> (has_reboot: bool)
        ensures
            has_reboot == self@.2 is Some,
            has_reboot ==> *final(addr) == self@.2->0,
            !has_reboot ==> *final(addr) == *old(addr),
    {
        match self.reboot_address {
            Some(val) => {
                *addr = val;
                true
            },
            None => false,
        }
    }

    /// The reboot address, if the range carries one.
    pub fn reboot_target(&self) -> (target: Option<u32>)
        ensures
            target == self@.2,
    {
        self.reboot_address
    }

    /// Takes the next range of an iteration: when there is one it replaces
    /// this range and the answer is `true`; at the end of the iteration this
    /// range stays as it was and the answer is `false`.
    pub fn assign_next(&mut self, next: Option<UF2AddressRange>) -> (advanced: bool)
        ensures
            advanced == next is Some,
            advanced ==> final(self)@ == next->0@,
            !advanced ==> final(self)@ == old(self)@,
    {
        match next {
            Some(range) => {
                *self = range;
                true
            },
            None => false,
        }
    }
}

/// The line that lists a range of a UF2 image: its start address, its size
/// and, for a reboot range, the reboot address.
pub open spec fn range_line(range: (u32, Seq<u8>, Option<u32>)) -> Seq<char> {
    "  - 0x"@ + hex_text(range.0 as nat, 8) + ": "@ + pad_left(decimal_text(range.1.len()), 7)
        + " bytes"@ + match range.2 {
        Some(reboot) => " (reboot @ 0x"@ + hex_text(reboot as nat, 8) + ")"@,
        None => Seq::empty(),
    }
}

impl UF2AddressRange {
    /// Describes the range in one line, such as
    /// `  - 0x08000000:    1024 bytes`.
    pub fn describe(&self) -> (line: String)
        ensures
            line@ == range_line(self@),
            self@.2 is None ==> line@ == "  - 0x"@ + hex_text(self@.0 as nat, 8) + ": "@ + pad_left(
                decimal_text(self@.1.len()),
                7,
            ) + " bytes"@,
            self@.2 matches Some(reboot) ==> line@ == "  - 0x"@ + hex_text(self@.0 as nat, 8) + ": "@
                + pad_left(decimal_text(self@.1.len()), 7) + " bytes"@ + " (reboot @ 0x"@ + hex_text(
                reboot as nat,
                8,
            ) + ")"@,
    {
        let mut line = String::new();
        line.append("  - 0x");
        line.append(hex_fixed(self.start_address, 8).as_str());
        line.append(": ");
        line.append(decimal_padded(self.payload.len(), 7).as_str());
        line.append(" bytes");
        let ghost main_part = line@;
        match self.reboot_address {
            Some(reboot) => {
                line.append(" (reboot @ 0x");
                line.append(hex_fixed(reboot, 8).as_str());
                line.append(")");
            },
            None => {
                assert(main_part + Seq::<char>::empty() =~= main_part);
            },
        }
        line
    }
}

/// What to do with one range of a UF2 image.
#[derive(Debug, Clone, Copy, PartialEq, Eq, Structural)]
pub enum RangeAction {
    /// Write the payload at `address` and restart the device at
    /// `reboot_address`, then wait for it to come back.
    Reboot { address: u32, reboot_address: u32 },
    /// Flash the payload at `address`.
    Download { address: u32 },
}

/// What to do once every range of the image is written.
#[derive(Debug, Clone, Copy, PartialEq, Eq, Structural)]
pub enum FinishAction {
    /// Leave DFU mode and start the firmware.
    Leave,
    /// Write the bootloader tag at `magic_address` and restart at
    /// `bootloader_address`.
    RebootToBootloader { magic_address: u32, bootloader_address: u32 },
}

/// The reboot range an image has shown so far: the address of its payload
/// and the address it restarts into.
pub open spec fn after_range(
    seen: Option<(u32, u32)>,
    range: (u32, Seq<u8>, Option<u32>),
) -> Option<(u32, u32)> {
    match range.2 {
        Some(reboot) => Some((range.0, reboot)),
        None => seen,
    }
}

/// The reboot range remembered after the ranges `ranges`, in order.
pub open spec fn session_after(ranges: Seq<(u32, Seq<u8>, Option<u32>)>) -> Option<(u32, u32)>
    decreases ranges.len(),
{
    if ranges.len() == 0 {
        None
    } else {
        after_range(session_after(ranges.drop_last()), ranges.last())
    }
}

/// The action a range calls for.
pub open spec fn range_action(range: (u32, Seq<u8>, Option<u32>)) -> RangeAction {
    match range.2 {
        Some(reboot) => RangeAction::Reboot { address: range.0, reboot_address: reboot },
        None => RangeAction::Download { address: range.0 },
    }
}

/// The final step, from the reboot range remembered and whether the user
/// asked to restart into the bootloader.
pub open spec fn finish_action(seen: Option<(u32, u32)>, reboot_bootloader: bool) -> Result<
    FinishAction,
    FlashError,
> {
    if !reboot_bootloader {
        Ok(FinishAction::Leave)
    } else {
        match seen {
            Some((magic, bootloader)) => Ok(
                FinishAction::RebootToBootloader {
                    magic_address: magic,
                    bootloader_address: bootloader,
                },
            ),
            None => Err(FlashError::MissingRebootRange),
        }
    }
}

/// The decisions of writing a UF2 image range by range: which ranges restart
/// the device, and how the whole write ends.
pub struct FlashSession {
    magic_addr: Option<u32>,
    firmware_addr: Option<u32>,
}

impl FlashSession {
    /// The two addresses of the last reboot range are kept together.
    #[verifier::type_invariant]
    spec fn addresses_paired(self) -> bool {
        self.magic_addr is Some == self.firmware_addr is Some
    }
}

impl View for FlashSession {
    /// The last reboot range seen: its payload address and reboot address.
    type V = Option<(u32, u32)>;

    closed spec fn view(&self) -> Option<(u32, u32)> {
        match (self.magic_addr, self.firmware_addr) {
            (Some(m), Some(f)) => Some((m, f)),
            _ => None,
        }
    }
}

impl FlashSession {
    /// A write that has not seen any range yet.
    pub fn new() -> (session: FlashSession)
        ensures
            session@ == None::<(u32, u32)>,
    {
        FlashSession { magic_addr: None, firmware_addr: None }
    }

    /// Decides what to do with the next range of the image and remembers it
    /// when it is a reboot range.
    pub fn visit_range(&mut self, range: &UF2AddressRange) -> (action: RangeAction)
        ensures
            action == range_action(range@),
            final(self)@ == after_range(old(self)@, range@),
            range@.2 is None ==> action == (RangeAction::Download { address: range@.0 }),
            range@.2 is None ==> final(self)@ == old(self)@,
            range@.2 matches Some(reboot) ==> action == (RangeAction::Reboot {
                address: range@.0,
                reboot_address: reboot,
            }),
            range@.2 matches Some(reboot) ==> final(self)@ == Some((range@.0, reboot)),
    {
        match range.reboot_target() {
            Some(reboot) => {
                *self = FlashSession {
                    magic_addr: Some(range.start_address()),
                    firmware_addr: Some(reboot),
                };
                RangeAction::Reboot { address: range.start_address(), reboot_address: reboot }
            },
            None => RangeAction::Download { address: range.start_address() },
        }
    }

    /// Decides how the write ends: leave DFU mode, or restart into the
    /// bootloader through the last reboot range, which must then exist.
    pub fn finish(&self, reboot_bootloader: bool) -> (action: Result<FinishAction, FlashError>)
        ensures
            action == finish_action(self@, reboot_bootloader),
            !reboot_bootloader ==> action == Ok::<FinishAction, FlashError>(FinishAction::Leave),
            reboot_bootloader && self@ is None ==> action == Err::<FinishAction, FlashError>(
                FlashError::MissingRebootRange,
            ),
            reboot_bootloader ==> (self@ matches Some((magic, bootloader)) ==> action == Ok::<
                FinishAction,
                FlashError,
            >(
                (FinishAction::RebootToBootloader {
                    magic_address: magic,
                    bootloader_address: bootloader,
                }),
            )),
    {
        proof {
            use_type_invariant(self);
        }
        if !reboot_bootloader {
            return Ok(FinishAction::Leave);
        }
        match (self.magic_addr, self.firmware_addr) {
            (Some(m), Some(b)) => Ok(
                FinishAction::RebootToBootloader { magic_address: m, bootloader_address: b },
            ),
            _ => Err(FlashError::MissingRebootRange),
        }
    }
}

/// The four bytes ("BBLD") that ask the firmware to start the bootloader.
pub fn bootloader_tag() -> (tag: [u8; 4])
    ensures
        tag@ == seq![0x42u8, 0x42u8, 0x4Cu8, 0x44u8],
{
    [0x42, 0x42, 0x4C, 0x44]
}

/// The last address the bootloader tag occupies when written at
/// `magic_address`.
pub fn tag_end_address(magic_address: u32) -> (end: u32)
    requires
        magic_address + 3 <= u32::MAX,
    ensures
        end == magic_address + 3,
{
    magic_address + 3
}

/// After any sequence of ranges, the write remembers a reboot range exactly
/// when one of the ranges carried a reboot address, and then it is the last
/// such range.
pub proof fn lemma_session_keeps_last_reboot_range(ranges: Seq<(u32, Seq<u8>, Option<u32>)>)
    ensures
        session_after(ranges) is None <==> forall|i: int|
            0 <= i < ranges.len() ==> (#[trigger] ranges[i]).2 is None,
        session_after(ranges) matches Some((magic, bootloader)) ==> exists|i: int|
            {
                &&& 0 <= i < ranges.len()
                &&& (#[trigger] ranges[i]).0 == magic
                &&& ranges[i].2 == Some(bootloader)
                &&& forall|j: int| i < j < ranges.len() ==> (#[trigger] ranges[j]).2 is None
            },
    decreases ranges.len(),
{
    if ranges.len() > 0 {
        let prefix = ranges.drop_last();
        lemma_session_keeps_last_reboot_range(prefix);
        assert forall|i: int| 0 <= i < prefix.len() implies prefix[i] == ranges[i] by {}
        let last = ranges.len() - 1;
        match ranges.last().2 {
            Some(b) => {
                assert(ranges[last].0 == ranges.last().0);
            },
            None => {
                if session_after(prefix) is None {
                    assert forall|i: int| 0 <= i < ranges.len() implies (#[trigger] ranges[i]).2 is None by {
                        if i < last {
                            assert(prefix[i] == ranges[i]);
                        }
                    }
                } else {
                    let (magic, bootloader) = session_after(prefix).unwrap();
                    let i = choose|i: int|
                        {
                            &&& 0 <= i < prefix.len()
                            &&& (#[trigger] prefix[i]).0 == magic
                            &&& prefix[i].2 == Some(bootloader)
                            &&& forall|j: int| i < j < prefix.len() ==> (#[trigger] prefix[j]).2 is None
                        };
                    assert(ranges[i] == prefix[i]);
                    assert forall|j: int| i < j < ranges.len() implies (#[trigger] ranges[j]).2 is None by {
                        if j < last {
                            assert(prefix[j] == ranges[j]);
                        }
                    }
                }
            },
        }
    }
}

/// Restarting into the bootloader succeeds exactly when the image had a
/// reboot range; without the request the write always ends by leaving DFU
/// mode.
pub proof fn lemma_finish_needs_reboot_range(ranges: Seq<(u32, Seq<u8>, Option<u32>)>)
    ensures
        finish_action(session_after(ranges), false) == Ok::<FinishAction, FlashError>(
            FinishAction::Leave,
        ),
        finish_action(session_after(ranges), true) is Ok <==> exists|i: int|
            0 <= i < ranges.len() && (#[trigger] ranges[i]).2 is Some,
{
    lemma_session_keeps_last_reboot_range(ranges);
}

/// A range without a reboot address is flashed at its own start address,
/// and a reboot range is written at its own start address and restarts at its
/// own reboot address, whatever those addresses are.
pub proof fn lemma_range_action_uses_own_addresses(start: u32, payload: Seq<u8>, reboot: Option<u32>)
    ensures
        reboot is None ==> range_action((start, payload, reboot)) == (RangeAction::Download {
            address: start,
        }),
        reboot matches Some(r) ==> range_action((start, payload, reboot)) == (RangeAction::Reboot {
            address: start,
            reboot_address: r,
        }),
        reboot is None ==> after_range(None, (start, payload, reboot)) is None,
        reboot matches Some(r) ==> after_range(None, (start, payload, reboot)) == Some((start, r)),
{
}

/// Restarting into the bootloader writes the tag at the start address of the
/// last range of the image that carries a reboot address, and restarts at
/// that range's reboot address; without such a range it is refused.
pub proof fn lemma_bootloader_reboot_targets_last_reboot_range(
    ranges: Seq<(u32, Seq<u8>, Option<u32>)>,
)
    ensures
        (forall|i: int| 0 <= i < ranges.len() ==> (#[trigger] ranges[i]).2 is None) ==> finish_action(
            session_after(ranges),
            true,
        ) == Err::<FinishAction, FlashError>(FlashError::MissingRebootRange),
        forall|i: int|
            0 <= i < ranges.len() && (#[trigger] ranges[i]).2 is Some && (forall|j: int|
                i < j < ranges.len() ==> (#[trigger] ranges[j]).2 is None) ==> finish_action(
                session_after(ranges),
                true,
            ) == Ok::<FinishAction, FlashError>(
                (FinishAction::RebootToBootloader {
                    magic_address: ranges[i].0,
                    bootloader_address: ranges[i].2->0,
                }),
            ),
    decreases ranges.len(),
{
    lemma_session_keeps_last_reboot_range(ranges);
    assert forall|i: int|
        0 <= i < ranges.len() && (#[trigger] ranges[i]).2 is Some && (forall|j: int|
            i < j < ranges.len() ==> (#[trigger] ranges[j]).2 is None) implies finish_action(
        session_after(ranges),
        true,
    ) == Ok::<FinishAction, FlashError>(
        (FinishAction::RebootToBootloader {
            magic_address: ranges[i].0,
            bootloader_address: ranges[i].2->0,
        }),
    ) by {
        let (magic, bootloader) = session_after(ranges).unwrap();
        let k = choose|k: int|
            {
                &&& 0 <= k < ranges.len()
                &&& (#[trigger] ranges[k]).0 == magic
                &&& ranges[k].2 == Some(bootloader)
                &&& forall|j: int| k < j < ranges.len() ==> (#[trigger] ranges[j]).2 is None
            };
        if k < i {
            assert(ranges[i].2 is None);
        } else if i < k {
            assert(ranges[k].2 is None);
        }
    }
}

/// The listing line of a range is its start address in 8 hexadecimal digits,
/// its size right-aligned in 7 columns, and, exactly when the range carries
/// a reboot address, that address in 8 hexadecimal digits at the end.
pub proof fn lemma_range_line_shows_reboot_address(start: u32, payload: Seq<u8>, reboot: Option<u32>)
    ensures
        reboot is None ==> range_line((start, payload, reboot)) == "  - 0x"@ + hex_text(start as nat, 8)
            + ": "@ + pad_left(decimal_text(payload.len()), 7) + " bytes"@,
        reboot matches Some(r) ==> range_line((start, payload, reboot)) == "  - 0x"@ + hex_text(
            start as nat,
            8,
        ) + ": "@ + pad_left(decimal_text(payload.len()), 7) + " bytes"@ + " (reboot @ 0x"@
            + hex_text(r as nat, 8) + ")"@,
{
    if reboot is None {
        let head = "  - 0x"@ + hex_text(start as nat, 8) + ": "@ + pad_left(decimal_text(payload.len()), 7)
            + " bytes"@;
        assert(head + Seq::<char>::empty() =~= head);
    }
}

} // verus!
