use vstd::prelude::*;

verus! {

/// One memory segment of a DFU interface, as the device describes it.
/// `end_addr` is one past the last address of the segment.
#[derive(Debug, Clone, Copy, PartialEq, Eq, Structural)]
pub struct MemorySegment {
    pub start_addr: u32,
    pub end_addr: u32,
    pub page_size: u32,
    pub readable: bool,
    pub writable: bool,
    pub erasable: bool,
}

/// What identifies a device to a user.
pub struct DeviceInfo {
    pub vendor_id: u16,
    pub product_id: u16,
    pub product_string: String,
}

impl DeviceInfo {
    /// Collects the identification of a device; a device that reports no
    /// product string gets the empty string.
    pub fn new(vendor_id: u16, product_id: u16, product_string: Option<&str>) -> (info: DeviceInfo)
        ensures
            info.vendor_id == vendor_id,
            info.product_id == product_id,
            info.product_string@ == match product_string {
                Some(s) => s@,
                None => Seq::<char>::empty(),
            },
    {
        let product_string = match product_string {
            Some(s) => s.to_owned(),
            None => String::new(),
        };
        DeviceInfo { vendor_id, product_id, product_string }
    }
}

/// A DFU interface (one alternate setting) of a device: its numbers, its
/// name and the memory segments it gives access to.
pub struct DfuInterface {
    interface_nr: u8,
    alt_setting: u8,
    name: String,
    segments: Vec<MemorySegment>,
}

impl View for DfuInterface {
    /// Interface number, alternate setting, name and segments.
    type V = (u8, u8, Seq<char>, Seq<MemorySegment>);

    closed spec fn view(&self) -> (u8, u8, Seq<char>, Seq<MemorySegment>) {
        (self.interface_nr, self.alt_setting, self.name@, self.segments@)
    }
}

impl DfuInterface {
    pub fn new(interface_nr: u8, alt_setting: u8, name: String, segments: Vec<MemorySegment>) -> (intf: DfuInterface)
        ensures
            intf@ == (interface_nr, alt_setting, name@, segments@),
    {
        DfuInterface { interface_nr, alt_setting, name, segments }
    }

    pub fn name(&self) -> (name: String)
        ensures
            name@ == self@.2,
    {
        self.name.clone()
    }

    pub fn interface_nr(&self) -> (nr: u8)
        ensures
            nr == self@.0,
    {
        self.interface_nr
    }

    pub fn alt_setting(&self) -> (alt: u8)
        ensures
            alt == self@.1,
    {
        self.alt_setting
    }

    pub fn segments(&self) -> (segments: Vec<MemorySegment>)
        ensures
            segments@ == self@.3,
    {
        let segments = self.segments.clone();
        assert(segments@ =~= self.segments@);
        segments
    }

    /// The address range that erasing the whole interface covers: from the
    /// start of its first segment to the last address of its last segment.
    pub fn erase_span(&self) -> (span: (u32, u32))
        requires
            self@.3.len() > 0,
            self@.3.last().end_addr >= 1,
        ensures
            span.0 == self@.3[0].start_addr,
            span.1 == self@.3.last().end_addr - 1,
    {
        let first = self.segments[0].start_addr;
        let last = self.segments[self.segments.len() - 1].end_addr - 1;
        (first, last)
    }
}

/// `needle` occurs in `haystack` at position `k`.
pub open spec fn occurs_at(haystack: Seq<char>, needle: Seq<char>, k: int) -> bool {
    &&& 0 <= k
    &&& k + needle.len() <= haystack.len()
    &&& haystack.subrange(k, k + needle.len()) == needle
}

/// `needle` occurs somewhere in `haystack`.
pub open spec fn contains_text(haystack: Seq<char>, needle: Seq<char>) -> bool {
    exists|k: int| occurs_at(haystack, needle, k)
}

/// The text by which the interface of the calibration flash is recognised.
pub open spec fn calibration_marker() -> Seq<char> {
    "CALIBFLASH"@
}

/// The calibration flash is recognised by the ten characters `CALIBFLASH`,
/// in upper case.
pub proof fn lemma_calibration_marker_text()
    ensures
        calibration_marker() == seq!['C', 'A', 'L', 'I', 'B', 'F', 'L', 'A', 'S', 'H'],
{
    reveal_strlit("CALIBFLASH");
    assert(calibration_marker() =~= seq!['C', 'A', 'L', 'I', 'B', 'F', 'L', 'A', 'S', 'H']);
}

/// Whether `needle` occurs in `haystack`.
fn text_contains(haystack: &str, needle: &str) -> (found: bool)
    ensures
        found == contains_text(haystack@, needle@),
{
    let hl = haystack.unicode_len();
    let nl = needle.unicode_len();
    if nl > hl {
        return false;
    }
    let mut k: usize = 0;
    while k <= hl - nl
        invariant
            hl == haystack@.len(),
            nl == needle@.len(),
            nl <= hl,
            k <= hl - nl + 1,
            forall|j: int| 0 <= j < k ==> !occurs_at(haystack@, needle@, j),
        decreases hl - nl + 1 - k,
    {
        let mut i: usize = 0;
        let mut same = true;
        while i < nl
            invariant
                hl == haystack@.len(),
                nl == needle@.len(),
                k + nl <= hl,
                i <= nl,
                same == (forall|t: int| 0 <= t < i ==> haystack@[k + t] == needle@[t]),
            decreases nl - i,
        {
            if haystack.get_char(k + i) != needle.get_char(i) {
                same = false;
            }
            i = i + 1;
        }
        if same {
            assert(haystack@.subrange(k as int, k + nl) =~= needle@);
            assert(occurs_at(haystack@, needle@, k as int));
            return true;
        }
        assert(!occurs_at(haystack@, needle@, k as int)) by {
            if occurs_at(haystack@, needle@, k as int) {
                assert forall|t: int| 0 <= t < nl implies haystack@[k + t] == needle@[t] by {
                    assert(haystack@.subrange(k as int, k + nl)[t] == haystack@[k + t]);
                }
            }
        }
        k = k + 1;
    }
    false
}

/// The position of the first interface whose name mentions the calibration
/// flash, if there is one.
pub fn find_calibration_interface(interfaces: &Vec<DfuInterface>) -> (found: Option<usize>)
    ensures
        match found {
            Some(i) => {
                &&& i < interfaces@.len()
                &&& contains_text(interfaces@[i as int]@.2, calibration_marker())
                &&& forall|j: int|
                    0 <= j < i ==> !contains_text(#[trigger] interfaces@[j]@.2, calibration_marker())
            },
            None => forall|j: int|
                0 <= j < interfaces@.len() ==> !contains_text(
                    #[trigger] interfaces@[j]@.2,
                    calibration_marker(),
                ),
        },
{
    let marker = "CALIBFLASH";
    let mut i: usize = 0;
    while i < interfaces.len()
        invariant
            marker@ == calibration_marker(),
            i <= interfaces@.len(),
            forall|j: int|
                0 <= j < i ==> !contains_text(#[trigger] interfaces@[j]@.2, calibration_marker()),
        decreases interfaces@.len() - i,
    {
        if text_contains(interfaces[i].name.as_str(), marker) {
            return Some(i);
        }
        i = i + 1;
    }
    None
}

} // verus!
