use vstd::prelude::*;

verus! {

/// A filter with its vendor ID set to `vid`.
pub open spec fn with_vendor(filter: (Option<u16>, Option<u16>), vid: u16) -> (Option<u16>, Option<u16>) {
    (Some(vid), filter.1)
}

/// A filter with its product ID set to `pid`.
pub open spec fn with_product(filter: (Option<u16>, Option<u16>), pid: u16) -> (Option<u16>, Option<u16>) {
    (filter.0, Some(pid))
}

/// Setting the vendor ID and the product ID do not interfere: the order does
/// not matter, and a second setting of the same ID replaces the first.
pub proof fn lemma_filter_settings_independent(
    filter: (Option<u16>, Option<u16>),
    vid: u16,
    vid2: u16,
    pid: u16,
    pid2: u16,
)
    ensures
        with_product(with_vendor(filter, vid), pid) == with_vendor(with_product(filter, pid), vid),
        with_vendor(with_vendor(filter, vid), vid2) == with_vendor(filter, vid2),
        with_product(with_product(filter, pid), pid2) == with_product(filter, pid2),
        with_product(with_vendor((None::<u16>, None::<u16>), vid), pid) == (Some(vid), Some(pid)),
{
}

/// Which DFU devices a search should report: an optional vendor ID and an
/// optional product ID. An absent ID matches every device.
pub struct DfuDeviceFilter {
    vid: Option<u16>,
    pid: Option<u16>,
}

impl View for DfuDeviceFilter {
    /// The vendor ID and product ID the filter asks for.
    type V = (Option<u16>, Option<u16>);

    closed spec fn view(&self) -> (Option<u16>, Option<u16>) {
        (self.vid, self.pid)
    }
}

impl DfuDeviceFilter {
    /// A filter that matches every device.
    pub fn empty_filter() -> (filter: Box<DfuDeviceFilter>)
        ensures
            filter@ == (None::<u16>, None::<u16>),
    {
        Box::new(DfuDeviceFilter { vid: None, pid: None })
    }

    /// Restricts the filter to devices with vendor ID `vid`, replacing any
    /// vendor ID set before.
    pub fn with_vendor_id(&mut self, vid: u16)
        ensures
            final(self)@ == with_vendor(old(self)@, vid),
            final(self)@.0 == Some(vid),
            final(self)@.1 == old(self)@.1,
    {
        self.vid = Some(vid);
    }

    /// Restricts the filter to devices with product ID `pid`, replacing any
    /// product ID set before.
    pub fn with_product_id(&mut self, pid: u16)
        ensures
            final(self)@ == with_product(old(self)@, pid),
            final(self)@.0 == old(self)@.0,
            final(self)@.1 == Some(pid),
    {
        self.pid = Some(pid);
    }

    /// The vendor ID the filter asks for, if any.
    pub fn vendor_id(&self) -> (vid: Option<u16>)
        ensures
            vid == self@.0,
    {
        self.vid
    }

    /// The product ID the filter asks for, if any.
    pub fn product_id(&self) -> (pid: Option<u16>)
        ensures
            pid == self@.1,
    {
        self.pid
    }
}

} // verus!
