use vstd::prelude::*;

use crate::error::FlashError;

verus! {

/// How long a restarted device may take to show up again, in seconds.
pub const RECONNECT_TIMEOUT_SECS: u64 = 30;

/// Picks the device to work with from the devices that matched a filter:
/// there must be exactly one.
pub fn select_device<D>(devices: Vec<D>) -> (device: Result<D, FlashError>)
    ensures
        devices@.len() == 0 ==> device == Err::<D, FlashError>(FlashError::NoDFUDevice),
        devices@.len() > 1 ==> device == Err::<D, FlashError>(FlashError::ManyDFUDevices),
        devices@.len() == 1 ==> device == Ok::<D, FlashError>(devices@[0]),
{
    if devices.len() == 0 {
        return Err(FlashError::NoDFUDevice);
    }
    if devices.len() > 1 {
        return Err(FlashError::ManyDFUDevices);
    }
    let mut devices = devices;
    Ok(devices.remove(0))
}

/// Takes the first of the devices found again with the same vendor and
/// product ID as `current`: it replaces `current` and the answer is `true`.
/// When none was found, `current` stays and the answer is `false`.
pub fn rediscover<D>(current: &mut D, found: Vec<D>) -> (replaced: bool)
    ensures
        replaced == (found@.len() > 0),
        replaced ==> *final(current) == found@[0],
        !replaced ==> *final(current) == *old(current),
{
    if found.len() > 0 {
        let mut found = found;
        *current = found.remove(0);
        true
    } else {
        false
    }
}

/// One round of waiting for a restarted device: the first device found ends
/// the wait; with none found, the wait fails once `elapsed_secs` whole
/// seconds have reached the time limit, and goes on otherwise (`Ok(None)`).
pub fn reconnect_step<D>(found: Vec<D>, elapsed_secs: u64) -> (step: Result<Option<D>, FlashError>)
    ensures
        found@.len() > 0 ==> step == Ok::<Option<D>, FlashError>(Some(found@[0])),
        found@.len() == 0 && elapsed_secs >= RECONNECT_TIMEOUT_SECS ==> step == Err::<
            Option<D>,
            FlashError,
        >(FlashError::Timeout),
        found@.len() == 0 && elapsed_secs < RECONNECT_TIMEOUT_SECS ==> step == Ok::<
            Option<D>,
            FlashError,
        >(None),
{
    if found.len() > 0 {
        let mut found = found;
        return Ok(Some(found.remove(0)));
    }
    if elapsed_secs >= RECONNECT_TIMEOUT_SECS {
        Err(FlashError::Timeout)
    } else {
        Ok(None)
    }
}

} // verus!
