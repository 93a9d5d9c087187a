//! The catalog of ADS error codes.

use vstd::prelude::*;

verus! {

/// The number of entries of the catalog.
pub const ADS_ERROR_COUNT: usize = 134;

/// The description of a code that the catalog does not hold.
pub const UNKNOWN_ERROR: &'static str = "Unknown error code";

/// The known ADS error codes with their descriptions, in ascending order of
/// the codes: general errors from 0x001, router errors from 0x500, device
/// errors from 0x700, client errors from 0x740, errors of the real-time system
/// from 0x1000.
pub const ADS_ERRORS: [(u32, &'static str); 134] = [
    (0x0001, "Internal error"),
    (0x0002, "No real-time"),
    (0x0003, "Allocation locked - memory error"),
    (0x0004, "Mailbox full - ADS message could not be sent"),
    (0x0005, "Wrong receive HMSG"),
    (0x0006, "Target port not found, possibly ADS server not started"),
    (0x0007, "Target machine not found, possibly missing ADS routes"),
    (0x0008, "Unknown command ID"),
    (0x0009, "Invalid task ID"),
    (0x000A, "No IO"),
    (0x000B, "Unknown AMS command"),
    (0x000C, "Win32 error"),
    (0x000D, "Port not connected"),
    (0x000E, "Invalid AMS length"),
    (0x000F, "Invalid AMS NetID"),
    (0x0010, "Low installation level"),
    (0x0011, "No debugging available"),
    (0x0012, "Port disabled - system service not started"),
    (0x0013, "Port already connected"),
    (0x0014, "AMS Sync Win32 error"),
    (0x0015, "AMS Sync timeout"),
    (0x0016, "AMS Sync error"),
    (0x0017, "AMS Sync no index map"),
    (0x0018, "Invalid AMS port"),
    (0x0019, "No memory"),
    (0x001A, "TCP send error"),
    (0x001B, "Host unreachable"),
    (0x001C, "Invalid AMS fragment"),
    (0x001D, "TLS send error - secure ADS connection failed"),
    (0x001E, "Access denied - secure ADS access denied"),
    (0x0500, "Router: no locked memory"),
    (0x0501, "Router: memory size could not be changed"),
    (0x0502, "Router: mailbox full"),
    (0x0503, "Router: debug mailbox full"),
    (0x0504, "Router: port type is unknown"),
    (0x0505, "Router is not initialized"),
    (0x0506, "Router: desired port number is already assigned"),
    (0x0507, "Router: port not registered"),
    (0x0508, "Router: maximum number of ports reached"),
    (0x0509, "Router: port is invalid"),
    (0x050A, "Router is not active"),
    (0x050B, "Router: mailbox full for fragmented messages"),
    (0x050C, "Router: fragment timeout occurred"),
    (0x050D, "Router: port removed"),
    (0x0700, "General device error"),
    (0x0701, "Service is not supported by server"),
    (0x0702, "Invalid index group"),
    (0x0703, "Invalid index offset"),
    (0x0704, "Reading/writing not permitted"),
    (0x0705, "Parameter size not correct"),
    (0x0706, "Invalid parameter value(s)"),
    (0x0707, "Device is not in a ready state"),
    (0x0708, "Device is busy"),
    (0x0709, "Invalid OS context -> use multi-task data access"),
    (0x070A, "Out of memory"),
    (0x070B, "Invalid parameter value(s)"),
    (0x070C, "Not found (files, ...)"),
    (0x070D, "Syntax error in command or file"),
    (0x070E, "Objects do not match"),
    (0x070F, "Object already exists"),
    (0x0710, "Symbol not found"),
    (0x0711, "Symbol version invalid -> create a new handle"),
    (0x0712, "Server is in an invalid state"),
    (0x0713, "AdsTransMode not supported"),
    (0x0714, "Notification handle is invalid"),
    (0x0715, "Notification client not registered"),
    (0x0716, "No more notification handles"),
    (0x0717, "Notification size too large"),
    (0x0718, "Device not initialized"),
    (0x0719, "Device has a timeout"),
    (0x071A, "Query interface failed"),
    (0x071B, "Wrong interface required"),
    (0x071C, "Class ID is invalid"),
    (0x071D, "Object ID is invalid"),
    (0x071E, "Request is pending"),
    (0x071F, "Request is aborted"),
    (0x0720, "Signal warning"),
    (0x0721, "Invalid array index"),
    (0x0722, "Symbol not active -> release handle and try again"),
    (0x0723, "Access denied"),
    (0x0724, "No license found -> activate license"),
    (0x0725, "License expired"),
    (0x0726, "License exceeded"),
    (0x0727, "License invalid"),
    (0x0728, "Invalid system ID in license"),
    (0x0729, "License not time limited"),
    (0x072A, "License issue time in the future"),
    (0x072B, "License time period too long"),
    (0x072C, "Exception in device specific code -> check each device"),
    (0x072D, "License file read twice"),
    (0x072E, "Invalid signature"),
    (0x072F, "Invalid public key certificate"),
    (0x0730, "Public key not known from OEM"),
    (0x0731, "License not valid for this system ID"),
    (0x0732, "Demo license prohibited"),
    (0x0733, "Invalid function ID"),
    (0x0734, "Outside the valid range"),
    (0x0735, "Invalid alignment"),
    (0x0736, "Invalid platform level"),
    (0x0737, "Context - forward to passive level"),
    (0x0738, "Content - forward to dispatch level"),
    (0x0739, "Context - forward to real-time"),
    (0x0740, "General client error"),
    (0x0741, "Invalid parameter at service"),
    (0x0742, "Polling list is empty"),
    (0x0743, "Var connection already in use"),
    (0x0744, "Invoke ID in use"),
    (0x0745, "Timeout elapsed -> check route setting"),
    (0x0746, "Error in Win32 subsystem"),
    (0x0747, "Invalid client timeout value"),
    (0x0748, "ADS port not opened"),
    (0x0749, "No AMS address"),
    (0x0750, "Internal error in ADS sync"),
    (0x0751, "Hash table overflow"),
    (0x0752, "Key not found in hash"),
    (0x0753, "No more symbols in cache"),
    (0x0754, "Invalid response received"),
    (0x0755, "Sync port is locked"),
    (0x1000, "Internal error in real-time system"),
    (0x1001, "Timer value not valid"),
    (0x1002, "Task pointer has invalid value 0"),
    (0x1003, "Stack pointer has invalid value 0"),
    (0x1004, "Requested task priority already assigned"),
    (0x1005, "No free Task Control Block"),
    (0x1006, "No free semaphores"),
    (0x1007, "No free space in the queue"),
    (0x100D, "External sync interrupt already applied"),
    (0x100E, "No external sync interrupt applied"),
    (0x100F, "External sync interrupt application failed"),
    (0x1010, "Call of service function in wrong context"),
    (0x1017, "Intel VT-x not supported"),
    (0x1018, "Intel VT-x not enabled in BIOS"),
    (0x1019, "Missing function in Intel VT-x"),
    (0x101A, "Activation of Intel VT-x failed"),
];

/// The `i`-th entry of the catalog: a code and its description.
#[verifier::opaque]
pub open spec fn entry(i: int) -> (u32, &'static str) {
    ADS_ERRORS@[i]
}

/// Whether the catalog holds `code`.
pub open spec fn is_known(code: u32) -> bool {
    exists|i: int| 0 <= i < ADS_ERROR_COUNT && (#[trigger] entry(i)).0 == code
}

/// The catalog's description of `code`; `UNKNOWN_ERROR` for a code that it does
/// not hold.
pub open spec fn description(code: u32) -> &'static str {
    if is_known(code) {
        let i = choose|i: int| 0 <= i < ADS_ERROR_COUNT && (#[trigger] entry(i)).0 == code;
        entry(i).1
    } else {
        UNKNOWN_ERROR
    }
}

/// The codes of the catalog ascend strictly, so no code stands in it twice.
pub proof fn lemma_catalog_ascends()
    ensures
        forall|i: int, j: int|
            0 <= i < j < ADS_ERROR_COUNT ==> (#[trigger] entry(i)).0 < (#[trigger] entry(j)).0,
{
    reveal(entry);
}

/// Reads the `i`-th entry of the catalog.
fn entry_at(i: usize) -> (r: (u32, &'static str))
    requires
        i < ADS_ERROR_COUNT,
    ensures
        r == entry(i as int),
{
    reveal(entry);
    ADS_ERRORS[i]
}

/// Searches the catalog for `code` by bisection and gives the position of its
/// entry.
pub fn find(code: u32) -> (r: Option<usize>)
    ensures
        match r {
            Some(i) => i < ADS_ERROR_COUNT && entry(i as int).0 == code,
            None => !is_known(code),
        },
{
    proof {
        lemma_catalog_ascends();
    }
    let mut lo: usize = 0;
    let mut hi: usize = ADS_ERROR_COUNT;
    while lo < hi
        invariant
            lo <= hi <= ADS_ERROR_COUNT,
            forall|i: int| 0 <= i < lo ==> (#[trigger] entry(i)).0 < code,
            forall|i: int| hi <= i < ADS_ERROR_COUNT ==> (#[trigger] entry(i)).0 > code,
            forall|i: int, j: int|
                0 <= i < j < ADS_ERROR_COUNT ==> (#[trigger] entry(i)).0 < (#[trigger] entry(
                    j,
                )).0,
        decreases hi - lo,
    {
        let mid = lo + (hi - lo) / 2;
        let here = entry_at(mid).0;
        if here == code {
            return Some(mid);
        } else if here < code {
            lo = mid + 1;
        } else {
            hi = mid;
        }
    }
    None
}

/// The catalog's description of `code`.
pub fn describe(code: u32) -> (r: &'static str)
    ensures
        r == description(code),
{
    proof {
        lemma_catalog_ascends();
    }
    match find(code) {
        Some(i) => {
            let ghost j = choose|j: int| 0 <= j < ADS_ERROR_COUNT && (#[trigger] entry(j)).0 == code;
            assert(j == i);
            entry_at(i).1
        },
        None => UNKNOWN_ERROR,
    }
}

} // verus!
