use zapf::proto::ads_errors::{describe, find, ADS_ERRORS, ADS_ERROR_COUNT, UNKNOWN_ERROR};

#[test]
fn catalog_ascends() {
    assert_eq!(ADS_ERRORS.len(), ADS_ERROR_COUNT);
    for pair in ADS_ERRORS.windows(2) {
        assert!(pair[0].0 < pair[1].0);
    }
}

#[test]
fn every_entry_is_found() {
    for (i, (code, text)) in ADS_ERRORS.iter().enumerate() {
        assert_eq!(find(*code), Some(i));
        assert_eq!(describe(*code), *text);
    }
}

#[test]
fn codes_between_the_entries_are_unknown() {
    let mut code: u32 = 0;
    while code < 0x2000 {
        if ADS_ERRORS.iter().all(|e| e.0 != code) {
            assert_eq!(find(code), None);
            assert_eq!(describe(code), UNKNOWN_ERROR);
        }
        code += 1;
    }
    assert_eq!(describe(0), "Unknown error code");
    assert_eq!(describe(u32::MAX), "Unknown error code");
}

#[test]
fn known_descriptions() {
    assert_eq!(describe(0x001), "Internal error");
    assert_eq!(describe(0x007), "Target machine not found, possibly missing ADS routes");
    assert_eq!(describe(0x500), "Router: no locked memory");
    assert_eq!(describe(0x710), "Symbol not found");
    assert_eq!(describe(0x745), "Timeout elapsed -> check route setting");
    assert_eq!(describe(0x1000), "Internal error in real-time system");
    assert_eq!(describe(0x101A), "Activation of Intel VT-x failed");
    assert_eq!(find(0x001), Some(0));
    assert_eq!(find(0x101A), Some(133));
}
