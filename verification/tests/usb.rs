//! Tests for the USB link-cable device table.

use serialwarp::usb::{find_supported_device, is_supported_device, supported_usb_devices};

#[test]
fn test_is_supported_device() {
    assert!(is_supported_device(0x067B, 0x27A1));
    assert!(is_supported_device(0x05E3, 0x0751));
    assert!(is_supported_device(0x2109, 0x0822));
    assert!(!is_supported_device(0x0000, 0x0000));
}

#[test]
fn test_find_supported_device() {
    let device = find_supported_device(0x067B, 0x27A1).unwrap();
    assert_eq!(device.name, "Prolific PL27A1");
}

#[test]
fn test_supported_devices() {
    let devices = supported_usb_devices();
    assert_eq!(devices.len(), 3);
    assert!(devices
        .iter()
        .any(|d| d.vendor_id == 0x067B && d.product_id == 0x27A1));
}

#[test]
fn unknown_device_is_not_found() {
    assert!(find_supported_device(0x067B, 0x0000).is_none());
    assert!(find_supported_device(0x1234, 0x5678).is_none());
}
