//! The fixed table of USB link-cable chipsets this system recognises.

use vstd::prelude::*;

verus! {

/// USB device identification.
#[derive(Debug, Clone, Copy, PartialEq, Eq)]
pub struct UsbDeviceId {
    pub vendor_id: u16,
    pub product_id: u16,
    pub name: &'static str,
}

impl UsbDeviceId {
    pub fn new(vendor_id: u16, product_id: u16, name: &'static str) -> (r: Self)
        ensures
            r.vendor_id == vendor_id,
            r.product_id == product_id,
            r.name == name,
    {
        Self { vendor_id, product_id, name }
    }
}

/// USB device information as shown in a user interface.
#[derive(Debug, Clone, PartialEq, Eq)]
pub struct UsbDeviceInfo {
    pub name: String,
    pub vendor_id: u16,
    pub product_id: u16,
}

/// Whether a vendor/product pair is one of the known link-cable chipsets:
/// Prolific PL27A1, Genesys GL3523 or VIA VL822.
pub open spec fn spec_is_supported(vendor_id: u16, product_id: u16) -> bool {
    ||| (vendor_id == 0x067B && product_id == 0x27A1)
    ||| (vendor_id == 0x05E3 && product_id == 0x0751)
    ||| (vendor_id == 0x2109 && product_id == 0x0822)
}

/// The table of supported USB link-cable devices.
pub fn supported_usb_devices() -> (r: Vec<UsbDeviceId>)
    ensures
        r@.len() == 3,
        r@[0].vendor_id == 0x067B && r@[0].product_id == 0x27A1,
        r@[1].vendor_id == 0x05E3 && r@[1].product_id == 0x0751,
        r@[2].vendor_id == 0x2109 && r@[2].product_id == 0x0822,
        forall|i: int| 0 <= i < 3 ==> spec_is_supported(
            (#[trigger] r@[i]).vendor_id,
            r@[i].product_id,
        ),
{
    let mut devices: Vec<UsbDeviceId> = Vec::new();
    devices.push(UsbDeviceId::new(0x067B, 0x27A1, "Prolific PL27A1"));
    devices.push(UsbDeviceId::new(0x05E3, 0x0751, "Genesys GL3523"));
    devices.push(UsbDeviceId::new(0x2109, 0x0822, "VIA VL822"));
    devices
}

/// Check whether a USB device with the given VID/PID is a supported link
/// cable.
pub fn is_supported_device(vendor_id: u16, product_id: u16) -> (r: bool)
    ensures
        r == spec_is_supported(vendor_id, product_id),
{
    (vendor_id == 0x067B && product_id == 0x27A1) || (vendor_id == 0x05E3 && product_id == 0x0751)
        || (vendor_id == 0x2109 && product_id == 0x0822)
}

/// Find the supported device entry for a VID/PID: yields one exactly when
/// the pair is supported, and then with that VID/PID.
pub fn find_supported_device(vendor_id: u16, product_id: u16) -> (r: Option<UsbDeviceId>)
    ensures
        r is Some <==> spec_is_supported(vendor_id, product_id),
        r matches Some(d) ==> d.vendor_id == vendor_id && d.product_id == product_id,
{
    if vendor_id == 0x067B && product_id == 0x27A1 {
        Some(UsbDeviceId::new(0x067B, 0x27A1, "Prolific PL27A1"))
    } else if vendor_id == 0x05E3 && product_id == 0x0751 {
        Some(UsbDeviceId::new(0x05E3, 0x0751, "Genesys GL3523"))
    } else if vendor_id == 0x2109 && product_id == 0x0822 {
        Some(UsbDeviceId::new(0x2109, 0x0822, "VIA VL822"))
    } else {
        None
    }
}

} // verus!
