use ecat_utils::{fmt_identity, DeviceIdentity, SubdeviceData};

fn coupler_identity() -> DeviceIdentity {
    DeviceIdentity {
        vendor_id: 2,
        product_id: 0x044c_2c52,
        revision: 0x0011_0000,
        serial: 0,
    }
}

#[test]
fn new_device_shows_address_and_name() {
    let d = SubdeviceData::new("EK1100", 0x1000);
    assert_eq!(d.name, "EK1100");
    assert_eq!(d.address, 0x1000);
    assert_eq!(d.description, None);
    assert_eq!(d.identity, None);
    assert_eq!(d.describe(), "0x1000 EK1100");
    assert_eq!(SubdeviceData::new("EL1008", 5).describe(), "0x0005 EL1008");
}

#[test]
fn identity_is_zero_padded_hex_and_decimal() {
    assert_eq!(
        fmt_identity(coupler_identity()),
        "vendor:0x00000002 product:0x044c2c52 rev:1114112 serial:0"
    );
}

#[test]
fn full_device_line() {
    let mut d = SubdeviceData::new("EK1100", 0x1001);
    d.description = Some("EtherCAT Coupler".to_string());
    d.identity = Some(coupler_identity());
    d.alias_address = Some(0xabc);
    d.propagation_delay = Some(150);
    d.input_len = Some(0);
    d.output_len = Some(4);
    assert_eq!(
        d.describe(),
        "0x1001 EK1100 description:\"EtherCAT Coupler\" \
         vendor:0x00000002 product:0x044c2c52 rev:1114112 serial:0 \
         alias:0x0abc delay:150ns in:0B out:4B"
    );
}
