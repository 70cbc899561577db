use franklyboot::com::{ComError, ComInterface, ComMode, InterfaceType};
use franklyboot::crc::crc32;
use franklyboot::device::Device;
use franklyboot::image::AppImage;
use franklyboot::msg::RequestType;
use franklyboot::sim::SIMInterface;

fn connect(node: u8, flash_start: u32, page_size: u32, num_pages: u32, app_page_idx: u32) -> Device<SIMInterface> {
    let mut com = SIMInterface::open("sim").unwrap();
    com.add_node(node, flash_start, page_size, num_pages, app_page_idx)
        .unwrap();
    com.set_mode(ComMode::Specific(node)).unwrap();
    let mut device = Device::new(com);
    device.init().unwrap();
    device
}

/// Host-side CRC of an image padded with 0xFF up to `total` bytes.
fn host_crc(image_bytes: &[u8], total: usize) -> u32 {
    let mut padded = image_bytes.to_vec();
    while padded.len() < total {
        padded.push(0xFF);
    }
    crc32(&padded)
}

#[test]
fn crc32_known_value() {
    // The standard CRC-32 check value: CRC of the ASCII digits "123456789".
    let bytes = vec![0x31, 0x32, 0x33, 0x34, 0x35, 0x36, 0x37, 0x38, 0x39];
    assert_eq!(crc32(&bytes), 0xCBF43926);
    assert_eq!(crc32(&Vec::new()), 0x00000000);
}

#[test]
fn init_reads_device_attributes() {
    let device = connect(7, 0x08000000, 64, 8, 2);
    assert_eq!(
        device.get_entry_value(RequestType::ReqFlashInfoStartAddr),
        Some(0x08000000)
    );
    assert_eq!(
        device.get_entry_value(RequestType::ReqFlashInfoPageSize),
        Some(64)
    );
    assert_eq!(
        device.get_entry_value(RequestType::ReqFlashInfoNumPages),
        Some(8)
    );
    assert_eq!(
        device.get_entry_value(RequestType::ReqAppInfoPageIdx),
        Some(2)
    );
}

#[test]
fn full_flash_of_a_small_image() {
    // Device with page size 64, 8 pages, app area from page 2; an image of
    // 300 bytes, so the last written page is padded with 0xFF fill.
    let mut device = connect(7, 0x08000000, 64, 8, 2);

    let mut bytes = Vec::new();
    for i in 0..300u32 {
        bytes.push((i % 251) as u8);
    }
    let image = AppImage::from_bytes(bytes.clone());
    device.flash(&image).unwrap();

    let crc = host_crc(&bytes, (8 - 2) * 64);
    assert_eq!(
        device.get_entry_value(RequestType::ReqAppInfoCRCCalc),
        Some(crc)
    );
    assert_eq!(
        device.get_entry_value(RequestType::ReqAppInfoCRCStrd),
        Some(crc)
    );
}

#[test]
fn flash_short_image_pads_last_page() {
    let mut device = connect(3, 0, 64, 4, 1);

    // 100 bytes over a 192-byte app area: the second written page is
    // mostly fill, the third all fill and skipped.
    let mut bytes = Vec::new();
    for i in 0..100u32 {
        bytes.push((0x40 + (i % 64)) as u8);
    }
    let image = AppImage::from_bytes(bytes.clone());
    device.flash(&image).unwrap();

    let crc = host_crc(&bytes, 192);
    assert_eq!(
        device.get_entry_value(RequestType::ReqAppInfoCRCCalc),
        Some(crc)
    );
    assert_eq!(
        device.get_entry_value(RequestType::ReqAppInfoCRCStrd),
        Some(crc)
    );
}

#[test]
fn flash_all_fill_image_still_verifies() {
    let mut device = connect(3, 0, 64, 4, 1);
    let image = AppImage::from_bytes(vec![0xFF; 10]);
    device.flash(&image).unwrap();

    let crc = host_crc(&[0xFF; 10], 192);
    assert_eq!(
        device.get_entry_value(RequestType::ReqAppInfoCRCCalc),
        Some(crc)
    );
}

#[test]
fn flash_rejects_oversized_image() {
    let mut device = connect(3, 0, 64, 4, 1);
    // The app area holds (4 - 1) * 64 = 192 bytes.
    let image = AppImage::from_bytes(vec![0x00; 193]);
    assert!(device.flash(&image).is_err());
}

#[test]
fn erase_succeeds_on_initialized_device() {
    let mut device = connect(5, 0x08000000, 1024, 16, 2);
    device.erase().unwrap();
}

#[test]
fn start_app_and_reset() {
    let mut device = connect(5, 0x08000000, 1024, 16, 2);
    device.start_app().unwrap();
    device.reset_device().unwrap();
}

#[test]
fn image_word_addressing() {
    let image = AppImage::from_bytes(vec![0x01, 0x02, 0x03, 0x04, 0x05]);
    assert_eq!(image.len_bytes(), 5);
    assert_eq!(image.word_at(0), 0x04030201);
    // bytes past the end read as 0xFF fill
    assert_eq!(image.word_at(4), 0xFFFFFF05);
    assert_eq!(image.word_at(100), 0xFFFFFFFF);
    assert_eq!(image.byte_at(2), 0x03);
    assert_eq!(image.byte_at(5), 0xFF);
}

#[test]
fn interface_type_names() {
    assert_eq!(InterfaceType::from_str("sim"), Ok(InterfaceType::Sim));
    assert_eq!(InterfaceType::from_str("serial"), Ok(InterfaceType::Serial));
    assert_eq!(InterfaceType::from_str("can"), Ok(InterfaceType::CAN));
    assert_eq!(
        InterfaceType::from_str("ethernet"),
        Ok(InterfaceType::Ethernet)
    );
    assert_eq!(
        InterfaceType::from_str("bogus"),
        Err(ComError::Error("Unknown interface type bogus".to_string()))
    );
}
