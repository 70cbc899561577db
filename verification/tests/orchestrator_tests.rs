use franklyboot::com::{ComError, ComSimulator};
use franklyboot::crc::crc32;
use franklyboot::device::Device;
use franklyboot::image::AppImage;
use franklyboot::msg::{Msg, MsgData, RequestType, ResponseType};

fn ack(kind: RequestType, word: u32) -> Msg {
    Msg::new(kind, ResponseType::RespAck, 0, &MsgData::from_word(word))
}

/// Queue acknowledged answers for the twelve attribute reads of `init`,
/// in the order the device reads them, with the given flash geometry.
fn script_init(com: &mut ComSimulator, flash_start: u32, page_size: u32, num_pages: u32, app_page_idx: u32) {
    com.add_response(ack(RequestType::ReqDevInfoBootloaderVersion, 0x00010000));
    com.add_response(ack(RequestType::ReqDevInfoBootloaderCRC, 0));
    com.add_response(ack(RequestType::ReqDevInfoVID, 1));
    com.add_response(ack(RequestType::ReqDevInfoPID, 2));
    com.add_response(ack(RequestType::ReqDevInfoPRD, 3));
    com.add_response(ack(RequestType::ReqDevInfoUID, 4));
    com.add_response(ack(RequestType::ReqFlashInfoStartAddr, flash_start));
    com.add_response(ack(RequestType::ReqFlashInfoPageSize, page_size));
    com.add_response(ack(RequestType::ReqFlashInfoNumPages, num_pages));
    com.add_response(ack(RequestType::ReqAppInfoPageIdx, app_page_idx));
    com.add_response(ack(RequestType::ReqAppInfoCRCCalc, 0));
    com.add_response(ack(RequestType::ReqAppInfoCRCStrd, 0));
}

#[test]
fn init_fails_without_geometry() {
    // Twelve receive timeouts: every attribute stays unknown, so the
    // device invariants cannot be established.
    let com = ComSimulator::new();
    let mut device = Device::new(com);
    let r = device.init();
    assert_eq!(r, Err(ComError::InvalidDeviceInfo));

    // An inconsistent geometry (app page index at the page count) is
    // rejected as well.
    let mut com2 = ComSimulator::new();
    script_init(&mut com2, 0, 64, 4, 4);
    let mut device2 = Device::new(com2);
    assert_eq!(device2.init(), Err(ComError::InvalidDeviceInfo));
}

#[test]
fn erase_without_response_is_fatal() {
    let mut com = ComSimulator::new();
    script_init(&mut com, 0, 64, 4, 1);
    let mut device = Device::new(com);
    device.init().unwrap();

    // No scripted answer for the erase request: the timeout is fatal
    // after init.
    assert_eq!(device.erase(), Err(ComError::NoResponse));
}

#[test]
fn page_full_before_last_word_is_fatal() {
    // One app page of two words (page size 8).
    let mut com = ComSimulator::new();
    script_init(&mut com, 0, 8, 2, 1);
    com.add_response(ack(RequestType::ReqFlashWriteErasePage, 0));
    com.add_response(ack(RequestType::ReqPageBufferClear, 0));
    // The first of two words already reports a full page buffer.
    com.add_response(Msg::new(
        RequestType::ReqPageBufferWriteWord,
        ResponseType::RespErrPageFull,
        0,
        &MsgData::from_word(0),
    ));

    let mut device = Device::new(com);
    device.init().unwrap();
    let r = device.flash(&AppImage::from_bytes(vec![1, 2, 3, 4, 5, 6, 7, 8]));
    assert_eq!(
        r,
        Err(ComError::MsgError {
            expected: RequestType::ReqPageBufferWriteWord,
            observed: RequestType::ReqPageBufferWriteWord,
            response: ResponseType::RespErrPageFull,
        })
    );
}

/// Queue one whole successful page transaction for a page of one word.
fn script_page_txn_one_word(com: &mut ComSimulator) {
    com.add_response(ack(RequestType::ReqPageBufferClear, 0));
    com.add_response(Msg::new(
        RequestType::ReqPageBufferWriteWord,
        ResponseType::RespAckPageFull,
        0,
        &MsgData::from_word(0),
    ));
    com.add_response(ack(RequestType::ReqPageBufferCalcCRC, 0));
    com.add_response(ack(RequestType::ReqPageBufferWriteToFlash, 0));
}

#[test]
fn crc_mismatch_retries_once_then_succeeds() {
    // One app page of one word (page size 4).
    let image_bytes = vec![0x11, 0x22, 0x33, 0x44];
    let crc = crc32(&image_bytes);

    let mut com = ComSimulator::new();
    script_init(&mut com, 0, 4, 2, 1);
    com.add_response(ack(RequestType::ReqFlashWriteErasePage, 0));
    // First transaction: the device reports a CRC mismatch.
    com.add_response(ack(RequestType::ReqPageBufferClear, 0));
    com.add_response(Msg::new(
        RequestType::ReqPageBufferWriteWord,
        ResponseType::RespAckPageFull,
        0,
        &MsgData::from_word(0),
    ));
    com.add_response(Msg::new(
        RequestType::ReqPageBufferCalcCRC,
        ResponseType::RespErrCRCInvld,
        0,
        &MsgData::from_word(0),
    ));
    // Retry: a full fresh transaction succeeds.
    script_page_txn_one_word(&mut com);
    // Verification: app CRC write, then both CRC reads agree.
    com.add_response(ack(RequestType::ReqFlashWriteAppCRC, 0));
    com.add_response(ack(RequestType::ReqAppInfoCRCCalc, crc));
    com.add_response(ack(RequestType::ReqAppInfoCRCStrd, crc));

    let mut device = Device::new(com);
    device.init().unwrap();
    device.flash(&AppImage::from_bytes(image_bytes)).unwrap();
}

#[test]
fn crc_mismatch_twice_is_fatal() {
    let mut com = ComSimulator::new();
    script_init(&mut com, 0, 4, 2, 1);
    com.add_response(ack(RequestType::ReqFlashWriteErasePage, 0));
    for _ in 0..2 {
        com.add_response(ack(RequestType::ReqPageBufferClear, 0));
        com.add_response(Msg::new(
            RequestType::ReqPageBufferWriteWord,
            ResponseType::RespAckPageFull,
            0,
            &MsgData::from_word(0),
        ));
        com.add_response(Msg::new(
            RequestType::ReqPageBufferCalcCRC,
            ResponseType::RespErrCRCInvld,
            0,
            &MsgData::from_word(0),
        ));
    }

    let mut device = Device::new(com);
    device.init().unwrap();
    let r = device.flash(&AppImage::from_bytes(vec![0x11, 0x22, 0x33, 0x44]));
    assert_eq!(
        r,
        Err(ComError::MsgError {
            expected: RequestType::ReqPageBufferCalcCRC,
            observed: RequestType::ReqPageBufferCalcCRC,
            response: ResponseType::RespErrCRCInvld,
        })
    );
}

#[test]
fn crc_readback_mismatch_is_fatal() {
    let image_bytes = vec![0x11, 0x22, 0x33, 0x44];
    let crc = crc32(&image_bytes);

    let mut com = ComSimulator::new();
    script_init(&mut com, 0, 4, 2, 1);
    com.add_response(ack(RequestType::ReqFlashWriteErasePage, 0));
    script_page_txn_one_word(&mut com);
    com.add_response(ack(RequestType::ReqFlashWriteAppCRC, 0));
    // The device reads back a different calculated CRC.
    com.add_response(ack(RequestType::ReqAppInfoCRCCalc, 0xDEAD));

    let mut device = Device::new(com);
    device.init().unwrap();
    let r = device.flash(&AppImage::from_bytes(image_bytes));
    assert_eq!(
        r,
        Err(ComError::CrcMismatch {
            expected: crc,
            observed: 0xDEAD,
        })
    );
}
