use franklyboot::com::{ComError, ComSimulator};
use franklyboot::device::DeviceEntry;
use franklyboot::msg::{Msg, MsgData, RequestType, ResponseType};

#[test]
fn device_entry_new() {
    let entry = DeviceEntry::new(
        "Bootloader Version",
        RequestType::ReqDevInfoBootloaderVersion,
    );

    assert_eq!(entry.get_name(), "Bootloader Version");
    assert_eq!(
        entry.get_request_type(),
        RequestType::ReqDevInfoBootloaderVersion
    );
    assert_eq!(entry.get_value(), None);
}

#[test]
fn device_entry_read() {
    let mut entry = DeviceEntry::new(
        "Bootloader Version",
        RequestType::ReqDevInfoBootloaderVersion,
    );

    let mut com = ComSimulator::new();
    com.add_response(Msg::new(
        RequestType::ReqDevInfoBootloaderVersion,
        ResponseType::RespAck,
        0,
        &MsgData::from_word(0x01020304),
    ));

    let result = entry.read_from_device(&mut com);
    assert_eq!(result, Ok(true));
    assert_eq!(entry.get_value(), Some(0x01020304));
}

#[test]
fn device_entry_read_send_error() {
    let mut entry = DeviceEntry::new(
        "Bootloader Version",
        RequestType::ReqDevInfoBootloaderVersion,
    );

    let mut com = ComSimulator::new();
    com.add_response(Msg::new(
        RequestType::ReqDevInfoBootloaderVersion,
        ResponseType::RespAck,
        0,
        &MsgData::from_word(0x01020304),
    ));
    com.set_send_error(ComError::Error("Send error".to_string()));

    let result = entry.read_from_device(&mut com);
    assert_eq!(result, Err(ComError::Error("Send error".to_string())));
    assert_eq!(entry.get_value(), None);
}

#[test]
fn device_entry_read_recv_error() {
    let mut entry = DeviceEntry::new(
        "Bootloader Version",
        RequestType::ReqDevInfoBootloaderVersion,
    );

    let mut com = ComSimulator::new();
    com.add_response(Msg::new(
        RequestType::ReqDevInfoBootloaderVersion,
        ResponseType::RespAck,
        0,
        &MsgData::from_word(0x01020304),
    ));
    com.set_recv_error(ComError::Error("Recv error".to_string()));

    let result = entry.read_from_device(&mut com);
    assert_eq!(result, Err(ComError::Error("Recv error".to_string())));
    assert_eq!(entry.get_value(), None);
}

#[test]
fn device_entry_read_recv_timeout() {
    let mut entry = DeviceEntry::new(
        "Bootloader Version",
        RequestType::ReqDevInfoBootloaderVersion,
    );

    let mut com = ComSimulator::new();
    com.add_response(Msg::new(
        RequestType::ReqDevInfoBootloaderVersion,
        ResponseType::RespAck,
        0,
        &MsgData::from_word(0x01020304),
    ));
    com.set_recv_timeout_error();

    let result = entry.read_from_device(&mut com);
    assert_eq!(result, Ok(false));
    assert_eq!(entry.get_value(), None);
}

#[test]
fn device_entry_timeout_clears_prior_value() {
    let mut entry = DeviceEntry::new(
        "Bootloader Version",
        RequestType::ReqDevInfoBootloaderVersion,
    );

    let mut com = ComSimulator::new();
    com.add_response(Msg::new(
        RequestType::ReqDevInfoBootloaderVersion,
        ResponseType::RespAck,
        0,
        &MsgData::from_word(0x01020304),
    ));
    assert_eq!(entry.read_from_device(&mut com), Ok(true));
    assert_eq!(entry.get_value(), Some(0x01020304));

    com.set_recv_timeout_error();
    assert_eq!(entry.read_from_device(&mut com), Ok(false));
    assert_eq!(entry.get_value(), None);
}

#[test]
fn device_entry_read_protocol_mismatch() {
    let mut entry = DeviceEntry::new(
        "Bootloader Version",
        RequestType::ReqDevInfoBootloaderVersion,
    );

    let mut com = ComSimulator::new();
    com.add_response(Msg::new(
        RequestType::ReqPing,
        ResponseType::RespAck,
        0,
        &MsgData::from_word(0x01020304),
    ));

    let result = entry.read_from_device(&mut com);
    assert_eq!(
        result,
        Err(ComError::MsgError {
            expected: RequestType::ReqDevInfoBootloaderVersion,
            observed: RequestType::ReqPing,
            response: ResponseType::RespAck,
        })
    );
    assert_eq!(entry.get_value(), None);
}

#[test]
fn device_entry_read_not_acknowledged() {
    let mut entry = DeviceEntry::new(
        "Bootloader Version",
        RequestType::ReqDevInfoBootloaderVersion,
    );

    let mut com = ComSimulator::new();
    com.add_response(Msg::new(
        RequestType::ReqDevInfoBootloaderVersion,
        ResponseType::RespErrNotSupported,
        0,
        &MsgData::from_word(0),
    ));

    let result = entry.read_from_device(&mut com);
    assert_eq!(
        result,
        Err(ComError::MsgError {
            expected: RequestType::ReqDevInfoBootloaderVersion,
            observed: RequestType::ReqDevInfoBootloaderVersion,
            response: ResponseType::RespErrNotSupported,
        })
    );
    assert_eq!(entry.get_value(), None);
}
