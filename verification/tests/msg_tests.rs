use franklyboot::com::ComError;
use franklyboot::msg::{Msg, MsgData, NodeID, RequestType, ResponseType};

#[test]
fn request_type_convert_to_u16() {
    assert_eq!(RequestType::ReqPing.to_u16(), 0x0001);
    assert_eq!(RequestType::ReqResetDevice.to_u16(), 0x0011);
    assert_eq!(RequestType::ReqStartApp.to_u16(), 0x0012);
    assert_eq!(RequestType::ReqDevInfoBootloaderVersion.to_u16(), 0x0101);
    assert_eq!(RequestType::ReqDevInfoBootloaderCRC.to_u16(), 0x0102);
    assert_eq!(RequestType::ReqDevInfoVID.to_u16(), 0x0103);
    assert_eq!(RequestType::ReqDevInfoPID.to_u16(), 0x0104);
    assert_eq!(RequestType::ReqDevInfoPRD.to_u16(), 0x0105);
    assert_eq!(RequestType::ReqDevInfoUID.to_u16(), 0x0106);
    assert_eq!(RequestType::ReqFlashInfoStartAddr.to_u16(), 0x0201);
    assert_eq!(RequestType::ReqFlashInfoPageSize.to_u16(), 0x0202);
    assert_eq!(RequestType::ReqFlashInfoNumPages.to_u16(), 0x0203);
    assert_eq!(RequestType::ReqAppInfoPageIdx.to_u16(), 0x0301);
    assert_eq!(RequestType::ReqAppInfoCRCCalc.to_u16(), 0x0302);
    assert_eq!(RequestType::ReqAppInfoCRCStrd.to_u16(), 0x0303);
    assert_eq!(RequestType::ReqFlashReadWord.to_u16(), 0x0401);
    assert_eq!(RequestType::ReqPageBufferClear.to_u16(), 0x1001);
    assert_eq!(RequestType::ReqPageBufferReadWord.to_u16(), 0x1002);
    assert_eq!(RequestType::ReqPageBufferWriteWord.to_u16(), 0x1003);
    assert_eq!(RequestType::ReqPageBufferCalcCRC.to_u16(), 0x1004);
    assert_eq!(RequestType::ReqPageBufferWriteToFlash.to_u16(), 0x1005);
    assert_eq!(RequestType::ReqFlashWriteErasePage.to_u16(), 0x1101);
    assert_eq!(RequestType::ReqFlashWriteAppCRC.to_u16(), 0x1102);
}

#[test]
fn request_type_convert_from_u16() {
    assert_eq!(RequestType::from_u16(0x0001), RequestType::ReqPing);
    assert_eq!(RequestType::from_u16(0x0011), RequestType::ReqResetDevice);
    assert_eq!(RequestType::from_u16(0x0012), RequestType::ReqStartApp);
    assert_eq!(
        RequestType::from_u16(0x0101),
        RequestType::ReqDevInfoBootloaderVersion
    );
    assert_eq!(
        RequestType::from_u16(0x0102),
        RequestType::ReqDevInfoBootloaderCRC
    );
    assert_eq!(RequestType::from_u16(0x0103), RequestType::ReqDevInfoVID);
    assert_eq!(RequestType::from_u16(0x0104), RequestType::ReqDevInfoPID);
    assert_eq!(RequestType::from_u16(0x0105), RequestType::ReqDevInfoPRD);
    assert_eq!(RequestType::from_u16(0x0106), RequestType::ReqDevInfoUID);
    assert_eq!(
        RequestType::from_u16(0x0201),
        RequestType::ReqFlashInfoStartAddr
    );
    assert_eq!(
        RequestType::from_u16(0x0202),
        RequestType::ReqFlashInfoPageSize
    );
    assert_eq!(
        RequestType::from_u16(0x0203),
        RequestType::ReqFlashInfoNumPages
    );
    assert_eq!(RequestType::from_u16(0x0301), RequestType::ReqAppInfoPageIdx);
    assert_eq!(RequestType::from_u16(0x0302), RequestType::ReqAppInfoCRCCalc);
    assert_eq!(RequestType::from_u16(0x0303), RequestType::ReqAppInfoCRCStrd);
    assert_eq!(RequestType::from_u16(0x0401), RequestType::ReqFlashReadWord);
    assert_eq!(RequestType::from_u16(0x1001), RequestType::ReqPageBufferClear);
    assert_eq!(
        RequestType::from_u16(0x1002),
        RequestType::ReqPageBufferReadWord
    );
    assert_eq!(
        RequestType::from_u16(0x1003),
        RequestType::ReqPageBufferWriteWord
    );
    assert_eq!(
        RequestType::from_u16(0x1004),
        RequestType::ReqPageBufferCalcCRC
    );
    assert_eq!(
        RequestType::from_u16(0x1005),
        RequestType::ReqPageBufferWriteToFlash
    );
    assert_eq!(
        RequestType::from_u16(0x1101),
        RequestType::ReqFlashWriteErasePage
    );
    assert_eq!(
        RequestType::from_u16(0x1102),
        RequestType::ReqFlashWriteAppCRC
    );
}

#[test]
fn response_convert_to_u8() {
    assert_eq!(ResponseType::RespNone.to_u8(), 0x00);
    assert_eq!(ResponseType::RespAck.to_u8(), 0x01);
    assert_eq!(ResponseType::RespErr.to_u8(), 0xFE);
    assert_eq!(ResponseType::RespUnknownReq.to_u8(), 0xFD);
    assert_eq!(ResponseType::RespErrNotSupported.to_u8(), 0xFC);
    assert_eq!(ResponseType::RespErrCRCInvld.to_u8(), 0xFB);
    assert_eq!(ResponseType::RespAckPageFull.to_u8(), 0xFA);
    assert_eq!(ResponseType::RespErrPageFull.to_u8(), 0xF9);
    assert_eq!(ResponseType::RespErrInvldArg.to_u8(), 0xF8);
}

#[test]
fn response_convert_from_u8() {
    assert_eq!(ResponseType::from_u8(0x00), ResponseType::RespNone);
    assert_eq!(ResponseType::from_u8(0x01), ResponseType::RespAck);
    assert_eq!(ResponseType::from_u8(0xFE), ResponseType::RespErr);
    assert_eq!(ResponseType::from_u8(0xFD), ResponseType::RespUnknownReq);
    assert_eq!(ResponseType::from_u8(0xFC), ResponseType::RespErrNotSupported);
    assert_eq!(ResponseType::from_u8(0xFB), ResponseType::RespErrCRCInvld);
    assert_eq!(ResponseType::from_u8(0xFA), ResponseType::RespAckPageFull);
    assert_eq!(ResponseType::from_u8(0xF9), ResponseType::RespErrPageFull);
    assert_eq!(ResponseType::from_u8(0xF8), ResponseType::RespErrInvldArg);
}

#[test]
fn request_type_roundtrip_all_kinds() {
    let kinds = [
        RequestType::ReqPing,
        RequestType::ReqResetDevice,
        RequestType::ReqStartApp,
        RequestType::ReqDevInfoBootloaderVersion,
        RequestType::ReqDevInfoBootloaderCRC,
        RequestType::ReqDevInfoVID,
        RequestType::ReqDevInfoPID,
        RequestType::ReqDevInfoPRD,
        RequestType::ReqDevInfoUID,
        RequestType::ReqFlashInfoStartAddr,
        RequestType::ReqFlashInfoPageSize,
        RequestType::ReqFlashInfoNumPages,
        RequestType::ReqAppInfoPageIdx,
        RequestType::ReqAppInfoCRCCalc,
        RequestType::ReqAppInfoCRCStrd,
        RequestType::ReqFlashReadWord,
        RequestType::ReqPageBufferClear,
        RequestType::ReqPageBufferReadWord,
        RequestType::ReqPageBufferWriteWord,
        RequestType::ReqPageBufferCalcCRC,
        RequestType::ReqPageBufferWriteToFlash,
        RequestType::ReqFlashWriteErasePage,
        RequestType::ReqFlashWriteAppCRC,
    ];
    for kind in kinds {
        assert_eq!(RequestType::from_u16(kind.to_u16()), kind);
    }
}

#[test]
fn response_type_roundtrip_all_kinds() {
    let kinds = [
        ResponseType::RespNone,
        ResponseType::RespAck,
        ResponseType::RespErr,
        ResponseType::RespUnknownReq,
        ResponseType::RespErrNotSupported,
        ResponseType::RespErrCRCInvld,
        ResponseType::RespAckPageFull,
        ResponseType::RespErrPageFull,
        ResponseType::RespErrInvldArg,
    ];
    for kind in kinds {
        assert_eq!(ResponseType::from_u8(kind.to_u8()), kind);
    }
}

#[test]
fn try_from_unknown_codes() {
    assert_eq!(RequestType::try_from_u16(0x0000), None);
    assert_eq!(RequestType::try_from_u16(0xABCD), None);
    assert_eq!(ResponseType::try_from_u8(0x42), None);
}

#[test]
fn msg_data_word_roundtrip() {
    let data = MsgData::from_word(0x01020304);
    assert_eq!(data.to_word(), 0x01020304);
    assert_eq!(data.get_byte(0), 0x04);
    assert_eq!(data.get_byte(1), 0x03);
    assert_eq!(data.get_byte(2), 0x02);
    assert_eq!(data.get_byte(3), 0x01);
    let rebuilt = MsgData::from_bytes(0x04, 0x03, 0x02, 0x01);
    assert_eq!(rebuilt.to_word(), 0x01020304);
}

#[test]
fn msg_raw_layout() {
    let msg = Msg::new(
        RequestType::ReqFlashWriteAppCRC,
        ResponseType::RespAck,
        0x55,
        &MsgData::from_word(0xDEADBEEF),
    );
    let raw = msg.to_raw_data_array();
    assert_eq!(raw, [0x02, 0x11, 0x01, 0x55, 0xEF, 0xBE, 0xAD, 0xDE]);
}

#[test]
fn msg_raw_roundtrip() {
    let msg = Msg::new(
        RequestType::ReqPageBufferWriteWord,
        ResponseType::RespAckPageFull,
        0x7F,
        &MsgData::from_word(0x11223344),
    );
    let raw = msg.to_raw_data_array();
    let decoded = Msg::from_raw_data_array(&raw).unwrap();
    assert_eq!(decoded, msg);
}

#[test]
fn msg_from_raw_unknown_codes() {
    let bad_request = [0xFF, 0xFF, 0x01, 0x00, 0x00, 0x00, 0x00, 0x00];
    assert!(matches!(
        Msg::from_raw_data_array(&bad_request),
        Err(ComError::DecodeError(0xFFFF))
    ));
    let bad_response = [0x01, 0x00, 0x42, 0x00, 0x00, 0x00, 0x00, 0x00];
    assert!(matches!(
        Msg::from_raw_data_array(&bad_response),
        Err(ComError::DecodeError(0x42))
    ));
}

#[test]
fn response_ok_check() {
    let request = Msg::new_std_request(RequestType::ReqPing);
    let good = Msg::new(
        RequestType::ReqPing,
        ResponseType::RespAck,
        0,
        &MsgData::from_word(1),
    );
    assert!(request.is_response_ok(&good).is_ok());
    let wrong_kind = Msg::new(
        RequestType::ReqResetDevice,
        ResponseType::RespAck,
        0,
        &MsgData::from_word(1),
    );
    assert!(request.is_response_ok(&wrong_kind).is_err());
    let not_ack = Msg::new(
        RequestType::ReqPing,
        ResponseType::RespErr,
        0,
        &MsgData::from_word(1),
    );
    assert!(request.is_response_ok(&not_ack).is_err());
}

#[test]
fn node_id_variants() {
    assert_eq!(NodeID::Specific(7), NodeID::Specific(7));
    assert_ne!(NodeID::Broadcast, NodeID::Specific(0));
}
