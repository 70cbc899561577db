use franklyboot::com::{ComConnParams, ComError, ComInterface, ComMode, ComSimulator};
use franklyboot::crc::crc32;
use franklyboot::msg::{Msg, MsgData, RequestType, ResponseType};
use franklyboot::sim::{SIMInterface, SimDevice};

#[test]
fn test_ping_network() {
    let node_lst = vec![1, 20, 3, 52];
    let mut com = SIMInterface::open("sim").unwrap();
    com.config_nodes(node_lst.clone()).unwrap();

    let node_lst_found = com.ping_network().unwrap();

    assert_eq!(node_lst, node_lst_found);
}

#[test]
fn test_sim_net_ping() {
    let node_lst = vec![1, 3, 31, 8];
    let mut com = SIMInterface::open("sim").unwrap();
    com.config_nodes(node_lst).unwrap();
}

#[test]
fn scan_network_sorts_and_dedups() {
    let mut com = SIMInterface::open("sim").unwrap();
    com.config_nodes(vec![1, 20, 3, 52]).unwrap();

    let found = com.scan_network().unwrap();
    assert_eq!(found, vec![1, 3, 20, 52]);
}

#[test]
fn sim_interface_is_network() {
    assert!(SIMInterface::is_network());
    assert!(!ComSimulator::is_network());
}

#[test]
fn broadcast_mode_rejected_on_point_to_point() {
    let mut com = ComSimulator::new();
    assert!(com.set_mode(ComMode::Broadcast).is_err());
    assert!(com.set_mode(ComMode::Specific(3)).is_ok());
}

#[test]
fn scan_network_rejected_on_point_to_point() {
    let mut com = ComSimulator::new();
    assert!(com.scan_network().is_err());
}

#[test]
fn send_to_absent_node_times_out() {
    let mut com = SIMInterface::open("sim").unwrap();
    com.config_nodes(vec![1, 2]).unwrap();
    com.set_mode(ComMode::Specific(99)).unwrap();

    let request = franklyboot::msg::Msg::new_std_request(franklyboot::msg::RequestType::ReqPing);
    assert!(com.send(&request).is_ok());
    assert_eq!(com.recv(), Ok(None));
}

#[test]
fn add_node_rejects_bad_geometry() {
    let mut com = SIMInterface::open("sim").unwrap();
    // page size not a multiple of four
    assert!(com.add_node(1, 0, 6, 8, 2).is_err());
    // app page index not below the page count
    assert!(com.add_node(1, 0, 64, 8, 8).is_err());
    // start address not aligned to the page size
    assert!(com.add_node(1, 3, 64, 8, 2).is_err());
    // a sound geometry is accepted
    assert!(com.add_node(1, 0x08000000, 64, 8, 2).is_ok());
    assert_eq!(com.recv(), Err(ComError::Error("Broadcast receive is not supported".to_string())));
}

#[test]
fn create_and_open_backends() {
    let mut com = SIMInterface::create().unwrap();
    ComInterface::open(&mut com, &ComConnParams::for_sim_device()).unwrap();
    assert_eq!(com.get_timeout(), 0);
    com.set_timeout(100).unwrap();

    let mut sim = ComSimulator::create().unwrap();
    ComInterface::open(&mut sim, &ComConnParams::for_serial_conn("ttyACM0", 115200)).unwrap();
    ComInterface::open(&mut sim, &ComConnParams::for_can_conn("can0")).unwrap();
}

#[test]
fn sim_device_page_buffer_protocol() {
    // One app page of two words (page size 8, pages 1..2).
    let mut d = SimDevice::new(1, 0, 8, 2, 1).unwrap();

    let clear = Msg::new_std_request(RequestType::ReqPageBufferClear);
    assert_eq!(d.respond(&clear).get_response(), ResponseType::RespAck);

    let w1 = Msg::new(
        RequestType::ReqPageBufferWriteWord,
        ResponseType::RespNone,
        0,
        &MsgData::from_word(0x11111111),
    );
    assert_eq!(d.respond(&w1).get_response(), ResponseType::RespAck);

    let w2 = Msg::new(
        RequestType::ReqPageBufferWriteWord,
        ResponseType::RespNone,
        0,
        &MsgData::from_word(0x22222222),
    );
    assert_eq!(d.respond(&w2).get_response(), ResponseType::RespAckPageFull);

    // A third word does not fit.
    assert_eq!(d.respond(&w1).get_response(), ResponseType::RespErrPageFull);

    // Read back word 0 of the buffer.
    let rd = d.respond(&Msg::new(
        RequestType::ReqPageBufferReadWord,
        ResponseType::RespNone,
        0,
        &MsgData::from_word(0),
    ));
    assert_eq!(rd.get_response(), ResponseType::RespAck);
    assert_eq!(rd.get_data().to_word(), 0x11111111);

    // The device checks the page CRC against the payload.
    let page = vec![0x11, 0x11, 0x11, 0x11, 0x22, 0x22, 0x22, 0x22];
    let crc = crc32(&page);
    let good = d.respond(&Msg::new(
        RequestType::ReqPageBufferCalcCRC,
        ResponseType::RespNone,
        0,
        &MsgData::from_word(crc),
    ));
    assert_eq!(good.get_response(), ResponseType::RespAck);
    assert_eq!(good.get_data().to_word(), crc);
    let bad = d.respond(&Msg::new(
        RequestType::ReqPageBufferCalcCRC,
        ResponseType::RespNone,
        0,
        &MsgData::from_word(crc ^ 1),
    ));
    assert_eq!(bad.get_response(), ResponseType::RespErrCRCInvld);

    // Commit the buffer to the app page and read a flash word back.
    let commit = d.respond(&Msg::new(
        RequestType::ReqPageBufferWriteToFlash,
        ResponseType::RespNone,
        0,
        &MsgData::from_word(1),
    ));
    assert_eq!(commit.get_response(), ResponseType::RespAck);
    let word = d.respond(&Msg::new(
        RequestType::ReqFlashReadWord,
        ResponseType::RespNone,
        0,
        &MsgData::from_word(12),
    ));
    assert_eq!(word.get_response(), ResponseType::RespAck);
    assert_eq!(word.get_data().to_word(), 0x22222222);

    // Erasing the page restores the fill value.
    let erase = d.respond(&Msg::new(
        RequestType::ReqFlashWriteErasePage,
        ResponseType::RespNone,
        0,
        &MsgData::from_word(1),
    ));
    assert_eq!(erase.get_response(), ResponseType::RespAck);
    let word = d.respond(&Msg::new(
        RequestType::ReqFlashReadWord,
        ResponseType::RespNone,
        0,
        &MsgData::from_word(12),
    ));
    assert_eq!(word.get_data().to_word(), 0xFFFFFFFF);
}
