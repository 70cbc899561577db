//! Message codec: request/response kinds, the 4-byte payload, and the
//! fixed 8-byte little-endian wire frame.

use vstd::prelude::*;

use crate::com::ComError;

verus! {

// Node addressing --------------------------------------------------------

/// Addressee of an exchange on a multi-drop bus. `Broadcast` is only used
/// for discovery; `Specific(n)` addresses node `n`.
#[derive(Debug, PartialEq, Eq, Structural, Copy, Clone)]
pub enum NodeID {
    Broadcast,
    Specific(u8),
}

// Request kinds ----------------------------------------------------------

/// Closed enumeration of the request kinds of the protocol, each mapped
/// to a 16-bit wire code.
#[derive(Debug, PartialEq, Eq, Structural, Copy, Clone)]
pub enum RequestType {
    /// Ping device; the response carries the bootloader version
    ReqPing,
    /// Reset the device (hardware reset)
    ReqResetDevice,
    /// Start the application and exit the bootloader
    ReqStartApp,
    /// Read the bootloader version
    ReqDevInfoBootloaderVersion,
    /// CRC of the bootloader flash area
    ReqDevInfoBootloaderCRC,
    /// Read the vendor id
    ReqDevInfoVID,
    /// Read the product id
    ReqDevInfoPID,
    /// Read the production date
    ReqDevInfoPRD,
    /// Read the device unique id
    ReqDevInfoUID,
    /// Start address of the flash area
    ReqFlashInfoStartAddr,
    /// Size in bytes of one flash page
    ReqFlashInfoPageSize,
    /// Number of flash pages (bootloader area included)
    ReqFlashInfoNumPages,
    /// First page index of the app area
    ReqAppInfoPageIdx,
    /// CRC calculated over the app flash area
    ReqAppInfoCRCCalc,
    /// Stored CRC value used for safe startup
    ReqAppInfoCRCStrd,
    /// Read a word from the flash
    ReqFlashReadWord,
    /// Clear the page buffer (RAM)
    ReqPageBufferClear,
    /// Read a word from the page buffer
    ReqPageBufferReadWord,
    /// Write a word to the page buffer
    ReqPageBufferWriteWord,
    /// CRC over the page buffer
    ReqPageBufferCalcCRC,
    /// Commit the page buffer to a flash page
    ReqPageBufferWriteToFlash,
    /// Erase a flash page
    ReqFlashWriteErasePage,
    /// Write the app CRC to the flash
    ReqFlashWriteAppCRC,
}

impl RequestType {
    /// 16-bit wire code of this request kind.
    pub open spec fn spec_code(self) -> u16 {
        match self {
            RequestType::ReqPing => 0x0001,
            RequestType::ReqResetDevice => 0x0011,
            RequestType::ReqStartApp => 0x0012,
            RequestType::ReqDevInfoBootloaderVersion => 0x0101,
            RequestType::ReqDevInfoBootloaderCRC => 0x0102,
            RequestType::ReqDevInfoVID => 0x0103,
            RequestType::ReqDevInfoPID => 0x0104,
            RequestType::ReqDevInfoPRD => 0x0105,
            RequestType::ReqDevInfoUID => 0x0106,
            RequestType::ReqFlashInfoStartAddr => 0x0201,
            RequestType::ReqFlashInfoPageSize => 0x0202,
            RequestType::ReqFlashInfoNumPages => 0x0203,
            RequestType::ReqAppInfoPageIdx => 0x0301,
            RequestType::ReqAppInfoCRCCalc => 0x0302,
            RequestType::ReqAppInfoCRCStrd => 0x0303,
            RequestType::ReqFlashReadWord => 0x0401,
            RequestType::ReqPageBufferClear => 0x1001,
            RequestType::ReqPageBufferReadWord => 0x1002,
            RequestType::ReqPageBufferWriteWord => 0x1003,
            RequestType::ReqPageBufferCalcCRC => 0x1004,
            RequestType::ReqPageBufferWriteToFlash => 0x1005,
            RequestType::ReqFlashWriteErasePage => 0x1101,
            RequestType::ReqFlashWriteAppCRC => 0x1102,
        }
    }

    /// Decoding of a 16-bit wire code; codes outside the closed set decode
    /// to `None`.
    pub open spec fn spec_from_code(value: u16) -> Option<RequestType> {
        match value {
            0x0001 => Some(RequestType::ReqPing),
            0x0011 => Some(RequestType::ReqResetDevice),
            0x0012 => Some(RequestType::ReqStartApp),
            0x0101 => Some(RequestType::ReqDevInfoBootloaderVersion),
            0x0102 => Some(RequestType::ReqDevInfoBootloaderCRC),
            0x0103 => Some(RequestType::ReqDevInfoVID),
            0x0104 => Some(RequestType::ReqDevInfoPID),
            0x0105 => Some(RequestType::ReqDevInfoPRD),
            0x0106 => Some(RequestType::ReqDevInfoUID),
            0x0201 => Some(RequestType::ReqFlashInfoStartAddr),
            0x0202 => Some(RequestType::ReqFlashInfoPageSize),
            0x0203 => Some(RequestType::ReqFlashInfoNumPages),
            0x0301 => Some(RequestType::ReqAppInfoPageIdx),
            0x0302 => Some(RequestType::ReqAppInfoCRCCalc),
            0x0303 => Some(RequestType::ReqAppInfoCRCStrd),
            0x0401 => Some(RequestType::ReqFlashReadWord),
            0x1001 => Some(RequestType::ReqPageBufferClear),
            0x1002 => Some(RequestType::ReqPageBufferReadWord),
            0x1003 => Some(RequestType::ReqPageBufferWriteWord),
            0x1004 => Some(RequestType::ReqPageBufferCalcCRC),
            0x1005 => Some(RequestType::ReqPageBufferWriteToFlash),
            0x1101 => Some(RequestType::ReqFlashWriteErasePage),
            0x1102 => Some(RequestType::ReqFlashWriteAppCRC),
            _ => None,
        }
    }

    /// Encode this request kind as its 16-bit wire code.
    pub fn to_u16(&self) -> (r: u16)
        ensures
            r == self.spec_code(),
    {
        match self {
            RequestType::ReqPing => 0x0001,
            RequestType::ReqResetDevice => 0x0011,
            RequestType::ReqStartApp => 0x0012,
            RequestType::ReqDevInfoBootloaderVersion => 0x0101,
            RequestType::ReqDevInfoBootloaderCRC => 0x0102,
            RequestType::ReqDevInfoVID => 0x0103,
            RequestType::ReqDevInfoPID => 0x0104,
            RequestType::ReqDevInfoPRD => 0x0105,
            RequestType::ReqDevInfoUID => 0x0106,
            RequestType::ReqFlashInfoStartAddr => 0x0201,
            RequestType::ReqFlashInfoPageSize => 0x0202,
            RequestType::ReqFlashInfoNumPages => 0x0203,
            RequestType::ReqAppInfoPageIdx => 0x0301,
            RequestType::ReqAppInfoCRCCalc => 0x0302,
            RequestType::ReqAppInfoCRCStrd => 0x0303,
            RequestType::ReqFlashReadWord => 0x0401,
            RequestType::ReqPageBufferClear => 0x1001,
            RequestType::ReqPageBufferReadWord => 0x1002,
            RequestType::ReqPageBufferWriteWord => 0x1003,
            RequestType::ReqPageBufferCalcCRC => 0x1004,
            RequestType::ReqPageBufferWriteToFlash => 0x1005,
            RequestType::ReqFlashWriteErasePage => 0x1101,
            RequestType::ReqFlashWriteAppCRC => 0x1102,
        }
    }

    /// Decode a 16-bit wire code that is known to be in the closed set.
    pub fn from_u16(value: u16) -> (r: RequestType)
        requires
            RequestType::spec_from_code(value) is Some,
        ensures
            Some(r) == RequestType::spec_from_code(value),
    {
        match RequestType::try_from_u16(value) {
            Some(r) => r,
            None => vstd::pervasive::unreached(),
        }
    }

    /// Total decoding of a 16-bit wire code; unknown codes give `None`.
    pub fn try_from_u16(value: u16) -> (r: Option<RequestType>)
        ensures
            r == RequestType::spec_from_code(value),
    {
        match value {
            0x0001 => Some(RequestType::ReqPing),
            0x0011 => Some(RequestType::ReqResetDevice),
            0x0012 => Some(RequestType::ReqStartApp),
            0x0101 => Some(RequestType::ReqDevInfoBootloaderVersion),
            0x0102 => Some(RequestType::ReqDevInfoBootloaderCRC),
            0x0103 => Some(RequestType::ReqDevInfoVID),
            0x0104 => Some(RequestType::ReqDevInfoPID),
            0x0105 => Some(RequestType::ReqDevInfoPRD),
            0x0106 => Some(RequestType::ReqDevInfoUID),
            0x0201 => Some(RequestType::ReqFlashInfoStartAddr),
            0x0202 => Some(RequestType::ReqFlashInfoPageSize),
            0x0203 => Some(RequestType::ReqFlashInfoNumPages),
            0x0301 => Some(RequestType::ReqAppInfoPageIdx),
            0x0302 => Some(RequestType::ReqAppInfoCRCCalc),
            0x0303 => Some(RequestType::ReqAppInfoCRCStrd),
            0x0401 => Some(RequestType::ReqFlashReadWord),
            0x1001 => Some(RequestType::ReqPageBufferClear),
            0x1002 => Some(RequestType::ReqPageBufferReadWord),
            0x1003 => Some(RequestType::ReqPageBufferWriteWord),
            0x1004 => Some(RequestType::ReqPageBufferCalcCRC),
            0x1005 => Some(RequestType::ReqPageBufferWriteToFlash),
            0x1101 => Some(RequestType::ReqFlashWriteErasePage),
            0x1102 => Some(RequestType::ReqFlashWriteAppCRC),
            _ => None,
        }
    }
}

/// Encoding a request kind and decoding the code gives the kind back.
pub proof fn lemma_request_code_roundtrip(r: RequestType)
    ensures
        RequestType::spec_from_code(r.spec_code()) == Some(r),
{
}

/// Every code in the closed set decodes to the kind that encodes to it.
pub proof fn lemma_request_code_injective(value: u16)
    ensures
        RequestType::spec_from_code(value) matches Some(r) ==> r.spec_code() == value,
{
}

// Response kinds ---------------------------------------------------------

/// Closed enumeration of the response kinds of the protocol, each mapped
/// to an 8-bit wire code.
#[derive(Debug, PartialEq, Eq, Structural, Copy, Clone)]
pub enum ResponseType {
    /// Unused / ignored (set on requests)
    RespNone,
    /// Acknowledge
    RespAck,
    /// General error
    RespErr,
    /// Unknown request kind
    RespUnknownReq,
    /// Command known but not supported
    RespErrNotSupported,
    /// CRC check failed
    RespErrCRCInvld,
    /// Acknowledge; the page buffer has just become full
    RespAckPageFull,
    /// Word not writable, the page buffer is already full
    RespErrPageFull,
    /// Invalid argument (out of range, ...)
    RespErrInvldArg,
}

impl ResponseType {
    /// 8-bit wire code of this response kind.
    pub open spec fn spec_code(self) -> u8 {
        match self {
            ResponseType::RespNone => 0x00,
            ResponseType::RespAck => 0x01,
            ResponseType::RespErr => 0xFE,
            ResponseType::RespUnknownReq => 0xFD,
            ResponseType::RespErrNotSupported => 0xFC,
            ResponseType::RespErrCRCInvld => 0xFB,
            ResponseType::RespAckPageFull => 0xFA,
            ResponseType::RespErrPageFull => 0xF9,
            ResponseType::RespErrInvldArg => 0xF8,
        }
    }

    /// Decoding of an 8-bit wire code; codes outside the closed set decode
    /// to `None`.
    pub open spec fn spec_from_code(value: u8) -> Option<ResponseType> {
        match value {
            0x00 => Some(ResponseType::RespNone),
            0x01 => Some(ResponseType::RespAck),
            0xFE => Some(ResponseType::RespErr),
            0xFD => Some(ResponseType::RespUnknownReq),
            0xFC => Some(ResponseType::RespErrNotSupported),
            0xFB => Some(ResponseType::RespErrCRCInvld),
            0xFA => Some(ResponseType::RespAckPageFull),
            0xF9 => Some(ResponseType::RespErrPageFull),
            0xF8 => Some(ResponseType::RespErrInvldArg),
            _ => None,
        }
    }

    /// Encode this response kind as its 8-bit wire code.
    pub fn to_u8(&self) -> (r: u8)
        ensures
            r == self.spec_code(),
    {
        match self {
            ResponseType::RespNone => 0x00,
            ResponseType::RespAck => 0x01,
            ResponseType::RespErr => 0xFE,
            ResponseType::RespUnknownReq => 0xFD,
            ResponseType::RespErrNotSupported => 0xFC,
            ResponseType::RespErrCRCInvld => 0xFB,
            ResponseType::RespAckPageFull => 0xFA,
            ResponseType::RespErrPageFull => 0xF9,
            ResponseType::RespErrInvldArg => 0xF8,
        }
    }

    /// Decode an 8-bit wire code that is known to be in the closed set.
    pub fn from_u8(value: u8) -> (r: ResponseType)
        requires
            ResponseType::spec_from_code(value) is Some,
        ensures
            Some(r) == ResponseType::spec_from_code(value),
    {
        match ResponseType::try_from_u8(value) {
            Some(r) => r,
            None => vstd::pervasive::unreached(),
        }
    }

    /// Total decoding of an 8-bit wire code; unknown codes give `None`.
    pub fn try_from_u8(value: u8) -> (r: Option<ResponseType>)
        ensures
            r == ResponseType::spec_from_code(value),
    {
        match value {
            0x00 => Some(ResponseType::RespNone),
            0x01 => Some(ResponseType::RespAck),
            0xFE => Some(ResponseType::RespErr),
            0xFD => Some(ResponseType::RespUnknownReq),
            0xFC => Some(ResponseType::RespErrNotSupported),
            0xFB => Some(ResponseType::RespErrCRCInvld),
            0xFA => Some(ResponseType::RespAckPageFull),
            0xF9 => Some(ResponseType::RespErrPageFull),
            0xF8 => Some(ResponseType::RespErrInvldArg),
            _ => None,
        }
    }
}

/// Encoding a response kind and decoding the code gives the kind back.
pub proof fn lemma_response_code_roundtrip(r: ResponseType)
    ensures
        ResponseType::spec_from_code(r.spec_code()) == Some(r),
{
}

/// Every code in the closed set decodes to the kind that encodes to it.
pub proof fn lemma_response_code_injective(value: u8)
    ensures
        ResponseType::spec_from_code(value) matches Some(r) ==> r.spec_code() == value,
{
}

// Payload ----------------------------------------------------------------

/// The 4-byte message payload: one unsigned 32-bit word, convertible to
/// and from its four bytes LSB-first.
#[derive(Debug, PartialEq, Copy, Clone)]
pub struct MsgData {
    pub word: u32,
}

/// 32-bit word read from four bytes LSB-first:
/// `b0 | (b1<<8) | (b2<<16) | (b3<<24)`.
pub open spec fn spec_word_from_bytes(b0: u8, b1: u8, b2: u8, b3: u8) -> u32 {
    (b0 as u32) | ((b1 as u32) << 8) | ((b2 as u32) << 16) | ((b3 as u32) << 24)
}

impl MsgData {
    /// The payload as an unsigned 32-bit word.
    pub open spec fn spec_word(self) -> u32 {
        self.word
    }

    /// Byte `i` of the payload, LSB-first.
    pub open spec fn spec_byte(self, i: int) -> u8 {
        if i == 0 {
            (self.word & 0xFF) as u8
        } else if i == 1 {
            ((self.word >> 8) & 0xFF) as u8
        } else if i == 2 {
            ((self.word >> 16) & 0xFF) as u8
        } else {
            ((self.word >> 24) & 0xFF) as u8
        }
    }

    /// Payload holding the given 32-bit word.
    pub fn from_word(word: u32) -> (r: MsgData)
        ensures
            r.spec_word() == word,
    {
        MsgData { word }
    }

    /// Zero-filled payload.
    pub fn zero() -> (r: MsgData)
        ensures
            r.spec_word() == 0,
    {
        MsgData { word: 0 }
    }

    /// The payload as an unsigned 32-bit word, read LSB-first.
    pub fn to_word(&self) -> (r: u32)
        ensures
            r == self.spec_word(),
    {
        self.word
    }

    /// Payload assembled from four bytes, LSB-first.
    pub fn from_bytes(b0: u8, b1: u8, b2: u8, b3: u8) -> (r: MsgData)
        ensures
            r.spec_word() == spec_word_from_bytes(b0, b1, b2, b3),
            r.spec_byte(0) == b0,
            r.spec_byte(1) == b1,
            r.spec_byte(2) == b2,
            r.spec_byte(3) == b3,
    {
        let word: u32 = (b0 as u32) | ((b1 as u32) << 8) | ((b2 as u32) << 16) | ((b3 as u32)
            << 24);
        proof {
            lemma_word_bytes_roundtrip(b0, b1, b2, b3);
        }
        MsgData { word }
    }

    /// Byte `idx` of the payload, LSB-first.
    pub fn get_byte(&self, idx: usize) -> (r: u8)
        requires
            idx < 4,
        ensures
            r == self.spec_byte(idx as int),
    {
        if idx == 0 {
            (self.word & 0xFF) as u8
        } else if idx == 1 {
            ((self.word >> 8) & 0xFF) as u8
        } else if idx == 2 {
            ((self.word >> 16) & 0xFF) as u8
        } else {
            ((self.word >> 24) & 0xFF) as u8
        }
    }
}

/// Decomposing a word into its four LSB-first bytes and reading them back
/// yields the word.
pub proof fn lemma_word_roundtrip(data: MsgData)
    ensures
        spec_word_from_bytes(
            data.spec_byte(0),
            data.spec_byte(1),
            data.spec_byte(2),
            data.spec_byte(3),
        ) == data.spec_word(),
{
    let w = data.spec_word();
    assert(((w & 0xFF) as u8 as u32) | ((((w >> 8) & 0xFF) as u8 as u32) << 8) | ((((w >> 16)
        & 0xFF) as u8 as u32) << 16) | ((((w >> 24) & 0xFF) as u8 as u32) << 24) == w)
        by (bit_vector);
}

/// Reading four bytes as a word and decomposing the word again yields the
/// same four bytes.
pub proof fn lemma_word_bytes_roundtrip(b0: u8, b1: u8, b2: u8, b3: u8)
    ensures
        (MsgData { word: spec_word_from_bytes(b0, b1, b2, b3) }).spec_byte(0) == b0,
        (MsgData { word: spec_word_from_bytes(b0, b1, b2, b3) }).spec_byte(1) == b1,
        (MsgData { word: spec_word_from_bytes(b0, b1, b2, b3) }).spec_byte(2) == b2,
        (MsgData { word: spec_word_from_bytes(b0, b1, b2, b3) }).spec_byte(3) == b3,
{
    let w = spec_word_from_bytes(b0, b1, b2, b3);
    assert({
        let w = (b0 as u32) | ((b1 as u32) << 8) | ((b2 as u32) << 16) | ((b3 as u32) << 24);
        (w & 0xFF) as u8 == b0 && ((w >> 8) & 0xFF) as u8 == b1 && ((w >> 16) & 0xFF) as u8 == b2
            && ((w >> 24) & 0xFF) as u8 == b3
    }) by (bit_vector);
}

// Message ----------------------------------------------------------------

/// One protocol message: request kind, response kind, packet id and the
/// 4-byte payload. On the wire it is a flat 8-byte little-endian frame.
#[derive(Debug, PartialEq, Copy, Clone)]
pub struct Msg {
    pub request: RequestType,
    pub response: ResponseType,
    pub packet_id: u8,
    pub data: MsgData,
}

impl Msg {
    /// The 8-byte wire frame of this message: request code (u16 LE),
    /// response code, packet id, then the four payload bytes LSB-first.
    pub open spec fn spec_raw(self) -> Seq<u8> {
        seq![
            (self.request.spec_code() & 0xFF) as u8,
            (self.request.spec_code() >> 8) as u8,
            self.response.spec_code(),
            self.packet_id,
            self.data.spec_byte(0),
            self.data.spec_byte(1),
            self.data.spec_byte(2),
            self.data.spec_byte(3),
        ]
    }

    /// Decoding of an 8-byte frame; an unknown request or response code
    /// gives `None`.
    pub open spec fn spec_from_raw(raw: Seq<u8>) -> Option<Msg>
        recommends
            raw.len() == 8,
    {
        let code = (raw[0] as u16) | ((raw[1] as u16) << 8);
        match (RequestType::spec_from_code(code), ResponseType::spec_from_code(raw[2])) {
            (Some(request), Some(response)) => Some(
                Msg {
                    request,
                    response,
                    packet_id: raw[3],
                    data: MsgData { word: spec_word_from_bytes(raw[4], raw[5], raw[6], raw[7]) },
                },
            ),
            _ => None,
        }
    }

    /// Build a message from its four fields.
    pub fn new(request: RequestType, response: ResponseType, packet_id: u8, data: &MsgData) -> (r:
        Msg)
        ensures
            r == (Msg { request, response, packet_id, data: *data }),
    {
        Msg { request, response, packet_id, data: *data }
    }

    /// The standard request frame of a kind: response kind `RespNone`,
    /// packet id zero, zero payload.
    pub open spec fn spec_std_request(request: RequestType) -> Msg {
        Msg { request, response: ResponseType::RespNone, packet_id: 0, data: MsgData { word: 0 } }
    }

    /// Build a standard request frame: response kind `RespNone`, packet id
    /// zero, zero payload.
    pub fn new_std_request(request: RequestType) -> (r: Msg)
        ensures
            r == Msg::spec_std_request(request),
    {
        Msg { request, response: ResponseType::RespNone, packet_id: 0, data: MsgData { word: 0 } }
    }

    pub fn get_request(&self) -> (r: RequestType)
        ensures
            r == self.request,
    {
        self.request
    }

    pub fn get_response(&self) -> (r: ResponseType)
        ensures
            r == self.response,
    {
        self.response
    }

    pub fn get_packet_id(&self) -> (r: u8)
        ensures
            r == self.packet_id,
    {
        self.packet_id
    }

    pub fn get_data(&self) -> (r: MsgData)
        ensures
            r == self.data,
    {
        self.data
    }

    /// Encode this message as its 8-byte wire frame.
    pub fn to_raw_data_array(&self) -> (r: [u8; 8])
        ensures
            r@ == self.spec_raw(),
    {
        let code: u16 = self.request.to_u16();
        let r: [u8; 8] = [
            (code & 0xFF) as u8,
            (code >> 8) as u8,
            self.response.to_u8(),
            self.packet_id,
            self.data.get_byte(0),
            self.data.get_byte(1),
            self.data.get_byte(2),
            self.data.get_byte(3),
        ];
        proof {
            assert(r@ =~= self.spec_raw());
        }
        r
    }

    /// Decode an 8-byte wire frame. An unknown request or response code is
    /// a protocol decode error, never a panic.
    pub fn from_raw_data_array(raw: &[u8; 8]) -> (r: Result<Msg, ComError>)
        ensures
            match Msg::spec_from_raw(raw@) {
                Some(msg) => r == Ok::<Msg, ComError>(msg),
                None => r matches Err(e) && e matches ComError::DecodeError(_),
            },
    {
        let code: u16 = (raw[0] as u16) | ((raw[1] as u16) << 8);
        let request = match RequestType::try_from_u16(code) {
            Some(request) => request,
            None => {
                return Err(ComError::DecodeError(code as u32));
            },
        };
        let response = match ResponseType::try_from_u8(raw[2]) {
            Some(response) => response,
            None => {
                return Err(ComError::DecodeError(raw[2] as u32));
            },
        };
        Ok(
            Msg {
                request,
                response,
                packet_id: raw[3],
                data: MsgData::from_bytes(raw[4], raw[5], raw[6], raw[7]),
            },
        )
    }

    /// Success check for one request/response exchange: the response must
    /// echo the request kind and acknowledge it. Any other combination is
    /// an expectation failure carrying both observed kinds.
    pub fn is_response_ok(&self, response: &Msg) -> (r: Result<(), ComError>)
        ensures
            r == if response.request == self.request && response.response
                == ResponseType::RespAck {
                Ok::<(), ComError>(())
            } else {
                Err::<(), ComError>(
                    ComError::MsgError {
                        expected: self.request,
                        observed: response.request,
                        response: response.response,
                    },
                )
            },
    {
        if response.request == self.request && response.response == ResponseType::RespAck {
            Ok(())
        } else {
            Err(
                ComError::MsgError {
                    expected: self.request,
                    observed: response.request,
                    response: response.response,
                },
            )
        }
    }
}

/// Round trip of the frame codec: decoding an encoded message gives the
/// message back, for every message with valid kinds.
pub proof fn lemma_msg_raw_roundtrip(m: Msg)
    ensures
        Msg::spec_from_raw(m.spec_raw()) == Some(m),
{
    let code = m.request.spec_code();
    let raw = m.spec_raw();
    assert(((code & 0xFF) as u8 as u16) | (((code >> 8) as u8 as u16) << 8) == code)
        by (bit_vector);
    lemma_request_code_roundtrip(m.request);
    lemma_response_code_roundtrip(m.response);
    lemma_word_roundtrip(m.data);
}

} // verus!
