//! Simulated bus: an in-process registry of virtual bootloader nodes.
//!
//! Each virtual node models one device bootloader: its attribute set, its
//! app flash area, its page buffer and the stored app CRC, answering the
//! wire protocol request by request. The bus supports both broadcast
//! discovery and specific-node exchanges and is used for tests and
//! dry-runs.

use vstd::arithmetic::mul::lemma_mul_inequality;
use vstd::prelude::*;
use vstd::string::StringExecFns;

use crate::com::{ComConnParams, ComError, ComInterface, ComMode};
use crate::crc::{crc32, spec_crc32};
use crate::image::FLASH_FILL;
use crate::msg::{lemma_msg_raw_roundtrip, spec_word_from_bytes, Msg, MsgData, RequestType, ResponseType};

verus! {

// Byte-region helpers ------------------------------------------------------

/// `post` is `pre` with the region starting at `base` overwritten by
/// `content` and every byte outside that region kept.
pub open spec fn spec_region_overwritten(
    pre: Seq<u8>,
    post: Seq<u8>,
    base: int,
    content: Seq<u8>,
) -> bool {
    &&& post.len() == pre.len()
    &&& forall|i: int| 0 <= i < content.len() ==> post[base + i] == content[i]
    &&& forall|i: int|
        0 <= i < pre.len() && !(base <= i < base + content.len()) ==> post[i] == pre[i]
}

fn fill_region(v: &mut Vec<u8>, base: usize, len: usize, val: u8)
    requires
        base + len <= old(v)@.len(),
    ensures
        final(v)@.len() == old(v)@.len(),
        forall|i: int| base <= i < base + len ==> final(v)@[i] == val,
        forall|i: int|
            0 <= i < old(v)@.len() && !(base <= i < base + len) ==> final(v)@[i] == old(v)@[i],
{
    let total = v.len();
    let mut i: usize = 0;
    while i < len
        invariant
            base + len <= v@.len(),
            v@.len() <= total,
            v@.len() == old(v)@.len(),
            i <= len,
            forall|j: int| base <= j < base + i ==> v@[j] == val,
            forall|j: int|
                0 <= j < v@.len() && !(base <= j < base + i) ==> v@[j] == old(v)@[j],
        decreases len - i,
    {
        v[base + i] = val;
        i = i + 1;
    }
}

fn copy_region(v: &mut Vec<u8>, base: usize, src: &Vec<u8>)
    requires
        base + src@.len() <= old(v)@.len(),
    ensures
        final(v)@.len() == old(v)@.len(),
        forall|i: int| 0 <= i < src@.len() ==> final(v)@[base + i] == src@[i],
        forall|i: int|
            0 <= i < old(v)@.len() && !(base <= i < base + src@.len()) ==> final(v)@[i] == old(
                v,
            )@[i],
{
    let total = v.len();
    let mut i: usize = 0;
    while i < src.len()
        invariant
            base + src@.len() <= v@.len(),
            v@.len() <= total,
            v@.len() == old(v)@.len(),
            i <= src@.len(),
            forall|j: int| 0 <= j < i ==> v@[base + j] == src@[j],
            forall|j: int|
                0 <= j < v@.len() && !(base <= j < base + i) ==> v@[j] == old(v)@[j],
        decreases src@.len() - i,
    {
        v[base + i] = src[i];
        i = i + 1;
    }
}

fn filled_vec(len: usize, val: u8) -> (r: Vec<u8>)
    ensures
        r@.len() == len,
        forall|i: int| 0 <= i < len ==> r@[i] == val,
{
    let mut v: Vec<u8> = Vec::new();
    let mut i: usize = 0;
    while i < len
        invariant
            i <= len,
            v@.len() == i,
            forall|j: int| 0 <= j < i ==> v@[j] == val,
        decreases len - i,
    {
        v.push(val);
        i = i + 1;
    }
    v
}

// Virtual device -----------------------------------------------------------

/// One virtual bootloader node of the simulated bus: its identity and
/// flash geometry, the content of its app flash area, its page buffer and
/// the stored app CRC.
pub struct SimDevice {
    /// Node id of this device on the bus.
    pub node_id: u8,
    /// Value answered to a bootloader version read (and to a ping).
    pub bootloader_version: u32,
    /// Value answered to a bootloader CRC read.
    pub bootloader_crc: u32,
    /// Vendor id.
    pub vid: u32,
    /// Product id.
    pub pid: u32,
    /// Production date.
    pub prd: u32,
    /// Unique id.
    pub uid: u32,
    /// Start address of the flash area.
    pub flash_start: u32,
    /// Size in bytes of one flash page.
    pub page_size: u32,
    /// Number of flash pages, bootloader area included.
    pub num_pages: u32,
    /// First page index of the app area.
    pub app_page_idx: u32,
    /// Content of the app flash area, pages `app_page_idx..num_pages`.
    pub app_flash: Vec<u8>,
    /// The RAM staging area written word by word, at most one page.
    pub page_buffer: Vec<u8>,
    /// The stored app CRC used for safe startup.
    pub app_crc_stored: u32,
}

/// The configuration of the device (identity and geometry) is unchanged.
pub open spec fn spec_same_config(pre: SimDevice, post: SimDevice) -> bool {
    &&& post.node_id == pre.node_id
    &&& post.bootloader_version == pre.bootloader_version
    &&& post.bootloader_crc == pre.bootloader_crc
    &&& post.vid == pre.vid
    &&& post.pid == pre.pid
    &&& post.prd == pre.prd
    &&& post.uid == pre.uid
    &&& post.flash_start == pre.flash_start
    &&& post.page_size == pre.page_size
    &&& post.num_pages == pre.num_pages
    &&& post.app_page_idx == pre.app_page_idx
}

/// App flash and stored CRC are unchanged (the page buffer may differ).
pub open spec fn spec_same_flash(pre: SimDevice, post: SimDevice) -> bool {
    &&& post.app_flash@ == pre.app_flash@
    &&& post.app_crc_stored == pre.app_crc_stored
}

/// App flash, stored CRC and page buffer are all unchanged.
pub open spec fn spec_same_storage(pre: SimDevice, post: SimDevice) -> bool {
    &&& spec_same_flash(pre, post)
    &&& post.page_buffer@ == pre.page_buffer@
}

/// The full request/response step of the virtual bootloader: answering
/// `request` from state `pre` yields exactly the state `post` and the
/// echo frame `r` that these clauses fix, request kind by request kind.
pub open spec fn spec_respond_rel(pre: SimDevice, post: SimDevice, request: Msg, r: Msg) -> bool {
    &&& post.wf()
    &&& spec_same_config(pre, post)
    &&& r.request == request.request
    &&& r.packet_id == request.packet_id
    &&& (pre.spec_attr_value(request.request) matches Some(v) ==> {
                &&& r.response == ResponseType::RespAck
                &&& r.data.word == v
                &&& spec_same_storage(pre, post)
            })
    &&& (request.request == RequestType::ReqResetDevice || request.request
                == RequestType::ReqStartApp ==> {
                &&& r.response == ResponseType::RespAck
                &&& spec_same_storage(pre, post)
            })
    &&& (request.request == RequestType::ReqPageBufferClear ==> {
                &&& r.response == ResponseType::RespAck
                &&& post.page_buffer@ == Seq::<u8>::empty()
                &&& spec_same_flash(pre, post)
            })
    &&& (request.request == RequestType::ReqPageBufferWriteWord ==> {
                &&& spec_same_flash(pre, post)
                &&& if pre.page_buffer@.len() + 4 <= pre.page_size {
                    &&& post.page_buffer@ == pre.page_buffer@ + seq![
                        request.data.spec_byte(0),
                        request.data.spec_byte(1),
                        request.data.spec_byte(2),
                        request.data.spec_byte(3),
                    ]
                    &&& r.response == (if post.page_buffer@.len() == pre.page_size {
                        ResponseType::RespAckPageFull
                    } else {
                        ResponseType::RespAck
                    })
                } else {
                    &&& post.page_buffer@ == pre.page_buffer@
                    &&& r.response == ResponseType::RespErrPageFull
                }
            })
    &&& (request.request == RequestType::ReqPageBufferReadWord ==> {
                &&& spec_same_storage(pre, post)
                &&& {
                    let i = request.data.word as int;
                    if 4 * i + 4 <= pre.page_buffer@.len() {
                        &&& r.response == ResponseType::RespAck
                        &&& r.data.word == spec_word_from_bytes(
                            pre.page_buffer@[4 * i],
                            pre.page_buffer@[4 * i + 1],
                            pre.page_buffer@[4 * i + 2],
                            pre.page_buffer@[4 * i + 3],
                        )
                    } else {
                        r.response == ResponseType::RespErrInvldArg
                    }
                }
            })
    &&& (request.request == RequestType::ReqPageBufferCalcCRC ==> {
                &&& spec_same_storage(pre, post)
                &&& r.data.word == spec_crc32(pre.page_buffer@)
                &&& r.response == (if request.data.word == spec_crc32(pre.page_buffer@) {
                    ResponseType::RespAck
                } else {
                    ResponseType::RespErrCRCInvld
                })
            })
    &&& (request.request == RequestType::ReqPageBufferWriteToFlash ==> {
                let k = request.data.word;
                &&& post.page_buffer@ == pre.page_buffer@
                &&& post.app_crc_stored == pre.app_crc_stored
                &&& if pre.page_buffer@.len() == pre.page_size && pre.app_page_idx <= k
                    < pre.num_pages {
                    &&& r.response == ResponseType::RespAck
                    &&& spec_region_overwritten(
                        pre.app_flash@,
                        post.app_flash@,
                        (k - pre.app_page_idx) * pre.page_size,
                        pre.page_buffer@,
                    )
                } else {
                    &&& r.response == ResponseType::RespErrInvldArg
                    &&& post.app_flash@ == pre.app_flash@
                }
            })
    &&& (request.request == RequestType::ReqFlashWriteErasePage ==> {
                let k = request.data.word;
                &&& post.page_buffer@ == pre.page_buffer@
                &&& post.app_crc_stored == pre.app_crc_stored
                &&& if pre.app_page_idx <= k < pre.num_pages {
                    &&& r.response == ResponseType::RespAck
                    &&& spec_region_overwritten(
                        pre.app_flash@,
                        post.app_flash@,
                        (k - pre.app_page_idx) * pre.page_size,
                        Seq::new(pre.page_size as nat, |i: int| FLASH_FILL),
                    )
                } else {
                    &&& r.response == ResponseType::RespErrInvldArg
                    &&& post.app_flash@ == pre.app_flash@
                }
            })
    &&& (request.request == RequestType::ReqFlashWriteAppCRC ==> {
                &&& r.response == ResponseType::RespAck
                &&& post.app_crc_stored == request.data.word
                &&& post.app_flash@ == pre.app_flash@
                &&& post.page_buffer@ == pre.page_buffer@
            })
    &&& (request.request == RequestType::ReqFlashReadWord ==> {
                &&& spec_same_storage(pre, post)
                &&& (r.response == ResponseType::RespAck || r.response
                    == ResponseType::RespErrInvldArg)
            })
}

impl SimDevice {
    /// Well-formedness: sound geometry, an app flash area of exactly
    /// `num_pages - app_page_idx` pages, and a page buffer of whole words
    /// no larger than one page.
    pub open spec fn wf(self) -> bool {
        &&& SimDevice::spec_valid_geometry(
            self.flash_start,
            self.page_size,
            self.num_pages,
            self.app_page_idx,
        )
        &&& self.app_flash@.len() == (self.num_pages - self.app_page_idx) * self.page_size
        &&& self.page_buffer@.len() <= self.page_size
        &&& self.page_buffer@.len() % 4 == 0
    }

    /// A flash geometry the simulator accepts: page size a non-zero
    /// multiple of four, an app area that starts after page zero and ends
    /// at the page count, a start address aligned to the page size, and a
    /// flash that stays addressable with 32 bits.
    pub open spec fn spec_valid_geometry(
        flash_start: u32,
        page_size: u32,
        num_pages: u32,
        app_page_idx: u32,
    ) -> bool {
        &&& page_size >= 4
        &&& page_size % 4 == 0
        &&& 0 < app_page_idx < num_pages
        &&& flash_start % page_size == 0
        &&& flash_start + num_pages * page_size <= u32::MAX
    }

    /// The attribute value a read-kind request is answered with; `None`
    /// for the kinds that are not plain reads.
    pub open spec fn spec_attr_value(self, rt: RequestType) -> Option<u32> {
        match rt {
            RequestType::ReqPing => Some(self.bootloader_version),
            RequestType::ReqDevInfoBootloaderVersion => Some(self.bootloader_version),
            RequestType::ReqDevInfoBootloaderCRC => Some(self.bootloader_crc),
            RequestType::ReqDevInfoVID => Some(self.vid),
            RequestType::ReqDevInfoPID => Some(self.pid),
            RequestType::ReqDevInfoPRD => Some(self.prd),
            RequestType::ReqDevInfoUID => Some(self.uid),
            RequestType::ReqFlashInfoStartAddr => Some(self.flash_start),
            RequestType::ReqFlashInfoPageSize => Some(self.page_size),
            RequestType::ReqFlashInfoNumPages => Some(self.num_pages),
            RequestType::ReqAppInfoPageIdx => Some(self.app_page_idx),
            RequestType::ReqAppInfoCRCCalc => Some(spec_crc32(self.app_flash@)),
            RequestType::ReqAppInfoCRCStrd => Some(self.app_crc_stored),
            _ => None,
        }
    }

    /// Build a virtual device with the given identity and geometry; a
    /// geometry the simulator does not accept gives `None`. The app flash
    /// starts erased (all fill bytes), the page buffer empty.
    pub fn new(
        node_id: u8,
        flash_start: u32,
        page_size: u32,
        num_pages: u32,
        app_page_idx: u32,
    ) -> (r: Option<SimDevice>)
        ensures
            r is Some <==> SimDevice::spec_valid_geometry(
                flash_start,
                page_size,
                num_pages,
                app_page_idx,
            ),
            r matches Some(d) ==> {
                &&& d.wf()
                &&& d.node_id == node_id
                &&& d.flash_start == flash_start
                &&& d.page_size == page_size
                &&& d.num_pages == num_pages
                &&& d.app_page_idx == app_page_idx
                &&& d.page_buffer@.len() == 0
                &&& forall|i: int| 0 <= i < d.app_flash@.len() ==> d.app_flash@[i] == FLASH_FILL
            },
    {
        if page_size < 4 || page_size % 4 != 0 || app_page_idx == 0 || app_page_idx >= num_pages {
            return None;
        }
        if flash_start % page_size != 0 {
            return None;
        }
        proof {
            assert((num_pages as u64) * (page_size as u64) < 0xFFFFFFFFFFFFFFFF)
                by (nonlinear_arith)
                requires
                    num_pages as u64 <= 0xFFFFFFFFu64,
                    page_size as u64 <= 0xFFFFFFFFu64,
            ;
        }
        let total: u64 = (num_pages as u64) * (page_size as u64);
        if total > 0xFFFFFFFF || (flash_start as u64) + total > 0xFFFFFFFF {
            return None;
        }
        proof {
            lemma_mul_inequality(
                (num_pages - app_page_idx) as int,
                num_pages as int,
                page_size as int,
            );
        }
        let app_len: u64 = ((num_pages - app_page_idx) as u64) * (page_size as u64);
        let app_flash = filled_vec(app_len as usize, FLASH_FILL);
        Some(
            SimDevice {
                node_id,
                bootloader_version: 0x00010000,
                bootloader_crc: 0,
                vid: 1,
                pid: 2,
                prd: 3,
                uid: node_id as u32,
                flash_start,
                page_size,
                num_pages,
                app_page_idx,
                app_flash,
                page_buffer: Vec::new(),
                app_crc_stored: 0xFFFFFFFF,
            },
        )
    }

    /// A virtual device with the default geometry of the simulated bus.
    pub fn with_default_geometry(node_id: u8) -> (r: SimDevice)
        ensures
            r.wf(),
            r.node_id == node_id,
    {
        match SimDevice::new(node_id, 0x08000000, 1024, 16, 2) {
            Some(d) => d,
            None => vstd::pervasive::unreached(),
        }
    }

    /// Answer one request frame as the device bootloader would: echo the
    /// request kind and packet id, acknowledge or reject, and update the
    /// page buffer, the app flash or the stored CRC as the request
    /// demands.
    pub fn respond(&mut self, request: &Msg) -> (r: Msg)
        requires
            old(self).wf(),
        ensures
            spec_respond_rel(*old(self), *final(self), *request, r),
    {
        let attr = self.attr_value(request.request);
        match attr {
            Some(v) => reply(request, ResponseType::RespAck, v),
            None => match request.request {
                RequestType::ReqResetDevice | RequestType::ReqStartApp => reply(
                    request,
                    ResponseType::RespAck,
                    0,
                ),
                RequestType::ReqPageBufferClear => {
                    self.page_buffer.clear();
                    reply(request, ResponseType::RespAck, 0)
                },
                RequestType::ReqPageBufferWriteWord => {
                    if (self.page_buffer.len() as u64) + 4 <= self.page_size as u64 {
                        self.page_buffer.push(request.data.get_byte(0));
                        self.page_buffer.push(request.data.get_byte(1));
                        self.page_buffer.push(request.data.get_byte(2));
                        self.page_buffer.push(request.data.get_byte(3));
                        proof {
                            assert(self.page_buffer@ =~= old(self).page_buffer@ + seq![
                                request.data.spec_byte(0),
                                request.data.spec_byte(1),
                                request.data.spec_byte(2),
                                request.data.spec_byte(3),
                            ]);
                        }
                        if self.page_buffer.len() as u64 == self.page_size as u64 {
                            reply(request, ResponseType::RespAckPageFull, 0)
                        } else {
                            reply(request, ResponseType::RespAck, 0)
                        }
                    } else {
                        reply(request, ResponseType::RespErrPageFull, 0)
                    }
                },
                RequestType::ReqPageBufferReadWord => {
                    let i = request.data.to_word();
                    if 4 * (i as u64) + 4 <= self.page_buffer.len() as u64 {
                        let base = (4 * (i as u64)) as usize;
                        let w = word_from_bytes(
                            self.page_buffer[base],
                            self.page_buffer[base + 1],
                            self.page_buffer[base + 2],
                            self.page_buffer[base + 3],
                        );
                        reply(request, ResponseType::RespAck, w)
                    } else {
                        reply(request, ResponseType::RespErrInvldArg, 0)
                    }
                },
                RequestType::ReqPageBufferCalcCRC => {
                    let crc = crc32(&self.page_buffer);
                    if request.data.to_word() == crc {
                        reply(request, ResponseType::RespAck, crc)
                    } else {
                        reply(request, ResponseType::RespErrCRCInvld, crc)
                    }
                },
                RequestType::ReqPageBufferWriteToFlash => {
                    let k = request.data.to_word();
                    if self.page_buffer.len() as u64 == self.page_size as u64 && self.app_page_idx
                        <= k && k < self.num_pages {
                        let base = self.app_page_base(k);
                        let mut flash: Vec<u8> = Vec::new();
                        core::mem::swap(&mut flash, &mut self.app_flash);
                        copy_region(&mut flash, base, &self.page_buffer);
                        core::mem::swap(&mut flash, &mut self.app_flash);
                        reply(request, ResponseType::RespAck, 0)
                    } else {
                        reply(request, ResponseType::RespErrInvldArg, 0)
                    }
                },
                RequestType::ReqFlashWriteErasePage => {
                    let k = request.data.to_word();
                    if self.app_page_idx <= k && k < self.num_pages {
                        let base = self.app_page_base(k);
                        let len = self.page_size as usize;
                        let mut flash: Vec<u8> = Vec::new();
                        core::mem::swap(&mut flash, &mut self.app_flash);
                        fill_region(&mut flash, base, len, FLASH_FILL);
                        core::mem::swap(&mut flash, &mut self.app_flash);
                        reply(request, ResponseType::RespAck, 0)
                    } else {
                        reply(request, ResponseType::RespErrInvldArg, 0)
                    }
                },
                RequestType::ReqFlashWriteAppCRC => {
                    self.app_crc_stored = request.data.to_word();
                    reply(request, ResponseType::RespAck, 0)
                },
                RequestType::ReqFlashReadWord => {
                    proof {
                        lemma_mul_inequality(
                            self.app_page_idx as int,
                            self.num_pages as int,
                            self.page_size as int,
                        );
                    }
                    let addr = request.data.to_word();
                    let app_start: u64 = (self.flash_start as u64) + (self.app_page_idx as u64)
                        * (self.page_size as u64);
                    let app_end: u64 = (self.flash_start as u64) + (self.num_pages as u64)
                        * (self.page_size as u64);
                    if addr % 4 == 0 && (addr as u64) >= app_start && (addr as u64) + 4
                        <= app_end {
                        proof {
                            let np = self.num_pages as int;
                            let ap = self.app_page_idx as int;
                            let ps = self.page_size as int;
                            assert((np - ap) * ps == np * ps - ap * ps) by (nonlinear_arith);
                        }
                        let off = ((addr as u64) - app_start) as usize;
                        let w = word_from_bytes(
                            self.app_flash[off],
                            self.app_flash[off + 1],
                            self.app_flash[off + 2],
                            self.app_flash[off + 3],
                        );
                        reply(request, ResponseType::RespAck, w)
                    } else {
                        reply(request, ResponseType::RespErrInvldArg, 0)
                    }
                },
                _ => vstd::pervasive::unreached(),
            },
        }
    }

    /// The attribute value a read-kind request is answered with.
    fn attr_value(&self, rt: RequestType) -> (r: Option<u32>)
        ensures
            r == self.spec_attr_value(rt),
    {
        match rt {
            RequestType::ReqPing => Some(self.bootloader_version),
            RequestType::ReqDevInfoBootloaderVersion => Some(self.bootloader_version),
            RequestType::ReqDevInfoBootloaderCRC => Some(self.bootloader_crc),
            RequestType::ReqDevInfoVID => Some(self.vid),
            RequestType::ReqDevInfoPID => Some(self.pid),
            RequestType::ReqDevInfoPRD => Some(self.prd),
            RequestType::ReqDevInfoUID => Some(self.uid),
            RequestType::ReqFlashInfoStartAddr => Some(self.flash_start),
            RequestType::ReqFlashInfoPageSize => Some(self.page_size),
            RequestType::ReqFlashInfoNumPages => Some(self.num_pages),
            RequestType::ReqAppInfoPageIdx => Some(self.app_page_idx),
            RequestType::ReqAppInfoCRCCalc => Some(crc32(&self.app_flash)),
            RequestType::ReqAppInfoCRCStrd => Some(self.app_crc_stored),
            _ => None,
        }
    }

    /// Offset of app page `k` within the app flash area.
    fn app_page_base(&self, k: u32) -> (r: usize)
        requires
            self.wf(),
            self.app_page_idx <= k < self.num_pages,
        ensures
            r == (k - self.app_page_idx) * self.page_size,
            r + self.page_size <= self.app_flash@.len(),
    {
        let flash_len = self.app_flash.len();
        proof {
            let ka = (k - self.app_page_idx) as int;
            let ps = self.page_size as int;
            lemma_mul_inequality(ka + 1, (self.num_pages - self.app_page_idx) as int, ps);
            assert((ka + 1) * ps == ka * ps + ps) by (nonlinear_arith);
        }
        (((k - self.app_page_idx) as u64) * (self.page_size as u64)) as usize
    }
}

/// The echo frame of one exchange: the request kind and packet id of
/// `request`, the given response kind and payload word.
fn reply(request: &Msg, response: ResponseType, word: u32) -> (r: Msg)
    ensures
        r == (Msg {
            request: request.request,
            response,
            packet_id: request.packet_id,
            data: MsgData { word },
        }),
{
    Msg { request: request.request, response, packet_id: request.packet_id, data: MsgData::from_word(word) }
}

/// A 32-bit word assembled from four bytes, LSB-first.
fn word_from_bytes(b0: u8, b1: u8, b2: u8, b3: u8) -> (r: u32)
    ensures
        r == spec_word_from_bytes(b0, b1, b2, b3),
{
    (b0 as u32) | ((b1 as u32) << 8) | ((b2 as u32) << 16) | ((b3 as u32) << 24)
}

// Sorted insertion ---------------------------------------------------------

/// Whether `s` is strictly ascending (sorted, no duplicates).
pub open spec fn spec_sorted_unique(s: Seq<u8>) -> bool {
    forall|i: int, j: int| 0 <= i < j < s.len() ==> s[i] < s[j]
}

/// Insert `x` into the strictly ascending vector `v`, keeping it strictly
/// ascending; a value already present is left alone.
pub fn insert_sorted_unique(v: &mut Vec<u8>, x: u8)
    requires
        spec_sorted_unique(old(v)@),
    ensures
        spec_sorted_unique(final(v)@),
        forall|y: u8| final(v)@.contains(y) <==> old(v)@.contains(y) || y == x,
{
    let ghost pre = v@;
    let mut i: usize = 0;
    while i < v.len() && v[i] < x
        invariant
            v@ == pre,
            i <= v@.len(),
            forall|j: int| 0 <= j < i ==> v@[j] < x,
        decreases v@.len() - i,
    {
        i = i + 1;
    }
    if i < v.len() && v[i] == x {
        proof {
            assert(pre.contains(x)) by {
                assert(pre[i as int] == x);
            }
        }
        return ;
    }
    v.insert(i, x);
    proof {
        pre.insert_ensures(i as int, x);
        assert forall|a: int, b: int| 0 <= a < b < v@.len() implies v@[a] < v@[b] by {
            if b < i {
            } else if a < i && b == i {
            } else if a == i {
                assert(v@[b] == pre[b - 1]);
                assert(pre[b - 1] >= x);
                if pre[b - 1] == x {
                    assert(i < pre.len());
                    assert(!(pre[i as int] < x) && pre[i as int] != x);
                    assert(pre[i as int] < pre[b - 1] || i as int == b - 1);
                    assert(false);
                }
            } else if a > i {
                assert(v@[a] == pre[a - 1] && v@[b] == pre[b - 1]);
            } else {
                assert(a < i && b > i);
                assert(v@[a] == pre[a]);
                assert(v@[b] == pre[b - 1]);
                assert(pre[a] < x);
                assert(i <= b - 1 < pre.len());
                if i as int == b - 1 {
                    assert(pre[b - 1] > x);
                } else {
                    assert(pre[i as int] <= pre[b - 1]);
                }
            }
        }
        assert forall|y: u8| v@.contains(y) <==> pre.contains(y) || y == x by {
            if v@.contains(y) {
                let idx = choose|idx: int| 0 <= idx < v@.len() && v@[idx] == y;
                if idx == i {
                    assert(y == x);
                } else if idx < i {
                    assert(pre[idx] == y);
                    assert(pre.contains(y));
                } else {
                    assert(pre[idx - 1] == y);
                    assert(pre.contains(y));
                }
            }
            if pre.contains(y) {
                let idx = choose|idx: int| 0 <= idx < pre.len() && pre[idx] == y;
                if idx < i {
                    assert(v@[idx] == y);
                } else {
                    assert(v@[idx + 1] == y);
                }
                assert(v@.contains(y));
            }
            if y == x {
                assert(v@[i as int] == x);
                assert(v@.contains(y));
            }
        }
    }
}

/// Index of the first virtual node with the given id, if any is
/// configured.
pub open spec fn spec_find_node(nodes: Seq<SimDevice>, n: u8) -> Option<int>
    decreases nodes.len(),
{
    if nodes.len() == 0 {
        None
    } else if nodes[0].node_id == n {
        Some(0)
    } else {
        match spec_find_node(nodes.drop_first(), n) {
            Some(i) => Some(i + 1),
            None => None,
        }
    }
}

proof fn lemma_find_node_at(nodes: Seq<SimDevice>, n: u8, i: int)
    requires
        0 <= i < nodes.len(),
        nodes[i].node_id == n,
        forall|j: int| 0 <= j < i ==> (#[trigger] nodes[j]).node_id != n,
    ensures
        spec_find_node(nodes, n) == Some(i),
    decreases nodes.len(),
{
    if i > 0 {
        let rest = nodes.drop_first();
        assert forall|j: int| 0 <= j < i - 1 implies (#[trigger] rest[j]).node_id != n by {
            assert(rest[j] == nodes[j + 1]);
        }
        assert(rest[i - 1] == nodes[i]);
        lemma_find_node_at(rest, n, i - 1);
    }
}

proof fn lemma_find_node_none(nodes: Seq<SimDevice>, n: u8)
    requires
        forall|j: int| 0 <= j < nodes.len() ==> (#[trigger] nodes[j]).node_id != n,
    ensures
        spec_find_node(nodes, n) is None,
    decreases nodes.len(),
{
    if nodes.len() > 0 {
        let rest = nodes.drop_first();
        assert forall|j: int| 0 <= j < rest.len() implies (#[trigger] rest[j]).node_id != n by {
            assert(rest[j] == nodes[j + 1]);
        }
        lemma_find_node_none(rest, n);
    }
}

// Simulated bus transport --------------------------------------------------

/// The simulated bus transport: an owned registry of virtual bootloader
/// nodes, supporting broadcast discovery and specific-node exchanges.
pub struct SIMInterface {
    mode: ComMode,
    nodes: Vec<SimDevice>,
    pending: Option<(u8, Msg)>,
    sent_log: Ghost<Seq<Msg>>,
}

impl SIMInterface {
    /// Every virtual node of the bus is well-formed.
    #[verifier::type_invariant]
    spec fn type_wf(self) -> bool {
        forall|i: int| 0 <= i < self.nodes@.len() ==> self.nodes@[i].wf()
    }

    /// The virtual nodes of the bus, in configuration order.
    pub closed spec fn spec_nodes(&self) -> Seq<SimDevice> {
        self.nodes@
    }

    /// The node ids of the virtual nodes, in configuration order.
    pub open spec fn spec_node_ids(&self) -> Seq<u8> {
        self.spec_nodes().map_values(|d: SimDevice| d.node_id)
    }

    /// The pending unicast answer, tagged with the id of the node that
    /// gave it.
    pub closed spec fn spec_pending(&self) -> Option<(u8, Msg)> {
        self.pending
    }

    /// The current addressing mode.
    pub closed spec fn spec_mode(&self) -> ComMode {
        self.mode
    }

    /// Open the simulated bus: a fresh, empty network in broadcast mode.
    /// The port name is ignored.
    pub fn open(_port_name: &str) -> (r: Result<SIMInterface, ComError>)
        ensures
            r matches Ok(s) && s.spec_node_ids() == Seq::<u8>::empty() && s.sent()
                == Seq::<Msg>::empty() && s.spec_mode() is Broadcast,
    {
        let s = SIMInterface {
            mode: ComMode::Broadcast,
            nodes: Vec::new(),
            pending: None,
            sent_log: Ghost(Seq::empty()),
        };
        proof {
            assert(s.spec_node_ids() =~= Seq::<u8>::empty());
        }
        Ok(s)
    }

    /// Reset the network and add one virtual node with the default
    /// geometry per given id, in order.
    pub fn config_nodes(&mut self, node_lst: Vec<u8>) -> (r: Result<(), ComError>)
        ensures
            r is Ok,
            final(self).spec_node_ids() == node_lst@,
            final(self).sent() == old(self).sent(),
    {
        let mut nodes: Vec<SimDevice> = Vec::new();
        let mut i: usize = 0;
        while i < node_lst.len()
            invariant
                i <= node_lst@.len(),
                nodes@.len() == i,
                forall|j: int|
                    0 <= j < i ==> (#[trigger] nodes@[j]).wf() && nodes@[j].node_id
                        == node_lst@[j],
            decreases node_lst@.len() - i,
        {
            nodes.push(SimDevice::with_default_geometry(node_lst[i]));
            i = i + 1;
        }
        self.nodes = nodes;
        self.pending = None;
        proof {
            assert(self.spec_node_ids() =~= node_lst@);
        }
        Ok(())
    }

    /// Add one virtual node with the given geometry at the end of the
    /// network; a geometry the simulator does not accept is rejected.
    pub fn add_node(
        &mut self,
        node_id: u8,
        flash_start: u32,
        page_size: u32,
        num_pages: u32,
        app_page_idx: u32,
    ) -> (r: Result<(), ComError>)
        ensures
            final(self).sent() == old(self).sent(),
            r is Ok <==> SimDevice::spec_valid_geometry(
                flash_start,
                page_size,
                num_pages,
                app_page_idx,
            ),
            r is Ok ==> final(self).spec_node_ids() == old(self).spec_node_ids().push(node_id),
            r is Err ==> final(self).spec_node_ids() == old(self).spec_node_ids(),
    {
        proof {
            use_type_invariant(&*self);
        }
        match SimDevice::new(node_id, flash_start, page_size, num_pages, app_page_idx) {
            Some(d) => {
                let mut nodes: Vec<SimDevice> = Vec::new();
                core::mem::swap(&mut nodes, &mut self.nodes);
                nodes.push(d);
                core::mem::swap(&mut nodes, &mut self.nodes);
                proof {
                    assert(self.spec_node_ids() =~= old(self).spec_node_ids().push(node_id));
                }
                Ok(())
            },
            None => Err(ComError::InvalidDeviceInfo),
        }
    }

    /// Broadcast a ping and collect one response per configured node, in
    /// configuration order. Every node of the simulated bus acknowledges a
    /// ping, so the result lists every configured node id — unsorted, in
    /// the order the nodes were configured; the sorted, deduplicated
    /// inventory of discovery is `scan_network`.
    pub fn ping_network(&mut self) -> (r: Result<Vec<u8>, ComError>)
        ensures
            final(self).spec_node_ids() == old(self).spec_node_ids(),
            final(self).spec_mode() == old(self).spec_mode(),
            final(self).sent() == old(self).sent(),
            r matches Ok(ids) && ids@ == old(self).spec_node_ids(),
    {
        proof {
            use_type_invariant(&*self);
        }
        let ping = Msg::new_std_request(RequestType::ReqPing);
        let mut nodes: Vec<SimDevice> = Vec::new();
        core::mem::swap(&mut nodes, &mut self.nodes);
        let ghost orig_nodes = nodes@;
        let mut replies: Vec<(u8, [u8; 8])> = Vec::new();
        let mut i: usize = 0;
        while i < nodes.len()
            invariant
                i <= nodes@.len(),
                nodes@.len() == orig_nodes.len(),
                forall|j: int|
                    0 <= j < nodes@.len() ==> (#[trigger] nodes@[j]).wf() && nodes@[j].node_id
                        == orig_nodes[j].node_id,
                replies@.len() == i,
                forall|j: int|
                    0 <= j < i ==> (#[trigger] replies@[j]).0 == orig_nodes[j].node_id && (
                    Msg::spec_from_raw(replies@[j].1@) matches Some(m) && m.request
                        == RequestType::ReqPing && m.response == ResponseType::RespAck),
                ping.request == RequestType::ReqPing,
            decreases nodes@.len() - i,
        {
            let ghost pre = nodes@;
            let mut d = nodes.remove(i);
            let resp = d.respond(&ping);
            let id = d.node_id;
            let ghost dg = d;
            nodes.insert(i, d);
            proof {
                pre.remove_ensures(i as int);
                pre.remove(i as int).insert_ensures(i as int, dg);
                assert(nodes@ =~= pre.update(i as int, dg));
                lemma_msg_raw_roundtrip(resp);
            }
            replies.push((id, resp.to_raw_data_array()));
            i = i + 1;
        }
        core::mem::swap(&mut nodes, &mut self.nodes);
        let mut ids: Vec<u8> = Vec::new();
        let mut j: usize = 0;
        while j < replies.len()
            invariant
                j <= replies@.len(),
                ids@.len() == j,
                forall|k: int| 0 <= k < j ==> ids@[k] == (#[trigger] replies@[k]).0,
                forall|k: int|
                    0 <= k < replies@.len() ==> (Msg::spec_from_raw(
                        (#[trigger] replies@[k]).1@,
                    ) matches Some(m) && m.request == RequestType::ReqPing && m.response
                        == ResponseType::RespAck),
                ping.request == RequestType::ReqPing,
            decreases replies@.len() - j,
        {
            let id = replies[j].0;
            let raw = replies[j].1;
            match Msg::from_raw_data_array(&raw) {
                Ok(m) => {
                    if ping.is_response_ok(&m).is_ok() {
                        ids.push(id);
                    }
                },
                Err(_) => {},
            }
            j = j + 1;
        }
        proof {
            assert(ids@.len() == old(self).spec_node_ids().len());
            assert forall|k: int| 0 <= k < ids@.len() implies ids@[k] == old(
                self,
            ).spec_node_ids()[k] by {
                assert(ids@[k] == replies@[k].0);
                assert(replies@[k].0 == orig_nodes[k].node_id);
            }
            assert(ids@ =~= old(self).spec_node_ids());
        }
        Ok(ids)
    }
}

impl ComInterface for SIMInterface {
    closed spec fn sent(&self) -> Seq<Msg> {
        self.sent_log@
    }

    open spec fn spec_is_network() -> bool {
        true
    }

    /// The simulated bus answers at once; its timeout is zero.
    open spec fn spec_timeout(&self) -> u64 {
        0
    }

    /// A send is always accepted. In specific-node mode the first
    /// configured node with the addressed id makes one `respond` step and
    /// its echo becomes the pending answer (none is pending if no such
    /// node is configured); in broadcast mode the frame is dropped. The
    /// mode and the other nodes are unchanged.
    open spec fn send_ens(
        pre: SIMInterface,
        post: SIMInterface,
        msg: Msg,
        r: Result<(), ComError>,
    ) -> bool {
        &&& r is Ok
        &&& post.spec_mode() == pre.spec_mode()
        &&& match pre.spec_mode() {
            ComMode::Broadcast => post.spec_nodes() == pre.spec_nodes() && post.spec_pending()
                == pre.spec_pending(),
            ComMode::Specific(n) => {
                &&& post.spec_nodes().len() == pre.spec_nodes().len()
                &&& match spec_find_node(pre.spec_nodes(), n) {
                    Some(j) => {
                        &&& (forall|k: int|
                            0 <= k < pre.spec_nodes().len() && k != j
                                ==> post.spec_nodes()[k] == pre.spec_nodes()[k])
                        &&& (post.spec_pending() matches Some(p) && p.0 == n
                            && spec_respond_rel(
                            pre.spec_nodes()[j],
                            post.spec_nodes()[j],
                            msg,
                            p.1,
                        ))
                    },
                    None => {
                        &&& post.spec_nodes() == pre.spec_nodes()
                        &&& post.spec_pending() is None
                    },
                }
            },
        }
    }

    /// A receive in specific-node mode consumes the pending answer and
    /// delivers it if the addressed node gave it, and times out
    /// otherwise; a broadcast receive is rejected. The nodes and the mode
    /// are unchanged.
    open spec fn recv_ens(
        pre: SIMInterface,
        post: SIMInterface,
        r: Result<Option<Msg>, ComError>,
    ) -> bool {
        &&& post.spec_mode() == pre.spec_mode()
        &&& post.spec_nodes() == pre.spec_nodes()
        &&& match pre.spec_mode() {
            ComMode::Broadcast => r is Err && post.spec_pending() == pre.spec_pending(),
            ComMode::Specific(n) => {
                &&& post.spec_pending() is None
                &&& match pre.spec_pending() {
                    Some(p) => r == (if p.0 == n {
                        Ok::<Option<Msg>, ComError>(Some(p.1))
                    } else {
                        Ok::<Option<Msg>, ComError>(None)
                    }),
                    None => r == Ok::<Option<Msg>, ComError>(None),
                }
            },
        }
    }

    /// Setting the mode always succeeds on this multi-drop bus and leaves
    /// the nodes and any pending answer alone.
    open spec fn set_mode_ens(
        pre: SIMInterface,
        post: SIMInterface,
        mode: ComMode,
        r: Result<(), ComError>,
    ) -> bool {
        &&& r is Ok
        &&& post.spec_mode() == mode
        &&& post.spec_nodes() == pre.spec_nodes()
        &&& post.spec_pending() == pre.spec_pending()
    }

    /// Discovery always succeeds on the simulated bus and returns exactly
    /// the set of configured node ids (sorted ascending by the trait
    /// contract), keeping the registry and the mode.
    open spec fn scan_ens(
        pre: SIMInterface,
        post: SIMInterface,
        r: Result<Vec<u8>, ComError>,
    ) -> bool {
        &&& post.spec_node_ids() == pre.spec_node_ids()
        &&& post.spec_mode() == pre.spec_mode()
        &&& r is Ok
        &&& (r matches Ok(ids) ==> forall|y: u8|
            ids@.contains(y) <==> pre.spec_node_ids().contains(y))
    }

    fn create() -> (r: Result<Self, ComError>) {
        let s = SIMInterface {
            mode: ComMode::Broadcast,
            nodes: Vec::new(),
            pending: None,
            sent_log: Ghost(Seq::empty()),
        };
        Ok(s)
    }

    fn open(&mut self, params: &ComConnParams) -> (r: Result<(), ComError>) {
        Ok(())
    }

    fn is_network() -> (r: bool) {
        true
    }

    fn set_mode(&mut self, mode: ComMode) -> (r: Result<(), ComError>) {
        proof {
            use_type_invariant(&*self);
        }
        self.mode = mode;
        Ok(())
    }

    fn set_timeout(&mut self, timeout_ms: u64) -> (r: Result<(), ComError>) {
        Ok(())
    }

    fn get_timeout(&self) -> (r: u64) {
        0
    }

    fn send(&mut self, msg: &Msg) -> (r: Result<(), ComError>) {
        proof {
            use_type_invariant(&*self);
        }
        match self.mode {
            ComMode::Specific(node_id) => {
                let mut nodes: Vec<SimDevice> = Vec::new();
                core::mem::swap(&mut nodes, &mut self.nodes);
                let ghost orig_nodes = nodes@;
                let mut pending: Option<(u8, Msg)> = None;
                let mut i: usize = 0;
                while i < nodes.len() && nodes[i].node_id != node_id
                    invariant
                        i <= nodes@.len(),
                        nodes@ == orig_nodes,
                        forall|j: int| 0 <= j < i ==> (#[trigger] nodes@[j]).node_id != node_id,
                    decreases nodes@.len() - i,
                {
                    i = i + 1;
                }
                if i < nodes.len() {
                    proof {
                        lemma_find_node_at(orig_nodes, node_id, i as int);
                    }
                    let mut d = nodes.remove(i);
                    let resp = d.respond(msg);
                    let ghost dg = d;
                    nodes.insert(i, d);
                    proof {
                        orig_nodes.remove_ensures(i as int);
                        orig_nodes.remove(i as int).insert_ensures(i as int, dg);
                        assert(nodes@ =~= orig_nodes.update(i as int, dg));
                    }
                    pending = Some((node_id, resp));
                } else {
                    proof {
                        lemma_find_node_none(orig_nodes, node_id);
                    }
                }
                core::mem::swap(&mut nodes, &mut self.nodes);
                self.pending = pending;
            },
            ComMode::Broadcast => {},
        }
        self.sent_log = Ghost(self.sent_log@.push(*msg));
        Ok(())
    }

    fn recv(&mut self) -> (r: Result<Option<Msg>, ComError>) {
        proof {
            use_type_invariant(&*self);
        }
        match self.mode {
            ComMode::Specific(node_id) => {
                let mut pending: Option<(u8, Msg)> = None;
                core::mem::swap(&mut pending, &mut self.pending);
                match pending {
                    Some((id, m)) => if id == node_id {
                        Ok(Some(m))
                    } else {
                        Ok(None)
                    },
                    None => Ok(None),
                }
            },
            ComMode::Broadcast => Err(
                ComError::Error(String::from_str("Broadcast receive is not supported")),
            ),
        }
    }

    fn scan_network(&mut self) -> (r: Result<Vec<u8>, ComError>) {
        let ids = match self.ping_network() {
            Ok(ids) => ids,
            Err(e) => {
                return Err(e);
            },
        };
        let mut sorted: Vec<u8> = Vec::new();
        let mut i: usize = 0;
        while i < ids.len()
            invariant
                i <= ids@.len(),
                spec_sorted_unique(sorted@),
                forall|y: u8| sorted@.contains(y) <==> ids@.take(i as int).contains(y),
            decreases ids@.len() - i,
        {
            let ghost prev = sorted@;
            insert_sorted_unique(&mut sorted, ids[i]);
            proof {
                assert(ids@.take(i + 1).drop_last() =~= ids@.take(i as int));
                assert forall|y: u8| sorted@.contains(y) <==> ids@.take(i + 1).contains(
                    y,
                ) by {
                    if sorted@.contains(y) {
                        if prev.contains(y) {
                            let k = choose|k: int|
                                0 <= k < ids@.take(i as int).len() && #[trigger] ids@.take(
                                    i as int,
                                )[k] == y;
                            assert(ids@.take(i + 1)[k] == y);
                        } else {
                            assert(y == ids@[i as int]);
                            assert(ids@.take(i + 1)[i as int] == y);
                        }
                    }
                    if ids@.take(i + 1).contains(y) {
                        let k = choose|k: int|
                            0 <= k < ids@.take(i + 1).len() && #[trigger] ids@.take(i + 1)[k]
                                == y;
                        if k < i {
                            assert(ids@.take(i as int)[k] == y);
                            assert(ids@.take(i as int).contains(y));
                        } else {
                            assert(y == ids@[i as int]);
                        }
                    }
                }
            }
            i = i + 1;
        }
        proof {
            assert(ids@.take(ids@.len() as int) =~= ids@);
        }
        Ok(sorted)
    }
}


} // verus!
