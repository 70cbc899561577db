//! Device-attribute registry and the flash orchestrator.
//!
//! A `DeviceEntry` is one typed, named protocol attribute, populated by a
//! single request/response round-trip. A `Device` owns a transport and a
//! registry of entries and drives the whole erase/flash/verify session,
//! page by page through the remote page buffer.

use vstd::arithmetic::mul::lemma_mul_inequality;
use vstd::prelude::*;
use vstd::string::StringExecFns;

use crate::com::{ComError, ComInterface};
use crate::crc::{crc32, spec_crc32};
use crate::image::{has_non_fill, AppImage, FLASH_FILL};
use crate::msg::{spec_word_from_bytes, Msg, MsgData, RequestType, ResponseType};

verus! {

// Device entry --------------------------------------------------------------

/// One typed, named protocol attribute of a device: a human name, the
/// request kind that reads it, and the last value read, if any.
pub struct DeviceEntry {
    name: String,
    request_type: RequestType,
    value: Option<u32>,
}

impl DeviceEntry {
    /// The human name of the attribute.
    pub closed spec fn spec_name(self) -> Seq<char> {
        self.name@
    }

    /// The request kind that reads the attribute.
    pub closed spec fn spec_request_type(self) -> RequestType {
        self.request_type
    }

    /// The last value read from the device, if any.
    pub closed spec fn spec_value(self) -> Option<u32> {
        self.value
    }

    /// A fresh, unread entry with a human name and its request kind.
    pub fn new(name: &str, request_type: RequestType) -> (r: DeviceEntry)
        ensures
            r.spec_name() == name@,
            r.spec_request_type() == request_type,
            r.spec_value() is None,
    {
        DeviceEntry { name: String::from_str(name), request_type, value: None }
    }

    /// Record the outcome of one read exchange, given what the transport
    /// handed back. No frame within the timeout is the recoverable
    /// "unknown" outcome `Ok(false)` and clears the value; a response that
    /// echoes the request kind with an acknowledge updates the value and
    /// gives `Ok(true)`; any other response clears the value and is a
    /// protocol error carrying both observed kinds.
    pub fn apply_response(&mut self, response: Option<Msg>) -> (r: Result<bool, ComError>)
        ensures
            final(self).spec_name() == old(self).spec_name(),
            final(self).spec_request_type() == old(self).spec_request_type(),
            (match response {
                None => r == Ok::<bool, ComError>(false) && final(self).spec_value() is None,
                Some(m) => if m.request == old(self).spec_request_type() && m.response
                    == ResponseType::RespAck {
                    r == Ok::<bool, ComError>(true) && final(self).spec_value() == Some(
                        m.data.word,
                    )
                } else {
                    r == Err::<bool, ComError>(
                        ComError::MsgError {
                            expected: old(self).spec_request_type(),
                            observed: m.request,
                            response: m.response,
                        },
                    ) && final(self).spec_value() is None
                },
            }),
    {
        match response {
            Some(m) => {
                let request_valid = m.get_request() == self.request_type;
                let response_valid = m.get_response() == ResponseType::RespAck;
                if request_valid && response_valid {
                    self.value = Some(m.get_data().to_word());
                    Ok(true)
                } else {
                    self.value = None;
                    Err(
                        ComError::MsgError {
                            expected: self.request_type,
                            observed: m.get_request(),
                            response: m.get_response(),
                        },
                    )
                }
            },
            None => {
                self.value = None;
                Ok(false)
            },
        }
    }

    /// Read this attribute from the device: build the request, send it,
    /// receive at most one frame, and validate it. A receive timeout is
    /// the recoverable outcome `Ok(false)` (the value is cleared, never an
    /// error); a transport error is propagated unchanged; a response that
    /// does not echo the request kind with an acknowledge is a protocol
    /// error carrying both observed kinds.
    pub fn read_from_device<T: ComInterface>(&mut self, interface: &mut T) -> (r: Result<
        bool,
        ComError,
    >)
        ensures
            final(self).spec_name() == old(self).spec_name(),
            final(self).spec_request_type() == old(self).spec_request_type(),
            r matches Ok(true) ==> final(self).spec_value() is Some,
            r matches Ok(false) ==> final(self).spec_value() is None,
            r is Err ==> (final(self).spec_value() is None || final(self).spec_value() == old(
                self,
            ).spec_value()),
            final(interface).sent() == old(interface).sent() || final(interface).sent() == old(
                interface,
            ).sent().push(Msg::spec_std_request(old(self).spec_request_type())),
            r matches Ok(_) ==> final(interface).sent() == old(interface).sent().push(
                Msg::spec_std_request(old(self).spec_request_type()),
            ),
            spec_read_exchange(
                *old(interface),
                *final(interface),
                old(self).spec_request_type(),
                final(self).spec_value(),
                r,
            ),
    {
        let ghost pre_iface = *interface;
        let request = Msg::new_std_request(self.request_type);
        let sent_result = interface.send(&request);
        proof {
            assert(T::send_ens(pre_iface, *interface, request, sent_result));
        }
        match sent_result {
            Ok(u) => {
                proof {
                    assert(sent_result == Ok::<(), ComError>(u));
                    assert(sent_result == Ok::<(), ComError>(()));
                }
            },
            Err(e) => {
                return Err(e);
            },
        }
        let ghost mid = *interface;
        let response = match interface.recv() {
            Ok(resp) => resp,
            Err(e) => {
                proof {
                    assert(T::send_ens(
                        pre_iface,
                        mid,
                        Msg::spec_std_request(old(self).spec_request_type()),
                        Ok(()),
                    ));
                    assert(T::recv_ens(mid, *interface, Err(e)));
                }
                return Err(e);
            },
        };
        let r = self.apply_response(response);
        proof {
            assert(T::send_ens(
                pre_iface,
                mid,
                Msg::spec_std_request(old(self).spec_request_type()),
                Ok(()),
            ));
            match response {
                Some(m) => {
                    assert(T::recv_ens(mid, *interface, Ok(Some(m))));
                },
                None => {
                    assert(T::recv_ens(mid, *interface, Ok(None)));
                },
            }
        }
        r
    }

    /// The last value read, if any.
    pub fn get_value(&self) -> (r: Option<u32>)
        ensures
            r == self.spec_value(),
    {
        self.value
    }

    /// The human name of the attribute.
    pub fn get_name(&self) -> (r: &str)
        ensures
            r@ == self.spec_name(),
    {
        self.name.as_str()
    }

    /// The request kind that reads the attribute.
    pub fn get_request_type(&self) -> (r: RequestType)
        ensures
            r == self.spec_request_type(),
    {
        self.request_type
    }
}

/// The shape of one read exchange over a transport `T`: which send and
/// receive behavior (in the sense of `T::send_ens` / `T::recv_ens`, with
/// `mid` the transport state between the two calls) produced each outcome
/// of a read of kind `rt`. A transport error is propagated unchanged; a
/// receive timeout is the recoverable `Ok(false)`; an acknowledged echo
/// is `Ok(true)` and stores the payload word; any other echo is the
/// protocol error carrying both observed kinds.
pub open spec fn spec_read_exchange<T: ComInterface>(
    pre_iface: T,
    post_iface: T,
    rt: RequestType,
    post_value: Option<u32>,
    r: Result<bool, ComError>,
) -> bool {
    match r {
        Ok(true) => exists|mid: T, m: Msg|
            #[trigger] T::recv_ens(mid, post_iface, Ok(Some(m))) && T::send_ens(
                pre_iface,
                mid,
                Msg::spec_std_request(rt),
                Ok(()),
            ) && m.request == rt && m.response == ResponseType::RespAck && post_value == Some(
                m.data.word,
            ),
        Ok(false) => exists|mid: T|
            T::send_ens(pre_iface, mid, Msg::spec_std_request(rt), Ok(())) && #[trigger] T::recv_ens(
                mid,
                post_iface,
                Ok(None),
            ),
        Err(e) => {
            ||| T::send_ens(pre_iface, post_iface, Msg::spec_std_request(rt), Err(e))
            ||| (exists|mid: T|
                T::send_ens(pre_iface, mid, Msg::spec_std_request(rt), Ok(()))
                    && #[trigger] T::recv_ens(mid, post_iface, Err(e)))
            ||| (exists|mid: T, m: Msg|
                #[trigger] T::recv_ens(mid, post_iface, Ok(Some(m))) && T::send_ens(
                    pre_iface,
                    mid,
                    Msg::spec_std_request(rt),
                    Ok(()),
                ) && !(m.request == rt && m.response == ResponseType::RespAck) && e == (
                ComError::MsgError { expected: rt, observed: m.request, response: m.response }))
        },
    }
}

// Sent-frame shapes ----------------------------------------------------------

/// `m` is a request frame of kind `rt` with the given payload word (the
/// response kind of a request is always none; the packet id is free).
pub open spec fn spec_is_request_frame(m: Msg, rt: RequestType, payload: u32) -> bool {
    &&& m.request == rt
    &&& m.response == ResponseType::RespNone
    &&& m.data.word == payload
}

/// The send log grew by at most the one request frame of this exchange:
/// either nothing was accepted, or exactly one frame of kind `rt` with
/// the given payload.
pub open spec fn spec_sent_at_most_one(
    pre: Seq<Msg>,
    post: Seq<Msg>,
    rt: RequestType,
    payload: u32,
) -> bool {
    ||| post == pre
    ||| {
        &&& post.len() == pre.len() + 1
        &&& post == pre.push(post.last())
        &&& spec_is_request_frame(post.last(), rt, payload)
    }
}

/// The only response kind the host accepts for word `j` of a page of
/// `wpp` words: every word is plainly acknowledged, except the last,
/// which must report that the page buffer has just become full.
pub open spec fn spec_word_write_expect(j: int, wpp: int) -> ResponseType {
    if j == wpp - 1 {
        ResponseType::RespAckPageFull
    } else {
        ResponseType::RespAck
    }
}

/// Exactly the last word of a page legitimately answers with a full page
/// buffer; a full buffer at any earlier word is never accepted.
pub proof fn lemma_ack_page_full_only_last(j: int, wpp: int)
    ensures
        spec_word_write_expect(j, wpp) == ResponseType::RespAckPageFull <==> j == wpp - 1,
{
}

/// The frames one page-programming transaction puts on the wire, in
/// order: one page-buffer clear, then exactly one buffer write per
/// 32-bit word of the page in ascending address order, then the
/// page-CRC check carrying the host-computed CRC, then the commit of the
/// buffer to flash page `k`.
pub open spec fn spec_page_txn(txn: Seq<Msg>, k: u32, page: Seq<u8>, crc: u32) -> bool {
    let wpp = page.len() as int / 4;
    &&& txn.len() == wpp + 3
    &&& spec_is_request_frame(txn[0], RequestType::ReqPageBufferClear, 0)
    &&& forall|j: int|
        0 <= j < wpp ==> spec_is_request_frame(
            #[trigger] txn[1 + j],
            RequestType::ReqPageBufferWriteWord,
            spec_word_from_bytes(page[4 * j], page[4 * j + 1], page[4 * j + 2], page[4 * j + 3]),
        )
    &&& spec_is_request_frame(txn[wpp + 1], RequestType::ReqPageBufferCalcCRC, crc)
    &&& spec_is_request_frame(txn[wpp + 2], RequestType::ReqPageBufferWriteToFlash, k)
}

/// The bytes the image maps onto app page `k`, for an app area whose
/// pages start at index `a` and hold `p` bytes each.
pub open spec fn spec_page_content(image: AppImage, a: u32, p: u32, k: u32) -> Seq<u8> {
    Seq::new(p as nat, |i: int| image.spec_byte((k - a) * p + i))
}

/// Whether a flash session programs app page `k`: its image range holds a
/// byte that differs from the erased-flash fill, or it is the page
/// holding the image end.
pub open spec fn spec_page_needs_write(image: AppImage, a: u32, p: u32, k: u32) -> bool {
    let base = (k - a) * p;
    ||| (exists|i: int| 0 <= i < p && #[trigger] image.spec_byte(base + i) != FLASH_FILL)
    ||| (image.spec_len() > 0 && base < image.spec_len() <= base + p)
}

/// A prefix of the frames of one page transaction: what an attempt that
/// failed part-way put on the wire — never more than the whole
/// transaction, each frame the one the transaction has at its position.
pub open spec fn spec_page_txn_partial(seg: Seq<Msg>, k: u32, page: Seq<u8>) -> bool {
    let wpp = page.len() as int / 4;
    &&& seg.len() <= wpp + 3
    &&& (seg.len() >= 1 ==> spec_is_request_frame(seg[0], RequestType::ReqPageBufferClear, 0))
    &&& (forall|j: int|
        0 <= j < wpp && 1 + j < seg.len() ==> spec_is_request_frame(
            #[trigger] seg[1 + j],
            RequestType::ReqPageBufferWriteWord,
            spec_word_from_bytes(page[4 * j], page[4 * j + 1], page[4 * j + 2], page[4 * j + 3]),
        ))
    &&& (seg.len() >= wpp + 2 ==> spec_is_request_frame(
        seg[wpp + 1],
        RequestType::ReqPageBufferCalcCRC,
        spec_crc32(page),
    ))
    &&& (seg.len() >= wpp + 3 ==> spec_is_request_frame(
        seg[wpp + 2],
        RequestType::ReqPageBufferWriteToFlash,
        k,
    ))
}

/// The wire traffic that programs one page: one whole page transaction,
/// or — after a device-reported CRC mismatch — the frames of the failed
/// attempt followed by one whole fresh transaction (the single retry).
pub open spec fn spec_page_write_traffic(seg: Seq<Msg>, k: u32, page: Seq<u8>) -> bool {
    let one = page.len() as int / 4 + 3;
    ||| (seg.len() == one && spec_page_txn(seg, k, page, spec_crc32(page)))
    ||| (exists|m: int|
        0 <= m <= one && seg.len() == m + one && #[trigger] spec_page_txn_partial(
            seg.take(m),
            k,
            page,
        ) && spec_page_txn(seg.skip(m), k, page, spec_crc32(page)))
}

/// The wire traffic of the page-writing phase over app pages `lo..hi`:
/// for each page in ascending order, nothing where the session skips the
/// page, and the page's `spec_page_write_traffic` where it programs it.
pub open spec fn spec_write_phase(
    seg: Seq<Msg>,
    image: AppImage,
    a: u32,
    p: u32,
    lo: u32,
    hi: u32,
) -> bool
    decreases hi - lo,
{
    if lo >= hi {
        seg.len() == 0
    } else if !spec_page_needs_write(image, a, p, lo) {
        spec_write_phase(seg, image, a, p, (lo + 1) as u32, hi)
    } else {
        exists|m: int|
            0 <= m <= seg.len() && #[trigger] spec_page_write_traffic(
                seg.take(m),
                lo,
                spec_page_content(image, a, p, lo),
            ) && spec_write_phase(seg.skip(m), image, a, p, (lo + 1) as u32, hi)
    }
}

/// Appending page `k`'s traffic (or nothing, for a skipped page) to the
/// traffic of pages `lo..k` gives the traffic of pages `lo..k+1`.
proof fn lemma_write_phase_append(
    s1: Seq<Msg>,
    s2: Seq<Msg>,
    image: AppImage,
    a: u32,
    p: u32,
    lo: u32,
    k: u32,
    hi: u32,
)
    requires
        lo <= k < hi,
        spec_write_phase(s1, image, a, p, lo, k),
        spec_page_needs_write(image, a, p, k) ==> spec_page_write_traffic(
            s2,
            k,
            spec_page_content(image, a, p, k),
        ),
        !spec_page_needs_write(image, a, p, k) ==> s2.len() == 0,
    ensures
        spec_write_phase(s1 + s2, image, a, p, lo, (k + 1) as u32),
    decreases k - lo,
{
    if lo == k {
        assert(s1.len() == 0);
        assert(s1 + s2 =~= s2);
        if spec_page_needs_write(image, a, p, k) {
            let all = (s1 + s2).len() as int;
            assert((s1 + s2).take(all) =~= s2);
            assert((s1 + s2).skip(all) =~= Seq::<Msg>::empty());
            assert(spec_page_write_traffic(
                (s1 + s2).take(all),
                k,
                spec_page_content(image, a, p, k),
            ));
            assert(spec_write_phase(
                (s1 + s2).skip(all),
                image,
                a,
                p,
                (k + 1) as u32,
                (k + 1) as u32,
            ));
        } else {
            assert((s1 + s2).len() == 0);
            assert(spec_write_phase(s1 + s2, image, a, p, (k + 1) as u32, (k + 1) as u32));
        }
    } else {
        if !spec_page_needs_write(image, a, p, lo) {
            lemma_write_phase_append(s1, s2, image, a, p, (lo + 1) as u32, k, hi);
        } else {
            let m = choose|m: int|
                0 <= m <= s1.len() && #[trigger] spec_page_write_traffic(
                    s1.take(m),
                    lo,
                    spec_page_content(image, a, p, lo),
                ) && spec_write_phase(s1.skip(m), image, a, p, (lo + 1) as u32, k);
            lemma_write_phase_append(s1.skip(m), s2, image, a, p, (lo + 1) as u32, k, hi);
            assert((s1 + s2).take(m) =~= s1.take(m));
            assert((s1 + s2).skip(m) =~= s1.skip(m) + s2);
            assert(spec_page_write_traffic(
                (s1 + s2).take(m),
                lo,
                spec_page_content(image, a, p, lo),
            ));
            assert(spec_write_phase(
                (s1 + s2).skip(m),
                image,
                a,
                p,
                (lo + 1) as u32,
                (k + 1) as u32,
            ));
            assert(0 <= m <= (s1 + s2).len());
        }
    }
}

/// Number of frames of request kind `rt` in `s`.
pub open spec fn spec_count_requests(s: Seq<Msg>, rt: RequestType) -> int
    decreases s.len(),
{
    if s.len() == 0 {
        0
    } else {
        spec_count_requests(s.drop_last(), rt) + if s.last().request == rt {
            1int
        } else {
            0int
        }
    }
}

/// In a sequence whose frames of kind `rt` sit exactly at the positions
/// `lo..hi`, the count of that kind is `hi - lo`.
proof fn lemma_count_requests_marked(s: Seq<Msg>, rt: RequestType, lo: int, hi: int)
    requires
        0 <= lo <= hi <= s.len(),
        forall|i: int| 0 <= i < s.len() ==> ((#[trigger] s[i]).request == rt <==> lo <= i < hi),
    ensures
        spec_count_requests(s, rt) == hi - lo,
    decreases s.len(),
{
    if s.len() == 0 {
    } else {
        let s2 = s.drop_last();
        let n = s.len() - 1;
        if s.last().request == rt {
            assert(hi == n + 1);
            lemma_count_requests_marked(s2, rt, lo, hi - 1);
        } else {
            if hi <= n {
                lemma_count_requests_marked(s2, rt, lo, hi);
            } else {
                assert(lo == hi);
                lemma_count_requests_marked(s2, rt, n, n);
            }
        }
    }
}

/// A page-programming transaction sends exactly one page-buffer word
/// write per 32-bit word of the page — `page.len() / 4` of them, and no
/// other frame of that kind.
pub proof fn lemma_page_txn_write_word_count(txn: Seq<Msg>, k: u32, page: Seq<u8>, crc: u32)
    requires
        spec_page_txn(txn, k, page, crc),
    ensures
        spec_count_requests(txn, RequestType::ReqPageBufferWriteWord) == page.len() / 4,
{
    let wpp = page.len() as int / 4;
    assert forall|i: int| 0 <= i < txn.len() implies ((#[trigger] txn[i]).request
        == RequestType::ReqPageBufferWriteWord <==> 1 <= i < wpp + 1) by {
        if 1 <= i < wpp + 1 {
            assert(spec_is_request_frame(
                txn[1 + (i - 1)],
                RequestType::ReqPageBufferWriteWord,
                spec_word_from_bytes(
                    page[4 * (i - 1)],
                    page[4 * (i - 1) + 1],
                    page[4 * (i - 1) + 2],
                    page[4 * (i - 1) + 3],
                ),
            ));
        }
    }
    lemma_count_requests_marked(txn, RequestType::ReqPageBufferWriteWord, 1, wpp + 1);
}

/// The response kind the host demands for word `j` of a page of `wpp`
/// words.
fn word_write_expect(j: usize, wpp: usize) -> (r: ResponseType)
    requires
        j < wpp,
    ensures
        r == spec_word_write_expect(j as int, wpp as int),
{
    if j + 1 == wpp {
        ResponseType::RespAckPageFull
    } else {
        ResponseType::RespAck
    }
}

/// The device invariants over the four geometry attributes (start
/// address, page size, page count, app page index): all four known, page
/// size a non-zero multiple of four, app page index strictly between zero
/// and the page count, start address aligned to the page size, and a
/// flash that stays addressable with 32 bits.
pub open spec fn spec_geometry_ok(
    start: Option<u32>,
    page_size: Option<u32>,
    num_pages: Option<u32>,
    app_page_idx: Option<u32>,
) -> bool {
    match (start, page_size, num_pages, app_page_idx) {
        (Some(s), Some(p), Some(n), Some(a)) => {
            &&& p >= 4
            &&& p % 4 == 0
            &&& 0 < a < n
            &&& s % p == 0
            &&& s + n * p <= u32::MAX
        },
        _ => false,
    }
}

/// Decide the device invariants over the four geometry attributes read at
/// init, exactly as `spec_geometry_ok` states them.
pub fn check_geometry(
    start: Option<u32>,
    page_size: Option<u32>,
    num_pages: Option<u32>,
    app_page_idx: Option<u32>,
) -> (r: bool)
    ensures
        r == spec_geometry_ok(start, page_size, num_pages, app_page_idx),
{
    let s = match start {
        Some(v) => v,
        None => {
            return false;
        },
    };
    let p = match page_size {
        Some(v) => v,
        None => {
            return false;
        },
    };
    let n = match num_pages {
        Some(v) => v,
        None => {
            return false;
        },
    };
    let a = match app_page_idx {
        Some(v) => v,
        None => {
            return false;
        },
    };
    if p < 4 || p % 4 != 0 {
        return false;
    }
    if a == 0 || a >= n {
        return false;
    }
    if s % p != 0 {
        return false;
    }
    proof {
        assert((n as u64) * (p as u64) <= 0xFFFFFFFE00000001) by (nonlinear_arith)
            requires
                n as u64 <= 0xFFFFFFFFu64,
                p as u64 <= 0xFFFFFFFFu64,
        ;
    }
    if (s as u64) + (n as u64) * (p as u64) > 0xFFFFFFFF {
        return false;
    }
    true
}

/// Compare one CRC value read back from the device against the
/// host-computed CRC: a mismatch is the error that carries both words,
/// if and only if they differ.
pub fn verify_crc_value(expected: u32, observed: u32) -> (r: Result<(), ComError>)
    ensures
        r == if observed == expected {
            Ok::<(), ComError>(())
        } else {
            Err::<(), ComError>(ComError::CrcMismatch { expected, observed })
        },
{
    if observed == expected {
        Ok(())
    } else {
        Err(ComError::CrcMismatch { expected, observed })
    }
}

/// The request kinds of the attribute registry, in the order init reads
/// them.
pub open spec fn spec_registry_kind(i: int) -> RequestType {
    if i == 0 {
        RequestType::ReqDevInfoBootloaderVersion
    } else if i == 1 {
        RequestType::ReqDevInfoBootloaderCRC
    } else if i == 2 {
        RequestType::ReqDevInfoVID
    } else if i == 3 {
        RequestType::ReqDevInfoPID
    } else if i == 4 {
        RequestType::ReqDevInfoPRD
    } else if i == 5 {
        RequestType::ReqDevInfoUID
    } else if i == 6 {
        RequestType::ReqFlashInfoStartAddr
    } else if i == 7 {
        RequestType::ReqFlashInfoPageSize
    } else if i == 8 {
        RequestType::ReqFlashInfoNumPages
    } else if i == 9 {
        RequestType::ReqAppInfoPageIdx
    } else if i == 10 {
        RequestType::ReqAppInfoCRCCalc
    } else {
        RequestType::ReqAppInfoCRCStrd
    }
}

// Device ---------------------------------------------------------------------

/// A device under firmware update: the transport it owns exclusively for
/// the session, the per-message packet id counter, and the registry of
/// its protocol attributes.
pub struct Device<I: ComInterface> {
    interface: I,
    packet_id: u8,
    entry_bootloader_version: DeviceEntry,
    entry_bootloader_crc: DeviceEntry,
    entry_vid: DeviceEntry,
    entry_pid: DeviceEntry,
    entry_prd: DeviceEntry,
    entry_uid: DeviceEntry,
    entry_flash_start: DeviceEntry,
    entry_page_size: DeviceEntry,
    entry_num_pages: DeviceEntry,
    entry_app_page_idx: DeviceEntry,
    entry_app_crc_calc: DeviceEntry,
    entry_app_crc_stored: DeviceEntry,
}

impl<I: ComInterface> Device<I> {
    /// Every registry entry carries the request kind it stands for.
    pub closed spec fn wf(self) -> bool {
        &&& self.entry_bootloader_version.spec_request_type()
            == RequestType::ReqDevInfoBootloaderVersion
        &&& self.entry_bootloader_crc.spec_request_type() == RequestType::ReqDevInfoBootloaderCRC
        &&& self.entry_vid.spec_request_type() == RequestType::ReqDevInfoVID
        &&& self.entry_pid.spec_request_type() == RequestType::ReqDevInfoPID
        &&& self.entry_prd.spec_request_type() == RequestType::ReqDevInfoPRD
        &&& self.entry_uid.spec_request_type() == RequestType::ReqDevInfoUID
        &&& self.entry_flash_start.spec_request_type() == RequestType::ReqFlashInfoStartAddr
        &&& self.entry_page_size.spec_request_type() == RequestType::ReqFlashInfoPageSize
        &&& self.entry_num_pages.spec_request_type() == RequestType::ReqFlashInfoNumPages
        &&& self.entry_app_page_idx.spec_request_type() == RequestType::ReqAppInfoPageIdx
        &&& self.entry_app_crc_calc.spec_request_type() == RequestType::ReqAppInfoCRCCalc
        &&& self.entry_app_crc_stored.spec_request_type() == RequestType::ReqAppInfoCRCStrd
    }

    /// The ghost log of frames the transport accepted so far.
    pub closed spec fn spec_sent(self) -> Seq<Msg> {
        self.interface.sent()
    }

    /// The packet id stamped on the most recent request of this device.
    pub closed spec fn spec_packet_id(self) -> u8 {
        self.packet_id
    }

    /// The transport this device owns.
    pub closed spec fn spec_interface(self) -> I {
        self.interface
    }

    /// The last value read for the attribute of kind `rt`; `None` for a
    /// kind outside the registry.
    pub closed spec fn spec_value(self, rt: RequestType) -> Option<u32> {
        match rt {
            RequestType::ReqDevInfoBootloaderVersion => self.entry_bootloader_version.spec_value(),
            RequestType::ReqDevInfoBootloaderCRC => self.entry_bootloader_crc.spec_value(),
            RequestType::ReqDevInfoVID => self.entry_vid.spec_value(),
            RequestType::ReqDevInfoPID => self.entry_pid.spec_value(),
            RequestType::ReqDevInfoPRD => self.entry_prd.spec_value(),
            RequestType::ReqDevInfoUID => self.entry_uid.spec_value(),
            RequestType::ReqFlashInfoStartAddr => self.entry_flash_start.spec_value(),
            RequestType::ReqFlashInfoPageSize => self.entry_page_size.spec_value(),
            RequestType::ReqFlashInfoNumPages => self.entry_num_pages.spec_value(),
            RequestType::ReqAppInfoPageIdx => self.entry_app_page_idx.spec_value(),
            RequestType::ReqAppInfoCRCCalc => self.entry_app_crc_calc.spec_value(),
            RequestType::ReqAppInfoCRCStrd => self.entry_app_crc_stored.spec_value(),
            _ => None,
        }
    }

    /// Flash start address once init succeeded.
    pub open spec fn spec_flash_start(self) -> u32 {
        match self.spec_value(RequestType::ReqFlashInfoStartAddr) {
            Some(v) => v,
            None => 0,
        }
    }

    /// Flash page size once init succeeded.
    pub open spec fn spec_page_size(self) -> u32 {
        match self.spec_value(RequestType::ReqFlashInfoPageSize) {
            Some(v) => v,
            None => 0,
        }
    }

    /// Flash page count once init succeeded.
    pub open spec fn spec_num_pages(self) -> u32 {
        match self.spec_value(RequestType::ReqFlashInfoNumPages) {
            Some(v) => v,
            None => 0,
        }
    }

    /// First app page index once init succeeded.
    pub open spec fn spec_app_page_idx(self) -> u32 {
        match self.spec_value(RequestType::ReqAppInfoPageIdx) {
            Some(v) => v,
            None => 0,
        }
    }

    /// The invariants that must hold after a successful init, over the
    /// four geometry attributes read from the device.
    pub open spec fn initialized(self) -> bool {
        spec_geometry_ok(
            self.spec_value(RequestType::ReqFlashInfoStartAddr),
            self.spec_value(RequestType::ReqFlashInfoPageSize),
            self.spec_value(RequestType::ReqFlashInfoNumPages),
            self.spec_value(RequestType::ReqAppInfoPageIdx),
        )
    }

    /// A fresh device around the given transport: all attributes unread,
    /// packet id counter at zero.
    pub fn new(interface: I) -> (r: Device<I>)
        ensures
            r.wf(),
            r.spec_sent() == interface.sent(),
            forall|rt: RequestType| r.spec_value(rt) is None,
    {
        Device {
            interface,
            packet_id: 0,
            entry_bootloader_version: DeviceEntry::new(
                "Bootloader Version",
                RequestType::ReqDevInfoBootloaderVersion,
            ),
            entry_bootloader_crc: DeviceEntry::new(
                "Bootloader CRC",
                RequestType::ReqDevInfoBootloaderCRC,
            ),
            entry_vid: DeviceEntry::new("Vendor ID", RequestType::ReqDevInfoVID),
            entry_pid: DeviceEntry::new("Product ID", RequestType::ReqDevInfoPID),
            entry_prd: DeviceEntry::new("Production Date", RequestType::ReqDevInfoPRD),
            entry_uid: DeviceEntry::new("Unique ID", RequestType::ReqDevInfoUID),
            entry_flash_start: DeviceEntry::new(
                "Flash Start Address",
                RequestType::ReqFlashInfoStartAddr,
            ),
            entry_page_size: DeviceEntry::new(
                "Flash Page Size",
                RequestType::ReqFlashInfoPageSize,
            ),
            entry_num_pages: DeviceEntry::new(
                "Flash Num Pages",
                RequestType::ReqFlashInfoNumPages,
            ),
            entry_app_page_idx: DeviceEntry::new(
                "App Page Index",
                RequestType::ReqAppInfoPageIdx,
            ),
            entry_app_crc_calc: DeviceEntry::new(
                "App CRC Calculated",
                RequestType::ReqAppInfoCRCCalc,
            ),
            entry_app_crc_stored: DeviceEntry::new(
                "App CRC Stored",
                RequestType::ReqAppInfoCRCStrd,
            ),
        }
    }

    /// One half-duplex exchange: send a request frame of kind `rt` with
    /// the given payload, wait for the response, and demand that it echo
    /// the request kind with the expected response kind. The packet id is
    /// incremented modulo 256 per outgoing message and stamped on the
    /// frame. A receive timeout is fatal here; any other echo is a
    /// protocol error carrying both observed kinds.
    fn exchange(&mut self, rt: RequestType, payload: u32, expect: ResponseType) -> (r: Result<
        Msg,
        ComError,
    >)
        ensures
            final(self).wf() == old(self).wf(),
            forall|k: RequestType| final(self).spec_value(k) == old(self).spec_value(k),
            r matches Ok(m) ==> m.request == rt && m.response == expect,
            spec_sent_at_most_one(old(self).spec_sent(), final(self).spec_sent(), rt, payload),
            r is Ok ==> final(self).spec_sent().len() == old(self).spec_sent().len() + 1,
            final(self).spec_packet_id() == (if old(self).spec_packet_id() == 255 {
                0u8
            } else {
                (old(self).spec_packet_id() + 1) as u8
            }),
            final(self).spec_sent().len() > old(self).spec_sent().len()
                ==> final(self).spec_sent().last().packet_id == final(self).spec_packet_id(),
    {
        let pid: u8 = if self.packet_id == 255 {
            0
        } else {
            self.packet_id + 1
        };
        self.packet_id = pid;
        let data = MsgData::from_word(payload);
        let request = Msg::new(rt, ResponseType::RespNone, pid, &data);
        match self.interface.send(&request) {
            Ok(()) => {},
            Err(e) => {
                return Err(e);
            },
        }
        let response = match self.interface.recv() {
            Ok(Some(m)) => m,
            Ok(None) => {
                return Err(ComError::NoResponse);
            },
            Err(e) => {
                return Err(e);
            },
        };
        if response.get_request() == rt && response.get_response() == expect {
            Ok(response)
        } else {
            Err(
                ComError::MsgError {
                    expected: rt,
                    observed: response.get_request(),
                    response: response.get_response(),
                },
            )
        }
    }

    /// Read every entry of the registry from the device, then check the
    /// device invariants. A hard error of any read is fatal; a per-entry
    /// timeout only leaves that attribute unknown, and the init fails
    /// afterwards if an attribute the invariants need stayed unknown or
    /// the invariants do not hold. On success the send log grew by
    /// exactly the twelve standard read requests in registry order, and
    /// each attribute's value is the outcome of its own read exchange
    /// (`spec_read_exchange`), chained through the transport states.
    pub fn init(&mut self) -> (r: Result<(), ComError>)
        requires
            old(self).wf(),
        ensures
            final(self).wf(),
            r is Ok ==> final(self).initialized(),
            r is Ok ==> ({
                let pre = old(self).spec_sent();
                let post = final(self).spec_sent();
                &&& post.len() == pre.len() + 12
                &&& post.take(pre.len() as int) == pre
                &&& (forall|i: int|
                    0 <= i < 12 ==> #[trigger] post[pre.len() + i] == Msg::spec_std_request(
                        spec_registry_kind(i),
                    ))
            }),
            r is Ok ==> (exists|snaps: Seq<I>|
                {
                    &&& snaps.len() == 13
                    &&& snaps[0] == old(self).spec_interface()
                    &&& snaps[12] == final(self).spec_interface()
                    &&& (forall|i: int|
                        0 <= i < 12 ==> #[trigger] spec_read_exchange(
                            snaps[i],
                            snaps[i + 1],
                            spec_registry_kind(i),
                            final(self).spec_value(spec_registry_kind(i)),
                            Ok(final(self).spec_value(spec_registry_kind(i)) is Some),
                        ))
                }),
    {
        let ghost g0 = self.interface;
        let r0 = self.entry_bootloader_version.read_from_device(&mut self.interface);
        let ghost g1 = self.interface;
        let ghost r0g = r0;
        match r0 {
            Ok(_) => {},
            Err(e) => {
                return Err(e);
            },
        }
        let r1 = self.entry_bootloader_crc.read_from_device(&mut self.interface);
        let ghost g2 = self.interface;
        let ghost r1g = r1;
        match r1 {
            Ok(_) => {},
            Err(e) => {
                return Err(e);
            },
        }
        let r2 = self.entry_vid.read_from_device(&mut self.interface);
        let ghost g3 = self.interface;
        let ghost r2g = r2;
        match r2 {
            Ok(_) => {},
            Err(e) => {
                return Err(e);
            },
        }
        let r3 = self.entry_pid.read_from_device(&mut self.interface);
        let ghost g4 = self.interface;
        let ghost r3g = r3;
        match r3 {
            Ok(_) => {},
            Err(e) => {
                return Err(e);
            },
        }
        let r4 = self.entry_prd.read_from_device(&mut self.interface);
        let ghost g5 = self.interface;
        let ghost r4g = r4;
        match r4 {
            Ok(_) => {},
            Err(e) => {
                return Err(e);
            },
        }
        let r5 = self.entry_uid.read_from_device(&mut self.interface);
        let ghost g6 = self.interface;
        let ghost r5g = r5;
        match r5 {
            Ok(_) => {},
            Err(e) => {
                return Err(e);
            },
        }
        let r6 = self.entry_flash_start.read_from_device(&mut self.interface);
        let ghost g7 = self.interface;
        let ghost r6g = r6;
        match r6 {
            Ok(_) => {},
            Err(e) => {
                return Err(e);
            },
        }
        let r7 = self.entry_page_size.read_from_device(&mut self.interface);
        let ghost g8 = self.interface;
        let ghost r7g = r7;
        match r7 {
            Ok(_) => {},
            Err(e) => {
                return Err(e);
            },
        }
        let r8 = self.entry_num_pages.read_from_device(&mut self.interface);
        let ghost g9 = self.interface;
        let ghost r8g = r8;
        match r8 {
            Ok(_) => {},
            Err(e) => {
                return Err(e);
            },
        }
        let r9 = self.entry_app_page_idx.read_from_device(&mut self.interface);
        let ghost g10 = self.interface;
        let ghost r9g = r9;
        match r9 {
            Ok(_) => {},
            Err(e) => {
                return Err(e);
            },
        }
        let r10 = self.entry_app_crc_calc.read_from_device(&mut self.interface);
        let ghost g11 = self.interface;
        let ghost r10g = r10;
        match r10 {
            Ok(_) => {},
            Err(e) => {
                return Err(e);
            },
        }
        let r11 = self.entry_app_crc_stored.read_from_device(&mut self.interface);
        let ghost g12 = self.interface;
        let ghost r11g = r11;
        match r11 {
            Ok(_) => {},
            Err(e) => {
                return Err(e);
            },
        }
        if check_geometry(
            self.entry_flash_start.get_value(),
            self.entry_page_size.get_value(),
            self.entry_num_pages.get_value(),
            self.entry_app_page_idx.get_value(),
        ) {
            proof {
                assert(self.spec_sent().take(old(self).spec_sent().len() as int) =~= old(
                    self,
                ).spec_sent());
                let snaps = seq![g0, g1, g2, g3, g4, g5, g6, g7, g8, g9, g10, g11, g12];
                assert forall|i: int| 0 <= i < 12 implies #[trigger] spec_read_exchange(
                    snaps[i],
                    snaps[i + 1],
                    spec_registry_kind(i),
                    self.spec_value(spec_registry_kind(i)),
                    Ok(self.spec_value(spec_registry_kind(i)) is Some),
                ) by {
                if i == 0 {
                    assert(r0g == Ok::<bool, ComError>(self.entry_bootloader_version.spec_value() is Some));
                    assert(spec_read_exchange(
                        g0,
                        g1,
                        RequestType::ReqDevInfoBootloaderVersion,
                        self.entry_bootloader_version.spec_value(),
                        Ok(self.entry_bootloader_version.spec_value() is Some),
                    ));
                }
                else if i == 1 {
                    assert(r1g == Ok::<bool, ComError>(self.entry_bootloader_crc.spec_value() is Some));
                    assert(spec_read_exchange(
                        g1,
                        g2,
                        RequestType::ReqDevInfoBootloaderCRC,
                        self.entry_bootloader_crc.spec_value(),
                        Ok(self.entry_bootloader_crc.spec_value() is Some),
                    ));
                }
                else if i == 2 {
                    assert(r2g == Ok::<bool, ComError>(self.entry_vid.spec_value() is Some));
                    assert(spec_read_exchange(
                        g2,
                        g3,
                        RequestType::ReqDevInfoVID,
                        self.entry_vid.spec_value(),
                        Ok(self.entry_vid.spec_value() is Some),
                    ));
                }
                else if i == 3 {
                    assert(r3g == Ok::<bool, ComError>(self.entry_pid.spec_value() is Some));
                    assert(spec_read_exchange(
                        g3,
                        g4,
                        RequestType::ReqDevInfoPID,
                        self.entry_pid.spec_value(),
                        Ok(self.entry_pid.spec_value() is Some),
                    ));
                }
                else if i == 4 {
                    assert(r4g == Ok::<bool, ComError>(self.entry_prd.spec_value() is Some));
                    assert(spec_read_exchange(
                        g4,
                        g5,
                        RequestType::ReqDevInfoPRD,
                        self.entry_prd.spec_value(),
                        Ok(self.entry_prd.spec_value() is Some),
                    ));
                }
                else if i == 5 {
                    assert(r5g == Ok::<bool, ComError>(self.entry_uid.spec_value() is Some));
                    assert(spec_read_exchange(
                        g5,
                        g6,
                        RequestType::ReqDevInfoUID,
                        self.entry_uid.spec_value(),
                        Ok(self.entry_uid.spec_value() is Some),
                    ));
                }
                else if i == 6 {
                    assert(r6g == Ok::<bool, ComError>(self.entry_flash_start.spec_value() is Some));
                    assert(spec_read_exchange(
                        g6,
                        g7,
                        RequestType::ReqFlashInfoStartAddr,
                        self.entry_flash_start.spec_value(),
                        Ok(self.entry_flash_start.spec_value() is Some),
                    ));
                }
                else if i == 7 {
                    assert(r7g == Ok::<bool, ComError>(self.entry_page_size.spec_value() is Some));
                    assert(spec_read_exchange(
                        g7,
                        g8,
                        RequestType::ReqFlashInfoPageSize,
                        self.entry_page_size.spec_value(),
                        Ok(self.entry_page_size.spec_value() is Some),
                    ));
                }
                else if i == 8 {
                    assert(r8g == Ok::<bool, ComError>(self.entry_num_pages.spec_value() is Some));
                    assert(spec_read_exchange(
                        g8,
                        g9,
                        RequestType::ReqFlashInfoNumPages,
                        self.entry_num_pages.spec_value(),
                        Ok(self.entry_num_pages.spec_value() is Some),
                    ));
                }
                else if i == 9 {
                    assert(r9g == Ok::<bool, ComError>(self.entry_app_page_idx.spec_value() is Some));
                    assert(spec_read_exchange(
                        g9,
                        g10,
                        RequestType::ReqAppInfoPageIdx,
                        self.entry_app_page_idx.spec_value(),
                        Ok(self.entry_app_page_idx.spec_value() is Some),
                    ));
                }
                else if i == 10 {
                    assert(r10g == Ok::<bool, ComError>(self.entry_app_crc_calc.spec_value() is Some));
                    assert(spec_read_exchange(
                        g10,
                        g11,
                        RequestType::ReqAppInfoCRCCalc,
                        self.entry_app_crc_calc.spec_value(),
                        Ok(self.entry_app_crc_calc.spec_value() is Some),
                    ));
                }
                else if i == 11 {
                    assert(r11g == Ok::<bool, ComError>(self.entry_app_crc_stored.spec_value() is Some));
                    assert(spec_read_exchange(
                        g11,
                        g12,
                        RequestType::ReqAppInfoCRCStrd,
                        self.entry_app_crc_stored.spec_value(),
                        Ok(self.entry_app_crc_stored.spec_value() is Some),
                    ));
                }
                }
                assert(snaps.len() == 13);
                assert(snaps[0] == g0 && snaps[12] == g12);
            }
            Ok(())
        } else {
            Err(ComError::InvalidDeviceInfo)
        }
    }

    /// The flash geometry read at init: start address, page size, page
    /// count and app page index.
    fn geometry(&self) -> (r: (u32, u32, u32, u32))
        requires
            self.initialized(),
        ensures
            r == (
                self.spec_flash_start(),
                self.spec_page_size(),
                self.spec_num_pages(),
                self.spec_app_page_idx(),
            ),
    {
        let s = match self.entry_flash_start.get_value() {
            Some(v) => v,
            None => vstd::pervasive::unreached(),
        };
        let p = match self.entry_page_size.get_value() {
            Some(v) => v,
            None => vstd::pervasive::unreached(),
        };
        let n = match self.entry_num_pages.get_value() {
            Some(v) => v,
            None => vstd::pervasive::unreached(),
        };
        let a = match self.entry_app_page_idx.get_value() {
            Some(v) => v,
            None => vstd::pervasive::unreached(),
        };
        (s, p, n, a)
    }

    /// The last value read for the attribute of kind `rt`; `None` for a
    /// kind outside the registry.
    pub fn get_entry_value(&self, rt: RequestType) -> (r: Option<u32>)
        ensures
            r == self.spec_value(rt),
    {
        match rt {
            RequestType::ReqDevInfoBootloaderVersion => self.entry_bootloader_version.get_value(),
            RequestType::ReqDevInfoBootloaderCRC => self.entry_bootloader_crc.get_value(),
            RequestType::ReqDevInfoVID => self.entry_vid.get_value(),
            RequestType::ReqDevInfoPID => self.entry_pid.get_value(),
            RequestType::ReqDevInfoPRD => self.entry_prd.get_value(),
            RequestType::ReqDevInfoUID => self.entry_uid.get_value(),
            RequestType::ReqFlashInfoStartAddr => self.entry_flash_start.get_value(),
            RequestType::ReqFlashInfoPageSize => self.entry_page_size.get_value(),
            RequestType::ReqFlashInfoNumPages => self.entry_num_pages.get_value(),
            RequestType::ReqAppInfoPageIdx => self.entry_app_page_idx.get_value(),
            RequestType::ReqAppInfoCRCCalc => self.entry_app_crc_calc.get_value(),
            RequestType::ReqAppInfoCRCStrd => self.entry_app_crc_stored.get_value(),
            _ => None,
        }
    }

    /// Erase the whole app area: one erase request per page, in ascending
    /// page order from the app page index up to the page count, each
    /// requiring an acknowledge. On success the transport accepted exactly
    /// one erase frame per app page, in order.
    pub fn erase(&mut self) -> (r: Result<(), ComError>)
        requires
            old(self).wf(),
            old(self).initialized(),
        ensures
            final(self).wf(),
            final(self).initialized(),
            forall|q: RequestType| final(self).spec_value(q) == old(self).spec_value(q),
            r is Ok ==> final(self).spec_packet_id() == ((old(self).spec_packet_id() + (old(
                self,
            ).spec_num_pages() - old(self).spec_app_page_idx())) % 256) as u8,
            r is Ok ==> ({
                let pre = old(self).spec_sent();
                let post = final(self).spec_sent();
                let a = old(self).spec_app_page_idx();
                let n = old(self).spec_num_pages();
                &&& post.len() == pre.len() + (n - a)
                &&& post.take(pre.len() as int) == pre
                &&& forall|j: int|
                    0 <= j < n - a ==> spec_is_request_frame(
                        #[trigger] post[pre.len() + j],
                        RequestType::ReqFlashWriteErasePage,
                        (a + j) as u32,
                    )
            }),
    {
        let (_s, _p, n, a) = self.geometry();
        let ghost pre = self.spec_sent();
        let mut k = a;
        while k < n
            invariant
                self.wf(),
                self.initialized(),
                forall|q: RequestType| self.spec_value(q) == old(self).spec_value(q),
                a == old(self).spec_app_page_idx(),
                n == old(self).spec_num_pages(),
                a <= k <= n,
                pre == old(self).spec_sent(),
                self.spec_packet_id() == ((old(self).spec_packet_id() + (k - a)) % 256) as u8,
                self.spec_sent().len() == pre.len() + (k - a),
                self.spec_sent().take(pre.len() as int) == pre,
                forall|j: int|
                    0 <= j < k - a ==> spec_is_request_frame(
                        #[trigger] self.spec_sent()[pre.len() + j],
                        RequestType::ReqFlashWriteErasePage,
                        (a + j) as u32,
                    ),
            decreases n - k,
        {
            match self.exchange(RequestType::ReqFlashWriteErasePage, k, ResponseType::RespAck) {
                Ok(_) => {},
                Err(e) => {
                    return Err(e);
                },
            }
            proof {
                assert(self.spec_sent().take(pre.len() as int) =~= pre);
            }
            k = k + 1;
        }
        Ok(())
    }

    /// One page-programming transaction: clear the page buffer, write the
    /// page word by word in ascending address order, have the device check
    /// the page CRC against the host-computed one, and commit the buffer
    /// to flash page `k`. Exactly the last word of the page may and must
    /// answer with a full page buffer; a full buffer any earlier, or any
    /// other unexpected response, is a protocol error. On success the
    /// transport accepted exactly the frames of `spec_page_txn`, in
    /// order.
    pub fn flash_page(&mut self, k: u32, page: &Vec<u8>) -> (r: Result<(), ComError>)
        requires
            old(self).wf(),
            old(self).initialized(),
            page@.len() == old(self).spec_page_size(),
        ensures
            final(self).wf(),
            final(self).initialized(),
            forall|q: RequestType| final(self).spec_value(q) == old(self).spec_value(q),
            final(self).spec_sent().len() >= old(self).spec_sent().len(),
            final(self).spec_sent().take(old(self).spec_sent().len() as int) == old(
                self,
            ).spec_sent(),
            r is Ok ==> final(self).spec_packet_id() == ((old(self).spec_packet_id() + page@.len()
                / 4 + 3) % 256) as u8,
            r is Ok ==> ({
                let pre = old(self).spec_sent();
                let post = final(self).spec_sent();
                &&& post.len() == pre.len() + page@.len() / 4 + 3
                &&& spec_page_txn(post.skip(pre.len() as int), k, page@, spec_crc32(page@))
            }),
            r is Err ==> spec_page_txn_partial(
                final(self).spec_sent().skip(old(self).spec_sent().len() as int),
                k,
                page@,
            ),
    {
        let ghost pre = self.spec_sent();
        match self.exchange(RequestType::ReqPageBufferClear, 0, ResponseType::RespAck) {
            Ok(_) => {},
            Err(e) => {
                proof {
                    let post = self.spec_sent();
                    assert(post.take(pre.len() as int) =~= pre);
                    let seg = post.skip(pre.len() as int);
                    if post == pre {
                        assert(seg =~= Seq::<Msg>::empty());
                    } else {
                        assert(seg.len() == 1);
                        assert(seg[0] == post.last());
                    }
                    assert(spec_page_txn_partial(seg, k, page@));
                }
                return Err(e);
            },
        }
        let wpp = page.len() / 4;
        proof {
            assert(4 * (page@.len() as int / 4) == page@.len());
        }
        let mut i: usize = 0;
        while i < wpp
            invariant
                self.wf(),
                self.initialized(),
                forall|q: RequestType| self.spec_value(q) == old(self).spec_value(q),
                page@.len() == old(self).spec_page_size(),
                wpp == page@.len() / 4,
                4 * (wpp as int) == page@.len(),
                i <= wpp,
                pre == old(self).spec_sent(),
                self.spec_packet_id() == ((old(self).spec_packet_id() + 1 + i) % 256) as u8,
                self.spec_sent().len() == pre.len() + 1 + i,
                self.spec_sent().take(pre.len() as int) == pre,
                spec_is_request_frame(
                    self.spec_sent()[pre.len() as int],
                    RequestType::ReqPageBufferClear,
                    0,
                ),
                forall|j: int|
                    0 <= j < i ==> spec_is_request_frame(
                        #[trigger] self.spec_sent()[pre.len() + 1 + j],
                        RequestType::ReqPageBufferWriteWord,
                        spec_word_from_bytes(
                            page@[4 * j],
                            page@[4 * j + 1],
                            page@[4 * j + 2],
                            page@[4 * j + 3],
                        ),
                    ),
            decreases wpp - i,
        {
            let w = MsgData::from_bytes(
                page[4 * i],
                page[4 * i + 1],
                page[4 * i + 2],
                page[4 * i + 3],
            ).to_word();
            let expect = word_write_expect(i, wpp);
            let ghost mid = self.spec_sent();
            match self.exchange(RequestType::ReqPageBufferWriteWord, w, expect) {
                Ok(_) => {},
                Err(e) => {
                    proof {
                        let post = self.spec_sent();
                        assert(post.take(pre.len() as int) =~= pre);
                        let seg = post.skip(pre.len() as int);
                        assert(seg.len() <= 2 + i);
                        assert(seg[0] == post[pre.len() as int]);
                        assert forall|j: int|
                            0 <= j < (page@.len() as int / 4) && 1 + j
                                < seg.len() implies spec_is_request_frame(
                            #[trigger] seg[1 + j],
                            RequestType::ReqPageBufferWriteWord,
                            spec_word_from_bytes(
                                page@[4 * j],
                                page@[4 * j + 1],
                                page@[4 * j + 2],
                                page@[4 * j + 3],
                            ),
                        ) by {
                            assert(seg[1 + j] == post[pre.len() + 1 + j]);
                            if j < i {
                                assert(post[pre.len() + 1 + j] == mid[pre.len() + 1 + j]);
                            } else {
                                assert(seg[1 + j] == post.last());
                            }
                        }
                        assert(spec_page_txn_partial(seg, k, page@));
                    }
                    return Err(e);
                },
            }
            proof {
                assert(self.spec_sent().take(pre.len() as int) =~= pre);
            }
            i = i + 1;
        }
        let crc = crc32(page);
        let ghost after_words = self.spec_sent();
        match self.exchange(RequestType::ReqPageBufferCalcCRC, crc, ResponseType::RespAck) {
            Ok(_) => {},
            Err(e) => {
                proof {
                    let post = self.spec_sent();
                    assert(post.take(pre.len() as int) =~= pre);
                    let seg = post.skip(pre.len() as int);
                    assert(seg.len() <= wpp + 2);
                    assert(seg[0] == post[pre.len() as int]);
                    assert(post[pre.len() as int] == after_words[pre.len() as int]);
                    assert forall|j: int|
                        0 <= j < (page@.len() as int / 4) && 1 + j
                            < seg.len() implies spec_is_request_frame(
                        #[trigger] seg[1 + j],
                        RequestType::ReqPageBufferWriteWord,
                        spec_word_from_bytes(
                            page@[4 * j],
                            page@[4 * j + 1],
                            page@[4 * j + 2],
                            page@[4 * j + 3],
                        ),
                    ) by {
                        assert(seg[1 + j] == post[pre.len() + 1 + j]);
                        assert(post[pre.len() + 1 + j] == after_words[pre.len() + 1 + j]);
                    }
                    if seg.len() == wpp + 2 {
                        assert(seg[wpp as int + 1] == post.last());
                    }
                    assert(spec_page_txn_partial(seg, k, page@));
                }
                return Err(e);
            },
        }
        let ghost after_crc = self.spec_sent();
        match self.exchange(RequestType::ReqPageBufferWriteToFlash, k, ResponseType::RespAck) {
            Ok(_) => {},
            Err(e) => {
                proof {
                    let post = self.spec_sent();
                    assert(post.take(pre.len() as int) =~= pre);
                    let seg = post.skip(pre.len() as int);
                    assert(seg.len() <= wpp + 3);
                    assert(seg[0] == post[pre.len() as int]);
                    assert(post[pre.len() as int] == after_words[pre.len() as int]);
                    assert forall|j: int|
                        0 <= j < (page@.len() as int / 4) && 1 + j
                            < seg.len() implies spec_is_request_frame(
                        #[trigger] seg[1 + j],
                        RequestType::ReqPageBufferWriteWord,
                        spec_word_from_bytes(
                            page@[4 * j],
                            page@[4 * j + 1],
                            page@[4 * j + 2],
                            page@[4 * j + 3],
                        ),
                    ) by {
                        assert(seg[1 + j] == post[pre.len() + 1 + j]);
                        assert(post[pre.len() + 1 + j] == after_words[pre.len() + 1 + j]);
                    }
                    assert(seg[wpp as int + 1] == post[after_crc.len() - 1]);
                    assert(post[after_crc.len() - 1] == after_crc.last());
                    if seg.len() == wpp + 3 {
                        assert(seg[wpp as int + 2] == post.last());
                    }
                    assert(spec_page_txn_partial(seg, k, page@));
                }
                return Err(e);
            },
        }
        proof {
            let post = self.spec_sent();
            assert(post.take(pre.len() as int) =~= pre);
            let txn = post.skip(pre.len() as int);
            assert(post.len() == pre.len() + wpp + 3);
            assert(spec_is_request_frame(
                txn[wpp as int + 2],
                RequestType::ReqPageBufferWriteToFlash,
                k,
            ));
            assert(spec_is_request_frame(
                txn[wpp as int + 1],
                RequestType::ReqPageBufferCalcCRC,
                crc,
            )) by {
                assert(post[after_crc.len() - 1] == after_crc.last());
            }
            assert(spec_is_request_frame(txn[0], RequestType::ReqPageBufferClear, 0)) by {
                assert(post[pre.len() as int] == after_words[pre.len() as int]);
            }
            assert forall|j: int| 0 <= j < wpp implies spec_is_request_frame(
                #[trigger] txn[1 + j],
                RequestType::ReqPageBufferWriteWord,
                spec_word_from_bytes(
                    page@[4 * j],
                    page@[4 * j + 1],
                    page@[4 * j + 2],
                    page@[4 * j + 3],
                ),
            ) by {
                assert(post[pre.len() + 1 + j] == after_words[pre.len() + 1 + j]);
            }
            assert(spec_page_txn(txn, k, page@, spec_crc32(page@)));
        }
        Ok(())
    }

    /// One full flash session after a successful init: erase the app
    /// area, program every page that carries image content (and the page
    /// holding the image end) through a page-buffer transaction with at
    /// most one retry on a device-side CRC mismatch, then write the app
    /// CRC and read both CRC attributes back. On success the send log
    /// shows the whole session: one erase frame per app page in ascending
    /// order, then the page transactions of `spec_write_phase` in
    /// ascending page order, then the app-CRC write and the two CRC
    /// read-backs — and both CRC attributes equal the host-computed CRC of
    /// the image padded with fill bytes to the whole app area. An image
    /// larger than the app area is rejected without touching the wire.
    pub fn flash(&mut self, image: &AppImage) -> (r: Result<(), ComError>)
        requires
            old(self).wf(),
            old(self).initialized(),
        ensures
            final(self).wf(),
            final(self).initialized(),
            final(self).spec_value(RequestType::ReqFlashInfoStartAddr) == old(self).spec_value(
                RequestType::ReqFlashInfoStartAddr,
            ),
            final(self).spec_value(RequestType::ReqFlashInfoPageSize) == old(self).spec_value(
                RequestType::ReqFlashInfoPageSize,
            ),
            final(self).spec_value(RequestType::ReqFlashInfoNumPages) == old(self).spec_value(
                RequestType::ReqFlashInfoNumPages,
            ),
            final(self).spec_value(RequestType::ReqAppInfoPageIdx) == old(self).spec_value(
                RequestType::ReqAppInfoPageIdx,
            ),
            forall|q: RequestType|
                q != RequestType::ReqAppInfoCRCCalc && q != RequestType::ReqAppInfoCRCStrd
                    ==> final(self).spec_value(q) == old(self).spec_value(q),
            image.spec_len() > (old(self).spec_num_pages() - old(self).spec_app_page_idx()) * old(
                self,
            ).spec_page_size() ==> (r matches Err(e) && e matches ComError::Error(t) && t@
                == "Image is larger than the app area"@ && final(self).spec_sent() == old(
                self,
            ).spec_sent()),
            r is Ok ==> ({
                let pre = old(self).spec_sent();
                let post = final(self).spec_sent();
                let p = old(self).spec_page_size();
                let n = old(self).spec_num_pages();
                let a = old(self).spec_app_page_idx();
                let area = ((n - a) * p) as nat;
                let crc = spec_crc32(image.spec_padded(area));
                let wstart = pre.len() + (n - a) as int;
                &&& post.len() >= wstart + 3
                &&& post.take(pre.len() as int) == pre
                &&& (forall|j: int|
                    0 <= j < n - a ==> spec_is_request_frame(
                        #[trigger] post[pre.len() + j],
                        RequestType::ReqFlashWriteErasePage,
                        (a + j) as u32,
                    ))
                &&& spec_write_phase(post.subrange(wstart, post.len() - 3), *image, a, p, a, n)
                &&& spec_is_request_frame(
                    post[post.len() - 3],
                    RequestType::ReqFlashWriteAppCRC,
                    crc,
                )
                &&& post[post.len() - 2] == Msg::spec_std_request(RequestType::ReqAppInfoCRCCalc)
                &&& post[post.len() - 1] == Msg::spec_std_request(RequestType::ReqAppInfoCRCStrd)
                &&& final(self).spec_value(RequestType::ReqAppInfoCRCCalc) == Some(crc)
                &&& final(self).spec_value(RequestType::ReqAppInfoCRCStrd) == Some(crc)
            }),
    {
        let ghost sent0 = self.spec_sent();
        let (_s, p, n, a) = self.geometry();
        proof {
            lemma_mul_inequality((n - a) as int, n as int, p as int);
        }
        let area_len_u64: u64 = ((n - a) as u64) * (p as u64);
        let area_len: usize = area_len_u64 as usize;
        if (image.len_bytes() as u64) > area_len_u64 {
            return Err(ComError::Error(String::from_str("Image is larger than the app area")));
        }
        match self.erase() {
            Ok(()) => {},
            Err(e) => {
                return Err(e);
            },
        }
        let ghost after_erase = self.spec_sent();
        let mut k = a;
        while k < n
            invariant
                self.wf(),
                self.initialized(),
                forall|q: RequestType| self.spec_value(q) == old(self).spec_value(q),
                p == old(self).spec_page_size(),
                n == old(self).spec_num_pages(),
                a == old(self).spec_app_page_idx(),
                a <= k <= n,
                ((n - a) as int) * (p as int) <= u32::MAX,
                image.spec_len() <= ((n - a) as int) * (p as int),
                sent0 == old(self).spec_sent(),
                after_erase.len() == sent0.len() + (n - a),
                after_erase.take(sent0.len() as int) == sent0,
                forall|j: int|
                    0 <= j < n - a ==> spec_is_request_frame(
                        #[trigger] after_erase[sent0.len() + j],
                        RequestType::ReqFlashWriteErasePage,
                        (a + j) as u32,
                    ),
                self.spec_sent().len() >= after_erase.len(),
                self.spec_sent().take(after_erase.len() as int) == after_erase,
                spec_write_phase(
                    self.spec_sent().skip(after_erase.len() as int),
                    *image,
                    a,
                    p,
                    a,
                    k,
                ),
            decreases n - k,
        {
            proof {
                lemma_mul_inequality((k - a + 1) as int, (n - a) as int, p as int);
                let ka = (k - a) as int;
                let ps = p as int;
                assert((ka + 1) * ps == ka * ps + ps) by (nonlinear_arith);
            }
            let base_u64: u64 = ((k - a) as u64) * (p as u64);
            let base: usize = base_u64 as usize;
            let page = image.page_bytes(base, p as usize);
            let len = image.len_bytes();
            let has_data = has_non_fill(&page);
            let is_end_page = len > 0 && base < len && len <= base + (p as usize);
            let needs = has_data || is_end_page;
            let ghost loop_start = self.spec_sent();
            proof {
                assert(page@ =~= spec_page_content(*image, a, p, k));
                assert(has_data == (exists|i: int|
                    0 <= i < p && #[trigger] image.spec_byte((k - a) * p + i)
                        != FLASH_FILL)) by {
                    if has_data {
                        let i = choose|i: int| 0 <= i < page@.len() && page@[i] != FLASH_FILL;
                        assert(image.spec_byte((k - a) * p + i) == page@[i]);
                    }
                    if exists|i: int|
                        0 <= i < p && #[trigger] image.spec_byte((k - a) * p + i) != FLASH_FILL {
                        let i = choose|i: int|
                            0 <= i < p && #[trigger] image.spec_byte((k - a) * p + i)
                                != FLASH_FILL;
                        assert(page@[i] != FLASH_FILL);
                    }
                }
                assert(needs == spec_page_needs_write(*image, a, p, k));
            }
            if needs {
                match self.flash_page(k, &page) {
                    Ok(()) => {
                        proof {
                            let seg = self.spec_sent().skip(loop_start.len() as int);
                            assert(spec_page_write_traffic(seg, k, page@));
                        }
                    },
                    Err(e) => {
                        let retry = match &e {
                            ComError::MsgError {
                                expected: RequestType::ReqPageBufferCalcCRC,
                                observed: RequestType::ReqPageBufferCalcCRC,
                                response: ResponseType::RespErrCRCInvld,
                            } => true,
                            _ => false,
                        };
                        if retry {
                            let ghost mid_page = self.spec_sent();
                            match self.flash_page(k, &page) {
                                Ok(()) => {
                                    proof {
                                        let m = mid_page.len() - loop_start.len();
                                        let seg = self.spec_sent().skip(loop_start.len() as int);
                                        assert forall|idx: int|
                                            0 <= idx < mid_page.len() implies self.spec_sent()[idx]
                                            == mid_page[idx] by {
                                            assert(self.spec_sent().take(
                                                mid_page.len() as int,
                                            )[idx] == mid_page[idx]);
                                        }
                                        assert(seg.take(m) =~= mid_page.skip(
                                            loop_start.len() as int,
                                        ));
                                        assert(seg.skip(m) =~= self.spec_sent().skip(
                                            mid_page.len() as int,
                                        ));
                                        assert(spec_page_txn_partial(seg.take(m), k, page@));
                                        assert(spec_page_txn(
                                            seg.skip(m),
                                            k,
                                            page@,
                                            spec_crc32(page@),
                                        ));
                                        assert(seg.len() == m + (page@.len() as int / 4 + 3));
                                        assert(spec_page_write_traffic(seg, k, page@));
                                    }
                                },
                                Err(e2) => {
                                    return Err(e2);
                                },
                            }
                        } else {
                            return Err(e);
                        }
                    },
                }
            }
            proof {
                let s1 = loop_start.skip(after_erase.len() as int);
                let seg2 = self.spec_sent().skip(loop_start.len() as int);
                if needs {
                    assert(spec_page_write_traffic(seg2, k, spec_page_content(*image, a, p, k)));
                } else {
                    assert(seg2 =~= Seq::<Msg>::empty());
                }
                lemma_write_phase_append(s1, seg2, *image, a, p, a, k, n);
                assert(self.spec_sent().skip(after_erase.len() as int) =~= s1 + seg2);
                assert(self.spec_sent().take(after_erase.len() as int) =~= after_erase);
            }
            k = k + 1;
        }
        let ghost after_writes = self.spec_sent();
        let area = image.padded_bytes(area_len);
        let crc = crc32(&area);
        proof {
            assert(area_len as int == ((n - a) * p) as int);
        }
        match self.exchange(RequestType::ReqFlashWriteAppCRC, crc, ResponseType::RespAck) {
            Ok(_) => {},
            Err(e) => {
                return Err(e);
            },
        }
        let ghost after_crcw = self.spec_sent();
        match self.entry_app_crc_calc.read_from_device(&mut self.interface) {
            Ok(true) => {},
            Ok(false) => {
                return Err(ComError::NoResponse);
            },
            Err(e) => {
                return Err(e);
            },
        }
        let calc = match self.entry_app_crc_calc.get_value() {
            Some(v) => v,
            None => vstd::pervasive::unreached(),
        };
        match verify_crc_value(crc, calc) {
            Ok(()) => {},
            Err(e) => {
                return Err(e);
            },
        }
        match self.entry_app_crc_stored.read_from_device(&mut self.interface) {
            Ok(true) => {},
            Ok(false) => {
                return Err(ComError::NoResponse);
            },
            Err(e) => {
                return Err(e);
            },
        }
        let stored = match self.entry_app_crc_stored.get_value() {
            Some(v) => v,
            None => vstd::pervasive::unreached(),
        };
        match verify_crc_value(crc, stored) {
            Ok(()) => {},
            Err(e) => {
                return Err(e);
            },
        }
        proof {
            let post = self.spec_sent();
            assert(post.len() == after_writes.len() + 3);
            assert(post[after_writes.len() as int] == after_crcw.last());
            assert forall|idx: int| 0 <= idx < after_writes.len() implies post[idx]
                == after_writes[idx] by {
                assert(after_crcw[idx] == after_writes[idx]);
                assert(post[idx] == after_crcw[idx]);
            }
            assert(post.take(sent0.len() as int) =~= sent0);
            assert forall|j: int| 0 <= j < n - a implies spec_is_request_frame(
                #[trigger] post[sent0.len() + j],
                RequestType::ReqFlashWriteErasePage,
                (a + j) as u32,
            ) by {
                assert(post[sent0.len() + j] == after_writes[sent0.len() + j]);
                assert(after_writes[sent0.len() + j] == after_erase[sent0.len() + j]);
            }
            assert(post.subrange(after_erase.len() as int, post.len() - 3) =~= after_writes.skip(
                after_erase.len() as int,
            ));
        }
        Ok(())
    }

    /// Send one command frame of kind `rt` with zero payload and wait for
    /// the echo. A receive timeout counts as success (the device may
    /// already be rebooting); an echo must acknowledge. On success the
    /// transport accepted exactly the one command frame.
    fn send_command(&mut self, rt: RequestType) -> (r: Result<(), ComError>)
        ensures
            final(self).wf() == old(self).wf(),
            forall|k: RequestType| final(self).spec_value(k) == old(self).spec_value(k),
            r is Ok ==> final(self).spec_sent() == old(self).spec_sent().push(
                final(self).spec_sent().last(),
            ) && spec_is_request_frame(final(self).spec_sent().last(), rt, 0),
            r is Err ==> spec_sent_at_most_one(
                old(self).spec_sent(),
                final(self).spec_sent(),
                rt,
                0,
            ),
    {
        let pid: u8 = if self.packet_id == 255 {
            0
        } else {
            self.packet_id + 1
        };
        self.packet_id = pid;
        let data = MsgData::from_word(0);
        let request = Msg::new(rt, ResponseType::RespNone, pid, &data);
        match self.interface.send(&request) {
            Ok(_) => {},
            Err(e) => {
                return Err(e);
            },
        }
        match self.interface.recv() {
            Err(e) => Err(e),
            Ok(None) => Ok(()),
            Ok(Some(m)) => {
                if m.get_request() == rt && m.get_response() == ResponseType::RespAck {
                    Ok(())
                } else {
                    Err(
                        ComError::MsgError {
                            expected: rt,
                            observed: m.get_request(),
                            response: m.get_response(),
                        },
                    )
                }
            },
        }
    }

    /// Ask the device to start its application. A device that is already
    /// rebooting may not answer, so a receive timeout counts as success.
    /// On success the transport accepted exactly the one command frame.
    pub fn start_app(&mut self) -> (r: Result<(), ComError>)
        ensures
            final(self).wf() == old(self).wf(),
            forall|k: RequestType| final(self).spec_value(k) == old(self).spec_value(k),
            r is Ok ==> final(self).spec_sent() == old(self).spec_sent().push(
                final(self).spec_sent().last(),
            ) && spec_is_request_frame(
                final(self).spec_sent().last(),
                RequestType::ReqStartApp,
                0,
            ),
            r is Err ==> spec_sent_at_most_one(
                old(self).spec_sent(),
                final(self).spec_sent(),
                RequestType::ReqStartApp,
                0,
            ),
    {
        self.send_command(RequestType::ReqStartApp)
    }

    /// Ask the device to reset. A resetting device may not answer, so a
    /// receive timeout counts as success. On success the transport
    /// accepted exactly the one command frame.
    pub fn reset_device(&mut self) -> (r: Result<(), ComError>)
        ensures
            final(self).wf() == old(self).wf(),
            forall|k: RequestType| final(self).spec_value(k) == old(self).spec_value(k),
            r is Ok ==> final(self).spec_sent() == old(self).spec_sent().push(
                final(self).spec_sent().last(),
            ) && spec_is_request_frame(
                final(self).spec_sent().last(),
                RequestType::ReqResetDevice,
                0,
            ),
            r is Err ==> spec_sent_at_most_one(
                old(self).spec_sent(),
                final(self).spec_sent(),
                RequestType::ReqResetDevice,
                0,
            ),
    {
        self.send_command(RequestType::ReqResetDevice)
    }
}

} // verus!
