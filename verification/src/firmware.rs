//! Firmware: version query, bounded liveness probe, EEPROM check, and the
//! scatter-write loader.
//!
//! A firmware image is a sequence of scatter blocks
//! `[0x03, _, _, M, (_, _, fragLen) x M, payload..]` whose payload length is
//! the sum of the fragment lengths.  A block with an empty payload is
//! padding and is skipped without bus traffic.

use vstd::prelude::*;
use crate::bus::BusOps;
use crate::errors::CtrlMsgError;
use crate::frame::{
    check_response_spec, exchange_payload, frame_spec, IT930X_CMD_BOOT,
    IT930X_CMD_FW_SCATTER_WRITE, IT930X_CMD_QUERYINFO, IT930X_CMD_REG_READ,
    IT930X_CMD_REG_WRITE,
};
use crate::it930x::{
    frames_in_position, history_extends, seq_add, seq_succ, session_preserved, single_exchange,
    IT930x,
};
use crate::regs::{reg_header, reg_write_payload};

verus! {

/// Four payload bytes read back as one big-endian 32-bit word.
pub open spec fn be32_spec(p: Seq<u8>) -> u32 {
    (p[0] * 0x1000000 + p[1] * 0x10000 + p[2] * 0x100 + p[3]) as u32
}

/// `r` is what a firmware-version exchange yields for received bytes
/// `resp`: validation's error, or the 4-byte payload as a word.
pub open spec fn version_outcome(
    r: Result<u32, CtrlMsgError>,
    resp: Seq<u8>,
    seqno: u8,
) -> bool {
    match check_response_spec(resp, seqno, 4) {
        Ok(p) => r is Ok && r->Ok_0 == be32_spec(p),
        Err(e) => r == Err::<u32, CtrlMsgError>(e),
    }
}

/// `r` is what the EEPROM probe yields for received bytes `resp`: a read
/// EEPROM byte of zero is `EepromError`, any nonzero byte is success.
pub open spec fn eeprom_outcome(
    r: Result<(), CtrlMsgError>,
    resp: Seq<u8>,
    seqno: u8,
) -> bool {
    match check_response_spec(resp, seqno, 1) {
        Ok(p) => if p[0] == 0 {
            r == Err::<(), CtrlMsgError>(CtrlMsgError::EepromError)
        } else {
            r is Ok
        },
        Err(e) => r == Err::<(), CtrlMsgError>(e),
    }
}

/// Response validation only ever produces framing, sequencing or device
/// errors, never the loader's own error kinds.
pub proof fn lemma_check_response_errors(resp: Seq<u8>, seqno: u8, want: nat)
    ensures
        check_response_spec(resp, seqno, want) != Err::<Seq<u8>, CtrlMsgError>(
            CtrlMsgError::FormatError,
        ),
        check_response_spec(resp, seqno, want) != Err::<Seq<u8>, CtrlMsgError>(
            CtrlMsgError::BootFailed,
        ),
{
}

/// Sum of the `m` fragment lengths of the block at `i`; fragment `j`'s
/// length byte sits at `i + 6 + 3*j`.
pub open spec fn fw_frag_total(img: Seq<u8>, i: int, m: int) -> nat
    decreases m,
{
    if m <= 0 {
        0
    } else {
        (img[i + 6 + 3 * (m - 1)] as nat) + fw_frag_total(img, i, m - 1)
    }
}

/// The block header at `i` is intact: marker byte 0x03 and a complete
/// descriptor table.
pub open spec fn fw_block_hdr_ok(img: Seq<u8>, i: int) -> bool {
    &&& i + 4 <= img.len()
    &&& img[i] == 0x03
    &&& i + 4 + 3 * (img[i + 3] as int) <= img.len()
}

/// Payload length of the block at `i`.
pub open spec fn fw_block_payload_len(img: Seq<u8>, i: int) -> nat {
    fw_frag_total(img, i, img[i + 3] as int)
}

/// Total length of the block at `i`: header, descriptor table, payload.
pub open spec fn fw_block_total(img: Seq<u8>, i: int) -> nat {
    4 + 3 * (img[i + 3] as nat) + fw_block_payload_len(img, i)
}

/// The block at `i` is well formed and lies within the image.
pub open spec fn fw_block_wf(img: Seq<u8>, i: int) -> bool {
    &&& fw_block_hdr_ok(img, i)
    &&& (fw_block_payload_len(img, i) == 0 || i + fw_block_total(img, i) <= img.len())
}

/// The image scans as a sequence of well-formed blocks from `i` on.
pub open spec fn fw_image_ok(img: Seq<u8>, i: int) -> bool
    decreases img.len() - i,
    when 0 <= i <= img.len()
{
    if i >= img.len() {
        true
    } else if !fw_block_wf(img, i) {
        false
    } else {
        fw_image_ok(img, i + fw_block_total(img, i) as int)
    }
}

/// The scatter-write frames the loader owes for the image from offset `i`
/// on, starting at sequence number `seqno`: every well-formed non-padding
/// block goes out whole, in image order, one frame per block; a padding
/// block contributes nothing; the scan stops at the image's end or at the
/// first malformed block.
pub open spec fn fw_scatter_frames(img: Seq<u8>, i: int, seqno: u8) -> Seq<Seq<u8>>
    decreases img.len() - i,
    when 0 <= i <= img.len()
{
    if i >= img.len() {
        Seq::empty()
    } else if !fw_block_wf(img, i) {
        Seq::empty()
    } else {
        let total = fw_block_total(img, i) as int;
        if fw_block_payload_len(img, i) == 0 {
            fw_scatter_frames(img, i + total, seqno)
        } else {
            seq![frame_spec(IT930X_CMD_FW_SCATTER_WRITE, seqno, img.subrange(i, i + total))]
                + fw_scatter_frames(img, i + total, seq_succ(seqno))
        }
    }
}

/// Every frame of a cold firmware load, in order: the version query, the
/// I2C-speed write, the scatter writes of the image's blocks, the boot
/// command, and the version re-query.
pub open spec fn fw_cold_frames(img: Seq<u8>, speed: u8, s0: u8) -> Seq<Seq<u8>> {
    let scat = fw_scatter_frames(img, 0, seq_add(s0, 2));
    seq![
        frame_spec(IT930X_CMD_QUERYINFO, s0, seq![1u8]),
        frame_spec(IT930X_CMD_REG_WRITE, seq_succ(s0), reg_write_payload(0xf103, seq![speed])),
    ] + scat + seq![
        frame_spec(IT930X_CMD_BOOT, seq_add(s0, 2 + scat.len() as int), Seq::empty()),
        frame_spec(IT930X_CMD_QUERYINFO, seq_add(s0, 3 + scat.len() as int), seq![1u8]),
    ]
}

/// Parse the scatter block starting at offset `i`: its total length and
/// its payload length.  Succeeds exactly on a well-formed block; every
/// offset derived from in-band lengths is bounded against the image before
/// it is read.
pub fn parse_fw_block(image: &[u8], i: usize) -> (r: Result<(usize, usize), CtrlMsgError>)
    requires
        i < image@.len(),
    ensures
        r is Ok <==> fw_block_wf(image@, i as int),
        r is Ok ==> ({
            &&& r->Ok_0.0 == fw_block_total(image@, i as int)
            &&& r->Ok_0.1 == fw_block_payload_len(image@, i as int)
            &&& r->Ok_0.0 >= 4
            &&& i + r->Ok_0.0 <= image@.len() || r->Ok_0.1 > 0
            &&& r->Ok_0.1 == 0 ==> i + r->Ok_0.0 <= image@.len()
            &&& r->Ok_0.1 > 0 ==> i + r->Ok_0.0 <= image@.len()
        }),
        r is Err ==> r == Err::<(usize, usize), CtrlMsgError>(CtrlMsgError::FormatError),
{
    let n = image.len();
    if n - i < 4 {
        return Err(CtrlMsgError::FormatError);
    }
    if image[i] != 0x03 {
        return Err(CtrlMsgError::FormatError);
    }
    let m = image[i + 3] as usize;
    if 3 * m > n - i - 4 {
        return Err(CtrlMsgError::FormatError);
    }
    let mut sum: usize = 0;
    let mut j: usize = 0;
    while j < m
        invariant
            j <= m,
            m == image@[i as int + 3],
            i + 4 + 3 * m <= n,
            n == image@.len(),
            i < n,
            sum == fw_frag_total(image@, i as int, j as int),
            sum <= 255 * j,
        decreases m - j,
    {
        sum = sum + image[i + 6 + 3 * j] as usize;
        j = j + 1;
    }
    let total = 4 + 3 * m + sum;
    if sum > 0 && total > n - i {
        return Err(CtrlMsgError::FormatError);
    }
    Ok((total, sum))
}

impl<B: BusOps> IT930x<B> {
    /// Query the firmware version: one `QUERYINFO` exchange with
    /// subcommand 1, whose 4-byte payload is the version, big-endian.
    pub fn read_firmware_version(&mut self) -> (r: Result<u32, CtrlMsgError>)
        requires
            old(self).wf(),
        ensures
            final(self).wf(),
            session_preserved(*old(self), *final(self)),
            final(self).seqno == seq_succ(old(self).seqno),
            ({
                let frame = frame_spec(IT930X_CMD_QUERYINFO, old(self).seqno, seq![1u8]);
                ||| {
                    &&& r matches Err(CtrlMsgError::Bus(_))
                    &&& (final(self).bus.sent() == old(self).bus.sent() || final(self).bus.sent()
                        == old(self).bus.sent().push(frame))
                    &&& final(self).bus.received() == old(self).bus.received()
                }
                ||| {
                    &&& single_exchange(
                        old(self).bus.sent(),
                        final(self).bus.sent(),
                        old(self).bus.received(),
                        final(self).bus.received(),
                        frame,
                    )
                    &&& version_outcome(r, final(self).bus.received().last(), old(self).seqno)
                }
            }),
            history_extends(old(self).bus.sent(), final(self).bus.sent()),
            history_extends(old(self).bus.received(), final(self).bus.received()),
    {
        let wbuf = [1u8];
        assert(wbuf@ =~= seq![1u8]);
        let cr = self.ctrl_msg(IT930X_CMD_QUERYINFO, &wbuf, 4);
        let ghost sq = old(self).seqno;
        match cr {
            Ok(v) => {
                let fw = (v[0] as u32) * 0x1000000 + (v[1] as u32) * 0x10000 + (v[2] as u32)
                    * 0x100 + (v[3] as u32);
                proof {
                    assert(version_outcome(Ok(fw), self.bus.received().last(), sq));
                }
                Ok(fw)
            },
            Err(e) => {
                proof {
                    if !(cr matches Err(CtrlMsgError::Bus(_))) {
                        assert(version_outcome(
                            Err::<u32, CtrlMsgError>(e),
                            self.bus.received().last(),
                            sq,
                        ));
                    }
                }
                Err(e)
            },
        }
    }

    /// Bounded liveness probe: repeat the version query up to five times
    /// and succeed at the first answer that validates.  At most five
    /// exchanges go out, the counter steps once per attempt, success is
    /// owed exactly to a received transfer that validated, and giving up
    /// takes all five attempts.
    pub fn raise(&mut self) -> (r: Result<(), CtrlMsgError>)
        requires
            old(self).wf(),
        ensures
            final(self).wf(),
            session_preserved(*old(self), *final(self)),
            exists|k: int|
                1 <= k <= 5 && final(self).seqno == #[trigger] seq_add(old(self).seqno, k)
                    && final(self).bus.sent().len() <= old(self).bus.sent().len() + k && (r is Ok
                    ==> final(self).bus.sent().len() > old(self).bus.sent().len()
                    && final(self).bus.sent().last() == frame_spec(
                    IT930X_CMD_QUERYINFO,
                    seq_add(old(self).seqno, k - 1),
                    seq![1u8],
                ) && final(self).bus.received().len() > old(self).bus.received().len()
                    && check_response_spec(
                    final(self).bus.received().last(),
                    seq_add(old(self).seqno, k - 1),
                    4,
                ) is Ok) && (r is Err ==> k == 5),
            // giving up reports the fifth attempt's own failure: a transport
            // error, or the validation error of the transfer it received
            r is Err ==> r matches Err(CtrlMsgError::Bus(_)) || (final(self).bus.received().len()
                > old(self).bus.received().len() && (check_response_spec(
                final(self).bus.received().last(),
                seq_add(old(self).seqno, 4),
                4,
            ) matches Err(e2) && r == Err::<(), CtrlMsgError>(e2))),
            history_extends(old(self).bus.sent(), final(self).bus.sent()),
            history_extends(old(self).bus.received(), final(self).bus.received()),
    {
        let ghost pre_seq = old(self).seqno;
        let ghost pre_len = old(self).bus.sent().len();
        let ghost pre_rx = old(self).bus.received();
        let mut t: usize = 0;
        let mut last_err = CtrlMsgError::Bus(crate::errors::BusError::Timeout);
        while t < 5
            invariant
                self.wf(),
                session_preserved(*old(self), *self),
                t <= 5,
                self.seqno == seq_add(pre_seq, t as int),
                pre_len <= self.bus.sent().len() <= pre_len + t,
                history_extends(old(self).bus.sent(), self.bus.sent()),
                history_extends(old(self).bus.received(), self.bus.received()),
                pre_seq == old(self).seqno,
                pre_len == old(self).bus.sent().len(),
                pre_rx == old(self).bus.received(),
                t > 0 ==> (last_err matches CtrlMsgError::Bus(_) || (self.bus.received().len()
                    > pre_rx.len() && (check_response_spec(
                    self.bus.received().last(),
                    seq_add(pre_seq, t as int - 1),
                    4,
                ) matches Err(e2) && last_err == e2))),
            decreases 5 - t,
        {
            proof {
                crate::i2c::lemma_seq_add_succ(pre_seq, t as int);
            }
            match self.read_firmware_version() {
                Ok(_) => {
                    proof {
                        let k = t + 1;
                        assert(self.seqno == seq_add(pre_seq, k as int));
                    }
                    return Ok(());
                },
                Err(e) => {
                    last_err = e;
                },
            }
            t = t + 1;
        }
        assert(self.seqno == seq_add(pre_seq, 5));
        Err(last_err)
    }

    /// Probe the EEPROM: read the byte at register 0x4979; zero means a
    /// missing or invalid EEPROM.
    pub fn check_epprom(&mut self) -> (r: Result<(), CtrlMsgError>)
        requires
            old(self).wf(),
        ensures
            final(self).wf(),
            session_preserved(*old(self), *final(self)),
            final(self).seqno == seq_succ(old(self).seqno),
            ({
                let frame = frame_spec(IT930X_CMD_REG_READ, old(self).seqno, reg_header(0x4979, 1));
                ||| {
                    &&& r matches Err(CtrlMsgError::Bus(_))
                    &&& (final(self).bus.sent() == old(self).bus.sent() || final(self).bus.sent()
                        == old(self).bus.sent().push(frame))
                    &&& final(self).bus.received() == old(self).bus.received()
                }
                ||| {
                    &&& single_exchange(
                        old(self).bus.sent(),
                        final(self).bus.sent(),
                        old(self).bus.received(),
                        final(self).bus.received(),
                        frame,
                    )
                    &&& eeprom_outcome(r, final(self).bus.received().last(), old(self).seqno)
                }
            }),
            history_extends(old(self).bus.sent(), final(self).bus.sent()),
            history_extends(old(self).bus.received(), final(self).bus.received()),
    {
        let ghost sq = old(self).seqno;
        let cr = self.read_regs(0x4979, 1);
        match cr {
            Ok(v) => {
                let r: Result<(), CtrlMsgError> = if v[0] == 0 {
                    Err(CtrlMsgError::EepromError)
                } else {
                    Ok(())
                };
                proof {
                    assert(eeprom_outcome(r, self.bus.received().last(), sq));
                }
                r
            },
            Err(e) => {
                proof {
                    if !(cr matches Err(CtrlMsgError::Bus(_))) {
                        assert(eeprom_outcome(
                            Err::<(), CtrlMsgError>(e),
                            self.bus.received().last(),
                            sq,
                        ));
                    }
                }
                Err(e)
            },
        }
    }

    /// Load a firmware image.
    ///
    /// If the version query already reports a nonzero version the image is
    /// loaded and nothing more happens.  Otherwise the I2C speed register
    /// is programmed and the image is scanned block by block: a malformed
    /// block aborts with `FormatError`, a padding block is skipped, any
    /// other block goes out whole as one scatter-write exchange.  After
    /// the scan a `BOOT` command is issued and the version re-queried;
    /// zero is a fatal `BootFailed`.
    #[verifier::rlimit(100)]
    pub fn load_firmware(&mut self, image: &[u8]) -> (r: Result<(), CtrlMsgError>)
        requires
            old(self).wf(),
        ensures
            final(self).wf(),
            session_preserved(*old(self), *final(self)),
            fw_image_ok(image@, 0) ==> r != Err::<(), CtrlMsgError>(CtrlMsgError::FormatError),
            history_extends(old(self).bus.sent(), final(self).bus.sent()),
            history_extends(old(self).bus.received(), final(self).bus.received()),
            // every frame this call ever sends is the scheduled one at its
            // position: a failure at any step sends nothing further
            frames_in_position(
                old(self).bus.sent(),
                final(self).bus.sent(),
                fw_cold_frames(image@, old(self).config.i2c_speed, old(self).seqno),
            ),
            // success is owed when the device already reports a version:
            // a first received transfer that validates nonzero ends the
            // call at Ok with the one query frame and nothing further
            ({
                let s0 = old(self).seqno;
                let rx0 = final(self).bus.received()[old(self).bus.received().len() as int];
                final(self).bus.received().len() > old(self).bus.received().len()
                    && check_response_spec(rx0, s0, 4) is Ok && be32_spec(
                    exchange_payload(rx0, s0, 4),
                ) != 0 ==> r is Ok && final(self).bus.sent() == old(self).bus.sent().push(
                    frame_spec(IT930X_CMD_QUERYINFO, s0, seq![1u8]),
                ) && final(self).bus.received() == old(self).bus.received().push(rx0)
                    && final(self).seqno == seq_succ(s0)
            }),
            r is Ok ==> ({
                let s0 = old(self).seqno;
                let q = frame_spec(IT930X_CMD_QUERYINFO, s0, seq![1u8]);
                let rx0 = final(self).bus.received()[old(self).bus.received().len() as int];
                let cold = fw_cold_frames(image@, old(self).config.i2c_speed, s0);
                &&& final(self).bus.received().len() > old(self).bus.received().len()
                &&& check_response_spec(rx0, s0, 4) is Ok
                &&& if be32_spec(exchange_payload(rx0, s0, 4)) != 0 {
                    // already loaded: the one version query is all the traffic
                    &&& final(self).bus.sent() == old(self).bus.sent().push(q)
                    &&& final(self).bus.received() == old(self).bus.received().push(rx0)
                    &&& final(self).seqno == seq_succ(s0)
                } else {
                    // cold load: the full upload ran and the re-queried
                    // version came back nonzero
                    &&& fw_image_ok(image@, 0)
                    &&& final(self).bus.sent() == old(self).bus.sent() + cold
                    &&& check_response_spec(
                        final(self).bus.received().last(),
                        seq_add(s0, cold.len() - 1),
                        4,
                    ) is Ok
                    &&& be32_spec(
                        exchange_payload(
                            final(self).bus.received().last(),
                            seq_add(s0, cold.len() - 1),
                            4,
                        ),
                    ) != 0
                }
            }),
            r == Err::<(), CtrlMsgError>(CtrlMsgError::FormatError) ==> ({
                let s0 = old(self).seqno;
                // the scan aborted at the first malformed block: nothing was
                // sent for it or for any later block
                &&& !fw_image_ok(image@, 0)
                &&& final(self).bus.sent() == old(self).bus.sent() + seq![
                    frame_spec(IT930X_CMD_QUERYINFO, s0, seq![1u8]),
                    frame_spec(
                        IT930X_CMD_REG_WRITE,
                        seq_succ(s0),
                        reg_write_payload(0xf103, seq![old(self).config.i2c_speed]),
                    ),
                ] + fw_scatter_frames(image@, 0, seq_add(s0, 2))
            }),
            r == Err::<(), CtrlMsgError>(CtrlMsgError::BootFailed) ==> ({
                let s0 = old(self).seqno;
                let cold = fw_cold_frames(image@, old(self).config.i2c_speed, s0);
                // the whole upload ran, but the re-queried version was zero
                &&& final(self).bus.sent() == old(self).bus.sent() + cold
                &&& check_response_spec(
                    final(self).bus.received().last(),
                    seq_add(s0, cold.len() - 1),
                    4,
                ) is Ok
                &&& be32_spec(
                    exchange_payload(
                        final(self).bus.received().last(),
                        seq_add(s0, cold.len() - 1),
                        4,
                    ),
                ) == 0
            }),
    {
        let ghost pre_sent = old(self).bus.sent();
        let ghost pre_rx = old(self).bus.received();
        let ghost s0 = old(self).seqno;
        let ghost qf = frame_spec(IT930X_CMD_QUERYINFO, s0, seq![1u8]);
        let speed = self.config.i2c_speed;
        let vr = self.read_firmware_version();
        let v = match vr {
            Ok(v) => v,
            Err(e) => {
                proof {
                    if !(e is Bus) {
                        lemma_check_response_errors(self.bus.received().last(), s0, 4);
                    }
                }
                return Err(e);
            },
        };
        let ghost last0 = self.bus.received().last();
        proof {
            assert(check_response_spec(last0, s0, 4) is Ok);
            assert(v == be32_spec(exchange_payload(last0, s0, 4)));
            assert(self.bus.received() == pre_rx.push(last0));
        }
        if v != 0 {
            return Ok(());
        }
        let one_speed = [speed];
        assert(one_speed@ =~= seq![speed]);
        let wr = self.write_regs(0xf103, &one_speed);
        match wr {
            Ok(_) => {},
            Err(e) => {
                proof {
                    if !(e is Bus) {
                        lemma_check_response_errors(self.bus.received().last(), seq_succ(s0), 0);
                    }
                }
                return Err(e);
            },
        }
        let ghost speedf = frame_spec(
            IT930X_CMD_REG_WRITE,
            seq_succ(s0),
            reg_write_payload(0xf103, seq![speed]),
        );
        proof {
            vstd::arithmetic::div_mod::lemma_small_mod(s0 as nat, 256);
            crate::it930x::lemma_seq_progression(s0, 0);
            crate::it930x::lemma_seq_progression(s0, 1);
            assert(self.seqno == seq_add(s0, 2));
        }
        let ghost pre2_sent = self.bus.sent();
        let ghost s2 = self.seqno;
        let ghost mut emitted: Seq<Seq<u8>> = Seq::empty();
        let n = image.len();
        let mut i: usize = 0;
        proof {
            assert(self.bus.sent() =~= pre2_sent + emitted);
            assert(emitted + fw_scatter_frames(image@, 0, s2) =~= fw_scatter_frames(
                image@,
                0,
                s2,
            ));
        }
        while i < n
            invariant
                self.wf(),
                session_preserved(*old(self), *self),
                i <= n,
                n == image@.len(),
                fw_image_ok(image@, 0) == fw_image_ok(image@, i as int),
                self.bus.sent() == pre2_sent + emitted,
                emitted + fw_scatter_frames(image@, i as int, self.seqno) == fw_scatter_frames(
                    image@,
                    0,
                    s2,
                ),
                self.seqno == seq_add(s2, emitted.len() as int),
                history_extends(pre_rx, self.bus.received()),
                self.bus.received().len() > pre_rx.len(),
                self.bus.received()[pre_rx.len() as int] == last0,
                check_response_spec(last0, s0, 4) is Ok,
                be32_spec(exchange_payload(last0, s0, 4)) == 0,
                pre2_sent == pre_sent.push(qf).push(speedf),
                s2 == seq_add(s0, 2),
                pre_sent == old(self).bus.sent(),
                pre_rx == old(self).bus.received(),
                s0 == old(self).seqno,
                speed == old(self).config.i2c_speed,
                qf == frame_spec(IT930X_CMD_QUERYINFO, s0, seq![1u8]),
                speedf == frame_spec(
                    IT930X_CMD_REG_WRITE,
                    seq_succ(s0),
                    reg_write_payload(0xf103, seq![speed]),
                ),
            decreases n - i,
        {
            let (total, plen) = match parse_fw_block(image, i) {
                Ok(t) => t,
                Err(e) => {
                    proof {
                        assert(!fw_image_ok(image@, i as int));
                        assert(fw_scatter_frames(image@, i as int, self.seqno) =~= Seq::<
                            Seq<u8>,
                        >::empty());
                        assert(emitted =~= fw_scatter_frames(image@, 0, s2));
                        assert(pre_sent.push(qf).push(speedf) =~= pre_sent + seq![qf, speedf]);
                        assert(self.bus.sent() =~= pre_sent + seq![qf, speedf]
                            + fw_scatter_frames(image@, 0, s2));
                    }
                    return Err(e);
                },
            };
            if plen > 0 {
                let wb = vstd::slice::slice_subrange(image, i, i + total);
                let ghost sq3 = self.seqno;
                let sr = self.ctrl_msg(IT930X_CMD_FW_SCATTER_WRITE, wb, 0);
                match sr {
                    Ok(_) => {
                        proof {
                            let fr = frame_spec(
                                IT930X_CMD_FW_SCATTER_WRITE,
                                sq3,
                                image@.subrange(i as int, i + total),
                            );
                            assert(fw_scatter_frames(image@, i as int, sq3) == seq![fr]
                                + fw_scatter_frames(image@, i + total, seq_succ(sq3)));
                            assert(self.bus.sent() =~= pre2_sent + emitted.push(fr));
                            let old_emitted = emitted;
                            emitted = emitted.push(fr);
                            assert(old_emitted + (seq![fr] + fw_scatter_frames(
                                image@,
                                i + total,
                                self.seqno,
                            )) =~= emitted + fw_scatter_frames(image@, i + total, self.seqno));
                            crate::it930x::lemma_seq_progression(s2, old_emitted.len() as int);
                        }
                    },
                    Err(e) => {
                        proof {
                            if wb@.len() <= crate::frame::MAX_CTRL_PAYLOAD && !(e is Bus) {
                                lemma_check_response_errors(self.bus.received().last(), sq3, 0);
                            }
                        }
                        return Err(e);
                    },
                }
            } else {
                proof {
                    assert(fw_scatter_frames(image@, i as int, self.seqno) == fw_scatter_frames(
                        image@,
                        i + total,
                        self.seqno,
                    ));
                }
            }
            i = i + total;
        }
        proof {
            assert(fw_scatter_frames(image@, i as int, self.seqno) =~= Seq::<Seq<u8>>::empty());
            assert(emitted =~= fw_scatter_frames(image@, 0, s2));
            assert(fw_image_ok(image@, 0));
        }
        let ghost k_count = emitted.len() as int;
        let none: [u8; 0] = [];
        let ghost sq4 = self.seqno;
        proof {
            crate::i2c::lemma_seq_add_add(s0, 2, k_count);
            assert(sq4 == seq_add(s0, 2 + k_count));
            assert(none@ =~= Seq::<u8>::empty());
        }
        let br = self.ctrl_msg(IT930X_CMD_BOOT, &none, 0);
        match br {
            Ok(_) => {},
            Err(e) => {
                proof {
                    if !(e is Bus) {
                        lemma_check_response_errors(self.bus.received().last(), sq4, 0);
                    }
                }
                return Err(e);
            },
        }
        let ghost sq5 = self.seqno;
        proof {
            crate::it930x::lemma_seq_progression(s0, 2 + k_count);
            assert(sq5 == seq_add(s0, 3 + k_count));
        }
        let vr2 = self.read_firmware_version();
        let v2 = match vr2 {
            Ok(v) => v,
            Err(e) => {
                proof {
                    if !(e is Bus) {
                        lemma_check_response_errors(self.bus.received().last(), sq5, 4);
                    }
                }
                return Err(e);
            },
        };
        proof {
            let cold = fw_cold_frames(image@, speed, s0);
            assert(cold.len() == 4 + k_count);
            assert(self.bus.sent() =~= pre_sent + cold);
            assert(check_response_spec(self.bus.received().last(), sq5, 4) is Ok);
            assert(v2 == be32_spec(exchange_payload(self.bus.received().last(), sq5, 4)));
            assert(sq5 == seq_add(s0, cold.len() - 1));
        }
        if v2 == 0 {
            return Err(CtrlMsgError::BootFailed);
        }
        Ok(())
    }
}


} // verus!
