//! The command/response protocol of a keyboard session.
//!
//! An operation (`init`, `write`, `reboot`, `flash`) loads the exchanges it
//! consists of. The caller owns the HID handle and drives them: it asks
//! `next_action` what to do, sends the report or reads one, and hands each
//! report read to `receive`. The first failure ends the operation.
use vstd::prelude::*;

use crate::constants::{
    CMD_INIT, CMD_PREPARE, CMD_REBOOT, EXPECTED_STATUS, REPORT_BUF_LEN, REPORT_LEN,
};
use crate::devices::{display_name, Bootloader, DeviceInfo, Mode};
use crate::error::ErrorKind;
use crate::firmware::Firmware;
use crate::flash::FlashingOptions;

verus! {

/// The bytes of `x`, least significant first.
pub open spec fn le_bytes(x: u32) -> Seq<u8> {
    seq![
        (x % 0x100) as u8,
        ((x / 0x100) % 0x100) as u8,
        ((x / 0x10000) % 0x100) as u8,
        (x / 0x1000000) as u8,
    ]
}

pub fn to_le_bytes(x: u32) -> (r: Vec<u8>)
    ensures
        r@ == le_bytes(x),
{
    let mut v: Vec<u8> = Vec::new();
    v.push((x % 0x100) as u8);
    v.push(((x / 0x100) % 0x100) as u8);
    v.push(((x / 0x10000) % 0x100) as u8);
    v.push((x / 0x1000000) as u8);
    assert(v@ =~= le_bytes(x));
    v
}

/// The 65-byte buffer of a feature report: report id 0, the payload, then
/// zeros.
pub open spec fn frame(payload: Seq<u8>) -> Seq<u8> {
    seq![0u8] + payload + Seq::new((REPORT_LEN - payload.len()) as nat, |i: int| 0u8)
}

/// `payload` begins with `expected`.
pub open spec fn echoes(payload: Seq<u8>, expected: Seq<u8>) -> bool {
    expected.len() <= payload.len() && payload.subrange(0, expected.len() as int) == expected
}

/// The buffer to send for a feature report holding `report`;
/// `InvalidReportLength` when it does not fit in one report.
pub fn feature_buffer(report: &[u8]) -> (r: Result<Vec<u8>, ErrorKind>)
    ensures
        report@.len() <= REPORT_LEN ==> (r matches Ok(b) && b@ == frame(report@)),
        report@.len() > REPORT_LEN ==> (r matches Err(ErrorKind::InvalidReportLength(n)) && n
            == report@.len()),
{
    if report.len() > REPORT_LEN {
        return Err(ErrorKind::InvalidReportLength(report.len()));
    }
    let mut buf: Vec<u8> = Vec::new();
    buf.push(0);
    let mut i: usize = 0;
    while i < report.len()
        invariant
            i <= report@.len() <= REPORT_LEN,
            buf@ == seq![0u8] + report@.subrange(0, i as int),
        decreases report@.len() - i,
    {
        buf.push(report[i]);
        i = i + 1;
        assert(buf@ =~= seq![0u8] + report@.subrange(0, i as int));
    }
    while i < REPORT_LEN
        invariant
            report@.len() <= i <= REPORT_LEN,
            buf@ == seq![0u8] + report@ + Seq::new((i - report@.len()) as nat, |j: int| 0u8),
        decreases REPORT_LEN - i,
    {
        buf.push(0);
        i = i + 1;
        assert(buf@ =~= seq![0u8] + report@ + Seq::new((i - report@.len()) as nat, |j: int| 0u8));
    }
    assert(report@.subrange(0, report@.len() as int) =~= report@);
    Ok(buf)
}

/// The payload of a 65-byte feature-report buffer: all but the report id.
pub fn feature_payload(buf: &[u8]) -> (r: Vec<u8>)
    requires
        buf@.len() == REPORT_BUF_LEN,
    ensures
        r@ == buf@.subrange(1, REPORT_BUF_LEN as int),
{
    copy_range(buf, 1, REPORT_BUF_LEN)
}

fn copy_range(b: &[u8], start: usize, end: usize) -> (r: Vec<u8>)
    requires
        start <= end <= b@.len(),
    ensures
        r@ == b@.subrange(start as int, end as int),
{
    let mut v: Vec<u8> = Vec::new();
    let mut i: usize = start;
    while i < end
        invariant
            start <= i <= end <= b@.len(),
            v@ == b@.subrange(start as int, i as int),
        decreases end - i,
    {
        v.push(b[i]);
        i = i + 1;
        assert(v@ =~= b@.subrange(start as int, i as int));
    }
    v
}

/// Which check a response answers, and so which failure a mismatch is.
#[derive(Copy, Clone, Debug, PartialEq, Eq, Structural)]
pub enum Echo {
    /// The handshake: a mismatch is `FailedToInitialize`.
    Init,
    /// A command: a mismatch is `FailedToWrite`.
    Write,
}

pub open spec fn mismatch_error(echo: Echo) -> ErrorKind {
    match echo {
        Echo::Init => ErrorKind::FailedToInitialize,
        Echo::Write => ErrorKind::FailedToWrite,
    }
}

/// One exchange of an operation, as a value of proofs.
pub enum Exchange {
    /// Send this payload in a feature report.
    Send(Seq<u8>),
    /// Read a feature report whose payload must begin with these bytes.
    Expect(Seq<u8>, Echo),
}

/// One exchange of an operation.
#[derive(Debug)]
pub enum Step {
    /// Send this payload in a feature report.
    Send(Vec<u8>),
    /// Read a feature report whose payload must begin with `expected`.
    Expect { expected: Vec<u8>, echo: Echo },
}

impl View for Step {
    type V = Exchange;

    open spec fn view(&self) -> Exchange {
        match self {
            Step::Send(p) => Exchange::Send(p@),
            Step::Expect { expected, echo } => Exchange::Expect(expected@, *echo),
        }
    }
}

pub open spec fn exchanges(steps: Seq<Step>) -> Seq<Exchange> {
    steps.map_values(|s: Step| s@)
}

/// The handshake: send INIT, expect it echoed.
pub open spec fn init_script() -> Seq<Exchange> {
    seq![Exchange::Send(le_bytes(CMD_INIT)), Exchange::Expect(le_bytes(CMD_INIT), Echo::Init)]
}

/// A command: send it, expect it echoed and followed by `status`.
pub open spec fn write_script(command: Seq<u8>, status: Seq<u8>) -> Seq<Exchange> {
    seq![Exchange::Send(command), Exchange::Expect(command + status, Echo::Write)]
}

/// The handshake, then REBOOT with no status.
pub open spec fn reboot_script() -> Seq<Exchange> {
    init_script() + write_script(le_bytes(CMD_REBOOT), Seq::empty())
}

/// PREPARE, the flash offset and the image length.
pub open spec fn prepare_command(offset: u32, len: u32) -> Seq<u8> {
    le_bytes(CMD_PREPARE) + le_bytes(offset) + le_bytes(len)
}

/// Chunks of an image streamed one per report.
pub open spec fn chunk_count(n: int) -> int {
    (n + 63) / 64
}

/// Chunk `k` of `b`: bytes `64k` up to `64k + 64`, or to the end.
pub open spec fn chunk(b: Seq<u8>, k: int) -> Seq<u8> {
    let start = 64 * k;
    let end = if start + 64 <= b.len() {
        start + 64
    } else {
        b.len() as int
    };
    b.subrange(start, end)
}

pub open spec fn chunk_sends(b: Seq<u8>) -> Seq<Exchange> {
    Seq::new(chunk_count(b.len() as int) as nat, |k: int| Exchange::Send(chunk(b, k)))
}

/// Flashing: the handshake, PREPARE answered by the expected status, every
/// chunk of the image in order, then the reboot.
pub open spec fn flash_script(image: Seq<u8>, offset: u32) -> Seq<Exchange> {
    init_script() + write_script(
        prepare_command(offset, image.len() as u32),
        le_bytes(EXPECTED_STATUS),
    ) + chunk_sends(image) + reboot_script()
}

/// The chunks of an image are 64 bytes each but the last, which holds the
/// remaining one to 64 bytes.
pub proof fn lemma_chunk_sizes(b: Seq<u8>, k: int)
    requires
        0 <= k < chunk_count(b.len() as int),
    ensures
        k < chunk_count(b.len() as int) - 1 ==> chunk(b, k).len() == 64,
        k == chunk_count(b.len() as int) - 1 ==> chunk(b, k).len() == b.len() - 64 * k,
        1 <= chunk(b, k).len() <= 64,
{
    let n = b.len() as int;
    assert(64 * k < n && (k < chunk_count(n) - 1 ==> 64 * k + 64 <= n) && (k
        == chunk_count(n) - 1 ==> n <= 64 * k + 64)) by (nonlinear_arith)
        requires
            0 <= k < (n + 63) / 64,
            n >= 0,
    {
    }
}

fn init_steps() -> (r: Vec<Step>)
    ensures
        exchanges(r@) == init_script(),
{
    let mut v: Vec<Step> = Vec::new();
    v.push(Step::Send(to_le_bytes(CMD_INIT)));
    v.push(Step::Expect { expected: to_le_bytes(CMD_INIT), echo: Echo::Init });
    assert(exchanges(v@) =~= init_script());
    v
}

fn write_steps(command: &[u8], status: Option<&[u8]>) -> (r: Vec<Step>)
    ensures
        exchanges(r@) == write_script(
            command@,
            match status {
                Some(s) => s@,
                None => Seq::empty(),
            },
        ),
{
    let mut expected = copy_range(command, 0, command.len());
    if let Some(s) = status {
        let mut tail = copy_range(s, 0, s.len());
        expected.append(&mut tail);
    }
    let mut v: Vec<Step> = Vec::new();
    v.push(Step::Send(copy_range(command, 0, command.len())));
    v.push(Step::Expect { expected, echo: Echo::Write });
    assert(command@.subrange(0, command@.len() as int) =~= command@);
    if let Some(s) = status {
        assert(s@.subrange(0, s@.len() as int) =~= s@);
    }
    assert(exchanges(v@) =~= write_script(
        command@,
        match status {
            Some(s) => s@,
            None => Seq::empty(),
        },
    ));
    v
}

fn reboot_steps() -> (r: Vec<Step>)
    ensures
        exchanges(r@) == reboot_script(),
{
    let mut v = init_steps();
    let reboot = to_le_bytes(CMD_REBOOT);
    let mut w = write_steps(reboot.as_slice(), None);
    let ghost a = v@;
    let ghost b = w@;
    v.append(&mut w);
    assert(exchanges(v@) =~= exchanges(a) + exchanges(b));
    v
}

fn chunk_steps(image: &[u8]) -> (r: Vec<Step>)
    ensures
        exchanges(r@) == chunk_sends(image@),
{
    let mut v: Vec<Step> = Vec::new();
    let mut start: usize = 0;
    let ghost mut k: int = 0;
    while start < image.len()
        invariant
            start == (if 64 * k <= image@.len() {
                64 * k
            } else {
                image@.len() as int
            }),
            k > 0 ==> 64 * (k - 1) < image@.len(),
            0 <= k,
            start <= image@.len(),
            exchanges(v@) =~= Seq::new(k as nat, |j: int| Exchange::Send(chunk(image@, j))),
        decreases image@.len() - start,
    {
        let end: usize = if image.len() - start >= 64 {
            start + 64
        } else {
            image.len()
        };
        let piece = copy_range(image, start, end);
        assert(piece@ == chunk(image@, k));
        let ghost before = v@;
        v.push(Step::Send(piece));
        assert(exchanges(v@) =~= exchanges(before).push(Exchange::Send(chunk(image@, k))));
        start = end;
        proof {
            k = k + 1;
        }
        assert(exchanges(v@) =~= Seq::new(k as nat, |j: int| Exchange::Send(chunk(image@, j))));
    }
    assert(k == chunk_count(image@.len() as int)) by (nonlinear_arith)
        requires
            start == (if 64 * k <= image@.len() {
                64 * k
            } else {
                image@.len() as int
            }),
            start >= image@.len(),
            k >= 0,
            k > 0 ==> 64 * (k - 1) < image@.len(),
    {
    }
    v
}

/// The exchanges that flash `image` at `offset`.
pub fn flash_steps(image: &[u8], offset: u32) -> (r: Vec<Step>)
    ensures
        exchanges(r@) == flash_script(image@, offset),
{
    let mut command = to_le_bytes(CMD_PREPARE);
    let mut off = to_le_bytes(offset);
    let mut len = to_le_bytes(image.len() as u32);
    command.append(&mut off);
    command.append(&mut len);
    let status = to_le_bytes(EXPECTED_STATUS);
    let mut v = init_steps();
    let mut prepare = write_steps(command.as_slice(), Some(status.as_slice()));
    let mut chunks = chunk_steps(image);
    let mut reboot = reboot_steps();
    let ghost (a, b, c, d) = (v@, prepare@, chunks@, reboot@);
    v.append(&mut prepare);
    v.append(&mut chunks);
    v.append(&mut reboot);
    assert(command@ =~= prepare_command(offset, image@.len() as u32));
    assert(exchanges(v@) =~= exchanges(a) + exchanges(b) + exchanges(c) + exchanges(d));
    v
}

/// What the caller is to do next.
#[derive(Debug)]
pub enum Action {
    /// Send this 65-byte buffer as a feature report.
    SendReport(Vec<u8>),
    /// Read a 65-byte feature report and hand it to `receive`.
    ReadReport,
    /// The operation completed.
    Done,
    /// The operation failed and was abandoned.
    Failed(ErrorKind),
}

/// A session with one device in mode `M`: the exchanges of the current
/// operation that remain, and whether the handshake has succeeded.
pub struct Keyboard<M: Mode> {
    name: &'static str,
    init: bool,
    script: Vec<Step>,
    pos: usize,
    marker: core::marker::PhantomData<M>,
}

impl<M: Mode> Keyboard<M> {
    #[verifier::type_invariant]
    spec fn inv(&self) -> bool {
        self.pos <= self.script@.len()
    }

    /// The exchanges of the current operation that remain.
    pub closed spec fn pending(&self) -> Seq<Exchange> {
        exchanges(self.script@).skip(self.pos as int)
    }

    /// The handshake has been echoed in this session.
    pub closed spec fn initialized(&self) -> bool {
        self.init
    }

    /// The name of the device of the session.
    pub closed spec fn spec_name(&self) -> &'static str {
        self.name
    }

    /// A session with the device `info`, before any exchange.
    pub fn connect(info: &DeviceInfo) -> (r: Keyboard<M>)
        ensures
            r.pending().len() == 0,
            !r.initialized(),
            r.spec_name() == display_name::<M>(info.vendor_id, info.product_id),
    {
        let name = match M::name_of(info.vendor_id, info.product_id) {
            Some(n) => n,
            None => "Unknown",
        };
        let k = Keyboard {
            name,
            init: false,
            script: Vec::new(),
            pos: 0,
            marker: core::marker::PhantomData,
        };
        assert(k.pending() =~= Seq::<Exchange>::empty());
        k
    }

    /// The catalog name of the device, or "Unknown".
    pub fn name(&self) -> (r: &'static str)
        ensures
            r == self.spec_name(),
    {
        self.name
    }

    pub fn is_initialized(&self) -> (r: bool)
        ensures
            r == self.initialized(),
    {
        self.init
    }

    fn load(&mut self, steps: Vec<Step>)
        ensures
            final(self).pending() == exchanges(steps@),
            final(self).initialized() == old(self).initialized(),
            final(self).spec_name() == old(self).spec_name(),
    {
        self.pos = 0;
        self.script = steps;
        assert(exchanges(self.script@).skip(0) =~= exchanges(self.script@));
    }

    fn abandon(&mut self)
        ensures
            final(self).pending().len() == 0,
            final(self).initialized() == old(self).initialized(),
            final(self).spec_name() == old(self).spec_name(),
    {
        self.pos = 0;
        self.script = Vec::new();
        assert(exchanges(self.script@).skip(0) =~= Seq::<Exchange>::empty());
    }

    /// Starts the handshake.
    pub fn init(&mut self)
        ensures
            final(self).pending() == init_script(),
            final(self).initialized() == old(self).initialized(),
            final(self).spec_name() == old(self).spec_name(),
    {
        let steps = init_steps();
        self.load(steps);
    }

    /// Starts a command: it is sent, and must come back echoed, followed by
    /// `status` when one is given.
    pub fn write(&mut self, command: &[u8], status: Option<&[u8]>)
        ensures
            final(self).pending() == write_script(
                command@,
                match status {
                    Some(s) => s@,
                    None => Seq::empty(),
                },
            ),
            final(self).initialized() == old(self).initialized(),
            final(self).spec_name() == old(self).spec_name(),
    {
        let steps = write_steps(command, status);
        self.load(steps);
    }

    /// Starts a reboot: the handshake, then REBOOT.
    pub fn reboot(&mut self)
        ensures
            final(self).pending() == reboot_script(),
            final(self).initialized() == old(self).initialized(),
            final(self).spec_name() == old(self).spec_name(),
    {
        let steps = reboot_steps();
        self.load(steps);
    }

    /// The next thing to do for the current operation. A payload that does
    /// not fit in a report fails the operation with `InvalidReportLength`.
    pub fn next_action(&mut self) -> (r: Action)
        ensures
            final(self).initialized() == old(self).initialized(),
            final(self).spec_name() == old(self).spec_name(),
            old(self).pending().len() == 0 ==> r is Done && final(self).pending().len() == 0,
            old(self).pending().len() > 0 ==> match old(self).pending()[0] {
                Exchange::Send(p) => if p.len() <= REPORT_LEN {
                    &&& r matches Action::SendReport(b) && b@ == frame(p)
                    &&& final(self).pending() == old(self).pending().drop_first()
                } else {
                    &&& r matches Action::Failed(ErrorKind::InvalidReportLength(n)) && n == p.len()
                    &&& final(self).pending().len() == 0
                },
                Exchange::Expect(_, _) => r is ReadReport && final(self).pending()
                    == old(self).pending(),
            },
    {
        proof {
            use_type_invariant(&*self);
        }
        if self.pos >= self.script.len() {
            assert(self.pending().len() == 0);
            return Action::Done;
        }
        assert(self.pending()[0] == self.script@[self.pos as int]@);
        let framed = match &self.script[self.pos] {
            Step::Send(p) => feature_buffer(p.as_slice()),
            Step::Expect { .. } => {
                return Action::ReadReport;
            },
        };
        match framed {
            Ok(b) => {
                let ghost before = self.pending();
                self.pos = self.pos + 1;
                assert(self.pending() =~= before.drop_first());
                Action::SendReport(b)
            },
            Err(e) => {
                self.abandon();
                Action::Failed(e)
            },
        }
    }

    /// Checks a report read from the device against the expected echo. A
    /// report that is not 65 bytes, or that comes when no read is expected,
    /// is `InvalidResponse`; a payload that does not begin with the expected
    /// bytes is the failure of the check. A failure ends the operation; a
    /// handshake that is echoed marks the session initialized.
    pub fn receive(&mut self, report: &[u8]) -> (r: Result<(), ErrorKind>)
        ensures
            final(self).spec_name() == old(self).spec_name(),
            ({
                let p = old(self).pending();
                if p.len() > 0 && p[0] is Expect {
                    let expected = p[0]->Expect_0;
                    let echo = p[0]->Expect_1;
                    if report@.len() != REPORT_BUF_LEN {
                        &&& r == Err::<(), ErrorKind>(ErrorKind::InvalidResponse)
                        &&& final(self).pending().len() == 0
                        &&& final(self).initialized() == old(self).initialized()
                    } else if echoes(report@.subrange(1, REPORT_BUF_LEN as int), expected) {
                        &&& r is Ok
                        &&& final(self).pending() == p.drop_first()
                        &&& final(self).initialized() == (old(self).initialized() || echo
                            == Echo::Init)
                    } else {
                        &&& r == Err::<(), ErrorKind>(mismatch_error(echo))
                        &&& final(self).pending().len() == 0
                        &&& final(self).initialized() == old(self).initialized()
                    }
                } else {
                    &&& r == Err::<(), ErrorKind>(ErrorKind::InvalidResponse)
                    &&& final(self).pending().len() == 0
                    &&& final(self).initialized() == old(self).initialized()
                }
            }),
    {
        proof {
            use_type_invariant(&*self);
        }
        if self.pos >= self.script.len() {
            self.abandon();
            return Err(ErrorKind::InvalidResponse);
        }
        assert(self.pending()[0] == self.script@[self.pos as int]@);
        let (matched, echo) = match &self.script[self.pos] {
            Step::Send(_) => {
                self.abandon();
                return Err(ErrorKind::InvalidResponse);
            },
            Step::Expect { expected, echo } => {
                if report.len() != REPORT_BUF_LEN {
                    self.abandon();
                    return Err(ErrorKind::InvalidResponse);
                }
                let payload = feature_payload(report);
                (payload_echoes(payload.as_slice(), expected.as_slice()), *echo)
            },
        };
        if !matched {
            self.abandon();
            return match echo {
                Echo::Init => Err(ErrorKind::FailedToInitialize),
                Echo::Write => Err(ErrorKind::FailedToWrite),
            };
        }
        let ghost before = self.pending();
        self.pos = self.pos + 1;
        assert(self.pending() =~= before.drop_first());
        if echo == Echo::Init {
            self.init = true;
        }
        Ok(())
    }
}

/// `payload` begins with `expected`.
fn payload_echoes(payload: &[u8], expected: &[u8]) -> (r: bool)
    ensures
        r == echoes(payload@, expected@),
{
    if expected.len() > payload.len() {
        return false;
    }
    let mut i: usize = 0;
    while i < expected.len()
        invariant
            i <= expected@.len() <= payload@.len(),
            forall|j: int| 0 <= j < i ==> payload@[j] == expected@[j],
        decreases expected@.len() - i,
    {
        if payload[i] != expected[i] {
            assert(payload@.subrange(0, expected@.len() as int)[i as int] != expected@[i as int]);
            return false;
        }
        i = i + 1;
    }
    assert(payload@.subrange(0, expected@.len() as int) =~= expected@);
    true
}

impl Keyboard<Bootloader> {
    /// Starts flashing a validated image at the offset of `options`: the
    /// handshake, PREPARE with the offset and the image length answered by
    /// the expected status, the image in 64-byte chunks, then the reboot.
    pub fn flash(&mut self, firmware: Firmware, options: &FlashingOptions)
        ensures
            final(self).pending() == flash_script(firmware@, options.spec_offset()),
            final(self).initialized() == old(self).initialized(),
            final(self).spec_name() == old(self).spec_name(),
    {
        let offset = options.offset();
        let image = firmware.into_inner();
        let steps = flash_steps(image.as_slice(), offset);
        self.load(steps);
    }
}

/// A response to a command sent with a status is refused when its payload
/// does not echo the command, and equally when it echoes the command but the
/// bytes after it are not the status: `receive` answers both with
/// `FailedToWrite`.
pub proof fn lemma_write_refuses_wrong_echo(command: Seq<u8>, status: Seq<u8>, payload: Seq<u8>)
    requires
        !echoes(payload, command) || !echoes(
            payload.subrange(command.len() as int, payload.len() as int),
            status,
        ),
    ensures
        write_script(command, status)[1] == Exchange::Expect(command + status, Echo::Write),
        !echoes(payload, command + status),
        mismatch_error(Echo::Write) == ErrorKind::FailedToWrite,
{
    if echoes(payload, command + status) {
        let c = command.len() as int;
        let n = (command + status).len() as int;
        assert(payload.subrange(0, c) =~= (command + status).subrange(0, c));
        assert((command + status).subrange(0, c) =~= command);
        let rest = payload.subrange(c, payload.len() as int);
        assert(rest.subrange(0, status.len() as int) =~= payload.subrange(0, n).subrange(
            c,
            n,
        ));
        assert((command + status).subrange(c, n) =~= status);
    }
}

/// Flashing sends, in this order: the handshake, one PREPARE exchange, one
/// report per chunk of the image and nothing else, then the handshake and
/// one REBOOT exchange.
pub proof fn lemma_flash_order(image: Seq<u8>, offset: u32)
    ensures
        ({
            let s = flash_script(image, offset);
            let n = chunk_count(image.len() as int);
            let prepare = prepare_command(offset, image.len() as u32);
            &&& s.len() == n + 8
            &&& s.subrange(0, 2) == init_script()
            &&& s[2] == Exchange::Send(prepare)
            &&& s[3] == Exchange::Expect(prepare + le_bytes(EXPECTED_STATUS), Echo::Write)
            &&& forall|k: int| 0 <= k < n ==> s[4 + k] == Exchange::Send(chunk(image, k))
            &&& s.subrange(4 + n, 8 + n) == reboot_script()
            &&& s[6 + n] == Exchange::Send(le_bytes(CMD_REBOOT))
            &&& s[7 + n] == Exchange::Expect(le_bytes(CMD_REBOOT), Echo::Write)
        }),
{
    let s = flash_script(image, offset);
    let n = chunk_count(image.len() as int);
    assert(n >= 0);
    assert(s.subrange(0, 2) =~= init_script());
    assert(s.subrange(4 + n, 8 + n) =~= reboot_script());
    assert(le_bytes(CMD_REBOOT) + Seq::<u8>::empty() =~= le_bytes(CMD_REBOOT));
}

} // verus!
