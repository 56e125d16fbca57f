//! What is sent to the ILI9341 panel, as operations on its bus.

use vstd::prelude::*;
use vstd::slice::slice_to_vec;

use crate::studio::touch::{PANEL_H, PANEL_W};

verus! {

/// Bytes of the largest rectangle: 40 by 40 pixels of two bytes.
pub const MAX_RECT_BYTES: usize = 3200;

/// Chunks of zeros that clear the panel.
pub const CLEAR_CHUNKS: usize = 48;

/// A rectangle for the panel, each pixel with its high byte first.
pub struct RectJob {
    pub x: u16,
    pub y: u16,
    pub w: u16,
    pub h: u16,
    pub len: usize,
    pub pixels_be: [u8; MAX_RECT_BYTES],
}

impl RectJob {
    /// The bytes fit into the buffer.
    pub open spec fn wf(self) -> bool {
        self.len <= MAX_RECT_BYTES
    }

    /// The rectangle is not empty, lies on the panel, and has its number of bytes.
    pub open spec fn paintable(self) -> bool {
        &&& self.w > 0
        &&& self.h > 0
        &&& self.x + self.w <= PANEL_W
        &&& self.y + self.h <= PANEL_H
        &&& self.len == self.w * self.h * 2
    }
}

/// One operation on the panel's bus.
pub enum BusOp {
    CsLow,
    CsHigh,
    DcLow,
    DcHigh,
    ResetLow,
    ResetHigh,
    DelayMicros(u32),
    Write(Vec<u8>),
    WriteZeros(usize),
}

/// What an operation does.
pub enum BusStep {
    CsLow,
    CsHigh,
    DcLow,
    DcHigh,
    ResetLow,
    ResetHigh,
    DelayMicros(u32),
    Write(Seq<u8>),
}

impl View for BusOp {
    type V = BusStep;

    open spec fn view(&self) -> BusStep {
        match *self {
            BusOp::CsLow => BusStep::CsLow,
            BusOp::CsHigh => BusStep::CsHigh,
            BusOp::DcLow => BusStep::DcLow,
            BusOp::DcHigh => BusStep::DcHigh,
            BusOp::ResetLow => BusStep::ResetLow,
            BusOp::ResetHigh => BusStep::ResetHigh,
            BusOp::DelayMicros(us) => BusStep::DelayMicros(us),
            BusOp::Write(bytes) => BusStep::Write(bytes@),
            BusOp::WriteZeros(n) => BusStep::Write(Seq::new(n as nat, |i: int| 0u8)),
        }
    }
}

/// What a list of operations does.
pub open spec fn steps(ops: Seq<BusOp>) -> Seq<BusStep> {
    ops.map_values(|op: BusOp| op@)
}

/// A command with its arguments: the command byte with the data line low, the
/// arguments, if there are any, with it high, all of it with the panel selected.
pub open spec fn command_steps(command: u8, args: Seq<u8>) -> Seq<BusStep> {
    seq![BusStep::CsLow, BusStep::DcLow, BusStep::Write(seq![command])] + (if args.len() > 0 {
        seq![BusStep::DcHigh, BusStep::Write(args)]
    } else {
        seq![]
    }) + seq![BusStep::CsHigh]
}

/// A number with its high byte first.
pub open spec fn big_endian(v: int) -> Seq<u8> {
    seq![(v / 256) as u8, (v % 256) as u8]
}

/// The two commands that set the window of `w` by `h` pixels at (`x`, `y`): first
/// and last column, then first and last row.
pub open spec fn window_steps(x: int, y: int, w: int, h: int) -> Seq<BusStep> {
    command_steps(0x2A, big_endian(x) + big_endian(x + w - 1)) + command_steps(
        0x2B,
        big_endian(y) + big_endian(y + h - 1),
    )
}

/// Reset and configuration of the panel.
pub open spec fn init_steps() -> Seq<BusStep> {
    seq![
        BusStep::ResetLow,
        BusStep::DelayMicros(10),
        BusStep::ResetHigh,
        BusStep::DelayMicros(5_000),
    ] + command_steps(0x36, seq![0xE8u8]) + command_steps(0xB4, seq![0x00u8]) + command_steps(
        0x20,
        seq![],
    ) + command_steps(0x3A, seq![0x55u8]) + command_steps(0x13, seq![]) + seq![
        BusStep::DelayMicros(120_000),
    ] + command_steps(0x11, seq![]) + seq![BusStep::DelayMicros(140_000)] + command_steps(
        0x29,
        seq![],
    )
}

/// `n` chunks of zeros.
pub open spec fn zero_chunks(n: nat) -> Seq<BusStep> {
    Seq::new(n, |i: int| BusStep::Write(Seq::new(MAX_RECT_BYTES as nat, |j: int| 0u8)))
}

/// The whole panel set to black.
pub open spec fn clear_steps() -> Seq<BusStep> {
    window_steps(0, 0, PANEL_W as int, PANEL_H as int) + command_steps(0x2C, seq![]) + seq![
        BusStep::CsLow,
        BusStep::DcHigh,
    ] + zero_chunks(CLEAR_CHUNKS as nat) + seq![BusStep::CsHigh]
}

/// A rectangle painted: its window, then its bytes. Nothing where it cannot be
/// painted.
pub open spec fn paint_steps(job: RectJob) -> Seq<BusStep> {
    if job.paintable() {
        window_steps(job.x as int, job.y as int, job.w as int, job.h as int) + command_steps(
            0x2C,
            seq![],
        ) + seq![
            BusStep::CsLow,
            BusStep::DcHigh,
            BusStep::Write(job.pixels_be@.take(job.len as int)),
            BusStep::CsHigh,
        ]
    } else {
        seq![]
    }
}

/// Appends an operation.
fn push_op(ops: &mut Vec<BusOp>, op: BusOp)
    ensures
        steps(final(ops)@) == steps(old(ops)@).push(op@),
{
    ops.push(op);
    assert(steps(ops@) =~= steps(old(ops)@).push(op@));
}

fn push_command(ops: &mut Vec<BusOp>, command: u8, args: &[u8])
    ensures
        steps(final(ops)@) == steps(old(ops)@) + command_steps(command, args@),
{
    push_op(ops, BusOp::CsLow);
    push_op(ops, BusOp::DcLow);
    let first: Vec<u8> = vec![command];
    assert(first@ =~= seq![command]);
    push_op(ops, BusOp::Write(first));
    if args.len() > 0 {
        push_op(ops, BusOp::DcHigh);
        push_op(ops, BusOp::Write(slice_to_vec(args)));
    }
    push_op(ops, BusOp::CsHigh);
    assert(steps(ops@) =~= steps(old(ops)@) + command_steps(command, args@));
}

/// The operations that send a command with its arguments.
pub fn write_command(command: u8, args: &[u8]) -> (ops: Vec<BusOp>)
    ensures
        steps(ops@) == command_steps(command, args@),
{
    let mut ops: Vec<BusOp> = Vec::new();
    push_command(&mut ops, command, args);
    assert(steps(ops@) =~= command_steps(command, args@));
    ops
}

fn high_byte(v: u16) -> (b: u8)
    ensures
        b == (v as int / 256) as u8,
{
    (v / 256) as u8
}

fn low_byte(v: u16) -> (b: u8)
    ensures
        b == (v as int % 256) as u8,
{
    (v % 256) as u8
}

fn push_window(ops: &mut Vec<BusOp>, x: u16, y: u16, w: u16, h: u16)
    requires
        1 <= x + w <= u16::MAX,
        1 <= y + h <= u16::MAX,
    ensures
        steps(final(ops)@) == steps(old(ops)@) + window_steps(
            x as int,
            y as int,
            w as int,
            h as int,
        ),
{
    let x_end: u16 = x + w - 1;
    let y_end: u16 = y + h - 1;
    let columns: [u8; 4] = [high_byte(x), low_byte(x), high_byte(x_end), low_byte(x_end)];
    let rows: [u8; 4] = [high_byte(y), low_byte(y), high_byte(y_end), low_byte(y_end)];
    assert(columns@ =~= big_endian(x as int) + big_endian(x + w - 1));
    assert(rows@ =~= big_endian(y as int) + big_endian(y + h - 1));
    push_command(ops, 0x2A, columns.as_slice());
    push_command(ops, 0x2B, rows.as_slice());
    assert(steps(ops@) =~= steps(old(ops)@) + window_steps(
        x as int,
        y as int,
        w as int,
        h as int,
    ));
}

/// The operations that set the window of the next pixels.
pub fn set_window(x: u16, y: u16, w: u16, h: u16) -> (ops: Vec<BusOp>)
    requires
        1 <= x + w <= u16::MAX,
        1 <= y + h <= u16::MAX,
    ensures
        steps(ops@) == window_steps(x as int, y as int, w as int, h as int),
{
    let mut ops: Vec<BusOp> = Vec::new();
    push_window(&mut ops, x, y, w, h);
    assert(steps(ops@) =~= window_steps(x as int, y as int, w as int, h as int));
    ops
}

/// The operations that reset the panel and configure it: blue before red, turned
/// by 90 degrees and mirrored, two bytes a pixel.
pub fn init_display() -> (ops: Vec<BusOp>)
    ensures
        steps(ops@) == init_steps(),
{
    let mut ops: Vec<BusOp> = Vec::new();
    push_op(&mut ops, BusOp::ResetLow);
    push_op(&mut ops, BusOp::DelayMicros(10));
    push_op(&mut ops, BusOp::ResetHigh);
    push_op(&mut ops, BusOp::DelayMicros(5_000));
    let none: [u8; 0] = [];
    let madctl: [u8; 1] = [0xE8];
    let inversion: [u8; 1] = [0x00];
    let format: [u8; 1] = [0x55];
    assert(none@ =~= seq![]);
    assert(madctl@ =~= seq![0xE8u8]);
    assert(inversion@ =~= seq![0x00u8]);
    assert(format@ =~= seq![0x55u8]);
    push_command(&mut ops, 0x36, madctl.as_slice());
    push_command(&mut ops, 0xB4, inversion.as_slice());
    push_command(&mut ops, 0x20, none.as_slice());
    push_command(&mut ops, 0x3A, format.as_slice());
    push_command(&mut ops, 0x13, none.as_slice());
    push_op(&mut ops, BusOp::DelayMicros(120_000));
    push_command(&mut ops, 0x11, none.as_slice());
    push_op(&mut ops, BusOp::DelayMicros(140_000));
    push_command(&mut ops, 0x29, none.as_slice());
    assert(steps(ops@) =~= init_steps());
    ops
}

/// The operations that set the whole panel to black.
pub fn clear_display() -> (ops: Vec<BusOp>)
    ensures
        steps(ops@) == clear_steps(),
{
    let mut ops: Vec<BusOp> = Vec::new();
    let none: [u8; 0] = [];
    assert(none@ =~= seq![]);
    push_window(&mut ops, 0, 0, PANEL_W, PANEL_H);
    push_command(&mut ops, 0x2C, none.as_slice());
    push_op(&mut ops, BusOp::CsLow);
    push_op(&mut ops, BusOp::DcHigh);
    let ghost head = steps(ops@);
    let chunks: usize = PANEL_W as usize * PANEL_H as usize * 2 / MAX_RECT_BYTES;
    assert(head + zero_chunks(0) =~= head);
    let mut i: usize = 0;
    while i < chunks
        invariant
            i <= chunks,
            steps(ops@) == head + zero_chunks(i as nat),
        decreases chunks - i,
    {
        push_op(&mut ops, BusOp::WriteZeros(MAX_RECT_BYTES));
        assert(steps(ops@) =~= head + zero_chunks((i + 1) as nat));
        i += 1;
    }
    push_op(&mut ops, BusOp::CsHigh);
    assert(steps(ops@) =~= clear_steps());
    ops
}

/// The operations that paint a rectangle, none where it is empty, reaches beyond
/// the panel, or does not have its number of bytes.
pub fn paint_rect_dma(job: &RectJob) -> (ops: Vec<BusOp>)
    requires
        job.paintable() ==> job.wf(),
    ensures
        steps(ops@) == paint_steps(*job),
{
    let mut ops: Vec<BusOp> = Vec::new();
    if job.w == 0 || job.h == 0 || job.x.saturating_add(job.w) > PANEL_W || job.y.saturating_add(
        job.h,
    ) > PANEL_H {
        assert(steps(ops@) =~= seq![]);
        return ops;
    }
    assert(job.w * job.h <= 320 * 240) by (nonlinear_arith)
        requires
            job.w <= 320,
            job.h <= 240,
    ;
    if job.len != job.w as usize * job.h as usize * 2 {
        assert(steps(ops@) =~= seq![]);
        return ops;
    }
    let none: [u8; 0] = [];
    assert(none@ =~= seq![]);
    push_window(&mut ops, job.x, job.y, job.w, job.h);
    push_command(&mut ops, 0x2C, none.as_slice());
    push_op(&mut ops, BusOp::CsLow);
    push_op(&mut ops, BusOp::DcHigh);
    let mut bytes: Vec<u8> = Vec::new();
    let mut i: usize = 0;
    while i < job.len
        invariant
            job.wf(),
            i <= job.len,
            bytes@ == job.pixels_be@.take(i as int),
        decreases job.len - i,
    {
        bytes.push(job.pixels_be[i]);
        assert(bytes@ =~= job.pixels_be@.take(i + 1));
        i += 1;
    }
    push_op(&mut ops, BusOp::Write(bytes));
    push_op(&mut ops, BusOp::CsHigh);
    assert(steps(ops@) =~= paint_steps(*job));
    ops
}

/// The panel's select line after the steps (selected or not), `None` where bytes
/// are written while the panel is not selected.
pub open spec fn run(s: Seq<BusStep>, selected: bool) -> Option<bool>
    decreases s.len(),
{
    if s.len() == 0 {
        Some(selected)
    } else {
        match s[0] {
            BusStep::CsLow => run(s.drop_first(), true),
            BusStep::CsHigh => run(s.drop_first(), false),
            BusStep::Write(_) => if selected {
                run(s.drop_first(), selected)
            } else {
                None
            },
            _ => run(s.drop_first(), selected),
        }
    }
}

/// Steps run one after the other.
proof fn lemma_run_joined(a: Seq<BusStep>, b: Seq<BusStep>, selected: bool)
    requires
        run(a, selected) is Some,
    ensures
        run(a + b, selected) == run(b, run(a, selected)->0),
    decreases a.len(),
{
    if a.len() == 0 {
        assert(a + b =~= b);
    } else {
        assert((a + b).drop_first() =~= a.drop_first() + b);
        let next = match a[0] {
            BusStep::CsLow => true,
            BusStep::CsHigh => false,
            _ => selected,
        };
        lemma_run_joined(a.drop_first(), b, next);
    }
}

proof fn lemma_run_command(command: u8, args: Seq<u8>, selected: bool)
    ensures
        run(command_steps(command, args), selected) == Some(false),
{
    reveal_with_fuel(run, 7);
    let s = command_steps(command, args);
    assert(s[0] == BusStep::CsLow);
    assert(s.drop_first()[0] == BusStep::DcLow);
    assert(s.drop_first().drop_first()[0] == BusStep::Write(seq![command]));
    let rest = s.drop_first().drop_first().drop_first();
    if args.len() > 0 {
        assert(rest[0] == BusStep::DcHigh);
        assert(rest.drop_first()[0] == BusStep::Write(args));
        assert(rest.drop_first().drop_first()[0] == BusStep::CsHigh);
        assert(rest.drop_first().drop_first().drop_first() =~= seq![]);
    } else {
        assert(rest[0] == BusStep::CsHigh);
        assert(rest.drop_first() =~= seq![]);
    }
}

proof fn lemma_run_window(x: int, y: int, w: int, h: int, selected: bool)
    ensures
        run(window_steps(x, y, w, h), selected) == Some(false),
{
    let columns = big_endian(x) + big_endian(x + w - 1);
    lemma_run_command(0x2A, columns, selected);
    lemma_run_command(0x2B, big_endian(y) + big_endian(y + h - 1), false);
    lemma_run_joined(
        command_steps(0x2A, columns),
        command_steps(0x2B, big_endian(y) + big_endian(y + h - 1)),
        selected,
    );
}

proof fn lemma_run_zero_chunks(n: nat)
    ensures
        run(zero_chunks(n), true) == Some(true),
    decreases n,
{
    if n > 0 {
        lemma_run_zero_chunks((n - 1) as nat);
        assert(zero_chunks(n).drop_first() =~= zero_chunks((n - 1) as nat));
    }
}

/// Sending a command, setting a window, setting up the panel, clearing it and
/// painting a rectangle each write only while the panel is selected, and leave it
/// deselected.
pub proof fn law_bus_is_released(
    command: u8,
    args: Seq<u8>,
    x: int,
    y: int,
    w: int,
    h: int,
    job: RectJob,
)
    ensures
        run(command_steps(command, args), false) == Some(false),
        run(window_steps(x, y, w, h), false) == Some(false),
        run(init_steps(), false) == Some(false),
        run(clear_steps(), false) == Some(false),
        run(paint_steps(job), false) == Some(false),
{
    lemma_run_command(command, args, false);
    lemma_run_window(x, y, w, h, false);
    lemma_init_released();
    lemma_clear_released();
    lemma_paint_released(job);
}

proof fn lemma_init_released()
    ensures
        run(init_steps(), false) == Some(false),
{
    reveal_with_fuel(run, 5);
    let reset = seq![
        BusStep::ResetLow,
        BusStep::DelayMicros(10),
        BusStep::ResetHigh,
        BusStep::DelayMicros(5_000),
    ];
    assert(reset.drop_first().drop_first().drop_first().drop_first() =~= seq![]);
    assert(run(reset, false) == Some(false));
    let s1 = reset + command_steps(0x36, seq![0xE8u8]);
    lemma_run_command(0x36, seq![0xE8u8], false);
    lemma_run_joined(reset, command_steps(0x36, seq![0xE8u8]), false);
    let s2 = s1 + command_steps(0xB4, seq![0x00u8]);
    lemma_run_command(0xB4, seq![0x00u8], false);
    lemma_run_joined(s1, command_steps(0xB4, seq![0x00u8]), false);
    let s3 = s2 + command_steps(0x20, seq![]);
    lemma_run_command(0x20, seq![], false);
    lemma_run_joined(s2, command_steps(0x20, seq![]), false);
    let s4 = s3 + command_steps(0x3A, seq![0x55u8]);
    lemma_run_command(0x3A, seq![0x55u8], false);
    lemma_run_joined(s3, command_steps(0x3A, seq![0x55u8]), false);
    let s5 = s4 + command_steps(0x13, seq![]);
    lemma_run_command(0x13, seq![], false);
    lemma_run_joined(s4, command_steps(0x13, seq![]), false);
    let wait1 = seq![BusStep::DelayMicros(120_000)];
    assert(wait1.drop_first() =~= seq![]);
    let s6 = s5 + wait1;
    lemma_run_joined(s5, wait1, false);
    let s7 = s6 + command_steps(0x11, seq![]);
    lemma_run_command(0x11, seq![], false);
    lemma_run_joined(s6, command_steps(0x11, seq![]), false);
    let wait2 = seq![BusStep::DelayMicros(140_000)];
    assert(wait2.drop_first() =~= seq![]);
    let s8 = s7 + wait2;
    lemma_run_joined(s7, wait2, false);
    lemma_run_command(0x29, seq![], false);
    lemma_run_joined(s8, command_steps(0x29, seq![]), false);
}

proof fn lemma_clear_released()
    ensures
        run(clear_steps(), false) == Some(false),
{
    reveal_with_fuel(run, 3);
    let s1 = window_steps(0, 0, PANEL_W as int, PANEL_H as int);
    lemma_run_window(0, 0, PANEL_W as int, PANEL_H as int, false);
    let s2 = s1 + command_steps(0x2C, seq![]);
    lemma_run_command(0x2C, seq![], false);
    lemma_run_joined(s1, command_steps(0x2C, seq![]), false);
    let open = seq![BusStep::CsLow, BusStep::DcHigh];
    assert(open.drop_first().drop_first() =~= seq![]);
    let s3 = s2 + open;
    lemma_run_joined(s2, open, false);
    let s4 = s3 + zero_chunks(CLEAR_CHUNKS as nat);
    lemma_run_zero_chunks(CLEAR_CHUNKS as nat);
    lemma_run_joined(s3, zero_chunks(CLEAR_CHUNKS as nat), false);
    let close = seq![BusStep::CsHigh];
    assert(close.drop_first() =~= seq![]);
    lemma_run_joined(s4, close, false);
}

proof fn lemma_paint_released(job: RectJob)
    ensures
        run(paint_steps(job), false) == Some(false),
{
    if job.paintable() {
        reveal_with_fuel(run, 5);
        let s1 = window_steps(job.x as int, job.y as int, job.w as int, job.h as int);
        lemma_run_window(job.x as int, job.y as int, job.w as int, job.h as int, false);
        let s2 = s1 + command_steps(0x2C, seq![]);
        lemma_run_command(0x2C, seq![], false);
        lemma_run_joined(s1, command_steps(0x2C, seq![]), false);
        let tail = seq![
            BusStep::CsLow,
            BusStep::DcHigh,
            BusStep::Write(job.pixels_be@.take(job.len as int)),
            BusStep::CsHigh,
        ];
        assert(tail.drop_first().drop_first().drop_first().drop_first() =~= seq![]);
        lemma_run_joined(s2, tail, false);
    }
}

/// The bytes of a window name its first and last column and row: read with the
/// high byte first they give the numbers back.
pub proof fn law_big_endian_reads_back(v: int)
    requires
        0 <= v <= u16::MAX,
    ensures
        big_endian(v)[0] * 256 + big_endian(v)[1] == v,
{
}

/// The chunks of zeros are as many bytes as the panel has.
pub proof fn law_clear_covers_panel()
    ensures
        CLEAR_CHUNKS * MAX_RECT_BYTES == PANEL_W * PANEL_H * 2,
{
}

/// The panel's select line and data line after the steps.
pub open spec fn lines(s: Seq<BusStep>, selected: bool, data: bool) -> (bool, bool)
    decreases s.len(),
{
    if s.len() == 0 {
        (selected, data)
    } else {
        match s[0] {
            BusStep::CsLow => lines(s.drop_first(), true, data),
            BusStep::CsHigh => lines(s.drop_first(), false, data),
            BusStep::DcLow => lines(s.drop_first(), selected, false),
            BusStep::DcHigh => lines(s.drop_first(), selected, true),
            _ => lines(s.drop_first(), selected, data),
        }
    }
}

/// What the panel hears of the steps: the bytes that are written while it is
/// selected, and with them whether they are data (or a command).
pub open spec fn heard(s: Seq<BusStep>, selected: bool, data: bool) -> Seq<(bool, Seq<u8>)>
    decreases s.len(),
{
    if s.len() == 0 {
        seq![]
    } else {
        match s[0] {
            BusStep::CsLow => heard(s.drop_first(), true, data),
            BusStep::CsHigh => heard(s.drop_first(), false, data),
            BusStep::DcLow => heard(s.drop_first(), selected, false),
            BusStep::DcHigh => heard(s.drop_first(), selected, true),
            BusStep::Write(bytes) => (if selected {
                seq![(data, bytes)]
            } else {
                seq![]
            }) + heard(s.drop_first(), selected, data),
            _ => heard(s.drop_first(), selected, data),
        }
    }
}

proof fn lemma_heard_joined(a: Seq<BusStep>, b: Seq<BusStep>, selected: bool, data: bool)
    ensures
        heard(a + b, selected, data) == heard(a, selected, data) + heard(
            b,
            lines(a, selected, data).0,
            lines(a, selected, data).1,
        ),
        lines(a + b, selected, data) == lines(
            b,
            lines(a, selected, data).0,
            lines(a, selected, data).1,
        ),
    decreases a.len(),
{
    if a.len() == 0 {
        assert(a + b =~= b);
        assert(heard(a + b, selected, data) =~= heard(a, selected, data) + heard(
            b,
            selected,
            data,
        ));
    } else {
        assert((a + b).drop_first() =~= a.drop_first() + b);
        let s = match a[0] {
            BusStep::CsLow => true,
            BusStep::CsHigh => false,
            _ => selected,
        };
        let d = match a[0] {
            BusStep::DcLow => false,
            BusStep::DcHigh => true,
            _ => data,
        };
        lemma_heard_joined(a.drop_first(), b, s, d);
        assert(heard(a + b, selected, data) =~= heard(a, selected, data) + heard(
            b,
            lines(a, selected, data).0,
            lines(a, selected, data).1,
        ));
    }
}

/// A command is heard as one command byte and then its arguments as data, whatever
/// the lines were, and the panel is deselected after it.
pub proof fn law_command_is_heard(command: u8, args: Seq<u8>, selected: bool, data: bool)
    ensures
        heard(command_steps(command, args), selected, data) == if args.len() > 0 {
            seq![(false, seq![command]), (true, args)]
        } else {
            seq![(false, seq![command])]
        },
        !lines(command_steps(command, args), selected, data).0,
{
    reveal_with_fuel(heard, 7);
    reveal_with_fuel(lines, 7);
    let s = command_steps(command, args);
    let rest = s.drop_first().drop_first().drop_first();
    assert(s[0] == BusStep::CsLow);
    assert(s.drop_first()[0] == BusStep::DcLow);
    assert(s.drop_first().drop_first()[0] == BusStep::Write(seq![command]));
    if args.len() > 0 {
        assert(rest[0] == BusStep::DcHigh);
        assert(rest.drop_first()[0] == BusStep::Write(args));
        assert(rest.drop_first().drop_first()[0] == BusStep::CsHigh);
        assert(rest.drop_first().drop_first().drop_first() =~= seq![]);
        assert(heard(s, selected, data) =~= seq![(false, seq![command]), (true, args)]);
    } else {
        assert(rest[0] == BusStep::CsHigh);
        assert(rest.drop_first() =~= seq![]);
        assert(heard(s, selected, data) =~= seq![(false, seq![command])]);
    }
}

/// Four bytes name two numbers, each with its high byte first.
pub open spec fn names(bytes: Seq<u8>, first: int, last: int) -> bool {
    &&& bytes.len() == 4
    &&& bytes[0] * 256 + bytes[1] == first
    &&& bytes[2] * 256 + bytes[3] == last
}

/// A window is heard as two commands: one for columns, with the first column and the
/// last, and one for rows, with the first row and the last.
pub proof fn law_window_is_heard(x: int, y: int, w: int, h: int, selected: bool, data: bool)
    requires
        0 <= x && 0 < w && x + w <= u16::MAX,
        0 <= y && 0 < h && y + h <= u16::MAX,
    ensures
        ({
            let all = heard(window_steps(x, y, w, h), selected, data);
            &&& all.len() == 4
            &&& all[0] == (false, seq![0x2Au8])
            &&& all[1].0 && names(all[1].1, x, x + w - 1)
            &&& all[2] == (false, seq![0x2Bu8])
            &&& all[3].0 && names(all[3].1, y, y + h - 1)
        }),
        !lines(window_steps(x, y, w, h), selected, data).0,
{
    let columns = big_endian(x) + big_endian(x + w - 1);
    let rows = big_endian(y) + big_endian(y + h - 1);
    let a = command_steps(0x2A, columns);
    let b = command_steps(0x2B, rows);
    law_command_is_heard(0x2A, columns, selected, data);
    lemma_heard_joined(a, b, selected, data);
    law_command_is_heard(0x2B, rows, lines(a, selected, data).0, lines(a, selected, data).1);
}

/// A rectangle is painted exactly where it is not empty, lies on the panel and has
/// two bytes for each of its pixels, whatever its shape. The panel then hears its
/// window, the command that starts the pixels, and all of its bytes in one piece, and
/// nothing otherwise.
pub proof fn law_rectangle_is_heard(job: RectJob, data: bool)
    requires
        job.len <= 3200,
    ensures
        ({
            let all = heard(paint_steps(job), false, data);
            let fits = job.w > 0 && job.h > 0 && job.x + job.w <= 320 && job.y + job.h <= 240
                && job.len == 2 * (job.w * job.h);
            &&& !fits ==> all.len() == 0
            &&& fits ==> {
                &&& all.len() == 6
                &&& all[0] == (false, seq![0x2Au8])
                &&& all[1].0 && names(all[1].1, job.x as int, job.x + job.w - 1)
                &&& all[2] == (false, seq![0x2Bu8])
                &&& all[3].0 && names(all[3].1, job.y as int, job.y + job.h - 1)
                &&& all[4] == (false, seq![0x2Cu8])
                &&& all[5].0 && all[5].1 == job.pixels_be@.take(job.len as int)
            }
        }),
{
    assert(job.w * job.h * 2 == 2 * (job.w * job.h)) by (nonlinear_arith);
    if job.paintable() {
        let s1 = window_steps(job.x as int, job.y as int, job.w as int, job.h as int);
        law_window_is_heard(
            job.x as int,
            job.y as int,
            job.w as int,
            job.h as int,
            false,
            data,
        );
        let s2 = command_steps(0x2C, seq![]);
        let (c1, d1) = lines(s1, false, data);
        law_command_is_heard(0x2C, seq![], c1, d1);
        lemma_heard_joined(s1, s2, false, data);
        let bytes = job.pixels_be@.take(job.len as int);
        let tail = seq![
            BusStep::CsLow,
            BusStep::DcHigh,
            BusStep::Write(bytes),
            BusStep::CsHigh,
        ];
        lemma_heard_joined(s1 + s2, tail, false, data);
        let (c2, d2) = lines(s1 + s2, false, data);
        assert(heard(tail, c2, d2) == seq![(true, bytes)]) by {
            reveal_with_fuel(heard, 5);
            assert(tail.drop_first()[0] == BusStep::DcHigh);
            assert(tail.drop_first().drop_first()[0] == BusStep::Write(bytes));
            assert(tail.drop_first().drop_first().drop_first()[0] == BusStep::CsHigh);
            assert(tail.drop_first().drop_first().drop_first().drop_first() =~= seq![]);
            assert(heard(tail, c2, d2) =~= seq![(true, bytes)]);
        }
    }
}

proof fn lemma_zeros_heard(n: nat)
    ensures
        heard(zero_chunks(n), true, true) == Seq::new(
            n,
            |i: int| (true, Seq::new(MAX_RECT_BYTES as nat, |j: int| 0u8)),
        ),
        lines(zero_chunks(n), true, true) == (true, true),
    decreases n,
{
    if n > 0 {
        lemma_zeros_heard((n - 1) as nat);
        assert(zero_chunks(n).drop_first() =~= zero_chunks((n - 1) as nat));
    }
    assert(heard(zero_chunks(n), true, true) =~= Seq::new(
        n,
        |i: int| (true, Seq::new(MAX_RECT_BYTES as nat, |j: int| 0u8)),
    ));
}

/// Clearing is heard as the window of the whole panel and then as two zeros for each
/// of its 76800 pixels, and nothing but zeros.
pub proof fn law_clear_is_heard(data: bool, i: int, j: int)
    requires
        5 <= i < 53,
        0 <= j < 3200,
    ensures
        ({
            let all = heard(clear_steps(), false, data);
            &&& all.len() == 53
            &&& all[0] == (false, seq![0x2Au8])
            &&& all[1].0 && names(all[1].1, 0, 319)
            &&& all[2] == (false, seq![0x2Bu8])
            &&& all[3].0 && names(all[3].1, 0, 239)
            &&& all[4] == (false, seq![0x2Cu8])
            &&& all[i].0 && all[i].1.len() == 3200 && all[i].1[j] == 0
            &&& (all.len() - 5) * all[i].1.len() == 2 * 76800
        }),
{
    let s1 = window_steps(0, 0, PANEL_W as int, PANEL_H as int);
    law_window_is_heard(0, 0, PANEL_W as int, PANEL_H as int, false, data);
    let s2 = command_steps(0x2C, seq![]);
    let (c1, d1) = lines(s1, false, data);
    law_command_is_heard(0x2C, seq![], c1, d1);
    lemma_heard_joined(s1, s2, false, data);
    let open = seq![BusStep::CsLow, BusStep::DcHigh];
    let (c2, d2) = lines(s1 + s2, false, data);
    lemma_heard_joined(s1 + s2, open, false, data);
    assert(heard(open, c2, d2) == Seq::<(bool, Seq<u8>)>::empty() && lines(open, c2, d2) == (
        true,
        true,
    )) by {
        reveal_with_fuel(heard, 3);
        reveal_with_fuel(lines, 3);
        assert(open.drop_first()[0] == BusStep::DcHigh);
        assert(open.drop_first().drop_first() =~= seq![]);
    }
    let zeros = zero_chunks(CLEAR_CHUNKS as nat);
    lemma_heard_joined(s1 + s2 + open, zeros, false, data);
    lemma_zeros_heard(CLEAR_CHUNKS as nat);
    let close = seq![BusStep::CsHigh];
    lemma_heard_joined(s1 + s2 + open + zeros, close, false, data);
    assert(heard(close, true, true) == Seq::<(bool, Seq<u8>)>::empty()) by {
        reveal_with_fuel(heard, 2);
        assert(close.drop_first() =~= seq![]);
    }
    let all = heard(clear_steps(), false, data);
    assert(all =~= heard(s1, false, data) + seq![(false, seq![0x2Cu8])] + heard(zeros, true, true));
}

} // verus!
