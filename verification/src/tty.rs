use vstd::prelude::*;

use crate::constants::Signal;

verus! {

/// Capacity of the input buffer, and the longest line that counts.
pub const BUFFER_SIZE: usize = 4096;
/// Tab stops are every `TAB_WIDTH` columns.
pub const TAB_WIDTH: usize = 8;

/// Number of control characters in a `Termios`.
pub const NCCS: usize = 19;

pub const VINTR: usize = 0;
pub const VQUIT: usize = 1;
pub const VERASE: usize = 2;
pub const VKILL: usize = 3;
pub const VEOF: usize = 4;
pub const VMIN: usize = 6;
pub const VSUSP: usize = 10;
pub const VEOL: usize = 11;
pub const VEOL2: usize = 16;

/// The terminal is open.
pub const ISOPEN: u32 = 0x01;
/// The line has carrier: reads may return data.
pub const CARR_ON: u32 = 0x02;

/// Sleep priority of a process waiting for terminal input.
pub const TTIPRI: u32 = 10;

/// Control-H, the backspace character.
pub const CTRL_H: u8 = 0x08;

/// Input mode flags.
pub struct TermioIFlags;

impl TermioIFlags {
    pub const IGNBRK: u16 = 0x0001;
    pub const BRKINT: u16 = 0x0002;
    pub const IGNPAR: u16 = 0x0004;
    pub const PARMRK: u16 = 0x0008;
    pub const INPCK: u16 = 0x0010;
    pub const ISTRIP: u16 = 0x0020;
    pub const INLCR: u16 = 0x0040;
    pub const IGNCR: u16 = 0x0080;
    pub const ICRNL: u16 = 0x0100;
    pub const IUCLC: u16 = 0x0200;
    pub const IXON: u16 = 0x0400;
    pub const IXANY: u16 = 0x0800;
    pub const IXOFF: u16 = 0x1000;
    pub const IMAXBEL: u16 = 0x2000;
    pub const IUTF8: u16 = 0x4000;
}

/// Output mode flags.
pub struct TermioOFlags;

impl TermioOFlags {
    pub const OPOST: u16 = 0x0001;
    pub const OLCUC: u16 = 0x0002;
    pub const ONLCR: u16 = 0x0004;
    pub const OCRNL: u16 = 0x0008;
    pub const ONOCR: u16 = 0x0010;
    pub const ONLRET: u16 = 0x0020;
    pub const OFILL: u16 = 0x0040;
    pub const OFDEL: u16 = 0x0080;
}

/// Local mode flags.
pub struct TermioLFlags;

impl TermioLFlags {
    pub const ISIG: u16 = 0x0001;
    pub const ICANON: u16 = 0x0002;
    pub const XCASE: u16 = 0x0004;
    pub const ECHO: u16 = 0x0008;
    pub const ECHOE: u16 = 0x0010;
    pub const ECHOK: u16 = 0x0020;
    pub const ECHONL: u16 = 0x0040;
    pub const NOFLSH: u16 = 0x0080;
    pub const TOSTOP: u16 = 0x0100;
    pub const ECHOCTL: u16 = 0x0200;
    pub const ECHOPRT: u16 = 0x0400;
    pub const ECHOKE: u16 = 0x0800;
    pub const FLUSHO: u16 = 0x1000;
    pub const PENDIN: u16 = 0x4000;
    pub const IEXTEN: u16 = 0x8000;
}

/// Terminal settings: mode flags and control characters.
#[derive(Clone, Copy, Debug)]
pub struct Termios {
    pub iflag: u16,
    pub oflag: u16,
    pub lflag: u16,
    pub cc: [u8; NCCS],
}

impl Termios {
    pub open spec fn has_l(&self, bit: u16) -> bool {
        self.lflag & bit != 0
    }

    pub open spec fn has_i(&self, bit: u16) -> bool {
        self.iflag & bit != 0
    }

    pub open spec fn has_o(&self, bit: u16) -> bool {
        self.oflag & bit != 0
    }

    pub open spec fn c(&self, idx: int) -> u8 {
        self.cc@[idx]
    }

    /// The end-of-file character.
    pub fn veof(&self) -> (r: u8)
        ensures
            r == self.c(VEOF as int),
    {
        self.cc[VEOF]
    }

    /// The end-of-line character.
    pub fn veol(&self) -> (r: u8)
        ensures
            r == self.c(VEOL as int),
    {
        self.cc[VEOL]
    }

    /// The second end-of-line character.
    pub fn veol2(&self) -> (r: u8)
        ensures
            r == self.c(VEOL2 as int),
    {
        self.cc[VEOL2]
    }

    /// The interrupt character.
    pub fn vintr(&self) -> (r: u8)
        ensures
            r == self.c(VINTR as int),
    {
        self.cc[VINTR]
    }

    /// The quit character.
    pub fn vquit(&self) -> (r: u8)
        ensures
            r == self.c(VQUIT as int),
    {
        self.cc[VQUIT]
    }

    /// The suspend character.
    pub fn vsusp(&self) -> (r: u8)
        ensures
            r == self.c(VSUSP as int),
    {
        self.cc[VSUSP]
    }

    /// The erase character.
    pub fn verase(&self) -> (r: u8)
        ensures
            r == self.c(VERASE as int),
    {
        self.cc[VERASE]
    }

    /// The line-kill character.
    pub fn vkill(&self) -> (r: u8)
        ensures
            r == self.c(VKILL as int),
    {
        self.cc[VKILL]
    }

    pub fn echo(&self) -> (r: bool)
        ensures
            r == self.has_l(TermioLFlags::ECHO),
    {
        self.lflag & TermioLFlags::ECHO != 0
    }

    pub fn echoe(&self) -> (r: bool)
        ensures
            r == self.has_l(TermioLFlags::ECHOE),
    {
        self.lflag & TermioLFlags::ECHOE != 0
    }

    pub fn echoctl(&self) -> (r: bool)
        ensures
            r == self.has_l(TermioLFlags::ECHOCTL),
    {
        self.lflag & TermioLFlags::ECHOCTL != 0
    }

    pub fn echoke(&self) -> (r: bool)
        ensures
            r == self.has_l(TermioLFlags::ECHOKE),
    {
        self.lflag & TermioLFlags::ECHOKE != 0
    }

    pub fn echok(&self) -> (r: bool)
        ensures
            r == self.has_l(TermioLFlags::ECHOK),
    {
        self.lflag & TermioLFlags::ECHOK != 0
    }

    pub fn echonl(&self) -> (r: bool)
        ensures
            r == self.has_l(TermioLFlags::ECHONL),
    {
        self.lflag & TermioLFlags::ECHONL != 0
    }

    pub fn isig(&self) -> (r: bool)
        ensures
            r == self.has_l(TermioLFlags::ISIG),
    {
        self.lflag & TermioLFlags::ISIG != 0
    }

    pub fn icanon(&self) -> (r: bool)
        ensures
            r == self.has_l(TermioLFlags::ICANON),
    {
        self.lflag & TermioLFlags::ICANON != 0
    }

    pub fn iexten(&self) -> (r: bool)
        ensures
            r == self.has_l(TermioLFlags::IEXTEN),
    {
        self.lflag & TermioLFlags::IEXTEN != 0
    }

    pub fn igncr(&self) -> (r: bool)
        ensures
            r == self.has_i(TermioIFlags::IGNCR),
    {
        self.iflag & TermioIFlags::IGNCR != 0
    }

    pub fn icrnl(&self) -> (r: bool)
        ensures
            r == self.has_i(TermioIFlags::ICRNL),
    {
        self.iflag & TermioIFlags::ICRNL != 0
    }

    pub fn inlcr(&self) -> (r: bool)
        ensures
            r == self.has_i(TermioIFlags::INLCR),
    {
        self.iflag & TermioIFlags::INLCR != 0
    }

    pub fn noflsh(&self) -> (r: bool)
        ensures
            r == self.has_l(TermioLFlags::NOFLSH),
    {
        self.lflag & TermioLFlags::NOFLSH != 0
    }

    pub fn onlcr(&self) -> (r: bool)
        ensures
            r == self.has_o(TermioOFlags::ONLCR),
    {
        self.oflag & TermioOFlags::ONLCR != 0
    }

    /// The standard settings: canonical input with echo and signals,
    /// CR read as NL, NL written as CR NL; ^C interrupts, ^\ quits, DEL erases,
    /// ^U kills the line, ^D ends the input, ^Z suspends.
    pub open spec fn is_standard(&self) -> bool {
        &&& self.iflag == TermioIFlags::ICRNL | TermioIFlags::IXOFF
        &&& self.oflag == TermioOFlags::OPOST | TermioOFlags::ONLCR
        &&& self.lflag == TermioLFlags::ISIG | TermioLFlags::ICANON | TermioLFlags::ECHO
            | TermioLFlags::ECHOE | TermioLFlags::ECHOK | TermioLFlags::ECHOCTL
            | TermioLFlags::ECHOKE | TermioLFlags::IEXTEN
        &&& forall|i: int|
            0 <= i < NCCS ==> #[trigger] self.cc@[i] == (if i == VINTR {
                0x03u8
            } else if i == VQUIT {
                0x1cu8
            } else if i == VERASE {
                0x7fu8
            } else if i == VKILL {
                0x15u8
            } else if i == VEOF {
                0x04u8
            } else if i == VSUSP {
                0x1au8
            } else if i == VMIN {
                1u8
            } else {
                0u8
            })
    }

    /// The standard settings (see `is_standard`).
    pub fn new_standard() -> (r: Self)
        ensures
            r.is_standard(),
    {
        let mut cc = [0u8; NCCS];
        cc[VINTR] = 0x03;
        cc[VQUIT] = 0x1c;
        cc[VERASE] = 0x7f;
        cc[VKILL] = 0x15;
        cc[VEOF] = 0x04;
        cc[VSUSP] = 0x1a;
        cc[VMIN] = 1;
        Self {
            iflag: TermioIFlags::ICRNL | TermioIFlags::IXOFF,
            oflag: TermioOFlags::OPOST | TermioOFlags::ONLCR,
            lflag: TermioLFlags::ISIG | TermioLFlags::ICANON | TermioLFlags::ECHO
                | TermioLFlags::ECHOE | TermioLFlags::ECHOK | TermioLFlags::ECHOCTL
                | TermioLFlags::ECHOKE | TermioLFlags::IEXTEN,
            cc,
        }
    }
}

/// The bytes sent to the line for output character `ch` at column `col`, and the column after.
pub open spec fn out_char(col: nat, onlcr: bool, ch: u8) -> (Seq<u8>, nat) {
    if ch == 10 && onlcr {
        (seq![13u8, 10u8], 0)
    } else if ch == 9 {
        let spaces = (TAB_WIDTH - col % (TAB_WIDTH as nat)) as nat;
        (Seq::new(spaces, |i: int| 32u8), col + spaces)
    } else if ch == CTRL_H {
        (seq![ch], if col > 0 { (col - 1) as nat } else { 0 })
    } else if ch == 13 {
        (seq![ch], 0)
    } else {
        (seq![ch], col + 1)
    }
}

/// The bytes sent to the line for output characters `data` from column `col`, and the column after.
pub open spec fn out_bytes(col: nat, onlcr: bool, data: Seq<u8>) -> (Seq<u8>, nat)
    decreases data.len(),
{
    if data.len() == 0 {
        (Seq::empty(), col)
    } else {
        let (o, c) = out_char(col, onlcr, data[0]);
        let (o2, c2) = out_bytes(c, onlcr, data.drop_first());
        (o + o2, c2)
    }
}

/// The characters written to echo input character `ch`: control characters as `^X`
/// when echo, echoctl and iexten are all on, everything else as itself.
pub open spec fn echo_chars(t: Termios, ch: u8) -> Seq<u8> {
    if ch == 9 || ch == 10 || ch == 0x11 || ch == 0x13 || ch >= 32 || !t.has_l(
        TermioLFlags::ECHO,
    ) || !t.has_l(TermioLFlags::ECHOCTL) || !t.has_l(TermioLFlags::IEXTEN) {
        seq![ch]
    } else {
        seq![94u8, (ch + 0x40) as u8]
    }
}

/// A character that ends a line for the purpose of erasing: NL, EOF, EOL, EOL2 or NUL.
pub open spec fn is_line_delim(t: Termios, ch: u8) -> bool {
    ch == 10 || ch == t.c(VEOF as int) || ch == t.c(VEOL as int) || ch == t.c(VEOL2 as int)
        || ch == 0
}

/// Number of characters at the end of `buf` that follow the last line delimiter.
pub open spec fn line_tail(t: Termios, buf: Seq<u8>) -> nat
    decreases buf.len(),
{
    if buf.len() == 0 || is_line_delim(t, buf.last()) {
        0
    } else {
        1 + line_tail(t, buf.drop_last())
    }
}

/// The echo of erasing one character: back, blank, back.
pub open spec fn erase_echo() -> Seq<u8> {
    seq![CTRL_H, 32u8, CTRL_H]
}

/// `n` erase echoes.
pub open spec fn erase_echoes(n: nat) -> Seq<u8>
    decreases n,
{
    if n == 0 {
        Seq::empty()
    } else {
        erase_echoes((n - 1) as nat) + erase_echo()
    }
}

/// Index of the first NL or NUL in `s`, or its length.
pub open spec fn first_line_end(s: Seq<u8>) -> nat
    decreases s.len(),
{
    if s.len() == 0 {
        0
    } else if s[0] == 10 || s[0] == 0 {
        0
    } else {
        1 + first_line_end(s.drop_first())
    }
}

/// Index of the first NUL in `s`, or its length.
pub open spec fn first_nul(s: Seq<u8>) -> nat
    decreases s.len(),
{
    if s.len() == 0 {
        0
    } else if s[0] == 0 {
        0
    } else {
        1 + first_nul(s.drop_first())
    }
}

/// The abstract state of a terminal.
pub ghost struct TtyView {
    pub termio: Termios,
    /// Input typed but not yet read.
    pub buffer: Seq<u8>,
    /// Length of the line being typed.
    pub line_len: nat,
    pub state: u32,
    /// Column of the cursor on the screen.
    pub column: nat,
    /// Bytes sent to the line and not yet handed to the serial port.
    pub output: Seq<u8>,
    /// Signals raised by typed characters, oldest first, not yet delivered.
    pub signals: Seq<Signal>,
    /// Processes waiting for input must be woken.
    pub woken: bool,
}

/// The channel the terminal's readers sleep on (apart from the scheduler's channels
/// `RUNOUT_CHAN`, `RUNIN_CHAN` and `EXEC_CHAN`).
pub const TTY_READ_CHAN: usize = 4;

/// The console terminal: line discipline between the serial line and readers.
///
/// What the terminal sends to the line, the signals it raises and its wakeups of
/// readers are collected here; the caller hands them to the serial port and the
/// process manager.
pub struct Tty {
    termio: Termios,
    buffer: Vec<u8>,
    line_len: usize,
    state: u32,
    column: usize,
    output: Vec<u8>,
    signals: Vec<Signal>,
    woken: bool,
}

impl View for Tty {
    type V = TtyView;

    closed spec fn view(&self) -> TtyView {
        TtyView {
            termio: self.termio,
            buffer: self.buffer@,
            line_len: self.line_len as nat,
            state: self.state,
            column: self.column as nat,
            output: self.output@,
            signals: self.signals@,
            woken: self.woken,
        }
    }
}

/// What reading the terminal's available input leaves (see `Tty::read_available`): the
/// terminal `v1` and the buffer `out1` after a read into `out0` from terminal `v0`, and
/// the result `r`.
pub open spec fn read_outcome(v0: TtyView, out0: Seq<u8>, v1: TtyView, out1: Seq<u8>, r: Option<usize>) -> bool {
    let b = v0.buffer;
    let canon = v0.termio.has_l(TermioLFlags::ICANON);
    let e = first_line_end(b);
    let m = out0.len();
    let length: int = if canon {
        if e < b.len() { e + 1int } else { 0int }
    } else {
        if m < b.len() { m as int } else { b.len() as int }
    };
    let limit: int = if length < m { length } else { m as int };
    let z = first_nul(b.take(limit));
    let nread: int = if canon {
        if limit == e + 1 && b[e as int] == 0 { e as int } else { limit }
    } else {
        z as int
    };
    let consumed: int = if canon {
        limit
    } else if z < limit {
        z + 1int
    } else {
        limit
    };
    &&& out1.len() == out0.len()
    &&& v0.state & CARR_ON == 0 ==> r == Some(0usize) && v1 == v0 && out1 == out0
    &&& v0.state & CARR_ON != 0 && b.len() == 0 ==> r is None && v1 == v0 && out1 == out0
    &&& v0.state & CARR_ON != 0 && b.len() > 0 && length == 0 ==> r is None && v1 == v0 && out1 == out0
    &&& v0.state & CARR_ON != 0 && b.len() > 0 && length > 0 ==> {
        &&& r == Some(nread as usize)
        &&& v1 == (TtyView { buffer: b.skip(consumed), ..v0 })
        &&& out1.take(nread) == b.take(nread)
        &&& out1.skip(nread) == out0.skip(nread)
    }
}

/// The terminal after `data` is written to it (see `Tty::write`).
pub open spec fn after_write(v: TtyView, data: Seq<u8>) -> TtyView {
    TtyView {
        output: v.output + out_bytes(v.column, v.termio.has_o(TermioOFlags::ONLCR), data).0,
        column: out_bytes(v.column, v.termio.has_o(TermioOFlags::ONLCR), data).1,
        ..v
    }
}

/// The view after output character `ch` is sent.
pub open spec fn after_out_char(v: TtyView, ch: u8) -> TtyView {
    let (o, c) = out_char(v.column, v.termio.has_o(TermioOFlags::ONLCR), ch);
    TtyView { output: v.output + o, column: c, ..v }
}

/// The view after `ch` is echoed.
pub open spec fn after_echo(v: TtyView, ch: u8) -> TtyView {
    let e = echo_chars(v.termio, ch);
    if e.len() == 1 {
        after_out_char(v, e[0])
    } else {
        after_out_char(after_out_char(v, e[0]), e[1])
    }
}

/// The view after `sig` is raised by a typed character (the input is flushed unless NOFLSH).
pub open spec fn after_signal(v: TtyView, sig: Signal) -> TtyView {
    let v1 = if !v.termio.has_l(TermioLFlags::NOFLSH) {
        TtyView { buffer: Seq::empty(), line_len: 0, ..v }
    } else {
        v
    };
    TtyView { signals: v1.signals.push(sig), ..v1 }
}

/// The view after `n` characters are erased from the line being typed.
pub open spec fn after_erase_n(v: TtyView, n: nat, echo: bool) -> TtyView {
    let do_echo = echo && v.termio.has_l(TermioLFlags::ECHO) && v.termio.has_l(
        TermioLFlags::ECHOE,
    );
    TtyView {
        buffer: v.buffer.take(v.buffer.len() - n),
        line_len: if v.line_len >= n { (v.line_len - n) as nat } else { 0 },
        output: if do_echo { v.output + erase_echoes(n) } else { v.output },
        column: if do_echo { if v.column >= n { (v.column - n) as nat } else { 0 } } else { v.column },
        ..v
    }
}

/// The view after a typed character `ch` is committed to the input.
pub open spec fn after_commit(v: TtyView, ch: u8) -> TtyView {
    let icanon = v.termio.has_l(TermioLFlags::ICANON);
    let v1 = TtyView {
        line_len: if icanon && v.line_len < BUFFER_SIZE { v.line_len + 1 } else { v.line_len },
        buffer: v.buffer.push(ch),
        ..v
    };
    let v2 = if v.termio.has_l(TermioLFlags::ECHO) || (ch == 10 && v.termio.has_l(
        TermioLFlags::ECHONL,
    )) {
        after_echo(v1, ch)
    } else {
        v1
    };
    if ch == 10 {
        TtyView { line_len: 0, woken: true, ..v2 }
    } else if !icanon {
        TtyView { woken: true, ..v2 }
    } else {
        v2
    }
}

/// The view after the typed character `ch` is handled by the line discipline.
pub open spec fn after_input(v: TtyView, ch: u8) -> TtyView {
    let t = v.termio;
    let isig = t.has_l(TermioLFlags::ISIG);
    let icanon = t.has_l(TermioLFlags::ICANON);
    if ch == 9 {
        v
    } else if isig && ch != 0xff && ch == t.c(VINTR as int) {
        after_signal(after_echo(v, ch), Signal::SIGINT)
    } else if isig && ch != 0xff && ch == t.c(VQUIT as int) {
        after_signal(after_echo(v, ch), Signal::SIGQUIT)
    } else if isig && ch != 0xff && ch == t.c(VSUSP as int) {
        after_signal(after_echo(v, ch), Signal::SIGTSTP)
    } else if icanon && ch != 0xff && ch == t.c(VEOF as int) {
        TtyView { buffer: v.buffer.push(0), line_len: 0, woken: true, ..v }
    } else if icanon && ch != 0xff && (ch == t.c(VERASE as int) || ch == CTRL_H) {
        after_erase_n(v, if line_tail(t, v.buffer) > 0 { 1 } else { 0 }, true)
    } else if icanon && ch != 0xff && ch == t.c(VKILL as int) {
        let n = line_tail(t, v.buffer);
        if t.has_l(TermioLFlags::ECHOK) {
            let v1 = after_erase_n(v, n, false);
            TtyView { output: v1.output.push(10), column: 0, ..v1 }
        } else if t.has_l(TermioLFlags::ECHOKE) && t.has_l(TermioLFlags::IEXTEN) {
            after_erase_n(v, n, true)
        } else {
            after_erase_n(v, n, false)
        }
    } else if ch == 13 && t.has_i(TermioIFlags::IGNCR) {
        v
    } else if ch == 13 && t.has_i(TermioIFlags::ICRNL) {
        after_commit(v, 10)
    } else if ch == 10 && t.has_i(TermioIFlags::INLCR) {
        after_commit(v, 13)
    } else {
        after_commit(v, ch)
    }
}

/// With the standard settings, a printable character typed is queued as it is, and a
/// carriage return is queued as a newline that completes the line (readers are woken);
/// either way the state, the settings and the pending signals are kept.
pub proof fn law_input_printable_or_return(v: TtyView, ch: u8)
    requires
        v.termio.is_standard(),
        (0x20 <= ch <= 0x7e) || ch == 13,
    ensures
        ({
            let w = after_input(v, ch);
            &&& ch != 13 ==> w.buffer == v.buffer.push(ch)
            &&& ch == 13 ==> w.buffer == v.buffer.push(10) && w.line_len == 0 && w.woken
            &&& w.state == v.state && w.termio == v.termio && w.signals == v.signals
        }),
{
    let t = v.termio;
    let l = t.lflag;
    let i = t.iflag;
    assert(l & 0x0001u16 != 0 && l & 0x0002u16 != 0 && l & 0x0008u16 != 0) by (bit_vector)
        requires l == 0x0001u16 | 0x0002u16 | 0x0008u16 | 0x0010u16 | 0x0020u16 | 0x0200u16 | 0x0800u16 | 0x8000u16;
    assert(i & 0x0080u16 == 0 && i & 0x0100u16 != 0) by (bit_vector)
        requires i == 0x0100u16 | 0x1000u16;
    assert(t.c(VINTR as int) == 3 && t.c(VQUIT as int) == 0x1c && t.c(VSUSP as int) == 0x1a);
    assert(t.c(VEOF as int) == 4 && t.c(VERASE as int) == 0x7f && t.c(VKILL as int) == 0x15);
}

/// Writing to the terminal leaves its input alone: the queue, the line being typed, the
/// state, the settings and the pending signals are kept; only the output and the column
/// change.
pub proof fn law_write_keeps_input(v: TtyView, data: Seq<u8>)
    ensures
        ({
            let w = after_write(v, data);
            &&& w.buffer == v.buffer && w.line_len == v.line_len && w.state == v.state
            &&& w.termio == v.termio && w.signals == v.signals && w.woken == v.woken
        }),
{
}

/// With the standard settings, the kill character (^U) discards the line being typed:
/// the queue keeps exactly what came up to the last line delimiter (so no partly typed
/// line is left), and a newline is echoed; the state, the settings and the pending
/// signals are kept.
pub proof fn law_kill_discards_the_line(v: TtyView)
    requires
        v.termio.is_standard(),
    ensures
        ({
            let w = after_input(v, 0x15);
            let keep = v.buffer.len() - line_tail(v.termio, v.buffer);
            &&& 0 <= keep <= v.buffer.len()
            &&& w.buffer == v.buffer.take(keep)
            &&& w.buffer.len() == 0 || is_line_delim(v.termio, w.buffer.last())
            &&& line_tail(w.termio, w.buffer) == 0
            &&& w.output == v.output.push(10) && w.column == 0
            &&& w.state == v.state && w.termio == v.termio && w.signals == v.signals
        }),
{
    let t = v.termio;
    let l = t.lflag;
    assert(l & 0x0002u16 != 0 && l & 0x0020u16 != 0) by (bit_vector)
        requires l == 0x0001u16 | 0x0002u16 | 0x0008u16 | 0x0010u16 | 0x0020u16 | 0x0200u16 | 0x0800u16 | 0x8000u16;
    assert(t.c(VINTR as int) == 3 && t.c(VQUIT as int) == 0x1c && t.c(VSUSP as int) == 0x1a);
    assert(t.c(VEOF as int) == 4 && t.c(VERASE as int) == 0x7f && t.c(VKILL as int) == 0x15);
    lemma_line_tail_bound(t, v.buffer);
    lemma_line_tail_take(t, v.buffer);
}

/// Cutting the characters after the last line delimiter leaves a buffer that is empty or
/// ends with a delimiter.
proof fn lemma_line_tail_take(t: Termios, buf: Seq<u8>)
    ensures
        ({
            let b = buf.take(buf.len() - line_tail(t, buf));
            &&& line_tail(t, b) == 0
            &&& b.len() == 0 || is_line_delim(t, b.last())
        }),
    decreases buf.len(),
{
    lemma_line_tail_bound(t, buf);
    let n = line_tail(t, buf);
    if n == 0 {
        assert(buf.take(buf.len() as int) =~= buf);
    } else {
        let d = buf.drop_last();
        lemma_line_tail_take(t, d);
        assert(buf.take(buf.len() - n) =~= d.take(d.len() - line_tail(t, d)));
    }
}

proof fn lemma_line_tail_bound(t: Termios, buf: Seq<u8>)
    ensures
        line_tail(t, buf) <= buf.len(),
        line_tail(t, buf) > 0 ==> !is_line_delim(t, buf.last()),
        line_tail(t, buf) > 0 ==> line_tail(t, buf.drop_last()) == line_tail(t, buf) - 1,
    decreases buf.len(),
{
    if buf.len() > 0 && !is_line_delim(t, buf.last()) {
        lemma_line_tail_bound(t, buf.drop_last());
    }
}

proof fn lemma_first_line_end(s: Seq<u8>)
    ensures
        first_line_end(s) <= s.len(),
        forall|j: int| 0 <= j < first_line_end(s) ==> #[trigger] s[j] != 10 && s[j] != 0,
        first_line_end(s) < s.len() ==> (s[first_line_end(s) as int] == 10 || s[first_line_end(
            s,
        ) as int] == 0),
    decreases s.len(),
{
    if s.len() > 0 && s[0] != 10 && s[0] != 0 {
        lemma_first_line_end(s.drop_first());
        assert forall|j: int| 0 <= j < first_line_end(s) implies #[trigger] s[j] != 10 && s[j]
            != 0 by {
            if j > 0 {
                assert(s[j] == s.drop_first()[j - 1]);
            }
        }
    }
}

proof fn lemma_first_nul(s: Seq<u8>)
    ensures
        first_nul(s) <= s.len(),
        forall|j: int| 0 <= j < first_nul(s) ==> #[trigger] s[j] != 0,
        first_nul(s) < s.len() ==> s[first_nul(s) as int] == 0,
    decreases s.len(),
{
    if s.len() > 0 && s[0] != 0 {
        lemma_first_nul(s.drop_first());
        assert forall|j: int| 0 <= j < first_nul(s) implies #[trigger] s[j] != 0 by {
            if j > 0 {
                assert(s[j] == s.drop_first()[j - 1]);
            }
        }
    }
}

/// Characters `0..k` of `s` are neither NL nor NUL: then the first line end is at or after `k`.
proof fn lemma_first_line_end_at_least(s: Seq<u8>, k: int)
    requires
        0 <= k <= s.len(),
        forall|j: int| 0 <= j < k ==> #[trigger] s[j] != 10 && s[j] != 0,
    ensures
        first_line_end(s) >= k,
    decreases k,
{
    if k > 0 {
        assert(s.drop_first().len() == s.len() - 1);
        assert forall|j: int| 0 <= j < k - 1 implies #[trigger] s.drop_first()[j] != 10
            && s.drop_first()[j] != 0 by {
            assert(s.drop_first()[j] == s[j + 1]);
        }
        lemma_first_line_end_at_least(s.drop_first(), k - 1);
    }
}

proof fn lemma_first_nul_at_least(s: Seq<u8>, k: int)
    requires
        0 <= k <= s.len(),
        forall|j: int| 0 <= j < k ==> #[trigger] s[j] != 0,
    ensures
        first_nul(s) >= k,
    decreases k,
{
    if k > 0 {
        assert forall|j: int| 0 <= j < k - 1 implies #[trigger] s.drop_first()[j] != 0 by {
            assert(s.drop_first()[j] == s[j + 1]);
        }
        lemma_first_nul_at_least(s.drop_first(), k - 1);
    }
}

impl Tty {
    /// A closed terminal with the standard settings and nothing typed.
    pub fn new() -> (r: Self)
        ensures
            r@.termio.is_standard(),
            r@.buffer == Seq::<u8>::empty(),
            r@.line_len == 0,
            r@.state == 0,
            r@.column == 0,
            r@.output == Seq::<u8>::empty(),
            r@.signals == Seq::<Signal>::empty(),
            !r@.woken,
    {
        Tty {
            termio: Termios::new_standard(),
            buffer: Vec::new(),
            line_len: 0,
            state: 0,
            column: 0,
            output: Vec::new(),
            signals: Vec::new(),
            woken: false,
        }
    }

    /// Opens the terminal: the first open turns on the carrier and resets the settings.
    pub fn open(&mut self)
        ensures
            old(self)@.state & ISOPEN == 0 ==> final(self)@ == (TtyView {
                state: ISOPEN | CARR_ON,
                termio: final(self)@.termio,
                ..old(self)@
            }) && final(self)@.termio.is_standard(),
            old(self)@.state & ISOPEN != 0 ==> final(self)@ == old(self)@,
    {
        if self.state & ISOPEN == 0 {
            self.state = ISOPEN | CARR_ON;
            self.termio = Termios::new_standard();
        }
    }

    /// Forgets everything typed.
    fn clear_read_buffer(&mut self)
        ensures
            final(self)@ == (TtyView { buffer: Seq::empty(), line_len: 0, ..old(self)@ }),
    {
        self.buffer.clear();
        self.line_len = 0;
    }

    /// Hands bytes to the line.
    fn write_direct(&mut self, data: &[u8])
        ensures
            final(self)@ == (TtyView { output: old(self)@.output + data@, ..old(self)@ }),
    {
        let mut i: usize = 0;
        while i < data.len()
            invariant
                i <= data@.len(),
                self@ == (TtyView { output: old(self)@.output + data@.take(i as int), ..old(self)@ }),
            decreases data@.len() - i,
        {
            self.output.push(data[i]);
            i = i + 1;
            assert(data@.take(i as int) == data@.take(i - 1).push(data@[i - 1]));
        }
        assert(data@.take(data@.len() as int) == data@);
    }

    /// Sends an output character, expanding NL and tabs and tracking the column.
    fn write_output(&mut self, ch: u8)
        requires
            old(self)@.column + TAB_WIDTH <= usize::MAX,
        ensures
            final(self)@ == after_out_char(old(self)@, ch),
    {
        if ch == 10 && self.termio.onlcr() {
            self.write_direct(&[13u8, 10u8]);
            self.column = 0;
            assert(seq![13u8, 10u8] =~= [13u8, 10u8]@);
        } else if ch == 9 {
            let spaces = TAB_WIDTH - (self.column % TAB_WIDTH);
            let ghost v0 = self@;
            let mut k: usize = 0;
            while k < spaces
                invariant
                    k <= spaces,
                    spaces == TAB_WIDTH - v0.column % (TAB_WIDTH as nat),
                    v0.column + TAB_WIDTH <= usize::MAX,
                    self@ == (TtyView {
                        output: v0.output + Seq::new(k as nat, |i: int| 32u8),
                        column: (v0.column + k) as nat,
                        ..v0
                    }),
                decreases spaces - k,
            {
                self.write_direct(&[32u8]);
                self.column = self.column + 1;
                k = k + 1;
                assert((v0.output + Seq::new((k - 1) as nat, |i: int| 32u8)) + [32u8]@ =~= v0.output
                    + Seq::new(k as nat, |i: int| 32u8));
            }
        } else if ch == CTRL_H {
            self.write_direct(&[ch]);
            self.column = self.column.saturating_sub(1);
            assert(seq![ch] =~= [ch]@);
        } else if ch == 13 {
            self.write_direct(&[ch]);
            self.column = 0;
            assert(seq![ch] =~= [ch]@);
        } else {
            self.write_direct(&[ch]);
            self.column = self.column + 1;
            assert(seq![ch] =~= [ch]@);
        }
    }

    /// Writes `data` to the terminal; returns the number of bytes taken (all of them).
    pub fn write(&mut self, data: &[u8]) -> (r: usize)
        requires
            old(self)@.column + TAB_WIDTH * data@.len() + TAB_WIDTH <= usize::MAX,
        ensures
            r == data@.len(),
            final(self)@ == after_write(old(self)@, data@),
    {
        let ghost v0 = self@;
        let ghost onlcr = v0.termio.has_o(TermioOFlags::ONLCR);
        let mut i: usize = 0;
        while i < data.len()
            invariant
                i <= data@.len(),
                v0.column + TAB_WIDTH * data@.len() + TAB_WIDTH <= usize::MAX,
                self@.column <= v0.column + TAB_WIDTH * i,
                onlcr == v0.termio.has_o(TermioOFlags::ONLCR),
                ({
                    let (o, c) = out_bytes(v0.column, onlcr, data@.take(i as int));
                    self@ == (TtyView { output: v0.output + o, column: c, ..v0 })
                }),
            decreases data@.len() - i,
        {
            let ch = data[i];
            let ghost before = self@;
            self.write_output(ch);
            proof {
                lemma_out_bytes_snoc(v0.column, onlcr, data@.take(i as int), ch);
                assert(data@.take(i + 1) == data@.take(i as int).push(ch));
                let (o, c) = out_bytes(v0.column, onlcr, data@.take(i as int));
                let (o2, c2) = out_char(c, onlcr, ch);
                assert((v0.output + o) + o2 =~= v0.output + (o + o2));
            }
            i = i + 1;
        }
        assert(data@.take(data@.len() as int) == data@);
        data.len()
    }

    /// Erases the last character of the line being typed, echoing the erasure when
    /// `echo` is set and the ECHO and ECHOE flags are on; `None` when the line is empty.
    fn erase(&mut self, echo: bool) -> (r: Option<u8>)
        requires
            old(self)@.column + TAB_WIDTH <= usize::MAX,
        ensures
            line_tail(old(self)@.termio, old(self)@.buffer) == 0 ==> r is None && final(self)@
                == old(self)@,
            line_tail(old(self)@.termio, old(self)@.buffer) > 0 ==> r == Some(
                old(self)@.buffer.last(),
            ) && final(self)@ == after_erase_n(old(self)@, 1, echo),
    {
        proof {
            lemma_line_tail_bound(self@.termio, self@.buffer);
        }
        let n = self.buffer.len();
        if n == 0 {
            return None;
        }
        let back = self.buffer[n - 1];
        if back == 10 || back == self.termio.veof() || back == self.termio.veol()
            || back == self.termio.veol2() || back == 0 {
            return None;
        }
        let ghost v0 = self@;
        let popped = self.buffer.pop();
        self.line_len = self.line_len.saturating_sub(1);
        assert(self.buffer@ == v0.buffer.take(v0.buffer.len() - 1));
        if echo && self.termio.echo() && self.termio.echoe() {
            self.erase_width(1);
            assert(erase_echoes(0) == Seq::<u8>::empty());
            assert(erase_echoes(1) =~= erase_echo());
        }
        popped
    }

    /// Erases `width` characters on the screen.
    fn erase_width(&mut self, width: usize)
        ensures
            final(self)@ == (TtyView {
                output: old(self)@.output + erase_echoes(width as nat),
                column: if old(self)@.column >= width { (old(self)@.column - width) as nat } else { 0 },
                ..old(self)@
            }),
    {
        let mut k: usize = 0;
        while k < width
            invariant
                k <= width,
                self@ == (TtyView {
                    output: old(self)@.output + erase_echoes(k as nat),
                    column: if old(self)@.column >= k { (old(self)@.column - k) as nat } else { 0 },
                    ..old(self)@
                }),
            decreases width - k,
        {
            self.write_direct(&[CTRL_H, 32u8, CTRL_H]);
            self.column = self.column.saturating_sub(1);
            k = k + 1;
            assert([CTRL_H, 32u8, CTRL_H]@ =~= erase_echo());
            assert(old(self)@.output + erase_echoes((k - 1) as nat) + erase_echo() =~= old(
                self,
            )@.output + erase_echoes(k as nat));
        }
    }

    /// Erases back to the start of the line being typed.
    fn erase_line(&mut self, echo: bool)
        requires
            old(self)@.column + TAB_WIDTH <= usize::MAX,
        ensures
            final(self)@ == after_erase_n(
                old(self)@,
                line_tail(old(self)@.termio, old(self)@.buffer),
                echo,
            ),
    {
        let ghost v0 = self@;
        let ghost n0 = line_tail(v0.termio, v0.buffer);
        proof {
            lemma_line_tail_bound(v0.termio, v0.buffer);
        }
        let ghost mut k: nat = 0;
        assert(v0.buffer.take(v0.buffer.len() as int) =~= v0.buffer);
        assert(v0.output + erase_echoes(0) =~= v0.output);
        loop
            invariant
                k <= n0,
                n0 == line_tail(v0.termio, v0.buffer),
                n0 <= v0.buffer.len(),
                self@ == after_erase_n(v0, k, echo),
                line_tail(v0.termio, self@.buffer) == n0 - k,
                self@.column <= v0.column,
                v0.column + TAB_WIDTH <= usize::MAX,
            ensures
                self@ == after_erase_n(v0, n0, echo),
            decreases n0 - k,
        {
            let ghost prev = self@;
            proof {
                lemma_line_tail_bound(v0.termio, prev.buffer);
            }
            let r = self.erase(echo);
            if r.is_none() {
                assert(k == n0);
                break;
            }
            proof {
                assert(prev.buffer.take(prev.buffer.len() - 1) =~= v0.buffer.take(
                    v0.buffer.len() - (k + 1),
                ));
                assert(prev.buffer.drop_last() =~= prev.buffer.take(prev.buffer.len() - 1));
                assert(v0.output + erase_echoes(k) + erase_echoes(1) =~= v0.output
                    + erase_echoes(k + 1)) by {
                    assert(erase_echoes(0) == Seq::<u8>::empty());
                    assert(erase_echoes(1) =~= erase_echo());
                }
                k = k + 1;
            }
        }
    }

    /// Echoes a typed character.
    fn echo_char(&mut self, ch: u8)
        requires
            old(self)@.column + 2 * TAB_WIDTH <= usize::MAX,
        ensures
            final(self)@ == after_echo(old(self)@, ch),
            final(self)@.column <= old(self)@.column + 2 * TAB_WIDTH,
    {
        if ch == 9 || ch == 10 || ch == 0x11 || ch == 0x13 || ch >= 32 || !self.termio.echo()
            || !self.termio.echoctl() || !self.termio.iexten() {
            self.write_output(ch);
        } else {
            self.write_output(94u8);
            self.write_output(ch + 0x40);
        }
    }

    /// Raises `signal` for the typed character; the input is flushed unless NOFLSH.
    fn signal(&mut self, signal: Signal)
        ensures
            final(self)@ == after_signal(old(self)@, signal),
    {
        if !self.termio.noflsh() {
            self.clear_read_buffer();
        }
        self.signals.push(signal);
    }

    fn echo_and_signal(&mut self, ch: u8, signal: Signal)
        requires
            old(self)@.column + 2 * TAB_WIDTH <= usize::MAX,
        ensures
            final(self)@ == after_signal(after_echo(old(self)@, ch), signal),
    {
        self.echo_char(ch);
        self.signal(signal);
    }

    /// Readers sleeping on the terminal must be woken.
    fn wakeup_readers(&mut self)
        ensures
            final(self)@ == (TtyView { woken: true, ..old(self)@ }),
    {
        self.woken = true;
    }

    /// Adds a typed character to the input, echoing it and waking readers at the end of a line.
    fn do_commit_char(&mut self, ch: u8)
        requires
            old(self)@.column + 2 * TAB_WIDTH <= usize::MAX,
        ensures
            final(self)@ == after_commit(old(self)@, ch),
    {
        if self.termio.icanon() {
            if self.line_len < BUFFER_SIZE {
                self.line_len = self.line_len + 1;
            }
        }
        self.buffer.push(ch);
        if self.termio.echo() || (ch == 10 && self.termio.echonl()) {
            self.echo_char(ch);
        }
        if ch == 10 {
            self.line_len = 0;
            self.wakeup_readers();
        } else if !self.termio.icanon() {
            self.wakeup_readers();
        }
    }

    /// Handles one character typed on the terminal.
    pub fn input(&mut self, ch: u8)
        requires
            old(self)@.column + 2 * TAB_WIDTH <= usize::MAX,
        ensures
            final(self)@ == after_input(old(self)@, ch),
    {
        proof {
            lemma_line_tail_bound(self@.termio, self@.buffer);
        }
        if ch == 9 {
            return;
        }
        if self.termio.isig() && ch != 0xff {
            if ch == self.termio.vintr() {
                self.echo_and_signal(ch, Signal::SIGINT);
                return;
            } else if ch == self.termio.vquit() {
                self.echo_and_signal(ch, Signal::SIGQUIT);
                return;
            } else if ch == self.termio.vsusp() {
                self.echo_and_signal(ch, Signal::SIGTSTP);
                return;
            }
        }
        if self.termio.icanon() && ch != 0xff {
            if ch == self.termio.veof() {
                self.buffer.push(0);
                self.line_len = 0;
                self.wakeup_readers();
                return;
            } else if ch == self.termio.verase() || ch == CTRL_H {
                let ghost v0 = self@;
                self.erase(true);
                proof {
                    if line_tail(v0.termio, v0.buffer) == 0 {
                        assert(v0.buffer.take(v0.buffer.len() as int) =~= v0.buffer);
                        assert(erase_echoes(0) == Seq::<u8>::empty());
                        assert(v0.output + erase_echoes(0) =~= v0.output);
                        assert(after_erase_n(v0, 0, true) == v0);
                    }
                }
                return;
            } else if ch == self.termio.vkill() {
                if self.termio.echok() {
                    let ghost v0 = self@;
                    self.erase_line(false);
                    let ghost v1 = self@;
                    self.write_direct(&[10u8]);
                    self.column = 0;
                    assert(v1.output + [10u8]@ =~= v1.output.push(10u8));
                } else if self.termio.echoke() && self.termio.iexten() {
                    self.erase_line(true);
                } else {
                    self.erase_line(false);
                }
                return;
            }
        }
        if ch == 13 && self.termio.igncr() {
        } else if ch == 13 && self.termio.icrnl() {
            self.do_commit_char(10);
        } else if ch == 10 && self.termio.inlcr() {
            self.do_commit_char(13);
        } else {
            self.do_commit_char(ch);
        }
    }

    /// Takes what a reader may have now, into `out`.
    ///
    /// Without carrier, `Some(0)`. With nothing typed, `None` (the reader must wait).
    /// In canonical mode, one line: the characters up to and including the first NL,
    /// or up to the first NUL (an end of file, which is consumed but not returned);
    /// `None` while no line is complete. Otherwise as many characters as fit in `out`,
    /// stopping at a NUL. At most `out.len()` characters are returned.
    pub fn read_available(&mut self, out: &mut [u8]) -> (r: Option<usize>)
        ensures
            read_outcome(old(self)@, old(out)@, final(self)@, final(out)@, r),
    {
        if self.state & CARR_ON == 0 {
            return Some(0);
        }
        if self.buffer.len() == 0 {
            return None;
        }
        let ghost b = self@.buffer;
        let ghost v0 = self@;
        let ghost out0 = out@;
        proof {
            lemma_first_line_end(b);
        }
        let canon = self.termio.icanon();
        let length: usize = if canon {
            let mut pos: usize = 0;
            let n = self.buffer.len();
            while pos < n && self.buffer[pos] != 10 && self.buffer[pos] != 0
                invariant
                    n == b.len(),
                    self@ == v0,
                    self.buffer@ == b,
                    pos <= n,
                    forall|j: int| 0 <= j < pos ==> #[trigger] b[j] != 10 && b[j] != 0,
                decreases n - pos,
            {
                pos = pos + 1;
            }
            proof {
                lemma_first_line_end_at_least(b, pos as int);
            }
            if pos < n {
                pos + 1
            } else {
                0
            }
        } else {
            if out.len() < self.buffer.len() {
                out.len()
            } else {
                self.buffer.len()
            }
        };
        if length == 0 {
            return None;
        }
        let limit = if length < out.len() { length } else { out.len() };
        assert(b.skip(0) =~= b);
        proof {
            lemma_first_nul(b.take(limit as int));
        }
        let mut nread: usize = 0;
        let mut k: usize = 0;
        let mut done = false;
        while k < limit && !done
            invariant
                limit <= b.len(),
                limit <= out@.len(),
                out@.len() == out0.len(),
                canon == v0.termio.has_l(TermioLFlags::ICANON),
                k <= limit,
                nread <= k,
                self@ == (TtyView { buffer: b.skip(k as int), ..v0 }),
                forall|j: int| 0 <= j < nread ==> #[trigger] out@[j] == b[j],
                forall|j: int| nread <= j < out0.len() ==> #[trigger] out@[j] == out0[j],
                !done ==> nread == k && forall|j: int| 0 <= j < k ==> #[trigger] b[j] != 0 && (
                canon ==> b[j] != 10),
                done ==> (k >= 1 && ((b[k - 1] == 0 && nread == k - 1) || (canon && b[k - 1] == 10
                    && nread == k)) && forall|j: int| 0 <= j < k - 1 ==> #[trigger] b[j] != 0 && (
                canon ==> b[j] != 10)),
            decreases limit - k,
        {
            let ch = self.buffer.remove(0);
            assert(b.skip(k as int).drop_first() == b.skip(k + 1));
            assert(ch == b[k as int]);
            k = k + 1;
            if ch == 0 {
                done = true;
            } else {
                out[nread] = ch;
                nread = nread + 1;
                if canon && ch == 10 {
                    done = true;
                }
            }
        }
        proof {
            let e = first_line_end(b);
            let z = first_nul(b.take(limit as int));
            assert forall|j: int| 0 <= j < k - (if done { 1int } else { 0 }) implies #[trigger] b.take(
                limit as int,
            )[j] != 0 by {
                assert(b.take(limit as int)[j] == b[j]);
            }
            if !done {
                assert(k == limit);
                lemma_first_nul_at_least(b.take(limit as int), limit as int);
            } else {
                assert(b.take(limit as int)[k - 1] == b[k - 1]);
                if b[k - 1] == 0 {
                    lemma_first_nul_at_least(b.take(limit as int), k - 1);
                    assert(z == k - 1);
                }
            }
            if canon {
                lemma_first_line_end_at_least(b, k - (if done { 1int } else { 0 }));
                if done {
                    assert(e == k - 1);
                }
            }
            assert(out@.take(nread as int) =~= b.take(nread as int));
            assert(out@.skip(nread as int) =~= out0.skip(nread as int));
        }
        Some(nread)
    }

    /// The channel readers of the terminal sleep on while no input is ready, and that is
    /// woken when a line is complete (see `woken` in the view).
    pub fn read_wait_channel(&self) -> (r: usize)
        ensures
            r == TTY_READ_CHAN,
    {
        TTY_READ_CHAN
    }

    /// The column of the cursor on the line.
    pub fn column(&self) -> (r: usize)
        ensures
            r == self@.column,
    {
        self.column
    }

    /// Forgets everything typed and moves the cursor to column 0.
    pub fn flush(&mut self)
        ensures
            final(self)@ == (TtyView { buffer: Seq::empty(), line_len: 0, column: 0, ..old(self)@ }),
    {
        self.buffer.clear();
        self.line_len = 0;
        self.column = 0;
    }

    /// Takes the bytes sent to the line since the last call.
    pub fn take_output(&mut self) -> (r: Vec<u8>)
        ensures
            r@ == old(self)@.output,
            final(self)@ == (TtyView { output: Seq::empty(), ..old(self)@ }),
    {
        let mut r = Vec::new();
        std::mem::swap(&mut r, &mut self.output);
        r
    }

    /// Takes the signals raised since the last call, oldest first.
    pub fn take_signals(&mut self) -> (r: Vec<Signal>)
        ensures
            r@ == old(self)@.signals,
            final(self)@ == (TtyView { signals: Seq::empty(), ..old(self)@ }),
    {
        let mut r = Vec::new();
        std::mem::swap(&mut r, &mut self.signals);
        r
    }

    /// Whether readers must be woken; clears the request.
    pub fn take_wakeup(&mut self) -> (r: bool)
        ensures
            r == old(self)@.woken,
            final(self)@ == (TtyView { woken: false, ..old(self)@ }),
    {
        let r = self.woken;
        self.woken = false;
        r
    }
}

proof fn lemma_out_bytes_snoc(col: nat, onlcr: bool, data: Seq<u8>, ch: u8)
    ensures
        ({
            let (o, c) = out_bytes(col, onlcr, data);
            let (o2, c2) = out_char(c, onlcr, ch);
            out_bytes(col, onlcr, data.push(ch)) == (o + o2, c2)
        }),
    decreases data.len(),
{
    let d = data.push(ch);
    if data.len() == 0 {
        assert(d.drop_first() =~= Seq::<u8>::empty());
        assert(d[0] == ch);
        let (o2, c2) = out_char(col, onlcr, ch);
        assert(out_bytes(c2, onlcr, d.drop_first()) == (Seq::<u8>::empty(), c2));
        assert(out_bytes(col, onlcr, d) == (o2 + Seq::<u8>::empty(), c2));
        assert(o2 + Seq::<u8>::empty() =~= o2);
        assert(Seq::<u8>::empty() + o2 =~= o2);
        assert(out_bytes(col, onlcr, data) == (Seq::<u8>::empty(), col));
    } else {
        let (o, c) = out_char(col, onlcr, data[0]);
        lemma_out_bytes_snoc(c, onlcr, data.drop_first(), ch);
        assert(d.drop_first() =~= data.drop_first().push(ch));
        assert(d[0] == data[0]);
        let (ob, cb) = out_bytes(c, onlcr, data.drop_first());
        let (o3, c3) = out_char(cb, onlcr, ch);
        assert(out_bytes(col, onlcr, data) == (o + ob, cb));
        assert(out_bytes(c, onlcr, d.drop_first()) == (ob + o3, c3));
        assert(out_bytes(col, onlcr, d) == (o + (ob + o3), c3));
        assert(o + (ob + o3) =~= (o + ob) + o3);
    }
}


/// A byte arrived from the serial line for the console terminal (see `Tty::input`).
pub fn tty_input_byte(tty: &mut Tty, ch: u8)
    requires
        old(tty)@.column + 2 * TAB_WIDTH <= usize::MAX,
    ensures
        final(tty)@ == after_input(old(tty)@, ch),
{
    tty.input(ch);
}

/// Forgets what was typed on the console terminal (see `Tty::flush`).
pub fn tty_flush(tty: &mut Tty)
    ensures
        final(tty)@ == (TtyView { buffer: Seq::empty(), line_len: 0, column: 0, ..old(tty)@ }),
{
    tty.flush();
}

} // verus!
