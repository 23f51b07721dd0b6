use vstd::prelude::*;
use vstd::string::StringSliceAdditionalSpecFns;

verus! {

/// Register offsets of the UART.
pub const RBR_THR_DLL: usize = 0;
pub const IER_DLM: usize = 1;
pub const FCR_IIR: usize = 2;
pub const LCR: usize = 3;
pub const MCR: usize = 4;
pub const LSR: usize = 5;

pub const LCR_DLAB: u8 = 0x80;
pub const LCR_8N1: u8 = 0x03;
pub const FCR_ENABLE_FIFO: u8 = 0x01;
pub const FCR_CLEAR_FIFO: u8 = 0x06;
pub const MCR_DTR_RTS: u8 = 0x03;
/// A received byte is ready.
pub const LSR_RX_READY: u8 = 0x01;
/// The transmitter is idle.
pub const LSR_TX_IDLE: u8 = 0x20;
/// Divisor of 115200 baud.
pub const BAUD_DIVISOR_115200: u16 = 1;

/// The register writes that set the UART up: interrupts off, 115200 baud, 8N1, FIFOs
/// on and cleared, DTR and RTS set.
pub fn init_serial() -> (r: Vec<(usize, u8)>)
    ensures
        r@ == seq![(IER_DLM, 0u8), (LCR, LCR_DLAB), (RBR_THR_DLL, 1u8), (IER_DLM, 0u8), (LCR, LCR_8N1),
            (FCR_IIR, 0x07u8), (MCR, MCR_DTR_RTS)],
{
    let mut r: Vec<(usize, u8)> = Vec::new();
    r.push((IER_DLM, 0x00));
    r.push((LCR, LCR_DLAB));
    r.push((RBR_THR_DLL, (BAUD_DIVISOR_115200 & 0xff) as u8));
    r.push((IER_DLM, (BAUD_DIVISOR_115200 >> 8) as u8));
    r.push((LCR, LCR_8N1));
    r.push((FCR_IIR, FCR_ENABLE_FIFO | FCR_CLEAR_FIFO));
    r.push((MCR, MCR_DTR_RTS));
    assert(FCR_ENABLE_FIFO | FCR_CLEAR_FIFO == 0x07u8 && (BAUD_DIVISOR_115200 & 0xff) as u8 == 1u8
        && (BAUD_DIVISOR_115200 >> 8) as u8 == 0u8) by (bit_vector);
    assert(r@ =~= seq![(IER_DLM, 0u8), (LCR, LCR_DLAB), (RBR_THR_DLL, 1u8), (IER_DLM, 0u8), (LCR, LCR_8N1),
            (FCR_IIR, 0x07u8), (MCR, MCR_DTR_RTS)]);
    r
}

/// The bytes sent to the line for `data`: each newline goes out as carriage return and
/// newline.
pub open spec fn line_bytes(data: Seq<u8>) -> Seq<u8>
    decreases data.len(),
{
    if data.len() == 0 {
        Seq::empty()
    } else {
        let rest = line_bytes(data.drop_last());
        if data.last() == 10 { rest + seq![13u8, 10u8] } else { rest.push(data.last()) }
    }
}

/// The bytes to put on the line to write `data` (see `line_bytes`).
pub fn serial_write_bytes(data: &[u8]) -> (r: Vec<u8>)
    ensures
        r@ == line_bytes(data@),
{
    let mut r: Vec<u8> = Vec::new();
    let mut i: usize = 0;
    while i < data.len()
        invariant
            i <= data@.len(),
            r@ == line_bytes(data@.take(i as int)),
        decreases data@.len() - i,
    {
        assert(data@.take(i as int + 1).drop_last() =~= data@.take(i as int));
        if data[i] == 10 {
            r.push(13);
        }
        r.push(data[i]);
        i = i + 1;
        assert(r@ =~= line_bytes(data@.take(i as int)));
    }
    assert(data@.take(data@.len() as int) =~= data@);
    r
}

/// The bytes to put on the line to write the text `s`: its UTF-8 bytes, each newline
/// going out as carriage return and newline.
pub fn serial_write(s: &str) -> (r: Vec<u8>)
    ensures
        r@ == line_bytes(s.spec_bytes()),
{
    serial_write_bytes(s.as_bytes())
}

/// The byte received, when the line status says one is ready.
pub fn serial_try_read_byte(lsr: u8, rbr: u8) -> (r: Option<u8>)
    ensures
        r == (if lsr & LSR_RX_READY != 0 { Some(rbr) } else { None::<u8> }),
{
    if lsr & LSR_RX_READY != 0 {
        Some(rbr)
    } else {
        None
    }
}

/// The lowercase hexadecimal digit of `n`.
pub open spec fn hex_digit(n: u64) -> u8 {
    if n < 10 { (48 + n) as u8 } else { (87 + n) as u8 }
}

/// The 16 hexadecimal digits of `value`, most significant first.
pub open spec fn hex_digits(value: u64) -> Seq<u8> {
    Seq::new(16, |k: int| hex_digit((value >> ((60 - 4 * k) as u64)) & 0xf))
}

/// The bytes written for `value`: `0x` and its 16 hexadecimal digits.
pub fn serial_write_hex(value: u64) -> (r: Vec<u8>)
    ensures
        r@ == seq![48u8, 120u8] + hex_digits(value),
{
    let hex: [u8; 16] = [48, 49, 50, 51, 52, 53, 54, 55, 56, 57, 97, 98, 99, 100, 101, 102];
    assert forall|d: int| 0 <= d < 16 implies #[trigger] hex@[d] == hex_digit(d as u64) by {
        assert(hex@[d] == (if d < 10 { 48 + d } else { 87 + d }));
    }
    let mut r: Vec<u8> = Vec::new();
    r.push(48);
    r.push(120);
    let mut k: usize = 0;
    while k < 16
        invariant
            k <= 16,
            r@.len() == 2 + k,
            r@[0] == 48u8 && r@[1] == 120u8,
            forall|j: int| 0 <= j < k ==> #[trigger] r@[2 + j] == hex_digit((value >> ((60 - 4 * j) as u64)) & 0xf),
            forall|d: int| 0 <= d < 16 ==> #[trigger] hex@[d] == hex_digit(d as u64),
        decreases 16 - k,
    {
        let shift: u64 = (60 - 4 * k) as u64;
        let nibble = (value >> shift) & 0xf;
        assert(nibble < 16) by (bit_vector)
            requires nibble == (value >> shift) & 0xf;
        r.push(hex[nibble as usize]);
        k = k + 1;
    }
    assert forall|j: int| 0 <= j < r@.len() implies #[trigger] r@[j] == (seq![48u8, 120u8] + hex_digits(value))[j] by {
        if j >= 2 {
            assert(r@[2 + (j - 2)] == hex_digit((value >> ((60 - 4 * (j - 2)) as u64)) & 0xf));
        }
    }
    assert(r@ =~= seq![48u8, 120u8] + hex_digits(value));
    r
}

} // verus!
