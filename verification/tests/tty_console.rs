use v6pp_kernel::constants::{PosixError, Signal};
use v6pp_kernel::dev::char_device::{char_device_for_dev, char_device_for_major, errno, CharDev, CharDevice, ConsoleDevice};
use v6pp_kernel::tty::{tty_flush, tty_input_byte, Termios, Tty, TTY_READ_CHAN};

fn typed(tty: &mut Tty, s: &[u8]) {
    for &c in s {
        tty_input_byte(tty, c);
    }
}

#[test]
fn canonical_read_returns_one_line() {
    let mut tty = Tty::new();
    tty.open();
    typed(&mut tty, b"ls\r");
    typed(&mut tty, b"pwd\n");
    let mut out = [0u8; 16];
    assert_eq!(tty.read_available(&mut out), Some(3));
    assert_eq!(&out[..3], b"ls\n");
    assert_eq!(tty.read_available(&mut out), Some(4));
    assert_eq!(&out[..4], b"pwd\n");
    assert_eq!(tty.read_available(&mut out), None);
}

#[test]
fn typed_characters_are_echoed_with_crlf() {
    let mut tty = Tty::new();
    tty.open();
    typed(&mut tty, b"ab\n");
    assert_eq!(tty.take_output(), b"ab\r\n".to_vec());
}

#[test]
fn erase_removes_the_last_character_but_not_past_the_line() {
    let mut tty = Tty::new();
    tty.open();
    typed(&mut tty, b"x\nab");
    tty_input_byte(&mut tty, 0x7f);
    tty_input_byte(&mut tty, 0x7f);
    tty_input_byte(&mut tty, 0x7f);
    typed(&mut tty, b"c\n");
    let mut out = [0u8; 16];
    assert_eq!(tty.read_available(&mut out), Some(2));
    assert_eq!(&out[..2], b"x\n");
    assert_eq!(tty.read_available(&mut out), Some(2));
    assert_eq!(&out[..2], b"c\n");
}

#[test]
fn interrupt_character_raises_sigint() {
    let mut tty = Tty::new();
    tty.open();
    typed(&mut tty, b"abc");
    tty_input_byte(&mut tty, 0x03);
    assert_eq!(tty.take_signals(), vec![Signal::SIGINT]);
}

#[test]
fn end_of_file_ends_a_read_without_being_returned() {
    let mut tty = Tty::new();
    tty.open();
    typed(&mut tty, b"hi");
    tty_input_byte(&mut tty, 0x04);
    let mut out = [0u8; 8];
    assert_eq!(tty.read_available(&mut out), Some(2));
    assert_eq!(&out[..2], b"hi");
}

#[test]
fn flush_forgets_typed_input() {
    let mut tty = Tty::new();
    tty.open();
    typed(&mut tty, b"abc");
    tty_flush(&mut tty);
    typed(&mut tty, b"\n");
    let mut out = [0u8; 8];
    assert_eq!(tty.read_available(&mut out), Some(1));
    assert_eq!(out[0], b'\n');
}

#[test]
fn closed_terminal_reads_nothing() {
    let mut tty = Tty::new();
    let mut out = [0u8; 4];
    assert_eq!(tty.read_available(&mut out), Some(0));
}

#[test]
fn standard_settings_have_the_usual_control_characters() {
    let t = Termios::new_standard();
    assert_eq!(t.vintr(), 0x03);
    assert_eq!(t.verase(), 0x7f);
    assert_eq!(t.veof(), 0x04);
    assert!(t.icanon());
    assert!(t.echo());
    assert!(t.onlcr());
}

#[test]
fn console_device_checks_the_minor_number() {
    let mut con = ConsoleDevice::new();
    assert_eq!(con.open(0x0001, 0), Err(PosixError::ENXIO));
    assert!(!con.is_open);
    assert_eq!(con.open(0x0000, 0), Ok(()));
    assert!(con.is_open);
    assert_eq!(con.close(0x0002, 0), Err(PosixError::ENXIO));
    assert_eq!(con.write(0, b"hey\n"), Ok(4));
    assert_eq!(con.tty.take_output(), b"hey\r\n".to_vec());
    let mut out = [0u8; 4];
    assert_eq!(con.read(0, &mut out), Ok(None));
    assert_eq!(con.read(1, &mut out), Err(PosixError::ENXIO));
    assert_eq!(char_device_for_major(0), Some(CharDev::Console));
    assert_eq!(char_device_for_major(1), None);
    assert_eq!(char_device_for_dev(0x0003), Some(CharDev::Console));
    assert_eq!(char_device_for_dev(0x0103), None);
    assert_eq!(errno(PosixError::ENXIO), -6);
}

#[test]
fn readers_wait_on_the_terminal_channel() {
    let t = Tty::new();
    assert_eq!(t.read_wait_channel(), TTY_READ_CHAN);
}
