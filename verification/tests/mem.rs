use pokedit_lib::mem::be;
use pokedit_lib::mem::le;

#[test]
fn write_half_word() {
    let mut bytes = vec![0u8; 4];
    le::write_half_word(&mut bytes, 1, 0x1234);
    assert_eq!(vec![0, 0x34, 0x12, 0], bytes);
}

#[test]
fn read_half_word() {
    let bytes = vec![0, 0x34, 0x12, 0];
    assert_eq!(0x1234, le::read_half_word(&bytes, 1));
}

#[test]
fn write_word() {
    let mut bytes = vec![0u8; 6];
    le::write_word(&mut bytes, 1, 0x12345678);
    assert_eq!(vec![0, 0x78, 0x56, 0x34, 0x12, 0], bytes);
}

#[test]
fn read_word() {
    let bytes = vec![0, 0x78, 0x56, 0x34, 0x12, 0];
    assert_eq!(0x12345678, le::read_word(&bytes, 1));
}

#[test]
fn mem_write_half_word() {
    let mut bytes = vec![0u8; 4];
    be::write_half_word(&mut bytes, 1, 0x1234);
    assert_eq!(vec![0, 0x12, 0x34, 0], bytes);
}

#[test]
fn mem_read_half_word() {
    let bytes = vec![0, 0x12, 0x34, 0];
    assert_eq!(0x1234, be::read_half_word(&bytes, 1));
}
