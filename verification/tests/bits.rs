use pakit::dstructs::{Bits, Packet};
use pakit::error::{ErrorType, PaError};

#[test]
fn bits_hold_value_and_width() {
    let b = Bits::from(5, 4).unwrap();
    assert_eq!(b.to_value(), 5);
    assert_eq!(b.get_width(), 4);
    assert_eq!(b.to_bits(), "0101");
    assert!(b.check_error().is_ok());
}

#[test]
fn bits_decode_encode() {
    for width in 1..=16u8 {
        let top: u64 = (1u64 << width) - 1;
        for value in [0u64, 1, top / 2, top] {
            let b = Bits::from(value, width).unwrap();
            assert_eq!(b.to_value(), value);
            let text = b.to_bits();
            assert_eq!(text.len(), width as usize);
            let back = Bits::from_bin(&text, width).unwrap();
            assert_eq!(back.to_value(), value);
            assert_eq!(back.get_width(), width);
        }
    }
    let wide = Bits::from(u64::MAX, 64).unwrap();
    assert_eq!(wide.to_value(), u64::MAX);
    assert_eq!(wide.to_bits(), "1".repeat(64));
}

#[test]
fn bits_too_long_for_width() {
    assert_eq!(Bits::from(16, 4).unwrap_err().err_type, ErrorType::LengthError);
    assert_eq!(Bits::from(256, 8).unwrap_err().err_type, ErrorType::LengthError);
    assert_eq!(Bits::from(0, 0).unwrap_err().err_type, ErrorType::LengthError);
    assert!(Bits::from(15, 4).is_ok());
    assert!(Bits::from(0, 1).is_ok());
    assert!(Bits::from(1, 255).is_ok());
}

#[test]
fn bits_new_is_zero() {
    let b = Bits::new(12);
    assert_eq!(b.to_value(), 0);
    assert_eq!(b.get_width(), 12);
    assert_eq!(b.to_bits(), "000000000000");
    assert_eq!(Bits::new(0).to_bits(), "");
}

#[test]
fn bits_from_numeral() {
    let b = Bits::from_bin("0110", 8).unwrap();
    assert_eq!(b.to_value(), 6);
    assert_eq!(b.get_width(), 8);
    assert_eq!(b.to_bits(), "00000110");
    let empty = Bits::from_bin("", 3).unwrap();
    assert_eq!(empty.to_value(), 0);
    assert_eq!(empty.to_bits(), "000");
    assert_eq!(Bits::from_bin("10101", 4).unwrap_err().err_type, ErrorType::LengthError);
    assert_eq!(Bits::from_bin("10201", 8).unwrap_err().err_type, ErrorType::ParseError);
    assert_eq!(Bits::from_bin("1020111111", 8).unwrap_err().err_type, ErrorType::LengthError);
    let too_big = format!("1{}", "0".repeat(64));
    assert_eq!(Bits::from_bin(&too_big, 65).unwrap_err().err_type, ErrorType::LengthError);
    let fits = format!("0{}", "1".repeat(64));
    assert_eq!(Bits::from_bin(&fits, 65).unwrap().to_value(), u64::MAX);
}

#[test]
fn bits_equality_ignores_width() {
    assert_eq!(Bits::from(5, 4).unwrap(), Bits::from(5, 16).unwrap());
    assert_ne!(Bits::from(5, 4).unwrap(), Bits::from(6, 4).unwrap());
    assert_eq!(Bits::from_u8(7), Bits::from_u16(7));
    assert_eq!(Bits::from_u16(0xabcd).to_bits(), "1010101111001101");
    assert_eq!(Bits::from_u8(0x80).to_bit_vec(), vec![true, false, false, false, false, false, false, false]);
}

#[test]
fn error_carries_kind_and_message() {
    let e = PaError::new("no good", ErrorType::ChannelError);
    assert_eq!(e.err_type, ErrorType::ChannelError);
    assert_eq!(e.msg, "no good");
}

#[test]
fn packet_push_and_slices() {
    let mut p = Packet::new();
    assert_eq!(p.bit_len(), 0);
    p.push(0xa5);
    p.push(0x01);
    assert_eq!(p.get_len(), 16);
    assert_eq!(p.get_bin_slice(0, 16), "1010010100000001");
    assert_eq!(p.get_bin_slice(4, 8), "0101");
    assert_eq!(p.get_bin_slice(3, 3), "");
    assert_eq!(p.get_slice(0, 16).unwrap(), vec![0xa5, 0x01]);
    assert_eq!(p.get_slice(8, 16).unwrap(), vec![0x01]);
    assert_eq!(p.get_slice(4, 12).unwrap(), vec![0x50]);
    assert_eq!(p.get_slice(0, 4).unwrap_err().err_type, ErrorType::AlignmentError);
    assert_eq!(p.get_field(4, 12).to_value(), 0x50);
    assert_eq!(p.get_field(4, 12).get_width(), 8);
    assert_eq!(p.into_bytes().unwrap(), vec![0xa5, 0x01]);
}

#[test]
fn packet_append_field() {
    let mut p = Packet::new();
    let n = p.append(&Bits::from(4, 4).unwrap());
    assert_eq!(n, 4);
    assert_eq!(p.get_bin_slice(0, 4), "0100");
    assert_eq!(p.get_slice(0, 0).unwrap_err().err_type, ErrorType::AlignmentError);
    assert_eq!(p.read_bytes(0, 0), Vec::<u8>::new());
    let n = p.append(&Bits::from(5, 4).unwrap());
    assert_eq!(n, 4);
    assert_eq!(p.get_slice(0, 8).unwrap(), vec![0x45]);
    p.append(&Bits::from(1, 3).unwrap());
    assert_eq!(p.bit_len(), 11);
    assert_eq!(p.get_slice(0, 8).unwrap_err().err_type, ErrorType::AlignmentError);
    assert_eq!(p.read_bytes(3, 11), vec![0x28 | 0x01]);
    assert_eq!(p.into_bytes().unwrap_err().err_type, ErrorType::AlignmentError);
}

#[test]
fn packet_length_wraps_at_256() {
    let p = Packet::from_bytes(&[0u8; 42]);
    assert_eq!(p.bit_len(), 336);
    assert_eq!(p.get_len(), 80);
}

#[test]
fn packet_from_numeral() {
    let p = Packet::from("0000000111111111").unwrap();
    assert_eq!(p.bit_len(), 16);
    assert_eq!(p.into_bytes().unwrap(), vec![0x01, 0xff]);
    assert_eq!(Packet::from("01a").unwrap_err().err_type, ErrorType::ParseError);
    assert_eq!(Packet::from("").unwrap().bit_len(), 0);
}

#[test]
fn packet_bytes_roundtrip() {
    let bytes: Vec<u8> = (0..=255u8).collect();
    let mut p = Packet::from_bytes(&bytes);
    assert_eq!(p.bit_len(), 2048);
    assert_eq!(p.get_slice(0, 2048).unwrap(), bytes);
    p.push_all(&[7, 8]);
    assert_eq!(p.get_slice(2048, 2064).unwrap(), vec![7, 8]);
}
