use synacor_vm::vm::VirtualMachine;
use synacor_vm::word::{
    add_words, complement_word, from_binary, join_bytes, multiply_words, to_binary,
    MAX_PROGRAM_BYTES, MEMORY_SIZE, REGISTER_COUNT, WORD_MODULUS,
};

#[test]
fn constants_describe_the_machine() {
    assert_eq!(WORD_MODULUS, 32768);
    assert_eq!(MEMORY_SIZE, 32768);
    assert_eq!(REGISTER_COUNT, 8);
    assert_eq!(MAX_PROGRAM_BYTES, 65536);
}

#[test]
fn add_is_modular() {
    assert_eq!(add_words(42, 32760), 34);
    assert_eq!(add_words(32767, 32767), 32766);
    assert_eq!(add_words(32767, 1), 0);
    assert_eq!(add_words(0, 0), 0);
    assert_eq!(add_words(65535, 65535), 32766);
    for a in [0u16, 1, 77, 16384, 32766, 32767] {
        for b in [0u16, 1, 500, 16384, 32767] {
            assert_eq!(add_words(a, b) as u32, (a as u32 + b as u32) % 32768);
        }
    }
}

#[test]
fn multiply_is_modular() {
    assert_eq!(multiply_words(42, 32000), 512);
    assert_eq!(multiply_words(34, 32000), 6656);
    assert_eq!(multiply_words(32767, 32767), 1);
    assert_eq!(multiply_words(2, 16384), 0);
    assert_eq!(multiply_words(65535, 65535), 1);
    for a in [0u16, 1, 77, 16384, 32766, 32767] {
        for b in [0u16, 1, 500, 16384, 32767] {
            assert_eq!(multiply_words(a, b) as u32, (a as u32 * b as u32) % 32768);
        }
    }
}

#[test]
fn complement_is_an_involution_on_fifteen_bits() {
    assert_eq!(complement_word(17323), 15444);
    assert_eq!(complement_word(0), 32767);
    assert_eq!(complement_word(32767), 0);
    assert_eq!(complement_word(65535), 0);
    assert_eq!(complement_word(32768), 32767);
    for a in 0u16..=32767 {
        let once = complement_word(a);
        assert!(once <= 32767);
        assert_eq!(once, 32767 - a);
        assert_eq!(complement_word(once), a);
    }
}

#[test]
fn bytes_pair_up_low_byte_first() {
    assert_eq!(join_bytes(0x34, 0x12), 0x1234);
    assert_eq!(join_bytes(0, 0x80), 32768);
    assert_eq!(join_bytes(255, 255), 65535);
    assert_eq!(from_binary(&[9, 0, 0, 128, 1, 128]), vec![9, 32768, 32769]);
    assert_eq!(from_binary(&[]), Vec::<u16>::new());
    assert_eq!(to_binary(&[9, 32768, 32769]), vec![9, 0, 0, 128, 1, 128]);
    assert_eq!(to_binary(&[]), Vec::<u8>::new());
}

#[test]
fn odd_trailing_byte_is_padded_with_zero() {
    assert_eq!(from_binary(&[1, 2, 3]), vec![0x0201, 3]);
    assert_eq!(from_binary(&[200]), vec![200]);
    let mut vm = VirtualMachine::new();
    assert_eq!(vm.init(&[19, 0, 65]), Ok(()));
    assert_eq!(&vm.memory()[0..3], &[19, 65, 0][..]);
}

#[test]
fn encoding_then_decoding_gives_the_words_back() {
    let words: Vec<u16> = (0..2000u32).map(|i| (i * 7919 % 65536) as u16).collect();
    assert_eq!(from_binary(&to_binary(&words)), words);
    assert_eq!(from_binary(&to_binary(&[0, 65535, 255, 256, 32768])), vec![0, 65535, 255, 256, 32768]);
}

#[test]
fn encoding_then_loading_gives_the_words_in_memory() {
    let words: Vec<u16> = (0..300u32).map(|i| (i * 211 % 65536) as u16).collect();
    let mut vm = VirtualMachine::new();
    assert_eq!(vm.load(&vec![77u16; 400]), Ok(()));
    assert_eq!(vm.init(&to_binary(&words)), Ok(()));
    assert_eq!(&vm.memory()[0..300], &words[..]);
    assert!(vm.memory()[300..400].iter().all(|&w| w == 77));
    assert!(vm.memory()[400..].iter().all(|&w| w == 0));
    assert_eq!(vm.pointer(), 0);
}
