use zjit::code_block::{imm_num_bits, uimm_num_bits, CodeBlock, LabelRef};
use zjit::virtualmem::{CodePtr, VirtualMem, WriteError};

#[test]
fn test_write_past_capacity_stalls() {
    let mut cb = CodeBlock::new(VirtualMem::new(256));
    let bytes: Vec<u8> = (0..300u32).map(|i| (i % 251) as u8).collect();
    cb.write_bytes(&bytes);
    assert_eq!(cb.get_write_pos(), 256);
    assert!(cb.has_dropped_bytes());
    assert_eq!(cb.get_write_ptr(), CodePtr(256));
    // a later write is dropped too and the size stays
    cb.write_byte(0xcc);
    assert_eq!(cb.get_write_pos(), 256);
    assert!(cb.has_dropped_bytes());
    // what fitted was committed in order
    for i in 0..256usize {
        assert_eq!(cb.mem_block().read_byte(CodePtr(i)), Some(bytes[i]));
    }
}

#[test]
fn test_write_within_capacity() {
    let mut cb = CodeBlock::new(VirtualMem::new(8));
    assert_eq!(cb.get_write_pos(), 0);
    assert!(!cb.has_dropped_bytes());
    cb.write_bytes(&[1, 2, 3]);
    cb.write_byte(4);
    assert_eq!(cb.get_write_pos(), 4);
    assert!(!cb.has_dropped_bytes());
    let mem = cb.into_mem_block();
    assert_eq!(mem.read_byte(CodePtr(0)), Some(1));
    assert_eq!(mem.read_byte(CodePtr(3)), Some(4));
    assert_eq!(mem.read_byte(CodePtr(4)), Some(0));
    assert_eq!(mem.read_byte(CodePtr(8)), None);
}

#[test]
fn test_write_exactly_to_capacity_drops_nothing() {
    let mut cb = CodeBlock::new(VirtualMem::new(4));
    cb.write_bytes(&[9, 8, 7, 6]);
    assert_eq!(cb.get_write_pos(), 4);
    assert!(!cb.has_dropped_bytes());
    cb.write_bytes(&[]);
    assert!(!cb.has_dropped_bytes());
    cb.write_byte(5);
    assert!(cb.has_dropped_bytes());
    assert_eq!(cb.get_write_pos(), 4);
}

#[test]
fn test_write_int_little_endian() {
    let mut cb = CodeBlock::new(VirtualMem::new(32));
    cb.write_int(0x1122334455667788, 8);
    cb.write_int(0x1122334455667788, 16);
    cb.write_int(0x1122334455667788, 32);
    cb.write_int(0x1122334455667788, 64);
    cb.write_int(0xabcdef, 24);
    assert_eq!(cb.get_write_pos(), 1 + 2 + 4 + 8 + 3);
    let expected: [u8; 18] = [
        0x88, 0x88, 0x77, 0x88, 0x77, 0x66, 0x55, 0x88, 0x77, 0x66, 0x55, 0x44, 0x33, 0x22, 0x11,
        0xef, 0xcd, 0xab,
    ];
    for (i, byte) in expected.iter().enumerate() {
        assert_eq!(cb.mem_block().read_byte(CodePtr(i)), Some(*byte));
    }
}

#[test]
fn test_write_int_wider_than_the_value_pads_with_zero() {
    let mut cb = CodeBlock::new(VirtualMem::new(16));
    cb.write_bytes(&[0xff; 16]);
    let mut cb = CodeBlock::new(cb.into_mem_block());
    cb.write_int(u64::MAX, 80);
    assert_eq!(cb.get_write_pos(), 10);
    for i in 0..8usize {
        assert_eq!(cb.mem_block().read_byte(CodePtr(i)), Some(0xff));
    }
    assert_eq!(cb.mem_block().read_byte(CodePtr(8)), Some(0));
    assert_eq!(cb.mem_block().read_byte(CodePtr(9)), Some(0));
    assert_eq!(cb.mem_block().read_byte(CodePtr(10)), Some(0xff));
}

#[test]
fn test_write_int_stalls_in_the_middle() {
    let mut cb = CodeBlock::new(VirtualMem::new(3));
    cb.write_int(0x04030201, 32);
    assert_eq!(cb.get_write_pos(), 3);
    assert!(cb.has_dropped_bytes());
    assert_eq!(cb.mem_block().read_byte(CodePtr(2)), Some(3));
}

#[test]
fn test_get_ptr_names_any_offset() {
    let mut cb = CodeBlock::new(VirtualMem::new(4));
    cb.write_bytes(&[1, 2]);
    assert_eq!(cb.get_ptr(0), CodePtr(0));
    assert_eq!(cb.get_ptr(1).offset(), 1);
    assert_eq!(cb.get_ptr(1000), CodePtr(1000));
    assert_eq!(cb.get_write_ptr(), cb.get_ptr(2));
}

fn encode_nothing(_cb: &mut CodeBlock, _src: i64, _dst: i64) {}

#[test]
fn test_label_ref_changes_nothing() {
    let mut cb = CodeBlock::new(VirtualMem::new(4));
    cb.write_byte(7);
    let encode: fn(&mut CodeBlock, i64, i64) = encode_nothing;
    cb.label_ref(0, 4, encode);
    let label = LabelRef { pos: cb.get_write_pos(), label_idx: 0, num_bytes: 4, encode };
    assert_eq!(label.clone().pos, 1);
    assert_eq!(cb.get_write_pos(), 1);
    assert!(!cb.has_dropped_bytes());
    assert_eq!(cb.mem_block().read_byte(CodePtr(0)), Some(7));
    assert_eq!(cb.mem_block().read_byte(CodePtr(1)), Some(0));
}

#[test]
fn test_virtual_mem_write_out_of_bounds() {
    let mut mem = VirtualMem::new(2);
    assert_eq!(mem.capacity(), 2);
    assert_eq!(mem.start_ptr(), CodePtr(0));
    assert_eq!(mem.write_byte(CodePtr(1), 5), Ok(()));
    assert_eq!(mem.write_byte(CodePtr(2), 6), Err(WriteError::OutOfBounds));
    assert_eq!(mem.read_byte(CodePtr(1)), Some(5));
    assert_eq!(mem.start_ptr().add_bytes(2), CodePtr(2));
}

#[test]
fn test_imm_num_bits() {
    assert_eq!(imm_num_bits(i8::MIN.into()), 8);
    assert_eq!(imm_num_bits(i8::MAX.into()), 8);

    assert_eq!(imm_num_bits(i16::MIN.into()), 16);
    assert_eq!(imm_num_bits(i16::MAX.into()), 16);

    assert_eq!(imm_num_bits(i32::MIN.into()), 32);
    assert_eq!(imm_num_bits(i32::MAX.into()), 32);

    assert_eq!(imm_num_bits(i64::MIN), 64);
    assert_eq!(imm_num_bits(i64::MAX), 64);

    assert_eq!(imm_num_bits(0), 8);
    assert_eq!(imm_num_bits(128), 16);
    assert_eq!(imm_num_bits(-129), 16);
}

#[test]
fn test_uimm_num_bits() {
    assert_eq!(uimm_num_bits(u8::MIN.into()), 8);
    assert_eq!(uimm_num_bits(u8::MAX.into()), 8);

    assert_eq!(uimm_num_bits(((u8::MAX as u16) + 1).into()), 16);
    assert_eq!(uimm_num_bits(u16::MAX.into()), 16);

    assert_eq!(uimm_num_bits(((u16::MAX as u32) + 1).into()), 32);
    assert_eq!(uimm_num_bits(u32::MAX.into()), 32);

    assert_eq!(uimm_num_bits((u32::MAX as u64) + 1), 64);
    assert_eq!(uimm_num_bits(u64::MAX), 64);
}
