use zjit::hir::iseq::{
    YARVINSN_branchif, YARVINSN_branchnil, YARVINSN_branchunless, YARVINSN_getlocal_WC_0,
    YARVINSN_jump, YARVINSN_leave, YARVINSN_opt_invokebuiltin_delegate_leave,
    YARVINSN_opt_send_without_block, YARVINSN_putnil, YARVINSN_putobject,
    YARVINSN_setlocal_WC_0,
};
use zjit::hir::iseq::{Opcode, YARVINSN_opt_plus, YARVINSN_zjit_opt_plus};
use zjit::hir::{
    compute_jump_targets, ep_offset_to_local_idx, get_arg, insn_idx_at_offset, num_lead_params,
    num_locals, Block, BlockId, CallData, CallInfo, FrameState, Function, Insn, InsnId,
    InsnInfo, InsnProfile, Iseq, IseqPayload, ParseError, VALUE,
};

fn insn_table() -> Vec<InsnInfo> {
    let mut table: Vec<InsnInfo> =
        (0..221).map(|opcode| InsnInfo { name: format!("insn_{opcode}"), len: 1 }).collect();
    for opcode in [
        YARVINSN_putobject,
        YARVINSN_jump,
        YARVINSN_branchif,
        YARVINSN_branchunless,
        YARVINSN_branchnil,
        YARVINSN_getlocal_WC_0,
        YARVINSN_setlocal_WC_0,
        YARVINSN_opt_send_without_block,
    ] {
        table[opcode as usize].len = 2;
    }
    table[YARVINSN_opt_invokebuiltin_delegate_leave as usize].len = 3;
    table
}

fn unit(words: &[u64], locals: usize) -> Iseq {
    Iseq {
        insn_table: insn_table(),
        encoded: words.iter().map(|w| VALUE(*w)).collect(),
        param_lead_num: 0,
        local_table_size: locals,
        call_data: vec![],
    }
}

fn op(opcode: u32) -> u64 {
    opcode as u64
}

fn rel(offset: i64) -> u64 {
    offset as u64
}

#[test]
fn test_two_branches_to_one_offset_give_one_target() {
    let iseq = unit(
        &[
            op(YARVINSN_putnil),
            op(YARVINSN_branchif),
            rel(4),
            op(YARVINSN_putnil),
            op(YARVINSN_branchunless),
            rel(1),
            op(YARVINSN_leave),
            op(YARVINSN_leave),
        ],
        0,
    );
    assert!(iseq.is_well_formed());
    assert_eq!(compute_jump_targets(&iseq), vec![7]);
}

#[test]
fn test_targets_are_sorted_whatever_the_order_of_the_branches() {
    // the far target is named first, the near one second
    let far_first = unit(
        &[
            op(YARVINSN_putnil),
            op(YARVINSN_branchif),
            rel(5),
            op(YARVINSN_putnil),
            op(YARVINSN_branchif),
            rel(1),
            op(YARVINSN_putnil),
            op(YARVINSN_putnil),
            op(YARVINSN_putnil),
        ],
        0,
    );
    // the near target is named first, the far one second
    let near_first = unit(
        &[
            op(YARVINSN_putnil),
            op(YARVINSN_branchif),
            rel(4),
            op(YARVINSN_putnil),
            op(YARVINSN_branchif),
            rel(2),
            op(YARVINSN_putnil),
            op(YARVINSN_putnil),
            op(YARVINSN_putnil),
        ],
        0,
    );
    assert!(far_first.is_well_formed() && near_first.is_well_formed());
    assert_eq!(compute_jump_targets(&far_first), vec![7, 8]);
    assert_eq!(compute_jump_targets(&near_first), vec![7, 8]);
}

#[test]
fn test_offset_behind_a_return_is_a_target_unless_the_stream_ends() {
    let iseq = unit(
        &[
            op(YARVINSN_leave),
            op(YARVINSN_putnil),
            op(YARVINSN_opt_invokebuiltin_delegate_leave),
            0,
            0,
            op(YARVINSN_putnil),
            op(YARVINSN_leave),
        ],
        0,
    );
    assert!(iseq.is_well_formed());
    assert_eq!(compute_jump_targets(&iseq), vec![1, 5]);
    assert_eq!(compute_jump_targets(&unit(&[], 0)), Vec::<u32>::new());
    assert_eq!(compute_jump_targets(&unit(&[op(YARVINSN_putnil)], 0)), Vec::<u32>::new());
}

#[test]
fn test_every_kind_of_branch_is_scanned() {
    let iseq = unit(
        &[
            op(YARVINSN_jump),
            rel(6),
            op(YARVINSN_branchnil),
            rel(2),
            op(YARVINSN_branchif),
            rel(-2),
            op(YARVINSN_branchunless),
            rel(-4),
        ],
        0,
    );
    assert!(iseq.is_well_formed());
    assert_eq!(compute_jump_targets(&iseq), vec![4, 6, 8]);
}

#[test]
fn test_insn_idx_at_offset() {
    assert_eq!(insn_idx_at_offset(8, 3), 11);
    assert_eq!(insn_idx_at_offset(8, -8), 0);
    assert_eq!(insn_idx_at_offset(0, 0), 0);
    assert_eq!(insn_idx_at_offset(u32::MAX, 0), u32::MAX);
    // out of range wraps around at 32 bits
    assert_eq!(insn_idx_at_offset(u32::MAX, 1), 0);
    assert_eq!(insn_idx_at_offset(0, -1), u32::MAX);
    assert_eq!(insn_idx_at_offset(5, 1 << 32), 5);
    assert_eq!(insn_idx_at_offset(7, i64::MIN), 7);
    assert_eq!(insn_idx_at_offset(7, i64::MAX), 6);
}

#[test]
fn test_well_formed_units() {
    assert!(unit(&[], 0).is_well_formed());
    assert!(unit(&[op(YARVINSN_leave)], 0).is_well_formed());
    // a branch to the end of the stream
    assert!(unit(&[op(YARVINSN_jump), rel(0)], 0).is_well_formed());
    assert!(unit(&[op(YARVINSN_getlocal_WC_0), 4, op(YARVINSN_setlocal_WC_0), 3], 2)
        .is_well_formed());
    let mut iseq = unit(&[op(YARVINSN_opt_send_without_block), 1], 0);
    iseq.call_data = vec![
        CallData { name: None, argc: 0 },
        CallData { name: Some("f".to_string()), argc: 2 },
    ];
    assert!(iseq.is_well_formed());
}

#[test]
fn test_malformed_units_are_told_apart() {
    // an opcode that the table does not know
    assert!(!unit(&[221], 0).is_well_formed());
    assert!(!unit(&[u64::MAX], 0).is_well_formed());
    // an operand beyond the end of the stream
    assert!(!unit(&[op(YARVINSN_putobject)], 0).is_well_formed());
    assert!(!unit(&[op(YARVINSN_putnil), op(YARVINSN_opt_invokebuiltin_delegate_leave), 0], 0)
        .is_well_formed());
    // an instruction of no length
    let mut iseq = unit(&[op(YARVINSN_putnil)], 0);
    iseq.insn_table[YARVINSN_putnil as usize].len = 0;
    assert!(!iseq.is_well_formed());
    // an instruction whose operand is read, with no room for one
    let mut iseq = unit(&[op(YARVINSN_putobject), op(YARVINSN_putnil)], 0);
    iseq.insn_table[YARVINSN_putobject as usize].len = 1;
    assert!(!iseq.is_well_formed());
    // a branch to the first instruction
    assert!(!unit(&[op(YARVINSN_putnil), op(YARVINSN_jump), rel(-3)], 0).is_well_formed());
    // a branch before the stream, and one behind it
    assert!(!unit(&[op(YARVINSN_putnil), op(YARVINSN_jump), rel(-4)], 0).is_well_formed());
    assert!(!unit(&[op(YARVINSN_putnil), op(YARVINSN_jump), rel(1)], 0).is_well_formed());
    // a branch into the middle of an instruction
    assert!(!unit(
        &[op(YARVINSN_branchif), rel(1), op(YARVINSN_putobject), 3, op(YARVINSN_leave)],
        0
    )
    .is_well_formed());
    // a branch that no rule translates is held to the same
    assert!(!unit(&[op(YARVINSN_putnil), op(YARVINSN_branchnil), rel(-3)], 0).is_well_formed());
    // a local outside the table
    assert!(!unit(&[op(YARVINSN_getlocal_WC_0), 3], 0).is_well_formed());
    assert!(!unit(&[op(YARVINSN_getlocal_WC_0), 2], 1).is_well_formed());
    assert!(!unit(&[op(YARVINSN_setlocal_WC_0), 4], 1).is_well_formed());
    assert!(!unit(&[op(YARVINSN_setlocal_WC_0), 1 << 32], 1).is_well_formed());
    // a call site that the unit does not have
    assert!(!unit(&[op(YARVINSN_opt_send_without_block), 0], 0).is_well_formed());
    // malformed code counts also where control does not reach it
    assert!(!unit(&[op(YARVINSN_leave), op(YARVINSN_getlocal_WC_0), 9], 1).is_well_formed());
}

#[test]
fn test_scannable_units_need_not_be_well_formed() {
    // a branch to the first instruction can be scanned, not translated
    let iseq = unit(&[op(YARVINSN_putnil), op(YARVINSN_jump), rel(-3)], 0);
    assert!(iseq.is_scannable());
    assert!(!iseq.is_well_formed());
    assert_eq!(compute_jump_targets(&iseq), vec![0]);
    // a target outside the stream wraps around at 32 bits
    let iseq = unit(&[op(YARVINSN_jump), rel(-3)], 0);
    assert!(iseq.is_scannable());
    assert_eq!(compute_jump_targets(&iseq), vec![u32::MAX]);
    assert!(!unit(&[op(YARVINSN_jump)], 0).is_scannable());
    assert!(!unit(&[221], 0).is_scannable());
    assert!(unit(&[], 0).is_scannable());
}

#[test]
fn test_unit_accessors() {
    let mut iseq = unit(&[op(YARVINSN_putobject), 77, op(YARVINSN_leave)], 3);
    iseq.param_lead_num = 2;
    assert_eq!(num_lead_params(&iseq), 2);
    assert_eq!(num_locals(&iseq), 3);
    assert_eq!(iseq.encoded_size(), 3);
    assert_eq!(get_arg(&iseq, 0, 0), VALUE(77));
    assert_eq!(get_arg(&iseq, 0, 1), VALUE(YARVINSN_leave as u64));
    assert_eq!(iseq.opcode_at(2), YARVINSN_leave as u64);
    assert_eq!(iseq.insn_len(0), 2);
    assert_eq!(iseq.insn_len(2), 1);
    assert_eq!(iseq.insn_name(0), format!("insn_{YARVINSN_putobject}"));
}

#[test]
fn test_ep_offset_to_local_idx() {
    // the slot nearest the environment pointer is the last local
    assert_eq!(ep_offset_to_local_idx(1, 3), 0);
    assert_eq!(ep_offset_to_local_idx(4, 3), 3);
    assert_eq!(ep_offset_to_local_idx(4, 4), 2);
    assert_eq!(ep_offset_to_local_idx(4, 6), 0);
    assert_eq!(ep_offset_to_local_idx(i32::MAX as usize, 3), i32::MAX as usize - 1);
}

#[test]
fn test_frame_state_stack() {
    let mut state = FrameState::new(0);
    assert!(matches!(state.top(), Err(ParseError::StackUnderflow(_))));
    match state.pop() {
        Err(ParseError::StackUnderflow(seen)) => {
            assert!(seen.stack.is_empty());
            assert_eq!(seen.pc, 0);
        }
        other => panic!("unexpected {other:?}"),
    }
    state.push(InsnId(1));
    state.push(InsnId(2));
    state.push(InsnId(3));
    assert_eq!(state.top().unwrap(), InsnId(3));
    assert_eq!(state.stack, vec![InsnId(1), InsnId(2), InsnId(3)]);
    state.setn(0, InsnId(30));
    state.setn(2, InsnId(10));
    assert_eq!(state.stack, vec![InsnId(10), InsnId(2), InsnId(30)]);
    assert_eq!(state.pop().unwrap(), InsnId(30));
    assert_eq!(state.pop().unwrap(), InsnId(2));
    assert_eq!(state.stack, vec![InsnId(10)]);
    assert_eq!(state.pop().unwrap(), InsnId(10));
    assert!(state.pop().is_err());
}

#[test]
fn test_frame_state_locals_and_args() {
    let mut state = FrameState::new(3);
    state.locals = vec![InsnId(0), InsnId(1), InsnId(2)];
    assert_eq!(state.getlocal(3), InsnId(2));
    assert_eq!(state.getlocal(5), InsnId(0));
    state.setlocal(4, InsnId(9));
    assert_eq!(state.locals, vec![InsnId(0), InsnId(9), InsnId(2)]);
    assert_eq!(state.getlocal(4), InsnId(9));
    assert_eq!(state.as_args(), vec![InsnId(0), InsnId(9), InsnId(2)]);
    state.push(InsnId(7));
    state.push(InsnId(8));
    assert_eq!(state.as_args(), vec![InsnId(0), InsnId(9), InsnId(2), InsnId(7), InsnId(8)]);
    let copy = state.clone();
    assert_eq!(copy.stack, state.stack);
    assert_eq!(copy.locals, state.locals);
    assert_eq!(copy.local_table_size, 3);
}

#[test]
fn test_function_tables_grow() {
    let mut function = Function::new();
    assert_eq!(function.entry_block, BlockId(0));
    assert_eq!(function.blocks.len(), 1);
    assert!(function.insns.is_empty());
    assert_eq!(function.new_block(), BlockId(1));
    assert_eq!(function.new_block(), BlockId(2));
    assert_eq!(function.push_insn(BlockId(2), Insn::PutSelf), InsnId(0));
    assert_eq!(function.push_insn(BlockId(0), Insn::Param { idx: 0 }), InsnId(1));
    assert_eq!(function.push_insn(BlockId(2), Insn::Test { val: InsnId(0) }), InsnId(2));
    assert_eq!(function.blocks[0].insns, vec![InsnId(1)]);
    assert!(function.blocks[1].insns.is_empty());
    assert_eq!(function.blocks[2].insns, vec![InsnId(0), InsnId(2)]);
    assert!(matches!(function.insns[2], Insn::Test { val: InsnId(0) }));
    let block = Block::default();
    assert!(block.params.is_empty() && block.insns.is_empty());
}

#[test]
fn test_function_find_resolves_the_instruction_and_its_operand() {
    let mut function = Function::new();
    let block = function.entry_block;
    let string = function.push_insn(block, Insn::Const { val: VALUE(0x100) });
    let copy = function.push_insn(block, Insn::StringCopy { val: string });
    let test = function.push_insn(block, Insn::Test { val: copy });
    let intern = function.push_insn(block, Insn::StringIntern { val: copy });
    assert!(matches!(function.find(string), Insn::Const { val: VALUE(0x100) }));
    assert!(matches!(function.find(copy), Insn::StringCopy { val: InsnId(0) }));

    // replace the copy by a parameter: users of the copy now see the parameter
    function.make_equal_to(copy, block, Insn::Param { idx: 5 });
    assert_eq!(function.insns.len(), 5);
    assert_eq!(function.blocks[0].insns.len(), 5);
    assert!(matches!(function.find(copy), Insn::Param { idx: 5 }));
    assert!(matches!(function.find(test), Insn::Test { val: InsnId(4) }));
    assert!(matches!(function.find(intern), Insn::StringIntern { val: InsnId(4) }));
    // the table itself still holds the old operand: only `find` resolves
    assert!(matches!(function.insns[2], Insn::Test { val: InsnId(1) }));

    // replace the replacement: the chain is followed to its end
    function.make_equal_to(copy, block, Insn::PutSelf);
    assert!(matches!(function.find(copy), Insn::PutSelf));
    assert!(matches!(function.find(InsnId(4)), Insn::PutSelf));
    assert!(matches!(function.find(test), Insn::Test { val: InsnId(5) }));
    assert!(matches!(function.find(string), Insn::Const { val: VALUE(0x100) }));
    let array = function.push_insn(block, Insn::NewArray { count: 2 });
    assert!(matches!(function.find(array), Insn::NewArray { count: 2 }));
    let path = function.push_insn(block, Insn::GetConstantPath { ic: VALUE(8) });
    assert!(matches!(function.find(path), Insn::GetConstantPath { ic: VALUE(8) }));
}

#[test]
fn test_values() {
    assert!(VALUE(247).fixnum_p());
    assert!(!VALUE(246).fixnum_p());
    assert_eq!(VALUE(247).as_fixnum(), 123);
    assert_eq!(VALUE(u64::MAX).as_fixnum(), -1);
    assert_eq!(VALUE(1).as_fixnum(), 0);
    assert_eq!(VALUE(5).as_i64(), 5);
    assert_eq!(VALUE(u64::MAX).as_i64(), -1);
    assert_eq!(VALUE(1 << 63).as_i64(), i64::MIN);
    assert_eq!(VALUE((1 << 63) - 1).as_i64(), i64::MAX);
    assert_eq!(VALUE(7).as_u32(), Some(7));
    assert_eq!(VALUE(u32::MAX as u64).as_u32(), Some(u32::MAX));
    assert_eq!(VALUE(u32::MAX as u64 + 1).as_u32(), None);
    assert_eq!(VALUE(9).as_usize(), Some(9));
    assert_eq!(VALUE::fixnum_from_usize(0), VALUE(1));
    assert_eq!(VALUE::fixnum_from_usize(1), VALUE(3));
    assert_eq!(VALUE::fixnum_from_usize(123), VALUE(247));
    assert_eq!(VALUE::qnil(), VALUE(4));
    assert_eq!(VALUE::qtrue(), VALUE(20));
    assert_eq!(VALUE::qfalse(), VALUE(0));
    let index: usize = InsnId(12).into();
    assert_eq!(index, 12);
}

#[test]
fn test_payload_keeps_the_last_observation() {
    let mut payload = IseqPayload::new();
    assert_eq!(payload.get_insn_profile(3), None);
    let all = InsnProfile::OptPlus { recv_is_fixnum: true, obj_is_fixnum: true };
    let none = InsnProfile::OptPlus { recv_is_fixnum: false, obj_is_fixnum: false };
    payload.set_insn_profile(3, all);
    payload.set_insn_profile(9, none);
    assert_eq!(payload.get_insn_profile(3), Some(all));
    assert_eq!(payload.get_insn_profile(9), Some(none));
    assert_eq!(payload.get_insn_profile(4), None);
    payload.set_insn_profile(3, none);
    assert_eq!(payload.get_insn_profile(3), Some(none));
}

#[test]
fn test_copies_are_equal_and_apart() {
    let insn = Insn::Send {
        self_val: InsnId(1),
        call_info: CallInfo { name: "each".to_string() },
        args: vec![InsnId(2), InsnId(3)],
    };
    let mut copy = insn.clone();
    assert_eq!(format!("{insn:?}"), format!("{copy:?}"));
    if let Insn::Send { args, .. } = &mut copy {
        args.push(InsnId(4));
    }
    assert!(matches!(&insn, Insn::Send { args, .. } if args.len() == 2));
}

#[test]
fn test_opcodes_are_told_apart_by_number() {
    assert_eq!(Opcode::decode(YARVINSN_putnil as u64), Opcode::PutNil);
    assert_eq!(Opcode::decode(YARVINSN_leave as u64), Opcode::Leave);
    assert_eq!(Opcode::decode(YARVINSN_jump as u64), Opcode::Jump);
    assert_eq!(Opcode::decode(YARVINSN_branchnil as u64), Opcode::BranchNil);
    assert_eq!(Opcode::decode(YARVINSN_opt_plus as u64), Opcode::OptPlus);
    assert_eq!(Opcode::decode(YARVINSN_zjit_opt_plus as u64), Opcode::OptPlus);
    assert_eq!(Opcode::decode(1), Opcode::Other);
    assert_eq!(Opcode::decode(u64::MAX), Opcode::Other);
    assert!(Opcode::PutObject.has_operand());
    assert!(Opcode::BranchNil.has_operand());
    assert!(Opcode::OptSendWithoutBlock.has_operand());
    assert!(!Opcode::PutNil.has_operand());
    assert!(!Opcode::Leave.has_operand());
    assert!(!Opcode::Other.has_operand());
}

#[test]
fn test_edges_compare_by_target_and_arguments() {
    let edge = |target: usize, args: &[usize]| zjit::hir::BranchEdge {
        target: BlockId(target),
        args: args.iter().map(|a| InsnId(*a)).collect(),
    };
    assert_eq!(edge(1, &[2, 3]), edge(1, &[2, 3]));
    assert_ne!(edge(1, &[2, 3]), edge(2, &[2, 3]));
    assert_ne!(edge(1, &[2, 3]), edge(1, &[3, 2]));
    assert_eq!(edge(1, &[2, 3]).clone(), edge(1, &[2, 3]));
}
