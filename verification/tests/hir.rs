use zjit::hir::iseq::{
    YARVINSN_branchif, YARVINSN_branchnil, YARVINSN_branchunless, YARVINSN_defined,
    YARVINSN_dup, YARVINSN_duparray, YARVINSN_getlocal_WC_0, YARVINSN_intern, YARVINSN_jump,
    YARVINSN_leave, YARVINSN_newarray, YARVINSN_nop, YARVINSN_opt_aset, YARVINSN_opt_div,
    YARVINSN_opt_getconstant_path, YARVINSN_opt_invokebuiltin_delegate_leave, YARVINSN_opt_lt,
    YARVINSN_opt_ltlt, YARVINSN_opt_nil_p, YARVINSN_opt_plus, YARVINSN_opt_send_without_block,
    YARVINSN_pop, YARVINSN_putchilledstring, YARVINSN_putnil, YARVINSN_putobject,
    YARVINSN_putobject_INT2FIX_0_, YARVINSN_putobject_INT2FIX_1_, YARVINSN_putself,
    YARVINSN_putstring, YARVINSN_setlocal_WC_0, YARVINSN_setn, YARVINSN_swap,
    YARVINSN_zjit_opt_plus,
};
use zjit::hir::{
    compute_jump_targets, iseq_to_hir, BlockId, BranchEdge, CallData, Function, Insn, InsnId,
    InsnInfo, InsnProfile, Invariant, Iseq, IseqPayload, ParseError, VALUE,
};

const GETGLOBAL: u32 = 15;

/// The instruction table of the host: name and length in words of each opcode.
fn insn_table() -> Vec<InsnInfo> {
    let mut table: Vec<InsnInfo> = (0..221)
        .map(|opcode| InsnInfo { name: format!("insn_{opcode}"), len: 1 })
        .collect();
    let known: [(u32, &str, usize); 34] = [
        (YARVINSN_nop, "nop", 1),
        (YARVINSN_opt_getconstant_path, "opt_getconstant_path", 2),
        (GETGLOBAL, "getglobal", 2),
        (YARVINSN_putnil, "putnil", 1),
        (YARVINSN_putself, "putself", 1),
        (YARVINSN_putobject, "putobject", 2),
        (YARVINSN_putstring, "putstring", 2),
        (YARVINSN_putchilledstring, "putchilledstring", 2),
        (YARVINSN_intern, "intern", 1),
        (YARVINSN_newarray, "newarray", 2),
        (YARVINSN_duparray, "duparray", 2),
        (YARVINSN_pop, "pop", 1),
        (YARVINSN_dup, "dup", 1),
        (YARVINSN_swap, "swap", 1),
        (YARVINSN_setn, "setn", 2),
        (YARVINSN_defined, "defined", 4),
        (YARVINSN_opt_send_without_block, "opt_send_without_block", 2),
        (YARVINSN_opt_nil_p, "opt_nil_p", 2),
        (YARVINSN_leave, "leave", 1),
        (YARVINSN_jump, "jump", 2),
        (YARVINSN_branchif, "branchif", 2),
        (YARVINSN_branchunless, "branchunless", 2),
        (YARVINSN_branchnil, "branchnil", 2),
        (YARVINSN_opt_plus, "opt_plus", 2),
        (YARVINSN_opt_div, "opt_div", 2),
        (YARVINSN_opt_lt, "opt_lt", 2),
        (YARVINSN_opt_ltlt, "opt_ltlt", 2),
        (YARVINSN_opt_aset, "opt_aset", 2),
        (YARVINSN_opt_invokebuiltin_delegate_leave, "opt_invokebuiltin_delegate_leave", 3),
        (YARVINSN_getlocal_WC_0, "getlocal_WC_0", 2),
        (YARVINSN_setlocal_WC_0, "setlocal_WC_0", 2),
        (YARVINSN_putobject_INT2FIX_0_, "putobject_INT2FIX_0_", 1),
        (YARVINSN_putobject_INT2FIX_1_, "putobject_INT2FIX_1_", 1),
        (YARVINSN_zjit_opt_plus, "zjit_opt_plus", 2),
    ];
    for (opcode, name, len) in known {
        table[opcode as usize] = InsnInfo { name: name.to_string(), len };
    }
    table
}

/// A unit with the given stream, no parameters, `locals` local slots and `call_data`.
fn unit(words: &[u64], locals: usize, call_data: Vec<CallData>) -> Iseq {
    Iseq {
        insn_table: insn_table(),
        encoded: words.iter().map(|w| VALUE(*w)).collect(),
        param_lead_num: 0,
        local_table_size: locals,
        call_data,
    }
}

fn call(name: &str, argc: u32) -> CallData {
    CallData { name: Some(name.to_string()), argc }
}

fn op(opcode: u32) -> u64 {
    opcode as u64
}

/// The word that holds the small integer `n`.
fn fix(n: u64) -> u64 {
    2 * n + 1
}

/// The operand that stands for the signed distance `offset`.
fn rel(offset: i64) -> u64 {
    offset as u64
}

fn translate(iseq: &Iseq) -> Function {
    assert!(iseq.is_well_formed());
    iseq_to_hir(iseq, &IseqPayload::new()).unwrap()
}

fn block_insns(function: &Function, block: usize) -> Vec<&Insn> {
    function.blocks[block].insns.iter().map(|id| &function.insns[id.0]).collect()
}

/// The instructions of a block without the snapshots.
fn block_code(function: &Function, block: usize) -> Vec<&Insn> {
    block_insns(function, block)
        .into_iter()
        .filter(|insn| !matches!(insn, Insn::Snapshot { .. }))
        .collect()
}

fn send_parts(insn: &Insn) -> (InsnId, String, Vec<InsnId>) {
    match insn {
        Insn::Send { self_val, call_info, args } => {
            (*self_val, call_info.name.clone(), args.clone())
        }
        other => panic!("not a send: {other:?}"),
    }
}

// "nil.itself"
fn nil_itself() -> Iseq {
    unit(
        &[op(YARVINSN_putnil), op(YARVINSN_opt_send_without_block), 0, op(YARVINSN_leave)],
        0,
        vec![call("itself", 0)],
    )
}

// "123"
fn literal_123() -> Iseq {
    unit(&[op(YARVINSN_putobject), fix(123), op(YARVINSN_leave)], 0, vec![])
}

// "1+2"
fn one_plus_two() -> Iseq {
    unit(
        &[
            op(YARVINSN_putobject_INT2FIX_1_),
            op(YARVINSN_putobject),
            fix(2),
            op(YARVINSN_opt_plus),
            0,
            op(YARVINSN_leave),
        ],
        0,
        vec![call("+", 1)],
    )
}

// "a = 1; a"
fn assign_then_read() -> Iseq {
    unit(
        &[
            op(YARVINSN_putobject_INT2FIX_1_),
            op(YARVINSN_setlocal_WC_0),
            3,
            op(YARVINSN_getlocal_WC_0),
            3,
            op(YARVINSN_leave),
        ],
        1,
        vec![],
    )
}

// "cond = true; if cond; 3; else; 4; end"
fn if_else() -> Iseq {
    unit(
        &[
            op(YARVINSN_putobject),
            20,
            op(YARVINSN_setlocal_WC_0),
            3,
            op(YARVINSN_getlocal_WC_0),
            3,
            op(YARVINSN_branchunless),
            rel(3),
            op(YARVINSN_putobject),
            fix(3),
            op(YARVINSN_leave),
            op(YARVINSN_putobject),
            fix(4),
            op(YARVINSN_leave),
        ],
        1,
        vec![],
    )
}

#[test]
fn boot_vm() {
    let iseq = nil_itself();
    let function = translate(&iseq);
    assert!(matches!(function.insns.get(0), Some(Insn::Snapshot { .. })));
}

#[test]
fn test_putobject() {
    let iseq = literal_123();
    let function = translate(&iseq);
    assert!(matches!(function.insns.get(1), Some(Insn::Const { val: VALUE(247) })));
    assert!(matches!(function.insns.get(3), Some(Insn::Return { val: InsnId(1) })));
}

#[test]
fn test_opt_plus() {
    let iseq = one_plus_two();
    let function = translate(&iseq);
    assert!(matches!(function.insns.get(1), Some(Insn::Const { val: VALUE(3) })));
    assert!(matches!(function.insns.get(3), Some(Insn::Const { val: VALUE(5) })));
    assert!(matches!(function.insns.get(5), Some(Insn::Send { self_val: InsnId(1), .. })));
}

#[test]
fn test_setlocal_getlocal() {
    let iseq = assign_then_read();
    let function = translate(&iseq);
    assert!(matches!(function.insns.get(2), Some(Insn::Const { val: VALUE(3) })));
    assert!(matches!(function.insns.get(6), Some(Insn::Return { val: InsnId(2) })));
}

#[test]
fn test_merge_const() {
    let iseq = if_else();
    let function = translate(&iseq);
    assert!(matches!(function.insns.get(2), Some(Insn::Const { val: VALUE(20) })));
    assert!(matches!(function.insns.get(6), Some(Insn::Test { val: InsnId(2) })));
    assert!(matches!(
        function.insns.get(7),
        Some(Insn::IfFalse { val: InsnId(6), target: BranchEdge { target: BlockId(1), .. } })
    ));
    assert!(matches!(function.insns.get(9), Some(Insn::Const { val: VALUE(7) })));
    assert!(matches!(function.insns.get(11), Some(Insn::Return { val: InsnId(9) })));
    assert!(matches!(function.insns.get(14), Some(Insn::Const { val: VALUE(9) })));
    assert!(matches!(function.insns.get(16), Some(Insn::Return { val: InsnId(14) })));
}

#[test]
fn test_return_literal_is_one_block() {
    let function = translate(&literal_123());
    assert_eq!(function.blocks.len(), 1);
    assert_eq!(function.entry_block, BlockId(0));
    assert_eq!(function.insns.len(), 4);
    let ids: Vec<usize> = function.blocks[0].insns.iter().map(|id| id.0).collect();
    assert_eq!(ids, vec![0, 1, 2, 3]);
    assert!(function.blocks[0].params.is_empty());
    match &function.insns[0] {
        Insn::Snapshot { state } => {
            assert_eq!(state.pc, 0);
            assert!(state.stack.is_empty());
            assert!(state.locals.is_empty());
        }
        other => panic!("unexpected {other:?}"),
    }
    match &function.insns[2] {
        Insn::Snapshot { state } => {
            assert_eq!(state.pc, 2);
            assert_eq!(state.stack, vec![InsnId(1)]);
        }
        other => panic!("unexpected {other:?}"),
    }
    let code = block_code(&function, 0);
    assert_eq!(code.len(), 2);
    assert!(matches!(code[0], Insn::Const { val: VALUE(247) }));
    assert!(matches!(code[1], Insn::Return { val: InsnId(1) }));
}

#[test]
fn test_read_of_local_emits_nothing() {
    let function = translate(&assign_then_read());
    assert_eq!(function.blocks.len(), 1);
    // the local, then a snapshot for each of four instructions, one constant, one return
    assert_eq!(function.insns.len(), 7);
    let code = block_code(&function, 0);
    assert_eq!(code.len(), 3);
    assert!(matches!(code[0], Insn::Const { val: VALUE(4) }));
    assert!(matches!(code[1], Insn::Const { val: VALUE(3) }));
    assert!(matches!(code[2], Insn::Return { val: InsnId(2) }));
    // the snapshot before the read shows the local bound to the written value
    match &function.insns[4] {
        Insn::Snapshot { state } => {
            assert_eq!(state.locals, vec![InsnId(2)]);
            assert!(state.stack.is_empty());
        }
        other => panic!("unexpected {other:?}"),
    }
    match &function.insns[5] {
        Insn::Snapshot { state } => assert_eq!(state.stack, vec![InsnId(2)]),
        other => panic!("unexpected {other:?}"),
    }
}

#[test]
fn test_if_else_with_both_arms_as_targets_makes_three_blocks() {
    // cond; branchunless ELSE; jump THEN; THEN: 3; leave; ELSE: 4; leave
    let iseq = unit(
        &[
            op(YARVINSN_putobject),
            20,
            op(YARVINSN_branchunless),
            rel(5),
            op(YARVINSN_jump),
            rel(0),
            op(YARVINSN_putobject),
            fix(3),
            op(YARVINSN_leave),
            op(YARVINSN_putobject),
            fix(4),
            op(YARVINSN_leave),
        ],
        0,
        vec![],
    );
    assert_eq!(compute_jump_targets(&iseq), vec![6, 9]);
    let function = translate(&iseq);
    assert_eq!(function.blocks.len(), 3);

    let entry = block_code(&function, 0);
    assert_eq!(entry.len(), 4);
    assert!(matches!(entry[0], Insn::Const { val: VALUE(20) }));
    assert!(matches!(entry[1], Insn::Test { val: InsnId(1) }));
    match entry[2] {
        Insn::IfFalse { val, target } => {
            assert_eq!(*val, InsnId(3));
            assert_eq!(target.target, BlockId(2));
            assert!(target.args.is_empty());
        }
        other => panic!("unexpected {other:?}"),
    }
    match entry[3] {
        Insn::Jump(target) => {
            assert_eq!(target.target, BlockId(1));
            assert!(target.args.is_empty());
        }
        other => panic!("unexpected {other:?}"),
    }

    let then_arm = block_code(&function, 1);
    assert_eq!(then_arm.len(), 2);
    assert!(matches!(then_arm[0], Insn::Const { val: VALUE(7) }));
    let else_arm = block_code(&function, 2);
    assert_eq!(else_arm.len(), 2);
    assert!(matches!(else_arm[0], Insn::Const { val: VALUE(9) }));
    for arm in [&then_arm, &else_arm] {
        match (arm[0], arm[1]) {
            (Insn::Const { .. }, Insn::Return { val }) => {
                let at = function.insns.iter().position(|i| std::ptr::eq(i, arm[0])).unwrap();
                assert_eq!(*val, InsnId(at));
            }
            other => panic!("unexpected {other:?}"),
        }
    }
    // each arm was translated once: every instruction stands in exactly one block
    let mut seen = vec![0usize; function.insns.len()];
    for block in &function.blocks {
        for id in &block.insns {
            seen[id.0] += 1;
        }
    }
    assert!(seen.iter().all(|n| *n == 1));
}

#[test]
fn test_block_reached_twice_is_translated_once() {
    // two branches lead to the same offset
    let iseq = unit(
        &[
            op(YARVINSN_putnil),
            op(YARVINSN_branchif),
            rel(5),
            op(YARVINSN_putnil),
            op(YARVINSN_branchunless),
            rel(2),
            op(YARVINSN_putself),
            op(YARVINSN_leave),
            op(YARVINSN_putobject_INT2FIX_0_),
            op(YARVINSN_leave),
        ],
        0,
        vec![],
    );
    assert_eq!(compute_jump_targets(&iseq), vec![8]);
    let function = translate(&iseq);
    assert_eq!(function.blocks.len(), 2);
    let target = block_code(&function, 1);
    assert_eq!(target.len(), 2);
    assert!(matches!(target[0], Insn::Const { val: VALUE(1) }));
    assert!(matches!(target[1], Insn::Return { .. }));
}

#[test]
fn test_merge_point_gets_a_parameter_per_local_and_stack_slot() {
    // one local; the branch is taken with one value still on the stack
    let iseq = unit(
        &[
            op(YARVINSN_putself),
            op(YARVINSN_putnil),
            op(YARVINSN_branchif),
            rel(1),
            op(YARVINSN_leave),
            op(YARVINSN_leave),
        ],
        1,
        vec![],
    );
    let function = translate(&iseq);
    assert_eq!(compute_jump_targets(&iseq), vec![5]);
    assert_eq!(function.blocks.len(), 2);
    // entry: the local is v0, self is v2, nil is v4
    let entry = block_code(&function, 0);
    match entry[4] {
        Insn::IfTrue { val, target } => {
            assert_eq!(*val, InsnId(6));
            assert_eq!(target.target, BlockId(1));
            assert_eq!(target.args, vec![InsnId(0), InsnId(2)]);
        }
        other => panic!("unexpected {other:?}"),
    }
    let merge = block_insns(&function, 1);
    assert!(matches!(merge[0], Insn::Param { idx: 0 }));
    assert!(matches!(merge[1], Insn::Param { idx: 1 }));
    let first = function.blocks[1].insns[0];
    let second = function.blocks[1].insns[1];
    match merge[2] {
        Insn::Snapshot { state } => {
            assert_eq!(state.locals, vec![first]);
            assert_eq!(state.stack, vec![second]);
            assert_eq!(state.pc, 5);
        }
        other => panic!("unexpected {other:?}"),
    }
    match merge[3] {
        Insn::Return { val } => assert_eq!(*val, second),
        other => panic!("unexpected {other:?}"),
    }
}

#[test]
fn test_fallthrough_into_a_target_ends_the_block_with_a_jump() {
    // the offset behind `leave` is a target though no branch leads there;
    // the code before the loop below falls through into a branch target
    let iseq = unit(
        &[
            op(YARVINSN_putnil),
            op(YARVINSN_pop),
            op(YARVINSN_putself),
            op(YARVINSN_branchif),
            rel(-4),
            op(YARVINSN_putnil),
            op(YARVINSN_leave),
        ],
        0,
        vec![],
    );
    assert_eq!(compute_jump_targets(&iseq), vec![1]);
    let function = translate(&iseq);
    assert_eq!(function.blocks.len(), 2);
    let entry = block_code(&function, 0);
    assert_eq!(entry.len(), 2);
    match entry[1] {
        Insn::Jump(edge) => {
            assert_eq!(edge.target, BlockId(1));
            assert_eq!(edge.args, vec![InsnId(1)]);
        }
        other => panic!("unexpected {other:?}"),
    }
    // the loop body branches back to itself and is still translated once
    let body = block_code(&function, 1);
    assert!(matches!(body[0], Insn::Param { idx: 0 }));
    assert!(body
        .iter()
        .any(|i| matches!(i, Insn::IfTrue { target: BranchEdge { target: BlockId(1), .. }, .. })));
    assert!(matches!(body.last(), Some(Insn::Return { .. })));
}

#[test]
fn test_translation_is_deterministic() {
    let mut payload = IseqPayload::new();
    payload.set_insn_profile(
        5,
        InsnProfile::OptPlus { recv_is_fixnum: true, obj_is_fixnum: true },
    );
    for iseq in [one_plus_two(), if_else(), nil_itself()] {
        let first = iseq_to_hir(&iseq, &payload).unwrap();
        let second = iseq_to_hir(&iseq, &payload).unwrap();
        assert_eq!(first.insns.len(), second.insns.len());
        assert_eq!(first.blocks.len(), second.blocks.len());
        assert_eq!(format!("{first:?}"), format!("{second:?}"));
    }
}

#[test]
fn test_opt_plus_with_fixnum_profile_is_guarded() {
    let iseq = one_plus_two();
    let mut payload = IseqPayload::new();
    // the addition ends at offset 5
    payload.set_insn_profile(
        5,
        InsnProfile::OptPlus { recv_is_fixnum: true, obj_is_fixnum: true },
    );
    let function = iseq_to_hir(&iseq, &payload).unwrap();
    // v0 snapshot, v1 = 1, v2 snapshot, v3 = 2, v4 snapshot, then the fast path
    assert_eq!(function.insns.len(), 11);
    assert!(matches!(
        function.insns[5],
        Insn::PatchPoint(Invariant::BOPRedefined { klass: 1, bop: 0 })
    ));
    assert!(matches!(function.insns[6], Insn::GuardType { val: InsnId(1), is_fixnum: true }));
    assert!(matches!(function.insns[7], Insn::GuardType { val: InsnId(3), is_fixnum: true }));
    assert!(matches!(function.insns[8], Insn::FixnumAdd { recv: InsnId(6), obj: InsnId(7) }));
    match &function.insns[9] {
        Insn::Snapshot { state } => assert_eq!(state.stack, vec![InsnId(8)]),
        other => panic!("unexpected {other:?}"),
    }
    assert!(matches!(function.insns[10], Insn::Return { val: InsnId(8) }));
}

#[test]
fn test_opt_plus_without_full_profile_is_a_send() {
    let iseq = one_plus_two();
    let candidates = [
        None,
        Some((5, InsnProfile::OptPlus { recv_is_fixnum: true, obj_is_fixnum: false })),
        Some((5, InsnProfile::OptPlus { recv_is_fixnum: false, obj_is_fixnum: true })),
        Some((3, InsnProfile::OptPlus { recv_is_fixnum: true, obj_is_fixnum: true })),
    ];
    for candidate in candidates {
        let mut payload = IseqPayload::new();
        if let Some((at, profile)) = candidate {
            payload.set_insn_profile(at, profile);
        }
        let function = iseq_to_hir(&iseq, &payload).unwrap();
        assert_eq!(function.insns.len(), 8);
        let (recv, name, args) = send_parts(&function.insns[5]);
        assert_eq!(recv, InsnId(1));
        assert_eq!(name, "+");
        assert_eq!(args, vec![InsnId(3)]);
        assert!(matches!(function.insns[7], Insn::Return { val: InsnId(5) }));
    }
}

#[test]
fn test_zjit_opt_plus_is_lowered_like_opt_plus() {
    let iseq = unit(
        &[
            op(YARVINSN_putobject_INT2FIX_1_),
            op(YARVINSN_putobject_INT2FIX_0_),
            op(YARVINSN_zjit_opt_plus),
            0,
            op(YARVINSN_leave),
        ],
        0,
        vec![call("+", 1)],
    );
    let function = translate(&iseq);
    let (recv, name, args) = send_parts(&function.insns[5]);
    assert_eq!((recv, name.as_str(), args), (InsnId(1), "+", vec![InsnId(3)]));
}

/// Translates `words` followed by `leave` and gives the stack that the snapshot
/// before the `leave` shows.
fn stack_before_leave(words: &[u64], locals: usize, call_data: Vec<CallData>) -> Vec<InsnId> {
    let mut stream = words.to_vec();
    stream.push(op(YARVINSN_leave));
    let iseq = unit(&stream, locals, call_data);
    let function = translate(&iseq);
    let last = function.insns.len() - 2;
    match &function.insns[last] {
        Insn::Snapshot { state } => state.stack.clone(),
        other => panic!("unexpected {other:?}"),
    }
}

#[test]
fn test_stack_depth_follows_each_opcode() {
    let push3 = [op(YARVINSN_putself), op(YARVINSN_putnil), op(YARVINSN_putobject_INT2FIX_1_)];
    let depth = |tail: &[u64], locals: usize, cd: Vec<CallData>| {
        let mut words = push3.to_vec();
        words.extend_from_slice(tail);
        stack_before_leave(&words, locals, cd).len() as i64
    };
    assert_eq!(depth(&[], 0, vec![]), 3);
    assert_eq!(depth(&[op(YARVINSN_nop)], 0, vec![]), 3);
    assert_eq!(depth(&[op(YARVINSN_putnil)], 0, vec![]), 4);
    assert_eq!(depth(&[op(YARVINSN_putself)], 0, vec![]), 4);
    assert_eq!(depth(&[op(YARVINSN_putobject), 9], 0, vec![]), 4);
    assert_eq!(depth(&[op(YARVINSN_putstring), 9], 0, vec![]), 4);
    assert_eq!(depth(&[op(YARVINSN_putchilledstring), 9], 0, vec![]), 4);
    assert_eq!(depth(&[op(YARVINSN_duparray), 9], 0, vec![]), 4);
    assert_eq!(depth(&[op(YARVINSN_putobject_INT2FIX_0_)], 0, vec![]), 4);
    assert_eq!(depth(&[op(YARVINSN_opt_getconstant_path), 9], 0, vec![]), 4);
    assert_eq!(depth(&[op(YARVINSN_getlocal_WC_0), 3], 1, vec![]), 4);
    assert_eq!(depth(&[op(YARVINSN_dup)], 0, vec![]), 4);
    assert_eq!(depth(&[op(YARVINSN_intern)], 0, vec![]), 3);
    assert_eq!(depth(&[op(YARVINSN_defined), 1, 2, 3], 0, vec![]), 3);
    assert_eq!(depth(&[op(YARVINSN_opt_nil_p), 0], 0, vec![]), 3);
    assert_eq!(depth(&[op(YARVINSN_swap)], 0, vec![]), 3);
    assert_eq!(depth(&[op(YARVINSN_setn), 2], 0, vec![]), 3);
    assert_eq!(depth(&[op(YARVINSN_pop)], 0, vec![]), 2);
    assert_eq!(depth(&[op(YARVINSN_setlocal_WC_0), 3], 1, vec![]), 2);
    assert_eq!(depth(&[op(YARVINSN_opt_plus), 0], 0, vec![]), 2);
    assert_eq!(depth(&[op(YARVINSN_opt_div), 0], 0, vec![]), 2);
    assert_eq!(depth(&[op(YARVINSN_opt_lt), 0], 0, vec![]), 2);
    assert_eq!(depth(&[op(YARVINSN_opt_ltlt), 0], 0, vec![]), 2);
    assert_eq!(depth(&[op(YARVINSN_opt_aset), 0], 0, vec![]), 1);
    assert_eq!(depth(&[op(YARVINSN_newarray), 0], 0, vec![]), 4);
    assert_eq!(depth(&[op(YARVINSN_newarray), 2], 0, vec![]), 2);
    assert_eq!(depth(&[op(YARVINSN_newarray), 3], 0, vec![]), 1);
    assert_eq!(depth(&[op(YARVINSN_opt_send_without_block), 0], 0, vec![call("f", 0)]), 3);
    assert_eq!(depth(&[op(YARVINSN_opt_send_without_block), 0], 0, vec![call("f", 2)]), 1);
    assert_eq!(depth(&[op(YARVINSN_branchif), rel(0)], 0, vec![]), 2);
    assert_eq!(depth(&[op(YARVINSN_branchunless), rel(0)], 0, vec![]), 2);
}

#[test]
fn test_opt_plus_with_profile_leaves_one_value() {
    let iseq = one_plus_two();
    let mut payload = IseqPayload::new();
    payload.set_insn_profile(
        5,
        InsnProfile::OptPlus { recv_is_fixnum: true, obj_is_fixnum: true },
    );
    let function = iseq_to_hir(&iseq, &payload).unwrap();
    match &function.insns[9] {
        Insn::Snapshot { state } => assert_eq!(state.stack.len(), 1),
        other => panic!("unexpected {other:?}"),
    }
}

fn underflow_of(words: &[u64], locals: usize, call_data: Vec<CallData>) -> (Vec<InsnId>, u32) {
    let iseq = unit(words, locals, call_data);
    assert!(iseq.is_well_formed());
    match iseq_to_hir(&iseq, &IseqPayload::new()) {
        Err(ParseError::StackUnderflow(state)) => (state.stack, state.pc),
        other => panic!("expected an underflow, got {other:?}"),
    }
}

#[test]
fn test_underflow_is_reported() {
    let leave = op(YARVINSN_leave);
    assert_eq!(underflow_of(&[leave], 0, vec![]), (vec![], 0));
    assert_eq!(underflow_of(&[op(YARVINSN_pop), leave], 0, vec![]), (vec![], 0));
    assert_eq!(underflow_of(&[op(YARVINSN_dup), leave], 0, vec![]), (vec![], 0));
    assert_eq!(underflow_of(&[op(YARVINSN_intern), leave], 0, vec![]), (vec![], 0));
    assert_eq!(underflow_of(&[op(YARVINSN_setlocal_WC_0), 3, leave], 1, vec![]), (vec![], 0));
    assert_eq!(underflow_of(&[op(YARVINSN_branchif), rel(0), leave], 0, vec![]), (vec![], 0));
    // one value where two are read: the state reported is the one in which
    // the second was asked for
    let one = op(YARVINSN_putnil);
    assert_eq!(underflow_of(&[one, op(YARVINSN_swap), leave], 0, vec![]), (vec![], 1));
    assert_eq!(underflow_of(&[one, op(YARVINSN_opt_plus), 0, leave], 0, vec![]), (vec![], 1));
    assert_eq!(underflow_of(&[one, op(YARVINSN_opt_lt), 0, leave], 0, vec![]), (vec![], 1));
    assert_eq!(underflow_of(&[one, one, op(YARVINSN_opt_aset), 0, leave], 0, vec![]), (vec![], 2));
    assert_eq!(underflow_of(&[one, op(YARVINSN_newarray), 2, leave], 0, vec![]), (vec![], 1));
    assert_eq!(
        underflow_of(&[one, op(YARVINSN_opt_send_without_block), 0, leave], 0, vec![call("f", 1)]),
        (vec![], 1)
    );
    // the receiver is read like an argument
    assert_eq!(
        underflow_of(&[op(YARVINSN_opt_send_without_block), 0, leave], 0, vec![call("f", 0)]),
        (vec![], 0)
    );
}

#[test]
fn test_setn_beyond_the_stack_is_an_underflow() {
    let (stack, pc) = underflow_of(
        &[op(YARVINSN_putnil), op(YARVINSN_setn), 1, op(YARVINSN_leave)],
        0,
        vec![],
    );
    assert_eq!(stack, vec![InsnId(1)]);
    assert_eq!(pc, 1);
    assert_eq!(underflow_of(&[op(YARVINSN_setn), 0, op(YARVINSN_leave)], 0, vec![]), (vec![], 0));
}

#[test]
fn test_unknown_opcode_is_reported_by_name() {
    for (words, name) in [
        (vec![op(GETGLOBAL), 7, op(YARVINSN_leave)], "getglobal"),
        (
            vec![op(YARVINSN_putnil), op(YARVINSN_branchnil), rel(0), op(YARVINSN_leave)],
            "branchnil",
        ),
        (
            vec![op(YARVINSN_opt_invokebuiltin_delegate_leave), 0, 0],
            "opt_invokebuiltin_delegate_leave",
        ),
        (vec![200], "insn_200"),
    ] {
        let iseq = unit(&words, 0, vec![]);
        assert!(iseq.is_well_formed());
        match iseq_to_hir(&iseq, &IseqPayload::new()) {
            Err(ParseError::UnknownOpcode(found)) => assert_eq!(found, name),
            other => panic!("expected an unknown opcode, got {other:?}"),
        }
    }
}

#[test]
fn test_unknown_opcode_in_code_that_is_not_reached_is_ignored() {
    let iseq = unit(&[op(YARVINSN_putnil), op(YARVINSN_leave), op(GETGLOBAL), 7], 0, vec![]);
    assert_eq!(compute_jump_targets(&iseq), vec![2]);
    let function = translate(&iseq);
    assert_eq!(function.blocks.len(), 2);
    assert!(function.blocks[1].insns.is_empty());
}

#[test]
fn test_entry_locals_are_parameters_then_nil() {
    let mut iseq = unit(&[op(YARVINSN_getlocal_WC_0), 5, op(YARVINSN_leave)], 3, vec![]);
    iseq.param_lead_num = 2;
    let function = translate(&iseq);
    assert!(matches!(function.insns[0], Insn::Param { idx: 0 }));
    assert!(matches!(function.insns[1], Insn::Param { idx: 1 }));
    assert!(matches!(function.insns[2], Insn::Const { val: VALUE(4) }));
    // distance 5 below the environment pointer is the first of three locals
    assert!(matches!(function.insns.last(), Some(Insn::Return { val: InsnId(0) })));
    let iseq = {
        let mut iseq = unit(&[op(YARVINSN_getlocal_WC_0), 3, op(YARVINSN_leave)], 3, vec![]);
        iseq.param_lead_num = 2;
        iseq
    };
    let function = translate(&iseq);
    assert!(matches!(function.insns.last(), Some(Insn::Return { val: InsnId(2) })));
}

#[test]
fn test_stack_shuffles_emit_nothing() {
    let iseq = unit(
        &[
            op(YARVINSN_putself),
            op(YARVINSN_putnil),
            op(YARVINSN_swap),
            op(YARVINSN_dup),
            op(YARVINSN_setn),
            2,
            op(YARVINSN_pop),
            op(YARVINSN_leave),
        ],
        0,
        vec![],
    );
    let function = translate(&iseq);
    let code = block_code(&function, 0);
    assert_eq!(code.len(), 3);
    // self is v1, nil is v3; swap: [v3, v1]; dup: [v3, v1, v1]; setn 2: [v1, v1, v1]
    match &function.insns[function.insns.len() - 2] {
        Insn::Snapshot { state } => assert_eq!(state.stack, vec![InsnId(1), InsnId(1)]),
        other => panic!("unexpected {other:?}"),
    }
    assert!(matches!(code[2], Insn::Return { val: InsnId(1) }));
}

#[test]
fn test_send_keeps_call_order() {
    let iseq = unit(
        &[
            op(YARVINSN_putself),
            op(YARVINSN_putobject_INT2FIX_0_),
            op(YARVINSN_putobject_INT2FIX_1_),
            op(YARVINSN_putnil),
            op(YARVINSN_opt_send_without_block),
            1,
            op(YARVINSN_leave),
        ],
        0,
        vec![call("unused", 0), CallData { name: None, argc: 3 }],
    );
    let function = translate(&iseq);
    let code = block_code(&function, 0);
    let (recv, name, args) = send_parts(code[4]);
    assert_eq!(recv, InsnId(1));
    assert_eq!(name, "<unknown>");
    assert_eq!(args, vec![InsnId(3), InsnId(5), InsnId(7)]);

    let iseq = unit(
        &[
            op(YARVINSN_putself),
            op(YARVINSN_putnil),
            op(YARVINSN_opt_send_without_block),
            0,
            op(YARVINSN_leave),
        ],
        0,
        vec![call("puts", 1)],
    );
    let function = translate(&iseq);
    let (recv, name, args) = send_parts(block_code(&function, 0)[2]);
    assert_eq!((recv, name.as_str(), args), (InsnId(1), "puts", vec![InsnId(3)]));
}

#[test]
fn test_operators_are_sent_by_name() {
    for (opcode, name) in [
        (YARVINSN_opt_div, "/"),
        (YARVINSN_opt_lt, "<"),
        (YARVINSN_opt_ltlt, "<<"),
        (YARVINSN_opt_plus, "+"),
    ] {
        let iseq = unit(
            &[op(YARVINSN_putself), op(YARVINSN_putnil), op(opcode), 0, op(YARVINSN_leave)],
            0,
            vec![call(name, 1)],
        );
        let function = translate(&iseq);
        let (recv, found, args) = send_parts(block_code(&function, 0)[2]);
        assert_eq!((recv, found.as_str(), args), (InsnId(1), name, vec![InsnId(3)]));
    }
    let iseq = unit(
        &[op(YARVINSN_putself), op(YARVINSN_opt_nil_p), 0, op(YARVINSN_leave)],
        0,
        vec![call("nil?", 0)],
    );
    let function = translate(&iseq);
    let (recv, found, args) = send_parts(block_code(&function, 0)[1]);
    assert_eq!((recv, found.as_str(), args), (InsnId(1), "nil?", vec![]));

    let iseq = unit(
        &[
            op(YARVINSN_putself),
            op(YARVINSN_putnil),
            op(YARVINSN_putobject_INT2FIX_1_),
            op(YARVINSN_opt_aset),
            0,
            op(YARVINSN_leave),
        ],
        0,
        vec![call("[]=", 2)],
    );
    let function = translate(&iseq);
    let code = block_code(&function, 0);
    let (recv, found, args) = send_parts(code[3]);
    assert_eq!((recv, found.as_str(), args), (InsnId(1), "[]=", vec![InsnId(3), InsnId(5)]));
    // the value stored is what the expression leaves
    assert!(matches!(code[4], Insn::Return { val: InsnId(5) }));
}

#[test]
fn test_literals_and_arrays() {
    let iseq = unit(
        &[
            op(YARVINSN_putstring),
            0x1000,
            op(YARVINSN_intern),
            op(YARVINSN_putobject_INT2FIX_0_),
            op(YARVINSN_newarray),
            2,
            op(YARVINSN_duparray),
            0x2000,
            op(YARVINSN_opt_getconstant_path),
            0x3000,
            op(YARVINSN_defined),
            5,
            6,
            7,
            op(YARVINSN_leave),
        ],
        0,
        vec![],
    );
    let function = translate(&iseq);
    let code = block_code(&function, 0);
    assert!(matches!(code[0], Insn::Const { val: VALUE(0x1000) }));
    assert!(matches!(code[1], Insn::StringCopy { val: InsnId(1) }));
    assert!(matches!(code[2], Insn::StringIntern { val: InsnId(2) }));
    assert!(matches!(code[3], Insn::Const { val: VALUE(1) }));
    assert!(matches!(code[4], Insn::NewArray { count: 2 }));
    // the top of the stack is the last element
    assert!(matches!(code[5], Insn::ArraySet { idx: 1, val: InsnId(6) }));
    assert!(matches!(code[6], Insn::ArraySet { idx: 0, val: InsnId(4) }));
    assert!(matches!(code[7], Insn::Const { val: VALUE(0x2000) }));
    assert!(matches!(code[8], Insn::ArrayDup { val: InsnId(12) }));
    assert!(matches!(code[9], Insn::GetConstantPath { ic: VALUE(0x3000) }));
    assert!(matches!(
        code[10],
        Insn::Defined { op_type: VALUE(5), obj: VALUE(5), pushval: VALUE(5), v: InsnId(15) }
    ));
    assert_eq!(code.len(), 12);
}
