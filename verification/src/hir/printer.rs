//! Text for diagnosis: how identities, values, edges, states, instructions
//! and whole functions read when they are dumped.

use vstd::prelude::*;
use vstd::string::StringExecFns;
use crate::hir::frame_state::{FrameState, FrameStateView};
use crate::hir::function::{Function, FunctionView};
use crate::hir::id::{BlockId, InsnId};
use crate::hir::insn::{BranchEdge, BranchEdgeView, Insn, InsnView, Invariant};
use crate::hir::value::{RUBY_Qfalse, RUBY_Qnil, RUBY_Qtrue, VALUE};

verus! {

/// The numeral of a number below ten.
pub open spec fn digit(d: nat) -> Seq<char> {
    if d == 0 {
        "0"@
    } else if d == 1 {
        "1"@
    } else if d == 2 {
        "2"@
    } else if d == 3 {
        "3"@
    } else if d == 4 {
        "4"@
    } else if d == 5 {
        "5"@
    } else if d == 6 {
        "6"@
    } else if d == 7 {
        "7"@
    } else if d == 8 {
        "8"@
    } else {
        "9"@
    }
}

/// The numeral of a number below sixteen, in upper case.
pub open spec fn hex_digit(d: nat) -> Seq<char> {
    if d < 10 {
        digit(d)
    } else if d == 10 {
        "A"@
    } else if d == 11 {
        "B"@
    } else if d == 12 {
        "C"@
    } else if d == 13 {
        "D"@
    } else if d == 14 {
        "E"@
    } else {
        "F"@
    }
}

/// `n` in decimal, without leading zeros.
pub open spec fn decimal(n: nat) -> Seq<char>
    decreases n,
{
    if n < 10 {
        digit(n)
    } else {
        decimal(n / 10) + digit(n % 10)
    }
}

/// `n` in decimal, with a minus sign where it is negative.
pub open spec fn signed_decimal(n: int) -> Seq<char> {
    if n < 0 {
        "-"@ + decimal((-n) as nat)
    } else {
        decimal(n as nat)
    }
}

/// `n` in hexadecimal, in upper case and without leading zeros.
pub open spec fn hex(n: nat) -> Seq<char>
    decreases n,
{
    if n < 16 {
        hex_digit(n)
    } else {
        hex(n / 16) + hex_digit(n % 16)
    }
}

/// How an instruction identity reads: `v` and its number.
pub open spec fn insn_id_text(id: InsnId) -> Seq<char> {
    "v"@ + decimal(id.0 as nat)
}

/// How a block identity reads: `bb` and its number.
pub open spec fn block_id_text(id: BlockId) -> Seq<char> {
    "bb"@ + decimal(id.0 as nat)
}

/// The identities of `ids` as they read, with a comma and a blank between
/// one and the next.
pub open spec fn joined(ids: Seq<InsnId>) -> Seq<char>
    decreases ids.len(),
{
    if ids.len() == 0 {
        Seq::empty()
    } else if ids.len() == 1 {
        insn_id_text(ids[0])
    } else {
        joined(ids.drop_last()) + ", "@ + insn_id_text(ids.last())
    }
}

/// How a list of identities reads: in square brackets, with commas.
pub open spec fn list_text(ids: Seq<InsnId>) -> Seq<char> {
    "["@ + joined(ids) + "]"@
}

/// How a value of the host reads: a small integer as `Fixnum` with its
/// number, `nil`, `true` and `false` by name, and any other word as `VALUE`
/// with the word in hexadecimal.
pub open spec fn value_text(val: VALUE) -> Seq<char> {
    if val.is_fixnum() {
        "Fixnum("@ + signed_decimal(val.fixnum_value()) + ")"@
    } else if val.0 == RUBY_Qnil {
        "nil"@
    } else if val.0 == RUBY_Qtrue {
        "true"@
    } else if val.0 == RUBY_Qfalse {
        "false"@
    } else {
        "VALUE(0x"@ + hex(val.0 as nat) + ")"@
    }
}

/// How a word reads where structure is shown rather than meaning.
pub open spec fn value_debug_text(val: VALUE) -> Seq<char> {
    "VALUE("@ + decimal(val.0 as nat) + ")"@
}

/// How an instruction identity reads where structure is shown.
pub open spec fn insn_id_debug_text(id: InsnId) -> Seq<char> {
    "InsnId("@ + decimal(id.0 as nat) + ")"@
}

/// The identities of `ids` as they read where structure is shown, with a
/// comma and a blank between one and the next.
pub open spec fn joined_debug(ids: Seq<InsnId>) -> Seq<char>
    decreases ids.len(),
{
    if ids.len() == 0 {
        Seq::empty()
    } else if ids.len() == 1 {
        insn_id_debug_text(ids[0])
    } else {
        joined_debug(ids.drop_last()) + ", "@ + insn_id_debug_text(ids.last())
    }
}

/// How a truth value reads.
pub open spec fn bool_text(b: bool) -> Seq<char> {
    if b {
        "true"@
    } else {
        "false"@
    }
}

/// How a control edge reads: the target block and, in round brackets, the
/// arguments.
pub open spec fn edge_text(edge: BranchEdgeView) -> Seq<char> {
    block_id_text(edge.target) + "("@ + joined(edge.args) + ")"@
}

/// How a frame state reads.
pub open spec fn frame_state_text(state: FrameStateView) -> Seq<char> {
    "FrameState { pc: "@ + decimal(state.pc as nat) + ", stack: "@ + list_text(state.stack)
        + ", locals: "@ + list_text(state.locals) + " }"@
}

/// Each argument of a call as it reads, with a comma and a blank before it.
pub open spec fn call_args_text(args: Seq<InsnId>) -> Seq<char>
    decreases args.len(),
{
    if args.len() == 0 {
        Seq::empty()
    } else {
        call_args_text(args.drop_last()) + ", "@ + insn_id_text(args.last())
    }
}

/// How an instruction reads. The instructions that the translation emits
/// most read by name and operands; the others read as their structure.
pub open spec fn insn_text(insn: InsnView) -> Seq<char> {
    match insn {
        InsnView::Param { idx } => "Param "@ + decimal(idx as nat),
        InsnView::Const { val } => "Const "@ + value_text(val),
        InsnView::IfTrue { val, target } => "IfTrue "@ + insn_id_text(val) + ", "@ + edge_text(
            target,
        ),
        InsnView::IfFalse { val, target } => "IfFalse "@ + insn_id_text(val) + ", "@ + edge_text(
            target,
        ),
        InsnView::Jump(target) => "Jump "@ + edge_text(target),
        InsnView::Return { val } => "Return "@ + insn_id_text(val),
        InsnView::NewArray { count } => "NewArray "@ + decimal(count as nat),
        InsnView::ArraySet { idx, val } => "ArraySet "@ + decimal(idx as nat) + ", "@
            + insn_id_text(val),
        InsnView::ArrayDup { val } => "ArrayDup "@ + insn_id_text(val),
        InsnView::Send { self_val, call_info, args } => "Send "@ + insn_id_text(self_val) + ", :"@
            + call_info.name + call_args_text(args),
        InsnView::Test { val } => "Test "@ + insn_id_text(val),
        InsnView::Snapshot { state } => "Snapshot "@ + frame_state_text(state),
        InsnView::PutSelf => "PutSelf"@,
        InsnView::StringCopy { val } => "StringCopy { val: "@ + insn_id_debug_text(val) + " }"@,
        InsnView::StringIntern { val } => "StringIntern { val: "@ + insn_id_debug_text(val)
            + " }"@,
        InsnView::Defined { op_type, obj, pushval, v } => "Defined { op_type: "@
            + value_debug_text(op_type) + ", obj: "@ + value_debug_text(obj) + ", pushval: "@
            + value_debug_text(pushval) + ", v: "@ + insn_id_debug_text(v) + " }"@,
        InsnView::GetConstantPath { ic } => "GetConstantPath { ic: "@ + value_debug_text(ic)
            + " }"@,
        InsnView::CCall { cfun, args } => "CCall { cfun: "@ + value_debug_text(cfun)
            + ", args: ["@ + joined_debug(args) + "] }"@,
        InsnView::FixnumAdd { recv, obj } => "FixnumAdd { recv: "@ + insn_id_debug_text(recv)
            + ", obj: "@ + insn_id_debug_text(obj) + " }"@,
        InsnView::GuardType { val, is_fixnum } => "GuardType { val: "@ + insn_id_debug_text(val)
            + ", is_fixnum: "@ + bool_text(is_fixnum) + " }"@,
        InsnView::PatchPoint(Invariant::BOPRedefined { klass, bop }) =>
            "PatchPoint(BOPRedefined { klass: "@ + decimal(klass as nat) + ", bop: "@ + decimal(
            bop as nat,
        ) + " })"@,
    }
}

/// Whether the instruction `id` of `fun` is shown in a dump: a snapshot only
/// where snapshots are asked for.
pub open spec fn shown(fun: FunctionView, id: InsnId, display_snapshot: bool) -> bool {
    display_snapshot || !(fun.insns[id.0 as int] is Snapshot)
}

/// The line of the instruction `id` of `fun` in a dump: its identity, what
/// it is, and a line break; nothing where it is not shown.
pub open spec fn line_text(fun: FunctionView, id: InsnId, display_snapshot: bool) -> Seq<char> {
    if shown(fun, id, display_snapshot) {
        "  "@ + insn_id_text(id) + " = "@ + insn_text(fun.insns[id.0 as int]) + "\n"@
    } else {
        Seq::empty()
    }
}

/// The lines of the instructions `ids` of `fun` in a dump, in order.
pub open spec fn lines_text(fun: FunctionView, ids: Seq<InsnId>, display_snapshot: bool) -> Seq<
    char,
>
    decreases ids.len(),
{
    if ids.len() == 0 {
        Seq::empty()
    } else {
        lines_text(fun, ids.drop_last(), display_snapshot) + line_text(
            fun,
            ids.last(),
            display_snapshot,
        )
    }
}

/// Block `b` of `fun` in a dump: a line with its identity and a colon, then
/// the lines of its instructions.
pub open spec fn block_text(fun: FunctionView, b: int, display_snapshot: bool) -> Seq<char> {
    block_id_text(BlockId(b as usize)) + ":\n"@ + lines_text(
        fun,
        fun.blocks[b].insns,
        display_snapshot,
    )
}

/// The first `n` blocks of `fun` in a dump, in order.
pub open spec fn blocks_text(fun: FunctionView, n: nat, display_snapshot: bool) -> Seq<char>
    decreases n,
{
    if n == 0 {
        Seq::empty()
    } else {
        blocks_text(fun, (n - 1) as nat, display_snapshot) + block_text(
            fun,
            n - 1,
            display_snapshot,
        )
    }
}

/// The dump of `fun`: every block in the order of the block table.
pub open spec fn function_text(fun: FunctionView, display_snapshot: bool) -> Seq<char> {
    blocks_text(fun, fun.blocks.len(), display_snapshot)
}

/// The numeral of a number below sixteen, in upper case.
fn hex_digit_str(d: u64) -> (s: &'static str)
    requires
        d < 16,
    ensures
        s@ == hex_digit(d as nat),
{
    if d == 0 {
        "0"
    } else if d == 1 {
        "1"
    } else if d == 2 {
        "2"
    } else if d == 3 {
        "3"
    } else if d == 4 {
        "4"
    } else if d == 5 {
        "5"
    } else if d == 6 {
        "6"
    } else if d == 7 {
        "7"
    } else if d == 8 {
        "8"
    } else if d == 9 {
        "9"
    } else if d == 10 {
        "A"
    } else if d == 11 {
        "B"
    } else if d == 12 {
        "C"
    } else if d == 13 {
        "D"
    } else if d == 14 {
        "E"
    } else {
        "F"
    }
}

/// Appends `n` in decimal.
fn append_decimal(out: &mut String, n: u64)
    ensures
        final(out)@ == old(out)@ + decimal(n as nat),
    decreases n,
{
    if n >= 10 {
        append_decimal(out, n / 10);
    }
    out.append(hex_digit_str(n % 10));
    assert(out@ =~= old(out)@ + decimal(n as nat));
}

/// Appends `n` in hexadecimal.
fn append_hex(out: &mut String, n: u64)
    ensures
        final(out)@ == old(out)@ + hex(n as nat),
    decreases n,
{
    if n >= 16 {
        append_hex(out, n / 16);
    }
    out.append(hex_digit_str(n % 16));
    assert(out@ =~= old(out)@ + hex(n as nat));
}

/// Appends `n` in decimal, with a minus sign where it is negative.
fn append_signed_decimal(out: &mut String, n: i64)
    requires
        n > i64::MIN,
    ensures
        final(out)@ == old(out)@ + signed_decimal(n as int),
{
    if n < 0 {
        out.append("-");
        append_decimal(out, (-n) as u64);
        assert(out@ =~= old(out)@ + signed_decimal(n as int));
    } else {
        append_decimal(out, n as u64);
    }
}

/// Appends an instruction identity as it reads.
fn append_insn_id(out: &mut String, id: InsnId)
    ensures
        final(out)@ == old(out)@ + insn_id_text(id),
{
    out.append("v");
    append_decimal(out, id.0 as u64);
    assert(out@ =~= old(out)@ + insn_id_text(id));
}

/// Appends a block identity as it reads.
fn append_block_id(out: &mut String, id: BlockId)
    ensures
        final(out)@ == old(out)@ + block_id_text(id),
{
    out.append("bb");
    append_decimal(out, id.0 as u64);
    assert(out@ =~= old(out)@ + block_id_text(id));
}

/// Appends the identities of `ids` with a comma and a blank between one and
/// the next.
fn append_joined(out: &mut String, ids: &Vec<InsnId>)
    ensures
        final(out)@ == old(out)@ + joined(ids@),
{
    let mut i: usize = 0;
    assert(ids@.take(0) =~= Seq::empty());
    assert(out@ =~= old(out)@ + joined(ids@.take(0)));
    while i < ids.len()
        invariant
            i <= ids@.len(),
            out@ == old(out)@ + joined(ids@.take(i as int)),
        decreases ids@.len() - i,
    {
        let ghost before = out@;
        if i > 0 {
            out.append(", ");
        }
        append_insn_id(out, ids[i]);
        proof {
            let next = ids@.take(i + 1);
            assert(next.drop_last() =~= ids@.take(i as int));
            assert(next.last() == ids@[i as int]);
            assert(out@ =~= old(out)@ + joined(next));
        }
        i += 1;
    }
    assert(ids@.take(i as int) =~= ids@);
}

/// Appends a list of identities as it reads: in square brackets, with
/// commas.
pub fn write_vec(out: &mut String, objs: &Vec<InsnId>)
    ensures
        final(out)@ == old(out)@ + list_text(objs@),
{
    out.append("[");
    append_joined(out, objs);
    out.append("]");
    assert(out@ =~= old(out)@ + list_text(objs@));
}

/// Appends a value of the host as it reads.
fn append_value(out: &mut String, val: VALUE)
    ensures
        final(out)@ == old(out)@ + value_text(val),
{
    if val.fixnum_p() {
        out.append("Fixnum(");
        append_signed_decimal(out, val.as_fixnum());
        out.append(")");
        assert(out@ =~= old(out)@ + value_text(val));
    } else if val.0 == RUBY_Qnil {
        out.append("nil");
    } else if val.0 == RUBY_Qtrue {
        out.append("true");
    } else if val.0 == RUBY_Qfalse {
        out.append("false");
    } else {
        out.append("VALUE(0x");
        append_hex(out, val.0);
        out.append(")");
        assert(out@ =~= old(out)@ + value_text(val));
    }
}

/// Appends a word as it reads where structure is shown.
fn append_value_debug(out: &mut String, val: VALUE)
    ensures
        final(out)@ == old(out)@ + value_debug_text(val),
{
    out.append("VALUE(");
    append_decimal(out, val.0);
    out.append(")");
    assert(out@ =~= old(out)@ + value_debug_text(val));
}

/// Appends an instruction identity as it reads where structure is shown.
fn append_insn_id_debug(out: &mut String, id: InsnId)
    ensures
        final(out)@ == old(out)@ + insn_id_debug_text(id),
{
    out.append("InsnId(");
    append_decimal(out, id.0 as u64);
    out.append(")");
    assert(out@ =~= old(out)@ + insn_id_debug_text(id));
}

/// Appends the identities of `ids` as they read where structure is shown,
/// with a comma and a blank between one and the next.
fn append_joined_debug(out: &mut String, ids: &Vec<InsnId>)
    ensures
        final(out)@ == old(out)@ + joined_debug(ids@),
{
    let mut i: usize = 0;
    assert(ids@.take(0) =~= Seq::empty());
    assert(out@ =~= old(out)@ + joined_debug(ids@.take(0)));
    while i < ids.len()
        invariant
            i <= ids@.len(),
            out@ == old(out)@ + joined_debug(ids@.take(i as int)),
        decreases ids@.len() - i,
    {
        if i > 0 {
            out.append(", ");
        }
        append_insn_id_debug(out, ids[i]);
        proof {
            let next = ids@.take(i + 1);
            assert(next.drop_last() =~= ids@.take(i as int));
            assert(next.last() == ids@[i as int]);
            assert(out@ =~= old(out)@ + joined_debug(next));
        }
        i += 1;
    }
    assert(ids@.take(i as int) =~= ids@);
}

/// Appends each argument of a call as it reads, with a comma and a blank
/// before it.
fn append_call_args(out: &mut String, args: &Vec<InsnId>)
    ensures
        final(out)@ == old(out)@ + call_args_text(args@),
{
    let mut i: usize = 0;
    assert(args@.take(0) =~= Seq::empty());
    assert(out@ =~= old(out)@ + call_args_text(args@.take(0)));
    while i < args.len()
        invariant
            i <= args@.len(),
            out@ == old(out)@ + call_args_text(args@.take(i as int)),
        decreases args@.len() - i,
    {
        out.append(", ");
        append_insn_id(out, args[i]);
        proof {
            let next = args@.take(i + 1);
            assert(next.drop_last() =~= args@.take(i as int));
            assert(next.last() == args@[i as int]);
            assert(out@ =~= old(out)@ + call_args_text(next));
        }
        i += 1;
    }
    assert(args@.take(i as int) =~= args@);
}

/// Appends a control edge as it reads.
fn append_edge(out: &mut String, edge: &BranchEdge)
    ensures
        final(out)@ == old(out)@ + edge_text(edge@),
{
    append_block_id(out, edge.target);
    out.append("(");
    append_joined(out, &edge.args);
    out.append(")");
    assert(out@ =~= old(out)@ + edge_text(edge@));
}

/// Appends a frame state as it reads.
fn append_frame_state(out: &mut String, state: &FrameState)
    ensures
        final(out)@ == old(out)@ + frame_state_text(state@),
{
    out.append("FrameState { pc: ");
    append_decimal(out, state.pc as u64);
    out.append(", stack: ");
    write_vec(out, &state.stack);
    out.append(", locals: ");
    write_vec(out, &state.locals);
    out.append(" }");
    assert(out@ =~= old(out)@ + frame_state_text(state@));
}

/// Appends a word and an instruction identity, with `label` before it.
fn append_labelled_id(out: &mut String, label: &str, id: InsnId)
    ensures
        final(out)@ == old(out)@ + label@ + insn_id_text(id),
{
    out.append(label);
    append_insn_id(out, id);
}

/// Whether an instruction reads by name and operands in a dump, rather than
/// as its structure.
pub open spec fn reads_by_name(insn: InsnView) -> bool {
    match insn {
        InsnView::Param { .. }
        | InsnView::Const { .. }
        | InsnView::IfTrue { .. }
        | InsnView::IfFalse { .. }
        | InsnView::Jump(_)
        | InsnView::Return { .. }
        | InsnView::NewArray { .. }
        | InsnView::ArraySet { .. }
        | InsnView::ArrayDup { .. }
        | InsnView::Send { .. }
        | InsnView::Test { .. }
        | InsnView::Snapshot { .. } => true,
        _ => false,
    }
}

/// Appends an instruction that reads by name and operands.
#[verifier::rlimit(40)]
fn append_named_insn(out: &mut String, insn: &Insn)
    requires
        reads_by_name(insn@),
    ensures
        final(out)@ == old(out)@ + insn_text(insn@),
{
    match insn {
        Insn::Param { idx } => {
            out.append("Param ");
            append_decimal(out, *idx as u64);
            assert(out@ =~= old(out)@ + insn_text(insn@));
        },
        Insn::Const { val } => {
            out.append("Const ");
            append_value(out, *val);
            assert(out@ =~= old(out)@ + insn_text(insn@));
        },
        Insn::IfTrue { val, target } => {
            append_labelled_id(out, "IfTrue ", *val);
            out.append(", ");
            append_edge(out, target);
            assert(out@ =~= old(out)@ + insn_text(insn@));
        },
        Insn::IfFalse { val, target } => {
            append_labelled_id(out, "IfFalse ", *val);
            out.append(", ");
            append_edge(out, target);
            assert(out@ =~= old(out)@ + insn_text(insn@));
        },
        Insn::Jump(target) => {
            out.append("Jump ");
            append_edge(out, target);
            assert(out@ =~= old(out)@ + insn_text(insn@));
        },
        Insn::Return { val } => {
            append_labelled_id(out, "Return ", *val);
            assert(out@ =~= old(out)@ + insn_text(insn@));
        },
        Insn::NewArray { count } => {
            out.append("NewArray ");
            append_decimal(out, *count as u64);
            assert(out@ =~= old(out)@ + insn_text(insn@));
        },
        Insn::ArraySet { idx, val } => {
            out.append("ArraySet ");
            append_decimal(out, *idx as u64);
            append_labelled_id(out, ", ", *val);
            assert(out@ =~= old(out)@ + insn_text(insn@));
        },
        Insn::ArrayDup { val } => {
            append_labelled_id(out, "ArrayDup ", *val);
            assert(out@ =~= old(out)@ + insn_text(insn@));
        },
        Insn::Send { self_val, call_info, args } => {
            append_labelled_id(out, "Send ", *self_val);
            out.append(", :");
            out.append(call_info.name.as_str());
            append_call_args(out, args);
            assert(out@ =~= old(out)@ + insn_text(insn@));
        },
        Insn::Test { val } => {
            append_labelled_id(out, "Test ", *val);
            assert(out@ =~= old(out)@ + insn_text(insn@));
        },
        Insn::Snapshot { state } => {
            out.append("Snapshot ");
            append_frame_state(out, state);
            assert(out@ =~= old(out)@ + insn_text(insn@));
        },
        _ => {},
    }
}

/// Appends an instruction that reads as its structure.
#[verifier::rlimit(40)]
fn append_structure_of_insn(out: &mut String, insn: &Insn)
    requires
        !reads_by_name(insn@),
    ensures
        final(out)@ == old(out)@ + insn_text(insn@),
{
    match insn {
        Insn::PutSelf => {
            out.append("PutSelf");
            assert(out@ =~= old(out)@ + insn_text(insn@));
        },
        Insn::StringCopy { val } => {
            out.append("StringCopy { val: ");
            append_insn_id_debug(out, *val);
            out.append(" }");
            assert(out@ =~= old(out)@ + insn_text(insn@));
        },
        Insn::StringIntern { val } => {
            out.append("StringIntern { val: ");
            append_insn_id_debug(out, *val);
            out.append(" }");
            assert(out@ =~= old(out)@ + insn_text(insn@));
        },
        Insn::Defined { op_type, obj, pushval, v } => {
            out.append("Defined { op_type: ");
            append_value_debug(out, *op_type);
            out.append(", obj: ");
            append_value_debug(out, *obj);
            out.append(", pushval: ");
            append_value_debug(out, *pushval);
            out.append(", v: ");
            append_insn_id_debug(out, *v);
            out.append(" }");
            assert(out@ =~= old(out)@ + insn_text(insn@));
        },
        Insn::GetConstantPath { ic } => {
            out.append("GetConstantPath { ic: ");
            append_value_debug(out, *ic);
            out.append(" }");
            assert(out@ =~= old(out)@ + insn_text(insn@));
        },
        Insn::CCall { cfun, args } => {
            out.append("CCall { cfun: ");
            append_value_debug(out, *cfun);
            out.append(", args: [");
            append_joined_debug(out, args);
            out.append("] }");
            assert(out@ =~= old(out)@ + insn_text(insn@));
        },
        Insn::FixnumAdd { recv, obj } => {
            out.append("FixnumAdd { recv: ");
            append_insn_id_debug(out, *recv);
            out.append(", obj: ");
            append_insn_id_debug(out, *obj);
            out.append(" }");
            assert(out@ =~= old(out)@ + insn_text(insn@));
        },
        Insn::GuardType { val, is_fixnum } => {
            out.append("GuardType { val: ");
            append_insn_id_debug(out, *val);
            out.append(", is_fixnum: ");
            if *is_fixnum {
                out.append("true");
            } else {
                out.append("false");
            }
            out.append(" }");
            assert(out@ =~= old(out)@ + insn_text(insn@));
        },
        Insn::PatchPoint(Invariant::BOPRedefined { klass, bop }) => {
            out.append("PatchPoint(BOPRedefined { klass: ");
            append_decimal(out, *klass as u64);
            out.append(", bop: ");
            append_decimal(out, *bop as u64);
            out.append(" })");
            assert(out@ =~= old(out)@ + insn_text(insn@));
        },
        _ => {},
    }
}

/// Appends an instruction as it reads.
fn append_insn(out: &mut String, insn: &Insn)
    ensures
        final(out)@ == old(out)@ + insn_text(insn@),
{
    match insn {
        Insn::Param { .. }
        | Insn::Const { .. }
        | Insn::IfTrue { .. }
        | Insn::IfFalse { .. }
        | Insn::Jump(_)
        | Insn::Return { .. }
        | Insn::NewArray { .. }
        | Insn::ArraySet { .. }
        | Insn::ArrayDup { .. }
        | Insn::Send { .. }
        | Insn::Test { .. }
        | Insn::Snapshot { .. } => append_named_insn(out, insn),
        _ => append_structure_of_insn(out, insn),
    }
}

impl InsnId {
    /// How the identity reads: `v` and its number.
    pub fn to_string(&self) -> (text: String)
        ensures
            text@ == insn_id_text(*self),
    {
        let mut out = String::new();
        append_insn_id(&mut out, *self);
        assert(out@ =~= insn_id_text(*self));
        out
    }
}

impl BlockId {
    /// How the identity reads: `bb` and its number.
    pub fn to_string(&self) -> (text: String)
        ensures
            text@ == block_id_text(*self),
    {
        let mut out = String::new();
        append_block_id(&mut out, *self);
        assert(out@ =~= block_id_text(*self));
        out
    }
}

impl VALUE {
    /// How the value reads: a small integer as `Fixnum` with its number,
    /// `nil`, `true` and `false` by name, any other word in hexadecimal.
    pub fn to_string(&self) -> (text: String)
        ensures
            text@ == value_text(*self),
    {
        let mut out = String::new();
        append_value(&mut out, *self);
        assert(out@ =~= value_text(*self));
        out
    }
}

impl BranchEdge {
    /// How the edge reads: the target block and, in round brackets, the
    /// arguments.
    pub fn to_string(&self) -> (text: String)
        ensures
            text@ == edge_text(self@),
    {
        let mut out = String::new();
        append_edge(&mut out, self);
        assert(out@ =~= edge_text(self@));
        out
    }
}

impl FrameState {
    /// How the state reads: the program counter, the stack and the locals.
    pub fn to_string(&self) -> (text: String)
        ensures
            text@ == frame_state_text(self@),
    {
        let mut out = String::new();
        append_frame_state(&mut out, self);
        assert(out@ =~= frame_state_text(self@));
        out
    }
}

/// A function together with the choice of what its dump shows.
pub struct FunctionPrinter<'a> {
    fun: &'a Function,
    display_snapshot: bool,
}

impl<'a> FunctionPrinter<'a> {
    /// The function that is dumped.
    pub closed spec fn function(&self) -> &Function {
        self.fun
    }

    /// Whether the dump shows snapshots.
    pub closed spec fn shows_snapshots(&self) -> bool {
        self.display_snapshot
    }

    /// A dump of `fun` that leaves the snapshots out.
    pub fn without_snapshot(fun: &'a Function) -> (printer: FunctionPrinter<'a>)
        ensures
            printer.function() == fun,
            !printer.shows_snapshots(),
    {
        FunctionPrinter { fun, display_snapshot: false }
    }

    /// A dump of `fun` that shows the snapshots too.
    pub fn with_snapshot(fun: &'a Function) -> (printer: FunctionPrinter<'a>)
        ensures
            printer.function() == fun,
            printer.shows_snapshots(),
    {
        FunctionPrinter { fun, display_snapshot: true }
    }

    /// The dump: for each block a line with its identity, then a line for
    /// each of its instructions that is shown.
    pub fn to_string(&self) -> (text: String)
        requires
            self.function()@.listed_insns_exist(),
        ensures
            text@ == function_text(self.function()@, self.shows_snapshots()),
    {
        let fun = self.fun;
        let mut out = String::new();
        let mut b: usize = 0;
        assert(out@ =~= blocks_text(fun@, 0, self.display_snapshot));
        while b < fun.blocks.len()
            invariant
                fun == self.fun,
                fun@.listed_insns_exist(),
                b <= fun@.blocks.len(),
                out@ == blocks_text(fun@, b as nat, self.display_snapshot),
            decreases fun@.blocks.len() - b,
        {
            let ghost done = out@;
            let block = &fun.blocks[b];
            append_block_id(&mut out, BlockId(b));
            out.append(":\n");
            let mut i: usize = 0;
            assert(block.insns@.take(0) =~= Seq::empty());
            assert(out@ =~= done + block_id_text(BlockId(b)) + ":\n"@ + lines_text(
                fun@,
                block.insns@.take(0),
                self.display_snapshot,
            ));
            while i < block.insns.len()
                invariant
                    fun == self.fun,
                    fun@.listed_insns_exist(),
                    b < fun@.blocks.len(),
                    block@ == fun@.blocks[b as int],
                    i <= block.insns@.len(),
                    out@ == done + block_id_text(BlockId(b)) + ":\n"@ + lines_text(
                        fun@,
                        block.insns@.take(i as int),
                        self.display_snapshot,
                    ),
                decreases block.insns@.len() - i,
            {
                let insn_id = block.insns[i];
                assert(fun@.is_place(b as int, i as int));
                assert(fun@.blocks[b as int].insns[i as int].0 < fun@.insns.len());
                assert(fun.insns.len() == fun@.insns.len());
                let insn = &fun.insns[insn_id.0];
                let is_snapshot = match insn {
                    Insn::Snapshot { .. } => true,
                    _ => false,
                };
                let ghost before = out@;
                if self.display_snapshot || !is_snapshot {
                    out.append("  ");
                    append_insn_id(&mut out, insn_id);
                    out.append(" = ");
                    append_insn(&mut out, insn);
                    out.append("\n");
                }
                proof {
                    let next = block.insns@.take(i + 1);
                    assert(next.drop_last() =~= block.insns@.take(i as int));
                    assert(next.last() == insn_id);
                    assert(out@ =~= before + line_text(fun@, insn_id, self.display_snapshot));
                    assert(out@ =~= done + block_id_text(BlockId(b)) + ":\n"@ + lines_text(
                        fun@,
                        next,
                        self.display_snapshot,
                    ));
                }
                i += 1;
            }
            proof {
                assert(block.insns@.take(i as int) =~= block.insns@);
                assert(out@ =~= done + block_text(fun@, b as int, self.display_snapshot));
            }
            b += 1;
        }
        out
    }
}

} // verus!
