//! The assembly text of each construct: fixed instruction sequences, labels,
//! and the lines of the data section.

use crate::ast::{BinaryOperator, UnaryOperator};
use crate::text::{append_decimal, append_signed_decimal, decimal, signed_decimal};
use vstd::prelude::*;

verus! {

/// The instructions that apply a binary operator to the left operand in `rax`
/// and the right operand in `rbx`, and leave the result in `rax`; a
/// comparison leaves zero or one.
pub open spec fn binary_code(operator: BinaryOperator) -> Seq<char> {
    match operator {
        BinaryOperator::Add => "    add rax, rbx\n"@,
        BinaryOperator::Subtract => "    sub rax, rbx\n"@,
        BinaryOperator::Multiply => "    imul rax, rbx\n"@,
        BinaryOperator::Divide => "    cqo\n    idiv rbx\n"@,
        BinaryOperator::Modulo => "    cqo\n    idiv rbx\n    mov rax, rdx\n"@,
        BinaryOperator::Equal => "    cmp rax, rbx\n    sete al\n    movzx rax, al\n"@,
        BinaryOperator::NotEqual => "    cmp rax, rbx\n    setne al\n    movzx rax, al\n"@,
        BinaryOperator::LessThan => "    cmp rax, rbx\n    setl al\n    movzx rax, al\n"@,
        BinaryOperator::LessThanEqual => "    cmp rax, rbx\n    setle al\n    movzx rax, al\n"@,
        BinaryOperator::GreaterThan => "    cmp rax, rbx\n    setg al\n    movzx rax, al\n"@,
        BinaryOperator::GreaterThanEqual => "    cmp rax, rbx\n    setge al\n    movzx rax, al\n"@,
        BinaryOperator::And => "    and rax, rbx\n"@,
        BinaryOperator::Or => "    or rax, rbx\n"@,
    }
}

/// The instructions that apply a unary operator to `rax`.
pub open spec fn unary_code(operator: UnaryOperator) -> Seq<char> {
    match operator {
        UnaryOperator::Minus => "    neg rax\n"@,
        UnaryOperator::Not => "    cmp rax, 0\n    sete al\n    movzx rax, al\n"@,
        UnaryOperator::Negate => "    not rax\n"@,
    }
}

/// Pops the two operands of a binary operator: the left one, pushed last,
/// into `rax`, the right one into `rbx`, so that an operator applied to `rax`
/// and `rbx` takes the left operand first.
pub open spec fn pop_operands() -> Seq<char> {
    "    pop rax\n    pop rbx\n"@
}

/// Pops a value into `rax`.
pub open spec fn pop_result() -> Seq<char> {
    "    pop rax\n"@
}

/// Pushes `rax`.
pub open spec fn push_result() -> Seq<char> {
    "    push rax\n"@
}

/// Pops a condition and jumps to `label` where it is zero.
pub open spec fn jump_if_zero(label: Seq<char>) -> Seq<char> {
    "    pop rax\n    cmp rax, 0\n    je "@ + label + "\n"@
}

/// Jumps to `label`.
pub open spec fn jump(label: Seq<char>) -> Seq<char> {
    "    jmp "@ + label + "\n"@
}

/// The line that places a label.
pub open spec fn label_line(label: Seq<char>) -> Seq<char> {
    label + ":\n"@
}

/// A label: a prefix, an underscore and a number.
pub open spec fn label_text(prefix: Seq<char>, number: nat) -> Seq<char> {
    prefix + "_"@ + decimal(number)
}

/// The label of the string literal of index `index` in the data section.
pub open spec fn string_label(index: nat) -> Seq<char> {
    "str_"@ + decimal(index)
}

/// Pushes an integer.
pub open spec fn push_integer(value: int) -> Seq<char> {
    "    push "@ + signed_decimal(value) + "\n"@
}

/// Pushes the address that a label stands for.
pub open spec fn push_label(label: Seq<char>) -> Seq<char> {
    "    push "@ + label + "\n"@
}

/// The operand for the slot at `offset` bytes from the frame base.
pub open spec fn slot(offset: int) -> Seq<char> {
    "[rbp"@ + signed_decimal(offset) + "]"@
}

/// Loads the slot at `offset` and pushes it.
pub open spec fn load_slot(offset: int) -> Seq<char> {
    "    mov rax, "@ + slot(offset) + "\n    push rax\n"@
}

/// Stores `rax` in the slot at `offset`.
pub open spec fn store_slot(offset: int) -> Seq<char> {
    "    mov "@ + slot(offset) + ", rax\n"@
}

/// Calls a function, then drops the space of its `arguments` arguments, if
/// any, and pushes what it returned.
pub open spec fn call_code(function: Seq<char>, arguments: nat) -> Seq<char> {
    "    call "@ + function + "\n"@ + if arguments > 0 {
        "    add rsp, "@ + decimal(arguments * 8) + "\n"@
    } else {
        Seq::empty()
    } + push_result()
}

/// A function's entry: its label, the new frame, and `frame` bytes reserved
/// for its slots.
pub open spec fn prologue(name: Seq<char>, frame: nat) -> Seq<char> {
    label_line(name) + "    push rbp\n    mov rbp, rsp\n    sub rsp, "@ + decimal(frame)
        + "\n"@
}

/// Leaves the frame and returns to the caller.
pub open spec fn leave() -> Seq<char> {
    "    mov rsp, rbp\n    pop rbp\n    ret\n"@
}

/// A function's exit, and the blank line after the function.
pub open spec fn epilogue() -> Seq<char> {
    leave() + "\n"@
}

/// The process entry: it calls `main` and ends the process with what `main`
/// returned as the exit status.
pub open spec fn entry_block() -> Seq<char> {
    "\n_start:\n    call main\n    mov rdi, rax\n    mov rax, 60\n    syscall\n"@
}

/// The line that opens the data section.
pub open spec fn data_header() -> Seq<char> {
    "section .data\n"@
}

/// The lines that open the text section and export the entry point.
pub open spec fn text_header() -> Seq<char> {
    "\nsection .text\nglobal _start\n\n"@
}

/// The line of the data section for the string literal of index `index`.
pub open spec fn data_line(index: nat, text: Seq<char>) -> Seq<char> {
    string_label(index) + ": db \""@ + text + "\", 0\n"@
}

/// The lines of the data section for the first `count` string literals.
pub open spec fn data_lines(strings: Seq<Seq<char>>, count: nat) -> Seq<char>
    decreases count,
{
    if count == 0 || count > strings.len() {
        Seq::empty()
    } else {
        data_lines(strings, (count - 1) as nat) + data_line(
            (count - 1) as nat,
            strings[count - 1],
        )
    }
}

/// The text is not empty and ends with a line feed.
pub open spec fn ends_line(text: Seq<char>) -> bool {
    text.len() > 0 && text.last() == '\n'
}

/// What ends a line still ends a line with text before it.
pub proof fn lemma_ends_line_after(before: Seq<char>, text: Seq<char>)
    requires
        ends_line(text),
    ensures
        ends_line(before + text),
{
}

/// The fixed pieces of text that the generator writes end their line.
pub proof fn lemma_fixed_instructions_end_lines()
    ensures
        ends_line(pop_operands()),
        ends_line(pop_result()),
        ends_line(push_result()),
        ends_line(leave()),
        ends_line(epilogue()),
        ends_line(text_header()),
        ends_line(data_header()),
{
    reveal_strlit("    pop rax\n    pop rbx\n");
    reveal_strlit("    pop rax\n");
    reveal_strlit("    push rax\n");
    reveal_strlit("    mov rsp, rbp\n    pop rbp\n    ret\n");
    reveal_strlit("\n");
    reveal_strlit("\nsection .text\nglobal _start\n\n");
    reveal_strlit("section .data\n");
}

/// The line that places a label ends its line.
pub proof fn lemma_label_line_ends_line(label: Seq<char>)
    ensures
        ends_line(label_line(label)),
{
    reveal_strlit(":\n");
}

/// A store to a slot ends its line.
pub proof fn lemma_store_slot_ends_line(offset: int)
    ensures
        ends_line(store_slot(offset)),
{
    reveal_strlit(", rax\n");
}

/// The jump for a zero condition ends its line.
pub proof fn lemma_jump_if_zero_ends_line(label: Seq<char>)
    ensures
        ends_line(jump_if_zero(label)),
{
    reveal_strlit("\n");
}

/// A function's entry ends its line.
pub proof fn lemma_prologue_ends_line(name: Seq<char>, frame: nat)
    ensures
        ends_line(prologue(name, frame)),
{
    reveal_strlit("\n");
}

pub(crate) fn append_binary_code(out: &mut String, operator: BinaryOperator)
    ensures
        final(out)@ == old(out)@ + binary_code(operator),
{
    match operator {
        BinaryOperator::Add => out.append("    add rax, rbx\n"),
        BinaryOperator::Subtract => out.append("    sub rax, rbx\n"),
        BinaryOperator::Multiply => out.append("    imul rax, rbx\n"),
        BinaryOperator::Divide => out.append("    cqo\n    idiv rbx\n"),
        BinaryOperator::Modulo => out.append("    cqo\n    idiv rbx\n    mov rax, rdx\n"),
        BinaryOperator::Equal => out.append("    cmp rax, rbx\n    sete al\n    movzx rax, al\n"),
        BinaryOperator::NotEqual => out.append(
            "    cmp rax, rbx\n    setne al\n    movzx rax, al\n",
        ),
        BinaryOperator::LessThan => out.append("    cmp rax, rbx\n    setl al\n    movzx rax, al\n"),
        BinaryOperator::LessThanEqual => out.append(
            "    cmp rax, rbx\n    setle al\n    movzx rax, al\n",
        ),
        BinaryOperator::GreaterThan => out.append(
            "    cmp rax, rbx\n    setg al\n    movzx rax, al\n",
        ),
        BinaryOperator::GreaterThanEqual => out.append(
            "    cmp rax, rbx\n    setge al\n    movzx rax, al\n",
        ),
        BinaryOperator::And => out.append("    and rax, rbx\n"),
        BinaryOperator::Or => out.append("    or rax, rbx\n"),
    }
}

pub(crate) fn append_unary_code(out: &mut String, operator: UnaryOperator)
    ensures
        final(out)@ == old(out)@ + unary_code(operator),
{
    match operator {
        UnaryOperator::Minus => out.append("    neg rax\n"),
        UnaryOperator::Not => out.append("    cmp rax, 0\n    sete al\n    movzx rax, al\n"),
        UnaryOperator::Negate => out.append("    not rax\n"),
    }
}

pub(crate) fn append_jump_if_zero(out: &mut String, label: &str)
    ensures
        final(out)@ == old(out)@ + jump_if_zero(label@),
{
    out.append("    pop rax\n    cmp rax, 0\n    je ");
    out.append(label);
    out.append("\n");
    assert(out@ =~= old(out)@ + jump_if_zero(label@));
}

pub(crate) fn append_jump(out: &mut String, label: &str)
    ensures
        final(out)@ == old(out)@ + jump(label@),
{
    out.append("    jmp ");
    out.append(label);
    out.append("\n");
    assert(out@ =~= old(out)@ + jump(label@));
}

pub(crate) fn append_label_line(out: &mut String, label: &str)
    ensures
        final(out)@ == old(out)@ + label_line(label@),
{
    out.append(label);
    out.append(":\n");
    assert(out@ =~= old(out)@ + label_line(label@));
}

/// The label made of `prefix`, an underscore and `number`.
pub(crate) fn make_label(prefix: &str, number: u128) -> (label: String)
    ensures
        label@ == label_text(prefix@, number as nat),
{
    let mut label = String::from_str(prefix);
    label.append("_");
    append_decimal(&mut label, number);
    label
}

/// The label of the string literal of index `index`.
pub(crate) fn make_string_label(index: u128) -> (label: String)
    ensures
        label@ == string_label(index as nat),
{
    let mut label = String::from_str("str_");
    append_decimal(&mut label, index);
    label
}

pub(crate) fn append_push_integer(out: &mut String, value: i64)
    ensures
        final(out)@ == old(out)@ + push_integer(value as int),
{
    out.append("    push ");
    append_signed_decimal(out, value);
    out.append("\n");
    assert(out@ =~= old(out)@ + push_integer(value as int));
}

pub(crate) fn append_push_label(out: &mut String, label: &str)
    ensures
        final(out)@ == old(out)@ + push_label(label@),
{
    out.append("    push ");
    out.append(label);
    out.append("\n");
    assert(out@ =~= old(out)@ + push_label(label@));
}

fn append_slot(out: &mut String, offset: i32)
    ensures
        final(out)@ == old(out)@ + slot(offset as int),
{
    out.append("[rbp");
    append_signed_decimal(out, offset as i64);
    out.append("]");
    assert(out@ =~= old(out)@ + slot(offset as int));
}

pub(crate) fn append_load_slot(out: &mut String, offset: i32)
    ensures
        final(out)@ == old(out)@ + load_slot(offset as int),
{
    out.append("    mov rax, ");
    append_slot(out, offset);
    out.append("\n    push rax\n");
    assert(out@ =~= old(out)@ + load_slot(offset as int));
}

pub(crate) fn append_store_slot(out: &mut String, offset: i32)
    ensures
        final(out)@ == old(out)@ + store_slot(offset as int),
{
    out.append("    mov ");
    append_slot(out, offset);
    out.append(", rax\n");
    assert(out@ =~= old(out)@ + store_slot(offset as int));
}

pub(crate) fn append_call(out: &mut String, function: &str, arguments: usize)
    ensures
        final(out)@ == old(out)@ + call_code(function@, arguments as nat),
{
    out.append("    call ");
    out.append(function);
    out.append("\n");
    if arguments > 0 {
        out.append("    add rsp, ");
        append_decimal(out, (arguments as u128) * 8);
        out.append("\n");
    }
    out.append("    push rax\n");
    assert(out@ =~= old(out)@ + call_code(function@, arguments as nat));
}

pub(crate) fn append_prologue(out: &mut String, name: &str, frame: u128)
    ensures
        final(out)@ == old(out)@ + prologue(name@, frame as nat),
{
    append_label_line(out, name);
    out.append("    push rbp\n    mov rbp, rsp\n    sub rsp, ");
    append_decimal(out, frame);
    out.append("\n");
    assert(out@ =~= old(out)@ + prologue(name@, frame as nat));
}

pub(crate) fn append_leave(out: &mut String)
    ensures
        final(out)@ == old(out)@ + leave(),
{
    out.append("    mov rsp, rbp\n    pop rbp\n    ret\n");
}

pub(crate) fn append_epilogue(out: &mut String)
    ensures
        final(out)@ == old(out)@ + epilogue(),
{
    append_leave(out);
    out.append("\n");
    assert(out@ =~= old(out)@ + epilogue());
}

pub(crate) fn append_data_line(out: &mut String, index: u128, text: &str)
    ensures
        final(out)@ == old(out)@ + data_line(index as nat, text@),
{
    let label = make_string_label(index);
    out.append(label.as_str());
    out.append(": db \"");
    out.append(text);
    out.append("\", 0\n");
    assert(out@ =~= old(out)@ + data_line(index as nat, text@));
}

} // verus!
