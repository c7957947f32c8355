//! Code generation: the syntax tree as assembly text for a stack machine.
//! Every expression leaves one value on the stack; every construct that uses
//! a value pops it.

use crate::assembly::{
    append_binary_code, append_call, append_data_line, append_epilogue, append_jump,
    append_jump_if_zero, append_label_line, append_leave, append_load_slot, append_prologue,
    append_push_integer, append_push_label, append_store_slot, append_unary_code, binary_code,
    call_code, data_header, data_lines, entry_block, epilogue, jump, jump_if_zero, label_line,
    label_text, leave, load_slot, make_label, make_string_label, pop_operands, pop_result,
    prologue, push_integer, push_label, push_result, store_slot, string_label, text_header,
    unary_code,
};
use crate::ast::{
    exprs_view, lemma_block_view, lemma_call_view, lemma_function_view, params_view, stmts_view,
    AssignmentExpression, AssignmentStatement, BinaryExpression, CallExpression,
    DeclarationStatement, ExprSpec, Expression, FunctionStatement, IfStatement, Literal,
    LiteralSpec, Location, ParamSpec, Parameter, Program, ProgramSpec, ReturnStatement, Statement,
    StmtSpec, UnaryExpression, WhileStatement,
};
use crate::error::{CompilerError, CompilerResult, ErrorSpec};
use crate::scan::{digits_value, lemma_run_end_bounds, run_end, scan_digits, scan_run, CharClass};
use crate::text::chars_of;
use vstd::prelude::*;

verus! {

/// The state of a generator: the number of the last label made, the string
/// literals met so far in order of first appearance, the slot of each variable
/// of the function being generated, and the offset of the last slot given out.
pub struct GenSpec {
    pub label_counter: nat,
    pub strings: Seq<Seq<char>>,
    pub locals: Map<Seq<char>, int>,
    pub stack_offset: int,
}

/// The outcome of generating something into a buffer: the state afterwards,
/// and the buffer with the new text at its end, or the error that stopped the
/// generation.
pub struct Generated {
    pub state: GenSpec,
    pub text: Result<Seq<char>, ErrorSpec>,
}

/// The outcome of a step that passed.
pub open spec fn done(state: GenSpec, text: Seq<char>) -> Generated {
    Generated { state, text: Ok(text) }
}

/// The outcome of a step that failed.
pub open spec fn stopped(state: GenSpec, error: ErrorSpec) -> Generated {
    Generated { state, text: Err(error) }
}

/// The buffer of an outcome.
pub open spec fn text_of(g: Generated) -> Seq<char> {
    match g.text {
        Ok(text) => text,
        Err(_) => Seq::empty(),
    }
}

/// `next`, unless `first` stopped with an error.
pub open spec fn after(first: Generated, next: Generated) -> Generated {
    if first.text is Err {
        first
    } else {
        next
    }
}

/// The error for a variable that has no slot.
pub open spec fn missing_variable(name: Seq<char>) -> ErrorSpec {
    ErrorSpec::CodeGenError { message: "Variável '"@ + name + "' não encontrada"@ }
}

/// The error for a label beyond the greatest number that a label can have.
pub open spec fn labels_exhausted() -> ErrorSpec {
    ErrorSpec::CodeGenError { message: "Contador de rótulos esgotado"@ }
}

/// The error for a slot beyond the lowest offset that a slot can have.
pub open spec fn frame_too_large() -> ErrorSpec {
    ErrorSpec::CodeGenError { message: "Quadro de pilha grande demais"@ }
}

/// The state after making one more label, and the label, unless the counter
/// is at its greatest value.
pub open spec fn next_label(state: GenSpec, prefix: Seq<char>) -> Option<(GenSpec, Seq<char>)> {
    if state.label_counter + 1 > usize::MAX {
        None
    } else {
        Some(
            (
                GenSpec {
                    label_counter: state.label_counter + 1,
                    strings: state.strings,
                    locals: state.locals,
                    stack_offset: state.stack_offset,
                },
                label_text(prefix, state.label_counter + 1),
            ),
        )
    }
}

/// The first index from `i` on at which `strings` holds `text`, or the length
/// of `strings` where it does not.
pub open spec fn first_index(strings: Seq<Seq<char>>, text: Seq<char>, i: nat) -> nat
    decreases strings.len() - i,
{
    if i >= strings.len() {
        strings.len()
    } else if strings[i as int] == text {
        i
    } else {
        first_index(strings, text, i + 1)
    }
}

/// The index of a string literal in the table: that of its first appearance.
pub open spec fn string_index(state: GenSpec, text: Seq<char>) -> nat {
    first_index(state.strings, text, 0)
}

/// The state after meeting a string literal: a literal that the table does not
/// hold yet is added at its end.
pub open spec fn interned(state: GenSpec, text: Seq<char>) -> GenSpec {
    if string_index(state, text) < state.strings.len() {
        state
    } else {
        GenSpec {
            label_counter: state.label_counter,
            strings: state.strings.push(text),
            locals: state.locals,
            stack_offset: state.stack_offset,
        }
    }
}

/// The integer pushed for a floating-point literal: the number that the digits
/// before its point spell, or the greatest 64-bit integer where that number
/// is beyond it.
pub open spec fn float_truncation(text: Seq<char>) -> i64 {
    let whole = digits_value(text.subrange(0, run_end(text, 0, CharClass::Digit)));
    if whole <= i64::MAX {
        whole as i64
    } else {
        i64::MAX
    }
}

/// The text of a reference to the variable `name`, made by `with_offset` from
/// the variable's slot, or the error for a variable without a slot.
pub open spec fn slot_of(state: GenSpec, name: Seq<char>) -> Result<int, ErrorSpec> {
    if state.locals.contains_key(name) {
        Ok(state.locals[name])
    } else {
        Err(missing_variable(name))
    }
}

/// The buffer of `value` with the text that pops a value and stores it in the
/// variable `name`, then `tail`.
pub open spec fn stored(value: Generated, name: Seq<char>, tail: Seq<char>) -> Generated {
    match value.text {
        Err(_) => value,
        Ok(out) => match slot_of(value.state, name) {
            Err(e) => stopped(value.state, e),
            Ok(offset) => done(value.state, out + pop_result() + store_slot(offset) + tail),
        },
    }
}

/// The buffer `out` with the text that evaluates an expression and leaves its
/// value on the stack.
pub open spec fn gen_expr(state: GenSpec, e: ExprSpec, out: Seq<char>) -> Generated
    decreases e, 0nat,
{
    match e {
        ExprSpec::Literal { value, .. } => match value {
            LiteralSpec::Integer(n) => done(state, out + push_integer(n as int)),
            LiteralSpec::Float(text) => done(
                state,
                out + push_integer(float_truncation(text) as int),
            ),
            LiteralSpec::Boolean(b) => done(
                state,
                out + push_integer(
                    if b {
                        1
                    } else {
                        0
                    },
                ),
            ),
            LiteralSpec::String(text) => done(
                interned(state, text),
                out + push_label(string_label(string_index(state, text))),
            ),
        },
        ExprSpec::Identifier { name, .. } => match slot_of(state, name) {
            Ok(offset) => done(state, out + load_slot(offset)),
            Err(e) => stopped(state, e),
        },
        ExprSpec::Binary { left, operator, right, .. } => {
            let r = gen_expr(state, *right, out);
            let l = gen_expr(r.state, *left, text_of(r));
            after(
                r,
                after(
                    l,
                    done(
                        l.state,
                        text_of(l) + pop_operands() + binary_code(operator) + push_result(),
                    ),
                ),
            )
        },
        ExprSpec::Unary { operator, operand, .. } => {
            let o = gen_expr(state, *operand, out);
            after(o, done(o.state, text_of(o) + pop_result() + unary_code(operator) + push_result()))
        },
        ExprSpec::Call { function, arguments, .. } => {
            let a = gen_args(state, arguments, arguments.len(), out);
            after(a, done(a.state, text_of(a) + call_code(function, arguments.len())))
        },
        ExprSpec::Assignment { target, value, .. } => stored(
            gen_expr(state, *value, out),
            target,
            push_result(),
        ),
    }
}

/// The buffer `out` with the text that pushes the first `n` arguments of a
/// call, the last of them first.
pub open spec fn gen_args(state: GenSpec, arguments: Seq<ExprSpec>, n: nat, out: Seq<char>) -> Generated
    decreases arguments, n,
{
    if n == 0 || n > arguments.len() {
        done(state, out)
    } else {
        let a = gen_expr(state, arguments[n - 1], out);
        after(a, gen_args(a.state, arguments, (n - 1) as nat, text_of(a)))
    }
}

/// The slots of a function's parameters from index `i` on, added to `slots`:
/// the parameter of index `i` has the slot eight bytes times `i + 1` below the
/// frame base. The result is `None` where a slot is beyond the lowest offset.
pub open spec fn parameter_slots(parameters: Seq<ParamSpec>, i: nat, slots: Map<Seq<char>, int>) -> Option<
    Map<Seq<char>, int>,
>
    decreases parameters.len() - i,
{
    if i >= parameters.len() {
        Some(slots)
    } else if -8 * (i + 1) < i32::MIN {
        None
    } else {
        parameter_slots(parameters, i + 1, slots.insert(parameters[i as int].name, -8 * (i + 1)))
    }
}

/// The bytes reserved for a function's slots, of which the last was given out
/// at `stack_offset`: room for ten slots, or for all the slots of the
/// parameters and the declared variables where they are more.
pub open spec fn frame_size(stack_offset: int) -> nat {
    if stack_offset < -80 {
        (-stack_offset) as nat
    } else {
        80
    }
}

/// The state with a slot for `name` at `offset`, the last slot given out.
pub open spec fn declared(state: GenSpec, name: Seq<char>, offset: int) -> GenSpec {
    GenSpec {
        label_counter: state.label_counter,
        strings: state.strings,
        locals: state.locals.insert(name, offset),
        stack_offset: offset,
    }
}

/// The state inside a function of `parameters` parameters: the slots of the
/// parameters, the last of which is the last slot given out, so that the
/// first variable declared in the body takes the slot after them.
pub open spec fn inside_function(
    state: GenSpec,
    slots: Map<Seq<char>, int>,
    parameters: nat,
) -> GenSpec {
    GenSpec {
        label_counter: state.label_counter,
        strings: state.strings,
        locals: slots,
        stack_offset: -8 * parameters,
    }
}

/// The state after a function: the labels and strings of `inner`, the slots
/// of `outer`.
pub open spec fn outside_function(inner: GenSpec, outer: GenSpec) -> GenSpec {
    GenSpec {
        label_counter: inner.label_counter,
        strings: inner.strings,
        locals: outer.locals,
        stack_offset: outer.stack_offset,
    }
}

/// The buffer `out` with the text of a statement.
pub open spec fn gen_stmt(state: GenSpec, s: StmtSpec, out: Seq<char>) -> Generated
    decreases s, 0nat,
{
    match s {
        StmtSpec::Expression { expression, .. } => {
            let g = gen_expr(state, expression, out);
            after(g, done(g.state, text_of(g) + pop_result()))
        },
        StmtSpec::Declaration { name, initializer, .. } => {
            let offset = state.stack_offset - 8;
            if offset < i32::MIN {
                stopped(state, frame_too_large())
            } else {
                match initializer {
                    None => done(declared(state, name, offset), out),
                    Some(init) => {
                        let g = gen_expr(declared(state, name, offset), init, out);
                        after(g, done(g.state, text_of(g) + pop_result() + store_slot(offset)))
                    },
                }
            }
        },
        StmtSpec::Assignment { target, value, .. } => stored(
            gen_expr(state, value, out),
            target,
            Seq::empty(),
        ),
        StmtSpec::If { condition, then_branch, else_branch, .. } => match next_label(
            state,
            "else"@,
        ) {
            None => stopped(state, labels_exhausted()),
            Some((s1, else_label)) => match next_label(s1, "endif"@) {
                None => stopped(s1, labels_exhausted()),
                Some((s2, end_label)) => {
                    let c = gen_expr(s2, condition, out);
                    let t = gen_stmt(c.state, *then_branch, text_of(c) + jump_if_zero(else_label));
                    let between = text_of(t) + jump(end_label) + label_line(else_label);
                    let e = match else_branch {
                        Some(b) => gen_stmt(t.state, *b, between),
                        None => done(t.state, between),
                    };
                    after(c, after(t, after(e, done(e.state, text_of(e) + label_line(end_label)))))
                },
            },
        },
        StmtSpec::While { condition, body, .. } => match next_label(state, "while"@) {
            None => stopped(state, labels_exhausted()),
            Some((s1, loop_label)) => match next_label(s1, "endwhile"@) {
                None => stopped(s1, labels_exhausted()),
                Some((s2, end_label)) => {
                    let c = gen_expr(s2, condition, out + label_line(loop_label));
                    let b = gen_stmt(c.state, *body, text_of(c) + jump_if_zero(end_label));
                    after(
                        c,
                        after(
                            b,
                            done(b.state, text_of(b) + jump(loop_label) + label_line(end_label)),
                        ),
                    )
                },
            },
        },
        StmtSpec::Function { name, parameters, body, .. } => match parameter_slots(
            parameters,
            0,
            Map::empty(),
        ) {
            None => stopped(state, frame_too_large()),
            Some(slots) => {
                let b = gen_stmts(
                    inside_function(state, slots, parameters.len()),
                    body,
                    0,
                    Seq::empty(),
                );
                let state_after = outside_function(b.state, state);
                match b.text {
                    Err(e) => stopped(state_after, e),
                    Ok(code) => done(
                        state_after,
                        out + prologue(name, frame_size(b.state.stack_offset)) + code
                            + epilogue(),
                    ),
                }
            },
        },
        StmtSpec::Return { value, .. } => match value {
            Some(v) => {
                let g = gen_expr(state, v, out);
                after(g, done(g.state, text_of(g) + pop_result() + leave()))
            },
            None => done(state, out + leave()),
        },
        StmtSpec::Block { statements, .. } => gen_stmts(state, statements, 0, out),
    }
}

/// The buffer `out` with the text of the statements from index `i` on, in
/// order.
pub open spec fn gen_stmts(state: GenSpec, statements: Seq<StmtSpec>, i: nat, out: Seq<char>) -> Generated
    decreases statements, statements.len() - i,
{
    if i >= statements.len() {
        done(state, out)
    } else {
        let first = gen_stmt(state, statements[i as int], out);
        after(first, gen_stmts(first.state, statements, i + 1, text_of(first)))
    }
}

/// The statement defines the function `_start`, the entry point.
pub open spec fn is_entry(s: StmtSpec) -> bool {
    s is Function && s->Function_name == "_start"@
}

/// Some statement of the program itself defines the entry point.
pub open spec fn defines_entry(program: ProgramSpec) -> bool {
    exists|i: int| 0 <= i < program.statements.len() && is_entry(#[trigger] program.statements[i])
}

/// The whole text for a program: the data section with one line for each
/// string literal, the text section with the program's statements, and the
/// default entry block unless the program defines the entry point itself.
pub open spec fn program_text(program: ProgramSpec, strings: Seq<Seq<char>>, body: Seq<char>) -> Seq<
    char,
> {
    data_header() + data_lines(strings, strings.len()) + text_header() + body + if defines_entry(
        program,
    ) {
        Seq::empty()
    } else {
        entry_block()
    }
}

/// The outcome of generating a program.
pub open spec fn generate_spec(state: GenSpec, program: ProgramSpec) -> Generated {
    let body = gen_stmts(state, program.statements, 0, Seq::empty());
    match body.text {
        Err(_) => body,
        Ok(code) => done(body.state, program_text(program, body.state.strings, code)),
    }
}

/// The state of a generator that has generated nothing yet.
pub open spec fn fresh_generator() -> GenSpec {
    GenSpec { label_counter: 0, strings: Seq::empty(), locals: Map::empty(), stack_offset: 0 }
}

// ---------------------------------------------------------------------------
// The generator.
// ---------------------------------------------------------------------------

/// The map that a list of slots stands for: each offset under its variable's
/// name, the later entry where a name occurs twice.
pub open spec fn offsets_map(slots: Seq<(String, i32)>) -> Map<Seq<char>, int>
    decreases slots.len(),
{
    if slots.len() == 0 {
        Map::empty()
    } else {
        offsets_map(slots.drop_last()).insert(slots.last().0@, slots.last().1 as int)
    }
}

/// The models of a sequence of strings, element by element.
pub open spec fn strings_view(strings: Seq<String>) -> Seq<Seq<char>> {
    Seq::new(strings.len(), |i: int| strings[i]@)
}

proof fn lemma_offsets_found(slots: Seq<(String, i32)>, i: int, name: Seq<char>)
    requires
        0 <= i < slots.len(),
        slots[i].0@ == name,
        forall|j: int| i < j < slots.len() ==> (#[trigger] slots[j]).0@ != name,
    ensures
        offsets_map(slots).contains_key(name),
        offsets_map(slots)[name] == slots[i].1,
    decreases slots.len(),
{
    if i < slots.len() - 1 {
        assert(slots.last().0@ != name);
        lemma_offsets_found(slots.drop_last(), i, name);
    }
}

proof fn lemma_offsets_missing(slots: Seq<(String, i32)>, name: Seq<char>)
    requires
        forall|j: int| 0 <= j < slots.len() ==> (#[trigger] slots[j]).0@ != name,
    ensures
        !offsets_map(slots).contains_key(name),
    decreases slots.len(),
{
    if slots.len() > 0 {
        assert(slots.last().0@ != name);
        lemma_offsets_missing(slots.drop_last(), name);
    }
}

/// What a generating step did: on success the buffer is as the model says.
pub open spec fn emits(result: CompilerResult<()>, buffer: Seq<char>, model: Generated) -> bool {
    match result {
        Ok(()) => model.text == Ok::<Seq<char>, ErrorSpec>(buffer),
        Err(e) => model.text == Err::<Seq<char>, ErrorSpec>(e@),
    }
}

fn missing_variable_error(name: &String) -> (e: CompilerError)
    ensures
        e@ == missing_variable(name@),
{
    let mut m = String::from_str("Variável '");
    m.append(name.as_str());
    m.append("' não encontrada");
    CompilerError::codegen(m)
}

fn frame_error() -> (e: CompilerError)
    ensures
        e@ == frame_too_large(),
{
    CompilerError::codegen(String::from_str("Quadro de pilha grande demais"))
}

/// The integer pushed for a floating-point literal.
fn truncate_float(text: &str) -> (value: i64)
    ensures
        value == float_truncation(text@),
{
    let chars = chars_of(text);
    let end = scan_run(&chars, 0, CharClass::Digit);
    proof {
        lemma_run_end_bounds(chars@, 0, CharClass::Digit);
    }
    match scan_digits(&chars, 0, end) {
        Some(v) => v,
        None => i64::MAX,
    }
}

/// Whether some statement of the program itself defines `_start`.
fn defines_entry_point(program: &Program) -> (b: bool)
    ensures
        b == defines_entry(program@),
{
    let entry = String::from_str("_start");
    let mut i: usize = 0;
    while i < program.statements.len()
        invariant
            i <= program.statements.len(),
            entry@ == "_start"@,
            forall|j: int| 0 <= j < i ==> !is_entry(#[trigger] program@.statements[j]),
        decreases program.statements.len() - i,
    {
        match &program.statements[i] {
            Statement::Function(func) => {
                if func.name == entry {
                    assert(is_entry(program@.statements[i as int]));
                    return true;
                }
            },
            _ => {},
        }
        i += 1;
    }
    false
}

/// The frame size of a function whose body left the last slot at
/// `stack_offset`.
fn frame_bytes(stack_offset: i32) -> (bytes: u128)
    ensures
        bytes == frame_size(stack_offset as int),
{
    if stack_offset < -80 {
        (-(stack_offset as i64)) as u128
    } else {
        80
    }
}

/// A code generator. It keeps its label counter and its table of string
/// literals from one generation to the next.
#[derive(Debug)]
pub struct CodeGenerator {
    _optimization_level: u8,
    label_counter: usize,
    string_literals: Vec<String>,
    local_variables: Vec<(String, i32)>,
    stack_offset: i32,
}

impl View for CodeGenerator {
    type V = GenSpec;

    closed spec fn view(&self) -> GenSpec {
        GenSpec {
            label_counter: self.label_counter as nat,
            strings: strings_view(self.string_literals@),
            locals: offsets_map(self.local_variables@),
            stack_offset: self.stack_offset as int,
        }
    }
}

impl CodeGenerator {
    /// The optimization level that the generator was made with.
    pub closed spec fn optimization_level(&self) -> u8 {
        self._optimization_level
    }

    /// A generator that has generated nothing yet.
    pub fn new(optimization_level: u8) -> (generator: Self)
        ensures
            generator@ == fresh_generator(),
            generator.optimization_level() == optimization_level,
    {
        let generator = CodeGenerator {
            _optimization_level: optimization_level,
            label_counter: 0,
            string_literals: Vec::new(),
            local_variables: Vec::new(),
            stack_offset: 0,
        };
        assert(strings_view(generator.string_literals@) =~= Seq::<Seq<char>>::empty());
        generator
    }

    /// The assembly text of a program: the data section, the text section with
    /// the code of the statements in order, and the default entry block unless
    /// the program defines `_start`. The result is an error where a variable
    /// has no slot, or where labels or slots run out; the generator keeps the
    /// labels and string literals it came to.
    pub fn generate(&mut self, program: &Program) -> (result: CompilerResult<String>)
        ensures
            final(self)@ == generate_spec(old(self)@, program@).state,
            final(self).optimization_level() == old(self).optimization_level(),
            match result {
                Ok(text) => generate_spec(old(self)@, program@).text == Ok::<Seq<char>, ErrorSpec>(
                    text@,
                ),
                Err(e) => generate_spec(old(self)@, program@).text == Err::<Seq<char>, ErrorSpec>(
                    e@,
                ),
            },
    {
        let mut body = String::new();
        match self.generate_statements(&program.statements, &mut body) {
            Err(e) => {
                return Err(e);
            },
            Ok(()) => {},
        }
        let ghost strings = self@.strings;
        let mut assembly = String::from_str("section .data\n");
        let mut i: usize = 0;
        assert(assembly@ =~= data_header() + data_lines(strings, 0));
        while i < self.string_literals.len()
            invariant
                i <= self.string_literals.len(),
                strings == strings_view(self.string_literals@),
                assembly@ == data_header() + data_lines(strings, i as nat),
            decreases self.string_literals.len() - i,
        {
            append_data_line(&mut assembly, i as u128, self.string_literals[i].as_str());
            proof {
                assert(assembly@ =~= data_header() + data_lines(strings, (i + 1) as nat));
            }
            i += 1;
        }
        assembly.append("\nsection .text\nglobal _start\n\n");
        assembly.append(body.as_str());
        if !defines_entry_point(program) {
            assembly.append("\n_start:\n    call main\n    mov rdi, rax\n    mov rax, 60\n    syscall\n");
        } else {
            assert(assembly@ =~= assembly@ + Seq::<char>::empty());
        }
        Ok(assembly)
    }

    /// The slot of the variable `name`, the latest where it was declared more
    /// than once.
    fn lookup(&self, name: &String) -> (offset: Option<i32>)
        ensures
            match offset {
                Some(o) => slot_of(self@, name@) == Ok::<int, ErrorSpec>(o as int),
                None => slot_of(self@, name@) == Err::<int, ErrorSpec>(missing_variable(name@)),
            },
    {
        let mut i: usize = self.local_variables.len();
        while i > 0
            invariant
                i <= self.local_variables@.len(),
                forall|j: int|
                    i <= j < self.local_variables@.len() ==> (#[trigger] self.local_variables@[j]).0@
                        != name@,
            decreases i,
        {
            i -= 1;
            if self.local_variables[i].0 == *name {
                proof {
                    lemma_offsets_found(self.local_variables@, i as int, name@);
                }
                return Some(self.local_variables[i].1);
            }
        }
        proof {
            lemma_offsets_missing(self.local_variables@, name@);
        }
        None
    }

    /// Gives `name` a slot at `offset`, the last slot given out.
    fn declare(&mut self, name: &String, offset: i32)
        ensures
            final(self)@ == declared(old(self)@, name@, offset as int),
            final(self).optimization_level() == old(self).optimization_level(),
    {
        let ghost before = self.local_variables@;
        self.local_variables.push((name.clone(), offset));
        self.stack_offset = offset;
        assert(self.local_variables@.drop_last() =~= before);
    }

    /// One more label with the given prefix.
    fn generate_label(&mut self, prefix: &str) -> (result: CompilerResult<String>)
        ensures
            final(self).optimization_level() == old(self).optimization_level(),
            match result {
                Ok(label) => next_label(old(self)@, prefix@) == Some((final(self)@, label@)),
                Err(e) => {
                    &&& next_label(old(self)@, prefix@) is None
                    &&& final(self)@ == old(self)@
                    &&& e@ == labels_exhausted()
                },
            },
    {
        if self.label_counter == usize::MAX {
            return Err(CompilerError::codegen(String::from_str("Contador de rótulos esgotado")));
        }
        self.label_counter += 1;
        Ok(make_label(prefix, self.label_counter as u128))
    }

    /// The label of a string literal; a literal met for the first time is
    /// added to the table.
    fn add_string_literal(&mut self, text: &String) -> (label: String)
        ensures
            final(self)@ == interned(old(self)@, text@),
            final(self).optimization_level() == old(self).optimization_level(),
            label@ == string_label(string_index(old(self)@, text@)),
    {
        let ghost strings = self@.strings;
        let mut i: usize = 0;
        while i < self.string_literals.len()
            invariant
                i <= self.string_literals.len(),
                self == old(self),
                strings == strings_view(self.string_literals@),
                first_index(strings, text@, 0) == first_index(strings, text@, i as nat),
            decreases self.string_literals.len() - i,
        {
            if self.string_literals[i] == *text {
                return make_string_label(i as u128);
            }
            i += 1;
        }
        self.string_literals.push(text.clone());
        assert(strings_view(self.string_literals@) =~= strings.push(text@));
        make_string_label(i as u128)
    }

    /// Loads the variable `name` and pushes it.
    fn generate_identifier(&self, name: &String, out: &mut String) -> (result: CompilerResult<()>)
        ensures
            emits(
                result,
                final(out)@,
                match slot_of(self@, name@) {
                    Ok(offset) => done(self@, old(out)@ + load_slot(offset)),
                    Err(e) => stopped(self@, e),
                },
            ),
    {
        match self.lookup(name) {
            Some(offset) => {
                append_load_slot(out, offset);
                Ok(())
            },
            None => Err(missing_variable_error(name)),
        }
    }

    /// Pops the value on top of the stack and stores it in the variable
    /// `target`.
    fn generate_store(&self, target: &String, out: &mut String) -> (result: CompilerResult<()>)
        ensures
            emits(
                result,
                final(out)@,
                match slot_of(self@, target@) {
                    Ok(offset) => done(self@, old(out)@ + pop_result() + store_slot(offset)),
                    Err(e) => stopped(self@, e),
                },
            ),
    {
        match self.lookup(target) {
            Some(offset) => {
                out.append("    pop rax\n");
                append_store_slot(out, offset);
                Ok(())
            },
            None => Err(missing_variable_error(target)),
        }
    }

    fn generate_literal(&mut self, literal: &Literal, location: Location, out: &mut String)
        ensures
            final(self)@ == gen_expr(
                old(self)@,
                ExprSpec::Literal { value: literal@, location },
                old(out)@,
            ).state,
            final(self).optimization_level() == old(self).optimization_level(),
            gen_expr(old(self)@, ExprSpec::Literal { value: literal@, location }, old(out)@).text
                == Ok::<Seq<char>, ErrorSpec>(final(out)@),
    {
        match literal {
            Literal::Integer(n) => append_push_integer(out, *n),
            Literal::Float(text) => append_push_integer(out, truncate_float(text.as_str())),
            Literal::Boolean(b) => {
                let value: i64 = if *b {
                    1
                } else {
                    0
                };
                append_push_integer(out, value)
            },
            Literal::String(text) => {
                let label = self.add_string_literal(text);
                append_push_label(out, label.as_str())
            },
        }
    }

    fn generate_expression(&mut self, expression: &Expression, out: &mut String) -> (result:
        CompilerResult<()>)
        ensures
            final(self)@ == gen_expr(old(self)@, expression@, old(out)@).state,
            final(self).optimization_level() == old(self).optimization_level(),
            emits(result, final(out)@, gen_expr(old(self)@, expression@, old(out)@)),
        decreases expression, 1nat,
    {
        match expression {
            Expression::Literal(literal_expr) => {
                self.generate_literal(&literal_expr.value, literal_expr.location, out);
                Ok(())
            },
            Expression::Identifier(identifier_expr) => self.generate_identifier(
                &identifier_expr.name,
                out,
            ),
            Expression::Binary(binary_expr) => self.generate_binary_expression(binary_expr, out),
            Expression::Unary(unary_expr) => self.generate_unary_expression(unary_expr, out),
            Expression::Call(call_expr) => self.generate_call_expression(call_expr, out),
            Expression::Assignment(assign_expr) => self.generate_assignment_expression(
                assign_expr,
                out,
            ),
        }
    }

    fn generate_binary_expression(&mut self, binary: &BinaryExpression, out: &mut String) -> (result:
        CompilerResult<()>)
        ensures
            final(self)@ == gen_expr(old(self)@, Expression::Binary(*binary)@, old(out)@).state,
            final(self).optimization_level() == old(self).optimization_level(),
            emits(result, final(out)@, gen_expr(old(self)@, Expression::Binary(*binary)@, old(out)@)),
        decreases binary, 0nat,
    {
        match self.generate_expression(&binary.right, out) {
            Err(e) => {
                return Err(e);
            },
            Ok(()) => {},
        }
        match self.generate_expression(&binary.left, out) {
            Err(e) => {
                return Err(e);
            },
            Ok(()) => {},
        }
        out.append("    pop rax\n    pop rbx\n");
        append_binary_code(out, binary.operator);
        out.append("    push rax\n");
        Ok(())
    }

    fn generate_unary_expression(&mut self, unary: &UnaryExpression, out: &mut String) -> (result:
        CompilerResult<()>)
        ensures
            final(self)@ == gen_expr(old(self)@, Expression::Unary(*unary)@, old(out)@).state,
            final(self).optimization_level() == old(self).optimization_level(),
            emits(result, final(out)@, gen_expr(old(self)@, Expression::Unary(*unary)@, old(out)@)),
        decreases unary, 0nat,
    {
        match self.generate_expression(&unary.operand, out) {
            Err(e) => {
                return Err(e);
            },
            Ok(()) => {},
        }
        out.append("    pop rax\n");
        append_unary_code(out, unary.operator);
        out.append("    push rax\n");
        Ok(())
    }

    fn generate_call_expression(&mut self, call: &CallExpression, out: &mut String) -> (result:
        CompilerResult<()>)
        ensures
            final(self)@ == gen_expr(old(self)@, Expression::Call(*call)@, old(out)@).state,
            final(self).optimization_level() == old(self).optimization_level(),
            emits(result, final(out)@, gen_expr(old(self)@, Expression::Call(*call)@, old(out)@)),
        decreases call, 0nat,
    {
        proof {
            lemma_call_view(*call);
        }
        match self.generate_arguments(&call.arguments, out) {
            Err(e) => {
                return Err(e);
            },
            Ok(()) => {},
        }
        append_call(out, call.function.as_str(), call.arguments.len());
        Ok(())
    }

    fn generate_assignment_expression(
        &mut self,
        assign: &AssignmentExpression,
        out: &mut String,
    ) -> (result: CompilerResult<()>)
        ensures
            final(self)@ == gen_expr(old(self)@, Expression::Assignment(*assign)@, old(out)@).state,
            final(self).optimization_level() == old(self).optimization_level(),
            emits(
                result,
                final(out)@,
                gen_expr(old(self)@, Expression::Assignment(*assign)@, old(out)@),
            ),
        decreases assign, 0nat,
    {
        match self.generate_expression(&assign.value, out) {
            Err(e) => {
                return Err(e);
            },
            Ok(()) => {},
        }
        match self.generate_store(&assign.target, out) {
            Err(e) => {
                return Err(e);
            },
            Ok(()) => {},
        }
        out.append("    push rax\n");
        Ok(())
    }

    /// Pushes the arguments of a call, the last of them first.
    #[verifier::loop_isolation(false)]
    fn generate_arguments(&mut self, arguments: &Vec<Expression>, out: &mut String) -> (result:
        CompilerResult<()>)
        ensures
            final(self)@ == gen_args(
                old(self)@,
                exprs_view(arguments@),
                arguments@.len(),
                old(out)@,
            ).state,
            final(self).optimization_level() == old(self).optimization_level(),
            emits(
                result,
                final(out)@,
                gen_args(old(self)@, exprs_view(arguments@), arguments@.len(), old(out)@),
            ),
        decreases arguments, 0nat,
    {
        let ghost all = exprs_view(arguments@);
        let ghost whole = gen_args(old(self)@, all, arguments@.len(), old(out)@);
        let mut n: usize = arguments.len();
        while n > 0
            invariant
                n <= arguments.len(),
                self.optimization_level() == old(self).optimization_level(),
                whole == gen_args(self@, all, n as nat, out@),
            decreases n,
        {
            assert(decreases_to!(arguments => arguments@[n - 1]));
            match self.generate_expression(&arguments[n - 1], out) {
                Err(e) => {
                    return Err(e);
                },
                Ok(()) => {},
            }
            n -= 1;
        }
        Ok(())
    }

    #[verifier::loop_isolation(false)]
    fn generate_statements(&mut self, statements: &Vec<Statement>, out: &mut String) -> (result:
        CompilerResult<()>)
        ensures
            final(self)@ == gen_stmts(old(self)@, stmts_view(statements@), 0, old(out)@).state,
            final(self).optimization_level() == old(self).optimization_level(),
            emits(
                result,
                final(out)@,
                gen_stmts(old(self)@, stmts_view(statements@), 0, old(out)@),
            ),
        decreases statements, 0nat,
    {
        let ghost all = stmts_view(statements@);
        let ghost whole = gen_stmts(old(self)@, all, 0, old(out)@);
        let mut i: usize = 0;
        while i < statements.len()
            invariant
                i <= statements.len(),
                self.optimization_level() == old(self).optimization_level(),
                whole == gen_stmts(self@, all, i as nat, out@),
            decreases statements.len() - i,
        {
            assert(decreases_to!(statements => statements@[i as int]));
            match self.generate_statement(&statements[i], out) {
                Err(e) => {
                    return Err(e);
                },
                Ok(()) => {},
            }
            i += 1;
        }
        Ok(())
    }

    fn generate_statement(&mut self, statement: &Statement, out: &mut String) -> (result:
        CompilerResult<()>)
        ensures
            final(self)@ == gen_stmt(old(self)@, statement@, old(out)@).state,
            final(self).optimization_level() == old(self).optimization_level(),
            emits(result, final(out)@, gen_stmt(old(self)@, statement@, old(out)@)),
        decreases statement, 1nat,
    {
        match statement {
            Statement::Expression(expr_stmt) => {
                match self.generate_expression(&expr_stmt.expression, out) {
                    Err(e) => {
                        return Err(e);
                    },
                    Ok(()) => {},
                }
                out.append("    pop rax\n");
                Ok(())
            },
            Statement::Declaration(decl_stmt) => self.generate_declaration(decl_stmt, out),
            Statement::Assignment(assign_stmt) => self.generate_assignment(assign_stmt, out),
            Statement::If(if_stmt) => self.generate_if_statement(if_stmt, out),
            Statement::While(while_stmt) => self.generate_while_statement(while_stmt, out),
            Statement::Function(func_stmt) => {
                proof {
                    lemma_function_view(*func_stmt);
                }
                self.generate_function(func_stmt, out)
            },
            Statement::Return(return_stmt) => self.generate_return_statement(return_stmt, out),
            Statement::Block(block_stmt) => {
                proof {
                    lemma_block_view(*block_stmt);
                }
                self.generate_statements(&block_stmt.statements, out)
            },
        }
    }

    fn generate_declaration(&mut self, decl: &DeclarationStatement, out: &mut String) -> (result:
        CompilerResult<()>)
        ensures
            final(self)@ == gen_stmt(old(self)@, Statement::Declaration(*decl)@, old(out)@).state,
            final(self).optimization_level() == old(self).optimization_level(),
            emits(
                result,
                final(out)@,
                gen_stmt(old(self)@, Statement::Declaration(*decl)@, old(out)@),
            ),
    {
        if self.stack_offset < i32::MIN + 8 {
            return Err(frame_error());
        }
        let offset: i32 = self.stack_offset - 8;
        self.declare(&decl.name, offset);
        match &decl.initializer {
            Some(initializer) => {
                match self.generate_expression(initializer, out) {
                    Err(e) => {
                        return Err(e);
                    },
                    Ok(()) => {},
                }
                out.append("    pop rax\n");
                append_store_slot(out, offset);
                Ok(())
            },
            None => Ok(()),
        }
    }

    fn generate_assignment(&mut self, assign: &AssignmentStatement, out: &mut String) -> (result:
        CompilerResult<()>)
        ensures
            final(self)@ == gen_stmt(old(self)@, Statement::Assignment(*assign)@, old(out)@).state,
            final(self).optimization_level() == old(self).optimization_level(),
            emits(
                result,
                final(out)@,
                gen_stmt(old(self)@, Statement::Assignment(*assign)@, old(out)@),
            ),
    {
        match self.generate_expression(&assign.value, out) {
            Err(e) => {
                return Err(e);
            },
            Ok(()) => {},
        }
        match self.generate_store(&assign.target, out) {
            Err(e) => {
                return Err(e);
            },
            Ok(()) => {},
        }
        assert(out@ =~= out@ + Seq::<char>::empty());
        Ok(())
    }

    fn generate_if_statement(&mut self, if_stmt: &IfStatement, out: &mut String) -> (result:
        CompilerResult<()>)
        ensures
            final(self)@ == gen_stmt(old(self)@, Statement::If(*if_stmt)@, old(out)@).state,
            final(self).optimization_level() == old(self).optimization_level(),
            emits(result, final(out)@, gen_stmt(old(self)@, Statement::If(*if_stmt)@, old(out)@)),
        decreases if_stmt, 0nat,
    {
        let else_label = match self.generate_label("else") {
            Err(e) => {
                return Err(e);
            },
            Ok(label) => label,
        };
        let end_label = match self.generate_label("endif") {
            Err(e) => {
                return Err(e);
            },
            Ok(label) => label,
        };
        match self.generate_expression(&if_stmt.condition, out) {
            Err(e) => {
                return Err(e);
            },
            Ok(()) => {},
        }
        append_jump_if_zero(out, else_label.as_str());
        match self.generate_statement(&if_stmt.then_branch, out) {
            Err(e) => {
                return Err(e);
            },
            Ok(()) => {},
        }
        append_jump(out, end_label.as_str());
        append_label_line(out, else_label.as_str());
        match &if_stmt.else_branch {
            Some(else_branch) => {
                match self.generate_statement(else_branch, out) {
                    Err(e) => {
                        return Err(e);
                    },
                    Ok(()) => {},
                }
            },
            None => {},
        }
        append_label_line(out, end_label.as_str());
        Ok(())
    }

    fn generate_while_statement(&mut self, while_stmt: &WhileStatement, out: &mut String) -> (result:
        CompilerResult<()>)
        ensures
            final(self)@ == gen_stmt(old(self)@, Statement::While(*while_stmt)@, old(out)@).state,
            final(self).optimization_level() == old(self).optimization_level(),
            emits(
                result,
                final(out)@,
                gen_stmt(old(self)@, Statement::While(*while_stmt)@, old(out)@),
            ),
        decreases while_stmt, 0nat,
    {
        let loop_label = match self.generate_label("while") {
            Err(e) => {
                return Err(e);
            },
            Ok(label) => label,
        };
        let end_label = match self.generate_label("endwhile") {
            Err(e) => {
                return Err(e);
            },
            Ok(label) => label,
        };
        append_label_line(out, loop_label.as_str());
        match self.generate_expression(&while_stmt.condition, out) {
            Err(e) => {
                return Err(e);
            },
            Ok(()) => {},
        }
        append_jump_if_zero(out, end_label.as_str());
        match self.generate_statement(&while_stmt.body, out) {
            Err(e) => {
                return Err(e);
            },
            Ok(()) => {},
        }
        append_jump(out, loop_label.as_str());
        append_label_line(out, end_label.as_str());
        Ok(())
    }

    fn generate_return_statement(&mut self, return_stmt: &ReturnStatement, out: &mut String) -> (result:
        CompilerResult<()>)
        ensures
            final(self)@ == gen_stmt(old(self)@, Statement::Return(*return_stmt)@, old(out)@).state,
            final(self).optimization_level() == old(self).optimization_level(),
            emits(
                result,
                final(out)@,
                gen_stmt(old(self)@, Statement::Return(*return_stmt)@, old(out)@),
            ),
    {
        match &return_stmt.value {
            Some(value) => {
                match self.generate_expression(value, out) {
                    Err(e) => {
                        return Err(e);
                    },
                    Ok(()) => {},
                }
                out.append("    pop rax\n");
                append_leave(out);
                Ok(())
            },
            None => {
                append_leave(out);
                Ok(())
            },
        }
    }

    /// The slots of a function's parameters.
    fn parameter_slots(parameters: &Vec<Parameter>) -> (slots: Option<Vec<(String, i32)>>)
        ensures
            match slots {
                Some(v) => {
                    &&& parameter_slots(params_view(parameters@), 0, Map::empty()) == Some(
                        offsets_map(v@),
                    )
                    &&& parameters@.len() <= 0x1000_0000
                },
                None => parameter_slots(params_view(parameters@), 0, Map::empty()) is None,
            },
    {
        let ghost all = params_view(parameters@);
        let mut slots: Vec<(String, i32)> = Vec::new();
        let mut i: usize = 0;
        while i < parameters.len()
            invariant
                i <= parameters.len(),
                i <= 0x1000_0000,
                all == params_view(parameters@),
                parameter_slots(all, 0, Map::empty()) == parameter_slots(
                    all,
                    i as nat,
                    offsets_map(slots@),
                ),
            decreases parameters.len() - i,
        {
            if i >= 0x1000_0000 {
                return None;
            }
            let offset: i32 = -8 * (i as i32 + 1);
            let ghost before = slots@;
            slots.push((parameters[i].name.clone(), offset));
            assert(slots@.drop_last() =~= before);
            i += 1;
        }
        Some(slots)
    }

    fn generate_function(&mut self, func: &FunctionStatement, out: &mut String) -> (result:
        CompilerResult<()>)
        ensures
            final(self)@ == gen_stmt(old(self)@, Statement::Function(*func)@, old(out)@).state,
            final(self).optimization_level() == old(self).optimization_level(),
            emits(result, final(out)@, gen_stmt(old(self)@, Statement::Function(*func)@, old(out)@)),
        decreases func, 0nat,
    {
        proof {
            lemma_function_view(*func);
        }
        let mut slots = match Self::parameter_slots(&func.parameters) {
            None => {
                return Err(frame_error());
            },
            Some(slots) => slots,
        };
        core::mem::swap(&mut self.local_variables, &mut slots);
        let outer_offset = self.stack_offset;
        self.stack_offset = -8 * (func.parameters.len() as i32);
        let mut body = String::new();
        let result = self.generate_statements(&func.body.statements, &mut body);
        let inner_offset = self.stack_offset;
        core::mem::swap(&mut self.local_variables, &mut slots);
        self.stack_offset = outer_offset;
        match result {
            Err(e) => Err(e),
            Ok(()) => {
                append_prologue(out, func.name.as_str(), frame_bytes(inner_offset));
                out.append(body.as_str());
                append_epilogue(out);
                Ok(())
            },
        }
    }
}

} // verus!
