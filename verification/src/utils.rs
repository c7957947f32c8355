//! What stands around the compiler's stages: statistics and settings, a source
//! formatter, a complexity measure, the optimizer's hooks, a validator and a
//! documentation generator.

use crate::ast::{
    lemma_block_view, lemma_function_view, params_view, stmts_view, type_text, ParamSpec,
    Parameter, Program, ProgramSpec, Statement, StmtSpec,
};
use crate::lexer::{clip, clipped_add};
use crate::scan::{lemma_run_end_bounds, run_end, scan_run, CharClass};
use crate::text::{append_chars, append_decimal, chars_of, decimal};
use vstd::prelude::*;

verus! {

/// Counts kept from the last compilation.
#[derive(Debug)]
pub struct CompilerStats {
    pub lines_processed: usize,
    pub tokens_generated: usize,
    pub ast_nodes: usize,
    pub functions_defined: usize,
    pub variables_declared: usize,
    pub errors_found: usize,
    pub warnings_found: usize,
    pub compilation_time_ms: u64,
}

impl Default for CompilerStats {
    fn default() -> (stats: Self)
        ensures
            no_counts(stats),
    {
        CompilerStats {
            lines_processed: 0,
            tokens_generated: 0,
            ast_nodes: 0,
            functions_defined: 0,
            variables_declared: 0,
            errors_found: 0,
            warnings_found: 0,
            compilation_time_ms: 0,
        }
    }
}

/// Every count is zero.
pub open spec fn no_counts(stats: CompilerStats) -> bool {
    &&& stats.lines_processed == 0
    &&& stats.tokens_generated == 0
    &&& stats.ast_nodes == 0
    &&& stats.functions_defined == 0
    &&& stats.variables_declared == 0
    &&& stats.errors_found == 0
    &&& stats.warnings_found == 0
    &&& stats.compilation_time_ms == 0
}

/// The one-line summary of the counts.
pub open spec fn stats_text(stats: CompilerStats) -> Seq<char> {
    "Estatísticas: "@ + decimal(stats.lines_processed as nat) + " linhas, "@ + decimal(
        stats.tokens_generated as nat,
    ) + " tokens, "@ + decimal(stats.ast_nodes as nat) + " nós AST, "@ + decimal(
        stats.functions_defined as nat,
    ) + " funções, "@ + decimal(stats.variables_declared as nat) + " variáveis, "@ + decimal(
        stats.errors_found as nat,
    ) + " erros, "@ + decimal(stats.warnings_found as nat) + " avisos, "@ + decimal(
        stats.compilation_time_ms as nat,
    ) + "ms"@
}

impl CompilerStats {
    /// Counts that are all zero.
    pub fn new() -> (stats: Self)
        ensures
            no_counts(stats),
    {
        CompilerStats {
            lines_processed: 0,
            tokens_generated: 0,
            ast_nodes: 0,
            functions_defined: 0,
            variables_declared: 0,
            errors_found: 0,
            warnings_found: 0,
            compilation_time_ms: 0,
        }
    }

    /// The one-line summary of the counts.
    pub fn to_string(&self) -> (s: String)
        ensures
            s@ == stats_text(*self),
    {
        let mut s = String::from_str("Estatísticas: ");
        append_decimal(&mut s, self.lines_processed as u128);
        s.append(" linhas, ");
        append_decimal(&mut s, self.tokens_generated as u128);
        s.append(" tokens, ");
        append_decimal(&mut s, self.ast_nodes as u128);
        s.append(" nós AST, ");
        append_decimal(&mut s, self.functions_defined as u128);
        s.append(" funções, ");
        append_decimal(&mut s, self.variables_declared as u128);
        s.append(" variáveis, ");
        append_decimal(&mut s, self.errors_found as u128);
        s.append(" erros, ");
        append_decimal(&mut s, self.warnings_found as u128);
        s.append(" avisos, ");
        append_decimal(&mut s, self.compilation_time_ms as u128);
        s.append("ms");
        s
    }
}

/// What a compilation is to produce.
#[derive(Debug, Clone, Copy, PartialEq, Eq, Structural)]
pub enum OutputFormat {
    Assembly,
    Object,
    Executable,
}

/// The settings of a compiler.
#[derive(Debug)]
pub struct CompilerConfig {
    pub _optimization_level: u8,
    pub _show_tokens: bool,
    pub _show_ast: bool,
    pub _show_assembly: bool,
    pub _warnings_as_errors: bool,
    pub _target_architecture: String,
    pub _output_format: OutputFormat,
}

/// The two settings agree in every field.
pub open spec fn same_config(a: CompilerConfig, b: CompilerConfig) -> bool {
    &&& a._optimization_level == b._optimization_level
    &&& a._show_tokens == b._show_tokens
    &&& a._show_ast == b._show_ast
    &&& a._show_assembly == b._show_assembly
    &&& a._warnings_as_errors == b._warnings_as_errors
    &&& a._target_architecture@ == b._target_architecture@
    &&& a._output_format == b._output_format
}

/// The default settings: no optimization, nothing shown, assembly for
/// `x86_64`.
pub open spec fn default_settings(config: CompilerConfig) -> bool {
    &&& config._optimization_level == 0
    &&& !config._show_tokens
    &&& !config._show_ast
    &&& !config._show_assembly
    &&& !config._warnings_as_errors
    &&& config._target_architecture@ == "x86_64"@
    &&& config._output_format == OutputFormat::Assembly
}

impl Clone for CompilerConfig {
    fn clone(&self) -> (config: Self)
        ensures
            same_config(config, *self),
    {
        CompilerConfig {
            _optimization_level: self._optimization_level,
            _show_tokens: self._show_tokens,
            _show_ast: self._show_ast,
            _show_assembly: self._show_assembly,
            _warnings_as_errors: self._warnings_as_errors,
            _target_architecture: self._target_architecture.clone(),
            _output_format: self._output_format,
        }
    }
}

impl Default for CompilerConfig {
    /// No optimization, nothing shown, assembly for `x86_64`.
    fn default() -> (config: Self)
        ensures
            default_settings(config),
    {
        CompilerConfig {
            _optimization_level: 0,
            _show_tokens: false,
            _show_ast: false,
            _show_assembly: false,
            _warnings_as_errors: false,
            _target_architecture: String::from_str("x86_64"),
            _output_format: OutputFormat::Assembly,
        }
    }
}

// ---------------------------------------------------------------------------
// The source formatter.
// ---------------------------------------------------------------------------

/// A white-space character of Unicode.
pub open spec fn is_blank(c: char) -> bool {
    let code = c as u32;
    ||| 0x09 <= code <= 0x0d
    ||| code == 0x20
    ||| code == 0x85
    ||| code == 0xa0
    ||| code == 0x1680
    ||| 0x2000 <= code <= 0x200a
    ||| code == 0x2028
    ||| code == 0x2029
    ||| code == 0x202f
    ||| code == 0x205f
    ||| code == 0x3000
}

/// The first position from `from` up to `to` that holds no blank.
pub open spec fn trim_start(s: Seq<char>, from: int, to: int) -> int
    decreases to - from,
{
    if 0 <= from < to <= s.len() && is_blank(s[from]) {
        trim_start(s, from + 1, to)
    } else {
        from
    }
}

/// The end of `s[from..to]` without the blanks at its end.
pub open spec fn trim_end(s: Seq<char>, from: int, to: int) -> int
    decreases to - from,
{
    if 0 <= from < to <= s.len() && is_blank(s[to - 1]) {
        trim_end(s, from, to - 1)
    } else {
        to
    }
}

/// `s[from..to]` without the blanks at its start and at its end.
pub open spec fn trimmed(s: Seq<char>, from: int, to: int) -> Seq<char> {
    let start = trim_start(s, from, to);
    s.subrange(start, trim_end(s, start, to))
}

/// `width` spaces for each of `level` levels.
pub open spec fn indentation(level: nat, width: nat) -> Seq<char>
    decreases level,
{
    if level == 0 {
        Seq::empty()
    } else {
        indentation((level - 1) as nat, width) + Seq::new(width, |i: int| ' ')
    }
}

/// The level at which a line stands: one less than the level before it where
/// the line begins with a closing brace.
pub open spec fn line_level(line: Seq<char>, level: nat) -> nat {
    if line.len() > 0 && line[0] == '}' && level > 0 {
        (level - 1) as nat
    } else {
        level
    }
}

/// The level after a line: one more than the line's own where the line ends
/// with an opening brace.
pub open spec fn next_level(line: Seq<char>, level: nat) -> nat {
    if line.len() > 0 && line.last() == '{' {
        line_level(line, level) + 1
    } else {
        line_level(line, level)
    }
}

/// A trimmed line as it is written: indented by its level, or empty.
pub open spec fn formatted_line(line: Seq<char>, level: nat, width: nat) -> Seq<char> {
    if line.len() == 0 {
        seq!['\n']
    } else {
        indentation(line_level(line, level), width) + line + seq!['\n']
    }
}

/// The lines of `src` from `pos` on, each trimmed and indented by the braces
/// that came before it.
pub open spec fn formatted_from(src: Seq<char>, pos: int, level: nat, width: nat) -> Seq<char>
    decreases src.len() - pos,
{
    if !(0 <= pos < src.len()) {
        Seq::empty()
    } else {
        let end = run_end(src, pos, CharClass::NotLineFeed);
        proof {
            lemma_run_end_bounds(src, pos, CharClass::NotLineFeed);
        }
        let line = trimmed(src, pos, end);
        if end >= src.len() {
            formatted_line(line, level, width)
        } else {
            formatted_line(line, level, width) + formatted_from(
                src,
                end + 1,
                next_level(line, level),
                width,
            )
        }
    }
}

/// The formatted source: four spaces for each level.
pub open spec fn formatted(src: Seq<char>) -> Seq<char> {
    formatted_from(src, 0, 0, 4)
}

fn char_is_blank(c: char) -> (b: bool)
    ensures
        b == is_blank(c),
{
    let code: u32 = c as u32;
    (0x09 <= code && code <= 0x0d) || code == 0x20 || code == 0x85 || code == 0xa0 || code
        == 0x1680 || (0x2000 <= code && code <= 0x200a) || code == 0x2028 || code == 0x2029
        || code == 0x202f || code == 0x205f || code == 0x3000
}

/// A formatter that indents by the nesting of braces.
pub struct SourceFormatter {
    indent_size: usize,
    _max_line_length: usize,
}

impl SourceFormatter {
    /// The width of one level of indentation.
    pub closed spec fn width(&self) -> nat {
        self.indent_size as nat
    }

    /// A formatter that indents by four spaces.
    pub fn new() -> (formatter: Self)
        ensures
            formatter.width() == 4,
    {
        SourceFormatter { indent_size: 4, _max_line_length: 80 }
    }

    fn append_indentation(&self, out: &mut String, level: usize)
        ensures
            final(out)@ == old(out)@ + indentation(level as nat, self.width()),
    {
        let mut k: usize = 0;
        assert(out@ =~= old(out)@ + indentation(0, self.width()));
        while k < level
            invariant
                k <= level,
                out@ == old(out)@ + indentation(k as nat, self.width()),
            decreases level - k,
        {
            let ghost before = out@;
            let mut j: usize = 0;
            while j < self.indent_size
                invariant
                    j <= self.indent_size,
                    out@ == before + Seq::new(j as nat, |i: int| ' '),
                decreases self.indent_size - j,
            {
                out.push(' ');
                j += 1;
                assert(out@ =~= before + Seq::new(j as nat, |i: int| ' '));
            }
            k += 1;
            assert(out@ =~= old(out)@ + indentation(k as nat, self.width()));
        }
    }

    /// Trims every line and indents it by the braces that came before it: a
    /// line that ends with `{` raises the level for the lines after it, a line
    /// that begins with `}` lowers it from that line on. Blank lines stay as
    /// empty lines.
    pub fn format_source(&self, source: &str) -> (text: String)
        ensures
            text@ == formatted_from(source@, 0, 0, self.width()),
    {
        let chars = chars_of(source);
        let n = chars.len();
        let ghost src = chars@;
        let ghost width = self.width();
        let mut out = String::new();
        let mut pos: usize = 0;
        let mut level: usize = 0;
        assert(out@ + formatted_from(src, 0, 0, width) =~= formatted_from(src, 0, 0, width));
        while pos < n
            invariant
                n == chars@.len(),
                src == chars@,
                width == self.width(),
                pos <= n,
                pos < n ==> level <= pos,
                formatted_from(src, 0, 0, width) == out@ + formatted_from(
                    src,
                    pos as int,
                    level as nat,
                    width,
                ),
            decreases n - pos,
        {
            let ghost before = out@;
            let ghost level_before = level as nat;
            let end = scan_run(&chars, pos, CharClass::NotLineFeed);
            let mut start: usize = pos;
            while start < end && char_is_blank(chars[start])
                invariant
                    pos <= start <= end <= n,
                    n == chars@.len(),
                    trim_start(chars@, pos as int, end as int) == trim_start(
                        chars@,
                        start as int,
                        end as int,
                    ),
                decreases end - start,
            {
                start += 1;
            }
            let mut stop: usize = end;
            while start < stop && char_is_blank(chars[stop - 1])
                invariant
                    start <= stop <= end <= n,
                    n == chars@.len(),
                    trim_end(chars@, start as int, end as int) == trim_end(
                        chars@,
                        start as int,
                        stop as int,
                    ),
                decreases stop - start,
            {
                stop -= 1;
            }
            let ghost line = chars@.subrange(start as int, stop as int);
            assert(line == trimmed(src, pos as int, end as int));
            if start == stop {
                out.push('\n');
                assert(out@ =~= before + formatted_line(line, level_before, width));
            } else {
                assert(line[0] == chars@[start as int]);
                assert(line.last() == chars@[stop - 1]);
                if chars[start] == '}' && level > 0 {
                    level -= 1;
                }
                self.append_indentation(&mut out, level);
                append_chars(&mut out, &chars, start, stop);
                out.push('\n');
                assert(out@ =~= before + formatted_line(line, level_before, width));
                if chars[stop - 1] == '{' {
                    level += 1;
                }
            }
            proof {
                lemma_run_end_bounds(src, pos as int, CharClass::NotLineFeed);
                let rest = formatted_from(src, end + 1, next_level(line, level_before), width);
                assert((before + formatted_line(line, level_before, width)) + rest =~= before + (
                formatted_line(line, level_before, width) + rest));
                assert(out@ + Seq::<char>::empty() =~= out@);
            }
            if end < n {
                pos = end + 1;
            } else {
                pos = n;
            }
        }
        out
    }
}

// ---------------------------------------------------------------------------
// The complexity measure.
// ---------------------------------------------------------------------------

/// The cyclomatic measure of a statement: one for each `if` and each `while`
/// that stands in a function's body or in a block, not inside another
/// statement, and one more for a function itself.
pub open spec fn complexity(s: StmtSpec) -> nat
    decreases s, 0nat,
{
    match s {
        StmtSpec::If { .. } => 1,
        StmtSpec::While { .. } => 1,
        StmtSpec::Function { body, .. } => 1 + complexity_sum(body, body.len()),
        StmtSpec::Block { statements, .. } => complexity_sum(statements, statements.len()),
        _ => 0,
    }
}

/// The sum of the measures of the first `n` statements.
pub open spec fn complexity_sum(statements: Seq<StmtSpec>, n: nat) -> nat
    decreases statements, n,
{
    if n == 0 || n > statements.len() {
        0
    } else {
        complexity_sum(statements, (n - 1) as nat) + complexity(statements[n - 1])
    }
}

/// The word for the risk that goes with a measure.
pub open spec fn risk_text(measure: usize) -> Seq<char> {
    if 1 <= measure <= 10 {
        "Baixo"@
    } else if 11 <= measure <= 20 {
        "Médio"@
    } else if 21 <= measure <= 50 {
        "Alto"@
    } else {
        "Muito Alto"@
    }
}

/// The line of the report for one function.
pub open spec fn report_line(name: Seq<char>, measure: usize) -> Seq<char> {
    name + ": "@ + decimal(measure as nat) + " ("@ + risk_text(measure) + ")\n"@
}

/// The lines of the report for the first `n` entries.
pub open spec fn report_lines(entries: Seq<(Seq<char>, usize)>, n: nat) -> Seq<char>
    decreases n,
{
    if n == 0 || n > entries.len() {
        Seq::empty()
    } else {
        report_lines(entries, (n - 1) as nat) + report_line(entries[n - 1].0, entries[n - 1].1)
    }
}

/// The report: a heading and one line for each function, in the order in which
/// the functions were first analyzed.
pub open spec fn report_text(entries: Seq<(Seq<char>, usize)>) -> Seq<char> {
    "=== Relatório de Complexidade Ciclomática ===\n"@ + report_lines(entries, entries.len())
}

/// The first index from `i` on whose entry has the name, or the number of
/// entries.
pub open spec fn entry_index(entries: Seq<(Seq<char>, usize)>, name: Seq<char>, i: nat) -> nat
    decreases entries.len() - i,
{
    if i >= entries.len() {
        entries.len()
    } else if entries[i as int].0 == name {
        i
    } else {
        entry_index(entries, name, i + 1)
    }
}

/// The entries with `measure` recorded for `name`: in place of the measure
/// that the name had, or as a new entry at the end.
pub open spec fn recorded(entries: Seq<(Seq<char>, usize)>, name: Seq<char>, measure: usize) -> Seq<
    (Seq<char>, usize),
> {
    let i = entry_index(entries, name, 0);
    if i < entries.len() {
        entries.update(i as int, (name, measure))
    } else {
        entries.push((name, measure))
    }
}

/// The models of a list of entries, element by element.
pub open spec fn entries_view(entries: Seq<(String, usize)>) -> Seq<(Seq<char>, usize)> {
    Seq::new(entries.len(), |i: int| (entries[i].0@, entries[i].1))
}

/// No name occurs twice among the entries.
pub open spec fn distinct_entries(entries: Seq<(Seq<char>, usize)>) -> bool {
    forall|i: int, j: int|
        0 <= i < j < entries.len() ==> (#[trigger] entries[i]).0 != (#[trigger] entries[j]).0
}

/// The entries hold `measure` under `name`, and hold the name nowhere else.
pub open spec fn holds_once(
    entries: Seq<(Seq<char>, usize)>,
    name: Seq<char>,
    measure: usize,
) -> bool {
    exists|i: int|
        {
            &&& 0 <= i < entries.len()
            &&& #[trigger] entries[i] == (name, measure)
            &&& forall|j: int| 0 <= j < entries.len() && j != i ==> (#[trigger] entries[j]).0 != name
        }
}

/// The measures of functions under their names, each name once, in the order
/// in which the names were first analyzed.
pub struct ComplexityAnalyzer {
    complexity_map: Vec<(String, usize)>,
}

impl View for ComplexityAnalyzer {
    type V = Seq<(Seq<char>, usize)>;

    closed spec fn view(&self) -> Seq<(Seq<char>, usize)> {
        entries_view(self.complexity_map@)
    }
}

impl ComplexityAnalyzer {
    /// No name occurs twice among the records.
    #[verifier::type_invariant]
    closed spec fn well_formed(&self) -> bool {
        distinct_entries(entries_view(self.complexity_map@))
    }

    /// An analyzer without measures.
    pub fn new() -> (analyzer: Self)
        ensures
            analyzer@ == Seq::<(Seq<char>, usize)>::empty(),
    {
        let analyzer = ComplexityAnalyzer { complexity_map: Vec::new() };
        assert(entries_view(analyzer.complexity_map@) =~= Seq::<(Seq<char>, usize)>::empty());
        analyzer
    }

    /// The index of the record of `name`, if there is one.
    fn find(&self, name: &String) -> (found: Option<usize>)
        ensures
            match found {
                Some(i) => i < self@.len() && entry_index(self@, name@, 0) == i && self@[i as int].0
                    == name@,
                None => entry_index(self@, name@, 0) == self@.len() && forall|j: int|
                    0 <= j < self@.len() ==> (#[trigger] self@[j]).0 != name@,
            },
    {
        let ghost entries = self@;
        let mut i: usize = 0;
        while i < self.complexity_map.len()
            invariant
                i <= self.complexity_map.len(),
                entries == self@,
                entry_index(entries, name@, 0) == entry_index(entries, name@, i as nat),
                forall|j: int| 0 <= j < i ==> (#[trigger] entries[j]).0 != name@,
            decreases self.complexity_map.len() - i,
        {
            if self.complexity_map[i].0 == *name {
                return Some(i);
            }
            i += 1;
        }
        None
    }

    /// Records the measure of `ast` under `function_name`, in place of the
    /// measure that the name had or else as a new record, and returns it. The
    /// analyzer then holds the name once, with this measure. The measure is
    /// capped at the greatest machine word.
    pub fn analyze_function(&mut self, function_name: &str, ast: &Statement) -> (measure: usize)
        ensures
            measure == clip(complexity(ast@)),
            final(self)@ == recorded(old(self)@, function_name@, measure),
            holds_once(final(self)@, function_name@, measure),
            distinct_entries(final(self)@),
    {
        proof {
            use_type_invariant(&*self);
        }
        let measure = Self::calculate_complexity(ast);
        let name = String::from_str(function_name);
        let found = self.find(&name);
        let ghost entries = self@;
        let mut taken = ComplexityAnalyzer::new();
        core::mem::swap(self, &mut taken);
        let ComplexityAnalyzer { complexity_map: mut records } = taken;
        let ghost at: int;
        match found {
            Some(i) => {
                records.set(i, (name, measure));
                proof {
                    at = i as int;
                }
            },
            None => {
                records.push((name, measure));
                proof {
                    at = entries.len() as int;
                }
            },
        }
        proof {
            let after = entries_view(records@);
            assert(after =~= recorded(entries, function_name@, measure));
            assert forall|i: int, j: int| 0 <= i < j < after.len() implies (#[trigger] after[i]).0
                != (#[trigger] after[j]).0 by {
                if i < entries.len() && i != at {
                    assert(after[i] == entries[i]);
                }
                if j < entries.len() && j != at {
                    assert(after[j] == entries[j]);
                }
            }
            assert(after[at] == (function_name@, measure));
            assert forall|j: int| 0 <= j < after.len() && j != at implies (#[trigger] after[j]).0
                != function_name@ by {
                if j < at {
                    assert(after[j].0 != after[at].0);
                } else {
                    assert(after[at].0 != after[j].0);
                }
            }
        }
        *self = ComplexityAnalyzer { complexity_map: records };
        measure
    }

    #[verifier::loop_isolation(false)]
    fn calculate_complexity(statement: &Statement) -> (measure: usize)
        ensures
            measure == clip(complexity(statement@)),
        decreases statement, 1nat,
    {
        match statement {
            Statement::If(_) => 1,
            Statement::While(_) => 1,
            Statement::Function(func) => {
                proof {
                    lemma_function_view(*func);
                }
                clipped_add(1, Self::sum_complexity(&func.body.statements))
            },
            Statement::Block(block) => {
                proof {
                    lemma_block_view(*block);
                }
                Self::sum_complexity(&block.statements)
            },
            _ => 0,
        }
    }

    #[verifier::loop_isolation(false)]
    fn sum_complexity(statements: &Vec<Statement>) -> (measure: usize)
        ensures
            measure == clip(complexity_sum(stmts_view(statements@), statements@.len())),
        decreases statements, 0nat,
    {
        let ghost all = stmts_view(statements@);
        let mut total: usize = 0;
        let mut i: usize = 0;
        while i < statements.len()
            invariant
                i <= statements.len(),
                total == clip(complexity_sum(all, i as nat)),
            decreases statements.len() - i,
        {
            assert(decreases_to!(statements => statements@[i as int]));
            total = clipped_add(total, Self::calculate_complexity(&statements[i]));
            i += 1;
        }
        total
    }

    /// The report of the measures recorded so far: one line for each name.
    pub fn get_complexity_report(&self) -> (report: String)
        ensures
            report@ == report_text(self@),
            distinct_entries(self@),
    {
        proof {
            use_type_invariant(self);
        }
        let mut report = String::from_str("=== Relatório de Complexidade Ciclomática ===\n");
        let ghost entries = self@;
        let mut i: usize = 0;
        assert(report@ =~= "=== Relatório de Complexidade Ciclomática ===\n"@ + report_lines(
            entries,
            0,
        ));
        while i < self.complexity_map.len()
            invariant
                i <= self.complexity_map.len(),
                entries == self@,
                report@ == "=== Relatório de Complexidade Ciclomática ===\n"@ + report_lines(
                    entries,
                    i as nat,
                ),
            decreases self.complexity_map.len() - i,
        {
            let ghost before = report@;
            let measure = self.complexity_map[i].1;
            report.append(self.complexity_map[i].0.as_str());
            report.append(": ");
            append_decimal(&mut report, measure as u128);
            report.append(" (");
            if 1 <= measure && measure <= 10 {
                report.append("Baixo");
            } else if 11 <= measure && measure <= 20 {
                report.append("Médio");
            } else if 21 <= measure && measure <= 50 {
                report.append("Alto");
            } else {
                report.append("Muito Alto");
            }
            report.append(")\n");
            assert(report@ =~= before + report_line(entries[i as int].0, entries[i as int].1));
            assert(report@ =~= "=== Relatório de Complexidade Ciclomática ===\n"@ + report_lines(
                entries,
                (i + 1) as nat,
            ));
            i += 1;
        }
        report
    }
}

// ---------------------------------------------------------------------------
// The optimizer's hooks.
// ---------------------------------------------------------------------------

/// The optimization passes. None of them changes a program yet.
pub struct Optimizer {
    config: CompilerConfig,
}

/// The message for a level that is no optimization level.
pub open spec fn invalid_level_text() -> Seq<char> {
    "Nível de otimização inválido"@
}

impl Optimizer {
    /// The optimization level of the settings that the optimizer was made with.
    pub closed spec fn level(&self) -> u8 {
        self.config._optimization_level
    }

    /// An optimizer with the given settings.
    pub fn new(config: CompilerConfig) -> (optimizer: Self)
        ensures
            optimizer.level() == config._optimization_level,
    {
        Optimizer { config }
    }

    /// Runs the passes of the optimizer's level, from 0 to 3, over the
    /// program, which they leave as it is. A higher level is an error.
    pub fn optimize_ast(&self, program: &mut Program) -> (result: Result<(), String>)
        ensures
            *final(program) == *old(program),
            match result {
                Ok(()) => self.level() <= 3,
                Err(message) => self.level() > 3 && message@ == invalid_level_text(),
            },
    {
        if self.config._optimization_level == 0 {
            Ok(())
        } else if self.config._optimization_level == 1 {
            self.constant_folding(program)
        } else if self.config._optimization_level == 2 {
            match self.constant_folding(program) {
                Err(e) => Err(e),
                Ok(()) => self.dead_code_elimination(program),
            }
        } else if self.config._optimization_level == 3 {
            match self.constant_folding(program) {
                Err(e) => Err(e),
                Ok(()) => match self.dead_code_elimination(program) {
                    Err(e) => Err(e),
                    Ok(()) => self.expression_simplification(program),
                },
            }
        } else {
            Err(String::from_str("Nível de otimização inválido"))
        }
    }

    fn constant_folding(&self, program: &mut Program) -> (result: Result<(), String>)
        ensures
            *final(program) == *old(program),
            result is Ok,
    {
        Ok(())
    }

    fn dead_code_elimination(&self, program: &mut Program) -> (result: Result<(), String>)
        ensures
            *final(program) == *old(program),
            result is Ok,
    {
        Ok(())
    }

    fn expression_simplification(&self, program: &mut Program) -> (result: Result<(), String>)
        ensures
            *final(program) == *old(program),
            result is Ok,
    {
        Ok(())
    }
}

// ---------------------------------------------------------------------------
// The validator.
// ---------------------------------------------------------------------------

/// The statement defines a function of the given name.
pub open spec fn defines_function(s: StmtSpec, name: Seq<char>) -> bool {
    s is Function && s->Function_name == name
}

/// Some statement of the program itself defines the function `main`.
pub open spec fn has_main(program: ProgramSpec) -> bool {
    exists|i: int|
        0 <= i < program.statements.len() && defines_function(
            #[trigger] program.statements[i],
            "main"@,
        )
}

/// The warnings of a validation.
pub open spec fn validation_warnings(program: ProgramSpec) -> Seq<Seq<char>> {
    if has_main(program) {
        Seq::empty()
    } else {
        seq!["Função 'main' não encontrada"@]
    }
}

/// The models of a list of strings, element by element.
pub open spec fn messages_view(messages: Seq<String>) -> Seq<Seq<char>> {
    Seq::new(messages.len(), |i: int| messages[i]@)
}

/// Checks on a program beyond those of the analysis.
pub struct CodeValidator {
    warnings: Vec<String>,
    errors: Vec<String>,
}

impl CodeValidator {
    /// The warnings of the last validation.
    pub closed spec fn warnings(&self) -> Seq<Seq<char>> {
        messages_view(self.warnings@)
    }

    /// The errors of the last validation.
    pub closed spec fn errors(&self) -> Seq<Seq<char>> {
        messages_view(self.errors@)
    }

    /// A validator without warnings or errors.
    pub fn new() -> (validator: Self)
        ensures
            validator.warnings() == Seq::<Seq<char>>::empty(),
            validator.errors() == Seq::<Seq<char>>::empty(),
    {
        let validator = CodeValidator { warnings: Vec::new(), errors: Vec::new() };
        assert(messages_view(validator.warnings@) =~= Seq::<Seq<char>>::empty());
        assert(messages_view(validator.errors@) =~= Seq::<Seq<char>>::empty());
        validator
    }

    /// Validates a program: it warns where no function `main` is defined. The
    /// result says whether no error was found; none is looked for yet.
    pub fn validate(&mut self, program: &Program) -> (valid: bool)
        ensures
            valid,
            final(self).warnings() == validation_warnings(program@),
            final(self).errors() == Seq::<Seq<char>>::empty(),
    {
        self.warnings = Vec::new();
        self.errors = Vec::new();
        let main_name = String::from_str("main");
        let mut found = false;
        let mut i: usize = 0;
        while i < program.statements.len() && !found
            invariant
                i <= program.statements.len(),
                main_name@ == "main"@,
                found ==> has_main(program@),
                !found ==> forall|j: int|
                    0 <= j < i ==> !defines_function(#[trigger] program@.statements[j], "main"@),
            decreases program.statements.len() - i,
        {
            match &program.statements[i] {
                Statement::Function(func) => {
                    if func.name == main_name {
                        assert(defines_function(program@.statements[i as int], "main"@));
                        found = true;
                    }
                },
                _ => {},
            }
            i += 1;
        }
        if !found {
            self.warnings.push(String::from_str("Função 'main' não encontrada"));
            assert(messages_view(self.warnings@) =~= seq!["Função 'main' não encontrada"@]);
        } else {
            assert(messages_view(self.warnings@) =~= Seq::<Seq<char>>::empty());
        }
        self.check_unused_variables(program);
        self.check_unused_functions(program);
        assert(messages_view(self.errors@) =~= Seq::<Seq<char>>::empty());
        self.errors.len() == 0
    }

    fn check_unused_variables(&mut self, program: &Program)
        ensures
            *final(self) == *old(self),
    {
    }

    fn check_unused_functions(&mut self, program: &Program)
        ensures
            *final(self) == *old(self),
    {
    }

    /// The warnings of the last validation.
    pub fn get_warnings(&self) -> (warnings: &[String])
        ensures
            messages_view(warnings@) == self.warnings(),
    {
        self.warnings.as_slice()
    }

    /// The errors of the last validation.
    pub fn get_errors(&self) -> (errors: &[String])
        ensures
            messages_view(errors@) == self.errors(),
    {
        self.errors.as_slice()
    }
}

// ---------------------------------------------------------------------------
// The documentation generator.
// ---------------------------------------------------------------------------

/// The formats of the documentation.
#[derive(Debug, Clone, Copy, PartialEq, Eq, Structural)]
pub enum DocumentationFormat {
    Markdown,
    HTML,
    PlainText,
}

/// The lines for the first `n` parameters of a function.
pub open spec fn parameter_lines(parameters: Seq<ParamSpec>, n: nat) -> Seq<char>
    decreases n,
{
    if n == 0 || n > parameters.len() {
        Seq::empty()
    } else {
        parameter_lines(parameters, (n - 1) as nat) + "- `"@ + parameters[n - 1].name + "`: "@
            + type_text(parameters[n - 1].param_type) + "\n"@
    }
}

/// The section for a statement: for a function its name, its return type and
/// its parameters; nothing for any other statement.
pub open spec fn function_section(s: StmtSpec) -> Seq<char> {
    match s {
        StmtSpec::Function { name, parameters, return_type, .. } => "### "@ + name + "\n\n"@
            + "**Tipo de retorno:** "@ + type_text(return_type) + "\n\n"@ + if parameters.len()
            > 0 {
            "**Parâmetros:**\n"@ + parameter_lines(parameters, parameters.len()) + "\n"@
        } else {
            Seq::empty()
        },
        _ => Seq::empty(),
    }
}

/// The sections for the first `n` statements of a program.
pub open spec fn function_sections(statements: Seq<StmtSpec>, n: nat) -> Seq<char>
    decreases n,
{
    if n == 0 || n > statements.len() {
        Seq::empty()
    } else {
        function_sections(statements, (n - 1) as nat) + function_section(statements[n - 1])
    }
}

/// The documentation in Markdown: a heading and a section for each function
/// of the program itself.
pub open spec fn markdown_text(program: ProgramSpec) -> Seq<char> {
    "# Documentação do Código\n\n## Funções\n\n"@ + function_sections(
        program.statements,
        program.statements.len(),
    )
}

/// The documentation in HTML: a page with a heading.
pub open spec fn html_text() -> Seq<char> {
    "<html><head><title>Documentação</title></head><body><h1>Documentação do Código</h1></body></html>"@
}

/// The documentation in plain text: a heading.
pub open spec fn plain_text() -> Seq<char> {
    "DOCUMENTAÇÃO DO CÓDIGO\n=======================\n\n"@
}

/// The documentation of a program in a format. Only the Markdown form lists
/// the functions.
pub open spec fn docs_text(format: DocumentationFormat, program: ProgramSpec) -> Seq<char> {
    match format {
        DocumentationFormat::Markdown => markdown_text(program),
        DocumentationFormat::HTML => html_text(),
        DocumentationFormat::PlainText => plain_text(),
    }
}

/// A generator of documentation in one format.
pub struct DocumentationGenerator {
    output_format: DocumentationFormat,
}

impl DocumentationGenerator {
    /// The format that the generator writes.
    pub closed spec fn format(&self) -> DocumentationFormat {
        self.output_format
    }

    /// A generator that writes the given format.
    pub fn new(output_format: DocumentationFormat) -> (generator: Self)
        ensures
            generator.format() == output_format,
    {
        DocumentationGenerator { output_format }
    }

    /// The documentation of a program.
    pub fn generate_docs(&self, program: &Program) -> (docs: String)
        ensures
            docs@ == docs_text(self.format(), program@),
    {
        match self.output_format {
            DocumentationFormat::Markdown => self.generate_markdown(program),
            DocumentationFormat::HTML => self.generate_html(program),
            DocumentationFormat::PlainText => self.generate_plain_text(program),
        }
    }

    fn append_parameters(docs: &mut String, parameters: &Vec<Parameter>)
        ensures
            final(docs)@ == old(docs)@ + parameter_lines(
                params_view(parameters@),
                parameters@.len(),
            ),
    {
        let ghost all = params_view(parameters@);
        let mut i: usize = 0;
        assert(docs@ =~= old(docs)@ + parameter_lines(all, 0));
        while i < parameters.len()
            invariant
                i <= parameters.len(),
                all == params_view(parameters@),
                docs@ == old(docs)@ + parameter_lines(all, i as nat),
            decreases parameters.len() - i,
        {
            docs.append("- `");
            docs.append(parameters[i].name.as_str());
            docs.append("`: ");
            parameters[i].param_type.append_to(docs);
            docs.append("\n");
            assert(docs@ =~= old(docs)@ + parameter_lines(all, (i + 1) as nat));
            i += 1;
        }
    }

    fn generate_markdown(&self, program: &Program) -> (docs: String)
        ensures
            docs@ == markdown_text(program@),
    {
        let mut docs = String::from_str("# Documentação do Código\n\n## Funções\n\n");
        let ghost all = program@.statements;
        let mut i: usize = 0;
        assert(docs@ =~= "# Documentação do Código\n\n## Funções\n\n"@ + function_sections(all, 0));
        while i < program.statements.len()
            invariant
                i <= program.statements.len(),
                all == program@.statements,
                docs@ == "# Documentação do Código\n\n## Funções\n\n"@ + function_sections(
                    all,
                    i as nat,
                ),
            decreases program.statements.len() - i,
        {
            let ghost before = docs@;
            match &program.statements[i] {
                Statement::Function(func) => {
                    proof {
                        lemma_function_view(*func);
                    }
                    docs.append("### ");
                    docs.append(func.name.as_str());
                    docs.append("\n\n");
                    docs.append("**Tipo de retorno:** ");
                    func.return_type.append_to(&mut docs);
                    docs.append("\n\n");
                    if func.parameters.len() > 0 {
                        let ghost head = docs@;
                        docs.append("**Parâmetros:**\n");
                        Self::append_parameters(&mut docs, &func.parameters);
                        docs.append("\n");
                        assert(docs@ =~= head + ("**Parâmetros:**\n"@ + parameter_lines(
                            params_view(func.parameters@),
                            func.parameters@.len(),
                        ) + "\n"@));
                    } else {
                        assert(docs@ =~= docs@ + Seq::<char>::empty());
                    }
                    assert(docs@ =~= before + function_section(all[i as int]));
                },
                _ => {
                    assert(docs@ =~= before + function_section(all[i as int]));
                },
            }
            assert(docs@ =~= "# Documentação do Código\n\n## Funções\n\n"@ + function_sections(
                all,
                (i + 1) as nat,
            ));
            i += 1;
        }
        docs
    }

    fn generate_html(&self, _program: &Program) -> (docs: String)
        ensures
            docs@ == html_text(),
    {
        String::from_str(
            "<html><head><title>Documentação</title></head><body><h1>Documentação do Código</h1></body></html>",
        )
    }

    fn generate_plain_text(&self, _program: &Program) -> (docs: String)
        ensures
            docs@ == plain_text(),
    {
        String::from_str("DOCUMENTAÇÃO DO CÓDIGO\n=======================\n\n")
    }
}

} // verus!
