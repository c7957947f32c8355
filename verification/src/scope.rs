//! Symbols and lexical scopes: a scope maps names to symbols and may stand
//! inside an enclosing scope.

use crate::ast::{clone_types, types_view, Type, TypeSpec};
use crate::error::{CompilerError, ErrorSpec};
use vstd::prelude::*;

verus! {

/// A named entity: a variable, or a function with its parameter types and its
/// return type.
#[derive(Debug)]
pub struct Symbol {
    pub name: String,
    pub symbol_type: Type,
    pub is_function: bool,
    pub parameters: Vec<Type>,
    pub return_type: Option<Type>,
}

/// The mathematical model of a symbol.
pub struct SymbolSpec {
    pub name: Seq<char>,
    pub symbol_type: TypeSpec,
    pub is_function: bool,
    pub parameters: Seq<TypeSpec>,
    pub return_type: Option<TypeSpec>,
}

/// The model of a type that may be missing.
pub open spec fn option_type_view(t: Option<Type>) -> Option<TypeSpec> {
    match t {
        Some(t) => Some(t@),
        None => None,
    }
}

impl View for Symbol {
    type V = SymbolSpec;

    open spec fn view(&self) -> SymbolSpec {
        SymbolSpec {
            name: self.name@,
            symbol_type: self.symbol_type@,
            is_function: self.is_function,
            parameters: types_view(self.parameters@),
            return_type: option_type_view(self.return_type),
        }
    }
}

impl Clone for Symbol {
    fn clone(&self) -> (r: Self)
        ensures
            r@ == self@,
    {
        Symbol {
            name: self.name.clone(),
            symbol_type: self.symbol_type.clone(),
            is_function: self.is_function,
            parameters: clone_types(&self.parameters),
            return_type: match &self.return_type {
                Some(t) => Some(t.clone()),
                None => None,
            },
        }
    }
}

/// The symbol of a variable of type `t`.
pub open spec fn variable_symbol(name: Seq<char>, t: TypeSpec) -> SymbolSpec {
    SymbolSpec {
        name,
        symbol_type: t,
        is_function: false,
        parameters: Seq::empty(),
        return_type: None,
    }
}

/// The symbol of a function with the given parameter types and return type.
pub open spec fn function_symbol(
    name: Seq<char>,
    parameters: Seq<TypeSpec>,
    return_type: TypeSpec,
) -> SymbolSpec {
    SymbolSpec {
        name,
        symbol_type: TypeSpec::Function { parameters, return_type: Box::new(return_type) },
        is_function: true,
        parameters,
        return_type: Some(return_type),
    }
}

/// The names of one scope, each with its symbol.
pub type Names = Map<Seq<char>, SymbolSpec>;

/// The map that a list of symbols stands for: each symbol under its name.
pub open spec fn symbols_map(symbols: Seq<Symbol>) -> Names
    decreases symbols.len(),
{
    if symbols.len() == 0 {
        Map::empty()
    } else {
        symbols_map(symbols.drop_last()).insert(symbols.last().name@, symbols.last()@)
    }
}

/// The symbol that `name` refers to in a chain of scopes, innermost first:
/// that of the first scope that holds the name.
pub open spec fn resolve_in(chain: Seq<Names>, name: Seq<char>) -> Option<SymbolSpec>
    decreases chain.len(),
{
    if chain.len() == 0 {
        None
    } else if chain[0].contains_key(name) {
        Some(chain[0][name])
    } else {
        resolve_in(chain.drop_first(), name)
    }
}

/// The chain with `symbol` added to its innermost scope.
pub open spec fn define_in(chain: Seq<Names>, symbol: SymbolSpec) -> Seq<Names> {
    chain.update(0, chain[0].insert(symbol.name, symbol))
}

/// The message for a name that its scope already holds.
pub open spec fn already_defined_error(name: Seq<char>) -> ErrorSpec {
    ErrorSpec::SemanticError {
        message: "Símbolo '"@ + name + "' já está definido"@,
        line: None,
        column: None,
    }
}

/// The model of a symbol that may be missing.
pub open spec fn option_symbol_view(s: Option<&Symbol>) -> Option<SymbolSpec> {
    match s {
        Some(s) => Some(s@),
        None => None,
    }
}

/// The last symbol of a given name is the one that the map holds.
proof fn lemma_symbols_map_found(symbols: Seq<Symbol>, i: int, name: Seq<char>)
    requires
        0 <= i < symbols.len(),
        symbols[i].name@ == name,
        forall|j: int| i < j < symbols.len() ==> (#[trigger] symbols[j]).name@ != name,
    ensures
        symbols_map(symbols).contains_key(name),
        symbols_map(symbols)[name] == symbols[i]@,
    decreases symbols.len(),
{
    if i < symbols.len() - 1 {
        assert(symbols.last().name@ != name);
        lemma_symbols_map_found(symbols.drop_last(), i, name);
    }
}

/// The map holds no name that no symbol has.
proof fn lemma_symbols_map_missing(symbols: Seq<Symbol>, name: Seq<char>)
    requires
        forall|j: int| 0 <= j < symbols.len() ==> (#[trigger] symbols[j]).name@ != name,
    ensures
        !symbols_map(symbols).contains_key(name),
    decreases symbols.len(),
{
    if symbols.len() > 0 {
        assert(symbols.last().name@ != name);
        lemma_symbols_map_missing(symbols.drop_last(), name);
    }
}

/// A scope: its own symbols, no two of one name, and the scope around it.
#[derive(Debug)]
pub struct Scope {
    symbols: Vec<Symbol>,
    parent: Option<Box<Scope>>,
}

/// The scopes from `s` outward, each as the map of its names.
pub closed spec fn scope_chain(s: Scope) -> Seq<Names>
    decreases s,
{
    match s.parent {
        Some(p) => seq![symbols_map(s.symbols@)] + scope_chain(*p),
        None => seq![symbols_map(s.symbols@)],
    }
}

/// No name occurs twice among the symbols.
pub open spec fn distinct_names(symbols: Seq<Symbol>) -> bool {
    forall|i: int, j: int|
        0 <= i < j < symbols.len() ==> (#[trigger] symbols[i]).name@ != (#[trigger] symbols[j]).name@
}

impl View for Scope {
    type V = Seq<Names>;

    closed spec fn view(&self) -> Seq<Names> {
        scope_chain(*self)
    }
}

/// Lists of symbols that agree one by one stand for the same map.
proof fn lemma_symbols_map_of_copies(a: Seq<Symbol>, b: Seq<Symbol>)
    requires
        a.len() == b.len(),
        forall|i: int| 0 <= i < a.len() ==> (#[trigger] a[i])@ == b[i]@,
    ensures
        symbols_map(a) == symbols_map(b),
    decreases a.len(),
{
    if a.len() > 0 {
        lemma_symbols_map_of_copies(a.drop_last(), b.drop_last());
        assert(a.last()@ == b.last()@);
    }
}

impl Clone for Scope {
    fn clone(&self) -> (r: Self)
        ensures
            r@ == self@,
        decreases self,
    {
        proof {
            use_type_invariant(self);
        }
        let mut symbols: Vec<Symbol> = Vec::new();
        let mut i: usize = 0;
        while i < self.symbols.len()
            invariant
                i <= self.symbols.len(),
                symbols@.len() == i,
                forall|j: int| 0 <= j < i ==> (#[trigger] symbols@[j])@ == self.symbols@[j]@,
            decreases self.symbols.len() - i,
        {
            symbols.push(self.symbols[i].clone());
            i += 1;
        }
        proof {
            lemma_symbols_map_of_copies(symbols@, self.symbols@);
            assert forall|i: int, j: int| 0 <= i < j < symbols@.len() implies (
            #[trigger] symbols@[i]).name@ != (#[trigger] symbols@[j]).name@ by {
                assert(symbols@[i]@ == self.symbols@[i]@);
                assert(symbols@[j]@ == self.symbols@[j]@);
            }
        }
        let parent = match &self.parent {
            Some(p) => Some(Box::new((**p).clone())),
            None => None,
        };
        Scope { symbols, parent }
    }
}

impl Scope {
    /// In this scope and in every scope around it, no name occurs twice.
    #[verifier::type_invariant]
    closed spec fn well_formed(&self) -> bool {
        distinct_names(self.symbols@)
    }

    /// A chain of scopes holds at least the scope itself.
    pub proof fn lemma_nonempty(&self)
        ensures
            self@.len() >= 1,
    {
    }

    /// A scope without names and without a scope around it.
    pub fn new() -> (scope: Self)
        ensures
            scope@ == seq![Names::empty()],
    {
        Scope { symbols: Vec::new(), parent: None }
    }

    /// A scope without names inside `parent`.
    pub fn with_parent(parent: Scope) -> (scope: Self)
        ensures
            scope@ == seq![Names::empty()] + parent@,
    {
        Scope { symbols: Vec::new(), parent: Some(Box::new(parent)) }
    }

    /// The scope around this one, if there is one.
    pub fn into_parent(self) -> (parent: Option<Scope>)
        ensures
            match parent {
                Some(p) => self@.len() >= 2 && p@ == self@.drop_first(),
                None => self@.len() == 1,
            },
    {
        match self.parent {
            Some(p) => {
                proof {
                    p.lemma_nonempty();
                    assert(self@.drop_first() =~= p@);
                }
                Some(*p)
            },
            None => None,
        }
    }

    /// The index of the symbol called `name` in this scope itself.
    fn find_local(&self, name: &String) -> (found: Option<usize>)
        ensures
            match found {
                Some(i) => {
                    &&& i < self.symbols@.len()
                    &&& self@[0].contains_key(name@)
                    &&& self@[0][name@] == self.symbols@[i as int]@
                },
                None => !self@[0].contains_key(name@),
            },
    {
        let mut i: usize = self.symbols.len();
        while i > 0
            invariant
                i <= self.symbols@.len(),
                forall|j: int| i <= j < self.symbols@.len() ==> (#[trigger] self.symbols@[j]).name@ != name@,
            decreases i,
        {
            i -= 1;
            if self.symbols[i].name == *name {
                proof {
                    lemma_symbols_map_found(self.symbols@, i as int, name@);
                }
                return Some(i);
            }
        }
        proof {
            lemma_symbols_map_missing(self.symbols@, name@);
        }
        None
    }

    /// Whether this scope itself, not a scope around it, holds `name`.
    pub fn declares(&self, name: &str) -> (b: bool)
        ensures
            b == self@[0].contains_key(name@),
    {
        let key = String::from_str(name);
        self.find_local(&key).is_some()
    }

    /// Adds `symbol` to this scope, unless the scope already holds its name:
    /// then the result is a semantic error and the scope is left as it was.
    pub fn define(&mut self, symbol: Symbol) -> (result: Result<(), CompilerError>)
        ensures
            match result {
                Ok(()) => {
                    &&& !old(self)@[0].contains_key(symbol.name@)
                    &&& final(self)@ == define_in(old(self)@, symbol@)
                },
                Err(e) => {
                    &&& old(self)@[0].contains_key(symbol.name@)
                    &&& final(self)@ == old(self)@
                    &&& e@ == already_defined_error(symbol.name@)
                },
            },
    {
        if self.find_local(&symbol.name).is_some() {
            let mut message = String::from_str("Símbolo '");
            message.append(symbol.name.as_str());
            message.append("' já está definido");
            return Err(CompilerError::semantic(message));
        }
        proof {
            use_type_invariant(&*self);
            let symbols = self.symbols@;
            assert forall|j: int| 0 <= j < symbols.len() implies (#[trigger] symbols[j]).name@
                != symbol.name@ by {
                if symbols[j].name@ == symbol.name@ {
                    lemma_symbols_map_found_any(symbols, j);
                }
            }
            assert(symbols.push(symbol).drop_last() =~= symbols);
        }
        let mut taken = Scope::new();
        core::mem::swap(self, &mut taken);
        let Scope { mut symbols, parent } = taken;
        symbols.push(symbol);
        *self = Scope { symbols, parent };
        assert(self@ =~= define_in(old(self)@, symbol@));
        Ok(())
    }

    fn lookup(&self, name: &String) -> (symbol: Option<&Symbol>)
        ensures
            option_symbol_view(symbol) == resolve_in(self@, name@),
        decreases self,
    {
        proof {
            self.lemma_nonempty();
        }
        match self.find_local(name) {
            Some(i) => Some(&self.symbols[i]),
            None => match &self.parent {
                Some(p) => {
                    assert(self@.drop_first() =~= p@);
                    p.lookup(name)
                },
                None => {
                    assert(self@.drop_first() =~= Seq::<Names>::empty());
                    assert(resolve_in(self@.drop_first(), name@) is None);
                    None
                },
            },
        }
    }

    /// The symbol that `name` refers to: that of the innermost scope that
    /// holds the name, from this scope outward.
    pub fn resolve(&self, name: &str) -> (symbol: Option<&Symbol>)
        ensures
            option_symbol_view(symbol) == resolve_in(self@, name@),
    {
        let key = String::from_str(name);
        self.lookup(&key)
    }
}

/// The map holds the name of each symbol.
proof fn lemma_symbols_map_found_any(symbols: Seq<Symbol>, i: int)
    requires
        0 <= i < symbols.len(),
    ensures
        symbols_map(symbols).contains_key(symbols[i].name@),
    decreases symbols.len(),
{
    if i < symbols.len() - 1 {
        lemma_symbols_map_found_any(symbols.drop_last(), i);
    }
}

} // verus!
