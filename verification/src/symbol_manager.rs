//! The symbol table: variables, constants, functions and procedures of one
//! scope, and the constants that every scope sees.

use vstd::prelude::*;
use crate::ast_statement::{clone_texts, texts, Statement, StatementModel};
use crate::error_types::{
    ControlFlowError, ControlFlowErrorModel, EvalError, EvalErrorModel, SymbolError,
    SymbolErrorModel,
};
use crate::number::Number;
use crate::text::reads;

verus! {

/// The value of the constant that every scope sees under `name`, if there
/// is one.
pub open spec fn global_value(name: Seq<char>) -> Option<Number> {
    if name == "PI"@ {
        Some(Number { bits: 0x4049_0fdb })
    } else if name == "TAU"@ {
        Some(Number { bits: 0x40c9_0fdb })
    } else if name == "E"@ {
        Some(Number { bits: 0x402d_f854 })
    } else if name == "PHI"@ {
        Some(Number { bits: 0x3fcf_1bbd })
    } else if name == "SQRT2"@ {
        Some(Number { bits: 0x3fb5_04f3 })
    } else if name == "INFINITY"@ {
        Some(Number { bits: 0x7f80_0000 })
    } else {
        None
    }
}

/// The constants that every scope sees: `PI`, `TAU`, `E`, `PHI`, `SQRT2`
/// and `INFINITY`. They cannot be changed, shadowed or cleared.
#[derive(Clone, Copy, Debug)]
pub struct GlobalConstants {}

impl GlobalConstants {
    /// The constants.
    pub fn new() -> GlobalConstants {
        GlobalConstants {  }
    }

    /// The value of the constant `name`, if there is one.
    pub fn get(&self, name: &str) -> (out: Option<Number>)
        ensures
            out == global_value(name@),
    {
        if reads(name, "PI") {
            Some(Number { bits: 0x4049_0fdb })
        } else if reads(name, "TAU") {
            Some(Number { bits: 0x40c9_0fdb })
        } else if reads(name, "E") {
            Some(Number { bits: 0x402d_f854 })
        } else if reads(name, "PHI") {
            Some(Number { bits: 0x3fcf_1bbd })
        } else if reads(name, "SQRT2") {
            Some(Number { bits: 0x3fb5_04f3 })
        } else if reads(name, "INFINITY") {
            Some(Number { bits: 0x7f80_0000 })
        } else {
            None
        }
    }

    /// Whether `name` is one of the constants.
    pub fn contains(&self, name: &str) -> (out: bool)
        ensures
            out == global_value(name@) is Some,
    {
        self.get(name).is_some()
    }
}

/// The constants that every scope sees.
pub fn global_constants() -> GlobalConstants {
    GlobalConstants::new()
}

/// A function or a procedure: its parameter names and its body.
#[derive(Debug)]
pub struct Callable {
    pub name: String,
    pub params: Vec<String>,
    pub body: Statement,
}

/// What a [`Callable`] says, without its name.
pub struct CallableModel {
    pub params: Seq<Seq<char>>,
    pub body: StatementModel,
}

impl Callable {
    /// What the callable says, without its name.
    pub open spec fn model(self) -> CallableModel {
        CallableModel { params: texts(self.params@), body: self.body@ }
    }
}

impl Clone for Callable {
    fn clone(&self) -> (out: Callable)
        ensures
            out.name@ == self.name@,
            out.model() == self.model(),
    {
        Callable {
            name: self.name.clone(),
            params: clone_texts(&self.params),
            body: self.body.clone(),
        }
    }
}

/// What a [`SymbolTable`] holds.
pub struct TableModel {
    /// The value of each variable and constant.
    pub values: Map<Seq<char>, Number>,
    /// The names that are constants.
    pub constants: Set<Seq<char>>,
    /// The functions.
    pub functions: Map<Seq<char>, CallableModel>,
    /// The procedures.
    pub procedures: Map<Seq<char>, CallableModel>,
    /// How many calls of functions and procedures enclose the scope.
    pub depth: nat,
}

impl TableModel {
    /// The table with nothing in it.
    pub open spec fn empty() -> TableModel {
        TableModel {
            values: Map::empty(),
            constants: Set::empty(),
            functions: Map::empty(),
            procedures: Map::empty(),
            depth: 0,
        }
    }

    /// What an assignment of `value` to `name` answers: an error where
    /// `name` is a constant of every scope, or a constant of this table
    /// with another value.
    pub open spec fn assignment(self, name: Seq<char>, value: Number) -> Result<
        TableModel,
        EvalErrorModel,
    > {
        if global_value(name) is Some {
            Err(EvalErrorModel::SymbolError(SymbolErrorModel::ImmutableConstant(name)))
        } else if self.constants.contains(name) {
            if self.values.dom().contains(name) && self.values[name].same(value) {
                Ok(self)
            } else {
                Err(EvalErrorModel::SymbolError(SymbolErrorModel::ImmutableConstant(name)))
            }
        } else {
            Ok(TableModel { values: self.values.insert(name, value), ..self })
        }
    }

    /// What the declaration of the constant `name` answers: an error where
    /// the name is taken, in every scope or in this table.
    pub open spec fn constant_declaration(self, name: Seq<char>, value: Number) -> Result<
        TableModel,
        EvalErrorModel,
    > {
        if global_value(name) is Some || self.values.dom().contains(name) {
            Err(EvalErrorModel::SymbolError(SymbolErrorModel::ImmutableConstant(name)))
        } else {
            Ok(
                TableModel {
                    values: self.values.insert(name, value),
                    constants: self.constants.insert(name),
                    ..self
                },
            )
        }
    }

    /// What the declaration of the function `name` answers.
    pub open spec fn function_declaration(self, name: Seq<char>, callable: CallableModel) -> Result<
        TableModel,
        EvalErrorModel,
    > {
        if self.functions.dom().contains(name) {
            Err(
                EvalErrorModel::ControlFlowError(
                    ControlFlowErrorModel::FunctionOrProcedureAlreadyDefined {
                        name,
                        kind: "Function"@,
                    },
                ),
            )
        } else {
            Ok(TableModel { functions: self.functions.insert(name, callable), ..self })
        }
    }

    /// What the declaration of the procedure `name` answers.
    pub open spec fn procedure_declaration(
        self,
        name: Seq<char>,
        callable: CallableModel,
    ) -> Result<TableModel, EvalErrorModel> {
        if self.procedures.dom().contains(name) {
            Err(
                EvalErrorModel::ControlFlowError(
                    ControlFlowErrorModel::FunctionOrProcedureAlreadyDefined {
                        name,
                        kind: "Procedure"@,
                    },
                ),
            )
        } else {
            Ok(TableModel { procedures: self.procedures.insert(name, callable), ..self })
        }
    }

    /// Whether the copy-back from `child` changes the variable `name` of
    /// this table: the name is no declaration of the scope that ends, the
    /// child holds it with another value, and it is no constant here.
    pub open spec fn taken_back(self, child: TableModel, shadow: Set<Seq<char>>, name: Seq<char>) -> bool {
        &&& self.values.dom().contains(name)
        &&& !shadow.contains(name)
        &&& child.values.dom().contains(name)
        &&& !self.constants.contains(name)
        &&& !self.values[name].same(child.values[name])
    }

    /// This table after the copy-back from the scope `child` that ends,
    /// whose own declarations are `shadow`.
    pub open spec fn merged(self, child: TableModel, shadow: Set<Seq<char>>) -> TableModel {
        TableModel {
            values: Map::new(
                |name: Seq<char>| self.values.dom().contains(name),
                |name: Seq<char>|
                    if self.taken_back(child, shadow, name) {
                        child.values[name]
                    } else {
                        self.values[name]
                    },
            ),
            ..self
        }
    }

    /// The scope of a call made from this table. The count of enclosing
    /// calls stops at the largest number the machine holds.
    pub open spec fn called(self) -> TableModel {
        if self.depth < usize::MAX {
            TableModel { depth: self.depth + 1, ..self }
        } else {
            self
        }
    }
}

/// The names of a list of callables.
pub open spec fn callable_names(list: Seq<Callable>) -> Seq<Seq<char>> {
    Seq::new(list.len(), |i: int| list[i].name@)
}

/// The variables, constants, functions and procedures of one scope.
#[derive(Debug)]
pub struct SymbolTable {
    names: Vec<String>,
    numbers: Vec<Number>,
    fixed: Vec<bool>,
    functions: Vec<Callable>,
    procedures: Vec<Callable>,
    depth: usize,
}

fn find_text(list: &Vec<String>, key: &String) -> (out: Option<usize>)
    ensures
        match out {
            Some(i) => i < list.len() && list@[i as int]@ == key@,
            None => !texts(list@).contains(key@),
        },
{
    let mut i: usize = 0;
    while i < list.len()
        invariant
            i <= list.len(),
            forall|j: int| 0 <= j < i ==> list@[j]@ != key@,
        decreases list.len() - i,
    {
        if list[i] == *key {
            return Some(i);
        }
        i += 1;
    }
    assert(!texts(list@).contains(key@)) by {
        if texts(list@).contains(key@) {
            let j = choose|j: int| 0 <= j < texts(list@).len() && texts(list@)[j] == key@;
            assert(list@[j]@ == key@);
        }
    }
    None
}

fn find_callable(list: &Vec<Callable>, key: &String) -> (out: Option<usize>)
    ensures
        match out {
            Some(i) => i < list.len() && list@[i as int].name@ == key@,
            None => !callable_names(list@).contains(key@),
        },
{
    let mut i: usize = 0;
    while i < list.len()
        invariant
            i <= list.len(),
            forall|j: int| 0 <= j < i ==> list@[j].name@ != key@,
        decreases list.len() - i,
    {
        if list[i].name == *key {
            return Some(i);
        }
        i += 1;
    }
    assert(!callable_names(list@).contains(key@)) by {
        if callable_names(list@).contains(key@) {
            let j = choose|j: int|
                0 <= j < callable_names(list@).len() && callable_names(list@)[j] == key@;
            assert(list@[j].name@ == key@);
        }
    }
    None
}

/// The map from the names of `list` to what the callables say.
pub open spec fn callable_map(list: Seq<Callable>) -> Map<Seq<char>, CallableModel> {
    Map::new(
        |name: Seq<char>| callable_names(list).contains(name),
        |name: Seq<char>| list[callable_names(list).index_of(name)].model(),
    )
}

proof fn lemma_callable_map_push(list: Seq<Callable>, c: Callable)
    requires
        callable_names(list).no_duplicates(),
        !callable_names(list).contains(c.name@),
    ensures
        callable_names(list.push(c)).no_duplicates(),
        callable_map(list.push(c)) == callable_map(list).insert(c.name@, c.model()),
{
    let longer = list.push(c);
    assert(callable_names(longer) =~= callable_names(list).push(c.name@));
    assert forall|name: Seq<char>| #[trigger]
        callable_map(longer).dom().contains(name) == callable_map(list).insert(
            c.name@,
            c.model(),
        ).dom().contains(name) by {
        if callable_names(list).contains(name) {
            let j = callable_names(list).index_of(name);
            assert(callable_names(longer)[j] == name);
        }
        if name == c.name@ {
            assert(callable_names(longer)[list.len() as int] == name);
        }
    }
    assert forall|name: Seq<char>| #[trigger]
        callable_map(longer).dom().contains(name) implies callable_map(longer)[name]
        == callable_map(list).insert(c.name@, c.model())[name] by {
        let k = callable_names(longer).index_of(name);
        if name == c.name@ {
            if k < list.len() {
                assert(callable_names(list)[k] == name);
            }
        } else {
            let j = callable_names(list).index_of(name);
            assert(callable_names(longer)[j] == name);
        }
    }
    assert(callable_map(longer) =~= callable_map(list).insert(c.name@, c.model()));
}

proof fn lemma_callable_map_found(list: Seq<Callable>, i: int)
    requires
        callable_names(list).no_duplicates(),
        0 <= i < list.len(),
    ensures
        callable_map(list).dom().contains(list[i].name@),
        callable_map(list)[list[i].name@] == list[i].model(),
{
    let name = list[i].name@;
    assert(callable_names(list)[i] == name);
    let k = callable_names(list).index_of(name);
    assert(callable_names(list)[k] == name);
}

fn clone_callables(list: &Vec<Callable>) -> (out: Vec<Callable>)
    ensures
        callable_names(out@) == callable_names(list@),
        callable_map(out@) == callable_map(list@),
{
    let mut out: Vec<Callable> = Vec::new();
    let mut i: usize = 0;
    while i < list.len()
        invariant
            i <= list.len(),
            out.len() == i,
            forall|j: int|
                0 <= j < i ==> out@[j].name@ == list@[j].name@ && out@[j].model()
                    == list@[j].model(),
        decreases list.len() - i,
    {
        out.push(list[i].clone());
        i += 1;
    }
    assert(callable_names(out@) =~= callable_names(list@));
    assert(callable_map(out@) =~= callable_map(list@));
    out
}

impl SymbolTable {
    /// The value of each variable and constant.
    pub closed spec fn values(&self) -> Map<Seq<char>, Number> {
        Map::new(
            |name: Seq<char>| texts(self.names@).contains(name),
            |name: Seq<char>| self.numbers@[texts(self.names@).index_of(name)],
        )
    }

    /// The names that are constants.
    pub closed spec fn constants(&self) -> Set<Seq<char>> {
        Set::new(
            |name: Seq<char>|
                texts(self.names@).contains(name) && self.fixed@[texts(self.names@).index_of(
                    name,
                )],
        )
    }

    /// The functions.
    pub closed spec fn functions(&self) -> Map<Seq<char>, CallableModel> {
        callable_map(self.functions@)
    }

    /// The procedures.
    pub closed spec fn procedures(&self) -> Map<Seq<char>, CallableModel> {
        callable_map(self.procedures@)
    }

    /// How many calls of functions and procedures enclose the scope.
    pub closed spec fn depth(&self) -> nat {
        self.depth as nat
    }

    /// The names in the order in which they came into the table.
    pub closed spec fn order(&self) -> Seq<Seq<char>> {
        texts(self.names@)
    }

    /// Every name stands once, and no name is that of a constant of every
    /// scope.
    pub closed spec fn wf(&self) -> bool {
        &&& self.names.len() == self.numbers.len()
        &&& self.names.len() == self.fixed.len()
        &&& texts(self.names@).no_duplicates()
        &&& callable_names(self.functions@).no_duplicates()
        &&& callable_names(self.procedures@).no_duplicates()
        &&& forall|i: int| 0 <= i < self.names.len() ==> global_value(#[trigger] self.names@[i]@) is None
    }

    /// The names of a well-formed table are those of its values, each once.
    pub proof fn lemma_order(&self)
        requires
            self.wf(),
        ensures
            self.order().no_duplicates(),
            self.order().len() == self.values().dom().len(),
            self.values().dom().finite(),
            forall|name: Seq<char>| self.order().contains(name) <==> self.values().dom().contains(name),
            forall|name: Seq<char>| self.constants().contains(name) ==> self.values().dom().contains(name),
            forall|name: Seq<char>| self.values().dom().contains(name) ==> global_value(name) is None,
    {
        let keys = texts(self.names@);
        assert(self.values().dom() =~= keys.to_set());
        keys.unique_seq_to_set();
        assert forall|name: Seq<char>| self.values().dom().contains(name) implies global_value(name) is None by {
            let i = keys.index_of(name);
            assert(self.names@[i]@ == name);
        }
    }
}

impl View for SymbolTable {
    type V = TableModel;

    open spec fn view(&self) -> TableModel {
        TableModel {
            values: self.values(),
            constants: self.constants(),
            functions: self.functions(),
            procedures: self.procedures(),
            depth: self.depth(),
        }
    }
}

impl SymbolTable {
    /// A table with nothing in it.
    pub fn new() -> (out: SymbolTable)
        ensures
            out.wf(),
            out@ == TableModel::empty(),
    {
        let out = SymbolTable {
            names: Vec::new(),
            numbers: Vec::new(),
            fixed: Vec::new(),
            functions: Vec::new(),
            procedures: Vec::new(),
            depth: 0,
        };
        assert(out.values() =~= Map::empty());
        assert(out.constants() =~= Set::empty());
        assert(out.functions() =~= Map::empty());
        assert(out.procedures() =~= Map::empty());
        out
    }

    fn find(&self, name: &String) -> (out: Option<usize>)
        requires
            self.wf(),
        ensures
            match out {
                Some(i) => {
                    &&& i < self.names.len()
                    &&& self.names@[i as int]@ == name@
                    &&& self.values().dom().contains(name@)
                    &&& self.values()[name@] == self.numbers@[i as int]
                    &&& self.constants().contains(name@) == self.fixed@[i as int]
                },
                None => !self.values().dom().contains(name@) && !self.constants().contains(name@),
            },
    {
        let out = find_text(&self.names, name);
        proof {
            match out {
                Some(i) => {
                    assert(texts(self.names@)[i as int] == name@);
                    let k = texts(self.names@).index_of(name@);
                    assert(texts(self.names@)[k] == name@);
                },
                None => {},
            }
        }
        out
    }

    /// Whether `name` is a variable or a constant of this table.
    pub fn contains(&self, name: &str) -> (out: bool)
        requires
            self.wf(),
        ensures
            out == self@.values.dom().contains(name@),
    {
        let key = name.to_owned();
        self.find(&key).is_some()
    }

    /// The value of `name` in this table, if it has one.
    pub fn get(&self, name: &str) -> (out: Option<Number>)
        requires
            self.wf(),
        ensures
            out == (if self@.values.dom().contains(name@) {
                Some(self@.values[name@])
            } else {
                None
            }),
    {
        let key = name.to_owned();
        match self.find(&key) {
            Some(i) => Some(self.numbers[i]),
            None => None,
        }
    }

    /// Whether `name` is a constant of this table.
    pub fn is_constant(&self, name: &str) -> (out: bool)
        requires
            self.wf(),
        ensures
            out == self@.constants.contains(name@),
    {
        let key = name.to_owned();
        match self.find(&key) {
            Some(i) => self.fixed[i],
            None => false,
        }
    }

    fn push_entry(&mut self, name: String, value: Number, fixed: bool)
        requires
            old(self).wf(),
            !old(self).values().dom().contains(name@),
            global_value(name@) is None,
        ensures
            final(self).wf(),
            final(self).values() == old(self).values().insert(name@, value),
            final(self).constants() == (if fixed {
                old(self).constants().insert(name@)
            } else {
                old(self).constants()
            }),
            final(self).functions() == old(self).functions(),
            final(self).procedures() == old(self).procedures(),
            final(self).depth() == old(self).depth(),
    {
        let ghost before = *self;
        let ghost keys = texts(self.names@);
        self.names.push(name);
        self.numbers.push(value);
        self.fixed.push(fixed);
        proof {
            let after = texts(self.names@);
            assert(after =~= keys.push(name@));
            assert forall|i: int, j: int| 0 <= i < j < after.len() implies after[i] != after[j] by {
                if j == keys.len() {
                    assert(keys[i] == after[i]);
                    assert(keys.contains(after[i]));
                }
            }
            assert forall|key: Seq<char>| #[trigger] after.contains(key) == (keys.contains(key)
                || key == name@) by {
                if keys.contains(key) {
                    let k = keys.index_of(key);
                    assert(after[k] == key);
                }
                if key == name@ {
                    assert(after[keys.len() as int] == key);
                }
            }
            assert forall|key: Seq<char>| keys.contains(key) implies after.index_of(key)
                == keys.index_of(key) by {
                let k = keys.index_of(key);
                assert(after[k] == key);
                let m = after.index_of(key);
                assert(after[m] == key);
            }
            assert(after.index_of(name@) == keys.len()) by {
                assert(after[keys.len() as int] == name@);
                let m = after.index_of(name@);
                assert(after[m] == name@);
            }
            assert(self.values() =~= before.values().insert(name@, value));
            assert(self.constants() =~= (if fixed {
                before.constants().insert(name@)
            } else {
                before.constants()
            }));
        }
    }

    /// Gives `name` the value `value`, declaring the variable where it is
    /// new. Constants keep their value: of every scope always, of this
    /// table unless `value` equals the value they have.
    pub fn set_variable(&mut self, name: String, value: Number) -> (out: Result<(), EvalError>)
        requires
            old(self).wf(),
        ensures
            final(self).wf(),
            match old(self)@.assignment(name@, value) {
                Ok(table) => out is Ok && final(self)@ == table,
                Err(e) => out matches Err(x) && x@ == e && final(self)@ == old(self)@,
            },
    {
        if global_constants().contains(name.as_str()) {
            return Err(EvalError::SymbolError(SymbolError::ImmutableConstant(name)));
        }
        match self.find(&name) {
            Some(i) => {
                if self.fixed[i] {
                    if self.numbers[i].equals(value) {
                        Ok(())
                    } else {
                        Err(EvalError::SymbolError(SymbolError::ImmutableConstant(name)))
                    }
                } else {
                    let ghost before = *self;
                    self.numbers.set(i, value);
                    proof {
                        let keys = texts(self.names@);
                        assert(keys[i as int] == name@);
                        assert forall|key: Seq<char>| keys.contains(key) implies (keys.index_of(key)
                            == i) == (key == name@) by {
                            let m = keys.index_of(key);
                            assert(keys[m] == key);
                        }
                        assert(self.values() =~= before.values().insert(name@, value));
                        assert(self.constants() =~= before.constants());
                    }
                    Ok(())
                }
            },
            None => {
                self.push_entry(name, value, false);
                Ok(())
            },
        }
    }

    /// Declares the constant `name` with the value `value`. Fails where the
    /// name is taken, in every scope or in this table.
    pub fn declare_constant(&mut self, name: String, value: Number) -> (out: Result<(), EvalError>)
        requires
            old(self).wf(),
        ensures
            final(self).wf(),
            match old(self)@.constant_declaration(name@, value) {
                Ok(table) => out is Ok && final(self)@ == table,
                Err(e) => out matches Err(x) && x@ == e && final(self)@ == old(self)@,
            },
    {
        if global_constants().contains(name.as_str()) {
            return Err(EvalError::SymbolError(SymbolError::ImmutableConstant(name)));
        }
        match self.find(&name) {
            Some(_) => Err(EvalError::SymbolError(SymbolError::ImmutableConstant(name))),
            None => {
                self.push_entry(name, value, true);
                Ok(())
            },
        }
    }

    /// Declares the function `name`. Fails where this table has a function
    /// of that name.
    pub fn declare_function(&mut self, name: String, params: Vec<String>, body: Statement) -> (out:
        Result<(), EvalError>)
        requires
            old(self).wf(),
        ensures
            final(self).wf(),
            match old(self)@.function_declaration(
                name@,
                CallableModel { params: texts(params@), body: body@ },
            ) {
                Ok(table) => out is Ok && final(self)@ == table,
                Err(e) => out matches Err(x) && x@ == e && final(self)@ == old(self)@,
            },
    {
        match find_callable(&self.functions, &name) {
            Some(i) => {
                proof {
                    lemma_callable_map_found(self.functions@, i as int);
                }
                Err(
                    EvalError::ControlFlowError(
                        ControlFlowError::FunctionOrProcedureAlreadyDefined {
                            name,
                            kind: "Function".to_owned(),
                        },
                    ),
                )
            },
            None => {
                let callable = Callable { name, params, body };
                proof {
                    lemma_callable_map_push(self.functions@, callable);
                }
                self.functions.push(callable);
                Ok(())
            },
        }
    }

    /// Declares the procedure `name`. Fails where this table has a
    /// procedure of that name.
    pub fn declare_procedure(&mut self, name: String, params: Vec<String>, body: Statement) -> (out:
        Result<(), EvalError>)
        requires
            old(self).wf(),
        ensures
            final(self).wf(),
            match old(self)@.procedure_declaration(
                name@,
                CallableModel { params: texts(params@), body: body@ },
            ) {
                Ok(table) => out is Ok && final(self)@ == table,
                Err(e) => out matches Err(x) && x@ == e && final(self)@ == old(self)@,
            },
    {
        match find_callable(&self.procedures, &name) {
            Some(i) => {
                proof {
                    lemma_callable_map_found(self.procedures@, i as int);
                }
                Err(
                    EvalError::ControlFlowError(
                        ControlFlowError::FunctionOrProcedureAlreadyDefined {
                            name,
                            kind: "Procedure".to_owned(),
                        },
                    ),
                )
            },
            None => {
                let callable = Callable { name, params, body };
                proof {
                    lemma_callable_map_push(self.procedures@, callable);
                }
                self.procedures.push(callable);
                Ok(())
            },
        }
    }

    /// Parameters and body of the function `name`, if this table has it.
    pub fn get_function(&self, name: &str) -> (out: Option<(Vec<String>, Statement)>)
        requires
            self.wf(),
        ensures
            match out {
                Some((params, body)) => self@.functions.dom().contains(name@)
                    && self@.functions[name@] == (CallableModel {
                    params: texts(params@),
                    body: body@,
                }),
                None => !self@.functions.dom().contains(name@),
            },
    {
        let key = name.to_owned();
        match find_callable(&self.functions, &key) {
            Some(i) => {
                proof {
                    lemma_callable_map_found(self.functions@, i as int);
                }
                let found = self.functions[i].clone();
                Some((found.params, found.body))
            },
            None => None,
        }
    }

    /// Parameters and body of the procedure `name`, if this table has it.
    pub fn get_procedure(&self, name: &str) -> (out: Option<(Vec<String>, Statement)>)
        requires
            self.wf(),
        ensures
            match out {
                Some((params, body)) => self@.procedures.dom().contains(name@)
                    && self@.procedures[name@] == (CallableModel {
                    params: texts(params@),
                    body: body@,
                }),
                None => !self@.procedures.dom().contains(name@),
            },
    {
        let key = name.to_owned();
        match find_callable(&self.procedures, &key) {
            Some(i) => {
                proof {
                    lemma_callable_map_found(self.procedures@, i as int);
                }
                let found = self.procedures[i].clone();
                Some((found.params, found.body))
            },
            None => None,
        }
    }

    /// Whether this table has the procedure `name`.
    pub fn has_procedure(&self, name: &str) -> (out: bool)
        requires
            self.wf(),
        ensures
            out == self@.procedures.dom().contains(name@),
    {
        let key = name.to_owned();
        match find_callable(&self.procedures, &key) {
            Some(i) => {
                proof {
                    lemma_callable_map_found(self.procedures@, i as int);
                }
                true
            },
            None => false,
        }
    }

    /// A scope of its own that starts out as a copy of this table. What the
    /// new scope changes, this table does not see.
    pub fn new_scope(&self) -> (out: SymbolTable)
        requires
            self.wf(),
        ensures
            out.wf(),
            out@ == self@,
            out.order() == self.order(),
    {
        let names = clone_texts(&self.names);
        let functions = clone_callables(&self.functions);
        let procedures = clone_callables(&self.procedures);
        let out = SymbolTable {
            names,
            numbers: self.numbers.clone(),
            fixed: self.fixed.clone(),
            functions,
            procedures,
            depth: self.depth,
        };
        proof {
            assert(out.names.len() == self.names.len()) by {
                assert(texts(out.names@).len() == texts(self.names@).len());
            }
            assert forall|i: int| 0 <= i < out.names.len() implies global_value(
                #[trigger] out.names@[i]@,
            ) is None by {
                assert(texts(out.names@)[i] == texts(self.names@)[i]);
            }
            assert(out.values() =~= self.values());
            assert(out.constants() =~= self.constants());
        }
        out
    }

    /// The scope of a call made from this table: a copy of the table that
    /// knows that a call encloses it.
    pub fn new_call_scope(&self) -> (out: SymbolTable)
        requires
            self.wf(),
        ensures
            out.wf(),
            out@ == self@.called(),
    {
        let mut out = self.new_scope();
        if out.depth < usize::MAX {
            out.depth = out.depth + 1;
        }
        out
    }

    /// Takes back from the scope `other`, which ends, what it changed of
    /// this table's variables: a variable of this table gets the value it
    /// has in `other` unless it is a declaration of the ending scope (a name
    /// in `shadow`), a constant here, unknown there, or equal there.
    pub fn merge_except(&mut self, other: &SymbolTable, shadow: &Vec<String>)
        requires
            old(self).wf(),
            other.wf(),
        ensures
            final(self).wf(),
            final(self)@ == old(self)@.merged(other@, texts(shadow@).to_set()),
            final(self).order() == old(self).order(),
    {
        let ghost before = *self;
        let ghost keys = texts(self.names@);
        let ghost hidden = texts(shadow@).to_set();
        let mut i: usize = 0;
        while i < self.names.len()
            invariant
                before.wf(),
                other.wf(),
                i <= self.names.len(),
                self.names == before.names,
                self.fixed == before.fixed,
                self.functions == before.functions,
                self.procedures == before.procedures,
                self.depth == before.depth,
                self.numbers.len() == before.numbers.len(),
                keys == texts(before.names@),
                hidden == texts(shadow@).to_set(),
                forall|j: int|
                    i <= j < self.names.len() ==> self.numbers@[j] == before.numbers@[j],
                forall|j: int|
                    0 <= j < i ==> self.numbers@[j] == (if before@.taken_back(
                        other@,
                        hidden,
                        #[trigger] keys[j],
                    ) {
                        other@.values[keys[j]]
                    } else {
                        before.numbers@[j]
                    }),
            decreases self.names.len() - i,
        {
            let name = self.names[i].clone();
            proof {
                assert(keys[i as int] == name@);
                let k = keys.index_of(name@);
                assert(keys[k] == name@);
                assert(before.values().dom().contains(name@));
                assert(before.values()[name@] == before.numbers@[i as int]);
                assert(before.constants().contains(name@) == before.fixed@[i as int]);
            }
            let shadowed = find_text(shadow, &name).is_some();
            assert(shadowed == hidden.contains(name@)) by {
                if shadowed {
                    let k = choose|k: int| 0 <= k < shadow.len() && shadow@[k]@ == name@;
                    assert(texts(shadow@)[k] == name@);
                }
            }
            if !self.fixed[i] && !shadowed {
                match other.find(&name) {
                    Some(j) => {
                        let theirs = other.numbers[j];
                        if !self.numbers[i].equals(theirs) {
                            self.numbers.set(i, theirs);
                            assert(before@.taken_back(other@, hidden, name@));
                        } else {
                            assert(!before@.taken_back(other@, hidden, name@));
                        }
                    },
                    None => {
                        assert(!before@.taken_back(other@, hidden, name@));
                    },
                }
            } else {
                assert(!before@.taken_back(other@, hidden, name@));
            }
            i += 1;
        }
        proof {
            let goal = before@.merged(other@, hidden);
            assert forall|name: Seq<char>| #[trigger] keys.contains(name) implies self.values()[name]
                == goal.values[name] by {
                let k = keys.index_of(name);
                assert(keys[k] == name);
            }
            assert(self.values() =~= goal.values);
            assert(self.constants() =~= before.constants());
        }
    }

    /// Takes back from the scope `other`, which ends, what it changed of
    /// this table's variables. Never fails.
    pub fn merge_from_scope(&mut self, other: &SymbolTable) -> (out: Result<(), EvalError>)
        requires
            old(self).wf(),
            other.wf(),
        ensures
            out is Ok,
            final(self).wf(),
            final(self)@ == old(self)@.merged(other@, Set::empty()),
    {
        let shadow: Vec<String> = Vec::new();
        assert(texts(shadow@).to_set() =~= Set::empty());
        self.merge_except(other, &shadow);
        Ok(())
    }

    /// The variables and constants with their values, in the order in which
    /// they came into the table.
    pub fn entries(&self) -> (out: Vec<(String, Number)>)
        requires
            self.wf(),
        ensures
            out.len() == self.order().len(),
            forall|i: int|
                0 <= i < out.len() ==> (#[trigger] out@[i]).0@ == self.order()[i] && out@[i].1
                    == self@.values[self.order()[i]],
    {
        let mut out: Vec<(String, Number)> = Vec::new();
        let mut i: usize = 0;
        while i < self.names.len()
            invariant
                self.wf(),
                i <= self.names.len(),
                out.len() == i,
                forall|j: int|
                    0 <= j < i ==> (#[trigger] out@[j]).0@ == self.order()[j] && out@[j].1
                        == self@.values[self.order()[j]],
            decreases self.names.len() - i,
        {
            proof {
                let keys = texts(self.names@);
                let k = keys.index_of(keys[i as int]);
                assert(keys[k] == keys[i as int]);
            }
            out.push((self.names[i].clone(), self.numbers[i]));
            i += 1;
        }
        out
    }

    /// Number of variables and constants.
    pub fn len(&self) -> (out: usize)
        requires
            self.wf(),
        ensures
            out == self@.values.dom().len(),
    {
        proof {
            self.lemma_order();
            assert(texts(self.names@).len() == self.names.len());
        }
        self.names.len()
    }

    /// Whether the table has no variable and no constant.
    pub fn is_empty(&self) -> (out: bool)
        requires
            self.wf(),
        ensures
            out == (self@.values.dom().len() == 0),
    {
        self.len() == 0
    }

    /// Whether the scope lies within a call of a function or procedure.
    pub fn is_in_callable(&self) -> (out: bool)
        ensures
            out == (self@.depth > 0),
    {
        self.depth > 0
    }

    /// Whether `name` has a value in this table that equals `value`.
    pub fn value_equals(&self, name: &str, value: Number) -> (out: bool)
        requires
            self.wf(),
        ensures
            out == (self@.values.dom().contains(name@) && self@.values[name@].same(value)),
    {
        match self.get(name) {
            Some(v) => v.equals(value),
            None => false,
        }
    }
}

} // verus!
