//! Instructions of the IR under construction, and the names in scope.
use vstd::prelude::*;
use vstd::string::StringExecFns;

use koopa::ir::{BasicBlock, Function, Type, Value};

verus! {

/// `koopa::ir::Value`: the handle of a value of the koopa IR (an instruction's
/// result, a constant or a variable's address); opaque here.
#[verifier::external_type_specification]
#[verifier::external_body]
pub struct ExIrValue(Value);

/// `koopa::ir::Type`: a type of the koopa IR; opaque here.
#[verifier::external_type_specification]
#[verifier::external_body]
pub struct ExIrType(Type);

/// `koopa::ir::BasicBlock`: the handle of a basic block of the koopa IR;
/// opaque here.
#[verifier::external_type_specification]
#[verifier::external_body]
pub struct ExIrBasicBlock(BasicBlock);

/// Compares two handles of basic blocks with koopa's derived `==` on
/// `BasicBlock`, which compares the handles' numbers: the claim is that the
/// result is true exactly when the two handles are the same.
#[verifier::external_body]
pub(crate) fn same_block(a: BasicBlock, b: BasicBlock) -> (r: bool)
    ensures
        r == (a == b),
{
    a == b
}

/// Compares two handles of IR values with koopa's derived `==` on `Value`,
/// which compares the handles' numbers: the claim is that the result is true
/// exactly when the two handles are the same.
#[verifier::external_body]
pub(crate) fn same_value(a: Value, b: Value) -> (r: bool)
    ensures
        r == (a == b),
{
    a == b
}

/// An instruction: `inst` is its result; `insert` tells whether it is placed in
/// the current basic block (constants are not).
#[derive(Debug, Clone, Copy)]
pub struct Instruction {
    pub inst: Value,
    pub insert: bool,
}

impl Instruction {
    pub fn new(inst: Value, insert: bool) -> (r: Self)
        ensures
            r.inst == inst,
            r.insert == insert,
    {
        Self { inst, insert }
    }

    pub fn inst(&self) -> (r: &Value)
        ensures
            *r == self.inst,
    {
        &self.inst
    }

    pub fn insert(&self) -> (r: bool)
        ensures
            r == self.insert,
    {
        self.insert
    }
}

/// A constant whose value is known at compile time: an integer, or a
/// function of the program.
#[derive(Debug, Clone, Copy)]
pub enum ConstValue {
    Int(i32),
    Function(Function),
}

/// A variable: its address in the IR and its type.
#[derive(Debug)]
pub struct VarValue {
    pub value: Value,
    pub ty: Type,
}

impl VarValue {
    pub fn value(&self) -> (r: &Value)
        ensures
            *r == self.value,
    {
        &self.value
    }

    pub fn ty(&self) -> (r: &Type)
        ensures
            *r == self.ty,
    {
        &self.ty
    }
}

/// What a name stands for: a compile-time constant or a variable.
#[derive(Debug)]
pub enum Variable {
    Const(ConstValue),
    Var(VarValue),
}

/// The names in scope and what they stand for, scope by scope: a name is
/// defined at most once in its scope, and an inner scope may hide a name of
/// an outer one.
#[derive(Debug)]
pub struct VariableManager {
    entries: Vec<(String, Variable)>,
    start: usize,
}

/// The meaning of the last entry named `name`, if any.
pub open spec fn lookup(entries: Seq<(String, Variable)>, name: Seq<char>) -> Option<Variable>
    decreases entries.len(),
{
    if entries.len() == 0 {
        None
    } else if entries.last().0@ == name {
        Some(entries.last().1)
    } else {
        lookup(entries.drop_last(), name)
    }
}

impl View for VariableManager {
    type V = Map<Seq<char>, Variable>;

    closed spec fn view(&self) -> Map<Seq<char>, Variable> {
        Map::new(
            |k: Seq<char>| lookup(self.entries@, k) is Some,
            |k: Seq<char>| lookup(self.entries@, k).unwrap(),
        )
    }
}

pub open spec fn manager_get(m: Map<Seq<char>, Variable>, name: Seq<char>) -> Option<Variable> {
    if m.dom().contains(name) {
        Some(m[name])
    } else {
        None
    }
}

impl VariableManager {
    /// The innermost scope starts within the definitions.
    pub closed spec fn wf(&self) -> bool {
        self.start <= self.entries@.len()
    }

    /// The names defined in the innermost scope.
    pub closed spec fn local(&self) -> Set<Seq<char>> {
        Set::new(|k: Seq<char>| exists|i: int| self.start <= i < self.entries@.len() && #[trigger] self.entries@[i].0@ == k)
    }

    /// `self` is `before` with one more definition in the innermost scope.
    pub closed spec fn pushed(&self, before: VariableManager) -> bool {
        &&& self.entries@.len() == before.entries@.len() + 1
        &&& self.entries@.drop_last() == before.entries@
        &&& self.start == before.start
    }

    /// `self` is `outer` with a new innermost scope opened (`mark` keeps where
    /// the scope of `outer` starts), and only definitions added since.
    pub closed spec fn inside(&self, outer: VariableManager, mark: usize) -> bool {
        &&& outer.entries@.len() <= self.entries@.len()
        &&& self.entries@.take(outer.entries@.len() as int) == outer.entries@
        &&& self.start == outer.entries@.len()
        &&& mark == outer.start
        &&& outer.wf()
    }

    /// `self` is `before` with only definitions added to its innermost scope.
    pub closed spec fn grows(&self, before: VariableManager) -> bool {
        &&& before.entries@.len() <= self.entries@.len()
        &&& self.entries@.take(before.entries@.len() as int) == before.entries@
        &&& self.start == before.start
    }

    pub proof fn lemma_grows(a: VariableManager, b: VariableManager, c: VariableManager)
        ensures
            a.grows(a),
            b.pushed(a) ==> b.grows(a),
            b.same_as(a) ==> b.grows(a),
            b.grows(a) && c.grows(b) ==> c.grows(a),
            b.grows(a) && a.wf() ==> b.wf(),
    {
        assert(a.entries@.take(a.entries@.len() as int) =~= a.entries@);
        if b.pushed(a) {
            assert(b.entries@.take(a.entries@.len() as int) =~= b.entries@.drop_last());
        }
        if b.same_as(a) {
            assert(b.entries@.take(a.entries@.len() as int) =~= b.entries@);
        }
        if b.grows(a) && c.grows(b) {
            assert(c.entries@.take(a.entries@.len() as int) =~= c.entries@.take(b.entries@.len() as int).take(a.entries@.len() as int));
        }
    }

    /// A scope opened on `outer` stays open while only definitions are added.
    pub proof fn lemma_inside_grows(a: VariableManager, b: VariableManager, outer: VariableManager, mark: usize)
        requires
            a.inside(outer, mark),
            b.grows(a),
        ensures
            b.inside(outer, mark),
    {
        assert(b.entries@.take(outer.entries@.len() as int) =~= b.entries@.take(a.entries@.len() as int).take(outer.entries@.len() as int));
    }

    /// The two hold the same definitions in the same scopes.
    pub closed spec fn same_as(&self, other: VariableManager) -> bool {
        &&& self.entries@ == other.entries@
        &&& self.start == other.start
    }

    pub fn new() -> (m: Self)
        ensures
            m@ == Map::<Seq<char>, Variable>::empty(),
            m.local() == Set::<Seq<char>>::empty(),
            m.wf(),
    {
        let m = Self { entries: Vec::new(), start: 0 };
        assert(m@ =~= Map::<Seq<char>, Variable>::empty());
        assert(m.local() =~= Set::<Seq<char>>::empty());
        m
    }

    /// Opens a new innermost scope; gives the mark that closes it.
    pub fn open_scope(&mut self) -> (mark: usize)
        requires
            old(self).wf(),
        ensures
            final(self).wf(),
            final(self)@ == old(self)@,
            final(self).local() == Set::<Seq<char>>::empty(),
            final(self).inside(*old(self), mark),
    {
        let mark = self.start;
        self.start = self.entries.len();
        proof {
            assert(final(self)@ =~= old(self)@);
            assert(self.local() =~= Set::<Seq<char>>::empty());
            assert(self.entries@.take(self.entries@.len() as int) =~= self.entries@);
        }
        mark
    }

    /// Closes the innermost scope opened on `outer` with `mark`, dropping
    /// its definitions.
    pub fn close_scope(&mut self, mark: usize, Ghost(outer): Ghost<VariableManager>)
        requires
            old(self).inside(outer, mark),
        ensures
            final(self).wf(),
            final(self).same_as(outer),
            final(self)@ == outer@,
            final(self).local() == outer.local(),
    {
        let keep = self.start;
        self.entries.truncate(keep);
        self.start = mark;
        proof {
            assert(self.entries@ =~= outer.entries@);
            assert(self@ =~= outer@);
            assert(self.local() =~= outer.local());
        }
    }

    /// A definition added in the innermost scope adds its name there.
    proof fn lemma_local_push(a: VariableManager, b: VariableManager, name: Seq<char>)
        requires
            a.wf(),
            b.pushed(a),
            b.entries@.last().0@ == name,
        ensures
            b.local() == a.local().insert(name),
    {
        assert forall|k: Seq<char>| b.local().contains(k) == a.local().insert(name).contains(k) by {
            if b.local().contains(k) {
                let i = choose|i: int| b.start <= i < b.entries@.len() && #[trigger] b.entries@[i].0@ == k;
                if i < a.entries@.len() {
                    assert(a.entries@[i] == b.entries@.drop_last()[i]);
                    assert(a.local().contains(k));
                }
            }
            if a.local().contains(k) {
                let i = choose|i: int| a.start <= i < a.entries@.len() && #[trigger] a.entries@[i].0@ == k;
                assert(b.entries@.drop_last()[i] == b.entries@[i]);
                assert(b.local().contains(k));
            }
            if k == name {
                let i = b.entries@.len() - 1;
                assert(b.entries@[i].0@ == k);
                assert(b.local().contains(k));
            }
        }
        assert(b.local() =~= a.local().insert(name));
    }

    /// A definition added keeps a scope opened before it.
    pub proof fn lemma_pushed_inside(a: VariableManager, b: VariableManager, outer: VariableManager, mark: usize)
        requires
            a.inside(outer, mark),
            b.pushed(a),
        ensures
            b.inside(outer, mark),
    {
        assert(b.entries@.take(outer.entries@.len() as int) =~= a.entries@.take(outer.entries@.len() as int));
    }

    /// Two managers holding the same definitions look the same.
    pub proof fn lemma_same_as_refl(a: VariableManager)
        ensures
            a.same_as(a),
    {
    }

    pub proof fn lemma_same_as_trans(a: VariableManager, b: VariableManager, c: VariableManager)
        requires
            a.same_as(b),
            b.same_as(c),
        ensures
            a.same_as(c),
    {
    }

    pub proof fn lemma_same_as(a: VariableManager, b: VariableManager)
        requires
            a.same_as(b),
        ensures
            a@ == b@,
            a.local() == b.local(),
            b.same_as(a),
    {
        assert(a@ =~= b@);
        assert(a.local() =~= b.local());
    }

    pub fn get(&self, name: &str) -> (r: Option<&Variable>)
        ensures
            match r {
                Some(v) => manager_get(self@, name@) == Some(*v),
                None => manager_get(self@, name@) is None,
            },
    {
        let key = String::from_str(name);
        let mut i = self.entries.len();
        assert(self.entries@.take(i as int) =~= self.entries@);
        while i > 0
            invariant
                i <= self.entries.len(),
                key@ == name@,
                lookup(self.entries@, name@) == lookup(self.entries@.take(i as int), name@),
            decreases i,
        {
            let ghost prefix = self.entries@.take(i as int);
            assert(prefix.last() == self.entries@[i - 1]);
            assert(prefix.drop_last() =~= self.entries@.take(i - 1));
            if self.entries[i - 1].0 == key {
                return Some(&self.entries[i - 1].1);
            }
            i = i - 1;
        }
        assert(self.entries@.take(0) =~= Seq::<(String, Variable)>::empty());
        None
    }

    fn contains_local(&self, name: &String) -> (r: bool)
        ensures
            r == self.local().contains(name@),
    {
        if self.start >= self.entries.len() {
            proof {
                if self.local().contains(name@) {
                    let j = choose|j: int| self.start <= j < self.entries@.len() && #[trigger] self.entries@[j].0@ == name@;
                }
            }
            return false;
        }
        let mut i = self.start;
        while i < self.entries.len()
            invariant
                self.start <= i <= self.entries@.len(),
                forall|j: int| self.start <= j < i && j < self.entries@.len() ==> self.entries@[j].0@ != name@,
            decreases self.entries.len() - i,
        {
            if self.entries[i].0 == *name {
                proof {
                    assert(self.entries@[i as int].0@ == name@);
                    assert(self.local().contains(name@));
                }
                return true;
            }
            i = i + 1;
        }
        proof {
            if self.local().contains(name@) {
                let j = choose|j: int| self.start <= j < self.entries@.len() && #[trigger] self.entries@[j].0@ == name@;
                assert(false);
            }
        }
        false
    }

    /// Defines a constant; fails when the name is already defined.
    pub fn define_const(&mut self, name: String, value: ConstValue) -> (r: Result<(), String>)
        requires
            old(self).wf(),
        ensures
            final(self).wf(),
            match r {
                Ok(()) => !old(self).local().contains(name@) && final(self)@ == old(self)@.insert(
                    name@,
                    Variable::Const(value),
                ) && final(self).pushed(*old(self)) && final(self).local() == old(self).local().insert(name@),
                Err(msg) => old(self).local().contains(name@) && final(self).same_as(*old(self)) && msg@
                    == "Constant '"@ + name@ + "' already defined"@,
            },
    {
        if self.contains_local(&name) {
            let mut msg = String::from_str("Constant '");
            msg.append(name.as_str());
            msg.append("' already defined");
            Err(msg)
        } else {
            let ghost old_entries = self.entries@;
            self.entries.push((name, Variable::Const(value)));
            proof {
                assert(self.entries@.drop_last() =~= old_entries);
                assert(self@ =~= old(self)@.insert(name@, Variable::Const(value)));
                Self::lemma_local_push(*old(self), *self, name@);
            }
            Ok(())
        }
    }

    /// Defines a variable; fails when the name is already defined.
    pub fn define_var(&mut self, name: String, value: Value, ty: Type) -> (r: Result<(), String>)
        requires
            old(self).wf(),
        ensures
            final(self).wf(),
            match r {
                Ok(()) => !old(self).local().contains(name@) && final(self)@ == old(self)@.insert(
                    name@,
                    Variable::Var(VarValue { value, ty }),
                ) && final(self).pushed(*old(self)) && final(self).local() == old(self).local().insert(name@),
                Err(msg) => old(self).local().contains(name@) && final(self).same_as(*old(self)) && msg@
                    == "Variable '"@ + name@ + "' already defined"@,
            },
    {
        if self.contains_local(&name) {
            let mut msg = String::from_str("Variable '");
            msg.append(name.as_str());
            msg.append("' already defined");
            Err(msg)
        } else {
            let ghost old_entries = self.entries@;
            let ghost var = Variable::Var(VarValue { value, ty });
            self.entries.push((name, Variable::Var(VarValue { value, ty })));
            proof {
                assert(self.entries@.drop_last() =~= old_entries);
                assert(self@ =~= old(self)@.insert(name@, var));
                Self::lemma_local_push(*old(self), *self, name@);
            }
            Ok(())
        }
    }
}

/// A name defined with a meaning is then read back with that meaning, and
/// defining it leaves the other names as they were.
pub proof fn law_define_then_get(m: Map<Seq<char>, Variable>, name: Seq<char>, v: Variable, other: Seq<char>)
    ensures
        manager_get(m.insert(name, v), name) == Some(v),
        other != name ==> manager_get(m.insert(name, v), other) == manager_get(m, other),
{
}

impl Default for VariableManager {
    fn default() -> (m: Self)
        ensures
            m@ == Map::<Seq<char>, Variable>::empty(),
            m.wf(),
    {
        Self::new()
    }
}

} // verus!
