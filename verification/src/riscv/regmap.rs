//! Which registers hold which values while one function is lowered.
use vstd::prelude::*;

use koopa::ir::Value;

use crate::ir::meta::same_value;
use crate::riscv::meta::{law_register_numbering, reg_index, reg_of, Register, REGISTER_COUNT};

verus! {

broadcast use vstd::seq_lib::group_seq_properties;

/// Pushing an element that is not yet there keeps a sequence free of
/// duplicates.
proof fn lemma_push_fresh<T>(s: Seq<T>, x: T)
    requires
        s.no_duplicates(),
        !s.contains(x),
    ensures
        s.push(x).no_duplicates(),
        forall|y: T| #[trigger] s.push(x).contains(y) == (s.contains(y) || y == x),
{
    assert forall|i: int, j: int| 0 <= i < j < s.push(x).len() implies s.push(x)[i] != s.push(x)[j] by {
        if j == s.len() {
            assert(s.contains(s[i]));
        }
    }
}

/// Removing an element of a sequence without duplicates removes exactly that
/// element.
proof fn lemma_remove_distinct<T>(s: Seq<T>, k: int)
    requires
        s.no_duplicates(),
        0 <= k < s.len(),
    ensures
        s.remove(k).no_duplicates(),
        forall|y: T| #[trigger] s.remove(k).contains(y) == (s.contains(y) && y != s[k]),
{
    let t = s.remove(k);
    assert forall|y: T| #[trigger] t.contains(y) == (s.contains(y) && y != s[k]) by {
        if t.contains(y) {
            let j = choose|j: int| 0 <= j < t.len() && t[j] == y;
            if j < k {
                assert(s[j] == y);
            } else {
                assert(s[j + 1] == y);
            }
        }
        if s.contains(y) && y != s[k] {
            let j = choose|j: int| 0 <= j < s.len() && s[j] == y;
            if j < k {
                assert(t[j] == y);
            } else {
                assert(t[j - 1] == y);
            }
        }
    }
    assert forall|i: int, j: int| 0 <= i < j < t.len() implies t[i] != t[j] by {
        let si = if i < k { i } else { i + 1 };
        let sj = if j < k { j } else { j + 1 };
        assert(t[i] == s[si] && t[j] == s[sj]);
    }
}

/// What a register holds: the result of an IR instruction, or something the
/// back end put there itself.
#[derive(Debug, Clone, Copy, PartialEq, Eq, Hash)]
pub enum RegisterValue {
    InstRet(Value),
    Const,
}

/// The registers recorded for `v`, empty when `v` has no entry.
pub open spec fn held_by(m: Map<Value, Set<Register>>, v: Value) -> Set<Register> {
    if m.dom().contains(v) {
        m[v]
    } else {
        Set::empty()
    }
}

/// What register `r` holds, if it is in use.
pub open spec fn usage_of(m: Map<Register, RegisterValue>, r: Register) -> Option<RegisterValue> {
    if m.dom().contains(r) {
        Some(m[r])
    } else {
        None
    }
}

/// Two views of register use: for each value, the registers recorded as
/// holding it (an entry may stay behind, empty, after its registers are
/// removed); and for each register in use, what it holds.
#[derive(Debug)]
pub struct RegisterMapper {
    keys: Vec<Value>,
    members: Vec<(Value, Register)>,
    usage: Vec<Option<RegisterValue>>,
}

impl RegisterMapper {
    /// The register table has one slot per register; no key and no pair is
    /// recorded twice; a pair's value has an entry.
    pub closed spec fn wf(&self) -> bool {
        &&& self.usage@.len() == REGISTER_COUNT
        &&& self.keys@.no_duplicates()
        &&& self.members@.no_duplicates()
        &&& forall|k: int| 0 <= k < self.members@.len() ==> self.keys@.contains(#[trigger] self.members@[k].0)
    }

    /// For each value with an entry, the registers recorded as holding it.
    pub closed spec fn values(&self) -> Map<Value, Set<Register>> {
        Map::new(
            |v: Value| self.keys@.contains(v),
            |v: Value| Set::new(|r: Register| self.members@.contains((v, r))),
        )
    }

    /// For each register in use, what it holds.
    pub closed spec fn usage(&self) -> Map<Register, RegisterValue> {
        Map::new(
            |r: Register| self.usage@[reg_index(r) as int] is Some,
            |r: Register| self.usage@[reg_index(r) as int].unwrap(),
        )
    }

    pub fn new() -> (m: Self)
        ensures
            m.wf(),
            m.values() == Map::<Value, Set<Register>>::empty(),
            m.usage() == Map::<Register, RegisterValue>::empty(),
    {
        let mut usage: Vec<Option<RegisterValue>> = Vec::new();
        while usage.len() < REGISTER_COUNT
            invariant
                usage.len() <= REGISTER_COUNT,
                forall|k: int| 0 <= k < usage@.len() ==> usage@[k] is None,
            decreases REGISTER_COUNT - usage.len(),
        {
            usage.push(None);
        }
        let m = Self { keys: Vec::new(), members: Vec::new(), usage };
        assert(m.values() =~= Map::<Value, Set<Register>>::empty());
        assert(m.usage() =~= Map::<Register, RegisterValue>::empty()) by {
            assert forall|r: Register| !(#[trigger] m.usage().dom().contains(r)) by {
                law_register_numbering(r, 0);
            }
        }
        m
    }

    /// Index of `v` among the keys, if it has an entry.
    fn key_index(&self, v: Value) -> (r: Option<usize>)
        ensures
            match r {
                Some(k) => k < self.keys@.len() && self.keys@[k as int] == v,
                None => !self.keys@.contains(v),
            },
    {
        let mut k: usize = 0;
        while k < self.keys.len()
            invariant
                k <= self.keys@.len(),
                forall|j: int| 0 <= j < k ==> self.keys@[j] != v,
            decreases self.keys.len() - k,
        {
            if same_value(self.keys[k], v) {
                return Some(k);
            }
            k = k + 1;
        }
        None
    }

    /// Index of the pair `(v, r)` among the members, if it is recorded.
    fn member_index(&self, v: Value, r: Register) -> (res: Option<usize>)
        ensures
            match res {
                Some(k) => k < self.members@.len() && self.members@[k as int] == (v, r),
                None => !self.members@.contains((v, r)),
            },
    {
        let mut k: usize = 0;
        while k < self.members.len()
            invariant
                k <= self.members@.len(),
                forall|j: int| 0 <= j < k ==> self.members@[j] != (v, r),
            decreases self.members.len() - k,
        {
            let (mv, mr) = self.members[k];
            if same_value(mv, v) && mr == r {
                return Some(k);
            }
            k = k + 1;
        }
        None
    }

    /// Gives `v` an entry if it has none.
    fn ensure_key(&mut self, v: Value)
        requires
            old(self).wf(),
        ensures
            final(self).wf(),
            final(self).values() == old(self).values().insert(v, held_by(old(self).values(), v)),
            final(self).usage() == old(self).usage(),
            final(self).keys@.contains(v),
    {
        let ghost before = *self;
        if self.key_index(v).is_none() {
            self.keys.push(v);
            proof {
                lemma_push_fresh(before.keys@, v);
            }
        }
        proof {
            let goal = before.values().insert(v, held_by(before.values(), v));
            assert forall|x: Value| #[trigger] self.values().dom().contains(x) == goal.dom().contains(x) by {}
            assert forall|x: Value| self.values().dom().contains(x) implies #[trigger] self.values()[x] =~= goal[x] by {
                if x == v && !before.keys@.contains(v) {
                    assert forall|r: Register| !self.members@.contains((v, r)) by {
                        if self.members@.contains((v, r)) {
                            let j = choose|j: int| 0 <= j < self.members@.len() && self.members@[j] == (v, r);
                            assert(before.keys@.contains(before.members@[j].0));
                        }
                    }
                }
            }
            assert(self.values() =~~= goal);
            assert(self.usage() =~= before.usage());
        }
    }

    /// Sets what register `r` holds.
    fn set_usage(&mut self, r: Register, u: Option<RegisterValue>)
        requires
            old(self).wf(),
        ensures
            final(self).wf(),
            final(self).values() == old(self).values(),
            final(self).usage() == (match u {
                Some(x) => old(self).usage().insert(r, x),
                None => old(self).usage().remove(r),
            }),
    {
        proof {
            law_register_numbering(r, 0);
        }
        let i = r.index();
        self.usage.set(i as usize, u);
        proof {
            assert forall|q: Register| #[trigger] final(self).usage@[reg_index(q) as int] == (if q == r { u } else { old(self).usage@[reg_index(q) as int] }) by {
                law_register_numbering(q, 0);
                law_register_numbering(r, 0);
            }
        }
        match u {
            Some(x) => {
                assert(final(self).usage() =~= old(self).usage().insert(r, x));
            },
            None => {
                assert(final(self).usage() =~= old(self).usage().remove(r));
            },
        }
        assert(final(self).values() =~= old(self).values());
    }

    /// Records that register `r` holds something of the back end's own.
    pub fn decl_register(&mut self, register: Register)
        requires
            old(self).wf(),
        ensures
            final(self).wf(),
            final(self).values() == old(self).values(),
            final(self).usage() == old(self).usage().insert(register, RegisterValue::Const),
    {
        self.set_usage(register, Some(RegisterValue::Const));
    }

    /// Records that `register` holds `value`. The register is added to the
    /// value's entry; an entry of what it held before is left as it was.
    pub fn insert(&mut self, value: RegisterValue, register: Register)
        requires
            old(self).wf(),
        ensures
            final(self).wf(),
            final(self).values() == (match value {
                RegisterValue::InstRet(v) => old(self).values().insert(
                    v,
                    held_by(old(self).values(), v).insert(register),
                ),
                RegisterValue::Const => old(self).values(),
            }),
            final(self).usage() == old(self).usage().insert(register, value),
    {
        match value {
            RegisterValue::InstRet(v) => {
                self.ensure_key(v);
                let ghost before = *self;
                if self.member_index(v, register).is_none() {
                    self.members.push((v, register));
                    proof {
                        lemma_push_fresh(before.members@, (v, register));
                    }
                }
                proof {
                    let goal = before.values().insert(v, held_by(before.values(), v).insert(register));
                    assert forall|x: Value| #[trigger] self.values().dom().contains(x) == goal.dom().contains(x) by {}
                    assert forall|x: Value| self.values().dom().contains(x) implies #[trigger] self.values()[x] =~= goal[x] by {}
                    assert(self.values() =~~= goal);
                    assert(self.usage() =~= before.usage());
                }
            },
            RegisterValue::Const => {},
        }
        self.set_usage(register, Some(value));
    }

    /// Drops `register` from `value`'s entry (creating the entry, empty, if it
    /// had none) and marks the register free.
    pub fn remove(&mut self, value: Value, register: Register)
        requires
            old(self).wf(),
        ensures
            final(self).wf(),
            final(self).values() == old(self).values().insert(
                value,
                held_by(old(self).values(), value).remove(register),
            ),
            final(self).usage() == old(self).usage().remove(register),
    {
        self.drop_member(value, register);
        self.set_usage(register, None);
    }

    fn drop_member(&mut self, value: Value, register: Register)
        requires
            old(self).wf(),
        ensures
            final(self).wf(),
            final(self).values() == old(self).values().insert(
                value,
                held_by(old(self).values(), value).remove(register),
            ),
            final(self).usage() == old(self).usage(),
    {
        self.ensure_key(value);
        let ghost before = *self;
        match self.member_index(value, register) {
            Some(k) => {
                self.members.remove(k);
                proof {
                    lemma_remove_distinct(before.members@, k as int);
                }
            },
            None => {},
        }
        proof {
            let goal = before.values().insert(value, held_by(before.values(), value).remove(register));
            assert forall|x: Value| #[trigger] self.values().dom().contains(x) == goal.dom().contains(x) by {}
            assert forall|x: Value| self.values().dom().contains(x) implies #[trigger] self.values()[x] =~= goal[x] by {}
            assert(self.values() =~~= goal);
            assert(self.usage() =~= before.usage());
        }
    }

    /// Marks `register` free; if it held an instruction's result, the
    /// register is also dropped from that value's entry.
    pub fn remove_by_register(&mut self, register: Register)
        requires
            old(self).wf(),
        ensures
            final(self).wf(),
            final(self).usage() == old(self).usage().remove(register),
            final(self).values() == (match usage_of(old(self).usage(), register) {
                Some(RegisterValue::InstRet(v)) => old(self).values().insert(
                    v,
                    held_by(old(self).values(), v).remove(register),
                ),
                _ => old(self).values(),
            }),
    {
        let held = self.get_by_register(&register);
        self.set_usage(register, None);
        match held {
            Some(RegisterValue::InstRet(v)) => {
                self.drop_member(v, register);
            },
            _ => {},
        }
    }

    /// Forgets everything.
    pub fn clear(&mut self)
        requires
            old(self).wf(),
        ensures
            final(self).wf(),
            final(self).values() == Map::<Value, Set<Register>>::empty(),
            final(self).usage() == Map::<Register, RegisterValue>::empty(),
    {
        *self = Self::new();
    }

    /// The registers that hold `value`, when there is at least one.
    pub fn get_by_value(&self, value: &Value) -> (r: Option<Vec<Register>>)
        requires
            self.wf(),
        ensures
            match r {
                Some(regs) => {
                    &&& regs@.no_duplicates()
                    &&& regs@.len() > 0
                    &&& regs@.to_set() == held_by(self.values(), *value)
                },
                None => held_by(self.values(), *value).is_empty(),
            },
    {
        let v = *value;
        let mut regs: Vec<Register> = Vec::new();
        let mut k: usize = 0;
        while k < self.members.len()
            invariant
                k <= self.members@.len(),
                self.members@.no_duplicates(),
                forall|r: Register| regs@.contains(r) <==> exists|j: int| 0 <= j < k && #[trigger] self.members@[j] == (v, r),
                regs@.no_duplicates(),
            decreases self.members.len() - k,
        {
            let (mv, mr) = self.members[k];
            if same_value(mv, v) {
                proof {
                    if regs@.contains(mr) {
                        let j = choose|j: int| 0 <= j < k && self.members@[j] == (v, mr);
                        assert(self.members@[j] == self.members@[k as int]);
                    }
                }
                regs.push(mr);
            }
            k = k + 1;
        }
        proof {
            assert forall|r: Register| #[trigger] regs@.to_set().contains(r) == held_by(self.values(), v).contains(r) by {
                if self.members@.contains((v, r)) {
                    let j = choose|j: int| 0 <= j < self.members@.len() && self.members@[j] == (v, r);
                    assert(self.keys@.contains(self.members@[j].0));
                }
            }
            assert(regs@.to_set() =~= held_by(self.values(), v));
        }
        if regs.len() == 0 {
            proof {
                assert(held_by(self.values(), v) =~= Set::<Register>::empty());
            }
            None
        } else {
            proof {
                assert(regs@.to_set().contains(regs@[0]));
            }
            Some(regs)
        }
    }

    /// What `register` holds, if it is in use.
    pub fn get_by_register(&self, register: &Register) -> (r: Option<RegisterValue>)
        requires
            self.wf(),
        ensures
            r == usage_of(self.usage(), *register),
    {
        proof {
            law_register_numbering(*register, 0);
        }
        self.usage[register.index() as usize]
    }

    /// Whether `value` has an entry (possibly empty).
    pub fn contains_value(&self, value: &Value) -> (r: bool)
        ensures
            r == self.values().dom().contains(*value),
    {
        self.key_index(*value).is_some()
    }

    /// Whether one of `vs` is recorded in `reg`.
    fn held_by_any(&self, vs: &[Value], reg: Register) -> (r: bool)
        requires
            self.wf(),
        ensures
            r == held_by_any(self.values(), vs@, reg),
    {
        let mut j: usize = 0;
        while j < vs.len()
            invariant
                j <= vs@.len(),
                self.wf(),
                forall|i: int| 0 <= i < j ==> !(#[trigger] held_by(self.values(), vs@[i])).contains(reg),
            decreases vs.len() - j,
        {
            if self.member_index(vs[j], reg).is_some() {
                proof {
                    let k = choose|k: int| 0 <= k < self.members@.len() && self.members@[k] == (vs@[j as int], reg);
                    assert(self.keys@.contains(self.members@[k].0));
                    assert(held_by(self.values(), vs@[j as int]).contains(reg));
                }
                return true;
            }
            proof {
                if self.values().dom().contains(vs@[j as int]) {
                    assert(!self.values()[vs@[j as int]].contains(reg));
                }
            }
            j = j + 1;
        }
        false
    }

    /// The registers not in use that pass `filter`, by increasing number.
    pub fn get_available_registers_filtered<F: Fn(&Register) -> bool>(&self, filter: F) -> (r: Vec<Register>)
        requires
            self.wf(),
            forall|reg: Register| filter.requires((&reg,)),
        ensures
            forall|k: int| 0 <= k < r@.len() ==> !self.usage().dom().contains(#[trigger] r@[k]) && filter.ensures((&r@[k],), true),
            forall|k: int, l: int| 0 <= k < l < r@.len() ==> reg_index(#[trigger] r@[k]) < reg_index(#[trigger] r@[l]),
            forall|reg: Register| !self.usage().dom().contains(reg) && !r@.contains(reg) ==> filter.ensures((&reg,), false),
    {
        let mut r: Vec<Register> = Vec::new();
        let mut i: u8 = 0;
        while i < 32
            invariant
                i <= 32,
                self.wf(),
                forall|reg: Register| filter.requires((&reg,)),
                forall|k: int| 0 <= k < r@.len() ==> reg_index(#[trigger] r@[k]) < i,
                forall|k: int| 0 <= k < r@.len() ==> !self.usage().dom().contains(#[trigger] r@[k]) && filter.ensures((&r@[k],), true),
                forall|k: int, l: int| 0 <= k < l < r@.len() ==> reg_index(#[trigger] r@[k]) < reg_index(#[trigger] r@[l]),
                forall|reg: Register| reg_index(reg) < i && !self.usage().dom().contains(reg) && !r@.contains(reg) ==> filter.ensures((&reg,), false),
            decreases 32 - i,
        {
            let reg = Register::from_index(i);
            proof {
                law_register_numbering(reg, i as nat);
            }
            if self.usage[i as usize].is_none() {
                if filter(&reg) {
                    r.push(reg);
                }
            }
            i = i + 1;
        }
        proof {
            assert forall|reg: Register| !self.usage().dom().contains(reg) && !r@.contains(reg) implies filter.ensures((&reg,), false) by {
                law_register_numbering(reg, 0);
            }
        }
        r
    }

    /// The registers not in use, by increasing number.
    pub fn get_available_registers(&self) -> (r: Vec<Register>)
        requires
            self.wf(),
        ensures
            forall|k: int| 0 <= k < r@.len() ==> !self.usage().dom().contains(#[trigger] r@[k]),
            forall|k: int, l: int| 0 <= k < l < r@.len() ==> reg_index(#[trigger] r@[k]) < reg_index(#[trigger] r@[l]),
            forall|reg: Register| !self.usage().dom().contains(reg) ==> r@.contains(reg),
    {
        self.get_available_registers_filtered(|_reg: &Register| -> (b: bool)
            ensures
                b,
            { true })
    }

    /// The registers that pass `filter` and hold none of `value`, by
    /// increasing number. Registers in use for anything else count as
    /// available here.
    pub fn get_registers_filtered_by_value<F: Fn(&Register) -> bool>(&self, value: &[Value], filter: F) -> (r: Vec<Register>)
        requires
            self.wf(),
            forall|reg: Register| filter.requires((&reg,)),
        ensures
            forall|k: int| 0 <= k < r@.len() ==> !held_by_any(self.values(), value@, #[trigger] r@[k]) && filter.ensures((&r@[k],), true),
            forall|k: int, l: int| 0 <= k < l < r@.len() ==> reg_index(#[trigger] r@[k]) < reg_index(#[trigger] r@[l]),
            forall|reg: Register| !held_by_any(self.values(), value@, reg) && !r@.contains(reg) ==> filter.ensures((&reg,), false),
    {
        let mut r: Vec<Register> = Vec::new();
        let mut i: u8 = 0;
        while i < 32
            invariant
                i <= 32,
                self.wf(),
                forall|reg: Register| filter.requires((&reg,)),
                forall|k: int| 0 <= k < r@.len() ==> reg_index(#[trigger] r@[k]) < i,
                forall|k: int| 0 <= k < r@.len() ==> !held_by_any(self.values(), value@, #[trigger] r@[k]) && filter.ensures((&r@[k],), true),
                forall|k: int, l: int| 0 <= k < l < r@.len() ==> reg_index(#[trigger] r@[k]) < reg_index(#[trigger] r@[l]),
                forall|reg: Register| reg_index(reg) < i && !held_by_any(self.values(), value@, reg) && !r@.contains(reg) ==> filter.ensures((&reg,), false),
            decreases 32 - i,
        {
            let reg = Register::from_index(i);
            proof {
                law_register_numbering(reg, i as nat);
            }
            if !self.held_by_any(value, reg) {
                if filter(&reg) {
                    r.push(reg);
                }
            }
            i = i + 1;
        }
        proof {
            assert forall|reg: Register| !held_by_any(self.values(), value@, reg) && !r@.contains(reg) implies filter.ensures((&reg,), false) by {
                law_register_numbering(reg, 0);
            }
        }
        r
    }
}

/// Whether one of `vs` is recorded in register `reg`.
pub open spec fn held_by_any(m: Map<Value, Set<Register>>, vs: Seq<Value>, reg: Register) -> bool {
    exists|j: int| 0 <= j < vs.len() && (#[trigger] held_by(m, vs[j])).contains(reg)
}

/// A register recorded for a value is then among the value's registers, and
/// one removed from it no longer is; other values keep their registers.
pub proof fn law_values_read_after_write(m: Map<Value, Set<Register>>, v: Value, r: Register, w: Value)
    ensures
        held_by(m.insert(v, held_by(m, v).insert(r)), v).contains(r),
        !held_by(m.insert(v, held_by(m, v).remove(r)), v).contains(r),
        w != v ==> held_by(m.insert(v, held_by(m, v).insert(r)), w) == held_by(m, w),
{
}

/// What a register is recorded as holding is what it is then read back as;
/// a freed register reads as free; other registers are untouched.
pub proof fn law_usage_read_after_write(m: Map<Register, RegisterValue>, r: Register, v: RegisterValue, q: Register)
    ensures
        usage_of(m.insert(r, v), r) == Some(v),
        usage_of(m.remove(r), r) is None,
        q != r ==> usage_of(m.insert(r, v), q) == usage_of(m, q) && usage_of(m.remove(r), q) == usage_of(m, q),
{
}

impl Default for RegisterMapper {
    fn default() -> (r: Self)
        ensures
            r.wf() && r.values() == Map::<Value, Set<Register>>::empty() && r.usage() == Map::<Register, RegisterValue>::empty(),
    {
        Self::new()
    }
}

} // verus!
