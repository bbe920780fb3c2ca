//! Declarations in a block.
use vstd::prelude::*;

use crate::ir::expr::{fold_expr, Folded};
use crate::ir::meta::{ConstValue, Variable, VariableManager};
use crate::parse::ast::{BType, InitVal};

verus! {

/// Defines the constant `ident` of type `ty` with the value of `init_val`,
/// evaluated now. The type must be `int`, the value a constant expression,
/// and the name new in scope.
pub fn define_simple_const(ident: String, ty: BType, init_val: InitVal, manager: &mut VariableManager)
    requires
        ty == BType::Int,
        fold_expr(init_val.expr, old(manager)@) is Const,
        !old(manager).local().contains(ident@),
        old(manager).wf(),
    ensures
        final(manager)@ == old(manager)@.insert(
            ident@,
            Variable::Const(ConstValue::Int(fold_expr(init_val.expr, old(manager)@)->Const_0)),
        ),
        final(manager).pushed(*old(manager)),
        final(manager).wf(),
        final(manager).local() == old(manager).local().insert(ident@),
{
    let value = match init_val.const_eval_i32(manager) {
        Some(v) => v,
        None => 0,
    };
    let _ = manager.define_const(ident, ConstValue::Int(value));
}

} // verus!
