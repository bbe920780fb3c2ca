//! The functions of the SysY runtime library, declared to every program.
use vstd::prelude::*;
use vstd::string::StringExecFns;

verus! {

/// The types that the runtime functions take and return.
#[derive(Debug, Clone, Copy, PartialEq, Eq, Structural)]
pub enum DeclType {
    I32,
    PointerToI32,
    Unit,
}

/// A runtime function: its name, its parameters' types, and its result's
/// type (none for a procedure).
#[derive(Debug)]
pub struct FunctionDecl {
    pub name: String,
    pub params_ty: Vec<DeclType>,
    pub ret_ty: Option<DeclType>,
}

impl FunctionDecl {
    pub fn new(name: &str, params_ty: Vec<DeclType>, ret_ty: Option<DeclType>) -> (r: Self)
        ensures
            r.name@ == name@,
            r.params_ty@ == params_ty@,
            r.ret_ty == ret_ty,
    {
        FunctionDecl { name: String::from_str(name), params_ty, ret_ty }
    }
}

/// The runtime library: name, parameter types and result type of each
/// function, in order.
pub open spec fn runtime_table() -> Seq<(Seq<char>, Seq<DeclType>, Option<DeclType>)> {
    seq![
        ("getint"@, Seq::empty(), Some(DeclType::I32)),
        ("getch"@, Seq::empty(), Some(DeclType::I32)),
        ("getarray"@, seq![DeclType::PointerToI32], Some(DeclType::I32)),
        ("putint"@, seq![DeclType::I32], None),
        ("putch"@, seq![DeclType::I32], None),
        ("putarray"@, seq![DeclType::I32, DeclType::PointerToI32], None),
        ("starttime"@, Seq::empty(), None),
        ("stoptime"@, Seq::empty(), None),
    ]
}

/// The runtime library's declarations.
pub fn function_decls() -> (r: Vec<FunctionDecl>)
    ensures
        r@.len() == runtime_table().len(),
        forall|k: int| 0 <= k < r@.len() ==> {
            &&& (#[trigger] r@[k]).name@ == runtime_table()[k].0
            &&& r@[k].params_ty@ == runtime_table()[k].1
            &&& r@[k].ret_ty == runtime_table()[k].2
        },
{
    let mut r: Vec<FunctionDecl> = Vec::new();
    r.push(FunctionDecl::new("getint", Vec::new(), Some(DeclType::I32)));
    r.push(FunctionDecl::new("getch", Vec::new(), Some(DeclType::I32)));
    r.push(FunctionDecl::new("getarray", vec![DeclType::PointerToI32], Some(DeclType::I32)));
    r.push(FunctionDecl::new("putint", vec![DeclType::I32], None));
    r.push(FunctionDecl::new("putch", vec![DeclType::I32], None));
    r.push(FunctionDecl::new("putarray", vec![DeclType::I32, DeclType::PointerToI32], None));
    r.push(FunctionDecl::new("starttime", Vec::new(), None));
    r.push(FunctionDecl::new("stoptime", Vec::new(), None));
    assert(r@[2].params_ty@ =~= seq![DeclType::PointerToI32]);
    assert(r@[3].params_ty@ =~= seq![DeclType::I32]);
    assert(r@[4].params_ty@ =~= seq![DeclType::I32]);
    assert(r@[5].params_ty@ =~= seq![DeclType::I32, DeclType::PointerToI32]);
    r
}

/// The signature of a function as the IR declares it: its IR name, its
/// parameters' types, and its result's type.
#[derive(Debug)]
pub struct FunctionSig {
    pub name: String,
    pub params_ty: Vec<DeclType>,
    pub ret_ty: DeclType,
}

/// The IR declarations of the runtime library: each name takes the sigil
/// `@`, and a procedure returns unit.
pub fn get_function_decls() -> (r: Vec<FunctionSig>)
    ensures
        r@.len() == runtime_table().len(),
        forall|k: int| 0 <= k < r@.len() ==> {
            &&& (#[trigger] r@[k]).name@ == "@"@ + runtime_table()[k].0
            &&& r@[k].params_ty@ == runtime_table()[k].1
            &&& r@[k].ret_ty == (match runtime_table()[k].2 {
                Some(t) => t,
                None => DeclType::Unit,
            })
        },
{
    let decls = function_decls();
    let mut r: Vec<FunctionSig> = Vec::new();
    let mut i: usize = 0;
    while i < decls.len()
        invariant
            i <= decls@.len(),
            decls@.len() == runtime_table().len(),
            forall|k: int| 0 <= k < decls@.len() ==> {
                &&& (#[trigger] decls@[k]).name@ == runtime_table()[k].0
                &&& decls@[k].params_ty@ == runtime_table()[k].1
                &&& decls@[k].ret_ty == runtime_table()[k].2
            },
            r@.len() == i,
            forall|k: int| 0 <= k < i ==> {
                &&& (#[trigger] r@[k]).name@ == "@"@ + runtime_table()[k].0
                &&& r@[k].params_ty@ == runtime_table()[k].1
                &&& r@[k].ret_ty == (match runtime_table()[k].2 {
                    Some(t) => t,
                    None => DeclType::Unit,
                })
            },
        decreases decls.len() - i,
    {
        let d = &decls[i];
        let mut name = String::from_str("@");
        name.append(d.name.as_str());
        let ret_ty = match d.ret_ty {
            Some(t) => t,
            None => DeclType::Unit,
        };
        let params_ty = d.params_ty.clone();
        r.push(FunctionSig { name, params_ty, ret_ty });
        i = i + 1;
    }
    r
}

} // verus!
