use sysy_compiler::ir::stdlib::{function_decls, get_function_decls, DeclType, FunctionDecl};

#[test]
fn runtime_library_is_declared_in_order() {
    let decls = get_function_decls();
    let names: Vec<&str> = decls.iter().map(|d| d.name.as_str()).collect();
    assert_eq!(
        names,
        vec!["@getint", "@getch", "@getarray", "@putint", "@putch", "@putarray", "@starttime", "@stoptime"]
    );
    assert_eq!(decls[2].params_ty, vec![DeclType::PointerToI32]);
    assert_eq!(decls[2].ret_ty, DeclType::I32);
    assert_eq!(decls[5].params_ty, vec![DeclType::I32, DeclType::PointerToI32]);
    assert_eq!(decls[5].ret_ty, DeclType::Unit);
    assert_eq!(decls[6].params_ty, vec![]);
}

#[test]
fn runtime_table_keeps_procedures_without_result() {
    let table = function_decls();
    assert_eq!(table.len(), 8);
    assert_eq!(table[0].ret_ty, Some(DeclType::I32));
    assert_eq!(table[3].ret_ty, None);
    let d = FunctionDecl::new("f", vec![DeclType::I32], None);
    assert_eq!(d.name, "f");
}
