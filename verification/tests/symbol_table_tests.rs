//! The scope tree: insertion, update, lookup along the parent chain,
//! version counters, and the function-scope walk.

use arkfront::ast::{AstNode, Body, FuncDef, Node};
use arkfront::errors::ErrorPipeline;
use arkfront::semantic_analyzer::SemanticAnalyzer;
use arkfront::symbol_table::{FuncAttribute, Scope, SymbolTable, VarAttribute};
use arkfront::tokens::DataType;

#[test]
fn insert_then_lookup_in_same_scope() {
    let mut table = SymbolTable::new(Scope::Global);
    table.insert_var(0, "x".to_string());
    table.update_var(0, &"x".to_string(), Some(DataType::I32), Some(8), Some(0), Some(4));
    let (attr, scope) = table.lookup_var(0, &"x".to_string()).unwrap();
    assert!(matches!(attr.data_type, Some(DataType::I32)));
    assert_eq!(attr.size, Some(8));
    assert_eq!(attr.line_declare, Some(4));
    assert_eq!(attr.current_version, 0);
    assert_eq!(scope, Scope::Global);
}

#[test]
fn lookup_walks_to_enclosing_scope() {
    let mut table = SymbolTable::new(Scope::Global);
    table.insert_var(0, "outer".to_string());
    let block = table.insert_block_scope(0);
    let (_, scope) = table.lookup_var(block, &"outer".to_string()).unwrap();
    assert_eq!(scope, Scope::Global);
}

#[test]
fn block_variable_invisible_from_parent() {
    let mut table = SymbolTable::new(Scope::Global);
    let block = table.insert_block_scope(0);
    table.insert_var(block, "inner".to_string());
    assert!(table.lookup_var(0, &"inner".to_string()).is_none());
    assert!(table.lookup_var(block, &"inner".to_string()).is_some());
}

#[test]
fn shadowing_resolves_to_nearest_scope() {
    let mut table = SymbolTable::new(Scope::Global);
    table.insert_var(0, "x".to_string());
    table.update_var(0, &"x".to_string(), Some(DataType::I32), None, None, None);
    let block = table.insert_block_scope(0);
    table.insert_var(block, "x".to_string());
    table.update_var(block, &"x".to_string(), Some(DataType::Boolean), None, None, None);
    let (attr, scope) = table.lookup_var(block, &"x".to_string()).unwrap();
    assert!(matches!(attr.data_type, Some(DataType::Boolean)));
    assert_eq!(scope, Scope::Block(0));
}

#[test]
fn block_scopes_are_numbered_in_order() {
    let mut table = SymbolTable::new(Scope::Global);
    let first = table.insert_block_scope(0);
    let second = table.insert_block_scope(0);
    table.insert_var(first, "a".to_string());
    table.insert_var(second, "b".to_string());
    let (_, s0) = table.lookup_var(first, &"a".to_string()).unwrap();
    let (_, s1) = table.lookup_var(second, &"b".to_string()).unwrap();
    assert_eq!(s0, Scope::Block(0));
    assert_eq!(s1, Scope::Block(1));
}

#[test]
fn version_counter_reads_and_consumes() {
    let mut table = SymbolTable::new(Scope::Global);
    table.insert_var(0, "v".to_string());
    assert_eq!(table.get_var_version(0, &"v".to_string()), 0);
    assert_eq!(table.consume_var_version(0, &"v".to_string()), 1);
    assert_eq!(table.consume_var_version(0, &"v".to_string()), 2);
    assert_eq!(table.get_var_version(0, &"v".to_string()), 2);
}

#[test]
fn reinsert_resets_the_attribute() {
    let mut table = SymbolTable::new(Scope::Global);
    table.insert_var(0, "x".to_string());
    table.update_var(0, &"x".to_string(), Some(DataType::I64), Some(16), Some(0), Some(9));
    table.insert_var(0, "x".to_string());
    let (attr, _) = table.lookup_var(0, &"x".to_string()).unwrap();
    assert!(attr.data_type.is_none());
    assert!(attr.line_declare.is_none());
    assert_eq!(attr.current_version, 0);
}

#[test]
fn function_declaration_and_walk() {
    let mut table = SymbolTable::new(Scope::Global);
    let fs = table.insert_func(0, "compute".to_string());
    table.update_func(0, &"compute".to_string(), Some(DataType::I32), Some(2));
    table.func_push_param(
        0,
        &"compute".to_string(),
        (DataType::I64, "n".to_string()),
    );
    let (attr, _) = table.lookup_func(0, &"compute".to_string()).unwrap();
    assert_eq!(attr.func_name, "compute");
    assert!(matches!(attr.return_type, DataType::I32));
    assert_eq!(attr.line_declare, Some(2));
    assert_eq!(attr.parameter.len(), 1);
    assert_eq!(attr.parameter[0].1, "n");
    assert_eq!(attr.func_table, fs);

    // From inside the function's scope the walk resolves its descriptor.
    let info = table.get_current_func_info(fs).unwrap();
    assert_eq!(info.func_name, "compute");
    // Deeper still: a block inside the function body.
    let inner = table.insert_block_scope(fs);
    let info2 = table.get_current_func_info(inner).unwrap();
    assert_eq!(info2.func_name, "compute");
    // At the root there is no enclosing function.
    assert!(table.get_current_func_info(0).is_none());
}

#[test]
fn update_var_at_reaches_named_scope() {
    let mut table = SymbolTable::new(Scope::Global);
    table.insert_var(0, "g".to_string());
    let block = table.insert_block_scope(0);
    table.update_var_at(
        block,
        Scope::Global,
        &"g".to_string(),
        Some(DataType::U8),
        None,
        None,
        Some(1),
    );
    let (attr, _) = table.lookup_var(0, &"g".to_string()).unwrap();
    assert!(matches!(attr.data_type, Some(DataType::U8)));
    assert_eq!(attr.line_declare, Some(1));
}

#[test]
fn var_push_line_ref_records_lines() {
    let mut table = SymbolTable::new(Scope::Global);
    table.insert_var(0, "x".to_string());
    table.var_push_line_ref(0, &"x".to_string(), 3);
    table.var_push_line_ref(0, &"x".to_string(), 9);
    let (attr, _) = table.lookup_var(0, &"x".to_string()).unwrap();
    assert_eq!(attr.line_ref, vec![3, 9]);
}

#[test]
fn lookup_missing_name_is_none() {
    let table = SymbolTable::new(Scope::Global);
    assert!(table.lookup_var(0, &"nope".to_string()).is_none());
    assert!(table.lookup_func(0, &"nope".to_string()).is_none());
}

#[test]
fn attribute_setters_record_fields() {
    let mut var = VarAttribute {
        data_type: None,
        size: None,
        dimension: None,
        line_declare: None,
        line_ref: vec![],
        current_version: 0,
    };
    var.set_data_type(DataType::U32);
    var.set_size(8);
    var.set_dimension(0);
    var.set_line_declare(12);
    var.push_line_ref(14);
    assert!(matches!(var.data_type, Some(DataType::U32)));
    assert_eq!(var.size, Some(8));
    assert_eq!(var.dimension, Some(0));
    assert_eq!(var.line_declare, Some(12));
    assert_eq!(var.line_ref, vec![14]);

    let mut func = FuncAttribute {
        func_name: "f".to_string(),
        line_declare: None,
        line_used: vec![],
        parameter: vec![],
        return_type: DataType::Void,
        func_table: 1,
    };
    func.set_return_type(DataType::I16);
    func.set_line_declare(3);
    func.push_line_used(8);
    func.push_parameter((DataType::I8, "p".to_string()));
    assert!(matches!(func.return_type, DataType::I16));
    assert_eq!(func.line_declare, Some(3));
    assert_eq!(func.line_used, vec![8]);
    assert_eq!(func.parameter.len(), 1);
}

#[test]
fn scope_tree_survives_analysis_for_inspection() {
    // `func f(): void {}` — after the walk, the populated tree still
    // holds the function's descriptor and its dedicated scope.
    let func = AstNode {
        node: Node::Function(FuncDef {
            function_name: AstNode {
                node: "f".to_string(),
                pos: (1, 6),
                length: 1,
            },
            body: Body {
                instructions: vec![],
            },
            return_type: AstNode {
                node: DataType::Void,
                pos: (1, 9),
                length: 4,
            },
            parameters: vec![],
        }),
        pos: (1, 1),
        length: 0,
    };
    let body = Body {
        instructions: vec![func],
    };
    let mut analyzer = SemanticAnalyzer::new();
    let mut pipe = ErrorPipeline::new();
    analyzer.analyze(&body, &mut pipe);
    assert_eq!(pipe.len(), 0);
    let table = analyzer.into_symbol_table();
    let (attr, scope) = table.lookup_func(0, &"f".to_string()).unwrap();
    assert_eq!(scope, Scope::Global);
    assert!(matches!(attr.return_type, DataType::Void));
    assert_eq!(attr.line_declare, Some(1));
    // The function's own scope is still reachable by its recorded index.
    assert!(table.get_current_func_info(attr.func_table).is_some());
}
