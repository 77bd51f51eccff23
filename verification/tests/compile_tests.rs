use bpfquery::ast::{
    Expr, FunctionArg, FunctionArgExpr, FunctionArguments, Literal, SelectBody, SelectItem,
    SetExpr, Statement, TableSource,
};
use bpfquery::compile::{compile_ast_to_bpftrace, CompileError};
use bpfquery::resolve::{Catalog, CatalogEntry};

fn empty_catalog() -> Catalog {
    Catalog { entries: Vec::new() }
}

fn table(parts: &[&str]) -> TableSource {
    TableSource::Table {
        name: parts.iter().map(|s| s.to_string()).collect(),
    }
}

fn ident(name: &str) -> Expr {
    Expr::Identifier(name.to_string())
}

fn unnamed(name: &str) -> SelectItem {
    SelectItem::Unnamed {
        expr: ident(name),
        text: name.to_string(),
    }
}

fn select(projection: Vec<SelectItem>, from: Vec<TableSource>, selection: Option<Expr>) -> Vec<Statement> {
    vec![Statement::Query(SetExpr::Select(SelectBody {
        projection,
        from,
        selection,
    }))]
}

#[test]
fn three_columns_compile() {
    let ast = select(
        vec![unnamed("pid"), unnamed("cpu"), unnamed("elapsed")],
        vec![table(&["kprobe", "do_nanosleep"])],
        None,
    );
    let (prog, headers) = compile_ast_to_bpftrace(&ast, &empty_catalog()).unwrap();
    assert_eq!(headers, vec!["pid", "cpu", "elapsed"]);
    assert_eq!(
        prog,
        "kprobe:do_nanosleep\n {\n@q1_id[\"id\"] = count();\n$q1_0 = pid;\n$q1_1 = cpu;\n$q1_2 = elapsed;\nprint(((\"id\",@q1_id[\"id\"]),(0,$q1_0),(1,$q1_1),(2,$q1_2)));\n }"
    );
}

#[test]
fn print_statement_has_one_positional_key_per_column() {
    let ast = select(
        vec![unnamed("a"), unnamed("b"), unnamed("c"), unnamed("d")],
        vec![table(&["kprobe", "do_nanosleep"])],
        None,
    );
    let (prog, headers) = compile_ast_to_bpftrace(&ast, &empty_catalog()).unwrap();
    assert_eq!(headers.len(), 4);
    assert!(prog.contains("(\"id\",@q1_id[\"id\"])"));
    for i in 0..4 {
        assert!(prog.contains(&format!("({},$q1_{})", i, i)));
    }
    assert!(!prog.contains("(4,$q1_4)"));
}

#[test]
fn wildcard_expands_to_four_identity_columns() {
    let ast = select(
        vec![SelectItem::Wildcard],
        vec![table(&["kprobe", "do_nanosleep"])],
        None,
    );
    let (_, headers) = compile_ast_to_bpftrace(&ast, &empty_catalog()).unwrap();
    assert_eq!(headers, vec!["comm", "pid", "cpu", "elapsed"]);
}

#[test]
fn wildcard_keeps_relative_positions() {
    let ast = select(
        vec![unnamed("x"), SelectItem::Wildcard, unnamed("y")],
        vec![table(&["kprobe", "do_nanosleep"])],
        None,
    );
    let (_, headers) = compile_ast_to_bpftrace(&ast, &empty_catalog()).unwrap();
    assert_eq!(headers, vec!["x", "comm", "pid", "cpu", "elapsed", "y"]);
}

#[test]
fn from_source_becomes_probe_header() {
    let ast = select(
        vec![unnamed("pid")],
        vec![table(&["kprobe", "vfs_open"])],
        None,
    );
    let (prog, _) = compile_ast_to_bpftrace(&ast, &empty_catalog()).unwrap();
    assert!(prog.starts_with("kprobe:vfs_open"));
    assert!(!prog.contains("exit();"));
}

#[test]
fn absent_from_compiles_to_begin_with_termination() {
    let ast = select(vec![unnamed("pid")], vec![], None);
    let (prog, _) = compile_ast_to_bpftrace(&ast, &empty_catalog()).unwrap();
    assert!(prog.starts_with("BEGIN"));
    assert!(prog.contains("exit();\n"));
    let print_pos = prog.find("print(").unwrap();
    let exit_pos = prog.find("exit();").unwrap();
    assert!(exit_pos > print_pos);
}

#[test]
fn equality_filter_uses_double_equals() {
    let filter = Expr::BinaryOp {
        left: Box::new(ident("pid")),
        op: "=".to_string(),
        right: Box::new(Expr::Literal(Literal::Verbatim("5".to_string()))),
    };
    let ast = select(
        vec![unnamed("pid")],
        vec![table(&["kprobe", "do_nanosleep"])],
        Some(filter),
    );
    let (prog, _) = compile_ast_to_bpftrace(&ast, &empty_catalog()).unwrap();
    assert!(prog.contains(" /pid == 5/ "));
}

#[test]
fn other_operators_pass_through() {
    let filter = Expr::BinaryOp {
        left: Box::new(ident("pid")),
        op: ">".to_string(),
        right: Box::new(Expr::Literal(Literal::Verbatim("5".to_string()))),
    };
    let ast = select(
        vec![unnamed("pid")],
        vec![table(&["kprobe", "do_nanosleep"])],
        Some(filter),
    );
    let (prog, _) = compile_ast_to_bpftrace(&ast, &empty_catalog()).unwrap();
    assert!(prog.contains(" /pid > 5/ "));
    assert!(!prog.contains("=="));
}

#[test]
fn navigation_operator_passes_through() {
    let filter = Expr::BinaryOp {
        left: Box::new(ident("ptr")),
        op: "->".to_string(),
        right: Box::new(ident("field")),
    };
    let ast = select(
        vec![unnamed("pid")],
        vec![table(&["kprobe", "do_nanosleep"])],
        Some(filter),
    );
    let (prog, _) = compile_ast_to_bpftrace(&ast, &empty_catalog()).unwrap();
    assert!(prog.contains(" /ptr -> field/ "));
}

#[test]
fn args_field_resolves_against_catalog() {
    let catalog = Catalog {
        entries: vec![CatalogEntry {
            function_name: "vfs_open".to_string(),
            signature: "(struct path * path, struct file * file)".to_string(),
        }],
    };
    let item = SelectItem::Unnamed {
        expr: Expr::CompoundIdentifier(vec!["args".to_string(), "file".to_string()]),
        text: "args.file".to_string(),
    };
    let ast = select(vec![item], vec![table(&["kprobe", "vfs_open"])], None);
    let (prog, headers) = compile_ast_to_bpftrace(&ast, &catalog).unwrap();
    assert_eq!(headers, vec!["args.file"]);
    assert!(prog.contains("$q1_0 = ((struct file *)arg1);\n"));
}

#[test]
fn const_is_stripped_from_resolved_type() {
    let catalog = Catalog {
        entries: vec![CatalogEntry {
            function_name: "vfs_open".to_string(),
            signature: "(const struct path * path,struct file * file)".to_string(),
        }],
    };
    let item = SelectItem::Unnamed {
        expr: Expr::CompoundIdentifier(vec!["args".to_string(), "path".to_string()]),
        text: "args.path".to_string(),
    };
    let ast = select(vec![item], vec![table(&["kprobe", "vfs_open"])], None);
    let (prog, _) = compile_ast_to_bpftrace(&ast, &catalog).unwrap();
    assert!(prog.contains("((struct path *)arg0)"));
}

#[test]
fn compound_identifier_without_args_joins_verbatim() {
    let item = SelectItem::Unnamed {
        expr: Expr::CompoundIdentifier(vec!["a".to_string(), "b".to_string(), "c".to_string()]),
        text: "a.b.c".to_string(),
    };
    let ast = select(vec![item], vec![table(&["tracepoint", "sched"])], None);
    let (prog, _) = compile_ast_to_bpftrace(&ast, &empty_catalog()).unwrap();
    assert!(prog.contains("$q1_0 = a.b.c;\n"));
}

#[test]
fn args_under_non_kprobe_joins_verbatim() {
    let item = SelectItem::Unnamed {
        expr: Expr::CompoundIdentifier(vec!["args".to_string(), "file".to_string()]),
        text: "args.file".to_string(),
    };
    let ast = select(vec![item], vec![table(&["tracepoint", "sched"])], None);
    let (prog, _) = compile_ast_to_bpftrace(&ast, &empty_catalog()).unwrap();
    assert!(prog.contains("$q1_0 = args.file;\n"));
}

#[test]
fn function_call_renders_name_and_arguments() {
    let call = Expr::FunctionCall {
        name: "str".to_string(),
        args: FunctionArguments::List(vec![FunctionArg::Unnamed(FunctionArgExpr::Argument(
            ident("x"),
        ))]),
    };
    let item = SelectItem::Aliased {
        expr: call,
        alias: "s".to_string(),
    };
    let ast = select(vec![item], vec![table(&["kprobe", "do_nanosleep"])], None);
    let (prog, headers) = compile_ast_to_bpftrace(&ast, &empty_catalog()).unwrap();
    assert_eq!(headers, vec!["s"]);
    assert!(prog.contains("$q1_0 = str(x);\n"));
}

#[test]
fn function_call_without_arguments_renders_empty_parens() {
    let call = Expr::FunctionCall {
        name: "count".to_string(),
        args: FunctionArguments::Absent,
    };
    let item = SelectItem::Unnamed {
        expr: call,
        text: "count()".to_string(),
    };
    let ast = select(vec![item], vec![table(&["kprobe", "do_nanosleep"])], None);
    let (prog, _) = compile_ast_to_bpftrace(&ast, &empty_catalog()).unwrap();
    assert!(prog.contains("$q1_0 = count();\n"));
}

#[test]
fn named_argument_renders_with_equals() {
    let call = Expr::FunctionCall {
        name: "f".to_string(),
        args: FunctionArguments::List(vec![
            FunctionArg::Named {
                name: "k".to_string(),
                arg: FunctionArgExpr::Argument(ident("v")),
            },
            FunctionArg::Unnamed(FunctionArgExpr::Wildcard),
        ]),
    };
    let item = SelectItem::Unnamed {
        expr: call,
        text: "f(k=v, *)".to_string(),
    };
    let ast = select(vec![item], vec![table(&["kprobe", "do_nanosleep"])], None);
    let (prog, _) = compile_ast_to_bpftrace(&ast, &empty_catalog()).unwrap();
    assert!(prog.contains("$q1_0 = f(k=v,*);\n"));
}

#[test]
fn single_quoted_literal_requotes_double() {
    let item = SelectItem::Unnamed {
        expr: Expr::Literal(Literal::SingleQuoted("hello".to_string())),
        text: "'hello'".to_string(),
    };
    let ast = select(vec![item], vec![table(&["kprobe", "do_nanosleep"])], None);
    let (prog, _) = compile_ast_to_bpftrace(&ast, &empty_catalog()).unwrap();
    assert!(prog.contains("$q1_0 = \"hello\";\n"));
}

#[test]
fn empty_statement_list_is_rejected() {
    let r = compile_ast_to_bpftrace(&vec![], &empty_catalog());
    assert_eq!(r.unwrap_err(), CompileError::ExpectedQuery);
}

#[test]
fn non_query_statement_is_rejected() {
    let r = compile_ast_to_bpftrace(&vec![Statement::Other], &empty_catalog());
    assert_eq!(r.unwrap_err(), CompileError::ExpectedQuery);
}

#[test]
fn non_select_body_is_rejected() {
    let r = compile_ast_to_bpftrace(
        &vec![Statement::Query(SetExpr::Other)],
        &empty_catalog(),
    );
    assert_eq!(r.unwrap_err(), CompileError::ExpectedSelect);
}

#[test]
fn non_table_source_is_rejected() {
    let ast = select(vec![unnamed("pid")], vec![TableSource::Other], None);
    let r = compile_ast_to_bpftrace(&ast, &empty_catalog());
    assert_eq!(r.unwrap_err(), CompileError::ExpectedTable);
}

#[test]
fn unsupported_projection_is_rejected() {
    let ast = select(
        vec![SelectItem::Unsupported],
        vec![table(&["kprobe", "do_nanosleep"])],
        None,
    );
    let r = compile_ast_to_bpftrace(&ast, &empty_catalog());
    assert_eq!(r.unwrap_err(), CompileError::UnsupportedProjection);
}

#[test]
fn unsupported_expression_is_rejected() {
    let ast = select(
        vec![SelectItem::Unnamed {
            expr: Expr::Unsupported,
            text: "?".to_string(),
        }],
        vec![table(&["kprobe", "do_nanosleep"])],
        None,
    );
    let r = compile_ast_to_bpftrace(&ast, &empty_catalog());
    assert_eq!(r.unwrap_err(), CompileError::UnsupportedExpression);
}

#[test]
fn subquery_argument_is_rejected() {
    let call = Expr::FunctionCall {
        name: "f".to_string(),
        args: FunctionArguments::Subquery,
    };
    let ast = select(
        vec![SelectItem::Unnamed {
            expr: call,
            text: "f".to_string(),
        }],
        vec![table(&["kprobe", "do_nanosleep"])],
        None,
    );
    let r = compile_ast_to_bpftrace(&ast, &empty_catalog());
    assert_eq!(r.unwrap_err(), CompileError::SubqueryNotSupported);
}

#[test]
fn qualified_wildcard_argument_is_rejected() {
    let call = Expr::FunctionCall {
        name: "f".to_string(),
        args: FunctionArguments::List(vec![FunctionArg::Unnamed(
            FunctionArgExpr::QualifiedWildcard,
        )]),
    };
    let ast = select(
        vec![SelectItem::Unnamed {
            expr: call,
            text: "f".to_string(),
        }],
        vec![table(&["kprobe", "do_nanosleep"])],
        None,
    );
    let r = compile_ast_to_bpftrace(&ast, &empty_catalog());
    assert_eq!(r.unwrap_err(), CompileError::QualifiedWildcardNotSupported);
}

#[test]
fn missing_catalog_entry_is_rejected() {
    let item = SelectItem::Unnamed {
        expr: Expr::CompoundIdentifier(vec!["args".to_string(), "file".to_string()]),
        text: "args.file".to_string(),
    };
    let ast = select(vec![item], vec![table(&["kprobe", "vfs_open"])], None);
    let r = compile_ast_to_bpftrace(&ast, &empty_catalog());
    assert_eq!(r.unwrap_err(), CompileError::UnknownFunction);
}

#[test]
fn unmatched_argument_name_is_rejected() {
    let catalog = Catalog {
        entries: vec![CatalogEntry {
            function_name: "vfs_open".to_string(),
            signature: "(struct path * path, struct file * file)".to_string(),
        }],
    };
    let item = SelectItem::Unnamed {
        expr: Expr::CompoundIdentifier(vec!["args".to_string(), "nothere".to_string()]),
        text: "args.nothere".to_string(),
    };
    let ast = select(vec![item], vec![table(&["kprobe", "vfs_open"])], None);
    let r = compile_ast_to_bpftrace(&ast, &catalog);
    assert_eq!(r.unwrap_err(), CompileError::NoMatchingArgument);
}

#[test]
fn error_messages_match_diagnostics() {
    assert_eq!(CompileError::ExpectedQuery.message(), "Expected a query");
    assert_eq!(CompileError::ExpectedSelect.message(), "Expected a select");
    assert_eq!(CompileError::ExpectedTable.message(), "Expected a table");
    assert_eq!(
        CompileError::UnsupportedProjection.message(),
        "Expected an expression"
    );
}
