//! The query compiler: a parsed statement becomes tracing-script source
//! text plus an ordered output-column schema.
//!
//! Every failure is a distinct error; no partial program is ever returned.
//! The whole translation is stated as spec functions over character
//! sequences, and the executable compiler is proved to produce exactly
//! that text.

use vstd::prelude::*;
use crate::ast::{Expr, FunctionArg, FunctionArgExpr, FunctionArguments, Literal, SelectBody,
    SelectItem, SetExpr, Statement, TableSource};
use crate::resolve::{Catalog, lookup_spec, resolve_sig};
use crate::textutil::{dec_rep, join_char, join_strings, str_eq, u64_to_dec};

verus! {

/// Why a compilation attempt failed.
#[derive(Clone, Copy, Debug, PartialEq, Eq, Structural)]
pub enum CompileError {
    /// The statement is not a query.
    ExpectedQuery,
    /// The query body is not a simple select.
    ExpectedSelect,
    /// The FROM clause does not name a plain table-like source.
    ExpectedTable,
    /// A projection item is neither an expression, an aliased expression
    /// nor a wildcard.
    UnsupportedProjection,
    /// An expression kind the compiler does not support.
    UnsupportedExpression,
    /// A subquery in a function argument list.
    SubqueryNotSupported,
    /// A qualified wildcard in a function argument list.
    QualifiedWildcardNotSupported,
    /// The probe's function name has no catalog entry.
    UnknownFunction,
    /// No parameter of the probe's signature matches the argument name.
    NoMatchingArgument,
}

/// The diagnostic text of each error.
pub open spec fn error_text(e: CompileError) -> Seq<char> {
    match e {
        CompileError::ExpectedQuery => "Expected a query"@,
        CompileError::ExpectedSelect => "Expected a select"@,
        CompileError::ExpectedTable => "Expected a table"@,
        CompileError::UnsupportedProjection => "Expected an expression"@,
        CompileError::UnsupportedExpression => "Unsupported expression"@,
        CompileError::SubqueryNotSupported => "Subquery not supported"@,
        CompileError::QualifiedWildcardNotSupported => "QualifiedWildcard not supported"@,
        CompileError::UnknownFunction => "No catalog entry for probe function"@,
        CompileError::NoMatchingArgument => "No matching argument in probe signature"@,
    }
}

impl CompileError {
    /// A short diagnostic for display by a consumer.
    pub fn message(&self) -> (r: &'static str)
        ensures
            r@ == error_text(*self),
    {
        match self {
            CompileError::ExpectedQuery => "Expected a query",
            CompileError::ExpectedSelect => "Expected a select",
            CompileError::ExpectedTable => "Expected a table",
            CompileError::UnsupportedProjection => "Expected an expression",
            CompileError::UnsupportedExpression => "Unsupported expression",
            CompileError::SubqueryNotSupported => "Subquery not supported",
            CompileError::QualifiedWildcardNotSupported => "QualifiedWildcard not supported",
            CompileError::UnknownFunction => "No catalog entry for probe function",
            CompileError::NoMatchingArgument => "No matching argument in probe signature",
        }
    }
}

/// Relates an executable `String` result to its specification.
pub open spec fn str_res_matches(
    r: Result<String, CompileError>,
    m: Result<Seq<char>, CompileError>,
) -> bool {
    match (r, m) {
        (Result::Ok(s), Result::Ok(sq)) => s@ == sq,
        (Result::Err(a), Result::Err(b)) => a == b,
        _ => false,
    }
}

/// The view of an optional borrowed string.
pub open spec fn opt_str_view(o: Option<&String>) -> Option<Seq<char>> {
    match o {
        Option::Some(s) => Option::Some(s@),
        Option::None => Option::None,
    }
}

/// The translation of a literal: single-quoted strings are re-quoted with
/// double quotes, every other literal keeps its verbatim text.
pub open spec fn lit_text(l: Literal) -> Seq<char> {
    match l {
        Literal::SingleQuoted(s) => "\""@ + s@ + "\""@,
        Literal::Verbatim(s) => s@,
    }
}

/// The translation of an operator token: a single `=` becomes `==`, every
/// other token passes through unchanged.
pub open spec fn op_text(op: Seq<char>) -> Seq<char> {
    if op == "="@ {
        "=="@
    } else {
        op
    }
}

/// The translation of a compound (dotted) identifier.  Under a `kprobe`
/// probe a leading `args` resolves the second part against the catalog
/// into a parenthesized struct-pointer cast of the positional argument;
/// everything else joins its parts verbatim with dots.
pub open spec fn compound_tr(
    parts: Seq<Seq<char>>,
    kind: Seq<char>,
    fname: Option<Seq<char>>,
    cat: Catalog,
) -> Result<Seq<char>, CompileError> {
    if parts.len() >= 1 && parts[0] == "args"@ && kind == "kprobe"@ {
        if parts.len() < 2 {
            Result::Err(CompileError::NoMatchingArgument)
        } else {
            match fname {
                Option::None => Result::Err(CompileError::UnknownFunction),
                Option::Some(f) => match lookup_spec(cat.entries@, f) {
                    Option::None => Result::Err(CompileError::UnknownFunction),
                    Option::Some(sig) => match resolve_sig(sig, parts[1]) {
                        Option::Some(p) => Result::Ok(
                            "(("@ + p.0 + ")arg"@ + dec_rep(p.1 as nat) + ")"@,
                        ),
                        Option::None => Result::Err(CompileError::NoMatchingArgument),
                    },
                },
            }
        }
    } else {
        Result::Ok(join_char(parts, '.'))
    }
}

/// The translation of an expression, recursive over the expression tree.
pub open spec fn expr_tr(
    e: Expr,
    kind: Seq<char>,
    fname: Option<Seq<char>>,
    cat: Catalog,
) -> Result<Seq<char>, CompileError>
    decreases e,
{
    match e {
        Expr::Identifier(s) => Result::Ok(s@),
        Expr::Wildcard => Result::Ok("*"@),
        Expr::Literal(l) => Result::Ok(lit_text(l)),
        Expr::BinaryOp { left, op, right } => match expr_tr(*left, kind, fname, cat) {
            Result::Ok(lt) => match expr_tr(*right, kind, fname, cat) {
                Result::Ok(rt) => Result::Ok(lt + " "@ + op_text(op@) + " "@ + rt),
                Result::Err(er) => Result::Err(er),
            },
            Result::Err(el) => Result::Err(el),
        },
        Expr::FunctionCall { name, args } => match args {
            FunctionArguments::Absent => Result::Ok(name@ + "()"@),
            FunctionArguments::List(list) => match args_tr(list@, kind, fname, cat) {
                Result::Ok(a) => Result::Ok(name@ + "("@ + a + ")"@),
                Result::Err(er) => Result::Err(er),
            },
            FunctionArguments::Subquery => Result::Err(CompileError::SubqueryNotSupported),
        },
        Expr::CompoundIdentifier(parts) => compound_tr(parts.deep_view(), kind, fname, cat),
        Expr::Unsupported => Result::Err(CompileError::UnsupportedExpression),
    }
}

/// The translation of a function-argument list, joined with commas; the
/// earliest failing argument decides the error.
pub open spec fn args_tr(
    list: Seq<FunctionArg>,
    kind: Seq<char>,
    fname: Option<Seq<char>>,
    cat: Catalog,
) -> Result<Seq<char>, CompileError>
    decreases list,
{
    if list.len() == 0 {
        Result::Ok(Seq::<char>::empty())
    } else if list.len() == 1 {
        fn_arg_tr(list[0], kind, fname, cat)
    } else {
        match args_tr(list.drop_last(), kind, fname, cat) {
            Result::Ok(p) => match fn_arg_tr(list.last(), kind, fname, cat) {
                Result::Ok(q) => Result::Ok(p + ","@ + q),
                Result::Err(er) => Result::Err(er),
            },
            Result::Err(er) => Result::Err(er),
        }
    }
}

/// The translation of one function argument; a named argument renders as
/// `name=value`.
pub open spec fn fn_arg_tr(
    a: FunctionArg,
    kind: Seq<char>,
    fname: Option<Seq<char>>,
    cat: Catalog,
) -> Result<Seq<char>, CompileError>
    decreases a,
{
    match a {
        FunctionArg::Named { name, arg } => match fn_arg_expr_tr(arg, kind, fname, cat) {
            Result::Ok(s) => Result::Ok(name@ + "="@ + s),
            Result::Err(er) => Result::Err(er),
        },
        FunctionArg::Unnamed(ae) => fn_arg_expr_tr(ae, kind, fname, cat),
    }
}

/// The translation of one argument position: an expression recursively, a
/// wildcard as `*`, a qualified wildcard as a hard error.
pub open spec fn fn_arg_expr_tr(
    ae: FunctionArgExpr,
    kind: Seq<char>,
    fname: Option<Seq<char>>,
    cat: Catalog,
) -> Result<Seq<char>, CompileError>
    decreases ae,
{
    match ae {
        FunctionArgExpr::Argument(e) => expr_tr(e, kind, fname, cat),
        FunctionArgExpr::Wildcard => Result::Ok("*"@),
        FunctionArgExpr::QualifiedWildcard => Result::Err(
            CompileError::QualifiedWildcardNotSupported,
        ),
    }
}

fn translate_compound(
    parts: &Vec<String>,
    kind: &str,
    fname: Option<&String>,
    catalog: &Catalog,
) -> (r: Result<String, CompileError>)
    ensures
        str_res_matches(r, compound_tr(parts.deep_view(), kind@, opt_str_view(fname), *catalog)),
{
    let ghost pv = parts.deep_view();
    let is_args = parts.len() >= 1 && str_eq(parts[0].as_str(), "args") && str_eq(kind, "kprobe");
    proof {
        if parts.len() >= 1 {
            assert(pv[0] == parts@[0]@);
        }
    }
    if is_args {
        if parts.len() < 2 {
            return Result::Err(CompileError::NoMatchingArgument);
        }
        proof {
            assert(pv[1] == parts@[1]@);
        }
        match fname {
            Option::None => Result::Err(CompileError::UnknownFunction),
            Option::Some(f) => match catalog.lookup(f.as_str()) {
                Option::None => Result::Err(CompileError::UnknownFunction),
                Option::Some(sig) => match crate::resolve::resolve_in_signature(
                    sig.as_str(),
                    parts[1].as_str(),
                ) {
                    Option::Some(p) => {
                        let (ty, ix) = p;
                        let mut s = String::new();
                        s.append("((");
                        s.append(ty.as_str());
                        s.append(")arg");
                        let d = u64_to_dec(ix as u64);
                        s.append(d.as_str());
                        s.append(")");
                        proof {
                            assert(s@ =~= "(("@ + ty@ + ")arg"@ + dec_rep(ix as nat) + ")"@);
                        }
                        Result::Ok(s)
                    },
                    Option::None => Result::Err(CompileError::NoMatchingArgument),
                },
            },
        }
    } else {
        Result::Ok(join_strings(parts, '.'))
    }
}

/// Translates one expression; the result text is exactly `expr_tr` of it.
pub fn translate_expr(
    e: &Expr,
    kind: &str,
    fname: Option<&String>,
    catalog: &Catalog,
) -> (r: Result<String, CompileError>)
    ensures
        str_res_matches(r, expr_tr(*e, kind@, opt_str_view(fname), *catalog)),
    decreases *e,
{
    match e {
        Expr::Identifier(s) => Result::Ok(s.clone()),
        Expr::Wildcard => Result::Ok("*".to_owned()),
        Expr::Literal(l) => match l {
            Literal::SingleQuoted(s) => {
                let mut out = "\"".to_owned();
                out.append(s.as_str());
                out.append("\"");
                Result::Ok(out)
            },
            Literal::Verbatim(s) => Result::Ok(s.clone()),
        },
        Expr::BinaryOp { left, op, right } => {
            let lt = match translate_expr(left, kind, fname, catalog) {
                Result::Ok(t) => t,
                Result::Err(er) => {
                    return Result::Err(er);
                },
            };
            let rt = match translate_expr(right, kind, fname, catalog) {
                Result::Ok(t) => t,
                Result::Err(er) => {
                    return Result::Err(er);
                },
            };
            let mut out = lt;
            out.append(" ");
            if str_eq(op.as_str(), "=") {
                out.append("==");
            } else {
                out.append(op.as_str());
            }
            out.append(" ");
            out.append(rt.as_str());
            Result::Ok(out)
        },
        Expr::FunctionCall { name, args } => match args {
            FunctionArguments::Absent => {
                let mut out = name.clone();
                out.append("()");
                Result::Ok(out)
            },
            FunctionArguments::List(list) => match translate_args(list, kind, fname, catalog) {
                Result::Ok(a) => {
                    let mut out = name.clone();
                    out.append("(");
                    out.append(a.as_str());
                    out.append(")");
                    Result::Ok(out)
                },
                Result::Err(er) => Result::Err(er),
            },
            FunctionArguments::Subquery => Result::Err(CompileError::SubqueryNotSupported),
        },
        Expr::CompoundIdentifier(parts) => translate_compound(parts, kind, fname, catalog),
        Expr::Unsupported => Result::Err(CompileError::UnsupportedExpression),
    }
}

fn translate_args(
    list: &Vec<FunctionArg>,
    kind: &str,
    fname: Option<&String>,
    catalog: &Catalog,
) -> (r: Result<String, CompileError>)
    ensures
        str_res_matches(r, args_tr(list@, kind@, opt_str_view(fname), *catalog)),
    decreases list@,
{
    let mut out = String::new();
    let mut i: usize = 0;
    while i < list.len()
        invariant
            i <= list.len(),
            args_tr(list@.take(i as int), kind@, opt_str_view(fname), *catalog) == Result::<
                Seq<char>,
                CompileError,
            >::Ok(out@),
        decreases list@.len() - i,
    {
        proof {
            assert(decreases_to!(list@ => list@[i as int]));
            assert(list@.take(i + 1 as int).drop_last() =~= list@.take(i as int));
            assert(list@.take(i + 1 as int).last() == list@[i as int]);
            assert(list@.take(i + 1 as int)[0] == list@[0]);
        }
        let piece = match translate_fn_arg(&list[i], kind, fname, catalog) {
            Result::Ok(t) => t,
            Result::Err(er) => {
                proof {
                    lemma_args_tr_prefix_err(
                        list@,
                        kind@,
                        opt_str_view(fname),
                        *catalog,
                        i + 1 as int,
                    );
                }
                return Result::Err(er);
            },
        };
        if i > 0 {
            out.append(",");
        }
        out.append(piece.as_str());
        proof {
            if i == 0 {
                assert(list@.take(1int).len() == 1);
                assert(args_tr(list@.take(1int), kind@, opt_str_view(fname), *catalog)
                    == fn_arg_tr(list@[0], kind@, opt_str_view(fname), *catalog));
            }
        }
        i = i + 1;
    }
    proof {
        assert(list@.take(list@.len() as int) =~= list@);
    }
    Result::Ok(out)
}

/// A failing prefix decides the whole argument list's error.
proof fn lemma_args_tr_prefix_err(
    list: Seq<FunctionArg>,
    kind: Seq<char>,
    fname: Option<Seq<char>>,
    cat: Catalog,
    i: int,
)
    requires
        0 <= i <= list.len(),
        args_tr(list.take(i), kind, fname, cat) is Err,
    ensures
        args_tr(list, kind, fname, cat) == args_tr(list.take(i), kind, fname, cat),
    decreases list.len() - i,
{
    if i == list.len() {
        assert(list.take(i) =~= list);
    } else {
        assert(list.take(i + 1).drop_last() =~= list.take(i));
        assert(list.take(i + 1).len() == i + 1);
        if i == 0 {
            assert(list.take(0).len() == 0);
            assert(args_tr(list.take(0), kind, fname, cat) is Ok);
            assert(false);
        }
        assert(args_tr(list.take(i + 1), kind, fname, cat) == args_tr(
            list.take(i),
            kind,
            fname,
            cat,
        ));
        lemma_args_tr_prefix_err(list, kind, fname, cat, i + 1);
    }
}

fn translate_fn_arg(
    a: &FunctionArg,
    kind: &str,
    fname: Option<&String>,
    catalog: &Catalog,
) -> (r: Result<String, CompileError>)
    ensures
        str_res_matches(r, fn_arg_tr(*a, kind@, opt_str_view(fname), *catalog)),
    decreases *a,
{
    match a {
        FunctionArg::Named { name, arg } => match translate_fn_arg_expr(arg, kind, fname, catalog) {
            Result::Ok(s) => {
                let mut out = name.clone();
                out.append("=");
                out.append(s.as_str());
                Result::Ok(out)
            },
            Result::Err(er) => Result::Err(er),
        },
        FunctionArg::Unnamed(ae) => translate_fn_arg_expr(ae, kind, fname, catalog),
    }
}

fn translate_fn_arg_expr(
    ae: &FunctionArgExpr,
    kind: &str,
    fname: Option<&String>,
    catalog: &Catalog,
) -> (r: Result<String, CompileError>)
    ensures
        str_res_matches(r, fn_arg_expr_tr(*ae, kind@, opt_str_view(fname), *catalog)),
    decreases *ae,
{
    match ae {
        FunctionArgExpr::Argument(e) => translate_expr(e, kind, fname, catalog),
        FunctionArgExpr::Wildcard => Result::Ok("*".to_owned()),
        FunctionArgExpr::QualifiedWildcard => Result::Err(
            CompileError::QualifiedWildcardNotSupported,
        ),
    }
}

/// The view of an optional owned string.
pub open spec fn opt_string_view(o: Option<String>) -> Option<Seq<char>> {
    match o {
        Option::Some(s) => Option::Some(s@),
        Option::None => Option::None,
    }
}

/// The dot-separated name parts of the first FROM source (empty for a
/// source that is not a plain table).
pub open spec fn first_table_name(from: Seq<TableSource>) -> Seq<Seq<char>> {
    match from[0] {
        TableSource::Table { name } => name.deep_view(),
        TableSource::Other => Seq::empty(),
    }
}

/// The FROM clause is acceptable: absent, or one plain table-like source
/// with at least one name part.
pub open spec fn from_ok(from: Seq<TableSource>) -> bool {
    from.len() == 0 || (from[0] is Table && first_table_name(from).len() >= 1)
}

/// The probe header text: the name parts joined with `:`, or the `BEGIN`
/// sentinel when no FROM source is present.
pub open spec fn probe_of_from(from: Seq<TableSource>) -> Seq<char> {
    if from.len() == 0 {
        "BEGIN"@
    } else {
        join_char(first_table_name(from), ':')
    }
}

/// The probe kind: the first name part (empty for the sentinel).
pub open spec fn kind_of_from(from: Seq<TableSource>) -> Seq<char> {
    if from.len() == 0 {
        Seq::empty()
    } else {
        first_table_name(from)[0]
    }
}

/// The probed function name: the second name part, when there is one.
pub open spec fn fname_of_from(from: Seq<TableSource>) -> Option<Seq<char>> {
    if from.len() > 0 && first_table_name(from).len() >= 2 {
        Option::Some(first_table_name(from)[1])
    } else {
        Option::None
    }
}

/// The probe target derived from the FROM clause: the rendered header
/// text, the probe kind, the probed function name, and whether the query
/// is one-shot (no probe source).
pub struct ProbeTarget {
    pub text: String,
    pub kind: String,
    pub fn_name: Option<String>,
    pub one_shot: bool,
}

/// Derives the probe target; fails exactly when the FROM clause names
/// something other than a plain table.
pub fn derive_probe_target(from: &Vec<TableSource>) -> (r: Result<ProbeTarget, CompileError>)
    ensures
        match r {
            Result::Ok(t) => from_ok(from@) && t.text@ == probe_of_from(from@) && t.kind@
                == kind_of_from(from@) && opt_string_view(t.fn_name) == fname_of_from(from@)
                && t.one_shot == (from@.len() == 0),
            Result::Err(e) => !from_ok(from@) && e == CompileError::ExpectedTable,
        },
{
    if from.len() == 0 {
        Result::Ok(
            ProbeTarget {
                text: "BEGIN".to_owned(),
                kind: String::new(),
                fn_name: Option::None,
                one_shot: true,
            },
        )
    } else {
        match &from[0] {
            TableSource::Table { name } => {
                if name.len() == 0 {
                    return Result::Err(CompileError::ExpectedTable);
                }
                proof {
                    assert(first_table_name(from@) == name.deep_view());
                    assert(name.deep_view()[0] == name@[0]@);
                }
                let text = join_strings(name, ':');
                let kind = name[0].clone();
                let fn_name: Option<String> = if name.len() >= 2 {
                    proof {
                        assert(name.deep_view()[1] == name@[1]@);
                    }
                    Option::Some(name[1].clone())
                } else {
                    Option::None
                };
                Result::Ok(ProbeTarget { text, kind, fn_name, one_shot: false })
            },
            TableSource::Other => Result::Err(CompileError::ExpectedTable),
        }
    }
}

/// The four identity columns a wildcard projection expands to.
pub open spec fn wild4() -> Seq<Seq<char>> {
    seq!["comm"@, "pid"@, "cpu"@, "elapsed"@]
}

/// The headers and output expressions one projection item contributes.
pub open spec fn item_tr(
    it: SelectItem,
    kind: Seq<char>,
    fname: Option<Seq<char>>,
    cat: Catalog,
) -> Result<(Seq<Seq<char>>, Seq<Seq<char>>), CompileError> {
    match it {
        SelectItem::Unnamed { expr, text } => match expr_tr(expr, kind, fname, cat) {
            Result::Ok(o) => Result::Ok((seq![text@], seq![o])),
            Result::Err(er) => Result::Err(er),
        },
        SelectItem::Aliased { expr, alias } => match expr_tr(expr, kind, fname, cat) {
            Result::Ok(o) => Result::Ok((seq![alias@], seq![o])),
            Result::Err(er) => Result::Err(er),
        },
        SelectItem::Wildcard => Result::Ok((wild4(), wild4())),
        SelectItem::Unsupported => Result::Err(CompileError::UnsupportedProjection),
    }
}

/// The headers and output expressions of a whole select list, in item
/// order; the earliest failing item decides the error.
pub open spec fn proj_tr(
    items: Seq<SelectItem>,
    kind: Seq<char>,
    fname: Option<Seq<char>>,
    cat: Catalog,
) -> Result<(Seq<Seq<char>>, Seq<Seq<char>>), CompileError>
    decreases items.len(),
{
    if items.len() == 0 {
        Result::Ok((Seq::empty(), Seq::empty()))
    } else {
        match proj_tr(items.drop_last(), kind, fname, cat) {
            Result::Ok(ho) => match item_tr(items.last(), kind, fname, cat) {
                Result::Ok(io) => Result::Ok((ho.0 + io.0, ho.1 + io.1)),
                Result::Err(er) => Result::Err(er),
            },
            Result::Err(er) => Result::Err(er),
        }
    }
}

/// A failing prefix decides the whole select list's error.
proof fn lemma_proj_tr_prefix_err(
    items: Seq<SelectItem>,
    kind: Seq<char>,
    fname: Option<Seq<char>>,
    cat: Catalog,
    i: int,
)
    requires
        0 <= i <= items.len(),
        proj_tr(items.take(i), kind, fname, cat) is Err,
    ensures
        proj_tr(items, kind, fname, cat) == proj_tr(items.take(i), kind, fname, cat),
    decreases items.len() - i,
{
    if i == items.len() {
        assert(items.take(i) =~= items);
    } else {
        assert(items.take(i + 1).drop_last() =~= items.take(i));
        if i == 0 {
            assert(proj_tr(items.take(0), kind, fname, cat) is Ok);
            assert(false);
        }
        lemma_proj_tr_prefix_err(items, kind, fname, cat, i + 1);
    }
}

fn push_string(v: &mut Vec<String>, s: String)
    ensures
        final(v).deep_view() == old(v).deep_view().push(s@),
{
    let ghost v_old = *v;
    let ghost s_view = s@;
    v.push(s);
    proof {
        crate::textutil::lemma_vec_push_deep_view(v_old, *v, s);
        assert(v.deep_view() =~= v_old.deep_view().push(s_view));
    }
}

fn push_wild(v: &mut Vec<String>)
    ensures
        final(v).deep_view() == old(v).deep_view() + wild4(),
{
    push_string(v, "comm".to_owned());
    push_string(v, "pid".to_owned());
    push_string(v, "cpu".to_owned());
    push_string(v, "elapsed".to_owned());
    proof {
        assert(v.deep_view() =~= old(v).deep_view() + wild4());
    }
}

fn compile_projections(
    items: &Vec<SelectItem>,
    kind: &str,
    fname: Option<&String>,
    catalog: &Catalog,
) -> (r: Result<(Vec<String>, Vec<String>), CompileError>)
    ensures
        match r {
            Result::Ok(p) => proj_tr(items@, kind@, opt_str_view(fname), *catalog) == Result::<
                (Seq<Seq<char>>, Seq<Seq<char>>),
                CompileError,
            >::Ok((p.0.deep_view(), p.1.deep_view())),
            Result::Err(e) => proj_tr(items@, kind@, opt_str_view(fname), *catalog)
                == Result::<(Seq<Seq<char>>, Seq<Seq<char>>), CompileError>::Err(e),
        },
{
    let ghost k = kind@;
    let ghost f = opt_str_view(fname);
    let ghost c = *catalog;
    let mut headers: Vec<String> = Vec::new();
    let mut outputs: Vec<String> = Vec::new();
    let mut i: usize = 0;
    proof {
        assert(items@.take(0) =~= Seq::<SelectItem>::empty());
        assert(headers.deep_view() =~= Seq::<Seq<char>>::empty());
        assert(outputs.deep_view() =~= Seq::<Seq<char>>::empty());
    }
    while i < items.len()
        invariant
            i <= items.len(),
            k == kind@,
            f == opt_str_view(fname),
            c == *catalog,
            proj_tr(items@.take(i as int), k, f, c) == Result::<
                (Seq<Seq<char>>, Seq<Seq<char>>),
                CompileError,
            >::Ok((headers.deep_view(), outputs.deep_view())),
        decreases items.len() - i,
    {
        proof {
            assert(items@.take(i + 1 as int).drop_last() =~= items@.take(i as int));
            assert(items@.take(i + 1 as int).last() == items@[i as int]);
        }
        let ghost hs_before = headers.deep_view();
        let ghost os_before = outputs.deep_view();
        match &items[i] {
            SelectItem::Unnamed { expr, text } => {
                match translate_expr(expr, kind, fname, catalog) {
                    Result::Ok(o) => {
                        push_string(&mut headers, text.clone());
                        push_string(&mut outputs, o);
                        proof {
                            assert(headers.deep_view() =~= hs_before + seq![text@]);
                            assert(outputs.deep_view() =~= os_before + (match item_tr(
                                items@[i as int],
                                k,
                                f,
                                c,
                            ) {
                                Result::Ok(io) => io.1,
                                Result::Err(_) => Seq::empty(),
                            }));
                        }
                    },
                    Result::Err(er) => {
                        proof {
                            lemma_proj_tr_prefix_err(items@, k, f, c, i + 1 as int);
                        }
                        return Result::Err(er);
                    },
                }
            },
            SelectItem::Aliased { expr, alias } => {
                match translate_expr(expr, kind, fname, catalog) {
                    Result::Ok(o) => {
                        push_string(&mut headers, alias.clone());
                        push_string(&mut outputs, o);
                        proof {
                            assert(headers.deep_view() =~= hs_before + seq![alias@]);
                            assert(outputs.deep_view() =~= os_before + (match item_tr(
                                items@[i as int],
                                k,
                                f,
                                c,
                            ) {
                                Result::Ok(io) => io.1,
                                Result::Err(_) => Seq::empty(),
                            }));
                        }
                    },
                    Result::Err(er) => {
                        proof {
                            lemma_proj_tr_prefix_err(items@, k, f, c, i + 1 as int);
                        }
                        return Result::Err(er);
                    },
                }
            },
            SelectItem::Wildcard => {
                push_wild(&mut headers);
                push_wild(&mut outputs);
            },
            SelectItem::Unsupported => {
                proof {
                    lemma_proj_tr_prefix_err(items@, k, f, c, i + 1 as int);
                }
                return Result::Err(CompileError::UnsupportedProjection);
            },
        }
        i = i + 1;
    }
    proof {
        assert(items@.take(items@.len() as int) =~= items@);
    }
    Result::Ok((headers, outputs))
}

/// One scratch-variable binding line: `$q1_<i> = <out>;`.
pub open spec fn binding_text(i: nat, out: Seq<char>) -> Seq<char> {
    "$q1_"@ + dec_rep(i) + " = "@ + out + ";\n"@
}

/// The scratch-variable bindings of all output expressions, in order.
pub open spec fn bindings_text(outs: Seq<Seq<char>>) -> Seq<char>
    decreases outs.len(),
{
    if outs.len() == 0 {
        Seq::empty()
    } else {
        bindings_text(outs.drop_last()) + binding_text((outs.len() - 1) as nat, outs.last())
    }
}

/// The positional print pairs `,(<i>,$q1_<i>)` for indices below `n`.
pub open spec fn print_pairs(n: nat) -> Seq<char>
    decreases n,
{
    if n == 0 {
        Seq::empty()
    } else {
        print_pairs((n - 1) as nat) + ",("@ + dec_rep((n - 1) as nat) + ",$q1_"@ + dec_rep(
            (n - 1) as nat,
        ) + ")"@
    }
}

/// The whole print statement: the `"id"` entry first, then one positional
/// entry per output column, keyed `0 .. n-1`.
pub open spec fn print_text(n: nat) -> Seq<char> {
    "print(((\"id\",@q1_id[\"id\"])"@ + print_pairs(n) + "));\n"@
}

/// The probe-local filter clause, when a WHERE predicate is present.
pub open spec fn filter_text(f: Option<Seq<char>>) -> Seq<char> {
    match f {
        Option::Some(s) => " /"@ + s + "/ "@,
        Option::None => Seq::empty(),
    }
}

/// The assembled program: probe header, optional filter, the hidden
/// invocation counter, one binding per column, the print statement, and a
/// trailing termination call for one-shot queries.
pub open spec fn program_text(
    probe: Seq<char>,
    f: Option<Seq<char>>,
    outs: Seq<Seq<char>>,
    one_shot: bool,
) -> Seq<char> {
    probe + filter_text(f) + "\n {\n"@ + "@q1_id[\"id\"] = count();\n"@ + bindings_text(outs)
        + print_text(outs.len()) + (if one_shot {
        "exit();\n"@
    } else {
        Seq::empty()
    }) + " }"@
}

/// The translation of the WHERE predicate, when present.
pub open spec fn filter_tr(
    selection: Option<Expr>,
    kind: Seq<char>,
    fname: Option<Seq<char>>,
    cat: Catalog,
) -> Result<Option<Seq<char>>, CompileError> {
    match selection {
        Option::None => Result::Ok(Option::None),
        Option::Some(e) => match expr_tr(e, kind, fname, cat) {
            Result::Ok(s) => Result::Ok(Option::Some(s)),
            Result::Err(er) => Result::Err(er),
        },
    }
}

/// What compiling a select body yields: the program text and the headers.
pub open spec fn compile_select_spec(sel: SelectBody, cat: Catalog) -> Result<
    (Seq<char>, Seq<Seq<char>>),
    CompileError,
> {
    if !from_ok(sel.from@) {
        Result::Err(CompileError::ExpectedTable)
    } else {
        let kind = kind_of_from(sel.from@);
        let fname = fname_of_from(sel.from@);
        match filter_tr(sel.selection, kind, fname, cat) {
            Result::Ok(f) => match proj_tr(sel.projection@, kind, fname, cat) {
                Result::Ok(ho) => Result::Ok(
                    (
                        program_text(probe_of_from(sel.from@), f, ho.1, sel.from@.len() == 0),
                        ho.0,
                    ),
                ),
                Result::Err(er) => Result::Err(er),
            },
            Result::Err(er) => Result::Err(er),
        }
    }
}

/// What compiling a statement yields.
pub open spec fn compile_spec(stmt: Statement, cat: Catalog) -> Result<
    (Seq<char>, Seq<Seq<char>>),
    CompileError,
> {
    match stmt {
        Statement::Query(body) => match body {
            SetExpr::Select(sel) => compile_select_spec(sel, cat),
            SetExpr::Other => Result::Err(CompileError::ExpectedSelect),
        },
        Statement::Other => Result::Err(CompileError::ExpectedQuery),
    }
}

/// Relates the executable compilation result to its specification.
pub open spec fn compile_res_matches(
    r: Result<(String, Vec<String>), CompileError>,
    m: Result<(Seq<char>, Seq<Seq<char>>), CompileError>,
) -> bool {
    match (r, m) {
        (Result::Ok(p), Result::Ok(q)) => p.0@ == q.0 && p.1.deep_view() == q.1,
        (Result::Err(a), Result::Err(b)) => a == b,
        _ => false,
    }
}

/// Compiles the first parsed statement into tracing-script source text and
/// the ordered column headers.  An empty statement list is rejected like a
/// non-query statement.
pub fn compile_ast_to_bpftrace(ast: &Vec<Statement>, catalog: &Catalog) -> (r: Result<
    (String, Vec<String>),
    CompileError,
>)
    ensures
        ast@.len() == 0 ==> r == Result::<(String, Vec<String>), CompileError>::Err(
            CompileError::ExpectedQuery,
        ),
        ast@.len() >= 1 ==> compile_res_matches(r, compile_spec(ast@[0], *catalog)),
{
    if ast.len() == 0 {
        return Result::Err(CompileError::ExpectedQuery);
    }
    let sel = match &ast[0] {
        Statement::Query(body) => match body {
            SetExpr::Select(sel) => sel,
            SetExpr::Other => {
                return Result::Err(CompileError::ExpectedSelect);
            },
        },
        Statement::Other => {
            return Result::Err(CompileError::ExpectedQuery);
        },
    };
    let target = match derive_probe_target(&sel.from) {
        Result::Ok(t) => t,
        Result::Err(er) => {
            return Result::Err(er);
        },
    };
    let fname_ref: Option<&String> = match &target.fn_name {
        Option::Some(s) => Option::Some(s),
        Option::None => Option::None,
    };
    proof {
        assert(opt_str_view(fname_ref) == opt_string_view(target.fn_name));
    }
    let ghost k = kind_of_from(sel.from@);
    let ghost fv = fname_of_from(sel.from@);
    let filter: Option<String> = match &sel.selection {
        Option::None => Option::None,
        Option::Some(e) => match translate_expr(e, target.kind.as_str(), fname_ref, catalog) {
            Result::Ok(s) => Option::Some(s),
            Result::Err(er) => {
                return Result::Err(er);
            },
        },
    };
    proof {
        assert(filter_tr(sel.selection, k, fv, *catalog) == Result::<
            Option<Seq<char>>,
            CompileError,
        >::Ok(opt_string_view(filter)));
    }
    let (headers, outputs) = match compile_projections(
        &sel.projection,
        target.kind.as_str(),
        fname_ref,
        catalog,
    ) {
        Result::Ok(p) => p,
        Result::Err(er) => {
            return Result::Err(er);
        },
    };
    let ghost ov = outputs.deep_view();
    let mut prog = target.text;
    match &filter {
        Option::Some(f) => {
            prog.append(" /");
            prog.append(f.as_str());
            prog.append("/ ");
        },
        Option::None => {},
    }
    proof {
        assert(prog@ =~= probe_of_from(sel.from@) + filter_text(opt_string_view(filter)));
    }
    let ghost base1 = prog@;
    prog.append("\n {\n");
    prog.append("@q1_id[\"id\"] = count();\n");
    let ghost base2 = prog@;
    let mut i: usize = 0;
    while i < outputs.len()
        invariant
            i <= outputs.len(),
            ov == outputs.deep_view(),
            prog@ =~= base2 + bindings_text(ov.take(i as int)),
        decreases outputs.len() - i,
    {
        prog.append("$q1_");
        let d = u64_to_dec(i as u64);
        prog.append(d.as_str());
        prog.append(" = ");
        prog.append(outputs[i].as_str());
        prog.append(";\n");
        proof {
            assert(ov.take(i + 1 as int).drop_last() =~= ov.take(i as int));
            assert(ov.take(i + 1 as int).last() == ov[i as int]);
            assert(ov[i as int] == outputs@[i as int]@);
            assert(prog@ =~= base2 + bindings_text(ov.take(i + 1 as int)));
        }
        i = i + 1;
    }
    proof {
        assert(ov.take(ov.len() as int) =~= ov);
    }
    let ghost base3 = prog@;
    prog.append("print(((\"id\",@q1_id[\"id\"])");
    let ghost base4 = prog@;
    let mut j: usize = 0;
    while j < outputs.len()
        invariant
            j <= outputs.len(),
            prog@ =~= base4 + print_pairs(j as nat),
        decreases outputs.len() - j,
    {
        prog.append(",(");
        let d = u64_to_dec(j as u64);
        prog.append(d.as_str());
        prog.append(",$q1_");
        prog.append(d.as_str());
        prog.append(")");
        proof {
            assert(prog@ =~= base4 + print_pairs((j + 1) as nat));
        }
        j = j + 1;
    }
    prog.append("));\n");
    proof {
        assert(prog@ =~= base3 + print_text(ov.len()));
    }
    if target.one_shot {
        prog.append("exit();\n");
    }
    prog.append(" }");
    proof {
        assert(prog@ =~= program_text(
            probe_of_from(sel.from@),
            opt_string_view(filter),
            ov,
            sel.from@.len() == 0,
        ));
    }
    Result::Ok((prog, headers))
}

/// The headers one projection item contributes, regardless of whether its
/// expression translates.
pub open spec fn item_headers(it: SelectItem) -> Seq<Seq<char>> {
    match it {
        SelectItem::Unnamed { expr, text } => seq![text@],
        SelectItem::Aliased { expr, alias } => seq![alias@],
        SelectItem::Wildcard => wild4(),
        SelectItem::Unsupported => Seq::empty(),
    }
}

/// The header contributions of all items, flattened in item order.
pub open spec fn flat_headers(items: Seq<SelectItem>) -> Seq<Seq<char>>
    decreases items.len(),
{
    if items.len() == 0 {
        Seq::empty()
    } else {
        flat_headers(items.drop_last()) + item_headers(items.last())
    }
}

/// Law: when a select list compiles, its headers are exactly the items'
/// header contributions flattened in item order.  A wildcard item
/// contributes exactly `comm`, `pid`, `cpu`, `elapsed` in that order, and
/// every other item keeps its relative position around the expanded four.
pub proof fn lemma_projection_headers(
    items: Seq<SelectItem>,
    kind: Seq<char>,
    fname: Option<Seq<char>>,
    cat: Catalog,
)
    requires
        proj_tr(items, kind, fname, cat) is Ok,
    ensures
        match proj_tr(items, kind, fname, cat) {
            Result::Ok(ho) => ho.0 == flat_headers(items),
            Result::Err(_) => false,
        },
        item_headers(SelectItem::Wildcard) == seq!["comm"@, "pid"@, "cpu"@, "elapsed"@],
    decreases items.len(),
{
    if items.len() == 0 {
        assert(flat_headers(items) == Seq::<Seq<char>>::empty());
    } else {
        lemma_projection_headers(items.drop_last(), kind, fname, cat);
    }
}

/// Counts: when no item is a wildcard (and none is unsupported), each item
/// contributes exactly one header and one output expression.
proof fn lemma_proj_tr_count(
    items: Seq<SelectItem>,
    kind: Seq<char>,
    fname: Option<Seq<char>>,
    cat: Catalog,
)
    requires
        proj_tr(items, kind, fname, cat) is Ok,
        forall|i: int|
            0 <= i < items.len() ==> !(items[i] is Wildcard) && !(items[i] is Unsupported),
    ensures
        match proj_tr(items, kind, fname, cat) {
            Result::Ok(ho) => ho.0.len() == items.len() && ho.1.len() == items.len(),
            Result::Err(_) => false,
        },
    decreases items.len(),
{
    if items.len() == 0 {
    } else {
        assert(forall|i: int|
            0 <= i < items.drop_last().len() ==> items.drop_last()[i] == items[i]);
        lemma_proj_tr_count(items.drop_last(), kind, fname, cat);
        assert(!(items.last() is Wildcard) && !(items.last() is Unsupported));
    }
}

/// Law: a query without a filter whose projection holds no wildcard
/// compiles to exactly one header per projection item, and its program
/// text carries the print statement `print_text(N)` for `N` columns: the
/// `"id"` key first, then the positional keys `0 .. N-1`.
pub proof fn lemma_print_statement_shape(sel: SelectBody, cat: Catalog)
    requires
        compile_select_spec(sel, cat) is Ok,
        sel.selection is None,
        forall|i: int|
            0 <= i < sel.projection@.len() ==> !(sel.projection@[i] is Wildcard) && !(
            sel.projection@[i] is Unsupported),
    ensures
        match compile_select_spec(sel, cat) {
            Result::Ok(p) => p.1.len() == sel.projection@.len() && exists|a: Seq<char>, b: Seq<char>|
                p.0 == a + print_text(sel.projection@.len() as nat) + b,
            Result::Err(_) => false,
        },
{
    let kind = kind_of_from(sel.from@);
    let fname = fname_of_from(sel.from@);
    lemma_proj_tr_count(sel.projection@, kind, fname, cat);
    match proj_tr(sel.projection@, kind, fname, cat) {
        Result::Ok(ho) => {
            let n = sel.projection@.len() as nat;
            let probe = probe_of_from(sel.from@);
            let one_shot = sel.from@.len() == 0;
            let a = probe + filter_text(Option::None) + "\n {\n"@ + "@q1_id[\"id\"] = count();\n"@
                + bindings_text(ho.1);
            let b = (if one_shot {
                "exit();\n"@
            } else {
                Seq::<char>::empty()
            }) + " }"@;
            assert(program_text(probe, Option::None, ho.1, one_shot) =~= a + print_text(n) + b);
        },
        Result::Err(_) => {
            assert(false);
        },
    }
}

/// Law: the compiled program text begins with the probe header: the FROM
/// source's name parts joined with colons, or the `BEGIN` sentinel when no
/// FROM source is present; and in the sentinel case the text ends with an
/// explicit termination call before the closing brace.
pub proof fn lemma_probe_header(sel: SelectBody, cat: Catalog)
    requires
        compile_select_spec(sel, cat) is Ok,
    ensures
        match compile_select_spec(sel, cat) {
            Result::Ok(p) => {
                &&& p.0.take(probe_of_from(sel.from@).len() as int) == probe_of_from(sel.from@)
                &&& (sel.from@.len() == 0 ==> probe_of_from(sel.from@) == "BEGIN"@ && exists|
                    a: Seq<char>,
                |
                    p.0 == a + "exit();\n }"@)
            },
            Result::Err(_) => false,
        },
{
    let kind = kind_of_from(sel.from@);
    let fname = fname_of_from(sel.from@);
    match filter_tr(sel.selection, kind, fname, cat) {
        Result::Ok(f) => {
            match proj_tr(sel.projection@, kind, fname, cat) {
                Result::Ok(ho) => {
                    let probe = probe_of_from(sel.from@);
                    let one_shot = sel.from@.len() == 0;
                    let text = program_text(probe, f, ho.1, one_shot);
                    assert(text.take(probe.len() as int) =~= probe);
                    if one_shot {
                        let a = probe + filter_text(f) + "\n {\n"@
                            + "@q1_id[\"id\"] = count();\n"@ + bindings_text(ho.1) + print_text(
                            ho.1.len(),
                        );
                        reveal_strlit("exit();\n");
                        reveal_strlit(" }");
                        reveal_strlit("exit();\n }");
                        assert("exit();\n"@ + " }"@ =~= "exit();\n }"@);
                        assert(text =~= a + "exit();\n }"@);
                    }
                },
                Result::Err(_) => {
                    assert(false);
                },
            }
        },
        Result::Err(_) => {
            assert(false);
        },
    }
}

/// Law: a binary operation translates its operands recursively and keeps
/// the operator token verbatim, with exactly one substitution: an equality
/// test written `=` is re-emitted as `==`; every other operator token
/// passes through unchanged.
pub proof fn lemma_equality_operator(
    e: Expr,
    kind: Seq<char>,
    fname: Option<Seq<char>>,
    cat: Catalog,
)
    ensures
        match e {
            Expr::BinaryOp { left, op, right } => expr_tr(e, kind, fname, cat) == (match (
                expr_tr(*left, kind, fname, cat),
                expr_tr(*right, kind, fname, cat),
            ) {
                (Result::Ok(lt), Result::Ok(rt)) => Result::<Seq<char>, CompileError>::Ok(
                    lt + " "@ + (if op@ == "="@ {
                        "=="@
                    } else {
                        op@
                    }) + " "@ + rt,
                ),
                (Result::Err(el), _) => Result::Err(el),
                (_, Result::Err(er)) => Result::Err(er),
            }),
            _ => true,
        },
{
}

} // verus!
