//! Inference of placeholder (input) and projection (output) types.
use vstd::prelude::*;
use crate::ast::{Expr, FunctionArg, Query, Select, SelectItem, Statement, TableFactor};
use crate::schema::{column_type, lookup, ColumnsModel, Schema, SchemaModel};
use crate::types::{DataType, Error};

verus! {

/// The inputs an expression produces and the type of its value.
pub type ExprSig = (Seq<DataType>, DataType);

/// A statement's input types, in discovery order, and output types, in projection order.
pub type Signature = (Seq<DataType>, Seq<DataType>);

/// The tables an unqualified column name is looked up in.
pub enum Scope {
    /// A single table: the target of an INSERT.
    Named(String),
    /// The FROM item of a SELECT: its first table and the tables joined to it.
    Relational { primary: String, joined: Vec<String> },
}

impl Scope {
    /// The table names in search order: joined tables in listed order, then the primary one.
    pub open spec fn order(&self) -> Seq<Seq<char>> {
        match self {
            Scope::Named(t) => seq![t@],
            Scope::Relational { primary, joined } => joined@.map_values(|j: String| j@).push(
                primary@,
            ),
        }
    }
}

/// The type of unqualified column `c`: the first table of `order` that defines it
/// wins; a table that the schema lacks fails the search when it is reached.
pub open spec fn search(order: Seq<Seq<char>>, c: Seq<char>, s: SchemaModel) -> Result<
    DataType,
    Error,
>
    decreases order.len(),
{
    if order.len() == 0 {
        Err(Error::UnknownColumn)
    } else if !s.contains_key(order[0]) {
        Err(Error::UnknownTable)
    } else {
        match column_type(s[order[0]], c) {
            Some(t) => Ok(t),
            None => search(order.drop_first(), c, s),
        }
    }
}

/// The aggregate functions that keep their argument's type.
pub open spec fn is_min_max(name: Seq<char>) -> bool {
    name == "MAX"@ || name == "MIN"@
}

/// The inputs that a binary operation infers for its bare placeholder operands:
/// a placeholder on the right takes the left side's type, then one on the left
/// takes the right side's type.
pub open spec fn operand_inputs(left: Expr, right: Expr, lt: DataType, rt: DataType) -> Seq<
    DataType,
> {
    (if right is Placeholder {
        seq![lt]
    } else {
        Seq::empty()
    }) + (if left is Placeholder {
        seq![rt]
    } else {
        Seq::empty()
    })
}

/// What inference gives for expression `e` under the tables `order`.
pub open spec fn expr_sig(e: Expr, order: Seq<Seq<char>>, s: SchemaModel) -> Result<ExprSig, Error>
    decreases e,
{
    match e {
        Expr::Identifier(c) => match search(order, c@, s) {
            Ok(t) => Ok((Seq::empty(), t)),
            Err(x) => Err(x),
        },
        Expr::CompoundIdentifier(parts) => if parts@.len() == 2 {
            match lookup(s, parts@[0]@, parts@[1]@) {
                Ok(t) => Ok((Seq::empty(), t)),
                Err(x) => Err(x),
            }
        } else {
            Err(Error::UnsupportedExpression)
        },
        Expr::Placeholder => Ok((Seq::empty(), DataType::Null)),
        Expr::Subquery(q) => match query_sig(*q, s) {
            Err(x) => Err(x),
            Ok(sig) => if sig.1.len() == 0 {
                Err(Error::EmptySubqueryResult)
            } else {
                Ok((sig.0, sig.1[0]))
            },
        },
        Expr::BinaryOp { left, right } => match expr_sig(*left, order, s) {
            Err(x) => Err(x),
            Ok(l) => match expr_sig(*right, order, s) {
                Err(x) => Err(x),
                Ok(r) => Ok(
                    (operand_inputs(*left, *right, l.1, r.1) + l.0 + r.0, DataType::Integer),
                ),
            },
        },
        Expr::Function { name, args } => if is_min_max(name@) && args.len() == 1
            && args[0] is Unnamed {
            expr_sig(args[0]->Unnamed_0, order, s)
        } else {
            Err(Error::UnsupportedExpression)
        },
        Expr::Literal => Err(Error::UnsupportedExpression),
        Expr::Other => Err(Error::UnsupportedExpression),
    }
}

/// The search order of a SELECT: it has exactly one FROM item, and that item
/// and all its joins are named tables.
pub open spec fn select_order(sel: Select) -> Result<Seq<Seq<char>>, Error> {
    if sel.from@.len() != 1 {
        Err(Error::UnsupportedStatement)
    } else {
        match sel.from@[0].relation {
            TableFactor::Table(p) => if forall|i: int|
                0 <= i < sel.from@[0].joins@.len() ==> #[trigger] sel.from@[0].joins@[i] is Table {
                Ok(sel.from@[0].joins@.map_values(|j: TableFactor| j->Table_0@).push(p@))
            } else {
                Err(Error::UnsupportedStatement)
            },
            TableFactor::Other => Err(Error::UnsupportedStatement),
        }
    }
}

/// The inputs and outputs of a projection list, item by item.
pub open spec fn items_sig(items: Seq<SelectItem>, order: Seq<Seq<char>>, s: SchemaModel) -> Result<
    Signature,
    Error,
>
    decreases items,
{
    if items.len() == 0 {
        Ok((Seq::empty(), Seq::empty()))
    } else {
        match items_sig(items.drop_last(), order, s) {
            Err(x) => Err(x),
            Ok(p) => match items.last() {
                SelectItem::UnnamedExpr(e) => match expr_sig(e, order, s) {
                    Err(x) => Err(x),
                    Ok(es) => Ok((p.0 + es.0, p.1.push(es.1))),
                },
                _ => Err(Error::UnsupportedExpression),
            },
        }
    }
}

/// What inference gives for a query: a SELECT's projection inputs then its
/// WHERE inputs, and its projection types.
pub open spec fn query_sig(q: Query, s: SchemaModel) -> Result<Signature, Error>
    decreases q,
{
    match q {
        Query::Select(sel) => match select_order(sel) {
            Err(x) => Err(x),
            Ok(order) => match items_sig(sel.projection@, order, s) {
                Err(x) => Err(x),
                Ok(p) => match sel.selection {
                    None => Ok(p),
                    Some(w) => match expr_sig(w, order, s) {
                        Err(x) => Err(x),
                        Ok(ws) => Ok((p.0 + ws.0, p.1)),
                    },
                },
            },
        },
        _ => Err(Error::UnsupportedStatement),
    }
}

/// The inputs of the first `n` (column, value) pairs of an INSERT into `t`:
/// a bare placeholder takes its column's declared type; any other value
/// contributes the inputs found inside it.
pub open spec fn insert_inputs(
    t: Seq<char>,
    cols: Seq<String>,
    vals: Seq<Expr>,
    n: nat,
    s: SchemaModel,
) -> Result<Seq<DataType>, Error>
    decreases n,
{
    if n == 0 {
        Ok(Seq::empty())
    } else {
        match insert_inputs(t, cols, vals, (n - 1) as nat, s) {
            Err(x) => Err(x),
            Ok(p) => if vals[n - 1] is Placeholder {
                match lookup(s, t, cols[n - 1]@) {
                    Ok(ty) => Ok(p.push(ty)),
                    Err(x) => Err(x),
                }
            } else {
                match expr_sig(vals[n - 1], seq![t], s) {
                    Ok(es) => Ok(p + es.0),
                    Err(x) => Err(x),
                }
            },
        }
    }
}

/// Whether every name in `cols` is a column of the table with columns `tcols`.
pub open spec fn columns_known(tcols: ColumnsModel, cols: Seq<String>) -> bool {
    forall|i: int| 0 <= i < cols.len() ==> #[trigger] column_type(tcols, cols[i]@) is Some
}

/// What inference gives for a statement: a query, or an INSERT whose source
/// is VALUES. The INSERT's first row must hold one value per listed column,
/// and its target table and every listed column must exist.
pub open spec fn statement_sig(st: Statement, s: SchemaModel) -> Result<Signature, Error> {
    match st {
        Statement::Query(q) => query_sig(q, s),
        Statement::Insert { table_name, columns, source } => match source {
            Query::Values(rows) => if rows@.len() == 0 {
                Err(Error::UnsupportedStatement)
            } else {
                if columns@.len() != rows@[0]@.len() {
                    Err(Error::UnsupportedStatement)
                } else if !s.contains_key(table_name@) {
                    Err(Error::UnknownTable)
                } else if !columns_known(s[table_name@], columns@) {
                    Err(Error::UnknownColumn)
                } else {
                    match insert_inputs(table_name@, columns@, rows@[0]@, columns@.len(), s) {
                        Ok(i) => Ok((i, Seq::empty())),
                        Err(x) => Err(x),
                    }
                }
            },
            _ => Err(Error::UnsupportedStatement),
        },
        _ => Err(Error::UnsupportedStatement),
    }
}

/// An expression's inference result, as its model.
pub open spec fn expr_result_view(r: Result<(Vec<DataType>, DataType), Error>) -> Result<
    ExprSig,
    Error,
> {
    match r {
        Ok(v) => Ok((v.0@, v.1)),
        Err(x) => Err(x),
    }
}

/// A statement's inference result, as its model.
pub open spec fn sig_result_view(r: Result<(Vec<DataType>, Vec<DataType>), Error>) -> Result<
    Signature,
    Error,
> {
    match r {
        Ok(v) => Ok((v.0@, v.1@)),
        Err(x) => Err(x),
    }
}

/// Whether `e` is a bare placeholder.
pub fn is_placeholder(e: &Expr) -> (r: bool)
    ensures
        r == (*e is Placeholder),
{
    match e {
        Expr::Placeholder => true,
        _ => false,
    }
}

/// Whether `name` is `MAX` or `MIN`.
fn is_min_max_name(name: &String) -> (r: bool)
    ensures
        r == is_min_max(name@),
{
    let max = String::from_str("MAX");
    let min = String::from_str("MIN");
    *name == max || *name == min
}

/// Resolves the unqualified column name `c` in `scope`.
pub fn resolve(c: &String, scope: &Scope, schema: &Schema) -> (r: Result<DataType, Error>)
    ensures
        r == search(scope.order(), c@, schema@),
{
    match scope {
        Scope::Named(t) => {
            proof {
                assert(seq![t@].drop_first() =~= Seq::<Seq<char>>::empty());
                assert(search(Seq::empty(), c@, schema@) == Err::<DataType, Error>(
                    Error::UnknownColumn,
                ));
            }
            schema.lookup(t, c)
        },
        Scope::Relational { primary, joined } => {
            let ghost order = joined@.map_values(|j: String| j@).push(primary@);
            let mut i: usize = 0;
            proof {
                assert(order.subrange(0, order.len() as int) =~= order);
            }
            while i < joined.len()
                invariant
                    i <= joined.len(),
                    order == scope.order(),
                    order == joined@.map_values(|j: String| j@).push(primary@),
                    order.len() == joined.len() + 1,
                    search(order.subrange(i as int, order.len() as int), c@, schema@) == search(
                        order,
                        c@,
                        schema@,
                    ),
                decreases joined.len() - i,
            {
                let ghost rest = order.subrange(i as int, order.len() as int);
                proof {
                    assert(rest.drop_first() =~= order.subrange(i + 1, order.len() as int));
                    assert(rest[0] == joined@[i as int]@);
                }
                match schema.lookup(&joined[i], c) {
                    Ok(t) => {
                        return Ok(t);
                    },
                    Err(Error::UnknownTable) => {
                        return Err(Error::UnknownTable);
                    },
                    Err(_) => {},
                }
                i = i + 1;
            }
            proof {
                let rest = order.subrange(i as int, order.len() as int);
                assert(rest.drop_first() =~= Seq::<Seq<char>>::empty());
                assert(rest[0] == primary@);
            }
            schema.lookup(primary, c)
        },
    }
}

/// Builds the scope of a SELECT from its single FROM item.
fn select_scope(sel: &Select) -> (r: Result<Scope, Error>)
    ensures
        match r {
            Ok(sc) => select_order(*sel) == Ok::<Seq<Seq<char>>, Error>(sc.order()),
            Err(x) => select_order(*sel) == Err::<Seq<Seq<char>>, Error>(x),
        },
{
    if sel.from.len() != 1 {
        return Err(Error::UnsupportedStatement);
    }
    let f = &sel.from[0];
    match &f.relation {
        TableFactor::Other => Err(Error::UnsupportedStatement),
        TableFactor::Table(p) => {
            let mut joined: Vec<String> = Vec::new();
            let mut i: usize = 0;
            while i < f.joins.len()
                invariant
                    i <= f.joins.len(),
                    sel.from@.len() == 1,
                    *f == sel.from@[0],
                    joined@.len() == i,
                    forall|k: int|
                        0 <= k < i ==> #[trigger] f.joins@[k] is Table && joined@[k]@
                            == f.joins@[k]->Table_0@,
                decreases f.joins.len() - i,
            {
                match &f.joins[i] {
                    TableFactor::Table(t) => {
                        joined.push(t.clone());
                    },
                    TableFactor::Other => {
                        proof {
                            assert(!(sel.from@[0].joins@[i as int] is Table));
                        }
                        return Err(Error::UnsupportedStatement);
                    },
                }
                i = i + 1;
            }
            proof {
                assert(joined@.map_values(|j: String| j@) =~= f.joins@.map_values(
                    |j: TableFactor| j->Table_0@,
                ));
            }
            Ok(Scope::Relational { primary: p.clone(), joined })
        },
    }
}

/// Once a prefix of a projection list fails, the whole list fails the same way.
pub proof fn lemma_items_prefix_err(
    items: Seq<SelectItem>,
    i: int,
    order: Seq<Seq<char>>,
    s: SchemaModel,
)
    requires
        0 <= i <= items.len(),
        items_sig(items.take(i), order, s) is Err,
    ensures
        items_sig(items, order, s) == items_sig(items.take(i), order, s),
    decreases items.len(),
{
    if i < items.len() {
        assert(items.drop_last().take(i) =~= items.take(i));
        lemma_items_prefix_err(items.drop_last(), i, order, s);
    } else {
        assert(items.take(i) =~= items);
    }
}

/// Infers the inputs and the result type of expression `e` in `scope`.
pub fn infer_expr(e: &Expr, scope: &Scope, schema: &Schema) -> (r: Result<
    (Vec<DataType>, DataType),
    Error,
>)
    ensures
        expr_result_view(r) == expr_sig(*e, scope.order(), schema@),
    decreases e,
{
    match e {
        Expr::Identifier(c) => match resolve(c, scope, schema) {
            Ok(t) => Ok((Vec::new(), t)),
            Err(x) => Err(x),
        },
        Expr::CompoundIdentifier(parts) => {
            if parts.len() == 2 {
                match schema.lookup(&parts[0], &parts[1]) {
                    Ok(t) => Ok((Vec::new(), t)),
                    Err(x) => Err(x),
                }
            } else {
                Err(Error::UnsupportedExpression)
            }
        },
        Expr::Placeholder => Ok((Vec::new(), DataType::Null)),
        Expr::Subquery(q) => match query_types(q, schema) {
            Err(x) => Err(x),
            Ok((ins, outs)) => {
                if outs.len() == 0 {
                    Err(Error::EmptySubqueryResult)
                } else {
                    let t = outs[0];
                    Ok((ins, t))
                }
            },
        },
        Expr::BinaryOp { left, right } => {
            let (mut li, lt) = match infer_expr(left, scope, schema) {
                Ok(l) => l,
                Err(x) => {
                    return Err(x);
                },
            };
            let (mut ri, rt) = match infer_expr(right, scope, schema) {
                Ok(r) => r,
                Err(x) => {
                    return Err(x);
                },
            };
            let mut ins: Vec<DataType> = Vec::new();
            if is_placeholder(right) {
                ins.push(lt);
            }
            if is_placeholder(left) {
                ins.push(rt);
            }
            proof {
                assert(ins@ =~= operand_inputs(**left, **right, lt, rt));
            }
            ins.append(&mut li);
            ins.append(&mut ri);
            Ok((ins, DataType::Integer))
        },
        Expr::Function { name, args } => {
            if is_min_max_name(name) && args.len() == 1 {
                match &args[0] {
                    FunctionArg::Unnamed(a) => infer_expr(a, scope, schema),
                    _ => Err(Error::UnsupportedExpression),
                }
            } else {
                Err(Error::UnsupportedExpression)
            }
        },
        Expr::Literal => Err(Error::UnsupportedExpression),
        Expr::Other => Err(Error::UnsupportedExpression),
    }
}

/// Infers the signature of a query: only a SELECT is supported.
pub fn query_types(q: &Query, schema: &Schema) -> (r: Result<
    (Vec<DataType>, Vec<DataType>),
    Error,
>)
    ensures
        sig_result_view(r) == query_sig(*q, schema@),
    decreases q,
{
    match q {
        Query::Select(sel) => {
            let scope = match select_scope(sel) {
                Ok(sc) => sc,
                Err(x) => {
                    return Err(x);
                },
            };
            let ghost order = scope.order();
            let ghost items = sel.projection@;
            let mut ins: Vec<DataType> = Vec::new();
            let mut outs: Vec<DataType> = Vec::new();
            let mut i: usize = 0;
            proof {
                assert(items.take(0) =~= Seq::<SelectItem>::empty());
            }
            while i < sel.projection.len()
                invariant
                    i <= sel.projection.len(),
                    items == sel.projection@,
                    *q == Query::Select(*sel),
                    order == scope.order(),
                    select_order(*sel) == Ok::<Seq<Seq<char>>, Error>(order),
                    items_sig(items.take(i as int), order, schema@) == Ok::<Signature, Error>(
                        (ins@, outs@),
                    ),
                decreases sel.projection.len() - i,
            {
                proof {
                    assert(items.take(i + 1).drop_last() =~= items.take(i as int));
                    assert(items.take(i + 1).last() == items[i as int]);
                }
                match &sel.projection[i] {
                    SelectItem::UnnamedExpr(e) => match {
                        proof {
                            assert(decreases_to!(sel.projection => sel.projection[i as int]));
                            assert(decreases_to!(*q => *e));
                        }
                        infer_expr(e, &scope, schema)
                    } {
                        Err(x) => {
                            proof {
                                lemma_items_prefix_err(items, i + 1, order, schema@);
                            }
                            return Err(x);
                        },
                        Ok((mut ei, et)) => {
                            ins.append(&mut ei);
                            outs.push(et);
                        },
                    },
                    _ => {
                        proof {
                            assert(items_sig(items.take(i + 1), order, schema@) is Err);
                            lemma_items_prefix_err(items, i + 1, order, schema@);
                        }
                        return Err(Error::UnsupportedExpression);
                    },
                }
                i = i + 1;
            }
            proof {
                assert(items.take(i as int) =~= items);
            }
            match &sel.selection {
                None => Ok((ins, outs)),
                Some(w) => match infer_expr(w, &scope, schema) {
                    Err(x) => Err(x),
                    Ok((mut wi, _)) => {
                        ins.append(&mut wi);
                        Ok((ins, outs))
                    },
                },
            }
        },
        _ => Err(Error::UnsupportedStatement),
    }
}

proof fn lemma_insert_prefix_err(
    t: Seq<char>,
    cols: Seq<String>,
    vals: Seq<Expr>,
    i: nat,
    n: nat,
    s: SchemaModel,
)
    requires
        i <= n,
        insert_inputs(t, cols, vals, i, s) is Err,
    ensures
        insert_inputs(t, cols, vals, n, s) == insert_inputs(t, cols, vals, i, s),
    decreases n,
{
    if i < n {
        lemma_insert_prefix_err(t, cols, vals, i, (n - 1) as nat, s);
    }
}

/// Infers the input and output types of one statement against `def`:
/// a SELECT, or an INSERT whose source is VALUES. Any other statement fails
/// with `UnsupportedStatement`.
pub fn get_query(def: &Schema, stmt: &Statement) -> (r: Result<
    (Vec<DataType>, Vec<DataType>),
    Error,
>)
    ensures
        sig_result_view(r) == statement_sig(*stmt, def@),
{
    match stmt {
        Statement::Query(q) => query_types(q, def),
        Statement::Insert { table_name, columns, source } => {
            let rows = match source {
                Query::Values(rows) => rows,
                _ => {
                    return Err(Error::UnsupportedStatement);
                },
            };
            if rows.len() == 0 {
                return Err(Error::UnsupportedStatement);
            }
            let row = &rows[0];
            if columns.len() != row.len() {
                return Err(Error::UnsupportedStatement);
            }
            if def.table_columns(table_name).is_none() {
                return Err(Error::UnknownTable);
            }
            let mut k: usize = 0;
            let ghost sig = statement_sig(*stmt, def@);
            assert(!columns_known(def@[table_name@], columns@) ==> sig == Err::<Signature, Error>(
                Error::UnknownColumn,
            ));
            while k < columns.len()
                invariant
                    k <= columns.len(),
                    statement_sig(*stmt, def@) == sig,
                    !columns_known(def@[table_name@], columns@) ==> sig == Err::<Signature, Error>(
                        Error::UnknownColumn,
                    ),
                    def@.contains_key(table_name@),
                    forall|j: int|
                        0 <= j < k ==> #[trigger] column_type(def@[table_name@], columns@[j]@) is Some,
                decreases columns.len() - k,
            {
                if def.lookup(table_name, &columns[k]).is_err() {
                    proof {
                        assert(column_type(def@[table_name@], columns@[k as int]@) is None);
                        assert(!columns_known(def@[table_name@], columns@));
                    }
                    return Err(Error::UnknownColumn);
                }
                k = k + 1;
            }
            let n: usize = columns.len();
            let scope = Scope::Named(table_name.clone());
            let mut ins: Vec<DataType> = Vec::new();
            let mut i: usize = 0;
            let ghost whole = match insert_inputs(table_name@, columns@, row@, n as nat, def@) {
                Ok(v) => Ok::<Signature, Error>((v, Seq::empty())),
                Err(x) => Err(x),
            };
            assert(statement_sig(*stmt, def@) == whole);
            while i < n
                invariant
                    i <= n,
                    statement_sig(*stmt, def@) == whole,
                    whole == match insert_inputs(table_name@, columns@, row@, n as nat, def@) {
                        Ok(v) => Ok::<Signature, Error>((v, Seq::empty())),
                        Err(x) => Err(x),
                    },
                    n <= columns.len(),
                    n <= row.len(),
                    scope.order() == seq![table_name@],
                    insert_inputs(table_name@, columns@, row@, i as nat, def@) == Ok::<
                        Seq<DataType>,
                        Error,
                    >(ins@),
                decreases n - i,
            {
                let val = &row[i];
                if is_placeholder(val) {
                    match def.lookup(table_name, &columns[i]) {
                        Ok(t) => {
                            ins.push(t);
                        },
                        Err(x) => {
                            proof {
                                lemma_insert_prefix_err(
                                    table_name@,
                                    columns@,
                                    row@,
                                    (i + 1) as nat,
                                    n as nat,
                                    def@,
                                );
                            }
                            return Err(x);
                        },
                    }
                } else {
                    match infer_expr(val, &scope, def) {
                        Ok((mut vi, _)) => {
                            ins.append(&mut vi);
                        },
                        Err(x) => {
                            proof {
                                lemma_insert_prefix_err(
                                    table_name@,
                                    columns@,
                                    row@,
                                    (i + 1) as nat,
                                    n as nat,
                                    def@,
                                );
                            }
                            return Err(x);
                        },
                    }
                }
                i = i + 1;
            }
            Ok((ins, Vec::new()))
        },
        _ => Err(Error::UnsupportedStatement),
    }
}

} // verus!
