//! Laws that relate the schema builder and the inference functions.
use vstd::prelude::*;
use crate::ast::{ColumnDef, Expr, FunctionArg, Query, Select, SelectItem, Statement};
use crate::infer::{
    columns_known, expr_sig, insert_inputs, lemma_items_prefix_err, operand_inputs, is_min_max, items_sig, query_sig, search, select_order,
    statement_sig,
};
use crate::schema::{
    column_type, columns_of, declared_type, define_all, lemma_define_prefix_err, lookup, schema_of, SchemaModel};
use crate::types::{DataType, Error};

verus! {

proof fn lemma_define_all_from(m: SchemaModel, stmts: Seq<Statement>)
    ensures
        define_all(m, stmts) is Ok == define_all(Map::empty(), stmts) is Ok,
        define_all(m, stmts) is Err ==> define_all(m, stmts) == define_all(Map::empty(), stmts),
        define_all(m, stmts) is Ok ==> define_all(m, stmts)->Ok_0 == m.union_prefer_right(
            define_all(Map::empty(), stmts)->Ok_0,
        ),
    decreases stmts.len(),
{
    if stmts.len() == 0 {
        assert(m.union_prefer_right(Map::empty()) =~= m);
    } else {
        lemma_define_all_from(m, stmts.drop_last());
        if define_all(m, stmts.drop_last()) is Ok {
            let p = define_all(m, stmts.drop_last())->Ok_0;
            let q = define_all(Map::empty(), stmts.drop_last())->Ok_0;
            match stmts.last() {
                Statement::CreateTable { name, columns } => {
                    if columns_of(columns@) is Ok {
                        let c = columns_of(columns@)->Ok_0;
                        assert(p.insert(name@, c) =~= m.union_prefer_right(q.insert(name@, c)));
                    }
                },
                _ => {},
            }
        }
    }
}

proof fn lemma_define_concat(m: SchemaModel, a: Seq<Statement>, b: Seq<Statement>)
    ensures
        define_all(m, a + b) == match define_all(m, a) {
            Ok(p) => define_all(p, b),
            Err(x) => Err(x),
        },
    decreases b.len(),
{
    if b.len() == 0 {
        assert(a + b =~= a);
    } else {
        assert((a + b).drop_last() =~= a + b.drop_last());
        assert((a + b).last() == b.last());
        lemma_define_concat(m, a, b.drop_last());
    }
}

/// Building a schema depends on the definitions alone: the same statements
/// give the same schema, and making every definition a second time, in the
/// same order, changes nothing.
pub proof fn lemma_definitions_idempotent(stmts: Seq<Statement>)
    ensures
        schema_of(stmts + stmts) == schema_of(stmts),
{
    lemma_define_concat(Map::empty(), stmts, stmts);
    if schema_of(stmts) is Ok {
        let p = schema_of(stmts)->Ok_0;
        lemma_define_all_from(p, stmts);
        assert(p.union_prefer_right(p) =~= p);
    }
}

proof fn lemma_columns_in_order(cs: Seq<ColumnDef>)
    requires
        columns_of(cs) is Ok,
    ensures
        forall|i: int| 0 <= i < cs.len() ==> #[trigger] declared_type(cs[i].data_type) is Some,
        columns_of(cs)->Ok_0 == cs.map_values(
            |c: ColumnDef| (c.name@, declared_type(c.data_type)->Some_0),
        ),
    decreases cs.len(),
{
    if cs.len() > 0 {
        lemma_columns_in_order(cs.drop_last());
        assert forall|i: int| 0 <= i < cs.len() implies #[trigger] declared_type(
            cs[i].data_type,
        ) is Some by {
            if i < cs.len() - 1 {
                assert(cs[i] == cs.drop_last()[i]);
            }
        }
        assert(columns_of(cs)->Ok_0 =~= cs.map_values(
            |c: ColumnDef| (c.name@, declared_type(c.data_type)->Some_0),
        ));
    }
}

/// A table definition replaces whatever an earlier definition of the same
/// name said: the table's columns are exactly the new definition's, in
/// declaration order. The definition fails only on an unsupported column type.
pub proof fn lemma_last_definition_wins(stmts: Seq<Statement>, name: String, columns: Vec<ColumnDef>)
    requires
        schema_of(stmts) is Ok,
    ensures
        schema_of(stmts.push(Statement::CreateTable { name, columns })) is Ok <==> forall|i: int|
            0 <= i < columns@.len() ==> #[trigger] declared_type(columns@[i].data_type) is Some,
        schema_of(stmts.push(Statement::CreateTable { name, columns })) is Ok ==> schema_of(
            stmts.push(Statement::CreateTable { name, columns }),
        )->Ok_0[name@] == columns@.map_values(
            |c: ColumnDef| (c.name@, declared_type(c.data_type)->Some_0),
        ),
{
    let st = Statement::CreateTable { name, columns };
    assert(stmts.push(st).drop_last() =~= stmts);
    if columns_of(columns@) is Ok {
        lemma_columns_in_order(columns@);
    } else {
        lemma_columns_fail(columns@);
    }
}

/// Whether statement `st` defines a table named `name`.
pub open spec fn defines(st: Statement, name: Seq<char>) -> bool {
    match st {
        Statement::CreateTable { name: n, .. } => n@ == name,
        _ => false,
    }
}

/// Wherever the last definition of a table stands among the statements, a
/// successful build gives that table exactly the columns of that definition,
/// in declaration order: an earlier definition of the same name leaves nothing
/// behind. The build fails if any definition has an unsupported column type.
pub proof fn lemma_table_takes_last_definition(stmts: Seq<Statement>, k: int)
    requires
        0 <= k < stmts.len(),
        stmts[k] is CreateTable,
        forall|j: int| k < j < stmts.len() ==> !defines(#[trigger] stmts[j], stmts[k]->name@),
    ensures
        schema_of(stmts) is Ok ==> forall|i: int|
            0 <= i < stmts[k]->CreateTable_columns@.len() ==> #[trigger] declared_type(
                stmts[k]->CreateTable_columns@[i].data_type,
            ) is Some,
        schema_of(stmts) is Ok ==> schema_of(stmts)->Ok_0[stmts[k]->name@]
            == stmts[k]->CreateTable_columns@.map_values(
            |c: ColumnDef| (c.name@, declared_type(c.data_type)->Some_0),
        ),
    decreases stmts.len(),
{
    if schema_of(stmts) is Ok {
        if stmts.len() == k + 1 {
            assert(stmts.take(k).push(stmts[k]) =~= stmts);
            if schema_of(stmts.take(k)) is Err {
                lemma_define_prefix_err(Map::empty(), stmts, k);
            }
            match stmts[k] {
                Statement::CreateTable { name, columns } => {
                    lemma_last_definition_wins(stmts.take(k), name, columns);
                },
                _ => {},
            }
        } else {
            let prev = stmts.drop_last();
            assert forall|j: int| k < j < prev.len() implies !defines(
                #[trigger] prev[j],
                prev[k]->name@,
            ) by {
                assert(prev[j] == stmts[j]);
            }
            assert(!defines(stmts[stmts.len() - 1], stmts[k]->name@));
            lemma_table_takes_last_definition(prev, k);
        }
    }
}

proof fn lemma_columns_fail(cs: Seq<ColumnDef>)
    requires
        columns_of(cs) is Err,
    ensures
        exists|i: int| 0 <= i < cs.len() && #[trigger] declared_type(cs[i].data_type) is None,
    decreases cs.len(),
{
    if columns_of(cs.drop_last()) is Err {
        lemma_columns_fail(cs.drop_last());
        let i = choose|i: int|
            0 <= i < cs.drop_last().len() && #[trigger] declared_type(
                cs.drop_last()[i].data_type,
            ) is None;
        assert(cs[i] == cs.drop_last()[i]);
    } else {
        assert(declared_type(cs[cs.len() - 1].data_type) is None);
    }
}

/// Whether `e` is a plain column reference.
pub open spec fn is_column_ref(e: Expr) -> bool {
    e is Identifier || e is CompoundIdentifier
}

proof fn lemma_column_items_no_inputs(items: Seq<SelectItem>, order: Seq<Seq<char>>, s: SchemaModel)
    requires
        forall|i: int|
            0 <= i < items.len() ==> #[trigger] items[i] is UnnamedExpr && is_column_ref(
                items[i]->UnnamedExpr_0,
            ),
        items_sig(items, order, s) is Ok,
    ensures
        items_sig(items, order, s)->Ok_0.0 == Seq::<DataType>::empty(),
    decreases items.len(),
{
    if items.len() > 0 {
        assert forall|i: int| 0 <= i < items.drop_last().len() implies #[trigger] items.drop_last()[i] is UnnamedExpr
            && is_column_ref(items.drop_last()[i]->UnnamedExpr_0) by {
            assert(items.drop_last()[i] == items[i]);
        }
        assert(items[items.len() - 1] is UnnamedExpr);
        lemma_column_items_no_inputs(items.drop_last(), order, s);
        let e = items.last()->UnnamedExpr_0;
        assert(expr_sig(e, order, s) is Ok ==> expr_sig(e, order, s)->Ok_0.0 == Seq::<
            DataType,
        >::empty());
        let p = items_sig(items.drop_last(), order, s)->Ok_0;
        assert(p.0 + Seq::<DataType>::empty() =~= p.0);
    }
}

/// A comparison between a column and a bare placeholder, on either side,
/// gives the placeholder the column's type and yields that one input.
pub proof fn lemma_column_against_placeholder(e: Expr, order: Seq<Seq<char>>, s: SchemaModel)
    requires
        e is BinaryOp,
        (*e->left is Identifier && *e->right is Placeholder) || (*e->left is Placeholder
            && *e->right is Identifier),
    ensures
        ({
            let c = if *e->left is Identifier {
                *e->left
            } else {
                *e->right
            };
            expr_sig(e, order, s) == match search(order, c->Identifier_0@, s) {
                Ok(t) => Ok::<(Seq<DataType>, DataType), Error>((seq![t], DataType::Integer)),
                Err(x) => Err(x),
            }
        }),
{
    let l = *e->left;
    let r = *e->right;
    let none = Seq::<DataType>::empty();
    assert(expr_sig(Expr::Placeholder, order, s) == Ok::<(Seq<DataType>, DataType), Error>(
        (none, DataType::Null),
    ));
    if l is Identifier {
        assert(expr_sig(l, order, s) == match search(order, l->Identifier_0@, s) {
            Ok(t) => Ok::<(Seq<DataType>, DataType), Error>((none, t)),
            Err(x) => Err(x),
        });
        if search(order, l->Identifier_0@, s) is Ok {
            let t = search(order, l->Identifier_0@, s)->Ok_0;
            assert(operand_inputs(l, r, t, DataType::Null) =~= seq![t]);
            assert(seq![t] + none + none =~= seq![t]);
        }
    } else {
        assert(expr_sig(r, order, s) == match search(order, r->Identifier_0@, s) {
            Ok(t) => Ok::<(Seq<DataType>, DataType), Error>((none, t)),
            Err(x) => Err(x),
        });
        if search(order, r->Identifier_0@, s) is Ok {
            let t = search(order, r->Identifier_0@, s)->Ok_0;
            assert(operand_inputs(l, r, DataType::Null, t) =~= seq![t]);
            assert(seq![t] + none + none =~= seq![t]);
        }
    }
}

/// The type of a plain column reference: an unqualified name searched in
/// `order`, or `table.column` looked up directly.
pub open spec fn column_ref_type(e: Expr, order: Seq<Seq<char>>, s: SchemaModel) -> Result<
    DataType,
    Error,
> {
    match e {
        Expr::Identifier(c) => search(order, c@, s),
        Expr::CompoundIdentifier(parts) => if parts@.len() == 2 {
            lookup(s, parts@[0]@, parts@[1]@)
        } else {
            Err(Error::UnsupportedExpression)
        },
        _ => Err(Error::UnsupportedExpression),
    }
}

/// The inputs of a projection list: those of each item, in order.
pub open spec fn items_inputs(items: Seq<SelectItem>, order: Seq<Seq<char>>, s: SchemaModel) -> Seq<
    DataType,
>
    decreases items.len(),
{
    if items.len() == 0 {
        Seq::empty()
    } else {
        items_inputs(items.drop_last(), order, s) + expr_sig(
            items.last()->UnnamedExpr_0,
            order,
            s,
        )->Ok_0.0
    }
}

proof fn lemma_column_ref(e: Expr, order: Seq<Seq<char>>, s: SchemaModel)
    requires
        is_column_ref(e),
    ensures
        expr_sig(e, order, s) == match column_ref_type(e, order, s) {
            Ok(t) => Ok::<(Seq<DataType>, DataType), Error>((Seq::empty(), t)),
            Err(x) => Err(x),
        },
{
}

/// A projection list of unnamed expressions succeeds exactly when every item
/// does; its outputs are the items' types in order and its inputs are the
/// items' inputs in order.
pub proof fn lemma_items_parts(items: Seq<SelectItem>, order: Seq<Seq<char>>, s: SchemaModel)
    requires
        forall|i: int| 0 <= i < items.len() ==> #[trigger] items[i] is UnnamedExpr,
    ensures
        items_sig(items, order, s) is Ok <==> forall|i: int|
            0 <= i < items.len() ==> #[trigger] expr_sig(items[i]->UnnamedExpr_0, order, s) is Ok,
        items_sig(items, order, s) is Ok ==> {
            let r = items_sig(items, order, s)->Ok_0;
            &&& r.1.len() == items.len()
            &&& forall|i: int|
                0 <= i < items.len() ==> r.1[i] == #[trigger] expr_sig(
                    items[i]->UnnamedExpr_0,
                    order,
                    s,
                )->Ok_0.1
            &&& r.0 == items_inputs(items, order, s)
        },
    decreases items.len(),
{
    if items.len() > 0 {
        let prev = items.drop_last();
        assert forall|i: int| 0 <= i < prev.len() implies #[trigger] prev[i] is UnnamedExpr by {
            assert(prev[i] == items[i]);
        }
        lemma_items_parts(prev, order, s);
        assert(items.last() == items[items.len() - 1]);
        assert(items[items.len() - 1] is UnnamedExpr);
        if items_sig(items, order, s) is Ok {
            assert forall|i: int| 0 <= i < items.len() implies #[trigger] expr_sig(
                items[i]->UnnamedExpr_0,
                order,
                s,
            ) is Ok by {
                if i < items.len() - 1 {
                    assert(prev[i] == items[i]);
                }
            }
            let r = items_sig(items, order, s)->Ok_0;
            assert forall|i: int| 0 <= i < items.len() implies r.1[i] == #[trigger] expr_sig(
                items[i]->UnnamedExpr_0,
                order,
                s,
            )->Ok_0.1 by {
                if i < items.len() - 1 {
                    assert(prev[i] == items[i]);
                }
            }
        } else {
            if items_sig(prev, order, s) is Err {
                let i = choose|i: int|
                    0 <= i < prev.len() && !(#[trigger] expr_sig(
                        prev[i]->UnnamedExpr_0,
                        order,
                        s,
                    ) is Ok);
                assert(prev[i] == items[i]);
            } else {
                assert(!(expr_sig(items[items.len() - 1]->UnnamedExpr_0, order, s) is Ok));
            }
        }
    }
}

proof fn lemma_inputs_of_one(items: Seq<SelectItem>, j: int, order: Seq<Seq<char>>, s: SchemaModel)
    requires
        0 <= j < items.len(),
        forall|i: int|
            0 <= i < items.len() ==> #[trigger] items[i] is UnnamedExpr && expr_sig(
                items[i]->UnnamedExpr_0,
                order,
                s,
            ) is Ok,
        forall|i: int|
            0 <= i < items.len() && i != j ==> (#[trigger] expr_sig(
                items[i]->UnnamedExpr_0,
                order,
                s,
            ))->Ok_0.0 == Seq::<DataType>::empty(),
    ensures
        items_inputs(items, order, s) == expr_sig(items[j]->UnnamedExpr_0, order, s)->Ok_0.0,
    decreases items.len(),
{
    let prev = items.drop_last();
    let none = Seq::<DataType>::empty();
    assert(items.last() == items[items.len() - 1]);
    if j < items.len() - 1 {
        assert forall|i: int|
            0 <= i < prev.len() implies #[trigger] prev[i] is UnnamedExpr && expr_sig(
            prev[i]->UnnamedExpr_0,
            order,
            s,
        ) is Ok by {
            assert(prev[i] == items[i]);
        }
        assert forall|i: int|
            0 <= i < prev.len() && i != j implies (#[trigger] expr_sig(
            prev[i]->UnnamedExpr_0,
            order,
            s,
        ))->Ok_0.0 == none by {
            assert(prev[i] == items[i]);
        }
        lemma_inputs_of_one(prev, j, order, s);
        assert(prev[j] == items[j]);
        let x = expr_sig(items[j]->UnnamedExpr_0, order, s)->Ok_0.0;
        assert(x + none =~= x);
    } else {
        lemma_inputs_none(prev, order, s, items);
        let x = expr_sig(items[j]->UnnamedExpr_0, order, s)->Ok_0.0;
        assert(none + x =~= x);
    }
}

proof fn lemma_inputs_none(
    prev: Seq<SelectItem>,
    order: Seq<Seq<char>>,
    s: SchemaModel,
    items: Seq<SelectItem>,
)
    requires
        prev.len() < items.len(),
        forall|i: int| 0 <= i < prev.len() ==> prev[i] == items[i],
        forall|i: int| 0 <= i < items.len() ==> #[trigger] items[i] is UnnamedExpr,
        forall|i: int|
            0 <= i < items.len() && i != items.len() - 1 ==> (#[trigger] expr_sig(
                items[i]->UnnamedExpr_0,
                order,
                s,
            ))->Ok_0.0 == Seq::<DataType>::empty(),
    ensures
        items_inputs(prev, order, s) == Seq::<DataType>::empty(),
    decreases prev.len(),
{
    if prev.len() > 0 {
        let p = prev.drop_last();
        lemma_inputs_none(p, order, s, items);
        assert(prev.last() == items[prev.len() - 1]);
        assert(Seq::<DataType>::empty() + Seq::<DataType>::empty() =~= Seq::<DataType>::empty());
    }
}

/// A SELECT of plain columns whose WHERE condition is `column = ?` (or
/// `? = column`) succeeds exactly when every projected column and the
/// compared column resolve. It then has exactly one input, the compared
/// column's type, and its outputs are the projected columns' types in order.
pub proof fn lemma_select_where_placeholder(sel: Select, s: SchemaModel)
    requires
        select_order(sel) is Ok,
        forall|i: int|
            0 <= i < sel.projection@.len() ==> #[trigger] sel.projection@[i] is UnnamedExpr
                && is_column_ref(sel.projection@[i]->UnnamedExpr_0),
        sel.selection is Some,
        sel.selection->Some_0 is BinaryOp,
        ({
            let w = sel.selection->Some_0;
            (*w->left is Identifier && *w->right is Placeholder) || (*w->left is Placeholder
                && *w->right is Identifier)
        }),
    ensures
        ({
            let w = sel.selection->Some_0;
            let order = select_order(sel)->Ok_0;
            let items = sel.projection@;
            let c = if *w->left is Identifier {
                *w->left
            } else {
                *w->right
            };
            let col = search(order, c->Identifier_0@, s);
            let r = query_sig(Query::Select(sel), s);
            &&& r is Ok <==> col is Ok && forall|i: int|
                0 <= i < items.len() ==> #[trigger] column_ref_type(
                    items[i]->UnnamedExpr_0,
                    order,
                    s,
                ) is Ok
            &&& r is Ok ==> r->Ok_0.0 == seq![col->Ok_0]
            &&& r is Ok ==> r->Ok_0.1.len() == items.len() && forall|i: int|
                0 <= i < items.len() ==> r->Ok_0.1[i] == #[trigger] column_ref_type(
                    items[i]->UnnamedExpr_0,
                    order,
                    s,
                )->Ok_0
        }),
{
    let order = select_order(sel)->Ok_0;
    let items = sel.projection@;
    let w = sel.selection->Some_0;
    lemma_column_against_placeholder(w, order, s);
    lemma_items_parts(items, order, s);
    assert forall|i: int| 0 <= i < items.len() implies (#[trigger] column_ref_type(
        items[i]->UnnamedExpr_0,
        order,
        s,
    ) is Ok) == expr_sig(items[i]->UnnamedExpr_0, order, s) is Ok && (expr_sig(
        items[i]->UnnamedExpr_0,
        order,
        s,
    ) is Ok ==> expr_sig(items[i]->UnnamedExpr_0, order, s)->Ok_0.1 == column_ref_type(
        items[i]->UnnamedExpr_0,
        order,
        s,
    )->Ok_0) by {
        lemma_column_ref(items[i]->UnnamedExpr_0, order, s);
    }
    let r = query_sig(Query::Select(sel), s);
    assert(r is Ok <==> items_sig(items, order, s) is Ok && expr_sig(w, order, s) is Ok);
    assert(r is Ok ==> r->Ok_0.1 == items_sig(items, order, s)->Ok_0.1);
    if items_sig(items, order, s) is Ok {
        lemma_column_items_no_inputs(items, order, s);
        let c = if *w->left is Identifier {
            *w->left
        } else {
            *w->right
        };
        if search(order, c->Identifier_0@, s) is Ok {
            let t = search(order, c->Identifier_0@, s)->Ok_0;
            assert(Seq::<DataType>::empty() + seq![t] =~= seq![t]);
        }
    }
    if forall|i: int|
        0 <= i < items.len() ==> #[trigger] column_ref_type(items[i]->UnnamedExpr_0, order, s) is Ok {
        assert forall|i: int| 0 <= i < items.len() implies #[trigger] expr_sig(
            items[i]->UnnamedExpr_0,
            order,
            s,
        ) is Ok by {
            lemma_column_ref(items[i]->UnnamedExpr_0, order, s);
        }
    }
}

proof fn lemma_placeholder_row(
    t: Seq<char>,
    cols: Seq<String>,
    vals: Seq<Expr>,
    n: nat,
    s: SchemaModel,
)
    requires
        n <= cols.len(),
        n <= vals.len(),
        forall|i: int| 0 <= i < n ==> #[trigger] vals[i] is Placeholder,
    ensures
        insert_inputs(t, cols, vals, n, s) is Ok <==> forall|i: int|
            0 <= i < n ==> #[trigger] lookup(s, t, cols[i]@) is Ok,
        insert_inputs(t, cols, vals, n, s) is Ok ==> insert_inputs(t, cols, vals, n, s)->Ok_0.len()
            == n && forall|i: int|
            0 <= i < n ==> insert_inputs(t, cols, vals, n, s)->Ok_0[i] == #[trigger] lookup(
                s,
                t,
                cols[i]@,
            )->Ok_0,
    decreases n,
{
    if n > 0 {
        lemma_placeholder_row(t, cols, vals, (n - 1) as nat, s);
        assert(vals[n - 1] is Placeholder);
    }
}

/// An INSERT whose first VALUES row holds one bare placeholder per listed
/// column has one input per column, in column order: the declared type of
/// that column. It has no outputs, and fails exactly when the target table or
/// some listed column is missing from the schema.
pub proof fn lemma_insert_placeholders(
    table_name: String,
    columns: Vec<String>,
    rows: Vec<Vec<Expr>>,
    s: SchemaModel,
)
    requires
        rows@.len() >= 1,
        rows@[0]@.len() == columns@.len(),
        forall|i: int| 0 <= i < columns@.len() ==> #[trigger] rows@[0]@[i] is Placeholder,
    ensures
        ({
            let r = statement_sig(
                Statement::Insert { table_name, columns, source: Query::Values(rows) },
                s,
            );
            &&& r is Ok <==> s.contains_key(table_name@) && forall|i: int|
                0 <= i < columns@.len() ==> #[trigger] lookup(s, table_name@, columns@[i]@) is Ok
            &&& r is Ok ==> r->Ok_0.1.len() == 0 && r->Ok_0.0.len() == columns@.len()
            &&& r is Ok ==> forall|i: int|
                0 <= i < columns@.len() ==> r->Ok_0.0[i] == #[trigger] lookup(
                    s,
                    table_name@,
                    columns@[i]@,
                )->Ok_0
        }),
{
    lemma_placeholder_row(table_name@, columns@, rows@[0]@, columns@.len(), s);
    if s.contains_key(table_name@) && !columns_known(s[table_name@], columns@) {
        let i = choose|i: int|
            0 <= i < columns@.len() && !(#[trigger] column_type(
                s[table_name@],
                columns@[i]@,
            ) is Some);
        assert(lookup(s, table_name@, columns@[i]@) is Err);
    }
}

/// A scalar subquery projected among plain columns gives its position the
/// subquery's first output type, the columns their own types, and puts the
/// subquery's inputs ahead of the inputs of the outer WHERE condition. A
/// subquery that fails or has no output column makes the SELECT fail.
pub proof fn lemma_subquery_projection(sel: Select, j: int, s: SchemaModel)
    requires
        select_order(sel) is Ok,
        0 <= j < sel.projection@.len(),
        forall|i: int| 0 <= i < sel.projection@.len() ==> #[trigger] sel.projection@[i] is UnnamedExpr,
        sel.projection@[j]->UnnamedExpr_0 is Subquery,
        forall|i: int|
            0 <= i < sel.projection@.len() && i != j ==> is_column_ref(
                #[trigger] sel.projection@[i]->UnnamedExpr_0,
            ),
    ensures
        ({
            let items = sel.projection@;
            let sub = query_sig(*items[j]->UnnamedExpr_0->Subquery_0, s);
            let outer = query_sig(Query::Select(sel), s);
            let order = select_order(sel)->Ok_0;
            &&& (sub is Err || sub->Ok_0.1.len() == 0) ==> outer is Err
            &&& outer is Ok ==> sub is Ok && sub->Ok_0.1.len() > 0
            &&& outer is Ok ==> outer->Ok_0.1.len() == items.len() && outer->Ok_0.1[j]
                == sub->Ok_0.1[0]
            &&& outer is Ok ==> forall|i: int|
                0 <= i < items.len() && i != j ==> outer->Ok_0.1[i] == #[trigger] column_ref_type(
                    items[i]->UnnamedExpr_0,
                    order,
                    s,
                )->Ok_0
            &&& outer is Ok ==> outer->Ok_0.0 == sub->Ok_0.0 + match sel.selection {
                None => Seq::<DataType>::empty(),
                Some(w) => expr_sig(w, order, s)->Ok_0.0,
            }
        }),
{
    let items = sel.projection@;
    let order = select_order(sel)->Ok_0;
    let sub = query_sig(*items[j]->UnnamedExpr_0->Subquery_0, s);
    lemma_items_parts(items, order, s);
    assert(expr_sig(items[j]->UnnamedExpr_0, order, s) == match sub {
        Err(x) => Err(x),
        Ok(sig) => if sig.1.len() == 0 {
            Err(Error::EmptySubqueryResult)
        } else {
            Ok((sig.0, sig.1[0]))
        },
    });
    assert forall|i: int| 0 <= i < items.len() && i != j implies #[trigger] expr_sig(
        items[i]->UnnamedExpr_0,
        order,
        s,
    ) == match column_ref_type(items[i]->UnnamedExpr_0, order, s) {
        Ok(t) => Ok::<(Seq<DataType>, DataType), Error>((Seq::empty(), t)),
        Err(x) => Err(x),
    } by {
        lemma_column_ref(items[i]->UnnamedExpr_0, order, s);
    }
    let outer = query_sig(Query::Select(sel), s);
    assert(outer is Ok <==> items_sig(items, order, s) is Ok && (sel.selection is Some
        ==> expr_sig(sel.selection->Some_0, order, s) is Ok));
    assert(outer is Ok ==> outer->Ok_0.1 == items_sig(items, order, s)->Ok_0.1);
    assert(expr_sig(items[j]->UnnamedExpr_0, order, s) is Err ==> items_sig(items, order, s) is Err);
    assert((sub is Err || sub->Ok_0.1.len() == 0) ==> outer is Err);
    if items_sig(items, order, s) is Ok {
        lemma_inputs_of_one(items, j, order, s);
        let r = items_sig(items, order, s)->Ok_0;
        assert(r.1[j] == expr_sig(items[j]->UnnamedExpr_0, order, s)->Ok_0.1);
        assert(outer is Ok ==> outer->Ok_0.1[j] == sub->Ok_0.1[0]);
        if outer is Ok {
            assert forall|i: int| 0 <= i < items.len() && i != j implies outer->Ok_0.1[i]
                == #[trigger] column_ref_type(items[i]->UnnamedExpr_0, order, s)->Ok_0 by {
                assert(r.1[i] == expr_sig(items[i]->UnnamedExpr_0, order, s)->Ok_0.1);
                lemma_column_ref(items[i]->UnnamedExpr_0, order, s);
            }
        }
        assert(outer is Ok ==> outer->Ok_0.0 == sub->Ok_0.0 + match sel.selection {
                None => Seq::<DataType>::empty(),
                Some(w) => expr_sig(w, order, s)->Ok_0.0,
            });
        if sel.selection is None {
            assert(sub->Ok_0.0 + Seq::<DataType>::empty() =~= sub->Ok_0.0);
        }
    }
}

/// `MAX` or `MIN` of one unnamed argument has exactly the argument's inputs
/// and type; of a column, that is the column's type and no input.
pub proof fn lemma_min_max_keeps_type(
    name: String,
    args: Vec<FunctionArg>,
    order: Seq<Seq<char>>,
    s: SchemaModel,
)
    requires
        is_min_max(name@),
        args@.len() == 1,
        args@[0] is Unnamed,
    ensures
        expr_sig(Expr::Function { name, args }, order, s) == expr_sig(
            args@[0]->Unnamed_0,
            order,
            s,
        ),
        args@[0]->Unnamed_0 is Identifier ==> expr_sig(Expr::Function { name, args }, order, s)
            == match search(order, args@[0]->Unnamed_0->Identifier_0@, s) {
            Ok(t) => Ok::<(Seq<DataType>, DataType), Error>((Seq::empty(), t)),
            Err(x) => Err(x),
        },
{
}

/// Shapes outside the supported set fail with their documented error:
/// statements other than SELECT and INSERT ... VALUES, an INSERT from
/// anything but VALUES, literals and other expressions, and a SELECT whose
/// first projection item is a wildcard or carries an alias.
pub proof fn lemma_unsupported_shapes(sel: Select, q: Query, order: Seq<Seq<char>>, s: SchemaModel)
    requires
        !(q is Values),
    ensures
        statement_sig(Statement::Other, s) == Err::<(Seq<DataType>, Seq<DataType>), Error>(
            Error::UnsupportedStatement,
        ),
        forall|table_name: String, columns: Vec<String>|
            #![auto]
            statement_sig(Statement::Insert { table_name, columns, source: q }, s) == Err::<
                (Seq<DataType>, Seq<DataType>),
                Error,
            >(Error::UnsupportedStatement),
        expr_sig(Expr::Literal, order, s) == Err::<(Seq<DataType>, DataType), Error>(
            Error::UnsupportedExpression,
        ),
        expr_sig(Expr::Other, order, s) == Err::<(Seq<DataType>, DataType), Error>(
            Error::UnsupportedExpression,
        ),
        select_order(sel) is Ok && sel.projection@.len() >= 1 && !(sel.projection@[0] is UnnamedExpr)
            ==> query_sig(Query::Select(sel), s) == Err::<(Seq<DataType>, Seq<DataType>), Error>(
            Error::UnsupportedExpression,
        ),
{
    let items = sel.projection@;
    if select_order(sel) is Ok && items.len() >= 1 && !(items[0] is UnnamedExpr) {
        let order = select_order(sel)->Ok_0;
        assert(items.take(1).drop_last() =~= Seq::<SelectItem>::empty());
        assert(items.take(1).last() == items[0]);
        assert(items_sig(Seq::<SelectItem>::empty(), order, s) is Ok);
        assert(items_sig(items.take(1), order, s) == Err::<(Seq<DataType>, Seq<DataType>), Error>(
            Error::UnsupportedExpression,
        ));
        lemma_items_prefix_err(items, 1, order, s);
    }
}

} // verus!
