//! The schema: table name to the ordered columns of that table, with their types.
use vstd::prelude::*;
use crate::ast::{ColumnDef, SqlType, Statement};
use crate::types::{DataType, Error};

verus! {

/// The columns of one table, in declaration order, as (name, type) pairs.
pub type ColumnsModel = Seq<(Seq<char>, DataType)>;

/// A schema as mathematics sees it: each defined table name to its columns.
pub type SchemaModel = Map<Seq<char>, ColumnsModel>;

/// One typed column of a table.
#[derive(Debug, Clone)]
pub struct Column {
    pub name: String,
    pub data_type: DataType,
}

/// One table definition.
#[derive(Debug, Clone)]
pub struct Table {
    pub name: String,
    pub columns: Vec<Column>,
}

/// Table definitions in the order they were made. A later definition of a
/// name shadows every earlier one, so the schema maps each name to the
/// columns of its last definition.
#[derive(Debug, Clone)]
pub struct Schema {
    tables: Vec<Table>,
}

pub open spec fn columns_model(cs: Seq<Column>) -> ColumnsModel {
    cs.map_values(|c: Column| (c.name@, c.data_type))
}

pub open spec fn tables_model(ts: Seq<Table>) -> SchemaModel
    decreases ts.len(),
{
    if ts.len() == 0 {
        Map::empty()
    } else {
        tables_model(ts.drop_last()).insert(ts.last().name@, columns_model(ts.last().columns@))
    }
}

impl View for Schema {
    type V = SchemaModel;

    closed spec fn view(&self) -> SchemaModel {
        tables_model(self.tables@)
    }
}

/// The type of a column declared with `t`, if it is one of the four storage classes.
pub open spec fn declared_type(t: SqlType) -> Option<DataType> {
    match t {
        SqlType::Blob => Some(DataType::Blob),
        SqlType::Integer => Some(DataType::Integer),
        SqlType::Real => Some(DataType::Real),
        SqlType::Text => Some(DataType::Text),
        SqlType::Other => None,
    }
}

/// The typed columns of a table definition, in order; fails at the first
/// column whose declared type is unsupported.
pub open spec fn columns_of(cs: Seq<ColumnDef>) -> Result<ColumnsModel, Error>
    decreases cs.len(),
{
    if cs.len() == 0 {
        Ok(Seq::empty())
    } else {
        match columns_of(cs.drop_last()) {
            Err(e) => Err(e),
            Ok(prefix) => match declared_type(cs.last().data_type) {
                None => Err(Error::UnsupportedColumnType),
                Some(t) => Ok(prefix.push((cs.last().name@, t))),
            },
        }
    }
}

/// The schema `m` after one more statement: a table definition sets its
/// table's columns, replacing any earlier definition; other statements are skipped.
pub open spec fn define(m: SchemaModel, st: Statement) -> Result<SchemaModel, Error> {
    match st {
        Statement::CreateTable { name, columns } => match columns_of(columns@) {
            Err(e) => Err(e),
            Ok(cols) => Ok(m.insert(name@, cols)),
        },
        _ => Ok(m),
    }
}

/// The schema `m` after the statements `stmts`, in order; fails at the first failing one.
pub open spec fn define_all(m: SchemaModel, stmts: Seq<Statement>) -> Result<SchemaModel, Error>
    decreases stmts.len(),
{
    if stmts.len() == 0 {
        Ok(m)
    } else {
        match define_all(m, stmts.drop_last()) {
            Err(e) => Err(e),
            Ok(prev) => define(prev, stmts.last()),
        }
    }
}

/// The schema that a sequence of statements defines.
pub open spec fn schema_of(stmts: Seq<Statement>) -> Result<SchemaModel, Error> {
    define_all(Map::empty(), stmts)
}

/// The type of the last column named `c` in `cols`.
pub open spec fn column_type(cols: ColumnsModel, c: Seq<char>) -> Option<DataType>
    decreases cols.len(),
{
    if cols.len() == 0 {
        None
    } else if cols.last().0 == c {
        Some(cols.last().1)
    } else {
        column_type(cols.drop_last(), c)
    }
}

/// `schema[t][c]`, failing on an unknown table or column.
pub open spec fn lookup(s: SchemaModel, t: Seq<char>, c: Seq<char>) -> Result<DataType, Error> {
    if !s.contains_key(t) {
        Err(Error::UnknownTable)
    } else {
        match column_type(s[t], c) {
            Some(ty) => Ok(ty),
            None => Err(Error::UnknownColumn),
        }
    }
}

proof fn lemma_columns_prefix_err(cs: Seq<ColumnDef>, i: int)
    requires
        0 <= i <= cs.len(),
        columns_of(cs.take(i)) is Err,
    ensures
        columns_of(cs) == columns_of(cs.take(i)),
    decreases cs.len(),
{
    if i < cs.len() {
        assert(cs.drop_last().take(i) =~= cs.take(i));
        lemma_columns_prefix_err(cs.drop_last(), i);
    } else {
        assert(cs.take(i) =~= cs);
    }
}

/// Once a prefix of the statements fails, the whole sequence fails the same way.
pub proof fn lemma_define_prefix_err(m: SchemaModel, stmts: Seq<Statement>, i: int)
    requires
        0 <= i <= stmts.len(),
        define_all(m, stmts.take(i)) is Err,
    ensures
        define_all(m, stmts) == define_all(m, stmts.take(i)),
    decreases stmts.len(),
{
    if i < stmts.len() {
        assert(stmts.drop_last().take(i) =~= stmts.take(i));
        lemma_define_prefix_err(m, stmts.drop_last(), i);
    } else {
        assert(stmts.take(i) =~= stmts);
    }
}

/// Maps a declared column type to its storage class; `Other` is refused.
pub fn to_datatype(t: SqlType) -> (r: Result<DataType, Error>)
    ensures
        r == (match declared_type(t) {
            Some(d) => Ok(d),
            None => Err(Error::UnsupportedColumnType),
        }),
{
    match t {
        SqlType::Blob => Ok(DataType::Blob),
        SqlType::Integer => Ok(DataType::Integer),
        SqlType::Real => Ok(DataType::Real),
        SqlType::Text => Ok(DataType::Text),
        SqlType::Other => Err(Error::UnsupportedColumnType),
    }
}

/// The typed columns of one table definition, in declaration order.
fn build_columns(defs: &Vec<ColumnDef>) -> (r: Result<Vec<Column>, Error>)
    ensures
        match r {
            Ok(cols) => columns_of(defs@) == Ok::<ColumnsModel, Error>(columns_model(cols@)),
            Err(e) => columns_of(defs@) == Err::<ColumnsModel, Error>(e),
        },
{
    let mut cols: Vec<Column> = Vec::new();
    let mut i: usize = 0;
    proof {
        assert(columns_model(cols@) =~= Seq::<(Seq<char>, DataType)>::empty());
        assert(defs@.take(0) =~= Seq::<ColumnDef>::empty());
    }
    while i < defs.len()
        invariant
            i <= defs.len(),
            columns_of(defs@.take(i as int)) == Ok::<ColumnsModel, Error>(columns_model(cols@)),
        decreases defs.len() - i,
    {
        proof {
            assert(defs@.take(i + 1).drop_last() =~= defs@.take(i as int));
        }
        let d = &defs[i];
        let ghost prev = cols@;
        match to_datatype(d.data_type) {
            Err(e) => {
                proof {
                    lemma_columns_prefix_err(defs@, i + 1);
                }
                return Err(e);
            },
            Ok(t) => {
                cols.push(Column { name: d.name.clone(), data_type: t });
                proof {
                    assert(columns_model(cols@) =~= columns_model(prev).push((d.name@, t)));
                }
            },
        }
        i = i + 1;
    }
    proof {
        assert(defs@.take(i as int) =~= defs@);
    }
    Ok(cols)
}

/// The type of the last column named `c` among `cols`.
fn find_column(cols: &Vec<Column>, c: &String) -> (r: Option<DataType>)
    ensures
        r == column_type(columns_model(cols@), c@),
{
    let mut i: usize = cols.len();
    proof {
        assert(cols@.take(i as int) =~= cols@);
    }
    while i > 0
        invariant
            i <= cols.len(),
            column_type(columns_model(cols@.take(i as int)), c@) == column_type(
                columns_model(cols@),
                c@,
            ),
        decreases i,
    {
        let ghost prefix = columns_model(cols@.take(i as int));
        proof {
            assert(prefix.drop_last() =~= columns_model(cols@.take(i - 1)));
        }
        if cols[i - 1].name == *c {
            return Some(cols[i - 1].data_type);
        }
        i = i - 1;
    }
    None
}

impl Schema {
    /// The columns of the table named `t`, if the schema defines it.
    pub fn table_columns(&self, t: &String) -> (r: Option<&Vec<Column>>)
        ensures
            r is Some == self@.contains_key(t@),
            r is Some ==> columns_model(r->Some_0@) == self@[t@],
    {
        let mut i: usize = self.tables.len();
        proof {
            assert(self.tables@.take(i as int) =~= self.tables@);
        }
        while i > 0
            invariant
                i <= self.tables@.len(),
                tables_model(self.tables@.take(i as int)).contains_key(t@) == self@.contains_key(
                    t@,
                ),
                self@.contains_key(t@) ==> tables_model(self.tables@.take(i as int))[t@]
                    == self@[t@],
            decreases i,
        {
            proof {
                assert(self.tables@.take(i as int).drop_last() =~= self.tables@.take(i - 1));
                assert(self.tables@.take(i as int).last() == self.tables@[i - 1]);
            }
            if self.tables[i - 1].name == *t {
                return Some(&self.tables[i - 1].columns);
            }
            i = i - 1;
        }
        None
    }

    /// The type of column `c` of table `t`.
    pub fn lookup(&self, t: &String, c: &String) -> (r: Result<DataType, Error>)
        ensures
            r == lookup(self@, t@, c@),
    {
        match self.table_columns(t) {
            None => Err(Error::UnknownTable),
            Some(cols) => match find_column(cols, c) {
                Some(ty) => Ok(ty),
                None => Err(Error::UnknownColumn),
            },
        }
    }
}

/// A `Result` of the schema, as its model.
pub open spec fn schema_result_view(r: Result<Schema, Error>) -> Result<SchemaModel, Error> {
    match r {
        Ok(s) => Ok(s@),
        Err(e) => Err(e),
    }
}

/// Builds the schema that the table definitions among `stmts` describe.
/// Statements that are not table definitions are skipped; a table defined
/// again takes the columns of its last definition.
pub fn get_definition(stmts: &Vec<Statement>) -> (r: Result<Schema, Error>)
    ensures
        schema_result_view(r) == schema_of(stmts@),
{
    let mut tables: Vec<Table> = Vec::new();
    let mut i: usize = 0;
    proof {
        assert(stmts@.take(0) =~= Seq::<Statement>::empty());
    }
    while i < stmts.len()
        invariant
            i <= stmts.len(),
            define_all(Map::empty(), stmts@.take(i as int)) == Ok::<SchemaModel, Error>(
                tables_model(tables@),
            ),
        decreases stmts.len() - i,
    {
        proof {
            assert(stmts@.take(i + 1).drop_last() =~= stmts@.take(i as int));
        }
        match &stmts[i] {
            Statement::CreateTable { name, columns } => {
                match build_columns(columns) {
                    Err(e) => {
                        proof {
                            lemma_define_prefix_err(Map::empty(), stmts@, i + 1);
                        }
                        return Err(e);
                    },
                    Ok(cols) => {
                        let ghost prev = tables@;
                        tables.push(Table { name: name.clone(), columns: cols });
                        proof {
                            assert(tables@.drop_last() =~= prev);
                        }
                    },
                }
            },
            _ => {},
        }
        i = i + 1;
    }
    proof {
        assert(stmts@.take(i as int) =~= stmts@);
    }
    Ok(Schema { tables })
}

} // verus!
