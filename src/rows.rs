use vstd::prelude::*;

verus! {

/// One column value of a result row. A real number is held as the bit
/// pattern of its IEEE 754 double.
pub enum SqlValue {
    Null,
    Integer(i64),
    Real(u64),
    Text(String),
    Blob(Vec<u8>),
}

/// The index a column name resolves to: the last column of that name.
pub open spec fn column_index(columns: Seq<String>, name: Seq<char>) -> Option<int> {
    if exists|i: int| 0 <= i < columns.len() && #[trigger] columns[i]@ == name {
        Some(
            choose|i: int|
                0 <= i < columns.len() && #[trigger] columns[i]@ == name && forall|j: int|
                    i < j < columns.len() ==> #[trigger] columns[j]@ != name,
        )
    } else {
        None
    }
}

/// The value a column name resolves to, if the name and the value exist.
pub open spec fn value_at(columns: Seq<String>, values: Seq<SqlValue>, name: Seq<char>) -> Option<
    SqlValue,
> {
    match column_index(columns, name) {
        Some(i) => if i < values.len() {
            Some(values[i])
        } else {
            None
        },
        None => None,
    }
}

/// One buffered row of a query: the column names and the values read.
pub struct QueryResultRow {
    columns: Vec<String>,
    values: Vec<SqlValue>,
}

impl QueryResultRow {
    pub closed spec fn columns(&self) -> Seq<String> {
        self.columns@
    }

    pub closed spec fn values(&self) -> Seq<SqlValue> {
        self.values@
    }

    /// A row of `values` under the column names `columns`.
    pub fn new(columns: Vec<String>, values: Vec<SqlValue>) -> (r: QueryResultRow)
        ensures
            r.columns() == columns@,
            r.values() == values@,
    {
        QueryResultRow { columns, values }
    }

    /// The position of the last column named `column`.
    fn index_of(&self, column: &str) -> (r: Option<usize>)
        ensures
            r is None <==> column_index(self.columns(), column@) is None,
            r matches Some(k) ==> column_index(self.columns(), column@) == Some(k as int),
    {
        let key = column.to_owned();
        let mut i: usize = self.columns.len();
        while i > 0
            invariant
                i <= self.columns@.len(),
                key@ == column@,
                forall|j: int| i <= j < self.columns@.len() ==> #[trigger] self.columns@[j]@ != key@,
            decreases i,
        {
            i = i - 1;
            if self.columns[i] == key {
                proof {
                    let cols = self.columns@;
                    assert(cols[i as int]@ == column@);
                    assert(0 <= i < cols.len() && cols[i as int]@ == column@ && forall|j: int|
                        i < j < cols.len() ==> #[trigger] cols[j]@ != column@);
                    let k = column_index(cols, column@)->Some_0;
                    assert(0 <= k < cols.len() && cols[k]@ == column@ && forall|j: int|
                        k < j < cols.len() ==> #[trigger] cols[j]@ != column@);
                    if k < i {
                        assert(cols[i as int]@ != column@);
                    }
                }
                return Some(i);
            }
        }
        None
    }

    /// The value of the column named `column`, if there is one.
    pub fn get_value(&self, column: &str) -> (r: Option<&SqlValue>)
        ensures
            match value_at(self.columns(), self.values(), column@) {
                Some(v) => r matches Some(x) && *x == v,
                None => r is None,
            },
    {
        match self.index_of(column) {
            Some(i) => if i < self.values.len() {
                Some(&self.values[i])
            } else {
                None
            },
            None => None,
        }
    }

    /// The text in column `column`; `None` when the column is missing or
    /// does not hold text.
    pub fn get_string(&self, column: &str) -> (r: Option<String>)
        ensures
            match value_at(self.columns(), self.values(), column@) {
                Some(SqlValue::Text(s)) => r matches Some(x) && x@ == s@,
                _ => r is None,
            },
    {
        match self.get_value(column) {
            Some(SqlValue::Text(s)) => Some(s.clone()),
            _ => None,
        }
    }

    /// The integer in column `column`; `None` when the column is missing or
    /// does not hold an integer.
    pub fn get_i64(&self, column: &str) -> (r: Option<i64>)
        ensures
            match value_at(self.columns(), self.values(), column@) {
                Some(SqlValue::Integer(n)) => r == Some(n),
                _ => r is None,
            },
    {
        match self.get_value(column) {
            Some(SqlValue::Integer(n)) => Some(*n),
            _ => None,
        }
    }

    /// The bit pattern of the real number in column `column`; `None` when
    /// the column is missing or does not hold a real number.
    pub fn get_f64_bits(&self, column: &str) -> (r: Option<u64>)
        ensures
            match value_at(self.columns(), self.values(), column@) {
                Some(SqlValue::Real(b)) => r == Some(b),
                _ => r is None,
            },
    {
        match self.get_value(column) {
            Some(SqlValue::Real(b)) => Some(*b),
            _ => None,
        }
    }
}

} // verus!
