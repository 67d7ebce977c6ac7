//! The Vega `extent` transform: the smallest and largest value of a field,
//! handed out as a signal.
//!
//! Values are ordered integers (they stand for the column's values, which the
//! transform only compares); nulls take no part.
use vstd::prelude::*;

verus! {

/// The `extent` transform as a chart specification states it.
#[derive(Debug)]
pub struct ExtentTransformSpec {
    /// The field whose extent is computed.
    pub field: String,
    /// The signal that receives the extent, if any.
    pub signal: Option<String>,
}

/// The planned `extent` transform.
#[derive(Debug, Hash)]
pub struct ExtentTransform {
    /// The field whose extent is computed.
    pub field: String,
    /// The signal that receives the extent, if any.
    pub signal: Option<String>,
}

/// A named column of a table.
#[derive(Debug)]
pub struct Column {
    pub name: String,
    pub values: Vec<Option<i64>>,
}

/// A table of named columns, the data that transforms run on.
#[derive(Debug)]
pub struct Table {
    pub columns: Vec<Column>,
}

/// The smallest and the largest non-null value of a column; both null when
/// the column holds no non-null value.
#[derive(Clone, Copy, Debug, PartialEq, Eq)]
pub struct Extent {
    pub min: Option<i64>,
    pub max: Option<i64>,
}

/// The smallest non-null value of `s`, null if there is none.
pub open spec fn seq_min(s: Seq<Option<i64>>) -> Option<i64>
    decreases s.len(),
{
    if s.len() == 0 {
        None
    } else {
        let rest = seq_min(s.drop_last());
        match s.last() {
            None => rest,
            Some(v) => match rest {
                None => Some(v),
                Some(m) => Some(
                    if v < m {
                        v
                    } else {
                        m
                    },
                ),
            },
        }
    }
}

/// The largest non-null value of `s`, null if there is none.
pub open spec fn seq_max(s: Seq<Option<i64>>) -> Option<i64>
    decreases s.len(),
{
    if s.len() == 0 {
        None
    } else {
        let rest = seq_max(s.drop_last());
        match s.last() {
            None => rest,
            Some(v) => match rest {
                None => Some(v),
                Some(m) => Some(
                    if v > m {
                        v
                    } else {
                        m
                    },
                ),
            },
        }
    }
}

/// The extent of the values `s`.
pub open spec fn spec_extent(s: Seq<Option<i64>>) -> Extent {
    Extent { min: seq_min(s), max: seq_max(s) }
}

/// Column `i` is the first column of `columns` named `name`.
pub open spec fn is_first_column(columns: Seq<Column>, name: Seq<char>, i: int) -> bool {
    &&& 0 <= i < columns.len()
    &&& columns[i].name@ == name
    &&& forall|j: int| 0 <= j < i ==> (#[trigger] columns[j]).name@ != name
}

/// Some column of `columns` is named `name`.
pub open spec fn has_column(columns: Seq<Column>, name: Seq<char>) -> bool {
    exists|i: int| 0 <= i < columns.len() && (#[trigger] columns[i]).name@ == name
}

/// The extent of the values `values`.
pub fn extent_of(values: &Vec<Option<i64>>) -> (res: Extent)
    ensures
        res == spec_extent(values@),
{
    let mut min: Option<i64> = None;
    let mut max: Option<i64> = None;
    let mut i: usize = 0;
    while i < values.len()
        invariant
            i <= values.len(),
            min == seq_min(values@.take(i as int)),
            max == seq_max(values@.take(i as int)),
        decreases values.len() - i,
    {
        assert(values@.take(i + 1).drop_last() =~= values@.take(i as int));
        match values[i] {
            None => {},
            Some(v) => {
                min = match min {
                    None => Some(v),
                    Some(m) => Some(
                        if v < m {
                            v
                        } else {
                            m
                        },
                    ),
                };
                max = match max {
                    None => Some(v),
                    Some(m) => Some(
                        if v > m {
                            v
                        } else {
                            m
                        },
                    ),
                };
            },
        }
        i = i + 1;
    }
    assert(values@.take(values@.len() as int) =~= values@);
    Extent { min, max }
}

impl ExtentTransform {
    /// Plans the transform that `spec` states.
    pub fn new(spec: &ExtentTransformSpec) -> (res: Self)
        ensures
            res.field == spec.field,
            res.signal == spec.signal,
    {
        let signal = match &spec.signal {
            Some(s) => Some(s.clone()),
            None => None,
        };
        ExtentTransform { field: spec.field.clone(), signal }
    }

    /// Runs the transform on `table`, which it leaves as it is.  With a
    /// signal, the one value handed out is the extent of the first column
    /// named by the field; without one, nothing is handed out.
    pub fn call(&self, table: &Table) -> (res: Vec<Extent>)
        requires
            self.signal is Some ==> has_column(table.columns@, self.field@),
        ensures
            self.signal is None ==> res@.len() == 0,
            self.signal is Some ==> res@.len() == 1 && exists|i: int|
                #[trigger] is_first_column(table.columns@, self.field@, i) && res@[0]
                    == spec_extent(table.columns@[i].values@),
    {
        let mut res: Vec<Extent> = Vec::new();
        if self.signal.is_some() {
            let mut i: usize = 0;
            while i < table.columns.len()
                invariant
                    i <= table.columns.len(),
                    res@.len() == 0,
                    self.signal is Some,
                    has_column(table.columns@, self.field@),
                    forall|j: int| 0 <= j < i ==> (#[trigger] table.columns@[j]).name@ != self.field@,
                decreases table.columns.len() - i,
            {
                if table.columns[i].name == self.field {
                    let extent = extent_of(&table.columns[i].values);
                    res.push(extent);
                    assert(is_first_column(table.columns@, self.field@, i as int));
                    return res;
                }
                i = i + 1;
            }
            assert(false);
        }
        res
    }

    /// The signals that the transform hands values to: its signal, if any.
    pub fn output_signals(&self) -> (res: Vec<String>)
        ensures
            self.signal is None ==> res@.len() == 0,
            self.signal matches Some(s) ==> res@.len() == 1 && res@[0] == s,
    {
        let mut res: Vec<String> = Vec::new();
        match &self.signal {
            Some(s) => res.push(s.clone()),
            None => {},
        }
        res
    }
}

/// Every non-null value lies between the extent's bounds.
pub proof fn lemma_extent_bounds(s: Seq<Option<i64>>, i: int)
    requires
        0 <= i < s.len(),
        s[i] is Some,
    ensures
        seq_min(s) matches Some(m) && m <= s[i]->0,
        seq_max(s) matches Some(m) && s[i]->0 <= m,
    decreases s.len(),
{
    if i < s.len() - 1 {
        lemma_extent_bounds(s.drop_last(), i);
    }
}

/// The extent's bounds are values of the column.
pub proof fn lemma_extent_attained(s: Seq<Option<i64>>)
    ensures
        seq_min(s) matches Some(m) ==> exists|i: int| 0 <= i < s.len() && s[i] == Some(m),
        seq_max(s) matches Some(m) ==> exists|i: int| 0 <= i < s.len() && s[i] == Some(m),
    decreases s.len(),
{
    if s.len() > 0 {
        lemma_extent_attained(s.drop_last());
        let last = s.len() - 1;
        if seq_min(s) is Some && seq_min(s) != s[last] {
            let j = choose|j: int|
                0 <= j < s.drop_last().len() && s.drop_last()[j] == seq_min(s.drop_last());
            assert(s[j] == seq_min(s));
        }
        if seq_max(s) is Some && seq_max(s) != s[last] {
            let j = choose|j: int|
                0 <= j < s.drop_last().len() && s.drop_last()[j] == seq_max(s.drop_last());
            assert(s[j] == seq_max(s));
        }
    }
}

/// The extent is null exactly when every value is null.
pub proof fn lemma_extent_null(s: Seq<Option<i64>>)
    ensures
        seq_min(s) is None <==> (forall|i: int| 0 <= i < s.len() ==> (#[trigger] s[i]) is None),
        seq_max(s) is None <==> seq_min(s) is None,
    decreases s.len(),
{
    if s.len() > 0 {
        lemma_extent_null(s.drop_last());
        if seq_min(s) is None {
            assert forall|i: int| 0 <= i < s.len() implies (#[trigger] s[i]) is None by {
                if i < s.len() - 1 {
                    assert(s[i] == s.drop_last()[i]);
                }
            }
        }
        if seq_min(s) is Some {
            if s.last() is None {
                let j = choose|j: int|
                    0 <= j < s.drop_last().len() && !(s.drop_last()[j] is None);
                assert(s[j] == s.drop_last()[j]);
            }
        }
    }
}

} // verus!
