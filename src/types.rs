//! The value and schema model: values, column and table descriptors, rows,
//! and the commands that statements translate into.
use vstd::prelude::*;

verus! {

/// A value held in a row.
#[derive(Debug, Clone, PartialEq, Eq)]
pub enum Value {
    Text(String),
    Boolean(bool),
    /// A decimal number, in its canonical decimal text.
    Number(String),
    Bytes(Vec<u8>),
    Null,
}

/// The mathematical content of a [`Value`].
pub enum ValueView {
    Text(Seq<char>),
    Boolean(bool),
    Number(Seq<char>),
    Bytes(Seq<u8>),
    Null,
}

impl View for Value {
    type V = ValueView;

    open spec fn view(&self) -> ValueView {
        match self {
            Value::Text(s) => ValueView::Text(s@),
            Value::Boolean(b) => ValueView::Boolean(*b),
            Value::Number(n) => ValueView::Number(n@),
            Value::Bytes(b) => ValueView::Bytes(b@),
            Value::Null => ValueView::Null,
        }
    }
}

/// Relies on `==` of `str`: true exactly when both hold the same characters.
#[verifier::external_body]
pub(crate) fn str_eq(a: &str, b: &str) -> (r: bool)
    ensures
        r == (a@ == b@),
{
    a == b
}

/// A copy of a byte vector.
pub fn copy_bytes(v: &Vec<u8>) -> (r: Vec<u8>)
    ensures
        r@ == v@,
{
    let mut r: Vec<u8> = Vec::new();
    let mut i: usize = 0;
    while i < v.len()
        invariant
            i <= v@.len(),
            r@ == v@.subrange(0, i as int),
        decreases v@.len() - i,
    {
        r.push(v[i]);
        i = i + 1;
    }
    assert(r@ =~= v@);
    r
}

impl Value {
    /// A copy of this value with the same content.
    pub fn deep_copy(&self) -> (r: Value)
        ensures
            r@ == self@,
    {
        match self {
            Value::Text(s) => Value::Text(s.clone()),
            Value::Boolean(b) => Value::Boolean(*b),
            Value::Number(n) => Value::Number(n.clone()),
            Value::Bytes(b) => Value::Bytes(copy_bytes(b)),
            Value::Null => Value::Null,
        }
    }
}

/// The declared type of a column.
#[derive(Debug, Clone, PartialEq, Eq)]
pub enum DataType {
    Text,
    Character,
    Char,
    CharacterVarying,
    Varchar,
    Nvarchar,
    Bool,
    Boolean,
    Numeric,
    Decimal,
    Dec,
    Float,
    Int,
    UnsignedInt,
    Integer,
    UnsignedInteger,
    Real,
    Double,
    Bytea,
    Blob,
    Bytes,
    Unspecified,
    /// Any other type, by its SQL name.
    Other(String),
}

impl DataType {
    pub open spec fn holds_text(&self) -> bool {
        match self {
            DataType::Text | DataType::Character | DataType::Char | DataType::CharacterVarying
            | DataType::Varchar | DataType::Nvarchar => true,
            _ => false,
        }
    }

    pub open spec fn holds_boolean(&self) -> bool {
        match self {
            DataType::Bool | DataType::Boolean => true,
            _ => false,
        }
    }

    pub open spec fn holds_number(&self) -> bool {
        match self {
            DataType::Numeric | DataType::Decimal | DataType::Dec | DataType::Float
            | DataType::Int | DataType::UnsignedInt | DataType::Integer
            | DataType::UnsignedInteger | DataType::Real | DataType::Double => true,
            _ => false,
        }
    }

    pub open spec fn holds_bytes(&self) -> bool {
        match self {
            DataType::Bytea | DataType::Blob | DataType::Bytes => true,
            _ => false,
        }
    }

    /// A copy of this type.
    pub fn deep_copy(&self) -> (r: DataType)
        ensures
            r == *self,
    {
        match self {
            DataType::Text => DataType::Text,
            DataType::Character => DataType::Character,
            DataType::Char => DataType::Char,
            DataType::CharacterVarying => DataType::CharacterVarying,
            DataType::Varchar => DataType::Varchar,
            DataType::Nvarchar => DataType::Nvarchar,
            DataType::Bool => DataType::Bool,
            DataType::Boolean => DataType::Boolean,
            DataType::Numeric => DataType::Numeric,
            DataType::Decimal => DataType::Decimal,
            DataType::Dec => DataType::Dec,
            DataType::Float => DataType::Float,
            DataType::Int => DataType::Int,
            DataType::UnsignedInt => DataType::UnsignedInt,
            DataType::Integer => DataType::Integer,
            DataType::UnsignedInteger => DataType::UnsignedInteger,
            DataType::Real => DataType::Real,
            DataType::Double => DataType::Double,
            DataType::Bytea => DataType::Bytea,
            DataType::Blob => DataType::Blob,
            DataType::Bytes => DataType::Bytes,
            DataType::Unspecified => DataType::Unspecified,
            DataType::Other(s) => DataType::Other(s.clone()),
        }
    }
}

/// A literal as written in a statement.
#[derive(Debug, Clone, PartialEq, Eq)]
pub enum Literal {
    /// A string in any quoting style.
    Text(String),
    Boolean(bool),
    Null,
    /// A numeric literal, as written.
    Number(String),
    /// The digits of a hex string literal (`X'..'`).
    HexString(String),
    /// Any other literal form, by its SQL text.
    Unsupported(String),
}

/// An expression as written in a statement: a literal, or anything else by
/// its SQL text.
#[derive(Debug, Clone, PartialEq, Eq)]
pub enum Expr {
    Literal(Literal),
    Other(String),
}

impl Literal {
    /// A copy of this literal.
    pub fn deep_copy(&self) -> (r: Literal)
        ensures
            r == *self,
    {
        match self {
            Literal::Text(s) => Literal::Text(s.clone()),
            Literal::Boolean(b) => Literal::Boolean(*b),
            Literal::Null => Literal::Null,
            Literal::Number(s) => Literal::Number(s.clone()),
            Literal::HexString(s) => Literal::HexString(s.clone()),
            Literal::Unsupported(s) => Literal::Unsupported(s.clone()),
        }
    }
}

impl Expr {
    /// A copy of this expression.
    pub fn deep_copy(&self) -> (r: Expr)
        ensures
            r == *self,
    {
        match self {
            Expr::Literal(l) => Expr::Literal(l.deep_copy()),
            Expr::Other(s) => Expr::Other(s.clone()),
        }
    }
}

/// The declaration of one column.
#[derive(Debug, Clone, PartialEq, Eq)]
pub struct ColumnDescriptor {
    pub datatype: DataType,
    pub not_null: bool,
    pub unique: bool,
    pub primary_key: bool,
    pub auto_increment: bool,
    /// The referenced table and column.
    pub foreign_key: Option<(String, String)>,
    /// The expression that fills the column when an insert omits it.
    pub default: Option<Expr>,
}

impl Default for ColumnDescriptor {
    fn default() -> (r: Self)
        ensures
            r == (ColumnDescriptor {
                datatype: DataType::Unspecified,
                not_null: false,
                unique: false,
                primary_key: false,
                auto_increment: false,
                foreign_key: None,
                default: None,
            }),
    {
        ColumnDescriptor {
            datatype: DataType::Unspecified,
            not_null: false,
            unique: false,
            primary_key: false,
            auto_increment: false,
            foreign_key: None,
            default: None,
        }
    }
}

impl ColumnDescriptor {
    pub open spec fn spec_needs_value(&self) -> bool {
        self.not_null && !(self.primary_key || self.auto_increment || self.default is Some)
    }

    pub open spec fn spec_should_generate(&self) -> bool {
        self.auto_increment || self.default is Some || self.not_null
    }

    pub open spec fn spec_value_matches_type(&self, v: ValueView) -> bool {
        match v {
            ValueView::Text(_) => self.datatype.holds_text(),
            ValueView::Boolean(_) => self.datatype.holds_boolean(),
            ValueView::Number(_) => self.datatype.holds_number(),
            ValueView::Bytes(_) => self.datatype.holds_bytes(),
            ValueView::Null => !self.not_null,
        }
    }

    /// Whether every insert must name this column: it is not-null and nothing
    /// (primary key, auto-increment, default) relieves the caller of it.
    pub fn needs_value(&self) -> (r: bool)
        ensures
            r == self.spec_needs_value(),
    {
        self.not_null && !(self.primary_key || self.auto_increment || self.default.is_some())
    }

    /// Whether the engine may have to make a value for this column.
    pub fn should_generate(&self) -> (r: bool)
        ensures
            r == self.spec_should_generate(),
    {
        self.auto_increment || self.default.is_some() || self.not_null
    }

    /// Whether `value` fits the column's declared type; null fits a nullable
    /// column of any type.
    pub fn value_matches_type(&self, value: &Value) -> (r: bool)
        ensures
            r == self.spec_value_matches_type(value@),
    {
        match value {
            Value::Text(_) => match &self.datatype {
                DataType::Text | DataType::Character | DataType::Char | DataType::CharacterVarying
                | DataType::Varchar | DataType::Nvarchar => true,
                _ => false,
            },
            Value::Boolean(_) => match &self.datatype {
                DataType::Bool | DataType::Boolean => true,
                _ => false,
            },
            Value::Number(_) => match &self.datatype {
                DataType::Numeric | DataType::Decimal | DataType::Dec | DataType::Float
                | DataType::Int | DataType::UnsignedInt | DataType::Integer
                | DataType::UnsignedInteger | DataType::Real | DataType::Double => true,
                _ => false,
            },
            Value::Bytes(_) => match &self.datatype {
                DataType::Bytea | DataType::Blob | DataType::Bytes => true,
                _ => false,
            },
            Value::Null => !self.not_null,
        }
    }

    /// A copy of this descriptor.
    pub fn deep_copy(&self) -> (r: ColumnDescriptor)
        ensures
            r == *self,
    {
        let foreign_key = match &self.foreign_key {
            Some((t, c)) => Some((t.clone(), c.clone())),
            None => None,
        };
        let default = match &self.default {
            Some(e) => Some(e.deep_copy()),
            None => None,
        };
        ColumnDescriptor {
            datatype: self.datatype.deep_copy(),
            not_null: self.not_null,
            unique: self.unique,
            primary_key: self.primary_key,
            auto_increment: self.auto_increment,
            foreign_key,
            default,
        }
    }
}

/// A table's columns by name; each name appears once. Columns keep the order
/// in which they were first inserted.
#[derive(Debug, Clone, PartialEq, Eq)]
pub struct ColumnDescriptors {
    pub entries: Vec<(String, ColumnDescriptor)>,
}

/// Whether no two entries share a name.
pub open spec fn names_unique(entries: Seq<(String, ColumnDescriptor)>) -> bool {
    forall|i: int, j: int|
        0 <= i < entries.len() && 0 <= j < entries.len() && i != j ==> #[trigger] entries[i].0@
            != #[trigger] entries[j].0@
}

/// The position of the entry named `name`, if any.
pub open spec fn position_of(entries: Seq<(String, ColumnDescriptor)>, name: Seq<char>) -> Option<int>
    decreases entries.len(),
{
    if entries.len() == 0 {
        None
    } else if entries.last().0@ == name {
        Some(entries.len() - 1)
    } else {
        position_of(entries.drop_last(), name)
    }
}

pub proof fn lemma_position_of(entries: Seq<(String, ColumnDescriptor)>, name: Seq<char>)
    ensures
        match position_of(entries, name) {
            Some(i) => 0 <= i < entries.len() && entries[i].0@ == name,
            None => forall|k: int| 0 <= k < entries.len() ==> #[trigger] entries[k].0@ != name,
        },
    decreases entries.len(),
{
    if entries.len() > 0 {
        let prev = entries.drop_last();
        lemma_position_of(prev, name);
        assert(entries.last() == entries[entries.len() - 1]);
        if entries.last().0@ != name && position_of(prev, name) is None {
            assert forall|k: int| 0 <= k < entries.len() implies #[trigger] entries[k].0@ != name by {
                if k < entries.len() - 1 {
                    assert(entries[k] == prev[k]);
                }
            }
        }
    }
}

pub proof fn lemma_position_of_unique(entries: Seq<(String, ColumnDescriptor)>, i: int)
    requires
        names_unique(entries),
        0 <= i < entries.len(),
    ensures
        position_of(entries, entries[i].0@) == Some(i),
{
    lemma_position_of(entries, entries[i].0@);
}

impl View for ColumnDescriptors {
    type V = Seq<(String, ColumnDescriptor)>;

    open spec fn view(&self) -> Seq<(String, ColumnDescriptor)> {
        self.entries@
    }
}

impl ColumnDescriptors {
    /// No two columns share a name.
    pub open spec fn wf(&self) -> bool {
        names_unique(self@)
    }

    /// The descriptor of column `name`, if the table has one.
    pub open spec fn spec_get(&self, name: Seq<char>) -> Option<ColumnDescriptor> {
        match position_of(self@, name) {
            Some(i) => Some(self@[i].1),
            None => None,
        }
    }

    /// An empty set of columns.
    pub fn new() -> (r: ColumnDescriptors)
        ensures
            r@.len() == 0,
            r.wf(),
    {
        ColumnDescriptors { entries: Vec::new() }
    }

    /// The number of columns.
    pub fn len(&self) -> (r: usize)
        ensures
            r == self@.len(),
    {
        self.entries.len()
    }

    /// The position of column `name`, if the table has one.
    pub fn position(&self, name: &str) -> (r: Option<usize>)
        ensures
            match (r, position_of(self@, name@)) {
                (Some(i), Some(j)) => i == j,
                (None, None) => true,
                _ => false,
            },
    {
        let mut i: usize = self.entries.len();
        assert(self@.subrange(0, i as int) =~= self@);
        while i > 0
            invariant
                i <= self@.len(),
                position_of(self@, name@) == position_of(self@.subrange(0, i as int), name@),
            decreases i,
        {
            proof {
                assert(self@.subrange(0, i as int).drop_last() =~= self@.subrange(0, i - 1));
            }
            if str_eq(self.entries[i - 1].0.as_str(), name) {
                return Some(i - 1);
            }
            i = i - 1;
        }
        None
    }

    /// Whether the table has a column `name`.
    pub fn contains_key(&self, name: &str) -> (r: bool)
        ensures
            r == (position_of(self@, name@) is Some),
    {
        self.position(name).is_some()
    }

    /// The descriptor of column `name`, if the table has one.
    pub fn get(&self, name: &str) -> (r: Option<&ColumnDescriptor>)
        ensures
            match r {
                Some(d) => self.spec_get(name@) == Some(*d),
                None => self.spec_get(name@) is None,
            },
    {
        proof {
            lemma_position_of(self@, name@);
        }
        match self.position(name) {
            Some(i) => Some(&self.entries[i].1),
            None => None,
        }
    }

    /// Sets the descriptor of column `name`: in place where the column is
    /// present, as a new last column where it is not.
    pub fn insert(&mut self, name: String, desc: ColumnDescriptor)
        requires
            old(self).wf(),
        ensures
            final(self).wf(),
            match position_of(old(self)@, name@) {
                Some(i) => final(self)@ == old(self)@.update(i, (name, desc)),
                None => final(self)@ == old(self)@.push((name, desc)),
            },
    {
        proof {
            lemma_position_of(self@, name@);
        }
        match self.position(name.as_str()) {
            Some(i) => {
                self.entries.set(i, (name, desc));
            },
            None => {
                self.entries.push((name, desc));
            },
        }
    }

    /// Whether no two columns share a name.
    pub fn is_wf(&self) -> (r: bool)
        ensures
            r == self.wf(),
    {
        let mut i: usize = 0;
        while i < self.entries.len()
            invariant
                i <= self@.len(),
                forall|a: int, b: int| 0 <= a < i && 0 <= b < self@.len() && a != b ==> #[trigger] self@[a].0@
                    != #[trigger] self@[b].0@,
            decreases self@.len() - i,
        {
            let mut j: usize = 0;
            while j < self.entries.len()
                invariant
                    i < self@.len(),
                    j <= self@.len(),
                    forall|a: int, b: int| 0 <= a < i && 0 <= b < self@.len() && a != b ==> #[trigger] self@[a].0@
                        != #[trigger] self@[b].0@,
                    forall|b: int| 0 <= b < j && b != i ==> self@[i as int].0@ != #[trigger] self@[b].0@,
                decreases self@.len() - j,
            {
                if j != i && self.entries[i].0 == self.entries[j].0 {
                    return false;
                }
                j = j + 1;
            }
            i = i + 1;
        }
        true
    }

    /// A copy of these columns.
    pub fn deep_copy(&self) -> (r: ColumnDescriptors)
        ensures
            r@ == self@,
    {
        let mut entries: Vec<(String, ColumnDescriptor)> = Vec::new();
        let mut i: usize = 0;
        while i < self.entries.len()
            invariant
                i <= self@.len(),
                entries@ == self@.subrange(0, i as int),
            decreases self@.len() - i,
        {
            entries.push((self.entries[i].0.clone(), self.entries[i].1.deep_copy()));
            i = i + 1;
        }
        assert(entries@ =~= self@);
        ColumnDescriptors { entries }
    }
}

/// One row, as values by column name.
#[derive(Debug, Clone, PartialEq, Eq)]
pub struct Record {
    pub columns: Vec<(String, Value)>,
}

impl View for Record {
    type V = Seq<(Seq<char>, ValueView)>;

    open spec fn view(&self) -> Seq<(Seq<char>, ValueView)> {
        Seq::new(self.columns@.len(), |i: int| (self.columns@[i].0@, self.columns@[i].1@))
    }
}

/// The value under `name` in a row's pairs: the first one, if any.
pub open spec fn lookup(pairs: Seq<(Seq<char>, ValueView)>, name: Seq<char>) -> Option<ValueView>
    decreases pairs.len(),
{
    if pairs.len() == 0 {
        None
    } else if pairs[0].0 == name {
        Some(pairs[0].1)
    } else {
        lookup(pairs.drop_first(), name)
    }
}

impl Record {
    /// The value of column `name`, if the row holds one.
    pub fn get(&self, name: &str) -> (r: Option<&Value>)
        ensures
            match r {
                Some(v) => lookup(self@, name@) == Some(v@),
                None => lookup(self@, name@) is None,
            },
    {
        let mut i: usize = 0;
        assert(self@.subrange(0, self@.len() as int) =~= self@);
        while i < self.columns.len()
            invariant
                i <= self@.len(),
                lookup(self@, name@) == lookup(self@.subrange(i as int, self@.len() as int), name@),
            decreases self@.len() - i,
        {
            proof {
                assert(self@.subrange(i as int, self@.len() as int).drop_first()
                    =~= self@.subrange(i + 1, self@.len() as int));
            }
            if str_eq(self.columns[i].0.as_str(), name) {
                return Some(&self.columns[i].1);
            }
            i = i + 1;
        }
        None
    }
}

/// The pairs of a row given by parallel column names and values; the
/// shorter of the two decides the length.
pub open spec fn zipped(columns: Seq<String>, row: Seq<Value>) -> Seq<(Seq<char>, ValueView)> {
    Seq::new(vstd::math::min(columns.len() as int, row.len() as int) as nat, |k: int| (columns[k]@, row[k]@))
}

/// A table to create: its name and its columns.
#[derive(Debug, Clone, PartialEq, Eq)]
pub struct CreateTableOptions {
    pub name: String,
    pub columns: ColumnDescriptors,
}

/// Rows to insert: the table, the columns named, and for each row its values
/// in the order of the columns.
#[derive(Debug, Clone, PartialEq, Eq)]
pub struct InsertOptions {
    pub table: String,
    pub columns: Vec<String>,
    pub values: Vec<Vec<Value>>,
}

/// A query; queries are accepted by translation and refused when run.
#[derive(Debug, Clone, PartialEq, Eq)]
pub struct QueryOptions {}

impl InsertOptions {
    /// One record per row, pairing each column with the value at its place.
    pub fn records(&self) -> (r: Vec<Record>)
        ensures
            r@.len() == self.values@.len(),
            forall|i: int| 0 <= i < r@.len() ==> #[trigger] r@[i]@ == zipped(self.columns@, self.values@[i]@),
    {
        let mut out: Vec<Record> = Vec::new();
        let mut i: usize = 0;
        while i < self.values.len()
            invariant
                i <= self.values@.len(),
                out@.len() == i,
                forall|k: int| 0 <= k < i ==> #[trigger] out@[k]@ == zipped(self.columns@, self.values@[k]@),
            decreases self.values@.len() - i,
        {
            let row = &self.values[i];
            let mut pairs: Vec<(String, Value)> = Vec::new();
            let mut j: usize = 0;
            while j < self.columns.len() && j < row.len()
                invariant
                    j <= self.columns@.len(),
                    j <= row@.len(),
                    pairs@.len() == j,
                    forall|k: int| 0 <= k < j ==> (#[trigger] pairs@[k]).0@ == self.columns@[k]@
                        && pairs@[k].1@ == row@[k]@,
                decreases self.columns@.len() - j,
            {
                pairs.push((self.columns[j].clone(), row[j].deep_copy()));
                j = j + 1;
            }
            let rec = Record { columns: pairs };
            assert(rec@ =~= zipped(self.columns@, row@));
            out.push(rec);
            i = i + 1;
        }
        out
    }

    /// Whether the insert names no column or carries no row.
    pub fn is_empty(&self) -> (r: bool)
        ensures
            r == (self.columns@.len() == 0 || self.values@.len() == 0),
    {
        self.columns.len() == 0 || self.values.len() == 0
    }
}

/// What one statement asks of the store.
#[derive(Debug, Clone, PartialEq, Eq)]
pub enum Command {
    CreateTable(CreateTableOptions),
    Insert(InsertOptions),
    Select(QueryOptions),
}

} // verus!
