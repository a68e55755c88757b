use vstd::prelude::*;
use crate::catalog::{
    Column, ColumnPrivilege, Index, Routine, RoutinePrivilege, Schema, Sequence, Table, TableConstraint,
    TablePrivilege, TableTrigger,
};
use crate::catalog::View as ViewRow;

verus! {

/// The rows that a sequence of references points to.
pub open spec fn deref_all<T>(v: Seq<&T>) -> Seq<T> {
    v.map_values(|x: &T| *x)
}

/// A catalog row with a natural key: the texts that identify it within its parent.
pub trait Keyed {
    spec fn key_view(&self) -> Seq<Seq<char>>;

    fn key(&self) -> (r: Vec<String>)
        ensures
            r.deep_view() == self.key_view(),
    ;
}

/// The natural keys of `rows`, in order.
pub open spec fn key_views<T: Keyed>(rows: Seq<T>) -> Seq<Seq<Seq<char>>> {
    rows.map_values(|x: T| x.key_view())
}

/// References to every row of `v`, in order.
pub fn refs<T>(v: &Vec<T>) -> (r: Vec<&T>)
    ensures
        deref_all(r@) == v@,
{
    let mut r: Vec<&T> = Vec::new();
    let mut i: usize = 0;
    while i < v.len()
        invariant
            0 <= i <= v.len(),
            r.len() == i,
            forall|k: int| 0 <= k < i ==> *r@[k] == v@[k],
        decreases v.len() - i,
    {
        r.push(&v[i]);
        i = i + 1;
    }
    assert(deref_all(r@) =~= v@);
    r
}

/// A constraint other than a CHECK constraint.
pub open spec fn named_stably() -> spec_fn(TableConstraint) -> bool {
    |x: TableConstraint| x.constraint_type@ != "CHECK"@
}

/// The constraints of `v` other than CHECK constraints, whose names are not stable, in order.
pub fn without_check_constraints<'a>(v: Vec<&'a TableConstraint>) -> (r: Vec<&'a TableConstraint>)
    ensures
        deref_all(r@) == deref_all(v@).filter(named_stably()),
{
    let ghost pred: spec_fn(TableConstraint) -> bool = named_stably();
    let ghost s: Seq<TableConstraint> = deref_all(v@);
    let check = "CHECK".to_owned();
    let mut r: Vec<&'a TableConstraint> = Vec::new();
    let mut i: usize = 0;
    while i < v.len()
        invariant
            0 <= i <= v.len(),
            s == deref_all(v@),
            pred == named_stably(),
            check@ == "CHECK"@,
            deref_all(r@) == s.take(i as int).filter(pred),
        decreases v.len() - i,
    {
        let x: &'a TableConstraint = v[i];
        proof {
            assert(s.take(i + 1).drop_last() =~= s.take(i as int));
            assert(s.take(i + 1).last() == *x);
            reveal(Seq::filter);
        }
        if x.constraint_type != check {
            r.push(x);
            assert(deref_all(r@) =~= s.take(i as int).filter(pred).push(*x));
        }
        i = i + 1;
    }
    assert(s.take(v.len() as int) =~= s);
    r
}

/// The natural keys of the rows of `v`, in order.
pub fn keys_of<T: Keyed>(v: &Vec<&T>) -> (r: Vec<Vec<String>>)
    ensures
        r.deep_view() == key_views(deref_all(v@)),
{
    let mut r: Vec<Vec<String>> = Vec::new();
    let mut i: usize = 0;
    while i < v.len()
        invariant
            0 <= i <= v.len(),
            r.len() == i,
            forall|k: int| 0 <= k < i ==> (#[trigger] r@[k]).deep_view() == (*v@[k]).key_view(),
        decreases v.len() - i,
    {
        r.push(v[i].key());
        i = i + 1;
    }
    assert(r.deep_view() =~= key_views(deref_all(v@)));
    r
}

impl Keyed for Routine {
    open spec fn key_view(&self) -> Seq<Seq<char>> {
        seq![self.signature@]
    }

    fn key(&self) -> (r: Vec<String>) {
        let r = vec![self.signature.clone()];
        assert(r.deep_view() =~= self.key_view());
        r
    }
}

impl Keyed for Sequence {
    open spec fn key_view(&self) -> Seq<Seq<char>> {
        seq![self.sequence_name@]
    }

    fn key(&self) -> (r: Vec<String>) {
        let r = vec![self.sequence_name.clone()];
        assert(r.deep_view() =~= self.key_view());
        r
    }
}

impl Keyed for Table {
    open spec fn key_view(&self) -> Seq<Seq<char>> {
        seq![self.table_name@]
    }

    fn key(&self) -> (r: Vec<String>) {
        let r = vec![self.table_name.clone()];
        assert(r.deep_view() =~= self.key_view());
        r
    }
}

impl Keyed for Column {
    open spec fn key_view(&self) -> Seq<Seq<char>> {
        seq![self.column_name@]
    }

    fn key(&self) -> (r: Vec<String>) {
        let r = vec![self.column_name.clone()];
        assert(r.deep_view() =~= self.key_view());
        r
    }
}

impl Keyed for Index {
    open spec fn key_view(&self) -> Seq<Seq<char>> {
        seq![self.index_name@]
    }

    fn key(&self) -> (r: Vec<String>) {
        let r = vec![self.index_name.clone()];
        assert(r.deep_view() =~= self.key_view());
        r
    }
}

impl Keyed for TableConstraint {
    open spec fn key_view(&self) -> Seq<Seq<char>> {
        seq![self.constraint_name@]
    }

    fn key(&self) -> (r: Vec<String>) {
        let r = vec![self.constraint_name.clone()];
        assert(r.deep_view() =~= self.key_view());
        r
    }
}

impl Keyed for TableTrigger {
    open spec fn key_view(&self) -> Seq<Seq<char>> {
        seq![self.trigger_name@, self.event_manipulation@]
    }

    fn key(&self) -> (r: Vec<String>) {
        let r = vec![self.trigger_name.clone(), self.event_manipulation.clone()];
        assert(r.deep_view() =~= self.key_view());
        r
    }
}

impl Keyed for ViewRow {
    open spec fn key_view(&self) -> Seq<Seq<char>> {
        seq![self.table_name@]
    }

    fn key(&self) -> (r: Vec<String>) {
        let r = vec![self.table_name.clone()];
        assert(r.deep_view() =~= self.key_view());
        r
    }
}

/// A catalog row that belongs to one schema.
pub trait InSchema {
    spec fn schema_view(&self) -> Seq<char>;

    fn schema(&self) -> (r: &String)
        ensures
            r@ == self.schema_view(),
    ;
}

/// A catalog row that belongs to one table.
pub trait InTable {
    spec fn table_view(&self) -> Seq<char>;

    fn table(&self) -> (r: &String)
        ensures
            r@ == self.table_view(),
    ;
}

pub open spec fn in_schema<T: InSchema>(schema: Seq<char>) -> spec_fn(T) -> bool {
    |x: T| x.schema_view() == schema
}

/// A grant that concerns one item of its parent: a routine, or a column of a table.
pub trait OnItem {
    spec fn item_view(&self) -> Seq<char>;

    fn item(&self) -> (r: &String)
        ensures
            r@ == self.item_view(),
    ;
}

pub open spec fn on_item<T: OnItem>(item: Seq<char>) -> spec_fn(T) -> bool {
    |x: T| x.item_view() == item
}

pub open spec fn in_table<T: InTable>(table: Seq<char>) -> spec_fn(T) -> bool {
    |x: T| x.table_view() == table
}

/// The rows of `v` that belong to `schema`, in order.
pub fn rows_in_schema<'a, T: InSchema>(v: &'a Vec<T>, schema: &String) -> (r: Vec<&'a T>)
    ensures
        deref_all(r@) == v@.filter(in_schema(schema@)),
{
    let ghost pred: spec_fn(T) -> bool = in_schema(schema@);
    let ghost s: Seq<T> = v@;
    let mut r: Vec<&'a T> = Vec::new();
    let mut i: usize = 0;
    while i < v.len()
        invariant
            0 <= i <= v.len(),
            s == v@,
            pred == in_schema::<T>(schema@),
            deref_all(r@) == s.take(i as int).filter(pred),
        decreases v.len() - i,
    {
        let x: &'a T = &v[i];
        proof {
            assert(s.take(i + 1).drop_last() =~= s.take(i as int));
            assert(s.take(i + 1).last() == *x);
            reveal(Seq::filter);
        }
        if *x.schema() == *schema {
            r.push(x);
            assert(deref_all(r@) =~= s.take(i as int).filter(pred).push(*x));
        }
        i = i + 1;
    }
    assert(s.take(v.len() as int) =~= s);
    r
}

/// The rows of `v` that belong to `table`, in order.
pub fn rows_in_table<'a, T: InTable>(v: &Vec<&'a T>, table: &String) -> (r: Vec<&'a T>)
    ensures
        deref_all(r@) == deref_all(v@).filter(in_table(table@)),
{
    let ghost pred: spec_fn(T) -> bool = in_table(table@);
    let ghost s: Seq<T> = deref_all(v@);
    let mut r: Vec<&'a T> = Vec::new();
    let mut i: usize = 0;
    while i < v.len()
        invariant
            0 <= i <= v.len(),
            s == deref_all(v@),
            pred == in_table::<T>(table@),
            deref_all(r@) == s.take(i as int).filter(pred),
        decreases v.len() - i,
    {
        let x: &'a T = v[i];
        proof {
            assert(s.take(i + 1).drop_last() =~= s.take(i as int));
            assert(s.take(i + 1).last() == *x);
            reveal(Seq::filter);
        }
        if *x.table() == *table {
            r.push(x);
            assert(deref_all(r@) =~= s.take(i as int).filter(pred).push(*x));
        }
        i = i + 1;
    }
    assert(s.take(v.len() as int) =~= s);
    r
}

/// The rows of `v` that concern `item`, in order.
pub fn rows_on_item<'a, T: OnItem>(v: &Vec<&'a T>, item: &String) -> (r: Vec<&'a T>)
    ensures
        deref_all(r@) == deref_all(v@).filter(on_item(item@)),
{
    let ghost pred: spec_fn(T) -> bool = on_item(item@);
    let ghost s: Seq<T> = deref_all(v@);
    let mut r: Vec<&'a T> = Vec::new();
    let mut i: usize = 0;
    while i < v.len()
        invariant
            0 <= i <= v.len(),
            s == deref_all(v@),
            pred == on_item::<T>(item@),
            deref_all(r@) == s.take(i as int).filter(pred),
        decreases v.len() - i,
    {
        let x: &'a T = v[i];
        proof {
            assert(s.take(i + 1).drop_last() =~= s.take(i as int));
            assert(s.take(i + 1).last() == *x);
            reveal(Seq::filter);
        }
        if *x.item() == *item {
            r.push(x);
            assert(deref_all(r@) =~= s.take(i as int).filter(pred).push(*x));
        }
        i = i + 1;
    }
    assert(s.take(v.len() as int) =~= s);
    r
}

impl InSchema for Schema {
    open spec fn schema_view(&self) -> Seq<char> {
        self.schema_name@
    }

    fn schema(&self) -> (r: &String) {
        &self.schema_name
    }
}

impl InSchema for Routine {
    open spec fn schema_view(&self) -> Seq<char> {
        self.routine_schema@
    }

    fn schema(&self) -> (r: &String) {
        &self.routine_schema
    }
}

impl InSchema for RoutinePrivilege {
    open spec fn schema_view(&self) -> Seq<char> {
        self.routine_schema@
    }

    fn schema(&self) -> (r: &String) {
        &self.routine_schema
    }
}

impl InSchema for Sequence {
    open spec fn schema_view(&self) -> Seq<char> {
        self.sequence_schema@
    }

    fn schema(&self) -> (r: &String) {
        &self.sequence_schema
    }
}

impl InSchema for Table {
    open spec fn schema_view(&self) -> Seq<char> {
        self.table_schema@
    }

    fn schema(&self) -> (r: &String) {
        &self.table_schema
    }
}

impl InSchema for Column {
    open spec fn schema_view(&self) -> Seq<char> {
        self.table_schema@
    }

    fn schema(&self) -> (r: &String) {
        &self.table_schema
    }
}

impl InSchema for ColumnPrivilege {
    open spec fn schema_view(&self) -> Seq<char> {
        self.table_schema@
    }

    fn schema(&self) -> (r: &String) {
        &self.table_schema
    }
}

impl InSchema for Index {
    open spec fn schema_view(&self) -> Seq<char> {
        self.table_schema@
    }

    fn schema(&self) -> (r: &String) {
        &self.table_schema
    }
}

impl InSchema for TablePrivilege {
    open spec fn schema_view(&self) -> Seq<char> {
        self.table_schema@
    }

    fn schema(&self) -> (r: &String) {
        &self.table_schema
    }
}

impl InSchema for TableConstraint {
    open spec fn schema_view(&self) -> Seq<char> {
        self.table_schema@
    }

    fn schema(&self) -> (r: &String) {
        &self.table_schema
    }
}

impl InSchema for TableTrigger {
    open spec fn schema_view(&self) -> Seq<char> {
        self.event_object_schema@
    }

    fn schema(&self) -> (r: &String) {
        &self.event_object_schema
    }
}

impl InSchema for ViewRow {
    open spec fn schema_view(&self) -> Seq<char> {
        self.table_schema@
    }

    fn schema(&self) -> (r: &String) {
        &self.table_schema
    }
}

impl InTable for Column {
    open spec fn table_view(&self) -> Seq<char> {
        self.table_name@
    }

    fn table(&self) -> (r: &String) {
        &self.table_name
    }
}

impl InTable for ColumnPrivilege {
    open spec fn table_view(&self) -> Seq<char> {
        self.table_name@
    }

    fn table(&self) -> (r: &String) {
        &self.table_name
    }
}

impl InTable for Index {
    open spec fn table_view(&self) -> Seq<char> {
        self.table_name@
    }

    fn table(&self) -> (r: &String) {
        &self.table_name
    }
}

impl InTable for TablePrivilege {
    open spec fn table_view(&self) -> Seq<char> {
        self.table_name@
    }

    fn table(&self) -> (r: &String) {
        &self.table_name
    }
}

impl InTable for TableConstraint {
    open spec fn table_view(&self) -> Seq<char> {
        self.table_name@
    }

    fn table(&self) -> (r: &String) {
        &self.table_name
    }
}

impl InTable for TableTrigger {
    open spec fn table_view(&self) -> Seq<char> {
        self.event_object_table@
    }

    fn table(&self) -> (r: &String) {
        &self.event_object_table
    }
}

impl OnItem for ColumnPrivilege {
    open spec fn item_view(&self) -> Seq<char> {
        self.column_name@
    }

    fn item(&self) -> (r: &String) {
        &self.column_name
    }
}

impl OnItem for RoutinePrivilege {
    open spec fn item_view(&self) -> Seq<char> {
        self.signature@
    }

    fn item(&self) -> (r: &String) {
        &self.signature
    }
}

} // verus!
