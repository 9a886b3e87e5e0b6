//! SELECT, UPDATE and DELETE statements and their rendering.

use vstd::prelude::*;
use vstd::string::*;
use crate::text::{
    SqlValue, Value, binds_suffix, join_by, join_strings, joined, joined_by, quote_identifier,
    quoted, render_bind_list, texts, values_view,
};

verus! {

/// How a filter compares its column with its value.
#[derive(Clone, Copy, Debug, PartialEq, Eq, Structural)]
pub enum FilterOp {
    Equals,
    Like,
}

/// The direction in which an ordering key sorts.
#[derive(Clone, Copy, Debug, PartialEq, Eq, Structural)]
pub enum Direction {
    Ascending,
    Descending,
}

/// The mathematical content of a filter.
pub struct FilterModel {
    pub column: Seq<char>,
    pub op: FilterOp,
    pub value: Value,
}

/// A condition on one column.
#[derive(Debug)]
pub struct Filter {
    pub column: String,
    pub op: FilterOp,
    pub value: SqlValue,
}

impl View for Filter {
    type V = FilterModel;

    open spec fn view(&self) -> FilterModel {
        FilterModel { column: self.column@, op: self.op, value: self.value@ }
    }
}

impl Filter {
    /// The rows whose column equals the value.
    pub fn equals(column: &str, value: SqlValue) -> (res: Filter)
        ensures
            res@ == (FilterModel { column: column@, op: FilterOp::Equals, value: value@ }),
    {
        Filter { column: String::from_str(column), op: FilterOp::Equals, value }
    }

    /// The rows whose column matches the pattern.
    pub fn like(column: &str, pattern: &str) -> (res: Filter)
        ensures
            res@ == (FilterModel {
                column: column@,
                op: FilterOp::Like,
                value: Value::Text(pattern@),
            }),
    {
        Filter { column: String::from_str(column), op: FilterOp::Like, value: SqlValue::text(pattern) }
    }
}

/// The mathematical content of an ordering key.
pub struct OrderModel {
    pub column: Seq<char>,
    pub direction: Direction,
}

/// One key of an ordering.
#[derive(Debug)]
pub struct OrderKey {
    pub column: String,
    pub direction: Direction,
}

impl View for OrderKey {
    type V = OrderModel;

    open spec fn view(&self) -> OrderModel {
        OrderModel { column: self.column@, direction: self.direction }
    }
}

impl OrderKey {
    /// Sort by the column, smallest first.
    pub fn ascending(column: &str) -> (res: OrderKey)
        ensures
            res@ == (OrderModel { column: column@, direction: Direction::Ascending }),
    {
        OrderKey { column: String::from_str(column), direction: Direction::Ascending }
    }

    /// Sort by the column, largest first.
    pub fn descending(column: &str) -> (res: OrderKey)
        ensures
            res@ == (OrderModel { column: column@, direction: Direction::Descending }),
    {
        OrderKey { column: String::from_str(column), direction: Direction::Descending }
    }
}

/// The views of a list of filters.
pub open spec fn filters_view(filters: Seq<Filter>) -> Seq<FilterModel> {
    Seq::new(filters.len(), |i: int| filters[i]@)
}

/// The views of a list of ordering keys.
pub open spec fn order_view(keys: Seq<OrderKey>) -> Seq<OrderModel> {
    Seq::new(keys.len(), |i: int| keys[i]@)
}

/// A column with its table in front.
pub open spec fn qualified(table: Seq<char>, column: Seq<char>) -> Seq<char> {
    quoted(table) + "."@ + quoted(column)
}

/// The columns of a projection, each with the table in front.
pub open spec fn qualified_all(table: Seq<char>, columns: Seq<Seq<char>>) -> Seq<Seq<char>> {
    Seq::new(columns.len(), |i: int| qualified(table, columns[i]))
}

/// The operator of a filter, with the spaces around it.
pub open spec fn op_text(op: FilterOp) -> Seq<char> {
    match op {
        FilterOp::Equals => " = "@,
        FilterOp::Like => " LIKE "@,
    }
}

/// One filter: the qualified column, the operator and a placeholder.
pub open spec fn filter_text(table: Seq<char>, filter: FilterModel) -> Seq<char> {
    qualified(table, filter.column) + op_text(filter.op) + "?"@
}

/// The filters of a WHERE clause.
pub open spec fn filter_texts(table: Seq<char>, filters: Seq<FilterModel>) -> Seq<Seq<char>> {
    Seq::new(filters.len(), |i: int| filter_text(table, filters[i]))
}

/// The values that a list of filters binds.
pub open spec fn filter_values(filters: Seq<FilterModel>) -> Seq<Value> {
    Seq::new(filters.len(), |i: int| filters[i].value)
}

/// The WHERE clause: nothing without a filter, else the filters joined by
/// `AND`.
pub open spec fn where_text(table: Seq<char>, filters: Seq<FilterModel>) -> Seq<char> {
    if filters.len() == 0 {
        Seq::empty()
    } else {
        " WHERE "@ + joined_by(filter_texts(table, filters), " AND "@)
    }
}

/// One ordering key: the qualified column, followed by ` DESC` when it
/// sorts largest first.
pub open spec fn order_text(table: Seq<char>, key: OrderModel) -> Seq<char> {
    match key.direction {
        Direction::Ascending => qualified(table, key.column),
        Direction::Descending => qualified(table, key.column) + " DESC"@,
    }
}

/// The keys of an ORDER BY clause.
pub open spec fn order_texts(table: Seq<char>, keys: Seq<OrderModel>) -> Seq<Seq<char>> {
    Seq::new(keys.len(), |i: int| order_text(table, keys[i]))
}

/// The ORDER BY clause: nothing without a key.
pub open spec fn order_clause(table: Seq<char>, keys: Seq<OrderModel>) -> Seq<char> {
    if keys.len() == 0 {
        Seq::empty()
    } else {
        " ORDER BY "@ + joined(order_texts(table, keys))
    }
}

fn render_qualified(table: &str, column: &str) -> (res: String)
    ensures
        res@ == qualified(table@, column@),
{
    let mut out = quote_identifier(table);
    out.append(".");
    let c = quote_identifier(column);
    out.append(c.as_str());
    out
}

fn render_where(table: &str, filters: &Vec<Filter>) -> (res: String)
    ensures
        res@ == where_text(table@, filters_view(filters@)),
{
    if filters.len() == 0 {
        return String::new();
    }
    let mut parts: Vec<String> = Vec::new();
    let mut i: usize = 0;
    while i < filters.len()
        invariant
            i <= filters.len(),
            parts@.len() == i,
            forall|k: int| 0 <= k < i ==> (#[trigger] parts@[k])@ == filter_text(table@, filters@[k]@),
        decreases filters.len() - i,
    {
        let mut part = render_qualified(table, filters[i].column.as_str());
        match filters[i].op {
            FilterOp::Equals => part.append(" = "),
            FilterOp::Like => part.append(" LIKE "),
        }
        part.append("?");
        parts.push(part);
        i += 1;
    }
    proof {
        assert(texts(parts@) =~= filter_texts(table@, filters_view(filters@)));
    }
    let list = join_by(&parts, " AND ");
    let mut out = String::from_str(" WHERE ");
    out.append(list.as_str());
    out
}

fn render_order(table: &str, keys: &Vec<OrderKey>) -> (res: String)
    ensures
        res@ == order_clause(table@, order_view(keys@)),
{
    if keys.len() == 0 {
        return String::new();
    }
    let mut parts: Vec<String> = Vec::new();
    let mut i: usize = 0;
    while i < keys.len()
        invariant
            i <= keys.len(),
            parts@.len() == i,
            forall|k: int| 0 <= k < i ==> (#[trigger] parts@[k])@ == order_text(table@, keys@[k]@),
        decreases keys.len() - i,
    {
        let mut part = render_qualified(table, keys[i].column.as_str());
        match keys[i].direction {
            Direction::Ascending => {},
            Direction::Descending => part.append(" DESC"),
        }
        parts.push(part);
        i += 1;
    }
    proof {
        assert(texts(parts@) =~= order_texts(table@, order_view(keys@)));
    }
    let list = join_strings(&parts);
    let mut out = String::from_str(" ORDER BY ");
    out.append(list.as_str());
    out
}

fn push_filter_values(out: &mut Vec<SqlValue>, filters: &Vec<Filter>)
    ensures
        values_view(final(out)@) == values_view(old(out)@) + filter_values(filters_view(filters@)),
{
    let ghost start = out@;
    let mut i: usize = 0;
    while i < filters.len()
        invariant
            i <= filters.len(),
            out@.len() == start.len() + i,
            forall|k: int| 0 <= k < start.len() ==> #[trigger] out@[k] == start[k],
            forall|k: int| 0 <= k < i ==> (#[trigger] out@[start.len() + k])@ == filters@[k].value@,
        decreases filters.len() - i,
    {
        out.push(filters[i].value.duplicate());
        i += 1;
    }
    proof {
        let want = values_view(start) + filter_values(filters_view(filters@));
        assert(values_view(out@).len() == want.len());
        assert forall|k: int| 0 <= k < want.len() implies values_view(out@)[k] == want[k] by {
            if k >= start.len() {
                assert(out@[start.len() + (k - start.len())] == out@[k]);
            }
        }
        assert(values_view(out@) =~= want);
    }
}

/// The mathematical content of a DELETE statement.
pub struct DeleteModel {
    pub table: Seq<char>,
    pub filters: Seq<FilterModel>,
}

impl DeleteModel {
    /// The statement as it is sent.
    pub open spec fn statement(self) -> Seq<char> {
        "DELETE FROM "@ + quoted(self.table) + where_text(self.table, self.filters)
    }

    /// The values bound by the statement: those of the filters.
    pub open spec fn binds(self) -> Seq<Value> {
        filter_values(self.filters)
    }

    /// The statement as it is shown: the statement as it is sent, followed
    /// by the list of the bound values.
    pub open spec fn sql(self) -> Seq<char> {
        self.statement() + binds_suffix(self.binds())
    }
}

/// A DELETE statement: every row of the table that meets all the filters.
#[derive(Debug)]
pub struct DeleteStatement {
    pub table: String,
    pub filters: Vec<Filter>,
}

impl View for DeleteStatement {
    type V = DeleteModel;

    open spec fn view(&self) -> DeleteModel {
        DeleteModel { table: self.table@, filters: filters_view(self.filters@) }
    }
}

impl DeleteStatement {
    /// The statement that deletes the rows of `table` that meet `filters`.
    pub fn new(table: &str, filters: Vec<Filter>) -> (res: DeleteStatement)
        ensures
            res@ == (DeleteModel { table: table@, filters: filters_view(filters@) }),
    {
        DeleteStatement { table: String::from_str(table), filters }
    }

    /// The statement that deletes the row of `table` whose `id` is the
    /// given primary key: at most one row.
    pub fn by_id(table: &str, id: i32) -> (res: DeleteStatement)
        ensures
            res@ == (DeleteModel {
                table: table@,
                filters: seq![
                    FilterModel {
                        column: "id"@,
                        op: FilterOp::Equals,
                        value: Value::Integer(id as int),
                    },
                ],
            }),
    {
        let filters = vec![Filter::equals("id", SqlValue::Integer(id))];
        let res = DeleteStatement { table: String::from_str(table), filters };
        proof {
            assert(res@.filters =~= seq![
                FilterModel {
                    column: "id"@,
                    op: FilterOp::Equals,
                    value: Value::Integer(id as int),
                },
            ]);
        }
        res
    }

    /// The statement as it is sent.
    pub fn statement_text(&self) -> (res: String)
        ensures
            res@ == self@.statement(),
    {
        let mut out = String::from_str("DELETE FROM ");
        let table = quote_identifier(self.table.as_str());
        out.append(table.as_str());
        let clause = render_where(self.table.as_str(), &self.filters);
        out.append(clause.as_str());
        out
    }

    /// The values that the statement binds, in the order of their
    /// placeholders.
    pub fn bound_values(&self) -> (res: Vec<SqlValue>)
        ensures
            values_view(res@) == self@.binds(),
    {
        let mut out: Vec<SqlValue> = Vec::new();
        push_filter_values(&mut out, &self.filters);
        proof {
            assert(values_view(out@) =~= self@.binds());
        }
        out
    }

    /// The statement as it is shown.
    pub fn render(&self) -> (res: String)
        ensures
            res@ == self@.sql(),
    {
        let mut out = self.statement_text();
        let suffix = render_bind_list(&self.bound_values());
        out.append(suffix.as_str());
        out
    }
}

/// The mathematical content of an assignment.
pub struct AssignmentModel {
    pub column: Seq<char>,
    pub value: Value,
}

/// A column and the value that an UPDATE gives it.
#[derive(Debug)]
pub struct Assignment {
    pub column: String,
    pub value: SqlValue,
}

impl View for Assignment {
    type V = AssignmentModel;

    open spec fn view(&self) -> AssignmentModel {
        AssignmentModel { column: self.column@, value: self.value@ }
    }
}

impl Assignment {
    /// The column set to the value.
    pub fn new(column: &str, value: SqlValue) -> (res: Assignment)
        ensures
            res@ == (AssignmentModel { column: column@, value: value@ }),
    {
        Assignment { column: String::from_str(column), value }
    }
}

/// The views of a list of assignments.
pub open spec fn assignments_view(items: Seq<Assignment>) -> Seq<AssignmentModel> {
    Seq::new(items.len(), |i: int| items[i]@)
}

/// One assignment of a SET clause.
pub open spec fn assignment_text(item: AssignmentModel) -> Seq<char> {
    quoted(item.column) + " = ?"@
}

/// The assignments of a SET clause.
pub open spec fn assignment_texts(items: Seq<AssignmentModel>) -> Seq<Seq<char>> {
    Seq::new(items.len(), |i: int| assignment_text(items[i]))
}

/// The values that a list of assignments binds.
pub open spec fn assignment_values(items: Seq<AssignmentModel>) -> Seq<Value> {
    Seq::new(items.len(), |i: int| items[i].value)
}

/// The mathematical content of an UPDATE statement.
pub struct UpdateModel {
    pub table: Seq<char>,
    pub assignments: Seq<AssignmentModel>,
    pub filters: Seq<FilterModel>,
}

impl UpdateModel {
    /// The values bound by the statement: those of the assignments, then
    /// those of the filters.
    pub open spec fn binds(self) -> Seq<Value> {
        assignment_values(self.assignments) + filter_values(self.filters)
    }

    /// The statement as it is sent.
    pub open spec fn statement(self) -> Seq<char> {
        "UPDATE "@ + quoted(self.table) + " SET "@ + joined(assignment_texts(self.assignments))
            + where_text(self.table, self.filters)
    }

    /// The statement as it is shown: the statement as it is sent, followed
    /// by the list of the bound values.
    pub open spec fn sql(self) -> Seq<char> {
        self.statement() + binds_suffix(self.binds())
    }
}

/// An UPDATE statement: the assignments applied to every row of the table
/// that meets all the filters.
#[derive(Debug)]
pub struct UpdateStatement {
    pub table: String,
    pub assignments: Vec<Assignment>,
    pub filters: Vec<Filter>,
}

impl View for UpdateStatement {
    type V = UpdateModel;

    open spec fn view(&self) -> UpdateModel {
        UpdateModel {
            table: self.table@,
            assignments: assignments_view(self.assignments@),
            filters: filters_view(self.filters@),
        }
    }
}

impl UpdateStatement {
    /// The statement that applies `assignments` to the rows of `table` that
    /// meet `filters`; none when there is nothing to assign.
    pub fn new(table: &str, filters: Vec<Filter>, assignments: Vec<Assignment>) -> (res: Option<
        UpdateStatement,
    >)
        ensures
            res is Some <==> assignments@.len() > 0,
            res is Some ==> res->Some_0@ == (UpdateModel {
                table: table@,
                assignments: assignments_view(assignments@),
                filters: filters_view(filters@),
            }),
    {
        if assignments.len() == 0 {
            None
        } else {
            Some(UpdateStatement { table: String::from_str(table), assignments, filters })
        }
    }

    /// The statement as it is sent.
    pub fn statement_text(&self) -> (res: String)
        ensures
            res@ == self@.statement(),
    {
        let mut parts: Vec<String> = Vec::new();
        let mut i: usize = 0;
        while i < self.assignments.len()
            invariant
                i <= self.assignments.len(),
                parts@.len() == i,
                forall|k: int|
                    0 <= k < i ==> (#[trigger] parts@[k])@ == assignment_text(
                        self.assignments@[k]@,
                    ),
            decreases self.assignments.len() - i,
        {
            let mut part = quote_identifier(self.assignments[i].column.as_str());
            part.append(" = ?");
            parts.push(part);
            i += 1;
        }
        proof {
            assert(texts(parts@) =~= assignment_texts(self@.assignments));
        }
        let mut out = String::from_str("UPDATE ");
        let table = quote_identifier(self.table.as_str());
        out.append(table.as_str());
        out.append(" SET ");
        let list = join_strings(&parts);
        out.append(list.as_str());
        let clause = render_where(self.table.as_str(), &self.filters);
        out.append(clause.as_str());
        out
    }

    /// The values that the statement binds, in the order of their
    /// placeholders.
    pub fn bound_values(&self) -> (res: Vec<SqlValue>)
        ensures
            values_view(res@) == self@.binds(),
    {
        let mut out: Vec<SqlValue> = Vec::new();
        let mut i: usize = 0;
        while i < self.assignments.len()
            invariant
                i <= self.assignments.len(),
                out@.len() == i,
                forall|k: int| 0 <= k < i ==> (#[trigger] out@[k])@ == self.assignments@[k].value@,
            decreases self.assignments.len() - i,
        {
            out.push(self.assignments[i].value.duplicate());
            i += 1;
        }
        proof {
            assert(values_view(out@) =~= assignment_values(self@.assignments));
        }
        push_filter_values(&mut out, &self.filters);
        out
    }

    /// The statement as it is shown.
    pub fn render(&self) -> (res: String)
        ensures
            res@ == self@.sql(),
    {
        let mut out = self.statement_text();
        let suffix = render_bind_list(&self.bound_values());
        out.append(suffix.as_str());
        out
    }
}

/// What a SELECT statement returns of each row.
#[derive(Debug)]
pub enum Projection {
    /// The named columns.
    Columns(Vec<String>),
    /// The number of rows.
    CountAll,
}

/// The mathematical content of a projection.
pub enum ProjectionModel {
    Columns(Seq<Seq<char>>),
    CountAll,
}

impl View for Projection {
    type V = ProjectionModel;

    open spec fn view(&self) -> ProjectionModel {
        match *self {
            Projection::Columns(c) => ProjectionModel::Columns(texts(c@)),
            Projection::CountAll => ProjectionModel::CountAll,
        }
    }
}

/// The mathematical content of a SELECT statement.
pub struct SelectModel {
    pub table: Seq<char>,
    pub projection: ProjectionModel,
    pub distinct: bool,
    pub filters: Seq<FilterModel>,
    pub order: Seq<OrderModel>,
    pub limit: Option<int>,
}

/// The projection of a SELECT statement.
pub open spec fn projection_text(table: Seq<char>, projection: ProjectionModel) -> Seq<char> {
    match projection {
        ProjectionModel::Columns(c) => joined(qualified_all(table, c)),
        ProjectionModel::CountAll => "COUNT(*)"@,
    }
}

impl SelectModel {
    /// The opening keyword, with `DISTINCT` where it is asked for.
    pub open spec fn opening(self) -> Seq<char> {
        if self.distinct {
            "SELECT DISTINCT "@
        } else {
            "SELECT "@
        }
    }

    /// The LIMIT clause: nothing without a limit.
    pub open spec fn limit_clause(self) -> Seq<char> {
        if self.limit is Some {
            " LIMIT ?"@
        } else {
            Seq::empty()
        }
    }

    /// The values bound by the statement: those of the filters, then the
    /// limit.
    pub open spec fn binds(self) -> Seq<Value> {
        match self.limit {
            Some(n) => filter_values(self.filters).push(Value::Integer(n)),
            None => filter_values(self.filters),
        }
    }

    /// The statement as it is sent.
    pub open spec fn statement(self) -> Seq<char> {
        self.opening() + projection_text(self.table, self.projection) + " FROM "@ + quoted(
            self.table,
        ) + where_text(self.table, self.filters) + order_clause(self.table, self.order)
            + self.limit_clause()
    }

    /// The statement as it is shown: the statement as it is sent, followed
    /// by the list of the bound values.
    pub open spec fn sql(self) -> Seq<char> {
        self.statement() + binds_suffix(self.binds())
    }
}

/// The statement that reads a projection of every row of a table, in no
/// stated order.
pub open spec fn plain_select(table: Seq<char>, projection: ProjectionModel) -> SelectModel {
    SelectModel {
        table,
        projection,
        distinct: false,
        filters: Seq::empty(),
        order: Seq::empty(),
        limit: None,
    }
}

/// A SELECT statement: the rows of a table that meet all the filters, in
/// the order of the keys, the first key deciding and each later key
/// breaking the ties left by those before it, cut off at the limit.
#[derive(Debug)]
pub struct SelectStatement {
    pub table: String,
    pub projection: Projection,
    pub distinct: bool,
    pub filters: Vec<Filter>,
    pub order: Vec<OrderKey>,
    pub limit: Option<i32>,
}

impl View for SelectStatement {
    type V = SelectModel;

    open spec fn view(&self) -> SelectModel {
        SelectModel {
            table: self.table@,
            projection: self.projection@,
            distinct: self.distinct,
            filters: filters_view(self.filters@),
            order: order_view(self.order@),
            limit: match self.limit {
                Some(n) => Some(n as int),
                None => None,
            },
        }
    }
}

/// The views of a list of names.
pub open spec fn names_view(names: Seq<&str>) -> Seq<Seq<char>> {
    Seq::new(names.len(), |i: int| names[i]@)
}

fn copy_names(names: &Vec<&str>) -> (res: Vec<String>)
    ensures
        texts(res@) == names_view(names@),
{
    let mut out: Vec<String> = Vec::new();
    let mut i: usize = 0;
    while i < names.len()
        invariant
            i <= names.len(),
            out@.len() == i,
            forall|k: int| 0 <= k < i ==> (#[trigger] out@[k])@ == names@[k]@,
        decreases names.len() - i,
    {
        out.push(String::from_str(names[i]));
        i += 1;
    }
    proof {
        assert(texts(out@) =~= names_view(names@));
    }
    out
}

impl SelectStatement {
    /// The statement that reads the given columns of every row of `table`.
    pub fn columns(table: &str, names: &Vec<&str>) -> (res: SelectStatement)
        ensures
            res@ == plain_select(table@, ProjectionModel::Columns(names_view(names@))),
    {
        let res = SelectStatement {
            table: String::from_str(table),
            projection: Projection::Columns(copy_names(names)),
            distinct: false,
            filters: Vec::new(),
            order: Vec::new(),
            limit: None,
        };
        proof {
            assert(res@.filters =~= Seq::<FilterModel>::empty());
            assert(res@.order =~= Seq::<OrderModel>::empty());
        }
        res
    }

    /// The statement that counts the rows of `table`.
    pub fn count(table: &str) -> (res: SelectStatement)
        ensures
            res@ == plain_select(table@, ProjectionModel::CountAll),
    {
        let res = SelectStatement {
            table: String::from_str(table),
            projection: Projection::CountAll,
            distinct: false,
            filters: Vec::new(),
            order: Vec::new(),
            limit: None,
        };
        proof {
            assert(res@.filters =~= Seq::<FilterModel>::empty());
            assert(res@.order =~= Seq::<OrderModel>::empty());
        }
        res
    }

    /// The same statement, returning each distinct row once.
    pub fn distinct(self) -> (res: SelectStatement)
        ensures
            res@ == (SelectModel { distinct: true, ..self@ }),
    {
        SelectStatement { distinct: true, ..self }
    }

    /// The same statement with one more filter.
    pub fn filter(self, filter: Filter) -> (res: SelectStatement)
        ensures
            res@ == (SelectModel { filters: self@.filters.push(filter@), ..self@ }),
    {
        let mut res = self;
        res.filters.push(filter);
        proof {
            assert(res@.filters =~= self@.filters.push(filter@));
        }
        res
    }

    /// The same statement with one more ordering key, which breaks the ties
    /// left by the keys before it.
    pub fn order_by(self, key: OrderKey) -> (res: SelectStatement)
        ensures
            res@ == (SelectModel { order: self@.order.push(key@), ..self@ }),
    {
        let mut res = self;
        res.order.push(key);
        proof {
            assert(res@.order =~= self@.order.push(key@));
        }
        res
    }

    /// The same statement cut off after `n` rows.
    pub fn limit(self, n: i32) -> (res: SelectStatement)
        ensures
            res@ == (SelectModel { limit: Some(n as int), ..self@ }),
    {
        SelectStatement { limit: Some(n), ..self }
    }

    /// The values that the statement binds, in the order of their
    /// placeholders.
    pub fn bound_values(&self) -> (res: Vec<SqlValue>)
        ensures
            values_view(res@) == self@.binds(),
    {
        let mut out: Vec<SqlValue> = Vec::new();
        push_filter_values(&mut out, &self.filters);
        let ghost filtered = out@;
        proof {
            assert(values_view(filtered) =~= filter_values(self@.filters));
        }
        match self.limit {
            Some(n) => {
                out.push(SqlValue::Integer(n));
                proof {
                    assert(values_view(out@) =~= values_view(filtered).push(
                        Value::Integer(n as int),
                    ));
                }
            },
            None => {},
        }
        out
    }

    /// The statement as it is shown.
    pub fn render(&self) -> (res: String)
        ensures
            res@ == self@.sql(),
    {
        let mut out = self.statement_text();
        let suffix = render_bind_list(&self.bound_values());
        out.append(suffix.as_str());
        out
    }

    /// The statement as it is sent.
    pub fn statement_text(&self) -> (res: String)
        ensures
            res@ == self@.statement(),
    {
        let mut out = if self.distinct {
            String::from_str("SELECT DISTINCT ")
        } else {
            String::from_str("SELECT ")
        };
        match &self.projection {
            Projection::Columns(names) => {
                let mut parts: Vec<String> = Vec::new();
                let mut i: usize = 0;
                while i < names.len()
                    invariant
                        i <= names.len(),
                        parts@.len() == i,
                        forall|k: int|
                            0 <= k < i ==> (#[trigger] parts@[k])@ == qualified(
                                self.table@,
                                names@[k]@,
                            ),
                    decreases names.len() - i,
                {
                    parts.push(render_qualified(self.table.as_str(), names[i].as_str()));
                    i += 1;
                }
                proof {
                    assert(texts(parts@) =~= qualified_all(self.table@, texts(names@)));
                }
                let list = join_strings(&parts);
                out.append(list.as_str());
            },
            Projection::CountAll => {
                out.append("COUNT(*)");
            },
        }
        out.append(" FROM ");
        let table = quote_identifier(self.table.as_str());
        out.append(table.as_str());
        let clause = render_where(self.table.as_str(), &self.filters);
        out.append(clause.as_str());
        let order = render_order(self.table.as_str(), &self.order);
        out.append(order.as_str());
        match self.limit {
            Some(_) => {
                out.append(" LIMIT ?");
            },
            None => {
                proof {
                    assert(out@ + Seq::<char>::empty() =~= out@);
                }
            },
        }
        out
    }
}

} // verus!
