//! Builds the text of queries to the store of historical trades.
use vstd::prelude::*;
use vstd::string::StringExecFns;
use crate::trade::str_equal;

verus! {

/// The text of one decimal digit.
pub open spec fn digit_text(d: int) -> Seq<char> {
    if d == 0 {
        "0"@
    } else if d == 1 {
        "1"@
    } else if d == 2 {
        "2"@
    } else if d == 3 {
        "3"@
    } else if d == 4 {
        "4"@
    } else if d == 5 {
        "5"@
    } else if d == 6 {
        "6"@
    } else if d == 7 {
        "7"@
    } else if d == 8 {
        "8"@
    } else {
        "9"@
    }
}

/// The decimal numeral of `n`, without leading zeros.
pub open spec fn decimal_text(n: nat) -> Seq<char>
    decreases n,
{
    if n < 10 {
        digit_text(n as int)
    } else {
        decimal_text(n / 10) + digit_text((n % 10) as int)
    }
}

/// The text of the decimal digit `d`.
fn digit(d: usize) -> (r: &'static str)
    requires
        d < 10,
    ensures
        r@ == digit_text(d as int),
{
    if d == 0 {
        "0"
    } else if d == 1 {
        "1"
    } else if d == 2 {
        "2"
    } else if d == 3 {
        "3"
    } else if d == 4 {
        "4"
    } else if d == 5 {
        "5"
    } else if d == 6 {
        "6"
    } else if d == 7 {
        "7"
    } else if d == 8 {
        "8"
    } else {
        "9"
    }
}

/// The decimal numeral of `n`.
pub fn decimal(n: usize) -> (r: String)
    ensures
        r@ == decimal_text(n as nat),
{
    let mut text = String::from_str(digit(n % 10));
    let mut rest: usize = n / 10;
    while rest > 0
        invariant
            rest == 0 ==> text@ == decimal_text(n as nat),
            rest > 0 ==> decimal_text(n as nat) == decimal_text(rest as nat) + text@,
        decreases rest,
    {
        let ghost before = text@;
        let ghost old_rest = rest as nat;
        text = String::from_str(digit(rest % 10)).concat(text.as_str());
        rest = rest / 10;
        proof {
            if rest == 0 {
                assert(decimal_text(old_rest) == digit_text((old_rest % 10) as int));
            } else {
                assert(decimal_text(old_rest) == decimal_text(rest as nat) + digit_text((old_rest % 10) as int));
            }
        }
    }
    text
}

/// A query in the making: its clauses, each as it will stand in the text.
pub struct ClickHouseQueryBuilder {
    pub select_clause: String,
    pub from_clause: String,
    pub where_clause: Option<String>,
    pub order_by_clause: Option<String>,
    pub order_direction: Option<String>,
    pub limit_clause: Option<String>,
    pub offset_clause: Option<String>,
}

/// The clauses of a query as contracts speak of them.
pub struct QueryView {
    pub select_clause: Seq<char>,
    pub from_clause: Seq<char>,
    pub where_clause: Option<Seq<char>>,
    pub order_by_clause: Option<Seq<char>>,
    pub order_direction: Option<Seq<char>>,
    pub limit_clause: Option<Seq<char>>,
    pub offset_clause: Option<Seq<char>>,
}

/// An optional text as contracts speak of it.
pub open spec fn text_of(clause: Option<String>) -> Option<Seq<char>> {
    match clause {
        Some(text) => Some(text@),
        None => None,
    }
}

/// `text` after a blank, when there is one; nothing otherwise.
pub open spec fn spaced(clause: Option<Seq<char>>) -> Seq<char> {
    match clause {
        Some(text) => " "@ + text,
        None => Seq::empty(),
    }
}

impl QueryView {
    /// The text of the query: the select and from clauses, then the where,
    /// order-by and limit clauses that are set, each after a blank. The
    /// direction of the order and the offset are kept but not written.
    pub open spec fn text(self) -> Seq<char> {
        self.select_clause + " "@ + self.from_clause + spaced(self.where_clause) + spaced(self.order_by_clause)
            + spaced(self.limit_clause)
    }
}

impl View for ClickHouseQueryBuilder {
    type V = QueryView;

    open spec fn view(&self) -> QueryView {
        QueryView {
            select_clause: self.select_clause@,
            from_clause: self.from_clause@,
            where_clause: text_of(self.where_clause),
            order_by_clause: text_of(self.order_by_clause),
            order_direction: text_of(self.order_direction),
            limit_clause: text_of(self.limit_clause),
            offset_clause: text_of(self.offset_clause),
        }
    }
}

/// The condition `field` `operator` `'pattern'`, after `WHERE` when it is the
/// first condition and after the conditions so far and `AND` otherwise.
pub open spec fn with_condition(
    existing: Option<Seq<char>>,
    field: Seq<char>,
    operator: Seq<char>,
    pattern: Seq<char>,
) -> Seq<char> {
    let condition = field + operator + pattern + "'"@;
    match existing {
        Some(clause) => clause + " AND "@ + condition,
        None => "WHERE "@ + condition,
    }
}

/// Appends a condition to the where clause; see [`with_condition`].
fn add_condition(existing: Option<String>, field: &str, operator: &str, pattern: &str) -> (r: String)
    ensures
        r@ == with_condition(text_of(existing), field@, operator@, pattern@),
{
    let ghost head = match text_of(existing) {
        Some(c) => c + " AND "@,
        None => "WHERE "@,
    };
    let mut clause = match existing {
        Some(clause) => clause.concat(" AND "),
        None => String::from_str("WHERE "),
    };
    clause.append(field);
    clause.append(operator);
    clause.append(pattern);
    clause.append("'");
    proof {
        assert(clause@ =~= head + (field@ + operator@ + pattern@ + "'"@));
    }
    clause
}

impl ClickHouseQueryBuilder {
    /// A query without clauses.
    pub fn new() -> (r: Self)
        ensures
            r@ == (QueryView {
                select_clause: Seq::empty(),
                from_clause: Seq::empty(),
                where_clause: None,
                order_by_clause: None,
                order_direction: None,
                limit_clause: None,
                offset_clause: None,
            }),
    {
        Self {
            select_clause: String::new(),
            from_clause: String::new(),
            where_clause: None,
            order_by_clause: None,
            order_direction: None,
            limit_clause: None,
            offset_clause: None,
        }
    }

    /// Sets the select clause to `SELECT` and the fields.
    pub fn select(self, fields: &str) -> (r: Self)
        ensures
            r@ == (QueryView { select_clause: "SELECT "@ + fields@, ..self@ }),
    {
        let mut builder = self;
        builder.select_clause = String::from_str("SELECT ").concat(fields);
        builder
    }

    /// Sets the from clause to `FROM` and the table.
    pub fn from(self, table: &str) -> (r: Self)
        ensures
            r@ == (QueryView { from_clause: "FROM "@ + table@, ..self@ }),
    {
        let mut builder = self;
        builder.from_clause = String::from_str("FROM ").concat(table);
        builder
    }

    /// Sets the where clause to `WHERE` and the condition, in place of any
    /// conditions set before.
    pub fn where_clause(self, condition: &str) -> (r: Self)
        ensures
            r@ == (QueryView { where_clause: Some("WHERE "@ + condition@), ..self@ }),
    {
        let mut builder = self;
        builder.where_clause = Some(String::from_str("WHERE ").concat(condition));
        builder
    }

    /// Adds the condition that `field` is like `pattern`.
    pub fn like_clause(self, field: &str, pattern: &str) -> (r: Self)
        ensures
            r@ == (QueryView {
                where_clause: Some(with_condition(self@.where_clause, field@, " LIKE '"@, pattern@)),
                ..self@
            }),
    {
        let mut builder = self;
        let existing = builder.where_clause.take();
        builder.where_clause = Some(add_condition(existing, field, " LIKE '", pattern));
        builder
    }

    /// Adds the condition that `field` is not like `pattern`.
    pub fn not_like_clause(self, field: &str, pattern: &str) -> (r: Self)
        ensures
            r@ == (QueryView {
                where_clause: Some(with_condition(self@.where_clause, field@, " NOT LIKE '"@, pattern@)),
                ..self@
            }),
    {
        let mut builder = self;
        let existing = builder.where_clause.take();
        builder.where_clause = Some(add_condition(existing, field, " NOT LIKE '", pattern));
        builder
    }

    /// Sets the order: with the direction `ASC` or `DESC` the order-by clause
    /// becomes the field and the direction is kept; without a direction both
    /// are cleared; any other direction changes nothing.
    pub fn order(self, field: &str, direction: Option<&str>) -> (r: Self)
        ensures
            r@ == (match direction {
                Some(d) => if d@ == "ASC"@ || d@ == "DESC"@ {
                    QueryView { order_by_clause: Some(field@), order_direction: Some(d@), ..self@ }
                } else {
                    self@
                },
                None => QueryView { order_by_clause: None, order_direction: None, ..self@ },
            }),
    {
        let mut builder = self;
        match direction {
            Some(d) => {
                if str_equal(d, "ASC") || str_equal(d, "DESC") {
                    builder.order_by_clause = Some(String::from_str(field));
                    builder.order_direction = Some(String::from_str(d));
                }
            },
            None => {
                builder.order_by_clause = None;
                builder.order_direction = None;
            },
        }
        builder
    }

    /// Sets the order-by clause to `ORDER BY` and the given ordering, and
    /// clears the direction kept by [`Self::order`].
    pub fn order_by(self, ordering: &str) -> (r: Self)
        ensures
            r@ == (QueryView { order_by_clause: Some("ORDER BY "@ + ordering@), order_direction: None, ..self@ }),
    {
        let mut builder = self;
        builder.order_by_clause = Some(String::from_str("ORDER BY ").concat(ordering));
        builder.order_direction = None;
        builder
    }

    /// Sets the limit clause to `LIMIT` and the number.
    pub fn limit(self, limit: usize) -> (r: Self)
        ensures
            r@ == (QueryView { limit_clause: Some("LIMIT "@ + decimal_text(limit as nat)), ..self@ }),
    {
        let mut builder = self;
        builder.limit_clause = Some(String::from_str("LIMIT ").concat(decimal(limit).as_str()));
        builder
    }

    /// Sets the offset clause to `OFFSET` and the number.
    pub fn offset(self, offset: usize) -> (r: Self)
        ensures
            r@ == (QueryView { offset_clause: Some("OFFSET "@ + decimal_text(offset as nat)), ..self@ }),
    {
        let mut builder = self;
        builder.offset_clause = Some(String::from_str("OFFSET ").concat(decimal(offset).as_str()));
        builder
    }

    /// The text of the query; see [`QueryView::text`].
    pub fn build(self) -> (r: String)
        ensures
            r@ == self@.text(),
    {
        let mut query = self.select_clause;
        query.append(" ");
        query.append(self.from_clause.as_str());
        if let Some(where_clause) = self.where_clause {
            query.append(" ");
            query.append(where_clause.as_str());
        }
        if let Some(order_by_clause) = self.order_by_clause {
            query.append(" ");
            query.append(order_by_clause.as_str());
        }
        if let Some(limit_clause) = self.limit_clause {
            query.append(" ");
            query.append(limit_clause.as_str());
        }
        proof {
            assert(query@ =~= self@.text());
        }
        query
    }
}

} // verus!
