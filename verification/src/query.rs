//! Statements for the store, assembled from predicates.
//!
//! A statement is SQL text together with the values bound to its `?`
//! placeholders, in order. User input only ever becomes a bound value, never
//! part of the text, and every statement built here has exactly as many
//! placeholders as values.

use crate::text::{chars_of, optional_text, views_of_strings};
use vstd::prelude::*;
use vstd::string::StringExecFns;

verus! {

/// A value bound to a placeholder.
#[derive(Debug, PartialEq, Eq)]
pub enum SqlValue {
    Integer(i64),
    Text(String),
    Null,
}

/// A bound value, as contracts see it.
pub enum SqlValueView {
    Integer(int),
    Text(Seq<char>),
    Null,
}

impl View for SqlValue {
    type V = SqlValueView;

    open spec fn view(&self) -> SqlValueView {
        match self {
            SqlValue::Integer(n) => SqlValueView::Integer(*n as int),
            SqlValue::Text(t) => SqlValueView::Text(t@),
            SqlValue::Null => SqlValueView::Null,
        }
    }
}

/// The views of `values`, in order.
pub open spec fn views_of_values(values: Seq<SqlValue>) -> Seq<SqlValueView> {
    values.map_values(|v: SqlValue| v@)
}

/// One condition on an entry: a clause with placeholders, and the values
/// bound to them.
#[derive(Debug, PartialEq, Eq)]
pub struct Predicate {
    pub clause: String,
    pub values: Vec<SqlValue>,
}

/// A predicate, as contracts see it.
pub struct PredicateView {
    pub clause: Seq<char>,
    pub values: Seq<SqlValueView>,
}

impl View for Predicate {
    type V = PredicateView;

    open spec fn view(&self) -> PredicateView {
        PredicateView { clause: self.clause@, values: views_of_values(self.values@) }
    }
}

/// The views of `predicates`, in order.
pub open spec fn views_of_predicates(predicates: Seq<Predicate>) -> Seq<PredicateView> {
    predicates.map_values(|p: Predicate| p@)
}

/// SQL text and the values bound to its placeholders.
#[derive(Debug, PartialEq, Eq)]
pub struct Statement {
    pub sql: String,
    pub params: Vec<SqlValue>,
}

/// A statement, as contracts see it.
pub struct StatementView {
    pub sql: Seq<char>,
    pub params: Seq<SqlValueView>,
}

impl View for Statement {
    type V = StatementView;

    open spec fn view(&self) -> StatementView {
        StatementView { sql: self.sql@, params: views_of_values(self.params@) }
    }
}

/// The number of `?` among the first `k` characters of `sql`.
pub open spec fn marks_upto(sql: Seq<char>, k: int) -> nat
    decreases k,
{
    if k <= 0 {
        0
    } else {
        marks_upto(sql, k - 1) + if sql[k - 1] == '?' {
            1nat
        } else {
            0nat
        }
    }
}

/// The number of placeholders in `sql`.
pub open spec fn marks(sql: Seq<char>) -> nat {
    marks_upto(sql, sql.len() as int)
}

impl PredicateView {
    /// Whether the clause has as many placeholders as there are values.
    pub open spec fn balanced(self) -> bool {
        marks(self.clause) == self.values.len()
    }
}

impl StatementView {
    /// Whether the text has as many placeholders as there are values.
    pub open spec fn balanced(self) -> bool {
        marks(self.sql) == self.params.len()
    }
}

/// Placeholders among the first `k` characters of `a + b`, where `k` lies
/// within `a`, are those of `a`.
proof fn lemma_marks_upto_left(a: Seq<char>, b: Seq<char>, k: int)
    requires
        0 <= k <= a.len(),
    ensures
        marks_upto(a + b, k) == marks_upto(a, k),
    decreases k,
{
    if k > 0 {
        lemma_marks_upto_left(a, b, k - 1);
    }
}

/// Placeholders of `a` followed by the first `k` characters of `b`.
proof fn lemma_marks_upto_right(a: Seq<char>, b: Seq<char>, k: int)
    requires
        0 <= k <= b.len(),
    ensures
        marks_upto(a + b, a.len() + k) == marks(a) + marks_upto(b, k),
    decreases k,
{
    if k > 0 {
        lemma_marks_upto_right(a, b, k - 1);
        assert((a + b)[a.len() + k - 1] == b[k - 1]);
    } else {
        lemma_marks_upto_left(a, b, a.len() as int);
    }
}

/// The placeholders of a concatenation are those of its two parts.
pub proof fn lemma_marks_concat(a: Seq<char>, b: Seq<char>)
    ensures
        marks(a + b) == marks(a) + marks(b),
{
    lemma_marks_upto_right(a, b, b.len() as int);
}

impl SqlValue {
    /// A value equal to this one.
    pub fn copy(&self) -> (out: SqlValue)
        ensures
            out@ == self@,
    {
        match self {
            SqlValue::Integer(n) => SqlValue::Integer(*n),
            SqlValue::Text(t) => SqlValue::Text(t.clone()),
            SqlValue::Null => SqlValue::Null,
        }
    }

    /// The text `s` as a value to bind.
    pub fn text(s: &str) -> (out: SqlValue)
        ensures
            out@ == SqlValueView::Text(s@),
    {
        SqlValue::Text(String::from_str(s))
    }
}

/// The prefix that every path strictly below `path` starts with: `path`
/// followed by a separator, unless it already ends with one.
pub open spec fn scope_prefix(path: Seq<char>) -> Seq<char> {
    if path.len() > 0 && path.last() == '/' {
        path
    } else {
        path.push('/')
    }
}

/// A directory that starts with the scope prefix of `path` lies strictly
/// below `path`: it continues `path` with a separator, so a sibling whose
/// name merely extends that of `path` does not start with the prefix.
pub proof fn lemma_scope_boundary(path: Seq<char>, directory: Seq<char>)
    requires
        scope_prefix(path).is_prefix_of(directory),
        path.len() == 0 || path.last() != '/',
    ensures
        path.is_prefix_of(directory),
        directory.len() > path.len(),
        directory[path.len() as int] == '/',
{
    let prefix = scope_prefix(path);
    assert(prefix == path.push('/'));
    assert(directory.subrange(0, prefix.len() as int) == prefix);
    assert(directory[path.len() as int] == prefix[path.len() as int]);
    assert(directory.subrange(0, path.len() as int) =~= path) by {
        assert forall|i: int| 0 <= i < path.len() implies directory[i] == path[i] by {
            assert(directory[i] == prefix[i]);
        }
    }
}

/// A directory whose name continues that of `path` without a separator,
/// as `/ab` continues `/a`, is neither `path` nor below it.
pub proof fn lemma_sibling_out_of_scope(path: Seq<char>, more: Seq<char>)
    requires
        path.len() == 0 || path.last() != '/',
        more.len() > 0,
        more[0] != '/',
    ensures
        path + more != path,
        !scope_prefix(path).is_prefix_of(path + more),
{
    assert((path + more).len() != path.len());
    if scope_prefix(path).is_prefix_of(path + more) {
        lemma_scope_boundary(path, path + more);
        assert((path + more)[path.len() as int] == more[0]);
    }
}

/// Every directory that continues `path` after a separator is below it.
pub proof fn lemma_descendant_in_scope(path: Seq<char>, rest: Seq<char>)
    ensures
        scope_prefix(path).is_prefix_of(scope_prefix(path) + rest),
{
    let prefix = scope_prefix(path);
    assert((prefix + rest).subrange(0, prefix.len() as int) =~= prefix);
}

/// The predicate that holds of the entries in the scope of `path`: those of
/// `path` itself and, if `recursive`, those of every directory below it.
///
/// Descendants are recognised by comparing the start of the stored directory
/// with `scope_prefix(path)`, character for character, so a sibling whose
/// name merely extends that of `path` is not in scope.
pub open spec fn scope_predicate_view(path: Seq<char>, recursive: bool) -> PredicateView {
    if recursive {
        PredicateView {
            clause: "(directory = ? OR substr(directory, 1, length(?)) = ?)"@,
            values: seq![
                SqlValueView::Text(path),
                SqlValueView::Text(scope_prefix(path)),
                SqlValueView::Text(scope_prefix(path)),
            ],
        }
    } else {
        PredicateView { clause: "directory = ?"@, values: seq![SqlValueView::Text(path)] }
    }
}

/// The predicate that holds of the entries one of whose tags is exactly
/// `tag`. Tags are the pieces of the stored field between commas; a tag that
/// only contains `tag` does not count.
pub open spec fn tag_predicate_view(tag: Seq<char>) -> PredicateView {
    PredicateView {
        clause: "instr(',' || tags || ',', ',' || ? || ',') > 0"@,
        values: seq![SqlValueView::Text(tag)],
    }
}

/// The predicate that holds of the entries created on the calendar day
/// `date`, written `YYYY-MM-DD`.
pub open spec fn date_predicate_view(date: Seq<char>) -> PredicateView {
    PredicateView { clause: "date(timestamp) = ?"@, values: seq![SqlValueView::Text(date)] }
}

/// The predicate that holds of the entries whose content or tags contain
/// `keyword`, regardless of case.
pub open spec fn keyword_predicate_view(keyword: Seq<char>) -> PredicateView {
    PredicateView {
        clause: "(instr(lower(content), lower(?)) > 0 OR instr(lower(tags), lower(?)) > 0)"@,
        values: seq![SqlValueView::Text(keyword), SqlValueView::Text(keyword)],
    }
}

/// The clauses of `predicates`, joined by `AND`.
pub open spec fn joined_clauses(predicates: Seq<PredicateView>) -> Seq<char>
    decreases predicates.len(),
{
    if predicates.len() == 0 {
        Seq::empty()
    } else if predicates.len() == 1 {
        predicates[0].clause
    } else {
        joined_clauses(predicates.drop_last()) + " AND "@ + predicates.last().clause
    }
}

/// The values of `predicates`, in order.
pub open spec fn joined_values(predicates: Seq<PredicateView>) -> Seq<SqlValueView>
    decreases predicates.len(),
{
    if predicates.len() == 0 {
        Seq::empty()
    } else {
        joined_values(predicates.drop_last()) + predicates.last().values
    }
}

/// The value bound to `LIMIT` for a cap of `limit` rows, where a cap of zero
/// means no cap: the store reads a negative limit as none.
pub open spec fn limit_value(limit: u32) -> int {
    if limit == 0 {
        -1
    } else {
        limit as int
    }
}

/// The statement that selects the entries of which all `predicates` hold.
/// With `limit`, the newest come first and at most that many are returned.
pub open spec fn select_view(predicates: Seq<PredicateView>, limit: Option<u32>) -> StatementView {
    let head = "SELECT id, timestamp, content, tags, directory FROM logs"@;
    let filter = if predicates.len() == 0 {
        Seq::empty()
    } else {
        " WHERE "@ + joined_clauses(predicates)
    };
    match limit {
        Some(n) => StatementView {
            sql: head + filter + " ORDER BY timestamp DESC LIMIT ?"@,
            params: joined_values(predicates).push(SqlValueView::Integer(limit_value(n))),
        },
        None => StatementView { sql: head + filter, params: joined_values(predicates) },
    }
}

/// The predicates of a retrieval: the scope, then each filter that is given.
pub open spec fn fetch_predicates(
    path: Seq<char>,
    recursive: bool,
    tag: Option<Seq<char>>,
    date: Option<Seq<char>>,
    keyword: Option<Seq<char>>,
) -> Seq<PredicateView> {
    seq![scope_predicate_view(path, recursive)] + (match tag {
        Some(t) => seq![tag_predicate_view(t)],
        None => Seq::empty(),
    }) + (match date {
        Some(d) => seq![date_predicate_view(d)],
        None => Seq::empty(),
    }) + (match keyword {
        Some(k) => seq![keyword_predicate_view(k)],
        None => Seq::empty(),
    })
}

/// Builds the scope predicate for `path`.
pub fn scope_predicate(path: &str, recursive: bool) -> (p: Predicate)
    ensures
        p@ == scope_predicate_view(path@, recursive),
        p@.balanced(),
{
    let mut values: Vec<SqlValue> = Vec::new();
    values.push(SqlValue::text(path));
    if recursive {
        let chars = chars_of(path);
        let mut prefix = String::from_str(path);
        if chars.len() == 0 || chars[chars.len() - 1] != '/' {
            prefix.push('/');
        }
        values.push(SqlValue::Text(prefix.clone()));
        values.push(SqlValue::Text(prefix));
        let p = Predicate {
            clause: String::from_str("(directory = ? OR substr(directory, 1, length(?)) = ?)"),
            values,
        };
        proof {
            reveal_strlit("(directory = ? OR substr(directory, 1, length(?)) = ?)");
            reveal_with_fuel(marks_upto, 60);
            assert(p@.values =~= scope_predicate_view(path@, recursive).values);
        }
        p
    } else {
        let p = Predicate { clause: String::from_str("directory = ?"), values };
        proof {
            reveal_strlit("directory = ?");
            reveal_with_fuel(marks_upto, 16);
            assert(p@.values =~= scope_predicate_view(path@, recursive).values);
        }
        p
    }
}

/// Builds the predicate that asks for the tag `tag`.
pub fn tag_predicate(tag: &str) -> (p: Predicate)
    ensures
        p@ == tag_predicate_view(tag@),
        p@.balanced(),
{
    let mut values: Vec<SqlValue> = Vec::new();
    values.push(SqlValue::text(tag));
    let p = Predicate {
        clause: String::from_str("instr(',' || tags || ',', ',' || ? || ',') > 0"),
        values,
    };
    proof {
        reveal_strlit("instr(',' || tags || ',', ',' || ? || ',') > 0");
        reveal_with_fuel(marks_upto, 50);
        assert(p@.values =~= tag_predicate_view(tag@).values);
    }
    p
}

/// Builds the predicate that asks for the day `date`.
pub fn date_predicate(date: &str) -> (p: Predicate)
    ensures
        p@ == date_predicate_view(date@),
        p@.balanced(),
{
    let mut values: Vec<SqlValue> = Vec::new();
    values.push(SqlValue::text(date));
    let p = Predicate { clause: String::from_str("date(timestamp) = ?"), values };
    proof {
        reveal_strlit("date(timestamp) = ?");
        reveal_with_fuel(marks_upto, 24);
        assert(p@.values =~= date_predicate_view(date@).values);
    }
    p
}

/// Builds the predicate that asks for the keyword `keyword`.
pub fn keyword_predicate(keyword: &str) -> (p: Predicate)
    ensures
        p@ == keyword_predicate_view(keyword@),
        p@.balanced(),
{
    let mut values: Vec<SqlValue> = Vec::new();
    values.push(SqlValue::text(keyword));
    values.push(SqlValue::text(keyword));
    let p = Predicate {
        clause: String::from_str(
            "(instr(lower(content), lower(?)) > 0 OR instr(lower(tags), lower(?)) > 0)",
        ),
        values,
    };
    proof {
        reveal_strlit("(instr(lower(content), lower(?)) > 0 OR instr(lower(tags), lower(?)) > 0)");
        reveal_with_fuel(marks_upto, 80);
        assert(p@.values =~= keyword_predicate_view(keyword@).values);
    }
    p
}

/// Whether every predicate of `predicates` is balanced.
pub open spec fn all_balanced(predicates: Seq<PredicateView>) -> bool {
    forall|i: int| 0 <= i < predicates.len() ==> (#[trigger] predicates[i]).balanced()
}

/// The head of a selection holds no placeholder.
proof fn lemma_marks_of_head()
    ensures
        marks("SELECT id, timestamp, content, tags, directory FROM logs"@) == 0,
{
    reveal_strlit("SELECT id, timestamp, content, tags, directory FROM logs");
    reveal_with_fuel(marks_upto, 60);
}

/// The words that introduce and join clauses hold no placeholder.
proof fn lemma_marks_of_keywords()
    ensures
        marks(" WHERE "@) == 0,
        marks(" AND "@) == 0,
{
    reveal_strlit(" WHERE ");
    reveal_strlit(" AND ");
    reveal_with_fuel(marks_upto, 10);
}

/// The ordering and limit clause holds one placeholder.
proof fn lemma_marks_of_tail()
    ensures
        marks(" ORDER BY timestamp DESC LIMIT ?"@) == 1,
{
    reveal_strlit(" ORDER BY timestamp DESC LIMIT ?");
    reveal_with_fuel(marks_upto, 36);
}

/// Joining balanced predicates gives as many placeholders as values.
pub proof fn lemma_joined_balanced(predicates: Seq<PredicateView>)
    requires
        all_balanced(predicates),
    ensures
        marks(joined_clauses(predicates)) == joined_values(predicates).len(),
    decreases predicates.len(),
{
    if predicates.len() == 0 {
    } else if predicates.len() == 1 {
        assert(predicates[0].balanced());
        assert(joined_values(predicates.drop_last()) =~= Seq::<SqlValueView>::empty());
        assert(joined_values(predicates) =~= predicates[0].values);
    } else {
        let front = predicates.drop_last();
        assert forall|i: int| 0 <= i < front.len() implies (#[trigger] front[i]).balanced() by {
            assert(front[i] == predicates[i]);
        }
        lemma_joined_balanced(front);
        assert(predicates.last().balanced());
        lemma_marks_of_keywords();
        lemma_marks_concat(joined_clauses(front), " AND "@);
        lemma_marks_concat(joined_clauses(front) + " AND "@, predicates.last().clause);
    }
}

/// A selection over balanced predicates has as many placeholders as values.
pub proof fn lemma_select_balanced(predicates: Seq<PredicateView>, limit: Option<u32>)
    requires
        all_balanced(predicates),
    ensures
        select_view(predicates, limit).balanced(),
{
    let head = "SELECT id, timestamp, content, tags, directory FROM logs"@;
    let filter = if predicates.len() == 0 {
        Seq::<char>::empty()
    } else {
        " WHERE "@ + joined_clauses(predicates)
    };
    lemma_marks_of_head();
    lemma_marks_of_keywords();
    lemma_marks_of_tail();
    lemma_joined_balanced(predicates);
    if predicates.len() > 0 {
        lemma_marks_concat(" WHERE "@, joined_clauses(predicates));
    }
    lemma_marks_concat(head, filter);
    lemma_marks_concat(head + filter, " ORDER BY timestamp DESC LIMIT ?"@);
}

/// Builds the statement that selects the entries of which all `predicates`
/// hold; with `limit`, newest first and capped, where a cap of zero means none.
pub fn select_entries(predicates: &Vec<Predicate>, limit: Option<u32>) -> (stmt: Statement)
    ensures
        stmt@ == select_view(views_of_predicates(predicates@), limit),
        all_balanced(views_of_predicates(predicates@)) ==> stmt@.balanced(),
{
    let ghost all = views_of_predicates(predicates@);
    let mut sql = String::from_str("SELECT id, timestamp, content, tags, directory FROM logs");
    let mut params: Vec<SqlValue> = Vec::new();
    let ghost head = sql@;
    let mut i: usize = 0;
    while i < predicates.len()
        invariant
            i <= predicates.len(),
            all == views_of_predicates(predicates@),
            head == "SELECT id, timestamp, content, tags, directory FROM logs"@,
            i == 0 ==> sql@ == head,
            i > 0 ==> sql@ == head + " WHERE "@ + joined_clauses(all.take(i as int)),
            views_of_values(params@) == joined_values(all.take(i as int)),
        decreases predicates.len() - i,
    {
        let p = &predicates[i];
        let ghost done = all.take(i as int);
        let ghost next = all.take(i + 1);
        proof {
            assert(next.drop_last() == done);
            assert(next.last() == p@);
        }
        if i == 0 {
            sql.append(" WHERE ");
        } else {
            sql.append(" AND ");
        }
        sql.append(p.clause.as_str());
        proof {
            assert(sql@ == head + " WHERE "@ + joined_clauses(next));
        }
        let ghost before = params@;
        let mut j: usize = 0;
        while j < p.values.len()
            invariant
                j <= p.values.len(),
                views_of_values(params@) == views_of_values(before) + views_of_values(
                    p.values@,
                ).take(j as int),
            decreases p.values.len() - j,
        {
            let ghost prev = params@;
            params.push(p.values[j].copy());
            proof {
                assert(views_of_values(params@) =~= views_of_values(prev).push(p.values@[j as int]@));
                assert(views_of_values(p.values@).take(j + 1) =~= views_of_values(p.values@).take(
                    j as int,
                ).push(p.values@[j as int]@));
            }
            j += 1;
        }
        proof {
            assert(views_of_values(p.values@).take(p.values.len() as int) == p@.values);
        }
        i += 1;
    }
    proof {
        assert(all.take(predicates.len() as int) == all);
    }
    match limit {
        Some(n) => {
            sql.append(" ORDER BY timestamp DESC LIMIT ?");
            let bound: i64 = if n == 0 { -1 } else { n as i64 };
            let ghost prev = params@;
            params.push(SqlValue::Integer(bound));
            proof {
                assert(views_of_values(params@) =~= views_of_values(prev).push(
                    SqlValueView::Integer(limit_value(n)),
                ));
            }
        },
        None => {},
    }
    let stmt = Statement { sql, params };
    proof {
        assert(stmt@.sql =~= select_view(all, limit).sql);
        if all_balanced(all) {
            lemma_select_balanced(all, limit);
        }
    }
    stmt
}

/// The clause of `predicate`, preceded by `AND`, where there is one.
pub open spec fn and_clause(predicate: Option<PredicateView>) -> Seq<char> {
    match predicate {
        Some(p) => " AND "@ + p.clause,
        None => Seq::empty(),
    }
}

/// The values of `predicate`, where there is one.
pub open spec fn values_of(predicate: Option<PredicateView>) -> Seq<SqlValueView> {
    match predicate {
        Some(p) => p.values,
        None => Seq::empty(),
    }
}

/// The predicate for an optional tag filter.
pub open spec fn tag_filter(tag: Option<Seq<char>>) -> Option<PredicateView> {
    match tag {
        Some(t) => Some(tag_predicate_view(t)),
        None => None,
    }
}

/// The predicate for an optional date filter.
pub open spec fn date_filter(date: Option<Seq<char>>) -> Option<PredicateView> {
    match date {
        Some(d) => Some(date_predicate_view(d)),
        None => None,
    }
}

/// The predicate for an optional keyword filter.
pub open spec fn keyword_filter(keyword: Option<Seq<char>>) -> Option<PredicateView> {
    match keyword {
        Some(k) => Some(keyword_predicate_view(k)),
        None => None,
    }
}

/// The statement of a retrieval, written out: the scope, then each filter
/// that is given, all joined by `AND`; then the order and the cap.
pub open spec fn fetch_view(
    path: Seq<char>,
    recursive: bool,
    limit: u32,
    tag: Option<Seq<char>>,
    date: Option<Seq<char>>,
    keyword: Option<Seq<char>>,
) -> StatementView {
    let scope = scope_predicate_view(path, recursive);
    StatementView {
        sql: "SELECT id, timestamp, content, tags, directory FROM logs"@ + " WHERE "@
            + scope.clause + and_clause(tag_filter(tag)) + and_clause(date_filter(date))
            + and_clause(keyword_filter(keyword)) + " ORDER BY timestamp DESC LIMIT ?"@,
        params: scope.values + values_of(tag_filter(tag)) + values_of(date_filter(date))
            + values_of(keyword_filter(keyword)) + seq![SqlValueView::Integer(limit_value(limit))],
    }
}

/// Adding a predicate to a list that is not empty adds its clause after
/// `AND`, and its values at the end.
proof fn lemma_joined_push(predicates: Seq<PredicateView>, next: Option<PredicateView>)
    requires
        predicates.len() > 0,
    ensures
        joined_clauses(
            predicates + (match next {
                Some(p) => seq![p],
                None => Seq::empty(),
            }),
        ) == joined_clauses(predicates) + and_clause(next),
        joined_values(
            predicates + (match next {
                Some(p) => seq![p],
                None => Seq::empty(),
            }),
        ) == joined_values(predicates) + values_of(next),
{
    match next {
        Some(p) => {
            let all = predicates + seq![p];
            assert(all.drop_last() == predicates);
            assert(all.last() == p);
            assert(joined_clauses(predicates) + " AND "@ + p.clause == joined_clauses(predicates)
                + (" AND "@ + p.clause));
        },
        None => {
            assert(predicates + Seq::<PredicateView>::empty() == predicates);
            assert(joined_clauses(predicates) + Seq::<char>::empty() == joined_clauses(predicates));
            assert(joined_values(predicates) + Seq::<SqlValueView>::empty() == joined_values(
                predicates,
            ));
        },
    }
}

/// The statement that a retrieval's predicates select is the one written
/// out by `fetch_view`.
pub proof fn lemma_fetch_view(
    path: Seq<char>,
    recursive: bool,
    limit: u32,
    tag: Option<Seq<char>>,
    date: Option<Seq<char>>,
    keyword: Option<Seq<char>>,
)
    ensures
        select_view(fetch_predicates(path, recursive, tag, date, keyword), Some(limit))
            == fetch_view(path, recursive, limit, tag, date, keyword),
{
    let scope = scope_predicate_view(path, recursive);
    let one = seq![scope];
    let two = one + (match tag_filter(tag) {
        Some(p) => seq![p],
        None => Seq::empty(),
    });
    let three = two + (match date_filter(date) {
        Some(p) => seq![p],
        None => Seq::empty(),
    });
    let four = three + (match keyword_filter(keyword) {
        Some(p) => seq![p],
        None => Seq::empty(),
    });
    assert(four =~= fetch_predicates(path, recursive, tag, date, keyword));
    assert(joined_clauses(one) == scope.clause);
    assert(joined_values(one) =~= scope.values) by {
        assert(joined_values(one.drop_last()) =~= Seq::<SqlValueView>::empty());
    }
    lemma_joined_push(one, tag_filter(tag));
    lemma_joined_push(two, date_filter(date));
    lemma_joined_push(three, keyword_filter(keyword));
    let got = select_view(four, Some(limit));
    let want = fetch_view(path, recursive, limit, tag, date, keyword);
    assert(got.sql =~= want.sql);
    assert(got.params =~= want.params);
}

/// Builds the statement of a retrieval: the entries in the scope of `path`
/// that carry `tag`, were created on `date` and mention `keyword`, as far as
/// each is given; newest first, at most `limit` of them, all if `limit` is 0.
pub fn fetch_statement(
    path: &str,
    recursive: bool,
    limit: u32,
    tag: Option<&str>,
    date: Option<&str>,
    keyword: Option<&str>,
) -> (stmt: Statement)
    ensures
        stmt@ == select_view(
            fetch_predicates(
                path@,
                recursive,
                optional_text(tag),
                optional_text(date),
                optional_text(keyword),
            ),
            Some(limit),
        ),
        stmt@ == fetch_view(
            path@,
            recursive,
            limit,
            optional_text(tag),
            optional_text(date),
            optional_text(keyword),
        ),
        stmt@.balanced(),
{
    proof {
        lemma_fetch_view(
            path@,
            recursive,
            limit,
            optional_text(tag),
            optional_text(date),
            optional_text(keyword),
        );
    }
    let mut predicates: Vec<Predicate> = Vec::new();
    predicates.push(scope_predicate(path, recursive));
    if let Some(t) = tag {
        predicates.push(tag_predicate(t));
    }
    if let Some(d) = date {
        predicates.push(date_predicate(d));
    }
    if let Some(k) = keyword {
        predicates.push(keyword_predicate(k));
    }
    proof {
        assert(views_of_predicates(predicates@) =~= fetch_predicates(
            path@,
            recursive,
            optional_text(tag),
            optional_text(date),
            optional_text(keyword),
        ));
    }
    select_entries(&predicates, Some(limit))
}

/// The statement that selects every entry at or below `path`, in no
/// particular order.
pub fn scope_statement(path: &str) -> (stmt: Statement)
    ensures
        stmt@ == select_view(seq![scope_predicate_view(path@, true)], None),
        stmt@.balanced(),
{
    let mut predicates: Vec<Predicate> = Vec::new();
    predicates.push(scope_predicate(path, true));
    proof {
        assert(views_of_predicates(predicates@) =~= seq![scope_predicate_view(path@, true)]);
    }
    select_entries(&predicates, None)
}

/// The statement that creates the table of entries unless it exists. Ids
/// are assigned in increasing order and never used twice.
pub open spec fn schema_view() -> StatementView {
    StatementView {
        sql: "CREATE TABLE IF NOT EXISTS logs ("@ + "id INTEGER PRIMARY KEY AUTOINCREMENT, "@
            + "timestamp TEXT NOT NULL, directory TEXT NOT NULL, "@
            + "content TEXT NOT NULL, tags TEXT)"@,
        params: Seq::empty(),
    }
}

/// The parts of the table definition hold no placeholder.
proof fn lemma_marks_of_schema()
    ensures
        marks("CREATE TABLE IF NOT EXISTS logs ("@) == 0,
        marks("id INTEGER PRIMARY KEY AUTOINCREMENT, "@) == 0,
        marks("timestamp TEXT NOT NULL, directory TEXT NOT NULL, "@) == 0,
        marks("content TEXT NOT NULL, tags TEXT)"@) == 0,
{
    reveal_strlit("CREATE TABLE IF NOT EXISTS logs (");
    reveal_strlit("id INTEGER PRIMARY KEY AUTOINCREMENT, ");
    reveal_strlit("timestamp TEXT NOT NULL, directory TEXT NOT NULL, ");
    reveal_strlit("content TEXT NOT NULL, tags TEXT)");
    reveal_with_fuel(marks_upto, 56);
}

/// Builds the statement that creates the table of entries unless it exists.
pub fn schema_statement() -> (stmt: Statement)
    ensures
        stmt@ == schema_view(),
        stmt@.balanced(),
{
    let mut sql = String::from_str("CREATE TABLE IF NOT EXISTS logs (");
    sql.append("id INTEGER PRIMARY KEY AUTOINCREMENT, ");
    sql.append("timestamp TEXT NOT NULL, directory TEXT NOT NULL, ");
    sql.append("content TEXT NOT NULL, tags TEXT)");
    let stmt = Statement { sql, params: Vec::new() };
    proof {
        let a = "CREATE TABLE IF NOT EXISTS logs ("@;
        let b = "id INTEGER PRIMARY KEY AUTOINCREMENT, "@;
        let c = "timestamp TEXT NOT NULL, directory TEXT NOT NULL, "@;
        let d = "content TEXT NOT NULL, tags TEXT)"@;
        lemma_marks_of_schema();
        lemma_marks_concat(a, b);
        lemma_marks_concat(a + b, c);
        lemma_marks_concat(a + b + c, d);
        assert(stmt@.params =~= schema_view().params);
    }
    stmt
}

/// The value bound for optional tags: their text, or null where none are given.
pub open spec fn tags_value(tags: Option<Seq<char>>) -> SqlValueView {
    match tags {
        Some(t) => SqlValueView::Text(t),
        None => SqlValueView::Null,
    }
}

/// The statement that stores one new entry.
pub open spec fn insert_view(
    timestamp: Seq<char>,
    directory: Seq<char>,
    content: Seq<char>,
    tags: Option<Seq<char>>,
) -> StatementView {
    StatementView {
        sql: "INSERT INTO logs (timestamp, directory, content, tags) VALUES (?, ?, ?, ?)"@,
        params: seq![
            SqlValueView::Text(timestamp),
            SqlValueView::Text(directory),
            SqlValueView::Text(content),
            tags_value(tags),
        ],
    }
}

/// Builds the statement that stores one new entry.
pub fn insert_statement(timestamp: &str, directory: &str, content: &str, tags: Option<&str>) -> (stmt:
    Statement)
    ensures
        stmt@ == insert_view(timestamp@, directory@, content@, optional_text(tags)),
        stmt@.balanced(),
{
    let mut params: Vec<SqlValue> = Vec::new();
    params.push(SqlValue::text(timestamp));
    params.push(SqlValue::text(directory));
    params.push(SqlValue::text(content));
    match tags {
        Some(t) => params.push(SqlValue::text(t)),
        None => params.push(SqlValue::Null),
    }
    let stmt = Statement {
        sql: String::from_str(
            "INSERT INTO logs (timestamp, directory, content, tags) VALUES (?, ?, ?, ?)",
        ),
        params,
    };
    proof {
        reveal_strlit("INSERT INTO logs (timestamp, directory, content, tags) VALUES (?, ?, ?, ?)");
        reveal_with_fuel(marks_upto, 80);
        assert(stmt@.params =~= insert_view(
            timestamp@,
            directory@,
            content@,
            optional_text(tags),
        ).params);
    }
    stmt
}

/// The statement that reads the content of the entry `id`.
pub open spec fn content_view(id: i32) -> StatementView {
    StatementView {
        sql: "SELECT content FROM logs WHERE id = ?"@,
        params: seq![SqlValueView::Integer(id as int)],
    }
}

/// Builds the statement that reads the content of the entry `id`.
pub fn content_statement(id: i32) -> (stmt: Statement)
    ensures
        stmt@ == content_view(id),
        stmt@.balanced(),
{
    let mut params: Vec<SqlValue> = Vec::new();
    params.push(SqlValue::Integer(id as i64));
    let stmt = Statement { sql: String::from_str("SELECT content FROM logs WHERE id = ?"), params };
    proof {
        reveal_strlit("SELECT content FROM logs WHERE id = ?");
        reveal_with_fuel(marks_upto, 40);
        assert(stmt@.params =~= content_view(id).params);
    }
    stmt
}

/// The statement that replaces the content of the entry `id`.
pub open spec fn update_view(id: i32, content: Seq<char>) -> StatementView {
    StatementView {
        sql: "UPDATE logs SET content = ? WHERE id = ?"@,
        params: seq![SqlValueView::Text(content), SqlValueView::Integer(id as int)],
    }
}

/// Builds the statement that replaces the content of the entry `id`.
pub fn update_statement(id: i32, content: &str) -> (stmt: Statement)
    ensures
        stmt@ == update_view(id, content@),
        stmt@.balanced(),
{
    let mut params: Vec<SqlValue> = Vec::new();
    params.push(SqlValue::text(content));
    params.push(SqlValue::Integer(id as i64));
    let stmt = Statement {
        sql: String::from_str("UPDATE logs SET content = ? WHERE id = ?"),
        params,
    };
    proof {
        reveal_strlit("UPDATE logs SET content = ? WHERE id = ?");
        reveal_with_fuel(marks_upto, 44);
        assert(stmt@.params =~= update_view(id, content@).params);
    }
    stmt
}

/// The statement that lists each directory that some entry belongs to, once.
pub open spec fn directories_view() -> StatementView {
    StatementView { sql: "SELECT DISTINCT directory FROM logs"@, params: Seq::empty() }
}

/// Builds the statement that lists each directory that has entries, once.
pub fn directories_statement() -> (stmt: Statement)
    ensures
        stmt@ == directories_view(),
        stmt@.balanced(),
{
    let stmt = Statement {
        sql: String::from_str("SELECT DISTINCT directory FROM logs"),
        params: Vec::new(),
    };
    proof {
        reveal_strlit("SELECT DISTINCT directory FROM logs");
        reveal_with_fuel(marks_upto, 40);
        assert(stmt@.params =~= directories_view().params);
    }
    stmt
}

/// `n` placeholders separated by commas.
pub open spec fn placeholder_list(n: nat) -> Seq<char>
    decreases n,
{
    if n == 0 {
        Seq::empty()
    } else if n == 1 {
        "?"@
    } else {
        placeholder_list((n - 1) as nat) + ",?"@
    }
}

/// A list of `n` placeholders holds `n` placeholders.
pub proof fn lemma_marks_of_list(n: nat)
    ensures
        marks(placeholder_list(n)) == n,
    decreases n,
{
    reveal_strlit("?");
    reveal_strlit(",?");
    assert(marks("?"@) == 1 && marks(",?"@) == 1) by {
        reveal_with_fuel(marks_upto, 4);
    }
    if n > 1 {
        lemma_marks_of_list((n - 1) as nat);
        lemma_marks_concat(placeholder_list((n - 1) as nat), ",?"@);
    }
}

/// Builds a list of `n` placeholders separated by commas.
fn placeholders(n: usize) -> (out: String)
    ensures
        out@ == placeholder_list(n as nat),
{
    let mut out = String::new();
    let mut i: usize = 0;
    while i < n
        invariant
            i <= n,
            out@ == placeholder_list(i as nat),
        decreases n - i,
    {
        if i == 0 {
            out.append("?");
        } else {
            out.append(",?");
        }
        i += 1;
    }
    out
}

/// The statement that removes the entries whose id is one of `ids`.
pub open spec fn delete_by_ids_view(ids: Seq<i32>) -> StatementView {
    StatementView {
        sql: "DELETE FROM logs WHERE id IN ("@ + placeholder_list(ids.len()) + ")"@,
        params: ids.map_values(|id: i32| SqlValueView::Integer(id as int)),
    }
}

/// The statement that removes the entries whose directory is exactly one of
/// `directories`.
pub open spec fn delete_by_directories_view(directories: Seq<Seq<char>>) -> StatementView {
    StatementView {
        sql: "DELETE FROM logs WHERE directory IN ("@ + placeholder_list(directories.len()) + ")"@,
        params: directories.map_values(|d: Seq<char>| SqlValueView::Text(d)),
    }
}

/// The literal parts of the two removal statements hold no placeholder.
proof fn lemma_marks_of_delete()
    ensures
        marks("DELETE FROM logs WHERE id IN ("@) == 0,
        marks("DELETE FROM logs WHERE directory IN ("@) == 0,
        marks(")"@) == 0,
{
    reveal_strlit("DELETE FROM logs WHERE id IN (");
    reveal_strlit("DELETE FROM logs WHERE directory IN (");
    reveal_strlit(")");
    reveal_with_fuel(marks_upto, 40);
}

/// Builds the statement that removes the entries whose id is one of `ids`;
/// none where `ids` is empty, for then there is nothing to remove.
pub fn delete_by_ids_statement(ids: &[i32]) -> (r: Option<Statement>)
    ensures
        ids@.len() == 0 <==> r is None,
        r is Some ==> r->Some_0@ == delete_by_ids_view(ids@) && r->Some_0@.balanced(),
{
    if ids.len() == 0 {
        return None;
    }
    let mut sql = String::from_str("DELETE FROM logs WHERE id IN (");
    sql.append(placeholders(ids.len()).as_str());
    sql.append(")");
    let mut params: Vec<SqlValue> = Vec::new();
    let mut i: usize = 0;
    while i < ids.len()
        invariant
            i <= ids.len(),
            views_of_values(params@) == ids@.take(i as int).map_values(
                |id: i32| SqlValueView::Integer(id as int),
            ),
        decreases ids.len() - i,
    {
        let ghost prev = params@;
        params.push(SqlValue::Integer(ids[i] as i64));
        proof {
            assert(views_of_values(params@) =~= views_of_values(prev).push(
                SqlValueView::Integer(ids@[i as int] as int),
            ));
            assert(ids@.take(i + 1).map_values(|id: i32| SqlValueView::Integer(id as int))
                =~= ids@.take(i as int).map_values(
                |id: i32| SqlValueView::Integer(id as int),
            ).push(SqlValueView::Integer(ids@[i as int] as int)));
        }
        i += 1;
    }
    let stmt = Statement { sql, params };
    proof {
        assert(ids@.take(ids.len() as int) == ids@);
        lemma_marks_of_delete();
        lemma_marks_of_list(ids@.len());
        lemma_marks_concat("DELETE FROM logs WHERE id IN ("@, placeholder_list(ids@.len()));
        lemma_marks_concat(
            "DELETE FROM logs WHERE id IN ("@ + placeholder_list(ids@.len()),
            ")"@,
        );
    }
    Some(stmt)
}

/// Builds the statement that removes the entries whose directory is exactly
/// one of `directories`; none where `directories` is empty.
pub fn delete_by_directories_statement(directories: &[String]) -> (r: Option<Statement>)
    ensures
        directories@.len() == 0 <==> r is None,
        r is Some ==> r->Some_0@ == delete_by_directories_view(views_of_strings(directories@))
            && r->Some_0@.balanced(),
{
    if directories.len() == 0 {
        return None;
    }
    let ghost texts = views_of_strings(directories@);
    let mut sql = String::from_str("DELETE FROM logs WHERE directory IN (");
    sql.append(placeholders(directories.len()).as_str());
    sql.append(")");
    let mut params: Vec<SqlValue> = Vec::new();
    let mut i: usize = 0;
    while i < directories.len()
        invariant
            i <= directories.len(),
            texts == views_of_strings(directories@),
            views_of_values(params@) == texts.take(i as int).map_values(
                |d: Seq<char>| SqlValueView::Text(d),
            ),
        decreases directories.len() - i,
    {
        let ghost prev = params@;
        params.push(SqlValue::text(directories[i].as_str()));
        proof {
            assert(views_of_values(params@) =~= views_of_values(prev).push(
                SqlValueView::Text(texts[i as int]),
            ));
            assert(texts.take(i + 1).map_values(|d: Seq<char>| SqlValueView::Text(d))
                =~= texts.take(i as int).map_values(|d: Seq<char>| SqlValueView::Text(d)).push(
                SqlValueView::Text(texts[i as int]),
            ));
        }
        i += 1;
    }
    let stmt = Statement { sql, params };
    proof {
        assert(texts.take(directories.len() as int) == texts);
        lemma_marks_of_delete();
        lemma_marks_of_list(texts.len());
        lemma_marks_concat("DELETE FROM logs WHERE directory IN ("@, placeholder_list(texts.len()));
        lemma_marks_concat(
            "DELETE FROM logs WHERE directory IN ("@ + placeholder_list(texts.len()),
            ")"@,
        );
    }
    Some(stmt)
}

} // verus!
