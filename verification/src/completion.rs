//! SQL completion: which tables, columns, keywords and functions are offered
//! for the text before the cursor, and the keyword case normalisation.

use vstd::prelude::*;

use crate::model::{ColumnMetadata, DatabaseMetadata, TableMetadata};
use crate::text::{
    chars_equal, chars_of, chars_start_with, concat2, decimal, decimal_string, gap_start_exec,
    lemma_gap_start_bounds, lemma_word_start_bounds, lower, owned, starts_with, str_equal,
    string_from_range, to_ascii_lower, to_ascii_upper, upper, word_start_exec, gap_start,
    word_start,
};
use vstd::string::*;

verus! {

#[derive(Debug, Clone)]
pub struct CompletionItem {
    pub label: String,
    pub insert_text: String,
    pub kind: CompletionKind,
    pub detail: Option<String>,
}

#[derive(Debug, Clone, Copy, PartialEq, Eq, Structural)]
pub enum CompletionKind {
    Keyword,
    Function,
    Table,
    Column,
}

#[derive(Debug, Clone)]
pub enum CompletionContext {
    Table,
    TableColumn { table: String },
    Mixed,
}

/// A completion item with its strings as character sequences.
pub struct ItemView {
    pub label: Seq<char>,
    pub insert_text: Seq<char>,
    pub kind: CompletionKind,
    pub detail: Option<Seq<char>>,
}

pub enum ContextView {
    Table,
    TableColumn(Seq<char>),
    Mixed,
}

impl View for CompletionItem {
    type V = ItemView;

    open spec fn view(&self) -> ItemView {
        ItemView {
            label: self.label@,
            insert_text: self.insert_text@,
            kind: self.kind,
            detail: match self.detail {
                Some(d) => Some(d@),
                None => None,
            },
        }
    }
}

impl View for CompletionContext {
    type V = ContextView;

    open spec fn view(&self) -> ContextView {
        match self {
            CompletionContext::Table => ContextView::Table,
            CompletionContext::TableColumn { table } => ContextView::TableColumn(table@),
            CompletionContext::Mixed => ContextView::Mixed,
        }
    }
}

pub open spec fn items_view(items: Seq<CompletionItem>) -> Seq<ItemView> {
    items.map_values(|i: CompletionItem| i@)
}

pub proof fn lemma_items_view_push(s: Seq<CompletionItem>, x: CompletionItem)
    ensures
        items_view(s.push(x)) == items_view(s).push(x@),
{
    assert(items_view(s.push(x)) =~= items_view(s).push(x@));
}

/// At most this many completions are offered.
pub const MAX_COMPLETIONS: usize = 16;

pub open spec fn keyword_list() -> Seq<Seq<char>> {
    seq![
        "SELECT"@,
        "FROM"@,
        "WHERE"@,
        "JOIN"@,
        "LEFT JOIN"@,
        "INNER JOIN"@,
        "GROUP BY"@,
        "ORDER BY"@,
        "LIMIT"@,
        "INSERT INTO"@,
        "UPDATE"@,
        "DELETE FROM"@,
        "CREATE TABLE"@,
        "ALTER TABLE"@,
        "DROP TABLE"@,
    ]
}

pub open spec fn function_list() -> Seq<Seq<char>> {
    seq!["COUNT"@, "SUM"@, "AVG"@, "MIN"@, "MAX"@, "NOW"@]
}

/// The words that `normalize_sql_keyword` recognises, in upper case.
pub open spec fn sql_keywords() -> Seq<Seq<char>> {
    seq![
        "SELECT"@,
        "FROM"@,
        "WHERE"@,
        "JOIN"@,
        "LEFT"@,
        "INNER"@,
        "GROUP"@,
        "BY"@,
        "ORDER"@,
        "LIMIT"@,
        "INSERT"@,
        "INTO"@,
        "UPDATE"@,
        "DELETE"@,
        "CREATE"@,
        "ALTER"@,
        "DROP"@,
        "TABLE"@,
        "COUNT"@,
        "SUM"@,
        "AVG"@,
        "MIN"@,
        "MAX"@,
        "NOW"@,
    ]
}

/// The editor commands offered as hints in command mode.
pub open spec fn command_list() -> Seq<Seq<char>> {
    seq!["w"@, "q"@, "wq"@, "x"@, "run"@, "q!"@]
}

/// A candidate matches when the (upper-case) prefix is empty or begins its upper-cased text.
pub open spec fn matches_prefix(value: Seq<char>, prefix: Seq<char>) -> bool {
    prefix.len() == 0 || starts_with(upper(value), prefix)
}

pub open spec fn word_item(word: Seq<char>, kind: CompletionKind) -> ItemView {
    ItemView { label: word, insert_text: word, kind, detail: None }
}

/// The words of `words` that match `prefix`, in order, as items of `kind`.
pub open spec fn word_items(words: Seq<Seq<char>>, prefix: Seq<char>, kind: CompletionKind) -> Seq<
    ItemView,
>
    decreases words.len(),
{
    if words.len() == 0 {
        Seq::empty()
    } else {
        word_items(words.drop_last(), prefix, kind) + if matches_prefix(words.last(), prefix) {
            seq![word_item(words.last(), kind)]
        } else {
            Seq::empty()
        }
    }
}

pub open spec fn table_item(t: TableMetadata) -> ItemView {
    ItemView {
        label: t.name@,
        insert_text: t.name@,
        kind: CompletionKind::Table,
        detail: Some(decimal(t.columns@.len()) + " cols"@),
    }
}

/// Items for the tables whose names match.
pub open spec fn table_items(prefix: Seq<char>, ts: Seq<TableMetadata>) -> Seq<ItemView>
    decreases ts.len(),
{
    if ts.len() == 0 {
        Seq::empty()
    } else {
        table_items(prefix, ts.drop_last()) + if matches_prefix(ts.last().name@, prefix) {
            seq![table_item(ts.last())]
        } else {
            Seq::empty()
        }
    }
}

pub open spec fn column_item(table_name: Seq<char>, c: ColumnMetadata) -> ItemView {
    ItemView {
        label: c.name@,
        insert_text: c.name@,
        kind: CompletionKind::Column,
        detail: Some(table_name + "."@ + c.name@ + ":"@ + c.data_type@),
    }
}

/// Items for the matching columns of one table, each described as `table.column:type`.
pub open spec fn qualified_column_items(
    prefix: Seq<char>,
    table_name: Seq<char>,
    cs: Seq<ColumnMetadata>,
) -> Seq<ItemView>
    decreases cs.len(),
{
    if cs.len() == 0 {
        Seq::empty()
    } else {
        qualified_column_items(prefix, table_name, cs.drop_last()) + if matches_prefix(
            cs.last().name@,
            prefix,
        ) {
            seq![column_item(table_name, cs.last())]
        } else {
            Seq::empty()
        }
    }
}

/// Items for the matching columns of every table, table by table.
pub open spec fn column_items(prefix: Seq<char>, ts: Seq<TableMetadata>) -> Seq<ItemView>
    decreases ts.len(),
{
    if ts.len() == 0 {
        Seq::empty()
    } else {
        column_items(prefix, ts.drop_last()) + qualified_column_items(
            prefix,
            ts.last().name@,
            ts.last().columns@,
        )
    }
}

pub open spec fn typed_column_item(c: ColumnMetadata) -> ItemView {
    ItemView {
        label: c.name@,
        insert_text: c.name@,
        kind: CompletionKind::Column,
        detail: Some(c.data_type@),
    }
}

/// Items for the matching columns of one table, each described by its data type.
pub open spec fn typed_column_items(prefix: Seq<char>, cs: Seq<ColumnMetadata>) -> Seq<ItemView>
    decreases cs.len(),
{
    if cs.len() == 0 {
        Seq::empty()
    } else {
        typed_column_items(prefix, cs.drop_last()) + if matches_prefix(cs.last().name@, prefix) {
            seq![typed_column_item(cs.last())]
        } else {
            Seq::empty()
        }
    }
}

/// Index of the first table at or after `i` whose name equals `name` ignoring ASCII case.
pub open spec fn find_table_from(ts: Seq<TableMetadata>, name: Seq<char>, i: int) -> Option<int>
    decreases ts.len() - i,
{
    if i < 0 || i >= ts.len() {
        None
    } else if lower(ts[i].name@) == lower(name) {
        Some(i)
    } else {
        find_table_from(ts, name, i + 1)
    }
}

/// The candidates for a context, before the keyword and function lists and before the cap.
pub open spec fn context_items(
    prefix: Seq<char>,
    context: ContextView,
    metadata: Option<DatabaseMetadata>,
) -> Seq<ItemView> {
    match metadata {
        None => Seq::empty(),
        Some(md) => match context {
            ContextView::Table => table_items(prefix, md.tables@),
            ContextView::TableColumn(table) => match find_table_from(md.tables@, table, 0) {
                Some(i) => typed_column_items(prefix, md.tables@[i].columns@),
                None => Seq::empty(),
            },
            ContextView::Mixed => table_items(prefix, md.tables@) + column_items(
                prefix,
                md.tables@,
            ),
        },
    }
}

/// What `completions` returns: the context's candidates, then (outside `table.` contexts) the
/// matching keywords and functions, cut to the first `MAX_COMPLETIONS`.
pub open spec fn completion_list(
    prefix: Seq<char>,
    context: ContextView,
    metadata: Option<DatabaseMetadata>,
) -> Seq<ItemView> {
    let p = upper(prefix);
    let base = context_items(p, context, metadata);
    let all = if context is TableColumn {
        base
    } else {
        base + word_items(keyword_list(), p, CompletionKind::Keyword) + word_items(
            function_list(),
            p,
            CompletionKind::Function,
        )
    };
    if all.len() > MAX_COMPLETIONS {
        all.take(MAX_COMPLETIONS as int)
    } else {
        all
    }
}

proof fn lemma_contains_left(a: Seq<ItemView>, b: Seq<ItemView>, x: ItemView)
    requires
        a.contains(x),
    ensures
        (a + b).contains(x),
{
    let k = choose|k: int| 0 <= k < a.len() && a[k] == x;
    assert((a + b)[k] == x);
}

proof fn lemma_contains_right(a: Seq<ItemView>, b: Seq<ItemView>, x: ItemView)
    requires
        b.contains(x),
    ensures
        (a + b).contains(x),
{
    let k = choose|k: int| 0 <= k < b.len() && b[k] == x;
    assert((a + b)[a.len() + k] == x);
}

proof fn lemma_qualified_column_offered(
    prefix: Seq<char>,
    table_name: Seq<char>,
    cs: Seq<ColumnMetadata>,
    j: int,
)
    requires
        0 <= j < cs.len(),
        prefix.len() == 0 || starts_with(upper(cs[j].name@), prefix),
    ensures
        qualified_column_items(prefix, table_name, cs).contains(
            ItemView {
                label: cs[j].name@,
                insert_text: cs[j].name@,
                kind: CompletionKind::Column,
                detail: Some(table_name + "."@ + cs[j].name@ + ":"@ + cs[j].data_type@),
            },
        ),
    decreases cs.len(),
{
    let x = ItemView {
        label: cs[j].name@,
        insert_text: cs[j].name@,
        kind: CompletionKind::Column,
        detail: Some(table_name + "."@ + cs[j].name@ + ":"@ + cs[j].data_type@),
    };
    let front = qualified_column_items(prefix, table_name, cs.drop_last());
    let back = if matches_prefix(cs.last().name@, prefix) {
        seq![column_item(table_name, cs.last())]
    } else {
        Seq::empty()
    };
    if j == cs.len() - 1 {
        assert(back[0] == x);
        lemma_contains_right(front, back, x);
    } else {
        assert(cs.drop_last()[j] == cs[j]);
        lemma_qualified_column_offered(prefix, table_name, cs.drop_last(), j);
        lemma_contains_left(front, back, x);
    }
}

proof fn lemma_column_offered(prefix: Seq<char>, ts: Seq<TableMetadata>, i: int, j: int)
    requires
        0 <= i < ts.len(),
        0 <= j < ts[i].columns@.len(),
        prefix.len() == 0 || starts_with(upper(ts[i].columns@[j].name@), prefix),
    ensures
        column_items(prefix, ts).contains(
            ItemView {
                label: ts[i].columns@[j].name@,
                insert_text: ts[i].columns@[j].name@,
                kind: CompletionKind::Column,
                detail: Some(
                    ts[i].name@ + "."@ + ts[i].columns@[j].name@ + ":"@
                        + ts[i].columns@[j].data_type@,
                ),
            },
        ),
    decreases ts.len(),
{
    let c = ts[i].columns@[j];
    let x = ItemView {
        label: c.name@,
        insert_text: c.name@,
        kind: CompletionKind::Column,
        detail: Some(ts[i].name@ + "."@ + c.name@ + ":"@ + c.data_type@),
    };
    let front = column_items(prefix, ts.drop_last());
    let back = qualified_column_items(prefix, ts.last().name@, ts.last().columns@);
    if i == ts.len() - 1 {
        lemma_qualified_column_offered(prefix, ts[i].name@, ts[i].columns@, j);
        lemma_contains_right(front, back, x);
    } else {
        assert(ts.drop_last()[i] == ts[i]);
        lemma_column_offered(prefix, ts.drop_last(), i, j);
        lemma_contains_left(front, back, x);
    }
}

/// After a plain word (outside `FROM`/`JOIN` and `table.`), the columns of every table are
/// offered: each column, of any table, whose upper-cased name begins with the upper-cased
/// prefix is among the candidates, described as `table.column:type`, unless the list is cut
/// at `MAX_COMPLETIONS`.
pub proof fn law_mixed_completions_offer_every_table_column(
    prefix: Seq<char>,
    md: DatabaseMetadata,
    i: int,
    j: int,
)
    requires
        0 <= i < md.tables@.len(),
        0 <= j < md.tables@[i].columns@.len(),
        upper(prefix).len() == 0 || starts_with(
            upper(md.tables@[i].columns@[j].name@),
            upper(prefix),
        ),
        completion_list(prefix, ContextView::Mixed, Some(md)).len() < MAX_COMPLETIONS,
    ensures
        completion_list(prefix, ContextView::Mixed, Some(md)).contains(
            ItemView {
                label: md.tables@[i].columns@[j].name@,
                insert_text: md.tables@[i].columns@[j].name@,
                kind: CompletionKind::Column,
                detail: Some(
                    md.tables@[i].name@ + "."@ + md.tables@[i].columns@[j].name@ + ":"@
                        + md.tables@[i].columns@[j].data_type@,
                ),
            },
        ),
{
    let p = upper(prefix);
    let ts = md.tables@;
    let c = ts[i].columns@[j];
    let x = ItemView {
        label: c.name@,
        insert_text: c.name@,
        kind: CompletionKind::Column,
        detail: Some(ts[i].name@ + "."@ + c.name@ + ":"@ + c.data_type@),
    };
    lemma_column_offered(p, ts, i, j);
    let tables = table_items(p, ts);
    let cols = column_items(p, ts);
    lemma_contains_right(tables, cols, x);
    let base = tables + cols;
    let kws = word_items(keyword_list(), p, CompletionKind::Keyword);
    let fns = word_items(function_list(), p, CompletionKind::Function);
    lemma_contains_left(base, kws, x);
    lemma_contains_left(base + kws, fns, x);
    assert(context_items(p, ContextView::Mixed, Some(md)) == base);
}

/// Every item's label matches `prefix`.
pub open spec fn all_match(items: Seq<ItemView>, prefix: Seq<char>) -> bool {
    forall|i: int| 0 <= i < items.len() ==> matches_prefix(#[trigger] items[i].label, prefix)
}

proof fn lemma_all_match_concat(a: Seq<ItemView>, b: Seq<ItemView>, prefix: Seq<char>)
    requires
        all_match(a, prefix),
        all_match(b, prefix),
    ensures
        all_match(a + b, prefix),
{
    assert forall|i: int| 0 <= i < (a + b).len() implies matches_prefix(
        #[trigger] (a + b)[i].label,
        prefix,
    ) by {
        if i < a.len() {
            assert((a + b)[i] == a[i]);
        } else {
            assert((a + b)[i] == b[i - a.len()]);
        }
    }
}

proof fn lemma_word_items_match(words: Seq<Seq<char>>, prefix: Seq<char>, kind: CompletionKind)
    ensures
        all_match(word_items(words, prefix, kind), prefix),
    decreases words.len(),
{
    if words.len() > 0 {
        lemma_word_items_match(words.drop_last(), prefix, kind);
        let tail = if matches_prefix(words.last(), prefix) {
            seq![word_item(words.last(), kind)]
        } else {
            Seq::empty()
        };
        lemma_all_match_concat(word_items(words.drop_last(), prefix, kind), tail, prefix);
    }
}

proof fn lemma_table_items_match(prefix: Seq<char>, ts: Seq<TableMetadata>)
    ensures
        all_match(table_items(prefix, ts), prefix),
    decreases ts.len(),
{
    if ts.len() > 0 {
        lemma_table_items_match(prefix, ts.drop_last());
        let tail = if matches_prefix(ts.last().name@, prefix) {
            seq![table_item(ts.last())]
        } else {
            Seq::empty()
        };
        lemma_all_match_concat(table_items(prefix, ts.drop_last()), tail, prefix);
    }
}

proof fn lemma_qualified_column_items_match(
    prefix: Seq<char>,
    table_name: Seq<char>,
    cs: Seq<ColumnMetadata>,
)
    ensures
        all_match(qualified_column_items(prefix, table_name, cs), prefix),
    decreases cs.len(),
{
    if cs.len() > 0 {
        lemma_qualified_column_items_match(prefix, table_name, cs.drop_last());
        let tail = if matches_prefix(cs.last().name@, prefix) {
            seq![column_item(table_name, cs.last())]
        } else {
            Seq::empty()
        };
        lemma_all_match_concat(
            qualified_column_items(prefix, table_name, cs.drop_last()),
            tail,
            prefix,
        );
    }
}

proof fn lemma_column_items_match(prefix: Seq<char>, ts: Seq<TableMetadata>)
    ensures
        all_match(column_items(prefix, ts), prefix),
    decreases ts.len(),
{
    if ts.len() > 0 {
        lemma_column_items_match(prefix, ts.drop_last());
        lemma_qualified_column_items_match(prefix, ts.last().name@, ts.last().columns@);
        lemma_all_match_concat(
            column_items(prefix, ts.drop_last()),
            qualified_column_items(prefix, ts.last().name@, ts.last().columns@),
            prefix,
        );
    }
}

proof fn lemma_typed_column_items_match(prefix: Seq<char>, cs: Seq<ColumnMetadata>)
    ensures
        all_match(typed_column_items(prefix, cs), prefix),
    decreases cs.len(),
{
    if cs.len() > 0 {
        lemma_typed_column_items_match(prefix, cs.drop_last());
        let tail = if matches_prefix(cs.last().name@, prefix) {
            seq![typed_column_item(cs.last())]
        } else {
            Seq::empty()
        };
        lemma_all_match_concat(typed_column_items(prefix, cs.drop_last()), tail, prefix);
    }
}

/// Every completion offered begins, ignoring ASCII case, with the typed prefix, and no more
/// than `MAX_COMPLETIONS` are offered.
pub proof fn law_completions_match_prefix(
    prefix: Seq<char>,
    context: ContextView,
    metadata: Option<DatabaseMetadata>,
)
    ensures
        completion_list(prefix, context, metadata).len() <= MAX_COMPLETIONS,
        all_match(completion_list(prefix, context, metadata), upper(prefix)),
{
    let p = upper(prefix);
    let base = context_items(p, context, metadata);
    if let Some(md) = metadata {
        lemma_table_items_match(p, md.tables@);
        lemma_column_items_match(p, md.tables@);
        lemma_all_match_concat(table_items(p, md.tables@), column_items(p, md.tables@), p);
        if let ContextView::TableColumn(table) = context {
            if let Some(i) = find_table_from(md.tables@, table, 0) {
                lemma_typed_column_items_match(p, md.tables@[i].columns@);
            }
        }
    }
    assert(all_match(base, p));
    lemma_word_items_match(keyword_list(), p, CompletionKind::Keyword);
    lemma_word_items_match(function_list(), p, CompletionKind::Function);
    lemma_all_match_concat(base, word_items(keyword_list(), p, CompletionKind::Keyword), p);
    lemma_all_match_concat(
        base + word_items(keyword_list(), p, CompletionKind::Keyword),
        word_items(function_list(), p, CompletionKind::Function),
        p,
    );
}

/// Normalising a word that was already normalised gives it back: the upper-case spelling of a
/// recognised word is recognised and spelt the same way.
pub proof fn law_normalize_keyword_idempotent(token: Seq<char>)
    ensures
        upper(upper(token)) == upper(token),
        sql_keywords().contains(upper(token)) ==> sql_keywords().contains(upper(upper(token))),
{
    assert(upper(upper(token)) =~= upper(token));
}

fn keyword_words() -> (r: Vec<&'static str>)
    ensures
        r@.map_values(|s: &str| s@) == keyword_list(),
{
    let r = vec![
        "SELECT",
        "FROM",
        "WHERE",
        "JOIN",
        "LEFT JOIN",
        "INNER JOIN",
        "GROUP BY",
        "ORDER BY",
        "LIMIT",
        "INSERT INTO",
        "UPDATE",
        "DELETE FROM",
        "CREATE TABLE",
        "ALTER TABLE",
        "DROP TABLE",
    ];
    assert(r@.map_values(|s: &str| s@) =~= keyword_list());
    r
}

fn function_words() -> (r: Vec<&'static str>)
    ensures
        r@.map_values(|s: &str| s@) == function_list(),
{
    let r = vec!["COUNT", "SUM", "AVG", "MIN", "MAX", "NOW"];
    assert(r@.map_values(|s: &str| s@) =~= function_list());
    r
}

fn matches_prefix_exec(value: &str, prefix: &Vec<char>) -> (r: bool)
    ensures
        r == matches_prefix(value@, prefix@),
{
    if prefix.len() == 0 {
        return true;
    }
    let up = to_ascii_upper(value);
    let up_chars = chars_of(up.as_str());
    chars_start_with(&up_chars, prefix)
}

fn push_words(
    items: &mut Vec<CompletionItem>,
    words: &Vec<&'static str>,
    prefix: &Vec<char>,
    kind: CompletionKind,
)
    ensures
        items_view(final(items)@) == items_view(old(items)@) + word_items(
            words@.map_values(|s: &str| s@),
            prefix@,
            kind,
        ),
{
    let ghost start = items_view(items@);
    let ghost ws = words@.map_values(|s: &str| s@);
    let mut i: usize = 0;
    while i < words.len()
        invariant
            i <= words@.len(),
            ws == words@.map_values(|s: &str| s@),
            items_view(items@) == start + word_items(ws.take(i as int), prefix@, kind),
        decreases words@.len() - i,
    {
        let w = words[i];
        assert(ws.take(i + 1).drop_last() =~= ws.take(i as int));
        assert(ws.take(i + 1).last() == w@);
        if matches_prefix_exec(w, prefix) {
            let item = CompletionItem {
                label: owned(w),
                insert_text: owned(w),
                kind,
                detail: None,
            };
            let ghost before = items@;
            items.push(item);
            proof {
                lemma_items_view_push(before, item);
            }
            assert(items_view(items@) =~= start + word_items(ws.take(i + 1), prefix@, kind));
        } else {
            assert(items_view(items@) =~= start + word_items(ws.take(i + 1), prefix@, kind));
        }
        i += 1;
    }
    assert(ws.take(words@.len() as int) =~= ws);
}

fn push_tables(
    items: &mut Vec<CompletionItem>,
    prefix: &Vec<char>,
    metadata: Option<&DatabaseMetadata>,
)
    ensures
        items_view(final(items)@) == items_view(old(items)@) + match metadata {
            Some(md) => table_items(prefix@, md.tables@),
            None => Seq::empty(),
        },
{
    let metadata = match metadata {
        Some(md) => md,
        None => {
            assert(items_view(items@) =~= items_view(items@) + Seq::<ItemView>::empty());
            return ;
        },
    };
    let ghost start = items_view(items@);
    let ghost ts = metadata.tables@;
    let mut i: usize = 0;
    while i < metadata.tables.len()
        invariant
            i <= ts.len(),
            ts == metadata.tables@,
            items_view(items@) == start + table_items(prefix@, ts.take(i as int)),
        decreases ts.len() - i,
    {
        let table = &metadata.tables[i];
        assert(ts.take(i + 1).drop_last() =~= ts.take(i as int));
        if matches_prefix_exec(table.name.as_str(), prefix) {
            let count = decimal_string(table.columns.len() as u128);
            let detail = concat2(count.as_str(), " cols");
            let item = CompletionItem {
                label: table.name.clone(),
                insert_text: table.name.clone(),
                kind: CompletionKind::Table,
                detail: Some(detail),
            };
            let ghost before = items@;
            items.push(item);
            proof {
                lemma_items_view_push(before, item);
            }
        }
        assert(items_view(items@) =~= start + table_items(prefix@, ts.take(i + 1)));
        i += 1;
    }
    assert(ts.take(ts.len() as int) =~= ts);
}

fn column_detail(table_name: &str, column: &ColumnMetadata) -> (r: String)
    ensures
        r@ == table_name@ + "."@ + column.name@ + ":"@ + column.data_type@,
{
    let a = concat2(table_name, ".");
    let b = concat2(a.as_str(), column.name.as_str());
    let c = concat2(b.as_str(), ":");
    concat2(c.as_str(), column.data_type.as_str())
}

fn push_qualified_columns(items: &mut Vec<CompletionItem>, prefix: &Vec<char>, table: &TableMetadata)
    ensures
        items_view(final(items)@) == items_view(old(items)@) + qualified_column_items(
            prefix@,
            table.name@,
            table.columns@,
        ),
{
    let ghost start = items_view(items@);
    let ghost cs = table.columns@;
    let mut j: usize = 0;
    while j < table.columns.len()
        invariant
            j <= cs.len(),
            cs == table.columns@,
            items_view(items@) == start + qualified_column_items(
                prefix@,
                table.name@,
                cs.take(j as int),
            ),
        decreases cs.len() - j,
    {
        let column = &table.columns[j];
        assert(cs.take(j + 1).drop_last() =~= cs.take(j as int));
        if matches_prefix_exec(column.name.as_str(), prefix) {
            let item = CompletionItem {
                label: column.name.clone(),
                insert_text: column.name.clone(),
                kind: CompletionKind::Column,
                detail: Some(column_detail(table.name.as_str(), column)),
            };
            let ghost before = items@;
            items.push(item);
            proof {
                lemma_items_view_push(before, item);
            }
        }
        assert(items_view(items@) =~= start + qualified_column_items(
            prefix@,
            table.name@,
            cs.take(j + 1),
        ));
        j += 1;
    }
    assert(cs.take(cs.len() as int) =~= cs);
}

fn push_columns(
    items: &mut Vec<CompletionItem>,
    prefix: &Vec<char>,
    metadata: Option<&DatabaseMetadata>,
)
    ensures
        items_view(final(items)@) == items_view(old(items)@) + match metadata {
            Some(md) => column_items(prefix@, md.tables@),
            None => Seq::empty(),
        },
{
    let metadata = match metadata {
        Some(md) => md,
        None => {
            assert(items_view(items@) =~= items_view(items@) + Seq::<ItemView>::empty());
            return ;
        },
    };
    let ghost start = items_view(items@);
    let ghost ts = metadata.tables@;
    let mut i: usize = 0;
    while i < metadata.tables.len()
        invariant
            i <= ts.len(),
            ts == metadata.tables@,
            items_view(items@) == start + column_items(prefix@, ts.take(i as int)),
        decreases ts.len() - i,
    {
        let table = &metadata.tables[i];
        assert(ts.take(i + 1).drop_last() =~= ts.take(i as int));
        push_qualified_columns(items, prefix, table);
        assert(items_view(items@) =~= start + column_items(prefix@, ts.take(i + 1)));
        i += 1;
    }
    assert(ts.take(ts.len() as int) =~= ts);
}

fn find_table(tables: &Vec<TableMetadata>, table_name: &str) -> (r: Option<usize>)
    ensures
        match r {
            Some(i) => find_table_from(tables@, table_name@, 0) == Some(i as int),
            None => find_table_from(tables@, table_name@, 0) is None,
        },
{
    let wanted = to_ascii_lower(table_name);
    let wanted_chars = chars_of(wanted.as_str());
    let mut i: usize = 0;
    while i < tables.len()
        invariant
            i <= tables@.len(),
            wanted_chars@ == lower(table_name@),
            find_table_from(tables@, table_name@, 0) == find_table_from(
                tables@,
                table_name@,
                i as int,
            ),
        decreases tables@.len() - i,
    {
        let name = to_ascii_lower(tables[i].name.as_str());
        let name_chars = chars_of(name.as_str());
        if chars_equal(&name_chars, &wanted_chars) {
            return Some(i);
        }
        i += 1;
    }
    None
}

fn push_table_columns(
    items: &mut Vec<CompletionItem>,
    prefix: &Vec<char>,
    metadata: Option<&DatabaseMetadata>,
    table_name: &str,
)
    ensures
        items_view(final(items)@) == items_view(old(items)@) + match metadata {
            Some(md) => match find_table_from(md.tables@, table_name@, 0) {
                Some(i) => typed_column_items(prefix@, md.tables@[i].columns@),
                None => Seq::empty(),
            },
            None => Seq::empty(),
        },
{
    let metadata = match metadata {
        Some(md) => md,
        None => {
            assert(items_view(items@) =~= items_view(items@) + Seq::<ItemView>::empty());
            return ;
        },
    };
    let index = match find_table(&metadata.tables, table_name) {
        Some(i) => i,
        None => {
            assert(items_view(items@) =~= items_view(items@) + Seq::<ItemView>::empty());
            return ;
        },
    };
    proof {
        lemma_find_table_in_range(metadata.tables@, table_name@, 0);
    }
    let table = &metadata.tables[index];
    let ghost start = items_view(items@);
    let ghost cs = table.columns@;
    let mut j: usize = 0;
    while j < table.columns.len()
        invariant
            j <= cs.len(),
            cs == table.columns@,
            items_view(items@) == start + typed_column_items(prefix@, cs.take(j as int)),
        decreases cs.len() - j,
    {
        let column = &table.columns[j];
        assert(cs.take(j + 1).drop_last() =~= cs.take(j as int));
        if matches_prefix_exec(column.name.as_str(), prefix) {
            let item = CompletionItem {
                label: column.name.clone(),
                insert_text: column.name.clone(),
                kind: CompletionKind::Column,
                detail: Some(column.data_type.clone()),
            };
            let ghost before = items@;
            items.push(item);
            proof {
                lemma_items_view_push(before, item);
            }
        }
        assert(items_view(items@) =~= start + typed_column_items(prefix@, cs.take(j + 1)));
        j += 1;
    }
    assert(cs.take(cs.len() as int) =~= cs);
}

proof fn lemma_find_table_in_range(ts: Seq<TableMetadata>, name: Seq<char>, i: int)
    ensures
        find_table_from(ts, name, i) matches Some(k) ==> i <= k < ts.len(),
    decreases ts.len() - i,
{
    if 0 <= i < ts.len() && lower(ts[i].name@) != lower(name) {
        lemma_find_table_in_range(ts, name, i + 1);
    }
}

/// The completion candidates for `prefix` in `context`, drawn from `metadata` and from the
/// keyword and function lists, at most `MAX_COMPLETIONS` of them.
pub fn completions(
    prefix: &str,
    context: CompletionContext,
    metadata: Option<&DatabaseMetadata>,
) -> (r: Vec<CompletionItem>)
    ensures
        items_view(r@) == completion_list(
            prefix@,
            context@,
            match metadata {
                Some(md) => Some(*md),
                None => None,
            },
        ),
{
    let up = to_ascii_upper(prefix);
    let p = chars_of(up.as_str());
    let mut items: Vec<CompletionItem> = Vec::new();
    let ghost md = match metadata {
        Some(md) => Some(*md),
        None => None,
    };
    match &context {
        CompletionContext::Table => push_tables(&mut items, &p, metadata),
        CompletionContext::TableColumn { table } => push_table_columns(
            &mut items,
            &p,
            metadata,
            table.as_str(),
        ),
        CompletionContext::Mixed => {
            push_tables(&mut items, &p, metadata);
            push_columns(&mut items, &p, metadata);
        },
    }
    assert(items_view(items@) =~= context_items(p@, context@, md));
    let is_table_column = match &context {
        CompletionContext::TableColumn { .. } => true,
        _ => false,
    };
    if !is_table_column {
        let kws = keyword_words();
        push_words(&mut items, &kws, &p, CompletionKind::Keyword);
        let fns = function_words();
        push_words(&mut items, &fns, &p, CompletionKind::Function);
    }
    let ghost all = items_view(items@);
    items.truncate(MAX_COMPLETIONS);
    assert(items_view(items@) =~= if all.len() > MAX_COMPLETIONS {
        all.take(MAX_COMPLETIONS as int)
    } else {
        all
    });
    items
}

// ---------------------------------------------------------------------------
// Keyword normalisation
// ---------------------------------------------------------------------------

fn sql_keyword_words() -> (r: Vec<&'static str>)
    ensures
        r@.map_values(|s: &str| s@) == sql_keywords(),
{
    let r = vec![
        "SELECT",
        "FROM",
        "WHERE",
        "JOIN",
        "LEFT",
        "INNER",
        "GROUP",
        "BY",
        "ORDER",
        "LIMIT",
        "INSERT",
        "INTO",
        "UPDATE",
        "DELETE",
        "CREATE",
        "ALTER",
        "DROP",
        "TABLE",
        "COUNT",
        "SUM",
        "AVG",
        "MIN",
        "MAX",
        "NOW",
    ];
    assert(r@.map_values(|s: &str| s@) =~= sql_keywords());
    r
}

/// The upper-case spelling of `token` when it is one of the recognised SQL words.
pub fn normalize_sql_keyword(token: &str) -> (r: Option<&'static str>)
    ensures
        r is Some <==> sql_keywords().contains(upper(token@)),
        r matches Some(k) ==> k@ == upper(token@),
{
    let up = to_ascii_upper(token);
    let up_chars = chars_of(up.as_str());
    let words = sql_keyword_words();
    let ghost ws = words@.map_values(|s: &str| s@);
    let mut i: usize = 0;
    while i < words.len()
        invariant
            i <= words@.len(),
            ws == words@.map_values(|s: &str| s@),
            ws == sql_keywords(),
            up_chars@ == upper(token@),
            forall|j: int| 0 <= j < i ==> ws[j] != upper(token@),
        decreases words@.len() - i,
    {
        let w = chars_of(words[i]);
        if chars_equal(&w, &up_chars) {
            assert(ws[i as int] == upper(token@));
            return Some(words[i]);
        }
        i += 1;
    }
    assert(!sql_keywords().contains(upper(token@)));
    None
}

// ---------------------------------------------------------------------------
// Where the cursor stands
// ---------------------------------------------------------------------------

/// Where the identifier that ends at the cursor begins.
pub open spec fn prefix_start(s: Seq<char>) -> int {
    word_start(s, s.len() as int)
}

/// The identifier characters immediately before the cursor.
pub open spec fn current_prefix(s: Seq<char>) -> Seq<char> {
    s.subrange(prefix_start(s), s.len() as int)
}

/// The word before the current prefix, skipping the separators between them.
pub open spec fn previous_word(s: Seq<char>) -> Seq<char> {
    let end = gap_start(s, prefix_start(s));
    s.subrange(word_start(s, end), end)
}

/// `table.prefix` right before the cursor, as (table, prefix), when the table part is not empty.
pub open spec fn dotted_prefix(s: Seq<char>) -> Option<(Seq<char>, Seq<char>)> {
    let ps = prefix_start(s);
    if ps == 0 || s[ps - 1] != '.' {
        None
    } else {
        let ts = word_start(s, ps - 1);
        if ts == ps - 1 {
            None
        } else {
            Some((s.subrange(ts, ps - 1), s.subrange(ps, s.len() as int)))
        }
    }
}

/// What `completion_context` returns for the text before the cursor.
pub open spec fn context_of(s: Seq<char>) -> (Seq<char>, ContextView) {
    match dotted_prefix(s) {
        Some((table, prefix)) => (prefix, ContextView::TableColumn(table)),
        None => {
            let prev = upper(previous_word(s));
            (
                current_prefix(s),
                if prev == "FROM"@ || prev == "JOIN"@ {
                    ContextView::Table
                } else {
                    ContextView::Mixed
                },
            )
        },
    }
}

fn current_prefix_exec(chars: &Vec<char>) -> (r: String)
    ensures
        r@ == current_prefix(chars@),
{
    proof {
        lemma_word_start_bounds(chars@, chars@.len() as int);
    }
    let start = word_start_exec(chars, chars.len());
    string_from_range(chars, start, chars.len())
}

fn previous_word_exec(chars: &Vec<char>, current_prefix: &str) -> (r: String)
    requires
        current_prefix@ == crate::completion::current_prefix(chars@),
    ensures
        r@ == previous_word(chars@),
{
    proof {
        lemma_word_start_bounds(chars@, chars@.len() as int);
    }
    let prefix_len = current_prefix.unicode_len();
    let index = if chars.len() >= prefix_len {
        chars.len() - prefix_len
    } else {
        0
    };
    proof {
        lemma_gap_start_bounds(chars@, index as int);
    }
    let end = gap_start_exec(chars, index);
    proof {
        lemma_word_start_bounds(chars@, end as int);
    }
    let start = word_start_exec(chars, end);
    string_from_range(chars, start, end)
}

fn dotted_prefix_exec(chars: &Vec<char>) -> (r: Option<(String, String)>)
    ensures
        match r {
            Some((t, p)) => dotted_prefix(chars@) == Some((t@, p@)),
            None => dotted_prefix(chars@) is None,
        },
{
    proof {
        lemma_word_start_bounds(chars@, chars@.len() as int);
    }
    let prefix_start = word_start_exec(chars, chars.len());
    if prefix_start == 0 || chars[prefix_start - 1] != '.' {
        return None;
    }
    proof {
        lemma_word_start_bounds(chars@, prefix_start - 1);
    }
    let table_start = word_start_exec(chars, prefix_start - 1);
    let table = string_from_range(chars, table_start, prefix_start - 1);
    if table_start == prefix_start - 1 {
        return None;
    }
    let prefix = string_from_range(chars, prefix_start, chars.len());
    Some((table, prefix))
}

/// The prefix to complete and the kind of completion wanted, from the text before the cursor.
pub fn completion_context(before_cursor: &str) -> (r: (String, CompletionContext))
    ensures
        (r.0@, r.1@) == context_of(before_cursor@),
{
    let chars = chars_of(before_cursor);
    if let Some((table, prefix)) = dotted_prefix_exec(&chars) {
        return (prefix, CompletionContext::TableColumn { table });
    }
    let prefix = current_prefix_exec(&chars);
    let previous = previous_word_exec(&chars, prefix.as_str());
    let up = to_ascii_upper(previous.as_str());
    let is_table = str_equal(up.as_str(), "FROM") || str_equal(up.as_str(), "JOIN");
    let context = if is_table {
        CompletionContext::Table
    } else {
        CompletionContext::Mixed
    };
    (prefix, context)
}

// ---------------------------------------------------------------------------
// Command hints
// ---------------------------------------------------------------------------

/// The commands of `cmds` that the (lower-cased) prefix begins, or all of them for an empty prefix.
pub open spec fn hint_list(cmds: Seq<Seq<char>>, prefix: Seq<char>) -> Seq<Seq<char>>
    decreases cmds.len(),
{
    if cmds.len() == 0 {
        Seq::empty()
    } else {
        hint_list(cmds.drop_last(), prefix) + if prefix.len() == 0 || starts_with(
            cmds.last(),
            prefix,
        ) {
            seq![cmds.last()]
        } else {
            Seq::empty()
        }
    }
}

/// `a` is `b` with some of its entries left out, the rest in their order.
pub open spec fn subsequence_of<T>(a: Seq<T>, b: Seq<T>) -> bool
    decreases b.len(),
{
    if b.len() == 0 {
        a.len() == 0
    } else {
        subsequence_of(a, b.drop_last()) || (a.len() > 0 && a.last() == b.last()
            && subsequence_of(a.drop_last(), b.drop_last()))
    }
}

proof fn lemma_hints_narrow(cmds: Seq<Seq<char>>, p: Seq<char>, q: Seq<char>)
    ensures
        subsequence_of(hint_list(cmds, p + q), hint_list(cmds, p)),
    decreases cmds.len(),
{
    if cmds.len() > 0 {
        lemma_hints_narrow(cmds.drop_last(), p, q);
        let long = hint_list(cmds.drop_last(), p + q);
        let short = hint_list(cmds.drop_last(), p);
        let c = cmds.last();
        let in_long = (p + q).len() == 0 || starts_with(c, p + q);
        let in_short = p.len() == 0 || starts_with(c, p);
        if in_long && p.len() > 0 {
            assert(c.take(p.len() as int) =~= (p + q).take(p.len() as int));
            assert((p + q).take(p.len() as int) =~= p);
        }
        if in_long {
            assert((long + seq![c]).drop_last() =~= long);
            assert((short + seq![c]).drop_last() =~= short);
        } else if in_short {
            assert(long + Seq::<Seq<char>>::empty() =~= long);
            assert((short + seq![c]).drop_last() =~= short);
        } else {
            assert(long + Seq::<Seq<char>>::empty() =~= long);
            assert(short + Seq::<Seq<char>>::empty() =~= short);
        }
    }
}

proof fn lemma_subsequence_contains<T>(a: Seq<T>, b: Seq<T>, i: int)
    requires
        subsequence_of(a, b),
        0 <= i < a.len(),
    ensures
        b.contains(a[i]),
    decreases b.len(),
{
    if subsequence_of(a, b.drop_last()) {
        lemma_subsequence_contains(a, b.drop_last(), i);
        let k = choose|k: int| 0 <= k < b.drop_last().len() && b.drop_last()[k] == a[i];
        assert(b[k] == a[i]);
    } else if i == a.len() - 1 {
        assert(b[b.len() - 1] == a[i]);
    } else {
        assert(a.drop_last()[i] == a[i]);
        lemma_subsequence_contains(a.drop_last(), b.drop_last(), i);
        let k = choose|k: int| 0 <= k < b.drop_last().len() && b.drop_last()[k] == a[i];
        assert(b[k] == a[i]);
    }
}

proof fn lemma_subsequence_distinct<T>(a: Seq<T>, b: Seq<T>)
    requires
        subsequence_of(a, b),
        b.no_duplicates(),
    ensures
        a.no_duplicates(),
    decreases b.len(),
{
    if b.len() > 0 {
        assert(b.drop_last().no_duplicates());
        if subsequence_of(a, b.drop_last()) {
            lemma_subsequence_distinct(a, b.drop_last());
        } else {
            let a0 = a.drop_last();
            lemma_subsequence_distinct(a0, b.drop_last());
            assert forall|i: int, j: int| 0 <= i < a.len() && 0 <= j < a.len() && i != j implies a[i]
                != a[j] by {
                if i < a.len() - 1 && j < a.len() - 1 {
                    assert(a0[i] == a[i] && a0[j] == a[j]);
                } else {
                    let k = if i < a.len() - 1 {
                        i
                    } else {
                        j
                    };
                    assert(a0[k] == a[k]);
                    lemma_subsequence_contains(a0, b.drop_last(), k);
                    let m = choose|m: int| 0 <= m < b.drop_last().len() && b.drop_last()[m] == a[k];
                    assert(b[m] == a[k]);
                }
            }
        }
    }
}

proof fn lemma_hints_of_commands(cmds: Seq<Seq<char>>, p: Seq<char>)
    ensures
        subsequence_of(hint_list(cmds, p), cmds),
    decreases cmds.len(),
{
    if cmds.len() > 0 {
        lemma_hints_of_commands(cmds.drop_last(), p);
        let h = hint_list(cmds.drop_last(), p);
        assert((h + seq![cmds.last()]).drop_last() =~= h);
        assert(h + Seq::<Seq<char>>::empty() =~= h);
    }
}

/// `command_hints`: no command is hinted twice.
pub proof fn law_command_hints_distinct(prefix: Seq<char>)
    ensures
        hint_list(command_list(), lower(prefix)).no_duplicates(),
{
    reveal_strlit("w");
    reveal_strlit("q");
    reveal_strlit("wq");
    reveal_strlit("x");
    reveal_strlit("run");
    reveal_strlit("q!");
    let c = command_list();
    assert forall|i: int, j: int| 0 <= i < c.len() && 0 <= j < c.len() && i != j implies c[i]
        != c[j] by {
        assert(c[i].len() != c[j].len() || c[i][0] != c[j][0] || c[i][c[i].len() - 1]
            != c[j][c[j].len() - 1]);
    }
    lemma_hints_of_commands(c, lower(prefix));
    lemma_subsequence_distinct(hint_list(c, lower(prefix)), c);
}

/// `command_hints`: typing more of a command can only narrow the hints. The hints for
/// `prefix + more` are some of those for `prefix`, in the same order.
pub proof fn law_command_hints_narrow(prefix: Seq<char>, more: Seq<char>)
    ensures
        subsequence_of(
            hint_list(command_list(), lower(prefix + more)),
            hint_list(command_list(), lower(prefix)),
        ),
{
    assert(lower(prefix + more) =~= lower(prefix) + lower(more));
    lemma_hints_narrow(command_list(), lower(prefix), lower(more));
}

fn command_words() -> (r: Vec<&'static str>)
    ensures
        r@.map_values(|s: &str| s@) == command_list(),
{
    let r = vec!["w", "q", "wq", "x", "run", "q!"];
    assert(r@.map_values(|s: &str| s@) =~= command_list());
    r
}

/// The editor commands that begin with `prefix` (ignoring ASCII case), in their fixed order.
pub fn command_hints(prefix: &str) -> (r: Vec<&'static str>)
    ensures
        r@.map_values(|s: &str| s@) == hint_list(command_list(), lower(prefix@)),
{
    let low = to_ascii_lower(prefix);
    let p = chars_of(low.as_str());
    let cmds = command_words();
    let ghost cs = cmds@.map_values(|s: &str| s@);
    let mut r: Vec<&'static str> = Vec::new();
    let mut i: usize = 0;
    while i < cmds.len()
        invariant
            i <= cmds@.len(),
            cs == cmds@.map_values(|s: &str| s@),
            p@ == lower(prefix@),
            r@.map_values(|s: &str| s@) == hint_list(cs.take(i as int), p@),
        decreases cmds@.len() - i,
    {
        let c = cmds[i];
        let cc = chars_of(c);
        assert(cs.take(i + 1).drop_last() =~= cs.take(i as int));
        assert(cs.take(i + 1).last() == c@);
        if p.len() == 0 || chars_start_with(&cc, &p) {
            r.push(c);
        }
        assert(r@.map_values(|s: &str| s@) =~= hint_list(cs.take(i + 1), p@));
        i += 1;
    }
    assert(cs.take(cmds@.len() as int) =~= cs);
    assert(cs == command_list());
    r
}

} // verus!
