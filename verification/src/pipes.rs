//! The PostgreSQL pipe: the table-binding context built during
//! initialization, and the pure planning logic of every phase — schema
//! setup, publication setup, the initial bulk copy, and the steady-state
//! sync loop. The drivers around the library perform the I/O these plans
//! call for.

use vstd::prelude::*;

use crate::clickhouse::ClickhouseColumn;
use crate::config::{PostgresConfig, PostgresSource};
use crate::errors::Errors;
use crate::pgoutput::{
    cells_view, parse_pg_output, spec_parse_pg_output, MessageType, PgOutput, SpecParse,
};
use crate::postgres::{rows_views_eq, PeekWalChangeResult, PostgresColumn, PostgresCopyRow};
use crate::queries;
use crate::strutil;

verus! {

/// The cached column sets of one table binding.
#[derive(Debug)]
pub struct PostgresPipeTableInfo {
    pub postgres_columns: Vec<PostgresColumn>,
    pub clickhouse_columns: Vec<ClickhouseColumn>,
}

/// Counts of the writes one iteration issued for one table.
#[derive(Debug, Clone)]
pub struct WriteCounter {
    pub insert_count: usize,
    pub update_count: usize,
    pub delete_count: usize,
}

impl Default for WriteCounter {
    /// A fresh counter holds zeroes.
    fn default() -> (r: Self)
        ensures
            r.insert_count == 0 && r.update_count == 0 && r.delete_count == 0,
    {
        WriteCounter { insert_count: 0, update_count: 0, delete_count: 0 }
    }
}

/// The binding key of a table: `schema.table`.
pub open spec fn spec_table_key(schema: Seq<char>, table: Seq<char>) -> Seq<char> {
    schema + "."@ + table
}

/// The index of the binding entry with the given key, or -1.
pub open spec fn spec_tbl_index(
    entries: Seq<(String, PostgresPipeTableInfo)>,
    key: Seq<char>,
) -> int
    decreases entries.len(),
{
    if entries.len() == 0 {
        -1
    } else if entries[0].0@ == key {
        0
    } else {
        let r = spec_tbl_index(entries.skip(1), key);
        if r == -1 {
            -1
        } else {
            r + 1
        }
    }
}

/// What `spec_tbl_index` returns: no entry matches, or the first match.
pub proof fn lemma_spec_tbl_index(entries: Seq<(String, PostgresPipeTableInfo)>, key: Seq<char>)
    ensures
        spec_tbl_index(entries, key) == -1 ==> forall|i: int|
            0 <= i < entries.len() ==> (#[trigger] entries[i]).0@ != key,
        spec_tbl_index(entries, key) != -1 ==> 0 <= spec_tbl_index(entries, key) < entries.len()
            && entries[spec_tbl_index(entries, key)].0@ == key && forall|i: int|
            0 <= i < spec_tbl_index(entries, key) ==> (#[trigger] entries[i]).0@ != key,
    decreases entries.len(),
{
    if entries.len() > 0 && entries[0].0@ != key {
        lemma_spec_tbl_index(entries.skip(1), key);
        let r = spec_tbl_index(entries.skip(1), key);
        if r == -1 {
            assert forall|i: int| 0 <= i < entries.len() implies (#[trigger] entries[i]).0@
                != key by {
                if i > 0 {
                    assert(entries.skip(1)[i - 1] == entries[i]);
                }
            }
        } else {
            assert(entries.skip(1)[r] == entries[r + 1]);
            assert forall|i: int| 0 <= i < r + 1 implies (#[trigger] entries[i]).0@ != key by {
                if i > 0 {
                    assert(entries.skip(1)[i - 1] == entries[i]);
                }
            }
        }
    }
}

/// The index of the relation-map entry for the given relation id, or -1.
pub open spec fn spec_rel_index(entries: Seq<(u32, (String, String))>, relation_id: u32) -> int
    decreases entries.len(),
{
    if entries.len() == 0 {
        -1
    } else if entries[0].0 == relation_id {
        0
    } else {
        let r = spec_rel_index(entries.skip(1), relation_id);
        if r == -1 {
            -1
        } else {
            r + 1
        }
    }
}

/// What `spec_rel_index` returns: no entry matches, or the first match.
pub proof fn lemma_spec_rel_index(entries: Seq<(u32, (String, String))>, relation_id: u32)
    ensures
        spec_rel_index(entries, relation_id) == -1 ==> forall|i: int|
            0 <= i < entries.len() ==> (#[trigger] entries[i]).0 != relation_id,
        spec_rel_index(entries, relation_id) != -1 ==> 0 <= spec_rel_index(entries, relation_id)
            < entries.len() && entries[spec_rel_index(entries, relation_id)].0 == relation_id
            && forall|i: int|
            0 <= i < spec_rel_index(entries, relation_id) ==> (#[trigger] entries[i]).0
                != relation_id,
    decreases entries.len(),
{
    if entries.len() > 0 && entries[0].0 != relation_id {
        lemma_spec_rel_index(entries.skip(1), relation_id);
        let r = spec_rel_index(entries.skip(1), relation_id);
        if r == -1 {
            assert forall|i: int| 0 <= i < entries.len() implies (#[trigger] entries[i]).0
                != relation_id by {
                if i > 0 {
                    assert(entries.skip(1)[i - 1] == entries[i]);
                }
            }
        } else {
            assert(entries.skip(1)[r] == entries[r + 1]);
            assert forall|i: int| 0 <= i < r + 1 implies (#[trigger] entries[i]).0
                != relation_id by {
                if i > 0 {
                    assert(entries.skip(1)[i - 1] == entries[i]);
                }
            }
        }
    }
}

/// The pipe's table bindings and relation map: populated during
/// initialization, read by the sync loop.
#[derive(Debug)]
pub struct PostgresPipeContext {
    pub tables_map: Vec<(String, PostgresPipeTableInfo)>,
    pub table_relation_map: Vec<(u32, (String, String))>,
}

impl Default for PostgresPipeContext {
    /// A fresh context holds no bindings.
    fn default() -> (r: Self)
        ensures
            r.tables_map@.len() == 0 && r.table_relation_map@.len() == 0,
    {
        PostgresPipeContext { tables_map: Vec::new(), table_relation_map: Vec::new() }
    }
}

/// Finds the binding entry for `key`.
fn find_tbl_index(entries: &Vec<(String, PostgresPipeTableInfo)>, key: &str) -> (r: Option<usize>)
    ensures
        r is None <==> spec_tbl_index(entries@, key@) == -1,
        r matches Some(i) ==> i as int == spec_tbl_index(entries@, key@) && i < entries@.len(),
{
    proof {
        lemma_spec_tbl_index(entries@, key@);
    }
    let mut i: usize = 0;
    let n = entries.len();
    while i < n
        invariant
            n == entries@.len(),
            i <= n,
            forall|j: int| 0 <= j < i ==> (#[trigger] entries@[j]).0@ != key@,
            spec_tbl_index(entries@, key@) != -1 ==> 0 <= spec_tbl_index(entries@, key@)
                < entries@.len() && entries@[spec_tbl_index(entries@, key@)].0@ == key@ && forall|
                j: int,
            |
                0 <= j < spec_tbl_index(entries@, key@) ==> (#[trigger] entries@[j]).0@ != key@,
            spec_tbl_index(entries@, key@) == -1 ==> forall|j: int|
                0 <= j < entries@.len() ==> (#[trigger] entries@[j]).0@ != key@,
        decreases n - i,
    {
        if strutil::str_eq_str(entries[i].0.as_str(), key) {
            return Some(i);
        }
        i = i + 1;
    }
    None
}

impl PostgresPipeContext {
    /// Binds `schema.table` to the given column sets: replaces the existing
    /// entry for that key, or appends a new one.
    pub fn set_table(
        &mut self,
        schema_name: &str,
        table_name: &str,
        postgres_columns: Vec<PostgresColumn>,
        clickhouse_columns: Vec<ClickhouseColumn>,
    )
        ensures
            ({
                let key = spec_table_key(schema_name@, table_name@);
                let old_idx = spec_tbl_index(old(self).tables_map@, key);
                let entries = final(self).tables_map@;
                &&& final(self).table_relation_map == old(self).table_relation_map
                &&& (old_idx == -1 ==> entries.drop_last() == old(self).tables_map@
                    && entries.last().0@ == key && entries.last().1.postgres_columns
                    == postgres_columns && entries.last().1.clickhouse_columns
                    == clickhouse_columns)
                &&& (old_idx != -1 ==> entries == old(self).tables_map@.update(
                    old_idx,
                    entries[old_idx],
                ) && entries[old_idx].0 == old(self).tables_map@[old_idx].0
                    && entries[old_idx].1.postgres_columns == postgres_columns
                    && entries[old_idx].1.clickhouse_columns == clickhouse_columns)
            }),
    {
        let mut key = String::new();
        key.append(schema_name);
        key.append(".");
        key.append(table_name);
        let info = PostgresPipeTableInfo { postgres_columns, clickhouse_columns };
        proof {
            assert(key@ =~= spec_table_key(schema_name@, table_name@));
        }
        match find_tbl_index(&self.tables_map, key.as_str()) {
            Some(i) => {
                let ghost entries = self.tables_map@;
                let old_entry = self.tables_map.remove(i);
                self.tables_map.insert(i, (old_entry.0, info));
                proof {
                    assert(self.tables_map@ =~= entries.update(
                        i as int,
                        self.tables_map@[i as int],
                    ));
                    assert(self.tables_map@[i as int].0 == entries[i as int].0);
                }
            },
            None => {
                let ghost entries = self.tables_map@;
                self.tables_map.push((key, info));
                proof {
                    assert(self.tables_map@.drop_last() =~= entries);
                }
            },
        }
    }

    /// Records which catalog relation id denotes `schema.table`.
    pub fn set_relation(&mut self, relation_id: u32, schema_name: &str, table_name: &str)
        ensures
            final(self).tables_map == old(self).tables_map,
            final(self).table_relation_map@.drop_last() == old(self).table_relation_map@,
            final(self).table_relation_map@.last().0 == relation_id,
            final(self).table_relation_map@.last().1.0@ == schema_name@,
            final(self).table_relation_map@.last().1.1@ == table_name@,
    {
        let entry = (
            relation_id,
            (String::from_str(schema_name), String::from_str(table_name)),
        );
        self.table_relation_map.push(entry);
    }

    /// Looks up the schema and table a relation id denotes.
    pub fn get_relation<'a>(&'a self, relation_id: u32) -> (r: Option<&'a (String, String)>)
        ensures
            r is None <==> spec_rel_index(self.table_relation_map@, relation_id) == -1,
            r matches Some(p) ==> 0 <= spec_rel_index(self.table_relation_map@, relation_id)
                < self.table_relation_map@.len() && *p == self.table_relation_map@[spec_rel_index(
                self.table_relation_map@,
                relation_id,
            )].1,
    {
        proof {
            lemma_spec_rel_index(self.table_relation_map@, relation_id);
        }
        let ghost entries = self.table_relation_map@;
        let mut i: usize = 0;
        let n = self.table_relation_map.len();
        while i < n
            invariant
                n == entries.len(),
                self.table_relation_map@ == entries,
                i <= n,
                forall|j: int| 0 <= j < i ==> (#[trigger] entries[j]).0 != relation_id,
                spec_rel_index(entries, relation_id) != -1 ==> 0 <= spec_rel_index(
                    entries,
                    relation_id,
                ) < entries.len() && entries[spec_rel_index(entries, relation_id)].0 == relation_id
                    && forall|j: int|
                    0 <= j < spec_rel_index(entries, relation_id) ==> (#[trigger] entries[j]).0
                        != relation_id,
                spec_rel_index(entries, relation_id) == -1 ==> forall|j: int|
                    0 <= j < entries.len() ==> (#[trigger] entries[j]).0 != relation_id,
            decreases n - i,
        {
            if self.table_relation_map[i].0 == relation_id {
                return Some(&self.table_relation_map[i].1);
            }
            i = i + 1;
        }
        None
    }

    /// Looks up the binding for the key `schema.table`.
    pub fn get_table_info<'a>(&'a self, key: &str) -> (r: Option<&'a PostgresPipeTableInfo>)
        ensures
            r is None <==> spec_tbl_index(self.tables_map@, key@) == -1,
            r matches Some(info) ==> 0 <= spec_tbl_index(self.tables_map@, key@)
                < self.tables_map@.len() && *info == self.tables_map@[spec_tbl_index(
                self.tables_map@,
                key@,
            )].1,
    {
        proof {
            lemma_spec_tbl_index(self.tables_map@, key@);
        }
        let ghost entries = self.tables_map@;
        let mut i: usize = 0;
        let n = self.tables_map.len();
        while i < n
            invariant
                n == entries.len(),
                self.tables_map@ == entries,
                i <= n,
                forall|j: int| 0 <= j < i ==> (#[trigger] entries[j]).0@ != key@,
                spec_tbl_index(entries, key@) != -1 ==> 0 <= spec_tbl_index(entries, key@)
                    < entries.len() && entries[spec_tbl_index(entries, key@)].0@ == key@ && forall|
                    j: int,
                |
                    0 <= j < spec_tbl_index(entries, key@) ==> (#[trigger] entries[j]).0@ != key@,
                spec_tbl_index(entries, key@) == -1 ==> forall|j: int|
                    0 <= j < entries.len() ==> (#[trigger] entries[j]).0@ != key@,
        decreases n - i,
        {
            if strutil::str_eq_str(self.tables_map[i].0.as_str(), key) {
                return Some(&self.tables_map[i].1);
            }
            i = i + 1;
        }
        None
    }
}

/// The index of the configured source for `schema.table`, or -1.
pub open spec fn spec_src_index(
    tables: Seq<PostgresSource>,
    schema: Seq<char>,
    table: Seq<char>,
) -> int
    decreases tables.len(),
{
    if tables.len() == 0 {
        -1
    } else if tables[0].schema_name@ == schema && tables[0].table_name@ == table {
        0
    } else {
        let r = spec_src_index(tables.skip(1), schema, table);
        if r == -1 {
            -1
        } else {
            r + 1
        }
    }
}

/// What `spec_src_index` returns: no source matches, or the first match.
pub proof fn lemma_spec_src_index(tables: Seq<PostgresSource>, schema: Seq<char>, table: Seq<char>)
    ensures
        spec_src_index(tables, schema, table) == -1 ==> forall|i: int|
            0 <= i < tables.len() ==> !((#[trigger] tables[i]).schema_name@ == schema
                && tables[i].table_name@ == table),
        spec_src_index(tables, schema, table) != -1 ==> 0 <= spec_src_index(tables, schema, table)
            < tables.len() && tables[spec_src_index(tables, schema, table)].schema_name@ == schema
            && tables[spec_src_index(tables, schema, table)].table_name@ == table && forall|i: int|
            0 <= i < spec_src_index(tables, schema, table) ==> !((
            #[trigger] tables[i]).schema_name@ == schema && tables[i].table_name@ == table),
    decreases tables.len(),
{
    if tables.len() > 0 && !(tables[0].schema_name@ == schema && tables[0].table_name@ == table) {
        lemma_spec_src_index(tables.skip(1), schema, table);
        let r = spec_src_index(tables.skip(1), schema, table);
        if r == -1 {
            assert forall|i: int| 0 <= i < tables.len() implies !((
            #[trigger] tables[i]).schema_name@ == schema && tables[i].table_name@ == table) by {
                if i > 0 {
                    assert(tables.skip(1)[i - 1] == tables[i]);
                }
            }
        } else {
            assert(tables.skip(1)[r] == tables[r + 1]);
            assert forall|i: int| 0 <= i < r + 1 implies !((#[trigger] tables[i]).schema_name@
                == schema && tables[i].table_name@ == table) by {
                if i > 0 {
                    assert(tables.skip(1)[i - 1] == tables[i]);
                }
            }
        }
    }
}

/// The mask columns configured for `schema.table`: the matching source's
/// list, or none when the table is not configured.
pub open spec fn spec_mask_for(
    tables: Seq<PostgresSource>,
    schema: Seq<char>,
    table: Seq<char>,
) -> Seq<String> {
    let i = spec_src_index(tables, schema, table);
    if i == -1 {
        Seq::empty()
    } else {
        tables[i].mask_columns@
    }
}

/// Looks up the mask columns configured for `schema.table`.
pub fn find_mask_columns<'a>(
    tables: &'a Vec<PostgresSource>,
    schema_name: &str,
    table_name: &str,
) -> (r: Vec<String>)
    ensures
        r@ == spec_mask_for(tables@, schema_name@, table_name@),
{
    proof {
        lemma_spec_src_index(tables@, schema_name@, table_name@);
    }
    let mut i: usize = 0;
    while i < tables.len()
        invariant
            i <= tables@.len(),
            forall|j: int| 0 <= j < i ==> !((#[trigger] tables@[j]).schema_name@ == schema_name@
                && tables@[j].table_name@ == table_name@),
            spec_src_index(tables@, schema_name@, table_name@) != -1 ==> 0 <= spec_src_index(
                tables@,
                schema_name@,
                table_name@,
            ) < tables@.len() && tables@[spec_src_index(tables@, schema_name@, table_name@)].schema_name@
                == schema_name@ && tables@[spec_src_index(
                tables@,
                schema_name@,
                table_name@,
            )].table_name@ == table_name@ && forall|j: int|
                0 <= j < spec_src_index(tables@, schema_name@, table_name@) ==> !((
                #[trigger] tables@[j]).schema_name@ == schema_name@ && tables@[j].table_name@
                    == table_name@),
            spec_src_index(tables@, schema_name@, table_name@) == -1 ==> forall|j: int|
                0 <= j < tables@.len() ==> !((#[trigger] tables@[j]).schema_name@ == schema_name@
                    && tables@[j].table_name@ == table_name@),
        decreases tables@.len() - i,
    {
        if strutil::str_eq_str(tables[i].schema_name.as_str(), schema_name) && strutil::str_eq_str(
            tables[i].table_name.as_str(),
            table_name,
        ) {
            let mut mask: Vec<String> = Vec::new();
            let src = &tables[i].mask_columns;
            let mut k: usize = 0;
            while k < src.len()
                invariant
                    k <= src@.len(),
                    mask@ == src@.take(k as int),
                decreases src@.len() - k,
            {
                mask.push(src[k].clone());
                proof {
                    assert(mask@ =~= src@.take(k + 1int));
                }
                k = k + 1;
            }
            proof {
                assert(src@.take(src@.len() as int) =~= src@);
            }
            return mask;
        }
        i = i + 1;
    }
    Vec::new()
}

/// The binding a record belongs to: the schema and table its relation id
/// denotes, provided the relation is known and the table is bound.
pub open spec fn spec_record_binding(ctx: PostgresPipeContext, p: PgOutput) -> Option<
    (Seq<char>, Seq<char>),
> {
    let ri = spec_rel_index(ctx.table_relation_map@, p.relation_id);
    if ri == -1 {
        None
    } else {
        let schema = ctx.table_relation_map@[ri].1.0@;
        let table = ctx.table_relation_map@[ri].1.1@;
        if spec_tbl_index(ctx.tables_map@, spec_table_key(schema, table)) == -1 {
            None
        } else {
            Some((schema, table))
        }
    }
}

/// The bound column sets of `schema.table`.
pub open spec fn spec_info_for(
    ctx: PostgresPipeContext,
    schema: Seq<char>,
    table: Seq<char>,
) -> PostgresPipeTableInfo {
    ctx.tables_map@[spec_tbl_index(ctx.tables_map@, spec_table_key(schema, table))].1
}

/// Whether a record is written as an INSERT (Insert and Update both are).
pub open spec fn spec_is_insert(p: PgOutput) -> bool {
    p.message_type == MessageType::Insert || p.message_type == MessageType::Update
}

/// The rows a table receives as INSERTs from a batch, in record order.
pub open spec fn spec_insert_rows_for(
    parsed: Seq<PgOutput>,
    ctx: PostgresPipeContext,
    schema: Seq<char>,
    table: Seq<char>,
) -> Seq<PostgresCopyRow>
    decreases parsed.len(),
{
    if parsed.len() == 0 {
        Seq::empty()
    } else {
        let rest = spec_insert_rows_for(parsed.drop_last(), ctx, schema, table);
        let p = parsed.last();
        if spec_is_insert(p) && spec_record_binding(ctx, p) == Some((schema, table)) {
            rest.push(PostgresCopyRow { columns: p.payload })
        } else {
            rest
        }
    }
}

/// The key rows a table receives as DELETEs from a batch, in record order.
pub open spec fn spec_delete_rows_for(
    parsed: Seq<PgOutput>,
    ctx: PostgresPipeContext,
    schema: Seq<char>,
    table: Seq<char>,
) -> Seq<PostgresCopyRow>
    decreases parsed.len(),
{
    if parsed.len() == 0 {
        Seq::empty()
    } else {
        let rest = spec_delete_rows_for(parsed.drop_last(), ctx, schema, table);
        let p = parsed.last();
        if p.message_type == MessageType::Delete && spec_record_binding(ctx, p) == Some(
            (schema, table),
        ) {
            rest.push(PostgresCopyRow { columns: p.payload })
        } else {
            rest
        }
    }
}

/// The bound tables a batch touches with records of the given kind, in
/// first-seen order.
pub open spec fn spec_tables_touched(
    parsed: Seq<PgOutput>,
    ctx: PostgresPipeContext,
    kind: MessageType,
) -> Seq<(Seq<char>, Seq<char>)>
    decreases parsed.len(),
{
    if parsed.len() == 0 {
        Seq::empty()
    } else {
        let rest = spec_tables_touched(parsed.drop_last(), ctx, kind);
        let p = parsed.last();
        let matches_kind = if kind == MessageType::Insert {
            spec_is_insert(p)
        } else {
            p.message_type == kind
        };
        match spec_record_binding(ctx, p) {
            Some(b) => if matches_kind && !spec_pairs_contain(rest, b.0, b.1) {
                rest.push(b)
            } else {
                rest
            },
            None => rest,
        }
    }
}

/// The views of a list of table pairs.
pub open spec fn pair_views(pairs: Seq<(String, String)>) -> Seq<(Seq<char>, Seq<char>)> {
    Seq::new(pairs.len(), |i: int| (pairs[i].0@, pairs[i].1@))
}

/// Whether a list of table pairs holds the given pair.
pub open spec fn spec_pairs_contain(
    pairs: Seq<(Seq<char>, Seq<char>)>,
    schema: Seq<char>,
    table: Seq<char>,
) -> bool {
    exists|i: int| 0 <= i < pairs.len() && #[trigger] pairs[i] == (schema, table)
}

/// The TRUNCATE statement one touched table yields.
pub open spec fn spec_truncate_stmt(db: Seq<char>, pr: (Seq<char>, Seq<char>)) -> Seq<char> {
    queries::spec_truncate_query(db, pr.1)
}

/// The INSERT statement one touched table yields: all rows the batch gives
/// it, rendered with its mask.
pub open spec fn spec_insert_stmt(
    ctx: PostgresPipeContext,
    db: Seq<char>,
    cfg_tables: Seq<PostgresSource>,
    parsed: Seq<PgOutput>,
    pr: (Seq<char>, Seq<char>),
) -> Seq<char> {
    let info = spec_info_for(ctx, pr.0, pr.1);
    queries::spec_insert_query(
        db,
        info.clickhouse_columns@,
        info.postgres_columns@,
        spec_mask_for(cfg_tables, pr.0, pr.1),
        pr.1,
        spec_insert_rows_for(parsed, ctx, pr.0, pr.1),
    )
}

/// The DELETE statement one touched table yields.
pub open spec fn spec_delete_stmt(
    ctx: PostgresPipeContext,
    db: Seq<char>,
    parsed: Seq<PgOutput>,
    pr: (Seq<char>, Seq<char>),
) -> Seq<char> {
    let info = spec_info_for(ctx, pr.0, pr.1);
    queries::spec_delete_query(
        db,
        info.clickhouse_columns@,
        info.postgres_columns@,
        pr.1,
        spec_delete_rows_for(parsed, ctx, pr.0, pr.1),
    )
}

/// The texts with the empty ones removed, order kept.
pub open spec fn spec_nonempty_texts(texts: Seq<Seq<char>>) -> Seq<Seq<char>>
    decreases texts.len(),
{
    if texts.len() == 0 {
        Seq::empty()
    } else {
        let rest = spec_nonempty_texts(texts.drop_last());
        if texts.last().len() > 0 {
            rest.push(texts.last())
        } else {
            rest
        }
    }
}

/// Every text that survives the filter is nonempty.
pub proof fn lemma_nonempty_texts(texts: Seq<Seq<char>>)
    ensures
        forall|j: int|
            0 <= j < spec_nonempty_texts(texts).len() ==> (#[trigger] spec_nonempty_texts(
                texts,
            )[j]).len() > 0,
    decreases texts.len(),
{
    if texts.len() > 0 {
        lemma_nonempty_texts(texts.drop_last());
        let rest = spec_nonempty_texts(texts.drop_last());
        let result = spec_nonempty_texts(texts);
        assert forall|j: int| 0 <= j < result.len() implies (#[trigger] result[j]).len() > 0 by {
            if texts.last().len() > 0 && j == rest.len() {
                assert(result[j] == texts.last());
            } else {
                assert(result[j] == rest[j]);
            }
        }
    }
}

/// The statements one batch yields, in write order: truncates first, then
/// one batched INSERT per touched table, then one batched DELETE per
/// touched table; empty statements are dropped, never issued.
pub open spec fn spec_sync_statements(
    ctx: PostgresPipeContext,
    db: Seq<char>,
    cfg_tables: Seq<PostgresSource>,
    parsed: Seq<PgOutput>,
) -> Seq<Seq<char>> {
    let truncates = spec_tables_touched(parsed, ctx, MessageType::Truncate).map_values(
        |pr: (Seq<char>, Seq<char>)| spec_truncate_stmt(db, pr),
    );
    let inserts = spec_tables_touched(parsed, ctx, MessageType::Insert).map_values(
        |pr: (Seq<char>, Seq<char>)| spec_insert_stmt(ctx, db, cfg_tables, parsed, pr),
    );
    let deletes = spec_tables_touched(parsed, ctx, MessageType::Delete).map_values(
        |pr: (Seq<char>, Seq<char>)| spec_delete_stmt(ctx, db, parsed, pr),
    );
    spec_nonempty_texts(truncates) + spec_nonempty_texts(inserts) + spec_nonempty_texts(deletes)
}

/// Every table a batch touches is bound in the context.
pub proof fn lemma_touched_tables_bound(
    parsed: Seq<PgOutput>,
    ctx: PostgresPipeContext,
    kind: MessageType,
)
    ensures
        forall|j: int|
            0 <= j < spec_tables_touched(parsed, ctx, kind).len() ==> spec_tbl_index(
                ctx.tables_map@,
                spec_table_key(
                    (#[trigger] spec_tables_touched(parsed, ctx, kind)[j]).0,
                    spec_tables_touched(parsed, ctx, kind)[j].1,
                ),
            ) != -1,
    decreases parsed.len(),
{
    if parsed.len() > 0 {
        lemma_touched_tables_bound(parsed.drop_last(), ctx, kind);
        let rest = spec_tables_touched(parsed.drop_last(), ctx, kind);
        let result = spec_tables_touched(parsed, ctx, kind);
        assert forall|j: int| 0 <= j < result.len() implies spec_tbl_index(
            ctx.tables_map@,
            spec_table_key((#[trigger] result[j]).0, result[j].1),
        ) != -1 by {
            if j < rest.len() {
                assert(result[j] == rest[j]);
            } else {
                assert(result[j] == result.last());
            }
        }
    }
}

/// Looks up the binding a record belongs to.
fn record_binding(ctx: &PostgresPipeContext, p: &PgOutput) -> (r: Option<(String, String)>)
    ensures
        r matches Some(b) ==> spec_record_binding(*ctx, *p) == Some((b.0@, b.1@)),
        r is None <==> spec_record_binding(*ctx, *p) is None,
{
    match ctx.get_relation(p.relation_id) {
        None => None,
        Some(pair) => {
            let schema = pair.0.clone();
            let table = pair.1.clone();
            let mut key = String::new();
            key.append(schema.as_str());
            key.append(".");
            key.append(table.as_str());
            proof {
                assert(key@ =~= spec_table_key(schema@, table@));
            }
            match ctx.get_table_info(key.as_str()) {
                None => None,
                Some(_) => Some((schema, table)),
            }
        },
    }
}

/// Appending a pair extends the views by the pair's views.
proof fn lemma_pair_views_push(pre: Seq<(String, String)>, x: (String, String))
    ensures
        pair_views(pre.push(x)) == pair_views(pre).push((x.0@, x.1@)),
{
    assert(pair_views(pre.push(x)) =~= pair_views(pre).push((x.0@, x.1@)));
}

/// Tests whether the collected pairs already hold `schema.table`.
fn contains_pair(pairs: &Vec<(String, String)>, schema: &str, table: &str) -> (r: bool)
    ensures
        r == spec_pairs_contain(pair_views(pairs@), schema@, table@),
{
    let mut i: usize = 0;
    while i < pairs.len()
        invariant
            i <= pairs@.len(),
            forall|j: int| 0 <= j < i ==> #[trigger] pair_views(pairs@)[j] != (schema@, table@),
        decreases pairs@.len() - i,
    {
        if strutil::str_eq_str(pairs[i].0.as_str(), schema) && strutil::str_eq_str(
            pairs[i].1.as_str(),
            table,
        ) {
            proof {
                assert(pair_views(pairs@)[i as int] == (schema@, table@));
            }
            return true;
        }
        i = i + 1;
    }
    false
}

/// Collects the bound tables a batch touches with the given kind of record,
/// in first-seen order.
fn collect_tables(parsed: &Vec<PgOutput>, ctx: &PostgresPipeContext, kind: MessageType) -> (r: Vec<
    (String, String),
>)
    ensures
        pair_views(r@) == spec_tables_touched(parsed@, *ctx, kind),
{
    let mut pairs: Vec<(String, String)> = Vec::new();
    let mut i: usize = 0;
    while i < parsed.len()
        invariant
            i <= parsed@.len(),
            pair_views(pairs@) == spec_tables_touched(parsed@.take(i as int), *ctx, kind),
        decreases parsed@.len() - i,
    {
        let p = &parsed[i];
        proof {
            assert(parsed@.take(i + 1int).drop_last() =~= parsed@.take(i as int));
            assert(parsed@.take(i + 1int).last() == parsed@[i as int]);
        }
        let matches_kind = match kind {
            MessageType::Insert => p.message_type == MessageType::Insert || p.message_type
                == MessageType::Update,
            _ => p.message_type == kind,
        };
        if matches_kind {
            match record_binding(ctx, p) {
                Some(b) => {
                    if !contains_pair(&pairs, b.0.as_str(), b.1.as_str()) {
                        let ghost pre = pairs@;
                        pairs.push(b);
                        proof {
                            lemma_pair_views_push(pre, pairs@.last());
                        }
                    }
                },
                None => {},
            }
        }
        i = i + 1;
    }
    proof {
        assert(parsed@.take(parsed@.len() as int) =~= parsed@);
    }
    pairs
}

/// Collects the rows a table receives as INSERTs from a batch.
fn collect_insert_rows(
    parsed: &Vec<PgOutput>,
    ctx: &PostgresPipeContext,
    schema: &str,
    table: &str,
) -> (r: Vec<PostgresCopyRow>)
    ensures
        rows_views_eq(r@, spec_insert_rows_for(parsed@, *ctx, schema@, table@)),
{
    let mut rows: Vec<PostgresCopyRow> = Vec::new();
    let mut i: usize = 0;
    while i < parsed.len()
        invariant
            i <= parsed@.len(),
            rows_views_eq(rows@, spec_insert_rows_for(parsed@.take(i as int), *ctx, schema@, table@)),
        decreases parsed@.len() - i,
    {
        let p = &parsed[i];
        proof {
            assert(parsed@.take(i + 1int).drop_last() =~= parsed@.take(i as int));
            assert(parsed@.take(i + 1int).last() == parsed@[i as int]);
        }
        let is_insert = p.message_type == MessageType::Insert || p.message_type
            == MessageType::Update;
        if is_insert {
            match record_binding(ctx, p) {
                Some(b) => {
                    if strutil::str_eq_str(b.0.as_str(), schema) && strutil::str_eq_str(
                        b.1.as_str(),
                        table,
                    ) {
                        let row = duplicate_payload(p);
                        rows.push(row);
                    }
                },
                None => {},
            }
        }
        i = i + 1;
    }
    proof {
        assert(parsed@.take(parsed@.len() as int) =~= parsed@);
    }
    rows
}

/// Collects the key rows a table receives as DELETEs from a batch.
fn collect_delete_rows(
    parsed: &Vec<PgOutput>,
    ctx: &PostgresPipeContext,
    schema: &str,
    table: &str,
) -> (r: Vec<PostgresCopyRow>)
    ensures
        rows_views_eq(r@, spec_delete_rows_for(parsed@, *ctx, schema@, table@)),
{
    let mut rows: Vec<PostgresCopyRow> = Vec::new();
    let mut i: usize = 0;
    while i < parsed.len()
        invariant
            i <= parsed@.len(),
            rows_views_eq(rows@, spec_delete_rows_for(parsed@.take(i as int), *ctx, schema@, table@)),
        decreases parsed@.len() - i,
    {
        let p = &parsed[i];
        proof {
            assert(parsed@.take(i + 1int).drop_last() =~= parsed@.take(i as int));
            assert(parsed@.take(i + 1int).last() == parsed@[i as int]);
        }
        if p.message_type == MessageType::Delete {
            match record_binding(ctx, p) {
                Some(b) => {
                    if strutil::str_eq_str(b.0.as_str(), schema) && strutil::str_eq_str(
                        b.1.as_str(),
                        table,
                    ) {
                        let row = duplicate_payload(p);
                        rows.push(row);
                    }
                },
                None => {},
            }
        }
        i = i + 1;
    }
    proof {
        assert(parsed@.take(parsed@.len() as int) =~= parsed@);
    }
    rows
}

/// A row carrying the record's tuple, cell images preserved.
fn duplicate_payload(p: &PgOutput) -> (r: PostgresCopyRow)
    ensures
        cells_view(r.columns@) == cells_view(p.payload@),
{
    let mut cells: Vec<crate::pgoutput::PgOutputValue> = Vec::new();
    let mut i: usize = 0;
    while i < p.payload.len()
        invariant
            i <= p.payload@.len(),
            cells@.len() == i,
            forall|j: int| 0 <= j < i ==> (#[trigger] cells@[j])@ == p.payload@[j]@,
        decreases p.payload@.len() - i,
    {
        cells.push(p.payload[i].duplicate());
        i = i + 1;
    }
    proof {
        assert(cells_view(cells@) =~= cells_view(p.payload@));
    }
    PostgresCopyRow { columns: cells }
}

/// One PostgreSQL pipe: its configuration and the bindings built during
/// initialization. The driver around the library owns the connections.
#[derive(Debug)]
pub struct PostgresPipe {
    pub context: PostgresPipeContext,
    pub postgres_config: PostgresConfig,
    pub clickhouse_config: crate::config::ClickHouseConfig,
}

/// Whether the batch, matched record by record against its parses, yields
/// exactly `parsed`: housekeeping messages contribute nothing, decoded
/// records appear in order, and no message is malformed.
pub open spec fn spec_parsed_matches(
    records: Seq<PeekWalChangeResult>,
    parsed: Seq<PgOutput>,
) -> bool
    decreases records.len(),
{
    if records.len() == 0 {
        parsed.len() == 0
    } else {
        match spec_parse_pg_output(records.last().data@) {
            SpecParse::Record(rec) => parsed.len() > 0 && parsed.last()@ == rec
                && spec_parsed_matches(records.drop_last(), parsed.drop_last()),
            SpecParse::Skip => spec_parsed_matches(records.drop_last(), parsed),
            SpecParse::Fail => false,
        }
    }
}

/// Parses every peeked record of a batch: housekeeping messages are
/// dropped, decoded records kept in order. A single malformed message fails
/// the whole batch, which makes the iteration abort and retry.
pub fn parse_wal_batch(records: &Vec<PeekWalChangeResult>) -> (r: Result<Vec<PgOutput>, Errors>)
    ensures
        r matches Ok(parsed) ==> spec_parsed_matches(records@, parsed@),
        r is Err <==> exists|k: int|
            0 <= k < records@.len() && spec_parse_pg_output(
                (#[trigger] records@[k]).data@,
            ) is Fail,
        r matches Err(e) ==> e matches Errors::PgOutputParseError(_),
{
    let mut parsed: Vec<PgOutput> = Vec::new();
    let mut i: usize = 0;
    while i < records.len()
        invariant
            i <= records@.len(),
            spec_parsed_matches(records@.take(i as int), parsed@),
            forall|j: int|
                0 <= j < i ==> !(spec_parse_pg_output((#[trigger] records@[j]).data@) is Fail),
        decreases records@.len() - i,
    {
        let ghost pre = parsed@;
        proof {
            assert(records@.take(i + 1int).drop_last() =~= records@.take(i as int));
            assert(records@.take(i + 1int).last() == records@[i as int]);
        }
        match parse_pg_output(records[i].data.as_slice()) {
            Err(e) => {
                proof {
                    assert(spec_parse_pg_output(records@[i as int].data@) is Fail);
                }
                return Err(e);
            },
            Ok(None) => {},
            Ok(Some(p)) => {
                parsed.push(p);
                proof {
                    assert(parsed@.drop_last() =~= pre);
                }
            },
        }
        i = i + 1;
    }
    proof {
        assert(records@.take(records@.len() as int) =~= records@);
    }
    Ok(parsed)
}

/// What one successful iteration will execute: the statements in write
/// order, and the LSN to advance the slot to once every write succeeded.
#[derive(Debug)]
pub struct SyncPlan {
    pub statements: Vec<String>,
    pub advance_lsn: String,
}

/// The outcome of planning one iteration: sleep on an empty peek, abort and
/// retry on a protocol error, or execute a plan.
#[derive(Debug)]
pub enum SyncIteration {
    SleepEmpty,
    Abort(Errors),
    Write(SyncPlan),
}

impl PostgresPipe {
    /// Builds the statements one parsed batch calls for: truncates first,
    /// then one batched INSERT per touched table (with the table's mask),
    /// then one batched DELETE per touched table; empty statements are
    /// dropped.
    pub fn plan_sync_batch(&self, parsed: &Vec<PgOutput>) -> (r: Vec<String>)
        ensures
            r.deep_view() == spec_sync_statements(
                self.context,
                self.clickhouse_config.connection.database@,
                self.postgres_config.tables@,
                parsed@,
            ),
    {
        let ghost db = self.clickhouse_config.connection.database@;
        let ghost cfg_tables = self.postgres_config.tables@;
        let mut statements: Vec<String> = Vec::new();

        let truncate_tables = collect_tables(parsed, &self.context, MessageType::Truncate);
        let ghost trunc_pairs = spec_tables_touched(parsed@, self.context, MessageType::Truncate);
        let ghost trunc_texts = trunc_pairs.map_values(
            |pr: (Seq<char>, Seq<char>)| spec_truncate_stmt(db, pr),
        );
        let mut t: usize = 0;
        while t < truncate_tables.len()
            invariant
                t <= truncate_tables@.len(),
                pair_views(truncate_tables@) == trunc_pairs,
                trunc_texts == trunc_pairs.map_values(
                    |pr: (Seq<char>, Seq<char>)| spec_truncate_stmt(db, pr),
                ),
                db == self.clickhouse_config.connection.database@,
                statements.deep_view() == spec_nonempty_texts(trunc_texts.take(t as int)),
            decreases truncate_tables@.len() - t,
        {
            let text = queries::generate_truncate_query(
                self.clickhouse_config.connection.database.as_str(),
                truncate_tables[t].1.as_str(),
            );
            proof {
                assert(trunc_texts.take(t + 1int).drop_last() =~= trunc_texts.take(t as int));
                assert(trunc_texts.take(t + 1int).last() == trunc_texts[t as int]);
                assert(trunc_texts[t as int] == spec_truncate_stmt(db, trunc_pairs[t as int]));
                assert(text@ == trunc_texts[t as int]);
            }
            if !text.as_str().is_empty() {
                let ghost pre = statements;
                statements.push(text);
                proof {
                    strutil::lemma_deep_view_push(pre, statements, statements@.last());
                }
            }
            t = t + 1;
        }
        proof {
            assert(trunc_texts.take(trunc_texts.len() as int) =~= trunc_texts);
        }
        let ghost trunc_done = statements.deep_view();

        let insert_tables = collect_tables(parsed, &self.context, MessageType::Insert);
        let ghost ins_pairs = spec_tables_touched(parsed@, self.context, MessageType::Insert);
        let ghost ins_texts = ins_pairs.map_values(
            |pr: (Seq<char>, Seq<char>)| spec_insert_stmt(
                self.context,
                db,
                cfg_tables,
                parsed@,
                pr,
            ),
        );
        proof {
            lemma_touched_tables_bound(parsed@, self.context, MessageType::Insert);
        }
        let mut t: usize = 0;
        while t < insert_tables.len()
            invariant
                t <= insert_tables@.len(),
                pair_views(insert_tables@) == ins_pairs,
                ins_texts == ins_pairs.map_values(
                    |pr: (Seq<char>, Seq<char>)| spec_insert_stmt(
                        self.context,
                        db,
                        cfg_tables,
                        parsed@,
                        pr,
                    ),
                ),
                db == self.clickhouse_config.connection.database@,
                cfg_tables == self.postgres_config.tables@,
                forall|j: int|
                    0 <= j < ins_pairs.len() ==> spec_tbl_index(
                        self.context.tables_map@,
                        spec_table_key((#[trigger] ins_pairs[j]).0, ins_pairs[j].1),
                    ) != -1,
                statements.deep_view() == trunc_done + spec_nonempty_texts(
                    ins_texts.take(t as int),
                ),
            decreases insert_tables@.len() - t,
        {
            let schema = &insert_tables[t].0;
            let table = &insert_tables[t].1;
            let mut key = String::new();
            key.append(schema.as_str());
            key.append(".");
            key.append(table.as_str());
            proof {
                assert(key@ =~= spec_table_key(schema@, table@));
                assert((schema@, table@) == ins_pairs[t as int]);
            }
            let text: String;
            match self.context.get_table_info(key.as_str()) {
                None => {
                    text = vstd::pervasive::unreached();
                },
                Some(info) => {
                    let mask = find_mask_columns(
                        &self.postgres_config.tables,
                        schema.as_str(),
                        table.as_str(),
                    );
                    let rows = collect_insert_rows(
                        parsed,
                        &self.context,
                        schema.as_str(),
                        table.as_str(),
                    );
                    text = queries::generate_insert_query(
                        &self.clickhouse_config,
                        info.clickhouse_columns.as_slice(),
                        info.postgres_columns.as_slice(),
                        &mask,
                        table.as_str(),
                        rows.as_slice(),
                    );
                    proof {
                        queries::lemma_insert_query_row_views(
                            db,
                            info.clickhouse_columns@,
                            info.postgres_columns@,
                            mask@,
                            table@,
                            rows@,
                            spec_insert_rows_for(parsed@, self.context, schema@, table@),
                        );
                        assert(text@ == spec_insert_stmt(
                            self.context,
                            db,
                            cfg_tables,
                            parsed@,
                            ins_pairs[t as int],
                        ));
                    }
                },
            }
            proof {
                assert(ins_texts.take(t + 1int).drop_last() =~= ins_texts.take(t as int));
                assert(ins_texts.take(t + 1int).last() == ins_texts[t as int]);
                assert(text@ == ins_texts[t as int]);
            }
            if !text.as_str().is_empty() {
                let ghost pre = statements;
                statements.push(text);
                proof {
                    strutil::lemma_deep_view_push(pre, statements, statements@.last());
                }
            }
            t = t + 1;
        }
        proof {
            assert(ins_texts.take(ins_texts.len() as int) =~= ins_texts);
        }
        let ghost ins_done = statements.deep_view();

        let delete_tables = collect_tables(parsed, &self.context, MessageType::Delete);
        let ghost del_pairs = spec_tables_touched(parsed@, self.context, MessageType::Delete);
        let ghost del_texts = del_pairs.map_values(
            |pr: (Seq<char>, Seq<char>)| spec_delete_stmt(self.context, db, parsed@, pr),
        );
        proof {
            lemma_touched_tables_bound(parsed@, self.context, MessageType::Delete);
        }
        let mut t: usize = 0;
        while t < delete_tables.len()
            invariant
                t <= delete_tables@.len(),
                pair_views(delete_tables@) == del_pairs,
                del_texts == del_pairs.map_values(
                    |pr: (Seq<char>, Seq<char>)| spec_delete_stmt(self.context, db, parsed@, pr),
                ),
                db == self.clickhouse_config.connection.database@,
                forall|j: int|
                    0 <= j < del_pairs.len() ==> spec_tbl_index(
                        self.context.tables_map@,
                        spec_table_key((#[trigger] del_pairs[j]).0, del_pairs[j].1),
                    ) != -1,
                statements.deep_view() == ins_done + spec_nonempty_texts(del_texts.take(t as int)),
            decreases delete_tables@.len() - t,
        {
            let schema = &delete_tables[t].0;
            let table = &delete_tables[t].1;
            let mut key = String::new();
            key.append(schema.as_str());
            key.append(".");
            key.append(table.as_str());
            proof {
                assert(key@ =~= spec_table_key(schema@, table@));
                assert((schema@, table@) == del_pairs[t as int]);
            }
            let text: String;
            match self.context.get_table_info(key.as_str()) {
                None => {
                    text = vstd::pervasive::unreached();
                },
                Some(info) => {
                    let rows = collect_delete_rows(
                        parsed,
                        &self.context,
                        schema.as_str(),
                        table.as_str(),
                    );
                    text = queries::generate_delete_query(
                        &self.clickhouse_config,
                        info.clickhouse_columns.as_slice(),
                        info.postgres_columns.as_slice(),
                        table.as_str(),
                        rows.as_slice(),
                    );
                    proof {
                        queries::lemma_delete_query_row_views(
                            db,
                            info.clickhouse_columns@,
                            info.postgres_columns@,
                            table@,
                            rows@,
                            spec_delete_rows_for(parsed@, self.context, schema@, table@),
                        );
                        assert(text@ == spec_delete_stmt(
                            self.context,
                            db,
                            parsed@,
                            del_pairs[t as int],
                        ));
                    }
                },
            }
            proof {
                assert(del_texts.take(t + 1int).drop_last() =~= del_texts.take(t as int));
                assert(del_texts.take(t + 1int).last() == del_texts[t as int]);
                assert(text@ == del_texts[t as int]);
            }
            if !text.as_str().is_empty() {
                let ghost pre = statements;
                statements.push(text);
                proof {
                    strutil::lemma_deep_view_push(pre, statements, statements@.last());
                }
            }
            t = t + 1;
        }
        proof {
            assert(del_texts.take(del_texts.len() as int) =~= del_texts);
            assert(statements.deep_view() == spec_nonempty_texts(trunc_texts) + spec_nonempty_texts(
                ins_texts,
            ) + spec_nonempty_texts(del_texts));
        }
        statements
    }

    /// Plans one sync iteration from a peeked batch. An empty peek calls
    /// for the empty-sleep path and advances nothing; a malformed message
    /// aborts the iteration; otherwise the plan holds the statements to
    /// execute and the batch's last LSN, to advance only after every write
    /// succeeded.
    pub fn plan_sync_iteration(&self, records: &Vec<PeekWalChangeResult>) -> (r: SyncIteration)
        ensures
            records@.len() == 0 <==> r is SleepEmpty,
            r is Abort <==> exists|k: int|
                0 <= k < records@.len() && spec_parse_pg_output(
                    (#[trigger] records@[k]).data@,
                ) is Fail,
            r matches SyncIteration::Abort(e) ==> e matches Errors::PgOutputParseError(_),
            r matches SyncIteration::Write(plan) ==> plan.advance_lsn@ == records@.last().lsn@ && (
            forall|j: int|
                0 <= j < plan.statements@.len() ==> (#[trigger] plan.statements@[j])@.len() > 0)
                && (exists|parsed: Seq<PgOutput>|
                spec_parsed_matches(records@, parsed) && #[trigger] spec_sync_statements(
                    self.context,
                    self.clickhouse_config.connection.database@,
                    self.postgres_config.tables@,
                    parsed,
                ) == plan.statements.deep_view()),
    {
        if records.len() == 0 {
            return SyncIteration::SleepEmpty;
        }
        match parse_wal_batch(records) {
            Err(e) => SyncIteration::Abort(e),
            Ok(parsed) => {
                let statements = self.plan_sync_batch(&parsed);
                let advance_lsn = records[records.len() - 1].lsn.clone();
                proof {
                    let ghost db = self.clickhouse_config.connection.database@;
                    let ghost cfg_tables = self.postgres_config.tables@;
                    lemma_nonempty_texts(
                        spec_tables_touched(parsed@, self.context, MessageType::Truncate).map_values(
                            |pr: (Seq<char>, Seq<char>)| spec_truncate_stmt(db, pr),
                        ),
                    );
                    lemma_nonempty_texts(
                        spec_tables_touched(parsed@, self.context, MessageType::Insert).map_values(
                            |pr: (Seq<char>, Seq<char>)| spec_insert_stmt(
                                self.context,
                                db,
                                cfg_tables,
                                parsed@,
                                pr,
                            ),
                        ),
                    );
                    lemma_nonempty_texts(
                        spec_tables_touched(parsed@, self.context, MessageType::Delete).map_values(
                            |pr: (Seq<char>, Seq<char>)| spec_delete_stmt(
                                self.context,
                                db,
                                parsed@,
                                pr,
                            ),
                        ),
                    );
                    assert(spec_parsed_matches(records@, parsed@) && spec_sync_statements(
                        self.context,
                        self.clickhouse_config.connection.database@,
                        self.postgres_config.tables@,
                        parsed@,
                    ) == statements.deep_view());
                    let truncates = spec_nonempty_texts(
                        spec_tables_touched(parsed@, self.context, MessageType::Truncate).map_values(
                            |pr: (Seq<char>, Seq<char>)| spec_truncate_stmt(db, pr),
                        ),
                    );
                    let inserts = spec_nonempty_texts(
                        spec_tables_touched(parsed@, self.context, MessageType::Insert).map_values(
                            |pr: (Seq<char>, Seq<char>)| spec_insert_stmt(
                                self.context,
                                db,
                                cfg_tables,
                                parsed@,
                                pr,
                            ),
                        ),
                    );
                    let deletes = spec_nonempty_texts(
                        spec_tables_touched(parsed@, self.context, MessageType::Delete).map_values(
                            |pr: (Seq<char>, Seq<char>)| spec_delete_stmt(
                                self.context,
                                db,
                                parsed@,
                                pr,
                            ),
                        ),
                    );
                    assert(statements.deep_view() == truncates + inserts + deletes);
                    assert forall|j: int| 0 <= j < statements@.len() implies (
                    #[trigger] statements@[j])@.len() > 0 by {
                        assert(statements.deep_view()[j] == statements@[j]@);
                        if j < truncates.len() {
                            assert(statements.deep_view()[j] == truncates[j]);
                        } else if j < truncates.len() + inserts.len() {
                            assert(statements.deep_view()[j] == inserts[j - truncates.len()]);
                        } else {
                            assert(statements.deep_view()[j] == deletes[j - truncates.len()
                                - inserts.len()]);
                        }
                    }
                }
                SyncIteration::Write(SyncPlan { statements, advance_lsn })
            },
        }
    }
}

/// The index of the destination column with the given name, or -1.
pub open spec fn spec_chcol_index(cols: Seq<ClickhouseColumn>, name: Seq<char>) -> int
    decreases cols.len(),
{
    if cols.len() == 0 {
        -1
    } else if cols[0].column_name@ == name {
        0
    } else {
        let r = spec_chcol_index(cols.skip(1), name);
        if r == -1 {
            -1
        } else {
            r + 1
        }
    }
}

/// What `spec_chcol_index` returns: no column matches, or the first match.
pub proof fn lemma_spec_chcol_index(cols: Seq<ClickhouseColumn>, name: Seq<char>)
    ensures
        spec_chcol_index(cols, name) == -1 ==> forall|i: int|
            0 <= i < cols.len() ==> (#[trigger] cols[i]).column_name@ != name,
        spec_chcol_index(cols, name) != -1 ==> 0 <= spec_chcol_index(cols, name) < cols.len()
            && cols[spec_chcol_index(cols, name)].column_name@ == name,
    decreases cols.len(),
{
    if cols.len() > 0 && cols[0].column_name@ != name {
        lemma_spec_chcol_index(cols.skip(1), name);
        let r = spec_chcol_index(cols.skip(1), name);
        if r == -1 {
            assert forall|i: int| 0 <= i < cols.len() implies (#[trigger] cols[i]).column_name@
                != name by {
                if i > 0 {
                    assert(cols.skip(1)[i - 1] == cols[i]);
                }
            }
        } else {
            assert(cols.skip(1)[r] == cols[r + 1]);
        }
    }
}

/// Tests whether the destination already has a column with the name.
pub fn ch_has_column(cols: &Vec<ClickhouseColumn>, name: &str) -> (r: bool)
    ensures
        r == (spec_chcol_index(cols@, name@) != -1),
{
    proof {
        lemma_spec_chcol_index(cols@, name@);
    }
    let mut i: usize = 0;
    while i < cols.len()
        invariant
            i <= cols@.len(),
            forall|j: int| 0 <= j < i ==> (#[trigger] cols@[j]).column_name@ != name@,
            spec_chcol_index(cols@, name@) != -1 ==> 0 <= spec_chcol_index(cols@, name@)
                < cols@.len() && cols@[spec_chcol_index(cols@, name@)].column_name@ == name@,
            spec_chcol_index(cols@, name@) == -1 ==> forall|j: int|
                0 <= j < cols@.len() ==> (#[trigger] cols@[j]).column_name@ != name@,
        decreases cols@.len() - i,
    {
        if strutil::str_eq_str(cols[i].column_name.as_str(), name) {
            return true;
        }
        i = i + 1;
    }
    false
}

/// The source columns the destination lacks, in source order.
pub open spec fn spec_missing_columns(
    pg: Seq<PostgresColumn>,
    ch: Seq<ClickhouseColumn>,
) -> Seq<PostgresColumn>
    decreases pg.len(),
{
    if pg.len() == 0 {
        Seq::empty()
    } else {
        let rest = spec_missing_columns(pg.drop_last(), ch);
        if spec_chcol_index(ch, pg.last().column_name@) == -1 {
            rest.push(pg.last())
        } else {
            rest
        }
    }
}

/// The DDL one table needs: a CREATE TABLE when the destination does not
/// exist (its column list is empty), otherwise one ADD COLUMN per source
/// column the destination lacks. Columns are never removed, types never
/// changed.
pub fn plan_table_setup(
    clickhouse_config: &crate::config::ClickHouseConfig,
    table_name: &str,
    postgres_columns: &Vec<PostgresColumn>,
    clickhouse_columns: &Vec<ClickhouseColumn>,
) -> (r: Vec<String>)
    ensures
        clickhouse_columns@.len() == 0 ==> r.deep_view() == seq![
            queries::spec_create_table_query(
                clickhouse_config.connection.database@,
                table_name@,
                postgres_columns@,
                8192,
                60,
                None,
                ""@,
            ),
        ],
        clickhouse_columns@.len() > 0 ==> r.deep_view() == spec_missing_columns(
            postgres_columns@,
            clickhouse_columns@,
        ).map_values(
            |c: PostgresColumn| queries::spec_add_column_query(
                clickhouse_config.connection.database@,
                table_name@,
                c,
            ),
        ),
{
    let mut r: Vec<String> = Vec::new();
    if clickhouse_columns.len() == 0 {
        let options = crate::config::ClickHouseTableOptions {
            granularity: None,
            storage_policy: None,
        };
        let create = queries::generate_create_table_query(
            clickhouse_config,
            &options,
            table_name,
            postgres_columns.as_slice(),
            "",
        );
        let ghost pre = r;
        r.push(create);
        proof {
            strutil::lemma_deep_view_push(pre, r, r@.last());
            assert(r.deep_view() =~= seq![
                queries::spec_create_table_query(
                    clickhouse_config.connection.database@,
                    table_name@,
                    postgres_columns@,
                    8192u64,
                    60u64,
                    None::<Seq<char>>,
                    ""@,
                ),
            ]);
        }
        return r;
    }
    let mut i: usize = 0;
    while i < postgres_columns.len()
        invariant
            i <= postgres_columns@.len(),
            r.deep_view() == spec_missing_columns(
                postgres_columns@.take(i as int),
                clickhouse_columns@,
            ).map_values(
                |c: PostgresColumn| queries::spec_add_column_query(
                    clickhouse_config.connection.database@,
                    table_name@,
                    c,
                ),
            ),
        decreases postgres_columns@.len() - i,
    {
        let col = &postgres_columns[i];
        proof {
            assert(postgres_columns@.take(i + 1int).drop_last() =~= postgres_columns@.take(
                i as int,
            ));
            assert(postgres_columns@.take(i + 1int).last() == postgres_columns@[i as int]);
        }
        if !ch_has_column(clickhouse_columns, col.column_name.as_str()) {
            let add = queries::generate_add_column_query(clickhouse_config, table_name, col);
            let ghost pre = r;
            r.push(add);
            proof {
                strutil::lemma_deep_view_push(pre, r, r@.last());
                assert(r.deep_view() =~= spec_missing_columns(
                    postgres_columns@.take(i + 1int),
                    clickhouse_columns@,
                ).map_values(
                    |c: PostgresColumn| queries::spec_add_column_query(
                        clickhouse_config.connection.database@,
                        table_name@,
                        c,
                    ),
                ));
            }
        }
        i = i + 1;
    }
    proof {
        assert(postgres_columns@.take(postgres_columns@.len() as int) =~= postgres_columns@);
    }
    r
}

/// The `schema.table` names of the configured sources.
pub open spec fn spec_source_table_keys(tables: Seq<PostgresSource>) -> Seq<Seq<char>> {
    tables.map_values(|t: PostgresSource| spec_table_key(t.schema_name@, t.table_name@))
}

/// Whether a publication already carries `schema.table`.
pub open spec fn spec_pub_has_table(
    tables: Seq<crate::postgres::PublicationTable>,
    schema: Seq<char>,
    table: Seq<char>,
) -> bool {
    exists|i: int|
        0 <= i < tables.len() && (#[trigger] tables[i]).schema_name@ == schema
            && tables[i].table_name@ == table
}

/// The configured tables a publication still lacks, as `schema.table`
/// names, in configuration order.
pub open spec fn spec_missing_pub_tables(
    cfg: Seq<PostgresSource>,
    existing: Seq<crate::postgres::PublicationTable>,
) -> Seq<Seq<char>>
    decreases cfg.len(),
{
    if cfg.len() == 0 {
        Seq::empty()
    } else {
        let rest = spec_missing_pub_tables(cfg.drop_last(), existing);
        if !spec_pub_has_table(existing, cfg.last().schema_name@, cfg.last().table_name@) {
            rest.push(spec_table_key(cfg.last().schema_name@, cfg.last().table_name@))
        } else {
            rest
        }
    }
}

/// Decides publication creation: nothing when it already exists; otherwise
/// it must be created over every configured table, and a configuration
/// without tables is rejected.
pub fn plan_publication_create(postgres_config: &PostgresConfig, publication_exists: bool) -> (r:
    Result<Option<Vec<String>>, Errors>)
    ensures
        publication_exists ==> r matches Ok(None::<Vec<String>>),
        !publication_exists && postgres_config.tables@.len() == 0 ==> r matches Err(
            Errors::PublicationCreateFailed(_),
        ),
        !publication_exists && postgres_config.tables@.len() > 0 ==> (r matches Ok(Some(list))
            && list.deep_view() == spec_source_table_keys(postgres_config.tables@)),
{
    if publication_exists {
        return Ok(None);
    }
    if postgres_config.tables.len() == 0 {
        return Err(
            Errors::PublicationCreateFailed(
                String::from_str("No source tables specified in Postgres configuration"),
            ),
        );
    }
    let mut list: Vec<String> = Vec::new();
    let mut i: usize = 0;
    while i < postgres_config.tables.len()
        invariant
            i <= postgres_config.tables@.len(),
            list.deep_view() == spec_source_table_keys(postgres_config.tables@.take(i as int)),
        decreases postgres_config.tables@.len() - i,
    {
        let t = &postgres_config.tables[i];
        let mut key = String::new();
        key.append(t.schema_name.as_str());
        key.append(".");
        key.append(t.table_name.as_str());
        proof {
            assert(key@ =~= spec_table_key(t.schema_name@, t.table_name@));
        }
        let ghost pre = list;
        list.push(key);
        proof {
            strutil::lemma_deep_view_push(pre, list, list@.last());
            assert(list.deep_view() =~= spec_source_table_keys(
                postgres_config.tables@.take(i + 1int),
            ));
        }
        i = i + 1;
    }
    proof {
        assert(postgres_config.tables@.take(postgres_config.tables@.len() as int)
            =~= postgres_config.tables@);
    }
    Ok(Some(list))
}

/// Tests whether the publication already carries `schema.table`.
fn pub_has_table(
    tables: &Vec<crate::postgres::PublicationTable>,
    schema: &str,
    table: &str,
) -> (r: bool)
    ensures
        r == spec_pub_has_table(tables@, schema@, table@),
{
    let mut i: usize = 0;
    while i < tables.len()
        invariant
            i <= tables@.len(),
            forall|j: int| 0 <= j < i ==> !((#[trigger] tables@[j]).schema_name@ == schema@
                && tables@[j].table_name@ == table@),
        decreases tables@.len() - i,
    {
        if strutil::str_eq_str(tables[i].schema_name.as_str(), schema) && strutil::str_eq_str(
            tables[i].table_name.as_str(),
            table,
        ) {
            return true;
        }
        i = i + 1;
    }
    false
}

/// Lists the configured tables the publication still lacks, to be added to
/// it one by one.
pub fn plan_publication_additions(
    postgres_config: &PostgresConfig,
    publication_tables: &Vec<crate::postgres::PublicationTable>,
) -> (r: Vec<String>)
    ensures
        r.deep_view() == spec_missing_pub_tables(postgres_config.tables@, publication_tables@),
{
    let mut r: Vec<String> = Vec::new();
    let mut i: usize = 0;
    while i < postgres_config.tables.len()
        invariant
            i <= postgres_config.tables@.len(),
            r.deep_view() == spec_missing_pub_tables(
                postgres_config.tables@.take(i as int),
                publication_tables@,
            ),
        decreases postgres_config.tables@.len() - i,
    {
        let t = &postgres_config.tables[i];
        proof {
            assert(postgres_config.tables@.take(i + 1int).drop_last()
                =~= postgres_config.tables@.take(i as int));
            assert(postgres_config.tables@.take(i + 1int).last() == postgres_config.tables@[
                i as int
            ]);
        }
        if !pub_has_table(publication_tables, t.schema_name.as_str(), t.table_name.as_str()) {
            let mut key = String::new();
            key.append(t.schema_name.as_str());
            key.append(".");
            key.append(t.table_name.as_str());
            proof {
                assert(key@ =~= spec_table_key(t.schema_name@, t.table_name@));
            }
            let ghost pre = r;
            r.push(key);
            proof {
                strutil::lemma_deep_view_push(pre, r, r@.last());
            }
        }
        i = i + 1;
    }
    proof {
        assert(postgres_config.tables@.take(postgres_config.tables@.len() as int)
            =~= postgres_config.tables@);
    }
    r
}

/// The rows cut into batches of at most 100,000, in order.
pub open spec fn spec_chunks<T>(rows: Seq<T>) -> Seq<Seq<T>>
    decreases rows.len(),
{
    if rows.len() == 0 {
        Seq::empty()
    } else if rows.len() <= 100000 {
        seq![rows]
    } else {
        seq![rows.take(100000)] + spec_chunks(rows.skip(100000))
    }
}

/// Chunking loses nothing and invents nothing: the batches, concatenated,
/// are exactly the rows. Every copied row therefore stands in exactly one
/// INSERT statement of the bulk copy.
pub proof fn lemma_chunks_cover<T>(rows: Seq<T>)
    ensures
        spec_chunks(rows).flatten() == rows,
    decreases rows.len(),
{
    if rows.len() == 0 {
        assert(spec_chunks(rows).flatten() =~= rows);
    } else if rows.len() <= 100000 {
        assert(seq![rows].flatten() =~= rows) by {
            assert(seq![rows].drop_first() =~= Seq::<Seq<T>>::empty());
            assert(Seq::<Seq<T>>::empty().flatten() =~= Seq::<T>::empty());
        }
    } else {
        lemma_chunks_cover(rows.skip(100000));
        let chunks = spec_chunks(rows);
        assert(chunks.drop_first() =~= spec_chunks(rows.skip(100000)));
        assert(chunks.first() == rows.take(100000));
        assert(chunks.flatten() == chunks.first() + chunks.drop_first().flatten());
        assert(rows.take(100000) + rows.skip(100000) =~= rows);
    }
}

/// Every copied row stands in one of the batches, and so in one of the
/// bulk copy's INSERT statements.
pub proof fn lemma_copied_row_in_a_chunk<T>(rows: Seq<T>, k: int)
    requires
        0 <= k < rows.len(),
    ensures
        exists|j: int|
            0 <= j < spec_chunks(rows).len() && (#[trigger] spec_chunks(rows)[j]).contains(
                rows[k],
            ),
    decreases rows.len(),
{
    let chunks = spec_chunks(rows);
    if rows.len() <= 100000 {
        assert(chunks[0].contains(rows[k])) by {
            assert(chunks[0][k] == rows[k]);
        }
    } else if k < 100000 {
        assert(chunks[0].contains(rows[k])) by {
            assert(chunks[0][k] == rows[k]);
        }
    } else {
        lemma_copied_row_in_a_chunk(rows.skip(100000), k - 100000);
        let rest = spec_chunks(rows.skip(100000));
        let j = choose|j: int|
            0 <= j < rest.len() && (#[trigger] rest[j]).contains(rows.skip(100000)[k - 100000]);
        assert(rows.skip(100000)[k - 100000] == rows[k]);
        assert(chunks[j + 1] == rest[j]);
    }
}

/// The INSERT statements of one table's bulk copy: nothing when the copy is
/// skipped or the destination already holds rows, otherwise one statement
/// per chunk of 100,000 rows, the table's mask applied.
pub fn plan_first_sync_table(
    clickhouse_config: &crate::config::ClickHouseConfig,
    skip_copy: bool,
    destination_not_empty: bool,
    info: &PostgresPipeTableInfo,
    mask_columns: &Vec<String>,
    table_name: &str,
    rows: &Vec<PostgresCopyRow>,
) -> (r: Vec<String>)
    ensures
        skip_copy || destination_not_empty ==> r@.len() == 0,
        !(skip_copy || destination_not_empty) ==> r.deep_view() == spec_chunks(rows@).map_values(
            |chunk: Seq<PostgresCopyRow>| queries::spec_insert_query(
                clickhouse_config.connection.database@,
                info.clickhouse_columns@,
                info.postgres_columns@,
                mask_columns@,
                table_name@,
                chunk,
            ),
        ),
{
    let mut r: Vec<String> = Vec::new();
    if skip_copy || destination_not_empty {
        return r;
    }
    let ghost to_text = |chunk: Seq<PostgresCopyRow>| queries::spec_insert_query(
        clickhouse_config.connection.database@,
        info.clickhouse_columns@,
        info.postgres_columns@,
        mask_columns@,
        table_name@,
        chunk,
    );
    let ghost mut done: Seq<Seq<PostgresCopyRow>> = Seq::empty();
    let mut i: usize = 0;
    proof {
        assert(rows@.skip(0) =~= rows@);
        assert(done + spec_chunks(rows@) =~= spec_chunks(rows@));
        assert(done.map_values(to_text) =~= r.deep_view());
    }
    while i < rows.len()
        invariant
            i <= rows@.len(),
            spec_chunks(rows@) == done + spec_chunks(rows@.skip(i as int)),
            r.deep_view() == done.map_values(to_text),
            to_text == (|chunk: Seq<PostgresCopyRow>| queries::spec_insert_query(
                clickhouse_config.connection.database@,
                info.clickhouse_columns@,
                info.postgres_columns@,
                mask_columns@,
                table_name@,
                chunk,
            )),
        decreases rows@.len() - i,
    {
        let end: usize = if rows.len() - i > 100000 {
            i + 100000
        } else {
            rows.len()
        };
        let chunk = vstd::slice::slice_subrange(rows.as_slice(), i, end);
        let text = queries::generate_insert_query(
            clickhouse_config,
            info.clickhouse_columns.as_slice(),
            info.postgres_columns.as_slice(),
            mask_columns,
            table_name,
            chunk,
        );
        let ghost tail = rows@.skip(i as int);
        proof {
            if tail.len() > 100000 {
                assert(chunk@ =~= tail.take(100000));
                assert(tail.skip(100000) =~= rows@.skip(end as int));
                assert(spec_chunks(tail) == seq![chunk@] + spec_chunks(rows@.skip(end as int)));
            } else {
                assert(chunk@ =~= tail);
                assert(rows@.skip(end as int) =~= Seq::<PostgresCopyRow>::empty());
                assert(spec_chunks(tail) == seq![chunk@]);
            }
            assert(done + spec_chunks(tail) =~= done.push(chunk@) + spec_chunks(
                rows@.skip(end as int),
            ));
        }
        let ghost pre = r;
        let ghost chunk_view = chunk@;
        r.push(text);
        proof {
            done = done.push(chunk_view);
            strutil::lemma_deep_view_push(pre, r, r@.last());
            assert(r.deep_view() =~= done.map_values(to_text));
        }
        i = end;
    }
    proof {
        assert(rows@.skip(rows@.len() as int) =~= Seq::<PostgresCopyRow>::empty());
        assert(done + spec_chunks(rows@.skip(rows@.len() as int)) =~= done);
    }
    r
}

/// The cursor after one iteration: the batch's last LSN when every write
/// succeeded, the old cursor otherwise.
pub open spec fn spec_cursor_after_iteration(
    cursor_before: Seq<char>,
    batch_lsn: Seq<char>,
    all_writes_succeeded: bool,
) -> Seq<char> {
    if all_writes_succeeded {
        batch_lsn
    } else {
        cursor_before
    }
}

/// Decides the cursor after one iteration: the slot is advanced to the
/// batch's last LSN only when every write of the batch succeeded.
pub fn cursor_after_iteration(
    cursor_before: String,
    batch_lsn: &str,
    all_writes_succeeded: bool,
) -> (r: String)
    ensures
        r@ == spec_cursor_after_iteration(cursor_before@, batch_lsn@, all_writes_succeeded),
{
    if all_writes_succeeded {
        String::from_str(batch_lsn)
    } else {
        cursor_before
    }
}

/// When any write of an iteration fails, the cursor is unchanged, so the
/// next iteration replays the very same records.
pub proof fn lemma_failed_write_keeps_cursor(cursor_before: Seq<char>, batch_lsn: Seq<char>)
    ensures
        spec_cursor_after_iteration(cursor_before, batch_lsn, false) == cursor_before,
{
}

/// Every accepted Insert or Update lands its row in the INSERT batch of the
/// table it belongs to.
pub proof fn lemma_accepted_insert_in_batch(
    parsed: Seq<PgOutput>,
    ctx: PostgresPipeContext,
    k: int,
    schema: Seq<char>,
    table: Seq<char>,
)
    requires
        0 <= k < parsed.len(),
        spec_is_insert(parsed[k]),
        spec_record_binding(ctx, parsed[k]) == Some((schema, table)),
    ensures
        spec_insert_rows_for(parsed, ctx, schema, table).contains(
            PostgresCopyRow { columns: parsed[k].payload },
        ),
    decreases parsed.len(),
{
    let rows = spec_insert_rows_for(parsed, ctx, schema, table);
    let row = PostgresCopyRow { columns: parsed[k].payload };
    if k == parsed.len() - 1 {
        assert(rows.last() == row);
        assert(rows[rows.len() - 1] == row);
    } else {
        assert(parsed.drop_last()[k] == parsed[k]);
        lemma_accepted_insert_in_batch(parsed.drop_last(), ctx, k, schema, table);
        let rest = spec_insert_rows_for(parsed.drop_last(), ctx, schema, table);
        let i = choose|i: int| 0 <= i < rest.len() && rest[i] == row;
        assert(rows[i] == row);
    }
}

/// Every accepted Delete lands its key row in the DELETE batch of the table
/// it belongs to.
pub proof fn lemma_accepted_delete_in_batch(
    parsed: Seq<PgOutput>,
    ctx: PostgresPipeContext,
    k: int,
    schema: Seq<char>,
    table: Seq<char>,
)
    requires
        0 <= k < parsed.len(),
        parsed[k].message_type == MessageType::Delete,
        spec_record_binding(ctx, parsed[k]) == Some((schema, table)),
    ensures
        spec_delete_rows_for(parsed, ctx, schema, table).contains(
            PostgresCopyRow { columns: parsed[k].payload },
        ),
    decreases parsed.len(),
{
    let rows = spec_delete_rows_for(parsed, ctx, schema, table);
    let row = PostgresCopyRow { columns: parsed[k].payload };
    if k == parsed.len() - 1 {
        assert(rows.last() == row);
        assert(rows[rows.len() - 1] == row);
    } else {
        assert(parsed.drop_last()[k] == parsed[k]);
        lemma_accepted_delete_in_batch(parsed.drop_last(), ctx, k, schema, table);
        let rest = spec_delete_rows_for(parsed.drop_last(), ctx, schema, table);
        let i = choose|i: int| 0 <= i < rest.len() && rest[i] == row;
        assert(rows[i] == row);
    }
}

/// Every accepted change puts its table among the touched tables of its
/// kind, so the plan carries a statement for it.
pub proof fn lemma_accepted_change_touches_table(
    parsed: Seq<PgOutput>,
    ctx: PostgresPipeContext,
    k: int,
    kind: MessageType,
    schema: Seq<char>,
    table: Seq<char>,
)
    requires
        0 <= k < parsed.len(),
        if kind == MessageType::Insert {
            spec_is_insert(parsed[k])
        } else {
            parsed[k].message_type == kind
        },
        spec_record_binding(ctx, parsed[k]) == Some((schema, table)),
    ensures
        spec_pairs_contain(spec_tables_touched(parsed, ctx, kind), schema, table),
    decreases parsed.len(),
{
    let touched = spec_tables_touched(parsed, ctx, kind);
    if k == parsed.len() - 1 {
        let rest = spec_tables_touched(parsed.drop_last(), ctx, kind);
        if spec_pairs_contain(rest, schema, table) {
            let i = choose|i: int| 0 <= i < rest.len() && #[trigger] rest[i] == (schema, table);
            assert(touched[i] == (schema, table));
        } else {
            assert(touched.last() == (schema, table));
            assert(touched[touched.len() - 1] == (schema, table));
        }
    } else {
        assert(parsed.drop_last()[k] == parsed[k]);
        lemma_accepted_change_touches_table(parsed.drop_last(), ctx, k, kind, schema, table);
        let rest = spec_tables_touched(parsed.drop_last(), ctx, kind);
        let i = choose|i: int| 0 <= i < rest.len() && #[trigger] rest[i] == (schema, table);
        assert(touched[i] == (schema, table));
    }
}

/// A nonempty text survives the filter.
proof fn lemma_nonempty_texts_keeps(texts: Seq<Seq<char>>, i: int)
    requires
        0 <= i < texts.len(),
        texts[i].len() > 0,
    ensures
        spec_nonempty_texts(texts).contains(texts[i]),
    decreases texts.len(),
{
    let result = spec_nonempty_texts(texts);
    if i == texts.len() - 1 {
        assert(result.last() == texts[i]);
        assert(result[result.len() - 1] == texts[i]);
    } else {
        assert(texts.drop_last()[i] == texts[i]);
        lemma_nonempty_texts_keeps(texts.drop_last(), i);
        let rest = spec_nonempty_texts(texts.drop_last());
        let j = choose|j: int| 0 <= j < rest.len() && rest[j] == texts[i];
        assert(result[j] == texts[i]);
    }
}

/// Every accepted Insert or Update is written: the plan holds the batched
/// INSERT statement of the table the change belongs to, and that batch
/// holds the change's row. After the statements run and the slot advances,
/// the row stands in the destination, deduplicated by the merge engine.
pub proof fn lemma_accepted_insert_statement_planned(
    ctx: PostgresPipeContext,
    db: Seq<char>,
    cfg_tables: Seq<PostgresSource>,
    parsed: Seq<PgOutput>,
    k: int,
    schema: Seq<char>,
    table: Seq<char>,
)
    requires
        0 <= k < parsed.len(),
        spec_is_insert(parsed[k]),
        spec_record_binding(ctx, parsed[k]) == Some((schema, table)),
    ensures
        spec_sync_statements(ctx, db, cfg_tables, parsed).contains(
            spec_insert_stmt(ctx, db, cfg_tables, parsed, (schema, table)),
        ),
        spec_insert_rows_for(parsed, ctx, schema, table).contains(
            PostgresCopyRow { columns: parsed[k].payload },
        ),
{
    lemma_accepted_insert_in_batch(parsed, ctx, k, schema, table);
    lemma_accepted_change_touches_table(parsed, ctx, k, MessageType::Insert, schema, table);
    let touched = spec_tables_touched(parsed, ctx, MessageType::Insert);
    let texts = touched.map_values(
        |pr: (Seq<char>, Seq<char>)| spec_insert_stmt(ctx, db, cfg_tables, parsed, pr),
    );
    let i = choose|i: int| 0 <= i < touched.len() && #[trigger] touched[i] == (schema, table);
    let stmt = spec_insert_stmt(ctx, db, cfg_tables, parsed, (schema, table));
    assert(texts[i] == stmt);
    let rows = spec_insert_rows_for(parsed, ctx, schema, table);
    assert(rows.len() > 0) by {
        let w = choose|w: int|
            0 <= w < rows.len() && rows[w] == PostgresCopyRow { columns: parsed[k].payload };
    }
    let info = spec_info_for(ctx, schema, table);
    queries::lemma_insert_query_nonempty(
        db,
        info.clickhouse_columns@,
        info.postgres_columns@,
        spec_mask_for(cfg_tables, schema, table),
        table,
        rows,
    );
    lemma_nonempty_texts_keeps(texts, i);
    let filtered = spec_nonempty_texts(texts);
    let j = choose|j: int| 0 <= j < filtered.len() && filtered[j] == stmt;
    let statements = spec_sync_statements(ctx, db, cfg_tables, parsed);
    let truncates = spec_nonempty_texts(
        spec_tables_touched(parsed, ctx, MessageType::Truncate).map_values(
            |pr: (Seq<char>, Seq<char>)| spec_truncate_stmt(db, pr),
        ),
    );
    assert(statements[truncates.len() + j] == stmt);
}

/// Every accepted Delete is written: the plan holds the batched DELETE
/// statement of the table the change belongs to, and that batch holds the
/// change's key row, provided the destination has a primary key to delete
/// by.
pub proof fn lemma_accepted_delete_statement_planned(
    ctx: PostgresPipeContext,
    db: Seq<char>,
    cfg_tables: Seq<PostgresSource>,
    parsed: Seq<PgOutput>,
    k: int,
    schema: Seq<char>,
    table: Seq<char>,
)
    requires
        0 <= k < parsed.len(),
        parsed[k].message_type == MessageType::Delete,
        spec_record_binding(ctx, parsed[k]) == Some((schema, table)),
        queries::spec_pk_cols(spec_info_for(ctx, schema, table).clickhouse_columns@).len() > 0,
    ensures
        spec_sync_statements(ctx, db, cfg_tables, parsed).contains(
            spec_delete_stmt(ctx, db, parsed, (schema, table)),
        ),
        spec_delete_rows_for(parsed, ctx, schema, table).contains(
            PostgresCopyRow { columns: parsed[k].payload },
        ),
{
    lemma_accepted_delete_in_batch(parsed, ctx, k, schema, table);
    lemma_accepted_change_touches_table(parsed, ctx, k, MessageType::Delete, schema, table);
    let touched = spec_tables_touched(parsed, ctx, MessageType::Delete);
    let texts = touched.map_values(
        |pr: (Seq<char>, Seq<char>)| spec_delete_stmt(ctx, db, parsed, pr),
    );
    let i = choose|i: int| 0 <= i < touched.len() && #[trigger] touched[i] == (schema, table);
    let stmt = spec_delete_stmt(ctx, db, parsed, (schema, table));
    assert(texts[i] == stmt);
    let rows = spec_delete_rows_for(parsed, ctx, schema, table);
    assert(rows.len() > 0) by {
        let w = choose|w: int|
            0 <= w < rows.len() && rows[w] == PostgresCopyRow { columns: parsed[k].payload };
    }
    let info = spec_info_for(ctx, schema, table);
    lemma_delete_query_nonempty(db, info.clickhouse_columns@, info.postgres_columns@, table, rows);
    lemma_nonempty_texts_keeps(texts, i);
    let filtered = spec_nonempty_texts(texts);
    let j = choose|j: int| 0 <= j < filtered.len() && filtered[j] == stmt;
    let statements = spec_sync_statements(ctx, db, cfg_tables, parsed);
    let truncates = spec_nonempty_texts(
        spec_tables_touched(parsed, ctx, MessageType::Truncate).map_values(
            |pr: (Seq<char>, Seq<char>)| spec_truncate_stmt(db, pr),
        ),
    );
    let inserts = spec_nonempty_texts(
        spec_tables_touched(parsed, ctx, MessageType::Insert).map_values(
            |pr: (Seq<char>, Seq<char>)| spec_insert_stmt(ctx, db, cfg_tables, parsed, pr),
        ),
    );
    assert(statements[truncates.len() + inserts.len() + j] == stmt);
}

/// The DELETE statement for at least one row over at least one primary-key
/// column is never the empty string.
proof fn lemma_delete_query_nonempty(
    db: Seq<char>,
    ch_cols: Seq<ClickhouseColumn>,
    pg_cols: Seq<PostgresColumn>,
    table: Seq<char>,
    rows: Seq<PostgresCopyRow>,
)
    requires
        rows.len() > 0,
        queries::spec_pk_cols(ch_cols).len() > 0,
    ensures
        queries::spec_delete_query(db, ch_cols, pg_cols, table, rows).len() > 0,
{
    reveal_strlit("ALTER TABLE ");
    broadcast use vstd::string::group_string_axioms;

    assert("ALTER TABLE "@.len() == 12);
}

/// Two parses of the same records carry the same record images, position by
/// position.
pub proof fn lemma_parsed_matches_unique(
    records: Seq<PeekWalChangeResult>,
    p1: Seq<PgOutput>,
    p2: Seq<PgOutput>,
)
    requires
        spec_parsed_matches(records, p1),
        spec_parsed_matches(records, p2),
    ensures
        p1.len() == p2.len(),
        forall|k: int| 0 <= k < p1.len() ==> (#[trigger] p1[k])@ == p2[k]@,
    decreases records.len(),
{
    if records.len() == 0 {
    } else {
        match spec_parse_pg_output(records.last().data@) {
            SpecParse::Record(rec) => {
                lemma_parsed_matches_unique(records.drop_last(), p1.drop_last(), p2.drop_last());
                assert forall|k: int| 0 <= k < p1.len() implies (#[trigger] p1[k])@ == p2[k]@ by {
                    if k < p1.len() - 1 {
                        assert(p1.drop_last()[k] == p1[k]);
                        assert(p2.drop_last()[k] == p2[k]);
                    }
                }
            },
            SpecParse::Skip => {
                lemma_parsed_matches_unique(records.drop_last(), p1, p2);
            },
            SpecParse::Fail => {},
        }
    }
}

/// Whether two parsed batches carry the same record images.
pub open spec fn parsed_views_eq(p1: Seq<PgOutput>, p2: Seq<PgOutput>) -> bool {
    p1.len() == p2.len() && forall|k: int| 0 <= k < p1.len() ==> (#[trigger] p1[k])@ == p2[k]@
}

/// The tables a batch touches depend only on the records' images.
proof fn lemma_tables_touched_by_views(
    p1: Seq<PgOutput>,
    p2: Seq<PgOutput>,
    ctx: PostgresPipeContext,
    kind: MessageType,
)
    requires
        parsed_views_eq(p1, p2),
    ensures
        spec_tables_touched(p1, ctx, kind) == spec_tables_touched(p2, ctx, kind),
    decreases p1.len(),
{
    if p1.len() > 0 {
        assert(parsed_views_eq(p1.drop_last(), p2.drop_last())) by {
            assert forall|k: int| 0 <= k < p1.len() - 1 implies (#[trigger] p1.drop_last()[k])@
                == p2.drop_last()[k]@ by {
                assert(p1.drop_last()[k] == p1[k]);
                assert(p2.drop_last()[k] == p2[k]);
            }
        }
        lemma_tables_touched_by_views(p1.drop_last(), p2.drop_last(), ctx, kind);
        assert(p1.last()@ == p2.last()@);
    }
}

/// The rows a table receives depend only on the records' images, up to the
/// cell images.
proof fn lemma_rows_for_by_views(
    p1: Seq<PgOutput>,
    p2: Seq<PgOutput>,
    ctx: PostgresPipeContext,
    schema: Seq<char>,
    table: Seq<char>,
    deletes: bool,
)
    requires
        parsed_views_eq(p1, p2),
    ensures
        !deletes ==> rows_views_eq(
            spec_insert_rows_for(p1, ctx, schema, table),
            spec_insert_rows_for(p2, ctx, schema, table),
        ),
        deletes ==> rows_views_eq(
            spec_delete_rows_for(p1, ctx, schema, table),
            spec_delete_rows_for(p2, ctx, schema, table),
        ),
    decreases p1.len(),
{
    if p1.len() > 0 {
        assert(parsed_views_eq(p1.drop_last(), p2.drop_last())) by {
            assert forall|k: int| 0 <= k < p1.len() - 1 implies (#[trigger] p1.drop_last()[k])@
                == p2.drop_last()[k]@ by {
                assert(p1.drop_last()[k] == p1[k]);
                assert(p2.drop_last()[k] == p2[k]);
            }
        }
        lemma_rows_for_by_views(p1.drop_last(), p2.drop_last(), ctx, schema, table, deletes);
        assert(p1.last()@ == p2.last()@);
        assert(cells_view(p1.last().payload@) == cells_view(p2.last().payload@));
    }
}

/// The planned statements depend only on the records' images: any two
/// parses of the same peeked batch yield the very same statements.
pub proof fn lemma_replay_same_records(
    ctx: PostgresPipeContext,
    db: Seq<char>,
    cfg_tables: Seq<PostgresSource>,
    records: Seq<PeekWalChangeResult>,
    p1: Seq<PgOutput>,
    p2: Seq<PgOutput>,
)
    requires
        spec_parsed_matches(records, p1),
        spec_parsed_matches(records, p2),
    ensures
        spec_sync_statements(ctx, db, cfg_tables, p1) == spec_sync_statements(
            ctx,
            db,
            cfg_tables,
            p2,
        ),
{
    lemma_parsed_matches_unique(records, p1, p2);
    lemma_tables_touched_by_views(p1, p2, ctx, MessageType::Truncate);
    lemma_tables_touched_by_views(p1, p2, ctx, MessageType::Insert);
    lemma_tables_touched_by_views(p1, p2, ctx, MessageType::Delete);
    let ins_pairs = spec_tables_touched(p1, ctx, MessageType::Insert);
    assert forall|j: int| 0 <= j < ins_pairs.len() implies spec_insert_stmt(
        ctx,
        db,
        cfg_tables,
        p1,
        #[trigger] ins_pairs[j],
    ) == spec_insert_stmt(ctx, db, cfg_tables, p2, ins_pairs[j]) by {
        let pr = ins_pairs[j];
        lemma_rows_for_by_views(p1, p2, ctx, pr.0, pr.1, false);
        let info = spec_info_for(ctx, pr.0, pr.1);
        queries::lemma_insert_query_row_views(
            db,
            info.clickhouse_columns@,
            info.postgres_columns@,
            spec_mask_for(cfg_tables, pr.0, pr.1),
            pr.1,
            spec_insert_rows_for(p1, ctx, pr.0, pr.1),
            spec_insert_rows_for(p2, ctx, pr.0, pr.1),
        );
    }
    let del_pairs = spec_tables_touched(p1, ctx, MessageType::Delete);
    assert forall|j: int| 0 <= j < del_pairs.len() implies spec_delete_stmt(
        ctx,
        db,
        p1,
        #[trigger] del_pairs[j],
    ) == spec_delete_stmt(ctx, db, p2, del_pairs[j]) by {
        let pr = del_pairs[j];
        lemma_rows_for_by_views(p1, p2, ctx, pr.0, pr.1, true);
        let info = spec_info_for(ctx, pr.0, pr.1);
        queries::lemma_delete_query_row_views(
            db,
            info.clickhouse_columns@,
            info.postgres_columns@,
            pr.1,
            spec_delete_rows_for(p1, ctx, pr.0, pr.1),
            spec_delete_rows_for(p2, ctx, pr.0, pr.1),
        );
    }
    assert(ins_pairs.map_values(
        |pr: (Seq<char>, Seq<char>)| spec_insert_stmt(ctx, db, cfg_tables, p1, pr),
    ) =~= ins_pairs.map_values(
        |pr: (Seq<char>, Seq<char>)| spec_insert_stmt(ctx, db, cfg_tables, p2, pr),
    ));
    assert(del_pairs.map_values(
        |pr: (Seq<char>, Seq<char>)| spec_delete_stmt(ctx, db, p1, pr),
    ) =~= del_pairs.map_values(|pr: (Seq<char>, Seq<char>)| spec_delete_stmt(ctx, db, p2, pr)));
}

/// Planning is a pure function of the context, the configuration and the
/// batch: replaying the same records against the same state yields the very
/// same statements.
pub proof fn lemma_replay_plans_same_statements(
    ctx: PostgresPipeContext,
    db: Seq<char>,
    cfg_tables: Seq<PostgresSource>,
    parsed: Seq<PgOutput>,
    statements1: Seq<Seq<char>>,
    statements2: Seq<Seq<char>>,
)
    requires
        statements1 == spec_sync_statements(ctx, db, cfg_tables, parsed),
        statements2 == spec_sync_statements(ctx, db, cfg_tables, parsed),
    ensures
        statements1 == statements2,
{
}

impl PostgresPipe {
    /// A pipe with the given configuration and no bindings yet.
    pub fn new(
        postgres_config: PostgresConfig,
        clickhouse_config: crate::config::ClickHouseConfig,
    ) -> (r: Self)
        ensures
            r.postgres_config == postgres_config,
            r.clickhouse_config == clickhouse_config,
            r.context.tables_map@.len() == 0,
            r.context.table_relation_map@.len() == 0,
    {
        PostgresPipe {
            context: PostgresPipeContext { tables_map: Vec::new(), table_relation_map: Vec::new() },
            postgres_config,
            clickhouse_config,
        }
    }
}

} // verus!
