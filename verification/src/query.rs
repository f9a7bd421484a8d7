//! The SQL text and bound parameters of the file listings. The text is made
//! only of fixed pieces chosen by which filters are set and by the sort
//! choice; the values of the filter go into the parameters, never into the
//! text.
use crate::error::AlexandriaError;
use crate::models::FileFilter;
use crate::text::{append_i64, int_decimal, str_chars, to_lowercase, unicode_lowercase};
use vstd::prelude::*;

verus! {

/// A value bound to a `?` of a query.
#[derive(Debug, Clone, PartialEq, Eq)]
pub enum SqlValue {
    Int(i64),
    Text(String),
    /// A timestamp, in Unix milliseconds.
    Time(i64),
}

/// The view of a bound value.
pub ghost enum SqlValueView {
    Int(i64),
    Text(Seq<char>),
    Time(i64),
}

impl View for SqlValue {
    type V = SqlValueView;

    open spec fn view(&self) -> SqlValueView {
        match self {
            SqlValue::Int(i) => SqlValueView::Int(*i),
            SqlValue::Text(s) => SqlValueView::Text(s@),
            SqlValue::Time(t) => SqlValueView::Time(*t),
        }
    }
}

/// A query: its text and the values bound to its `?`, in order.
#[derive(Debug, Clone)]
pub struct FileQuery {
    pub sql: String,
    pub params: Vec<SqlValue>,
}

/// The views of bound values.
pub open spec fn value_views(v: Seq<SqlValue>) -> Seq<SqlValueView> {
    v.map_values(|p: SqlValue| p@)
}

/// `text` when `present`, nothing otherwise.
#[verifier::opaque]
pub open spec fn clause(present: bool, text: Seq<char>) -> Seq<char> {
    if present {
        text
    } else {
        Seq::empty()
    }
}

/// `base` followed by the conditions of a filter, in their fixed order, one
/// per filter that is set.
pub open spec fn with_conditions(base: Seq<char>, f: FileFilter) -> Seq<char> {
    base + clause(f.tag_id is Some, " AND f.id IN (SELECT file_id FROM file_tags WHERE tag_id = ?)"@)
        + clause(f.name is Some, " AND f.name LIKE ?"@)
        + clause(f.extension is Some, " AND f.extension = ?"@)
        + clause(f.file_type is Some, " AND f.file_type = ?"@)
        + clause(f.min_size is Some, " AND f.size_bytes >= ?"@)
        + clause(f.max_size is Some, " AND f.size_bytes <= ?"@)
        + clause(f.has_subtitles is Some, " AND f.has_subtitles = ?"@)
        + clause(f.group_id is Some, " AND f.group_id = ?"@)
        + clause(f.modified_after is Some, " AND f.modified_at >= ?"@)
        + clause(f.modified_before is Some, " AND f.modified_at <= ?"@)
}

/// `[v]` when there is a value, nothing otherwise.
pub open spec fn param(v: Option<SqlValueView>) -> Seq<SqlValueView> {
    match v {
        Some(x) => seq![x],
        None => Seq::empty(),
    }
}

/// `base` followed by the values bound to the conditions of a filter, in
/// the same order: the name between '%' wildcards, the extension and type
/// lowercased, and the subtitle flag as 1 or 0.
pub open spec fn with_params(base: Seq<SqlValueView>, f: FileFilter) -> Seq<SqlValueView> {
    base + param(
        match f.tag_id {
            Some(t) => Some(SqlValueView::Int(t)),
            None => None,
        },
    ) + param(
        match f.name {
            Some(n) => Some(SqlValueView::Text(seq!['%'] + n@ + seq!['%'])),
            None => None,
        },
    ) + param(
        match f.extension {
            Some(e) => Some(SqlValueView::Text(unicode_lowercase(e@))),
            None => None,
        },
    ) + param(
        match f.file_type {
            Some(t) => Some(SqlValueView::Text(unicode_lowercase(t@))),
            None => None,
        },
    ) + param(
        match f.min_size {
            Some(m) => Some(SqlValueView::Int(m)),
            None => None,
        },
    ) + param(
        match f.max_size {
            Some(m) => Some(SqlValueView::Int(m)),
            None => None,
        },
    ) + param(
        match f.has_subtitles {
            Some(b) => Some(SqlValueView::Int(if b { 1 } else { 0 })),
            None => None,
        },
    ) + param(
        match f.group_id {
            Some(g) => Some(SqlValueView::Int(g)),
            None => None,
        },
    ) + param(
        match f.modified_after {
            Some(t) => Some(SqlValueView::Time(t)),
            None => None,
        },
    ) + param(
        match f.modified_before {
            Some(t) => Some(SqlValueView::Time(t)),
            None => None,
        },
    )
}

/// The column a listing is sorted by: size, modification time or duration
/// when asked for, the name otherwise.
pub open spec fn sort_column(sort_by: Option<String>) -> Seq<char> {
    match sort_by {
        Some(s) => if s@ == "size"@ {
            "f.size_bytes"@
        } else if s@ == "modified_at"@ {
            "f.modified_at"@
        } else if s@ == "duration"@ {
            "f.duration_seconds"@
        } else {
            "f.name"@
        },
        None => "f.name"@,
    }
}

/// The direction of the sort: descending when asked for, ascending
/// otherwise.
pub open spec fn sort_direction(sort_order: Option<String>) -> Seq<char> {
    match sort_order {
        Some(s) => if s@ == "desc"@ {
            "DESC"@
        } else {
            "ASC"@
        },
        None => "ASC"@,
    }
}

/// The selection of the file listing.
pub open spec fn list_select() -> Seq<char> {
    "SELECT f.id, f.path, f.name, f.extension, f.size_bytes, f.modified_at, f.scanned_at, f.file_type, f.duration_seconds, f.width, f.height, f.video_codec, f.audio_codec, f.has_subtitles, f.audio_tracks, f.subtitle_tracks, f.extra_json, f.notes, f.group_id FROM files f WHERE 1=1"@
}

/// The selection of the file count.
pub open spec fn count_select() -> Seq<char> {
    "SELECT COUNT(*) FROM files f WHERE 1=1"@
}

/// The text of the file listing for a filter.
pub open spec fn list_sql(f: FileFilter) -> Seq<char> {
    with_conditions(list_select(), f) + " ORDER BY "@ + sort_column(f.sort_by) + " "@
        + sort_direction(f.sort_order) + " LIMIT ? OFFSET ?"@
}

/// A value or a default.
pub open spec fn or_default(v: Option<i64>, d: i64) -> i64 {
    match v {
        Some(x) => x,
        None => d,
    }
}

/// The values bound to the file listing: those of the filter, then the
/// limit (100 by default) and the offset (0 by default).
pub open spec fn list_params(f: FileFilter) -> Seq<SqlValueView> {
    with_params(Seq::empty(), f) + seq![
        SqlValueView::Int(or_default(f.limit, 100)),
        SqlValueView::Int(or_default(f.offset, 0)),
    ]
}

/// Append `text` to `sql` when `present`.
fn append_clause(sql: &mut String, present: bool, text: &str)
    ensures
        final(sql)@ == old(sql)@ + clause(present, text@),
{
    reveal(clause);
    if present {
        sql.append(text);
    } else {
        assert(old(sql)@ + clause(present, text@) =~= old(sql)@);
    }
}

/// The view of an optional value.
pub open spec fn opt_value_view(v: Option<SqlValue>) -> Option<SqlValueView> {
    match v {
        Some(x) => Some(x@),
        None => None,
    }
}

/// Append the value, if there is one.
fn push_param(params: &mut Vec<SqlValue>, v: Option<SqlValue>)
    ensures
        value_views(final(params)@) == value_views(old(params)@) + param(opt_value_view(v)),
{
    let ghost p0 = value_views(params@);
    match v {
        Some(x) => {
            params.push(x);
            assert(value_views(params@) =~= p0 + param(opt_value_view(v)));
        },
        None => {
            assert(value_views(params@) =~= p0 + param(opt_value_view(v)));
        },
    }
}

/// Append the conditions of a filter to `sql`.
fn push_condition_text(f: &FileFilter, sql: &mut String)
    ensures
        final(sql)@ == with_conditions(old(sql)@, *f),
{
    append_clause(
        sql,
        f.tag_id.is_some(),
        " AND f.id IN (SELECT file_id FROM file_tags WHERE tag_id = ?)",
    );
    append_clause(sql, f.name.is_some(), " AND f.name LIKE ?");
    append_clause(sql, f.extension.is_some(), " AND f.extension = ?");
    append_clause(sql, f.file_type.is_some(), " AND f.file_type = ?");
    append_clause(sql, f.min_size.is_some(), " AND f.size_bytes >= ?");
    append_clause(sql, f.max_size.is_some(), " AND f.size_bytes <= ?");
    append_clause(sql, f.has_subtitles.is_some(), " AND f.has_subtitles = ?");
    append_clause(sql, f.group_id.is_some(), " AND f.group_id = ?");
    append_clause(sql, f.modified_after.is_some(), " AND f.modified_at >= ?");
    append_clause(sql, f.modified_before.is_some(), " AND f.modified_at <= ?");
}

/// The name between '%' wildcards.
fn like_pattern(n: &String) -> (r: String)
    ensures
        r@ == seq!['%'] + n@ + seq!['%'],
{
    proof {
        reveal_strlit("%");
        assert("%"@ =~= seq!['%']);
    }
    let mut s = String::from_str("%");
    s.append(n.as_str());
    s.append("%");
    s
}

/// Append the values of the conditions of a filter to `params`.
fn push_condition_params(f: &FileFilter, params: &mut Vec<SqlValue>)
    ensures
        value_views(final(params)@) == with_params(value_views(old(params)@), *f),
{
    push_param(
        params,
        match f.tag_id {
            Some(t) => Some(SqlValue::Int(t)),
            None => None,
        },
    );
    push_param(
        params,
        match &f.name {
            Some(n) => Some(SqlValue::Text(like_pattern(n))),
            None => None,
        },
    );
    push_param(
        params,
        match &f.extension {
            Some(e) => Some(SqlValue::Text(to_lowercase(e.as_str()))),
            None => None,
        },
    );
    push_param(
        params,
        match &f.file_type {
            Some(t) => Some(SqlValue::Text(to_lowercase(t.as_str()))),
            None => None,
        },
    );
    push_param(
        params,
        match f.min_size {
            Some(m) => Some(SqlValue::Int(m)),
            None => None,
        },
    );
    push_param(
        params,
        match f.max_size {
            Some(m) => Some(SqlValue::Int(m)),
            None => None,
        },
    );
    push_param(
        params,
        match f.has_subtitles {
            Some(b) => Some(
                SqlValue::Int(
                    if b {
                        1
                    } else {
                        0
                    },
                ),
            ),
            None => None,
        },
    );
    push_param(
        params,
        match f.group_id {
            Some(g) => Some(SqlValue::Int(g)),
            None => None,
        },
    );
    push_param(
        params,
        match f.modified_after {
            Some(t) => Some(SqlValue::Time(t)),
            None => None,
        },
    );
    push_param(
        params,
        match f.modified_before {
            Some(t) => Some(SqlValue::Time(t)),
            None => None,
        },
    );
}

/// Append the conditions of a filter to `sql` and their values to `params`.
fn push_conditions(f: &FileFilter, sql: &mut String, params: &mut Vec<SqlValue>)
    ensures
        final(sql)@ == with_conditions(old(sql)@, *f),
        value_views(final(params)@) == with_params(value_views(old(params)@), *f),
{
    push_condition_text(f, sql);
    push_condition_params(f, params);
}

/// Whether an optional text is the given one.
fn is_text(o: &Option<String>, t: &str) -> (r: bool)
    ensures
        r == (o matches Some(s) && s@ == t@),
{
    match o {
        Some(s) => crate::text::chars_eq(&str_chars(s.as_str()), &str_chars(t)),
        None => false,
    }
}

/// The query listing the files that pass a filter, sorted and paged as it
/// asks.
pub fn list_files_query(filter: &FileFilter) -> (r: FileQuery)
    ensures
        r.sql@ == list_sql(*filter),
        value_views(r.params@) == list_params(*filter),
{
    let mut sql = String::from_str(
        "SELECT f.id, f.path, f.name, f.extension, f.size_bytes, f.modified_at, f.scanned_at, f.file_type, f.duration_seconds, f.width, f.height, f.video_codec, f.audio_codec, f.has_subtitles, f.audio_tracks, f.subtitle_tracks, f.extra_json, f.notes, f.group_id FROM files f WHERE 1=1",
    );
    let mut params: Vec<SqlValue> = Vec::new();
    assert(value_views(params@) =~= Seq::empty());
    push_conditions(filter, &mut sql, &mut params);
    let sort_by = if is_text(&filter.sort_by, "size") {
        "f.size_bytes"
    } else if is_text(&filter.sort_by, "modified_at") {
        "f.modified_at"
    } else if is_text(&filter.sort_by, "duration") {
        "f.duration_seconds"
    } else {
        "f.name"
    };
    let sort_order = if is_text(&filter.sort_order, "desc") {
        "DESC"
    } else {
        "ASC"
    };
    sql.append(" ORDER BY ");
    sql.append(sort_by);
    sql.append(" ");
    sql.append(sort_order);
    sql.append(" LIMIT ? OFFSET ?");
    let limit = match filter.limit {
        Some(l) => l,
        None => 100,
    };
    let offset = match filter.offset {
        Some(o) => o,
        None => 0,
    };
    let ghost p1 = value_views(params@);
    params.push(SqlValue::Int(limit));
    params.push(SqlValue::Int(offset));
    assert(value_views(params@) =~= p1 + seq![
        SqlValueView::Int(limit),
        SqlValueView::Int(offset),
    ]);
    FileQuery { sql, params }
}

/// The query counting the files that pass a filter.
pub fn count_files_query(filter: &FileFilter) -> (r: FileQuery)
    ensures
        r.sql@ == with_conditions(count_select(), *filter),
        value_views(r.params@) == with_params(Seq::empty(), *filter),
{
    let mut sql = String::from_str("SELECT COUNT(*) FROM files f WHERE 1=1");
    let mut params: Vec<SqlValue> = Vec::new();
    assert(value_views(params@) =~= Seq::empty());
    push_conditions(filter, &mut sql, &mut params);
    FileQuery { sql, params }
}

/// The text of a listing is fixed by which filters are set and by the sort
/// choice: no value of the filter enters it.
pub proof fn lemma_sql_depends_on_shape_only(a: FileFilter, b: FileFilter)
    requires
        a.tag_id is Some <==> b.tag_id is Some,
        a.name is Some <==> b.name is Some,
        a.extension is Some <==> b.extension is Some,
        a.file_type is Some <==> b.file_type is Some,
        a.min_size is Some <==> b.min_size is Some,
        a.max_size is Some <==> b.max_size is Some,
        a.has_subtitles is Some <==> b.has_subtitles is Some,
        a.group_id is Some <==> b.group_id is Some,
        a.modified_after is Some <==> b.modified_after is Some,
        a.modified_before is Some <==> b.modified_before is Some,
        sort_column(a.sort_by) == sort_column(b.sort_by),
        sort_direction(a.sort_order) == sort_direction(b.sort_order),
    ensures
        list_sql(a) == list_sql(b),
        with_conditions(count_select(), a) == with_conditions(count_select(), b),
{
}

/// The text of the group listing: all groups, or those of one kind, the
/// largest first.
pub open spec fn group_list_sql(by_kind: bool) -> Seq<char> {
    if by_kind {
        "SELECT g.id, g.name, g.kind, g.canonical_name, g.created_at, COUNT(f.id) as file_count FROM groups g LEFT JOIN files f ON f.group_id = g.id WHERE g.kind = ? GROUP BY g.id ORDER BY file_count DESC, g.name"@
    } else {
        "SELECT g.id, g.name, g.kind, g.canonical_name, g.created_at, COUNT(f.id) as file_count FROM groups g LEFT JOIN files f ON f.group_id = g.id GROUP BY g.id ORDER BY file_count DESC, g.name"@
    }
}

/// The query listing the groups, of one kind or all.
pub fn list_groups_query(kind: Option<&str>) -> (r: FileQuery)
    ensures
        r.sql@ == group_list_sql(kind is Some),
        value_views(r.params@) == (match kind {
            Some(k) => seq![SqlValueView::Text(k@)],
            None => Seq::empty(),
        }),
{
    match kind {
        Some(k) => {
            let mut params: Vec<SqlValue> = Vec::new();
            params.push(SqlValue::Text(String::from_str(k)));
            assert(value_views(params@) =~= seq![SqlValueView::Text(k@)]);
            FileQuery {
                sql: String::from_str(
                    "SELECT g.id, g.name, g.kind, g.canonical_name, g.created_at, COUNT(f.id) as file_count FROM groups g LEFT JOIN files f ON f.group_id = g.id WHERE g.kind = ? GROUP BY g.id ORDER BY file_count DESC, g.name",
                ),
                params,
            }
        },
        None => {
            let params: Vec<SqlValue> = Vec::new();
            assert(value_views(params@) =~= Seq::empty());
            FileQuery {
                sql: String::from_str(
                    "SELECT g.id, g.name, g.kind, g.canonical_name, g.created_at, COUNT(f.id) as file_count FROM groups g LEFT JOIN files f ON f.group_id = g.id GROUP BY g.id ORDER BY file_count DESC, g.name",
                ),
                params,
            }
        },
    }
}

/// A not-found error whose message is `prefix`, the id and `suffix`.
fn not_found_with(prefix: &str, id: i64, suffix: &str) -> (r: AlexandriaError)
    ensures
        r matches AlexandriaError::NotFound(m) && m@ == prefix@ + int_decimal(id as int) + suffix@,
{
    let mut m = String::from_str(prefix);
    append_i64(&mut m, id);
    m.append(suffix);
    AlexandriaError::NotFound(m)
}

/// The error of a file that is not in the index.
pub fn file_not_found(id: i64) -> (r: AlexandriaError)
    ensures
        r matches AlexandriaError::NotFound(m) && m@ == "File with id "@ + int_decimal(id as int)
            + " not found"@,
{
    not_found_with("File with id ", id, " not found")
}

/// The error of a note that does not exist.
pub fn note_not_found(id: i64) -> (r: AlexandriaError)
    ensures
        r matches AlexandriaError::NotFound(m) && m@ == "Note with id "@ + int_decimal(id as int)
            + " not found"@,
{
    not_found_with("Note with id ", id, " not found")
}

/// The error of a group that does not exist.
pub fn group_not_found(id: i64) -> (r: AlexandriaError)
    ensures
        r matches AlexandriaError::NotFound(m) && m@ == "Group with id "@ + int_decimal(id as int)
            + " not found"@,
{
    not_found_with("Group with id ", id, " not found")
}

/// The error of a reorganization job that does not exist.
pub fn job_not_found(id: i64) -> (r: AlexandriaError)
    ensures
        r matches AlexandriaError::NotFound(m) && m@ == "Reorg job with id "@ + int_decimal(
            id as int,
        ) + " not found"@,
{
    not_found_with("Reorg job with id ", id, " not found")
}

/// The error of a tag that is not assigned to a file.
pub fn tag_not_assigned(tag_id: i64, file_id: i64) -> (r: AlexandriaError)
    ensures
        r matches AlexandriaError::NotFound(m) && m@ == "Tag "@ + int_decimal(tag_id as int)
            + " is not assigned to file "@ + int_decimal(file_id as int),
{
    let mut m = String::from_str("Tag ");
    append_i64(&mut m, tag_id);
    m.append(" is not assigned to file ");
    append_i64(&mut m, file_id);
    AlexandriaError::NotFound(m)
}

/// The number of '?' placeholders in `s[i..]`.
#[verifier::opaque]
pub open spec fn placeholders_from(s: Seq<char>, i: int) -> nat
    decreases s.len() - i,
{
    if i < 0 || i >= s.len() {
        0
    } else {
        (if s[i] == '?' {
            1nat
        } else {
            0nat
        }) + placeholders_from(s, i + 1)
    }
}

/// The number of '?' placeholders in `s`.
pub open spec fn placeholders(s: Seq<char>) -> nat {
    placeholders_from(s, 0)
}

/// Counting in `a + b` past `a` is counting in `b`.
proof fn lemma_placeholders_shift(a: Seq<char>, b: Seq<char>, k: int)
    requires
        0 <= k <= b.len(),
    ensures
        placeholders_from(a + b, a.len() + k) == placeholders_from(b, k),
    decreases b.len() - k,
{
    reveal(placeholders_from);
    if k < b.len() {
        assert((a + b)[a.len() + k] == b[k]);
        lemma_placeholders_shift(a, b, k + 1);
    }
}

/// Counting in `a + b` from inside `a`.
proof fn lemma_placeholders_concat_from(a: Seq<char>, b: Seq<char>, i: int)
    requires
        0 <= i <= a.len(),
    ensures
        placeholders_from(a + b, i) == placeholders_from(a, i) + placeholders(b),
    decreases a.len() - i,
{
    reveal(placeholders_from);
    if i == a.len() {
        lemma_placeholders_shift(a, b, 0);
    } else {
        assert((a + b)[i] == a[i]);
        lemma_placeholders_concat_from(a, b, i + 1);
    }
}

/// The placeholders of `a + b` are those of `a` and those of `b`.
proof fn lemma_placeholders_concat(a: Seq<char>, b: Seq<char>)
    ensures
        placeholders(a + b) == placeholders(a) + placeholders(b),
{
    lemma_placeholders_concat_from(a, b, 0);
}

/// The placeholders of the pieces of the SQL texts.
proof fn lemma_piece_placeholders()
    ensures
        placeholders(list_select()) == 0,
        placeholders(count_select()) == 0,
        placeholders(" AND f.id IN (SELECT file_id FROM file_tags WHERE tag_id = ?)"@) == 1,
        placeholders(" AND f.name LIKE ?"@) == 1,
        placeholders(" AND f.extension = ?"@) == 1,
        placeholders(" AND f.file_type = ?"@) == 1,
        placeholders(" AND f.size_bytes >= ?"@) == 1,
        placeholders(" AND f.size_bytes <= ?"@) == 1,
        placeholders(" AND f.has_subtitles = ?"@) == 1,
        placeholders(" AND f.group_id = ?"@) == 1,
        placeholders(" AND f.modified_at >= ?"@) == 1,
        placeholders(" AND f.modified_at <= ?"@) == 1,
        placeholders(" ORDER BY "@) == 0,
        placeholders(" "@) == 0,
        placeholders(" LIMIT ? OFFSET ?"@) == 2,
        placeholders("f.size_bytes"@) == 0,
        placeholders("f.modified_at"@) == 0,
        placeholders("f.duration_seconds"@) == 0,
        placeholders("f.name"@) == 0,
        placeholders("DESC"@) == 0,
        placeholders("ASC"@) == 0,
{
    reveal_strlit(
        "SELECT f.id, f.path, f.name, f.extension, f.size_bytes, f.modified_at, f.scanned_at, f.file_type, f.duration_seconds, f.width, f.height, f.video_codec, f.audio_codec, f.has_subtitles, f.audio_tracks, f.subtitle_tracks, f.extra_json, f.notes, f.group_id FROM files f WHERE 1=1",
    );
    reveal_strlit("SELECT COUNT(*) FROM files f WHERE 1=1");
    reveal_strlit(" AND f.id IN (SELECT file_id FROM file_tags WHERE tag_id = ?)");
    reveal_strlit(" AND f.name LIKE ?");
    reveal_strlit(" AND f.extension = ?");
    reveal_strlit(" AND f.file_type = ?");
    reveal_strlit(" AND f.size_bytes >= ?");
    reveal_strlit(" AND f.size_bytes <= ?");
    reveal_strlit(" AND f.has_subtitles = ?");
    reveal_strlit(" AND f.group_id = ?");
    reveal_strlit(" AND f.modified_at >= ?");
    reveal_strlit(" AND f.modified_at <= ?");
    reveal_strlit(" ORDER BY ");
    reveal_strlit(" ");
    reveal_strlit(" LIMIT ? OFFSET ?");
    reveal_strlit("f.size_bytes");
    reveal_strlit("f.modified_at");
    reveal_strlit("f.duration_seconds");
    reveal_strlit("f.name");
    reveal_strlit("DESC");
    reveal_strlit("ASC");
    reveal_with_fuel(placeholders_from, 70);
    let s = list_select();
    assert(placeholders_from(s, 250) == 0);
    assert(placeholders_from(s, 200) == 0);
    assert(placeholders_from(s, 150) == 0);
    assert(placeholders_from(s, 100) == 0);
    assert(placeholders_from(s, 50) == 0);
    assert(placeholders_from(s, 0) == 0);
}

/// 1 when `b`, 0 otherwise.
#[verifier::opaque]
pub open spec fn one_if(b: bool) -> nat {
    if b {
        1
    } else {
        0
    }
}

/// The number of filters that are set.
pub open spec fn condition_count(f: FileFilter) -> nat {
    one_if(f.tag_id is Some) + one_if(f.name is Some) + one_if(f.extension is Some) + one_if(
        f.file_type is Some,
    ) + one_if(f.min_size is Some) + one_if(f.max_size is Some) + one_if(f.has_subtitles is Some)
        + one_if(f.group_id is Some) + one_if(f.modified_after is Some) + one_if(
        f.modified_before is Some,
    )
}

/// Adding a clause with one placeholder adds one placeholder when present.
proof fn lemma_clause_placeholders(base: Seq<char>, present: bool, text: Seq<char>)
    requires
        placeholders(text) == 1,
    ensures
        placeholders(base + clause(present, text)) == placeholders(base) + one_if(present),
{
    reveal(clause);
    reveal(one_if);
    lemma_placeholders_concat(base, clause(present, text));
    if !present {
        reveal(placeholders_from);
        assert(placeholders(Seq::<char>::empty()) == 0);
    }
}

/// The first five conditions hold one placeholder each when set.
proof fn lemma_first_conditions(base: Seq<char>, f: FileFilter)
    ensures
        placeholders(base + clause(f.tag_id is Some, " AND f.id IN (SELECT file_id FROM file_tags WHERE tag_id = ?)"@) + clause(f.name is Some, " AND f.name LIKE ?"@) + clause(f.extension is Some, " AND f.extension = ?"@) + clause(f.file_type is Some, " AND f.file_type = ?"@) + clause(f.min_size is Some, " AND f.size_bytes >= ?"@)) == placeholders(base) + one_if(f.tag_id is Some) + one_if(f.name is Some) + one_if(f.extension is Some) + one_if(f.file_type is Some) + one_if(f.min_size is Some),
{
    lemma_piece_placeholders();
    lemma_clause_placeholders(base, f.tag_id is Some, " AND f.id IN (SELECT file_id FROM file_tags WHERE tag_id = ?)"@);
    let b0 = base + clause(f.tag_id is Some, " AND f.id IN (SELECT file_id FROM file_tags WHERE tag_id = ?)"@);
    lemma_clause_placeholders(b0, f.name is Some, " AND f.name LIKE ?"@);
    let b1 = b0 + clause(f.name is Some, " AND f.name LIKE ?"@);
    lemma_clause_placeholders(b1, f.extension is Some, " AND f.extension = ?"@);
    let b2 = b1 + clause(f.extension is Some, " AND f.extension = ?"@);
    lemma_clause_placeholders(b2, f.file_type is Some, " AND f.file_type = ?"@);
    let b3 = b2 + clause(f.file_type is Some, " AND f.file_type = ?"@);
    lemma_clause_placeholders(b3, f.min_size is Some, " AND f.size_bytes >= ?"@);
    let b4 = b3 + clause(f.min_size is Some, " AND f.size_bytes >= ?"@);
}

/// The last five conditions hold one placeholder each when set.
proof fn lemma_last_conditions(base: Seq<char>, f: FileFilter)
    ensures
        placeholders(base + clause(f.max_size is Some, " AND f.size_bytes <= ?"@) + clause(f.has_subtitles is Some, " AND f.has_subtitles = ?"@) + clause(f.group_id is Some, " AND f.group_id = ?"@) + clause(f.modified_after is Some, " AND f.modified_at >= ?"@) + clause(f.modified_before is Some, " AND f.modified_at <= ?"@)) == placeholders(base) + one_if(f.max_size is Some) + one_if(f.has_subtitles is Some) + one_if(f.group_id is Some) + one_if(f.modified_after is Some) + one_if(f.modified_before is Some),
{
    lemma_piece_placeholders();
    lemma_clause_placeholders(base, f.max_size is Some, " AND f.size_bytes <= ?"@);
    let b0 = base + clause(f.max_size is Some, " AND f.size_bytes <= ?"@);
    lemma_clause_placeholders(b0, f.has_subtitles is Some, " AND f.has_subtitles = ?"@);
    let b1 = b0 + clause(f.has_subtitles is Some, " AND f.has_subtitles = ?"@);
    lemma_clause_placeholders(b1, f.group_id is Some, " AND f.group_id = ?"@);
    let b2 = b1 + clause(f.group_id is Some, " AND f.group_id = ?"@);
    lemma_clause_placeholders(b2, f.modified_after is Some, " AND f.modified_at >= ?"@);
    let b3 = b2 + clause(f.modified_after is Some, " AND f.modified_at >= ?"@);
    lemma_clause_placeholders(b3, f.modified_before is Some, " AND f.modified_at <= ?"@);
    let b4 = b3 + clause(f.modified_before is Some, " AND f.modified_at <= ?"@);
}

/// The conditions of a filter hold one placeholder per filter that is set.
proof fn lemma_condition_placeholders(base: Seq<char>, f: FileFilter)
    ensures
        placeholders(with_conditions(base, f)) == placeholders(base) + condition_count(f),
{
    lemma_first_conditions(base, f);
    lemma_last_conditions(base + clause(f.tag_id is Some, " AND f.id IN (SELECT file_id FROM file_tags WHERE tag_id = ?)"@) + clause(f.name is Some, " AND f.name LIKE ?"@) + clause(f.extension is Some, " AND f.extension = ?"@) + clause(f.file_type is Some, " AND f.file_type = ?"@) + clause(f.min_size is Some, " AND f.size_bytes >= ?"@), f);
}

/// The conditions of a filter bind one value per filter that is set.
proof fn lemma_params_count(base: Seq<SqlValueView>, f: FileFilter)
    ensures
        with_params(base, f).len() == base.len() + condition_count(f),
{
    reveal(one_if);
}

/// Every placeholder of a listing's SQL text has one bound value, and every
/// bound value one placeholder.
pub proof fn lemma_placeholders_match_params(f: FileFilter)
    ensures
        placeholders(list_sql(f)) == list_params(f).len(),
        placeholders(with_conditions(count_select(), f)) == with_params(Seq::empty(), f).len(),
{
    lemma_piece_placeholders();
    lemma_condition_placeholders(list_select(), f);
    lemma_condition_placeholders(count_select(), f);
    lemma_params_count(Seq::empty(), f);
    let w = with_conditions(list_select(), f);
    let col = sort_column(f.sort_by);
    let dir = sort_direction(f.sort_order);
    assert(placeholders(col) == 0);
    assert(placeholders(dir) == 0);
    lemma_placeholders_concat(w, " ORDER BY "@);
    lemma_placeholders_concat(w + " ORDER BY "@, col);
    lemma_placeholders_concat(w + " ORDER BY "@ + col, " "@);
    lemma_placeholders_concat(w + " ORDER BY "@ + col + " "@, dir);
    lemma_placeholders_concat(w + " ORDER BY "@ + col + " "@ + dir, " LIMIT ? OFFSET ?"@);
}


/// The direction a filter asks for, as SQL.
pub open spec fn asked_direction(f: FileFilter) -> Seq<char> {
    if f.sort_order matches Some(o) && o@ == "desc"@ {
        "DESC"@
    } else {
        "ASC"@
    }
}

/// A listing is ordered by the column its sort key names: "size" by
/// f.size_bytes, "modified_at" by f.modified_at, "duration" by
/// f.duration_seconds, and any other key, or none, by f.name; descending
/// when "desc" is asked for and ascending otherwise; then paged.
pub proof fn lemma_listing_order(f: FileFilter)
    ensures
        (f.sort_by matches Some(k) && k@ == "size"@) ==> list_sql(f) == with_conditions(
            list_select(),
            f,
        ) + " ORDER BY f.size_bytes "@ + asked_direction(f) + " LIMIT ? OFFSET ?"@,
        (f.sort_by matches Some(k) && k@ == "modified_at"@) ==> list_sql(f) == with_conditions(
            list_select(),
            f,
        ) + " ORDER BY f.modified_at "@ + asked_direction(f) + " LIMIT ? OFFSET ?"@,
        (f.sort_by matches Some(k) && k@ == "duration"@) ==> list_sql(f) == with_conditions(
            list_select(),
            f,
        ) + " ORDER BY f.duration_seconds "@ + asked_direction(f) + " LIMIT ? OFFSET ?"@,
        !(f.sort_by matches Some(k) && (k@ == "size"@ || k@ == "modified_at"@ || k@
            == "duration"@)) ==> list_sql(f) == with_conditions(list_select(), f)
            + " ORDER BY f.name "@ + asked_direction(f) + " LIMIT ? OFFSET ?"@,
{
    reveal_strlit(" ORDER BY ");
    reveal_strlit(" ");
    reveal_strlit("f.size_bytes");
    reveal_strlit("f.modified_at");
    reveal_strlit("f.duration_seconds");
    reveal_strlit("f.name");
    reveal_strlit(" ORDER BY f.size_bytes ");
    reveal_strlit(" ORDER BY f.modified_at ");
    reveal_strlit(" ORDER BY f.duration_seconds ");
    reveal_strlit(" ORDER BY f.name ");
    reveal_strlit("size");
    reveal_strlit("modified_at");
    reveal_strlit("duration");
    assert("modified_at"@.len() != "size"@.len());
    assert("duration"@.len() != "size"@.len());
    assert("duration"@.len() != "modified_at"@.len());
    let w = with_conditions(list_select(), f);
    let d = asked_direction(f);
    let tail = " LIMIT ? OFFSET ?"@;
    assert(" ORDER BY f.size_bytes "@ =~= " ORDER BY "@ + "f.size_bytes"@ + " "@);
    assert(" ORDER BY f.modified_at "@ =~= " ORDER BY "@ + "f.modified_at"@ + " "@);
    assert(" ORDER BY f.duration_seconds "@ =~= " ORDER BY "@ + "f.duration_seconds"@ + " "@);
    assert(" ORDER BY f.name "@ =~= " ORDER BY "@ + "f.name"@ + " "@);
    assert(sort_direction(f.sort_order) == d);
    let c = sort_column(f.sort_by);
    assert(list_sql(f) =~= w + (" ORDER BY "@ + c + " "@) + d + tail);
}

} // verus!
