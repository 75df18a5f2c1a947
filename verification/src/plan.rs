//! How the rows of a table are stored: the columns that its header names,
//! the type of each, and the statement that stores a row.

use crate::error::ImportError;
use crate::text::{chars_of, copy_of, same_chars};
use crate::value::{coerce, is_stored_as, SqlValue};
use vstd::hash_map::StringHashMap;
use vstd::prelude::*;
use vstd::string::StringExecFns;

verus! {

/// The name and the type of a column, as characters.
pub open spec fn column_view(column: (String, String)) -> (Seq<char>, Seq<char>) {
    (column.0@, column.1@)
}

/// The names and types of `columns`, as characters.
pub open spec fn columns_view(columns: Seq<(String, String)>) -> Seq<(Seq<char>, Seq<char>)> {
    Seq::new(columns.len(), |i: int| column_view(columns[i]))
}

/// Those of `columns` whose name is one of `headers`, in their order.
pub open spec fn matched_columns(
    columns: Seq<(Seq<char>, Seq<char>)>,
    headers: Seq<Seq<char>>,
) -> Seq<(Seq<char>, Seq<char>)>
    decreases columns.len(),
{
    if columns.len() == 0 {
        Seq::empty()
    } else {
        let front = matched_columns(columns.drop_last(), headers);
        if headers.contains(columns.last().0) {
            front.push(columns.last())
        } else {
            front
        }
    }
}

/// The type of each column, by its name. Of two columns with one name the
/// later counts.
pub open spec fn type_map(columns: Seq<(Seq<char>, Seq<char>)>) -> Map<Seq<char>, Seq<char>>
    decreases columns.len(),
{
    if columns.len() == 0 {
        Map::empty()
    } else {
        type_map(columns.drop_last()).insert(columns.last().0, columns.last().1)
    }
}

/// The types that the store has for the columns that `headers` name.
pub open spec fn header_types(
    columns: Seq<(Seq<char>, Seq<char>)>,
    headers: Seq<Seq<char>>,
) -> Map<Seq<char>, Seq<char>> {
    type_map(matched_columns(columns, headers))
}

/// Every name in `type_map(columns)` is the name of one of the columns, and
/// there are finitely many.
proof fn lemma_type_map_names(columns: Seq<(Seq<char>, Seq<char>)>)
    ensures
        type_map(columns).dom().finite(),
        forall|name: Seq<char>| #[trigger]
            type_map(columns).contains_key(name) ==> exists|i: int|
                0 <= i < columns.len() && (#[trigger] columns[i]).0 == name,
    decreases columns.len(),
{
    if columns.len() > 0 {
        let front = columns.drop_last();
        lemma_type_map_names(front);
        assert forall|name: Seq<char>| #[trigger]
            type_map(columns).contains_key(name) implies exists|i: int|
            0 <= i < columns.len() && (#[trigger] columns[i]).0 == name by {
            if name == columns.last().0 {
                assert(columns[columns.len() - 1].0 == name);
            } else {
                assert(type_map(front).contains_key(name));
                let i = choose|i: int| 0 <= i < front.len() && (#[trigger] front[i]).0 == name;
                assert(columns[i].0 == name);
            }
        }
    }
}

/// Every matched column has a name that is one of the headers.
proof fn lemma_matched_names(columns: Seq<(Seq<char>, Seq<char>)>, headers: Seq<Seq<char>>)
    ensures
        forall|i: int|
            0 <= i < matched_columns(columns, headers).len() ==> headers.contains(
                (#[trigger] matched_columns(columns, headers)[i]).0,
            ),
    decreases columns.len(),
{
    if columns.len() > 0 {
        let front = matched_columns(columns.drop_last(), headers);
        let all = matched_columns(columns, headers);
        lemma_matched_names(columns.drop_last(), headers);
        assert forall|i: int| 0 <= i < all.len() implies headers.contains(
            (#[trigger] all[i]).0,
        ) by {
            if i < front.len() {
                assert(all[i] == front[i]);
            }
        }
    }
}

/// Where the store has as many types for the named columns as the header has
/// names, every name of the header has a type, and no name stands twice in
/// the header.
pub proof fn lemma_full_match(columns: Seq<(Seq<char>, Seq<char>)>, headers: Seq<Seq<char>>)
    requires
        header_types(columns, headers).len() == headers.len(),
    ensures
        forall|i: int|
            0 <= i < headers.len() ==> header_types(columns, headers).contains_key(
                #[trigger] headers[i],
            ),
        headers.no_duplicates(),
{
    let matched = matched_columns(columns, headers);
    let names = header_types(columns, headers).dom();
    lemma_type_map_names(matched);
    lemma_matched_names(columns, headers);
    assert(names.subset_of(headers.to_set())) by {
        assert forall|name: Seq<char>| names.contains(name) implies headers.to_set().contains(
            name,
        ) by {
            let i = choose|i: int| 0 <= i < matched.len() && (#[trigger] matched[i]).0 == name;
            assert(headers.contains(matched[i].0));
        }
    }
    headers.lemma_cardinality_of_set();
    vstd::set_lib::lemma_len_subset(names, headers.to_set());
    vstd::set_lib::lemma_subset_equality(names, headers.to_set());
    headers.lemma_no_dup_set_cardinality();
    assert forall|i: int| 0 <= i < headers.len() implies header_types(
        columns,
        headers,
    ).contains_key(#[trigger] headers[i]) by {
        assert(headers.to_set().contains(headers[i]));
    }
}

/// `parts` written one after the other, with `separator` between each two.
pub open spec fn joined(parts: Seq<Seq<char>>, separator: Seq<char>) -> Seq<char>
    decreases parts.len(),
{
    if parts.len() == 0 {
        Seq::empty()
    } else if parts.len() == 1 {
        parts[0]
    } else {
        joined(parts.drop_last(), separator) + separator + parts.last()
    }
}

/// `count` marks, each standing for a value that is handed over with the
/// statement.
pub open spec fn value_marks(count: nat) -> Seq<Seq<char>> {
    Seq::new(count, |i: int| "?"@)
}

/// The statement that stores one row in `table`: it names the columns in the
/// order of `headers`, and has one mark for each.
pub open spec fn insert_text(table: Seq<char>, headers: Seq<Seq<char>>) -> Seq<char> {
    "INSERT INTO "@ + table + "("@ + joined(headers, ","@) + ") VALUES ("@ + joined(
        value_marks(headers.len()),
        ", "@,
    ) + ")"@
}

/// Whether `name` is one of `names`.
fn contains_text(names: &[String], name: &String) -> (found: bool)
    ensures
        found == names.deep_view().contains(name@),
{
    let mut i: usize = 0;
    while i < names.len()
        invariant
            i <= names.len(),
            forall|k: int| 0 <= k < i ==> names.deep_view()[k] != name@,
        decreases names.len() - i,
    {
        if names[i] == *name {
            assert(names.deep_view()[i as int] == name@);
            return true;
        }
        i += 1;
    }
    false
}

/// `parts` written one after the other, with `separator` between each two.
fn join(parts: &Vec<String>, separator: &str) -> (text: String)
    ensures
        text@ == joined(parts.deep_view(), separator@),
{
    let mut text: String = String::new();
    let mut i: usize = 0;
    while i < parts.len()
        invariant
            i <= parts.len(),
            text@ == joined(parts.deep_view().take(i as int), separator@),
        decreases parts.len() - i,
    {
        let ghost before = text@;
        proof {
            assert(parts.deep_view().take(i + 1).drop_last() =~= parts.deep_view().take(i as int));
        }
        if i > 0 {
            text.append(separator);
        }
        text.append(parts[i].as_str());
        proof {
            if i == 0 {
                assert(before =~= Seq::<char>::empty());
                assert(text@ =~= parts.deep_view()[0]);
            }
        }
        i += 1;
    }
    proof {
        assert(parts.deep_view().take(parts.len() as int) =~= parts.deep_view());
    }
    text
}

/// How the rows of one table are stored: the columns of the header, and the
/// type that the store has for each.
pub struct ImportPlan {
    headers: Vec<String>,
    types: StringHashMap<String>,
}

impl ImportPlan {
    #[verifier::type_invariant]
    spec fn well_formed(self) -> bool {
        forall|i: int|
            0 <= i < self.headers.len() ==> self.types@.contains_key(
                #[trigger] self.headers.deep_view()[i],
            )
    }

    /// The column names of the header, in order.
    pub closed spec fn headers(&self) -> Seq<Seq<char>> {
        self.headers.deep_view()
    }

    /// The type of each column, by its name.
    pub closed spec fn types(&self) -> Map<Seq<char>, Seq<char>> {
        self.types@.map_values(|t: String| t@)
    }

    /// Matches the header of a table with the columns of the store, each
    /// given by its name and its type. The plan is made only if the store has
    /// a column for every name of the header, and no name stands twice.
    pub fn new(columns: &Vec<(String, String)>, headers: &[String]) -> (result: Result<
        ImportPlan,
        ImportError,
    >)
        ensures
            match result {
                Ok(plan) => {
                    &&& header_types(columns_view(columns@), headers.deep_view()).len()
                        == headers.len()
                    &&& plan.headers() == headers.deep_view()
                    &&& plan.types() == header_types(columns_view(columns@), headers.deep_view())
                },
                Err(ImportError::ColumnMismatch { columns: matched, headers: names }) => {
                    &&& header_types(columns_view(columns@), headers.deep_view()).len()
                        != headers.len()
                    &&& columns_view(matched@) == matched_columns(
                        columns_view(columns@),
                        headers.deep_view(),
                    )
                    &&& names.deep_view() == headers.deep_view()
                },
                Err(_) => false,
            },
    {
        let ghost all = columns_view(columns@);
        let ghost wanted = headers.deep_view();
        let mut matched: Vec<(String, String)> = Vec::new();
        let mut i: usize = 0;
        while i < columns.len()
            invariant
                i <= columns.len(),
                all == columns_view(columns@),
                wanted == headers.deep_view(),
                columns_view(matched@) == matched_columns(all.take(i as int), wanted),
            decreases columns.len() - i,
        {
            proof {
                assert(all.take(i + 1).drop_last() =~= all.take(i as int));
            }
            if contains_text(headers, &columns[i].0) {
                let ghost before = columns_view(matched@);
                matched.push((columns[i].0.clone(), columns[i].1.clone()));
                proof {
                    assert(columns_view(matched@) =~= before.push(all[i as int]));
                }
            }
            i += 1;
        }
        proof {
            assert(all.take(columns.len() as int) =~= all);
        }
        let ghost pairs = columns_view(matched@);
        let mut types: StringHashMap<String> = StringHashMap::new();
        let mut j: usize = 0;
        while j < matched.len()
            invariant
                j <= matched.len(),
                pairs == columns_view(matched@),
                types@.map_values(|t: String| t@) == type_map(pairs.take(j as int)),
            decreases matched.len() - j,
        {
            proof {
                assert(pairs.take(j + 1).drop_last() =~= pairs.take(j as int));
            }
            let ghost before = types@;
            let name: String = matched[j].0.clone();
            let sql_type: String = matched[j].1.clone();
            types.insert(name, sql_type);
            proof {
                assert(types@.map_values(|t: String| t@) =~= before.map_values(
                    |t: String| t@,
                ).insert(name@, sql_type@));
            }
            j += 1;
        }
        proof {
            assert(pairs.take(matched.len() as int) =~= pairs);
            assert(types@.map_values(|t: String| t@).dom() =~= types@.dom());
        }
        if types.len() != headers.len() {
            return Err(ImportError::ColumnMismatch { columns: matched, headers: copy_of(headers) });
        }
        proof {
            lemma_full_match(all, wanted);
            assert forall|i: int| 0 <= i < wanted.len() implies types@.contains_key(
                #[trigger] wanted[i],
            ) by {
                assert(header_types(all, wanted).contains_key(wanted[i]));
            }
        }
        Ok(ImportPlan { headers: copy_of(headers), types })
    }

    /// The number of columns.
    pub fn width(&self) -> (width: usize)
        ensures
            width == self.headers().len(),
    {
        self.headers.len()
    }

    /// What is stored for `field` in the column at position `column`.
    /// `row_number` is the number of rows stored before this one.
    pub fn coerce_field(&self, column: usize, field: &str, row_number: usize) -> (result: Result<
        SqlValue,
        ImportError,
    >)
        requires
            column < self.headers().len(),
        ensures
            self.types().contains_key(self.headers()[column as int]),
            is_stored_as(field@, self.types()[self.headers()[column as int]], row_number, result),
    {
        proof {
            use_type_invariant(self);
        }
        let name: &str = self.headers[column].as_str();
        assert(name@ == self.headers.deep_view()[column as int]);
        match self.types.get(name) {
            Some(sql_type) => coerce(field, sql_type.as_str(), row_number),
            None => vstd::pervasive::unreached(),
        }
    }

    /// The statement that stores one row of this table in `table_name`.
    pub fn insert_statement(&self, table_name: &str) -> (text: String)
        ensures
            text@ == insert_text(table_name@, self.headers()),
    {
        let mut marks: Vec<String> = Vec::with_capacity(self.headers.len());
        let mut i: usize = 0;
        while i < self.headers.len()
            invariant
                i <= self.headers.len(),
                marks.deep_view() == value_marks(i as nat),
            decreases self.headers.len() - i,
        {
            let ghost before = marks.deep_view();
            marks.push("?".to_owned());
            proof {
                assert(marks.deep_view() =~= before.push("?"@));
                assert(before.push("?"@) =~= value_marks((i + 1) as nat));
            }
            i += 1;
        }
        let mut text: String = "INSERT INTO ".to_owned();
        text.append(table_name);
        text.append("(");
        text.append(join(&self.headers, ",").as_str());
        text.append(") VALUES (");
        text.append(join(&marks, ", ").as_str());
        text.append(")");
        text
    }
}

/// Whether the rows of `table_name` may point to rows of the same table that
/// are stored after them, so that the store must put off its checks of such
/// links until all rows are in.
pub fn links_within(table_name: &str) -> (within: bool)
    ensures
        within == (table_name@ == "stops"@),
{
    let name: Vec<char> = chars_of(table_name);
    let stops: Vec<char> = chars_of("stops");
    same_chars(&name, &stops)
}

/// Whether progress is reported after `rows` rows: after every 16384th.
pub fn report_due(rows: usize) -> (due: bool)
    ensures
        due == (rows % 16384 == 0),
{
    rows % 16384 == 0
}

} // verus!
