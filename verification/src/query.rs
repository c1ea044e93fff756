//! The query synthesizer: builds parameterized statement text from a
//! descriptor's storage location and ordered column list.
//!
//! Positional placeholders are generated purely from the column list's
//! length, so the text of every statement is a function of the descriptor
//! alone; each builder's contract states that text exactly.

use vstd::prelude::*;

use crate::handles::Record;
use crate::models::DBImage;

verus! {

/// The decimal digit character for one digit value.
pub open spec fn digit_char(d: nat) -> char {
    if d == 0 {
        '0'
    } else if d == 1 {
        '1'
    } else if d == 2 {
        '2'
    } else if d == 3 {
        '3'
    } else if d == 4 {
        '4'
    } else if d == 5 {
        '5'
    } else if d == 6 {
        '6'
    } else if d == 7 {
        '7'
    } else if d == 8 {
        '8'
    } else {
        '9'
    }
}

/// The decimal digit string of a number, most significant digit first.
pub open spec fn spec_digits(n: nat) -> Seq<char>
    decreases n,
{
    if n < 10 {
        seq![digit_char(n)]
    } else {
        spec_digits(n / 10).push(digit_char(n % 10))
    }
}

/// The placeholder list `$1,$2,...,$n`.
pub open spec fn spec_placeholders(n: nat) -> Seq<char>
    decreases n,
{
    if n == 0 {
        Seq::<char>::empty()
    } else if n == 1 {
        seq!['$'] + spec_digits(1)
    } else {
        spec_placeholders((n - 1) as nat) + seq![','] + seq!['$'] + spec_digits(n)
    }
}

/// The column list joined with commas.
pub open spec fn spec_joined(fs: Seq<Seq<char>>) -> Seq<char>
    decreases fs.len(),
{
    if fs.len() == 0 {
        Seq::<char>::empty()
    } else if fs.len() == 1 {
        fs[0]
    } else {
        spec_joined(fs.drop_last()) + seq![','] + fs.last()
    }
}

/// The assignment list `f1 = $1, f2 = $2, ...`.
pub open spec fn spec_set_list(fs: Seq<Seq<char>>) -> Seq<char>
    decreases fs.len(),
{
    if fs.len() == 0 {
        Seq::<char>::empty()
    } else if fs.len() == 1 {
        fs[0] + " = $"@ + spec_digits(1)
    } else {
        spec_set_list(fs.drop_last()) + ", "@ + fs.last() + " = $"@ + spec_digits(fs.len())
    }
}

/// The insert statement for a storage location and column list.
pub open spec fn spec_insert_query(table: Seq<char>, fs: Seq<Seq<char>>) -> Seq<char> {
    "INSERT INTO "@ + table + " ("@ + spec_joined(fs) + ") VALUES ("@ + spec_placeholders(fs.len())
        + ") RETURNING *;"@
}

/// The select-all statement for a storage location.
pub open spec fn spec_select_all_query(table: Seq<char>) -> Seq<char> {
    "SELECT * FROM "@ + table + ";"@
}

/// The select-one statement: equality filter on the identifier.
pub open spec fn spec_select_one_query(table: Seq<char>) -> Seq<char> {
    "SELECT * FROM "@ + table + " WHERE id = $1;"@
}

/// The delete-one statement: equality filter on the identifier, returning
/// the removed row.
pub open spec fn spec_delete_one_query(table: Seq<char>) -> Seq<char> {
    "DELETE FROM "@ + table + " WHERE id = $1 RETURNING *;"@
}

/// The unconditional delete statement.
pub open spec fn spec_delete_all_query(table: Seq<char>) -> Seq<char> {
    "DELETE FROM "@ + table + ";"@
}

/// The update statement: set every declared column, filter on the
/// identifier bound after the columns.
pub open spec fn spec_update_query(table: Seq<char>, fs: Seq<Seq<char>>) -> Seq<char> {
    "UPDATE "@ + table + " SET "@ + spec_set_list(fs) + " WHERE id = $"@ + spec_digits(
        fs.len() + 1,
    ) + ";"@
}

/// The flattened join: each parent row against the lateral unnesting of its
/// image identifier list, joined to the image rows, ordered by (parent
/// identifier, image identifier). The ordering is a correctness
/// precondition of the regrouping pass, not incidental.
pub open spec fn spec_join_query(table: Seq<char>, images_table: Seq<char>) -> Seq<char> {
    "SELECT d.*, i.* FROM "@ + table
        + " d LEFT JOIN LATERAL unnest(d.img_ids) AS img_id ON true LEFT JOIN "@ + images_table
        + " i ON i.id = img_id ORDER BY d.id, i.id;"@
}

/// The decimal digit string of a number.
pub fn u64_to_string(n: u64) -> (r: String)
    ensures
        r@ == spec_digits(n as nat),
    decreases n,
{
    if n < 10 {
        digit_string(n)
    } else {
        let mut r = u64_to_string(n / 10);
        let d = digit_string(n % 10);
        r.append(d.as_str());
        r
    }
}

/// The single decimal digit string for a digit value.
fn digit_string(d: u64) -> (r: String)
    requires
        d < 10,
    ensures
        r@ == seq![digit_char(d as nat)],
{
    let s: &str = if d == 0 {
        "0"
    } else if d == 1 {
        "1"
    } else if d == 2 {
        "2"
    } else if d == 3 {
        "3"
    } else if d == 4 {
        "4"
    } else if d == 5 {
        "5"
    } else if d == 6 {
        "6"
    } else if d == 7 {
        "7"
    } else if d == 8 {
        "8"
    } else {
        "9"
    };
    proof {
        reveal_strlit("0");
        reveal_strlit("1");
        reveal_strlit("2");
        reveal_strlit("3");
        reveal_strlit("4");
        reveal_strlit("5");
        reveal_strlit("6");
        reveal_strlit("7");
        reveal_strlit("8");
        reveal_strlit("9");
        assert(s@ =~= seq![digit_char(d as nat)]);
    }
    String::from_str(s)
}

/// The placeholder list `$1,$2,...,$n`.
pub fn placeholders(n: usize) -> (r: String)
    ensures
        r@ == spec_placeholders(n as nat),
{
    let mut r = String::new();
    let mut i: usize = 0;
    while i < n
        invariant
            i <= n,
            r@ == spec_placeholders(i as nat),
        decreases n - i,
    {
        if i > 0 {
            r.append(",");
        }
        r.append("$");
        let digits = u64_to_string((i + 1) as u64);
        r.append(digits.as_str());
        proof {
            reveal_strlit(",");
            reveal_strlit("$");
            assert(r@ =~= spec_placeholders((i + 1) as nat));
        }
        i = i + 1;
    }
    r
}

/// The column list joined with commas.
pub fn join_fields(fields: &Vec<String>) -> (r: String)
    ensures
        r@ == spec_joined(fields.deep_view()),
{
    let mut r = String::new();
    let mut i: usize = 0;
    while i < fields.len()
        invariant
            i <= fields.len(),
            r@ == spec_joined(fields.deep_view().take(i as int)),
        decreases fields.len() - i,
    {
        if i > 0 {
            r.append(",");
        }
        r.append(fields[i].as_str());
        proof {
            reveal_strlit(",");
            let fs = fields.deep_view();
            assert(fs.take(i + 1).drop_last() =~= fs.take(i as int));
            assert(fs.take(i + 1).last() == fs[i as int]);
            assert(fs[i as int] == fields@[i as int]@);
            assert(r@ =~= spec_joined(fs.take(i + 1)));
        }
        i = i + 1;
    }
    proof {
        assert(fields.deep_view().take(fields@.len() as int) =~= fields.deep_view());
    }
    r
}

/// The assignment list `f1 = $1, f2 = $2, ...`.
pub fn set_list(fields: &Vec<String>) -> (r: String)
    ensures
        r@ == spec_set_list(fields.deep_view()),
{
    let mut r = String::new();
    let mut i: usize = 0;
    while i < fields.len()
        invariant
            i <= fields.len(),
            r@ == spec_set_list(fields.deep_view().take(i as int)),
        decreases fields.len() - i,
    {
        if i > 0 {
            r.append(", ");
        }
        r.append(fields[i].as_str());
        r.append(" = $");
        let digits = u64_to_string((i + 1) as u64);
        r.append(digits.as_str());
        proof {
            let fs = fields.deep_view();
            assert(fs.take(i + 1).drop_last() =~= fs.take(i as int));
            assert(fs.take(i + 1).last() == fs[i as int]);
            assert(fs[i as int] == fields@[i as int]@);
            assert(fs.take(i + 1).len() == i + 1);
            assert(r@ =~= spec_set_list(fs.take(i + 1)));
        }
        i = i + 1;
    }
    proof {
        assert(fields.deep_view().take(fields@.len() as int) =~= fields.deep_view());
    }
    r
}

/// The insert statement of a kind: every declared column, one positional
/// placeholder per column, returning the created row.
pub fn insert_query<D: Record>() -> (r: String)
    ensures
        r@ == spec_insert_query(D::spec_table_name(), D::spec_fields()),
{
    let fields = D::fields();
    let table = D::table_name();
    let joined = join_fields(&fields);
    let ghost fs = fields.deep_view();
    proof {
        assert(fs.len() == fields@.len());
    }
    let binds = placeholders(fields.len());
    let mut q = String::from_str("INSERT INTO ");
    q.append(table.as_str());
    q.append(" (");
    q.append(joined.as_str());
    q.append(") VALUES (");
    q.append(binds.as_str());
    q.append(") RETURNING *;");
    proof {
        assert(q@ =~= spec_insert_query(D::spec_table_name(), D::spec_fields()));
    }
    q
}

/// The select-all statement of a kind.
pub fn select_all_query<D: Record>() -> (r: String)
    ensures
        r@ == spec_select_all_query(D::spec_table_name()),
{
    let mut q = String::from_str("SELECT * FROM ");
    let table = D::table_name();
    q.append(table.as_str());
    q.append(";");
    proof {
        assert(q@ =~= spec_select_all_query(D::spec_table_name()));
    }
    q
}

/// The select-one statement of a kind.
pub fn select_one_query<D: Record>() -> (r: String)
    ensures
        r@ == spec_select_one_query(D::spec_table_name()),
{
    let mut q = String::from_str("SELECT * FROM ");
    let table = D::table_name();
    q.append(table.as_str());
    q.append(" WHERE id = $1;");
    proof {
        assert(q@ =~= spec_select_one_query(D::spec_table_name()));
    }
    q
}

/// The delete-one statement of a kind.
pub fn delete_one_query<D: Record>() -> (r: String)
    ensures
        r@ == spec_delete_one_query(D::spec_table_name()),
{
    let mut q = String::from_str("DELETE FROM ");
    let table = D::table_name();
    q.append(table.as_str());
    q.append(" WHERE id = $1 RETURNING *;");
    proof {
        assert(q@ =~= spec_delete_one_query(D::spec_table_name()));
    }
    q
}

/// The unconditional delete statement of a kind.
pub fn delete_all_query<D: Record>() -> (r: String)
    ensures
        r@ == spec_delete_all_query(D::spec_table_name()),
{
    let mut q = String::from_str("DELETE FROM ");
    let table = D::table_name();
    q.append(table.as_str());
    q.append(";");
    proof {
        assert(q@ =~= spec_delete_all_query(D::spec_table_name()));
    }
    q
}

/// The update statement of a kind: set every declared column, filter on the
/// identifier bound after the columns.
pub fn update_query<D: Record>() -> (r: String)
    requires
        D::spec_fields().len() < u64::MAX,
    ensures
        r@ == spec_update_query(D::spec_table_name(), D::spec_fields()),
{
    let fields = D::fields();
    let table = D::table_name();
    proof {
        assert(fields.deep_view().len() == fields@.len());
    }
    let assignments = set_list(&fields);
    let mut q = String::from_str("UPDATE ");
    q.append(table.as_str());
    q.append(" SET ");
    q.append(assignments.as_str());
    q.append(" WHERE id = $");
    let digits = u64_to_string(fields.len() as u64 + 1);
    q.append(digits.as_str());
    q.append(";");
    proof {
        assert(q@ =~= spec_update_query(D::spec_table_name(), D::spec_fields()));
    }
    q
}

/// The flattened-join statement of a parent kind against the image rows.
pub fn join_query<D: Record>() -> (r: String)
    ensures
        r@ == spec_join_query(D::spec_table_name(), DBImage::spec_table_name()),
{
    let mut q = String::from_str("SELECT d.*, i.* FROM ");
    let table = D::table_name();
    q.append(table.as_str());
    q.append(" d LEFT JOIN LATERAL unnest(d.img_ids) AS img_id ON true LEFT JOIN ");
    let images = DBImage::table_name();
    q.append(images.as_str());
    q.append(" i ON i.id = img_id ORDER BY d.id, i.id;");
    proof {
        assert(q@ =~= spec_join_query(D::spec_table_name(), DBImage::spec_table_name()));
    }
    q
}

} // verus!
