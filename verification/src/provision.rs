//! The statements that set the test table up: a table of one id column and
//! a number of text columns, one seed row with id 0, and copies of the seed
//! row in batches, each with the ids that follow its offset.

use crate::args::{count_of_text, digit_value, digits_value};
use vstd::prelude::*;

verus! {

/// The number of text columns of the test table.
pub const SEED_COLUMN_COUNT: usize = 50;

/// The number of rows that one copying statement adds.
pub const SEED_BATCH_ROWS: usize = 10000;

/// The character of a decimal digit.
pub open spec fn digit_char(digit: nat) -> char {
    ('0' as nat + digit) as char
}

/// A number written in decimal digits, without a sign and without leading
/// zeros.
pub open spec fn decimal_text(n: nat) -> Seq<char>
    decreases n,
{
    if n < 10 {
        seq![digit_char(n)]
    } else {
        decimal_text(n / 10) + seq![digit_char(n % 10)]
    }
}

/// The definitions of the text columns `col1` to `col<count>`, each closed
/// by a comma.
pub open spec fn column_definitions(count: nat) -> Seq<char>
    decreases count,
{
    if count == 0 {
        Seq::<char>::empty()
    } else {
        column_definitions((count - 1) as nat) + " col"@ + decimal_text(count)
            + " varchar2(4000),"@
    }
}

/// The statement that creates the test table with `count` text columns.
pub open spec fn create_table_text(count: nat) -> Seq<char> {
    "create table test1 (id number(18) not null,"@ + column_definitions(count)
        + " constraint pk_test1 primary key (id))"@
}

/// The names `col1` to `col<count>`, separated by commas.
pub open spec fn column_names(count: nat) -> Seq<char>
    decreases count,
{
    if count == 0 {
        Seq::<char>::empty()
    } else if count == 1 {
        " col"@ + decimal_text(count)
    } else {
        column_names((count - 1) as nat) + ","@ + " col"@ + decimal_text(count)
    }
}

/// The numbers 1 to `count`, separated by commas: the seed row holds in
/// each text column the number of the column.
pub open spec fn seed_values(count: nat) -> Seq<char>
    decreases count,
{
    if count == 0 {
        Seq::<char>::empty()
    } else if count == 1 {
        " "@ + decimal_text(count)
    } else {
        seed_values((count - 1) as nat) + ","@ + " "@ + decimal_text(count)
    }
}

/// The statement that inserts the seed row, with id 0, into a test table
/// of `count` text columns.
pub open spec fn insert_seed_text(count: nat) -> Seq<char> {
    "insert into test1 (id,"@ + column_names(count) + ") values (0,"@ + seed_values(count) + ")"@
}

/// The value of the text column `column` in the copies of a batch: the
/// words `row` and `col` around the number of the row and the seed value of
/// the column.
pub open spec fn copied_value(offset: nat, column: nat) -> Seq<char> {
    " 'row'||(level+"@ + decimal_text(offset) + ")||'col'||col"@ + decimal_text(column)
}

/// The values of the text columns 1 to `count` in the copies of a batch,
/// separated by commas.
pub open spec fn copied_values(offset: nat, count: nat) -> Seq<char>
    decreases count,
{
    if count == 0 {
        Seq::<char>::empty()
    } else if count == 1 {
        copied_value(offset, count)
    } else {
        copied_values(offset, (count - 1) as nat) + ","@ + copied_value(offset, count)
    }
}

/// The statement that copies the seed row ten thousand times, into the rows
/// with the ids `offset + 1` to `offset + 10000`.
pub open spec fn copy_batch_text(offset: nat, count: nat) -> Seq<char> {
    "insert into test1 select * from (select id + level + "@ + decimal_text(offset) + ","@
        + copied_values(offset, count)
        + " from (select * from test1 where id = 0) connect by level <= 10000)"@
}

/// The number of batches that bring the table to at least `rows` rows.
pub open spec fn batch_count(rows: int) -> int {
    if rows <= 0 {
        0
    } else {
        (rows - 1) / (SEED_BATCH_ROWS as int) + 1
    }
}

/// The offsets of the batches that bring the table to at least `rows` rows:
/// the multiples of the batch size below `rows`.
pub open spec fn batch_offsets_of(rows: int) -> Seq<usize> {
    Seq::new(batch_count(rows) as nat, |k: int| (k * SEED_BATCH_ROWS) as usize)
}

/// A number written in decimal digits is read back as the same number.
pub proof fn lemma_decimal_text_reads_back(n: nat)
    ensures
        decimal_text(n).len() >= 1,
        decimal_text(n)[0] != '+',
        digits_value(decimal_text(n)) == Some(n),
        count_of_text(decimal_text(n)) == Some(n),
    decreases n,
{
    if n >= 10 {
        lemma_decimal_text_reads_back(n / 10);
        assert(decimal_text(n).drop_last() =~= decimal_text(n / 10));
        assert(digits_value(decimal_text(n).drop_last()) == Some(n / 10));
    }
}

/// The text of one decimal digit.
fn digit_text(digit: usize) -> (text: &'static str)
    requires
        digit < 10,
    ensures
        text@ == seq![digit_char(digit as nat)],
{
    proof {
        reveal_strlit("0");
        reveal_strlit("1");
        reveal_strlit("2");
        reveal_strlit("3");
        reveal_strlit("4");
        reveal_strlit("5");
        reveal_strlit("6");
        reveal_strlit("7");
        reveal_strlit("8");
        reveal_strlit("9");
    }
    let text = match digit {
        0 => "0",
        1 => "1",
        2 => "2",
        3 => "3",
        4 => "4",
        5 => "5",
        6 => "6",
        7 => "7",
        8 => "8",
        _ => "9",
    };
    text
}

/// Appends `n`, written in decimal digits, to `text`.
pub fn push_decimal(text: &mut String, n: usize)
    ensures
        final(text)@ == old(text)@ + decimal_text(n as nat),
    decreases n,
{
    if n >= 10 {
        push_decimal(text, n / 10);
    }
    text.append(digit_text(n % 10));
}

/// The statement that creates the test table: the id column, `count` text
/// columns named `col1`, `col2`, ... and the primary key on the id.
pub fn create_table_statement(count: usize) -> (statement: String)
    ensures
        statement@ == create_table_text(count as nat),
{
    let mut text = "create table test1 (id number(18) not null,".to_owned();
    let mut i: usize = 0;
    while i < count
        invariant
            i <= count,
            text@ == "create table test1 (id number(18) not null,"@ + column_definitions(i as nat),
        decreases count - i,
    {
        i = i + 1;
        text.append(" col");
        push_decimal(&mut text, i);
        text.append(" varchar2(4000),");
        assert(text@ =~= "create table test1 (id number(18) not null,"@ + column_definitions(
            i as nat,
        ));
    }
    text.append(" constraint pk_test1 primary key (id))");
    text
}

/// The statement that inserts the seed row: id 0, and in each of the `count`
/// text columns the number of the column.
pub fn insert_seed_statement(count: usize) -> (statement: String)
    ensures
        statement@ == insert_seed_text(count as nat),
{
    let mut text = "insert into test1 (id,".to_owned();
    let mut i: usize = 0;
    while i < count
        invariant
            i <= count,
            text@ == "insert into test1 (id,"@ + column_names(i as nat),
        decreases count - i,
    {
        i = i + 1;
        if i > 1 {
            text.append(",");
        }
        text.append(" col");
        push_decimal(&mut text, i);
        assert(text@ =~= "insert into test1 (id,"@ + column_names(i as nat));
    }
    text.append(") values (0,");
    let ghost head = text@;
    let mut j: usize = 0;
    while j < count
        invariant
            j <= count,
            head == "insert into test1 (id,"@ + column_names(count as nat) + ") values (0,"@,
            text@ == head + seed_values(j as nat),
        decreases count - j,
    {
        j = j + 1;
        if j > 1 {
            text.append(",");
        }
        text.append(" ");
        push_decimal(&mut text, j);
    }
    text.append(")");
    text
}

/// The statement that adds one batch of copies of the seed row to a test
/// table of `count` text columns: the rows with the ids `offset + 1` to
/// `offset + 10000`, each text column holding the row's number and the seed
/// value of the column.
pub fn copy_batch_statement(offset: usize, count: usize) -> (statement: String)
    ensures
        statement@ == copy_batch_text(offset as nat, count as nat),
{
    let mut text = "insert into test1 select * from (select id + level + ".to_owned();
    push_decimal(&mut text, offset);
    text.append(",");
    let ghost head = text@;
    let mut i: usize = 0;
    while i < count
        invariant
            i <= count,
            head == "insert into test1 select * from (select id + level + "@ + decimal_text(
                offset as nat,
            ) + ","@,
            text@ == head + copied_values(offset as nat, i as nat),
        decreases count - i,
    {
        i = i + 1;
        if i > 1 {
            text.append(",");
        }
        text.append(" 'row'||(level+");
        push_decimal(&mut text, offset);
        text.append(")||'col'||col");
        push_decimal(&mut text, i);
    }
    text.append(" from (select * from test1 where id = 0) connect by level <= 10000)");
    text
}

/// The offsets of the batches to copy so that the table holds at least
/// `rows` rows: 0, 10000, 20000, ... as long as they are below `rows`.
pub fn batch_offsets(rows: usize) -> (offsets: Vec<usize>)
    ensures
        offsets@ == batch_offsets_of(rows as int),
{
    let count: usize = if rows == 0 {
        0
    } else {
        (rows - 1) / SEED_BATCH_ROWS + 1
    };
    let mut offsets: Vec<usize> = Vec::new();
    while offsets.len() < count
        invariant
            count == batch_count(rows as int),
            offsets.len() <= count,
            offsets@ == Seq::new(offsets.len() as nat, |k: int| (k * SEED_BATCH_ROWS) as usize),
        decreases count - offsets.len(),
    {
        offsets.push(offsets.len() * SEED_BATCH_ROWS);
    }
    offsets
}

} // verus!
