//! The settings that a run is started with, as the command line gave them.

use crate::config::ConfigError;
use crate::text::{chars_of, contains, lowercase_of, occurs_in, to_lowercase};
use vstd::prelude::*;

verus! {

/// The number of rows that a run tests with unless the command line names
/// another.
pub const DEFAULT_ROW_COUNT: usize = 2000000;

/// The value of a decimal digit.
pub open spec fn digit_value(c: char) -> Option<nat> {
    if '0' <= c <= '9' {
        Some((c as nat - '0' as nat) as nat)
    } else {
        None
    }
}

/// The number that a string of decimal digits denotes, the empty string
/// denoting zero; `None` where a character is no digit.
pub open spec fn digits_value(digits: Seq<char>) -> Option<nat>
    decreases digits.len(),
{
    if digits.len() == 0 {
        Some(0)
    } else {
        match (digits_value(digits.drop_last()), digit_value(digits.last())) {
            (Some(value), Some(digit)) => Some(10 * value + digit),
            _ => None,
        }
    }
}

/// The number that a text denotes: an optional plus sign and then at least
/// one decimal digit, with nothing before, between or after them.
pub open spec fn count_of_text(text: Seq<char>) -> Option<nat> {
    let digits = if text.len() > 0 && text[0] == '+' {
        text.subrange(1, text.len() as int)
    } else {
        text
    };
    if digits.len() == 0 {
        None
    } else {
        digits_value(digits)
    }
}

/// The machine word that a text denotes, if it denotes a number and the
/// number fits.
pub open spec fn parsed_count(text: Seq<char>) -> Option<usize> {
    match count_of_text(text) {
        Some(value) => if value <= usize::MAX {
            Some(value as usize)
        } else {
            None
        },
        None => None,
    }
}

/// A string of digits denotes at least what any of its prefixes denotes, and
/// a string with a character that is no digit denotes nothing.
proof fn lemma_digits_value_of_prefix(digits: Seq<char>, n: int)
    requires
        0 <= n <= digits.len(),
    ensures
        digits_value(digits) is Some ==> digits_value(digits.take(n)) is Some && digits_value(
            digits.take(n),
        ).unwrap() <= digits_value(digits).unwrap(),
        digits_value(digits) is Some ==> forall|i: int|
            0 <= i < digits.len() ==> digit_value(#[trigger] digits[i]) is Some,
    decreases digits.len(),
{
    if digits.len() > 0 {
        lemma_digits_value_of_prefix(digits.drop_last(), if n < digits.len() {
            n
        } else {
            n - 1
        });
        if n < digits.len() {
            assert(digits.take(n) =~= digits.drop_last().take(n));
        } else {
            assert(digits.take(n) =~= digits);
        }
        if digits_value(digits) is Some {
            assert forall|i: int| 0 <= i < digits.len() implies digit_value(
                #[trigger] digits[i],
            ) is Some by {
                if i < digits.len() - 1 {
                    assert(digits[i] == digits.drop_last()[i]);
                }
            }
        }
    }
}

/// Reads a number from a text: an optional plus sign and then decimal
/// digits. Any other character, a text without a digit, and a number too
/// large for a machine word give `None`.
pub fn parse_count(text: &str) -> (count: Option<usize>)
    ensures
        count == parsed_count(text@),
{
    let chars = chars_of(text);
    let len = chars.len();
    let first: usize = if len > 0 && chars[0] == '+' {
        1
    } else {
        0
    };
    if first == len {
        return None;
    }
    let ghost digits = if first == 1 {
        text@.subrange(1, len as int)
    } else {
        text@
    };
    let mut value: usize = 0;
    let mut i: usize = first;
    while i < len
        invariant
            first <= i <= len,
            chars@ == text@,
            len == text@.len(),
            digits.len() == len - first,
            count_of_text(text@) == digits_value(digits),
            forall|k: int| 0 <= k < digits.len() ==> digits[k] == text@[k + first],
            digits_value(digits.take(i - first)) == Some(value as nat),
        decreases len - i,
    {
        let c = chars[i];
        proof {
            lemma_digits_value_of_prefix(digits, i - first + 1);
            assert(digits.take(i - first + 1).drop_last() =~= digits.take(i - first));
        }
        let digit: usize = match c {
            '0' => 0,
            '1' => 1,
            '2' => 2,
            '3' => 3,
            '4' => 4,
            '5' => 5,
            '6' => 6,
            '7' => 7,
            '8' => 8,
            '9' => 9,
            _ => {
                return None;
            },
        };
        let next = match value.checked_mul(10) {
            Some(tenfold) => tenfold.checked_add(digit),
            None => None,
        };
        match next {
            Some(larger) => {
                value = larger;
            },
            None => {
                return None;
            },
        }
        i = i + 1;
    }
    proof {
        assert(digits.take(len - first) =~= digits);
    }
    Some(value)
}

/// What the settings hold.
pub struct ArgsView {
    pub username: Seq<char>,
    pub password: Seq<char>,
    pub dbname: Seq<char>,
    /// The number of workers as it was written, if it was given.
    pub threads: Option<Seq<char>>,
    pub rows: usize,
}

/// The settings of a run: whom to connect as, where to, how many table
/// segments to process at a time, and how many rows to test with.
pub struct Args {
    username: String,
    password: String,
    dbname: String,
    threads: Option<String>,
    rows: usize,
}

impl View for Args {
    type V = ArgsView;

    closed spec fn view(&self) -> ArgsView {
        ArgsView {
            username: self.username@,
            password: self.password@,
            dbname: self.dbname@,
            threads: match self.threads {
                Some(text) => Some(text@),
                None => None,
            },
            rows: self.rows,
        }
    }
}

/// The number of rows that the settings are made with: what the text
/// denotes, the default where there is no text, and nothing where the text
/// denotes no number.
pub open spec fn row_count_of(rows: Option<Seq<char>>) -> Option<usize> {
    match rows {
        Some(text) => parsed_count(text),
        None => Some(DEFAULT_ROW_COUNT),
    }
}

/// Tells whether a user name, given in lower case, asks for a connection
/// with the privilege of the database administrator: whether it holds the
/// word `sysdba`.
pub fn names_sysdba(lowercase_username: &str) -> (sysdba: bool)
    ensures
        sysdba == occurs_in(lowercase_username@, "sysdba"@),
{
    contains(lowercase_username, "sysdba")
}

impl Args {
    /// Makes the settings from the values of the command line. The number of
    /// workers is kept as written and read when it is asked for; the number
    /// of rows is read at once, and the settings are refused where it is no
    /// number.
    pub fn new(
        username: String,
        password: String,
        dbname: String,
        threads: Option<String>,
        rows: Option<&str>,
    ) -> (args: Result<Args, ConfigError>)
        ensures
            match row_count_of(
                match rows {
                    Some(text) => Some(text@),
                    None => None,
                },
            ) {
                Some(count) => args is Ok && args.unwrap()@ == (ArgsView {
                    username: username@,
                    password: password@,
                    dbname: dbname@,
                    threads: match threads {
                        Some(text) => Some(text@),
                        None => None,
                    },
                    rows: count,
                }),
                None => args matches Err(error) && error == ConfigError::InvalidRowCount,
            },
    {
        let count = match rows {
            Some(text) => parse_count(text),
            None => Some(DEFAULT_ROW_COUNT),
        };
        match count {
            Some(rows) => Ok(Args { username, password, dbname, threads, rows }),
            None => Err(ConfigError::InvalidRowCount),
        }
    }

    /// The number of table segments to process at a time, if one was given.
    /// A value that is no number is an error.
    pub fn num_threads(&self) -> (threads: Result<Option<usize>, ConfigError>)
        ensures
            threads == match self@.threads {
                None => Ok::<Option<usize>, ConfigError>(None),
                Some(text) => match parsed_count(text) {
                    Some(count) => Ok(Some(count)),
                    None => Err(ConfigError::InvalidThreadCount),
                },
            },
    {
        match &self.threads {
            None => Ok(None),
            Some(text) => match parse_count(text.as_str()) {
                Some(count) => Ok(Some(count)),
                None => Err(ConfigError::InvalidThreadCount),
            },
        }
    }

    /// The user to connect as.
    pub fn username(&self) -> (username: &str)
        ensures
            username@ == self@.username,
    {
        self.username.as_str()
    }

    /// Whether to connect with the privilege of the database administrator:
    /// whether the user name, whatever the case of its letters, holds the
    /// word `sysdba`.
    pub fn connects_as_sysdba(&self) -> (sysdba: bool)
        ensures
            sysdba == occurs_in(lowercase_of(self@.username), "sysdba"@),
    {
        let lower = to_lowercase(self.username.as_str());
        names_sysdba(lower.as_str())
    }

    /// The password of the user.
    pub fn password(&self) -> (password: &str)
        ensures
            password@ == self@.password,
    {
        self.password.as_str()
    }

    /// The name of the database service.
    pub fn dbname(&self) -> (dbname: &str)
        ensures
            dbname@ == self@.dbname,
    {
        self.dbname.as_str()
    }

    /// The number of table rows to test with.
    pub fn rows(&self) -> (rows: usize)
        ensures
            rows == self@.rows,
    {
        self.rows
    }
}

} // verus!
