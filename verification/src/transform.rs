//! Text-processing commands: a named operation paired with its input, and
//! its execution to a result string.

use vstd::prelude::*;

use crate::err::RuntimeError;
use crate::table::{csv_rows_of, spec_render, spec_table, CsvTable};
use crate::text::{
    lower_of, remove_spaces, reverse_chars, slug_of, slugify, spec_decimal, spec_remove_spaces,
    to_lower, to_upper, trim, trim_of, u64_to_string, upper_of,
};

verus! {

/// One operation applied to one input string.
pub enum Command {
    LowerCase(String),
    UpperCase(String),
    NoSpaces(String),
    Slugify(String),
    Length(String),
    Reverse(String),
    /// The input is a CSV document rendered as a table.
    Csv(String),
    /// Not an operation: tells a processing loop to stop.
    PoisonPill,
}

fn op_is(operation: &str, kw: &str) -> (r: bool)
    ensures
        r == (operation@ == kw@),
{
    let a = String::from_str(operation);
    let b = String::from_str(kw);
    a.eq(&b)
}

impl Command {
    /// The command a keyword names, holding the argument; `None` exactly
    /// when the keyword names none.
    pub fn from_string_and_arg(operation: &str, arg: String) -> (r: Option<Command>)
        ensures
            operation@ == "lowercase"@ ==> (r matches Some(c) && c == Command::LowerCase(arg)),
            operation@ == "uppercase"@ ==> (r matches Some(c) && c == Command::UpperCase(arg)),
            operation@ == "no-spaces"@ ==> (r matches Some(c) && c == Command::NoSpaces(arg)),
            operation@ == "slugify"@ ==> (r matches Some(c) && c == Command::Slugify(arg)),
            operation@ == "length"@ ==> (r matches Some(c) && c == Command::Length(arg)),
            operation@ == "reverse"@ ==> (r matches Some(c) && c == Command::Reverse(arg)),
            operation@ == "csv"@ ==> (r matches Some(c) && c == Command::Csv(arg)),
            operation@ != "lowercase"@ && operation@ != "uppercase"@ && operation@ != "no-spaces"@
                && operation@ != "slugify"@ && operation@ != "length"@ && operation@ != "reverse"@
                && operation@ != "csv"@ ==> r is None,
    {
        proof {
            reveal_strlit("lowercase");
            reveal_strlit("uppercase");
            reveal_strlit("no-spaces");
            reveal_strlit("slugify");
            reveal_strlit("length");
            reveal_strlit("reverse");
            reveal_strlit("csv");
            assert("uppercase"@[0] == 'u' && "lowercase"@[0] == 'l' && "no-spaces"@[0] == 'n');
            assert("slugify"@[0] == 's' && "reverse"@[0] == 'r' && "length"@[0] == 'l' && "csv"@[0]
                == 'c');
            assert("length"@.len() == 6 && "lowercase"@.len() == 9 && "slugify"@.len() == 7
                && "length"@[1] == 'e');
        }
        if op_is(operation, "lowercase") {
            Some(Command::LowerCase(arg))
        } else if op_is(operation, "uppercase") {
            Some(Command::UpperCase(arg))
        } else if op_is(operation, "no-spaces") {
            Some(Command::NoSpaces(arg))
        } else if op_is(operation, "slugify") {
            Some(Command::Slugify(arg))
        } else if op_is(operation, "length") {
            Some(Command::Length(arg))
        } else if op_is(operation, "reverse") {
            Some(Command::Reverse(arg))
        } else if op_is(operation, "csv") {
            Some(Command::Csv(arg))
        } else {
            None
        }
    }

    /// Run the command on its input. Every operation is total except `Csv`,
    /// which fails exactly on input the CSV reader rejects; the poison pill
    /// produces the empty string.
    pub fn execute(&self) -> (r: Result<String, RuntimeError>)
        ensures
            self matches Command::LowerCase(s) ==> (r matches Ok(t) && t@ == lower_of(s@)),
            self matches Command::UpperCase(s) ==> (r matches Ok(t) && t@ == upper_of(s@)),
            self matches Command::NoSpaces(s) ==> (r matches Ok(t) && t@ == spec_remove_spaces(
                s@,
            )),
            self matches Command::Slugify(s) ==> (r matches Ok(t) && t@ == slug_of(s@)),
            self matches Command::Length(s) ==> (r matches Ok(t) && t@ == spec_decimal(
                trim_of(s@).len() as nat,
            )),
            self matches Command::Reverse(s) ==> (r matches Ok(t) && t@ == trim_of(s@).reverse()),
            self matches Command::Csv(s) ==> match csv_rows_of(s@) {
                Some(all) => r matches Ok(t) && t@ == spec_render(spec_table(all)),
                None => r matches Err(e) && e@ == "Malformed CSV input"@,
            },
            self is PoisonPill ==> (r matches Ok(t) && t@ == Seq::<char>::empty()),
    {
        match self {
            Command::LowerCase(s) => Ok(to_lower(s.as_str())),
            Command::UpperCase(s) => Ok(to_upper(s.as_str())),
            Command::NoSpaces(s) => Ok(remove_spaces(s.as_str())),
            Command::Slugify(s) => Ok(slugify(s.as_str())),
            Command::Length(s) => {
                let trimmed = trim(s.as_str());
                let count = trimmed.as_str().unicode_len();
                Ok(u64_to_string(count as u64))
            },
            Command::Reverse(s) => {
                let trimmed = trim(s.as_str());
                Ok(reverse_chars(trimmed.as_str()))
            },
            Command::Csv(s) => {
                match CsvTable::from_string(s.as_str()) {
                    Ok(table) => Ok(table.render()),
                    Err(e) => Err(e),
                }
            },
            Command::PoisonPill => Ok(String::new()),
        }
    }
}

} // verus!
