//! The columns of the report.

use crate::options::Options;
use crate::text::bytes_equal;
use std::str::FromStr;
use vstd::prelude::*;
use vstd::string::StringExecFns;
use vstd::utf8::encode_utf8_decode_utf8;

verus! {

/// A column of the report.
#[derive(Clone, Copy, Eq, Hash, PartialEq, Structural)]
pub enum Field {
    Pid,
    User,
    Pss,
    Rss,
    Uss,
    Swap,
    Cmdline,
}

/// What a column holds, which decides how it is laid out and whether it has a total.
#[derive(Eq, PartialEq, Structural)]
pub enum FieldKind {
    Id,
    Size,
    Text,
}

/// The column that a lower-case name stands for, if any.
pub open spec fn field_named(name: Seq<char>) -> Option<Field> {
    if name == "pid"@ {
        Some(Field::Pid)
    } else if name == "user"@ {
        Some(Field::User)
    } else if name == "pss"@ {
        Some(Field::Pss)
    } else if name == "rss"@ {
        Some(Field::Rss)
    } else if name == "uss"@ {
        Some(Field::Uss)
    } else if name == "swap"@ {
        Some(Field::Swap)
    } else if name == "cmdline"@ {
        Some(Field::Cmdline)
    } else {
        None
    }
}

fn same_text(a: &str, b: &str) -> (r: bool)
    ensures
        r == (a@ == b@),
{
    proof {
        encode_utf8_decode_utf8(a@);
        encode_utf8_decode_utf8(b@);
    }
    bytes_equal(a.as_bytes(), b.as_bytes())
}

impl Field {
    /// The heading of the column.
    pub open spec fn heading(self) -> Seq<char> {
        match self {
            Field::Pid => "Pid"@,
            Field::User => "User"@,
            Field::Pss => "Pss"@,
            Field::Rss => "Rss"@,
            Field::Uss => "Uss"@,
            Field::Swap => "Swap"@,
            Field::Cmdline => "Cmdline"@,
        }
    }

    /// What the column holds. The owner is a number in a numeric report and a
    /// text otherwise.
    pub open spec fn kind_when(self, numeric: bool) -> FieldKind {
        match self {
            Field::Pid => FieldKind::Id,
            Field::Pss | Field::Rss | Field::Uss | Field::Swap => FieldKind::Size,
            Field::User => if numeric {
                FieldKind::Id
            } else {
                FieldKind::Text
            },
            Field::Cmdline => FieldKind::Text,
        }
    }

    /// Whether the column holds one of the four sizes.
    pub open spec fn is_size(self) -> bool {
        self is Pss || self is Rss || self is Uss || self is Swap
    }

    /// The heading of the column.
    pub fn name(self) -> (r: &'static str)
        ensures
            r@ == self.heading(),
    {
        match self {
            Field::Pid => "Pid",
            Field::User => "User",
            Field::Pss => "Pss",
            Field::Rss => "Rss",
            Field::Uss => "Uss",
            Field::Swap => "Swap",
            Field::Cmdline => "Cmdline",
        }
    }

    /// What the column holds under the given options.
    pub fn kind(self, opts: &Options) -> (r: FieldKind)
        ensures
            r == self.kind_when(opts.numeric),
    {
        match self {
            Field::Pid => FieldKind::Id,
            Field::Pss | Field::Rss | Field::Uss | Field::Swap => FieldKind::Size,
            Field::User => {
                if opts.numeric {
                    FieldKind::Id
                } else {
                    FieldKind::Text
                }
            },
            Field::Cmdline => FieldKind::Text,
        }
    }

    /// Reads a column's lower-case name. Any other text is refused, with a
    /// message that quotes it.
    pub fn parse(s: &str) -> (r: Result<Field, String>)
        ensures
            match field_named(s@) {
                Some(field) => r == Ok::<Field, String>(field),
                None => r is Err && r->Err_0@ == "Unknown field: "@ + s@,
            },
    {
        if same_text(s, "pid") {
            Ok(Field::Pid)
        } else if same_text(s, "user") {
            Ok(Field::User)
        } else if same_text(s, "pss") {
            Ok(Field::Pss)
        } else if same_text(s, "rss") {
            Ok(Field::Rss)
        } else if same_text(s, "uss") {
            Ok(Field::Uss)
        } else if same_text(s, "swap") {
            Ok(Field::Swap)
        } else if same_text(s, "cmdline") {
            Ok(Field::Cmdline)
        } else {
            let mut message = "Unknown field: ".to_owned();
            message.append(s);
            Err(message)
        }
    }
}

impl FromStr for Field {
    type Err = String;

    fn from_str(s: &str) -> (r: Result<Self, String>)
        ensures
            match field_named(s@) {
                Some(field) => r == Ok::<Field, String>(field),
                None => r is Err && r->Err_0@ == "Unknown field: "@ + s@,
            },
    {
        Field::parse(s)
    }
}

} // verus!
