//! Attribute values of a project file: booleans, small integers and lists,
//! and the errors that reading a project file can give.
use vstd::prelude::*;
use crate::text::{is_ascii_digit, seq_of_strings, split, split_str, chars_of, str_eq};

verus! {

/// Why a project file could not be read.
#[derive(Debug)]
pub enum VcprojError {
    /// The text is not well-formed XML.
    Xml(String),
    /// The root element is not `VisualStudioProject`.
    NotAProject,
    /// An element that is not expected where it stands.
    UnexpectedTag(String),
    /// An attribute that the element does not have: element, attribute, value.
    UnexpectedAttribute(String, String, String),
    /// A required attribute is missing: element, attribute.
    MissingAttribute(String, String),
    /// A boolean attribute with another value than `0`, `1`, `false`, `true`.
    InvalidBool(String),
    /// An integer attribute that is not a number of its type.
    InvalidInt(String),
    /// A flag value outside the values of its kind.
    InvalidFlag(String, i8),
    /// A project GUID that is not one.
    InvalidGuid(String),
    /// `ToolFiles` with content.
    NonEmptyToolFiles,
    /// A `Tool` element of a file configuration without `Name`.
    ToolWithoutName,
}

/// Why a project file is refused, as the contracts speak of it: a
/// [`VcprojError`] with its texts taken by their views.
pub enum XmlErr {
    /// Not well-formed XML.
    Malformed,
    /// The root element is not `VisualStudioProject`.
    NotAProject,
    /// An element where it is not expected.
    UnexpectedTag(Seq<char>),
    /// An attribute that the element does not have: element, attribute, value.
    UnexpectedAttribute(Seq<char>, Seq<char>, Seq<char>),
    /// A required attribute is missing: element, attribute.
    MissingAttribute(Seq<char>, Seq<char>),
    /// A boolean value that is none of the boolean words.
    InvalidBool(Seq<char>),
    /// An integer value that is not a number of its type.
    InvalidInt(Seq<char>),
    /// A flag number outside the values of its kind: kind, number.
    InvalidFlag(Seq<char>, i8),
    /// A project GUID that is not one.
    InvalidGuid(Seq<char>),
    /// `ToolFiles` with content.
    NonEmptyToolFiles,
    /// A `Tool` of a file configuration without `Name`.
    ToolWithoutName,
}

pub open spec fn err_view(e: VcprojError) -> XmlErr {
    match e {
        VcprojError::Xml(_) => XmlErr::Malformed,
        VcprojError::NotAProject => XmlErr::NotAProject,
        VcprojError::UnexpectedTag(t) => XmlErr::UnexpectedTag(t@),
        VcprojError::UnexpectedAttribute(a, b, c) => XmlErr::UnexpectedAttribute(a@, b@, c@),
        VcprojError::MissingAttribute(a, b) => XmlErr::MissingAttribute(a@, b@),
        VcprojError::InvalidBool(t) => XmlErr::InvalidBool(t@),
        VcprojError::InvalidInt(t) => XmlErr::InvalidInt(t@),
        VcprojError::InvalidFlag(k, v) => XmlErr::InvalidFlag(k@, v),
        VcprojError::InvalidGuid(t) => XmlErr::InvalidGuid(t@),
        VcprojError::NonEmptyToolFiles => XmlErr::NonEmptyToolFiles,
        VcprojError::ToolWithoutName => XmlErr::ToolWithoutName,
    }
}

/// `1`, `TRUE`, `true` are true; `0`, `FALSE`, `false` are false.
pub open spec fn bool_value(s: Seq<char>) -> Option<bool> {
    if s == "1"@ || s == "TRUE"@ || s == "true"@ {
        Some(true)
    } else if s == "0"@ || s == "FALSE"@ || s == "false"@ {
        Some(false)
    } else {
        None
    }
}

proof fn lemma_bool_word_shapes()
    ensures
        "1"@ == seq!['1'],
        "0"@ == seq!['0'],
        "TRUE"@ == seq!['T', 'R', 'U', 'E'],
        "true"@ == seq!['t', 'r', 'u', 'e'],
        "FALSE"@ == seq!['F', 'A', 'L', 'S', 'E'],
        "false"@ == seq!['f', 'a', 'l', 's', 'e'],
{
    reveal_strlit("1");
    reveal_strlit("TRUE");
    reveal_strlit("true");
    reveal_strlit("0");
    reveal_strlit("FALSE");
    reveal_strlit("false");
    assert("1"@ =~= seq!['1']);
    assert("0"@ =~= seq!['0']);
    assert("TRUE"@ =~= seq!['T', 'R', 'U', 'E']);
    assert("true"@ =~= seq!['t', 'r', 'u', 'e']);
    assert("FALSE"@ =~= seq!['F', 'A', 'L', 'S', 'E']);
    assert("false"@ =~= seq!['f', 'a', 'l', 's', 'e']);
}

/// Law: the three spellings of each boolean that project files use (`1`,
/// `TRUE`, `true`; `0`, `FALSE`, `false`) read as that boolean, and no other
/// text reads as a boolean.
pub proof fn lemma_bool_words(s: Seq<char>)
    ensures
        bool_value(s) == Some(true) <==> (s == "1"@ || s == "TRUE"@ || s == "true"@),
        bool_value(s) == Some(false) <==> (s == "0"@ || s == "FALSE"@ || s == "false"@),
        bool_value(s) is Some ==> (s.len() == 1 && (s[0] == '0' || s[0] == '1')) || s.len() == 4 || s.len() == 5,
{
    lemma_bool_word_shapes();
    assert(seq!['1'] != seq!['T', 'R', 'U', 'E'] && seq!['t', 'r', 'u', 'e'] != seq!['T', 'R', 'U', 'E']) by {
        assert(seq!['t', 'r', 'u', 'e'][0] != seq!['T', 'R', 'U', 'E'][0]);
    }
    assert(seq!['F', 'A', 'L', 'S', 'E'] != seq!['f', 'a', 'l', 's', 'e']) by {
        assert(seq!['F', 'A', 'L', 'S', 'E'][0] != seq!['f', 'a', 'l', 's', 'e'][0]);
    }
    assert(seq!['0'] != seq!['1']) by {
        assert(seq!['0'][0] != seq!['1'][0]);
    }
}

/// Law: a boolean written as `true`/`false` in either case, or as a digit,
/// reads back as itself.
pub proof fn lemma_bool_round_trip(b: bool)
    ensures
        bool_value(if b { "true"@ } else { "false"@ }) == Some(b),
        bool_value(if b { "TRUE"@ } else { "FALSE"@ }) == Some(b),
        bool_value(if b { "1"@ } else { "0"@ }) == Some(b),
{
    lemma_bool_word_shapes();
    assert(seq!['1'] != seq!['T', 'R', 'U', 'E'] && seq!['t', 'r', 'u', 'e'] != seq!['T', 'R', 'U', 'E']) by {
        assert(seq!['t', 'r', 'u', 'e'][0] != seq!['T', 'R', 'U', 'E'][0]);
    }
    assert(seq!['F', 'A', 'L', 'S', 'E'] != seq!['f', 'a', 'l', 's', 'e']) by {
        assert(seq!['F', 'A', 'L', 'S', 'E'][0] != seq!['f', 'a', 'l', 's', 'e'][0]);
    }
    assert(seq!['0'] != seq!['1']) by {
        assert(seq!['0'][0] != seq!['1'][0]);
    }
}

pub fn parse_bool(s: &str) -> (r: Result<bool, VcprojError>)
    ensures
        match r {
            Ok(b) => bool_value(s@) == Some(b),
            Err(e) => bool_value(s@) is None && err_view(e) == XmlErr::InvalidBool(s@),
        },
{
    if str_eq(s, "1") || str_eq(s, "TRUE") || str_eq(s, "true") {
        Ok(true)
    } else if str_eq(s, "0") || str_eq(s, "FALSE") || str_eq(s, "false") {
        Ok(false)
    } else {
        Err(VcprojError::InvalidBool(s.to_owned()))
    }
}

/// The pieces of a list attribute, split at `;` and `,`. Empty pieces are
/// kept: an empty definition list still makes a file compile on its own.
pub open spec fn list_value(s: Seq<char>) -> Seq<Seq<char>> {
    split(s, seq![';', ','])
}

pub fn parse_list(s: &str) -> (r: Vec<String>)
    ensures
        seq_of_strings(r@) == list_value(s@),
{
    let seps: Vec<char> = vec![';', ','];
    assert(seps@ =~= seq![';', ',']);
    split_str(s, &seps)
}

/// Value of a non-empty run of decimal digits.
pub open spec fn digits_nat(d: Seq<char>) -> int
    decreases d.len(),
{
    if d.len() == 0 {
        0
    } else {
        digits_nat(d.drop_last()) * 10 + (d.last() as int - '0' as int)
    }
}

pub open spec fn all_digits(d: Seq<char>) -> bool {
    forall|k: int| 0 <= k < d.len() ==> is_ascii_digit(#[trigger] d[k])
}

/// An optional sign (`+`, or `-` when `signed`) followed by at least one
/// decimal digit, as `str::parse` reads integers.
pub open spec fn int_text_value(s: Seq<char>, signed: bool) -> Option<int> {
    let neg = signed && s.len() > 0 && s[0] == '-';
    let d = if s.len() > 0 && (s[0] == '+' || (signed && s[0] == '-')) {
        s.skip(1)
    } else {
        s
    };
    if d.len() > 0 && all_digits(d) {
        Some(
            if neg {
                -digits_nat(d)
            } else {
                digits_nat(d)
            },
        )
    } else {
        None
    }
}

/// `str::parse::<i8>`.
pub open spec fn i8_value(s: Seq<char>) -> Option<i8> {
    match int_text_value(s, true) {
        Some(v) => if -128 <= v <= 127 {
            Some(v as i8)
        } else {
            None
        },
        None => None,
    }
}

/// `str::parse::<u8>`.
pub open spec fn u8_value(s: Seq<char>) -> Option<u8> {
    match int_text_value(s, false) {
        Some(v) => if 0 <= v <= 255 {
            Some(v as u8)
        } else {
            None
        },
        None => None,
    }
}

/// The digits of `d` read with a cap: the value, or 1000 when it is larger.
fn capped_digits(d: &Vec<char>, from: usize) -> (r: Option<u32>)
    requires
        from <= d.len(),
    ensures
        match r {
            Some(v) => {
                &&& all_digits(d@.skip(from as int))
                &&& v as int == if digits_nat(d@.skip(from as int)) < 1000 {
                    digits_nat(d@.skip(from as int))
                } else {
                    1000
                }
            },
            None => !all_digits(d@.skip(from as int)),
        },
{
    let ghost ds = d@.skip(from as int);
    let mut acc: u32 = 0;
    let mut i: usize = from;
    assert(ds.take(0) =~= Seq::<char>::empty());
    while i < d.len()
        invariant
            from <= i <= d.len(),
            ds == d@.skip(from as int),
            all_digits(ds.take(i - from)),
            acc as int == if digits_nat(ds.take(i - from)) < 1000 {
                digits_nat(ds.take(i - from))
            } else {
                1000
            },
        decreases d.len() - i,
    {
        let c = d[i];
        if !('0' <= c && c <= '9') {
            assert(ds[i - from] == c);
            return None;
        }
        let ghost prev = ds.take(i - from);
        let ghost next = ds.take(i - from + 1);
        assert(next.drop_last() =~= prev);
        assert(next.last() == c);
        let dv = (c as u32) - ('0' as u32);
        assert(digits_nat(next) == digits_nat(prev) * 10 + dv);
        let n = acc * 10 + dv;
        acc = if n < 1000 {
            n
        } else {
            1000
        };
        i += 1;
        assert(all_digits(ds.take(i - from))) by {
            assert forall|k: int| 0 <= k < next.len() implies is_ascii_digit(#[trigger] next[k]) by {
                if k < prev.len() {
                    assert(next[k] == prev[k]);
                }
            }
        }
    }
    assert(ds.take(d.len() - from) =~= ds);
    Some(acc)
}

fn int_text(s: &str, signed: bool) -> (r: Option<(bool, u32)>)
    ensures
        match r {
            Some((neg, v)) => int_text_value(s@, signed) matches Some(x) && (if neg {
                x <= 0 && v as int == if -x < 1000 {
                    -x
                } else {
                    1000
                }
            } else {
                x >= 0 && v as int == if x < 1000 {
                    x
                } else {
                    1000
                }
            }),
            None => int_text_value(s@, signed) is None,
        },
        r matches Some((neg, _)) ==> (neg ==> signed),
{
    let v = chars_of(s);
    let neg = signed && v.len() > 0 && v[0] == '-';
    let start: usize = if v.len() > 0 && (v[0] == '+' || (signed && v[0] == '-')) {
        1
    } else {
        0
    };
    assert(start == 0 ==> v@.skip(0) =~= v@);
    if start >= v.len() {
        assert(v@.skip(start as int).len() == 0);
        return None;
    }
    match capped_digits(&v, start) {
        Some(n) => Some((neg, n)),
        None => None,
    }
}

pub fn parse_i8(s: &str) -> (r: Result<i8, VcprojError>)
    ensures
        match r {
            Ok(x) => i8_value(s@) == Some(x),
            Err(e) => i8_value(s@) is None && err_view(e) == XmlErr::InvalidInt(s@),
        },
{
    match int_text(s, true) {
        Some((neg, n)) => {
            if neg && n <= 128 {
                Ok((0 - (n as i32)) as i8)
            } else if !neg && n <= 127 {
                Ok(n as i8)
            } else {
                Err(VcprojError::InvalidInt(s.to_owned()))
            }
        },
        None => Err(VcprojError::InvalidInt(s.to_owned())),
    }
}

pub fn parse_u8(s: &str) -> (r: Result<u8, VcprojError>)
    ensures
        match r {
            Ok(x) => u8_value(s@) == Some(x),
            Err(e) => u8_value(s@) is None && err_view(e) == XmlErr::InvalidInt(s@),
        },
{
    match int_text(s, false) {
        Some((_, n)) => {
            if n <= 255 {
                Ok(n as u8)
            } else {
                Err(VcprojError::InvalidInt(s.to_owned()))
            }
        },
        None => Err(VcprojError::InvalidInt(s.to_owned())),
    }
}

/// The number behind a flag attribute: an `i8`, or `0`/`1` for a boolean
/// flag.
pub open spec fn flag_number(s: Seq<char>, boolean: bool) -> Option<i8> {
    if boolean {
        match bool_value(s) {
            Some(b) => Some(if b {
                1i8
            } else {
                0i8
            }),
            None => None,
        }
    } else {
        i8_value(s)
    }
}

/// The refusal of a flag text that is not a number (see [`flag_number`]).
pub open spec fn number_err(s: Seq<char>, boolean: bool) -> XmlErr {
    if boolean {
        XmlErr::InvalidBool(s)
    } else {
        XmlErr::InvalidInt(s)
    }
}

/// The refusal of the text of a flag of kind `kind`: not a number, or a
/// number outside the kind's values.
pub open spec fn flag_err(kind: Seq<char>, s: Seq<char>, boolean: bool) -> XmlErr {
    match flag_number(s, boolean) {
        Some(v) => XmlErr::InvalidFlag(kind, v),
        None => number_err(s, boolean),
    }
}

pub fn parse_flag_number(s: &str, boolean: bool) -> (r: Result<i8, VcprojError>)
    ensures
        match r {
            Ok(x) => flag_number(s@, boolean) == Some(x),
            Err(e) => flag_number(s@, boolean) is None && err_view(e) == number_err(s@, boolean),
        },
{
    if boolean {
        match parse_bool(s) {
            Ok(b) => Ok(if b {
                1i8
            } else {
                0i8
            }),
            Err(e) => Err(e),
        }
    } else {
        parse_i8(s)
    }
}

} // verus!
