//! The lines that the roles print: a table with four columns, each left
//! aligned and at least ten characters wide.

use vstd::prelude::*;
use vstd::string::StrSliceExecFns;
use vstd::string::StringExecFns;

verus! {

/// The width of a column.
pub const WIDTH: usize = 10;

/// The text that `String::from_utf8_lossy` makes of bytes: the text they
/// encode, with a replacement character for each part that is not UTF-8.
pub uninterp spec fn utf8_lossy(bytes: Seq<u8>) -> Seq<char>;

/// `String::from_utf8_lossy`, made into an owned string.
#[verifier::external_body]
pub(crate) fn lossy(bytes: &[u8]) -> (s: String)
    ensures
        s@ == utf8_lossy(bytes@),
{
    String::from_utf8_lossy(bytes).into_owned()
}

/// `String::push`: the character follows what was there.
#[verifier::external_body]
pub(crate) fn string_push(s: &mut String, c: char)
    ensures
        final(s)@ == old(s)@.push(c),
{
    s.push(c)
}

/// The character for a decimal digit.
pub open spec fn digit_char(d: int) -> char {
    if d == 0 {
        '0'
    } else if d == 1 {
        '1'
    } else if d == 2 {
        '2'
    } else if d == 3 {
        '3'
    } else if d == 4 {
        '4'
    } else if d == 5 {
        '5'
    } else if d == 6 {
        '6'
    } else if d == 7 {
        '7'
    } else if d == 8 {
        '8'
    } else {
        '9'
    }
}

/// A number in decimal, without leading zeros.
pub open spec fn decimal(n: nat) -> Seq<char>
    decreases n,
{
    if n < 10 {
        seq![digit_char(n as int)]
    } else {
        decimal(n / 10).push(digit_char((n % 10) as int))
    }
}

/// A run of `n` spaces.
pub open spec fn spaces(n: nat) -> Seq<char> {
    Seq::new(n, |i: int| ' ')
}

/// A field: the text, filled up with spaces to the column's width; a longer
/// text is left as it is.
pub open spec fn field(text: Seq<char>) -> Seq<char> {
    if text.len() >= WIDTH {
        text
    } else {
        text + spaces((WIDTH - text.len()) as nat)
    }
}

/// A row of four fields, with a bar and a space between two fields.
pub open spec fn row(a: Seq<char>, b: Seq<char>, c: Seq<char>, d: Seq<char>) -> Seq<char> {
    field(a) + seq!['|', ' '] + field(b) + seq!['|', ' '] + field(c) + seq!['|', ' '] + field(d)
}

/// The row of column titles.
pub open spec fn header_text() -> Seq<char> {
    row("group_id"@, "object_id"@, "priority"@, "payload len"@)
}

/// The row for one object and the length of its payload.
pub open spec fn object_text(group_id: u64, object_id: u64, priority: u64, len: usize) -> Seq<
    char,
> {
    row(
        decimal(group_id as nat),
        decimal(object_id as nat),
        decimal(priority as nat),
        decimal(len as nat),
    )
}

fn digit(d: u64) -> (c: char)
    requires
        d < 10,
    ensures
        c == digit_char(d as int),
{
    if d == 0 {
        '0'
    } else if d == 1 {
        '1'
    } else if d == 2 {
        '2'
    } else if d == 3 {
        '3'
    } else if d == 4 {
        '4'
    } else if d == 5 {
        '5'
    } else if d == 6 {
        '6'
    } else if d == 7 {
        '7'
    } else if d == 8 {
        '8'
    } else {
        '9'
    }
}

/// Appends a number in decimal.
pub fn push_decimal(s: &mut String, n: u64)
    ensures
        final(s)@ == old(s)@ + decimal(n as nat),
    decreases n,
{
    if n >= 10 {
        push_decimal(s, n / 10);
    }
    string_push(s, digit(n % 10));
    assert(s@ =~= old(s)@ + decimal(n as nat));
}

/// A number in decimal.
pub fn decimal_string(n: u64) -> (s: String)
    ensures
        s@ == decimal(n as nat),
{
    let mut s = String::new();
    push_decimal(&mut s, n);
    assert(s@ =~= decimal(n as nat));
    s
}

/// Appends a field.
pub fn push_field(s: &mut String, text: &str)
    ensures
        final(s)@ == old(s)@ + field(text@),
{
    s.append(text);
    let mut n = text.unicode_len();
    let ghost start = n;
    while n < WIDTH
        invariant
            start == text@.len(),
            start <= n,
            start < WIDTH ==> n <= WIDTH,
            start >= WIDTH ==> n == start,
            s@ == old(s)@ + text@ + spaces((n - start) as nat),
        decreases WIDTH - n,
    {
        string_push(s, ' ');
        n += 1;
        assert(s@ =~= old(s)@ + text@ + spaces((n - start) as nat));
    }
    assert(s@ =~= old(s)@ + field(text@));
}

fn push_bar(s: &mut String)
    ensures
        final(s)@ == old(s)@ + seq!['|', ' '],
{
    string_push(s, '|');
    string_push(s, ' ');
    assert(s@ =~= old(s)@ + seq!['|', ' ']);
}

/// A row of four fields.
pub fn row_string(a: &str, b: &str, c: &str, d: &str) -> (s: String)
    ensures
        s@ == row(a@, b@, c@, d@),
{
    let mut s = String::new();
    push_field(&mut s, a);
    push_bar(&mut s);
    push_field(&mut s, b);
    push_bar(&mut s);
    push_field(&mut s, c);
    push_bar(&mut s);
    push_field(&mut s, d);
    assert(s@ =~= row(a@, b@, c@, d@));
    s
}

/// The row of column titles.
pub fn print_header() -> (s: String)
    ensures
        s@ == header_text(),
{
    row_string("group_id", "object_id", "priority", "payload len")
}

/// The row for one object and the length of its payload.
pub fn pretty_print_object(group_id: u64, object_id: u64, priority: u64, len: usize) -> (s: String)
    ensures
        s@ == object_text(group_id, object_id, priority, len),
{
    let a = decimal_string(group_id);
    let b = decimal_string(object_id);
    let c = decimal_string(priority);
    let d = decimal_string(len as u64);
    row_string(a.as_str(), b.as_str(), c.as_str(), d.as_str())
}

} // verus!
