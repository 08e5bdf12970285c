//! Cells of the report: numbers in decimal, sizes with a unit, names as text,
//! each laid out in a column of fixed width.

use crate::text::decimal_digits;
use humansize::file_size_opts::{FileSizeOpts, FixedAt, Kilo};
use humansize::FileSize;
use vstd::prelude::*;
use vstd::string::{StrSliceExecFns, StringExecFns};
use vstd::utf8::{decode_utf8, valid_utf8};

verus! {

/// `humansize::file_size_opts::Kilo`: whether a kilo is 1000 or 1024, and
/// whether units are written `KB` or `KiB`.
#[verifier::external_type_specification]
pub struct ExKilo(Kilo);

/// `humansize::file_size_opts::FixedAt`: the unit that every size is shown
/// in, if there is to be one.
#[verifier::external_type_specification]
pub struct ExFixedAt(FixedAt);

/// `humansize::file_size_opts::FileSizeOpts`: how a size is written with a
/// unit. All its fields are public, and the values of them are chosen here.
#[verifier::external_type_specification]
pub struct ExFileSizeOpts(FileSizeOpts);

/// `String::push` appends one character.
pub assume_specification[ String::push ](s: &mut String, ch: char)
    ensures
        final(s)@ == old(s)@.push(ch),
;

/// The text that `humansize` gives for a number of bytes under the given options.
pub uninterp spec fn human_size(bytes: nat, opts: FileSizeOpts) -> Seq<char>;

/// The text that `String::from_utf8_lossy` gives for a byte string.
pub uninterp spec fn lossy_text(bytes: Seq<u8>) -> Seq<char>;

/// `FileSize::file_size` of `humansize`, on a `usize`. For an unsigned number
/// it always succeeds, and its text depends on the number and the options
/// alone. It formats with the two counts of decimal places as precision,
/// which must fit 16 bits.
#[verifier::external_body]
fn file_size_text(bytes: usize, opts: &FileSizeOpts) -> (r: Result<String, String>)
    requires
        opts.decimal_places <= u16::MAX,
        opts.decimal_zeroes <= u16::MAX,
    ensures
        r is Ok,
        r->Ok_0@ == human_size(bytes as nat, *opts),
{
    bytes.file_size(opts)
}

/// `String::from_utf8_lossy`: the text that the bytes encode, where each
/// stretch that is not UTF-8 has become U+FFFD. Bytes that are UTF-8 give
/// the text that they encode.
#[verifier::external_body]
pub(crate) fn text_of_bytes(bytes: &[u8]) -> (r: String)
    ensures
        r@ == lossy_text(bytes@),
        valid_utf8(bytes@) ==> r@ == decode_utf8(bytes@),
{
    String::from_utf8_lossy(bytes).into_owned()
}

/// The width of a column, in characters.
pub const COLUMN_WIDTH: usize = 10;

/// A number in decimal, without sign or leading zeros.
pub open spec fn decimal_text(n: nat) -> Seq<char> {
    decimal_digits(n).map_values(|digit: u8| digit as char)
}

/// An integer in decimal, with `-` before a negative one.
pub open spec fn signed_text(n: int) -> Seq<char> {
    if n < 0 {
        seq!['-'] + decimal_text((-n) as nat)
    } else {
        decimal_text(n as nat)
    }
}

/// So many spaces.
pub open spec fn spaces(n: nat) -> Seq<char> {
    Seq::new(n, |i: int| ' ')
}

/// A text moved to the right edge of a column: spaces come before it, as
/// many as it lacks of the width. A text that is wider is left as it is.
pub open spec fn right_aligned(s: Seq<char>, width: nat) -> Seq<char> {
    if s.len() >= width {
        s
    } else {
        spaces((width - s.len()) as nat) + s
    }
}

/// A text at the left edge of a column: spaces come after it, as many as it
/// lacks of the width. A text that is wider is left as it is.
pub open spec fn left_aligned(s: Seq<char>, width: nat) -> Seq<char> {
    if s.len() >= width {
        s
    } else {
        s + spaces((width - s.len()) as nat)
    }
}

/// Appends `n` in decimal to `out`.
pub fn push_decimal(out: &mut String, n: u64)
    ensures
        final(out)@ == old(out)@ + decimal_text(n as nat),
    decreases n,
{
    if n >= 10 {
        push_decimal(out, n / 10);
    }
    let d: u8 = (n % 10) as u8;
    out.push((48 + d) as char);
    assert(final(out)@ =~= old(out)@ + decimal_text(n as nat)) by {
        if n >= 10 {
            assert(decimal_text(n as nat) =~= decimal_text((n / 10) as nat).push((48 + d) as char));
        }
    }
}

/// Appends `n` spaces to `out`.
pub fn push_spaces(out: &mut String, n: usize)
    ensures
        final(out)@ == old(out)@ + spaces(n as nat),
{
    let mut i: usize = 0;
    while i < n
        invariant
            i <= n,
            out@ == old(out)@ + spaces(i as nat),
        decreases n - i,
    {
        out.push(' ');
        i = i + 1;
        assert(out@ =~= old(out)@ + spaces(i as nat));
    }
}

/// A non-negative number in decimal.
pub fn decimal(n: u64) -> (r: String)
    ensures
        r@ == decimal_text(n as nat),
{
    let mut out = String::new();
    push_decimal(&mut out, n);
    assert(out@ =~= decimal_text(n as nat));
    out
}

/// An integer in decimal.
pub fn signed(n: i64) -> (r: String)
    ensures
        r@ == signed_text(n as int),
{
    let mut out = String::new();
    if n < 0 {
        out.push('-');
        let magnitude: u64 = if n == i64::MIN {
            9223372036854775808u64
        } else {
            (-n) as u64
        };
        push_decimal(&mut out, magnitude);
        assert(out@ =~= signed_text(n as int));
    } else {
        push_decimal(&mut out, n as u64);
        assert(out@ =~= signed_text(n as int));
    }
    out
}

/// Lays a text out at the right edge of a column.
pub fn align_right(s: &str, width: usize) -> (r: String)
    ensures
        r@ == right_aligned(s@, width as nat),
{
    let len = s.unicode_len();
    let mut out = String::new();
    if len < width {
        push_spaces(&mut out, width - len);
    }
    out.append(s);
    assert(out@ =~= right_aligned(s@, width as nat));
    out
}

/// Lays a text out at the left edge of a column.
pub fn align_left(s: &str, width: usize) -> (r: String)
    ensures
        r@ == left_aligned(s@, width as nat),
{
    let len = s.unicode_len();
    let mut out = s.to_owned();
    if len < width {
        push_spaces(&mut out, width - len);
    }
    assert(out@ =~= left_aligned(s@, width as nat));
    out
}

/// The options under which sizes are abbreviated: multiples of 1024 with the
/// units `B`, `KB`, `MB` and so on, two decimal places where the number is
/// not whole, and no space before the unit.
pub open spec fn abbreviation() -> FileSizeOpts {
    FileSizeOpts {
        divider: Kilo::Binary,
        units: Kilo::Decimal,
        decimal_places: 2,
        decimal_zeroes: 0,
        fixed_at: FixedAt::No,
        long_units: false,
        space: false,
        suffix: "",
        allow_negative: false,
    }
}

/// The options under which sizes are abbreviated.
pub fn abbreviation_options() -> (r: FileSizeOpts)
    ensures
        r == abbreviation(),
{
    FileSizeOpts {
        divider: Kilo::Binary,
        units: Kilo::Decimal,
        decimal_places: 2,
        decimal_zeroes: 0,
        fixed_at: FixedAt::No,
        long_units: false,
        space: false,
        suffix: "",
        allow_negative: false,
    }
}

/// Whether `humansize` can format under these options: both counts of
/// decimal places fit 16 bits.
pub open spec fn usable(opts: FileSizeOpts) -> bool {
    opts.decimal_places <= u16::MAX && opts.decimal_zeroes <= u16::MAX
}

/// A number of bytes with a unit, as `humansize` writes it under `opts`.
pub fn abbreviated(bytes: usize, opts: &FileSizeOpts) -> (r: String)
    requires
        usable(*opts),
    ensures
        r@ == human_size(bytes as nat, *opts),
{
    match file_size_text(bytes, opts) {
        Ok(text) => text,
        Err(text) => text,
    }
}

} // verus!
