//! What is known of one process: who it is, whose it is and how much memory it holds.

use crate::error::Error;
use crate::fields::Field;
use crate::format::{
    abbreviated, align_left, align_right, decimal, decimal_text, human_size, left_aligned,
    lossy_text, right_aligned, signed, signed_text, text_of_bytes, usable, COLUMN_WIDTH,
};
use crate::options::Options;
use crate::order::ahead;
use crate::text::{
    all_digits, count_trailing, decimal_digits, decimal_value, digits_value, ends_with, is_space,
    last_token, last_token_end, last_token_start, lemma_decimal_digits, lemma_text_order_total,
    lemma_trailing_run_is, parse_decimal, precedes, text_before,
};
use humansize::file_size_opts::FileSizeOpts;
use libc::{pid_t, uid_t};
use std::cmp::Ordering;
use std::ops::Add;
use std::path::PathBuf;
use vstd::prelude::*;
use vstd::slice::slice_subrange;
use vstd::utf8::encode_utf8;

verus! {

/// A size in bytes.
#[derive(Eq, PartialEq, Ord, PartialOrd)]
pub struct Size(usize);

impl View for Size {
    type V = nat;

    /// The number of bytes.
    closed spec fn view(&self) -> nat {
        self.0 as nat
    }
}

/// A line without the one line feed that may end it.
pub open spec fn without_line_feed(line: Seq<u8>) -> Seq<u8> {
    if line.len() > 0 && line.last() == 10 {
        line.drop_last()
    } else {
        line
    }
}

/// The unit that ends an entry of a memory map: `kB`.
pub open spec fn unit() -> Seq<u8> {
    seq![107u8, 66u8]
}

/// The number of kilobytes that an entry of a memory map states.
///
/// An entry is a label, whitespace, a number and the unit `kB`, and may end
/// with one line feed. The number is the last whitespace-delimited token
/// before the unit. There is none where the unit is missing, where no
/// whitespace stands before the token, or where the token spells no number.
pub open spec fn entry_kilobytes(line: Seq<u8>) -> Option<nat> {
    let body = without_line_feed(line);
    if ends_with(body, unit()) {
        let head = body.take(body.len() - 2);
        if last_token_start(head) > 0 {
            decimal_value(last_token(head))
        } else {
            None
        }
    } else {
        None
    }
}

/// The number of bytes that an entry of a memory map states: 1024 for each kilobyte.
pub open spec fn entry_bytes(line: Seq<u8>) -> Option<nat> {
    match entry_kilobytes(line) {
        Some(k) => Some(k * 1024),
        None => None,
    }
}

/// Whether every byte of `s` is whitespace.
pub open spec fn all_spaces(s: Seq<u8>) -> bool {
    forall|i: int| 0 <= i < s.len() ==> is_space(#[trigger] s[i])
}

/// Whether no byte of `s` is whitespace.
pub open spec fn no_spaces(s: Seq<u8>) -> bool {
    forall|i: int| 0 <= i < s.len() ==> !is_space(#[trigger] s[i])
}

/// The line feed that ends a line, or nothing.
pub open spec fn line_end(feed: bool) -> Seq<u8> {
    if feed {
        seq![10u8]
    } else {
        Seq::empty()
    }
}

/// In a line made of a head that is empty or ends with whitespace, a token
/// without whitespace, some whitespace or none, the unit and perhaps a line
/// feed, the token is the last one before the unit and starts where the head ends.
pub proof fn lemma_entry_token(head: Seq<u8>, token: Seq<u8>, pad: Seq<u8>, feed: bool)
    requires
        head.len() > 0 ==> is_space(head.last()),
        token.len() > 0,
        no_spaces(token),
        all_spaces(pad),
    ensures
        ({
            let line = head + token + pad + unit() + line_end(feed);
            let body = without_line_feed(line);
            let before = body.take(body.len() - 2);
            &&& ends_with(body, unit())
            &&& last_token_start(before) == head.len()
            &&& last_token(before) == token
        }),
{
    let line = head + token + pad + unit() + line_end(feed);
    let body = without_line_feed(line);
    assert(body =~= head + token + pad + unit());
    assert(body.skip(body.len() - 2) =~= unit());
    let before = body.take(body.len() - 2);
    assert(before =~= head + token + pad);
    assert forall|i: int| before.len() - pad.len() <= i < before.len() implies is_space(
        #[trigger] before[i],
    ) by {
        assert(before[i] == pad[i - head.len() - token.len()]);
    }
    assert(before[before.len() - pad.len() - 1] == token.last());
    lemma_trailing_run_is(before, true, pad.len() as int);
    let word = before.take(last_token_end(before));
    assert(word =~= head + token);
    assert forall|i: int| word.len() - token.len() <= i < word.len() implies !is_space(
        #[trigger] word[i],
    ) by {
        assert(word[i] == token[i - head.len()]);
    }
    if head.len() > 0 {
        assert(word[word.len() - token.len() - 1] == head.last());
    }
    lemma_trailing_run_is(word, false, token.len() as int);
    assert(before.subrange(head.len() as int, (head.len() + token.len()) as int) =~= token);
}

/// A line of the form label, whitespace, number, `kB` states that number,
/// however wide the whitespace is, and with or without a line feed at its end.
pub proof fn lemma_entry_states_its_number(
    label: Seq<u8>,
    gap: Seq<u8>,
    number: Seq<u8>,
    pad: Seq<u8>,
    feed: bool,
)
    requires
        gap.len() > 0,
        all_spaces(gap),
        number.len() > 0,
        all_digits(number),
        all_spaces(pad),
    ensures
        entry_kilobytes(label + gap + number + pad + unit() + line_end(feed)) == Some(
            digits_value(number),
        ),
        entry_bytes(label + gap + number + pad + unit() + line_end(feed)) == Some(
            digits_value(number) * 1024,
        ),
{
    let head = label + gap;
    assert(head.last() == gap.last());
    lemma_entry_token(head, number, pad, feed);
}

/// A line of the form label, whitespace, number, `kB` states 1024 bytes for
/// each unit of the number.
pub proof fn lemma_entry_of_number(
    label: Seq<u8>,
    gap: Seq<u8>,
    n: nat,
    pad: Seq<u8>,
    feed: bool,
)
    requires
        gap.len() > 0,
        all_spaces(gap),
        all_spaces(pad),
    ensures
        entry_bytes(label + gap + decimal_digits(n) + pad + unit() + line_end(feed)) == Some(
            n * 1024,
        ),
{
    lemma_decimal_digits(n);
    lemma_entry_states_its_number(label, gap, decimal_digits(n), pad, feed);
}

/// A line that does not end with the unit `kB`, a line feed after it set
/// aside, states no size.
pub proof fn lemma_entry_without_unit(line: Seq<u8>)
    requires
        !ends_with(without_line_feed(line), unit()),
    ensures
        entry_kilobytes(line) is None,
        entry_bytes(line) is None,
{
}

/// A line whose last token before the unit spells no number states no size.
pub proof fn lemma_entry_without_number(head: Seq<u8>, token: Seq<u8>, pad: Seq<u8>, feed: bool)
    requires
        head.len() > 0 ==> is_space(head.last()),
        token.len() > 0,
        no_spaces(token),
        all_spaces(pad),
        decimal_value(token) is None,
    ensures
        entry_kilobytes(head + token + pad + unit() + line_end(feed)) is None,
        entry_bytes(head + token + pad + unit() + line_end(feed)) is None,
{
    lemma_entry_token(head, token, pad, feed);
}

/// A line in which no whitespace stands before the number states no size.
pub proof fn lemma_entry_without_gap(token: Seq<u8>, pad: Seq<u8>, feed: bool)
    requires
        token.len() > 0,
        no_spaces(token),
        all_spaces(pad),
    ensures
        entry_kilobytes(token + pad + unit() + line_end(feed)) is None,
{
    lemma_entry_token(Seq::empty(), token, pad, feed);
    assert(Seq::<u8>::empty() + token =~= token);
}

impl Size {
    /// A size of so many bytes.
    pub fn new(bytes: usize) -> (r: Size)
        ensures
            r@ == bytes,
    {
        Size(bytes)
    }

    /// A size fits a machine word.
    pub proof fn lemma_fits(self)
        ensures
            self@ <= usize::MAX,
    {
    }

    /// The number of bytes.
    pub fn bytes(&self) -> (r: usize)
        ensures
            r == self@,
    {
        self.0
    }

    /// Reads the size that an entry of a memory map states, where it fits a
    /// machine word; the entry is given as bytes.
    pub fn from_smap_line(line: &[u8]) -> (r: Result<Size, Error>)
        ensures
            match entry_bytes(line@) {
                Some(n) => if n <= usize::MAX {
                    r is Ok && r->Ok_0@ == n
                } else {
                    r is Err && r->Err_0 is ParseSize
                },
                None => r is Err && r->Err_0 is ParseSize,
            },
    {
        let mut n = line.len();
        if n > 0 && line[n - 1] == 10 {
            n = n - 1;
        }
        let ghost body = without_line_feed(line@);
        assert(body =~= line@.take(n as int));
        if n < 2 || line[n - 2] != 107 || line[n - 1] != 66 {
            proof {
                if n >= 2 {
                    assert(body.skip(body.len() - 2)[0] == line@[n - 2]);
                    assert(body.skip(body.len() - 2)[1] == line@[n - 1]);
                }
            }
            return Err(Error::ParseSize);
        }
        assert(body.skip(body.len() - 2) =~= unit());
        let ghost head = body.take(body.len() - 2);
        assert(head =~= line@.take(n - 2));
        let end = n - 2 - count_trailing(line, n - 2, true);
        assert(head.take(end as int) =~= line@.take(end as int));
        let start = end - count_trailing(line, end, false);
        if start == 0 {
            return Err(Error::ParseSize);
        }
        let token = slice_subrange(line, start, end);
        assert(token@ =~= last_token(head));
        match parse_decimal(token, (usize::MAX / 1024) as u64) {
            Some(v) => Ok(Size((v as usize) * 1024)),
            None => Err(Error::ParseSize),
        }
    }

    /// Reads the size that an entry of a memory map states, where it fits a
    /// machine word.
    pub fn from_smap_entry(s: &str) -> (r: Result<Size, Error>)
        ensures
            match entry_bytes(encode_utf8(s@)) {
                Some(n) => if n <= usize::MAX {
                    r is Ok && r->Ok_0@ == n
                } else {
                    r is Err && r->Err_0 is ParseSize
                },
                None => r is Err && r->Err_0 is ParseSize,
            },
    {
        Size::from_smap_line(s.as_bytes())
    }
}

/// The cell that shows a size: with a unit where sizes are abbreviated, as a
/// count of bytes otherwise, at the right edge of its column.
pub open spec fn size_cell(bytes: nat, abbreviate: bool, size_opts: FileSizeOpts) -> Seq<char> {
    if abbreviate {
        right_aligned(human_size(bytes, size_opts), COLUMN_WIDTH as nat)
    } else {
        right_aligned(decimal_text(bytes), COLUMN_WIDTH as nat)
    }
}

impl Size {
    /// The cell that shows the size.
    pub open spec fn cell(&self, abbreviate: bool, size_opts: FileSizeOpts) -> Seq<char> {
        size_cell(self@, abbreviate, size_opts)
    }

    /// Writes the cell that shows the size. Where sizes are abbreviated, the
    /// options for that must be ones that can be formatted under.
    pub fn format_to(&self, opts: &Options, size_opts: &FileSizeOpts) -> (r: String)
        requires
            opts.abbreviate ==> usable(*size_opts),
        ensures
            r@ == self.cell(opts.abbreviate, *size_opts),
    {
        if opts.abbreviate {
            let text = abbreviated(self.0, size_opts);
            align_right(text.as_str(), COLUMN_WIDTH)
        } else {
            let text = decimal(self.0 as u64);
            align_right(text.as_str(), COLUMN_WIDTH)
        }
    }

    /// The sum of two sizes, where it fits a machine word.
    pub fn checked_add(&self, other: &Size) -> (r: Option<Size>)
        ensures
            match r {
                Some(sum) => sum@ == self@ + other@,
                None => self@ + other@ > usize::MAX,
            },
    {
        match self.0.checked_add(other.0) {
            Some(sum) => Some(Size(sum)),
            None => None,
        }
    }

    /// The size that holds the bytes of both, where their number fits a machine word.
    pub closed spec fn sum(self, other: Size) -> Size {
        Size((self.0 + other.0) as usize)
    }

    /// Adds a size to this one.
    pub fn add_assign(&mut self, other: Size)
        requires
            old(self)@ + other@ <= usize::MAX,
        ensures
            final(self)@ == old(self)@ + other@,
    {
        self.0 = self.0 + other.0;
    }
}

impl Default for Size {
    fn default() -> (r: Size)
        ensures
            r@ == 0,
    {
        Size(0)
    }
}

impl vstd::std_specs::ops::AddSpecImpl for Size {
    open spec fn obeys_add_spec() -> bool {
        true
    }

    open spec fn add_req(self, other: Size) -> bool {
        self@ + other@ <= usize::MAX
    }

    open spec fn add_spec(self, other: Size) -> Size {
        self.sum(other)
    }
}

impl Add for Size {
    type Output = Size;

    fn add(self, other: Size) -> (r: Size)
        ensures
            r@ == self@ + other@,
    {
        Size(self.0 + other.0)
    }
}

/// The four sizes of a process, or of many, as numbers of bytes.
pub struct SizesView {
    pub rss: nat,
    pub pss: nat,
    pub uss: nat,
    pub swap: nat,
}

impl SizesView {
    /// Four sizes of nothing.
    pub open spec fn zero() -> SizesView {
        SizesView { rss: 0, pss: 0, uss: 0, swap: 0 }
    }

    /// The sum, size by size.
    pub open spec fn plus(self, other: SizesView) -> SizesView {
        SizesView {
            rss: self.rss + other.rss,
            pss: self.pss + other.pss,
            uss: self.uss + other.uss,
            swap: self.swap + other.swap,
        }
    }

    /// The one of the four sizes that a column shows.
    pub open spec fn of(self, field: Field) -> nat
        recommends
            field.is_size(),
    {
        match field {
            Field::Pss => self.pss,
            Field::Rss => self.rss,
            Field::Uss => self.uss,
            _ => self.swap,
        }
    }

    /// Whether each of the four fits a machine word.
    pub open spec fn fits(self) -> bool {
        self.rss <= usize::MAX && self.pss <= usize::MAX && self.uss <= usize::MAX && self.swap
            <= usize::MAX
    }
}

/// How much memory a process holds: resident, in proportion to what it
/// shares, for itself alone, and swapped out.
pub struct ProcessSizes {
    pub rss: Size,
    pub pss: Size,
    pub uss: Size,
    pub swap: Size,
}

impl View for ProcessSizes {
    type V = SizesView;

    open spec fn view(&self) -> SizesView {
        SizesView { rss: self.rss@, pss: self.pss@, uss: self.uss@, swap: self.swap@ }
    }
}

impl ProcessSizes {
    /// Each of the four sizes fits a machine word.
    pub proof fn lemma_fits(self)
        ensures
            self@.fits(),
    {
        self.rss.lemma_fits();
        self.pss.lemma_fits();
        self.uss.lemma_fits();
        self.swap.lemma_fits();
    }

    /// The cell of one of the four size columns.
    pub fn format_field(&self, field: Field, opts: &Options, size_opts: &FileSizeOpts) -> (r:
        String)
        requires
            field.is_size(),
            opts.abbreviate ==> usable(*size_opts),
        ensures
            r@ == size_cell(self@.of(field), opts.abbreviate, *size_opts),
    {
        match field {
            Field::Pss => self.pss.format_to(opts, size_opts),
            Field::Rss => self.rss.format_to(opts, size_opts),
            Field::Uss => self.uss.format_to(opts, size_opts),
            _ => self.swap.format_to(opts, size_opts),
        }
    }

    /// The sum of these sizes and others, size by size, where all four fit a
    /// machine word.
    pub fn checked_add(&self, other: &ProcessSizes) -> (r: Option<ProcessSizes>)
        ensures
            match r {
                Some(sum) => sum@ == self@.plus(other@),
                None => !self@.plus(other@).fits(),
            },
    {
        let rss = self.rss.checked_add(&other.rss);
        let pss = self.pss.checked_add(&other.pss);
        let uss = self.uss.checked_add(&other.uss);
        let swap = self.swap.checked_add(&other.swap);
        match (rss, pss, uss, swap) {
            (Some(rss), Some(pss), Some(uss), Some(swap)) => Some(
                ProcessSizes { rss, pss, uss, swap },
            ),
            _ => None,
        }
    }

    /// Adds other sizes to these, size by size.
    pub fn add_assign(&mut self, other: ProcessSizes)
        requires
            old(self)@.plus(other@).fits(),
        ensures
            final(self)@ == old(self)@.plus(other@),
    {
        self.rss.add_assign(other.rss);
        self.pss.add_assign(other.pss);
        self.uss.add_assign(other.uss);
        self.swap.add_assign(other.swap);
    }
}

impl Default for ProcessSizes {
    fn default() -> (r: ProcessSizes)
        ensures
            r@ == SizesView::zero(),
    {
        ProcessSizes {
            rss: Size::default(),
            pss: Size::default(),
            uss: Size::default(),
            swap: Size::default(),
        }
    }
}

impl vstd::std_specs::ops::AddSpecImpl for ProcessSizes {
    open spec fn obeys_add_spec() -> bool {
        true
    }

    open spec fn add_req(self, other: ProcessSizes) -> bool {
        self@.plus(other@).fits()
    }

    open spec fn add_spec(self, other: ProcessSizes) -> ProcessSizes {
        ProcessSizes {
            rss: self.rss.sum(other.rss),
            pss: self.pss.sum(other.pss),
            uss: self.uss.sum(other.uss),
            swap: self.swap.sum(other.swap),
        }
    }
}

impl Add for ProcessSizes {
    type Output = ProcessSizes;

    fn add(self, other: ProcessSizes) -> (r: ProcessSizes)
        ensures
            r@ == self@.plus(other@),
    {
        ProcessSizes {
            rss: self.rss + other.rss,
            pss: self.pss + other.pss,
            uss: self.uss + other.uss,
            swap: self.swap + other.swap,
        }
    }
}

/// The owner of a process: a user of the system, by number and by name. The
/// name is empty where the system knows none.
pub struct User {
    pub uid: uid_t,
    pub name: Vec<u8>,
}

/// An owner, the name as a byte string.
pub struct UserView {
    pub uid: uid_t,
    pub name: Seq<u8>,
}

impl View for User {
    type V = UserView;

    open spec fn view(&self) -> UserView {
        UserView { uid: self.uid, name: self.name@ }
    }
}

/// A process as the process table shows it.
#[derive(Clone)]
pub struct Process {
    pub pid: pid_t,
    pub uid: uid_t,
    /// The short name of the command.
    pub command: Vec<u8>,
    /// The arguments, with a space between one and the next.
    pub cmdline: Vec<u8>,
    /// The directory of the process in the process table.
    pub procfs_path: PathBuf,
}

/// A process, its texts as byte strings.
pub struct ProcessView {
    pub pid: pid_t,
    pub uid: uid_t,
    pub command: Seq<u8>,
    pub cmdline: Seq<u8>,
    pub procfs_path: PathBuf,
}

impl View for Process {
    type V = ProcessView;

    open spec fn view(&self) -> ProcessView {
        ProcessView {
            pid: self.pid,
            uid: self.uid,
            command: self.command@,
            cmdline: self.cmdline@,
            procfs_path: self.procfs_path,
        }
    }
}

/// A row of the report, its texts as byte strings and its sizes as numbers.
pub struct DetailsView {
    pub process: ProcessView,
    pub user: UserView,
    pub sizes: SizesView,
}

/// A process with its owner and its sizes: one row of the report.
pub struct ProcessDetails {
    pub process: Process,
    pub user: User,
    pub sizes: ProcessSizes,
}

impl View for ProcessDetails {
    type V = DetailsView;

    open spec fn view(&self) -> DetailsView {
        DetailsView { process: self.process@, user: self.user@, sizes: self.sizes@ }
    }
}

/// What a row is ordered by: a number or a byte string.
pub enum SortKey {
    Number(int),
    Text(Seq<u8>),
}

impl SortKey {
    /// Whether this key comes before the other: the smaller number, or the
    /// byte string that comes first. A number and a text are not ordered.
    pub open spec fn before(self, other: SortKey) -> bool {
        match (self, other) {
            (SortKey::Number(a), SortKey::Number(b)) => a < b,
            (SortKey::Text(a), SortKey::Text(b)) => text_before(a, b),
            _ => false,
        }
    }
}

/// The ordering of two values of which the first is before the second,
/// after it, or neither.
fn ordering(before: bool, after: bool) -> (r: Ordering)
    ensures
        (r == Ordering::Less) == before,
        (r == Ordering::Greater) == (after && !before),
{
    if before {
        Ordering::Less
    } else if after {
        Ordering::Greater
    } else {
        Ordering::Equal
    }
}

impl ProcessDetails {
    /// What the row is ordered by under a column. The owner counts by number
    /// in a numeric report and by name otherwise.
    pub open spec fn sort_key(&self, field: Field, numeric: bool) -> SortKey {
        match field {
            Field::Pid => SortKey::Number(self.process.pid as int),
            Field::User => if numeric {
                SortKey::Number(self.user.uid as int)
            } else {
                SortKey::Text(self.user.name@)
            },
            Field::Pss => SortKey::Number(self.sizes.pss@ as int),
            Field::Rss => SortKey::Number(self.sizes.rss@ as int),
            Field::Uss => SortKey::Number(self.sizes.uss@ as int),
            Field::Swap => SortKey::Number(self.sizes.swap@ as int),
            Field::Cmdline => SortKey::Text(self.process.cmdline@),
        }
    }

    /// The cell of the row in a column. Numbers stand at the right edge,
    /// texts at the left; a text that is not UTF-8 is shown with U+FFFD in
    /// place of what is not.
    pub open spec fn cell(
        &self,
        field: Field,
        numeric: bool,
        abbreviate: bool,
        size_opts: FileSizeOpts,
    ) -> Seq<char> {
        match field {
            Field::Pid => right_aligned(signed_text(self.process.pid as int), COLUMN_WIDTH as nat),
            Field::User => if numeric {
                right_aligned(decimal_text(self.user.uid as nat), COLUMN_WIDTH as nat)
            } else {
                left_aligned(lossy_text(self.user.name@), COLUMN_WIDTH as nat)
            },
            Field::Pss => self.sizes.pss.cell(abbreviate, size_opts),
            Field::Rss => self.sizes.rss.cell(abbreviate, size_opts),
            Field::Uss => self.sizes.uss.cell(abbreviate, size_opts),
            Field::Swap => self.sizes.swap.cell(abbreviate, size_opts),
            Field::Cmdline => left_aligned(lossy_text(self.process.cmdline@), COLUMN_WIDTH as nat),
        }
    }

    /// Writes the cell of the row in a column.
    pub fn format_field(&self, field: Field, opts: &Options, size_opts: &FileSizeOpts) -> (r:
        String)
        requires
            opts.abbreviate ==> usable(*size_opts),
        ensures
            r@ == self.cell(field, opts.numeric, opts.abbreviate, *size_opts),
    {
        match field {
            Field::Pid => {
                let text = signed(self.process.pid as i64);
                align_right(text.as_str(), COLUMN_WIDTH)
            },
            Field::User => {
                if opts.numeric {
                    let text = decimal(self.user.uid as u64);
                    align_right(text.as_str(), COLUMN_WIDTH)
                } else {
                    let text = text_of_bytes(self.user.name.as_slice());
                    align_left(text.as_str(), COLUMN_WIDTH)
                }
            },
            Field::Pss => self.sizes.pss.format_to(opts, size_opts),
            Field::Rss => self.sizes.rss.format_to(opts, size_opts),
            Field::Uss => self.sizes.uss.format_to(opts, size_opts),
            Field::Swap => self.sizes.swap.format_to(opts, size_opts),
            Field::Cmdline => {
                let text = text_of_bytes(self.process.cmdline.as_slice());
                align_left(text.as_str(), COLUMN_WIDTH)
            },
        }
    }

    /// Whether this row is ahead of the other in a report ordered by a
    /// column: before it, or after it where the report is reversed.
    pub fn is_ahead(&self, field: Field, other: &Self, opts: &Options) -> (r: bool)
        ensures
            r == ahead(
                self.sort_key(field, opts.numeric),
                other.sort_key(field, opts.numeric),
                opts.reverse,
            ),
    {
        match self.cmp_by(field, other, opts) {
            Ordering::Less => !opts.reverse,
            Ordering::Greater => opts.reverse,
            Ordering::Equal => false,
        }
    }

    /// Orders two rows by one column: by the number or the byte string that
    /// the column holds, and by nothing else.
    pub fn cmp_by(&self, field: Field, other: &Self, opts: &Options) -> (r: Ordering)
        ensures
            (r == Ordering::Less) == self.sort_key(field, opts.numeric).before(
                other.sort_key(field, opts.numeric),
            ),
            (r == Ordering::Greater) == other.sort_key(field, opts.numeric).before(
                self.sort_key(field, opts.numeric),
            ),
            (r == Ordering::Equal) == (self.sort_key(field, opts.numeric) == other.sort_key(
                field,
                opts.numeric,
            )),
    {
        match field {
            Field::Pid => ordering(
                self.process.pid < other.process.pid,
                other.process.pid < self.process.pid,
            ),
            Field::User => {
                if opts.numeric {
                    ordering(self.user.uid < other.user.uid, other.user.uid < self.user.uid)
                } else {
                    let a = self.user.name.as_slice();
                    let b = other.user.name.as_slice();
                    proof {
                        lemma_text_order_total(a@, b@);
                    }
                    ordering(precedes(a, b), precedes(b, a))
                }
            },
            Field::Pss => ordering(
                self.sizes.pss.0 < other.sizes.pss.0,
                other.sizes.pss.0 < self.sizes.pss.0,
            ),
            Field::Rss => ordering(
                self.sizes.rss.0 < other.sizes.rss.0,
                other.sizes.rss.0 < self.sizes.rss.0,
            ),
            Field::Uss => ordering(
                self.sizes.uss.0 < other.sizes.uss.0,
                other.sizes.uss.0 < self.sizes.uss.0,
            ),
            Field::Swap => ordering(
                self.sizes.swap.0 < other.sizes.swap.0,
                other.sizes.swap.0 < self.sizes.swap.0,
            ),
            Field::Cmdline => {
                let a = self.process.cmdline.as_slice();
                let b = other.process.cmdline.as_slice();
                proof {
                    lemma_text_order_total(a@, b@);
                }
                ordering(precedes(a, b), precedes(b, a))
            },
        }
    }
}

} // verus!
