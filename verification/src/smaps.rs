//! The memory that a process holds, summed up from its memory map.

use crate::error::Error;
use crate::fields::Field;
use crate::stats::{entry_bytes, ProcessSizes, Size, SizesView};
use crate::text::{bytes_of, has_prefix, lines, split_lines, starts_with};
use vstd::prelude::*;

verus! {

/// The size that a line of a memory map adds to, by its label: `Pss:` and
/// `Rss:` add to the size of that name, `Private_Clean:` and `Private_Dirty:`
/// both to the unique size, `Swap:` to the swapped size. A line with any
/// other label adds to none.
pub open spec fn labelled(line: Seq<u8>) -> Option<Field> {
    if starts_with(line, bytes_of("Pss:")) {
        Some(Field::Pss)
    } else if starts_with(line, bytes_of("Rss:")) {
        Some(Field::Rss)
    } else if starts_with(line, bytes_of("Private_Clean:")) || starts_with(
        line,
        bytes_of("Private_Dirty:"),
    ) {
        Some(Field::Uss)
    } else if starts_with(line, bytes_of("Swap:")) {
        Some(Field::Swap)
    } else {
        None
    }
}

/// Four sizes of which one holds `bytes` and the others nothing.
pub open spec fn single(field: Field, bytes: nat) -> SizesView
    recommends
        field.is_size(),
{
    match field {
        Field::Pss => SizesView { pss: bytes, ..SizesView::zero() },
        Field::Rss => SizesView { rss: bytes, ..SizesView::zero() },
        Field::Uss => SizesView { uss: bytes, ..SizesView::zero() },
        _ => SizesView { swap: bytes, ..SizesView::zero() },
    }
}

/// What one line of a memory map adds to the four sizes: nothing where its
/// label is none of the five, the size that it states where it is. A line
/// with one of the five labels that states no size adds nothing that could
/// be told.
pub open spec fn contribution(line: Seq<u8>) -> Option<SizesView> {
    match labelled(line) {
        None => Some(SizesView::zero()),
        Some(field) => match entry_bytes(line) {
            Some(bytes) => Some(single(field, bytes)),
            None => None,
        },
    }
}

/// The sum of what two lots of lines add, where both can be told.
pub open spec fn combined(a: Option<SizesView>, b: Option<SizesView>) -> Option<SizesView> {
    match (a, b) {
        (Some(x), Some(y)) => Some(x.plus(y)),
        _ => None,
    }
}

/// The four sizes that the lines of a memory map add up to; none where one
/// of the lines has one of the five labels and states no size.
pub open spec fn total_of(lines: Seq<Seq<u8>>) -> Option<SizesView>
    decreases lines.len(),
{
    if lines.len() == 0 {
        Some(SizesView::zero())
    } else {
        combined(total_of(lines.drop_last()), contribution(lines.last()))
    }
}

/// Whether one lot of four sizes is at most another, size by size.
pub open spec fn within(a: SizesView, b: SizesView) -> bool {
    a.rss <= b.rss && a.pss <= b.pss && a.uss <= b.uss && a.swap <= b.swap
}

/// Where lines add up to four sizes, the first so many of them add up to
/// four sizes as well, none of them larger.
pub proof fn lemma_total_grows(lines: Seq<Seq<u8>>, n: int)
    requires
        0 <= n <= lines.len(),
        total_of(lines) is Some,
    ensures
        total_of(lines.take(n)) is Some,
        within(total_of(lines.take(n))->Some_0, total_of(lines)->Some_0),
    decreases lines.len(),
{
    if n == lines.len() {
        assert(lines.take(n) =~= lines);
    } else {
        assert(lines.drop_last().take(n) =~= lines.take(n));
        lemma_total_grows(lines.drop_last(), n);
    }
}

/// The lines add up to what they add up to without one of them, and that one.
pub proof fn lemma_total_without(lines: Seq<Seq<u8>>, j: int)
    requires
        0 <= j < lines.len(),
    ensures
        total_of(lines) == combined(total_of(lines.remove(j)), contribution(lines[j])),
    decreases lines.len(),
{
    if j == lines.len() - 1 {
        assert(lines.remove(j) =~= lines.drop_last());
    } else {
        let front = lines.drop_last();
        lemma_total_without(front, j);
        assert(lines.remove(j).drop_last() =~= front.remove(j));
        assert(lines.remove(j).last() == lines.last());
        assert(front[j] == lines[j]);
        let rest = total_of(front.remove(j));
        let one = contribution(lines[j]);
        let last = contribution(lines.last());
        assert(combined(combined(rest, one), last) == combined(combined(rest, last), one)) by {
            if rest is Some && one is Some && last is Some {
                let (r, o, l) = (rest->Some_0, one->Some_0, last->Some_0);
                assert(r.plus(o).plus(l) == r.plus(l).plus(o));
            }
        }
    }
}

/// The order of the lines of a memory map does not matter: the same lines in
/// any order add up to the same four sizes, or to none in any order.
pub proof fn lemma_total_any_order(a: Seq<Seq<u8>>, b: Seq<Seq<u8>>)
    requires
        a.to_multiset() == b.to_multiset(),
    ensures
        total_of(a) == total_of(b),
    decreases a.len(),
{
    a.to_multiset_ensures();
    b.to_multiset_ensures();
    if a.len() > 0 {
        let x = a.last();
        assert(a[a.len() - 1] == x);
        assert(a.contains(x));
        assert(a.to_multiset().count(x) > 0);
        assert(b.to_multiset().count(x) > 0);
        assert(b.contains(x));
        let j = choose|j: int| 0 <= j < b.len() && b[j] == x;
        assert(a.remove(a.len() - 1) =~= a.drop_last());
        assert(a.drop_last().to_multiset() =~= b.remove(j).to_multiset());
        lemma_total_any_order(a.drop_last(), b.remove(j));
        lemma_total_without(b, j);
    } else {
        assert(b =~= Seq::<Seq<u8>>::empty());
    }
}

fn target(line: &[u8]) -> (r: Option<Field>)
    ensures
        r == labelled(line@),
{
    if has_prefix(line, "Pss:".as_bytes()) {
        Some(Field::Pss)
    } else if has_prefix(line, "Rss:".as_bytes()) {
        Some(Field::Rss)
    } else if has_prefix(line, "Private_Clean:".as_bytes()) || has_prefix(
        line,
        "Private_Dirty:".as_bytes(),
    ) {
        Some(Field::Uss)
    } else if has_prefix(line, "Swap:".as_bytes()) {
        Some(Field::Swap)
    } else {
        None
    }
}

fn only(field: Field, size: Size) -> (r: ProcessSizes)
    requires
        field.is_size(),
    ensures
        r@ == single(field, size@),
{
    match field {
        Field::Pss => ProcessSizes {
            pss: size,
            rss: Size::default(),
            uss: Size::default(),
            swap: Size::default(),
        },
        Field::Rss => ProcessSizes {
            rss: size,
            pss: Size::default(),
            uss: Size::default(),
            swap: Size::default(),
        },
        Field::Uss => ProcessSizes {
            uss: size,
            rss: Size::default(),
            pss: Size::default(),
            swap: Size::default(),
        },
        _ => ProcessSizes {
            swap: size,
            rss: Size::default(),
            pss: Size::default(),
            uss: Size::default(),
        },
    }
}

/// Sums up a memory map, given as the content of the file. Each line with
/// one of the five labels must state a size, and all four sums must fit a
/// machine word: the map is refused otherwise.
pub fn get_memory_info(content: &[u8]) -> (r: Result<ProcessSizes, Error>)
    ensures
        match total_of(lines(content@)) {
            Some(total) => if total.fits() {
                r is Ok && r->Ok_0@ == total
            } else {
                r is Err && r->Err_0 is ParseSize
            },
            None => r is Err && r->Err_0 is ParseSize,
        },
{
    let all = split_lines(content);
    let ghost text = lines(content@);
    let mut sizes = ProcessSizes::default();
    let mut i: usize = 0;
    while i < all.len()
        invariant
            i <= all@.len() == text.len(),
            text == lines(content@),
            forall|k: int| 0 <= k < all@.len() ==> (#[trigger] all@[k])@ == text[k],
            total_of(text.take(i as int)) == Some(sizes@),
        decreases all@.len() - i,
    {
        let line = all[i];
        proof {
            assert(text.take(i + 1).drop_last() =~= text.take(i as int));
            assert(text.take(i + 1).last() == line@);
            if total_of(text) is Some {
                lemma_total_grows(text, i + 1);
            }
        }
        match target(line) {
            None => {},
            Some(field) => {
                match Size::from_smap_line(line) {
                    Ok(size) => {
                        match sizes.checked_add(&only(field, size)) {
                            Some(sum) => {
                                sizes = sum;
                            },
                            None => {
                                return Err(Error::ParseSize);
                            },
                        }
                    },
                    Err(e) => {
                        return Err(e);
                    },
                }
            },
        }
        i = i + 1;
    }
    proof {
        assert(text.take(i as int) =~= text);
        sizes.lemma_fits();
    }
    Ok(sizes)
}

} // verus!
