//! Pure rules of the journal's file storage: what an entry's file is
//! called and how the listing is ordered. The storage itself (directory
//! I/O, front-matter parsing, date parsing) stays with the host, which
//! hands this module plain values.

use vstd::prelude::*;

verus! {

use crate::transcribe::{trim_ascii, trim_spec};

/// The markdown file suffix ".md", as bytes.
pub open spec fn md_suffix() -> Seq<u8> {
    seq![46u8, 109u8, 100u8]
}

/// Whether a file name already ends in ".md".
pub open spec fn has_md_suffix(name: Seq<u8>) -> bool {
    name.len() >= 3 && name.subrange(name.len() - 3, name.len() as int) == md_suffix()
}

/// A rename target always ends in ".md": the suffix is appended when it is
/// missing.
pub fn normalized_entry_filename(name: &Vec<u8>) -> (r: Vec<u8>)
    ensures
        has_md_suffix(name@) ==> r@ == name@,
        !has_md_suffix(name@) ==> r@ == name@ + md_suffix(),
{
    let n = name.len();
    let has_suffix: bool = n >= 3 && name[n - 3] == 46 && name[n - 2] == 109 && name[n - 1] == 100;
    proof {
        if n >= 3 {
            let tail = name@.subrange(n - 3, n as int);
            assert(tail.len() == 3);
            assert(tail[0] == name@[n - 3]);
            assert(tail[1] == name@[n - 2]);
            assert(tail[2] == name@[n - 1]);
            if has_suffix {
                assert(tail =~= md_suffix());
            } else {
                assert(tail != md_suffix());
            }
        }
    }
    let mut out = name.clone();
    assert(out@ =~= name@);
    if !has_suffix {
        out.push(46);
        out.push(109);
        out.push(100);
        assert(out@ =~= name@ + md_suffix());
    }
    out
}

/// The file an entry is saved under once its metadata is edited: the
/// trimmed title when one is given, else the date, with ".md" appended.
pub fn chosen_entry_filename(title: &Vec<u8>, date: &Vec<u8>) -> (r: Vec<u8>)
    ensures
        trim_spec(title@).len() == 0 ==> r@ == date@ + md_suffix(),
        trim_spec(title@).len() > 0 ==> r@ == trim_spec(title@) + md_suffix(),
{
    let t = trim_ascii(title);
    let mut out: Vec<u8>;
    if t.len() == 0 {
        out = date.clone();
        assert(out@ =~= date@);
    } else {
        out = t;
    }
    let ghost stem: Seq<u8> = out@;
    out.push(46);
    out.push(109);
    out.push(100);
    assert(out@ =~= stem + md_suffix());
    out
}

/// A calendar date as plain values: year, month, day.
#[derive(Clone, Copy, PartialEq, Eq, Structural, Debug)]
pub struct EntryDate {
    pub year: i32,
    pub month: u32,
    pub day: u32,
}

/// Calendar order of two dates.
pub open spec fn date_before(a: EntryDate, b: EntryDate) -> bool {
    a.year < b.year || (a.year == b.year && (a.month < b.month || (a.month == b.month
        && a.day < b.day)))
}

/// Lexicographic order on byte strings; a strict prefix comes first.
pub open spec fn bytes_before(a: Seq<u8>, b: Seq<u8>) -> bool
    decreases a.len(),
{
    if b.len() == 0 {
        false
    } else if a.len() == 0 {
        true
    } else if a[0] < b[0] {
        true
    } else if a[0] > b[0] {
        false
    } else {
        bytes_before(a.drop_first(), b.drop_first())
    }
}

/// Where one entry stands against another in the listing.
#[derive(Clone, Copy, PartialEq, Eq, Structural, Debug)]
pub enum EntryOrder {
    Before,
    Same,
    After,
}

/// A common prefix does not decide the order: it is decided by the rest.
proof fn lemma_bytes_before_skip(a: Seq<u8>, b: Seq<u8>, i: int)
    requires
        0 <= i <= a.len(),
        i <= b.len(),
        forall|j: int| 0 <= j < i ==> a[j] == b[j],
    ensures
        bytes_before(a, b) == bytes_before(a.skip(i), b.skip(i)),
    decreases i,
{
    if i == 0 {
        assert(a.skip(0) =~= a);
        assert(b.skip(0) =~= b);
    } else {
        assert(a[0] == b[0]);
        lemma_bytes_before_skip(a.drop_first(), b.drop_first(), i - 1);
        assert(a.drop_first().skip(i - 1) =~= a.skip(i));
        assert(b.drop_first().skip(i - 1) =~= b.skip(i));
    }
}

/// Lexicographic comparison of two byte strings.
pub fn compare_bytes(a: &Vec<u8>, b: &Vec<u8>) -> (r: EntryOrder)
    ensures
        r == EntryOrder::Before <==> bytes_before(a@, b@),
        r == EntryOrder::After <==> bytes_before(b@, a@),
        r == EntryOrder::Same <==> a@ == b@,
{
    let n: usize = if a.len() < b.len() {
        a.len()
    } else {
        b.len()
    };
    let mut i: usize = 0;
    while i < n
        invariant
            n <= a@.len(),
            n <= b@.len(),
            n == a@.len() || n == b@.len(),
            i <= n,
            forall|j: int| 0 <= j < i ==> a@[j] == b@[j],
        decreases n - i,
    {
        let x: u8 = a[i];
        let y: u8 = b[i];
        if x < y {
            proof {
                lemma_bytes_before_skip(a@, b@, i as int);
                lemma_bytes_before_skip(b@, a@, i as int);
                assert(a@.skip(i as int)[0] == x);
                assert(b@.skip(i as int)[0] == y);
                assert(a@[i as int] != b@[i as int]);
            }
            return EntryOrder::Before;
        }
        if y < x {
            proof {
                lemma_bytes_before_skip(a@, b@, i as int);
                lemma_bytes_before_skip(b@, a@, i as int);
                assert(a@.skip(i as int)[0] == x);
                assert(b@.skip(i as int)[0] == y);
                assert(a@[i as int] != b@[i as int]);
            }
            return EntryOrder::After;
        }
        i = i + 1;
    }
    proof {
        lemma_bytes_before_skip(a@, b@, n as int);
        lemma_bytes_before_skip(b@, a@, n as int);
    }
    if a.len() < b.len() {
        EntryOrder::Before
    } else if b.len() < a.len() {
        EntryOrder::After
    } else {
        assert(a@ =~= b@);
        EntryOrder::Same
    }
}

/// The listing order of entry `a` against entry `b`: dated entries newest
/// first; an entry without a parsed date stands before dated ones; among
/// entries without one, file names in descending order decide.
pub fn compare_entries(
    a_date: Option<EntryDate>,
    b_date: Option<EntryDate>,
    a_name: &Vec<u8>,
    b_name: &Vec<u8>,
) -> (r: EntryOrder)
    ensures
        match (a_date, b_date) {
            (Option::Some(ad), Option::Some(bd)) => r == (if date_before(bd, ad) {
                EntryOrder::Before
            } else if date_before(ad, bd) {
                EntryOrder::After
            } else {
                EntryOrder::Same
            }),
            (Option::Some(_), Option::None) => r == EntryOrder::After,
            (Option::None, Option::Some(_)) => r == EntryOrder::Before,
            (Option::None, Option::None) => (r == EntryOrder::Before <==> bytes_before(
                b_name@, a_name@)) && (r == EntryOrder::After <==> bytes_before(
                a_name@, b_name@)) && (r == EntryOrder::Same <==> a_name@ == b_name@),
        },
{
    match (a_date, b_date) {
        (Option::Some(ad), Option::Some(bd)) => {
            if compare_dates(&bd, &ad) {
                EntryOrder::Before
            } else if compare_dates(&ad, &bd) {
                EntryOrder::After
            } else {
                EntryOrder::Same
            }
        },
        (Option::Some(_), Option::None) => EntryOrder::After,
        (Option::None, Option::Some(_)) => EntryOrder::Before,
        (Option::None, Option::None) => compare_bytes(b_name, a_name),
    }
}

/// Whether one date lies strictly before another.
fn compare_dates(a: &EntryDate, b: &EntryDate) -> (r: bool)
    ensures
        r == date_before(*a, *b),
{
    a.year < b.year || (a.year == b.year && (a.month < b.month || (a.month == b.month
        && a.day < b.day)))
}

} // verus!
