//! Character-level helpers on strings: splitting, whitespace, decimal
//! numbers.
use vstd::prelude::*;

verus! {

/// The characters of a string, in order.
pub fn chars_of(s: &str) -> (r: Vec<char>)
    ensures
        r@ == s@,
{
    let mut out: Vec<char> = Vec::new();
    for c in it: s.chars()
        invariant
            out@ == it.seq().take(it.index() as int),
    {
        out.push(c);
        assert(out@ =~= it.seq().take(it.index() as int + 1));
    }
    out
}

/// Relies on `String`'s `FromIterator<char>`: the string of those
/// characters, in order.
#[verifier::external_body]
pub(crate) fn string_of(cs: &Vec<char>) -> (r: String)
    ensures
        r@ == cs@,
{
    cs.iter().collect()
}

/// The characters with the Unicode `White_Space` property.
pub open spec fn spec_is_whitespace(c: char) -> bool {
    let u = c as u32;
    (0x9 <= u && u <= 0xD) || u == 0x20 || u == 0x85 || u == 0xA0 || u == 0x1680 || (0x2000 <= u
        && u <= 0x200A) || u == 0x2028 || u == 0x2029 || u == 0x202F || u == 0x205F || u == 0x3000
}

pub fn is_whitespace(c: char) -> (r: bool)
    ensures
        r == spec_is_whitespace(c),
{
    let u = c as u32;
    (0x9 <= u && u <= 0xD) || u == 0x20 || u == 0x85 || u == 0xA0 || u == 0x1680 || (0x2000 <= u
        && u <= 0x200A) || u == 0x2028 || u == 0x2029 || u == 0x202F || u == 0x205F || u == 0x3000
}

/// The word `cur` if it is not empty.
pub open spec fn spec_word_if_any(cur: Seq<char>) -> Seq<Seq<char>> {
    if cur.len() > 0 {
        seq![cur]
    } else {
        Seq::empty()
    }
}

/// The words of `cs` when the word `cur` has been read up to its start:
/// maximal runs of non-whitespace characters, in order.
pub open spec fn spec_words_from(cs: Seq<char>, cur: Seq<char>) -> Seq<Seq<char>>
    decreases cs.len(),
{
    if cs.len() == 0 {
        spec_word_if_any(cur)
    } else if spec_is_whitespace(cs[0]) {
        spec_word_if_any(cur) + spec_words_from(cs.drop_first(), Seq::empty())
    } else {
        spec_words_from(cs.drop_first(), cur.push(cs[0]))
    }
}

/// The words of `cs`: maximal runs of non-whitespace characters, in order.
pub open spec fn spec_words(cs: Seq<char>) -> Seq<Seq<char>> {
    spec_words_from(cs, Seq::empty())
}

/// Splits the characters into their whitespace-separated words.
pub fn split_words(cs: &Vec<char>) -> (r: Vec<Vec<char>>)
    ensures
        r@.len() == spec_words(cs@).len(),
        forall|i: int| 0 <= i < r@.len() ==> (#[trigger] r@[i])@ == spec_words(cs@)[i],
{
    let mut out: Vec<Vec<char>> = Vec::new();
    let mut cur: Vec<char> = Vec::new();
    let ghost views: Seq<Seq<char>> = Seq::empty();
    let mut i: usize = 0;
    assert(views + spec_words_from(cs@.skip(0), cur@) =~= spec_words(cs@)) by {
        assert(cs@.skip(0) =~= cs@);
        assert(cur@ =~= Seq::<char>::empty());
    }
    while i < cs.len()
        invariant
            i <= cs@.len(),
            views.len() == out@.len(),
            forall|j: int| 0 <= j < out@.len() ==> (#[trigger] out@[j])@ == views[j],
            views + spec_words_from(cs@.skip(i as int), cur@) == spec_words(cs@),
        decreases cs@.len() - i,
    {
        let c = cs[i];
        let ghost rest = cs@.skip(i as int);
        assert(rest.drop_first() =~= cs@.skip(i + 1));
        assert(rest[0] == c);
        let ghost old_cur = cur@;
        if is_whitespace(c) {
            assert(spec_words_from(rest, old_cur) == spec_word_if_any(old_cur) + spec_words_from(
                rest.drop_first(),
                Seq::empty(),
            ));
            if cur.len() > 0 {
                proof {
                    views = views.push(cur@);
                }
                out.push(cur);
                cur = Vec::new();
            }
            assert(cur@ =~= Seq::<char>::empty());
            assert(views + spec_words_from(cs@.skip(i + 1), cur@) =~= spec_words(cs@));
        } else {
            assert(spec_words_from(rest, old_cur) == spec_words_from(rest.drop_first(), old_cur.push(c)));
            cur.push(c);
        }
        i = i + 1;
    }
    assert(cs@.skip(i as int) =~= Seq::<char>::empty());
    if cur.len() > 0 {
        proof {
            views = views.push(cur@);
        }
        out.push(cur);
    }
    assert(views =~= spec_words(cs@));
    out
}

/// The position of the last `c` in `cs`, or -1.
pub open spec fn spec_last_index_of(cs: Seq<char>, c: char) -> int
    decreases cs.len(),
{
    if cs.len() == 0 {
        -1
    } else if cs.last() == c {
        cs.len() - 1
    } else {
        spec_last_index_of(cs.drop_last(), c)
    }
}

proof fn lemma_last_index_of(cs: Seq<char>, c: char, k: int)
    requires
        -1 <= k < cs.len(),
        k >= 0 ==> cs[k] == c,
        forall|j: int| k < j < cs.len() ==> cs[j] != c,
    ensures
        spec_last_index_of(cs, c) == k,
    decreases cs.len(),
{
    if cs.len() > 0 && k < cs.len() - 1 {
        lemma_last_index_of(cs.drop_last(), c, k);
    }
}

/// Where the last `c` stands in `cs`, if anywhere.
pub fn last_index_of(cs: &Vec<char>, c: char) -> (r: Option<usize>)
    ensures
        match r {
            Some(i) => i < cs@.len() && i as int == spec_last_index_of(cs@, c),
            None => spec_last_index_of(cs@, c) == -1,
        },
{
    let mut i: usize = cs.len();
    while i > 0
        invariant
            i <= cs@.len(),
            forall|j: int| i <= j < cs@.len() ==> cs@[j] != c,
        decreases i,
    {
        if cs[i - 1] == c {
            proof {
                lemma_last_index_of(cs@, c, i - 1);
            }
            return Some(i - 1);
        }
        i = i - 1;
    }
    proof {
        lemma_last_index_of(cs@, c, -1);
    }
    None
}

/// The characters from `start` up to `end`.
pub fn slice_chars(cs: &Vec<char>, start: usize, end: usize) -> (r: Vec<char>)
    requires
        start <= end <= cs@.len(),
    ensures
        r@ == cs@.subrange(start as int, end as int),
{
    let mut out: Vec<char> = Vec::new();
    let mut i: usize = start;
    while i < end
        invariant
            start <= i <= end,
            end <= cs@.len(),
            out@ == cs@.subrange(start as int, i as int),
        decreases end - i,
    {
        out.push(cs[i]);
        i = i + 1;
        assert(out@ =~= cs@.subrange(start as int, i as int));
    }
    out
}

pub open spec fn spec_is_digit(c: char) -> bool {
    '0' <= c && c <= '9'
}

/// The value of a run of decimal digits.
pub open spec fn spec_digits_value(ds: Seq<char>) -> int
    decreases ds.len(),
{
    if ds.len() == 0 {
        0
    } else {
        spec_digits_value(ds.drop_last()) * 10 + (ds.last() as u32 - '0' as u32)
    }
}

/// The characters after an optional leading `+`.
pub open spec fn spec_unsigned_digits(cs: Seq<char>) -> Seq<char> {
    if cs.len() > 0 && cs[0] == '+' {
        cs.drop_first()
    } else {
        cs
    }
}

/// What `u32::from_str` accepts: an optional `+`, then one or more decimal
/// digits whose value fits in a `u32`.
pub open spec fn spec_parse_u32(cs: Seq<char>) -> Option<u32> {
    let ds = spec_unsigned_digits(cs);
    if ds.len() > 0 && (forall|i: int| 0 <= i < ds.len() ==> spec_is_digit(#[trigger] ds[i]))
        && spec_digits_value(ds) <= u32::MAX {
        Some(spec_digits_value(ds) as u32)
    } else {
        None
    }
}

proof fn lemma_digits_value_grows(ds: Seq<char>, i: int)
    requires
        0 <= i <= ds.len(),
        forall|j: int| 0 <= j < ds.len() ==> spec_is_digit(#[trigger] ds[j]),
    ensures
        spec_digits_value(ds) >= spec_digits_value(ds.take(i)),
        spec_digits_value(ds.take(i)) >= 0,
    decreases ds.len(),
{
    if i < ds.len() {
        let d = ds.drop_last();
        assert(d.take(i) =~= ds.take(i));
        lemma_digits_value_grows(d, i);
        lemma_digits_value_grows(d, d.len() as int);
        assert(d.take(d.len() as int) =~= d);
    } else {
        assert(ds.take(i) =~= ds);
        if ds.len() > 0 {
            let d = ds.drop_last();
            lemma_digits_value_grows(d, d.len() as int);
            assert(d.take(d.len() as int) =~= d);
        }
    }
}

/// Reads a decimal `u32`, as `u32::from_str` does.
pub fn parse_u32(cs: &Vec<char>) -> (r: Option<u32>)
    ensures
        r == spec_parse_u32(cs@),
{
    let start: usize = if cs.len() > 0 && cs[0] == '+' {
        1
    } else {
        0
    };
    let ghost ds = cs@.skip(start as int);
    assert(ds =~= spec_unsigned_digits(cs@));
    if start >= cs.len() {
        return None;
    }
    let mut value: u64 = 0;
    let mut i: usize = start;
    while i < cs.len()
        invariant
            start <= i <= cs@.len(),
            ds == cs@.skip(start as int),
            ds == spec_unsigned_digits(cs@),
            forall|j: int| 0 <= j < i - start ==> spec_is_digit(#[trigger] ds[j]),
            value == spec_digits_value(ds.take(i - start)),
            value <= u32::MAX,
        decreases cs@.len() - i,
    {
        let c = cs[i];
        if !('0' <= c && c <= '9') {
            assert(!spec_is_digit(ds[i - start]));
            assert(!(forall|j: int| 0 <= j < ds.len() ==> spec_is_digit(#[trigger] ds[j])));
            return None;
        }
        let ghost before = ds.take(i - start);
        assert(ds.take(i - start + 1).drop_last() =~= before);
        assert(ds.take(i - start + 1).last() == c);
        value = value * 10 + (c as u32 - '0' as u32) as u64;
        i = i + 1;
        assert(value == spec_digits_value(ds.take(i - start)));
        if value > 0xFFFF_FFFF {
            proof {
                if forall|j: int| 0 <= j < ds.len() ==> spec_is_digit(#[trigger] ds[j]) {
                    lemma_digits_value_grows(ds, i - start);
                    assert(spec_digits_value(ds) > u32::MAX);
                }
            }
            return None;
        }
    }
    assert(ds.take(i - start) =~= ds);
    Some(value as u32)
}

} // verus!
