//! Texts as sequences of characters: conversions between strings and
//! character vectors, and the search for a literal marker.

use vstd::prelude::*;

verus! {

/// `String::push` appends one character to the text.
pub assume_specification[ String::push ](s: &mut String, c: char)
    ensures
        final(s)@ == old(s)@.push(c),
;

/// Whether `m` stands in `t` at index `i`.
pub open spec fn occurs_at(t: Seq<char>, m: Seq<char>, i: int) -> bool {
    &&& 0 <= i
    &&& i + m.len() <= t.len()
    &&& t.subrange(i, i + m.len()) == m
}

/// Whether `i` is the least index at or after `from` at which `m` stands in
/// `t`.
pub open spec fn is_first_occurrence(t: Seq<char>, m: Seq<char>, from: int, i: int) -> bool {
    &&& from <= i
    &&& occurs_at(t, m, i)
    &&& forall|j: int| from <= j < i ==> !occurs_at(t, m, j)
}

/// The least index at or after `from` at which `m` stands in `t`, if `m`
/// stands anywhere there.
pub open spec fn first_occurrence(t: Seq<char>, m: Seq<char>, from: int) -> Option<int> {
    if exists|i: int| from <= i && occurs_at(t, m, i) {
        Some(choose|i: int| is_first_occurrence(t, m, from, i))
    } else {
        None
    }
}

/// An index that is a first occurrence is the first occurrence.
pub proof fn lemma_first_occurrence_is(t: Seq<char>, m: Seq<char>, from: int, i: int)
    requires
        is_first_occurrence(t, m, from, i),
    ensures
        first_occurrence(t, m, from) == Some(i),
{
    let c = choose|k: int| is_first_occurrence(t, m, from, k);
    assert(is_first_occurrence(t, m, from, c));
    assert(c == i) by {
        if c < i {
            assert(!occurs_at(t, m, c));
        } else if i < c {
            assert(!occurs_at(t, m, i));
        }
    }
}

/// Where a first occurrence is reported, it is one.
pub proof fn lemma_first_occurrence_some(t: Seq<char>, m: Seq<char>, from: int)
    requires
        first_occurrence(t, m, from) is Some,
    ensures
        is_first_occurrence(t, m, from, first_occurrence(t, m, from).unwrap()),
{
    let w = choose|i: int| from <= i && occurs_at(t, m, i);
    lemma_least_occurrence(t, m, from, w);
}

/// Below any occurrence at or after `from` lies a first one.
proof fn lemma_least_occurrence(t: Seq<char>, m: Seq<char>, from: int, w: int)
    requires
        from <= w,
        occurs_at(t, m, w),
    ensures
        exists|i: int| is_first_occurrence(t, m, from, i),
    decreases w - from,
{
    if exists|j: int| from <= j < w && occurs_at(t, m, j) {
        let j = choose|j: int| from <= j < w && occurs_at(t, m, j);
        lemma_least_occurrence(t, m, from, j);
    } else {
        assert(is_first_occurrence(t, m, from, w));
    }
}

/// The characters of `s`, in order.
pub fn chars_of(s: &str) -> (v: Vec<char>)
    ensures
        v@ == s@,
{
    let mut v: Vec<char> = Vec::new();
    let chars = s.chars();
    for c in it: chars
        invariant
            it.seq() == s@,
            v@ == s@.take(it.index()),
    {
        v.push(c);
    }
    v
}

/// The string made of the characters `v[from..to]`.
pub(crate) fn string_of(v: &[char], from: usize, to: usize) -> (s: String)
    requires
        from <= to <= v@.len(),
    ensures
        s@ == v@.subrange(from as int, to as int),
{
    let mut s = String::new();
    let mut i: usize = from;
    while i < to
        invariant
            from <= i <= to <= v@.len(),
            s@ == v@.subrange(from as int, i as int),
        decreases to - i,
    {
        s.push(v[i]);
        i += 1;
    }
    s
}

/// Whether the two texts are the same.
pub fn same_text(a: &str, b: &str) -> (r: bool)
    ensures
        r == (a@ == b@),
{
    let x = chars_of(a);
    let y = chars_of(b);
    if x.len() != y.len() {
        return false;
    }
    let mut i: usize = 0;
    while i < x.len()
        invariant
            i <= x@.len(),
            x@ == a@,
            y@ == b@,
            x@.len() == y@.len(),
            forall|j: int| 0 <= j < i ==> x@[j] == y@[j],
        decreases x@.len() - i,
    {
        if x[i] != y[i] {
            return false;
        }
        i += 1;
    }
    assert(x@ =~= y@);
    true
}

/// Whether `m` stands in `t` at index `i`.
pub fn stands_at(t: &[char], m: &[char], i: usize) -> (b: bool)
    ensures
        b == occurs_at(t@, m@, i as int),
{
    let n: usize = t.len();
    if i > n || m.len() > n - i {
        return false;
    }
    let mut k: usize = 0;
    while k < m.len()
        invariant
            k <= m@.len(),
            n == t@.len(),
            i + m@.len() <= n,
            forall|j: int| 0 <= j < k ==> t@[i + j] == m@[j],
        decreases m@.len() - k,
    {
        if t[i + k] != m[k] {
            return false;
        }
        k += 1;
    }
    assert(t@.subrange(i as int, i + m@.len()) =~= m@);
    true
}

/// The least index at or after `from` at which `m` stands in `t`.
pub fn find_from(t: &[char], m: &[char], from: usize) -> (r: Option<usize>)
    ensures
        match r {
            Some(i) => first_occurrence(t@, m@, from as int) == Some(i as int),
            None => first_occurrence(t@, m@, from as int) is None,
        },
{
    if m.len() > t.len() || from > t.len() - m.len() {
        return None;
    }
    let last: usize = t.len() - m.len();
    let mut i: usize = from;
    loop
        invariant
            from <= i <= last,
            last == t@.len() - m@.len(),
            forall|j: int| from <= j < i ==> !occurs_at(t@, m@, j),
        decreases last - i,
    {
        if stands_at(t, m, i) {
            proof {
                lemma_first_occurrence_is(t@, m@, from as int, i as int);
            }
            return Some(i);
        }
        if i == last {
            return None;
        }
        i += 1;
    }
}

} // verus!
