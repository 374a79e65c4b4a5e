//! Character-level text helpers shared by the rest of the library: whitespace
//! trimming, substring search, decimal rendering and the std string calls
//! that vstd leaves without a contract.

use vstd::prelude::*;

verus! {

/// `String::push` appends one character.
pub assume_specification[ String::push ](s: &mut String, ch: char)
    ensures
        final(s)@ == old(s)@.push(ch),
;

/// What `str::to_lowercase` returns for a string: its Unicode lowercase
/// mapping, which depends on the characters alone.
pub uninterp spec fn unicode_lowercase(s: Seq<char>) -> Seq<char>;

/// `str::to_lowercase` returns the lowercase mapping of its argument; the
/// mapping itself (Unicode's tables) is not spelled out here.
pub assume_specification[ str::to_lowercase ](s: &str) -> (r: String)
    ensures
        r@ == unicode_lowercase(s@),
;

/// The Unicode `White_Space` property, which `char::is_whitespace` and
/// `str::trim` go by.
pub open spec fn is_white_space(c: char) -> bool {
    let u = c as u32;
    ||| 0x09 <= u <= 0x0d
    ||| u == 0x20
    ||| u == 0x85
    ||| u == 0xa0
    ||| u == 0x1680
    ||| 0x2000 <= u <= 0x200a
    ||| u == 0x2028
    ||| u == 0x2029
    ||| u == 0x202f
    ||| u == 0x205f
    ||| u == 0x3000
}

/// `s` without its leading whitespace.
pub open spec fn trim_start(s: Seq<char>) -> Seq<char>
    decreases s.len(),
{
    if s.len() > 0 && is_white_space(s[0]) {
        trim_start(s.drop_first())
    } else {
        s
    }
}

/// `s` without its trailing whitespace.
pub open spec fn trim_end(s: Seq<char>) -> Seq<char>
    decreases s.len(),
{
    if s.len() > 0 && is_white_space(s.last()) {
        trim_end(s.drop_last())
    } else {
        s
    }
}

/// `s` without leading and trailing whitespace, as `str::trim` gives it.
pub open spec fn trim(s: Seq<char>) -> Seq<char> {
    trim_end(trim_start(s))
}

/// `needle` occurs in `hay` starting at position `i`.
pub open spec fn occurs_at(hay: Seq<char>, needle: Seq<char>, i: int) -> bool {
    &&& 0 <= i
    &&& i + needle.len() <= hay.len()
    &&& hay.subrange(i, i + needle.len()) == needle
}

/// The first position at or after `from` where `needle` occurs in `hay`.
pub open spec fn find_from(hay: Seq<char>, needle: Seq<char>, from: nat) -> Option<nat>
    decreases hay.len() + 1 - from,
{
    if from + needle.len() > hay.len() {
        None
    } else if occurs_at(hay, needle, from as int) {
        Some(from)
    } else {
        find_from(hay, needle, from + 1)
    }
}

/// The first position where `needle` occurs in `hay`, as `str::find` gives it
/// (counted in characters rather than bytes).
pub open spec fn find(hay: Seq<char>, needle: Seq<char>) -> Option<nat> {
    find_from(hay, needle, 0)
}

/// The decimal digit character for `d < 10`.
pub open spec fn digit_char(d: nat) -> char {
    ('0' as u32 + d) as char
}

/// The decimal representation of `n`, without sign or leading zeros.
pub open spec fn decimal(n: nat) -> Seq<char>
    decreases n,
{
    if n < 10 {
        seq![digit_char(n)]
    } else {
        decimal(n / 10).push(digit_char(n % 10))
    }
}

/// `find_from` finds an occurrence, and no earlier one after `from`.
pub proof fn lemma_find_from_is_first(hay: Seq<char>, needle: Seq<char>, from: nat)
    ensures
        match find_from(hay, needle, from) {
            Some(i) => from <= i && occurs_at(hay, needle, i as int) && forall|j: int|
                from <= j < i ==> !occurs_at(hay, needle, j),
            None => forall|j: int| from <= j ==> !occurs_at(hay, needle, j),
        },
    decreases hay.len() + 1 - from,
{
    if from + needle.len() > hay.len() {
    } else if occurs_at(hay, needle, from as int) {
    } else {
        lemma_find_from_is_first(hay, needle, from + 1);
    }
}

/// An occurrence at `i` means the search from any earlier start finds
/// something no later than `i`.
pub proof fn lemma_find_from_at_most(hay: Seq<char>, needle: Seq<char>, from: nat, i: nat)
    requires
        from <= i,
        occurs_at(hay, needle, i as int),
    ensures
        find_from(hay, needle, from) is Some,
        find_from(hay, needle, from)->0 <= i,
    decreases i - from,
{
    if from < i && !occurs_at(hay, needle, from as int) {
        lemma_find_from_at_most(hay, needle, from + 1, i);
    }
}

/// Searching finds nothing exactly when there is no occurrence at all.
pub proof fn lemma_find_none_iff(hay: Seq<char>, needle: Seq<char>)
    ensures
        find(hay, needle) is None <==> forall|j: int| !occurs_at(hay, needle, j),
{
    lemma_find_from_is_first(hay, needle, 0);
    if find(hay, needle) is Some {
        assert(occurs_at(hay, needle, find(hay, needle)->0 as int));
    }
}

/// What does not occur in a text does not occur in any part of it.
pub proof fn lemma_absent_in_range(hay: Seq<char>, needle: Seq<char>, a: int, b: int)
    requires
        0 <= a <= b <= hay.len(),
        find(hay, needle) is None,
    ensures
        find(hay.subrange(a, b), needle) is None,
{
    lemma_find_none_iff(hay, needle);
    lemma_find_none_iff(hay.subrange(a, b), needle);
    let part = hay.subrange(a, b);
    assert forall|j: int| !occurs_at(part, needle, j) by {
        if occurs_at(part, needle, j) {
            assert(hay.subrange(a + j, a + j + needle.len()) =~= part.subrange(
                j,
                j + needle.len(),
            ));
            assert(occurs_at(hay, needle, a + j));
        }
    }
}

/// `trim_start(s)` is a suffix of `s`.
pub proof fn lemma_trim_start_is_suffix(s: Seq<char>)
    ensures
        trim_start(s).len() <= s.len(),
        trim_start(s) == s.subrange(s.len() - trim_start(s).len(), s.len() as int),
        trim_start(s).len() == 0 || !is_white_space(trim_start(s)[0]),
        forall|j: int| 0 <= j < s.len() - trim_start(s).len() ==> is_white_space(#[trigger] s[j]),
    decreases s.len(),
{
    if s.len() > 0 && is_white_space(s[0]) {
        lemma_trim_start_is_suffix(s.drop_first());
        assert forall|j: int| 0 <= j < s.len() - trim_start(s).len() implies is_white_space(
            #[trigger] s[j],
        ) by {
            if j > 0 {
                assert(s[j] == s.drop_first()[j - 1]);
            }
        }
        assert(s.drop_first().subrange(
            s.drop_first().len() - trim_start(s).len(),
            s.drop_first().len() as int,
        ) =~= s.subrange(s.len() - trim_start(s).len(), s.len() as int));
    } else {
        assert(s.subrange(0, s.len() as int) =~= s);
    }
}

/// `trim_end(s)` is a prefix of `s`.
pub proof fn lemma_trim_end_is_prefix(s: Seq<char>)
    ensures
        trim_end(s).len() <= s.len(),
        trim_end(s) == s.subrange(0, trim_end(s).len() as int),
        trim_end(s).len() == 0 || !is_white_space(trim_end(s).last()),
        forall|j: int| trim_end(s).len() <= j < s.len() ==> is_white_space(#[trigger] s[j]),
    decreases s.len(),
{
    if s.len() > 0 && is_white_space(s.last()) {
        lemma_trim_end_is_prefix(s.drop_last());
        assert forall|j: int| trim_end(s).len() <= j < s.len() implies is_white_space(
            #[trigger] s[j],
        ) by {
            if j < s.len() - 1 {
                assert(s[j] == s.drop_last()[j]);
            }
        }
        assert(s.drop_last().subrange(0, trim_end(s).len() as int) =~= s.subrange(
            0,
            trim_end(s).len() as int,
        ));
    } else {
        assert(s.subrange(0, s.len() as int) =~= s);
    }
}

/// `trim(s)` is a contiguous part of `s`.
pub proof fn lemma_trim_is_range(s: Seq<char>)
    ensures
        exists|a: int, b: int| 0 <= a <= b <= s.len() && trim(s) == s.subrange(a, b),
{
    lemma_trim_start_is_suffix(s);
    let t = trim_start(s);
    lemma_trim_end_is_prefix(t);
    let a = s.len() - t.len();
    let b = a + trim_end(t).len();
    assert(trim(s) =~= s.subrange(a, b));
}

/// Trimming keeps a text free of what it was free of.
pub proof fn lemma_trim_keeps_absence(s: Seq<char>, needle: Seq<char>)
    requires
        find(s, needle) is None,
    ensures
        find(trim(s), needle) is None,
{
    lemma_trim_is_range(s);
    let (a, b) = choose|a: int, b: int| 0 <= a <= b <= s.len() && trim(s) == s.subrange(a, b);
    lemma_absent_in_range(s, needle, a, b);
}

/// Trimming a trimmed text changes nothing.
pub proof fn lemma_trim_idempotent(s: Seq<char>)
    ensures
        trim(trim(s)) == trim(s),
{
    let t = trim_start(s);
    lemma_trim_start_is_suffix(s);
    lemma_trim_end_is_prefix(t);
    let e = trim_end(t);
    if e.len() > 0 {
        assert(e[0] == t[0]);
    }
    assert(trim_start(e) == e);
    assert(trim_end(e) == e);
}

/// Trimming `x + y` when `x` is not all whitespace keeps `y` whole.
pub proof fn lemma_trim_start_append(x: Seq<char>, y: Seq<char>)
    ensures
        trim_start(x + y) == if trim_start(x).len() > 0 {
            trim_start(x) + y
        } else {
            trim_start(y)
        },
    decreases x.len(),
{
    if x.len() == 0 {
        assert(x + y =~= y);
    } else if is_white_space(x[0]) {
        assert((x + y).drop_first() =~= x.drop_first() + y);
        lemma_trim_start_append(x.drop_first(), y);
    } else {
        assert((x + y)[0] == x[0]);
    }
}

/// A line break on either side of a text is trimmed away with the rest.
pub proof fn lemma_trim_newline(x: Seq<char>)
    ensures
        trim(x + seq!['\n']) == trim(x),
        trim(seq!['\n'] + x) == trim(x),
{
    let nl = seq!['\n'];
    assert(is_white_space('\n'));
    assert((nl + x).drop_first() =~= x);
    assert(trim_start(nl + x) == trim_start(x));
    lemma_trim_start_append(x, nl);
    assert(nl.drop_first() =~= Seq::<char>::empty());
    assert(trim_start(Seq::<char>::empty()) == Seq::<char>::empty());
    assert(nl.len() > 0 && is_white_space(nl[0]));
    assert(trim_start(nl) == Seq::<char>::empty());
    let t = trim_start(x);
    if t.len() > 0 {
        assert((t + nl).drop_last() =~= t);
        assert(trim_end(t + nl) == trim_end(t));
    } else {
        assert(trim_end(Seq::<char>::empty()) == Seq::<char>::empty());
    }
}

/// A printable ASCII character other than the space.
pub open spec fn is_visible_ascii(c: char) -> bool {
    0x21 <= (c as u32) && (c as u32) <= 0x7e
}

/// Among ASCII characters, trimming removes exactly the space and the
/// control characters tab, line feed, vertical tab, form feed and carriage
/// return; no letter, digit or punctuation mark is whitespace.
pub proof fn lemma_ascii_white_space(c: char)
    ensures
        (c as u32) < 0x80 ==> (is_white_space(c) <==> (c == ' ' || c == '\t' || c == '\n' || c
            == '\x0b' || c == '\x0c' || c == '\r')),
        is_visible_ascii(c) ==> !is_white_space(c),
{
}

/// A text that starts and ends with a printable non-space ASCII character
/// is left as it is by trimming.
pub proof fn lemma_trim_keeps_visible_ends(x: Seq<char>)
    requires
        x.len() > 0,
        is_visible_ascii(x[0]),
        is_visible_ascii(x.last()),
    ensures
        trim(x) == x,
{
    lemma_ascii_white_space(x[0]);
    lemma_ascii_white_space(x.last());
    assert(trim_start(x) == x);
}

/// What trimming keeps: one contiguous part of the text, with only
/// whitespace before and after it, beginning and ending with a character
/// that is not whitespace (or empty, when the text is all whitespace).
pub proof fn lemma_trim_characterized(x: Seq<char>)
    ensures
        exists|a: int, b: int|
            {
                &&& 0 <= a <= b <= x.len()
                &&& trim(x) == x.subrange(a, b)
                &&& forall|j: int| 0 <= j < a ==> is_white_space(#[trigger] x[j])
                &&& forall|j: int| b <= j < x.len() ==> is_white_space(#[trigger] x[j])
                &&& a < b ==> !is_white_space(x[a]) && !is_white_space(x[b - 1])
                &&& a == b ==> forall|j: int| 0 <= j < x.len() ==> is_white_space(#[trigger] x[j])
            },
{
    lemma_trim_start_is_suffix(x);
    let t = trim_start(x);
    lemma_trim_end_is_prefix(t);
    let e = trim_end(t);
    let a = x.len() - t.len();
    let b = a + e.len();
    assert(trim(x) =~= x.subrange(a, b));
    assert forall|j: int| b <= j < x.len() implies is_white_space(#[trigger] x[j]) by {
        assert(x[j] == t[j - a]);
    }
    if a < b {
        assert(x[a] == t[0]);
        assert(e[0] == t[0]);
        assert(x[b - 1] == e.last());
    } else {
        assert forall|j: int| 0 <= j < x.len() implies is_white_space(#[trigger] x[j]) by {
            if j >= a {
                assert(x[j] == t[j - a]);
            }
        }
    }
}

/// Whether `c` is whitespace in the sense of `is_white_space`.
pub fn is_white_space_char(c: char) -> (r: bool)
    ensures
        r == is_white_space(c),
{
    let u = c as u32;
    (0x09 <= u && u <= 0x0d) || u == 0x20 || u == 0x85 || u == 0xa0 || u == 0x1680 || (0x2000
        <= u && u <= 0x200a) || u == 0x2028 || u == 0x2029 || u == 0x202f || u == 0x205f || u
        == 0x3000
}

/// The characters of `s`, in order.
pub fn chars_of(s: &str) -> (v: Vec<char>)
    ensures
        v@ == s@,
{
    let mut v: Vec<char> = Vec::new();
    for c in it: s.chars()
        invariant
            v@ == it.seq().take(it.index() as int),
    {
        v.push(c);
    }
    v
}

/// A vector holding `v[lo..hi]`.
pub fn vec_of_range(v: &Vec<char>, lo: usize, hi: usize) -> (r: Vec<char>)
    requires
        lo <= hi <= v@.len(),
    ensures
        r@ == v@.subrange(lo as int, hi as int),
{
    let mut r: Vec<char> = Vec::new();
    let mut i = lo;
    while i < hi
        invariant
            lo <= i <= hi <= v@.len(),
            r@ == v@.subrange(lo as int, i as int),
        decreases hi - i,
    {
        r.push(v[i]);
        i += 1;
        assert(r@ =~= v@.subrange(lo as int, i as int));
    }
    r
}

/// Appends the characters of `t` to `s`.
pub fn append_text(s: &mut String, t: &str)
    ensures
        final(s)@ == old(s)@ + t@,
{
    let ghost start = s@;
    for c in it: t.chars()
        invariant
            s@ == start + it.seq().take(it.index() as int),
    {
        s.push(c);
        assert(s@ =~= start + it.seq().take(it.index() + 1));
    }
}

/// A `String` holding `v[lo..hi]`.
pub fn string_of_range(v: &Vec<char>, lo: usize, hi: usize) -> (s: String)
    requires
        lo <= hi <= v@.len(),
    ensures
        s@ == v@.subrange(lo as int, hi as int),
{
    let mut s = String::new();
    let mut i = lo;
    while i < hi
        invariant
            lo <= i <= hi <= v@.len(),
            s@ == v@.subrange(lo as int, i as int),
        decreases hi - i,
    {
        s.push(v[i]);
        i += 1;
        assert(s@ =~= v@.subrange(lo as int, i as int));
    }
    s
}

/// A `String` holding `v[lo..hi]` without leading and trailing whitespace.
pub fn trimmed_range(v: &Vec<char>, lo: usize, hi: usize) -> (s: String)
    requires
        lo <= hi <= v@.len(),
    ensures
        s@ == trim(v@.subrange(lo as int, hi as int)),
{
    let ghost whole = v@.subrange(lo as int, hi as int);
    let mut a = lo;
    while a < hi && is_white_space_char(v[a])
        invariant
            lo <= a <= hi <= v@.len(),
            whole == v@.subrange(lo as int, hi as int),
            trim_start(whole) == trim_start(v@.subrange(a as int, hi as int)),
        decreases hi - a,
    {
        assert(v@.subrange(a as int, hi as int).drop_first() =~= v@.subrange(a + 1, hi as int));
        a += 1;
    }
    assert(trim_start(v@.subrange(a as int, hi as int)) == v@.subrange(a as int, hi as int));
    let mut b = hi;
    while b > a && is_white_space_char(v[b - 1])
        invariant
            lo <= a <= b <= hi <= v@.len(),
            trim_end(v@.subrange(a as int, hi as int)) == trim_end(v@.subrange(a as int, b as int)),
        decreases b - a,
    {
        assert(v@.subrange(a as int, b as int).drop_last() =~= v@.subrange(a as int, b - 1));
        b -= 1;
    }
    string_of_range(v, a, b)
}

/// Whether `needle` occurs in `hay` at position `i`.
pub fn occurs_at_exec(hay: &Vec<char>, needle: &Vec<char>, i: usize) -> (r: bool)
    ensures
        r == occurs_at(hay@, needle@, i as int),
{
    if needle.len() > hay.len() || i > hay.len() - needle.len() {
        return false;
    }
    let mut k: usize = 0;
    while k < needle.len()
        invariant
            i + needle.len() <= hay.len(),
            k <= needle@.len(),
            forall|j: int| 0 <= j < k ==> hay@[i + j] == needle@[j],
        decreases needle.len() - k,
    {
        if hay[i + k] != needle[k] {
            assert(hay@.subrange(i as int, i + needle@.len())[k as int] != needle@[k as int]);
            return false;
        }
        k += 1;
    }
    assert(hay@.subrange(i as int, i + needle@.len()) =~= needle@);
    true
}

/// The first position at or after `from` where `needle` occurs in `hay`.
pub fn find_from_exec(hay: &Vec<char>, needle: &Vec<char>, from: usize) -> (r: Option<usize>)
    ensures
        match r {
            Some(i) => find_from(hay@, needle@, from as nat) == Some(i as nat),
            None => find_from(hay@, needle@, from as nat) is None,
        },
{
    let mut i = from;
    while needle.len() <= hay.len() && i <= hay.len() - needle.len()
        invariant
            from <= i,
            find_from(hay@, needle@, from as nat) == find_from(hay@, needle@, i as nat),
        decreases hay.len() + 1 - i,
    {
        if occurs_at_exec(hay, needle, i) {
            return Some(i);
        }
        assert(i < hay.len()) by {
            if needle.len() == 0 {
                assert(hay@.subrange(i as int, i as int) =~= needle@);
            }
        }
        i += 1;
    }
    None
}

/// Whether two strings hold the same characters.
pub fn same_text(a: &str, b: &str) -> (r: bool)
    ensures
        r == (a@ == b@),
{
    let a_owned = a.to_owned();
    let b_owned = b.to_owned();
    a_owned == b_owned
}

/// Appends the decimal representation of `n` to `s`.
fn push_decimal(s: &mut String, n: u64)
    ensures
        final(s)@ == old(s)@ + decimal(n as nat),
    decreases n,
{
    if n >= 10 {
        push_decimal(s, n / 10);
    }
    let c = (48u8 + (n % 10) as u8) as char;
    s.push(c);
    assert(final(s)@ =~= old(s)@ + decimal(n as nat));
}

/// The decimal representation of `n`, as `n.to_string()` gives it.
pub fn decimal_string(n: u64) -> (s: String)
    ensures
        s@ == decimal(n as nat),
{
    let mut s = String::new();
    push_decimal(&mut s, n);
    assert(s@ =~= decimal(n as nat));
    s
}

} // verus!
