//! Strings as sequences of characters: runs of a class of characters at
//! either end of a string, and the decimal numeral of a number.

use vstd::prelude::*;
use vstd::string::*;

verus! {

broadcast use vstd::string::group_string_axioms;

/// Whether `c` is white space, as `char::is_whitespace` decides it.
pub uninterp spec fn is_white_space(c: char) -> bool;

/// `char::is_whitespace`: whether the character has the Unicode property
/// `White_Space`. The answer depends on the character alone.
pub assume_specification[ char::is_whitespace ](c: char) -> (b: bool)
    ensures
        b == is_white_space(c),
;

/// A class of characters.
#[derive(Clone, Copy, Debug)]
pub enum CharClass {
    /// The white-space characters.
    WhiteSpace,
    /// The given character and no other.
    Only(char),
    /// Every character but the given one.
    Except(char),
}

impl CharClass {
    /// Whether `c` belongs to the class.
    pub open spec fn has(self, c: char) -> bool {
        match self {
            CharClass::WhiteSpace => is_white_space(c),
            CharClass::Only(m) => c == m,
            CharClass::Except(m) => c != m,
        }
    }

    /// Whether `c` belongs to the class.
    pub fn contains(&self, c: char) -> (r: bool)
        ensures
            r == self.has(c),
    {
        match self {
            CharClass::WhiteSpace => c.is_whitespace(),
            CharClass::Only(m) => c == *m,
            CharClass::Except(m) => c != *m,
        }
    }
}

/// The number of characters of `class` that `s` begins with.
pub open spec fn leading(s: Seq<char>, class: CharClass) -> nat
    decreases s.len(),
{
    if s.len() > 0 && class.has(s.first()) {
        1 + leading(s.drop_first(), class)
    } else {
        0
    }
}

/// The number of characters of `class` that `s` ends with.
pub open spec fn trailing(s: Seq<char>, class: CharClass) -> nat
    decreases s.len(),
{
    if s.len() > 0 && class.has(s.last()) {
        1 + trailing(s.drop_last(), class)
    } else {
        0
    }
}

/// `s` without the characters of `class` at its start.
pub open spec fn strip_start(s: Seq<char>, class: CharClass) -> Seq<char> {
    s.skip(leading(s, class) as int)
}

/// `s` without the characters of `class` at its end.
pub open spec fn strip_end(s: Seq<char>, class: CharClass) -> Seq<char> {
    s.take(s.len() - trailing(s, class))
}

/// `s` without the characters of `class` at its start and at its end.
pub open spec fn strip(s: Seq<char>, class: CharClass) -> Seq<char> {
    strip_end(strip_start(s, class), class)
}

/// The part of `s` before the first `c`; all of `s` where it holds none.
pub open spec fn before_first(s: Seq<char>, c: char) -> Seq<char> {
    s.take(leading(s, CharClass::Except(c)) as int)
}

/// The part of `s` after the last `c`; all of `s` where it holds none.
pub open spec fn after_last(s: Seq<char>, c: char) -> Seq<char> {
    s.skip(s.len() - trailing(s, CharClass::Except(c)))
}

/// Whether `s` begins with `prefix`.
pub open spec fn has_prefix(s: Seq<char>, prefix: Seq<char>) -> bool {
    prefix.len() <= s.len() && s.take(prefix.len() as int) == prefix
}

/// A run of `k` characters of `class` at the start of `s`, which ends there,
/// is the leading run.
pub proof fn lemma_leading_is(s: Seq<char>, class: CharClass, k: int)
    requires
        0 <= k <= s.len(),
        forall|j: int| 0 <= j < k ==> class.has(#[trigger] s[j]),
        k < s.len() ==> !class.has(s[k]),
    ensures
        leading(s, class) == k,
    decreases k,
{
    if k > 0 {
        let t = s.drop_first();
        assert forall|j: int| 0 <= j < k - 1 implies class.has(#[trigger] t[j]) by {
            assert(t[j] == s[j + 1]);
        }
        lemma_leading_is(t, class, k - 1);
    }
}

/// A run of `k` characters of `class` at the end of `s`, which begins there,
/// is the trailing run.
pub proof fn lemma_trailing_is(s: Seq<char>, class: CharClass, k: int)
    requires
        0 <= k <= s.len(),
        forall|j: int| s.len() - k <= j < s.len() ==> class.has(#[trigger] s[j]),
        k < s.len() ==> !class.has(s[s.len() - k - 1]),
    ensures
        trailing(s, class) == k,
    decreases k,
{
    if k > 0 {
        let t = s.drop_last();
        assert forall|j: int| t.len() - (k - 1) <= j < t.len() implies class.has(
            #[trigger] t[j],
        ) by {
            assert(t[j] == s[j]);
        }
        lemma_trailing_is(t, class, k - 1);
    }
}

/// The leading run lies within `s`, holds characters of `class` only, and
/// ends at a character outside the class or at the end of `s`.
pub proof fn lemma_leading_run(s: Seq<char>, class: CharClass)
    ensures
        leading(s, class) <= s.len(),
        forall|j: int| 0 <= j < leading(s, class) ==> class.has(#[trigger] s[j]),
        leading(s, class) < s.len() ==> !class.has(s[leading(s, class) as int]),
    decreases s.len(),
{
    if s.len() > 0 && class.has(s.first()) {
        let t = s.drop_first();
        lemma_leading_run(t, class);
        assert forall|j: int| 0 <= j < leading(s, class) implies class.has(#[trigger] s[j]) by {
            if j > 0 {
                assert(s[j] == t[j - 1]);
            }
        }
        if leading(s, class) < s.len() {
            assert(s[leading(s, class) as int] == t[leading(t, class) as int]);
        }
    }
}

/// The trailing run lies within `s`, holds characters of `class` only, and
/// begins after a character outside the class or at the start of `s`.
pub proof fn lemma_trailing_run(s: Seq<char>, class: CharClass)
    ensures
        trailing(s, class) <= s.len(),
        forall|j: int| s.len() - trailing(s, class) <= j < s.len() ==> class.has(#[trigger] s[j]),
        trailing(s, class) < s.len() ==> !class.has(s[s.len() - trailing(s, class) - 1]),
    decreases s.len(),
{
    if s.len() > 0 && class.has(s.last()) {
        let t = s.drop_last();
        lemma_trailing_run(t, class);
        assert forall|j: int| s.len() - trailing(s, class) <= j < s.len() implies class.has(
            #[trigger] s[j],
        ) by {
            if j < s.len() - 1 {
                assert(s[j] == t[j]);
            }
        }
        if trailing(s, class) < s.len() {
            assert(s[s.len() - trailing(s, class) - 1] == t[t.len() - trailing(t, class) - 1]);
        }
    }
}

/// Every character of `s` is of `class` exactly where the trailing run, and
/// the leading run as well, is all of `s`.
pub proof fn lemma_run_is_all(s: Seq<char>, class: CharClass)
    ensures
        trailing(s, class) == s.len() <==> forall|j: int| 0 <= j < s.len() ==> class.has(s[j]),
        leading(s, class) == s.len() <==> forall|j: int| 0 <= j < s.len() ==> class.has(s[j]),
{
    lemma_trailing_run(s, class);
    lemma_leading_run(s, class);
    if forall|j: int| 0 <= j < s.len() ==> class.has(s[j]) {
        lemma_trailing_is(s, class, s.len() as int);
        lemma_leading_is(s, class, s.len() as int);
    }
}

/// The characters of `s`, in order.
pub fn chars_of(s: &str) -> (v: Vec<char>)
    ensures
        v@ == s@,
{
    let mut v: Vec<char> = Vec::new();
    for c in it: s.chars()
        invariant
            it.seq() == s@,
            v@ == s@.take(it.index() as int),
    {
        v.push(c);
    }
    v
}

/// The length of the run of characters of `class` that begins at `from` and
/// goes no further than `to`.
pub(crate) fn count_leading(v: &Vec<char>, from: usize, to: usize, class: CharClass) -> (n: usize)
    requires
        from <= to <= v.len(),
    ensures
        n == leading(v@.subrange(from as int, to as int), class),
        n <= to - from,
{
    let mut i: usize = from;
    while i < to && class.contains(v[i])
        invariant
            from <= i <= to <= v.len(),
            forall|j: int| from <= j < i ==> class.has(#[trigger] v@[j]),
        decreases to - i,
    {
        i += 1;
    }
    proof {
        let s = v@.subrange(from as int, to as int);
        assert forall|j: int| 0 <= j < i - from implies class.has(#[trigger] s[j]) by {
            assert(s[j] == v@[from + j]);
        }
        lemma_leading_is(s, class, i - from);
    }
    i - from
}

/// The length of the run of characters of `class` that ends at `to` and
/// begins no earlier than `from`.
pub(crate) fn count_trailing(v: &Vec<char>, from: usize, to: usize, class: CharClass) -> (n: usize)
    requires
        from <= to <= v.len(),
    ensures
        n == trailing(v@.subrange(from as int, to as int), class),
        n <= to - from,
{
    let mut i: usize = to;
    while i > from && class.contains(v[i - 1])
        invariant
            from <= i <= to <= v.len(),
            forall|j: int| i <= j < to ==> class.has(#[trigger] v@[j]),
        decreases i - from,
    {
        i -= 1;
    }
    proof {
        let s = v@.subrange(from as int, to as int);
        assert forall|j: int| s.len() - (to - i) <= j < s.len() implies class.has(
            #[trigger] s[j],
        ) by {
            assert(s[j] == v@[from + j]);
        }
        lemma_trailing_is(s, class, to - i);
    }
    to - i
}

/// Whether the characters from `from` up to `to` begin with `prefix`.
pub(crate) fn starts_with(v: &Vec<char>, from: usize, to: usize, prefix: &Vec<char>) -> (r: bool)
    requires
        from <= to <= v.len(),
    ensures
        r == has_prefix(v@.subrange(from as int, to as int), prefix@),
{
    if prefix.len() > to - from {
        return false;
    }
    let ghost s = v@.subrange(from as int, to as int);
    let mut i: usize = 0;
    while i < prefix.len()
        invariant
            from <= to <= v.len(),
            i <= prefix.len() <= to - from,
            s == v@.subrange(from as int, to as int),
            forall|j: int| 0 <= j < i ==> s[j] == prefix@[j],
        decreases prefix.len() - i,
    {
        if v[from + i] != prefix[i] {
            assert(s.take(prefix.len() as int)[i as int] != prefix@[i as int]);
            return false;
        }
        i += 1;
    }
    assert(s.take(prefix.len() as int) =~= prefix@);
    true
}

/// Where the characters from `from` up to `to` begin and end once the
/// characters of `class` are taken off both ends.
pub(crate) fn strip_bounds(v: &Vec<char>, from: usize, to: usize, class: CharClass) -> (r: (usize, usize))
    requires
        from <= to <= v.len(),
    ensures
        from <= r.0 <= r.1 <= to,
        v@.subrange(r.0 as int, r.1 as int) == strip(v@.subrange(from as int, to as int), class),
{
    let lead = count_leading(v, from, to, class);
    let start = from + lead;
    let trail = count_trailing(v, start, to, class);
    proof {
        let s = v@.subrange(from as int, to as int);
        assert(strip_start(s, class) =~= v@.subrange(start as int, to as int));
        assert(v@.subrange(start as int, to - trail) =~= strip(s, class));
    }
    (start, to - trail)
}

/// Whether the characters of `v` from `a` up to `b` are those of `w` from
/// `c` up to `d`.
pub(crate) fn same_chars(v: &Vec<char>, a: usize, b: usize, w: &Vec<char>, c: usize, d: usize) -> (r:
    bool)
    requires
        a <= b <= v.len(),
        c <= d <= w.len(),
    ensures
        r == (v@.subrange(a as int, b as int) == w@.subrange(c as int, d as int)),
{
    let ghost x = v@.subrange(a as int, b as int);
    let ghost y = w@.subrange(c as int, d as int);
    if b - a != d - c {
        assert(x.len() != y.len());
        return false;
    }
    let mut i: usize = 0;
    while i < b - a
        invariant
            a <= b <= v.len(),
            c <= d <= w.len(),
            b - a == d - c,
            i <= b - a,
            x == v@.subrange(a as int, b as int),
            y == w@.subrange(c as int, d as int),
            forall|j: int| 0 <= j < i ==> x[j] == y[j],
        decreases b - a - i,
    {
        if v[a + i] != w[c + i] {
            assert(x[i as int] != y[i as int]);
            return false;
        }
        i += 1;
    }
    assert(x =~= y);
    true
}

/// The characters of `s` from `from` up to `to`, as a string of their own.
pub(crate) fn substring(s: &str, from: usize, to: usize) -> (r: String)
    requires
        from <= to <= s@.len(),
    ensures
        r@ == s@.subrange(from as int, to as int),
{
    s.substring_char(from, to).to_owned()
}

/// The character that stands for the digit `d`.
pub open spec fn digit_char(d: nat) -> char {
    if d == 0 {
        '0'
    } else if d == 1 {
        '1'
    } else if d == 2 {
        '2'
    } else if d == 3 {
        '3'
    } else if d == 4 {
        '4'
    } else if d == 5 {
        '5'
    } else if d == 6 {
        '6'
    } else if d == 7 {
        '7'
    } else if d == 8 {
        '8'
    } else {
        '9'
    }
}

/// The decimal numeral of `n`, without sign or leading zeros.
pub open spec fn decimal(n: nat) -> Seq<char>
    decreases n,
{
    if n < 10 {
        seq![digit_char(n)]
    } else {
        decimal(n / 10).push(digit_char(n % 10))
    }
}

/// The one-character string of the digit `d`.
fn digit_str(d: usize) -> (r: &'static str)
    requires
        d < 10,
    ensures
        r@ == seq![digit_char(d as nat)],
{
    proof {
        reveal_strlit("0");
        reveal_strlit("1");
        reveal_strlit("2");
        reveal_strlit("3");
        reveal_strlit("4");
        reveal_strlit("5");
        reveal_strlit("6");
        reveal_strlit("7");
        reveal_strlit("8");
        reveal_strlit("9");
    }
    let r = if d == 0 {
        "0"
    } else if d == 1 {
        "1"
    } else if d == 2 {
        "2"
    } else if d == 3 {
        "3"
    } else if d == 4 {
        "4"
    } else if d == 5 {
        "5"
    } else if d == 6 {
        "6"
    } else if d == 7 {
        "7"
    } else if d == 8 {
        "8"
    } else {
        "9"
    };
    assert(r@ =~= seq![digit_char(d as nat)]);
    r
}

/// The decimal numeral of `n`.
pub fn decimal_string(n: usize) -> (s: String)
    ensures
        s@ == decimal(n as nat),
    decreases n,
{
    if n < 10 {
        digit_str(n).to_owned()
    } else {
        let mut s = decimal_string(n / 10);
        s.append(digit_str(n % 10));
        assert(s@ =~= decimal((n / 10) as nat).push(digit_char((n % 10) as nat)));
        s
    }
}

} // verus!
