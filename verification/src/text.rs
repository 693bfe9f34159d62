//! Character-level helpers: classes of characters, runs, trimming, decimal numbers.
//!
//! Every function here works on a window `[lo, hi)` of a character vector, so that the
//! pieces it finds can be cut out of the line by position.

use vstd::prelude::*;
use vstd::string::*;

verus! {

/// Whether `c` has the Unicode `White_Space` property, as `char::is_whitespace` reports it.
pub uninterp spec fn white_space(c: char) -> bool;

/// `char::is_whitespace` of std: the answer is the `White_Space` property of `c`,
/// which this library refers to as `white_space(c)`.
pub assume_specification[ char::is_whitespace ](c: char) -> (b: bool)
    ensures
        b == white_space(c),
;

/// The classes of characters that the line grammar scans for.
#[derive(Clone, Copy, Debug, PartialEq, Eq)]
pub enum CharClass {
    /// White space.
    Space,
    /// Anything but white space.
    Word,
    /// Anything but a comma.
    Field,
}

/// Whether `c` belongs to the class `k`.
pub open spec fn in_class(k: CharClass, c: char) -> bool {
    match k {
        CharClass::Space => white_space(c),
        CharClass::Word => !white_space(c),
        CharClass::Field => c != ',',
    }
}

/// The number of characters at the front of `s` that belong to `k`.
pub open spec fn leading(s: Seq<char>, k: CharClass) -> nat
    decreases s.len(),
{
    if s.len() > 0 && in_class(k, s[0]) {
        1 + leading(s.drop_first(), k)
    } else {
        0
    }
}

/// The number of characters at the back of `s` that belong to `k`.
pub open spec fn trailing(s: Seq<char>, k: CharClass) -> nat
    decreases s.len(),
{
    if s.len() > 0 && in_class(k, s.last()) {
        1 + trailing(s.drop_last(), k)
    } else {
        0
    }
}

/// `s` without its leading white space.
pub open spec fn trim_start(s: Seq<char>) -> Seq<char> {
    s.skip(leading(s, CharClass::Space) as int)
}

/// `s` without its trailing white space.
pub open spec fn trim_end(s: Seq<char>) -> Seq<char> {
    s.take(s.len() - trailing(s, CharClass::Space))
}

/// `s` without leading and trailing white space.
pub open spec fn trim(s: Seq<char>) -> Seq<char> {
    trim_end(trim_start(s))
}

/// A leading run never extends past the end of the sequence, stops at a character
/// outside the class, and holds only characters of the class.
pub proof fn lemma_leading(s: Seq<char>, k: CharClass)
    ensures
        leading(s, k) <= s.len(),
        leading(s, k) < s.len() ==> !in_class(k, s[leading(s, k) as int]),
        forall|i: int| 0 <= i < leading(s, k) ==> in_class(k, #[trigger] s[i]),
    decreases s.len(),
{
    if s.len() > 0 && in_class(k, s[0]) {
        let rest = s.drop_first();
        lemma_leading(rest, k);
        assert forall|i: int| 0 <= i < leading(s, k) implies in_class(k, #[trigger] s[i]) by {
            if i > 0 {
                assert(s[i] == rest[i - 1]);
            }
        }
        if leading(s, k) < s.len() {
            assert(s[leading(s, k) as int] == rest[leading(rest, k) as int]);
        }
    }
}

/// A trailing run never extends past the front of the sequence, stops at a character
/// outside the class, and holds only characters of the class.
pub proof fn lemma_trailing(s: Seq<char>, k: CharClass)
    ensures
        trailing(s, k) <= s.len(),
        trailing(s, k) < s.len() ==> !in_class(k, s[s.len() - trailing(s, k) - 1]),
        forall|i: int| s.len() - trailing(s, k) <= i < s.len() ==> in_class(k, #[trigger] s[i]),
    decreases s.len(),
{
    if s.len() > 0 && in_class(k, s.last()) {
        let rest = s.drop_last();
        lemma_trailing(rest, k);
        assert forall|i: int| s.len() - trailing(s, k) <= i < s.len() implies in_class(
            k,
            #[trigger] s[i],
        ) by {
            if i < s.len() - 1 {
                assert(s[i] == rest[i]);
            }
        }
        if trailing(s, k) < s.len() {
            assert(s[s.len() - trailing(s, k) - 1] == rest[rest.len() - trailing(rest, k) - 1]);
        }
    }
}

/// The characters of `s`, in order.
pub fn chars_of(s: &str) -> (v: Vec<char>)
    ensures
        v@ == s@,
{
    let mut v: Vec<char> = Vec::new();
    for c in it: s.chars()
        invariant
            v@ == it.seq().take(it.index() as int),
            it.seq() == s@,
    {
        v.push(c);
    }
    v
}

/// Whether `c` belongs to the class `k`.
pub fn class_holds(k: CharClass, c: char) -> (b: bool)
    ensures
        b == in_class(k, c),
{
    match k {
        CharClass::Space => c.is_whitespace(),
        CharClass::Word => !c.is_whitespace(),
        CharClass::Field => c != ',',
    }
}

/// The end of the run of `k` that starts at `lo`, inside the window `[lo, hi)`.
pub fn scan(v: &Vec<char>, lo: usize, hi: usize, k: CharClass) -> (at: usize)
    requires
        lo <= hi <= v.len(),
    ensures
        lo <= at <= hi,
        at - lo == leading(v@.subrange(lo as int, hi as int), k),
{
    let mut i: usize = lo;
    while i < hi && class_holds(k, v[i])
        invariant
            lo <= i <= hi <= v.len(),
            leading(v@.subrange(lo as int, hi as int), k) == (i - lo) + leading(
                v@.subrange(i as int, hi as int),
                k,
            ),
        decreases hi - i,
    {
        proof {
            let w = v@.subrange(i as int, hi as int);
            assert(w[0] == v@[i as int]);
            assert(w.drop_first() =~= v@.subrange(i + 1, hi as int));
        }
        i = i + 1;
    }
    proof {
        let w = v@.subrange(i as int, hi as int);
        if i < hi {
            assert(w[0] == v@[i as int]);
        }
    }
    i
}

/// The start of the run of `k` that ends at `hi`, inside the window `[lo, hi)`.
pub fn scan_back(v: &Vec<char>, lo: usize, hi: usize, k: CharClass) -> (at: usize)
    requires
        lo <= hi <= v.len(),
    ensures
        lo <= at <= hi,
        hi - at == trailing(v@.subrange(lo as int, hi as int), k),
{
    let mut i: usize = hi;
    while i > lo && class_holds(k, v[i - 1])
        invariant
            lo <= i <= hi <= v.len(),
            trailing(v@.subrange(lo as int, hi as int), k) == (hi - i) + trailing(
                v@.subrange(lo as int, i as int),
                k,
            ),
        decreases i - lo,
    {
        proof {
            let w = v@.subrange(lo as int, i as int);
            assert(w.last() == v@[i - 1]);
            assert(w.drop_last() =~= v@.subrange(lo as int, i - 1));
        }
        i = i - 1;
    }
    proof {
        let w = v@.subrange(lo as int, i as int);
        if i > lo {
            assert(w.last() == v@[i - 1]);
        }
    }
    i
}

/// The window of `[lo, hi)` that is left when white space is cut from both ends.
pub fn trim_window(v: &Vec<char>, lo: usize, hi: usize) -> (w: (usize, usize))
    requires
        lo <= hi <= v.len(),
    ensures
        lo <= w.0 <= w.1 <= hi,
        w.0 - lo == leading(v@.subrange(lo as int, hi as int), CharClass::Space),
        hi - w.1 == trailing(trim_start(v@.subrange(lo as int, hi as int)), CharClass::Space),
        v@.subrange(w.0 as int, w.1 as int) == trim(v@.subrange(lo as int, hi as int)),
{
    let a: usize = scan(v, lo, hi, CharClass::Space);
    let b: usize = scan_back(v, a, hi, CharClass::Space);
    proof {
        let s = v@.subrange(lo as int, hi as int);
        assert(trim_start(s) =~= v@.subrange(a as int, hi as int));
        assert(v@.subrange(a as int, hi as int).take(b - a) =~= v@.subrange(a as int, b as int));
    }
    (a, b)
}

/// `None` for the empty text, `Some` of the text otherwise.
pub open spec fn optional(s: Seq<char>) -> Option<Seq<char>> {
    if s.len() == 0 {
        None
    } else {
        Some(s)
    }
}

/// Whether `c` is one of the ten ASCII digits.
pub open spec fn is_digit(c: char) -> bool {
    '0' <= c <= '9'
}

/// The number that the ASCII digit `c` stands for.
pub open spec fn digit_value(c: char) -> nat {
    (c as u32 - '0' as u32) as nat
}

/// Whether `s` holds ASCII digits only.
pub open spec fn all_digits(s: Seq<char>) -> bool {
    forall|i: int| 0 <= i < s.len() ==> is_digit(#[trigger] s[i])
}

/// The number that the digits of `s` spell in base ten.
pub open spec fn decimal(s: Seq<char>) -> nat
    decreases s.len(),
{
    if s.len() == 0 {
        0
    } else {
        10 * decimal(s.drop_last()) + digit_value(s.last())
    }
}

/// The 16-bit number that `s` spells: `s` is a non-empty run of ASCII digits, with
/// no sign, whose value fits; leading zeros are accepted.
pub open spec fn decimal_u16(s: Seq<char>) -> Option<u16> {
    if s.len() > 0 && all_digits(s) && decimal(s) <= u16::MAX {
        Some(decimal(s) as u16)
    } else {
        None
    }
}

/// Appending digits never makes the number smaller.
pub proof fn lemma_decimal_grows(s: Seq<char>, n: int)
    requires
        0 <= n <= s.len(),
    ensures
        decimal(s.take(n)) <= decimal(s),
    decreases s.len() - n,
{
    if n < s.len() {
        lemma_decimal_grows(s.drop_last(), n);
        assert(s.drop_last().take(n) =~= s.take(n));
    } else {
        assert(s.take(n) =~= s);
    }
}

/// The character `c` with an ASCII capital letter replaced by its small letter,
/// as a code point.
pub open spec fn folded(c: char) -> u32 {
    if 'A' <= c <= 'Z' {
        (c as u32 + 32) as u32
    } else {
        c as u32
    }
}

/// Whether `a` and `b` are equal up to the case of their ASCII letters.
pub open spec fn same_name(a: Seq<char>, b: Seq<char>) -> bool {
    &&& a.len() == b.len()
    &&& forall|i: int| 0 <= i < a.len() ==> folded(#[trigger] a[i]) == folded(b[i])
}

/// Whether the window `[lo, hi)` of `v` spells `word`.
pub fn window_is(v: &Vec<char>, lo: usize, hi: usize, word: &str) -> (b: bool)
    requires
        lo <= hi <= v.len(),
    ensures
        b == (v@.subrange(lo as int, hi as int) == word@),
{
    let w: Vec<char> = chars_of(word);
    if w.len() != hi - lo {
        return false;
    }
    let mut i: usize = 0;
    while i < w.len()
        invariant
            lo <= hi <= v.len(),
            w.len() == hi - lo,
            w@ == word@,
            i <= w.len(),
            forall|j: int| 0 <= j < i ==> v@[lo + j] == w@[j],
        decreases w.len() - i,
    {
        if v[lo + i] != w[i] {
            proof {
                assert(v@.subrange(lo as int, hi as int)[i as int] != word@[i as int]);
            }
            return false;
        }
        i = i + 1;
    }
    proof {
        assert(v@.subrange(lo as int, hi as int) =~= word@);
    }
    true
}

/// The 16-bit number that the window `[lo, hi)` of `v` spells, if it spells one.
pub fn parse_u16(v: &Vec<char>, lo: usize, hi: usize) -> (r: Option<u16>)
    requires
        lo <= hi <= v.len(),
    ensures
        r == decimal_u16(v@.subrange(lo as int, hi as int)),
{
    let ghost s = v@.subrange(lo as int, hi as int);
    if lo == hi {
        return None;
    }
    let mut acc: u32 = 0;
    let mut i: usize = lo;
    while i < hi
        invariant
            lo <= i <= hi <= v.len(),
            s == v@.subrange(lo as int, hi as int),
            all_digits(s.take(i - lo)),
            acc == decimal(s.take(i - lo)),
            acc <= u16::MAX,
        decreases hi - i,
    {
        let c: char = v[i];
        if !('0' <= c && c <= '9') {
            proof {
                assert(s[i - lo] == c);
            }
            return None;
        }
        let d: u32 = c as u32 - '0' as u32;
        let next: u32 = acc * 10 + d;
        proof {
            let t = s.take(i - lo + 1);
            assert(t.drop_last() =~= s.take(i - lo));
            assert(t.last() == c);
            assert(next == decimal(t));
            assert forall|j: int| 0 <= j < t.len() implies is_digit(#[trigger] t[j]) by {
                if j < i - lo {
                    assert(t[j] == s.take(i - lo)[j]);
                }
            }
        }
        if next > 65535 {
            proof {
                lemma_decimal_grows(s, i - lo + 1);
            }
            return None;
        }
        acc = next;
        i = i + 1;
    }
    proof {
        assert(s.take(hi - lo) =~= s);
    }
    Some(acc as u16)
}

/// The code point of `c`, with an ASCII capital letter replaced by its small letter.
pub fn fold_case(c: char) -> (n: u32)
    ensures
        n == folded(c),
{
    if 'A' <= c && c <= 'Z' {
        c as u32 + 32
    } else {
        c as u32
    }
}

/// Whether `a` and `b` are equal up to the case of their ASCII letters.
pub fn names_match(a: &str, b: &str) -> (r: bool)
    ensures
        r == same_name(a@, b@),
{
    let x: Vec<char> = chars_of(a);
    let y: Vec<char> = chars_of(b);
    if x.len() != y.len() {
        return false;
    }
    let mut i: usize = 0;
    while i < x.len()
        invariant
            x@ == a@,
            y@ == b@,
            x.len() == y.len(),
            i <= x.len(),
            forall|j: int| 0 <= j < i ==> folded(#[trigger] x@[j]) == folded(y@[j]),
        decreases x.len() - i,
    {
        if fold_case(x[i]) != fold_case(y[i]) {
            return false;
        }
        i = i + 1;
    }
    true
}

/// The characters `[lo, hi)` of `line`, as a string of their own.
pub fn cut(line: &str, lo: usize, hi: usize) -> (r: String)
    requires
        lo <= hi <= line@.len(),
    ensures
        r@ == line@.subrange(lo as int, hi as int),
{
    line.substring_char(lo, hi).to_owned()
}

/// `a` followed by `b`.
pub fn join(a: &str, b: &str) -> (r: String)
    ensures
        r@ == a@ + b@,
{
    String::from_str(a).concat(b)
}

/// What `trim` leaves neither starts nor ends with white space, and trimming it again
/// changes nothing.
pub proof fn lemma_trim_is_trimmed(s: Seq<char>)
    ensures
        trim(s).len() > 0 ==> !white_space(trim(s)[0]) && !white_space(trim(s).last()),
        trim(trim(s)) == trim(s),
{
    let a = trim_start(s);
    let t = trim(s);
    lemma_leading(s, CharClass::Space);
    lemma_trailing(a, CharClass::Space);
    if t.len() > 0 {
        assert(t[0] == a[0]);
        assert(a[0] == s[leading(s, CharClass::Space) as int]);
        assert(t.last() == a[a.len() - trailing(a, CharClass::Space) - 1]);
        assert(leading(t, CharClass::Space) == 0);
        assert(trailing(t, CharClass::Space) == 0);
        assert(trim_start(t) =~= t);
        assert(trim_end(t) =~= t);
    } else {
        assert(leading(t, CharClass::Space) == 0);
        assert(trailing(t, CharClass::Space) == 0);
        assert(trim_start(t) =~= t);
        assert(trim_end(t) =~= t);
    }
}

/// Whether `a` and `b` hold the same characters.
pub fn text_eq(a: &str, b: &str) -> (r: bool)
    ensures
        r == (a@ == b@),
{
    let x: Vec<char> = chars_of(a);
    proof {
        assert(x@.subrange(0, x.len() as int) =~= x@);
    }
    window_is(&x, 0, x.len(), b)
}

} // verus!
