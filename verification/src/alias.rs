//! Alias strings: the key under which a record is looked up by name, and
//! the decimal spelling of an identifier.

use vstd::prelude::*;
use vstd::string::StrSliceExecFns;

verus! {

/// Whether `c` is white space.
pub open spec fn is_space(c: char) -> bool {
    let n = c as u32;
    ||| 0x09 <= n <= 0x0D
    ||| n == 0x20
    ||| n == 0x85
    ||| n == 0xA0
    ||| n == 0x1680
    ||| 0x2000 <= n <= 0x200A
    ||| n == 0x2028
    ||| n == 0x2029
    ||| n == 0x202F
    ||| n == 0x205F
    ||| n == 0x3000
}

/// Whether `s` begins with the letters `rfc`, in either case each.
pub open spec fn has_token(s: Seq<char>) -> bool {
    &&& s.len() >= 3
    &&& (s[0] == 'r' || s[0] == 'R')
    &&& (s[1] == 'f' || s[1] == 'F')
    &&& (s[2] == 'c' || s[2] == 'C')
}

/// `s` without a leading `rfc` token.
pub open spec fn strip_token(s: Seq<char>) -> Seq<char> {
    if has_token(s) {
        s.subrange(3, s.len() as int)
    } else {
        s
    }
}

/// `s` without its leading white space.
pub open spec fn trim_start(s: Seq<char>) -> Seq<char>
    decreases s.len(),
{
    if s.len() > 0 && is_space(s[0]) {
        trim_start(s.subrange(1, s.len() as int))
    } else {
        s
    }
}

/// `s` without its trailing white space.
pub open spec fn trim_end(s: Seq<char>) -> Seq<char>
    decreases s.len(),
{
    if s.len() > 0 && is_space(s.last()) {
        trim_end(s.drop_last())
    } else {
        s
    }
}

/// The key of an alias: what is left when a leading `rfc` token and then
/// the white space on both sides are taken away.
pub open spec fn alias_key(s: Seq<char>) -> Seq<char> {
    trim_end(trim_start(strip_token(s)))
}

/// The character of a decimal digit.
pub open spec fn digit(d: nat) -> char {
    if d == 0 {
        '0'
    } else if d == 1 {
        '1'
    } else if d == 2 {
        '2'
    } else if d == 3 {
        '3'
    } else if d == 4 {
        '4'
    } else if d == 5 {
        '5'
    } else if d == 6 {
        '6'
    } else if d == 7 {
        '7'
    } else if d == 8 {
        '8'
    } else {
        '9'
    }
}

/// The decimal spelling of `n`, without sign or leading zeros.
pub open spec fn decimal(n: nat) -> Seq<char>
    decreases n,
{
    if n < 10 {
        seq![digit(n)]
    } else {
        decimal(n / 10).push(digit(n % 10))
    }
}

/// A decimal spelling ends in a digit, has one character for a number
/// below ten and more for any other.
pub proof fn lemma_decimal_shape(n: nat)
    ensures
        decimal(n).len() >= 1,
        decimal(n).len() == 1 <==> n < 10,
        decimal(n).last() == digit(n % 10),
    decreases n,
{
    if n >= 10 {
        lemma_decimal_shape(n / 10);
    }
}

/// Different numbers are spelled differently.
pub proof fn lemma_decimal_injective(a: nat, b: nat)
    requires
        decimal(a) == decimal(b),
    ensures
        a == b,
    decreases a,
{
    lemma_decimal_shape(a);
    lemma_decimal_shape(b);
    if a >= 10 {
        let da = decimal(a / 10);
        let db = decimal(b / 10);
        assert(da == decimal(a).drop_last());
        assert(db == decimal(b).drop_last());
        lemma_decimal_injective(a / 10, b / 10);
    }
}

/// Whether `c` is white space.
pub fn space(c: char) -> (r: bool)
    ensures
        r == is_space(c),
{
    let n: u32 = c as u32;
    (0x09 <= n && n <= 0x0D) || n == 0x20 || n == 0x85 || n == 0xA0 || n == 0x1680 || (0x2000 <= n
        && n <= 0x200A) || n == 0x2028 || n == 0x2029 || n == 0x202F || n == 0x205F || n == 0x3000
}

/// The characters of a string.
pub fn chars_of(s: &str) -> (r: Vec<char>)
    ensures
        r@ == s@,
{
    let n = s.unicode_len();
    let mut out: Vec<char> = Vec::new();
    let mut i: usize = 0;
    while i < n
        invariant
            i <= n,
            n == s@.len(),
            out@ == s@.subrange(0, i as int),
        decreases n - i,
    {
        out.push(s.get_char(i));
        i = i + 1;
    }
    proof {
        assert(out@ == s@);
    }
    out
}

/// The bounds of the key within the characters of an alias.
pub fn key_of(chars: &Vec<char>) -> (r: (usize, usize))
    ensures
        r.0 <= r.1 <= chars.len(),
        chars@.subrange(r.0 as int, r.1 as int) == alias_key(chars@),
{
    let n = chars.len();
    let token = n >= 3 && (chars[0] == 'r' || chars[0] == 'R') && (chars[1] == 'f' || chars[1]
        == 'F') && (chars[2] == 'c' || chars[2] == 'C');
    let start: usize = if token {
        3
    } else {
        0
    };
    let ghost rest = chars@.subrange(start as int, n as int);
    proof {
        assert(rest == strip_token(chars@));
    }
    let mut lo: usize = start;
    while lo < n && space(chars[lo])
        invariant
            start <= lo <= n,
            n == chars.len(),
            trim_start(rest) == trim_start(chars@.subrange(lo as int, n as int)),
        decreases n - lo,
    {
        proof {
            let cur = chars@.subrange(lo as int, n as int);
            assert(cur[0] == chars@[lo as int]);
            assert(cur.subrange(1, cur.len() as int) == chars@.subrange(lo as int + 1, n as int));
        }
        lo = lo + 1;
    }
    let ghost body = chars@.subrange(lo as int, n as int);
    proof {
        if lo < n {
            assert(body[0] == chars@[lo as int]);
        }
        assert(trim_start(rest) == body);
    }
    let mut hi: usize = n;
    while hi > lo && space(chars[hi - 1])
        invariant
            lo <= hi <= n,
            n == chars.len(),
            trim_end(body) == trim_end(chars@.subrange(lo as int, hi as int)),
        decreases hi - lo,
    {
        proof {
            let cur = chars@.subrange(lo as int, hi as int);
            assert(cur.last() == chars@[hi - 1]);
            assert(cur.drop_last() == chars@.subrange(lo as int, hi - 1));
        }
        hi = hi - 1;
    }
    proof {
        let cur = chars@.subrange(lo as int, hi as int);
        if hi > lo {
            assert(cur.last() == chars@[hi - 1]);
        }
        assert(trim_end(body) == cur);
    }
    (lo, hi)
}

/// Whether the characters from `lo` up to `hi` spell `word`.
pub fn spells(chars: &Vec<char>, lo: usize, hi: usize, word: &Vec<char>) -> (r: bool)
    requires
        lo <= hi <= chars.len(),
    ensures
        r == (chars@.subrange(lo as int, hi as int) == word@),
{
    let ghost part = chars@.subrange(lo as int, hi as int);
    if hi - lo != word.len() {
        return false;
    }
    let mut i: usize = 0;
    while i < word.len()
        invariant
            lo <= hi <= chars.len(),
            hi - lo == word.len(),
            i <= word.len(),
            part == chars@.subrange(lo as int, hi as int),
            forall|j: int| 0 <= j < i ==> part[j] == word@[j],
        decreases word.len() - i,
    {
        if chars[lo + i] != word[i] {
            assert(part[i as int] != word@[i as int]);
            return false;
        }
        i = i + 1;
    }
    assert(part =~= word@);
    true
}

/// The decimal spelling of `n`.
pub fn to_decimal(n: u32) -> (r: Vec<char>)
    ensures
        r@ == decimal(n as nat),
    decreases n,
{
    let d: u32 = n % 10;
    let c: char = if d == 0 {
        '0'
    } else if d == 1 {
        '1'
    } else if d == 2 {
        '2'
    } else if d == 3 {
        '3'
    } else if d == 4 {
        '4'
    } else if d == 5 {
        '5'
    } else if d == 6 {
        '6'
    } else if d == 7 {
        '7'
    } else if d == 8 {
        '8'
    } else {
        '9'
    };
    if n < 10 {
        let mut out: Vec<char> = Vec::new();
        out.push(c);
        assert(out@ =~= decimal(n as nat));
        out
    } else {
        let mut out = to_decimal(n / 10);
        out.push(c);
        out
    }
}

} // verus!
