//! Text helpers shared by the other modules: the characters of a string,
//! decimal rendering of numbers, trimming of Unicode whitespace and the
//! reading of unsigned and signed numbers, each as std does it.

use vstd::prelude::*;

verus! {

/// Whether `c` has the Unicode `White_Space` property (what
/// `char::is_whitespace` tests).
pub open spec fn is_whitespace(c: char) -> bool {
    let u = c as u32;
    ||| 0x09 <= u <= 0x0D
    ||| u == 0x20
    ||| u == 0x85
    ||| u == 0xA0
    ||| u == 0x1680
    ||| 0x2000 <= u <= 0x200A
    ||| u == 0x2028
    ||| u == 0x2029
    ||| u == 0x202F
    ||| u == 0x205F
    ||| u == 0x3000
}

/// `s` without its leading whitespace.
pub open spec fn trim_start_text(s: Seq<char>) -> Seq<char>
    decreases s.len(),
{
    if s.len() > 0 && is_whitespace(s[0]) {
        trim_start_text(s.drop_first())
    } else {
        s
    }
}

/// `s` without its trailing whitespace.
pub open spec fn trim_end_text(s: Seq<char>) -> Seq<char>
    decreases s.len(),
{
    if s.len() > 0 && is_whitespace(s.last()) {
        trim_end_text(s.drop_last())
    } else {
        s
    }
}

/// `s` without its leading and trailing whitespace.
pub open spec fn trim_text(s: Seq<char>) -> Seq<char> {
    trim_end_text(trim_start_text(s))
}

/// Whether `c` is whitespace (see [`is_whitespace`]).
pub fn whitespace(c: char) -> (r: bool)
    ensures
        r == is_whitespace(c),
{
    let u = c as u32;
    (0x09 <= u && u <= 0x0D) || u == 0x20 || u == 0x85 || u == 0xA0 || u == 0x1680
        || (0x2000 <= u && u <= 0x200A) || u == 0x2028 || u == 0x2029 || u == 0x202F
        || u == 0x205F || u == 0x3000
}

proof fn lemma_trim_start_skip(s: Seq<char>, i: int)
    requires
        0 <= i <= s.len(),
        forall|k: int| 0 <= k < i ==> is_whitespace(s[k]),
    ensures
        trim_start_text(s) == trim_start_text(s.subrange(i, s.len() as int)),
    decreases i,
{
    if i > 0 {
        assert(s.drop_first().subrange(i - 1, s.drop_first().len() as int) =~= s.subrange(i, s.len() as int));
        lemma_trim_start_skip(s.drop_first(), i - 1);
    } else {
        assert(s.subrange(0, s.len() as int) =~= s);
    }
}

proof fn lemma_trim_end_skip(s: Seq<char>, j: int)
    requires
        0 <= j <= s.len(),
        forall|k: int| j <= k < s.len() ==> is_whitespace(s[k]),
    ensures
        trim_end_text(s) == trim_end_text(s.subrange(0, j)),
    decreases s.len() - j,
{
    if j < s.len() {
        assert(s.drop_last().subrange(0, j) =~= s.subrange(0, j));
        lemma_trim_end_skip(s.drop_last(), j);
    } else {
        assert(s.subrange(0, j) =~= s);
    }
}

/// `s` without its trailing whitespace, as `str::trim_end` gives it.
pub fn trim_end(s: &str) -> (r: &str)
    ensures
        r@ == trim_end_text(s@),
{
    let cs = chars_of(s);
    let mut j: usize = cs.len();
    while j > 0 && whitespace(cs[j - 1])
        invariant
            cs@ == s@,
            j <= cs@.len(),
            forall|k: int| j <= k < cs@.len() ==> is_whitespace(cs@[k]),
        decreases j,
    {
        j = j - 1;
    }
    proof {
        lemma_trim_end_skip(s@, j as int);
    }
    s.substring_char(0, j)
}

/// `s` without its leading and trailing whitespace, as `str::trim` gives it.
pub fn trim(s: &str) -> (r: &str)
    ensures
        r@ == trim_text(s@),
{
    let cs = chars_of(s);
    let n = cs.len();
    let mut i: usize = 0;
    while i < n && whitespace(cs[i])
        invariant
            cs@ == s@,
            n == cs@.len(),
            i <= n,
            forall|k: int| 0 <= k < i ==> is_whitespace(cs@[k]),
        decreases n - i,
    {
        i = i + 1;
    }
    proof {
        lemma_trim_start_skip(s@, i as int);
        lemma_trim_start_stops(s@.subrange(i as int, n as int));
    }
    let mut j: usize = n;
    while j > i && whitespace(cs[j - 1])
        invariant
            cs@ == s@,
            n == cs@.len(),
            i <= j <= n,
            forall|k: int| j <= k < n ==> is_whitespace(cs@[k]),
        decreases j,
    {
        j = j - 1;
    }
    let ghost rest = s@.subrange(i as int, n as int);
    proof {
        lemma_trim_end_skip(rest, j - i);
        assert(rest.subrange(0, j - i) =~= s@.subrange(i as int, j as int));
    }
    s.substring_char(i, j)
}

proof fn lemma_trim_start_stops(s: Seq<char>)
    requires
        s.len() == 0 || !is_whitespace(s[0]),
    ensures
        trim_start_text(s) == s,
{
}

/// The ASCII digit for `d` (`d < 10`).
pub open spec fn digit_char(d: nat) -> char {
    if d == 0 { '0' }
    else if d == 1 { '1' }
    else if d == 2 { '2' }
    else if d == 3 { '3' }
    else if d == 4 { '4' }
    else if d == 5 { '5' }
    else if d == 6 { '6' }
    else if d == 7 { '7' }
    else if d == 8 { '8' }
    else { '9' }
}

/// The decimal representation of `n`, most significant digit first, without
/// leading zeros (`0` is written as a single `0`), as `Display` writes it.
pub open spec fn decimal_text(n: nat) -> Seq<char>
    decreases n,
{
    if n < 10 {
        seq![digit_char(n)]
    } else {
        decimal_text(n / 10).push(digit_char(n % 10))
    }
}

fn digit_str(d: u64) -> (s: &'static str)
    requires
        d < 10,
    ensures
        s@ == seq![digit_char(d as nat)],
{
    proof {
        reveal_strlit("0");
        reveal_strlit("1");
        reveal_strlit("2");
        reveal_strlit("3");
        reveal_strlit("4");
        reveal_strlit("5");
        reveal_strlit("6");
        reveal_strlit("7");
        reveal_strlit("8");
        reveal_strlit("9");
    }
    if d == 0 { "0" }
    else if d == 1 { "1" }
    else if d == 2 { "2" }
    else if d == 3 { "3" }
    else if d == 4 { "4" }
    else if d == 5 { "5" }
    else if d == 6 { "6" }
    else if d == 7 { "7" }
    else if d == 8 { "8" }
    else { "9" }
}

/// The characters of `s`.
pub fn chars_of(s: &str) -> (cs: Vec<char>)
    ensures
        cs@ == s@,
{
    let ghost all = s@;
    let mut cs: Vec<char> = Vec::new();
    for c in it: s.chars()
        invariant
            it.seq() == all,
            cs@.len() == it.index(),
            forall|i: int| 0 <= i < it.index() ==> cs@[i] == all[i],
    {
        cs.push(c);
    }
    assert(cs@ =~= all);
    cs
}

/// Whether `c` is an ASCII decimal digit.
pub open spec fn is_digit(c: char) -> bool {
    '0' <= c <= '9'
}

/// The number written by the decimal digits `d`.
pub open spec fn digits_value(d: Seq<char>) -> nat
    decreases d.len(),
{
    if d.len() == 0 {
        0
    } else {
        digits_value(d.drop_last()) * 10 + ((d.last() as u32 - '0' as u32) as nat)
    }
}

/// `t` without the `+` it may start with.
pub open spec fn unsigned_digits(t: Seq<char>) -> Seq<char> {
    if t.len() > 0 && t[0] == '+' { t.drop_first() } else { t }
}

/// The number written by `t` as an unsigned integer is read by `str::parse`:
/// an optional `+`, then one or more decimal digits.
pub open spec fn unsigned_value(t: Seq<char>) -> Option<nat> {
    let d = unsigned_digits(t);
    if d.len() > 0 && forall|i: int| 0 <= i < d.len() ==> is_digit(d[i]) {
        Some(digits_value(d))
    } else {
        None
    }
}

/// What `str::parse::<usize>` reads from `t`: the number it writes, if it
/// writes one that fits in a `usize`.
pub open spec fn parsed_usize(t: Seq<char>) -> Option<usize> {
    match unsigned_value(t) {
        Some(v) => if v <= usize::MAX { Some(v as usize) } else { None },
        None => None,
    }
}

proof fn lemma_digits_value_grows(d: Seq<char>, a: int, b: int)
    requires
        0 <= a <= b <= d.len(),
        forall|i: int| 0 <= i < d.len() ==> is_digit(d[i]),
    ensures
        digits_value(d.take(a)) <= digits_value(d.take(b)),
    decreases b - a,
{
    if a < b {
        lemma_digits_value_grows(d, a, b - 1);
        assert(d.take(b).drop_last() =~= d.take(b - 1));
    }
}

/// The value of the digits `d`, if `d` is one or more decimal digits whose
/// value is at most `limit`.
pub open spec fn bounded_value(d: Seq<char>, limit: nat) -> Option<nat> {
    if d.len() > 0 && (forall|i: int| 0 <= i < d.len() ==> is_digit(d[i])) && digits_value(d) <= limit {
        Some(digits_value(d))
    } else {
        None
    }
}

/// Reads the characters of `cs` from position `start` on as decimal digits
/// whose value is at most `limit`.
fn bounded_digits(cs: &Vec<char>, start: usize, limit: u64) -> (r: Option<u64>)
    requires
        start <= cs@.len(),
    ensures
        match r {
            Some(v) => bounded_value(cs@.skip(start as int), limit as nat) == Some(v as nat),
            None => bounded_value(cs@.skip(start as int), limit as nat) is None,
        },
{
    let n = cs.len();
    let ghost d = cs@.skip(start as int);
    if start == n {
        return None;
    }
    let mut i: usize = start;
    while i < n
        invariant
            n == cs@.len(),
            start <= i <= n,
            d == cs@.skip(start as int),
            forall|k: int| start <= k < i ==> is_digit(cs@[k]),
        decreases n - i,
    {
        if !('0' <= cs[i] && cs[i] <= '9') {
            assert(!is_digit(d[i - start]));
            return None;
        }
        i = i + 1;
    }
    assert forall|k: int| 0 <= k < d.len() implies is_digit(d[k]) by {
        assert(d[k] == cs@[start + k]);
    }
    let mut v: u64 = 0;
    let mut i: usize = start;
    while i < n
        invariant
            n == cs@.len(),
            start <= i <= n,
            d == cs@.skip(start as int),
            forall|k: int| 0 <= k < d.len() ==> is_digit(d[k]),
            v == digits_value(d.take(i - start)),
            v <= limit,
        decreases n - i,
    {
        let ghost j = i - start;
        assert(d.take(j + 1).drop_last() =~= d.take(j));
        assert(d[j] == cs@[i as int]);
        let dig = (cs[i] as u32 - '0' as u32) as u64;
        assert(digits_value(d.take(j + 1)) == v * 10 + dig);
        if dig > limit || v > (limit - dig) / 10 {
            proof {
                if dig <= limit {
                    assert(v * 10 + dig > limit) by (nonlinear_arith)
                        requires
                            dig <= limit,
                            v > (limit - dig) / 10,
                    ;
                }
                lemma_digits_value_grows(d, j + 1, d.len() as int);
                assert(d.take(d.len() as int) =~= d);
            }
            return None;
        }
        v = v * 10 + dig;
        i = i + 1;
    }
    assert(d.take(d.len() as int) =~= d);
    Some(v)
}

/// Reads an unsigned number as `str::parse::<usize>` does.
pub fn parse_usize(s: &str) -> (r: Option<usize>)
    ensures
        r == parsed_usize(s@),
{
    let cs = chars_of(s);
    let start: usize = if cs.len() > 0 && cs[0] == '+' { 1 } else { 0 };
    assert(unsigned_digits(s@) =~= cs@.skip(start as int));
    match bounded_digits(&cs, start, usize::MAX as u64) {
        Some(v) => Some(v as usize),
        None => None,
    }
}

/// The number `t` writes as a signed integer is read by `str::parse`: an
/// optional `+` or `-`, then one or more decimal digits.
pub open spec fn signed_value(t: Seq<char>) -> Option<int> {
    if t.len() > 0 && t[0] == '-' {
        match unsigned_value_of_digits(t.drop_first()) {
            Some(v) => Some(-v),
            None => None,
        }
    } else {
        match unsigned_value(t) {
            Some(v) => Some(v as int),
            None => None,
        }
    }
}

/// The value of `d` if it is one or more decimal digits.
pub open spec fn unsigned_value_of_digits(d: Seq<char>) -> Option<nat> {
    if d.len() > 0 && forall|i: int| 0 <= i < d.len() ==> is_digit(d[i]) {
        Some(digits_value(d))
    } else {
        None
    }
}

/// What `str::parse::<i32>` reads from `t`: the number it writes, if it
/// writes one that fits in an `i32`.
pub open spec fn parsed_i32(t: Seq<char>) -> Option<i32> {
    match signed_value(t) {
        Some(v) => if i32::MIN <= v <= i32::MAX { Some(v as i32) } else { None },
        None => None,
    }
}

/// Reads a signed number as `str::parse::<i32>` does.
pub fn parse_i32(s: &str) -> (r: Option<i32>)
    ensures
        r == parsed_i32(s@),
{
    let cs = chars_of(s);
    if cs.len() > 0 && cs[0] == '-' {
        assert(s@.drop_first() =~= cs@.skip(1));
        match bounded_digits(&cs, 1, 0x8000_0000u64) {
            Some(v) => {
                let m = v as i64;
                Some((0 - m) as i32)
            },
            None => {
                proof {
                    let d = s@.drop_first();
                    if unsigned_value_of_digits(d) is Some {
                        assert(digits_value(d) > 0x8000_0000);
                    }
                }
                None
            },
        }
    } else {
        let start: usize = if cs.len() > 0 && cs[0] == '+' { 1 } else { 0 };
        assert(unsigned_digits(s@) =~= cs@.skip(start as int));
        match bounded_digits(&cs, start, 0x7fff_ffffu64) {
            Some(v) => Some(v as i32),
            None => {
                proof {
                    let d = unsigned_digits(s@);
                    if unsigned_value(s@) is Some {
                        assert(digits_value(d) > 0x7fff_ffff);
                    }
                }
                None
            },
        }
    }
}

/// A rendered number is made of decimal digits only, and reads back as the
/// number.
pub proof fn lemma_decimal_text_digits(n: nat)
    ensures
        decimal_text(n).len() > 0,
        forall|i: int| 0 <= i < decimal_text(n).len() ==> is_digit(#[trigger] decimal_text(n)[i]),
        digits_value(decimal_text(n)) == n,
    decreases n,
{
    let t = decimal_text(n);
    lemma_digit_char_value(n % 10);
    if n >= 10 {
        lemma_decimal_text_digits(n / 10);
        assert(t.drop_last() =~= decimal_text(n / 10));
        assert(t.last() == digit_char(n % 10));
        assert(n == (n / 10) * 10 + n % 10);
        assert(digits_value(t) == digits_value(t.drop_last()) * 10 + ((t.last() as u32 - '0' as u32) as nat));
    } else {
        assert(t.drop_last() =~= Seq::<char>::empty());
        assert(digits_value(t.drop_last()) == 0);
        assert(n % 10 == n);
        assert(t.last() == digit_char(n));
        assert(digits_value(t) == digits_value(t.drop_last()) * 10 + ((t.last() as u32 - '0' as u32) as nat));
    }
}

proof fn lemma_digit_char_value(d: nat)
    requires
        d < 10,
    ensures
        is_digit(digit_char(d)),
        (digit_char(d) as u32 - '0' as u32) as nat == d,
{
}

/// Text without whitespace at either end is its own trimming.
pub proof fn lemma_trim_unchanged(s: Seq<char>)
    requires
        s.len() > 0 ==> !is_whitespace(s[0]) && !is_whitespace(s.last()),
    ensures
        trim_text(s) == s,
{
}

/// A number rendered in decimal, trimmed and read back as `str::parse`
/// reads a `usize`, is that number.
pub proof fn law_decimal_reads_back(n: usize)
    ensures
        parsed_usize(trim_text(decimal_text(n as nat))) == Some(n),
{
    let t = decimal_text(n as nat);
    lemma_decimal_text_digits(n as nat);
    assert(is_digit(t[0]));
    assert(is_digit(t.last()));
    lemma_trim_unchanged(t);
    assert(unsigned_digits(t) == t);
}

/// Renders `n` in decimal.
pub fn decimal(n: u64) -> (s: String)
    ensures
        s@ == decimal_text(n as nat),
    decreases n,
{
    if n < 10 {
        String::from_str(digit_str(n))
    } else {
        let mut s = decimal(n / 10);
        s.append(digit_str(n % 10));
        s
    }
}

} // verus!
