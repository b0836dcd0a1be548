//! Character-level text operations used by the planners and parsers.
//!
//! Every operation here is specified over `Seq<char>`, the view of `str`
//! and `String`.
use vstd::prelude::*;

verus! {

broadcast use vstd::std_specs::iter::group_iter_axioms;

/// Appends one character to a `String`.
#[verifier::external_body]
pub(crate) fn push_char(s: &mut String, c: char)
    ensures
        final(s)@ == old(s)@.push(c),
{
    s.push(c)
}

/// The characters of `s`, in order.
pub fn chars_of(s: &str) -> (v: Vec<char>)
    ensures
        v@ == s@,
{
    let mut v: Vec<char> = Vec::new();
    for c in it: s.chars()
        invariant
            v@ == it.seq().take(it.index()),
    {
        v.push(c);
    }
    v
}

/// A `String` holding exactly the characters of `cs`.
pub fn string_of(cs: &[char]) -> (s: String)
    ensures
        s@ == cs@,
{
    let mut s = String::new();
    let mut i: usize = 0;
    while i < cs.len()
        invariant
            i <= cs@.len(),
            s@ == cs@.take(i as int),
        decreases cs@.len() - i,
    {
        push_char(&mut s, cs[i]);
        assert(cs@.take(i as int).push(cs@[i as int]) =~= cs@.take(i + 1));
        i += 1;
    }
    assert(cs@.take(cs@.len() as int) =~= cs@);
    s
}

/// Whether two character slices are equal.
pub fn chars_eq(a: &[char], b: &[char]) -> (r: bool)
    ensures
        r == (a@ == b@),
{
    if a.len() != b.len() {
        return false;
    }
    let mut i: usize = 0;
    while i < a.len()
        invariant
            a@.len() == b@.len(),
            i <= a@.len(),
            forall|j: int| 0 <= j < i ==> a@[j] == b@[j],
        decreases a@.len() - i,
    {
        if a[i] != b[i] {
            return false;
        }
        i += 1;
    }
    assert(a@ =~= b@);
    true
}

/// Whether the characters `a` spell the string `b`.
pub fn chars_eq_str(a: &[char], b: &str) -> (r: bool)
    ensures
        r == (a@ == b@),
{
    let bv = chars_of(b);
    chars_eq(a, bv.as_slice())
}

/// Whether two strings are equal.
pub fn str_eq(a: &str, b: &str) -> (r: bool)
    ensures
        r == (a@ == b@),
{
    let av = chars_of(a);
    chars_eq_str(av.as_slice(), b)
}

/// The characters `s[from..to]`.
pub fn sub_chars(s: &[char], from: usize, to: usize) -> (r: Vec<char>)
    requires
        from <= to <= s@.len(),
    ensures
        r@ == s@.subrange(from as int, to as int),
{
    let mut r: Vec<char> = Vec::new();
    let mut i = from;
    while i < to
        invariant
            from <= i <= to <= s@.len(),
            r@ == s@.subrange(from as int, i as int),
        decreases to - i,
    {
        r.push(s[i]);
        assert(s@.subrange(from as int, i as int).push(s@[i as int]) =~= s@.subrange(
            from as int,
            i + 1,
        ));
        i += 1;
    }
    r
}

// ---------------------------------------------------------------- decimal

/// The character of a decimal digit value.
pub open spec fn digit_char(d: nat) -> char
    recommends
        d < 10,
{
    ((d + 48) as u32) as char
}

/// Whether `c` is an ASCII decimal digit.
pub open spec fn is_digit(c: char) -> bool {
    '0' <= c <= '9'
}

/// The value of an ASCII decimal digit.
pub open spec fn digit_value(c: char) -> nat {
    (c as int - '0' as int) as nat
}

/// The value of a string of decimal digits, most significant first.
pub open spec fn digits_value(s: Seq<char>) -> nat
    decreases s.len(),
{
    if s.len() == 0 {
        0
    } else {
        digits_value(s.drop_last()) * 10 + digit_value(s.last())
    }
}

/// Whether every character of `s` is a decimal digit.
pub open spec fn all_digits(s: Seq<char>) -> bool {
    forall|i: int| 0 <= i < s.len() ==> is_digit(#[trigger] s[i])
}

/// The decimal notation of `n`, without leading zeros.
pub open spec fn decimal(n: nat) -> Seq<char>
    decreases n,
{
    if n < 10 {
        seq![digit_char(n)]
    } else {
        decimal(n / 10).push(digit_char(n % 10))
    }
}

fn push_decimal(n: u64, out: &mut Vec<char>)
    ensures
        final(out)@ == old(out)@ + decimal(n as nat),
    decreases n,
{
    if n >= 10 {
        push_decimal(n / 10, out);
    }
    let d = (n % 10) as u32;
    let c = char_from_digit(d);
    out.push(c);
    proof {
        if n >= 10 {
            assert(decimal(n as nat) == decimal((n / 10) as nat).push(digit_char((n % 10) as nat)));
        }
    }
    assert(final(out)@ =~= old(out)@ + decimal(n as nat));
}

fn char_from_digit(d: u32) -> (c: char)
    requires
        d < 10,
    ensures
        c == digit_char(d as nat),
{
    match d {
        0 => '0',
        1 => '1',
        2 => '2',
        3 => '3',
        4 => '4',
        5 => '5',
        6 => '6',
        7 => '7',
        8 => '8',
        _ => '9',
    }
}

/// The decimal text of `n`.
pub fn decimal_string(n: u64) -> (s: String)
    ensures
        s@ == decimal(n as nat),
{
    let mut v: Vec<char> = Vec::new();
    push_decimal(n, &mut v);
    assert(v@ =~= decimal(n as nat));
    string_of(v.as_slice())
}


/// Extending a digit string never lowers its value.
pub proof fn lemma_digits_prefix_le(s: Seq<char>, i: int)
    requires
        0 <= i <= s.len(),
    ensures
        digits_value(s.take(i)) <= digits_value(s),
    decreases s.len() - i,
{
    if i < s.len() {
        lemma_digits_prefix_le(s, i + 1);
        assert(s.take(i + 1).drop_last() =~= s.take(i));
    } else {
        assert(s.take(i) =~= s);
    }
}

/// The digits that an unsigned parse reads: `s` without one leading `+`.
pub open spec fn unsigned_digits(s: Seq<char>) -> Seq<char> {
    if s.len() > 0 && s[0] == '+' {
        s.drop_first()
    } else {
        s
    }
}

/// Rust's `str::parse` for an unsigned integer type whose largest value is `max`:
/// an optional `+`, then one or more ASCII digits whose value is at most `max`.
pub open spec fn parse_unsigned(s: Seq<char>, max: nat) -> Option<nat> {
    let d = unsigned_digits(s);
    if d.len() > 0 && all_digits(d) && digits_value(d) <= max {
        Some(digits_value(d))
    } else {
        None
    }
}

/// Rust's `str::parse` for `i64`: an optional sign, then one or more ASCII
/// digits whose signed value lies in the range of `i64`.
pub open spec fn parse_i64_spec(s: Seq<char>) -> Option<int> {
    if s.len() > 0 && s[0] == '-' {
        let d = s.drop_first();
        if d.len() > 0 && all_digits(d) && digits_value(d) <= 0x8000_0000_0000_0000 {
            Some(-(digits_value(d) as int))
        } else {
            None
        }
    } else {
        match parse_unsigned(s, 0x7fff_ffff_ffff_ffff) {
            Some(v) => Some(v as int),
            None => None,
        }
    }
}

fn digit_of(c: char) -> (d: u64)
    requires
        is_digit(c),
    ensures
        d as nat == digit_value(c),
        d < 10,
{
    (c as u32 - '0' as u32) as u64
}

/// The value of the digit string `d` when it is nonempty, all digits and at most `max`.
fn parse_digits(d: &[char], max: u64) -> (r: Option<u64>)
    ensures
        r == (if d@.len() > 0 && all_digits(d@) && digits_value(d@) <= max {
            Some(digits_value(d@) as u64)
        } else {
            None::<u64>
        }),
{
    if d.len() == 0 {
        return None;
    }
    let mut value: u64 = 0;
    let mut i: usize = 0;
    while i < d.len()
        invariant
            0 <= i <= d@.len(),
            value as nat == digits_value(d@.take(i as int)),
            value <= max,
            forall|j: int| 0 <= j < i ==> is_digit(#[trigger] d@[j]),
        decreases d@.len() - i,
    {
        let c = d[i];
        if !('0' <= c && c <= '9') {
            return None;
        }
        let digit = digit_of(c);
        assert(d@.take(i + 1).drop_last() =~= d@.take(i as int));
        assert(digits_value(d@.take(i + 1)) == digits_value(d@.take(i as int)) * 10 + digit_value(
            d@[i as int],
        ));
        if digit > max {
            proof {
                lemma_digits_prefix_le(d@, i + 1);
            }
            return None;
        }
        if value > (max - digit) / 10 {
            proof {
                lemma_digits_prefix_le(d@, i + 1);
                assert(value * 10 + digit > max) by (nonlinear_arith)
                    requires
                        value > (max - digit) / 10,
                        digit <= max,
                ;
            }
            return None;
        }
        assert(value * 10 + digit <= max) by (nonlinear_arith)
            requires
                value <= (max - digit) / 10,
                digit <= max,
        ;
        value = value * 10 + digit;
        i += 1;
    }
    assert(d@.take(d@.len() as int) =~= d@);
    Some(value)
}

/// Rust's `str::parse::<u64>` on the characters `s`.
pub fn parse_u64_chars(s: &[char]) -> (r: Option<u64>)
    ensures
        r matches Some(v) ==> parse_unsigned(s@, u64::MAX as nat) == Some(v as nat),
        r is None ==> parse_unsigned(s@, u64::MAX as nat) is None,
{
    if s.len() > 0 && s[0] == '+' {
        let d = sub_chars(s, 1, s.len());
        assert(d@ =~= s@.drop_first());
        parse_digits(d.as_slice(), u64::MAX)
    } else {
        parse_digits(s, u64::MAX)
    }
}

/// Rust's `str::parse::<u8>` on the characters `s`.
pub fn parse_u8_chars(s: &[char]) -> (r: Option<u8>)
    ensures
        r matches Some(v) ==> parse_unsigned(s@, u8::MAX as nat) == Some(v as nat),
        r is None ==> parse_unsigned(s@, u8::MAX as nat) is None,
{
    let r = if s.len() > 0 && s[0] == '+' {
        let d = sub_chars(s, 1, s.len());
        assert(d@ =~= s@.drop_first());
        parse_digits(d.as_slice(), 255)
    } else {
        parse_digits(s, 255)
    };
    match r {
        Some(v) => Some(v as u8),
        None => None,
    }
}

/// Rust's `str::parse::<u32>` on the characters `s`.
pub fn parse_u32_chars(s: &[char]) -> (r: Option<u32>)
    ensures
        r matches Some(v) ==> parse_unsigned(s@, u32::MAX as nat) == Some(v as nat),
        r is None ==> parse_unsigned(s@, u32::MAX as nat) is None,
{
    let r = if s.len() > 0 && s[0] == '+' {
        let d = sub_chars(s, 1, s.len());
        assert(d@ =~= s@.drop_first());
        parse_digits(d.as_slice(), 0xffff_ffff)
    } else {
        parse_digits(s, 0xffff_ffff)
    };
    match r {
        Some(v) => Some(v as u32),
        None => None,
    }
}

/// Rust's `str::parse::<i64>` on the characters `s`.
pub fn parse_i64_chars(s: &[char]) -> (r: Option<i64>)
    ensures
        r matches Some(v) ==> parse_i64_spec(s@) == Some(v as int),
        r is None ==> parse_i64_spec(s@) is None,
{
    if s.len() > 0 && s[0] == '-' {
        let d = sub_chars(s, 1, s.len());
        assert(d@ =~= s@.drop_first());
        match parse_digits(d.as_slice(), 0x8000_0000_0000_0000) {
            Some(v) => {
                if v == 0x8000_0000_0000_0000 {
                    Some(i64::MIN)
                } else {
                    Some(-(v as i64))
                }
            },
            None => None,
        }
    } else {
        let r = if s.len() > 0 && s[0] == '+' {
            let d = sub_chars(s, 1, s.len());
            assert(d@ =~= s@.drop_first());
            parse_digits(d.as_slice(), 0x7fff_ffff_ffff_ffff)
        } else {
            parse_digits(s, 0x7fff_ffff_ffff_ffff)
        };
        match r {
            Some(v) => Some(v as i64),
            None => None,
        }
    }
}

// ---------------------------------------------------------------- searching

/// The predicate "is the character `c`".
pub open spec fn is_char(c: char) -> spec_fn(char) -> bool {
    |x: char| x == c
}

/// Unicode `White_Space`, the set that `char::is_whitespace` tests.
pub open spec fn is_ws(c: char) -> bool {
    ||| c == ' '
    ||| '\t' <= c <= '\r'
    ||| c == '\u{85}'
    ||| c == '\u{a0}'
    ||| c == '\u{1680}'
    ||| '\u{2000}' <= c <= '\u{200a}'
    ||| c == '\u{2028}'
    ||| c == '\u{2029}'
    ||| c == '\u{202f}'
    ||| c == '\u{205f}'
    ||| c == '\u{3000}'
}

/// The predicate "is white space".
pub open spec fn ws() -> spec_fn(char) -> bool {
    |x: char| is_ws(x)
}

/// The predicate "is not white space".
pub open spec fn non_ws() -> spec_fn(char) -> bool {
    |x: char| !is_ws(x)
}

/// The first index at or after `k` whose character satisfies `p`, or `s.len()`.
pub open spec fn find_from(s: Seq<char>, p: spec_fn(char) -> bool, k: nat) -> nat
    decreases s.len() - k,
{
    if k >= s.len() {
        s.len()
    } else if p(s[k as int]) {
        k
    } else {
        find_from(s, p, k + 1)
    }
}

pub proof fn lemma_find_from_bounds(s: Seq<char>, p: spec_fn(char) -> bool, k: nat)
    ensures
        k <= s.len() ==> k <= find_from(s, p, k) <= s.len(),
        k > s.len() ==> find_from(s, p, k) == s.len(),
        find_from(s, p, k) < s.len() ==> p(s[find_from(s, p, k) as int]),
        forall|j: int| k <= j < find_from(s, p, k) ==> !p(#[trigger] s[j]),
    decreases s.len() - k,
{
    if k < s.len() && !p(s[k as int]) {
        lemma_find_from_bounds(s, p, k + 1);
    }
}

/// `find_from` is the first satisfying index after `k`.
pub proof fn lemma_find_from_is(s: Seq<char>, p: spec_fn(char) -> bool, k: nat, e: nat)
    requires
        k <= e <= s.len(),
        e < s.len() ==> p(s[e as int]),
        forall|j: int| k <= j < e ==> !p(#[trigger] s[j]),
    ensures
        find_from(s, p, k) == e,
    decreases e - k,
{
    if k < e {
        lemma_find_from_is(s, p, k + 1, e);
    }
}

/// The pieces of `s[k..]` between the characters that satisfy `p`, as `str::split` yields them.
pub open spec fn pieces_from(s: Seq<char>, p: spec_fn(char) -> bool, k: nat) -> Seq<Seq<char>>
    decreases s.len() - k,
{
    let e = find_from(s, p, k);
    if k > s.len() {
        seq![]
    } else if e >= s.len() {
        seq![s.subrange(k as int, s.len() as int)]
    } else {
        proof {
            lemma_find_from_bounds(s, p, k);
        }
        seq![s.subrange(k as int, e as int)] + pieces_from(s, p, e + 1)
    }
}

/// `str::split` by the characters that satisfy `p`.
pub open spec fn split_by(s: Seq<char>, p: spec_fn(char) -> bool) -> Seq<Seq<char>> {
    pieces_from(s, p, 0)
}

/// `str::split_once` at the first character equal to `c`.
pub open spec fn split_once(s: Seq<char>, c: char) -> Option<(Seq<char>, Seq<char>)> {
    let e = find_from(s, is_char(c), 0);
    if e < s.len() {
        Some((s.take(e as int), s.skip(e + 1 as int)))
    } else {
        None
    }
}

/// The two halves of `split_once` joined by the separator give the text back.
pub proof fn lemma_split_once_join(s: Seq<char>, c: char)
    ensures
        split_once(s, c) matches Some((a, b)) ==> s =~= a + seq![c] + b,
{
    lemma_find_from_bounds(s, is_char(c), 0);
}

/// The maximal runs of non-white-space characters in `s[k..]`, in order.
pub open spec fn words_from(s: Seq<char>, k: nat) -> Seq<Seq<char>>
    decreases s.len() - k,
{
    let a = find_from(s, non_ws(), k);
    if k >= s.len() || a >= s.len() {
        seq![]
    } else {
        let b = find_from(s, ws(), a);
        proof {
            lemma_find_from_bounds(s, non_ws(), k);
            lemma_find_from_bounds(s, ws(), a);
        }
        seq![s.subrange(a as int, b as int)] + words_from(s, b)
    }
}

/// `str::split_whitespace`: the maximal runs of non-white-space characters.
pub open spec fn words(s: Seq<char>) -> Seq<Seq<char>> {
    words_from(s, 0)
}

/// The end of `s[..e]` once trailing characters that satisfy `p` are dropped.
pub open spec fn trim_back(s: Seq<char>, p: spec_fn(char) -> bool, e: nat) -> nat
    decreases e,
{
    if e == 0 || e > s.len() {
        0
    } else if p(s[e - 1]) {
        trim_back(s, p, (e - 1) as nat)
    } else {
        e
    }
}

/// `str::trim`.
pub open spec fn trim(s: Seq<char>) -> Seq<char> {
    let a = find_from(s, non_ws(), 0);
    let b = trim_back(s, ws(), s.len());
    if a >= b {
        Seq::empty()
    } else {
        s.subrange(a as int, b as int)
    }
}

/// `str::lines` on `s[k..]`.
pub open spec fn lines_from(s: Seq<char>, k: nat) -> Seq<Seq<char>>
    decreases s.len() - k,
{
    let e = find_from(s, is_char('\n'), k);
    if k >= s.len() {
        seq![]
    } else if e >= s.len() {
        seq![s.subrange(k as int, s.len() as int)]
    } else {
        proof {
            lemma_find_from_bounds(s, is_char('\n'), k);
        }
        seq![strip_cr(s.subrange(k as int, e as int))] + lines_from(s, e + 1)
    }
}

/// A line without the `\r` of a `\r\n` ending.
pub open spec fn strip_cr(l: Seq<char>) -> Seq<char> {
    if l.len() > 0 && l.last() == '\r' {
        l.drop_last()
    } else {
        l
    }
}

/// `str::lines`.
pub open spec fn lines(s: Seq<char>) -> Seq<Seq<char>> {
    lines_from(s, 0)
}

/// The views of a sequence of character vectors.
pub open spec fn views(v: Seq<Vec<char>>) -> Seq<Seq<char>> {
    v.map_values(|x: Vec<char>| x@)
}

/// Whether `c` is white space.
pub fn char_is_ws(c: char) -> (r: bool)
    ensures
        r == is_ws(c),
{
    c == ' ' || ('\t' <= c && c <= '\r') || c == '\u{85}' || c == '\u{a0}' || c == '\u{1680}'
        || ('\u{2000}' <= c && c <= '\u{200a}') || c == '\u{2028}' || c == '\u{2029}' || c
        == '\u{202f}' || c == '\u{205f}' || c == '\u{3000}'
}

/// The first index at or after `k` holding `c`, or `s.len()`.
pub fn find_char_from(s: &[char], c: char, k: usize) -> (r: usize)
    requires
        k <= s@.len(),
    ensures
        r == find_from(s@, is_char(c), k as nat),
{
    let mut i = k;
    while i < s.len()
        invariant
            k <= i <= s@.len(),
            forall|j: int| k <= j < i ==> s@[j] != c,
        decreases s@.len() - i,
    {
        if s[i] == c {
            proof {
                lemma_find_from_is(s@, is_char(c), k as nat, i as nat);
            }
            return i;
        }
        i += 1;
    }
    proof {
        lemma_find_from_is(s@, is_char(c), k as nat, i as nat);
    }
    i
}

/// The first index at or after `k` that is not white space, or `s.len()`.
pub fn find_non_ws_from(s: &[char], k: usize) -> (r: usize)
    requires
        k <= s@.len(),
    ensures
        r == find_from(s@, non_ws(), k as nat),
{
    let mut i = k;
    while i < s.len()
        invariant
            k <= i <= s@.len(),
            forall|j: int| k <= j < i ==> is_ws(s@[j]),
        decreases s@.len() - i,
    {
        if !char_is_ws(s[i]) {
            proof {
                lemma_find_from_is(s@, non_ws(), k as nat, i as nat);
            }
            return i;
        }
        i += 1;
    }
    proof {
        lemma_find_from_is(s@, non_ws(), k as nat, i as nat);
    }
    i
}

/// The first index at or after `k` that is white space, or `s.len()`.
pub fn find_ws_from(s: &[char], k: usize) -> (r: usize)
    requires
        k <= s@.len(),
    ensures
        r == find_from(s@, ws(), k as nat),
{
    let mut i = k;
    while i < s.len()
        invariant
            k <= i <= s@.len(),
            forall|j: int| k <= j < i ==> !is_ws(s@[j]),
        decreases s@.len() - i,
    {
        if char_is_ws(s[i]) {
            proof {
                lemma_find_from_is(s@, ws(), k as nat, i as nat);
            }
            return i;
        }
        i += 1;
    }
    proof {
        lemma_find_from_is(s@, ws(), k as nat, i as nat);
    }
    i
}

/// `str::trim` on characters.
pub fn trim_chars(s: &[char]) -> (r: Vec<char>)
    ensures
        r@ == trim(s@),
{
    let a = find_non_ws_from(s, 0);
    let mut b = s.len();
    while b > 0 && char_is_ws(s[b - 1])
        invariant
            b <= s@.len(),
            trim_back(s@, ws(), b as nat) == trim_back(s@, ws(), s@.len()),
        decreases b,
    {
        b -= 1;
    }
    if a >= b {
        Vec::new()
    } else {
        sub_chars(s, a, b)
    }
}

/// `str::split_once` at the first `c`.
pub fn split_once_chars(s: &[char], c: char) -> (r: Option<(Vec<char>, Vec<char>)>)
    ensures
        r matches Some((a, b)) ==> split_once(s@, c) == Some((a@, b@)),
        r is None ==> split_once(s@, c) is None,
{
    let e = find_char_from(s, c, 0);
    if e < s.len() {
        let a = sub_chars(s, 0, e);
        let b = sub_chars(s, e + 1, s.len());
        assert(a@ =~= s@.take(e as int));
        assert(b@ =~= s@.skip(e + 1));
        Some((a, b))
    } else {
        None
    }
}

/// `str::split` at every `c`.
pub fn split_chars(s: &[char], c: char) -> (r: Vec<Vec<char>>)
    ensures
        views(r@) == split_by(s@, is_char(c)),
{
    let mut r: Vec<Vec<char>> = Vec::new();
    let mut k: usize = 0;
    loop
        invariant
            k <= s@.len(),
            views(r@) + pieces_from(s@, is_char(c), k as nat) == split_by(s@, is_char(c)),
        decreases s@.len() - k,
    {
        let e = find_char_from(s, c, k);
        proof {
            lemma_find_from_bounds(s@, is_char(c), k as nat);
        }
        let piece = sub_chars(s, k, e);
        let ghost before = views(r@);
        r.push(piece);
        assert(views(r@) =~= before.push(piece@));
        if e >= s.len() {
            assert(pieces_from(s@, is_char(c), k as nat) == seq![piece@]);
            assert(views(r@) =~= before + seq![piece@]);
            return r;
        }
        assert(pieces_from(s@, is_char(c), k as nat) == seq![piece@] + pieces_from(
            s@,
            is_char(c),
            (e + 1) as nat,
        ));
        assert(before + (seq![piece@] + pieces_from(s@, is_char(c), (e + 1) as nat)) =~= views(
            r@,
        ) + pieces_from(s@, is_char(c), (e + 1) as nat));
        k = e + 1;
    }
}

/// `str::split_whitespace` on characters.
pub fn words_of(s: &[char]) -> (r: Vec<Vec<char>>)
    ensures
        views(r@) == words(s@),
{
    let mut r: Vec<Vec<char>> = Vec::new();
    let mut k: usize = 0;
    loop
        invariant
            k <= s@.len(),
            views(r@) + words_from(s@, k as nat) == words(s@),
        decreases s@.len() - k,
    {
        let a = find_non_ws_from(s, k);
        proof {
            lemma_find_from_bounds(s@, non_ws(), k as nat);
        }
        if a >= s.len() {
            assert(words_from(s@, k as nat) == Seq::<Seq<char>>::empty());
            assert(views(r@) + Seq::<Seq<char>>::empty() =~= views(r@));
            return r;
        }
        let b = find_ws_from(s, a);
        proof {
            lemma_find_from_bounds(s@, ws(), a as nat);
        }
        let w = sub_chars(s, a, b);
        let ghost before = views(r@);
        r.push(w);
        assert(views(r@) =~= before.push(w@));
        assert(words_from(s@, k as nat) == seq![w@] + words_from(s@, b as nat));
        assert(before + (seq![w@] + words_from(s@, b as nat)) =~= views(r@) + words_from(
            s@,
            b as nat,
        ));
        k = b;
    }
}

/// `str::lines` on characters.
pub fn lines_of(s: &[char]) -> (r: Vec<Vec<char>>)
    ensures
        views(r@) == lines(s@),
{
    let mut r: Vec<Vec<char>> = Vec::new();
    let mut k: usize = 0;
    loop
        invariant
            k <= s@.len(),
            views(r@) + lines_from(s@, k as nat) == lines(s@),
        decreases s@.len() - k,
    {
        if k >= s.len() {
            assert(views(r@) + Seq::<Seq<char>>::empty() =~= views(r@));
            return r;
        }
        let e = find_char_from(s, '\n', k);
        proof {
            lemma_find_from_bounds(s@, is_char('\n'), k as nat);
        }
        let ghost before = views(r@);
        if e >= s.len() {
            let piece = sub_chars(s, k, e);
            r.push(piece);
            assert(views(r@) =~= before.push(piece@));
            assert(lines_from(s@, k as nat) == seq![piece@]);
            assert(views(r@) =~= before + seq![piece@]);
            return r;
        }
        let mut end = e;
        if end > k && s[end - 1] == '\r' {
            end = end - 1;
        }
        let piece = sub_chars(s, k, end);
        assert(piece@ =~= strip_cr(s@.subrange(k as int, e as int)));
        r.push(piece);
        assert(views(r@) =~= before.push(piece@));
        assert(lines_from(s@, k as nat) == seq![piece@] + lines_from(s@, (e + 1) as nat));
        assert(before + (seq![piece@] + lines_from(s@, (e + 1) as nat)) =~= views(r@)
            + lines_from(s@, (e + 1) as nat));
        k = e + 1;
    }
}

/// Whether `p` is a prefix of `s`.
pub open spec fn has_prefix(s: Seq<char>, p: Seq<char>) -> bool {
    p.len() <= s.len() && s.take(p.len() as int) == p
}

/// `str::strip_prefix`.
pub open spec fn strip_prefix(s: Seq<char>, p: Seq<char>) -> Option<Seq<char>> {
    if has_prefix(s, p) {
        Some(s.skip(p.len() as int))
    } else {
        None
    }
}

/// `str::strip_prefix` on characters.
pub fn strip_prefix_chars(s: &[char], p: &str) -> (r: Option<Vec<char>>)
    ensures
        r matches Some(v) ==> strip_prefix(s@, p@) == Some(v@),
        r is None ==> strip_prefix(s@, p@) is None,
{
    let pv = chars_of(p);
    if pv.len() > s.len() {
        return None;
    }
    let head = sub_chars(s, 0, pv.len());
    assert(head@ =~= s@.take(pv@.len() as int));
    if chars_eq(head.as_slice(), pv.as_slice()) {
        let rest = sub_chars(s, pv.len(), s.len());
        assert(rest@ =~= s@.skip(pv@.len() as int));
        Some(rest)
    } else {
        None
    }
}

} // verus!
