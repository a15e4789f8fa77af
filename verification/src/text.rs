//! Text as sequences of characters: the few string operations the library
//! needs, stated over `Seq<char>`.

use vstd::prelude::*;

verus! {

/// Whether two strings hold the same text.
///
/// Calls std's `==` on `str`, which compares the two byte for byte; the
/// contract says that this is equality of the characters.
#[verifier::external_body]
pub(crate) fn same(a: &str, b: &str) -> (r: bool)
    ensures
        r == (a@ == b@),
{
    a == b
}

/// Appends one character.
///
/// Calls std's `String::push`; the contract says that the character becomes
/// the last one and that the rest stays.
#[verifier::external_body]
pub(crate) fn push_char(s: &mut String, c: char)
    ensures
        final(s)@ == old(s)@.push(c),
{
    s.push(c)
}

/// The characters of a string, in order.
pub fn chars_of(s: &str) -> (v: Vec<char>)
    ensures
        v@ == s@,
{
    let mut v: Vec<char> = Vec::new();
    for c in it: s.chars()
        invariant
            v@ == it.seq().take(it.index()),
            it.seq() == s@,
    {
        v.push(c);
    }
    v
}

/// The string made of the given characters.
pub fn string_of(v: &Vec<char>) -> (s: String)
    ensures
        s@ == v@,
{
    part_of(v, 0, v.len())
}

/// The string made of the characters `from..to`.
pub fn part_of(v: &Vec<char>, from: usize, to: usize) -> (s: String)
    requires
        from <= to <= v.len(),
    ensures
        s@ == v@.subrange(from as int, to as int),
{
    let mut s = String::new();
    let mut i: usize = from;
    while i < to
        invariant
            from <= i <= to <= v.len(),
            s@ == v@.subrange(from as int, i as int),
        decreases to - i,
    {
        push_char(&mut s, v[i]);
        i += 1;
    }
    s
}

/// The decimal digits of `n`, without leading zeros.
pub open spec fn decimal_of(n: nat) -> Seq<char>
    decreases n,
{
    if n < 10 {
        seq![digit_of(n)]
    } else {
        decimal_of(n / 10).push(digit_of(n % 10))
    }
}

/// The character of one decimal digit.
pub open spec fn digit_of(d: nat) -> char {
    if d == 0 {
        '0'
    } else if d == 1 {
        '1'
    } else if d == 2 {
        '2'
    } else if d == 3 {
        '3'
    } else if d == 4 {
        '4'
    } else if d == 5 {
        '5'
    } else if d == 6 {
        '6'
    } else if d == 7 {
        '7'
    } else if d == 8 {
        '8'
    } else {
        '9'
    }
}

pub(crate) fn digit(d: u64) -> (c: char)
    requires
        d < 10,
    ensures
        c == digit_of(d as nat),
{
    if d == 0 {
        '0'
    } else if d == 1 {
        '1'
    } else if d == 2 {
        '2'
    } else if d == 3 {
        '3'
    } else if d == 4 {
        '4'
    } else if d == 5 {
        '5'
    } else if d == 6 {
        '6'
    } else if d == 7 {
        '7'
    } else if d == 8 {
        '8'
    } else {
        '9'
    }
}

/// Writes `n` in decimal.
pub fn decimal_wide(n: u128) -> (s: String)
    ensures
        s@ == decimal_of(n as nat),
    decreases n,
{
    if n < 10 {
        let mut s = String::new();
        push_char(&mut s, digit(n as u64));
        assert(s@ =~= seq![digit_of(n as nat)]);
        s
    } else {
        let mut s = decimal_wide(n / 10);
        push_char(&mut s, digit((n % 10) as u64));
        s
    }
}

/// Writes `n` in decimal.
pub fn decimal(n: u64) -> (s: String)
    ensures
        s@ == decimal_of(n as nat),
{
    decimal_wide(n as u128)
}


/// The characters that Unicode counts as white space.
pub open spec fn is_space_char(c: char) -> bool {
    let n = c as u32;
    ||| 9 <= n <= 13
    ||| n == 32
    ||| n == 0x85
    ||| n == 0xa0
    ||| n == 0x1680
    ||| 0x2000 <= n <= 0x200a
    ||| n == 0x2028
    ||| n == 0x2029
    ||| n == 0x202f
    ||| n == 0x205f
    ||| n == 0x3000
}

/// Whether Unicode counts `c` as white space.
pub fn is_space(c: char) -> (r: bool)
    ensures
        r == is_space_char(c),
{
    let n: u32 = c as u32;
    (9 <= n && n <= 13) || n == 32 || n == 0x85 || n == 0xa0 || n == 0x1680 || (0x2000 <= n && n
        <= 0x200a) || n == 0x2028 || n == 0x2029 || n == 0x202f || n == 0x205f || n == 0x3000
}

/// Where the text `s[from..to]` begins once leading white space is skipped.
pub open spec fn skip_space(s: Seq<char>, from: int, to: int) -> int
    decreases to - from,
{
    if from < to && is_space_char(s[from]) {
        skip_space(s, from + 1, to)
    } else {
        from
    }
}

/// Where the text `s[from..to]` ends once trailing white space is dropped.
pub open spec fn drop_space(s: Seq<char>, from: int, to: int) -> int
    decreases to - from,
{
    if from < to && is_space_char(s[to - 1]) {
        drop_space(s, from, to - 1)
    } else {
        to
    }
}

/// The text without white space at its ends.
pub open spec fn trimmed(s: Seq<char>) -> Seq<char> {
    let from = skip_space(s, 0, s.len() as int);
    s.subrange(from, drop_space(s, from, s.len() as int))
}

/// The part of `v[from..to]` that trimming leaves, as a range.
pub fn trim_range(v: &Vec<char>, from: usize, to: usize) -> (r: (usize, usize))
    requires
        from <= to <= v.len(),
    ensures
        r.0 == skip_space(v@, from as int, to as int),
        r.1 == drop_space(v@, r.0 as int, to as int),
        from <= r.0 <= r.1 <= to,
{
    let mut a: usize = from;
    while a < to && is_space(v[a])
        invariant
            from <= a <= to <= v.len(),
            skip_space(v@, a as int, to as int) == skip_space(v@, from as int, to as int),
        decreases to - a,
    {
        a += 1;
    }
    let mut b: usize = to;
    while b > a && is_space(v[b - 1])
        invariant
            a <= b <= to <= v.len(),
            drop_space(v@, a as int, b as int) == drop_space(v@, a as int, to as int),
        decreases b,
    {
        b -= 1;
    }
    (a, b)
}

/// The first white space of `s[from..to]`, or `to`.
pub open spec fn find_space(s: Seq<char>, from: int, to: int) -> int
    decreases to - from,
{
    if from < to && !is_space_char(s[from]) {
        find_space(s, from + 1, to)
    } else {
        from
    }
}

/// The first white space of `v[from..to]`, or `to`.
pub fn space_at(v: &Vec<char>, from: usize, to: usize) -> (r: usize)
    requires
        from <= to <= v.len(),
    ensures
        r == find_space(v@, from as int, to as int),
        from <= r <= to,
{
    let mut a: usize = from;
    while a < to && !is_space(v[a])
        invariant
            from <= a <= to <= v.len(),
            find_space(v@, a as int, to as int) == find_space(v@, from as int, to as int),
        decreases to - a,
    {
        a += 1;
    }
    a
}

/// The text with every occurrence of `pat`, found from the left and without
/// overlap, replaced by `with`.
pub open spec fn replaced(s: Seq<char>, pat: Seq<char>, with: Seq<char>) -> Seq<char>
    decreases s.len(),
{
    if pat.len() == 0 || s.len() < pat.len() {
        s
    } else if s.subrange(0, pat.len() as int) == pat {
        with + replaced(s.subrange(pat.len() as int, s.len() as int), pat, with)
    } else {
        seq![s[0]] + replaced(s.subrange(1, s.len() as int), pat, with)
    }
}

fn starts_at(s: &Vec<char>, at: usize, pat: &Vec<char>) -> (r: bool)
    requires
        at + pat.len() <= s.len(),
    ensures
        r == (s@.subrange(at as int, at + pat.len()) == pat@),
{
    let mut k: usize = 0;
    while k < pat.len()
        invariant
            k <= pat.len(),
            at + pat.len() <= s.len(),
            forall|j: int| 0 <= j < k ==> s@[at + j] == #[trigger] pat@[j],
        decreases pat.len() - k,
    {
        if s[at + k] != pat[k] {
            assert(s@.subrange(at as int, at + pat.len())[k as int] != pat@[k as int]);
            return false;
        }
        k += 1;
    }
    assert(s@.subrange(at as int, at + pat.len()) =~= pat@);
    true
}

/// The text with every occurrence of a pattern replaced.
pub fn replace(s: &str, pat: &str, with: &str) -> (r: String)
    requires
        pat@.len() > 0,
    ensures
        r@ == replaced(s@, pat@, with@),
{
    let v = chars_of(s);
    let p = chars_of(pat);
    let n: usize = v.len();
    let mut out = String::new();
    let mut i: usize = 0;
    proof {
        assert(s@.subrange(0, s@.len() as int) =~= s@);
        assert(out@ + replaced(s@, pat@, with@) =~= replaced(s@, pat@, with@));
    }
    while i < n
        invariant
            v@ == s@,
            p@ == pat@,
            p@.len() > 0,
            n == v@.len(),
            i <= n,
            out@ + replaced(s@.subrange(i as int, n as int), pat@, with@) == replaced(
                s@,
                pat@,
                with@,
            ),
        decreases n - i,
    {
        let ghost rest = s@.subrange(i as int, n as int);
        let ghost before = out@;
        if p.len() > n - i {
            let tail = part_of(&v, i, n);
            out.append(tail.as_str());
            proof {
                assert(s@.subrange(n as int, n as int) =~= Seq::<char>::empty());
                assert(out@ + Seq::<char>::empty() =~= before + rest);
            }
            i = n;
        } else if starts_at(&v, i, &p) {
            out.append(with);
            proof {
                let k = p@.len() as int;
                assert(rest.subrange(0, k) =~= s@.subrange(i as int, i + k));
                assert(rest.subrange(k, rest.len() as int) =~= s@.subrange(i + k, n as int));
                let more = replaced(s@.subrange(i + k, n as int), pat@, with@);
                assert(before + (with@ + more) =~= (before + with@) + more);
            }
            i = i + p.len();
        } else {
            push_char(&mut out, v[i]);
            proof {
                let k = p@.len() as int;
                assert(rest.subrange(0, k) =~= s@.subrange(i as int, i + k));
                assert(rest.subrange(1, rest.len() as int) =~= s@.subrange(i + 1, n as int));
                let more = replaced(s@.subrange(i + 1, n as int), pat@, with@);
                assert(rest[0] == s@[i as int]);
                assert(before + (seq![rest[0]] + more) =~= before.push(s@[i as int]) + more);
            }
            i += 1;
        }
    }
    proof {
        assert(s@.subrange(n as int, n as int) =~= Seq::<char>::empty());
        assert(out@ + Seq::<char>::empty() =~= out@);
    }
    out
}

/// Whether the text begins with `pat`.
pub open spec fn begins(s: Seq<char>, pat: Seq<char>) -> bool {
    s.len() >= pat.len() && s.subrange(0, pat.len() as int) == pat
}

/// Whether the text begins with `pat`.
pub fn begins_with(s: &str, pat: &str) -> (r: bool)
    ensures
        r == begins(s@, pat@),
{
    let v = chars_of(s);
    let p = chars_of(pat);
    if v.len() < p.len() {
        return false;
    }
    starts_at(&v, 0, &p)
}

/// A path below a directory: the directory, a separator unless it ends with
/// one, and the path; an absolute path stands for itself.
pub open spec fn joined_path(dir: Seq<char>, rest: Seq<char>) -> Seq<char> {
    if rest.len() > 0 && rest[0] == '/' {
        rest
    } else if dir.len() == 0 || dir.last() == '/' {
        dir + rest
    } else {
        dir.push('/') + rest
    }
}

/// A path below a directory.
pub fn join_path(dir: &str, rest: &str) -> (r: String)
    ensures
        r@ == joined_path(dir@, rest@),
{
    let d = chars_of(dir);
    let v = chars_of(rest);
    if v.len() > 0 && v[0] == '/' {
        return rest.to_owned();
    }
    let mut r = dir.to_owned();
    if d.len() > 0 && d[d.len() - 1] != '/' {
        push_char(&mut r, '/');
    }
    r.append(rest);
    r
}

/// Whether a character is a decimal digit.
pub open spec fn is_digit_char(c: char) -> bool {
    '0' <= c <= '9'
}

/// What the first `n` characters say as decimal digits.
pub open spec fn digits_value(s: Seq<char>, n: int) -> nat
    decreases n,
{
    if n <= 0 {
        0
    } else {
        10 * digits_value(s, n - 1) + (s[n - 1] as nat - '0' as nat) as nat
    }
}

/// The decimal number that digits say.
pub open spec fn count_said(d: Seq<char>) -> Option<nat> {
    if d.len() == 0 || exists|k: int| 0 <= k < d.len() && !is_digit_char(#[trigger] d[k]) {
        None
    } else if digits_value(d, d.len() as int) > usize::MAX {
        None
    } else {
        Some(digits_value(d, d.len() as int))
    }
}

/// The decimal number that a text is, after a plus sign that it may have.
pub open spec fn count_in(s: Seq<char>) -> Option<nat> {
    if s.len() > 0 && s[0] == '+' {
        count_said(s.subrange(1, s.len() as int))
    } else {
        count_said(s)
    }
}

/// Whether a character is a decimal digit.
pub fn is_digit(c: char) -> (r: bool)
    ensures
        r == is_digit_char(c),
{
    '0' <= c && c <= '9'
}

fn digit_value(c: char) -> (n: usize)
    requires
        is_digit_char(c),
    ensures
        n == c as nat - '0' as nat,
        n < 10,
{
    (c as u32 - '0' as u32) as usize
}

fn read_digits(v: &Vec<char>) -> (r: Option<usize>)
    ensures
        r.is_some() == count_said(v@).is_some(),
        r matches Some(n) ==> count_said(v@) == Some(n as nat),
{
    if v.len() == 0 {
        return None;
    }
    let mut n: usize = 0;
    let mut over = false;
    let mut i: usize = 0;
    while i < v.len()
        invariant
            i <= v@.len(),
            forall|k: int| 0 <= k < i ==> is_digit_char(#[trigger] v@[k]),
            !over ==> n == digits_value(v@, i as int),
            over ==> digits_value(v@, i as int) > usize::MAX,
        decreases v@.len() - i,
    {
        if !is_digit(v[i]) {
            return None;
        }
        let x: usize = digit_value(v[i]);
        if !over {
            match n.checked_mul(10) {
                Some(m) => {
                    match m.checked_add(x) {
                        Some(k) => {
                            n = k;
                        },
                        None => {
                            over = true;
                        },
                    }
                },
                None => {
                    over = true;
                },
            }
        }
        i += 1;
    }
    if over {
        None
    } else {
        Some(n)
    }
}

/// Reads a decimal number, with a plus sign before it or without one.
pub fn read_count(s: &str) -> (r: Option<usize>)
    ensures
        r.is_some() == count_in(s@).is_some(),
        r matches Some(n) ==> count_in(s@) == Some(n as nat),
{
    let v = chars_of(s);
    if v.len() > 0 && v[0] == '+' {
        read_digits(&tail_of(&v, 1))
    } else {
        read_digits(&v)
    }
}

/// Where the digits that begin at `from` end.
pub open spec fn digits_end(s: Seq<char>, from: int) -> int
    decreases s.len() - from,
{
    if 0 <= from < s.len() && is_digit_char(s[from]) {
        digits_end(s, from + 1)
    } else {
        from
    }
}

/// A text without a sign that it may begin with.
pub open spec fn unsigned(s: Seq<char>) -> Seq<char> {
    if s.len() > 0 && (s[0] == '+' || s[0] == '-') {
        s.subrange(1, s.len() as int)
    } else {
        s
    }
}

/// A letter in lower case, where it is one of the alphabet's.
pub open spec fn lower_char(c: char) -> char {
    if 'A' <= c <= 'Z' {
        (c as u32 + 32) as char
    } else {
        c
    }
}

/// A text in lower case.
pub open spec fn lowered(s: Seq<char>) -> Seq<char> {
    s.map_values(|c: char| lower_char(c))
}

/// An exponent: the letter, a sign that may be there, and digits.
pub open spec fn is_exponent(s: Seq<char>) -> bool {
    &&& s.len() > 1
    &&& s[0] == 'e' || s[0] == 'E'
    &&& {
        let d = unsigned(s.subrange(1, s.len() as int));
        d.len() > 0 && digits_end(d, 0) == d.len()
    }
}

/// A decimal number: digits with a point before, among or after them, and an
/// exponent that may follow.
pub open spec fn is_decimal(s: Seq<char>) -> bool {
    let whole = digits_end(s, 0);
    let pointed = whole < s.len() && s[whole] == '.';
    let end = if pointed {
        digits_end(s, whole + 1)
    } else {
        whole
    };
    let digits = if pointed {
        end - 1
    } else {
        end
    };
    digits > 0 && (end == s.len() || is_exponent(s.subrange(end, s.len() as int)))
}

/// A text that reads as a number: a decimal one, infinity or none at all, with a
/// sign or without one.
pub open spec fn is_number(s: Seq<char>) -> bool {
    let u = unsigned(s);
    is_decimal(u) || lowered(u) == "inf"@ || lowered(u) == "infinity"@ || lowered(u) == "nan"@
}

fn find_digits_end(v: &Vec<char>, from: usize) -> (r: usize)
    requires
        from <= v@.len(),
    ensures
        r == digits_end(v@, from as int),
        from <= r <= v@.len(),
{
    let mut i: usize = from;
    while i < v.len() && is_digit(v[i])
        invariant
            from <= i <= v@.len(),
            digits_end(v@, i as int) == digits_end(v@, from as int),
        decreases v@.len() - i,
    {
        i += 1;
    }
    i
}

fn tail_of(v: &Vec<char>, from: usize) -> (r: Vec<char>)
    requires
        from <= v@.len(),
    ensures
        r@ == v@.subrange(from as int, v@.len() as int),
{
    let mut r: Vec<char> = Vec::new();
    let mut i: usize = from;
    while i < v.len()
        invariant
            from <= i <= v@.len(),
            r@ == v@.subrange(from as int, i as int),
        decreases v@.len() - i,
    {
        r.push(v[i]);
        i += 1;
    }
    r
}

fn unsign(v: &Vec<char>) -> (r: Vec<char>)
    ensures
        r@ == unsigned(v@),
{
    if v.len() > 0 && (v[0] == '+' || v[0] == '-') {
        tail_of(v, 1)
    } else {
        let r = tail_of(v, 0);
        assert(r@ =~= v@);
        r
    }
}

fn exponent(v: &Vec<char>) -> (r: bool)
    ensures
        r == is_exponent(v@),
{
    if v.len() > 1 && (v[0] == 'e' || v[0] == 'E') {
        let d = unsign(&tail_of(v, 1));
        d.len() > 0 && find_digits_end(&d, 0) == d.len()
    } else {
        false
    }
}

fn decimal_number(v: &Vec<char>) -> (r: bool)
    ensures
        r == is_decimal(v@),
{
    let whole: usize = find_digits_end(v, 0);
    let pointed = whole < v.len() && v[whole] == '.';
    let end: usize = if pointed {
        find_digits_end(v, whole + 1)
    } else {
        whole
    };
    let digits: usize = if pointed {
        end - 1
    } else {
        end
    };
    digits > 0 && (end == v.len() || exponent(&tail_of(v, end)))
}

fn lower(v: &Vec<char>) -> (r: String)
    ensures
        r@ == lowered(v@),
{
    let mut r = String::new();
    let mut i: usize = 0;
    assert(r@ =~= lowered(v@).take(0));
    while i < v.len()
        invariant
            i <= v@.len(),
            r@ == lowered(v@).take(i as int),
        decreases v@.len() - i,
    {
        let c: char = v[i];
        let l: char = lower_letter(c);
        push_char(&mut r, l);
        i += 1;
        assert(lowered(v@).take(i as int) =~= lowered(v@).take(i - 1).push(lower_char(c)));
    }
    assert(lowered(v@).take(i as int) =~= lowered(v@));
    r
}

fn lower_letter(c: char) -> (l: char)
    ensures
        l == lower_char(c),
{
    if 'A' <= c && c <= 'Z' {
        ((c as u8) + 32u8) as char
    } else {
        c
    }
}

/// Whether a text reads as a number.
pub fn reads_as_number(s: &str) -> (r: bool)
    ensures
        r == is_number(s@),
{
    let u = unsign(&chars_of(s));
    let l = lower(&u);
    decimal_number(&u) || same(l.as_str(), "inf") || same(l.as_str(), "infinity") || same(
        l.as_str(),
        "nan",
    )
}

/// What std writes for a text in quotes, with escapes.
pub uninterp spec fn debug_text(s: Seq<char>) -> Seq<char>;

/// A text in quotes, with escapes.
///
/// Calls std's `Debug` for `str`; the contract gives the result, a function of the
/// text alone, the name `debug_text`.
#[verifier::external_body]
pub(crate) fn in_quotes(s: &str) -> (r: String)
    ensures
        r@ == debug_text(s@),
{
    format!("{s:?}")
}

} // verus!
