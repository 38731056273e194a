//! Text helpers with exact specifications: decimal formatting and parsing,
//! Unicode white space trimming, substring search and replacement.
use vstd::prelude::*;
use vstd::string::*;

verus! {

/// `String::push` from std: appends one character.
#[verifier::external_body]
pub(crate) fn push_char(s: &mut String, c: char)
    ensures
        final(s)@ == old(s)@.push(c),
{
    s.push(c);
}

/// The character of the decimal digit `d` (for `d < 10`).
pub open spec fn digit_char(d: nat) -> char {
    ((48 + d) as u32) as char
}

/// The decimal representation of a natural number, without leading zeros.
pub open spec fn decimal(n: nat) -> Seq<char>
    decreases n,
{
    if n < 10 {
        seq![digit_char(n)]
    } else {
        decimal(n / 10).push(digit_char(n % 10))
    }
}

/// The decimal representation of an integer, with a leading '-' when negative.
pub open spec fn signed_decimal(i: int) -> Seq<char> {
    if i < 0 {
        seq!['-'] + decimal((-i) as nat)
    } else {
        decimal(i as nat)
    }
}

fn digit(d: u64) -> (c: char)
    requires
        d < 10,
    ensures
        c == digit_char(d as nat),
{
    let b: u8 = 48u8 + d as u8;
    b as char
}

/// Appends the decimal representation of `n` to `s`.
pub fn push_decimal(s: &mut String, n: u64)
    ensures
        final(s)@ == old(s)@ + decimal(n as nat),
    decreases n,
{
    if n < 10 {
        push_char(s, digit(n));
    } else {
        push_decimal(s, n / 10);
        push_char(s, digit(n % 10));
    }
}

/// Appends the decimal representation of `n` to `s`, with '-' when negative.
pub fn push_signed(s: &mut String, n: i64)
    ensures
        final(s)@ == old(s)@ + signed_decimal(n as int),
{
    if n < 0 {
        push_char(s, '-');
        let m: u64 = if n == i64::MIN { 9223372036854775808u64 } else { (-n) as u64 };
        push_decimal(s, m);
    } else {
        push_decimal(s, n as u64);
    }
}


/// Whether `c` is an ASCII decimal digit, as `char::is_ascii_digit` decides.
pub open spec fn is_ascii_digit(c: char) -> bool {
    48 <= (c as u32) <= 57
}

/// Whether `c` has the Unicode White_Space property, which is what
/// `char::is_whitespace` and `str::trim` go by.
pub open spec fn is_white_space(c: char) -> bool {
    let u = c as u32;
    ||| 9 <= u <= 13
    ||| u == 32
    ||| u == 0x85
    ||| u == 0xA0
    ||| u == 0x1680
    ||| 0x2000 <= u <= 0x200A
    ||| u == 0x2028
    ||| u == 0x2029
    ||| u == 0x202F
    ||| u == 0x205F
    ||| u == 0x3000
}

pub fn char_is_ascii_digit(c: char) -> (b: bool)
    ensures
        b == is_ascii_digit(c),
{
    let u: u32 = c as u32;
    48 <= u && u <= 57
}

pub fn char_is_white_space(c: char) -> (b: bool)
    ensures
        b == is_white_space(c),
{
    let u: u32 = c as u32;
    (9 <= u && u <= 13) || u == 32 || u == 0x85 || u == 0xA0 || u == 0x1680 || (0x2000 <= u
        && u <= 0x200A) || u == 0x2028 || u == 0x2029 || u == 0x202F || u == 0x205F || u == 0x3000
}

/// The ASCII digits of `s`, in order: what `filter(|c| c.is_ascii_digit())` keeps.
pub open spec fn ascii_digits(s: Seq<char>) -> Seq<char>
    decreases s.len(),
{
    if s.len() == 0 {
        seq![]
    } else {
        let rest = ascii_digits(s.drop_last());
        if is_ascii_digit(s.last()) {
            rest.push(s.last())
        } else {
            rest
        }
    }
}

/// A text without ASCII digits keeps none.
pub proof fn lemma_no_digits(s: Seq<char>)
    requires
        forall|i: int| 0 <= i < s.len() ==> !is_ascii_digit(#[trigger] s[i]),
    ensures
        ascii_digits(s) == Seq::<char>::empty(),
    decreases s.len(),
{
    if s.len() > 0 {
        let rest = s.drop_last();
        assert forall|i: int| 0 <= i < rest.len() implies !is_ascii_digit(#[trigger] rest[i]) by {
            assert(rest[i] == s[i]);
        }
        lemma_no_digits(rest);
        assert(!is_ascii_digit(s[s.len() - 1]));
    }
}

/// The digits of a concatenation are the digits of its parts.
pub proof fn lemma_ascii_digits_concat(a: Seq<char>, b: Seq<char>)
    ensures
        ascii_digits(a + b) == ascii_digits(a) + ascii_digits(b),
    decreases b.len(),
{
    if b.len() == 0 {
        assert(a + b =~= a);
        assert(ascii_digits(a) + Seq::<char>::empty() =~= ascii_digits(a));
    } else {
        lemma_ascii_digits_concat(a, b.drop_last());
        assert((a + b).drop_last() =~= a + b.drop_last());
        assert((a + b).last() == b.last());
        if is_ascii_digit(b.last()) {
            assert(ascii_digits(a) + ascii_digits(b.drop_last()).push(b.last()) =~= (ascii_digits(a)
                + ascii_digits(b.drop_last())).push(b.last()));
        }
    }
}

/// The number that a sequence of decimal digits denotes.
pub open spec fn digits_value(d: Seq<char>) -> nat
    decreases d.len(),
{
    if d.len() == 0 {
        0
    } else {
        digits_value(d.drop_last()) * 10 + ((d.last() as u32) - 48) as nat
    }
}

/// What `str::parse::<u32>` gives for a string of decimal digits: nothing for
/// the empty string or a number above `u32::MAX`.
pub open spec fn parse_digits(d: Seq<char>) -> Option<u32> {
    if d.len() == 0 || digits_value(d) > u32::MAX {
        None
    } else {
        Some(digits_value(d) as u32)
    }
}

/// Number of white-space characters at the start of `s`.
pub open spec fn leading_white_space(s: Seq<char>) -> nat
    decreases s.len(),
{
    if s.len() == 0 || !is_white_space(s[0]) {
        0
    } else {
        1 + leading_white_space(s.drop_first())
    }
}

/// Number of white-space characters at the end of `s`.
pub open spec fn trailing_white_space(s: Seq<char>) -> nat
    decreases s.len(),
{
    if s.len() == 0 || !is_white_space(s.last()) {
        0
    } else {
        1 + trailing_white_space(s.drop_last())
    }
}

proof fn lemma_leading_are_white(s: Seq<char>)
    ensures
        leading_white_space(s) <= s.len(),
        forall|i: int| 0 <= i < leading_white_space(s) ==> is_white_space(#[trigger] s[i]),
    decreases s.len(),
{
    if s.len() > 0 && is_white_space(s[0]) {
        let t = s.drop_first();
        lemma_leading_are_white(t);
        assert forall|i: int| 0 <= i < leading_white_space(s) implies is_white_space(#[trigger] s[i]) by {
            if i > 0 {
                assert(s[i] == t[i - 1]);
            }
        }
    }
}

proof fn lemma_trailing_are_white(s: Seq<char>)
    ensures
        trailing_white_space(s) <= s.len(),
        forall|i: int|
            s.len() - trailing_white_space(s) <= i < s.len() ==> is_white_space(#[trigger] s[i]),
    decreases s.len(),
{
    if s.len() > 0 && is_white_space(s.last()) {
        let t = s.drop_last();
        lemma_trailing_are_white(t);
        assert forall|i: int|
            s.len() - trailing_white_space(s) <= i < s.len() implies is_white_space(#[trigger] s[i]) by {
            if i < s.len() - 1 {
                assert(s[i] == t[i]);
            }
        }
    }
}

proof fn lemma_white_is_not_digit(s: Seq<char>)
    requires
        forall|i: int| 0 <= i < s.len() ==> is_white_space(#[trigger] s[i]),
    ensures
        ascii_digits(s) == Seq::<char>::empty(),
{
    assert forall|i: int| 0 <= i < s.len() implies !is_ascii_digit(#[trigger] s[i]) by {
        assert(is_white_space(s[i]));
    }
    lemma_no_digits(s);
}

/// Trimming removes white space only, so it keeps every digit, in order.
pub proof fn lemma_trimmed_keeps_digits(s: Seq<char>)
    ensures
        ascii_digits(trimmed(s)) == ascii_digits(s),
{
    let a = leading_white_space(s);
    lemma_leading_are_white(s);
    let t = s.skip(a as int);
    let b = trailing_white_space(t);
    lemma_trailing_are_white(t);
    let head = s.take(a as int);
    let mid = t.take(t.len() - b);
    let tail = t.skip(t.len() - b);
    assert(s =~= head + t);
    assert(t =~= mid + tail);
    assert forall|i: int| 0 <= i < head.len() implies is_white_space(#[trigger] head[i]) by {
        assert(head[i] == s[i]);
    }
    assert forall|i: int| 0 <= i < tail.len() implies is_white_space(#[trigger] tail[i]) by {
        assert(tail[i] == t[t.len() - b + i]);
    }
    lemma_white_is_not_digit(head);
    lemma_white_is_not_digit(tail);
    lemma_ascii_digits_concat(head, t);
    lemma_ascii_digits_concat(mid, tail);
    assert(Seq::<char>::empty() + ascii_digits(t) =~= ascii_digits(t));
    assert(ascii_digits(mid) + Seq::<char>::empty() =~= ascii_digits(mid));
}

/// `s` without its leading and trailing white space, as `str::trim` gives it.
pub open spec fn trimmed(s: Seq<char>) -> Seq<char> {
    let t = s.skip(leading_white_space(s) as int);
    t.take(t.len() - trailing_white_space(t))
}

/// `str::trim`, returning an owned string.
pub fn trim(s: &str) -> (r: String)
    ensures
        r@ == trimmed(s@),
{
    let n = s.unicode_len();
    let mut a: usize = 0;
    assert(s@.skip(0) =~= s@);
    while a < n && char_is_white_space(s.get_char(a))
        invariant
            n == s@.len(),
            a <= n,
            leading_white_space(s@) == a + leading_white_space(s@.skip(a as int)),
        decreases n - a,
    {
        assert(s@.skip(a as int).drop_first() =~= s@.skip(a + 1));
        a = a + 1;
    }
    assert(leading_white_space(s@.skip(a as int)) == 0);
    let ghost t = s@.skip(a as int);
    let mut e: usize = n;
    assert(t.take(n - a) =~= t);
    while e > a && char_is_white_space(s.get_char(e - 1))
        invariant
            n == s@.len(),
            a <= e <= n,
            t == s@.skip(a as int),
            trailing_white_space(t) == (n - e) + trailing_white_space(t.take(e - a)),
        decreases e,
    {
        assert(t.take(e - a).drop_last() =~= t.take(e - 1 - a));
        e = e - 1;
    }
    assert(trailing_white_space(t.take(e - a)) == 0);
    assert(t.take(e - a) =~= s@.subrange(a as int, e as int));
    let sub = s.substring_char(a, e);
    String::from_str(sub)
}

/// Whether `a` and `b` hold the same characters.
pub fn str_eq(a: &str, b: &str) -> (r: bool)
    ensures
        r == (a@ == b@),
{
    let n = a.unicode_len();
    let m = b.unicode_len();
    if n != m {
        return false;
    }
    let mut i: usize = 0;
    while i < n
        invariant
            n == a@.len(),
            m == b@.len(),
            n == m,
            i <= n,
            forall|k: int| 0 <= k < i ==> a@[k] == b@[k],
        decreases n - i,
    {
        if a.get_char(i) != b.get_char(i) {
            return false;
        }
        i = i + 1;
    }
    assert(a@ =~= b@);
    true
}


/// Whether `pat` occurs in `s` at index `i`.
pub open spec fn occurs_at(s: Seq<char>, pat: Seq<char>, i: int) -> bool {
    0 <= i && i + pat.len() <= s.len() && s.subrange(i, i + pat.len()) == pat
}

/// The first index at or after `i` where `pat` occurs in `s`.
pub open spec fn find_from(s: Seq<char>, pat: Seq<char>, i: int) -> Option<int>
    decreases s.len() + 1 - i,
{
    if i < 0 || i + pat.len() > s.len() {
        None
    } else if occurs_at(s, pat, i) {
        Some(i)
    } else {
        find_from(s, pat, i + 1)
    }
}

pub proof fn lemma_find_from_found(s: Seq<char>, pat: Seq<char>, i: int)
    requires
        0 <= i,
    ensures
        find_from(s, pat, i) matches Some(k) ==> i <= k && occurs_at(s, pat, k) && forall|j: int|
            i <= j < k ==> !occurs_at(s, pat, j),
        find_from(s, pat, i) is None ==> forall|j: int| i <= j ==> !occurs_at(s, pat, j),
    decreases s.len() + 1 - i,
{
    if i < 0 || i + pat.len() > s.len() {
    } else if occurs_at(s, pat, i) {
    } else {
        lemma_find_from_found(s, pat, i + 1);
    }
}

fn matches_at(s: &str, n: usize, pat: &str, m: usize, i: usize) -> (r: bool)
    requires
        n == s@.len(),
        m == pat@.len(),
        i <= n,
    ensures
        r == occurs_at(s@, pat@, i as int),
{
    if m > n - i {
        return false;
    }
    let mut k: usize = 0;
    while k < m
        invariant
            n == s@.len(),
            m == pat@.len(),
            i + m <= n,
            k <= m,
            forall|j: int| 0 <= j < k ==> s@[i + j] == pat@[j],
        decreases m - k,
    {
        if s.get_char(i + k) != pat.get_char(k) {
            assert(s@.subrange(i as int, i + m)[k as int] != pat@[k as int]);
            return false;
        }
        k = k + 1;
    }
    assert(s@.subrange(i as int, i + m) =~= pat@);
    true
}

/// The first index at or after `from` where `pat` occurs in `s`.
pub fn find(s: &str, pat: &str, from: usize) -> (r: Option<usize>)
    ensures
        match r {
            Some(k) => find_from(s@, pat@, from as int) == Some(k as int),
            None => find_from(s@, pat@, from as int) is None,
        },
{
    let n = s.unicode_len();
    let m = pat.unicode_len();
    if m > n || from > n - m {
        return None;
    }
    let mut i = from;
    loop
        invariant
            n == s@.len(),
            m == pat@.len(),
            m <= n,
            from <= i <= n - m,
            find_from(s@, pat@, from as int) == find_from(s@, pat@, i as int),
        decreases n - m - i,
    {
        if matches_at(s, n, pat, m, i) {
            return Some(i);
        }
        if i == n - m {
            assert(find_from(s@, pat@, i + 1) is None);
            return None;
        }
        i = i + 1;
    }
}

/// `s` with every non-overlapping occurrence of `pat`, taken from the left,
/// replaced by `to`: what `str::replace` gives for a non-empty pattern.
pub open spec fn replaced(s: Seq<char>, pat: Seq<char>, to: Seq<char>) -> Seq<char>
    decreases s.len(),
{
    if s.len() == 0 || pat.len() == 0 {
        s
    } else if occurs_at(s, pat, 0) {
        to + replaced(s.skip(pat.len() as int), pat, to)
    } else {
        seq![s[0]] + replaced(s.skip(1), pat, to)
    }
}

/// Replacing keeps a character out when neither the text nor the
/// replacement holds it.
pub proof fn lemma_replaced_keeps_absent(s: Seq<char>, pat: Seq<char>, to: Seq<char>, c: char)
    requires
        !s.contains(c),
        !to.contains(c),
    ensures
        !replaced(s, pat, to).contains(c),
    decreases s.len(),
{
    if s.len() == 0 || pat.len() == 0 {
    } else if occurs_at(s, pat, 0) {
        let rest = s.skip(pat.len() as int);
        assert forall|i: int| 0 <= i < rest.len() implies rest[i] != c by {
            assert(rest[i] == s[i + pat.len()]);
        }
        lemma_replaced_keeps_absent(rest, pat, to, c);
        assert(!(to + replaced(rest, pat, to)).contains(c)) by {
            let r = to + replaced(rest, pat, to);
            assert forall|i: int| 0 <= i < r.len() implies r[i] != c by {
                if i >= to.len() {
                    assert(r[i] == replaced(rest, pat, to)[i - to.len()]);
                }
            }
        }
    } else {
        let rest = s.skip(1);
        assert forall|i: int| 0 <= i < rest.len() implies rest[i] != c by {
            assert(rest[i] == s[i + 1]);
        }
        lemma_replaced_keeps_absent(rest, pat, to, c);
        let r = seq![s[0]] + replaced(rest, pat, to);
        assert forall|i: int| 0 <= i < r.len() implies r[i] != c by {
            if i >= 1 {
                assert(r[i] == replaced(rest, pat, to)[i - 1]);
            } else {
                assert(s.contains(s[0]));
            }
        }
    }
}

/// Replacing a single character by a text that does not hold it leaves no
/// occurrence of that character.
pub proof fn lemma_replaced_removes(s: Seq<char>, c: char, to: Seq<char>)
    requires
        !to.contains(c),
    ensures
        !replaced(s, seq![c], to).contains(c),
    decreases s.len(),
{
    if s.len() > 0 {
        if occurs_at(s, seq![c], 0) {
            let rest = s.skip(1);
            lemma_replaced_removes(rest, c, to);
            let r = to + replaced(rest, seq![c], to);
            assert forall|i: int| 0 <= i < r.len() implies r[i] != c by {
                if i >= to.len() {
                    assert(r[i] == replaced(rest, seq![c], to)[i - to.len()]);
                }
            }
        } else {
            assert(s.subrange(0, 1) =~= seq![s[0]]);
            let rest = s.skip(1);
            lemma_replaced_removes(rest, c, to);
            let r = seq![s[0]] + replaced(rest, seq![c], to);
            assert forall|i: int| 0 <= i < r.len() implies r[i] != c by {
                if i >= 1 {
                    assert(r[i] == replaced(rest, seq![c], to)[i - 1]);
                }
            }
        }
    }
}

/// Replacing a pattern whose first character never occurs changes nothing.
pub proof fn lemma_replaced_absent(s: Seq<char>, pat: Seq<char>, to: Seq<char>)
    requires
        pat.len() > 0,
        !s.contains(pat[0]),
    ensures
        replaced(s, pat, to) == s,
    decreases s.len(),
{
    if s.len() > 0 {
        if occurs_at(s, pat, 0) {
            assert(s.subrange(0, pat.len() as int)[0] == s[0]);
        }
        let rest = s.skip(1);
        assert forall|i: int| 0 <= i < rest.len() implies rest[i] != pat[0] by {
            assert(rest[i] == s[i + 1]);
        }
        lemma_replaced_absent(rest, pat, to);
        assert(seq![s[0]] + rest =~= s);
    }
}

/// Replacing one character by another maps each character on its own.
pub proof fn lemma_replaced_char(s: Seq<char>, c: char, d: char)
    ensures
        replaced(s, seq![c], seq![d]) == s.map_values(|x: char| if x == c { d } else { x }),
    decreases s.len(),
{
    let f = |x: char| if x == c { d } else { x };
    if s.len() > 0 {
        let rest = s.skip(1);
        lemma_replaced_char(rest, c, d);
        assert(s.subrange(0, 1) =~= seq![s[0]]);
        assert(s.map_values(f) =~= seq![f(s[0])] + rest.map_values(f));
    } else {
        assert(s.map_values(f) =~= s);
    }
}

/// Replacing a single character splits over a concatenation.
pub proof fn lemma_replaced_char_concat(a: Seq<char>, b: Seq<char>, c: char, to: Seq<char>)
    ensures
        replaced(a + b, seq![c], to) == replaced(a, seq![c], to) + replaced(b, seq![c], to),
    decreases a.len(),
{
    if a.len() == 0 {
        assert(a + b =~= b);
    } else {
        let ab = a + b;
        assert(ab.skip(1) =~= a.skip(1) + b);
        assert(ab.subrange(0, 1) =~= a.subrange(0, 1));
        lemma_replaced_char_concat(a.skip(1), b, c, to);
        if occurs_at(a, seq![c], 0) {
            assert(to + (replaced(a.skip(1), seq![c], to) + replaced(b, seq![c], to)) =~= (to
                + replaced(a.skip(1), seq![c], to)) + replaced(b, seq![c], to));
        } else {
            assert(seq![a[0]] + (replaced(a.skip(1), seq![c], to) + replaced(b, seq![c], to))
                =~= (seq![a[0]] + replaced(a.skip(1), seq![c], to)) + replaced(b, seq![c], to));
        }
    }
}

/// Replacing a pattern without digits by a text without digits keeps every
/// digit, in order.
pub proof fn lemma_replaced_keeps_digits(s: Seq<char>, pat: Seq<char>, to: Seq<char>)
    requires
        pat.len() > 0,
        forall|i: int| 0 <= i < pat.len() ==> !is_ascii_digit(#[trigger] pat[i]),
        forall|i: int| 0 <= i < to.len() ==> !is_ascii_digit(#[trigger] to[i]),
    ensures
        ascii_digits(replaced(s, pat, to)) == ascii_digits(s),
    decreases s.len(),
{
    if s.len() > 0 {
        lemma_no_digits(pat);
        lemma_no_digits(to);
        if occurs_at(s, pat, 0) {
            let rest = s.skip(pat.len() as int);
            lemma_replaced_keeps_digits(rest, pat, to);
            assert(s =~= pat + rest);
            lemma_ascii_digits_concat(pat, rest);
            lemma_ascii_digits_concat(to, replaced(rest, pat, to));
            assert(Seq::<char>::empty() + ascii_digits(rest) =~= ascii_digits(rest));
            assert(Seq::<char>::empty() + ascii_digits(replaced(rest, pat, to)) =~= ascii_digits(
                replaced(rest, pat, to),
            ));
        } else {
            let rest = s.skip(1);
            lemma_replaced_keeps_digits(rest, pat, to);
            assert(s =~= seq![s[0]] + rest);
            lemma_ascii_digits_concat(seq![s[0]], rest);
            lemma_ascii_digits_concat(seq![s[0]], replaced(rest, pat, to));
        }
    }
}

/// `str::replace` for a non-empty pattern.
pub fn replace_all(s: &str, pat: &str, to: &str) -> (r: String)
    requires
        pat@.len() > 0,
    ensures
        r@ == replaced(s@, pat@, to@),
{
    let n = s.unicode_len();
    let m = pat.unicode_len();
    let mut out = String::new();
    let mut i: usize = 0;
    assert(s@.skip(0) =~= s@);
    while i < n
        invariant
            n == s@.len(),
            m == pat@.len(),
            m > 0,
            i <= n,
            out@ + replaced(s@.skip(i as int), pat@, to@) == replaced(s@, pat@, to@),
        decreases n - i,
    {
        let ghost rest = s@.skip(i as int);
        if matches_at(s, n, pat, m, i) {
            assert(rest.subrange(0, m as int) =~= s@.subrange(i as int, i + m));
            assert(rest.skip(m as int) =~= s@.skip(i + m));
            out.append(to);
            i = i + m;
        } else {
            assert(rest.subrange(0, m as int) =~= s@.subrange(i as int, i + m) || !occurs_at(rest, pat@, 0));
            assert(rest.skip(1) =~= s@.skip(i + 1));
            let c = s.get_char(i);
            push_char(&mut out, c);
            assert(out@ + replaced(s@.skip(i + 1), pat@, to@) =~= (out@.drop_last() + replaced(rest, pat@, to@)));
            i = i + 1;
        }
    }
    assert(s@.skip(n as int) =~= Seq::<char>::empty());
    out
}


/// The strings of `list` joined with `sep` between each two, as `join` gives them.
pub open spec fn joined(list: Seq<Seq<char>>, sep: Seq<char>) -> Seq<char>
    decreases list.len(),
{
    if list.len() == 0 {
        seq![]
    } else if list.len() == 1 {
        list[0]
    } else {
        joined(list.drop_last(), sep) + sep + list.last()
    }
}

/// `[String]::join`: the strings of `list` with `sep` between each two.
pub fn join(list: &Vec<String>, sep: &str) -> (r: String)
    ensures
        r@ == joined(list@.map_values(|s: String| s@), sep@),
{
    let ghost views = list@.map_values(|s: String| s@);
    let mut r = String::new();
    let n = list.len();
    let mut i: usize = 0;
    while i < n
        invariant
            n == list@.len(),
            views == list@.map_values(|s: String| s@),
            i <= n,
            r@ == joined(views.take(i as int), sep@),
        decreases n - i,
    {
        assert(views.take(i + 1).drop_last() =~= views.take(i as int));
        if i > 0 {
            r.append(sep);
        }
        r.append(list[i].as_str());
        i = i + 1;
    }
    assert(views.take(n as int) =~= views);
    r
}

} // verus!
