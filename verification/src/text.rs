//! Text as sequences of characters: the small vocabulary in which window
//! titles, file names, key labels and command lines are described.

use vstd::prelude::*;

verus! {

/// `String::push` of the standard library: the character goes to the end.
pub assume_specification[ String::push ](s: &mut String, c: char)
    ensures
        final(s)@ == old(s)@.push(c),
;

/// Characters with the Unicode property `White_Space`.
pub open spec fn white(c: char) -> bool {
    let n = c as u32;
    ||| 0x09 <= n <= 0x0d
    ||| n == 0x20
    ||| n == 0x85
    ||| n == 0xa0
    ||| n == 0x1680
    ||| 0x2000 <= n <= 0x200a
    ||| n == 0x2028
    ||| n == 0x2029
    ||| n == 0x202f
    ||| n == 0x205f
    ||| n == 0x3000
}

/// Whether a character is white space.
pub fn is_whitespace(c: char) -> (r: bool)
    ensures
        r == white(c),
{
    let n: u32 = c as u32;
    (0x09 <= n && n <= 0x0d) || n == 0x20 || n == 0x85 || n == 0xa0 || n == 0x1680 || (0x2000 <= n
        && n <= 0x200a) || n == 0x2028 || n == 0x2029 || n == 0x202f || n == 0x205f || n == 0x3000
}

/// The characters of a string, one by one.
pub fn to_chars(s: &str) -> (r: Vec<char>)
    ensures
        r@ == s@,
{
    let mut r: Vec<char> = Vec::new();
    for c in it: s.chars()
        invariant
            it.seq() == s@,
            r@ == s@.take(it.index() as int),
    {
        r.push(c);
        assert(s@.take(it.index() + 1) =~= s@.take(it.index() as int).push(c));
    }
    assert(s@.take(s@.len() as int) =~= s@);
    r
}

/// The string made of the characters from `from` up to `to`.
pub fn from_chars(v: &Vec<char>, from: usize, to: usize) -> (r: String)
    requires
        from <= to <= v@.len(),
    ensures
        r@ == v@.subrange(from as int, to as int),
{
    let mut r: String = String::new();
    let mut i: usize = from;
    while i < to
        invariant
            from <= i <= to <= v@.len(),
            r@ == v@.subrange(from as int, i as int),
        decreases to - i,
    {
        r.push(v[i]);
        assert(v@.subrange(from as int, i + 1) =~= v@.subrange(from as int, i as int).push(
            v@[i as int],
        ));
        i = i + 1;
    }
    r
}

/// What the strings of a list hold.
pub open spec fn texts(list: Seq<String>) -> Seq<Seq<char>> {
    Seq::new(list.len(), |i: int| list[i]@)
}

/// Whether two strings hold the same characters.
pub fn same(a: &str, b: &str) -> (r: bool)
    ensures
        r == (a@ == b@),
{
    let left: String = a.to_owned();
    let right: String = b.to_owned();
    left == right
}

/// What is left of a text once the white space in front is gone.
pub open spec fn trimmed_front(s: Seq<char>) -> Seq<char>
    decreases s.len(),
{
    if s.len() > 0 && white(s.first()) {
        trimmed_front(s.drop_first())
    } else {
        s
    }
}

/// What is left of a text once the white space at the end is gone.
pub open spec fn trimmed_back(s: Seq<char>) -> Seq<char>
    decreases s.len(),
{
    if s.len() > 0 && white(s.last()) {
        trimmed_back(s.drop_last())
    } else {
        s
    }
}

/// A text without the white space around it.
pub open spec fn trimmed(s: Seq<char>) -> Seq<char> {
    trimmed_back(trimmed_front(s))
}

/// A copy of `s` without the white space around it.
pub fn trim(s: &str) -> (r: String)
    ensures
        r@ == trimmed(s@),
{
    let v: Vec<char> = to_chars(s);
    let n: usize = v.len();
    let mut from: usize = 0;
    assert(v@.subrange(0, n as int) =~= s@);
    while from < n && is_whitespace(v[from])
        invariant
            from <= n,
            n == v@.len(),
            v@ == s@,
            trimmed_front(s@) == trimmed_front(v@.subrange(from as int, n as int)),
        decreases n - from,
    {
        assert(v@.subrange(from as int, n as int).drop_first() =~= v@.subrange(
            from + 1,
            n as int,
        ));
        from = from + 1;
    }
    let mut to: usize = n;
    while to > from && is_whitespace(v[to - 1])
        invariant
            from <= to <= n,
            n == v@.len(),
            trimmed_back(trimmed_front(s@)) == trimmed_back(
                v@.subrange(from as int, to as int),
            ),
        decreases to - from,
    {
        assert(v@.subrange(from as int, to as int).drop_last() =~= v@.subrange(
            from as int,
            to - 1,
        ));
        to = to - 1;
    }
    from_chars(&v, from, to)
}

/// A character with `A` to `Z` turned into `a` to `z`.
pub open spec fn lower(c: char) -> char {
    if 'A' <= c <= 'Z' {
        (c as u8 + 32) as char
    } else {
        c
    }
}

/// A text with `A` to `Z` turned into `a` to `z`.
pub open spec fn lowered(s: Seq<char>) -> Seq<char> {
    Seq::new(s.len(), |i: int| lower(s[i]))
}

/// A copy of `s` with `A` to `Z` turned into `a` to `z`.
pub fn to_ascii_lowercase(s: &str) -> (r: String)
    ensures
        r@ == lowered(s@),
{
    let v: Vec<char> = to_chars(s);
    let mut r: String = String::new();
    let mut i: usize = 0;
    while i < v.len()
        invariant
            i <= v@.len(),
            v@ == s@,
            r@ == lowered(s@).take(i as int),
        decreases v@.len() - i,
    {
        let c: char = v[i];
        if 'A' <= c && c <= 'Z' {
            r.push((c as u8 + 32) as char);
        } else {
            r.push(c);
        }
        assert(lowered(s@).take(i + 1) =~= lowered(s@).take(i as int).push(lower(c)));
        i = i + 1;
    }
    assert(lowered(s@).take(s@.len() as int) =~= lowered(s@));
    r
}

/// Whether `p` stands in `v` from place `at` on.
fn stands_at(v: &Vec<char>, p: &Vec<char>, at: usize) -> (r: bool)
    requires
        at <= v@.len(),
    ensures
        r == (at + p@.len() <= v@.len() && v@.subrange(at as int, at + p@.len()) == p@),
{
    let n: usize = v.len();
    if n - at < p.len() {
        return false;
    }
    let mut i: usize = 0;
    while i < p.len()
        invariant
            i <= p@.len(),
            n == v@.len(),
            at + p@.len() <= n,
            forall|j: int| 0 <= j < i ==> v@[at + j] == p@[j],
        decreases p@.len() - i,
    {
        if v[at + i] != p[i] {
            proof {
                assert(v@.subrange(at as int, at + p@.len())[i as int] == v@[at + i]);
            }
            return false;
        }
        i = i + 1;
    }
    assert(v@.subrange(at as int, at + p@.len()) =~= p@);
    true
}

/// Whether `s` begins with `p`.
pub fn starts_with(s: &str, p: &str) -> (r: bool)
    ensures
        r == p@.is_prefix_of(s@),
{
    stands_at(&to_chars(s), &to_chars(p), 0)
}

/// Whether `s` ends with `p`.
pub fn ends_with(s: &str, p: &str) -> (r: bool)
    ensures
        r == p@.is_suffix_of(s@),
{
    let v: Vec<char> = to_chars(s);
    let q: Vec<char> = to_chars(p);
    if q.len() > v.len() {
        return false;
    }
    let at: usize = v.len() - q.len();
    stands_at(&v, &q, at)
}

/// `p` stands somewhere in `s`.
pub open spec fn occurs(s: Seq<char>, p: Seq<char>) -> bool {
    exists|i: int|
        0 <= i <= s.len() - p.len() && #[trigger] s.subrange(i, i + p.len()) == p
}

/// Whether `p` stands somewhere in `s`.
pub fn contains(s: &str, p: &str) -> (r: bool)
    ensures
        r == occurs(s@, p@),
{
    let v: Vec<char> = to_chars(s);
    let q: Vec<char> = to_chars(p);
    if q.len() > v.len() {
        return false;
    }
    let last: usize = v.len() - q.len();
    let mut i: usize = 0;
    loop
        invariant
            i <= last,
            last == v@.len() - q@.len(),
            v@ == s@,
            q@ == p@,
            forall|j: int| 0 <= j < i ==> #[trigger] s@.subrange(j, j + p@.len()) != p@,
        decreases last - i,
    {
        if stands_at(&v, &q, i) {
            assert(s@.subrange(i as int, i + p@.len()) == p@);
            return true;
        }
        if i == last {
            return false;
        }
        i = i + 1;
    }
}

/// The characters of `s` after the first `n`.
pub fn skip(s: &str, n: usize) -> (r: String)
    requires
        n <= s@.len(),
    ensures
        r@ == s@.skip(n as int),
{
    let v: Vec<char> = to_chars(s);
    let len: usize = v.len();
    from_chars(&v, n, len)
}

/// The character for a digit below ten.
pub open spec fn digit(d: nat) -> char {
    (48 + d) as u8 as char
}

/// A number written in base ten, without leading zeros.
pub open spec fn decimal(n: nat) -> Seq<char>
    decreases n,
{
    if n < 10 {
        seq![digit(n)]
    } else {
        decimal(n / 10).push(digit(n % 10))
    }
}

/// Appends a number in base ten.
pub fn push_decimal(out: &mut String, n: usize)
    ensures
        final(out)@ == old(out)@ + decimal(n as nat),
    decreases n,
{
    if n >= 10 {
        push_decimal(out, n / 10);
    }
    let d: u8 = (n % 10) as u8;
    out.push((48 + d) as char);
    assert(out@ =~= old(out)@ + decimal(n as nat));
}

/// The character for a base-sixteen digit, with capital letters.
pub open spec fn hex_digit(d: nat) -> char {
    if d < 10 {
        digit(d)
    } else {
        (55 + d) as u8 as char
    }
}

/// A number written in base sixteen with capital letters and at least two
/// digits.
pub open spec fn hex2(n: nat) -> Seq<char>
    decreases n,
{
    if n < 256 {
        seq![hex_digit(n / 16), hex_digit(n % 16)]
    } else {
        hex2(n / 16).push(hex_digit(n % 16))
    }
}

fn hex_char(d: u8) -> (r: char)
    requires
        d < 16,
    ensures
        r == hex_digit(d as nat),
{
    if d < 10 {
        (48 + d) as char
    } else {
        (55 + d) as char
    }
}

/// Appends a number in base sixteen with at least two digits.
pub fn push_hex2(out: &mut String, n: u16)
    ensures
        final(out)@ == old(out)@ + hex2(n as nat),
    decreases n,
{
    if n < 256 {
        out.push(hex_char((n / 16) as u8));
    } else {
        push_hex2(out, n / 16);
    }
    out.push(hex_char((n % 16) as u8));
    assert(out@ =~= old(out)@ + hex2(n as nat));
}

/// `c` is one of `0` to `9`.
pub open spec fn is_digit(c: char) -> bool {
    '0' <= c <= '9'
}

/// The number that a sequence of digits writes in base ten.
pub open spec fn digits_value(s: Seq<char>) -> nat
    decreases s.len(),
{
    if s.len() == 0 {
        0
    } else {
        digits_value(s.drop_last()) * 10 + (s.last() as nat - 48) as nat
    }
}

/// `s` without one plus sign in front.
pub open spec fn unsigned_part(s: Seq<char>) -> Seq<char> {
    if s.len() > 0 && s[0] == '+' {
        s.skip(1)
    } else {
        s
    }
}

/// The number that `s` writes: an optional plus sign, then digits and nothing
/// else, of a value that a machine word holds.
pub open spec fn number(s: Seq<char>) -> Option<usize> {
    let d = unsigned_part(s);
    if d.len() > 0 && (forall|i: int| 0 <= i < d.len() ==> is_digit(#[trigger] d[i]))
        && digits_value(d) <= usize::MAX {
        Some(digits_value(d) as usize)
    } else {
        None
    }
}

proof fn lemma_value_grows(s: Seq<char>, n: int)
    requires
        0 <= n <= s.len(),
    ensures
        digits_value(s.take(n)) <= digits_value(s),
    decreases s.len() - n,
{
    if n < s.len() {
        lemma_value_grows(s, n + 1);
        assert(s.take(n + 1).drop_last() =~= s.take(n));
    } else {
        assert(s.take(n) =~= s);
    }
}

/// Reads a number; `None` for anything else.
pub fn parse_number(s: &str) -> (r: Option<usize>)
    ensures
        r == number(s@),
{
    let v: Vec<char> = to_chars(s);
    let from: usize = if v.len() > 0 && v[0] == '+' {
        1
    } else {
        0
    };
    let ghost d = unsigned_part(s@);
    assert(d =~= v@.skip(from as int));
    if from == v.len() {
        return None;
    }
    let mut i: usize = from;
    let mut value: usize = 0;
    assert(d.take(0) =~= Seq::<char>::empty());
    while i < v.len()
        invariant
            from <= i <= v@.len(),
            d == v@.skip(from as int),
            d == unsigned_part(s@),
            value == digits_value(d.take(i - from)),
            forall|j: int| 0 <= j < i - from ==> is_digit(#[trigger] d[j]),
        decreases v@.len() - i,
    {
        let c: char = v[i];
        assert(d[i - from] == c);
        if c < '0' || '9' < c {
            return None;
        }
        let digit: usize = (c as u8 - 48) as usize;
        proof {
            assert(d.take(i + 1 - from).drop_last() =~= d.take(i - from));
            lemma_value_grows(d, i + 1 - from);
        }
        let shifted: Option<usize> = value.checked_mul(10);
        match shifted {
            None => {
                return None;
            },
            Some(tens) => {
                match tens.checked_add(digit) {
                    None => {
                        return None;
                    },
                    Some(sum) => {
                        value = sum;
                    },
                }
            },
        }
        i = i + 1;
    }
    assert(d.take(d.len() as int) =~= d);
    Some(value)
}

/// Every number that is written in base ten reads back as itself.
pub proof fn law_number_reads_back(n: usize)
    ensures
        number(decimal(n as nat)) == Some(n),
{
    lemma_decimal_digits(n as nat);
}

pub(crate) proof fn lemma_decimal_digits(n: nat)
    ensures
        decimal(n).len() > 0,
        forall|i: int| 0 <= i < decimal(n).len() ==> is_digit(#[trigger] decimal(n)[i]),
        digits_value(decimal(n)) == n,
        unsigned_part(decimal(n)) == decimal(n),
    decreases n,
{
    reveal_with_fuel(digits_value, 2);
    if n >= 10 {
        lemma_decimal_digits(n / 10);
        assert(decimal(n).drop_last() =~= decimal(n / 10));
    } else {
        assert(decimal(n).drop_last() =~= Seq::<char>::empty());
    }
    assert(is_digit(decimal(n)[0]));
}

/// The number that a sequence of digits writes in base sixteen, with capital
/// letters.
pub open spec fn hex_value(s: Seq<char>) -> nat
    decreases s.len(),
{
    if s.len() == 0 {
        0
    } else {
        let c = s.last() as int;
        let d = if c <= 57 {
            c - 48
        } else {
            c - 55
        };
        hex_value(s.drop_last()) * 16 + d as nat
    }
}

/// Every number that is written in base sixteen reads back as itself, and is
/// written with at least two digits.
pub proof fn law_hex_reads_back(n: nat)
    ensures
        hex_value(hex2(n)) == n,
        hex2(n).len() >= 2,
    decreases n,
{
    reveal_with_fuel(hex_value, 3);
    if n < 256 {
        let s = hex2(n);
        assert(s.drop_last() =~= seq![hex_digit(n / 16)]);
        assert(s.drop_last().drop_last() =~= Seq::<char>::empty());
        assert(n / 16 < 16);
    } else {
        law_hex_reads_back(n / 16);
        assert(hex2(n).drop_last() =~= hex2(n / 16));
    }
}

proof fn lemma_lower_keeps_white(c: char)
    ensures
        white(lower(c)) == white(c),
        lower(lower(c)) == lower(c),
{
}

proof fn lemma_front_of_lowered(s: Seq<char>)
    ensures
        trimmed_front(lowered(s)) == lowered(trimmed_front(s)),
    decreases s.len(),
{
    if s.len() > 0 {
        lemma_lower_keeps_white(s.first());
        lemma_front_of_lowered(s.drop_first());
        assert(lowered(s).drop_first() =~= lowered(s.drop_first()));
    }
}

proof fn lemma_back_of_lowered(s: Seq<char>)
    ensures
        trimmed_back(lowered(s)) == lowered(trimmed_back(s)),
    decreases s.len(),
{
    if s.len() > 0 {
        lemma_lower_keeps_white(s.last());
        lemma_back_of_lowered(s.drop_last());
        assert(lowered(s).drop_last() =~= lowered(s.drop_last()));
    }
}

/// White space is the same in small letters, so the two steps can change
/// places.
pub proof fn law_trimming_and_lowering_commute(s: Seq<char>)
    ensures
        trimmed(lowered(s)) == lowered(trimmed(s)),
        lowered(lowered(s)) == lowered(s),
{
    lemma_front_of_lowered(s);
    lemma_back_of_lowered(trimmed_front(s));
    assert forall|i: int| 0 <= i < s.len() implies lowered(lowered(s))[i] == lowered(s)[i] by {
        lemma_lower_keeps_white(s[i]);
    }
    assert(lowered(lowered(s)) =~= lowered(s));
}

proof fn lemma_front_is_bare(s: Seq<char>)
    ensures
        trimmed_front(s).len() > 0 ==> !white(trimmed_front(s).first()),
    decreases s.len(),
{
    if s.len() > 0 && white(s.first()) {
        lemma_front_is_bare(s.drop_first());
    }
}

proof fn lemma_back_is_bare(s: Seq<char>)
    ensures
        trimmed_back(s).len() > 0 ==> !white(trimmed_back(s).last()),
        trimmed_back(s).is_prefix_of(s),
    decreases s.len(),
{
    if s.len() > 0 && white(s.last()) {
        lemma_back_is_bare(s.drop_last());
        let t = trimmed_back(s);
        assert(s.subrange(0, t.len() as int) =~= s.drop_last().subrange(0, t.len() as int));
    } else {
        assert(s.subrange(0, s.len() as int) =~= s);
    }
}

/// A trimmed text has no white space at either end, and trimming it again
/// changes nothing.
pub proof fn law_trimmed_is_bare(s: Seq<char>)
    ensures
        trimmed(s).len() > 0 ==> !white(trimmed(s).first()) && !white(trimmed(s).last()),
        trimmed(trimmed(s)) == trimmed(s),
{
    lemma_front_is_bare(s);
    lemma_back_is_bare(trimmed_front(s));
    let t = trimmed(s);
    if t.len() > 0 {
        assert(t[0] == trimmed_front(s).subrange(0, t.len() as int)[0]);
    }
}

/// A text is trimmed by taking white space away from its ends, all of it and
/// nothing else.
pub proof fn law_trimming_takes_white_space_from_the_ends(s: Seq<char>)
    ensures
        exists|i: int, j: int|
            #![trigger s.subrange(i, j)]
            0 <= i <= j <= s.len() && trimmed(s) == s.subrange(i, j) && (forall|k: int|
                0 <= k < i || j <= k < s.len() ==> white(#[trigger] s[k])),
        trimmed(s).len() > 0 ==> !white(trimmed(s).first()) && !white(trimmed(s).last()),
{
    lemma_trimmed_front(s);
    let front = trimmed_front(s);
    let i = s.len() - front.len();
    lemma_trimmed_back(front);
    let j = i + trimmed_back(front).len();
    assert(trimmed(s) =~= s.subrange(i, j));
    assert forall|k: int| 0 <= k < i || j <= k < s.len() implies white(#[trigger] s[k]) by {
        if k >= j {
            assert(front[k - i] == s[k]);
        }
    }
    law_trimmed_is_bare(s);
    if trimmed(s).len() > 0 {
        assert(trimmed(s).first() == front.first());
    }
}

proof fn lemma_trimmed_front(s: Seq<char>)
    ensures
        trimmed_front(s).len() <= s.len(),
        trimmed_front(s) == s.skip(s.len() - trimmed_front(s).len()),
        forall|k: int| 0 <= k < s.len() - trimmed_front(s).len() ==> white(#[trigger] s[k]),
        trimmed_front(s).len() > 0 ==> !white(trimmed_front(s).first()),
    decreases s.len(),
{
    if s.len() > 0 && white(s.first()) {
        let rest = s.drop_first();
        lemma_trimmed_front(rest);
        assert(s.skip(s.len() - trimmed_front(s).len()) =~= rest.skip(
            rest.len() - trimmed_front(rest).len(),
        ));
        assert forall|k: int| 0 <= k < s.len() - trimmed_front(s).len() implies white(
            #[trigger] s[k],
        ) by {
            if k > 0 {
                assert(rest[k - 1] == s[k]);
            }
        }
    } else {
        assert(s.skip(0) =~= s);
    }
}

proof fn lemma_trimmed_back(s: Seq<char>)
    ensures
        trimmed_back(s).len() <= s.len(),
        trimmed_back(s) == s.take(trimmed_back(s).len() as int),
        forall|k: int| trimmed_back(s).len() <= k < s.len() ==> white(#[trigger] s[k]),
        trimmed_back(s).len() > 0 ==> !white(trimmed_back(s).last()),
    decreases s.len(),
{
    if s.len() > 0 && white(s.last()) {
        let rest = s.drop_last();
        lemma_trimmed_back(rest);
        assert(s.take(trimmed_back(s).len() as int) =~= rest.take(
            trimmed_back(rest).len() as int,
        ));
        assert forall|k: int| trimmed_back(s).len() <= k < s.len() implies white(
            #[trigger] s[k],
        ) by {
            if k < rest.len() {
                assert(rest[k] == s[k]);
            }
        }
    } else {
        assert(s.take(s.len() as int) =~= s);
    }
}

/// Which characters are white space.
pub proof fn law_white_space(c: char)
    ensures
        white(c) == (c == ' ' || c == '\t' || c == '\n' || c == '\u{B}' || c == '\u{C}' || c
            == '\r' || c == '\u{85}' || c == '\u{A0}' || c == '\u{1680}' || ('\u{2000}' <= c
            <= '\u{200A}') || c == '\u{2028}' || c == '\u{2029}' || c == '\u{202F}' || c
            == '\u{205F}' || c == '\u{3000}'),
{
}

/// Small letters stand where capital letters stood, and every other character
/// stays where it is.
pub proof fn law_only_capital_letters_are_lowered(s: Seq<char>, i: int)
    requires
        0 <= i < s.len(),
    ensures
        lowered(s).len() == s.len(),
        'A' <= s[i] <= 'Z' ==> lowered(s)[i] as int == s[i] as int + 32,
        !('A' <= s[i] <= 'Z') ==> lowered(s)[i] == s[i],
{
}

/// A text holds another exactly when it can be cut into something, the other
/// text, and something.
pub proof fn law_texts_are_found_wherever_they_stand(
    s: Seq<char>,
    p: Seq<char>,
    front: Seq<char>,
    back: Seq<char>,
)
    ensures
        occurs(front + p + back, p),
        occurs(s, p) ==> exists|a: Seq<char>, b: Seq<char>| s == #[trigger] (a + p + b),
{
    let whole = front + p + back;
    let i = front.len() as int;
    assert(whole.subrange(i, i + p.len()) =~= p);
    if occurs(s, p) {
        let j = choose|j: int|
            0 <= j <= s.len() - p.len() && #[trigger] s.subrange(j, j + p.len()) == p;
        assert(s =~= s.take(j) + p + s.skip(j + p.len()));
    }
}

/// Numbers are written in base ten, the last digit last.
pub proof fn law_numbers_are_written_in_base_ten(n: nat, d: nat)
    requires
        d < 10,
    ensures
        decimal(d).len() == 1,
        decimal(d)[0] as int == 48 + d,
        n > 0 ==> decimal(10 * n + d) == decimal(n) + decimal(d),
{
    if n > 0 {
        assert((10 * n + d) / 10 == n);
        assert((10 * n + d) % 10 == d);
        assert(decimal(10 * n + d) =~= decimal(n) + decimal(d));
    }
}

/// Numbers are read in base ten: nothing but digits, of which there is at least
/// one, with a plus sign in front or not.
pub proof fn law_numbers_are_read_in_base_ten(s: Seq<char>, n: usize, d: nat, i: int)
    requires
        d < 10,
    ensures
        number(Seq::empty()) is None,
        number(seq!['+']) is None,
        number(seq![(48 + d) as char]) == Some(d as usize),
        number(s) == Some(n) ==> number(s.push((48 + d) as char)) == if 10 * n + d
            <= usize::MAX {
            Some((10 * n + d) as usize)
        } else {
            None
        },
        s.len() > 0 && s[0] != '+' ==> number(seq!['+'] + s) == number(s),
        0 <= i < s.len() && !('0' <= s[i] <= '9') && !(i == 0 && s[i] == '+') ==> number(s) is None,
        s.len() > 1 && s[0] == '+' && s[1] == '+' ==> number(s) is None,
{
    reveal_with_fuel(digits_value, 2);
    let c = (48 + d) as char;
    assert(unsigned_part(Seq::<char>::empty()) =~= Seq::empty());
    assert(unsigned_part(seq!['+']) =~= Seq::empty());
    assert(unsigned_part(seq![c]) =~= seq![c]);
    assert(seq![c].drop_last() =~= Seq::empty());
    if number(s) == Some(n) {
        let digits = unsigned_part(s);
        let longer = s.push(c);
        assert(unsigned_part(longer) =~= digits.push(c));
        assert(digits.push(c).drop_last() =~= digits);
        assert forall|k: int| 0 <= k < digits.push(c).len() implies is_digit(
            #[trigger] digits.push(c)[k],
        ) by {
            if k < digits.len() {
                assert(is_digit(digits[k]));
            }
        }
        assert(digits_value(digits.push(c)) == 10 * n + d);
    }
    if s.len() > 0 && s[0] != '+' {
        assert((seq!['+'] + s).skip(1) =~= s);
        assert((seq!['+'] + s)[0] == '+');
    }
    if 0 <= i < s.len() && !('0' <= s[i] <= '9') && !(i == 0 && s[i] == '+') {
        let digits = unsigned_part(s);
        if s[0] == '+' {
            assert(digits[i - 1] == s[i]);
        } else {
            assert(digits[i] == s[i]);
        }
    }
    if s.len() > 1 && s[0] == '+' && s[1] == '+' {
        assert(unsigned_part(s)[0] == '+');
    }
}

/// Numbers are written in base sixteen, the last digit last, and at least two
/// digits long.
pub proof fn law_numbers_are_written_in_base_sixteen(n: nat, d: nat)
    requires
        d < 16,
    ensures
        hex2(d).len() == 2,
        hex2(d)[0] == '0',
        d < 10 ==> hex2(d)[1] as int == 48 + d,
        d >= 10 ==> hex2(d)[1] as int == 55 + d,
        n < 16 ==> hex2(16 * n + d) == seq![hex2(n)[1], hex2(d)[1]],
        n >= 16 ==> hex2(16 * n + d) == hex2(n).push(hex2(d)[1]),
{
    assert((16 * n + d) / 16 == n);
    assert((16 * n + d) % 16 == d);
}

/// What a list of strings says, one by one.
pub proof fn law_texts_are_those_of_the_list(list: Seq<String>, i: int)
    requires
        0 <= i < list.len(),
    ensures
        texts(list).len() == list.len(),
        texts(list)[i] == list[i]@,
{
}

/// More digits do not make a number of a text that is none: neither of one that
/// is too large nor of one with other characters in it.
pub proof fn law_more_digits_do_not_help(s: Seq<char>, d: nat)
    requires
        s.len() > 1,
        number(s) is None,
        d < 10,
    ensures
        number(s.push((48 + d) as char)) is None,
{
    let c = (48 + d) as char;
    let digits = unsigned_part(s);
    let longer = unsigned_part(s.push(c));
    assert(longer =~= digits.push(c));
    assert(longer.drop_last() =~= digits);
    if forall|k: int| 0 <= k < digits.len() ==> is_digit(#[trigger] digits[k]) {
        assert(digits_value(longer) == digits_value(digits) * 10 + d);
    } else {
        let k = choose|k: int| 0 <= k < digits.len() && !is_digit(#[trigger] digits[k]);
        assert(longer[k] == digits[k]);
    }
}

} // verus!
