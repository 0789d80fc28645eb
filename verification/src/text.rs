//! Text as sequences of characters: comparing, searching, splitting, and
//! decimal numbers.

use vstd::prelude::*;

verus! {

/// The characters of `s`, in order.
pub fn chars_of(s: &str) -> (out: Vec<char>)
    ensures
        out@ == s@,
{
    let mut out: Vec<char> = Vec::new();
    for c in it: s.chars()
        invariant
            it.seq() == s@,
            out@ == it.seq().take(it.index() as int),
    {
        out.push(c);
    }
    out
}

/// `std::string::String::push`: the string grows by the one character at
/// its end.
#[verifier::external_body]
fn push_char(s: &mut String, c: char)
    ensures
        final(s)@ == old(s)@.push(c),
{
    s.push(c)
}

/// The string made of `chars`, in order.
pub fn string_of(chars: &Vec<char>) -> (out: String)
    ensures
        out@ == chars@,
{
    let mut out = String::new();
    let mut i: usize = 0;
    while i < chars.len()
        invariant
            i <= chars.len(),
            out@ == chars@.take(i as int),
        decreases chars.len() - i,
    {
        push_char(&mut out, chars[i]);
        assert(chars@.take(i as int).push(chars@[i as int]) =~= chars@.take(i + 1));
        i += 1;
    }
    assert(chars@.take(chars.len() as int) =~= chars@);
    out
}

/// Whether `a` and `b` hold the same characters.
pub fn same_chars(a: &Vec<char>, b: &Vec<char>) -> (r: bool)
    ensures
        r == (a@ == b@),
{
    if a.len() != b.len() {
        return false;
    }
    let mut i: usize = 0;
    while i < a.len()
        invariant
            i <= a.len(),
            a.len() == b.len(),
            forall|j: int| 0 <= j < i ==> a@[j] == b@[j],
        decreases a.len() - i,
    {
        if a[i] != b[i] {
            return false;
        }
        i += 1;
    }
    assert(a@ =~= b@);
    true
}

/// Whether `a` and `b` are the same text.
pub fn same_text(a: &str, b: &str) -> (r: bool)
    ensures
        r == (a@ == b@),
{
    let x = chars_of(a);
    let y = chars_of(b);
    same_chars(&x, &y)
}

/// Whether `part` stands in `whole` at position `at`.
pub open spec fn occurs_at(whole: Seq<char>, part: Seq<char>, at: int) -> bool {
    &&& 0 <= at
    &&& at + part.len() <= whole.len()
    &&& whole.subrange(at, at + part.len()) == part
}

/// Whether `part` stands somewhere in `whole`.
pub open spec fn occurs_in(whole: Seq<char>, part: Seq<char>) -> bool {
    exists|at: int| occurs_at(whole, part, at)
}

/// Whether `part` stands in `whole` at position `at`.
pub fn found_at(whole: &Vec<char>, part: &Vec<char>, at: usize) -> (r: bool)
    ensures
        r == occurs_at(whole@, part@, at as int),
{
    if part.len() > whole.len() || at > whole.len() - part.len() {
        return false;
    }
    let mut i: usize = 0;
    while i < part.len()
        invariant
            i <= part.len(),
            at + part.len() <= whole.len(),
            forall|j: int| 0 <= j < i ==> whole@[at + j] == part@[j],
        decreases part.len() - i,
    {
        if whole[at + i] != part[i] {
            assert(whole@.subrange(at as int, at + part.len())[i as int] != part@[i as int]);
            return false;
        }
        i += 1;
    }
    assert(whole@.subrange(at as int, at + part.len()) =~= part@);
    true
}

/// Whether `whole` begins with `part`.
pub fn begins_with(whole: &Vec<char>, part: &Vec<char>) -> (r: bool)
    ensures
        r == occurs_at(whole@, part@, 0),
{
    found_at(whole, part, 0)
}

/// Whether `part` stands somewhere in `whole`.
pub fn found_in(whole: &Vec<char>, part: &Vec<char>) -> (r: bool)
    ensures
        r == occurs_in(whole@, part@),
{
    if part.len() > whole.len() {
        assert forall|at: int| !occurs_at(whole@, part@, at) by {}
        return false;
    }
    let last = whole.len() - part.len();
    let mut at: usize = 0;
    loop
        invariant
            at <= last,
            last == whole.len() - part.len(),
            forall|k: int| 0 <= k < at ==> !occurs_at(whole@, part@, k),
        decreases last - at,
    {
        if found_at(whole, part, at) {
            return true;
        }
        if at == last {
            assert forall|k: int| !occurs_at(whole@, part@, k) by {}
            return false;
        }
        at += 1;
    }
}

/// Whether the text `part` stands somewhere in the text `whole`.
pub fn contains(whole: &str, part: &str) -> (r: bool)
    ensures
        r == occurs_in(whole@, part@),
{
    let w = chars_of(whole);
    let p = chars_of(part);
    found_in(&w, &p)
}

/// The characters of `s` from `from` up to `to`.
pub fn slice_of(s: &Vec<char>, from: usize, to: usize) -> (out: Vec<char>)
    requires
        from <= to <= s.len(),
    ensures
        out@ == s@.subrange(from as int, to as int),
{
    let mut out: Vec<char> = Vec::new();
    let mut i = from;
    while i < to
        invariant
            from <= i <= to <= s.len(),
            out@ == s@.subrange(from as int, i as int),
        decreases to - i,
    {
        out.push(s[i]);
        assert(s@.subrange(from as int, i as int).push(s@[i as int]) =~= s@.subrange(
            from as int,
            i + 1,
        ));
        i += 1;
    }
    out
}

/// The first position at or after `from` where `c` stands in `s`; the
/// length of `s` where it stands nowhere.
pub open spec fn position_of(s: Seq<char>, c: char, from: int) -> int
    decreases s.len() - from,
{
    if from < 0 || from >= s.len() {
        s.len() as int
    } else if s[from] == c {
        from
    } else {
        position_of(s, c, from + 1)
    }
}

/// `position_of` finds `c`, or the end, and passes over nothing that is `c`.
pub proof fn lemma_position_of(s: Seq<char>, c: char, from: int)
    requires
        0 <= from <= s.len(),
    ensures
        from <= position_of(s, c, from) <= s.len(),
        position_of(s, c, from) < s.len() ==> s[position_of(s, c, from)] == c,
        forall|j: int| from <= j < position_of(s, c, from) ==> s[j] != c,
    decreases s.len() - from,
{
    if from < s.len() && s[from] != c {
        lemma_position_of(s, c, from + 1);
    }
}

/// The first position at or after `from` where `c` stands in `s`; the
/// length of `s` where it stands nowhere.
pub fn find_char(s: &Vec<char>, c: char, from: usize) -> (at: usize)
    requires
        from <= s.len(),
    ensures
        at == position_of(s@, c, from as int),
        from <= at <= s.len(),
{
    let mut i = from;
    while i < s.len()
        invariant
            from <= i <= s.len(),
            position_of(s@, c, from as int) == position_of(s@, c, i as int),
        decreases s.len() - i,
    {
        if s[i] == c {
            return i;
        }
        i += 1;
    }
    i
}

/// Whether `c` is one of the ten digits.
pub open spec fn is_digit(c: char) -> bool {
    '0' <= c && c <= '9'
}

/// The number that the digit `c` stands for.
pub open spec fn digit_value(c: char) -> nat {
    (c as u32 - '0' as u32) as nat
}

/// The digit that stands for `d`, a number below ten.
pub open spec fn digit_char(d: nat) -> char {
    (d + '0' as u32) as char
}

/// Whether `s` holds digits only.
pub open spec fn all_digits(s: Seq<char>) -> bool {
    forall|i: int| 0 <= i < s.len() ==> is_digit(#[trigger] s[i])
}

/// The number that the digits `s` spell in base ten; zero for no digits.
pub open spec fn digits_value(s: Seq<char>) -> nat
    decreases s.len(),
{
    if s.len() == 0 {
        0
    } else {
        digits_value(s.drop_last()) * 10 + digit_value(s.last())
    }
}

/// The number that `s` spells: an optional `+`, then one digit or more, of
/// a value that is at most `max`. Nothing else spells a number.
pub open spec fn number_of(s: Seq<char>, max: nat) -> Option<nat> {
    let digits = if s.len() > 0 && s[0] == '+' {
        s.drop_first()
    } else {
        s
    };
    if digits.len() > 0 && all_digits(digits) && digits_value(digits) <= max {
        Some(digits_value(digits))
    } else {
        None
    }
}

/// More digits in front never make the number smaller.
proof fn lemma_digits_grow(s: Seq<char>, n: int)
    requires
        0 <= n <= s.len(),
    ensures
        digits_value(s.take(n)) <= digits_value(s),
    decreases s.len() - n,
{
    if n < s.len() {
        lemma_digits_grow(s, n + 1);
        assert(s.take(n + 1).drop_last() =~= s.take(n));
    } else {
        assert(s.take(n) =~= s);
    }
}

/// The number that `s` spells, where it is a `u64`.
pub fn parse_u64(s: &Vec<char>) -> (r: Option<u64>)
    ensures
        r is Some <==> number_of(s@, u64::MAX as nat) is Some,
        r matches Some(n) ==> number_of(s@, u64::MAX as nat) == Some(n as nat),
{
    let start: usize = if s.len() > 0 && s[0] == '+' {
        1
    } else {
        0
    };
    let ghost digits = s@.subrange(start as int, s.len() as int);
    proof {
        if start == 1 {
            assert(digits =~= s@.drop_first());
        } else {
            assert(digits =~= s@);
        }
    }
    if start == s.len() {
        return None;
    }
    let mut value: u64 = 0;
    let mut i: usize = start;
    while i < s.len()
        invariant
            start <= i <= s.len(),
            digits == s@.subrange(start as int, s.len() as int),
            digits == (if s@.len() > 0 && s@[0] == '+' {
                s@.drop_first()
            } else {
                s@
            }),
            all_digits(digits.take(i - start)),
            value == digits_value(digits.take(i - start)),
        decreases s.len() - i,
    {
        let c = s[i];
        let ghost next = digits.take(i - start + 1);
        proof {
            assert(next.drop_last() =~= digits.take(i - start));
            assert(next.last() == c);
        }
        if !(c >= '0' && c <= '9') {
            assert(!is_digit(digits[i - start]));
            return None;
        }
        let d: u64 = (c as u32 - '0' as u32) as u64;
        proof {
            lemma_digits_grow(digits, i - start + 1);
        }
        assert(digits_value(next) == value * 10 + d);
        if value > (u64::MAX - d) / 10 {
            return None;
        }
        value = value * 10 + d;
        assert forall|j: int| 0 <= j < next.len() implies is_digit(#[trigger] next[j]) by {
            if j < i - start {
                assert(next[j] == digits.take(i - start)[j]);
            }
        }
        i += 1;
    }
    assert(digits.take(s.len() - start) =~= digits);
    Some(value)
}

/// The number that `s` spells, where it is a `u32`.
pub fn parse_u32(s: &Vec<char>) -> (r: Option<u32>)
    ensures
        r is Some <==> number_of(s@, u32::MAX as nat) is Some,
        r matches Some(n) ==> number_of(s@, u32::MAX as nat) == Some(n as nat),
{
    match parse_u64(s) {
        Some(n) => {
            if n <= 0xffff_ffff {
                Some(n as u32)
            } else {
                None
            }
        },
        None => {
            proof {
                let digits = if s@.len() > 0 && s@[0] == '+' {
                    s@.drop_first()
                } else {
                    s@
                };
                if digits.len() > 0 && all_digits(digits) {
                    assert(digits_value(digits) > u64::MAX);
                }
            }
            None
        },
    }
}

/// The digits of `n` in base ten, without leading zeros.
pub open spec fn decimal(n: nat) -> Seq<char>
    decreases n,
{
    if n < 10 {
        seq![digit_char(n)]
    } else {
        decimal(n / 10).push(digit_char(n % 10))
    }
}

/// `s` with as many `fill` in front as bring it to `width` characters.
pub open spec fn padded(s: Seq<char>, width: nat, fill: char) -> Seq<char> {
    if s.len() >= width {
        s
    } else {
        Seq::new((width - s.len()) as nat, |i: int| fill) + s
    }
}

/// The digits of `n` in base ten, without leading zeros.
pub fn decimal_of(n: u64) -> (out: Vec<char>)
    ensures
        out@ == decimal(n as nat),
{
    // The digits come out last first.
    let mut reversed: Vec<char> = Vec::new();
    let mut rest = n;
    while rest >= 10
        invariant
            decimal(n as nat) == decimal(rest as nat) + reversed@.reverse(),
        decreases rest,
    {
        let d = (rest % 10) as u8;
        let c = (d + 48u8) as char;
        assert(c == digit_char((rest % 10) as nat));
        reversed.push(c);
        proof {
            let before = reversed@.drop_last();
            assert(reversed@.reverse() =~= seq![c] + before.reverse());
            assert(decimal(rest as nat) == decimal((rest / 10) as nat).push(c));
            assert(decimal((rest / 10) as nat).push(c) + before.reverse() =~= decimal(
                (rest / 10) as nat,
            ) + (seq![c] + before.reverse()));
        }
        rest = rest / 10;
    }
    let c = (rest as u8 + 48u8) as char;
    assert(c == digit_char(rest as nat));
    reversed.push(c);
    proof {
        let before = reversed@.drop_last();
        assert(reversed@.reverse() =~= seq![c] + before.reverse());
        assert(decimal(rest as nat) =~= seq![c]);
    }
    // Now `reversed`, read backwards, is the whole number.
    let mut out: Vec<char> = Vec::new();
    let mut i: usize = reversed.len();
    while i > 0
        invariant
            i <= reversed.len(),
            out@ == reversed@.reverse().take(reversed.len() - i),
        decreases i,
    {
        i -= 1;
        out.push(reversed[i]);
        assert(reversed@.reverse().take(reversed.len() - i - 1).push(reversed@[i as int])
            =~= reversed@.reverse().take(reversed.len() - i));
    }
    assert(reversed@.reverse().take(reversed.len() as int) =~= reversed@.reverse());
    out
}

/// `s` with as many `fill` in front as bring it to `width` characters.
pub fn pad_left(s: &Vec<char>, width: usize, fill: char) -> (out: Vec<char>)
    ensures
        out@ == padded(s@, width as nat, fill),
{
    let mut out: Vec<char> = Vec::new();
    if s.len() < width {
        let missing = width - s.len();
        let mut i: usize = 0;
        while i < missing
            invariant
                i <= missing,
                out@ == Seq::new(i as nat, |k: int| fill),
            decreases missing - i,
        {
            out.push(fill);
            assert(out@ =~= Seq::new((i + 1) as nat, |k: int| fill));
            i += 1;
        }
    }
    let ghost front = out@;
    let mut j: usize = 0;
    while j < s.len()
        invariant
            j <= s.len(),
            out@ == front + s@.take(j as int),
        decreases s.len() - j,
    {
        out.push(s[j]);
        assert(front + s@.take(j + 1) =~= (front + s@.take(j as int)).push(s@[j as int]));
        j += 1;
    }
    assert(s@.take(s.len() as int) =~= s@);
    assert(Seq::<char>::empty() + s@ =~= s@);
    out
}

/// Whether `char::is_whitespace` holds of `c`: whether `c` is white space
/// as Unicode has it.
pub uninterp spec fn is_space(c: char) -> bool;

/// Whether `c` is one of the six white-space characters of ASCII: the
/// blank, and the five from the tab to the carriage return.
pub open spec fn is_ascii_space(c: char) -> bool {
    c == ' ' || ('\t' <= c && c <= '\r')
}

/// `char::is_whitespace`: whether `c` is white space. Of the characters of
/// ASCII those of [`is_ascii_space`] are, and no other.
#[verifier::external_body]
pub(crate) fn is_whitespace(c: char) -> (r: bool)
    ensures
        r == is_space(c),
        (c as u32) < 128 ==> r == is_ascii_space(c),
{
    c.is_whitespace()
}

/// The first position at or after `from` of a character of `s` that is no
/// white space; the length of `s` where there is none.
pub open spec fn first_kept(s: Seq<char>, from: int) -> int
    decreases s.len() - from,
{
    if from < 0 || from >= s.len() {
        s.len() as int
    } else if is_space(s[from]) {
        first_kept(s, from + 1)
    } else {
        from
    }
}

/// The position after the last character among the first `upto` of `s`
/// that is no white space; zero where there is none.
pub open spec fn last_kept(s: Seq<char>, upto: int) -> int
    decreases upto,
{
    if upto <= 0 || upto > s.len() {
        0
    } else if is_space(s[upto - 1]) {
        last_kept(s, upto - 1)
    } else {
        upto
    }
}

/// A text without the white space at its ends: what stands from its first
/// character that is no white space to its last.
pub open spec fn trimmed(text: Seq<char>) -> Seq<char> {
    let from = first_kept(text, 0);
    let to = last_kept(text, text.len() as int);
    if from < to {
        text.subrange(from, to)
    } else {
        Seq::empty()
    }
}

/// The text without the white space at its ends.
pub fn trim(text: &str) -> (inner: &str)
    ensures
        inner@ == trimmed(text@),
{
    let chars = chars_of(text);
    let mut from: usize = 0;
    loop
        invariant
            from <= chars.len(),
            first_kept(chars@, 0) == first_kept(chars@, from as int),
        ensures
            from <= chars.len(),
            from == first_kept(chars@, 0),
        decreases chars.len() - from,
    {
        if from >= chars.len() {
            break ;
        }
        if !is_whitespace(chars[from]) {
            break ;
        }
        from += 1;
    }
    let mut to: usize = chars.len();
    loop
        invariant
            to <= chars.len(),
            last_kept(chars@, chars.len() as int) == last_kept(chars@, to as int),
        ensures
            to <= chars.len(),
            to == last_kept(chars@, chars.len() as int),
        decreases to,
    {
        if to == 0 {
            break ;
        }
        if !is_whitespace(chars[to - 1]) {
            break ;
        }
        to -= 1;
    }
    if from < to {
        text.substring_char(from, to)
    } else {
        let none = text.substring_char(0, 0);
        assert(none@ =~= Seq::<char>::empty());
        none
    }
}

/// The pieces of `s` that the separator `sep` parts: one more than there
/// are separators, in order, some perhaps empty.
pub open spec fn split(s: Seq<char>, sep: char) -> Seq<Seq<char>>
    decreases s.len(),
{
    let at = position_of(s, sep, 0);
    if 0 <= at < s.len() {
        seq![s.take(at)] + split(s.skip(at + 1), sep)
    } else {
        seq![s]
    }
}

/// The first separator of a tail of `s` is that of `s` from there on.
proof fn lemma_position_skip(s: Seq<char>, c: char, start: int, from: int)
    requires
        0 <= start <= s.len(),
        0 <= from <= s.len() - start,
    ensures
        position_of(s.skip(start), c, from) == position_of(s, c, start + from) - start,
    decreases s.len() - start - from,
{
    if from < s.len() - start {
        assert(s.skip(start)[from] == s[start + from]);
        if s[start + from] != c {
            lemma_position_skip(s, c, start, from + 1);
        }
    }
}

/// The views of the texts in `pieces`.
pub open spec fn views(pieces: Seq<Vec<char>>) -> Seq<Seq<char>> {
    pieces.map_values(|v: Vec<char>| v@)
}

/// The pieces of `s` that the separator `sep` parts.
pub fn split_chars(s: &Vec<char>, sep: char) -> (out: Vec<Vec<char>>)
    ensures
        views(out@) == split(s@, sep),
{
    let mut out: Vec<Vec<char>> = Vec::new();
    let mut start: usize = 0;
    proof {
        assert(s@.skip(0) =~= s@);
        assert(views(out@) + split(s@, sep) =~= split(s@, sep));
    }
    loop
        invariant
            start <= s.len(),
            split(s@, sep) == views(out@) + split(s@.skip(start as int), sep),
        decreases s.len() - start,
    {
        let at = find_char(s, sep, start);
        proof {
            lemma_position_skip(s@, sep, start as int, 0);
        }
        let piece = slice_of(s, start, at);
        let ghost before = out@;
        out.push(piece);
        proof {
            let tail = s@.skip(start as int);
            assert(tail.take(at - start) =~= s@.subrange(start as int, at as int));
            assert(views(out@) =~= views(before) + seq![piece@]);
            if at < s.len() {
                assert(tail.skip(at - start + 1) =~= s@.skip(at + 1));
                assert(views(before) + (seq![piece@] + split(s@.skip(at + 1), sep)) =~= views(
                    out@,
                ) + split(s@.skip(at + 1), sep));
            } else {
                assert(tail.take(at - start) =~= tail);
                assert(views(before) + seq![tail] =~= views(out@));
            }
        }
        if at >= s.len() {
            return out;
        }
        start = at + 1;
    }
}

/// A text has one piece at least, whatever parts it.
pub proof fn lemma_split_not_empty(s: Seq<char>, sep: char)
    ensures
        split(s, sep).len() >= 1,
    decreases s.len(),
{
    let at = position_of(s, sep, 0);
    if 0 <= at < s.len() {
        lemma_split_not_empty(s.skip(at + 1), sep);
    }
}

/// A number written in base ten is read back as itself: its digits are
/// digits, the first of them is no sign, and they spell the number.
pub proof fn lemma_decimal_reads_back(n: nat, max: nat)
    requires
        n <= max,
    ensures
        decimal(n).len() >= 1,
        all_digits(decimal(n)),
        digits_value(decimal(n)) == n,
        number_of(decimal(n), max) == Some(n),
    decreases n,
{
    let d = decimal(n);
    if n < 10 {
        assert(d =~= seq![digit_char(n)]);
        assert(d.drop_last() =~= Seq::<char>::empty());
        assert(is_digit(d[0]));
        assert(digit_value(d[0]) == n);
        assert(digits_value(d.drop_last()) == 0);
    } else {
        lemma_decimal_reads_back(n / 10, max);
        let front = decimal(n / 10);
        let last = digit_char(n % 10);
        assert(d == front.push(last));
        assert(d.drop_last() =~= front);
        assert(is_digit(last) && digit_value(last) == n % 10);
        assert forall|i: int| 0 <= i < d.len() implies is_digit(#[trigger] d[i]) by {
            if i < front.len() {
                assert(d[i] == front[i]);
            }
        }
        assert(d[0] == front[0]);
    }
    assert(d[0] != '+');
}

} // verus!
