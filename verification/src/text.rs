//! Characters, words and numbers: the text operations that the rest of the library is written in.

use vstd::prelude::*;

verus! {

/// `String::push` appends one character.
pub assume_specification[ String::push ](text: &mut String, c: char)
    ensures
        final(text)@ == old(text)@.push(c),
;

/// The texts that some strings hold.
pub open spec fn texts(strings: Seq<String>) -> Seq<Seq<char>> {
    strings.map_values(|s: String| s@)
}

/// The characters of Unicode's `White_Space` property.
pub open spec fn white_space(c: char) -> bool {
    ||| 0x09 <= c as u32 <= 0x0d
    ||| c as u32 == 0x20
    ||| c as u32 == 0x85
    ||| c as u32 == 0xa0
    ||| c as u32 == 0x1680
    ||| 0x2000 <= c as u32 <= 0x200a
    ||| c as u32 == 0x2028
    ||| c as u32 == 0x2029
    ||| c as u32 == 0x202f
    ||| c as u32 == 0x205f
    ||| c as u32 == 0x3000
}

/// Whether a character is white space.
pub fn is_white_space(c: char) -> (b: bool)
    ensures
        b == white_space(c),
{
    let code: u32 = c as u32;
    (0x09 <= code && code <= 0x0d) || code == 0x20 || code == 0x85 || code == 0xa0 || code == 0x1680
        || (0x2000 <= code && code <= 0x200a) || code == 0x2028 || code == 0x2029 || code == 0x202f
        || code == 0x205f || code == 0x3000
}

/// `s` without the white space at its start.
pub open spec fn without_leading_space(s: Seq<char>) -> Seq<char>
    decreases s.len(),
{
    if s.len() > 0 && white_space(s[0]) {
        without_leading_space(s.drop_first())
    } else {
        s
    }
}

/// `s` without the white space at its end.
pub open spec fn without_trailing_space(s: Seq<char>) -> Seq<char>
    decreases s.len(),
{
    if s.len() > 0 && white_space(s.last()) {
        without_trailing_space(s.drop_last())
    } else {
        s
    }
}

/// `s` without the white space at both of its ends.
pub open spec fn trimmed(s: Seq<char>) -> Seq<char> {
    without_trailing_space(without_leading_space(s))
}

/// No white space stands at either end of `s`.
pub open spec fn is_trimmed(s: Seq<char>) -> bool {
    s.len() > 0 ==> !white_space(s[0]) && !white_space(s.last())
}

proof fn lemma_without_leading_space(s: Seq<char>, n: int)
    requires
        0 <= n <= s.len(),
        forall|i: int| 0 <= i < n ==> white_space(#[trigger] s[i]),
        n < s.len() ==> !white_space(s[n]),
    ensures
        without_leading_space(s) == s.skip(n),
    decreases n,
{
    if n > 0 {
        assert(white_space(s[0]));
        let rest = s.drop_first();
        assert forall|i: int| 0 <= i < n - 1 implies white_space(#[trigger] rest[i]) by {
            assert(rest[i] == s[i + 1]);
        }
        lemma_without_leading_space(rest, n - 1);
        assert(rest.skip(n - 1) =~= s.skip(n));
    } else {
        assert(s.skip(0) =~= s);
    }
}

proof fn lemma_without_trailing_space(s: Seq<char>, n: int)
    requires
        0 <= n <= s.len(),
        forall|i: int| n <= i < s.len() ==> white_space(#[trigger] s[i]),
        n > 0 ==> !white_space(s[n - 1]),
    ensures
        without_trailing_space(s) == s.take(n),
    decreases s.len() - n,
{
    if n < s.len() {
        assert(white_space(s[s.len() - 1]));
        lemma_without_trailing_space(s.drop_last(), n);
        assert(s.drop_last().take(n) =~= s.take(n));
    } else {
        assert(s.take(n) =~= s);
    }
}

proof fn lemma_leading_space_gone(s: Seq<char>)
    ensures
        without_leading_space(s).len() > 0 ==> !white_space(without_leading_space(s)[0]),
    decreases s.len(),
{
    if s.len() > 0 && white_space(s[0]) {
        lemma_leading_space_gone(s.drop_first());
    }
}

proof fn lemma_trailing_space_gone(s: Seq<char>)
    ensures
        without_trailing_space(s).len() <= s.len(),
        without_trailing_space(s).len() > 0 ==> {
            &&& !white_space(without_trailing_space(s).last())
            &&& without_trailing_space(s)[0] == s[0]
        },
    decreases s.len(),
{
    if s.len() > 0 && white_space(s.last()) {
        lemma_trailing_space_gone(s.drop_last());
    }
}

/// Trimming leaves no white space at either end.
pub proof fn lemma_trimmed_is_trimmed(s: Seq<char>)
    ensures
        is_trimmed(trimmed(s)),
{
    lemma_leading_space_gone(s);
    lemma_trailing_space_gone(without_leading_space(s));
}

/// A trimmed text is a part of the text, with white space only before it.
pub proof fn lemma_trimmed_is_part(s: Seq<char>) -> (ends: (int, int))
    ensures
        0 <= ends.0 <= ends.1 <= s.len(),
        trimmed(s) == s.subrange(ends.0, ends.1),
        ends.0 > 0 ==> white_space(s[ends.0 - 1]),
{
    let from = lemma_leading_part(s);
    let rest = s.skip(from);
    let to = lemma_trailing_part(rest);
    assert(rest.take(to) =~= s.subrange(from, from + to));
    (from, from + to)
}

proof fn lemma_leading_part(s: Seq<char>) -> (n: int)
    ensures
        0 <= n <= s.len(),
        without_leading_space(s) == s.skip(n),
        n > 0 ==> white_space(s[n - 1]),
    decreases s.len(),
{
    if s.len() > 0 && white_space(s[0]) {
        let rest = s.drop_first();
        let n = lemma_leading_part(rest);
        assert(rest.skip(n) =~= s.skip(n + 1));
        n + 1
    } else {
        assert(s.skip(0) =~= s);
        0
    }
}

proof fn lemma_trailing_part(s: Seq<char>) -> (n: int)
    ensures
        0 <= n <= s.len(),
        without_trailing_space(s) == s.take(n),
    decreases s.len(),
{
    if s.len() > 0 && white_space(s.last()) {
        let n = lemma_trailing_part(s.drop_last());
        assert(s.drop_last().take(n) =~= s.take(n));
        n
    } else {
        assert(s.take(s.len() as int) =~= s);
        s.len() as int
    }
}

/// Trimming changes nothing in a text that has no white space at its ends.
pub proof fn lemma_trimmed_again(s: Seq<char>)
    requires
        is_trimmed(s),
    ensures
        trimmed(s) == s,
{
}

/// The characters of a text.
pub fn to_chars(text: &str) -> (chars: Vec<char>)
    ensures
        chars@ == text@,
{
    let mut chars: Vec<char> = Vec::new();
    for c in it: text.chars()
        invariant
            it.seq() == text@,
            chars@ == text@.take(it.index()),
    {
        chars.push(c);
        assert(chars@ =~= text@.take(it.index() + 1));
    }
    assert(text@.take(text@.len() as int) =~= text@);
    chars
}

/// The text that `chars[from..to]` spells.
pub fn from_chars(chars: &[char], from: usize, to: usize) -> (text: String)
    requires
        from <= to <= chars@.len(),
    ensures
        text@ == chars@.subrange(from as int, to as int),
{
    let mut text: String = String::new();
    let mut i: usize = from;
    while i < to
        invariant
            from <= i <= to <= chars@.len(),
            text@ == chars@.subrange(from as int, i as int),
        decreases to - i,
    {
        text.push(chars[i]);
        i = i + 1;
        assert(text@ =~= chars@.subrange(from as int, i as int));
    }
    text
}

/// Removes the white space at both ends of a text.
pub fn trim(text: &str) -> (result: String)
    ensures
        result@ == trimmed(text@),
{
    let chars: Vec<char> = to_chars(text);
    let mut from: usize = 0;
    while from < chars.len() && is_white_space(chars[from])
        invariant
            from <= chars@.len(),
            forall|i: int| 0 <= i < from ==> white_space(#[trigger] chars@[i]),
        decreases chars@.len() - from,
    {
        from = from + 1;
    }
    let ghost start = chars@.skip(from as int);
    proof {
        lemma_without_leading_space(chars@, from as int);
    }
    let mut to: usize = chars.len();
    while from < to && is_white_space(chars[to - 1])
        invariant
            from <= to <= chars@.len(),
            start == chars@.skip(from as int),
            forall|i: int| to - from <= i < start.len() ==> white_space(#[trigger] start[i]),
        decreases to,
    {
        to = to - 1;
    }
    proof {
        lemma_without_trailing_space(start, to - from);
        assert(start.take(to - from) =~= chars@.subrange(from as int, to as int));
    }
    from_chars(chars.as_slice(), from, to)
}

/// A word starts at position `i` of `s`.
pub open spec fn starts_word(s: Seq<char>, i: int) -> bool {
    !white_space(s[i]) && (i == 0 || white_space(s[i - 1]))
}

/// The number of words in `s`: of places where a word starts.
pub open spec fn word_count(s: Seq<char>) -> nat
    decreases s.len(),
{
    if s.len() == 0 {
        0
    } else {
        word_count(s.drop_last()) + if starts_word(s, s.len() - 1) { 1nat } else { 0nat }
    }
}

/// Counts the words of a text: its longest stretches without white space.
pub fn count_words(text: &str) -> (n: usize)
    ensures
        n == word_count(text@),
{
    let chars: Vec<char> = to_chars(text);
    let mut n: usize = 0;
    let mut i: usize = 0;
    while i < chars.len()
        invariant
            i <= chars@.len(),
            n <= i,
            n == word_count(chars@.take(i as int)),
        decreases chars@.len() - i,
    {
        assert(chars@.take(i + 1).drop_last() =~= chars@.take(i as int));
        if !is_white_space(chars[i]) && (i == 0 || is_white_space(chars[i - 1])) {
            n = n + 1;
        }
        i = i + 1;
    }
    assert(chars@.take(chars@.len() as int) =~= chars@);
    n
}

/// Whether two texts have the same characters.
pub fn same_text(a: &str, b: &str) -> (same: bool)
    ensures
        same == (a@ == b@),
{
    let left: Vec<char> = to_chars(a);
    let right: Vec<char> = to_chars(b);
    if left.len() != right.len() {
        return false;
    }
    let mut i: usize = 0;
    while i < left.len()
        invariant
            i <= left@.len() == right@.len(),
            left@ == a@,
            right@ == b@,
            forall|j: int| 0 <= j < i ==> #[trigger] left@[j] == right@[j],
        decreases left@.len() - i,
    {
        if left[i] != right[i] {
            return false;
        }
        i = i + 1;
    }
    assert(left@ =~= right@);
    true
}

/// Whether `part` stands in `whole` from position `at` on.
pub open spec fn stands_at(whole: Seq<char>, part: Seq<char>, at: int) -> bool {
    0 <= at && at + part.len() <= whole.len() && whole.subrange(at, at + part.len()) == part
}

/// Whether `part` stands anywhere in `whole`.
pub open spec fn holds_text(whole: Seq<char>, part: Seq<char>) -> bool {
    exists|at: int| stands_at(whole, part, at)
}

fn is_at(whole: &Vec<char>, part: &Vec<char>, at: usize) -> (b: bool)
    requires
        at + part@.len() <= whole@.len(),
    ensures
        b == stands_at(whole@, part@, at as int),
{
    let length: usize = whole.len();
    let mut i: usize = 0;
    while i < part.len()
        invariant
            i <= part@.len(),
            at + part@.len() <= whole@.len() == length,
            forall|j: int| 0 <= j < i ==> whole@[at + j] == #[trigger] part@[j],
        decreases part@.len() - i,
    {
        if whole[at + i] != part[i] {
            assert(whole@.subrange(at as int, at + part@.len())[i as int] != part@[i as int]);
            return false;
        }
        i = i + 1;
    }
    assert(whole@.subrange(at as int, at + part@.len()) =~= part@);
    true
}

/// Whether a text holds another.
pub fn contains_text(whole: &str, part: &str) -> (b: bool)
    ensures
        b == holds_text(whole@, part@),
{
    let long: Vec<char> = to_chars(whole);
    let short: Vec<char> = to_chars(part);
    if short.len() > long.len() {
        return false;
    }
    let mut at: usize = 0;
    while at <= long.len() - short.len()
        invariant
            long@ == whole@,
            short@ == part@,
            short@.len() <= long@.len(),
            at <= long@.len() - short@.len() + 1,
            forall|i: int| 0 <= i < at ==> !stands_at(whole@, part@, i),
        decreases long@.len() - short@.len() + 1 - at,
    {
        if is_at(&long, &short, at) {
            return true;
        }
        if at == long.len() - short.len() {
            return false;
        }
        at = at + 1;
    }
    false
}

/// What follows the last `c` in `s`: all of `s` where it holds no `c`.
pub open spec fn after_last(s: Seq<char>, c: char) -> Seq<char>
    decreases s.len(),
{
    if s.len() == 0 || s.last() == c {
        Seq::empty()
    } else {
        after_last(s.drop_last(), c).push(s.last())
    }
}

proof fn lemma_after_last(s: Seq<char>, c: char, n: int)
    requires
        0 <= n <= s.len(),
        n > 0 ==> s[n - 1] == c,
        forall|i: int| n <= i < s.len() ==> #[trigger] s[i] != c,
    ensures
        after_last(s, c) == s.skip(n),
    decreases s.len(),
{
    if s.len() > n {
        assert(s[s.len() - 1] != c);
        lemma_after_last(s.drop_last(), c, n);
        assert(s.drop_last().skip(n).push(s.last()) =~= s.skip(n));
    } else {
        assert(s.skip(n) =~= Seq::empty());
    }
}

/// What follows the last `c` of `s + t` where `t` starts with `c` and holds no other one.
pub proof fn lemma_after_last_append(s: Seq<char>, c: char, t: Seq<char>)
    requires
        !t.contains(c),
    ensures
        after_last(s.push(c) + t, c) == t,
{
    let whole = s.push(c) + t;
    assert forall|i: int| s.len() + 1 <= i < whole.len() implies #[trigger] whole[i] != c by {
        assert(whole[i] == t[i - s.len() - 1]);
    }
    lemma_after_last(whole, c, s.len() as int + 1);
    assert(whole.skip(s.len() as int + 1) =~= t);
}

/// The position behind the last `c` in `chars`: 0 where there is none.
fn behind_last(chars: &Vec<char>, c: char) -> (n: usize)
    ensures
        n <= chars@.len(),
        n > 0 ==> chars@[n - 1] == c,
        after_last(chars@, c) == chars@.skip(n as int),
{
    let mut n: usize = chars.len();
    while n > 0 && chars[n - 1] != c
        invariant
            n <= chars@.len(),
            forall|i: int| n <= i < chars@.len() ==> #[trigger] chars@[i] != c,
        decreases n,
    {
        n = n - 1;
    }
    proof {
        lemma_after_last(chars@, c, n as int);
    }
    n
}

/// The part of a text behind its last `c`.
pub fn last_part(text: &str, c: char) -> (part: String)
    ensures
        part@ == after_last(text@, c),
{
    let chars: Vec<char> = to_chars(text);
    let n: usize = behind_last(&chars, c);
    assert(chars@.skip(n as int) =~= chars@.subrange(n as int, chars@.len() as int));
    from_chars(chars.as_slice(), n, chars.len())
}

/// The file name `s` has the extension `extension` behind a stem that is not empty.
pub open spec fn has_extension(s: Seq<char>, extension: Seq<char>) -> bool {
    after_last(s, '.') == extension && s.len() > extension.len() + 1
}

/// The file name `s` up to the dot before its extension.
pub open spec fn stem(s: Seq<char>) -> Seq<char> {
    s.take(s.len() - after_last(s, '.').len() - 1)
}

/// Splits off a file name's extension: the stem, where the extension is the given one and the
/// stem is not empty.
pub fn strip_extension(name: &str, extension: &str) -> (result: Option<String>)
    ensures
        match result {
            Some(rest) => has_extension(name@, extension@) && rest@ == stem(name@),
            None => !has_extension(name@, extension@),
        },
{
    let chars: Vec<char> = to_chars(name);
    let n: usize = behind_last(&chars, '.');
    let found: String = from_chars(chars.as_slice(), n, chars.len());
    assert(chars@.skip(n as int) =~= chars@.subrange(n as int, chars@.len() as int));
    if n > 1 && same_text(found.as_str(), extension) {
        assert(chars@.subrange(0, n - 1) =~= stem(name@));
        Some(from_chars(chars.as_slice(), 0, n - 1))
    } else {
        None
    }
}

/// The decimal digit for a number below ten.
pub open spec fn digit(d: nat) -> char {
    (('0' as u32) + d) as char
}

/// A number in decimal, without leading zeros.
pub open spec fn decimal(n: nat) -> Seq<char>
    decreases n,
{
    if n < 10 {
        seq![digit(n)]
    } else {
        decimal(n / 10).push(digit(n % 10))
    }
}

/// Writes a number in decimal.
pub fn to_decimal(n: u64) -> (text: String)
    ensures
        text@ == decimal(n as nat),
    decreases n,
{
    let last: char = (48u8 + (n % 10) as u8) as char;
    if n < 10 {
        let mut text: String = String::new();
        text.push(last);
        assert(text@ =~= decimal(n as nat));
        text
    } else {
        let mut text: String = to_decimal(n / 10);
        text.push(last);
        text
    }
}

/// All of `s` is decimal digits.
pub open spec fn all_digits(s: Seq<char>) -> bool {
    forall|i: int| 0 <= i < s.len() ==> '0' <= #[trigger] s[i] <= '9'
}

/// The value of a sequence of decimal digits.
pub open spec fn digits_value(s: Seq<char>) -> nat
    decreases s.len(),
{
    if s.len() == 0 {
        0
    } else {
        digits_value(s.drop_last()) * 10 + (s.last() as u32 - '0' as u32) as nat
    }
}

/// `s` without one leading plus sign.
pub open spec fn without_plus(s: Seq<char>) -> Seq<char> {
    if s.len() > 0 && s[0] == '+' {
        s.skip(1)
    } else {
        s
    }
}

/// The unsigned number that `s` spells: digits, with a plus sign before them or without, whose
/// value fits in 64 bits.
pub open spec fn unsigned_value(s: Seq<char>) -> Option<u64> {
    let digits = without_plus(s);
    if digits.len() > 0 && all_digits(digits) && digits_value(digits) <= u64::MAX {
        Some(digits_value(digits) as u64)
    } else {
        None
    }
}

proof fn lemma_prefix_value(s: Seq<char>, n: int)
    requires
        0 <= n <= s.len(),
    ensures
        digits_value(s.take(n)) <= digits_value(s),
    decreases s.len() - n,
{
    if n < s.len() {
        lemma_prefix_value(s.drop_last(), n);
        assert(s.drop_last().take(n) =~= s.take(n));
    } else {
        assert(s.take(n) =~= s);
    }
}

/// Reads an unsigned number.
pub fn parse_unsigned(text: &str) -> (value: Option<u64>)
    ensures
        value == unsigned_value(text@),
{
    let chars: Vec<char> = to_chars(text);
    let from: usize = if chars.len() > 0 && chars[0] == '+' {
        1
    } else {
        0
    };
    let ghost digits = without_plus(text@);
    assert(chars@.skip(0) =~= chars@);
    assert(digits == chars@.skip(from as int));
    if from == chars.len() {
        return None;
    }
    let mut value: u64 = 0;
    let mut i: usize = from;
    while i < chars.len()
        invariant
            from <= i <= chars@.len(),
            from < chars@.len(),
            digits == without_plus(text@),
            digits == chars@.skip(from as int),
            all_digits(digits.take(i - from)),
            value == digits_value(digits.take(i - from)),
        decreases chars@.len() - i,
    {
        let c: char = chars[i];
        let ghost done = i - from;
        assert(digits[done] == c);
        assert(digits.take(done + 1).drop_last() =~= digits.take(done));
        if c < '0' || c > '9' {
            return None;
        }
        let d: u64 = (c as u32 - 48) as u64;
        proof {
            lemma_prefix_value(digits, done + 1);
        }
        if value > (u64::MAX - d) / 10 {
            return None;
        }
        value = value * 10 + d;
        i = i + 1;
    }
    assert(digits.take(digits.len() as int) =~= digits);
    Some(value)
}

proof fn lemma_decimal(n: nat)
    ensures
        decimal(n).len() > 0,
        all_digits(decimal(n)),
        digits_value(decimal(n)) == n,
    decreases n,
{
    reveal_with_fuel(digits_value, 2);
    if n >= 10 {
        lemma_decimal(n / 10);
        assert(decimal(n).drop_last() =~= decimal(n / 10));
    } else {
        assert(decimal(n).drop_last() =~= Seq::empty());
    }
}

/// Reading back a number written in decimal gives the number.
pub proof fn lemma_decimal_reads_back(n: u64)
    ensures
        unsigned_value(decimal(n as nat)) == Some(n),
{
    lemma_decimal(n as nat);
    assert('0' <= decimal(n as nat)[0] <= '9');
}

/// A number written in decimal holds digits only.
pub proof fn lemma_decimal_is_digits(n: nat)
    ensures
        decimal(n).len() > 0,
        all_digits(decimal(n)),
{
    lemma_decimal(n);
}

/// White space is tab to carriage return, the space, the next-line and no-break characters, and
/// Unicode's other spaces and separators, and nothing else; so no letter, digit or mark of ASCII is.
pub proof fn law_white_space_is_unicode_white_space(c: char)
    ensures
        white_space(c) <==> seq![
            0x09u32, 0x0a, 0x0b, 0x0c, 0x0d, 0x20, 0x85, 0xa0, 0x1680, 0x2000, 0x2001, 0x2002, 0x2003,
            0x2004, 0x2005, 0x2006, 0x2007, 0x2008, 0x2009, 0x200a, 0x2028, 0x2029, 0x202f, 0x205f,
            0x3000,
        ].contains(c as u32),
        0x21 <= c as u32 <= 0x7e ==> !white_space(c),
{
    let codes = seq![
        0x09u32, 0x0a, 0x0b, 0x0c, 0x0d, 0x20, 0x85, 0xa0, 0x1680, 0x2000, 0x2001, 0x2002, 0x2003,
        0x2004, 0x2005, 0x2006, 0x2007, 0x2008, 0x2009, 0x200a, 0x2028, 0x2029, 0x202f, 0x205f,
        0x3000,
    ];
    if white_space(c) {
        let n = c as u32;
        let i: int = if n <= 0x0d {
            n - 0x09
        } else if n == 0x20 {
            5
        } else if n == 0x85 {
            6
        } else if n == 0xa0 {
            7
        } else if n == 0x1680 {
            8
        } else if n <= 0x200a {
            n - 0x2000 + 9
        } else if n == 0x2028 {
            20
        } else if n == 0x2029 {
            21
        } else if n == 0x202f {
            22
        } else if n == 0x205f {
            23
        } else {
            24
        };
        assert(codes[i] == n);
    }
}

/// All of `s` is white space.
pub open spec fn all_white(s: Seq<char>) -> bool {
    forall|i: int| 0 <= i < s.len() ==> white_space(#[trigger] s[i])
}

/// Whatever white space stands around a text that has none at its ends, trimming gives that text:
/// all of it, and nothing else.
pub proof fn law_trimming_gives_what_white_space_surrounds(
    before: Seq<char>,
    core: Seq<char>,
    after: Seq<char>,
)
    requires
        all_white(before),
        all_white(after),
        core.len() > 0 ==> !white_space(core[0]) && !white_space(core[core.len() - 1]),
    ensures
        trimmed(before + core + after) == core,
{
    let s = before + core + after;
    if core.len() == 0 {
        assert forall|i: int| 0 <= i < s.len() implies white_space(#[trigger] s[i]) by {
            if i < before.len() {
                assert(s[i] == before[i]);
            } else {
                assert(s[i] == after[i - before.len()]);
            }
        }
        lemma_without_leading_space(s, s.len() as int);
        assert(s.skip(s.len() as int) =~= core);
        assert(without_trailing_space(core) =~= core);
    } else {
        let n = before.len() as int;
        assert forall|i: int| 0 <= i < n implies white_space(#[trigger] s[i]) by {
            assert(s[i] == before[i]);
        }
        assert(s[n] == core[0]);
        lemma_without_leading_space(s, n);
        let rest = s.skip(n);
        assert(rest =~= core + after);
        let m = core.len() as int;
        assert forall|i: int| m <= i < rest.len() implies white_space(#[trigger] rest[i]) by {
            assert(rest[i] == after[i - m]);
        }
        assert(rest[m - 1] == core[m - 1]);
        lemma_without_trailing_space(rest, m);
        assert(rest.take(m) =~= core);
    }
}

/// White space between two texts parts their words: the words of the whole are those of both.
pub proof fn law_words_add_up(a: Seq<char>, c: char, b: Seq<char>)
    requires
        white_space(c),
    ensures
        word_count(a.push(c) + b) == word_count(a) + word_count(b),
    decreases b.len(),
{
    let whole = a.push(c) + b;
    if b.len() == 0 {
        assert(whole =~= a.push(c));
        assert(whole.drop_last() =~= a);
    } else {
        law_words_add_up(a, c, b.drop_last());
        assert(whole.drop_last() =~= a.push(c) + b.drop_last());
        assert(whole[whole.len() - 1] == b[b.len() - 1]);
        if b.len() > 1 {
            assert(whole[whole.len() - 2] == b[b.len() - 2]);
        } else {
            assert(whole[whole.len() - 2] == c);
        }
    }
}

/// Characters without white space between them are one word, and no characters are none.
pub proof fn law_unbroken_text_is_one_word(s: Seq<char>)
    requires
        forall|i: int| 0 <= i < s.len() ==> !white_space(#[trigger] s[i]),
    ensures
        word_count(s) == if s.len() == 0 {
            0nat
        } else {
            1nat
        },
    decreases s.len(),
{
    if s.len() > 0 {
        let before = s.drop_last();
        assert forall|i: int| 0 <= i < before.len() implies !white_space(#[trigger] before[i]) by {
            assert(before[i] == s[i]);
        }
        law_unbroken_text_is_one_word(before);
        assert(!white_space(s[s.len() - 1]));
        if s.len() > 1 {
            assert(!white_space(s[s.len() - 2]));
        }
    }
}

/// A text is held by another if and only if that is the text with something before it and something
/// behind it.
pub proof fn law_held_text_stands_between_others(whole: Seq<char>, part: Seq<char>)
    ensures
        holds_text(whole, part) <==> exists|before: Seq<char>, after: Seq<char>|
            whole == #[trigger] (before + part + after),
{
    if holds_text(whole, part) {
        let at = choose|at: int| stands_at(whole, part, at);
        let before = whole.take(at);
        let after = whole.skip(at + part.len());
        assert(whole =~= before + part + after);
    }
    if exists|before: Seq<char>, after: Seq<char>| whole == #[trigger] (before + part + after) {
        let (before, after) = choose|before: Seq<char>, after: Seq<char>|
            whole == #[trigger] (before + part + after);
        let at = before.len() as int;
        assert(whole.subrange(at, at + part.len()) =~= part);
        assert(stands_at(whole, part, at));
    }
}

/// A name that holds a character ends in it and what follows its last occurrence; a name without it
/// follows it as a whole.
pub proof fn law_last_part_follows_the_last_one(before: Seq<char>, c: char, after: Seq<char>)
    requires
        !after.contains(c),
    ensures
        after_last(before.push(c) + after, c) == after,
        after_last(after, c) == after,
{
    lemma_after_last_append(before, c, after);
    assert forall|i: int| 0 <= i < after.len() implies #[trigger] after[i] != c by {
        assert(after.contains(after[i]));
    }
    lemma_after_last(after, c, 0);
    assert(after.skip(0) =~= after);
}

/// A name has an extension if and only if it is a stem, a dot and the extension; the stem is not
/// empty and comes back as it is.
pub proof fn law_extension_stands_behind_a_dot(name: Seq<char>, extension: Seq<char>)
    requires
        !extension.contains('.'),
    ensures
        has_extension(name, extension) <==> exists|rest: Seq<char>|
            rest.len() > 0 && name == #[trigger] rest.push('.') + extension,
        forall|rest: Seq<char>|
            rest.len() > 0 && name == #[trigger] rest.push('.') + extension ==> stem(name) == rest,
{
    assert forall|rest: Seq<char>|
        rest.len() > 0 && name == #[trigger] rest.push('.') + extension implies has_extension(
        name,
        extension,
    ) && stem(name) == rest by {
        lemma_after_last_append(rest, '.', extension);
        assert(stem(name) =~= rest);
    }
    if has_extension(name, extension) {
        let n = lemma_last_place(name, '.');
        assert(n > 0);
        let rest = name.take(n - 1);
        assert(name =~= rest.push('.') + extension);
        assert(rest.len() > 0);
        assert(name == rest.push('.') + extension);
    }
}

/// The place behind the last `c` of `s`, or 0.
proof fn lemma_last_place(s: Seq<char>, c: char) -> (n: int)
    ensures
        0 <= n <= s.len(),
        n > 0 ==> s[n - 1] == c,
        after_last(s, c) == s.skip(n),
    decreases s.len(),
{
    if s.len() == 0 {
        assert(s.skip(0) =~= Seq::empty());
        0
    } else if s.last() == c {
        assert(s.skip(s.len() as int) =~= Seq::empty());
        s.len() as int
    } else {
        let n = lemma_last_place(s.drop_last(), c);
        assert(s.drop_last().skip(n).push(s.last()) =~= s.skip(n));
        n
    }
}

/// A number below ten is one digit, counted from zero on; ten times a number and a digit is the
/// number with the digit behind it.
pub proof fn law_decimal_has_places(n: nat, d: nat)
    requires
        d < 10,
    ensures
        n == 0 ==> decimal(d).len() == 1 && decimal(d)[0] as u32 == 48 + d,
        n > 0 ==> decimal(10 * n + d).drop_last() == decimal(n) && decimal(10 * n
            + d).last() as u32 == 48 + d,
{
    if n > 0 {
        assert((10 * n + d) / 10 == n);
        assert((10 * n + d) % 10 == d);
        assert(decimal(10 * n + d) =~= decimal(n).push(digit(d)));
        assert(decimal(10 * n + d).drop_last() =~= decimal(n));
    }
}

/// Different numbers are written differently.
pub proof fn law_decimal_tells_numbers_apart(a: nat, b: nat)
    ensures
        decimal(a) == decimal(b) <==> a == b,
{
    lemma_decimal(a);
    lemma_decimal(b);
}

/// Only digits, with a plus sign before them or without, read as a number; the sign and leading
/// zeros make no difference, and every number that fits is read from its decimal form.
pub proof fn law_number_is_read_from_its_digits(s: Seq<char>, n: u64)
    ensures
        unsigned_value(decimal(n as nat)) == Some(n),
        unsigned_value(seq!['+'] + decimal(n as nat)) == Some(n),
        unsigned_value(seq!['0'] + decimal(n as nat)) == Some(n),
        unsigned_value(s) is Some ==> s.len() > 0 && forall|i: int|
            0 <= i < s.len() ==> '0' <= #[trigger] s[i] <= '9' || (i == 0 && s[i] == '+'),
{
    let digits = decimal(n as nat);
    lemma_decimal_reads_back(n);
    lemma_decimal(n as nat);
    let signed = seq!['+'] + digits;
    assert(signed.skip(1) =~= digits);
    let padded = seq!['0'] + digits;
    lemma_leading_zero(digits);
    assert(all_digits(padded)) by {
        assert forall|i: int| 0 <= i < padded.len() implies '0' <= #[trigger] padded[i] <= '9' by {
            if i > 0 {
                assert(padded[i] == digits[i - 1]);
            }
        }
    }
    if unsigned_value(s) is Some {
        let rest = without_plus(s);
        assert forall|i: int| 0 <= i < s.len() implies '0' <= #[trigger] s[i] <= '9' || (i == 0
            && s[i] == '+') by {
            if s[0] == '+' {
                if i > 0 {
                    assert(rest[i - 1] == s[i]);
                }
            } else {
                assert(rest[i] == s[i]);
            }
        }
    }
}

proof fn lemma_leading_zero(digits: Seq<char>)
    ensures
        digits_value(seq!['0'] + digits) == digits_value(digits),
    decreases digits.len(),
{
    let padded = seq!['0'] + digits;
    if digits.len() == 0 {
        reveal_with_fuel(digits_value, 2);
        assert(padded =~= seq!['0']);
        assert(padded.drop_last() =~= Seq::empty());
    } else {
        lemma_leading_zero(digits.drop_last());
        assert(padded.drop_last() =~= seq!['0'] + digits.drop_last());
        assert(padded.last() == digits.last());
    }
}

/// The texts of some strings are those of each of them, in their order.
pub proof fn law_texts_are_those_of_the_strings(strings: Seq<String>)
    ensures
        texts(strings).len() == strings.len(),
        forall|i: int| 0 <= i < strings.len() ==> texts(strings)[i] == (#[trigger] strings[i])@,
{
}

/// A number is read digit by digit, however many there are: a digit behind a number makes ten times
/// it and the digit, or nothing where that does not fit in 64 bits; behind what is no number, and with
/// anything but a digit at its end, a text is none. Nothing, or a sign alone, is no number.
pub proof fn law_number_is_read_digit_by_digit(s: Seq<char>, c: char)
    ensures
        unsigned_value(Seq::<char>::empty()) is None,
        unsigned_value(seq!['+']) is None,
        '0' <= c <= '9' ==> unsigned_value(seq![c]) == Some((c as u32 - 48) as u64),
        '0' <= c <= '9' ==> unsigned_value(seq!['+', c]) == Some((c as u32 - 48) as u64),
        s.len() > 0 && s != seq!['+'] && '0' <= c <= '9' ==> unsigned_value(s.push(c)) == (
        match unsigned_value(s) {
            Some(n) => if 10 * n + (c as u32 - 48) <= u64::MAX {
                Some((10 * n + (c as u32 - 48)) as u64)
            } else {
                None
            },
            None => None,
        }),
        s.len() > 0 && !('0' <= c <= '9') ==> unsigned_value(s.push(c)) is None,
{
    reveal_with_fuel(digits_value, 2);
    let longer = s.push(c);
    assert(seq!['+'].skip(1) =~= Seq::<char>::empty());
    assert(seq!['+', c].skip(1) =~= seq![c]);
    assert(seq![c].drop_last() =~= Seq::<char>::empty());
    if s.len() > 0 {
        let digits = without_plus(s);
        let more = without_plus(longer);
        assert(more =~= digits.push(c));
        assert(more.drop_last() =~= digits);
        assert(more[more.len() - 1] == c);
        if s[0] == '+' && s.len() == 1 {
            assert(s =~= seq!['+']);
        }
        if all_digits(more) {
            assert forall|i: int| 0 <= i < digits.len() implies '0' <= #[trigger] digits[i]
                <= '9' by {
                assert(more[i] == digits[i]);
            }
        }
    }
}

} // verus!
