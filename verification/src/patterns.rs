//! The regular expressions of the text middleware, and the calls that run them.

use vstd::prelude::*;

verus! {

/// Filler words and phrases, with the white space or punctuation around them.
pub const FILLERS: &'static str =
    r"(?i)(?:^|\s)(?:um+|uh+|ah+|hmm+|huh|like,?\s|you know,?\s|so,?\s|I mean,?\s)(?:\s|[.,!?]|$)";

/// A word that is said twice in a row.
pub const REPEATED_WORD: &'static str = r"(?i)\b(\w+[,.]?)\s+\1\b";

/// A phrase of two to four words that is said twice in a row.
pub const REPEATED_PHRASE: &'static str = r"(?i)\b((?:\w+\s+){1,3}\w+[,.]?)\s+\1\b";

/// Three dots or more.
pub const ELLIPSIS: &'static str = r"\.{3,}";

/// Two dashes or more, or a hyphen between white space, with the white space around them.
pub const DASHES: &'static str = r"\s*[-—]{2,}\s*|\s+-\s+";

/// A letter right behind the end of a sentence.
pub const MISSING_SPACE: &'static str = r"([.!?])([a-zA-Z])";

/// Two ends of a sentence or more in a row.
pub const DOUBLE_PUNCTUATION: &'static str = r"([.!?]){2,}";

/// White space before a punctuation mark.
pub const SPACE_BEFORE_PUNCTUATION: &'static str = r"\s+([.,!?;:])";

/// The end of a sentence and the small letter that starts the next one.
pub const SENTENCE_START: &'static str = r"([.!?]\s+)([a-z])";

/// A transcript that is one noise word and nothing else.
pub const NOISE_WORD: &'static str =
    r"(?i)^(?:okay|yeah|yes|no|um|uh|hmm|huh|oh|ah|so|and|but|or|the|a|an)$";

/// A transcript that is one of the phrases a recogniser makes up out of silence.
pub const HALLUCINATION: &'static str = r"(?i)^(?:thank you|thanks for watching)[.,!?]*$";

/// Two spaces or more.
pub const MULTI_SPACE: &'static str = r" {2,}";

/// What `fancy_regex::Error` stands for is told apart from success only.
#[verifier::external_type_specification]
#[verifier::external_body]
pub struct ExFancyError(fancy_regex::Error);

/// The mark ends a sentence.
pub open spec fn ends_a_sentence(c: char) -> bool {
    c == '.' || c == '!' || c == '?'
}

/// The mark stands right behind a word.
pub open spec fn follows_a_word(c: char) -> bool {
    ends_a_sentence(c) || c == ',' || c == ';' || c == ':'
}

/// A hyphen or an em dash.
pub open spec fn is_dash(c: char) -> bool {
    c == '-' || c == '—'
}

/// A small ASCII letter.
pub open spec fn is_small(c: char) -> bool {
    'a' <= c <= 'z'
}

/// An ASCII letter.
pub open spec fn is_letter(c: char) -> bool {
    is_small(c) || 'A' <= c <= 'Z'
}

/// The text in which every match of a backtracking pattern has been replaced: nothing where the
/// pattern is no valid one or the search gives up.
pub uninterp spec fn backtracking_replaced(
    pattern: Seq<char>,
    text: Seq<char>,
    replacement: Seq<char>,
) -> Option<Seq<char>>;

/// The small ASCII letter that a character is folded to where case does not count; any other
/// character as it is. Besides the capital letters, these are the Kelvin sign and the long s.
pub open spec fn folded(c: char) -> char {
    if 'A' <= c <= 'Z' {
        (c as u32 + 32) as char
    } else if c == '\u{212a}' {
        'k'
    } else if c == '\u{17f}' {
        's'
    } else {
        c
    }
}

/// A text without regard to case.
pub open spec fn fold(s: Seq<char>) -> Seq<char> {
    s.map_values(|c: char| folded(c))
}

/// `s` starts with `part`.
pub open spec fn starts_with(s: Seq<char>, part: Seq<char>) -> bool {
    s.len() >= part.len() && s.take(part.len() as int) == part
}

/// How often `s` starts with `c`.
pub open spec fn leading(s: Seq<char>, c: char) -> nat
    decreases s.len(),
{
    if s.len() > 0 && s[0] == c {
        1 + leading(s.drop_first(), c)
    } else {
        0
    }
}

/// The length of `start` and as many `c` as there are behind it, where `s` starts with these and
/// there is one `c` at least; else 0.
pub open spec fn drawn_out(s: Seq<char>, start: Seq<char>, c: char) -> nat {
    let n = leading(s.skip(start.len() as int), c);
    if starts_with(s, start) && n > 0 {
        start.len() + n
    } else {
        0
    }
}

/// The length of `phrase`, a comma behind it if there is one, and one character of white space,
/// where `s` starts with these; else 0.
pub open spec fn phrase_and_space(s: Seq<char>, phrase: Seq<char>) -> nat {
    let k = phrase.len() as int;
    let n = if k < s.len() && s[k] == ',' { k + 1 } else { k };
    if starts_with(s, phrase) && n < s.len() && crate::text::white_space(s[n]) {
        (n + 1) as nat
    } else {
        0
    }
}

/// The length of the filler word or phrase that `s`, which is without regard to case, starts with;
/// 0 where there is none.
pub open spec fn filler_word(s: Seq<char>) -> nat {
    if drawn_out(s, "u"@, 'm') > 0 {
        drawn_out(s, "u"@, 'm')
    } else if drawn_out(s, "u"@, 'h') > 0 {
        drawn_out(s, "u"@, 'h')
    } else if drawn_out(s, "a"@, 'h') > 0 {
        drawn_out(s, "a"@, 'h')
    } else if drawn_out(s, "hm"@, 'm') > 0 {
        drawn_out(s, "hm"@, 'm')
    } else if starts_with(s, "huh"@) {
        3
    } else if phrase_and_space(s, "like"@) > 0 {
        phrase_and_space(s, "like"@)
    } else if phrase_and_space(s, "you know"@) > 0 {
        phrase_and_space(s, "you know"@)
    } else if phrase_and_space(s, "so"@) > 0 {
        phrase_and_space(s, "so"@)
    } else {
        phrase_and_space(s, "i mean"@)
    }
}

/// The length of the filler that `s` starts with, and of the white space or mark that must follow
/// it unless the text ends there; 0 where there is no such filler.
pub open spec fn filler_and_end(s: Seq<char>) -> nat {
    let n = filler_word(fold(s));
    if n == 0 || n > s.len() {
        0
    } else if n == s.len() {
        n
    } else if crate::text::white_space(s[n as int]) || ends_a_sentence(s[n as int]) || s[n as int]
        == ',' {
        n + 1
    } else {
        0
    }
}

/// The length of what is taken out at the start of `s`: a filler and its end, at the start of a text
/// or behind white space, which goes too; 0 where there is none.
pub open spec fn filler_length(s: Seq<char>, at_start: bool) -> nat {
    if at_start && filler_and_end(s) > 0 {
        filler_and_end(s)
    } else if s.len() > 0 && crate::text::white_space(s[0]) && filler_and_end(s.drop_first()) > 0 {
        1 + filler_and_end(s.drop_first())
    } else {
        0
    }
}

/// `s` with a space for every filler; `s` is all of a text, or what is left of one.
pub open spec fn without_fillers(s: Seq<char>, at_start: bool) -> Seq<char>
    decreases s.len(),
{
    let n = filler_length(s, at_start);
    if s.len() == 0 {
        s
    } else if n > 0 {
        seq![' '] + without_fillers(s.skip(n as int), false)
    } else {
        seq![s[0]] + without_fillers(s.drop_first(), false)
    }
}

/// The patterns that `fancy_regex` runs, each with what its matches are replaced by.
pub open spec fn is_condensing(pattern: Seq<char>, replacement: Seq<char>) -> bool {
    ||| pattern == FILLERS@ && replacement == " "@
    ||| is_repetition(pattern) && replacement == "$1"@
}

/// The patterns of what is said twice in a row.
pub open spec fn is_repetition(pattern: Seq<char>) -> bool {
    pattern == REPEATED_WORD@ || pattern == REPEATED_PHRASE@
}

/// Calls `fancy_regex::Regex::try_replacen` for all matches. Its result, success or failure, is a
/// function of the pattern, the text and the replacement: the limits at which it gives up are
/// counts of steps. The pattern of fillers needs no backtracking and is handed to an engine that
/// does not give up: every filler is replaced by a space, from left to right.
/// Other patterns are not admitted: there are valid ones on which the call panics.
#[verifier::external_body]
pub(crate) fn try_replace_backtracking(
    pattern: &str,
    text: &str,
    replacement: &str,
) -> (result: Result<String, fancy_regex::Error>)
    requires
        is_condensing(pattern@, replacement@),
    ensures
        (match result {
            Ok(replaced) => Some(replaced@),
            Err(_) => None,
        }) == backtracking_replaced(pattern@, text@, replacement@),
        pattern@ == FILLERS@ ==> result is Ok && result->Ok_0@
            == without_fillers(text@, true),
{
    let regex = fancy_regex::Regex::new(pattern)?;
    let replaced = regex.try_replacen(text, 0, replacement)?;
    Ok(replaced.into_owned())
}

/// How many dashes `s` starts with.
pub open spec fn leading_dashes(s: Seq<char>) -> nat
    decreases s.len(),
{
    if s.len() > 0 && is_dash(s[0]) {
        1 + leading_dashes(s.drop_first())
    } else {
        0
    }
}

/// How many characters of white space `s` starts with.
pub open spec fn leading_space(s: Seq<char>) -> nat
    decreases s.len(),
{
    if s.len() > 0 && crate::text::white_space(s[0]) {
        1 + leading_space(s.drop_first())
    } else {
        0
    }
}

/// A run at the start of a text is no longer than the text.
pub proof fn lemma_leading(s: Seq<char>)
    ensures
        leading(s, '.') <= s.len(),
        leading_dashes(s) <= s.len(),
        leading_space(s) <= s.len(),
    decreases s.len(),
{
    if s.len() > 0 {
        lemma_leading(s.drop_first());
    }
}

/// `s` with a comma for every run of three dots or more.
pub open spec fn without_ellipses(s: Seq<char>) -> Seq<char>
    decreases s.len(),
{
    let n = leading(s, '.');
    proof {
        lemma_leading(s);
    }
    if s.len() == 0 {
        s
    } else if n >= 3 {
        seq![','] + without_ellipses(s.skip(n as int))
    } else if n == 2 {
        seq!['.', '.'] + without_ellipses(s.skip(2))
    } else {
        seq![s[0]] + without_ellipses(s.drop_first())
    }
}

/// `s` with an em dash between spaces for every run of two dashes or more, and for every hyphen
/// between white space, and the white space around it.
pub open spec fn with_em_dashes(s: Seq<char>) -> Seq<char>
    decreases s.len(),
{
    let before = leading_space(s) as int;
    let dashes = leading_dashes(s.skip(before)) as int;
    let after = leading_space(s.skip(before + dashes)) as int;
    proof {
        lemma_leading(s);
        lemma_leading(s.skip(before));
        lemma_leading(s.skip(before + dashes));
    }
    if s.len() == 0 {
        s
    } else if dashes >= 2 || (dashes == 1 && s[before] == '-' && before > 0 && after > 0) {
        seq![' ', '—', ' '] + with_em_dashes(s.skip(before + dashes + after))
    } else {
        seq![s[0]] + with_em_dashes(s.drop_first())
    }
}

/// `s` with a space between the end of a sentence and a letter right behind it.
pub open spec fn with_spaces(s: Seq<char>) -> Seq<char>
    decreases s.len(),
{
    if s.len() < 2 {
        s
    } else if ends_a_sentence(s[0]) && is_letter(s[1]) {
        seq![s[0], ' '] + with_spaces(s.drop_first())
    } else {
        seq![s[0]] + with_spaces(s.drop_first())
    }
}

/// `s` with the last one only of every run of marks that end a sentence.
pub open spec fn with_single_ends(s: Seq<char>) -> Seq<char>
    decreases s.len(),
{
    if s.len() < 2 {
        s
    } else if ends_a_sentence(s[0]) && ends_a_sentence(s[1]) {
        with_single_ends(s.drop_first())
    } else {
        seq![s[0]] + with_single_ends(s.drop_first())
    }
}

/// `s` without the white space before a punctuation mark.
pub open spec fn with_close_marks(s: Seq<char>) -> Seq<char>
    decreases s.len(),
{
    let n = leading_space(s) as int;
    proof {
        lemma_leading(s);
    }
    if s.len() == 0 {
        s
    } else if 0 < n < s.len() && follows_a_word(s[n]) {
        with_close_marks(s.skip(n))
    } else {
        seq![s[0]] + with_close_marks(s.drop_first())
    }
}

/// `s` with one space for every run of them.
pub open spec fn with_single_spaces(s: Seq<char>) -> Seq<char>
    decreases s.len(),
{
    if s.len() < 2 {
        s
    } else if s.last() == ' ' && s[s.len() - 2] == ' ' {
        with_single_spaces(s.drop_last())
    } else {
        with_single_spaces(s.drop_last()).push(s.last())
    }
}

/// The patterns, each with what its matches are replaced by.
pub open spec fn is_rewrite(pattern: Seq<char>, replacement: Seq<char>) -> bool {
    ||| pattern == ELLIPSIS@ && replacement == ","@
    ||| pattern == DASHES@ && replacement == " — "@
    ||| pattern == MISSING_SPACE@ && replacement == "$1 $2"@
    ||| pattern == DOUBLE_PUNCTUATION@ && replacement == "$1"@
    ||| pattern == SPACE_BEFORE_PUNCTUATION@ && replacement == "$1"@
    ||| pattern == MULTI_SPACE@ && replacement == " "@
}

/// Calls `regex::Regex::replace_all`. From left to right, every stretch of the text that the pattern
/// matches is replaced, as far as its repetitions reach, where `$` with a number stands for what a
/// group matched last. For each pattern the contract says in a spec function what that comes to.
#[verifier::external_body]
pub(crate) fn replace_all(pattern: &str, text: &str, replacement: &str) -> (result: String)
    requires
        is_rewrite(pattern@, replacement@),
    ensures
        pattern@ == ELLIPSIS@ ==> result@ == without_ellipses(text@),
        pattern@ == DASHES@ ==> result@ == with_em_dashes(text@),
        pattern@ == MISSING_SPACE@ ==> result@ == with_spaces(text@),
        pattern@ == DOUBLE_PUNCTUATION@ ==> result@ == with_single_ends(text@),
        pattern@ == SPACE_BEFORE_PUNCTUATION@ ==> result@ == with_close_marks(text@),
        pattern@ == MULTI_SPACE@ ==> result@ == with_single_spaces(text@),
{
    let regex = regex::Regex::new(pattern).unwrap();
    regex.replace_all(text, replacement).into_owned()
}

/// `s` ends in a mark that ends a sentence and white space behind it.
pub open spec fn awaits_a_sentence(s: Seq<char>) -> bool
    decreases s.len(),
{
    &&& s.len() >= 2
    &&& crate::text::white_space(s.last())
    &&& ends_a_sentence(s[s.len() - 2]) || awaits_a_sentence(s.drop_last())
}

/// An ASCII letter in its capital form; any other character as it is.
pub open spec fn capital(c: char) -> char {
    if is_small(c) {
        (c as u32 - 32) as char
    } else {
        c
    }
}

/// `s` with a capital letter at the start of every sentence but the first.
pub open spec fn with_capitals(s: Seq<char>) -> Seq<char> {
    Seq::new(
        s.len(),
        |i: int|
            if awaits_a_sentence(s.take(i)) {
                capital(s[i])
            } else {
                s[i]
            },
    )
}

/// Calls `regex::Regex::replace_all` with a closure that hands the two groups of a match to
/// [`crate::text_middleware::sentence_start`]. A match is a mark that ends a sentence, white space
/// and a small letter, so that every small letter at the start of a sentence becomes a capital one
/// and all else stays.
#[verifier::external_body]
pub(crate) fn replace_sentence_starts(text: &str) -> (result: String)
    ensures
        result@ == with_capitals(text@),
{
    let regex = regex::Regex::new(SENTENCE_START).unwrap();
    let start = |m: &regex::Captures| crate::text_middleware::sentence_start(&m[1], &m[2]);
    regex.replace_all(text, start).into_owned()
}

/// The noise words.
pub open spec fn noise_words() -> Seq<Seq<char>> {
    seq![
        "okay"@, "yeah"@, "yes"@, "no"@, "um"@, "uh"@, "hmm"@, "huh"@, "oh"@, "ah"@, "so"@, "and"@,
        "but"@, "or"@, "the"@, "a"@, "an"@,
    ]
}

/// `s` is `phrase` with any number of punctuation marks behind it.
pub open spec fn phrase_and_marks(s: Seq<char>, phrase: Seq<char>) -> bool {
    &&& s.len() >= phrase.len()
    &&& s.take(phrase.len() as int) == phrase
    &&& forall|i: int|
        phrase.len() <= i < s.len() ==> ends_a_sentence(#[trigger] s[i]) || s[i] == ','
}

/// `s` is one of the phrases that stand for silence.
pub open spec fn made_up_phrase(s: Seq<char>) -> bool {
    phrase_and_marks(s, "thank you"@) || phrase_and_marks(s, "thanks for watching"@)
}

/// Calls `regex::Regex::is_match`. Without regard to case, a text matches the noise-word pattern if
/// and only if it is one of the noise words, and the pattern of made-up phrases if and only if it
/// is one of these with punctuation behind it or without.
#[verifier::external_body]
pub(crate) fn is_match(pattern: &str, text: &str) -> (result: bool)
    requires
        pattern@ == NOISE_WORD@ || pattern@ == HALLUCINATION@,
    ensures
        pattern@ == NOISE_WORD@ ==> result == noise_words().contains(fold(text@)),
        pattern@ == HALLUCINATION@ ==> result == made_up_phrase(fold(text@)),
{
    let regex = regex::Regex::new(pattern).unwrap();
    regex.is_match(text)
}

/// The patterns that the contracts above speak of, letter for letter.
pub proof fn law_patterns_are_these()
    ensures
        FILLERS@
            == r"(?i)(?:^|\s)(?:um+|uh+|ah+|hmm+|huh|like,?\s|you know,?\s|so,?\s|I mean,?\s)(?:\s|[.,!?]|$)"@,
        REPEATED_WORD@ == r"(?i)\b(\w+[,.]?)\s+\1\b"@,
        REPEATED_PHRASE@ == r"(?i)\b((?:\w+\s+){1,3}\w+[,.]?)\s+\1\b"@,
        ELLIPSIS@ == r"\.{3,}"@,
        DASHES@ == r"\s*[-—]{2,}\s*|\s+-\s+"@,
        MISSING_SPACE@ == r"([.!?])([a-zA-Z])"@,
        DOUBLE_PUNCTUATION@ == r"([.!?]){2,}"@,
        SPACE_BEFORE_PUNCTUATION@ == r"\s+([.,!?;:])"@,
        SENTENCE_START@ == r"([.!?]\s+)([a-z])"@,
        NOISE_WORD@ == r"(?i)^(?:okay|yeah|yes|no|um|uh|hmm|huh|oh|ah|so|and|but|or|the|a|an)$"@,
        HALLUCINATION@ == r"(?i)^(?:thank you|thanks for watching)[.,!?]*$"@,
        MULTI_SPACE@ == r" {2,}"@,
{
}

/// A capital letter is made of each small ASCII letter, thirty-two codes below it, and every other
/// character is left alone.
pub proof fn law_capitals_are_those_of_the_letters(c: char)
    ensures
        'a' <= c <= 'z' ==> capital(c) as u32 == c as u32 - 32 && 'A' <= capital(c) <= 'Z',
        !('a' <= c <= 'z') ==> capital(c) == c,
{
}

/// A letter becomes a capital one if and only if a mark that ends a sentence stands before it with
/// white space between them, and nothing else; all other characters stay.
pub proof fn law_sentence_starts_are_capitalized(s: Seq<char>, k: int, i: int)
    requires
        0 <= k,
        k + 1 < i < s.len(),
        s[k] == '.' || s[k] == '!' || s[k] == '?',
        forall|j: int| k < j < i ==> crate::text::white_space(#[trigger] s[j]),
    ensures
        with_capitals(s).len() == s.len(),
        with_capitals(s)[i] == capital(s[i]),
{
    lemma_awaiting(s, k, i);
}

proof fn lemma_awaiting(s: Seq<char>, k: int, i: int)
    requires
        0 <= k,
        k + 1 < i <= s.len(),
        ends_a_sentence(s[k]),
        forall|j: int| k < j < i ==> crate::text::white_space(#[trigger] s[j]),
    ensures
        awaits_a_sentence(s.take(i)),
    decreases i,
{
    let t = s.take(i);
    assert(t.last() == s[i - 1]);
    if k + 2 < i {
        lemma_awaiting(s, k, i - 1);
        assert(t.drop_last() =~= s.take(i - 1));
    } else {
        assert(t[t.len() - 2] == s[k]);
    }
}

/// A character that is changed stands behind the end of a sentence and white space.
pub proof fn law_nothing_else_is_capitalized(s: Seq<char>, i: int)
    requires
        0 <= i < s.len(),
        with_capitals(s)[i] != s[i],
    ensures
        exists|k: int|
            0 <= k < i - 1 && (s[k] == '.' || s[k] == '!' || s[k] == '?') && forall|j: int|
                k < j < i ==> crate::text::white_space(#[trigger] s[j]),
{
    let k = lemma_awaited(s, i);
    assert(s[k] == '.' || s[k] == '!' || s[k] == '?');
}

proof fn lemma_awaited(s: Seq<char>, i: int) -> (k: int)
    requires
        0 <= i <= s.len(),
        awaits_a_sentence(s.take(i)),
    ensures
        0 <= k < i - 1,
        ends_a_sentence(s[k]),
        forall|j: int| k < j < i ==> crate::text::white_space(#[trigger] s[j]),
    decreases i,
{
    let t = s.take(i);
    assert(t.last() == s[i - 1]);
    assert(t[t.len() - 2] == s[i - 2]);
    if ends_a_sentence(s[i - 2]) {
        i - 2
    } else {
        assert(t.drop_last() =~= s.take(i - 1));
        lemma_awaited(s, i - 1)
    }
}

} // verus!
