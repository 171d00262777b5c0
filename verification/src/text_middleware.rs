//! Post-processing between the recogniser and the typist: rule-based clean-up of a transcript.

use vstd::prelude::*;

use crate::patterns::{
    is_match, replace_all, replace_sentence_starts, try_replace_backtracking, DASHES,
    DOUBLE_PUNCTUATION, ELLIPSIS, FILLERS, HALLUCINATION, MISSING_SPACE, MULTI_SPACE, NOISE_WORD,
    REPEATED_PHRASE, REPEATED_WORD, SPACE_BEFORE_PUNCTUATION,
};
use crate::text::{count_words, from_chars, same_text, to_chars, trim};

verus! {

/// How often a pass that collapses repetitions runs at most.
pub const COLLAPSE_ROUNDS: u32 = 3;

/// How many words make a text a sentence that is to end in a full stop.
pub const SENTENCE_WORDS: usize = 4;

/// `text` after `rounds` replacements of what `pattern` repeats by its first occurrence.
pub open spec fn collapsed(pattern: Seq<char>, text: Seq<char>, rounds: nat) -> Option<Seq<char>>
    decreases rounds,
{
    if rounds == 0 {
        Some(text)
    } else {
        match crate::patterns::backtracking_replaced(pattern, text, "$1"@) {
            Some(once) => collapsed(pattern, once, (rounds - 1) as nat),
            None => None,
        }
    }
}

proof fn lemma_collapsed_fixpoint(pattern: Seq<char>, text: Seq<char>, rounds: nat)
    requires
        crate::patterns::backtracking_replaced(pattern, text, "$1"@) == Some(text),
    ensures
        collapsed(pattern, text, rounds) == Some(text),
    decreases rounds,
{
    if rounds > 0 {
        lemma_collapsed_fixpoint(pattern, text, (rounds - 1) as nat);
    }
}

/// Collapses what a pattern finds repeated, until nothing changes or the rounds are used up.
fn collapse(pattern: &str, text: String) -> (result: Option<String>)
    requires
        crate::patterns::is_repetition(pattern@),
    ensures
        (match result {
            Some(t) => Some(t@),
            None => None,
        }) == collapsed(pattern@, text@, COLLAPSE_ROUNDS as nat),
{
    let ghost start = text@;
    let mut current: String = text;
    let mut left: u32 = COLLAPSE_ROUNDS;
    while left > 0
        invariant
            crate::patterns::is_repetition(pattern@),
            start == text@,
            collapsed(pattern@, start, COLLAPSE_ROUNDS as nat) == collapsed(
                pattern@,
                current@,
                left as nat,
            ),
        decreases left,
    {
        let next: String = match try_replace_backtracking(pattern, current.as_str(), "$1") {
            Ok(next) => next,
            Err(_) => {
                return None;
            },
        };
        if same_text(next.as_str(), current.as_str()) {
            proof {
                lemma_collapsed_fixpoint(pattern@, current@, left as nat);
            }
            return Some(next);
        }
        current = next;
        left = left - 1;
    }
    Some(current)
}

/// `raw` without filler words and with repeated words and phrases said once; nothing where a
/// search gives up.
pub open spec fn condensed(raw: Seq<char>) -> Option<Seq<char>> {
    let plain = crate::patterns::without_fillers(raw, true);
    match collapsed(REPEATED_WORD@, plain, COLLAPSE_ROUNDS as nat) {
        Some(words) => collapsed(REPEATED_PHRASE@, words, COLLAPSE_ROUNDS as nat),
        None => None,
    }
}

/// Removes filler words, then collapses repeated words and repeated phrases.
pub fn condense(raw: &str) -> (result: Option<String>)
    ensures
        (match result {
            Some(text) => Some(text@),
            None => None,
        }) == condensed(raw@),
{
    let plain: String = match try_replace_backtracking(FILLERS, raw, " ") {
        Ok(plain) => plain,
        Err(_) => {
            return None;
        },
    };
    match collapse(REPEATED_WORD, plain) {
        Some(words) => collapse(REPEATED_PHRASE, words),
        None => None,
    }
}

/// The length of what is taken out of `text` at `i`; 0 where no filler starts there.
pub open spec fn filler_at(text: Seq<char>, i: int, at_start: bool) -> nat {
    crate::patterns::filler_length(text.skip(i), at_start && i == 0)
}

/// The first filler of a text is taken out: what stands before it stays as it is, a space takes its
/// place, and what stands behind it is treated in the same way. The text is all there is, or what is
/// left of a longer one.
#[verifier::spinoff_prover]
pub proof fn law_first_filler_is_removed(text: Seq<char>, i: int, at_start: bool)
    requires
        0 <= i < text.len(),
        forall|j: int| 0 <= j < i ==> #[trigger] filler_at(text, j, at_start) == 0,
        filler_at(text, i, at_start) > 0,
    ensures
        crate::patterns::without_fillers(text, at_start) == text.take(i) + seq![' ']
            + crate::patterns::without_fillers(
            text.skip(i + filler_at(text, i, at_start)),
            false,
        ),
    decreases i,
{
    let n = filler_at(text, i, at_start) as int;
    let after = crate::patterns::without_fillers(text.skip(i + n), false);
    assert(text.skip(0) =~= text);
    if i == 0 {
        assert(text.take(0) + seq![' '] =~= seq![' ']);
    } else {
        let tail = text.drop_first();
        assert(filler_at(text, 0, at_start) == 0);
        assert forall|j: int| 0 <= j < i - 1 implies #[trigger] filler_at(tail, j, false) == 0 by {
            assert(tail.skip(j) =~= text.skip(j + 1));
            assert(filler_at(text, j + 1, at_start) == 0);
        }
        assert(tail.skip(i - 1) =~= text.skip(i));
        assert(tail.skip(i - 1 + n) =~= text.skip(i + n));
        law_first_filler_is_removed(tail, i - 1, false);
        assert(seq![text[0]] + (tail.take(i - 1) + seq![' '] + after) =~= text.take(i) + seq![' ']
            + after);
    }
}

/// A text without a filler stays as it is.
#[verifier::spinoff_prover]
pub proof fn law_text_without_fillers_is_kept(text: Seq<char>, at_start: bool)
    requires
        forall|j: int| 0 <= j < text.len() ==> #[trigger] filler_at(text, j, at_start) == 0,
    ensures
        crate::patterns::without_fillers(text, at_start) == text,
    decreases text.len(),
{
    if text.len() > 0 {
        let tail = text.drop_first();
        assert(text.skip(0) =~= text);
        assert(filler_at(text, 0, at_start) == 0);
        assert forall|j: int| 0 <= j < tail.len() implies #[trigger] filler_at(tail, j, false)
            == 0 by {
            assert(tail.skip(j) =~= text.skip(j + 1));
            assert(filler_at(text, j + 1, at_start) == 0);
        }
        law_text_without_fillers_is_kept(tail, false);
        assert(seq![text[0]] + tail =~= text);
    }
}

/// `text` with its ellipses, dashes, sentence ends and the spaces around them in order.
pub open spec fn punctuated(text: Seq<char>) -> Seq<char> {
    let commas = crate::patterns::without_ellipses(text);
    let dashes = crate::patterns::with_em_dashes(commas);
    let spaced = crate::patterns::with_spaces(dashes);
    let single = crate::patterns::with_single_ends(spaced);
    crate::patterns::with_close_marks(single)
}

/// Puts punctuation in order: an ellipsis becomes a comma, a run of dashes an em dash, a run of
/// sentence ends the last of them; a space is put behind a sentence end and taken away before a
/// punctuation mark.
pub fn punctuate(text: &str) -> (result: String)
    ensures
        result@ == punctuated(text@),
{
    let commas: String = replace_all(ELLIPSIS, text, ",");
    let dashes: String = replace_all(DASHES, commas.as_str(), " — ");
    let spaced: String = replace_all(MISSING_SPACE, dashes.as_str(), "$1 $2");
    let single: String = replace_all(DOUBLE_PUNCTUATION, spaced.as_str(), "$1");
    replace_all(SPACE_BEFORE_PUNCTUATION, single.as_str(), "$1")
}

fn to_capital(c: char) -> (result: char)
    ensures
        result == crate::patterns::capital(c),
{
    if 'a' <= c && c <= 'z' {
        (c as u8 - 32) as char
    } else {
        c
    }
}

/// `text` with a capital first letter, if that is an ASCII one.
pub open spec fn first_capitalized(text: Seq<char>) -> Seq<char> {
    if text.len() > 0 {
        text.update(0, crate::patterns::capital(text[0]))
    } else {
        text
    }
}

/// Capitalizes the first character of a text.
pub fn capitalize_first(text: &str) -> (result: String)
    ensures
        result@ == first_capitalized(text@),
{
    let mut chars: Vec<char> = to_chars(text);
    if chars.len() > 0 {
        let first: char = to_capital(chars[0]);
        chars.set(0, first);
    }
    assert(chars@.subrange(0, chars@.len() as int) =~= first_capitalized(text@));
    from_chars(chars.as_slice(), 0, chars.len())
}

/// The start of a sentence, with what ends the one before it: the letter becomes a capital one.
pub fn sentence_start(end: &str, letter: &str) -> (result: String)
    ensures
        result@ == end@ + first_capitalized(letter@),
{
    let mut result: String = end.to_string();
    let start: String = capitalize_first(letter);
    result.append(start.as_str());
    result
}

/// Capitalizes the letter behind the end of a sentence, and changes nothing else.
pub fn capitalize_sentences(text: &str) -> (result: String)
    ensures
        result@ == crate::patterns::with_capitals(text@),
{
    replace_sentence_starts(text)
}

/// The text `text` is no speech: one noise word, or a phrase made up out of silence.
pub open spec fn no_speech(text: Seq<char>) -> bool {
    let plain = crate::patterns::fold(text);
    ||| crate::text::word_count(text) == 1 && crate::patterns::noise_words().contains(plain)
    ||| crate::patterns::made_up_phrase(plain)
}

/// Whether a text is a lone noise word or a made-up phrase.
pub fn is_no_speech(text: &str) -> (result: bool)
    ensures
        result == no_speech(text@),
{
    let noise: bool = is_match(NOISE_WORD, text);
    let made_up: bool = is_match(HALLUCINATION, text);
    (count_words(text) == 1 && noise) || made_up
}

/// `s` without the commas at its start.
pub open spec fn without_leading_commas(s: Seq<char>) -> Seq<char>
    decreases s.len(),
{
    if s.len() > 0 && s[0] == ',' {
        without_leading_commas(s.drop_first())
    } else {
        s
    }
}

proof fn lemma_without_leading_commas(s: Seq<char>, n: int)
    requires
        0 <= n <= s.len(),
        forall|i: int| 0 <= i < n ==> #[trigger] s[i] == ',',
        n < s.len() ==> s[n] != ',',
    ensures
        without_leading_commas(s) == s.skip(n),
    decreases n,
{
    if n > 0 {
        let rest = s.drop_first();
        assert(s[0] == ',');
        assert forall|i: int| 0 <= i < n - 1 implies #[trigger] rest[i] == ',' by {
            assert(rest[i] == s[i + 1]);
        }
        lemma_without_leading_commas(rest, n - 1);
        assert(rest.skip(n - 1) =~= s.skip(n));
    } else {
        assert(s.skip(0) =~= s);
    }
}

fn strip_leading_commas(text: &str) -> (result: String)
    ensures
        result@ == without_leading_commas(text@),
{
    let chars: Vec<char> = to_chars(text);
    let mut n: usize = 0;
    while n < chars.len() && chars[n] == ','
        invariant
            n <= chars@.len(),
            forall|i: int| 0 <= i < n ==> #[trigger] chars@[i] == ',',
        decreases chars@.len() - n,
    {
        n = n + 1;
    }
    proof {
        lemma_without_leading_commas(chars@, n as int);
        assert(chars@.skip(n as int) =~= chars@.subrange(n as int, chars@.len() as int));
    }
    from_chars(chars.as_slice(), n, chars.len())
}

/// A mark that needs no full stop behind it.
pub open spec fn closing_mark(c: char) -> bool {
    c == '.' || c == '!' || c == '?' || c == ',' || c == ':'
}

/// `text` without the space at its ends and the commas at its start.
pub open spec fn stripped(text: Seq<char>) -> Seq<char> {
    crate::text::trimmed(without_leading_commas(crate::text::trimmed(text)))
}

/// `text` stripped, and with a full stop where a sentence lacks an end.
pub open spec fn closed(text: Seq<char>) -> Seq<char> {
    let bare = stripped(text);
    if bare.len() > 0 && !closing_mark(bare.last()) && crate::text::word_count(bare)
        >= SENTENCE_WORDS {
        bare.push('.')
    } else {
        bare
    }
}

/// Strips the space and the commas that earlier passes left at the ends of a text, and ends a
/// sentence with a full stop.
pub fn close_sentence(text: &str) -> (result: String)
    ensures
        result@ == closed(text@),
{
    let outer: String = trim(text);
    let bare: String = strip_leading_commas(outer.as_str());
    let mut result: String = trim(bare.as_str());
    let chars: Vec<char> = to_chars(result.as_str());
    let n: usize = chars.len();
    if n > 0 {
        let last: char = chars[n - 1];
        if !(last == '.' || last == '!' || last == '?' || last == ',' || last == ':') {
            if count_words(result.as_str()) >= SENTENCE_WORDS {
                result.push('.');
            }
        }
    }
    result
}

/// What comes of a text whose words are condensed.
pub open spec fn polished(text: Seq<char>) -> Seq<char> {
    let cased = crate::patterns::with_capitals(first_capitalized(punctuated(text)));
    let whole = closed(crate::patterns::with_single_spaces(cased));
    if no_speech(whole) {
        Seq::empty()
    } else {
        whole
    }
}

/// Puts a condensed text's punctuation, capitals and spaces in order, and drops one that is no
/// speech.
pub fn polish(text: &str) -> (result: String)
    ensures
        result@ == polished(text@),
        presentable(result@),
        !no_speech(result@),
        in_order(text@) ==> result@ == text@,
{
    proof {
        law_polished_is_presentable(text@);
        law_polished_is_speech(text@);
        if in_order(text@) {
            law_text_in_order_is_kept(text@);
        }
    }
    let ordered: String = punctuate(text);
    let begun: String = capitalize_first(ordered.as_str());
    let cased: String = capitalize_sentences(begun.as_str());
    let spaced: String = replace_all(MULTI_SPACE, cased.as_str(), " ");
    let whole: String = close_sentence(spaced.as_str());
    if is_no_speech(whole.as_str()) {
        String::new()
    } else {
        whole
    }
}

/// The transcript `raw` after all passes; nothing where a search gives up.
pub open spec fn cleaned(raw: Seq<char>) -> Option<Seq<char>> {
    match condensed(raw) {
        Some(text) => Some(polished(text)),
        None => None,
    }
}

/// Cleans a raw transcript on which no search gives up.
pub fn clean_text(raw: &str) -> (result: String)
    requires
        cleaned(raw@) is Some,
    ensures
        Some(result@) == cleaned(raw@),
        presentable(result@),
        !no_speech(result@),
        in_order(raw@) && condensed(raw@) == Some(raw@) ==> result@ == raw@,
{
    match condense(raw) {
        Some(text) => polish(text.as_str()),
        None => String::new(),
    }
}

/// Cleans a raw transcript; nothing where a search gives up.
pub fn try_clean_text(raw: &str) -> (result: Option<String>)
    ensures
        (match result {
            Some(text) => Some(text@),
            None => None,
        }) == cleaned(raw@),
        result matches Some(text) ==> presentable(text@) && !no_speech(text@),
{
    match condense(raw) {
        Some(_) => Some(clean_text(raw)),
        None => None,
    }
}

/// What two characters side by side can be.
pub enum Fault {
    /// Two dashes.
    DoubleDash,
    /// A letter right behind the end of a sentence.
    MissingSpace,
    /// White space before a punctuation mark.
    SpaceBeforeMark,
    /// Two spaces.
    DoubleSpace,
    /// Two marks that end a sentence.
    DoubleEnd,
}

/// `a` and `b` side by side are at fault.
pub open spec fn at_fault(fault: Fault, a: char, b: char) -> bool {
    match fault {
        Fault::DoubleDash => crate::patterns::is_dash(a) && crate::patterns::is_dash(b),
        Fault::MissingSpace => crate::patterns::ends_a_sentence(a) && crate::patterns::is_letter(b),
        Fault::SpaceBeforeMark => crate::text::white_space(a) && crate::patterns::follows_a_word(b),
        Fault::DoubleSpace => a == ' ' && b == ' ',
        Fault::DoubleEnd => crate::patterns::ends_a_sentence(a)
            && crate::patterns::ends_a_sentence(b),
    }
}

/// No two characters side by side in `s` are at fault.
pub open spec fn free_of(s: Seq<char>, fault: Fault) -> bool {
    forall|i: int| 0 <= i < s.len() - 1 ==> !at_fault(fault, #[trigger] s[i], s[i + 1])
}

/// No sentence but the first starts with a small letter.
pub open spec fn well_cased(s: Seq<char>) -> bool {
    forall|i: int|
        0 <= i < s.len() && crate::patterns::awaits_a_sentence(s.take(i))
            ==> !crate::patterns::is_small(#[trigger] s[i])
}

/// A text as the middleware leaves it. No space stands at its ends, before a punctuation mark or
/// beside another space, but one stands behind every sentence; no two dashes stand side by side; it
/// does not start with a comma; a sentence starts with no small letter but perhaps the first, and
/// the last one has a closing mark.
pub open spec fn presentable(text: Seq<char>) -> bool {
    &&& crate::text::is_trimmed(text)
    &&& free_of(text, Fault::DoubleDash)
    &&& free_of(text, Fault::MissingSpace)
    &&& free_of(text, Fault::SpaceBeforeMark)
    &&& free_of(text, Fault::DoubleSpace)
    &&& well_cased(text)
    &&& text.len() > 0 ==> text[0] != ','
    &&& crate::text::word_count(text) >= SENTENCE_WORDS ==> closing_mark(text.last())
}

/// No hyphen of `s` stands between white space.
pub open spec fn no_lone_hyphen(s: Seq<char>) -> bool {
    forall|i: int|
        0 < i < s.len() - 1 && #[trigger] s[i] == '-' ==> !(crate::text::white_space(s[i - 1])
            && crate::text::white_space(s[i + 1]))
}

/// A text in which there is nothing to put in order: it is presentable, no two sentence ends stand
/// side by side, no hyphen stands between white space, it does not start with a small letter, and it
/// is speech.
pub open spec fn in_order(text: Seq<char>) -> bool {
    &&& presentable(text)
    &&& free_of(text, Fault::DoubleEnd)
    &&& no_lone_hyphen(text)
    &&& text.len() > 0 ==> !crate::patterns::is_small(text[0])
    &&& !no_speech(text)
}

proof fn lemma_free_cons(c: char, s: Seq<char>, fault: Fault)
    requires
        free_of(s, fault),
        s.len() > 0 ==> !at_fault(fault, c, s[0]),
    ensures
        free_of(seq![c] + s, fault),
{
    let longer = seq![c] + s;
    assert forall|i: int| 0 <= i < longer.len() - 1 implies !at_fault(
        fault,
        #[trigger] longer[i],
        longer[i + 1],
    ) by {
        if i > 0 {
            assert(longer[i] == s[i - 1]);
            assert(longer[i + 1] == s[i]);
        }
    }
}

proof fn lemma_free_part(s: Seq<char>, from: int, to: int, fault: Fault)
    requires
        0 <= from <= to <= s.len(),
        free_of(s, fault),
    ensures
        free_of(s.subrange(from, to), fault),
{
    let part = s.subrange(from, to);
    assert forall|i: int| 0 <= i < part.len() - 1 implies !at_fault(
        fault,
        #[trigger] part[i],
        part[i + 1],
    ) by {
        assert(part[i] == s[from + i]);
    }
}

proof fn lemma_free_tail(s: Seq<char>, fault: Fault)
    requires
        s.len() > 0,
        free_of(s, fault),
    ensures
        free_of(s.drop_first(), fault),
        s.len() > 1 ==> !at_fault(fault, s[0], s[1]),
{
    lemma_free_part(s, 1, s.len() as int, fault);
    assert(s.drop_first() =~= s.subrange(1, s.len() as int));
    if s.len() > 1 {
        let first = s[0];
        assert(!at_fault(fault, first, s[0int + 1]));
    }
}

proof fn lemma_em_dashes(s: Seq<char>)
    ensures
        free_of(crate::patterns::with_em_dashes(s), Fault::DoubleDash),
        crate::patterns::with_em_dashes(s).len() > 0 ==> s.len() > 0 && (
        crate::patterns::with_em_dashes(s)[0] == s[0] || crate::patterns::with_em_dashes(s)[0]
            == ' '),
    decreases s.len(),
{
    let before = crate::patterns::leading_space(s) as int;
    let dashes = crate::patterns::leading_dashes(s.skip(before)) as int;
    let after = crate::patterns::leading_space(s.skip(before + dashes)) as int;
    crate::patterns::lemma_leading(s);
    crate::patterns::lemma_leading(s.skip(before));
    crate::patterns::lemma_leading(s.skip(before + dashes));
    if s.len() == 0 {
    } else if dashes >= 2 || (dashes == 1 && s[before] == '-' && before > 0 && after > 0) {
        let rest = crate::patterns::with_em_dashes(s.skip(before + dashes + after));
        lemma_em_dashes(s.skip(before + dashes + after));
        lemma_free_cons(' ', rest, Fault::DoubleDash);
        lemma_free_cons('—', seq![' '] + rest, Fault::DoubleDash);
        lemma_free_cons(' ', seq!['—'] + (seq![' '] + rest), Fault::DoubleDash);
        assert(seq![' '] + (seq!['—'] + (seq![' '] + rest)) =~= seq![' ', '—', ' '] + rest);
    } else {
        let rest = crate::patterns::with_em_dashes(s.drop_first());
        lemma_em_dashes(s.drop_first());
        if crate::patterns::is_dash(s[0]) && s.len() > 1 {
            reveal_with_fuel(crate::patterns::leading_dashes, 2);
            assert(before == 0);
            assert(s.skip(0) =~= s);
            assert(s.drop_first()[0] == s[1]);
            assert(!crate::patterns::is_dash(s[1]));
        }
        lemma_free_cons(s[0], rest, Fault::DoubleDash);
    }
}

proof fn lemma_spaces(s: Seq<char>)
    ensures
        free_of(crate::patterns::with_spaces(s), Fault::MissingSpace),
        free_of(s, Fault::DoubleDash) ==> free_of(
            crate::patterns::with_spaces(s),
            Fault::DoubleDash,
        ),
        s.len() > 0 ==> crate::patterns::with_spaces(s).len() > 0
            && crate::patterns::with_spaces(s)[0] == s[0],
    decreases s.len(),
{
    if s.len() >= 2 {
        let rest = crate::patterns::with_spaces(s.drop_first());
        lemma_spaces(s.drop_first());
        if free_of(s, Fault::DoubleDash) {
            lemma_free_tail(s, Fault::DoubleDash);
        }
        if crate::patterns::ends_a_sentence(s[0]) && crate::patterns::is_letter(s[1]) {
            lemma_free_cons(' ', rest, Fault::MissingSpace);
            lemma_free_cons(s[0], seq![' '] + rest, Fault::MissingSpace);
            if free_of(s, Fault::DoubleDash) {
                lemma_free_cons(' ', rest, Fault::DoubleDash);
                lemma_free_cons(s[0], seq![' '] + rest, Fault::DoubleDash);
            }
            assert(seq![s[0]] + (seq![' '] + rest) =~= seq![s[0], ' '] + rest);
        } else {
            lemma_free_cons(s[0], rest, Fault::MissingSpace);
            if free_of(s, Fault::DoubleDash) {
                lemma_free_cons(s[0], rest, Fault::DoubleDash);
            }
        }
    }
}

proof fn lemma_single_ends(s: Seq<char>, fault: Fault)
    requires
        fault == Fault::DoubleDash || fault == Fault::MissingSpace,
        free_of(s, fault),
    ensures
        free_of(crate::patterns::with_single_ends(s), fault),
        s.len() > 0 ==> {
            let first = crate::patterns::with_single_ends(s)[0];
            &&& crate::patterns::with_single_ends(s).len() > 0
            &&& first == s[0] || (crate::patterns::ends_a_sentence(s[0])
                && crate::patterns::ends_a_sentence(first))
        },
    decreases s.len(),
{
    if s.len() >= 2 {
        lemma_free_tail(s, fault);
        lemma_single_ends(s.drop_first(), fault);
        if !(crate::patterns::ends_a_sentence(s[0]) && crate::patterns::ends_a_sentence(s[1])) {
            lemma_free_cons(s[0], crate::patterns::with_single_ends(s.drop_first()), fault);
        }
    }
}

proof fn lemma_after_space(s: Seq<char>)
    ensures
        ({
            let n = crate::patterns::leading_space(s) as int;
            &&& n <= s.len()
            &&& n < s.len() ==> !crate::text::white_space(s[n])
            &&& n > 0 <==> s.len() > 0 && crate::text::white_space(s[0])
            &&& n > 0 ==> crate::patterns::leading_space(s.drop_first()) == n - 1
        }),
    decreases s.len(),
{
    if s.len() > 0 {
        lemma_after_space(s.drop_first());
    }
}

proof fn lemma_close_marks(s: Seq<char>, fault: Fault)
    requires
        fault == Fault::DoubleDash || fault == Fault::MissingSpace || fault
            == Fault::SpaceBeforeMark,
        fault != Fault::SpaceBeforeMark ==> free_of(s, fault),
    ensures
        free_of(crate::patterns::with_close_marks(s), fault),
        s.len() > 0 ==> {
            let n = crate::patterns::leading_space(s) as int;
            &&& crate::patterns::with_close_marks(s).len() > 0
            &&& crate::patterns::with_close_marks(s)[0] == if 0 < n < s.len()
                && crate::patterns::follows_a_word(s[n]) {
                s[n]
            } else {
                s[0]
            }
        },
    decreases s.len(),
{
    lemma_after_space(s);
    let n = crate::patterns::leading_space(s) as int;
    if s.len() == 0 {
    } else if 0 < n < s.len() && crate::patterns::follows_a_word(s[n]) {
        if fault != Fault::SpaceBeforeMark {
            lemma_free_part(s, n, s.len() as int, fault);
        }
        assert(s.skip(n) =~= s.subrange(n, s.len() as int));
        lemma_after_space(s.skip(n));
        lemma_close_marks(s.skip(n), fault);
    } else {
        if fault != Fault::SpaceBeforeMark {
            lemma_free_tail(s, fault);
        }
        lemma_after_space(s.drop_first());
        lemma_close_marks(s.drop_first(), fault);
        lemma_free_cons(s[0], crate::patterns::with_close_marks(s.drop_first()), fault);
    }
}

/// `b` is `a` with some ASCII letters in their capital form.
spec fn differs_in_capitals(a: Seq<char>, b: Seq<char>) -> bool {
    &&& a.len() == b.len()
    &&& forall|i: int|
        0 <= i < a.len() ==> #[trigger] b[i] == a[i] || b[i] == crate::patterns::capital(a[i])
}

proof fn lemma_capitals_free(a: Seq<char>, b: Seq<char>, fault: Fault)
    requires
        differs_in_capitals(a, b),
        free_of(a, fault),
    ensures
        free_of(b, fault),
{
    assert forall|i: int| 0 <= i < b.len() - 1 implies !at_fault(
        fault,
        #[trigger] b[i],
        b[i + 1],
    ) by {
        let next = b[i + 1];
        assert(!at_fault(fault, a[i], a[i + 1]));
    }
}

proof fn lemma_capitals_awaiting(a: Seq<char>, b: Seq<char>)
    requires
        differs_in_capitals(a, b),
    ensures
        crate::patterns::awaits_a_sentence(b) == crate::patterns::awaits_a_sentence(a),
    decreases a.len(),
{
    if a.len() >= 2 {
        let last = b[b.len() - 1];
        let other = b[b.len() - 2];
        assert(differs_in_capitals(a.drop_last(), b.drop_last())) by {
            assert forall|i: int| 0 <= i < a.len() - 1 implies #[trigger] b.drop_last()[i]
                == a.drop_last()[i] || b.drop_last()[i] == crate::patterns::capital(
                a.drop_last()[i],
            ) by {
                let c = b[i];
            }
        }
        lemma_capitals_awaiting(a.drop_last(), b.drop_last());
    }
}

proof fn lemma_capitals_well_cased(s: Seq<char>)
    ensures
        differs_in_capitals(s, crate::patterns::with_capitals(s)),
        well_cased(crate::patterns::with_capitals(s)),
{
    let result = crate::patterns::with_capitals(s);
    assert forall|i: int|
        0 <= i < result.len() && crate::patterns::awaits_a_sentence(
            result.take(i),
        ) implies !crate::patterns::is_small(#[trigger] result[i]) by {
        assert(differs_in_capitals(s.take(i), result.take(i))) by {
            assert forall|j: int| 0 <= j < i implies #[trigger] result.take(i)[j] == s.take(i)[j]
                || result.take(i)[j] == crate::patterns::capital(s.take(i)[j]) by {
                let c = result[j];
            }
        }
        lemma_capitals_awaiting(s.take(i), result.take(i));
    }
}

proof fn lemma_single_spaces(s: Seq<char>)
    ensures
        s.len() > 0 ==> crate::patterns::with_single_spaces(s).len() > 0
            && crate::patterns::with_single_spaces(s).last() == s.last(),
        free_of(crate::patterns::with_single_spaces(s), Fault::DoubleSpace),
        crate::patterns::awaits_a_sentence(crate::patterns::with_single_spaces(s))
            == crate::patterns::awaits_a_sentence(s),
    decreases s.len(),
{
    if s.len() >= 2 {
        lemma_single_spaces(s.drop_last());
        let before = crate::patterns::with_single_spaces(s.drop_last());
        if !(s.last() == ' ' && s[s.len() - 2] == ' ') {
            lemma_free_push(before, s.last(), Fault::DoubleSpace);
            assert(before.push(s.last()).drop_last() =~= before);
        }
    }
}

proof fn lemma_free_push(s: Seq<char>, c: char, fault: Fault)
    requires
        free_of(s, fault),
        s.len() > 0 ==> !at_fault(fault, s.last(), c),
    ensures
        free_of(s.push(c), fault),
{
    let longer = s.push(c);
    assert forall|i: int| 0 <= i < longer.len() - 1 implies !at_fault(
        fault,
        #[trigger] longer[i],
        longer[i + 1],
    ) by {
        if i < s.len() - 1 {
            assert(longer[i] == s[i]);
        }
    }
}

proof fn lemma_single_spaces_free(s: Seq<char>, fault: Fault)
    requires
        free_of(s, fault),
    ensures
        free_of(crate::patterns::with_single_spaces(s), fault),
    decreases s.len(),
{
    if s.len() >= 2 {
        lemma_free_part(s, 0, s.len() - 1, fault);
        assert(s.drop_last() =~= s.subrange(0, s.len() - 1));
        lemma_single_spaces_free(s.drop_last(), fault);
        lemma_single_spaces(s.drop_last());
        assert(!at_fault(fault, s[s.len() - 2], s[s.len() - 2 + 1]));
        if !(s.last() == ' ' && s[s.len() - 2] == ' ') {
            lemma_free_push(
                crate::patterns::with_single_spaces(s.drop_last()),
                s.last(),
                fault,
            );
        }
    }
}

proof fn lemma_well_cased_push(s: Seq<char>, c: char)
    ensures
        well_cased(s.push(c)) <==> well_cased(s) && !(crate::patterns::is_small(c)
            && crate::patterns::awaits_a_sentence(s)),
{
    let longer = s.push(c);
    assert(longer.take(s.len() as int) =~= s);
    assert forall|i: int| 0 <= i < s.len() implies longer.take(i) == #[trigger] s.take(i) by {
        assert(longer.take(i) =~= s.take(i));
    }
    if well_cased(longer) {
        assert(longer[s.len() as int] == c);
        assert forall|i: int|
            0 <= i < s.len() && crate::patterns::awaits_a_sentence(
                s.take(i),
            ) implies !crate::patterns::is_small(#[trigger] s[i]) by {
            assert(longer[i] == s[i]);
        }
    }
}

proof fn lemma_single_spaces_well_cased(s: Seq<char>)
    requires
        well_cased(s),
    ensures
        well_cased(crate::patterns::with_single_spaces(s)),
    decreases s.len(),
{
    if s.len() >= 2 {
        assert(s.drop_last().push(s.last()) =~= s);
        lemma_well_cased_push(s.drop_last(), s.last());
        lemma_single_spaces_well_cased(s.drop_last());
        lemma_single_spaces(s.drop_last());
        lemma_well_cased_push(crate::patterns::with_single_spaces(s.drop_last()), s.last());
    }
}

proof fn lemma_part_awaiting(s: Seq<char>, from: int)
    requires
        0 <= from <= s.len(),
        crate::patterns::awaits_a_sentence(s.skip(from)),
    ensures
        crate::patterns::awaits_a_sentence(s),
    decreases s.len(),
{
    let part = s.skip(from);
    assert(part.last() == s.last());
    assert(part[part.len() - 2] == s[s.len() - 2]);
    if !crate::patterns::ends_a_sentence(s[s.len() - 2]) {
        assert(part.drop_last() =~= s.drop_last().skip(from));
        lemma_part_awaiting(s.drop_last(), from);
    }
}

proof fn lemma_well_cased_part(s: Seq<char>, from: int, to: int)
    requires
        0 <= from <= to <= s.len(),
        well_cased(s),
    ensures
        well_cased(s.subrange(from, to)),
{
    let part = s.subrange(from, to);
    assert forall|i: int|
        0 <= i < part.len() && crate::patterns::awaits_a_sentence(
            part.take(i),
        ) implies !crate::patterns::is_small(#[trigger] part[i]) by {
        assert(part.take(i) =~= s.take(from + i).skip(from));
        lemma_part_awaiting(s.take(from + i), from);
        assert(part[i] == s[from + i]);
    }
}

/// What the closing of a text keeps: it takes a part of the text, and may put a full stop behind
/// it.
#[verifier::opaque]
spec fn well_formed_text(s: Seq<char>) -> bool {
    &&& free_of(s, Fault::DoubleDash)
    &&& free_of(s, Fault::MissingSpace)
    &&& free_of(s, Fault::SpaceBeforeMark)
    &&& free_of(s, Fault::DoubleSpace)
    &&& well_cased(s)
}

proof fn lemma_well_formed_part(s: Seq<char>, from: int, to: int)
    requires
        0 <= from <= to <= s.len(),
        well_formed_text(s),
    ensures
        well_formed_text(s.subrange(from, to)),
{
    reveal(well_formed_text);
    lemma_free_part(s, from, to, Fault::DoubleDash);
    lemma_free_part(s, from, to, Fault::MissingSpace);
    lemma_free_part(s, from, to, Fault::SpaceBeforeMark);
    lemma_free_part(s, from, to, Fault::DoubleSpace);
    lemma_well_cased_part(s, from, to);
}

proof fn lemma_well_formed_push(s: Seq<char>)
    requires
        well_formed_text(s),
        crate::text::is_trimmed(s),
    ensures
        well_formed_text(s.push('.')),
{
    reveal(well_formed_text);
    lemma_free_push(s, '.', Fault::DoubleDash);
    lemma_free_push(s, '.', Fault::MissingSpace);
    lemma_free_push(s, '.', Fault::SpaceBeforeMark);
    lemma_free_push(s, '.', Fault::DoubleSpace);
    lemma_well_cased_push(s, '.');
}

proof fn lemma_no_mark_after_space(s: Seq<char>, i: int)
    requires
        well_formed_text(s),
        0 <= i < s.len() - 1,
        crate::text::white_space(s[i]),
    ensures
        !crate::patterns::follows_a_word(s[i + 1]),
{
    reveal(well_formed_text);
    assert(!at_fault(Fault::SpaceBeforeMark, s[i], s[i + 1]));
}

/// Closing a text keeps it in good form, and makes it presentable.
#[verifier::spinoff_prover]
proof fn lemma_closed_presentable(text: Seq<char>)
    requires
        well_formed_text(text),
    ensures
        presentable(closed(text)),
{
    let outer = crate::text::trimmed(text);
    let inner = without_leading_commas(outer);
    let bare = stripped(text);
    let (a, b) = crate::text::lemma_trimmed_is_part(text);
    lemma_well_formed_part(text, a, b);
    let n = lemma_commas_are_leading(outer);
    lemma_well_formed_part(outer, n, outer.len() as int);
    let (from, to) = crate::text::lemma_trimmed_is_part(inner);
    lemma_well_formed_part(inner, from, to);
    crate::text::lemma_trimmed_is_trimmed(inner);
    if bare.len() == 0 {
        assert(crate::text::word_count(bare) == 0);
    } else {
        if from > 0 {
            lemma_no_mark_after_space(inner, from - 1);
        }
        assert(bare[0] == inner[from]);
        assert(bare[0] != ',');
        lemma_well_formed_push(bare);
    }
    reveal(well_formed_text);
}

/// A text without its leading commas is its part from the first other character on.
proof fn lemma_commas_are_leading(s: Seq<char>) -> (n: int)
    ensures
        0 <= n <= s.len(),
        without_leading_commas(s) == s.subrange(n, s.len() as int),
        n < s.len() ==> s[n] != ',',
    decreases s.len(),
{
    if s.len() > 0 && s[0] == ',' {
        let rest = s.drop_first();
        let m = lemma_commas_are_leading(rest);
        assert(rest.subrange(m, rest.len() as int) =~= s.subrange(m + 1, s.len() as int));
        m + 1
    } else {
        assert(s.subrange(0, s.len() as int) =~= s);
        0
    }
}

/// Whatever text is put in order, what is left is never a lone noise word or a made-up phrase.
pub proof fn law_polished_is_speech(text: Seq<char>)
    ensures
        !no_speech(polished(text)),
{
    let nothing = Seq::<char>::empty();
    assert(crate::text::word_count(nothing) == 0);
    reveal_strlit("thank you");
    reveal_strlit("thanks for watching");
    assert("thank you"@.len() > 0 && "thanks for watching"@.len() > 0);
    assert(crate::patterns::fold(nothing).len() == 0);
}

/// Whatever text is put in order, the result is presentable.
#[verifier::spinoff_prover]
pub proof fn law_polished_is_presentable(text: Seq<char>)
    ensures
        presentable(polished(text)),
{
    let dashes = crate::patterns::with_em_dashes(crate::patterns::without_ellipses(text));
    lemma_em_dashes(crate::patterns::without_ellipses(text));
    let spaced = crate::patterns::with_spaces(dashes);
    lemma_spaces(dashes);
    let single = crate::patterns::with_single_ends(spaced);
    lemma_single_ends(spaced, Fault::DoubleDash);
    lemma_single_ends(spaced, Fault::MissingSpace);
    let ordered = punctuated(text);
    lemma_close_marks(single, Fault::DoubleDash);
    lemma_close_marks(single, Fault::MissingSpace);
    lemma_close_marks(single, Fault::SpaceBeforeMark);
    let begun = first_capitalized(ordered);
    lemma_capitals_free(ordered, begun, Fault::DoubleDash);
    lemma_capitals_free(ordered, begun, Fault::MissingSpace);
    lemma_capitals_free(ordered, begun, Fault::SpaceBeforeMark);
    let cased = crate::patterns::with_capitals(begun);
    lemma_capitals_well_cased(begun);
    lemma_capitals_free(begun, cased, Fault::DoubleDash);
    lemma_capitals_free(begun, cased, Fault::MissingSpace);
    lemma_capitals_free(begun, cased, Fault::SpaceBeforeMark);
    lemma_single_spaces(cased);
    lemma_single_spaces_free(cased, Fault::DoubleDash);
    lemma_single_spaces_free(cased, Fault::MissingSpace);
    lemma_single_spaces_free(cased, Fault::SpaceBeforeMark);
    lemma_single_spaces_well_cased(cased);
    reveal(well_formed_text);
    lemma_closed_presentable(crate::patterns::with_single_spaces(cased));
    assert(crate::text::word_count(Seq::<char>::empty()) == 0);
}

proof fn lemma_kept_by_dots(s: Seq<char>)
    requires
        free_of(s, Fault::DoubleEnd),
    ensures
        crate::patterns::without_ellipses(s) == s,
    decreases s.len(),
{
    if s.len() > 0 {
        reveal_with_fuel(crate::patterns::leading, 2);
        lemma_free_tail(s, Fault::DoubleEnd);
        lemma_kept_by_dots(s.drop_first());
        if s.len() > 1 {
            assert(s.drop_first()[0] == s[1]);
        }
        assert(crate::patterns::leading(s, '.') <= 1);
        assert(seq![s[0]] + s.drop_first() =~= s);
    }
}

proof fn lemma_kept_by_dashes(s: Seq<char>)
    requires
        free_of(s, Fault::DoubleDash),
        no_lone_hyphen(s),
    ensures
        crate::patterns::with_em_dashes(s) == s,
    decreases s.len(),
{
    if s.len() > 0 {
        lemma_free_tail(s, Fault::DoubleDash);
        assert(no_lone_hyphen(s.drop_first())) by {
            let rest = s.drop_first();
            assert forall|i: int| 0 < i < rest.len() - 1 && #[trigger] rest[i] == '-' implies !(
            crate::text::white_space(rest[i - 1]) && crate::text::white_space(rest[i + 1])) by {
                assert(s[i + 1] == '-');
            }
        }
        lemma_kept_by_dashes(s.drop_first());
        let n = crate::patterns::leading_space(s) as int;
        crate::patterns::lemma_leading(s);
        let t = s.skip(n);
        reveal_with_fuel(crate::patterns::leading_dashes, 2);
        if t.len() > 1 {
            assert(!at_fault(Fault::DoubleDash, s[n], s[n + 1]));
            assert(t.drop_first()[0] == s[n + 1]);
        }
        assert(crate::patterns::leading_dashes(t) <= 1);
        let d = crate::patterns::leading_dashes(t) as int;
        let after = s.skip(n + d);
        lemma_after_space(after);
        lemma_last_of_space(s);
        if d == 1 && s[n] == '-' && n > 0 && crate::patterns::leading_space(after) > 0 {
            assert(after[0] == s[n + 1]);
        }
        assert(seq![s[0]] + s.drop_first() =~= s);
    }
}

proof fn lemma_kept_by_spaces(s: Seq<char>)
    requires
        free_of(s, Fault::MissingSpace),
    ensures
        crate::patterns::with_spaces(s) == s,
    decreases s.len(),
{
    if s.len() >= 2 {
        lemma_free_tail(s, Fault::MissingSpace);
        lemma_kept_by_spaces(s.drop_first());
        assert(seq![s[0]] + s.drop_first() =~= s);
    }
}

proof fn lemma_kept_by_ends(s: Seq<char>)
    requires
        free_of(s, Fault::DoubleEnd),
    ensures
        crate::patterns::with_single_ends(s) == s,
    decreases s.len(),
{
    if s.len() >= 2 {
        lemma_free_tail(s, Fault::DoubleEnd);
        lemma_kept_by_ends(s.drop_first());
        assert(seq![s[0]] + s.drop_first() =~= s);
    }
}

proof fn lemma_last_of_space(s: Seq<char>)
    ensures
        crate::patterns::leading_space(s) > 0 ==> crate::text::white_space(
            s[crate::patterns::leading_space(s) - 1],
        ),
    decreases s.len(),
{
    if s.len() > 0 && crate::text::white_space(s[0]) {
        let rest = s.drop_first();
        lemma_last_of_space(rest);
        crate::patterns::lemma_leading(rest);
        if crate::patterns::leading_space(rest) > 0 {
            assert(rest[crate::patterns::leading_space(rest) - 1]
                == s[crate::patterns::leading_space(rest) as int]);
        }
    }
}

proof fn lemma_kept_by_marks(s: Seq<char>)
    requires
        free_of(s, Fault::SpaceBeforeMark),
    ensures
        crate::patterns::with_close_marks(s) == s,
    decreases s.len(),
{
    if s.len() > 0 {
        lemma_free_tail(s, Fault::SpaceBeforeMark);
        lemma_kept_by_marks(s.drop_first());
        let n = crate::patterns::leading_space(s) as int;
        lemma_last_of_space(s);
        if 0 < n < s.len() {
            assert(!at_fault(Fault::SpaceBeforeMark, s[n - 1], s[n - 1 + 1]));
        }
        assert(seq![s[0]] + s.drop_first() =~= s);
    }
}

proof fn lemma_kept_by_single_spaces(s: Seq<char>)
    requires
        free_of(s, Fault::DoubleSpace),
    ensures
        crate::patterns::with_single_spaces(s) == s,
    decreases s.len(),
{
    if s.len() >= 2 {
        lemma_free_part(s, 0, s.len() - 1, Fault::DoubleSpace);
        assert(s.drop_last() =~= s.subrange(0, s.len() - 1));
        lemma_kept_by_single_spaces(s.drop_last());
        assert(!at_fault(Fault::DoubleSpace, s[s.len() - 2], s[s.len() - 2 + 1]));
        assert(s.drop_last().push(s.last()) =~= s);
    }
}

/// A text in which there is nothing to put in order comes back as it is.
pub proof fn law_text_in_order_is_kept(text: Seq<char>)
    requires
        in_order(text),
    ensures
        polished(text) == text,
{
    lemma_kept_by_dots(text);
    lemma_kept_by_dashes(text);
    lemma_kept_by_spaces(text);
    lemma_kept_by_ends(text);
    lemma_kept_by_marks(text);
    assert(punctuated(text) == text);
    assert(first_capitalized(text) =~= text);
    assert(crate::patterns::with_capitals(text) =~= text);
    crate::text::lemma_trimmed_again(text);
    lemma_kept_by_single_spaces(text);
    assert(without_leading_commas(text) == text);
    assert(closed(text) == text);
}

/// `s` starts with white space and a mark behind it that ends a sentence.
pub open spec fn space_and_end(s: Seq<char>) -> bool {
    let n = crate::patterns::leading_space(s) as int;
    0 < n < s.len() && crate::patterns::ends_a_sentence(s[n])
}

/// `s` starts with a mark that ends a sentence.
pub open spec fn starts_with_end(s: Seq<char>) -> bool {
    s.len() > 0 && crate::patterns::ends_a_sentence(s[0])
}

/// No two marks of `s` that end a sentence have white space between them, and nothing else.
pub open spec fn ends_apart(s: Seq<char>) -> bool
    decreases s.len(),
{
    s.len() > 0 ==> !(starts_with_end(s) && space_and_end(s.drop_first())) && ends_apart(
        s.drop_first(),
    )
}

proof fn lemma_apart_tail(s: Seq<char>, n: int)
    requires
        0 <= n <= s.len(),
        ends_apart(s),
    ensures
        ends_apart(s.skip(n)),
    decreases n,
{
    if n > 0 {
        lemma_apart_tail(s.drop_first(), n - 1);
        assert(s.drop_first().skip(n - 1) =~= s.skip(n));
    } else {
        assert(s.skip(0) =~= s);
    }
}

/// What a pass must keep so that sentence ends stay apart.
spec fn no_new_end(s: Seq<char>, result: Seq<char>) -> bool {
    &&& ends_apart(result)
    &&& space_and_end(result) ==> space_and_end(s)
    &&& starts_with_end(result) ==> starts_with_end(s)
}

proof fn lemma_apart_cons(s: Seq<char>, rest: Seq<char>)
    requires
        s.len() > 0,
        ends_apart(s),
        no_new_end(s.drop_first(), rest),
    ensures
        no_new_end(s, seq![s[0]] + rest),
{
    let result = seq![s[0]] + rest;
    assert(result.drop_first() =~= rest);
    lemma_after_space(rest);
    lemma_after_space(result);
    lemma_after_space(s);
    lemma_after_space(s.drop_first());
    if crate::text::white_space(s[0]) {
        let n = crate::patterns::leading_space(rest) as int;
        if n < rest.len() {
            assert(result[n + 1] == rest[n]);
        }
        let m = crate::patterns::leading_space(s.drop_first()) as int;
        if m < s.len() - 1 {
            assert(s[m + 1] == s.drop_first()[m]);
        }
    }
}

proof fn lemma_apart_other(c: char, s: Seq<char>)
    requires
        ends_apart(s),
        !crate::patterns::ends_a_sentence(c),
    ensures
        ends_apart(seq![c] + s),
{
    assert((seq![c] + s).drop_first() =~= s);
}

proof fn lemma_apart_dots(s: Seq<char>)
    requires
        ends_apart(s),
    ensures
        no_new_end(s, crate::patterns::without_ellipses(s)),
    decreases s.len(),
{
    let n = crate::patterns::leading(s, '.');
    crate::patterns::lemma_leading(s);
    if s.len() == 0 {
    } else if n >= 3 {
        lemma_apart_tail(s, n as int);
        lemma_apart_dots(s.skip(n as int));
        let rest = crate::patterns::without_ellipses(s.skip(n as int));
        lemma_apart_other(',', rest);
        lemma_after_space(seq![','] + rest);
    } else if n == 2 {
        reveal_with_fuel(crate::patterns::leading, 3);
        let rest = crate::patterns::without_ellipses(s.skip(2));
        assert(s.drop_first()[0] == s[1]);
        assert(s.drop_first().drop_first() =~= s.skip(2));
        lemma_apart_tail(s, 2);
        lemma_apart_dots(s.skip(2));
        lemma_apart_cons(s.drop_first(), rest);
        lemma_apart_cons(s, seq![s[1]] + rest);
        assert(seq![s[0]] + (seq![s[1]] + rest) =~= seq!['.', '.'] + rest);
    } else {
        lemma_apart_dots(s.drop_first());
        lemma_apart_cons(s, crate::patterns::without_ellipses(s.drop_first()));
    }
}

proof fn lemma_apart_dashes(s: Seq<char>)
    requires
        ends_apart(s),
    ensures
        no_new_end(s, crate::patterns::with_em_dashes(s)),
    decreases s.len(),
{
    let before = crate::patterns::leading_space(s) as int;
    let dashes = crate::patterns::leading_dashes(s.skip(before)) as int;
    let after = crate::patterns::leading_space(s.skip(before + dashes)) as int;
    crate::patterns::lemma_leading(s);
    crate::patterns::lemma_leading(s.skip(before));
    crate::patterns::lemma_leading(s.skip(before + dashes));
    if s.len() == 0 {
    } else if dashes >= 2 || (dashes == 1 && s[before] == '-' && before > 0 && after > 0) {
        let rest = crate::patterns::with_em_dashes(s.skip(before + dashes + after));
        lemma_apart_tail(s, before + dashes + after);
        lemma_apart_dashes(s.skip(before + dashes + after));
        let one = seq![' '] + rest;
        let two = seq!['—'] + one;
        let three = seq![' '] + two;
        lemma_apart_other(' ', rest);
        lemma_apart_other('—', one);
        lemma_apart_other(' ', two);
        assert(three =~= seq![' ', '—', ' '] + rest);
        lemma_after_space(three);
        lemma_after_space(two);
        assert(three.drop_first() =~= two);
        assert(three[1] == '—');
    } else {
        lemma_apart_dashes(s.drop_first());
        lemma_apart_cons(s, crate::patterns::with_em_dashes(s.drop_first()));
    }
}

proof fn lemma_apart_spaces(s: Seq<char>)
    requires
        ends_apart(s),
    ensures
        no_new_end(s, crate::patterns::with_spaces(s)),
    decreases s.len(),
{
    if s.len() >= 2 {
        let rest = crate::patterns::with_spaces(s.drop_first());
        lemma_apart_spaces(s.drop_first());
        if crate::patterns::ends_a_sentence(s[0]) && crate::patterns::is_letter(s[1]) {
            lemma_spaces(s.drop_first());
            let spaced = seq![' '] + rest;
            let result = seq![s[0]] + spaced;
            lemma_apart_other(' ', rest);
            assert(spaced.drop_first() =~= rest);
            assert(result.drop_first() =~= spaced);
            lemma_after_space(rest);
            lemma_after_space(spaced);
            lemma_after_space(result);
            assert(spaced[1] == s[1]);
            assert(result =~= seq![s[0], ' '] + rest);
        } else {
            lemma_apart_cons(s, rest);
        }
    }
}

proof fn lemma_apart_single(s: Seq<char>)
    requires
        ends_apart(s),
    ensures
        no_new_end(s, crate::patterns::with_single_ends(s)),
        free_of(crate::patterns::with_single_ends(s), Fault::DoubleEnd),
        s.len() > 0 ==> {
            let first = crate::patterns::with_single_ends(s)[0];
            &&& crate::patterns::with_single_ends(s).len() > 0
            &&& first == s[0] || crate::patterns::ends_a_sentence(s[0])
        },
    decreases s.len(),
{
    if s.len() >= 2 {
        let rest = crate::patterns::with_single_ends(s.drop_first());
        lemma_apart_single(s.drop_first());
        if crate::patterns::ends_a_sentence(s[0]) && crate::patterns::ends_a_sentence(s[1]) {
            lemma_after_space(s.drop_first());
        } else {
            lemma_apart_cons(s, rest);
            lemma_free_cons(s[0], rest, Fault::DoubleEnd);
        }
    }
}

proof fn lemma_apart_marks(s: Seq<char>)
    requires
        ends_apart(s),
        free_of(s, Fault::DoubleEnd),
    ensures
        free_of(crate::patterns::with_close_marks(s), Fault::DoubleEnd),
        s.len() > 0 ==> {
            let n = crate::patterns::leading_space(s) as int;
            &&& crate::patterns::with_close_marks(s).len() > 0
            &&& crate::patterns::with_close_marks(s)[0] == if 0 < n < s.len()
                && crate::patterns::follows_a_word(s[n]) {
                s[n]
            } else {
                s[0]
            }
        },
    decreases s.len(),
{
    lemma_after_space(s);
    let n = crate::patterns::leading_space(s) as int;
    if s.len() == 0 {
    } else if 0 < n < s.len() && crate::patterns::follows_a_word(s[n]) {
        lemma_free_part(s, n, s.len() as int, Fault::DoubleEnd);
        assert(s.skip(n) =~= s.subrange(n, s.len() as int));
        lemma_apart_tail(s, n);
        lemma_after_space(s.skip(n));
        lemma_apart_marks(s.skip(n));
    } else {
        lemma_free_tail(s, Fault::DoubleEnd);
        lemma_after_space(s.drop_first());
        lemma_apart_marks(s.drop_first());
        lemma_free_cons(
            s[0],
            crate::patterns::with_close_marks(s.drop_first()),
            Fault::DoubleEnd,
        );
    }
}

/// No two sentence ends stand side by side in a text that has been put in order, an ellipsis among
/// them, unless nothing but white space stood between two of them before.
#[verifier::spinoff_prover]
pub proof fn law_sentences_end_once(text: Seq<char>)
    requires
        ends_apart(text),
    ensures
        free_of(polished(text), Fault::DoubleEnd),
{
    let commas = crate::patterns::without_ellipses(text);
    lemma_apart_dots(text);
    let dashes = crate::patterns::with_em_dashes(commas);
    lemma_apart_dashes(commas);
    let spaced = crate::patterns::with_spaces(dashes);
    lemma_apart_spaces(dashes);
    let single = crate::patterns::with_single_ends(spaced);
    lemma_apart_single(spaced);
    lemma_apart_marks(single);
    let ordered = punctuated(text);
    let begun = first_capitalized(ordered);
    lemma_capitals_free(ordered, begun, Fault::DoubleEnd);
    let cased = crate::patterns::with_capitals(begun);
    lemma_capitals_well_cased(begun);
    lemma_capitals_free(begun, cased, Fault::DoubleEnd);
    lemma_single_spaces_free(cased, Fault::DoubleEnd);
    let squeezed = crate::patterns::with_single_spaces(cased);
    let (a, b) = crate::text::lemma_trimmed_is_part(squeezed);
    lemma_free_part(squeezed, a, b, Fault::DoubleEnd);
    let outer = crate::text::trimmed(squeezed);
    let n = lemma_commas_are_leading(outer);
    lemma_free_part(outer, n, outer.len() as int, Fault::DoubleEnd);
    let inner = without_leading_commas(outer);
    let (from, to) = crate::text::lemma_trimmed_is_part(inner);
    lemma_free_part(inner, from, to, Fault::DoubleEnd);
    let bare = stripped(squeezed);
    if bare.len() > 0 && !closing_mark(bare.last()) {
        lemma_free_push(bare, '.', Fault::DoubleEnd);
    }
}

/// Putting a text in order once more changes nothing, if no sentence ends had white space alone
/// between them, and what came of it has no hyphen between white space and starts with no small
/// letter.
pub proof fn law_polishing_again_changes_nothing(text: Seq<char>)
    requires
        ends_apart(text),
        no_lone_hyphen(polished(text)),
        polished(text).len() > 0 ==> !crate::patterns::is_small(polished(text)[0]),
    ensures
        polished(polished(text)) == polished(text),
{
    law_polished_is_presentable(text);
    law_polished_is_speech(text);
    law_sentences_end_once(text);
    law_text_in_order_is_kept(polished(text));
}

/// `c` is `letter`, or another form of it where case does not count.
pub open spec fn is_form_of(c: char, letter: char) -> bool {
    ||| c == letter
    ||| 'a' <= letter <= 'z' && c as u32 + 32 == letter as u32
    ||| letter == 'k' && c == '\u{212a}'
    ||| letter == 's' && c == '\u{17f}'
}

/// `text` is `word`, where case does not count.
pub open spec fn reads(text: Seq<char>, word: Seq<char>) -> bool {
    &&& text.len() == word.len()
    &&& forall|i: int| 0 <= i < text.len() ==> is_form_of(#[trigger] text[i], word[i])
}

/// `text` is `phrase`, where case does not count, with nothing but the marks `.`, `,`, `!` and `?`
/// behind it.
pub open spec fn reads_with_marks(text: Seq<char>, phrase: Seq<char>) -> bool {
    &&& text.len() >= phrase.len()
    &&& reads(text.take(phrase.len() as int), phrase)
    &&& forall|i: int|
        phrase.len() <= i < text.len() ==> {
            ||| #[trigger] text[i] == '.'
            ||| text[i] == ','
            ||| text[i] == '!'
            ||| text[i] == '?'
        }
}

/// All of `word` is small ASCII letters and spaces.
spec fn plain_word(word: Seq<char>) -> bool {
    forall|i: int| 0 <= i < word.len() ==> 'a' <= #[trigger] word[i] <= 'z' || word[i] == ' '
}

proof fn lemma_reads(text: Seq<char>, word: Seq<char>)
    requires
        plain_word(word),
    ensures
        crate::patterns::fold(text) == word <==> reads(text, word),
{
    let plain = crate::patterns::fold(text);
    if plain == word {
        assert forall|i: int| 0 <= i < text.len() implies is_form_of(#[trigger] text[i], word[i]) by {
            assert(plain[i] == crate::patterns::folded(text[i]));
            assert(plain[i] == word[i]);
        }
    }
    if reads(text, word) {
        assert forall|i: int| 0 <= i < text.len() implies plain[i] == word[i] by {
            assert(is_form_of(text[i], word[i]));
            let w = word[i];
        }
        assert(plain =~= word);
    }
}

proof fn lemma_phrase(text: Seq<char>, phrase: Seq<char>)
    requires
        plain_word(phrase),
    ensures
        crate::patterns::phrase_and_marks(crate::patterns::fold(text), phrase) <==> reads_with_marks(
            text,
            phrase,
        ),
{
    let plain = crate::patterns::fold(text);
    let k = phrase.len() as int;
    if text.len() >= k {
        assert(plain.take(k) =~= crate::patterns::fold(text.take(k)));
        lemma_reads(text.take(k), phrase);
        assert forall|i: int| k <= i < text.len() implies plain[i] == crate::patterns::folded(
            #[trigger] text[i],
        ) by {}
        if crate::patterns::phrase_and_marks(plain, phrase) {
            assert forall|i: int| k <= i < text.len() implies {
                ||| #[trigger] text[i] == '.'
                ||| text[i] == ','
                ||| text[i] == '!'
                ||| text[i] == '?'
            } by {
                let c = plain[i];
                assert(crate::patterns::ends_a_sentence(c) || c == ',');
            }
        }
        if reads_with_marks(text, phrase) {
            assert forall|i: int| k <= i < plain.len() implies crate::patterns::ends_a_sentence(
                #[trigger] plain[i],
            ) || plain[i] == ',' by {
                let c = text[i];
            }
        }
    }
}

spec fn noise_at(i: int) -> Seq<char> {
    crate::patterns::noise_words()[i]
}

proof fn lemma_unbroken(text: Seq<char>, word: Seq<char>)
    requires
        reads(text, word),
        word.len() > 0,
        forall|i: int| 0 <= i < word.len() ==> 'a' <= #[trigger] word[i] <= 'z',
    ensures
        crate::text::word_count(text) == 1,
{
    assert forall|i: int| 0 <= i < text.len() implies !crate::text::white_space(
        #[trigger] text[i],
    ) by {
        assert(is_form_of(text[i], word[i]));
        let w = word[i];
        crate::text::law_white_space_is_unicode_white_space(text[i]);
    }
    crate::text::law_unbroken_text_is_one_word(text);
}

/// One of the seventeen noise words, where case does not count.
pub open spec fn reads_as_noise(s: Seq<char>) -> bool {
    ||| reads(s, "okay"@)
    ||| reads(s, "yeah"@)
    ||| reads(s, "yes"@)
    ||| reads(s, "no"@)
    ||| reads(s, "um"@)
    ||| reads(s, "uh"@)
    ||| reads(s, "hmm"@)
    ||| reads(s, "huh"@)
    ||| reads(s, "oh"@)
    ||| reads(s, "ah"@)
    ||| reads(s, "so"@)
    ||| reads(s, "and"@)
    ||| reads(s, "but"@)
    ||| reads(s, "or"@)
    ||| reads(s, "the"@)
    ||| reads(s, "a"@)
    ||| reads(s, "an"@)
}

proof fn lemma_noise_words(text: Seq<char>)
    ensures
        crate::patterns::noise_words().contains(crate::patterns::fold(text)) <==> reads_as_noise(
            text,
        ),
        reads_as_noise(text) ==> crate::text::word_count(text) == 1,
{
    reveal_strlit("okay");
    reveal_strlit("yeah");
    reveal_strlit("yes");
    reveal_strlit("no");
    reveal_strlit("um");
    reveal_strlit("uh");
    reveal_strlit("hmm");
    reveal_strlit("huh");
    reveal_strlit("oh");
    reveal_strlit("ah");
    reveal_strlit("so");
    reveal_strlit("and");
    reveal_strlit("but");
    reveal_strlit("or");
    reveal_strlit("the");
    reveal_strlit("a");
    reveal_strlit("an");
    lemma_reads(text, "okay"@);
    lemma_reads(text, "yeah"@);
    lemma_reads(text, "yes"@);
    lemma_reads(text, "no"@);
    lemma_reads(text, "um"@);
    lemma_reads(text, "uh"@);
    lemma_reads(text, "hmm"@);
    lemma_reads(text, "huh"@);
    lemma_reads(text, "oh"@);
    lemma_reads(text, "ah"@);
    lemma_reads(text, "so"@);
    lemma_reads(text, "and"@);
    lemma_reads(text, "but"@);
    lemma_reads(text, "or"@);
    lemma_reads(text, "the"@);
    lemma_reads(text, "a"@);
    lemma_reads(text, "an"@);
    assert(noise_at(0) == "okay"@);
    assert(noise_at(1) == "yeah"@);
    assert(noise_at(2) == "yes"@);
    assert(noise_at(3) == "no"@);
    assert(noise_at(4) == "um"@);
    assert(noise_at(5) == "uh"@);
    assert(noise_at(6) == "hmm"@);
    assert(noise_at(7) == "huh"@);
    assert(noise_at(8) == "oh"@);
    assert(noise_at(9) == "ah"@);
    assert(noise_at(10) == "so"@);
    assert(noise_at(11) == "and"@);
    assert(noise_at(12) == "but"@);
    assert(noise_at(13) == "or"@);
    assert(noise_at(14) == "the"@);
    assert(noise_at(15) == "a"@);
    assert(noise_at(16) == "an"@);
    let plain = crate::patterns::fold(text);
    let all = crate::patterns::noise_words();
    assert(all.len() == 17);
    if all.contains(plain) {
        let i = choose|i: int| 0 <= i < all.len() && all[i] == plain;
        assert(all[i] == noise_at(i));
        assert(0 <= i < 17);
    }
    if reads_as_noise(text) {
        let i: int = if reads(text, "okay"@) { 0 } else if reads(text, "yeah"@) { 1 } else if reads(text, "yes"@) { 2 } else if reads(text, "no"@) { 3 } else if reads(text, "um"@) { 4 } else if reads(text, "uh"@) { 5 } else if reads(text, "hmm"@) { 6 } else if reads(text, "huh"@) { 7 } else if reads(text, "oh"@) { 8 } else if reads(text, "ah"@) { 9 } else if reads(text, "so"@) { 10 } else if reads(text, "and"@) { 11 } else if reads(text, "but"@) { 12 } else if reads(text, "or"@) { 13 } else if reads(text, "the"@) { 14 } else if reads(text, "a"@) { 15 } else { 16 };
        assert(all[i] == plain);
        lemma_unbroken(text, noise_at(i));
    }
}

/// A text is no speech if and only if, where case does not count, it is one of the seventeen noise
/// words, or it is "thank you" or "thanks for watching" with nothing but the marks `.`, `,`, `!` and
/// `?` behind it.
pub proof fn law_no_speech_is_noise_or_made_up(text: Seq<char>)
    ensures
        no_speech(text) <==> {
            ||| reads(text, "okay"@)
            ||| reads(text, "yeah"@)
            ||| reads(text, "yes"@)
            ||| reads(text, "no"@)
            ||| reads(text, "um"@)
            ||| reads(text, "uh"@)
            ||| reads(text, "hmm"@)
            ||| reads(text, "huh"@)
            ||| reads(text, "oh"@)
            ||| reads(text, "ah"@)
            ||| reads(text, "so"@)
            ||| reads(text, "and"@)
            ||| reads(text, "but"@)
            ||| reads(text, "or"@)
            ||| reads(text, "the"@)
            ||| reads(text, "a"@)
            ||| reads(text, "an"@)
            ||| reads_with_marks(text, "thank you"@)
            ||| reads_with_marks(text, "thanks for watching"@)
        },
{
    reveal_strlit("thank you");
    reveal_strlit("thanks for watching");
    lemma_noise_words(text);
    lemma_phrase(text, "thank you"@);
    lemma_phrase(text, "thanks for watching"@);
}

/// The character is part of a word: no white space, no punctuation mark and no dash.
pub open spec fn counts(c: char) -> bool {
    &&& !crate::text::white_space(c)
    &&& c != '.' && c != '!' && c != '?' && c != ',' && c != ';' && c != ':'
    &&& c != '-' && c != '—'
}

/// The characters of `s` that are part of its words, in order.
pub open spec fn word_characters(s: Seq<char>) -> Seq<char>
    decreases s.len(),
{
    if s.len() == 0 {
        s
    } else if counts(s.last()) {
        word_characters(s.drop_last()).push(s.last())
    } else {
        word_characters(s.drop_last())
    }
}

proof fn lemma_counted_add_up(a: Seq<char>, b: Seq<char>)
    ensures
        word_characters(a + b) == word_characters(a) + word_characters(b),
    decreases b.len(),
{
    if b.len() == 0 {
        assert(a + b =~= a);
        assert(word_characters(a) + word_characters(b) =~= word_characters(a));
    } else {
        lemma_counted_add_up(a, b.drop_last());
        assert((a + b).drop_last() =~= a + b.drop_last());
        assert((a + b).last() == b.last());
        assert(word_characters(a + b) =~= word_characters(a) + word_characters(b));
    }
}

proof fn lemma_counted_none(s: Seq<char>)
    requires
        forall|i: int| 0 <= i < s.len() ==> !counts(#[trigger] s[i]),
    ensures
        word_characters(s).len() == 0,
    decreases s.len(),
{
    if s.len() > 0 {
        let before = s.drop_last();
        assert forall|i: int| 0 <= i < before.len() implies !counts(#[trigger] before[i]) by {
            assert(before[i] == s[i]);
        }
        assert(!counts(s[s.len() - 1]));
        lemma_counted_none(before);
    }
}

proof fn lemma_counted_all(s: Seq<char>)
    requires
        forall|i: int| 0 <= i < s.len() ==> counts(#[trigger] s[i]),
    ensures
        word_characters(s) == s,
    decreases s.len(),
{
    if s.len() > 0 {
        let before = s.drop_last();
        assert forall|i: int| 0 <= i < before.len() implies counts(#[trigger] before[i]) by {
            assert(before[i] == s[i]);
        }
        assert(counts(s[s.len() - 1]));
        lemma_counted_all(before);
        assert(before.push(s.last()) =~= s);
    }
}

/// What is put in place of the first `n` characters of `s`, and what comes behind it.
proof fn lemma_counted_step(s: Seq<char>, n: int, put: Seq<char>, rest: Seq<char>)
    requires
        0 <= n <= s.len(),
        word_characters(put) == word_characters(s.take(n)),
        word_characters(rest) == word_characters(s.skip(n)),
    ensures
        word_characters(put + rest) == word_characters(s),
{
    lemma_counted_add_up(put, rest);
    lemma_counted_add_up(s.take(n), s.skip(n));
    assert(s.take(n) + s.skip(n) =~= s);
}

proof fn lemma_counted_same(s: Seq<char>, rest: Seq<char>)
    requires
        s.len() > 0,
        word_characters(rest) == word_characters(s.drop_first()),
    ensures
        word_characters(seq![s[0]] + rest) == word_characters(s),
{
    assert(s.take(1) =~= seq![s[0]]);
    assert(s.skip(1) =~= s.drop_first());
    lemma_counted_step(s, 1, seq![s[0]], rest);
}

proof fn lemma_dots_are_dots(s: Seq<char>)
    ensures
        crate::patterns::leading(s, '.') <= s.len(),
        forall|i: int| 0 <= i < crate::patterns::leading(s, '.') ==> #[trigger] s[i] == '.',
    decreases s.len(),
{
    if s.len() > 0 && s[0] == '.' {
        let rest = s.drop_first();
        lemma_dots_are_dots(rest);
        assert forall|i: int| 0 <= i < crate::patterns::leading(s, '.') implies #[trigger] s[i]
            == '.' by {
            if i > 0 {
                assert(rest[i - 1] == s[i]);
            }
        }
    }
}

proof fn lemma_space_is_space(s: Seq<char>)
    ensures
        crate::patterns::leading_space(s) <= s.len(),
        forall|i: int|
            0 <= i < crate::patterns::leading_space(s) ==> crate::text::white_space(
                #[trigger] s[i],
            ),
    decreases s.len(),
{
    if s.len() > 0 && crate::text::white_space(s[0]) {
        let rest = s.drop_first();
        lemma_space_is_space(rest);
        assert forall|i: int| 0 <= i < crate::patterns::leading_space(s) implies
            crate::text::white_space(#[trigger] s[i]) by {
            if i > 0 {
                assert(rest[i - 1] == s[i]);
            }
        }
    }
}

proof fn lemma_dashes_are_dashes(s: Seq<char>)
    ensures
        crate::patterns::leading_dashes(s) <= s.len(),
        forall|i: int|
            0 <= i < crate::patterns::leading_dashes(s) ==> crate::patterns::is_dash(
                #[trigger] s[i],
            ),
    decreases s.len(),
{
    if s.len() > 0 && crate::patterns::is_dash(s[0]) {
        let rest = s.drop_first();
        lemma_dashes_are_dashes(rest);
        assert forall|i: int| 0 <= i < crate::patterns::leading_dashes(s) implies
            crate::patterns::is_dash(#[trigger] s[i]) by {
            if i > 0 {
                assert(rest[i - 1] == s[i]);
            }
        }
    }
}

proof fn lemma_counted_dots(s: Seq<char>)
    ensures
        word_characters(crate::patterns::without_ellipses(s)) == word_characters(s),
    decreases s.len(),
{
    let n = crate::patterns::leading(s, '.') as int;
    lemma_dots_are_dots(s);
    if s.len() == 0 {
    } else if n >= 2 {
        let put = if n >= 3 {
            seq![',']
        } else {
            seq!['.', '.']
        };
        lemma_counted_dots(s.skip(n));
        lemma_counted_none(s.take(n));
        lemma_counted_none(put);
        assert(word_characters(put) =~= word_characters(s.take(n)));
        lemma_counted_step(s, n, put, crate::patterns::without_ellipses(s.skip(n)));
    } else {
        lemma_counted_dots(s.drop_first());
        lemma_counted_same(s, crate::patterns::without_ellipses(s.drop_first()));
    }
}

proof fn lemma_counted_dashes(s: Seq<char>)
    ensures
        word_characters(crate::patterns::with_em_dashes(s)) == word_characters(s),
    decreases s.len(),
{
    let before = crate::patterns::leading_space(s) as int;
    lemma_space_is_space(s);
    let at = s.skip(before);
    let dashes = crate::patterns::leading_dashes(at) as int;
    lemma_dashes_are_dashes(at);
    let behind = s.skip(before + dashes);
    let after = crate::patterns::leading_space(behind) as int;
    lemma_space_is_space(behind);
    let n = before + dashes + after;
    if s.len() == 0 {
    } else if dashes >= 2 || (dashes == 1 && s[before] == '-' && before > 0 && after > 0) {
        let put = seq![' ', '—', ' '];
        lemma_counted_dashes(s.skip(n));
        assert forall|i: int| 0 <= i < n implies !counts(#[trigger] s.take(n)[i]) by {
            if i < before {
                assert(crate::text::white_space(s[i]));
            } else if i < before + dashes {
                assert(crate::patterns::is_dash(at[i - before]));
            } else {
                assert(crate::text::white_space(behind[i - before - dashes]));
            }
        }
        lemma_counted_none(s.take(n));
        lemma_counted_none(put);
        assert(word_characters(put) =~= word_characters(s.take(n)));
        lemma_counted_step(s, n, put, crate::patterns::with_em_dashes(s.skip(n)));
    } else {
        lemma_counted_dashes(s.drop_first());
        lemma_counted_same(s, crate::patterns::with_em_dashes(s.drop_first()));
    }
}

proof fn lemma_counted_spaces(s: Seq<char>)
    ensures
        word_characters(crate::patterns::with_spaces(s)) == word_characters(s),
    decreases s.len(),
{
    if s.len() >= 2 {
        let rest = crate::patterns::with_spaces(s.drop_first());
        lemma_counted_spaces(s.drop_first());
        if crate::patterns::ends_a_sentence(s[0]) && crate::patterns::is_letter(s[1]) {
            let put = seq![s[0], ' '];
            lemma_counted_none(put);
            lemma_counted_none(s.take(1));
            assert(word_characters(put) =~= word_characters(s.take(1)));
            assert(s.skip(1) =~= s.drop_first());
            lemma_counted_step(s, 1, put, rest);
        } else {
            lemma_counted_same(s, rest);
        }
    }
}

proof fn lemma_counted_single(s: Seq<char>)
    ensures
        word_characters(crate::patterns::with_single_ends(s)) == word_characters(s),
    decreases s.len(),
{
    if s.len() >= 2 {
        let rest = crate::patterns::with_single_ends(s.drop_first());
        lemma_counted_single(s.drop_first());
        if crate::patterns::ends_a_sentence(s[0]) && crate::patterns::ends_a_sentence(s[1]) {
            lemma_counted_none(s.take(1));
            assert(word_characters(Seq::<char>::empty()) =~= word_characters(s.take(1)));
            assert(s.skip(1) =~= s.drop_first());
            lemma_counted_step(s, 1, Seq::empty(), rest);
            assert(Seq::<char>::empty() + rest =~= rest);
        } else {
            lemma_counted_same(s, rest);
        }
    }
}

proof fn lemma_counted_marks(s: Seq<char>)
    ensures
        word_characters(crate::patterns::with_close_marks(s)) == word_characters(s),
    decreases s.len(),
{
    let n = crate::patterns::leading_space(s) as int;
    lemma_space_is_space(s);
    if s.len() == 0 {
    } else if 0 < n < s.len() && crate::patterns::follows_a_word(s[n]) {
        let rest = crate::patterns::with_close_marks(s.skip(n));
        lemma_counted_marks(s.skip(n));
        lemma_counted_none(s.take(n));
        assert(word_characters(Seq::<char>::empty()) =~= word_characters(s.take(n)));
        lemma_counted_step(s, n, Seq::empty(), rest);
        assert(Seq::<char>::empty() + rest =~= rest);
    } else {
        lemma_counted_marks(s.drop_first());
        lemma_counted_same(s, crate::patterns::with_close_marks(s.drop_first()));
    }
}

proof fn lemma_counted_single_spaces(s: Seq<char>)
    ensures
        word_characters(crate::patterns::with_single_spaces(s)) == word_characters(s),
    decreases s.len(),
{
    if s.len() >= 2 {
        lemma_counted_single_spaces(s.drop_last());
        let before = crate::patterns::with_single_spaces(s.drop_last());
        assert(before.push(s.last()).drop_last() =~= before);
    }
}

/// `b` is `a`, letter for letter, but that small ASCII letters may have become capital ones.
pub open spec fn same_letters(a: Seq<char>, b: Seq<char>) -> bool {
    &&& a.len() == b.len()
    &&& forall|i: int|
        0 <= i < a.len() ==> #[trigger] b[i] == a[i] || ('a' <= a[i] <= 'z' && b[i] as u32 + 32
            == a[i] as u32)
}

proof fn lemma_counted_capitals(a: Seq<char>, b: Seq<char>)
    requires
        differs_in_capitals(a, b),
    ensures
        same_letters(word_characters(a), word_characters(b)),
    decreases a.len(),
{
    if a.len() > 0 {
        let c = b[b.len() - 1];
        assert(differs_in_capitals(a.drop_last(), b.drop_last())) by {
            assert forall|i: int| 0 <= i < a.len() - 1 implies #[trigger] b.drop_last()[i]
                == a.drop_last()[i] || b.drop_last()[i] == crate::patterns::capital(
                a.drop_last()[i],
            ) by {
                let d = b[i];
            }
        }
        lemma_counted_capitals(a.drop_last(), b.drop_last());
        crate::text::law_white_space_is_unicode_white_space(a.last());
        crate::text::law_white_space_is_unicode_white_space(c);
        let x = word_characters(a.drop_last());
        let y = word_characters(b.drop_last());
        assert(counts(a.last()) == counts(c));
        assert forall|i: int| 0 <= i < word_characters(a).len() implies #[trigger] word_characters(
            b,
        )[i] == word_characters(a)[i] || ('a' <= word_characters(a)[i] <= 'z' && word_characters(
            b,
        )[i] as u32 + 32 == word_characters(a)[i] as u32) by {
            if i < x.len() {
                assert(word_characters(b)[i] == y[i]);
            }
        }
    }
}

proof fn lemma_same_letters_again(a: Seq<char>, b: Seq<char>, c: Seq<char>)
    requires
        same_letters(a, b),
        same_letters(b, c),
    ensures
        same_letters(a, c),
{
    assert forall|i: int| 0 <= i < a.len() implies #[trigger] c[i] == a[i] || ('a' <= a[i] <= 'z'
        && c[i] as u32 + 32 == a[i] as u32) by {
        let d = b[i];
    }
}

proof fn lemma_counted_closed(s: Seq<char>)
    ensures
        word_characters(closed(s)) == word_characters(s),
{
    let outer = crate::text::trimmed(s);
    let inner = without_leading_commas(outer);
    let bare = stripped(s);
    lemma_counted_trimmed(s);
    lemma_counted_commas(outer);
    lemma_counted_trimmed(inner);
    assert(bare.push('.').drop_last() =~= bare);
}

proof fn lemma_counted_commas(s: Seq<char>)
    ensures
        word_characters(without_leading_commas(s)) == word_characters(s),
    decreases s.len(),
{
    if s.len() > 0 && s[0] == ',' {
        let rest = s.drop_first();
        lemma_counted_commas(rest);
        lemma_counted_none(s.take(1));
        lemma_counted_add_up(s.take(1), rest);
        assert(s.take(1) + rest =~= s);
        assert(word_characters(s) =~= word_characters(rest));
    }
}

proof fn lemma_counted_trimmed(s: Seq<char>)
    ensures
        word_characters(crate::text::trimmed(s)) == word_characters(s),
{
    lemma_counted_leading(s);
    lemma_counted_trailing(crate::text::without_leading_space(s));
}

proof fn lemma_counted_leading(s: Seq<char>)
    ensures
        word_characters(crate::text::without_leading_space(s)) == word_characters(s),
    decreases s.len(),
{
    if s.len() > 0 && crate::text::white_space(s[0]) {
        let rest = s.drop_first();
        lemma_counted_leading(rest);
        lemma_counted_none(s.take(1));
        lemma_counted_add_up(s.take(1), rest);
        assert(s.take(1) + rest =~= s);
        assert(word_characters(s) =~= word_characters(rest));
    }
}

proof fn lemma_counted_trailing(s: Seq<char>)
    ensures
        word_characters(crate::text::without_trailing_space(s)) == word_characters(s),
    decreases s.len(),
{
    if s.len() > 0 && crate::text::white_space(s.last()) {
        lemma_counted_trailing(s.drop_last());
    }
}

/// All of a text but its noise: the closed text before it is judged.
spec fn whole_text(text: Seq<char>) -> Seq<char> {
    closed(
        crate::patterns::with_single_spaces(
            crate::patterns::with_capitals(first_capitalized(punctuated(text))),
        ),
    )
}

proof fn lemma_counted_whole(text: Seq<char>)
    ensures
        same_letters(word_characters(text), word_characters(whole_text(text))),
{
    let commas = crate::patterns::without_ellipses(text);
    lemma_counted_dots(text);
    let dashes = crate::patterns::with_em_dashes(commas);
    lemma_counted_dashes(commas);
    let spaced = crate::patterns::with_spaces(dashes);
    lemma_counted_spaces(dashes);
    let single = crate::patterns::with_single_ends(spaced);
    lemma_counted_single(spaced);
    lemma_counted_marks(single);
    let ordered = punctuated(text);
    let begun = first_capitalized(ordered);
    lemma_counted_capitals(ordered, begun);
    let cased = crate::patterns::with_capitals(begun);
    lemma_capitals_well_cased(begun);
    lemma_counted_capitals(begun, cased);
    lemma_same_letters_again(
        word_characters(ordered),
        word_characters(begun),
        word_characters(cased),
    );
    lemma_counted_single_spaces(cased);
    lemma_counted_closed(crate::patterns::with_single_spaces(cased));
}

/// The words of a text that is all noise: a noise word, or one of the made-up phrases.
pub open spec fn words_of_silence(s: Seq<char>) -> bool {
    ||| reads_as_noise(s)
    ||| reads(s, "thankyou"@)
    ||| reads(s, "thanksforwatching"@)
}

proof fn lemma_forms_count(s: Seq<char>, word: Seq<char>)
    requires
        reads(s, word),
        forall|i: int| 0 <= i < word.len() ==> 'a' <= #[trigger] word[i] <= 'z',
    ensures
        word_characters(s) == s,
{
    assert forall|i: int| 0 <= i < s.len() implies counts(#[trigger] s[i]) by {
        assert(is_form_of(s[i], word[i]));
        let w = word[i];
        crate::text::law_white_space_is_unicode_white_space(s[i]);
    }
    lemma_counted_all(s);
}

proof fn lemma_reads_back(a: Seq<char>, b: Seq<char>, word: Seq<char>)
    requires
        same_letters(a, b),
        reads(b, word),
        forall|i: int| 0 <= i < word.len() ==> 'a' <= #[trigger] word[i] <= 'z',
    ensures
        reads(a, word),
{
    assert forall|i: int| 0 <= i < a.len() implies is_form_of(#[trigger] a[i], word[i]) by {
        assert(is_form_of(b[i], word[i]));
        let w = word[i];
    }
}

proof fn lemma_part_reads(text: Seq<char>, phrase: Seq<char>, from: int, to: int)
    requires
        reads(text, phrase),
        0 <= from <= to <= phrase.len(),
    ensures
        reads(text.subrange(from, to), phrase.subrange(from, to)),
{
    let part = text.subrange(from, to);
    assert forall|i: int| 0 <= i < part.len() implies is_form_of(
        #[trigger] part[i],
        phrase.subrange(from, to)[i],
    ) by {
        assert(is_form_of(text[from + i], phrase[from + i]));
    }
}

proof fn lemma_joined_reads(a: Seq<char>, x: Seq<char>, b: Seq<char>, y: Seq<char>)
    requires
        reads(a, x),
        reads(b, y),
    ensures
        reads(a + b, x + y),
{
    assert forall|i: int| 0 <= i < (a + b).len() implies is_form_of(
        #[trigger] (a + b)[i],
        (x + y)[i],
    ) by {
        if i < a.len() {
            assert(is_form_of(a[i], x[i]));
        } else {
            assert(is_form_of(b[i - a.len()], y[i - a.len()]));
        }
    }
}

/// The word characters of a made-up phrase with marks behind it.
#[verifier::spinoff_prover]
proof fn lemma_phrase_words(text: Seq<char>)
    ensures
        reads_with_marks(text, "thank you"@) ==> reads(word_characters(text), "thankyou"@),
        reads_with_marks(text, "thanks for watching"@) ==> reads(
            word_characters(text),
            "thanksforwatching"@,
        ),
{
    reveal_strlit("thank you");
    reveal_strlit("thankyou");
    reveal_strlit("thanks for watching");
    reveal_strlit("thanksforwatching");
    if reads_with_marks(text, "thank you"@) {
        let p = "thank you"@;
        let t = text.take(9);
        lemma_counted_none(text.skip(9));
        lemma_counted_add_up(t, text.skip(9));
        assert(t + text.skip(9) =~= text);
        lemma_word_and_rest(t, p, 5);
        lemma_part_reads(t, p, 6, 9);
        lemma_forms_count(t.subrange(6, 9), p.subrange(6, 9));
        lemma_part_reads(t, p, 0, 5);
        lemma_joined_reads(t.subrange(0, 5), p.subrange(0, 5), t.subrange(6, 9), p.subrange(6, 9));
        assert(p.subrange(0, 5) + p.subrange(6, 9) =~= "thankyou"@);
        assert(word_characters(text) =~= t.subrange(0, 5) + t.subrange(6, 9));
    }
    if reads_with_marks(text, "thanks for watching"@) {
        let p = "thanks for watching"@;
        let t = text.take(19);
        lemma_counted_none(text.skip(19));
        lemma_counted_add_up(t, text.skip(19));
        assert(t + text.skip(19) =~= text);
        lemma_word_and_rest(t, p, 6);
        let u = t.subrange(7, 19);
        let q = p.subrange(7, 19);
        lemma_part_reads(t, p, 7, 19);
        lemma_word_and_rest(u, q, 3);
        let v = u.subrange(4, 12);
        let r = q.subrange(4, 12);
        lemma_part_reads(u, q, 4, 12);
        lemma_forms_count(v, r);
        lemma_part_reads(t, p, 0, 6);
        lemma_part_reads(u, q, 0, 3);
        lemma_joined_reads(u.subrange(0, 3), q.subrange(0, 3), v, r);
        lemma_joined_reads(
            t.subrange(0, 6),
            p.subrange(0, 6),
            u.subrange(0, 3) + v,
            q.subrange(0, 3) + r,
        );
        assert(p.subrange(0, 6) + (q.subrange(0, 3) + r) =~= "thanksforwatching"@);
        assert(word_characters(text) =~= t.subrange(0, 6) + (u.subrange(0, 3) + v));
    }
}

/// A word of `n` letters, a space and the rest.
proof fn lemma_word_and_rest(text: Seq<char>, phrase: Seq<char>, n: int)
    requires
        reads(text, phrase),
        0 <= n < phrase.len(),
        forall|i: int| 0 <= i < n ==> 'a' <= #[trigger] phrase[i] <= 'z',
        phrase[n] == ' ',
    ensures
        word_characters(text) == text.subrange(0, n) + word_characters(
            text.subrange(n + 1, text.len() as int),
        ),
{
    let word = text.subrange(0, n);
    let gap = text.subrange(n, n + 1);
    let rest = text.subrange(n + 1, text.len() as int);
    lemma_part_reads(text, phrase, 0, n);
    lemma_forms_count(word, phrase.subrange(0, n));
    assert(is_form_of(text[n], phrase[n]));
    lemma_counted_none(gap);
    lemma_counted_add_up(word, gap);
    lemma_counted_add_up(word + gap, rest);
    assert(word + gap + rest =~= text);
    assert(word_characters(text) =~= word + word_characters(rest));
}

proof fn lemma_noise_reads_back(a: Seq<char>, b: Seq<char>)
    requires
        same_letters(a, b),
        reads_as_noise(b),
    ensures
        reads_as_noise(a),
{
    reveal_strlit("okay");
    reveal_strlit("yeah");
    reveal_strlit("yes");
    reveal_strlit("no");
    reveal_strlit("um");
    reveal_strlit("uh");
    reveal_strlit("hmm");
    reveal_strlit("huh");
    reveal_strlit("oh");
    reveal_strlit("ah");
    reveal_strlit("so");
    reveal_strlit("and");
    reveal_strlit("but");
    reveal_strlit("or");
    reveal_strlit("the");
    reveal_strlit("a");
    reveal_strlit("an");
    if reads(b, "okay"@) {
        lemma_reads_back(a, b, "okay"@);
    }
    if reads(b, "yeah"@) {
        lemma_reads_back(a, b, "yeah"@);
    }
    if reads(b, "yes"@) {
        lemma_reads_back(a, b, "yes"@);
    }
    if reads(b, "no"@) {
        lemma_reads_back(a, b, "no"@);
    }
    if reads(b, "um"@) {
        lemma_reads_back(a, b, "um"@);
    }
    if reads(b, "uh"@) {
        lemma_reads_back(a, b, "uh"@);
    }
    if reads(b, "hmm"@) {
        lemma_reads_back(a, b, "hmm"@);
    }
    if reads(b, "huh"@) {
        lemma_reads_back(a, b, "huh"@);
    }
    if reads(b, "oh"@) {
        lemma_reads_back(a, b, "oh"@);
    }
    if reads(b, "ah"@) {
        lemma_reads_back(a, b, "ah"@);
    }
    if reads(b, "so"@) {
        lemma_reads_back(a, b, "so"@);
    }
    if reads(b, "and"@) {
        lemma_reads_back(a, b, "and"@);
    }
    if reads(b, "but"@) {
        lemma_reads_back(a, b, "but"@);
    }
    if reads(b, "or"@) {
        lemma_reads_back(a, b, "or"@);
    }
    if reads(b, "the"@) {
        lemma_reads_back(a, b, "the"@);
    }
    if reads(b, "a"@) {
        lemma_reads_back(a, b, "a"@);
    }
    if reads(b, "an"@) {
        lemma_reads_back(a, b, "an"@);
    }
}

proof fn lemma_noise_counts(s: Seq<char>)
    requires
        reads_as_noise(s),
    ensures
        word_characters(s) == s,
{
    reveal_strlit("okay");
    reveal_strlit("yeah");
    reveal_strlit("yes");
    reveal_strlit("no");
    reveal_strlit("um");
    reveal_strlit("uh");
    reveal_strlit("hmm");
    reveal_strlit("huh");
    reveal_strlit("oh");
    reveal_strlit("ah");
    reveal_strlit("so");
    reveal_strlit("and");
    reveal_strlit("but");
    reveal_strlit("or");
    reveal_strlit("the");
    reveal_strlit("a");
    reveal_strlit("an");
    if reads(s, "okay"@) {
        lemma_forms_count(s, "okay"@);
    }
    if reads(s, "yeah"@) {
        lemma_forms_count(s, "yeah"@);
    }
    if reads(s, "yes"@) {
        lemma_forms_count(s, "yes"@);
    }
    if reads(s, "no"@) {
        lemma_forms_count(s, "no"@);
    }
    if reads(s, "um"@) {
        lemma_forms_count(s, "um"@);
    }
    if reads(s, "uh"@) {
        lemma_forms_count(s, "uh"@);
    }
    if reads(s, "hmm"@) {
        lemma_forms_count(s, "hmm"@);
    }
    if reads(s, "huh"@) {
        lemma_forms_count(s, "huh"@);
    }
    if reads(s, "oh"@) {
        lemma_forms_count(s, "oh"@);
    }
    if reads(s, "ah"@) {
        lemma_forms_count(s, "ah"@);
    }
    if reads(s, "so"@) {
        lemma_forms_count(s, "so"@);
    }
    if reads(s, "and"@) {
        lemma_forms_count(s, "and"@);
    }
    if reads(s, "but"@) {
        lemma_forms_count(s, "but"@);
    }
    if reads(s, "or"@) {
        lemma_forms_count(s, "or"@);
    }
    if reads(s, "the"@) {
        lemma_forms_count(s, "the"@);
    }
    if reads(s, "a"@) {
        lemma_forms_count(s, "a"@);
    }
    if reads(s, "an"@) {
        lemma_forms_count(s, "an"@);
    }
}

/// No word is lost, added or moved when a text is put in order: the result has the text's letters,
/// digits and other word characters in their order, small ones perhaps as capitals. The one exception
/// is a text whose words are a noise word or a made-up phrase and nothing else: of it nothing is left.
pub proof fn law_no_word_is_lost(text: Seq<char>)
    ensures
        ({
            ||| same_letters(word_characters(text), word_characters(polished(text)))
            ||| polished(text).len() == 0 && words_of_silence(word_characters(text))
        }),
{
    let whole = whole_text(text);
    let before = word_characters(text);
    lemma_counted_whole(text);
    if no_speech(whole) {
        law_no_speech_is_noise_or_made_up(whole);
        lemma_phrase_words(whole);
        let after = word_characters(whole);
        if reads_as_noise(whole) {
            lemma_noise_counts(whole);
            lemma_noise_reads_back(before, after);
        } else if reads_with_marks(whole, "thank you"@) {
            reveal_strlit("thankyou");
            lemma_reads_back(before, after, "thankyou"@);
        } else {
            reveal_strlit("thanksforwatching");
            lemma_reads_back(before, after, "thanksforwatching"@);
        }
    }
}

/// So a text with a word that is neither noise nor made up always leaves a text.
pub proof fn law_speech_is_not_dropped(text: Seq<char>)
    requires
        word_characters(text).len() > 0,
        !words_of_silence(word_characters(text)),
    ensures
        polished(text).len() > 0,
{
    law_no_word_is_lost(text);
    if polished(text).len() == 0 {
        assert(word_characters(polished(text)).len() == 0);
    }
}

/// A text is put in order pass by pass: its punctuation, its first letter, its sentences' first
/// letters, its spaces and its end; and what is left is dropped only where it is no speech.
pub proof fn law_passes_run_in_order(text: Seq<char>)
    ensures
        ({
            let commas = crate::patterns::without_ellipses(text);
            let dashes = crate::patterns::with_em_dashes(commas);
            let spaced = crate::patterns::with_spaces(dashes);
            let single = crate::patterns::with_single_ends(spaced);
            let marked = crate::patterns::with_close_marks(single);
            let cased = crate::patterns::with_capitals(first_capitalized(marked));
            let whole = closed(crate::patterns::with_single_spaces(cased));
            &&& punctuated(text) == marked
            &&& !no_speech(whole) ==> polished(text) == whole
            &&& no_speech(whole) ==> polished(text).len() == 0
        }),
{
}

/// A transcript is cleaned by condensing it and then putting it in order; nothing comes of it only
/// where a search gives up.
pub proof fn law_cleaning_condenses_then_polishes(raw: Seq<char>, text: Seq<char>)
    ensures
        condensed(raw) == Some(text) ==> cleaned(raw) == Some(polished(text)),
        condensed(raw) is None ==> cleaned(raw) is None,
{
}

/// Fillers go first, then words that are said twice, then phrases that are, each looked for in three
/// rounds; the search gives up where any of the rounds does.
pub proof fn law_condensing_runs_three_rounds(
    raw: Seq<char>,
    words: (Seq<char>, Seq<char>, Seq<char>),
    phrases: (Seq<char>, Seq<char>, Seq<char>),
)
    requires
        crate::patterns::backtracking_replaced(
            REPEATED_WORD@,
            crate::patterns::without_fillers(raw, true),
            "$1"@,
        ) == Some(words.0),
        crate::patterns::backtracking_replaced(REPEATED_WORD@, words.0, "$1"@) == Some(words.1),
        crate::patterns::backtracking_replaced(REPEATED_WORD@, words.1, "$1"@) == Some(words.2),
        crate::patterns::backtracking_replaced(REPEATED_PHRASE@, words.2, "$1"@) == Some(
            phrases.0,
        ),
        crate::patterns::backtracking_replaced(REPEATED_PHRASE@, phrases.0, "$1"@) == Some(
            phrases.1,
        ),
        crate::patterns::backtracking_replaced(REPEATED_PHRASE@, phrases.1, "$1"@) == Some(
            phrases.2,
        ),
    ensures
        condensed(raw) == Some(phrases.2),
{
    reveal_with_fuel(collapsed, 4);
}

/// A text without fillers and repetitions is condensed already.
pub proof fn law_condensed_text_is_kept(raw: Seq<char>)
    requires
        crate::patterns::without_fillers(raw, true) == raw,
        crate::patterns::backtracking_replaced(REPEATED_WORD@, raw, "$1"@) == Some(raw),
        crate::patterns::backtracking_replaced(REPEATED_PHRASE@, raw, "$1"@) == Some(raw),
    ensures
        condensed(raw) == Some(raw),
{
    lemma_collapsed_fixpoint(REPEATED_WORD@, raw, COLLAPSE_ROUNDS as nat);
    lemma_collapsed_fixpoint(REPEATED_PHRASE@, raw, COLLAPSE_ROUNDS as nat);
}

/// Capitalizing the first letter changes no other character, and no character that is not a small
/// ASCII letter.
pub proof fn law_only_the_first_letter_is_capitalized(text: Seq<char>, i: int)
    requires
        0 <= i < text.len(),
    ensures
        first_capitalized(text).len() == text.len(),
        i > 0 ==> first_capitalized(text)[i] == text[i],
        'a' <= text[0] <= 'z' ==> first_capitalized(text)[0] as u32 + 32 == text[0] as u32,
        !('a' <= text[0] <= 'z') ==> first_capitalized(text) == text,
{
    if !('a' <= text[0] <= 'z') {
        assert(first_capitalized(text) =~= text);
    }
}

/// Closing a text takes away the white space around it, and commas with white space behind them at
/// its start, and nothing else; and it puts a full stop behind it if and only if it has four words or
/// more and does not end in a mark.
pub proof fn law_closing_gives_the_sentence(
    before: Seq<char>,
    commas: Seq<char>,
    between: Seq<char>,
    core: Seq<char>,
    after: Seq<char>,
)
    requires
        crate::text::all_white(before),
        crate::text::all_white(between),
        crate::text::all_white(after),
        forall|i: int| 0 <= i < commas.len() ==> #[trigger] commas[i] == ',',
        commas.len() == 0 ==> between.len() == 0,
        core.len() > 0,
        !crate::text::white_space(core[0]),
        core[0] != ',',
        !crate::text::white_space(core[core.len() - 1]),
    ensures
        ({
            let last = core[core.len() - 1];
            let ended = last == '.' || last == '!' || last == '?' || last == ',' || last == ':';
            closed(before + commas + between + core + after) == if !ended
                && crate::text::word_count(core) >= 4 {
                core + seq!['.']
            } else {
                core
            }
        }),
{
    let s = before + commas + between + core + after;
    let middle = commas + between + core;
    assert(s =~= before + middle + after);
    crate::text::law_white_space_is_unicode_white_space(',');
    if commas.len() > 0 {
        assert(middle[0] == commas[0]);
    } else {
        assert(middle =~= core);
    }
    assert(middle[middle.len() - 1] == core[core.len() - 1]);
    crate::text::law_trimming_gives_what_white_space_surrounds(before, middle, after);
    let n = commas.len() as int;
    assert forall|i: int| 0 <= i < n implies #[trigger] middle[i] == ',' by {
        assert(middle[i] == commas[i]);
    }
    if between.len() > 0 {
        assert(middle[n] == between[0]);
        assert(crate::text::white_space(between[0]));
    } else {
        assert(middle[n] == core[0]);
    }
    lemma_without_leading_commas(middle, n);
    assert(middle.skip(n) =~= between + core + Seq::<char>::empty());
    crate::text::law_trimming_gives_what_white_space_surrounds(
        between,
        core,
        Seq::<char>::empty(),
    );
    assert(core.push('.') =~= core + seq!['.']);
}

/// The class of characters at which a text may be cut: no pass looks past one of them.
spec fn ends_in_a_word(a: Seq<char>) -> bool {
    a.len() == 0 || counts(a.last())
}

proof fn lemma_cut(a: Seq<char>, n: int)
    requires
        ends_in_a_word(a),
        0 <= n < a.len(),
    ensures
        ends_in_a_word(a.skip(n)),
        a.skip(n).last() == a.last(),
{
}

proof fn lemma_local_leading(a: Seq<char>, b: Seq<char>)
    requires
        a.len() > 0,
        ends_in_a_word(a),
    ensures
        crate::patterns::leading(a + b, '.') == crate::patterns::leading(a, '.') < a.len(),
        crate::patterns::leading_space(a + b) == crate::patterns::leading_space(a) < a.len(),
        crate::patterns::leading_dashes(a + b) == crate::patterns::leading_dashes(a) < a.len(),
    decreases a.len(),
{
    assert((a + b).drop_first() =~= a.drop_first() + b);
    assert((a + b)[0] == a[0]);
    if a.len() > 1 {
        lemma_cut(a, 1);
        assert(a.skip(1) =~= a.drop_first());
        lemma_local_leading(a.drop_first(), b);
    } else {
        assert(a[0] == a.last());
        reveal_with_fuel(crate::patterns::leading, 2);
        reveal_with_fuel(crate::patterns::leading_space, 2);
        reveal_with_fuel(crate::patterns::leading_dashes, 2);
    }
}

/// What a pass makes of `a` ends as `a` does, and what it makes of `a + b` is that and what it makes of
/// `b`.
spec fn cuts(a: Seq<char>, made_of_a: Seq<char>, made_of_b: Seq<char>, made_of_both: Seq<char>) -> bool {
    &&& made_of_both == made_of_a + made_of_b
    &&& a.len() == 0 ==> made_of_a.len() == 0
    &&& a.len() > 0 ==> made_of_a.len() > 0 && made_of_a.last() == a.last()
}

proof fn lemma_local_dots(a: Seq<char>, b: Seq<char>)
    requires
        ends_in_a_word(a),
    ensures
        cuts(
            a,
            crate::patterns::without_ellipses(a),
            crate::patterns::without_ellipses(b),
            crate::patterns::without_ellipses(a + b),
        ),
    decreases a.len(),
{
    let s = a + b;
    if a.len() == 0 {
        assert(s =~= b);
        assert(crate::patterns::without_ellipses(a) + crate::patterns::without_ellipses(b)
            =~= crate::patterns::without_ellipses(b));
    } else {
        lemma_local_leading(a, b);
        let n = crate::patterns::leading(a, '.') as int;
        let k: int = if n >= 2 {
            n
        } else {
            1
        };
        if k < a.len() {
            lemma_cut(a, k);
        }
        assert(s.skip(k) =~= a.skip(k) + b);
        assert(s.drop_first() =~= s.skip(1));
        assert(a.drop_first() =~= a.skip(1));
        lemma_local_dots(a.skip(k), b);
        let put = if n >= 3 {
            seq![',']
        } else if n == 2 {
            seq!['.', '.']
        } else {
            seq![a[0]]
        };
        let rest_a = crate::patterns::without_ellipses(a.skip(k));
        let rest_b = crate::patterns::without_ellipses(b);
        assert(put + (rest_a + rest_b) =~= put + rest_a + rest_b);
        assert(crate::patterns::without_ellipses(a) == put + rest_a);
        assert(crate::patterns::without_ellipses(s) == put + (rest_a + rest_b));
    }
}

proof fn lemma_local_dashes(a: Seq<char>, b: Seq<char>)
    requires
        ends_in_a_word(a),
    ensures
        cuts(
            a,
            crate::patterns::with_em_dashes(a),
            crate::patterns::with_em_dashes(b),
            crate::patterns::with_em_dashes(a + b),
        ),
    decreases a.len(),
{
    let s = a + b;
    if a.len() == 0 {
        assert(s =~= b);
        assert(crate::patterns::with_em_dashes(a) + crate::patterns::with_em_dashes(b)
            =~= crate::patterns::with_em_dashes(b));
    } else {
        lemma_local_leading(a, b);
        let before = crate::patterns::leading_space(a) as int;
        lemma_cut(a, before);
        assert(s.skip(before) =~= a.skip(before) + b);
        lemma_local_leading(a.skip(before), b);
        let dashes = crate::patterns::leading_dashes(a.skip(before)) as int;
        lemma_cut(a, before + dashes);
        assert(s.skip(before + dashes) =~= a.skip(before + dashes) + b);
        lemma_local_leading(a.skip(before + dashes), b);
        let after = crate::patterns::leading_space(a.skip(before + dashes)) as int;
        let found = dashes >= 2 || (dashes == 1 && a[before] == '-' && before > 0 && after > 0);
        let k: int = if found {
            before + dashes + after
        } else {
            1
        };
        if k < a.len() {
            lemma_cut(a, k);
        }
        assert(s.skip(k) =~= a.skip(k) + b);
        assert(s.drop_first() =~= s.skip(1));
        assert(a.drop_first() =~= a.skip(1));
        lemma_local_dashes(a.skip(k), b);
        let put = if found {
            seq![' ', '—', ' ']
        } else {
            seq![a[0]]
        };
        let rest_a = crate::patterns::with_em_dashes(a.skip(k));
        let rest_b = crate::patterns::with_em_dashes(b);
        assert(put + (rest_a + rest_b) =~= put + rest_a + rest_b);
        assert(crate::patterns::with_em_dashes(a) == put + rest_a);
        assert(crate::patterns::with_em_dashes(s) == put + (rest_a + rest_b));
    }
}

proof fn lemma_local_spaces(a: Seq<char>, b: Seq<char>)
    requires
        ends_in_a_word(a),
    ensures
        cuts(
            a,
            crate::patterns::with_spaces(a),
            crate::patterns::with_spaces(b),
            crate::patterns::with_spaces(a + b),
        ),
    decreases a.len(),
{
    let s = a + b;
    let rest_b = crate::patterns::with_spaces(b);
    if a.len() == 0 {
        assert(s =~= b);
        assert(crate::patterns::with_spaces(a) + rest_b =~= rest_b);
    } else {
        let tail = a.drop_first();
        if a.len() > 1 {
            lemma_cut(a, 1);
            assert(a.skip(1) =~= tail);
        }
        assert(s.drop_first() =~= tail + b);
        lemma_local_spaces(tail, b);
        let rest_a = crate::patterns::with_spaces(tail);
        let put = if a.len() >= 2 && crate::patterns::ends_a_sentence(a[0])
            && crate::patterns::is_letter(a[1]) {
            seq![a[0], ' ']
        } else {
            seq![a[0]]
        };
        if a.len() == 1 {
            assert(a =~= put + rest_a);
            if b.len() == 0 {
                assert(s =~= a);
                assert(a + rest_b =~= a);
            }
        }
        assert(put + (rest_a + rest_b) =~= put + rest_a + rest_b);
        assert(crate::patterns::with_spaces(a) == put + rest_a);
        assert(crate::patterns::with_spaces(s) == put + (rest_a + rest_b));
    }
}

proof fn lemma_local_single(a: Seq<char>, b: Seq<char>)
    requires
        ends_in_a_word(a),
    ensures
        cuts(
            a,
            crate::patterns::with_single_ends(a),
            crate::patterns::with_single_ends(b),
            crate::patterns::with_single_ends(a + b),
        ),
    decreases a.len(),
{
    let s = a + b;
    let rest_b = crate::patterns::with_single_ends(b);
    if a.len() == 0 {
        assert(s =~= b);
        assert(crate::patterns::with_single_ends(a) + rest_b =~= rest_b);
    } else {
        let tail = a.drop_first();
        if a.len() > 1 {
            lemma_cut(a, 1);
            assert(a.skip(1) =~= tail);
        }
        assert(s.drop_first() =~= tail + b);
        lemma_local_single(tail, b);
        let rest_a = crate::patterns::with_single_ends(tail);
        let put = if a.len() >= 2 && crate::patterns::ends_a_sentence(a[0])
            && crate::patterns::ends_a_sentence(a[1]) {
            Seq::<char>::empty()
        } else {
            seq![a[0]]
        };
        if a.len() == 1 {
            assert(a =~= put + rest_a);
            if b.len() == 0 {
                assert(s =~= a);
                assert(a + rest_b =~= a);
            }
        }
        assert(put + (rest_a + rest_b) =~= put + rest_a + rest_b);
        assert(crate::patterns::with_single_ends(a) =~= put + rest_a);
        assert(crate::patterns::with_single_ends(s) =~= put + (rest_a + rest_b));
    }
}

proof fn lemma_local_marks(a: Seq<char>, b: Seq<char>)
    requires
        ends_in_a_word(a),
    ensures
        cuts(
            a,
            crate::patterns::with_close_marks(a),
            crate::patterns::with_close_marks(b),
            crate::patterns::with_close_marks(a + b),
        ),
    decreases a.len(),
{
    let s = a + b;
    let rest_b = crate::patterns::with_close_marks(b);
    if a.len() == 0 {
        assert(s =~= b);
        assert(crate::patterns::with_close_marks(a) + rest_b =~= rest_b);
    } else {
        lemma_local_leading(a, b);
        let n = crate::patterns::leading_space(a) as int;
        let found = 0 < n && crate::patterns::follows_a_word(a[n]);
        let k: int = if found {
            n
        } else {
            1
        };
        if k < a.len() {
            lemma_cut(a, k);
        }
        assert(s.skip(k) =~= a.skip(k) + b);
        assert(s.drop_first() =~= s.skip(1));
        assert(a.drop_first() =~= a.skip(1));
        lemma_local_marks(a.skip(k), b);
        let put = if found {
            Seq::<char>::empty()
        } else {
            seq![a[0]]
        };
        let rest_a = crate::patterns::with_close_marks(a.skip(k));
        assert(put + (rest_a + rest_b) =~= put + rest_a + rest_b);
        assert(crate::patterns::with_close_marks(a) =~= put + rest_a);
        assert(crate::patterns::with_close_marks(s) =~= put + (rest_a + rest_b));
    }
}

/// Punctuation is put in order place by place: a text may be cut behind any letter, digit or other
/// word character, its parts be put in order by themselves and put together again, and the result is
/// that of the whole. So how long a text is and what else it holds makes no difference.
pub proof fn law_punctuation_is_put_in_order_place_by_place(a: Seq<char>, b: Seq<char>)
    requires
        a.len() > 0,
        counts(a[a.len() - 1]),
    ensures
        punctuated(a + b) == punctuated(a) + punctuated(b),
{
    lemma_local_dots(a, b);
    let a1 = crate::patterns::without_ellipses(a);
    let b1 = crate::patterns::without_ellipses(b);
    lemma_local_dashes(a1, b1);
    let a2 = crate::patterns::with_em_dashes(a1);
    let b2 = crate::patterns::with_em_dashes(b1);
    lemma_local_spaces(a2, b2);
    let a3 = crate::patterns::with_spaces(a2);
    let b3 = crate::patterns::with_spaces(b2);
    lemma_local_single(a3, b3);
    let a4 = crate::patterns::with_single_ends(a3);
    let b4 = crate::patterns::with_single_ends(b3);
    lemma_local_marks(a4, b4);
}

proof fn lemma_all_dots(s: Seq<char>)
    requires
        forall|i: int| 0 <= i < s.len() ==> #[trigger] s[i] == '.',
    ensures
        crate::patterns::leading(s, '.') == s.len(),
    decreases s.len(),
{
    if s.len() > 0 {
        let rest = s.drop_first();
        assert(s[0] == '.');
        assert forall|i: int| 0 <= i < rest.len() implies #[trigger] rest[i] == '.' by {
            assert(rest[i] == s[i + 1]);
        }
        lemma_all_dots(rest);
    }
}

/// An ellipsis of any length, three dots or more, becomes one comma.
pub proof fn law_ellipsis_becomes_a_comma(dots: Seq<char>)
    requires
        dots.len() >= 3,
        forall|i: int| 0 <= i < dots.len() ==> #[trigger] dots[i] == '.',
    ensures
        punctuated(dots) == seq![','],
{
    lemma_all_dots(dots);
    let comma = seq![','];
    let none = dots.skip(dots.len() as int);
    assert(none.len() == 0);
    assert(crate::patterns::without_ellipses(none) =~= Seq::empty());
    assert(crate::patterns::without_ellipses(dots) =~= comma);
    assert(no_lone_hyphen(comma));
    lemma_kept_by_dashes(comma);
    lemma_kept_by_spaces(comma);
    lemma_kept_by_ends(comma);
    lemma_kept_by_marks(comma);
}

} // verus!
