use lds::patterns::FILLERS;
use lds::text_middleware::{
    capitalize_first, capitalize_sentences, clean_text, close_sentence, condense, is_no_speech,
    polish, punctuate, sentence_start, try_clean_text,
};

#[test]
fn test_filler_removal() {
    let result = clean_text("Um, this is a test");
    assert!(result.contains("this is a test") || result.contains("This is a test"));
}

#[test]
fn test_repeated_words() {
    assert_eq!(clean_text("Hello hello world"), "Hello world");
}

#[test]
fn test_ellipsis_normalization() {
    assert_eq!(clean_text("I was thinking..."), "I was thinking,");
    assert_eq!(
        clean_text("what the fuck... seriously..."),
        "What the fuck, seriously,"
    );
}

#[test]
fn test_single_word_noise() {
    assert_eq!(clean_text("okay"), "");
    assert_eq!(clean_text("Um"), "");
    assert_eq!(clean_text("Hello"), "Hello");
}

#[test]
fn test_sentence_cleanup() {
    assert_eq!(
        clean_text("hello world.this is a test"),
        "Hello world. This is a test."
    );
}

#[test]
fn test_double_punct() {
    assert_eq!(clean_text("Hello world.."), "Hello world.");
    assert_eq!(clean_text("What??"), "What?");
}

#[test]
fn empty_transcript_stays_empty() {
    assert_eq!(clean_text(""), "");
    assert_eq!(clean_text("   \n\t "), "");
}

#[test]
fn filler_inside_a_sentence_is_removed() {
    assert_eq!(clean_text("this is uh a test"), "This is a test.");
}

#[test]
fn condensing_takes_out_fillers_and_repetitions() {
    assert_eq!(condense("this is um the the end"), Some("this is the end".to_string()));
    assert_eq!(
        condense("go to the shop go to the shop now"),
        Some("go to the shop now".to_string())
    );
}

#[test]
fn collapsing_runs_three_rounds() {
    assert_eq!(condense("no no"), Some("no".to_string()));
    assert_eq!(condense("no no no no no no no no"), Some("no".to_string()));
    assert_eq!(
        condense(&vec!["no"; 64].join(" ")),
        Some("no no".to_string())
    );
}

#[test]
fn a_search_that_gives_up_gives_nothing() {
    let endless_word = "a".repeat(1_000_000);
    assert_eq!(condense(&endless_word), None);
    assert_eq!(try_clean_text(&endless_word), None);
    assert_eq!(try_clean_text("a short text here"), Some("A short text here.".to_string()));
}

#[test]
fn punctuation_is_put_in_order() {
    assert_eq!(punctuate("wait....what"), "wait,what");
    assert_eq!(punctuate("one --- two"), "one — two");
    assert_eq!(punctuate("one--two"), "one — two");
    assert_eq!(punctuate("one - two"), "one — two");
    assert_eq!(punctuate("one-two - three"), "one-two — three");
    assert_eq!(punctuate("one -two- three"), "one -two- three");
    assert_eq!(punctuate("- one -"), "- one -");
    assert_eq!(punctuate("a - - b"), "a — - b");
    assert_eq!(punctuate("a.b!c?d"), "a. b! c? d");
    assert_eq!(punctuate("really?!"), "really!");
    assert_eq!(punctuate("well , then ."), "well, then.");
    assert_eq!(punctuate("Nothing to do."), "Nothing to do.");
}

#[test]
fn first_letter_is_capitalized() {
    assert_eq!(capitalize_first("hello"), "Hello");
    assert_eq!(capitalize_first("Hello"), "Hello");
    assert_eq!(capitalize_first("éclair"), "éclair");
    assert_eq!(capitalize_first(" hello"), " hello");
    assert_eq!(capitalize_first(""), "");
}

#[test]
fn sentences_are_capitalized_and_nothing_else_changes() {
    assert_eq!(capitalize_sentences("One. two! three?  four"), "One. Two! Three?  Four");
    assert_eq!(capitalize_sentences("one, two; é. é"), "one, two; é. é");
    assert_eq!(capitalize_sentences(""), "");
}

#[test]
fn a_sentence_starts_with_a_capital() {
    assert_eq!(sentence_start("! ", "x"), "! X");
    assert_eq!(sentence_start(". ", ""), ". ");
}

#[test]
fn noise_and_made_up_phrases_are_no_speech() {
    assert!(is_no_speech("okay"));
    assert!(is_no_speech("OKAY"));
    assert!(is_no_speech("The"));
    assert!(!is_no_speech("okay."));
    assert!(!is_no_speech("okay then"));
    assert!(!is_no_speech(""));
    assert!(is_no_speech("Thank you."));
    assert!(is_no_speech("thanks for watching!"));
    assert!(!is_no_speech("Thank you all"));
}

#[test]
fn hallucinated_phrases_are_dropped() {
    assert_eq!(clean_text("thank you"), "");
    assert_eq!(clean_text("Thank you."), "");
    assert_eq!(clean_text(" Thanks for watching! "), "");
    assert_eq!(clean_text("Thank you for the notes"), "Thank you for the notes.");
}

#[test]
fn no_speech_is_told_by_what_is_left() {
    assert_eq!(clean_text("Thank  you"), "");
    assert_eq!(clean_text(",okay"), "");
    assert_eq!(clean_text(", thanks for  watching!!"), "");
    assert_eq!(clean_text("Thank you all"), "Thank you all");
}

#[test]
fn a_period_ends_four_words_or_more() {
    assert_eq!(clean_text("red green blue"), "Red green blue");
    assert_eq!(clean_text("red green blue grey"), "Red green blue grey.");
}

#[test]
fn sentences_are_closed() {
    assert_eq!(close_sentence("one two three four"), "one two three four.");
    assert_eq!(close_sentence("one two three"), "one two three");
    assert_eq!(close_sentence("  one two three four!  "), "one two three four!");
    assert_eq!(close_sentence(",, and so it goes"), "and so it goes.");
    assert_eq!(close_sentence("list them all here:"), "list them all here:");
    assert_eq!(close_sentence("a b c d;"), "a b c d;.");
    assert_eq!(close_sentence(" , "), "");
    assert_eq!(close_sentence(""), "");
}

#[test]
fn polished_text_has_single_spaces_and_trimmed_ends() {
    let result = polish("  one   two    three four  ");
    assert_eq!(result, "one two three four.");
    assert!(!result.contains("  "));
    assert_eq!(result.trim(), result);
}

#[test]
fn text_in_order_comes_back_as_it_is() {
    let text = "Hello world. This is a test.";
    assert_eq!(polish(text), text);
    assert_eq!(clean_text(text), text);
}

#[test]
fn some_other_characters_fold_to_letters() {
    assert!(is_no_speech("o\u{212a}ay"));
    assert!(is_no_speech("\u{17f}o"));
    assert!(is_no_speech("than\u{212a} you"));
    assert!(!is_no_speech("\u{ff41}n"));
}

fn is_end(c: char) -> bool {
    ".!?".contains(c)
}

fn run(s: &[char], class: fn(char) -> bool) -> usize {
    s.iter().take_while(|c| class(**c)).count()
}

/// The five punctuation passes, written out by hand.
fn punctuated_by_hand(text: &str) -> String {
    let is_dash = |c: char| c == '-' || c == '—';
    let mut s: Vec<char> = text.chars().collect();

    let mut out = Vec::new();
    let mut rest = &s[..];
    while !rest.is_empty() {
        let n = run(rest, |c| c == '.');
        if n >= 3 {
            out.push(',');
            rest = &rest[n..];
        } else {
            let n = n.max(1);
            out.extend_from_slice(&rest[..n]);
            rest = &rest[n..];
        }
    }
    s = out;

    let mut out = Vec::new();
    let mut rest = &s[..];
    while !rest.is_empty() {
        let before = run(rest, char::is_whitespace);
        let dashes = run(&rest[before..], is_dash);
        let after = run(&rest[before + dashes..], char::is_whitespace);
        let lone = dashes == 1 && rest[before] == '-' && before > 0 && after > 0;
        if dashes >= 2 || lone {
            out.extend_from_slice(&[' ', '—', ' ']);
            rest = &rest[before + dashes + after..];
        } else {
            out.push(rest[0]);
            rest = &rest[1..];
        }
    }
    s = out;

    let mut out = Vec::new();
    for (i, c) in s.iter().enumerate() {
        if i > 0 && is_end(s[i - 1]) && c.is_ascii_alphabetic() {
            out.push(' ');
        }
        out.push(*c);
    }
    s = out;

    let mut out = Vec::new();
    for (i, c) in s.iter().enumerate() {
        if !(is_end(*c) && i + 1 < s.len() && is_end(s[i + 1])) {
            out.push(*c);
        }
    }
    s = out;

    let mut out = String::new();
    for (i, c) in s.iter().enumerate() {
        let n = run(&s[i..], char::is_whitespace);
        let marked = n > 0 && i + n < s.len() && ".,!?;:".contains(s[i + n]);
        if !marked {
            out.push(*c);
        }
    }
    out
}

fn all_texts(alphabet: &[char], length: usize) -> Vec<String> {
    let mut texts = vec![String::new()];
    let mut last = texts.clone();
    for _ in 0..length {
        last = last
            .iter()
            .flat_map(|t| alphabet.iter().map(move |c| format!("{t}{c}")))
            .collect();
        texts.extend(last.clone());
    }
    texts
}

/// Texts side by side, with a character between them that no pass looks at.
fn in_one(texts: &[String]) -> String {
    texts.join("\u{1}")
}

#[test]
fn punctuation_passes_do_what_they_say() {
    let mixed = all_texts(&['a', 'B', '.', '?', ',', '-', '—', ' ', '\n'], 4);
    let runs = all_texts(&['.', '-', ' '], 7);
    for texts in [mixed, runs] {
        let results = punctuate(&in_one(&texts));
        let results: Vec<&str> = results.split('\u{1}').collect();
        assert_eq!(results.len(), texts.len());
        for (text, result) in texts.iter().zip(results) {
            assert_eq!(result, punctuated_by_hand(text), "{text:?}");
        }
    }
}

#[test]
fn sentence_starts_are_found() {
    let all = in_one(&all_texts(&['a', 'é', 'B', '.', '!', ',', ' ', '\t'], 4));
    let chars: Vec<char> = all.chars().collect();
    let expected: String = (0..chars.len())
        .map(|i| {
            let space = chars[..i].iter().rev().take_while(|c| c.is_whitespace()).count();
            if space > 0 && i > space && is_end(chars[i - space - 1]) {
                chars[i].to_ascii_uppercase()
            } else {
                chars[i]
            }
        })
        .collect();
    assert!(capitalize_sentences(&all) == expected);
}

#[test]
fn polished_texts_are_presentable() {
    for text in all_texts(&['a', 'B', '.', ',', '-', ' ', '\t'], 3) {
        let result = polish(&text);
        assert_eq!(result.trim(), result, "{text:?}");
        assert!(!result.starts_with(','), "{text:?}");
        let chars: Vec<char> = result.chars().collect();
        for pair in chars.windows(2) {
            let (a, b) = (pair[0], pair[1]);
            assert!(!("-—".contains(a) && "-—".contains(b)), "{text:?}");
            assert!(!(is_end(a) && b.is_ascii_alphabetic()), "{text:?}");
            assert!(!(a.is_whitespace() && ".,!?;:".contains(b)), "{text:?}");
            assert!(!(a == ' ' && b == ' '), "{text:?}");
        }
        assert_eq!(capitalize_sentences(&result), result, "{text:?}");
    }
}

#[test]
fn sentences_end_once() {
    assert_eq!(polish("Wait.... what?! Really!!"), "Wait, what! Really!");
    assert_eq!(polish("One . . Two"), "One.. Two");
    for text in all_texts(&['a', '.', '?', ','], 4) {
        let result = polish(&text);
        let chars: Vec<char> = result.chars().collect();
        assert!(chars.windows(2).all(|p| !(is_end(p[0]) && is_end(p[1]))), "{text:?}");
    }
}

#[test]
fn polishing_again_changes_nothing() {
    for text in ["hello world.this is - a test", "hello world.this is -- a test", "what?? yes ,no...", "Is it?it is"] {
        let once = polish(text);
        assert_ne!(once, text);
        assert_eq!(polish(&once), once);
    }
}

/// How long the filler is that a text starts with, with what must follow it.
fn filler_by_hand(s: &[char]) -> usize {
    let plain: Vec<char> = s
        .iter()
        .map(|c| match c {
            '\u{212a}' => 'k',
            '\u{17f}' => 's',
            c => c.to_ascii_lowercase(),
        })
        .collect();
    let starts = |word: &str| plain.starts_with(&word.chars().collect::<Vec<char>>());
    let mut word = 0;
    for (start, c) in [("u", 'm'), ("u", 'h'), ("a", 'h'), ("hm", 'm')] {
        if starts(start) {
            let more = plain[start.len()..].iter().take_while(|d| **d == c).count();
            if more > 0 {
                word = start.len() + more;
            }
        }
    }
    if starts("huh") {
        word = 3;
    }
    for phrase in ["like", "you know", "so", "i mean"] {
        if starts(phrase) {
            let n = phrase.len() + usize::from(plain.get(phrase.len()) == Some(&','));
            if plain.get(n).is_some_and(|c| c.is_whitespace()) {
                word = n + 1;
            }
        }
    }
    match plain.get(word) {
        _ if word == 0 => 0,
        None => word,
        Some(c) if c.is_whitespace() || is_end(*c) || *c == ',' => word + 1,
        Some(_) => 0,
    }
}

fn without_fillers_by_hand(text: &str) -> String {
    let s: Vec<char> = text.chars().collect();
    let mut out = String::new();
    let mut at = 0;
    while at < s.len() {
        let first = if at == 0 { filler_by_hand(&s) } else { 0 };
        let behind = if s[at].is_whitespace() { filler_by_hand(&s[at + 1..]) } else { 0 };
        if first > 0 {
            out.push(' ');
            at += first;
        } else if behind > 0 {
            out.push(' ');
            at += 1 + behind;
        } else {
            out.push(s[at]);
            at += 1;
        }
    }
    out
}

#[test]
fn fillers_are_removed() {
    assert_eq!(condense("x um y"), Some("x y".to_string()));
    assert_eq!(condense("Ummm, x uhh"), Some("  x ".to_string()));
    assert_eq!(condense("x hm y huh. z hmm"), Some("x hm y  z ".to_string()));
    assert_eq!(condense("x you know,  y"), Some("x y".to_string()));
    assert_eq!(condense("x like y so z"), Some("x like y so z".to_string()));
    assert_eq!(condense("so,  x I mean ."), Some(" x ".to_string()));
    assert_eq!(condense("\u{17f}o  x li\u{212a}e "), Some(" x ".to_string()));
    assert_eq!(condense("x umber umh drum"), Some("x umber umh drum".to_string()));
    assert_eq!(condense("um um um"), Some(" um ".to_string()));
}

#[test]
fn fillers_are_found_as_by_hand() {
    let regex = fancy_regex::Regex::new(FILLERS).unwrap();
    let mut texts = all_texts(&['u', 'M', 'h', 'a', ' ', ',', '.'], 5);
    let parts = [
        " ", ",", "\n", "um", "uhh", "Hmm", "hm", "HUH", "like", "li\u{212a}e", "so", "\u{17f}o",
        "you know", "I mean", "z", "?",
    ];
    let mut last = vec![String::new()];
    for _ in 0..4 {
        last = last.iter().flat_map(|t| parts.iter().map(move |p| format!("{t}{p}"))).collect();
        texts.extend(last.clone());
    }
    for text in texts {
        assert_eq!(regex.replace_all(&text, " "), without_fillers_by_hand(&text), "{text:?}");
    }
}
