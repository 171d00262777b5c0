//! The recogniser's side: the options of a transcription, and the transcript out of its segments.

use vstd::prelude::*;

use crate::text::trim;

verus! {

/// The options that a transcription runs with.
#[derive(Debug)]
pub struct TranscribeOptions {
    /// The language, or nothing to have it detected.
    pub language: Option<String>,
    /// The initial prompt, if any.
    pub initial_prompt: Option<String>,
    /// Whether progress is printed.
    pub print_progress: bool,
    /// Whether time stamps are printed.
    pub print_timestamps: bool,
    /// Whether special tokens are printed.
    pub print_special: bool,
    /// Whether all audio makes one segment.
    pub single_segment: bool,
    /// Whether segments are split at words.
    pub split_on_word: bool,
}

/// A text, or nothing where it is empty.
pub open spec fn unless_empty(text: Seq<char>) -> Option<Seq<char>> {
    if text.len() > 0 {
        Some(text)
    } else {
        None
    }
}

fn non_empty(text: &str) -> (result: Option<String>)
    ensures
        crate::ipc::optional_text(result) == unless_empty(text@),
{
    if text.is_empty() {
        None
    } else {
        Some(text.to_string())
    }
}

/// The options for a language hint and an initial prompt, either of which may be empty. A streaming
/// transcription gives one segment, split at words; a batch one leaves that to the recogniser.
pub fn transcribe_options(language: &str, initial_prompt: &str, streaming: bool) -> (options:
    TranscribeOptions)
    ensures
        crate::ipc::optional_text(options.language) == unless_empty(language@),
        crate::ipc::optional_text(options.initial_prompt) == unless_empty(initial_prompt@),
        match options.language {
            Some(hint) => hint@ == language@ && language@.len() > 0,
            None => language@.len() == 0,
        },
        match options.initial_prompt {
            Some(prompt) => prompt@ == initial_prompt@ && initial_prompt@.len() > 0,
            None => initial_prompt@.len() == 0,
        },
        !options.print_progress,
        !options.print_timestamps,
        !options.print_special,
        options.single_segment == streaming,
        options.split_on_word == streaming,
{
    TranscribeOptions {
        language: non_empty(language),
        initial_prompt: non_empty(initial_prompt),
        print_progress: false,
        print_timestamps: false,
        print_special: false,
        single_segment: streaming,
        split_on_word: streaming,
    }
}

/// The texts of some segments, each with a space behind it. A segment that cannot be had or is no
/// text is left out.
pub open spec fn segments_text(segments: Seq<Option<String>>) -> Seq<char>
    decreases segments.len(),
{
    if segments.len() == 0 {
        Seq::empty()
    } else {
        let before = segments_text(segments.drop_last());
        match segments.last() {
            Some(text) => (before + text@).push(' '),
            None => before,
        }
    }
}

/// Puts the transcript together out of its segments.
pub fn assemble_transcript(segments: &Vec<Option<String>>) -> (transcript: String)
    ensures
        transcript@ == crate::text::trimmed(segments_text(segments@)),
{
    let mut text: String = String::new();
    let mut i: usize = 0;
    while i < segments.len()
        invariant
            i <= segments@.len(),
            text@ == segments_text(segments@.take(i as int)),
        decreases segments@.len() - i,
    {
        if let Some(segment) = &segments[i] {
            text.append(segment.as_str());
            text.push(' ');
        }
        assert(segments@.take(i + 1).drop_last() =~= segments@.take(i as int));
        i = i + 1;
    }
    assert(segments@.take(segments@.len() as int) =~= segments@);
    trim(text.as_str())
}

/// A transcript has no white space at its ends.
pub proof fn law_transcript_is_trimmed(segments: Seq<Option<String>>)
    ensures
        crate::text::is_trimmed(crate::text::trimmed(segments_text(segments))),
{
    crate::text::lemma_trimmed_is_trimmed(segments_text(segments));
}

/// Segments are put together one after another: what two runs of them give is what the first gives,
/// then what the second gives; one that is a text gives that text and a space, and one that is none
/// gives nothing. So no segment is lost, doubled or moved, wherever it stands.
pub proof fn law_no_segment_is_lost(before: Seq<Option<String>>, segment: Option<String>, after: Seq<
    Option<String>,
>)
    ensures
        segments_text(before + after) == segments_text(before) + segments_text(after),
        segments_text(before.push(segment) + after) == (match segment {
            Some(text) => segments_text(before) + text@ + seq![' '] + segments_text(after),
            None => segments_text(before) + segments_text(after),
        }),
        segments_text(Seq::<Option<String>>::empty()).len() == 0,
{
    lemma_segments_add_up(before, after);
    lemma_segments_add_up(before.push(segment), after);
    assert(before.push(segment).drop_last() =~= before);
    if let Some(text) = segment {
        assert(segments_text(before.push(segment)) =~= segments_text(before) + text@ + seq![' ']);
    }
}

proof fn lemma_segments_add_up(before: Seq<Option<String>>, after: Seq<Option<String>>)
    ensures
        segments_text(before + after) == segments_text(before) + segments_text(after),
    decreases after.len(),
{
    if after.len() == 0 {
        assert(before + after =~= before);
        assert(segments_text(before) + segments_text(after) =~= segments_text(before));
    } else {
        lemma_segments_add_up(before, after.drop_last());
        let whole = before + after;
        assert(whole.drop_last() =~= before + after.drop_last());
        assert(whole.last() == after.last());
        if let Some(text) = after.last() {
            assert(segments_text(whole) =~= segments_text(before) + segments_text(after));
        }
    }
}

/// A transcript is what its segments give, with nothing but white space taken off at its ends.
pub proof fn law_transcript_is_all_of_the_segments(
    segments: Seq<Option<String>>,
    before: Seq<char>,
    core: Seq<char>,
    after: Seq<char>,
)
    requires
        segments_text(segments) == before + core + after,
        crate::text::all_white(before),
        crate::text::all_white(after),
        core.len() > 0 ==> !crate::text::white_space(core[0]) && !crate::text::white_space(
            core[core.len() - 1],
        ),
    ensures
        crate::text::trimmed(segments_text(segments)) == core,
{
    crate::text::law_trimming_gives_what_white_space_surrounds(before, core, after);
}

} // verus!
