//! Smooth typing: text is queued and typed a few characters at a time, so that typing goes on
//! until the next result comes in.

use vstd::prelude::*;

use crate::text::{from_chars, to_chars};

verus! {

/// The pause between two ticks, in microseconds: sixty ticks a second.
pub const TICK_DELAY_US: u64 = 16_666;

/// What the typist is told.
#[derive(Debug)]
pub enum TypistCommand {
    /// Queue text for typing, so many characters at each tick.
    Type { text: String, chars_per_tick: usize },
    /// Type the remaining text at once (for final delivery).
    Flush,
    /// Stop typing immediately and discard what is pending.
    Stop,
    /// Nobody is left to give commands.
    Disconnect,
}

/// What to do about a command.
#[derive(Debug)]
pub struct CommandEffect {
    /// The text to type at once.
    pub burst: Option<String>,
    /// Whether the typist ends.
    pub exit: bool,
}

/// What to do when no command is waiting.
#[derive(Debug)]
pub enum TickEffect {
    /// Type a text, and pause behind it if more is pending.
    Type { text: String, pause: bool },
    /// Wait for the next command.
    Block,
}

/// The text that is still to be typed, and how fast.
pub struct SmoothTypist {
    pending: String,
    chars_per_tick: usize,
    typing: bool,
}

/// The lesser of two numbers.
pub open spec fn lesser(a: int, b: int) -> int {
    if a < b {
        a
    } else {
        b
    }
}

/// The text that one tick types of what is pending.
pub open spec fn tick_text(pending: Seq<char>, pace: int) -> Seq<char> {
    pending.take(lesser(pace, pending.len() as int))
}

/// What is pending behind one tick.
pub open spec fn tick_rest(pending: Seq<char>, pace: int) -> Seq<char> {
    pending.skip(lesser(pace, pending.len() as int))
}

impl SmoothTypist {
    /// The text that is still to be typed.
    pub closed spec fn queue(&self) -> Seq<char> {
        self.pending@
    }

    /// How many characters a tick types.
    pub closed spec fn pace(&self) -> int {
        self.chars_per_tick as int
    }

    /// Whether characters are being emitted.
    pub closed spec fn busy(&self) -> bool {
        self.typing
    }

    /// A tick types at least one character.
    pub open spec fn wf(&self) -> bool {
        self.pace() >= 1
    }

    /// A typist with nothing to type, at sixty characters a second.
    pub fn new() -> (typist: SmoothTypist)
        ensures
            typist.wf(),
            typist.queue() == Seq::<char>::empty(),
            typist.pace() == 1,
            !typist.busy(),
    {
        SmoothTypist { pending: String::new(), chars_per_tick: 1, typing: false }
    }

    /// Takes in a command.
    pub fn on_command(&mut self, command: TypistCommand) -> (effect: CommandEffect)
        requires
            old(self).wf(),
        ensures
            final(self).wf(),
            match command {
                TypistCommand::Type { text, chars_per_tick } => {
                    &&& final(self).queue() == old(self).queue() + text@
                    &&& final(self).pace() == if chars_per_tick >= 1 {
                        chars_per_tick as int
                    } else {
                        1
                    }
                    &&& final(self).busy() == old(self).busy()
                    &&& effect.burst is None
                    &&& !effect.exit
                },
                TypistCommand::Flush => {
                    &&& final(self).queue() == Seq::<char>::empty()
                    &&& final(self).pace() == old(self).pace()
                    &&& final(self).busy() == (old(self).busy() && old(self).queue().len() == 0)
                    &&& crate::ipc::optional_text(effect.burst) == pending_burst(old(self).queue())
                    &&& !effect.exit
                },
                TypistCommand::Stop => {
                    &&& final(self).queue() == Seq::<char>::empty()
                    &&& final(self).pace() == old(self).pace()
                    &&& !final(self).busy()
                    &&& effect.burst is None
                    &&& effect.exit
                },
                TypistCommand::Disconnect => {
                    &&& final(self).queue() == Seq::<char>::empty()
                    &&& final(self).pace() == old(self).pace()
                    &&& !final(self).busy()
                    &&& crate::ipc::optional_text(effect.burst) == pending_burst(old(self).queue())
                    &&& effect.exit
                },
            },
    {
        match command {
            TypistCommand::Type { text, chars_per_tick } => {
                self.pending.append(text.as_str());
                self.chars_per_tick = if chars_per_tick >= 1 {
                    chars_per_tick
                } else {
                    1
                };
                CommandEffect { burst: None, exit: false }
            },
            TypistCommand::Flush => {
                if self.pending.as_str().is_empty() {
                    assert(self.pending@ =~= Seq::empty());
                    CommandEffect { burst: None, exit: false }
                } else {
                    let burst: String = self.pending.clone();
                    self.pending = String::new();
                    self.typing = false;
                    CommandEffect { burst: Some(burst), exit: false }
                }
            },
            TypistCommand::Stop => {
                self.pending = String::new();
                self.typing = false;
                CommandEffect { burst: None, exit: true }
            },
            TypistCommand::Disconnect => {
                let rest: String = self.pending.clone();
                self.pending = String::new();
                self.typing = false;
                if rest.as_str().is_empty() {
                    CommandEffect { burst: None, exit: true }
                } else {
                    CommandEffect { burst: Some(rest), exit: true }
                }
            },
        }
    }

    /// Types the next characters, if any are pending.
    pub fn tick(&mut self) -> (effect: TickEffect)
        requires
            old(self).wf(),
        ensures
            final(self).wf(),
            final(self).pace() == old(self).pace(),
            final(self).queue() == tick_rest(old(self).queue(), old(self).pace()),
            final(self).busy() == (final(self).queue().len() > 0),
            match effect {
                TickEffect::Type { text, pause } => {
                    &&& old(self).queue().len() > 0
                    &&& text@ == tick_text(old(self).queue(), old(self).pace())
                    &&& text@ + final(self).queue() == old(self).queue()
                    &&& text@.len() == if old(self).queue().len() < old(self).pace() {
                        old(self).queue().len() as int
                    } else {
                        old(self).pace()
                    }
                    &&& pause == (final(self).queue().len() > 0)
                },
                TickEffect::Block => old(self).queue().len() == 0,
            },
    {
        let chars: Vec<char> = to_chars(self.pending.as_str());
        let total: usize = chars.len();
        if total == 0 {
            self.typing = false;
            assert(tick_rest(self.pending@, self.pace()) =~= self.pending@);
            return TickEffect::Block;
        }
        let end: usize = if self.chars_per_tick < total {
            self.chars_per_tick
        } else {
            total
        };
        let text: String = from_chars(chars.as_slice(), 0, end);
        self.pending = from_chars(chars.as_slice(), end, total);
        self.typing = end < total;
        assert(text@ =~= tick_text(chars@, self.pace()));
        assert(self.pending@ =~= tick_rest(chars@, self.pace()));
        assert(text@ + self.pending@ =~= chars@);
        TickEffect::Type { text, pause: end < total }
    }

    /// Is the typist currently emitting characters?
    pub fn is_typing(&self) -> (typing: bool)
        ensures
            typing == self.busy(),
    {
        self.typing
    }
}

/// The text that is typed at once, where anything is pending.
pub open spec fn pending_burst(pending: Seq<char>) -> Option<Seq<char>> {
    if pending.len() > 0 {
        Some(pending)
    } else {
        None
    }
}

/// A step of a typist that is not stopped.
pub enum TypingStep {
    /// Text is queued.
    Queue(Seq<char>),
    /// A tick types so many characters.
    Tick(int),
    /// What is pending is typed at once.
    Flush,
}

/// All text that was queued in some steps.
pub open spec fn queued(steps: Seq<TypingStep>) -> Seq<char>
    decreases steps.len(),
{
    if steps.len() == 0 {
        Seq::empty()
    } else {
        match steps.last() {
            TypingStep::Queue(text) => queued(steps.drop_last()) + text,
            _ => queued(steps.drop_last()),
        }
    }
}

/// What has been typed and what is pending behind some steps.
pub open spec fn typed(steps: Seq<TypingStep>) -> (Seq<char>, Seq<char>)
    decreases steps.len(),
{
    if steps.len() == 0 {
        (Seq::empty(), Seq::empty())
    } else {
        let (out, pending) = typed(steps.drop_last());
        match steps.last() {
            TypingStep::Queue(text) => (out, pending + text),
            TypingStep::Tick(pace) => (out + tick_text(pending, pace), tick_rest(pending, pace)),
            TypingStep::Flush => (out + pending, Seq::empty()),
        }
    }
}

/// No character is lost, doubled or moved: what has been typed, with what is pending behind it, is
/// what was queued.
pub proof fn law_typing_is_faithful(steps: Seq<TypingStep>)
    requires
        forall|i: int|
            0 <= i < steps.len() ==> (#[trigger] steps[i] matches TypingStep::Tick(pace) ==> pace
                >= 1),
    ensures
        typed(steps).0 + typed(steps).1 == queued(steps),
    decreases steps.len(),
{
    if steps.len() > 0 {
        let before = steps.drop_last();
        assert forall|i: int| 0 <= i < before.len() implies (#[trigger] before[i] matches
            TypingStep::Tick(pace) ==> pace >= 1) by {
            assert(before[i] == steps[i]);
        }
        law_typing_is_faithful(before);
        let (out, pending) = typed(before);
        match steps.last() {
            TypingStep::Queue(text) => {
                assert(out + (pending + text) =~= (out + pending) + text);
            },
            TypingStep::Tick(pace) => {
                assert(steps[steps.len() - 1] matches TypingStep::Tick(p) ==> p >= 1);
                assert((out + tick_text(pending, pace)) + tick_rest(pending, pace) =~= out
                    + pending);
            },
            TypingStep::Flush => {
                assert((out + pending) + Seq::<char>::empty() =~= out + pending);
            },
        }
    } else {
        assert(Seq::<char>::empty() + Seq::<char>::empty() =~= Seq::<char>::empty());
    }
}

/// What is pending behind `n` ticks.
pub open spec fn after_ticks(pending: Seq<char>, pace: int, n: nat) -> Seq<char>
    decreases n,
{
    if n == 0 {
        pending
    } else {
        after_ticks(tick_rest(pending, pace), pace, (n - 1) as nat)
    }
}

/// Typing comes to its end: as many ticks as there are characters leave nothing pending.
pub proof fn law_typing_ends(pending: Seq<char>, pace: int, n: nat)
    requires
        pace >= 1,
        n >= pending.len(),
    ensures
        after_ticks(pending, pace, n).len() == 0,
    decreases n,
{
    if n > 0 {
        law_typing_ends(tick_rest(pending, pace), pace, (n - 1) as nat);
    }
}

/// A tick types as many characters as it may, from the front, and all where there are fewer; what it
/// types and what it leaves is what was pending.
pub proof fn law_tick_takes_from_the_front(pending: Seq<char>, pace: int)
    requires
        pace >= 1,
    ensures
        tick_text(pending, pace) + tick_rest(pending, pace) == pending,
        pending.len() >= pace ==> tick_text(pending, pace).len() == pace,
        pending.len() < pace ==> tick_text(pending, pace) == pending,
{
    assert(tick_text(pending, pace) + tick_rest(pending, pace) =~= pending);
    if pending.len() < pace {
        assert(tick_text(pending, pace) =~= pending);
    }
}

/// A burst is all that is pending, and there is none only where nothing is.
pub proof fn law_burst_is_all_that_is_pending(pending: Seq<char>)
    ensures
        pending.len() > 0 ==> pending_burst(pending) == Some(pending),
        pending.len() == 0 ==> pending_burst(pending) is None,
{
}

/// Text that is queued is typed behind all that was queued before it, and a flush leaves nothing
/// pending: in any run of steps that ends in one, all that was queued has been typed.
pub proof fn law_flush_types_all_that_was_queued(steps: Seq<TypingStep>)
    requires
        forall|i: int|
            0 <= i < steps.len() ==> (#[trigger] steps[i] matches TypingStep::Tick(pace) ==> pace
                >= 1),
    ensures
        typed(steps.push(TypingStep::Flush)).0 == queued(steps),
        typed(steps.push(TypingStep::Flush)).1.len() == 0,
        forall|text: Seq<char>|
            #![trigger queued(steps.push(TypingStep::Queue(text)))]
            queued(steps.push(TypingStep::Queue(text))) == queued(steps) + text,
{
    let flushed = steps.push(TypingStep::Flush);
    law_typing_is_faithful(steps);
    assert(flushed.drop_last() =~= steps);
    assert forall|text: Seq<char>|
        #![trigger queued(steps.push(TypingStep::Queue(text)))]
        queued(steps.push(TypingStep::Queue(text))) == queued(steps) + text by {
        assert(steps.push(TypingStep::Queue(text)).drop_last() =~= steps);
    }
}

} // verus!
