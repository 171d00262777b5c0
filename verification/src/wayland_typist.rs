//! The virtual keyboard's side of typing: which key stands for which character, the keymap that
//! tells the compositor so, and the key events that spell a text.

use vstd::prelude::*;

use crate::text::{to_chars, to_decimal};

verus! {

/// The keysym that stands for no symbol.
pub const NO_SYMBOL: u32 = 0;

/// The pause behind each character, in microseconds: two hundred characters a second.
pub const INTER_KEY_US: u64 = 5000;

/// The keysym for a character: the keys without a printable form first, then the printable ASCII
/// characters, whose keysyms are their codes, then what the character names, then what its code
/// point gives.
pub open spec fn keysym_of(ch: char, by_name: u32, by_code_point: u32) -> u32 {
    if ch == '\n' {
        0xff0d
    } else if ch == '\t' {
        0xff09
    } else if ch == '\u{1b}' {
        0xff1b
    } else if ' ' <= ch <= '~' {
        ch as u32
    } else if by_name != NO_SYMBOL {
        by_name
    } else {
        by_code_point
    }
}

/// Chooses the keysym for a character, given the keysym that its name gives, upper and lower case
/// kept apart, and the one that its code point gives.
pub fn char_to_keysym(ch: char, by_name: u32, by_code_point: u32) -> (keysym: u32)
    ensures
        keysym == keysym_of(ch, by_name, by_code_point),
        ' ' <= ch <= '~' ==> keysym == ch as u32,
{
    if ch == '\n' {
        0xff0d
    } else if ch == '\t' {
        0xff09
    } else if ch == '\u{1b}' {
        0xff1b
    } else if ' ' <= ch && ch <= '~' {
        ch as u32
    } else if by_name != NO_SYMBOL {
        by_name
    } else {
        by_code_point
    }
}

/// The keysyms for the characters of a text, given the two lookups of each.
pub open spec fn keysyms_of(text: Seq<char>, by_name: Seq<u32>, by_code_point: Seq<u32>) -> Seq<u32> {
    Seq::new(text.len(), |i: int| keysym_of(text[i], by_name[i], by_code_point[i]))
}

/// Chooses the keysyms for the characters of a text, given the two lookups of each.
pub fn text_keysyms(text: &str, by_name: &Vec<u32>, by_code_point: &Vec<u32>) -> (keysyms: Vec<u32>)
    requires
        by_name@.len() == text@.len(),
        by_code_point@.len() == text@.len(),
    ensures
        keysyms@ == keysyms_of(text@, by_name@, by_code_point@),
        keysyms@.len() == text@.len(),
        forall|i: int|
            0 <= i < text@.len() ==> #[trigger] keysyms@[i] == keysym_of(
                text@[i],
                by_name@[i],
                by_code_point@[i],
            ),
{
    let chars: Vec<char> = to_chars(text);
    let mut keysyms: Vec<u32> = Vec::new();
    let mut i: usize = 0;
    while i < chars.len()
        invariant
            i <= chars@.len(),
            chars@ == text@,
            by_name@.len() == text@.len(),
            by_code_point@.len() == text@.len(),
            keysyms@.len() == i,
            forall|j: int|
                0 <= j < i ==> #[trigger] keysyms@[j] == keysym_of(
                    text@[j],
                    by_name@[j],
                    by_code_point@[j],
                ),
        decreases chars@.len() - i,
    {
        keysyms.push(char_to_keysym(chars[i], by_name[i], by_code_point[i]));
        i = i + 1;
    }
    assert(keysyms@ =~= keysyms_of(text@, by_name@, by_code_point@));
    keysyms
}

/// Printable ASCII characters that differ have keysyms that differ, a letter's upper and lower case
/// among them, whatever the lookups give.
pub proof fn law_ascii_keysyms_are_told_apart(a: char, b: char, names: (u32, u32), points: (u32, u32))
    requires
        ' ' <= a <= '~',
        ' ' <= b <= '~',
        a != b,
    ensures
        keysym_of(a, names.0, points.0) != keysym_of(b, names.1, points.1),
{
}

/// The keys that a virtual keyboard has been given so far.
pub struct WaylandTypist {
    /// Each entry: a character and its keysym. Index + 1 = keycode.
    keymap: Vec<(char, u32)>,
    /// True when characters have been added since the last upload of the keymap.
    keymap_dirty: bool,
}

/// Each character has one key.
pub open spec fn one_key_each(keymap: Seq<(char, u32)>) -> bool {
    forall|i: int, j: int|
        0 <= i < j < keymap.len() ==> (#[trigger] keymap[i]).0 != (#[trigger] keymap[j]).0
}

/// The key of a printable ASCII character carries that character's code.
pub open spec fn ascii_as_is(keymap: Seq<(char, u32)>) -> bool {
    forall|i: int|
        0 <= i < keymap.len() && ' ' <= (#[trigger] keymap[i]).0 <= '~' ==> keymap[i].1
            == keymap[i].0 as u32
}

/// The keycode `code` is that of `ch`.
pub open spec fn is_keycode_of(keymap: Seq<(char, u32)>, code: u32, ch: char) -> bool {
    1 <= code <= keymap.len() && keymap[code - 1].0 == ch
}

/// Some key of `keymap` stands for `ch`.
pub open spec fn has_key(keymap: Seq<(char, u32)>, ch: char) -> bool {
    exists|i: int| 0 <= i < keymap.len() && (#[trigger] keymap[i]).0 == ch
}

/// `keymap` with a key for `ch`: as it is where there is one.
pub open spec fn with_key(keymap: Seq<(char, u32)>, ch: char, keysym: u32) -> Seq<(char, u32)> {
    if has_key(keymap, ch) {
        keymap
    } else {
        keymap.push((ch, keysym))
    }
}

/// `keymap` with a key for every character of `text`, added in the order of the text.
pub open spec fn with_keys(keymap: Seq<(char, u32)>, text: Seq<char>, keysyms: Seq<u32>) -> Seq<
    (char, u32),
>
    decreases text.len(),
{
    if text.len() == 0 {
        keymap
    } else {
        with_key(
            with_keys(keymap, text.drop_last(), keysyms),
            text.last(),
            keysyms[text.len() - 1],
        )
    }
}

proof fn lemma_char_bounded(ch: char)
    ensures
        0 <= (ch as int) < 0x11_0000,
{
}

/// A keymap with one key for each character is no longer than there are characters.
pub proof fn lemma_keymap_bounded(keymap: Seq<(char, u32)>)
    requires
        one_key_each(keymap),
    ensures
        keymap.len() <= 0x11_0000,
{
    let codes = keymap.map_values(|entry: (char, u32)| entry.0 as int);
    assert(codes.no_duplicates()) by {
        assert forall|i: int, j: int|
            0 <= i < codes.len() && 0 <= j < codes.len() && i != j implies codes[i] != codes[j] by {
            if i < j {
                assert(keymap[i].0 != keymap[j].0);
            } else {
                assert(keymap[j].0 != keymap[i].0);
            }
        }
    }
    codes.unique_seq_to_set();
    let all = vstd::set_lib::set_int_range(0, 0x11_0000);
    vstd::set_lib::lemma_int_range(0, 0x11_0000);
    assert(codes.to_set().subset_of(all)) by {
        assert forall|x: int| codes.to_set().contains(x) implies all.contains(x) by {
            let i = choose|i: int| 0 <= i < codes.len() && codes[i] == x;
            assert(codes.contains(x));
            lemma_char_bounded(keymap[i].0);
        }
    }
    vstd::set_lib::lemma_len_subset(codes.to_set(), all);
}

proof fn lemma_with_key(keymap: Seq<(char, u32)>, ch: char, keysym: u32)
    requires
        one_key_each(keymap),
    ensures
        one_key_each(with_key(keymap, ch, keysym)),
        has_key(with_key(keymap, ch, keysym), ch),
        keymap.is_prefix_of(with_key(keymap, ch, keysym)),
{
    if !has_key(keymap, ch) {
        let longer = keymap.push((ch, keysym));
        assert(longer[keymap.len() as int].0 == ch);
    }
}

proof fn lemma_with_keys(keymap: Seq<(char, u32)>, text: Seq<char>, keysyms: Seq<u32>)
    requires
        one_key_each(keymap),
    ensures
        one_key_each(with_keys(keymap, text, keysyms)),
        keymap.is_prefix_of(with_keys(keymap, text, keysyms)),
        forall|i: int|
            0 <= i < text.len() ==> has_key(with_keys(keymap, text, keysyms), #[trigger] text[i]),
    decreases text.len(),
{
    if text.len() > 0 {
        let before = with_keys(keymap, text.drop_last(), keysyms);
        lemma_with_keys(keymap, text.drop_last(), keysyms);
        lemma_with_key(before, text.last(), keysyms[text.len() - 1]);
        let after = with_keys(keymap, text, keysyms);
        assert forall|i: int| 0 <= i < text.len() implies has_key(after, #[trigger] text[i]) by {
            if i < text.len() - 1 {
                assert(has_key(before, text.drop_last()[i]));
                let k = choose|k: int|
                    0 <= k < before.len() && (#[trigger] before[k]).0 == text[i];
                assert(after[k].0 == text[i]);
            }
        }
    }
}

proof fn lemma_keycode_kept(
    keymap: Seq<(char, u32)>,
    longer: Seq<(char, u32)>,
    code: u32,
    ch: char,
)
    requires
        keymap.is_prefix_of(longer),
        is_keycode_of(keymap, code, ch),
    ensures
        is_keycode_of(longer, code, ch),
{
    assert(longer[code - 1] == keymap[code - 1]);
}

/// A key is pressed or released.
#[derive(Debug, Clone, Copy, PartialEq, Eq)]
pub struct KeyEvent {
    /// When, in milliseconds from the start of the text.
    pub time_ms: u32,
    /// Which key.
    pub keycode: u32,
    /// Whether it goes down.
    pub pressed: bool,
}

impl WaylandTypist {
    /// The keys, each a character and its keysym.
    pub closed spec fn keys(&self) -> Seq<(char, u32)> {
        self.keymap@
    }

    /// Whether the compositor lacks some of the keys.
    pub closed spec fn dirty(&self) -> bool {
        self.keymap_dirty
    }

    /// Each character has one key, and that of a printable ASCII character carries its code.
    pub open spec fn wf(&self) -> bool {
        one_key_each(self.keys()) && ascii_as_is(self.keys())
    }

    /// A keyboard without any keys.
    pub fn new() -> (typist: WaylandTypist)
        ensures
            typist.wf(),
            typist.keys() == Seq::<(char, u32)>::empty(),
            !typist.dirty(),
    {
        WaylandTypist { keymap: Vec::new(), keymap_dirty: false }
    }

    /// The keysyms of the keys, in the order of their keycodes.
    pub fn keysyms(&self) -> (keysyms: Vec<u32>)
        ensures
            keysyms@ == self.keys().map_values(|entry: (char, u32)| entry.1),
    {
        let mut keysyms: Vec<u32> = Vec::new();
        let mut i: usize = 0;
        while i < self.keymap.len()
            invariant
                i <= self.keymap@.len(),
                keysyms@ == self.keymap@.take(i as int).map_values(|entry: (char, u32)| entry.1),
            decreases self.keymap@.len() - i,
        {
            keysyms.push(self.keymap[i].1);
            i = i + 1;
            assert(keysyms@ =~= self.keymap@.take(i as int).map_values(
                |entry: (char, u32)| entry.1,
            ));
        }
        assert(self.keymap@.take(self.keymap@.len() as int) =~= self.keymap@);
        keysyms
    }

    /// Gets or creates a keycode for a character, given its two lookups.
    pub fn keycode_for_char(&mut self, ch: char, by_name: u32, by_code_point: u32) -> (code: u32)
        requires
            old(self).wf(),
        ensures
            final(self).wf(),
            final(self).keys() == with_key(
                old(self).keys(),
                ch,
                keysym_of(ch, by_name, by_code_point),
            ),
            final(self).dirty() == (old(self).dirty() || !has_key(old(self).keys(), ch)),
            is_keycode_of(final(self).keys(), code, ch),
    {
        let keysym: u32 = char_to_keysym(ch, by_name, by_code_point);
        self.keycode(ch, keysym)
    }

    fn keycode(&mut self, ch: char, keysym: u32) -> (code: u32)
        requires
            old(self).wf(),
            ' ' <= ch <= '~' ==> keysym == ch as u32,
        ensures
            final(self).wf(),
            final(self).keys() == with_key(old(self).keys(), ch, keysym),
            final(self).dirty() == (old(self).dirty() || !has_key(old(self).keys(), ch)),
            is_keycode_of(final(self).keys(), code, ch),
    {
        proof {
            lemma_keymap_bounded(self.keymap@);
            lemma_with_key(self.keymap@, ch, keysym);
        }
        let mut i: usize = 0;
        while i < self.keymap.len()
            invariant
                i <= self.keymap@.len() <= 0x11_0000,
                *self == *old(self),
                self.wf(),
                forall|j: int| 0 <= j < i ==> (#[trigger] self.keymap@[j]).0 != ch,
            decreases self.keymap@.len() - i,
        {
            if self.keymap[i].0 == ch {
                assert(has_key(self.keymap@, ch));
                return (i + 1) as u32;
            }
            i = i + 1;
        }
        self.keymap.push((ch, keysym));
        self.keymap_dirty = true;
        self.keymap.len() as u32
    }

    /// The keycodes that spell a text, with new keys for the characters that have none, given the two
    /// lookups of each character of the text.
    pub fn keycodes(&mut self, text: &str, by_name: &Vec<u32>, by_code_point: &Vec<u32>) -> (codes:
        Vec<u32>)
        requires
            old(self).wf(),
            by_name@.len() == text@.len(),
            by_code_point@.len() == text@.len(),
        ensures
            final(self).wf(),
            final(self).keys() == with_keys(
                old(self).keys(),
                text@,
                keysyms_of(text@, by_name@, by_code_point@),
            ),
            final(self).dirty() == (old(self).dirty() || final(self).keys().len()
                > old(self).keys().len()),
            codes@.len() == text@.len(),
            forall|i: int|
                0 <= i < text@.len() ==> is_keycode_of(
                    final(self).keys(),
                    #[trigger] codes@[i],
                    text@[i],
                ),
    {
        let keysyms: Vec<u32> = text_keysyms(text, by_name, by_code_point);
        let chars: Vec<char> = to_chars(text);
        let mut codes: Vec<u32> = Vec::new();
        let mut i: usize = 0;
        assert(chars@.take(0) =~= Seq::empty());
        while i < chars.len()
            invariant
                i <= chars@.len(),
                chars@ == text@,
                keysyms@ == keysyms_of(text@, by_name@, by_code_point@),
                old(self).wf(),
                self.wf(),
                self.keys() == with_keys(old(self).keys(), chars@.take(i as int), keysyms@),
                self.keys().len() >= old(self).keys().len(),
                self.dirty() == (old(self).dirty() || self.keys().len() > old(self).keys().len()),
                codes@.len() == i,
                forall|j: int|
                    0 <= j < i ==> is_keycode_of(self.keys(), #[trigger] codes@[j], text@[j]),
            decreases chars@.len() - i,
        {
            let ghost before = self.keys();
            let ghost earlier = codes@;
            let code: u32 = self.keycode(chars[i], keysyms[i]);
            codes.push(code);
            proof {
                assert(chars@.take(i + 1).drop_last() =~= chars@.take(i as int));
                lemma_with_key(before, chars@[i as int], keysyms@[i as int]);
                assert forall|j: int| 0 <= j < i + 1 implies is_keycode_of(
                    self.keys(),
                    #[trigger] codes@[j],
                    text@[j],
                ) by {
                    if j < i {
                        assert(is_keycode_of(before, earlier[j], text@[j]));
                        lemma_keycode_kept(before, self.keys(), codes@[j], text@[j]);
                    }
                }
            }
            i = i + 1;
        }
        assert(chars@.take(chars@.len() as int) =~= chars@);
        codes
    }

    /// The keymap to upload, given the name of each key's keysym, with the null byte that ends
    /// it: nothing where the compositor has all keys.
    pub fn pending_upload(&self, names: &Vec<String>) -> (upload: Option<Vec<u8>>)
        requires
            self.wf(),
            names@.len() == self.keys().len(),
        ensures
            match upload {
                Some(bytes) => self.dirty() && bytes@ == vstd::utf8::encode_utf8(
                    keymap_text(crate::text::texts(names@)),
                ).push(0),
                None => !self.dirty(),
            },
    {
        if !self.keymap_dirty {
            return None;
        }
        proof {
            lemma_keymap_bounded(self.keymap@);
        }
        let text: String = build_xkb_keymap(names);
        let mut bytes: Vec<u8> = text.as_str().as_bytes_vec();
        bytes.push(0);
        Some(bytes)
    }

    /// Notes that the compositor has the keymap.
    pub fn uploaded(&mut self)
        ensures
            final(self).keys() == old(self).keys(),
            !final(self).dirty(),
    {
        self.keymap_dirty = false;
    }
}

/// Event number `k` of the key events for some keycodes: each key goes down and up in turn, a
/// millisecond apart.
pub open spec fn event_at(codes: Seq<u32>, k: int) -> KeyEvent {
    KeyEvent { time_ms: k as u32, keycode: codes[k / 2], pressed: k % 2 == 0 }
}

/// The key events that some keycodes stand for.
pub fn key_events(codes: &Vec<u32>) -> (events: Vec<KeyEvent>)
    requires
        2 * codes@.len() <= u32::MAX,
    ensures
        events@ == Seq::new(2 * codes@.len(), |k: int| event_at(codes@, k)),
{
    let mut events: Vec<KeyEvent> = Vec::new();
    let mut time_ms: u32 = 0;
    let mut i: usize = 0;
    while i < codes.len()
        invariant
            i <= codes@.len(),
            2 * codes@.len() <= u32::MAX,
            time_ms == 2 * i,
            events@.len() == 2 * i,
            forall|k: int| 0 <= k < 2 * i ==> #[trigger] events@[k] == event_at(codes@, k),
        decreases codes@.len() - i,
    {
        events.push(KeyEvent { time_ms, keycode: codes[i], pressed: true });
        time_ms = time_ms + 1;
        events.push(KeyEvent { time_ms, keycode: codes[i], pressed: false });
        time_ms = time_ms + 1;
        i = i + 1;
    }
    assert(events@ =~= Seq::new(2 * codes@.len(), |k: int| event_at(codes@, k)));
    events
}

/// The line that gives key number `i` its keycode.
pub open spec fn keycode_line(i: nat) -> Seq<char> {
    "<K"@ + crate::text::decimal(i + 1) + "> = "@ + crate::text::decimal(i + 9) + ";\n"@
}

/// The lines that give the first `n` keys their keycodes.
pub open spec fn keycode_lines(n: nat) -> Seq<char>
    decreases n,
{
    if n == 0 {
        Seq::empty()
    } else {
        keycode_lines((n - 1) as nat) + keycode_line((n - 1) as nat)
    }
}

/// The line that gives key number `i` its symbol.
pub open spec fn symbol_line(i: nat, name: Seq<char>) -> Seq<char> {
    "key <K"@ + crate::text::decimal(i + 1) + "> {["@ + name + "]};\n"@
}

/// The lines that give the keys their symbols.
pub open spec fn symbol_lines(names: Seq<Seq<char>>) -> Seq<char>
    decreases names.len(),
{
    if names.len() == 0 {
        Seq::empty()
    } else {
        symbol_lines(names.drop_last()) + symbol_line((names.len() - 1) as nat, names.last())
    }
}

/// The XKB keymap in which the keys carry the symbols `names`.
pub open spec fn keymap_text(names: Seq<Seq<char>>) -> Seq<char> {
    "xkb_keymap {\n"@ + "xkb_keycodes \"(unnamed)\" {\nminimum = 8;\nmaximum = "@
        + crate::text::decimal(names.len() + 9) + ";\n"@ + keycode_lines(names.len()) + "};\n"@
        + "xkb_types \"(unnamed)\" { include \"complete\" };\n"@
        + "xkb_compatibility \"(unnamed)\" { include \"complete\" };\n"@
        + "xkb_symbols \"(unnamed)\" {\n"@ + symbol_lines(names) + "};\n"@ + "};\n"@
}

/// Builds the XKB keymap for keys whose symbols have the given names.
pub fn build_xkb_keymap(names: &Vec<String>) -> (result: String)
    requires
        names@.len() + 9 <= u32::MAX,
    ensures
        result@ == keymap_text(crate::text::texts(names@)),
{
    let ghost all = crate::text::texts(names@);
    let count: u64 = names.len() as u64;

    let mut keycodes: String = String::new();
    let mut i: u64 = 0;
    while i < count
        invariant
            i <= count <= u32::MAX - 9,
            keycodes@ == keycode_lines(i as nat),
        decreases count - i,
    {
        let ghost before = keycodes@;
        keycodes.append("<K");
        keycodes.append(to_decimal(i + 1).as_str());
        keycodes.append("> = ");
        keycodes.append(to_decimal(i + 9).as_str());
        keycodes.append(";\n");
        assert(keycodes@ =~= before + keycode_line(i as nat));
        i = i + 1;
    }

    let mut symbols: String = String::new();
    let mut k: usize = 0;
    while k < names.len()
        invariant
            k <= names@.len() <= u32::MAX - 9,
            all == crate::text::texts(names@),
            symbols@ == symbol_lines(all.take(k as int)),
        decreases names@.len() - k,
    {
        let ghost before = symbols@;
        symbols.append("key <K");
        symbols.append(to_decimal(k as u64 + 1).as_str());
        symbols.append("> {[");
        symbols.append(names[k].as_str());
        symbols.append("]};\n");
        assert(symbols@ =~= before + symbol_line(k as nat, all[k as int]));
        assert(all.take(k + 1).drop_last() =~= all.take(k as int));
        k = k + 1;
    }
    assert(all.take(all.len() as int) =~= all);

    let mut result: String = "xkb_keymap {\n".to_string();
    result.append("xkb_keycodes \"(unnamed)\" {\nminimum = 8;\nmaximum = ");
    result.append(to_decimal(count + 9).as_str());
    result.append(";\n");
    result.append(keycodes.as_str());
    result.append("};\n");
    result.append("xkb_types \"(unnamed)\" { include \"complete\" };\n");
    result.append("xkb_compatibility \"(unnamed)\" { include \"complete\" };\n");
    result.append("xkb_symbols \"(unnamed)\" {\n");
    result.append(symbols.as_str());
    result.append("};\n");
    result.append("};\n");
    result
}

/// The text that keycodes spell on a keyboard with the keys `keymap`.
pub open spec fn spelled(keymap: Seq<(char, u32)>, codes: Seq<u32>) -> Seq<char> {
    codes.map_values(|code: u32| keymap[code - 1].0)
}

/// The keycodes of a text spell that text, and they still do when other texts have added keys to
/// the keyboard.
pub proof fn law_keycodes_spell_the_text(
    keymap: Seq<(char, u32)>,
    text: Seq<char>,
    codes: Seq<u32>,
    later: Seq<char>,
    keysyms: Seq<u32>,
)
    requires
        one_key_each(keymap),
        codes.len() == text.len(),
        forall|i: int| 0 <= i < text.len() ==> is_keycode_of(keymap, #[trigger] codes[i], text[i]),
    ensures
        spelled(keymap, codes) == text,
        spelled(with_keys(keymap, later, keysyms), codes) == text,
{
    lemma_with_keys(keymap, later, keysyms);
    let longer = with_keys(keymap, later, keysyms);
    assert forall|i: int| 0 <= i < text.len() implies longer[#[trigger] codes[i] - 1].0
        == text[i] by {
        assert(is_keycode_of(keymap, codes[i], text[i]));
        lemma_keycode_kept(keymap, longer, codes[i], text[i]);
    }
    assert forall|i: int| 0 <= i < text.len() implies keymap[#[trigger] codes[i] - 1].0
        == text[i] by {
        assert(is_keycode_of(keymap, codes[i], text[i]));
    }
    assert(spelled(keymap, codes) =~= text);
    assert(spelled(longer, codes) =~= text);
}

/// Whatever text is typed and whatever the lookups give, the key of a printable ASCII character
/// carries that character's code.
pub proof fn law_ascii_is_typed_as_is(
    keymap: Seq<(char, u32)>,
    text: Seq<char>,
    by_name: Seq<u32>,
    by_code_point: Seq<u32>,
)
    requires
        ascii_as_is(keymap),
    ensures
        ascii_as_is(with_keys(keymap, text, keysyms_of(text, by_name, by_code_point))),
{
    lemma_ascii_as_is(keymap, text, keysyms_of(text, by_name, by_code_point));
}

proof fn lemma_ascii_as_is(keymap: Seq<(char, u32)>, text: Seq<char>, keysyms: Seq<u32>)
    requires
        ascii_as_is(keymap),
        forall|i: int|
            0 <= i < text.len() && ' ' <= #[trigger] text[i] <= '~' ==> keysyms[i]
                == text[i] as u32,
    ensures
        ascii_as_is(with_keys(keymap, text, keysyms)),
    decreases text.len(),
{
    if text.len() > 0 {
        let before = text.drop_last();
        assert forall|i: int| 0 <= i < before.len() && ' ' <= #[trigger] before[i] <= '~' implies
            keysyms[i] == before[i] as u32 by {
            assert(before[i] == text[i]);
        }
        lemma_ascii_as_is(keymap, before, keysyms);
        assert(text.last() == text[text.len() - 1]);
    }
}

/// Every key that goes down goes up again before the next one goes down, and time does not stand
/// still.
pub proof fn law_every_key_is_released(codes: Seq<u32>, i: int)
    requires
        0 <= i < codes.len(),
        2 * codes.len() <= u32::MAX,
    ensures
        ({
            let down = event_at(codes, 2 * i);
            let up = event_at(codes, 2 * i + 1);
            &&& down.pressed && !up.pressed
            &&& down.keycode == codes[i] && up.keycode == codes[i]
            &&& down.time_ms < up.time_ms
            &&& i + 1 < codes.len() ==> up.time_ms < event_at(codes, 2 * (i + 1)).time_ms
        }),
{
}

/// Typing a text once more adds no key, so the keymap is not uploaded again.
pub proof fn law_known_text_adds_no_key(
    keymap: Seq<(char, u32)>,
    text: Seq<char>,
    keysyms: Seq<u32>,
    again: Seq<u32>,
)
    requires
        one_key_each(keymap),
    ensures
        with_keys(with_keys(keymap, text, keysyms), text, again) == with_keys(
            keymap,
            text,
            keysyms,
        ),
{
    lemma_with_keys(keymap, text, keysyms);
    lemma_all_known(with_keys(keymap, text, keysyms), text, again);
}

proof fn lemma_all_known(keymap: Seq<(char, u32)>, text: Seq<char>, keysyms: Seq<u32>)
    requires
        forall|i: int| 0 <= i < text.len() ==> has_key(keymap, #[trigger] text[i]),
    ensures
        with_keys(keymap, text, keysyms) == keymap,
    decreases text.len(),
{
    if text.len() > 0 {
        assert forall|i: int| 0 <= i < text.len() - 1 implies has_key(
            keymap,
            #[trigger] text.drop_last()[i],
        ) by {
            assert(has_key(keymap, text[i]));
        }
        lemma_all_known(keymap, text.drop_last(), keysyms);
        assert(has_key(keymap, text[text.len() - 1]));
    }
}

/// The keycode section of a keymap has one line for each key, in order, which binds the key with the
/// number `i + 1` to the keycode `i + 9`; the symbol section has one line for each of these keys, in
/// the same order, which names the key by the same number and carries its own name; and there are
/// no other lines for keys.
pub proof fn law_keymap_gives_every_key_its_symbol(names: Seq<Seq<char>>)
    ensures
        ({
            let bindings = Seq::new(
                names.len(),
                |i: int|
                    "<K"@ + crate::text::decimal((i + 1) as nat) + "> = "@ + crate::text::decimal(
                        (i + 9) as nat,
                    ) + ";\n"@,
            );
            let symbols = Seq::new(
                names.len(),
                |i: int|
                    "key <K"@ + crate::text::decimal((i + 1) as nat) + "> {["@ + names[i]
                        + "]};\n"@,
            );
            keymap_text(names) == "xkb_keymap {\n"@
                + "xkb_keycodes \"(unnamed)\" {\nminimum = 8;\nmaximum = "@
                + crate::text::decimal(names.len() + 9) + ";\n"@ + bindings.flatten() + "};\n"@
                + "xkb_types \"(unnamed)\" { include \"complete\" };\n"@
                + "xkb_compatibility \"(unnamed)\" { include \"complete\" };\n"@
                + "xkb_symbols \"(unnamed)\" {\n"@ + symbols.flatten() + "};\n"@ + "};\n"@
        }),
{
    lemma_keycode_lines(names.len());
    lemma_symbol_lines(names);
}

/// Keys with different numbers are named differently and have different keycodes, none of them
/// above the keymap's maximum; so no line of the symbol section is for a key that another line is
/// for.
pub proof fn law_keys_are_told_apart(n: nat, i: nat, j: nat)
    requires
        i < n,
        j < n,
        i != j,
    ensures
        "<K"@ + crate::text::decimal(i + 1) + ">"@ != "<K"@ + crate::text::decimal(j + 1) + ">"@,
        crate::text::decimal(i + 9) != crate::text::decimal(j + 9),
        i + 9 < n + 9,
{
    crate::text::law_decimal_tells_numbers_apart(i + 1, j + 1);
    crate::text::law_decimal_tells_numbers_apart(i + 9, j + 9);
    let a = crate::text::decimal(i + 1);
    let b = crate::text::decimal(j + 1);
    let p = "<K"@;
    let q = ">"@;
    if p + a + q == p + b + q {
        assert((p + a + q).len() == (p + b + q).len());
        assert((p + a + q).subrange(p.len() as int, (p.len() + a.len()) as int) =~= a);
        assert((p + b + q).subrange(p.len() as int, (p.len() + b.len()) as int) =~= b);
    }
}

proof fn lemma_flatten_push(lines: Seq<Seq<char>>, last: Seq<char>)
    ensures
        lines.push(last).flatten() == lines.flatten() + last,
{
    let longer = lines.push(last);
    longer.lemma_flatten_and_flatten_alt_are_equivalent();
    lines.lemma_flatten_and_flatten_alt_are_equivalent();
    assert(longer.drop_last() =~= lines);
}

proof fn lemma_keycode_lines(n: nat)
    ensures
        keycode_lines(n) == Seq::new(
            n,
            |i: int|
                "<K"@ + crate::text::decimal((i + 1) as nat) + "> = "@ + crate::text::decimal(
                    (i + 9) as nat,
                ) + ";\n"@,
        ).flatten(),
    decreases n,
{
    let line = |i: int|
        "<K"@ + crate::text::decimal((i + 1) as nat) + "> = "@ + crate::text::decimal(
            (i + 9) as nat,
        ) + ";\n"@;
    let lines = Seq::new(n, line);
    if n == 0 {
        assert(lines.flatten() =~= Seq::empty());
    } else {
        let m = (n - 1) as nat;
        lemma_keycode_lines(m);
        lemma_flatten_push(Seq::new(m, line), line(n - 1));
        assert(Seq::new(m, line).push(line(n - 1)) =~= lines);
    }
}

proof fn lemma_symbol_lines(names: Seq<Seq<char>>)
    ensures
        symbol_lines(names) == Seq::new(
            names.len(),
            |i: int|
                "key <K"@ + crate::text::decimal((i + 1) as nat) + "> {["@ + names[i] + "]};\n"@,
        ).flatten(),
    decreases names.len(),
{
    let lines = Seq::new(
        names.len(),
        |i: int|
            "key <K"@ + crate::text::decimal((i + 1) as nat) + "> {["@ + names[i] + "]};\n"@,
    );
    if names.len() == 0 {
        assert(lines.flatten() =~= Seq::empty());
    } else {
        let before = names.drop_last();
        let fewer = Seq::new(
            before.len(),
            |i: int|
                "key <K"@ + crate::text::decimal((i + 1) as nat) + "> {["@ + before[i]
                    + "]};\n"@,
        );
        lemma_symbol_lines(before);
        lemma_flatten_push(fewer, lines.last());
        assert(fewer.push(lines.last()) =~= lines);
    }
}

/// The keys of a text: those there were stay where they were, every character of the text has one,
/// no character has two, and a key that is new is that of a character of the text, with the keysym
/// that goes with one of its places.
pub proof fn law_text_gets_the_keys_it_needs(
    keymap: Seq<(char, u32)>,
    text: Seq<char>,
    keysyms: Seq<u32>,
)
    requires
        one_key_each(keymap),
    ensures
        ({
            let keys = with_keys(keymap, text, keysyms);
            &&& keys.len() >= keymap.len()
            &&& forall|i: int| 0 <= i < keymap.len() ==> #[trigger] keys[i] == keymap[i]
            &&& forall|i: int|
                0 <= i < text.len() ==> exists|k: int|
                    0 <= k < keys.len() && (#[trigger] keys[k]).0 == #[trigger] text[i]
            &&& forall|i: int, j: int|
                0 <= i < j < keys.len() ==> (#[trigger] keys[i]).0 != (#[trigger] keys[j]).0
            &&& forall|k: int|
                keymap.len() <= k < keys.len() ==> exists|i: int|
                    0 <= i < text.len() && #[trigger] keys[k] == (#[trigger] text[i], keysyms[i])
        }),
    decreases text.len(),
{
    lemma_with_keys(keymap, text, keysyms);
    let keys = with_keys(keymap, text, keysyms);
    assert forall|i: int| 0 <= i < text.len() implies exists|k: int|
        0 <= k < keys.len() && (#[trigger] keys[k]).0 == #[trigger] text[i] by {
        assert(has_key(keys, text[i]));
    }
    if text.len() > 0 {
        let before = text.drop_last();
        let fewer = with_keys(keymap, before, keysyms);
        law_text_gets_the_keys_it_needs(keymap, before, keysyms);
        assert forall|k: int| keymap.len() <= k < keys.len() implies exists|i: int|
            0 <= i < text.len() && #[trigger] keys[k] == (#[trigger] text[i], keysyms[i]) by {
            if k < fewer.len() {
                assert(keys[k] == fewer[k]);
                let i = choose|i: int|
                    0 <= i < before.len() && fewer[k] == (#[trigger] before[i], keysyms[i]);
                assert(text[i] == before[i]);
            } else {
                assert(keys[k] == (text[text.len() - 1], keysyms[text.len() - 1]));
            }
        }
    }
}

/// The keys without a printable form have keysyms of their own; any other character beyond ASCII has
/// the one that it names, or else the one of its code point.
pub proof fn law_keysyms_are_looked_up(ch: char, by_name: u32, by_code_point: u32)
    ensures
        keysym_of('\n', by_name, by_code_point) == 0xff0d,
        keysym_of('\t', by_name, by_code_point) == 0xff09,
        keysym_of('\u{1b}', by_name, by_code_point) == 0xff1b,
        ' ' <= ch <= '~' ==> keysym_of(ch, by_name, by_code_point) == ch as u32,
        ch > '~' && by_name != 0 ==> keysym_of(ch, by_name, by_code_point) == by_name,
        ch > '~' && by_name == 0 ==> keysym_of(ch, by_name, by_code_point) == by_code_point,
{
}

/// Any character that is neither printable ASCII nor one of the three keys without a printable form
/// has the keysym that it names, or else the one of its code point, control characters among them.
pub proof fn law_other_characters_are_looked_up(ch: char, by_name: u32, by_code_point: u32)
    requires
        ch < ' ' || ch > '~',
        ch != '\n',
        ch != '\t',
        ch != '\u{1b}',
    ensures
        keysym_of(ch, by_name, by_code_point) == if by_name != 0 {
            by_name
        } else {
            by_code_point
        },
{
}

/// A text's keysyms are those of its characters, each by its own lookups.
pub proof fn law_each_character_has_its_own_keysym(
    a: Seq<char>,
    b: Seq<char>,
    by_name: Seq<u32>,
    by_code_point: Seq<u32>,
)
    requires
        by_name.len() == a.len() + b.len(),
        by_code_point.len() == a.len() + b.len(),
    ensures
        keysyms_of(a + b, by_name, by_code_point) == keysyms_of(
            a,
            by_name.take(a.len() as int),
            by_code_point.take(a.len() as int),
        ) + keysyms_of(b, by_name.skip(a.len() as int), by_code_point.skip(a.len() as int)),
        keysyms_of(a, by_name, by_code_point).len() == a.len(),
{
    assert(keysyms_of(a + b, by_name, by_code_point) =~= keysyms_of(
        a,
        by_name.take(a.len() as int),
        by_code_point.take(a.len() as int),
    ) + keysyms_of(b, by_name.skip(a.len() as int), by_code_point.skip(a.len() as int)));
}

/// Keys are added character by character, in the order of the text: a text typed in two parts gets
/// the same keys, and a character that has no key gets the next one, with its own keysym.
pub proof fn law_keys_are_added_in_order(
    keymap: Seq<(char, u32)>,
    a: Seq<char>,
    b: Seq<char>,
    keysyms: Seq<u32>,
    ch: char,
    keysym: u32,
)
    requires
        keysyms.len() == a.len() + b.len(),
    ensures
        with_keys(keymap, a + b, keysyms) == with_keys(
            with_keys(keymap, a, keysyms.take(a.len() as int)),
            b,
            keysyms.skip(a.len() as int),
        ),
        (forall|i: int| 0 <= i < keymap.len() ==> (#[trigger] keymap[i]).0 != ch) ==> with_keys(
            keymap,
            seq![ch],
            seq![keysym],
        ) == keymap + seq![(ch, keysym)],
        with_keys(keymap, Seq::<char>::empty(), keysyms) == keymap,
{
    lemma_keys_add_up(keymap, a, b, keysyms);
    lemma_same_keysyms(keymap, a, keysyms, keysyms.take(a.len() as int));
    assert(seq![ch].drop_last() =~= Seq::<char>::empty());
    if forall|i: int| 0 <= i < keymap.len() ==> (#[trigger] keymap[i]).0 != ch {
        assert(!has_key(keymap, ch));
        reveal_with_fuel(with_keys, 2);
        assert(with_keys(keymap, seq![ch], seq![keysym]) =~= keymap + seq![(ch, keysym)]);
    }
}

proof fn lemma_same_keysyms(
    keymap: Seq<(char, u32)>,
    text: Seq<char>,
    a: Seq<u32>,
    b: Seq<u32>,
)
    requires
        forall|i: int| 0 <= i < text.len() ==> a[i] == b[i],
    ensures
        with_keys(keymap, text, a) == with_keys(keymap, text, b),
    decreases text.len(),
{
    if text.len() > 0 {
        lemma_same_keysyms(keymap, text.drop_last(), a, b);
    }
}

proof fn lemma_keys_add_up(
    keymap: Seq<(char, u32)>,
    a: Seq<char>,
    b: Seq<char>,
    keysyms: Seq<u32>,
)
    requires
        keysyms.len() >= a.len() + b.len(),
    ensures
        with_keys(keymap, a + b, keysyms) == with_keys(
            with_keys(keymap, a, keysyms),
            b,
            keysyms.skip(a.len() as int),
        ),
    decreases b.len(),
{
    if b.len() == 0 {
        assert(a + b =~= a);
    } else {
        lemma_keys_add_up(keymap, a, b.drop_last(), keysyms);
        assert((a + b).drop_last() =~= a + b.drop_last());
    }
}

/// The events of a text come a millisecond apart, from the start of the text on: the key of the
/// character at `i` goes down at twice `i` and up a millisecond later.
pub proof fn law_events_come_a_millisecond_apart(codes: Seq<u32>, i: int)
    requires
        0 <= i < codes.len(),
        2 * codes.len() <= u32::MAX,
    ensures
        event_at(codes, 2 * i) == (KeyEvent {
            time_ms: (2 * i) as u32,
            keycode: codes[i],
            pressed: true,
        }),
        event_at(codes, 2 * i + 1) == (KeyEvent {
            time_ms: (2 * i + 1) as u32,
            keycode: codes[i],
            pressed: false,
        }),
{
}

} // verus!
