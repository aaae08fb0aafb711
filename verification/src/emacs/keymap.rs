//! Emacs chord syntax (`C-x`, `M-<`, `C-SPC`, sequences like `C-x C-x`) and prefix-aware keymap
//! lookup.

use crate::input::{KeyCode, MediaKeyCode, ModifierKeyCode, TerminalKey};
use crate::text::{
    char_is_control, char_is_whitespace, chars_of, decimal, is_control, is_token,
    lemma_words_appended, lemma_words_are_tokens, lemma_words_of_token, parse_unsigned, parsed_unsigned, push_decimal,
    same_text, split_words, string_of, views, words_from,
};
use vstd::prelude::*;

verus! {

/// One chord: modifiers and a base key.
///
/// Shift is not modelled: a character already encodes it (`M-<` arrives as Alt, Shift and `<`).
#[derive(Debug, Clone, Copy, PartialEq, Eq, Structural)]
pub struct Chord {
    pub ctrl: bool,
    pub meta: bool,
    pub code: KeyCode,
}

/// The keys that a chord can be made of.
pub open spec fn bindable(code: KeyCode) -> bool {
    match code {
        KeyCode::Char(_)
        | KeyCode::Esc
        | KeyCode::Enter
        | KeyCode::Tab
        | KeyCode::Backspace
        | KeyCode::Delete
        | KeyCode::Up
        | KeyCode::Down
        | KeyCode::Left
        | KeyCode::Right
        | KeyCode::Home
        | KeyCode::End
        | KeyCode::PageUp
        | KeyCode::PageDown
        | KeyCode::F(_) => true,
        _ => false,
    }
}

/// The chord of a key, unless the key cannot be bound.
pub open spec fn canonical(ctrl: bool, meta: bool, code: KeyCode) -> Option<Chord> {
    if bindable(code) {
        Some(Chord { ctrl, meta, code })
    } else {
        None
    }
}

impl Chord {
    /// Control and `c`.
    pub fn ctrl(c: char) -> (r: Self)
        ensures
            r == (Chord { ctrl: true, meta: false, code: KeyCode::Char(c) }),
    {
        Chord { ctrl: true, meta: false, code: KeyCode::Char(c) }
    }

    /// The chord of a decoded terminal key; none for keys that are never bound.
    pub fn from_key(key: &TerminalKey) -> (r: Option<Self>)
        ensures
            r == canonical(key.modifiers.control, key.modifiers.alt, key.code),
    {
        canonical_chord(key.modifiers.control, key.modifiers.alt, key.code)
    }

    /// The character that the chord would insert into a buffer: a bare printable one.
    pub open spec fn inserts(self) -> Option<char> {
        match self.code {
            KeyCode::Char(c) => if !self.ctrl && !self.meta && !char_is_control(c) {
                Some(c)
            } else {
                None
            },
            _ => None,
        }
    }

    /// Whether the chord would insert a character into a buffer.
    pub fn is_self_insert(&self) -> (r: bool)
        ensures
            r == (self.inserts() is Some),
    {
        match self.code {
            KeyCode::Char(c) => !self.ctrl && !self.meta && !is_control(c),
            _ => false,
        }
    }

    /// The character that the chord would insert into a buffer.
    pub fn self_insert_char(&self) -> (r: Option<char>)
        ensures
            r == self.inserts(),
    {
        match self.code {
            KeyCode::Char(c) => if self.is_self_insert() {
                Some(c)
            } else {
                None
            },
            _ => None,
        }
    }
}

/// The single place that decides which keys can be bound.
///
/// Control characters that share a byte with another key on an old terminal (`C-i` and `TAB`,
/// `C-m` and `RET`, `C-[` and `ESC`) stay apart: where the terminal tells them apart, so does the
/// chord.
pub fn canonical_chord(ctrl: bool, meta: bool, code: KeyCode) -> (r: Option<Chord>)
    ensures
        r == canonical(ctrl, meta, code),
{
    match code {
        KeyCode::Char(_)
        | KeyCode::Esc
        | KeyCode::Enter
        | KeyCode::Tab
        | KeyCode::Backspace
        | KeyCode::Delete
        | KeyCode::Up
        | KeyCode::Down
        | KeyCode::Left
        | KeyCode::Right
        | KeyCode::Home
        | KeyCode::End
        | KeyCode::PageUp
        | KeyCode::PageDown
        | KeyCode::F(_) => Some(Chord { ctrl, meta, code }),
        _ => None,
    }
}

/// The key of a name: a named key, a function key `F1` to `F12`, or a single character.
pub open spec fn key_named(name: Seq<char>) -> Option<KeyCode> {
    if name == "SPC"@ {
        Some(KeyCode::Char(' '))
    } else if name == "RET"@ {
        Some(KeyCode::Enter)
    } else if name == "TAB"@ {
        Some(KeyCode::Tab)
    } else if name == "ESC"@ {
        Some(KeyCode::Esc)
    } else if name == "DEL"@ {
        Some(KeyCode::Backspace)
    } else if name == "UP"@ {
        Some(KeyCode::Up)
    } else if name == "DOWN"@ {
        Some(KeyCode::Down)
    } else if name == "LEFT"@ {
        Some(KeyCode::Left)
    } else if name == "RIGHT"@ {
        Some(KeyCode::Right)
    } else if name == "HOME"@ {
        Some(KeyCode::Home)
    } else if name == "END"@ {
        Some(KeyCode::End)
    } else if name == "PRIOR"@ {
        Some(KeyCode::PageUp)
    } else if name == "NEXT"@ {
        Some(KeyCode::PageDown)
    } else if name == "DELETE"@ {
        Some(KeyCode::Delete)
    } else if function_key(name) is Some {
        Some(KeyCode::F(function_key(name)->0))
    } else if name.len() == 1 {
        Some(KeyCode::Char(name[0]))
    } else {
        None
    }
}

/// The number of a function key's name.
pub open spec fn function_key(name: Seq<char>) -> Option<u8> {
    if name.len() > 0 && name[0] == 'F' {
        match parsed_unsigned(name.skip(1), 255) {
            Some(n) => if 1 <= n <= 12 {
                Some(n as u8)
            } else {
                None
            },
            None => None,
        }
    } else {
        None
    }
}

fn named_function_key(name: &str) -> (r: Option<u8>)
    ensures
        r == function_key(name@),
{
    let chars = chars_of(name);
    if chars.len() == 0 || chars[0] != 'F' {
        return None;
    }
    let digits = string_of(chars.as_slice(), 1, chars.len());
    assert(digits@ =~= name@.skip(1));
    match parse_unsigned(digits.as_str(), 255) {
        Some(n) => if 1 <= n && n <= 12 {
            Some(n as u8)
        } else {
            None
        },
        None => None,
    }
}

fn named_key(name: &str) -> (r: Option<KeyCode>)
    ensures
        r == key_named(name@),
{
    if same_text(name, "SPC") {
        return Some(KeyCode::Char(' '));
    }
    if same_text(name, "RET") {
        return Some(KeyCode::Enter);
    }
    if same_text(name, "TAB") {
        return Some(KeyCode::Tab);
    }
    if same_text(name, "ESC") {
        return Some(KeyCode::Esc);
    }
    if same_text(name, "DEL") {
        return Some(KeyCode::Backspace);
    }
    if same_text(name, "UP") {
        return Some(KeyCode::Up);
    }
    if same_text(name, "DOWN") {
        return Some(KeyCode::Down);
    }
    if same_text(name, "LEFT") {
        return Some(KeyCode::Left);
    }
    if same_text(name, "RIGHT") {
        return Some(KeyCode::Right);
    }
    if same_text(name, "HOME") {
        return Some(KeyCode::Home);
    }
    if same_text(name, "END") {
        return Some(KeyCode::End);
    }
    if same_text(name, "PRIOR") {
        return Some(KeyCode::PageUp);
    }
    if same_text(name, "NEXT") {
        return Some(KeyCode::PageDown);
    }
    if same_text(name, "DELETE") {
        return Some(KeyCode::Delete);
    }
    if let Some(n) = named_function_key(name) {
        return Some(KeyCode::F(n));
    }
    if name.unicode_len() == 1 {
        Some(KeyCode::Char(name.get_char(0)))
    } else {
        None
    }
}

/// The chord that `s` spells behind the modifiers already read: `C-` and `M-` at most once each,
/// then a key.
pub open spec fn chord_named(s: Seq<char>, ctrl: bool, meta: bool) -> Option<Chord>
    decreases s.len(),
{
    if s.len() >= 2 && s[1] == '-' && s[0] == 'C' {
        if s.len() == 2 || ctrl {
            None
        } else {
            chord_named(s.skip(2), true, meta)
        }
    } else if s.len() >= 2 && s[1] == '-' && s[0] == 'M' {
        if s.len() == 2 || meta {
            None
        } else {
            chord_named(s.skip(2), ctrl, true)
        }
    } else if s.len() == 0 {
        None
    } else {
        match key_named(s) {
            Some(code) => canonical(ctrl, meta, code),
            None => None,
        }
    }
}

/// Reads one chord in Emacs notation: `C-` and `M-` prefixes and then a character or a named key.
pub fn parse_chord(s: &str) -> (r: Option<Chord>)
    ensures
        r == chord_named(s@, false, false),
{
    let chars = chars_of(s);
    let len: usize = chars.len();
    let mut ctrl = false;
    let mut meta = false;
    let mut at: usize = 0;
    assert(s@.skip(0) =~= s@);
    while len - at >= 2 && chars[at + 1] == '-' && (chars[at] == 'C' || chars[at] == 'M')
        invariant
            at <= len == chars@.len(),
            chars@ == s@,
            chord_named(s@, false, false) == chord_named(s@.skip(at as int), ctrl, meta),
        decreases len - at,
    {
        assert(s@.skip(at as int).skip(2) =~= s@.skip(at + 2));
        if chars[at] == 'C' {
            if len - at == 2 || ctrl {
                return None;
            }
            ctrl = true;
        } else {
            if len - at == 2 || meta {
                return None;
            }
            meta = true;
        }
        at += 2;
    }
    if at == len {
        return None;
    }
    let rest = string_of(chars.as_slice(), at, len);
    assert(rest@ =~= s@.skip(at as int));
    match named_key(rest.as_str()) {
        Some(code) => canonical_chord(ctrl, meta, code),
        None => None,
    }
}

/// The chords that `words` spell, if every one does.
pub open spec fn chords_named(words: Seq<Seq<char>>) -> Option<Seq<Chord>>
    decreases words.len(),
{
    if words.len() == 0 {
        Some(Seq::empty())
    } else {
        match (chords_named(words.drop_last()), chord_named(words.last(), false, false)) {
            (Some(chords), Some(chord)) => Some(chords.push(chord)),
            _ => None,
        }
    }
}

/// The sequence that a text spells: at least one word, every one a chord.
pub open spec fn sequence_named(s: Seq<char>) -> Option<Seq<Chord>> {
    if words_from(s, 0).len() == 0 {
        None
    } else {
        chords_named(words_from(s, 0))
    }
}

proof fn lemma_chords_named_prefix(words: Seq<Seq<char>>, i: int)
    requires
        0 <= i <= words.len(),
        chords_named(words.take(i)) is None,
    ensures
        chords_named(words) is None,
    decreases words.len() - i,
{
    if i < words.len() {
        assert(words.take(i + 1).drop_last() =~= words.take(i));
        lemma_chords_named_prefix(words, i + 1);
    } else {
        assert(words.take(i) =~= words);
    }
}

/// Reads a sequence of chords parted by white space, such as `C-x C-x`.
pub fn parse_key_seq(s: &str) -> (r: Option<Vec<Chord>>)
    ensures
        match (r, sequence_named(s@)) {
            (Some(v), Some(chords)) => v@ == chords,
            (None, None) => true,
            _ => false,
        },
{
    let words = split_words(s);
    let ghost w = views(words@);
    if words.len() == 0 {
        return None;
    }
    let mut chords: Vec<Chord> = Vec::new();
    let mut i: usize = 0;
    assert(w.take(0) =~= Seq::<Seq<char>>::empty());
    while i < words.len()
        invariant
            i <= words@.len(),
            w == views(words@),
            w == words_from(s@, 0),
            w.len() > 0,
            chords_named(w.take(i as int)) == Some(chords@),
        decreases words@.len() - i,
    {
        proof {
            assert(w.take(i + 1).drop_last() =~= w.take(i as int));
            assert(w.take(i + 1).last() == words@[i as int]@);
        }
        match parse_chord(words[i].as_str()) {
            Some(chord) => chords.push(chord),
            None => {
                proof {
                    lemma_chords_named_prefix(w, i + 1);
                }
                return None;
            },
        }
        i += 1;
    }
    assert(w.take(i as int) =~= w);
    Some(chords)
}

/// The name of a media key.
pub open spec fn media_key_name(key: MediaKeyCode) -> Seq<char> {
    match key {
        MediaKeyCode::Play => "Play"@,
        MediaKeyCode::Pause => "Pause"@,
        MediaKeyCode::PlayPause => "PlayPause"@,
        MediaKeyCode::Reverse => "Reverse"@,
        MediaKeyCode::Stop => "Stop"@,
        MediaKeyCode::FastForward => "FastForward"@,
        MediaKeyCode::Rewind => "Rewind"@,
        MediaKeyCode::TrackNext => "TrackNext"@,
        MediaKeyCode::TrackPrevious => "TrackPrevious"@,
        MediaKeyCode::Record => "Record"@,
        MediaKeyCode::LowerVolume => "LowerVolume"@,
        MediaKeyCode::RaiseVolume => "RaiseVolume"@,
        MediaKeyCode::MuteVolume => "MuteVolume"@,
    }
}

fn media_name(key: MediaKeyCode) -> (r: &'static str)
    ensures
        r@ == media_key_name(key),
{
    match key {
        MediaKeyCode::Play => "Play",
        MediaKeyCode::Pause => "Pause",
        MediaKeyCode::PlayPause => "PlayPause",
        MediaKeyCode::Reverse => "Reverse",
        MediaKeyCode::Stop => "Stop",
        MediaKeyCode::FastForward => "FastForward",
        MediaKeyCode::Rewind => "Rewind",
        MediaKeyCode::TrackNext => "TrackNext",
        MediaKeyCode::TrackPrevious => "TrackPrevious",
        MediaKeyCode::Record => "Record",
        MediaKeyCode::LowerVolume => "LowerVolume",
        MediaKeyCode::RaiseVolume => "RaiseVolume",
        MediaKeyCode::MuteVolume => "MuteVolume",
    }
}

/// The name of a modifier key.
pub open spec fn modifier_key_name(key: ModifierKeyCode) -> Seq<char> {
    match key {
        ModifierKeyCode::LeftShift => "LeftShift"@,
        ModifierKeyCode::LeftControl => "LeftControl"@,
        ModifierKeyCode::LeftAlt => "LeftAlt"@,
        ModifierKeyCode::LeftSuper => "LeftSuper"@,
        ModifierKeyCode::LeftHyper => "LeftHyper"@,
        ModifierKeyCode::LeftMeta => "LeftMeta"@,
        ModifierKeyCode::RightShift => "RightShift"@,
        ModifierKeyCode::RightControl => "RightControl"@,
        ModifierKeyCode::RightAlt => "RightAlt"@,
        ModifierKeyCode::RightSuper => "RightSuper"@,
        ModifierKeyCode::RightHyper => "RightHyper"@,
        ModifierKeyCode::RightMeta => "RightMeta"@,
        ModifierKeyCode::IsoLevel3Shift => "IsoLevel3Shift"@,
        ModifierKeyCode::IsoLevel5Shift => "IsoLevel5Shift"@,
    }
}

fn modifier_name(key: ModifierKeyCode) -> (r: &'static str)
    ensures
        r@ == modifier_key_name(key),
{
    match key {
        ModifierKeyCode::LeftShift => "LeftShift",
        ModifierKeyCode::LeftControl => "LeftControl",
        ModifierKeyCode::LeftAlt => "LeftAlt",
        ModifierKeyCode::LeftSuper => "LeftSuper",
        ModifierKeyCode::LeftHyper => "LeftHyper",
        ModifierKeyCode::LeftMeta => "LeftMeta",
        ModifierKeyCode::RightShift => "RightShift",
        ModifierKeyCode::RightControl => "RightControl",
        ModifierKeyCode::RightAlt => "RightAlt",
        ModifierKeyCode::RightSuper => "RightSuper",
        ModifierKeyCode::RightHyper => "RightHyper",
        ModifierKeyCode::RightMeta => "RightMeta",
        ModifierKeyCode::IsoLevel3Shift => "IsoLevel3Shift",
        ModifierKeyCode::IsoLevel5Shift => "IsoLevel5Shift",
    }
}

/// The name of a key in Emacs notation.
pub open spec fn key_name(code: KeyCode) -> Seq<char> {
    match code {
        KeyCode::Char(c) => if c == ' ' {
            "SPC"@
        } else {
            seq![c]
        },
        KeyCode::Enter => "RET"@,
        KeyCode::Tab => "TAB"@,
        KeyCode::Esc => "ESC"@,
        KeyCode::Backspace => "DEL"@,
        KeyCode::Delete => "DELETE"@,
        KeyCode::Up => "UP"@,
        KeyCode::Down => "DOWN"@,
        KeyCode::Left => "LEFT"@,
        KeyCode::Right => "RIGHT"@,
        KeyCode::Home => "HOME"@,
        KeyCode::End => "END"@,
        KeyCode::PageUp => "PRIOR"@,
        KeyCode::PageDown => "NEXT"@,
        KeyCode::F(n) => seq!['F'] + decimal(n as nat),
        KeyCode::BackTab => "BackTab"@,
        KeyCode::Insert => "Insert"@,
        KeyCode::Null => "Null"@,
        KeyCode::CapsLock => "CapsLock"@,
        KeyCode::ScrollLock => "ScrollLock"@,
        KeyCode::NumLock => "NumLock"@,
        KeyCode::PrintScreen => "PrintScreen"@,
        KeyCode::Pause => "Pause"@,
        KeyCode::Menu => "Menu"@,
        KeyCode::KeypadBegin => "KeypadBegin"@,
        KeyCode::Media(key) => "Media("@ + media_key_name(key) + ")"@,
        KeyCode::Modifier(key) => "Modifier("@ + modifier_key_name(key) + ")"@,
    }
}

/// A chord in Emacs notation.
pub open spec fn chord_name(chord: Chord) -> Seq<char> {
    (if chord.ctrl {
        seq!['C', '-']
    } else {
        seq![]
    }) + (if chord.meta {
        seq!['M', '-']
    } else {
        seq![]
    }) + key_name(chord.code)
}

fn push_key_name(out: &mut String, code: KeyCode)
    ensures
        final(out)@ == old(out)@ + key_name(code),
{
    match code {
        KeyCode::Char(c) => {
            if c == ' ' {
                out.append("SPC");
            } else {
                out.push(c);
                assert(out@ =~= old(out)@ + seq![c]);
            }
        },
        KeyCode::Enter => out.append("RET"),
        KeyCode::Tab => out.append("TAB"),
        KeyCode::Esc => out.append("ESC"),
        KeyCode::Backspace => out.append("DEL"),
        KeyCode::Delete => out.append("DELETE"),
        KeyCode::Up => out.append("UP"),
        KeyCode::Down => out.append("DOWN"),
        KeyCode::Left => out.append("LEFT"),
        KeyCode::Right => out.append("RIGHT"),
        KeyCode::Home => out.append("HOME"),
        KeyCode::End => out.append("END"),
        KeyCode::PageUp => out.append("PRIOR"),
        KeyCode::PageDown => out.append("NEXT"),
        KeyCode::F(n) => {
            out.push('F');
            push_decimal(out, n as u64);
            assert(out@ =~= old(out)@ + key_name(code));
        },
        KeyCode::BackTab => out.append("BackTab"),
        KeyCode::Insert => out.append("Insert"),
        KeyCode::Null => out.append("Null"),
        KeyCode::CapsLock => out.append("CapsLock"),
        KeyCode::ScrollLock => out.append("ScrollLock"),
        KeyCode::NumLock => out.append("NumLock"),
        KeyCode::PrintScreen => out.append("PrintScreen"),
        KeyCode::Pause => out.append("Pause"),
        KeyCode::Menu => out.append("Menu"),
        KeyCode::KeypadBegin => out.append("KeypadBegin"),
        KeyCode::Media(key) => {
            out.append("Media(");
            out.append(media_name(key));
            out.append(")");
            assert(out@ =~= old(out)@ + key_name(code));
        },
        KeyCode::Modifier(key) => {
            out.append("Modifier(");
            out.append(modifier_name(key));
            out.append(")");
            assert(out@ =~= old(out)@ + key_name(code));
        },
    }
}

fn push_chord(out: &mut String, chord: &Chord)
    ensures
        final(out)@ == old(out)@ + chord_name(*chord),
{
    if chord.ctrl {
        out.push('C');
        out.push('-');
    }
    if chord.meta {
        out.push('M');
        out.push('-');
    }
    push_key_name(out, chord.code);
    assert(out@ =~= old(out)@ + chord_name(*chord));
}

/// The names of the chords, parted by single spaces.
pub open spec fn sequence_name(seq: Seq<Chord>) -> Seq<char>
    decreases seq.len(),
{
    if seq.len() == 0 {
        Seq::empty()
    } else if seq.len() == 1 {
        chord_name(seq[0])
    } else {
        sequence_name(seq.drop_last()) + seq![' '] + chord_name(seq.last())
    }
}

/// A sequence of chords for the echo area, such as `C-x [`.
pub fn format_seq(seq: &[Chord]) -> (r: String)
    ensures
        r@ == sequence_name(seq@),
{
    let mut out = String::new();
    let mut i: usize = 0;
    assert(seq@.take(0) =~= Seq::<Chord>::empty());
    while i < seq.len()
        invariant
            i <= seq@.len(),
            out@ == sequence_name(seq@.take(i as int)),
        decreases seq@.len() - i,
    {
        let ghost before = out@;
        assert(seq@.take(i + 1).drop_last() =~= seq@.take(i as int));
        if i > 0 {
            out.push(' ');
        }
        push_chord(&mut out, &seq[i]);
        assert(out@ =~= sequence_name(seq@.take(i + 1)));
        i += 1;
    }
    assert(seq@.take(i as int) =~= seq@);
    out
}

/// What a keymap says of a sequence of chords.
#[derive(Debug, Clone, Copy, PartialEq, Eq)]
pub enum Lookup<T> {
    /// The sequence is bound.
    Bound(T),
    /// The sequence is a proper prefix of at least one bound sequence.
    Prefix,
    /// Nothing matches.
    Unbound,
}

/// The value of the first binding of `seq` at or after `i`.
pub open spec fn bound_from<T>(bindings: Seq<(Seq<Chord>, T)>, i: int, seq: Seq<Chord>) -> Option<T>
    decreases bindings.len() - i,
{
    if i >= bindings.len() {
        None
    } else if bindings[i].0 == seq {
        Some(bindings[i].1)
    } else {
        bound_from(bindings, i + 1, seq)
    }
}

/// `seq` begins a longer bound sequence.
pub open spec fn begins_binding<T>(bindings: Seq<(Seq<Chord>, T)>, seq: Seq<Chord>) -> bool {
    exists|i: int|
        0 <= i < bindings.len() && seq.len() < (#[trigger] bindings[i]).0.len()
            && bindings[i].0.take(seq.len() as int) == seq
}

/// What bindings say of a sequence.
pub open spec fn looked_up<T>(bindings: Seq<(Seq<Chord>, T)>, seq: Seq<Chord>) -> Lookup<T> {
    match bound_from(bindings, 0, seq) {
        Some(value) => Lookup::Bound(value),
        None => if begins_binding(bindings, seq) {
            Lookup::Prefix
        } else {
            Lookup::Unbound
        },
    }
}

/// The bindings after `seq` was bound to `value`: in place of its first binding, or at the end.
pub open spec fn rebound<T>(
    bindings: Seq<(Seq<Chord>, T)>,
    i: int,
    seq: Seq<Chord>,
    value: T,
) -> Seq<(Seq<Chord>, T)>
    decreases bindings.len() - i,
{
    if i >= bindings.len() {
        bindings.push((seq, value))
    } else if bindings[i].0 == seq {
        bindings.update(i, (seq, value))
    } else {
        rebound(bindings, i + 1, seq, value)
    }
}

/// Chord sequences bound to values, in the order of their first binding.
#[derive(Debug, Clone, PartialEq, Eq)]
pub struct Keymap<T> {
    pub bindings: Vec<(Vec<Chord>, T)>,
}

impl<T> Keymap<T> {
    pub open spec fn entries(&self) -> Seq<(Seq<Chord>, T)> {
        Seq::new(self.bindings@.len(), |i: int| (self.bindings@[i].0@, self.bindings@[i].1))
    }
}

impl<T> Default for Keymap<T> {
    fn default() -> (r: Self)
        ensures
            r.entries() == Seq::<(Seq<Chord>, T)>::empty(),
    {
        let r = Keymap { bindings: Vec::new() };
        assert(r.entries() =~= Seq::<(Seq<Chord>, T)>::empty());
        r
    }
}

/// Whether `seq` begins with `prefix`.
fn starts_with(seq: &[Chord], prefix: &[Chord]) -> (r: bool)
    ensures
        r == (prefix@.len() <= seq@.len() && seq@.take(prefix@.len() as int) == prefix@),
{
    if prefix.len() > seq.len() {
        return false;
    }
    let mut i: usize = 0;
    while i < prefix.len()
        invariant
            i <= prefix@.len() <= seq@.len(),
            forall|k: int| 0 <= k < i ==> seq@[k] == prefix@[k],
        decreases prefix@.len() - i,
    {
        if seq[i] != prefix[i] {
            assert(seq@.take(prefix@.len() as int)[i as int] != prefix@[i as int]);
            return false;
        }
        i += 1;
    }
    assert(seq@.take(prefix@.len() as int) =~= prefix@);
    true
}

fn same_seq(a: &[Chord], b: &[Chord]) -> (r: bool)
    ensures
        r == (a@ == b@),
{
    let r = a.len() == b.len() && starts_with(a, b);
    assert(a@.len() == b@.len() ==> a@.take(b@.len() as int) =~= a@);
    r
}

impl<T: Copy> Keymap<T> {
    /// Binds `seq` to `value`, in place of any binding it has.
    pub fn bind(&mut self, seq: Vec<Chord>, value: T)
        ensures
            final(self).entries() == rebound(old(self).entries(), 0, seq@, value),
    {
        let ghost before = self.entries();
        let mut i: usize = 0;
        while i < self.bindings.len()
            invariant
                i <= self.bindings@.len(),
                self.entries() == before,
                before == old(self).entries(),
                rebound(before, 0, seq@, value) == rebound(before, i as int, seq@, value),
            decreases self.bindings@.len() - i,
        {
            if same_seq(self.bindings[i].0.as_slice(), seq.as_slice()) {
                assert(before[i as int].0 == seq@);
                self.bindings[i] = (seq, value);
                assert(self.entries() =~= before.update(i as int, (seq@, value)));
                return;
            }
            assert(before[i as int].0 != seq@);
            i += 1;
        }
        self.bindings.push((seq, value));
        assert(self.entries() =~= before.push((seq@, value)));
    }

    /// What the map says of `seq`.
    pub fn lookup(&self, seq: &[Chord]) -> (r: Lookup<T>)
        ensures
            r == looked_up(self.entries(), seq@),
    {
        let ghost entries = self.entries();
        let mut is_prefix = false;
        let mut i: usize = 0;
        while i < self.bindings.len()
            invariant
                i <= self.bindings@.len(),
                entries == self.entries(),
                bound_from(entries, 0, seq@) == bound_from(entries, i as int, seq@),
                is_prefix == exists|k: int|
                    0 <= k < i && seq@.len() < (#[trigger] entries[k]).0.len() && entries[k].0.take(
                        seq@.len() as int,
                    ) == seq@,
            decreases self.bindings@.len() - i,
        {
            assert(entries[i as int].0 == self.bindings@[i as int].0@);
            if same_seq(self.bindings[i].0.as_slice(), seq) {
                return Lookup::Bound(self.bindings[i].1);
            }
            if self.bindings[i].0.len() > seq.len() && starts_with(
                self.bindings[i].0.as_slice(),
                seq,
            ) {
                is_prefix = true;
            }
            i += 1;
        }
        if is_prefix {
            Lookup::Prefix
        } else {
            Lookup::Unbound
        }
    }

    /// All bindings, in the order of their first binding.
    pub fn bindings(&self) -> (r: &[(Vec<Chord>, T)])
        ensures
            r@ == self.bindings@,
    {
        self.bindings.as_slice()
    }
}

/// The first value that a map of the stack binds `seq` to.
pub open spec fn stack_bound<T>(stack: Seq<Seq<(Seq<Chord>, T)>>, i: int, seq: Seq<Chord>) -> Option<
    T,
>
    decreases stack.len() - i,
{
    if i >= stack.len() {
        None
    } else {
        match bound_from(stack[i], 0, seq) {
            Some(value) => Some(value),
            None => stack_bound(stack, i + 1, seq),
        }
    }
}

/// What a stack of maps says of a sequence: the first map that binds it decides; where none does,
/// it is a prefix as soon as one map says so.
pub open spec fn stack_looked_up<T>(stack: Seq<Seq<(Seq<Chord>, T)>>, seq: Seq<Chord>) -> Lookup<T> {
    match stack_bound(stack, 0, seq) {
        Some(value) => Lookup::Bound(value),
        None => if exists|i: int| 0 <= i < stack.len() && begins_binding(#[trigger] stack[i], seq) {
            Lookup::Prefix
        } else {
            Lookup::Unbound
        },
    }
}

pub open spec fn stack_entries<T>(maps: Seq<&Keymap<T>>) -> Seq<Seq<(Seq<Chord>, T)>> {
    Seq::new(maps.len(), |i: int| maps[i].entries())
}

/// Looks `seq` up across a stack of maps, highest priority first.
pub fn stack_lookup<T: Copy>(maps: &[&Keymap<T>], seq: &[Chord]) -> (r: Lookup<T>)
    ensures
        r == stack_looked_up(stack_entries(maps@), seq@),
{
    let ghost stack = stack_entries(maps@);
    let mut is_prefix = false;
    let mut i: usize = 0;
    while i < maps.len()
        invariant
            i <= maps@.len(),
            stack == stack_entries(maps@),
            stack_bound(stack, 0, seq@) == stack_bound(stack, i as int, seq@),
            is_prefix == exists|k: int| 0 <= k < i && begins_binding(#[trigger] stack[k], seq@),
        decreases maps@.len() - i,
    {
        assert(stack[i as int] == maps@[i as int].entries());
        match maps[i].lookup(seq) {
            Lookup::Bound(value) => return Lookup::Bound(value),
            Lookup::Prefix => is_prefix = true,
            Lookup::Unbound => {},
        }
        i += 1;
    }
    if is_prefix {
        Lookup::Prefix
    } else {
        Lookup::Unbound
    }
}

/// Rebinding: the sequence then has the new value, and every other sequence keeps its own.
pub proof fn bind_then_lookup<T>(
    bindings: Seq<(Seq<Chord>, T)>,
    seq: Seq<Chord>,
    value: T,
    other: Seq<Chord>,
)
    ensures
        looked_up(rebound(bindings, 0, seq, value), seq) == Lookup::Bound(value),
        other != seq ==> bound_from(rebound(bindings, 0, seq, value), 0, other) == bound_from(
            bindings,
            0,
            other,
        ),
{
    lemma_rebound(bindings, 0, 0, seq, value, other);
}

proof fn lemma_rebound<T>(
    bindings: Seq<(Seq<Chord>, T)>,
    i: int,
    j: int,
    seq: Seq<Chord>,
    value: T,
    other: Seq<Chord>,
)
    requires
        0 <= j <= i <= bindings.len(),
        forall|k: int| 0 <= k < i ==> (#[trigger] bindings[k]).0 != seq,
    ensures
        bound_from(rebound(bindings, i, seq, value), j, seq) == Some(value),
        other != seq ==> bound_from(rebound(bindings, i, seq, value), j, other) == bound_from(
            bindings,
            j,
            other,
        ),
    decreases bindings.len() - i, i - j,
{
    let after = rebound(bindings, i, seq, value);
    if i < bindings.len() && bindings[i].0 != seq {
        lemma_rebound(bindings, i + 1, j, seq, value, other);
    } else {
        lemma_changed_at(bindings, after, i, j, seq, value, other);
    }
}

/// Two lists of bindings that differ only in that the later holds `seq` at `i`.
proof fn lemma_changed_at<T>(
    before: Seq<(Seq<Chord>, T)>,
    after: Seq<(Seq<Chord>, T)>,
    i: int,
    j: int,
    seq: Seq<Chord>,
    value: T,
    other: Seq<Chord>,
)
    requires
        0 <= i <= before.len(),
        0 <= j <= after.len(),
        forall|k: int| 0 <= k < i ==> (#[trigger] before[k]).0 != seq,
        i < before.len() ==> before[i].0 == seq && after == before.update(i, (seq, value)),
        i == before.len() ==> after == before.push((seq, value)),
    ensures
        j <= i ==> bound_from(after, j, seq) == Some(value),
        other != seq ==> bound_from(after, j, other) == bound_from(before, j, other),
    decreases after.len() - j,
{
    if j < after.len() {
        lemma_changed_at(before, after, i, j + 1, seq, value, other);
        if j < i {
            assert(before[j].0 != seq);
            assert(after[j] == before[j]);
        }
    }
}

/// An earlier map of a stack shadows the later ones.
pub proof fn earlier_maps_shadow<T>(stack: Seq<Seq<(Seq<Chord>, T)>>, seq: Seq<Chord>)
    requires
        stack.len() > 0,
        bound_from(stack[0], 0, seq) is Some,
    ensures
        stack_looked_up(stack, seq) == looked_up(stack[0], seq),
{
}

/// A sequence that no map binds is a prefix of the stack exactly when it is one of some map.
pub proof fn prefixes_unite<T>(stack: Seq<Seq<(Seq<Chord>, T)>>, seq: Seq<Chord>)
    requires
        forall|i: int| 0 <= i < stack.len() ==> bound_from(#[trigger] stack[i], 0, seq) is None,
    ensures
        stack_looked_up(stack, seq) is Prefix <==> exists|i: int|
            0 <= i < stack.len() && looked_up(#[trigger] stack[i], seq) is Prefix,
{
    lemma_stack_unbound(stack, 0, seq);
    if stack_looked_up(stack, seq) is Prefix {
        let i = choose|i: int| 0 <= i < stack.len() && begins_binding(#[trigger] stack[i], seq);
        assert(looked_up(stack[i], seq) is Prefix);
    }
}

proof fn lemma_stack_unbound<T>(stack: Seq<Seq<(Seq<Chord>, T)>>, i: int, seq: Seq<Chord>)
    requires
        0 <= i <= stack.len(),
        forall|i: int| 0 <= i < stack.len() ==> bound_from(#[trigger] stack[i], 0, seq) is None,
    ensures
        stack_bound(stack, i, seq) is None,
    decreases stack.len() - i,
{
    if i < stack.len() {
        lemma_stack_unbound(stack, i + 1, seq);
    }
}

/// A chord that has a name of its own: a bindable key, of the function keys the first twelve.
pub open spec fn nameable(chord: Chord) -> bool {
    bindable(chord.code) && (chord.code matches KeyCode::F(n) ==> 1 <= n <= 12)
}

proof fn lemma_key_name_reads_back(code: KeyCode)
    requires
        nameable(Chord { ctrl: false, meta: false, code }),
    ensures
        key_named(key_name(code)) == Some(code),
        key_name(code).len() > 0,
        key_name(code).len() >= 2 ==> key_name(code)[1] != '-',
{
    reveal_strlit("SPC");
    reveal_strlit("RET");
    reveal_strlit("TAB");
    reveal_strlit("ESC");
    reveal_strlit("DEL");
    reveal_strlit("UP");
    reveal_strlit("DOWN");
    reveal_strlit("LEFT");
    reveal_strlit("RIGHT");
    reveal_strlit("HOME");
    reveal_strlit("END");
    reveal_strlit("PRIOR");
    reveal_strlit("NEXT");
    reveal_strlit("DELETE");
    match code {
        KeyCode::F(n) => lemma_function_key_name(n),
        KeyCode::Char(c) => {
            if c == 'F' {
                assert(seq![c].skip(1).len() == 0);
            }
        },
        _ => {},
    }
}

proof fn lemma_function_key_name(n: u8)
    requires
        1 <= n <= 12,
    ensures
        function_key(key_name(KeyCode::F(n))) == Some(n),
        key_name(KeyCode::F(n)).len() >= 2,
        key_name(KeyCode::F(n))[0] == 'F',
        key_name(KeyCode::F(n))[1] != '-',
        key_name(KeyCode::F(n)).len() <= 3,
        key_name(KeyCode::F(n)).len() == 3 ==> key_name(KeyCode::F(n))[2] != 'C',
{
    let name = key_name(KeyCode::F(n));
    let d = decimal(n as nat);
    assert(name.skip(1) =~= d);
    reveal_with_fuel(crate::text::decimal, 3);
    reveal_with_fuel(crate::text::digits_value, 4);
    assert(crate::text::unsigned_part(d) == d);
    if n < 10 {
        assert(d =~= seq![crate::text::digit_char(n as nat)]);
        assert(d.drop_last() =~= Seq::<char>::empty());
    } else {
        let tens = seq![crate::text::digit_char(1)];
        assert(d =~= tens.push(crate::text::digit_char((n - 10) as nat)));
        assert(d.drop_last() =~= tens);
        assert(tens.drop_last() =~= Seq::<char>::empty());
    }
    assert(crate::text::digits_value(d) == n);
}

/// A chord's name reads back as that chord.
pub proof fn chord_names_round_trip(chord: Chord)
    requires
        nameable(chord),
    ensures
        chord_named(chord_name(chord), false, false) == Some(chord),
{
    let key = key_name(chord.code);
    lemma_key_name_reads_back(chord.code);
    let name = chord_name(chord);
    assert(chord_named(key, chord.ctrl, chord.meta) == Some(chord));
    if chord.meta {
        let rest = seq!['M', '-'] + key;
        assert(rest.skip(2) =~= key);
        assert(chord_named(rest, chord.ctrl, false) == Some(chord));
        if chord.ctrl {
            assert(name =~= seq!['C', '-'] + rest);
            assert(name.skip(2) =~= rest);
        } else {
            assert(name =~= rest);
        }
    } else if chord.ctrl {
        assert(name =~= seq!['C', '-'] + key);
        assert(name.skip(2) =~= key);
    } else {
        assert(name =~= key);
    }
}

/// A chord whose name is one word: its character, if it is one, is no white space but the space.
pub open spec fn one_word(chord: Chord) -> bool {
    chord.code matches KeyCode::Char(c) ==> c == ' ' || !char_is_whitespace(c)
}

proof fn lemma_chord_name_is_token(chord: Chord)
    requires
        nameable(chord),
        one_word(chord),
    ensures
        is_token(chord_name(chord)),
{
    reveal_strlit("SPC");
    reveal_strlit("RET");
    reveal_strlit("TAB");
    reveal_strlit("ESC");
    reveal_strlit("DEL");
    reveal_strlit("UP");
    reveal_strlit("DOWN");
    reveal_strlit("LEFT");
    reveal_strlit("RIGHT");
    reveal_strlit("HOME");
    reveal_strlit("END");
    reveal_strlit("PRIOR");
    reveal_strlit("NEXT");
    reveal_strlit("DELETE");
    lemma_key_name_reads_back(chord.code);
    if let KeyCode::F(n) = chord.code {
        reveal_with_fuel(crate::text::decimal, 3);
    }
    let key = key_name(chord.code);
    assert(is_token(key));
}

/// The name of a sequence reads back as that sequence.
pub proof fn sequence_names_round_trip(seq: Seq<Chord>)
    requires
        seq.len() > 0,
        forall|i: int| 0 <= i < seq.len() ==> nameable(#[trigger] seq[i]) && one_word(seq[i]),
    ensures
        sequence_named(sequence_name(seq)) == Some(seq),
    decreases seq.len(),
{
    let last = seq.last();
    assert(nameable(seq[seq.len() - 1]));
    lemma_chord_name_is_token(last);
    chord_names_round_trip(last);
    if seq.len() == 1 {
        lemma_words_of_token(chord_name(last));
        let words = seq![chord_name(last)];
        assert(words.drop_last() =~= Seq::<Seq<char>>::empty());
        assert(chords_named(words.drop_last()) == Some(Seq::<Chord>::empty()));
        assert(Seq::<Chord>::empty().push(last) =~= seq);
    } else {
        let front = seq.drop_last();
        assert forall|i: int| 0 <= i < front.len() implies nameable(#[trigger] front[i]) && one_word(
            front[i],
        ) by {
            assert(front[i] == seq[i]);
        }
        sequence_names_round_trip(front);
        lemma_words_appended(sequence_name(front), chord_name(last), 0);
        let words = words_from(sequence_name(seq), 0);
        assert(words.drop_last() =~= words_from(sequence_name(front), 0));
        assert(front.push(last) =~= seq);
    }
}

/// A chord that a word spells has a name of its own, and that name is one word.
proof fn lemma_spelled_chord(word: Seq<char>, ctrl: bool, meta: bool)
    requires
        is_token(word),
        chord_named(word, ctrl, meta) is Some,
    ensures
        nameable(chord_named(word, ctrl, meta)->0),
        one_word(chord_named(word, ctrl, meta)->0),
    decreases word.len(),
{
    if word.len() > 2 && word[1] == '-' && (word[0] == 'C' || word[0] == 'M') {
        let rest = word.skip(2);
        assert forall|i: int| 0 <= i < rest.len() implies !char_is_whitespace(#[trigger] rest[i]) by {
            assert(rest[i] == word[i + 2]);
        }
        lemma_spelled_chord(rest, ctrl || word[0] == 'C', meta || word[0] == 'M');
    } else {
        assert(!char_is_whitespace(word[0]));
    }
}

proof fn lemma_spelled_chords(words: Seq<Seq<char>>)
    requires
        forall|i: int| 0 <= i < words.len() ==> is_token(#[trigger] words[i]),
        chords_named(words) is Some,
    ensures
        chords_named(words)->0.len() == words.len(),
        forall|i: int|
            0 <= i < words.len() ==> nameable(#[trigger] chords_named(words)->0[i]) && one_word(
                chords_named(words)->0[i],
            ),
    decreases words.len(),
{
    if words.len() > 0 {
        let front = words.drop_last();
        assert forall|i: int| 0 <= i < front.len() implies is_token(#[trigger] front[i]) by {
            assert(front[i] == words[i]);
        }
        lemma_spelled_chords(front);
        assert(is_token(words[words.len() - 1]));
        lemma_spelled_chord(words.last(), false, false);
    }
}

/// The echoed form of every sequence that a text spells reads back as that sequence.
pub proof fn spelled_sequences_read_back(text: Seq<char>)
    requires
        sequence_named(text) is Some,
    ensures
        sequence_named(sequence_name(sequence_named(text)->0)) == sequence_named(text),
{
    lemma_words_are_tokens(text, 0);
    lemma_spelled_chords(words_from(text, 0));
    sequence_names_round_trip(sequence_named(text)->0);
}

/// A chord stands for the key as it was pressed, with Control and Meta told apart; a key with a
/// character always makes one, a key with neither a name nor a character never does.
pub proof fn chords_stand_for_their_keys(ctrl: bool, meta: bool, code: KeyCode)
    ensures
        canonical(ctrl, meta, code) matches Some(chord) ==> chord.ctrl == ctrl && chord.meta == meta
            && chord.code == code,
        code is Char || code is F ==> canonical(ctrl, meta, code) is Some,
        code is Enter || code is Esc || code is Tab || code is Backspace || code is Delete ==>
            canonical(ctrl, meta, code) is Some,
        code is Up || code is Down || code is Left || code is Right || code is Home || code is End
            || code is PageUp || code is PageDown ==> canonical(ctrl, meta, code) is Some,
        code is Media || code is Modifier ==> canonical(ctrl, meta, code) is None,
{
}

/// A chord inserts exactly the character it was typed with, and only without Control and Meta.
pub proof fn chords_insert_what_was_typed(chord: Chord, c: char)
    ensures
        chord.inserts() == Some(c) ==> chord.code == KeyCode::Char(c) && !chord.ctrl && !chord.meta,
        chord.code == KeyCode::Char(c) && !chord.ctrl && !chord.meta && !char_is_control(c) ==>
            chord.inserts() == Some(c),
        char_is_control(c) ==> chord.inserts() != Some(c),
{
}

} // verus!
