//! Chords, key sequences and keymap lookup.

use herdr::emacs::keymap::{format_seq, parse_chord, parse_key_seq, stack_lookup};
use herdr::emacs::keymap::{Chord, Keymap, Lookup};
use herdr::input::{KeyCode, KeyModifiers, MediaKeyCode, ModifierKeyCode, TerminalKey};

fn plain_code(code: u32) -> KeyCode {
    match code {
        9 => KeyCode::Tab,
        13 => KeyCode::Enter,
        27 => KeyCode::Esc,
        127 => KeyCode::Backspace,
        other => KeyCode::Char(char::from_u32(other).unwrap()),
    }
}

fn legacy_key(c: char) -> TerminalKey {
    let code = c as u32;
    match code {
        9 | 13 | 27 | 127 => TerminalKey::new(plain_code(code), KeyModifiers::none()),
        0 => TerminalKey::new(KeyCode::Char(' '), KeyModifiers::control()),
        1..=26 => {
            let letter = char::from_u32(code + 96).unwrap();
            TerminalKey::new(KeyCode::Char(letter), KeyModifiers::control())
        }
        28..=31 => {
            let letter = char::from_u32(code + 64).unwrap();
            TerminalKey::new(KeyCode::Char(letter), KeyModifiers::control())
        }
        _ => TerminalKey::new(KeyCode::Char(c), KeyModifiers::none()),
    }
}

/// The key behind what a terminal sends: one character, a character behind an escape, `CSI u`, or
/// the first function key.
fn parse_terminal_key_sequence(encoding: &str) -> Option<TerminalKey> {
    if encoding == "\x1bOP" || encoding == "\x1b[11~" {
        return Some(TerminalKey::new(KeyCode::F(1), KeyModifiers::none()));
    }
    if let Some(report) = encoding.strip_prefix("\x1b[").and_then(|r| r.strip_suffix('u')) {
        let mut parts = report.split(';');
        let code = plain_code(parts.next()?.parse().ok()?);
        let bits: u32 = match parts.next() {
            Some(modifier) => modifier.parse::<u32>().ok()? - 1,
            None => 0,
        };
        let modifiers = KeyModifiers {
            shift: bits & 1 != 0,
            alt: bits & 2 != 0,
            control: bits & 4 != 0,
            ..KeyModifiers::none()
        };
        return Some(TerminalKey::new(code, modifiers));
    }
    let chars: Vec<char> = encoding.chars().collect();
    match chars.as_slice() {
        [c] => Some(legacy_key(*c)),
        ['\x1b', c] => Some(TerminalKey::new(legacy_key(*c).code, KeyModifiers::alt())),
        _ => None,
    }
}

/// What a terminal sends for a key normalizes to the chord that the key's name stands for.
fn assert_encodes_to(encoding: &str, chord_name: &str) {
    let key = parse_terminal_key_sequence(encoding)
        .unwrap_or_else(|| panic!("{encoding:?} must decode to a key"));
    let expected = parse_chord(chord_name).unwrap_or_else(|| panic!("{chord_name} must parse"));
    assert_eq!(
        Chord::from_key(&key),
        Some(expected),
        "{encoding:?} should normalize to {chord_name}"
    );
}

#[test]
fn all_control_letters_normalize_in_both_encodings() {
    for c in 'a'..='z' {
        let name = format!("C-{c}");
        // Kitty (Ghostty): CSI <codepoint> ; 5 u  (5 = 1 + CONTROL).
        // The terminal DID give us the distinction: C-i stays C-i.
        assert_encodes_to(&format!("\x1b[{};5u", c as u32), &name);
        // Legacy: the C0 control byte. The terminal could NOT give us the
        // distinction for C-i / C-m — those bytes ARE TAB / RET.
        let byte = char::from_u32(c as u32 - 96).unwrap();
        let legacy = match c {
            'i' => "TAB".to_string(),
            'm' => "RET".to_string(),
            _ => name.clone(),
        };
        assert_encodes_to(&byte.to_string(), &legacy);
    }
}

#[test]
fn all_meta_letters_normalize_in_both_encodings() {
    for c in 'a'..='z' {
        let name = format!("M-{c}");
        // Kitty: modifier 3 = 1 + ALT.
        assert_encodes_to(&format!("\x1b[{};3u", c as u32), &name);
        // Legacy: ESC prefix.
        assert_encodes_to(&format!("\x1b{c}"), &name);
    }
}

#[test]
fn digits_normalize_plain_and_meta() {
    for c in '0'..='9' {
        assert_encodes_to(&c.to_string(), &c.to_string());
        assert_encodes_to(&format!("\x1b{c}"), &format!("M-{c}"));
        assert_encodes_to(&format!("\x1b[{};3u", c as u32), &format!("M-{c}"));
    }
}

/// A legacy byte folds to the key it stands for; an unambiguous report keeps its modifiers.
#[test]
fn the_lossy_fold_is_one_directional() {
    // C-i vs TAB
    assert_encodes_to("\t", "TAB"); // legacy byte 9: lossy
    assert_encodes_to("\x1b[9u", "TAB"); // kitty TAB
    assert_encodes_to("\x1b[105;5u", "C-i"); // kitty C-i: PRESERVED
    assert_ne!(
        parse_chord("C-i"),
        parse_chord("TAB"),
        "C-i and TAB are different chords"
    );

    // C-m vs RET
    assert_encodes_to("\r", "RET"); // legacy byte 13: lossy
    assert_encodes_to("\x1b[13u", "RET"); // kitty RET
    assert_encodes_to("\x1b[109;5u", "C-m"); // kitty C-m: PRESERVED
    assert_ne!(parse_chord("C-m"), parse_chord("RET"));

    // C-[ vs ESC
    assert_encodes_to("\x1b", "ESC"); // legacy byte 27: lossy
    assert_encodes_to("\x1b[27u", "ESC"); // kitty ESC
    assert_encodes_to("\x1b[91;5u", "C-["); // kitty C-[: PRESERVED
    assert_ne!(
        parse_chord("C-["),
        parse_chord("ESC"),
        "a binding on C-[ must not be destroyed by ESC"
    );
}

/// Keys that are unambiguous in both encodings.
#[test]
fn unambiguous_named_keys_agree_across_encodings() {
    // C-] — unambiguous in both (byte 29).
    assert_encodes_to("\u{1d}", "C-]");
    assert_encodes_to("\x1b[93;5u", "C-]");

    // C-SPC
    assert_encodes_to("\u{0}", "C-SPC");
    assert_encodes_to("\x1b[32;5u", "C-SPC");

    // C-h stays C-h and is DISTINCT from DEL
    assert_encodes_to("\u{8}", "C-h");
    assert_encodes_to("\x1b[104;5u", "C-h");
    assert_ne!(parse_chord("C-h"), parse_chord("DEL"));

    // DEL
    assert_encodes_to("\u{7f}", "DEL");
    assert_encodes_to("\x1b[127u", "DEL");

    // M-DEL (backward-kill-word)
    assert_encodes_to("\x1b\u{7f}", "M-DEL");
    assert_encodes_to("\x1b[127;3u", "M-DEL");

    // M-[ / M-] are kitty-only: on a legacy terminal ESC-[ is the
    // CSI introducer and ESC-] is the OSC introducer.
    assert_encodes_to("\x1b[91;3u", "M-[");
    assert_encodes_to("\x1b[93;3u", "M-]");

    // F1 (the live-mode help entry point)
    assert_encodes_to("\x1bOP", "F1");
    assert_encodes_to("\x1b[11~", "F1");
}

#[test]
fn canonical_names_round_trip_through_format() {
    for name in [
        "C-x", "M-x", "C-SPC", "TAB", "RET", "ESC", "DEL", "M-DEL", "C-h", "C-i", "C-m", "C-[",
        "C-]", "M-[", "M-]", "F1", "M-<", "3",
    ] {
        let chord = parse_chord(name).unwrap_or_else(|| panic!("{name} parses"));
        assert_eq!(format_seq(&[chord]), name, "{name} round-trips");
    }
}

#[test]
fn self_insert_is_a_bare_printable_character() {
    assert!(parse_chord("x").unwrap().is_self_insert());
    assert!(parse_chord("3").unwrap().is_self_insert());
    assert!(parse_chord("SPC").unwrap().is_self_insert());
    assert_eq!(parse_chord("x").unwrap().self_insert_char(), Some('x'));
    assert!(!parse_chord("C-x").unwrap().is_self_insert());
    assert!(!parse_chord("M-x").unwrap().is_self_insert());
    assert!(!parse_chord("RET").unwrap().is_self_insert());
    assert!(!parse_chord("DEL").unwrap().is_self_insert());
    assert!(!parse_chord("F1").unwrap().is_self_insert());
    assert_eq!(parse_chord("RET").unwrap().self_insert_char(), None);
}

#[test]
fn parses_single_chords() {
    assert_eq!(
        parse_chord("C-x"),
        Some(Chord {
            ctrl: true,
            meta: false,
            code: KeyCode::Char('x')
        })
    );
    assert_eq!(
        parse_chord("M-<"),
        Some(Chord {
            ctrl: false,
            meta: true,
            code: KeyCode::Char('<')
        })
    );
    assert_eq!(
        parse_chord("C-SPC"),
        Some(Chord {
            ctrl: true,
            meta: false,
            code: KeyCode::Char(' ')
        })
    );
    assert_eq!(
        parse_chord("RET"),
        Some(Chord {
            ctrl: false,
            meta: false,
            code: KeyCode::Enter
        })
    );
    assert_eq!(
        parse_chord("["),
        Some(Chord {
            ctrl: false,
            meta: false,
            code: KeyCode::Char('[')
        })
    );
    assert_eq!(parse_chord(""), None);
    assert_eq!(parse_chord("C-"), None);
    assert_eq!(parse_chord("xy"), None);
    // repeated modifiers must be rejected
    assert_eq!(parse_chord("C-C-x"), None);
    assert_eq!(parse_chord("M-M-x"), None);
    // named keys
    assert_eq!(
        parse_chord("TAB"),
        Some(Chord {
            ctrl: false,
            meta: false,
            code: KeyCode::Tab
        })
    );
    assert_eq!(
        parse_chord("ESC"),
        Some(Chord {
            ctrl: false,
            meta: false,
            code: KeyCode::Esc
        })
    );
    assert_eq!(
        parse_chord("DEL"),
        Some(Chord {
            ctrl: false,
            meta: false,
            code: KeyCode::Backspace
        })
    );
}

#[test]
fn parses_key_sequences() {
    let seq = parse_key_seq("C-x C-x").expect("seq parses");
    assert_eq!(seq.len(), 2);
    assert_eq!(seq[0], Chord::ctrl('x'));
    assert_eq!(seq[1], Chord::ctrl('x'));
    assert_eq!(parse_key_seq("M-g g").map(|s| s.len()), Some(2));
    assert_eq!(parse_key_seq(""), None);
    assert_eq!(parse_key_seq("C-x nope"), None);
}

#[test]
fn formats_sequences_for_echo() {
    let seq = parse_key_seq("C-x [").unwrap();
    assert_eq!(format_seq(&seq), "C-x [");
    assert_eq!(format_seq(&[parse_chord("C-SPC").unwrap()]), "C-SPC");
    assert_eq!(format_seq(&[parse_chord("M-<").unwrap()]), "M-<");
}

#[test]
fn keys_without_a_spelling_are_echoed_by_their_names() {
    let chord = |code: KeyCode| Chord { code, ctrl: false, meta: false };
    let echoed = |code: KeyCode| format_seq(&[chord(code)]);
    assert_eq!(echoed(KeyCode::Media(MediaKeyCode::Play)), "Media(Play)");
    assert_eq!(echoed(KeyCode::Media(MediaKeyCode::TrackNext)), "Media(TrackNext)");
    assert_eq!(echoed(KeyCode::Media(MediaKeyCode::MuteVolume)), "Media(MuteVolume)");
    assert_eq!(echoed(KeyCode::Modifier(ModifierKeyCode::LeftShift)), "Modifier(LeftShift)");
    assert_eq!(
        echoed(KeyCode::Modifier(ModifierKeyCode::IsoLevel5Shift)),
        "Modifier(IsoLevel5Shift)"
    );
}

#[test]
fn echoed_forms_read_back() {
    for text in ["C-x [", "  C-x   2 ", "M-<", "C-SPC", "C-M-s RET", "ESC", "TAB DEL", "C-x C-c"] {
        let read = parse_key_seq(text).unwrap();
        assert_eq!(parse_key_seq(&format_seq(&read)), Some(read));
    }
}

#[test]
fn chord_from_terminal_key_ignores_shift_on_chars() {
    let key = TerminalKey::new(KeyCode::Char('<'), KeyModifiers { shift: true, ..KeyModifiers::alt() });
    assert_eq!(Chord::from_key(&key), parse_chord("M-<"));
    let key = TerminalKey::new(KeyCode::Char('x'), KeyModifiers::control());
    assert_eq!(Chord::from_key(&key), parse_chord("C-x"));
    let key = TerminalKey::new(KeyCode::Media(MediaKeyCode::Play), KeyModifiers::none());
    assert_eq!(Chord::from_key(&key), None);
}

#[test]
fn keymap_lookup_distinguishes_bound_prefix_unbound() {
    let mut map: Keymap<u8> = Keymap::default();
    map.bind(parse_key_seq("C-x 2").unwrap(), 1);
    map.bind(parse_key_seq("C-q").unwrap(), 2);
    assert_eq!(
        map.lookup(&parse_key_seq("C-x 2").unwrap()),
        Lookup::Bound(1)
    );
    assert_eq!(map.lookup(&parse_key_seq("C-x").unwrap()), Lookup::Prefix);
    assert_eq!(map.lookup(&parse_key_seq("C-q").unwrap()), Lookup::Bound(2));
    assert_eq!(map.lookup(&parse_key_seq("C-z").unwrap()), Lookup::Unbound);
    assert_eq!(
        map.lookup(&parse_key_seq("C-x 3").unwrap()),
        Lookup::Unbound
    );
    // rebinding replaces
    map.bind(parse_key_seq("C-x 2").unwrap(), 9);
    assert_eq!(
        map.lookup(&parse_key_seq("C-x 2").unwrap()),
        Lookup::Bound(9)
    );
}

#[test]
fn stack_lookup_prefers_the_first_map_and_unions_prefixes() {
    // `local` shadows `global` for C-x C-x, but C-x 3 only exists in
    // `global`.
    let mut local: Keymap<u8> = Keymap::default();
    local.bind(parse_key_seq("C-x C-x").unwrap(), 1);
    local.bind(parse_key_seq("C-f").unwrap(), 2);

    let mut global: Keymap<u8> = Keymap::default();
    global.bind(parse_key_seq("C-x 3").unwrap(), 3);
    global.bind(parse_key_seq("C-f").unwrap(), 4);

    let stack = || [&local, &global];

    // First exact Bound wins: local shadows global on C-f.
    assert_eq!(
        stack_lookup(&stack(), &parse_key_seq("C-f").unwrap()),
        Lookup::Bound(2)
    );
    // Fallthrough: C-x 3 is only in global.
    assert_eq!(
        stack_lookup(&stack(), &parse_key_seq("C-x 3").unwrap()),
        Lookup::Bound(3)
    );
    assert_eq!(
        stack_lookup(&stack(), &parse_key_seq("C-x C-x").unwrap()),
        Lookup::Bound(1)
    );
    // Prefix is a UNION across the stack: C-x stays live even though the
    // local map alone would also report Prefix — and it must stay live
    // when only the global map has a longer binding.
    assert_eq!(
        stack_lookup(&[&local], &parse_key_seq("C-x").unwrap()),
        Lookup::Prefix
    );
    assert_eq!(
        stack_lookup(&[&global], &parse_key_seq("C-x").unwrap()),
        Lookup::Prefix
    );
    assert_eq!(
        stack_lookup(&stack(), &parse_key_seq("C-x").unwrap()),
        Lookup::Prefix
    );
    // Nothing anywhere.
    assert_eq!(
        stack_lookup(&stack(), &parse_key_seq("C-z").unwrap()),
        Lookup::Unbound
    );
    // A Bound in an earlier map beats a Prefix in a later one.
    let mut shadow: Keymap<u8> = Keymap::default();
    shadow.bind(parse_key_seq("C-x").unwrap(), 9);
    assert_eq!(
        stack_lookup(
            &[&shadow, &global],
            &parse_key_seq("C-x").unwrap()
        ),
        Lookup::Bound(9)
    );
}

#[test]
fn keymap_exposes_its_bindings_for_describe_bindings() {
    let mut map: Keymap<u8> = Keymap::default();
    map.bind(parse_key_seq("C-x 3").unwrap(), 7);
    let bindings = map.bindings();
    assert_eq!(bindings.len(), 1);
    assert_eq!(bindings[0].0, parse_key_seq("C-x 3").unwrap());
    assert_eq!(bindings[0].1, 7);
}
