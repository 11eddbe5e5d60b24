//! Chord grammar tests: keys, modifiers, whole chords, and round trips.

use whimsy::acts::NamedAct;
use whimsy::text::text_contains;
use whimsy::command::{parse_cmd, parse_mod, parse_str, Command, Modifiers, ParseError};

fn parses_keys() {
    let mut input = ('a'..='z').map(|v| v.to_string()).collect::<Vec<String>>();
    let uppercase = ('A'..='Z').map(|v| v.to_string()).collect::<Vec<String>>();
    input.extend(uppercase);

    for op in input {
        let cmd = parse_cmd(&op).unwrap();
        assert_eq!(cmd.key, op);
    }
}

fn parses_modifier() {
    let c1 = "<cr> + a";
    let c2 = "<control> + b";
    let c3 = "<alt> + c";
    let c4 = "<shift> + d";
    let c7 = "<super> + g";
    let c8 = "<other> + h";
    let (rest, m) = parse_mod(c1, 0).unwrap();
    assert_eq!(&c1[rest..], "a");
    assert!(m.control_key);
    let (rest, m) = parse_mod(c2, 0).unwrap();
    assert_eq!(&c2[rest..], "b");
    assert!(m.control_key);
    let (rest, m) = parse_mod(c3, 0).unwrap();
    assert_eq!(&c3[rest..], "c");
    assert!(m.alt_key);
    let (rest, m) = parse_mod(c4, 0).unwrap();
    assert_eq!(&c4[rest..], "d");
    assert!(m.shift_key);
    let (rest, m) = parse_mod(c7, 0).unwrap();
    assert_eq!(&c7[rest..], "g");
    assert!(m.super_key);
    // An unknown bracketed token still consumes its bracket but
    // contributes no modifier.
    let (rest, m) = parse_mod(c8, 0).unwrap();
    assert_eq!(&c8[rest..], "h");
    assert_eq!(m, Modifiers::new());
}

fn parses_command() {
    let c1 = "<cr> + a";
    let c2 = "<control> + b";
    let c3 = "<alt> + c";
    let c4 = "<shift> + d";
    let c7 = "<super> + g";
    let c8 = "<other> + h";
    let mut comp = Modifiers::new();
    let (_, c) = parse_str(c8).unwrap();
    assert!(c == Command::with_modifier("h", &comp));
    comp.control_key = true;
    let (_, c) = parse_str(c1).unwrap();
    assert!(c == Command::with_modifier("a", &comp));
    let (_, c) = parse_str(c2).unwrap();
    assert!(c == Command::with_modifier("b", &comp));
    comp.control_key = false;
    comp.alt_key = true;
    let (_, c) = parse_str(c3).unwrap();
    assert!(c == Command::with_modifier("c", &comp));
    comp.alt_key = false;
    comp.shift_key = true;
    let (_, c) = parse_str(c4).unwrap();
    assert!(c == Command::with_modifier("d", &comp));
    comp.shift_key = false;
    comp.super_key = true;
    let (_, c) = parse_str(c7).unwrap();
    assert!(c == Command::with_modifier("g", &comp));
}

#[test]
fn observer() {
    parses_keys();
    parses_modifier();
    parses_command();
}

#[test]
fn chord_round_trip() {
    // Rendering a chord and parsing the text back yields an equal chord,
    // except that a base key without a lower-case letter forces shift.
    let bases = ["a", "q9", "z"];
    for shift in [false, true] {
        for control in [false, true] {
            for alt in [false, true] {
                for superk in [false, true] {
                    let mods = Modifiers {
                        shift_key: shift,
                        control_key: control,
                        alt_key: alt,
                        super_key: superk,
                    };
                    for base in bases {
                        let chord = Command::with_modifier(base, &mods);
                        let parsed = parse_cmd(&chord.render()).unwrap();
                        assert!(parsed == chord);
                    }
                }
            }
        }
    }
}

#[test]
fn chord_round_trip_uppercase() {
    // The exception: an all-uppercase base comes back with shift on,
    // whatever the rendered shift flag was.
    let quiet = Modifiers::new();
    let chord = Command::with_modifier("A", &quiet);
    let parsed = parse_cmd(&chord.render()).unwrap();
    assert!(parsed.mods.shift_key);
    assert_eq!(parsed.key, "A");
    let mut shifted = Modifiers::new();
    shifted.shift_key = true;
    assert!(parsed == Command::with_modifier("A", &shifted));
}

#[test]
fn uppercase_implies_shift() {
    // Parsing "A" with no explicit modifier equals parsing "<shift> + a".
    let a = parse_cmd("A").unwrap();
    let b = parse_cmd("<shift> + a").unwrap();
    assert!(a == b);
    assert!(a.mods.shift_key);
}

#[test]
fn malformed_chords() {
    assert_eq!(parse_cmd(""), Err(ParseError::Malformed));
    assert_eq!(parse_cmd("   "), Err(ParseError::Malformed));
    assert_eq!(parse_cmd("<cr> + "), Err(ParseError::Malformed));
    assert_eq!(parse_cmd("<shift>"), Err(ParseError::Malformed));
    assert_eq!(parse_cmd("+"), Err(ParseError::Malformed));
}

#[test]
fn modifier_union_is_monotonic() {
    // Once set, accumulation never clears a flag.
    let mut mods = Modifiers::new();
    let mut control = Modifiers::new();
    control.control_key = true;
    mods.and(&control);
    assert!(mods.control_key);
    mods.and(&Modifiers::new());
    assert!(mods.control_key);
    let chord = parse_cmd("<cr> + <cr> + x").unwrap();
    assert!(chord.mods.control_key);
}

#[test]
fn named_key_chords() {
    // The second input domain: named key events map to canonical
    // lowercase chords with no modifiers.
    let enter = Command::from_named(&NamedAct::Enter);
    assert_eq!(enter.key, "enter");
    assert_eq!(enter.mods, Modifiers::new());
    let left = Command::from_named(&NamedAct::ArrowLeft);
    assert_eq!(left.key, "arrow_left");
    // A purely alphanumeric named chord survives the grammar unchanged;
    // underscored keys are matched directly, never re-parsed.
    let reparsed = parse_cmd(&enter.render()).unwrap();
    assert!(reparsed == enter);
}

#[test]
fn chord_matching_ignores_case() {
    let mut shifted = Modifiers::new();
    shifted.shift_key = true;
    let upper = Command::with_modifier("G", &shifted);
    let lower = Command::with_modifier("g", &shifted);
    assert!(upper.act(&lower));
    let unshifted = Command::with_modifier("g", &Modifiers::new());
    assert!(!upper.act(&unshifted));
}

#[test]
fn substring_search() {
    assert!(text_contains("arrow_left", "left"));
    assert!(text_contains("arrow_left", ""));
    assert!(text_contains("arrow_left", "arrow_left"));
    assert!(!text_contains("arrow_left", "right"));
    assert!(!text_contains("ab", "abc"));
    assert!(text_contains("aaab", "aab"));
}

#[test]
fn empty_modifier_set() {
    // The empty set answers true; any set flag makes it false.
    assert!(Modifiers::new().is_none());
    let mut mods = Modifiers::new();
    mods.control_key = true;
    assert!(!mods.is_none());
    let all = Modifiers { shift_key: true, control_key: true, alt_key: true, super_key: true };
    assert!(!all.is_none());
}
