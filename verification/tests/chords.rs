use pchords::random_chord;
use pchords::random_chord_type;
use pchords::random_root;
use pchords::Rng;

const ROOT_NAMES: [&str; 12] = [
    "A", "A♯", "B", "C", "C♯", "D", "D♯", "E", "F", "F♯", "G", "G♯",
];

const ARCHETYPE_NAMES: [&str; 8] = [
    "Major",
    "Minor",
    "Dominant",
    "Diminished",
    "Half-Diminished",
    "Minor-Major",
    "Augmented Major",
    "Diminished Major",
];

/// The chord portion of an output line: what follows the last separator.
fn chord_part(line: &str) -> &str {
    line.rsplit(" | ").next().unwrap()
}

#[test]
fn rng_determinism() {
    let mut a = Rng::new(42);
    let mut b = Rng::new(42);
    for _ in 0..10 {
        assert_eq!(a.next(), b.next());
    }
}

#[test]
fn warmup_perturbs_seed_one() {
    let mut rng = Rng::new(1);
    let first = rng.next();
    assert_ne!(first, 1);
    assert_eq!(first, 9980069340194557967);
}

#[test]
fn chord_determinism() {
    for seed in 0..50 {
        let mut a = Rng::new(seed);
        let mut b = Rng::new(seed);
        assert_eq!(random_chord(&mut a, true), random_chord(&mut b, true));
    }
}

#[test]
fn root_always_in_table() {
    for seed in 0..200 {
        let mut rng = Rng::new(seed);
        let root = random_root(&mut rng);
        assert!(ROOT_NAMES.contains(&root));
    }
}

#[test]
fn chord_type_always_in_table() {
    for seed in 0..200 {
        let mut rng = Rng::new(seed);
        let ct = random_chord_type(&mut rng);
        assert!(ARCHETYPE_NAMES.contains(&ct.name));
    }
}

#[test]
fn simple_mode_undecorated() {
    for seed in 0..200 {
        let mut rng = Rng::new(seed);
        let line = random_chord(&mut rng, false);
        let chord = chord_part(&line);
        assert!(!chord.contains(' '), "decoration in simple mode: {line}");
        assert!(!chord.contains('('), "alteration group in simple mode: {line}");
        assert!(!chord.contains(" 9"));
        assert!(!chord.contains(" 11"));
        assert!(!chord.contains(" 13"));
    }
}

#[test]
fn plain_archetype_complex_equals_simple() {
    // This seed draws the Diminished archetype, which allows no extensions
    // and no alterations: complex mode adds nothing.
    let mut complex_rng = Rng::new(11);
    let complex_line = random_chord(&mut complex_rng, true);
    let mut simple_rng = Rng::new(11);
    let simple_line = random_chord(&mut simple_rng, false);
    assert_eq!(complex_line, "      Diminished | (3, 3, 3) | Bdim7");
    assert_eq!(complex_line, simple_line);
}

#[test]
fn duplicate_alteration_draw_collapses() {
    // This seed draws Minor-Major with an alteration count of two; both
    // draws pick the single allowed alteration, which is rendered once.
    let mut rng = Rng::new(56);
    let line = random_chord(&mut rng, true);
    assert_eq!(line, "     Minor-Major | (3, 4, 4) | Eminmaj7 (♯11)");
}

#[test]
fn no_duplicate_alterations() {
    for seed in 0..500 {
        let mut rng = Rng::new(seed);
        let line = random_chord(&mut rng, true);
        let chord = chord_part(&line);
        if let Some(open) = chord.find('(') {
            let inner = &chord[open + 1..chord.len() - 1];
            let alts: Vec<&str> = inner.split(", ").collect();
            for i in 0..alts.len() {
                for j in i + 1..alts.len() {
                    assert_ne!(alts[i], alts[j], "duplicate alteration: {line}");
                }
            }
        }
    }
}

#[test]
fn name_field_sixteen_chars() {
    for seed in 0..200 {
        for complex in [false, true] {
            let mut rng = Rng::new(seed);
            let line = random_chord(&mut rng, complex);
            let name_field = line.split(" | ").next().unwrap();
            assert_eq!(name_field.chars().count(), 16, "bad name field: {line}");
        }
    }
}

#[test]
fn name_field_right_aligned() {
    let mut rng = Rng::new(45);
    let line = random_chord(&mut rng, false);
    assert!(line.starts_with("           Major"));
}

#[test]
fn end_to_end_simple() {
    // Root draw 2 ("B"), type draw 0 (Major), simple mode.
    let mut rng = Rng::new(45);
    let line = random_chord(&mut rng, false);
    assert_eq!(line, "           Major | (4, 3, 4) | Bmaj7");
}

#[test]
fn end_to_end_complex_extension() {
    // Root draw 2 ("B"), type draw 0 (Major), extension draw "9",
    // alteration count draw 0.
    let mut rng = Rng::new(355);
    let line = random_chord(&mut rng, true);
    assert_eq!(line, "           Major | (4, 3, 4) | Bmaj7 9");
}

#[test]
fn two_alterations_joined() {
    let mut rng = Rng::new(24);
    let line = random_chord(&mut rng, true);
    assert_eq!(line, "           Major | (4, 3, 4) | Emaj7 13 (♯11, ♭13)");
}

#[test]
fn extension_thirteen() {
    let mut rng = Rng::new(16);
    let line = random_chord(&mut rng, true);
    assert_eq!(line, "        Dominant | (4, 3, 3) | A♯7 13 (♯11)");
}
