//! The chord catalog and the random chord formatter.

use crate::rng::xorshift_step;
use crate::rng::Rng;
use vstd::prelude::*;
use vstd::string::StrSliceExecFns;
use vstd::string::StringExecFns;

verus! {

/// The fixed table of root note names, in sharp spelling.
pub open spec fn root_name(i: int) -> Seq<char> {
    if i == 0 {
        "A"@
    } else if i == 1 {
        "A♯"@
    } else if i == 2 {
        "B"@
    } else if i == 3 {
        "C"@
    } else if i == 4 {
        "C♯"@
    } else if i == 5 {
        "D"@
    } else if i == 6 {
        "D♯"@
    } else if i == 7 {
        "E"@
    } else if i == 8 {
        "F"@
    } else if i == 9 {
        "F♯"@
    } else if i == 10 {
        "G"@
    } else {
        "G♯"@
    }
}

/// The index of the root note drawn first from generator state `s0`.
pub open spec fn root_index(s0: u64) -> int {
    (s0 % 12) as int
}

/// Randomly selects a root note: one draw, index is the drawn value mod 12.
pub fn random_root(rng: &mut Rng) -> (r: &'static str)
    ensures
        r@ == root_name(root_index(old(rng)@)),
        final(rng)@ == xorshift_step(old(rng)@),
{
    let d = rng.next();
    let i = (d % 12) as usize;
    match i {
        0 => "A",
        1 => "A♯",
        2 => "B",
        3 => "C",
        4 => "C♯",
        5 => "D",
        6 => "D♯",
        7 => "E",
        8 => "F",
        9 => "F♯",
        10 => "G",
        _ => "G♯",
    }
}

/// Number of chord archetypes in the catalog.
pub const TYPE_COUNT: usize = 8;

/// Display names of the archetypes, in catalog order.
pub open spec fn archetype_name(t: int) -> Seq<char> {
    if t == 0 {
        "Major"@
    } else if t == 1 {
        "Minor"@
    } else if t == 2 {
        "Dominant"@
    } else if t == 3 {
        "Diminished"@
    } else if t == 4 {
        "Half-Diminished"@
    } else if t == 5 {
        "Minor-Major"@
    } else if t == 6 {
        "Augmented Major"@
    } else {
        "Diminished Major"@
    }
}

/// Notation suffixes of the archetypes, appended after the root name.
pub open spec fn type_suffix(t: int) -> Seq<char> {
    if t == 0 {
        "maj7"@
    } else if t == 1 {
        "m7"@
    } else if t == 2 {
        "7"@
    } else if t == 3 {
        "dim7"@
    } else if t == 4 {
        "m7♭5"@
    } else if t == 5 {
        "minmaj7"@
    } else if t == 6 {
        "augmaj7"@
    } else {
        "dimmaj7"@
    }
}

/// Semitone interval patterns of the archetypes.
pub open spec fn type_intervals(t: int) -> (u8, u8, u8) {
    if t == 0 {
        (4u8, 3u8, 4u8)
    } else if t == 1 {
        (3u8, 4u8, 3u8)
    } else if t == 2 {
        (4u8, 3u8, 3u8)
    } else if t == 3 {
        (3u8, 3u8, 3u8)
    } else if t == 4 {
        (3u8, 3u8, 4u8)
    } else if t == 5 {
        (3u8, 4u8, 4u8)
    } else if t == 6 {
        (4u8, 4u8, 3u8)
    } else {
        (3u8, 3u8, 5u8)
    }
}

/// Whether an archetype accepts an extension in complex mode.
pub open spec fn type_allows_extensions(t: int) -> bool {
    t == 0 || t == 1 || t == 2 || t == 4 || t == 6
}

/// Alterations each archetype may carry, in catalog order.
pub open spec fn type_alterations(t: int) -> Seq<Seq<char>> {
    if t == 0 {
        seq!["♯11"@, "♭13"@]
    } else if t == 1 {
        seq!["♭9"@, "♯11"@]
    } else if t == 2 {
        seq!["♭9"@, "♯9"@, "♯11"@, "♭13"@]
    } else if t == 3 {
        Seq::<Seq<char>>::empty()
    } else if t == 4 {
        seq!["♯9"@, "♯11"@]
    } else if t == 5 {
        seq!["♯11"@]
    } else if t == 6 {
        seq!["♯11"@]
    } else {
        Seq::<Seq<char>>::empty()
    }
}

/// The character sequences of a list of rendered alterations.
pub open spec fn alts_view(v: Seq<&str>) -> Seq<Seq<char>> {
    v.map_values(|s: &str| s@)
}

/// A chord archetype: interval pattern, display name, notation suffix, and
/// what decorations complex mode may add.
pub struct ChordType {
    /// Interval pattern for base triad or 7th chord
    pub intervals: (u8, u8, u8),
    /// Full name of the chord type
    pub name: &'static str,
    /// Base suffix for the chord type
    pub base_suffix: &'static str,
    /// Whether this chord type allows extensions
    pub allows_extensions: bool,
    /// List of allowed alterations for this chord type
    pub allowed_alterations: Vec<&'static str>,
}

/// `ct` is the catalog entry at index `t`.
pub open spec fn is_archetype(ct: ChordType, t: int) -> bool {
    &&& ct.intervals == type_intervals(t)
    &&& ct.name@ == archetype_name(t)
    &&& ct.base_suffix@ == type_suffix(t)
    &&& ct.allows_extensions == type_allows_extensions(t)
    &&& alts_view(ct.allowed_alterations@) == type_alterations(t)
}

/// The index of the archetype drawn second from generator state `s0`.
pub open spec fn type_index(s0: u64) -> int {
    (xorshift_step(s0) % 8) as int
}

/// Builds the catalog entry at index `t`.
fn chord_type_at(t: usize) -> (ct: ChordType)
    requires
        t < TYPE_COUNT,
    ensures
        is_archetype(ct, t as int),
{
    let ct = match t {
        0 => ChordType {
            intervals: (4, 3, 4),
            name: "Major",
            base_suffix: "maj7",
            allows_extensions: true,
            allowed_alterations: vec!["♯11", "♭13"],
        },
        1 => ChordType {
            intervals: (3, 4, 3),
            name: "Minor",
            base_suffix: "m7",
            allows_extensions: true,
            allowed_alterations: vec!["♭9", "♯11"],
        },
        2 => ChordType {
            intervals: (4, 3, 3),
            name: "Dominant",
            base_suffix: "7",
            allows_extensions: true,
            allowed_alterations: vec!["♭9", "♯9", "♯11", "♭13"],
        },
        3 => ChordType {
            intervals: (3, 3, 3),
            name: "Diminished",
            base_suffix: "dim7",
            allows_extensions: false,
            allowed_alterations: Vec::new(),
        },
        4 => ChordType {
            intervals: (3, 3, 4),
            name: "Half-Diminished",
            base_suffix: "m7♭5",
            allows_extensions: true,
            allowed_alterations: vec!["♯9", "♯11"],
        },
        5 => ChordType {
            intervals: (3, 4, 4),
            name: "Minor-Major",
            base_suffix: "minmaj7",
            allows_extensions: false,
            allowed_alterations: vec!["♯11"],
        },
        6 => ChordType {
            intervals: (4, 4, 3),
            name: "Augmented Major",
            base_suffix: "augmaj7",
            allows_extensions: true,
            allowed_alterations: vec!["♯11"],
        },
        _ => ChordType {
            intervals: (3, 3, 5),
            name: "Diminished Major",
            base_suffix: "dimmaj7",
            allows_extensions: false,
            allowed_alterations: Vec::new(),
        },
    };
    proof {
        assert(alts_view(ct.allowed_alterations@) =~= type_alterations(t as int));
    }
    ct
}

/// Randomly selects a chord type: one draw, index is the drawn value mod 8.
pub fn random_chord_type(rng: &mut Rng) -> (ct: ChordType)
    ensures
        is_archetype(ct, (old(rng)@ % 8) as int),
        final(rng)@ == xorshift_step(old(rng)@),
{
    let d = rng.next();
    chord_type_at((d % 8) as usize)
}

/// Extensions available for complex chords.
pub open spec fn extension_name(i: int) -> Seq<char> {
    if i == 0 {
        "9"@
    } else if i == 1 {
        "11"@
    } else {
        "13"@
    }
}

/// `n` space characters.
pub open spec fn spaces(n: nat) -> Seq<char>
    decreases n,
{
    if n == 0 {
        Seq::<char>::empty()
    } else {
        spaces((n - 1) as nat).push(' ')
    }
}

/// `s` right-aligned in a field of `w` characters; a longer `s` is unchanged.
pub open spec fn pad_left(s: Seq<char>, w: nat) -> Seq<char> {
    if s.len() >= w {
        s
    } else {
        spaces((w - s.len()) as nat) + s
    }
}

/// The decimal character of a digit below ten.
pub open spec fn digit_text(d: u8) -> Seq<char> {
    if d == 0 {
        seq!['0']
    } else if d == 1 {
        seq!['1']
    } else if d == 2 {
        seq!['2']
    } else if d == 3 {
        seq!['3']
    } else if d == 4 {
        seq!['4']
    } else if d == 5 {
        seq!['5']
    } else if d == 6 {
        seq!['6']
    } else if d == 7 {
        seq!['7']
    } else if d == 8 {
        seq!['8']
    } else {
        seq!['9']
    }
}

/// An interval triple rendered as `(a, b, c)`.
pub open spec fn intervals_text(iv: (u8, u8, u8)) -> Seq<char> {
    "("@ + digit_text(iv.0) + ", "@ + digit_text(iv.1) + ", "@ + digit_text(iv.2) + ")"@
}

/// `items` joined by a comma and a space.
pub open spec fn join_sep(items: Seq<Seq<char>>) -> Seq<char>
    decreases items.len(),
{
    if items.len() == 0 {
        Seq::<char>::empty()
    } else if items.len() == 1 {
        items[0]
    } else {
        join_sep(items.drop_last()) + ", "@ + items.last()
    }
}

/// The alterations accepted by `k` draws starting at state `s`, appended to
/// `acc` in the order first accepted; a drawn alteration already present is
/// dropped. Returns the accepted list and the state after the draws.
pub open spec fn draw_alts(acc: Seq<Seq<char>>, s: u64, alts: Seq<Seq<char>>, k: nat) -> (Seq<
    Seq<char>,
>, u64)
    decreases k,
{
    if k == 0 {
        (acc, s)
    } else {
        let a = alts[(s % (alts.len() as u64)) as int];
        let acc2 = if acc.contains(a) {
            acc
        } else {
            acc.push(a)
        };
        draw_alts(acc2, xorshift_step(s), alts, (k - 1) as nat)
    }
}

/// The whole alteration step for a non-empty allowed list: one draw picks a
/// count below three, that many draws pick alterations.
pub open spec fn alteration_draw(s: u64, alts: Seq<Seq<char>>) -> (Seq<Seq<char>>, u64) {
    draw_alts(Seq::<Seq<char>>::empty(), xorshift_step(s), alts, (s % 3) as nat)
}

/// The chord string drawn from state `s0` (root name, suffix, and in complex
/// mode the extension and alteration decorations), with the state after.
pub open spec fn chord_string(s0: u64, complex: bool) -> (Seq<char>, u64) {
    let t = type_index(s0);
    let base = root_name(root_index(s0)) + type_suffix(t);
    let s2 = xorshift_step(xorshift_step(s0));
    if complex {
        let ext = if type_allows_extensions(t) {
            " "@ + extension_name((s2 % 3) as int)
        } else {
            Seq::<char>::empty()
        };
        let s3 = if type_allows_extensions(t) {
            xorshift_step(s2)
        } else {
            s2
        };
        let alts = type_alterations(t);
        let picked = if alts.len() == 0 {
            Seq::<Seq<char>>::empty()
        } else {
            alteration_draw(s3, alts).0
        };
        let s4 = if alts.len() == 0 {
            s3
        } else {
            alteration_draw(s3, alts).1
        };
        let altpart = if picked.len() == 0 {
            Seq::<char>::empty()
        } else {
            " ("@ + join_sep(picked) + ")"@
        };
        (base + ext + altpart, s4)
    } else {
        (base, s2)
    }
}

/// The full output line drawn from state `s0`: the archetype name
/// right-aligned to sixteen characters, the interval triple, and the chord
/// string, separated by vertical bars.
pub open spec fn chord_line(s0: u64, complex: bool) -> (Seq<char>, u64) {
    let t = type_index(s0);
    (
        pad_left(archetype_name(t), 16) + " | "@ + intervals_text(type_intervals(t)) + " | "@
            + chord_string(s0, complex).0,
        chord_string(s0, complex).1,
    )
}

/// Whether two string slices hold the same characters.
fn str_eq(a: &str, b: &str) -> (r: bool)
    ensures
        r == (a@ == b@),
{
    let sa = String::from_str(a);
    let sb = String::from_str(b);
    sa.eq(&sb)
}

/// Whether `x`'s characters already occur in `v`.
fn contains_str(v: &Vec<&'static str>, x: &str) -> (r: bool)
    ensures
        r == alts_view(v@).contains(x@),
{
    let mut i: usize = 0;
    while i < v.len()
        invariant
            i <= v.len(),
            forall|m: int| 0 <= m < i ==> v@[m]@ != x@,
        decreases v.len() - i,
    {
        if str_eq(v[i], x) {
            proof {
                assert(alts_view(v@)[i as int] == x@);
            }
            return true;
        }
        i = i + 1;
    }
    proof {
        assert(forall|m: int| 0 <= m < alts_view(v@).len() ==> alts_view(v@)[m] != x@);
    }
    false
}

/// The decimal rendering of a digit below ten.
fn digit_str(d: u8) -> (r: &'static str)
    requires
        d < 10,
    ensures
        r@ == digit_text(d),
{
    let r = match d {
        0 => "0",
        1 => "1",
        2 => "2",
        3 => "3",
        4 => "4",
        5 => "5",
        6 => "6",
        7 => "7",
        8 => "8",
        _ => "9",
    };
    proof {
        reveal_strlit("0");
        reveal_strlit("1");
        reveal_strlit("2");
        reveal_strlit("3");
        reveal_strlit("4");
        reveal_strlit("5");
        reveal_strlit("6");
        reveal_strlit("7");
        reveal_strlit("8");
        reveal_strlit("9");
        assert(r@ =~= digit_text(d));
    }
    r
}

/// Renders an interval triple of single digits as `(a, b, c)`.
fn intervals_string(iv: (u8, u8, u8)) -> (r: String)
    requires
        iv.0 < 10,
        iv.1 < 10,
        iv.2 < 10,
    ensures
        r@ == intervals_text(iv),
{
    let mut r = String::from_str("(");
    r.append(digit_str(iv.0));
    r.append(", ");
    r.append(digit_str(iv.1));
    r.append(", ");
    r.append(digit_str(iv.2));
    r.append(")");
    r
}

/// Right-aligns `name` in a field of sixteen characters.
fn pad_name(name: &str) -> (r: String)
    requires
        name@.len() <= 16,
    ensures
        r@ == pad_left(name@, 16),
{
    let n = name.unicode_len();
    let mut r = String::new();
    let mut i: usize = n;
    while i < 16
        invariant
            n <= i <= 16,
            n == name@.len(),
            r@ == spaces((i - n) as nat),
        decreases 16 - i,
    {
        r.append(" ");
        proof {
            reveal_strlit(" ");
            assert(r@ =~= spaces((i + 1 - n) as nat));
        }
        i = i + 1;
    }
    r.append(name);
    proof {
        assert(r@ =~= pad_left(name@, 16));
    }
    r
}

/// Draws one extension for a chord type that allows them: the result is a
/// space and the drawn table entry. A type that allows none draws nothing.
fn add_extensions(rng: &mut Rng, chord_type: &ChordType) -> (ext: Option<String>)
    ensures
        chord_type.allows_extensions ==> (ext matches Some(e) && e@ == " "@ + extension_name(
            (old(rng)@ % 3) as int,
        ) && final(rng)@ == xorshift_step(old(rng)@)),
        !chord_type.allows_extensions ==> ext is None && final(rng)@ == old(rng)@,
{
    if chord_type.allows_extensions {
        let d = rng.next();
        let i = (d % 3) as usize;
        let extension = match i {
            0 => "9",
            1 => "11",
            _ => "13",
        };
        let mut e = String::from_str(" ");
        e.append(extension);
        Some(e)
    } else {
        None
    }
}

/// Draws the alteration group for a chord type: a count below three, then
/// that many draws from the allowed list, duplicates dropped. A non-empty
/// pick renders as a space and the picks joined by a comma inside
/// parentheses; an empty allowed list draws nothing.
fn add_alterations(rng: &mut Rng, chord_type: &ChordType) -> (alt: Option<String>)
    ensures
        ({
            let alts = alts_view(chord_type.allowed_alterations@);
            let picked = alteration_draw(old(rng)@, alts).0;
            &&& alts.len() == 0 ==> alt is None && final(rng)@ == old(rng)@
            &&& alts.len() > 0 ==> {
                &&& final(rng)@ == alteration_draw(old(rng)@, alts).1
                &&& picked.len() == 0 ==> alt is None
                &&& picked.len() > 0 ==> (alt matches Some(a) && a@ == " ("@ + join_sep(picked)
                    + ")"@)
            }
        }),
{
    if chord_type.allowed_alterations.len() == 0 {
        return None;
    }
    let ghost alts = alts_view(chord_type.allowed_alterations@);
    let ghost s0 = rng@;
    let d = rng.next();
    let k = (d % 3) as usize;
    let ghost s_start = rng@;
    let mut picked: Vec<&'static str> = Vec::new();
    proof {
        assert(alts_view(picked@) =~= Seq::<Seq<char>>::empty());
    }
    let mut j: usize = 0;
    while j < k
        invariant
            j <= k,
            k < 3,
            alts == alts_view(chord_type.allowed_alterations@),
            chord_type.allowed_alterations@.len() == alts.len(),
            0 < alts.len() <= u64::MAX,
            draw_alts(alts_view(picked@), rng@, alts, (k - j) as nat) == draw_alts(
                Seq::<Seq<char>>::empty(),
                s_start,
                alts,
                k as nat,
            ),
        decreases k - j,
    {
        let ghost s = rng@;
        let dd = rng.next();
        let idx = (dd % (chord_type.allowed_alterations.len() as u64)) as usize;
        let a = chord_type.allowed_alterations[idx];
        proof {
            assert(a@ == alts[(s % (alts.len() as u64)) as int]);
        }
        if !contains_str(&picked, a) {
            let ghost before = alts_view(picked@);
            picked.push(a);
            proof {
                assert(alts_view(picked@) =~= before.push(a@));
            }
        }
        j = j + 1;
    }
    proof {
        assert(alteration_draw(s0, alts).0 == alts_view(picked@));
        assert(alteration_draw(s0, alts).1 == rng@);
    }
    if picked.len() == 0 {
        None
    } else {
        let mut out = String::from_str(" (");
        let mut i: usize = 0;
        while i < picked.len()
            invariant
                i <= picked.len(),
                out@ == " ("@ + join_sep(alts_view(picked@).take(i as int)),
            decreases picked.len() - i,
        {
            if i > 0 {
                out.append(", ");
            }
            out.append(picked[i]);
            proof {
                let pv = alts_view(picked@);
                assert(pv.take(i + 1).drop_last() =~= pv.take(i as int));
                assert(pv.take(i + 1).last() == pv[i as int]);
                assert(out@ =~= " ("@ + join_sep(pv.take(i + 1)));
            }
            i = i + 1;
        }
        out.append(")");
        proof {
            let pv = alts_view(picked@);
            assert(pv.take(picked@.len() as int) =~= pv);
            assert(out@ =~= " ("@ + join_sep(pv) + ")"@);
        }
        Some(out)
    }
}

/// For each archetype, the display name holds at most sixteen characters
/// and every interval is a single digit.
pub(crate) proof fn lemma_catalog_shape(t: int)
    requires
        0 <= t < 8,
    ensures
        archetype_name(t).len() <= 16,
        type_intervals(t).0 < 10,
        type_intervals(t).1 < 10,
        type_intervals(t).2 < 10,
{
    reveal_strlit("Major");
    reveal_strlit("Minor");
    reveal_strlit("Dominant");
    reveal_strlit("Diminished");
    reveal_strlit("Half-Diminished");
    reveal_strlit("Minor-Major");
    reveal_strlit("Augmented Major");
    reveal_strlit("Diminished Major");
}

/// Generates a random chord line with optional complexity flag: the result
/// and the generator state left behind are exactly those `chord_line` gives
/// for the starting state.
pub fn random_chord(rng: &mut Rng, complex: bool) -> (line: String)
    ensures
        line@ == chord_line(old(rng)@, complex).0,
        final(rng)@ == chord_line(old(rng)@, complex).1,
{
    let ghost s0 = rng@;
    let root = random_root(rng);
    let chord_type = random_chord_type(rng);
    let ghost t = type_index(s0);
    proof {
        assert(is_archetype(chord_type, t));
    }
    let mut chord_str = String::from_str(root);
    chord_str.append(chord_type.base_suffix);
    let ghost base = root_name(root_index(s0)) + type_suffix(t);

    if complex {
        let ghost s2 = rng@;
        if let Some(ext) = add_extensions(rng, &chord_type) {
            chord_str.append(ext.as_str());
        }
        proof {
            if !type_allows_extensions(t) {
                assert(chord_str@ =~= base + Seq::<char>::empty());
            }
        }
        let ghost s3 = rng@;
        if let Some(alt) = add_alterations(rng, &chord_type) {
            chord_str.append(alt.as_str());
        }
        proof {
            let ext = if type_allows_extensions(t) {
                " "@ + extension_name((s2 % 3) as int)
            } else {
                Seq::<char>::empty()
            };
            let alts = type_alterations(t);
            let picked = if alts.len() == 0 {
                Seq::<Seq<char>>::empty()
            } else {
                alteration_draw(s3, alts).0
            };
            if alts.len() == 0 || picked.len() == 0 {
                assert(chord_str@ =~= base + ext + Seq::<char>::empty());
            }
            assert(chord_str@ == chord_string(s0, complex).0);
            assert(rng@ == chord_string(s0, complex).1);
        }
    }

    proof {
        lemma_catalog_shape(t);
    }
    let mut line = pad_name(chord_type.name);
    line.append(" | ");
    let itext = intervals_string(chord_type.intervals);
    line.append(itext.as_str());
    line.append(" | ");
    line.append(chord_str.as_str());
    line
}

} // verus!
