//! Properties of the generator and the formatter that hold for every seed.

use crate::chord::alteration_draw;
use crate::chord::archetype_name;
use crate::chord::chord_string;
use crate::chord::draw_alts;
use crate::chord::lemma_catalog_shape;
use crate::chord::pad_left;
use crate::chord::root_index;
use crate::chord::root_name;
use crate::chord::spaces;
use crate::chord::type_alterations;
use crate::chord::type_allows_extensions;
use crate::chord::type_index;
use crate::chord::type_suffix;
use vstd::prelude::*;

verus! {

/// Construction is deterministic: any two generators built from the same
/// seed hand out the same first value, since each hands out the state the
/// warm-up left behind.
pub proof fn lemma_first_draw_deterministic(seed: u64, r1: u64, r2: u64)
    requires
        r1 == crate::rng::xorshift_iter(seed, crate::rng::WARMUP_ROUNDS as nat),
        r2 == crate::rng::xorshift_iter(seed, crate::rng::WARMUP_ROUNDS as nat),
    ensures
        r1 == r2,
{
}

/// Both draw indices stay inside the fixed tables, whatever the generator
/// state: the root index below twelve, the type index below eight.
pub proof fn lemma_draw_indices_in_bounds(s: u64)
    ensures
        0 <= root_index(s) < 12,
        0 <= type_index(s) < 8,
{
}

/// No sequence in `x` occurs twice.
pub open spec fn distinct_seqs(x: Seq<Seq<char>>) -> bool {
    forall|i: int, j: int| 0 <= i < j < x.len() ==> x[i] != x[j]
}

proof fn lemma_draw_alts_distinct(acc: Seq<Seq<char>>, s: u64, alts: Seq<Seq<char>>, k: nat)
    requires
        distinct_seqs(acc),
    ensures
        distinct_seqs(draw_alts(acc, s, alts, k).0),
    decreases k,
{
    if k > 0 {
        let a = alts[(s % (alts.len() as u64)) as int];
        if acc.contains(a) {
            lemma_draw_alts_distinct(acc, crate::rng::xorshift_step(s), alts, (k - 1) as nat);
        } else {
            let acc2 = acc.push(a);
            assert forall|i: int, j: int| 0 <= i < j < acc2.len() implies acc2[i] != acc2[j] by {
                if j < acc.len() {
                } else {
                    assert(acc2[j] == a);
                    assert(!acc.contains(a));
                    assert(acc2[i] == acc[i]);
                }
            }
            lemma_draw_alts_distinct(acc2, crate::rng::xorshift_step(s), alts, (k - 1) as nat);
        }
    }
}

/// The alterations accepted in one output are pairwise distinct, for every
/// generator state and every allowed list.
pub proof fn lemma_alterations_never_duplicated(s: u64, alts: Seq<Seq<char>>)
    ensures
        distinct_seqs(alteration_draw(s, alts).0),
{
    lemma_draw_alts_distinct(
        Seq::<Seq<char>>::empty(),
        crate::rng::xorshift_step(s),
        alts,
        (s % 3) as nat,
    );
}

proof fn lemma_spaces_len(n: nat)
    ensures
        spaces(n).len() == n,
    decreases n,
{
    if n > 0 {
        lemma_spaces_len((n - 1) as nat);
    }
}

/// The archetype name field of the output line is always exactly sixteen
/// characters wide, whichever archetype was drawn.
pub proof fn lemma_name_field_width(t: int)
    requires
        0 <= t < 8,
    ensures
        pad_left(archetype_name(t), 16).len() == 16,
{
    lemma_catalog_shape(t);
    lemma_spaces_len((16 - archetype_name(t).len()) as nat);
}

/// In simple mode the chord string is the bare root name and suffix, and it
/// holds no space and no parenthesis: no extension pattern and no alteration
/// group can occur in it.
pub proof fn lemma_simple_mode_no_decoration(s0: u64)
    ensures
        chord_string(s0, false).0 == root_name(root_index(s0)) + type_suffix(type_index(s0)),
        forall|j: int|
            0 <= j < chord_string(s0, false).0.len() ==> chord_string(s0, false).0[j] != ' '
                && chord_string(s0, false).0[j] != '(',
{
    reveal_strlit("A");
    reveal_strlit("A♯");
    reveal_strlit("B");
    reveal_strlit("C");
    reveal_strlit("C♯");
    reveal_strlit("D");
    reveal_strlit("D♯");
    reveal_strlit("E");
    reveal_strlit("F");
    reveal_strlit("F♯");
    reveal_strlit("G");
    reveal_strlit("G♯");
    reveal_strlit("maj7");
    reveal_strlit("m7");
    reveal_strlit("7");
    reveal_strlit("dim7");
    reveal_strlit("m7♭5");
    reveal_strlit("minmaj7");
    reveal_strlit("augmaj7");
    reveal_strlit("dimmaj7");
    let r = root_name(root_index(s0));
    let x = type_suffix(type_index(s0));
    assert(forall|j: int| 0 <= j < r.len() ==> r[j] != ' ' && r[j] != '(');
    assert(forall|j: int| 0 <= j < x.len() ==> x[j] != ' ' && x[j] != '(');
    assert forall|j: int| 0 <= j < (r + x).len() implies (r + x)[j] != ' ' && (r + x)[j]
        != '(' by {
        if j < r.len() {
            assert((r + x)[j] == r[j]);
        } else {
            assert((r + x)[j] == x[j - r.len()]);
        }
    }
}

/// In complex mode, an archetype that allows no extensions and has no
/// allowed alterations is rendered exactly as in simple mode: the chord
/// string carries no decoration at all.
pub proof fn lemma_plain_archetype_undecorated(s0: u64)
    requires
        !type_allows_extensions(type_index(s0)),
        type_alterations(type_index(s0)).len() == 0,
    ensures
        chord_string(s0, true).0 == chord_string(s0, false).0,
{
    let base = root_name(root_index(s0)) + type_suffix(type_index(s0));
    assert(base + Seq::<char>::empty() + Seq::<char>::empty() =~= base);
}

} // verus!
