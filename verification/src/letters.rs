use vstd::prelude::*;

use crate::containers::{
    empty_table, key_get, key_insert, key_model, key_new, morse_queue_model, mq_dequeue,
    mq_enqueue, mq_len, mq_new, mq_peek, mq_snapshot, MorseKey, MorseQueue,
};
use crate::types::{Morse, MorseErr, MorseSequenceSerialization, QUEUE_RING};

verus! {

// The symbol table and letter assembly: a letter is a run of dots and
// dashes separated by single tiny gaps; its serialization `(length, bits)`
// looks the letter up in the fixed 26-entry table.

/// The 26-letter symbol table: bit `i` of the second component is set iff
/// the `i`-th symbol of the letter is a dash.
pub open spec fn morse_table() -> Map<MorseSequenceSerialization, char> {
    map![
        (2u8, 2u8) => 'a',
        (4u8, 1u8) => 'b',
        (4u8, 5u8) => 'c',
        (3u8, 1u8) => 'd',
        (1u8, 0u8) => 'e',
        (4u8, 4u8) => 'f',
        (3u8, 3u8) => 'g',
        (4u8, 0u8) => 'h',
        (2u8, 0u8) => 'i',
        (4u8, 14u8) => 'j',
        (3u8, 5u8) => 'k',
        (4u8, 2u8) => 'l',
        (2u8, 3u8) => 'm',
        (2u8, 1u8) => 'n',
        (3u8, 7u8) => 'o',
        (4u8, 6u8) => 'p',
        (4u8, 11u8) => 'q',
        (3u8, 2u8) => 'r',
        (3u8, 0u8) => 's',
        (1u8, 1u8) => 't',
        (3u8, 4u8) => 'u',
        (4u8, 8u8) => 'v',
        (3u8, 6u8) => 'w',
        (4u8, 9u8) => 'x',
        (4u8, 13u8) => 'y',
        (4u8, 3u8) => 'z',
    ]
}

/// A mark: a symbol that stands for signal, not for a gap.
pub open spec fn is_mark(m: Morse) -> bool {
    m is Dot || m is Dash
}

/// The dash bits of a mark run, low bit first.
pub open spec fn bits_nat(s: Seq<Morse>) -> int
    decreases s.len(),
{
    if s.len() == 0 {
        0
    } else {
        bits_nat(s.drop_last()) + if s.last() is Dash {
            vstd::arithmetic::power2::pow2((s.len() - 1) as nat) as int
        } else {
            0int
        }
    }
}

/// The first symbol of a run that is no mark, if any.
pub open spec fn first_non_mark(s: Seq<Morse>) -> Option<Morse>
    decreases s.len(),
{
    if s.len() == 0 {
        None
    } else if !is_mark(s.first()) {
        Some(s.first())
    } else {
        first_non_mark(s.drop_first())
    }
}

/// What serialization returns on a symbol run: the `(length, bits)` pair of
/// a pure mark run of length one to eight, or the error naming what was
/// wrong.
pub open spec fn serialize_spec(s: Seq<Morse>) -> Result<MorseSequenceSerialization, MorseErr> {
    if s.len() == 0 {
        Err(MorseErr::EmptyInput)
    } else if s.len() <= 8 {
        match first_non_mark(s) {
            Some(m) => Err(MorseErr::MorseInputCrossesLetterBound(m)),
            None => Ok((s.len() as u8, bits_nat(s) as u8)),
        }
    } else {
        Err(MorseErr::InputTooLarge)
    }
}

/// The dash bits of a mark run stay below two to the run length.
pub proof fn lemma_bits_bound(s: Seq<Morse>)
    ensures
        0 <= bits_nat(s) < vstd::arithmetic::power2::pow2(s.len() as nat),
    decreases s.len(),
{
    vstd::arithmetic::power2::lemma_pow2_pos(s.len() as nat);
    if s.len() == 0 {
        vstd::arithmetic::power2::lemma2_to64();
    } else {
        lemma_bits_bound(s.drop_last());
        assert(vstd::arithmetic::power2::pow2(s.len() as nat) == 2 * vstd::arithmetic::power2::pow2(
            (s.len() - 1) as nat,
        )) by {
            vstd::arithmetic::power2::lemma_pow2_unfold(s.len() as nat);
        }
    }
}

/// A prefix of marks pins the first non-mark down: scanning finds none in
/// the prefix, and the element after a pure-mark prefix, if it is no mark,
/// is the first.
pub proof fn lemma_first_non_mark(s: Seq<Morse>, i: int)
    requires
        0 <= i <= s.len(),
        forall|j: int| 0 <= j < i ==> is_mark(#[trigger] s[j]),
    ensures
        i == s.len() ==> first_non_mark(s) is None,
        i < s.len() && !is_mark(s[i]) ==> first_non_mark(s) == Some(s[i]),
    decreases i,
{
    if i == 0 {
    } else {
        assert(is_mark(s[0]));
        assert(forall|j: int| 0 <= j < i - 1 ==> is_mark(#[trigger] s.drop_first()[j]));
        lemma_first_non_mark(s.drop_first(), i - 1);
        if i < s.len() && !is_mark(s[i]) {
            assert(s.drop_first()[i - 1] == s[i]);
        }
    }
}

/// Serializes a mark run to its `(length, bits)` pair, exactly as
/// `serialize_spec` describes.
pub fn serialize_morse(morse: &[Morse]) -> (r: Result<MorseSequenceSerialization, MorseErr>)
    ensures
        r == serialize_spec(morse@),
{
    let n = morse.len();
    if n == 0 {
        Err(MorseErr::EmptyInput)
    } else if n <= 8 {
        let mut rep: u8 = 0;
        let mut mask: u16 = 1;
        let mut i: usize = 0;
        proof {
            vstd::arithmetic::power2::lemma2_to64();
        }
        while i < n
            invariant
                i <= n,
                n == morse@.len(),
                0 < n <= 8,
                forall|j: int| 0 <= j < i ==> is_mark(#[trigger] morse@[j]),
                mask == vstd::arithmetic::power2::pow2(i as nat),
                mask <= 256,
                rep == bits_nat(morse@.subrange(0, i as int)),
                rep < mask,
            decreases n - i,
        {
            let m = morse[i];
            match m {
                Morse::Dot => {},
                Morse::Dash => {},
                _ => {
                    proof {
                        lemma_first_non_mark(morse@, i as int);
                    }
                    return Err(MorseErr::MorseInputCrossesLetterBound(m));
                },
            }
            proof {
                assert(morse@.subrange(0, i + 1).drop_last() =~= morse@.subrange(0, i as int));
                assert(morse@.subrange(0, i + 1).last() == m);
                lemma_bits_bound(morse@.subrange(0, i as int));
                assert(vstd::arithmetic::power2::pow2((i + 1) as nat) == 2
                    * vstd::arithmetic::power2::pow2(i as nat)) by {
                    vstd::arithmetic::power2::lemma_pow2_unfold((i + 1) as nat);
                }
                vstd::arithmetic::power2::lemma_pow2_strictly_increases(
                    i as nat,
                    9,
                );
                vstd::arithmetic::power2::lemma2_to64();
            }
            if let Morse::Dash = m {
                rep = rep + (mask as u8);
            }
            mask = mask * 2;
            i += 1;
        }
        proof {
            lemma_first_non_mark(morse@, n as int);
            assert(morse@.subrange(0, n as int) =~= morse@);
        }
        Ok((n as u8, rep))
    } else {
        Err(MorseErr::InputTooLarge)
    }
}

/// What tiny-space validation returns while a run tail is left: the marks
/// collected so far, or the first error. Two consecutive marks must be
/// separated by exactly one tiny gap; a mark after a missing or surplus
/// gap is a spacing violation, checked at that mark, so gaps before the
/// first mark and after the last are tolerated. A gap other than a tiny
/// gap crosses the letter bound.
pub open spec fn validate_rec(s: Seq<Morse>, seen_mark: bool, gap: int, acc: Seq<Morse>) -> Result<
    Seq<Morse>,
    MorseErr,
>
    decreases s.len(),
{
    if s.len() == 0 {
        Ok(acc)
    } else {
        let m = s.first();
        match m {
            Morse::TinySpace => validate_rec(s.drop_first(), seen_mark, gap + 1, acc),
            Morse::Dot => if seen_mark && gap != 1 {
                Err(MorseErr::InvalidLetterTinySpacing)
            } else {
                validate_rec(s.drop_first(), true, 0, acc.push(m))
            },
            Morse::Dash => if seen_mark && gap != 1 {
                Err(MorseErr::InvalidLetterTinySpacing)
            } else {
                validate_rec(s.drop_first(), true, 0, acc.push(m))
            },
            _ => Err(MorseErr::MorseInputCrossesLetterBound(m)),
        }
    }
}

/// What tiny-space validation returns on a whole symbol run.
pub open spec fn validate_spec(s: Seq<Morse>) -> Result<Seq<Morse>, MorseErr> {
    validate_rec(s, false, 0, Seq::empty())
}

/// Checks the tiny gaps inside one letter and extracts the mark run,
/// exactly as `validate_spec` describes.
pub fn validate_morse_letter_tiny_spaces(morse: &[Morse]) -> (r: Result<Vec<Morse>, MorseErr>)
    ensures
        match r {
            Ok(v) => validate_spec(morse@) is Ok && v@ == validate_spec(morse@)->Ok_0,
            Err(e) => validate_spec(morse@) == Err::<Seq<Morse>, MorseErr>(e),
        },
{
    let n = morse.len();
    let mut seen_mark = false;
    let mut gap: usize = 0;
    let mut ret_vec: Vec<Morse> = Vec::new();
    let mut i: usize = 0;
    proof {
        assert(morse@.skip(0) =~= morse@);
        assert(ret_vec@ =~= Seq::<Morse>::empty());
    }
    while i < n
        invariant
            i <= n,
            n == morse@.len(),
            gap <= i,
            validate_spec(morse@) == validate_rec(
                morse@.skip(i as int),
                seen_mark,
                gap as int,
                ret_vec@,
            ),
        decreases n - i,
    {
        let m = morse[i];
        proof {
            assert(morse@.skip(i as int).first() == morse@[i as int]);
            assert(morse@.skip(i as int).drop_first() =~= morse@.skip(i + 1));
        }
        match m {
            Morse::TinySpace => {
                gap += 1;
            },
            Morse::Dot => {
                if seen_mark && gap != 1 {
                    return Err(MorseErr::InvalidLetterTinySpacing);
                }
                seen_mark = true;
                gap = 0;
                ret_vec.push(m);
            },
            Morse::Dash => {
                if seen_mark && gap != 1 {
                    return Err(MorseErr::InvalidLetterTinySpacing);
                }
                seen_mark = true;
                gap = 0;
                ret_vec.push(m);
            },
            _ => {
                return Err(MorseErr::MorseInputCrossesLetterBound(m));
            },
        }
        i += 1;
    }
    proof {
        assert(morse@.skip(n as int) =~= Seq::<Morse>::empty());
    }
    Ok(ret_vec)
}

/// Builds the symbol table; the backing map holds more slots than letters,
/// so construction always succeeds and the table holds exactly the 26
/// entries of `morse_table`.
pub fn construct_key() -> (r: Result<MorseKey, ()>)
    ensures
        r is Ok,
        key_model(r->Ok_0) == morse_table(),
{
    let mut map = key_new();
    proof {
        assert(key_model(map).dom() =~= empty_table().dom());
        vstd::set_lib::lemma_set_empty_equivalency_len(key_model(map).dom());
    }
    add_letter(&mut map, 2, 2, 'a');
    add_letter(&mut map, 4, 1, 'b');
    add_letter(&mut map, 4, 5, 'c');
    add_letter(&mut map, 3, 1, 'd');
    add_letter(&mut map, 1, 0, 'e');
    add_letter(&mut map, 4, 4, 'f');
    add_letter(&mut map, 3, 3, 'g');
    add_letter(&mut map, 4, 0, 'h');
    add_letter(&mut map, 2, 0, 'i');
    add_letter(&mut map, 4, 14, 'j');
    add_letter(&mut map, 3, 5, 'k');
    add_letter(&mut map, 4, 2, 'l');
    add_letter(&mut map, 2, 3, 'm');
    add_letter(&mut map, 2, 1, 'n');
    add_letter(&mut map, 3, 7, 'o');
    add_letter(&mut map, 4, 6, 'p');
    add_letter(&mut map, 4, 11, 'q');
    add_letter(&mut map, 3, 2, 'r');
    add_letter(&mut map, 3, 0, 's');
    add_letter(&mut map, 1, 1, 't');
    add_letter(&mut map, 3, 4, 'u');
    add_letter(&mut map, 4, 8, 'v');
    add_letter(&mut map, 3, 6, 'w');
    add_letter(&mut map, 4, 9, 'x');
    add_letter(&mut map, 4, 13, 'y');
    add_letter(&mut map, 4, 3, 'z');
    proof {
        assert(key_model(map) =~= morse_table());
    }
    Ok(map)
}

/// Adds one letter to a table that still has room.
fn add_letter(map: &mut MorseKey, len: u8, bits: u8, c: char)
    requires
        key_model(*old(map)).dom().finite(),
        key_model(*old(map)).dom().len() < 26,
    ensures
        key_model(*final(map)) == key_model(*old(map)).insert((len, bits), c),
        key_model(*final(map)).dom().finite(),
        key_model(*final(map)).dom().len() <= key_model(*old(map)).dom().len() + 1,
{
    let ok = key_insert(map, (len, bits), c);
    proof {
        assert(ok);
        vstd::set::axiom_set_insert_len(key_model(*old(map)).dom(), (len, bits));
        assert(key_model(*final(map)).dom() =~= key_model(*old(map)).dom().insert((len, bits)));
    }
}

/// The mark run of one letter, dots and dashes only; empty off the 26
/// letters.
pub open spec fn letter_morse(l: char) -> Seq<Morse> {
    if l == 'a' {
        seq![Morse::Dot, Morse::Dash]
    } else if l == 'b' {
        seq![Morse::Dash, Morse::Dot, Morse::Dot, Morse::Dot]
    } else if l == 'c' {
        seq![Morse::Dash, Morse::Dot, Morse::Dash, Morse::Dot]
    } else if l == 'd' {
        seq![Morse::Dash, Morse::Dot, Morse::Dot]
    } else if l == 'e' {
        seq![Morse::Dot]
    } else if l == 'f' {
        seq![Morse::Dot, Morse::Dot, Morse::Dash, Morse::Dot]
    } else if l == 'g' {
        seq![Morse::Dash, Morse::Dash, Morse::Dot]
    } else if l == 'h' {
        seq![Morse::Dot, Morse::Dot, Morse::Dot, Morse::Dot]
    } else if l == 'i' {
        seq![Morse::Dot, Morse::Dot]
    } else if l == 'j' {
        seq![Morse::Dot, Morse::Dash, Morse::Dash, Morse::Dash]
    } else if l == 'k' {
        seq![Morse::Dash, Morse::Dot, Morse::Dash]
    } else if l == 'l' {
        seq![Morse::Dot, Morse::Dash, Morse::Dot, Morse::Dot]
    } else if l == 'm' {
        seq![Morse::Dash, Morse::Dash]
    } else if l == 'n' {
        seq![Morse::Dash, Morse::Dot]
    } else if l == 'o' {
        seq![Morse::Dash, Morse::Dash, Morse::Dash]
    } else if l == 'p' {
        seq![Morse::Dot, Morse::Dash, Morse::Dash, Morse::Dot]
    } else if l == 'q' {
        seq![Morse::Dash, Morse::Dash, Morse::Dot, Morse::Dash]
    } else if l == 'r' {
        seq![Morse::Dot, Morse::Dash, Morse::Dot]
    } else if l == 's' {
        seq![Morse::Dot, Morse::Dot, Morse::Dot]
    } else if l == 't' {
        seq![Morse::Dash]
    } else if l == 'u' {
        seq![Morse::Dot, Morse::Dot, Morse::Dash]
    } else if l == 'v' {
        seq![Morse::Dot, Morse::Dot, Morse::Dot, Morse::Dash]
    } else if l == 'w' {
        seq![Morse::Dot, Morse::Dash, Morse::Dash]
    } else if l == 'x' {
        seq![Morse::Dash, Morse::Dot, Morse::Dot, Morse::Dash]
    } else if l == 'y' {
        seq![Morse::Dash, Morse::Dot, Morse::Dash, Morse::Dash]
    } else if l == 'z' {
        seq![Morse::Dash, Morse::Dash, Morse::Dot, Morse::Dot]
    } else {
        Seq::empty()
    }
}

/// The round-trip law of the symbol table: every letter's mark run
/// serializes to a key that looks the same letter up again.
#[verifier::rlimit(100)]
#[verifier::spinoff_prover]
pub proof fn lemma_symbol_table_round_trip(l: char)
    requires
        'a' <= l <= 'z',
    ensures
        serialize_spec(letter_morse(l)) is Ok,
        morse_table().contains_key(serialize_spec(letter_morse(l))->Ok_0),
        morse_table()[serialize_spec(letter_morse(l))->Ok_0] == l,
{
    vstd::arithmetic::power2::lemma2_to64();
    reveal_with_fuel(bits_nat, 6);
    reveal_with_fuel(first_non_mark, 6);
    if l == 'a' {
        assert(serialize_spec(letter_morse('a')) == Ok::<MorseSequenceSerialization, MorseErr>((
            2u8,
            2u8,
        )));
    } else if l == 'b' {
        assert(serialize_spec(letter_morse('b')) == Ok::<MorseSequenceSerialization, MorseErr>((
            4u8,
            1u8,
        )));
    } else if l == 'c' {
        assert(serialize_spec(letter_morse('c')) == Ok::<MorseSequenceSerialization, MorseErr>((
            4u8,
            5u8,
        )));
    } else if l == 'd' {
        assert(serialize_spec(letter_morse('d')) == Ok::<MorseSequenceSerialization, MorseErr>((
            3u8,
            1u8,
        )));
    } else if l == 'e' {
        assert(serialize_spec(letter_morse('e')) == Ok::<MorseSequenceSerialization, MorseErr>((
            1u8,
            0u8,
        )));
    } else if l == 'f' {
        assert(serialize_spec(letter_morse('f')) == Ok::<MorseSequenceSerialization, MorseErr>((
            4u8,
            4u8,
        )));
    } else if l == 'g' {
        assert(serialize_spec(letter_morse('g')) == Ok::<MorseSequenceSerialization, MorseErr>((
            3u8,
            3u8,
        )));
    } else if l == 'h' {
        assert(serialize_spec(letter_morse('h')) == Ok::<MorseSequenceSerialization, MorseErr>((
            4u8,
            0u8,
        )));
    } else if l == 'i' {
        assert(serialize_spec(letter_morse('i')) == Ok::<MorseSequenceSerialization, MorseErr>((
            2u8,
            0u8,
        )));
    } else if l == 'j' {
        assert(serialize_spec(letter_morse('j')) == Ok::<MorseSequenceSerialization, MorseErr>((
            4u8,
            14u8,
        )));
    } else if l == 'k' {
        assert(serialize_spec(letter_morse('k')) == Ok::<MorseSequenceSerialization, MorseErr>((
            3u8,
            5u8,
        )));
    } else if l == 'l' {
        assert(serialize_spec(letter_morse('l')) == Ok::<MorseSequenceSerialization, MorseErr>((
            4u8,
            2u8,
        )));
    } else if l == 'm' {
        assert(serialize_spec(letter_morse('m')) == Ok::<MorseSequenceSerialization, MorseErr>((
            2u8,
            3u8,
        )));
    } else if l == 'n' {
        assert(serialize_spec(letter_morse('n')) == Ok::<MorseSequenceSerialization, MorseErr>((
            2u8,
            1u8,
        )));
    } else if l == 'o' {
        assert(serialize_spec(letter_morse('o')) == Ok::<MorseSequenceSerialization, MorseErr>((
            3u8,
            7u8,
        )));
    } else if l == 'p' {
        assert(serialize_spec(letter_morse('p')) == Ok::<MorseSequenceSerialization, MorseErr>((
            4u8,
            6u8,
        )));
    } else if l == 'q' {
        assert(serialize_spec(letter_morse('q')) == Ok::<MorseSequenceSerialization, MorseErr>((
            4u8,
            11u8,
        )));
    } else if l == 'r' {
        assert(serialize_spec(letter_morse('r')) == Ok::<MorseSequenceSerialization, MorseErr>((
            3u8,
            2u8,
        )));
    } else if l == 's' {
        assert(serialize_spec(letter_morse('s')) == Ok::<MorseSequenceSerialization, MorseErr>((
            3u8,
            0u8,
        )));
    } else if l == 't' {
        assert(serialize_spec(letter_morse('t')) == Ok::<MorseSequenceSerialization, MorseErr>((
            1u8,
            1u8,
        )));
    } else if l == 'u' {
        assert(serialize_spec(letter_morse('u')) == Ok::<MorseSequenceSerialization, MorseErr>((
            3u8,
            4u8,
        )));
    } else if l == 'v' {
        assert(serialize_spec(letter_morse('v')) == Ok::<MorseSequenceSerialization, MorseErr>((
            4u8,
            8u8,
        )));
    } else if l == 'w' {
        assert(serialize_spec(letter_morse('w')) == Ok::<MorseSequenceSerialization, MorseErr>((
            3u8,
            6u8,
        )));
    } else if l == 'x' {
        assert(serialize_spec(letter_morse('x')) == Ok::<MorseSequenceSerialization, MorseErr>((
            4u8,
            9u8,
        )));
    } else if l == 'y' {
        assert(serialize_spec(letter_morse('y')) == Ok::<MorseSequenceSerialization, MorseErr>((
            4u8,
            13u8,
        )));
    } else if l == 'z' {
        assert(serialize_spec(letter_morse('z')) == Ok::<MorseSequenceSerialization, MorseErr>((
            4u8,
            3u8,
        )));
    } else {
        assert(false);
    }
}


/// A boundary symbol: one that ends the letter being collected.
pub open spec fn is_boundary(m: Morse) -> bool {
    m is LetterSpace || m is WordSpace
}

/// Position of the first boundary symbol, or the length when there is none.
pub open spec fn boundary_pos(s: Seq<Morse>) -> nat
    decreases s.len(),
{
    if s.len() == 0 {
        0
    } else if is_boundary(s.first()) {
        0
    } else {
        1 + boundary_pos(s.drop_first())
    }
}

/// A clean prefix pins the boundary position down: it lies at or after the
/// prefix, at the prefix end if a boundary sits there, and at the sequence
/// end if the whole sequence is clean.
pub proof fn lemma_boundary_pos_at(s: Seq<Morse>, j: int)
    requires
        0 <= j <= s.len(),
        forall|t: int| 0 <= t < j ==> !is_boundary(#[trigger] s[t]),
    ensures
        boundary_pos(s) >= j,
        boundary_pos(s) <= s.len(),
        j == s.len() ==> boundary_pos(s) == s.len(),
        j < s.len() && is_boundary(s[j]) ==> boundary_pos(s) == j,
    decreases s.len(),
{
    if s.len() == 0 {
    } else if j == 0 {
        lemma_boundary_pos_at(s.drop_first(), 0);
    } else {
        assert(!is_boundary(s[0]));
        assert(forall|t: int| 0 <= t < j - 1 ==> !is_boundary(#[trigger] s.drop_first()[t]));
        lemma_boundary_pos_at(s.drop_first(), j - 1);
        if j < s.len() && is_boundary(s[j]) {
            assert(s.drop_first()[j - 1] == s[j]);
        }
    }
}


/// What the boundary position promises of itself: it is within the
/// sequence, everything before it is clean, and a boundary sits at it
/// when it is inside.
pub proof fn lemma_boundary_pos_props(s: Seq<Morse>)
    ensures
        boundary_pos(s) <= s.len(),
        forall|j: int| 0 <= j < boundary_pos(s) ==> !is_boundary(#[trigger] s[j]),
        boundary_pos(s) < s.len() ==> is_boundary(s[boundary_pos(s) as int]),
    decreases s.len(),
{
    if s.len() > 0 && !is_boundary(s.first()) {
        lemma_boundary_pos_props(s.drop_first());
        assert forall|j: int| 0 <= j < boundary_pos(s) implies !is_boundary(#[trigger] s[j]) by {
            if j > 0 {
                assert(!is_boundary(s.drop_first()[j - 1]));
                assert(s.drop_first()[j - 1] == s[j]);
            }
        }
        if boundary_pos(s) < s.len() {
            assert(s.drop_first()[boundary_pos(s.drop_first()) as int] == s[boundary_pos(
                s,
            ) as int]);
        }
    }
}

/// One assembler step on the symbol stream and the held letter: a pending
/// word gap becomes a space at once; otherwise symbols are collected up to
/// the first boundary and the finished letter, if any, is looked up. The
/// result carries the emitted character, the new held run, and how many
/// stream symbols were consumed.
pub open spec fn consume_step(
    inc: Seq<Morse>,
    hold: Seq<Morse>,
    table: Map<MorseSequenceSerialization, char>,
) -> Result<(Option<char>, Seq<Morse>, int), MorseErr> {
    if hold.len() > 0 && hold[0] is WordSpace {
        Ok((Some(' '), hold.drop_first(), 0))
    } else {
        let p = boundary_pos(inc) as int;
        if hold.len() + p > QUEUE_RING - 1 {
            Err(MorseErr::InputTooLarge)
        } else if p == inc.len() {
            Ok((None, hold + inc, p))
        } else {
            let word = hold + inc.subrange(0, p);
            let nq = if inc[p] is WordSpace {
                seq![Morse::WordSpace]
            } else {
                Seq::<Morse>::empty()
            };
            if word.len() == 0 {
                Ok((None, nq, p + 1))
            } else if word.len() <= 8 {
                match validate_spec(word) {
                    Err(e) => Err(e),
                    Ok(dd) => match serialize_spec(dd) {
                        Err(e) => Err(e),
                        Ok(ser) => if table.contains_key(ser) {
                            Ok((Some(table[ser]), nq, p + 1))
                        } else {
                            Err(MorseErr::UnknownChar(ser))
                        },
                    },
                }
            } else {
                Err(MorseErr::InputTooLarge)
            }
        }
    }
}

/// The assembler step closed under empty letters: steps repeat while they
/// emit nothing and stream symbols are left, so consecutive letter gaps
/// collapse. The consumed count totals all steps taken.
pub open spec fn definitive_spec(
    inc: Seq<Morse>,
    hold: Seq<Morse>,
    table: Map<MorseSequenceSerialization, char>,
) -> Result<(Option<char>, Seq<Morse>, int), MorseErr>
    decreases inc.len(),
{
    match consume_step(inc, hold, table) {
        Err(e) => Err(e),
        Ok(st) => if st.0 is None && st.2 < inc.len() {
            match definitive_spec(inc.skip(st.2), st.1, table) {
                Err(e) => Err(e),
                Ok(st2) => Ok((st2.0, st2.1, st.2 + st2.2)),
            }
        } else {
            Ok(st)
        },
    }
}

/// `definitive_spec` with the consumed count shifted by what was consumed
/// before.
pub open spec fn definitive_from(
    inc: Seq<Morse>,
    hold: Seq<Morse>,
    table: Map<MorseSequenceSerialization, char>,
    consumed: int,
) -> Result<(Option<char>, Seq<Morse>, int), MorseErr> {
    match definitive_spec(inc, hold, table) {
        Err(e) => Err(e),
        Ok(st) => Ok((st.0, st.1, consumed + st.2)),
    }
}

/// One assembler step over the real queues, exactly as `consume_step`
/// describes; on an error the stream queue is left at some suffix of its
/// old contents.
pub fn private_consume_morses_produce_letter(
    incoming: &mut MorseQueue,
    hold_word: MorseQueue,
    mkey: &MorseKey,
) -> (r: Result<(Option<char>, MorseQueue), MorseErr>)
    requires
        morse_queue_model(hold_word).len() <= QUEUE_RING - 1,
    ensures
        match r {
            Ok(pair) => ({
                let st = consume_step(
                    morse_queue_model(*old(incoming)),
                    morse_queue_model(hold_word),
                    key_model(*mkey),
                );
                &&& st is Ok
                &&& pair.0 == (st->Ok_0).0
                &&& morse_queue_model(pair.1) == (st->Ok_0).1
                &&& morse_queue_model(pair.1).len() <= QUEUE_RING - 1
                &&& morse_queue_model(*final(incoming)) == morse_queue_model(
                    *old(incoming),
                ).skip((st->Ok_0).2)
            }),
            Err(e) => ({
                let st = consume_step(
                    morse_queue_model(*old(incoming)),
                    morse_queue_model(hold_word),
                    key_model(*mkey),
                );
                &&& st is Err
                &&& e == st->Err_0
                &&& exists|i: int|
                    0 <= i <= morse_queue_model(*old(incoming)).len() && morse_queue_model(
                        *final(incoming),
                    ) == morse_queue_model(*old(incoming)).skip(i)
            }),
        },
{
    let ghost inc0 = morse_queue_model(*incoming);
    let ghost hold0 = morse_queue_model(hold_word);
    let ghost table = key_model(*mkey);

    match mq_peek(&hold_word) {
        Some(Morse::WordSpace) => {
            let mut hq = hold_word;
            let _ = mq_dequeue(&mut hq);
            proof {
                assert(inc0.skip(0) =~= inc0);
            }
            return Ok((Some(' '), hq));
        },
        _ => {},
    }

    let mut hold = hold_word;
    let ghost mut j: int = 0;
    proof {
        assert(hold0 + inc0.subrange(0, 0) =~= hold0);
    }
    loop
        invariant
            0 <= j <= inc0.len(),
            inc0 == morse_queue_model(*old(incoming)),
            hold0 == morse_queue_model(hold_word),
            table == key_model(*mkey),
            !(hold0.len() > 0 && hold0[0] is WordSpace),
            morse_queue_model(*incoming) == inc0.skip(j),
            forall|t: int| 0 <= t < j ==> !is_boundary(#[trigger] inc0[t]),
            morse_queue_model(hold) == hold0 + inc0.subrange(0, j),
            morse_queue_model(hold).len() <= QUEUE_RING - 1,
        decreases inc0.len() - j,
    {
        let next = mq_dequeue(incoming);
        match next {
            None => {
                proof {
                    assert(inc0.skip(j).len() == 0);
                    assert(j == inc0.len());
                    lemma_boundary_pos_at(inc0, j);
                    assert(inc0.subrange(0, j) =~= inc0);
                }
                return Ok((None, hold));
            },
            Some(m) => {
                proof {
                    assert(inc0.skip(j).len() > 0);
                    assert(m == inc0.skip(j)[0]);
                    assert(m == inc0[j]);
                    assert(inc0.skip(j).drop_first() =~= inc0.skip(j + 1));
                }
                match m {
                    Morse::LetterSpace | Morse::WordSpace => {
                        proof {
                            lemma_boundary_pos_at(inc0, j);
                            assert(boundary_pos(inc0) == j);
                        }
                        let mut next_queue = mq_new();
                        if let Morse::WordSpace = m {
                            let ok = mq_enqueue(&mut next_queue, Morse::WordSpace);
                            proof {
                                assert(ok);
                                assert(Seq::<Morse>::empty().push(Morse::WordSpace)
                                    =~= seq![Morse::WordSpace]);
                            }
                        }
                        let hlen = mq_len(&hold);
                        if hlen == 0 {
                            return Ok((None, next_queue));
                        } else if hlen <= 8 {
                            let v = mq_snapshot(&hold);
                            let validated = match validate_morse_letter_tiny_spaces(v.as_slice()) {
                                Ok(vv) => vv,
                                Err(e) => {
                                    proof {
                                        assert(morse_queue_model(*incoming) == inc0.skip(j + 1));
                                    }
                                    return Err(e);
                                },
                            };
                            let ser = match serialize_morse(validated.as_slice()) {
                                Ok(sr) => sr,
                                Err(e) => {
                                    proof {
                                        assert(morse_queue_model(*incoming) == inc0.skip(j + 1));
                                    }
                                    return Err(e);
                                },
                            };
                            match key_get(mkey, ser) {
                                Some(c) => {
                                    return Ok((Some(c), next_queue));
                                },
                                None => {
                                    proof {
                                        assert(morse_queue_model(*incoming) == inc0.skip(j + 1));
                                    }
                                    return Err(MorseErr::UnknownChar(ser));
                                },
                            }
                        } else {
                            proof {
                                assert(morse_queue_model(*incoming) == inc0.skip(j + 1));
                            }
                            return Err(MorseErr::InputTooLarge);
                        }
                    },
                    _ => {
                        let ok = mq_enqueue(&mut hold, m);
                        if !ok {
                            proof {
                                assert(!is_boundary(inc0[j]));
                                assert(forall|t: int|
                                    0 <= t < j + 1 ==> !is_boundary(#[trigger] inc0[t]));
                                lemma_boundary_pos_at(inc0, j + 1);
                                assert(hold0.len() + boundary_pos(inc0) > QUEUE_RING - 1);
                                assert(morse_queue_model(*incoming) == inc0.skip(j + 1));
                            }
                            return Err(MorseErr::InputTooLarge);
                        }
                        proof {
                            assert((hold0 + inc0.subrange(0, j)).push(m) =~= hold0 + inc0.subrange(
                                0,
                                j + 1,
                            ));
                            j = j + 1;
                        }
                    },
                }
            },
        }
    }
}

/// Runs assembler steps until a character comes out or the stream is
/// exhausted, exactly as `definitive_spec` describes; on an error the
/// stream queue is left at some suffix of its old contents.
pub fn definitive_consume_morses_produce_letter(
    incoming: &mut MorseQueue,
    hold_word: MorseQueue,
    mkey: &MorseKey,
) -> (r: Result<(Option<char>, MorseQueue), MorseErr>)
    requires
        morse_queue_model(hold_word).len() <= QUEUE_RING - 1,
    ensures
        match r {
            Ok(pair) => ({
                let st = definitive_spec(
                    morse_queue_model(*old(incoming)),
                    morse_queue_model(hold_word),
                    key_model(*mkey),
                );
                &&& st is Ok
                &&& pair.0 == (st->Ok_0).0
                &&& morse_queue_model(pair.1) == (st->Ok_0).1
                &&& morse_queue_model(pair.1).len() <= QUEUE_RING - 1
                &&& morse_queue_model(*final(incoming)) == morse_queue_model(
                    *old(incoming),
                ).skip((st->Ok_0).2)
            }),
            Err(e) => ({
                let st = definitive_spec(
                    morse_queue_model(*old(incoming)),
                    morse_queue_model(hold_word),
                    key_model(*mkey),
                );
                &&& st is Err
                &&& e == st->Err_0
                &&& exists|i: int|
                    0 <= i <= morse_queue_model(*old(incoming)).len() && morse_queue_model(
                        *final(incoming),
                    ) == morse_queue_model(*old(incoming)).skip(i)
            }),
        },
{
    let ghost inc0 = morse_queue_model(*incoming);
    let ghost hold0 = morse_queue_model(hold_word);
    let ghost table = key_model(*mkey);
    let mut hold = hold_word;
    let ghost mut consumed: int = 0;
    proof {
        assert(inc0.skip(0) =~= inc0);
    }
    loop
        invariant
            0 <= consumed <= inc0.len(),
            inc0 == morse_queue_model(*old(incoming)),
            hold0 == morse_queue_model(hold_word),
            table == key_model(*mkey),
            morse_queue_model(*incoming) == inc0.skip(consumed),
            morse_queue_model(hold).len() <= QUEUE_RING - 1,
            definitive_from(inc0.skip(consumed), morse_queue_model(hold), table, consumed)
                == definitive_spec(inc0, hold0, table),
        decreases inc0.len() - consumed,
    {
        let ghost cur = inc0.skip(consumed);
        let ghost hold_cur = morse_queue_model(hold);
        let r = private_consume_morses_produce_letter(incoming, hold, mkey);
        match r {
            Err(e) => {
                proof {
                    assert(consume_step(cur, hold_cur, table) is Err);
                    let i = choose|i: int|
                        0 <= i <= cur.len() && morse_queue_model(*incoming) == cur.skip(i);
                    assert(cur.skip(i) =~= inc0.skip(consumed + i));
                    assert(morse_queue_model(*incoming) == inc0.skip(consumed + i));
                }
                return Err(e);
            },
            Ok((Some(c), hq)) => {
                proof {
                    let st = consume_step(cur, hold_cur, table)->Ok_0;
                    lemma_boundary_pos_at(cur, 0);
                    assert(0 <= st.2 <= cur.len());
                    assert(definitive_spec(cur, hold_cur, table) == Ok::<
                        (Option<char>, Seq<Morse>, int),
                        MorseErr,
                    >(st));
                    assert(cur.skip(st.2) =~= inc0.skip(consumed + st.2));
                }
                return Ok((Some(c), hq));
            },
            Ok((None, hq)) => {
                let remaining = mq_len(incoming);
                if remaining == 0 {
                    proof {
                        let st = consume_step(cur, hold_cur, table)->Ok_0;
                        lemma_boundary_pos_at(cur, 0);
                        assert(0 <= st.2 <= cur.len());
                        assert(cur.skip(st.2).len() == 0);
                        assert(st.2 == cur.len());
                        assert(definitive_spec(cur, hold_cur, table) == Ok::<
                            (Option<char>, Seq<Morse>, int),
                            MorseErr,
                        >(st));
                        assert(cur.skip(st.2) =~= inc0.skip(consumed + st.2));
                    }
                    return Ok((None, hq));
                }
                proof {
                    let st = consume_step(cur, hold_cur, table)->Ok_0;
                    lemma_boundary_pos_at(cur, 0);
                    assert(0 <= st.2 <= cur.len());
                    assert(st.2 < cur.len());
                    assert(cur.skip(st.2) =~= inc0.skip(consumed + st.2));
                    consumed = consumed + st.2;
                }
                hold = hq;
            },
        }
    }
}

} // verus!
