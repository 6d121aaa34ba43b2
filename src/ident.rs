//! Short random identifiers and the marker comments that carry them.
use vstd::prelude::*;

verus! {

/// Number of letters in an identifier.
pub const ID_LEN: usize = 8;

/// The letters an identifier is drawn from.
pub const ALPHABET: &'static str = "abcdefghijklmnopqrstuvwxyz";

/// Text that opens a marker comment, before the identifier.
pub const MARKER_OPEN: &'static str = "/* ign-ghost-sig: ";

/// Text that closes a marker comment, after the identifier.
pub const MARKER_CLOSE: &'static str = " */\n";

/// A lowercase Latin letter.
pub open spec fn is_lower(c: char) -> bool {
    'a' <= c && c <= 'z'
}

/// The letter that a random byte selects: the byte taken modulo 26.
pub open spec fn letter_of(b: u8) -> char {
    ALPHABET@[(b % 26) as int]
}

/// The identifier that a sequence of random bytes selects, one letter each.
pub open spec fn id_of(draws: Seq<u8>) -> Seq<char> {
    draws.map_values(|b: u8| letter_of(b))
}

/// Whether `id` is the identifier that some `ID_LEN` random bytes select.
pub open spec fn drawn_id(id: Seq<char>) -> bool {
    exists|draws: Seq<u8>| draws.len() == ID_LEN && id == #[trigger] id_of(draws)
}

/// The marker comment that carries identifier `id`.
pub open spec fn marker_of(id: Seq<char>) -> Seq<char> {
    MARKER_OPEN@ + id + MARKER_CLOSE@
}

/// Every letter of the alphabet is a lowercase Latin letter.
pub proof fn lemma_alphabet_is_lower()
    ensures
        ALPHABET@.len() == 26,
        forall|i: int| 0 <= i < 26 ==> is_lower(#[trigger] ALPHABET@[i]),
{
    reveal_strlit("abcdefghijklmnopqrstuvwxyz");
}

/// Every letter that a byte selects is a lowercase Latin letter.
pub proof fn lemma_letter_is_lower(b: u8)
    ensures
        is_lower(letter_of(b)),
{
    lemma_alphabet_is_lower();
    assert(is_lower(ALPHABET@[(b % 26) as int]));
}

/// The identifier that `draws` selects: letter `b % 26` of the alphabet for
/// each byte `b`.
pub fn id_from_draws(draws: &[u8]) -> (r: String)
    ensures
        r@ == id_of(draws@),
        forall|i: int| 0 <= i < r@.len() ==> is_lower(#[trigger] r@[i]),
{
    proof {
        reveal_strlit("abcdefghijklmnopqrstuvwxyz");
    }
    let mut r = String::new();
    let mut i: usize = 0;
    while i < draws.len()
        invariant
            i <= draws@.len(),
            ALPHABET@.len() == 26,
            r@ == id_of(draws@.take(i as int)),
        decreases draws@.len() - i,
    {
        let k: usize = (draws[i] % 26) as usize;
        let letter = ALPHABET.substring_char(k, k + 1);
        r.append(letter);
        assert(draws@.take(i as int + 1) =~= draws@.take(i as int).push(draws@[i as int]));
        assert(id_of(draws@.take(i as int + 1)) =~= id_of(draws@.take(i as int)).push(
            letter_of(draws@[i as int]),
        ));
        i = i + 1;
    }
    assert(draws@.take(i as int) =~= draws@);
    assert forall|j: int| 0 <= j < r@.len() implies is_lower(#[trigger] r@[j]) by {
        lemma_letter_is_lower(draws@[j]);
    }
    r
}

/// Relies on rand's `random`: a value drawn from the thread-local generator.
/// Nothing is known of the value drawn.
pub assume_specification<T>[ rand::random::<T> ]() -> (r: T)
    where
        rand::distributions::Standard: rand::distributions::Distribution<T>,
;

/// Draw a fresh identifier: `ID_LEN` random bytes, each selecting a letter.
pub fn fresh_id() -> (r: String)
    ensures
        r@.len() == ID_LEN,
        forall|i: int| 0 <= i < r@.len() ==> is_lower(#[trigger] r@[i]),
        drawn_id(r@),
{
    let mut draws: Vec<u8> = Vec::new();
    let mut i: usize = 0;
    while i < ID_LEN
        invariant
            i <= ID_LEN,
            draws@.len() == i,
        decreases ID_LEN - i,
    {
        let b: u8 = rand::random::<u8>();
        draws.push(b);
        i = i + 1;
    }
    let r = id_from_draws(draws.as_slice());
    assert(draws@.len() == ID_LEN && r@ == id_of(draws@));
    r
}

/// The marker comment carrying `id`.
pub fn marker_comment(id: &str) -> (r: String)
    ensures
        r@ == marker_of(id@),
{
    let mut r = String::from_str(MARKER_OPEN);
    r.append(id);
    r.append(MARKER_CLOSE);
    r
}

} // verus!
