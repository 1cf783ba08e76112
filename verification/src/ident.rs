//! Identifiers of reminder groups: seven symbols of a 32-symbol alphabet.

use vstd::prelude::*;

verus! {

/// Number of symbols in an identifier.
pub const ID_LENGTH: usize = 7;

/// The symbols an identifier is drawn from: the lower-case letters and the
/// digits 2 to 7.
pub const ALPHABET: [char; 32] = [
    'a', 'b', 'c', 'd', 'e', 'f', 'g', 'h', 'i', 'j', 'k', 'l', 'm', 'n', 'o', 'p', 'q', 'r',
    's', 't', 'u', 'v', 'w', 'x', 'y', 'z', '2', '3', '4', '5', '6', '7',
];

/// Whether `c` is one of the 32 identifier symbols.
pub open spec fn is_id_symbol(c: char) -> bool {
    ('a' <= c && c <= 'z') || ('2' <= c && c <= '7')
}

/// Whether `id` has the shape of a generated identifier.
pub open spec fn is_valid_id(id: Seq<char>) -> bool {
    &&& id.len() == ID_LENGTH
    &&& forall|i: int| 0 <= i < id.len() ==> is_id_symbol(#[trigger] id[i])
}

/// The alphabet holds exactly the identifier symbols.
pub proof fn lemma_alphabet_symbols()
    ensures
        ALPHABET@.len() == 32,
        forall|i: int| 0 <= i < 32 ==> is_id_symbol(#[trigger] ALPHABET@[i]),
        forall|c: char| is_id_symbol(c) ==> ALPHABET@.contains(c),
{
    assert forall|c: char| is_id_symbol(c) implies ALPHABET@.contains(c) by {
        if 'a' <= c && c <= 'z' {
            let k = c as int - 'a' as int;
            assert(ALPHABET@[k] == c);
        } else {
            let k = c as int - '2' as int + 26;
            assert(ALPHABET@[k] == c);
        }
    }
}

/// Calls `nanoid::format` with `nanoid::rngs::default` as the source of random
/// bytes. The result has `size` symbols, each one of `alphabet`; which ones is
/// left to chance. The function panics on an alphabet of more than 255
/// symbols and on a size whose eightfold overflows, never returns for an empty
/// alphabet or a size of zero, and counts the result in bytes, so the symbols
/// are to be ASCII. It also panics if the operating system has no entropy to
/// give, which no argument rules out.
#[verifier::external_body]
fn nanoid_format(alphabet: &[char], size: usize) -> (text: String)
    requires
        0 < alphabet@.len() <= 255,
        forall|i: int| 0 <= i < alphabet@.len() ==> (#[trigger] alphabet@[i]) <= '\x7f',
        0 < size <= 0x0fff_ffff,
    ensures
        text@.len() == size,
        forall|i: int| 0 <= i < text@.len() ==> alphabet@.contains(#[trigger] text@[i]),
{
    nanoid::format(nanoid::rngs::default, alphabet, size)
}

/// A random text with the shape of an identifier.
pub fn random_id() -> (id: String)
    ensures
        is_valid_id(id@),
{
    proof {
        lemma_alphabet_symbols();
    }
    let id = nanoid_format(ALPHABET.as_slice(), ID_LENGTH);
    assert forall|i: int| 0 <= i < id@.len() implies is_id_symbol(#[trigger] id@[i]) by {
        let k = choose|k: int| 0 <= k < ALPHABET@.len() && ALPHABET@[k] == id@[i];
        assert(is_id_symbol(ALPHABET@[k]));
    }
    id
}

} // verus!
