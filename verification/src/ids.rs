//! Identifiers that nothing else shares.
use crate::text;
use vstd::prelude::*;
use vstd::string::*;

verus! {

broadcast use vstd::string::group_string_axioms;

/// A lower-case hexadecimal digit.
pub open spec fn hex_digit(c: char) -> bool {
    '0' <= c <= '9' || 'a' <= c <= 'f'
}

/// The text of a random identifier: 32 lower-case hexadecimal digits in groups of 8, 4, 4, 4 and
/// 12 with hyphens between them, marked as version 4 of the common variant.
pub open spec fn id_shape(id: Seq<char>) -> bool {
    &&& id.len() == 36
    &&& forall|i: int|
        0 <= i < 36 ==> if i == 8 || i == 13 || i == 18 || i == 23 {
            #[trigger] id[i] == '-'
        } else {
            hex_digit(id[i])
        }
    &&& id[14] == '4'
    &&& id[19] == '8' || id[19] == '9' || id[19] == 'a' || id[19] == 'b'
}

/// `uuid::Uuid::new_v4`, written out by its `Display`: which identifier comes is left to chance,
/// and every one has the shape of a version 4 identifier.
#[verifier::external_body]
pub(crate) fn fresh_id() -> (id: String)
    ensures
        id_shape(id@),
{
    uuid::Uuid::new_v4().to_string()
}

/// `id` is `prefix` with a random identifier behind it.
pub open spec fn prefixed_id(prefix: Seq<char>, id: Seq<char>) -> bool {
    id.len() >= prefix.len() && id.subrange(0, prefix.len() as int) == prefix && id_shape(
        id.subrange(prefix.len() as int, id.len() as int),
    )
}

/// Writes `prefix` before a random identifier.
pub fn fresh_prefixed_id(prefix: &str) -> (id: String)
    ensures
        prefixed_id(prefix@, id@),
{
    let tail = fresh_id();
    let id = text::join2(prefix, tail.as_str());
    proof {
        assert(id@.subrange(0, prefix@.len() as int) =~= prefix@);
        assert(id@.subrange(prefix@.len() as int, id@.len() as int) =~= tail@);
    }
    id
}

/// A text is a prefixed identifier exactly where it is the prefix with an identifier behind it.
pub proof fn law_prefix_stands_before_the_identifier(prefix: Seq<char>, id: Seq<char>)
    ensures
        prefixed_id(prefix, prefix + id) <==> id_shape(id),
        prefixed_id(prefix, id) ==> exists|tail: Seq<char>| #[trigger]
            id_shape(tail) && id == prefix + tail,
{
    let whole = prefix + id;
    assert(whole.subrange(0, prefix.len() as int) =~= prefix);
    assert(whole.subrange(prefix.len() as int, whole.len() as int) =~= id);
    if prefixed_id(prefix, id) {
        let tail = id.subrange(prefix.len() as int, id.len() as int);
        assert(id =~= prefix + tail);
        assert(id_shape(tail));
    }
}

/// An identifier is written in lower-case hexadecimal digits and hyphens, so that it can stand in a
/// path, in an address and as the name of a file.
pub proof fn law_identifier_is_plain(id: Seq<char>, i: int)
    requires
        id_shape(id),
        0 <= i < id.len(),
    ensures
        id.len() == 36,
        id[i] == '-' || '0' <= id[i] <= '9' || 'a' <= id[i] <= 'f',
        id[i] == '-' <==> i == 8 || i == 13 || i == 18 || i == 23,
{
    assert(id[i] == '-' || hex_digit(id[i]));
}

} // verus!
