//! What a channel's archive is called and what it holds.
//!
//! An archive is the file `history` in the directory named after its
//! channel. It holds the response bodies of the channel as they were
//! received, one after the other with nothing between them: each body is a
//! JSON document of its own, the archive as a whole is not one.

use vstd::prelude::*;
use vstd::utf8::encode_utf8;

verus! {

/// The name of the file that holds a channel's archive, in the directory
/// named after the channel.
pub open spec fn archive_file() -> Seq<char> {
    "history"@
}

/// The texts of a list, one after the other, with nothing between them.
pub open spec fn concat(texts: Seq<Seq<char>>) -> Seq<char>
    decreases texts.len(),
{
    if texts.len() == 0 {
        Seq::empty()
    } else {
        concat(texts.drop_last()) + texts.last()
    }
}

/// The texts of a list as bytes, each text in UTF-8.
pub open spec fn encoded(texts: Seq<Seq<char>>) -> Seq<Seq<u8>> {
    Seq::new(texts.len(), |i: int| encode_utf8(texts[i]))
}

/// The byte strings of a list, one after the other, with nothing between
/// them.
pub open spec fn concat_bytes(parts: Seq<Seq<u8>>) -> Seq<u8>
    decreases parts.len(),
{
    if parts.len() == 0 {
        Seq::empty()
    } else {
        concat_bytes(parts.drop_last()) + parts.last()
    }
}

/// Two texts one after the other are, in UTF-8, the bytes of the first
/// followed by the bytes of the second.
pub proof fn lemma_encode_concat(first: Seq<char>, second: Seq<char>)
    ensures
        encode_utf8(first + second) == encode_utf8(first) + encode_utf8(second),
    decreases first.len(),
{
    if first.len() == 0 {
        assert(first + second == second);
        assert(encode_utf8(first) + encode_utf8(second) == encode_utf8(second));
    } else {
        lemma_encode_concat(first.drop_first(), second);
        assert((first + second).drop_first() == first.drop_first() + second);
        assert((first + second)[0] == first[0]);
    }
}

/// The bytes of an archive are the bytes of its bodies, one body after the
/// other in the order appended: writing each body's bytes as it comes gives
/// the archive's text in UTF-8.
pub proof fn lemma_archive_bytes(bodies: Seq<Seq<char>>)
    ensures
        encode_utf8(concat(bodies)) == concat_bytes(encoded(bodies)),
    decreases bodies.len(),
{
    if bodies.len() > 0 {
        lemma_archive_bytes(bodies.drop_last());
        lemma_encode_concat(concat(bodies.drop_last()), bodies.last());
        assert(encoded(bodies).drop_last() == encoded(bodies.drop_last()));
    }
}

} // verus!
