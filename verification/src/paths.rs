//! Paths, seen as the bytes they are made of.

use std::path::PathBuf;
use vstd::prelude::*;
use vstd::utf8::{
    char_is_scalar, encode_scalar, encode_utf8, has_width_1_encoding, has_width_2_encoding,
    has_width_3_encoding, last_continuation_byte, leading_byte_width_1, leading_byte_width_2,
    leading_byte_width_3, leading_byte_width_4, second_last_continuation_byte,
    third_last_continuation_byte,
};

verus! {

/// `std::path::PathBuf`, seen only through [`path_bytes`].
#[verifier::external_type_specification]
#[verifier::external_body]
pub struct ExPathBuf(std::path::PathBuf);

/// The bytes of a path.
pub uninterp spec fn path_bytes(path: PathBuf) -> Seq<u8>;

/// What `Path::with_extension` makes of the bytes of a path.
pub uninterp spec fn replaced_extension(path: Seq<u8>, extension: Seq<char>) -> Seq<u8>;

/// The separator of path components.
pub const SEPARATOR: u8 = 0x2f;

/// The separator of a file name and its extension.
pub const DOT: u8 = 0x2e;

/// One path after another: an absolute one takes the place of what stood before,
/// any other is set apart from it by one separator.
pub open spec fn joined(root: Seq<u8>, name: Seq<u8>) -> Seq<u8> {
    if name.len() > 0 && name[0] == SEPARATOR {
        name
    } else if root.len() == 0 || root.last() == SEPARATOR {
        root + name
    } else {
        root.push(SEPARATOR) + name
    }
}

/// A path with an extension.
pub open spec fn with_dot(stem: Seq<u8>, extension: Seq<u8>) -> Seq<u8> {
    stem.push(DOT) + extension
}

/// Whether the last component of a path is a name with this extension: what stands
/// before the dot is neither nothing nor a single dot, and the extension is a plain
/// one.
pub open spec fn has_extension(path: Seq<u8>, stem: Seq<u8>, extension: Seq<u8>) -> bool {
    &&& path == with_dot(stem, extension)
    &&& stem.len() > 0
    &&& stem.last() != SEPARATOR
    &&& stem.last() == DOT ==> stem.len() > 1 && stem[stem.len() - 2] != SEPARATOR
    &&& extension.len() > 0
    &&& !extension.contains(SEPARATOR)
    &&& !extension.contains(DOT)
}

/// Whether the last component of a path is a name that begins with a dot and has no
/// other: such a name has no extension.
pub open spec fn is_hidden(path: Seq<u8>, directory: Seq<u8>, name: Seq<u8>) -> bool {
    &&& path == with_dot(directory, name)
    &&& directory.len() > 0 ==> directory.last() == SEPARATOR
    &&& name.len() > 0
    &&& !name.contains(SEPARATOR)
    &&& !name.contains(DOT)
}

/// `Path::join`, on a system whose paths are separated by a slash.
#[verifier::external_body]
pub(crate) fn join(root: &PathBuf, name: &str) -> (path: PathBuf)
    ensures
        path_bytes(path) == joined(path_bytes(*root), encode_utf8(name@)),
{
    root.join(name)
}

/// `Path::with_extension`. What it returns is named [`replaced_extension`]. Where
/// the file name has an extension, the new one takes its place; that is not stated
/// of a name with nothing but one dot before the extension, of which the function
/// makes something else. Where the file name begins with a dot and has no other, it
/// has no extension, and the new one is added. The function panics on an extension
/// with a separator in it.
#[verifier::external_body]
pub(crate) fn with_extension(path: &PathBuf, extension: &str) -> (changed: PathBuf)
    requires
        extension@.len() > 0,
        !extension@.contains('/'),
    ensures
        path_bytes(changed) == replaced_extension(path_bytes(*path), extension@),
        forall|stem: Seq<u8>, replaced: Seq<u8>| #[trigger]
            has_extension(path_bytes(*path), stem, replaced) ==> path_bytes(changed) == with_dot(
                stem,
                encode_utf8(extension@),
            ),
        forall|directory: Seq<u8>, name: Seq<u8>| #[trigger]
            is_hidden(path_bytes(*path), directory, name) ==> path_bytes(changed) == with_dot(
                path_bytes(*path),
                encode_utf8(extension@),
            ),
{
    path.with_extension(extension)
}

/// The bytes of one text after another are those of the first, then those of the
/// second.
pub(crate) proof fn lemma_encode_concat(one: Seq<char>, other: Seq<char>)
    ensures
        encode_utf8(one + other) == encode_utf8(one) + encode_utf8(other),
    decreases one.len(),
{
    if one.len() == 0 {
        assert(one + other =~= other);
        assert(encode_utf8(one) + encode_utf8(other) =~= encode_utf8(other));
    } else {
        lemma_encode_concat(one.drop_first(), other);
        assert((one + other).drop_first() =~= one.drop_first() + other);
        assert(encode_utf8(one + other) =~= encode_utf8(one) + encode_utf8(other));
    }
}

/// Among the bytes of a character there is a separator only if it is one.
proof fn lemma_encode_char(c: char)
    ensures
        encode_scalar(c as u32).len() > 0,
        c == '/' ==> encode_scalar(c as u32) == seq![SEPARATOR],
        c != '/' ==> !encode_scalar(c as u32).contains(SEPARATOR),
{
    char_is_scalar(c);
    let s: u32 = c as u32;
    let bytes = encode_scalar(s);
    if has_width_1_encoding(s) {
        assert(leading_byte_width_1(s) == 0x2f <==> s == 0x2f) by (bit_vector)
            requires
                s <= 0x7f,
        ;
        if c == '/' {
            assert(bytes =~= seq![SEPARATOR]);
        }
    } else if has_width_2_encoding(s) {
        assert(leading_byte_width_2(s) >= 0x80 && last_continuation_byte(s) >= 0x80) by (bit_vector);
    } else if has_width_3_encoding(s) {
        assert(leading_byte_width_3(s) >= 0x80 && second_last_continuation_byte(s) >= 0x80
            && last_continuation_byte(s) >= 0x80) by (bit_vector);
    } else {
        assert(leading_byte_width_4(s) >= 0x80 && third_last_continuation_byte(s) >= 0x80
            && second_last_continuation_byte(s) >= 0x80 && last_continuation_byte(s) >= 0x80)
            by (bit_vector);
    }
}

/// Only the bytes of a dot end in one, and there is no other byte among them.
pub(crate) proof fn lemma_encode_end(c: char)
    ensures
        encode_utf8(seq![c]).len() > 0,
        encode_utf8(seq![c]).last() == DOT ==> c == '.' && encode_utf8(seq![c]).len() == 1,
{
    char_is_scalar(c);
    let s: u32 = c as u32;
    assert(seq![c].drop_first() =~= Seq::<char>::empty());
    assert(encode_utf8(Seq::<char>::empty()) =~= Seq::<u8>::empty());
    assert(encode_utf8(seq![c]) =~= encode_scalar(s));
    if has_width_1_encoding(s) {
        assert(leading_byte_width_1(s) == 0x2e <==> s == 0x2e) by (bit_vector)
            requires
                s <= 0x7f,
        ;
    } else {
        assert(last_continuation_byte(s) >= 0x80) by (bit_vector);
    }
}

/// A text begins and ends in a separator exactly if its bytes do, and has one in it
/// exactly if they have.
pub(crate) proof fn lemma_encode_separators(text: Seq<char>)
    ensures
        encode_utf8(text).len() == 0 <==> text.len() == 0,
        text.len() > 0 ==> (encode_utf8(text)[0] == SEPARATOR <==> text[0] == '/'),
        text.len() > 0 ==> (encode_utf8(text).last() == SEPARATOR <==> text.last() == '/'),
        encode_utf8(text).contains(SEPARATOR) <==> text.contains('/'),
    decreases text.len(),
{
    if text.len() > 0 {
        let first = encode_scalar(text[0] as u32);
        let rest = text.drop_first();
        let bytes = encode_utf8(text);
        lemma_encode_char(text[0]);
        lemma_encode_separators(rest);
        assert(bytes == first + encode_utf8(rest));
        assert(bytes[0] == first[0]);
        if rest.len() == 0 {
            assert(bytes =~= first);
            assert(text.last() == text[0]);
            if text[0] != '/' {
                assert(first[first.len() - 1] != SEPARATOR);
            }
        } else {
            assert(bytes.last() == encode_utf8(rest).last());
            assert(text.last() == rest.last());
        }
        if text.contains('/') {
            let i = choose|i: int| 0 <= i < text.len() && text[i] == '/';
            if i == 0 {
                assert(bytes[0] == SEPARATOR);
            } else {
                assert(rest[i - 1] == '/');
                let j = choose|j: int|
                    0 <= j < encode_utf8(rest).len() && encode_utf8(rest)[j] == SEPARATOR;
                assert(bytes[first.len() + j] == SEPARATOR);
            }
        }
        if bytes.contains(SEPARATOR) {
            let j = choose|j: int| 0 <= j < bytes.len() && bytes[j] == SEPARATOR;
            if j < first.len() {
                assert(first[j] == SEPARATOR);
                assert(first.contains(SEPARATOR));
                assert(text[0] == '/');
            } else {
                assert(encode_utf8(rest)[j - first.len()] == SEPARATOR);
                assert(rest.contains('/'));
                let i = choose|i: int| 0 <= i < rest.len() && rest[i] == '/';
                assert(text[i + 1] == '/');
            }
        }
    }
}

} // verus!
