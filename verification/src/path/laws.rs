//! What paths look like.
use super::{
    after_last_dot, byte_len, file_stem, is_root, names_len, parent, path_text, with_extension,
};
use crate::position::lemma_encoding;
use crate::text::joined;
use crate::text::laws::{joined_in_groups, joined_texts};
use vstd::prelude::*;
use vstd::utf8::encode_utf8;

verus! {

/// A text without dots has no last dot, and none is found behind the last one.
proof fn lemma_last_dot(start: Seq<char>, rest: Seq<char>)
    requires
        forall|i: int| 0 <= i < rest.len() ==> #[trigger] rest[i] != '.',
    ensures
        after_last_dot(start + rest) == after_last_dot(start),
    decreases rest.len(),
{
    if rest.len() == 0 {
        assert(start + rest =~= start);
    } else {
        let shorter = rest.drop_last();
        assert forall|i: int| 0 <= i < shorter.len() implies #[trigger] shorter[i] != '.' by {
            assert(shorter[i] == rest[i]);
        }
        lemma_last_dot(start, shorter);
        assert((start + rest).drop_last() =~= start + shorter);
        assert((start + rest).last() == rest[rest.len() - 1]);
    }
}

/// What follows the last dot of the name of a file is its extension, unless nothing precedes the
/// dot. A name without dots has no extension.
pub proof fn extension_follows_last_dot(stem: Seq<char>, extension: Seq<char>)
    requires
        forall|i: int| 0 <= i < extension.len() ==> #[trigger] extension[i] != '.',
    ensures
        file_stem(extension) == extension,
        stem.len() > 0 ==> file_stem(stem + seq!['.'] + extension) == stem,
        file_stem(seq!['.'] + extension) == seq!['.'] + extension,
{
    let empty = Seq::<char>::empty();
    lemma_last_dot(empty, extension);
    assert(empty + extension =~= extension);
    lemma_last_dot(stem + seq!['.'], extension);
    assert((stem + seq!['.']).last() == '.');
    lemma_last_dot(seq!['.'], extension);
    assert((stem + seq!['.'] + extension).take(stem.len() as int) =~= stem);
}

/// With an extension, the path of a file stays in its directory and its name ends in the extension.
/// It replaces the extension that the file had, so that of two extensions the last one counts.
pub proof fn extension_is_replaced(
    directory: Seq<Seq<char>>,
    stem: Seq<char>,
    old_extension: Seq<char>,
    extension: Seq<char>,
)
    requires
        stem.len() > 0,
        extension.len() > 0,
        stem + seq!['.'] + old_extension != ".."@,
        forall|i: int| 0 <= i < old_extension.len() ==> #[trigger] old_extension[i] != '.',
    ensures
        with_extension(directory.push(stem + seq!['.'] + old_extension), extension)
            == directory.push(stem + seq!['.'] + extension),
        with_extension(directory.push(stem + seq!['.'] + old_extension), Seq::empty())
            == directory.push(stem),
{
    let name = stem + seq!['.'] + old_extension;
    let path = directory.push(name);
    extension_follows_last_dot(stem, old_extension);
    reveal_strlit("");
    reveal_strlit(".");
    assert(name != ""@ && name != "."@) by {
        assert(name.len() >= 2);
    }
    assert(path.drop_last() =~= directory);
    assert("."@ =~= seq!['.']);
}

/// The text of a path has a slash between the names. That of an absolute path starts with one: the
/// text of the root is a single slash.
pub proof fn names_are_written_with_slashes(path: Seq<Seq<char>>, name: Seq<char>)
    requires
        path.len() > 0,
    ensures
        path_text(seq![Seq::empty()]) == seq!['/'],
        path_text(seq![Seq::empty()].push(name)) == seq!['/'] + name,
        name.len() > 0 ==> path_text(seq![name]) == name,
        !is_root(path) ==> path_text(path.push(name)) == path_text(path) + seq!['/'] + name,
{
    reveal_strlit("");
    reveal_strlit("/");
    let empty = Seq::<char>::empty();
    assert(""@ =~= empty);
    assert("/"@ =~= seq!['/']);
    assert(seq![empty].push(name) =~= seq![empty, name]);
    joined_texts(empty, name, "/"@);
    joined_texts(name, name, "/"@);
    assert(empty + "/"@ + name =~= "/"@ + name);
    joined_in_groups(path, seq![name], "/"@);
    assert(path.push(name) =~= path + seq![name]);
}

/// The length of a path is that of its text in bytes.
pub proof fn length_is_that_of_text(path: Seq<Seq<char>>)
    ensures
        byte_len(path) == encode_utf8(path_text(path)).len(),
{
    reveal_strlit("/");
    if is_root(path) {
        reveal_with_fuel(encode_utf8, 2);
    } else {
        lemma_names_len(path);
    }
}

/// The length of names is that of their text in bytes.
proof fn lemma_names_len(path: Seq<Seq<char>>)
    ensures
        names_len(path) == encode_utf8(joined(path, "/"@)).len(),
    decreases path.len(),
{
    if path.len() > 1 {
        lemma_names_len(path.drop_last());
        let start = joined(path.drop_last(), "/"@);
        lemma_encoding(start, "/"@);
        lemma_encoding(start + "/"@, path.last());
        assert(encode_utf8("/"@).len() == 1) by {
            reveal_strlit("/");
            reveal_with_fuel(encode_utf8, 2);
        }
    }
}

/// What is inside of a directory has it as its parent. The root has none.
pub proof fn parent_is_directory(directory: Seq<Seq<char>>, name: Seq<char>)
    ensures
        directory.len() > 0 ==> parent(directory.push(name)) == Some(directory),
        name.len() > 0 ==> parent(directory.push(name)) == Some(directory),
        parent(seq![Seq::empty()]) is None,
        parent(Seq::empty()) is None,
{
    reveal_strlit("");
    assert(""@ =~= Seq::<char>::empty());
    assert(directory.push(name).drop_last() =~= directory);
}

} // verus!
