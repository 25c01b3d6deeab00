//! Where projects are kept: the names of content files, the identifiers
//! taken from them, and the path under which an identifier is looked up.

use vstd::prelude::*;
use vstd::string::*;
use crate::matter::optional_text;
use crate::order::same_text;

verus! {

/// The ending of the name of every content file.
pub const CONTENT_EXTENSION: &'static str = ".mdx";

/// What stands between a directory and the name of a file in it.
pub const PATH_SEPARATOR: &'static str = "/";

/// The name of the content file of the project `identifier`.
pub open spec fn file_name_for(identifier: Seq<char>) -> Seq<char> {
    identifier + CONTENT_EXTENSION@
}

/// The identifier of the project kept in the file `file_name`: the name
/// without the ending of content files, taken as it is. `None` where the
/// name does not end so.
pub open spec fn identifier_for(file_name: Seq<char>) -> Option<Seq<char>> {
    let stem = file_name.len() - CONTENT_EXTENSION@.len();
    if stem >= 0 && file_name.skip(stem) == CONTENT_EXTENSION@ {
        Some(file_name.take(stem))
    } else {
        None
    }
}

/// Whether `letter` parts the steps of a path.
pub open spec fn is_separator(letter: char) -> bool {
    letter == '/' || letter == '\\'
}

/// Whether `identifier` can name a file of the content directory itself: it
/// holds no character that parts the steps of a path.
pub open spec fn is_plain_identifier(identifier: Seq<char>) -> bool {
    forall|i: int| 0 <= i < identifier.len() ==> !is_separator(#[trigger] identifier[i])
}

/// The path of the content file of `identifier` in `directory`.
pub open spec fn path_for(directory: Seq<char>, identifier: Seq<char>) -> Seq<char> {
    directory + PATH_SEPARATOR@ + file_name_for(identifier)
}

/// The identifier of the project kept in the file `file_name`.
pub fn identifier_of(file_name: &str) -> (identifier: Option<String>)
    ensures
        optional_text(identifier) == identifier_for(file_name@),
{
    let length = file_name.unicode_len();
    let tail = CONTENT_EXTENSION.unicode_len();
    if length < tail {
        return None;
    }
    let ending = file_name.substring_char(length - tail, length);
    assert(ending@ =~= file_name@.skip(length - tail));
    assert(file_name@.subrange(0, length - tail) =~= file_name@.take(length - tail));
    if same_text(ending, CONTENT_EXTENSION) {
        Some(String::from_str(file_name.substring_char(0, length - tail)))
    } else {
        None
    }
}

/// Whether `identifier` holds no character that parts the steps of a path.
pub fn is_plain(identifier: &str) -> (plain: bool)
    ensures
        plain == is_plain_identifier(identifier@),
{
    for letter in walk: identifier.chars()
        invariant
            walk.seq() == identifier@,
            forall|i: int| 0 <= i < walk.index() ==> !is_separator(#[trigger] identifier@[i]),
    {
        if letter == '/' || letter == '\\' {
            assert(is_separator(identifier@[walk.index()]));
            return false;
        }
    }
    true
}

/// The path under which the content file of `identifier` is looked up in
/// `directory`. `None` for an identifier that is not plain: such a one could
/// lead out of the directory, and no file of the directory has its name.
pub fn project_path(directory: &str, identifier: &str) -> (path: Option<String>)
    ensures
        path is Some <==> is_plain_identifier(identifier@),
        path matches Some(place) ==> place@ == path_for(directory@, identifier@),
{
    if is_plain(identifier) {
        let place = String::from_str(directory).concat(PATH_SEPARATOR).concat(identifier).concat(
            CONTENT_EXTENSION,
        );
        assert(place@ =~= path_for(directory@, identifier@));
        Some(place)
    } else {
        None
    }
}

/// The file of a project gives back the project's identifier, whatever the
/// identifier is.
pub proof fn lemma_file_name_gives_identifier(identifier: Seq<char>)
    ensures
        identifier_for(file_name_for(identifier)) == Some(identifier),
{
    let name = file_name_for(identifier);
    assert(name.skip(identifier.len() as int) =~= CONTENT_EXTENSION@);
    assert(name.take(identifier.len() as int) =~= identifier);
}

/// A file that gives an identifier is the file under which that identifier
/// is looked up.
pub proof fn lemma_identifier_gives_file_name(file_name: Seq<char>)
    requires
        identifier_for(file_name) is Some,
    ensures
        file_name_for(identifier_for(file_name).unwrap()) == file_name,
{
    let stem = file_name.len() - CONTENT_EXTENSION@.len();
    assert(file_name.take(stem) + file_name.skip(stem) =~= file_name);
}

/// A plain identifier is looked up in the content directory itself: the
/// name of its file has no step of a path in it. And a file of the directory
/// gives a plain identifier.
pub proof fn lemma_plain_identifier_stays_in_directory(identifier: Seq<char>)
    ensures
        is_plain_identifier(identifier) <==> is_plain_identifier(file_name_for(identifier)),
{
    reveal_strlit(".mdx");
    let name = file_name_for(identifier);
    if is_plain_identifier(identifier) {
        assert forall|i: int| 0 <= i < name.len() implies !is_separator(#[trigger] name[i]) by {
            if i >= identifier.len() {
                assert(name[i] == CONTENT_EXTENSION@[i - identifier.len()]);
            } else {
                assert(name[i] == identifier[i]);
            }
        }
    }
    if is_plain_identifier(name) {
        assert forall|i: int| 0 <= i < identifier.len() implies !is_separator(
            #[trigger] identifier[i],
        ) by {
            assert(name[i] == identifier[i]);
        }
    }
}

} // verus!
