//! Texts that are shipped with the application: the file beside it, where there
//! is one, and otherwise the text that was built in.

use vstd::prelude::*;

use crate::paths;

verus! {

/// What reading a text file gave.
#[derive(Debug, PartialEq, Eq)]
pub enum TextRead {
    Content(String),
    NotFound,
    Failed,
}

/// Where a shipped text is looked for: beside the executable, then in the
/// current directory unless that is the same one.
pub open spec fn text_directories(
    executable: Option<Seq<char>>,
    current_directory: Option<Seq<char>>,
) -> Seq<Seq<char>> {
    let beside = match executable {
        Some(path) => match paths::parent_of(path) {
            Some(parent) => seq![parent],
            None => Seq::empty(),
        },
        None => Seq::empty(),
    };
    match current_directory {
        Some(current) => if beside.len() > 0 && paths::same_path(beside[0], current) {
            beside
        } else {
            beside.push(current)
        },
        None => beside,
    }
}

pub open spec fn text_of_option(path: Option<String>) -> Option<Seq<char>> {
    match path {
        Some(path) => Some(path@),
        None => None,
    }
}

pub open spec fn texts_of(paths: Seq<String>) -> Seq<Seq<char>> {
    paths.map_values(|path: String| path@)
}

/// The directories that a shipped text is looked for in; a path that is not
/// known is left out.
pub fn distribution_text_directories(
    executable_path: Option<String>,
    current_directory: Option<String>,
) -> (directories: Vec<String>)
    ensures
        texts_of(directories@) == text_directories(
            text_of_option(executable_path),
            text_of_option(current_directory),
        ),
{
    let mut directories: Vec<String> = Vec::new();
    match &executable_path {
        Some(path) => match paths::parent(path.as_str()) {
            Some(directory) => directories.push(directory),
            None => {},
        },
        None => {},
    }
    let ghost beside = texts_of(directories@);
    match current_directory {
        Some(current) => {
            let known = directories.len() > 0 && paths::is_same(
                directories[0].as_str(),
                current.as_str(),
            );
            if !known {
                directories.push(current);
                assert(texts_of(directories@) =~= beside.push(current@));
            }
        },
        None => {},
    }
    assert(texts_of(directories@) =~= text_directories(
        text_of_option(executable_path),
        text_of_option(current_directory),
    ));
    directories
}

/// The text that was found first; the one that was built in where none was, or
/// where a file that exists cannot be read.
pub open spec fn chosen_text(reads: Seq<TextRead>, embedded: Seq<char>) -> Seq<char>
    decreases reads.len(),
{
    if reads.len() == 0 {
        embedded
    } else {
        match reads[0] {
            TextRead::Content(content) => content@,
            TextRead::NotFound => chosen_text(reads.skip(1), embedded),
            TextRead::Failed => embedded,
        }
    }
}

/// The text to use, given what reading it in each directory gave.
pub fn load_text_file_or_embedded(reads: &Vec<TextRead>, embedded_text: &str) -> (text: String)
    ensures
        text@ == chosen_text(reads@, embedded_text@),
{
    let mut index: usize = 0;
    assert(reads@.skip(0) =~= reads@);
    while index < reads.len()
        invariant
            index <= reads@.len(),
            chosen_text(reads@.skip(index as int), embedded_text@) == chosen_text(
                reads@,
                embedded_text@,
            ),
        decreases reads@.len() - index,
    {
        assert(reads@.skip(index as int).skip(1) =~= reads@.skip(index + 1));
        match &reads[index] {
            TextRead::Content(content) => return content.clone(),
            TextRead::NotFound => {},
            TextRead::Failed => return embedded_text.to_owned(),
        }
        index += 1;
    }
    embedded_text.to_owned()
}

/// The text of the first directory that has one is used. Where none has, and where one that
/// comes up first cannot be read, the text that was built in is.
pub proof fn law_first_text_is_used(reads: Seq<TextRead>, embedded: Seq<char>, i: int)
    ensures
        0 <= i < reads.len() && (forall|j: int| 0 <= j < i ==> (#[trigger] reads[j]) is NotFound)
            ==> {
            &&& reads[i] matches TextRead::Content(content) ==> chosen_text(reads, embedded)
                == content@
            &&& reads[i] is Failed ==> chosen_text(reads, embedded) == embedded
        },
        (forall|j: int| 0 <= j < reads.len() ==> (#[trigger] reads[j]) is NotFound) ==> chosen_text(
            reads,
            embedded,
        ) == embedded,
    decreases reads.len(),
{
    if reads.len() > 0 {
        let rest = reads.skip(1);
        law_first_text_is_used(rest, embedded, i - 1);
        assert(forall|j: int| 0 <= j < rest.len() ==> #[trigger] rest[j] == reads[j + 1]);
    }
}

/// A text is looked for beside the executable before it is in the current directory, and in no
/// directory twice; a path that is not known is passed over.
pub proof fn law_texts_are_looked_for_beside_the_executable(
    executable: Option<Seq<char>>,
    current: Option<Seq<char>>,
)
    ensures
        ({
            let directories = text_directories(executable, current);
            let beside = match executable {
                Some(path) => paths::parent_of(path),
                None => None,
            };
            &&& directories.len() <= 2
            &&& beside matches Some(parent) ==> directories.len() >= 1 && directories[0] == parent
            &&& current matches Some(known) ==> directories.len() >= 1 && (directories.last()
                == known || paths::same_path(directories[0], known))
            &&& directories.len() == 2 ==> !paths::same_path(directories[0], directories[1])
                && current == Some(directories[1]) && beside == Some(directories[0])
            &&& beside is None && current is None ==> directories.len() == 0
        }),
{
}

} // verus!
