//! The API key store: which key to use, and where its file lives.

use vstd::prelude::*;
use vstd::std_specs::iter::IteratorSpec;

verus! {

/// Whether `c` has the Unicode `White_Space` property.
pub open spec fn is_whitespace(c: char) -> bool {
    let u = c as u32;
    ||| 0x09 <= u <= 0x0D
    ||| u == 0x20
    ||| u == 0x85
    ||| u == 0xA0
    ||| u == 0x1680
    ||| 0x2000 <= u <= 0x200A
    ||| u == 0x2028
    ||| u == 0x2029
    ||| u == 0x202F
    ||| u == 0x205F
    ||| u == 0x3000
}

/// Decides whether `c` is white space.
pub fn is_whitespace_char(c: char) -> (b: bool)
    ensures
        b == is_whitespace(c),
{
    let u: u32 = c as u32;
    (0x09 <= u && u <= 0x0D) || u == 0x20 || u == 0x85 || u == 0xA0 || u == 0x1680 || (0x2000 <= u
        && u <= 0x200A) || u == 0x2028 || u == 0x2029 || u == 0x202F || u == 0x205F || u == 0x3000
}

/// `s` without its white space, the other characters in their order.
pub open spec fn strip_whitespace(s: Seq<char>) -> Seq<char> {
    s.filter(|c: char| !is_whitespace(c))
}

/// Removes every white-space character from `s`.
pub fn remove_whitespace(s: &mut String)
    ensures
        final(s)@ == strip_whitespace(old(s)@),
{
    let mut kept = String::new();
    for c in it: s.as_str().chars()
        invariant
            it.seq() == old(s)@,
            kept@ == strip_whitespace(it.seq().take(it.index())),
    {
        proof {
            let before = it.seq().take(it.index() as int);
            assert(it.seq().take(it.index() + 1) == before.push(c));
            before.lemma_filter_push(c, |c: char| !is_whitespace(c));
        }
        if !is_whitespace_char(c) {
            kept.push(c);
        }
    }
    assert(old(s)@.take(old(s)@.len() as int) == old(s)@);
    *s = kept;
}

/// What the key store asks of its caller next.
#[derive(Clone, Debug, PartialEq, Eq)]
pub enum KeyAction {
    /// Hand this key out; nothing is asked of the user and nothing is written.
    Return(String),
    /// Show the instructions, read one line from the user and pass it to
    /// [`on_entry`].
    Prompt,
    /// Write this key to the key file, replacing what is there, then hand it
    /// out.
    Save(String),
}

/// The key that a key file with these contents provides: the contents as they
/// stand, white space included, unless the file is absent or empty.
pub open spec fn cached_key(contents: Option<Seq<char>>) -> Option<Seq<char>> {
    match contents {
        Some(text) => if text.len() > 0 {
            Some(text)
        } else {
            None
        },
        None => None,
    }
}

/// The key that is made from a line the user typed.
pub open spec fn entered_key(line: Seq<char>) -> Seq<char> {
    strip_whitespace(line)
}

/// Decides what follows the reading of the key file. `contents` is `None`
/// where the file does not exist.
pub fn on_file_read(contents: Option<String>) -> (action: KeyAction)
    ensures
        match action {
            KeyAction::Return(key) => cached_key(contents.deep_view()) == Some(key@),
            KeyAction::Prompt => cached_key(contents.deep_view()) is None,
            KeyAction::Save(_) => false,
        },
{
    match contents {
        Some(text) => {
            if text.as_str().is_empty() {
                KeyAction::Prompt
            } else {
                KeyAction::Return(text)
            }
        },
        None => KeyAction::Prompt,
    }
}

/// Decides what follows the user's entry of `line`: the key without its white
/// space is to be saved.
pub fn on_entry(line: String) -> (action: KeyAction)
    ensures
        action matches KeyAction::Save(key) && key@ == entered_key(line@),
{
    let mut key = line;
    remove_whitespace(&mut key);
    KeyAction::Save(key)
}

/// One use of the key store, from the reading of the key file to the key.
pub struct Session {
    /// The key handed out.
    pub key: Seq<char>,
    /// The key file afterwards; `None` where there is none.
    pub file: Option<Seq<char>>,
    /// Whether the user was asked for a key.
    pub prompted: bool,
}

/// What a caller that follows [`on_file_read`] and [`on_entry`] brings about,
/// given the key file it finds and the line the user types when asked.
pub open spec fn session(file: Option<Seq<char>>, line: Seq<char>) -> Session {
    match cached_key(file) {
        Some(key) => Session { key, file, prompted: false },
        None => Session { key: entered_key(line), file: Some(entered_key(line)), prompted: true },
    }
}

/// With the key file absent or empty, the store asks the user, hands out the
/// typed line without its white space and leaves exactly that in the key
/// file.
pub proof fn lemma_created_key_is_saved(file: Option<Seq<char>>, line: Seq<char>)
    requires
        file is None || file == Some(Seq::<char>::empty()),
    ensures
        session(file, line).prompted,
        session(file, line).key == strip_whitespace(line),
        session(file, line).file == Some(strip_whitespace(line)),
{
}

/// A key that was created from a typed line is found again: the next use of
/// the store hands out the same key without asking, whatever the user would
/// type then, and leaves the key file as it is. This holds of every line that
/// is more than white space.
pub proof fn lemma_saved_key_is_reused(file: Option<Seq<char>>, line: Seq<char>, later: Seq<char>)
    requires
        file is None || file == Some(Seq::<char>::empty()),
        strip_whitespace(line).len() > 0,
    ensures
        session(session(file, line).file, later).key == session(file, line).key,
        session(session(file, line).file, later).file == session(file, line).file,
        !session(session(file, line).file, later).prompted,
{
}

/// A stored key is handed out as it stands, white space included, and the key
/// file is left as it was.
pub proof fn lemma_cached_key_is_unchanged(contents: Seq<char>, line: Seq<char>)
    requires
        contents.len() > 0,
    ensures
        session(Some(contents), line) == (Session {
            key: contents,
            file: Some(contents),
            prompted: false,
        }),
{
}

/// The characters that separate the parts of a path on one platform or
/// another: the slash and the backslash.
pub open spec fn any_separator() -> Seq<char> {
    seq!['/', '\\']
}

/// The length of the directory part of `path`: everything up to and including
/// the last of its `separators`, or nothing where it has none.
pub open spec fn directory_len(path: Seq<char>, separators: Seq<char>) -> nat
    decreases path.len(),
{
    if path.len() == 0 {
        0
    } else if separators.contains(path.last()) {
        path.len()
    } else {
        directory_len(path.drop_last(), separators)
    }
}

/// The directory part of `path`, with the separator that ends it.
pub open spec fn directory(path: Seq<char>, separators: Seq<char>) -> Seq<char> {
    path.take(directory_len(path, separators) as int)
}

/// The last part of `path`: what follows its last separator.
pub open spec fn file_name(path: Seq<char>, separators: Seq<char>) -> Seq<char> {
    path.skip(directory_len(path, separators) as int)
}

/// The name of the key file.
pub open spec fn key_file_name() -> Seq<char> {
    "key.txt"@
}

/// The path of the key file that belongs to the executable at `exe_path`: that
/// path with its last part, the file name, replaced by the key file's name.
pub open spec fn key_path(exe_path: Seq<char>, separators: Seq<char>) -> Seq<char> {
    directory(exe_path, separators) + key_file_name()
}

/// Appending a name without separators to a path that is all directory keeps
/// that directory.
proof fn lemma_directory_of_appended(dir: Seq<char>, name: Seq<char>, separators: Seq<char>)
    requires
        directory_len(dir, separators) == dir.len(),
        forall|i: int| 0 <= i < name.len() ==> !separators.contains(#[trigger] name[i]),
    ensures
        directory_len(dir + name, separators) == dir.len(),
    decreases name.len(),
{
    if name.len() == 0 {
        assert(dir + name == dir);
    } else {
        assert((dir + name).drop_last() == dir + name.drop_last());
        lemma_directory_of_appended(dir, name.drop_last(), separators);
    }
}

/// The directory part of a path is all directory.
proof fn lemma_directory_is_closed(path: Seq<char>, separators: Seq<char>)
    ensures
        directory_len(path, separators) <= path.len(),
        directory_len(directory(path, separators), separators) == directory_len(path, separators),
    decreases path.len(),
{
    if path.len() == 0 {
    } else if separators.contains(path.last()) {
    } else {
        lemma_directory_is_closed(path.drop_last(), separators);
        assert(path.drop_last().take(directory_len(path, separators) as int) == path.take(
            directory_len(path, separators) as int,
        ));
    }
}

/// The key file lies in the directory of the executable and is named
/// `key.txt`, whatever the executable is called. This holds wherever no
/// character of that name is a separator, as on every platform in use.
pub proof fn lemma_key_file_lies_beside(exe_path: Seq<char>, separators: Seq<char>)
    requires
        forall|i: int|
            0 <= i < key_file_name().len() ==> !separators.contains(#[trigger] key_file_name()[i]),
    ensures
        directory(key_path(exe_path, separators), separators) == directory(exe_path, separators),
        file_name(key_path(exe_path, separators), separators) == key_file_name(),
{
    lemma_directory_is_closed(exe_path, separators);
    lemma_directory_of_appended(directory(exe_path, separators), key_file_name(), separators);
}

/// Decides whether `c` is one of `separators`.
pub fn is_separator(separators: &str, c: char) -> (found: bool)
    ensures
        found == separators@.contains(c),
{
    let mut found = false;
    for s in it: separators.chars()
        invariant
            it.seq() == separators@,
            found == it.seq().take(it.index()).contains(c),
    {
        proof {
            let before = it.seq().take(it.index() as int);
            let now = it.seq().take(it.index() + 1);
            assert(now == before.push(s));
            if before.contains(c) {
                let k = choose|k: int| 0 <= k < before.len() && before[k] == c;
                assert(now[k] == c);
            }
            if s == c {
                assert(now[before.len() as int] == c);
            }
        }
        if s == c {
            found = true;
        }
    }
    assert(separators@.take(separators@.len() as int) == separators@);
    found
}

/// Derives the key file's path from the path of the running executable, so
/// that the key file lies beside it. `separators` holds the characters that
/// separate the parts of a path on the platform at hand.
pub fn key_file_path_with(exe_path: &str, separators: &str) -> (path: String)
    ensures
        path@ == key_path(exe_path@, separators@),
{
    let mut path = String::new();
    let mut name = String::new();
    for c in it: exe_path.chars()
        invariant
            it.seq() == exe_path@,
            path@ == directory(it.seq().take(it.index()), separators@),
            path@ + name@ == it.seq().take(it.index()),
    {
        proof {
            let before = it.seq().take(it.index() as int);
            let now = it.seq().take(it.index() + 1);
            assert(now == before.push(c));
            assert(now.take(before.len() as int) == before);
            lemma_directory_is_closed(before, separators@);
        }
        name.push(c);
        if is_separator(separators, c) {
            path.append(name.as_str());
            name = String::new();
        }
    }
    assert(exe_path@.take(exe_path@.len() as int) == exe_path@);
    path.append("key.txt");
    path
}

/// Derives the key file's path from the path of the running executable, so
/// that the key file lies beside it, taking both the slash and the backslash
/// to separate the parts of a path.
pub fn key_file_path(exe_path: &str) -> (path: String)
    ensures
        path@ == key_path(exe_path@, any_separator()),
{
    proof {
        reveal_strlit("/\\");
        assert("/\\"@ == any_separator());
    }
    key_file_path_with(exe_path, "/\\")
}

} // verus!
