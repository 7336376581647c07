//! Where profiles are kept: one file per profile in one directory.

use vstd::prelude::*;

verus! {

/// Where a file lies: the directory, and the name of the file inside it.
/// Putting the two together into a path is left to the platform.
#[derive(Debug, Clone, PartialEq, Eq)]
pub struct FileLocation {
    pub dir: String,
    pub file: String,
}

/// The extension of a profile file.
pub open spec fn profile_suffix() -> Seq<char> {
    seq!['.', 'j', 's', 'o', 'n']
}

/// The name of the file that holds the profile `profile_name`.
pub fn profile_file_name(profile_name: &str) -> (file: String)
    ensures
        file@ == profile_name@ + profile_suffix(),
{
    proof {
        reveal_strlit(".json");
    }
    let file = profile_name.to_owned().concat(".json");
    assert(file@ =~= profile_name@ + profile_suffix());
    file
}

/// Knows the directory in which profiles are stored.
pub struct ProfileManager {
    profiles_dir: String,
}

impl ProfileManager {
    /// The directory in which profiles are stored.
    pub closed spec fn dir(&self) -> Seq<char> {
        self.profiles_dir@
    }

    /// A manager for the given directory. The directory itself is the
    /// caller's to create.
    pub fn new(profiles_dir: &str) -> (r: Self)
        ensures
            r.dir() == profiles_dir@,
    {
        ProfileManager { profiles_dir: profiles_dir.to_owned() }
    }

    /// The directory in which profiles are stored.
    pub fn profiles_dir(&self) -> (dir: &str)
        ensures
            dir@ == self.dir(),
    {
        self.profiles_dir.as_str()
    }

    /// Where the file lies that holds the profile `profile_name`: in the
    /// profiles directory, under the name that `profile_file_name` gives.
    pub fn get_profile_path(&self, profile_name: &str) -> (path: FileLocation)
        ensures
            path.dir@ == self.dir(),
            path.file@ == profile_name@ + profile_suffix(),
    {
        FileLocation { dir: self.profiles_dir.clone(), file: profile_file_name(profile_name) }
    }
}

/// `text` ends with the extension of a profile file.
pub open spec fn has_profile_suffix(text: Seq<char>) -> bool {
    text.len() >= 5 && text.subrange(text.len() - 5, text.len() as int) == profile_suffix()
}

/// The name of the profile that a file holds, going by the file's name: the
/// name without the extension of a profile file, and nothing for a file
/// with another extension.
pub open spec fn profile_of_file(file_name: Seq<char>) -> Option<Seq<char>> {
    if has_profile_suffix(file_name) {
        Some(file_name.subrange(0, file_name.len() - 5))
    } else {
        None
    }
}

/// The name of the profile that a file of the given name holds, if it is a
/// profile file.
pub fn profile_name_of(file_name: &str) -> (r: Option<String>)
    ensures
        match r {
            Some(name) => profile_of_file(file_name@) == Some(name@),
            None => profile_of_file(file_name@).is_none(),
        },
{
    let n = file_name.unicode_len();
    if n < 5 {
        return None;
    }
    let ghost tail = file_name@.subrange(n - 5, n as int);
    if file_name.get_char(n - 5) != '.' || file_name.get_char(n - 4) != 'j' || file_name.get_char(
        n - 3,
    ) != 's' || file_name.get_char(n - 2) != 'o' || file_name.get_char(n - 1) != 'n' {
        assert(tail[0] == file_name@[n - 5] && tail[1] == file_name@[n - 4] && tail[2]
            == file_name@[n - 3] && tail[3] == file_name@[n - 2] && tail[4] == file_name@[n - 1]);
        return None;
    }
    assert(tail =~= profile_suffix());
    Some(file_name.substring_char(0, n - 5).to_owned())
}

/// The profile names that a list of file names stands for: the name of each
/// profile file, in the order of the files.
pub open spec fn profiles_among(file_names: Seq<String>) -> Seq<Seq<char>>
    decreases file_names.len(),
{
    if file_names.len() == 0 {
        Seq::empty()
    } else {
        let before = profiles_among(file_names.drop_last());
        match profile_of_file(file_names.last()@) {
            Some(name) => before.push(name),
            None => before,
        }
    }
}

/// The texts of a list of strings.
pub open spec fn texts_of(names: Seq<String>) -> Seq<Seq<char>> {
    Seq::new(names.len(), |i: int| names[i]@)
}

/// Picks the profile files out of the files of a directory and gives the
/// names of their profiles, in the order of the files.
pub fn profile_names(file_names: &Vec<String>) -> (names: Vec<String>)
    ensures
        texts_of(names@) == profiles_among(file_names@),
{
    let mut names: Vec<String> = Vec::new();
    let mut i: usize = 0;
    assert(file_names@.subrange(0, 0) =~= Seq::<String>::empty());
    while i < file_names.len()
        invariant
            i <= file_names@.len(),
            texts_of(names@) =~= profiles_among(file_names@.subrange(0, i as int)),
        decreases file_names.len() - i,
    {
        proof {
            let longer = file_names@.subrange(0, i + 1);
            assert(longer.drop_last() =~= file_names@.subrange(0, i as int));
            assert(longer.last() == file_names@[i as int]);
        }
        match profile_name_of(file_names[i].as_str()) {
            Some(name) => {
                names.push(name);
            },
            None => {},
        }
        i = i + 1;
    }
    assert(file_names@.subrange(0, file_names@.len() as int) =~= file_names@);
    names
}

/// The text `a` comes before the text `b`, or is equal to it, in the order
/// of strings: at the first place where the two differ `a` has the lower
/// character, or `a` ends there.
pub open spec fn text_le(a: Seq<char>, b: Seq<char>) -> bool
    decreases a.len(),
{
    if a.len() == 0 {
        true
    } else if b.len() == 0 {
        false
    } else if a[0] != b[0] {
        (a[0] as u32) < (b[0] as u32)
    } else {
        text_le(a.drop_first(), b.drop_first())
    }
}

/// Each text comes before the next one, or is equal to it.
pub open spec fn texts_sorted(texts: Seq<Seq<char>>) -> bool {
    forall|i: int, j: int| 0 <= i <= j < texts.len() ==> text_le(texts[i], texts[j])
}

/// `slice::sort` on a vector of strings: the same strings, in ascending
/// order. Strings are ordered by their bytes, which is the order of their
/// characters.
#[verifier::external_body]
fn sort_names(names: &mut Vec<String>)
    ensures
        final(names)@.to_multiset() == old(names)@.to_multiset(),
        texts_sorted(texts_of(final(names)@)),
{
    names.sort();
}

impl ProfileManager {
    /// The names of the profiles among the files of the profiles directory,
    /// sorted. `file_names` are the names of the files that the directory
    /// holds, which the caller has read.
    pub fn list_profiles(&self, file_names: &Vec<String>) -> (names: Vec<String>)
        ensures
            exists|unsorted: Seq<String>|
                texts_of(unsorted) == profiles_among(file_names@) && names@.to_multiset()
                    == unsorted.to_multiset(),
            texts_sorted(texts_of(names@)),
    {
        let mut names = profile_names(file_names);
        sort_names(&mut names);
        names
    }
}

} // verus!
