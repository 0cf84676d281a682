//! The resources of the game as plain values: the bytes of the files that
//! have been read, by directory and name. The library reads no file; where
//! it lacks a resource it says which one, and the caller adds it.

use crate::error::{ResourceError, ResourceName};
use vstd::prelude::*;
use vstd::utf8::{encode_utf8, encode_utf8_decode_utf8};

verus! {

/// Whether two texts hold the same characters.
pub fn same_text(a: &str, b: &str) -> (r: bool)
    ensures
        r == (a@ == b@),
{
    let left = a.as_bytes();
    let right = b.as_bytes();
    proof {
        encode_utf8_decode_utf8(a@);
        encode_utf8_decode_utf8(b@);
    }
    if left.len() != right.len() {
        return false;
    }
    let mut i: usize = 0;
    while i < left.len()
        invariant
            i <= left@.len(),
            left@.len() == right@.len(),
            left@ == encode_utf8(a@),
            right@ == encode_utf8(b@),
            forall|j: int| 0 <= j < i ==> left@[j] == right@[j],
        decreases left@.len() - i,
    {
        if left[i] != right[i] {
            return false;
        }
        i += 1;
    }
    assert(left@ =~= right@);
    true
}

/// The characters of an optional text.
pub open spec fn text_of(text: Option<&str>) -> Option<Seq<char>> {
    match text {
        Some(t) => Some(t@),
        None => None,
    }
}

/// One file that has been read: its directory (`None` for the root of the
/// volume), its name and its bytes.
pub struct Resource {
    pub directory: Option<String>,
    pub name: String,
    pub bytes: Vec<u8>,
}

impl Resource {
    /// The characters of the directory.
    pub open spec fn directory_text(&self) -> Option<Seq<char>> {
        match self.directory {
            Some(d) => Some(d@),
            None => None,
        }
    }

    /// Whether this is the file `name` of `directory`.
    pub open spec fn is_named(&self, name: Seq<char>, directory: Option<Seq<char>>) -> bool {
        self.name@ == name && self.directory_text() == directory
    }

    /// Whether this is the file `name` of `directory`.
    pub fn has_name(&self, name: &str, directory: Option<&str>) -> (r: bool)
        ensures
            r == self.is_named(name@, text_of(directory)),
    {
        if !same_text(self.name.as_str(), name) {
            return false;
        }
        match (&self.directory, directory) {
            (Some(own), Some(asked)) => same_text(own.as_str(), asked),
            (None, None) => true,
            _ => false,
        }
    }
}

/// The bytes of the file `name` of `directory` among `files`; of several
/// files of one name the last counts.
pub open spec fn content_in(
    files: Seq<Resource>,
    name: Seq<char>,
    directory: Option<Seq<char>>,
) -> Option<Seq<u8>>
    decreases files.len(),
{
    if files.len() == 0 {
        None
    } else if files.last().is_named(name, directory) {
        Some(files.last().bytes@)
    } else {
        content_in(files.drop_last(), name, directory)
    }
}

/// The files that have been read so far.
pub struct Resources {
    pub files: Vec<Resource>,
}

impl Resources {
    /// The bytes of the file `name` of `directory`, if it has been read.
    pub open spec fn content(&self, name: Seq<char>, directory: Option<Seq<char>>) -> Option<Seq<u8>> {
        content_in(self.files@, name, directory)
    }

    /// No file.
    pub fn new() -> (r: Resources)
        ensures
            forall|name: Seq<char>, directory: Option<Seq<char>>|
                r.content(name, directory) is None,
    {
        Resources { files: Vec::new() }
    }

    /// Adds the file `name` of `directory`. It replaces a file of the same
    /// directory and name that was added before.
    pub fn add(&mut self, name: &str, directory: Option<&str>, bytes: Vec<u8>)
        ensures
            final(self).content(name@, text_of(directory)) == Some(bytes@),
            forall|other: Seq<char>, place: Option<Seq<char>>|
                !(other == name@ && place == text_of(directory)) ==> final(self).content(other, place)
                    == old(self).content(other, place),
    {
        let owned_directory = match directory {
            Some(d) => Some(d.to_owned()),
            None => None,
        };
        let resource = Resource { directory: owned_directory, name: name.to_owned(), bytes };
        let ghost before = self.files@;
        self.files.push(resource);
        assert(self.files@.drop_last() =~= before);
    }

    /// The bytes of the file `file_name` of `directory`, or the error that
    /// names the file where it has not been read.
    pub fn read_file(&self, file_name: &str, directory: Option<&str>) -> (r: Result<
        &Vec<u8>,
        ResourceError,
    >)
        ensures
            match self.content(file_name@, text_of(directory)) {
                Some(bytes) => r is Ok && r->Ok_0@ == bytes,
                None => r is Err && r->Err_0@ == (ResourceName {
                    directory: text_of(directory),
                    name: file_name@,
                }),
            },
    {
        let mut i = self.files.len();
        assert(self.files@.take(i as int) =~= self.files@);
        while i > 0
            invariant
                i <= self.files@.len(),
                content_in(self.files@, file_name@, text_of(directory)) == content_in(
                    self.files@.take(i as int),
                    file_name@,
                    text_of(directory),
                ),
            decreases i,
        {
            assert(self.files@.take(i as int).drop_last() =~= self.files@.take(i - 1));
            i -= 1;
            if self.files[i].has_name(file_name, directory) {
                return Ok(&self.files[i].bytes);
            }
        }
        let owned_directory = match directory {
            Some(d) => Some(d.to_owned()),
            None => None,
        };
        Err(ResourceError { directory: owned_directory, name: file_name.to_owned() })
    }
}

} // verus!
