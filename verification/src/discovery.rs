//! Picking the target module out of the modules a process has loaded.
//!
//! A module is chosen by the name of its file: the part of its path behind
//! the last `\` or `/`, compared without regard to the case of the letters
//! `a` to `z`.

use vstd::prelude::*;

use crate::module::Module;

verus! {

/// Why no module was chosen.
#[derive(Clone, Copy, Debug, PartialEq, Eq, Structural)]
pub enum DiscoveryError {
    /// No loaded module has a file name that holds the name asked for.
    ModuleNotFound,
}

/// `\` or `/`.
pub open spec fn is_path_separator(c: char) -> bool {
    c == '\\' || c == '/'
}

/// The index of the last separator among the first `n` characters of a
/// path, or -1 where there is none.
pub open spec fn last_separator(path: Seq<char>, n: int) -> int
    decreases n,
{
    if n <= 0 {
        -1
    } else if is_path_separator(path[n - 1]) {
        n - 1
    } else {
        last_separator(path, n - 1)
    }
}

/// The file name in a path: what stands behind the last separator, or the
/// whole path where it has none.
pub open spec fn file_name_of(path: Seq<char>) -> Seq<char> {
    path.subrange(last_separator(path, path.len() as int) + 1, path.len() as int)
}

/// The directory in a path: what stands before the last separator, if
/// there is one.
pub open spec fn directory_of(path: Seq<char>) -> Option<Seq<char>> {
    let at = last_separator(path, path.len() as int);
    if at < 0 {
        None
    } else {
        Some(path.subrange(0, at))
    }
}

/// A letter `a` to `z` as its capital, any other character as it is.
pub open spec fn upper(c: char) -> char {
    if 'a' <= c <= 'z' {
        ((c as u8) - 32) as char
    } else {
        c
    }
}

/// Whether `needle` stands in `haystack` at index `at`, case aside.
pub open spec fn occurs_at(haystack: Seq<char>, needle: Seq<char>, at: int) -> bool {
    &&& 0 <= at
    &&& at + needle.len() <= haystack.len()
    &&& forall|j: int| 0 <= j < needle.len() ==> upper(haystack[at + j]) == upper(#[trigger] needle[j])
}

/// Whether `needle` stands somewhere in `haystack`, case aside.
pub open spec fn contains_ignoring_case(haystack: Seq<char>, needle: Seq<char>) -> bool {
    exists|at: int| occurs_at(haystack, needle, at)
}

/// Whether a module with this path is the one asked for by `target`: its
/// file name holds `target`, case aside. A module without a path has an
/// empty file name.
pub open spec fn is_target(path: Option<Seq<char>>, target: Seq<char>) -> bool {
    contains_ignoring_case(
        match path {
            Some(p) => file_name_of(p),
            None => Seq::empty(),
        },
        target,
    )
}

fn to_upper(c: char) -> (u: char)
    ensures
        u == upper(c),
{
    if 'a' <= c && c <= 'z' {
        ((c as u8) - 32) as char
    } else {
        c
    }
}

fn chars_of(text: &str) -> (chars: Vec<char>)
    ensures
        chars@ == text@,
{
    let n: usize = text.unicode_len();
    let mut chars: Vec<char> = Vec::new();
    let mut i: usize = 0;
    while i < n
        invariant
            n == text@.len(),
            i <= n,
            chars@ == text@.subrange(0, i as int),
        decreases n - i,
    {
        chars.push(text.get_char(i));
        assert(chars@ =~= text@.subrange(0, i + 1));
        i = i + 1;
    }
    assert(chars@ =~= text@);
    chars
}

/// The index behind the last separator of a path: where its file name
/// starts.
fn file_name_start(path: &Vec<char>) -> (start: usize)
    ensures
        start == last_separator(path@, path@.len() as int) + 1,
        start <= path@.len(),
{
    let mut start: usize = 0;
    let mut i: usize = 0;
    while i < path.len()
        invariant
            i <= path.len(),
            start == last_separator(path@, i as int) + 1,
            start <= i,
        decreases path.len() - i,
    {
        if path[i] == '\\' || path[i] == '/' {
            start = i + 1;
        }
        i = i + 1;
    }
    start
}

/// Whether `needle` stands in `haystack`, case aside.
pub fn contains_name(haystack: &str, needle: &str) -> (found: bool)
    ensures
        found == contains_ignoring_case(haystack@, needle@),
{
    let hay = chars_of(haystack);
    let pin = chars_of(needle);
    if pin.len() > hay.len() {
        assert forall|at: int| !occurs_at(hay@, pin@, at) by {}
        return false;
    }
    let last: usize = hay.len() - pin.len();
    let mut at: usize = 0;
    while at <= last
        invariant
            hay@ == haystack@,
            pin@ == needle@,
            pin.len() <= hay.len(),
            last == hay.len() - pin.len(),
            at <= last + 1,
            forall|k: int| 0 <= k < at ==> !occurs_at(hay@, pin@, k),
        decreases last + 1 - at,
    {
        let mut j: usize = 0;
        while j < pin.len() && to_upper(hay[at + j]) == to_upper(pin[j])
            invariant
                at <= last,
                pin.len() <= hay.len(),
                last == hay.len() - pin.len(),
                j <= pin.len(),
                forall|k: int| 0 <= k < j ==> upper(hay@[at + k]) == upper(#[trigger] pin@[k]),
            decreases pin.len() - j,
        {
            j = j + 1;
        }
        if j == pin.len() {
            assert(occurs_at(hay@, pin@, at as int));
            return true;
        }
        assert(!occurs_at(hay@, pin@, at as int)) by {
            assert(upper(hay@[at + j]) != upper(pin@[j as int]));
        }
        at = at + 1;
    }
    assert forall|k: int| !occurs_at(hay@, pin@, k) by {}
    false
}

impl Module {
    /// The name of the module's file: the part of its path behind the last
    /// separator. `None` for a module without a path and for a path that
    /// ends in a separator.
    pub fn filename(&self) -> (name: Option<String>)
        ensures
            match self.spec_path() {
                Some(path) => if file_name_of(path).len() == 0 {
                    name is None
                } else {
                    name matches Some(n) && n@ == file_name_of(path)
                },
                None => name is None,
            },
    {
        let path: &String = match self.path() {
            Some(path) => path,
            None => {
                return None;
            },
        };
        let chars = chars_of(path.as_str());
        let start = file_name_start(&chars);
        if start == chars.len() {
            None
        } else {
            Some(path.as_str().substring_char(start, chars.len()).to_owned())
        }
    }

    /// The directory the module's file lies in: the part of its path
    /// before the last separator. `None` for a module without a path and
    /// for a path without a separator.
    pub fn directory(&self) -> (directory: Option<String>)
        ensures
            match self.spec_path() {
                Some(path) => match directory_of(path) {
                    Some(d) => directory matches Some(n) && n@ == d,
                    None => directory is None,
                },
                None => directory is None,
            },
    {
        let path: &String = match self.path() {
            Some(path) => path,
            None => {
                return None;
            },
        };
        let chars = chars_of(path.as_str());
        let start = file_name_start(&chars);
        if start == 0 {
            None
        } else {
            Some(path.as_str().substring_char(0, start - 1).to_owned())
        }
    }

    /// Whether the module's file name holds `target`, case aside.
    pub fn is_named(&self, target: &str) -> (yes: bool)
        ensures
            yes == is_target(self.spec_path(), target@),
    {
        match self.filename() {
            Some(name) => contains_name(name.as_str(), target),
            None => {
                let empty = String::new();
                proof {
                    if let Some(path) = self.spec_path() {
                        assert(file_name_of(path) =~= Seq::<char>::empty());
                    }
                }
                contains_name(empty.as_str(), target)
            },
        }
    }
}

/// The first of the modules whose file name holds `target`, case aside, as
/// an index into `modules`. That there is none is an error: without its
/// target nothing can be hooked.
pub fn find_module(modules: &[Module], target: &str) -> (found: Result<usize, DiscoveryError>)
    ensures
        match found {
            Ok(i) => {
                &&& i < modules@.len()
                &&& is_target(modules@[i as int].spec_path(), target@)
                &&& forall|k: int| 0 <= k < i ==> !is_target(modules@[k].spec_path(), target@)
            },
            Err(e) => {
                &&& e == DiscoveryError::ModuleNotFound
                &&& forall|k: int| 0 <= k < modules@.len() ==> !is_target(modules@[k].spec_path(), target@)
            },
        },
{
    let mut i: usize = 0;
    while i < modules.len()
        invariant
            i <= modules@.len(),
            forall|k: int| 0 <= k < i ==> !is_target(modules@[k].spec_path(), target@),
        decreases modules@.len() - i,
    {
        if modules[i].is_named(target) {
            return Ok(i);
        }
        i = i + 1;
    }
    Err(DiscoveryError::ModuleNotFound)
}

} // verus!
