//! Which entries of the plugin directory are candidate modules.

use vstd::prelude::*;
use vstd::string::*;

verus! {

/// One entry of the plugin directory, as the embedding program read it.
#[derive(Debug)]
pub struct DirEntry {
    /// The entry's path: the directory, a `/` and the file's name.
    pub path: String,
    /// Whether the entry is a regular file.
    pub is_file: bool,
}

/// Whether the file that `path` names has the extension of a compiled
/// module: the name ends in `.wasm`, and something stands before the dot.
/// The name is what follows the last `/` of the path.
pub open spec fn is_module_path(path: Seq<char>) -> bool {
    let n = path.len() as int;
    &&& n >= 6
    &&& path[n - 6] != '/'
    &&& path[n - 5] == '.'
    &&& path[n - 4] == 'w'
    &&& path[n - 3] == 'a'
    &&& path[n - 2] == 's'
    &&& path[n - 1] == 'm'
}

/// Whether the host tries to load the entry: a regular file with the
/// extension of a compiled module.
pub open spec fn is_candidate(entry: DirEntry) -> bool {
    entry.is_file && is_module_path(entry.path@)
}

/// The paths of the candidates among the first `n` entries of `listing`, in
/// the order of the listing.
pub open spec fn candidates_below(listing: Seq<DirEntry>, n: nat) -> Seq<Seq<char>>
    decreases n,
{
    if n == 0 || n > listing.len() {
        Seq::empty()
    } else if is_candidate(listing[n - 1]) {
        candidates_below(listing, (n - 1) as nat).push(listing[n - 1].path@)
    } else {
        candidates_below(listing, (n - 1) as nat)
    }
}

/// The paths of the candidates of `listing`, in the order of the listing.
pub open spec fn candidates(listing: Seq<DirEntry>) -> Seq<Seq<char>> {
    candidates_below(listing, listing.len())
}

/// Decides whether `path` names a file with the extension of a compiled
/// module.
pub fn has_module_extension(path: &str) -> (yes: bool)
    ensures
        yes == is_module_path(path@),
{
    let n: usize = path.unicode_len();
    if n < 6 {
        return false;
    }
    path.get_char(n - 6) != '/' && path.get_char(n - 5) == '.' && path.get_char(n - 4) == 'w'
        && path.get_char(n - 3) == 'a' && path.get_char(n - 2) == 's' && path.get_char(n - 1)
        == 'm'
}

impl DirEntry {
    /// Decides whether the host tries to load the entry.
    pub fn is_candidate(&self) -> (yes: bool)
        ensures
            yes == is_candidate(*self),
    {
        self.is_file && has_module_extension(self.path.as_str())
    }
}

/// Every candidate's path is the path of an entry of the listing that is a
/// regular file with the module extension, so nothing else is ever loaded.
pub proof fn lemma_candidates_come_from_listing(listing: Seq<DirEntry>, n: nat, k: int)
    requires
        n <= listing.len(),
        0 <= k < candidates_below(listing, n).len(),
    ensures
        exists|i: int|
            0 <= i < n && is_candidate(#[trigger] listing[i]) && listing[i].path@
                == candidates_below(listing, n)[k],
    decreases n,
{
    if n > 0 {
        let rest = candidates_below(listing, (n - 1) as nat);
        if is_candidate(listing[n - 1]) && k == rest.len() {
            assert(is_candidate(listing[n - 1]));
        } else {
            lemma_candidates_come_from_listing(listing, (n - 1) as nat, k);
        }
    }
}

/// No candidate is passed over: every regular file of the listing with the
/// module extension is among the candidates.
pub proof fn lemma_candidates_are_complete(listing: Seq<DirEntry>, n: nat, i: int)
    requires
        n <= listing.len(),
        0 <= i < n,
        is_candidate(listing[i]),
    ensures
        candidates_below(listing, n).contains(listing[i].path@),
    decreases n,
{
    let rest = candidates_below(listing, (n - 1) as nat);
    if i == n - 1 {
        assert(rest.push(listing[i].path@)[rest.len() as int] == listing[i].path@);
    } else {
        lemma_candidates_are_complete(listing, (n - 1) as nat, i);
        let k = choose|k: int| 0 <= k < rest.len() && rest[k] == listing[i].path@;
        if is_candidate(listing[n - 1]) {
            assert(rest.push(listing[n - 1].path@)[k] == listing[i].path@);
        }
    }
}

} // verus!
