//! The routing index: which plugin name is mounted at which prefix.
//!
//! Prefixes are kept in a `path_tree::PathTree`. The tree reads the characters
//! `:`, `+`, `*` and `\` in what is put into it as the marks of a pattern, so
//! only prefixes that hold none of them go there, each behind one slash; the
//! rest are kept in a table beside the tree.

use crate::table::Table;
use path_tree::PathTree;
use vstd::prelude::*;

verus! {

/// `path_tree::PathTree`, a radix tree of path patterns. Nothing inside it is
/// visible here; what it holds is spoken of through [`tree_map`].
#[verifier::external_type_specification]
#[verifier::external_body]
#[verifier::reject_recursive_types(T)]
pub struct ExPathTree<T>(PathTree<T>);

/// What a tree holds: the value that stands under each pattern.
pub uninterp spec fn tree_map(tree: PathTree<String>) -> Map<Seq<char>, Seq<char>>;

/// Whether the tree would read `c` as the mark of a pattern.
pub open spec fn is_mark(c: char) -> bool {
    c == ':' || c == '+' || c == '*' || c == '\\'
}

/// A text that holds no mark of a pattern.
pub open spec fn is_plain(s: Seq<char>) -> bool {
    forall|i: int| 0 <= i < s.len() ==> !is_mark(#[trigger] s[i])
}

/// `s` behind one slash.
pub open spec fn slashed(s: Seq<char>) -> Seq<char> {
    seq!['/'] + s
}

/// A pattern that the tree takes letter by letter: it begins with a slash
/// and holds no mark.
pub open spec fn is_literal(pattern: Seq<char>) -> bool {
    pattern.len() > 0 && pattern[0] == '/' && is_plain(pattern)
}

/// Every pattern of `routes` is literal.
pub open spec fn all_literal(routes: Map<Seq<char>, Seq<char>>) -> bool {
    forall|pattern: Seq<char>| #[trigger] routes.contains_key(pattern) ==> is_literal(pattern)
}

/// The map without routes.
pub open spec fn no_routes() -> Map<Seq<char>, Seq<char>> {
    Map::empty()
}

/// `PathTree::new`: the new tree holds nothing.
#[verifier::external_body]
fn tree_new() -> (tree: PathTree<String>)
    ensures
        tree_map(tree) == no_routes(),
{
    PathTree::new()
}

/// `PathTree::insert` of a literal pattern: the value stands under the
/// pattern afterwards, in place of a value that stood there, and nothing
/// else changes. The number that the tree gives the route is dropped.
#[verifier::external_body]
fn tree_insert(tree: &mut PathTree<String>, pattern: &str, value: &str)
    requires
        pattern@.len() > 0,
        pattern@[0] == '/',
        is_plain(pattern@),
    ensures
        tree_map(*final(tree)) == tree_map(*old(tree)).insert(pattern@, value@),
{
    let _ = tree.insert(pattern, value.to_string());
}

/// `PathTree::find` on a tree of literal patterns. Such a tree holds no
/// parameter and is searched byte by byte, so it finds a path exactly when
/// that path is one of its patterns, and returns the value under it. The
/// parameters that `find` returns beside the value are dropped.
#[verifier::external_body]
fn tree_find<'a>(tree: &'a PathTree<String>, path: &str) -> (found: Option<&'a str>)
    requires
        all_literal(tree_map(*tree)),
    ensures
        match found {
            Some(value) => tree_map(*tree).contains_key(path@) && tree_map(*tree)[path@]
                == value@,
            None => !tree_map(*tree).contains_key(path@),
        },
{
    tree.find(path).map(|(value, _)| value.as_str())
}

/// Whether `s` holds no mark of a pattern.
pub fn plain(s: &str) -> (r: bool)
    ensures
        r == is_plain(s@),
{
    let n: usize = s.unicode_len();
    let mut i: usize = 0;
    while i < n
        invariant
            n == s@.len(),
            i <= n,
            forall|k: int| 0 <= k < i ==> !is_mark(#[trigger] s@[k]),
        decreases n - i,
    {
        let c = s.get_char(i);
        if c == ':' || c == '+' || c == '*' || c == '\\' {
            return false;
        }
        i = i + 1;
    }
    true
}

/// The index from mount prefix to plugin name.
#[derive(Debug)]
pub struct RouteIndex {
    tree: PathTree<String>,
    marked: Table<String>,
}

impl RouteIndex {
    /// The tree holds literal patterns only.
    #[verifier::type_invariant]
    pub closed spec fn well_formed(&self) -> bool {
        all_literal(tree_map(self.tree))
    }

    /// Whether a name is mounted at `prefix`.
    pub closed spec fn has(&self, prefix: Seq<char>) -> bool {
        if is_plain(prefix) {
            tree_map(self.tree).contains_key(slashed(prefix))
        } else {
            self.marked@.contains_key(prefix)
        }
    }

    /// The name mounted at `prefix`, where there is one.
    pub closed spec fn name_at(&self, prefix: Seq<char>) -> Seq<char> {
        if is_plain(prefix) {
            tree_map(self.tree)[slashed(prefix)]
        } else {
            self.marked@[prefix]@
        }
    }

    /// The index as a map from prefix to name.
    pub open spec fn view(&self) -> Map<Seq<char>, Seq<char>> {
        Map::new(|p: Seq<char>| self.has(p), |p: Seq<char>| self.name_at(p))
    }

    /// An index that holds nothing.
    pub fn new() -> (r: RouteIndex)
        ensures
            r@ == Map::<Seq<char>, Seq<char>>::empty(),
    {
        let r = RouteIndex { tree: tree_new(), marked: Table::new() };
        assert(r@ =~= Map::<Seq<char>, Seq<char>>::empty());
        r
    }

    /// The name mounted at `prefix`, if there is one.
    pub fn get(&self, prefix: &str) -> (r: Option<&str>)
        ensures
            match r {
                Some(name) => self@.contains_key(prefix@) && self@[prefix@] == name@,
                None => !self@.contains_key(prefix@),
            },
    {
        proof {
            use_type_invariant(self);
        }
        if plain(prefix) {
            proof {
                reveal_strlit("/");
                assert("/"@ =~= seq!['/']);
            }
            let key = String::from_str("/").concat(prefix);
            tree_find(&self.tree, key.as_str())
        } else {
            match self.marked.get(prefix) {
                Some(name) => Some(name.as_str()),
                None => None,
            }
        }
    }

    /// Mounts `name` at `prefix`, in place of any name that was mounted there.
    pub fn insert(&mut self, prefix: &str, name: &str)
        ensures
            final(self)@ == old(self)@.insert(prefix@, name@),
    {
        proof {
            use_type_invariant(&*self);
        }
        let ghost before = *self;
        let mut taken = RouteIndex::new();
        std::mem::swap(self, &mut taken);
        let RouteIndex { tree: mut tree, marked: mut marked } = taken;
        if plain(prefix) {
            proof {
                reveal_strlit("/");
                assert("/"@ =~= seq!['/']);
            }
            let key = String::from_str("/").concat(prefix);
            proof {
                assert(slashed(prefix@)[0] == '/');
                assert forall|i: int| 0 <= i < slashed(prefix@).len() implies !is_mark(
                    #[trigger] slashed(prefix@)[i],
                ) by {
                    if i > 0 {
                        assert(slashed(prefix@)[i] == prefix@[i - 1]);
                    }
                }
            }
            tree_insert(&mut tree, key.as_str(), name);
        } else {
            marked.insert(prefix, String::from_str(name));
        }
        *self = RouteIndex { tree, marked };
        proof {
            let after = *self;
            assert forall|p: Seq<char>| #![auto] after.has(p) <==> (p == prefix@ || before.has(p)) by {
                lemma_slashed_apart(p, prefix@);
            }
            assert forall|p: Seq<char>| after.has(p) implies #[trigger] after.name_at(p)
                == before@.insert(prefix@, name@)[p] by {
                lemma_slashed_apart(p, prefix@);
            }
            assert(after@ =~= before@.insert(prefix@, name@));
        }
    }
}

/// Two texts that differ still differ behind a slash.
pub proof fn lemma_slashed_apart(a: Seq<char>, b: Seq<char>)
    ensures
        slashed(a) == slashed(b) ==> a == b,
{
    if slashed(a) == slashed(b) {
        assert(slashed(a).skip(1) =~= a);
        assert(slashed(b).skip(1) =~= b);
    }
}

} // verus!
