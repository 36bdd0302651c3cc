//! The destination store: where a demo lies on disk and under which URL it
//! is served.

use crate::name::{last_segment, segment_start, slash_free};
use vstd::prelude::*;

verus! {

/// A directory that holds the migrated demos, and the URL prefix under which
/// its files are served. Both are fixed when the store is made.
pub struct Store {
    root: String,
    base_url: String,
}

/// What a store is made of.
pub struct StoreView {
    pub root: Seq<char>,
    pub base_url: Seq<char>,
}

impl View for Store {
    type V = StoreView;

    closed spec fn view(&self) -> StoreView {
        StoreView { root: self.root@, base_url: self.base_url@ }
    }
}

/// `prefix`, one `/`, and `name`.
pub open spec fn joined_by_slash(prefix: Seq<char>, name: Seq<char>) -> Seq<char> {
    prefix + seq!['/'] + name
}

impl StoreView {
    /// The path of the file that holds the demo `name`.
    pub open spec fn path_of(self, name: Seq<char>) -> Seq<char> {
        joined_by_slash(self.root, name)
    }

    /// The URL under which the demo `name` is served.
    pub open spec fn url_of(self, name: Seq<char>) -> Seq<char> {
        joined_by_slash(self.base_url, name)
    }
}

fn join_by_slash(prefix: &str, name: &str) -> (joined: String)
    ensures
        joined@ == joined_by_slash(prefix@, name@),
{
    proof {
        reveal_strlit("/");
        assert("/"@ =~= seq!['/']);
    }
    String::from_str(prefix).concat("/").concat(name)
}

impl Store {
    /// A store rooted at the directory `root` and served under `base_url`.
    pub fn new(root: String, base_url: &str) -> (store: Self)
        ensures
            store@.root == root@,
            store@.base_url == base_url@,
    {
        Store { root, base_url: String::from_str(base_url) }
    }

    /// The path of the file that holds the demo `name`.
    pub fn generate_path(&self, name: &str) -> (path: String)
        ensures
            path@ == self@.path_of(name@),
    {
        join_by_slash(self.root.as_str(), name)
    }

    /// The URL under which the demo `name` is served.
    pub fn generate_url(&self, name: &str) -> (url: String)
        ensures
            url@ == self@.url_of(name@),
    {
        join_by_slash(self.base_url.as_str(), name)
    }
}

/// Two names that are joined to one prefix give the same text only if they
/// are the same name.
pub proof fn lemma_join_injective(prefix: Seq<char>, a: Seq<char>, b: Seq<char>)
    requires
        joined_by_slash(prefix, a) == joined_by_slash(prefix, b),
    ensures
        a == b,
{
    let ja = joined_by_slash(prefix, a);
    let jb = joined_by_slash(prefix, b);
    let skip = prefix.len() + 1;
    assert(a =~= ja.subrange(skip as int, ja.len() as int));
    assert(b =~= jb.subrange(skip as int, jb.len() as int));
}

/// No two names share a path, and no two names share a URL.
pub proof fn lemma_store_injective(store: StoreView, a: Seq<char>, b: Seq<char>)
    ensures
        store.path_of(a) == store.path_of(b) ==> a == b,
        store.url_of(a) == store.url_of(b) ==> a == b,
{
    if store.path_of(a) == store.path_of(b) {
        lemma_join_injective(store.root, a, b);
    }
    if store.url_of(a) == store.url_of(b) {
        lemma_join_injective(store.base_url, a, b);
    }
}

/// The last segment of a prefix, a `/` and a name without `/` is that name.
pub proof fn lemma_last_segment_of_join(prefix: Seq<char>, name: Seq<char>)
    requires
        slash_free(name),
    ensures
        last_segment(joined_by_slash(prefix, name)) == name,
{
    let joined = joined_by_slash(prefix, name);
    lemma_start_of_join(prefix, name);
    assert(joined.subrange(prefix.len() as int + 1, joined.len() as int) =~= name);
}

proof fn lemma_start_of_join(prefix: Seq<char>, name: Seq<char>)
    requires
        slash_free(name),
    ensures
        segment_start(joined_by_slash(prefix, name)) == prefix.len() + 1,
    decreases name.len(),
{
    let joined = joined_by_slash(prefix, name);
    if name.len() == 0 {
        assert(joined.last() == '/');
    } else {
        assert(joined.last() == name.last());
        assert(joined.drop_last() =~= joined_by_slash(prefix, name.drop_last()));
        lemma_start_of_join(prefix, name.drop_last());
    }
}

/// Path and URL of a demo agree on its name: the name of a demo is found
/// again as the last segment of either.
pub proof fn lemma_store_agrees_on_name(store: StoreView, name: Seq<char>)
    requires
        slash_free(name),
    ensures
        last_segment(store.path_of(name)) == name,
        last_segment(store.url_of(name)) == name,
{
    lemma_last_segment_of_join(store.root, name);
    lemma_last_segment_of_join(store.base_url, name);
}

} // verus!
