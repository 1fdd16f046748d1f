//! Where the two persisted documents live inside a configuration directory.
use vstd::prelude::*;
use vstd::string::*;

verus! {

/// File name of the subscription list inside the configuration directory.
pub const CONFIG_FILE: &'static str = "config.toml";

/// File name of the feed cache inside the configuration directory.
pub const FEEDS_FILE: &'static str = "feeds.toml";

/// The separator put between a directory and a file name.
pub const SEPARATOR: char = '/';

/// The file `name` inside the directory `base`: `base` and `name` with one
/// separator between them, unless `base` is empty or already ends with one.
pub open spec fn joined(base: Seq<char>, name: Seq<char>) -> Seq<char> {
    if base.len() == 0 || base.last() == SEPARATOR {
        base + name
    } else {
        base + seq![SEPARATOR] + name
    }
}

/// The file `name` inside the directory `base`.
fn join_path(base: &str, name: &str) -> (r: String)
    ensures
        r@ == joined(base@, name@),
{
    let n: usize = base.unicode_len();
    let mut r = String::from_str(base);
    if n > 0 && base.get_char(n - 1) != SEPARATOR {
        r.append("/");
        proof {
            reveal_strlit("/");
        }
    }
    r.append(name);
    proof {
        assert(base@.len() > 0 ==> base@.last() == base@[n - 1]);
    }
    r
}

/// Path of the subscription list inside the directory `base_path`.
pub fn get_config_path(base_path: &str) -> (r: String)
    ensures
        r@ == joined(base_path@, CONFIG_FILE@),
{
    join_path(base_path, CONFIG_FILE)
}

/// Path of the feed cache inside the directory `base_path`.
pub fn get_feeds_path(base_path: &str) -> (r: String)
    ensures
        r@ == joined(base_path@, FEEDS_FILE@),
{
    join_path(base_path, FEEDS_FILE)
}

/// In any directory the subscription list and the feed cache have different paths.
pub proof fn lemma_document_paths_differ(base: Seq<char>)
    ensures
        joined(base, CONFIG_FILE@) != joined(base, FEEDS_FILE@),
{
    reveal_strlit("config.toml");
    reveal_strlit("feeds.toml");
    assert(joined(base, CONFIG_FILE@).len() != joined(base, FEEDS_FILE@).len());
}

} // verus!
