//! The rule by which input paths are resolved against the project's base directory, without
//! any I/O: absolute paths are kept, relative ones get the base directory in front, and the
//! result is normalised lexically.

use vstd::prelude::*;
use vstd::string::*;
use crate::project::path::{
    ComponentView, ProjectPath, law_components_idempotent, render_components, spec_components,
    spec_is_absolute,
};
use crate::strs::{chars_of, to_owned_string};

verus! {

/// `path` joined onto `base` as `PathBuf::join` does: an absolute `path` replaces `base`, an
/// empty `base` leaves `path` as it is, and otherwise a `/` separates them unless `base`
/// already ends with one.
pub open spec fn spec_join(base: Seq<char>, path: Seq<char>) -> Seq<char> {
    if spec_is_absolute(path) || base.len() == 0 {
        path
    } else if base.last() == '/' {
        base + path
    } else {
        base + seq!['/'] + path
    }
}

/// `path` joined onto `base` (see [`spec_join`]).
pub fn join_path(base: &str, path: &str) -> (r: String)
    ensures
        r@ == spec_join(base@, path@),
{
    let b = chars_of(base);
    let p = chars_of(path);
    if (p.len() > 0 && p[0] == '/') || b.len() == 0 {
        return to_owned_string(path);
    }
    let mut out = to_owned_string(base);
    if b[b.len() - 1] != '/' {
        let slash = "/";
        proof {
            reveal_strlit("/");
        }
        out.append(slash);
    }
    out.append(path);
    out
}

/// Resolves input paths against a base directory.
#[derive(Debug, Clone)]
pub struct PathResolver {
    base_dir: String,
}

impl PathResolver {
    /// The base directory.
    pub closed spec fn spec_base_dir(&self) -> Seq<char> {
        self.base_dir@
    }

    /// A resolver for `base_dir` (an empty one leaves relative paths relative).
    pub fn new(base_dir: &str) -> (r: PathResolver)
        ensures
            r.spec_base_dir() == base_dir@,
    {
        PathResolver { base_dir: to_owned_string(base_dir) }
    }

    /// The base directory.
    pub fn base_dir(&self) -> (r: &str)
        ensures
            r@ == self.spec_base_dir(),
    {
        self.base_dir.as_str()
    }

    /// The normalised project path of `path`: absolute paths as they are, relative ones under
    /// the base directory.
    pub fn resolve(&self, path: &str) -> (r: ProjectPath)
        ensures
            r@ == spec_components(spec_join(self.spec_base_dir(), path@)),
    {
        let joined = join_path(self.base_dir.as_str(), path);
        ProjectPath::new(joined.as_str())
    }
}

/// Resolution is idempotent on resolved absolute paths: resolving the text of a path that
/// resolved to an absolute one gives that path again, whatever the base directory.
pub proof fn law_resolve_idempotent(base: Seq<char>, path: Seq<char>)
    requires
        spec_components(spec_join(base, path)).len() > 0,
        spec_components(spec_join(base, path))[0] == ComponentView::RootDir,
    ensures
        spec_components(spec_join(base, render_components(spec_components(spec_join(base, path)))))
            == spec_components(spec_join(base, path)),
{
    let p = spec_components(spec_join(base, path));
    let text = render_components(p);
    assert(text[0] == '/');
    assert(spec_is_absolute(text));
    law_components_idempotent(spec_join(base, path));
}

} // verus!
