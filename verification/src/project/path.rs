//! Project paths, normalised lexically: `.` components and redundant separators are folded,
//! `..` is kept, and nothing is looked up on disk.

use vstd::prelude::*;
use vstd::string::*;
use crate::strs::{chars_of, str_eq, string_push};

verus! {

/// One component of a path.
#[derive(Debug, Clone, PartialEq, Eq, PartialOrd, Ord, Hash)]
pub enum PathComponent {
    /// The root `/` of an absolute path.
    RootDir,
    /// A leading `.` of a relative path.
    CurDir,
    /// `..`
    ParentDir,
    /// A file or directory name.
    Normal(String),
}

/// The mathematical value of a path component.
pub ghost enum ComponentView {
    RootDir,
    CurDir,
    ParentDir,
    Normal(Seq<char>),
}

impl View for PathComponent {
    type V = ComponentView;

    open spec fn view(&self) -> ComponentView {
        match self {
            PathComponent::RootDir => ComponentView::RootDir,
            PathComponent::CurDir => ComponentView::CurDir,
            PathComponent::ParentDir => ComponentView::ParentDir,
            PathComponent::Normal(s) => ComponentView::Normal(s@),
        }
    }
}

/// The parts of `s` between its `/` separators (empty parts kept).
pub open spec fn char_segments(s: Seq<char>) -> Seq<Seq<char>>
    decreases s.len(),
{
    if s.len() == 0 {
        seq![Seq::empty()]
    } else {
        let prev = char_segments(s.drop_last());
        if s.last() == '/' {
            prev.push(Seq::empty())
        } else {
            prev.update(prev.len() - 1, prev.last().push(s.last()))
        }
    }
}

/// A path text always has at least one part.
pub proof fn lemma_char_segments_nonempty(s: Seq<char>)
    ensures
        char_segments(s).len() >= 1,
    decreases s.len(),
{
    if s.len() > 0 {
        lemma_char_segments_nonempty(s.drop_last());
    }
}

/// `seg` is `.`.
pub open spec fn is_dot(seg: Seq<char>) -> bool {
    seg.len() == 1 && seg[0] == '.'
}

/// `seg` is `..`.
pub open spec fn is_dot_dot(seg: Seq<char>) -> bool {
    seg.len() == 2 && seg[0] == '.' && seg[1] == '.'
}

/// The component a part between separators stands for: none for an empty part or `.`.
pub open spec fn segment_component(seg: Seq<char>) -> Seq<ComponentView> {
    if seg.len() == 0 || is_dot(seg) {
        Seq::empty()
    } else if is_dot_dot(seg) {
        seq![ComponentView::ParentDir]
    } else {
        seq![ComponentView::Normal(seg)]
    }
}

/// The components that a sequence of parts stands for, in order.
pub open spec fn segments_components(segs: Seq<Seq<char>>) -> Seq<ComponentView>
    decreases segs.len(),
{
    if segs.len() == 0 {
        Seq::empty()
    } else {
        segments_components(segs.drop_last()) + segment_component(segs.last())
    }
}

/// `s` is absolute: it starts with `/`.
pub open spec fn spec_is_absolute(s: Seq<char>) -> bool {
    s.len() > 0 && s[0] == '/'
}

/// A relative path that starts with the part `.` keeps it as its first component.
pub open spec fn starts_with_cur_dir(s: Seq<char>) -> bool {
    &&& !spec_is_absolute(s)
    &&& s.len() >= 1
    &&& s[0] == '.'
    &&& (s.len() == 1 || s[1] == '/')
}

/// The normalised components of the path text `s`: the root of an absolute path, a leading
/// `.` of a relative one, then one component per non-empty part other than `.`.
pub open spec fn spec_components(s: Seq<char>) -> Seq<ComponentView> {
    (if spec_is_absolute(s) {
        seq![ComponentView::RootDir]
    } else if starts_with_cur_dir(s) {
        seq![ComponentView::CurDir]
    } else {
        Seq::empty()
    }) + segments_components(char_segments(s))
}

/// The text of one component.
pub open spec fn component_text(c: ComponentView) -> Seq<char> {
    match c {
        ComponentView::RootDir => seq!['/'],
        ComponentView::CurDir => seq!['.'],
        ComponentView::ParentDir => seq!['.', '.'],
        ComponentView::Normal(n) => n,
    }
}

/// The texts of components joined by `/`.
pub open spec fn join_components(cs: Seq<ComponentView>) -> Seq<char>
    decreases cs.len(),
{
    if cs.len() == 0 {
        Seq::empty()
    } else if cs.len() == 1 {
        component_text(cs[0])
    } else {
        join_components(cs.drop_last()) + seq!['/'] + component_text(cs.last())
    }
}

/// The text of a normalised path: `/` then the other components joined by `/` for an absolute
/// path, the components joined by `/` otherwise.
pub open spec fn render_components(cs: Seq<ComponentView>) -> Seq<char> {
    if cs.len() > 0 && cs[0] == ComponentView::RootDir {
        seq!['/'] + join_components(cs.drop_first())
    } else {
        join_components(cs)
    }
}

/// A path inside the project, held as its normalised components. Paths compare component by
/// component.
#[derive(Debug, Clone, PartialEq, Eq, Hash, PartialOrd, Ord)]
pub struct ProjectPath {
    components: Vec<PathComponent>,
}

impl View for ProjectPath {
    type V = Seq<ComponentView>;

    closed spec fn view(&self) -> Seq<ComponentView> {
        self.components@.map_values(|c: PathComponent| c@)
    }
}

/// The component for the part `seg` (whose text is `text`), if it stands for one.
fn push_segment(out: &mut Vec<PathComponent>, seg: &String)
    ensures
        final(out)@.map_values(|c: PathComponent| c@) == old(out)@.map_values(|c: PathComponent| c@)
            + segment_component(seg@),
{
    let ghost before = out@.map_values(|c: PathComponent| c@);
    let dot = ".";
    let dot_dot = "..";
    proof {
        reveal_strlit(".");
        reveal_strlit("..");
        assert(dot@ =~= seq!['.']);
        assert(dot_dot@ =~= seq!['.', '.']);
        assert(is_dot(seg@) <==> seg@ =~= seq!['.']);
        assert(is_dot_dot(seg@) <==> seg@ =~= seq!['.', '.']);
    }
    if seg.as_str().is_empty() || str_eq(seg.as_str(), dot) {
        assert(out@.map_values(|c: PathComponent| c@) =~= before + Seq::<ComponentView>::empty());
        return;
    }
    if str_eq(seg.as_str(), dot_dot) {
        out.push(PathComponent::ParentDir);
    } else {
        out.push(PathComponent::Normal(seg.clone()));
    }
    assert(out@.map_values(|c: PathComponent| c@) =~= before + segment_component(seg@));
}

impl ProjectPath {
    /// The normalised path of the text `path`: `.` parts (but a leading one) and redundant
    /// separators are folded, `..` is kept.
    pub fn new(path: &str) -> (p: ProjectPath)
        ensures
            p@ == spec_components(path@),
    {
        let cs = chars_of(path);
        let ghost s = path@;
        let mut out: Vec<PathComponent> = Vec::new();
        let absolute = cs.len() > 0 && cs[0] == '/';
        if absolute {
            out.push(PathComponent::RootDir);
        } else if cs.len() >= 1 && cs[0] == '.' && (cs.len() == 1 || cs[1] == '/') {
            out.push(PathComponent::CurDir);
        }
        let ghost head = out@.map_values(|c: PathComponent| c@);
        proof {
            assert(head =~= (if spec_is_absolute(s) {
                seq![ComponentView::RootDir]
            } else if starts_with_cur_dir(s) {
                seq![ComponentView::CurDir]
            } else {
                Seq::empty()
            }));
            assert(s.subrange(0, 0) =~= Seq::<char>::empty());
            assert(char_segments(Seq::<char>::empty()).drop_last() =~= Seq::<Seq<char>>::empty());
        }
        let mut cur = String::new();
        let mut i: usize = 0;
        while i < cs.len()
            invariant
                cs@ == s,
                0 <= i <= s.len(),
                cur@ == char_segments(s.subrange(0, i as int)).last(),
                out@.map_values(|c: PathComponent| c@) == head + segments_components(
                    char_segments(s.subrange(0, i as int)).drop_last(),
                ),
            decreases s.len() - i,
        {
            let ghost pre = s.subrange(0, i as int);
            let ghost segs = char_segments(pre);
            proof {
                lemma_char_segments_nonempty(pre);
                assert(s.subrange(0, i + 1).drop_last() =~= pre);
                assert(s.subrange(0, i + 1).last() == s[i as int]);
            }
            let c = cs[i];
            if c == '/' {
                let ghost before = out@.map_values(|c: PathComponent| c@);
                push_segment(&mut out, &cur);
                cur = String::new();
                proof {
                    let segs2 = char_segments(s.subrange(0, i + 1));
                    assert(segs2 == segs.push(Seq::empty()));
                    assert(segs2.drop_last() =~= segs);
                    assert(segs.drop_last().push(segs.last()) =~= segs);
                    assert(segments_components(segs) == segments_components(segs.drop_last())
                        + segment_component(segs.last()));
                    assert(out@.map_values(|c: PathComponent| c@) =~= head + segments_components(segs));
                }
            } else {
                string_push(&mut cur, c);
                proof {
                    let segs2 = char_segments(s.subrange(0, i + 1));
                    assert(segs2 == segs.update(segs.len() - 1, segs.last().push(c)));
                    assert(segs2.drop_last() =~= segs.drop_last());
                }
            }
            i = i + 1;
        }
        proof {
            assert(s.subrange(0, i as int) =~= s);
        }
        let ghost segs = char_segments(s);
        proof {
            lemma_char_segments_nonempty(s);
        }
        push_segment(&mut out, &cur);
        proof {
            assert(segs.drop_last().push(segs.last()) =~= segs);
            assert(segments_components(segs) == segments_components(segs.drop_last())
                + segment_component(segs.last()));
            assert(out@.map_values(|c: PathComponent| c@) =~= head + segments_components(segs));
        }
        ProjectPath { components: out }
    }

    /// A copy of the path, with the same components.
    pub fn duplicate(&self) -> (p: ProjectPath)
        ensures
            p@ == self@,
    {
        let mut out: Vec<PathComponent> = Vec::new();
        let mut i: usize = 0;
        while i < self.components.len()
            invariant
                0 <= i <= self.components@.len(),
                out@.len() == i,
                forall|j: int| 0 <= j < i ==> (#[trigger] out@[j])@ == self.components@[j]@,
            decreases self.components@.len() - i,
        {
            let c = match &self.components[i] {
                PathComponent::RootDir => PathComponent::RootDir,
                PathComponent::CurDir => PathComponent::CurDir,
                PathComponent::ParentDir => PathComponent::ParentDir,
                PathComponent::Normal(s) => PathComponent::Normal(s.clone()),
            };
            assert(c@ == self.components@[i as int]@);
            out.push(c);
            i = i + 1;
        }
        let p = ProjectPath { components: out };
        assert(p@ =~= self@);
        p
    }

    /// Whether the path is absolute.
    pub fn is_absolute(&self) -> (b: bool)
        ensures
            b == (self@.len() > 0 && self@[0] == ComponentView::RootDir),
    {
        self.components.len() > 0 && match &self.components[0] {
            PathComponent::RootDir => true,
            _ => false,
        }
    }

    /// The components of the path.
    pub fn components(&self) -> (r: &Vec<PathComponent>)
        ensures
            r@.map_values(|c: PathComponent| c@) == self@,
    {
        &self.components
    }

    /// Whether two paths have the same components.
    pub fn same_as(&self, other: &ProjectPath) -> (b: bool)
        ensures
            b == (self@ == other@),
    {
        let a = &self.components;
        let b = &other.components;
        let ghost va = a@.map_values(|c: PathComponent| c@);
        let ghost vb = b@.map_values(|c: PathComponent| c@);
        if a.len() != b.len() {
            assert(va.len() != vb.len());
            assert(self@ == va);
            return false;
        }
        assert(self@ == va);
        assert(other@ == vb);
        let mut i: usize = 0;
        while i < a.len()
            invariant
                a@.len() == b@.len(),
                va == a@.map_values(|c: PathComponent| c@),
                vb == b@.map_values(|c: PathComponent| c@),
                self@ == va,
                other@ == vb,
                0 <= i <= a@.len(),
                forall|j: int| 0 <= j < i ==> va[j] == vb[j],
            decreases a@.len() - i,
        {
            let same = match (&a[i], &b[i]) {
                (PathComponent::RootDir, PathComponent::RootDir) => true,
                (PathComponent::CurDir, PathComponent::CurDir) => true,
                (PathComponent::ParentDir, PathComponent::ParentDir) => true,
                (PathComponent::Normal(x), PathComponent::Normal(y)) => str_eq(x.as_str(), y.as_str()),
                _ => false,
            };
            if !same {
                assert(va[i as int] != vb[i as int]);
                assert(self@ == va);
                assert(other@ == vb);
                return false;
            }
            i = i + 1;
        }
        assert(va =~= vb);
        assert(self@ == va);
        assert(other@ == vb);
        true
    }

    /// The text of the path.
    pub fn to_path_string(&self) -> (s: String)
        ensures
            s@ == render_components(self@),
    {
        let ghost v = self@;
        assert(v == self.components@.map_values(|c: PathComponent| c@));
        let slash = "/";
        let dot = ".";
        let dot_dot = "..";
        proof {
            reveal_strlit("/");
            reveal_strlit(".");
            reveal_strlit("..");
            assert(slash@ =~= seq!['/']);
            assert(dot@ =~= seq!['.']);
            assert(dot_dot@ =~= seq!['.', '.']);
        }
        let mut out = String::new();
        let n = self.components.len();
        let rooted = self.is_absolute();
        let start: usize = if rooted { 1 } else { 0 };
        let ghost rest = if rooted { v.drop_first() } else { v };
        if rooted {
            out.append(slash);
        }
        let ghost prefix: Seq<char> = if rooted { seq!['/'] } else { Seq::empty() };
        proof {
            assert(out@ =~= prefix + join_components(rest.subrange(0, 0)));
        }
        let mut i: usize = start;
        while i < n
            invariant
                slash@ == seq!['/'],
                dot@ == seq!['.'],
                dot_dot@ == seq!['.', '.'],
                v == self@,
                v == self.components@.map_values(|c: PathComponent| c@),
                n == v.len(),
                start <= i <= n,
                rest.len() == n - start,
                forall|j: int| 0 <= j < rest.len() ==> rest[j] == v[j + start],
                out@ == prefix + join_components(rest.subrange(0, i - start)),
            decreases n - i,
        {
            let ghost k = (i - start) as int;
            if i > start {
                out.append(slash);
            }
            let piece: &str = match &self.components[i] {
                PathComponent::RootDir => slash,
                PathComponent::CurDir => dot,
                PathComponent::ParentDir => dot_dot,
                PathComponent::Normal(name) => name.as_str(),
            };
            assert(v[i as int] == self.components@[i as int]@);
            assert(rest[k] == v[k + start]);
            assert(piece@ == component_text(rest[k]));
            out.append(piece);
            proof {
                let r1 = rest.subrange(0, k + 1);
                assert(r1.drop_last() =~= rest.subrange(0, k));
                assert(r1.last() == rest[k]);
                if k == 0 {
                    assert(join_components(rest.subrange(0, k)) =~= Seq::<char>::empty());
                    assert(join_components(r1) == component_text(r1[0]));
                }
                assert(out@ =~= prefix + join_components(r1));
            }
            i = i + 1;
        }
        proof {
            assert(rest.subrange(0, n - start) =~= rest);
        }
        out
    }
}

/// A name a normalised path can hold: not empty, without `/`, and neither `.` nor `..`.
pub open spec fn valid_name(n: Seq<char>) -> bool {
    n.len() > 0 && !n.contains('/') && !is_dot(n) && !is_dot_dot(n)
}

/// A component after the head of a normalised path: `..` or a valid name.
pub open spec fn body_component(c: ComponentView) -> bool {
    c == ComponentView::ParentDir || (c is Normal && valid_name(c->Normal_0))
}

/// The components of a normalised path: an optional head (the root, or a leading `.`), then
/// only `..` and valid names.
pub open spec fn normalized(cs: Seq<ComponentView>) -> bool {
    let start: int = if cs.len() > 0 && (cs[0] == ComponentView::RootDir || cs[0] == ComponentView::CurDir) {
        1
    } else {
        0
    };
    forall|i: int| start <= i < cs.len() ==> body_component(#[trigger] cs[i])
}

proof fn lemma_segments_have_no_slash(s: Seq<char>)
    ensures
        forall|i: int| 0 <= i < char_segments(s).len() ==> !(#[trigger] char_segments(s)[i]).contains('/'),
    decreases s.len(),
{
    lemma_char_segments_nonempty(s);
    if s.len() > 0 {
        lemma_segments_have_no_slash(s.drop_last());
        let prev = char_segments(s.drop_last());
        lemma_char_segments_nonempty(s.drop_last());
        if s.last() != '/' {
            assert forall|i: int| 0 <= i < char_segments(s).len() implies !(#[trigger] char_segments(s)[i]).contains('/') by {
                if i == prev.len() - 1 {
                    let seg = prev.last().push(s.last());
                    assert(char_segments(s)[i] == seg);
                    if seg.contains('/') {
                        let k = choose|k: int| 0 <= k < seg.len() && seg[k] == '/';
                        if k < prev.last().len() {
                            assert(prev.last()[k] == '/');
                            assert(prev.last().contains('/'));
                        }
                    }
                } else {
                    assert(char_segments(s)[i] == prev[i]);
                }
            }
        } else {
            assert forall|i: int| 0 <= i < char_segments(s).len() implies !(#[trigger] char_segments(s)[i]).contains('/') by {
                if i < prev.len() {
                    assert(char_segments(s)[i] == prev[i]);
                } else {
                    assert(char_segments(s)[i] =~= Seq::<char>::empty());
                }
            }
        }
    }
}

proof fn lemma_segments_components_append(a: Seq<Seq<char>>, b: Seq<Seq<char>>)
    ensures
        segments_components(a + b) == segments_components(a) + segments_components(b),
    decreases b.len(),
{
    if b.len() == 0 {
        assert(a + b =~= a);
        assert(segments_components(b) =~= Seq::<ComponentView>::empty());
        assert(segments_components(a) + segments_components(b) =~= segments_components(a));
    } else {
        lemma_segments_components_append(a, b.drop_last());
        assert((a + b).drop_last() =~= a + b.drop_last());
        assert((a + b).last() == b.last());
        assert(segments_components(a + b) =~= segments_components(a) + segments_components(b));
    }
}

proof fn lemma_segments_components_body(segs: Seq<Seq<char>>)
    requires
        forall|i: int| 0 <= i < segs.len() ==> !(#[trigger] segs[i]).contains('/'),
    ensures
        forall|i: int| 0 <= i < segments_components(segs).len() ==> body_component(#[trigger] segments_components(segs)[i]),
    decreases segs.len(),
{
    if segs.len() > 0 {
        lemma_segments_components_body(segs.drop_last());
        let prev = segments_components(segs.drop_last());
        let seg = segs.last();
        assert(!seg.contains('/'));
        assert forall|i: int| 0 <= i < segments_components(segs).len() implies body_component(#[trigger] segments_components(segs)[i]) by {
            if i < prev.len() {
                assert(segments_components(segs)[i] == prev[i]);
            } else {
                assert(segments_components(segs)[i] == segment_component(seg)[i - prev.len()]);
            }
        }
    }
}

/// The components of any path text are normalised.
pub proof fn lemma_components_normalized(s: Seq<char>)
    ensures
        normalized(spec_components(s)),
{
    lemma_segments_have_no_slash(s);
    lemma_segments_components_body(char_segments(s));
    let head: Seq<ComponentView> = if spec_is_absolute(s) {
        seq![ComponentView::RootDir]
    } else if starts_with_cur_dir(s) {
        seq![ComponentView::CurDir]
    } else {
        Seq::empty()
    };
    let body = segments_components(char_segments(s));
    let cs = spec_components(s);
    assert(cs == head + body);
    assert forall|i: int| (if cs.len() > 0 && (cs[0] == ComponentView::RootDir || cs[0] == ComponentView::CurDir) {
        1int
    } else {
        0int
    }) <= i < cs.len() implies body_component(#[trigger] cs[i]) by {
        if head.len() == 1 {
            assert(cs[i] == body[i - 1]);
        } else {
            assert(cs[i] == body[i]);
        }
    }
}

proof fn lemma_segments_components_single(x: Seq<char>)
    ensures
        segments_components(seq![x]) == segment_component(x),
{
    assert(seq![x].drop_last() =~= Seq::<Seq<char>>::empty());
    assert(seq![x].last() == x);
    assert(segments_components(Seq::<Seq<char>>::empty()) == Seq::<ComponentView>::empty());
    assert(Seq::<ComponentView>::empty() + segment_component(x) =~= segment_component(x));
}

proof fn lemma_segments_of_name(t: Seq<char>)
    requires
        !t.contains('/'),
    ensures
        char_segments(t) == seq![t],
    decreases t.len(),
{
    if t.len() == 0 {
        assert(t =~= Seq::<char>::empty());
        assert(char_segments(t) =~= seq![t]);
    } else {
        assert(!t.drop_last().contains('/')) by {
            if t.drop_last().contains('/') {
                let k = choose|k: int| 0 <= k < t.drop_last().len() && t.drop_last()[k] == '/';
                assert(t[k] == '/');
            }
        }
        lemma_segments_of_name(t.drop_last());
        assert(t.last() != '/') by {
            assert(t[t.len() - 1] == t.last());
        }
        let prev = char_segments(t.drop_last());
        assert(prev == seq![t.drop_last()]);
        assert(prev.len() - 1 == 0);
        assert(prev.last() == t.drop_last());
        assert(t.drop_last().push(t.last()) =~= t);
        assert(char_segments(t) == prev.update(0, t.drop_last().push(t.last())));
        assert(char_segments(t) =~= seq![t]);
    }
}

proof fn lemma_segments_split(x: Seq<char>, y: Seq<char>)
    ensures
        char_segments(x + seq!['/'] + y) == char_segments(x) + char_segments(y),
    decreases y.len(),
{
    lemma_char_segments_nonempty(y);
    lemma_char_segments_nonempty(x);
    if y.len() == 0 {
        let s = x + seq!['/'];
        assert(s.drop_last() =~= x);
        assert(s.last() == '/');
        assert(x + seq!['/'] + y =~= s);
        assert(char_segments(y) =~= seq![Seq::<char>::empty()]);
        assert(char_segments(s) == char_segments(x).push(Seq::empty()));
        assert(char_segments(s) =~= char_segments(x) + char_segments(y));
    } else {
        lemma_segments_split(x, y.drop_last());
        let s = x + seq!['/'] + y;
        assert(s.drop_last() =~= x + seq!['/'] + y.drop_last());
        assert(s.last() == y.last());
        let py = char_segments(y.drop_last());
        lemma_char_segments_nonempty(y.drop_last());
        let ps = char_segments(s.drop_last());
        assert(ps == char_segments(x) + py);
        if y.last() == '/' {
            assert(char_segments(y) == py.push(Seq::empty()));
            assert(char_segments(s) == ps.push(Seq::empty()));
            assert(char_segments(s) =~= char_segments(x) + char_segments(y));
        } else {
            assert(char_segments(y) == py.update(py.len() - 1, py.last().push(y.last())));
            assert(ps.last() == py.last());
            assert(char_segments(s) == ps.update(ps.len() - 1, ps.last().push(y.last())));
            assert(char_segments(s) =~= char_segments(x) + char_segments(y));
        }
    }
}

/// The texts of body components.
pub open spec fn component_texts(cs: Seq<ComponentView>) -> Seq<Seq<char>> {
    cs.map_values(|c: ComponentView| component_text(c))
}

proof fn lemma_join_segments(body: Seq<ComponentView>)
    requires
        body.len() > 0,
        forall|i: int| 0 <= i < body.len() ==> body_component(#[trigger] body[i]),
    ensures
        char_segments(join_components(body)) == component_texts(body),
        segments_components(component_texts(body)) == body,
    decreases body.len(),
{
    let t = component_text(body.last());
    assert(body_component(body[body.len() - 1]));
    assert(!t.contains('/')) by {
        if body.last() == ComponentView::ParentDir {
            if t.contains('/') {
                let k = choose|k: int| 0 <= k < t.len() && t[k] == '/';
                assert(t[k] == '.');
            }
        }
    }
    lemma_segments_of_name(t);
    assert(segment_component(t) == seq![body.last()]) by {
        if body.last() == ComponentView::ParentDir {
            assert(is_dot_dot(t));
        }
    }
    if body.len() == 1 {
        assert(join_components(body) == t);
        assert(component_texts(body) =~= seq![t]);
        lemma_segments_components_single(t);
        assert(segments_components(component_texts(body)) =~= body);
    } else {
        let rest = body.drop_last();
        assert forall|i: int| 0 <= i < rest.len() implies body_component(#[trigger] rest[i]) by {
            assert(rest[i] == body[i]);
        }
        lemma_join_segments(rest);
        lemma_segments_split(join_components(rest), t);
        assert(join_components(body) == join_components(rest) + seq!['/'] + t);
        assert(component_texts(body) =~= component_texts(rest).push(t));
        assert(char_segments(join_components(body)) =~= component_texts(body));
        assert(component_texts(body).drop_last() =~= component_texts(rest));
        assert(component_texts(body).last() == t);
        assert(segments_components(component_texts(body)) =~= body);
    }
}

proof fn lemma_join_cons(cs: Seq<ComponentView>)
    requires
        cs.len() >= 2,
    ensures
        join_components(cs) == component_text(cs[0]) + seq!['/'] + join_components(cs.drop_first()),
    decreases cs.len(),
{
    if cs.len() == 2 {
        assert(cs.drop_last() =~= seq![cs[0]]);
        assert(join_components(seq![cs[0]]) == component_text(cs[0]));
        assert(cs.drop_first() =~= seq![cs[1]]);
        assert(join_components(seq![cs[1]]) == component_text(cs[1]));
        assert(join_components(cs) == join_components(cs.drop_last()) + seq!['/'] + component_text(cs.last()));
        assert(cs.last() == cs[1]);
    } else {
        lemma_join_cons(cs.drop_last());
        let d = cs.drop_first();
        assert(cs.drop_last().drop_first() =~= d.drop_last());
        assert(d.last() == cs.last());
        assert(cs.drop_last()[0] == cs[0]);
        assert(join_components(d) == join_components(d.drop_last()) + seq!['/'] + component_text(d.last()));
        assert(join_components(cs) == join_components(cs.drop_last()) + seq!['/'] + component_text(cs.last()));
        assert(join_components(cs) =~= component_text(cs[0]) + seq!['/'] + join_components(d));
    }
}

/// Normalising the text of a normalised path gives the path back.
pub proof fn lemma_render_components(cs: Seq<ComponentView>)
    requires
        normalized(cs),
    ensures
        spec_components(render_components(cs)) == cs,
{
    let e = Seq::<char>::empty();
    lemma_segments_components_single(e);
    lemma_segments_components_single(seq!['.']);
    assert(char_segments(e) =~= seq![e]);
    assert(char_segments(seq!['.']) =~= seq![seq!['.']]) by {
        assert(seq!['.'].drop_last() =~= e);
        assert(seq![e].update(0, e.push('.')) =~= seq![seq!['.']]);
    }
    assert(is_dot(seq!['.']));
    if cs.len() == 0 {
        assert(render_components(cs) =~= e);
        assert(spec_components(e) =~= cs);
    } else if cs[0] == ComponentView::RootDir || cs[0] == ComponentView::CurDir {
        let body = cs.drop_first();
        assert forall|i: int| 0 <= i < body.len() implies body_component(#[trigger] body[i]) by {
            assert(body[i] == cs[i + 1]);
        }
        let lead: Seq<char> = if cs[0] == ComponentView::RootDir { e } else { seq!['.'] };
        let j = join_components(body);
        let r = render_components(cs);
        if body.len() == 0 {
            if cs[0] == ComponentView::RootDir {
                assert(j =~= e);
                assert(r =~= e + seq!['/'] + e);
                lemma_segments_split(e, e);
                lemma_segments_components_append(seq![e], seq![e]);
                assert(char_segments(r) =~= seq![e] + seq![e]);
                assert(spec_is_absolute(r));
                assert(spec_components(r) =~= cs);
            } else {
                assert(cs =~= seq![ComponentView::CurDir]);
                assert(join_components(cs) == seq!['.']);
                assert(r == seq!['.']);
                assert(starts_with_cur_dir(r));
                assert(spec_components(r) =~= cs);
            }
        } else {
            lemma_join_segments(body);
            assert(r =~= lead + seq!['/'] + j) by {
                if cs[0] == ComponentView::CurDir {
                    lemma_join_cons(cs);
                }
            }
            lemma_segments_split(lead, j);
            lemma_segments_components_append(seq![lead], component_texts(body));
            assert(char_segments(lead) == seq![lead]);
            assert(segments_components(seq![lead]) =~= Seq::<ComponentView>::empty());
            assert(segments_components(char_segments(r)) =~= body);
            if cs[0] == ComponentView::RootDir {
                assert(spec_is_absolute(r));
            } else {
                assert(r[0] == '.' && r[1] == '/');
                assert(!spec_is_absolute(r));
                assert(starts_with_cur_dir(r));
            }
            assert(spec_components(r) =~= cs);
        }
    } else {
        assert forall|i: int| 0 <= i < cs.len() implies body_component(#[trigger] cs[i]) by {}
        lemma_join_segments(cs);
        let r = join_components(cs);
        assert(render_components(cs) == r);
        let t0 = component_text(cs[0]);
        assert(body_component(cs[0]));
        assert(t0.len() > 0) by {
            if cs[0] == ComponentView::ParentDir {
                assert(t0 =~= seq!['.', '.']);
            }
        }
        let tail: Seq<char> = if cs.len() >= 2 { seq!['/'] + join_components(cs.drop_first()) } else { e };
        assert(r =~= t0 + tail) by {
            if cs.len() >= 2 {
                lemma_join_cons(cs);
            } else {
                assert(r == t0);
            }
        }
        assert(r[0] == t0[0]);
        assert(!spec_is_absolute(r)) by {
            if cs[0] is Normal {
                if r[0] == '/' {
                    assert(t0.contains('/'));
                }
            } else {
                assert(t0 =~= seq!['.', '.']);
            }
        }
        assert(!starts_with_cur_dir(r)) by {
            if r[0] == '.' {
                if cs[0] == ComponentView::ParentDir {
                    assert(t0 =~= seq!['.', '.']);
                    assert(r[1] == '.');
                } else {
                    let n = cs[0]->Normal_0;
                    assert(t0 == n);
                    if n.len() == 1 {
                        assert(is_dot(n));
                    } else {
                        assert(r[1] == n[1]);
                        if n[1] == '/' {
                            assert(n.contains('/'));
                        }
                    }
                }
            }
        }
        assert(spec_components(r) =~= cs);
    }
}

/// Normalisation is idempotent: the components of the text of a normalised path are that path.
pub proof fn law_components_idempotent(s: Seq<char>)
    ensures
        spec_components(render_components(spec_components(s))) == spec_components(s),
{
    lemma_components_normalized(s);
    lemma_render_components(spec_components(s));
}

} // verus!
