//! Filesystem paths as the sync tool compares them: by their components,
//! in the way Unix path parsing splits them.

use vstd::prelude::*;

verus! {

/// One component of a path.
#[derive(Debug)]
pub enum PathComponent {
    RootDir,
    CurDir,
    ParentDir,
    Normal(String),
}

/// The mathematical value of a [`PathComponent`].
pub enum ComponentView {
    RootDir,
    CurDir,
    ParentDir,
    Normal(Seq<char>),
}

impl View for PathComponent {
    type V = ComponentView;

    open spec fn view(&self) -> ComponentView {
        match self {
            PathComponent::RootDir => ComponentView::RootDir,
            PathComponent::CurDir => ComponentView::CurDir,
            PathComponent::ParentDir => ComponentView::ParentDir,
            PathComponent::Normal(name) => ComponentView::Normal(name@),
        }
    }
}

/// The component that a segment between separators contributes, if any:
/// empty segments and `.` are dropped, `..` names the parent directory.
pub open spec fn classify_segment(seg: Seq<char>) -> Option<ComponentView> {
    if seg.len() == 0 || (seg.len() == 1 && seg[0] == '.') {
        None
    } else if seg.len() == 2 && seg[0] == '.' && seg[1] == '.' {
        Some(ComponentView::ParentDir)
    } else {
        Some(ComponentView::Normal(seg))
    }
}

/// The characters after the last separator of `s`.
pub open spec fn pending_segment(s: Seq<char>) -> Seq<char>
    decreases s.len(),
{
    if s.len() == 0 {
        Seq::empty()
    } else if s.last() == '/' {
        Seq::empty()
    } else {
        pending_segment(s.drop_last()).push(s.last())
    }
}

/// The components of the segments of `s` that a separator closes, each with
/// the position where its segment ends.
pub open spec fn closed_entries(s: Seq<char>) -> Seq<(ComponentView, int)>
    decreases s.len(),
{
    if s.len() == 0 {
        Seq::empty()
    } else {
        let prev = closed_entries(s.drop_last());
        if s.last() == '/' {
            match classify_segment(pending_segment(s.drop_last())) {
                Some(c) => prev.push((c, s.len() - 1)),
                None => prev,
            }
        } else {
            prev
        }
    }
}

pub open spec fn has_root(s: Seq<char>) -> bool {
    s.len() > 0 && s[0] == '/'
}

/// A leading `.` is kept as a component of a relative path.
pub open spec fn has_leading_cur_dir(s: Seq<char>) -> bool {
    !has_root(s) && s.len() > 0 && s[0] == '.' && (s.len() == 1 || s[1] == '/')
}

pub open spec fn leading_entries(s: Seq<char>) -> Seq<(ComponentView, int)> {
    if has_root(s) {
        seq![(ComponentView::RootDir, 1int)]
    } else if has_leading_cur_dir(s) {
        seq![(ComponentView::CurDir, 1int)]
    } else {
        Seq::empty()
    }
}

pub open spec fn last_entry(s: Seq<char>) -> Seq<(ComponentView, int)> {
    match classify_segment(pending_segment(s)) {
        Some(c) => seq![(c, s.len() as int)],
        None => Seq::empty(),
    }
}

/// Each component of the path text `s`, with the position where it ends.
pub open spec fn path_entries(s: Seq<char>) -> Seq<(ComponentView, int)> {
    leading_entries(s) + closed_entries(s) + last_entry(s)
}

/// The components of the path text `s`.
pub open spec fn path_components(s: Seq<char>) -> Seq<ComponentView> {
    path_entries(s).map_values(|e: (ComponentView, int)| e.0)
}

/// The components of a list of entries.
pub open spec fn entry_components(e: Seq<(ComponentView, int)>) -> Seq<ComponentView> {
    e.map_values(|x: (ComponentView, int)| x.0)
}

/// The text of the parent of the path `s`: the path without its final
/// component, written as the shortest prefix of `s` that holds the other
/// components. A path that is empty or ends in its root has no parent.
pub open spec fn path_parent(s: Seq<char>) -> Option<Seq<char>> {
    let e = path_entries(s);
    if e.len() == 0 || e.last().0 is RootDir {
        None
    } else if e.len() == 1 {
        Some(Seq::empty())
    } else {
        Some(s.take(e[e.len() - 2].1))
    }
}

/// `p` lies under `base`: the components of `base` begin those of `p`.
pub open spec fn path_starts_with(p: Seq<char>, base: Seq<char>) -> bool {
    path_components(base).len() <= path_components(p).len() && path_components(p).take(
        path_components(base).len() as int,
    ) == path_components(base)
}

/// `base` extended by `other`; an absolute `other` replaces `base`, and a
/// separator is put between the two when `base` does not end in one.
pub open spec fn path_join(base: Seq<char>, other: Seq<char>) -> Seq<char> {
    if has_root(other) {
        other
    } else if base.len() > 0 && base.last() != '/' {
        base + seq!['/'] + other
    } else {
        base + other
    }
}

/// Two path texts name the same path when their components agree.
pub open spec fn same_path(a: Seq<char>, b: Seq<char>) -> bool {
    path_components(a) == path_components(b)
}

pub open spec fn entries_view(v: Seq<(PathComponent, usize)>) -> Seq<(ComponentView, int)> {
    v.map_values(|e: (PathComponent, usize)| (e.0@, e.1 as int))
}

pub proof fn lemma_closed_entries_end_inside(s: Seq<char>)
    ensures
        forall|i: int|
            0 <= i < closed_entries(s).len() ==> 0 <= #[trigger] closed_entries(s)[i].1 < s.len(),
    decreases s.len(),
{
    if s.len() > 0 {
        let prev = closed_entries(s.drop_last());
        lemma_closed_entries_end_inside(s.drop_last());
        assert forall|i: int| 0 <= i < closed_entries(s).len() implies 0
            <= #[trigger] closed_entries(s)[i].1 < s.len() by {
            if i < prev.len() {
                assert(closed_entries(s)[i] == prev[i]);
            }
        }
    }
}

pub proof fn lemma_entries_end_inside(s: Seq<char>)
    ensures
        forall|i: int|
            0 <= i < path_entries(s).len() ==> 0 <= #[trigger] path_entries(s)[i].1 <= s.len(),
{
    lemma_closed_entries_end_inside(s);
    let l = leading_entries(s);
    let c = closed_entries(s);
    assert forall|i: int| 0 <= i < path_entries(s).len() implies 0 <= #[trigger] path_entries(
        s,
    )[i].1 <= s.len() by {
        if i < l.len() {
        } else if i < l.len() + c.len() {
            assert(path_entries(s)[i] == c[i - l.len()]);
        } else {
        }
    }
}

/// The entries of the text cut at the end of one of its entries are the
/// entries up to that one.
proof fn lemma_entries_of_prefix(s: Seq<char>)
    ensures
        forall|j: int|
            0 <= j < path_entries(s).len() ==> path_entries(s.take(#[trigger] path_entries(s)[j].1))
                == path_entries(s).take(j + 1),
    decreases s.len(),
{
    let es = path_entries(s);
    if s.len() == 0 {
        assert(es.len() == 0);
    } else if s.len() == 1 {
        assert(s.take(1) =~= s);
        assert(pending_segment(s.drop_last()) =~= Seq::<char>::empty());
        assert(closed_entries(s) == closed_entries(s.drop_last()) || s.last() == '/');
        assert(es.len() <= 1);
        assert forall|j: int| 0 <= j < es.len() implies path_entries(s.take(#[trigger] es[j].1))
            == es.take(j + 1) by {
            lemma_entries_end_inside(s);
            assert(es.take(j + 1) =~= es);
        }
    } else {
        let t = s.drop_last();
        let et = path_entries(t);
        lemma_entries_of_prefix(t);
        lemma_entries_end_inside(t);
        lemma_closed_entries_end_inside(t);
        if s.last() == '/' {
            assert(leading_entries(s) == leading_entries(t));
            assert(es =~= et);
            assert forall|j: int| 0 <= j < es.len() implies path_entries(s.take(#[trigger] es[j].1))
                == es.take(j + 1) by {
                assert(s.take(es[j].1) =~= t.take(et[j].1));
            }
        } else {
            let lead = leading_entries(s);
            let closed = closed_entries(t);
            assert(closed_entries(s) == closed);
            assert forall|j: int| 0 <= j < es.len() implies path_entries(s.take(#[trigger] es[j].1))
                == es.take(j + 1) by {
                if j >= lead.len() + closed.len() {
                    assert(es[j].1 == s.len());
                    assert(s.take(s.len() as int) =~= s);
                    assert(es.take(j + 1) =~= es);
                } else if t.len() == 1 && t[0] == '.' {
                    assert(t.last() == '.');
                    assert(closed_entries(t.drop_last()).len() == 0);
                    assert(closed.len() == 0);
                    assert(lead.len() == 0);
                } else {
                    assert(lead == leading_entries(t));
                    assert(es[j] == et[j]);
                    assert(s.take(es[j].1) =~= t.take(et[j].1));
                    assert(es.take(j + 1) =~= et.take(j + 1));
                }
            }
        }
    }
}

/// The parent of a path has the path's components but the last.
pub proof fn law_parent_drops_last_component(s: Seq<char>)
    requires
        path_parent(s) is Some,
    ensures
        path_components(path_parent(s)->0) == path_components(s).drop_last(),
        path_starts_with(s, path_parent(s)->0),
{
    let e = path_entries(s);
    let p = path_parent(s)->0;
    if e.len() == 1 {
        assert(path_entries(p) =~= Seq::<(ComponentView, int)>::empty());
        assert(path_components(p) =~= path_components(s).drop_last());
    } else {
        lemma_entries_of_prefix(s);
        assert(path_entries(p) == e.take(e.len() - 1));
        assert(path_components(p) =~= path_components(s).drop_last());
    }
    assert(path_components(s).take(path_components(p).len() as int) =~= path_components(p));
}

fn component_eq(a: &PathComponent, b: &PathComponent) -> (r: bool)
    ensures
        r == (a@ == b@),
{
    match a {
        PathComponent::RootDir => match b {
            PathComponent::RootDir => true,
            _ => false,
        },
        PathComponent::CurDir => match b {
            PathComponent::CurDir => true,
            _ => false,
        },
        PathComponent::ParentDir => match b {
            PathComponent::ParentDir => true,
            _ => false,
        },
        PathComponent::Normal(x) => match b {
            PathComponent::Normal(y) => *x == *y,
            _ => false,
        },
    }
}

/// Whether the components of `a` begin those of `b`, and whether they are
/// all of them when `whole` is set.
fn entries_prefix(a: &Vec<(PathComponent, usize)>, b: &Vec<(PathComponent, usize)>, whole: bool) -> (r: bool)
    ensures
        r == (entry_components(entries_view(a@)).len() <= entry_components(entries_view(b@)).len()
            && (whole ==> entry_components(entries_view(a@)).len() == entry_components(
            entries_view(b@),
        ).len()) && entry_components(entries_view(b@)).take(
            entry_components(entries_view(a@)).len() as int,
        ) == entry_components(entries_view(a@))),
{
    let ghost ca = entry_components(entries_view(a@));
    let ghost cb = entry_components(entries_view(b@));
    if a.len() > b.len() || (whole && a.len() != b.len()) {
        return false;
    }
    let mut i: usize = 0;
    while i < a.len()
        invariant
            a.len() <= b.len(),
            ca.len() == a.len(),
            cb.len() == b.len(),
            ca == entry_components(entries_view(a@)),
            cb == entry_components(entries_view(b@)),
            0 <= i <= a.len(),
            forall|j: int| 0 <= j < i ==> ca[j] == cb[j],
        decreases a.len() - i,
    {
        if !component_eq(&a[i].0, &b[i].0) {
            assert(cb.take(ca.len() as int)[i as int] != ca[i as int]);
            return false;
        }
        i = i + 1;
    }
    assert(cb.take(ca.len() as int) =~= ca);
    true
}

/// The component of the segment `s[from..to]`.
fn segment_component(s: &str, from: usize, to: usize) -> (c: Option<PathComponent>)
    requires
        from <= to <= s@.len(),
    ensures
        match c {
            Some(comp) => classify_segment(s@.subrange(from as int, to as int)) == Some(comp@),
            None => classify_segment(s@.subrange(from as int, to as int)) is None,
        },
{
    let ghost seg = s@.subrange(from as int, to as int);
    let len = to - from;
    if len == 0 {
        return None;
    }
    let first = s.get_char(from);
    if len == 1 && first == '.' {
        return None;
    }
    if len == 2 && first == '.' && s.get_char(from + 1) == '.' {
        return Some(PathComponent::ParentDir);
    }
    let name = String::from_str(s.substring_char(from, to));
    proof {
        assert(name@ == seg);
    }
    Some(PathComponent::Normal(name))
}

/// Splits a path text into its components.
fn parse_entries(s: &str) -> (r: Vec<(PathComponent, usize)>)
    ensures
        entries_view(r@) == path_entries(s@),
{
    let n = s.unicode_len();
    let mut out: Vec<(PathComponent, usize)> = Vec::new();
    if n > 0 && s.get_char(0) == '/' {
        out.push((PathComponent::RootDir, 1));
    } else if n > 0 && s.get_char(0) == '.' && (n == 1 || s.get_char(1) == '/') {
        out.push((PathComponent::CurDir, 1));
    }
    assert(entries_view(out@) =~= leading_entries(s@));
    assert(s@.take(0) =~= Seq::<char>::empty());
    let mut seg_start: usize = 0;
    let mut i: usize = 0;
    while i < n
        invariant
            n == s@.len(),
            0 <= seg_start <= i <= n,
            entries_view(out@) == leading_entries(s@) + closed_entries(s@.take(i as int)),
            pending_segment(s@.take(i as int)) == s@.subrange(seg_start as int, i as int),
        decreases n - i,
    {
        let c = s.get_char(i);
        let ghost t = s@.take(i as int + 1);
        assert(t.drop_last() =~= s@.take(i as int));
        assert(t.last() == c);
        if c == '/' {
            let comp = segment_component(s, seg_start, i);
            match comp {
                Some(comp) => {
                    let ghost before = out@;
                    out.push((comp, i));
                    assert(closed_entries(t) == closed_entries(s@.take(i as int)).push(
                        (comp@, i as int),
                    ));
                    assert(entries_view(out@) =~= entries_view(before).push((comp@, i as int)));
                    assert(entries_view(out@) =~= leading_entries(s@) + closed_entries(t));
                },
                None => {
                    assert(closed_entries(t) == closed_entries(s@.take(i as int)));
                },
            }
            seg_start = i + 1;
            assert(s@.subrange(seg_start as int, i as int + 1) =~= Seq::<char>::empty());
        } else {
            assert(s@.subrange(seg_start as int, i as int + 1) =~= s@.subrange(
                seg_start as int,
                i as int,
            ).push(c));
        }
        i = i + 1;
    }
    assert(s@.take(n as int) =~= s@);
    let last = segment_component(s, seg_start, n);
    match last {
        Some(comp) => {
            out.push((comp, n));
        },
        None => {},
    }
    assert(entries_view(out@) =~= path_entries(s@));
    out
}

/// A filesystem path, kept as the text it was written with together with
/// the components that the text splits into.
#[derive(Debug)]
pub struct FsPath {
    text: String,
    entries: Vec<(PathComponent, usize)>,
}

impl View for FsPath {
    type V = Seq<char>;

    closed spec fn view(&self) -> Seq<char> {
        self.text@
    }
}

impl FsPath {
    #[verifier::type_invariant]
    spec fn well_formed(self) -> bool {
        entries_view(self.entries@) == path_entries(self.text@)
    }

    /// The path written as `text`.
    pub fn new(text: String) -> (p: FsPath)
        ensures
            p@ == text@,
    {
        let entries = parse_entries(text.as_str());
        FsPath { text, entries }
    }

    /// The path written as `text`.
    pub fn from_text(text: &str) -> (p: FsPath)
        ensures
            p@ == text@,
    {
        FsPath::new(String::from_str(text))
    }

    /// A copy of this path.
    pub fn duplicate(&self) -> (p: FsPath)
        ensures
            p@ == self@,
    {
        FsPath::new(self.text.clone())
    }

    /// The text the path was written with.
    pub fn as_str(&self) -> (r: &str)
        ensures
            r@ == self@,
    {
        self.text.as_str()
    }

    /// Whether the two paths have the same components.
    pub fn same_as(&self, other: &FsPath) -> (r: bool)
        ensures
            r == same_path(self@, other@),
    {
        proof {
            use_type_invariant(self);
            use_type_invariant(other);
        }
        let r = entries_prefix(&self.entries, &other.entries, true);
        proof {
            let cb = entry_components(entries_view(other.entries@));
            assert(cb.take(cb.len() as int) =~= cb);
        }
        r
    }

    /// Whether the components of `base` begin those of this path.
    pub fn starts_with(&self, base: &FsPath) -> (r: bool)
        ensures
            r == path_starts_with(self@, base@),
    {
        proof {
            use_type_invariant(self);
            use_type_invariant(base);
        }
        entries_prefix(&base.entries, &self.entries, false)
    }

    /// The path without its final component.
    pub fn parent(&self) -> (r: Option<FsPath>)
        ensures
            match r {
                Some(p) => path_parent(self@) == Some(p@),
                None => path_parent(self@) is None,
            },
    {
        proof {
            use_type_invariant(self);
            lemma_entries_end_inside(self.text@);
        }
        let ghost e = path_entries(self.text@);
        let m = self.entries.len();
        assert(entries_view(self.entries@).len() == m);
        if m == 0 {
            return None;
        }
        assert(entries_view(self.entries@)[m - 1] == e.last());
        match self.entries[m - 1].0 {
            PathComponent::RootDir => {
                return None;
            },
            _ => {},
        }
        if m == 1 {
            return Some(FsPath::new(String::new()));
        }
        let end = self.entries[m - 2].1;
        assert(entries_view(self.entries@)[m - 2] == e[m - 2]);
        let s = self.text.as_str();
        let prefix = String::from_str(s.substring_char(0, end));
        assert(prefix@ =~= self.text@.take(end as int));
        Some(FsPath::new(prefix))
    }

    /// This path extended by `other`, as pushing onto a path buffer does.
    pub fn join(&self, other: &str) -> (r: FsPath)
        ensures
            r@ == path_join(self@, other@),
    {
        let n = other.unicode_len();
        if n > 0 && other.get_char(0) == '/' {
            return FsPath::from_text(other);
        }
        let len = self.text.as_str().unicode_len();
        if len > 0 && self.text.as_str().get_char(len - 1) != '/' {
            let joined = self.text.clone().concat("/").concat(other);
            proof {
                reveal_strlit("/");
            }
            assert(joined@ =~= path_join(self@, other@));
            FsPath::new(joined)
        } else {
            let joined = self.text.clone().concat(other);
            FsPath::new(joined)
        }
    }
}

} // verus!
