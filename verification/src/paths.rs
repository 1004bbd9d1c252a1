//! Paths as sequences of components.
use crate::text::{
    chars_of, has_text, occurs_at, same_text, starts_with_char, string_of, texts,
};
use vstd::prelude::*;

verus! {

/// A component of a path.
#[derive(Debug, Clone, PartialEq, Eq)]
pub enum PathComponent {
    Prefix,
    RootDir,
    CurDir,
    ParentDir,
    Normal(String),
}

/// What a [`PathComponent`] says.
pub ghost enum Component {
    Prefix,
    RootDir,
    CurDir,
    ParentDir,
    Normal(Seq<char>),
}

impl View for PathComponent {
    type V = Component;

    open spec fn view(&self) -> Component {
        match self {
            PathComponent::Prefix => Component::Prefix,
            PathComponent::RootDir => Component::RootDir,
            PathComponent::CurDir => Component::CurDir,
            PathComponent::ParentDir => Component::ParentDir,
            PathComponent::Normal(name) => Component::Normal(name@),
        }
    }
}

/// What the components of a list say.
pub open spec fn component_models(components: Seq<PathComponent>) -> Seq<Component> {
    components.map_values(|component: PathComponent| component@)
}

/// The stretches of a text between its slashes.
pub open spec fn pieces(s: Seq<char>) -> Seq<Seq<char>>
    decreases s.len(),
{
    if s.len() == 0 {
        seq![Seq::empty()]
    } else {
        let before = pieces(s.drop_last());
        if s.last() == '/' {
            before.push(Seq::empty())
        } else {
            before.drop_last().push(before.last().push(s.last()))
        }
    }
}

/// The components that stretches between slashes stand for. An empty stretch and a
/// single dot stand for none.
pub open spec fn piece_components(list: Seq<Seq<char>>) -> Seq<Component>
    decreases list.len(),
{
    if list.len() == 0 {
        Seq::empty()
    } else {
        let before = piece_components(list.drop_last());
        let piece = list.last();
        if piece.len() == 0 || piece == "."@ {
            before
        } else if piece == ".."@ {
            before.push(Component::ParentDir)
        } else {
            before.push(Component::Normal(piece))
        }
    }
}

/// The components of a path. The root stands for itself where the path begins at it,
/// and so does a single dot where the path begins with one.
pub open spec fn path_components(s: Seq<char>) -> Seq<Component> {
    let head = if s.len() > 0 && s[0] == '/' {
        seq![Component::RootDir]
    } else if pieces(s)[0] == "."@ {
        seq![Component::CurDir]
    } else {
        Seq::empty()
    };
    head + piece_components(pieces(s))
}

proof fn lemma_pieces_not_empty(s: Seq<char>)
    ensures
        pieces(s).len() > 0,
    decreases s.len(),
{
    if s.len() > 0 {
        lemma_pieces_not_empty(s.drop_last());
    }
}

fn split_pieces(s: &str) -> (list: Vec<String>)
    ensures
        texts(list@) == pieces(s@),
        list@.len() > 0,
{
    let mut list: Vec<String> = Vec::new();
    let mut last = String::new();
    assert(s@.take(0) =~= Seq::empty());
    assert(texts(list@).push(last@) =~= pieces(s@.take(0)));
    for c in it: s.chars()
        invariant
            it.seq() == s@,
            texts(list@).push(last@) == pieces(s@.take(it.index())),
    {
        let ghost before = texts(list@).push(last@);
        proof {
            let i = it.index() as int;
            assert(s@.take(i + 1).drop_last() =~= s@.take(i));
            assert(s@.take(i + 1).last() == c);
            assert(before.drop_last() =~= texts(list@));
        }
        if c == '/' {
            let ghost done = texts(list@);
            let ghost piece = last@;
            list.push(last);
            last = String::new();
            assert(texts(list@) =~= done.push(piece));
            assert(texts(list@).push(last@) =~= before.push(Seq::empty()));
        } else {
            last.push(c);
        }
    }
    assert(s@.take(s@.len() as int) =~= s@);
    let ghost done = texts(list@);
    let ghost piece = last@;
    list.push(last);
    assert(texts(list@) =~= done.push(piece));
    list
}

/// The components of a path.
pub fn components_of(s: &str) -> (components: Vec<PathComponent>)
    ensures
        component_models(components@) == path_components(s@),
{
    let list = split_pieces(s);
    let mut components: Vec<PathComponent> = Vec::new();
    assert(texts(list@)[0] == list@[0]@);
    if starts_with_char(s, '/') {
        components.push(PathComponent::RootDir);
    } else if same_text(list[0].as_str(), ".") {
        components.push(PathComponent::CurDir);
    }
    let ghost head = component_models(components@);
    let ghost source = texts(list@);
    let mut i: usize = 0;
    assert(head + piece_components(source.take(0)) =~= head);
    while i < list.len()
        invariant
            source == texts(list@),
            i <= list@.len(),
            component_models(components@) == head + piece_components(source.take(i as int)),
        decreases list@.len() - i,
    {
        let ghost before = component_models(components@);
        let piece = &list[i];
        proof {
            assert(source.take(i + 1).drop_last() =~= source.take(i as int));
            assert(source.take(i + 1).last() == piece@);
        }
        if piece.as_str().is_empty() || same_text(piece.as_str(), ".") {
        } else if same_text(piece.as_str(), "..") {
            components.push(PathComponent::ParentDir);
            assert(component_models(components@) =~= before.push(Component::ParentDir));
        } else {
            components.push(PathComponent::Normal(piece.clone()));
            assert(component_models(components@) =~= before.push(Component::Normal(piece@)));
        }
        assert(component_models(components@) =~= head + piece_components(source.take(i + 1)));
        i += 1;
    }
    assert(source.take(source.len() as int) =~= source);
    components
}

// ---------------------------------------------------------------------------
// Absolute paths
// ---------------------------------------------------------------------------

/// A name that one component of a path can have.
pub open spec fn is_name(name: Seq<char>) -> bool {
    &&& name.len() > 0
    &&& !name.contains('/')
    &&& name != "."@
    &&& name != ".."@
}

/// Every component is a name.
pub open spec fn all_names(parts: Seq<Seq<char>>) -> bool {
    forall|i: int| 0 <= i < parts.len() ==> is_name(#[trigger] parts[i])
}

/// The names of a path that begins at the root and holds nothing but names.
pub open spec fn absolute_parts(s: Seq<char>) -> Option<Seq<Seq<char>>> {
    let components = path_components(s);
    if components.len() > 0 && components[0] == Component::RootDir && forall|i: int|
        1 <= i < components.len() ==> #[trigger] components[i] is Normal {
        Some(components.drop_first().map_values(|component: Component| component->Normal_0))
    } else {
        None
    }
}

/// Names with a slash before each of them.
pub open spec fn slashed(parts: Seq<Seq<char>>) -> Seq<char>
    decreases parts.len(),
{
    if parts.len() == 0 {
        Seq::empty()
    } else {
        slashed(parts.drop_last()) + seq!['/'] + parts.last()
    }
}

/// The text of an absolute path.
pub open spec fn path_text(parts: Seq<Seq<char>>) -> Seq<char> {
    if parts.len() == 0 {
        seq!['/']
    } else {
        slashed(parts)
    }
}

proof fn lemma_piece_components_are_names(list: Seq<Seq<char>>, i: int)
    requires
        0 <= i < piece_components(list).len(),
        piece_components(list)[i] is Normal,
        forall|j: int| 0 <= j < list.len() ==> !(#[trigger] list[j]).contains('/'),
    ensures
        is_name(piece_components(list)[i]->Normal_0),
    decreases list.len(),
{
    let shorter = list.drop_last();
    assert forall|j: int| 0 <= j < shorter.len() implies !(#[trigger] shorter[j]).contains('/') by {
        assert(shorter[j] == list[j]);
    }
    let before = piece_components(shorter);
    if i < before.len() {
        lemma_piece_components_are_names(shorter, i);
    } else {
        assert(!list[list.len() - 1].contains('/'));
    }
}

proof fn lemma_pieces_have_no_slash(s: Seq<char>, i: int)
    requires
        0 <= i < pieces(s).len(),
    ensures
        !pieces(s)[i].contains('/'),
    decreases s.len(),
{
    if s.len() > 0 {
        let before = pieces(s.drop_last());
        lemma_pieces_not_empty(s.drop_last());
        if s.last() == '/' {
            if i < before.len() {
                lemma_pieces_have_no_slash(s.drop_last(), i);
            }
        } else if i < before.len() - 1 {
            lemma_pieces_have_no_slash(s.drop_last(), i);
        } else {
            lemma_pieces_have_no_slash(s.drop_last(), before.len() - 1);
            let piece = before.last();
            assert forall|k: int| 0 <= k < piece.push(s.last()).len() implies piece.push(
                s.last(),
            )[k] != '/' by {
                if k < piece.len() {
                    assert(piece.contains(piece[k]));
                }
            }
        }
    }
}

/// The names in the components of a path are names of single components.
pub proof fn lemma_component_names(s: Seq<char>, i: int)
    requires
        0 <= i < path_components(s).len(),
        path_components(s)[i] is Normal,
    ensures
        is_name(path_components(s)[i]->Normal_0),
{
    let tail = piece_components(pieces(s));
    let skipped = path_components(s).len() - tail.len();
    assert(path_components(s)[i] == tail[i - skipped]);
    assert forall|j: int| 0 <= j < pieces(s).len() implies !(#[trigger] pieces(s)[j]).contains('/') by {
        lemma_pieces_have_no_slash(s, j);
    }
    lemma_piece_components_are_names(pieces(s), i - skipped);
}

/// A path that begins at the root and holds nothing but names.
#[derive(Debug, Clone, PartialEq, Eq)]
pub struct AbsolutePath {
    parts: Vec<String>,
}

impl View for AbsolutePath {
    type V = Seq<Seq<char>>;

    closed spec fn view(&self) -> Seq<Seq<char>> {
        texts(self.parts@)
    }
}

impl AbsolutePath {
    /// Every component is a name.
    pub open spec fn wf(&self) -> bool {
        all_names(self@)
    }

    /// Reads the text of an absolute path.
    pub fn parse(s: &str) -> (path: Option<AbsolutePath>)
        ensures
            match path {
                Some(path) => path.wf() && absolute_parts(s@) == Some(path@),
                None => absolute_parts(s@) is None,
            },
    {
        let components = components_of(s);
        let ghost models = path_components(s@);
        let mut parts: Vec<String> = Vec::new();
        if components.len() == 0 {
            return None;
        }
        assert(models[0] == components@[0]@);
        match &components[0] {
            PathComponent::RootDir => {},
            _ => {
                return None;
            },
        }
        let mut i: usize = 1;
        while i < components.len()
            invariant
                models == path_components(s@),
                models == component_models(components@),
                1 <= i <= components@.len(),
                parts@.len() == i - 1,
                forall|j: int|
                    1 <= j < i ==> #[trigger] models[j] == Component::Normal(parts@[j - 1]@),
            decreases components@.len() - i,
        {
            assert(models[i as int] == components@[i as int]@);
            match &components[i] {
                PathComponent::Normal(name) => {
                    parts.push(name.clone());
                },
                _ => {
                    return None;
                },
            }
            i += 1;
        }
        let path = AbsolutePath { parts };
        proof {
            assert(models.drop_first().map_values(|component: Component| component->Normal_0)
                =~= path@);
            assert forall|j: int| 0 <= j < path@.len() implies is_name(#[trigger] path@[j]) by {
                assert(models[j + 1] == Component::Normal(path@[j]));
                lemma_component_names(s@, j + 1);
            }
        }
        Some(path)
    }

    /// The text of the path.
    pub fn to_text(&self) -> (s: String)
        ensures
            s@ == path_text(self@),
    {
        if self.parts.len() == 0 {
            let mut s = String::new();
            s.push('/');
            assert(s@ =~= seq!['/']);
            return s;
        }
        let mut s = String::new();
        let mut i: usize = 0;
        assert(s@ =~= slashed(self@.take(0)));
        while i < self.parts.len()
            invariant
                i <= self.parts@.len(),
                s@ == slashed(self@.take(i as int)),
            decreases self.parts@.len() - i,
        {
            proof {
                assert(self@.take(i + 1).drop_last() =~= self@.take(i as int));
                assert(self@.take(i + 1).last() == self.parts@[i as int]@);
            }
            let ghost before = s@;
            s.push('/');
            s.append(self.parts[i].as_str());
            assert(s@ =~= before + seq!['/'] + self.parts@[i as int]@);
            i += 1;
        }
        assert(self@.take(self@.len() as int) =~= self@);
        s
    }

    /// The path with the same components.
    pub fn copy(&self) -> (path: AbsolutePath)
        ensures
            path@ == self@,
    {
        let mut parts: Vec<String> = Vec::new();
        let mut i: usize = 0;
        while i < self.parts.len()
            invariant
                i <= self.parts@.len(),
                parts@.len() == i,
                forall|j: int| 0 <= j < i ==> (#[trigger] parts@[j])@ == self.parts@[j]@,
            decreases self.parts@.len() - i,
        {
            parts.push(self.parts[i].clone());
            i += 1;
        }
        let path = AbsolutePath { parts };
        assert(path@ =~= self@);
        path
    }

    /// The path of a component inside this one.
    pub fn child(&self, name: &str) -> (path: AbsolutePath)
        ensures
            path@ == self@.push(name@),
    {
        let mut path = self.copy();
        let ghost before = path@;
        path.parts.push(name.to_owned());
        assert(path@ =~= before.push(name@));
        path
    }

    /// The path that holds this one, unless this one is the root.
    pub fn parent(&self) -> (path: Option<AbsolutePath>)
        ensures
            match path {
                Some(path) => self@.len() > 0 && path@ == self@.drop_last(),
                None => self@.len() == 0,
            },
    {
        if self.parts.len() == 0 {
            return None;
        }
        let mut path = self.copy();
        let ghost before = path.parts@;
        assert(before.len() == self@.len());
        path.parts.pop();
        assert(path.parts@ =~= before.drop_last());
        assert(path@ =~= self@.drop_last());
        Some(path)
    }

    /// Whether this path is `base` or lies below it.
    pub fn starts_with(&self, base: &AbsolutePath) -> (b: bool)
        ensures
            b == base@.is_prefix_of(self@),
    {
        if base.parts.len() > self.parts.len() {
            return false;
        }
        let mut i: usize = 0;
        while i < base.parts.len()
            invariant
                base.parts@.len() <= self.parts@.len(),
                i <= base.parts@.len(),
                forall|j: int| 0 <= j < i ==> #[trigger] base@[j] == self@[j],
            decreases base.parts@.len() - i,
        {
            assert(base@[i as int] == base.parts@[i as int]@);
            assert(self@[i as int] == self.parts@[i as int]@);
            if !same_text(base.parts[i].as_str(), self.parts[i].as_str()) {
                assert(self@.take(base@.len() as int)[i as int] != base@[i as int]);
                return false;
            }
            i += 1;
        }
        assert(self@.take(base@.len() as int) =~= base@);
        true
    }

    /// The number of components.
    pub fn depth(&self) -> (n: usize)
        ensures
            n == self@.len(),
    {
        self.parts.len()
    }

    /// The component at a position.
    pub fn part(&self, i: usize) -> (name: &str)
        requires
            i < self@.len(),
        ensures
            name@ == self@[i as int],
    {
        self.parts[i].as_str()
    }
}

// ---------------------------------------------------------------------------
// Paths of any form
// ---------------------------------------------------------------------------

/// The components of the path that holds a path, unless it is a root or empty.
pub open spec fn components_parent(components: Seq<Component>) -> Option<Seq<Component>> {
    if components.len() == 0 {
        None
    } else {
        match components.last() {
            Component::Prefix | Component::RootDir => None,
            _ => Some(components.drop_last()),
        }
    }
}

/// The first `k` characters of a path write the path that holds it.
pub open spec fn is_parent_at(s: Seq<char>, k: int) -> bool {
    &&& 0 <= k <= s.len()
    &&& components_parent(path_components(s)) == Some(path_components(s.take(k)))
}

/// The shortest beginning of a path that writes the path that holds it.
pub open spec fn parent_length(s: Seq<char>) -> int {
    choose|k: int| is_parent_at(s, k) && forall|j: int| 0 <= j < k ==> !is_parent_at(s, j)
}

/// The path that holds a path, unless it is a root or empty. It is the path as far as it
/// is written, without what stands behind its last component.
pub open spec fn text_parent(s: Seq<char>) -> Option<Seq<char>> {
    if components_parent(path_components(s)) is None {
        None
    } else {
        Some(s.take(parent_length(s)))
    }
}

proof fn lemma_first_piece(s: Seq<char>)
    requires
        s.len() > 0,
        s[0] == '/',
    ensures
        pieces(s).len() > 1,
        pieces(s)[0].len() == 0,
    decreases s.len(),
{
    lemma_pieces_not_empty(s.drop_last());
    if s.len() > 1 {
        lemma_first_piece(s.drop_last());
    } else {
        assert(s.drop_last() =~= Seq::<char>::empty());
        assert(pieces(s.drop_last()) =~= seq![Seq::<char>::empty()]);
    }
}

proof fn lemma_pieces_before_last(s: Seq<char>)
    ensures
        pieces(s).len() > 0,
        pieces(s).last().len() <= s.len(),
        pieces(s.take(s.len() - pieces(s).last().len())) == pieces(s).drop_last().push(
            Seq::empty(),
        ),
    decreases s.len(),
{
    if s.len() == 0 {
        assert(s.take(0) =~= s);
        assert(pieces(s).drop_last().push(Seq::empty()) =~= pieces(s));
    } else {
        let t = s.drop_last();
        lemma_pieces_before_last(t);
        if s.last() == '/' {
            assert(s.take(s.len() as int) =~= s);
            assert(pieces(s).drop_last().push(Seq::empty()) =~= pieces(s));
        } else {
            let piece = pieces(t).last();
            assert(s.take(s.len() - (piece.len() + 1)) =~= t.take(t.len() - piece.len()));
            assert(pieces(s).drop_last() =~= pieces(t).drop_last());
        }
    }
}

proof fn lemma_some_beginning_is_parent(s: Seq<char>)
    requires
        components_parent(path_components(s)) is Some,
    ensures
        exists|k: int| is_parent_at(s, k),
    decreases s.len(),
{
    let c = path_components(s);
    lemma_pieces_not_empty(s);
    reveal_strlit(".");
    assert("."@ =~= seq!['.']);
    if s.len() == 0 {
        assert(pieces(s) =~= seq![Seq::<char>::empty()]);
        reveal_with_fuel(piece_components, 2);
        assert(c =~= Seq::<Component>::empty());
    } else {
        let t = s.drop_last();
        lemma_pieces_not_empty(t);
        let q = pieces(s).drop_last();
        let piece = pieces(s).last();
        if s[0] == '/' {
            lemma_first_piece(s);
        }
        if s.last() == '/' || (piece == "."@ && q.len() > 0) {
            assert(piece_components(pieces(s)) == piece_components(q));
            if s.last() == '/' {
                assert(q =~= pieces(t));
                if t.len() == 0 {
                    assert(pieces(t) =~= seq![Seq::<char>::empty()]);
                    reveal_with_fuel(piece_components, 2);
                    assert(c =~= seq![Component::RootDir]);
                }
            } else {
                assert(pieces(t).last() =~= Seq::<char>::empty()) by {
                    assert(piece == pieces(t).last().push(s.last()));
                }
                assert(q =~= pieces(t).drop_last());
                assert(piece_components(pieces(t)) == piece_components(q));
                assert(pieces(t).len() > 1);
            }
            assert(t.len() > 0);
            assert(t[0] == s[0]);
            assert(pieces(t)[0] == pieces(s)[0]);
            assert(path_components(t) == c);
            lemma_some_beginning_is_parent(t);
            let k = choose|k: int| is_parent_at(t, k);
            assert(s.take(k) =~= t.take(k));
            assert(is_parent_at(s, k));
        } else if piece == "."@ {
            assert(pieces(s) =~= seq!["."@]);
            reveal_with_fuel(piece_components, 2);
            assert(c =~= seq![Component::CurDir]);
            let none = s.take(0);
            assert(pieces(none) =~= seq![Seq::<char>::empty()]);
            assert(path_components(none) =~= Seq::<Component>::empty());
            assert(c.drop_last() =~= Seq::<Component>::empty());
            assert(is_parent_at(s, 0));
        } else {
            assert(piece == pieces(t).last().push(s.last()));
            lemma_pieces_before_last(s);
            let k = s.len() - piece.len();
            let u = s.take(k);
            assert(pieces(u) == q.push(Seq::empty()));
            assert(pieces(u).drop_last() =~= q);
            assert(piece_components(pieces(u)) == piece_components(q));
            if q.len() > 0 {
                assert(pieces(u).len() > 1);
                assert(u.len() > 0);
                assert(u[0] == s[0]);
                assert(pieces(u)[0] == q[0]);
            } else {
                assert(pieces(u)[0] =~= Seq::<char>::empty());
                assert(pieces(s)[0] == piece);
                if u.len() > 0 {
                    assert(u[0] == s[0]);
                }
            }
            assert(c.drop_last() =~= path_components(u));
            assert(is_parent_at(s, k));
        }
    }
}

fn same_component(a: &PathComponent, b: &PathComponent) -> (same: bool)
    ensures
        same == (a@ == b@),
{
    match (a, b) {
        (PathComponent::Prefix, PathComponent::Prefix) => true,
        (PathComponent::RootDir, PathComponent::RootDir) => true,
        (PathComponent::CurDir, PathComponent::CurDir) => true,
        (PathComponent::ParentDir, PathComponent::ParentDir) => true,
        (PathComponent::Normal(a), PathComponent::Normal(b)) => same_text(a.as_str(), b.as_str()),
        _ => false,
    }
}

fn same_components(a: &Vec<PathComponent>, b: &Vec<PathComponent>) -> (same: bool)
    ensures
        same == (component_models(a@) == component_models(b@)),
{
    let ghost left = component_models(a@);
    let ghost right = component_models(b@);
    if a.len() != b.len() {
        assert(left.len() != right.len());
        return false;
    }
    let mut i: usize = 0;
    while i < a.len()
        invariant
            left == component_models(a@),
            right == component_models(b@),
            a@.len() == b@.len(),
            i <= a@.len(),
            forall|j: int| 0 <= j < i ==> #[trigger] left[j] == right[j],
        decreases a@.len() - i,
    {
        assert(left[i as int] == a@[i as int]@);
        assert(right[i as int] == b@[i as int]@);
        if !same_component(&a[i], &b[i]) {
            return false;
        }
        i += 1;
    }
    assert(left =~= right);
    true
}

/// The path that holds a path, unless it is a root or empty.
pub fn parent_of(s: &str) -> (parent: Option<String>)
    ensures
        match parent {
            Some(parent) => text_parent(s@) == Some(parent@),
            None => text_parent(s@) is None,
        },
{
    let mut wanted = components_of(s);
    let ghost whole = path_components(s@);
    let ghost before = wanted@;
    let inside = match wanted.pop() {
        None => false,
        Some(last) => {
            assert(whole.last() == last@);
            match last {
                PathComponent::Prefix | PathComponent::RootDir => false,
                _ => true,
            }
        },
    };
    if !inside {
        return None;
    }
    assert(wanted@ =~= before.drop_last());
    assert(component_models(wanted@) =~= whole.drop_last());
    let chars = chars_of(s);
    let mut k: usize = 0;
    loop
        invariant
            chars@ == s@,
            k <= chars@.len(),
            components_parent(path_components(s@)) == Some(component_models(wanted@)),
            forall|j: int| 0 <= j < k ==> !is_parent_at(s@, j),
        decreases chars@.len() - k,
    {
        let beginning = string_of(&chars, 0, k);
        assert(beginning@ =~= s@.take(k as int));
        if same_components(&components_of(beginning.as_str()), &wanted) {
            proof {
                assert(is_parent_at(s@, k as int));
                let other = parent_length(s@);
                assert(is_parent_at(s@, other) && forall|j: int|
                    0 <= j < other ==> !is_parent_at(s@, j));
                assert(other == k);
            }
            return Some(beginning);
        }
        if k == chars.len() {
            proof {
                lemma_some_beginning_is_parent(s@);
                let other = choose|other: int| is_parent_at(s@, other);
                assert(!is_parent_at(s@, other));
            }
            return None;
        }
        k += 1;
    }
}

/// The text of a path with a name behind it.
pub open spec fn joined_path(base: Seq<char>, name: Seq<char>) -> Seq<char> {
    if base.len() == 0 {
        name
    } else if base.last() == '/' {
        base + name
    } else {
        base + seq!['/'] + name
    }
}

/// Puts a name behind a path.
pub fn join_path(base: &str, name: &str) -> (path: String)
    ensures
        path@ == joined_path(base@, name@),
{
    let mut path = base.to_owned();
    let chars = chars_of(base);
    if chars.len() > 0 && chars[chars.len() - 1] != '/' {
        path.push('/');
    }
    path.append(name);
    assert(path@ =~= joined_path(base@, name@));
    path
}

// ---------------------------------------------------------------------------
// Laws
// ---------------------------------------------------------------------------

proof fn lemma_pieces_extend(s: Seq<char>, name: Seq<char>)
    requires
        !name.contains('/'),
    ensures
        pieces(s + name) == pieces(s).drop_last().push(pieces(s).last() + name),
    decreases name.len(),
{
    lemma_pieces_not_empty(s);
    if name.len() == 0 {
        assert(s + name =~= s);
        assert(pieces(s).last() + name =~= pieces(s).last());
        assert(pieces(s) =~= pieces(s).drop_last().push(pieces(s).last()));
    } else {
        let shorter = name.drop_last();
        assert(name.contains(name[name.len() - 1]));
        assert(!shorter.contains('/')) by {
            if shorter.contains('/') {
                let k = shorter.index_of('/');
                assert(name[k] == '/');
            }
        }
        lemma_pieces_extend(s, shorter);
        assert((s + name).drop_last() =~= s + shorter);
        assert((s + name).last() == name.last());
        let before = pieces(s + shorter);
        assert(before.last().push(name.last()) =~= pieces(s).last() + name);
        assert(before.drop_last() =~= pieces(s).drop_last());
    }
}

proof fn lemma_pieces_of_slashed(parts: Seq<Seq<char>>)
    requires
        all_names(parts),
    ensures
        pieces(slashed(parts)) == seq![Seq::<char>::empty()] + parts,
    decreases parts.len(),
{
    if parts.len() == 0 {
        assert(pieces(slashed(parts)) =~= seq![Seq::<char>::empty()] + parts);
    } else {
        let before = parts.drop_last();
        assert forall|i: int| 0 <= i < before.len() implies is_name(#[trigger] before[i]) by {
            assert(before[i] == parts[i]);
        }
        lemma_pieces_of_slashed(before);
        let s = slashed(before) + seq!['/'];
        assert(s.drop_last() =~= slashed(before));
        assert(s.last() == '/');
        assert(is_name(parts[parts.len() - 1]));
        lemma_pieces_extend(s, parts.last());
        assert(pieces(s) == pieces(slashed(before)).push(Seq::empty()));
        assert(pieces(s).drop_last() =~= pieces(slashed(before)));
        assert(Seq::<char>::empty() + parts.last() =~= parts.last());
        assert(slashed(parts) =~= s + parts.last());
        assert(pieces(slashed(parts)) =~= seq![Seq::<char>::empty()] + parts);
    }
}

proof fn lemma_components_of_names(parts: Seq<Seq<char>>)
    requires
        all_names(parts),
    ensures
        piece_components(seq![Seq::<char>::empty()] + parts) == parts.map_values(
            |name: Seq<char>| Component::Normal(name),
        ),
    decreases parts.len(),
{
    let list = seq![Seq::<char>::empty()] + parts;
    if parts.len() == 0 {
        assert(list.drop_last() =~= Seq::<Seq<char>>::empty());
        assert(piece_components(list.drop_last()) =~= Seq::<Component>::empty());
        assert(list.last() =~= Seq::<char>::empty());
        assert(piece_components(list) =~= parts.map_values(
            |name: Seq<char>| Component::Normal(name),
        ));
    } else {
        let before = parts.drop_last();
        assert forall|i: int| 0 <= i < before.len() implies is_name(#[trigger] before[i]) by {
            assert(before[i] == parts[i]);
        }
        lemma_components_of_names(before);
        assert(list.drop_last() =~= seq![Seq::<char>::empty()] + before);
        assert(is_name(parts[parts.len() - 1]));
        assert(piece_components(list) =~= parts.map_values(
            |name: Seq<char>| Component::Normal(name),
        ));
    }
}

/// Reading the text of an absolute path gives its components back.
pub proof fn law_path_text_reads_back(parts: Seq<Seq<char>>)
    requires
        all_names(parts),
    ensures
        absolute_parts(path_text(parts)) == Some(parts),
{
    let s = path_text(parts);
    if parts.len() == 0 {
        assert(s.drop_last() =~= Seq::<char>::empty());
        reveal_with_fuel(pieces, 2);
        reveal_with_fuel(piece_components, 3);
        let list = pieces(s);
        assert(list =~= seq![Seq::<char>::empty(), Seq::<char>::empty()]);
        assert(piece_components(list) =~= Seq::<Component>::empty());
    } else {
        lemma_pieces_of_slashed(parts);
        lemma_components_of_names(parts);
        lemma_slashed_start(parts);
    }
    let components = path_components(s);
    let names = parts.map_values(|name: Seq<char>| Component::Normal(name));
    assert(components =~= seq![Component::RootDir] + names);
    assert(components.drop_first().map_values(|component: Component| component->Normal_0)
        =~= parts);
}

proof fn lemma_slashed_start(parts: Seq<Seq<char>>)
    requires
        parts.len() > 0,
    ensures
        slashed(parts).len() > 0,
        slashed(parts)[0] == '/',
    decreases parts.len(),
{
    if parts.len() > 1 {
        lemma_slashed_start(parts.drop_last());
    } else {
        assert(slashed(parts.drop_last()) =~= Seq::<char>::empty());
    }
}

proof fn lemma_last_piece_ends_text(s: Seq<char>)
    ensures
        pieces(s).len() > 0,
        pieces(s).last().len() <= s.len(),
        s.skip(s.len() - pieces(s).last().len()) == pieces(s).last(),
    decreases s.len(),
{
    if s.len() > 0 {
        let before = s.drop_last();
        lemma_last_piece_ends_text(before);
        let piece = pieces(before).last();
        if s.last() == '/' {
            assert(s.skip(s.len() as int) =~= Seq::<char>::empty());
        } else {
            let longer = piece.push(s.last());
            assert forall|i: int| 0 <= i < longer.len() implies s.skip(s.len() - longer.len())[i]
                == longer[i] by {
                if i < piece.len() {
                    assert(before.skip(before.len() - piece.len())[i] == piece[i]);
                }
            }
            assert(s.skip(s.len() - longer.len()) =~= longer);
        }
    } else {
        assert(s.skip(0) =~= Seq::<char>::empty());
    }
}

proof fn lemma_piece_stands_in_text(s: Seq<char>, i: int)
    requires
        0 <= i < pieces(s).len(),
    ensures
        has_text(s, pieces(s)[i]),
    decreases s.len(),
{
    lemma_last_piece_ends_text(s);
    if i == pieces(s).len() - 1 {
        let piece = pieces(s).last();
        let at = s.len() - piece.len();
        assert(s.subrange(at, at + piece.len()) =~= s.skip(at));
        assert(occurs_at(s, piece, at));
    } else {
        let before = s.drop_last();
        lemma_last_piece_ends_text(before);
        assert(pieces(s)[i] == pieces(before)[i]);
        lemma_piece_stands_in_text(before, i);
        let piece = pieces(before)[i];
        let at = choose|at: int| occurs_at(before, piece, at);
        assert(s.subrange(at, at + piece.len()) =~= before.subrange(at, at + piece.len()));
        assert(occurs_at(s, piece, at));
    }
}

proof fn lemma_parent_piece(list: Seq<Seq<char>>, i: int) -> (k: int)
    requires
        0 <= i < piece_components(list).len(),
        piece_components(list)[i] == Component::ParentDir,
    ensures
        0 <= k < list.len(),
        list[k] == ".."@,
    decreases list.len(),
{
    let before = piece_components(list.drop_last());
    if i < before.len() {
        lemma_parent_piece(list.drop_last(), i)
    } else {
        list.len() - 1
    }
}

proof fn lemma_piece_components_kinds(list: Seq<Seq<char>>, i: int)
    requires
        0 <= i < piece_components(list).len(),
    ensures
        piece_components(list)[i] is Normal || piece_components(list)[i] is ParentDir,
    decreases list.len(),
{
    let before = piece_components(list.drop_last());
    if i < before.len() {
        lemma_piece_components_kinds(list.drop_last(), i);
    }
}

/// No component of a path is a prefix.
pub proof fn lemma_no_prefix(s: Seq<char>, i: int)
    requires
        0 <= i < path_components(s).len(),
    ensures
        !(path_components(s)[i] is Prefix),
{
    let tail = piece_components(pieces(s));
    let skipped = path_components(s).len() - tail.len();
    if i >= skipped {
        assert(path_components(s)[i] == tail[i - skipped]);
        lemma_piece_components_kinds(pieces(s), i - skipped);
    }
}

/// A path that begins at the root is written with a slash at its beginning.
pub proof fn lemma_root_begins_text(s: Seq<char>)
    requires
        path_components(s).len() > 0,
        path_components(s)[0] == Component::RootDir,
    ensures
        s.len() > 0,
        s[0] == '/',
{
    if !(s.len() > 0 && s[0] == '/') {
        let tail = piece_components(pieces(s));
        if path_components(s).len() == tail.len() {
            assert(path_components(s)[0] == tail[0]);
            lemma_piece_components_kinds(pieces(s), 0);
        }
    }
}

/// A text in which `..` occurs nowhere has no component that leads upwards, and one
/// that does not begin with a slash does not begin at the root.
pub proof fn lemma_text_without_dots_never_climbs(s: Seq<char>, i: int)
    requires
        !has_text(s, ".."@),
        s.len() > 0 ==> s[0] != '/',
        0 <= i < path_components(s).len(),
    ensures
        path_components(s)[i] is Normal || path_components(s)[i] is CurDir,
{
    let tail = piece_components(pieces(s));
    let skipped = path_components(s).len() - tail.len();
    if i >= skipped {
        assert(path_components(s)[i] == tail[i - skipped]);
        lemma_piece_components_kinds(pieces(s), i - skipped);
        if tail[i - skipped] is ParentDir {
            let k = lemma_parent_piece(pieces(s), i - skipped);
            lemma_piece_stands_in_text(s, k);
        }
    }
}

/// A path is read from left to right: a slash and what stands behind it up to the end
/// leave the components before them as they are, and add a step up for two dots, nothing
/// for a single dot or for nothing, and a name for anything else.
pub proof fn law_paths_are_read_piece_by_piece(s: Seq<char>, piece: Seq<char>)
    requires
        s.len() > 0,
        forall|k: int| 0 <= k < piece.len() ==> #[trigger] piece[k] != '/',
    ensures
        path_components(s + seq!['/'] + piece) == path_components(s) + if piece.len() == 0
            || piece == seq!['.'] {
            Seq::empty()
        } else if piece == seq!['.', '.'] {
            seq![Component::ParentDir]
        } else {
            seq![Component::Normal(piece)]
        },
{
    lemma_dots();
    assert(!piece.contains('/'));
    lemma_pieces_of_joined(s, piece);
    lemma_pieces_not_empty(s);
    let t = s + seq!['/'] + piece;
    assert(t[0] == s[0]);
    assert(pieces(t)[0] == pieces(s)[0]);
    assert(pieces(t).drop_last() =~= pieces(s));
    assert(path_components(t) =~= path_components(s) + if piece.len() == 0 || piece == "."@ {
        Seq::empty()
    } else if piece == ".."@ {
        seq![Component::ParentDir]
    } else {
        seq![Component::Normal(piece)]
    });
}

/// A path without a slash is a dot, two dots, or a name, and nothing where it is empty. A
/// slash before it is the root, in front of which a single dot counts for nothing.
pub proof fn law_paths_begin_with_a_root_a_dot_or_a_name(piece: Seq<char>)
    requires
        forall|k: int| 0 <= k < piece.len() ==> #[trigger] piece[k] != '/',
    ensures
        path_components(piece) == if piece.len() == 0 {
            Seq::empty()
        } else if piece == seq!['.'] {
            seq![Component::CurDir]
        } else if piece == seq!['.', '.'] {
            seq![Component::ParentDir]
        } else {
            seq![Component::Normal(piece)]
        },
        path_components(seq!['/'] + piece) == if piece.len() == 0 || piece == seq!['.'] {
            seq![Component::RootDir]
        } else if piece == seq!['.', '.'] {
            seq![Component::RootDir, Component::ParentDir]
        } else {
            seq![Component::RootDir, Component::Normal(piece)]
        },
{
    lemma_dots();
    assert(!piece.contains('/'));
    let none = Seq::<char>::empty();
    assert(pieces(none) =~= seq![none]);
    lemma_pieces_extend(none, piece);
    assert(none + piece =~= piece);
    assert(pieces(piece) =~= seq![piece]);
    assert(pieces(piece).drop_last() =~= Seq::<Seq<char>>::empty());
    reveal_with_fuel(piece_components, 2);
    assert(path_components(piece) =~= if piece.len() == 0 {
        Seq::empty()
    } else if piece == "."@ {
        seq![Component::CurDir]
    } else if piece == ".."@ {
        seq![Component::ParentDir]
    } else {
        seq![Component::Normal(piece)]
    });
    lemma_pieces_of_joined(none, piece);
    let t = seq!['/'] + piece;
    assert(none + seq!['/'] + piece =~= t);
    assert(pieces(t) =~= seq![none, piece]);
    assert(pieces(t).drop_last() =~= seq![none]);
    assert(seq![none].drop_last() =~= Seq::<Seq<char>>::empty());
    assert(piece_components(seq![none]) =~= Seq::<Component>::empty());
    assert(path_components(t) =~= if piece.len() == 0 || piece == "."@ {
        seq![Component::RootDir]
    } else if piece == ".."@ {
        seq![Component::RootDir, Component::ParentDir]
    } else {
        seq![Component::RootDir, Component::Normal(piece)]
    });
}

proof fn lemma_dots()
    ensures
        "."@ == seq!['.'],
        ".."@ == seq!['.', '.'],
{
    reveal_strlit(".");
    reveal_strlit("..");
    assert("."@ =~= seq!['.']);
    assert(".."@ =~= seq!['.', '.']);
}

proof fn lemma_pieces_of_joined(s: Seq<char>, piece: Seq<char>)
    requires
        !piece.contains('/'),
    ensures
        pieces(s + seq!['/'] + piece) == pieces(s).push(piece),
{
    let t = s + seq!['/'];
    assert(t.drop_last() =~= s);
    lemma_pieces_extend(t, piece);
    assert(pieces(t) == pieces(s).push(Seq::empty()));
    assert(pieces(t).drop_last() =~= pieces(s));
    assert(Seq::<char>::empty() + piece =~= piece);
}

/// A path is absolute with certain names exactly where it is the root followed by those
/// names.
pub proof fn law_absolute_paths_are_names_behind_the_root(s: Seq<char>, parts: Seq<Seq<char>>)
    ensures
        absolute_parts(s) == Some(parts) <==> path_components(s) == seq![Component::RootDir]
            + parts.map_values(|name: Seq<char>| Component::Normal(name)),
{
    let components = path_components(s);
    let wanted = seq![Component::RootDir] + parts.map_values(
        |name: Seq<char>| Component::Normal(name),
    );
    if components == wanted {
        assert(components.drop_first().map_values(|component: Component| component->Normal_0)
            =~= parts);
    }
    if absolute_parts(s) == Some(parts) {
        assert forall|i: int| 0 <= i < components.len() implies components[i] == wanted[i] by {
            if i > 0 {
                assert(components[i] is Normal);
                assert(parts[i - 1] == components.drop_first()[i - 1]->Normal_0);
            }
        }
        assert(components =~= wanted);
    }
}

/// The text of the root is a slash, that of a name below it a slash and the name, and that
/// of a path inside another the text of the other, a slash and the last name.
pub proof fn law_names_are_written_behind_slashes(parts: Seq<Seq<char>>, name: Seq<char>)
    ensures
        path_text(Seq::empty()) == seq!['/'],
        path_text(seq![name]) == seq!['/'] + name,
        parts.len() > 0 ==> path_text(parts.push(name)) == path_text(parts) + seq!['/'] + name,
{
    assert(parts.push(name).drop_last() =~= parts);
    assert(seq![name].drop_last() =~= Seq::<Seq<char>>::empty());
    assert(slashed(Seq::<Seq<char>>::empty()) =~= Seq::<char>::empty());
    assert(slashed(seq![name]) =~= seq!['/'] + name);
}

/// A name is joined to a path by one slash: there is none behind an empty path, and no
/// second one where the path ends with a slash.
pub proof fn law_names_are_joined_by_one_slash(base: Seq<char>, c: char, name: Seq<char>)
    ensures
        joined_path(Seq::empty(), name) == name,
        joined_path(base.push('/'), name) == base + seq!['/'] + name,
        c != '/' ==> joined_path(base.push(c), name) == base.push(c) + seq!['/'] + name,
{
    assert(joined_path(base.push('/'), name) =~= base + seq!['/'] + name);
}

/// The path that holds a path is the shortest beginning of its text that has the same
/// components without the last one. Only an empty path and one whose last component is the
/// root have none.
pub proof fn law_parents_are_beginnings(s: Seq<char>, parent: Seq<char>)
    ensures
        text_parent(s) is None <==> path_components(s).len() == 0 || path_components(s).last()
            == Component::RootDir,
        text_parent(s) == Some(parent) <==> {
            &&& path_components(s).len() > 0
            &&& path_components(s).last() != Component::RootDir
            &&& parent.len() <= s.len()
            &&& s.take(parent.len() as int) == parent
            &&& path_components(parent) == path_components(s).drop_last()
            &&& forall|j: int|
                0 <= j < parent.len() ==> path_components(#[trigger] s.take(j)) != path_components(
                    s,
                ).drop_last()
        },
{
    let components = path_components(s);
    if components.len() > 0 {
        lemma_no_prefix(s, components.len() - 1);
    }
    if components_parent(components) is Some {
        lemma_some_beginning_is_parent(s);
        let some = choose|k: int| is_parent_at(s, k);
        lemma_shortest_parent(s, some);
        let n = parent_length(s);
        assert(is_parent_at(s, n) && forall|j: int| 0 <= j < n ==> !is_parent_at(s, j));
        assert forall|j: int| 0 <= j < n implies path_components(#[trigger] s.take(j))
            != components.drop_last() by {
            assert(!is_parent_at(s, j));
        }
        if parent.len() <= s.len() && s.take(parent.len() as int) == parent && path_components(
            parent,
        ) == components.drop_last() && (forall|j: int|
            0 <= j < parent.len() ==> path_components(#[trigger] s.take(j))
                != components.drop_last()) {
            assert(is_parent_at(s, parent.len() as int));
            if n < parent.len() {
                assert(path_components(s.take(n)) == components.drop_last());
            }
            assert(n == parent.len());
        }
    }
}

proof fn lemma_shortest_parent(s: Seq<char>, k: int)
    requires
        is_parent_at(s, k),
    ensures
        exists|n: int| is_parent_at(s, n) && forall|j: int| 0 <= j < n ==> !is_parent_at(s, j),
    decreases k,
{
    if exists|j: int| 0 <= j < k && is_parent_at(s, j) {
        let j = choose|j: int| 0 <= j < k && is_parent_at(s, j);
        lemma_shortest_parent(s, j);
    }
}

}
