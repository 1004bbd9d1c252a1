//! Paths: what a workspace holds, and what a terminal may be shown.
use crate::formats::relative_path_format;
use crate::number::{hex4, hex_char, push_hex4};
use crate::paths::{
    all_names, component_models, components_of, is_name, law_path_text_reads_back,
    lemma_component_names, lemma_no_prefix, lemma_root_begins_text,
    lemma_text_without_dots_never_climbs, path_components, path_text, AbsolutePath, Component,
    PathComponent,
};
use crate::text::{
    char_is_control, is_alphanumeric, is_blank, is_control, is_space, same_text, text_is_blank, texts,
};
use vstd::prelude::*;

verus! {

// ---------------------------------------------------------------------------
// Errors
// ---------------------------------------------------------------------------

/// Why a path was refused.
#[derive(Debug, Clone, PartialEq, Eq)]
pub enum PathValidationError {
    WorkspaceRootInvalid(String),
    ParentTraversal,
    UnsupportedComponent,
    BoundaryEscape,
    SymbolicLink(String),
    EmptyPath,
    Metadata { path: String, message: String },
}

/// What a [`PathValidationError`] says.
pub ghost enum PathFault {
    WorkspaceRootInvalid(Seq<char>),
    ParentTraversal,
    UnsupportedComponent,
    BoundaryEscape,
    SymbolicLink(Seq<char>),
    EmptyPath,
    Metadata { path: Seq<char>, message: Seq<char> },
}

impl View for PathValidationError {
    type V = PathFault;

    open spec fn view(&self) -> PathFault {
        match self {
            PathValidationError::WorkspaceRootInvalid(root) => PathFault::WorkspaceRootInvalid(
                root@,
            ),
            PathValidationError::ParentTraversal => PathFault::ParentTraversal,
            PathValidationError::UnsupportedComponent => PathFault::UnsupportedComponent,
            PathValidationError::BoundaryEscape => PathFault::BoundaryEscape,
            PathValidationError::SymbolicLink(path) => PathFault::SymbolicLink(path@),
            PathValidationError::EmptyPath => PathFault::EmptyPath,
            PathValidationError::Metadata { path, message } => PathFault::Metadata {
                path: path@,
                message: message@,
            },
        }
    }
}

/// The text that reports a fault to the user.
pub open spec fn path_fault_text(fault: PathFault) -> Seq<char> {
    match fault {
        PathFault::WorkspaceRootInvalid(root) => {
            "workspace root does not exist or cannot be canonicalized: "@ + root
        },
        PathFault::ParentTraversal => "path contains parent-directory traversal"@,
        PathFault::UnsupportedComponent => "path contains unsupported prefix or root component"@,
        PathFault::BoundaryEscape => "path escapes workspace root"@,
        PathFault::SymbolicLink(path) => "path crosses symbolic link: "@ + path,
        PathFault::EmptyPath => "path component is empty"@,
        PathFault::Metadata { path, message } => "filesystem metadata error for "@ + path + ": "@
            + message,
    }
}

impl PathValidationError {
    /// The text that reports the error to the user.
    pub fn message(&self) -> (text: String)
        ensures
            text@ == path_fault_text(self@),
    {
        match self {
            PathValidationError::WorkspaceRootInvalid(root) => {
                "workspace root does not exist or cannot be canonicalized: ".to_owned().concat(
                    root.as_str(),
                )
            },
            PathValidationError::ParentTraversal => {
                "path contains parent-directory traversal".to_owned()
            },
            PathValidationError::UnsupportedComponent => {
                "path contains unsupported prefix or root component".to_owned()
            },
            PathValidationError::BoundaryEscape => "path escapes workspace root".to_owned(),
            PathValidationError::SymbolicLink(path) => {
                "path crosses symbolic link: ".to_owned().concat(path.as_str())
            },
            PathValidationError::EmptyPath => "path component is empty".to_owned(),
            PathValidationError::Metadata { path, message } => {
                "filesystem metadata error for ".to_owned().concat(path.as_str()).concat(
                    ": ",
                ).concat(message.as_str())
            },
        }
    }
}

// ---------------------------------------------------------------------------
// The steps of a validation
// ---------------------------------------------------------------------------

/// What was found at a path, when a link there is not followed.
#[derive(Debug, Clone, PartialEq, Eq)]
pub enum Inspection {
    Link,
    Present,
    Missing,
    Failed(String),
}

/// What an [`Inspection`] says.
pub ghost enum Finding {
    Link,
    Present,
    Missing,
    Failed(Seq<char>),
}

impl View for Inspection {
    type V = Finding;

    open spec fn view(&self) -> Finding {
        match self {
            Inspection::Link => Finding::Link,
            Inspection::Present => Finding::Present,
            Inspection::Missing => Finding::Missing,
            Inspection::Failed(message) => Finding::Failed(message@),
        }
    }
}

/// A path that lies inside a workspace.
#[derive(Debug, PartialEq, Eq)]
pub struct ValidatedPath {
    pub workspace_root: AbsolutePath,
    pub resolved_path: AbsolutePath,
    pub nearest_existing_parent: AbsolutePath,
    pub missing_components: Vec<String>,
}

/// What a [`ValidatedPath`] says.
pub ghost struct ValidatedModel {
    pub root: Seq<Seq<char>>,
    pub resolved: Seq<Seq<char>>,
    pub parent: Seq<Seq<char>>,
    pub missing: Seq<Seq<char>>,
}

impl View for ValidatedPath {
    type V = ValidatedModel;

    open spec fn view(&self) -> ValidatedModel {
        ValidatedModel {
            root: self.workspace_root@,
            resolved: self.resolved_path@,
            parent: self.nearest_existing_parent@,
            missing: texts(self.missing_components@),
        }
    }
}

/// A walk from the root of a workspace down the components of a path. The part that
/// lies behind it exists and crosses no link.
#[derive(Debug, PartialEq, Eq)]
pub struct PathWalk {
    root: AbsolutePath,
    cursor: AbsolutePath,
    rest: Vec<String>,
}

/// What a [`PathWalk`] says: where it is, and the components ahead of it.
pub ghost struct WalkModel {
    pub root: Seq<Seq<char>>,
    pub cursor: Seq<Seq<char>>,
    pub rest: Seq<Seq<char>>,
}

impl View for PathWalk {
    type V = WalkModel;

    closed spec fn view(&self) -> WalkModel {
        WalkModel {
            root: self.root@,
            cursor: self.cursor@,
            rest: texts(self.rest@),
        }
    }
}

impl WalkModel {
    /// The walk is below its root, and there is a component ahead of it.
    pub open spec fn wf(self) -> bool {
        &&& self.root.is_prefix_of(self.cursor)
        &&& all_names(self.cursor)
        &&& all_names(self.rest)
        &&& self.rest.len() > 0
    }

    /// The path that the walk comes to next.
    pub open spec fn next(self) -> Seq<Seq<char>> {
        self.cursor.push(self.rest[0])
    }
}

/// A search for the nearest directory above a path that exists.
#[derive(Debug, PartialEq, Eq)]
pub struct ParentSearch {
    root: AbsolutePath,
    resolved: AbsolutePath,
    missing: Vec<String>,
    candidate: AbsolutePath,
}

/// What a [`ParentSearch`] says.
pub ghost struct SearchModel {
    pub root: Seq<Seq<char>>,
    pub resolved: Seq<Seq<char>>,
    pub missing: Seq<Seq<char>>,
    pub candidate: Seq<Seq<char>>,
}

impl View for ParentSearch {
    type V = SearchModel;

    closed spec fn view(&self) -> SearchModel {
        SearchModel {
            root: self.root@,
            resolved: self.resolved@,
            missing: texts(self.missing@),
            candidate: self.candidate@,
        }
    }
}

impl SearchModel {
    /// The resolved path is below the root, and the search is at it or above it.
    pub open spec fn wf(self) -> bool {
        &&& self.root.is_prefix_of(self.resolved)
        &&& all_names(self.resolved)
        &&& self.candidate.is_prefix_of(self.resolved)
    }
}

/// What a validation asks of the file system next, or its outcome.
#[derive(Debug, PartialEq, Eq)]
pub enum PathStep {
    /// Inspect the next path of the walk.
    Inspect(PathWalk),
    /// Bring the next path of the walk into its canonical form.
    Canonicalize(PathWalk),
    /// Find out whether the candidate of the search exists.
    Exists(ParentSearch),
    /// Bring the candidate of the search into its canonical form.
    CanonicalizeParent(ParentSearch),
    /// The path is valid, or it is refused.
    Done(Result<ValidatedPath, PathValidationError>),
}

/// What a [`PathStep`] says.
pub ghost enum StepModel {
    Inspect(WalkModel),
    Canonicalize(WalkModel),
    Exists(SearchModel),
    CanonicalizeParent(SearchModel),
    Done(Result<ValidatedModel, PathFault>),
}

impl View for PathStep {
    type V = StepModel;

    open spec fn view(&self) -> StepModel {
        match self {
            PathStep::Inspect(walk) => StepModel::Inspect(walk@),
            PathStep::Canonicalize(walk) => StepModel::Canonicalize(walk@),
            PathStep::Exists(search) => StepModel::Exists(search@),
            PathStep::CanonicalizeParent(search) => StepModel::CanonicalizeParent(search@),
            PathStep::Done(Ok(path)) => StepModel::Done(Ok(path@)),
            PathStep::Done(Err(error)) => StepModel::Done(Err(error@)),
        }
    }
}

impl StepModel {
    /// Nothing that a validation holds lies outside the root of the workspace.
    pub open spec fn wf(self) -> bool {
        match self {
            StepModel::Inspect(walk) | StepModel::Canonicalize(walk) => walk.wf(),
            StepModel::Exists(search) | StepModel::CanonicalizeParent(search) => search.wf(),
            StepModel::Done(Ok(path)) => path.root.is_prefix_of(path.resolved)
                && path.root.is_prefix_of(path.parent),
            StepModel::Done(Err(_)) => true,
        }
    }
}

/// What is unsafe in the components of a raw path, if anything is.
pub open spec fn unsafe_component(components: Seq<Component>) -> Option<PathFault>
    decreases components.len(),
{
    if components.len() == 0 {
        None
    } else {
        match components[0] {
            Component::ParentDir => Some(PathFault::ParentTraversal),
            Component::Prefix => Some(PathFault::UnsupportedComponent),
            _ => unsafe_component(components.drop_first()),
        }
    }
}

/// What cannot stand in the components below a root, if anything cannot.
pub open spec fn misplaced_component(components: Seq<Component>) -> Option<PathFault>
    decreases components.len(),
{
    if components.len() == 0 {
        None
    } else {
        match components[0] {
            Component::ParentDir => Some(PathFault::ParentTraversal),
            Component::Prefix | Component::RootDir => Some(PathFault::UnsupportedComponent),
            _ => misplaced_component(components.drop_first()),
        }
    }
}

/// The names among components.
pub open spec fn component_names(components: Seq<Component>) -> Seq<Seq<char>>
    decreases components.len(),
{
    if components.len() == 0 {
        Seq::empty()
    } else {
        match components.last() {
            Component::Normal(name) => component_names(components.drop_last()).push(name),
            _ => component_names(components.drop_last()),
        }
    }
}

/// The path begins at the root of the file system.
pub open spec fn is_absolute(components: Seq<Component>) -> bool {
    components.len() > 0 && components[0] == Component::RootDir
}

/// The components behind the ones of a workspace root, for a path that begins at the
/// root of the file system; all components, for one that does not.
pub open spec fn below_root(root: Seq<Seq<char>>, components: Seq<Component>) -> Option<
    Seq<Component>,
> {
    let names = root.map_values(|name: Seq<char>| Component::Normal(name));
    if !is_absolute(components) {
        Some(components)
    } else if names.is_prefix_of(components.drop_first()) {
        Some(components.skip(root.len() as int + 1))
    } else {
        None
    }
}

/// The names that lead from a workspace root to a path.
pub open spec fn relative_parts(root: Seq<Seq<char>>, components: Seq<Component>) -> Result<
    Seq<Seq<char>>,
    PathFault,
> {
    match below_root(root, components) {
        None => Err(PathFault::BoundaryEscape),
        Some(below) => match misplaced_component(below) {
            Some(fault) => Err(fault),
            None => Ok(component_names(below)),
        },
    }
}

/// The step of a walk that has come to a place.
pub open spec fn walk_on(
    root: Seq<Seq<char>>,
    cursor: Seq<Seq<char>>,
    rest: Seq<Seq<char>>,
) -> StepModel {
    if rest.len() > 0 {
        StepModel::Inspect(WalkModel { root, cursor, rest })
    } else {
        StepModel::Exists(
            SearchModel { root, resolved: cursor, missing: Seq::empty(), candidate: cursor },
        )
    }
}

/// The first step of a validation.
pub open spec fn first_step(
    display: Seq<char>,
    root: Result<Seq<Seq<char>>, Seq<char>>,
    raw: Seq<char>,
) -> StepModel {
    if is_blank(raw) {
        StepModel::Done(Err(PathFault::EmptyPath))
    } else {
        match root {
            Err(message) => StepModel::Done(
                Err(PathFault::WorkspaceRootInvalid(display + " ("@ + message + ")"@)),
            ),
            Ok(root) => match unsafe_component(path_components(raw)) {
                Some(fault) => StepModel::Done(Err(fault)),
                None => match relative_parts(root, path_components(raw)) {
                    Err(fault) => StepModel::Done(Err(fault)),
                    Ok(rest) => walk_on(root, root, rest),
                },
            },
        }
    }
}

/// The step after the next path of a walk was inspected.
pub open spec fn inspected_step(walk: WalkModel, finding: Finding) -> StepModel {
    match finding {
        Finding::Link => StepModel::Done(Err(PathFault::SymbolicLink(path_text(walk.next())))),
        Finding::Present => StepModel::Canonicalize(walk),
        Finding::Missing => StepModel::Exists(
            SearchModel {
                root: walk.root,
                resolved: walk.cursor + walk.rest,
                missing: walk.rest,
                candidate: walk.cursor + walk.rest,
            },
        ),
        Finding::Failed(message) => StepModel::Done(
            Err(PathFault::Metadata { path: path_text(walk.next()), message }),
        ),
    }
}

/// The step after the next path of a walk was brought into its canonical form.
pub open spec fn canonicalized_step(
    walk: WalkModel,
    canonical: Result<Seq<Seq<char>>, Seq<char>>,
) -> StepModel {
    match canonical {
        Err(message) => StepModel::Done(
            Err(PathFault::Metadata { path: path_text(walk.next()), message }),
        ),
        Ok(path) => if walk.root.is_prefix_of(path) {
            walk_on(walk.root, path, walk.rest.drop_first())
        } else {
            StepModel::Done(Err(PathFault::BoundaryEscape))
        },
    }
}

/// The step after the candidate of a search was looked for.
pub open spec fn searched_step(search: SearchModel, exists_there: bool) -> StepModel {
    if exists_there || search.candidate.len() == 0 {
        StepModel::CanonicalizeParent(search)
    } else {
        StepModel::Exists(SearchModel { candidate: search.candidate.drop_last(), ..search })
    }
}

/// The last step, after the candidate of a search was brought into its canonical form.
pub open spec fn last_step(
    search: SearchModel,
    canonical: Result<Seq<Seq<char>>, Seq<char>>,
) -> StepModel {
    match canonical {
        Err(message) => StepModel::Done(
            Err(PathFault::Metadata { path: path_text(search.candidate), message }),
        ),
        Ok(parent) => if search.root.is_prefix_of(parent) && search.root.is_prefix_of(
            search.resolved,
        ) {
            StepModel::Done(
                Ok(
                    ValidatedModel {
                        root: search.root,
                        resolved: search.resolved,
                        parent,
                        missing: search.missing,
                    },
                ),
            )
        } else {
            StepModel::Done(Err(PathFault::BoundaryEscape))
        },
    }
}

/// A canonical path, or the message of the failure to get one.
pub open spec fn canonical_model(canonical: Result<AbsolutePath, String>) -> Result<
    Seq<Seq<char>>,
    Seq<char>,
> {
    match canonical {
        Ok(path) => Ok(path@),
        Err(message) => Err(message@),
    }
}

/// A canonical path holds nothing but names.
pub open spec fn canonical_wf(canonical: Result<AbsolutePath, String>) -> bool {
    match canonical {
        Ok(path) => path.wf(),
        Err(_) => true,
    }
}

fn reject_unsafe_raw_components(components: &Vec<PathComponent>) -> (result: Result<
    (),
    PathValidationError,
>)
    ensures
        match unsafe_component(component_models(components@)) {
            Some(fault) => result is Err && result->Err_0@ == fault,
            None => result is Ok,
        },
{
    let ghost models = component_models(components@);
    assert(models.skip(0) =~= models);
    let mut i: usize = 0;
    while i < components.len()
        invariant
            models == component_models(components@),
            i <= components@.len(),
            unsafe_component(models) == unsafe_component(models.skip(i as int)),
        decreases components@.len() - i,
    {
        assert(models[i as int] == components@[i as int]@);
        assert(models.skip(i as int).drop_first() =~= models.skip(i + 1));
        match &components[i] {
            PathComponent::ParentDir => {
                return Err(PathValidationError::ParentTraversal);
            },
            PathComponent::Prefix => {
                return Err(PathValidationError::UnsupportedComponent);
            },
            _ => {},
        }
        i += 1;
    }
    Ok(())
}

/// The number of leading components that belong to the root, or `None` where the
/// components lead elsewhere.
fn root_length(root: &AbsolutePath, components: &Vec<PathComponent>) -> (n: Option<usize>)
    ensures
        match n {
            Some(n) => n <= components@.len() && below_root(
                root@,
                component_models(components@),
            ) == Some(component_models(components@).skip(n as int)),
            None => below_root(root@, component_models(components@)) is None,
        },
{
    let ghost models = component_models(components@);
    let ghost names = root@.map_values(|name: Seq<char>| Component::Normal(name));
    assert(models.skip(0) =~= models);
    if components.len() == 0 {
        return Some(0);
    }
    assert(models[0] == components@[0]@);
    match &components[0] {
        PathComponent::RootDir => {},
        _ => {
            return Some(0);
        },
    }
    if root.depth() > components.len() - 1 {
        return None;
    }
    let mut i: usize = 0;
    while i < root.depth()
        invariant
            models == component_models(components@),
            names == root@.map_values(|name: Seq<char>| Component::Normal(name)),
            is_absolute(models),
            i <= root@.len() < components@.len(),
            forall|j: int| 0 <= j < i ==> #[trigger] names[j] == models.drop_first()[j],
        decreases root@.len() - i,
    {
        assert(models.drop_first()[i as int] == components@[i + 1]@);
        let same = match &components[i + 1] {
            PathComponent::Normal(name) => same_text(name.as_str(), root.part(i)),
            _ => false,
        };
        if !same {
            assert(models.drop_first().take(names.len() as int)[i as int] != names[i as int]);
            return None;
        }
        i += 1;
    }
    assert(models.drop_first().take(names.len() as int) =~= names);
    Some(root.depth() + 1)
}

/// The names that lead from a workspace root to a path.
fn relative_components(root: &AbsolutePath, components: &Vec<PathComponent>) -> (result: Result<
    Vec<String>,
    PathValidationError,
>)
    ensures
        match result {
            Ok(names) => relative_parts(root@, component_models(components@)) == Ok::<
                Seq<Seq<char>>,
                PathFault,
            >(texts(names@)),
            Err(error) => relative_parts(root@, component_models(components@)) == Err::<
                Seq<Seq<char>>,
                PathFault,
            >(error@),
        },
{
    let n = match root_length(root, components) {
        Some(n) => n,
        None => {
            return Err(PathValidationError::BoundaryEscape);
        },
    };
    let ghost below = component_models(components@).skip(n as int);
    let mut names: Vec<String> = Vec::new();
    let mut i: usize = n;
    proof {
        assert(below.skip(0) =~= below);
        assert(below.take(0) =~= Seq::<Component>::empty());
        assert(texts(names@) =~= component_names(below.take(0)));
    }
    while i < components.len()
        invariant
            below == component_models(components@).skip(n as int),
            below_root(root@, component_models(components@)) == Some(below),
            n <= i <= components@.len(),
            texts(names@) == component_names(below.take(i - n)),
            misplaced_component(below) == misplaced_component(below.skip(i - n)),
        decreases components@.len() - i,
    {
        let ghost before = texts(names@);
        proof {
            let k = i - n;
            assert(below[k] == components@[i as int]@);
            assert(below.skip(k).drop_first() =~= below.skip(k + 1));
            assert(below.take(k + 1).drop_last() =~= below.take(k));
            assert(below.take(k + 1).last() == components@[i as int]@);
        }
        match &components[i] {
            PathComponent::Normal(name) => {
                names.push(name.clone());
                assert(texts(names@) =~= before.push(name@));
            },
            PathComponent::CurDir => {},
            PathComponent::ParentDir => {
                return Err(PathValidationError::ParentTraversal);
            },
            PathComponent::Prefix | PathComponent::RootDir => {
                return Err(PathValidationError::UnsupportedComponent);
            },
        }
        i += 1;
    }
    assert(below.take(below.len() as int) =~= below);
    Ok(names)
}

proof fn lemma_component_names_are_names(components: Seq<Component>)
    requires
        forall|i: int|
            0 <= i < components.len() && (#[trigger] components[i]) is Normal ==> is_name(
                components[i]->Normal_0,
            ),
    ensures
        all_names(component_names(components)),
    decreases components.len(),
{
    if components.len() > 0 {
        let before = components.drop_last();
        assert forall|i: int|
            0 <= i < before.len() && (#[trigger] before[i]) is Normal implies is_name(
            before[i]->Normal_0,
        ) by {
            assert(before[i] == components[i]);
        }
        lemma_component_names_are_names(before);
        assert(components[components.len() - 1] == components.last());
    }
}

/// Begins to validate an untrusted path against a workspace. `workspace_root` is the
/// root as the user wrote it, and `canonical_root` its canonical form or the message of
/// the failure to get one.
pub fn validate_workspace_path(
    workspace_root: &str,
    canonical_root: Result<AbsolutePath, String>,
    raw_untrusted_path: &str,
) -> (step: PathStep)
    requires
        canonical_wf(canonical_root),
    ensures
        step@ == first_step(workspace_root@, canonical_model(canonical_root), raw_untrusted_path@),
        step@.wf(),
{
    if text_is_blank(raw_untrusted_path) {
        return PathStep::Done(Err(PathValidationError::EmptyPath));
    }
    let root = match canonical_root {
        Ok(root) => root,
        Err(message) => {
            return PathStep::Done(
                Err(
                    PathValidationError::WorkspaceRootInvalid(
                        workspace_root.to_owned().concat(" (").concat(message.as_str()).concat(")"),
                    ),
                ),
            );
        },
    };
    let components = components_of(raw_untrusted_path);
    match reject_unsafe_raw_components(&components) {
        Ok(()) => {},
        Err(error) => {
            return PathStep::Done(Err(error));
        },
    }
    match relative_components(&root, &components) {
        Ok(names) => {
            proof {
                lemma_relative_parts_are_names(root@, raw_untrusted_path@);
                assert(root@.take(root@.len() as int) =~= root@);
            }
            let cursor = root.copy();
            resume_walk(PathWalk { root, cursor, rest: names })
        },
        Err(error) => PathStep::Done(Err(error)),
    }
}

/// The step of a walk that has come to a place.
fn resume_walk(walk: PathWalk) -> (step: PathStep)
    requires
        walk.root@.is_prefix_of(walk.cursor@),
        all_names(walk.cursor@),
        all_names(texts(walk.rest@)),
    ensures
        step@ == walk_on(walk@.root, walk@.cursor, walk@.rest),
        step@.wf(),
{
    if walk.rest.len() > 0 {
        return PathStep::Inspect(walk);
    }
    let missing: Vec<String> = Vec::new();
    let candidate = walk.cursor.copy();
    proof {
        assert(walk@.rest.len() == 0);
        assert(texts(missing@) =~= Seq::<Seq<char>>::empty());
        assert(walk.cursor@.take(walk.cursor@.len() as int) =~= walk.cursor@);
    }
    PathStep::Exists(
        ParentSearch { root: walk.root, resolved: walk.cursor, missing, candidate },
    )
}

impl PathWalk {
    /// The path that the walk comes to next.
    pub fn next_path(&self) -> (path: AbsolutePath)
        requires
            self@.wf(),
        ensures
            path@ == self@.next(),
            path.wf(),
    {
        assert(self@.rest[0] == self.rest@[0]@);
        let path = self.cursor.child(self.rest[0].as_str());
        assert forall|i: int| 0 <= i < path@.len() implies is_name(#[trigger] path@[i]) by {
            if i < self@.cursor.len() {
                assert(is_name(self@.cursor[i]));
            } else {
                assert(is_name(self@.rest[0]));
            }
        }
        path
    }

    /// Goes on once the next path was inspected.
    pub fn inspected(self, inspection: Inspection) -> (step: PathStep)
        requires
            self@.wf(),
        ensures
            step@ == inspected_step(self@, inspection@),
            step@.wf(),
    {
        match inspection {
            Inspection::Link => PathStep::Done(
                Err(PathValidationError::SymbolicLink(self.next_path().to_text())),
            ),
            Inspection::Present => PathStep::Canonicalize(self),
            Inspection::Missing => {
                let ghost walk = self@;
                let mut missing: Vec<String> = Vec::new();
                let mut resolved = self.cursor.copy();
                let mut i: usize = 0;
                assert(walk.rest.take(0) =~= Seq::<Seq<char>>::empty());
                assert(texts(missing@) =~= walk.rest.take(0));
                assert(walk.cursor + walk.rest.take(0) =~= walk.cursor);
                while i < self.rest.len()
                    invariant
                        walk == self@,
                        i <= self.rest@.len(),
                        texts(missing@) == walk.rest.take(i as int),
                        resolved@ == walk.cursor + walk.rest.take(i as int),
                    decreases self.rest@.len() - i,
                {
                    let ghost before = texts(missing@);
                    let ghost name = self.rest@[i as int]@;
                    assert(walk.rest.take(i + 1) =~= walk.rest.take(i as int).push(name));
                    missing.push(self.rest[i].clone());
                    assert(texts(missing@) =~= before.push(name));
                    resolved = resolved.child(self.rest[i].as_str());
                    assert(resolved@ =~= walk.cursor + walk.rest.take(i + 1));
                    i += 1;
                }
                proof {
                    assert(walk.rest.take(walk.rest.len() as int) =~= walk.rest);
                    lemma_below(walk.root, walk.cursor, walk.rest);
                    assert(resolved@.take(resolved@.len() as int) =~= resolved@);
                }
                let candidate = resolved.copy();
                PathStep::Exists(ParentSearch { root: self.root, resolved, missing, candidate })
            },
            Inspection::Failed(message) => PathStep::Done(
                Err(
                    PathValidationError::Metadata { path: self.next_path().to_text(), message },
                ),
            ),
        }
    }

    /// Goes on once the next path was brought into its canonical form.
    pub fn canonicalized(self, canonical: Result<AbsolutePath, String>) -> (step: PathStep)
        requires
            self@.wf(),
            canonical_wf(canonical),
        ensures
            step@ == canonicalized_step(self@, canonical_model(canonical)),
            step@.wf(),
    {
        match canonical {
            Err(message) => PathStep::Done(
                Err(
                    PathValidationError::Metadata { path: self.next_path().to_text(), message },
                ),
            ),
            Ok(path) => {
                if !path.starts_with(&self.root) {
                    return PathStep::Done(Err(PathValidationError::BoundaryEscape));
                }
                let ghost before = self@.rest;
                let mut rest = self.rest;
                rest.remove(0);
                proof {
                    assert(texts(rest@) =~= before.drop_first());
                    assert forall|i: int| 0 <= i < texts(rest@).len() implies is_name(
                        #[trigger] texts(rest@)[i],
                    ) by {
                        assert(texts(rest@)[i] == before[i + 1]);
                    }
                }
                resume_walk(PathWalk { root: self.root, cursor: path, rest })
            },
        }
    }
}

proof fn lemma_below(root: Seq<Seq<char>>, cursor: Seq<Seq<char>>, rest: Seq<Seq<char>>)
    requires
        root.is_prefix_of(cursor),
        all_names(cursor),
        all_names(rest),
    ensures
        root.is_prefix_of(cursor + rest),
        all_names(cursor + rest),
{
    assert((cursor + rest).take(root.len() as int) =~= cursor.take(root.len() as int));
    assert forall|i: int| 0 <= i < (cursor + rest).len() implies is_name(
        #[trigger] (cursor + rest)[i],
    ) by {
        if i < cursor.len() {
            assert((cursor + rest)[i] == cursor[i]);
        } else {
            assert((cursor + rest)[i] == rest[i - cursor.len()]);
        }
    }
}

impl ParentSearch {
    /// The path that the search is at.
    pub fn candidate_path(&self) -> (path: AbsolutePath)
        ensures
            path@ == self@.candidate,
    {
        self.candidate.copy()
    }

    /// Goes on once it is known whether the candidate exists.
    pub fn searched(self, exists_there: bool) -> (step: PathStep)
        requires
            self@.wf(),
        ensures
            step@ == searched_step(self@, exists_there),
            step@.wf(),
    {
        if exists_there {
            return PathStep::CanonicalizeParent(self);
        }
        match self.candidate.parent() {
            None => PathStep::CanonicalizeParent(self),
            Some(parent) => {
                proof {
                    let resolved = self@.resolved;
                    assert(self@.candidate.drop_last() =~= resolved.take(
                        self@.candidate.len() - 1,
                    ));
                }
                PathStep::Exists(
                    ParentSearch {
                        root: self.root,
                        resolved: self.resolved,
                        missing: self.missing,
                        candidate: parent,
                    },
                )
            },
        }
    }

    /// Ends the validation once the candidate was brought into its canonical form.
    pub fn canonicalized(self, canonical: Result<AbsolutePath, String>) -> (step: PathStep)
        requires
            self@.wf(),
        ensures
            step@ == last_step(self@, canonical_model(canonical)),
            step@.wf(),
    {
        match canonical {
            Err(message) => PathStep::Done(
                Err(PathValidationError::Metadata { path: self.candidate.to_text(), message }),
            ),
            Ok(parent) => {
                if !parent.starts_with(&self.root) || !self.resolved.starts_with(&self.root) {
                    return PathStep::Done(Err(PathValidationError::BoundaryEscape));
                }
                PathStep::Done(
                    Ok(
                        ValidatedPath {
                            workspace_root: self.root,
                            resolved_path: self.resolved,
                            nearest_existing_parent: parent,
                            missing_components: self.missing,
                        },
                    ),
                )
            },
        }
    }
}

// ---------------------------------------------------------------------------
// Laws of validation
// ---------------------------------------------------------------------------

/// What a file system answers to each request of a validation.
pub ghost struct FileSystem {
    pub inspect: spec_fn(Seq<Seq<char>>) -> Finding,
    pub canonical: spec_fn(Seq<Seq<char>>) -> Result<Seq<Seq<char>>, Seq<char>>,
    pub exists_at: spec_fn(Seq<Seq<char>>) -> bool,
}

impl FileSystem {
    /// The canonical form of a path holds nothing but names.
    pub open spec fn wf(self) -> bool {
        forall|path: Seq<Seq<char>>|
            (#[trigger] (self.canonical)(path)) is Ok ==> all_names((self.canonical)(path)->Ok_0)
    }
}

/// How far a validation is from its outcome.
pub open spec fn stage(step: StepModel) -> nat {
    match step {
        StepModel::Inspect(_) | StepModel::Canonicalize(_) => 2,
        StepModel::Exists(_) | StepModel::CanonicalizeParent(_) => 1,
        StepModel::Done(_) => 0,
    }
}

/// The number of steps that a stage of a validation takes at most.
pub open spec fn remaining(step: StepModel) -> nat {
    match step {
        StepModel::Inspect(walk) => 2 * walk.rest.len() + 1,
        StepModel::Canonicalize(walk) => 2 * walk.rest.len(),
        StepModel::Exists(search) => search.candidate.len() + 1,
        StepModel::CanonicalizeParent(_) => 0,
        StepModel::Done(_) => 0,
    }
}

/// The outcome of a validation, from a step on, when a file system answers it.
pub open spec fn outcome(fs: FileSystem, step: StepModel) -> Result<ValidatedModel, PathFault>
    decreases stage(step), remaining(step),
    when step.wf()
{
    match step {
        StepModel::Inspect(walk) => outcome(fs, inspected_step(walk, (fs.inspect)(walk.next()))),
        StepModel::Canonicalize(walk) => outcome(
            fs,
            canonicalized_step(walk, (fs.canonical)(walk.next())),
        ),
        StepModel::Exists(search) => outcome(
            fs,
            searched_step(search, (fs.exists_at)(search.candidate)),
        ),
        StepModel::CanonicalizeParent(search) => outcome(
            fs,
            last_step(search, (fs.canonical)(search.candidate)),
        ),
        StepModel::Done(result) => result,
    }
}

proof fn lemma_steps_stay_inside(fs: FileSystem, step: StepModel)
    requires
        fs.wf(),
        step.wf(),
    ensures
        match step {
            StepModel::Inspect(walk) => inspected_step(walk, (fs.inspect)(walk.next())).wf(),
            StepModel::Canonicalize(walk) => canonicalized_step(
                walk,
                (fs.canonical)(walk.next()),
            ).wf(),
            StepModel::Exists(search) => searched_step(
                search,
                (fs.exists_at)(search.candidate),
            ).wf(),
            StepModel::CanonicalizeParent(search) => last_step(
                search,
                (fs.canonical)(search.candidate),
            ).wf(),
            StepModel::Done(_) => true,
        },
{
    match step {
        StepModel::Inspect(walk) => {
            lemma_below(walk.root, walk.cursor, walk.rest);
            let all = walk.cursor + walk.rest;
            assert(all.take(all.len() as int) =~= all);
        },
        StepModel::Canonicalize(walk) => {
            let rest = walk.rest.drop_first();
            assert forall|i: int| 0 <= i < rest.len() implies is_name(#[trigger] rest[i]) by {
                assert(rest[i] == walk.rest[i + 1]);
            }
            if let Ok(path) = (fs.canonical)(walk.next()) {
                assert(path.take(path.len() as int) =~= path);
            }
        },
        StepModel::Exists(search) => {
            if search.candidate.len() > 0 {
                assert(search.candidate.drop_last() =~= search.resolved.take(
                    search.candidate.len() - 1,
                ));
            }
        },
        _ => {},
    }
}

/// A path that a validation accepts lies inside the workspace, and so does the nearest
/// directory above it that exists, whatever the file system answers.
pub proof fn law_valid_paths_lie_inside_the_workspace(fs: FileSystem, step: StepModel)
    requires
        fs.wf(),
        step.wf(),
    ensures
        match outcome(fs, step) {
            Ok(path) => path.root.is_prefix_of(path.resolved) && path.root.is_prefix_of(
                path.parent,
            ),
            Err(_) => true,
        },
    decreases stage(step), remaining(step),
{
    lemma_steps_stay_inside(fs, step);
    match step {
        StepModel::Inspect(walk) => {
            law_valid_paths_lie_inside_the_workspace(
                fs,
                inspected_step(walk, (fs.inspect)(walk.next())),
            );
        },
        StepModel::Canonicalize(walk) => {
            law_valid_paths_lie_inside_the_workspace(
                fs,
                canonicalized_step(walk, (fs.canonical)(walk.next())),
            );
        },
        StepModel::Exists(search) => {
            law_valid_paths_lie_inside_the_workspace(
                fs,
                searched_step(search, (fs.exists_at)(search.candidate)),
            );
        },
        StepModel::CanonicalizeParent(search) => {
            law_valid_paths_lie_inside_the_workspace(
                fs,
                last_step(search, (fs.canonical)(search.candidate)),
            );
        },
        StepModel::Done(_) => {},
    }
}

/// The outcome keeps the path of a search and its missing components.
spec fn keeps_path(search: SearchModel, result: Result<ValidatedModel, PathFault>) -> bool {
    match result {
        Ok(path) => path.resolved == search.resolved && path.missing == search.missing,
        Err(_) => true,
    }
}

proof fn lemma_search_keeps_path(fs: FileSystem, search: SearchModel)
    requires
        fs.wf(),
        search.wf(),
    ensures
        keeps_path(search, outcome(fs, StepModel::CanonicalizeParent(search))),
        keeps_path(search, outcome(fs, StepModel::Exists(search))),
    decreases search.candidate.len(),
{
    let parent = StepModel::CanonicalizeParent(search);
    let step = StepModel::Exists(search);
    lemma_steps_stay_inside(fs, parent);
    lemma_steps_stay_inside(fs, step);
    let done = last_step(search, (fs.canonical)(search.candidate));
    assert(outcome(fs, parent) == outcome(fs, done));
    let next = searched_step(search, (fs.exists_at)(search.candidate));
    assert(outcome(fs, step) == outcome(fs, next));
    if next is Exists {
        let above = SearchModel { candidate: search.candidate.drop_last(), ..search };
        lemma_search_keeps_path(fs, above);
    }
}

/// The first `count` components of a walk exist, and none of them is a link.
pub open spec fn present_up_to(fs: FileSystem, walk: WalkModel, count: int) -> bool {
    forall|k: int|
        0 < k <= count ==> (fs.inspect)(walk.cursor + #[trigger] walk.rest.take(k))
            == Finding::Present
}

/// A path that is reached through components that are no links is its own canonical
/// form.
pub open spec fn links_alone_redirect(fs: FileSystem, walk: WalkModel) -> bool {
    forall|k: int|
        0 < k <= walk.rest.len() && present_up_to(fs, walk, k) ==> (fs.canonical)(
            walk.cursor + #[trigger] walk.rest.take(k),
        ) == Ok::<Seq<Seq<char>>, Seq<char>>(walk.cursor + walk.rest.take(k))
}

/// The walk one component further down.
spec fn walk_ahead(walk: WalkModel) -> WalkModel {
    WalkModel { root: walk.root, cursor: walk.next(), rest: walk.rest.drop_first() }
}

proof fn lemma_take_ahead(walk: WalkModel, k: int)
    requires
        0 <= k < walk.rest.len(),
    ensures
        walk_ahead(walk).cursor + walk_ahead(walk).rest.take(k) == walk.cursor + walk.rest.take(
            k + 1,
        ),
{
    assert(walk_ahead(walk).cursor + walk_ahead(walk).rest.take(k) =~= walk.cursor + walk.rest.take(
        k + 1,
    ));
}

proof fn lemma_present_ahead(fs: FileSystem, walk: WalkModel, count: int)
    requires
        walk.rest.len() > 0,
        count < walk.rest.len(),
        (fs.inspect)(walk.next()) == Finding::Present,
        present_up_to(fs, walk_ahead(walk), count),
    ensures
        present_up_to(fs, walk, count + 1),
{
    assert forall|k: int| 0 < k <= count + 1 implies (fs.inspect)(
        walk.cursor + #[trigger] walk.rest.take(k),
    ) == Finding::Present by {
        lemma_take_ahead(walk, k - 1);
        if k > 1 {
            assert(walk_ahead(walk).rest.take(k - 1) == walk_ahead(walk).rest.take(k - 1));
        } else {
            assert(walk_ahead(walk).cursor + walk_ahead(walk).rest.take(0) =~= walk.next());
        }
    }
}

proof fn lemma_redirect_ahead(fs: FileSystem, walk: WalkModel)
    requires
        walk.rest.len() > 0,
        (fs.inspect)(walk.next()) == Finding::Present,
        links_alone_redirect(fs, walk),
    ensures
        (fs.canonical)(walk.next()) == Ok::<Seq<Seq<char>>, Seq<char>>(walk.next()),
        links_alone_redirect(fs, walk_ahead(walk)),
{
    let ahead = walk_ahead(walk);
    assert(walk.cursor + walk.rest.take(1) =~= walk.next());
    assert forall|k: int| 0 < k <= 1 implies (fs.inspect)(
        walk.cursor + #[trigger] walk.rest.take(k),
    ) == Finding::Present by {
        assert(k == 1);
    }
    assert(present_up_to(fs, walk, 1));
    assert forall|k: int|
        0 < k <= ahead.rest.len() && present_up_to(fs, ahead, k) implies (fs.canonical)(
        ahead.cursor + #[trigger] ahead.rest.take(k),
    ) == Ok::<Seq<Seq<char>>, Seq<char>>(ahead.cursor + ahead.rest.take(k)) by {
        lemma_present_ahead(fs, walk, k);
        lemma_take_ahead(walk, k);
        assert(walk.rest.take(k + 1) == walk.rest.take(k + 1));
    }
}

/// A validation that accepts a path crosses no link: some number of its components
/// exist and are no links, and the ones behind them are all missing. The path that it
/// resolves to is the one that was asked for, below the place where the walk began.
pub proof fn law_valid_paths_cross_no_link(fs: FileSystem, walk: WalkModel)
    requires
        fs.wf(),
        walk.wf(),
        links_alone_redirect(fs, walk),
    ensures
        match outcome(fs, StepModel::Inspect(walk)) {
            Ok(path) => {
                &&& path.resolved == walk.cursor + walk.rest
                &&& path.missing.len() <= walk.rest.len()
                &&& path.missing == walk.rest.skip(walk.rest.len() - path.missing.len())
                &&& present_up_to(fs, walk, walk.rest.len() - path.missing.len())
            },
            Err(_) => true,
        },
    decreases walk.rest.len(),
{
    let step = StepModel::Inspect(walk);
    let finding = (fs.inspect)(walk.next());
    let next = inspected_step(walk, finding);
    lemma_steps_stay_inside(fs, step);
    assert(outcome(fs, step) == outcome(fs, next));
    match finding {
        Finding::Missing => {
            lemma_search_keeps_path(fs, next->Exists_0);
            assert(walk.rest.skip(0) =~= walk.rest);
        },
        Finding::Present => {
            lemma_steps_stay_inside(fs, next);
            lemma_redirect_ahead(fs, walk);
            let ahead = walk_ahead(walk);
            let after = canonicalized_step(walk, (fs.canonical)(walk.next()));
            assert(outcome(fs, next) == outcome(fs, after));
            assert(ahead.cursor.take(walk.root.len() as int) =~= walk.cursor.take(
                walk.root.len() as int,
            ));
            assert(after == walk_on(ahead.root, ahead.cursor, ahead.rest));
            assert(ahead.cursor + ahead.rest =~= walk.cursor + walk.rest);
            if ahead.rest.len() > 0 {
                law_valid_paths_cross_no_link(fs, ahead);
                if let Ok(path) = outcome(fs, StepModel::Inspect(ahead)) {
                    let count = ahead.rest.len() - path.missing.len();
                    assert(ahead.rest.skip(count) =~= walk.rest.skip(count + 1));
                    lemma_present_ahead(fs, walk, count);
                }
            } else {
                lemma_search_keeps_path(fs, after->Exists_0);
                lemma_present_ahead(fs, walk, 0);
                assert(ahead.cursor =~= walk.cursor + walk.rest);
                assert(walk.rest.skip(walk.rest.len() as int) =~= Seq::<Seq<char>>::empty());
            }
        },
        _ => {
            assert(outcome(fs, next) is Err);
        },
    }
}

proof fn lemma_climbing_is_unsafe(components: Seq<Component>, i: int)
    requires
        0 <= i < components.len(),
        components[i] is ParentDir,
        forall|k: int| 0 <= k < components.len() ==> !((#[trigger] components[k]) is Prefix),
    ensures
        unsafe_component(components) == Some(PathFault::ParentTraversal),
    decreases i,
{
    assert(!(components[0] is Prefix));
    if i > 0 {
        let rest = components.drop_first();
        assert forall|k: int| 0 <= k < rest.len() implies !((#[trigger] rest[k]) is Prefix) by {
            assert(rest[k] == components[k + 1]);
        }
        lemma_climbing_is_unsafe(rest, i - 1);
    }
}

proof fn lemma_level_is_safe(components: Seq<Component>)
    requires
        forall|k: int|
            0 <= k < components.len() ==> !((#[trigger] components[k]) is Prefix)
                && !(components[k] is ParentDir),
    ensures
        unsafe_component(components) is None,
    decreases components.len(),
{
    if components.len() > 0 {
        let rest = components.drop_first();
        assert(!(components[0] is Prefix) && !(components[0] is ParentDir));
        assert forall|k: int| 0 <= k < rest.len() implies !((#[trigger] rest[k]) is Prefix)
            && !(rest[k] is ParentDir) by {
            assert(rest[k] == components[k + 1]);
        }
        lemma_level_is_safe(rest);
    }
}

/// A path with a component that leads upwards is refused before anything is asked of
/// the file system, whatever the workspace is. Unless the path is blank or the root of
/// the workspace could not be read, it is refused for that component.
pub proof fn law_climbing_paths_are_refused(
    display: Seq<char>,
    root: Result<Seq<Seq<char>>, Seq<char>>,
    raw: Seq<char>,
    i: int,
)
    requires
        0 <= i < path_components(raw).len(),
        path_components(raw)[i] is ParentDir,
    ensures
        first_step(display, root, raw) is Done,
        first_step(display, root, raw)->Done_0 is Err,
        root is Ok && !is_blank(raw) ==> first_step(display, root, raw) == StepModel::Done(
            Err(PathFault::ParentTraversal),
        ),
{
    let components = path_components(raw);
    assert forall|k: int| 0 <= k < components.len() implies !((#[trigger] components[k]) is Prefix) by {
        lemma_no_prefix(raw, k);
    }
    lemma_climbing_is_unsafe(components, i);
}

/// A path that begins at the root of the file system and does not continue with the
/// components of the workspace root is refused before anything is asked of the file
/// system. Unless it leads upwards, it is refused for crossing the boundary.
pub proof fn law_absolute_paths_elsewhere_are_refused(
    display: Seq<char>,
    root: Seq<Seq<char>>,
    raw: Seq<char>,
)
    requires
        is_absolute(path_components(raw)),
        !root.map_values(|name: Seq<char>| Component::Normal(name)).is_prefix_of(
            path_components(raw).drop_first(),
        ),
    ensures
        first_step(display, Ok(root), raw) is Done,
        first_step(display, Ok(root), raw)->Done_0 is Err,
        (forall|k: int|
            0 <= k < path_components(raw).len() ==> !((#[trigger] path_components(raw)[k])
                is ParentDir)) ==> first_step(display, Ok(root), raw) == StepModel::Done(
            Err(PathFault::BoundaryEscape),
        ),
{
    let components = path_components(raw);
    lemma_rooted_is_not_blank(raw);
    if forall|k: int| 0 <= k < components.len() ==> !((#[trigger] components[k]) is ParentDir) {
        assert forall|k: int| 0 <= k < components.len() implies !((#[trigger] components[k])
            is Prefix) && !(components[k] is ParentDir) by {
            lemma_no_prefix(raw, k);
        }
        lemma_level_is_safe(components);
    }
}

proof fn lemma_rooted_is_not_blank(raw: Seq<char>)
    requires
        is_absolute(path_components(raw)),
    ensures
        !is_blank(raw),
{
    lemma_root_begins_text(raw);
    assert(!is_space(raw[0]));
}

/// A canonical path crosses no link and is its own canonical form, and so is every path
/// on the way to it.
pub open spec fn canonical_paths_stay(fs: FileSystem) -> bool {
    forall|path: Seq<Seq<char>>, k: int|
        (fs.canonical)(path) is Ok && 0 <= k <= (fs.canonical)(path)->Ok_0.len()
            ==> #[trigger] stays(fs, (fs.canonical)(path)->Ok_0.take(k))
}

/// The path is no link, and it is its own canonical form.
pub open spec fn stays(fs: FileSystem, path: Seq<Seq<char>>) -> bool {
    &&& (fs.inspect)(path) == Finding::Present
    &&& (fs.canonical)(path) == Ok::<Seq<Seq<char>>, Seq<char>>(path)
}

/// Every path from the root of a workspace down to a place stays.
spec fn way_stays(fs: FileSystem, root: Seq<Seq<char>>, place: Seq<Seq<char>>) -> bool {
    forall|k: int| root.len() < k <= place.len() ==> stays(fs, #[trigger] place.take(k))
}

/// The place that a valid path was walked to: what lies before its missing components.
spec fn walked_to(path: ValidatedModel) -> Seq<Seq<char>> {
    path.resolved.take(path.resolved.len() - path.missing.len())
}

/// A walk that accepts a path ends like the one that begins where it came to.
spec fn ends_like_its_end(
    fs: FileSystem,
    root: Seq<Seq<char>>,
    result: Result<ValidatedModel, PathFault>,
) -> bool {
    match result {
        Ok(path) => {
            let place = walked_to(path);
            &&& path.missing.len() <= path.resolved.len()
            &&& path.resolved == place + path.missing
            &&& root.is_prefix_of(place)
            &&& all_names(place)
            &&& all_names(path.missing)
            &&& way_stays(fs, root, place)
            &&& outcome(fs, walk_on(root, place, path.missing)) == result
        },
        Err(_) => true,
    }
}

proof fn lemma_walks_end_like_their_end(
    fs: FileSystem,
    root: Seq<Seq<char>>,
    cursor: Seq<Seq<char>>,
    rest: Seq<Seq<char>>,
)
    requires
        fs.wf(),
        canonical_paths_stay(fs),
        root.is_prefix_of(cursor),
        all_names(cursor),
        all_names(rest),
        way_stays(fs, root, cursor),
    ensures
        ends_like_its_end(fs, root, outcome(fs, walk_on(root, cursor, rest))),
    decreases rest.len(),
{
    let step = walk_on(root, cursor, rest);
    assert(cursor.take(cursor.len() as int) =~= cursor);
    if rest.len() == 0 {
        lemma_search_keeps_path(fs, step->Exists_0);
        if let Ok(path) = outcome(fs, step) {
            assert(walked_to(path) =~= cursor);
            assert(path.resolved =~= cursor + path.missing);
            assert(rest =~= path.missing);
        }
    } else {
        let walk = WalkModel { root, cursor, rest };
        let finding = (fs.inspect)(walk.next());
        let next = inspected_step(walk, finding);
        lemma_steps_stay_inside(fs, step);
        assert(outcome(fs, step) == outcome(fs, next));
        match finding {
            Finding::Missing => {
                lemma_search_keeps_path(fs, next->Exists_0);
                if let Ok(path) = outcome(fs, step) {
                    assert(walked_to(path) =~= cursor);
                }
            },
            Finding::Present => {
                lemma_steps_stay_inside(fs, next);
                let canonical = (fs.canonical)(walk.next());
                let after = canonicalized_step(walk, canonical);
                assert(outcome(fs, next) == outcome(fs, after));
                if let Ok(path) = canonical {
                    if root.is_prefix_of(path) {
                        let ahead = rest.drop_first();
                        assert forall|i: int| 0 <= i < ahead.len() implies is_name(
                            #[trigger] ahead[i],
                        ) by {
                            assert(ahead[i] == rest[i + 1]);
                        }
                        assert forall|k: int| root.len() < k <= path.len() implies stays(
                            fs,
                            #[trigger] path.take(k),
                        ) by {
                            assert(stays(fs, (fs.canonical)(walk.next())->Ok_0.take(k)));
                        }
                        lemma_walks_end_like_their_end(fs, root, path, ahead);
                    }
                }
            },
            _ => {
                assert(outcome(fs, next) is Err);
            },
        }
    }
}

/// A walk along a way that stays comes to its end.
proof fn lemma_walk_down(
    fs: FileSystem,
    root: Seq<Seq<char>>,
    place: Seq<Seq<char>>,
    missing: Seq<Seq<char>>,
    j: int,
)
    requires
        fs.wf(),
        root.is_prefix_of(place),
        all_names(place),
        all_names(missing),
        way_stays(fs, root, place),
        root.len() <= j <= place.len(),
    ensures
        outcome(fs, walk_on(root, place.take(j), place.skip(j) + missing)) == outcome(
            fs,
            walk_on(root, place, missing),
        ),
    decreases place.len() - j,
{
    let cursor = place.take(j);
    let rest = place.skip(j) + missing;
    if j == place.len() {
        assert(cursor =~= place);
        assert(rest =~= missing);
    } else {
        let walk = WalkModel { root, cursor, rest };
        assert(cursor.take(root.len() as int) =~= place.take(root.len() as int));
        assert forall|i: int| 0 <= i < cursor.len() implies is_name(#[trigger] cursor[i]) by {
            assert(cursor[i] == place[i]);
        }
        assert forall|i: int| 0 <= i < rest.len() implies is_name(#[trigger] rest[i]) by {
            if i < place.len() - j {
                assert(rest[i] == place[i + j]);
            } else {
                assert(rest[i] == missing[i - (place.len() - j)]);
            }
        }
        assert(walk.next() =~= place.take(j + 1));
        assert(stays(fs, place.take(j + 1)));
        let step = StepModel::Inspect(walk);
        let next = StepModel::Canonicalize(walk);
        lemma_steps_stay_inside(fs, step);
        lemma_steps_stay_inside(fs, next);
        assert(outcome(fs, step) == outcome(fs, next));
        let after = canonicalized_step(walk, (fs.canonical)(walk.next()));
        assert(outcome(fs, next) == outcome(fs, after));
        assert(place.take(j + 1).take(root.len() as int) =~= place.take(root.len() as int));
        assert(rest.drop_first() =~= place.skip(j + 1) + missing);
        lemma_walk_down(fs, root, place, missing, j + 1);
    }
}

/// The names of a path that is not refused for its components lead to it.
proof fn lemma_relative_parts_are_names(root: Seq<Seq<char>>, raw: Seq<char>)
    ensures
        relative_parts(root, path_components(raw)) is Ok ==> all_names(
            relative_parts(root, path_components(raw))->Ok_0,
        ),
{
    let models = path_components(raw);
    if relative_parts(root, models) is Ok {
        let below = below_root(root, models)->0;
        assert forall|i: int| 0 <= i < below.len() && (#[trigger] below[i]) is Normal implies is_name(
            below[i]->Normal_0,
        ) by {
            let skipped = models.len() - below.len();
            assert(below[i] == models[i + skipped]);
            lemma_component_names(raw, i + skipped);
        }
        lemma_component_names_are_names(below);
    }
}

proof fn lemma_names_of_names(names: Seq<Seq<char>>)
    ensures
        misplaced_component(names.map_values(|name: Seq<char>| Component::Normal(name))) is None,
        component_names(names.map_values(|name: Seq<char>| Component::Normal(name))) == names,
    decreases names.len(),
{
    let components = names.map_values(|name: Seq<char>| Component::Normal(name));
    if names.len() > 0 {
        lemma_names_of_names(names.drop_last());
        assert(components.drop_last() =~= names.drop_last().map_values(
            |name: Seq<char>| Component::Normal(name),
        ));
        assert(component_names(components) =~= names);
        lemma_plain_components(components);
    } else {
        assert(component_names(components) =~= names);
    }
}

/// The validation of the text of a path below the root begins with a walk along its
/// names.
proof fn lemma_inside_text_is_walked(
    display: Seq<char>,
    root: Seq<Seq<char>>,
    path: Seq<Seq<char>>,
)
    requires
        all_names(path),
        root.is_prefix_of(path),
    ensures
        first_step(display, Ok(root), path_text(path)) == walk_on(
            root,
            root,
            path.skip(root.len() as int),
        ),
{
    let raw = path_text(path);
    law_path_text_reads_back(path);
    let components = path_components(raw);
    let names = components.drop_first();
    assert(names =~= path.map_values(|name: Seq<char>| Component::Normal(name))) by {
        assert forall|i: int| 0 <= i < names.len() implies names[i] == Component::Normal(
            path[i],
        ) by {
            assert(components[i + 1] is Normal);
            assert(path[i] == names.map_values(|component: Component| component->Normal_0)[i]);
        }
    }
    lemma_rooted_is_not_blank(raw);
    assert forall|k: int| 0 <= k < components.len() implies !((#[trigger] components[k]) is Prefix)
        && !(components[k] is ParentDir) by {
        if k > 0 {
            assert(components[k] is Normal);
        }
    }
    lemma_level_is_safe(components);
    let rooted = root.map_values(|name: Seq<char>| Component::Normal(name));
    assert(names.take(rooted.len() as int) =~= rooted) by {
        assert forall|i: int| 0 <= i < rooted.len() implies names[i] == rooted[i] by {
            assert(path.take(root.len() as int)[i] == root[i]);
        }
    }
    let below = components.skip(root.len() as int + 1);
    let rest = path.skip(root.len() as int);
    assert(below =~= rest.map_values(|name: Seq<char>| Component::Normal(name)));
    lemma_names_of_names(rest);
}

/// Validating the text of a path that was found valid gives the same path again, while
/// the file system stays as it is: the same root, the same resolved path, the same
/// nearest parent and the same missing components.
pub proof fn law_valid_paths_stay_valid(
    fs: FileSystem,
    display: Seq<char>,
    root: Seq<Seq<char>>,
    raw: Seq<char>,
)
    requires
        fs.wf(),
        canonical_paths_stay(fs),
        all_names(root),
        outcome(fs, first_step(display, Ok(root), raw)) is Ok,
    ensures
        outcome(
            fs,
            first_step(
                display,
                Ok(root),
                path_text(outcome(fs, first_step(display, Ok(root), raw))->Ok_0.resolved),
            ),
        ) == outcome(fs, first_step(display, Ok(root), raw)),
{
    let first = first_step(display, Ok(root), raw);
    let result = outcome(fs, first);
    let path = result->Ok_0;
    if first is Done {
        assert(outcome(fs, first) == first->Done_0);
    }
    let rest = relative_parts(root, path_components(raw))->Ok_0;
    assert(first == walk_on(root, root, rest));
    lemma_relative_parts_are_names(root, raw);
    assert(root.take(root.len() as int) =~= root);
    lemma_walks_end_like_their_end(fs, root, root, rest);
    let place = walked_to(path);
    lemma_below(root, place, path.missing);
    lemma_inside_text_is_walked(display, root, path.resolved);
    lemma_walk_down(fs, root, place, path.missing, root.len() as int);
    assert(place.take(root.len() as int) == root);
    assert(path.resolved.skip(root.len() as int) =~= place.skip(root.len() as int) + path.missing);
}

/// A value in the format of relative paths is never refused for its components: its
/// validation begins with a walk from the root of the workspace.
pub proof fn law_relative_path_values_are_walked(
    display: Seq<char>,
    root: Seq<Seq<char>>,
    value: Seq<char>,
)
    requires
        relative_path_format(value),
    ensures
        first_step(display, Ok(root), value) == walk_on(
            root,
            root,
            component_names(path_components(value)),
        ),
{
    let components = path_components(value);
    assert forall|i: int| 0 <= i < components.len() implies components[i] is Normal
        || components[i] is CurDir by {
        lemma_text_without_dots_never_climbs(value, i);
    }
    lemma_plain_components(components);
    lemma_format_is_not_blank(value);
}

proof fn lemma_plain_components(components: Seq<Component>)
    requires
        forall|i: int|
            0 <= i < components.len() ==> (#[trigger] components[i]) is Normal
                || components[i] is CurDir,
    ensures
        unsafe_component(components) is None,
        misplaced_component(components) is None,
        !is_absolute(components),
    decreases components.len(),
{
    if components.len() > 0 {
        let rest = components.drop_first();
        assert(components[0] is Normal || components[0] is CurDir);
        assert forall|i: int| 0 <= i < rest.len() implies (#[trigger] rest[i]) is Normal
            || rest[i] is CurDir by {
            assert(rest[i] == components[i + 1]);
        }
        lemma_plain_components(rest);
    }
}

proof fn lemma_format_is_not_blank(value: Seq<char>)
    requires
        relative_path_format(value),
    ensures
        !is_blank(value),
{
    reveal_strlit("._-/\\");
    assert(!is_space(value[0])) by {
        assert(is_alphanumeric(value[0]) || "._-/\\"@.contains(value[0]));
    }
}

// ---------------------------------------------------------------------------
// Terminal previews
// ---------------------------------------------------------------------------

/// A character that changes the direction in which a terminal shows text.
pub open spec fn is_direction_override(c: char) -> bool {
    0x202A <= c as u32 <= 0x202E
}

/// How a preview shows a character. Tabs and what is neither a control character nor
/// a direction override are shown as they are; everything else is written out.
pub open spec fn preview_char(c: char) -> Seq<char> {
    if c == '\x1b' {
        seq!['\\', 'x', '1', 'B']
    } else if c == '\0' {
        seq!['\\', '0']
    } else if c == '\n' {
        seq!['\\', 'n']
    } else if c == '\r' {
        seq!['\\', 'r']
    } else if c == '\t' {
        seq!['\t']
    } else if is_control(c) || is_direction_override(c) {
        seq!['\\', 'u', '{'] + hex4(c as nat) + seq!['}']
    } else {
        seq![c]
    }
}

/// How a preview shows a text.
pub open spec fn preview_text(s: Seq<char>) -> Seq<char>
    decreases s.len(),
{
    if s.len() == 0 {
        Seq::empty()
    } else {
        preview_text(s.drop_last()) + preview_char(s.last())
    }
}

fn push_preview(out: &mut String, c: char)
    ensures
        final(out)@ == old(out)@ + preview_char(c),
{
    if c == '\x1b' {
        out.push('\\');
        out.push('x');
        out.push('1');
        out.push('B');
    } else if c == '\0' {
        out.push('\\');
        out.push('0');
    } else if c == '\n' {
        out.push('\\');
        out.push('n');
    } else if c == '\r' {
        out.push('\\');
        out.push('r');
    } else if c == '\t' {
        out.push('\t');
    } else if char_is_control(c) || (0x202A <= c as u32 && c as u32 <= 0x202E) {
        out.push('\\');
        out.push('u');
        out.push('{');
        push_hex4(out, c as u32);
        out.push('}');
    } else {
        out.push(c);
    }
    assert(out@ =~= old(out)@ + preview_char(c));
}

/// Makes a token safe to show on a terminal.
pub fn sanitize_terminal_preview_token(raw: &str) -> (shown: String)
    ensures
        shown@ == preview_text(raw@),
{
    let mut out = String::new();
    assert(raw@.take(0) =~= Seq::empty());
    for c in it: raw.chars()
        invariant
            it.seq() == raw@,
            out@ == preview_text(raw@.take(it.index())),
    {
        push_preview(&mut out, c);
        proof {
            let i = it.index() as int;
            assert(raw@.take(i + 1).drop_last() =~= raw@.take(i));
            assert(raw@.take(i + 1).last() == c);
        }
    }
    assert(raw@.take(raw@.len() as int) =~= raw@);
    out
}

/// A character that a preview shows as it is.
pub open spec fn is_plain(c: char) -> bool {
    c == '\t' || (!is_control(c) && !is_direction_override(c))
}

proof fn lemma_preview_char_is_plain(c: char)
    ensures
        forall|i: int| 0 <= i < preview_char(c).len() ==> is_plain(#[trigger] preview_char(c)[i]),
        is_plain(c) ==> preview_char(c) == seq![c],
{
    let code = c as nat;
    let digits = hex4(code);
    assert forall|i: int| 0 <= i < digits.len() implies is_plain(#[trigger] digits[i]) by {
        lemma_hex_char_is_plain(code / 4096 % 16);
        lemma_hex_char_is_plain(code / 256 % 16);
        lemma_hex_char_is_plain(code / 16 % 16);
        lemma_hex_char_is_plain(code % 16);
    }
}

proof fn lemma_hex_char_is_plain(d: nat)
    requires
        d < 16,
    ensures
        is_plain(hex_char(d)),
{
}

/// A preview holds no control character but the tab, and nothing that changes the
/// direction of the text around it.
pub proof fn law_previews_are_harmless(s: Seq<char>, i: int)
    requires
        0 <= i < preview_text(s).len(),
    ensures
        is_plain(preview_text(s)[i]),
    decreases s.len(),
{
    if s.len() > 0 {
        let before = preview_text(s.drop_last());
        lemma_preview_char_is_plain(s.last());
        if i < before.len() {
            law_previews_are_harmless(s.drop_last(), i);
        } else {
            assert(preview_text(s)[i] == preview_char(s.last())[i - before.len()]);
        }
    }
}

/// A text of plain characters, of whatever script, is shown as it is.
pub proof fn law_plain_text_is_shown_as_it_is(s: Seq<char>)
    requires
        forall|i: int| 0 <= i < s.len() ==> is_plain(#[trigger] s[i]),
    ensures
        preview_text(s) == s,
    decreases s.len(),
{
    if s.len() > 0 {
        assert(is_plain(s[s.len() - 1]));
        assert forall|i: int| 0 <= i < s.drop_last().len() implies is_plain(
            #[trigger] s.drop_last()[i],
        ) by {
            assert(s.drop_last()[i] == s[i]);
        }
        law_plain_text_is_shown_as_it_is(s.drop_last());
        lemma_preview_char_is_plain(s.last());
        assert(preview_text(s) =~= s);
    }
}

/// The preview of a preview is that preview.
pub proof fn law_previews_are_stable(s: Seq<char>)
    ensures
        preview_text(preview_text(s)) == preview_text(s),
{
    assert forall|i: int| 0 <= i < preview_text(s).len() implies is_plain(
        #[trigger] preview_text(s)[i],
    ) by {
        law_previews_are_harmless(s, i);
    }
    law_plain_text_is_shown_as_it_is(preview_text(s));
}

/// Parts of a text are shown apart: the preview of two texts in a row is the two
/// previews in a row.
pub proof fn law_previews_join(a: Seq<char>, b: Seq<char>)
    ensures
        preview_text(a + b) == preview_text(a) + preview_text(b),
    decreases b.len(),
{
    if b.len() == 0 {
        assert(a + b =~= a);
        assert(preview_text(a) + preview_text(b) =~= preview_text(a));
    } else {
        law_previews_join(a, b.drop_last());
        assert((a + b).drop_last() =~= a + b.drop_last());
        assert((a + b).last() == b.last());
        assert(preview_text(a + b) =~= preview_text(a) + preview_text(b));
    }
}

/// Each character is shown alone. The escape character, the null, the line feed and the
/// carriage return have short forms; other control characters but the tab, and those that
/// change the direction of text, are written out by their code; all others stay.
pub proof fn law_previews_show_each_character(c: char)
    ensures
        preview_text(Seq::empty()) == Seq::<char>::empty(),
        preview_text(seq![c]) == if c as int == 0x1b {
            seq!['\\', 'x', '1', 'B']
        } else if c as int == 0 {
            seq!['\\', '0']
        } else if c as int == 10 {
            seq!['\\', 'n']
        } else if c as int == 13 {
            seq!['\\', 'r']
        } else if c as int != 9 && (c as int <= 0x1f || 0x7f <= c as int <= 0x9f || 0x202a
            <= c as int <= 0x202e) {
            seq!['\\', 'u', '{'] + hex4(c as nat) + seq!['}']
        } else {
            seq![c]
        },
{
    assert(seq![c].drop_last() =~= Seq::<char>::empty());
    assert(preview_text(Seq::<char>::empty()) =~= Seq::<char>::empty());
    assert(seq![c].last() == c);
    assert(Seq::<char>::empty() + preview_char(c) =~= preview_char(c));
}

// ---------------------------------------------------------------------------
// Laws of the first step
// ---------------------------------------------------------------------------

/// A path of names and dots, whatever characters the names hold, is walked from the root
/// of the workspace along its names.
pub proof fn law_paths_of_names_are_walked(
    display: Seq<char>,
    root: Seq<Seq<char>>,
    raw: Seq<char>,
)
    requires
        !is_blank(raw),
        forall|i: int|
            0 <= i < path_components(raw).len() ==> (#[trigger] path_components(raw)[i]) is Normal
                || path_components(raw)[i] is CurDir,
    ensures
        first_step(display, Ok(root), raw) == walk_on(
            root,
            root,
            component_names(path_components(raw)),
        ),
{
    lemma_plain_components(path_components(raw));
}

/// A path of names, alone or behind a dot, begins with the inspection of the first of them
/// below the root of the workspace. A dot alone stands for the root itself, which is looked
/// for.
pub proof fn law_relative_paths_are_walked_name_by_name(
    display: Seq<char>,
    root: Seq<Seq<char>>,
    raw: Seq<char>,
    names: Seq<Seq<char>>,
)
    requires
        !is_blank(raw),
        path_components(raw) == names.map_values(|name: Seq<char>| Component::Normal(name))
            || path_components(raw) == seq![Component::CurDir] + names.map_values(
            |name: Seq<char>| Component::Normal(name),
        ),
    ensures
        names.len() > 0 ==> first_step(display, Ok(root), raw) == StepModel::Inspect(
            WalkModel { root, cursor: root, rest: names },
        ),
        names.len() == 0 ==> first_step(display, Ok(root), raw) == StepModel::Exists(
            SearchModel { root, resolved: root, missing: Seq::empty(), candidate: root },
        ),
{
    let components = path_components(raw);
    lemma_plain_components(components);
    lemma_names_of_names(names);
    let normal = names.map_values(|name: Seq<char>| Component::Normal(name));
    if components == seq![Component::CurDir] + normal {
        lemma_names_behind_dot(normal);
    }
    assert(component_names(components) == names);
}

proof fn lemma_names_behind_dot(components: Seq<Component>)
    ensures
        component_names(seq![Component::CurDir] + components) == component_names(components),
    decreases components.len(),
{
    let dotted = seq![Component::CurDir] + components;
    if components.len() > 0 {
        lemma_names_behind_dot(components.drop_last());
        assert(dotted.drop_last() =~= seq![Component::CurDir] + components.drop_last());
        assert(dotted.last() == components.last());
    } else {
        assert(dotted.drop_last() =~= components);
        assert(dotted.last() == Component::CurDir);
        assert(component_names(components) =~= Seq::<Seq<char>>::empty());
    }
}

/// An absolute path that continues the root of the workspace with names is walked along
/// those names, as the relative path of the same names is. One that holds nothing but names
/// and does not continue the root is refused as an escape.
pub proof fn law_absolute_paths_are_walked_below_the_root(
    display: Seq<char>,
    root: Seq<Seq<char>>,
    raw: Seq<char>,
    path: Seq<Seq<char>>,
)
    requires
        path_components(raw) == seq![Component::RootDir] + path.map_values(
            |name: Seq<char>| Component::Normal(name),
        ),
    ensures
        root.is_prefix_of(path) && root.len() < path.len() ==> first_step(display, Ok(root), raw)
            == StepModel::Inspect(
            WalkModel { root, cursor: root, rest: path.skip(root.len() as int) },
        ),
        root == path ==> first_step(display, Ok(root), raw) == StepModel::Exists(
            SearchModel { root, resolved: root, missing: Seq::empty(), candidate: root },
        ),
        !root.is_prefix_of(path) ==> first_step(display, Ok(root), raw) == StepModel::Done(
            Err(PathFault::BoundaryEscape),
        ),
{
    let components = path_components(raw);
    lemma_rooted_is_not_blank(raw);
    let names = components.drop_first();
    let normal = path.map_values(|name: Seq<char>| Component::Normal(name));
    assert(names =~= normal);
    lemma_level_is_safe(components);
    let rooted = root.map_values(|name: Seq<char>| Component::Normal(name));
    if root.is_prefix_of(path) {
        assert forall|i: int| 0 <= i < rooted.len() implies names[i] == rooted[i] by {
            assert(path.take(root.len() as int)[i] == root[i]);
        }
        assert(names.take(rooted.len() as int) =~= rooted);
        let rest = path.skip(root.len() as int);
        assert(components.skip(root.len() as int + 1) =~= rest.map_values(
            |name: Seq<char>| Component::Normal(name),
        ));
        lemma_names_of_names(rest);
        if root == path {
            assert(root.take(root.len() as int) =~= root);
        }
    } else {
        if rooted.is_prefix_of(names) {
            assert forall|i: int| 0 <= i < root.len() implies path[i] == root[i] by {
                assert(names.take(rooted.len() as int)[i] == rooted[i]);
            }
            assert(path.take(root.len() as int) =~= root);
        }
    }
    if root == path {
        assert(root.take(root.len() as int) =~= root);
        assert(root.skip(root.len() as int) =~= Seq::<Seq<char>>::empty());
    }
}

/// A blank path is refused as empty before anything else; then a root that could not be
/// brought into its canonical form is reported with its message.
pub proof fn law_blank_paths_and_lost_roots_are_refused(
    display: Seq<char>,
    root: Result<Seq<Seq<char>>, Seq<char>>,
    raw: Seq<char>,
)
    ensures
        (forall|i: int| 0 <= i < raw.len() ==> is_space(#[trigger] raw[i])) ==> first_step(
            display,
            root,
            raw,
        ) == StepModel::Done(Err(PathFault::EmptyPath)),
        first_step(display, root, raw) == StepModel::Done(Err(PathFault::EmptyPath)) ==> forall|
            i: int,
        |
            0 <= i < raw.len() ==> is_space(#[trigger] raw[i]),
        root is Err && !is_blank(raw) ==> first_step(display, root, raw) == StepModel::Done(
            Err(
                PathFault::WorkspaceRootInvalid(
                    display + seq![' ', '('] + root->Err_0 + seq![')'],
                ),
            ),
        ),
{
    reveal_strlit(" (");
    reveal_strlit(")");
    assert(" ("@ =~= seq![' ', '(']);
    assert(")"@ =~= seq![')']);
    lemma_component_faults(path_components(raw));
    if root is Ok {
        match below_root(root->Ok_0, path_components(raw)) {
            Some(below) => lemma_component_faults(below),
            None => {},
        }
    }
}

proof fn lemma_component_faults(components: Seq<Component>)
    ensures
        unsafe_component(components) != Some(PathFault::EmptyPath),
        misplaced_component(components) != Some(PathFault::EmptyPath),
    decreases components.len(),
{
    if components.len() > 0 {
        lemma_component_faults(components.drop_first());
    }
}

// ---------------------------------------------------------------------------
// Laws of the walk
// ---------------------------------------------------------------------------

/// What is found at the next path of a walk decides: a link is refused, a failure is
/// reported, and behind a missing path nothing is inspected any more.
pub proof fn law_walks_stop_at_links(walk: WalkModel, message: Seq<char>)
    requires
        walk.rest.len() > 0,
    ensures
        inspected_step(walk, Finding::Link) == StepModel::Done(
            Err(PathFault::SymbolicLink(path_text(walk.cursor.push(walk.rest[0])))),
        ),
        inspected_step(walk, Finding::Failed(message)) == StepModel::Done(
            Err(PathFault::Metadata { path: path_text(walk.cursor.push(walk.rest[0])), message }),
        ),
        inspected_step(walk, Finding::Present) == StepModel::Canonicalize(walk),
        inspected_step(walk, Finding::Missing) == StepModel::Exists(
            SearchModel {
                root: walk.root,
                resolved: walk.cursor + walk.rest,
                missing: walk.rest,
                candidate: walk.cursor + walk.rest,
            },
        ),
{
}

/// The canonical form of the next path of a walk is where the walk goes on, with one name
/// less ahead; one that lies outside the root of the workspace is refused as an escape.
pub proof fn law_walks_go_on_at_the_canonical_path(
    walk: WalkModel,
    path: Seq<Seq<char>>,
    message: Seq<char>,
)
    requires
        walk.rest.len() > 0,
    ensures
        canonicalized_step(walk, Err(message)) == StepModel::Done(
            Err(PathFault::Metadata { path: path_text(walk.cursor.push(walk.rest[0])), message }),
        ),
        !walk.root.is_prefix_of(path) ==> canonicalized_step(walk, Ok(path)) == StepModel::Done(
            Err(PathFault::BoundaryEscape),
        ),
        walk.root.is_prefix_of(path) && walk.rest.len() > 1 ==> canonicalized_step(walk, Ok(path))
            == StepModel::Inspect(
            WalkModel { root: walk.root, cursor: path, rest: walk.rest.skip(1) },
        ),
        walk.root.is_prefix_of(path) && walk.rest.len() == 1 ==> canonicalized_step(walk, Ok(path))
            == StepModel::Exists(
            SearchModel { root: walk.root, resolved: path, missing: Seq::empty(), candidate: path },
        ),
{
    assert(walk.rest.skip(1) =~= walk.rest.drop_first());
}

/// A search goes up one name at a time until a path exists or the root of the file system
/// is reached, and that path decides: where its canonical form lies outside the root of the
/// workspace, the path is refused as an escape, and else it is the nearest parent.
pub proof fn law_searches_end_at_the_nearest_existing_path(
    search: SearchModel,
    parent: Seq<Seq<char>>,
    message: Seq<char>,
)
    ensures
        searched_step(search, true) == StepModel::CanonicalizeParent(search),
        search.candidate.len() == 0 ==> searched_step(search, false)
            == StepModel::CanonicalizeParent(search),
        search.candidate.len() > 0 ==> searched_step(search, false) == StepModel::Exists(
            SearchModel {
                root: search.root,
                resolved: search.resolved,
                missing: search.missing,
                candidate: search.candidate.take(search.candidate.len() - 1),
            },
        ),
        last_step(search, Err(message)) == StepModel::Done(
            Err(PathFault::Metadata { path: path_text(search.candidate), message }),
        ),
        search.root.is_prefix_of(search.resolved) && search.root.is_prefix_of(parent) ==> last_step(
            search,
            Ok(parent),
        ) == StepModel::Done(
            Ok(
                ValidatedModel {
                    root: search.root,
                    resolved: search.resolved,
                    parent,
                    missing: search.missing,
                },
            ),
        ),
        !(search.root.is_prefix_of(search.resolved) && search.root.is_prefix_of(parent))
            ==> last_step(search, Ok(parent)) == StepModel::Done(Err(PathFault::BoundaryEscape)),
{
}

/// A file system in which a path and all above it up to a depth exist, are no links and
/// are their own canonical forms.
pub open spec fn stands_from(fs: FileSystem, path: Seq<Seq<char>>, from: int, to: int) -> bool {
    forall|k: int|
        from < k <= to ==> (fs.inspect)(#[trigger] path.take(k)) == Finding::Present
            && (fs.canonical)(path.take(k)) == Ok::<Seq<Seq<char>>, Seq<char>>(path.take(k))
}

/// The outcome for a path of names below the root. Where the first `depth` names exist and
/// redirect nowhere, the next is missing or there is none, and the nearest existing path
/// is the one of that depth, the path is valid: it resolves to the root and all its names,
/// with that path as its parent and the names behind it as missing.
pub proof fn law_paths_below_the_root_are_valid(
    fs: FileSystem,
    root: Seq<Seq<char>>,
    names: Seq<Seq<char>>,
    depth: int,
)
    requires
        fs.wf(),
        all_names(root),
        all_names(names),
        0 <= depth <= names.len(),
        0 < names.len(),
        stands_from(fs, root + names, root.len() as int, root.len() + depth),
        (fs.canonical)((root + names).take(root.len() + depth)) == Ok::<
            Seq<Seq<char>>,
            Seq<char>,
        >((root + names).take(root.len() + depth)),
        depth < names.len() ==> (fs.inspect)((root + names).take(root.len() + depth + 1))
            == Finding::Missing,
        (fs.exists_at)((root + names).take(root.len() + depth)),
        forall|k: int|
            root.len() + depth < k <= root.len() + names.len() ==> !(fs.exists_at)(
                #[trigger] (root + names).take(k),
            ),
    ensures
        outcome(fs, StepModel::Inspect(WalkModel { root, cursor: root, rest: names })) == Ok::<
            ValidatedModel,
            PathFault,
        >(
            ValidatedModel {
                root,
                resolved: root + names,
                parent: (root + names).take(root.len() + depth),
                missing: names.skip(depth),
            },
        ),
{
    let path = root + names;
    assert(path.take(root.len() as int) =~= root);
    assert(path.skip(root.len() as int) =~= names);
    assert(path.skip(root.len() + depth) =~= names.skip(depth));
    lemma_path_is_valid(fs, root, path, root.len() as int, root.len() + depth);
}

proof fn lemma_path_is_valid(
    fs: FileSystem,
    root: Seq<Seq<char>>,
    path: Seq<Seq<char>>,
    at: int,
    depth: int,
)
    requires
        fs.wf(),
        all_names(path),
        root.is_prefix_of(path),
        root.len() <= at <= depth <= path.len(),
        stands_from(fs, path, at, depth),
        (fs.canonical)(path.take(depth)) == Ok::<Seq<Seq<char>>, Seq<char>>(path.take(depth)),
        depth < path.len() ==> (fs.inspect)(path.take(depth + 1)) == Finding::Missing,
        (fs.exists_at)(path.take(depth)),
        forall|k: int| depth < k <= path.len() ==> !(fs.exists_at)(#[trigger] path.take(k)),
    ensures
        outcome(fs, walk_on(root, path.take(at), path.skip(at))) == Ok::<ValidatedModel, PathFault>(
            ValidatedModel {
                root,
                resolved: path,
                parent: path.take(depth),
                missing: path.skip(depth),
            },
        ),
    decreases depth - at,
{
    assert forall|k: int| root.len() <= k <= path.len() implies root.is_prefix_of(
        #[trigger] path.take(k),
    ) by {
        assert(path.take(k).take(root.len() as int) =~= path.take(root.len() as int));
    }
    assert(path.take(path.len() as int) =~= path);
    assert forall|k: int| 0 <= k <= path.len() implies all_names(#[trigger] path.take(k)) by {
        assert forall|i: int| 0 <= i < k implies is_name(#[trigger] path.take(k)[i]) by {
            assert(path.take(k)[i] == path[i]);
        }
    }
    let cursor = path.take(at);
    let rest = path.skip(at);
    assert(all_names(rest)) by {
        assert forall|i: int| 0 <= i < rest.len() implies is_name(#[trigger] rest[i]) by {
            assert(rest[i] == path[at + i]);
        }
    }
    assert(cursor + rest =~= path);
    let search = SearchModel { root, resolved: path, missing: rest, candidate: path };
    if at == depth {
        lemma_search_ends(fs, search, depth);
        assert(rest == path.skip(depth));
        if rest.len() > 0 {
            let walk = WalkModel { root, cursor, rest };
            assert(walk.next() =~= path.take(at + 1));
            lemma_steps_stay_inside(fs, StepModel::Inspect(walk));
            assert(inspected_step(walk, Finding::Missing) == StepModel::Exists(search));
        } else {
            assert(rest =~= Seq::<Seq<char>>::empty());
            assert(cursor == path);
        }
    } else {
        let walk = WalkModel { root, cursor, rest };
        assert(walk.next() =~= path.take(at + 1));
        assert(rest.drop_first() =~= path.skip(at + 1));
        assert((fs.inspect)(path.take(at + 1)) == Finding::Present);
        lemma_steps_stay_inside(fs, StepModel::Inspect(walk));
        lemma_steps_stay_inside(fs, StepModel::Canonicalize(walk));
        assert(outcome(fs, StepModel::Inspect(walk)) == outcome(fs, StepModel::Canonicalize(walk)));
        let next = walk_on(root, path.take(at + 1), path.skip(at + 1));
        assert(canonicalized_step(walk, (fs.canonical)(walk.next())) == next);
        assert(outcome(fs, StepModel::Canonicalize(walk)) == outcome(fs, next));
        lemma_path_is_valid(fs, root, path, at + 1, depth);
    }
}

proof fn lemma_search_ends(fs: FileSystem, search: SearchModel, depth: int)
    requires
        fs.wf(),
        search.wf(),
        search.root.len() <= depth <= search.candidate.len(),
        (fs.exists_at)(search.resolved.take(depth)),
        (fs.canonical)(search.resolved.take(depth)) == Ok::<Seq<Seq<char>>, Seq<char>>(
            search.resolved.take(depth),
        ),
        forall|k: int|
            depth < k <= search.resolved.len() ==> !(fs.exists_at)(
                #[trigger] search.resolved.take(k),
            ),
    ensures
        outcome(fs, StepModel::Exists(search)) == Ok::<ValidatedModel, PathFault>(
            ValidatedModel {
                root: search.root,
                resolved: search.resolved,
                parent: search.resolved.take(depth),
                missing: search.missing,
            },
        ),
    decreases search.candidate.len(),
{
    let n = search.candidate.len() as int;
    assert(search.candidate == search.resolved.take(n));
    lemma_steps_stay_inside(fs, StepModel::Exists(search));
    if n == depth {
        let parent = StepModel::CanonicalizeParent(search);
        lemma_steps_stay_inside(fs, parent);
        assert(search.resolved.take(depth).take(search.root.len() as int)
            =~= search.resolved.take(search.root.len() as int));
        assert(outcome(fs, StepModel::Exists(search)) == outcome(fs, parent));
        let done = last_step(search, (fs.canonical)(search.candidate));
        assert(outcome(fs, parent) == outcome(fs, done));
        assert(outcome(fs, done) == done->Done_0);
    } else {
        let above = SearchModel { candidate: search.candidate.drop_last(), ..search };
        assert(above.candidate =~= search.resolved.take(n - 1));
        assert(!(fs.exists_at)(search.resolved.take(n)));
        assert(searched_step(search, false) == StepModel::Exists(above));
        assert(outcome(fs, StepModel::Exists(search)) == outcome(fs, StepModel::Exists(above)));
        lemma_search_ends(fs, above, depth);
    }
}

/// What is reported of a refused path names the place that it was refused at, where there is
/// one.
pub proof fn law_faults_of_paths_are_reported(
    root: Seq<char>,
    path: Seq<char>,
    message: Seq<char>,
)
    ensures
        path_fault_text(PathFault::WorkspaceRootInvalid(root))
            == "workspace root does not exist or cannot be canonicalized: "@ + root,
        path_fault_text(PathFault::ParentTraversal) == "path contains parent-directory traversal"@,
        path_fault_text(PathFault::UnsupportedComponent)
            == "path contains unsupported prefix or root component"@,
        path_fault_text(PathFault::BoundaryEscape) == "path escapes workspace root"@,
        path_fault_text(PathFault::SymbolicLink(path)) == "path crosses symbolic link: "@ + path,
        path_fault_text(PathFault::EmptyPath) == "path component is empty"@,
        path_fault_text(PathFault::Metadata { path, message }) == "filesystem metadata error for "@
            + path + ": "@ + message,
{
}

}
