//! File paths with `/` between their components, and what is known of the files they name.
//!
//! The file tools exist on Unix systems only, so these are the paths of such a system.
use vstd::prelude::*;

use crate::text::{
    from_chars, option_view, pieces, same_text, split, starts_with, to_chars, trim_start_matches,
    views, without_prefixes,
};

verus! {

/// One component of a path.
#[derive(Debug, PartialEq, Eq)]
pub enum PathComponent {
    RootDir,
    CurDir,
    ParentDir,
    Normal(String),
}

/// The model of a path's component.
pub enum ComponentView {
    RootDir,
    CurDir,
    ParentDir,
    Normal(Seq<char>),
}

/// A path as the list of its components. Two paths are the same when their components are.
#[derive(Debug, PartialEq, Eq)]
pub struct FilePath {
    pub components: Vec<PathComponent>,
}

/// What a path names.
#[derive(Debug, Clone, Copy, PartialEq, Eq)]
pub enum PathKind {
    Missing,
    File,
    Directory,
    Other,
}

/// What is known of the file system: for path texts, the path without links and detours that they
/// resolve to, and the kind of thing that they name. Of two entries for one text, the later counts;
/// a text without an entry resolves to nothing and names nothing.
#[derive(Debug)]
pub struct FileFacts {
    pub canonical: Vec<(String, String)>,
    pub kinds: Vec<(String, PathKind)>,
}

impl View for PathComponent {
    type V = ComponentView;

    open spec fn view(&self) -> ComponentView {
        match self {
            PathComponent::RootDir => ComponentView::RootDir,
            PathComponent::CurDir => ComponentView::CurDir,
            PathComponent::ParentDir => ComponentView::ParentDir,
            PathComponent::Normal(name) => ComponentView::Normal(name@),
        }
    }
}

impl View for FilePath {
    type V = Seq<ComponentView>;

    open spec fn view(&self) -> Seq<ComponentView> {
        component_views(self.components@)
    }
}

/// The models of a list of components.
pub open spec fn component_views(components: Seq<PathComponent>) -> Seq<ComponentView> {
    components.map_values(|component: PathComponent| component@)
}

/// The components that the pieces between slashes stand for: an empty piece and `.` for none.
pub open spec fn piece_components(parts: Seq<Seq<char>>) -> Seq<ComponentView>
    decreases parts.len(),
{
    if parts.len() == 0 {
        Seq::empty()
    } else {
        let before = piece_components(parts.drop_last());
        let part = parts.last();
        if part.len() == 0 || part == seq!['.'] {
            before
        } else if part == seq!['.', '.'] {
            before.push(ComponentView::ParentDir)
        } else {
            before.push(ComponentView::Normal(part))
        }
    }
}

/// What a path text starts with: the root where it starts with a slash, else the current directory
/// where its first piece is `.`.
pub open spec fn head_components(text: Seq<char>) -> Seq<ComponentView> {
    if text.len() > 0 && text[0] == '/' {
        seq![ComponentView::RootDir]
    } else if pieces(text, '/')[0] == seq!['.'] {
        seq![ComponentView::CurDir]
    } else {
        Seq::empty()
    }
}

/// The components of a path text. Repeated slashes, a slash at the end and `.` anywhere but at the
/// start add none.
pub open spec fn path_components(text: Seq<char>) -> Seq<ComponentView> {
    head_components(text) + piece_components(pieces(text, '/'))
}

/// A component as text.
pub open spec fn component_text(component: ComponentView) -> Seq<char> {
    match component {
        ComponentView::RootDir => seq!['/'],
        ComponentView::CurDir => seq!['.'],
        ComponentView::ParentDir => seq!['.', '.'],
        ComponentView::Normal(name) => name,
    }
}

/// A path as text: its components with a slash between each two, none behind the root.
pub open spec fn path_text(path: Seq<ComponentView>) -> Seq<char>
    decreases path.len(),
{
    if path.len() == 0 {
        Seq::empty()
    } else {
        let before = path_text(path.drop_last());
        let name = component_text(path.last());
        if path.len() == 1 || path[path.len() - 2] is RootDir {
            before + name
        } else {
            before.push('/') + name
        }
    }
}

/// The path above, where there is one: the root and the empty path have none.
pub open spec fn parent_of(path: Seq<ComponentView>) -> Option<Seq<ComponentView>> {
    if path.len() > 0 && !(path.last() is RootDir) {
        Some(path.drop_last())
    } else {
        None
    }
}

/// Where a path leads that goes on from `before` by one component: `.` stays, `..` is the way up, and
/// the root starts anew.
pub open spec fn stepped(
    before: Seq<ComponentView>,
    component: ComponentView,
) -> Seq<ComponentView> {
    match component {
        ComponentView::RootDir => seq![ComponentView::RootDir],
        ComponentView::CurDir => before,
        ComponentView::ParentDir => match parent_of(before) {
            Some(parent) => parent,
            None => before,
        },
        ComponentView::Normal(_) => before.push(component),
    }
}

/// `path` with `.` left out and `..` taken as the way up, by the names alone.
pub open spec fn lexical(path: Seq<ComponentView>) -> Seq<ComponentView>
    decreases path.len(),
{
    if path.len() == 0 {
        Seq::empty()
    } else {
        stepped(lexical(path.drop_last()), path.last())
    }
}

/// `rest` under `base`: an absolute `rest` stands for itself.
pub open spec fn joined_path(base: Seq<char>, rest: Seq<char>) -> Seq<char> {
    if rest.len() > 0 && rest[0] == '/' {
        rest
    } else if base.len() == 0 || base.last() == '/' {
        base + rest
    } else {
        base.push('/') + rest
    }
}

/// The message for a `~` that stands for nothing.
pub open spec fn no_home_message() -> Seq<char> {
    "Could not resolve home directory."@
}

/// A path text with `~` at its start replaced by the home directory. What follows lies below it,
/// however many slashes stand between.
pub open spec fn expanded(text: Seq<char>, home: Option<Seq<char>>) -> Result<
    Seq<char>,
    Seq<char>,
> {
    if text == seq!['~'] {
        match home {
            Some(home) => Ok(home),
            None => Err(no_home_message()),
        }
    } else if seq!['~', '/'].is_prefix_of(text) {
        match home {
            Some(home) => Ok(joined_path(home, without_prefixes(text.skip(2), seq!['/']))),
            None => Err(no_home_message()),
        }
    } else {
        Ok(text)
    }
}

/// The value of the last entry for `key`.
pub open spec fn last_entry<V>(entries: Seq<(String, V)>, key: Seq<char>) -> Option<V>
    decreases entries.len(),
{
    if entries.len() == 0 {
        None
    } else if entries.last().0@ == key {
        Some(entries.last().1)
    } else {
        last_entry(entries.drop_last(), key)
    }
}

impl FileFacts {
    /// The path text that `text` resolves to, if it resolves.
    pub open spec fn resolved(self, text: Seq<char>) -> Option<Seq<char>> {
        match last_entry(self.canonical@, text) {
            Some(found) => Some(found@),
            None => None,
        }
    }

    /// Whether `path` is made of plain names and stays where it is: it and every path above it
    /// resolve to nothing else than themselves.
    pub open spec fn unmoved(self, path: Seq<ComponentView>) -> bool {
        &&& plain_path(path)
        &&& forall|k: int|
            0 < k <= path.len() ==> (self.resolved(path_text(#[trigger] path.take(k))) matches Some(
                found,
            ) ==> path_components(found) == path.take(k))
    }

    /// Whether `path` is absolute and stays where it is.
    pub open spec fn settled(self, path: Seq<ComponentView>) -> bool {
        &&& self.unmoved(path)
        &&& path.len() > 0
        &&& path[0] is RootDir
    }

    /// Whether what texts resolve to is without links and detours, as it is in every file system.
    pub open spec fn consistent(self) -> bool {
        forall|text: Seq<char>|
            (#[trigger] self.resolved(text)) matches Some(found) ==> self.settled(
                path_components(found),
            )
    }

    /// Whether it is known where `text` starts: at the root, or in the working directory.
    pub open spec fn places(self, text: Seq<char>) -> bool {
        &&& text.len() > 0
        &&& text[0] == '/' || self.resolved(seq!['.']) is Some
    }

    /// Whether both know the same of what texts resolve to.
    pub open spec fn agrees(self, other: FileFacts, texts: Seq<Seq<char>>) -> bool {
        forall|i: int|
            0 <= i < texts.len() ==> self.resolved(#[trigger] texts[i]) == other.resolved(texts[i])
    }

    /// The kind of thing that `text` names.
    pub open spec fn kind(self, text: Seq<char>) -> PathKind {
        match last_entry(self.kinds@, text) {
            Some(kind) => kind,
            None => PathKind::Missing,
        }
    }
}

/// The directory that paths without a root start from, where it is known.
pub open spec fn working_directory(facts: FileFacts) -> Seq<ComponentView> {
    match facts.resolved(seq!['.']) {
        Some(found) => path_components(found),
        None => Seq::empty(),
    }
}

/// Where the last component of `path` starts from.
pub open spec fn walked_before(path: Seq<ComponentView>, facts: FileFacts) -> Seq<ComponentView>
    decreases path.len(), 0int,
{
    if path.len() <= 1 {
        working_directory(facts)
    } else {
        walked(path.drop_last(), facts)
    }
}

/// Where `path` leads, component by component: each step goes to what is found there, and where
/// nothing is, it goes by the name.
pub open spec fn walked(path: Seq<ComponentView>, facts: FileFacts) -> Seq<ComponentView>
    decreases path.len(), 1int,
{
    if path.len() == 0 {
        Seq::empty()
    } else {
        match facts.resolved(path_text(path)) {
            Some(found) => path_components(found),
            None => {
                let next = stepped(walked_before(path, facts), path.last());
                match facts.resolved(path_text(next)) {
                    Some(found) => path_components(found),
                    None => next,
                }
            },
        }
    }
}

/// The path that `text` stands for: what it resolves to, or else where its components lead.
pub open spec fn normalized(text: Seq<char>, facts: FileFacts) -> Seq<ComponentView> {
    match facts.resolved(text) {
        Some(found) => path_components(found),
        None => walked(path_components(text), facts),
    }
}

/// The texts that are looked up on the way along `path`.
pub open spec fn walk_texts(path: Seq<ComponentView>, facts: FileFacts) -> Seq<Seq<char>>
    decreases path.len(),
{
    if path.len() == 0 {
        Seq::empty()
    } else {
        let before = if path.len() == 1 {
            seq![seq!['.']]
        } else {
            walk_texts(path.drop_last(), facts)
        };
        before + seq![
            path_text(path),
            path_text(stepped(walked_before(path, facts), path.last())),
        ]
    }
}

/// The texts that are looked up for the path that `text` stands for.
pub open spec fn path_texts(text: Seq<char>, facts: FileFacts) -> Seq<Seq<char>> {
    seq![text] + walk_texts(path_components(text), facts)
}

/// The texts of a result.
pub open spec fn result_view(result: Result<String, String>) -> Result<Seq<char>, Seq<char>> {
    match result {
        Ok(text) => Ok(text@),
        Err(message) => Err(message@),
    }
}

/// Whether `name` can stand as one component between slashes.
pub open spec fn plain_name(name: Seq<char>) -> bool {
    &&& name.len() > 0
    &&& name != seq!['.']
    &&& name != seq!['.', '.']
    &&& !name.contains('/')
}

/// Whether `path` consists of names that can stand in a path text, behind the root if it has one.
pub open spec fn plain_path(path: Seq<ComponentView>) -> bool {
    forall|i: int|
        0 <= i < path.len() ==> match #[trigger] path[i] {
            ComponentView::RootDir => i == 0,
            ComponentView::Normal(name) => plain_name(name),
            _ => false,
        }
}

impl Clone for PathComponent {
    fn clone(&self) -> (copy: Self)
        ensures
            copy@ == self@,
    {
        match self {
            PathComponent::RootDir => PathComponent::RootDir,
            PathComponent::CurDir => PathComponent::CurDir,
            PathComponent::ParentDir => PathComponent::ParentDir,
            PathComponent::Normal(name) => PathComponent::Normal(name.clone()),
        }
    }
}

impl PathComponent {
    /// Whether the two components are the same.
    pub fn same(&self, other: &PathComponent) -> (same: bool)
        ensures
            same == (self@ == other@),
    {
        match (self, other) {
            (PathComponent::RootDir, PathComponent::RootDir) => true,
            (PathComponent::CurDir, PathComponent::CurDir) => true,
            (PathComponent::ParentDir, PathComponent::ParentDir) => true,
            (PathComponent::Normal(name), PathComponent::Normal(other_name)) => same_text(
                name.as_str(),
                other_name.as_str(),
            ),
            _ => false,
        }
    }
}

impl Clone for FilePath {
    fn clone(&self) -> (copy: Self)
        ensures
            copy@ == self@,
    {
        self.first_components(self.components.len())
    }
}

impl FilePath {
    /// The path of the first `count` components.
    fn first_components(&self, count: usize) -> (path: FilePath)
        requires
            count <= self@.len(),
        ensures
            path@ == self@.take(count as int),
    {
        let mut components: Vec<PathComponent> = Vec::new();
        let mut i: usize = 0;
        while i < count
            invariant
                i <= count <= self.components@.len(),
                component_views(components@) == self@.take(i as int),
            decreases count - i,
        {
            let ghost before = component_views(components@);
            components.push(self.components[i].clone());
            assert(component_views(components@) =~= before.push(self@[i as int]));
            assert(self@.take(i + 1) =~= before.push(self@[i as int]));
            i += 1;
        }
        FilePath { components }
    }

    /// The path that a text stands for.
    pub fn parse(text: &str) -> (path: FilePath)
        ensures
            path@ == path_components(text@),
    {
        let parts = split(text, '/');
        let mut components: Vec<PathComponent> = Vec::new();
        proof {
            reveal_strlit("/");
            reveal_strlit(".");
            reveal_strlit("..");
            assert("."@ =~= seq!['.']);
            assert(".."@ =~= seq!['.', '.']);
            assert(views(parts@)[0] == parts@[0]@);
        }
        if starts_with(text, "/") {
            assert(text@.subrange(0, 1)[0] == '/');
            components.push(PathComponent::RootDir);
        } else {
            assert(!(text@.len() > 0 && text@[0] == '/')) by {
                if text@.len() > 0 && text@[0] == '/' {
                    assert("/"@ =~= text@.subrange(0, 1));
                }
            }
            if same_text(parts[0].as_str(), ".") {
                components.push(PathComponent::CurDir);
            }
        }
        assert(component_views(components@) =~= head_components(text@));
        let ghost head = component_views(components@);
        let mut i: usize = 0;
        assert(views(parts@).take(0) =~= Seq::empty());
        assert(component_views(components@) =~= head + piece_components(Seq::empty()));
        while i < parts.len()
            invariant
                i <= parts@.len(),
                "."@ == seq!['.'],
                ".."@ == seq!['.', '.'],
                component_views(components@) == head + piece_components(
                    views(parts@).take(i as int),
                ),
            decreases parts@.len() - i,
        {
            let ghost before = component_views(components@);
            assert(views(parts@).take(i + 1).drop_last() =~= views(parts@).take(i as int));
            let part = parts[i].as_str();
            if part.is_empty() || same_text(part, ".") {
            } else if same_text(part, "..") {
                components.push(PathComponent::ParentDir);
                assert(component_views(components@) =~= before.push(ComponentView::ParentDir));
            } else {
                components.push(PathComponent::Normal(parts[i].clone()));
                assert(component_views(components@) =~= before.push(ComponentView::Normal(part@)));
            }
            assert(component_views(components@) =~= head + piece_components(
                views(parts@).take(i + 1),
            ));
            i += 1;
        }
        assert(views(parts@).take(i as int) =~= views(parts@));
        FilePath { components }
    }

    /// The path as text.
    pub fn to_text(&self) -> (text: String)
        ensures
            text@ == path_text(self@),
    {
        let mut text = String::new();
        let mut i: usize = 0;
        while i < self.components.len()
            invariant
                i <= self.components@.len(),
                text@ == path_text(self@.take(i as int)),
            decreases self.components@.len() - i,
        {
            let ghost so_far = self@.take(i + 1);
            assert(so_far.drop_last() =~= self@.take(i as int));
            assert(so_far.last() == self.components@[i as int]@);
            let below_root = if i > 0 {
                assert(so_far[i - 1] == self.components@[i - 1]@);
                match &self.components[i - 1] {
                    PathComponent::RootDir => true,
                    _ => false,
                }
            } else {
                true
            };
            if !below_root {
                text.push('/');
            }
            match &self.components[i] {
                PathComponent::RootDir => text.push('/'),
                PathComponent::CurDir => text.push('.'),
                PathComponent::ParentDir => {
                    text.push('.');
                    text.push('.');
                },
                PathComponent::Normal(name) => text.append(name.as_str()),
            }
            assert(text@ =~= path_text(so_far));
            i += 1;
        }
        assert(self@.take(i as int) =~= self@);
        text
    }

    /// The path above, where there is one.
    pub fn parent(&self) -> (parent: Option<FilePath>)
        ensures
            match parent {
                Some(parent) => parent_of(self@) == Some(parent@),
                None => parent_of(self@) is None,
            },
    {
        let count: usize = self.components.len();
        if count == 0 {
            return None;
        }
        assert(self@.last() == self.components@[count - 1]@);
        match &self.components[count - 1] {
            PathComponent::RootDir => None,
            _ => {
                assert(self@.take(count - 1) =~= self@.drop_last());
                Some(self.first_components(count - 1))
            },
        }
    }
}

/// The number of components of `path`.
pub fn path_depth(path: &FilePath) -> (depth: usize)
    ensures
        depth == path@.len(),
{
    path.components.len()
}

/// Whether the components of `prefix` are the first ones of `path`.
pub fn path_starts_with(path: &FilePath, prefix: &FilePath) -> (starts: bool)
    ensures
        starts == prefix@.is_prefix_of(path@),
{
    let mut i: usize = 0;
    while i < prefix.components.len()
        invariant
            i <= prefix.components@.len(),
            i <= path.components@.len(),
            forall|j: int| 0 <= j < i ==> #[trigger] prefix@[j] == path@[j],
        decreases prefix.components@.len() - i,
    {
        if i >= path.components.len() {
            return false;
        }
        assert(prefix@[i as int] == prefix.components@[i as int]@);
        assert(path@[i as int] == path.components@[i as int]@);
        if !path.components[i].same(&prefix.components[i]) {
            assert(path@.subrange(0, prefix@.len() as int)[i as int] != prefix@[i as int]
                || prefix@.len() > path@.len());
            return false;
        }
        i += 1;
    }
    assert(prefix@ =~= path@.subrange(0, prefix@.len() as int));
    true
}

/// Whether the two paths are the same.
pub fn same_path(path: &FilePath, other: &FilePath) -> (same: bool)
    ensures
        same == (path@ == other@),
{
    let same = path_depth(path) == path_depth(other) && path_starts_with(path, other);
    proof {
        if path@.len() == other@.len() {
            assert(path@.subrange(0, other@.len() as int) =~= path@);
        }
    }
    same
}

/// Whether `path` is `base` or lies beneath it.
pub fn is_under_or_equal(path: &FilePath, base: &FilePath) -> (under: bool)
    ensures
        under == base@.is_prefix_of(path@),
{
    if same_path(path, base) {
        assert(path@ =~= path@.subrange(0, base@.len() as int));
        return true;
    }
    proof {
        if path@.len() == base@.len() {
            assert(path@ =~= path@.subrange(0, base@.len() as int));
        }
    }
    path_depth(path) > path_depth(base) && path_starts_with(path, base)
}

/// `rest` under `base`.
pub fn join_path(base: &str, rest: &str) -> (path: String)
    ensures
        path@ == joined_path(base@, rest@),
{
    let base_chars = to_chars(base);
    let rest_chars = to_chars(rest);
    if rest_chars.len() > 0 && rest_chars[0] == '/' {
        return rest.to_owned();
    }
    let mut path = base.to_owned();
    if base_chars.len() > 0 && base_chars[base_chars.len() - 1] != '/' {
        path.push('/');
    }
    path.append(rest);
    path
}

/// A path text with `~` at its start replaced by the home directory.
pub fn expand_tilde(path: &str, home: Option<&str>) -> (expanded_path: Result<String, String>)
    ensures
        result_view(expanded_path) == expanded(path@, option_view(home)),
{
    proof {
        reveal_strlit("~");
        reveal_strlit("~/");
        assert("~"@ =~= seq!['~']);
        assert("~/"@ =~= seq!['~', '/']);
    }
    if same_text(path, "~") {
        return match home {
            Some(home) => Ok(home.to_owned()),
            None => Err("Could not resolve home directory.".to_owned()),
        };
    }
    if starts_with(path, "~/") {
        let chars = to_chars(path);
        let rest = from_chars(&chars, 2, chars.len());
        assert(rest@ == path@.skip(2));
        proof {
            reveal_strlit("/");
            assert("/"@ =~= seq!['/']);
        }
        let below = trim_start_matches(rest.as_str(), "/");
        return match home {
            Some(home) => Ok(join_path(home, below.as_str())),
            None => Err("Could not resolve home directory.".to_owned()),
        };
    }
    Ok(path.to_owned())
}

impl FileFacts {
    /// Knows nothing.
    pub fn new() -> (facts: FileFacts)
        ensures
            forall|text: Seq<char>| facts.resolved(text) is None,
            forall|text: Seq<char>| facts.kind(text) == PathKind::Missing,
    {
        FileFacts { canonical: Vec::new(), kinds: Vec::new() }
    }

    /// Notes that `text` resolves to `found`.
    pub fn add_canonical(&mut self, text: String, found: String)
        ensures
            final(self).kinds == old(self).kinds,
            forall|other: Seq<char>|
                #[trigger] final(self).resolved(other) == if other == text@ {
                    Some(found@)
                } else {
                    old(self).resolved(other)
                },
    {
        let ghost before = self.canonical@;
        self.canonical.push((text, found));
        assert(self.canonical@.drop_last() =~= before);
    }

    /// Notes what `text` names.
    pub fn add_kind(&mut self, text: String, kind: PathKind)
        ensures
            final(self).canonical == old(self).canonical,
            forall|other: Seq<char>|
                #[trigger] final(self).kind(other) == if other == text@ {
                    kind
                } else {
                    old(self).kind(other)
                },
    {
        let ghost before = self.kinds@;
        self.kinds.push((text, kind));
        assert(self.kinds@.drop_last() =~= before);
    }

    /// The path text that `text` resolves to, if it resolves.
    pub fn canonical_text(&self, text: &str) -> (found: Option<&str>)
        ensures
            option_view(found) == self.resolved(text@),
    {
        let mut i: usize = self.canonical.len();
        assert(self.canonical@.take(i as int) =~= self.canonical@);
        while i > 0
            invariant
                i <= self.canonical@.len(),
                last_entry(self.canonical@, text@) == last_entry(
                    self.canonical@.take(i as int),
                    text@,
                ),
            decreases i,
        {
            i -= 1;
            assert(self.canonical@.take(i + 1).drop_last() =~= self.canonical@.take(i as int));
            if same_text(self.canonical[i].0.as_str(), text) {
                return Some(self.canonical[i].1.as_str());
            }
        }
        None
    }

    /// The kind of thing that `text` names.
    pub fn kind_of(&self, text: &str) -> (kind: PathKind)
        ensures
            kind == self.kind(text@),
    {
        let mut i: usize = self.kinds.len();
        assert(self.kinds@.take(i as int) =~= self.kinds@);
        while i > 0
            invariant
                i <= self.kinds@.len(),
                last_entry(self.kinds@, text@) == last_entry(self.kinds@.take(i as int), text@),
            decreases i,
        {
            i -= 1;
            assert(self.kinds@.take(i + 1).drop_last() =~= self.kinds@.take(i as int));
            if same_text(self.kinds[i].0.as_str(), text) {
                return self.kinds[i].1;
            }
        }
        PathKind::Missing
    }
}

/// Where a path leads that goes on from `before` by one component.
fn step(before: FilePath, component: &PathComponent) -> (next: FilePath)
    ensures
        next@ == stepped(before@, component@),
{
    match component {
        PathComponent::RootDir => {
            let root = FilePath { components: vec![PathComponent::RootDir] };
            assert(root@ =~= seq![ComponentView::RootDir]);
            root
        },
        PathComponent::CurDir => before,
        PathComponent::ParentDir => match before.parent() {
            Some(parent) => parent,
            None => before,
        },
        PathComponent::Normal(_) => {
            let mut next = before;
            let ghost start = next@;
            next.components.push(component.clone());
            assert(next@ =~= start.push(component@));
            next
        },
    }
}

/// Where the first `count` components of `path` lead; where there are none, where they start from.
fn walk(path: &FilePath, count: usize, facts: &FileFacts) -> (here: FilePath)
    requires
        count <= path@.len(),
    ensures
        here@ == if count == 0 {
            working_directory(*facts)
        } else {
            walked(path@.take(count as int), *facts)
        },
{
    proof {
        reveal_strlit(".");
        assert("."@ =~= seq!['.']);
    }
    let mut here = match facts.canonical_text(".") {
        Some(found) => FilePath::parse(found),
        None => FilePath { components: Vec::new() },
    };
    assert(here@ =~= working_directory(*facts));
    let mut i: usize = 0;
    while i < count
        invariant
            i <= count <= path@.len(),
            here@ == if i == 0 {
                working_directory(*facts)
            } else {
                walked(path@.take(i as int), *facts)
            },
        decreases count - i,
    {
        let so_far = path.first_components(i + 1);
        let ghost reached = path@.take(i + 1);
        assert(reached.drop_last() =~= path@.take(i as int));
        assert(reached.last() == path.components@[i as int]@);
        assert(here@ == walked_before(reached, *facts));
        let next = step(here, &path.components[i]);
        here = match facts.canonical_text(so_far.to_text().as_str()) {
            Some(found) => FilePath::parse(found),
            None => match facts.canonical_text(next.to_text().as_str()) {
                Some(found) => FilePath::parse(found),
                None => next,
            },
        };
        i += 1;
    }
    here
}

/// The path that `path` stands for: what it resolves to, or else where its components lead.
pub fn normalize_path(path: &str, facts: &FileFacts) -> (normal: FilePath)
    ensures
        normal@ == normalized(path@, *facts),
{
    if let Some(found) = facts.canonical_text(path) {
        return FilePath::parse(found);
    }
    let parsed = FilePath::parse(path);
    let count: usize = parsed.components.len();
    if count == 0 {
        assert(parsed@ =~= Seq::empty());
        return parsed;
    }
    assert(parsed@.take(count as int) =~= parsed@);
    walk(&parsed, count, facts)
}

/// The texts that are looked up for the path that `path` stands for. What is found at one of them
/// can lead to further ones.
pub fn path_lookups(path: &str, facts: &FileFacts) -> (texts: Vec<String>)
    ensures
        views(texts@) == path_texts(path@, *facts),
{
    proof {
        reveal_strlit(".");
        assert("."@ =~= seq!['.']);
    }
    let parsed = FilePath::parse(path);
    let mut texts: Vec<String> = Vec::new();
    texts.push(path.to_owned());
    assert(views(texts@) =~= seq![path@]);
    if parsed.components.len() > 0 {
        texts.push(".".to_owned());
        assert(views(texts@) =~= seq![path@] + seq![seq!['.']]);
    } else {
        assert(views(texts@) =~= seq![path@] + walk_texts(parsed@, *facts));
    }
    let mut i: usize = 0;
    while i < parsed.components.len()
        invariant
            i <= parsed.components@.len(),
            views(texts@) == seq![path@] + if i == 0 && parsed@.len() > 0 {
                seq![seq!['.']]
            } else {
                walk_texts(parsed@.take(i as int), *facts)
            },
        decreases parsed.components@.len() - i,
    {
        let ghost reached = parsed@.take(i + 1);
        let ghost before = views(texts@);
        assert(reached.drop_last() =~= parsed@.take(i as int));
        assert(reached.last() == parsed.components@[i as int]@);
        let next = step(walk(&parsed, i, facts), &parsed.components[i]);
        let so_far = parsed.first_components(i + 1);
        texts.push(so_far.to_text());
        texts.push(next.to_text());
        assert(views(texts@) =~= before + seq![path_text(reached), path_text(next@)]);
        assert(views(texts@) =~= seq![path@] + walk_texts(reached, *facts));
        i += 1;
    }
    assert(parsed@.take(i as int) =~= parsed@);
    texts
}

/// The path that a text stands for that may start with `~`.
pub fn normalize_path_str(path: &str, home: Option<&str>, facts: &FileFacts) -> (normal: Result<
    FilePath,
    String,
>)
    ensures
        match (normal, expanded(path@, option_view(home))) {
            (Ok(normal), Ok(text)) => normal@ == normalized(text, *facts),
            (Err(message), Err(expected)) => message@ == expected,
            _ => false,
        },
{
    match expand_tilde(path, home) {
        Ok(text) => Ok(normalize_path(text.as_str(), facts)),
        Err(message) => Err(message),
    }
}

/// A path of plain names and its text stand for one another.
pub proof fn text_of_plain_path(path: Seq<ComponentView>)
    requires
        plain_path(path),
    ensures
        path_components(path_text(path)) == path,
    decreases path.len(),
{
    if path.len() == 0 {
        assert(pieces(path_text(path), '/') =~= seq![Seq::<char>::empty()]);
        pieces_of_nothing();
        assert(path_components(path_text(path)) =~= path);
    } else {
        let before = path.drop_last();
        assert forall|i: int| 0 <= i < before.len() implies match #[trigger] before[i] {
            ComponentView::RootDir => i == 0,
            ComponentView::Normal(name) => plain_name(name),
            _ => false,
        } by {
            assert(before[i] == path[i]);
        }
        text_of_plain_path(before);
        let last = path[path.len() - 1];
        match last {
            ComponentView::RootDir => {
                assert(path =~= seq![ComponentView::RootDir]);
                assert(path_text(before) =~= Seq::<char>::empty());
                assert(path_text(path) =~= seq!['/']);
                pieces_of_nothing();
                assert(seq!['/'].drop_last() =~= Seq::<char>::empty());
                let parts = pieces(seq!['/'], '/');
                assert(parts =~= seq![Seq::<char>::empty(), Seq::<char>::empty()]);
                assert(parts.drop_last() =~= seq![Seq::<char>::empty()]);
                assert(path_components(seq!['/']) =~= path);
            },
            ComponentView::Normal(name) => {
                if path.len() == 1 {
                    assert(path_text(before) =~= Seq::<char>::empty());
                    assert(path_text(path) =~= name);
                    pieces_without_separator(name, '/');
                    assert(name[0] != '/') by {
                        if name[0] == '/' {
                            assert(name.contains('/'));
                        }
                    }
                    assert(pieces(name, '/').drop_last() =~= Seq::<Seq<char>>::empty());
                    assert(piece_components(Seq::<Seq<char>>::empty()) =~= Seq::<
                        ComponentView,
                    >::empty());
                    assert(pieces(name, '/')[0] == name);
                    assert(path_components(name) =~= path);
                } else if path[path.len() - 2] is RootDir {
                    assert(path.len() == 2);
                    assert(before =~= seq![ComponentView::RootDir]);
                    assert(before.drop_last() =~= Seq::<ComponentView>::empty());
                    assert(path_text(before.drop_last()) =~= Seq::<char>::empty());
                    assert(path_text(before) =~= seq!['/']);
                    let text = path_text(path);
                    assert(text =~= Seq::<char>::empty().push('/') + name);
                    pieces_of_nothing();
                    pieces_with_last(Seq::empty(), '/', name);
                    let parts = pieces(text, '/');
                    assert(parts =~= seq![Seq::<char>::empty(), name]);
                    assert(parts.drop_last() =~= seq![Seq::<char>::empty()]);
                    assert(path_components(text) =~= path);
                } else {
                    let text = path_text(path);
                    let above = path_text(before);
                    assert(text == above.push('/') + name);
                    pieces_with_last(above, '/', name);
                    assert(pieces(text, '/').drop_last() =~= pieces(above, '/'));
                    text_of_nonempty_path(before);
                    assert(text[0] == above[0]);
                    pieces_count(above, '/');
                    assert(head_components(text) == head_components(above));
                    assert(path_components(text) =~= path_components(above).push(last));
                    assert(path =~= before.push(last));
                }
            },
            _ => {},
        }
    }
}

/// A path of plain names that is not empty has a text that is not empty.
proof fn text_of_nonempty_path(path: Seq<ComponentView>)
    requires
        plain_path(path),
        path.len() > 0,
    ensures
        path_text(path).len() > 0,
{
    assert(path[path.len() - 1] == path.last());
}

proof fn pieces_of_nothing()
    ensures
        pieces(Seq::empty(), '/') == seq![Seq::<char>::empty()],
        piece_components(seq![Seq::<char>::empty()]) == Seq::<ComponentView>::empty(),
{
    assert(seq![Seq::<char>::empty()].drop_last() =~= Seq::<Seq<char>>::empty());
    assert(piece_components(seq![Seq::<char>::empty()].drop_last()) =~= Seq::<
        ComponentView,
    >::empty());
}

proof fn pieces_count(text: Seq<char>, separator: char)
    ensures
        pieces(text, separator).len() > 0,
    decreases text.len(),
{
    if text.len() > 0 {
        pieces_count(text.drop_last(), separator);
    }
}

/// No piece holds the separator.
proof fn pieces_hold_no_separator(text: Seq<char>, separator: char)
    ensures
        forall|i: int|
            0 <= i < pieces(text, separator).len() ==> !(#[trigger] pieces(
                text,
                separator,
            )[i]).contains(separator),
    decreases text.len(),
{
    if text.len() > 0 {
        pieces_hold_no_separator(text.drop_last(), separator);
        pieces_count(text.drop_last(), separator);
        let before = pieces(text.drop_last(), separator);
        if text.last() != separator {
            assert(!before.last().push(text.last()).contains(separator)) by {
                let grown = before.last().push(text.last());
                if grown.contains(separator) {
                    let i = choose|i: int| 0 <= i < grown.len() && grown[i] == separator;
                    assert(before.last()[i] == separator);
                    assert(before[before.len() - 1].contains(separator));
                }
            }
        }
    }
}

/// A text without the separator is its only piece.
proof fn pieces_without_separator(text: Seq<char>, separator: char)
    requires
        !text.contains(separator),
    ensures
        pieces(text, separator) == seq![text],
    decreases text.len(),
{
    if text.len() > 0 {
        let before = text.drop_last();
        assert(!before.contains(separator)) by {
            if before.contains(separator) {
                let i = choose|i: int| 0 <= i < before.len() && before[i] == separator;
                assert(text[i] == separator);
            }
        }
        pieces_without_separator(before, separator);
        assert(text[text.len() - 1] != separator);
        assert(before.push(text.last()) =~= text);
        assert(seq![before].drop_last().push(before.push(text.last())) =~= seq![text]);
    } else {
        assert(text =~= Seq::empty());
    }
}

/// Behind a separator, a text without one is a piece of its own.
proof fn pieces_with_last(above: Seq<char>, separator: char, name: Seq<char>)
    requires
        !name.contains(separator),
    ensures
        pieces(above.push(separator) + name, separator) == pieces(above, separator).push(name),
    decreases name.len(),
{
    let text = above.push(separator) + name;
    if name.len() == 0 {
        assert(text.drop_last() =~= above);
        assert(name =~= Seq::empty());
    } else {
        let shorter = name.drop_last();
        assert(!shorter.contains(separator)) by {
            if shorter.contains(separator) {
                let i = choose|i: int| 0 <= i < shorter.len() && shorter[i] == separator;
                assert(name[i] == separator);
            }
        }
        pieces_with_last(above, separator, shorter);
        assert(text.drop_last() =~= above.push(separator) + shorter);
        assert(name[name.len() - 1] != separator);
        assert(shorter.push(name.last()) =~= name);
        assert(pieces(above, separator).push(shorter).drop_last() =~= pieces(above, separator));
    }
}

/// Whether the root stands at the start alone and every name can stand between slashes.
spec fn well_named(path: Seq<ComponentView>) -> bool {
    forall|i: int|
        0 <= i < path.len() ==> match #[trigger] path[i] {
            ComponentView::RootDir => i == 0,
            ComponentView::Normal(name) => plain_name(name),
            _ => true,
        }
}

proof fn pieces_are_well_named(parts: Seq<Seq<char>>)
    requires
        forall|i: int| 0 <= i < parts.len() ==> !(#[trigger] parts[i]).contains('/'),
    ensures
        forall|i: int|
            0 <= i < piece_components(parts).len() ==> match #[trigger] piece_components(parts)[i] {
                ComponentView::RootDir => false,
                ComponentView::Normal(name) => plain_name(name),
                _ => true,
            },
    decreases parts.len(),
{
    if parts.len() > 0 {
        let before = parts.drop_last();
        assert forall|i: int| 0 <= i < before.len() implies !(#[trigger] before[i]).contains(
            '/',
        ) by {
            assert(before[i] == parts[i]);
        }
        pieces_are_well_named(before);
        assert(!parts[parts.len() - 1].contains('/'));
    }
}

proof fn lexical_is_plain(path: Seq<ComponentView>)
    requires
        well_named(path),
    ensures
        plain_path(lexical(path)),
    decreases path.len(),
{
    if path.len() > 0 {
        let before = path.drop_last();
        assert forall|i: int| 0 <= i < before.len() implies match #[trigger] before[i] {
            ComponentView::RootDir => i == 0,
            ComponentView::Normal(name) => plain_name(name),
            _ => true,
        } by {
            assert(before[i] == path[i]);
        }
        lexical_is_plain(before);
        let last = path[path.len() - 1];
        let so_far = lexical(before);
        match last {
            ComponentView::ParentDir => {
                if let Some(parent) = parent_of(so_far) {
                    assert forall|i: int| 0 <= i < parent.len() implies match #[trigger] parent[i] {
                        ComponentView::RootDir => i == 0,
                        ComponentView::Normal(name) => plain_name(name),
                        _ => false,
                    } by {
                        assert(parent[i] == so_far[i]);
                    }
                }
            },
            ComponentView::RootDir => {
                assert(before =~= Seq::empty());
                assert(lexical(path) =~= seq![ComponentView::RootDir]);
            },
            _ => {},
        }
    }
}

/// By its names alone, every path text stands for a path of plain names: neither `.` nor `..` is
/// left in it.
pub proof fn names_give_plain_path(text: Seq<char>)
    ensures
        plain_path(lexical(path_components(text))),
{
    components_are_well_named(text);
    lexical_is_plain(path_components(text));
}

/// A path of plain names stands for itself by its names.
pub proof fn lexical_keeps_plain_path(path: Seq<ComponentView>)
    requires
        plain_path(path),
    ensures
        lexical(path) == path,
    decreases path.len(),
{
    if path.len() > 0 {
        let before = path.drop_last();
        assert forall|i: int| 0 <= i < before.len() implies match #[trigger] before[i] {
            ComponentView::RootDir => i == 0,
            ComponentView::Normal(name) => plain_name(name),
            _ => false,
        } by {
            assert(before[i] == path[i]);
        }
        lexical_keeps_plain_path(before);
        assert(path[path.len() - 1] == path.last());
        assert(before.push(path.last()) =~= path);
    }
}

/// The components of a path text start with the root exactly when the text starts with a slash.
pub proof fn root_starts_text(text: Seq<char>)
    ensures
        (path_components(text).len() > 0 && path_components(text)[0] is RootDir) == (text.len() > 0
            && text[0] == '/'),
{
    pieces_hold_no_separator(text, '/');
    pieces_are_well_named(pieces(text, '/'));
    let head = head_components(text);
    let names = piece_components(pieces(text, '/'));
    if head.len() == 0 && names.len() > 0 {
        assert(path_components(text)[0] == names[0]);
    }
}

/// The components of a text: the root at the start alone, and names that can stand between slashes.
proof fn components_are_well_named(text: Seq<char>)
    ensures
        well_named(path_components(text)),
        text.len() > 0 ==> path_components(text).len() > 0,
{
    pieces_hold_no_separator(text, '/');
    pieces_are_well_named(pieces(text, '/'));
    let head = head_components(text);
    let names = piece_components(pieces(text, '/'));
    let path = path_components(text);
    assert forall|i: int| 0 <= i < path.len() implies match #[trigger] path[i] {
        ComponentView::RootDir => i == 0,
        ComponentView::Normal(name) => plain_name(name),
        _ => true,
    } by {
        if i >= head.len() {
            assert(path[i] == names[i - head.len()]);
        }
    }
    if text.len() > 0 && text[0] != '/' {
        first_piece_is_not_empty(text);
        if pieces(text, '/')[0] != seq!['.'] {
            pieces_count(text, '/');
            first_piece_is_a_component(pieces(text, '/'));
        }
    }
}

/// A text that does not start with a slash has a first piece that is not empty.
proof fn first_piece_is_not_empty(text: Seq<char>)
    requires
        text.len() > 0,
        text[0] != '/',
    ensures
        pieces(text, '/').len() > 0,
        pieces(text, '/')[0].len() > 0,
    decreases text.len(),
{
    pieces_count(text.drop_last(), '/');
    if text.len() > 1 {
        first_piece_is_not_empty(text.drop_last());
    } else {
        assert(text.drop_last() =~= Seq::empty());
        pieces_of_nothing();
    }
}

proof fn first_piece_is_a_component(parts: Seq<Seq<char>>)
    requires
        parts.len() > 0,
        parts[0].len() > 0,
        parts[0] != seq!['.'],
    ensures
        piece_components(parts).len() > 0,
    decreases parts.len(),
{
    if parts.len() > 1 {
        first_piece_is_a_component(parts.drop_last());
    }
}

/// What lies above a path that stays where it is stays where it is.
proof fn unmoved_above(path: Seq<ComponentView>, k: int, facts: FileFacts)
    requires
        facts.unmoved(path),
        0 <= k <= path.len(),
    ensures
        facts.unmoved(path.take(k)),
{
    let above = path.take(k);
    assert forall|i: int| 0 <= i < above.len() implies match #[trigger] above[i] {
        ComponentView::RootDir => i == 0,
        ComponentView::Normal(name) => plain_name(name),
        _ => false,
    } by {
        assert(above[i] == path[i]);
    }
    assert forall|j: int| 0 < j <= above.len() implies (facts.resolved(
        path_text(#[trigger] above.take(j)),
    ) matches Some(found) ==> path_components(found) == above.take(j)) by {
        assert(above.take(j) =~= path.take(j));
    }
}

/// What lies above a settled path is settled.
pub proof fn settled_above(path: Seq<ComponentView>, k: int, facts: FileFacts)
    requires
        facts.settled(path),
        0 < k <= path.len(),
    ensures
        facts.settled(path.take(k)),
{
    unmoved_above(path, k, facts);
    assert(path.take(k)[0] == path[0]);
}

/// One step that finds nothing else leads from a path that stays where it is to another.
proof fn step_is_unmoved(before: Seq<ComponentView>, component: ComponentView, facts: FileFacts)
    requires
        facts.unmoved(before),
        !(component is RootDir),
        component matches ComponentView::Normal(name) ==> plain_name(name),
        facts.resolved(path_text(stepped(before, component))) is None,
    ensures
        facts.unmoved(stepped(before, component)),
        before.len() > 0 && before[0] is RootDir ==> {
            &&& stepped(before, component).len() > 0
            &&& stepped(before, component)[0] is RootDir
        },
{
    match component {
        ComponentView::ParentDir => {
            if let Some(parent) = parent_of(before) {
                let last = before[before.len() - 1];
                assert(last == before.last());
                unmoved_above(before, before.len() - 1, facts);
                assert(parent =~= before.take(before.len() - 1));
            }
        },
        ComponentView::Normal(name) => {
            let next = before.push(component);
            assert forall|i: int| 0 <= i < next.len() implies match #[trigger] next[i] {
                ComponentView::RootDir => i == 0,
                ComponentView::Normal(name) => plain_name(name),
                _ => false,
            } by {
                if i < before.len() {
                    assert(next[i] == before[i]);
                }
            }
            assert forall|k: int| 0 < k <= next.len() implies (facts.resolved(
                path_text(#[trigger] next.take(k)),
            ) matches Some(found) ==> path_components(found) == next.take(k)) by {
                if k <= before.len() {
                    assert(next.take(k) =~= before.take(k));
                    assert(facts.resolved(path_text(before.take(k))) matches Some(found)
                        ==> path_components(found) == before.take(k));
                } else {
                    assert(next.take(k) =~= next);
                }
            }
        },
        _ => {},
    }
}

/// Where components lead stays where it is. If it is known where they start, it is settled; if not,
/// nothing is found at the empty path that they may lead to.
proof fn walked_is_unmoved(path: Seq<ComponentView>, facts: FileFacts)
    requires
        facts.consistent(),
        well_named(path),
        path.len() > 0,
    ensures
        facts.unmoved(walked(path, facts)),
        path[0] is RootDir || facts.resolved(seq!['.']) is Some ==> facts.settled(
            walked(path, facts),
        ),
        walked(path, facts).len() == 0 ==> facts.resolved(Seq::empty()) is None,
    decreases path.len(),
{
    let last = path[path.len() - 1];
    assert(last == path.last());
    if facts.resolved(path_text(path)) is None {
        let before = walked_before(path, facts);
        let next = stepped(before, last);
        if last is RootDir {
            assert(path =~= seq![ComponentView::RootDir]);
            assert forall|k: int| 0 < k <= next.len() implies (facts.resolved(
                path_text(#[trigger] next.take(k)),
            ) matches Some(found) ==> path_components(found) == next.take(k)) by {
                assert(next.take(k) =~= path);
            }
        } else {
            if path.len() > 1 {
                let shorter = path.drop_last();
                assert forall|i: int| 0 <= i < shorter.len() implies match #[trigger] shorter[i] {
                    ComponentView::RootDir => i == 0,
                    ComponentView::Normal(name) => plain_name(name),
                    _ => true,
                } by {
                    assert(shorter[i] == path[i]);
                }
                walked_is_unmoved(shorter, facts);
            }
            assert(facts.unmoved(before));
            if facts.resolved(path_text(next)) is None {
                step_is_unmoved(before, last, facts);
                if next.len() == 0 {
                    assert(path_text(next) =~= Seq::empty());
                }
            }
        }
    }
}

/// What a text stands for is settled, if it is known where it starts.
pub proof fn normalized_is_settled(text: Seq<char>, facts: FileFacts)
    requires
        facts.consistent(),
        facts.places(text),
    ensures
        facts.settled(normalized(text, facts)),
{
    if facts.resolved(text) is None {
        components_are_well_named(text);
        root_starts_text(text);
        walked_is_unmoved(path_components(text), facts);
    }
}

/// Along the components of a path that stays where it is there is nothing but that path, if it
/// starts at the root or it is not known where it starts.
proof fn unmoved_walks_to_itself(path: Seq<ComponentView>, facts: FileFacts)
    requires
        facts.unmoved(path),
        path.len() > 0 ==> path[0] is RootDir || facts.resolved(seq!['.']) is None,
    ensures
        walked(path, facts) == path,
    decreases path.len(),
{
    if path.len() > 0 {
        assert(path.take(path.len() as int) =~= path);
        let last = path[path.len() - 1];
        let before = path.drop_last();
        unmoved_above(path, path.len() - 1, facts);
        assert(path.take(path.len() - 1) =~= before);
        if path.len() > 1 {
            assert(before[0] == path[0]);
            unmoved_walks_to_itself(before, facts);
        } else if last is RootDir {
            assert(path =~= seq![ComponentView::RootDir]);
        }
        assert(before.push(last) =~= path);
        assert(path.last() == last);
        assert(stepped(walked_before(path, facts), last) =~= path);
    }
}

/// A settled path and its text stand for one another.
pub proof fn settled_stands_for_itself(path: Seq<ComponentView>, facts: FileFacts)
    requires
        facts.settled(path),
    ensures
        path_text(path).len() > 0,
        path_text(path)[0] == '/',
        normalized(path_text(path), facts) == path,
{
    assert(path.take(path.len() as int) =~= path);
    text_of_plain_path(path);
    root_starts_text(path_text(path));
    unmoved_walks_to_itself(path, facts);
}

/// Normalizing is done after one time: the text of a normalized path stands for that same path.
pub proof fn normalizing_again(text: Seq<char>, facts: FileFacts)
    requires
        facts.consistent(),
    ensures
        normalized(path_text(normalized(text, facts)), facts) == normalized(text, facts),
{
    let path = normalized(text, facts);
    if facts.places(text) {
        normalized_is_settled(text, facts);
        settled_stands_for_itself(path, facts);
    } else if facts.resolved(text) is Some {
        settled_stands_for_itself(path, facts);
    } else {
        text_of_plain_path(Seq::empty());
        if text.len() == 0 {
            assert(text =~= path_text(Seq::empty()));
        } else {
            components_are_well_named(text);
            root_starts_text(text);
            walked_is_unmoved(path_components(text), facts);
        }
        assert(path.take(path.len() as int) =~= path);
        text_of_plain_path(path);
        unmoved_walks_to_itself(path, facts);
    }
}

/// Where nothing is found, a path text stands for what its names say.
pub proof fn unknown_paths_go_by_their_names(text: Seq<char>, facts: FileFacts)
    requires
        forall|other: Seq<char>| #[trigger] facts.resolved(other) is None,
    ensures
        normalized(text, facts) == lexical(path_components(text)),
{
    assert(facts.resolved(text) is None);
    walk_by_names(path_components(text), facts);
}

proof fn walk_by_names(path: Seq<ComponentView>, facts: FileFacts)
    requires
        forall|other: Seq<char>| #[trigger] facts.resolved(other) is None,
    ensures
        walked(path, facts) == lexical(path),
    decreases path.len(),
{
    if path.len() > 0 {
        assert(facts.resolved(path_text(path)) is None);
        assert(facts.resolved(seq!['.']) is None);
        assert(facts.resolved(path_text(stepped(walked_before(path, facts), path.last()))) is None);
        walk_by_names(path.drop_last(), facts);
        if path.len() == 1 {
            assert(path.drop_last() =~= Seq::empty());
        }
    }
}

/// Beneath a directory, names that nothing is found at lie beneath what the directory stands for.
pub proof fn missing_names_lie_beneath(
    directory: Seq<ComponentView>,
    beneath: Seq<Seq<char>>,
    facts: FileFacts,
)
    requires
        directory.len() > 0,
        forall|k: int|
            0 < k <= beneath.len() ==> {
                let names = #[trigger] names_path(beneath.take(k));
                &&& facts.resolved(path_text(directory + names)) is None
                &&& facts.resolved(path_text(walked(directory, facts) + names)) is None
            },
    ensures
        walked(directory + names_path(beneath), facts) == walked(directory, facts) + names_path(
            beneath,
        ),
    decreases beneath.len(),
{
    let path = directory + names_path(beneath);
    if beneath.len() == 0 {
        assert(path =~= directory);
        assert(walked(directory, facts) + names_path(beneath) =~= walked(directory, facts));
    } else {
        let above = beneath.drop_last();
        assert forall|k: int| 0 < k <= above.len() implies {
            let names = #[trigger] names_path(above.take(k));
            &&& facts.resolved(path_text(directory + names)) is None
            &&& facts.resolved(path_text(walked(directory, facts) + names)) is None
        } by {
            assert(above.take(k) =~= beneath.take(k));
            assert(names_path(beneath.take(k)) == names_path(above.take(k)));
        }
        missing_names_lie_beneath(directory, above, facts);
        assert(beneath.take(beneath.len() as int) =~= beneath);
        assert(names_path(beneath.take(beneath.len() as int)) == names_path(beneath));
        assert(path.drop_last() =~= directory + names_path(above));
        let next = walked(path.drop_last(), facts).push(path.last());
        assert(next =~= walked(directory, facts) + names_path(beneath));
    }
}

/// A path of the given names.
pub open spec fn names_path(names: Seq<Seq<char>>) -> Seq<ComponentView> {
    names.map_values(|name: Seq<char>| ComponentView::Normal(name))
}

/// What a text stands for depends on nothing but what is looked up for it.
pub proof fn path_depends_on_lookups(text: Seq<char>, facts: FileFacts, other: FileFacts)
    requires
        facts.agrees(other, path_texts(text, facts)),
    ensures
        normalized(text, facts) == normalized(text, other),
{
    let texts = path_texts(text, facts);
    let walk = walk_texts(path_components(text), facts);
    assert(texts[0] == text);
    assert(facts.resolved(texts[0]) == other.resolved(texts[0]));
    assert forall|i: int| 0 <= i < walk.len() implies facts.resolved(#[trigger] walk[i])
        == other.resolved(walk[i]) by {
        assert(texts[i + 1] == walk[i]);
    }
    walk_depends_on_lookups(path_components(text), facts, other);
}

proof fn walk_depends_on_lookups(path: Seq<ComponentView>, facts: FileFacts, other: FileFacts)
    requires
        facts.agrees(other, walk_texts(path, facts)),
    ensures
        walked(path, facts) == walked(path, other),
    decreases path.len(),
{
    if path.len() > 0 {
        let texts = walk_texts(path, facts);
        let before = if path.len() == 1 {
            seq![seq!['.']]
        } else {
            walk_texts(path.drop_last(), facts)
        };
        assert forall|i: int| 0 <= i < before.len() implies facts.resolved(#[trigger] before[i])
            == other.resolved(before[i]) by {
            assert(texts[i] == before[i]);
        }
        assert(texts[before.len() as int] == path_text(path));
        assert(texts[before.len() as int + 1] == path_text(
            stepped(walked_before(path, facts), path.last()),
        ));
        if path.len() == 1 {
            assert(before[0] == seq!['.']);
        } else {
            walk_depends_on_lookups(path.drop_last(), facts, other);
        }
    }
}

/// The pieces of two texts with a separator between them are the pieces of both.
proof fn pieces_of_both(above: Seq<char>, separator: char, rest: Seq<char>)
    ensures
        pieces(above.push(separator) + rest, separator) == pieces(above, separator) + pieces(
            rest,
            separator,
        ),
    decreases rest.len(),
{
    let text = above.push(separator) + rest;
    pieces_count(rest, separator);
    if rest.len() == 0 {
        assert(text.drop_last() =~= above);
        assert(rest =~= Seq::empty());
        assert(pieces(text, separator) =~= pieces(above, separator) + pieces(rest, separator));
    } else {
        let shorter = rest.drop_last();
        pieces_of_both(above, separator, shorter);
        pieces_count(shorter, separator);
        assert(text.drop_last() =~= above.push(separator) + shorter);
        assert(text.last() == rest.last());
        assert(pieces(text, separator) =~= pieces(above, separator) + pieces(rest, separator));
    }
}

/// The components of pieces are those of the first ones, and behind them those of the others.
proof fn components_of_both(first: Seq<Seq<char>>, second: Seq<Seq<char>>)
    ensures
        piece_components(first + second) == piece_components(first) + piece_components(second),
    decreases second.len(),
{
    if second.len() == 0 {
        assert(first + second =~= first);
        assert(piece_components(first) + piece_components(second) =~= piece_components(first));
    } else {
        components_of_both(first, second.drop_last());
        assert((first + second).drop_last() =~= first + second.drop_last());
        assert(piece_components(first + second) =~= piece_components(first) + piece_components(
            second,
        ));
    }
}

/// What follows `~/` lies below the home directory: the components of the expanded text start with
/// those of the home directory.
pub proof fn tilde_stays_below_home(text: Seq<char>, home: Seq<char>)
    requires
        seq!['~', '/'].is_prefix_of(text),
    ensures
        expanded(text, Some(home)) matches Ok(path) && path_components(home).is_prefix_of(
            path_components(path),
        ),
{
    let rest = without_prefixes(text.skip(2), seq!['/']);
    assert(text != seq!['~']) by {
        assert(text.len() >= 2);
        assert(seq!['~'].len() == 1);
    }
    no_slash_left(text.skip(2));
    let path = joined_path(home, rest);
    if home.len() == 0 {
        assert(home =~= Seq::empty());
        pieces_of_nothing();
        assert(path_components(home) =~= path_components(path).subrange(0, 0));
    } else {
        below_home(home, rest);
    }
}

proof fn below_home(home: Seq<char>, rest: Seq<char>)
    requires
        home.len() > 0,
        rest.len() > 0 ==> rest[0] != '/',
    ensures
        path_components(home).is_prefix_of(path_components(joined_path(home, rest))),
{
    let path = joined_path(home, rest);
    let base = if home.last() == '/' {
        home.drop_last()
    } else {
        home
    };
    assert(path =~= base.push('/') + rest);
    pieces_of_both(base, '/', rest);
    components_of_both(pieces(base, '/'), pieces(rest, '/'));
    pieces_count(base, '/');
    if home.last() == '/' {
        assert(home =~= base.push('/') + Seq::empty());
        pieces_of_both(base, '/', Seq::empty());
        pieces_of_nothing();
        components_of_both(pieces(base, '/'), seq![Seq::<char>::empty()]);
        assert(piece_components(pieces(home, '/')) =~= piece_components(pieces(base, '/')));
        assert(pieces(home, '/')[0] == pieces(base, '/')[0]);
    }
    assert(path[0] == home[0]);
    assert(pieces(path, '/')[0] == pieces(base, '/')[0]);
    assert(head_components(path) == head_components(home));
    assert(path_components(home) =~= path_components(path).subrange(
        0,
        path_components(home).len() as int,
    ));
}

proof fn no_slash_left(text: Seq<char>)
    ensures
        without_prefixes(text, seq!['/']).len() > 0 ==> without_prefixes(text, seq!['/'])[0] != '/',
    decreases text.len(),
{
    if seq!['/'].is_prefix_of(text) {
        no_slash_left(text.skip(1));
    } else if text.len() > 0 && text[0] == '/' {
        assert(seq!['/'] =~= text.subrange(0, 1));
    }
}

/// By the names alone, `.` stays where it is, `..` undoes the name before it, and above the root there
/// is nothing.
pub proof fn dots_lead_where_they_say(path: Seq<ComponentView>, name: Seq<char>)
    ensures
        lexical(path.push(ComponentView::CurDir)) == lexical(path),
        lexical(path.push(ComponentView::Normal(name))) == lexical(path).push(
            ComponentView::Normal(name),
        ),
        lexical(path.push(ComponentView::Normal(name)).push(ComponentView::ParentDir)) == lexical(
            path,
        ),
        lexical(seq![ComponentView::RootDir, ComponentView::ParentDir]) == seq![
            ComponentView::RootDir,
        ],
{
    let down = path.push(ComponentView::Normal(name));
    let up = down.push(ComponentView::ParentDir);
    assert(path.push(ComponentView::CurDir).drop_last() =~= path);
    assert(down.drop_last() =~= path);
    assert(up.drop_last() =~= down);
    assert(lexical(path).push(ComponentView::Normal(name)).drop_last() =~= lexical(path));
    let root = seq![ComponentView::RootDir];
    let above = seq![ComponentView::RootDir, ComponentView::ParentDir];
    reveal_with_fuel(lexical, 3);
    assert(above.drop_last() =~= root);
    assert(root.drop_last() =~= Seq::<ComponentView>::empty());
}

/// A path that is found counts as what it was found to be.
pub proof fn found_paths_count_as_found(text: Seq<char>, facts: FileFacts, found: Seq<char>)
    requires
        facts.resolved(text) == Some(found),
    ensures
        normalized(text, facts) == path_components(found),
{
}

/// A slash more at the end names the same path.
pub proof fn slash_at_the_end_adds_nothing(text: Seq<char>)
    requires
        text.len() > 0,
    ensures
        path_components(text.push('/')) == path_components(text),
{
    let longer = text.push('/');
    assert(longer.drop_last() =~= text);
    pieces_count(text, '/');
    let parts = pieces(text, '/');
    assert(pieces(longer, '/') =~= parts.push(Seq::empty()));
    assert(parts.push(Seq::<char>::empty()).drop_last() =~= parts);
    assert(longer[0] == text[0]);
    assert(pieces(longer, '/')[0] == parts[0]);
    assert(piece_components(pieces(longer, '/')) == piece_components(parts));
}

/// A path under another ends with what it is, and starts with the other one unless it is absolute, with
/// one slash between them.
pub proof fn paths_are_put_under_others(base: Seq<char>, rest: Seq<char>)
    ensures
        rest.len() > 0 && rest[0] == '/' ==> joined_path(base, rest) == rest,
        rest.len() > 0 && rest[0] != '/' && base.len() > 0 && base.last() != '/' ==> joined_path(
            base,
            rest,
        ) == base + seq!['/'] + rest,
        rest.len() > 0 && rest[0] != '/' && base.len() > 0 && base.last() == '/' ==> joined_path(
            base,
            rest,
        ) == base + rest,
{
    assert(base.push('/') =~= base + seq!['/']);
}

/// `~` alone is the home directory, a text that does not start with it stays as it is, and so does one
/// with a name behind it. Without a home `~` stands for nothing.
pub proof fn tilde_stands_for_the_home(text: Seq<char>, home: Seq<char>)
    ensures
        expanded(seq!['~'], Some(home)) == Ok::<Seq<char>, Seq<char>>(home),
        expanded(seq!['~'], None) is Err,
        expanded(seq!['~', '/'] + text, None) is Err,
        text.len() > 0 && text[0] != '~' ==> expanded(text, Some(home)) == Ok::<
            Seq<char>,
            Seq<char>,
        >(text) && expanded(text, None) == Ok::<Seq<char>, Seq<char>>(text),
        text.len() > 1 && text[1] != '/' ==> expanded(text, Some(home)) == Ok::<
            Seq<char>,
            Seq<char>,
        >(text),
        text.len() > 0 && text[0] != '/' ==> expanded(seq!['~', '/'] + text, Some(home)) == Ok::<
            Seq<char>,
            Seq<char>,
        >(joined_path(home, text)),
{
    let tilde = seq!['~', '/'] + text;
    assert(seq!['~', '/'] =~= tilde.subrange(0, 2));
    assert(tilde.len() >= 2 && seq!['~'].len() == 1);
    assert(tilde.skip(2) =~= text);
    if seq!['~', '/'].is_prefix_of(text) {
        assert(seq!['~', '/'][0] == text.subrange(0, 2)[0]);
        assert(seq!['~', '/'][1] == text.subrange(0, 2)[1]);
    }
    if text.len() > 0 && text[0] != '/' {
        if seq!['/'].is_prefix_of(text) {
            assert(seq!['/'][0] == text.subrange(0, 1)[0]);
        }
        assert(without_prefixes(text, seq!['/']) == text);
    }
}

/// What was learned last of a text counts, and of every other text what was known before.
pub proof fn last_finding_counts<V>(
    entries: Seq<(String, V)>,
    key: String,
    value: V,
    other: Seq<char>,
)
    ensures
        last_entry(entries.push((key, value)), key@) == Some(value),
        other != key@ ==> last_entry(entries.push((key, value)), other) == last_entry(
            entries,
            other,
        ),
        last_entry(Seq::<(String, V)>::empty(), other) is None,
{
    assert(entries.push((key, value)).drop_last() =~= entries);
}

/// What was not looked at names nothing, and resolves to nothing.
pub proof fn unknown_texts_name_nothing(facts: FileFacts, text: Seq<char>)
    requires
        forall|i: int| 0 <= i < facts.kinds@.len() ==> (#[trigger] facts.kinds@[i]).0@ != text,
        forall|i: int|
            0 <= i < facts.canonical@.len() ==> (#[trigger] facts.canonical@[i]).0@ != text,
    ensures
        facts.kind(text) == PathKind::Missing,
        facts.resolved(text) is None,
{
    no_entry(facts.kinds@, text);
    no_entry(facts.canonical@, text);
}

proof fn no_entry<V>(entries: Seq<(String, V)>, key: Seq<char>)
    requires
        forall|i: int| 0 <= i < entries.len() ==> (#[trigger] entries[i]).0@ != key,
    ensures
        last_entry(entries, key) is None,
    decreases entries.len(),
{
    if entries.len() > 0 {
        let before = entries.drop_last();
        assert forall|i: int| 0 <= i < before.len() implies (#[trigger] before[i]).0@ != key by {
            assert(before[i] == entries[i]);
        }
        assert(entries[entries.len() - 1].0@ != key);
        no_entry(before, key);
    }
}

/// A relative name that is not found lies in the working directory.
pub proof fn relative_names_lie_in_the_working_directory(
    name: Seq<char>,
    facts: FileFacts,
    found: Seq<char>,
)
    requires
        plain_name(name),
        facts.resolved(name) is None,
        facts.resolved(seq!['.']) == Some(found),
        facts.resolved(
            path_text(path_components(found).push(ComponentView::Normal(name))),
        ) is None,
    ensures
        normalized(name, facts) == path_components(found).push(ComponentView::Normal(name)),
{
    let path = seq![ComponentView::Normal(name)];
    let nothing = Seq::<ComponentView>::empty();
    assert(path.drop_last() =~= nothing);
    assert(path_text(nothing) =~= Seq::<char>::empty());
    assert(path_text(path) =~= name);
    text_of_plain_path(path);
    assert(path.last() == ComponentView::Normal(name));
}

/// A path text is read piece by piece: `..` is the way up, `.` adds nothing, and a name adds itself.
pub proof fn pieces_are_read_one_by_one(text: Seq<char>, name: Seq<char>)
    requires
        text.len() > 0,
    ensures
        path_components(text.push('/') + seq!['.', '.']) == path_components(text).push(
            ComponentView::ParentDir,
        ),
        path_components(text.push('/') + seq!['.']) == path_components(text),
        plain_name(name) ==> path_components(text.push('/') + name) == path_components(text).push(
            ComponentView::Normal(name),
        ),
{
    one_piece_more(text, seq!['.', '.']);
    one_piece_more(text, seq!['.']);
    let parts = pieces(text, '/');
    let up = parts.push(seq!['.', '.']);
    let here = parts.push(seq!['.']);
    assert(up.drop_last() =~= parts);
    assert(here.drop_last() =~= parts);
    assert(seq!['.', '.'].len() == 2 && seq!['.'].len() == 1);
    assert(path_components(text.push('/') + seq!['.', '.']) =~= path_components(text).push(
        ComponentView::ParentDir,
    ));
    if plain_name(name) {
        one_piece_more(text, name);
        assert(parts.push(name).drop_last() =~= parts);
        assert(path_components(text.push('/') + name) =~= path_components(text).push(
            ComponentView::Normal(name),
        ));
    }
}

proof fn one_piece_more(text: Seq<char>, piece: Seq<char>)
    requires
        text.len() > 0,
        !piece.contains('/'),
    ensures
        pieces(text.push('/') + piece, '/') == pieces(text, '/').push(piece),
        head_components(text.push('/') + piece) == head_components(text),
{
    pieces_count(text, '/');
    pieces_with_last(text, '/', piece);
    assert((text.push('/') + piece)[0] == text[0]);
    assert(pieces(text, '/').push(piece)[0] == pieces(text, '/')[0]);
}

/// The shortest paths: the root, the current directory, the one above, and a name alone.
pub proof fn shortest_paths(name: Seq<char>)
    ensures
        path_components(seq!['/']) == seq![ComponentView::RootDir],
        path_components(seq!['.']) == seq![ComponentView::CurDir],
        path_components(seq!['.', '.']) == seq![ComponentView::ParentDir],
        plain_name(name) ==> path_components(name) == seq![ComponentView::Normal(name)],
        path_components(Seq::empty()) == Seq::<ComponentView>::empty(),
{
    let nothing = Seq::<char>::empty();
    pieces_of_nothing();
    pieces_without_separator(seq!['.'], '/');
    pieces_without_separator(seq!['.', '.'], '/');
    assert(seq!['/'].drop_last() =~= nothing);
    assert(pieces(seq!['/'], '/') =~= seq![nothing, nothing]);
    assert(seq![nothing, nothing].drop_last() =~= seq![nothing]);
    reveal_with_fuel(piece_components, 3);
    assert(seq![nothing].drop_last() =~= Seq::<Seq<char>>::empty());
    assert(seq![seq!['.']].drop_last() =~= Seq::<Seq<char>>::empty());
    assert(seq![seq!['.', '.']].drop_last() =~= Seq::<Seq<char>>::empty());
    assert(seq!['.', '.'].len() == 2 && seq!['.'].len() == 1);
    assert(path_components(seq!['/']) =~= seq![ComponentView::RootDir]);
    assert(path_components(seq!['.']) =~= seq![ComponentView::CurDir]);
    assert(path_components(seq!['.', '.']) =~= seq![ComponentView::ParentDir]);
    assert(path_components(nothing) =~= Seq::<ComponentView>::empty());
    if plain_name(name) {
        let path = seq![ComponentView::Normal(name)];
        assert(path.drop_last() =~= Seq::<ComponentView>::empty());
        assert(path_text(path.drop_last()) =~= nothing);
        assert(path_text(path) =~= name);
        text_of_plain_path(path);
    }
}

} // verus!
