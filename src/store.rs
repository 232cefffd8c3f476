use vstd::prelude::*;

use crate::history::{
    analysis_of, history_ok, is_ancestor, is_common_ancestor, is_parent, lemma_ancestor_le,
    lemma_ancestor_via_parent, parent_ok, Commit, MergeAnalysis,
};
use crate::snapshot::{
    conflict_snapshot, conflict_workdir_content, conflicts_of, merge_snapshots, merged_content, Snapshot,
    TrackedPath,
};
use crate::text::{format_tag_line, tag_line};
use crate::order::{
    lemma_name_less_irreflexive, lemma_name_less_total, lemma_name_less_trans, name_less, precedes,
};

verus! {

/// A tag: annotated when it carries a message, lightweight otherwise.
#[derive(Clone, Debug)]
pub struct Tag {
    pub name: String,
    pub target: usize,
    pub message: Option<String>,
}

/// Where the repository head points.
#[derive(Clone, Copy, Debug, PartialEq, Eq, Structural)]
pub enum Head {
    /// Attached to the main branch.
    Main,
    /// Detached at a commit.
    Detached(usize),
}

/// A version store held in memory: an append-only history of commits, its
/// tags, the main branch ref, the head and the working directory's tracked
/// contents. Checkpoints, tags, name resolution, checkout and pull are stated
/// and proved on it. The program works on a git repository instead: it takes
/// ancestry and merge bases from git2, and from this crate the decisions made
/// on them (`classify`, `merge_snapshots`, `conflict_snapshot`, tag messages,
/// name lookup, listing order).
///
/// A commit is named by its position in `commits`; parents always come earlier,
/// so the history has no cycles and a position order is a topological order.
pub struct Store {
    pub commits: Vec<Commit>,
    pub tags: Vec<Tag>,
    pub main: Option<usize>,
    pub head: Head,
    pub workdir: Snapshot,
}

/// Why an operation on the store failed.
#[derive(Debug)]
pub enum StoreError {
    /// A name or identifier did not resolve to a commit.
    RefNotFound,
    /// A tag of that name already exists.
    TagExists,
    /// The two histories share no commit.
    NoCommonAncestor,
    /// These paths changed on both sides of a merge.
    ConflictDetected(Vec<TrackedPath>),
}

/// What a pull did.
#[derive(Clone, Copy, Debug, PartialEq, Eq, Structural)]
pub enum PullOutcome {
    UpToDate,
    LocalAhead,
    FastForward,
    /// A merge commit with the given identifier was created.
    Merged(usize),
}

/// Tags strictly ordered by name, hence with unique names.
pub open spec fn tags_sorted(ts: Seq<Tag>) -> bool {
    forall|i: int, j: int| 0 <= i < j < ts.len() ==> name_less(#[trigger] ts[i].name@, #[trigger] ts[j].name@)
}

pub open spec fn opt_view(m: Option<&str>) -> Option<Seq<char>> {
    match m {
        Some(s) => Some(s@),
        None => None,
    }
}

/// A tag as plain values: name, target and message.
pub open spec fn tag_view(t: Tag) -> (Seq<char>, usize, Option<Seq<char>>) {
    (t.name@, t.target, match t.message {
        Some(m) => Some(m@),
        None => None,
    })
}

pub open spec fn tag_views(ts: Seq<Tag>) -> Seq<(Seq<char>, usize, Option<Seq<char>>)> {
    ts.map_values(|t: Tag| tag_view(t))
}

/// The tag listing: one line per tag, in the tags' order (by name).
pub open spec fn listing(vs: Seq<(Seq<char>, usize, Option<Seq<char>>)>) -> Seq<Seq<char>> {
    vs.map_values(|v: (Seq<char>, usize, Option<Seq<char>>)| tag_line(v.0, v.2))
}

pub open spec fn has_tag(ts: Seq<Tag>, name: Seq<char>) -> bool {
    exists|i: int| 0 <= i < ts.len() && #[trigger] ts[i].name@ == name
}

/// The message given to a tag without a description.
pub open spec fn default_tag_message(name: Seq<char>) -> Seq<char> {
    "araki environment tag: "@ + name
}

/// A tag's message: its description if there is one, else the default.
pub open spec fn tag_message(name: Seq<char>, description: Option<Seq<char>>) -> Seq<char> {
    match description {
        Some(d) => d,
        None => default_tag_message(name),
    }
}

/// The value of a string of decimal digits.
pub open spec fn digits_value(s: Seq<char>) -> nat
    decreases s.len(),
{
    if s.len() == 0 {
        0
    } else {
        digits_value(s.drop_last()) * 10 + ((s.last() as int - '0' as int) as nat)
    }
}

/// The number that `s` writes in decimal, with an optional leading `+`.
pub open spec fn decimal_of(s: Seq<char>) -> Option<nat> {
    let d = if s.len() > 0 && s[0] == '+' {
        s.drop_first()
    } else {
        s
    };
    if d.len() > 0 && forall|i: int| 0 <= i < d.len() ==> '0' <= #[trigger] d[i] <= '9' {
        Some(digits_value(d))
    } else {
        None
    }
}

/// Relies on `str::parse::<usize>`: an optional `+` followed by decimal digits,
/// whose value fits in `usize`; anything else is an error.
#[verifier::external_body]
fn parse_index(s: &str) -> (r: Option<usize>)
    ensures
        r matches Some(v) ==> decimal_of(s@) == Some(v as nat),
        r is None ==> (decimal_of(s@) is None || decimal_of(s@).unwrap() > usize::MAX),
{
    s.parse::<usize>().ok()
}

impl Store {
    pub open spec fn wf(&self) -> bool {
        &&& history_ok(self.commits@)
        &&& forall|i: int| 0 <= i < self.tags@.len() ==> (#[trigger] self.tags@[i]).target < self.commits@.len()
        &&& (self.main matches Some(m) ==> m < self.commits@.len())
        &&& (self.head matches Head::Detached(c) ==> c < self.commits@.len())
        &&& tags_sorted(self.tags@)
    }

    /// The commit that `name` designates: `latest` is the main branch's tip;
    /// otherwise a tag of that name; otherwise a commit identifier in decimal.
    pub open spec fn resolve_spec(&self, name: Seq<char>) -> Option<usize> {
        if name == "latest"@ {
            self.main
        } else if has_tag(self.tags@, name) {
            let i = choose|i: int| 0 <= i < self.tags@.len() && #[trigger] self.tags@[i].name@ == name;
            Some(self.tags@[i].target)
        } else {
            match decimal_of(name) {
                Some(v) => if v < self.commits@.len() {
                    Some(v as usize)
                } else {
                    None
                },
                None => None,
            }
        }
    }

    /// The ancestors of `from` (itself included), parents before children.
    pub fn history(&self, from: usize) -> (r: Vec<usize>)
        requires
            self.wf(),
            from < self.commits@.len(),
        ensures
            forall|i: int, j: int| 0 <= i < j < r@.len() ==> r@[i] < r@[j],
            forall|c: int| 0 <= c < self.commits@.len() ==> (r@.contains(c as usize) <==> is_ancestor(self.commits@, c, from as int)),
            forall|k: int| 0 <= k < r@.len() ==> #[trigger] r@[k] < self.commits@.len(),
    {
        let marks = self.ancestry(from);
        let mut r: Vec<usize> = Vec::new();
        let mut i: usize = 0;
        while i < marks.len()
            invariant
                i <= marks@.len(),
                marks@.len() == self.commits@.len(),
                forall|j: int| 0 <= j < marks@.len() ==> marks@[j] == is_ancestor(self.commits@, j, from as int),
                forall|a: int, b: int| 0 <= a < b < r@.len() ==> r@[a] < r@[b],
                forall|k: int| 0 <= k < r@.len() ==> #[trigger] r@[k] < i,
                forall|c: int| 0 <= c < i ==> (r@.contains(c as usize) <==> marks@[c]),
            decreases marks@.len() - i,
        {
            let ghost before = r@;
            if marks[i] {
                r.push(i);
            }
            assert forall|c: int| 0 <= c < i + 1 implies (r@.contains(c as usize) <==> marks@[c]) by {
                if r@.contains(c as usize) {
                    let k = choose|k: int| 0 <= k < r@.len() && r@[k] == c as usize;
                    if k < before.len() {
                        assert(before[k] == r@[k]);
                    }
                }
                if marks@[c] {
                    if c < i {
                        let k = choose|k: int| 0 <= k < before.len() && before[k] == c as usize;
                        assert(r@[k] == c as usize);
                    } else {
                        assert(r@[r@.len() - 1] == c as usize);
                    }
                }
            }
            i = i + 1;
        }
        assert forall|c: int| 0 <= c < self.commits@.len() implies (r@.contains(c as usize) <==> is_ancestor(self.commits@, c, from as int)) by {
            assert(marks@[c] == is_ancestor(self.commits@, c, from as int));
        }
        r
    }

    /// The tag listing, ordered by tag name.
    pub fn tag_listing(&self) -> (r: Vec<String>)
        ensures
            crate::text::views(r@) == listing(tag_views(self.tags@)),
    {
        let mut r: Vec<String> = Vec::new();
        let mut i: usize = 0;
        while i < self.tags.len()
            invariant
                i <= self.tags@.len(),
                crate::text::views(r@) == listing(tag_views(self.tags@)).take(i as int),
            decreases self.tags@.len() - i,
        {
            let t = &self.tags[i];
            let line = match &t.message {
                Some(m) => format_tag_line(t.name.as_str(), Some(m.as_str())),
                None => format_tag_line(t.name.as_str(), None),
            };
            let ghost before = r@;
            r.push(line);
            assert(crate::text::views(r@) =~= listing(tag_views(self.tags@)).take(i + 1)) by {
                assert(crate::text::views(r@) =~= crate::text::views(before).push(line@));
            }
            i = i + 1;
        }
        assert(listing(tag_views(self.tags@)).take(i as int) =~= listing(tag_views(self.tags@)));
        r
    }

    /// The position of the tag named `name`, if there is one.
    pub fn find_tag(&self, name: &str) -> (r: Option<usize>)
        requires
            self.wf(),
        ensures
            r is None <==> !has_tag(self.tags@, name@),
            r matches Some(i) ==> i < self.tags@.len() && self.tags@[i as int].name@ == name@,
    {
        let key = String::from_str(name);
        let mut i: usize = 0;
        while i < self.tags.len()
            invariant
                key@ == name@,
                i <= self.tags@.len(),
                forall|j: int| 0 <= j < i ==> #[trigger] self.tags@[j].name@ != name@,
            decreases self.tags@.len() - i,
        {
            if self.tags[i].name == key {
                return Some(i);
            }
            i = i + 1;
        }
        None
    }

    /// Resolves `name` as `resolve_spec` says.
    pub fn resolve(&self, name: &str) -> (r: Result<usize, StoreError>)
        requires
            self.wf(),
        ensures
            r matches Ok(c) ==> self.resolve_spec(name@) == Some(c),
            r is Err ==> self.resolve_spec(name@) is None && (r matches Err(StoreError::RefNotFound)),
    {
        let n = self.commits.len();
        let given = String::from_str(name);
        let latest = String::from_str("latest");
        if given == latest {
            return match self.main {
                Some(m) => Ok(m),
                None => Err(StoreError::RefNotFound),
            };
        }
        match self.find_tag(name) {
            Some(i) => {
                proof {
                    let k = choose|k: int| 0 <= k < self.tags@.len() && #[trigger] self.tags@[k].name@ == name@;
                    if k != i {
                        let (lo, hi) = if k < i { (k, i as int) } else { (i as int, k) };
                        assert(name_less(self.tags@[lo].name@, self.tags@[hi].name@));
                        lemma_name_less_irreflexive(name@);
                    }
                }
                Ok(self.tags[i].target)
            },
            None => match parse_index(name) {
                Some(v) => if v < n {
                    Ok(v)
                } else {
                    Err(StoreError::RefNotFound)
                },
                None => Err(StoreError::RefNotFound),
            },
        }
    }

    /// Resolves `name` and checks that commit out; on failure nothing changes.
    pub fn checkout_name(&mut self, name: &str) -> (r: Result<usize, StoreError>)
        requires
            old(self).wf(),
        ensures
            final(self).wf(),
            r is Ok <==> old(self).resolve_spec(name@) is Some,
            r matches Ok(c) ==> old(self).resolve_spec(name@) == Some(c)
                && final(self).workdir.same(old(self).commits@[c as int].tree)
                && final(self).head == Head::Detached(c),
            r is Err ==> (r matches Err(StoreError::RefNotFound)) && final(self).workdir == old(self).workdir
                && final(self).head == old(self).head,
            final(self).main == old(self).main,
            final(self).commits@ == old(self).commits@,
            final(self).tags@ == old(self).tags@,
    {
        let c = self.resolve(name)?;
        self.checkout(c);
        Ok(c)
    }

    /// Creates an annotated tag on commit `commit`; its message is `description`,
    /// or a default one that names the tag.
    pub fn tag_checkpoint(&mut self, commit: usize, name: &str, description: Option<&str>) -> (r: Result<usize, StoreError>)
        requires
            old(self).wf(),
        ensures
            final(self).wf(),
            final(self).commits@ == old(self).commits@,
            final(self).main == old(self).main,
            final(self).head == old(self).head,
            final(self).workdir == old(self).workdir,
            commit >= old(self).commits@.len() ==> (r matches Err(StoreError::RefNotFound)),
            commit < old(self).commits@.len() && has_tag(old(self).tags@, name@) ==> (r matches Err(StoreError::TagExists)),
            r is Ok <==> commit < old(self).commits@.len() && !has_tag(old(self).tags@, name@),
            r is Err ==> final(self).tags@ == old(self).tags@,
            r matches Ok(pos) ==> pos <= old(self).tags@.len()
                && tag_views(final(self).tags@) == tag_views(old(self).tags@).insert(
                    pos as int, (name@, commit, Some(tag_message(name@, opt_view(description))))),
    {
        let message = crate::cli::tag::tag_message_text(name, description);
        self.create_tag(name, commit, Some(message.as_str()))
    }

    /// Checkpoints the working directory with `message` and, when `tag` is
    /// given, tags the new commit (see `tag_checkpoint`). A tag name already in
    /// use is refused before anything is committed.
    pub fn commit_and_tag(&mut self, message: &str, tag: Option<&str>, description: Option<&str>) -> (r: Result<(usize, Option<usize>), StoreError>)
        requires
            old(self).wf(),
            old(self).commits@.len() < usize::MAX,
        ensures
            final(self).wf(),
            (tag matches Some(t) && has_tag(old(self).tags@, t@)) ==> (r matches Err(StoreError::TagExists))
                && final(self).commits@ == old(self).commits@ && final(self).tags@ == old(self).tags@
                && final(self).main == old(self).main && final(self).head == old(self).head,
            !(tag matches Some(t) && has_tag(old(self).tags@, t@)) ==> (r matches Ok((id, p)) && ({
                &&& Store::committed(*old(self), *final(self), id as int, message@)
                &&& tag is None ==> p is None && final(self).tags@ == old(self).tags@
                &&& tag matches Some(t) ==> (p matches Some(pos) && pos <= old(self).tags@.len()
                    && tag_views(final(self).tags@) == tag_views(old(self).tags@).insert(
                        pos as int, (t@, id, Some(tag_message(t@, opt_view(description))))))
            })),
            final(self).workdir == old(self).workdir,
    {
        if let Some(t) = tag {
            if self.find_tag(t).is_some() {
                return Err(StoreError::TagExists);
            }
        }
        let id = self.checkpoint(message);
        let ghost mid = *self;
        match tag {
            None => Ok((id, None)),
            Some(t) => {
                let pos = self.tag_checkpoint(id, t, description);
                proof {
                    assert(self.commits@ == mid.commits@);
                }
                match pos {
                    Ok(p) => Ok((id, Some(p))),
                    Err(e) => Err(e),
                }
            },
        }
    }

    /// Creates a tag pointing at commit `target`: annotated with `message`, or
    /// lightweight without one. Tags stay ordered by name.
    pub fn create_tag(&mut self, name: &str, target: usize, message: Option<&str>) -> (r: Result<usize, StoreError>)
        requires
            old(self).wf(),
        ensures
            final(self).wf(),
            final(self).commits@ == old(self).commits@,
            final(self).main == old(self).main,
            final(self).head == old(self).head,
            final(self).workdir == old(self).workdir,
            target >= old(self).commits@.len() ==> (r matches Err(StoreError::RefNotFound)),
            target < old(self).commits@.len() && has_tag(old(self).tags@, name@) ==> (r matches Err(StoreError::TagExists)),
            r is Ok <==> target < old(self).commits@.len() && !has_tag(old(self).tags@, name@),
            r is Err ==> final(self).tags@ == old(self).tags@,
            r matches Ok(pos) ==> pos <= old(self).tags@.len()
                && tag_views(final(self).tags@) == tag_views(old(self).tags@).insert(pos as int, (name@, target, opt_view(message))),
    {
        if target >= self.commits.len() {
            return Err(StoreError::RefNotFound);
        }
        let key = String::from_str(name);
        let n = self.tags.len();
        let mut pos: usize = 0;
        while pos < n && precedes(self.tags[pos].name.as_str(), name)
            invariant
                pos <= n,
                n == self.tags@.len(),
                forall|j: int| 0 <= j < pos ==> name_less(#[trigger] self.tags@[j].name@, name@),
            decreases n - pos,
        {
            pos = pos + 1;
        }
        let ghost ts = self.tags@;
        // Every name before `pos` is smaller; every name from `pos` on is at least `name`.
        assert forall|j: int| pos <= j < n implies !name_less(#[trigger] ts[j].name@, name@) by {
            if j > pos && name_less(ts[j].name@, name@) {
                assert(name_less(ts[pos as int].name@, ts[j].name@));
                lemma_name_less_trans(ts[pos as int].name@, ts[j].name@, name@);
            }
        }
        if pos < n && self.tags[pos].name == key {
            return Err(StoreError::TagExists);
        }
        proof {
            assert forall|j: int| 0 <= j < n implies #[trigger] ts[j].name@ != name@ by {
                if j < pos {
                    lemma_name_less_irreflexive(name@);
                } else if j > pos {
                    assert(name_less(ts[pos as int].name@, ts[j].name@));
                    lemma_name_less_total(ts[pos as int].name@, name@);
                }
            }
        }
        let msg = match message {
            Some(m) => Some(String::from_str(m)),
            None => None,
        };
        let tag = Tag { name: key, target, message: msg };
        self.tags.insert(pos, tag);
        proof {
            let nt = self.tags@;
            assert forall|i: int, j: int| 0 <= i < j < nt.len() implies name_less(#[trigger] nt[i].name@, #[trigger] nt[j].name@) by {
                if j < pos {
                    assert(nt[i] == ts[i] && nt[j] == ts[j]);
                } else if j == pos {
                    assert(nt[i] == ts[i]);
                } else if i < pos {
                    assert(nt[i] == ts[i] && nt[j] == ts[j - 1]);
                    if j - 1 > pos {
                        assert(name_less(ts[pos as int].name@, ts[j - 1].name@));
                    }
                    lemma_name_less_total(ts[pos as int].name@, name@);
                    if j - 1 > pos {
                        lemma_name_less_trans(name@, ts[pos as int].name@, ts[j - 1].name@);
                    }
                    lemma_name_less_trans(ts[i].name@, name@, ts[j - 1].name@);
                } else if i == pos {
                    if j - 1 > pos {
                        assert(name_less(ts[pos as int].name@, ts[j - 1].name@));
                    }
                    lemma_name_less_total(ts[pos as int].name@, name@);
                    if j - 1 > pos {
                        lemma_name_less_trans(name@, ts[pos as int].name@, ts[j - 1].name@);
                    }
                } else {
                    assert(nt[i] == ts[i - 1] && nt[j] == ts[j - 1]);
                }
            }
            assert(tag_views(self.tags@) =~= tag_views(ts).insert(pos as int, (name@, target, opt_view(message))));
        }
        Ok(pos)
    }

    /// The commit that the head designates, if any.
    pub open spec fn head_commit(&self) -> Option<usize> {
        match self.head {
            Head::Main => self.main,
            Head::Detached(c) => Some(c),
        }
    }

    /// The parents that a new checkpoint gets: the head commit, if any.
    pub open spec fn head_parents(&self) -> Seq<usize> {
        match self.head_commit() {
            Some(c) => seq![c],
            None => Seq::empty(),
        }
    }

    /// `post` is `pre` with commit `id` appended, holding `tree`, `parents` and `message`.
    pub open spec fn appended(pre: Store, post: Store, id: int, tree: Snapshot, parents: Seq<usize>, message: Seq<char>) -> bool {
        &&& Store::extended(pre, post, id, tree, parents, message)
        &&& post.tags@ == pre.tags@
    }

    /// `post`'s history is `pre`'s with commit `id` appended, holding `tree`, `parents` and `message`.
    pub open spec fn extended(pre: Store, post: Store, id: int, tree: Snapshot, parents: Seq<usize>, message: Seq<char>) -> bool {
        &&& id == pre.commits@.len()
        &&& post.commits@.len() == id + 1
        &&& post.commits@.subrange(0, id) == pre.commits@
        &&& post.commits@[id].tree.same(tree)
        &&& post.commits@[id].parents@ == parents
        &&& post.commits@[id].message@ == message
    }

    /// `post` is `pre` after checkpointing its working directory as commit `id`.
    pub open spec fn checkpointed(pre: Store, post: Store, id: int, message: Seq<char>) -> bool {
        &&& Store::committed(pre, post, id, message)
        &&& post.tags@ == pre.tags@
    }

    /// `post`'s history, head and main branch are `pre`'s after checkpointing
    /// its working directory as commit `id`.
    pub open spec fn committed(pre: Store, post: Store, id: int, message: Seq<char>) -> bool {
        &&& Store::extended(pre, post, id, pre.workdir, pre.head_parents(), message)
        &&& post.workdir == pre.workdir
        &&& post.head == (match pre.head {
            Head::Main => Head::Main,
            Head::Detached(_) => Head::Detached(id as usize),
        })
        &&& post.main == (match pre.head {
            Head::Main => Some(id as usize),
            Head::Detached(_) => pre.main,
        })
    }

    /// An empty store: no commits, no tags, head on an unborn main branch.
    pub fn new(workdir: Snapshot) -> (r: Store)
        ensures
            r.wf(),
            r.commits@.len() == 0,
            r.tags@.len() == 0,
            r.main is None,
            r.head == Head::Main,
            r.workdir == workdir,
    {
        Store { commits: Vec::new(), tags: Vec::new(), main: None, head: Head::Main, workdir }
    }

    /// Replaces the tracked contents of the working directory.
    pub fn write_workdir(&mut self, contents: Snapshot)
        requires
            old(self).wf(),
        ensures
            final(self).wf(),
            final(self).workdir == contents,
            final(self).commits@ == old(self).commits@,
            final(self).tags@ == old(self).tags@,
            final(self).main == old(self).main,
            final(self).head == old(self).head,
    {
        self.workdir = contents;
    }

    /// The tracked contents recorded by commit `id`.
    pub fn read_tree(&self, id: usize) -> (r: Snapshot)
        requires
            id < self.commits@.len(),
        ensures
            r.same(self.commits@[id as int].tree),
    {
        self.commits[id].tree.copy()
    }

    /// Records a commit object as is, without moving any ref (what a fetch does).
    pub fn receive(&mut self, tree: Snapshot, parents: Vec<usize>, message: &str) -> (id: usize)
        requires
            old(self).wf(),
            old(self).commits@.len() < usize::MAX,
            parents@.len() <= 2,
            forall|j: int| 0 <= j < parents@.len() ==> #[trigger] parents@[j] < old(self).commits@.len(),
        ensures
            final(self).wf(),
            Store::appended(*old(self), *final(self), id as int, tree, parents@, message@),
            final(self).workdir == old(self).workdir,
            final(self).main == old(self).main,
            final(self).head == old(self).head,
    {
        let id = self.commits.len();
        let ghost pre = self.commits@;
        self.commits.push(Commit { tree, parents, message: String::from_str(message) });
        proof {
            assert(self.commits@.subrange(0, id as int) =~= pre);
            assert forall|i: int| 0 <= i < self.commits@.len() implies parent_ok(self.commits@, i) by {
                if i < id {
                    assert(parent_ok(pre, i));
                    assert(self.commits@[i] == pre[i]);
                }
            }
        }
        id
    }

    /// Commits the working directory's tracked contents with the head commit as
    /// sole parent, and advances the head (and the main branch, when attached).
    pub fn checkpoint(&mut self, message: &str) -> (id: usize)
        requires
            old(self).wf(),
            old(self).commits@.len() < usize::MAX,
        ensures
            final(self).wf(),
            Store::checkpointed(*old(self), *final(self), id as int, message@),
    {
        let mut parents: Vec<usize> = Vec::new();
        let parent = match self.head {
            Head::Main => self.main,
            Head::Detached(c) => Some(c),
        };
        if let Some(c) = parent {
            parents.push(c);
        }
        proof {
            assert(parents@ =~= self.head_parents());
        }
        let tree = self.workdir.copy();
        let id = self.receive(tree, parents, message);
        match self.head {
            Head::Main => {
                self.main = Some(id);
            },
            Head::Detached(_) => {
                self.head = Head::Detached(id);
            },
        }
        id
    }

    /// Forces the working directory to commit `id`'s tree and detaches the head there.
    pub fn checkout(&mut self, id: usize)
        requires
            old(self).wf(),
            id < old(self).commits@.len(),
        ensures
            final(self).wf(),
            final(self).workdir.same(old(self).commits@[id as int].tree),
            final(self).head == Head::Detached(id),
            final(self).main == old(self).main,
            final(self).commits@ == old(self).commits@,
            final(self).tags@ == old(self).tags@,
    {
        self.workdir = self.commits[id].tree.copy();
        self.head = Head::Detached(id);
    }

    /// `post` and `r` are what pulling `fetched` into `pre` gives.
    pub open spec fn pulled(pre: Store, post: Store, fetched: usize, r: Result<PullOutcome, StoreError>) -> bool {
        &&& (post.tags@ == pre.tags@)
        &&& (({
                let cs = pre.commits@;
                match pre.main {
                    None => r == Ok::<PullOutcome, StoreError>(PullOutcome::FastForward),
                    Some(l) => match analysis_of(cs, l as int, fetched as int) {
                        MergeAnalysis::UpToDate => r == Ok::<PullOutcome, StoreError>(PullOutcome::UpToDate),
                        MergeAnalysis::LocalAhead => r == Ok::<PullOutcome, StoreError>(PullOutcome::LocalAhead),
                        MergeAnalysis::FastForward => r == Ok::<PullOutcome, StoreError>(PullOutcome::FastForward),
                        MergeAnalysis::ThreeWay => {
                            let base_exists = exists|m: int| is_common_ancestor(cs, m, l as int, fetched as int);
                            &&& !base_exists ==> (r matches Err(StoreError::NoCommonAncestor))
                            &&& base_exists ==> (r is Ok ==> r == Ok::<PullOutcome, StoreError>(PullOutcome::Merged(cs.len() as usize)))
                            &&& base_exists ==> ((r matches Err(StoreError::ConflictDetected(_))) || r is Ok)
                        },
                    },
                }
            }))
        &&& (r matches Ok(PullOutcome::FastForward) ==> post.main == Some(fetched)
                && post.head == Head::Main
                && post.commits@ == pre.commits@
                && post.workdir.same(pre.commits@[fetched as int].tree))
        &&& ((r matches Ok(PullOutcome::UpToDate) || r matches Ok(PullOutcome::LocalAhead) || r is Err) ==>
                post.main == pre.main
                && post.head == pre.head
                && post.commits@ == pre.commits@)
        &&& ((r matches Ok(PullOutcome::UpToDate) || r matches Ok(PullOutcome::LocalAhead)
                || r matches Err(StoreError::NoCommonAncestor)) ==> post.workdir == pre.workdir)
        &&& (r matches Ok(PullOutcome::Merged(id)) ==> ({
                let l = pre.main.unwrap();
                let cs = pre.commits@;
                exists|m: int| #[trigger] is_common_ancestor(cs, m, l as int, fetched as int)
                    && (forall|k: int| #[trigger] is_common_ancestor(cs, k, l as int, fetched as int) ==> k <= m)
                    && conflicts_of(cs[m].tree, cs[l as int].tree, cs[fetched as int].tree).len() == 0
                    && Store::merged(pre, post, id as int, cs[m].tree, l, fetched)
            }))
        &&& (r matches Err(StoreError::ConflictDetected(ps)) ==> ({
                let l = pre.main.unwrap();
                let cs = pre.commits@;
                exists|m: int| #[trigger] is_common_ancestor(cs, m, l as int, fetched as int)
                    && (forall|k: int| #[trigger] is_common_ancestor(cs, k, l as int, fetched as int) ==> k <= m)
                    && ps@ == conflicts_of(cs[m].tree, cs[l as int].tree, cs[fetched as int].tree)
                    && ps@.len() > 0
                    && post.workdir.spec@ == conflict_workdir_content(cs[m].tree, cs[l as int].tree, cs[fetched as int].tree, TrackedPath::Specfile)
                    && post.workdir.lock@ == conflict_workdir_content(cs[m].tree, cs[l as int].tree, cs[fetched as int].tree, TrackedPath::Lockfile)
            }))
    }

    /// Brings the main branch up to date with `fetched`, a commit already in the
    /// store: no-op, fast-forward, or three-way merge.
    ///
    /// A fast-forward overwrites the working directory, discarding contents that
    /// were not checkpointed. A conflicting merge leaves conflict text in the
    /// working directory and creates no commit; resolving it and checkpointing is
    /// up to the user.
    pub fn pull(&mut self, fetched: usize) -> (r: Result<PullOutcome, StoreError>)
        requires
            old(self).wf(),
            fetched < old(self).commits@.len(),
            old(self).commits@.len() < usize::MAX,
        ensures
            final(self).wf(),
            Store::pulled(*old(self), *final(self), fetched, r),
    {
        let local = match self.main {
            None => {
                self.fast_forward(fetched);
                return Ok(PullOutcome::FastForward);
            },
            Some(l) => l,
        };
        match self.analyze(local, fetched) {
            MergeAnalysis::UpToDate => Ok(PullOutcome::UpToDate),
            MergeAnalysis::LocalAhead => Ok(PullOutcome::LocalAhead),
            MergeAnalysis::FastForward => {
                self.fast_forward(fetched);
                Ok(PullOutcome::FastForward)
            },
            MergeAnalysis::ThreeWay => {
                let base = match self.merge_base(local, fetched) {
                    None => return Err(StoreError::NoCommonAncestor),
                    Some(b) => b,
                };
                let ghost cs = self.commits@;
                let ghost pre = *self;
                let merged = merge_snapshots(&self.commits[base].tree, &self.commits[local].tree, &self.commits[fetched].tree);
                match merged {
                    Ok(tree) => {
                        let mut parents: Vec<usize> = Vec::new();
                        parents.push(local);
                        parents.push(fetched);
                        assert(parents@ =~= seq![local, fetched]);
                        let workdir = tree.copy();
                        let id = self.receive(tree, parents, "Merge");
                        self.main = Some(id);
                        self.head = Head::Main;
                        self.workdir = workdir;
                        assert(is_common_ancestor(cs, base as int, local as int, fetched as int));
                        assert(Store::appended(pre, *self, id as int, self.commits@[id as int].tree, seq![local, fetched], "Merge"@));
                        assert(Store::merged(pre, *self, id as int, cs[base as int].tree, local, fetched));
                        Ok(PullOutcome::Merged(id))
                    },
                    Err(paths) => {
                        self.workdir = conflict_snapshot(&self.commits[base].tree, &self.commits[local].tree, &self.commits[fetched].tree);
                        assert(is_common_ancestor(cs, base as int, local as int, fetched as int));
                        Err(StoreError::ConflictDetected(paths))
                    },
                }
            },
        }
    }

    /// `post` is `pre` with merge commit `id` of `local` and `fetched` on the main branch.
    pub open spec fn merged(pre: Store, post: Store, id: int, base: Snapshot, local: usize, fetched: usize) -> bool {
        let cs = pre.commits@;
        let ours = cs[local as int].tree;
        let theirs = cs[fetched as int].tree;
        &&& Store::appended(pre, post, id, post.commits@[id].tree, seq![local, fetched], "Merge"@)
        &&& post.commits@[id].tree.spec@ == merged_content(base, ours, theirs, TrackedPath::Specfile)
        &&& post.commits@[id].tree.lock@ == merged_content(base, ours, theirs, TrackedPath::Lockfile)
        &&& post.workdir.same(post.commits@[id].tree)
        &&& post.main == Some(id as usize)
        &&& post.head == Head::Main
    }

    /// Moves the main branch to `fetched`, attaches the head and forces the working directory.
    fn fast_forward(&mut self, fetched: usize)
        requires
            old(self).wf(),
            fetched < old(self).commits@.len(),
        ensures
            final(self).wf(),
            final(self).main == Some(fetched),
            final(self).head == Head::Main,
            final(self).commits@ == old(self).commits@,
            final(self).tags@ == old(self).tags@,
            final(self).workdir.same(old(self).commits@[fetched as int].tree),
    {
        self.main = Some(fetched);
        self.head = Head::Main;
        self.workdir = self.commits[fetched].tree.copy();
    }

    /// Classifies a fetched commit against the local head.
    pub fn analyze(&self, local: usize, fetched: usize) -> (r: MergeAnalysis)
        requires
            self.wf(),
            local < self.commits@.len(),
            fetched < self.commits@.len(),
        ensures
            r == analysis_of(self.commits@, local as int, fetched as int),
    {
        let above_fetched = self.ancestry(fetched);
        let above_local = self.ancestry(local);
        crate::cli::pull::classify(local == fetched, above_fetched[local], above_local[fetched])
    }

    /// The best common ancestor of `a` and `b`: the latest commit that is an
    /// ancestor of both, if any.
    pub fn merge_base(&self, a: usize, b: usize) -> (r: Option<usize>)
        requires
            self.wf(),
            a < self.commits@.len(),
            b < self.commits@.len(),
        ensures
            r is None <==> forall|m: int| !is_common_ancestor(self.commits@, m, a as int, b as int),
            r matches Some(m) ==> is_common_ancestor(self.commits@, m as int, a as int, b as int)
                && forall|k: int| #[trigger] is_common_ancestor(self.commits@, k, a as int, b as int) ==> k <= m,
    {
        let ma = self.ancestry(a);
        let mb = self.ancestry(b);
        let n = self.commits.len();
        let mut i: usize = n;
        while i > 0
            invariant
                i <= n,
                n == self.commits@.len(),
                ma@.len() == n,
                mb@.len() == n,
                forall|j: int| 0 <= j < n ==> ma@[j] == is_ancestor(self.commits@, j, a as int),
                forall|j: int| 0 <= j < n ==> mb@[j] == is_ancestor(self.commits@, j, b as int),
                forall|k: int| i <= k ==> !is_common_ancestor(self.commits@, k, a as int, b as int),
            decreases i,
        {
            i = i - 1;
            if ma[i] && mb[i] {
                assert(is_common_ancestor(self.commits@, i as int, a as int, b as int));
                return Some(i);
            }
        }
        None
    }

    /// Marks every ancestor of `d` (including `d` itself).
    pub fn ancestry(&self, d: usize) -> (marks: Vec<bool>)
        requires
            self.wf(),
            d < self.commits@.len(),
        ensures
            marks@.len() == self.commits@.len(),
            forall|j: int| 0 <= j < marks@.len() ==> marks@[j] == is_ancestor(self.commits@, j, d as int),
    {
        let ghost cs = self.commits@;
        let n = self.commits.len();
        let mut marks: Vec<bool> = Vec::new();
        let mut k: usize = 0;
        while k < n
            invariant
                k <= n,
                n == cs.len(),
                d < n,
                marks@.len() == k,
                forall|j: int| 0 <= j < k ==> marks@[j] == (j == d),
            decreases n - k,
        {
            marks.push(k == d);
            k = k + 1;
        }
        // Visit commits from `d` down; a commit's children all come after it.
        let mut i: usize = d + 1;
        while i > 0
            invariant
                cs == self.commits@,
                self.wf(),
                i <= d + 1,
                d < n,
                n == cs.len(),
                marks@.len() == n,
                forall|j: int| i <= j <= d ==> marks@[j] == is_ancestor(cs, j, d as int),
                forall|j: int| d < j < n ==> !marks@[j],
                forall|j: int| 0 <= j < i ==> marks@[j] == (j == d || exists|c: int|
                    i <= c <= d && #[trigger] is_ancestor(cs, c, d as int) && is_parent(cs, j, c)),
            decreases i,
        {
            i = i - 1;
            proof {
                if i < d {
                    lemma_ancestor_via_parent(cs, i as int, d as int);
                }
            }
            assert(marks@[i as int] == is_ancestor(cs, i as int, d as int));
            if marks[i] {
                let ghost before = marks@;
                assert(parent_ok(cs, i as int));
                let np = self.commits[i].parents.len();
                if np >= 1 {
                    let p = self.commits[i].parents[0];
                    marks.set(p, true);
                }
                if np >= 2 {
                    let p = self.commits[i].parents[1];
                    marks.set(p, true);
                }
                assert forall|j: int| 0 <= j < i implies marks@[j] == (j == d || exists|c: int|
                    i <= c <= d && #[trigger] is_ancestor(cs, c, d as int) && is_parent(cs, j, c)) by {
                    if is_parent(cs, j, i as int) {
                        assert(is_ancestor(cs, i as int, d as int) && is_parent(cs, j, i as int));
                    } else {
                        assert(marks@[j] == before[j]);
                        if exists|c: int| i <= c <= d && #[trigger] is_ancestor(cs, c, d as int) && is_parent(cs, j, c) {
                            let c = choose|c: int| i <= c <= d && #[trigger] is_ancestor(cs, c, d as int) && is_parent(cs, j, c);
                            assert(c != i);
                        }
                    }
                }
            } else {
                assert forall|j: int| 0 <= j < i implies marks@[j] == (j == d || exists|c: int|
                    i <= c <= d && #[trigger] is_ancestor(cs, c, d as int) && is_parent(cs, j, c)) by {
                    if exists|c: int| i <= c <= d && #[trigger] is_ancestor(cs, c, d as int) && is_parent(cs, j, c) {
                        let c = choose|c: int| i <= c <= d && #[trigger] is_ancestor(cs, c, d as int) && is_parent(cs, j, c);
                        assert(c != i);
                    }
                }
            }
        }
        assert forall|j: int| 0 <= j < marks@.len() implies marks@[j] == is_ancestor(cs, j, d as int) by {
            if j > d && is_ancestor(cs, j, d as int) {
                lemma_ancestor_le(cs, j, d as int);
            }
        }
        marks
    }
}

} // verus!
