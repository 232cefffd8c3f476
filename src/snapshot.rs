use vstd::prelude::*;

verus! {

/// The two descriptor files that make up a lockspec.
#[derive(Clone, Copy, Debug, PartialEq, Eq, Structural)]
pub enum TrackedPath {
    Specfile,
    Lockfile,
}

/// The contents of the two tracked descriptor files.
#[derive(Clone, Debug)]
pub struct Snapshot {
    pub spec: String,
    pub lock: String,
}

impl Snapshot {
    pub open spec fn content(self, p: TrackedPath) -> Seq<char> {
        match p {
            TrackedPath::Specfile => self.spec@,
            TrackedPath::Lockfile => self.lock@,
        }
    }

    pub open spec fn same(self, o: Snapshot) -> bool {
        self.spec@ == o.spec@ && self.lock@ == o.lock@
    }

    pub fn new(spec: &str, lock: &str) -> (r: Snapshot)
        ensures
            r.spec@ == spec@,
            r.lock@ == lock@,
    {
        Snapshot { spec: String::from_str(spec), lock: String::from_str(lock) }
    }

    pub fn copy(&self) -> (r: Snapshot)
        ensures
            r.same(*self),
    {
        Snapshot { spec: self.spec.clone(), lock: self.lock.clone() }
    }
}

/// Whether `p` differs between `base` and `side`.
pub open spec fn changed(base: Snapshot, side: Snapshot, p: TrackedPath) -> bool {
    side.content(p) != base.content(p)
}

pub open spec fn both_changed(base: Snapshot, ours: Snapshot, theirs: Snapshot, p: TrackedPath) -> bool {
    changed(base, ours, p) && changed(base, theirs, p)
}

/// The paths changed on both sides, spec file first.
pub open spec fn conflicts_of(base: Snapshot, ours: Snapshot, theirs: Snapshot) -> Seq<TrackedPath> {
    (if both_changed(base, ours, theirs, TrackedPath::Specfile) {
        seq![TrackedPath::Specfile]
    } else {
        Seq::empty()
    }) + (if both_changed(base, ours, theirs, TrackedPath::Lockfile) {
        seq![TrackedPath::Lockfile]
    } else {
        Seq::empty()
    })
}

/// The content of `p` after merging: our side if we changed it, else theirs.
pub open spec fn merged_content(base: Snapshot, ours: Snapshot, theirs: Snapshot, p: TrackedPath) -> Seq<char> {
    if changed(base, ours, p) {
        ours.content(p)
    } else {
        theirs.content(p)
    }
}

/// The text left in a file whose path changed on both sides.
pub open spec fn conflict_text(ours: Seq<char>, theirs: Seq<char>) -> Seq<char> {
    "<<<<<<< ours\n"@ + ours + "=======\n"@ + theirs + ">>>>>>> theirs\n"@
}

fn conflict_file(ours: &String, theirs: &String) -> (r: String)
    ensures
        r@ == conflict_text(ours@, theirs@),
{
    let mut s = String::from_str("<<<<<<< ours\n");
    s.append(ours.as_str());
    s.append("=======\n");
    s.append(theirs.as_str());
    s.append(">>>>>>> theirs\n");
    s
}

/// Merges one file: `None` when both sides changed it.
fn merge_file(base: &String, ours: &String, theirs: &String) -> (r: Option<String>)
    ensures
        r is None <==> (ours@ != base@ && theirs@ != base@),
        r matches Some(m) ==> m@ == (if ours@ != base@ { ours@ } else { theirs@ }),
{
    if *ours != *base {
        if *theirs != *base {
            None
        } else {
            Some(ours.clone())
        }
    } else {
        Some(theirs.clone())
    }
}

/// Three-way merge of whole files: each side's changes are taken, and a path
/// changed on both sides is a conflict.
pub fn merge_snapshots(base: &Snapshot, ours: &Snapshot, theirs: &Snapshot) -> (r: Result<Snapshot, Vec<TrackedPath>>)
    ensures
        r is Ok <==> conflicts_of(*base, *ours, *theirs).len() == 0,
        r matches Ok(m) ==> m.spec@ == merged_content(*base, *ours, *theirs, TrackedPath::Specfile)
            && m.lock@ == merged_content(*base, *ours, *theirs, TrackedPath::Lockfile),
        r matches Err(ps) ==> ps@ == conflicts_of(*base, *ours, *theirs),
{
    let spec = merge_file(&base.spec, &ours.spec, &theirs.spec);
    let lock = merge_file(&base.lock, &ours.lock, &theirs.lock);
    match (spec, lock) {
        (Some(s), Some(l)) => Ok(Snapshot { spec: s, lock: l }),
        (s, l) => {
            let mut ps: Vec<TrackedPath> = Vec::new();
            if s.is_none() {
                ps.push(TrackedPath::Specfile);
            }
            if l.is_none() {
                ps.push(TrackedPath::Lockfile);
            }
            assert(ps@ =~= conflicts_of(*base, *ours, *theirs));
            Err(ps)
        },
    }
}

/// The working directory left by a conflicting merge: merged contents where
/// one side changed a path, conflict text where both did.
pub open spec fn conflict_workdir_content(base: Snapshot, ours: Snapshot, theirs: Snapshot, p: TrackedPath) -> Seq<char> {
    if both_changed(base, ours, theirs, p) {
        conflict_text(ours.content(p), theirs.content(p))
    } else {
        merged_content(base, ours, theirs, p)
    }
}

pub fn conflict_snapshot(base: &Snapshot, ours: &Snapshot, theirs: &Snapshot) -> (r: Snapshot)
    ensures
        r.spec@ == conflict_workdir_content(*base, *ours, *theirs, TrackedPath::Specfile),
        r.lock@ == conflict_workdir_content(*base, *ours, *theirs, TrackedPath::Lockfile),
{
    let spec = match merge_file(&base.spec, &ours.spec, &theirs.spec) {
        Some(m) => m,
        None => conflict_file(&ours.spec, &theirs.spec),
    };
    let lock = match merge_file(&base.lock, &ours.lock, &theirs.lock) {
        Some(m) => m,
        None => conflict_file(&ours.lock, &theirs.lock),
    };
    Snapshot { spec, lock }
}

} // verus!
