//! Delivery of an encoded certificate: the steps on the file system, in
//! their order, and a model of the file system in which no step of them,
//! done or failed, shows a half-written file at the target.
//!
//! The steps are carried out elsewhere. The file is written in full beside
//! its target, given its mode and owners there, and only then renamed over
//! the target, which the file system does in one go.

use vstd::prelude::*;
use crate::config::FileSave;
use crate::config::UserAndGroup;

verus! {

/// One step on the file system.
#[derive(Clone, Debug, PartialEq, Eq)]
pub enum FsStep {
    /// Create the file at `path` and write all of `content` to it.
    WriteNew { path: String, content: Vec<u8> },
    /// Set the permission bits of the file at `path`.
    SetMode { path: String, mode: u32 },
    /// Set the owning user, the owning group, or both, of the file at `path`.
    SetOwner { path: String, uid: Option<UserAndGroup>, gid: Option<UserAndGroup> },
    /// Rename the file at `from` to `to`, replacing what is there.
    Rename { from: String, to: String },
    /// Remove the file at `path`, if there is one.
    Remove { path: String },
}

/// A step with its paths and bytes as sequences.
pub enum StepView {
    WriteNew { path: Seq<char>, content: Seq<u8> },
    SetMode { path: Seq<char>, mode: u32 },
    SetOwner { path: Seq<char>, uid: Option<UserAndGroup>, gid: Option<UserAndGroup> },
    Rename { from: Seq<char>, to: Seq<char> },
    Remove { path: Seq<char> },
}

impl View for FsStep {
    type V = StepView;

    open spec fn view(&self) -> StepView {
        match *self {
            FsStep::WriteNew { path, content } => StepView::WriteNew {
                path: path@,
                content: content@,
            },
            FsStep::SetMode { path, mode } => StepView::SetMode { path: path@, mode: mode },
            FsStep::SetOwner { path, uid, gid } => StepView::SetOwner {
                path: path@,
                uid: uid,
                gid: gid,
            },
            FsStep::Rename { from, to } => StepView::Rename { from: from@, to: to@ },
            FsStep::Remove { path } => StepView::Remove { path: path@ },
        }
    }
}

/// The views of steps.
pub open spec fn step_views(steps: Seq<FsStep>) -> Seq<StepView> {
    Seq::new(steps.len(), |i: int| steps[i]@)
}

/// The path at which a file for `target` is staged: the target's path with
/// `.new` behind it.
pub open spec fn staging_of(target: Seq<char>) -> Seq<char> {
    target + ".new"@
}

/// The length of the directory part of a path: up to and including its last
/// slash, and nothing where it has none.
pub open spec fn directory_len(path: Seq<char>) -> int
    decreases path.len(),
{
    if path.len() == 0 {
        0
    } else if path.last() == '/' {
        path.len() as int
    } else {
        directory_len(path.drop_last())
    }
}

/// The directory part of a path.
pub open spec fn directory_of(path: Seq<char>) -> Seq<char> {
    path.take(directory_len(path))
}

/// The steps that deliver `content` to `target`: write beside the target,
/// set the mode if one is asked for, set the owners if any is asked for,
/// rename over the target.
pub open spec fn plan_of(
    content: Seq<u8>,
    target: Seq<char>,
    mode: Option<u32>,
    uid: Option<UserAndGroup>,
    gid: Option<UserAndGroup>,
) -> Seq<StepView> {
    let staged = staging_of(target);
    let write = seq![StepView::WriteNew { path: staged, content: content }];
    let chmod = match mode {
        Some(m) => seq![StepView::SetMode { path: staged, mode: m }],
        None => Seq::empty(),
    };
    let chown = if uid is Some || gid is Some {
        seq![StepView::SetOwner { path: staged, uid: uid, gid: gid }]
    } else {
        Seq::empty()
    };
    write + chmod + chown + seq![StepView::Rename { from: staged, to: target }]
}

impl UserAndGroup {
    /// A copy of this user or group.
    pub fn duplicate(&self) -> (r: UserAndGroup)
        ensures
            r == *self,
    {
        match self {
            UserAndGroup::ID(n) => UserAndGroup::ID(*n),
            UserAndGroup::Name(s) => UserAndGroup::Name(s.clone()),
        }
    }
}

fn copy_owner(owner: &Option<UserAndGroup>) -> (r: Option<UserAndGroup>)
    ensures
        r == *owner,
{
    match owner {
        Some(o) => Some(o.duplicate()),
        None => None,
    }
}

/// The path at which a file for `target` is staged.
pub fn staging_path(target: &str) -> (staged: String)
    ensures
        staged@ == staging_of(target@),
{
    let mut staged = target.to_owned();
    staged.append(".new");
    staged
}

/// The steps that deliver `content` to the file that `file` describes, with
/// the permission bits `mode` where there are any.
pub fn delivery_steps(content: Vec<u8>, file: &FileSave, mode: Option<u32>) -> (steps: Vec<FsStep>)
    ensures
        step_views(steps@) == plan_of(content@, file.path@, mode, file.uid, file.gid),
{
    let ghost staged = staging_of(file.path@);
    let mut steps: Vec<FsStep> = Vec::new();
    steps.push(FsStep::WriteNew { path: staging_path(file.path.as_str()), content: content });
    match mode {
        Some(m) => {
            steps.push(FsStep::SetMode { path: staging_path(file.path.as_str()), mode: m });
        },
        None => {},
    }
    if file.uid.is_some() || file.gid.is_some() {
        steps.push(
            FsStep::SetOwner {
                path: staging_path(file.path.as_str()),
                uid: copy_owner(&file.uid),
                gid: copy_owner(&file.gid),
            },
        );
    }
    steps.push(FsStep::Rename { from: staging_path(file.path.as_str()), to: file.path.clone() });
    proof {
        assert(step_views(steps@) =~= plan_of(content@, file.path@, mode, file.uid, file.gid));
    }
    steps
}

/// The step that tidies up after a delivery that failed before its rename:
/// the staged file goes, the target is not touched.
pub fn abort_steps(file: &FileSave) -> (steps: Vec<FsStep>)
    ensures
        step_views(steps@) == seq![StepView::Remove { path: staging_of(file.path@) }],
{
    let mut steps: Vec<FsStep> = Vec::new();
    steps.push(FsStep::Remove { path: staging_path(file.path.as_str()) });
    proof {
        assert(step_views(steps@) =~= seq![StepView::Remove { path: staging_of(file.path@) }]);
    }
    steps
}

/// A file as the model sees it.
pub struct FileModel {
    pub content: Seq<u8>,
    pub mode: Option<u32>,
    pub uid: Option<UserAndGroup>,
    pub gid: Option<UserAndGroup>,
}

/// A file system as the model sees it: the files by their paths.
pub struct FsModel {
    pub files: Map<Seq<char>, FileModel>,
}

impl FsModel {
    /// The file at `path`, if there is one.
    pub open spec fn at(self, path: Seq<char>) -> Option<FileModel> {
        if self.files.dom().contains(path) {
            Some(self.files[path])
        } else {
            None
        }
    }

    /// Whether `other` differs from this file system at most at `path`.
    pub open spec fn same_but_at(self, other: FsModel, path: Seq<char>) -> bool {
        forall|q: Seq<char>| q != path ==> #[trigger] self.at(q) == other.at(q)
    }
}

/// Whether `after` can be the file system that a step leaves behind when it
/// starts on `before` and succeeds, or fails, as `ok` says.
///
/// A step that fails may leave the file it works on in any state, present
/// or not, whole or cut short; it leaves every other file alone. A rename
/// that fails changes nothing, and one that succeeds moves the whole file.
pub open spec fn effect(step: StepView, ok: bool, before: FsModel, after: FsModel) -> bool {
    match step {
        StepView::WriteNew { path, content } => {
            &&& before.same_but_at(after, path)
            &&& ok ==> (after.at(path) matches Some(f) && f.content == content)
        },
        StepView::SetMode { path, mode } => {
            &&& before.same_but_at(after, path)
            &&& ok ==> (before.at(path) matches Some(f) && after.at(path) == Some(
                FileModel { mode: Some(mode), ..f },
            ))
        },
        StepView::SetOwner { path, uid, gid } => {
            &&& before.same_but_at(after, path)
            &&& ok ==> (before.at(path) matches Some(f) && after.at(path) == Some(
                FileModel {
                    uid: if uid is Some {
                        uid
                    } else {
                        f.uid
                    },
                    gid: if gid is Some {
                        gid
                    } else {
                        f.gid
                    },
                    ..f
                },
            ))
        },
        StepView::Rename { from, to } => if ok {
            &&& before.at(from) is Some
            &&& after.at(to) == before.at(from)
            &&& from != to ==> after.at(from) is None
            &&& forall|q: Seq<char>| q != from && q != to ==> #[trigger] after.at(q) == before.at(q)
        } else {
            forall|q: Seq<char>| #[trigger] after.at(q) == before.at(q)
        },
        StepView::Remove { path } => before.same_but_at(after, path),
    }
}

/// Whether `states` can be the file systems seen while `steps` are carried
/// out in order, from the first on: each step but the last that was tried
/// succeeded, and the last succeeded unless `failed`.
pub open spec fn carried_out(steps: Seq<StepView>, states: Seq<FsModel>, failed: bool) -> bool {
    &&& 1 <= states.len() <= steps.len() + 1
    &&& forall|i: int|
        0 <= i < states.len() - 1 ==> effect(
            #[trigger] steps[i],
            !(failed && i == states.len() - 2),
            states[i],
            states[i + 1],
        )
}

/// Whether a file is the one asked for: the whole content, and the mode
/// and the owners that were asked for.
pub open spec fn delivered(
    f: FileModel,
    content: Seq<u8>,
    mode: Option<u32>,
    uid: Option<UserAndGroup>,
    gid: Option<UserAndGroup>,
) -> bool {
    &&& f.content == content
    &&& mode is Some ==> f.mode == mode
    &&& uid is Some ==> f.uid == uid
    &&& gid is Some ==> f.gid == gid
}

/// A path and its staging path lie in the same directory, and are two paths.
pub proof fn law_staged_beside_target(target: Seq<char>)
    ensures
        directory_of(staging_of(target)) == directory_of(target),
        staging_of(target) != target,
        staging_of(target).len() == target.len() + 4,
{
    reveal_strlit(".new");
    let suffix = ".new"@;
    assert(suffix.len() == 4);
    assert(suffix[0] == '.' && suffix[1] == 'n' && suffix[2] == 'e' && suffix[3] == 'w');
    lemma_directory_of_longer(target, suffix);
    assert((target + suffix).take(directory_len(target)) =~= target.take(directory_len(target)))
        by {
        lemma_directory_len_bound(target);
    }
}

/// The directory part is a prefix of the path.
pub proof fn lemma_directory_len_bound(path: Seq<char>)
    ensures
        0 <= directory_len(path) <= path.len(),
    decreases path.len(),
{
    if path.len() > 0 && path.last() != '/' {
        lemma_directory_len_bound(path.drop_last());
    }
}

/// What follows a path without a slash in it leaves the directory as it is.
pub proof fn lemma_directory_of_longer(path: Seq<char>, more: Seq<char>)
    requires
        forall|i: int| 0 <= i < more.len() ==> #[trigger] more[i] != '/',
    ensures
        directory_len(path + more) == directory_len(path),
    decreases more.len(),
{
    if more.len() == 0 {
        assert(path + more =~= path);
    } else {
        let all = path + more;
        assert(all.last() == more.last());
        assert(all.drop_last() =~= path + more.drop_last());
        lemma_directory_of_longer(path, more.drop_last());
    }
}

/// No partial file is ever seen at the target. While a delivery is carried
/// out, however far it gets and whether or not its last step fails, the
/// target holds what it held before, or the file asked for in full. It
/// holds the file asked for once every step has succeeded.
pub proof fn law_no_partial_file(
    content: Seq<u8>,
    target: Seq<char>,
    mode: Option<u32>,
    uid: Option<UserAndGroup>,
    gid: Option<UserAndGroup>,
    states: Seq<FsModel>,
    failed: bool,
    i: int,
)
    requires
        carried_out(plan_of(content, target, mode, uid, gid), states, failed),
        0 <= i < states.len(),
    ensures
        states[i].at(target) == states[0].at(target) || (states[i].at(target) matches Some(f)
            && delivered(f, content, mode, uid, gid)),
        i == plan_of(content, target, mode, uid, gid).len() && !failed ==> (states[i].at(target)
            matches Some(f) && delivered(f, content, mode, uid, gid)),
        i < plan_of(content, target, mode, uid, gid).len() ==> states[i].at(target)
            == states[0].at(target),
{
    let plan = plan_of(content, target, mode, uid, gid);
    let staged = staging_of(target);
    law_staged_beside_target(target);
    assert(plan.len() <= 4);
    let last = plan.len() - 1;
    assert(plan[last] == StepView::Rename { from: staged, to: target });
    assert(plan[0] == StepView::WriteNew { path: staged, content: content });
    // Before the rename, every step works on the staged file only.
    assert forall|j: int| 0 <= j < states.len() && j <= last implies #[trigger] states[j].at(target)
        == states[0].at(target) by {
        lemma_target_untouched(plan, staged, target, states, failed, j);
    }
    if i == plan.len() {
        lemma_staged_is_complete(content, target, mode, uid, gid, states, failed);
        if failed {
            assert(effect(plan[last], false, states[last], states[last + 1]));
            assert(states[i].at(target) == states[last].at(target));
        } else {
            assert(effect(plan[last], true, states[last], states[last + 1]));
        }
    }
}

proof fn lemma_target_untouched(
    plan: Seq<StepView>,
    staged: Seq<char>,
    target: Seq<char>,
    states: Seq<FsModel>,
    failed: bool,
    j: int,
)
    requires
        carried_out(plan, states, failed),
        staged != target,
        0 <= j < states.len(),
        j <= plan.len() - 1,
        forall|k: int|
            0 <= k < plan.len() - 1 ==> match #[trigger] plan[k] {
                StepView::WriteNew { path, .. } => path == staged,
                StepView::SetMode { path, .. } => path == staged,
                StepView::SetOwner { path, .. } => path == staged,
                _ => false,
            },
    ensures
        states[j].at(target) == states[0].at(target),
    decreases j,
{
    if j > 0 {
        lemma_target_untouched(plan, staged, target, states, failed, j - 1);
        assert(effect(plan[j - 1], !(failed && j - 1 == states.len() - 2), states[j - 1], states[j]));
        assert(states[j - 1].same_but_at(states[j], staged));
    }
}

proof fn lemma_staged_is_complete(
    content: Seq<u8>,
    target: Seq<char>,
    mode: Option<u32>,
    uid: Option<UserAndGroup>,
    gid: Option<UserAndGroup>,
    states: Seq<FsModel>,
    failed: bool,
)
    requires
        carried_out(plan_of(content, target, mode, uid, gid), states, failed),
        states.len() == plan_of(content, target, mode, uid, gid).len() + 1,
    ensures
        states[states.len() - 2].at(staging_of(target)) matches Some(f) && delivered(
            f,
            content,
            mode,
            uid,
            gid,
        ),
{
    let plan = plan_of(content, target, mode, uid, gid);
    let staged = staging_of(target);
    assert(plan[0] == StepView::WriteNew { path: staged, content: content });
    assert(effect(plan[0], true, states[0], states[1]));
    if mode is Some {
        assert(plan[1] == StepView::SetMode { path: staged, mode: mode->0 });
        assert(effect(plan[1], true, states[1], states[2]));
        if uid is Some || gid is Some {
            assert(plan[2] == StepView::SetOwner { path: staged, uid: uid, gid: gid });
            assert(effect(plan[2], true, states[2], states[3]));
        }
    } else {
        if uid is Some || gid is Some {
            assert(plan[1] == StepView::SetOwner { path: staged, uid: uid, gid: gid });
            assert(effect(plan[1], true, states[1], states[2]));
        }
    }
}

/// Tidying up after a failed delivery leaves the target as it is.
pub proof fn law_abort_keeps_target(target: Seq<char>, ok: bool, before: FsModel, after: FsModel)
    requires
        effect(StepView::Remove { path: staging_of(target) }, ok, before, after),
    ensures
        after.at(target) == before.at(target),
{
    law_staged_beside_target(target);
}

} // verus!
