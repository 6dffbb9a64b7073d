//! Executing a planned action list against a content snapshot.
//!
//! Each action's prospective content is resolved (read, transformed, or
//! literal), compared with the target's current content, and performed
//! only when its disposition allows it: creations always, overwrites only
//! under the explicit flag, identical content never. Refused overwrites
//! are returned, not applied.

use vstd::prelude::*;
use vstd::string::StringExecFns;
use crate::action::{Action, ActionPlan, ActionV, target_of, targets_distinct};
use crate::error::{Error, ErrorV};
use crate::paths::path_clone;
use crate::report::{log_action_plan, log_line_spec, LogLine, LogLineV};
use crate::rewrite::{remove_imports, remove_imports_spec};
use crate::tree::{map_file, FileTree};

verus! {

/// The prospective content of one action, resolved against the source
/// snapshot; absent when a needed source file is missing.
pub open spec fn content_spec(a: ActionV, src: Map<Seq<Seq<char>>, Seq<char>>) -> Option<
    Seq<char>,
> {
    match a {
        ActionV::CopyFile { source, .. } => map_file(src, source),
        ActionV::CopyFileTransformed { source, remove_prefix, .. } => match map_file(src, source) {
            Some(t) => Some(remove_imports_spec(t, remove_prefix)),
            None => None,
        },
        ActionV::WriteFile { content, .. } => Some(content),
    }
}

/// The disposition of an action from its prospective content and the
/// target's current content.
pub open spec fn disposition_of(content: Seq<char>, existing: Option<Seq<char>>) -> ActionPlan {
    match existing {
        None => ActionPlan::Create,
        Some(e) => if e == content {
            ActionPlan::SkipSameContent
        } else {
            ActionPlan::Overwrite
        },
    }
}

/// The outcome of a run: the resulting content map, the refused actions,
/// and one report line per action.
#[verifier::ext_equal]
pub struct RunV {
    pub tree: Map<Seq<Seq<char>>, Seq<char>>,
    pub refused: Seq<ActionV>,
    pub log: Seq<LogLineV>,
}

/// The meaning of running an action list, in order, against the content
/// maps: the first action whose source content is missing aborts the run;
/// otherwise each action is performed exactly when its disposition allows
/// it under `overwrite`.
pub open spec fn run_spec(
    acts: Seq<ActionV>,
    src: Map<Seq<Seq<char>>, Seq<char>>,
    dest: Map<Seq<Seq<char>>, Seq<char>>,
    overwrite: bool,
) -> Result<RunV, ErrorV>
    decreases acts.len(),
{
    if acts.len() == 0 {
        Ok(RunV { tree: dest, refused: Seq::empty(), log: Seq::empty() })
    } else {
        let a = acts[0];
        match content_spec(a, src) {
            None => Err(
                ErrorV::UnreadableSource {
                    source: match a {
                        ActionV::CopyFile { source, .. } => source,
                        ActionV::CopyFileTransformed { source, .. } => source,
                        ActionV::WriteFile { target, .. } => target,
                    },
                },
            ),
            Some(c) => {
                let p = disposition_of(c, map_file(dest, target_of(a)));
                let performed = p == ActionPlan::Create || (p == ActionPlan::Overwrite
                    && overwrite);
                let tree1 = if performed {
                    dest.insert(target_of(a), c)
                } else {
                    dest
                };
                let refused_head: Seq<ActionV> = if p == ActionPlan::Overwrite && !overwrite {
                    seq![a]
                } else {
                    Seq::empty()
                };
                match run_spec(acts.skip(1), src, tree1, overwrite) {
                    Err(e) => Err(e),
                    Ok(o) => Ok(
                        RunV {
                            tree: o.tree,
                            refused: refused_head + o.refused,
                            log: seq![log_line_spec(a, p)] + o.log,
                        },
                    ),
                }
            },
        }
    }
}

/// The exec outcome of a run.
pub struct RunOutcome {
    pub tree: FileTree,
    pub refused: Vec<Action>,
    pub log: Vec<LogLine>,
}

/// Runs the action list against the snapshots: resolves each action's
/// content, computes its disposition, performs what is permitted, and
/// collects the refused overwrites and a report line per action.
#[verifier::loop_isolation(false)]
pub fn run(actions: &Vec<Action>, sources: &FileTree, dest: FileTree, overwrite: bool) -> (r:
    Result<RunOutcome, Error>)
    ensures
        match r {
            Ok(o) => {
                &&& run_spec(actions.deep_view(), sources.as_map(), dest.as_map(), overwrite)
                    matches Ok(v)
                &&& (run_spec(actions.deep_view(), sources.as_map(), dest.as_map(), overwrite)
                    ->Ok_0).tree == o.tree.as_map()
                &&& (run_spec(actions.deep_view(), sources.as_map(), dest.as_map(), overwrite)
                    ->Ok_0).refused == o.refused.deep_view()
                &&& (run_spec(actions.deep_view(), sources.as_map(), dest.as_map(), overwrite)
                    ->Ok_0).log == o.log.deep_view()
            },
            Err(e) => run_spec(actions.deep_view(), sources.as_map(), dest.as_map(), overwrite)
                == Err::<RunV, ErrorV>(e@),
        },
{
    let ghost acts_v = actions.deep_view();
    let ghost src_m = sources.as_map();
    let ghost dest0 = dest.as_map();
    let mut tree = dest;
    let mut refused: Vec<Action> = Vec::new();
    let mut log: Vec<LogLine> = Vec::new();
    let n = actions.len();
    let mut i: usize = 0;
    proof {
        assert(acts_v.skip(0) =~= acts_v);
        match run_spec(acts_v, src_m, dest0, overwrite) {
            Ok(o) => {
                assert(refused.deep_view() + o.refused =~= o.refused);
                assert(log.deep_view() + o.log =~= o.log);
            },
            Err(_) => {},
        }
    }
    while i < n
        invariant
            i <= n,
            match run_spec(acts_v.skip(i as int), src_m, tree.as_map(), overwrite) {
                Ok(o) => {
                    &&& run_spec(acts_v, src_m, dest0, overwrite) matches Ok(f)
                    &&& (run_spec(acts_v, src_m, dest0, overwrite)->Ok_0).tree == o.tree
                    &&& (run_spec(acts_v, src_m, dest0, overwrite)->Ok_0).refused
                        == refused.deep_view() + o.refused
                    &&& (run_spec(acts_v, src_m, dest0, overwrite)->Ok_0).log == log.deep_view()
                        + o.log
                },
                Err(e) => run_spec(acts_v, src_m, dest0, overwrite) == Err::<RunV, ErrorV>(e),
            },
        decreases n - i,
    {
        let action = &actions[i];
        proof {
            assert(acts_v[i as int] == actions@[i as int]@);
            assert(acts_v.skip(i as int)[0] == acts_v[i as int]);
            assert(acts_v.skip(i as int).skip(1) =~= acts_v.skip(i as int + 1));
        }
        let content: String = match action {
            Action::CopyFile { source, .. } => {
                match sources.file_content(source) {
                    None => {
                        return Err(Error::UnreadableSource { source: path_clone(source) });
                    },
                    Some(c) => c.clone(),
                }
            },
            Action::CopyFileTransformed { source, remove_prefix, .. } => {
                match sources.file_content(source) {
                    None => {
                        return Err(Error::UnreadableSource { source: path_clone(source) });
                    },
                    Some(c) => remove_imports(c.as_str(), remove_prefix.as_str()),
                }
            },
            Action::WriteFile { content, .. } => content.clone(),
        };
        proof {
            assert(content_spec(acts_v[i as int], src_m) == Some(content@));
        }
        let target_ref = action.target();
        let plan: ActionPlan = match tree.file_content(target_ref) {
            None => ActionPlan::Create,
            Some(e) => if *e == content {
                ActionPlan::SkipSameContent
            } else {
                ActionPlan::Overwrite
            },
        };
        proof {
            assert(plan == disposition_of(
                content@,
                map_file(tree.as_map(), target_of(acts_v[i as int])),
            ));
        }
        let line = log_action_plan(action, plan);
        let ghost log_pre = log.deep_view();
        let ghost refused_pre = refused.deep_view();
        let ghost tree_pre = tree.as_map();
        log.push(line);
        proof {
            assert(log.deep_view() =~= log_pre + seq![log_line_spec(acts_v[i as int], plan)]);
        }
        let mut performed = false;
        if plan == ActionPlan::Create || (plan == ActionPlan::Overwrite && overwrite) {
            tree.set_file(path_clone(target_ref), content);
            performed = true;
        } else if plan == ActionPlan::Overwrite {
            refused.push(action.duplicate());
            proof {
                assert(refused.deep_view() =~= refused_pre + seq![acts_v[i as int]]);
            }
        }
        proof {
            let a = acts_v[i as int];
            let u = acts_v.skip(i as int);
            let c = content@;
            let p = disposition_of(c, map_file(tree_pre, target_of(a)));
            let tree1 = if p == ActionPlan::Create || (p == ActionPlan::Overwrite && overwrite) {
                tree_pre.insert(target_of(a), c)
            } else {
                tree_pre
            };
            assert(tree.as_map() == tree1);
            let rh: Seq<ActionV> = if p == ActionPlan::Overwrite && !overwrite {
                seq![a]
            } else {
                Seq::empty()
            };
            match run_spec(acts_v.skip(i as int + 1), src_m, tree1, overwrite) {
                Ok(o2) => {
                    assert(run_spec(u, src_m, tree_pre, overwrite) matches Ok(o) && o.tree
                        == o2.tree && o.refused == rh + o2.refused && o.log == seq![
                        log_line_spec(a, p),
                    ] + o2.log);
                    assert(refused.deep_view() == refused_pre + rh) by {
                        if p == ActionPlan::Overwrite && !overwrite {
                        } else {
                            assert(refused_pre + rh =~= refused_pre);
                        }
                    }
                    assert(refused_pre + (rh + o2.refused) =~= (refused_pre + rh) + o2.refused);
                    assert(log_pre + (seq![log_line_spec(a, p)] + o2.log) =~= (log_pre + seq![
                        log_line_spec(a, p),
                    ]) + o2.log);
                },
                Err(_) => {},
            }
        }
        i += 1;
    }
    proof {
        assert(acts_v.skip(n as int) =~= Seq::<ActionV>::empty());
        match run_spec(acts_v.skip(n as int), src_m, tree.as_map(), overwrite) {
            Ok(o) => {
                assert(refused.deep_view() + o.refused =~= refused.deep_view());
                assert(log.deep_view() + o.log =~= log.deep_view());
            },
            Err(_) => {},
        }
    }
    Ok(RunOutcome { tree, refused, log })
}

/// A run changes nothing at a path that no action targets.
pub proof fn lemma_run_frame(
    acts: Seq<ActionV>,
    src: Map<Seq<Seq<char>>, Seq<char>>,
    dest: Map<Seq<Seq<char>>, Seq<char>>,
    overwrite: bool,
    q: Seq<Seq<char>>,
)
    requires
        run_spec(acts, src, dest, overwrite) is Ok,
        forall|k: int| 0 <= k < acts.len() ==> target_of(#[trigger] acts[k]) != q,
    ensures
        map_file((run_spec(acts, src, dest, overwrite)->Ok_0).tree, q) == map_file(dest, q),
    decreases acts.len(),
{
    if acts.len() > 0 {
        let a = acts[0];
        let c = content_spec(a, src)->Some_0;
        let p = disposition_of(c, map_file(dest, target_of(a)));
        let performed = p == ActionPlan::Create || (p == ActionPlan::Overwrite && overwrite);
        let tree1 = if performed {
            dest.insert(target_of(a), c)
        } else {
            dest
        };
        assert(map_file(tree1, q) == map_file(dest, q));
        assert forall|k: int| 0 <= k < acts.skip(1).len() implies target_of(
            #[trigger] acts.skip(1)[k],
        ) != q by {
            assert(acts.skip(1)[k] == acts[k + 1]);
        }
        lemma_run_frame(acts.skip(1), src, tree1, overwrite, q);
    }
}

/// In a successful run over distinct targets, every action is either
/// refused or its target ends up holding exactly its prospective content.
pub proof fn lemma_performed_or_refused(
    acts: Seq<ActionV>,
    src: Map<Seq<Seq<char>>, Seq<char>>,
    dest: Map<Seq<Seq<char>>, Seq<char>>,
    overwrite: bool,
    k: int,
)
    requires
        targets_distinct(acts),
        0 <= k < acts.len(),
        run_spec(acts, src, dest, overwrite) is Ok,
    ensures
        content_spec(acts[k], src) is Some,
        (run_spec(acts, src, dest, overwrite)->Ok_0).refused.contains(acts[k]) || map_file(
            (run_spec(acts, src, dest, overwrite)->Ok_0).tree,
            target_of(acts[k]),
        ) == content_spec(acts[k], src),
    decreases acts.len(),
{
    let a = acts[0];
    let c = content_spec(a, src)->Some_0;
    let p = disposition_of(c, map_file(dest, target_of(a)));
    let performed = p == ActionPlan::Create || (p == ActionPlan::Overwrite && overwrite);
    let tree1 = if performed {
        dest.insert(target_of(a), c)
    } else {
        dest
    };
    let rh: Seq<ActionV> = if p == ActionPlan::Overwrite && !overwrite {
        seq![a]
    } else {
        Seq::empty()
    };
    let o2 = run_spec(acts.skip(1), src, tree1, overwrite)->Ok_0;
    let o = run_spec(acts, src, dest, overwrite)->Ok_0;
    assert(o.tree == o2.tree && o.refused == rh + o2.refused);
    assert forall|x: int, y: int| 0 <= x < y < acts.skip(1).len() implies target_of(
        #[trigger] acts.skip(1)[x],
    ) != target_of(#[trigger] acts.skip(1)[y]) by {
        assert(acts.skip(1)[x] == acts[x + 1]);
        assert(acts.skip(1)[y] == acts[y + 1]);
    }
    if k == 0 {
        if p == ActionPlan::Overwrite && !overwrite {
            assert(o.refused[0] == a);
            assert(o.refused.contains(a));
        } else {
            assert(map_file(tree1, target_of(a)) == Some(c)) by {
                if p == ActionPlan::SkipSameContent {
                    assert(map_file(dest, target_of(a)) == Some(c));
                }
            }
            assert forall|m: int| 0 <= m < acts.skip(1).len() implies target_of(
                #[trigger] acts.skip(1)[m],
            ) != target_of(a) by {
                assert(acts.skip(1)[m] == acts[m + 1]);
            }
            lemma_run_frame(acts.skip(1), src, tree1, overwrite, target_of(a));
        }
    } else {
        assert(acts.skip(1)[k - 1] == acts[k]);
        lemma_performed_or_refused(acts.skip(1), src, tree1, overwrite, k - 1);
        if o2.refused.contains(acts[k]) {
            let idx = choose|idx: int| 0 <= idx < o2.refused.len() && o2.refused[idx] == acts[k];
            assert(o.refused[rh.len() + idx] == acts[k]);
            assert(o.refused.contains(acts[k]));
        }
    }
}

/// A run on a snapshot where every target already holds its prospective
/// content changes nothing, refuses nothing, and reports every action as
/// skipped for identical content.
pub proof fn lemma_all_skip(
    acts: Seq<ActionV>,
    src: Map<Seq<Seq<char>>, Seq<char>>,
    dest: Map<Seq<Seq<char>>, Seq<char>>,
    overwrite: bool,
)
    requires
        forall|k: int|
            0 <= k < acts.len() ==> content_spec(#[trigger] acts[k], src) is Some && map_file(
                dest,
                target_of(acts[k]),
            ) == content_spec(acts[k], src),
    ensures
        run_spec(acts, src, dest, overwrite) is Ok,
        (run_spec(acts, src, dest, overwrite)->Ok_0).tree == dest,
        (run_spec(acts, src, dest, overwrite)->Ok_0).refused == Seq::<ActionV>::empty(),
        (run_spec(acts, src, dest, overwrite)->Ok_0).log.len() == acts.len(),
        forall|k: int|
            0 <= k < acts.len() ==> (run_spec(acts, src, dest, overwrite)->Ok_0).log[k]
                == log_line_spec(#[trigger] acts[k], ActionPlan::SkipSameContent),
    decreases acts.len(),
{
    if acts.len() > 0 {
        let a = acts[0];
        let c = content_spec(a, src)->Some_0;
        let p = disposition_of(c, map_file(dest, target_of(a)));
        assert(p == ActionPlan::SkipSameContent);
        assert forall|k: int| 0 <= k < acts.skip(1).len() implies content_spec(
            #[trigger] acts.skip(1)[k],
            src,
        ) is Some && map_file(dest, target_of(acts.skip(1)[k])) == content_spec(
            acts.skip(1)[k],
            src,
        ) by {
            assert(acts.skip(1)[k] == acts[k + 1]);
        }
        lemma_all_skip(acts.skip(1), src, dest, overwrite);
        let o2 = run_spec(acts.skip(1), src, dest, overwrite)->Ok_0;
        let o = run_spec(acts, src, dest, overwrite)->Ok_0;
        assert(o.refused == Seq::<ActionV>::empty() + o2.refused);
        assert(Seq::<ActionV>::empty() + o2.refused =~= o2.refused);
        assert(o.log == seq![log_line_spec(a, p)] + o2.log);
        assert forall|k: int| 0 <= k < acts.len() implies o.log[k] == log_line_spec(
            #[trigger] acts[k],
            ActionPlan::SkipSameContent,
        ) by {
            if k > 0 {
                assert(o.log[k] == o2.log[k - 1]);
                assert(acts.skip(1)[k - 1] == acts[k]);
            }
        }
    }
}

/// Idempotence: after a run over distinct targets that refused nothing,
/// running the same actions again on the resulting snapshot performs no
/// write, refuses nothing, and reports every target as already up to
/// date, whatever the overwrite flag.
pub proof fn lemma_rerun_all_skip(
    acts: Seq<ActionV>,
    src: Map<Seq<Seq<char>>, Seq<char>>,
    dest: Map<Seq<Seq<char>>, Seq<char>>,
    overwrite1: bool,
    overwrite2: bool,
)
    requires
        targets_distinct(acts),
        run_spec(acts, src, dest, overwrite1) is Ok,
        (run_spec(acts, src, dest, overwrite1)->Ok_0).refused == Seq::<ActionV>::empty(),
    ensures
        run_spec(acts, src, (run_spec(acts, src, dest, overwrite1)->Ok_0).tree, overwrite2) is Ok,
        (run_spec(acts, src, (run_spec(acts, src, dest, overwrite1)->Ok_0).tree, overwrite2)
            ->Ok_0).tree == (run_spec(acts, src, dest, overwrite1)->Ok_0).tree,
        (run_spec(acts, src, (run_spec(acts, src, dest, overwrite1)->Ok_0).tree, overwrite2)
            ->Ok_0).refused == Seq::<ActionV>::empty(),
        (run_spec(acts, src, (run_spec(acts, src, dest, overwrite1)->Ok_0).tree, overwrite2)
            ->Ok_0).log.len() == acts.len(),
        forall|k: int|
            0 <= k < acts.len() ==> (run_spec(
                acts,
                src,
                (run_spec(acts, src, dest, overwrite1)->Ok_0).tree,
                overwrite2,
            )->Ok_0).log[k] == log_line_spec(#[trigger] acts[k], ActionPlan::SkipSameContent),
{
    let o = run_spec(acts, src, dest, overwrite1)->Ok_0;
    assert forall|k: int| 0 <= k < acts.len() implies content_spec(#[trigger] acts[k], src)
        is Some && map_file(o.tree, target_of(acts[k])) == content_spec(acts[k], src) by {
        lemma_performed_or_refused(acts, src, dest, overwrite1, k);
    }
    lemma_all_skip(acts, src, o.tree, overwrite2);
}

/// Overwrite gating: when the target's content differs from the
/// prospective content, a run without the overwrite flag leaves the file
/// untouched and refuses the action, and a run with the flag replaces it
/// with exactly the prospective content.
pub proof fn lemma_overwrite_gating(
    a: ActionV,
    src: Map<Seq<Seq<char>>, Seq<char>>,
    dest: Map<Seq<Seq<char>>, Seq<char>>,
)
    requires
        content_spec(a, src) is Some,
        map_file(dest, target_of(a)) is Some,
        map_file(dest, target_of(a)) != content_spec(a, src),
    ensures
        run_spec(seq![a], src, dest, false) is Ok,
        (run_spec(seq![a], src, dest, false)->Ok_0).tree == dest,
        (run_spec(seq![a], src, dest, false)->Ok_0).refused == seq![a],
        run_spec(seq![a], src, dest, true) is Ok,
        (run_spec(seq![a], src, dest, true)->Ok_0).tree == dest.insert(
            target_of(a),
            content_spec(a, src)->Some_0,
        ),
        (run_spec(seq![a], src, dest, true)->Ok_0).refused == Seq::<ActionV>::empty(),
{
    reveal_with_fuel(run_spec, 3);
    let one = seq![a];
    assert(one[0] == a);
    assert(one.skip(1) =~= Seq::<ActionV>::empty());
    assert(one.skip(1).len() == 0);
    let c = content_spec(a, src)->Some_0;
    let p = disposition_of(c, map_file(dest, target_of(a)));
    assert(p == ActionPlan::Overwrite);
    assert((run_spec(one, src, dest, false)->Ok_0).refused == one + Seq::<ActionV>::empty());
    assert(one + Seq::<ActionV>::empty() =~= one);
    assert((run_spec(one, src, dest, true)->Ok_0).refused == Seq::<ActionV>::empty()
        + Seq::<ActionV>::empty());
    assert(Seq::<ActionV>::empty() + Seq::<ActionV>::empty() =~= Seq::<ActionV>::empty());
}

} // verus!
