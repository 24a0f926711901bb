//! The undo/redo log of reversible file mutations. Only copies, renames and
//! creations are recordable — trash and permanent deletion have no variant
//! here, so they can never become undoable. The log decides which filesystem
//! effect reverses or re-performs an action; the caller carries the effect
//! out and reports back, and only a carried-out action moves to the other
//! stack — a failed one is dropped.
use vstd::prelude::*;

verus! {

use crate::bytes::clone_bytes;

/// A recorded, reversible file mutation.
pub enum UndoAction {
    Copy { src: Vec<u8>, dest: Vec<u8> },
    Rename { old_path: Vec<u8>, new_path: Vec<u8> },
    Create { path: Vec<u8>, was_dir: bool },
}

/// The mathematical value of a recorded action.
pub enum ActionModel {
    Copy { src: Seq<u8>, dest: Seq<u8> },
    Rename { old_path: Seq<u8>, new_path: Seq<u8> },
    Create { path: Seq<u8>, was_dir: bool },
}

impl View for UndoAction {
    type V = ActionModel;

    open spec fn view(&self) -> ActionModel {
        match self {
            UndoAction::Copy { src, dest } => ActionModel::Copy { src: src@, dest: dest@ },
            UndoAction::Rename { old_path, new_path } => ActionModel::Rename {
                old_path: old_path@,
                new_path: new_path@,
            },
            UndoAction::Create { path, was_dir } => ActionModel::Create {
                path: path@,
                was_dir: *was_dir,
            },
        }
    }
}

/// A filesystem effect the caller is asked to perform. `Remove` with a
/// known kind removes what was recorded; without one, the caller checks the
/// path's kind live.
pub enum FsEffect {
    Remove { path: Vec<u8>, known_dir: Option<bool> },
    RenamePath { from: Vec<u8>, to: Vec<u8> },
    CopyPath { src: Vec<u8>, dest: Vec<u8> },
    CreatePath { path: Vec<u8>, is_dir: bool },
}

/// The mathematical value of an effect.
pub enum EffectModel {
    Remove { path: Seq<u8>, known_dir: Option<bool> },
    RenamePath { from: Seq<u8>, to: Seq<u8> },
    CopyPath { src: Seq<u8>, dest: Seq<u8> },
    CreatePath { path: Seq<u8>, is_dir: bool },
}

impl View for FsEffect {
    type V = EffectModel;

    open spec fn view(&self) -> EffectModel {
        match self {
            FsEffect::Remove { path, known_dir } => EffectModel::Remove {
                path: path@,
                known_dir: *known_dir,
            },
            FsEffect::RenamePath { from, to } => EffectModel::RenamePath { from: from@, to: to@ },
            FsEffect::CopyPath { src, dest } => EffectModel::CopyPath { src: src@, dest: dest@ },
            FsEffect::CreatePath { path, is_dir } => EffectModel::CreatePath {
                path: path@,
                is_dir: *is_dir,
            },
        }
    }
}

/// The effect that reverses an action: a copy loses its destination (the
/// source is not touched), a rename goes back, a creation is removed.
pub open spec fn spec_undo_effect(a: ActionModel) -> EffectModel {
    match a {
        ActionModel::Copy { src, dest } => EffectModel::Remove { path: dest, known_dir: None },
        ActionModel::Rename { old_path, new_path } => EffectModel::RenamePath {
            from: new_path,
            to: old_path,
        },
        ActionModel::Create { path, was_dir } => EffectModel::Remove {
            path,
            known_dir: Some(was_dir),
        },
    }
}

/// The effect that re-performs an action after it was undone.
pub open spec fn spec_redo_effect(a: ActionModel) -> EffectModel {
    match a {
        ActionModel::Copy { src, dest } => EffectModel::CopyPath { src, dest },
        ActionModel::Rename { old_path, new_path } => EffectModel::RenamePath {
            from: old_path,
            to: new_path,
        },
        ActionModel::Create { path, was_dir } => EffectModel::CreatePath { path, is_dir: was_dir },
    }
}

/// The models of a stack of actions.
pub open spec fn action_models(s: Seq<UndoAction>) -> Seq<ActionModel> {
    s.map_values(|a: UndoAction| a@)
}

/// The two stacks, and the action whose effect is being carried out.
pub struct UndoLog {
    pub undo: Vec<UndoAction>,
    pub redo: Vec<UndoAction>,
    pub pending: Option<(UndoAction, bool)>,
}

impl UndoLog {
    /// An empty log.
    pub fn new() -> (log: UndoLog)
        ensures
            log.undo@.len() == 0,
            log.redo@.len() == 0,
            log.pending is None,
    {
        UndoLog { undo: Vec::new(), redo: Vec::new(), pending: None }
    }

    /// Records a fresh mutation: it goes onto the undo stack and the redo
    /// history is invalidated unconditionally.
    pub fn record(&mut self, a: UndoAction)
        requires
            old(self).pending is None,
        ensures
            final(self).undo@ == old(self).undo@.push(a),
            final(self).redo@.len() == 0,
            final(self).pending is None,
    {
        self.undo.push(a);
        self.redo.clear();
    }

    /// Takes the most recent action off the undo stack and names the effect
    /// that reverses it; the action waits as pending until `finish` reports
    /// whether the effect was carried out. An empty stack does nothing.
    pub fn begin_undo(&mut self) -> (r: Option<FsEffect>)
        requires
            old(self).pending is None,
        ensures
            old(self).undo@.len() == 0 ==> r is None && final(self).undo@ == old(self).undo@
                && final(self).redo@ == old(self).redo@ && final(self).pending is None,
            old(self).undo@.len() > 0 ==> {
                &&& final(self).undo@ == old(self).undo@.drop_last()
                &&& final(self).redo@ == old(self).redo@
                &&& match r {
                    Some(eff) => eff@ == spec_undo_effect(old(self).undo@.last()@),
                    None => false,
                }
                &&& match final(self).pending {
                    Some(p) => p.0 == old(self).undo@.last() && p.1 == true,
                    None => false,
                }
            },
    {
        match self.undo.pop() {
            None => None,
            Some(a) => {
                let eff = undo_effect_of(&a);
                self.pending = Some((a, true));
                Some(eff)
            },
        }
    }

    /// Takes the most recent undone action off the redo stack and names the
    /// effect that re-performs it; the action waits as pending.
    pub fn begin_redo(&mut self) -> (r: Option<FsEffect>)
        requires
            old(self).pending is None,
        ensures
            old(self).redo@.len() == 0 ==> r is None && final(self).undo@ == old(self).undo@
                && final(self).redo@ == old(self).redo@ && final(self).pending is None,
            old(self).redo@.len() > 0 ==> {
                &&& final(self).redo@ == old(self).redo@.drop_last()
                &&& final(self).undo@ == old(self).undo@
                &&& match r {
                    Some(eff) => eff@ == spec_redo_effect(old(self).redo@.last()@),
                    None => false,
                }
                &&& match final(self).pending {
                    Some(p) => p.0 == old(self).redo@.last() && p.1 == false,
                    None => false,
                }
            },
    {
        match self.redo.pop() {
            None => None,
            Some(a) => {
                let eff = redo_effect_of(&a);
                self.pending = Some((a, false));
                Some(eff)
            },
        }
    }

    /// Settles the pending action: a carried-out undo moves it to the redo
    /// stack, a carried-out redo back to the undo stack, and a failed effect
    /// drops it silently.
    pub fn finish(&mut self, success: bool)
        requires
            old(self).pending is Some,
        ensures
            final(self).pending is None,
            ({
                let p = old(self).pending->Some_0;
                if success {
                    if p.1 {
                        final(self).redo@ == old(self).redo@.push(p.0) && final(self).undo@ == old(
                            self,
                        ).undo@
                    } else {
                        final(self).undo@ == old(self).undo@.push(p.0) && final(self).redo@ == old(
                            self,
                        ).redo@
                    }
                } else {
                    final(self).undo@ == old(self).undo@ && final(self).redo@ == old(self).redo@
                }
            }),
    {
        let p = self.pending.take();
        match p {
            Some((a, was_undo)) => {
                if success {
                    if was_undo {
                        self.redo.push(a);
                    } else {
                        self.undo.push(a);
                    }
                }
            },
            None => {},
        }
    }
}

/// The reversing effect of an action, as a value the caller can act on.
fn undo_effect_of(a: &UndoAction) -> (r: FsEffect)
    ensures
        r@ == spec_undo_effect(a@),
{
    match a {
        UndoAction::Copy { src: _, dest } => FsEffect::Remove {
            path: clone_bytes(dest),
            known_dir: None,
        },
        UndoAction::Rename { old_path, new_path } => FsEffect::RenamePath {
            from: clone_bytes(new_path),
            to: clone_bytes(old_path),
        },
        UndoAction::Create { path, was_dir } => FsEffect::Remove {
            path: clone_bytes(path),
            known_dir: Some(*was_dir),
        },
    }
}

/// The re-performing effect of an action.
fn redo_effect_of(a: &UndoAction) -> (r: FsEffect)
    ensures
        r@ == spec_redo_effect(a@),
{
    match a {
        UndoAction::Copy { src, dest } => FsEffect::CopyPath {
            src: clone_bytes(src),
            dest: clone_bytes(dest),
        },
        UndoAction::Rename { old_path, new_path } => FsEffect::RenamePath {
            from: clone_bytes(old_path),
            to: clone_bytes(new_path),
        },
        UndoAction::Create { path, was_dir } => FsEffect::CreatePath {
            path: clone_bytes(path),
            is_dir: *was_dir,
        },
    }
}

/// Law: undoing a recorded copy removes the destination and nothing else —
/// the effect names no other path, so the source is untouched — and redoing
/// it re-performs the very same copy.
pub proof fn lemma_copy_undo_redo(src: Seq<u8>, dest: Seq<u8>)
    ensures
        spec_undo_effect(ActionModel::Copy { src, dest }) == (EffectModel::Remove {
            path: dest,
            known_dir: None,
        }),
        spec_redo_effect(ActionModel::Copy { src, dest }) == (EffectModel::CopyPath { src, dest }),
{
}

} // verus!
