//! Renaming a project or a thread.
use vstd::prelude::*;
use vstd::string::*;

use crate::app::{
    find_project, find_thread, first_project_is_found, first_thread_is_found, followed_by, loading, nothing, one, project_at, rewritten, said,
    thread_with_id, AppModel, Effect, EffectModel, FocusTarget, MessageRole, OpenModel,
    RenameTarget, RenamingModel, RodeApp, ShownModel, TargetModel,
};
use crate::navigation::only_if;
use crate::text;
use crate::text::{has_part, parts_are_held, trimmed};
use crate::views::{views, views_index};

verus! {

/// What a project or a thread is called, where it is known.
pub open spec fn name_of(a: AppModel, target: TargetModel) -> Option<Seq<char>> {
    match target {
        TargetModel::Project(path) => match project_at(a.known.projects, path, 0) {
            Some(i) => Some(a.known.projects[i].name),
            None => None,
        },
        TargetModel::Thread(id) => match thread_with_id(a.known.threads, id, 0) {
            Some(i) => Some(a.known.threads[i].title),
            None => None,
        },
    }
}

/// The application while something is renamed, and what is done: its name can be written over.
pub open spec fn rename_begun(a: AppModel, target: TargetModel) -> (AppModel, Seq<EffectModel>) {
    match name_of(a, target) {
        None => (a, Seq::empty()),
        Some(name) => (
            AppModel {
                renaming: RenamingModel {
                    target: Some(target),
                    editor: rewritten(a.renaming.editor, name),
                },
                ..a
            },
            seq![EffectModel::Focus(FocusTarget::Rename)],
        ),
    }
}

/// The application with what is shown under its new name.
pub open spec fn renamed(a: AppModel, target: TargetModel, name: Seq<char>) -> AppModel {
    match target {
        TargetModel::Project(path) => if a.project.root == path {
            AppModel { project: OpenModel { name, ..a.project }, ..a }
        } else {
            a
        },
        TargetModel::Thread(id) => if a.thread.id == id {
            AppModel { thread: ShownModel { title: name, ..a.thread }, ..a }
        } else {
            a
        },
    }
}

/// What is done to keep a new name.
pub open spec fn renaming_kept(a: AppModel, target: TargetModel, name: Seq<char>) -> Seq<EffectModel> {
    if !a.known.has_store {
        Seq::empty()
    } else {
        match target {
            TargetModel::Project(path) => seq![EffectModel::RenameProject { path, name }],
            TargetModel::Thread(id) => seq![EffectModel::RenameThread { id, title: name }],
        }
    }
}

/// The application after the user was done with a new name, and what is done. A name of nothing
/// but white space changes nothing.
pub open spec fn rename_submitted(a: AppModel) -> (AppModel, Seq<EffectModel>) {
    let name = trimmed(a.renaming.editor.text);
    let focus = seq![EffectModel::Focus(FocusTarget::Composer)];
    match a.renaming.target {
        None => (a, Seq::empty()),
        Some(target) => {
            let b = AppModel { renaming: RenamingModel { target: None, ..a.renaming }, ..a };
            if name.len() == 0 {
                (b, focus)
            } else {
                (
                    renamed(b, target, name),
                    renaming_kept(b, target, name) + (loading(b) + focus),
                )
            }
        },
    }
}

/// The application in which nothing is renamed any more.
pub open spec fn rename_cleared(a: AppModel) -> AppModel {
    AppModel { renaming: RenamingModel { target: None, ..a.renaming }, ..a }
}

/// The application after a new name was not kept.
pub open spec fn rename_lost(a: AppModel, error: Seq<char>) -> AppModel {
    said(a, MessageRole::System, "Could not rename item: "@ + error)
}

impl RodeApp {
    /// See [`rename_begun`].
    pub fn begin_rename(&mut self, target: RenameTarget) -> (r: Vec<Effect>)
        ensures
            final(self)@ == rename_begun(old(self)@, target@).0,
            views(r@) == rename_begun(old(self)@, target@).1,
            old(self).wf() ==> final(self).wf(),
    {
        broadcast use views_index;

        let name = match &target {
            RenameTarget::Project(path) => match find_project(&self.known.projects, path.as_str()) {
                Some(i) => self.known.projects[i].name.clone(),
                None => {
                    return nothing();
                },
            },
            RenameTarget::Thread(id) => match find_thread(&self.known.threads, id.as_str()) {
                Some(i) => self.known.threads[i].title.clone(),
                None => {
                    return nothing();
                },
            },
        };
        self.renaming.target = Some(target);
        let _ = self.renaming.editor.set_text(name.as_str());
        one(Effect::Focus(FocusTarget::Rename))
    }

    /// Shows what is shown under its new name, and keeps it. See [`renamed`] and
    /// [`renaming_kept`].
    fn rename(&mut self, target: RenameTarget, name: String) -> (r: Vec<Effect>)
        ensures
            final(self)@ == renamed(old(self)@, target@, name@),
            views(r@) == renaming_kept(old(self)@, target@, name@),
            old(self).wf() ==> final(self).wf(),
    {
        let kept = self.known.has_store;
        match target {
            RenameTarget::Project(path) => {
                if text::same(self.project.root.as_str(), path.as_str()) {
                    self.project.name = name.clone();
                }
                only_if(kept, Effect::RenameProject { path, name })
            },
            RenameTarget::Thread(id) => {
                if text::same(self.thread.id.as_str(), id.as_str()) {
                    self.thread.title = name.clone();
                }
                only_if(kept, Effect::RenameThread { id, title: name })
            },
        }
    }

    /// See [`rename_submitted`].
    pub fn submit_rename(&mut self) -> (r: Vec<Effect>)
        ensures
            final(self)@ == rename_submitted(old(self)@).0,
            views(r@) == rename_submitted(old(self)@).1,
            old(self).wf() ==> final(self).wf(),
    {
        let text = self.renaming.editor.text();
        let name = text::trim(text.as_str());
        let target = match &self.renaming.target {
            Some(RenameTarget::Project(path)) => RenameTarget::Project(path.clone()),
            Some(RenameTarget::Thread(id)) => RenameTarget::Thread(id.clone()),
            None => {
                return nothing();
            },
        };
        self.renaming.target = None;
        let focus = one(Effect::Focus(FocusTarget::Composer));
        if name.as_str().unicode_len() == 0 {
            return focus;
        }
        let keep = self.rename(target, name);
        followed_by(keep, followed_by(self.known.refresh_known_state(), focus))
    }

    /// Says why a new name was not kept.
    pub fn rename_failed(&mut self, error: &str)
        ensures
            final(self)@ == said(
                old(self)@,
                MessageRole::System,
                "Could not rename item: "@ + error@,
            ),
            final(self)@ == rename_lost(old(self)@, error@),
            old(self).wf() ==> final(self).wf(),
    {
        self.thread.say(MessageRole::System, text::concat("Could not rename item: ", error));
    }

    /// Renames nothing any more.
    pub fn clear_rename(&mut self)
        ensures
            final(self)@ == (AppModel {
                renaming: RenamingModel { target: None, ..old(self)@.renaming },
                ..old(self)@
            }),
            final(self)@ == rename_cleared(old(self)@),
            old(self).wf() ==> final(self).wf(),
    {
        self.renaming.target = None;
    }

    pub fn cancel_rename(&mut self) -> (r: Vec<Effect>)
        ensures
            final(self)@ == (AppModel {
                renaming: RenamingModel { target: None, ..old(self)@.renaming },
                ..old(self)@
            }),
            final(self)@ == rename_cleared(old(self)@),
            views(r@) == seq![EffectModel::Focus(FocusTarget::Composer)],
            old(self).wf() ==> final(self).wf(),
    {
        self.clear_rename();
        one(Effect::Focus(FocusTarget::Composer))
    }
}

/// A name that is not changed before it is submitted stays, but for the white space around it.
pub proof fn untouched_names_stay(a: AppModel, target: TargetModel)
    requires
        name_of(a, target) matches Some(name) && trimmed(name) == name,
        target matches TargetModel::Project(path) ==> a.project.root == path ==> a.project.name
            == name_of(a, target)->0,
        target matches TargetModel::Thread(id) ==> a.thread.id == id ==> a.thread.title == name_of(
            a,
            target,
        )->0,
    ensures
        ({
            let b = rename_submitted(rename_begun(a, target).0).0;
            &&& b.project == a.project
            &&& b.thread == a.thread
            &&& b.renaming.target is None
        }),
{
}

/// A rename that is given up changes nothing but the editor.
pub proof fn given_up_names_stay(a: AppModel, target: TargetModel)
    requires
        a.renaming.target is None,
    ensures
        ({
            let b = rename_begun(a, target).0;
            AppModel {
                renaming: RenamingModel { target: None, editor: a.renaming.editor },
                ..b
            } == a
        }),
{
}

/// What is renamed is what the user asked for, under the name that they wrote, white space at its
/// ends aside: that name is kept for it and for nothing else, and shown where it is what is shown.
/// The user writes over the name that it has.
pub proof fn new_names_are_kept_and_shown(a: AppModel, target: TargetModel, name: Seq<char>)
    requires
        a.renaming.target == Some(target),
        name == trimmed(a.renaming.editor.text),
        name.len() > 0,
    ensures
        ({
            let (b, effects) = rename_submitted(a);
            &&& b.renaming.target is None
            &&& target matches TargetModel::Project(path) ==> {
                &&& b.project.name == if a.project.root == path {
                    name
                } else {
                    a.project.name
                }
                &&& b.thread == a.thread
                &&& a.known.has_store ==> effects == seq![
                    EffectModel::RenameProject { path, name },
                    EffectModel::LoadKnown,
                    EffectModel::Focus(FocusTarget::Composer),
                ]
            }
            &&& target matches TargetModel::Thread(id) ==> {
                &&& b.thread.title == if a.thread.id == id {
                    name
                } else {
                    a.thread.title
                }
                &&& b.project == a.project
                &&& a.known.has_store ==> effects == seq![
                    EffectModel::RenameThread { id, title: name },
                    EffectModel::LoadKnown,
                    EffectModel::Focus(FocusTarget::Composer),
                ]
            }
            &&& b.thread.id == a.thread.id
            &&& b.thread.messages == a.thread.messages
            &&& b.project.root == a.project.root
            &&& b.project.path == a.project.path
            &&& b.turn == a.turn
        }),
{
    let (b, effects) = rename_submitted(a);
    match target {
        TargetModel::Project(path) => {
            assert(a.known.has_store ==> effects =~= seq![
                EffectModel::RenameProject { path, name },
                EffectModel::LoadKnown,
                EffectModel::Focus(FocusTarget::Composer),
            ]);
        },
        TargetModel::Thread(id) => {
            assert(a.known.has_store ==> effects =~= seq![
                EffectModel::RenameThread { id, title: name },
                EffectModel::LoadKnown,
                EffectModel::Focus(FocusTarget::Composer),
            ]);
        },
    }
}

/// A name of nothing but white space renames nothing, and neither does a rename that was given up
/// or one of what is not known.
pub proof fn blank_names_rename_nothing(a: AppModel, target: TargetModel)
    ensures
        a.renaming.target is Some && trimmed(a.renaming.editor.text).len() == 0 ==> ({
            let (b, effects) = rename_submitted(a);
            &&& b.project == a.project
            &&& b.thread == a.thread
            &&& b.renaming.target is None
            &&& effects == seq![EffectModel::Focus(FocusTarget::Composer)]
        }),
        rename_submitted(rename_cleared(a)).0 == rename_cleared(a),
        rename_submitted(rename_cleared(a)).1.len() == 0,
        rename_cleared(a).renaming.target is None,
        rename_cleared(a).project == a.project && rename_cleared(a).thread == a.thread,
        name_of(a, target) is None ==> rename_begun(a, target).0 == a,
{
}

/// The user writes over the name that the project or the thread is known by.
pub proof fn names_are_written_over(a: AppModel, i: int, thread: bool)
    requires
        thread ==> 0 <= i < a.known.threads.len() && forall|k: int|
            0 <= k < i ==> (#[trigger] a.known.threads[k]).id != a.known.threads[i].id,
        !thread ==> 0 <= i < a.known.projects.len() && forall|k: int|
            0 <= k < i ==> (#[trigger] a.known.projects[k]).path != a.known.projects[i].path,
    ensures
        thread ==> ({
            let target = TargetModel::Thread(a.known.threads[i].id);
            let (b, effects) = rename_begun(a, target);
            &&& b.renaming.target == Some(target)
            &&& b.renaming.editor.text == a.known.threads[i].title
            &&& effects == seq![EffectModel::Focus(FocusTarget::Rename)]
        }),
        !thread ==> ({
            let target = TargetModel::Project(a.known.projects[i].path);
            let (b, effects) = rename_begun(a, target);
            &&& b.renaming.target == Some(target)
            &&& b.renaming.editor.text == a.known.projects[i].name
            &&& effects == seq![EffectModel::Focus(FocusTarget::Rename)]
        }),
{
    if thread {
        first_thread_is_found(a.known.threads, a.known.threads[i].id, 0, i);
    } else {
        first_project_is_found(a.known.projects, a.known.projects[i].path, 0, i);
    }
}

/// Why a new name was not kept is said in the thread, behind what stands there.
pub proof fn lost_names_are_told(a: AppModel, error: Seq<char>)
    ensures
        ({
            let b = rename_lost(a, error);
            &&& b.thread.messages.len() == a.thread.messages.len() + 1
            &&& b.thread.messages.drop_last() == a.thread.messages
            &&& b.thread.messages.last().role is System
            &&& has_part(b.thread.messages.last().text, error)
        }),
{
    let none = Seq::<char>::empty();
    let before = "Could not rename item: "@;
    assert(before + error + none =~= before + error);
    parts_are_held(before, error, none);
    assert(rename_lost(a, error).thread.messages.drop_last() =~= a.thread.messages);
}

} // verus!
