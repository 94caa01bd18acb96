//! Projects: choosing a folder, opening the repository in it, and putting right or forgetting one
//! that is gone.
use vstd::prelude::*;
use vstd::string::*;

use crate::app::{
    closed, closing, find_project, first_project_is_found, first_thread_is_found, followed_by, loading, next_generation, nothing, one, project_at,
    reconciled, saving, saving_active, validating, validation, AppModel, Effect, EffectModel, KnownModel, OpenModel,
    PickerModel, ProjectSelectionState, RodeApp, SelectionModel, SurfaceModel,
};
use crate::persistence::ProjectModel;
use crate::project::{ValidatedModel, ValidatedProject};
use crate::snapshot::{RepoSnapshot, SnapshotModel};
use crate::text;
use crate::text::{has_part, parts_are_held};
use crate::threads::{switched, thread_begun};
use crate::views::{opt_view, views, views_index};

verus! {

/// The application with something said of the choice of a project.
pub open spec fn picker_told(a: AppModel, error: Seq<char>) -> AppModel {
    AppModel { picker: PickerModel { error: Some(error), ..a.picker }, ..a }
}

/// The application in which no folder is chosen any more.
pub open spec fn unpicked(a: AppModel) -> AppModel {
    AppModel { picker: PickerModel { selection: SelectionModel::Idle, ..a.picker }, ..a }
}

/// The application while the user chooses a folder, and what is done. A folder that is chosen
/// takes the place of the project that is being put right, if there is one.
pub open spec fn choosing(a: AppModel) -> (AppModel, Seq<EffectModel>) {
    (
        AppModel {
            surface: SurfaceModel { show_create_menu: false, ..a.surface },
            picker: PickerModel {
                selection: SelectionModel::ChoosingFolder,
                error: None,
                repairing: None,
                ..a.picker
            },
            ..a
        },
        seq![EffectModel::PickFolder { repair: a.picker.repairing }],
    )
}

/// The application while the user chooses a folder for a project of its own, and what is done.
pub open spec fn browsing(a: AppModel) -> (AppModel, Seq<EffectModel>) {
    choosing(AppModel { picker: PickerModel { repairing: None, ..a.picker }, ..a })
}

/// The application while the user chooses a folder for a project that is known, and what is done.
pub open spec fn repair_begun(a: AppModel, path: Seq<char>) -> (AppModel, Seq<EffectModel>) {
    choosing(AppModel { picker: PickerModel { repairing: Some(path), ..a.picker }, ..a })
}

/// The application in which no folder is chosen any more, nor one looked into.
pub open spec fn selection_ended(a: AppModel) -> AppModel {
    if a.picker.selection is Idle {
        a
    } else {
        AppModel {
            picker: PickerModel {
                generation: next_generation(a.picker.generation),
                selection: SelectionModel::Idle,
                repairing: None,
                ..a.picker
            },
            ..a
        }
    }
}

/// The application after the user asked to forget a project, and what is done.
pub open spec fn removal_asked(a: AppModel, path: Seq<char>) -> (AppModel, Seq<EffectModel>) {
    if a.known.has_store {
        (a, seq![EffectModel::RemoveProject(path)])
    } else {
        forgotten(a, path)
    }
}

/// How the choice of a folder ended.
#[derive(Debug, PartialEq, Eq)]
pub enum FolderChoice {
    Chosen(Vec<String>),
    Dismissed,
    Failed(String),
    Lost,
}

/// The value of a `FolderChoice`.
#[verifier::ext_equal]
pub enum ChoiceModel {
    Chosen(Seq<Seq<char>>),
    Dismissed,
    Failed(Seq<char>),
    Lost,
}

impl View for FolderChoice {
    type V = ChoiceModel;

    open spec fn view(&self) -> ChoiceModel {
        match self {
            FolderChoice::Chosen(paths) => ChoiceModel::Chosen(views(paths@)),
            FolderChoice::Dismissed => ChoiceModel::Dismissed,
            FolderChoice::Failed(error) => ChoiceModel::Failed(error@),
            FolderChoice::Lost => ChoiceModel::Lost,
        }
    }
}

/// The application after the choice of a folder ended, and what is done: the first of the
/// folders is looked into.
pub open spec fn chosen(a: AppModel, choice: ChoiceModel, repair: Option<Seq<char>>) -> (
    AppModel,
    Seq<EffectModel>,
) {
    match choice {
        ChoiceModel::Chosen(paths) => if paths.len() > 0 {
            (validating(a, paths[0]), validation(a, paths[0], repair))
        } else {
            (a, Seq::empty())
        },
        ChoiceModel::Dismissed => (unpicked(a), Seq::empty()),
        ChoiceModel::Failed(error) => (
            picker_told(unpicked(a), "Could not open the folder picker: "@ + error),
            Seq::empty(),
        ),
        ChoiceModel::Lost => (
            picker_told(unpicked(a), "The desktop folder picker closed unexpectedly."@),
            Seq::empty(),
        ),
    }
}

/// The application after a folder was looked into: the choice is over, and what was found wrong
/// is said. What comes of an earlier folder is not heeded.
pub open spec fn looked(a: AppModel, generation: u64, error: Option<Seq<char>>) -> AppModel {
    if a.picker.generation != generation {
        a
    } else {
        match error {
            None => unpicked(a),
            Some(error) => picker_told(unpicked(a), error),
        }
    }
}

/// What is to be kept of a project that is opened.
#[derive(Debug, PartialEq, Eq)]
pub enum OpenPlan {
    /// The project is not opened.
    Refused,
    /// A project that was elsewhere is here now.
    Repair { old_path: String, new_path: String, name: String },
    /// A project that was not known.
    Save { path: String, name: String },
    /// A project that is known.
    Keep,
}

/// The value of an `OpenPlan`.
#[verifier::ext_equal]
pub enum PlanModel {
    Refused,
    Repair { old_path: Seq<char>, new_path: Seq<char>, name: Seq<char> },
    Save { path: Seq<char>, name: Seq<char> },
    Keep,
}

impl View for OpenPlan {
    type V = PlanModel;

    open spec fn view(&self) -> PlanModel {
        match self {
            OpenPlan::Refused => PlanModel::Refused,
            OpenPlan::Repair { old_path, new_path, name } => PlanModel::Repair {
                old_path: old_path@,
                new_path: new_path@,
                name: name@,
            },
            OpenPlan::Save { path, name } => PlanModel::Save { path: path@, name: name@ },
            OpenPlan::Keep => PlanModel::Keep,
        }
    }
}

/// What is to be kept of a project that is opened. One that is put right may not be another that
/// is known.
pub open spec fn plan_of(a: AppModel, project: ValidatedModel, repair: Option<Seq<char>>) -> PlanModel {
    let known = project_at(a.known.projects, project.root, 0) is Some;
    match repair {
        Some(old_path) => if known && project.root != old_path {
            PlanModel::Refused
        } else if a.known.has_store {
            PlanModel::Repair { old_path, new_path: project.root, name: project.name }
        } else {
            PlanModel::Keep
        },
        None => if !known && a.known.has_store {
            PlanModel::Save { path: project.root, name: project.name }
        } else {
            PlanModel::Keep
        },
    }
}

/// The application after a project was planned to be opened.
pub open spec fn planned(a: AppModel, plan: PlanModel) -> AppModel {
    if plan is Refused {
        picker_told(
            a,
            "That repository is already in Recent projects. Open it directly instead."@,
        )
    } else {
        a
    }
}

/// The application with a project that was opened, and what is done. `repo` is what the
/// repository is like by now.
pub open spec fn project_opened(a: AppModel, project: ValidatedModel, repo: SnapshotModel) -> (
    AppModel,
    Seq<EffectModel>,
) {
    if !repo.is_repository {
        (
            picker_told(
                closed(a),
                "Git validation changed while opening the project. Try again."@,
            ),
            closing(),
        )
    } else {
        (
            AppModel {
                project: OpenModel {
                    open: true,
                    root: repo.root,
                    path: project.root,
                    name: match project_at(a.known.projects, project.root, 0) {
                        Some(i) => a.known.projects[i].name,
                        None => project.name,
                    },
                    repo,
                },
                picker: PickerModel { error: None, ..a.picker },
                ..a
            },
            Seq::empty(),
        )
    }
}

/// The application in the project that was opened, and what is done: the thread that was shown
/// last in it is gone to as if no project were open, or a thread is begun under the id `fresh`.
/// `is_dir` says whether the workspace of the former is still there, and `repo` what the
/// repository in the folder that is gone to is like.
pub open spec fn project_arrived(
    a: AppModel,
    restored: Option<Seq<char>>,
    is_dir: bool,
    repo: SnapshotModel,
    fresh: Seq<char>,
) -> (AppModel, Seq<EffectModel>) {
    if !a.project.open {
        (a, Seq::empty())
    } else {
        match restored {
            Some(id) => switched(
                AppModel { project: OpenModel { open: false, ..a.project }, ..a },
                id,
                is_dir,
                repo,
            ),
            None => {
                let (b, effects) = thread_begun(a, fresh, repo);
                (b, saving_active(a) + effects)
            },
        }
    }
}

/// The application in a project that was chosen from those that are known, and what is done: the
/// thread that is shown is put by. `is_dir` says whether the project's folder is still there, and
/// `repo` what the repository in it is like.
pub open spec fn project_entered(
    a: AppModel,
    path: Seq<char>,
    name: Seq<char>,
    is_dir: bool,
    repo: SnapshotModel,
) -> (AppModel, Seq<EffectModel>) {
    if !is_dir {
        (picker_told(closed(a), "That saved project folder is missing."@), closing())
    } else if !repo.is_repository {
        (
            picker_told(closed(a), "That saved folder is no longer a Git repository."@),
            saving(a) + closing(),
        )
    } else {
        (
            AppModel {
                project: OpenModel { open: true, root: path, path, name, repo },
                surface: reconciled(a.surface, true),
                ..a
            },
            saving(a),
        )
    }
}

/// The application after a project was forgotten, and what is done.
pub open spec fn forgotten(a: AppModel, path: Seq<char>) -> (AppModel, Seq<EffectModel>) {
    if a.project.root == path {
        (closed(a), closing() + loading(a))
    } else {
        (a, loading(a))
    }
}

impl RodeApp {
    /// See [`choosing`].
    pub fn open_folder_picker(&mut self) -> (r: Vec<Effect>)
        ensures
            final(self)@ == choosing(old(self)@).0,
            views(r@) == choosing(old(self)@).1,
            old(self).wf() ==> final(self).wf(),
    {
        self.surface.show_create_menu = false;
        let repair = text::copy_opt(&self.picker.repairing);
        self.picker.repairing = None;
        self.picker.selection = ProjectSelectionState::ChoosingFolder;
        self.picker.error = None;
        one(Effect::PickFolder { repair })
    }

    /// Chooses a folder for a project of its own.
    pub fn browse_project_folder(&mut self) -> (r: Vec<Effect>)
        ensures
            ({
                let a = AppModel {
                    picker: PickerModel { repairing: None, ..old(self)@.picker },
                    ..old(self)@
                };
                final(self)@ == choosing(a).0 && views(r@) == choosing(a).1
            }),
            (final(self)@, views(r@)) == browsing(old(self)@),
            old(self).wf() ==> final(self).wf(),
    {
        self.picker.repairing = None;
        self.open_folder_picker()
    }

    /// Chooses a folder for a project that is known.
    pub fn repair_project(&mut self, path: String) -> (r: Vec<Effect>)
        ensures
            ({
                let a = AppModel {
                    picker: PickerModel { repairing: Some(path@), ..old(self)@.picker },
                    ..old(self)@
                };
                final(self)@ == choosing(a).0 && views(r@) == choosing(a).1
            }),
            (final(self)@, views(r@)) == repair_begun(old(self)@, path@),
            old(self).wf() ==> final(self).wf(),
    {
        self.picker.repairing = Some(path);
        self.open_folder_picker()
    }

    /// See [`chosen`].
    pub fn folder_chosen(&mut self, choice: FolderChoice, repair: Option<String>) -> (r: Vec<Effect>)
        ensures
            final(self)@ == chosen(old(self)@, choice@, opt_view(repair)).0,
            views(r@) == chosen(old(self)@, choice@, opt_view(repair)).1,
            old(self).wf() ==> final(self).wf(),
    {
        broadcast use views_index;

        match choice {
            FolderChoice::Chosen(paths) => if paths.len() > 0 {
                self.validate_project_selection(paths[0].clone(), repair)
            } else {
                nothing()
            },
            FolderChoice::Dismissed => {
                self.picker.selection = ProjectSelectionState::Idle;
                nothing()
            },
            FolderChoice::Failed(error) => {
                self.picker.selection = ProjectSelectionState::Idle;
                self.picker.error = Some(
                    text::concat("Could not open the folder picker: ", error.as_str()),
                );
                nothing()
            },
            FolderChoice::Lost => {
                self.picker.selection = ProjectSelectionState::Idle;
                self.picker.error = Some(
                    "The desktop folder picker closed unexpectedly.".to_owned(),
                );
                nothing()
            },
        }
    }

    /// Takes note of what was found in a folder, and says whether that still counts. See
    /// [`looked`].
    pub fn project_validated(&mut self, generation: u64, error: Option<String>) -> (counts: bool)
        ensures
            final(self)@ == looked(old(self)@, generation, opt_view(error)),
            counts == (old(self)@.picker.generation == generation),
            old(self).wf() ==> final(self).wf(),
    {
        if self.picker.generation != generation {
            return false;
        }
        self.picker.selection = ProjectSelectionState::Idle;
        if let Some(error) = error {
            self.picker.error = Some(error);
        }
        true
    }

    /// Chooses no folder any more; what comes of one that is looked into is not heeded.
    pub fn cancel_selection(&mut self)
        ensures
            final(self)@ == (if old(self)@.picker.selection is Idle {
                old(self)@
            } else {
                AppModel {
                    picker: PickerModel {
                        generation: next_generation(old(self)@.picker.generation),
                        selection: SelectionModel::Idle,
                        repairing: None,
                        ..old(self)@.picker
                    },
                    ..old(self)@
                }
            }),
            final(self)@ == selection_ended(old(self)@),
            old(self).wf() ==> final(self).wf(),
    {
        let idle = match &self.picker.selection {
            ProjectSelectionState::Idle => true,
            _ => false,
        };
        if !idle {
            self.picker.generation = self.picker.generation.wrapping_add(1);
            self.picker.selection = ProjectSelectionState::Idle;
            self.picker.repairing = None;
        }
    }

    /// What is to be kept of a project that is opened. See [`plan_of`] and [`planned`]. What
    /// stands in the thread that is shown was put by before, and what is known was loaded.
    pub fn plan_project(&mut self, project: &ValidatedProject, repair: &Option<String>) -> (r: OpenPlan)
        ensures
            r@ == plan_of(old(self)@, project@, opt_view(*repair)),
            final(self)@ == planned(old(self)@, r@),
            old(self).wf() ==> final(self).wf(),
    {
        let known = find_project(&self.known.projects, project.root.as_str()).is_some();
        match repair {
            Some(old_path) => {
                if known && !text::same(project.root.as_str(), old_path.as_str()) {
                    self.picker.error = Some(
                        "That repository is already in Recent projects. Open it directly instead.".to_owned(),
                    );
                    return OpenPlan::Refused;
                }
                if self.known.has_store {
                    OpenPlan::Repair {
                        old_path: old_path.clone(),
                        new_path: project.root.clone(),
                        name: project.name.clone(),
                    }
                } else {
                    OpenPlan::Keep
                }
            },
            None => if !known && self.known.has_store {
                OpenPlan::Save { path: project.root.clone(), name: project.name.clone() }
            } else {
                OpenPlan::Keep
            },
        }
    }

    /// Says why a project could not be kept.
    pub fn project_not_saved(&mut self, error: &str)
        ensures
            final(self)@ == picker_told(old(self)@, "Could not save the project: "@ + error@),
            old(self).wf() ==> final(self).wf(),
    {
        self.picker.error = Some(text::concat("Could not save the project: ", error));
    }

    /// See [`project_opened`].
    pub fn open_validated_project(&mut self, project: ValidatedProject, repo: RepoSnapshot) -> (r: Vec<
        Effect,
    >)
        ensures
            final(self)@ == project_opened(old(self)@, project@, repo@).0,
            views(r@) == project_opened(old(self)@, project@, repo@).1,
            old(self).wf() ==> final(self).wf(),
    {
        broadcast use views_index;

        if !repo.is_repository {
            let effects = self.close_project();
            self.picker.error = Some(
                "Git validation changed while opening the project. Try again.".to_owned(),
            );
            return effects;
        }
        self.project.name = match find_project(&self.known.projects, project.root.as_str()) {
            Some(i) => self.known.projects[i].name.clone(),
            None => project.name,
        };
        self.project.root = repo.root.clone();
        self.project.path = project.root;
        self.project.repo = repo;
        self.project.open = true;
        self.picker.error = None;
        nothing()
    }

    /// See [`project_arrived`].
    pub fn arrive_in_project(
        &mut self,
        restored: &Option<String>,
        workspace_is_dir: bool,
        repo: RepoSnapshot,
        fresh_id: &str,
    ) -> (r: Vec<Effect>)
        requires
            old(self).wf(),
        ensures
            ({
                let next = project_arrived(
                    old(self)@,
                    opt_view(*restored),
                    workspace_is_dir,
                    repo@,
                    fresh_id@,
                );
                final(self)@ == next.0 && views(r@) == next.1
            }),
            final(self).wf(),
    {
        if !self.project.open {
            return nothing();
        }
        match restored {
            Some(id) => {
                self.project.open = false;
                self.switch_thread(id.as_str(), workspace_is_dir, repo)
            },
            None => {
                let keep = self.save_active_project();
                let begin = self.start_new_thread(fresh_id, repo);
                followed_by(keep, begin)
            },
        }
    }

    /// See [`project_entered`].
    pub fn new_thread_in_project(
        &mut self,
        project_path: String,
        project_name: String,
        is_dir: bool,
        repo: RepoSnapshot,
    ) -> (r: Vec<Effect>)
        ensures
            final(self)@ == project_entered(
                old(self)@,
                project_path@,
                project_name@,
                is_dir,
                repo@,
            ).0,
            views(r@) == project_entered(old(self)@, project_path@, project_name@, is_dir, repo@).1,
            old(self).wf() ==> final(self).wf(),
    {
        if !is_dir {
            let effects = self.close_project();
            self.picker.error = Some("That saved project folder is missing.".to_owned());
            return effects;
        }
        let save = self.persist_current_thread();
        if !repo.is_repository {
            let effects = self.close_project();
            self.picker.error = Some(
                "That saved folder is no longer a Git repository.".to_owned(),
            );
            return followed_by(save, effects);
        }
        self.project.root = project_path.clone();
        self.project.path = project_path;
        self.project.name = project_name;
        self.project.repo = repo;
        self.project.open = true;
        self.surface.reconcile_project_route(true);
        save
    }

    /// Forgets a project: first in the store, where there is one.
    pub fn remove_project(&mut self, path: &str) -> (r: Vec<Effect>)
        ensures
            (final(self)@, views(r@)) == (if old(self)@.known.has_store {
                (old(self)@, seq![EffectModel::RemoveProject(path@)])
            } else {
                forgotten(old(self)@, path@)
            }),
            (final(self)@, views(r@)) == removal_asked(old(self)@, path@),
            old(self).wf() ==> final(self).wf(),
    {
        if self.known.has_store {
            one(Effect::RemoveProject(path.to_owned()))
        } else {
            self.project_removed(path)
        }
    }

    /// See [`forgotten`].
    pub fn project_removed(&mut self, path: &str) -> (r: Vec<Effect>)
        ensures
            final(self)@ == forgotten(old(self)@, path@).0,
            views(r@) == forgotten(old(self)@, path@).1,
            old(self).wf() ==> final(self).wf(),
    {
        if text::same(self.project.root.as_str(), path) {
            let close = self.close_project();
            followed_by(close, self.known.refresh_known_state())
        } else {
            self.known.refresh_known_state()
        }
    }

    /// Says why a project could not be forgotten.
    pub fn project_not_removed(&mut self, error: &str)
        ensures
            final(self)@ == picker_told(old(self)@, "Could not remove the project: "@ + error@),
            old(self).wf() ==> final(self).wf(),
    {
        self.picker.error = Some(text::concat("Could not remove the project: ", error));
    }
}

/// What comes of a folder after the user turned away from it is not heeded.
pub proof fn late_folders_are_not_heeded(a: AppModel, path: Seq<char>, other: Seq<char>, error: Option<Seq<char>>)
    ensures
        ({
            let b = validating(a, path);
            let c = validating(b, other);
            looked(c, b.picker.generation, error) == c
        }),
{
}

/// A project never takes the place of another that is known.
pub proof fn repairs_do_not_merge_projects(a: AppModel, project: ValidatedModel, old_path: Seq<char>)
    requires
        project_at(a.known.projects, project.root, 0) is Some,
        project.root != old_path,
    ensures
        plan_of(a, project, Some(old_path)) is Refused,
        planned(a, plan_of(a, project, Some(old_path))).picker.error is Some,
        planned(a, plan_of(a, project, Some(old_path))).project == a.project,
{
}

/// A project is open only where there is a repository, whichever way it was opened.
pub proof fn open_projects_are_repositories(
    a: AppModel,
    project: ValidatedModel,
    path: Seq<char>,
    name: Seq<char>,
    is_dir: bool,
    repo: SnapshotModel,
)
    ensures
        project_opened(a, project, repo).0.project.open == repo.is_repository,
        project_entered(a, path, name, is_dir, repo).0.project.open == (is_dir
            && repo.is_repository),
        !repo.is_repository ==> project_opened(a, project, repo).0.picker.error is Some,
{
}

/// A project that is forgotten is not shown any more.
pub proof fn forgotten_projects_are_closed(a: AppModel, path: Seq<char>)
    requires
        path.len() > 0,
    ensures
        forgotten(a, path).0.project.root != path,
        a.project.root != path ==> forgotten(a, path).0 == a,
{
}

/// The user is asked for a folder, once: for a project of its own, or for the project that is put
/// right and no other. The first folder that they choose is the one that is looked into, for that
/// same project, and nothing is done for a choice that is none.
pub proof fn the_folder_chosen_is_looked_into(
    a: AppModel,
    project: Seq<char>,
    paths: Seq<Seq<char>>,
    repair: Option<Seq<char>>,
    error: Seq<char>,
)
    requires
        paths.len() > 0,
    ensures
        browsing(a).1 == seq![EffectModel::PickFolder { repair: None }],
        repair_begun(a, project).1 == seq![EffectModel::PickFolder { repair: Some(project) }],
        browsing(a).0.picker.selection is ChoosingFolder,
        repair_begun(a, project).0.picker.selection is ChoosingFolder,
        browsing(a).0.project == a.project && repair_begun(a, project).0.project == a.project,
        ({
            let (b, effects) = chosen(a, ChoiceModel::Chosen(paths), repair);
            &&& b.picker.selection == SelectionModel::Validating(paths[0])
            &&& b.picker.error is None
            &&& b.picker.generation != a.picker.generation
            &&& b.project == a.project
            &&& effects == seq![
                EffectModel::ValidateProject {
                    generation: b.picker.generation,
                    path: paths[0],
                    repair,
                },
            ]
        }),
        ({
            let (b, effects) = chosen(a, ChoiceModel::Dismissed, repair);
            b.picker.selection is Idle && b.picker.error == a.picker.error && effects.len() == 0
        }),
        ({
            let (b, effects) = chosen(a, ChoiceModel::Failed(error), repair);
            &&& b.picker.selection is Idle
            &&& b.picker.error is Some
            &&& has_part(b.picker.error->0, error)
            &&& effects.len() == 0
        }),
        ({
            let (b, effects) = chosen(a, ChoiceModel::Lost, repair);
            b.picker.selection is Idle && b.picker.error is Some && effects.len() == 0
        }),
{
    let none = Seq::<char>::empty();
    let before = "Could not open the folder picker: "@;
    assert(before + error + none =~= before + error);
    parts_are_held(before, error, none);
}

/// What was found wrong with the folder that is looked into is said as it was told, and the
/// choice is over; a folder that the user turned away from is not heeded any more.
pub proof fn findings_are_told(a: AppModel, error: Seq<char>)
    ensures
        ({
            let b = looked(a, a.picker.generation, Some(error));
            &&& b.picker.error == Some(error)
            &&& b.picker.selection is Idle
            &&& b.project == a.project
        }),
        ({
            let b = looked(a, a.picker.generation, None);
            b.picker.error == a.picker.error && b.picker.selection is Idle
        }),
        !(a.picker.selection is Idle) ==> ({
            let b = selection_ended(a);
            &&& b.picker.selection is Idle
            &&& b.picker.repairing is None
            &&& b.project == a.project
            &&& looked(b, a.picker.generation, Some(error)) == b
        }),
        a.picker.selection is Idle ==> selection_ended(a) == a,
{
}

/// A project is kept under the root and the name that were found: anew where it is not known,
/// in the place of the one that is put right, and not at all where it is known already or
/// nothing can be kept.
pub proof fn projects_are_kept_where_they_are(a: AppModel, project: ValidatedModel, old_path: Seq<char>)
    requires
        a.known.has_store,
    ensures
        (forall|k: int|
            0 <= k < a.known.projects.len() ==> (#[trigger] a.known.projects[k]).path
                != project.root) ==> plan_of(a, project, None) == (PlanModel::Save {
            path: project.root,
            name: project.name,
        }) && plan_of(a, project, Some(old_path)) == (PlanModel::Repair {
            old_path,
            new_path: project.root,
            name: project.name,
        }),
        (exists|k: int|
            0 <= k < a.known.projects.len() && (#[trigger] a.known.projects[k]).path
                == project.root) ==> plan_of(a, project, None) is Keep,
        plan_of(a, project, Some(project.root)) == (PlanModel::Repair {
            old_path: project.root,
            new_path: project.root,
            name: project.name,
        }),
        plan_of(a, project, None) !is Refused,
        planned(a, plan_of(a, project, None)) == a,
        plan_of(AppModel { known: KnownModel { has_store: false, ..a.known }, ..a }, project, None)
            is Keep,
{
    if forall|k: int|
        0 <= k < a.known.projects.len() ==> (#[trigger] a.known.projects[k]).path != project.root {
        unknown_projects_are_not_found(a.known.projects, project.root, 0);
    }
    if exists|k: int|
        0 <= k < a.known.projects.len() && (#[trigger] a.known.projects[k]).path == project.root {
        let k = choose|k: int|
            0 <= k < a.known.projects.len() && (#[trigger] a.known.projects[k]).path
                == project.root;
        known_projects_are_found(a.known.projects, project.root, 0, k);
    }
}

proof fn unknown_projects_are_not_found(projects: Seq<ProjectModel>, path: Seq<char>, from: int)
    requires
        0 <= from <= projects.len(),
        forall|k: int| 0 <= k < projects.len() ==> (#[trigger] projects[k]).path != path,
    ensures
        project_at(projects, path, from) is None,
    decreases projects.len() - from,
{
    if from < projects.len() {
        assert(projects[from].path != path);
        unknown_projects_are_not_found(projects, path, from + 1);
    }
}

proof fn known_projects_are_found(projects: Seq<ProjectModel>, path: Seq<char>, from: int, k: int)
    requires
        0 <= from <= k < projects.len(),
        projects[k].path == path,
    ensures
        project_at(projects, path, from) is Some,
    decreases k - from,
{
    if projects[from].path != path {
        known_projects_are_found(projects, path, from + 1, k);
    }
}

/// The project that is opened is the one that was found: at its root, with the repository as it
/// is by now, under the name that the user knows it by, or else the one that was found. What is
/// shown of threads does not change by that.
pub proof fn the_project_found_is_opened(
    a: AppModel,
    project: ValidatedModel,
    repo: SnapshotModel,
    i: int,
)
    requires
        repo.is_repository,
    ensures
        ({
            let (b, effects) = project_opened(a, project, repo);
            &&& b.project.open
            &&& b.project.path == project.root
            &&& b.project.root == repo.root
            &&& b.project.repo == repo
            &&& b.picker.error is None
            &&& b.thread == a.thread
            &&& b.turn == a.turn
            &&& b.known == a.known
            &&& effects.len() == 0
            &&& (forall|k: int|
                0 <= k < a.known.projects.len() ==> (#[trigger] a.known.projects[k]).path
                    != project.root) ==> b.project.name == project.name
            &&& 0 <= i < a.known.projects.len() && a.known.projects[i].path == project.root && (
            forall|k: int|
                0 <= k < i ==> (#[trigger] a.known.projects[k]).path != project.root)
                ==> b.project.name == a.known.projects[i].name
        }),
{
    if forall|k: int|
        0 <= k < a.known.projects.len() ==> (#[trigger] a.known.projects[k]).path != project.root {
        unknown_projects_are_not_found(a.known.projects, project.root, 0);
    }
    if 0 <= i < a.known.projects.len() && a.known.projects[i].path == project.root && (forall|
        k: int,
    |
        0 <= k < i ==> (#[trigger] a.known.projects[k]).path != project.root) {
        first_project_is_found(a.known.projects, project.root, 0, i);
    }
}

/// In a project that was opened the thread of the last time is shown again, where there was one
/// and its repository is there, and else a new one; without a project nothing happens.
pub proof fn work_goes_on_where_it_was_left(
    a: AppModel,
    i: int,
    is_dir: bool,
    repo: SnapshotModel,
    fresh: Seq<char>,
)
    requires
        0 <= i < a.known.threads.len(),
        forall|k: int| 0 <= k < i ==> (#[trigger] a.known.threads[k]).id != a.known.threads[i].id,
        a.thread.id != a.known.threads[i].id,
        repo.is_repository,
    ensures
        a.project.open ==> ({
            let b = project_arrived(a, Some(a.known.threads[i].id), is_dir, repo, fresh).0;
            &&& b.thread.id == a.known.threads[i].id
            &&& b.turn.provider_thread_id == a.known.threads[i].provider_thread_id
            &&& b.project.open
            &&& b.project.root == a.known.threads[i].project_path
        }),
        a.project.open && a.project.repo.is_repository ==> ({
            let b = project_arrived(a, None, is_dir, repo, fresh).0;
            &&& b.thread.id == fresh
            &&& b.turn.provider_thread_id is None
            &&& b.project.open
            &&& b.project.root == a.project.root
        }),
        !a.project.open ==> project_arrived(a, Some(a.known.threads[i].id), is_dir, repo, fresh).0
            == a && project_arrived(a, None, is_dir, repo, fresh).0 == a,
{
    first_thread_is_found(a.known.threads, a.known.threads[i].id, 0, i);
}

/// A project that the user goes to is the one that is open, at its folder and under its name, and
/// the thread that was shown before is kept; one whose folder or repository is gone is not
/// opened, and that is said.
pub proof fn the_project_gone_to_is_open(
    a: AppModel,
    path: Seq<char>,
    name: Seq<char>,
    repo: SnapshotModel,
)
    ensures
        repo.is_repository ==> ({
            let (b, effects) = project_entered(a, path, name, true, repo);
            &&& b.project.open
            &&& b.project.root == path
            &&& b.project.path == path
            &&& b.project.name == name
            &&& b.project.repo == repo
            &&& b.thread == a.thread
            &&& effects == saving(a)
        }),
        !repo.is_repository ==> ({
            let (b, effects) = project_entered(a, path, name, true, repo);
            &&& !b.project.open
            &&& b.picker.error is Some
            &&& !b.turn.session
            &&& effects == saving(a) + seq![EffectModel::EndSession, EffectModel::CloseTerminals]
        }),
        ({
            let (b, effects) = project_entered(a, path, name, false, repo);
            &&& !b.project.open
            &&& b.picker.error is Some
            &&& !b.turn.session
            &&& effects == seq![EffectModel::EndSession, EffectModel::CloseTerminals]
        }),
{
    assert(closing() =~= seq![EffectModel::EndSession, EffectModel::CloseTerminals]);
}

/// The project that the user asks to forget is forgotten in the store first, where there is one,
/// and what is shown stays until then. Once it is forgotten, what is known is loaded again, and
/// the project and what runs in it are closed if it was the one that is open.
pub proof fn the_project_asked_for_is_forgotten(a: AppModel, path: Seq<char>)
    ensures
        a.known.has_store ==> removal_asked(a, path) == (a, seq![EffectModel::RemoveProject(path)]),
        !a.known.has_store && a.project.root == path ==> !removal_asked(a, path).0.project.open,
        a.known.has_store && a.project.root != path ==> forgotten(a, path) == (
            a,
            seq![EffectModel::LoadKnown],
        ),
        a.known.has_store && a.project.root == path ==> ({
            let (b, effects) = forgotten(a, path);
            &&& !b.project.open
            &&& !b.turn.session
            &&& !b.turn.running
            &&& effects == seq![
                EffectModel::EndSession,
                EffectModel::CloseTerminals,
                EffectModel::LoadKnown,
            ]
        }),
{
    assert(closing() + loading(a) =~= if a.known.has_store {
        seq![EffectModel::EndSession, EffectModel::CloseTerminals, EffectModel::LoadKnown]
    } else {
        closing()
    });
}

} // verus!
