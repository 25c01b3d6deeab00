//! The listing of all projects: every file of the content directory becomes
//! a project, and the projects are put in order, the newest first.

use vstd::prelude::*;
use crate::error::{AppError, AppErrorView};
use crate::matter::{document_of, optional_text, Document};
use crate::project::{
    lemma_listed_before_irreflexive,
    lemma_listed_before_total,
    lemma_listed_before_transitive,
    project_of,
    project_views,
    Project,
    ProjectView,
};
use crate::source::{identifier_for, identifier_of};

verus! {

/// One entry of the content directory, as it was found there.
#[derive(Clone, Debug, PartialEq, Eq)]
pub struct ContentFile {
    /// The name of the entry in the directory.
    pub file_name: String,
    /// What the file holds; `None` where it could not be read.
    pub text: Option<String>,
}

/// A `ContentFile` in sequences of characters.
pub struct ContentFileView {
    pub file_name: Seq<char>,
    pub text: Option<Seq<char>>,
}

impl View for ContentFile {
    type V = ContentFileView;

    open spec fn view(&self) -> ContentFileView {
        ContentFileView { file_name: self.file_name@, text: optional_text(self.text) }
    }
}

/// The views of a run of content files, in their order.
pub open spec fn file_views(files: Seq<ContentFile>) -> Seq<ContentFileView> {
    files.map_values(|file: ContentFile| file@)
}

/// The entries of a directory that may not have been readable.
pub open spec fn directory_view(directory: Option<Vec<ContentFile>>) -> Option<Seq<ContentFileView>> {
    match directory {
        Some(files) => Some(file_views(files@)),
        None => None,
    }
}

impl ContentFileView {
    /// The project that the file holds, or why it holds none. A name without
    /// the ending of content files is malformed content under that name. A
    /// file that could not be read makes the content unavailable. A block
    /// that cannot be read, or that lacks what a project needs, is malformed
    /// content under the file's identifier.
    pub open spec fn project(self) -> Result<ProjectView, AppErrorView> {
        match identifier_for(self.file_name) {
            None => Err(AppErrorView::MalformedContent(self.file_name)),
            Some(identifier) => match self.text {
                None => Err(AppErrorView::ContentUnavailable),
                Some(text) => match document_of(text) {
                    None => Err(AppErrorView::MalformedContent(identifier)),
                    Some(document) => match project_of(identifier, document.matter) {
                        None => Err(AppErrorView::MalformedContent(identifier)),
                        Some(project) => Ok(project),
                    },
                },
            },
        }
    }
}

impl ContentFile {
    /// Makes the project that the file holds.
    pub fn load(&self) -> (loaded: Result<Project, AppError>)
        ensures
            loaded is Ok <==> self@.project() is Ok,
            loaded matches Ok(project) ==> self@.project() == Ok::<ProjectView, AppErrorView>(
                project@,
            ),
            loaded matches Err(error) ==> self@.project() == Err::<ProjectView, AppErrorView>(
                error@,
            ),
    {
        match identifier_of(self.file_name.as_str()) {
            None => Err(AppError::MalformedContent(self.file_name.clone())),
            Some(identifier) => match &self.text {
                None => Err(AppError::ContentUnavailable),
                Some(text) => match Document::parse(text.as_str()) {
                    None => Err(AppError::MalformedContent(identifier)),
                    Some(document) => Project::from_matter(identifier, document.matter),
                },
            },
        }
    }
}

/// Where `project` goes among `listed`, which is in order: behind the last
/// project that it does not stand before.
pub open spec fn listed_place(listed: Seq<ProjectView>, project: ProjectView) -> int
    decreases listed.len(),
{
    if listed.len() > 0 && project.listed_before(listed.last()) {
        listed_place(listed.drop_last(), project)
    } else {
        listed.len() as int
    }
}

/// The projects in the order of a listing: each in turn is put in its place
/// among those before it.
pub open spec fn listing_order(projects: Seq<ProjectView>) -> Seq<ProjectView>
    decreases projects.len(),
{
    if projects.len() == 0 {
        Seq::empty()
    } else {
        let listed = listing_order(projects.drop_last());
        listed.insert(listed_place(listed, projects.last()), projects.last())
    }
}

/// Whether the projects stand in the order of a listing: none stands before
/// one that precedes it.
pub open spec fn in_listing_order(projects: Seq<ProjectView>) -> bool {
    forall|i: int, j: int|
        0 <= i < j < projects.len() ==> !(#[trigger] projects[j]).listed_before(
            #[trigger] projects[i],
        )
}

/// Puts `project` in its place among `listed`.
pub fn insert_listed(listed: &mut Vec<Project>, project: Project)
    ensures
        project_views(final(listed)@) == project_views(old(listed)@).insert(
            listed_place(project_views(old(listed)@), project@),
            project@,
        ),
{
    let ghost given = project_views(listed@);
    let mut at: usize = listed.len();
    assert(given.take(at as int) =~= given);
    while at > 0 && project.listed_before(&listed[at - 1])
        invariant
            at <= listed.len(),
            given == project_views(listed@),
            listed_place(given, project@) == listed_place(given.take(at as int), project@),
        decreases at,
    {
        assert(given.take(at as int).drop_last() =~= given.take(at - 1));
        at = at - 1;
    }
    listed.insert(at, project);
    assert(project_views(listed@) =~= given.insert(at as int, project@));
}

/// Puts the projects in the order of a listing: the newest first, none
/// dropped and none added.
pub fn sort_projects(projects: Vec<Project>) -> (listed: Vec<Project>)
    ensures
        project_views(listed@) == listing_order(project_views(projects@)),
        in_listing_order(project_views(listed@)),
        project_views(listed@).to_multiset() == project_views(projects@).to_multiset(),
        listed.len() == projects.len(),
{
    let ghost given = project_views(projects@);
    let mut listed: Vec<Project> = Vec::new();
    for project in walk: projects
        invariant
            project_views(walk.seq()) == given,
            project_views(listed@) == listing_order(given.take(walk.index())),
    {
        assert(given.take(walk.index() + 1).drop_last() =~= given.take(walk.index()));
        insert_listed(&mut listed, project);
    }
    proof {
        assert(given.take(given.len() as int) =~= given);
        lemma_listing_in_order(given);
        lemma_listing_keeps_projects(given);
    }
    listed
}

/// Why the first file that holds no project holds none; `None` where every
/// file holds one.
pub open spec fn first_failure(files: Seq<ContentFileView>) -> Option<AppErrorView>
    decreases files.len(),
{
    if files.len() == 0 {
        None
    } else {
        match first_failure(files.drop_last()) {
            Some(error) => Some(error),
            None => match files.last().project() {
                Err(error) => Some(error),
                Ok(_) => None,
            },
        }
    }
}

/// The project of each file, in the order of the files.
pub open spec fn loaded_projects(files: Seq<ContentFileView>) -> Seq<ProjectView> {
    files.map_values(|file: ContentFileView| file.project()->Ok_0)
}

/// The listing that a content directory gives. A directory that could not be
/// read makes the content unavailable. One file without a project fails the
/// whole listing, with the reason of the first such file. Else the listing
/// holds the project of every file, in the order of a listing.
pub open spec fn listing_of(directory: Option<Seq<ContentFileView>>) -> Result<
    Seq<ProjectView>,
    AppErrorView,
> {
    match directory {
        None => Err(AppErrorView::ContentUnavailable),
        Some(files) => match first_failure(files) {
            Some(error) => Err(error),
            None => Ok(listing_order(loaded_projects(files))),
        },
    }
}

/// Lists all projects, the newest first. `directory` holds the entries of
/// the content directory as they were found, or `None` where the directory
/// could not be read.
pub fn get_projects(directory: Option<Vec<ContentFile>>) -> (listing: Result<Vec<Project>, AppError>)
    ensures
        listing is Ok <==> listing_of(directory_view(directory)) is Ok,
        listing matches Ok(projects) ==> listing_of(directory_view(directory)) == Ok::<
            Seq<ProjectView>,
            AppErrorView,
        >(project_views(projects@)),
        listing matches Err(error) ==> listing_of(directory_view(directory)) == Err::<
            Seq<ProjectView>,
            AppErrorView,
        >(error@),
        listing is Ok <==> (directory matches Some(files) && forall|i: int|
            0 <= i < files.len() ==> (#[trigger] files[i])@.project() is Ok),
        listing matches Ok(projects) ==> in_listing_order(project_views(projects@))
            && projects.len() == directory->0.len(),
        directory is None ==> (listing matches Err(error) && error@ is ContentUnavailable),
{
    let files = match directory {
        Some(files) => files,
        None => {
            return Err(AppError::ContentUnavailable);
        },
    };
    let ghost given = file_views(files@);
    let mut projects: Vec<Project> = Vec::new();
    let mut at: usize = 0;
    assert(given.take(0) =~= Seq::<ContentFileView>::empty());
    while at < files.len()
        invariant
            at <= files.len(),
            given == file_views(files@),
            directory_view(directory) == Some(given),
            first_failure(given.take(at as int)) is None,
            project_views(projects@) == loaded_projects(given.take(at as int)),
        decreases files.len() - at,
    {
        assert(given.take(at + 1).drop_last() =~= given.take(at as int));
        assert(given.take(at + 1).last() == files[at as int]@);
        let ghost before = project_views(projects@);
        match files[at].load() {
            Ok(project) => {
                projects.push(project);
                assert(project_views(projects@) =~= before.push(project@));
                assert(loaded_projects(given.take(at + 1)) =~= loaded_projects(
                    given.take(at as int),
                ).push(project@));
            },
            Err(error) => {
                proof {
                    lemma_failure_stays(given, at + 1);
                    assert(!(files[at as int]@.project() is Ok));
                }
                return Err(error);
            },
        }
        at = at + 1;
    }
    proof {
        assert(given.take(at as int) =~= given);
        lemma_first_failure(given);
        assert forall|i: int| 0 <= i < files.len() implies (#[trigger] files[i])@.project() is Ok by {
            assert(given[i].project() is Ok);
        }
    }
    Ok(sort_projects(projects))
}

/// A failure among the first `count` files is the failure of all of them.
proof fn lemma_failure_stays(files: Seq<ContentFileView>, count: int)
    requires
        0 <= count <= files.len(),
        first_failure(files.take(count)) is Some,
    ensures
        first_failure(files) == first_failure(files.take(count)),
    decreases files.len() - count,
{
    if count < files.len() {
        assert(files.take(count + 1).drop_last() =~= files.take(count));
        lemma_failure_stays(files, count + 1);
    } else {
        assert(files.take(count) =~= files);
    }
}

/// A listing fails as soon as one file holds no project, and with the reason
/// of the first such file; no file is passed over.
pub proof fn lemma_first_failure(files: Seq<ContentFileView>)
    ensures
        first_failure(files) is None <==> forall|i: int|
            0 <= i < files.len() ==> (#[trigger] files[i]).project() is Ok,
        first_failure(files) matches Some(error) ==> exists|i: int|
            0 <= i < files.len() && (#[trigger] files[i]).project() == Err::<
                ProjectView,
                AppErrorView,
            >(error) && forall|j: int| 0 <= j < i ==> (#[trigger] files[j]).project() is Ok,
    decreases files.len(),
{
    if files.len() > 0 {
        let front = files.drop_last();
        lemma_first_failure(front);
        assert forall|i: int| 0 <= i < front.len() implies front[i] == files[i] by {}
        match first_failure(front) {
            Some(error) => {
                let i = choose|i: int|
                    0 <= i < front.len() && (#[trigger] front[i]).project() == Err::<
                        ProjectView,
                        AppErrorView,
                    >(error) && forall|j: int| 0 <= j < i ==> (#[trigger] front[j]).project() is Ok;
                assert(files[i].project() == Err::<ProjectView, AppErrorView>(error));
                assert forall|j: int| 0 <= j < i implies (#[trigger] files[j]).project() is Ok by {
                    assert(front[j].project() is Ok);
                }
            },
            None => {
                assert forall|j: int| 0 <= j < files.len() - 1 implies (
                #[trigger] files[j]).project() is Ok by {
                    assert(front[j].project() is Ok);
                }
                if files.last().project() is Err {
                    let last = files.len() - 1;
                    assert(files[last].project() == Err::<ProjectView, AppErrorView>(
                        files.last().project()->Err_0,
                    ));
                } else {
                    assert forall|j: int| 0 <= j < files.len() implies (
                    #[trigger] files[j]).project() is Ok by {
                        if j < files.len() - 1 {
                            assert(front[j].project() is Ok);
                        }
                    }
                }
            },
        }
    }
}

/// Where a project stands before neither a second one, nor the second
/// before a third, the first does not stand before the third.
proof fn lemma_not_before_transitive(first: ProjectView, second: ProjectView, third: ProjectView)
    requires
        !first.listed_before(second),
        !second.listed_before(third),
    ensures
        !first.listed_before(third),
{
    if first.listed_before(third) {
        if second.listed_before(first) {
            lemma_listed_before_transitive(second, first, third);
        } else {
            lemma_listed_before_total(first, second);
        }
    }
}

/// The place of a project parts the listing: the project stands before all
/// that follows its place, and not before what precedes it.
pub proof fn lemma_listed_place(listed: Seq<ProjectView>, project: ProjectView)
    ensures
        0 <= listed_place(listed, project) <= listed.len(),
        forall|j: int|
            listed_place(listed, project) <= j < listed.len() ==> project.listed_before(
                #[trigger] listed[j],
            ),
        listed_place(listed, project) > 0 ==> !project.listed_before(
            listed[listed_place(listed, project) - 1],
        ),
    decreases listed.len(),
{
    if listed.len() > 0 && project.listed_before(listed.last()) {
        let front = listed.drop_last();
        lemma_listed_place(front, project);
        assert forall|j: int| listed_place(listed, project) <= j < listed.len() implies {
            project.listed_before(#[trigger] listed[j])
        } by {
            if j < front.len() {
                assert(project.listed_before(front[j]));
            }
        }
        if listed_place(listed, project) > 0 {
            assert(front[listed_place(listed, project) - 1] == listed[listed_place(
                listed,
                project,
            ) - 1]);
        }
    }
}

/// A listing in order stays in order when a project is put in its place.
proof fn lemma_insert_in_order(listed: Seq<ProjectView>, project: ProjectView)
    requires
        in_listing_order(listed),
    ensures
        in_listing_order(listed.insert(listed_place(listed, project), project)),
{
    let place = listed_place(listed, project);
    let grown = listed.insert(place, project);
    lemma_listed_place(listed, project);
    assert forall|i: int, j: int| 0 <= i < j < grown.len() implies !(
    #[trigger] grown[j]).listed_before(#[trigger] grown[i]) by {
        if j == place {
            assert(grown[i] == listed[i]);
            if i < place - 1 {
                assert(!listed[place - 1].listed_before(listed[i]));
                lemma_not_before_transitive(project, listed[place - 1], listed[i]);
            }
        } else if i == place {
            assert(grown[j] == listed[j - 1]);
            assert(project.listed_before(listed[j - 1]));
            if listed[j - 1].listed_before(project) {
                lemma_listed_before_transitive(project, listed[j - 1], project);
                lemma_listed_before_irreflexive(project);
            }
        } else {
            let from = if i < place { i } else { i - 1 };
            let to = if j < place { j } else { j - 1 };
            assert(grown[i] == listed[from] && grown[j] == listed[to]);
            assert(!listed[to].listed_before(listed[from]));
        }
    }
}

/// Every listing is in order: no project stands before one that precedes
/// it. So the days of publication never rise along a listing.
pub proof fn lemma_listing_in_order(projects: Seq<ProjectView>)
    ensures
        in_listing_order(listing_order(projects)),
        forall|i: int, j: int|
            0 <= i < j < listing_order(projects).len() ==> !(#[trigger] listing_order(
                projects,
            )[i]).published_date.before((#[trigger] listing_order(projects)[j]).published_date),
    decreases projects.len(),
{
    if projects.len() > 0 {
        lemma_listing_in_order(projects.drop_last());
        lemma_insert_in_order(listing_order(projects.drop_last()), projects.last());
    }
    let listed = listing_order(projects);
    assert forall|i: int, j: int| 0 <= i < j < listed.len() implies !(
    #[trigger] listed[i]).published_date.before((#[trigger] listed[j]).published_date) by {
        assert(!listed[j].listed_before(listed[i]));
    }
}

/// A listing holds the projects it was made of, each as often as it was
/// given: none is dropped and none is added.
pub proof fn lemma_listing_keeps_projects(projects: Seq<ProjectView>)
    ensures
        listing_order(projects).to_multiset() == projects.to_multiset(),
        listing_order(projects).len() == projects.len(),
    decreases projects.len(),
{
    broadcast use vstd::seq_lib::group_to_multiset_ensures;

    if projects.len() > 0 {
        let front = projects.drop_last();
        let listed = listing_order(front);
        lemma_listing_keeps_projects(front);
        lemma_listed_place(listed, projects.last());
        vstd::seq_lib::to_multiset_insert(
            listed,
            listed_place(listed, projects.last()),
            projects.last(),
        );
        assert(projects =~= front.push(projects.last()));
        vstd::seq_lib::to_multiset_build(front, projects.last());
    }
}

/// Projects that stand in order are listed as they stand. So listing a
/// listing changes nothing.
pub proof fn lemma_listing_settled(projects: Seq<ProjectView>)
    requires
        in_listing_order(projects),
    ensures
        listing_order(projects) == projects,
    decreases projects.len(),
{
    if projects.len() > 0 {
        let front = projects.drop_last();
        assert forall|i: int, j: int| 0 <= i < j < front.len() implies !(
        #[trigger] front[j]).listed_before(#[trigger] front[i]) by {
            assert(!projects[j].listed_before(projects[i]));
        }
        lemma_listing_settled(front);
        if front.len() > 0 {
            assert(!projects[projects.len() - 1].listed_before(projects[front.len() - 1]));
            assert(front.last() == projects[front.len() - 1]);
        }
        assert(listed_place(front, projects.last()) == front.len());
        assert(front.insert(front.len() as int, projects.last()) =~= projects);
    } else {
        assert(projects =~= Seq::<ProjectView>::empty());
    }
}

/// Whether no two of the projects share an identifier.
pub open spec fn distinct_identifiers(projects: Seq<ProjectView>) -> bool {
    forall|i: int, j: int|
        0 <= i < j < projects.len() ==> (#[trigger] projects[i]).identifier != (
        #[trigger] projects[j]).identifier
}

/// Projects without a shared identifier keep that when they are rearranged.
proof fn lemma_rearranged_distinct(first: Seq<ProjectView>, second: Seq<ProjectView>)
    requires
        first.to_multiset() == second.to_multiset(),
        distinct_identifiers(first),
    ensures
        distinct_identifiers(second),
{
    assert(first.no_duplicates());
    first.lemma_multiset_has_no_duplicates();
    second.lemma_multiset_has_no_duplicates_conv();
    assert forall|i: int, j: int| 0 <= i < j < second.len() implies (
    #[trigger] second[i]).identifier != (#[trigger] second[j]).identifier by {
        assert(second.contains(second[i]) && second.contains(second[j]));
        vstd::seq_lib::to_multiset_contains(second, second[i]);
        vstd::seq_lib::to_multiset_contains(second, second[j]);
        vstd::seq_lib::to_multiset_contains(first, second[i]);
        vstd::seq_lib::to_multiset_contains(first, second[j]);
        assert(first.contains(second[i]) && first.contains(second[j]));
        let from = choose|k: int| 0 <= k < first.len() && first[k] == second[i];
        let to = choose|k: int| 0 <= k < first.len() && first[k] == second[j];
        assert(second[i] != second[j]);
        if from < to {
            assert(first[from].identifier != first[to].identifier);
        } else {
            assert(first[to].identifier != first[from].identifier);
        }
    }
}

/// Projects without a shared identifier can stand in order in one way only.
proof fn lemma_order_unique(first: Seq<ProjectView>, second: Seq<ProjectView>)
    requires
        in_listing_order(first),
        in_listing_order(second),
        first.to_multiset() == second.to_multiset(),
        distinct_identifiers(first),
    ensures
        first == second,
    decreases first.len(),
{
    assert(first.len() == second.len()) by {
        vstd::seq_lib::to_multiset_len(first);
        vstd::seq_lib::to_multiset_len(second);
    }
    if first.len() == 0 {
        assert(first =~= second);
    } else {
        assert(first.contains(first[0]) && second.contains(second[0]));
        vstd::seq_lib::to_multiset_contains(first, first[0]);
        vstd::seq_lib::to_multiset_contains(second, first[0]);
        vstd::seq_lib::to_multiset_contains(first, second[0]);
        vstd::seq_lib::to_multiset_contains(second, second[0]);
        assert(second.contains(first[0]) && first.contains(second[0]));
        let there = choose|k: int| 0 <= k < second.len() && second[k] == first[0];
        let here = choose|k: int| 0 <= k < first.len() && first[k] == second[0];
        if here > 0 {
            assert(!first[here].listed_before(first[0]));
            if there > 0 {
                assert(!second[there].listed_before(second[0]));
                lemma_listed_before_total(first[0], second[0]);
            }
            assert(first[0].identifier != first[here].identifier);
        }
        assert(first[0] == second[0]);
        let rest = first.drop_first();
        let other = second.drop_first();
        assert(rest =~= first.remove(0) && other =~= second.remove(0));
        assert(rest.to_multiset() == other.to_multiset()) by {
            vstd::seq_lib::to_multiset_remove(first, 0);
            vstd::seq_lib::to_multiset_remove(second, 0);
        }
        assert forall|i: int, j: int| 0 <= i < j < rest.len() implies !(
        #[trigger] rest[j]).listed_before(#[trigger] rest[i]) by {
            assert(!first[j + 1].listed_before(first[i + 1]));
        }
        assert forall|i: int, j: int| 0 <= i < j < other.len() implies !(
        #[trigger] other[j]).listed_before(#[trigger] other[i]) by {
            assert(!second[j + 1].listed_before(second[i + 1]));
        }
        assert forall|i: int, j: int| 0 <= i < j < rest.len() implies (
        #[trigger] rest[i]).identifier != (#[trigger] rest[j]).identifier by {
            assert(first[i + 1].identifier != first[j + 1].identifier);
        }
        lemma_order_unique(rest, other);
        assert(first =~= seq![first[0]] + rest);
        assert(second =~= seq![second[0]] + other);
    }
}

/// The listing does not depend on the order in which the directory gave its
/// files: the same projects, none of them sharing an identifier with
/// another, are listed in the same order however they were given.
pub proof fn lemma_listing_ignores_given_order(first: Seq<ProjectView>, second: Seq<ProjectView>)
    requires
        first.to_multiset() == second.to_multiset(),
        distinct_identifiers(first),
    ensures
        listing_order(first) == listing_order(second),
{
    lemma_listing_keeps_projects(first);
    lemma_listing_keeps_projects(second);
    lemma_listing_in_order(first);
    lemma_listing_in_order(second);
    lemma_rearranged_distinct(first, listing_order(first));
    lemma_order_unique(listing_order(first), listing_order(second));
}

/// Whether no two of the files share a name.
pub open spec fn distinct_file_names(files: Seq<ContentFileView>) -> bool {
    forall|i: int, j: int|
        0 <= i < j < files.len() ==> (#[trigger] files[i]).file_name != (
        #[trigger] files[j]).file_name
}

/// The same files in another order give the same projects in another order.
proof fn lemma_rearranged_files(first: Seq<ContentFileView>, second: Seq<ContentFileView>)
    requires
        first.to_multiset() == second.to_multiset(),
    ensures
        loaded_projects(first).to_multiset() == loaded_projects(second).to_multiset(),
    decreases first.len(),
{
    vstd::seq_lib::to_multiset_len(first);
    vstd::seq_lib::to_multiset_len(second);
    if first.len() == 0 {
        assert(loaded_projects(first) =~= loaded_projects(second));
    } else {
        let file = first.last();
        let front = first.drop_last();
        assert(first.contains(file)) by {
            assert(first[first.len() - 1] == file);
        }
        vstd::seq_lib::to_multiset_contains(first, file);
        vstd::seq_lib::to_multiset_contains(second, file);
        let at = choose|k: int| 0 <= k < second.len() && second[k] == file;
        let rest = second.remove(at);
        assert(front =~= first.remove(first.len() - 1));
        vstd::seq_lib::to_multiset_remove(first, first.len() - 1);
        vstd::seq_lib::to_multiset_remove(second, at);
        lemma_rearranged_files(front, rest);
        let project = file.project()->Ok_0;
        assert(loaded_projects(first) =~= loaded_projects(front).push(project));
        assert(loaded_projects(second) =~= loaded_projects(rest).insert(at, project));
        vstd::seq_lib::to_multiset_build(loaded_projects(front), project);
        vstd::seq_lib::to_multiset_insert(loaded_projects(rest), at, project);
    }
}

/// The listing does not depend on the order in which the directory gave its
/// files. Where every file holds a project and no two files share a name,
/// as in a directory, the same files give the same listing in whatever
/// order they were read.
pub proof fn lemma_listing_ignores_directory_order(
    first: Seq<ContentFileView>,
    second: Seq<ContentFileView>,
)
    requires
        first.to_multiset() == second.to_multiset(),
        distinct_file_names(first),
        first_failure(first) is None,
    ensures
        listing_of(Some(first)) == listing_of(Some(second)),
{
    lemma_first_failure(first);
    lemma_first_failure(second);
    assert forall|i: int| 0 <= i < second.len() implies (#[trigger] second[i]).project() is Ok by {
        assert(second.contains(second[i]));
        vstd::seq_lib::to_multiset_contains(second, second[i]);
        vstd::seq_lib::to_multiset_contains(first, second[i]);
        let k = choose|k: int| 0 <= k < first.len() && first[k] == second[i];
        assert(first[k].project() is Ok);
    }
    let projects = loaded_projects(first);
    assert forall|i: int, j: int| 0 <= i < j < projects.len() implies (
    #[trigger] projects[i]).identifier != (#[trigger] projects[j]).identifier by {
        assert(first[i].project() is Ok && first[j].project() is Ok);
        crate::source::lemma_identifier_gives_file_name(first[i].file_name);
        crate::source::lemma_identifier_gives_file_name(first[j].file_name);
        assert(first[i].file_name != first[j].file_name);
    }
    lemma_rearranged_files(first, second);
    lemma_listing_ignores_given_order(projects, loaded_projects(second));
}

} // verus!
