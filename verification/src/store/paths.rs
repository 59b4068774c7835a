//! The directories that hold the file, and which of them have to be synchronised.

use crate::registry::commit::TaskStateSaveOutcome;
use crate::store::errors::{StoreError, StoreErrorKind, StoreErrorView};
use vstd::prelude::*;
use vstd::string::StringExecFns;

verus! {

/// The empty path is the current directory.
pub open spec fn directory_path(path: Seq<char>) -> Seq<char> {
    if path.len() == 0 {
        "."@
    } else {
        path
    }
}

fn directory_of(path: &String) -> (directory: String)
    ensures
        directory@ == directory_path(path@),
{
    if path.as_str().is_empty() {
        ".".to_owned()
    } else {
        path.clone()
    }
}

/// What was found at the place of a directory.
pub enum Probe<E> {
    Directory,
    SomethingElse,
    Nothing,
    /// It could not be found out, for this reason.
    Failed(E),
}

/// A directory above the file, and what was found there.
pub struct ProbedDirectory<E> {
    pub path: String,
    pub probe: Probe<E>,
}

/// Why directories cannot be synchronised.
#[derive(Debug, PartialEq, Eq)]
pub enum DirectoryChainError<E> {
    /// There is no directory to begin with.
    Refused(StoreError),
    /// What is at a place could not be found out, for this reason.
    Failed(E),
}

/// What a `DirectoryChainError` holds.
#[verifier::ext_equal]
pub enum DirectoryChainErrorView<E> {
    Refused(StoreErrorView),
    Failed(E),
}

impl<E> View for DirectoryChainError<E> {
    type V = DirectoryChainErrorView<E>;

    open spec fn view(&self) -> DirectoryChainErrorView<E> {
        match *self {
            DirectoryChainError::Refused(error) => DirectoryChainErrorView::Refused(error@),
            DirectoryChainError::Failed(error) => DirectoryChainErrorView::Failed(error),
        }
    }
}

/// The paths of the first `count` directories.
pub open spec fn chain_paths<E>(
    ancestors: Seq<ProbedDirectory<E>>,
    count: int,
) -> Seq<Seq<char>> {
    Seq::new(count as nat, |i: int| directory_path(ancestors[i].path@))
}

/// The first place at which there is something.
pub open spec fn first_found<E>(ancestors: Seq<ProbedDirectory<E>>, start: int) -> Option<int>
    decreases ancestors.len() - start,
{
    if start < 0 || start >= ancestors.len() {
        None
    } else if !(ancestors[start].probe is Nothing) {
        Some(start)
    } else {
        first_found(ancestors, start + 1)
    }
}

/// Why the directories cannot be synchronised. What could not be found out is handed on as it is.
pub open spec fn chain_problem<E>(
    parent: Seq<char>,
    ancestors: Seq<ProbedDirectory<E>>,
) -> Option<DirectoryChainErrorView<E>> {
    match first_found(ancestors, 0) {
        Some(index) => match ancestors[index].probe {
            Probe::SomethingElse => Some(
                DirectoryChainErrorView::Refused(
                    StoreErrorView {
                        kind: StoreErrorKind::NotADirectory,
                        message: "task state parent is not a directory: "@ + directory_path(
                            ancestors[index].path@,
                        ),
                    },
                ),
            ),
            Probe::Failed(error) => Some(DirectoryChainErrorView::Failed(error)),
            _ => None,
        },
        None => Some(
            DirectoryChainErrorView::Refused(
                StoreErrorView {
                    kind: StoreErrorKind::NotFound,
                    message: "task state directory has no existing ancestor: "@ + parent,
                },
            ),
        ),
    }
}

/// The directories that a new file makes necessary to synchronise: those that do not exist yet, and
/// the first one that does. `ancestors` are the directories above the file, the nearest first.
pub fn parent_directory_sync_chain<E>(
    parent: &str,
    ancestors: Vec<ProbedDirectory<E>>,
) -> (result: Result<Vec<String>, DirectoryChainError<E>>)
    ensures
        match result {
            Ok(directories) => chain_problem(parent@, ancestors@) is None
                && directories.deep_view() == chain_paths(
                ancestors@,
                first_found(ancestors@, 0)->0 + 1,
            ),
            Err(error) => chain_problem(parent@, ancestors@) == Some(error@),
        },
{
    let ghost all = ancestors@;
    let mut rest = ancestors;
    let mut directories: Vec<String> = Vec::new();
    let ghost mut index: int = 0;
    while rest.len() > 0
        invariant
            all == ancestors@,
            0 <= index <= all.len(),
            rest@ =~= all.skip(index),
            first_found(all, 0) == first_found(all, index),
            directories.deep_view() =~= chain_paths(all, index),
        decreases rest@.len(),
    {
        let ghost before = directories.deep_view();
        let ancestor = rest.remove(0);
        let directory = directory_of(&ancestor.path);
        directories.push(directory.clone());
        proof {
            assert(ancestor == all[index]);
            assert(directories.deep_view() =~= before.push(directory@));
            assert(directories.deep_view() =~= chain_paths(all, index + 1));
        }
        match ancestor.probe {
            Probe::Directory => return Ok(directories),
            Probe::SomethingElse => return Err(
                DirectoryChainError::Refused(
                    StoreError {
                        kind: StoreErrorKind::NotADirectory,
                        message: "task state parent is not a directory: ".to_owned().concat(
                            directory.as_str(),
                        ),
                    },
                ),
            ),
            Probe::Nothing => {},
            Probe::Failed(error) => return Err(DirectoryChainError::Failed(error)),
        }
        proof {
            index = index + 1;
        }
    }
    Err(
        DirectoryChainError::Refused(
            StoreError {
                kind: StoreErrorKind::NotFound,
                message: "task state directory has no existing ancestor: ".to_owned().concat(
                    parent,
                ),
            },
        ),
    )
}

/// The directories that have to be synchronised before anything is known of them: all above the
/// file.
pub fn initial_parent_directories_requiring_sync(ancestors: &Vec<String>) -> (directories: Vec<
    String,
>)
    ensures
        directories.deep_view() == Seq::new(
            ancestors@.len(),
            |i: int| directory_path(ancestors.deep_view()[i]),
        ),
{
    let mut directories: Vec<String> = Vec::new();
    for index in 0..ancestors.len()
        invariant
            directories@.len() == index,
            forall|i: int|
                0 <= i < index ==> (#[trigger] directories@[i])@ == directory_path(
                    ancestors.deep_view()[i],
                ),
    {
        proof {
            assert(ancestors.deep_view()[index as int] == ancestors[index as int]@);
        }
        directories.push(directory_of(&ancestors[index]));
    }
    proof {
        assert(directories.deep_view() =~= Seq::new(
            ancestors@.len(),
            |i: int| directory_path(ancestors.deep_view()[i]),
        ));
    }
    directories
}

/// `pending` followed by those of `added` that it does not hold yet.
pub open spec fn remembered(pending: Seq<Seq<char>>, added: Seq<Seq<char>>) -> Seq<Seq<char>>
    decreases added.len(),
{
    if added.len() == 0 {
        pending
    } else {
        let rest = remembered(pending, added.drop_last());
        if rest.contains(added.last()) {
            rest
        } else {
            rest.push(added.last())
        }
    }
}

fn holds_directory(directories: &Vec<String>, directory: &String) -> (found: bool)
    ensures
        found == directories.deep_view().contains(directory@),
{
    for index in 0..directories.len()
        invariant
            forall|i: int| 0 <= i < index ==> directories.deep_view()[i] != directory@,
    {
        proof {
            assert(directories.deep_view()[index as int] == directories[index as int]@);
        }
        if directories[index] == *directory {
            return true;
        }
    }
    false
}

/// Keeps in mind which directories have to be synchronised.
pub fn remember_pending_directory_syncs(pending: &mut Vec<String>, directories: &Vec<String>)
    ensures
        final(pending).deep_view() == remembered(
            old(pending).deep_view(),
            directories.deep_view(),
        ),
{
    let ghost before = pending.deep_view();
    let ghost all = directories.deep_view();
    proof {
        assert(all.take(0).len() == 0);
    }
    for index in 0..directories.len()
        invariant
            all == directories.deep_view(),
            pending.deep_view() == remembered(before, all.take(index as int)),
    {
        proof {
            assert(all.take(index + 1).drop_last() =~= all.take(index as int));
            assert(all.take(index + 1).last() == directories[index as int]@);
        }
        if !holds_directory(pending, &directories[index]) {
            let ghost shorter = pending.deep_view();
            pending.push(directories[index].clone());
            proof {
                assert(pending.deep_view() =~= shorter.push(all[index as int]));
            }
        }
    }
    proof {
        assert(all.take(all.len() as int) =~= all);
    }
}

/// What came of a save whose file is in place: it is durable once every directory that was pending
/// has been synchronised.
pub fn settle_directory_syncs(pending: &mut Vec<String>, synchronised: bool) -> (outcome:
    TaskStateSaveOutcome)
    ensures
        synchronised ==> outcome == TaskStateSaveOutcome::Durable && final(pending)@.len() == 0,
        !synchronised ==> outcome == TaskStateSaveOutcome::InstalledButNotDurable,
        !synchronised ==> final(pending)@ == old(pending)@,
{
    if synchronised {
        *pending = Vec::new();
        TaskStateSaveOutcome::Durable
    } else {
        TaskStateSaveOutcome::InstalledButNotDurable
    }
}

/// The name under which a file is written before it takes its place.
pub fn temp_name_for(file_name: Option<&str>) -> (name: String)
    ensures
        name@ == match file_name {
            Some(file_name) => file_name@ + ".tmp"@,
            None => "tasks.json.tmp"@,
        },
{
    match file_name {
        Some(file_name) => file_name.to_owned().concat(".tmp"),
        None => "tasks.json.tmp".to_owned(),
    }
}

/// No directory that has to be synchronised is forgotten.
pub proof fn law_pending_syncs_are_kept(
    pending: Seq<Seq<char>>,
    added: Seq<Seq<char>>,
    directory: Seq<char>,
)
    requires
        pending.contains(directory) || added.contains(directory),
    ensures
        remembered(pending, added).contains(directory),
    decreases added.len(),
{
    if added.len() > 0 {
        let rest = remembered(pending, added.drop_last());
        if added.last() == directory {
            if !rest.contains(directory) {
                assert(rest.push(directory)[rest.len() as int] == directory);
            }
        } else {
            if added.contains(directory) {
                let i = added.index_of(directory);
                assert(added.drop_last()[i] == directory);
            }
            law_pending_syncs_are_kept(pending, added.drop_last(), directory);
            let i = rest.index_of(directory);
            if !rest.contains(added.last()) {
                assert(rest.push(added.last())[i] == directory);
            }
        }
    }
}

} // verus!
