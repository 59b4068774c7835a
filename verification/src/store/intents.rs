//! Files that are to be deleted even after a restart.

use crate::plain::Plain;
use crate::store::errors::{
    StoreError, StoreErrorView, error_of, first_of, invalid, invalid_data, len_problem,
    validate_collection_len,
};
use crate::text::{ascii_lower, characters, lowercase_text, normalize, same_text, trimmed};
use vstd::prelude::*;
use vstd::string::StrSliceExecFns;

verus! {

pub const MAX_PERSISTED_FILE_CLEANUP_INTENTS: usize = 100_000;

/// A library item is named by its whole relative path in base64.
pub const MAX_PERSISTED_CLEANUP_OWNER_ID_BYTES: usize = 8_192;

pub const MAX_PERSISTED_CLEANUP_RELATIVE_PATH_BYTES: usize = 4_096;

#[derive(Clone, Copy, Debug, PartialEq, Eq, Structural)]
pub enum PersistedFileCleanupKind {
    BilibiliOwnedOutputDirectory,
    BilibiliTransientOutput,
    LocalLibraryItem,
}

/// A file or directory below the library that is to be deleted for its owner. The names on the path
/// are separated by slashes.
#[derive(Debug, PartialEq, Eq)]
pub struct PersistedFileCleanupIntent {
    pub kind: PersistedFileCleanupKind,
    pub owner_id: String,
    pub relative_path: String,
}

/// What a `PersistedFileCleanupIntent` holds.
#[verifier::ext_equal]
pub struct PersistedFileCleanupIntentView {
    pub kind: PersistedFileCleanupKind,
    pub owner_id: Seq<char>,
    pub relative_path: Seq<char>,
}

impl DeepView for PersistedFileCleanupIntent {
    type V = PersistedFileCleanupIntentView;

    open spec fn deep_view(&self) -> PersistedFileCleanupIntentView {
        PersistedFileCleanupIntentView {
            kind: self.kind,
            owner_id: self.owner_id@,
            relative_path: self.relative_path@,
        }
    }
}

impl View for PersistedFileCleanupIntent {
    type V = PersistedFileCleanupIntentView;

    #[verifier::inline]
    open spec fn view(&self) -> PersistedFileCleanupIntentView {
        self.deep_view()
    }
}

/// How many bytes `c` takes in UTF-8.
pub open spec fn utf8_width(c: char) -> nat {
    if c <= '\u{7f}' {
        1
    } else if c <= '\u{7ff}' {
        2
    } else if c <= '\u{ffff}' {
        3
    } else {
        4
    }
}

/// How many bytes `text` takes in UTF-8.
pub open spec fn utf8_len(text: Seq<char>) -> nat
    decreases text.len(),
{
    if text.len() == 0 {
        0
    } else {
        utf8_len(text.drop_last()) + utf8_width(text.last())
    }
}

proof fn lemma_utf8_len_grows(text: Seq<char>, count: int)
    requires
        0 <= count <= text.len(),
    ensures
        utf8_len(text.take(count)) <= utf8_len(text),
    decreases text.len() - count,
{
    if count < text.len() {
        lemma_utf8_len_grows(text, count + 1);
        assert(text.take(count + 1).drop_last() =~= text.take(count));
    } else {
        assert(text.take(count) =~= text);
    }
}

/// Whether `text` takes more than `limit` bytes in UTF-8.
pub(crate) fn exceeds_utf8_len(text: &str, limit: usize) -> (exceeds: bool)
    requires
        limit < usize::MAX - 4,
    ensures
        exceeds == (utf8_len(text@) > limit),
{
    let chars = characters(text);
    let count: usize = chars.len();
    let mut bytes: usize = 0;
    proof {
        assert(text@.take(0).len() == 0);
    }
    for index in 0..count
        invariant
            limit < usize::MAX - 4,
            count == text@.len(),
            chars@ == text@,
            bytes == utf8_len(text@.take(index as int)),
            bytes <= limit,
    {
        let c: char = chars[index];
        proof {
            assert(text@.take(index + 1).drop_last() =~= text@.take(index as int));
            assert(text@.take(index + 1).last() == c);
            lemma_utf8_len_grows(text@, index + 1);
        }
        let width: usize = if c <= '\u{7f}' {
            1
        } else if c <= '\u{7ff}' {
            2
        } else if c <= '\u{ffff}' {
            3
        } else {
            4
        };
        bytes = bytes + width;
        if bytes > limit {
            return true;
        }
    }
    proof {
        assert(text@.take(count as int) =~= text@);
    }
    false
}

/// The control characters.
pub open spec fn is_control(c: char) -> bool {
    c <= '\u{1f}' || ('\u{7f}' <= c && c <= '\u{9f}')
}

/// Some character of `text` is a control character.
pub open spec fn holds_control(text: Seq<char>) -> bool {
    exists|i: int| 0 <= i < text.len() && is_control(#[trigger] text[i])
}

fn contains_control(text: &str) -> (found: bool)
    ensures
        found == holds_control(text@),
{
    let chars = characters(text);
    let count: usize = chars.len();
    for index in 0..count
        invariant
            count == text@.len(),
            chars@ == text@,
            forall|i: int| 0 <= i < index ==> !is_control(#[trigger] text@[i]),
    {
        let c: char = chars[index];
        if c <= '\u{1f}' || ('\u{7f}' <= c && c <= '\u{9f}') {
            return true;
        }
    }
    false
}

/// The names on a path.
pub open spec fn path_names(path: Seq<char>) -> Seq<Seq<char>>
    decreases path.len(),
{
    if path.len() == 0 {
        seq![Seq::empty()]
    } else {
        let names = path_names(path.drop_last());
        if path.last() == '/' {
            names.push(Seq::empty())
        } else {
            names.update(names.len() - 1, names.last().push(path.last()))
        }
    }
}

fn split_path(path: &str) -> (names: Vec<String>)
    ensures
        names.deep_view() == path_names(path@),
        names@.len() > 0,
{
    let chars = characters(path);
    let count: usize = chars.len();
    let mut names: Vec<String> = Vec::new();
    let mut start: usize = 0;
    let ghost done: Seq<Seq<char>> = Seq::empty();
    proof {
        assert(path@.take(0).len() == 0);
        assert(path@.subrange(0, 0) =~= Seq::<char>::empty());
        assert(names.deep_view().push(path@.subrange(0, 0)) =~= path_names(path@.take(0)));
    }
    for index in 0..count
        invariant
            count == path@.len(),
            chars@ == path@,
            start <= index,
            names.deep_view().push(path@.subrange(start as int, index as int)) =~= path_names(
                path@.take(index as int),
            ),
    {
        let ghost before = names.deep_view();
        let ghost prefix = path@.take(index + 1);
        proof {
            assert(prefix.drop_last() =~= path@.take(index as int));
            assert(prefix.last() == path@[index as int]);
        }
        let c: char = chars[index];
        if c == '/' {
            let name = path.substring_char(start, index).to_owned();
            names.push(name);
            start = index + 1;
            proof {
                assert(names.deep_view() =~= before.push(name@));
                assert(path@.subrange(start as int, index + 1) =~= Seq::<char>::empty());
            }
        } else {
            proof {
                assert(path@.subrange(start as int, index + 1) =~= path@.subrange(
                    start as int,
                    index as int,
                ).push(c));
                let names_before = path_names(path@.take(index as int));
                assert(names_before.len() == before.len() + 1);
                assert(names_before.last() == path@.subrange(start as int, index as int));
            }
        }
    }
    let ghost before = names.deep_view();
    let name = path.substring_char(start, count).to_owned();
    names.push(name);
    proof {
        assert(path@.take(count as int) =~= path@);
        assert(names.deep_view() =~= before.push(name@));
    }
    names
}

/// A name that stands for itself on a path.
pub open spec fn plain_name(name: Seq<char>) -> bool {
    name.len() > 0 && name != "."@ && name != ".."@
}

/// A path whose names all stand for themselves.
pub open spec fn plain_path(path: Seq<char>) -> bool {
    forall|i: int|
        0 <= i < path_names(path).len() ==> plain_name(#[trigger] path_names(path)[i])
}

fn is_plain_path(names: &Vec<String>) -> (plain: bool)
    ensures
        plain == forall|i: int|
            0 <= i < names.deep_view().len() ==> plain_name(#[trigger] names.deep_view()[i]),
{
    for index in 0..names.len()
        invariant
            forall|i: int| 0 <= i < index ==> plain_name(#[trigger] names.deep_view()[i]),
    {
        let name = names[index].as_str();
        proof {
            assert(names.deep_view()[index as int] == name@);
        }
        if name.is_empty() || same_text(name, ".") || same_text(name, "..") {
            return false;
        }
    }
    true
}

pub const INTERNAL_STORAGE_NAME: &'static str = ".tvos-net-player";

pub const STAGING_NAME: &'static str = "bbdown-staging";

/// A path into the storage that the server keeps for itself.
pub open spec fn into_internal_storage(path: Seq<char>) -> bool {
    ascii_lower(path_names(path)[0]) == INTERNAL_STORAGE_NAME@
}

/// A directory of an owner: it bears the owner's name, and if it lies in the internal storage, then
/// directly where outputs are staged.
pub open spec fn owned_directory(path: Seq<char>, owner_id: Seq<char>) -> bool {
    let names = path_names(path);
    &&& names.last() == owner_id
    &&& into_internal_storage(path) ==> names.len() == 3 && names[0] == INTERNAL_STORAGE_NAME@
        && names[1] == STAGING_NAME@
}

pub open spec fn sound_owner(owner_id: Seq<char>) -> bool {
    &&& owner_id.len() > 0
    &&& owner_id == trimmed(owner_id)
    &&& utf8_len(owner_id) <= MAX_PERSISTED_CLEANUP_OWNER_ID_BYTES
    &&& !holds_control(owner_id)
}

/// A path on which something may be deleted. Only an owner's directory may lie in the internal
/// storage.
pub open spec fn sound_path(intent: PersistedFileCleanupIntentView) -> bool {
    let path = intent.relative_path;
    &&& path.len() > 0
    &&& utf8_len(path) <= MAX_PERSISTED_CLEANUP_RELATIVE_PATH_BYTES
    &&& !path.contains('\0')
    &&& plain_path(path)
    &&& if intent.kind == PersistedFileCleanupKind::BilibiliOwnedOutputDirectory {
        owned_directory(path, intent.owner_id)
    } else {
        !into_internal_storage(path)
    }
}

/// What is wrong with an intent.
pub open spec fn intent_problem(intent: PersistedFileCleanupIntentView) -> Option<StoreErrorView> {
    if !sound_owner(intent.owner_id) {
        Some(invalid("persisted file cleanup owner id is invalid"@))
    } else if !sound_path(intent) {
        Some(invalid("persisted file cleanup relative path is invalid"@))
    } else {
        None
    }
}

fn contains_nul(text: &str) -> (found: bool)
    ensures
        found == text@.contains('\0'),
{
    let chars = characters(text);
    let count: usize = chars.len();
    for index in 0..count
        invariant
            count == text@.len(),
            chars@ == text@,
            forall|i: int| 0 <= i < index ==> #[trigger] text@[i] != '\0',
    {
        if chars[index] == '\0' {
            return true;
        }
    }
    false
}

impl PersistedFileCleanupIntent {
    pub fn new(
        kind: PersistedFileCleanupKind,
        owner_id: String,
        relative_path: String,
    ) -> (result: Result<Self, StoreError>)
        ensures
            ({
                let wanted = PersistedFileCleanupIntentView {
                    kind,
                    owner_id: owner_id@,
                    relative_path: relative_path@,
                };
                match result {
                    Ok(intent) => intent@ == wanted && intent_problem(wanted) is None,
                    Err(error) => intent_problem(wanted) == Some(error@),
                }
            }),
    {
        let intent = PersistedFileCleanupIntent { kind, owner_id, relative_path };
        match intent.validate() {
            Ok(()) => Ok(intent),
            Err(error) => Err(error),
        }
    }

    fn owner_is_sound(&self) -> (sound: bool)
        ensures
            sound == sound_owner(self@.owner_id),
    {
        let owner_id = self.owner_id.as_str();
        !owner_id.is_empty() && same_text(owner_id, normalize(owner_id).as_str())
            && !exceeds_utf8_len(owner_id, MAX_PERSISTED_CLEANUP_OWNER_ID_BYTES)
            && !contains_control(owner_id)
    }

    fn path_is_sound(&self) -> (sound: bool)
        ensures
            sound == sound_path(self@),
    {
        let path = self.relative_path.as_str();
        if path.is_empty() || exceeds_utf8_len(path, MAX_PERSISTED_CLEANUP_RELATIVE_PATH_BYTES)
            || contains_nul(path) {
            return false;
        }
        let names = split_path(path);
        if !is_plain_path(&names) {
            return false;
        }
        let count: usize = names.len();
        proof {
            assert(names.deep_view()[0] == names[0]@);
            assert(names.deep_view().last() == names[count - 1]@);
        }
        let internal: bool = same_text(
            lowercase_text(names[0].as_str()).as_str(),
            INTERNAL_STORAGE_NAME,
        );
        if self.kind != PersistedFileCleanupKind::BilibiliOwnedOutputDirectory {
            return !internal;
        }
        if !same_text(names[count - 1].as_str(), self.owner_id.as_str()) {
            return false;
        }
        if !internal {
            return true;
        }
        if count != 3 {
            return false;
        }
        proof {
            assert(names.deep_view()[1] == names[1]@);
        }
        same_text(names[0].as_str(), INTERNAL_STORAGE_NAME) && same_text(
            names[1].as_str(),
            STAGING_NAME,
        )
    }

    pub fn validate(&self) -> (result: Result<(), StoreError>)
        ensures
            error_of(result) == intent_problem(self@),
    {
        if !self.owner_is_sound() {
            return Err(invalid_data("persisted file cleanup owner id is invalid"));
        }
        if !self.path_is_sound() {
            return Err(invalid_data("persisted file cleanup relative path is invalid"));
        }
        Ok(())
    }

    fn same_intent(&self, other: &Self) -> (same: bool)
        ensures
            same == (self@ == other@),
    {
        self.kind == other.kind && self.owner_id.same_as(&other.owner_id)
            && self.relative_path.same_as(&other.relative_path)
    }
}

/// What is wrong with the first `count` intents: the first problem, where one that occurs twice is
/// a problem at its second occurrence.
pub open spec fn first_intent_problem(
    intents: Seq<PersistedFileCleanupIntentView>,
    count: int,
) -> Option<StoreErrorView>
    decreases count,
{
    if count <= 0 {
        None
    } else {
        let last = intents[count - 1];
        first_of(
            first_intent_problem(intents, count - 1),
            first_of(
                intent_problem(last),
                if intents.take(count - 1).contains(last) {
                    Some(invalid("task state contains a duplicate file cleanup intent"@))
                } else {
                    None
                },
            ),
        )
    }
}

proof fn lemma_first_intent_problem_stays(
    intents: Seq<PersistedFileCleanupIntentView>,
    count: int,
    total: int,
)
    requires
        0 <= count <= total,
        first_intent_problem(intents, count) is Some,
    ensures
        first_intent_problem(intents, total) == first_intent_problem(intents, count),
    decreases total - count,
{
    if count < total {
        lemma_first_intent_problem_stays(intents, count, total - 1);
    }
}

/// What is wrong with a list of intents.
pub open spec fn intents_problem(
    intents: Seq<PersistedFileCleanupIntentView>,
) -> Option<StoreErrorView> {
    first_of(
        len_problem(
            "persisted file cleanup intents"@,
            intents.len(),
            MAX_PERSISTED_FILE_CLEANUP_INTENTS as nat,
        ),
        first_intent_problem(intents, intents.len() as int),
    )
}

fn occurs_before(
    intents: &Vec<PersistedFileCleanupIntent>,
    index: usize,
) -> (found: bool)
    requires
        index < intents@.len(),
    ensures
        found == intents.deep_view().take(index as int).contains(intents.deep_view()[index as int]),
{
    let ghost wanted = intents.deep_view()[index as int];
    for other in 0..index
        invariant
            index < intents@.len(),
            wanted == intents.deep_view()[index as int],
            forall|i: int| 0 <= i < other ==> intents.deep_view()[i] != wanted,
    {
        proof {
            assert(intents.deep_view()[other as int] == intents[other as int]@);
            assert(intents.deep_view()[index as int] == intents[index as int]@);
        }
        if intents[other].same_intent(&intents[index]) {
            proof {
                assert(intents.deep_view().take(index as int)[other as int] == wanted);
            }
            return true;
        }
    }
    proof {
        let prefix = intents.deep_view().take(index as int);
        if prefix.contains(wanted) {
            let i = prefix.index_of(wanted);
            assert(prefix[i] == intents.deep_view()[i]);
        }
    }
    false
}

pub fn validate_file_cleanup_intents(
    intents: &Vec<PersistedFileCleanupIntent>,
) -> (result: Result<(), StoreError>)
    ensures
        error_of(result) == intents_problem(intents.deep_view()),
{
    if let Err(error) = validate_collection_len(
        "persisted file cleanup intents",
        intents.len(),
        MAX_PERSISTED_FILE_CLEANUP_INTENTS,
    ) {
        return Err(error);
    }
    let ghost all = intents.deep_view();
    for index in 0..intents.len()
        invariant
            all == intents.deep_view(),
            all.len() <= MAX_PERSISTED_FILE_CLEANUP_INTENTS,
            first_intent_problem(all, index as int) is None,
    {
        proof {
            assert(all[index as int] == intents[index as int]@);
            assert(first_intent_problem(all, index + 1) is Some ==> first_intent_problem(
                all,
                all.len() as int,
            ) == first_intent_problem(all, index + 1)) by {
                if first_intent_problem(all, index + 1) is Some {
                    lemma_first_intent_problem_stays(all, index + 1, all.len() as int);
                }
            }
        }
        if let Err(error) = intents[index].validate() {
            return Err(error);
        }
        if occurs_before(intents, index) {
            return Err(invalid_data("task state contains a duplicate file cleanup intent"));
        }
    }
    Ok(())
}

/// A sound intent outside of the staging directory never reaches into the internal storage.
pub proof fn law_internal_storage_is_kept(intent: PersistedFileCleanupIntentView)
    requires
        intent_problem(intent) is None,
        into_internal_storage(intent.relative_path),
    ensures
        intent.kind == PersistedFileCleanupKind::BilibiliOwnedOutputDirectory,
        path_names(intent.relative_path).len() == 3,
        path_names(intent.relative_path)[1] == STAGING_NAME@,
        path_names(intent.relative_path)[2] == intent.owner_id,
{
}

} // verus!
