//! The whole stored state: how it is framed, how large it may be, and which schemas can be read.

use crate::decimal::{decimal, decimal_text};
use crate::model::record::{PersistedTaskRecord, PersistedTaskRecordView};
use crate::store::errors::{
    StoreError, StoreErrorView, StoreLimits, error_of, first_of, invalid, invalid_data,
};
use crate::store::intents::{
    PersistedFileCleanupIntent, PersistedFileCleanupIntentView, intents_problem,
    validate_file_cleanup_intents,
};
use crate::store::records::{
    LEGACY_TASK_STATE_SCHEMA_VERSION, TASK_STATE_SCHEMA_VERSION, record_len_problem,
    validate_collection_limits,
};
use crate::store::sequence::{
    PersistedTaskSequenceValidator, SeenRecords, identities_problem,
    law_sound_records_are_seen_in_full, next_problem, nothing_seen, resource_total_problem,
    seen_with, validate_registered_task_resource_count, validate_unique_task_record_identities,
};
use vstd::prelude::*;
use vstd::string::{StrSliceExecFns, StringExecFns, StringSliceAdditionalSpecFns};

verus! {

/// 128 MiB.
pub const MAX_TASK_STATE_SNAPSHOT_BYTES: usize = 134_217_728;

pub open spec fn too_large() -> StoreErrorView {
    invalid(
        "task state snapshot cannot exceed "@ + decimal_text(MAX_TASK_STATE_SNAPSHOT_BYTES as nat)
            + " bytes"@,
    )
}

pub fn snapshot_size_error() -> (error: StoreError)
    ensures
        error@ == too_large(),
{
    let message = "task state snapshot cannot exceed ".to_owned().concat(
        decimal(MAX_TASK_STATE_SNAPSHOT_BYTES).as_str(),
    ).concat(" bytes");
    invalid_data(message.as_str())
}

/// Whether a file of this length may be read.
pub fn validate_snapshot_len(len: u64) -> (result: Result<(), StoreError>)
    ensures
        error_of(result) == if len > MAX_TASK_STATE_SNAPSHOT_BYTES {
            Some(too_large())
        } else {
            None
        },
{
    if len > MAX_TASK_STATE_SNAPSHOT_BYTES as u64 {
        return Err(snapshot_size_error());
    }
    Ok(())
}

/// Collects bytes up to a limit.
pub struct BoundedSnapshotWriter {
    bytes: Vec<u8>,
    limit: usize,
}

impl BoundedSnapshotWriter {
    pub closed spec fn written(self) -> Seq<u8> {
        self.bytes@
    }

    pub closed spec fn limit(self) -> usize {
        self.limit
    }

    /// No more has been collected than the limit allows.
    #[verifier::type_invariant]
    spec fn within_limit(self) -> bool {
        self.bytes@.len() <= self.limit
    }

    pub fn new(limit: usize) -> (writer: Self)
        ensures
            writer.written() == Seq::<u8>::empty(),
            writer.limit() == limit,
    {
        BoundedSnapshotWriter { bytes: Vec::new(), limit }
    }

    /// Adds `bytes`, all or none.
    pub fn write_all(&mut self, bytes: &[u8]) -> (result: Result<(), StoreError>)
        ensures
            final(self).limit() == old(self).limit(),
            old(self).written().len() + bytes@.len() <= old(self).limit() ==> result is Ok && final(self).written() == old(self).written() + bytes@,
            old(self).written().len() + bytes@.len() > old(self).limit() ==> error_of(result)
                == Some(too_large()) && final(self).written() == old(self).written(),
    {
        proof {
            use_type_invariant(&*self);
        }
        if bytes.len() > self.limit - self.bytes.len() {
            return Err(snapshot_size_error());
        }
        let mut collected: Vec<u8> = Vec::new();
        std::mem::swap(&mut collected, &mut self.bytes);
        let ghost before = collected@;
        for index in 0..bytes.len()
            invariant
                collected@ =~= before + bytes@.take(index as int),
        {
            collected.push(bytes[index]);
        }
        proof {
            assert(bytes@.take(bytes@.len() as int) =~= bytes@);
        }
        self.bytes = collected;
        Ok(())
    }

    pub fn into_inner(self) -> (bytes: Vec<u8>)
        ensures
            bytes@ == self.written(),
            bytes@.len() <= self.limit(),
    {
        proof {
            use_type_invariant(&self);
        }
        self.bytes
    }
}

/// The schemas that can be read.
pub open spec fn known_schema(schema_version: u32) -> bool {
    LEGACY_TASK_STATE_SCHEMA_VERSION <= schema_version <= TASK_STATE_SCHEMA_VERSION
}

/// What is wrong with a stored state, apart from its records.
pub open spec fn header_problem(
    schema_version: u32,
    intents: Seq<PersistedFileCleanupIntentView>,
) -> Option<StoreErrorView> {
    if !known_schema(schema_version) {
        Some(
            invalid(
                "unsupported task state schema version: "@ + decimal_text(schema_version as nat),
            ),
        )
    } else if schema_version < TASK_STATE_SCHEMA_VERSION && intents.len() > 0 {
        Some(invalid("task state schemas before v5 cannot contain file cleanup intents"@))
    } else {
        intents_problem(intents)
    }
}

pub fn validate_snapshot_header(
    schema_version: u32,
    intents: &Vec<PersistedFileCleanupIntent>,
) -> (result: Result<(), StoreError>)
    ensures
        error_of(result) == header_problem(schema_version, intents.deep_view()),
{
    if schema_version < LEGACY_TASK_STATE_SCHEMA_VERSION || schema_version
        > TASK_STATE_SCHEMA_VERSION {
        let message = "unsupported task state schema version: ".to_owned().concat(
            decimal(schema_version as usize).as_str(),
        );
        return Err(invalid_data(message.as_str()));
    }
    if schema_version < TASK_STATE_SCHEMA_VERSION && intents.len() > 0 {
        return Err(
            invalid_data("task state schemas before v5 cannot contain file cleanup intents"),
        );
    }
    validate_file_cleanup_intents(intents)
}

/// What is wrong with the records of a stored state, taken together.
pub open spec fn loaded_records_problem(
    records: Seq<PersistedTaskRecordView>,
    limits: StoreLimits,
) -> Option<StoreErrorView> {
    first_of(
        resource_total_problem(records, limits.max_registered_task_resources as nat),
        identities_problem(records),
    )
}

pub fn validate_loaded_records(
    records: &Vec<PersistedTaskRecord>,
    limits: &StoreLimits,
) -> (result: Result<(), StoreError>)
    ensures
        error_of(result) == loaded_records_problem(records.deep_view(), *limits),
{
    if let Err(error) = validate_registered_task_resource_count(
        records,
        limits.max_registered_task_resources,
    ) {
        return Err(error);
    }
    validate_unique_task_record_identities(records)
}

pub const LINE_FEED: u8 = 10;

pub const SPACE: u8 = 32;

/// `text` with `width` spaces after every line feed. Line feeds stand in JSON only between its
/// tokens, so this indents a value that was written on lines of its own.
pub open spec fn indented(text: Seq<u8>, width: nat) -> Seq<u8>
    decreases text.len(),
{
    if text.len() == 0 {
        text
    } else {
        let rest = indented(text.drop_last(), width).push(text.last());
        if text.last() == LINE_FEED {
            rest + Seq::new(width, |i: int| SPACE)
        } else {
            rest
        }
    }
}

fn indent(text: &[u8], width: usize) -> (result: Vec<u8>)
    ensures
        result@ == indented(text@, width as nat),
{
    let mut result: Vec<u8> = Vec::new();
    proof {
        assert(text@.take(0).len() == 0);
    }
    for index in 0..text.len()
        invariant
            result@ == indented(text@.take(index as int), width as nat),
    {
        proof {
            assert(text@.take(index + 1).drop_last() =~= text@.take(index as int));
            assert(text@.take(index + 1).last() == text@[index as int]);
        }
        result.push(text[index]);
        if text[index] == LINE_FEED {
            let ghost before = result@;
            for added in 0..width
                invariant
                    result@ =~= before + Seq::new(added as nat, |i: int| SPACE),
            {
                result.push(SPACE);
            }
        }
    }
    proof {
        assert(text@.take(text@.len() as int) =~= text@);
    }
    result
}

/// What stands before the first task.
pub const SNAPSHOT_HEAD: &'static str = "{\n  \"schema_version\": 5,\n  \"tasks\": [";

/// What stands between the tasks and the intents.
pub const SNAPSHOT_MIDDLE: &'static str = "],\n  \"file_cleanup_intents\": [";

/// What stands behind the intents.
pub const SNAPSHOT_TAIL: &'static str = "]\n}\n";

pub const FIRST_ENTRY: &'static str = "\n    ";

pub const NEXT_ENTRY: &'static str = ",\n    ";

pub const AFTER_ENTRIES: &'static str = "\n  ";

/// The entries of a list of JSON values, each on lines of its own.
pub open spec fn entries(values: Seq<Seq<u8>>) -> Seq<u8>
    decreases values.len(),
{
    if values.len() == 0 {
        Seq::empty()
    } else {
        entries(values.drop_last()) + if values.len() == 1 {
            FIRST_ENTRY.spec_bytes()
        } else {
            NEXT_ENTRY.spec_bytes()
        } + indented(values.last(), 4)
    }
}

pub open spec fn closed_entries(values: Seq<Seq<u8>>) -> Seq<u8> {
    if values.len() == 0 {
        entries(values)
    } else {
        entries(values) + AFTER_ENTRIES.spec_bytes()
    }
}

/// A stored state that holds these tasks and these intents, each given as JSON.
pub open spec fn framed(tasks: Seq<Seq<u8>>, intents: Seq<Seq<u8>>) -> Seq<u8> {
    SNAPSHOT_HEAD.spec_bytes() + closed_entries(tasks) + SNAPSHOT_MIDDLE.spec_bytes()
        + closed_entries(intents) + SNAPSHOT_TAIL.spec_bytes()
}

/// Writes a stored state, record by record. A record that cannot be written stops the writing.
pub struct TaskSnapshotWriter {
    validator: PersistedTaskSequenceValidator,
    writer: BoundedSnapshotWriter,
    limits: StoreLimits,
    has_tasks: bool,
    tasks: Ghost<Seq<Seq<u8>>>,
}

/// What is wrong with writing `record` next.
pub open spec fn entry_problem(
    seen: SeenRecords,
    record: PersistedTaskRecordView,
    limits: StoreLimits,
) -> Option<StoreErrorView> {
    first_of(next_problem(seen, record, limits), record_len_problem(record, limits))
}

/// A problem with the size, if `fits` does not hold.
pub open spec fn size_problem(fits: bool) -> Option<StoreErrorView> {
    if fits {
        None
    } else {
        Some(too_large())
    }
}

fn append_text(bytes: &mut Vec<u8>, text: &str)
    ensures
        final(bytes)@ == old(bytes)@ + text.spec_bytes(),
{
    let mut more = text.as_bytes_vec();
    bytes.append(&mut more);
}

/// Adds a value to the entries of a list.
fn append_entry(bytes: &mut Vec<u8>, value: &[u8], is_first: bool)
    ensures
        final(bytes)@ == old(bytes)@ + if is_first {
            FIRST_ENTRY.spec_bytes()
        } else {
            NEXT_ENTRY.spec_bytes()
        } + indented(value@, 4),
{
    if is_first {
        append_text(bytes, FIRST_ENTRY);
    } else {
        append_text(bytes, NEXT_ENTRY);
    }
    let mut text = indent(value, 4);
    bytes.append(&mut text);
}

impl TaskSnapshotWriter {
    /// The tasks that were written so far, as JSON.
    pub closed spec fn tasks(self) -> Seq<Seq<u8>> {
        self.tasks@
    }

    /// The records that were written so far.
    pub closed spec fn seen(self) -> SeenRecords {
        self.validator.seen()
    }

    pub closed spec fn limits(self) -> StoreLimits {
        self.limits
    }

    /// How many bytes may be written.
    pub closed spec fn byte_limit(self) -> usize {
        self.writer.limit()
    }

    pub closed spec fn well_formed(self) -> bool {
        &&& self.validator.limits() == self.limits
        &&& self.has_tasks == (self.tasks@.len() > 0)
        &&& self.writer.written() == SNAPSHOT_HEAD.spec_bytes() + entries(self.tasks@)
    }

    /// Starts a stored state of at most `byte_limit` bytes with these intents.
    pub fn new(
        intents: &Vec<PersistedFileCleanupIntent>,
        limits: StoreLimits,
        byte_limit: usize,
    ) -> (result: Result<Self, StoreError>)
        ensures
            error_of(result) == first_of(
                intents_problem(intents.deep_view()),
                size_problem(SNAPSHOT_HEAD.spec_bytes().len() <= byte_limit),
            ),
            result matches Ok(writer) ==> writer.well_formed() && writer.tasks() == Seq::<
                Seq<u8>,
            >::empty() && writer.seen() == nothing_seen() && writer.limits() == limits
                && writer.byte_limit() == byte_limit,
    {
        if let Err(error) = validate_file_cleanup_intents(intents) {
            return Err(error);
        }
        let mut writer = BoundedSnapshotWriter::new(byte_limit);
        let mut head: Vec<u8> = Vec::new();
        append_text(&mut head, SNAPSHOT_HEAD);
        if let Err(error) = writer.write_all(head.as_slice()) {
            return Err(error);
        }
        let tasks: Ghost<Seq<Seq<u8>>> = Ghost(Seq::empty());
        proof {
            assert(writer.written() =~= SNAPSHOT_HEAD.spec_bytes() + entries(tasks@));
        }
        Ok(
            TaskSnapshotWriter {
                validator: PersistedTaskSequenceValidator::new(limits),
                writer,
                limits,
                has_tasks: false,
                tasks,
            },
        )
    }

    /// Writes the next record. `encoded` is the record as JSON, on lines of its own.
    pub fn push(&mut self, record: &PersistedTaskRecord, encoded: &[u8]) -> (result: Result<
        (),
        StoreError,
    >)
        requires
            old(self).well_formed(),
        ensures
            error_of(result) == first_of(
                entry_problem(old(self).seen(), record@, old(self).limits()),
                size_problem(
                    SNAPSHOT_HEAD.spec_bytes().len() + entries(
                        old(self).tasks().push(encoded@),
                    ).len() <= old(self).byte_limit(),
                ),
            ),
            result is Ok ==> {
                &&& final(self).well_formed()
                &&& final(self).tasks() == old(self).tasks().push(encoded@)
                &&& final(self).seen() == seen_with(old(self).seen(), record@)
                &&& final(self).limits() == old(self).limits()
                &&& final(self).byte_limit() == old(self).byte_limit()
            },
    {
        let ghost seen = self.validator.seen();
        if let Err(error) = self.validator.validate(record) {
            return Err(error);
        }
        proof {
            law_sound_records_are_seen_in_full(seen, record@, self.limits);
        }
        if let Err(error) = validate_collection_limits(record, &self.limits) {
            return Err(error);
        }
        let ghost tasks = self.tasks@;
        let mut entry: Vec<u8> = Vec::new();
        append_entry(&mut entry, encoded, !self.has_tasks);
        proof {
            assert(tasks.push(encoded@).drop_last() =~= tasks);
            assert(SNAPSHOT_HEAD.spec_bytes() + entries(tasks.push(encoded@))
                =~= self.writer.written() + entry@);
        }
        if let Err(error) = self.writer.write_all(entry.as_slice()) {
            return Err(error);
        }
        self.has_tasks = true;
        self.tasks = Ghost(tasks.push(encoded@));
        Ok(())
    }

    /// Ends the stored state with its intents, each given as JSON.
    pub fn finish(self, encoded_intents: &Vec<Vec<u8>>) -> (result: Result<Vec<u8>, StoreError>)
        requires
            self.well_formed(),
        ensures
            error_of(result) == size_problem(
                framed(self.tasks(), encoded_intents.deep_view()).len() <= self.byte_limit(),
            ),
            result matches Ok(bytes) ==> bytes@ == framed(
                self.tasks(),
                encoded_intents.deep_view(),
            ),
    {
        let ghost values = encoded_intents.deep_view();
        let mut writer = self.writer;
        let mut rest: Vec<u8> = Vec::new();
        if self.has_tasks {
            append_text(&mut rest, AFTER_ENTRIES);
        }
        append_text(&mut rest, SNAPSHOT_MIDDLE);
        let ghost before = rest@;
        proof {
            assert(values.take(0).len() == 0);
            assert(rest@ =~= before + entries(values.take(0)));
        }
        for index in 0..encoded_intents.len()
            invariant
                values == encoded_intents.deep_view(),
                rest@ == before + entries(values.take(index as int)),
        {
            proof {
                assert(values.take(index + 1).drop_last() =~= values.take(index as int));
                assert(values.take(index + 1).last() =~= encoded_intents[index as int]@);
            }
            append_entry(&mut rest, encoded_intents[index].as_slice(), index == 0);
            proof {
                assert(rest@ =~= before + entries(values.take(index + 1)));
            }
        }
        proof {
            assert(values.take(values.len() as int) =~= values);
        }
        if encoded_intents.len() > 0 {
            append_text(&mut rest, AFTER_ENTRIES);
        }
        append_text(&mut rest, SNAPSHOT_TAIL);
        proof {
            assert(self.writer.written() + rest@ =~= framed(self.tasks@, values));
        }
        if let Err(error) = writer.write_all(rest.as_slice()) {
            return Err(error);
        }
        Ok(writer.into_inner())
    }
}

} // verus!
