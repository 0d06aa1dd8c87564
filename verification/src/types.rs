//! Public data model: streams, their schemas, settings, and errors.

use vstd::prelude::*;
use crate::stats::StreamStats;

verus! {

/// The kind of records a stream holds.
#[derive(Debug, Clone, Copy, PartialEq, Eq, Structural)]
pub enum StreamType {
    Logs,
    Metrics,
    Traces,
}

/// One schema field of a stream, as shown to callers: its name and its declared
/// primitive type rendered as a string.
#[derive(Debug, Clone, PartialEq, Eq)]
pub struct StreamProperty {
    pub name: String,
    pub prop_type: String,
}

/// Mathematical view of a [`StreamProperty`].
pub struct StreamPropertyView {
    pub name: Seq<char>,
    pub prop_type: Seq<char>,
}

impl View for StreamProperty {
    type V = StreamPropertyView;

    open spec fn view(&self) -> StreamPropertyView {
        StreamPropertyView { name: self.name@, prop_type: self.prop_type@ }
    }
}

impl DeepView for StreamProperty {
    type V = StreamPropertyView;

    open spec fn deep_view(&self) -> StreamPropertyView {
        self.view()
    }
}

/// A schema field definition as stored: a name and a declared type label.
#[derive(Debug, Clone, PartialEq, Eq)]
pub struct SchemaField {
    pub name: String,
    pub data_type: String,
}

impl View for SchemaField {
    type V = StreamPropertyView;

    open spec fn view(&self) -> StreamPropertyView {
        StreamPropertyView { name: self.name@, prop_type: self.data_type@ }
    }
}

impl DeepView for SchemaField {
    type V = StreamPropertyView;

    open spec fn deep_view(&self) -> StreamPropertyView {
        self.view()
    }
}

/// A stream schema: ordered field definitions plus a string-keyed metadata map,
/// which may carry a `created_at` timestamp and a serialized `settings` blob.
/// The metadata map is held as an association list; lookups take the first
/// matching entry.
#[derive(Debug, Clone, PartialEq, Eq)]
pub struct StreamSchema {
    pub fields: Vec<SchemaField>,
    pub metadata: Vec<(String, String)>,
}

/// Mathematical view of a [`StreamSchema`].
pub struct StreamSchemaView {
    pub fields: Seq<StreamPropertyView>,
    pub metadata: Seq<(Seq<char>, Seq<char>)>,
}

impl View for StreamSchema {
    type V = StreamSchemaView;

    open spec fn view(&self) -> StreamSchemaView {
        StreamSchemaView { fields: self.fields.deep_view(), metadata: self.metadata.deep_view() }
    }
}

/// Structured stream configuration decoded from the metadata blob.
#[derive(Debug, Clone, PartialEq, Eq)]
pub struct StreamSettings {
    pub partition_keys: Vec<String>,
    pub full_text_search_keys: Vec<String>,
    pub skip_schema_validation: bool,
    pub data_retention: i64,
}

/// Mathematical view of [`StreamSettings`].
#[verifier::ext_equal]
pub struct StreamSettingsView {
    pub partition_keys: Seq<Seq<char>>,
    pub full_text_search_keys: Seq<Seq<char>>,
    pub skip_schema_validation: bool,
    pub data_retention: int,
}

impl View for StreamSettings {
    type V = StreamSettingsView;

    open spec fn view(&self) -> StreamSettingsView {
        StreamSettingsView {
            partition_keys: self.partition_keys.deep_view(),
            full_text_search_keys: self.full_text_search_keys.deep_view(),
            skip_schema_validation: self.skip_schema_validation,
            data_retention: self.data_retention as int,
        }
    }
}

impl StreamSettingsView {
    /// The all-default settings: no partition keys, no full-text-search keys,
    /// validation not skipped, no explicit retention.
    pub open spec fn all_default() -> StreamSettingsView {
        StreamSettingsView {
            partition_keys: Seq::empty(),
            full_text_search_keys: Seq::empty(),
            skip_schema_validation: false,
            data_retention: 0,
        }
    }
}

impl Default for StreamSettings {
    fn default() -> (r: StreamSettings)
        ensures
            r@ == StreamSettingsView::all_default(),
    {
        let r = StreamSettings {
            partition_keys: Vec::new(),
            full_text_search_keys: Vec::new(),
            skip_schema_validation: false,
            data_retention: 0,
        };
        proof {
            assert(r@.partition_keys =~= Seq::<Seq<char>>::empty());
            assert(r@.full_text_search_keys =~= Seq::<Seq<char>>::empty());
        }
        r
    }
}

/// The public stream representation, built fresh per request.
#[derive(Debug, Clone, PartialEq, Eq)]
pub struct Stream {
    pub name: String,
    pub stream_type: StreamType,
    pub storage_type: String,
    pub schema: Vec<StreamProperty>,
    pub stats: StreamStats,
    pub settings: StreamSettings,
}

/// Mathematical view of a [`Stream`].
pub struct StreamView {
    pub name: Seq<char>,
    pub stream_type: StreamType,
    pub storage_type: Seq<char>,
    pub schema: Seq<StreamPropertyView>,
    pub stats: StreamStats,
    pub settings: StreamSettingsView,
}

impl View for Stream {
    type V = StreamView;

    open spec fn view(&self) -> StreamView {
        StreamView {
            name: self.name@,
            stream_type: self.stream_type,
            storage_type: self.storage_type@,
            schema: self.schema.deep_view(),
            stats: self.stats,
            settings: self.settings@,
        }
    }
}

/// One entry of the external store's stream listing.
#[derive(Debug, Clone, PartialEq, Eq)]
pub struct StreamLocation {
    pub stream_name: String,
    pub stream_type: StreamType,
    pub schema: StreamSchema,
}

/// The teardown step of the delete workflow at which an external call failed.
#[derive(Debug, Clone, Copy, PartialEq, Eq, Structural)]
pub enum DeleteStage {
    CompactionMark,
    SchemaDelete,
    CacheClear,
    OffsetDelete,
}

/// Structured, caller-facing failure outcomes. `NotFound` and `Conflict` are
/// expected results, not faults; `MalformedSettings` reports a present but
/// unparseable settings blob; `SubsystemFailure` names the teardown step of the
/// delete workflow whose external call failed.
#[derive(Debug, Clone, PartialEq, Eq)]
pub enum StreamError {
    NotFound,
    Conflict,
    MalformedSettings,
    SubsystemFailure { stage: DeleteStage, cause: String },
}

} // verus!
