//! The stream descriptor builder: composes a schema, its decoded settings, and
//! optional statistics into the public stream representation.

use vstd::prelude::*;
use crate::codec::{decode, spec_decode};
use crate::stats::StreamStats;
use crate::types::{Stream, StreamError, StreamProperty, StreamSchema, StreamSchemaView,
    StreamType, StreamView};

verus! {

/// The label of the storage backend: local disk or remote object storage.
pub open spec fn spec_storage_label(local_disk: bool) -> Seq<char> {
    if local_disk {
        "disk"@
    } else {
        "s3"@
    }
}

/// What building the descriptor yields: `None` exactly when the metadata holds
/// a settings blob that is not well-formed JSON. An absent statistics value
/// stands for "no usage yet" and becomes the all-default statistics.
pub open spec fn spec_stream_res(
    name: Seq<char>,
    stream_type: StreamType,
    schema: StreamSchemaView,
    stats: Option<StreamStats>,
    local_disk: bool,
) -> Option<StreamView> {
    match spec_decode(schema.metadata) {
        None => None,
        Some(settings) => Some(
            StreamView {
                name,
                stream_type,
                storage_type: spec_storage_label(local_disk),
                schema: schema.fields,
                stats: match stats {
                    Some(s) => s,
                    None => StreamStats::spec_default(),
                },
                settings,
            },
        ),
    }
}

/// Composes the public stream representation: one property per schema field in
/// field order, the settings decoded from the schema's metadata, the given
/// statistics (or the all-default value when absent), and the storage backend
/// label for the deployment. The `created_at` metadata entry is bookkeeping,
/// not configuration: decoding reads only the `settings` entry, so it cannot
/// leak into the derived settings.
pub fn stream_res(
    stream_name: &str,
    stream_type: StreamType,
    schema: &StreamSchema,
    stats: Option<StreamStats>,
    local_disk: bool,
) -> (r: Result<Stream, StreamError>)
    ensures
        r is Ok <==> spec_stream_res(stream_name@, stream_type, schema@, stats, local_disk)
            is Some,
        r matches Ok(st) ==> Some(st@) == spec_stream_res(
            stream_name@,
            stream_type,
            schema@,
            stats,
            local_disk,
        ),
        r matches Err(e) ==> e == StreamError::MalformedSettings,
{
    let mut mappings: Vec<StreamProperty> = Vec::new();
    let mut i: usize = 0;
    while i < schema.fields.len()
        invariant
            i <= schema.fields.len(),
            mappings.deep_view().len() == i,
            forall|k: int|
                0 <= k < i ==> (#[trigger] mappings.deep_view()[k]) == schema@.fields[k],
        decreases schema.fields.len() - i,
    {
        let field = &schema.fields[i];
        let prop = StreamProperty { prop_type: field.data_type.clone(), name: field.name.clone() };
        let ghost md = mappings.deep_view();
        let ghost pv = prop@;
        mappings.push(prop);
        proof {
            assert(mappings.deep_view() =~= md.push(pv));
        }
        i += 1;
    }
    let settings = match decode(&schema.metadata) {
        Ok(s) => s,
        Err(e) => {
            return Err(e);
        },
    };
    let storage_type: &str = if local_disk {
        "disk"
    } else {
        "s3"
    };
    let stats_value = match stats {
        Some(v) => v,
        None => StreamStats::default(),
    };
    let result = Stream {
        name: stream_name.to_owned(),
        stream_type,
        storage_type: storage_type.to_owned(),
        schema: mappings,
        stats: stats_value,
        settings,
    };
    proof {
        assert(result@.schema =~= schema@.fields);
    }
    Ok(result)
}

/// The full-text-search fields configured in a schema's settings blob, in the
/// order the blob lists them; empty when no settings are present.
pub fn get_stream_setting_fts_fields(schema: &StreamSchema) -> (r: Result<Vec<String>, StreamError>)
    ensures
        r is Ok <==> spec_decode(schema@.metadata) is Some,
        r matches Ok(keys) ==> Some(keys.deep_view()) == match spec_decode(schema@.metadata) {
            Some(s) => Some(s.full_text_search_keys),
            None => None,
        },
        r matches Err(e) ==> e == StreamError::MalformedSettings,
{
    match decode(&schema.metadata) {
        Ok(s) => Ok(s.full_text_search_keys),
        Err(e) => Err(e),
    }
}

} // verus!
