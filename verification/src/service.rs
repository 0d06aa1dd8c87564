//! The stream metadata service's read and write paths: single-stream reads,
//! listing, and saving settings. The callers hand in what the external schema
//! store and statistics cache returned; every decision made on it is verified.

use vstd::prelude::*;
use crate::builder::{spec_stream_res, stream_res};
use crate::codec::{encode, meta_get, meta_lookup, meta_upsert, spec_encode};
use crate::extern_io::now_micros;
use crate::render::{append_i64_dec, dec_int};
use crate::stats::{StreamStats, spec_normalized, transform_stats};
use crate::types::{Stream, StreamError, StreamLocation, StreamSchema, StreamSettings,
    StreamSettingsView, StreamType, StreamView};

verus! {

/// The read path for one stream: a schema without fields is the store's
/// convention for "stream does not exist" and reports `NotFound`, whatever the
/// statistics say; otherwise the raw statistics are normalized and the
/// descriptor is built.
pub fn get_stream(
    stream_name: &str,
    stream_type: StreamType,
    schema: &StreamSchema,
    stats: StreamStats,
    local_disk: bool,
) -> (r: Result<Stream, StreamError>)
    ensures
        schema@.fields.len() == 0 ==> r == Err::<Stream, StreamError>(StreamError::NotFound),
        schema@.fields.len() > 0 ==> match spec_stream_res(
            stream_name@,
            stream_type,
            schema@,
            Some(spec_normalized(stats)),
            local_disk,
        ) {
            Some(sv) => r matches Ok(st) && st@ == sv,
            None => r == Err::<Stream, StreamError>(StreamError::MalformedSettings),
        },
{
    let mut raw = stats;
    let normalized = transform_stats(&mut raw);
    if schema.fields.len() == 0 {
        return Err(StreamError::NotFound);
    }
    stream_res(stream_name, stream_type, schema, Some(normalized), local_disk)
}

/// What one listed stream becomes: raw statistics equal to the all-default
/// value mean "no usage yet" and the descriptor is built without statistics;
/// any other value is normalized and attached.
pub open spec fn spec_list_item(
    loc: StreamLocation,
    raw: StreamStats,
    local_disk: bool,
) -> Option<StreamView> {
    let stats = if raw == StreamStats::spec_default() {
        None
    } else {
        Some(spec_normalized(raw))
    };
    spec_stream_res(loc.stream_name@, loc.stream_type, loc.schema@, stats, local_disk)
}

/// The listing read path: one descriptor per listed stream, in the listing's
/// own order, each paired with its raw statistics; the first stream whose
/// settings blob is present but unparseable fails the whole listing.
pub fn get_streams(
    indices: Vec<StreamLocation>,
    stats_list: &Vec<StreamStats>,
    local_disk: bool,
) -> (r: Result<Vec<Stream>, StreamError>)
    requires
        indices@.len() == stats_list@.len(),
    ensures
        r is Ok <==> (forall|i: int|
            0 <= i < indices@.len() ==> spec_list_item(
                indices@[i],
                stats_list@[i],
                local_disk,
            ) is Some),
        r matches Ok(streams) ==> streams@.len() == indices@.len() && (forall|i: int|
            0 <= i < indices@.len() ==> Some((#[trigger] streams@[i])@) == spec_list_item(
                indices@[i],
                stats_list@[i],
                local_disk,
            )),
        r matches Err(e) ==> e == StreamError::MalformedSettings,
{
    let mut out: Vec<Stream> = Vec::new();
    let mut i: usize = 0;
    while i < indices.len()
        invariant
            i <= indices.len(),
            indices@.len() == stats_list@.len(),
            out@.len() == i,
            forall|k: int|
                0 <= k < i ==> Some((#[trigger] out@[k])@) == spec_list_item(
                    indices@[k],
                    stats_list@[k],
                    local_disk,
                ),
        decreases indices.len() - i,
    {
        let loc = &indices[i];
        let raw = stats_list[i];
        let built = if raw == StreamStats::default() {
            stream_res(loc.stream_name.as_str(), loc.stream_type, &loc.schema, None, local_disk)
        } else {
            let mut r = raw;
            let normalized = transform_stats(&mut r);
            stream_res(
                loc.stream_name.as_str(),
                loc.stream_type,
                &loc.schema,
                Some(normalized),
                local_disk,
            )
        };
        match built {
            Ok(st) => {
                out.push(st);
            },
            Err(e) => {
                proof {
                    assert(spec_list_item(indices@[i as int], stats_list@[i as int], local_disk)
                        is None);
                }
                return Err(e);
            },
        }
        i += 1;
    }
    proof {
        assert forall|k: int| 0 <= k < indices@.len() implies spec_list_item(
            indices@[k],
            stats_list@[k],
            local_disk,
        ) is Some by {
            assert(Some((out@[k])@) == spec_list_item(indices@[k], stats_list@[k], local_disk));
        }
    }
    Ok(out)
}

/// The metadata map a settings save writes back: the `settings` entry inserted
/// or overwritten with the encoded blob, and, only where no `created_at` entry
/// exists yet, a one-time creation stamp.
pub open spec fn spec_save_metadata(
    meta: Seq<(Seq<char>, Seq<char>)>,
    sv: StreamSettingsView,
    now: int,
) -> Seq<(Seq<char>, Seq<char>)> {
    let updated = meta_upsert(meta, "settings"@, spec_encode(sv));
    if meta_lookup(meta, "created_at"@) is Some {
        updated
    } else {
        updated.push(("created_at"@, dec_int(now)))
    }
}

/// The write path for stream settings. A stream already marked pending
/// deletion rejects the write with `Conflict`; otherwise the updated metadata
/// map is returned for the caller to persist: the settings entry overwritten
/// with the encoded blob, and a `created_at` stamp (the current time in
/// microseconds) added only if none is present — never overwritten.
pub fn save_stream_settings(
    metadata: &Vec<(String, String)>,
    setting: &StreamSettings,
    is_deleting: bool,
) -> (r: Result<Vec<(String, String)>, StreamError>)
    ensures
        is_deleting ==> r == Err::<Vec<(String, String)>, StreamError>(StreamError::Conflict),
        !is_deleting ==> (r matches Ok(m) && exists|now: int|
            m.deep_view() == #[trigger] spec_save_metadata(metadata.deep_view(), setting@, now)),
{
    if is_deleting {
        return Err(StreamError::Conflict);
    }
    let blob = encode(setting);
    let mut updated = crate::codec::meta_upsert_exec(metadata, "settings", &blob);
    let stamped = meta_get(metadata, "created_at").is_some();
    if !stamped {
        let ts = now_micros();
        let mut stamp = String::new();
        append_i64_dec(&mut stamp, ts);
        let ghost ud = updated.deep_view();
        let ghost sd = stamp@;
        let entry = ("created_at".to_owned(), stamp);
        let ghost ev = (entry.0@, entry.1@);
        updated.push(entry);
        proof {
            assert(updated.deep_view() =~= ud.push(ev));
            assert(updated.deep_view() == spec_save_metadata(
                metadata.deep_view(),
                setting@,
                ts as int,
            ));
        }
    } else {
        proof {
            assert(updated.deep_view() == spec_save_metadata(metadata.deep_view(), setting@, 0));
        }
    }
    Ok(updated)
}

} // verus!
