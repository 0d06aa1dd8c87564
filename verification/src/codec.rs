//! The settings codec: decoding structured stream configuration out of the
//! metadata blob, and encoding it back.

use vstd::prelude::*;
use crate::extern_io::{json_of, json_parse, val_as_array, val_as_bool, val_as_i64, val_as_str,
    val_get, val_model, val_object_entries};
use crate::jsonmodel::{Jv, SettingsEntry, all_string_values, all_strings, entries_sorted_strict,
    entry_values, insert_sorted, jv_get, jv_keys_unique, jv_str, lemma_jv_get_unique, lex_leq,
    lex_lt, obj_entries_unique, sort_entries, string_entries};
use crate::render::{append_i64_dec, append_json_string, append_pad_dec, dec_int,
    lemma_pad_dec_lex, lemma_pad_dec_plain, pad_dec, pow10, render_string};
use crate::types::{StreamError, StreamSettings, StreamSettingsView};

verus! {

/// Looks a key up in a metadata association list: the value of the first entry
/// with that key.
pub open spec fn meta_lookup(m: Seq<(Seq<char>, Seq<char>)>, key: Seq<char>) -> Option<Seq<char>>
    decreases m.len(),
{
    if m.len() == 0 {
        None
    } else if m[0].0 == key {
        Some(m[0].1)
    } else {
        meta_lookup(m.drop_first(), key)
    }
}

/// What decoding the metadata yields: the all-default settings when no
/// `settings` entry is present, `None` when the blob is present but is not
/// well-formed JSON, and the decoded settings otherwise.
pub open spec fn spec_decode(meta: Seq<(Seq<char>, Seq<char>)>) -> Option<StreamSettingsView> {
    match meta_lookup(meta, "settings"@) {
        None => Some(StreamSettingsView::all_default()),
        Some(text) => match json_of(text) {
            None => None,
            Some(v) => Some(spec_decode_value(v)),
        },
    }
}

/// The `skip_schema_validation` flag of the settings document; `false` when the
/// entry is absent or not a boolean.
pub open spec fn spec_skip_validation(v: Jv) -> bool {
    match jv_get(v, "skip_schema_validation"@) {
        Some(Jv::Bool(b)) => b,
        _ => false,
    }
}

/// The `data_retention` period of the settings document; `0` when the entry is
/// absent or not a signed 64-bit integer.
pub open spec fn spec_retention(v: Jv) -> int {
    match jv_get(v, "data_retention"@) {
        Some(Jv::Num(Some(n))) => n as int,
        _ => 0,
    }
}

/// The `full_text_search_keys` of the settings document, in the order found in
/// the array; empty when the entry is absent, not an array, or holds a
/// non-string element.
pub open spec fn spec_fts_keys(v: Jv) -> Seq<Seq<char>> {
    match jv_get(v, "full_text_search_keys"@) {
        Some(Jv::Arr(items)) => if all_strings(items) {
            items.map(|i: int, x: Jv| jv_str(x))
        } else {
            Seq::empty()
        },
        _ => Seq::empty(),
    }
}

/// The `partition_keys` of the settings document: the values of the entry's
/// object, emitted in the lexical order of the object's own keys; empty when
/// the entry is absent, not an object, or holds a non-string value.
pub open spec fn spec_partition_keys(v: Jv) -> Seq<Seq<char>> {
    match jv_get(v, "partition_keys"@) {
        Some(Jv::Obj(es)) => if all_string_values(es) {
            entry_values(sort_entries(string_entries(es)))
        } else {
            Seq::empty()
        },
        _ => Seq::empty(),
    }
}

/// The settings read out of a parsed settings document.
pub open spec fn spec_decode_value(v: Jv) -> StreamSettingsView {
    StreamSettingsView {
        partition_keys: spec_partition_keys(v),
        full_text_search_keys: spec_fts_keys(v),
        skip_schema_validation: spec_skip_validation(v),
        data_retention: spec_retention(v),
    }
}

/// For all metadata without a `settings` entry, decoding yields the all-default
/// settings.
pub proof fn lemma_decode_absent_settings(meta: Seq<(Seq<char>, Seq<char>)>)
    requires
        meta_lookup(meta, "settings"@) is None,
    ensures
        spec_decode(meta) == Some(StreamSettingsView::all_default()),
{
}

/// The value of the first metadata entry with the given key, if any.
pub(crate) fn meta_get<'a>(m: &'a Vec<(String, String)>, key: &str) -> (r: Option<&'a String>)
    ensures
        match meta_lookup(m.deep_view(), key@) {
            Some(t) => r matches Some(x) && x@ == t,
            None => r is None,
        },
{
    let needle: String = key.to_owned();
    let ghost mv = m.deep_view();
    let mut i: usize = 0;
    proof {
        assert(mv.skip(0) =~= mv);
    }
    while i < m.len()
        invariant
            i <= m.len(),
            mv == m.deep_view(),
            mv.len() == m.len(),
            needle@ == key@,
            meta_lookup(mv, key@) == meta_lookup(mv.skip(i as int), key@),
        decreases m.len() - i,
    {
        proof {
            assert(mv.skip(i as int)[0] == mv[i as int]);
            assert(mv.skip(i as int).drop_first() =~= mv.skip(i as int + 1));
        }
        if m[i].0 == needle {
            return Some(&m[i].1);
        }
        i += 1;
    }
    proof {
        assert(mv.skip(i as int) =~= Seq::empty());
    }
    None
}

/// Inserts an entry into a key-sorted vector, keeping the sort.
fn insert_entry(e: (String, String), sorted: Vec<(String, String)>) -> (r: Vec<(String, String)>)
    ensures
        r.deep_view() == insert_sorted((e.0@, e.1@), sorted.deep_view()),
{
    let ghost sv = sorted.deep_view();
    let ghost ev: SettingsEntry = (e.0@, e.1@);
    let mut j: usize = 0;
    loop
        invariant
            j <= sorted.len(),
            sv == sorted.deep_view(),
            sv.len() == sorted.len(),
            ev == (e.0@, e.1@),
            forall|k: int| 0 <= k < j ==> lex_lt((#[trigger] sv[k]).0, ev.0),
        ensures
            j <= sorted.len(),
            forall|k: int| 0 <= k < j ==> lex_lt((#[trigger] sv[k]).0, ev.0),
            j < sorted.len() ==> lex_leq(ev.0, sv[j as int].0),
        decreases sorted.len() - j,
    {
        if j >= sorted.len() {
            break;
        }
        if !str_lex_lt(sorted[j].0.as_str(), e.0.as_str()) {
            break;
        }
        j += 1;
    }
    proof {
        lemma_insert_sorted_at(ev, sv, j as int);
    }
    let mut out = sorted;
    out.insert(j, e);
    proof {
        assert(out.deep_view() =~= sv.subrange(0, j as int) + seq![ev] + sv.skip(j as int));
    }
    out
}

/// Where the first `j` keys of `s` are below `e`'s key and the next one (if
/// any) is not, inserting lands exactly at position `j`.
proof fn lemma_insert_sorted_at(e: SettingsEntry, s: Seq<SettingsEntry>, j: int)
    requires
        0 <= j <= s.len(),
        forall|k: int| 0 <= k < j ==> lex_lt((#[trigger] s[k]).0, e.0),
        j < s.len() ==> lex_leq(e.0, s[j].0),
    ensures
        insert_sorted(e, s) == s.subrange(0, j) + seq![e] + s.skip(j),
    decreases j,
{
    if j == 0 {
        if s.len() == 0 {
            assert(insert_sorted(e, s) =~= s.subrange(0, 0) + seq![e] + s.skip(0));
        } else {
            assert(lex_leq(e.0, s[0].0));
            assert(insert_sorted(e, s) == seq![e] + s);
            assert(seq![e] + s =~= s.subrange(0, 0) + seq![e] + s.skip(0));
        }
    } else {
        assert(lex_lt(s[0].0, e.0));
        crate::jsonmodel::lemma_lex_lt_asymmetric(s[0].0, e.0);
        assert(!lex_leq(e.0, s[0].0));
        let rest = s.drop_first();
        assert(forall|k: int| 0 <= k < j - 1 ==> lex_lt((#[trigger] rest[k]).0, e.0)) by {
            assert(forall|k: int| 0 <= k < j - 1 ==> rest[k] == s[k + 1]);
        }
        lemma_insert_sorted_at(e, rest, j - 1);
        assert(insert_sorted(e, s) == seq![s[0]] + insert_sorted(e, rest));
        assert(seq![s[0]] + (rest.subrange(0, j - 1) + seq![e] + rest.skip(j - 1)) =~= s.subrange(
            0,
            j,
        ) + seq![e] + s.skip(j));
    }
}

/// Sorts settings-blob entries by key in lexical order.
fn sort_settings_entries(entries: Vec<(String, String)>) -> (r: Vec<(String, String)>)
    ensures
        r.deep_view() == sort_entries(entries.deep_view()),
{
    let ghost orig = entries.deep_view();
    let mut rest = entries;
    let mut out: Vec<(String, String)> = Vec::new();
    proof {
        assert(out.deep_view() =~= sort_entries(orig.skip(rest.len() as int)));
    }
    while rest.len() > 0
        invariant
            rest.len() <= orig.len(),
            rest.deep_view() == orig.subrange(0, rest.len() as int),
            out.deep_view() == sort_entries(orig.skip(rest.len() as int)),
        decreases rest.len(),
    {
        let ghost n = rest.len() as int;
        let ghost prev = rest.deep_view();
        let e = rest.pop().unwrap();
        proof {
            assert(rest.deep_view() =~= prev.subrange(0, n - 1));
            assert(prev.subrange(0, n - 1) =~= orig.subrange(0, n - 1));
            assert(prev[n - 1] == (e.0@, e.1@));
            assert(prev[n - 1] == orig[n - 1]);
            assert(orig.skip(n - 1)[0] == orig[n - 1]);
            assert(orig.skip(n - 1).drop_first() =~= orig.skip(n));
        }
        out = insert_entry(e, out);
    }
    proof {
        assert(orig.skip(0) =~= orig);
        assert(rest.deep_view().len() == 0);
    }
    out
}

/// Strict lexicographic comparison of two texts, by code point.
fn str_lex_lt(a: &str, b: &str) -> (r: bool)
    ensures
        r == lex_lt(a@, b@),
{
    let alen = a.unicode_len();
    let blen = b.unicode_len();
    let mut i: usize = 0;
    proof {
        assert(a@.skip(0) =~= a@);
        assert(b@.skip(0) =~= b@);
    }
    loop
        invariant
            i <= alen,
            i <= blen,
            alen == a@.len(),
            blen == b@.len(),
            lex_lt(a@, b@) == lex_lt(a@.skip(i as int), b@.skip(i as int)),
        decreases alen - i,
    {
        if i >= blen {
            return false;
        }
        if i >= alen {
            return true;
        }
        let ca = a.get_char(i) as u32;
        let cb = b.get_char(i) as u32;
        if ca < cb {
            return true;
        }
        if ca > cb {
            return false;
        }
        proof {
            assert(a@.skip(i as int)[0] == a@[i as int]);
            assert(b@.skip(i as int)[0] == b@[i as int]);
            assert(a@.skip(i as int).drop_first() =~= a@.skip(i as int + 1));
            assert(b@.skip(i as int).drop_first() =~= b@.skip(i as int + 1));
        }
        i += 1;
    }
}

/// The `skip_schema_validation` flag of a parsed settings document.
fn read_skip_validation(v: &serde_json::Value) -> (r: bool)
    requires
        jv_keys_unique(val_model(*v)),
    ensures
        r == spec_skip_validation(val_model(*v)),
{
    match val_get(v, "skip_schema_validation") {
        None => false,
        Some(x) => {
            proof {
                lemma_get_found(val_model(*v), val_model(*x), "skip_schema_validation"@);
            }
            match val_as_bool(x) {
                Some(b) => b,
                None => false,
            }
        },
    }
}

/// The `data_retention` period of a parsed settings document.
fn read_retention(v: &serde_json::Value) -> (r: i64)
    requires
        jv_keys_unique(val_model(*v)),
    ensures
        r as int == spec_retention(val_model(*v)),
{
    match val_get(v, "data_retention") {
        None => 0,
        Some(x) => {
            proof {
                lemma_get_found(val_model(*v), val_model(*x), "data_retention"@);
            }
            match val_as_i64(x) {
                Some(n) => n,
                None => 0,
            }
        },
    }
}

/// Where the lookup wrapper handed an entry's value back, the model lookup
/// yields that value.
proof fn lemma_get_found(v: Jv, found: Jv, key: Seq<char>)
    requires
        jv_keys_unique(v),
        v matches Jv::Obj(es) && exists|i: int|
            0 <= i < es.len() && (#[trigger] es[i]).0 == key && found == es[i].1,
    ensures
        jv_get(v, key) == Some(found),
{
    let es = v->Obj_0;
    let i = choose|i: int| 0 <= i < es.len() && (#[trigger] es[i]).0 == key && found == es[i].1;
    lemma_jv_get_unique(es, i);
}

/// The `full_text_search_keys` of a parsed settings document.
fn read_fts_keys(v: &serde_json::Value) -> (r: Vec<String>)
    requires
        jv_keys_unique(val_model(*v)),
    ensures
        r.deep_view() == spec_fts_keys(val_model(*v)),
{
    let empty: Vec<String> = Vec::new();
    proof {
        assert(empty.deep_view() =~= Seq::<Seq<char>>::empty());
    }
    match val_get(v, "full_text_search_keys") {
        None => empty,
        Some(x) => {
            proof {
                lemma_get_found(val_model(*v), val_model(*x), "full_text_search_keys"@);
            }
            match val_as_array(x) {
                None => empty,
                Some(arr) => {
                    let ghost items = val_model(*x)->Arr_0;
                    let mut out: Vec<String> = Vec::new();
                    let mut i: usize = 0;
                    while i < arr.len()
                        invariant
                            i <= arr.len(),
                            arr@.len() == items.len(),
                            forall|k: int|
                                0 <= k < items.len() ==> val_model(#[trigger] arr@[k]) == items[k],
                            val_model(*x) == Jv::Arr(items),
                            spec_fts_keys(val_model(*v)) == spec_fts_keys_of_items(items),
                            out.deep_view().len() == i,
                            forall|k: int|
                                0 <= k < i ==> (#[trigger] out.deep_view()[k]) == jv_str(items[k]),
                            forall|k: int| 0 <= k < i ==> (#[trigger] items[k]) is Str,
                        decreases arr.len() - i,
                    {
                        match val_as_str(&arr[i]) {
                            None => {
                                proof {
                                    assert(!(items[i as int] is Str));
                                    assert(!all_strings(items));
                                    assert(spec_fts_keys_of_items(items)
                                        =~= Seq::<Seq<char>>::empty());
                                }
                                let none_found: Vec<String> = Vec::new();
                                proof {
                                    assert(none_found.deep_view() =~= Seq::<Seq<char>>::empty());
                                }
                                return none_found;
                            },
                            Some(s) => {
                                let owned = s.to_owned();
                                let ghost od = out.deep_view();
                                let ghost ov = owned@;
                                out.push(owned);
                                proof {
                                    assert(out.deep_view() =~= od.push(ov));
                                }
                            },
                        }
                        i += 1;
                    }
                    proof {
                        assert(all_strings(items));
                        assert(out.deep_view() =~= items.map(|k: int, e: Jv| jv_str(e)));
                    }
                    out
                },
            }
        },
    }
}

/// The full-text-search keys a settings document with the given array items
/// yields.
spec fn spec_fts_keys_of_items(items: Seq<Jv>) -> Seq<Seq<char>> {
    if all_strings(items) {
        items.map(|i: int, x: Jv| jv_str(x))
    } else {
        Seq::empty()
    }
}

/// The `partition_keys` of a parsed settings document, in lexical order of the
/// blob's own keys.
fn read_partition_keys(v: &serde_json::Value) -> (r: Vec<String>)
    requires
        jv_keys_unique(val_model(*v)),
    ensures
        r.deep_view() == spec_partition_keys(val_model(*v)),
{
    let empty: Vec<String> = Vec::new();
    proof {
        assert(empty.deep_view() =~= Seq::<Seq<char>>::empty());
    }
    match val_get(v, "partition_keys") {
        None => empty,
        Some(x) => {
            proof {
                lemma_get_found(val_model(*v), val_model(*x), "partition_keys"@);
            }
            match val_object_entries(x) {
                None => empty,
                Some(entries) => {
                    let ghost es = val_model(*x)->Obj_0;
                    let mut pairs: Vec<(String, String)> = Vec::new();
                    let mut i: usize = 0;
                    while i < entries.len()
                        invariant
                            i <= entries.len(),
                            entries@.len() == es.len(),
                            forall|k: int|
                                0 <= k < es.len() ==> (#[trigger] entries@[k]).0@ == es[k].0
                                    && val_model(entries@[k].1) == es[k].1,
                            val_model(*x) == Jv::Obj(es),
                            spec_partition_keys(val_model(*v)) == spec_partition_of_entries(es),
                            pairs.deep_view().len() == i,
                            forall|k: int|
                                0 <= k < i ==> (#[trigger] pairs.deep_view()[k]) == (
                                es[k].0,
                                jv_str(es[k].1),
                                ),
                            forall|k: int| 0 <= k < i ==> (#[trigger] es[k]).1 is Str,
                        decreases entries.len() - i,
                    {
                        let value = match val_as_str(&entries[i].1) {
                            None => {
                                proof {
                                    assert(!((es[i as int]).1 is Str));
                                    assert(!all_string_values(es));
                                    assert(spec_partition_of_entries(es)
                                        =~= Seq::<Seq<char>>::empty());
                                }
                                let none_found: Vec<String> = Vec::new();
                                proof {
                                    assert(none_found.deep_view() =~= Seq::<Seq<char>>::empty());
                                }
                                return none_found;
                            },
                            Some(s) => s.to_owned(),
                        };
                        let key = entries[i].0.clone();
                        let ghost pd = pairs.deep_view();
                        let ghost kv: SettingsEntry = (key@, value@);
                        pairs.push((key, value));
                        proof {
                            assert(pairs.deep_view() =~= pd.push(kv));
                        }
                        i += 1;
                    }
                    proof {
                        assert(all_string_values(es));
                        assert(pairs.deep_view() =~= string_entries(es));
                    }
                    let sorted = sort_settings_entries(pairs);
                    let mut out: Vec<String> = Vec::new();
                    let ghost sv = sorted.deep_view();
                    let mut j: usize = 0;
                    while j < sorted.len()
                        invariant
                            j <= sorted.len(),
                            sv == sorted.deep_view(),
                            sv.len() == sorted.len(),
                            out.deep_view().len() == j,
                            forall|k: int|
                                0 <= k < j ==> (#[trigger] out.deep_view()[k]) == sv[k].1,
                        decreases sorted.len() - j,
                    {
                        let value = sorted[j].1.clone();
                        let ghost od = out.deep_view();
                        let ghost ov = value@;
                        out.push(value);
                        proof {
                            assert(out.deep_view() =~= od.push(ov));
                        }
                        j += 1;
                    }
                    proof {
                        assert(out.deep_view() =~= entry_values(sv));
                    }
                    out
                },
            }
        },
    }
}

/// The partition keys a settings document with the given object entries yields.
spec fn spec_partition_of_entries(es: Seq<(Seq<char>, Jv)>) -> Seq<Seq<char>> {
    if all_string_values(es) {
        entry_values(sort_entries(string_entries(es)))
    } else {
        Seq::empty()
    }
}

/// The settings read out of a parsed settings document.
fn decode_value(v: &serde_json::Value) -> (r: StreamSettings)
    requires
        jv_keys_unique(val_model(*v)),
    ensures
        r@ == spec_decode_value(val_model(*v)),
{
    StreamSettings {
        partition_keys: read_partition_keys(v),
        full_text_search_keys: read_fts_keys(v),
        skip_schema_validation: read_skip_validation(v),
        data_retention: read_retention(v),
    }
}

/// Decodes the structured stream configuration out of a metadata map. Absence
/// of the `settings` entry, and any absent or mismatched field inside it, falls
/// back to that field's default; a present settings blob that is not
/// well-formed JSON is a hard error.
pub fn decode(metadata: &Vec<(String, String)>) -> (r: Result<StreamSettings, StreamError>)
    ensures
        r is Ok <==> spec_decode(metadata.deep_view()) is Some,
        r matches Ok(s) ==> Some(s@) == spec_decode(metadata.deep_view()),
        r matches Err(e) ==> e == StreamError::MalformedSettings,
{
    match meta_get(metadata, "settings") {
        None => Ok(StreamSettings::default()),
        Some(text) => match json_parse(text.as_str()) {
            None => Err(StreamError::MalformedSettings),
            Some(v) => Ok(decode_value(&v)),
        },
    }
}

/// The text the encoder writes for the first `i` partition keys: one object
/// entry per key, the entry's own key a zero-padded position so that decoding
/// recovers the order.
pub open spec fn render_pk_upto(pks: Seq<Seq<char>>, i: int) -> Seq<char>
    decreases i,
{
    if i <= 0 {
        Seq::empty()
    } else {
        render_pk_upto(pks, i - 1) + (if i > 1 {
            seq![',']
        } else {
            Seq::empty()
        }) + render_string(pad_dec(20, (i - 1) as nat)) + seq![':'] + render_string(pks[i - 1])
    }
}

/// The text the encoder writes for the first `i` full-text-search keys.
pub open spec fn render_arr_upto(xs: Seq<Seq<char>>, i: int) -> Seq<char>
    decreases i,
{
    if i <= 0 {
        Seq::empty()
    } else {
        render_arr_upto(xs, i - 1) + (if i > 1 {
            seq![',']
        } else {
            Seq::empty()
        }) + render_string(xs[i - 1])
    }
}

/// The settings blob text the encoder writes.
pub open spec fn spec_encode(sv: StreamSettingsView) -> Seq<char> {
    "{\"partition_keys\":{"@ + render_pk_upto(sv.partition_keys, sv.partition_keys.len() as int)
        + "},\"full_text_search_keys\":["@ + render_arr_upto(
        sv.full_text_search_keys,
        sv.full_text_search_keys.len() as int,
    ) + "],\"skip_schema_validation\":"@ + (if sv.skip_schema_validation {
        "true"@
    } else {
        "false"@
    }) + ",\"data_retention\":"@ + dec_int(sv.data_retention) + "}"@
}

/// Serializes the settings as a JSON settings blob. Partition keys are written
/// as an object whose keys are zero-padded positions, so that decoding, which
/// sorts that object's keys lexically, reconstructs the same order.
pub fn encode(settings: &StreamSettings) -> (r: String)
    ensures
        r@ == spec_encode(settings@),
{
    let ghost pks = settings@.partition_keys;
    let ghost fts = settings@.full_text_search_keys;
    let mut s = String::new();
    s.append("{\"partition_keys\":{");
    proof {
        assert(s@ =~= "{\"partition_keys\":{"@);
        assert(render_pk_upto(pks, 0) =~= Seq::<char>::empty());
        assert(s@ + render_pk_upto(pks, 0) =~= s@);
    }
    let n = settings.partition_keys.len();
    let mut i: usize = 0;
    while i < n
        invariant
            i <= n,
            n == pks.len(),
            pks == settings@.partition_keys,
            s@ == "{\"partition_keys\":{"@ + render_pk_upto(pks, i as int),
        decreases n - i,
    {
        let ghost before = s@;
        if i > 0 {
            s.append(",");
            proof {
                reveal_strlit(",");
                assert(","@ =~= seq![',']);
            }
        }
        s.append("\"");
        append_pad_dec(&mut s, 20, i as u64);
        s.append("\":");
        append_json_string(&mut s, settings.partition_keys[i].as_str());
        proof {
            reveal_strlit("\"");
            reveal_strlit("\":");
            assert("\""@ =~= seq!['"']);
            assert("\":"@ =~= seq!['"', ':']);
            lemma_pad_dec_plain(20, i as nat);
            let sep: Seq<char> = if i > 0 {
                seq![',']
            } else {
                Seq::empty()
            };
            assert(settings.partition_keys@[i as int]@ == pks[i as int]);
            assert(s@ =~= before + sep + render_string(pad_dec(20, i as nat)) + seq![':']
                + render_string(pks[i as int]));
            assert(s@ =~= "{\"partition_keys\":{"@ + render_pk_upto(pks, i as int + 1));
        }
        i += 1;
    }
    s.append("},\"full_text_search_keys\":[");
    proof {
        assert(render_arr_upto(fts, 0) =~= Seq::<char>::empty());
        assert(s@ =~= "{\"partition_keys\":{"@ + render_pk_upto(pks, pks.len() as int)
            + "},\"full_text_search_keys\":["@ + render_arr_upto(fts, 0));
    }
    let m = settings.full_text_search_keys.len();
    let mut j: usize = 0;
    while j < m
        invariant
            j <= m,
            m == fts.len(),
            fts == settings@.full_text_search_keys,
            pks == settings@.partition_keys,
            s@ == "{\"partition_keys\":{"@ + render_pk_upto(pks, pks.len() as int)
                + "},\"full_text_search_keys\":["@ + render_arr_upto(fts, j as int),
        decreases m - j,
    {
        let ghost before = s@;
        if j > 0 {
            s.append(",");
            proof {
                reveal_strlit(",");
                assert(","@ =~= seq![',']);
            }
        }
        append_json_string(&mut s, settings.full_text_search_keys[j].as_str());
        proof {
            let sep: Seq<char> = if j > 0 {
                seq![',']
            } else {
                Seq::empty()
            };
            assert(settings.full_text_search_keys@[j as int]@ == fts[j as int]);
            assert(s@ =~= before + sep + render_string(fts[j as int]));
            assert(s@ =~= "{\"partition_keys\":{"@ + render_pk_upto(pks, pks.len() as int)
                + "},\"full_text_search_keys\":["@ + render_arr_upto(fts, j as int + 1));
        }
        j += 1;
    }
    let ghost mid = s@;
    s.append("],\"skip_schema_validation\":");
    if settings.skip_schema_validation {
        s.append("true");
    } else {
        s.append("false");
    }
    s.append(",\"data_retention\":");
    append_i64_dec(&mut s, settings.data_retention);
    s.append("}");
    proof {
        let flag: Seq<char> = if settings@.skip_schema_validation {
            "true"@
        } else {
            "false"@
        };
        assert(s@ =~= mid + "],\"skip_schema_validation\":"@ + flag + ",\"data_retention\":"@
            + dec_int(settings@.data_retention) + "}"@);
        assert(s@ =~= spec_encode(settings@));
    }
    s
}

/// The model document the encoder's settings blob denotes: one object entry per
/// partition key, keyed by its zero-padded position; the full-text-search keys
/// as an array of strings; the flag and the retention as themselves.
pub open spec fn encode_jv(sv: StreamSettingsView) -> Jv {
    Jv::Obj(
        seq![
            (
                "partition_keys"@,
                Jv::Obj(
                    Seq::new(
                        sv.partition_keys.len(),
                        |i: int| (pad_dec(20, i as nat), Jv::Str(sv.partition_keys[i])),
                    ),
                ),
            ),
            (
                "full_text_search_keys"@,
                Jv::Arr(
                    Seq::new(
                        sv.full_text_search_keys.len(),
                        |i: int| Jv::Str(sv.full_text_search_keys[i]),
                    ),
                ),
            ),
            ("skip_schema_validation"@, Jv::Bool(sv.skip_schema_validation)),
            ("data_retention"@, Jv::Num(Some(sv.data_retention as i64))),
        ],
    )
}

/// Round trip: decoding the document the encoder wrote reconstructs the same
/// settings. In particular, sorting the written object's padded keys lexically
/// recovers the partition keys in their original order.
pub proof fn lemma_codec_round_trip(sv: StreamSettingsView)
    requires
        sv.partition_keys.len() < pow10(20),
        i64::MIN <= sv.data_retention <= i64::MAX,
    ensures
        spec_decode_value(encode_jv(sv)) == sv,
{
    reveal_strlit("partition_keys");
    reveal_strlit("full_text_search_keys");
    reveal_strlit("skip_schema_validation");
    reveal_strlit("data_retention");
    let es = encode_jv(sv)->Obj_0;
    assert(obj_entries_unique(es)) by {
        assert("partition_keys"@.len() == 14);
        assert("full_text_search_keys"@.len() == 21);
        assert("skip_schema_validation"@.len() == 22);
        assert("data_retention"@.len() == 14);
        assert("partition_keys"@[0] == 'p' && "data_retention"@[0] == 'd');
    }
    lemma_jv_get_unique(es, 0);
    lemma_jv_get_unique(es, 1);
    lemma_jv_get_unique(es, 2);
    lemma_jv_get_unique(es, 3);
    // the flag and the retention come back as themselves
    assert(spec_skip_validation(encode_jv(sv)) == sv.skip_schema_validation);
    assert(spec_retention(encode_jv(sv)) == sv.data_retention);
    // the full-text-search keys come back in array order
    let items = Seq::new(
        sv.full_text_search_keys.len(),
        |i: int| Jv::Str(sv.full_text_search_keys[i]),
    );
    assert(all_strings(items));
    assert(spec_fts_keys(encode_jv(sv)) =~= sv.full_text_search_keys);
    // the partition keys come back in the order of their padded positions
    let pes = Seq::new(
        sv.partition_keys.len(),
        |i: int| (pad_dec(20, i as nat), Jv::Str(sv.partition_keys[i])),
    );
    assert(all_string_values(pes));
    let stringed = string_entries(pes);
    assert(entries_sorted_strict(stringed)) by {
        assert forall|i: int, j: int| 0 <= i < j < stringed.len() implies lex_lt(
            (#[trigger] stringed[i]).0,
            (#[trigger] stringed[j]).0,
        ) by {
            lemma_pad_dec_lex(20, i as nat, j as nat);
        }
    }
    crate::jsonmodel::lemma_sort_entries_sorted_id(stringed);
    assert(entry_values(sort_entries(stringed)) =~= sv.partition_keys);
    assert(spec_partition_keys(encode_jv(sv)) == entry_values(sort_entries(string_entries(pes))));
    assert(spec_decode_value(encode_jv(sv)) =~= sv);
}

/// The metadata map with the entry for the key inserted, or its first
/// occurrence overwritten.
pub open spec fn meta_upsert(
    m: Seq<(Seq<char>, Seq<char>)>,
    key: Seq<char>,
    value: Seq<char>,
) -> Seq<(Seq<char>, Seq<char>)>
    decreases m.len(),
{
    if m.len() == 0 {
        seq![(key, value)]
    } else if m[0].0 == key {
        seq![(key, value)] + m.drop_first()
    } else {
        seq![m[0]] + meta_upsert(m.drop_first(), key, value)
    }
}

/// Where entry `j` is the first with the key, upserting overwrites it in place.
proof fn lemma_meta_upsert_found(
    m: Seq<(Seq<char>, Seq<char>)>,
    key: Seq<char>,
    value: Seq<char>,
    j: int,
)
    requires
        0 <= j < m.len(),
        m[j].0 == key,
        forall|k: int| 0 <= k < j ==> (#[trigger] m[k]).0 != key,
    ensures
        meta_upsert(m, key, value) == m.update(j, (key, value)),
    decreases j,
{
    if j == 0 {
        assert(meta_upsert(m, key, value) == seq![(key, value)] + m.drop_first());
        assert(seq![(key, value)] + m.drop_first() =~= m.update(0, (key, value)));
    } else {
        let rest = m.drop_first();
        assert(forall|k: int| 0 <= k < j - 1 ==> (#[trigger] rest[k]).0 != key) by {
            assert(forall|k: int| 0 <= k < j - 1 ==> rest[k] == m[k + 1]);
        }
        lemma_meta_upsert_found(rest, key, value, j - 1);
        assert(seq![m[0]] + rest.update(j - 1, (key, value)) =~= m.update(j, (key, value)));
    }
}

/// Where no entry has the key, upserting appends a new entry.
proof fn lemma_meta_upsert_absent(m: Seq<(Seq<char>, Seq<char>)>, key: Seq<char>, value: Seq<char>)
    requires
        forall|k: int| 0 <= k < m.len() ==> (#[trigger] m[k]).0 != key,
    ensures
        meta_upsert(m, key, value) == m.push((key, value)),
    decreases m.len(),
{
    if m.len() == 0 {
        assert(meta_upsert(m, key, value) =~= m.push((key, value)));
    } else {
        let rest = m.drop_first();
        assert(forall|k: int| 0 <= k < rest.len() ==> (#[trigger] rest[k]).0 != key) by {
            assert(forall|k: int| 0 <= k < rest.len() ==> rest[k] == m[k + 1]);
        }
        lemma_meta_upsert_absent(rest, key, value);
        assert(seq![m[0]] + rest.push((key, value)) =~= m.push((key, value)));
    }
}

/// A copy of the metadata map with the entry for the key inserted or its first
/// occurrence overwritten.
pub(crate) fn meta_upsert_exec(m: &Vec<(String, String)>, key: &str, value: &String) -> (r: Vec<
    (String, String),
>)
    ensures
        r.deep_view() == meta_upsert(m.deep_view(), key@, value@),
{
    let ghost mv = m.deep_view();
    let needle: String = key.to_owned();
    let mut j: usize = 0;
    loop
        invariant
            j <= m.len(),
            mv == m.deep_view(),
            mv.len() == m.len(),
            needle@ == key@,
            forall|k: int| 0 <= k < j ==> (#[trigger] mv[k]).0 != key@,
        ensures
            j <= m.len(),
            forall|k: int| 0 <= k < j ==> (#[trigger] mv[k]).0 != key@,
            j < m.len() ==> mv[j as int].0 == key@,
        decreases m.len() - j,
    {
        if j >= m.len() {
            break;
        }
        if m[j].0 == needle {
            break;
        }
        j += 1;
    }
    let mut out: Vec<(String, String)> = Vec::new();
    let mut i: usize = 0;
    let ghost target = if j < m.len() {
        mv.update(j as int, (key@, value@))
    } else {
        mv.push((key@, value@))
    };
    while i < m.len()
        invariant
            i <= m.len(),
            mv == m.deep_view(),
            mv.len() == m.len(),
            needle@ == key@,
            target == (if j < m.len() {
                mv.update(j as int, (key@, value@))
            } else {
                mv.push((key@, value@))
            }),
            out.deep_view().len() == i,
            forall|k: int| 0 <= k < i ==> (#[trigger] out.deep_view()[k]) == target[k],
        decreases m.len() - i,
    {
        let ghost od = out.deep_view();
        if i == j {
            let ghost pv: SettingsEntry = (needle@, value@);
            out.push((needle.clone(), value.clone()));
            proof {
                assert(out.deep_view() =~= od.push(pv));
            }
        } else {
            let entry = (m[i].0.clone(), m[i].1.clone());
            let ghost pv: SettingsEntry = (entry.0@, entry.1@);
            out.push(entry);
            proof {
                assert(out.deep_view() =~= od.push(pv));
            }
        }
        i += 1;
    }
    if j >= m.len() {
        let ghost od = out.deep_view();
        let ghost pv: SettingsEntry = (needle@, value@);
        out.push((needle, value.clone()));
        proof {
            assert(out.deep_view() =~= od.push(pv));
        }
    }
    proof {
        if j < m.len() {
            lemma_meta_upsert_found(mv, key@, value@, j as int);
            assert(out.deep_view() =~= target);
        } else {
            lemma_meta_upsert_absent(mv, key@, value@);
            assert(out.deep_view() =~= target);
        }
    }
    out
}

} // verus!
