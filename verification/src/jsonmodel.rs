//! Mathematical model of parsed settings documents and the lexical key order
//! used by the partition-key codec.

use vstd::prelude::*;

verus! {

/// Model of a JSON value as the settings codec reads it. A number is modeled by
/// what reading it as a signed 64-bit integer yields; object entries appear in
/// the underlying map's iteration order.
pub enum Jv {
    Null,
    Bool(bool),
    Num(Option<i64>),
    Str(Seq<char>),
    Arr(Seq<Jv>),
    Obj(Seq<(Seq<char>, Jv)>),
}

/// No two entries of the object share a key.
pub open spec fn obj_entries_unique(es: Seq<(Seq<char>, Jv)>) -> bool {
    forall|i: int, j: int| 0 <= i < j < es.len() ==> (#[trigger] es[i]).0 != (#[trigger] es[j]).0
}

/// Every object anywhere in the value has pairwise distinct keys.
pub open spec fn jv_keys_unique(v: Jv) -> bool
    decreases v,
{
    match v {
        Jv::Obj(es) => obj_entries_unique(es) && (forall|i: int|
            0 <= i < es.len() ==> jv_keys_unique((#[trigger] es[i]).1)),
        Jv::Arr(items) => forall|i: int| 0 <= i < items.len() ==> jv_keys_unique(#[trigger] items[i]),
        _ => true,
    }
}

/// Looks a key up in the value: the matching entry of an object, `None` on a
/// non-object or an absent key.
pub open spec fn jv_get(v: Jv, key: Seq<char>) -> Option<Jv> {
    match v {
        Jv::Obj(es) => if exists|i: int| 0 <= i < es.len() && (#[trigger] es[i]).0 == key {
            Some(es[choose|i: int| 0 <= i < es.len() && (#[trigger] es[i]).0 == key].1)
        } else {
            None
        },
        _ => None,
    }
}

/// In an object with distinct keys, looking up the key of entry `i` yields that
/// entry's value.
pub proof fn lemma_jv_get_unique(es: Seq<(Seq<char>, Jv)>, i: int)
    requires
        obj_entries_unique(es),
        0 <= i < es.len(),
    ensures
        jv_get(Jv::Obj(es), es[i].0) == Some(es[i].1),
{
    let key = es[i].0;
    assert(exists|j: int| 0 <= j < es.len() && (#[trigger] es[j]).0 == key);
    let j = choose|j: int| 0 <= j < es.len() && (#[trigger] es[j]).0 == key;
    if i != j {
        assert(es[i].0 != es[j].0 || es[j].0 != es[i].0);
    }
}

/// The character sequence of a string value; the empty sequence on any other kind.
pub open spec fn jv_str(v: Jv) -> Seq<char> {
    match v {
        Jv::Str(s) => s,
        _ => Seq::empty(),
    }
}

/// Every element of the sequence is a string value.
pub open spec fn all_strings(items: Seq<Jv>) -> bool {
    forall|i: int| 0 <= i < items.len() ==> (#[trigger] items[i]) is Str
}

/// Every value of the object's entries is a string value.
pub open spec fn all_string_values(es: Seq<(Seq<char>, Jv)>) -> bool {
    forall|i: int| 0 <= i < es.len() ==> (#[trigger] es[i]).1 is Str
}

/// The object's entries with each value read as a string.
pub open spec fn string_entries(es: Seq<(Seq<char>, Jv)>) -> Seq<(Seq<char>, Seq<char>)> {
    es.map(|i: int, e: (Seq<char>, Jv)| (e.0, jv_str(e.1)))
}

/// Strict lexicographic order on character sequences, by code point.
pub open spec fn lex_lt(a: Seq<char>, b: Seq<char>) -> bool
    decreases a.len(),
{
    if b.len() == 0 {
        false
    } else if a.len() == 0 {
        true
    } else if (a[0] as u32) < (b[0] as u32) {
        true
    } else if (a[0] as u32) == (b[0] as u32) {
        lex_lt(a.drop_first(), b.drop_first())
    } else {
        false
    }
}

/// Non-strict lexicographic order.
pub open spec fn lex_leq(a: Seq<char>, b: Seq<char>) -> bool {
    !lex_lt(b, a)
}

/// The strict order is asymmetric, so `lex_lt` implies `lex_leq`.
pub proof fn lemma_lex_lt_asymmetric(a: Seq<char>, b: Seq<char>)
    requires
        lex_lt(a, b),
    ensures
        !lex_lt(b, a),
    decreases a.len(),
{
    if a.len() != 0 && b.len() != 0 && (a[0] as u32) == (b[0] as u32) {
        lemma_lex_lt_asymmetric(a.drop_first(), b.drop_first());
    }
}

/// Appending on the right keeps a strict comparison that was decided between
/// sequences of equal length.
pub proof fn lemma_lex_lt_append(a: Seq<char>, b: Seq<char>, x: Seq<char>, y: Seq<char>)
    requires
        lex_lt(a, b),
        a.len() == b.len(),
    ensures
        lex_lt(a + x, b + y),
    decreases a.len(),
{
    if a.len() == 0 {
        assert(false);
    } else {
        assert((a + x)[0] == a[0]);
        assert((b + y)[0] == b[0]);
        if (a[0] as u32) == (b[0] as u32) {
            lemma_lex_lt_append(a.drop_first(), b.drop_first(), x, y);
            assert((a + x).drop_first() =~= a.drop_first() + x);
            assert((b + y).drop_first() =~= b.drop_first() + y);
        } else {
            assert((a[0] as u32) < (b[0] as u32));
        }
    }
}

/// Equal prefixes postpone the comparison to what follows them.
pub proof fn lemma_lex_common_prefix(p: Seq<char>, x: Seq<char>, y: Seq<char>)
    requires
        lex_lt(x, y),
    ensures
        lex_lt(p + x, p + y),
    decreases p.len(),
{
    if p.len() == 0 {
        assert(p + x =~= x);
        assert(p + y =~= y);
    } else {
        lemma_lex_common_prefix(p.drop_first(), x, y);
        assert((p + x)[0] == p[0]);
        assert((p + y)[0] == p[0]);
        assert((p + x).drop_first() =~= p.drop_first() + x);
        assert((p + y).drop_first() =~= p.drop_first() + y);
    }
}

/// A settings-blob object entry reduced to plain values: a key and a string value.
pub type SettingsEntry = (Seq<char>, Seq<char>);

/// Inserts an entry into a key-sorted sequence, before the first entry whose key
/// is not below the inserted one.
pub open spec fn insert_sorted(e: SettingsEntry, s: Seq<SettingsEntry>) -> Seq<SettingsEntry>
    decreases s.len(),
{
    if s.len() == 0 {
        seq![e]
    } else if lex_leq(e.0, s[0].0) {
        seq![e] + s
    } else {
        seq![s[0]] + insert_sorted(e, s.drop_first())
    }
}

/// Sorts the entries by key in lexical order: the order that positions of
/// partition keys are recovered in.
pub open spec fn sort_entries(s: Seq<SettingsEntry>) -> Seq<SettingsEntry>
    decreases s.len(),
{
    if s.len() == 0 {
        Seq::empty()
    } else {
        insert_sorted(s[0], sort_entries(s.drop_first()))
    }
}

/// The keys appear in strictly ascending lexical order.
pub open spec fn entries_sorted_strict(s: Seq<SettingsEntry>) -> bool {
    forall|i: int, j: int| 0 <= i < j < s.len() ==> lex_lt((#[trigger] s[i]).0, (#[trigger] s[j]).0)
}

/// Sorting a strictly key-sorted sequence leaves it unchanged.
pub proof fn lemma_sort_entries_sorted_id(s: Seq<SettingsEntry>)
    requires
        entries_sorted_strict(s),
    ensures
        sort_entries(s) == s,
    decreases s.len(),
{
    if s.len() == 0 {
        assert(sort_entries(s) =~= s);
    } else {
        assert(entries_sorted_strict(s.drop_first()));
        lemma_sort_entries_sorted_id(s.drop_first());
        let rest = s.drop_first();
        if rest.len() == 0 {
            assert(sort_entries(s) =~= s);
        } else {
            assert(s[0].0 == s[0].0 && rest[0] == s[1]);
            assert(lex_lt(s[0].0, s[1].0));
            lemma_lex_lt_asymmetric(s[0].0, s[1].0);
            assert(lex_leq(s[0].0, rest[0].0));
            assert(sort_entries(s) == seq![s[0]] + rest);
            assert(seq![s[0]] + rest =~= s);
        }
    }
}

/// The values of the entries, in entry order.
pub open spec fn entry_values(s: Seq<SettingsEntry>) -> Seq<Seq<char>> {
    s.map(|i: int, e: SettingsEntry| e.1)
}

} // verus!
