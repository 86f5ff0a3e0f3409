//! The `jira` section of an issue's extension metadata: what an import writes,
//! what a sync reads, and the updates a sync makes.
use vstd::prelude::*;

use crate::json::{entry, find_key, first_key, get, json_get, lemma_first_key_bounds, opt_str, Json};
use crate::text::{owned, str_equal, to_uppercase, text_uppercase};
use crate::types::JiraTransition;

verus! {

// ---------------------------------------------------------------------------
// Specification
// ---------------------------------------------------------------------------

/// `Map::insert` on object entries: the value of an existing key is replaced
/// (the key kept), a new key is appended.
pub open spec fn insert_entry(entries: Seq<(String, Json)>, key: String, value: Json) -> Seq<
    (String, Json),
> {
    match first_key(entries, key@) {
        Some(i) => entries.update(i, (entries[i].0, value)),
        None => entries.push((key, value)),
    }
}

/// Each field inserted in order, later fields overriding earlier ones.
pub open spec fn insert_all(entries: Seq<(String, Json)>, fields: Seq<(String, Json)>) -> Seq<
    (String, Json),
>
    decreases fields.len(),
{
    if fields.len() == 0 {
        entries
    } else {
        let prev = insert_all(entries, fields.drop_last());
        insert_entry(prev, fields.last().0, fields.last().1)
    }
}

/// The cached transitions of an import: for each transition that leads into a
/// status category, the category key mapped to the transition id; a later
/// transition into the same category replaces an earlier one.
pub open spec fn transition_entries(transitions: Seq<JiraTransition>) -> Seq<(String, Json)>
    decreases transitions.len(),
{
    if transitions.len() == 0 {
        Seq::empty()
    } else {
        let prev = transition_entries(transitions.drop_last());
        let t = transitions.last();
        match t.to.status_category {
            Some(cat) => insert_entry(prev, cat.key, Json::Text(t.id)),
            None => prev,
        }
    }
}

/// `metadata.jira.issue_key` as a string.
pub open spec fn linked_issue_key(metadata: Json) -> Option<Seq<char>> {
    match json_get(metadata, "jira"@) {
        Some(j) => opt_str(json_get(j, "issue_key"@)),
        None => None,
    }
}

/// `r` is `metadata` with `fields` inserted into its `jira` object; metadata
/// without a `jira` object is left as it is.
pub open spec fn jira_fields_set(metadata: Json, fields: Seq<(String, Json)>, r: Json) -> bool {
    match metadata {
        Json::Object(e) => match first_key(e@, "jira"@) {
            Some(i) => match e@[i].1 {
                Json::Object(inner) => {
                    &&& r matches Json::Object(e2)
                    &&& e2@.len() == e@.len()
                    &&& forall|k: int| 0 <= k < e@.len() && k != i ==> #[trigger] e2@[k] == e@[k]
                    &&& e2@[i].0 == e@[i].0
                    &&& e2@[i].1 matches Json::Object(inner2)
                    &&& inner2@ == insert_all(inner@, fields)
                },
                _ => r matches Json::Object(e2) && e2@ == e@,
            },
            None => r == metadata,
        },
        _ => r == metadata,
    }
}

// ---------------------------------------------------------------------------
// Laws
// ---------------------------------------------------------------------------

/// After inserting a key, looking it up gives the inserted value, and every
/// other key gives what it gave before.
pub proof fn lemma_insert_entry_lookup(
    entries: Seq<(String, Json)>,
    key: String,
    value: Json,
    other: Seq<char>,
)
    ensures
        entry(insert_entry(entries, key, value), key@) == Some(value),
        other != key@ ==> entry(insert_entry(entries, key, value), other) == entry(entries, other),
{
    lemma_first_key_bounds(entries, key@);
    lemma_first_key_bounds(entries, other);
    let r = insert_entry(entries, key, value);
    lemma_first_key_bounds(r, key@);
    lemma_first_key_bounds(r, other);
    match first_key(entries, key@) {
        Some(i) => {
            lemma_first_key_same_keys(entries, r, key@);
            lemma_first_key_same_keys(entries, r, other);
        },
        None => {
            lemma_first_key_push(entries, key, value, key@);
            lemma_first_key_push(entries, key, value, other);
        },
    }
}

proof fn lemma_first_key_same_keys(a: Seq<(String, Json)>, b: Seq<(String, Json)>, key: Seq<char>)
    requires
        a.len() == b.len(),
        forall|k: int| 0 <= k < a.len() ==> (#[trigger] a[k]).0@ == b[k].0@,
    ensures
        first_key(a, key) == first_key(b, key),
    decreases a.len(),
{
    if a.len() > 0 {
        assert(a[0].0@ == b[0].0@);
        lemma_first_key_same_keys(a.drop_first(), b.drop_first(), key);
    }
}

proof fn lemma_first_key_push(a: Seq<(String, Json)>, key: String, value: Json, k: Seq<char>)
    requires
        first_key(a, key@) is None,
    ensures
        first_key(a.push((key, value)), k) == (match first_key(a, k) {
            Some(i) => Some(i),
            None => if k == key@ {
                Some(a.len() as int)
            } else {
                None
            },
        }),
    decreases a.len(),
{
    if a.len() > 0 {
        assert(a.push((key, value)).drop_first() =~= a.drop_first().push((key, value)));
        assert(a.push((key, value))[0] == a[0]);
        if a[0].0@ != key@ {
            assert(first_key(a.drop_first(), key@) is None);
        }
        if a[0].0@ != k {
            lemma_first_key_push(a.drop_first(), key, value, k);
            assert(first_key(a.push((key, value)), k) == match first_key(
                a.drop_first().push((key, value)),
                k,
            ) {
                Some(i) => Some(i + 1),
                None => None,
            });
            assert(first_key(a, k) == match first_key(a.drop_first(), k) {
                Some(i) => Some(i + 1),
                None => None,
            });
        }
    } else {
        assert(a.push((key, value)).drop_first() =~= Seq::<(String, Json)>::empty());
        assert(a.push((key, value))[0].0@ == key@);
        assert(first_key(a.push((key, value)).drop_first(), k) is None);
        assert(first_key(a, k) is None);
    }
}

/// Reading back a written field: after all fields are inserted, a key gives
/// the value of its last field, and a key that no field names gives what it
/// gave before.
pub proof fn lemma_insert_all_lookup(
    entries: Seq<(String, Json)>,
    fields: Seq<(String, Json)>,
    key: Seq<char>,
)
    ensures
        (exists|j: int| 0 <= j < fields.len() && (#[trigger] fields[j]).0@ == key) ==> entry(
            insert_all(entries, fields),
            key,
        ) == Some(fields[last_index_of(fields, key)].1),
        (forall|j: int| 0 <= j < fields.len() ==> (#[trigger] fields[j]).0@ != key) ==> entry(
            insert_all(entries, fields),
            key,
        ) == entry(entries, key),
    decreases fields.len(),
{
    if fields.len() > 0 {
        let prev = fields.drop_last();
        lemma_insert_all_lookup(entries, prev, key);
        lemma_insert_entry_lookup(insert_all(entries, prev), fields.last().0, fields.last().1, key);
        if fields.last().0@ != key {
            if exists|j: int| 0 <= j < fields.len() && (#[trigger] fields[j]).0@ == key {
                let j = choose|j: int| 0 <= j < fields.len() && (#[trigger] fields[j]).0@ == key;
                assert(prev[j].0@ == key);
                lemma_last_index_of_drop_last(fields, key);
            }
            assert forall|j: int| 0 <= j < prev.len() implies (#[trigger] prev[j]).0@ == fields[j].0@ by {}
        }
    }
}

/// The index of the last field named `key` (0 when there is none).
pub open spec fn last_index_of(fields: Seq<(String, Json)>, key: Seq<char>) -> int
    decreases fields.len(),
{
    if fields.len() == 0 {
        0
    } else if fields.last().0@ == key {
        fields.len() - 1
    } else {
        last_index_of(fields.drop_last(), key)
    }
}

proof fn lemma_last_index_of_drop_last(fields: Seq<(String, Json)>, key: Seq<char>)
    requires
        fields.len() > 0,
        fields.last().0@ != key,
    ensures
        last_index_of(fields, key) == last_index_of(fields.drop_last(), key),
        fields[last_index_of(fields, key)] == fields.drop_last()[last_index_of(
            fields.drop_last(),
            key,
        )] || fields.drop_last().len() == 0,
{
    lemma_last_index_bounds(fields.drop_last(), key);
}

proof fn lemma_last_index_bounds(fields: Seq<(String, Json)>, key: Seq<char>)
    ensures
        fields.len() > 0 ==> 0 <= last_index_of(fields, key) < fields.len(),
    decreases fields.len(),
{
    if fields.len() > 0 && fields.last().0@ != key {
        lemma_last_index_bounds(fields.drop_last(), key);
        if fields.drop_last().len() == 0 {
            assert(last_index_of(fields.drop_last(), key) == 0);
        }
    }
}

// ---------------------------------------------------------------------------
// Implementation
// ---------------------------------------------------------------------------

/// `Map::insert` on object entries.
pub fn insert_field(entries: &mut Vec<(String, Json)>, key: String, value: Json)
    ensures
        final(entries)@ == insert_entry(old(entries)@, key, value),
{
    match find_key(entries, key.as_str()) {
        Some(i) => {
            let (k, _previous) = entries.remove(i);
            entries.insert(i, (k, value));
            assert(entries@ =~= old(entries)@.update(i as int, (old(entries)@[i as int].0, value)));
        },
        None => {
            entries.push((key, value));
        },
    }
}

/// The transitions of an issue cached by category key, for status write-back.
pub fn transitions_cache(transitions: &Vec<JiraTransition>) -> (r: Json)
    ensures
        r matches Json::Object(e) && e@ == transition_entries(transitions@),
{
    let mut entries: Vec<(String, Json)> = Vec::new();
    let mut i: usize = 0;
    while i < transitions.len()
        invariant
            i <= transitions.len(),
            entries@ == transition_entries(transitions@.take(i as int)),
        decreases transitions.len() - i,
    {
        proof {
            assert(transitions@.take(i + 1).drop_last() =~= transitions@.take(i as int));
            assert(transitions@.take(i + 1).last() == transitions@[i as int]);
        }
        let t = &transitions[i];
        match &t.to.status_category {
            Some(cat) => {
                insert_field(&mut entries, cat.key.clone(), Json::Text(t.id.clone()));
            },
            None => {},
        }
        i += 1;
    }
    assert(transitions@.take(transitions@.len() as int) =~= transitions@);
    Json::Object(entries)
}

/// `metadata.jira.issue_key`, when the metadata links a Jira issue.
pub fn jira_issue_key(metadata: &Json) -> (r: Option<String>)
    ensures
        match r {
            Some(k) => linked_issue_key(*metadata) == Some(k@),
            None => linked_issue_key(*metadata) is None,
        },
{
    match get(metadata, "jira") {
        Some(j) => match get(j, "issue_key") {
            Some(Json::Text(s)) => Some(owned(s.as_str())),
            _ => None,
        },
        None => None,
    }
}

/// Whether the metadata has a `jira` section.
pub fn is_jira_linked(metadata: &Json) -> (r: bool)
    ensures
        r == json_get(*metadata, "jira"@) is Some,
{
    get(metadata, "jira").is_some()
}

/// Insert fields into the `jira` object of an issue's metadata; metadata
/// without a `jira` object is returned unchanged.
pub fn set_jira_fields(metadata: Json, fields: Vec<(String, Json)>) -> (r: Json)
    ensures
        jira_fields_set(metadata, fields@, r),
{
    match metadata {
        Json::Object(mut e) => {
            match find_key(&e, "jira") {
                Some(i) => {
                    proof {
                        lemma_first_key_bounds(e@, "jira"@);
                    }
                    let ghost e0 = e@;
                    let (k, v) = e.remove(i);
                    match v {
                        Json::Object(mut inner) => {
                            let ghost inner0 = inner@;
                            let mut fields = fields;
                            let ghost all = fields@;
                            let total = fields.len();
                            proof {
                                assert(all.take(0) =~= Seq::<(String, Json)>::empty());
                                assert(all.skip(0) =~= all);
                            }
                            let mut n: usize = 0;
                            while fields.len() > 0
                                invariant
                                    n + fields@.len() == all.len(),
                                    all.len() == total,
                                    fields@ == all.skip(n as int),
                                    inner@ == insert_all(inner0, all.take(n as int)),
                                decreases fields@.len(),
                            {
                                let (fk, fv) = fields.remove(0);
                                proof {
                                    assert(all.skip(n as int)[0] == all[n as int]);
                                    assert(all.take(n + 1).drop_last() =~= all.take(n as int));
                                    assert(all.take(n + 1).last() == all[n as int]);
                                    assert(all.skip(n + 1) =~= all.skip(n as int).remove(0));
                                }
                                insert_field(&mut inner, fk, fv);
                                n += 1;
                            }
                            assert(all.take(all.len() as int) =~= all);
                            e.insert(i, (k, Json::Object(inner)));
                            assert(e@.len() == e0.len());
                            assert(forall|j: int| 0 <= j < e0.len() && j != i ==> #[trigger] e@[j] == e0[j]);
                            Json::Object(e)
                        },
                        other => {
                            e.insert(i, (k, other));
                            assert(e@ =~= e0);
                            Json::Object(e)
                        },
                    }
                },
                None => Json::Object(e),
            }
        },
        other => other,
    }
}

/// The Jira keys of already imported issues, upper-cased.
pub fn imported_jira_keys(metadatas: &Vec<Json>) -> (r: Vec<String>)
    ensures
        r@.map_values(|k: String| k@) == imported_keys(metadatas@),
{
    let mut out: Vec<String> = Vec::new();
    let mut i: usize = 0;
    assert(out@.map_values(|k: String| k@) =~= Seq::<Seq<char>>::empty());
    while i < metadatas.len()
        invariant
            i <= metadatas.len(),
            out@.map_values(|k: String| k@) == imported_keys(metadatas@.take(i as int)),
        decreases metadatas.len() - i,
    {
        proof {
            assert(metadatas@.take(i + 1).drop_last() =~= metadatas@.take(i as int));
            assert(metadatas@.take(i + 1).last() == metadatas@[i as int]);
        }
        let ghost before = out@.map_values(|k: String| k@);
        match get(&metadatas[i], "jira") {
            Some(j) => match get(j, "issue_key") {
                Some(Json::Text(s)) => {
                    let up = to_uppercase(s.as_str());
                    out.push(up);
                    assert(out@.map_values(|k: String| k@) =~= before.push(up@));
                },
                _ => {},
            },
            None => {},
        }
        i += 1;
    }
    assert(metadatas@.take(metadatas@.len() as int) =~= metadatas@);
    out
}

/// The upper-cased Jira keys recorded in a list of metadata values.
pub open spec fn imported_keys(metadatas: Seq<Json>) -> Seq<Seq<char>>
    decreases metadatas.len(),
{
    if metadatas.len() == 0 {
        Seq::empty()
    } else {
        let prev = imported_keys(metadatas.drop_last());
        match linked_issue_key(metadatas.last()) {
            Some(k) => prev.push(text_uppercase(k)),
            None => prev,
        }
    }
}

/// The requested keys whose upper-cased form is not already imported, in
/// request order.
pub open spec fn keys_not_imported(keys: Seq<Seq<char>>, imported: Seq<Seq<char>>) -> Seq<
    Seq<char>,
>
    decreases keys.len(),
{
    if keys.len() == 0 {
        Seq::empty()
    } else {
        let prev = keys_not_imported(keys.drop_last(), imported);
        if imported.contains(text_uppercase(keys.last())) {
            prev
        } else {
            prev.push(keys.last())
        }
    }
}

/// Whether the list holds a string equal to `s`.
fn contains_string(list: &Vec<String>, s: &str) -> (r: bool)
    ensures
        r == list@.map_values(|k: String| k@).contains(s@),
{
    let ghost views = list@.map_values(|k: String| k@);
    let mut i: usize = 0;
    while i < list.len()
        invariant
            i <= list.len(),
            views == list@.map_values(|k: String| k@),
            forall|j: int| 0 <= j < i ==> views[j] != s@,
        decreases list.len() - i,
    {
        if str_equal(list[i].as_str(), s) {
            assert(views[i as int] == s@);
            return true;
        }
        i += 1;
    }
    false
}

/// The requested issue keys that are not yet imported, in request order.
pub fn keys_to_import(issue_keys: &Vec<String>, imported: &Vec<String>) -> (r: Vec<String>)
    ensures
        r@.map_values(|k: String| k@) == keys_not_imported(
            issue_keys@.map_values(|k: String| k@),
            imported@.map_values(|k: String| k@),
        ),
{
    let ghost keys = issue_keys@.map_values(|k: String| k@);
    let ghost imp = imported@.map_values(|k: String| k@);
    let mut out: Vec<String> = Vec::new();
    let mut i: usize = 0;
    assert(out@.map_values(|k: String| k@) =~= Seq::<Seq<char>>::empty());
    while i < issue_keys.len()
        invariant
            i <= issue_keys.len(),
            keys == issue_keys@.map_values(|k: String| k@),
            imp == imported@.map_values(|k: String| k@),
            out@.map_values(|k: String| k@) == keys_not_imported(keys.take(i as int), imp),
        decreases issue_keys.len() - i,
    {
        proof {
            assert(keys.take(i + 1).drop_last() =~= keys.take(i as int));
            assert(keys.take(i + 1).last() == keys[i as int]);
        }
        let up = to_uppercase(issue_keys[i].as_str());
        if !contains_string(imported, up.as_str()) {
            let ghost before = out@.map_values(|k: String| k@);
            out.push(issue_keys[i].clone());
            assert(out@.map_values(|k: String| k@) =~= before.push(keys[i as int]));
        }
        i += 1;
    }
    assert(keys.take(keys.len() as int) =~= keys);
    out
}

} // verus!
