//! Launch and attach configurations: values in the shape of JSON, and the
//! merge by which a new session's configuration is made from that of the
//! session that asked for it.

use vstd::prelude::*;

verus! {

/// A configuration value. An object keeps its entries in the order in
/// which they were given.
#[derive(Debug, PartialEq, Eq)]
pub enum ConfigValue {
    Null,
    Bool(bool),
    Integer(i64),
    /// A number that is no `i64`, as its text.
    Decimal(String),
    Text(String),
    List(Vec<ConfigValue>),
    Object(Vec<ConfigEntry>),
}

/// One entry of an object.
#[derive(Debug, PartialEq, Eq)]
pub struct ConfigEntry {
    pub key: String,
    pub value: ConfigValue,
}

/// A configuration value as mathematics sees it.
pub enum ConfigModel {
    Null,
    Bool(bool),
    Integer(int),
    Decimal(Seq<char>),
    Text(Seq<char>),
    List(Seq<ConfigModel>),
    Object(Seq<(Seq<char>, ConfigModel)>),
}

/// Whether `at` is the first entry of `entries` under `key`.
pub open spec fn first_under_key(
    entries: Seq<(Seq<char>, ConfigModel)>,
    key: Seq<char>,
    at: int,
) -> bool {
    &&& 0 <= at < entries.len()
    &&& entries[at].0 == key
    &&& forall|k: int| 0 <= k < at ==> entries[k].0 != key
}

/// Whether `entries` has an entry under `key`.
pub open spec fn has_key(entries: Seq<(Seq<char>, ConfigModel)>, key: Seq<char>) -> bool {
    exists|at: int| 0 <= at < entries.len() && (#[trigger] entries[at]).0 == key
}

/// The value of the first entry under `key`, if there is one.
pub open spec fn value_under(entries: Seq<(Seq<char>, ConfigModel)>, key: Seq<char>) -> Option<
    ConfigModel,
> {
    if has_key(entries, key) {
        Some(entries[key_position(entries, key)].1)
    } else {
        None
    }
}

/// The position of the first entry under `key`.
pub open spec fn key_position(entries: Seq<(Seq<char>, ConfigModel)>, key: Seq<char>) -> int {
    choose|at: int| first_under_key(entries, key, at)
}

/// `patch` laid over `base`. Two objects are merged entry by entry; in
/// every other case the new value stands in place of the old one.
pub open spec fn merged(base: ConfigModel, patch: ConfigModel) -> ConfigModel
    decreases patch, 0nat,
{
    if base is Object && patch is Object {
        ConfigModel::Object(merged_entries(base->Object_0, patch->Object_0))
    } else {
        patch
    }
}

/// The entries of `patch` laid over `base`, one after the other: an entry
/// whose key `base` has is merged into the first entry under that key,
/// which keeps its place; an entry with a new key is added at the end.
pub open spec fn merged_entries(
    base: Seq<(Seq<char>, ConfigModel)>,
    patch: Seq<(Seq<char>, ConfigModel)>,
) -> Seq<(Seq<char>, ConfigModel)>
    decreases patch, 1nat,
{
    if patch.len() == 0 {
        base
    } else {
        let before = merged_entries(base, patch.drop_last());
        let key = patch.last().0;
        if has_key(before, key) {
            let at = key_position(before, key);
            before.update(at, (key, merged(before[at].1, patch.last().1)))
        } else {
            before.push(patch.last())
        }
    }
}

impl ConfigValue {
    /// The value as mathematics sees it.
    pub open spec fn view(&self) -> ConfigModel
        decreases self,
    {
        match self {
            ConfigValue::Null => ConfigModel::Null,
            ConfigValue::Bool(b) => ConfigModel::Bool(*b),
            ConfigValue::Integer(n) => ConfigModel::Integer(*n as int),
            ConfigValue::Decimal(text) => ConfigModel::Decimal(text@),
            ConfigValue::Text(text) => ConfigModel::Text(text@),
            ConfigValue::List(items) => ConfigModel::List(
                Seq::new(
                    items@.len(),
                    |i: int|
                        if 0 <= i < items@.len() {
                            items@[i].view()
                        } else {
                            ConfigModel::Null
                        },
                ),
            ),
            ConfigValue::Object(entries) => ConfigModel::Object(entries_view(entries@)),
        }
    }
}

/// The entries of an object as mathematics sees them.
pub open spec fn entries_view(entries: Seq<ConfigEntry>) -> Seq<(Seq<char>, ConfigModel)>
    decreases entries,
{
    Seq::new(
        entries.len(),
        |i: int|
            if 0 <= i < entries.len() {
                (entries[i].key@, entries[i].value.view())
            } else {
                (Seq::empty(), ConfigModel::Null)
            },
    )
}

proof fn lemma_entries_view_push(entries: Seq<ConfigEntry>, entry: ConfigEntry)
    ensures
        entries_view(entries.push(entry)) == entries_view(entries).push(
            (entry.key@, entry.value.view()),
        ),
{
    assert(entries_view(entries.push(entry)) =~= entries_view(entries).push(
        (entry.key@, entry.value.view()),
    ));
}

impl Clone for ConfigValue {
    fn clone(&self) -> (copy: ConfigValue)
        ensures
            copy@ == self@,
        decreases self,
    {
        match self {
            ConfigValue::Null => ConfigValue::Null,
            ConfigValue::Bool(b) => ConfigValue::Bool(*b),
            ConfigValue::Integer(n) => ConfigValue::Integer(*n),
            ConfigValue::Decimal(text) => ConfigValue::Decimal(text.clone()),
            ConfigValue::Text(text) => ConfigValue::Text(text.clone()),
            ConfigValue::List(items) => {
                let mut copies: Vec<ConfigValue> = Vec::new();
                let mut i: usize = 0;
                while i < items.len()
                    invariant
                        i <= items@.len(),
                        copies@.len() == i,
                        self == ConfigValue::List(*items),
                        forall|k: int| 0 <= k < i ==> (#[trigger] copies@[k])@ == items@[k]@,
                    decreases items@.len() - i,
                {
                    proof {
                        vstd::std_specs::vec::axiom_vec_index_decreases(*items, i as int);
                        assert(decreases_to!(self => self->List_0));
                    }
                    copies.push(items[i].clone());
                    i += 1;
                }
                let copy = ConfigValue::List(copies);
                assert(copy@->List_0 =~= self@->List_0);
                copy
            },
            ConfigValue::Object(entries) => {
                let mut copies: Vec<ConfigEntry> = Vec::new();
                let mut i: usize = 0;
                while i < entries.len()
                    invariant
                        i <= entries@.len(),
                        copies@.len() == i,
                        self == ConfigValue::Object(*entries),
                        forall|k: int|
                            0 <= k < i ==> (#[trigger] copies@[k]).key@ == entries@[k].key@
                                && copies@[k].value@ == entries@[k].value@,
                    decreases entries@.len() - i,
                {
                    proof {
                        vstd::std_specs::vec::axiom_vec_index_decreases(*entries, i as int);
                        assert(decreases_to!(self => self->Object_0));
                        assert(decreases_to!(entries@[i as int] => entries@[i as int].value));
                    }
                    copies.push(
                        ConfigEntry { key: entries[i].key.clone(), value: entries[i].value.clone() },
                    );
                    i += 1;
                }
                let copy = ConfigValue::Object(copies);
                assert(entries_view(copies@) =~= entries_view(entries@));
                copy
            },
        }
    }
}

impl Clone for ConfigEntry {
    fn clone(&self) -> (copy: ConfigEntry)
        ensures
            copy.key@ == self.key@,
            copy.value@ == self.value@,
    {
        ConfigEntry { key: self.key.clone(), value: self.value.clone() }
    }
}

/// The first entry of `entries` under `key`, if there is one.
fn find_key(entries: &Vec<ConfigEntry>, key: &String) -> (found: Option<usize>)
    ensures
        found is Some ==> first_under_key(entries_view(entries@), key@, found->0 as int),
        found is None ==> !has_key(entries_view(entries@), key@),
{
    let mut i: usize = 0;
    while i < entries.len()
        invariant
            i <= entries@.len(),
            forall|k: int| 0 <= k < i ==> entries_view(entries@)[k].0 != key@,
        decreases entries@.len() - i,
    {
        if entries[i].key == *key {
            return Some(i);
        }
        i += 1;
    }
    None
}

proof fn lemma_key_position(entries: Seq<(Seq<char>, ConfigModel)>, key: Seq<char>, at: int)
    requires
        first_under_key(entries, key, at),
    ensures
        has_key(entries, key),
        key_position(entries, key) == at,
{
    assert(entries[at].0 == key);
    let p = key_position(entries, key);
    if p < at {
    } else if at < p {
    }
}

/// Where a key occurs, it occurs a first time.
proof fn lemma_first_occurrence(entries: Seq<(Seq<char>, ConfigModel)>, key: Seq<char>, at: int)
    requires
        0 <= at < entries.len(),
        entries[at].0 == key,
    ensures
        first_under_key(entries, key, key_position(entries, key)),
        key_position(entries, key) <= at,
    decreases at,
{
    if forall|k: int| 0 <= k < at ==> entries[k].0 != key {
        assert(first_under_key(entries, key, at));
        lemma_key_position(entries, key, at);
    } else {
        let k = choose|k: int| 0 <= k < at && entries[k].0 == key;
        lemma_first_occurrence(entries, key, k);
    }
}

/// What a merge does to the keys of an object: every entry of the old
/// object keeps its place and its key, and the keys of the result are
/// those of the two objects together.
pub proof fn lemma_merge_keeps_keys_in_place(
    base: Seq<(Seq<char>, ConfigModel)>,
    patch: Seq<(Seq<char>, ConfigModel)>,
)
    ensures
        merged_entries(base, patch).len() >= base.len(),
        forall|i: int| 0 <= i < base.len() ==> (#[trigger] merged_entries(base, patch)[i]).0 == base[i].0,
        forall|key: Seq<char>| #[trigger]
            has_key(merged_entries(base, patch), key) <==> has_key(base, key) || has_key(
                patch,
                key,
            ),
    decreases patch.len(),
{
    let result = merged_entries(base, patch);
    if patch.len() == 0 {
        assert forall|key: Seq<char>| !has_key(patch, key) by {}
    } else {
        let before = merged_entries(base, patch.drop_last());
        let last = patch.last();
        lemma_merge_keeps_keys_in_place(base, patch.drop_last());
        if has_key(before, last.0) {
            let hit = choose|at: int| 0 <= at < before.len() && (#[trigger] before[at]).0 == last.0;
            lemma_first_occurrence(before, last.0, hit);
        }
        assert forall|i: int| 0 <= i < before.len() implies (#[trigger] result[i]).0
            == before[i].0 by {}
        assert forall|key: Seq<char>| #[trigger]
            has_key(result, key) <==> has_key(base, key) || has_key(patch, key) by {
            if has_key(result, key) {
                let at = choose|at: int| 0 <= at < result.len() && (#[trigger] result[at]).0 == key;
                if at < before.len() {
                    assert(before[at].0 == key);
                    assert(has_key(before, key));
                    if has_key(patch.drop_last(), key) {
                        let j = choose|j: int|
                            0 <= j < patch.drop_last().len() && (#[trigger] patch.drop_last()[j]).0
                                == key;
                        assert(patch[j].0 == key);
                    }
                } else {
                    assert(patch[patch.len() - 1].0 == key);
                }
            }
            if has_key(base, key) {
                assert(has_key(before, key));
                let at = choose|at: int| 0 <= at < before.len() && (#[trigger] before[at]).0 == key;
                assert(result[at].0 == key);
            }
            if has_key(patch, key) {
                let j = choose|j: int| 0 <= j < patch.len() && (#[trigger] patch[j]).0 == key;
                if j < patch.len() - 1 {
                    assert(patch.drop_last()[j].0 == key);
                    assert(has_key(before, key));
                    let at = choose|at: int|
                        0 <= at < before.len() && (#[trigger] before[at]).0 == key;
                    assert(result[at].0 == key);
                } else {
                    if has_key(before, key) {
                        let at = choose|at: int|
                            0 <= at < before.len() && (#[trigger] before[at]).0 == key;
                        assert(result[at].0 == key);
                    } else {
                        assert(result[before.len() as int].0 == key);
                    }
                }
            }
        }
    }
}

/// A key that the new object does not name keeps its value.
pub proof fn lemma_merge_keeps_other_values(
    base: Seq<(Seq<char>, ConfigModel)>,
    patch: Seq<(Seq<char>, ConfigModel)>,
    key: Seq<char>,
)
    requires
        !has_key(patch, key),
    ensures
        value_under(merged_entries(base, patch), key) == value_under(base, key),
    decreases patch.len(),
{
    if patch.len() > 0 {
        let before = merged_entries(base, patch.drop_last());
        let result = merged_entries(base, patch);
        let last = patch.last();
        assert(patch[patch.len() - 1].0 != key);
        assert(!has_key(patch.drop_last(), key)) by {
            if has_key(patch.drop_last(), key) {
                let j = choose|j: int|
                    0 <= j < patch.drop_last().len() && (#[trigger] patch.drop_last()[j]).0 == key;
                assert(patch[j].0 == key);
            }
        }
        lemma_merge_keeps_other_values(base, patch.drop_last(), key);
        if has_key(before, last.0) {
            let hit = choose|k: int| 0 <= k < before.len() && (#[trigger] before[k]).0 == last.0;
            lemma_first_occurrence(before, last.0, hit);
        }
        lemma_value_under_elsewhere(before, result, key);
    }
}

/// Two lists that agree on where `key` stands and on the values under
/// it, as far as the first goes, give the same value under `key`.
proof fn lemma_value_under_elsewhere(
    before: Seq<(Seq<char>, ConfigModel)>,
    after: Seq<(Seq<char>, ConfigModel)>,
    key: Seq<char>,
)
    requires
        before.len() <= after.len(),
        forall|i: int| 0 <= i < before.len() ==> (#[trigger] after[i]).0 == before[i].0,
        forall|i: int|
            0 <= i < before.len() && (#[trigger] before[i]).0 == key ==> after[i] == before[i],
        forall|i: int| before.len() <= i < after.len() ==> (#[trigger] after[i]).0 != key,
    ensures
        value_under(after, key) == value_under(before, key),
{
    if has_key(before, key) {
        let hit = choose|at: int| 0 <= at < before.len() && (#[trigger] before[at]).0 == key;
        lemma_first_occurrence(before, key, hit);
        let at = key_position(before, key);
        assert(after[at].0 == key);
        assert(first_under_key(after, key, at)) by {
            assert forall|k: int| 0 <= k < at implies after[k].0 != key by {
                assert(after[k].0 == before[k].0);
            }
        }
        lemma_key_position(after, key, at);
    } else {
        assert(!has_key(after, key)) by {
            if has_key(after, key) {
                let at = choose|at: int| 0 <= at < after.len() && (#[trigger] after[at]).0 == key;
                if at < before.len() {
                    assert(before[at].0 == key);
                }
            }
        }
    }
}

/// The new value wins: a key that the new object names once has, after
/// the merge, the new value laid over the old one, which is the new value
/// itself unless both are objects.
pub proof fn lemma_merge_new_value_wins(
    base: Seq<(Seq<char>, ConfigModel)>,
    patch: Seq<(Seq<char>, ConfigModel)>,
    at: int,
)
    requires
        0 <= at < patch.len(),
        forall|j: int| 0 <= j < patch.len() && j != at ==> (#[trigger] patch[j]).0 != patch[at].0,
    ensures
        value_under(merged_entries(base, patch), patch[at].0) == Some(
            match value_under(base, patch[at].0) {
                Some(held) => merged(held, patch[at].1),
                None => patch[at].1,
            },
        ),
        !(patch[at].1 is Object) ==> value_under(merged_entries(base, patch), patch[at].0) == Some(
            patch[at].1,
        ),
    decreases patch.len(),
{
    let key = patch[at].0;
    let before = merged_entries(base, patch.drop_last());
    let result = merged_entries(base, patch);
    let last = patch.last();
    if at < patch.len() - 1 {
        assert(patch.drop_last()[at] == patch[at]);
        assert forall|j: int| 0 <= j < patch.drop_last().len() && j != at implies (
        #[trigger] patch.drop_last()[j]).0 != patch.drop_last()[at].0 by {
            assert(patch[j].0 != key);
        }
        lemma_merge_new_value_wins(base, patch.drop_last(), at);
        assert(patch[patch.len() - 1].0 != key);
        if has_key(before, last.0) {
            let hit = choose|k: int| 0 <= k < before.len() && (#[trigger] before[k]).0 == last.0;
            lemma_first_occurrence(before, last.0, hit);
        }
        lemma_value_under_elsewhere(before, result, key);
    } else {
        assert(!has_key(patch.drop_last(), key)) by {
            if has_key(patch.drop_last(), key) {
                let j = choose|j: int|
                    0 <= j < patch.drop_last().len() && (#[trigger] patch.drop_last()[j]).0 == key;
                assert(patch[j].0 == key);
            }
        }
        lemma_merge_keeps_other_values(base, patch.drop_last(), key);
        if has_key(before, key) {
            let hit = choose|k: int| 0 <= k < before.len() && (#[trigger] before[k]).0 == key;
            lemma_first_occurrence(before, key, hit);
            let position = key_position(before, key);
            assert(result[position].0 == key);
            assert(first_under_key(result, key, position)) by {
                assert forall|k: int| 0 <= k < position implies result[k].0 != key by {
                    assert(result[k] == before[k]);
                }
            }
            lemma_key_position(result, key, position);
        } else {
            assert(result[before.len() as int] == last);
            assert(first_under_key(result, key, before.len() as int)) by {
                assert forall|k: int| 0 <= k < before.len() implies result[k].0 != key by {
                    assert(result[k] == before[k]);
                    assert(before[k].0 != key);
                }
            }
            lemma_key_position(result, key, before.len() as int);
        }
    }
}

/// Lays `patch` over `base`: the configuration of a session that another
/// session asks for is that session's own, with what the request brings
/// laid over it. Where both hold an object the two are merged key by key,
/// objects within objects too; anywhere else the new value wins.
pub fn merge(base: ConfigValue, patch: ConfigValue) -> (result: ConfigValue)
    ensures
        result@ == merged(base@, patch@),
    decreases patch,
{
    match patch {
        ConfigValue::Object(additions) => {
            match base {
                ConfigValue::Object(mut entries) => {
                    let ghost held = entries_view(entries@);
                    let ghost brought = entries_view(additions@);
                    assert(brought.subrange(0, 0) =~= Seq::empty());
                    for entry in it: additions
                        invariant
                            it.seq() == additions@,
                            patch == ConfigValue::Object(additions),
                            brought == entries_view(additions@),
                            entries_view(entries@) == merged_entries(
                                held,
                                brought.subrange(0, it.index() as int),
                            ),
                    {
                        let ghost i = it.index() as int;
                        let ghost so_far = entries_view(entries@);
                        proof {
                            assert(brought.subrange(0, i + 1).drop_last() =~= brought.subrange(
                                0,
                                i,
                            ));
                            assert(brought.subrange(0, i + 1).last() == (entry.key@, entry.value@));
                        }
                        match find_key(&entries, &entry.key) {
                            Some(at) => {
                                proof {
                                    lemma_key_position(so_far, entry.key@, at as int);
                                    vstd::std_specs::vec::axiom_vec_index_decreases(additions, i);
                                    assert(decreases_to!(patch => patch->Object_0));
                                    assert(decreases_to!(additions@[i] => additions@[i].value));
                                }
                                let mut value = ConfigValue::Null;
                                core::mem::swap(&mut entries[at].value, &mut value);
                                let value = merge(value, entry.value);
                                entries[at].value = value;
                                proof {
                                    assert(entries_view(entries@) =~= so_far.update(
                                        at as int,
                                        (entry.key@, merged(so_far[at as int].1, entry.value@)),
                                    ));
                                }
                            },
                            None => {
                                proof {
                                    lemma_entries_view_push(entries@, entry);
                                }
                                entries.push(entry);
                            },
                        }
                    }
                    proof {
                        assert(brought.subrange(0, brought.len() as int) =~= brought);
                    }
                    ConfigValue::Object(entries)
                },
                _ => ConfigValue::Object(additions),
            }
        },
        other => other,
    }
}

impl ConfigValue {
    /// The value under `key`, where this is an object that has the key.
    pub fn get(&self, key: &str) -> (value: Option<&ConfigValue>)
        ensures
            value is Some == (self@ is Object && has_key(self@->Object_0, key@)),
            value is Some ==> Some(value->0@) == value_under(self@->Object_0, key@),
    {
        match self {
            ConfigValue::Object(entries) => {
                let wanted = key.to_owned();
                match find_key(entries, &wanted) {
                    Some(at) => {
                        proof {
                            lemma_key_position(entries_view(entries@), key@, at as int);
                        }
                        Some(&entries[at].value)
                    },
                    None => None,
                }
            },
            _ => None,
        }
    }
}

} // verus!
