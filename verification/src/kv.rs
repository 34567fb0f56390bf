use vstd::prelude::*;

verus! {

/// One key/value pair. Lists of pairs serve as ordered maps for labels,
/// environment variables and node selectors: the first pair carrying a
/// given key is the authoritative entry for that key.
pub struct KeyValue {
    pub key: String,
    pub value: String,
}

/// The mathematical content of a `KeyValue`: both strings as character
/// sequences.
pub ghost struct KvView {
    pub key: Seq<char>,
    pub value: Seq<char>,
}

impl View for KeyValue {
    type V = KvView;

    open spec fn view(&self) -> KvView {
        KvView { key: self.key@, value: self.value@ }
    }
}

impl Clone for KeyValue {
    fn clone(&self) -> (res: Self)
        ensures
            res == *self,
    {
        KeyValue { key: self.key.clone(), value: self.value.clone() }
    }
}

/// The views of all pairs in a list, in order.
pub open spec fn kvs_view(kvs: Seq<KeyValue>) -> Seq<KvView> {
    kvs.map_values(|kv: KeyValue| kv@)
}

/// The value of the first pair carrying `key`, or `None` when the key is
/// absent.
pub open spec fn spec_value_of(kvs: Seq<KvView>, key: Seq<char>) -> Option<Seq<char>>
    decreases kvs.len(),
{
    if kvs.len() == 0 {
        None
    } else if kvs[0].key == key {
        Some(kvs[0].value)
    } else {
        spec_value_of(kvs.drop_first(), key)
    }
}

/// The list after setting `key` to `value`: the first pair carrying the key
/// is replaced; when the key is absent the new pair is appended.
pub open spec fn spec_set_key(kvs: Seq<KvView>, key: Seq<char>, value: Seq<char>) -> Seq<KvView>
    decreases kvs.len(),
{
    if kvs.len() == 0 {
        seq![KvView { key: key, value: value }]
    } else if kvs[0].key == key {
        seq![KvView { key: key, value: value }] + kvs.drop_first()
    } else {
        seq![kvs[0]] + spec_set_key(kvs.drop_first(), key, value)
    }
}

/// Setting a key makes it the value that `spec_value_of` reports.
pub proof fn lemma_set_then_get(kvs: Seq<KvView>, key: Seq<char>, value: Seq<char>)
    ensures
        spec_value_of(spec_set_key(kvs, key, value), key) == Some(value),
    decreases kvs.len(),
{
    let out = spec_set_key(kvs, key, value);
    if kvs.len() == 0 {
    } else if kvs[0].key == key {
    } else {
        lemma_set_then_get(kvs.drop_first(), key, value);
        assert(out.drop_first() =~= spec_set_key(kvs.drop_first(), key, value));
    }
}

/// Setting one key leaves every other key's value untouched.
pub proof fn lemma_set_preserves_other_keys(
    kvs: Seq<KvView>,
    key: Seq<char>,
    value: Seq<char>,
    other: Seq<char>,
)
    requires
        other != key,
    ensures
        spec_value_of(spec_set_key(kvs, key, value), other) == spec_value_of(kvs, other),
    decreases kvs.len(),
{
    let out = spec_set_key(kvs, key, value);
    if kvs.len() == 0 {
    } else if kvs[0].key == key {
        assert(out[0] == (KvView { key: key, value: value }));
        assert(out.drop_first() =~= kvs.drop_first());
        assert(spec_value_of(out, other) == spec_value_of(kvs.drop_first(), other));
        assert(spec_value_of(kvs, other) == spec_value_of(kvs.drop_first(), other));
    } else {
        assert(out[0] == kvs[0]);
        if kvs[0].key == other {
            assert(spec_value_of(out, other) == Some(kvs[0].value));
            assert(spec_value_of(kvs, other) == Some(kvs[0].value));
        } else {
            lemma_set_preserves_other_keys(kvs.drop_first(), key, value, other);
            assert(out.drop_first() =~= spec_set_key(kvs.drop_first(), key, value));
            assert(spec_value_of(out, other) == spec_value_of(out.drop_first(), other));
            assert(spec_value_of(kvs, other) == spec_value_of(kvs.drop_first(), other));
        }
    }
}

/// Setting the same key to the same value twice is the same as setting it
/// once.
pub proof fn lemma_set_key_idempotent(kvs: Seq<KvView>, key: Seq<char>, value: Seq<char>)
    ensures
        spec_set_key(spec_set_key(kvs, key, value), key, value) == spec_set_key(
            kvs,
            key,
            value,
        ),
    decreases kvs.len(),
{
    let once = spec_set_key(kvs, key, value);
    let twice = spec_set_key(once, key, value);
    if kvs.len() == 0 {
        assert(twice =~= once);
    } else if kvs[0].key == key {
        assert(twice =~= once);
    } else {
        lemma_set_key_idempotent(kvs.drop_first(), key, value);
        assert(once.drop_first() =~= spec_set_key(kvs.drop_first(), key, value));
        assert(twice =~= seq![kvs[0]] + spec_set_key(once.drop_first(), key, value));
        assert(twice =~= once);
    }
}

/// Looks up the value stored under `key`, cloning it out of the list.
pub fn get_value(kvs: &Vec<KeyValue>, key: &String) -> (res: Option<String>)
    ensures
        match res {
            Some(v) => spec_value_of(kvs_view(kvs@), key@) == Some(v@),
            None => spec_value_of(kvs_view(kvs@), key@) is None,
        },
{
    let ghost kview = kvs_view(kvs@);
    proof {
        assert(kview.skip(0) =~= kview);
    }
    let mut i: usize = 0;
    while i < kvs.len()
        invariant
            0 <= i <= kvs.len(),
            kview == kvs_view(kvs@),
            spec_value_of(kview, key@) == spec_value_of(kview.skip(i as int), key@),
        decreases kvs.len() - i,
    {
        proof {
            assert(kview.skip(i as int)[0] == kview[i as int]);
        }
        if kvs[i].key == *key {
            return Some(kvs[i].value.clone());
        }
        proof {
            assert(kview.skip(i as int).drop_first() =~= kview.skip(i + 1));
        }
        i = i + 1;
    }
    proof {
        assert(kview.skip(kvs@.len() as int).len() == 0);
    }
    None
}

/// Sets `key` to `value`: replaces the first pair carrying the key, or
/// appends a new pair when the key is absent.
pub fn set_key(kvs: &mut Vec<KeyValue>, key: &String, value: &String)
    ensures
        kvs_view(final(kvs)@) == spec_set_key(kvs_view(old(kvs)@), key@, value@),
{
    let ghost orig = kvs_view(old(kvs)@);
    proof {
        assert(orig.skip(0) =~= orig);
        assert(orig.take(0) + spec_set_key(orig.skip(0), key@, value@) =~= spec_set_key(
            orig,
            key@,
            value@,
        ));
    }
    let mut i: usize = 0;
    while i < kvs.len()
        invariant
            0 <= i <= kvs.len(),
            orig == kvs_view(kvs@),
            orig == kvs_view(old(kvs)@),
            forall|j: int| 0 <= j < i ==> orig[j].key != key@,
            spec_set_key(orig, key@, value@) == orig.take(i as int) + spec_set_key(
                orig.skip(i as int),
                key@,
                value@,
            ),
        decreases kvs.len() - i,
    {
        proof {
            assert(orig.skip(i as int)[0] == orig[i as int]);
        }
        if kvs[i].key == *key {
            let _replaced = kvs.remove(i);
            kvs.insert(i, KeyValue { key: key.clone(), value: value.clone() });
            proof {
                let pair = (KvView { key: key@, value: value@ });
                assert(spec_set_key(orig.skip(i as int), key@, value@) =~= seq![pair]
                    + orig.skip(i + 1));
                assert(kvs_view(kvs@) =~= orig.take(i as int) + (seq![pair] + orig.skip(
                    i + 1,
                )));
                assert(kvs_view(kvs@) == orig.take(i as int) + spec_set_key(
                    orig.skip(i as int),
                    key@,
                    value@,
                ));
            }
            return ;
        }
        proof {
            let tail = orig.skip(i as int);
            assert(spec_set_key(tail, key@, value@) == seq![tail[0]] + spec_set_key(
                tail.drop_first(),
                key@,
                value@,
            ));
            assert(tail.drop_first() =~= orig.skip(i + 1));
            assert(orig.take(i as int) + seq![tail[0]] =~= orig.take(i + 1));
            assert(orig.take(i as int) + (seq![tail[0]] + spec_set_key(
                orig.skip(i + 1),
                key@,
                value@,
            )) =~= orig.take(i + 1) + spec_set_key(orig.skip(i + 1), key@, value@));
        }
        i = i + 1;
    }
    kvs.push(KeyValue { key: key.clone(), value: value.clone() });
    proof {
        let pair = (KvView { key: key@, value: value@ });
        assert(orig.skip(orig.len() as int).len() == 0);
        assert(spec_set_key(orig.skip(orig.len() as int), key@, value@) =~= seq![pair]);
        assert(kvs_view(kvs@) =~= orig.take(orig.len() as int) + seq![pair]);
    }
}

/// Clones a pair list; the copy has the same view.
pub fn clone_kvs(kvs: &Vec<KeyValue>) -> (res: Vec<KeyValue>)
    ensures
        kvs_view(res@) == kvs_view(kvs@),
        res@ == kvs@,
{
    let res = kvs.clone();
    proof {
        assert(res@ =~= kvs@);
    }
    res
}

} // verus!
