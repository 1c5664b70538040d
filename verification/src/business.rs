//! The shared metadata of one uploaded document, kept as a payload map
//! and mutated in place by per-chunk field merges just before each
//! stored point snapshots it.

use vstd::prelude::*;
use vstd::string::*;
use vstd::pervasive::VecAdditionalExecFns;

use crate::document::DocumentName;
use crate::payload::SpecValue;
use crate::payload::Value;
use crate::payload::value_view;
use crate::text::split_parts;
use crate::text::split_string;

verus! {

/// The model of a payload map: its entries in order, keys viewed as
/// character sequences.
pub open spec fn entries_view(entries: Seq<(String, Value)>) -> Seq<(Seq<char>, SpecValue)> {
    Seq::new(entries.len(), |i: int| (entries[i].0@, value_view(entries[i].1)))
}

/// The entries with `key` set to `value`: the first entry bearing the
/// key is replaced in place, and a missing key is appended at the end.
pub open spec fn upsert_entries(
    entries: Seq<(Seq<char>, SpecValue)>,
    key: Seq<char>,
    value: SpecValue,
) -> Seq<(Seq<char>, SpecValue)>
    decreases entries.len(),
{
    if entries.len() == 0 {
        seq![(key, value)]
    } else if entries[0].0 == key {
        seq![(key, value)] + entries.drop_first()
    } else {
        seq![entries[0]] + upsert_entries(entries.drop_first(), key, value)
    }
}

proof fn lemma_upsert_at(
    entries: Seq<(Seq<char>, SpecValue)>,
    key: Seq<char>,
    value: SpecValue,
    k: int,
)
    requires
        0 <= k < entries.len(),
        entries[k].0 == key,
        forall|j: int| 0 <= j < k ==> (#[trigger] entries[j]).0 != key,
    ensures
        upsert_entries(entries, key, value) == entries.update(k, (key, value)),
    decreases k,
{
    if k == 0 {
        assert(seq![(key, value)] + entries.drop_first() =~= entries.update(0, (key, value)));
    } else {
        let t = entries.drop_first();
        assert(t[k - 1].0 == key);
        assert(forall|j: int| 0 <= j < k - 1 ==> (#[trigger] t[j]).0 != key);
        lemma_upsert_at(t, key, value, k - 1);
        assert(seq![entries[0]] + t.update(k - 1, (key, value)) =~= entries.update(
            k,
            (key, value),
        ));
    }
}

proof fn lemma_upsert_missing(entries: Seq<(Seq<char>, SpecValue)>, key: Seq<char>, value: SpecValue)
    requires
        forall|j: int| 0 <= j < entries.len() ==> (#[trigger] entries[j]).0 != key,
    ensures
        upsert_entries(entries, key, value) == entries.push((key, value)),
    decreases entries.len(),
{
    if entries.len() == 0 {
        assert(seq![(key, value)] =~= entries.push((key, value)));
    } else {
        let t = entries.drop_first();
        lemma_upsert_missing(t, key, value);
        assert(seq![entries[0]] + t.push((key, value)) =~= entries.push((key, value)));
    }
}

/// Sets `key` to `value` in a payload map, as `upsert_entries`
/// describes.
pub fn upsert_field(entries: &mut Vec<(String, Value)>, key: String, value: Value)
    ensures
        entries_view(final(entries)@) == upsert_entries(
            entries_view(old(entries)@),
            key@,
            value_view(value),
        ),
{
    let ghost base = entries_view(old(entries)@);
    let n: usize = entries.len();
    let mut i: usize = 0;
    while i < n
        invariant
            0 <= i <= n,
            n == entries.len(),
            entries@ == old(entries)@,
            base == entries_view(entries@),
            forall|j: int| 0 <= j < i ==> (#[trigger] base[j]).0 != key@,
        decreases n - i,
    {
        if entries[i].0 == key {
            proof {
                assert(base[i as int].0 == key@);
                lemma_upsert_at(base, key@, value_view(value), i as int);
            }
            entries.set(i, (key, value));
            proof {
                assert(entries_view(entries@) =~= base.update(
                    i as int,
                    (key@, value_view(value)),
                ));
            }
            return;
        }
        proof {
            assert(base[i as int].0 == entries@[i as int].0@);
        }
        i = i + 1;
    }
    proof {
        lemma_upsert_missing(base, key@, value_view(value));
    }
    entries.push((key, value));
    proof {
        assert(entries_view(entries@) =~= base.push((key@, value_view(value))));
    }
}

/// Whether a payload map binds each field name at most once.
pub open spec fn unique_keys(entries: Seq<(Seq<char>, SpecValue)>) -> bool {
    forall|i: int, j: int|
        0 <= i < j < entries.len() ==> (#[trigger] entries[i]).0 != (#[trigger] entries[j]).0
}

/// The field names a payload map binds.
pub open spec fn entry_keys(entries: Seq<(Seq<char>, SpecValue)>) -> Set<Seq<char>> {
    Set::new(|key: Seq<char>| exists|i: int| 0 <= i < entries.len() && (#[trigger] entries[i]).0 == key)
}

proof fn lemma_upsert_keys(entries: Seq<(Seq<char>, SpecValue)>, key: Seq<char>, value: SpecValue)
    ensures
        entry_keys(upsert_entries(entries, key, value)) == entry_keys(entries).insert(key),
    decreases entries.len(),
{
    let after = upsert_entries(entries, key, value);
    if entries.len() == 0 {
        assert(after[0].0 == key);
        assert(entry_keys(after) =~= entry_keys(entries).insert(key));
    } else if entries[0].0 == key {
        assert forall|k: Seq<char>| entry_keys(after).contains(k) implies entry_keys(
            entries,
        ).insert(key).contains(k) by {
            let i = choose|i: int| 0 <= i < after.len() && (#[trigger] after[i]).0 == k;
            if i > 0 {
                assert(entries[i].0 == k);
            }
        }
        assert forall|k: Seq<char>| entry_keys(entries).insert(key).contains(k) implies entry_keys(
            after,
        ).contains(k) by {
            if k == key {
                assert(after[0].0 == k);
            } else {
                let i = choose|i: int| 0 <= i < entries.len() && (#[trigger] entries[i]).0 == k;
                assert(after[i].0 == k);
            }
        }
        assert(entry_keys(after) =~= entry_keys(entries).insert(key));
    } else {
        lemma_upsert_keys(entries.drop_first(), key, value);
        let inner = upsert_entries(entries.drop_first(), key, value);
        assert forall|k: Seq<char>| entry_keys(after).contains(k) implies entry_keys(
            entries,
        ).insert(key).contains(k) by {
            let i = choose|i: int| 0 <= i < after.len() && (#[trigger] after[i]).0 == k;
            if i == 0 {
                assert(entries[0].0 == k);
            } else {
                assert(inner[i - 1].0 == k);
                assert(entry_keys(inner).contains(k));
                if k != key {
                    let tail = entries.drop_first();
                    let j = choose|j: int| 0 <= j < tail.len() && (#[trigger] tail[j]).0 == k;
                    assert(entries[j + 1].0 == k);
                }
            }
        }
        assert forall|k: Seq<char>| entry_keys(entries).insert(key).contains(k) implies entry_keys(
            after,
        ).contains(k) by {
            if k == key {
                assert(entry_keys(inner).contains(k));
                let j = choose|j: int| 0 <= j < inner.len() && (#[trigger] inner[j]).0 == k;
                assert(after[j + 1].0 == k);
            } else {
                let i = choose|i: int| 0 <= i < entries.len() && (#[trigger] entries[i]).0 == k;
                if i == 0 {
                    assert(after[0].0 == k);
                } else {
                    assert(entries.drop_first()[i - 1].0 == k);
                    assert(entry_keys(inner).contains(k));
                    let j = choose|j: int| 0 <= j < inner.len() && (#[trigger] inner[j]).0 == k;
                    assert(after[j + 1].0 == k);
                }
            }
        }
        assert(entry_keys(after) =~= entry_keys(entries).insert(key));
    }
}

proof fn lemma_upsert_unique(entries: Seq<(Seq<char>, SpecValue)>, key: Seq<char>, value: SpecValue)
    requires
        unique_keys(entries),
    ensures
        unique_keys(upsert_entries(entries, key, value)),
    decreases entries.len(),
{
    let after = upsert_entries(entries, key, value);
    if entries.len() == 0 {
    } else if entries[0].0 == key {
        assert forall|i: int, j: int| 0 <= i < j < after.len() implies (#[trigger] after[i]).0 != (
        #[trigger] after[j]).0 by {
            assert(after[j] == entries[j]);
            if i > 0 {
                assert(after[i] == entries[i]);
            }
        }
    } else {
        assert(unique_keys(entries.drop_first()));
        lemma_upsert_unique(entries.drop_first(), key, value);
        lemma_upsert_keys(entries.drop_first(), key, value);
        let inner = upsert_entries(entries.drop_first(), key, value);
        assert forall|i: int, j: int| 0 <= i < j < after.len() implies (#[trigger] after[i]).0 != (
        #[trigger] after[j]).0 by {
            if i == 0 {
                assert(after[j] == inner[j - 1]);
                assert(entry_keys(inner).contains(inner[j - 1].0));
                if inner[j - 1].0 == entries[0].0 {
                    assert(entry_keys(entries.drop_first()).insert(key).contains(entries[0].0));
                    if entry_keys(entries.drop_first()).contains(entries[0].0) {
                        let tail = entries.drop_first();
                        let w = choose|w: int| 0 <= w < tail.len() && (#[trigger] tail[w]).0 == entries[0].0;
                        assert(entries[w + 1].0 == entries[0].0);
                    }
                }
            } else {
                assert(after[i] == inner[i - 1]);
                assert(after[j] == inner[j - 1]);
            }
        }
    }
}

/// The result of setting every update entry in order, each by
/// `upsert_entries`.
pub open spec fn merge_entries(
    base: Seq<(Seq<char>, SpecValue)>,
    updates: Seq<(Seq<char>, SpecValue)>,
) -> Seq<(Seq<char>, SpecValue)>
    decreases updates.len(),
{
    if updates.len() == 0 {
        base
    } else {
        merge_entries(upsert_entries(base, updates[0].0, updates[0].1), updates.drop_first())
    }
}

proof fn lemma_merge_unique(
    base: Seq<(Seq<char>, SpecValue)>,
    updates: Seq<(Seq<char>, SpecValue)>,
)
    requires
        unique_keys(base),
    ensures
        unique_keys(merge_entries(base, updates)),
    decreases updates.len(),
{
    if updates.len() > 0 {
        lemma_upsert_unique(base, updates[0].0, updates[0].1);
        lemma_merge_unique(upsert_entries(base, updates[0].0, updates[0].1), updates.drop_first());
    }
}

proof fn lemma_area_tagged_unique(entries: Seq<(Seq<char>, SpecValue)>, parts: Seq<Seq<char>>)
    requires
        unique_keys(entries),
    ensures
        unique_keys(area_tagged(entries, parts)),
    decreases parts.len(),
{
    if parts.len() > 0 {
        if parts[0].len() == 0 {
            lemma_area_tagged_unique(entries, parts.drop_first());
        } else {
            lemma_upsert_unique(entries, parts[0], SpecValue::Integer(1));
            lemma_area_tagged_unique(
                upsert_entries(entries, parts[0], SpecValue::Integer(1)),
                parts.drop_first(),
            );
        }
    }
}

proof fn lemma_base_entries_unique(req: UploadDomainRequest)
    ensures
        unique_keys(base_entries(req)),
{
    reveal_strlit("fileuuid");
    reveal_strlit("filename");
    reveal_strlit("filedate");
    reveal_strlit("filehead");
    reveal_strlit("filehold");
    reveal_strlit("filestem");
    assert(("fileuuid"@)[4] != ("filename"@)[4]);
    assert(("fileuuid"@)[4] != ("filedate"@)[4]);
    assert(("fileuuid"@)[4] != ("filehead"@)[4]);
    assert(("fileuuid"@)[4] != ("filehold"@)[4]);
    assert(("fileuuid"@)[4] != ("filestem"@)[4]);
    assert(("filename"@)[4] != ("filedate"@)[4]);
    assert(("filename"@)[4] != ("filehead"@)[4]);
    assert(("filename"@)[4] != ("filehold"@)[4]);
    assert(("filename"@)[4] != ("filestem"@)[4]);
    assert(("filedate"@)[4] != ("filehead"@)[4]);
    assert(("filedate"@)[4] != ("filehold"@)[4]);
    assert(("filedate"@)[4] != ("filestem"@)[4]);
    assert(("filehead"@)[5] != ("filehold"@)[5]);
    assert(("filehead"@)[4] != ("filestem"@)[4]);
    assert(("filehold"@)[4] != ("filestem"@)[4]);
}

/// An independent copy of a payload map.
pub fn duplicate_entries(entries: &Vec<(String, Value)>) -> (r: Vec<(String, Value)>)
    ensures
        entries_view(r@) == entries_view(entries@),
{
    let mut out: Vec<(String, Value)> = Vec::new();
    let n: usize = entries.len();
    let mut i: usize = 0;
    while i < n
        invariant
            0 <= i <= n,
            n == entries.len(),
            out@.len() == i,
            forall|j: int|
                0 <= j < i ==> (#[trigger] out@[j]).0@ == entries@[j].0@ && value_view(out@[j].1)
                    == value_view(entries@[j].1),
        decreases n - i,
    {
        let pair = &entries[i];
        out.push((pair.0.clone(), pair.1.duplicate()));
        i = i + 1;
    }
    proof {
        assert(entries_view(out@) =~= entries_view(entries@));
    }
    out
}

/// One upload, validated: the document's name and the caller-supplied
/// metadata fields that every chunk of the document shares.
#[derive(Debug, Clone)]
pub struct UploadDomainRequest {
    pub name: DocumentName,
    pub uuid: String,
    pub date: String,
    pub head: String,
    pub hold: String,
    pub area: String,
    pub stem: String,
}

/// The six fixed metadata fields every document payload starts from.
pub open spec fn base_entries(req: UploadDomainRequest) -> Seq<(Seq<char>, SpecValue)> {
    seq![
        ("fileuuid"@, SpecValue::Text(req.uuid@)),
        ("filename"@, SpecValue::Text(req.name.name@)),
        ("filedate"@, SpecValue::Text(req.date@)),
        ("filehead"@, SpecValue::Text(req.head@)),
        ("filehold"@, SpecValue::Text(req.hold@)),
        ("filestem"@, SpecValue::Text(req.stem@)),
    ]
}

/// The payload after adding one boolean-valued tag per non-empty part
/// of the scope path, in order.
pub open spec fn area_tagged(
    entries: Seq<(Seq<char>, SpecValue)>,
    parts: Seq<Seq<char>>,
) -> Seq<(Seq<char>, SpecValue)>
    decreases parts.len(),
{
    if parts.len() == 0 {
        entries
    } else if parts[0].len() == 0 {
        area_tagged(entries, parts.drop_first())
    } else {
        area_tagged(upsert_entries(entries, parts[0], SpecValue::Integer(1)), parts.drop_first())
    }
}

/// The shared metadata of one document, held as a payload map.  Each
/// chunk's fields are merged into it just before the chunk's point
/// snapshots it; the snapshots are deep copies, so later merges never
/// touch points already built.
#[derive(Debug)]
pub struct Document {
    pub payload: Vec<(String, Value)>,
}

impl View for Document {
    type V = Seq<(Seq<char>, SpecValue)>;

    open spec fn view(&self) -> Seq<(Seq<char>, SpecValue)> {
        entries_view(self.payload@)
    }
}

impl Document {
    /// Builds the shared payload of an upload: the six fixed fields,
    /// then one tag with integer value 1 per non-empty slash-separated
    /// part of the scope path.
    pub fn from_upload(req: &UploadDomainRequest) -> (r: Document)
        ensures
            r@ == area_tagged(base_entries(*req), split_parts(req.area@, '/')),
            unique_keys(r@),
    {
        proof {
            lemma_base_entries_unique(*req);
            lemma_area_tagged_unique(base_entries(*req), split_parts(req.area@, '/'));
        }
        let mut payload: Vec<(String, Value)> = Vec::new();
        payload.push((String::from_str("fileuuid"), Value::Str(req.uuid.clone())));
        payload.push((String::from_str("filename"), Value::Str(req.name.name.clone())));
        payload.push((String::from_str("filedate"), Value::Str(req.date.clone())));
        payload.push((String::from_str("filehead"), Value::Str(req.head.clone())));
        payload.push((String::from_str("filehold"), Value::Str(req.hold.clone())));
        payload.push((String::from_str("filestem"), Value::Str(req.stem.clone())));
        proof {
            assert(entries_view(payload@) =~= base_entries(*req));
        }
        let parts = split_string(req.area.as_str(), '/');
        let ghost dv = parts.deep_view();
        let n: usize = parts.len();
        let mut i: usize = 0;
        proof {
            assert(dv.subrange(0, n as int) =~= dv);
        }
        while i < n
            invariant
                0 <= i <= n,
                n == parts.len(),
                dv == parts.deep_view(),
                dv == split_parts(req.area@, '/'),
                area_tagged(entries_view(payload@), dv.subrange(i as int, n as int)) == area_tagged(
                    base_entries(*req),
                    dv,
                ),
            decreases n - i,
        {
            proof {
                let rest = dv.subrange(i as int, n as int);
                assert(rest[0] == dv[i as int]);
                assert(dv[i as int] == parts@[i as int]@);
                assert(rest.drop_first() =~= dv.subrange(i + 1, n as int));
            }
            if !parts[i].as_str().is_empty() {
                upsert_field(&mut payload, parts[i].clone(), Value::I64(1));
            }
            i = i + 1;
        }
        proof {
            assert(dv.subrange(n as int, n as int) =~= Seq::<Seq<char>>::empty());
        }
        Document { payload }
    }

    /// Merges a map value's fields into the shared payload, each set as
    /// `upsert_entries` describes; any other kind of value leaves the
    /// payload unchanged.
    pub fn update(&mut self, value: &Value)
        ensures
            match *value {
                Value::Hash(_) => value@ matches SpecValue::Fields(fields) && final(self)@
                    == merge_entries(old(self)@, fields),
                _ => final(self)@ == old(self)@,
            },
            unique_keys(old(self)@) ==> unique_keys(final(self)@),
    {
        proof {
            if unique_keys(self@) {
                match value@ {
                    SpecValue::Fields(fields) => lemma_merge_unique(self@, fields),
                    _ => {},
                }
            }
        }
        match value {
            Value::Hash(entries) => {
                let ghost fields = (value@)->Fields_0;
                let ghost target = merge_entries(old(self)@, fields);
                let n: usize = entries.len();
                let mut i: usize = 0;
                proof {
                    assert(fields =~= entries_view(entries@));
                    assert(fields.subrange(0, n as int) =~= fields);
                }
                while i < n
                    invariant
                        0 <= i <= n,
                        n == entries@.len(),
                        fields == entries_view(entries@),
                        merge_entries(self@, fields.subrange(i as int, n as int)) == target,
                    decreases n - i,
                {
                    proof {
                        let rest = fields.subrange(i as int, n as int);
                        assert(rest[0] == fields[i as int]);
                        assert(rest.drop_first() =~= fields.subrange(i + 1, n as int));
                    }
                    let pair = &entries[i];
                    upsert_field(&mut self.payload, pair.0.clone(), pair.1.duplicate());
                    i = i + 1;
                }
                proof {
                    assert(fields.subrange(n as int, n as int) =~= Seq::<
                        (Seq<char>, SpecValue),
                    >::empty());
                }
            },
            _ => {},
        }
    }

    /// The payload as a map value: an independent deep snapshot of the
    /// current entries.
    pub fn value(&self) -> (r: Value)
        ensures
            r@ == SpecValue::Fields(self@),
    {
        let r = Value::Hash(duplicate_entries(&self.payload));
        proof {
            assert(r@ matches SpecValue::Fields(fs) && fs =~= self@);
        }
        r
    }
}

} // verus!
