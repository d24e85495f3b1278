//! The library's model of scanned AWS resources, and the conversion of the
//! plain values read from AWS responses into that model.

pub mod ec2;
pub mod iam;
pub mod sg;
pub mod vpc;

use vstd::prelude::*;
use crate::seqs::{find_first, lemma_find_first_found, lemma_find_first_skip};
use crate::text::str_eq;

verus! {

/// A tag as an AWS response carries it: key and value may both be absent.
pub struct RawTag {
    pub key: Option<String>,
    pub value: Option<String>,
}

/// The characters of an optional string, empty when it is absent.
pub open spec fn or_empty(s: Option<String>) -> Seq<char> {
    match s {
        Some(v) => v@,
        None => Seq::empty(),
    }
}

/// The characters of an optional string, `default` when it is absent.
pub open spec fn or_text(s: Option<String>, default: Seq<char>) -> Seq<char> {
    match s {
        Some(v) => v@,
        None => default,
    }
}

/// A copy of an optional string, or of `default` when it is absent.
pub fn string_or(s: &Option<String>, default: &str) -> (r: String)
    ensures
        r@ == or_text(*s, default@),
{
    match s {
        Some(v) => String::from_str(v.as_str()),
        None => String::from_str(default),
    }
}

/// The tag map that collecting raw tags into a map builds: tags without a key
/// are dropped, a missing value counts as empty, and a later tag with the
/// same key replaces an earlier one.
pub open spec fn tag_map(raw: Seq<RawTag>) -> Map<Seq<char>, Seq<char>>
    decreases raw.len(),
{
    if raw.len() == 0 {
        Map::empty()
    } else {
        let m = tag_map(raw.drop_last());
        match raw.last().key {
            Some(k) => m.insert(k@, or_empty(raw.last().value)),
            None => m,
        }
    }
}

/// The map that a tag list stands for: each key with its value.
pub open spec fn tags_view(tags: Seq<(String, String)>) -> Map<Seq<char>, Seq<char>>
    decreases tags.len(),
{
    if tags.len() == 0 {
        Map::empty()
    } else {
        tags_view(tags.drop_last()).insert(tags.last().0@, tags.last().1@)
    }
}

/// No key occurs twice in a tag list.
pub open spec fn keys_distinct(tags: Seq<(String, String)>) -> bool {
    forall|i: int, j: int| 0 <= i < j < tags.len() ==> (#[trigger] tags[i]).0@ != (#[trigger] tags[j]).0@
}

/// Whether no key occurs twice in a tag list.
pub fn tag_keys_distinct(tags: &Vec<(String, String)>) -> (b: bool)
    ensures
        b == keys_distinct(tags@),
{
    let mut j: usize = 0;
    while j < tags.len()
        invariant
            j <= tags.len(),
            forall|a: int, c: int|
                0 <= a < c < j ==> (#[trigger] tags@[a]).0@ != (#[trigger] tags@[c]).0@,
        decreases tags.len() - j,
    {
        let mut i: usize = 0;
        while i < j
            invariant
                i <= j < tags.len(),
                forall|a: int, c: int|
                    0 <= a < c < j ==> (#[trigger] tags@[a]).0@ != (#[trigger] tags@[c]).0@,
                forall|a: int| 0 <= a < i ==> (#[trigger] tags@[a]).0@ != tags@[j as int].0@,
            decreases j - i,
        {
            if str_eq(tags[i].0.as_str(), tags[j].0.as_str()) {
                return false;
            }
            i = i + 1;
        }
        j = j + 1;
    }
    true
}

proof fn lemma_tags_view_update(tags: Seq<(String, String)>, j: int, k: String, v: String)
    requires
        keys_distinct(tags),
        0 <= j < tags.len(),
        tags[j].0@ == k@,
    ensures
        tags_view(tags.update(j, (k, v))) =~= tags_view(tags).insert(k@, v@),
    decreases tags.len(),
{
    let u = tags.update(j, (k, v));
    if j == tags.len() - 1 {
        assert(u.drop_last() =~= tags.drop_last());
    } else {
        assert(u.drop_last() =~= tags.drop_last().update(j, (k, v)));
        assert(keys_distinct(tags.drop_last()));
        lemma_tags_view_update(tags.drop_last(), j, k, v);
        assert(tags[j].0@ != tags[tags.len() - 1].0@);
    }
}

/// The keys of raw tags in the order in which they first occur.
pub open spec fn first_keys(raw: Seq<RawTag>) -> Seq<Seq<char>>
    decreases raw.len(),
{
    if raw.len() == 0 {
        Seq::empty()
    } else {
        let ks = first_keys(raw.drop_last());
        match raw.last().key {
            Some(k) => if ks.contains(k@) {
                ks
            } else {
                ks.push(k@)
            },
            None => ks,
        }
    }
}

/// The keys of a tag list, in order.
pub open spec fn tag_keys(tags: Seq<(String, String)>) -> Seq<Seq<char>> {
    tags.map_values(|t: (String, String)| t.0@)
}

/// Collect raw tags into the tag list of a resource: each key once, with the
/// value of its last tag (as a map keeps it), a missing value as empty, tags
/// without a key left out; the keys come in the order of their first tags.
pub fn tags_from_raw(raw: &Vec<RawTag>) -> (r: Vec<(String, String)>)
    ensures
        keys_distinct(r@),
        tags_view(r@) == tag_map(raw@),
        tag_keys(r@) == first_keys(raw@),
{
    let mut out: Vec<(String, String)> = Vec::new();
    let mut i: usize = 0;
    while i < raw.len()
        invariant
            i <= raw.len(),
            keys_distinct(out@),
            tags_view(out@) == tag_map(raw@.take(i as int)),
            tag_keys(out@) == first_keys(raw@.take(i as int)),
        decreases raw.len() - i,
    {
        assert(raw@.take(i + 1).drop_last() =~= raw@.take(i as int));
        assert(raw@.take(i + 1).last() == raw@[i as int]);
        if let Some(k) = &raw[i].key {
            let v = string_or(&raw[i].value, "");
            proof {
                reveal_strlit("");
                assert(v@ == or_empty(raw@[i as int].value));
            }
            let mut j: usize = 0;
            let mut found = false;
            while j < out.len() && !found
                invariant
                    j <= out.len(),
                    i < raw.len(),
                    keys_distinct(out@),
                    tags_view(out@) == tag_map(raw@.take(i as int)),
                    tag_keys(out@) == first_keys(raw@.take(i as int)),
                    found ==> j < out.len() && out@[j as int].0@ == k@,
                    !found ==> forall|m: int| 0 <= m < j ==> (#[trigger] out@[m]).0@ != k@,
                decreases out.len() - j, (if found { 0int } else { 1int }),
            {
                if str_eq(out[j].0.as_str(), k.as_str()) {
                    found = true;
                } else {
                    j = j + 1;
                }
            }
            let key = String::from_str(k.as_str());
            proof {
                let ks = tag_keys(out@);
                if found {
                    assert(ks[j as int] == k@);
                } else {
                    assert forall|m: int| 0 <= m < ks.len() implies ks[m] != k@ by {
                        assert(ks[m] == out@[m].0@);
                    }
                }
            }
            if found {
                proof {
                    lemma_tags_view_update(out@, j as int, key, v);
                }
                let ghost before = out@;
                out.set(j, (key, v));
                assert(tag_keys(out@) =~= tag_keys(before));
                assert(keys_distinct(out@));
            } else {
                let ghost prev = out@;
                out.push((key, v));
                assert(out@.drop_last() =~= prev);
                assert(tag_keys(out@) =~= tag_keys(prev).push(k@));
                assert(keys_distinct(out@));
            }
        }
        i = i + 1;
    }
    assert(raw@.take(raw.len() as int) =~= raw@);
    out
}

/// The test "is a tag with the key `Name`".
pub open spec fn is_name_tag() -> spec_fn(RawTag) -> bool {
    |t: RawTag| t.key is Some && t.key->0@ == "Name"@
}

/// The value of the first tag with the key `Name`; none when there is no such
/// tag or it has no value.
pub open spec fn name_tag_value(raw: Seq<RawTag>) -> Option<Seq<char>> {
    match find_first(raw, is_name_tag()) {
        Some(t) => match t.value {
            Some(v) => Some(v@),
            None => None,
        },
        None => None,
    }
}

/// The value of the first `Name` tag, as `name_tag_value` describes it.
pub fn name_from_tags(raw: &Vec<RawTag>) -> (r: Option<String>)
    ensures
        match r {
            Some(s) => name_tag_value(raw@) == Some(s@),
            None => name_tag_value(raw@) is None,
        },
{
    let ghost p = is_name_tag();
    let mut i: usize = 0;
    while i < raw.len()
        invariant
            i <= raw.len(),
            p == is_name_tag(),
            forall|j: int| 0 <= j < i ==> !p(#[trigger] raw@[j]),
        decreases raw.len() - i,
    {
        let hit = match &raw[i].key {
            Some(k) => str_eq(k.as_str(), "Name"),
            None => false,
        };
        if hit {
            proof {
                lemma_find_first_skip(raw@, p, i as int);
                assert(raw@.skip(i as int)[0] == raw@[i as int]);
            }
            return match &raw[i].value {
                Some(v) => Some(String::from_str(v.as_str())),
                None => None,
            };
        }
        i = i + 1;
    }
    proof {
        lemma_find_first_skip(raw@, p, i as int);
        assert(raw@.skip(i as int).len() == 0);
    }
    None
}

/// The characters of each string of a list.
pub open spec fn views(v: Seq<String>) -> Seq<Seq<char>> {
    v.map_values(|s: String| s@)
}

/// The strings that are present in a list of optional strings, in order.
pub open spec fn present(v: Seq<Option<String>>) -> Seq<Seq<char>>
    decreases v.len(),
{
    if v.len() == 0 {
        Seq::empty()
    } else {
        match v.last() {
            Some(s) => present(v.drop_last()).push(s@),
            None => present(v.drop_last()),
        }
    }
}

/// The strings that are present in a list of optional strings, in order.
pub fn present_strings(v: &Vec<Option<String>>) -> (r: Vec<String>)
    ensures
        views(r@) == present(v@),
{
    let mut r: Vec<String> = Vec::new();
    let mut i: usize = 0;
    while i < v.len()
        invariant
            i <= v.len(),
            views(r@) == present(v@.take(i as int)),
        decreases v.len() - i,
    {
        assert(v@.take(i + 1).drop_last() =~= v@.take(i as int));
        assert(v@.take(i + 1).last() == v@[i as int]);
        if let Some(s) = &v[i] {
            let ghost prev = r@;
            r.push(String::from_str(s.as_str()));
            assert(views(r@) =~= views(prev).push(s@));
        }
        i = i + 1;
    }
    assert(v@.take(v.len() as int) =~= v@);
    r
}

/// A copy of an optional string.
pub fn copy_option(s: &Option<String>) -> (r: Option<String>)
    ensures
        match r {
            Some(v) => s is Some && v@ == s->0@,
            None => s is None,
        },
{
    match s {
        Some(v) => Some(String::from_str(v.as_str())),
        None => None,
    }
}


// ---------------------------------------------------------------------------
// Laws of reading tags and optional values
// ---------------------------------------------------------------------------

/// Whether the raw tag `t` has the key `k`.
pub open spec fn has_key(t: RawTag, k: Seq<char>) -> bool {
    t.key is Some && t.key->0@ == k
}

/// In the tag map, a key that some tag has maps to the value of the last
/// tag with that key (empty where that tag has no value); a key that no tag
/// has is absent.
pub proof fn lemma_tag_map_lookup(raw: Seq<RawTag>, k: Seq<char>, i: int)
    ensures
        0 <= i < raw.len() && has_key(raw[i], k) && (forall|j: int|
            i < j < raw.len() ==> !has_key(#[trigger] raw[j], k)) ==> tag_map(raw).dom().contains(k)
            && tag_map(raw)[k] == or_empty(raw[i].value),
        (forall|j: int| 0 <= j < raw.len() ==> !has_key(#[trigger] raw[j], k)) ==> !tag_map(
            raw,
        ).dom().contains(k),
    decreases raw.len(),
{
    if raw.len() > 0 {
        let d = raw.drop_last();
        let t = raw.last();
        lemma_tag_map_lookup(d, k, i);
        if 0 <= i < raw.len() && has_key(raw[i], k) && (forall|j: int|
            i < j < raw.len() ==> !has_key(#[trigger] raw[j], k)) {
            if i < raw.len() - 1 {
                assert(!has_key(raw[raw.len() - 1], k));
                assert(d[i] == raw[i]);
                assert forall|j: int| i < j < d.len() implies !has_key(#[trigger] d[j], k) by {
                    assert(d[j] == raw[j]);
                }
            }
        }
        if forall|j: int| 0 <= j < raw.len() ==> !has_key(#[trigger] raw[j], k) {
            assert(!has_key(raw[raw.len() - 1], k));
            assert forall|j: int| 0 <= j < d.len() implies !has_key(#[trigger] d[j], k) by {
                assert(d[j] == raw[j]);
            }
        }
    }
}

/// The keys of the tags, each once, in the order of their first tags: no key
/// comes twice, and a key comes exactly when some tag has it.
pub proof fn lemma_first_keys(raw: Seq<RawTag>)
    ensures
        first_keys(raw).no_duplicates(),
        forall|k: Seq<char>|
            first_keys(raw).contains(k) <==> exists|i: int|
                0 <= i < raw.len() && has_key(#[trigger] raw[i], k),
    decreases raw.len(),
{
    if raw.len() > 0 {
        let d = raw.drop_last();
        let t = raw.last();
        lemma_first_keys(d);
        let ks = first_keys(d);
        assert forall|k: Seq<char>|
            first_keys(raw).contains(k) <==> exists|i: int|
                0 <= i < raw.len() && has_key(#[trigger] raw[i], k) by {
            if first_keys(raw).contains(k) {
                if ks.contains(k) {
                    let i = choose|i: int| 0 <= i < d.len() && has_key(#[trigger] d[i], k);
                    assert(raw[i] == d[i]);
                } else {
                    let m = choose|m: int| 0 <= m < first_keys(raw).len() && first_keys(raw)[m] == k;
                    assert(has_key(raw[raw.len() - 1], k));
                }
            }
            if exists|i: int| 0 <= i < raw.len() && has_key(#[trigger] raw[i], k) {
                let i = choose|i: int| 0 <= i < raw.len() && has_key(#[trigger] raw[i], k);
                if i < raw.len() - 1 {
                    assert(d[i] == raw[i]);
                    assert(ks.contains(k));
                    if !(first_keys(raw) =~= ks) {
                        assert(first_keys(raw) == ks.push(t.key->0@));
                        assert(first_keys(raw)[ks.index_of(k)] == k);
                    }
                } else {
                    if !ks.contains(k) {
                        assert(first_keys(raw)[ks.len() as int] == k);
                    }
                }
            }
        }
    }
}

/// The present strings of a concatenation are those of each part.
pub proof fn lemma_present_append(a: Seq<Option<String>>, b: Seq<Option<String>>)
    ensures
        present(a + b) == present(a) + present(b),
    decreases b.len(),
{
    if b.len() == 0 {
        assert(a + b =~= a);
        assert(present(a) + present(b) =~= present(a));
    } else {
        assert((a + b).drop_last() =~= a + b.drop_last());
        assert((a + b).last() == b.last());
        lemma_present_append(a, b.drop_last());
        match b.last() {
            Some(s) => {
                assert(present(a) + present(b.drop_last()).push(s@) =~= (present(a) + present(
                    b.drop_last(),
                )).push(s@));
            },
            None => {},
        }
    }
}

/// A present string is kept, an absent one is dropped.
pub proof fn lemma_present_single(o: Option<String>)
    ensures
        o matches Some(s) ==> present(seq![o]) == seq![s@],
        o is None ==> present(seq![o]).len() == 0,
{
    assert(seq![o].drop_last() =~= Seq::<Option<String>>::empty());
    assert(seq![o].last() == o);
    assert(present(Seq::<Option<String>>::empty()) == Seq::<Seq<char>>::empty());
    assert(present(seq![o].drop_last()) == Seq::<Seq<char>>::empty());
    if let Some(s) = o {
        assert(Seq::<Seq<char>>::empty().push(s@) =~= seq![s@]);
    }
}

/// The `Name` tag's value is that of the first tag with the key `Name`, and
/// there is none without such a tag.
pub proof fn lemma_name_tag_value(raw: Seq<RawTag>, i: int)
    ensures
        0 <= i < raw.len() && has_key(raw[i], "Name"@) && (forall|j: int|
            0 <= j < i ==> !has_key(#[trigger] raw[j], "Name"@)) ==> name_tag_value(raw) == match raw[i].value {
            Some(v) => Some(v@),
            None => None::<Seq<char>>,
        },
        (forall|j: int| 0 <= j < raw.len() ==> !has_key(#[trigger] raw[j], "Name"@))
            ==> name_tag_value(raw) is None,
{
    let p = is_name_tag();
    if 0 <= i < raw.len() && has_key(raw[i], "Name"@) && (forall|j: int|
        0 <= j < i ==> !has_key(#[trigger] raw[j], "Name"@)) {
        assert forall|j: int| 0 <= j < i implies !p(#[trigger] raw[j]) by {
            assert(!has_key(raw[j], "Name"@));
        }
        lemma_find_first_skip(raw, p, i);
        assert(raw.skip(i)[0] == raw[i]);
    }
    if forall|j: int| 0 <= j < raw.len() ==> !has_key(#[trigger] raw[j], "Name"@) {
        lemma_find_first_found(raw, p);
        if find_first(raw, p) is Some {
            let x = find_first(raw, p)->0;
            let m = choose|m: int| 0 <= m < raw.len() && raw[m] == x;
            assert(!has_key(raw[m], "Name"@));
        }
    }
}

} // verus!
