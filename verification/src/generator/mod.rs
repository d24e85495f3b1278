//! Terraform naming rules and the assembly of the generated `.tf` files.

pub mod ec2;
pub mod iam;
pub mod imports;
pub mod sg;
pub mod vpc;

use vstd::prelude::*;
use crate::scanner::ec2::Ec2Instance;
use crate::scanner::keys_distinct;
use crate::scanner::iam::IamRole;
use crate::scanner::sg::SecurityGroup;
use crate::scanner::vpc::{Subnet, VpcInfo};
use crate::seqs::{
    concat_map, find_first, holds, lemma_concat_map_all, lemma_concat_map_take,
    lemma_find_first_found, lemma_find_first_skip, lemma_holds_concat_map, lemma_holds_mid,
    lemma_holds_suffix,
};
use crate::text::{
    ascii_lower, ascii_lowercase, byte_len, char_is_alphanumeric, char_is_whitespace, char_width,
    chars_of, has_char, i32_text, int_text, is_alphanumeric, is_ascii_text, is_ascii_upper,
    is_prefix, is_whitespace, lemma_byte_len_take, lemma_byte_len_take_le, lowercase, str_eq,
    string_of, string_of_prefix, to_lowercase, utf8_width,
};

verus! {

/// Shared resource collection passed from scanner to generator.
pub struct Resources {
    pub instances: Vec<Ec2Instance>,
    pub security_groups: Vec<SecurityGroup>,
    pub vpcs: Vec<VpcInfo>,
    pub roles: Vec<IamRole>,
}

impl Default for Resources {
    /// No resources of any kind.
    fn default() -> (r: Self)
        ensures
            r.instances@.len() == 0,
            r.security_groups@.len() == 0,
            r.vpcs@.len() == 0,
            r.roles@.len() == 0,
    {
        Resources {
            instances: Vec::new(),
            security_groups: Vec::new(),
            vpcs: Vec::new(),
            roles: Vec::new(),
        }
    }
}

// ---------------------------------------------------------------------------
// tf_name
// ---------------------------------------------------------------------------

/// Whether `c` is one of the separators that `tf_name` turns into `_`.
pub open spec fn is_separator(c: char) -> bool {
    c == '-' || c == ' ' || c == '.' || c == '/'
}

/// Whether `c` is an ASCII decimal digit.
pub open spec fn is_ascii_digit(c: char) -> bool {
    '0' <= c && c <= '9'
}

/// What one (already lowercased) character becomes in a Terraform name:
/// separators become `_`, alphanumerics and `_` stay, the rest is dropped.
pub open spec fn name_char(c: char) -> Seq<char> {
    if is_separator(c) {
        seq!['_']
    } else if is_alphanumeric(c) || c == '_' {
        seq![c]
    } else {
        Seq::empty()
    }
}

/// The character-by-character normalisation of a lowercased name.
pub open spec fn normalize(s: Seq<char>) -> Seq<char>
    decreases s.len(),
{
    if s.len() == 0 {
        Seq::empty()
    } else {
        normalize(s.drop_last()) + name_char(s.last())
    }
}

/// The Terraform identifier made of an already lowercased name: the name,
/// normalised; `unnamed` when nothing is left, and with `_` in front when it
/// would begin with a digit.
pub open spec fn lowered_name_text(low: Seq<char>) -> Seq<char> {
    let s = normalize(low);
    if s.len() == 0 {
        "unnamed"@
    } else if is_ascii_digit(s[0]) {
        "_"@ + s
    } else {
        s
    }
}

/// The Terraform identifier that `tf_name` makes of a raw name: that of its
/// lowercase mapping.
pub open spec fn tf_name_text(raw: Seq<char>) -> Seq<char> {
    lowered_name_text(lowercase(raw))
}

/// Whether a character may stand in a Terraform name: `_`, or an
/// alphanumeric that is not a separator.
pub open spec fn name_safe(c: char) -> bool {
    c == '_' || (is_alphanumeric(c) && !is_separator(c))
}

/// Every character that normalisation keeps is `_` or an alphanumeric that is
/// not a separator.
pub proof fn lemma_normalize_chars(s: Seq<char>)
    ensures
        forall|i: int| 0 <= i < normalize(s).len() ==> name_safe(#[trigger] normalize(s)[i]),
    decreases s.len(),
{
    if s.len() > 0 {
        let p = normalize(s.drop_last());
        let q = name_char(s.last());
        lemma_normalize_chars(s.drop_last());
        assert forall|i: int| 0 <= i < normalize(s).len() implies name_safe(
            #[trigger] normalize(s)[i],
        ) by {
            if i < p.len() {
                assert(normalize(s)[i] == p[i]);
            } else {
                assert(normalize(s)[i] == q[i - p.len()]);
            }
        }
    }
}

/// A name made only of characters that may stand in a Terraform name is left
/// as it is by normalisation.
pub proof fn lemma_normalize_keeps(s: Seq<char>)
    requires
        forall|i: int| 0 <= i < s.len() ==> name_safe(#[trigger] s[i]),
    ensures
        normalize(s) == s,
    decreases s.len(),
{
    if s.len() > 0 {
        lemma_normalize_keeps(s.drop_last());
        assert(s.drop_last() + seq![s.last()] =~= s);
    }
}

/// Whether every character of `s` is ASCII and none is an uppercase letter.
pub open spec fn ascii_lower_text(s: Seq<char>) -> bool {
    forall|i: int| 0 <= i < s.len() ==> (#[trigger] s[i] as u32) < 0x80 && !is_ascii_upper(s[i])
}

/// Lowercasing leaves ASCII text without uppercase letters as it is.
proof fn lemma_lowercase_keeps(s: Seq<char>)
    requires
        ascii_lower_text(s),
    ensures
        lowercase(s) == s,
{
    assert(is_ascii_text(s));
    assert(ascii_lowercase(s) =~= s);
}

/// Lowercasing ASCII text leaves no uppercase letter.
proof fn lemma_lowercase_ascii(s: Seq<char>)
    requires
        is_ascii_text(s),
    ensures
        ascii_lower_text(lowercase(s)),
{
    assert forall|i: int| 0 <= i < lowercase(s).len() implies (#[trigger] lowercase(s)[i] as u32)
        < 0x80 && !is_ascii_upper(lowercase(s)[i]) by {
        assert(lowercase(s)[i] == ascii_lower(s[i]));
        assert((s[i] as u32) < 0x80);
    }
}

/// Normalisation keeps text ASCII and free of uppercase letters.
proof fn lemma_normalize_ascii_lower(s: Seq<char>)
    requires
        ascii_lower_text(s),
    ensures
        ascii_lower_text(normalize(s)),
    decreases s.len(),
{
    if s.len() > 0 {
        let p = normalize(s.drop_last());
        let q = name_char(s.last());
        lemma_normalize_ascii_lower(s.drop_last());
        assert forall|i: int| 0 <= i < normalize(s).len() implies (#[trigger] normalize(s)[i]
            as u32) < 0x80 && !is_ascii_upper(normalize(s)[i]) by {
            if i < p.len() {
                assert(normalize(s)[i] == p[i]);
            } else {
                assert(normalize(s)[i] == q[i - p.len()]);
            }
        }
    }
}

/// `tf_name` leaves a name that it produced unchanged. This is shown for
/// every raw name that is ASCII, for every raw name that falls back to
/// `unnamed`, and for every other raw name whose produced name lowercasing
/// leaves as it is.
pub proof fn lemma_tf_name_idempotent(raw: Seq<char>)
    requires
        is_ascii_text(raw) || normalize(lowercase(raw)).len() == 0 || lowercase(tf_name_text(raw))
            == tf_name_text(raw),
    ensures
        tf_name_text(tf_name_text(raw)) == tf_name_text(raw),
{
    reveal_strlit("_");
    reveal_strlit("unnamed");
    let low = lowercase(raw);
    let s = normalize(low);
    let x = tf_name_text(raw);
    lemma_normalize_chars(low);
    if s.len() == 0 {
        assert(ascii_lower_text(x));
        lemma_lowercase_keeps(x);
    } else if is_ascii_text(raw) {
        lemma_lowercase_ascii(raw);
        lemma_normalize_ascii_lower(low);
        assert(ascii_lower_text(x)) by {
            if is_ascii_digit(s[0]) {
                assert forall|i: int| 0 <= i < x.len() implies (#[trigger] x[i] as u32) < 0x80
                    && !is_ascii_upper(x[i]) by {
                    if i > 0 {
                        assert(x[i] == s[i - 1]);
                    }
                }
            }
        }
        lemma_lowercase_keeps(x);
    }
    assert forall|i: int| 0 <= i < x.len() implies name_safe(#[trigger] x[i]) by {
        if s.len() > 0 && is_ascii_digit(s[0]) && i > 0 {
            assert(x[i] == s[i - 1]);
        }
    }
    lemma_normalize_keeps(x);
}

/// The Terraform identifier of an already lowercased name: `tf_name` after
/// its lowercasing step.
///
/// The result is never empty, never begins with a digit (a name that would
/// gets a `_` in front), holds no `-`, space, `.` or `/`, and each of its
/// characters is `_` or alphanumeric.
pub fn tf_name_from_lowercase(low: &str) -> (r: String)
    ensures
        r@ == lowered_name_text(low@),
        r@.len() > 0,
        !is_ascii_digit(r@[0]),
        forall|i: int| 0 <= i < r@.len() ==> name_safe(#[trigger] r@[i]),
{
    let cs = chars_of(low);
    let mut nv: Vec<char> = Vec::new();
    let mut i: usize = 0;
    while i < cs.len()
        invariant
            i <= cs.len(),
            cs@ == low@,
            nv@ == normalize(cs@.take(i as int)),
        decreases cs.len() - i,
    {
        let c = cs[i];
        proof {
            assert(cs@.take(i + 1).drop_last() =~= cs@.take(i as int));
            assert(cs@.take(i + 1).last() == c);
        }
        if c == '-' || c == ' ' || c == '.' || c == '/' {
            nv.push('_');
        } else if char_is_alphanumeric(c) || c == '_' {
            nv.push(c);
        }
        assert(nv@ =~= normalize(cs@.take(i + 1)));
        i = i + 1;
    }
    assert(cs@.take(cs.len() as int) =~= cs@);
    proof {
        lemma_normalize_chars(cs@);
        reveal_strlit("unnamed");
        reveal_strlit("_");
    }
    if nv.len() == 0 {
        String::from_str("unnamed")
    } else if '0' <= nv[0] && nv[0] <= '9' {
        let body = string_of(&nv);
        let mut r = String::from_str("_");
        r.append(body.as_str());
        assert forall|i: int| 0 <= i < r@.len() implies name_safe(#[trigger] r@[i]) by {
            if i > 0 {
                assert(r@[i] == nv@[i - 1]);
            }
        }
        r
    } else {
        string_of(&nv)
    }
}

/// Normalize a tag Name to a Terraform-safe identifier.
///
/// The result is never empty, never begins with a digit (a name that would
/// gets a `_` in front), holds no `-`, space, `.` or `/`, and each of its
/// characters is `_` or alphanumeric.
pub fn tf_name(raw: &str) -> (r: String)
    ensures
        r@ == tf_name_text(raw@),
        r@.len() > 0,
        !is_ascii_digit(r@[0]),
        forall|i: int| 0 <= i < r@.len() ==> name_safe(#[trigger] r@[i]),
{
    let low = to_lowercase(raw);
    tf_name_from_lowercase(low.as_str())
}

// ---------------------------------------------------------------------------
// short_id
// ---------------------------------------------------------------------------

/// A resource id with its hyphens removed.
pub open spec fn strip_hyphens(s: Seq<char>) -> Seq<char>
    decreases s.len(),
{
    if s.len() == 0 {
        Seq::empty()
    } else if s.last() == '-' {
        strip_hyphens(s.drop_last())
    } else {
        strip_hyphens(s.drop_last()).push(s.last())
    }
}

/// The longest prefix of `s` whose UTF-8 encoding fits in `budget` bytes.
pub open spec fn fit(s: Seq<char>, budget: int) -> Seq<char>
    decreases s.len(),
{
    if s.len() == 0 || char_width(s[0]) > budget {
        Seq::empty()
    } else {
        seq![s[0]] + fit(s.drop_first(), budget - char_width(s[0]))
    }
}

/// Whether `short_id` is defined on `id`: the hyphen-free id takes at most
/// ten bytes, or its first ten bytes end on a character boundary (else the
/// byte slice `[..10]` would panic).
pub open spec fn short_id_defined(id: Seq<char>) -> bool {
    let c = strip_hyphens(id);
    byte_len(c) <= 10 || byte_len(fit(c, 10)) == 10
}

/// What `short_id` returns: the hyphen-free id, cut to its first ten bytes.
pub open spec fn short_id_text(id: Seq<char>) -> Seq<char> {
    let c = strip_hyphens(id);
    if byte_len(c) <= 10 {
        c
    } else {
        fit(c, 10)
    }
}

/// Every character left after removing hyphens is a character of the id,
/// and none is a hyphen.
pub proof fn lemma_strip_chars(s: Seq<char>)
    ensures
        !has_char(strip_hyphens(s), '-'),
        forall|x: char| has_char(strip_hyphens(s), x) ==> #[trigger] has_char(s, x),
    decreases s.len(),
{
    if s.len() > 0 {
        lemma_strip_chars(s.drop_last());
        let t = strip_hyphens(s.drop_last());
        assert forall|x: char| has_char(strip_hyphens(s), x) implies #[trigger] has_char(s, x) by {
            let k = choose|k: int| 0 <= k < strip_hyphens(s).len() && strip_hyphens(s)[k] == x;
            if k < t.len() {
                assert(t[k] == x);
                assert(has_char(t, x));
                assert(has_char(s.drop_last(), x));
                let m = choose|m: int| 0 <= m < s.drop_last().len() && s.drop_last()[m] == x;
                assert(s[m] == x);
            } else {
                assert(s[s.len() - 1] == x);
            }
        }
        if has_char(strip_hyphens(s), '-') {
            let k = choose|k: int| 0 <= k < strip_hyphens(s).len() && strip_hyphens(s)[k] == '-';
            if k < t.len() {
                assert(t[k] == '-');
            }
        }
    }
}

/// `fit` keeps a prefix.
pub proof fn lemma_fit_prefix(s: Seq<char>, budget: int)
    ensures
        is_prefix(fit(s, budget), s),
    decreases s.len(),
{
    assert(s.take(0) =~= Seq::<char>::empty());
    if s.len() > 0 && char_width(s[0]) <= budget {
        let t = s.drop_first();
        lemma_fit_prefix(t, budget - char_width(s[0]));
        let f = fit(t, budget - char_width(s[0]));
        assert(seq![s[0]] + f =~= s.take(f.len() + 1 as int));
    }
}

/// One more character that fits in what is left of the budget.
proof fn lemma_fit_step(s: Seq<char>, j: int, budget: int)
    requires
        0 <= j < s.len(),
        char_width(s[j]) <= budget,
    ensures
        fit(s.skip(j), budget) == seq![s[j]] + fit(s.skip(j + 1), budget - char_width(s[j])),
{
    assert(s.skip(j)[0] == s[j]);
    assert(s.skip(j).drop_first() =~= s.skip(j + 1));
}

/// The facts about a short id that its users need: it holds no hyphen, it is
/// a prefix of the hyphen-free id, it holds no character the id does not
/// hold, and where defined it takes at most ten bytes.
pub proof fn lemma_short_id_text(id: Seq<char>)
    ensures
        !has_char(short_id_text(id), '-'),
        is_prefix(short_id_text(id), strip_hyphens(id)),
        forall|x: char| has_char(short_id_text(id), x) ==> #[trigger] has_char(id, x),
        short_id_defined(id) ==> byte_len(short_id_text(id)) <= 10,
{
    let c = strip_hyphens(id);
    lemma_strip_chars(id);
    lemma_fit_prefix(c, 10);
    assert(c.take(c.len() as int) =~= c);
    let r = short_id_text(id);
    assert(r =~= c.take(r.len() as int));
    assert forall|x: char| has_char(r, x) implies #[trigger] has_char(id, x) by {
        let k = choose|k: int| 0 <= k < r.len() && r[k] == x;
        assert(c[k] == x);
        assert(has_char(c, x));
    }
    if has_char(r, '-') {
        let k = choose|k: int| 0 <= k < r.len() && r[k] == '-';
        assert(c[k] == '-');
    }
}

fn stripped(resource_id: &str) -> (st: Vec<char>)
    ensures
        st@ == strip_hyphens(resource_id@),
{
    let cs = chars_of(resource_id);
    let mut st: Vec<char> = Vec::new();
    let mut i: usize = 0;
    while i < cs.len()
        invariant
            i <= cs.len(),
            cs@ == resource_id@,
            st@ == strip_hyphens(cs@.take(i as int)),
        decreases cs.len() - i,
    {
        let c = cs[i];
        assert(cs@.take(i + 1).drop_last() =~= cs@.take(i as int));
        if c != '-' {
            st.push(c);
        }
        i = i + 1;
    }
    assert(cs@.take(cs.len() as int) =~= cs@);
    st
}

/// The short id of `resource_id`, or `None` where its first ten bytes do not
/// end on a character boundary (the case in which `short_id` cannot cut it).
pub fn try_short_id(resource_id: &str) -> (r: Option<String>)
    ensures
        r is Some <==> short_id_defined(resource_id@),
        r matches Some(s) ==> s@ == short_id_text(resource_id@),
{
    let st = stripped(resource_id);
    let mut acc: usize = 0;
    let mut j: usize = 0;
    proof {
        assert(st@.take(0) =~= Seq::<char>::empty());
        assert(st@.skip(0) =~= st@);
    }
    while j < st.len()
        invariant
            j <= st.len(),
            acc <= 10,
            st@ == strip_hyphens(resource_id@),
            acc == byte_len(st@.take(j as int)),
            fit(st@, 10) == st@.take(j as int) + fit(st@.skip(j as int), 10 - acc),
        ensures
            j <= st.len(),
            acc <= 10,
            acc == byte_len(st@.take(j as int)),
            fit(st@, 10) == st@.take(j as int) + fit(st@.skip(j as int), 10 - acc),
            j < st.len() ==> acc + char_width(st@[j as int]) > 10,
        decreases st.len() - j,
    {
        let w = utf8_width(st[j]);
        if acc + w > 10 {
            break;
        }
        proof {
            lemma_fit_step(st@, j as int, 10 - acc);
            lemma_byte_len_take(st@, j as int);
            assert(st@.take(j as int) + seq![st@[j as int]] =~= st@.take(j + 1));
        }
        acc = acc + w;
        j = j + 1;
    }
    if j == st.len() {
        assert(st@.take(j as int) =~= st@);
        Some(string_of(&st))
    } else {
        proof {
            assert(st@.skip(j as int)[0] == st@[j as int]);
            assert(fit(st@.skip(j as int), 10 - acc) =~= Seq::<char>::empty());
            assert(fit(st@, 10) =~= st@.take(j as int));
            lemma_byte_len_take(st@, j as int);
            lemma_byte_len_take_le(st@, j + 1);
        }
        if acc == 10 {
            Some(string_of_prefix(&st, j))
        } else {
            None
        }
    }
}

/// Extract a short unique suffix from an AWS resource ID: the hyphens are
/// removed and at most the first ten bytes are kept (the prefix and the
/// first hex digits).
/// Example: "vpc-0abc123d" → "vpc0abc123"; "sg-0abc12" → "sg0abc12".
pub fn short_id(resource_id: &str) -> (r: String)
    requires
        short_id_defined(resource_id@),
    ensures
        r@ == short_id_text(resource_id@),
        !has_char(r@, '-'),
        byte_len(r@) <= 10,
        is_prefix(r@, strip_hyphens(resource_id@)),
{
    proof {
        lemma_short_id_text(resource_id@);
    }
    match try_short_id(resource_id) {
        Some(s) => s,
        None => String::new(),
    }
}

// ---------------------------------------------------------------------------
// tf_unique_name
// ---------------------------------------------------------------------------

/// The name that `tf_unique_name` builds: the Terraform name of `readable`,
/// `_`, and the short id.
pub open spec fn tf_unique_name_text(readable: Seq<char>, resource_id: Seq<char>) -> Seq<char> {
    tf_name_text(readable) + "_"@ + short_id_text(resource_id)
}

/// Build a unique Terraform resource name guaranteed not to collide.
/// Combines `readable_name` with a short suffix from `resource_id`.
///
/// Example: tf_unique_name("web-server", "i-0abc123def456gh") → "web_server_i0abc123de"
pub fn tf_unique_name(readable: &str, resource_id: &str) -> (r: String)
    requires
        short_id_defined(resource_id@),
    ensures
        r@ == tf_unique_name_text(readable@, resource_id@),
{
    let base = tf_name(readable);
    let suffix = short_id(resource_id);
    let mut r = base;
    r.append("_");
    r.append(suffix.as_str());
    r
}

/// Unique names do not collide: two resources get different unique names
/// whenever their Terraform names or their short ids differ, provided the ids
/// hold no `_` (AWS ids hold none).
pub proof fn lemma_unique_names_distinct(
    readable1: Seq<char>,
    id1: Seq<char>,
    readable2: Seq<char>,
    id2: Seq<char>,
)
    requires
        !has_char(id1, '_'),
        !has_char(id2, '_'),
        tf_name_text(readable1) != tf_name_text(readable2) || short_id_text(id1) != short_id_text(
            id2,
        ),
    ensures
        tf_unique_name_text(readable1, id1) != tf_unique_name_text(readable2, id2),
{
    reveal_strlit("_");
    lemma_short_id_text(id1);
    lemma_short_id_text(id2);
    let b1 = tf_name_text(readable1);
    let b2 = tf_name_text(readable2);
    let s1 = short_id_text(id1);
    let s2 = short_id_text(id2);
    let w1 = b1 + "_"@ + s1;
    let w2 = b2 + "_"@ + s2;
    assert("_"@ =~= seq!['_']);
    if w1 == w2 {
        assert(w1.len() == b1.len() + 1 + s1.len());
        assert(w2.len() == b2.len() + 1 + s2.len());
        if s1.len() < s2.len() {
            let p = b1.len() as int;
            assert(w1[p] == '_');
            assert(p >= b2.len() + 1);
            let k = p - b2.len() - 1;
            assert(w2[p] == s2[k]);
            assert(has_char(s2, '_'));
        } else if s2.len() < s1.len() {
            let p = b2.len() as int;
            assert(w2[p] == '_');
            assert(p >= b1.len() + 1);
            let k = p - b1.len() - 1;
            assert(w1[p] == s1[k]);
            assert(has_char(s1, '_'));
        } else {
            assert(w1.skip((b1.len() + 1) as int) =~= s1);
            assert(w2.skip((b2.len() + 1) as int) =~= s2);
            assert(w1.take(b1.len() as int) =~= b1);
            assert(w2.take(b2.len() as int) =~= b2);
        }
    }
}

// ---------------------------------------------------------------------------
// quote_tag_key
// ---------------------------------------------------------------------------

/// Whether a character may stand in an HCL attribute name.
pub open spec fn key_char(c: char) -> bool {
    is_alphanumeric(c) || c == '_'
}

/// Whether a tag key must be quoted to be an HCL attribute name: it is empty,
/// starts with an ASCII digit, or holds a character that is neither
/// alphanumeric nor `_`.
pub open spec fn needs_quoting(key: Seq<char>) -> bool {
    ||| key.len() == 0
    ||| is_ascii_digit(key[0])
    ||| exists|i: int| 0 <= i < key.len() && !key_char(#[trigger] key[i])
}

/// What `quote_tag_key` returns: the key, in double quotes where it needs them.
pub open spec fn quote_tag_key_text(key: Seq<char>) -> Seq<char> {
    if needs_quoting(key) {
        "\""@ + key + "\""@
    } else {
        key
    }
}

fn all_key_chars(cs: &Vec<char>) -> (b: bool)
    ensures
        b == (forall|i: int| 0 <= i < cs@.len() ==> key_char(#[trigger] cs@[i])),
{
    let mut i: usize = 0;
    while i < cs.len()
        invariant
            i <= cs.len(),
            forall|j: int| 0 <= j < i ==> key_char(#[trigger] cs@[j]),
        decreases cs.len() - i,
    {
        if !(char_is_alphanumeric(cs[i]) || cs[i] == '_') {
            return false;
        }
        i = i + 1;
    }
    true
}

/// Quote a tag key if it contains characters invalid in HCL identifiers:
/// an empty key, a key starting with a digit, and a key holding any
/// character other than alphanumerics and `_` (such as `:`, `-`, `.`, `/`,
/// a space, `@` or `+`) is quoted.
pub fn quote_tag_key(key: &str) -> (r: String)
    ensures
        r@ == quote_tag_key_text(key@),
{
    let cs = chars_of(key);
    let needs = cs.len() == 0 || ('0' <= cs[0] && cs[0] <= '9') || !all_key_chars(&cs);
    if needs {
        let mut r = String::from_str("\"");
        r.append(key);
        r.append("\"");
        r
    } else {
        String::from_str(key)
    }
}

// ---------------------------------------------------------------------------
// tf_rule_name
// ---------------------------------------------------------------------------

/// The protocol as it appears in a rule name: `-1` (every protocol) reads `all`.
pub open spec fn protocol_name(protocol: Seq<char>) -> Seq<char> {
    if protocol == "-1"@ {
        "all"@
    } else {
        protocol
    }
}

/// What `tf_rule_name` returns.
pub open spec fn tf_rule_name_text(
    sg_name: Seq<char>,
    direction: Seq<char>,
    protocol: Seq<char>,
    from_port: int,
) -> Seq<char> {
    sg_name + "_"@ + direction + "_"@ + protocol_name(protocol) + "_"@ + int_text(from_port)
}

/// Format: {sg_name}_{direction}_{protocol}_{from_port}
/// Example: "web_sg_sg0abc123_ingress_tcp_80"
pub fn tf_rule_name(sg_name: &str, direction: &str, protocol: &str, from_port: i32) -> (r: String)
    ensures
        r@ == tf_rule_name_text(sg_name@, direction@, protocol@, from_port as int),
{
    let proto = if str_eq(protocol, "-1") {
        "all"
    } else {
        protocol
    };
    let port = i32_text(from_port);
    let mut r = String::from_str(sg_name);
    r.append("_");
    r.append(direction);
    r.append("_");
    r.append(proto);
    r.append("_");
    r.append(port.as_str());
    r
}

// ---------------------------------------------------------------------------
// Resource blocks and import lines
// ---------------------------------------------------------------------------

/// The first line of the block of the resource of type `t` named `n`.
pub open spec fn resource_header(t: Seq<char>, n: Seq<char>) -> Seq<char> {
    "resource \""@ + t + "\" \""@ + n + "\" {\n"@
}

/// The text of `resource_header(t, n)`.
pub(crate) fn write_resource_header(t: &str, n: &str) -> (r: String)
    ensures
        r@ == resource_header(t@, n@),
{
    let mut r = String::from_str("resource \"");
    r.append(t);
    r.append("\" \"");
    r.append(n);
    r.append("\" {\n");
    r
}

/// The script line that imports the object `id` as the resource of type `t`
/// named `n`.
pub open spec fn import_line(t: Seq<char>, n: Seq<char>, id: Seq<char>) -> Seq<char> {
    "terraform import "@ + t + "."@ + n + " "@ + id + "\n"@
}

/// The text of `import_line(t, n, id)`.
pub(crate) fn write_import_line(t: &str, n: &str, id: &str) -> (r: String)
    ensures
        r@ == import_line(t@, n@, id@),
{
    let mut r = String::from_str("terraform import ");
    r.append(t);
    r.append(".");
    r.append(n);
    r.append(" ");
    r.append(id);
    r.append("\n");
    r
}

// ---------------------------------------------------------------------------
// Tag lines
// ---------------------------------------------------------------------------

/// The line written for one tag: nothing for an empty value (or for the
/// `Name` tag when `skip_name`), else `    key = "value"` with the key quoted
/// where HCL needs it.
pub open spec fn tag_line(tag: (String, String), skip_name: bool) -> Seq<char> {
    if (skip_name && tag.0@ == "Name"@) || tag.1@.len() == 0 {
        Seq::empty()
    } else {
        "    "@ + quote_tag_key_text(tag.0@) + " = \""@ + tag.1@ + "\"\n"@
    }
}

/// The lines written for a tag list, in its order.
pub open spec fn tag_lines(tags: Seq<(String, String)>, skip_name: bool) -> Seq<char> {
    concat_map(tags, |t: (String, String)| tag_line(t, skip_name))
}

/// The lines written inside a `tags = { ... }` block. The keys must be
/// distinct, as in the tag map that the list stands for.
pub fn write_tag_lines(tags: &Vec<(String, String)>, skip_name: bool) -> (r: String)
    requires
        keys_distinct(tags@),
    ensures
        r@ == tag_lines(tags@, skip_name),
{
    let ghost f = |t: (String, String)| tag_line(t, skip_name);
    let mut r = String::new();
    let mut i: usize = 0;
    while i < tags.len()
        invariant
            i <= tags.len(),
            f == (|t: (String, String)| tag_line(t, skip_name)),
            r@ == concat_map(tags@.take(i as int), f),
            keys_distinct(tags@),
        decreases tags.len() - i,
    {
        let key = &tags[i].0;
        let value = &tags[i].1;
        let mut line = String::new();
        if !((skip_name && str_eq(key.as_str(), "Name")) || value.as_str().is_empty()) {
            let q = quote_tag_key(key.as_str());
            line = String::from_str("    ");
            line.append(q.as_str());
            line.append(" = \"");
            line.append(value.as_str());
            line.append("\"\n");
        }
        assert(line@ == f(tags@[i as int]));
        proof {
            lemma_concat_map_take(tags@, f, i as int);
        }
        r.append(line.as_str());
        i = i + 1;
    }
    proof {
        lemma_concat_map_all(tags@, f);
    }
    r
}

// ---------------------------------------------------------------------------
// Lookups by id
// ---------------------------------------------------------------------------

/// The test "has the id `id`" on security groups.
pub open spec fn sg_has_id(id: Seq<char>) -> spec_fn(SecurityGroup) -> bool {
    |sg: SecurityGroup| sg.id@ == id
}

/// The first security group of `sgs` with the id `id`.
pub open spec fn find_sg(sgs: Seq<SecurityGroup>, id: Seq<char>) -> Option<SecurityGroup> {
    find_first(sgs, sg_has_id(id))
}

/// The test "has the id `id`" on subnets.
pub open spec fn subnet_has_id(id: Seq<char>) -> spec_fn(Subnet) -> bool {
    |s: Subnet| s.id@ == id
}

/// The first subnet with the id `id`, among the subnets of the VPCs taken in
/// order, together with its VPC.
pub open spec fn find_subnet(vpcs: Seq<VpcInfo>, id: Seq<char>) -> Option<(VpcInfo, Subnet)>
    decreases vpcs.len(),
{
    if vpcs.len() == 0 {
        None
    } else {
        match find_first(vpcs[0].subnets@, subnet_has_id(id)) {
            Some(sub) => Some((vpcs[0], sub)),
            None => find_subnet(vpcs.drop_first(), id),
        }
    }
}

/// The position of the first security group with the id `id`.
pub fn lookup_sg(sgs: &[SecurityGroup], id: &str) -> (r: Option<usize>)
    ensures
        match r {
            Some(i) => i < sgs@.len() && find_sg(sgs@, id@) == Some(sgs@[i as int]),
            None => find_sg(sgs@, id@) is None,
        },
{
    let ghost p = sg_has_id(id@);
    let mut i: usize = 0;
    while i < sgs.len()
        invariant
            i <= sgs@.len(),
            p == sg_has_id(id@),
            forall|j: int| 0 <= j < i ==> !p(#[trigger] sgs@[j]),
        decreases sgs.len() - i,
    {
        if str_eq(sgs[i].id.as_str(), id) {
            proof {
                lemma_find_first_skip(sgs@, p, i as int);
                assert(sgs@.skip(i as int)[0] == sgs@[i as int]);
            }
            return Some(i);
        }
        i = i + 1;
    }
    proof {
        lemma_find_first_skip(sgs@, p, i as int);
        assert(sgs@.skip(i as int).len() == 0);
    }
    None
}

proof fn lemma_find_subnet_skip(vpcs: Seq<VpcInfo>, id: Seq<char>, i: int)
    requires
        0 <= i <= vpcs.len(),
        forall|j: int|
            0 <= j < i ==> find_first(#[trigger] vpcs[j].subnets@, subnet_has_id(id)) is None,
    ensures
        find_subnet(vpcs, id) == find_subnet(vpcs.skip(i), id),
    decreases i,
{
    if i == 0 {
        assert(vpcs.skip(0) =~= vpcs);
    } else {
        lemma_find_subnet_skip(vpcs, id, i - 1);
        assert(vpcs.skip(i - 1)[0] == vpcs[i - 1]);
        assert(vpcs.skip(i - 1).drop_first() =~= vpcs.skip(i));
    }
}

/// The position (VPC, then subnet) of the first subnet with the id `id`.
pub fn lookup_subnet(vpcs: &[VpcInfo], id: &str) -> (r: Option<(usize, usize)>)
    ensures
        match r {
            Some((i, j)) => i < vpcs@.len() && j < vpcs@[i as int].subnets@.len() && find_subnet(
                vpcs@,
                id@,
            ) == Some((vpcs@[i as int], vpcs@[i as int].subnets@[j as int])),
            None => find_subnet(vpcs@, id@) is None,
        },
{
    let ghost p = subnet_has_id(id@);
    let mut i: usize = 0;
    while i < vpcs.len()
        invariant
            i <= vpcs@.len(),
            p == subnet_has_id(id@),
            forall|k: int| 0 <= k < i ==> find_first(#[trigger] vpcs@[k].subnets@, p) is None,
        decreases vpcs.len() - i,
    {
        let subs = &vpcs[i].subnets;
        let mut j: usize = 0;
        while j < subs.len()
            invariant
                i < vpcs@.len(),
                subs@ == vpcs@[i as int].subnets@,
                j <= subs@.len(),
                p == subnet_has_id(id@),
                forall|k: int| 0 <= k < i ==> find_first(#[trigger] vpcs@[k].subnets@, p) is None,
                forall|k: int| 0 <= k < j ==> !p(#[trigger] subs@[k]),
            decreases subs.len() - j,
        {
            if str_eq(subs[j].id.as_str(), id) {
                proof {
                    lemma_find_first_skip(subs@, p, j as int);
                    assert(subs@.skip(j as int)[0] == subs@[j as int]);
                    lemma_find_subnet_skip(vpcs@, id@, i as int);
                    assert(vpcs@.skip(i as int)[0] == vpcs@[i as int]);
                }
                return Some((i, j));
            }
            j = j + 1;
        }
        proof {
            lemma_find_first_skip(subs@, p, j as int);
            assert(subs@.skip(j as int).len() == 0);
        }
        i = i + 1;
    }
    proof {
        lemma_find_subnet_skip(vpcs@, id@, i as int);
        assert(vpcs@.skip(i as int).len() == 0);
    }
    None
}

// ---------------------------------------------------------------------------
// generate_all
// ---------------------------------------------------------------------------

/// A generated `.tf` file: its name in the output directory and its content.
pub struct TfFile {
    pub filename: String,
    pub content: String,
}

/// Whether a text is blank: every character is white space (what
/// `str::trim` leaves empty).
pub open spec fn blank(s: Seq<char>) -> bool {
    forall|i: int| 0 <= i < s.len() ==> is_whitespace(#[trigger] s[i])
}

/// Whether `content.trim().is_empty()`: every character is white space.
pub fn is_blank(content: &str) -> (b: bool)
    ensures
        b == blank(content@),
{
    let cs = chars_of(content);
    let mut i: usize = 0;
    while i < cs.len()
        invariant
            i <= cs.len(),
            cs@ == content@,
            forall|j: int| 0 <= j < i ==> is_whitespace(#[trigger] cs@[j]),
        decreases cs.len() - i,
    {
        if !char_is_whitespace(cs[i]) {
            return false;
        }
        i = i + 1;
    }
    true
}

/// The file `name` with `content`, unless the content is blank.
pub open spec fn file_if(name: Seq<char>, content: Seq<char>) -> Seq<(Seq<char>, Seq<char>)> {
    if blank(content) {
        Seq::empty()
    } else {
        seq![(name, content)]
    }
}

/// The files that `generate_all` produces, as (name, content) pairs.
pub open spec fn all_files(resources: Resources) -> Seq<(Seq<char>, Seq<char>)> {
    file_if("ec2_instances.tf"@, ec2::instances_text(resources.instances@)) + file_if(
        "security_groups.tf"@,
        sg::security_groups_text(resources.security_groups@),
    ) + file_if("vpc.tf"@, vpc::vpcs_text(resources.vpcs@)) + file_if(
        "iam_roles.tf"@,
        iam::roles_text(resources.roles@),
    )
}

/// The (name, content) pairs of a list of files.
pub open spec fn files_view(files: Seq<TfFile>) -> Seq<(Seq<char>, Seq<char>)> {
    files.map_values(|f: TfFile| (f.filename@, f.content@))
}

fn push_if(files: &mut Vec<TfFile>, filename: &str, content: String)
    ensures
        files_view(final(files)@) =~= files_view(old(files)@) + file_if(filename@, content@),
{
    if !is_blank(content.as_str()) {
        files.push(TfFile { filename: String::from_str(filename), content });
    }
}

/// Generate all .tf files from scanned resources.
///
/// The instances file (shared layout), the security groups file, the VPC file
/// (each VPC followed by its subnets) and the IAM roles file, in that order;
/// a file whose content would be blank is left out. Writing them to the
/// output directory is the caller's part. Each instance id must have a short
/// id (see `short_id_defined`), and each resource must be well formed (no tag
/// key twice).
pub fn generate_all(resources: &Resources) -> (files: Vec<TfFile>)
    requires
        forall|k: int|
            0 <= k < resources.instances@.len() ==> short_id_defined(
                #[trigger] resources.instances@[k].id@,
            ),
        forall|k: int|
            0 <= k < resources.instances@.len() ==> (#[trigger] resources.instances@[k]).well_formed(),
        forall|k: int|
            0 <= k < resources.security_groups@.len() ==> (
            #[trigger] resources.security_groups@[k]).well_formed(),
        forall|k: int| 0 <= k < resources.vpcs@.len() ==> (#[trigger] resources.vpcs@[k]).well_formed(),
    ensures
        files_view(files@) == all_files(*resources),
{
    let mut instances_tf = String::new();
    let mut sg_tf = String::new();
    let mut vpc_tf = String::new();
    let mut iam_tf = String::new();
    ec2::generate(resources.instances.as_slice(), &mut instances_tf);
    sg::generate(resources.security_groups.as_slice(), &mut sg_tf);
    vpc::generate(resources.vpcs.as_slice(), &mut vpc_tf);
    iam::generate(resources.roles.as_slice(), &mut iam_tf);
    assert(instances_tf@ =~= ec2::instances_text(resources.instances@));
    assert(sg_tf@ =~= sg::security_groups_text(resources.security_groups@));
    assert(vpc_tf@ =~= vpc::vpcs_text(resources.vpcs@));
    assert(iam_tf@ =~= iam::roles_text(resources.roles@));
    let mut files: Vec<TfFile> = Vec::new();
    assert(files_view(files@) =~= Seq::empty());
    push_if(&mut files, "ec2_instances.tf", instances_tf);
    push_if(&mut files, "security_groups.tf", sg_tf);
    push_if(&mut files, "vpc.tf", vpc_tf);
    push_if(&mut files, "iam_roles.tf", iam_tf);
    files
}


// ---------------------------------------------------------------------------
// Laws of the naming rules
// ---------------------------------------------------------------------------

/// Normalising a concatenation normalises each part.
pub proof fn lemma_normalize_append(a: Seq<char>, b: Seq<char>)
    ensures
        normalize(a + b) == normalize(a) + normalize(b),
    decreases b.len(),
{
    if b.len() == 0 {
        assert(a + b =~= a);
        assert(normalize(a) + normalize(b) =~= normalize(a));
    } else {
        assert((a + b).drop_last() =~= a + b.drop_last());
        assert((a + b).last() == b.last());
        lemma_normalize_append(a, b.drop_last());
        assert(normalize(a) + normalize(b.drop_last()) + name_char(b.last()) =~= normalize(a) + (
        normalize(b.drop_last()) + name_char(b.last())));
    }
}

/// Normalisation keeps the length and the position of every character of a
/// name made of separators and characters that may stand in a Terraform
/// name: each separator becomes `_`, every other character stays.
pub proof fn lemma_normalize_shape(s: Seq<char>)
    requires
        forall|i: int| 0 <= i < s.len() ==> is_separator(#[trigger] s[i]) || name_safe(s[i]),
    ensures
        normalize(s).len() == s.len(),
        forall|i: int|
            0 <= i < s.len() ==> #[trigger] normalize(s)[i] == (if is_separator(s[i]) {
                '_'
            } else {
                s[i]
            }),
    decreases s.len(),
{
    if s.len() > 0 {
        let d = s.drop_last();
        assert forall|i: int| 0 <= i < d.len() implies is_separator(#[trigger] d[i]) || name_safe(
            d[i],
        ) by {
            assert(d[i] == s[i]);
        }
        lemma_normalize_shape(d);
        assert forall|i: int| 0 <= i < s.len() implies #[trigger] normalize(s)[i] == (
        if is_separator(s[i]) {
            '_'
        } else {
            s[i]
        }) by {
            if i < d.len() {
                assert(normalize(s)[i] == normalize(d)[i]);
                assert(d[i] == s[i]);
            }
        }
    }
}

/// Normalisation drops a character that is neither a separator, nor
/// alphanumeric, nor `_`, wherever it stands.
pub proof fn lemma_normalize_drops(a: Seq<char>, c: char, b: Seq<char>)
    requires
        !is_separator(c),
        !is_alphanumeric(c),
        c != '_',
    ensures
        normalize(a.push(c) + b) == normalize(a + b),
{
    lemma_normalize_append(a.push(c), b);
    lemma_normalize_append(a, b);
    assert(a.push(c).drop_last() =~= a);
    assert(normalize(a.push(c)) =~= normalize(a));
}

/// A tag line is empty for an empty value and, where `Name` is skipped, for
/// the `Name` tag; any other tag line carries the key, quoted where HCL needs
/// it, and the value in quotes.
pub proof fn lemma_tag_line(tag: (String, String), skip_name: bool)
    ensures
        (tag.1@.len() == 0 || (skip_name && tag.0@ == "Name"@)) ==> tag_line(tag, skip_name).len()
            == 0,
        !(tag.1@.len() == 0 || (skip_name && tag.0@ == "Name"@)) ==> holds(
            tag_line(tag, skip_name),
            quote_tag_key_text(tag.0@),
        ),
        !(tag.1@.len() == 0 || (skip_name && tag.0@ == "Name"@)) ==> holds(
            tag_line(tag, skip_name),
            " = \""@ + tag.1@ + "\"\n"@,
        ),
{
    if !(tag.1@.len() == 0 || (skip_name && tag.0@ == "Name"@)) {
        let a = "    "@;
        let q = quote_tag_key_text(tag.0@);
        let v = " = \""@ + tag.1@ + "\"\n"@;
        assert(tag_line(tag, skip_name) =~= a + q + v);
        lemma_holds_mid(a, q, v);
        lemma_holds_suffix(a + q, v);
    }
}

/// A tag key is put in double quotes exactly when it is empty, begins with an
/// ASCII digit, or holds a character that is neither alphanumeric nor `_`;
/// otherwise it is written as it is.
pub proof fn lemma_quote_tag_key(key: Seq<char>)
    ensures
        (key.len() == 0 || is_ascii_digit(key[0]) || exists|i: int|
            0 <= i < key.len() && !(is_alphanumeric(#[trigger] key[i]) || key[i] == '_'))
            ==> quote_tag_key_text(key) == "\""@ + key + "\""@,
        !(key.len() == 0 || is_ascii_digit(key[0]) || exists|i: int|
            0 <= i < key.len() && !(is_alphanumeric(#[trigger] key[i]) || key[i] == '_'))
            ==> quote_tag_key_text(key) == key,
{
    if exists|i: int| 0 <= i < key.len() && !(is_alphanumeric(#[trigger] key[i]) || key[i] == '_') {
        let i = choose|i: int| 0 <= i < key.len() && !(is_alphanumeric(#[trigger] key[i]) || key[i] == '_');
        assert(!key_char(key[i]));
    }
}

/// Removing hyphens keeps every other character, in order.
pub proof fn lemma_strip_hyphens_filter(s: Seq<char>)
    ensures
        strip_hyphens(s) == s.filter(|c: char| c != '-'),
    decreases s.len(),
{
    reveal(Seq::filter);
    if s.len() > 0 {
        lemma_strip_hyphens_filter(s.drop_last());
    }
}

/// A short id is the whole hyphen-free id when that takes at most ten bytes,
/// and otherwise, where it is defined, a prefix of it of exactly ten bytes.
pub proof fn lemma_short_id_length(id: Seq<char>)
    ensures
        byte_len(strip_hyphens(id)) <= 10 ==> short_id_text(id) == strip_hyphens(id),
        byte_len(strip_hyphens(id)) > 10 && short_id_defined(id) ==> byte_len(short_id_text(id))
            == 10,
        is_prefix(short_id_text(id), strip_hyphens(id)),
{
    lemma_short_id_text(id);
}


/// The tag lines hold the line of each tag.
pub proof fn lemma_tag_lines(tags: Seq<(String, String)>, skip_name: bool)
    ensures
        forall|i: int|
            0 <= i < tags.len() ==> holds(tag_lines(tags, skip_name), tag_line(#[trigger] tags[i], skip_name)),
{
    assert forall|i: int| 0 <= i < tags.len() implies holds(
        tag_lines(tags, skip_name),
        tag_line(#[trigger] tags[i], skip_name),
    ) by {
        lemma_holds_concat_map(tags, |t: (String, String)| tag_line(t, skip_name), i);
    }
}

/// The files to write are the four resource files, in the order instances,
/// security groups, VPCs, IAM roles: each exactly when its text is not blank,
/// each with that text.
pub proof fn lemma_all_files(resources: Resources)
    ensures
        all_files(resources).len() <= 4,
        forall|k: int|
            0 <= k < all_files(resources).len() ==> !blank((#[trigger] all_files(resources)[k]).1),
        !blank(ec2::instances_text(resources.instances@)) <==> all_files(resources).contains(
            ("ec2_instances.tf"@, ec2::instances_text(resources.instances@)),
        ),
        !blank(sg::security_groups_text(resources.security_groups@)) <==> all_files(
            resources,
        ).contains(("security_groups.tf"@, sg::security_groups_text(resources.security_groups@))),
        !blank(vpc::vpcs_text(resources.vpcs@)) <==> all_files(resources).contains(
            ("vpc.tf"@, vpc::vpcs_text(resources.vpcs@)),
        ),
        !blank(iam::roles_text(resources.roles@)) <==> all_files(resources).contains(
            ("iam_roles.tf"@, iam::roles_text(resources.roles@)),
        ),
{
    reveal_strlit("ec2_instances.tf");
    reveal_strlit("security_groups.tf");
    reveal_strlit("vpc.tf");
    reveal_strlit("iam_roles.tf");
    let a = file_if("ec2_instances.tf"@, ec2::instances_text(resources.instances@));
    let b = file_if("security_groups.tf"@, sg::security_groups_text(resources.security_groups@));
    let c = file_if("vpc.tf"@, vpc::vpcs_text(resources.vpcs@));
    let d = file_if("iam_roles.tf"@, iam::roles_text(resources.roles@));
    let all = all_files(resources);
    assert(all == a + b + c + d);
    assert forall|x: (Seq<char>, Seq<char>)| #[trigger] all.contains(x) <==> (a.contains(x) || b.contains(x)
        || c.contains(x) || d.contains(x)) by {
        if all.contains(x) {
            let k = choose|k: int| 0 <= k < all.len() && all[k] == x;
            if k < a.len() {
                assert(a[k] == x);
            } else if k < a.len() + b.len() {
                assert(b[k - a.len()] == x);
            } else if k < a.len() + b.len() + c.len() {
                assert(c[k - a.len() - b.len()] == x);
            } else {
                assert(d[k - a.len() - b.len() - c.len()] == x);
            }
        }
        if a.contains(x) {
            let k = choose|k: int| 0 <= k < a.len() && a[k] == x;
            assert(all[k] == x);
        }
        if b.contains(x) {
            let k = choose|k: int| 0 <= k < b.len() && b[k] == x;
            assert(all[a.len() + k] == x);
        }
        if c.contains(x) {
            let k = choose|k: int| 0 <= k < c.len() && c[k] == x;
            assert(all[a.len() + b.len() + k] == x);
        }
        if d.contains(x) {
            let k = choose|k: int| 0 <= k < d.len() && d[k] == x;
            assert(all[a.len() + b.len() + c.len() + k] == x);
        }
    }
    if !blank(ec2::instances_text(resources.instances@)) {
        assert(a[0] == ("ec2_instances.tf"@, ec2::instances_text(resources.instances@)));
    }
    if !blank(sg::security_groups_text(resources.security_groups@)) {
        assert(b[0] == ("security_groups.tf"@, sg::security_groups_text(resources.security_groups@)));
    }
    if !blank(vpc::vpcs_text(resources.vpcs@)) {
        assert(c[0] == ("vpc.tf"@, vpc::vpcs_text(resources.vpcs@)));
    }
    if !blank(iam::roles_text(resources.roles@)) {
        assert(d[0] == ("iam_roles.tf"@, iam::roles_text(resources.roles@)));
    }
    assert forall|k: int| 0 <= k < all.len() implies !blank((#[trigger] all[k]).1) by {
        if k < a.len() {
            assert(all[k] == a[k]);
        } else if k < a.len() + b.len() {
            assert(all[k] == b[k - a.len()]);
        } else if k < a.len() + b.len() + c.len() {
            assert(all[k] == c[k - a.len() - b.len()]);
        } else {
            assert(all[k] == d[k - a.len() - b.len() - c.len()]);
        }
    }
}


/// The formats of block headers and import lines: a block header is
/// `resource "<type>" "<name>" {`; an import line is
/// `terraform import <type>.<name> <id>`.
pub proof fn lemma_formats(t: Seq<char>, n: Seq<char>, id: Seq<char>)
    ensures
        resource_header(t, n) == "resource "@ + ("\""@ + t + "\""@) + " "@ + ("\""@ + n + "\""@)
            + " {\n"@,
        import_line(t, n, id) == "terraform import "@ + (t + "."@ + n) + " "@ + id + "\n"@,
{
    reveal_strlit("resource \"");
    reveal_strlit("\" \"");
    reveal_strlit("\" {\n");
    reveal_strlit("resource ");
    reveal_strlit("\"");
    reveal_strlit(" ");
    reveal_strlit(" {\n");
    assert(resource_header(t, n) =~= "resource "@ + ("\""@ + t + "\""@) + " "@ + ("\""@ + n + "\""@)
        + " {\n"@);
    assert(import_line(t, n, id) =~= "terraform import "@ + (t + "."@ + n) + " "@ + id + "\n"@);
}

/// A unique name is the Terraform name, then `_`, then the short id.
pub proof fn lemma_unique_name_parts(readable: Seq<char>, resource_id: Seq<char>)
    ensures
        is_prefix(tf_name_text(readable), tf_unique_name_text(readable, resource_id)),
        tf_unique_name_text(readable, resource_id)[tf_name_text(readable).len() as int] == '_',
        tf_unique_name_text(readable, resource_id).skip(tf_name_text(readable).len() + 1int)
            == short_id_text(resource_id),
        tf_unique_name_text(readable, resource_id).len() == tf_name_text(readable).len() + 1
            + short_id_text(resource_id).len(),
{
    reveal_strlit("_");
    let b = tf_name_text(readable);
    let u = tf_unique_name_text(readable, resource_id);
    assert(u.take(b.len() as int) =~= b);
    assert(u.skip(b.len() + 1int) =~= short_id_text(resource_id));
}


/// The group found for an id is the first group with that id; there is none
/// when no group has it.
pub proof fn lemma_find_sg(sgs: Seq<SecurityGroup>, id: Seq<char>, i: int)
    ensures
        0 <= i < sgs.len() && sgs[i].id@ == id && (forall|j: int|
            0 <= j < i ==> (#[trigger] sgs[j]).id@ != id) ==> find_sg(sgs, id) == Some(sgs[i]),
        (forall|j: int| 0 <= j < sgs.len() ==> (#[trigger] sgs[j]).id@ != id) ==> find_sg(
            sgs,
            id,
        ) is None,
{
    let p = sg_has_id(id);
    if 0 <= i < sgs.len() && sgs[i].id@ == id && (forall|j: int|
        0 <= j < i ==> (#[trigger] sgs[j]).id@ != id) {
        assert forall|j: int| 0 <= j < i implies !p(#[trigger] sgs[j]) by {}
        lemma_find_first_skip(sgs, p, i);
        assert(sgs.skip(i)[0] == sgs[i]);
    }
    if forall|j: int| 0 <= j < sgs.len() ==> (#[trigger] sgs[j]).id@ != id {
        lemma_find_first_found(sgs, p);
        if find_first(sgs, p) is Some {
            let x = find_first(sgs, p)->0;
            assert(p(x) && sgs.contains(x));
            let m = choose|m: int| 0 <= m < sgs.len() && sgs[m] == x;
            assert(sgs[m].id@ != id);
        }
    }
}

/// The subnet found for an id is the first subnet with that id, taking the
/// VPCs in order and the subnets of each in order, together with its VPC;
/// there is none when no subnet has it.
pub proof fn lemma_find_subnet_first(vpcs: Seq<VpcInfo>, id: Seq<char>, a: int, b: int)
    ensures
        0 <= a < vpcs.len() && 0 <= b < vpcs[a].subnets@.len() && vpcs[a].subnets@[b].id@ == id
            && (forall|a2: int, b2: int|
            0 <= a2 < a && 0 <= b2 < vpcs[a2].subnets@.len() ==> (
            #[trigger] vpcs[a2].subnets@[b2]).id@ != id) && (forall|b2: int|
            0 <= b2 < b ==> (#[trigger] vpcs[a].subnets@[b2]).id@ != id) ==> find_subnet(vpcs, id)
            == Some((vpcs[a], vpcs[a].subnets@[b])),
        (forall|a2: int, b2: int|
            0 <= a2 < vpcs.len() && 0 <= b2 < vpcs[a2].subnets@.len() ==> (
            #[trigger] vpcs[a2].subnets@[b2]).id@ != id) ==> find_subnet(vpcs, id) is None,
    decreases vpcs.len(),
{
    let p = subnet_has_id(id);
    if vpcs.len() > 0 {
        let rest = vpcs.drop_first();
        let subs0 = vpcs[0].subnets@;
        lemma_find_first_found(subs0, p);
        if 0 <= a < vpcs.len() && 0 <= b < vpcs[a].subnets@.len() && vpcs[a].subnets@[b].id@ == id
            && (forall|a2: int, b2: int|
            0 <= a2 < a && 0 <= b2 < vpcs[a2].subnets@.len() ==> (
            #[trigger] vpcs[a2].subnets@[b2]).id@ != id) && (forall|b2: int|
            0 <= b2 < b ==> (#[trigger] vpcs[a].subnets@[b2]).id@ != id) {
            if a == 0 {
                assert forall|j: int| 0 <= j < b implies !p(#[trigger] subs0[j]) by {
                    assert(vpcs[0].subnets@[j].id@ != id);
                }
                lemma_find_first_skip(subs0, p, b);
                assert(subs0.skip(b)[0] == subs0[b]);
            } else {
                if find_first(subs0, p) is Some {
                    let x = find_first(subs0, p)->0;
                    let m = choose|m: int| 0 <= m < subs0.len() && subs0[m] == x;
                    assert(vpcs[0].subnets@[m].id@ != id);
                }
                assert(rest[a - 1] == vpcs[a]);
                assert forall|a2: int, b2: int|
                    0 <= a2 < a - 1 && 0 <= b2 < rest[a2].subnets@.len() implies (
                    #[trigger] rest[a2].subnets@[b2]).id@ != id by {
                    assert(rest[a2] == vpcs[a2 + 1]);
                    assert(vpcs[a2 + 1].subnets@[b2].id@ != id);
                }
                lemma_find_subnet_first(rest, id, a - 1, b);
            }
        }
        if forall|a2: int, b2: int|
            0 <= a2 < vpcs.len() && 0 <= b2 < vpcs[a2].subnets@.len() ==> (
            #[trigger] vpcs[a2].subnets@[b2]).id@ != id {
            if find_first(subs0, p) is Some {
                let x = find_first(subs0, p)->0;
                let m = choose|m: int| 0 <= m < subs0.len() && subs0[m] == x;
                assert(vpcs[0].subnets@[m].id@ != id);
            }
            assert forall|a2: int, b2: int|
                0 <= a2 < rest.len() && 0 <= b2 < rest[a2].subnets@.len() implies (
                #[trigger] rest[a2].subnets@[b2]).id@ != id by {
                assert(rest[a2] == vpcs[a2 + 1]);
                assert(vpcs[a2 + 1].subnets@[b2].id@ != id);
            }
            lemma_find_subnet_first(rest, id, a - 1, b);
        }
    }
}

} // verus!
