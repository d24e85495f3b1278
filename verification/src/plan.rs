//! Which resource kinds to scan, read from the `--types` option.

use vstd::prelude::*;
use crate::text::{char_is_whitespace, chars_of, is_whitespace, str_eq, string_of_range};

verus! {

/// One step of a scan: a resource kind, or a name that is none of them.
pub enum ScanStep {
    Ec2,
    Sg,
    Vpc,
    Iam,
    Unknown(String),
}

/// `s` without its leading white space.
pub open spec fn trim_start(s: Seq<char>) -> Seq<char>
    decreases s.len(),
{
    if s.len() > 0 && is_whitespace(s[0]) {
        trim_start(s.drop_first())
    } else {
        s
    }
}

/// `s` without its trailing white space.
pub open spec fn trim_end(s: Seq<char>) -> Seq<char>
    decreases s.len(),
{
    if s.len() > 0 && is_whitespace(s.last()) {
        trim_end(s.drop_last())
    } else {
        s
    }
}

/// `s` without leading and trailing white space, as `str::trim` gives it.
pub open spec fn trim(s: Seq<char>) -> Seq<char> {
    trim_end(trim_start(s))
}

/// The pieces of `s` between commas, as `str::split(',')` gives them: one
/// more piece than there are commas.
pub open spec fn split_commas(s: Seq<char>) -> Seq<Seq<char>>
    decreases s.len(),
{
    if s.len() == 0 {
        seq![Seq::empty()]
    } else {
        let p = split_commas(s.drop_last());
        if s.last() == ',' {
            p.push(Seq::empty())
        } else {
            p.update(p.len() - 1, p.last().push(s.last()))
        }
    }
}

/// Whether `step` is what the (trimmed) type name `name` asks for.
pub open spec fn step_matches(step: ScanStep, name: Seq<char>) -> bool {
    match step {
        ScanStep::Ec2 => name == "ec2"@,
        ScanStep::Sg => name == "sg"@,
        ScanStep::Vpc => name == "vpc"@,
        ScanStep::Iam => name == "iam"@,
        ScanStep::Unknown(s) => s@ == name && name != "ec2"@ && name != "sg"@ && name != "vpc"@
            && name != "iam"@,
    }
}

proof fn lemma_split_nonempty(s: Seq<char>)
    ensures
        split_commas(s).len() > 0,
    decreases s.len(),
{
    if s.len() > 0 {
        lemma_split_nonempty(s.drop_last());
    }
}

proof fn lemma_trim_start_skip(s: Seq<char>, k: int)
    requires
        0 <= k <= s.len(),
        forall|j: int| 0 <= j < k ==> is_whitespace(#[trigger] s[j]),
        k == s.len() || !is_whitespace(s[k]),
    ensures
        trim_start(s) =~= s.skip(k),
    decreases k,
{
    if k == 0 {
        assert(s.skip(0) =~= s);
    } else {
        assert(s.drop_first().skip(k - 1) =~= s.skip(k));
        lemma_trim_start_skip(s.drop_first(), k - 1);
    }
}

proof fn lemma_trim_end_take(s: Seq<char>, k: int)
    requires
        0 <= k <= s.len(),
        forall|j: int| k <= j < s.len() ==> is_whitespace(#[trigger] s[j]),
        k == 0 || !is_whitespace(s[k - 1]),
    ensures
        trim_end(s) =~= s.take(k),
    decreases s.len() - k,
{
    if k == s.len() {
        assert(s.take(k) =~= s);
    } else {
        assert(s.drop_last().take(k) =~= s.take(k));
        lemma_trim_end_take(s.drop_last(), k);
    }
}

/// The characters `v[start..end]` without leading and trailing white space.
fn trim_range(v: &Vec<char>, start: usize, end: usize) -> (r: String)
    requires
        start <= end <= v.len(),
    ensures
        r@ == trim(v@.subrange(start as int, end as int)),
{
    let ghost s = v@.subrange(start as int, end as int);
    let mut a: usize = start;
    while a < end && char_is_whitespace(v[a])
        invariant
            start <= a <= end <= v.len(),
            forall|j: int| start <= j < a ==> is_whitespace(#[trigger] v@[j]),
        decreases end - a,
    {
        a = a + 1;
    }
    proof {
        assert forall|j: int| 0 <= j < a - start implies is_whitespace(#[trigger] s[j]) by {
            assert(s[j] == v@[start + j]);
        }
        lemma_trim_start_skip(s, a - start);
    }
    let ghost t = s.skip(a - start);
    let mut b: usize = end;
    while b > a && char_is_whitespace(v[b - 1])
        invariant
            start <= a <= b <= end <= v.len(),
            forall|j: int| b <= j < end ==> is_whitespace(#[trigger] v@[j]),
        decreases b - a,
    {
        b = b - 1;
    }
    proof {
        assert(t =~= v@.subrange(a as int, end as int));
        assert forall|j: int| b - a <= j < t.len() implies is_whitespace(#[trigger] t[j]) by {
            assert(t[j] == v@[a + j]);
        }
        lemma_trim_end_take(t, b - a);
        assert(t.take(b - a) =~= v@.subrange(a as int, b as int));
    }
    string_of_range(v, a, b)
}

fn step_for(name: String) -> (step: ScanStep)
    ensures
        step_matches(step, name@),
{
    if str_eq(name.as_str(), "ec2") {
        ScanStep::Ec2
    } else if str_eq(name.as_str(), "sg") {
        ScanStep::Sg
    } else if str_eq(name.as_str(), "vpc") {
        ScanStep::Vpc
    } else if str_eq(name.as_str(), "iam") {
        ScanStep::Iam
    } else {
        ScanStep::Unknown(name)
    }
}

/// The scan steps that a `--types` value asks for: all four kinds, in the
/// order ec2, sg, vpc, iam, for `all`; otherwise one step per comma-separated
/// (trimmed) name, in order, where a name that is no kind gives `Unknown`.
pub fn plan_scan(types: &str) -> (steps: Vec<ScanStep>)
    ensures
        types@ == "all"@ ==> steps@.len() == 4 && steps@[0] is Ec2 && steps@[1] is Sg
            && steps@[2] is Vpc && steps@[3] is Iam,
        types@ != "all"@ ==> steps@.len() == split_commas(types@).len() && forall|i: int|
            0 <= i < steps@.len() ==> step_matches(#[trigger] steps@[i], trim(split_commas(types@)[i])),
{
    if str_eq(types, "all") {
        let mut steps: Vec<ScanStep> = Vec::new();
        steps.push(ScanStep::Ec2);
        steps.push(ScanStep::Sg);
        steps.push(ScanStep::Vpc);
        steps.push(ScanStep::Iam);
        return steps;
    }
    let cs = chars_of(types);
    let mut steps: Vec<ScanStep> = Vec::new();
    let mut start: usize = 0;
    let mut i: usize = 0;
    while i < cs.len()
        invariant
            start <= i <= cs.len(),
            cs@ == types@,
            steps@.len() + 1 == split_commas(cs@.take(i as int)).len(),
            split_commas(cs@.take(i as int)).last() == cs@.subrange(start as int, i as int),
            forall|k: int|
                0 <= k < steps@.len() ==> step_matches(
                    #[trigger] steps@[k],
                    trim(split_commas(cs@.take(i as int))[k]),
                ),
        decreases cs.len() - i,
    {
        proof {
            lemma_split_nonempty(cs@.take(i as int));
            assert(cs@.take(i + 1).drop_last() =~= cs@.take(i as int));
            assert(cs@.take(i + 1).last() == cs@[i as int]);
        }
        if cs[i] == ',' {
            let name = trim_range(&cs, start, i);
            steps.push(step_for(name));
            start = i + 1;
            assert(cs@.subrange(start as int, i + 1) =~= Seq::<char>::empty());
        } else {
            assert(cs@.subrange(start as int, i + 1) =~= cs@.subrange(start as int, i as int).push(
                cs@[i as int],
            ));
        }
        i = i + 1;
    }
    proof {
        assert(cs@.take(cs.len() as int) =~= cs@);
        lemma_split_nonempty(cs@);
    }
    let name = trim_range(&cs, start, cs.len());
    steps.push(step_for(name));
    steps
}


/// The pieces of a list joined back with commas between them.
pub open spec fn join_commas(ps: Seq<Seq<char>>) -> Seq<char>
    decreases ps.len(),
{
    if ps.len() <= 1 {
        if ps.len() == 0 {
            Seq::empty()
        } else {
            ps[0]
        }
    } else {
        join_commas(ps.drop_last()) + seq![','] + ps.last()
    }
}

/// Splitting at commas cuts the text into pieces that hold no comma and that,
/// joined back with commas, give the text.
pub proof fn lemma_split_commas(s: Seq<char>)
    ensures
        join_commas(split_commas(s)) == s,
        forall|i: int|
            0 <= i < split_commas(s).len() ==> !(#[trigger] split_commas(s)[i]).contains(','),
    decreases s.len(),
{
    if s.len() == 0 {
        assert(split_commas(s) =~= seq![Seq::<char>::empty()]);
        assert(join_commas(seq![Seq::<char>::empty()]) == Seq::<char>::empty());
        assert(s =~= Seq::<char>::empty());
    } else {
        let d = s.drop_last();
        let c = s.last();
        lemma_split_commas(d);
        lemma_split_nonempty(d);
        let p = split_commas(d);
        if c == ',' {
            let q = p.push(Seq::<char>::empty());
            assert(q.drop_last() =~= p);
            assert(join_commas(q) =~= join_commas(p) + seq![','] + Seq::<char>::empty());
            assert(d.push(',') =~= s);
            assert forall|i: int| 0 <= i < q.len() implies !(#[trigger] q[i]).contains(',') by {
                if i < p.len() {
                    assert(q[i] == p[i]);
                }
            }
        } else {
            let q = p.update(p.len() - 1, p.last().push(c));
            if p.len() == 1 {
                assert(join_commas(q) == q[0]);
                assert(join_commas(p) == p[0]);
            } else {
                assert(q.drop_last() =~= p.drop_last());
                assert(join_commas(q) == join_commas(p.drop_last()) + seq![','] + p.last().push(c));
            }
            assert(d.push(c) =~= s);
            assert forall|i: int| 0 <= i < q.len() implies !(#[trigger] q[i]).contains(',') by {
                if i < p.len() - 1 {
                    assert(q[i] == p[i]);
                } else {
                    assert(!p[i].contains(','));
                    if q[i].contains(',') {
                        let m = choose|m: int| 0 <= m < q[i].len() && q[i][m] == ',';
                        assert(m < p[i].len());
                        assert(p[i][m] == ',');
                    }
                }
            }
        }
    }
}

/// Trimming the start drops exactly the leading white space: what is left is
/// a suffix of the text, everything dropped is white space, and what is left
/// does not begin with white space.
pub proof fn lemma_trim_start(s: Seq<char>)
    ensures
        trim_start(s).len() <= s.len(),
        trim_start(s) == s.skip(s.len() - trim_start(s).len()),
        forall|j: int| 0 <= j < s.len() - trim_start(s).len() ==> is_whitespace(#[trigger] s[j]),
        trim_start(s).len() > 0 ==> !is_whitespace(trim_start(s)[0]),
    decreases s.len(),
{
    if s.len() > 0 && is_whitespace(s[0]) {
        let d = s.drop_first();
        lemma_trim_start(d);
        assert(trim_start(s) == trim_start(d));
        let k = d.len() - trim_start(d).len();
        assert forall|j: int| 0 <= j < trim_start(d).len() implies d.skip(k)[j] == s.skip(k + 1)[j] by {
            assert(d.skip(k)[j] == d[k + j]);
            assert(d[k + j] == s[k + j + 1]);
        }
        assert(d.skip(k) =~= s.skip(k + 1));
        assert forall|j: int| 0 <= j < s.len() - trim_start(s).len() implies is_whitespace(
            #[trigger] s[j],
        ) by {
            if j > 0 {
                assert(s[j] == d[j - 1]);
            }
        }
    } else {
        assert(s.skip(0) =~= s);
    }
}

/// Trimming the end drops exactly the trailing white space: what is left is
/// a prefix of the text, everything dropped is white space, and what is left
/// does not end with white space.
pub proof fn lemma_trim_end(s: Seq<char>)
    ensures
        trim_end(s).len() <= s.len(),
        trim_end(s) == s.take(trim_end(s).len() as int),
        forall|j: int| trim_end(s).len() <= j < s.len() ==> is_whitespace(#[trigger] s[j]),
        trim_end(s).len() > 0 ==> !is_whitespace(trim_end(s).last()),
    decreases s.len(),
{
    if s.len() > 0 && is_whitespace(s.last()) {
        let d = s.drop_last();
        lemma_trim_end(d);
        assert(trim_end(s) == trim_end(d));
        assert(d.take(trim_end(d).len() as int) =~= s.take(trim_end(s).len() as int));
        assert forall|j: int| trim_end(s).len() <= j < s.len() implies is_whitespace(
            #[trigger] s[j],
        ) by {
            if j < s.len() - 1 {
                assert(s[j] == d[j]);
            }
        }
    } else {
        assert(s.take(s.len() as int) =~= s);
    }
}

} // verus!
