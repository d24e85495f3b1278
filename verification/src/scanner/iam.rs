//! IAM roles and their policies.

use vstd::prelude::*;
use super::{
    first_keys, keys_distinct, or_text, present, present_strings, string_or, tag_keys, tag_map,
    tags_from_raw, tags_view, views, RawTag,
};

verus! {

/// An IAM role. `tags` holds each tag key once, in no particular order.
#[derive(Debug, Clone)]
pub struct IamRole {
    pub name: String,
    pub assume_role_policy: String,
    pub managed_policies: Vec<String>,
    pub inline_policies: Vec<InlinePolicy>,
    pub tags: Vec<(String, String)>,
}

impl IamRole {
    /// The invariant of a role: no tag key occurs twice, as in the tag map
    /// that it stands for. Every constructor of the scanner establishes it.
    pub open spec fn well_formed(&self) -> bool {
        keys_distinct(self.tags@)
    }
}

/// An inline policy of a role.
#[derive(Debug, Clone)]
pub struct InlinePolicy {
    pub name: String,
    pub document: String,
}

/// The inline policies whose documents could be read, as (name, document)
/// pairs, in order.
pub open spec fn fetched(pols: Seq<(String, Option<String>)>) -> Seq<(Seq<char>, Seq<char>)>
    decreases pols.len(),
{
    if pols.len() == 0 {
        Seq::empty()
    } else {
        match pols.last().1 {
            Some(d) => fetched(pols.drop_last()).push((pols.last().0@, d@)),
            None => fetched(pols.drop_last()),
        }
    }
}

/// The (name, document) pairs of a list of inline policies.
pub open spec fn policies_view(pols: Seq<InlinePolicy>) -> Seq<(Seq<char>, Seq<char>)> {
    pols.map_values(|p: InlinePolicy| (p.name@, p.document@))
}

/// How a role is assembled from what was read about it: the trust policy is
/// `{}` where it could not be read; the managed policies are the ARNs present
/// in the attached-policies answer (none where that could not be read); the
/// inline policies are those whose documents could be read.
pub open spec fn role_matches(
    role: IamRole,
    role_name: Seq<char>,
    assume_role_policy: Option<String>,
    attached_policy_arns: Option<Vec<Option<String>>>,
    inline_policies: Seq<(String, Option<String>)>,
    tags: Seq<RawTag>,
) -> bool {
    &&& role.name@ == role_name
    &&& role.assume_role_policy@ == or_text(assume_role_policy, "{}"@)
    &&& views(role.managed_policies@) == match attached_policy_arns {
        Some(v) => present(v@),
        None => Seq::empty(),
    }
    &&& policies_view(role.inline_policies@) == fetched(inline_policies)
    &&& role.well_formed()
    &&& tags_view(role.tags@) == tag_map(tags)
    &&& tag_keys(role.tags@) == first_keys(tags)
}

/// Assemble a role from what was read about it (see `role_matches`):
/// `assume_role_policy` is its trust policy document, if it could be read;
/// `attached_policy_arns` the ARNs of its attached policies, if they could be
/// listed; `inline_policies` each inline policy name with its document, if it
/// could be read.
pub fn role_from_parts(
    role_name: &str,
    assume_role_policy: &Option<String>,
    attached_policy_arns: &Option<Vec<Option<String>>>,
    inline_policies: &Vec<(String, Option<String>)>,
    tags: &Vec<RawTag>,
) -> (role: IamRole)
    ensures
        role_matches(
            role,
            role_name@,
            *assume_role_policy,
            *attached_policy_arns,
            inline_policies@,
            tags@,
        ),
{
    let managed = match attached_policy_arns {
        Some(v) => present_strings(v),
        None => {
            let r: Vec<String> = Vec::new();
            assert(views(r@) =~= Seq::empty());
            r
        },
    };
    let mut pols: Vec<InlinePolicy> = Vec::new();
    let mut i: usize = 0;
    while i < inline_policies.len()
        invariant
            i <= inline_policies.len(),
            policies_view(pols@) == fetched(inline_policies@.take(i as int)),
        decreases inline_policies.len() - i,
    {
        assert(inline_policies@.take(i + 1).drop_last() =~= inline_policies@.take(i as int));
        assert(inline_policies@.take(i + 1).last() == inline_policies@[i as int]);
        if let Some(d) = &inline_policies[i].1 {
            let ghost prev = pols@;
            pols.push(
                InlinePolicy {
                    name: String::from_str(inline_policies[i].0.as_str()),
                    document: String::from_str(d.as_str()),
                },
            );
            assert(policies_view(pols@) =~= policies_view(prev).push(
                (inline_policies@[i as int].0@, d@),
            ));
        }
        i = i + 1;
    }
    assert(inline_policies@.take(inline_policies.len() as int) =~= inline_policies@);
    IamRole {
        name: String::from_str(role_name),
        assume_role_policy: string_or(assume_role_policy, "{}"),
        managed_policies: managed,
        inline_policies: pols,
        tags: tags_from_raw(tags),
    }
}


/// A role assembled from what was read carries its name; its trust policy,
/// `{}` where it could not be read; the present ARNs of the attached-policies
/// answer, none where that could not be read; one inline policy per document
/// that could be read, with its name and document, in order; and its tags as
/// their map.
pub proof fn lemma_role_from_parts_fields(
    role: IamRole,
    role_name: Seq<char>,
    assume_role_policy: Option<String>,
    attached_policy_arns: Option<Vec<Option<String>>>,
    inline_policies: Seq<(String, Option<String>)>,
    tags: Seq<RawTag>,
)
    requires
        role_matches(role, role_name, assume_role_policy, attached_policy_arns, inline_policies, tags),
    ensures
        role.name@ == role_name,
        assume_role_policy matches Some(p) ==> role.assume_role_policy@ == p@,
        assume_role_policy is None ==> role.assume_role_policy@ == "{}"@,
        attached_policy_arns matches Some(v) ==> views(role.managed_policies@) == present(v@),
        attached_policy_arns is None ==> role.managed_policies@.len() == 0,
        role.inline_policies@.len() == fetched(inline_policies).len(),
        forall|i: int|
            0 <= i < role.inline_policies@.len() ==> (#[trigger] role.inline_policies@[i]).name@
                == fetched(inline_policies)[i].0 && role.inline_policies@[i].document@ == fetched(
                inline_policies,
            )[i].1,
        tags_view(role.tags@) == tag_map(tags),
        keys_distinct(role.tags@),
{
    assert(role.managed_policies@.len() == views(role.managed_policies@).len());
    assert forall|i: int| 0 <= i < role.inline_policies@.len() implies (
    #[trigger] role.inline_policies@[i]).name@ == fetched(inline_policies)[i].0
        && role.inline_policies@[i].document@ == fetched(inline_policies)[i].1 by {
        assert(policies_view(role.inline_policies@)[i] == (
        role.inline_policies@[i].name@,
        role.inline_policies@[i].document@,
        ));
    }
}

/// The inline policies kept are exactly those whose documents could be read,
/// in order: a readable one is kept with its name and document, an
/// unreadable one is dropped.
pub proof fn lemma_fetched_append(a: Seq<(String, Option<String>)>, b: Seq<(String, Option<String>)>)
    ensures
        fetched(a + b) == fetched(a) + fetched(b),
    decreases b.len(),
{
    if b.len() == 0 {
        assert(a + b =~= a);
        assert(fetched(a) + fetched(b) =~= fetched(a));
    } else {
        assert((a + b).drop_last() =~= a + b.drop_last());
        assert((a + b).last() == b.last());
        lemma_fetched_append(a, b.drop_last());
        match b.last().1 {
            Some(d) => {
                assert(fetched(a) + fetched(b.drop_last()).push((b.last().0@, d@)) =~= (fetched(a)
                    + fetched(b.drop_last())).push((b.last().0@, d@)));
            },
            None => {},
        }
    }
}

} // verus!
