//! IAM role blocks with their policy attachments and inline policies.

use vstd::prelude::*;
use crate::scanner::iam::{IamRole, InlinePolicy};
use crate::seqs::{
    concat_map, holds, lemma_concat_map_all, lemma_concat_map_append, lemma_concat_map_take,
    lemma_holds_concat_map, lemma_holds_left, lemma_holds_mid, lemma_holds_prefix, lemma_holds_self,
    lemma_holds_suffix, lemma_holds_trans,
};
use crate::text::{chars_of, string_of};
use super::{tf_name, tf_name_text};

verus! {

/// The part of `s` after its last `/` (all of `s` when it has none), as
/// `s.split('/').last()` gives it.
pub open spec fn after_last_slash(s: Seq<char>) -> Seq<char>
    decreases s.len(),
{
    if s.len() == 0 {
        Seq::empty()
    } else if s.last() == '/' {
        Seq::empty()
    } else {
        after_last_slash(s.drop_last()).push(s.last())
    }
}

/// The `aws_iam_role_policy_attachment` block of a managed policy of the role
/// whose Terraform name is `rname`; it is named after the last path segment
/// of the policy ARN.
pub open spec fn attachment_text(rname: Seq<char>, arn: String) -> Seq<char> {
    "resource \"aws_iam_role_policy_attachment\" \""@ + rname + "_"@ + tf_name_text(
        after_last_slash(arn@),
    ) + "\" {\n"@ + "  role       = aws_iam_role."@ + rname + ".name\n"@
        + "  policy_arn = \""@ + arn@ + "\"\n"@ + "}\n\n"@
}

/// The `aws_iam_role_policy` block of an inline policy of the role named
/// `role_name` (Terraform name `rname`); the document goes in a heredoc.
pub open spec fn inline_policy_text(role_name: Seq<char>, rname: Seq<char>, pol: InlinePolicy) -> Seq<
    char,
> {
    "resource \"aws_iam_role_policy\" \""@ + tf_name_text(role_name + "_"@ + pol.name@) + "\" {\n"@
        + "  name   = \""@ + pol.name@ + "\"\n"@ + "  role   = aws_iam_role."@ + rname
        + ".name\n"@ + "  policy = <<EOF\n"@ + pol.document@ + "EOF\n"@ + "}\n\n"@
}

/// The `aws_iam_role` block of a role, its trust policy in a heredoc.
pub open spec fn role_block_text(role: IamRole) -> Seq<char> {
    "resource \"aws_iam_role\" \""@ + tf_name_text(role.name@) + "\" {\n"@ + "  name = \""@
        + role.name@ + "\"\n"@ + "  assume_role_policy = <<EOF\n"@ + role.assume_role_policy@
        + "EOF\n"@ + "  tags = {\n"@ + "    ManagedBy = \"dora2tf\"\n"@ + "  }\n"@ + "}\n\n"@
}

/// The `aws_iam_role` block of a role, followed by the blocks of its managed
/// and then its inline policies.
pub open spec fn role_text(role: IamRole) -> Seq<char> {
    let rname = tf_name_text(role.name@);
    role_block_text(role) + concat_map(role.managed_policies@, |arn: String| attachment_text(rname, arn))
        + concat_map(role.inline_policies@, |p: InlinePolicy| inline_policy_text(role.name@, rname, p))
}

/// The text of every role of a list, in order.
pub open spec fn roles_text(roles: Seq<IamRole>) -> Seq<char> {
    concat_map(roles, |r: IamRole| role_text(r))
}

fn last_segment(s: &str) -> (r: String)
    ensures
        r@ == after_last_slash(s@),
{
    let cs = chars_of(s);
    let mut seg: Vec<char> = Vec::new();
    let mut i: usize = 0;
    while i < cs.len()
        invariant
            i <= cs.len(),
            cs@ == s@,
            seg@ == after_last_slash(cs@.take(i as int)),
        decreases cs.len() - i,
    {
        assert(cs@.take(i + 1).drop_last() =~= cs@.take(i as int));
        if cs[i] == '/' {
            seg = Vec::new();
            assert(seg@ =~= after_last_slash(cs@.take(i + 1)));
        } else {
            seg.push(cs[i]);
        }
        i = i + 1;
    }
    assert(cs@.take(cs.len() as int) =~= cs@);
    string_of(&seg)
}

fn write_attachments(rname: &str, arns: &Vec<String>) -> (r: String)
    ensures
        r@ == concat_map(arns@, |arn: String| attachment_text(rname@, arn)),
{
    let ghost f = |arn: String| attachment_text(rname@, arn);
    let mut r = String::new();
    let mut i: usize = 0;
    while i < arns.len()
        invariant
            i <= arns.len(),
            f == (|arn: String| attachment_text(rname@, arn)),
            r@ == concat_map(arns@.take(i as int), f),
        decreases arns.len() - i,
    {
        proof {
            lemma_concat_map_take(arns@, f, i as int);
        }
        let arn = &arns[i];
        let seg = last_segment(arn.as_str());
        let pol_name = tf_name(seg.as_str());
        let mut block = String::from_str("resource \"aws_iam_role_policy_attachment\" \"");
        block.append(rname);
        block.append("_");
        block.append(pol_name.as_str());
        block.append("\" {\n");
        block.append("  role       = aws_iam_role.");
        block.append(rname);
        block.append(".name\n");
        block.append("  policy_arn = \"");
        block.append(arn.as_str());
        block.append("\"\n");
        block.append("}\n\n");
        r.append(block.as_str());
        i = i + 1;
    }
    proof {
        lemma_concat_map_all(arns@, f);
    }
    r
}

fn write_inline_policies(role_name: &str, rname: &str, pols: &Vec<InlinePolicy>) -> (r: String)
    ensures
        r@ == concat_map(pols@, |p: InlinePolicy| inline_policy_text(role_name@, rname@, p)),
{
    let ghost f = |p: InlinePolicy| inline_policy_text(role_name@, rname@, p);
    let mut r = String::new();
    let mut i: usize = 0;
    while i < pols.len()
        invariant
            i <= pols.len(),
            f == (|p: InlinePolicy| inline_policy_text(role_name@, rname@, p)),
            r@ == concat_map(pols@.take(i as int), f),
        decreases pols.len() - i,
    {
        proof {
            lemma_concat_map_take(pols@, f, i as int);
        }
        let pol = &pols[i];
        let mut joined = String::from_str(role_name);
        joined.append("_");
        joined.append(pol.name.as_str());
        let pname = tf_name(joined.as_str());
        let mut block = String::from_str("resource \"aws_iam_role_policy\" \"");
        block.append(pname.as_str());
        block.append("\" {\n");
        block.append("  name   = \"");
        block.append(pol.name.as_str());
        block.append("\"\n");
        block.append("  role   = aws_iam_role.");
        block.append(rname);
        block.append(".name\n");
        block.append("  policy = <<EOF\n");
        block.append(pol.document.as_str());
        block.append("EOF\n");
        block.append("}\n\n");
        r.append(block.as_str());
        i = i + 1;
    }
    proof {
        lemma_concat_map_all(pols@, f);
    }
    r
}

fn write_role(role: &IamRole) -> (r: String)
    ensures
        r@ == role_text(*role),
{
    let rname = tf_name(role.name.as_str());
    let attachments = write_attachments(rname.as_str(), &role.managed_policies);
    let inline = write_inline_policies(role.name.as_str(), rname.as_str(), &role.inline_policies);
    let mut r = String::from_str("resource \"aws_iam_role\" \"");
    r.append(rname.as_str());
    r.append("\" {\n");
    r.append("  name = \"");
    r.append(role.name.as_str());
    r.append("\"\n");
    r.append("  assume_role_policy = <<EOF\n");
    r.append(role.assume_role_policy.as_str());
    r.append("EOF\n");
    r.append("  tags = {\n");
    r.append("    ManagedBy = \"dora2tf\"\n");
    r.append("  }\n");
    r.append("}\n\n");
    r.append(attachments.as_str());
    r.append(inline.as_str());
    r
}

/// Generate the IAM roles file: each role block (its trust policy in a
/// heredoc, tagged as managed by this tool), then one attachment block per
/// managed policy ARN and one policy block per inline policy. The text is
/// appended to `output`.
pub fn generate(roles: &[IamRole], output: &mut String)
    ensures
        final(output)@ == old(output)@ + roles_text(roles@),
{
    let ghost f = |r: IamRole| role_text(r);
    let mut text = String::new();
    let mut i: usize = 0;
    while i < roles.len()
        invariant
            i <= roles.len(),
            f == (|r: IamRole| role_text(r)),
            text@ == concat_map(roles@.take(i as int), f),
        decreases roles.len() - i,
    {
        proof {
            lemma_concat_map_take(roles@, f, i as int);
        }
        let block = write_role(&roles[i]);
        text.append(block.as_str());
        i = i + 1;
    }
    proof {
        lemma_concat_map_all(roles@, f);
    }
    output.append(text.as_str());
}

/// Generating two lists of roles one after the other into the same output
/// writes what generating their concatenation writes.
pub proof fn lemma_generate_concat(out: Seq<char>, a: Seq<IamRole>, b: Seq<IamRole>)
    ensures
        out + roles_text(a + b) =~= out + roles_text(a) + roles_text(b),
{
    lemma_concat_map_append(a, b, |r: IamRole| role_text(r));
}

/// The block of an inline policy is named after its role and its own name, and
/// carries its name, its role and its document.
#[verifier::spinoff_prover]
#[verifier::rlimit(40)]
pub proof fn lemma_inline_policy_fields(role_name: Seq<char>, rname: Seq<char>, pol: InlinePolicy)
    ensures
        holds(inline_policy_text(role_name, rname, pol), "resource \"aws_iam_role_policy\" \""@ + tf_name_text(role_name + "_"@ + pol.name@) + "\" {\n"@),
        holds(inline_policy_text(role_name, rname, pol), "  name   = \""@ + pol.name@ + "\"\n"@),
        holds(inline_policy_text(role_name, rname, pol), "  role   = aws_iam_role."@ + rname + ".name\n"@),
        holds(inline_policy_text(role_name, rname, pol), "  policy = <<EOF\n"@ + pol.document@ + "EOF\n"@),
{
    let c0 = "resource \"aws_iam_role_policy\" \""@;
    let c1 = c0 + tf_name_text(role_name + "_"@ + pol.name@);
    let c2 = c1 + "\" {\n"@;
    let c3 = c2 + "  name   = \""@;
    let c4 = c3 + pol.name@;
    let c5 = c4 + "\"\n"@;
    let c6 = c5 + "  role   = aws_iam_role."@;
    let c7 = c6 + rname;
    let c8 = c7 + ".name\n"@;
    let c9 = c8 + "  policy = <<EOF\n"@;
    let c10 = c9 + pol.document@;
    let c11 = c10 + "EOF\n"@;
    let c12 = c11 + "}\n\n"@;
    assert(inline_policy_text(role_name, rname, pol) == c12);
    {
        let p = c2;
        lemma_holds_self(p);
        lemma_holds_left(c2, "  name   = \""@, p);
        lemma_holds_left(c3, pol.name@, p);
        lemma_holds_left(c4, "\"\n"@, p);
        lemma_holds_left(c5, "  role   = aws_iam_role."@, p);
        lemma_holds_left(c6, rname, p);
        lemma_holds_left(c7, ".name\n"@, p);
        lemma_holds_left(c8, "  policy = <<EOF\n"@, p);
        lemma_holds_left(c9, pol.document@, p);
        lemma_holds_left(c10, "EOF\n"@, p);
        lemma_holds_left(c11, "}\n\n"@, p);
    }
    {
        let p = "  name   = \""@ + pol.name@ + "\"\n"@;
        assert(c5 =~= c2 + p);
        lemma_holds_suffix(c2, p);
        lemma_holds_left(c5, "  role   = aws_iam_role."@, p);
        lemma_holds_left(c6, rname, p);
        lemma_holds_left(c7, ".name\n"@, p);
        lemma_holds_left(c8, "  policy = <<EOF\n"@, p);
        lemma_holds_left(c9, pol.document@, p);
        lemma_holds_left(c10, "EOF\n"@, p);
        lemma_holds_left(c11, "}\n\n"@, p);
    }
    {
        let p = "  role   = aws_iam_role."@ + rname + ".name\n"@;
        assert(c8 =~= c5 + p);
        lemma_holds_suffix(c5, p);
        lemma_holds_left(c8, "  policy = <<EOF\n"@, p);
        lemma_holds_left(c9, pol.document@, p);
        lemma_holds_left(c10, "EOF\n"@, p);
        lemma_holds_left(c11, "}\n\n"@, p);
    }
    {
        let p = "  policy = <<EOF\n"@ + pol.document@ + "EOF\n"@;
        assert(c11 =~= c8 + p);
        lemma_holds_suffix(c8, p);
        lemma_holds_left(c11, "}\n\n"@, p);
    }
}

/// The block of a managed policy attachment is named after its role and the
/// last segment of the policy ARN, and carries its role and the ARN.
#[verifier::spinoff_prover]
#[verifier::rlimit(40)]
pub proof fn lemma_attachment_fields(rname: Seq<char>, arn: String)
    ensures
        holds(attachment_text(rname, arn), "resource \"aws_iam_role_policy_attachment\" \""@ + rname + "_"@ + tf_name_text(after_last_slash(arn@)) + "\" {\n"@),
        holds(attachment_text(rname, arn), "  role       = aws_iam_role."@ + rname + ".name\n"@),
        holds(attachment_text(rname, arn), "  policy_arn = \""@ + arn@ + "\"\n"@),
{
    let c0 = "resource \"aws_iam_role_policy_attachment\" \""@;
    let c1 = c0 + rname;
    let c2 = c1 + "_"@;
    let c3 = c2 + tf_name_text(after_last_slash(arn@));
    let c4 = c3 + "\" {\n"@;
    let c5 = c4 + "  role       = aws_iam_role."@;
    let c6 = c5 + rname;
    let c7 = c6 + ".name\n"@;
    let c8 = c7 + "  policy_arn = \""@;
    let c9 = c8 + arn@;
    let c10 = c9 + "\"\n"@;
    let c11 = c10 + "}\n\n"@;
    assert(attachment_text(rname, arn) == c11);
    {
        let p = c4;
        lemma_holds_self(p);
        lemma_holds_left(c4, "  role       = aws_iam_role."@, p);
        lemma_holds_left(c5, rname, p);
        lemma_holds_left(c6, ".name\n"@, p);
        lemma_holds_left(c7, "  policy_arn = \""@, p);
        lemma_holds_left(c8, arn@, p);
        lemma_holds_left(c9, "\"\n"@, p);
        lemma_holds_left(c10, "}\n\n"@, p);
    }
    {
        let p = "  role       = aws_iam_role."@ + rname + ".name\n"@;
        assert(c7 =~= c4 + p);
        lemma_holds_suffix(c4, p);
        lemma_holds_left(c7, "  policy_arn = \""@, p);
        lemma_holds_left(c8, arn@, p);
        lemma_holds_left(c9, "\"\n"@, p);
        lemma_holds_left(c10, "}\n\n"@, p);
    }
    {
        let p = "  policy_arn = \""@ + arn@ + "\"\n"@;
        assert(c10 =~= c7 + p);
        lemma_holds_suffix(c7, p);
        lemma_holds_left(c10, "}\n\n"@, p);
    }
}

/// The block of a role names it by its Terraform name and carries its name, its
/// trust policy and the managed-by tag.
#[verifier::spinoff_prover]
#[verifier::rlimit(40)]
pub proof fn lemma_role_block_fields(role: IamRole)
    ensures
        holds(role_block_text(role), "resource \"aws_iam_role\" \""@ + tf_name_text(role.name@) + "\" {\n"@),
        holds(role_block_text(role), "  name = \""@ + role.name@ + "\"\n"@),
        holds(role_block_text(role), "  assume_role_policy = <<EOF\n"@ + role.assume_role_policy@ + "EOF\n"@),
        holds(role_block_text(role), "  tags = {\n"@ + "    ManagedBy = \"dora2tf\"\n"@),
{
    let c0 = "resource \"aws_iam_role\" \""@;
    let c1 = c0 + tf_name_text(role.name@);
    let c2 = c1 + "\" {\n"@;
    let c3 = c2 + "  name = \""@;
    let c4 = c3 + role.name@;
    let c5 = c4 + "\"\n"@;
    let c6 = c5 + "  assume_role_policy = <<EOF\n"@;
    let c7 = c6 + role.assume_role_policy@;
    let c8 = c7 + "EOF\n"@;
    let c9 = c8 + "  tags = {\n"@;
    let c10 = c9 + "    ManagedBy = \"dora2tf\"\n"@;
    let c11 = c10 + "  }\n"@;
    let c12 = c11 + "}\n\n"@;
    assert(role_block_text(role) == c12);
    {
        let p = c2;
        lemma_holds_self(p);
        lemma_holds_left(c2, "  name = \""@, p);
        lemma_holds_left(c3, role.name@, p);
        lemma_holds_left(c4, "\"\n"@, p);
        lemma_holds_left(c5, "  assume_role_policy = <<EOF\n"@, p);
        lemma_holds_left(c6, role.assume_role_policy@, p);
        lemma_holds_left(c7, "EOF\n"@, p);
        lemma_holds_left(c8, "  tags = {\n"@, p);
        lemma_holds_left(c9, "    ManagedBy = \"dora2tf\"\n"@, p);
        lemma_holds_left(c10, "  }\n"@, p);
        lemma_holds_left(c11, "}\n\n"@, p);
    }
    {
        let p = "  name = \""@ + role.name@ + "\"\n"@;
        assert(c5 =~= c2 + p);
        lemma_holds_suffix(c2, p);
        lemma_holds_left(c5, "  assume_role_policy = <<EOF\n"@, p);
        lemma_holds_left(c6, role.assume_role_policy@, p);
        lemma_holds_left(c7, "EOF\n"@, p);
        lemma_holds_left(c8, "  tags = {\n"@, p);
        lemma_holds_left(c9, "    ManagedBy = \"dora2tf\"\n"@, p);
        lemma_holds_left(c10, "  }\n"@, p);
        lemma_holds_left(c11, "}\n\n"@, p);
    }
    {
        let p = "  assume_role_policy = <<EOF\n"@ + role.assume_role_policy@ + "EOF\n"@;
        assert(c8 =~= c5 + p);
        lemma_holds_suffix(c5, p);
        lemma_holds_left(c8, "  tags = {\n"@, p);
        lemma_holds_left(c9, "    ManagedBy = \"dora2tf\"\n"@, p);
        lemma_holds_left(c10, "  }\n"@, p);
        lemma_holds_left(c11, "}\n\n"@, p);
    }
    {
        let p = "  tags = {\n"@ + "    ManagedBy = \"dora2tf\"\n"@;
        assert(c10 =~= c8 + p);
        lemma_holds_suffix(c8, p);
        lemma_holds_left(c10, "  }\n"@, p);
        lemma_holds_left(c11, "}\n\n"@, p);
    }
}

/// The text of a role holds its own block, the attachment block of each of
/// its managed policies and the block of each of its inline policies.
pub proof fn lemma_role_text_parts(role: IamRole)
    ensures
        holds(role_text(role), role_block_text(role)),
        forall|i: int|
            0 <= i < role.managed_policies@.len() ==> holds(
                role_text(role),
                attachment_text(tf_name_text(role.name@), #[trigger] role.managed_policies@[i]),
            ),
        forall|i: int|
            0 <= i < role.inline_policies@.len() ==> holds(
                role_text(role),
                inline_policy_text(
                    role.name@,
                    tf_name_text(role.name@),
                    #[trigger] role.inline_policies@[i],
                ),
            ),
{
    let rname = tf_name_text(role.name@);
    let b = role_block_text(role);
    let fm = |arn: String| attachment_text(rname, arn);
    let fi = |p: InlinePolicy| inline_policy_text(role.name@, rname, p);
    let cm = concat_map(role.managed_policies@, fm);
    let ci = concat_map(role.inline_policies@, fi);
    assert(role_text(role) == b + cm + ci);
    lemma_holds_prefix(b, cm);
    lemma_holds_left(b + cm, ci, b);
    lemma_holds_mid(b, cm, ci);
    lemma_holds_suffix(b + cm, ci);
    assert forall|i: int| 0 <= i < role.managed_policies@.len() implies holds(
        role_text(role),
        attachment_text(rname, #[trigger] role.managed_policies@[i]),
    ) by {
        lemma_holds_concat_map(role.managed_policies@, fm, i);
        lemma_holds_trans(role_text(role), cm, attachment_text(rname, role.managed_policies@[i]));
    }
    assert forall|i: int| 0 <= i < role.inline_policies@.len() implies holds(
        role_text(role),
        inline_policy_text(role.name@, rname, #[trigger] role.inline_policies@[i]),
    ) by {
        lemma_holds_concat_map(role.inline_policies@, fi, i);
        lemma_holds_trans(
            role_text(role),
            ci,
            inline_policy_text(role.name@, rname, role.inline_policies@[i]),
        );
    }
}

/// The roles file holds the text of each of its roles.
pub proof fn lemma_roles_text_parts(roles: Seq<IamRole>)
    ensures
        forall|i: int| 0 <= i < roles.len() ==> holds(roles_text(roles), role_text(#[trigger] roles[i])),
{
    assert forall|i: int| 0 <= i < roles.len() implies holds(
        roles_text(roles),
        role_text(#[trigger] roles[i]),
    ) by {
        lemma_holds_concat_map(roles, |r: IamRole| role_text(r), i);
    }
}


/// The part after the last `/` holds no `/`, ends the text, and is preceded
/// by a `/` unless it is the whole text.
pub proof fn lemma_after_last_slash(s: Seq<char>)
    ensures
        !after_last_slash(s).contains('/'),
        after_last_slash(s).len() <= s.len(),
        s.skip(s.len() - after_last_slash(s).len()) == after_last_slash(s),
        after_last_slash(s).len() < s.len() ==> s[s.len() - after_last_slash(s).len() - 1] == '/',
    decreases s.len(),
{
    if s.len() > 0 {
        let d = s.drop_last();
        lemma_after_last_slash(d);
        let a = after_last_slash(d);
        if s.last() == '/' {
            assert(s.skip(s.len() as int) =~= Seq::<char>::empty());
        } else {
            let r = a.push(s.last());
            assert(after_last_slash(s) == r);
            if r.contains('/') {
                let m = choose|m: int| 0 <= m < r.len() && r[m] == '/';
                if m < a.len() {
                    assert(a[m] == '/');
                }
            }
            let k = d.len() - a.len();
            assert forall|j: int| 0 <= j < r.len() implies s.skip(k)[j] == r[j] by {
                if j < a.len() {
                    assert(d.skip(k)[j] == a[j]);
                    assert(s.skip(k)[j] == s[k + j]);
                    assert(d[k + j] == s[k + j]);
                }
            }
            assert(s.skip(k) =~= r);
            if r.len() < s.len() {
                assert(s[k - 1] == d[k - 1]);
            }
        }
    }
}

} // verus!
