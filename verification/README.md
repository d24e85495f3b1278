# dora2tf

Generates Terraform HCL (`.tf` files and `terraform import` scripts) from live
AWS resources: EC2 instances, security groups, VPCs with their subnets, and
IAM roles.

Layout:

- `src/` — the verified library.
  - `scanner/` — the resource model, and its construction from the plain
    values of AWS answers (defaults, `Name` tags, tag maps).
  - `generator/` — Terraform naming (`tf_name`, `short_id`, `tf_unique_name`,
    `quote_tag_key`, `tf_rule_name`), the text of every resource block, the
    set of files to write, and the import scripts with the computation of
    shared resources.
  - `plan.rs` — the scan steps that the `--types` option asks for.
  - `text.rs`, `seqs.rs` — character and sequence building blocks.
- `tests/` — tests of the library.
- `app/` — the command-line program: argument parsing, the AWS requests, and
  writing the files.
