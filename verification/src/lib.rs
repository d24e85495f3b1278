//! Terraform HCL generation for AWS resources: naming rules, the text of each
//! resource block, import scripts, and the conversion of scan results into the
//! library's own resource model.

pub mod seqs;
pub mod text;

pub mod generator;
pub mod plan;
pub mod scanner;
