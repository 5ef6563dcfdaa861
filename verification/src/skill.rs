//! What is given to write skills and the history of their imports.
use vstd::prelude::*;

verus! {

/// A skill to be written.
#[derive(Debug, Clone, PartialEq, Eq)]
pub struct UpsertSkillParams<'a> {
    pub name: &'a str,
    pub description: Option<&'a str>,
    pub path: &'a str,
    pub source: &'a str,
    pub enabled: bool,
}

/// An import of a skill to be recorded.
#[derive(Debug, Clone, PartialEq, Eq)]
pub struct CreateSkillImportRecordParams<'a> {
    pub operation_id: &'a str,
    pub source_label: &'a str,
    pub source_path: Option<&'a str>,
    pub source_name: &'a str,
    pub skill_id: Option<&'a str>,
    pub skill_name: Option<&'a str>,
    pub status: &'a str,
    pub error_code: Option<&'a str>,
    pub error_path: Option<&'a str>,
    pub actual_bytes: Option<i64>,
    pub limit_bytes: Option<i64>,
    pub line: Option<i64>,
    pub column: Option<i64>,
}

/// Where an installed skill came from.
#[derive(Debug, Clone, PartialEq, Eq)]
pub struct UpsertSkillRegistryInstallParams<'a> {
    pub skill_id: &'a str,
    pub registry_key: &'a str,
    pub namespace: &'a str,
    pub slug: &'a str,
    pub remote_skill_id: i64,
    pub remote_version_id: i64,
    pub installed_version: &'a str,
}

} // verus!
