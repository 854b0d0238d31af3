//! The kinds that stored rows hold, and how the analysis kinds map to them.
use vstd::prelude::*;
use crate::seo_plugins::utils::config::{RuleCategory, RuleType, Severity};
use crate::seo_plugins::utils::link_parser::LinkType;

verus! {

/// A stored link kind.
#[derive(Clone, Copy, Debug, PartialEq, Eq, Structural, Hash)]
pub enum DbLinkType {
    Internal,
    External,
    Mailto,
    Tel,
    Unknown,
}

/// A stored severity.
#[derive(Clone, Copy, Debug, PartialEq, Eq, Structural, Hash)]
pub enum DbSeverity {
    Info,
    Warning,
    Error,
    Critical,
}

/// A stored rule category.
#[derive(Clone, Copy, Debug, PartialEq, Eq, Structural, Hash)]
pub enum DbRuleCategory {
    Accessibility,
    Performance,
    BestPractices,
    SEO,
}

/// A stored rule kind.
#[derive(Clone, Copy, Debug, PartialEq, Eq, Structural, Hash)]
pub enum DbRuleType {
    Page,
    Site,
}

/// Where a stored run stands.
#[derive(Clone, Copy, Debug, PartialEq, Eq, Structural, Hash)]
pub enum SiteRunStatus {
    Pending,
    Running,
    Finished,
    Error,
}

impl From<LinkType> for DbLinkType {
    fn from(link_type: LinkType) -> (res: Self) {
        match link_type {
            LinkType::Internal => DbLinkType::Internal,
            LinkType::External => DbLinkType::External,
            LinkType::Mailto => DbLinkType::Mailto,
            LinkType::Tel => DbLinkType::Tel,
            LinkType::Unknown => DbLinkType::Unknown,
        }
    }
}

impl vstd::std_specs::convert::FromSpecImpl<LinkType> for DbLinkType {
    open spec fn obeys_from_spec() -> bool {
        true
    }

    open spec fn from_spec(v: LinkType) -> Self {
        match v {
            LinkType::Internal => DbLinkType::Internal,
            LinkType::External => DbLinkType::External,
            LinkType::Mailto => DbLinkType::Mailto,
            LinkType::Tel => DbLinkType::Tel,
            LinkType::Unknown => DbLinkType::Unknown,
        }
    }
}

impl From<Severity> for DbSeverity {
    fn from(severity: Severity) -> (res: Self) {
        match severity {
            Severity::Info => DbSeverity::Info,
            Severity::Warning => DbSeverity::Warning,
            Severity::Error => DbSeverity::Error,
            Severity::Critical => DbSeverity::Critical,
        }
    }
}

impl vstd::std_specs::convert::FromSpecImpl<Severity> for DbSeverity {
    open spec fn obeys_from_spec() -> bool {
        true
    }

    open spec fn from_spec(v: Severity) -> Self {
        match v {
            Severity::Info => DbSeverity::Info,
            Severity::Warning => DbSeverity::Warning,
            Severity::Error => DbSeverity::Error,
            Severity::Critical => DbSeverity::Critical,
        }
    }
}

impl From<RuleCategory> for DbRuleCategory {
    fn from(category: RuleCategory) -> (res: Self) {
        match category {
            RuleCategory::Accessibility => DbRuleCategory::Accessibility,
            RuleCategory::Performance => DbRuleCategory::Performance,
            RuleCategory::BestPractices => DbRuleCategory::BestPractices,
            RuleCategory::SEO => DbRuleCategory::SEO,
        }
    }
}

impl vstd::std_specs::convert::FromSpecImpl<RuleCategory> for DbRuleCategory {
    open spec fn obeys_from_spec() -> bool {
        true
    }

    open spec fn from_spec(v: RuleCategory) -> Self {
        match v {
            RuleCategory::Accessibility => DbRuleCategory::Accessibility,
            RuleCategory::Performance => DbRuleCategory::Performance,
            RuleCategory::BestPractices => DbRuleCategory::BestPractices,
            RuleCategory::SEO => DbRuleCategory::SEO,
        }
    }
}

impl From<RuleType> for DbRuleType {
    fn from(rule_type: RuleType) -> (res: Self) {
        match rule_type {
            RuleType::Page => DbRuleType::Page,
            RuleType::Site => DbRuleType::Site,
        }
    }
}

impl vstd::std_specs::convert::FromSpecImpl<RuleType> for DbRuleType {
    open spec fn obeys_from_spec() -> bool {
        true
    }

    open spec fn from_spec(v: RuleType) -> Self {
        match v {
            RuleType::Page => DbRuleType::Page,
            RuleType::Site => DbRuleType::Site,
        }
    }
}

} // verus!
