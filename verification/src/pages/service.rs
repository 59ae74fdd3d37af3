//! The services page.

use crate::message::{ServiceInfo, ServiceStatus};
use vstd::prelude::*;

verus! {

/// How the status of a service is shown.
#[derive(Clone, Copy, Debug, PartialEq, Eq)]
pub struct StatusBadge {
    /// The value of the badge's `data-status` attribute, which picks its
    /// colour.
    pub attr: &'static str,
    /// The text of the badge.
    pub label: &'static str,
    /// The key under which the text is looked up in other languages.
    pub i18n: &'static str,
}

/// How a status is shown.
pub fn status_badge(status: ServiceStatus) -> (badge: StatusBadge)
    ensures
        status == ServiceStatus::Active ==> badge.attr@ == "active"@ && badge.label@ == "Active"@
            && badge.i18n@ == "active"@,
        status == ServiceStatus::Inactive ==> badge.attr@ == "inactive"@ && badge.label@
            == "Inactive"@ && badge.i18n@ == "inactive"@,
        status == ServiceStatus::Failed ==> badge.attr@ == "failed"@ && badge.label@ == "Failed"@
            && badge.i18n@ == "failed"@,
        status == ServiceStatus::Unknown ==> badge.attr@ == "unknown"@ && badge.label@
            == "Unknown"@ && badge.i18n@ == "unknown"@,
{
    match status {
        ServiceStatus::Active => StatusBadge { attr: "active", label: "Active", i18n: "active" },
        ServiceStatus::Inactive => StatusBadge {
            attr: "inactive",
            label: "Inactive",
            i18n: "inactive",
        },
        ServiceStatus::Failed => StatusBadge { attr: "failed", label: "Failed", i18n: "failed" },
        ServiceStatus::Unknown => StatusBadge {
            attr: "unknown",
            label: "Unknown",
            i18n: "unknown",
        },
    }
}

/// Does the service have an error log to show?
pub fn has_log(service: &ServiceInfo) -> (b: bool)
    ensures
        b == (service.err_log@.len() > 0),
{
    !service.err_log.as_str().is_empty()
}

} // verus!
