use vstd::prelude::*;

pub mod app_routes;
pub mod archive;
pub mod booth_form;
pub mod booth_selection;
pub mod dates;
pub mod decimal;
pub mod device;
pub mod error_logging;
pub mod import_plan;
pub mod import_review;
pub mod inputs;
pub mod launcher;
pub mod locale;
pub mod migration_issues;
pub mod omission_rules;
pub mod pagination;
pub mod report_transactions;
pub mod settings_page;
pub mod settings_tabs;
pub mod storage_status;
pub mod tab_group;
pub mod text;
pub mod text_order;
pub mod translations;
pub mod two_step_delete;
pub mod vendor_list;
pub mod vendor_validation;

verus! {

} // verus!
