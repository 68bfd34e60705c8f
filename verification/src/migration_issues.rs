//! Issues found while migrating an old database, their categories and
//! severities, and their grouping for display.

use vstd::prelude::*;

use crate::text::{
    append_str, chars_of, contains_seq, contains_str, decimal_chars, decimal_text, lower_chars,
    lower_seq, owned, replace_spec, replace_str, string_of, brace_free, is_placeholder,
    lemma_replace_step,
};
use crate::translations::{lookup_text, JsonValue, Translations};

verus! {

/// An inconsistency found in migrated data.
#[derive(Debug)]
pub enum ValidationIssue {
    PurchaseTotalMismatch { purchase_id: String, expected: String, actual: String },
    VendorMissingBooth { booth_id: String, vendor_id: String },
    PurchaseMissingBooth { booth_id: String, purchase_id: String },
    PurchaseWithoutItems { purchase_id: String },
    PurchaseItemMissingVendor {
        booth_id: String,
        purchase_id: String,
        item_id: String,
        vendor_id: String,
    },
}

impl Clone for ValidationIssue {
    fn clone(&self) -> (r: Self)
        ensures
            r == *self,
    {
        match self {
            ValidationIssue::PurchaseTotalMismatch { purchase_id, expected, actual } => {
                ValidationIssue::PurchaseTotalMismatch {
                    purchase_id: purchase_id.clone(),
                    expected: expected.clone(),
                    actual: actual.clone(),
                }
            },
            ValidationIssue::VendorMissingBooth { booth_id, vendor_id } => {
                ValidationIssue::VendorMissingBooth {
                    booth_id: booth_id.clone(),
                    vendor_id: vendor_id.clone(),
                }
            },
            ValidationIssue::PurchaseMissingBooth { booth_id, purchase_id } => {
                ValidationIssue::PurchaseMissingBooth {
                    booth_id: booth_id.clone(),
                    purchase_id: purchase_id.clone(),
                }
            },
            ValidationIssue::PurchaseWithoutItems { purchase_id } => {
                ValidationIssue::PurchaseWithoutItems { purchase_id: purchase_id.clone() }
            },
            ValidationIssue::PurchaseItemMissingVendor { booth_id, purchase_id, item_id, vendor_id } => {
                ValidationIssue::PurchaseItemMissingVendor {
                    booth_id: booth_id.clone(),
                    purchase_id: purchase_id.clone(),
                    item_id: item_id.clone(),
                    vendor_id: vendor_id.clone(),
                }
            },
        }
    }
}

/// The kind of an issue.
#[derive(Debug, Clone, Copy, PartialEq, Eq, Hash, Structural)]
pub enum IssueCategory {
    PurchaseTotalMismatch,
    VendorMissingBooth,
    PurchaseMissingBooth,
    PurchaseItemMissingVendor,
    PurchaseWithoutItems,
}

/// How serious an issue is.
#[derive(Debug, Clone, Copy, PartialEq, Eq, Structural)]
pub enum IssueSeverity {
    Error,
    Warning,
    Info,
}

pub open spec fn category_of(issue: ValidationIssue) -> IssueCategory {
    match issue {
        ValidationIssue::PurchaseTotalMismatch { .. } => IssueCategory::PurchaseTotalMismatch,
        ValidationIssue::VendorMissingBooth { .. } => IssueCategory::VendorMissingBooth,
        ValidationIssue::PurchaseMissingBooth { .. } => IssueCategory::PurchaseMissingBooth,
        ValidationIssue::PurchaseWithoutItems { .. } => IssueCategory::PurchaseWithoutItems,
        ValidationIssue::PurchaseItemMissingVendor { .. } => IssueCategory::PurchaseItemMissingVendor,
    }
}

pub open spec fn severity_spec(c: IssueCategory) -> IssueSeverity {
    match c {
        IssueCategory::PurchaseTotalMismatch => IssueSeverity::Error,
        IssueCategory::PurchaseWithoutItems => IssueSeverity::Info,
        _ => IssueSeverity::Warning,
    }
}

pub open spec fn container_classes_spec(s: IssueSeverity) -> Seq<char> {
    match s {
        IssueSeverity::Error => "border-red-300 bg-red-50 text-red-900"@,
        IssueSeverity::Warning => "border-amber-300 bg-amber-50 text-amber-950"@,
        IssueSeverity::Info => "border-blue-300 bg-blue-50 text-blue-900"@,
    }
}

pub open spec fn badge_classes_spec(s: IssueSeverity) -> Seq<char> {
    match s {
        IssueSeverity::Error => "bg-red-100 text-red-900"@,
        IssueSeverity::Warning => "bg-amber-100 text-amber-950"@,
        IssueSeverity::Info => "bg-blue-100 text-blue-900"@,
    }
}

impl IssueCategory {
    /// The category of an issue.
    pub fn from_issue(issue: &ValidationIssue) -> (r: IssueCategory)
        ensures
            r == category_of(*issue),
    {
        match issue {
            ValidationIssue::PurchaseTotalMismatch { .. } => IssueCategory::PurchaseTotalMismatch,
            ValidationIssue::VendorMissingBooth { .. } => IssueCategory::VendorMissingBooth,
            ValidationIssue::PurchaseMissingBooth { .. } => IssueCategory::PurchaseMissingBooth,
            ValidationIssue::PurchaseWithoutItems { .. } => IssueCategory::PurchaseWithoutItems,
            ValidationIssue::PurchaseItemMissingVendor { .. } => {
                IssueCategory::PurchaseItemMissingVendor
            },
        }
    }

    /// Mismatched totals are errors, purchases without items are information,
    /// the rest are warnings.
    pub fn severity(self) -> (r: IssueSeverity)
        ensures
            r == severity_spec(self),
    {
        match self {
            IssueCategory::PurchaseTotalMismatch => IssueSeverity::Error,
            IssueCategory::PurchaseWithoutItems => IssueSeverity::Info,
            IssueCategory::VendorMissingBooth
            | IssueCategory::PurchaseMissingBooth
            | IssueCategory::PurchaseItemMissingVendor => IssueSeverity::Warning,
        }
    }

    /// Style classes of the category's box.
    pub fn container_classes(self) -> (r: &'static str)
        ensures
            r@ == container_classes_spec(severity_spec(self)),
    {
        match self.severity() {
            IssueSeverity::Error => "border-red-300 bg-red-50 text-red-900",
            IssueSeverity::Warning => "border-amber-300 bg-amber-50 text-amber-950",
            IssueSeverity::Info => "border-blue-300 bg-blue-50 text-blue-900",
        }
    }

    /// Style classes of the category's badge.
    pub fn badge_classes(self) -> (r: &'static str)
        ensures
            r@ == badge_classes_spec(severity_spec(self)),
    {
        match self.severity() {
            IssueSeverity::Error => "bg-red-100 text-red-900",
            IssueSeverity::Warning => "bg-amber-100 text-amber-950",
            IssueSeverity::Info => "bg-blue-100 text-blue-900",
        }
    }
}

/// The categories in the order they are shown.
pub open spec fn category_order() -> Seq<IssueCategory> {
    seq![
        IssueCategory::PurchaseTotalMismatch,
        IssueCategory::VendorMissingBooth,
        IssueCategory::PurchaseMissingBooth,
        IssueCategory::PurchaseItemMissingVendor,
        IssueCategory::PurchaseWithoutItems,
    ]
}

/// The issues of category `c`, in their original order.
pub open spec fn issues_in(issues: Seq<ValidationIssue>, c: IssueCategory) -> Seq<ValidationIssue>
    decreases issues.len(),
{
    if issues.len() == 0 {
        issues
    } else if category_of(issues.last()) == c {
        issues_in(issues.drop_last(), c).push(issues.last())
    } else {
        issues_in(issues.drop_last(), c)
    }
}

/// The non-empty groups for the categories `cats`, in that order.
pub open spec fn groups_for(issues: Seq<ValidationIssue>, cats: Seq<IssueCategory>) -> Seq<
    (IssueCategory, Seq<ValidationIssue>),
>
    decreases cats.len(),
{
    if cats.len() == 0 {
        Seq::empty()
    } else {
        let g = issues_in(issues, cats[0]);
        let rest = groups_for(issues, cats.drop_first());
        if g.len() > 0 {
            seq![(cats[0], g)] + rest
        } else {
            rest
        }
    }
}

/// Issues of one category.
#[derive(Debug, Clone)]
pub struct IssueGroup {
    pub category: IssueCategory,
    pub issues: Vec<ValidationIssue>,
}

impl IssueGroup {
    /// Number of issues in the group.
    pub fn count(&self) -> (r: usize)
        ensures
            r == self.issues@.len(),
    {
        self.issues.len()
    }
}

fn collect_category(issues: &Vec<ValidationIssue>, c: IssueCategory) -> (r: Vec<ValidationIssue>)
    ensures
        r@ == issues_in(issues@, c),
{
    let mut r: Vec<ValidationIssue> = Vec::new();
    let mut i: usize = 0;
    while i < issues.len()
        invariant
            i <= issues@.len(),
            r@ == issues_in(issues@.take(i as int), c),
        decreases issues.len() - i,
    {
        assert(issues@.take(i + 1).drop_last() =~= issues@.take(i as int));
        if IssueCategory::from_issue(&issues[i]) == c {
            r.push(issues[i].clone());
        }
        i = i + 1;
    }
    assert(issues@.take(issues.len() as int) =~= issues@);
    r
}

/// Groups issues by category, in the fixed category order, leaving out empty
/// categories and keeping the issues of each group in their original order.
pub fn group_issues(issues: &Vec<ValidationIssue>) -> (r: Vec<IssueGroup>)
    ensures
        r@.len() == groups_for(issues@, category_order()).len(),
        forall|k: int|
            0 <= k < r@.len() ==> #[trigger] r@[k].category == groups_for(
                issues@,
                category_order(),
            )[k].0 && r@[k].issues@ == groups_for(issues@, category_order())[k].1,
{
    let order: [IssueCategory; 5] = [
        IssueCategory::PurchaseTotalMismatch,
        IssueCategory::VendorMissingBooth,
        IssueCategory::PurchaseMissingBooth,
        IssueCategory::PurchaseItemMissingVendor,
        IssueCategory::PurchaseWithoutItems,
    ];
    assert(order@ =~= category_order());
    let mut groups: Vec<IssueGroup> = Vec::new();
    let mut i: usize = 0;
    assert(category_order().skip(0) =~= category_order());
    while i < 5
        invariant
            i <= 5,
            order@ == category_order(),
            groups@.len() + groups_for(issues@, category_order().skip(i as int)).len()
                == groups_for(issues@, category_order()).len(),
            forall|k: int|
                0 <= k < groups@.len() ==> #[trigger] groups@[k].category == groups_for(
                    issues@,
                    category_order(),
                )[k].0 && groups@[k].issues@ == groups_for(issues@, category_order())[k].1,
            forall|k: int|
                0 <= k < groups_for(issues@, category_order().skip(i as int)).len() ==> groups_for(
                    issues@,
                    category_order(),
                )[groups@.len() + k] == #[trigger] groups_for(
                    issues@,
                    category_order().skip(i as int),
                )[k],
        decreases 5 - i,
    {
        let c = order[i];
        let ghost rest_cats = category_order().skip(i as int);
        assert(rest_cats[0] == c);
        assert(rest_cats.drop_first() =~= category_order().skip(i + 1));
        let matching = collect_category(issues, c);
        if matching.len() > 0 {
            let ghost tail = groups_for(issues@, category_order().skip(i + 1));
            assert(groups_for(issues@, rest_cats) =~= seq![(c, matching@)] + tail);
            assert(groups_for(issues@, rest_cats)[0] == (c, matching@));
            groups.push(IssueGroup { category: c, issues: matching });
            assert forall|k: int| 0 <= k < tail.len() implies groups_for(
                issues@,
                category_order(),
            )[groups@.len() + k] == #[trigger] tail[k] by {
                assert(groups_for(issues@, rest_cats)[k + 1] == tail[k]);
            }
        }
        i = i + 1;
    }
    assert(category_order().skip(5) =~= Seq::<IssueCategory>::empty());
    groups
}

/// Total number of issues in a list of groups.
pub open spec fn grouped_count(groups: Seq<(IssueCategory, Seq<ValidationIssue>)>) -> nat
    decreases groups.len(),
{
    if groups.len() == 0 {
        0
    } else {
        groups[0].1.len() + grouped_count(groups.drop_first())
    }
}

proof fn lemma_grouped_count_split(issues: Seq<ValidationIssue>, cats: Seq<IssueCategory>)
    ensures
        grouped_count(groups_for(issues, cats)) == category_counts(issues, cats),
    decreases cats.len(),
{
    if cats.len() > 0 {
        lemma_grouped_count_split(issues, cats.drop_first());
        let g = issues_in(issues, cats[0]);
        let rest = groups_for(issues, cats.drop_first());
        if g.len() > 0 {
            assert((seq![(cats[0], g)] + rest).drop_first() =~= rest);
        }
    }
}

/// Sum over `cats` of the number of issues in each category.
pub open spec fn category_counts(issues: Seq<ValidationIssue>, cats: Seq<IssueCategory>) -> nat
    decreases cats.len(),
{
    if cats.len() == 0 {
        0
    } else {
        issues_in(issues, cats[0]).len() + category_counts(issues, cats.drop_first())
    }
}

proof fn lemma_counts_cover(issues: Seq<ValidationIssue>)
    ensures
        category_counts(issues, category_order()) == issues.len(),
    decreases issues.len(),
{
    reveal_with_fuel(category_counts, 6);
    let o = category_order();
    assert(o.drop_first() =~= seq![o[1], o[2], o[3], o[4]]);
    assert(o.drop_first().drop_first() =~= seq![o[2], o[3], o[4]]);
    assert(o.drop_first().drop_first().drop_first() =~= seq![o[3], o[4]]);
    assert(o.drop_first().drop_first().drop_first().drop_first() =~= seq![o[4]]);
    assert(o.drop_first().drop_first().drop_first().drop_first().drop_first() =~= Seq::<
        IssueCategory,
    >::empty());
    if issues.len() > 0 {
        lemma_counts_cover(issues.drop_last());
    }
}

/// Grouping loses and duplicates nothing: the groups hold as many issues as
/// were given.
pub proof fn lemma_groups_partition(issues: Seq<ValidationIssue>)
    ensures
        grouped_count(groups_for(issues, category_order())) == issues.len(),
{
    lemma_grouped_count_split(issues, category_order());
    lemma_counts_cover(issues);
}

/// `template` with each placeholder of the issue's kind replaced, in order.
pub open spec fn issue_text(template: Seq<char>, issue: ValidationIssue) -> Seq<char> {
    match issue {
        ValidationIssue::PurchaseTotalMismatch { purchase_id, expected, actual } => replace_spec(
            replace_spec(
                replace_spec(template, "{purchase_id}"@, purchase_id@),
                "{expected}"@,
                expected@,
            ),
            "{actual}"@,
            actual@,
        ),
        ValidationIssue::VendorMissingBooth { booth_id, vendor_id } => replace_spec(
            replace_spec(template, "{vendor_id}"@, vendor_id@),
            "{booth_id}"@,
            booth_id@,
        ),
        ValidationIssue::PurchaseMissingBooth { booth_id, purchase_id } => replace_spec(
            replace_spec(template, "{purchase_id}"@, purchase_id@),
            "{booth_id}"@,
            booth_id@,
        ),
        ValidationIssue::PurchaseWithoutItems { purchase_id } => replace_spec(
            template,
            "{purchase_id}"@,
            purchase_id@,
        ),
        ValidationIssue::PurchaseItemMissingVendor { booth_id, purchase_id, item_id, vendor_id } =>
            replace_spec(
            replace_spec(
                replace_spec(replace_spec(template, "{booth_id}"@, booth_id@), "{purchase_id}"@, purchase_id@),
                "{item_id}"@,
                item_id@,
            ),
            "{vendor_id}"@,
            vendor_id@,
        ),
    }
}

/// The field of an issue that a placeholder of its message names: `{vendor_id}`
/// the vendor's id, `{booth_id}` the booth's, and so on; `None` for a
/// placeholder the issue has no field for.
pub open spec fn field_for(issue: ValidationIssue, placeholder: Seq<char>) -> Option<Seq<char>> {
    match issue {
        ValidationIssue::PurchaseTotalMismatch { purchase_id, expected, actual } => {
            if placeholder == "{purchase_id}"@ {
                Some(purchase_id@)
            } else if placeholder == "{expected}"@ {
                Some(expected@)
            } else if placeholder == "{actual}"@ {
                Some(actual@)
            } else {
                None
            }
        },
        ValidationIssue::VendorMissingBooth { booth_id, vendor_id } => {
            if placeholder == "{booth_id}"@ {
                Some(booth_id@)
            } else if placeholder == "{vendor_id}"@ {
                Some(vendor_id@)
            } else {
                None
            }
        },
        ValidationIssue::PurchaseMissingBooth { booth_id, purchase_id } => {
            if placeholder == "{booth_id}"@ {
                Some(booth_id@)
            } else if placeholder == "{purchase_id}"@ {
                Some(purchase_id@)
            } else {
                None
            }
        },
        ValidationIssue::PurchaseWithoutItems { purchase_id } => {
            if placeholder == "{purchase_id}"@ {
                Some(purchase_id@)
            } else {
                None
            }
        },
        ValidationIssue::PurchaseItemMissingVendor { booth_id, purchase_id, item_id, vendor_id } => {
            if placeholder == "{booth_id}"@ {
                Some(booth_id@)
            } else if placeholder == "{purchase_id}"@ {
                Some(purchase_id@)
            } else if placeholder == "{item_id}"@ {
                Some(item_id@)
            } else if placeholder == "{vendor_id}"@ {
                Some(vendor_id@)
            } else {
                None
            }
        },
    }
}

/// No field of the issue holds a `{`.
pub open spec fn fields_brace_free(issue: ValidationIssue) -> bool {
    match issue {
        ValidationIssue::PurchaseTotalMismatch { purchase_id, expected, actual } => brace_free(
            purchase_id@,
        ) && brace_free(expected@) && brace_free(actual@),
        ValidationIssue::VendorMissingBooth { booth_id, vendor_id } => brace_free(booth_id@)
            && brace_free(vendor_id@),
        ValidationIssue::PurchaseMissingBooth { booth_id, purchase_id } => brace_free(booth_id@)
            && brace_free(purchase_id@),
        ValidationIssue::PurchaseWithoutItems { purchase_id } => brace_free(purchase_id@),
        ValidationIssue::PurchaseItemMissingVendor { booth_id, purchase_id, item_id, vendor_id } =>
            brace_free(booth_id@) && brace_free(purchase_id@) && brace_free(item_id@) && brace_free(
            vendor_id@,
        ),
    }
}

proof fn lemma_issue_placeholders()
    ensures
        is_placeholder("{purchase_id}"@),
        is_placeholder("{expected}"@),
        is_placeholder("{actual}"@),
        is_placeholder("{vendor_id}"@),
        is_placeholder("{booth_id}"@),
        is_placeholder("{item_id}"@),
        "{purchase_id}"@.len() == 13,
        "{expected}"@.len() == 10,
        "{actual}"@.len() == 8,
        "{vendor_id}"@.len() == 11,
        "{booth_id}"@.len() == 10,
        "{item_id}"@.len() == 9,
{
    reveal_strlit("{purchase_id}");
    reveal_strlit("{expected}");
    reveal_strlit("{actual}");
    reveal_strlit("{vendor_id}");
    reveal_strlit("{booth_id}");
    reveal_strlit("{item_id}");
}

/// In an issue's message, each placeholder `{name}` is replaced by the
/// issue's field of that name, and a placeholder the issue has no field for
/// stays as it is (for a message with one placeholder amid text without
/// braces, and fields without braces).
pub proof fn lemma_placeholders_take_their_fields(
    issue: ValidationIssue,
    a: Seq<char>,
    p: Seq<char>,
    c: Seq<char>,
)
    requires
        brace_free(a),
        brace_free(c),
        is_placeholder(p),
        fields_brace_free(issue),
    ensures
        issue_text(a + p + c, issue) == match field_for(issue, p) {
            Some(v) => a + v + c,
            None => a + p + c,
        },
{
    lemma_issue_placeholders();
    let v = match field_for(issue, p) {
        Some(v) => v,
        None => Seq::<char>::empty(),
    };
    assert(brace_free(v));
    match issue {
        ValidationIssue::PurchaseTotalMismatch { purchase_id, expected, actual } => {
            lemma_replace_step(a, p, c, v, "{purchase_id}"@, purchase_id@);
            lemma_replace_step(a, p, c, v, "{expected}"@, expected@);
            lemma_replace_step(a, p, c, v, "{actual}"@, actual@);
        },
        ValidationIssue::VendorMissingBooth { booth_id, vendor_id } => {
            lemma_replace_step(a, p, c, v, "{vendor_id}"@, vendor_id@);
            lemma_replace_step(a, p, c, v, "{booth_id}"@, booth_id@);
        },
        ValidationIssue::PurchaseMissingBooth { booth_id, purchase_id } => {
            lemma_replace_step(a, p, c, v, "{purchase_id}"@, purchase_id@);
            lemma_replace_step(a, p, c, v, "{booth_id}"@, booth_id@);
        },
        ValidationIssue::PurchaseWithoutItems { purchase_id } => {
            lemma_replace_step(a, p, c, v, "{purchase_id}"@, purchase_id@);
        },
        ValidationIssue::PurchaseItemMissingVendor { booth_id, purchase_id, item_id, vendor_id } => {
            lemma_replace_step(a, p, c, v, "{booth_id}"@, booth_id@);
            lemma_replace_step(a, p, c, v, "{purchase_id}"@, purchase_id@);
            lemma_replace_step(a, p, c, v, "{item_id}"@, item_id@);
            lemma_replace_step(a, p, c, v, "{vendor_id}"@, vendor_id@);
        },
    }
}

/// The translation key of the message for an issue of this kind.
pub open spec fn issue_key(issue: ValidationIssue) -> Seq<char> {
    match issue {
        ValidationIssue::PurchaseTotalMismatch { .. } => "migration.issue.purchase_total_mismatch"@,
        ValidationIssue::VendorMissingBooth { .. } => "migration.issue.vendor_missing_booth"@,
        ValidationIssue::PurchaseMissingBooth { .. } => "migration.issue.purchase_missing_booth"@,
        ValidationIssue::PurchaseWithoutItems { .. } => "migration.issue.purchase_without_items"@,
        ValidationIssue::PurchaseItemMissingVendor { .. } => "migration.issue.purchase_item_missing_vendor"@,
    }
}

fn issue_key_of(issue: &ValidationIssue) -> (r: &'static str)
    ensures
        r@ == issue_key(*issue),
{
    match issue {
        ValidationIssue::PurchaseTotalMismatch { .. } => "migration.issue.purchase_total_mismatch",
        ValidationIssue::VendorMissingBooth { .. } => "migration.issue.vendor_missing_booth",
        ValidationIssue::PurchaseMissingBooth { .. } => "migration.issue.purchase_missing_booth",
        ValidationIssue::PurchaseWithoutItems { .. } => "migration.issue.purchase_without_items",
        ValidationIssue::PurchaseItemMissingVendor { .. } => "migration.issue.purchase_item_missing_vendor",
    }
}

/// The message for one issue: the translated message of its kind with the
/// issue's ids and amounts put in.
pub fn format_issue(issue: &ValidationIssue, translations: &Translations) -> (r: String)
    ensures
        r@ == issue_text(lookup_text(translations.entries(), issue_key(*issue)), *issue),
{
    let template = translations.get(issue_key_of(issue));
    fill_issue(template.as_str(), issue)
}

fn fill_issue(template: &str, issue: &ValidationIssue) -> (r: String)
    ensures
        r@ == issue_text(template@, *issue),
{
    proof {
        reveal_strlit("{purchase_id}");
        reveal_strlit("{expected}");
        reveal_strlit("{actual}");
        reveal_strlit("{vendor_id}");
        reveal_strlit("{booth_id}");
        reveal_strlit("{item_id}");
    }
    match issue {
        ValidationIssue::PurchaseTotalMismatch { purchase_id, expected, actual } => {
            let a = replace_str(template, "{purchase_id}", purchase_id.as_str());
            let b = replace_str(a.as_str(), "{expected}", expected.as_str());
            replace_str(b.as_str(), "{actual}", actual.as_str())
        },
        ValidationIssue::VendorMissingBooth { booth_id, vendor_id } => {
            let a = replace_str(template, "{vendor_id}", vendor_id.as_str());
            replace_str(a.as_str(), "{booth_id}", booth_id.as_str())
        },
        ValidationIssue::PurchaseMissingBooth { booth_id, purchase_id } => {
            let a = replace_str(template, "{purchase_id}", purchase_id.as_str());
            replace_str(a.as_str(), "{booth_id}", booth_id.as_str())
        },
        ValidationIssue::PurchaseWithoutItems { purchase_id } => {
            replace_str(template, "{purchase_id}", purchase_id.as_str())
        },
        ValidationIssue::PurchaseItemMissingVendor { booth_id, purchase_id, item_id, vendor_id } => {
            let a = replace_str(template, "{booth_id}", booth_id.as_str());
            let b = replace_str(a.as_str(), "{purchase_id}", purchase_id.as_str());
            let c = replace_str(b.as_str(), "{item_id}", item_id.as_str());
            replace_str(c.as_str(), "{vendor_id}", vendor_id.as_str())
        },
    }
}

/// The translation key under which the texts of a category stand.
pub open spec fn category_key(c: IssueCategory) -> Seq<char> {
    match c {
        IssueCategory::PurchaseTotalMismatch => "migration.issue_category.purchase_total_mismatch"@,
        IssueCategory::VendorMissingBooth => "migration.issue_category.vendor_missing_booth"@,
        IssueCategory::PurchaseMissingBooth => "migration.issue_category.purchase_missing_booth"@,
        IssueCategory::PurchaseItemMissingVendor => "migration.issue_category.purchase_item_missing_vendor"@,
        IssueCategory::PurchaseWithoutItems => "migration.issue_category.purchase_without_items"@,
    }
}

impl IssueCategory {
    fn key_of(self) -> (r: &'static str)
        ensures
            r@ == category_key(self),
    {
        match self {
            IssueCategory::PurchaseTotalMismatch => "migration.issue_category.purchase_total_mismatch",
            IssueCategory::VendorMissingBooth => "migration.issue_category.vendor_missing_booth",
            IssueCategory::PurchaseMissingBooth => "migration.issue_category.purchase_missing_booth",
            IssueCategory::PurchaseItemMissingVendor => "migration.issue_category.purchase_item_missing_vendor",
            IssueCategory::PurchaseWithoutItems => "migration.issue_category.purchase_without_items",
        }
    }

    fn text(self, part: &str, translations: &Translations) -> (r: String)
        ensures
            r@ == lookup_text(translations.entries(), category_key(self) + "."@ + part@),
    {
        let mut key = owned(self.key_of());
        append_str(&mut key, ".");
        append_str(&mut key, part);
        translations.get(key.as_str())
    }

    /// The heading of a group of issues of this kind.
    pub fn title(self, translations: &Translations) -> (r: String)
        ensures
            r@ == lookup_text(translations.entries(), category_key(self) + ".title"@),
    {
        proof {
            reveal_strlit(".");
            reveal_strlit("title");
            reveal_strlit(".title");
            assert(category_key(self) + "."@ + "title"@ =~= category_key(self) + ".title"@);
        }
        self.text("title", translations)
    }

    /// What issues of this kind mean.
    pub fn explanation(self, translations: &Translations) -> (r: String)
        ensures
            r@ == lookup_text(translations.entries(), category_key(self) + ".explanation"@),
    {
        proof {
            reveal_strlit(".");
            reveal_strlit("explanation");
            reveal_strlit(".explanation");
            assert(category_key(self) + "."@ + "explanation"@ =~= category_key(self) + ".explanation"@);
        }
        self.text("explanation", translations)
    }

    /// What the operator can do about issues of this kind.
    pub fn guidance(self, translations: &Translations) -> (r: String)
        ensures
            r@ == lookup_text(translations.entries(), category_key(self) + ".guidance"@),
    {
        proof {
            reveal_strlit(".");
            reveal_strlit("guidance");
            reveal_strlit(".guidance");
            assert(category_key(self) + "."@ + "guidance"@ =~= category_key(self) + ".guidance"@);
        }
        self.text("guidance", translations)
    }

    /// The impact line of a group: the translated impact text with `{count}`
    /// replaced by the number of issues.
    pub fn impact(self, count: usize, translations: &Translations) -> (r: String)
        ensures
            r@ == replace_spec(
                lookup_text(translations.entries(), category_key(self) + ".impact"@),
                "{count}"@,
                decimal_text(count as nat),
            ),
    {
        proof {
            reveal_strlit("{count}");
            reveal_strlit(".");
            reveal_strlit("impact");
            reveal_strlit(".impact");
            assert(category_key(self) + "."@ + "impact"@ =~= category_key(self) + ".impact"@);
        }
        let template = self.text("impact", translations);
        let digits = string_of(&decimal_chars(count as u64));
        replace_str(template.as_str(), "{count}", digits.as_str())
    }
}

/// Platforms for which the wizard knows where the old database lives.
#[derive(Debug, Clone, Copy, PartialEq, Eq, Structural)]
pub enum DetectedPlatform {
    MacOs,
    Windows,
    Linux,
    Ios,
    Other,
}

pub open spec fn detected_platform_spec(platform: Seq<char>) -> DetectedPlatform {
    if contains_seq(platform, "iphone"@) || contains_seq(platform, "ipad"@) {
        DetectedPlatform::Ios
    } else if contains_seq(platform, "mac"@) {
        DetectedPlatform::MacOs
    } else if contains_seq(platform, "win"@) {
        DetectedPlatform::Windows
    } else if contains_seq(platform, "linux"@) || contains_seq(platform, "x11"@) {
        DetectedPlatform::Linux
    } else {
        DetectedPlatform::Other
    }
}

/// The platform named by a device's platform text, matched without regard to
/// ASCII case.
pub fn detect_platform(platform: &str) -> (r: DetectedPlatform)
    ensures
        r == detected_platform_spec(lower_seq(platform@)),
{
    let p = lower_chars(&chars_of(platform));
    if contains_str(&p, "iphone") || contains_str(&p, "ipad") {
        DetectedPlatform::Ios
    } else if contains_str(&p, "mac") {
        DetectedPlatform::MacOs
    } else if contains_str(&p, "win") {
        DetectedPlatform::Windows
    } else if contains_str(&p, "linux") || contains_str(&p, "x11") {
        DetectedPlatform::Linux
    } else {
        DetectedPlatform::Other
    }
}

pub open spec fn default_path_spec(p: DetectedPlatform) -> Seq<char> {
    match p {
        DetectedPlatform::Windows => "%USERPROFILE%\\Documents\\tschuba\\ez-booth\\booth.db"@,
        DetectedPlatform::Ios => ""@,
        _ => "~/Documents/tschuba/ez-booth/booth.db"@,
    }
}

/// The translation key of a platform's name.
pub open spec fn platform_key(p: DetectedPlatform) -> Seq<char> {
    match p {
        DetectedPlatform::MacOs => "migration.file_location.platform.macos"@,
        DetectedPlatform::Windows => "migration.file_location.platform.windows"@,
        DetectedPlatform::Linux => "migration.file_location.platform.linux"@,
        DetectedPlatform::Ios => "migration.file_location.platform.ios"@,
        DetectedPlatform::Other => "migration.file_location.platform.other"@,
    }
}

impl DetectedPlatform {
    /// The translated name of the platform.
    pub fn label(self, translations: &Translations) -> (r: String)
        ensures
            r@ == lookup_text(translations.entries(), platform_key(self)),
    {
        let key = match self {
            DetectedPlatform::MacOs => "migration.file_location.platform.macos",
            DetectedPlatform::Windows => "migration.file_location.platform.windows",
            DetectedPlatform::Linux => "migration.file_location.platform.linux",
            DetectedPlatform::Ios => "migration.file_location.platform.ios",
            DetectedPlatform::Other => "migration.file_location.platform.other",
        };
        translations.get(key)
    }

    /// Where the old database usually lives on this platform.
    pub fn default_path(self) -> (r: &'static str)
        ensures
            r@ == default_path_spec(self),
    {
        match self {
            DetectedPlatform::Windows => "%USERPROFILE%\\Documents\\tschuba\\ez-booth\\booth.db",
            DetectedPlatform::Ios => "",
            DetectedPlatform::MacOs | DetectedPlatform::Linux | DetectedPlatform::Other => {
                "~/Documents/tschuba/ez-booth/booth.db"
            },
        }
    }
}

/// Whether the expanded categories `after` are `before` with `category`
/// switched: added when missing, removed when present.
pub open spec fn switched(after: Seq<IssueCategory>, before: Seq<IssueCategory>, category: IssueCategory) -> bool {
    forall|c: IssueCategory|
        #[trigger] after.contains(c) == if c == category {
            !before.contains(category)
        } else {
            before.contains(c)
        }
}

/// Switching a category twice leaves the expanded categories as they were.
pub proof fn lemma_switch_twice(
    first: Seq<IssueCategory>,
    second: Seq<IssueCategory>,
    third: Seq<IssueCategory>,
    category: IssueCategory,
)
    requires
        switched(second, first, category),
        switched(third, second, category),
    ensures
        forall|c: IssueCategory| #[trigger] third.contains(c) == first.contains(c),
{
    assert forall|c: IssueCategory| #[trigger] third.contains(c) == first.contains(c) by {
        assert(third.contains(c) == if c == category {
            !second.contains(category)
        } else {
            second.contains(c)
        });
        assert(second.contains(category) == !first.contains(category));
        assert(second.contains(c) == if c == category {
            !first.contains(category)
        } else {
            first.contains(c)
        });
    }
}

/// Shows the technical details of a category, or hides them when shown.
pub fn toggle_expanded_category(expanded: &mut Vec<IssueCategory>, category: IssueCategory)
    ensures
        switched(final(expanded)@, old(expanded)@, category),
{
    let mut found = false;
    let mut i: usize = 0;
    while i < expanded.len()
        invariant
            i <= expanded@.len(),
            found == (exists|k: int| 0 <= k < i && expanded@[k] == category),
        decreases expanded.len() - i,
    {
        if expanded[i] == category {
            found = true;
        }
        i = i + 1;
    }
    if !found {
        let ghost before = expanded@;
        expanded.push(category);
        proof {
            assert forall|c: IssueCategory| #[trigger] expanded@.contains(c) == if c == category {
                !before.contains(category)
            } else {
                before.contains(c)
            } by {
                assert(expanded@[before.len() as int] == category);
                if before.contains(c) {
                    let k = choose|k: int| 0 <= k < before.len() && before[k] == c;
                    assert(expanded@[k] == c);
                }
                if c != category && expanded@.contains(c) {
                    let k = choose|k: int| 0 <= k < expanded@.len() && expanded@[k] == c;
                    assert(before[k] == c);
                }
            }
        }
        return;
    }
    let ghost pred = |x: IssueCategory| x != category;
    let mut kept: Vec<IssueCategory> = Vec::new();
    let mut j: usize = 0;
    assert(expanded@.take(0).filter(pred) =~= Seq::<IssueCategory>::empty()) by {
        reveal_with_fuel(Seq::filter, 1);
    }
    while j < expanded.len()
        invariant
            j <= expanded@.len(),
            pred == (|x: IssueCategory| x != category),
            kept@ == expanded@.take(j as int).filter(pred),
        decreases expanded.len() - j,
    {
        proof {
            expanded@.take(j as int).lemma_filter_push(expanded@[j as int], pred);
            assert(expanded@.take(j + 1) =~= expanded@.take(j as int).push(expanded@[j as int]));
        }
        if expanded[j] != category {
            kept.push(expanded[j]);
        }
        j = j + 1;
    }
    assert(expanded@.take(expanded@.len() as int) =~= expanded@);
    proof {
        let old_seq = expanded@;
        assert forall|c: IssueCategory| #[trigger] kept@.contains(c) == if c == category {
            !old_seq.contains(category)
        } else {
            old_seq.contains(c)
        } by {
            if kept@.contains(c) {
                old_seq.lemma_filter_contains_rev(pred, c);
                let k = choose|k: int| 0 <= k < kept@.len() && kept@[k] == c;
                old_seq.lemma_filter_pred(pred, k);
                assert(pred(kept@[k]));
            }
            if c != category && old_seq.contains(c) {
                let k = choose|k: int| 0 <= k < old_seq.len() && old_seq[k] == c;
                assert(pred(old_seq[k]));
                old_seq.lemma_filter_contains(pred, k);
            }
            if c == category {
                let k = choose|k: int| 0 <= k < old_seq.len() && old_seq[k] == category;
                assert(old_seq.contains(category));
            }
        }
    }
    *expanded = kept;
}

/// How many records a migration leaves out: those counted in the old data
/// and not kept, none when more were kept.
pub fn skipped_count(counted: usize, kept: usize) -> (r: usize)
    ensures
        r == (if counted >= kept {
            counted - kept
        } else {
            0
        }),
{
    counted.saturating_sub(kept)
}

fn fill_count(template: String, placeholder: &str, n: usize) -> (r: String)
    requires
        placeholder@.len() > 0,
    ensures
        r@ == replace_spec(template@, placeholder@, decimal_text(n as nat)),
{
    let digits = string_of(&decimal_chars(n as u64));
    replace_str(template.as_str(), placeholder, digits.as_str())
}

/// The line above the issue groups: how many issues were found.
pub fn issues_found_text(count: usize, translations: &Translations) -> (r: String)
    ensures
        r@ == replace_spec(
            lookup_text(translations.entries(), "migration.validation.issues_found"@),
            "{count}"@,
            decimal_text(count as nat),
        ),
{
    proof {
        reveal_strlit("{count}");
    }
    fill_count(translations.get("migration.validation.issues_found"), "{count}", count)
}

/// What skipping the invalid records leaves out.
pub fn skip_summary_text(skipped_vendors: usize, skipped_purchases: usize, translations: &Translations) -> (r: String)
    ensures
        r@ == replace_spec(
            replace_spec(
                lookup_text(translations.entries(), "migration.validation.skip_summary"@),
                "{vendors}"@,
                decimal_text(skipped_vendors as nat),
            ),
            "{purchases}"@,
            decimal_text(skipped_purchases as nat),
        ),
{
    proof {
        reveal_strlit("{vendors}");
        reveal_strlit("{purchases}");
    }
    let t = translations.get("migration.validation.skip_summary");
    let t = fill_count(t, "{vendors}", skipped_vendors);
    fill_count(t, "{purchases}", skipped_purchases)
}

/// The counts a migration reports when it is done.
#[derive(Clone, Copy, Debug, PartialEq, Eq, Structural)]
pub struct MigrationCounts {
    pub booths: usize,
    pub vendors: usize,
    pub purchases: usize,
    pub skipped_vendors: usize,
    pub skipped_purchases: usize,
}

/// The message after a migration.
pub open spec fn migration_success_spec(
    counts: MigrationCounts,
    entries: Seq<(String, JsonValue)>,
) -> Seq<char> {
    let t = lookup_text(entries, "migration.success.summary"@);
    let t1 = replace_spec(t, "{booths}"@, decimal_text(counts.booths as nat));
    let t2 = replace_spec(t1, "{vendors}"@, decimal_text(counts.vendors as nat));
    let t3 = replace_spec(t2, "{purchases}"@, decimal_text(counts.purchases as nat));
    let t4 = replace_spec(t3, "{skipped_vendors}"@, decimal_text(counts.skipped_vendors as nat));
    replace_spec(t4, "{skipped_purchases}"@, decimal_text(counts.skipped_purchases as nat))
}

/// The message after a migration: what was migrated and what was skipped.
pub fn migration_success_message(counts: MigrationCounts, translations: &Translations) -> (r: String)
    ensures
        r@ == migration_success_spec(counts, translations.entries()),
{
    proof {
        reveal_strlit("{booths}");
        reveal_strlit("{vendors}");
        reveal_strlit("{purchases}");
        reveal_strlit("{skipped_vendors}");
        reveal_strlit("{skipped_purchases}");
    }
    let t = translations.get("migration.success.summary");
    let t = fill_count(t, "{booths}", counts.booths);
    let t = fill_count(t, "{vendors}", counts.vendors);
    let t = fill_count(t, "{purchases}", counts.purchases);
    let t = fill_count(t, "{skipped_vendors}", counts.skipped_vendors);
    fill_count(t, "{skipped_purchases}", counts.skipped_purchases)
}

/// The status after the old database was read: ready, with or without issues.
pub fn validation_status_key(issue_count: usize) -> (r: &'static str)
    ensures
        r@ == (if issue_count == 0 {
            "migration.status.ready_clean"@
        } else {
            "migration.status.ready_issues"@
        }),
{
    if issue_count == 0 {
        "migration.status.ready_clean"
    } else {
        "migration.status.ready_issues"
    }
}

/// Where to find the old database: the translated description with the
/// platform's name put in.
pub fn file_location_description(platform: DetectedPlatform, translations: &Translations) -> (r:
    String)
    ensures
        r@ == replace_spec(
            lookup_text(translations.entries(), "migration.file_location.description"@),
            "{platform}"@,
            lookup_text(translations.entries(), platform_key(platform)),
        ),
{
    proof {
        reveal_strlit("{platform}");
    }
    let template = translations.get("migration.file_location.description");
    let name = platform.label(translations);
    replace_str(template.as_str(), "{platform}", name.as_str())
}

} // verus!
