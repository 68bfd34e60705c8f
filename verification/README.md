# ez_vend

The rules behind a booth sales app for flea markets and second-hand sales:
how booths, vendor numbers and imports are checked, how lists are filtered,
sorted and paged, how the settings and wizards decide their next step, and how
the desktop launcher serves the app. Verus proves the contracts of every
function in `src/` except the seven small wrappers marked
`#[verifier::external_body]`, which only call an outside function
(`String::push`, `str::to_uppercase`, `str::to_lowercase`, `format!("{:?}")`,
`urlencoding::decode`, `uuid::Uuid::parse_str`,
`chrono::NaiveDate::parse_from_str`): their contracts are trusted, and their
doc comments say what each one claims. The one around `format!("{:?}")`
(`debug_text`) promises nothing of its text, so it has no `ensures`.

Layout:

- `src/` — the verified library, one module per concern:
  - text handling (`text`, `text_order`, `translations`, `locale`, `dates`, `decimal`);
  - booths and vendors (`booth_form`, `omission_rules`, `vendor_validation`,
    `vendor_list`, `report_transactions`, `booth_selection`, `archive`);
  - backups and migrations (`import_plan`, `import_review`, `migration_issues`);
  - settings and page furniture (`device`, `settings_page`, `settings_tabs`,
    `tab_group`, `pagination`, `storage_status`, `two_step_delete`,
    `error_logging`, `inputs`, `app_routes`);
  - the launcher's request handling and lock file rules (`launcher`).
- `tests/` — tests of the library on concrete values.
- `app/` — the launcher program: it finds a free port, holds the lock file,
  serves the bundled app over HTTP and opens the browser, leaving every
  decision to the library.

Laws that span several functions are stated as public proof functions named
`lemma_*`, next to the functions they are about.
