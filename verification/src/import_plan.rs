//! Applying the import wizard's decisions to a backup before it is imported:
//! booths may be merged into an existing booth (their records follow the
//! booth), skipped (with their records), or imported as they are.
//!
//! Booth ids are UUIDs, held as `u128`. The rest of each record is carried
//! along unchanged.

use vstd::prelude::*;

verus! {

/// The operator's decision for one booth of the backup.
#[derive(Clone, Copy, Debug, PartialEq, Eq, Structural)]
pub enum WizardChoice {
    /// Import into the existing booth with this id.
    UseCandidate(u128),
    /// Import as a new booth.
    ImportAsNew,
    /// Leave the booth and its records out.
    Skip,
    /// Merge `canonical` into `other` locally first, then import under `canonical`.
    Advanced { canonical: u128, other: u128 },
}

/// A booth of a backup.
#[derive(Debug)]
pub struct BoothRecord<B> {
    pub id: u128,
    pub data: B,
}

/// A record that belongs to a booth (a vendor or a purchase).
#[derive(Debug)]
pub struct OwnedRecord<R> {
    pub booth_id: u128,
    pub data: R,
}

/// A backup of everything.
#[derive(Debug)]
pub struct FullBackup<B, V, P, M> {
    pub booths: Vec<BoothRecord<B>>,
    pub vendors: Vec<OwnedRecord<V>>,
    pub purchases: Vec<OwnedRecord<P>>,
    /// The rest of the backup (format version, checksum, device, metadata),
    /// carried along unchanged.
    pub other: M,
}

/// A backup of one booth.
#[derive(Debug)]
pub struct BoothBackup<B, V, P, M> {
    pub booth: BoothRecord<B>,
    pub vendors: Vec<OwnedRecord<V>>,
    pub purchases: Vec<OwnedRecord<P>>,
    /// The rest of the backup (format version, checksum, device), carried
    /// along unchanged.
    pub other: M,
}

/// The contents of an import.
#[derive(Debug)]
pub enum ImportPayload<B, V, P, M> {
    Full(FullBackup<B, V, P, M>),
    Booth(BoothBackup<B, V, P, M>),
}

/// The decision for booth `id`: the first one given for it.
pub open spec fn decision_of(decisions: Seq<(u128, WizardChoice)>, id: u128) -> Option<
    WizardChoice,
>
    decreases decisions.len(),
{
    if decisions.len() == 0 {
        None
    } else if decisions[0].0 == id {
        Some(decisions[0].1)
    } else {
        decision_of(decisions.drop_first(), id)
    }
}

/// The booth a decision sends records to, if it sends them elsewhere.
pub open spec fn canonical_of(choice: Option<WizardChoice>) -> Option<u128> {
    match choice {
        Some(WizardChoice::UseCandidate(c)) => Some(c),
        Some(WizardChoice::Advanced { canonical, .. }) => Some(canonical),
        _ => None,
    }
}

pub open spec fn is_skip(choice: Option<WizardChoice>) -> bool {
    choice == Some(WizardChoice::Skip)
}

pub open spec fn booth_ids<B>(booths: Seq<BoothRecord<B>>) -> Seq<u128> {
    booths.map_values(|b: BoothRecord<B>| b.id)
}

/// The booths kept by a full import: skipped ones left out, the others under
/// their canonical id.
pub open spec fn kept_booths<B>(
    booths: Seq<BoothRecord<B>>,
    decisions: Seq<(u128, WizardChoice)>,
) -> Seq<BoothRecord<B>>
    decreases booths.len(),
{
    if booths.len() == 0 {
        booths
    } else {
        let before = kept_booths(booths.drop_last(), decisions);
        let b = booths.last();
        let d = decision_of(decisions, b.id);
        if is_skip(d) {
            before
        } else {
            match canonical_of(d) {
                Some(c) => before.push(BoothRecord { id: c, data: b.data }),
                None => before.push(b),
            }
        }
    }
}

/// The records kept by a full import: those of skipped booths of the backup
/// left out, those of merged booths of the backup moved to the canonical booth.
pub open spec fn kept_records<R>(
    records: Seq<OwnedRecord<R>>,
    ids: Seq<u128>,
    decisions: Seq<(u128, WizardChoice)>,
) -> Seq<OwnedRecord<R>>
    decreases records.len(),
{
    if records.len() == 0 {
        records
    } else {
        let before = kept_records(records.drop_last(), ids, decisions);
        let r = records.last();
        let d = decision_of(decisions, r.booth_id);
        if ids.contains(r.booth_id) && is_skip(d) {
            before
        } else if ids.contains(r.booth_id) && canonical_of(d) is Some {
            before.push(OwnedRecord { booth_id: canonical_of(d)->0, data: r.data })
        } else {
            before.push(r)
        }
    }
}

/// The records of a one-booth import moved from booth `old` to booth `new`.
pub open spec fn moved_records<R>(records: Seq<OwnedRecord<R>>, old: u128, new: u128) -> Seq<
    OwnedRecord<R>,
> {
    records.map_values(
        |r: OwnedRecord<R>|
            if r.booth_id == old {
                OwnedRecord { booth_id: new, data: r.data }
            } else {
                r
            },
    )
}

fn decision_for(decisions: &Vec<(u128, WizardChoice)>, id: u128) -> (r: Option<WizardChoice>)
    ensures
        r == decision_of(decisions@, id),
{
    let mut j: usize = 0;
    assert(decisions@.skip(0) =~= decisions@);
    while j < decisions.len()
        invariant
            j <= decisions@.len(),
            decision_of(decisions@, id) == decision_of(decisions@.skip(j as int), id),
        decreases decisions.len() - j,
    {
        assert(decisions@.skip(j as int)[0] == decisions@[j as int]);
        assert(decisions@.skip(j as int).drop_first() =~= decisions@.skip(j + 1));
        if decisions[j].0 == id {
            return Some(decisions[j].1);
        }
        j = j + 1;
    }
    None
}

fn canonical_for(choice: Option<WizardChoice>) -> (r: Option<u128>)
    ensures
        r == canonical_of(choice),
{
    match choice {
        Some(WizardChoice::UseCandidate(c)) => Some(c),
        Some(WizardChoice::Advanced { canonical, .. }) => Some(canonical),
        _ => None,
    }
}

fn contains_id(ids: &Vec<u128>, id: u128) -> (r: bool)
    ensures
        r == ids@.contains(id),
{
    let mut i: usize = 0;
    while i < ids.len()
        invariant
            i <= ids@.len(),
            forall|k: int| 0 <= k < i ==> ids@[k] != id,
        decreases ids.len() - i,
    {
        if ids[i] == id {
            return true;
        }
        i = i + 1;
    }
    false
}

/// The elements of `v` in reverse order, `v` left empty.
fn drain_reversed<T>(v: &mut Vec<T>) -> (r: Vec<T>)
    ensures
        r@ == old(v)@.reverse(),
        final(v)@.len() == 0,
{
    let mut r: Vec<T> = Vec::new();
    let ghost orig = v@;
    while v.len() > 0
        invariant
            orig.len() == v@.len() + r@.len(),
            v@ == orig.take(v@.len() as int),
            r@ == orig.skip(v@.len() as int).reverse(),
        decreases v.len(),
    {
        let ghost n = v@.len();
        let x = v.pop().unwrap();
        r.push(x);
        assert(orig.take(n - 1) =~= v@);
        assert(r@ =~= orig.skip(n - 1).reverse());
    }
    assert(orig.skip(0) =~= orig);
    r
}

fn keep_booths<B>(booths: Vec<BoothRecord<B>>, decisions: &Vec<(u128, WizardChoice)>) -> (r: Vec<
    BoothRecord<B>,
>)
    ensures
        r@ == kept_booths(booths@, decisions@),
{
    let ghost orig = booths@;
    let mut booths = booths;
    let mut rev = drain_reversed(&mut booths);
    let mut out: Vec<BoothRecord<B>> = Vec::new();
    while rev.len() > 0
        invariant
            rev@ == orig.skip(orig.len() - rev@.len()).reverse(),
            rev@.len() <= orig.len(),
            out@ == kept_booths(orig.take(orig.len() - rev@.len()), decisions@),
        decreases rev.len(),
    {
        let ghost i = orig.len() - rev@.len();
        let b = rev.pop().unwrap();
        assert(b == orig[i]);
        assert(orig.take(i + 1).drop_last() =~= orig.take(i));
        assert(orig.skip(i + 1).reverse() =~= rev@);
        let d = decision_for(decisions, b.id);
        if d == Some(WizardChoice::Skip) {
        } else {
            match canonical_for(d) {
                Some(c) => out.push(BoothRecord { id: c, data: b.data }),
                None => out.push(b),
            }
        }
    }
    assert(orig.take(orig.len() as int) =~= orig);
    out
}

fn keep_records<R>(
    records: Vec<OwnedRecord<R>>,
    ids: &Vec<u128>,
    decisions: &Vec<(u128, WizardChoice)>,
) -> (r: Vec<OwnedRecord<R>>)
    ensures
        r@ == kept_records(records@, ids@, decisions@),
{
    let ghost orig = records@;
    let mut records = records;
    let mut rev = drain_reversed(&mut records);
    let mut out: Vec<OwnedRecord<R>> = Vec::new();
    while rev.len() > 0
        invariant
            rev@ == orig.skip(orig.len() - rev@.len()).reverse(),
            rev@.len() <= orig.len(),
            out@ == kept_records(orig.take(orig.len() - rev@.len()), ids@, decisions@),
        decreases rev.len(),
    {
        let ghost i = orig.len() - rev@.len();
        let r = rev.pop().unwrap();
        assert(r == orig[i]);
        assert(orig.take(i + 1).drop_last() =~= orig.take(i));
        assert(orig.skip(i + 1).reverse() =~= rev@);
        let d = decision_for(decisions, r.booth_id);
        let known = contains_id(ids, r.booth_id);
        if known && d == Some(WizardChoice::Skip) {
        } else if known && canonical_for(d).is_some() {
            let c = canonical_for(d).unwrap();
            out.push(OwnedRecord { booth_id: c, data: r.data });
        } else {
            out.push(r);
        }
    }
    assert(orig.take(orig.len() as int) =~= orig);
    out
}

fn move_records<R>(records: Vec<OwnedRecord<R>>, old_id: u128, new_id: u128) -> (r: Vec<
    OwnedRecord<R>,
>)
    ensures
        r@ == moved_records(records@, old_id, new_id),
{
    let ghost orig = records@;
    let mut records = records;
    let mut rev = drain_reversed(&mut records);
    let mut out: Vec<OwnedRecord<R>> = Vec::new();
    while rev.len() > 0
        invariant
            rev@ == orig.skip(orig.len() - rev@.len()).reverse(),
            rev@.len() <= orig.len(),
            out@ == moved_records(orig.take(orig.len() - rev@.len()), old_id, new_id),
        decreases rev.len(),
    {
        let ghost i = orig.len() - rev@.len();
        let r = rev.pop().unwrap();
        assert(r == orig[i]);
        assert(orig.skip(i + 1).reverse() =~= rev@);
        if r.booth_id == old_id {
            out.push(OwnedRecord { booth_id: new_id, data: r.data });
        } else {
            out.push(r);
        }
        assert(out@ =~= moved_records(orig.take(i + 1), old_id, new_id));
    }
    assert(orig.take(orig.len() as int) =~= orig);
    out
}

fn ids_of<B>(booths: &Vec<BoothRecord<B>>) -> (r: Vec<u128>)
    ensures
        r@ == booth_ids(booths@),
{
    let mut r: Vec<u128> = Vec::new();
    let mut i: usize = 0;
    while i < booths.len()
        invariant
            i <= booths@.len(),
            r@ == booth_ids(booths@.take(i as int)),
        decreases booths.len() - i,
    {
        r.push(booths[i].id);
        i = i + 1;
        assert(r@ =~= booth_ids(booths@.take(i as int)));
    }
    assert(booths@.take(booths.len() as int) =~= booths@);
    r
}

/// Whether the decisions leave nothing of a payload to import: a one-booth
/// backup whose booth is decided `Skip`.
pub open spec fn skips_payload<B, V, P, M>(
    payload: ImportPayload<B, V, P, M>,
    decisions: Seq<(u128, WizardChoice)>,
) -> bool {
    decisions.len() > 0 && (payload matches ImportPayload::Booth(data) && is_skip(
        decision_of(decisions, data.booth.id),
    ))
}

/// Whether `out` is `payload` with `decisions` applied: unchanged when there
/// are none; nothing when a one-booth backup is skipped; else, for a backup of
/// everything, the kept booths and records; for a one-booth backup, its
/// records moved along when its booth goes to another booth. The rest of the
/// backup is carried along.
pub open spec fn applied_to<B, V, P, M>(
    out: Option<ImportPayload<B, V, P, M>>,
    payload: ImportPayload<B, V, P, M>,
    decisions: Seq<(u128, WizardChoice)>,
) -> bool {
    &&& decisions.len() == 0 ==> out == Some(payload)
    &&& skips_payload(payload, decisions) ==> out is None
    &&& decisions.len() > 0 && !skips_payload(payload, decisions) ==> match payload {
        ImportPayload::Full(data) => out matches Some(ImportPayload::Full(o)) && o.booths@
            == kept_booths(data.booths@, decisions) && o.vendors@ == kept_records(
            data.vendors@,
            booth_ids(data.booths@),
            decisions,
        ) && o.purchases@ == kept_records(data.purchases@, booth_ids(data.booths@), decisions)
            && o.other == data.other,
        ImportPayload::Booth(data) => out matches Some(ImportPayload::Booth(o)) && match canonical_of(
            decision_of(decisions, data.booth.id),
        ) {
            Some(c) => o.booth.id == c && o.booth.data == data.booth.data && o.vendors@
                == moved_records(data.vendors@, data.booth.id, c) && o.purchases@
                == moved_records(data.purchases@, data.booth.id, c) && o.other == data.other,
            None => o == data,
        },
    }
}

/// Applies the wizard's decisions to a payload:
/// - a booth decided `Skip` is left out together with its vendors and purchases;
///   a one-booth backup so decided leaves nothing to import (`None`);
/// - a booth decided `UseCandidate` or `Advanced` takes the canonical id, and
///   its vendors and purchases follow it;
/// - other booths, and everything when there are no decisions, stay as they are.
pub fn apply_wizard_decisions_to_payload<B, V, P, M>(
    payload: ImportPayload<B, V, P, M>,
    decisions: &Vec<(u128, WizardChoice)>,
) -> (r: Option<ImportPayload<B, V, P, M>>)
    ensures
        applied_to(r, payload, decisions@),
{
    if decisions.len() == 0 {
        return Some(payload);
    }
    match payload {
        ImportPayload::Full(data) => {
            let ids = ids_of(&data.booths);
            let FullBackup { booths, vendors, purchases, other } = data;
            let booths = keep_booths(booths, decisions);
            let vendors = keep_records(vendors, &ids, decisions);
            let purchases = keep_records(purchases, &ids, decisions);
            Some(ImportPayload::Full(FullBackup { booths, vendors, purchases, other }))
        },
        ImportPayload::Booth(data) => {
            let d = decision_for(decisions, data.booth.id);
            if d == Some(WizardChoice::Skip) {
                return None;
            }
            match canonical_for(d) {
                Some(c) => {
                    let BoothBackup { booth, vendors, purchases, other } = data;
                    let old_id = booth.id;
                    let vendors = move_records(vendors, old_id, c);
                    let purchases = move_records(purchases, old_id, c);
                    Some(
                        ImportPayload::Booth(
                            BoothBackup {
                                booth: BoothRecord { id: c, data: booth.data },
                                vendors,
                                purchases,
                                other,
                            },
                        ),
                    )
                },
                None => Some(ImportPayload::Booth(data)),
            }
        },
    }
}

/// The id a kept booth of the backup ends up with.
pub open spec fn target_id(decisions: Seq<(u128, WizardChoice)>, id: u128) -> u128 {
    match canonical_of(decision_of(decisions, id)) {
        Some(c) => c,
        None => id,
    }
}

proof fn lemma_kept_booth_ids<B>(booths: Seq<BoothRecord<B>>, decisions: Seq<(u128, WizardChoice)>, id: u128)
    requires
        booth_ids(booths).contains(id),
        !is_skip(decision_of(decisions, id)),
    ensures
        booth_ids(kept_booths(booths, decisions)).contains(target_id(decisions, id)),
    decreases booths.len(),
{
    let last = booths.last();
    let init = booths.drop_last();
    let before = kept_booths(init, decisions);
    let kept = kept_booths(booths, decisions);
    if last.id == id {
        let d = decision_of(decisions, id);
        let pushed = match canonical_of(d) {
            Some(c) => BoothRecord { id: c, data: last.data },
            None => last,
        };
        assert(kept == before.push(pushed));
        assert(booth_ids(kept)[before.len() as int] == target_id(decisions, id));
    } else {
        let k = choose|k: int| 0 <= k < booths.len() && booth_ids(booths)[k] == id;
        assert(k < init.len());
        assert(booth_ids(init)[k] == id);
        lemma_kept_booth_ids(init, decisions, id);
        let j = choose|j: int| 0 <= j < before.len() && booth_ids(before)[j] == target_id(decisions, id);
        if is_skip(decision_of(decisions, last.id)) {
            assert(kept == before);
        } else {
            let pushed = match canonical_of(decision_of(decisions, last.id)) {
                Some(c) => BoothRecord { id: c, data: last.data },
                None => last,
            };
            assert(kept == before.push(pushed));
            assert(booth_ids(kept)[j] == booth_ids(before)[j]);
        }
    }
}

/// Applying the wizard's decisions to a backup of everything keeps its
/// records pointing at its booths: when every vendor or purchase of the
/// backup belongs to a booth of the backup, every record kept belongs to a
/// booth kept.
pub proof fn lemma_kept_records_point_to_kept_booths<B, R>(
    booths: Seq<BoothRecord<B>>,
    records: Seq<OwnedRecord<R>>,
    decisions: Seq<(u128, WizardChoice)>,
)
    requires
        forall|k: int| 0 <= k < records.len() ==> booth_ids(booths).contains(#[trigger] records[k].booth_id),
    ensures
        forall|k: int|
            0 <= k < kept_records(records, booth_ids(booths), decisions).len() ==> booth_ids(
                kept_booths(booths, decisions),
            ).contains(#[trigger] kept_records(records, booth_ids(booths), decisions)[k].booth_id),
    decreases records.len(),
{
    let ids = booth_ids(booths);
    let kept = kept_records(records, ids, decisions);
    if records.len() > 0 {
        let init = records.drop_last();
        assert forall|k: int| 0 <= k < init.len() implies ids.contains(#[trigger] init[k].booth_id) by {
            assert(init[k] == records[k]);
        }
        lemma_kept_records_point_to_kept_booths(booths, init, decisions);
        let before = kept_records(init, ids, decisions);
        let r = records.last();
        assert(ids.contains(records[records.len() - 1].booth_id));
        let d = decision_of(decisions, r.booth_id);
        if !is_skip(d) {
            lemma_kept_booth_ids(booths, decisions, r.booth_id);
        }
        assert forall|k: int| 0 <= k < kept.len() implies booth_ids(kept_booths(booths, decisions)).contains(
            #[trigger] kept[k].booth_id,
        ) by {
            if k < before.len() {
                assert(kept[k] == before[k]);
            } else {
                assert(kept[k].booth_id == target_id(decisions, r.booth_id));
            }
        }
    }
}

/// In a one-booth backup whose vendors and purchases all belong to its booth,
/// they still all belong to its booth once the decisions are applied, under
/// whatever id the booth then has, unless the booth is skipped and nothing is
/// left.
pub proof fn lemma_booth_backup_records_follow_booth<B, V, P, M>(
    out: Option<ImportPayload<B, V, P, M>>,
    data: BoothBackup<B, V, P, M>,
    decisions: Seq<(u128, WizardChoice)>,
)
    requires
        applied_to(out, ImportPayload::Booth(data), decisions),
        forall|k: int| 0 <= k < data.vendors@.len() ==> (#[trigger] data.vendors@[k]).booth_id == data.booth.id,
        forall|k: int| 0 <= k < data.purchases@.len() ==> (#[trigger] data.purchases@[k]).booth_id == data.booth.id,
    ensures
        out is None <==> skips_payload(ImportPayload::Booth(data), decisions),
        out matches Some(p) ==> (p matches ImportPayload::Booth(o) && (forall|k: int|
            0 <= k < o.vendors@.len() ==> (#[trigger] o.vendors@[k]).booth_id == o.booth.id) && (forall|k: int|
            0 <= k < o.purchases@.len() ==> (#[trigger] o.purchases@[k]).booth_id == o.booth.id)),
{
    if decisions.len() > 0 && !skips_payload(ImportPayload::Booth(data), decisions) {
        let d = decision_of(decisions, data.booth.id);
        match canonical_of(d) {
            Some(c) => {
                let o = out->0->Booth_0;
                assert forall|k: int| 0 <= k < o.vendors@.len() implies (#[trigger] o.vendors@[k]).booth_id == o.booth.id by {
                    assert(o.vendors@[k] == moved_records(data.vendors@, data.booth.id, c)[k]);
                    assert(data.vendors@[k].booth_id == data.booth.id);
                }
                assert forall|k: int| 0 <= k < o.purchases@.len() implies (#[trigger] o.purchases@[k]).booth_id == o.booth.id by {
                    assert(o.purchases@[k] == moved_records(data.purchases@, data.booth.id, c)[k]);
                    assert(data.purchases@[k].booth_id == data.booth.id);
                }
            },
            None => {},
        }
    }
}

/// A booth the operator made no decision for, or decided to import as new.
pub open spec fn undecided(decisions: Seq<(u128, WizardChoice)>, id: u128) -> bool {
    decision_of(decisions, id) is None || decision_of(decisions, id) == Some(WizardChoice::ImportAsNew)
}

proof fn lemma_kept_booths_prefix<B>(booths: Seq<BoothRecord<B>>, decisions: Seq<(u128, WizardChoice)>, j: int)
    requires
        0 <= j <= booths.len(),
    ensures
        kept_booths(booths.take(j), decisions).len() <= kept_booths(booths, decisions).len(),
        forall|m: int|
            0 <= m < kept_booths(booths.take(j), decisions).len() ==> #[trigger] kept_booths(
                booths,
                decisions,
            )[m] == kept_booths(booths.take(j), decisions)[m],
    decreases booths.len(),
{
    if j == booths.len() {
        assert(booths.take(j) =~= booths);
    } else {
        let init = booths.drop_last();
        assert(booths.take(j) =~= init.take(j));
        lemma_kept_booths_prefix(init, decisions, j);
    }
}

proof fn lemma_kept_records_prefix<R>(
    records: Seq<OwnedRecord<R>>,
    ids: Seq<u128>,
    decisions: Seq<(u128, WizardChoice)>,
    j: int,
)
    requires
        0 <= j <= records.len(),
    ensures
        kept_records(records.take(j), ids, decisions).len() <= kept_records(records, ids, decisions).len(),
        forall|m: int|
            0 <= m < kept_records(records.take(j), ids, decisions).len() ==> #[trigger] kept_records(
                records,
                ids,
                decisions,
            )[m] == kept_records(records.take(j), ids, decisions)[m],
    decreases records.len(),
{
    if j == records.len() {
        assert(records.take(j) =~= records);
    } else {
        let init = records.drop_last();
        assert(records.take(j) =~= init.take(j));
        lemma_kept_records_prefix(init, ids, decisions, j);
    }
}

/// A booth of a backup of everything without a decision (or decided "import
/// as new") is kept as it is, after the booths kept before it; its vendors
/// and purchases are kept as they are, after the records kept before them.
pub proof fn lemma_undecided_booths_stay<B, R>(
    booths: Seq<BoothRecord<B>>,
    records: Seq<OwnedRecord<R>>,
    decisions: Seq<(u128, WizardChoice)>,
    i: int,
    k: int,
)
    requires
        0 <= i < booths.len(),
        undecided(decisions, booths[i].id),
        0 <= k < records.len(),
        undecided(decisions, records[k].booth_id),
    ensures
        kept_booths(booths.take(i), decisions).len() < kept_booths(booths, decisions).len(),
        kept_booths(booths, decisions)[kept_booths(booths.take(i), decisions).len() as int] == booths[i],
        kept_records(records.take(k), booth_ids(booths), decisions).len() < kept_records(
            records,
            booth_ids(booths),
            decisions,
        ).len(),
        kept_records(records, booth_ids(booths), decisions)[kept_records(
            records.take(k),
            booth_ids(booths),
            decisions,
        ).len() as int] == records[k],
{
    let ids = booth_ids(booths);
    let pb = booths.take(i + 1);
    assert(pb.drop_last() =~= booths.take(i));
    assert(pb.last() == booths[i]);
    assert(kept_booths(pb, decisions) == kept_booths(booths.take(i), decisions).push(booths[i]));
    lemma_kept_booths_prefix(booths, decisions, i + 1);
    let pr = records.take(k + 1);
    assert(pr.drop_last() =~= records.take(k));
    assert(pr.last() == records[k]);
    assert(kept_records(pr, ids, decisions) == kept_records(records.take(k), ids, decisions).push(
        records[k],
    ));
    lemma_kept_records_prefix(records, ids, decisions, k + 1);
    assert(kept_booths(booths, decisions)[kept_booths(booths.take(i), decisions).len() as int]
        == kept_booths(pb, decisions)[kept_booths(booths.take(i), decisions).len() as int]);
    assert(kept_records(records, ids, decisions)[kept_records(records.take(k), ids, decisions).len() as int]
        == kept_records(pr, ids, decisions)[kept_records(records.take(k), ids, decisions).len() as int]);
}

/// Applying decisions keeps the kind of a backup, and a one-booth backup
/// whose booth has no decision (or is imported as new) stays as it is.
pub proof fn lemma_payload_kind_kept<B, V, P, M>(
    out: Option<ImportPayload<B, V, P, M>>,
    payload: ImportPayload<B, V, P, M>,
    decisions: Seq<(u128, WizardChoice)>,
)
    requires
        applied_to(out, payload, decisions),
    ensures
        payload is Full ==> (out matches Some(p) && p is Full),
        payload is Booth ==> (out is None || (out matches Some(p) && p is Booth)),
        payload matches ImportPayload::Booth(data) && undecided(decisions, data.booth.id) ==> out
            == Some(payload),
{
}
} // verus!
