//! The routing store: which records are taken in, which are shown, and which
//! have had their time.
use vstd::prelude::*;
use vstd::string::*;
use crate::text;
use crate::text_map::TextMap;

verus! {

/// How long a provider is remembered where nothing else is said, in seconds.
pub const DEFAULT_PROVIDER_SECS: u64 = 86400;

/// Why the store refused.
#[derive(Debug, Clone, Copy, PartialEq, Eq, Structural)]
pub enum StoreError {
    ValueTooLarge,
    MaxProvidedKeys,
}

/// The key of a record.
#[derive(Debug)]
pub struct DhtRecordKey(pub Vec<u8>);

impl DhtRecordKey {
    pub fn new(key: Vec<u8>) -> (k: Self)
        ensures
            k.0 == key,
    {
        DhtRecordKey(key)
    }

    pub fn as_bytes(&self) -> (b: &[u8])
        ensures
            b@ == self.0@,
    {
        self.0.as_slice()
    }
}

/// What is known of a stored record.
#[derive(Debug, Clone, Copy, PartialEq, Eq, Structural)]
pub enum RecordState {
    /// It cannot be decoded.
    Corrupt,
    Expired,
    Live,
}

/// A row of the table of records. `kind` names the kind of payload.
#[derive(Debug)]
pub struct RecordRow {
    pub key: Vec<u8>,
    pub state: RecordState,
    pub kind: String,
}

/// A provider of a record.
#[derive(Debug)]
pub struct ProviderEntry {
    pub network_id: String,
    pub expiration: u64,
    pub expired: bool,
}

/// A row of the table of providers; none where it cannot be decoded.
#[derive(Debug)]
pub struct ProviderRow {
    pub key: Vec<u8>,
    pub providers: Option<Vec<ProviderEntry>>,
}

/// A row of the table of providers that is written anew.
#[derive(Debug)]
pub struct ProviderUpdate {
    pub key: Vec<u8>,
    pub providers: Vec<ProviderEntry>,
}

/// What a pruning changes.
#[derive(Debug)]
pub struct PrunePlan {
    pub delete_records: Vec<Vec<u8>>,
    pub delete_providers: Vec<Vec<u8>>,
    pub update_providers: Vec<ProviderUpdate>,
    pub pruned_count: usize,
}

/// What decoding a record's value showed.
#[derive(Debug, Clone, Copy, PartialEq, Eq, Structural)]
pub enum ValueCheck {
    Undecodable,
    /// It is, or is not, signed by the owner that the key names.
    Decoded { owned: bool },
}

/// What becomes of a key's provider set after a provider was taken out of it.
#[derive(Debug)]
pub enum SetChange {
    /// The provider was not in it.
    Unchanged,
    /// Nothing is left: the key goes.
    Delete,
    /// The set is stored in this encoded form.
    Store(Vec<u8>),
}

/// A point in time, relative to now, in seconds.
#[derive(Debug, Clone, Copy, PartialEq, Eq, Structural)]
pub enum InstantShift {
    Ahead(u64),
    Behind(u64),
}

/// The text that lossy decoding makes of bytes.
pub uninterp spec fn utf8_lossy(bytes: Seq<u8>) -> Seq<char>;

/// `String::from_utf8_lossy`: a function of the bytes alone. Valid UTF-8 is
/// decoded as it stands; what is no UTF-8 is replaced.
#[verifier::external_body]
fn lossy_text(bytes: &[u8]) -> (s: String)
    ensures
        s@ == utf8_lossy(bytes@),
        vstd::utf8::valid_utf8(bytes@) ==> s@ == vstd::utf8::decode_utf8(bytes@),
{
    String::from_utf8_lossy(bytes).into_owned()
}

/// The owner that the text of a record key names: all that stands before the
/// first colon.
pub fn owner_of(key_text: &str) -> (owner: String)
    ensures
        owner@ == text::part_before(key_text@, ':'),
{
    let owner = text::take_until(key_text, 0, ':');
    assert(key_text@.subrange(0, key_text@.len() as int) =~= key_text@);
    owner
}

/// The owner that a record key names.
pub fn owner_prefix(key: &[u8]) -> (owner: String)
    ensures
        owner@ == text::part_before(utf8_lossy(key@), ':'),
        vstd::utf8::valid_utf8(key@) ==> owner@ == text::part_before(
            vstd::utf8::decode_utf8(key@),
            ':',
        ),
{
    let key_text = lossy_text(key);
    owner_of(key_text.as_str())
}

/// The keys of the rows that go: expired ones, and those that cannot be decoded.
pub open spec fn dead_records(rows: Seq<RecordRow>) -> Seq<Vec<u8>>
    decreases rows.len(),
{
    if rows.len() == 0 {
        Seq::empty()
    } else {
        let front = dead_records(rows.drop_last());
        if rows.last().state == RecordState::Live {
            front
        } else {
            front.push(rows.last().key)
        }
    }
}

/// The providers that stay, in their order.
pub open spec fn retained(providers: Seq<ProviderEntry>) -> Seq<ProviderEntry>
    decreases providers.len(),
{
    if providers.len() == 0 {
        Seq::empty()
    } else {
        let front = retained(providers.drop_last());
        if providers.last().expired {
            front
        } else {
            front.push(providers.last())
        }
    }
}

/// No provider of the row stays, or it cannot be decoded.
pub open spec fn is_dead_row(row: ProviderRow) -> bool {
    match row.providers {
        None => true,
        Some(list) => retained(list@).len() == 0,
    }
}

/// Some providers of the row stay, and some go.
pub open spec fn is_thinned_row(row: ProviderRow) -> bool {
    match row.providers {
        None => false,
        Some(list) => 0 < retained(list@).len() < list@.len(),
    }
}

/// The keys of the rows of which no provider stays.
pub open spec fn dead_providers(rows: Seq<ProviderRow>) -> Seq<Vec<u8>>
    decreases rows.len(),
{
    if rows.len() == 0 {
        Seq::empty()
    } else {
        let front = dead_providers(rows.drop_last());
        if is_dead_row(rows.last()) {
            front.push(rows.last().key)
        } else {
            front
        }
    }
}

/// The rows that are written anew, with the providers that stay.
pub open spec fn thinned_providers(rows: Seq<ProviderRow>) -> Seq<(Vec<u8>, Seq<ProviderEntry>)>
    decreases rows.len(),
{
    if rows.len() == 0 {
        Seq::empty()
    } else {
        let front = thinned_providers(rows.drop_last());
        if is_thinned_row(rows.last()) {
            front.push((rows.last().key, retained(rows.last().providers->0@)))
        } else {
            front
        }
    }
}

/// The updates as plain values.
pub open spec fn updates(list: Seq<ProviderUpdate>) -> Seq<(Vec<u8>, Seq<ProviderEntry>)> {
    list.map_values(|u: ProviderUpdate| (u.key, u.providers@))
}

/// No provider that stays has expired, and none that has not expired goes.
pub proof fn law_retained_are_the_live(providers: Seq<ProviderEntry>, p: ProviderEntry)
    ensures
        retained(providers).contains(p) <==> providers.contains(p) && !p.expired,
        retained(providers).len() <= providers.len(),
    decreases providers.len(),
{
    if providers.len() > 0 {
        law_retained_are_the_live(providers.drop_last(), p);
        let front = providers.drop_last();
        let last = providers.last();
        assert(providers =~= front.push(last));
        assert(providers.contains(p) <==> front.contains(p) || p == last) by {
            if providers.contains(p) {
                let i = providers.index_of(p);
                if i < front.len() {
                    assert(front[i] == p);
                }
            }
            if front.contains(p) {
                let i = front.index_of(p);
                assert(providers[i] == p);
            }
            assert(providers[providers.len() - 1] == last);
        }
        if !last.expired {
            let kept = retained(front);
            assert(kept.push(last).contains(p) <==> kept.contains(p) || p == last) by {
                assert(kept.push(last)[kept.len() as int] == last);
                if kept.contains(p) {
                    let i = kept.index_of(p);
                    assert(kept.push(last)[i] == p);
                }
                if kept.push(last).contains(p) {
                    let i = kept.push(last).index_of(p);
                    if i < kept.len() {
                        assert(kept[i] == p);
                    }
                }
            }
        }
    }
}

/// The records that go are all that are not live, and the providers that stay are all
/// that have not expired, both in their order.
pub proof fn law_pruning_goes_by_expiry_alone(
    rows: Seq<RecordRow>,
    providers: Seq<ProviderEntry>,
)
    ensures
        dead_records(rows) == rows.filter(|r: RecordRow| r.state != RecordState::Live).map_values(
            |r: RecordRow| r.key,
        ),
        retained(providers) == providers.filter(|p: ProviderEntry| !p.expired),
    decreases rows.len() + providers.len(),
{
    let dead = |r: RecordRow| r.state != RecordState::Live;
    let key = |r: RecordRow| r.key;
    reveal(Seq::filter);
    if rows.len() > 0 {
        law_pruning_goes_by_expiry_alone(rows.drop_last(), providers);
        let front = rows.drop_last().filter(dead);
        if dead(rows.last()) {
            assert(front.push(rows.last()).map_values(key) =~= front.map_values(key).push(
                rows.last().key,
            ));
        }
    } else {
        assert(rows.filter(dead).map_values(key) =~= Seq::<Vec<u8>>::empty());
    }
    if providers.len() > 0 {
        law_pruning_goes_by_expiry_alone(rows, providers.drop_last());
    }
}

/// A row of providers goes exactly where none of them is live, and is written anew
/// exactly where some are and some are not.
pub proof fn law_rows_go_with_their_last_provider(row: ProviderRow)
    ensures
        is_dead_row(row) <==> (row.providers is None || forall|i: int|
            0 <= i < row.providers->0@.len() ==> (#[trigger] row.providers->0@[i]).expired),
        is_thinned_row(row) <==> (row.providers is Some && (exists|i: int|
            0 <= i < row.providers->0@.len() && !(#[trigger] row.providers->0@[i]).expired) && (
        exists|i: int|
            0 <= i < row.providers->0@.len() && (#[trigger] row.providers->0@[i]).expired)),
{
    if row.providers is Some {
        let list = row.providers->0@;
        let kept = retained(list);
        lemma_retained_live(list);
        if kept.len() > 0 {
            law_retained_are_the_live(list, kept[0]);
            assert(kept.contains(kept[0]));
            let i = list.index_of(kept[0]);
            assert(!list[i].expired);
        }
        assert forall|i: int| 0 <= i < list.len() && !(#[trigger] list[i]).expired implies kept.len()
            > 0 by {
            law_retained_are_the_live(list, list[i]);
            assert(list.contains(list[i]));
        }
        lemma_retained_len(list);
    }
}

proof fn lemma_retained_len(providers: Seq<ProviderEntry>)
    ensures
        retained(providers).len() <= providers.len(),
        retained(providers).len() < providers.len() <==> exists|i: int|
            0 <= i < providers.len() && (#[trigger] providers[i]).expired,
    decreases providers.len(),
{
    if providers.len() > 0 {
        let front = providers.drop_last();
        lemma_retained_len(front);
        if providers.last().expired {
            assert(providers[providers.len() - 1].expired);
        }
        if exists|i: int| 0 <= i < front.len() && (#[trigger] front[i]).expired {
            let i = choose|i: int| 0 <= i < front.len() && (#[trigger] front[i]).expired;
            assert(providers[i].expired);
        }
        if exists|i: int| 0 <= i < providers.len() && (#[trigger] providers[i]).expired {
            let i = choose|i: int| 0 <= i < providers.len() && (#[trigger] providers[i]).expired;
            if i < front.len() {
                assert(front[i].expired);
            }
        }
    }
}

/// Every row without a live provider is deleted, every one that lost some is written
/// anew with the live ones, and no other row is touched.
pub proof fn law_every_row_is_pruned(rows: Seq<ProviderRow>)
    ensures
        dead_providers(rows) == rows.filter(|r: ProviderRow| is_dead_row(r)).map_values(
            |r: ProviderRow| r.key,
        ),
        thinned_providers(rows) == rows.filter(|r: ProviderRow| is_thinned_row(r)).map_values(
            |r: ProviderRow| (r.key, r.providers->0@.filter(|p: ProviderEntry| !p.expired)),
        ),
    decreases rows.len(),
{
    let dead = |r: ProviderRow| is_dead_row(r);
    let thin = |r: ProviderRow| is_thinned_row(r);
    let key = |r: ProviderRow| r.key;
    let live = |r: ProviderRow|
        (r.key, r.providers->0@.filter(|p: ProviderEntry| !p.expired));
    reveal(Seq::filter);
    if rows.len() > 0 {
        law_every_row_is_pruned(rows.drop_last());
        let last = rows.last();
        let a = rows.drop_last().filter(dead);
        let b = rows.drop_last().filter(thin);
        if dead(last) {
            assert(a.push(last).map_values(key) =~= a.map_values(key).push(last.key));
        }
        if thin(last) {
            law_pruning_goes_by_expiry_alone(Seq::empty(), last.providers->0@);
            assert(b.push(last).map_values(live) =~= b.map_values(live).push(live(last)));
        }
    } else {
        assert(rows.filter(dead).map_values(key) =~= Seq::<Vec<u8>>::empty());
        assert(rows.filter(thin).map_values(live) =~= Seq::<
            (Vec<u8>, Seq<ProviderEntry>),
        >::empty());
    }
}

/// The rows that a pruning leaves in the table of records, in their order.
pub open spec fn live_records(rows: Seq<RecordRow>) -> Seq<RecordRow>
    decreases rows.len(),
{
    if rows.len() == 0 {
        Seq::empty()
    } else {
        let front = live_records(rows.drop_last());
        if rows.last().state == RecordState::Live {
            front.push(rows.last())
        } else {
            front
        }
    }
}

/// A row of the table of providers as plain values.
pub open spec fn row_model(row: ProviderRow) -> (Vec<u8>, Option<Seq<ProviderEntry>>) {
    (
        row.key,
        match row.providers {
            Some(list) => Some(list@),
            None => None,
        },
    )
}

/// The rows that a pruning leaves in the table of providers, each with the
/// providers that stay, in their order.
pub open spec fn surviving(rows: Seq<ProviderRow>) -> Seq<(Vec<u8>, Option<Seq<ProviderEntry>>)>
    decreases rows.len(),
{
    if rows.len() == 0 {
        Seq::empty()
    } else {
        let front = surviving(rows.drop_last());
        if is_dead_row(rows.last()) {
            front
        } else {
            front.push((rows.last().key, Some(retained(rows.last().providers->0@))))
        }
    }
}

proof fn lemma_retained_live(providers: Seq<ProviderEntry>)
    ensures
        forall|i: int| 0 <= i < retained(providers).len() ==> !(#[trigger] retained(
            providers,
        )[i]).expired,
    decreases providers.len(),
{
    if providers.len() > 0 {
        lemma_retained_live(providers.drop_last());
        let front = retained(providers.drop_last());
        assert forall|i: int| 0 <= i < retained(providers).len() implies !(#[trigger] retained(
            providers,
        )[i]).expired by {
            if i < front.len() {
                assert(retained(providers)[i] == front[i]);
            }
        }
    }
}

proof fn lemma_live_are_retained(providers: Seq<ProviderEntry>)
    requires
        forall|i: int| 0 <= i < providers.len() ==> !(#[trigger] providers[i]).expired,
    ensures
        retained(providers) == providers,
    decreases providers.len(),
{
    if providers.len() > 0 {
        assert(!providers[providers.len() - 1].expired);
        lemma_live_are_retained(providers.drop_last());
        assert(providers =~= providers.drop_last().push(providers.last()));
    }
}

proof fn lemma_live_records(rows: Seq<RecordRow>)
    ensures
        forall|i: int| 0 <= i < live_records(rows).len() ==> (#[trigger] live_records(
            rows,
        )[i]).state == RecordState::Live,
        live_records(rows).len() + dead_records(rows).len() == rows.len(),
    decreases rows.len(),
{
    if rows.len() > 0 {
        lemma_live_records(rows.drop_last());
    }
}

proof fn lemma_nothing_to_prune(rows: Seq<RecordRow>)
    requires
        forall|i: int| 0 <= i < rows.len() ==> (#[trigger] rows[i]).state == RecordState::Live,
    ensures
        dead_records(rows).len() == 0,
        live_records(rows) == rows,
    decreases rows.len(),
{
    if rows.len() > 0 {
        assert(rows[rows.len() - 1].state == RecordState::Live);
        lemma_nothing_to_prune(rows.drop_last());
        assert(rows =~= rows.drop_last().push(rows.last()));
    }
}

/// The row holds providers, all of which stay.
pub open spec fn is_settled(model: (Vec<u8>, Option<Seq<ProviderEntry>>)) -> bool {
    model.1 matches Some(list) && list.len() > 0 && retained(list) == list
}

proof fn lemma_surviving(rows: Seq<ProviderRow>)
    ensures
        forall|i: int| 0 <= i < surviving(rows).len() ==> is_settled(#[trigger] surviving(rows)[i]),
        surviving(rows).len() + dead_providers(rows).len() == rows.len(),
    decreases rows.len(),
{
    if rows.len() > 0 {
        lemma_surviving(rows.drop_last());
        if !is_dead_row(rows.last()) {
            let kept = retained(rows.last().providers->0@);
            lemma_retained_live(rows.last().providers->0@);
            lemma_live_are_retained(kept);
        }
    }
}

proof fn lemma_settled(rows: Seq<ProviderRow>)
    requires
        forall|i: int| 0 <= i < rows.len() ==> is_settled(row_model(#[trigger] rows[i])),
    ensures
        dead_providers(rows).len() == 0,
        thinned_providers(rows).len() == 0,
        surviving(rows) == rows.map_values(|r: ProviderRow| row_model(r)),
    decreases rows.len(),
{
    let f = |r: ProviderRow| row_model(r);
    if rows.len() > 0 {
        assert(is_settled(row_model(rows[rows.len() - 1])));
        lemma_settled(rows.drop_last());
        assert(rows.map_values(f) =~= rows.drop_last().map_values(f).push(row_model(rows.last())));
    } else {
        assert(rows.map_values(f) =~= Seq::<(Vec<u8>, Option<Seq<ProviderEntry>>)>::empty());
    }
}

/// A pruning is complete: every row either goes or stays, and a second pruning of
/// what the first left, with expiry judged at the same time, deletes nothing and
/// changes nothing.
pub proof fn law_second_prune_changes_nothing(
    records: Seq<RecordRow>,
    providers: Seq<ProviderRow>,
    records_after: Seq<RecordRow>,
    providers_after: Seq<ProviderRow>,
)
    requires
        records_after == live_records(records),
        providers_after.map_values(|r: ProviderRow| row_model(r)) == surviving(providers),
    ensures
        records_after.len() + dead_records(records).len() == records.len(),
        providers_after.len() + dead_providers(providers).len() == providers.len(),
        dead_records(records_after).len() == 0,
        dead_providers(providers_after).len() == 0,
        thinned_providers(providers_after).len() == 0,
        live_records(records_after) == records_after,
        surviving(providers_after) == surviving(providers),
{
    lemma_live_records(records);
    lemma_nothing_to_prune(records_after);
    lemma_surviving(providers);
    let models = providers_after.map_values(|r: ProviderRow| row_model(r));
    assert forall|i: int| 0 <= i < providers_after.len() implies is_settled(
        row_model(#[trigger] providers_after[i]),
    ) by {
        assert(models[i] == surviving(providers)[i]);
    }
    lemma_settled(providers_after);
}

fn retain_live(providers: Vec<ProviderEntry>) -> (kept: Vec<ProviderEntry>)
    ensures
        kept@ == retained(providers@),
        kept@.len() <= providers@.len(),
{
    let ghost all = providers@;
    let mut rest = providers;
    let mut kept: Vec<ProviderEntry> = Vec::new();
    let mut done: usize = 0;
    let total: usize = rest.len();
    assert(all.subrange(0, 0) =~= Seq::<ProviderEntry>::empty());
    while rest.len() > 0
        invariant
            done + rest@.len() == all.len(),
            all.len() == total,
            rest@ == all.subrange(done as int, all.len() as int),
            kept@ == retained(all.subrange(0, done as int)),
            kept@.len() <= done,
        decreases rest@.len(),
    {
        let entry = rest.remove(0);
        proof {
            let longer = all.subrange(0, done + 1);
            assert(longer.drop_last() =~= all.subrange(0, done as int));
            assert(longer.last() == entry);
            assert(rest@ =~= all.subrange(done + 1, all.len() as int));
        }
        if !entry.expired {
            kept.push(entry);
        }
        done += 1;
    }
    assert(all.subrange(0, done as int) =~= all);
    kept
}

fn prune_records(rows: Vec<RecordRow>) -> (keys: Vec<Vec<u8>>)
    ensures
        keys@ == dead_records(rows@),
        keys@.len() <= rows@.len(),
{
    let ghost all = rows@;
    let mut rest = rows;
    let mut keys: Vec<Vec<u8>> = Vec::new();
    let mut done: usize = 0;
    let total: usize = rest.len();
    assert(all.subrange(0, 0) =~= Seq::<RecordRow>::empty());
    while rest.len() > 0
        invariant
            done + rest@.len() == all.len(),
            all.len() == total,
            rest@ == all.subrange(done as int, all.len() as int),
            keys@ == dead_records(all.subrange(0, done as int)),
            keys@.len() <= done,
        decreases rest@.len(),
    {
        let row = rest.remove(0);
        proof {
            let longer = all.subrange(0, done + 1);
            assert(longer.drop_last() =~= all.subrange(0, done as int));
            assert(longer.last() == row);
            assert(rest@ =~= all.subrange(done + 1, all.len() as int));
        }
        match row.state {
            RecordState::Live => {},
            _ => {
                keys.push(row.key);
            },
        }
        done += 1;
    }
    assert(all.subrange(0, done as int) =~= all);
    keys
}

/// The routing store, as far as it decides.
pub struct RedbStore {
    pub local_peer_id: String,
}

impl RedbStore {
    /// The cryptographic gate: a record has a value, which can be decoded and is
    /// signed by the owner that its key names.
    pub fn verify_record_signature(value: &[u8], check: ValueCheck) -> (ok: bool)
        ensures
            ok == (value@.len() > 0 && check == (ValueCheck::Decoded { owned: true })),
    {
        if value.len() == 0 {
            return false;
        }
        match check {
            ValueCheck::Undecodable => false,
            ValueCheck::Decoded { owned } => owned,
        }
    }

    /// `result` is the answer to a record.
    pub open spec fn is_put(
        value: Seq<u8>,
        check: ValueCheck,
        result: Result<(), StoreError>,
    ) -> bool {
        result == if value.len() > 0 && check == (ValueCheck::Decoded { owned: true }) {
            Ok::<(), StoreError>(())
        } else {
            Err(StoreError::ValueTooLarge)
        }
    }

    /// Every record that has a value signed by its owner is taken in, of whatever length,
    /// and no other is.
    pub proof fn law_owned_records_are_taken_in(
        value: Seq<u8>,
        check: ValueCheck,
        result: Result<(), StoreError>,
    )
        requires
            Self::is_put(value, check, result),
        ensures
            value.len() > 0 && (check matches ValueCheck::Decoded { owned } && owned)
                ==> result is Ok,
            value.len() == 0 ==> result is Err,
            check is Undecodable ==> result is Err,
            check matches ValueCheck::Decoded { owned } ==> !owned ==> result is Err,
    {
    }

    /// Whether a record is taken in.
    pub fn put(value: &[u8], check: ValueCheck) -> (result: Result<(), StoreError>)
        ensures
            Self::is_put(value@, check, result),
    {
        if Self::verify_record_signature(value, check) {
            Ok(())
        } else {
            Err(StoreError::ValueTooLarge)
        }
    }

    /// Whether a stored record is shown.
    pub fn is_visible(state: RecordState) -> (b: bool)
        ensures
            b == (state == RecordState::Live),
    {
        match state {
            RecordState::Live => true,
            _ => false,
        }
    }

    /// `plan` is the pruning of both tables.
    pub open spec fn is_prune_plan(
        records: Seq<RecordRow>,
        providers: Seq<ProviderRow>,
        plan: PrunePlan,
    ) -> bool {
        &&& plan.delete_records@ == dead_records(records)
        &&& plan.delete_providers@ == dead_providers(providers)
        &&& updates(plan.update_providers@) == thinned_providers(providers)
        &&& plan.pruned_count == plan.delete_records@.len() + plan.delete_providers@.len()
    }

    /// A pruning deletes the records that are not live and the rows that have no live
    /// provider, each once and no other, and counts them all.
    pub proof fn law_a_pruning_is_exact(
        records: Seq<RecordRow>,
        providers: Seq<ProviderRow>,
        plan: PrunePlan,
    )
        requires
            Self::is_prune_plan(records, providers, plan),
        ensures
            plan.delete_records@ == records.filter(
                |r: RecordRow| r.state != RecordState::Live,
            ).map_values(|r: RecordRow| r.key),
            plan.delete_providers@ == providers.filter(
                |r: ProviderRow| is_dead_row(r),
            ).map_values(|r: ProviderRow| r.key),
            updates(plan.update_providers@) == providers.filter(
                |r: ProviderRow| is_thinned_row(r),
            ).map_values(
                |r: ProviderRow| (r.key, r.providers->0@.filter(|p: ProviderEntry| !p.expired)),
            ),
            plan.pruned_count == records.filter(
                |r: RecordRow| r.state != RecordState::Live,
            ).len() + providers.filter(|r: ProviderRow| is_dead_row(r)).len(),
    {
        law_pruning_goes_by_expiry_alone(records, Seq::empty());
        law_every_row_is_pruned(providers);
    }

    /// What a pruning of both tables changes, and how many keys it deletes.
    pub fn prune_expired_blocking(records: Vec<RecordRow>, providers: Vec<ProviderRow>) -> (plan: PrunePlan)
        requires
            records@.len() + providers@.len() <= usize::MAX,
        ensures
            Self::is_prune_plan(records@, providers@, plan),
    {
        let ghost all = providers@;
        let delete_records = prune_records(records);
        let mut rest = providers;
        let mut delete_providers: Vec<Vec<u8>> = Vec::new();
        let mut update_providers: Vec<ProviderUpdate> = Vec::new();
        let mut done: usize = 0;
        let total: usize = rest.len();
        assert(all.subrange(0, 0) =~= Seq::<ProviderRow>::empty());
        assert(updates(update_providers@) =~= Seq::<(Vec<u8>, Seq<ProviderEntry>)>::empty());
        while rest.len() > 0
            invariant
                done + rest@.len() == all.len(),
                all.len() == total,
                rest@ == all.subrange(done as int, all.len() as int),
                delete_providers@ == dead_providers(all.subrange(0, done as int)),
                delete_providers@.len() <= done,
                updates(update_providers@) == thinned_providers(all.subrange(0, done as int)),
            decreases rest@.len(),
        {
            let row = rest.remove(0);
            let ghost before = update_providers@;
            proof {
                let longer = all.subrange(0, done + 1);
                assert(longer.drop_last() =~= all.subrange(0, done as int));
                assert(longer.last() == row);
                assert(rest@ =~= all.subrange(done + 1, all.len() as int));
            }
            let ProviderRow { key, providers: set } = row;
            match set {
                None => {
                    delete_providers.push(key);
                },
                Some(list) => {
                    let count: usize = list.len();
                    let kept = retain_live(list);
                    if kept.len() == 0 {
                        delete_providers.push(key);
                    } else if kept.len() < count {
                        update_providers.push(ProviderUpdate { key, providers: kept });
                        assert(updates(update_providers@) =~= updates(before).push(
                            (key, kept@),
                        ));
                    }
                },
            }
            done += 1;
        }
        assert(all.subrange(0, done as int) =~= all);
        let pruned_count: usize = delete_records.len() + delete_providers.len();
        PrunePlan { delete_records, delete_providers, update_providers, pruned_count }
    }

    /// The number of live records of a kind.
    pub open spec fn live_count(rows: Seq<RecordRow>, kind: Seq<char>) -> nat
        decreases rows.len(),
    {
        if rows.len() == 0 {
            0
        } else {
            let rest = Self::live_count(rows.drop_last(), kind);
            if rows.last().state == RecordState::Live && rows.last().kind@ == kind {
                rest + 1
            } else {
                rest
            }
        }
    }

    proof fn lemma_live_count_bound(rows: Seq<RecordRow>, kind: Seq<char>)
        ensures
            Self::live_count(rows, kind) <= rows.len(),
        decreases rows.len(),
    {
        if rows.len() > 0 {
            Self::lemma_live_count_bound(rows.drop_last(), kind);
        }
    }

    /// Every live record of a kind counts, each once, and no other does.
    pub proof fn law_every_live_record_counts(rows: Seq<RecordRow>, kind: Seq<char>)
        ensures
            Self::live_count(rows, kind) == rows.filter(
                |r: RecordRow| r.state == RecordState::Live && r.kind@ == kind,
            ).len(),
        decreases rows.len(),
    {
        reveal(Seq::filter);
        if rows.len() > 0 {
            Self::law_every_live_record_counts(rows.drop_last(), kind);
        }
    }

    /// Counts the live records by kind. A kind without any is not listed.
    pub fn get_storage_metrics(rows: &Vec<RecordRow>) -> (metrics: TextMap<usize>)
        ensures
            metrics.wf(),
            forall|kind: Seq<char>| #[trigger]
                metrics@.dom().contains(kind) <==> Self::live_count(rows@, kind) > 0,
            forall|kind: Seq<char>| #[trigger]
                metrics@.dom().contains(kind) ==> metrics@[kind] == Self::live_count(rows@, kind),
    {
        let mut metrics: TextMap<usize> = TextMap::new();
        let mut i: usize = 0;
        assert(rows@.subrange(0, 0) =~= Seq::<RecordRow>::empty());
        while i < rows.len()
            invariant
                i <= rows@.len(),
                metrics.wf(),
                forall|kind: Seq<char>| #[trigger]
                    metrics@.dom().contains(kind) <==> Self::live_count(
                        rows@.subrange(0, i as int),
                        kind,
                    ) > 0,
                forall|kind: Seq<char>| #[trigger]
                    metrics@.dom().contains(kind) ==> metrics@[kind] == Self::live_count(
                        rows@.subrange(0, i as int),
                        kind,
                    ),
            decreases rows@.len() - i,
        {
            let ghost seen = rows@.subrange(0, i as int);
            proof {
                let longer = rows@.subrange(0, i + 1);
                assert(longer.drop_last() =~= seen);
                assert(longer.last() == rows@[i as int]);
                Self::lemma_live_count_bound(seen, rows@[i as int].kind@);
            }
            match rows[i].state {
                RecordState::Live => {
                    let kind = rows[i].kind.clone();
                    let count: usize = match metrics.get(&kind) {
                        Some(n) => *n,
                        None => 0,
                    };
                    assert(count == Self::live_count(seen, kind@));
                    metrics.insert(kind, count + 1);
                },
                _ => {},
            }
            i += 1;
        }
        assert(rows@.subrange(0, i as int) =~= rows@);
        metrics
    }

    /// A provider record of this node is beyond doubt; others are weighed by their
    /// reputation.
    pub fn is_self(&self, provider: &String) -> (b: bool)
        ensures
            b == (provider@ == self.local_peer_id@),
    {
        *provider == self.local_peer_id
    }

    /// How long a provider is remembered, given the time that is left to it.
    pub fn provider_lifetime(remaining_secs: Option<u64>) -> (secs: u64)
        ensures
            secs == match remaining_secs {
                Some(s) => s,
                None => DEFAULT_PROVIDER_SECS,
            },
    {
        match remaining_secs {
            Some(s) => s,
            None => DEFAULT_PROVIDER_SECS,
        }
    }

    /// The answer to a provider that was, or was not, worth a place.
    pub fn add_provider(inserted: bool) -> (result: Result<(), StoreError>)
        ensures
            result == if inserted {
                Ok::<(), StoreError>(())
            } else {
                Err(StoreError::MaxProvidedKeys)
            },
    {
        if inserted {
            Ok(())
        } else {
            Err(StoreError::MaxProvidedKeys)
        }
    }

    /// `change` is what follows an attempt to take a provider out of a set.
    pub open spec fn is_change(removed: bool, rest: Vec<u8>, change: SetChange) -> bool {
        change == if !removed {
            SetChange::Unchanged
        } else if rest@.len() == 0 {
            SetChange::Delete
        } else {
            SetChange::Store(rest)
        }
    }

    /// A set that lost a provider is stored as it is then, or goes where nothing is left
    /// of it; one that lost none is not written.
    pub proof fn law_sets_follow_their_providers(removed: bool, rest: Vec<u8>, change: SetChange)
        requires
            Self::is_change(removed, rest, change),
        ensures
            change is Unchanged <==> !removed,
            change is Delete <==> removed && rest@.len() == 0,
            change matches SetChange::Store(stored) ==> stored == rest && rest@.len() > 0,
    {
    }

    /// Decides what is written after an attempt to take a provider out of a set,
    /// given whether it was there and the encoded rest of the set.
    pub fn remove_provider(removed: bool, rest: Vec<u8>) -> (change: SetChange)
        ensures
            Self::is_change(removed, rest, change),
    {
        if !removed {
            SetChange::Unchanged
        } else if rest.len() == 0 {
            SetChange::Delete
        } else {
            SetChange::Store(rest)
        }
    }

    /// `shift` leads from now to the target.
    pub open spec fn is_shift(target_unix: u64, now_unix: u64, shift: InstantShift) -> bool {
        shift == if target_unix > now_unix {
            InstantShift::Ahead((target_unix - now_unix) as u64)
        } else {
            InstantShift::Behind((now_unix - target_unix) as u64)
        }
    }

    /// From now the shift leads to the target, on either side of it.
    pub proof fn law_shifts_lead_to_their_target(
        target_unix: u64,
        now_unix: u64,
        shift: InstantShift,
    )
        requires
            Self::is_shift(target_unix, now_unix, shift),
        ensures
            shift matches InstantShift::Ahead(secs) ==> now_unix + secs == target_unix && secs > 0,
            shift matches InstantShift::Behind(secs) ==> target_unix + secs == now_unix,
    {
    }

    /// Where a time stands relative to now.
    pub fn unix_to_instant(target_unix: u64, now_unix: u64) -> (shift: InstantShift)
        ensures
            Self::is_shift(target_unix, now_unix, shift),
    {
        if target_unix > now_unix {
            InstantShift::Ahead(target_unix - now_unix)
        } else {
            InstantShift::Behind(now_unix - target_unix)
        }
    }
}

} // verus!
