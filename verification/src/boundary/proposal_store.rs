//! Proposals to change live authority, and the record of every applied
//! change: kept in memory, listed newest first.
use vstd::prelude::*;
use crate::assoc::{lookup, find_key, get_entry, set_entry, key_index, lemma_key_index, lemma_lookup_replace_value};
use crate::authz::evaluator::system_time_secs;
use crate::boundary::control::{
    AuthorityChange, AuthorityView, ChangeView, LiveAuthorityState, Preview, TablesView,
    change_type_name,
};
use crate::sorting::{Ordered, insertion_sort, isort_by, le_of, views_of};
use crate::text::{owned, cat, cat3, decimal, seq_le, str_le, u64_decimal};

verus! {

#[derive(Debug, Clone, Copy, PartialEq, Eq, Structural)]
pub enum ProposalStatus {
    Pending,
    Applied,
    Rejected,
}

impl ProposalStatus {
    pub fn as_str(&self) -> (r: &'static str)
        ensures
            r@ == match *self {
                ProposalStatus::Pending => "pending"@,
                ProposalStatus::Applied => "applied"@,
                ProposalStatus::Rejected => "rejected"@,
            },
    {
        match self {
            ProposalStatus::Pending => "pending",
            ProposalStatus::Applied => "applied",
            ProposalStatus::Rejected => "rejected",
        }
    }
}

/// A stored proposal as listed: its id, the kind of change, its status, and
/// when it was created and applied (seconds since the epoch).
#[derive(Debug, Clone, PartialEq, Eq)]
pub struct ProposalMetadata {
    pub id: String,
    pub change_type: String,
    pub status: ProposalStatus,
    pub created_at: i64,
    pub applied_at: Option<i64>,
}

/// Listed metadata as plain values: id, change type, status, created,
/// applied.
pub type MetadataView = (Seq<char>, Seq<char>, ProposalStatus, i64, Option<i64>);

impl View for ProposalMetadata {
    type V = MetadataView;

    open spec fn view(&self) -> MetadataView {
        (self.id@, self.change_type@, self.status, self.created_at, self.applied_at)
    }
}

/// Oldest first; proposals created in the same second by id.
impl Ordered for ProposalMetadata {
    open spec fn spec_le(a: MetadataView, b: MetadataView) -> bool {
        a.3 < b.3 || (a.3 == b.3 && seq_le(a.0, b.0))
    }

    fn le(&self, other: &Self) -> (r: bool) {
        self.created_at < other.created_at || (self.created_at == other.created_at && str_le(
            self.id.as_str(),
            other.id.as_str(),
        ))
    }
}

/// A proposal as kept: the change, its preview and where it stands.
#[derive(Debug)]
pub struct StoredProposal {
    pub id: String,
    pub change: AuthorityChange,
    pub preview: Preview,
    pub revision: u64,
    pub status: ProposalStatus,
    pub created_at: i64,
    pub applied_at: Option<i64>,
    pub change_id: Option<String>,
    pub rejection_reason: Option<String>,
}

pub open spec fn opt_view(o: Option<String>) -> Option<Seq<char>> {
    match o {
        Some(s) => Some(s@),
        None => None,
    }
}

/// A stored proposal as plain values.
pub struct StoredProposalView {
    pub id: Seq<char>,
    pub change: ChangeView,
    pub before: TablesView,
    pub after: TablesView,
    pub revision: u64,
    pub status: ProposalStatus,
    pub created_at: i64,
    pub applied_at: Option<i64>,
    pub change_id: Option<Seq<char>>,
    pub rejection_reason: Option<Seq<char>>,
}

impl View for StoredProposal {
    type V = StoredProposalView;

    open spec fn view(&self) -> StoredProposalView {
        StoredProposalView {
            id: self.id@,
            change: self.change@,
            before: self.preview.before@,
            after: self.preview.after@,
            revision: self.revision,
            status: self.status,
            created_at: self.created_at,
            applied_at: self.applied_at,
            change_id: opt_view(self.change_id),
            rejection_reason: opt_view(self.rejection_reason),
        }
    }
}

fn copy_opt(o: &Option<String>) -> (r: Option<String>)
    ensures
        r == *o,
{
    match o {
        Some(s) => Some(s.clone()),
        None => None,
    }
}

impl StoredProposal {
    /// An independent copy with the same view.
    pub fn duplicate(&self) -> (r: Self)
        ensures
            r@ == self@,
    {
        StoredProposal {
            id: self.id.clone(),
            change: self.change.clone(),
            preview: self.preview.duplicate(),
            revision: self.revision,
            status: self.status,
            created_at: self.created_at,
            applied_at: self.applied_at,
            change_id: copy_opt(&self.change_id),
            rejection_reason: copy_opt(&self.rejection_reason),
        }
    }
}

/// The record of an applied change: the states before and after it.
#[derive(Debug)]
pub struct ChangeRecord {
    pub change_id: String,
    pub proposal_id: String,
    pub change: AuthorityChange,
    pub previous_state: LiveAuthorityState,
    pub resulting_state: LiveAuthorityState,
    pub applied_at: i64,
    pub applied_by: Option<String>,
    pub reverted_change_id: Option<String>,
}

/// A change record as plain values.
pub struct ChangeRecordView {
    pub change_id: Seq<char>,
    pub proposal_id: Seq<char>,
    pub change: ChangeView,
    pub previous_state: AuthorityView,
    pub resulting_state: AuthorityView,
    pub applied_at: i64,
    pub applied_by: Option<Seq<char>>,
    pub reverted_change_id: Option<Seq<char>>,
}

impl View for ChangeRecord {
    type V = ChangeRecordView;

    open spec fn view(&self) -> ChangeRecordView {
        ChangeRecordView {
            change_id: self.change_id@,
            proposal_id: self.proposal_id@,
            change: self.change@,
            previous_state: self.previous_state@,
            resulting_state: self.resulting_state@,
            applied_at: self.applied_at,
            applied_by: opt_view(self.applied_by),
            reverted_change_id: opt_view(self.reverted_change_id),
        }
    }
}

/// Oldest first; changes applied in the same second by id.
impl Ordered for ChangeRecord {
    open spec fn spec_le(a: ChangeRecordView, b: ChangeRecordView) -> bool {
        a.applied_at < b.applied_at || (a.applied_at == b.applied_at && seq_le(
            a.change_id,
            b.change_id,
        ))
    }

    fn le(&self, other: &Self) -> (r: bool) {
        self.applied_at < other.applied_at || (self.applied_at == other.applied_at && str_le(
            self.change_id.as_str(),
            other.change_id.as_str(),
        ))
    }
}

impl ChangeRecord {
    /// An independent copy with the same view.
    pub fn duplicate(&self) -> (r: Self)
        ensures
            r@ == self@,
    {
        ChangeRecord {
            change_id: self.change_id.clone(),
            proposal_id: self.proposal_id.clone(),
            change: self.change.clone(),
            previous_state: self.previous_state.duplicate(),
            resulting_state: self.resulting_state.duplicate(),
            applied_at: self.applied_at,
            applied_by: copy_opt(&self.applied_by),
            reverted_change_id: copy_opt(&self.reverted_change_id),
        }
    }
}

/// The window of `s` that skipping `offset` items and taking `limit` leaves.
pub open spec fn page<T>(s: Seq<T>, offset: usize, limit: usize) -> Seq<T> {
    let lo = if offset < s.len() {
        offset as int
    } else {
        s.len() as int
    };
    let hi = if offset + limit < s.len() {
        offset + limit
    } else {
        s.len() as int
    };
    s.subrange(lo, hi)
}

/// The items of `v` last to first, then the page `offset..offset + limit`.
fn page_newest_first<T: View>(v: Vec<T>, offset: usize, limit: usize) -> (r: Vec<T>)
    ensures
        views_of(r@) == page(views_of(v@).reverse(), offset, limit),
{
    let ghost all = views_of(v@).reverse();
    let ghost n = v@.len();
    let mut rest = v;
    let total_len = rest.len();
    assert(total_len == n);
    let mut out: Vec<T> = Vec::new();
    let mut j: usize = 0;
    while rest.len() > 0
        invariant
            all.len() == n,
            n <= usize::MAX,
            j + rest@.len() == n,
            forall|k: int| 0 <= k < rest@.len() ==> #[trigger] rest@[k]@ == all[n - 1 - k],
            views_of(out@) == all.subrange(
                if (offset as int) < (j as int) {
                    offset as int
                } else {
                    j as int
                },
                if offset + limit < (j as int) {
                    offset + limit
                } else {
                    j as int
                },
            ),
        decreases rest@.len(),
    {
        let ghost before = out@;
        let ghost before_rest = rest@;
        let x = rest.pop().unwrap();
        proof {
            assert(x@ == all[j as int]);
            assert forall|k: int| 0 <= k < rest@.len() implies #[trigger] rest@[k]@ == all[n - 1
                - k] by {
                assert(rest@[k] == before_rest[k]);
            }
        }
        if j >= offset && j - offset < limit {
            out.push(x);
            proof {
                assert(views_of(out@) =~= views_of(before).push(x@));
            }
        }
        j = j + 1;
    }
    proof {
        assert(j == n);
    }
    out
}

/// The metadata a stored proposal is listed with.
pub open spec fn metadata_view(p: StoredProposal) -> MetadataView {
    (p.id@, change_type_name(p.change@), p.status, p.created_at, p.applied_at)
}

/// `what` (ending in a backquote), the id, and that it was not found.
pub open spec fn not_found(what: Seq<char>, id: Seq<char>) -> Seq<char> {
    what + id + "` was not found"@
}

/// Proposals and change records, kept in memory.
#[derive(Debug)]
pub struct MemoryProposalStore {
    proposals: Vec<(String, StoredProposal)>,
    changes: Vec<(String, ChangeRecord)>,
    next_id: u64,
}

impl MemoryProposalStore {
    /// The stored proposals, by id.
    pub closed spec fn proposals(&self) -> Seq<(String, StoredProposal)> {
        self.proposals@
    }

    /// The change records, by change id.
    pub closed spec fn changes(&self) -> Seq<(String, ChangeRecord)> {
        self.changes@
    }

    /// The number the next allocated proposal id carries.
    pub closed spec fn next_id(&self) -> u64 {
        self.next_id
    }

    /// An empty store whose first proposal id is `proposal-1`.
    pub fn new() -> (r: Self)
        ensures
            r.proposals() == Seq::<(String, StoredProposal)>::empty(),
            r.changes() == Seq::<(String, ChangeRecord)>::empty(),
            r.next_id() == 1,
    {
        MemoryProposalStore { proposals: Vec::new(), changes: Vec::new(), next_id: 1 }
    }

    /// A fresh proposal id, `proposal-` and the next number.
    pub fn allocate_proposal_id(&mut self) -> (r: String)
        requires
            old(self).next_id() < u64::MAX,
        ensures
            r@ == "proposal-"@ + decimal(old(self).next_id() as nat),
            final(self).next_id() == old(self).next_id() + 1,
            final(self).proposals() == old(self).proposals(),
            final(self).changes() == old(self).changes(),
    {
        let digits = u64_decimal(self.next_id);
        self.next_id = self.next_id + 1;
        cat("proposal-", digits.as_str())
    }

    /// Keep a new proposal; one whose id is already kept is refused and the
    /// store left as it was.
    pub fn store_proposal(&mut self, proposal: StoredProposal) -> (r: Result<(), String>)
        ensures
            lookup(old(self).proposals(), proposal.id@) is Some ==> (r matches Err(e) && e@
                == "proposal `"@ + proposal.id@ + "` already exists"@ && final(self).proposals()
                == old(self).proposals()),
            lookup(old(self).proposals(), proposal.id@) is None ==> r is Ok && lookup(
                final(self).proposals(),
                proposal.id@,
            ) == Some(proposal) && forall|k: Seq<char>|
                k != proposal.id@ ==> #[trigger] lookup(final(self).proposals(), k) == lookup(
                    old(self).proposals(),
                    k,
                ),
            final(self).changes() == old(self).changes(),
            final(self).next_id() == old(self).next_id(),
    {
        if find_key(&self.proposals, proposal.id.as_str()).is_some() {
            return Err(cat3("proposal `", proposal.id.as_str(), "` already exists"));
        }
        let key = proposal.id.clone();
        set_entry(&mut self.proposals, key, proposal);
        Ok(())
    }

    /// A copy of the proposal kept under `proposal_id`.
    pub fn retrieve_proposal(&self, proposal_id: &str) -> (r: Result<StoredProposal, String>)
        ensures
            match lookup(self.proposals(), proposal_id@) {
                Some(p) => r matches Ok(q) && q@ == p@,
                None => r matches Err(e) && e@ == not_found("proposal `"@, proposal_id@),
            },
    {
        match get_entry(&self.proposals, proposal_id) {
            Some(p) => Ok(p.duplicate()),
            None => Err(cat3("proposal `", proposal_id, "` was not found")),
        }
    }

    /// The metadata of the kept proposals, newest first (ties by id,
    /// greatest first), the page `offset..offset + limit`.
    pub fn list_proposals(&self, limit: usize, offset: usize) -> (r: Result<Vec<ProposalMetadata>, String>)
        ensures
            r matches Ok(v) && views_of(v@) == page(
                isort_by(
                    self.proposals().map_values(|e: (String, StoredProposal)| metadata_view(e.1)),
                    le_of::<ProposalMetadata>(),
                ).reverse(),
                offset,
                limit,
            ),
    {
        let mut metas: Vec<ProposalMetadata> = Vec::new();
        let mut i: usize = 0;
        while i < self.proposals.len()
            invariant
                i <= self.proposals@.len(),
                views_of(metas@) == self.proposals@.take(i as int).map_values(
                    |e: (String, StoredProposal)| metadata_view(e.1),
                ),
            decreases self.proposals@.len() - i,
        {
            let p = &self.proposals[i].1;
            let m = ProposalMetadata {
                id: p.id.clone(),
                change_type: owned(p.change.change_type()),
                status: p.status,
                created_at: p.created_at,
                applied_at: p.applied_at,
            };
            proof {
                assert(views_of(metas@.push(m)) =~= views_of(metas@).push(m@));
                assert(self.proposals@.take(i + 1).map_values(
                    |e: (String, StoredProposal)| metadata_view(e.1),
                ) =~= self.proposals@.take(i as int).map_values(
                    |e: (String, StoredProposal)| metadata_view(e.1),
                ).push(metadata_view(self.proposals@[i as int].1)));
            }
            metas.push(m);
            i = i + 1;
        }
        assert(self.proposals@.take(i as int) =~= self.proposals@);
        let sorted = insertion_sort(metas);
        Ok(page_newest_first(sorted, offset, limit))
    }

    /// Mark the proposal applied as change `change_id`, at the time the
    /// system clock reads.
    pub fn mark_applied(&mut self, proposal_id: &str, change_id: String, _new_revision: u64) -> (r:
        Result<(), String>)
        ensures
            match lookup(old(self).proposals(), proposal_id@) {
                Some(p) => r is Ok && (lookup(final(self).proposals(), proposal_id@) matches Some(q)
                    && q == (StoredProposal {
                    status: ProposalStatus::Applied,
                    applied_at: q.applied_at,
                    change_id: Some(change_id),
                    ..p
                })),
                None => r matches Err(e) && e@ == not_found("proposal `"@, proposal_id@)
                    && final(self).proposals() == old(self).proposals(),
            },
            forall|k: Seq<char>|
                k != proposal_id@ ==> #[trigger] lookup(final(self).proposals(), k) == lookup(
                    old(self).proposals(),
                    k,
                ),
            final(self).changes() == old(self).changes(),
            final(self).next_id() == old(self).next_id(),
    {
        match find_key(&self.proposals, proposal_id) {
            None => Err(cat3("proposal `", proposal_id, "` was not found")),
            Some(i) => {
                let ghost before = self.proposals@;
                let now = system_time_secs();
                let (key, mut p) = self.proposals.remove(i);
                p.status = ProposalStatus::Applied;
                p.applied_at = now;
                p.change_id = Some(change_id);
                let ghost q = p;
                self.proposals.insert(i, (key, p));
                proof {
                    assert(self.proposals@ =~= before.update(i as int, (before[i as int].0, q)));
                    lemma_key_index(before, proposal_id@);
                    lemma_lookup_replace_value(before, i as int, q);
                }
                Ok(())
            },
        }
    }

    /// Mark the proposal rejected for `reason`.
    pub fn mark_rejected(&mut self, proposal_id: &str, reason: String) -> (r: Result<(), String>)
        ensures
            match lookup(old(self).proposals(), proposal_id@) {
                Some(p) => r is Ok && lookup(final(self).proposals(), proposal_id@) == Some(
                    StoredProposal {
                        status: ProposalStatus::Rejected,
                        rejection_reason: Some(reason),
                        ..p
                    },
                ),
                None => r matches Err(e) && e@ == not_found("proposal `"@, proposal_id@)
                    && final(self).proposals() == old(self).proposals(),
            },
            forall|k: Seq<char>|
                k != proposal_id@ ==> #[trigger] lookup(final(self).proposals(), k) == lookup(
                    old(self).proposals(),
                    k,
                ),
            final(self).changes() == old(self).changes(),
            final(self).next_id() == old(self).next_id(),
    {
        match find_key(&self.proposals, proposal_id) {
            None => Err(cat3("proposal `", proposal_id, "` was not found")),
            Some(i) => {
                let ghost before = self.proposals@;
                let (key, mut p) = self.proposals.remove(i);
                p.status = ProposalStatus::Rejected;
                p.rejection_reason = Some(reason);
                let ghost q = p;
                self.proposals.insert(i, (key, p));
                proof {
                    assert(self.proposals@ =~= before.update(i as int, (before[i as int].0, q)));
                    lemma_key_index(before, proposal_id@);
                    lemma_lookup_replace_value(before, i as int, q);
                }
                Ok(())
            },
        }
    }

    /// Keep a change record, replacing any kept under the same change id.
    pub fn store_change_record(&mut self, record: ChangeRecord) -> (r: Result<(), String>)
        ensures
            r is Ok,
            lookup(final(self).changes(), record.change_id@) == Some(record),
            forall|k: Seq<char>|
                k != record.change_id@ ==> #[trigger] lookup(final(self).changes(), k) == lookup(
                    old(self).changes(),
                    k,
                ),
            final(self).proposals() == old(self).proposals(),
            final(self).next_id() == old(self).next_id(),
    {
        let key = record.change_id.clone();
        set_entry(&mut self.changes, key, record);
        Ok(())
    }

    /// A copy of the change record kept under `change_id`.
    pub fn retrieve_change_record(&self, change_id: &str) -> (r: Result<ChangeRecord, String>)
        ensures
            match lookup(self.changes(), change_id@) {
                Some(c) => r matches Ok(d) && d@ == c@,
                None => r matches Err(e) && e@ == not_found("change `"@, change_id@),
            },
    {
        match get_entry(&self.changes, change_id) {
            Some(c) => Ok(c.duplicate()),
            None => Err(cat3("change `", change_id, "` was not found")),
        }
    }

    /// Copies of the change records, newest first (ties by change id,
    /// greatest first), the page `offset..offset + limit`.
    pub fn list_change_records(&self, limit: usize, offset: usize) -> (r: Result<Vec<ChangeRecord>, String>)
        ensures
            r matches Ok(v) && views_of(v@) == page(
                isort_by(
                    self.changes().map_values(|e: (String, ChangeRecord)| e.1@),
                    le_of::<ChangeRecord>(),
                ).reverse(),
                offset,
                limit,
            ),
    {
        let mut records: Vec<ChangeRecord> = Vec::new();
        let mut i: usize = 0;
        while i < self.changes.len()
            invariant
                i <= self.changes@.len(),
                views_of(records@) == self.changes@.take(i as int).map_values(
                    |e: (String, ChangeRecord)| e.1@,
                ),
            decreases self.changes@.len() - i,
        {
            let c = self.changes[i].1.duplicate();
            proof {
                assert(views_of(records@.push(c)) =~= views_of(records@).push(c@));
                assert(self.changes@.take(i + 1).map_values(|e: (String, ChangeRecord)| e.1@)
                    =~= self.changes@.take(i as int).map_values(|e: (String, ChangeRecord)| e.1@).push(
                    self.changes@[i as int].1@,
                ));
            }
            records.push(c);
            i = i + 1;
        }
        assert(self.changes@.take(i as int) =~= self.changes@);
        let sorted = insertion_sort(records);
        Ok(page_newest_first(sorted, offset, limit))
    }
}

impl Default for MemoryProposalStore {
    fn default() -> (r: Self)
        ensures
            r.proposals() == Seq::<(String, StoredProposal)>::empty(),
            r.changes() == Seq::<(String, ChangeRecord)>::empty(),
            r.next_id() == 1,
    {
        Self::new()
    }
}

} // verus!
