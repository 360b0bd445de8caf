//! The full resync: page through the community's members with a cursor,
//! keep those that hold the target role, and write them in batches.
//!
//! The directory and the database are reached by the caller; this module
//! decides which page to ask for next, what a page contributes, when the
//! listing has ended, and how the result is cut into batches.
use vstd::prelude::*;
use crate::event_handler::has_role;
use crate::model::Targets;

verus! {

/// The page size of the member listing.
pub const PAGE_SIZE: u64 = 500;

/// The number of identities written by one insert.
pub const BATCH_SIZE: usize = 4096;

/// A member as the directory lists it.
#[derive(Clone, Debug)]
pub struct Member {
    pub user_id: u64,
    pub roles: Vec<u64>,
}

/// A request for the page of at most `limit` members that follow `after`.
#[derive(PartialEq, Eq, Structural, Clone, Copy, Debug)]
pub struct PageRequest {
    pub after: Option<u64>,
    pub limit: u64,
}

/// The identities, in order, of the members of `members` that hold `role`.
pub open spec fn supporter_ids(members: Seq<Member>, role: u64) -> Seq<u64>
    decreases members.len(),
{
    if members.len() == 0 {
        Seq::<u64>::empty()
    } else {
        let init = supporter_ids(members.drop_last(), role);
        if has_role(members.last().roles@, role) {
            init.push(members.last().user_id)
        } else {
            init
        }
    }
}

pub proof fn lemma_supporter_ids_concat(a: Seq<Member>, b: Seq<Member>, role: u64)
    ensures
        supporter_ids(a + b, role) == supporter_ids(a, role) + supporter_ids(b, role),
    decreases b.len(),
{
    if b.len() == 0 {
        assert(a + b =~= a);
        assert(supporter_ids(a, role) + supporter_ids(b, role) =~= supporter_ids(a, role));
    } else {
        assert((a + b).drop_last() =~= a + b.drop_last());
        lemma_supporter_ids_concat(a, b.drop_last(), role);
        let sa = supporter_ids(a, role);
        let sb = supporter_ids(b.drop_last(), role);
        assert((sa + sb).push(b.last().user_id) =~= sa + sb.push(b.last().user_id));
    }
}

/// Where a scan stands.
pub struct ScanState {
    /// The identity of the last member of the last page, the next cursor.
    pub last_member: Option<u64>,
    /// The supporters found so far, in listing order.
    pub supporters: Seq<u64>,
    /// The pages taken in so far.
    pub pages: nat,
    /// A short page has ended the listing.
    pub done: bool,
}

/// The state of a scan before its first page.
pub open spec fn scan_start() -> ScanState {
    ScanState { last_member: None, supporters: Seq::<u64>::empty(), pages: 0, done: false }
}

/// The state after `page` has been taken in.
pub open spec fn absorb(s: ScanState, page: Seq<Member>, role: u64, limit: nat) -> ScanState {
    ScanState {
        last_member: if page.len() > 0 {
            Some(page.last().user_id)
        } else {
            None
        },
        supporters: s.supporters + supporter_ids(page, role),
        pages: s.pages + 1,
        done: page.len() < limit,
    }
}

/// A scan of the member listing, from the first page to the first short one.
pub struct SupporterScan {
    role_id: u64,
    limit: u64,
    last_member: Option<u64>,
    supporters: Vec<u64>,
    pages: Ghost<nat>,
    done: bool,
}

impl SupporterScan {
    pub closed spec fn view(&self) -> ScanState {
        ScanState {
            last_member: self.last_member,
            supporters: self.supporters@,
            pages: self.pages@,
            done: self.done,
        }
    }

    pub closed spec fn role(&self) -> u64 {
        self.role_id
    }

    pub closed spec fn page_size(&self) -> nat {
        self.limit as nat
    }

    /// A scan for the holders of `role_id`, `limit` members a page.
    pub fn new(role_id: u64, limit: u64) -> (r: SupporterScan)
        requires
            limit > 0,
        ensures
            r@ == scan_start(),
            r.role() == role_id,
            r.page_size() == limit,
    {
        SupporterScan {
            role_id,
            limit,
            last_member: None,
            supporters: Vec::new(),
            pages: Ghost(0),
            done: false,
        }
    }

    /// The page to ask for next, or `None` once the listing has ended.
    pub fn next_request(&self) -> (r: Option<PageRequest>)
        ensures
            r == (if self@.done {
                None
            } else {
                Some(PageRequest { after: self@.last_member, limit: self.page_size() as u64 })
            }),
    {
        if self.done {
            None
        } else {
            Some(PageRequest { after: self.last_member, limit: self.limit })
        }
    }

    /// Takes in one page of the listing.
    pub fn absorb_page(&mut self, page: &Vec<Member>)
        ensures
            final(self)@ == absorb(old(self)@, page@, old(self).role(), old(self).page_size()),
            final(self).role() == old(self).role(),
            final(self).page_size() == old(self).page_size(),
    {
        let ghost start = self.supporters@;
        let mut i: usize = 0;
        while i < page.len()
            invariant
                i <= page.len(),
                self.supporters@ == start + supporter_ids(page@.take(i as int), self.role_id),
                self.role_id == old(self).role_id,
                self.limit == old(self).limit,
                self.pages == old(self).pages,
            decreases page.len() - i,
        {
            assert(page@.take(i + 1).drop_last() =~= page@.take(i as int));
            if contains_role_of(&page[i], self.role_id) {
                self.supporters.push(page[i].user_id);
            }
            assert(start + supporter_ids(page@.take(i + 1), self.role_id) =~= self.supporters@);
            i += 1;
        }
        assert(page@.take(page.len() as int) =~= page@);
        self.last_member = if page.len() > 0 {
            Some(page[page.len() - 1].user_id)
        } else {
            None
        };
        self.pages = Ghost(self.pages@ + 1);
        self.done = (page.len() as u128) < (self.limit as u128);
    }

    /// Whether the listing has ended.
    pub fn is_done(&self) -> (r: bool)
        ensures
            r == self@.done,
    {
        self.done
    }

    /// The supporters found so far.
    pub fn supporters(&self) -> (r: &Vec<u64>)
        ensures
            r@ == self@.supporters,
    {
        &self.supporters
    }
}

fn contains_role_of(m: &Member, role: u64) -> (r: bool)
    ensures
        r == has_role(m.roles@, role),
{
    let mut i: usize = 0;
    while i < m.roles.len()
        invariant
            i <= m.roles.len(),
            forall|j: int| 0 <= j < i ==> m.roles@[j] != role,
        decreases m.roles.len() - i,
    {
        if m.roles[i] == role {
            assert(m.roles@[i as int] == role);
            return true;
        }
        i += 1;
    }
    false
}

/// Starts a full resync for the configured role, `page_size` members a page;
/// `None`, a quiet no-op, while either target identifier is unset.
pub fn refresh_aiode_supporters(targets: &Targets, page_size: u64) -> (r: Option<SupporterScan>)
    requires
        page_size > 0,
    ensures
        r.is_some() == targets.configured(),
        r.is_some() ==> {
            &&& r->0@ == scan_start()
            &&& r->0.role() == targets.role_id->0
            &&& r->0.page_size() == page_size
        },
{
    match (targets.guild_id, targets.role_id) {
        (Some(_), Some(role_id)) => Some(SupporterScan::new(role_id, page_size)),
        _ => None,
    }
}

/// The number of batches of at most `size` that `len` items make.
pub open spec fn batch_count(len: nat, size: nat) -> nat
    recommends
        size > 0,
{
    ((len + size - 1) as nat / size) as nat
}

/// The `k`-th batch of at most `size` of `ids`.
pub open spec fn batch_at(ids: Seq<u64>, size: nat, k: int) -> Seq<u64> {
    let end = if (k + 1) * size <= ids.len() {
        (k + 1) * size
    } else {
        ids.len() as int
    };
    ids.subrange(k * size, end)
}

proof fn lemma_batch_count_step(n: nat, size: nat, end: nat)
    requires
        size > 0,
        n * size < end <= (n + 1) * size,
    ensures
        batch_count(end, size) == n + 1,
{
    let q: int = end + size - 1;
    let rem: int = q - (n + 1) * size;
    assert((n + 1) * size == n * size + size) by (nonlinear_arith);
    assert(0 <= rem < size);
    vstd::arithmetic::div_mod::lemma_fundamental_div_mod_converse(q, size as int, (n + 1) as int, rem);
}

/// Cuts `ids` into consecutive batches of `size`; only the last may be
/// shorter, and none is empty.
pub fn batches(ids: &Vec<u64>, size: usize) -> (r: Vec<Vec<u64>>)
    requires
        size > 0,
    ensures
        r.len() == batch_count(ids.len() as nat, size as nat),
        forall|k: int| 0 <= k < r.len() ==> r[k]@ == batch_at(ids@, size as nat, k),
{
    let mut r: Vec<Vec<u64>> = Vec::new();
    let mut start: usize = 0;
    proof {
        assert(0 * size == 0);
        vstd::arithmetic::div_mod::lemma_fundamental_div_mod_converse(size - 1, size as int, 0, size - 1);
    }
    while start < ids.len()
        invariant
            size > 0,
            start <= ids.len(),
            start == r.len() * size,
            r.len() == batch_count(start as nat, size as nat),
            forall|k: int| 0 <= k < r.len() ==> r[k]@ == batch_at(ids@, size as nat, k),
        decreases ids.len() - start,
    {
        let end: usize = if ids.len() - start > size {
            start + size
        } else {
            ids.len()
        };
        let mut chunk: Vec<u64> = Vec::new();
        let mut j: usize = start;
        while j < end
            invariant
                start <= j <= end <= ids.len(),
                chunk@ == ids@.subrange(start as int, j as int),
            decreases end - j,
        {
            chunk.push(ids[j]);
            assert(chunk@ =~= ids@.subrange(start as int, j + 1));
            j += 1;
        }
        let ghost n = r.len();
        proof {
            assert((n + 1) * size == n * size + size) by (nonlinear_arith);
            lemma_batch_count_step(n as nat, size as nat, end as nat);
        }
        assert(chunk@ == batch_at(ids@, size as nat, n as int));
        r.push(chunk);
        if end < ids.len() {
            start = end;
        } else {
            proof {
                assert forall|k: int| 0 <= k < r.len() implies r[k]@ == batch_at(ids@, size as nat, k) by {}
            }
            return r;
        }
    }
    r
}

/// The batches of `ids`, in order.
pub open spec fn batches_of(ids: Seq<u64>, size: nat) -> Seq<Seq<u64>> {
    Seq::new(batch_count(ids.len(), size), |k: int| batch_at(ids, size, k))
}

/// The identities of the first `k` batches, in order.
pub open spec fn committed_ids(batches: Seq<Seq<u64>>, k: nat) -> Seq<u64>
    decreases k,
{
    if k == 0 || batches.len() == 0 {
        Seq::<u64>::empty()
    } else if k > batches.len() {
        committed_ids(batches, batches.len())
    } else {
        committed_ids(batches, (k - 1) as nat) + batches[k - 1]
    }
}

/// How far the writing of a resync's batches has come.
pub struct InsertState {
    pub batches: Seq<Seq<u64>>,
    /// The batches written so far, a prefix of `batches`.
    pub committed: nat,
    /// The rows that the written batches added, as the database reported.
    pub inserted: nat,
    /// A write failed, and the remaining batches are abandoned.
    pub failed: bool,
}

/// The writing of a resync's supporters, one batch after another, stopping
/// at the first failure. Written batches stay written.
pub struct BatchInsert {
    batches: Vec<Vec<u64>>,
    next: usize,
    inserted: u64,
    failed: bool,
}

impl BatchInsert {
    pub closed spec fn view(&self) -> InsertState {
        InsertState {
            batches: self.batches@.map_values(|b: Vec<u64>| b@),
            committed: self.next as nat,
            inserted: self.inserted as nat,
            failed: self.failed,
        }
    }

    pub closed spec fn wf(&self) -> bool {
        self.next <= self.batches.len()
    }

    /// The writing of `ids` in batches of `size`.
    pub fn new(ids: &Vec<u64>, size: usize) -> (r: BatchInsert)
        requires
            size > 0,
        ensures
            r.wf(),
            r@.batches == batches_of(ids@, size as nat),
            r@.committed == 0,
            r@.inserted == 0,
            !r@.failed,
    {
        let b = batches(ids, size);
        let r = BatchInsert { batches: b, next: 0, inserted: 0, failed: false };
        assert(r@.batches =~= batches_of(ids@, size as nat));
        r
    }

    /// The batch to write next: none after a failure or once all are
    /// written.
    pub fn next_batch(&self) -> (r: Option<&Vec<u64>>)
        requires
            self.wf(),
        ensures
            r.is_some() == (!self@.failed && self@.committed < self@.batches.len()),
            r.is_some() ==> r->0@ == self@.batches[self@.committed as int],
    {
        if !self.failed && self.next < self.batches.len() {
            Some(&self.batches[self.next])
        } else {
            None
        }
    }

    /// The next batch was written and added `rows` rows. The count of added
    /// rows saturates at the largest `u64`.
    pub fn on_committed(&mut self, rows: u64)
        requires
            old(self).wf(),
            !old(self)@.failed,
            old(self)@.committed < old(self)@.batches.len(),
        ensures
            final(self).wf(),
            final(self)@.batches == old(self)@.batches,
            final(self)@.committed == old(self)@.committed + 1,
            final(self)@.inserted == if old(self)@.inserted + rows > u64::MAX {
                u64::MAX as nat
            } else {
                (old(self)@.inserted + rows) as nat
            },
            !final(self)@.failed,
    {
        self.next = self.next + 1;
        self.inserted = self.inserted.saturating_add(rows);
    }

    /// The next batch could not be written: the rest are abandoned.
    pub fn on_failed(&mut self)
        requires
            old(self).wf(),
        ensures
            final(self).wf(),
            final(self)@.batches == old(self)@.batches,
            final(self)@.committed == old(self)@.committed,
            final(self)@.inserted == old(self)@.inserted,
            final(self)@.failed,
    {
        self.failed = true;
    }

    /// The number of batches written.
    pub fn committed(&self) -> (r: usize)
        ensures
            r == self@.committed,
    {
        self.next
    }

    /// The rows that the written batches added.
    pub fn inserted(&self) -> (r: u64)
        ensures
            r == self@.inserted,
    {
        self.inserted
    }
}

/// The page of at most `limit` members that a directory listing `dir` in
/// order serves from position `start`.
pub open spec fn served_page(dir: Seq<Member>, start: int, limit: nat) -> Seq<Member> {
    let end = if start + limit <= dir.len() {
        start + limit
    } else {
        dir.len() as int
    };
    dir.subrange(start, end)
}

/// The members that a listing `dir` holds after the cursor `after`: all of
/// them without a cursor.
pub open spec fn members_after(dir: Seq<Member>, after: Option<u64>) -> Seq<Member> {
    match after {
        Some(a) => dir.filter(|m: Member| m.user_id > a),
        None => dir,
    }
}

/// The page of at most `limit` members that a listing `dir` serves for the
/// cursor `after`.
pub open spec fn directory_page(dir: Seq<Member>, after: Option<u64>, limit: nat) -> Seq<Member> {
    let rest = members_after(dir, after);
    rest.take(
        if limit <= rest.len() {
            limit as int
        } else {
            rest.len() as int
        },
    )
}

/// A scan from `s` against the listing `dir`, each page asked for with the
/// scan's cursor, until a short page ends it. `start` counts the members
/// served so far; it bounds the recursion.
pub open spec fn scan_from(s: ScanState, dir: Seq<Member>, start: int, role: u64, limit: nat) -> ScanState
    decreases dir.len() - start,
{
    if limit == 0 || start < 0 || start > dir.len() || s.done {
        s
    } else {
        let next = absorb(s, directory_page(dir, s.last_member, limit), role, limit);
        if next.done || start + limit > dir.len() {
            next
        } else {
            scan_from(next, dir, start + limit, role, limit)
        }
    }
}

/// The members of `dir` are listed by strictly increasing identity.
pub open spec fn ascending(dir: Seq<Member>) -> bool {
    forall|i: int, j: int| 0 <= i < j < dir.len() ==> dir[i].user_id < dir[j].user_id
}

proof fn lemma_filter_after(dir: Seq<Member>, a: u64, i: int)
    requires
        0 <= i <= dir.len(),
        forall|j: int| 0 <= j < dir.len() ==> (j < i <==> #[trigger] dir[j].user_id <= a),
    ensures
        dir.filter(|m: Member| m.user_id > a) == dir.skip(i),
    decreases dir.len(),
{
    reveal_with_fuel(Seq::filter, 1);
    if dir.len() == 0 {
        assert(dir.skip(i) =~= dir);
    } else {
        let d = dir.drop_last();
        let last_index = dir.len() - 1;
        assert(dir[last_index] == dir.last());
        if i == dir.len() {
            assert forall|j: int| 0 <= j < d.len() implies (j < last_index <==> #[trigger] d[j].user_id <= a) by {
                assert(d[j] == dir[j]);
            }
            lemma_filter_after(d, a, last_index);
            assert(d.skip(last_index) =~= dir.skip(i));
        } else {
            assert forall|j: int| 0 <= j < d.len() implies (j < i <==> #[trigger] d[j].user_id <= a) by {
                assert(d[j] == dir[j]);
            }
            lemma_filter_after(d, a, i);
            assert(d.skip(i).push(dir.last()) =~= dir.skip(i));
        }
    }
}

/// The cursor of a scan that has been served the first `start` members.
pub open spec fn cursor_at(dir: Seq<Member>, start: int) -> Option<u64> {
    if start == 0 {
        None
    } else {
        Some(dir[start - 1].user_id)
    }
}

proof fn lemma_cursor_page(dir: Seq<Member>, start: int, limit: nat)
    requires
        ascending(dir),
        0 <= start <= dir.len(),
    ensures
        directory_page(dir, cursor_at(dir, start), limit) == served_page(dir, start, limit),
{
    if start == 0 {
        assert(members_after(dir, None) == dir);
    } else {
        let a = dir[start - 1].user_id;
        assert forall|j: int| 0 <= j < dir.len() implies (j < start <==> #[trigger] dir[j].user_id <= a) by {
            if j < start - 1 {
                assert(dir[j].user_id < dir[start - 1].user_id);
            } else if j > start - 1 {
                assert(dir[start - 1].user_id < dir[j].user_id);
            }
        }
        lemma_filter_after(dir, a, start);
    }
    let rest = members_after(dir, cursor_at(dir, start));
    assert(rest == dir.skip(start));
    let n = if limit <= rest.len() {
        limit as int
    } else {
        rest.len() as int
    };
    assert(rest.take(n) =~= served_page(dir, start, limit));
}

proof fn lemma_scan_from(s: ScanState, dir: Seq<Member>, start: int, role: u64, limit: nat)
    requires
        limit > 0,
        0 <= start <= dir.len(),
        start % (limit as int) == 0,
        s.pages == start / (limit as int),
        s.supporters == supporter_ids(dir.take(start), role),
        s.last_member == cursor_at(dir, start),
        ascending(dir),
        !s.done,
    ensures
        scan_from(s, dir, start, role, limit).done,
        scan_from(s, dir, start, role, limit).supporters == supporter_ids(dir, role),
        scan_from(s, dir, start, role, limit).pages == (dir.len() as int) / (limit as int) + 1,
    decreases dir.len() - start,
{
    let l = limit as int;
    let page = served_page(dir, start, limit);
    lemma_cursor_page(dir, start, limit);
    let next = absorb(s, page, role, limit);
    let end = start + page.len();
    assert(dir.take(start) + page =~= dir.take(end));
    lemma_supporter_ids_concat(dir.take(start), page, role);
    let q = start / l;
    vstd::arithmetic::div_mod::lemma_fundamental_div_mod(start, l);
    assert(start == l * q);
    if next.done {
        assert(dir.take(end) =~= dir);
        assert(dir.len() == q * l + (dir.len() - start)) by (nonlinear_arith)
            requires
                start == l * q,
        ;
        vstd::arithmetic::div_mod::lemma_fundamental_div_mod_converse(
            dir.len() as int,
            l,
            q,
            dir.len() - start,
        );
    } else {
        assert(start + l == (q + 1) * l + 0) by (nonlinear_arith)
            requires
                start == l * q,
        ;
        vstd::arithmetic::div_mod::lemma_fundamental_div_mod_converse(start + l, l, q + 1, 0);
        assert(page.last() == dir[start + l - 1]);
        lemma_scan_from(next, dir, start + limit, role, limit);
    }
}

proof fn lemma_supporter_ids_ascending(s: Seq<Member>, role: u64)
    requires
        ascending(s),
    ensures
        forall|k: int|
            0 <= k < supporter_ids(s, role).len() ==> exists|i: int|
                0 <= i < s.len() && #[trigger] supporter_ids(s, role)[k] == s[i].user_id,
        forall|a: int, b: int|
            0 <= a < b < supporter_ids(s, role).len() ==> supporter_ids(s, role)[a]
                < supporter_ids(s, role)[b],
    decreases s.len(),
{
    if s.len() > 0 {
        let init = s.drop_last();
        assert(ascending(init));
        lemma_supporter_ids_ascending(init, role);
        let prev = supporter_ids(init, role);
        assert forall|k: int| 0 <= k < prev.len() implies prev[k] < s.last().user_id by {
            let i = choose|i: int| 0 <= i < init.len() && prev[k] == #[trigger] init[i].user_id;
            assert(init[i] == s[i]);
        }
        assert forall|k: int| #![trigger prev[k]] 0 <= k < prev.len() implies exists|i: int|
            0 <= i < s.len() && prev[k] == #[trigger] s[i].user_id by {
            let i = choose|i: int| 0 <= i < init.len() && prev[k] == #[trigger] init[i].user_id;
            assert(init[i] == s[i]);
        }
        assert(s[s.len() - 1] == s.last());
    }
}

/// Pagination is complete: a scan by cursor of a listing of `N` members in
/// increasing order of identity, `P` a page, ends, takes in `N / P + 1`
/// pages (`ceil(N / P)` where `P` does not divide `N`; where it does, one
/// more page, the empty one, ends the listing), and finds exactly the holders
/// of the role, in listing order and none twice.
pub proof fn lemma_pagination_complete(dir: Seq<Member>, role: u64, limit: nat)
    requires
        limit > 0,
        ascending(dir),
    ensures
        scan_from(scan_start(), dir, 0, role, limit).done,
        scan_from(scan_start(), dir, 0, role, limit).supporters == supporter_ids(dir, role),
        scan_from(scan_start(), dir, 0, role, limit).pages == (dir.len() as int) / (limit as int) + 1,
        (dir.len() as int) % (limit as int) != 0 ==> scan_from(scan_start(), dir, 0, role, limit).pages
            == batch_count(dir.len(), limit),
        scan_from(scan_start(), dir, 0, role, limit).supporters.no_duplicates(),
{
    let l = limit as int;
    assert(dir.take(0) =~= Seq::<Member>::empty());
    assert(supporter_ids(dir.take(0), role) =~= Seq::<u64>::empty());
    vstd::arithmetic::div_mod::lemma_fundamental_div_mod_converse(0, l, 0, 0);
    lemma_scan_from(scan_start(), dir, 0, role, limit);
    let n = dir.len() as int;
    if n % l != 0 {
        vstd::arithmetic::div_mod::lemma_fundamental_div_mod(n, l);
        let q = n / l;
        let r = n % l;
        assert(n + l - 1 == (q + 1) * l + (r - 1)) by (nonlinear_arith)
            requires
                n == l * q + r,
        ;
        vstd::arithmetic::div_mod::lemma_fundamental_div_mod_converse(n + l - 1, l, q + 1, r - 1);
    }
    lemma_supporter_ids_ascending(dir, role);
}

/// Written batches stay written: after the first `k` batches of `ids` have
/// been written, whatever happens to the next one, the identities written
/// are exactly the first `k * size` of `ids` (all of them once `k * size`
/// reaches their number).
pub proof fn lemma_partial_commit(ids: Seq<u64>, size: nat, k: nat)
    requires
        size > 0,
        k <= batch_count(ids.len(), size),
    ensures
        committed_ids(batches_of(ids, size), k) == ids.take(
            if k * size <= ids.len() {
                (k * size) as int
            } else {
                ids.len() as int
            },
        ),
    decreases k,
{
    let bs = batches_of(ids, size);
    if k == 0 {
        assert(0 * size == 0);
        assert(ids.take(0) =~= Seq::<u64>::empty());
    } else {
        let j = (k - 1) as nat;
        lemma_partial_commit(ids, size, j);
        let x = (ids.len() + size - 1) as int;
        let q = x / (size as int);
        vstd::arithmetic::div_mod::lemma_fundamental_div_mod(x, size as int);
        assert(j * size < ids.len()) by (nonlinear_arith)
            requires
                j + 1 <= q,
                x == size * q + x % (size as int),
                x % (size as int) < size,
                x == ids.len() + size - 1,
                size > 0,
        ;
        assert(k * size == j * size + size) by (nonlinear_arith)
            requires
                k == j + 1,
        ;
        assert(bs.len() == batch_count(ids.len(), size));
        assert(bs[k - 1] == batch_at(ids, size, j as int));
        let end = if k * size <= ids.len() {
            (k * size) as int
        } else {
            ids.len() as int
        };
        let js = (j * size) as int;
        assert(ids.take(js) + ids.subrange(js, end) =~= ids.take(end));
    }
}

} // verus!
