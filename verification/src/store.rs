//! The preference store: at most one record per user.
//!
//! The table of records is modelled as a map from user to sign. A store answers three
//! requests: read the record of a user, write it (insert or replace), and delete it.
//! `MemoryStore` keeps the table in memory; a persistent backend runs the statement of
//! each request and hands back what it got.

use crate::sign::{lemma_named_iff, Sign};
use crate::text::{decimal, decimal_view};
use vstd::prelude::*;

verus! {

/// Why a request to the store failed. A failed request leaves every record as it was.
#[derive(Clone, Copy, Debug, PartialEq, Eq, Structural)]
pub enum StoreFault {
    /// The backend was unreachable, refused the statement, or held a value that is no sign.
    StorageError,
    /// The connection behind the shared handle is gone.
    ConnectionLost,
}

/// One row of the table.
#[derive(Clone, Copy, Debug, PartialEq, Eq, Structural)]
pub struct Record {
    pub user: u64,
    pub sign: Sign,
}

/// What can be asked of the store.
#[derive(Clone, Copy, Debug, PartialEq, Eq, Structural)]
pub enum StoreRequest {
    Fetch { user: u64 },
    Upsert { user: u64, sign: Sign },
    Remove { user: u64 },
}

/// What a backend hands back for one request.
#[derive(Clone, Debug, PartialEq, Eq)]
pub enum StoreOutcome {
    /// The sign column of the rows that a read selected.
    Rows(Vec<String>),
    /// A write or a delete went through.
    Written,
    Failed(StoreFault),
}

/// The mathematical form of a [`StoreOutcome`].
pub enum OutcomeView {
    Rows(Seq<Seq<char>>),
    Written,
    Failed(StoreFault),
}

impl View for StoreOutcome {
    type V = OutcomeView;

    open spec fn view(&self) -> OutcomeView {
        match self {
            StoreOutcome::Rows(rows) => OutcomeView::Rows(rows.deep_view()),
            StoreOutcome::Written => OutcomeView::Written,
            StoreOutcome::Failed(fault) => OutcomeView::Failed(*fault),
        }
    }
}

/// The sign on record for `user`, if any.
pub open spec fn lookup(table: Map<u64, Sign>, user: u64) -> Option<Sign> {
    if table.contains_key(user) {
        Some(table[user])
    } else {
        None
    }
}

/// The table after `request` went through: a read changes nothing, a write leaves exactly
/// one record for its user, a delete leaves none.
pub open spec fn table_after(table: Map<u64, Sign>, request: StoreRequest) -> Map<u64, Sign> {
    match request {
        StoreRequest::Fetch { user } => table,
        StoreRequest::Upsert { user, sign } => table.insert(user, sign),
        StoreRequest::Remove { user } => table.remove(user),
    }
}

/// What a store that holds `table` answers to `request`.
pub open spec fn answer(table: Map<u64, Sign>, request: StoreRequest) -> OutcomeView {
    match request {
        StoreRequest::Fetch { user } => match lookup(table, user) {
            Some(sign) => OutcomeView::Rows(seq![sign.name_view()]),
            None => OutcomeView::Rows(Seq::empty()),
        },
        StoreRequest::Upsert { user, sign } => OutcomeView::Written,
        StoreRequest::Remove { user } => OutcomeView::Written,
    }
}

/// What the rows of a read mean: no row, no record; otherwise the first row must hold a
/// canonical name.
pub open spec fn stored_sign(rows: Seq<Seq<char>>) -> Result<Option<Sign>, StoreFault> {
    if rows.len() == 0 {
        Ok(None)
    } else {
        match Sign::named(rows[0]) {
            Some(sign) => Ok(Some(sign)),
            None => Err(StoreFault::StorageError),
        }
    }
}

/// Executable form of [`stored_sign`].
pub fn read_rows(rows: &Vec<String>) -> (r: Result<Option<Sign>, StoreFault>)
    ensures
        r == stored_sign(rows.deep_view()),
{
    if rows.len() == 0 {
        assert(rows.deep_view().len() == 0);
        Ok(None)
    } else {
        assert(rows.deep_view()[0] == rows@[0]@);
        match Sign::from_name(rows[0].as_str()) {
            Some(sign) => Ok(Some(sign)),
            None => Err(StoreFault::StorageError),
        }
    }
}

/// The fault that stands for a backend error: `closed` says whether the backend reported
/// its connection as closed.
pub fn fault_of(closed: bool) -> (f: StoreFault)
    ensures
        f == if closed {
            StoreFault::ConnectionLost
        } else {
            StoreFault::StorageError
        },
{
    if closed {
        StoreFault::ConnectionLost
    } else {
        StoreFault::StorageError
    }
}

impl StoreRequest {
    /// The user whose record the request is about.
    pub open spec fn user_view(self) -> u64 {
        match self {
            StoreRequest::Fetch { user } => user,
            StoreRequest::Upsert { user, sign } => user,
            StoreRequest::Remove { user } => user,
        }
    }

    /// The SQL statement of the request.
    pub open spec fn statement_view(self) -> Seq<char> {
        match self {
            StoreRequest::Fetch { user } =>
                "SELECT user_zodiac_sign FROM user_sign WHERE user_id = $1"@,
            StoreRequest::Upsert { user, sign } =>
                "INSERT INTO user_sign (user_id, user_zodiac_sign) VALUES ($1, $2) ON CONFLICT (user_id) DO UPDATE SET user_zodiac_sign = EXCLUDED.user_zodiac_sign"@,
            StoreRequest::Remove { user } => "DELETE FROM user_sign WHERE user_id = $1"@,
        }
    }

    /// The parameters of the statement: the user in decimal notation, and for a write the
    /// canonical name of the sign.
    pub open spec fn params_view(self) -> Seq<Seq<char>> {
        match self {
            StoreRequest::Fetch { user } => seq![decimal_view(user as nat)],
            StoreRequest::Upsert { user, sign } => seq![
                decimal_view(user as nat),
                sign.name_view(),
            ],
            StoreRequest::Remove { user } => seq![decimal_view(user as nat)],
        }
    }

    /// The user whose record the request is about.
    pub fn user(&self) -> (u: u64)
        ensures
            u == self.user_view(),
    {
        match self {
            StoreRequest::Fetch { user } => *user,
            StoreRequest::Upsert { user, sign: _ } => *user,
            StoreRequest::Remove { user } => *user,
        }
    }

    /// The SQL statement of the request.
    pub fn statement(&self) -> (r: &'static str)
        ensures
            r@ == self.statement_view(),
    {
        match self {
            StoreRequest::Fetch { user: _ } =>
                "SELECT user_zodiac_sign FROM user_sign WHERE user_id = $1",
            StoreRequest::Upsert { user: _, sign: _ } =>
                "INSERT INTO user_sign (user_id, user_zodiac_sign) VALUES ($1, $2) ON CONFLICT (user_id) DO UPDATE SET user_zodiac_sign = EXCLUDED.user_zodiac_sign",
            StoreRequest::Remove { user: _ } => "DELETE FROM user_sign WHERE user_id = $1",
        }
    }

    /// The parameters of the statement, in order.
    pub fn params(&self) -> (r: Vec<String>)
        ensures
            r.deep_view() == self.params_view(),
    {
        let mut r: Vec<String> = Vec::new();
        match self {
            StoreRequest::Fetch { user } => {
                r.push(decimal(*user));
            },
            StoreRequest::Upsert { user, sign } => {
                r.push(decimal(*user));
                r.push(sign.name().to_owned());
            },
            StoreRequest::Remove { user } => {
                r.push(decimal(*user));
            },
        }
        assert(r.deep_view() =~= self.params_view());
        r
    }
}

/// Whether no user has two rows.
pub open spec fn one_row_per_user(rows: Seq<Record>) -> bool {
    forall|i: int, j: int|
        0 <= i < j < rows.len() ==> (#[trigger] rows[i]).user != (#[trigger] rows[j]).user
}

/// Whether some row belongs to `user`.
pub open spec fn has_row(rows: Seq<Record>, user: u64) -> bool {
    exists|i: int| 0 <= i < rows.len() && (#[trigger] rows[i]).user == user
}

/// The table that the rows spell out.
pub open spec fn table_of(rows: Seq<Record>) -> Map<u64, Sign> {
    Map::new(
        |user: u64| has_row(rows, user),
        |user: u64|
            rows[choose|i: int| 0 <= i < rows.len() && (#[trigger] rows[i]).user == user].sign,
    )
}

/// With one row per user, the table holds for each row its user and sign, and nothing else.
pub proof fn lemma_table_of_rows(rows: Seq<Record>)
    requires
        one_row_per_user(rows),
    ensures
        forall|i: int|
            0 <= i < rows.len() ==> table_of(rows).contains_key((#[trigger] rows[i]).user)
                && table_of(rows)[rows[i].user] == rows[i].sign,
        forall|user: u64| #[trigger] table_of(rows).contains_key(user) <==> has_row(rows, user),
{
    assert forall|i: int| 0 <= i < rows.len() implies table_of(rows).contains_key(
        (#[trigger] rows[i]).user,
    ) && table_of(rows)[rows[i].user] == rows[i].sign by {
        let user = rows[i].user;
        assert(has_row(rows, user));
        let k = choose|k: int| 0 <= k < rows.len() && (#[trigger] rows[k]).user == user;
        assert(k == i);
    }
}

/// Replacing the sign of a row keeps one row per user and writes the sign into the table.
pub proof fn lemma_replace_row(rows: Seq<Record>, i: int, sign: Sign)
    requires
        one_row_per_user(rows),
        0 <= i < rows.len(),
    ensures
        one_row_per_user(rows.update(i, Record { user: rows[i].user, sign })),
        table_of(rows.update(i, Record { user: rows[i].user, sign })) == table_of(rows).insert(
            rows[i].user,
            sign,
        ),
{
    let user = rows[i].user;
    let after = rows.update(i, Record { user, sign });
    assert forall|a: int, b: int| 0 <= a < b < after.len() implies (#[trigger] after[a]).user != (
    #[trigger] after[b]).user by {
        assert(after[a].user == rows[a].user);
        assert(after[b].user == rows[b].user);
    }
    lemma_table_of_rows(rows);
    lemma_table_of_rows(after);
    assert forall|u: u64| has_row(after, u) <==> has_row(rows, u) by {
        if has_row(after, u) {
            let k = choose|k: int| 0 <= k < after.len() && (#[trigger] after[k]).user == u;
            assert(rows[k].user == u);
        }
        if has_row(rows, u) {
            let k = choose|k: int| 0 <= k < rows.len() && (#[trigger] rows[k]).user == u;
            assert(after[k].user == u);
        }
    }
    assert forall|u: u64| has_row(after, u) && u != user implies table_of(after)[u] == table_of(
        rows,
    )[u] by {
        let k = choose|k: int| 0 <= k < after.len() && (#[trigger] after[k]).user == u;
        assert(rows[k].user == u);
        assert(after[k].sign == rows[k].sign);
    }
    assert(after[i].user == user);
    assert(table_of(after) =~= table_of(rows).insert(user, sign));
}

/// Adding a row for a user who has none keeps one row per user and writes the record into
/// the table.
pub proof fn lemma_add_row(rows: Seq<Record>, record: Record)
    requires
        one_row_per_user(rows),
        !has_row(rows, record.user),
    ensures
        one_row_per_user(rows.push(record)),
        table_of(rows.push(record)) == table_of(rows).insert(record.user, record.sign),
{
    let after = rows.push(record);
    assert forall|a: int, b: int| 0 <= a < b < after.len() implies (#[trigger] after[a]).user != (
    #[trigger] after[b]).user by {
        assert(after[a] == rows[a]);
        if b < rows.len() {
            assert(after[b] == rows[b]);
        }
    }
    lemma_table_of_rows(rows);
    lemma_table_of_rows(after);
    assert(after[rows.len() as int].user == record.user);
    assert forall|u: u64| has_row(after, u) <==> (has_row(rows, u) || u == record.user) by {
        if has_row(after, u) {
            let k = choose|k: int| 0 <= k < after.len() && (#[trigger] after[k]).user == u;
            if k < rows.len() {
                assert(rows[k].user == u);
            }
        }
        if has_row(rows, u) {
            let k = choose|k: int| 0 <= k < rows.len() && (#[trigger] rows[k]).user == u;
            assert(after[k].user == u);
        }
    }
    assert forall|u: u64| has_row(rows, u) implies table_of(after)[u] == table_of(rows)[u] by {
        let k = choose|k: int| 0 <= k < rows.len() && (#[trigger] rows[k]).user == u;
        assert(after[k] == rows[k]);
    }
    assert(table_of(after) =~= table_of(rows).insert(record.user, record.sign));
}

/// Dropping a row keeps one row per user and takes its user out of the table.
pub proof fn lemma_drop_row(rows: Seq<Record>, i: int)
    requires
        one_row_per_user(rows),
        0 <= i < rows.len(),
    ensures
        one_row_per_user(rows.remove(i)),
        table_of(rows.remove(i)) == table_of(rows).remove(rows[i].user),
{
    let user = rows[i].user;
    let after = rows.remove(i);
    assert forall|a: int, b: int| 0 <= a < b < after.len() implies (#[trigger] after[a]).user != (
    #[trigger] after[b]).user by {
        let a0 = if a < i { a } else { a + 1 };
        let b0 = if b < i { b } else { b + 1 };
        assert(after[a] == rows[a0]);
        assert(after[b] == rows[b0]);
    }
    lemma_table_of_rows(rows);
    lemma_table_of_rows(after);
    assert forall|u: u64| has_row(after, u) <==> (has_row(rows, u) && u != user) by {
        if has_row(after, u) {
            let k = choose|k: int| 0 <= k < after.len() && (#[trigger] after[k]).user == u;
            let k0 = if k < i { k } else { k + 1 };
            assert(after[k] == rows[k0]);
            assert(rows[k0].user == u);
        }
        if has_row(rows, u) && u != user {
            let k = choose|k: int| 0 <= k < rows.len() && (#[trigger] rows[k]).user == u;
            let k1 = if k < i { k } else { k - 1 };
            assert(after[k1] == rows[k]);
        }
    }
    assert forall|u: u64| has_row(after, u) implies table_of(after)[u] == table_of(rows)[u] by {
        let k = choose|k: int| 0 <= k < after.len() && (#[trigger] after[k]).user == u;
        let k0 = if k < i { k } else { k + 1 };
        assert(after[k] == rows[k0]);
    }
    assert(table_of(after) =~= table_of(rows).remove(user));
}

/// With one row per user, the table has as many records as there are rows.
pub proof fn lemma_table_size(rows: Seq<Record>)
    requires
        one_row_per_user(rows),
    ensures
        table_of(rows).dom().finite(),
        table_of(rows).dom().len() == rows.len(),
    decreases rows.len(),
{
    if rows.len() == 0 {
        assert(table_of(rows).dom() =~= Set::<u64>::empty());
    } else {
        let earlier = rows.drop_last();
        let last = rows.last();
        assert forall|a: int, b: int| 0 <= a < b < earlier.len() implies (
        #[trigger] earlier[a]).user != (#[trigger] earlier[b]).user by {
            assert(earlier[a] == rows[a]);
            assert(earlier[b] == rows[b]);
        }
        assert(!has_row(earlier, last.user)) by {
            if has_row(earlier, last.user) {
                let k = choose|k: int|
                    0 <= k < earlier.len() && (#[trigger] earlier[k]).user == last.user;
                assert(rows[k] == earlier[k]);
                assert(rows[rows.len() - 1] == last);
            }
        }
        lemma_table_size(earlier);
        lemma_table_of_rows(earlier);
        lemma_add_row(earlier, last);
        assert(earlier.push(last) =~= rows);
        assert(table_of(rows).dom() =~= table_of(earlier).dom().insert(last.user));
    }
}

/// A store that keeps the table in memory.
pub struct MemoryStore {
    rows: Vec<Record>,
}

impl View for MemoryStore {
    type V = Map<u64, Sign>;

    closed spec fn view(&self) -> Map<u64, Sign> {
        table_of(self.rows@)
    }
}

impl MemoryStore {
    #[verifier::type_invariant]
    spec fn one_record_per_user(&self) -> bool {
        one_row_per_user(self.rows@)
    }

    /// A store without records.
    pub fn new() -> (store: MemoryStore)
        ensures
            store@ == Map::<u64, Sign>::empty(),
    {
        let store = MemoryStore { rows: Vec::new() };
        assert(store@ =~= Map::<u64, Sign>::empty());
        store
    }

    /// The number of records.
    pub fn len(&self) -> (n: usize)
        ensures
            self@.dom().finite(),
            n == self@.dom().len(),
    {
        proof {
            use_type_invariant(self);
            lemma_table_size(self.rows@);
        }
        self.rows.len()
    }

    /// The index of the row of `user`, if there is one.
    fn find(&self, user: u64) -> (r: Option<usize>)
        ensures
            match r {
                Some(i) => i < self.rows@.len() && self.rows@[i as int].user == user,
                None => !has_row(self.rows@, user),
            },
    {
        let mut i: usize = 0;
        while i < self.rows.len()
            invariant
                i <= self.rows@.len(),
                forall|j: int| 0 <= j < i ==> (#[trigger] self.rows@[j]).user != user,
            decreases self.rows@.len() - i,
        {
            if self.rows[i].user == user {
                return Some(i);
            }
            i += 1;
        }
        None
    }

    /// The sign on record for `user`, if any. Changes nothing.
    pub fn get(&self, user: u64) -> (r: Option<Sign>)
        ensures
            r == lookup(self@, user),
    {
        proof {
            use_type_invariant(self);
            lemma_table_of_rows(self.rows@);
        }
        match self.find(user) {
            Some(i) => Some(self.rows[i].sign),
            None => None,
        }
    }

    /// Puts `sign` on record for `user`, in place of whatever was there.
    pub fn set(&mut self, user: u64, sign: Sign)
        ensures
            final(self)@ == old(self)@.insert(user, sign),
    {
        proof {
            use_type_invariant(&*self);
            lemma_table_of_rows(self.rows@);
        }
        let found = self.find(user);
        let mut rows: Vec<Record> = Vec::new();
        core::mem::swap(&mut self.rows, &mut rows);
        match found {
            Some(i) => {
                proof {
                    lemma_replace_row(rows@, i as int, sign);
                }
                rows[i] = Record { user, sign };
            },
            None => {
                proof {
                    lemma_add_row(rows@, Record { user, sign });
                }
                rows.push(Record { user, sign });
            },
        }
        core::mem::swap(&mut self.rows, &mut rows);
    }

    /// Removes the record of `user`; does nothing if there is none.
    pub fn delete(&mut self, user: u64)
        ensures
            final(self)@ == old(self)@.remove(user),
    {
        proof {
            use_type_invariant(&*self);
            lemma_table_of_rows(self.rows@);
        }
        match self.find(user) {
            Some(i) => {
                let mut rows: Vec<Record> = Vec::new();
                core::mem::swap(&mut self.rows, &mut rows);
                proof {
                    lemma_drop_row(rows@, i as int);
                }
                rows.remove(i);
                core::mem::swap(&mut self.rows, &mut rows);
            },
            None => {
                assert(self@ =~= old(self)@.remove(user));
            },
        }
    }

    /// Answers one request and brings the table up to date.
    pub fn perform(&mut self, request: &StoreRequest) -> (outcome: StoreOutcome)
        ensures
            final(self)@ == table_after(old(self)@, *request),
            outcome@ == answer(old(self)@, *request),
    {
        match request {
            StoreRequest::Fetch { user } => {
                let mut rows: Vec<String> = Vec::new();
                match self.get(*user) {
                    Some(sign) => {
                        rows.push(sign.name().to_owned());
                        assert(rows.deep_view() =~= seq![sign.name_view()]);
                    },
                    None => {
                        assert(rows.deep_view() =~= Seq::<Seq<char>>::empty());
                    },
                }
                StoreOutcome::Rows(rows)
            },
            StoreRequest::Upsert { user, sign } => {
                self.set(*user, *sign);
                StoreOutcome::Written
            },
            StoreRequest::Remove { user } => {
                self.delete(*user);
                StoreOutcome::Written
            },
        }
    }
}

/// The table after the requests went through one after the other, starting from `table`.
pub open spec fn replay(table: Map<u64, Sign>, requests: Seq<StoreRequest>) -> Map<u64, Sign>
    decreases requests.len(),
{
    if requests.len() == 0 {
        table
    } else {
        table_after(replay(table, requests.drop_last()), requests.last())
    }
}

/// The last write wins: after two writes for one user, the table is what the second write
/// alone would have left, and a read gives the second sign.
pub proof fn lemma_last_write_wins(table: Map<u64, Sign>, user: u64, first: Sign, second: Sign)
    ensures
        table_after(
            table_after(table, StoreRequest::Upsert { user, sign: first }),
            StoreRequest::Upsert { user, sign: second },
        ) == table_after(table, StoreRequest::Upsert { user, sign: second }),
        lookup(
            table_after(
                table_after(table, StoreRequest::Upsert { user, sign: first }),
                StoreRequest::Upsert { user, sign: second },
            ),
            user,
        ) == Some(second),
{
    assert(table.insert(user, first).insert(user, second) =~= table.insert(user, second));
}

/// After a delete the user has no record, whatever was there before; a second delete
/// changes nothing.
pub proof fn lemma_delete_is_idempotent(table: Map<u64, Sign>, user: u64)
    ensures
        lookup(table_after(table, StoreRequest::Remove { user }), user) is None,
        table_after(
            table_after(table, StoreRequest::Remove { user }),
            StoreRequest::Remove { user },
        ) == table_after(table, StoreRequest::Remove { user }),
{
    assert(table.remove(user).remove(user) =~= table.remove(user));
}

/// A user for whom nothing was ever written has no record: start from the empty table,
/// let any requests through of which none is a write for `user`, and a read finds nothing.
pub proof fn lemma_never_written_is_unset(requests: Seq<StoreRequest>, user: u64)
    requires
        forall|i: int|
            0 <= i < requests.len() ==> !(#[trigger] requests[i] matches StoreRequest::Upsert {
                user: u,
                sign,
            } && u == user),
    ensures
        lookup(replay(Map::empty(), requests), user) is None,
    decreases requests.len(),
{
    if requests.len() > 0 {
        let earlier = requests.drop_last();
        assert forall|i: int| 0 <= i < earlier.len() implies !(
        #[trigger] earlier[i] matches StoreRequest::Upsert { user: u, sign } && u == user) by {
            assert(earlier[i] == requests[i]);
        }
        lemma_never_written_is_unset(earlier, user);
        assert(requests.last() == requests[requests.len() - 1]);
    }
}

/// Writes for two different users do not interfere: in either order they leave the same
/// table, and each user reads back what was written for them.
pub proof fn lemma_writes_of_distinct_users_commute(
    table: Map<u64, Sign>,
    user1: u64,
    sign1: Sign,
    user2: u64,
    sign2: Sign,
)
    requires
        user1 != user2,
    ensures
        table_after(
            table_after(table, StoreRequest::Upsert { user: user1, sign: sign1 }),
            StoreRequest::Upsert { user: user2, sign: sign2 },
        ) == table_after(
            table_after(table, StoreRequest::Upsert { user: user2, sign: sign2 }),
            StoreRequest::Upsert { user: user1, sign: sign1 },
        ),
        lookup(
            table_after(
                table_after(table, StoreRequest::Upsert { user: user1, sign: sign1 }),
                StoreRequest::Upsert { user: user2, sign: sign2 },
            ),
            user1,
        ) == Some(sign1),
        lookup(
            table_after(
                table_after(table, StoreRequest::Upsert { user: user1, sign: sign1 }),
                StoreRequest::Upsert { user: user2, sign: sign2 },
            ),
            user2,
        ) == Some(sign2),
{
    assert(table.insert(user1, sign1).insert(user2, sign2) =~= table.insert(user2, sign2).insert(
        user1,
        sign1,
    ));
}

/// Of `requests`, those that are about `user`, in their order.
pub open spec fn requests_of(requests: Seq<StoreRequest>, user: u64) -> Seq<StoreRequest>
    decreases requests.len(),
{
    if requests.len() == 0 {
        Seq::empty()
    } else if requests.last().user_view() == user {
        requests_of(requests.drop_last(), user).push(requests.last())
    } else {
        requests_of(requests.drop_last(), user)
    }
}

/// Users do not interfere. However the requests of many users are interleaved, what a user
/// has on record in the end is what their own requests alone, in their own order, would
/// have left there.
pub proof fn lemma_users_do_not_interfere(
    table: Map<u64, Sign>,
    requests: Seq<StoreRequest>,
    user: u64,
)
    ensures
        lookup(replay(table, requests), user) == lookup(
            replay(table, requests_of(requests, user)),
            user,
        ),
    decreases requests.len(),
{
    if requests.len() > 0 {
        let earlier = requests.drop_last();
        lemma_users_do_not_interfere(table, earlier, user);
        if requests.last().user_view() == user {
            let own = requests_of(earlier, user).push(requests.last());
            assert(own.drop_last() =~= requests_of(earlier, user));
            assert(own.last() == requests.last());
        }
    }
}

/// A request touches the record of its own user only.
pub proof fn lemma_request_touches_one_user(
    table: Map<u64, Sign>,
    request: StoreRequest,
    other: u64,
)
    requires
        other != request.user_view(),
    ensures
        lookup(table_after(table, request), other) == lookup(table, other),
{
}

/// Reading the rows that a store answers to a read gives back the record on its table.
pub proof fn lemma_read_back(table: Map<u64, Sign>, user: u64)
    ensures
        answer(table, StoreRequest::Fetch { user }) matches OutcomeView::Rows(rows)
            && stored_sign(rows) == Ok::<Option<Sign>, StoreFault>(lookup(table, user)),
{
    match lookup(table, user) {
        Some(sign) => {
            lemma_named_iff(sign.name_view(), sign);
        },
        None => {},
    }
}

} // verus!
