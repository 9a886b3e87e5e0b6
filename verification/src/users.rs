//! The users table as a value: its rows in the order of their primary key,
//! and what each kind of statement does to them.

use vstd::prelude::*;

verus! {

/// The mathematical content of a row of the users table.
pub struct UserModel {
    pub id: int,
    pub name: Seq<char>,
    pub hair_color: Option<Seq<char>>,
    pub created_at: int,
    pub updated_at: int,
}

/// The view of an optional text.
pub open spec fn text_view(text: Option<String>) -> Option<Seq<char>> {
    match text {
        Some(s) => Some(s@),
        None => None,
    }
}

fn copy_text(text: &Option<String>) -> (res: Option<String>)
    ensures
        text_view(res) == text_view(*text),
{
    match text {
        Some(s) => Some(s.clone()),
        None => None,
    }
}

/// A row of the users table. The two timestamps are seconds since the
/// epoch and are set by the table, not by the caller.
#[derive(Debug, PartialEq, Eq)]
pub struct User {
    pub id: i32,
    pub name: String,
    pub hair_color: Option<String>,
    pub created_at: i64,
    pub updated_at: i64,
}

impl View for User {
    type V = UserModel;

    open spec fn view(&self) -> UserModel {
        UserModel {
            id: self.id as int,
            name: self.name@,
            hair_color: text_view(self.hair_color),
            created_at: self.created_at as int,
            updated_at: self.updated_at as int,
        }
    }
}

impl User {
    /// A copy of this row.
    pub fn duplicate(&self) -> (res: User)
        ensures
            res@ == self@,
    {
        User {
            id: self.id,
            name: self.name.clone(),
            hair_color: copy_text(&self.hair_color),
            created_at: self.created_at,
            updated_at: self.updated_at,
        }
    }
}

/// The mathematical content of a form.
pub struct FormModel {
    pub name: Seq<char>,
    pub hair_color: Option<Seq<char>>,
}

/// What a caller supplies of a new user: the name, and the hair colour if
/// it is known. The key and the timestamps are left to the table.
#[derive(Debug, PartialEq, Eq)]
pub struct UserForm {
    pub name: String,
    pub hair_color: Option<String>,
}

impl View for UserForm {
    type V = FormModel;

    open spec fn view(&self) -> FormModel {
        FormModel { name: self.name@, hair_color: text_view(self.hair_color) }
    }
}

/// A new user whose primary key the caller has chosen.
#[derive(Debug)]
pub struct KeyedUser {
    pub id: i32,
    pub name: String,
    pub hair_color: Option<String>,
}

/// The row that a keyed user becomes when it is written at time `now`.
pub open spec fn stamped(row: KeyedUser, now: int) -> UserModel {
    UserModel {
        id: row.id as int,
        name: row.name@,
        hair_color: text_view(row.hair_color),
        created_at: now,
        updated_at: now,
    }
}

/// The rows that a batch of keyed users becomes when written at `now`.
pub open spec fn stamped_all(rows: Seq<KeyedUser>, now: int) -> Seq<UserModel> {
    Seq::new(rows.len(), |i: int| stamped(rows[i], now))
}

/// Why the table refused a row.
#[derive(Clone, Copy, Debug, PartialEq, Eq, Structural)]
pub enum TableError {
    /// A row with this primary key is already there.
    DuplicateKey,
    /// No primary key is left above the greatest one in use.
    KeyExhausted,
    /// The statement is for another table.
    UnknownTable,
    /// The statement names a column that the table does not have.
    UnknownColumn,
    /// A row gives no value for a column that has no default.
    MissingDefault,
    /// A value is not of the type of its column.
    TypeMismatch,
}

/// The rows are in strictly ascending order of their primary key, so no
/// key occurs twice.
pub open spec fn sorted(s: Seq<UserModel>) -> bool {
    forall|i: int, j: int| 0 <= i < j < s.len() ==> s[i].id < s[j].id
}

/// The first index at or after `from` whose row has a key of at least
/// `id`, or the number of rows if there is none.
pub open spec fn position_from(s: Seq<UserModel>, id: int, from: int) -> int
    decreases s.len() - from,
{
    if from < 0 || from >= s.len() || s[from].id >= id {
        from
    } else {
        position_from(s, id, from + 1)
    }
}

/// The index at which a row with key `id` stands or would be inserted.
pub open spec fn position(s: Seq<UserModel>, id: int) -> int {
    position_from(s, id, 0)
}

/// A row with key `id` is in the table.
pub open spec fn holds_key(s: Seq<UserModel>, id: int) -> bool {
    position(s, id) < s.len() && s[position(s, id)].id == id
}

/// The table with `row` inserted at its place.
pub open spec fn put_new(s: Seq<UserModel>, row: UserModel) -> Seq<UserModel> {
    s.insert(position(s, row.id), row)
}

/// The table after an insert that skips a row whose key is taken.
pub open spec fn put_ignore(s: Seq<UserModel>, row: UserModel) -> Seq<UserModel> {
    if holds_key(s, row.id) {
        s
    } else {
        put_new(s, row)
    }
}

/// The table after an insert that replaces the row whose key is taken.
pub open spec fn put_replace(s: Seq<UserModel>, row: UserModel) -> Seq<UserModel> {
    if holds_key(s, row.id) {
        s.update(position(s, row.id), row)
    } else {
        put_new(s, row)
    }
}

/// The table after the first `n` of `rows` were inserted, skipping taken
/// keys.
pub open spec fn ignore_all(s: Seq<UserModel>, rows: Seq<UserModel>, n: nat) -> Seq<UserModel>
    decreases n,
{
    if n == 0 {
        s
    } else {
        put_ignore(ignore_all(s, rows, (n - 1) as nat), rows[n - 1])
    }
}

/// How many of the first `n` of `rows` an insert that skips taken keys
/// writes.
pub open spec fn ignore_count(s: Seq<UserModel>, rows: Seq<UserModel>, n: nat) -> nat
    decreases n,
{
    if n == 0 {
        0
    } else if holds_key(ignore_all(s, rows, (n - 1) as nat), rows[n - 1].id) {
        ignore_count(s, rows, (n - 1) as nat)
    } else {
        ignore_count(s, rows, (n - 1) as nat) + 1
    }
}

/// The table after the first `n` of `rows` were written, replacing taken
/// keys.
pub open spec fn replace_all(s: Seq<UserModel>, rows: Seq<UserModel>, n: nat) -> Seq<UserModel>
    decreases n,
{
    if n == 0 {
        s
    } else {
        put_replace(replace_all(s, rows, (n - 1) as nat), rows[n - 1])
    }
}

/// The table without the row whose key is `id`.
pub open spec fn without(s: Seq<UserModel>, id: int) -> Seq<UserModel> {
    if holds_key(s, id) {
        s.remove(position(s, id))
    } else {
        s
    }
}

/// The `n` rows with the greatest keys, or all rows if there are fewer, in
/// ascending order of key: what a read by descending key, cut off after `n`
/// rows and turned round, gives.
pub open spec fn latest_rows(s: Seq<UserModel>, n: nat) -> Seq<UserModel> {
    if n >= s.len() {
        s
    } else {
        s.subrange(s.len() - n, s.len() as int)
    }
}

/// The key that the table gives to the next row without one: one above the
/// greatest key in use, and 1 in an empty table.
pub open spec fn next_key(s: Seq<UserModel>) -> int {
    if s.len() == 0 {
        1
    } else {
        s.last().id + 1
    }
}

/// The row that a form becomes when it is written at time `now`.
pub open spec fn form_row(s: Seq<UserModel>, form: FormModel, now: int) -> UserModel {
    UserModel {
        id: next_key(s),
        name: form.name,
        hair_color: form.hair_color,
        created_at: now,
        updated_at: now,
    }
}

/// Where `position_from` stops: within the table, past every smaller key and
/// at the first key that is not smaller.
pub proof fn lemma_position_from(s: Seq<UserModel>, id: int, from: int)
    requires
        0 <= from <= s.len(),
    ensures
        from <= position_from(s, id, from) <= s.len(),
        forall|i: int| from <= i < position_from(s, id, from) ==> s[i].id < id,
        position_from(s, id, from) < s.len() ==> s[position_from(s, id, from)].id >= id,
    decreases s.len() - from,
{
    if from < s.len() && s[from].id < id {
        lemma_position_from(s, id, from + 1);
    }
}

/// An index past every smaller key and at a key that is not smaller is the
/// position.
pub proof fn lemma_position_is(s: Seq<UserModel>, id: int, from: int, p: int)
    requires
        0 <= from <= p <= s.len(),
        forall|i: int| from <= i < p ==> s[i].id < id,
        p < s.len() ==> s[p].id >= id,
    ensures
        position_from(s, id, from) == p,
    decreases p - from,
{
    if from < p {
        lemma_position_is(s, id, from + 1, p);
    }
}

/// Inserting a row whose key is free keeps the order, puts the row at its
/// position, and keeps every key that was there.
pub proof fn lemma_put_new(s: Seq<UserModel>, row: UserModel)
    requires
        sorted(s),
        !holds_key(s, row.id),
    ensures
        sorted(put_new(s, row)),
        holds_key(put_new(s, row), row.id),
        position(put_new(s, row), row.id) == position(s, row.id),
        forall|id: int| holds_key(s, id) ==> holds_key(put_new(s, row), id),
{
    let p = position(s, row.id);
    let t = put_new(s, row);
    lemma_position_from(s, row.id, 0);
    assert(t.len() == s.len() + 1);
    assert forall|i: int| 0 <= i < t.len() implies #[trigger] t[i] == (if i < p {
        s[i]
    } else if i == p {
        row
    } else {
        s[i - 1]
    }) by {}
    assert(sorted(t)) by {
        assert forall|i: int, j: int| 0 <= i < j < t.len() implies t[i].id < t[j].id by {
            if j > p && i < p {
                assert(s[i].id < s[j - 1].id || i == j - 1);
            }
        }
    }
    lemma_position_is(t, row.id, 0, p);
    assert forall|id: int| holds_key(s, id) implies holds_key(t, id) by {
        let q = position(s, id);
        lemma_position_from(s, id, 0);
        if q < p {
            lemma_position_is(t, id, 0, q);
        } else {
            assert forall|i: int| 0 <= i < q + 1 implies t[i].id < id by {
                if i > p {
                    assert(s[i - 1].id < id);
                } else if i == p {
                    assert(s[q].id == id);
                    assert(p < s.len());
                    assert(s[p].id >= row.id);
                    assert(p == q || s[p].id < s[q].id);
                }
            }
            assert(t[q + 1] == s[q]);
            lemma_position_is(t, id, 0, q + 1);
        }
    }
}

/// The users table: its rows, held in ascending order of their primary key.
#[derive(Debug)]
pub struct UserTable {
    rows: Vec<User>,
}

impl View for UserTable {
    type V = Seq<UserModel>;

    closed spec fn view(&self) -> Seq<UserModel> {
        Seq::new(self.rows@.len(), |i: int| self.rows@[i]@)
    }
}

impl UserTable {
    /// The rows are in strictly ascending order of key.
    pub open spec fn well_formed(&self) -> bool {
        sorted(self@)
    }

    /// The empty table.
    pub fn new() -> (res: UserTable)
        ensures
            res@ == Seq::<UserModel>::empty(),
            res.well_formed(),
    {
        let res = UserTable { rows: Vec::new() };
        proof {
            assert(res@ =~= Seq::<UserModel>::empty());
        }
        res
    }

    /// The rows, in ascending order of key.
    pub fn rows(&self) -> (res: &Vec<User>)
        ensures
            users_view(res@) == self@,
    {
        proof {
            assert(users_view(self.rows@) =~= self@);
        }
        &self.rows
    }

    /// A copy of the table.
    pub fn snapshot(&self) -> (res: UserTable)
        ensures
            res@ == self@,
    {
        let mut rows: Vec<User> = Vec::new();
        let mut i: usize = 0;
        while i < self.rows.len()
            invariant
                i <= self.rows@.len(),
                rows@.len() == i,
                forall|k: int| 0 <= k < i ==> (#[trigger] rows@[k])@ == self.rows@[k]@,
            decreases self.rows@.len() - i,
        {
            rows.push(self.rows[i].duplicate());
            i += 1;
        }
        let res = UserTable { rows };
        proof {
            assert(res@ =~= self@);
        }
        res
    }

    /// The number of rows.
    pub fn len(&self) -> (res: usize)
        ensures
            res == self@.len(),
    {
        self.rows.len()
    }

    fn locate(&self, id: i32) -> (p: usize)
        ensures
            p == position(self@, id as int),
            p <= self.rows@.len(),
    {
        let mut p: usize = 0;
        while p < self.rows.len() && self.rows[p].id < id
            invariant
                p <= self.rows@.len(),
                position_from(self@, id as int, 0) == position_from(self@, id as int, p as int),
            decreases self.rows@.len() - p,
        {
            p += 1;
        }
        p
    }

    /// Whether a row with this key is in the table.
    pub fn contains(&self, id: i32) -> (res: bool)
        ensures
            res == holds_key(self@, id as int),
    {
        let p = self.locate(id);
        p < self.rows.len() && self.rows[p].id == id
    }

    fn put(&mut self, row: User, replace: bool) -> (fresh: bool)
        requires
            old(self).well_formed(),
        ensures
            final(self).well_formed(),
            fresh == !holds_key(old(self)@, row@.id),
            final(self)@ == (if replace {
                put_replace(old(self)@, row@)
            } else {
                put_ignore(old(self)@, row@)
            }),
    {
        let p = self.locate(row.id);
        if p < self.rows.len() && self.rows[p].id == row.id {
            if replace {
                proof {
                    lemma_put_replace(self@, row@);
                }
                self.rows.set(p, row);
                proof {
                    assert(self@ =~= old(self)@.update(p as int, row@));
                }
            }
            false
        } else {
            proof {
                lemma_put_new(self@, row@);
            }
            self.rows.insert(p, row);
            proof {
                assert(self@ =~= old(self)@.insert(p as int, row@));
            }
            true
        }
    }

    /// Removes the row whose key is `id`, if there is one, and returns how
    /// many rows were removed: never more than one.
    pub fn delete_by_id(&mut self, id: i32) -> (removed: usize)
        requires
            old(self).well_formed(),
        ensures
            final(self).well_formed(),
            final(self)@ == without(old(self)@, id as int),
            removed == (if holds_key(old(self)@, id as int) {
                1usize
            } else {
                0usize
            }),
            removed <= 1,
            !holds_key(final(self)@, id as int),
    {
        let p = self.locate(id);
        proof {
            lemma_position_from(self@, id as int, 0);
        }
        if p < self.rows.len() && self.rows[p].id == id {
            let _ = self.rows.remove(p);
            proof {
                assert(self@ =~= old(self)@.remove(p as int));
                lemma_position_is(self@, id as int, 0, p as int);
            }
            1
        } else {
            0
        }
    }

    /// Writes a row under the key that the caller chose, with both
    /// timestamps set to `now`. Fails, and leaves the table as it was, when
    /// the key is taken.
    pub fn insert_keyed(&mut self, row: &KeyedUser, now: i64) -> (res: Result<(), TableError>)
        requires
            old(self).well_formed(),
        ensures
            final(self).well_formed(),
            res is Ok <==> !holds_key(old(self)@, row.id as int),
            res is Ok ==> final(self)@ == put_new(old(self)@, stamped(*row, now as int)),
            res is Err ==> res->Err_0 == TableError::DuplicateKey && final(self)@ == old(self)@,
    {
        if self.put(stamp(row, now), false) {
            Ok(())
        } else {
            Err(TableError::DuplicateKey)
        }
    }

    /// Writes a form under the next free key, with both timestamps set to
    /// `now`, and returns the key. Fails, and leaves the table as it was,
    /// when the greatest key in use is the greatest there is.
    pub fn insert_form(&mut self, form: &UserForm, now: i64) -> (res: Result<i32, TableError>)
        requires
            old(self).well_formed(),
        ensures
            final(self).well_formed(),
            res is Ok <==> next_key(old(self)@) <= i32::MAX,
            res is Ok ==> res->Ok_0 == next_key(old(self)@) && final(self)@ == old(self)@.push(
                form_row(old(self)@, form@, now as int),
            ),
            res is Err ==> res->Err_0 == TableError::KeyExhausted && final(self)@ == old(self)@,
    {
        let n = self.rows.len();
        let id: i32 = if n == 0 {
            1
        } else {
            let last: i32 = self.rows[n - 1].id;
            assert(self@.last().id == last);
            if last == i32::MAX {
                return Err(TableError::KeyExhausted);
            }
            last + 1
        };
        let row = User {
            id,
            name: form.name.clone(),
            hair_color: copy_text(&form.hair_color),
            created_at: now,
            updated_at: now,
        };
        self.rows.push(row);
        proof {
            assert(self@ =~= old(self)@.push(form_row(old(self)@, form@, now as int)));
            assert forall|i: int, j: int| 0 <= i < j < self@.len() implies self@[i].id
                < self@[j].id by {
                if j == n && i < n - 1 {
                    assert(old(self)@[i].id < old(self)@[n - 1].id);
                }
            }
        }
        Ok(id)
    }

    /// Writes every row of the batch whose key is free, with both
    /// timestamps set to `now`, and skips the others. Returns how many rows
    /// were written.
    pub fn insert_or_ignore(&mut self, rows: &Vec<KeyedUser>, now: i64) -> (written: usize)
        requires
            old(self).well_formed(),
        ensures
            final(self).well_formed(),
            final(self)@ == ignore_all(old(self)@, stamped_all(rows@, now as int), rows@.len()),
            written == ignore_count(old(self)@, stamped_all(rows@, now as int), rows@.len()),
    {
        let ghost start = self@;
        let ghost batch = stamped_all(rows@, now as int);
        let mut written: usize = 0;
        let mut i: usize = 0;
        while i < rows.len()
            invariant
                i <= rows.len(),
                written <= i,
                self.well_formed(),
                batch == stamped_all(rows@, now as int),
                self@ == ignore_all(start, batch, i as nat),
                written == ignore_count(start, batch, i as nat),
            decreases rows.len() - i,
        {
            if self.put(stamp(&rows[i], now), false) {
                written += 1;
            }
            i += 1;
        }
        written
    }

    /// Writes every row of the batch with both timestamps set to `now`: in
    /// place of the row that has its key, where there is one, else as a new
    /// row.
    pub fn replace(&mut self, rows: &Vec<KeyedUser>, now: i64)
        requires
            old(self).well_formed(),
        ensures
            final(self).well_formed(),
            final(self)@ == replace_all(old(self)@, stamped_all(rows@, now as int), rows@.len()),
    {
        let ghost start = self@;
        let ghost batch = stamped_all(rows@, now as int);
        let mut i: usize = 0;
        while i < rows.len()
            invariant
                i <= rows.len(),
                self.well_formed(),
                batch == stamped_all(rows@, now as int),
                self@ == replace_all(start, batch, i as nat),
            decreases rows.len() - i,
        {
            let _ = self.put(stamp(&rows[i], now), true);
            i += 1;
        }
    }

    /// The `n` rows with the greatest keys, or all rows if there are fewer,
    /// in ascending order of key. This is the read that stands in for
    /// returning the rows just inserted: it gives them back only where keys
    /// grow in the order of insertion.
    pub fn latest(&self, n: usize) -> (res: Vec<User>)
        ensures
            users_view(res@) == latest_rows(self@, n as nat),
    {
        let len = self.rows.len();
        let first: usize = if n >= len {
            0
        } else {
            len - n
        };
        let mut out: Vec<User> = Vec::new();
        let mut i: usize = first;
        while i < len
            invariant
                first <= i <= len,
                len == self.rows@.len(),
                out@.len() == i - first,
                forall|k: int| 0 <= k < i - first ==> (#[trigger] out@[k])@ == self.rows@[first + k]@,
            decreases len - i,
        {
            out.push(self.rows[i].duplicate());
            i += 1;
        }
        proof {
            assert(users_view(out@) =~= latest_rows(self@, n as nat));
        }
        out
    }
}

/// Which rows an update applies to.
#[derive(Debug)]
pub enum UserFilter {
    /// Every row.
    Every,
    /// The row with this primary key.
    ById(i32),
    /// Every row with this name.
    ByName(String),
}

/// The mathematical content of a filter on users.
pub enum UserFilterModel {
    Every,
    ById(int),
    ByName(Seq<char>),
}

impl View for UserFilter {
    type V = UserFilterModel;

    open spec fn view(&self) -> UserFilterModel {
        match *self {
            UserFilter::Every => UserFilterModel::Every,
            UserFilter::ById(id) => UserFilterModel::ById(id as int),
            UserFilter::ByName(name) => UserFilterModel::ByName(name@),
        }
    }
}

/// What an update assigns: a new name, a new hair colour (or none), or
/// both. The primary key is never assigned.
#[derive(Debug)]
pub struct UserChange {
    pub name: Option<String>,
    pub hair_color: Option<Option<String>>,
}

/// The mathematical content of a change.
pub struct UserChangeModel {
    pub name: Option<Seq<char>>,
    pub hair_color: Option<Option<Seq<char>>>,
}

impl View for UserChange {
    type V = UserChangeModel;

    open spec fn view(&self) -> UserChangeModel {
        UserChangeModel {
            name: text_view(self.name),
            hair_color: match self.hair_color {
                Some(color) => Some(text_view(color)),
                None => None,
            },
        }
    }
}

/// The row meets the filter.
pub open spec fn meets(row: UserModel, filter: UserFilterModel) -> bool {
    match filter {
        UserFilterModel::Every => true,
        UserFilterModel::ById(id) => row.id == id,
        UserFilterModel::ByName(name) => row.name == name,
    }
}

/// The row after the change was applied at time `now`: the assigned columns
/// take their new values, the time of the last update moves to `now`, and
/// the key and the time of creation stay.
pub open spec fn changed(row: UserModel, change: UserChangeModel, now: int) -> UserModel {
    UserModel {
        id: row.id,
        name: match change.name {
            Some(name) => name,
            None => row.name,
        },
        hair_color: match change.hair_color {
            Some(color) => color,
            None => row.hair_color,
        },
        created_at: row.created_at,
        updated_at: now,
    }
}

/// The table after the change was applied to every row that meets the
/// filter.
pub open spec fn update_all(
    s: Seq<UserModel>,
    filter: UserFilterModel,
    change: UserChangeModel,
    now: int,
) -> Seq<UserModel> {
    Seq::new(
        s.len(),
        |i: int|
            if meets(s[i], filter) {
                changed(s[i], change, now)
            } else {
                s[i]
            },
    )
}

/// How many of the first `n` rows meet the filter.
pub open spec fn count_meeting(s: Seq<UserModel>, filter: UserFilterModel, n: nat) -> nat
    decreases n,
{
    if n == 0 {
        0
    } else if meets(s[n - 1], filter) {
        count_meeting(s, filter, (n - 1) as nat) + 1
    } else {
        count_meeting(s, filter, (n - 1) as nat)
    }
}

/// In a table in order of key, at most one row has a given key.
pub proof fn lemma_one_row_per_key(s: Seq<UserModel>, id: int, n: nat)
    requires
        sorted(s),
        n <= s.len(),
    ensures
        count_meeting(s, UserFilterModel::ById(id), n) <= 1,
        count_meeting(s, UserFilterModel::ById(id), n) == 1 ==> exists|i: int|
            0 <= i < n && s[i].id == id,
    decreases n,
{
    if n > 0 {
        lemma_one_row_per_key(s, id, (n - 1) as nat);
        if s[n - 1].id == id && count_meeting(s, UserFilterModel::ById(id), (n - 1) as nat) == 1 {
            let i = choose|i: int| 0 <= i < n - 1 && s[i].id == id;
            assert(s[i].id < s[n - 1].id);
        }
    }
}

fn meets_filter(row: &User, filter: &UserFilter) -> (res: bool)
    ensures
        res == meets(row@, filter@),
{
    match filter {
        UserFilter::Every => true,
        UserFilter::ById(id) => row.id == *id,
        UserFilter::ByName(name) => row.name == *name,
    }
}

fn apply_change(row: &User, change: &UserChange, now: i64) -> (res: User)
    ensures
        res@ == changed(row@, change@, now as int),
{
    let name = match &change.name {
        Some(name) => name.clone(),
        None => row.name.clone(),
    };
    let hair_color = match &change.hair_color {
        Some(color) => copy_text(color),
        None => copy_text(&row.hair_color),
    };
    User { id: row.id, name, hair_color, created_at: row.created_at, updated_at: now }
}

impl UserTable {
    /// Applies the change to every row that meets the filter, at time
    /// `now`, and returns how many rows that were; none, and no row
    /// touched, when the change assigns no column.
    pub fn update(&mut self, filter: &UserFilter, change: &UserChange, now: i64) -> (res: Option<
        usize,
    >)
        requires
            old(self).well_formed(),
        ensures
            final(self).well_formed(),
            res is None <==> change.name is None && change.hair_color is None,
            res is None ==> final(self)@ == old(self)@,
            res is Some ==> final(self)@ == update_all(old(self)@, filter@, change@, now as int),
            res is Some ==> res->Some_0 == count_meeting(old(self)@, filter@, old(self)@.len()),
    {
        if change.name.is_none() && change.hair_color.is_none() {
            return None;
        }
        let ghost start = self@;
        let mut count: usize = 0;
        let mut i: usize = 0;
        while i < self.rows.len()
            invariant
                i <= self.rows@.len(),
                self@.len() == start.len(),
                count <= i,
                count == count_meeting(start, filter@, i as nat),
                forall|k: int|
                    0 <= k < i ==> #[trigger] self@[k] == update_all(
                        start,
                        filter@,
                        change@,
                        now as int,
                    )[k],
                forall|k: int| i <= k < start.len() ==> #[trigger] self@[k] == start[k],
            decreases self.rows@.len() - i,
        {
            let ghost before = self@;
            let ghost want = update_all(start, filter@, change@, now as int);
            proof {
                assert(before[i as int] == start[i as int]);
            }
            if meets_filter(&self.rows[i], filter) {
                let row = apply_change(&self.rows[i], change, now);
                self.rows.set(i, row);
                proof {
                    assert(self@ =~= before.update(i as int, row@));
                }
                count += 1;
            }
            proof {
                assert(self@[i as int] == want[i as int]);
                assert forall|k: int| 0 <= k < i implies #[trigger] self@[k] == want[k] by {
                    assert(self@[k] == before[k]);
                }
                assert forall|k: int| i < k < start.len() implies #[trigger] self@[k]
                    == start[k] by {
                    assert(self@[k] == before[k]);
                }
            }
            i += 1;
        }
        proof {
            let want = update_all(start, filter@, change@, now as int);
            assert(self@ =~= want);
            assert forall|a: int, b: int| 0 <= a < b < want.len() implies want[a].id
                < want[b].id by {
                assert(start[a].id < start[b].id);
            }
        }
        Some(count)
    }
}

/// The rows among the first `n` that do not meet the filter, in their
/// order.
pub open spec fn remaining(s: Seq<UserModel>, filter: UserFilterModel, n: nat) -> Seq<UserModel>
    decreases n,
{
    if n == 0 {
        Seq::empty()
    } else if meets(s[n - 1], filter) {
        remaining(s, filter, (n - 1) as nat)
    } else {
        remaining(s, filter, (n - 1) as nat).push(s[n - 1])
    }
}

impl UserTable {
    /// Removes every row that meets the filter and returns how many rows
    /// that were. With a filter on the primary key that is at most one.
    pub fn delete(&mut self, filter: &UserFilter) -> (removed: usize)
        requires
            old(self).well_formed(),
        ensures
            final(self).well_formed(),
            final(self)@ == remaining(old(self)@, filter@, old(self)@.len()),
            removed == count_meeting(old(self)@, filter@, old(self)@.len()),
            filter@ is ById ==> removed <= 1,
    {
        let ghost start = self@;
        let len = self.rows.len();
        let mut out: Vec<User> = Vec::new();
        let mut removed: usize = 0;
        let mut i: usize = 0;
        proof {
            assert(users_view(out@) =~= Seq::<UserModel>::empty());
        }
        while i < len
            invariant
                i <= len,
                len == self.rows@.len(),
                self@ == start,
                sorted(start),
                removed <= i,
                removed == count_meeting(start, filter@, i as nat),
                users_view(out@) == remaining(start, filter@, i as nat),
                sorted(users_view(out@)),
                forall|k: int, j: int|
                    0 <= k < out@.len() && i <= j < len ==> users_view(out@)[k].id < start[j].id,
            decreases len - i,
        {
            let ghost kept = users_view(out@);
            if meets_filter(&self.rows[i], filter) {
                removed += 1;
            } else {
                let row = self.rows[i].duplicate();
                out.push(row);
                proof {
                    assert(users_view(out@) =~= kept.push(row@));
                    assert forall|k: int, j: int|
                        0 <= k < out@.len() && i + 1 <= j < len implies users_view(out@)[k].id
                        < start[j].id by {
                        if k == out@.len() - 1 {
                            assert(start[i as int].id < start[j].id);
                        } else {
                            assert(kept[k].id < start[j].id);
                        }
                    }
                    assert forall|a: int, b: int| 0 <= a < b < out@.len() implies users_view(
                        out@,
                    )[a].id < users_view(out@)[b].id by {
                        if b == out@.len() - 1 {
                            assert(kept[a].id < start[i as int].id);
                        } else {
                            assert(kept[a].id < kept[b].id);
                        }
                    }
                }
            }
            i += 1;
        }
        proof {
            if filter@ is ById {
                lemma_one_row_per_key(start, filter@->ById_0, start.len());
            }
        }
        self.rows = out;
        proof {
            assert(self@ =~= users_view(out@));
        }
        removed
    }
}

/// The index of the row that a read in key order visits at step `step`:
/// from the smallest key up, or from the greatest key down.
pub open spec fn visited(s: Seq<UserModel>, descending: bool, step: int) -> int {
    if descending {
        s.len() - 1 - step
    } else {
        step
    }
}

/// The rows that meet the filter among the first `n` that a read in key
/// order visits, in the order of the visit.
pub open spec fn scanned(
    s: Seq<UserModel>,
    filter: UserFilterModel,
    descending: bool,
    n: nat,
) -> Seq<UserModel>
    decreases n,
{
    if n == 0 {
        Seq::empty()
    } else {
        let before = scanned(s, filter, descending, (n - 1) as nat);
        let row = s[visited(s, descending, n - 1)];
        if meets(row, filter) {
            before.push(row)
        } else {
            before
        }
    }
}

/// The first `limit` of `rows`, or all of them if there are fewer.
pub open spec fn truncated(rows: Seq<UserModel>, limit: nat) -> Seq<UserModel> {
    if rows.len() <= limit {
        rows
    } else {
        rows.subrange(0, limit as int)
    }
}

/// What a read gives: the rows that meet the filter, in ascending or in
/// descending order of key, cut off after `limit` rows.
pub open spec fn selected(
    s: Seq<UserModel>,
    filter: UserFilterModel,
    descending: bool,
    limit: nat,
) -> Seq<UserModel> {
    truncated(scanned(s, filter, descending, s.len()), limit)
}

impl UserTable {
    /// Reads the rows that meet the filter, in ascending or in descending
    /// order of key, cut off after `limit` rows.
    pub fn select(&self, filter: &UserFilter, descending: bool, limit: usize) -> (res: Vec<User>)
        ensures
            users_view(res@) == selected(self@, filter@, descending, limit as nat),
            res@.len() <= limit,
    {
        let len = self.rows.len();
        let mut out: Vec<User> = Vec::new();
        let mut step: usize = 0;
        proof {
            assert(users_view(out@) =~= Seq::<UserModel>::empty());
        }
        while step < len
            invariant
                step <= len,
                len == self.rows@.len(),
                out@.len() <= limit,
                users_view(out@) == truncated(
                    scanned(self@, filter@, descending, step as nat),
                    limit as nat,
                ),
            decreases len - step,
        {
            let index = if descending {
                len - 1 - step
            } else {
                step
            };
            let ghost found = scanned(self@, filter@, descending, step as nat);
            let ghost kept = users_view(out@);
            if meets_filter(&self.rows[index], filter) && out.len() < limit {
                let row = self.rows[index].duplicate();
                out.push(row);
                proof {
                    assert(users_view(out@) =~= kept.push(row@));
                    assert(found.len() < limit);
                    assert(truncated(found.push(row@), limit as nat) =~= kept.push(row@));
                }
            } else {
                proof {
                    let row = self@[index as int];
                    if meets(row, filter@) {
                        assert(truncated(found.push(row), limit as nat) =~= kept);
                    }
                }
            }
            step += 1;
        }
        out
    }
}

/// The views of a list of rows.
pub open spec fn users_view(rows: Seq<User>) -> Seq<UserModel> {
    Seq::new(rows.len(), |i: int| rows[i]@)
}

fn stamp(row: &KeyedUser, now: i64) -> (res: User)
    ensures
        res@ == stamped(*row, now as int),
{
    User {
        id: row.id,
        name: row.name.clone(),
        hair_color: copy_text(&row.hair_color),
        created_at: now,
        updated_at: now,
    }
}

/// Writing a row in place of the one that has its key, or as a new row,
/// keeps the order and leaves exactly that row under its key.
pub proof fn lemma_put_replace(s: Seq<UserModel>, row: UserModel)
    requires
        sorted(s),
    ensures
        sorted(put_replace(s, row)),
        holds_key(put_replace(s, row), row.id),
        put_replace(s, row)[position(put_replace(s, row), row.id)] == row,
{
    let p = position(s, row.id);
    lemma_position_from(s, row.id, 0);
    if holds_key(s, row.id) {
        let t = s.update(p, row);
        assert forall|i: int, j: int| 0 <= i < j < t.len() implies t[i].id < t[j].id by {
            assert(s[i].id < s[j].id);
        }
        lemma_position_is(t, row.id, 0, p);
    } else {
        lemma_put_new(s, row);
    }
}

/// Replacing keeps the table in order.
pub proof fn lemma_replace_all_sorted(s: Seq<UserModel>, rows: Seq<UserModel>, n: nat)
    requires
        sorted(s),
    ensures
        sorted(replace_all(s, rows, n)),
    decreases n,
{
    if n > 0 {
        lemma_replace_all_sorted(s, rows, (n - 1) as nat);
        lemma_put_replace(replace_all(s, rows, (n - 1) as nat), rows[n - 1]);
    }
}

/// An insert that skips taken keys keeps the table in order, keeps every
/// key that was there, and leaves every key of the batch in the table.
pub proof fn lemma_ignore_all_keeps(s: Seq<UserModel>, rows: Seq<UserModel>, n: nat)
    requires
        sorted(s),
        n <= rows.len(),
    ensures
        sorted(ignore_all(s, rows, n)),
        forall|id: int| holds_key(s, id) ==> holds_key(ignore_all(s, rows, n), id),
        forall|k: int| 0 <= k < n ==> holds_key(ignore_all(s, rows, n), #[trigger] rows[k].id),
    decreases n,
{
    if n > 0 {
        let before = ignore_all(s, rows, (n - 1) as nat);
        lemma_ignore_all_keeps(s, rows, (n - 1) as nat);
        if !holds_key(before, rows[n - 1].id) {
            lemma_put_new(before, rows[n - 1]);
        }
    }
}

/// An insert that skips taken keys changes nothing where every key of the
/// batch is taken.
pub proof fn lemma_ignore_all_noop(s: Seq<UserModel>, rows: Seq<UserModel>, n: nat)
    requires
        n <= rows.len(),
        forall|k: int| 0 <= k < n ==> holds_key(s, #[trigger] rows[k].id),
    ensures
        ignore_all(s, rows, n) == s,
        ignore_count(s, rows, n) == 0,
    decreases n,
{
    if n > 0 {
        lemma_ignore_all_noop(s, rows, (n - 1) as nat);
        assert(holds_key(s, rows[n - 1].id));
    }
}

/// Inserting a batch while skipping taken keys, and then inserting the same
/// batch again in the same way, at whatever time, leaves the table as the
/// first insert left it, and the second insert writes no row.
pub proof fn insert_or_ignore_is_idempotent(
    s: Seq<UserModel>,
    rows: Seq<KeyedUser>,
    first: int,
    second: int,
)
    requires
        sorted(s),
    ensures
        ignore_all(
            ignore_all(s, stamped_all(rows, first), rows.len()),
            stamped_all(rows, second),
            rows.len(),
        ) == ignore_all(s, stamped_all(rows, first), rows.len()),
        ignore_count(
            ignore_all(s, stamped_all(rows, first), rows.len()),
            stamped_all(rows, second),
            rows.len(),
        ) == 0,
{
    let once = ignore_all(s, stamped_all(rows, first), rows.len());
    lemma_ignore_all_keeps(s, stamped_all(rows, first), rows.len());
    assert forall|k: int| 0 <= k < rows.len() implies holds_key(
        once,
        #[trigger] stamped_all(rows, second)[k].id,
    ) by {
        assert(stamped_all(rows, first)[k].id == stamped_all(rows, second)[k].id);
    }
    lemma_ignore_all_noop(once, stamped_all(rows, second), rows.len());
}

/// Replacing with a batch, and then replacing with the same batch at
/// another time, does not leave the table as the first replace left it:
/// the row under the key of the batch's last row keeps its name and hair
/// colour, and its timestamps move from the first time to the second.
pub proof fn replace_replay_resets_timestamps(
    s: Seq<UserModel>,
    rows: Seq<KeyedUser>,
    first: int,
    second: int,
)
    requires
        sorted(s),
        rows.len() > 0,
        first != second,
    ensures
        ({
            let once = replace_all(s, stamped_all(rows, first), rows.len());
            let twice = replace_all(once, stamped_all(rows, second), rows.len());
            let id = rows.last().id as int;
            &&& holds_key(once, id) && holds_key(twice, id)
            &&& once[position(once, id)] == stamped(rows.last(), first)
            &&& twice[position(twice, id)] == stamped(rows.last(), second)
            &&& once != twice
        }),
{
    let n = rows.len();
    let a = stamped_all(rows, first);
    let b = stamped_all(rows, second);
    let once = replace_all(s, a, n);
    lemma_replace_all_sorted(s, a, (n - 1) as nat);
    lemma_put_replace(replace_all(s, a, (n - 1) as nat), a[n - 1]);
    lemma_replace_all_sorted(s, a, n);
    lemma_replace_all_sorted(once, b, (n - 1) as nat);
    lemma_put_replace(replace_all(once, b, (n - 1) as nat), b[n - 1]);
}

/// A form written to the table is the row that the read of the latest one
/// row gives back, with the form's name and hair colour.
pub proof fn form_is_read_back(s: Seq<UserModel>, form: FormModel, now: int)
    ensures
        latest_rows(s.push(form_row(s, form, now)), 1) == seq![form_row(s, form, now)],
        form_row(s, form, now).name == form.name,
        form_row(s, form, now).hair_color == form.hair_color,
{
    assert(latest_rows(s.push(form_row(s, form, now)), 1) =~= seq![form_row(s, form, now)]);
}

} // verus!
