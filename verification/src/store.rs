//! The user table: who has signed up, under which name, with which password
//! hash.
//!
//! The table is the contract that the connection handling relies on from
//! whatever keeps the users: names are unique, a lookup finds the row that a
//! signup made, and a second signup under a taken name is refused.

use vstd::prelude::*;

verus! {

/// A user. `password` holds the hash of the password, never the password.
#[derive(Debug, Clone, PartialEq, Eq)]
pub struct User {
    pub id: i64,
    pub name: String,
    pub password: String,
}

/// View of [`User`].
pub struct UserView {
    pub id: i64,
    pub name: Seq<char>,
    pub password: Seq<char>,
}

impl View for User {
    type V = UserView;

    open spec fn view(&self) -> UserView {
        UserView { id: self.id, name: self.name@, password: self.password@ }
    }
}

impl User {
    /// A copy of the user.
    pub fn duplicate(&self) -> (copy: User)
        ensures
            copy@ == self@,
    {
        User { id: self.id, name: self.name.clone(), password: self.password.clone() }
    }
}

/// Why the table did not do what it was asked.
#[derive(Debug, Clone, Copy, PartialEq, Eq)]
pub enum StoreError {
    /// No user has that name.
    NotFound,
    /// A user has that name already.
    Conflict,
}

/// Some row carries the name.
pub open spec fn has_name(rows: Seq<UserView>, name: Seq<char>) -> bool {
    exists|i: int| 0 <= i < rows.len() && (#[trigger] rows[i]).name == name
}

/// The row that carries the name, where there is one.
pub open spec fn row_named(rows: Seq<UserView>, name: Seq<char>) -> UserView {
    rows[choose|i: int| 0 <= i < rows.len() && (#[trigger] rows[i]).name == name]
}

/// Rows as a table holds them: in the order of their creation, numbered
/// from 1, no name twice.
pub open spec fn rows_wf(rows: Seq<UserView>) -> bool {
    &&& rows.len() <= i64::MAX
    &&& forall|i: int| 0 <= i < rows.len() ==> (#[trigger] rows[i]).id == i + 1
    &&& forall|i: int, j: int|
        0 <= i < j < rows.len() ==> (#[trigger] rows[i]).name != (#[trigger] rows[j]).name
}

/// What a lookup answers.
pub open spec fn found(rows: Seq<UserView>, name: Seq<char>) -> Result<UserView, StoreError> {
    if has_name(rows, name) {
        Ok(row_named(rows, name))
    } else {
        Err(StoreError::NotFound)
    }
}

/// The row that a signup under a free name adds.
pub open spec fn new_row(rows: Seq<UserView>, name: Seq<char>, password: Seq<char>) -> UserView {
    UserView { id: (rows.len() + 1) as i64, name, password }
}

/// What a signup answers.
pub open spec fn created(rows: Seq<UserView>, name: Seq<char>, password: Seq<char>) -> Result<
    UserView,
    StoreError,
> {
    if has_name(rows, name) {
        Err(StoreError::Conflict)
    } else {
        Ok(new_row(rows, name, password))
    }
}

/// The rows after a signup.
pub open spec fn rows_after_create(
    rows: Seq<UserView>,
    name: Seq<char>,
    password: Seq<char>,
) -> Seq<UserView> {
    if has_name(rows, name) {
        rows
    } else {
        rows.push(new_row(rows, name, password))
    }
}

/// In well-formed rows a name picks its row.
pub proof fn lemma_row_named(rows: Seq<UserView>, i: int)
    requires
        rows_wf(rows),
        0 <= i < rows.len(),
    ensures
        has_name(rows, rows[i].name),
        row_named(rows, rows[i].name) == rows[i],
{
    let name = rows[i].name;
    let j = choose|j: int| 0 <= j < rows.len() && (#[trigger] rows[j]).name == name;
    assert(j == i);
}

/// A signup keeps the rows well-formed, and keeps every row that was there.
pub proof fn lemma_create_keeps_wf(rows: Seq<UserView>, name: Seq<char>, password: Seq<char>)
    requires
        rows_wf(rows),
        rows.len() < i64::MAX,
    ensures
        rows_wf(rows_after_create(rows, name, password)),
        forall|other: Seq<char>|
            has_name(rows, other) ==> found(rows_after_create(rows, name, password), other)
                == found(rows, other),
{
    let after = rows_after_create(rows, name, password);
    assert forall|other: Seq<char>| has_name(rows, other) implies found(after, other) == found(
        rows,
        other,
    ) by {
        let i = choose|i: int| 0 <= i < rows.len() && (#[trigger] rows[i]).name == other;
        lemma_row_named(rows, i);
        assert(after[i] == rows[i]);
        lemma_row_named(after, i);
    }
}

/// The users, in memory.
pub struct UserTable {
    users: Vec<User>,
}

impl View for UserTable {
    type V = Seq<UserView>;

    closed spec fn view(&self) -> Seq<UserView> {
        self.users@.map_values(|user: User| user@)
    }
}

impl UserTable {
    /// The table holds well-formed rows.
    pub open spec fn wf(&self) -> bool {
        rows_wf(self@)
    }

    /// A table without users.
    pub fn new() -> (table: UserTable)
        ensures
            table.wf(),
            table@ == Seq::<UserView>::empty(),
    {
        let table = UserTable { users: Vec::new() };
        assert(table@ =~= Seq::<UserView>::empty());
        table
    }

    /// How many users there are.
    pub fn len(&self) -> (n: usize)
        ensures
            n == self@.len(),
    {
        self.users.len()
    }

    /// The user of that name, or `NotFound`.
    pub fn find_by_username(&self, name: &str) -> (r: Result<User, StoreError>)
        requires
            self.wf(),
        ensures
            match found(self@, name@) {
                Ok(row) => r is Ok && r->Ok_0@ == row,
                Err(e) => r == Err::<User, StoreError>(e),
            },
    {
        let wanted: String = name.to_owned();
        let mut i: usize = 0;
        while i < self.users.len()
            invariant
                self.wf(),
                i <= self.users.len(),
                wanted@ == name@,
                forall|j: int| 0 <= j < i ==> (#[trigger] self@[j]).name != name@,
            decreases self.users.len() - i,
        {
            if self.users[i].name == wanted {
                proof {
                    lemma_row_named(self@, i as int);
                }
                return Ok(self.users[i].duplicate());
            }
            i += 1;
        }
        Err(StoreError::NotFound)
    }

    /// Signs a user up: a new row with the next id, or `Conflict` where the
    /// name is taken. The table must have room for another id.
    pub fn create_user(&mut self, name: String, password: String) -> (r: Result<User, StoreError>)
        requires
            old(self).wf(),
            old(self)@.len() < i64::MAX,
        ensures
            final(self).wf(),
            final(self)@ == rows_after_create(old(self)@, name@, password@),
            match created(old(self)@, name@, password@) {
                Ok(row) => r is Ok && r->Ok_0@ == row,
                Err(e) => r == Err::<User, StoreError>(e),
            },
    {
        proof {
            lemma_create_keeps_wf(self@, name@, password@);
        }
        let mut i: usize = 0;
        while i < self.users.len()
            invariant
                self.wf(),
                self@ == old(self)@,
                i <= self.users.len(),
                forall|j: int| 0 <= j < i ==> (#[trigger] self@[j]).name != name@,
            decreases self.users.len() - i,
        {
            if self.users[i].name == name {
                assert(self@[i as int].name == name@);
                return Err(StoreError::Conflict);
            }
            i += 1;
        }
        let user = User { id: self.users.len() as i64 + 1, name, password };
        let copy = user.duplicate();
        self.users.push(user);
        assert(self@ =~= old(self)@.push(copy@));
        Ok(copy)
    }
}

} // verus!
