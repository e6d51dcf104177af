use vstd::prelude::*;

verus! {

/// One record of the person table: a numeric key and a display name.
#[derive(Debug)]
pub struct Person {
    pub id: u32,
    pub name: String,
}

impl Clone for Person {
    /// A clone of a person equals the original.
    fn clone(&self) -> (r: Self)
        ensures
            r == *self,
    {
        Person { id: self.id, name: self.name.clone() }
    }
}

/// What a user of the store is allowed to do.
#[derive(Clone, Copy, PartialEq, Eq, Structural, Debug)]
pub enum DbPrivilege {
    CanRead,
    CanWrite,
}

/// One account: credentials and the privileges granted to them.
#[derive(Debug)]
pub struct User {
    pub username: String,
    pub password: String,
    pub privileges: Vec<DbPrivilege>,
}

impl Clone for User {
    /// A clone of a user carries the same credentials and privileges.
    fn clone(&self) -> (r: Self)
        ensures
            r.username == self.username,
            r.password == self.password,
            r.privileges@ == self.privileges@,
    {
        User {
            username: self.username.clone(),
            password: self.password.clone(),
            privileges: clone_privileges(&self.privileges),
        }
    }
}

/// A copy of a privilege list holds the same privileges in the same order.
fn clone_privileges(v: &Vec<DbPrivilege>) -> (r: Vec<DbPrivilege>)
    ensures
        r@ == v@,
{
    let mut r: Vec<DbPrivilege> = Vec::new();
    let n = v.len();
    let mut i: usize = 0;
    while i < n
        invariant
            n == v@.len(),
            i <= n,
            r@ == v@.take(i as int),
        decreases n - i,
    {
        r.push(v[i]);
        proof {
            assert(r@ =~= v@.take(i as int + 1));
        }
        i = i + 1;
    }
    proof {
        assert(v@.take(n as int) =~= v@);
    }
    r
}

/// `needle` occurs in `haystack` starting at position `i`.
pub open spec fn contains_at(haystack: Seq<char>, needle: Seq<char>, i: int) -> bool {
    0 <= i && i + needle.len() <= haystack.len() && haystack.subrange(i, i + needle.len())
        == needle
}

/// `needle` occurs somewhere in `haystack` (anywhere, including the empty
/// needle at position zero).
pub open spec fn seq_contains(haystack: Seq<char>, needle: Seq<char>) -> bool {
    exists|i: int| contains_at(haystack, needle, i)
}

/// Does `needle` occur at position `start` of `haystack`?
fn match_at(haystack: &str, needle: &str, start: usize, n: usize, m: usize) -> (r: bool)
    requires
        n == haystack@.len(),
        m == needle@.len(),
        start + m <= n,
    ensures
        r == contains_at(haystack@, needle@, start as int),
{
    let mut j: usize = 0;
    while j < m
        invariant
            n == haystack@.len(),
            m == needle@.len(),
            start + m <= n,
            j <= m,
            forall|k: int| 0 <= k < j ==> haystack@[start + k] == needle@[k],
        decreases m - j,
    {
        if haystack.get_char(start + j) != needle.get_char(j) {
            proof {
                let s = start as int;
                if contains_at(haystack@, needle@, s) {
                    assert(haystack@.subrange(s, s + m)[j as int] == haystack@[s + j]);
                    assert(false);
                }
            }
            return false;
        }
        j = j + 1;
    }
    proof {
        let s = start as int;
        assert(haystack@.subrange(s, s + m) =~= needle@);
    }
    true
}

/// Does `needle` occur anywhere in `haystack`? Every haystack contains the
/// empty needle.
pub fn str_contains(haystack: &str, needle: &str) -> (r: bool)
    ensures
        r == seq_contains(haystack@, needle@),
{
    let n = haystack.unicode_len();
    let m = needle.unicode_len();
    if m > n {
        proof {
            assert forall|i: int| !contains_at(haystack@, needle@, i) by {}
        }
        return false;
    }
    let limit = n - m;
    let mut start: usize = 0;
    loop
        invariant
            n == haystack@.len(),
            m == needle@.len(),
            m <= n,
            limit == n - m,
            start <= limit,
            forall|i: int| 0 <= i < start ==> !contains_at(haystack@, needle@, i),
        decreases limit - start,
    {
        if match_at(haystack, needle, start, n, m) {
            proof {
                assert(seq_contains(haystack@, needle@));
            }
            return true;
        }
        if start == limit {
            proof {
                assert forall|i: int| !contains_at(haystack@, needle@, i) by {}
            }
            return false;
        }
        start = start + 1;
    }
}

/// The persons whose names contain `partial` as a substring, in table order.
pub open spec fn matching_persons(persons: Seq<Person>, partial: Seq<char>) -> Seq<Person> {
    persons.filter(|p: Person| seq_contains(p.name@, partial))
}

/// An in-memory directory-style store: a person table scanned linearly and
/// keyed by an auto-incrementing id, plus a fixed set of user accounts.
pub struct DbConnection {
    persons: Vec<Person>,
    users: Vec<User>,
}

impl DbConnection {
    /// The person table as a sequence, in insertion order.
    pub closed spec fn persons_view(&self) -> Seq<Person> {
        self.persons@
    }

    /// The user accounts as a sequence.
    pub closed spec fn users_view(&self) -> Seq<User> {
        self.users@
    }

    /// A fresh connection: an empty person table and the two built-in
    /// accounts, a reader and a reader-writer.
    pub fn new() -> (r: Self)
        ensures
            r.persons_view() == Seq::<Person>::empty(),
            r.users_view().len() == 2,
            r.users_view()[0].username@ == "joe"@,
            r.users_view()[0].password@ == "xjoe"@,
            r.users_view()[0].privileges@ == seq![DbPrivilege::CanRead],
            r.users_view()[1].username@ == "susan"@,
            r.users_view()[1].password@ == "xsusan"@,
            r.users_view()[1].privileges@ == seq![DbPrivilege::CanRead, DbPrivilege::CanWrite],
    {
        let mut joe_privileges: Vec<DbPrivilege> = Vec::new();
        joe_privileges.push(DbPrivilege::CanRead);
        let mut susan_privileges: Vec<DbPrivilege> = Vec::new();
        susan_privileges.push(DbPrivilege::CanRead);
        susan_privileges.push(DbPrivilege::CanWrite);
        let mut users: Vec<User> = Vec::new();
        users.push(
            User {
                username: "joe".to_owned(),
                password: "xjoe".to_owned(),
                privileges: joe_privileges,
            },
        );
        users.push(
            User {
                username: "susan".to_owned(),
                password: "xsusan".to_owned(),
                privileges: susan_privileges,
            },
        );
        proof {
            assert(users@[0].privileges@ =~= seq![DbPrivilege::CanRead]);
            assert(users@[1].privileges@ =~= seq![DbPrivilege::CanRead, DbPrivilege::CanWrite]);
        }
        DbConnection { persons: Vec::new(), users }
    }

    /// The first account with the given username, if any.
    pub fn get_user_by_username(&self, username: &str) -> (r: Option<&User>)
        ensures
            match r {
                Some(u) => exists|i: int|
                    0 <= i < self.users_view().len() && self.users_view()[i] == *u
                        && self.users_view()[i].username@ == username@ && (forall|j: int|
                        0 <= j < i ==> self.users_view()[j].username@ != username@),
                None => forall|i: int|
                    0 <= i < self.users_view().len() ==> self.users_view()[i].username@
                        != username@,
            },
    {
        let target = username.to_owned();
        let n = self.users.len();
        let mut i: usize = 0;
        while i < n
            invariant
                n == self.users@.len(),
                i <= n,
                target@ == username@,
                forall|j: int| 0 <= j < i ==> self.users@[j].username@ != username@,
            decreases n - i,
        {
            if self.users[i].username == target {
                proof {
                    let wi = i as int;
                    assert(0 <= wi < self.users_view().len() && self.users_view()[wi]
                        == self.users@[wi] && self.users_view()[wi].username@ == username@
                        && (forall|j: int|
                        0 <= j < wi ==> self.users_view()[j].username@ != username@));
                }
                return Some(&self.users[i]);
            }
            i = i + 1;
        }
        None
    }

    /// The first person with the given id, if any.
    pub fn get_person_by_id(&self, id: u32) -> (r: Option<&Person>)
        ensures
            match r {
                Some(p) => exists|i: int|
                    0 <= i < self.persons_view().len() && self.persons_view()[i] == *p
                        && self.persons_view()[i].id == id && (forall|j: int|
                        0 <= j < i ==> self.persons_view()[j].id != id),
                None => forall|i: int|
                    0 <= i < self.persons_view().len() ==> self.persons_view()[i].id != id,
            },
    {
        let n = self.persons.len();
        let mut i: usize = 0;
        while i < n
            invariant
                n == self.persons@.len(),
                i <= n,
                forall|j: int| 0 <= j < i ==> self.persons@[j].id != id,
            decreases n - i,
        {
            if self.persons[i].id == id {
                proof {
                    let wi = i as int;
                    assert(0 <= wi < self.persons_view().len() && self.persons_view()[wi]
                        == self.persons@[wi] && self.persons_view()[wi].id == id && (forall|j: int|
                        0 <= j < wi ==> self.persons_view()[j].id != id));
                }
                return Some(&self.persons[i]);
            }
            i = i + 1;
        }
        None
    }

    /// All persons whose names contain the given fragment, in table order.
    pub fn get_persons_by_partial_name(&self, partial_name: &str) -> (r: Vec<Person>)
        ensures
            r@ == matching_persons(self.persons_view(), partial_name@),
    {
        let mut r: Vec<Person> = Vec::new();
        let n = self.persons.len();
        let mut i: usize = 0;
        while i < n
            invariant
                n == self.persons@.len(),
                i <= n,
                r@ == matching_persons(self.persons@.take(i as int), partial_name@),
            decreases n - i,
        {
            let p = &self.persons[i];
            if str_contains(p.name.as_str(), partial_name) {
                r.push(p.clone());
            }
            proof {
                reveal(Seq::filter);
                let s = self.persons@;
                assert(s.take(i as int + 1).drop_last() =~= s.take(i as int));
                assert(s.take(i as int + 1).last() == s[i as int]);
            }
            i = i + 1;
        }
        proof {
            assert(self.persons@.take(n as int) =~= self.persons@);
        }
        r
    }

    /// Remove the first person with the given id. Reports whether one
    /// existed; the user accounts never change.
    pub fn delete_by_id(&mut self, id: u32) -> (deleted: bool)
        ensures
            deleted == (exists|i: int|
                0 <= i < old(self).persons_view().len() && old(self).persons_view()[i].id == id),
            deleted ==> exists|i: int|
                0 <= i < old(self).persons_view().len() && old(self).persons_view()[i].id == id
                    && (forall|j: int| 0 <= j < i ==> old(self).persons_view()[j].id != id)
                    && final(self).persons_view() == old(self).persons_view().remove(i),
            !deleted ==> final(self).persons_view() == old(self).persons_view(),
            final(self).users_view() == old(self).users_view(),
    {
        let n = self.persons.len();
        let mut i: usize = 0;
        while i < n
            invariant
                *self == *old(self),
                n == self.persons@.len(),
                i <= n,
                forall|j: int| 0 <= j < i ==> self.persons@[j].id != id,
            decreases n - i,
        {
            if self.persons[i].id == id {
                self.persons.remove(i);
                proof {
                    let wi = i as int;
                    assert(0 <= wi < old(self).persons_view().len()
                        && old(self).persons_view()[wi].id == id
                        && (forall|j: int| 0 <= j < wi ==> old(self).persons_view()[j].id != id)
                        && self.persons_view() == old(self).persons_view().remove(wi));
                }
                return true;
            }
            i = i + 1;
        }
        false
    }

    /// Append a person under the next id: one above the last person's id,
    /// or one for an empty table. The stored record carries the new id;
    /// the given record's own id is ignored, as the table assigns keys.
    pub fn insert_person(&mut self, person: Person) -> (new_id: u32)
        requires
            old(self).persons_view().len() > 0 ==> old(self).persons_view().last().id < u32::MAX,
        ensures
            new_id == if old(self).persons_view().len() == 0 {
                1u32
            } else {
                (old(self).persons_view().last().id + 1) as u32
            },
            final(self).persons_view() == old(self).persons_view().push(
                Person { id: new_id, name: person.name },
            ),
            final(self).users_view() == old(self).users_view(),
    {
        let mut person = person;
        let new_id: u32 = if self.persons.is_empty() {
            1
        } else {
            self.persons[self.persons.len() - 1].id + 1
        };
        person.id = new_id;
        self.persons.push(person);
        new_id
    }

    /// Replace the first person whose id equals the given record's id with
    /// that record. Reports whether one existed; the user accounts never
    /// change.
    pub fn update_person(&mut self, person: Person) -> (updated: bool)
        ensures
            updated == (exists|i: int|
                0 <= i < old(self).persons_view().len() && old(self).persons_view()[i].id
                    == person.id),
            updated ==> exists|i: int|
                0 <= i < old(self).persons_view().len() && old(self).persons_view()[i].id
                    == person.id
                    && (forall|j: int| 0 <= j < i ==> old(self).persons_view()[j].id != person.id)
                    && final(self).persons_view() == old(self).persons_view().update(i, person),
            !updated ==> final(self).persons_view() == old(self).persons_view(),
            final(self).users_view() == old(self).users_view(),
    {
        let n = self.persons.len();
        let mut i: usize = 0;
        while i < n
            invariant
                *self == *old(self),
                n == self.persons@.len(),
                i <= n,
                forall|j: int| 0 <= j < i ==> self.persons@[j].id != person.id,
            decreases n - i,
        {
            if self.persons[i].id == person.id {
                let ghost pre = self.persons@;
                let ghost gp = person;
                self.persons.remove(i);
                self.persons.insert(i, person);
                proof {
                    assert(self.persons@ =~= pre.update(i as int, gp));
                    let wi = i as int;
                    assert(0 <= wi < old(self).persons_view().len()
                        && old(self).persons_view()[wi].id == gp.id
                        && (forall|j: int| 0 <= j < wi ==> old(self).persons_view()[j].id != gp.id)
                        && self.persons_view() == old(self).persons_view().update(wi, gp));
                }
                return true;
            }
            i = i + 1;
        }
        false
    }
}

} // verus!
