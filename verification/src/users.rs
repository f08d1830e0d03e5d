//! WebDAV accounts: a permission string, a password, and the table of users
//! keyed by name.

use vstd::prelude::*;
use crate::text::{chars_of, same_chars, chars_lt, lex_lt, lemma_lex_lt_irreflexive,
    lemma_lex_lt_total, lemma_lex_lt_transitive};

verus! {

/// Whether every character of a permission string is `r`, `w` or `x`.
pub open spec fn valid_permissions(perms: Seq<char>) -> bool {
    forall|i: int| 0 <= i < perms.len() ==> is_permission_char(#[trigger] perms[i])
}

/// The three capabilities: `r` read, `w` write, `x` execute.
pub open spec fn is_permission_char(c: char) -> bool {
    c == 'r' || c == 'w' || c == 'x'
}

/// Whether a permission string grants the capability `c`. A capability
/// written twice counts once.
pub open spec fn grants(perms: Seq<char>, c: char) -> bool {
    perms.contains(c)
}

/// Checks a permission string before it is stored.
pub fn is_valid_permissions(perms: &str) -> (valid: bool)
    ensures
        valid == valid_permissions(perms@),
{
    let chars = chars_of(perms);
    let mut i: usize = 0;
    while i < chars.len()
        invariant
            i <= chars.len(),
            chars@ == perms@,
            forall|k: int| 0 <= k < i ==> is_permission_char(#[trigger] chars@[k]),
        decreases chars.len() - i,
    {
        let c = chars[i];
        if !(c == 'r' || c == 'w' || c == 'x') {
            return false;
        }
        i += 1;
    }
    true
}

/// Whether the permission string `perms` grants the capability `c`.
pub fn has_permission(perms: &str, c: char) -> (granted: bool)
    ensures
        granted == grants(perms@, c),
{
    let chars = chars_of(perms);
    crate::text::contains_char(chars.as_slice(), c)
}

/// What is stored for one user. The password is kept as given.
#[derive(Clone, Debug)]
pub struct UserConfig {
    pub password: String,
    pub permissions: String,
}

/// The mathematical content of a `UserConfig`.
pub struct UserSpec {
    pub password: Seq<char>,
    pub permissions: Seq<char>,
}

impl View for UserConfig {
    type V = UserSpec;

    open spec fn view(&self) -> UserSpec {
        UserSpec { password: self.password@, permissions: self.permissions@ }
    }
}

impl UserConfig {
    /// A user record with the given password and permission string.
    pub fn new(password: &str, permissions: &str) -> (user: UserConfig)
        ensures
            user@.password == password@,
            user@.permissions == permissions@,
    {
        UserConfig { password: password.to_owned(), permissions: permissions.to_owned() }
    }

    /// A copy of this record.
    pub fn duplicate(&self) -> (user: UserConfig)
        ensures
            user@ == self@,
    {
        UserConfig { password: self.password.clone(), permissions: self.permissions.clone() }
    }
}

/// One row of the table.
struct UserEntry {
    name: String,
    config: UserConfig,
}

/// Names and records as a sequence of pairs.
pub type Rows = Seq<(Seq<char>, UserSpec)>;

/// Whether the names of `rows` ascend strictly, so that none occurs twice.
pub open spec fn rows_sorted(rows: Rows) -> bool {
    forall|i: int, j: int| 0 <= i < j < rows.len() ==> lex_lt(#[trigger] rows[i].0, #[trigger] rows[j].0)
}

/// Whether some row of `rows` carries the name `name`.
pub open spec fn rows_have(rows: Rows, name: Seq<char>) -> bool {
    exists|i: int| 0 <= i < rows.len() && (#[trigger] rows[i]).0 == name
}

/// The map from each name in `rows` to its record.
pub open spec fn rows_map(rows: Rows) -> Map<Seq<char>, UserSpec> {
    Map::new(
        |name: Seq<char>| rows_have(rows, name),
        |name: Seq<char>| rows[choose|i: int| 0 <= i < rows.len() && (#[trigger] rows[i]).0 == name].1,
    )
}

/// In sorted rows each name leads to the record beside it.
pub proof fn lemma_rows_lookup(rows: Rows, i: int)
    requires
        rows_sorted(rows),
        0 <= i < rows.len(),
    ensures
        rows_map(rows).contains_key(rows[i].0),
        rows_map(rows)[rows[i].0] == rows[i].1,
{
    let name = rows[i].0;
    let j = choose|j: int| 0 <= j < rows.len() && (#[trigger] rows[j]).0 == name;
    lemma_lex_lt_irreflexive(name);
    if j < i {
        assert(lex_lt(rows[j].0, rows[i].0));
    } else if i < j {
        assert(lex_lt(rows[i].0, rows[j].0));
    }
}

/// The rows that a sequence of entries stands for.
spec fn rows_of(entries: Seq<UserEntry>) -> Rows {
    Seq::new(entries.len(), |i: int| (entries[i].name@, entries[i].config@))
}

/// The users of the WebDAV service, each name once, kept in ascending order
/// of name.
pub struct UserTable {
    entries: Vec<UserEntry>,
}

impl UserTable {
    /// The rows of the table, in order.
    pub closed spec fn rows(&self) -> Rows {
        rows_of(self.entries@)
    }

    #[verifier::type_invariant]
    spec fn ordered(&self) -> bool {
        rows_sorted(self.rows())
    }

    /// A table without users.
    pub fn new() -> (table: UserTable)
        ensures
            table@ == Map::<Seq<char>, UserSpec>::empty(),
            table.rows().len() == 0,
    {
        let table = UserTable { entries: Vec::new() };
        assert(table@ =~= Map::<Seq<char>, UserSpec>::empty());
        table
    }

    /// The number of users.
    pub fn len(&self) -> (n: usize)
        ensures
            n == self.rows().len(),
            n == self@.dom().len(),
            self@.dom().finite(),
            rows_sorted(self.rows()),
    {
        proof {
            use_type_invariant(self);
            lemma_rows_domain(self.rows());
        }
        self.entries.len()
    }

    /// Whether the table has no user.
    pub fn is_empty(&self) -> (empty: bool)
        ensures
            empty == (self.rows().len() == 0),
            empty == (self@ == Map::<Seq<char>, UserSpec>::empty()),
    {
        proof {
            if self.rows().len() == 0 {
                assert(self@ =~= Map::<Seq<char>, UserSpec>::empty());
            } else {
                assert(rows_have(self.rows(), self.rows()[0].0));
                assert(self@.contains_key(self.rows()[0].0));
            }
        }
        self.entries.len() == 0
    }

    /// The place of `name` among the rows: the first row whose name does not
    /// come before it.
    fn position(&self, name: &[char]) -> (at: (usize, bool))
        ensures
            at.0 <= self.rows().len(),
            forall|k: int| 0 <= k < at.0 ==> lex_lt(#[trigger] self.rows()[k].0, name@),
            at.1 ==> at.0 < self.rows().len() && self.rows()[at.0 as int].0 == name@,
            !at.1 ==> forall|k: int| at.0 <= k < self.rows().len() ==> lex_lt(name@, #[trigger] self.rows()[k].0),
            at.1 == rows_have(self.rows(), name@),
    {
        proof {
            use_type_invariant(self);
        }
        let mut i: usize = 0;
        let mut found = false;
        while i < self.entries.len()
            invariant_except_break
                !found,
            invariant
                i <= self.entries.len(),
                rows_sorted(self.rows()),
                self.rows().len() == self.entries@.len(),
                forall|k: int| 0 <= k < i ==> lex_lt(#[trigger] self.rows()[k].0, name@),
            ensures
                i <= self.entries.len(),
                forall|k: int| 0 <= k < i ==> lex_lt(#[trigger] self.rows()[k].0, name@),
                found ==> i < self.rows().len() && self.rows()[i as int].0 == name@,
                !found ==> forall|k: int| i <= k < self.rows().len() ==> lex_lt(name@, #[trigger] self.rows()[k].0),
            decreases self.entries.len() - i,
        {
            let here = chars_of(self.entries[i].name.as_str());
            assert(here@ == self.rows()[i as int].0);
            if same_chars(here.as_slice(), name) {
                found = true;
                break;
            }
            if !chars_lt(here.as_slice(), name) {
                proof {
                    lemma_lex_lt_total(here@, name@);
                    assert forall|k: int| i <= k < self.rows().len() implies lex_lt(
                        name@,
                        #[trigger] self.rows()[k].0,
                    ) by {
                        if i < k {
                            assert(lex_lt(self.rows()[i as int].0, self.rows()[k].0));
                            lemma_lex_lt_transitive(name@, here@, self.rows()[k].0);
                        }
                    }
                }
                break;
            }
            i += 1;
        }
        proof {
            lemma_lex_lt_irreflexive(name@);
            if !found {
                assert forall|k: int| 0 <= k < self.rows().len() implies (#[trigger] self.rows()[k]).0
                    != name@ by {
                    if k < i {
                        assert(lex_lt(self.rows()[k].0, name@));
                    } else {
                        assert(lex_lt(name@, self.rows()[k].0));
                    }
                }
            } else {
                assert(self.rows()[i as int].0 == name@);
            }
        }
        (i, found)
    }

    /// Whether a user called `name` exists.
    pub fn contains_key(&self, name: &str) -> (found: bool)
        ensures
            found == self@.contains_key(name@),
    {
        let key = chars_of(name);
        let at = self.position(key.as_slice());
        at.1
    }

    /// The record of the user called `name`, if there is one.
    pub fn get(&self, name: &str) -> (user: Option<&UserConfig>)
        ensures
            user is Some == self@.contains_key(name@),
            user matches Some(u) ==> u@ == self@[name@],
    {
        let key = chars_of(name);
        let at = self.position(key.as_slice());
        if at.1 {
            proof {
                use_type_invariant(self);
                lemma_rows_lookup(self.rows(), at.0 as int);
            }
            Some(&self.entries[at.0].config)
        } else {
            None
        }
    }

    /// Stores `config` under `name`, and returns the record that was there
    /// before, if any.
    pub fn insert(&mut self, name: &str, config: UserConfig) -> (previous: Option<UserConfig>)
        ensures
            final(self)@ == old(self)@.insert(name@, config@),
            previous is Some == old(self)@.contains_key(name@),
            previous matches Some(p) ==> p@ == old(self)@[name@],
    {
        let key = chars_of(name);
        let at = self.position(key.as_slice());
        let i = at.0;
        let ghost before = self.rows();
        proof {
            use_type_invariant(&*self);
        }
        let entry = UserEntry { name: name.to_owned(), config };
        let mut entries: Vec<UserEntry> = Vec::new();
        core::mem::swap(&mut self.entries, &mut entries);
        assert(rows_of(entries@) == before);
        if at.1 {
            proof {
                lemma_rows_lookup(before, i as int);
            }
            entries.push(entry);
            let removed = entries.swap_remove(i);
            proof {
                assert(rows_of(entries@) =~= before.update(i as int, (name@, config@)));
                lemma_rows_update(before, i as int, config@);
            }
            core::mem::swap(&mut self.entries, &mut entries);
            Some(removed.config)
        } else {
            entries.insert(i, entry);
            proof {
                assert(rows_of(entries@) =~= before.insert(i as int, (name@, config@)));
                lemma_rows_insert(before, i as int, name@, config@);
            }
            core::mem::swap(&mut self.entries, &mut entries);
            None
        }
    }

    /// Removes the user called `name`, and returns its record, if there was
    /// one.
    pub fn remove(&mut self, name: &str) -> (removed: Option<UserConfig>)
        ensures
            final(self)@ == old(self)@.remove(name@),
            removed is Some == old(self)@.contains_key(name@),
            removed matches Some(r) ==> r@ == old(self)@[name@],
    {
        let key = chars_of(name);
        let at = self.position(key.as_slice());
        let ghost before = self.rows();
        proof {
            use_type_invariant(&*self);
        }
        if at.1 {
            proof {
                lemma_rows_lookup(before, at.0 as int);
            }
            let mut entries: Vec<UserEntry> = Vec::new();
            core::mem::swap(&mut self.entries, &mut entries);
            assert(rows_of(entries@) == before);
            let entry = entries.remove(at.0);
            proof {
                assert(rows_of(entries@) =~= before.remove(at.0 as int));
                lemma_rows_remove(before, at.0 as int);
            }
            core::mem::swap(&mut self.entries, &mut entries);
            Some(entry.config)
        } else {
            proof {
                assert(self@ =~= old(self)@.remove(name@));
            }
            None
        }
    }

    /// The name of the user in row `i`.
    pub fn name_at(&self, i: usize) -> (name: &str)
        requires
            i < self.rows().len(),
        ensures
            name@ == self.rows()[i as int].0,
    {
        self.entries[i].name.as_str()
    }

    /// The record of the user in row `i`.
    pub fn config_at(&self, i: usize) -> (user: &UserConfig)
        requires
            i < self.rows().len(),
        ensures
            user@ == self.rows()[i as int].1,
            self@.contains_key(self.rows()[i as int].0),
            user@ == self@[self.rows()[i as int].0],
    {
        proof {
            use_type_invariant(self);
            lemma_rows_lookup(self.rows(), i as int);
        }
        &self.entries[i].config
    }

    /// A copy of the table.
    pub fn duplicate(&self) -> (table: UserTable)
        ensures
            table.rows() == self.rows(),
            table@ == self@,
    {
        proof {
            use_type_invariant(self);
        }
        let mut entries: Vec<UserEntry> = Vec::new();
        let mut i: usize = 0;
        while i < self.entries.len()
            invariant
                i <= self.entries.len(),
                entries@.len() == i,
                forall|k: int| 0 <= k < i ==> (#[trigger] entries@[k]).name@ == self.entries@[k].name@
                    && entries@[k].config@ == self.entries@[k].config@,
            decreases self.entries.len() - i,
        {
            let e = &self.entries[i];
            entries.push(UserEntry { name: e.name.clone(), config: e.config.duplicate() });
            i += 1;
        }
        assert(rows_of(entries@) =~= self.rows());
        UserTable { entries }
    }
}

impl View for UserTable {
    type V = Map<Seq<char>, UserSpec>;

    /// The table as a map from name to record.
    open spec fn view(&self) -> Map<Seq<char>, UserSpec> {
        rows_map(self.rows())
    }
}

/// The names of sorted rows are as many as the rows.
pub proof fn lemma_rows_domain(rows: Rows)
    requires
        rows_sorted(rows),
    ensures
        rows_map(rows).dom().finite(),
        rows_map(rows).dom().len() == rows.len(),
    decreases rows.len(),
{
    if rows.len() == 0 {
        assert(rows_map(rows).dom() =~= Set::<Seq<char>>::empty());
    } else {
        let n = rows.len() - 1;
        let front = rows.remove(n);
        assert(rows_sorted(front)) by {
            assert forall|i: int, j: int| 0 <= i < j < front.len() implies lex_lt(
                #[trigger] front[i].0,
                #[trigger] front[j].0,
            ) by {
                assert(front[i] == rows[i] && front[j] == rows[j]);
            }
        }
        lemma_rows_domain(front);
        lemma_rows_remove(rows, n);
        lemma_rows_lookup(rows, n);
        assert(rows_map(front).dom() =~= rows_map(rows).dom().remove(rows[n].0));
    }
}

/// Replacing the record in row `i` of sorted rows replaces it in the map.
pub proof fn lemma_rows_update(rows: Rows, i: int, config: UserSpec)
    requires
        rows_sorted(rows),
        0 <= i < rows.len(),
    ensures
        rows_sorted(rows.update(i, (rows[i].0, config))),
        rows_map(rows.update(i, (rows[i].0, config))) == rows_map(rows).insert(rows[i].0, config),
{
    let name = rows[i].0;
    let after = rows.update(i, (name, config));
    assert(rows_sorted(after)) by {
        assert forall|a: int, b: int| 0 <= a < b < after.len() implies lex_lt(
            #[trigger] after[a].0,
            #[trigger] after[b].0,
        ) by {
            assert(after[a].0 == rows[a].0 && after[b].0 == rows[b].0);
        }
    }
    let m = rows_map(rows).insert(name, config);
    assert forall|k: Seq<char>| rows_map(after).contains_key(k) == m.contains_key(k) by {
        if rows_have(after, k) {
            let j = choose|j: int| 0 <= j < after.len() && (#[trigger] after[j]).0 == k;
            assert(rows[j].0 == k);
        }
        if rows_have(rows, k) {
            let j = choose|j: int| 0 <= j < rows.len() && (#[trigger] rows[j]).0 == k;
            assert(after[j].0 == k);
        }
        if k == name {
            assert(after[i].0 == k);
        }
    }
    assert forall|k: Seq<char>| rows_map(after).contains_key(k) implies rows_map(after)[k] == m[k] by {
        let j = choose|j: int| 0 <= j < after.len() && (#[trigger] after[j]).0 == k;
        lemma_rows_lookup(after, j);
        if j != i {
            assert(rows[j].0 == k);
            lemma_rows_lookup(rows, j);
            lemma_lex_lt_irreflexive(k);
            if j < i {
                assert(lex_lt(rows[j].0, rows[i].0));
            } else {
                assert(lex_lt(rows[i].0, rows[j].0));
            }
        }
    }
    assert(rows_map(after) =~= m);
}

/// Adding a row at its sorted place adds its name to the map.
pub proof fn lemma_rows_insert(rows: Rows, i: int, name: Seq<char>, config: UserSpec)
    requires
        rows_sorted(rows),
        0 <= i <= rows.len(),
        forall|k: int| 0 <= k < i ==> lex_lt(#[trigger] rows[k].0, name),
        forall|k: int| i <= k < rows.len() ==> lex_lt(name, #[trigger] rows[k].0),
    ensures
        rows_sorted(rows.insert(i, (name, config))),
        rows_map(rows.insert(i, (name, config))) == rows_map(rows).insert(name, config),
{
    let after = rows.insert(i, (name, config));
    assert(after.len() == rows.len() + 1);
    assert forall|a: int| 0 <= a < after.len() implies #[trigger] after[a] == (if a < i {
        rows[a]
    } else if a == i {
        (name, config)
    } else {
        rows[a - 1]
    }) by {}
    assert(rows_sorted(after)) by {
        assert forall|a: int, b: int| 0 <= a < b < after.len() implies lex_lt(
            #[trigger] after[a].0,
            #[trigger] after[b].0,
        ) by {
            if b < i {
                assert(lex_lt(rows[a].0, rows[b].0));
            } else if b == i {
                assert(lex_lt(rows[a].0, name));
            } else if a < i {
                assert(lex_lt(rows[a].0, name));
                assert(lex_lt(name, rows[b - 1].0));
                lemma_lex_lt_transitive(rows[a].0, name, rows[b - 1].0);
            } else if a == i {
                assert(lex_lt(name, rows[b - 1].0));
            } else {
                assert(lex_lt(rows[a - 1].0, rows[b - 1].0));
            }
        }
    }
    let m = rows_map(rows).insert(name, config);
    assert forall|k: Seq<char>| rows_map(after).contains_key(k) == m.contains_key(k) by {
        if rows_have(after, k) {
            let j = choose|j: int| 0 <= j < after.len() && (#[trigger] after[j]).0 == k;
            if j < i {
                assert(rows[j].0 == k);
            } else if j > i {
                assert(rows[j - 1].0 == k);
            }
        }
        if rows_have(rows, k) {
            let j = choose|j: int| 0 <= j < rows.len() && (#[trigger] rows[j]).0 == k;
            if j < i {
                assert(after[j].0 == k);
            } else {
                assert(after[j + 1].0 == k);
            }
        }
        if k == name {
            assert(after[i].0 == k);
        }
    }
    assert forall|k: Seq<char>| rows_map(after).contains_key(k) implies rows_map(after)[k] == m[k] by {
        let j = choose|j: int| 0 <= j < after.len() && (#[trigger] after[j]).0 == k;
        lemma_rows_lookup(after, j);
        lemma_lex_lt_irreflexive(name);
        if j < i {
            assert(rows[j].0 == k);
            lemma_rows_lookup(rows, j);
        } else if j > i {
            assert(rows[j - 1].0 == k);
            lemma_rows_lookup(rows, j - 1);
        }
    }
    assert(rows_map(after) =~= m);
}

/// Taking row `i` out of sorted rows takes its name out of the map.
pub proof fn lemma_rows_remove(rows: Rows, i: int)
    requires
        rows_sorted(rows),
        0 <= i < rows.len(),
    ensures
        rows_sorted(rows.remove(i)),
        rows_map(rows.remove(i)) == rows_map(rows).remove(rows[i].0),
{
    let name = rows[i].0;
    let after = rows.remove(i);
    assert forall|a: int| 0 <= a < after.len() implies #[trigger] after[a] == (if a < i {
        rows[a]
    } else {
        rows[a + 1]
    }) by {}
    assert(rows_sorted(after)) by {
        assert forall|a: int, b: int| 0 <= a < b < after.len() implies lex_lt(
            #[trigger] after[a].0,
            #[trigger] after[b].0,
        ) by {
            let x = if a < i { a } else { a + 1 };
            let y = if b < i { b } else { b + 1 };
            assert(lex_lt(rows[x].0, rows[y].0));
        }
    }
    let m = rows_map(rows).remove(name);
    lemma_lex_lt_irreflexive(name);
    assert forall|k: Seq<char>| rows_map(after).contains_key(k) == m.contains_key(k) by {
        if rows_have(after, k) {
            let j = choose|j: int| 0 <= j < after.len() && (#[trigger] after[j]).0 == k;
            let x = if j < i { j } else { j + 1 };
            assert(rows[x].0 == k);
            if x < i {
                assert(lex_lt(rows[x].0, rows[i].0));
            } else {
                assert(lex_lt(rows[i].0, rows[x].0));
            }
        }
        if rows_have(rows, k) && k != name {
            let j = choose|j: int| 0 <= j < rows.len() && (#[trigger] rows[j]).0 == k;
            if j < i {
                assert(after[j].0 == k);
            } else {
                assert(after[j - 1].0 == k);
            }
        }
    }
    assert forall|k: Seq<char>| rows_map(after).contains_key(k) implies rows_map(after)[k] == m[k] by {
        let j = choose|j: int| 0 <= j < after.len() && (#[trigger] after[j]).0 == k;
        lemma_rows_lookup(after, j);
        let x = if j < i { j } else { j + 1 };
        assert(rows[x].0 == k);
        lemma_rows_lookup(rows, x);
    }
    assert(rows_map(after) =~= m);
}

} // verus!
