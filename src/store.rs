//! The association store: one type-tagged join relation between an owner
//! entity (a payment, a booking, a campaign) and any linked entity, and the
//! registry of entities that links may refer to.

use vstd::prelude::*;

use crate::link::LinkType;

verus! {

/// One row of the join relation, keyed by (owner, linked, kind).
#[derive(Clone, Copy, Debug, PartialEq, Eq, Structural)]
pub struct Association {
    pub owner: u128,
    pub linked: u128,
    pub kind: LinkType,
}

/// Why a write to the store was refused.
#[derive(Clone, Copy, Debug, PartialEq, Eq, Structural)]
pub enum StoreError {
    /// The named entity does not exist, so a row may not refer to it.
    ConstraintError { id: u128 },
}

/// The result of a toggle: whether the association is now present.
#[derive(Clone, Copy, Debug, PartialEq, Eq, Structural)]
pub enum ToggleOutcome {
    Linked,
    Unlinked,
}

/// `s` with every occurrence of `a` taken out, the others kept in order.
pub open spec fn remove_all(s: Seq<Association>, a: Association) -> Seq<Association>
    decreases s.len(),
{
    if s.len() == 0 {
        s
    } else {
        let rest = remove_all(s.drop_last(), a);
        if s.last() == a {
            rest
        } else {
            rest.push(s.last())
        }
    }
}

/// Removing a row that is absent changes nothing.
pub proof fn lemma_remove_absent(s: Seq<Association>, a: Association)
    requires
        !s.contains(a),
    ensures
        remove_all(s, a) == s,
    decreases s.len(),
{
    if s.len() > 0 {
        assert(!s.drop_last().contains(a)) by {
            if s.drop_last().contains(a) {
                let k = choose|k: int| 0 <= k < s.drop_last().len() && s.drop_last()[k] == a;
                assert(s[k] == a);
            }
        }
        lemma_remove_absent(s.drop_last(), a);
        assert(s.last() != a) by {
            assert(s[s.len() - 1] == s.last());
        }
        assert(s.drop_last().push(s.last()) =~= s);
    }
}

/// After removal the row is absent, and every other row keeps its presence.
pub proof fn lemma_remove_contains(s: Seq<Association>, a: Association, b: Association)
    ensures
        remove_all(s, a).contains(b) <==> (s.contains(b) && b != a),
    decreases s.len(),
{
    if s.len() > 0 {
        lemma_remove_contains(s.drop_last(), a, b);
        let rest = remove_all(s.drop_last(), a);
        assert(s =~= s.drop_last().push(s.last()));
        if s.contains(b) && b != a {
            let k = choose|k: int| 0 <= k < s.len() && s[k] == b;
            if k < s.len() - 1 {
                assert(s.drop_last()[k] == b);
            }
        }
        if s.last() != a {
            let r = rest.push(s.last());
            if r.contains(b) {
                let k = choose|k: int| 0 <= k < r.len() && r[k] == b;
                if k < rest.len() {
                    assert(rest[k] == b);
                }
            }
            if rest.contains(b) {
                let k = choose|k: int| 0 <= k < rest.len() && rest[k] == b;
                assert(r[k] == b);
            }
            assert(r[rest.len() as int] == s.last());
        }
        if s.drop_last().contains(b) {
            let k = choose|k: int| 0 <= k < s.drop_last().len() && s.drop_last()[k] == b;
            assert(s[k] == b);
        }
    }
}

/// The entities that exist, and so may be the owner or the linked side of a
/// row.
pub struct Registry {
    ids: Vec<u128>,
}

impl View for Registry {
    type V = Seq<u128>;

    closed spec fn view(&self) -> Seq<u128> {
        self.ids@
    }
}

impl Registry {
    pub fn new() -> (r: Registry)
        ensures
            r@ == Seq::<u128>::empty(),
    {
        Registry { ids: Vec::new() }
    }

    /// Records that `id` exists.
    pub fn add(&mut self, id: u128)
        ensures
            final(self)@ == old(self)@.push(id),
    {
        self.ids.push(id);
    }

    /// The number of recorded entities.
    pub fn len(&self) -> (r: usize)
        ensures
            r == self@.len(),
    {
        self.ids.len()
    }

    /// Forgets every entity recorded after the first `n`.
    pub fn truncate(&mut self, n: usize)
        requires
            n <= old(self)@.len(),
        ensures
            final(self)@ == old(self)@.take(n as int),
    {
        self.ids.truncate(n);
    }

    /// Whether `id` exists.
    pub fn contains(&self, id: u128) -> (r: bool)
        ensures
            r == self@.contains(id),
    {
        let mut i: usize = 0;
        while i < self.ids.len()
            invariant
                0 <= i <= self.ids@.len(),
                forall|k: int| 0 <= k < i ==> self.ids@[k] != id,
            decreases self.ids@.len() - i,
        {
            if self.ids[i] == id {
                return true;
            }
            i = i + 1;
        }
        false
    }
}

/// How many rows of `s` are owned by `owner`.
pub open spec fn owned_count(s: Seq<Association>, owner: u128) -> nat
    decreases s.len(),
{
    if s.len() == 0 {
        0
    } else {
        owned_count(s.drop_last(), owner) + if s.last().owner == owner {
            1nat
        } else {
            0nat
        }
    }
}

/// Both sides of every row of `rows` are in `known`.
pub open spec fn rows_known(rows: Seq<Association>, known: Seq<u128>) -> bool {
    forall|i: int|
        0 <= i < rows.len() ==> known.contains(#[trigger] rows[i].owner) && known.contains(
            rows[i].linked,
        )
}

/// Rows that refer to known entities still do when more become known.
pub proof fn lemma_rows_known_grow(rows: Seq<Association>, known: Seq<u128>, more: Seq<u128>)
    requires
        rows_known(rows, known),
        forall|x: u128| known.contains(x) ==> more.contains(x),
    ensures
        rows_known(rows, more),
{
    assert forall|i: int| 0 <= i < rows.len() implies more.contains(#[trigger] rows[i].owner)
        && more.contains(rows[i].linked) by {
        assert(known.contains(rows[i].owner));
        assert(known.contains(rows[i].linked));
    }
}

/// A row between known entities may be added.
pub proof fn lemma_rows_known_push(rows: Seq<Association>, known: Seq<u128>, a: Association)
    requires
        rows_known(rows, known),
        known.contains(a.owner),
        known.contains(a.linked),
    ensures
        rows_known(rows.push(a), known),
{
    let r = rows.push(a);
    assert forall|i: int| 0 <= i < r.len() implies known.contains(#[trigger] r[i].owner)
        && known.contains(r[i].linked) by {
        if i < rows.len() {
            assert(r[i] == rows[i]);
        }
    }
}

/// Knowing one more entity keeps every row known.
pub proof fn lemma_rows_known_add(rows: Seq<Association>, known: Seq<u128>, x: u128)
    requires
        rows_known(rows, known),
    ensures
        rows_known(rows, known.push(x)),
{
    assert forall|y: u128| known.contains(y) implies known.push(x).contains(y) by {
        let j = choose|j: int| 0 <= j < known.len() && known[j] == y;
        assert(known.push(x)[j] == y);
    }
    lemma_rows_known_grow(rows, known, known.push(x));
}

/// Removing rows keeps every remaining row known.
pub proof fn lemma_rows_known_remove(rows: Seq<Association>, known: Seq<u128>, a: Association)
    requires
        rows_known(rows, known),
    ensures
        rows_known(remove_all(rows, a), known),
{
    let r = remove_all(rows, a);
    assert forall|i: int| 0 <= i < r.len() implies known.contains(#[trigger] r[i].owner)
        && known.contains(r[i].linked) by {
        let b = r[i];
        assert(r.contains(b));
        lemma_remove_contains(rows, a, b);
        let j = choose|j: int| 0 <= j < rows.len() && rows[j] == b;
        assert(known.contains(rows[j].owner));
    }
}

/// What `link` does to a relation `s`, given the entities that exist.
pub open spec fn link_result(
    s: Seq<Association>,
    known: Seq<u128>,
    a: Association,
) -> Result<Seq<Association>, StoreError> {
    if !known.contains(a.owner) {
        Err(StoreError::ConstraintError { id: a.owner })
    } else if !known.contains(a.linked) {
        Err(StoreError::ConstraintError { id: a.linked })
    } else {
        Ok(s.push(a))
    }
}

/// What `toggle` does to a relation `s`: the new relation and the outcome.
pub open spec fn toggle_result(
    s: Seq<Association>,
    known: Seq<u128>,
    a: Association,
) -> Result<(Seq<Association>, ToggleOutcome), StoreError> {
    if s.contains(a) {
        Ok((remove_all(s, a), ToggleOutcome::Unlinked))
    } else {
        match link_result(s, known, a) {
            Ok(t) => Ok((t, ToggleOutcome::Linked)),
            Err(e) => Err(e),
        }
    }
}

/// A join relation between owner entities and linked entities.
pub struct AssociationStore {
    rows: Vec<Association>,
}

impl View for AssociationStore {
    type V = Seq<Association>;

    closed spec fn view(&self) -> Seq<Association> {
        self.rows@
    }
}

impl AssociationStore {
    pub fn new() -> (r: AssociationStore)
        ensures
            r@ == Seq::<Association>::empty(),
    {
        AssociationStore { rows: Vec::new() }
    }

    /// The number of rows.
    pub fn len(&self) -> (r: usize)
        ensures
            r == self@.len(),
    {
        self.rows.len()
    }

    /// Drops every row after the first `n`.
    pub fn truncate(&mut self, n: usize)
        requires
            n <= old(self)@.len(),
        ensures
            final(self)@ == old(self)@.take(n as int),
    {
        self.rows.truncate(n);
    }

    /// A copy of the rows, in the order they were inserted.
    pub fn rows(&self) -> (r: Vec<Association>)
        ensures
            r@ == self@,
    {
        let mut out: Vec<Association> = Vec::new();
        let mut i: usize = 0;
        while i < self.rows.len()
            invariant
                0 <= i <= self.rows@.len(),
                out@ == self.rows@.take(i as int),
            decreases self.rows@.len() - i,
        {
            out.push(self.rows[i]);
            i = i + 1;
            assert(out@ =~= self.rows@.take(i as int));
        }
        assert(self.rows@.take(i as int) =~= self.rows@);
        out
    }

    /// The number of rows owned by `owner`.
    pub fn count_owned(&self, owner: u128) -> (r: usize)
        ensures
            r == owned_count(self@, owner),
    {
        let mut n: usize = 0;
        let mut i: usize = 0;
        while i < self.rows.len()
            invariant
                0 <= i <= self.rows@.len(),
                n == owned_count(self.rows@.take(i as int), owner),
                n <= i,
            decreases self.rows@.len() - i,
        {
            proof {
                let t = self.rows@.take(i as int + 1);
                assert(t.drop_last() =~= self.rows@.take(i as int));
            }
            if self.rows[i].owner == owner {
                n = n + 1;
            }
            i = i + 1;
        }
        assert(self.rows@.take(i as int) =~= self.rows@);
        n
    }

    /// Whether the row (owner, linked, kind) is present.
    pub fn is_linked(&self, owner: u128, linked: u128, kind: LinkType) -> (r: bool)
        ensures
            r == self@.contains(Association { owner, linked, kind }),
    {
        let a = Association { owner, linked, kind };
        let mut found = false;
        let mut i: usize = 0;
        while i < self.rows.len()
            invariant
                0 <= i <= self.rows@.len(),
                found == exists|k: int| 0 <= k < i && self.rows@[k] == a,
            decreases self.rows@.len() - i,
        {
            if self.rows[i] == a {
                found = true;
            }
            i = i + 1;
        }
        found
    }

    /// Inserts the row (owner, linked, kind). Both sides must exist in
    /// `known`; otherwise the store is left as it was and the missing id is
    /// reported, the owner first.
    pub fn link(&mut self, known: &Registry, owner: u128, linked: u128, kind: LinkType) -> (r:
        Result<(), StoreError>)
        ensures
            match link_result(old(self)@, known@, Association { owner, linked, kind }) {
                Ok(s) => r is Ok && final(self)@ == s,
                Err(e) => r == Err::<(), StoreError>(e) && final(self)@ == old(self)@,
            },
    {
        if !known.contains(owner) {
            return Err(StoreError::ConstraintError { id: owner });
        }
        if !known.contains(linked) {
            return Err(StoreError::ConstraintError { id: linked });
        }
        self.rows.push(Association { owner, linked, kind });
        Ok(())
    }

    /// Deletes every row (owner, linked, kind). Deleting an absent row
    /// succeeds and changes nothing.
    pub fn unlink(&mut self, owner: u128, linked: u128, kind: LinkType) -> (r: Result<(), StoreError>)
        ensures
            r is Ok,
            final(self)@ == remove_all(old(self)@, Association { owner, linked, kind }),
            !old(self)@.contains(Association { owner, linked, kind }) ==> final(self)@ == old(self)@,
    {
        let a = Association { owner, linked, kind };
        let mut kept: Vec<Association> = Vec::new();
        let mut i: usize = 0;
        while i < self.rows.len()
            invariant
                0 <= i <= self.rows@.len(),
                kept@ == remove_all(self.rows@.take(i as int), a),
            decreases self.rows@.len() - i,
        {
            proof {
                let t = self.rows@.take(i as int + 1);
                assert(t.drop_last() =~= self.rows@.take(i as int));
            }
            if self.rows[i] != a {
                kept.push(self.rows[i]);
            }
            i = i + 1;
        }
        assert(self.rows@.take(i as int) =~= self.rows@);
        proof {
            if !self.rows@.contains(a) {
                lemma_remove_absent(self.rows@, a);
            }
        }
        self.rows = kept;
        Ok(())
    }

    /// Presence-based toggle: removes the row if present, else inserts it.
    pub fn toggle(&mut self, known: &Registry, owner: u128, linked: u128, kind: LinkType) -> (r:
        Result<ToggleOutcome, StoreError>)
        ensures
            match toggle_result(old(self)@, known@, Association { owner, linked, kind }) {
                Ok((s, o)) => r == Ok::<ToggleOutcome, StoreError>(o) && final(self)@ == s,
                Err(e) => r == Err::<ToggleOutcome, StoreError>(e) && final(self)@ == old(self)@,
            },
    {
        if self.is_linked(owner, linked, kind) {
            let _ = self.unlink(owner, linked, kind);
            Ok(ToggleOutcome::Unlinked)
        } else {
            match self.link(known, owner, linked, kind) {
                Ok(()) => Ok(ToggleOutcome::Linked),
                Err(e) => Err(e),
            }
        }
    }
}

/// Toggling an absent association twice, with both sides existing, first
/// links it and then unlinks it, and after each step its presence matches
/// the outcome; the relation ends as it began.
pub proof fn lemma_toggle_twice(s: Seq<Association>, known: Seq<u128>, a: Association)
    requires
        !s.contains(a),
        known.contains(a.owner),
        known.contains(a.linked),
    ensures
        toggle_result(s, known, a) == Ok::<(Seq<Association>, ToggleOutcome), StoreError>(
            (s.push(a), ToggleOutcome::Linked),
        ),
        s.push(a).contains(a),
        toggle_result(s.push(a), known, a) == Ok::<(Seq<Association>, ToggleOutcome), StoreError>(
            (s, ToggleOutcome::Unlinked),
        ),
{
    let s1 = s.push(a);
    assert(s1[s.len() as int] == a);
    lemma_remove_contains(s1, a, a);
    assert(s1.drop_last() =~= s);
    assert(s1.last() == a);
    assert(remove_all(s1, a) == remove_all(s, a));
    lemma_remove_absent(s, a);
}

/// Unlinking an absent association succeeds and leaves the relation as it
/// was.
pub proof fn lemma_unlink_absent(s: Seq<Association>, a: Association)
    requires
        !s.contains(a),
    ensures
        remove_all(s, a) == s,
{
    lemma_remove_absent(s, a);
}

} // verus!
