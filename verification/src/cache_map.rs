//! The records that the cache keeps as named fields.

use vstd::prelude::*;

verus! {

/// One field of a record: its name and its value.
pub type Field = (String, String);

/// What a list of fields says of each name.
pub open spec fn fields_view(fields: Seq<Field>) -> Map<Seq<char>, Seq<char>>
    decreases fields.len(),
{
    if fields.len() == 0 {
        Map::empty()
    } else {
        fields_view(fields.drop_last()).insert(fields.last().0@, fields.last().1@)
    }
}

/// Whether no name occurs twice in a list of fields.
pub open spec fn distinct_names(fields: Seq<Field>) -> bool {
    forall|i: int, j: int|
        0 <= i < j < fields.len() ==> (#[trigger] fields[i]).0@ != (#[trigger] fields[j]).0@
}

/// A record of named text fields, each name at most once.
#[derive(Debug)]
pub struct CacheMap {
    fields: Vec<Field>,
}

impl View for CacheMap {
    type V = Map<Seq<char>, Seq<char>>;

    closed spec fn view(&self) -> Map<Seq<char>, Seq<char>> {
        fields_view(self.fields@)
    }
}

impl CacheMap {
    #[verifier::type_invariant]
    spec fn well_formed(self) -> bool {
        distinct_names(self.fields@)
    }

    /// A record without fields.
    pub fn new() -> (record: CacheMap)
        ensures
            record@ == Map::<Seq<char>, Seq<char>>::empty(),
    {
        CacheMap { fields: Vec::new() }
    }

    /// Whether the record has no field.
    pub fn is_empty(&self) -> (empty: bool)
        ensures
            empty <==> self@ == Map::<Seq<char>, Seq<char>>::empty(),
    {
        proof {
            if self.fields@.len() > 0 {
                assert(self@.contains_key(self.fields@.last().0@));
            }
        }
        self.fields.len() == 0
    }

    /// The fields of the record, in no particular order.
    pub fn fields(&self) -> (fields: &Vec<Field>)
        ensures
            distinct_names(fields@),
            fields_view(fields@) == self@,
            forall|i: int|
                0 <= i < fields@.len() ==> self@.contains_key((#[trigger] fields@[i]).0@)
                    && self@[fields@[i].0@] == fields@[i].1@,
            forall|name: Seq<char>| #[trigger]
                self@.contains_key(name) ==> exists|i: int|
                    0 <= i < fields@.len() && (#[trigger] fields@[i]).0@ == name,
            forall|i: int, j: int|
                0 <= i < j < fields@.len() ==> (#[trigger] fields@[i]).0@ != (
                #[trigger] fields@[j]).0@,
    {
        proof {
            use_type_invariant(self);
            lemma_fields_view(self.fields@);
        }
        &self.fields
    }

    /// The place of a field in the list, or the length of the list.
    fn position(&self, name: &String) -> (at: usize)
        ensures
            at <= self.fields@.len(),
            at < self.fields@.len() ==> self.fields@[at as int].0@ == name@,
            at == self.fields@.len() ==> forall|i: int|
                0 <= i < self.fields@.len() ==> (#[trigger] self.fields@[i]).0@ != name@,
    {
        let mut i: usize = 0;
        while i < self.fields.len()
            invariant
                i <= self.fields@.len(),
                forall|j: int| 0 <= j < i ==> (#[trigger] self.fields@[j]).0@ != name@,
            decreases self.fields@.len() - i,
        {
            if self.fields[i].0 == *name {
                return i;
            }
            i += 1;
        }
        i
    }

    /// The value of a field.
    pub fn get(&self, name: &str) -> (value: Option<&String>)
        ensures
            match value {
                Some(text) => self@.contains_key(name@) && self@[name@] == text@,
                None => !self@.contains_key(name@),
            },
    {
        let wanted = name.to_owned();
        let at = self.position(&wanted);
        proof {
            use_type_invariant(self);
            lemma_fields_view(self.fields@);
        }
        if at < self.fields.len() {
            Some(&self.fields[at].1)
        } else {
            None
        }
    }

    /// Gives a field a value, in place of the value that it had.
    pub fn insert(&mut self, name: String, value: String)
        ensures
            final(self)@ == old(self)@.insert(name@, value@),
    {
        proof {
            use_type_invariant(&*self);
        }
        let at = self.position(&name);
        let mut fields: Vec<Field> = Vec::new();
        core::mem::swap(&mut self.fields, &mut fields);
        let ghost before = fields@;
        let ghost field = (name, value);
        if at < fields.len() {
            fields.set(at, (name, value));
            proof {
                lemma_replace_field(before, at as int, field);
            }
        } else {
            fields.push((name, value));
            assert(before.push(field).drop_last() =~= before);
        }
        self.fields = fields;
    }

    /// Takes over every field of another record; where both have a field,
    /// the other's value stays.
    pub fn extend(&mut self, other: CacheMap)
        ensures
            final(self)@ == old(self)@.union_prefer_right(other@),
    {
        let ghost before = self@;
        let ghost taken = other.fields@;
        let mut i: usize = 0;
        assert(taken.take(0) =~= Seq::<Field>::empty());
        assert(before.union_prefer_right(fields_view(taken.take(0))) =~= before);
        while i < other.fields.len()
            invariant
                i <= taken.len(),
                taken == other.fields@,
                self@ == before.union_prefer_right(fields_view(taken.take(i as int))),
            decreases taken.len() - i,
        {
            let name = other.fields[i].0.clone();
            let value = other.fields[i].1.clone();
            self.insert(name, value);
            proof {
                let so_far = taken.take(i as int);
                let further = taken.take(i as int + 1);
                assert(further.drop_last() =~= so_far);
                assert(self@ =~= before.union_prefer_right(fields_view(further)));
            }
            i += 1;
        }
        assert(taken.take(i as int) =~= taken);
    }

    /// A second record with the same fields.
    pub fn duplicate(&self) -> (copy: CacheMap)
        ensures
            copy@ == self@,
    {
        let mut fields: Vec<Field> = Vec::new();
        let mut i: usize = 0;
        while i < self.fields.len()
            invariant
                i <= self.fields@.len(),
                fields@ == self.fields@.take(i as int),
            decreases self.fields@.len() - i,
        {
            fields.push((self.fields[i].0.clone(), self.fields[i].1.clone()));
            assert(fields@ =~= self.fields@.take(i as int + 1));
            i += 1;
        }
        assert(fields@ =~= self.fields@);
        proof {
            use_type_invariant(self);
        }
        CacheMap { fields }
    }
}

/// The names that a list of fields speaks of, and their values.
proof fn lemma_fields_view(fields: Seq<Field>)
    requires
        distinct_names(fields),
    ensures
        forall|i: int|
            0 <= i < fields.len() ==> fields_view(fields).contains_key((#[trigger] fields[i]).0@)
                && fields_view(fields)[fields[i].0@] == fields[i].1@,
        forall|name: Seq<char>| #[trigger]
            fields_view(fields).contains_key(name) ==> exists|i: int|
                0 <= i < fields.len() && (#[trigger] fields[i]).0@ == name,
    decreases fields.len(),
{
    if fields.len() > 0 {
        let front = fields.drop_last();
        assert(distinct_names(front)) by {
            assert forall|i: int, j: int| 0 <= i < j < front.len() implies (
            #[trigger] front[i]).0@ != (#[trigger] front[j]).0@ by {
                assert(front[i] == fields[i] && front[j] == fields[j]);
            }
        }
        lemma_fields_view(front);
        assert forall|i: int| 0 <= i < fields.len() implies fields_view(fields).contains_key(
            (#[trigger] fields[i]).0@,
        ) && fields_view(fields)[fields[i].0@] == fields[i].1@ by {
            if i < front.len() {
                assert(front[i] == fields[i]);
                assert(fields[i].0@ != fields[fields.len() - 1].0@);
            }
        }
        assert forall|name: Seq<char>| #[trigger] fields_view(fields).contains_key(name) implies exists|
            i: int,
        | 0 <= i < fields.len() && (#[trigger] fields[i]).0@ == name by {
            if name == fields.last().0@ {
                assert(fields[fields.len() - 1].0@ == name);
            } else {
                assert(fields_view(front).contains_key(name));
                let i = choose|i: int| 0 <= i < front.len() && (#[trigger] front[i]).0@ == name;
                assert(fields[i].0@ == name);
            }
        }
    }
}

/// To give a listed field another value changes what the list says of that
/// name alone.
proof fn lemma_replace_field(fields: Seq<Field>, at: int, field: Field)
    requires
        distinct_names(fields),
        0 <= at < fields.len(),
        fields[at].0@ == field.0@,
    ensures
        distinct_names(fields.update(at, field)),
        fields_view(fields.update(at, field)) == fields_view(fields).insert(field.0@, field.1@),
{
    let after = fields.update(at, field);
    assert(distinct_names(after)) by {
        assert forall|i: int, j: int| 0 <= i < j < after.len() implies (#[trigger] after[i]).0@ != (
        #[trigger] after[j]).0@ by {
            assert(after[i].0@ == fields[i].0@ && after[j].0@ == fields[j].0@);
        }
    }
    lemma_fields_view(fields);
    lemma_fields_view(after);
    let expected = fields_view(fields).insert(field.0@, field.1@);
    assert forall|name: Seq<char>| #[trigger]
        fields_view(after).contains_key(name) <==> expected.contains_key(name) by {
        if fields_view(after).contains_key(name) {
            let i = choose|i: int| 0 <= i < after.len() && (#[trigger] after[i]).0@ == name;
            assert(fields[i].0@ == name);
        }
        if expected.contains_key(name) {
            if name == field.0@ {
                assert(after[at].0@ == name);
            } else {
                let i = choose|i: int| 0 <= i < fields.len() && (#[trigger] fields[i]).0@ == name;
                assert(after[i].0@ == name);
            }
        }
    }
    assert forall|name: Seq<char>| #[trigger] expected.contains_key(name) implies fields_view(
        after,
    )[name] == expected[name] by {
        assert(fields_view(after).contains_key(name));
        let i = choose|i: int| 0 <= i < after.len() && (#[trigger] after[i]).0@ == name;
        if i == at {
            assert(after[at].1@ == field.1@);
        } else {
            assert(after[i] == fields[i]);
            assert(after[at].0@ != name) by {
                if after[at].0@ == name {
                    if i < at {
                        assert(after[i].0@ != after[at].0@);
                    } else {
                        assert(after[at].0@ != after[i].0@);
                    }
                }
            }
        }
    }
    assert(fields_view(after) =~= expected);
}

} // verus!
