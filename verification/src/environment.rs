//! Environment variables of a launched application.
use crate::text;
use vstd::prelude::*;

verus! {

/// An environment variable and its value.
#[derive(Debug)]
pub struct Variable {
    pub key: String,
    pub value: String,
}

impl View for Variable {
    type V = (Seq<char>, Seq<char>);

    open spec fn view(&self) -> (Seq<char>, Seq<char>) {
        (self.key@, self.value@)
    }
}

impl Clone for Variable {
    fn clone(&self) -> (copy: Self)
        ensures
            copy@ == self@,
    {
        Variable { key: self.key.clone(), value: self.value.clone() }
    }
}

/// Additional environment variables, each set once.
#[derive(Debug)]
pub struct Variables {
    pub entries: Vec<Variable>,
}

impl Clone for Variables {
    fn clone(&self) -> (copy: Self)
        ensures
            copy@ == self@,
    {
        let mut entries: Vec<Variable> = Vec::new();
        let mut index: usize = 0;
        while index < self.entries.len()
            invariant
                index <= self.entries@.len(),
                entries@.len() == index,
                forall|i: int| 0 <= i < index ==> (#[trigger] entries@[i])@ == self.entries@[i]@,
            decreases self.entries@.len() - index,
        {
            entries.push(self.entries[index].clone());
            index += 1;
        }
        let copy = Variables { entries };
        assert(copy@ =~= self@);
        copy
    }
}

/// The keys and values of `entries`.
pub open spec fn variable_views(entries: Seq<Variable>) -> Seq<(Seq<char>, Seq<char>)> {
    Seq::new(entries.len(), |i: int| entries[i]@)
}

/// The value that a list of keys and values gives to `key`.
pub open spec fn value_in(list: Seq<(Seq<char>, Seq<char>)>, key: Seq<char>) -> Option<Seq<char>>
    decreases list.len(),
{
    if list.len() == 0 {
        None
    } else if list.last().0 == key {
        Some(list.last().1)
    } else {
        value_in(list.drop_last(), key)
    }
}

impl View for Variables {
    type V = Seq<(Seq<char>, Seq<char>)>;

    open spec fn view(&self) -> Seq<(Seq<char>, Seq<char>)> {
        variable_views(self.entries@)
    }
}

/// No key occurs twice.
pub open spec fn distinct_keys(list: Seq<(Seq<char>, Seq<char>)>) -> bool {
    forall|i: int, j: int|
        0 <= i < j < list.len() ==> (#[trigger] list[i]).0 != (#[trigger] list[j]).0
}

impl Variables {
    /// Each variable is set once.
    pub open spec fn wf(&self) -> bool {
        distinct_keys(self@)
    }

    /// No variables.
    pub fn new() -> (variables: Variables)
        ensures
            variables.wf(),
            variables@ == Seq::<(Seq<char>, Seq<char>)>::empty(),
    {
        let variables = Variables { entries: Vec::new() };
        assert(variables@ =~= Seq::<(Seq<char>, Seq<char>)>::empty());
        variables
    }

    /// Where a variable is set, if it is.
    fn position(&self, key: &str) -> (index: Option<usize>)
        ensures
            index matches Some(index) ==> index < self.entries@.len() && self@[index as int].0
                == key@,
            index is None ==> forall|i: int| 0 <= i < self@.len() ==> (#[trigger] self@[i]).0
                != key@,
    {
        let mut index: usize = 0;
        while index < self.entries.len()
            invariant
                index <= self.entries@.len(),
                forall|i: int| 0 <= i < index ==> (#[trigger] self@[i]).0 != key@,
            decreases self.entries@.len() - index,
        {
            assert(self@[index as int] == self.entries@[index as int]@);
            if text::same_text(self.entries[index].key.as_str(), key) {
                return Some(index);
            }
            index += 1;
        }
        None
    }

    /// Sets a variable, in place of the value that it had.
    pub fn set(&mut self, key: String, value: String)
        requires
            old(self).wf(),
        ensures
            final(self).wf(),
            value_in(final(self)@, key@) == Some(value@),
            forall|other: Seq<char>|
                other != key@ ==> #[trigger] value_in(final(self)@, other) == value_in(
                    old(self)@,
                    other,
                ),
    {
        let ghost before = self@;
        match self.position(key.as_str()) {
            Some(index) => {
                let ghost entry = (key@, value@);
                self.entries[index] = Variable { key, value };
                assert(self@ =~= before.update(index as int, entry));
                proof {
                    lemma_update(before, index as int, entry);
                }
            },
            None => {
                let ghost entry = (key@, value@);
                self.entries.push(Variable { key, value });
                assert(self@ =~= before.push(entry));
                assert(self@.drop_last() =~= before);
                assert forall|other: Seq<char>| other != entry.0 implies #[trigger] value_in(
                    self@,
                    other,
                ) == value_in(before, other) by {}
            },
        }
    }

    /// The value of a variable.
    pub fn get(&self, key: &str) -> (value: Option<&String>)
        requires
            self.wf(),
        ensures
            (match value {
                Some(value) => Some(value@),
                None => None,
            }) == value_in(self@, key@),
    {
        match self.position(key) {
            Some(index) => {
                assert(self@[index as int] == self.entries@[index as int]@);
                proof {
                    lemma_value_at(self@, index as int);
                }
                Some(&self.entries[index].value)
            },
            None => {
                proof {
                    lemma_no_value(self@, key@);
                }
                None
            },
        }
    }
}

proof fn lemma_no_value(list: Seq<(Seq<char>, Seq<char>)>, key: Seq<char>)
    requires
        forall|i: int| 0 <= i < list.len() ==> (#[trigger] list[i]).0 != key,
    ensures
        value_in(list, key) is None,
    decreases list.len(),
{
    if list.len() > 0 {
        assert(list.last() == list[list.len() - 1]);
        lemma_no_value(list.drop_last(), key);
    }
}

/// A variable that is set once has the value that it is set to.
pub proof fn lemma_value_at(list: Seq<(Seq<char>, Seq<char>)>, index: int)
    requires
        distinct_keys(list),
        0 <= index < list.len(),
    ensures
        value_in(list, list[index].0) == Some(list[index].1),
    decreases list.len(),
{
    assert(list.last() == list[list.len() - 1]);
    if index < list.len() - 1 {
        lemma_value_at(list.drop_last(), index);
    }
}

proof fn lemma_update(list: Seq<(Seq<char>, Seq<char>)>, index: int, entry: (Seq<char>, Seq<char>))
    requires
        distinct_keys(list),
        0 <= index < list.len(),
        list[index].0 == entry.0,
    ensures
        distinct_keys(list.update(index, entry)),
        value_in(list.update(index, entry), entry.0) == Some(entry.1),
        forall|other: Seq<char>|
            other != entry.0 ==> #[trigger] value_in(list.update(index, entry), other) == value_in(
                list,
                other,
            ),
{
    let after = list.update(index, entry);
    assert forall|i: int, j: int| 0 <= i < j < after.len() implies (#[trigger] after[i]).0 != (
    #[trigger] after[j]).0 by {
        assert(list[i].0 != list[j].0);
    }
    lemma_value_at(after, index);
    assert forall|other: Seq<char>| other != entry.0 implies #[trigger] value_in(after, other)
        == value_in(list, other) by {
        lemma_update_other(list, index, entry, other);
    }
}

proof fn lemma_update_other(
    list: Seq<(Seq<char>, Seq<char>)>,
    index: int,
    entry: (Seq<char>, Seq<char>),
    other: Seq<char>,
)
    requires
        0 <= index < list.len(),
        list[index].0 == entry.0,
        other != entry.0,
    ensures
        value_in(list.update(index, entry), other) == value_in(list, other),
    decreases list.len(),
{
    let after = list.update(index, entry);
    if index == list.len() - 1 {
        assert(after.drop_last() =~= list.drop_last());
    } else {
        assert(after.drop_last() =~= list.drop_last().update(index, entry));
        lemma_update_other(list.drop_last(), index, entry, other);
    }
}

/// One change to the environment of an application that is about to be launched.
#[derive(Debug)]
pub enum EnvAction {
    /// Forget every inherited variable.
    Clear,
    /// Set a variable.
    Assign { key: String, value: String },
    /// Forget one variable.
    Remove { key: String },
}

/// What an [`EnvAction`] does.
pub enum EnvChange {
    Clear,
    Assign { key: Seq<char>, value: Seq<char> },
    Remove { key: Seq<char> },
}

impl View for EnvAction {
    type V = EnvChange;

    open spec fn view(&self) -> EnvChange {
        match *self {
            EnvAction::Clear => EnvChange::Clear,
            EnvAction::Assign { key, value } => EnvChange::Assign { key: key@, value: value@ },
            EnvAction::Remove { key } => EnvChange::Remove { key: key@ },
        }
    }
}

/// What each of `actions` does.
pub open spec fn changes(actions: Seq<EnvAction>) -> Seq<EnvChange> {
    Seq::new(actions.len(), |i: int| actions[i]@)
}

/// The value of `key` after `list` was applied to an environment in which it had the value
/// `inherited`.
pub open spec fn value_after(
    list: Seq<EnvChange>,
    key: Seq<char>,
    inherited: Option<Seq<char>>,
) -> Option<Seq<char>>
    decreases list.len(),
{
    if list.len() == 0 {
        inherited
    } else {
        match list.last() {
            EnvChange::Clear => None,
            EnvChange::Assign { key: changed, value } => if changed == key {
                Some(value)
            } else {
                value_after(list.drop_last(), key, inherited)
            },
            EnvChange::Remove { key: changed } => if changed == key {
                None
            } else {
                value_after(list.drop_last(), key, inherited)
            },
        }
    }
}

/// A change that sets a variable.
pub open spec fn set_to(key: Seq<char>, value: Seq<char>) -> EnvChange {
    EnvChange::Assign { key, value }
}

/// The changes that set each variable of a list.
pub open spec fn set_all(list: Seq<(Seq<char>, Seq<char>)>) -> Seq<EnvChange> {
    Seq::new(list.len(), |i: int| set_to(list[i].0, list[i].1))
}

/// Setting a list of variables gives each the value that the list gives it, and leaves every other
/// as it was.
pub proof fn lemma_set_all(
    before: Seq<EnvChange>,
    list: Seq<(Seq<char>, Seq<char>)>,
    key: Seq<char>,
    inherited: Option<Seq<char>>,
)
    ensures
        value_after(before + set_all(list), key, inherited) == match value_in(list, key) {
            Some(value) => Some(value),
            None => value_after(before, key, inherited),
        },
    decreases list.len(),
{
    if list.len() == 0 {
        assert(before + set_all(list) =~= before);
    } else {
        let all = before + set_all(list);
        assert(all.drop_last() =~= before + set_all(list.drop_last()));
        assert(all.last() == set_to(list.last().0, list.last().1));
        lemma_set_all(before, list.drop_last(), key, inherited);
    }
}

/// Appends a change that sets a variable.
pub fn push_set(actions: &mut Vec<EnvAction>, key: &str, value: &str)
    ensures
        changes(final(actions)@) == changes(old(actions)@).push(set_to(key@, value@)),
{
    actions.push(EnvAction::Assign { key: key.to_owned(), value: value.to_owned() });
    assert(changes(actions@) =~= changes(old(actions)@).push(set_to(key@, value@)));
}

/// Appends a change that forgets a variable.
pub fn push_remove(actions: &mut Vec<EnvAction>, key: &str)
    ensures
        changes(final(actions)@) == changes(old(actions)@).push(EnvChange::Remove { key: key@ }),
{
    actions.push(EnvAction::Remove { key: key.to_owned() });
    assert(changes(actions@) =~= changes(old(actions)@).push(EnvChange::Remove { key: key@ }));
}

/// Appends the changes that set each of `variables`.
pub fn push_variables(actions: &mut Vec<EnvAction>, variables: &Variables)
    ensures
        changes(final(actions)@) == changes(old(actions)@) + set_all(variables@),
{
    let ghost before = changes(actions@);
    let mut index: usize = 0;
    assert(before + set_all(variables@).take(0) =~= before);
    while index < variables.entries.len()
        invariant
            index <= variables.entries@.len(),
            changes(actions@) == before + set_all(variables@).take(index as int),
        decreases variables.entries@.len() - index,
    {
        let entry = &variables.entries[index];
        let ghost held = changes(actions@);
        push_set(actions, entry.key.as_str(), entry.value.as_str());
        assert(set_all(variables@).take(index + 1) =~= set_all(variables@).take(index as int).push(
            set_to(entry.key@, entry.value@),
        ));
        assert(changes(actions@) =~= before + set_all(variables@).take(index + 1));
        index += 1;
    }
    assert(set_all(variables@).take(index as int) =~= set_all(variables@));
}

/// A variable has a value exactly if the list sets it, and then the value that it is set to last.
pub proof fn lemma_value_is_the_last_one(list: Seq<(Seq<char>, Seq<char>)>, key: Seq<char>)
    ensures
        match value_in(list, key) {
            Some(value) => exists|i: int|
                0 <= i < list.len() && (#[trigger] list[i]) == (key, value) && forall|j: int|
                    i < j < list.len() ==> (#[trigger] list[j]).0 != key,
            None => forall|i: int| 0 <= i < list.len() ==> (#[trigger] list[i]).0 != key,
        },
    decreases list.len(),
{
    if list.len() > 0 {
        let front = list.drop_last();
        assert(list[list.len() - 1] == list.last());
        if list.last().0 != key {
            lemma_value_is_the_last_one(front, key);
            if let Some(value) = value_in(front, key) {
                let i = choose|i: int|
                    0 <= i < front.len() && (#[trigger] front[i]) == (key, value) && forall|j: int|
                        i < j < front.len() ==> (#[trigger] front[j]).0 != key;
                assert(list[i] == front[i]);
                assert forall|j: int| i < j < list.len() implies (#[trigger] list[j]).0 != key by {
                    if j < front.len() {
                        assert(front[j] == list[j]);
                    }
                }
            } else {
                assert forall|j: int| 0 <= j < list.len() implies (#[trigger] list[j]).0 != key by {
                    if j < front.len() {
                        assert(front[j] == list[j]);
                    }
                }
            }
        }
    }
}

} // verus!
