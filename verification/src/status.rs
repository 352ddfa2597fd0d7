//! The key manager's status: a mapping from names to texts, read out of a
//! JSON object.  It serves diagnosis only; no decision rests on it.

use crate::json::{json_document, parse_json, Json, JsonView};
use crate::kme::KmeError;
use vstd::prelude::*;

verus! {

/// The mapping that a run of name and text pairs builds up when they are
/// entered one after the other: a later pair replaces an earlier one of the
/// same name.
pub open spec fn pairs_map(pairs: Seq<(Seq<char>, Seq<char>)>) -> Map<Seq<char>, Seq<char>>
    decreases pairs.len(),
{
    if pairs.len() == 0 {
        Map::empty()
    } else {
        pairs_map(pairs.drop_last()).insert(pairs.last().0, pairs.last().1)
    }
}

/// The text that a member of a status object stands for: a string as it
/// is, a number as its numeral; nothing for any other value.
pub open spec fn status_text(value: JsonView) -> Option<Seq<char>> {
    match value {
        JsonView::Text(s) => Some(s),
        JsonView::Number(n) => Some(n),
        _ => None,
    }
}

/// The status that the members of an object state, entered in order.
pub open spec fn status_of_members(members: Seq<(Seq<char>, JsonView)>) -> Map<
    Seq<char>,
    Seq<char>,
>
    decreases members.len(),
{
    if members.len() == 0 {
        Map::empty()
    } else {
        let before = status_of_members(members.drop_last());
        match status_text(members.last().1) {
            Some(text) => before.insert(members.last().0, text),
            None => before,
        }
    }
}

/// The status that a document states: that of its members where it is an
/// object, and nothing where it is not.
pub open spec fn status_in(document: JsonView) -> Map<Seq<char>, Seq<char>> {
    match document {
        JsonView::Object(members) => status_of_members(members),
        _ => Map::empty(),
    }
}

/// The names and texts of a run of entries.
pub open spec fn entry_views(entries: Seq<(String, String)>) -> Seq<(Seq<char>, Seq<char>)> {
    entries.map_values(|e: (String, String)| (e.0@, e.1@))
}

/// No name occurs twice among `pairs`.
pub open spec fn distinct_names(pairs: Seq<(Seq<char>, Seq<char>)>) -> bool {
    forall|i: int, j: int| 0 <= i < j < pairs.len() ==> pairs[i].0 != pairs[j].0
}

/// Among pairs of distinct names, the mapping holds exactly the names that
/// occur, each with the text that stands beside it.
pub proof fn lemma_pairs_map(pairs: Seq<(Seq<char>, Seq<char>)>)
    requires
        distinct_names(pairs),
    ensures
        forall|name: Seq<char>|
            pairs_map(pairs).dom().contains(name) <==> exists|i: int|
                0 <= i < pairs.len() && (#[trigger] pairs[i]).0 == name,
        forall|i: int|
            0 <= i < pairs.len() ==> pairs_map(pairs)[(#[trigger] pairs[i]).0] == pairs[i].1,
        pairs_map(pairs).dom().finite(),
        pairs_map(pairs).dom().len() == pairs.len(),
    decreases pairs.len(),
{
    if pairs.len() > 0 {
        let front = pairs.drop_last();
        lemma_pairs_map(front);
        assert(!pairs_map(front).dom().contains(pairs.last().0)) by {
            if pairs_map(front).dom().contains(pairs.last().0) {
                let i = choose|i: int|
                    0 <= i < front.len() && (#[trigger] front[i]).0 == pairs.last().0;
                assert(front[i] == pairs[i]);
            }
        }
        assert forall|name: Seq<char>|
            pairs_map(pairs).dom().contains(name) <==> exists|i: int|
                0 <= i < pairs.len() && (#[trigger] pairs[i]).0 == name by {
            if pairs_map(pairs).dom().contains(name) {
                if name == pairs.last().0 {
                    assert(pairs[pairs.len() - 1].0 == name);
                } else {
                    assert(pairs_map(front).dom().contains(name));
                    let i = choose|i: int| 0 <= i < front.len() && (#[trigger] front[i]).0 == name;
                    assert(front[i] == pairs[i]);
                    assert(pairs[i].0 == name);
                }
            }
            if exists|i: int| 0 <= i < pairs.len() && (#[trigger] pairs[i]).0 == name {
                let i = choose|i: int| 0 <= i < pairs.len() && (#[trigger] pairs[i]).0 == name;
                if i < front.len() {
                    assert(front[i] == pairs[i]);
                    assert(front[i].0 == name);
                }
            }
        }
        assert forall|i: int| 0 <= i < pairs.len() implies pairs_map(pairs)[(
            #[trigger] pairs[i]).0] == pairs[i].1 by {
            if i < front.len() {
                assert(front[i] == pairs[i]);
                assert(pairs[i].0 != pairs[pairs.len() - 1].0);
            }
        }
    }
}

/// Where `name` stands among `entries`, if it does.
fn position(entries: &Vec<(String, String)>, name: &String) -> (r: Option<usize>)
    ensures
        match r {
            Some(i) => i < entries@.len() && entries@[i as int].0@ == name@,
            None => forall|j: int| 0 <= j < entries@.len() ==> (#[trigger] entries@[j]).0@ != name@,
        },
{
    let mut i: usize = 0;
    while i < entries.len()
        invariant
            i <= entries@.len(),
            forall|j: int| 0 <= j < i ==> (#[trigger] entries@[j]).0@ != name@,
        decreases entries@.len() - i,
    {
        if entries[i].0 == *name {
            return Some(i);
        }
        i += 1;
    }
    None
}

/// A status: names with their texts, every name once.
#[derive(Debug, PartialEq, Eq)]
pub struct StatusMap {
    entries: Vec<(String, String)>,
}

impl View for StatusMap {
    type V = Map<Seq<char>, Seq<char>>;

    closed spec fn view(&self) -> Map<Seq<char>, Seq<char>> {
        pairs_map(entry_views(self.entries@))
    }
}

impl StatusMap {
    /// No name occurs twice.
    #[verifier::type_invariant]
    closed spec fn wf(&self) -> bool {
        distinct_names(entry_views(self.entries@))
    }

    /// A status that states nothing.
    pub fn new() -> (m: Self)
        ensures
            m@ == Map::<Seq<char>, Seq<char>>::empty(),
    {
        StatusMap { entries: Vec::new() }
    }

    /// Enters `text` under `name`, in place of what stood there before.
    pub fn insert(&mut self, name: String, text: String)
        ensures
            final(self)@ == old(self)@.insert(name@, text@),
    {
        proof {
            use_type_invariant(&*self);
        }
        let mut entries: Vec<(String, String)> = Vec::new();
        std::mem::swap(&mut entries, &mut self.entries);
        let ghost before = entry_views(entries@);
        match position(&entries, &name) {
            Some(i) => {
                entries.set(i, (name, text));
                proof {
                    let after = entry_views(entries@);
                    assert(after =~= before.update(i as int, (name@, text@)));
                    assert(distinct_names(after)) by {
                        assert forall|a: int, b: int| 0 <= a < b < after.len() implies after[a].0
                            != after[b].0 by {
                            assert(after[a].0 == before[a].0);
                            assert(after[b].0 == before[b].0);
                        }
                    }
                    lemma_pairs_map(before);
                    lemma_pairs_map(after);
                    let want = pairs_map(before).insert(name@, text@);
                    assert forall|n: Seq<char>| pairs_map(after).dom().contains(n)
                        <==> want.dom().contains(n) by {
                        if pairs_map(after).dom().contains(n) {
                            let j = choose|j: int|
                                0 <= j < after.len() && (#[trigger] after[j]).0 == n;
                            assert(before[j].0 == n);
                        }
                        if want.dom().contains(n) {
                            if n == name@ {
                                assert(after[i as int].0 == n);
                            } else {
                                let j = choose|j: int|
                                    0 <= j < before.len() && (#[trigger] before[j]).0 == n;
                                assert(after[j].0 == n);
                            }
                        }
                    }
                    assert forall|n: Seq<char>| pairs_map(after).dom().contains(n) implies (
                    #[trigger] pairs_map(after)[n]) == want[n] by {
                        let j = choose|j: int| 0 <= j < after.len() && (#[trigger] after[j]).0 == n;
                        assert(pairs_map(after)[after[j].0] == after[j].1);
                        if j != i {
                            assert(after[j] == before[j]);
                            assert(pairs_map(before)[before[j].0] == before[j].1);
                            assert(before[j].0 != before[i as int].0);
                        }
                    }
                    assert(pairs_map(after) =~= want);
                }
            },
            None => {
                let ghost old_entries = entries@;
                entries.push((name, text));
                proof {
                    let after = entry_views(entries@);
                    assert(after =~= before.push((name@, text@)));
                    assert(after.drop_last() =~= before);
                    assert(distinct_names(after)) by {
                        assert forall|a: int, b: int| 0 <= a < b < after.len() implies after[a].0
                            != after[b].0 by {
                            assert(after[a] == before[a]);
                            if b < before.len() {
                                assert(after[b] == before[b]);
                            } else {
                                assert(old_entries[a].0@ != name@);
                            }
                        }
                    }
                }
            },
        }
        self.entries = entries;
    }

    /// The text that stands under `name`, if any does.
    pub fn get(&self, name: &str) -> (r: Option<&String>)
        ensures
            match r {
                Some(text) => self@.dom().contains(name@) && self@[name@] == text@,
                None => !self@.dom().contains(name@),
            },
    {
        let wanted = String::from_str(name);
        let ghost pairs = entry_views(self.entries@);
        proof {
            use_type_invariant(self);
            lemma_pairs_map(pairs);
        }
        match position(&self.entries, &wanted) {
            Some(i) => {
                assert(pairs[i as int].0 == name@);
                Some(&self.entries[i].1)
            },
            None => {
                assert forall|j: int| 0 <= j < pairs.len() implies (#[trigger] pairs[j]).0
                    != name@ by {
                    assert(self.entries@[j].0@ != name@);
                }
                None
            },
        }
    }

    /// How many names the status holds.
    pub fn len(&self) -> (n: usize)
        ensures
            self@.dom().finite(),
            n == self@.dom().len(),
    {
        proof {
            use_type_invariant(self);
            lemma_pairs_map(entry_views(self.entries@));
        }
        self.entries.len()
    }

    /// Gives the entries up, every name once, in the order in which the names
    /// first came.  Entered one after the other they make up the status
    /// again.
    pub fn into_entries(self) -> (entries: Vec<(String, String)>)
        ensures
            distinct_names(entry_views(entries@)),
            pairs_map(entry_views(entries@)) == self@,
    {
        proof {
            use_type_invariant(&self);
        }
        self.entries
    }
}

/// Reads the status out of a parsed answer.
pub fn status_in_document(document: &Json) -> (status: StatusMap)
    ensures
        status@ == status_in(document@),
{
    let mut status = StatusMap::new();
    let members = match document.as_object() {
        Some(members) => members,
        None => {
            return status;
        },
    };
    let ghost all = document@->Object_0;
    let mut i: usize = 0;
    assert(all.subrange(0, 0) =~= Seq::empty());
    while i < members.len()
        invariant
            i <= members@.len(),
            all.len() == members@.len(),
            document@ == JsonView::Object(all),
            forall|j: int|
                0 <= j < all.len() ==> all[j] == ((#[trigger] members@[j]).name@, members@[j].value@),
            status@ == status_of_members(all.subrange(0, i as int)),
        decreases members@.len() - i,
    {
        let ghost upto = all.subrange(0, i + 1);
        assert(upto.drop_last() =~= all.subrange(0, i as int));
        assert(upto.last() == all[i as int]);
        let member = &members[i];
        match &member.value {
            Json::Text(s) => {
                status.insert(member.name.clone(), s.clone());
            },
            Json::Number(n) => {
                status.insert(member.name.clone(), n.clone());
            },
            _ => {},
        }
        i += 1;
    }
    assert(all.subrange(0, all.len() as int) =~= all);
    status
}

/// Reads the status out of the body of an answer.
pub fn status_from_response(body: &str) -> (r: Result<StatusMap, KmeError>)
    ensures
        match json_document(body@) {
            None => r == Err::<StatusMap, KmeError>(KmeError::InvalidJson),
            Some(document) => r is Ok && r->Ok_0@ == status_in(document),
        },
{
    match parse_json(body) {
        None => Err(KmeError::InvalidJson),
        Some(document) => Ok(status_in_document(&document)),
    }
}

} // verus!
