//! Small maps from text to text.

use vstd::prelude::*;

use crate::json::{
    add_text, distinct_keys, json_value, member_text, member_views, quoted, shallow_text, sound,
    sorted_object, sorted_text, JsonView,
};

verus! {

/// A map from text to text, in the order in which its keys came.
#[derive(Debug)]
pub struct TextMap {
    entries: Vec<(String, String)>,
}

/// The value under `key` in a list of entries, looked for from `from` on.
pub open spec fn value_in(entries: Seq<(Seq<char>, Seq<char>)>, key: Seq<char>, from: int) -> Option<
    Seq<char>,
>
    decreases entries.len() - from,
{
    if from < 0 || from >= entries.len() {
        None
    } else if entries[from].0 == key {
        Some(entries[from].1)
    } else {
        value_in(entries, key, from + 1)
    }
}

/// The entries with `value` under `key`: in its place where there was one, at the
/// end where there was none.
pub open spec fn with_value(
    entries: Seq<(Seq<char>, Seq<char>)>,
    key: Seq<char>,
    value: Seq<char>,
    from: int,
) -> Seq<(Seq<char>, Seq<char>)>
    decreases entries.len() - from,
{
    if from < 0 || from >= entries.len() {
        entries.push((key, value))
    } else if entries[from].0 == key {
        entries.update(from, (key, value))
    } else {
        with_value(entries, key, value, from + 1)
    }
}

/// The entries, each value as JSON text.
pub open spec fn quoted_values(entries: Seq<(Seq<char>, Seq<char>)>) -> Seq<
    (Seq<char>, Seq<char>),
> {
    entries.map_values(|e: (Seq<char>, Seq<char>)| (e.0, quoted(e.1)))
}

/// The JSON value `json` holds each entry's value under its key.
pub open spec fn holds_entries(json: JsonView, entries: Seq<(Seq<char>, Seq<char>)>) -> bool {
    forall|i: int|
        0 <= i < entries.len() ==> member_text(json, (#[trigger] entries[i]).0) == Some(
            entries[i].1,
        )
}

impl View for TextMap {
    type V = Seq<(Seq<char>, Seq<char>)>;

    closed spec fn view(&self) -> Seq<(Seq<char>, Seq<char>)> {
        member_views(self.entries@)
    }
}

impl TextMap {
    /// No key stands in the map twice. A new map is so, and each insertion keeps it
    /// so.
    pub open spec fn wf(&self) -> bool {
        distinct_keys(self@)
    }

    /// A map without entries.
    pub fn new() -> (m: TextMap)
        ensures
            m.wf(),
            m@ == Seq::<(Seq<char>, Seq<char>)>::empty(),
    {
        let m = TextMap { entries: Vec::new() };
        assert(m@ =~= Seq::<(Seq<char>, Seq<char>)>::empty());
        m
    }

    fn position(&self, key: &str) -> (r: Option<usize>)
        ensures
            match r {
                Some(i) => {
                    &&& i < self.entries@.len()
                    &&& value_in(self@, key@, 0) == Some(self@[i as int].1)
                    &&& forall|value: Seq<char>| #[trigger]
                        with_value(self@, key@, value, 0) == self@.update(i as int, (key@, value))
                },
                None => {
                    &&& value_in(self@, key@, 0) is None
                    &&& forall|value: Seq<char>| #[trigger]
                        with_value(self@, key@, value, 0) == self@.push((key@, value))
                },
            },
    {
        let wanted = key.to_string();
        let mut i: usize = 0;
        while i < self.entries.len()
            invariant
                i <= self.entries@.len(),
                wanted@ == key@,
                self@.len() == self.entries@.len(),
                value_in(self@, key@, i as int) == value_in(self@, key@, 0),
                forall|value: Seq<char>| #[trigger]
                    with_value(self@, key@, value, 0) == with_value(self@, key@, value, i as int),
            decreases self.entries@.len() - i,
        {
            assert(self@[i as int] == (self.entries@[i as int].0@, self.entries@[i as int].1@));
            if self.entries[i].0 == wanted {
                return Some(i);
            }
            i = i + 1;
        }
        None
    }

    /// Puts `value` under `key`, in place of any other.
    pub fn insert(&mut self, key: String, value: String)
        ensures
            final(self)@ == with_value(old(self)@, key@, value@, 0),
            old(self).wf() ==> final(self).wf(),
    {
        proof {
            law_insert_then_get(self@, key@, value@, key@);
        }
        let ghost after = with_value(self@, key@, value@, 0);
        match self.position(key.as_str()) {
            Some(i) => {
                self.entries.set(i, (key, value));
                assert(self@ =~= after);
            },
            None => {
                self.entries.push((key, value));
                assert(self@ =~= after);
            },
        }
    }

    /// The value under `key`.
    pub fn get(&self, key: &str) -> (r: Option<&String>)
        ensures
            match r {
                Some(value) => value_in(self@, key@, 0) == Some(value@),
                None => value_in(self@, key@, 0) is None,
            },
    {
        match self.position(key) {
            Some(i) => {
                assert(self@[i as int].1 == self.entries@[i as int].1@);
                Some(&self.entries[i].1)
            },
            None => None,
        }
    }

    /// How many entries there are.
    pub fn len(&self) -> (n: usize)
        ensures
            n == self@.len(),
    {
        self.entries.len()
    }

    /// The entries.
    pub fn entries(&self) -> (r: &Vec<(String, String)>)
        ensures
            member_views(r@) == self@,
    {
        &self.entries
    }

    /// The JSON text of an object with the entries, sorted by their keys.
    pub fn to_json(&self) -> (out: String)
        ensures
            sorted_text(quoted_values(self@)) == Ok::<Seq<char>, Seq<char>>(out@),
            shallow_text(out@, 1),
            self.wf() ==> (json_value(out@) matches Some(back) && holds_entries(back, self@)),
    {
        let ghost all = self@;
        let mut members: Vec<(String, String)> = Vec::new();
        let mut i: usize = 0;
        assert(member_views(members@) =~= quoted_values(all.take(0)));
        while i < self.entries.len()
            invariant
                i <= self.entries@.len(),
                all == self@,
                all.len() == self.entries@.len(),
                member_views(members@) == quoted_values(all.take(i as int)),
                sound(member_views(members@), 0),
                forall|j: int|
                    0 <= j < i ==> json_value(quoted((#[trigger] all[j]).1)) == Some(
                        JsonView::Text(all[j].1),
                    ),
            decreases self.entries@.len() - i,
        {
            let entry = &self.entries[i];
            assert(all[i as int] == (entry.0@, entry.1@));
            add_text(&mut members, entry.0.as_str(), entry.1.as_str());
            assert(quoted_values(all.take(i + 1)) =~= quoted_values(all.take(i as int)).push(
                (entry.0@, quoted(entry.1@)),
            ));
            i = i + 1;
        }
        assert(all.take(i as int) =~= all);
        proof {
            let written = quoted_values(all);
            if self.wf() {
                assert forall|a: int, b: int| 0 <= a < b < written.len() implies (
                #[trigger] written[a].0) != (#[trigger] written[b].0) by {
                    assert(all[a].0 != all[b].0);
                }
                assert(distinct_keys(written));
            }
            assert(forall|j: int|
                0 <= j < all.len() ==> (#[trigger] all[j]).0 == written[j].0 && written[j].1
                    == quoted(all[j].1));
        }
        match sorted_object(&members) {
            Ok(text) => text,
            Err(message) => message,
        }
    }

    /// A map with the same entries.
    pub fn copy(&self) -> (m: TextMap)
        ensures
            m@ == self@,
    {
        let mut entries: Vec<(String, String)> = Vec::new();
        let mut i: usize = 0;
        while i < self.entries.len()
            invariant
                i <= self.entries@.len(),
                i == entries@.len(),
                self@.len() == self.entries@.len(),
                forall|j: int|
                    0 <= j < i ==> (entries@[j].0@, (#[trigger] entries@[j]).1@) == self@[j],
            decreases self.entries@.len() - i,
        {
            assert(self@[i as int] == (self.entries@[i as int].0@, self.entries@[i as int].1@));
            let entry = &self.entries[i];
            entries.push((entry.0.clone(), entry.1.clone()));
            i = i + 1;
        }
        let m = TextMap { entries };
        assert(m@ =~= self@);
        m
    }
}

proof fn lemma_with_value(
    entries: Seq<(Seq<char>, Seq<char>)>,
    key: Seq<char>,
    value: Seq<char>,
    other: Seq<char>,
    from: int,
)
    requires
        0 <= from <= entries.len(),
        forall|j: int| 0 <= j < from ==> (#[trigger] entries[j]).0 != key,
    ensures
        value_in(with_value(entries, key, value, from), key, from) == Some(value),
        other != key ==> value_in(with_value(entries, key, value, from), other, from) == value_in(
            entries,
            other,
            from,
        ),
        distinct_keys(entries) ==> distinct_keys(with_value(entries, key, value, from)),
        with_value(entries, key, value, from).take(from) == entries.take(from),
        with_value(entries, key, value, from).len() >= entries.len(),
    decreases entries.len() - from,
{
    let after = with_value(entries, key, value, from);
    if from == entries.len() {
        assert(after[from] == (key, value));
        assert(value_in(after, other, from + 1) is None);
    } else if entries[from].0 == key {
        assert(after[from] == (key, value));
        lemma_value_in_same(entries, after, other, from + 1);
    } else {
        lemma_with_value(entries, key, value, other, from + 1);
        assert(after.take(from + 1)[from] == entries.take(from + 1)[from]);
        assert(after[from] == entries[from]);
        assert(after.take(from) =~= after.take(from + 1).take(from));
        assert(entries.take(from) =~= entries.take(from + 1).take(from));
    }
}

proof fn lemma_value_in_same(
    a: Seq<(Seq<char>, Seq<char>)>,
    b: Seq<(Seq<char>, Seq<char>)>,
    key: Seq<char>,
    from: int,
)
    requires
        0 <= from,
        a.len() == b.len(),
        forall|j: int| from <= j < a.len() ==> #[trigger] a[j] == b[j],
    ensures
        value_in(a, key, from) == value_in(b, key, from),
    decreases a.len() - from,
{
    if from < a.len() {
        assert(a[from] == b[from]);
        lemma_value_in_same(a, b, key, from + 1);
    }
}

/// What was put under a key is found there, other keys keep their values, and no
/// key comes to stand twice.
pub proof fn law_insert_then_get(
    entries: Seq<(Seq<char>, Seq<char>)>,
    key: Seq<char>,
    value: Seq<char>,
    other: Seq<char>,
)
    ensures
        value_in(with_value(entries, key, value, 0), key, 0) == Some(value),
        other != key ==> value_in(with_value(entries, key, value, 0), other, 0) == value_in(
            entries,
            other,
            0,
        ),
        distinct_keys(entries) ==> distinct_keys(with_value(entries, key, value, 0)),
{
    lemma_with_value(entries, key, value, other, 0);
}

} // verus!
