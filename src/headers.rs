use vstd::prelude::*;

verus! {

/// A header entry as the contracts see it: name and value.
pub type HeaderModel = (Seq<char>, Seq<char>);

/// Index of the entry named `name`, or `es.len()` when there is none.
pub open spec fn position(es: Seq<HeaderModel>, name: Seq<char>) -> int {
    if exists|i: int| 0 <= i < es.len() && (#[trigger] es[i]).0 == name {
        choose|i: int| 0 <= i < es.len() && (#[trigger] es[i]).0 == name
    } else {
        es.len() as int
    }
}

/// No two entries share a name.
pub open spec fn distinct_names(es: Seq<HeaderModel>) -> bool {
    forall|i: int, j: int|
        0 <= i < es.len() && 0 <= j < es.len() && i != j ==> (#[trigger] es[i]).0 != (#[trigger] es[j]).0
}

/// The value stored under `name`, if any.
pub open spec fn header_value(es: Seq<HeaderModel>, name: Seq<char>) -> Option<Seq<char>> {
    let i = position(es, name);
    if i < es.len() {
        Some(es[i].1)
    } else {
        None
    }
}

/// Setting a header: an existing entry of that name gets the new value in place,
/// otherwise the entry is appended.
pub open spec fn with_header(es: Seq<HeaderModel>, name: Seq<char>, value: Seq<char>) -> Seq<HeaderModel> {
    let i = position(es, name);
    if i < es.len() {
        es.update(i, (name, value))
    } else {
        es.push((name, value))
    }
}

/// Setting each entry of `more` in turn, the last one of a name winning.
pub open spec fn with_headers(es: Seq<HeaderModel>, more: Seq<HeaderModel>) -> Seq<HeaderModel>
    decreases more.len(),
{
    if more.len() == 0 {
        es
    } else {
        with_header(with_headers(es, more.drop_last()), more.last().0, more.last().1)
    }
}

/// The header lines of a message: `name: value` and a line feed, per entry, in order.
pub open spec fn headers_text(es: Seq<HeaderModel>) -> Seq<char>
    decreases es.len(),
{
    if es.len() == 0 {
        Seq::empty()
    } else {
        headers_text(es.drop_last()) + es.last().0 + ": "@ + es.last().1 + "\n"@
    }
}

pub proof fn lemma_position_at(es: Seq<HeaderModel>, name: Seq<char>, k: int)
    requires
        distinct_names(es),
        0 <= k < es.len(),
        es[k].0 == name,
    ensures
        position(es, name) == k,
{
}

pub proof fn lemma_position_absent(es: Seq<HeaderModel>, name: Seq<char>)
    requires
        forall|j: int| 0 <= j < es.len() ==> (#[trigger] es[j]).0 != name,
    ensures
        position(es, name) == es.len(),
{
}

pub proof fn lemma_with_header_distinct(es: Seq<HeaderModel>, name: Seq<char>, value: Seq<char>)
    requires
        distinct_names(es),
    ensures
        distinct_names(with_header(es, name, value)),
        header_value(with_header(es, name, value), name) == Some(value),
{
    let i = position(es, name);
    let r = with_header(es, name, value);
    if i < es.len() {
        assert(es[i].0 == name);
        lemma_position_at(r, name, i);
    } else {
        assert forall|j: int| 0 <= j < es.len() implies (#[trigger] es[j]).0 != name by {
            if es[j].0 == name {
                assert(exists|k: int| 0 <= k < es.len() && (#[trigger] es[k]).0 == name);
            }
        }
        lemma_position_at(r, name, es.len() as int);
    }
}

/// Setting one name leaves the value of every other name as it was.
pub proof fn lemma_header_value_other(es: Seq<HeaderModel>, name: Seq<char>, value: Seq<char>, other: Seq<char>)
    requires
        distinct_names(es),
        name != other,
    ensures
        header_value(with_header(es, name, value), other) == header_value(es, other),
{
    lemma_with_header_distinct(es, name, value);
    let r = with_header(es, name, value);
    let k = position(es, other);
    if k < es.len() {
        assert(es[k].0 == other);
        lemma_position_at(r, other, k);
    } else {
        assert forall|j: int| 0 <= j < es.len() implies (#[trigger] es[j]).0 != other by {
            if es[j].0 == other {
                assert(exists|k: int| 0 <= k < es.len() && (#[trigger] es[k]).0 == other);
            }
        }
        assert forall|j: int| 0 <= j < r.len() implies (#[trigger] r[j]).0 != other by {
            if j < es.len() {
                assert(es[j].0 != other);
            }
        }
        lemma_position_absent(r, other);
    }
}

/// Setting entries none of which is named `other` leaves the value of `other` as it was.
pub proof fn lemma_with_headers_other(es: Seq<HeaderModel>, more: Seq<HeaderModel>, other: Seq<char>)
    requires
        distinct_names(es),
        forall|k: int| 0 <= k < more.len() ==> (#[trigger] more[k]).0 != other,
    ensures
        header_value(with_headers(es, more), other) == header_value(es, other),
    decreases more.len(),
{
    if more.len() > 0 {
        let front = more.drop_last();
        assert forall|k: int| 0 <= k < front.len() implies (#[trigger] front[k]).0 != other by {
            assert(front[k] == more[k]);
        }
        lemma_with_headers_other(es, front, other);
        lemma_with_headers_distinct(es, front);
        assert(more[more.len() - 1].0 != other);
        lemma_header_value_other(with_headers(es, front), more.last().0, more.last().1, other);
    }
}

pub proof fn lemma_with_headers_distinct(es: Seq<HeaderModel>, more: Seq<HeaderModel>)
    requires
        distinct_names(es),
    ensures
        distinct_names(with_headers(es, more)),
    decreases more.len(),
{
    if more.len() > 0 {
        lemma_with_headers_distinct(es, more.drop_last());
        lemma_with_header_distinct(with_headers(es, more.drop_last()), more.last().0, more.last().1);
    }
}

/// Header fields: an ordered list of entries whose names are distinct.
/// Setting a name that is present replaces its value, so the last setting wins.
#[derive(Debug)]
pub struct Headers {
    entries: Vec<(String, String)>,
}

impl View for Headers {
    type V = Seq<HeaderModel>;

    closed spec fn view(&self) -> Seq<HeaderModel> {
        self.entries@.map_values(|e: (String, String)| (e.0@, e.1@))
    }
}

impl Headers {
    /// No two entries share a name.
    #[verifier::type_invariant]
    pub open spec fn names_distinct(&self) -> bool {
        distinct_names(self@)
    }

    /// Headers with no entry.
    pub fn new() -> (r: Headers)
        ensures
            r@ == Seq::<HeaderModel>::empty(),
    {
        let r = Headers { entries: Vec::new() };
        assert(r@ =~= Seq::<HeaderModel>::empty());
        r
    }

    /// Number of entries.
    pub fn len(&self) -> (r: usize)
        ensures
            r == self@.len(),
    {
        self.entries.len()
    }

    /// Name and value of the entry at `i`, in order.
    pub fn entry(&self, i: usize) -> (r: (&String, &String))
        requires
            i < self@.len(),
        ensures
            (r.0@, r.1@) == self@[i as int],
    {
        let e = &self.entries[i];
        (&e.0, &e.1)
    }

    /// Index of the entry named `name`, or the length when there is none.
    fn find(&self, name: &String) -> (r: usize)
        ensures
            r as int == position(self@, name@),
    {
        proof {
            use_type_invariant(self);
        }
        let mut i: usize = 0;
        while i < self.entries.len()
            invariant
                i <= self.entries@.len(),
                distinct_names(self@),
                forall|j: int| 0 <= j < i ==> (#[trigger] self@[j]).0 != name@,
            decreases self.entries@.len() - i,
        {
            if self.entries[i].0 == *name {
                proof {
                    lemma_position_at(self@, name@, i as int);
                }
                return i;
            }
            i = i + 1;
        }
        proof {
            lemma_position_absent(self@, name@);
        }
        i
    }

    /// The value stored under `name`.
    pub fn get(&self, name: &str) -> (r: Option<&String>)
        ensures
            r matches Some(v) ==> header_value(self@, name@) == Some(v@),
            r is None ==> header_value(self@, name@) is None,
    {
        let key = name.to_string();
        let i = self.find(&key);
        if i < self.entries.len() {
            Some(&self.entries[i].1)
        } else {
            None
        }
    }

    /// Appends the header lines of these entries to `out`.
    pub fn write_lines(&self, out: &mut String)
        ensures
            final(out)@ == old(out)@ + headers_text(self@),
    {
        let ghost start = out@;
        let n = self.entries.len();
        let mut i: usize = 0;
        while i < n
            invariant
                n == self@.len(),
                i <= n,
                out@ == start + headers_text(self@.take(i as int)),
            decreases n - i,
        {
            let e = &self.entries[i];
            proof {
                assert(self@.take(i + 1).drop_last() =~= self@.take(i as int));
                assert(self@[i as int] == (e.0@, e.1@));
            }
            out.append(e.0.as_str());
            out.append(": ");
            out.append(e.1.as_str());
            out.append("\n");
            assert(out@ =~= start + headers_text(self@.take(i + 1)));
            i = i + 1;
        }
        assert(self@.take(n as int) =~= self@);
    }

    /// Sets `name` to `value`: replaces the value of an entry of that name, else appends one.
    pub fn insert(&mut self, name: String, value: String)
        ensures
            final(self)@ == with_header(old(self)@, name@, value@),
    {
        proof {
            use_type_invariant(&*self);
        }
        let i = self.find(&name);
        proof {
            lemma_with_header_distinct(self@, name@, value@);
        }
        let ghost target = with_header(self@, name@, value@);
        let mut entries: Vec<(String, String)> = Vec::new();
        std::mem::swap(&mut entries, &mut self.entries);
        if i < entries.len() {
            entries.set(i, (name, value));
        } else {
            entries.push((name, value));
        }
        assert(entries@.map_values(|e: (String, String)| (e.0@, e.1@)) =~= target);
        self.entries = entries;
    }

    /// Sets every entry of `more`, in its order.
    pub fn extend(&mut self, more: Headers)
        ensures
            final(self)@ == with_headers(old(self)@, more@),
    {
        let ghost start = self@;
        let n = more.entries.len();
        let mut i: usize = 0;
        while i < n
            invariant
                n == more@.len(),
                i <= n,
                self@ == with_headers(start, more@.take(i as int)),
            decreases n - i,
        {
            let e = &more.entries[i];
            proof {
                assert(more@.take(i + 1).drop_last() =~= more@.take(i as int));
                assert(more@[i as int] == (e.0@, e.1@));
            }
            self.insert(e.0.clone(), e.1.clone());
            i = i + 1;
        }
        assert(more@.take(n as int) =~= more@);
    }
}

} // verus!
