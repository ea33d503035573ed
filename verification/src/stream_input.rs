//! Tool input that is still being streamed: the part that has arrived, and how
//! much of it is already whole.

use vstd::prelude::*;

use crate::strs::{str_eq, to_chars};

verus! {

/// Where the reader of a JSON object stands.
pub struct ScanSpec {
    /// Inside a string.
    pub in_string: bool,
    /// Behind a backslash.
    pub escaped: bool,
    /// How many objects are open.
    pub objects: int,
    /// How many lists are open.
    pub arrays: int,
    /// Where the last comma between members of the outermost object stands;
    /// -1 if there was none.
    pub comma: int,
}

/// Where the reader starts.
pub open spec fn scan_start() -> ScanSpec {
    ScanSpec { in_string: false, escaped: false, objects: 0, arrays: 0, comma: -1 }
}

/// Where the reader stands after the character `c` at position `at`.
pub open spec fn scan_char(s: ScanSpec, at: int, c: char) -> ScanSpec {
    if s.in_string {
        if s.escaped {
            ScanSpec { escaped: false, ..s }
        } else if c == '\\' {
            ScanSpec { escaped: true, ..s }
        } else if c == '"' {
            ScanSpec { in_string: false, ..s }
        } else {
            s
        }
    } else if c == '"' {
        ScanSpec { in_string: true, ..s }
    } else if c == '{' {
        ScanSpec { objects: s.objects + 1, ..s }
    } else if c == '}' {
        ScanSpec { objects: s.objects - 1, ..s }
    } else if c == '[' {
        ScanSpec { arrays: s.arrays + 1, ..s }
    } else if c == ']' {
        ScanSpec { arrays: s.arrays - 1, ..s }
    } else if c == ',' && s.objects == 1 && s.arrays == 0 {
        ScanSpec { comma: at, ..s }
    } else {
        s
    }
}

/// Where the reader stands at the end of a text.
pub open spec fn scan_of(text: Seq<char>) -> ScanSpec
    decreases text.len(),
{
    if text.len() == 0 {
        scan_start()
    } else {
        scan_char(scan_of(text.drop_last()), text.len() - 1, text.last())
    }
}

/// Whether the outermost object is closed by the character at `i`.
pub open spec fn closes_at(text: Seq<char>, i: int) -> bool {
    let s = scan_of(text.take(i));
    !s.in_string && text[i] == '}' && s.objects == 1
}

/// Whether the outermost object is closed from position `from` on.
pub open spec fn closes(text: Seq<char>, from: int) -> bool {
    exists|i: int| from <= i < text.len() && #[trigger] closes_at(text, i)
}

/// What is known of a streamed input: the tool call it belongs to, the text so
/// far, and the comma up to which it was shown.
#[verifier::ext_equal]
pub struct StreamSpec {
    pub id: Seq<char>,
    pub name: Seq<char>,
    pub json: Seq<char>,
    pub shown: int,
}

/// The state of the reader.
#[derive(Clone, Copy)]
struct Scan {
    in_string: bool,
    escaped: bool,
    objects: i128,
    arrays: i128,
    comma: i128,
}

impl Scan {
    spec fn view(&self) -> ScanSpec {
        ScanSpec {
            in_string: self.in_string,
            escaped: self.escaped,
            objects: self.objects as int,
            arrays: self.arrays as int,
            comma: self.comma as int,
        }
    }
}

/// A streamed input.
pub struct StreamedInput {
    id: String,
    name: String,
    json: Vec<char>,
    scan: Scan,
    shown: i128,
}

proof fn lemma_scan_bounds(text: Seq<char>)
    ensures
        -text.len() <= scan_of(text).objects <= text.len(),
        -text.len() <= scan_of(text).arrays <= text.len(),
        -1 <= scan_of(text).comma < text.len(),
    decreases text.len(),
{
    if text.len() > 0 {
        lemma_scan_bounds(text.drop_last());
    }
}

impl StreamedInput {
    /// What is known of the input.
    pub closed spec fn view(&self) -> StreamSpec {
        StreamSpec {
            id: self.id@,
            name: self.name@,
            json: self.json@,
            shown: self.shown as int,
        }
    }

    #[verifier::type_invariant]
    spec fn inv(self) -> bool {
        &&& self.scan@ == scan_of(self.json@)
        &&& -1 <= self.shown
    }

    /// The input of a tool call, before any of it has arrived.
    pub fn new(id: &str, name: &str) -> (r: StreamedInput)
        ensures
            r@ == (StreamSpec { id: id@, name: name@, json: Seq::empty(), shown: -1 }),
    {
        StreamedInput {
            id: id.to_owned(),
            name: name.to_owned(),
            json: Vec::new(),
            scan: Scan { in_string: false, escaped: false, objects: 0, arrays: 0, comma: -1 },
            shown: -1,
        }
    }

    /// The tool call that the input belongs to.
    pub fn id(&self) -> (r: &String)
        ensures
            r@ == self@.id,
    {
        &self.id
    }

    /// The name of the tool.
    pub fn name(&self) -> (r: &String)
        ensures
            r@ == self@.name,
    {
        &self.name
    }

    /// The text so far.
    pub fn text(&self) -> (r: &Vec<char>)
        ensures
            r@ == self@.json,
    {
        &self.json
    }

    /// Reads a further fragment. Says whether it closes the input.
    pub fn extend(self, fragment: &str) -> (r: (StreamedInput, bool))
        ensures
            r.0@ == (StreamSpec { json: self@.json + fragment@, ..self@ }),
            r.1 == closes(self@.json + fragment@, self@.json.len() as int),
    {
        proof {
            use_type_invariant(&self);
        }
        let chunk = to_chars(fragment);
        let mut json = self.json;
        let mut scan = self.scan;
        let mut complete = false;
        let ghost before = json@;
        let mut i: usize = 0;
        while i < chunk.len()
            invariant
                i <= chunk@.len(),
                chunk@ == fragment@,
                json@ == before + fragment@.take(i as int),
                scan@ == scan_of(json@),
                complete == closes(json@, before.len() as int),
            decreases chunk@.len() - i,
        {
            let c = chunk[i];
            let at: usize = json.len();
            let ghost text = json@;
            let ghost was = scan;
            proof {
                lemma_scan_bounds(text);
            }
            if scan.in_string {
                if scan.escaped {
                    scan.escaped = false;
                } else if c == '\\' {
                    scan.escaped = true;
                } else if c == '"' {
                    scan.in_string = false;
                }
            } else if c == '"' {
                scan.in_string = true;
            } else if c == '{' {
                scan.objects = scan.objects + 1;
            } else if c == '}' {
                scan.objects = scan.objects - 1;
                if scan.objects == 0 {
                    complete = true;
                }
            } else if c == '[' {
                scan.arrays = scan.arrays + 1;
            } else if c == ']' {
                scan.arrays = scan.arrays - 1;
            } else if c == ',' && scan.objects == 1 && scan.arrays == 0 {
                scan.comma = at as i128;
            }
            json.push(c);
            proof {
                assert(json@.drop_last() =~= text);
                assert(before + fragment@.take(i + 1) =~= json@);
                lemma_closes_push(text, c, before.len() as int);
            }
            i += 1;
        }
        proof {
            assert(before + fragment@.take(0) =~= before);
            assert(fragment@.take(i as int) =~= fragment@);
        }
        (
            StreamedInput { id: self.id, name: self.name, json, scan, shown: self.shown },
            complete,
        )
    }

    /// The comma that was not shown yet, if there is one; it counts as shown from
    /// now on.
    pub fn advance(self) -> (r: (StreamedInput, Option<usize>))
        ensures
            scan_of(self@.json).comma <= self@.shown ==> r.0@ == self@ && r.1 is None,
            scan_of(self@.json).comma > self@.shown ==> r.0@ == (StreamSpec {
                shown: scan_of(self@.json).comma,
                ..self@
            }) && r.1 is Some && r.1->0 == scan_of(self@.json).comma,
            r.1 matches Some(n) ==> n < self@.json.len(),
    {
        proof {
            use_type_invariant(&self);
            lemma_scan_bounds(self.json@);
        }
        if self.scan.comma <= self.shown {
            return (self, None);
        }
        let n: usize = self.json.len();
        let at: usize = self.scan.comma as usize;
        (
            StreamedInput {
                id: self.id,
                name: self.name,
                json: self.json,
                scan: self.scan,
                shown: self.scan.comma,
            },
            Some(at),
        )
    }
}

proof fn lemma_closes_push(text: Seq<char>, c: char, from: int)
    requires
        0 <= from <= text.len(),
    ensures
        closes(text.push(c), from) == (closes(text, from) || (!scan_of(text).in_string && c == '}'
            && scan_of(text).objects == 1)),
{
    let after = text.push(c);
    assert forall|i: int| from <= i < text.len() implies closes_at(after, i) == closes_at(text, i) by {
        assert(after.take(i) =~= text.take(i));
    }
    assert(after.take(text.len() as int) =~= text);
    if closes(text, from) {
        let i = choose|i: int| from <= i < text.len() && #[trigger] closes_at(text, i);
        assert(closes_at(after, i));
    }
    if closes(after, from) {
        let i = choose|i: int| from <= i < after.len() && #[trigger] closes_at(after, i);
        if i < text.len() {
            assert(closes_at(text, i));
        }
    }
    if !scan_of(text).in_string && c == '}' && scan_of(text).objects == 1 {
        assert(closes_at(after, text.len() as int));
    }
}

/// Where a streamed input is kept: its lane, and its place in the message.
pub type Slot = (Seq<char>, u64);

/// One kept input.
struct Entry {
    lane: String,
    index: u64,
    input: StreamedInput,
}

/// The inputs that are being streamed, by lane and place.
pub struct StreamedInputs {
    entries: Vec<Entry>,
}

spec fn slot(e: Entry) -> Slot {
    (e.lane@, e.index)
}

spec fn has_slot(es: Seq<Entry>, k: Slot) -> bool {
    exists|i: int| 0 <= i < es.len() && #[trigger] slot(es[i]) == k
}

spec fn slot_index(es: Seq<Entry>, k: Slot) -> int {
    choose|i: int| 0 <= i < es.len() && #[trigger] slot(es[i]) == k
}

spec fn slots(es: Seq<Entry>) -> Map<Slot, StreamSpec> {
    Map::new(|k: Slot| has_slot(es, k), |k: Slot| es[slot_index(es, k)].input@)
}

spec fn unique_slots(es: Seq<Entry>) -> bool {
    forall|i: int, j: int|
        0 <= i < j < es.len() ==> #[trigger] slot(es[i]) != #[trigger] slot(es[j])
}

/// The inputs without those of a lane.
pub open spec fn without_lane(m: Map<Slot, StreamSpec>, lane: Seq<char>) -> Map<Slot, StreamSpec> {
    m.restrict(Set::new(|k: Slot| k.0 != lane))
}

proof fn lemma_slot(es: Seq<Entry>, i: int)
    requires
        unique_slots(es),
        0 <= i < es.len(),
    ensures
        slots(es).contains_key(slot(es[i])),
        slots(es)[slot(es[i])] == es[i].input@,
        slot_index(es, slot(es[i])) == i,
{
    let k = slot(es[i]);
    assert(has_slot(es, k));
    let j = slot_index(es, k);
    assert(slot(es[j]) == k);
    assert(i == j);
}

/// Two lists hold the same if they have the same slots with the same inputs.
proof fn lemma_same_slots(es: Seq<Entry>, m: Map<Slot, StreamSpec>)
    requires
        unique_slots(es),
        forall|i: int|
            0 <= i < es.len() ==> m.contains_key(#[trigger] slot(es[i])) && m[slot(es[i])]
                == es[i].input@,
        forall|k: Slot| #[trigger] m.contains_key(k) ==> has_slot(es, k),
    ensures
        slots(es) == m,
{
    assert forall|k: Slot| slots(es).contains_key(k) implies m.contains_key(k) && slots(es)[k]
        == m[k] by {
        let i = slot_index(es, k);
        assert(slot(es[i]) == k);
    }
    assert(slots(es) =~= m);
}

impl StreamedInputs {
    /// The kept inputs.
    pub closed spec fn view(&self) -> Map<Slot, StreamSpec> {
        slots(self.entries@)
    }

    #[verifier::type_invariant]
    spec fn inv(self) -> bool {
        unique_slots(self.entries@)
    }

    /// No inputs.
    pub fn new() -> (r: StreamedInputs)
        ensures
            r@ == Map::<Slot, StreamSpec>::empty(),
    {
        let r = StreamedInputs { entries: Vec::new() };
        proof {
            assert(r@ =~= Map::<Slot, StreamSpec>::empty());
        }
        r
    }

    /// Takes the input in a slot out.
    pub fn take(&mut self, lane: &str, index: u64) -> (r: Option<StreamedInput>)
        ensures
            final(self)@ == old(self)@.remove((lane@, index)),
            r matches Some(s) ==> old(self)@.contains_key((lane@, index)) && old(self)@[(
                lane@,
                index,
            )] == s@,
            r is None ==> !old(self)@.contains_key((lane@, index)),
    {
        proof {
            use_type_invariant(&*self);
        }
        let ghost k: Slot = (lane@, index);
        let mut i: usize = 0;
        while i < self.entries.len()
            invariant
                i <= self.entries@.len(),
                k == (lane@, index),
                *self == *old(self),
                unique_slots(self.entries@),
                forall|j: int| 0 <= j < i ==> #[trigger] slot(self.entries@[j]) != k,
            decreases self.entries@.len() - i,
        {
            if self.entries[i].index == index && str_eq(self.entries[i].lane.as_str(), lane) {
                let mut entries: Vec<Entry> = Vec::new();
                std::mem::swap(&mut entries, &mut self.entries);
                let ghost before = entries@;
                let taken = entries.remove(i);
                proof {
                    lemma_slot(before, i as int);
                    assert forall|a: int, b: int| 0 <= a < b < entries@.len() implies #[trigger] slot(
                        entries@[a],
                    ) != #[trigger] slot(entries@[b]) by {
                        let a0 = if a < i { a } else { a + 1 };
                        let b0 = if b < i { b } else { b + 1 };
                        assert(slot(before[a0]) != slot(before[b0]));
                    }
                    let m = slots(before).remove(k);
                    assert forall|a: int| 0 <= a < entries@.len() implies m.contains_key(
                        #[trigger] slot(entries@[a]),
                    ) && m[slot(entries@[a])] == entries@[a].input@ by {
                        let a0 = if a < i { a } else { a + 1 };
                        lemma_slot(before, a0);
                        assert(slot(before[a0]) != slot(before[i as int]));
                    }
                    assert forall|q: Slot| #[trigger] m.contains_key(q) implies has_slot(entries@, q) by {
                        let a0 = slot_index(before, q);
                        assert(slot(before[a0]) == q);
                        let a = if a0 < i { a0 } else { a0 - 1 };
                        assert(entries@[a] == before[a0]);
                        assert(slot(entries@[a]) == q);
                    }
                    lemma_same_slots(entries@, m);
                }
                self.entries = entries;
                return Some(taken.input);
            }
            i += 1;
        }
        proof {
            assert(self@.remove(k) =~= self@);
        }
        None
    }

    /// Keeps an input, in place of what its slot held.
    pub fn put(&mut self, lane: &str, index: u64, input: StreamedInput)
        ensures
            final(self)@ == old(self)@.insert((lane@, index), input@),
    {
        let ghost k: Slot = (lane@, index);
        self.take(lane, index);
        proof {
            use_type_invariant(&*self);
        }
        let mut entries: Vec<Entry> = Vec::new();
        std::mem::swap(&mut entries, &mut self.entries);
        let ghost before = entries@;
        entries.push(Entry { lane: lane.to_owned(), index, input });
        proof {
            assert forall|a: int| 0 <= a < before.len() implies slot(before[a]) != k by {
                lemma_slot(before, a);
            }
            assert forall|a: int, b: int| 0 <= a < b < entries@.len() implies #[trigger] slot(
                entries@[a],
            ) != #[trigger] slot(entries@[b]) by {
                assert(entries@[a] == before[a]);
                if b < before.len() {
                    assert(entries@[b] == before[b]);
                    assert(slot(before[a]) != slot(before[b]));
                }
            }
            let m = old(self)@.insert(k, input@);
            assert forall|a: int| 0 <= a < entries@.len() implies m.contains_key(
                #[trigger] slot(entries@[a]),
            ) && m[slot(entries@[a])] == entries@[a].input@ by {
                if a < before.len() {
                    assert(entries@[a] == before[a]);
                    lemma_slot(before, a);
                }
            }
            assert forall|q: Slot| #[trigger] m.contains_key(q) implies has_slot(entries@, q) by {
                if q == k {
                    assert(slot(entries@[before.len() as int]) == q);
                } else {
                    assert(slots(before).contains_key(q));
                    let a = slot_index(before, q);
                    assert(slot(before[a]) == q);
                    assert(entries@[a] == before[a]);
                    assert(slot(entries@[a]) == q);
                }
            }
            lemma_same_slots(entries@, m);
        }
        self.entries = entries;
    }

    /// Drops the inputs of a lane.
    pub fn drop_lane(&mut self, lane: &str)
        ensures
            final(self)@ == without_lane(old(self)@, lane@),
    {
        proof {
            use_type_invariant(&*self);
        }
        let mut entries: Vec<Entry> = Vec::new();
        std::mem::swap(&mut entries, &mut self.entries);
        let ghost before = entries@;
        let mut kept: Vec<Entry> = Vec::new();
        let ghost mut from: Seq<int> = Seq::empty();
        for entry in it: entries
            invariant
                it.seq() == before,
                unique_slots(before),
                from.len() == kept@.len(),
                forall|a: int|
                    #![trigger from[a]]
                    #![trigger kept@[a]]
                    0 <= a < kept@.len() ==> 0 <= from[a] < it.index() && kept@[a]
                        == before[from[a]] && kept@[a].lane@ != lane@,
                forall|a: int, b: int| 0 <= a < b < from.len() ==> from[a] < from[b],
                forall|j: int|
                    0 <= j < it.index() && (#[trigger] before[j]).lane@ != lane@ ==> from.contains(j),
        {
            let ghost j = it.index();
            if !str_eq(entry.lane.as_str(), lane) {
                kept.push(entry);
                proof {
                    let was = from;
                    from = from.push(j);
                    assert(from[was.len() as int] == j);
                    assert forall|i: int|
                        0 <= i <= j && (#[trigger] before[i]).lane@ != lane@ implies from.contains(i) by {
                        if i < j {
                            let a = choose|a: int| 0 <= a < was.len() && was[a] == i;
                            assert(from[a] == i);
                        }
                    }
                }
            }
        }
        proof {
            assert forall|a: int, b: int| 0 <= a < b < kept@.len() implies #[trigger] slot(kept@[a])
                != #[trigger] slot(kept@[b]) by {
                assert(slot(before[from[a]]) != slot(before[from[b]]));
            }
            let m = without_lane(slots(before), lane@);
            assert forall|a: int| 0 <= a < kept@.len() implies m.contains_key(
                #[trigger] slot(kept@[a]),
            ) && m[slot(kept@[a])] == kept@[a].input@ by {
                lemma_slot(before, from[a]);
            }
            assert forall|q: Slot| #[trigger] m.contains_key(q) implies has_slot(kept@, q) by {
                assert(slots(before).contains_key(q));
                let j = slot_index(before, q);
                assert(slot(before[j]) == q);
                assert(before[j].lane@ != lane@);
                let a = choose|a: int| 0 <= a < from.len() && from[a] == j;
                assert(slot(kept@[a]) == q);
            }
            lemma_same_slots(kept@, m);
        }
        self.entries = kept;
    }
}

} // verus!
