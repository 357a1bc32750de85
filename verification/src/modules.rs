//! The table of mapped libraries: for each library name, where its image lies.
//!
//! The table is only ever rebuilt whole from a full enumeration of the
//! libraries that the loader has mapped. It is never patched: the loader
//! reports no changes, only snapshots.

use crate::path::{
    file_name, is_name, is_plain_name, lemma_file_name_of_plain, name_of, normalized,
};
use crate::range::ByteRange;
use iter::Iter;
use vstd::prelude::*;
use vstd::slice::*;

pub mod iter;

verus! {

/// One library as the loader reports it: its path and where its image lies.
pub struct LibraryRecord {
    pub path: Vec<u8>,
    pub range: ByteRange,
}

/// A `LibraryRecord` with its path as a sequence of bytes.
pub struct RecordView {
    pub path: Seq<u8>,
    pub range: ByteRange,
}

impl View for LibraryRecord {
    type V = RecordView;

    open spec fn view(&self) -> RecordView {
        RecordView { path: self.path@, range: self.range }
    }
}

/// An enumeration with each record taken by its view.
pub open spec fn records_view(records: Seq<LibraryRecord>) -> Seq<RecordView> {
    records.map_values(|record: LibraryRecord| record@)
}

/// The table that an enumeration gives: each record is entered under the file
/// name of its path, a later record replaces an earlier one of the same name,
/// and a record whose path names no file is passed over.
pub open spec fn table_of(records: Seq<RecordView>) -> Map<Seq<u8>, ByteRange>
    decreases records.len(),
{
    if records.len() == 0 {
        Map::empty()
    } else {
        let rest = table_of(records.drop_last());
        match file_name(records.last().path) {
            Some(name) => rest.insert(name, records.last().range),
            None => rest,
        }
    }
}

/// What a table answers for `name`: the range entered under it, or the empty
/// range where nothing is.
pub open spec fn spec_lookup(table: Map<Seq<u8>, ByteRange>, name: Seq<u8>) -> ByteRange {
    if table.contains_key(name) {
        table[name]
    } else {
        ByteRange::spec_empty()
    }
}

/// What a refresh makes of a table: the table that the enumeration gives.
/// Nothing of the table before is kept.
pub open spec fn spec_refresh(before: Map<Seq<u8>, ByteRange>, records: Seq<RecordView>) -> Map<
    Seq<u8>,
    ByteRange,
> {
    table_of(records)
}

/// Whether the record at `i` is the last of `records` entered under `name`.
pub open spec fn is_last_named(records: Seq<RecordView>, name: Seq<u8>, i: int) -> bool {
    &&& 0 <= i < records.len()
    &&& file_name(records[i].path) == Some(name)
    &&& forall|j: int| i < j < records.len() ==> file_name(records[j].path) != Some(name)
}

/// Whether some record of `records` is entered under `name`.
pub open spec fn is_named(records: Seq<RecordView>, name: Seq<u8>) -> bool {
    exists|i: int| 0 <= i < records.len() && file_name(#[trigger] records[i].path) == Some(name)
}

/// The keys of `table_of(records)` are the names under which its records are
/// entered, and each key holds the range of some record of that name.
pub proof fn lemma_table_of_keys(records: Seq<RecordView>, name: Seq<u8>)
    ensures
        table_of(records).contains_key(name) <==> is_named(records, name),
        table_of(records).contains_key(name) ==> exists|i: int| #[trigger]
            is_last_named(records, name, i) && table_of(records)[name] == records[i].range,
    decreases records.len(),
{
    if records.len() > 0 {
        let rest = records.drop_last();
        let n = records.len() - 1;
        lemma_table_of_keys(rest, name);
        assert forall|i: int| 0 <= i < n implies rest[i] == records[i] by {}
        if file_name(records.last().path) == Some(name) {
            assert(is_last_named(records, name, n));
            assert(file_name(records[n].path) == Some(name));
        } else {
            if is_named(records, name) {
                let i = choose|i: int|
                    0 <= i < records.len() && file_name(#[trigger] records[i].path) == Some(name);
                assert(file_name(rest[i].path) == Some(name));
            }
            if table_of(rest).contains_key(name) {
                let i = choose|i: int| #[trigger]
                    is_last_named(rest, name, i) && table_of(rest)[name] == rest[i].range;
                assert(file_name(records[i].path) == Some(name));
                assert forall|j: int| i < j < records.len() implies file_name(records[j].path)
                    != Some(name) by {
                    if j < n {
                        assert(rest[j] == records[j]);
                    }
                }
                assert(is_last_named(records, name, i));
            }
        }
    }
}

/// After a refresh, a library that the enumeration reports is found under its
/// name, with the range that the enumeration gave in its last record of that
/// name.
pub proof fn law_refresh_visibility(records: Seq<RecordView>, name: Seq<u8>, i: int)
    requires
        is_last_named(records, name, i),
    ensures
        table_of(records).contains_key(name),
        spec_lookup(table_of(records), name) == records[i].range,
        spec_lookup(table_of(records), name).len == records[i].range.len,
        records[i].range.len > 0 ==> !spec_lookup(table_of(records), name).spec_is_empty(),
{
    lemma_table_of_keys(records, name);
    assert(file_name(records[i].path) == Some(name));
    let k = choose|k: int| #[trigger]
        is_last_named(records, name, k) && table_of(records)[name] == records[k].range;
    if k < i {
        assert(file_name(records[i].path) != Some(name));
    } else if i < k {
        assert(file_name(records[k].path) != Some(name));
    }
}

/// A library that is mapped when the table is refreshed is found afterwards,
/// whatever the table held before: under its name stand the very base and
/// length of the record that lists it (of the last such record, should the
/// enumeration list the name more than once), and where that length is above
/// zero the answer is not empty. So a library that was closed through one
/// handle stays in the table for as long as another holder keeps it mapped.
pub proof fn law_mapped_library_stays(
    before: Map<Seq<u8>, ByteRange>,
    records: Seq<RecordView>,
    name: Seq<u8>,
    i: int,
)
    requires
        is_last_named(records, name, i),
    ensures
        spec_lookup(spec_refresh(before, records), name) == records[i].range,
        spec_lookup(spec_refresh(before, records), name).base == records[i].range.base,
        spec_lookup(spec_refresh(before, records), name).len == records[i].range.len,
        records[i].range.len > 0 ==> !spec_lookup(
            spec_refresh(before, records),
            name,
        ).spec_is_empty(),
{
    law_refresh_visibility(records, name, i);
}

/// A library that was opened as `opened_as` is found after the refresh that
/// follows, under the name by which it is then known, where the enumeration
/// lists it under that name with a length above zero.
pub proof fn law_opened_library_is_found(
    before: Map<Seq<u8>, ByteRange>,
    records: Seq<RecordView>,
    opened_as: Seq<u8>,
    i: int,
)
    requires
        is_last_named(records, normalized(opened_as), i),
        records[i].range.len > 0,
    ensures
        !spec_lookup(spec_refresh(before, records), normalized(opened_as)).spec_is_empty(),
        spec_lookup(spec_refresh(before, records), normalized(opened_as)).len
            == records[i].range.len,
{
    law_refresh_visibility(records, normalized(opened_as), i);
}

/// After a refresh, a name that the enumeration does not report answers the
/// empty range, whatever the table held before: a library that was never
/// opened is absent, and one that was unloaded is gone. A name that another
/// record still carries is still reported, and stays.
pub proof fn law_absent_after_refresh(records: Seq<RecordView>, name: Seq<u8>)
    requires
        !is_named(records, name),
    ensures
        !table_of(records).contains_key(name),
        spec_lookup(table_of(records), name) == ByteRange::spec_empty(),
        spec_lookup(table_of(records), name).spec_is_empty(),
{
    lemma_table_of_keys(records, name);
}

/// A name that is no key answers the empty range.
pub proof fn law_lookup_absent(table: Map<Seq<u8>, ByteRange>, name: Seq<u8>)
    requires
        !table.contains_key(name),
    ensures
        spec_lookup(table, name).spec_is_empty(),
{
}

/// Refreshing twice from the same enumeration gives what refreshing once
/// gives, and that is the same whatever the table held before.
pub proof fn law_refresh_idempotent(
    before: Map<Seq<u8>, ByteRange>,
    other: Map<Seq<u8>, ByteRange>,
    records: Seq<RecordView>,
)
    ensures
        spec_refresh(spec_refresh(before, records), records) == spec_refresh(before, records),
        spec_refresh(before, records) == spec_refresh(other, records),
        forall|name: Seq<u8>|
            spec_lookup(spec_refresh(spec_refresh(before, records), records), name) == spec_lookup(
                spec_refresh(before, records),
                name,
            ),
{
}

/// Whether `records` give each name one range only, however often they
/// report it.
pub open spec fn consistent(records: Seq<RecordView>) -> bool {
    forall|i: int, j: int|
        0 <= i < records.len() && 0 <= j < records.len() && file_name(
            #[trigger] records[i].path,
        ) is Some && file_name(records[i].path) == file_name(#[trigger] records[j].path)
            ==> records[i].range == records[j].range
}

/// Two enumerations that report the same libraries give the same table, in
/// whatever order each lists them: refreshing again while nothing was loaded
/// or unloaded changes nothing.
pub proof fn law_refresh_same_snapshot(a: Seq<RecordView>, b: Seq<RecordView>)
    requires
        consistent(a),
        forall|i: int| 0 <= i < a.len() ==> b.contains(#[trigger] a[i]),
        forall|j: int| 0 <= j < b.len() ==> a.contains(#[trigger] b[j]),
    ensures
        table_of(a) == table_of(b),
{
    let ta = table_of(a);
    let tb = table_of(b);
    assert forall|name: Seq<u8>| ta.contains_key(name) == tb.contains_key(name) by {
        lemma_table_of_keys(a, name);
        lemma_table_of_keys(b, name);
        if is_named(a, name) {
            let i = choose|i: int|
                0 <= i < a.len() && file_name(#[trigger] a[i].path) == Some(name);
            assert(b.contains(a[i]));
            let j = choose|j: int| 0 <= j < b.len() && b[j] == a[i];
            assert(file_name(b[j].path) == Some(name));
        }
        if is_named(b, name) {
            let j = choose|j: int|
                0 <= j < b.len() && file_name(#[trigger] b[j].path) == Some(name);
            assert(a.contains(b[j]));
            let i = choose|i: int| 0 <= i < a.len() && a[i] == b[j];
            assert(file_name(a[i].path) == Some(name));
        }
    }
    assert forall|name: Seq<u8>| ta.contains_key(name) implies ta[name] == tb[name] by {
        lemma_table_of_keys(a, name);
        lemma_table_of_keys(b, name);
        let i = choose|i: int| #[trigger] is_last_named(a, name, i) && ta[name] == a[i].range;
        let j = choose|j: int| #[trigger] is_last_named(b, name, j) && tb[name] == b[j].range;
        assert(a.contains(b[j]));
        let k = choose|k: int| 0 <= k < a.len() && a[k] == b[j];
        assert(file_name(a[i].path) == Some(name));
        assert(file_name(a[k].path) == Some(name));
        assert(a[i].range == a[k].range);
    }
    assert(ta =~= tb);
}

/// Whether a table is what some enumeration gives: at every instant a table
/// reflects one snapshot of the loader, though not always the latest.
pub open spec fn reflects_enumeration(table: Map<Seq<u8>, ByteRange>) -> bool {
    exists|records: Seq<RecordView>| table == table_of(records)
}

/// The enumeration that lists the lines of a table: one record for each
/// line, with the name of the line as its path.
pub open spec fn records_of(lines: Seq<(Seq<u8>, ByteRange)>) -> Seq<RecordView> {
    lines.map_values(|line: (Seq<u8>, ByteRange)| RecordView { path: line.0, range: line.1 })
}

/// A table whose lines carry file names, each name once, is the table of the
/// enumeration that lists its lines.
pub proof fn lemma_lines_reflect(lines: Seq<(Seq<u8>, ByteRange)>, table: Map<Seq<u8>, ByteRange>)
    requires
        forall|i: int| 0 <= i < lines.len() ==> is_plain_name((#[trigger] lines[i]).0),
        forall|i: int, j: int|
            0 <= i < lines.len() && 0 <= j < lines.len() && i != j ==> (#[trigger] lines[i]).0 != (
            #[trigger] lines[j]).0,
        forall|name: Seq<u8>|
            table.contains_key(name) <==> exists|i: int|
                0 <= i < lines.len() && (#[trigger] lines[i]).0 == name,
        forall|i: int| 0 <= i < lines.len() ==> table[(#[trigger] lines[i]).0] == lines[i].1,
    ensures
        table == table_of(records_of(lines)),
        reflects_enumeration(table),
{
    let records = records_of(lines);
    assert forall|i: int| 0 <= i < lines.len() implies file_name(#[trigger] records[i].path)
        == Some(lines[i].0) && records[i].range == lines[i].1 by {
        assert(is_plain_name(lines[i].0));
        lemma_file_name_of_plain(lines[i].0);
    }
    assert forall|name: Seq<u8>| table.contains_key(name) == table_of(records).contains_key(
        name,
    ) by {
        lemma_table_of_keys(records, name);
        if table.contains_key(name) {
            let i = choose|i: int| 0 <= i < lines.len() && (#[trigger] lines[i]).0 == name;
            assert(file_name(records[i].path) == Some(name));
        }
        if is_named(records, name) {
            let i = choose|i: int|
                0 <= i < records.len() && file_name(#[trigger] records[i].path) == Some(name);
            assert(lines[i].0 == name);
        }
    }
    assert forall|name: Seq<u8>| table.contains_key(name) implies table[name] == table_of(
        records,
    )[name] by {
        lemma_table_of_keys(records, name);
        let i = choose|i: int| #[trigger]
            is_last_named(records, name, i) && table_of(records)[name] == records[i].range;
        assert(file_name(records[i].path) == Some(name));
        assert(lines[i].0 == name);
    }
    assert(table =~= table_of(records));
}

/// One line of the table.
struct Entry {
    name: Vec<u8>,
    range: ByteRange,
}

/// The table of mapped libraries, by name.
///
/// Every name in it is a file name, and no name stands in it twice: the
/// table is always one that some enumeration gives.
pub struct Modules {
    entries: Vec<Entry>,
}

/// Whether `a` and `b` hold the same bytes.
fn same_bytes(a: &[u8], b: &[u8]) -> (same: bool)
    ensures
        same == (a@ == b@),
{
    let n: usize = a.len();
    if b.len() != n {
        return false;
    }
    let mut i: usize = 0;
    while i < n
        invariant
            n == a@.len(),
            n == b@.len(),
            i <= n,
            forall|k: int| 0 <= k < i ==> a@[k] == b@[k],
        decreases n - i,
    {
        if a[i] != b[i] {
            return false;
        }
        i = i + 1;
    }
    assert(a@ =~= b@);
    true
}

impl Modules {
    /// Every line carries a file name, and no two lines carry the same.
    #[verifier::type_invariant]
    spec fn distinct(self) -> bool {
        &&& forall|i: int|
            0 <= i < self.entries.len() ==> is_plain_name(#[trigger] self.entries[i].name@)
        &&& forall|i: int, j: int|
            0 <= i < self.entries.len() && 0 <= j < self.entries.len() && i != j
                ==> self.entries[i].name@ != self.entries[j].name@
    }

    /// A table that keeps to its invariant is one that some enumeration
    /// gives: the enumeration that lists its lines.
    proof fn lemma_reflects(self)
        requires
            self.distinct(),
        ensures
            self@ == table_of(records_of(self.lines())),
            reflects_enumeration(self@),
            forall|name: Seq<u8>| self@.contains_key(name) ==> is_plain_name(name),
    {
        let lines = self.lines();
        assert forall|name: Seq<u8>| self@.contains_key(name) implies (exists|i: int|
            0 <= i < lines.len() && (#[trigger] lines[i]).0 == name) && is_plain_name(name) by {
            let k = choose|k: int| self.named_at(name, k);
            assert(lines[k].0 == name);
            assert(is_plain_name(self.entries[k].name@));
        }
        assert forall|name: Seq<u8>|
            (exists|i: int| 0 <= i < lines.len() && (#[trigger] lines[i]).0 == name)
                implies self@.contains_key(name) by {
            let i = choose|i: int| 0 <= i < lines.len() && (#[trigger] lines[i]).0 == name;
            assert(self.named_at(name, i));
        }
        assert forall|i: int| 0 <= i < lines.len() implies self@[(#[trigger] lines[i]).0]
            == lines[i].1 by {
            let name = self.entries[i].name@;
            assert(self.named_at(name, i));
            let k = choose|k: int| self.named_at(name, k);
            assert(k == i);
        }
        assert forall|i: int| 0 <= i < lines.len() implies is_plain_name(
            (#[trigger] lines[i]).0,
        ) by {
            assert(is_plain_name(self.entries[i].name@));
        }
        lemma_lines_reflect(lines, self@);
    }

    /// Whether the line at `i` carries `name`.
    spec fn named_at(self, name: Seq<u8>, i: int) -> bool {
        0 <= i < self.entries.len() && self.entries[i].name@ == name
    }

    /// The lines of the table in the order in which `iter` hands them out.
    pub closed spec fn lines(self) -> Seq<(Seq<u8>, ByteRange)> {
        Seq::new(self.entries.len() as nat, |i: int| (self.entries[i].name@, self.entries[i].range))
    }
}

impl View for Modules {
    type V = Map<Seq<u8>, ByteRange>;

    /// The table as a map from each name to its range.
    closed spec fn view(&self) -> Map<Seq<u8>, ByteRange> {
        Map::new(
            |name: Seq<u8>| exists|i: int| self.named_at(name, i),
            |name: Seq<u8>| self.entries[choose|i: int| self.named_at(name, i)].range,
        )
    }
}

impl Modules {
    /// A table without lines.
    pub fn new() -> (table: Modules)
        ensures
            table@ == Map::<Seq<u8>, ByteRange>::empty(),
    {
        let table = Modules { entries: Vec::new() };
        assert(table@ =~= Map::<Seq<u8>, ByteRange>::empty());
        table
    }

    /// Where the line of `name` stands, if there is one.
    fn find(&self, name: &[u8]) -> (r: Option<usize>)
        ensures
            match r {
                Some(i) => self.named_at(name@, i as int),
                None => forall|i: int| !self.named_at(name@, i),
            },
    {
        let n: usize = self.entries.len();
        let mut i: usize = 0;
        while i < n
            invariant
                n == self.entries.len(),
                i <= n,
                forall|k: int| 0 <= k < i ==> self.entries[k].name@ != name@,
            decreases n - i,
        {
            if same_bytes(self.entries[i].name.as_slice(), name) {
                return Some(i);
            }
            i = i + 1;
        }
        None
    }

    /// The range cached for `name`, or the empty range where the table holds
    /// none. Absence is an answer, not an error.
    pub fn get(&self, name: &[u8]) -> (range: ByteRange)
        ensures
            range == spec_lookup(self@, name@),
            !self@.contains_key(name@) ==> range.spec_is_empty(),
            reflects_enumeration(self@),
            !is_plain_name(name@) ==> range == ByteRange::spec_empty(),
    {
        proof {
            use_type_invariant(self);
            self.lemma_reflects();
        }
        match self.find(name) {
            Some(i) => {
                proof {
                    let k = choose|k: int| self.named_at(name@, k);
                    assert(self.named_at(name@, i as int));
                    assert(k == i);
                }
                self.entries[i].range
            },
            None => ByteRange::empty(),
        }
    }

    /// Enters `range` under `name`, in place of what stood there, and says
    /// whether it did: a name that is no file name is not entered, and the
    /// table stays as it was.
    pub fn insert(&mut self, name: Vec<u8>, range: ByteRange) -> (entered: bool)
        ensures
            entered == is_plain_name(name@),
            entered ==> final(self)@ == old(self)@.insert(name@, range),
            !entered ==> final(self)@ == old(self)@,
    {
        proof {
            use_type_invariant(&*self);
        }
        if !is_name(name.as_slice()) {
            return false;
        }
        let ghost before = *self;
        let ghost key = name@;
        let found = self.find(name.as_slice());
        let mut entries: Vec<Entry> = Vec::new();
        std::mem::swap(&mut self.entries, &mut entries);
        let ghost at: int = match found {
            Some(i) => i as int,
            None => before.entries.len() as int,
        };
        match found {
            Some(i) => {
                entries.set(i, Entry { name, range });
            },
            None => {
                entries.push(Entry { name, range });
            },
        }
        proof {
            assert(entries[at].name@ == key && entries[at].range == range);
            assert forall|k: int| 0 <= k < entries.len() && k != at implies entries[k]
                == before.entries[k] && entries[k].name@ != key by {
                assert(!before.named_at(key, k) || k == at);
            }
            assert forall|i: int, j: int|
                0 <= i < entries.len() && 0 <= j < entries.len() && i != j implies entries[i].name@
                != entries[j].name@ by {
                if i != at && j != at {
                    assert(before.entries[i].name@ != before.entries[j].name@);
                }
            }
            assert forall|i: int| 0 <= i < entries.len() implies is_plain_name(
                #[trigger] entries[i].name@,
            ) by {
                if i != at {
                    assert(is_plain_name(before.entries[i].name@));
                }
            }
        }
        std::mem::swap(&mut self.entries, &mut entries);
        proof {
            let after = *self;
            assert forall|other: Seq<u8>|
                after@.contains_key(other) == before@.insert(key, range).contains_key(other) by {
                if other == key {
                    assert(after.named_at(other, at));
                } else {
                    if before@.contains_key(other) {
                        let k = choose|k: int| before.named_at(other, k);
                        assert(after.named_at(other, k));
                    }
                    if after@.contains_key(other) {
                        let k = choose|k: int| after.named_at(other, k);
                        assert(before.named_at(other, k));
                    }
                }
            }
            assert forall|other: Seq<u8>| after@.contains_key(other) implies after@[other]
                == before@.insert(key, range)[other] by {
                let k = choose|k: int| after.named_at(other, k);
                if other == key {
                    assert(after.named_at(other, at));
                    assert(k == at);
                } else {
                    assert(before.named_at(other, k));
                    let kb = choose|kb: int| before.named_at(other, kb);
                    assert(kb == k);
                }
            }
            assert(after@ =~= before@.insert(key, range));
        }
        true
    }

    /// Takes every line out.
    pub fn clear(&mut self)
        ensures
            final(self)@ == Map::<Seq<u8>, ByteRange>::empty(),
    {
        let mut entries: Vec<Entry> = Vec::new();
        std::mem::swap(&mut self.entries, &mut entries);
        assert(self@ =~= Map::<Seq<u8>, ByteRange>::empty());
    }

    /// Enters each record of `records` under the file name of its path, in
    /// order, on top of what the table holds.
    fn enter(&mut self, records: &Vec<LibraryRecord>)
        requires
            old(self)@ == Map::<Seq<u8>, ByteRange>::empty(),
        ensures
            final(self)@ == table_of(records_view(records@)),
    {
        let ghost all = records_view(records@);
        let n: usize = records.len();
        let mut i: usize = 0;
        assert(all.subrange(0, 0) =~= Seq::<RecordView>::empty());
        while i < n
            invariant
                n == records.len(),
                i <= n,
                all == records_view(records@),
                self@ == table_of(all.subrange(0, i as int)),
            decreases n - i,
        {
            let record = &records[i];
            proof {
                let next = all.subrange(0, i + 1);
                assert(next.drop_last() =~= all.subrange(0, i as int));
                assert(next.last() == record@);
            }
            match name_of(record.path.as_slice()) {
                Some(name) => {
                    let entered = self.insert(name, record.range);
                    assert(entered);
                },
                None => {},
            }
            i = i + 1;
        }
        assert(all.subrange(0, n as int) =~= all);
    }

    /// The table that the enumeration `records` gives.
    pub fn load(records: &Vec<LibraryRecord>) -> (table: Modules)
        ensures
            table@ == table_of(records_view(records@)),
    {
        let mut table = Modules::new();
        table.enter(records);
        table
    }

    /// Replaces the whole table by the one that the enumeration `records`
    /// gives. Nothing of the old table is kept; an enumeration without
    /// records leaves the table empty.
    pub fn update(&mut self, records: &Vec<LibraryRecord>)
        ensures
            final(self)@ == spec_refresh(old(self)@, records_view(records@)),
            final(self)@ == table_of(records_view(records@)),
    {
        self.clear();
        self.enter(records);
    }

    /// A walk over the lines of the table. It hands out each line once: every
    /// line is a pair of the table, every key of the table has its line, and
    /// no name comes twice. The order is not to be relied on.
    pub fn iter(&self) -> (iter: Iter<'_>)
        ensures
            iter@ == self.lines(),
            forall|i: int|
                0 <= i < self.lines().len() ==> self@.contains_pair(
                    (#[trigger] self.lines()[i]).0,
                    self.lines()[i].1,
                ),
            forall|name: Seq<u8>|
                self@.contains_key(name) ==> exists|i: int|
                    0 <= i < self.lines().len() && (#[trigger] self.lines()[i]).0 == name,
            forall|i: int, j: int|
                0 <= i < self.lines().len() && 0 <= j < self.lines().len() && i != j ==> (
                #[trigger] self.lines()[i]).0 != (#[trigger] self.lines()[j]).0,
    {
        proof {
            use_type_invariant(self);
            assert forall|i: int| 0 <= i < self.lines().len() implies self@.contains_pair(
                (#[trigger] self.lines()[i]).0,
                self.lines()[i].1,
            ) by {
                let name = self.entries[i].name@;
                assert(self.named_at(name, i));
                let k = choose|k: int| self.named_at(name, k);
                assert(k == i);
            }
            assert forall|name: Seq<u8>| self@.contains_key(name) implies exists|i: int|
                0 <= i < self.lines().len() && (#[trigger] self.lines()[i]).0 == name by {
                let k = choose|k: int| self.named_at(name, k);
                assert(self.lines()[k].0 == name);
            }
        }
        Iter::new(self)
    }

    /// The table of the process, made on first use: where there is one
    /// already, it is returned as it is and `records` is not looked at; where
    /// there is none, the first table is made of the enumeration `records`.
    /// Whoever needs the table fresh asks for `update` apart.
    pub fn force(current: Option<Modules>, records: &Vec<LibraryRecord>) -> (table: Modules)
        ensures
            current matches Some(there) ==> table@ == there@,
            current is None ==> table@ == table_of(records_view(records@)),
    {
        match current {
            Some(table) => table,
            None => Modules::load(records),
        }
    }
}

} // verus!
