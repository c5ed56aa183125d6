//! The store of converted files: every file under an identifier of its own.
//! Files are added and looked up one by one, and leave all at once.

use crate::text::{push_char, same_text};
use vstd::prelude::*;

verus! {

/// One stored file, as a model: its identifier and its bytes.
pub struct Entry {
    pub id: Seq<char>,
    pub content: Seq<u8>,
}

/// Whether `entries` holds a file under `id`.
pub open spec fn holds(entries: Seq<Entry>, id: Seq<char>) -> bool {
    exists|i: int| 0 <= i < entries.len() && (#[trigger] entries[i]).id == id
}

/// The file that `entries` holds under `id`.
pub open spec fn lookup(entries: Seq<Entry>, id: Seq<char>) -> Option<Seq<u8>> {
    if holds(entries, id) {
        let i = choose|i: int| 0 <= i < entries.len() && (#[trigger] entries[i]).id == id;
        Some(entries[i].content)
    } else {
        None
    }
}

/// No identifier is used twice.
pub open spec fn distinct(entries: Seq<Entry>) -> bool {
    forall|i: int, j: int|
        0 <= i < j < entries.len() ==> (#[trigger] entries[i]).id != (#[trigger] entries[j]).id
}

/// The number of bytes of all files together.
pub open spec fn total_bytes(entries: Seq<Entry>) -> nat
    decreases entries.len(),
{
    if entries.len() == 0 {
        0
    } else {
        total_bytes(entries.drop_last()) + entries.last().content.len()
    }
}

/// The length of the longest identifier in `entries`.
pub open spec fn longest_id(entries: Seq<Entry>) -> nat
    decreases entries.len(),
{
    if entries.len() == 0 {
        0
    } else if entries.last().id.len() > longest_id(entries.drop_last()) {
        entries.last().id.len()
    } else {
        longest_id(entries.drop_last())
    }
}

/// `count` dashes.
pub open spec fn dashes(count: nat) -> Seq<char> {
    Seq::new(count, |i: int| '-')
}

/// An identifier that is not in use in `entries`, made of `proposed`: the
/// proposed identifier itself, where it is not empty and not in use; else
/// the proposed identifier with dashes behind it, one more than the longest
/// identifier in use is long.
pub open spec fn unused_id(entries: Seq<Entry>, proposed: Seq<char>) -> Seq<char> {
    if proposed.len() > 0 && !holds(entries, proposed) {
        proposed
    } else {
        proposed + dashes(longest_id(entries) + 1)
    }
}

/// No identifier in use is longer than the longest.
pub proof fn lemma_longest_id(entries: Seq<Entry>, i: int)
    requires
        0 <= i < entries.len(),
    ensures
        entries[i].id.len() <= longest_id(entries),
    decreases entries.len(),
{
    if i < entries.len() - 1 {
        lemma_longest_id(entries.drop_last(), i);
    }
}

/// The identifier that is made of a proposed one is not empty and not in
/// use.
pub proof fn lemma_unused_id(entries: Seq<Entry>, proposed: Seq<char>)
    ensures
        unused_id(entries, proposed).len() > 0,
        !holds(entries, unused_id(entries, proposed)),
{
    let id = unused_id(entries, proposed);
    if holds(entries, id) {
        let i = choose|i: int| 0 <= i < entries.len() && (#[trigger] entries[i]).id == id;
        lemma_longest_id(entries, i);
    }
}

/// Where identifiers are distinct, the file at a position is the file found
/// under its identifier.
pub proof fn lemma_lookup_at(entries: Seq<Entry>, i: int)
    requires
        distinct(entries),
        0 <= i < entries.len(),
    ensures
        lookup(entries, entries[i].id) == Some(entries[i].content),
{
    let id = entries[i].id;
    assert(holds(entries, id));
    let j = choose|j: int| 0 <= j < entries.len() && (#[trigger] entries[j]).id == id;
    assert(j == i);
}

/// A file that is added under a new identifier is found there, and every
/// file that was there is found as before.
pub proof fn lemma_lookup_push(entries: Seq<Entry>, entry: Entry, id: Seq<char>)
    requires
        distinct(entries),
        !holds(entries, entry.id),
    ensures
        distinct(entries.push(entry)),
        lookup(entries.push(entry), entry.id) == Some(entry.content),
        holds(entries, id) ==> lookup(entries.push(entry), id) == lookup(entries, id),
        holds(entries.push(entry), id) <==> (holds(entries, id) || id == entry.id),
{
    let grown = entries.push(entry);
    assert forall|i: int, j: int| 0 <= i < j < grown.len() implies (#[trigger] grown[i]).id != (
    #[trigger] grown[j]).id by {
        if j == entries.len() {
            assert(grown[i] == entries[i]);
        } else {
            assert(grown[i] == entries[i] && grown[j] == entries[j]);
        }
    }
    assert(grown[entries.len() as int] == entry);
    lemma_lookup_at(grown, entries.len() as int);
    if holds(entries, id) {
        let i = choose|i: int| 0 <= i < entries.len() && (#[trigger] entries[i]).id == id;
        assert(grown[i] == entries[i]);
        lemma_lookup_at(grown, i);
        lemma_lookup_at(entries, i);
    }
    if holds(grown, id) && id != entry.id {
        let i = choose|i: int| 0 <= i < grown.len() && (#[trigger] grown[i]).id == id;
        assert(grown[i] == entries[i]);
    }
}

/// A stored file.
#[derive(Debug, Clone)]
pub struct StoredFile {
    pub id: String,
    pub content: Vec<u8>,
}

impl View for StoredFile {
    type V = Entry;

    open spec fn view(&self) -> Entry {
        Entry { id: self.id@, content: self.content@ }
    }
}

/// The files that were converted and not yet cleared, in the order in which
/// they came.
#[derive(Debug)]
pub struct ArtifactStore {
    files: Vec<StoredFile>,
}

impl View for ArtifactStore {
    type V = Seq<Entry>;

    closed spec fn view(&self) -> Seq<Entry> {
        self.files@.map_values(|file: StoredFile| file@)
    }
}

impl ArtifactStore {
    /// No identifier is used twice.
    #[verifier::type_invariant]
    pub open spec fn identifiers_are_distinct(self) -> bool {
        distinct(self@)
    }

    /// An empty store.
    pub fn new() -> (store: Self)
        ensures
            store@ == Seq::<Entry>::empty(),
    {
        let store = ArtifactStore { files: Vec::new() };
        assert(store@ =~= Seq::<Entry>::empty());
        store
    }

    /// Where the file with the identifier `id` lies.
    fn position(&self, id: &str) -> (at: Option<usize>)
        ensures
            match at {
                Some(i) => i < self@.len() && self@[i as int].id == id@ && i < self.files@.len(),
                None => !holds(self@, id@),
            },
    {
        let mut i: usize = 0;
        while i < self.files.len()
            invariant
                i <= self.files@.len(),
                self@.len() == self.files@.len(),
                forall|j: int| 0 <= j < i ==> (#[trigger] self@[j]).id != id@,
            decreases self.files.len() - i,
        {
            assert(self@[i as int] == self.files@[i as int]@);
            if same_text(self.files[i].id.as_str(), id) {
                return Some(i);
            }
            i += 1;
        }
        None
    }

    /// Whether a file is stored under `id`.
    pub fn contains(&self, id: &str) -> (r: bool)
        ensures
            r == holds(self@, id@),
    {
        self.position(id).is_some()
    }

    /// The file stored under `id`.
    pub fn get(&self, id: &str) -> (r: Option<&Vec<u8>>)
        ensures
            match r {
                Some(content) => lookup(self@, id@) == Some(content@),
                None => lookup(self@, id@) is None,
            },
    {
        match self.position(id) {
            Some(i) => {
                proof {
                    use_type_invariant(self);
                    lemma_lookup_at(self@, i as int);
                    assert(self@[i as int] == self.files@[i as int]@);
                }
                Some(&self.files[i].content)
            },
            None => None,
        }
    }

    /// The length of the longest identifier in use.
    fn longest(&self) -> (n: usize)
        ensures
            n == longest_id(self@),
    {
        let mut n: usize = 0;
        let mut i: usize = 0;
        assert(self@.take(0) =~= Seq::<Entry>::empty());
        while i < self.files.len()
            invariant
                i <= self.files@.len(),
                self@.len() == self.files@.len(),
                n == longest_id(self@.take(i as int)),
            decreases self.files.len() - i,
        {
            proof {
                let next = self@.take(i + 1);
                assert(next.drop_last() =~= self@.take(i as int));
                assert(next.last() == self.files@[i as int]@);
            }
            let len = self.files[i].id.as_str().unicode_len();
            if len > n {
                n = len;
            }
            i += 1;
        }
        assert(self@.take(self@.len() as int) =~= self@);
        n
    }

    /// Makes an identifier that is not in use of `proposed`: `proposed`
    /// itself where it will do, else `proposed` with dashes behind it until
    /// it is longer than every identifier in use.
    pub fn unused_id(&self, proposed: String) -> (id: String)
        ensures
            id@ == unused_id(self@, proposed@),
            id@.len() > 0,
            !holds(self@, id@),
    {
        proof {
            lemma_unused_id(self@, proposed@);
        }
        if proposed.as_str().unicode_len() > 0 && !self.contains(proposed.as_str()) {
            return proposed;
        }
        let longest = self.longest();
        let mut id = proposed;
        let mut added: usize = 0;
        loop
            invariant_except_break
                added <= longest,
                id@ == proposed@ + dashes(added as nat),
            ensures
                id@ == proposed@ + dashes((longest + 1) as nat),
            decreases longest - added,
        {
            push_char(&mut id, '-');
            assert(id@ =~= proposed@ + dashes((added + 1) as nat));
            if added == longest {
                break ;
            }
            added += 1;
        }
        id
    }

    /// Stores `content` under `id`, unless a file is stored there already.
    /// Says whether the file was stored.
    pub fn insert(&mut self, id: String, content: Vec<u8>) -> (stored: bool)
        ensures
            stored == !holds(old(self)@, id@),
            stored ==> final(self)@ == old(self)@.push(Entry { id: id@, content: content@ }),
            !stored ==> final(self)@ == old(self)@,
    {
        if self.contains(id.as_str()) {
            return false;
        }
        proof {
            use_type_invariant(&*self);
            lemma_lookup_push(self@, Entry { id: id@, content: content@ }, id@);
        }
        let ghost before = self@;
        let ghost entry = Entry { id: id@, content: content@ };
        let mut files: Vec<StoredFile> = Vec::new();
        assert(files@.map_values(|file: StoredFile| file@) =~= Seq::<Entry>::empty());
        std::mem::swap(&mut self.files, &mut files);
        files.push(StoredFile { id, content });
        assert(files@.map_values(|file: StoredFile| file@) =~= before.push(entry));
        self.files = files;
        true
    }

    /// Removes every file.
    pub fn clear(&mut self)
        ensures
            final(self)@ == Seq::<Entry>::empty(),
    {
        let files: Vec<StoredFile> = Vec::new();
        assert(files@.map_values(|file: StoredFile| file@) =~= Seq::<Entry>::empty());
        self.files = files;
    }

    /// The number of files.
    pub fn len(&self) -> (n: usize)
        ensures
            n == self@.len(),
    {
        self.files.len()
    }

    /// The number of bytes of all files together, or `u64::MAX` where that
    /// number is larger.
    pub fn size(&self) -> (total: u64)
        ensures
            total == if total_bytes(self@) <= u64::MAX {
                total_bytes(self@)
            } else {
                u64::MAX as nat
            },
    {
        let mut total: u64 = 0;
        let mut i: usize = 0;
        assert(self@.take(0) =~= Seq::<Entry>::empty());
        while i < self.files.len()
            invariant
                i <= self.files@.len(),
                self@.len() == self.files@.len(),
                total == if total_bytes(self@.take(i as int)) <= u64::MAX {
                    total_bytes(self@.take(i as int))
                } else {
                    u64::MAX as nat
                },
            decreases self.files.len() - i,
        {
            proof {
                let next = self@.take(i + 1);
                assert(next.drop_last() =~= self@.take(i as int));
                assert(next.last() == self.files@[i as int]@);
            }
            let more: u64 = self.files[i].content.len() as u64;
            total = if more > u64::MAX - total {
                u64::MAX
            } else {
                total + more
            };
            i += 1;
        }
        assert(self@.take(self@.len() as int) =~= self@);
        total
    }
}

} // verus!
