//! Address bookmarks with notes, kept in address order.
use vstd::prelude::*;

verus! {

/// Relies on `SystemTime::elapsed` of the Unix epoch: whole seconds since then, or 0
/// for a clock set before it. Nothing is known of the value.
#[verifier::external_body]
fn unix_seconds() -> u64 {
    std::time::UNIX_EPOCH.elapsed().map_or(0, |d| d.as_secs())
}

/// Mathematical value of a bookmark.
pub struct BookmarkView {
    pub address: u32,
    pub note: Seq<char>,
    pub created_at: u64,
}

/// A note attached to an address, with its creation time in Unix seconds.
#[derive(Debug, Clone, PartialEq, Eq)]
pub struct Bookmark {
    pub address: u32,
    pub note: String,
    pub created_at: u64,
}

impl View for Bookmark {
    type V = BookmarkView;

    open spec fn view(&self) -> BookmarkView {
        BookmarkView { address: self.address, note: self.note@, created_at: self.created_at }
    }
}

impl Bookmark {
    /// A bookmark created at the given time.
    pub fn new(address: u32, note: &str, created_at: u64) -> (r: Self)
        ensures
            r@ == (BookmarkView { address, note: note@, created_at }),
    {
        Bookmark { address, note: note.to_owned(), created_at }
    }
}

/// Addresses strictly increase along `s`.
pub open spec fn strictly_sorted(s: Seq<BookmarkView>) -> bool {
    forall|i: int, j: int| 0 <= i < j < s.len() ==> (#[trigger] s[i]).address < (#[trigger] s[j]).address
}

/// Index of the bookmark at `address` in `s`.
pub open spec fn index_of(s: Seq<BookmarkView>, address: u32, i: int) -> bool {
    0 <= i < s.len() && s[i].address == address
}

pub open spec fn has_address(s: Seq<BookmarkView>, address: u32) -> bool {
    exists|i: int| index_of(s, address, i)
}

/// The bookmarks, one per address.
#[derive(Debug, Clone, Default)]
pub struct BookmarkManager {
    bookmarks: Vec<Bookmark>,
}

impl BookmarkManager {
    /// The bookmarks in address order.
    pub closed spec fn entries(&self) -> Seq<BookmarkView> {
        self.bookmarks@.map_values(|b: Bookmark| b@)
    }

    pub open spec fn wf(&self) -> bool {
        strictly_sorted(self.entries())
    }

    pub fn new() -> (r: Self)
        ensures
            r.wf(),
            r.entries() == Seq::<BookmarkView>::empty(),
    {
        let r = BookmarkManager { bookmarks: Vec::new() };
        assert(r.entries() =~= Seq::<BookmarkView>::empty());
        r
    }

    /// Position of the first bookmark at or after `address`.
    fn lower_bound(&self, address: u32) -> (i: usize)
        requires
            self.wf(),
        ensures
            i <= self.entries().len(),
            forall|k: int| 0 <= k < i ==> (#[trigger] self.entries()[k]).address < address,
            forall|k: int| i <= k < self.entries().len() ==> (#[trigger] self.entries()[k]).address >= address,
    {
        let mut i: usize = 0;
        while i < self.bookmarks.len() && self.bookmarks[i].address < address
            invariant
                self.wf(),
                i <= self.entries().len(),
                self.entries().len() == self.bookmarks@.len(),
                forall|k: int| 0 <= k < i ==> (#[trigger] self.entries()[k]).address < address,
            decreases self.bookmarks@.len() - i,
        {
            i += 1;
        }
        proof {
            if i < self.entries().len() {
                assert forall|k: int| i <= k < self.entries().len() implies (#[trigger] self.entries()[k]).address >= address by {
                    if k > i { assert(self.entries()[i as int].address < self.entries()[k].address); }
                }
            }
        }
        i
    }

    fn address_at(&self, i: usize) -> (r: u32)
        requires
            i < self.entries().len(),
        ensures
            r == self.entries()[i as int].address,
    {
        self.bookmarks[i].address
    }

    /// Position of the bookmark at `address`.
    fn find(&self, address: u32) -> (r: Option<usize>)
        requires
            self.wf(),
        ensures
            r matches Some(i) ==> index_of(self.entries(), address, i as int),
            r is None <==> !has_address(self.entries(), address),
    {
        let i = self.lower_bound(address);
        assert(self.entries().len() == self.bookmarks@.len());
        if i < self.bookmarks.len() && self.address_at(i) == address {
            assert(index_of(self.entries(), address, i as int));
            Some(i)
        } else {
            proof {
                if has_address(self.entries(), address) {
                    let k = choose|k: int| index_of(self.entries(), address, k);
                    if k > i { assert(self.entries()[i as int].address < self.entries()[k].address); }
                }
            }
            None
        }
    }

    /// Adds a bookmark stamped with the current time; an existing bookmark at
    /// `address` is replaced. True when there was none.
    pub fn add(&mut self, address: u32, note: &str) -> (r: bool)
        requires
            old(self).wf(),
        ensures
            final(self).wf(),
            r == !has_address(old(self).entries(), address),
            exists|i: int| index_of(final(self).entries(), address, i) && (#[trigger] final(self).entries()[i]).note == note@,
            r ==> exists|i: int| final(self).entries() == old(self).entries().insert(i, #[trigger] final(self).entries()[i]),
            !r ==> exists|i: int| index_of(old(self).entries(), address, i)
                && final(self).entries() == old(self).entries().update(i, #[trigger] final(self).entries()[i]),
    {
        let now = unix_seconds();
        self.add_at(address, note, now)
    }

    /// Adds (or replaces) the bookmark at `address`, created at `created_at`.
    pub fn add_at(&mut self, address: u32, note: &str, created_at: u64) -> (r: bool)
        requires
            old(self).wf(),
        ensures
            final(self).wf(),
            r == !has_address(old(self).entries(), address),
            ({
                let b = BookmarkView { address, note: note@, created_at };
                &&& r ==> exists|i: int| index_of(final(self).entries(), address, i)
                    && final(self).entries() == old(self).entries().insert(i, b)
                &&& !r ==> exists|i: int| index_of(old(self).entries(), address, i)
                    && final(self).entries() == old(self).entries().update(i, b)
            }),
            exists|i: int| index_of(final(self).entries(), address, i) && (#[trigger] final(self).entries()[i]).note == note@,
    {
        let i = self.lower_bound(address);
        let found = self.find(address);
        let b = Bookmark::new(address, note, created_at);
        let ghost old_entries = self.entries();
        if let Some(i) = found {
            self.bookmarks.set(i, b);
            proof {
                assert(self.entries() =~= old_entries.update(i as int, b@));
                assert(index_of(self.entries(), address, i as int));
                assert forall|x: int, y: int| 0 <= x < y < self.entries().len() implies
                    (#[trigger] self.entries()[x]).address < (#[trigger] self.entries()[y]).address by {
                    assert(old_entries[x].address < old_entries[y].address);
                }
            }
            false
        } else {
            self.bookmarks.insert(i, b);
            proof {
                assert(self.entries() =~= old_entries.insert(i as int, b@));
                assert(index_of(self.entries(), address, i as int));
                assert forall|x: int, y: int| 0 <= x < y < self.entries().len() implies
                    (#[trigger] self.entries()[x]).address < (#[trigger] self.entries()[y]).address by {
                    if y < i { assert(old_entries[x].address < old_entries[y].address); }
                    else if x > i { assert(old_entries[x - 1].address < old_entries[y - 1].address); }
                    else if x < i && y > i { assert(old_entries[x].address < address); }
                    else if x == i && y > i { assert(old_entries[y - 1].address > address) by {
                        assert(old_entries[y - 1].address >= address);
                        assert(!index_of(old_entries, address, y - 1));
                    } }
                    else if y == i && x < i { assert(old_entries[x].address < address); }
                }
            }
            true
        }
    }

    /// Removes the bookmark at `address`; true when there was one.
    pub fn remove(&mut self, address: u32) -> (r: bool)
        requires
            old(self).wf(),
        ensures
            final(self).wf(),
            r == has_address(old(self).entries(), address),
            r ==> exists|i: int| index_of(old(self).entries(), address, i) && final(self).entries() == old(self).entries().remove(i),
            !r ==> final(self).entries() == old(self).entries(),
            !has_address(final(self).entries(), address),
    {
        let ghost old_entries = self.entries();
        if let Some(i) = self.find(address) {
            self.bookmarks.remove(i);
            proof {
                assert(self.entries() =~= old_entries.remove(i as int));
                assert(index_of(old_entries, address, i as int));
                assert forall|k: int| 0 <= k < self.entries().len() implies self.entries()[k].address != address by {
                    if k < i { assert(old_entries[k].address < old_entries[i as int].address); }
                    else { assert(old_entries[i as int].address < old_entries[k + 1].address); }
                }
                assert forall|x: int, y: int| 0 <= x < y < self.entries().len() implies
                    (#[trigger] self.entries()[x]).address < (#[trigger] self.entries()[y]).address by {
                    if y < i { assert(old_entries[x].address < old_entries[y].address); }
                    else if x >= i { assert(old_entries[x + 1].address < old_entries[y + 1].address); }
                    else { assert(old_entries[x].address < old_entries[y + 1].address); }
                }
            }
            true
        } else {
            false
        }
    }

    pub fn has_bookmark(&self, address: u32) -> (r: bool)
        requires
            self.wf(),
        ensures
            r == has_address(self.entries(), address),
    {
        self.find(address).is_some()
    }

    /// The bookmark at `address`.
    pub fn get(&self, address: u32) -> (r: Option<&Bookmark>)
        requires
            self.wf(),
        ensures
            r is Some == has_address(self.entries(), address),
            r matches Some(b) ==> b@.address == address && exists|i: int| #[trigger] self.entries()[i] == b@ && index_of(self.entries(), address, i),
    {
        match self.find(address) {
            Some(i) => {
                assert(self.entries()[i as int] == self.bookmarks@[i as int]@);
                Some(&self.bookmarks[i])
            },
            None => None,
        }
    }

    /// The bookmark at `address`, for changing it in place. Changing its address
    /// can break the address order that the other methods rely on.
    pub fn get_mut(&mut self, address: u32) -> (r: Option<&mut Bookmark>)
        requires
            old(self).wf(),
        ensures
            r is Some == has_address(old(self).entries(), address),
            r is None ==> final(self).entries() == old(self).entries(),
            r matches Some(b) ==> b@.address == address && exists|i: int| index_of(old(self).entries(), address, i)
                && #[trigger] final(self).entries() == old(self).entries().update(i, final(b)@),
    {
        match self.find(address) {
            Some(i) => {
                assert(self.entries()[i as int] == self.bookmarks@[i as int]@);
                Some(&mut self.bookmarks[i])
            },
            None => None,
        }
    }

    /// Replaces the note of the bookmark at `address`; false when there is none.
    pub fn update_note(&mut self, address: u32, note: &str) -> (r: bool)
        requires
            old(self).wf(),
        ensures
            final(self).wf(),
            r == has_address(old(self).entries(), address),
            r ==> exists|i: int| index_of(old(self).entries(), address, i) && final(self).entries()
                == old(self).entries().update(i, BookmarkView { note: note@, ..old(self).entries()[i] }),
            !r ==> final(self).entries() == old(self).entries(),
    {
        if let Some(i) = self.find(address) {
            let created_at = self.bookmarks[i].created_at;
            assert(self.entries()[i as int] == self.bookmarks@[i as int]@);
            let ghost old_entries = self.entries();
            self.bookmarks.set(i, Bookmark::new(address, note, created_at));
            proof {
                assert(self.entries() =~= old_entries.update(i as int, BookmarkView { note: note@, ..old_entries[i as int] }));
                assert forall|x: int, y: int| 0 <= x < y < self.entries().len() implies
                    (#[trigger] self.entries()[x]).address < (#[trigger] self.entries()[y]).address by {
                    assert(old_entries[x].address < old_entries[y].address);
                }
            }
            true
        } else {
            false
        }
    }

    /// All bookmarks in address order.
    pub fn list(&self) -> (r: Vec<&Bookmark>)
        ensures
            r@.len() == self.entries().len(),
            forall|k: int| 0 <= k < r@.len() ==> (#[trigger] r@[k])@ == self.entries()[k],
    {
        let mut r: Vec<&Bookmark> = Vec::new();
        let mut i: usize = 0;
        while i < self.bookmarks.len()
            invariant
                i <= self.bookmarks@.len(),
                r@.len() == i,
                forall|k: int| 0 <= k < i ==> (#[trigger] r@[k])@ == self.entries()[k],
                self.entries().len() == self.bookmarks@.len(),
            decreases self.bookmarks@.len() - i,
        {
            assert(self.entries()[i as int] == self.bookmarks@[i as int]@);
            r.push(&self.bookmarks[i]);
            i += 1;
        }
        r
    }

    /// All bookmarked addresses, ascending.
    pub fn addresses(&self) -> (r: Vec<u32>)
        ensures
            r@ == self.entries().map_values(|b: BookmarkView| b.address),
    {
        let mut r: Vec<u32> = Vec::new();
        let mut i: usize = 0;
        while i < self.bookmarks.len()
            invariant
                i <= self.bookmarks@.len(),
                r@ == self.entries().subrange(0, i as int).map_values(|b: BookmarkView| b.address),
                self.entries().len() == self.bookmarks@.len(),
            decreases self.bookmarks@.len() - i,
        {
            assert(self.entries()[i as int] == self.bookmarks@[i as int]@);
            r.push(self.bookmarks[i].address);
            i += 1;
            assert(r@ =~= self.entries().subrange(0, i as int).map_values(|b: BookmarkView| b.address));
        }
        assert(self.entries().subrange(0, i as int) =~= self.entries());
        r
    }

    pub fn count(&self) -> (r: usize)
        ensures
            r == self.entries().len(),
    {
        self.bookmarks.len()
    }

    pub fn clear(&mut self)
        ensures
            final(self).wf(),
            final(self).entries() == Seq::<BookmarkView>::empty(),
    {
        self.bookmarks.clear();
        assert(self.entries() =~= Seq::<BookmarkView>::empty());
    }

    /// The smallest bookmarked address above `address`.
    pub fn next_after(&self, address: u32) -> (r: Option<u32>)
        requires
            self.wf(),
        ensures
            r is None <==> forall|k: int| 0 <= k < self.entries().len() ==> (#[trigger] self.entries()[k]).address <= address,
            r matches Some(x) ==> x > address && has_address(self.entries(), x)
                && forall|k: int| 0 <= k < self.entries().len() && (#[trigger] self.entries()[k]).address > address ==> self.entries()[k].address >= x,
    {
        if address == u32::MAX {
            return None;
        }
        let i = self.lower_bound(address + 1);
        if i < self.bookmarks.len() {
            let x = self.address_at(i);
            assert(index_of(self.entries(), x, i as int));
            Some(x)
        } else {
            None
        }
    }

    /// The largest bookmarked address below `address`.
    pub fn prev_before(&self, address: u32) -> (r: Option<u32>)
        requires
            self.wf(),
        ensures
            r is None <==> forall|k: int| 0 <= k < self.entries().len() ==> (#[trigger] self.entries()[k]).address >= address,
            r matches Some(x) ==> x < address && has_address(self.entries(), x)
                && forall|k: int| 0 <= k < self.entries().len() && (#[trigger] self.entries()[k]).address < address ==> self.entries()[k].address <= x,
    {
        let i = self.lower_bound(address);
        if i > 0 {
            let x = self.address_at(i - 1);
            assert(index_of(self.entries(), x, i - 1));
            proof {
                assert forall|k: int| 0 <= k < self.entries().len() && (#[trigger] self.entries()[k]).address < address implies self.entries()[k].address <= x by {
                    if k > i - 1 { assert(self.entries()[k].address >= address); }
                    if k < i - 1 { assert(self.entries()[k].address < self.entries()[i - 1].address); }
                }
            }
            Some(x)
        } else {
            None
        }
    }

    /// Removes the bookmark at `address` if there is one, else adds one with
    /// `default_note`; true when it added.
    pub fn toggle(&mut self, address: u32, default_note: &str) -> (r: bool)
        requires
            old(self).wf(),
        ensures
            final(self).wf(),
            r == !has_address(old(self).entries(), address),
            r == has_address(final(self).entries(), address),
    {
        if self.has_bookmark(address) {
            self.remove(address);
            false
        } else {
            self.add(address, default_note);
            true
        }
    }
}

} // verus!
