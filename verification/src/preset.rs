//! Presets, and the library that holds them by name.

use vstd::prelude::*;
use vstd::string::*;
use crate::dsp::Band;
use crate::number::Single;
use crate::text::{
    name_before, names_are_comparable, names_strictly_ordered, place, same_text, texts, Place,
};

verus! {

/// A named tuning: the EQ bands plus the preamp make-up gain (dB).
#[derive(Debug)]
pub struct Preset {
    pub bands: Vec<Band>,
    pub preamp_db: Single,
}

/// What a [`Preset`] holds.
#[verifier::ext_equal]
pub ghost struct PresetView {
    pub bands: Seq<Band>,
    pub preamp_db: Single,
}

impl View for Preset {
    type V = PresetView;

    open spec fn view(&self) -> PresetView {
        PresetView { bands: self.bands@, preamp_db: self.preamp_db }
    }
}

impl Clone for Preset {
    fn clone(&self) -> (c: Preset)
        ensures
            c@ == self@,
    {
        Preset { bands: copy_bands(&self.bands), preamp_db: self.preamp_db }
    }
}

/// The same bands, in a vector of their own.
pub fn copy_bands(bands: &[Band]) -> (v: Vec<Band>)
    ensures
        v@ == bands@,
{
    let mut v: Vec<Band> = Vec::new();
    let mut i: usize = 0;
    while i < bands.len()
        invariant
            i <= bands.len(),
            v@ == bands@.take(i as int),
        decreases bands.len() - i,
    {
        v.push(bands[i]);
        i += 1;
        assert(bands@.take(i as int).drop_last() =~= bands@.take(i - 1));
        assert(v@ =~= bands@.take(i as int));
    }
    assert(bands@.take(bands.len() as int) =~= bands@);
    v
}

impl PresetView {
    /// Numeric equality of two presets, figure by figure.
    pub open spec fn equals(self, other: PresetView) -> bool {
        &&& self.preamp_db.equals(other.preamp_db)
        &&& self.bands.len() == other.bands.len()
        &&& forall|i: int|
            0 <= i < self.bands.len() ==> (#[trigger] self.bands[i]).equals(other.bands[i])
    }
}

impl Preset {
    /// Whether two presets are numerically equal.
    pub fn same(&self, other: &Preset) -> (r: bool)
        ensures
            r == self@.equals(other@),
    {
        if !self.preamp_db.same(other.preamp_db) || self.bands.len() != other.bands.len() {
            return false;
        }
        let mut i: usize = 0;
        while i < self.bands.len()
            invariant
                i <= self.bands.len(),
                self.bands.len() == other.bands.len(),
                forall|j: int|
                    0 <= j < i ==> (#[trigger] self@.bands[j]).equals(other@.bands[j]),
            decreases self.bands.len() - i,
        {
            if !self.bands[i].same(&other.bands[i]) {
                assert(!self@.bands[i as int].equals(other@.bands[i as int]));
                return false;
            }
            i += 1;
        }
        true
    }
}

// --- the library ---------------------------------------------------------------

/// The contents of a library of presets.
pub type Contents = Map<Seq<char>, PresetView>;

/// `s` holds the names in `m`, each once, in their order.
pub open spec fn is_listing(s: Seq<Seq<char>>, m: Contents) -> bool {
    &&& forall|i: int, j: int| 0 <= i < j < s.len() ==> name_before(#[trigger] s[i], #[trigger] s[j])
    &&& forall|n: Seq<char>| #[trigger] s.contains(n) <==> m.contains_key(n)
}

/// The names in `m`, in their order.
pub open spec fn listing(m: Contents) -> Seq<Seq<char>> {
    choose|s: Seq<Seq<char>>| is_listing(s, m)
}

/// The names of a library can be listed in one way only.
pub proof fn listing_is_unique(s: Seq<Seq<char>>, t: Seq<Seq<char>>, m: Contents)
    requires
        is_listing(s, m),
        is_listing(t, m),
    ensures
        s == t,
    decreases s.len(),
{
    if s.len() == 0 {
        if t.len() > 0 {
            assert(t.contains(t[0]));
            assert(s.contains(t[0]));
        }
        assert(s =~= t);
    } else {
        let x = s.last();
        assert(s.contains(x));
        assert(t.contains(x));
        let y = t.last();
        assert(t.contains(y));
        assert(s.contains(y));
        let i = choose|i: int| 0 <= i < s.len() && s[i] == y;
        let j = choose|j: int| 0 <= j < t.len() && t[j] == x;
        names_strictly_ordered(x, y, x);
        names_strictly_ordered(y, x, y);
        assert(x == y) by {
            if i < s.len() - 1 {
                assert(name_before(s[i], s[s.len() - 1]));
            }
            if j < t.len() - 1 {
                assert(name_before(t[j], t[t.len() - 1]));
            }
        }
        listing_shrinks(s, m);
        listing_shrinks(t, m);
        listing_is_unique(s.drop_last(), t.drop_last(), m.remove(x));
        assert(s =~= s.drop_last().push(x));
        assert(t =~= t.drop_last().push(x));
    }
}

proof fn listing_shrinks(s: Seq<Seq<char>>, m: Contents)
    requires
        is_listing(s, m),
        s.len() > 0,
    ensures
        is_listing(s.drop_last(), m.remove(s.last())),
{
    let x = s.last();
    let d = s.drop_last();
    assert forall|n: Seq<char>| #[trigger] d.contains(n) <==> m.remove(x).contains_key(n) by {
        if d.contains(n) {
            let i = choose|i: int| 0 <= i < d.len() && d[i] == n;
            assert(s[i] == n);
            assert(s.contains(n));
            assert(name_before(s[i], s[s.len() - 1]));
            names_strictly_ordered(n, x, n);
        }
        if m.remove(x).contains_key(n) {
            assert(s.contains(n));
            let i = choose|i: int| 0 <= i < s.len() && s[i] == n;
            assert(d[i] == n);
        }
    }
}

/// The place of `x` in a listing: the number of names before it.
spec fn rank_in(s: Seq<Seq<char>>, x: Seq<char>) -> int
    decreases s.len(),
{
    if s.len() == 0 || name_before(s.last(), x) {
        s.len() as int
    } else {
        rank_in(s.drop_last(), x)
    }
}

proof fn rank_splits(s: Seq<Seq<char>>, x: Seq<char>)
    requires
        forall|i: int, j: int|
            0 <= i < j < s.len() ==> name_before(#[trigger] s[i], #[trigger] s[j]),
        !s.contains(x),
    ensures
        0 <= rank_in(s, x) <= s.len(),
        forall|i: int| 0 <= i < rank_in(s, x) ==> name_before(#[trigger] s[i], x),
        forall|i: int| rank_in(s, x) <= i < s.len() ==> name_before(x, #[trigger] s[i]),
    decreases s.len(),
{
    if s.len() > 0 {
        if name_before(s.last(), x) {
            assert forall|i: int| 0 <= i < s.len() implies name_before(#[trigger] s[i], x) by {
                if i < s.len() - 1 {
                    names_strictly_ordered(s[i], s.last(), x);
                }
            }
        } else {
            let d = s.drop_last();
            if d.contains(x) {
                let i = choose|i: int| 0 <= i < d.len() && d[i] == x;
                assert(s[i] == x);
            }
            rank_splits(d, x);
            assert(s.contains(s.last()));
            names_are_comparable(s.last(), x);
            assert forall|i: int| 0 <= i < rank_in(s, x) implies name_before(
                #[trigger] s[i],
                x,
            ) by {
                assert(d[i] == s[i]);
            }
            assert forall|i: int| rank_in(s, x) <= i < s.len() implies name_before(
                x,
                #[trigger] s[i],
            ) by {
                if i < d.len() {
                    assert(d[i] == s[i]);
                }
            }
        }
    }
}

/// Every finite library can be listed.
pub proof fn listing_exists(m: Contents)
    requires
        m.dom().finite(),
    ensures
        is_listing(listing(m), m),
    decreases m.dom().len(),
{
    if m.dom().len() == 0 {
        let s = Seq::<Seq<char>>::empty();
        assert forall|n: Seq<char>| #[trigger] s.contains(n) <==> m.contains_key(n) by {
            assert(m.dom() =~= Set::empty());
        }
        assert(is_listing(s, m));
    } else {
        let x = m.dom().choose();
        let rest = m.remove(x);
        assert(rest.dom() =~= m.dom().remove(x));
        listing_exists(rest);
        let s = listing(rest);
        assert(!s.contains(x)) by {
            assert(!rest.contains_key(x));
        }
        rank_splits(s, x);
        let k = rank_in(s, x);
        let t = s.insert(k, x);
        assert forall|i: int, j: int| 0 <= i < j < t.len() implies name_before(
            #[trigger] t[i],
            #[trigger] t[j],
        ) by {
            let a = if i < k { i } else { i - 1 };
            let b = if j < k { j } else { j - 1 };
            if i != k && j != k {
                assert(name_before(s[a], s[b]));
            } else if i == k {
                assert(name_before(x, s[b]));
            } else {
                assert(name_before(s[a], x));
            }
        }
        assert forall|n: Seq<char>| #[trigger] t.contains(n) <==> m.contains_key(n) by {
            if t.contains(n) {
                let i = choose|i: int| 0 <= i < t.len() && t[i] == n;
                if i != k {
                    let a = if i < k { i } else { i - 1 };
                    assert(s[a] == n);
                    assert(s.contains(n));
                }
            }
            if m.contains_key(n) {
                if n == x {
                    assert(t[k] == x);
                } else {
                    assert(rest.contains_key(n));
                    assert(s.contains(n));
                    let a = choose|a: int| 0 <= a < s.len() && s[a] == n;
                    let i = if a < k { a } else { a + 1 };
                    assert(t[i] == n);
                }
            }
        }
        assert(is_listing(t, m));
    }
}

/// A preset and its name.
#[derive(Debug)]
struct Entry {
    name: String,
    preset: Preset,
}

/// A library of presets by name. Listing it walks the names in their order.
#[derive(Debug)]
pub struct Presets {
    entries: Vec<Entry>,
}

spec fn names_of(e: Seq<Entry>) -> Seq<Seq<char>> {
    Seq::new(e.len(), |i: int| e[i].name@)
}

spec fn in_order(e: Seq<Entry>) -> bool {
    forall|i: int, j: int|
        0 <= i < j < e.len() ==> name_before((#[trigger] e[i]).name@, (#[trigger] e[j]).name@)
}

spec fn found(e: Seq<Entry>, n: Seq<char>, i: int) -> bool {
    0 <= i < e.len() && e[i].name@ == n
}

spec fn contents(e: Seq<Entry>) -> Contents {
    Map::new(
        |n: Seq<char>| exists|i: int| found(e, n, i),
        |n: Seq<char>| e[choose|i: int| found(e, n, i)].preset@,
    )
}

proof fn one_place(e: Seq<Entry>, n: Seq<char>, i: int, j: int)
    requires
        in_order(e),
        found(e, n, i),
        found(e, n, j),
    ensures
        i == j,
{
    names_strictly_ordered(n, n, n);
    if i < j {
        assert(name_before(e[i].name@, e[j].name@));
    }
    if j < i {
        assert(name_before(e[j].name@, e[i].name@));
    }
}

proof fn contents_at(e: Seq<Entry>, n: Seq<char>, i: int)
    requires
        in_order(e),
        found(e, n, i),
    ensures
        contents(e).contains_key(n),
        contents(e)[n] == e[i].preset@,
{
    let k = choose|k: int| found(e, n, k);
    one_place(e, n, i, k);
}

proof fn entries_are_listed(e: Seq<Entry>)
    requires
        in_order(e),
    ensures
        is_listing(names_of(e), contents(e)),
        listing(contents(e)) == names_of(e),
        contents(e).dom().finite(),
        contents(e).dom().len() == e.len(),
        forall|i: int| 0 <= i < e.len() ==> contents(e).contains_key(#[trigger] names_of(e)[i]),
        forall|i: int| 0 <= i < e.len() ==> contents(e)[#[trigger] names_of(e)[i]] == e[i].preset@,
{
    let s = names_of(e);
    let m = contents(e);
    assert forall|n: Seq<char>| #[trigger] s.contains(n) <==> m.contains_key(n) by {
        if s.contains(n) {
            let i = choose|i: int| 0 <= i < s.len() && s[i] == n;
            assert(found(e, n, i));
        }
        if m.contains_key(n) {
            let i = choose|i: int| found(e, n, i);
            assert(s[i] == n);
        }
    }
    assert(is_listing(s, m));
    listing_is_unique(s, listing(m), m);
    assert forall|i: int| 0 <= i < e.len() implies m.contains_key(#[trigger] s[i]) && m[s[i]]
        == e[i].preset@ by {
        contents_at(e, s[i], i);
    }
    assert(s.no_duplicates()) by {
        assert forall|i: int, j: int| 0 <= i < s.len() && 0 <= j < s.len() && i != j implies s[i]
            != s[j] by {
            if s[i] == s[j] {
                one_place(e, s[i], i, j);
            }
        }
    }
    s.unique_seq_to_set();
    assert(s.to_set() =~= m.dom());
    vstd::seq_lib::seq_to_set_is_finite(s);
}

impl View for Presets {
    type V = Contents;

    closed spec fn view(&self) -> Contents {
        contents(self.entries@)
    }
}

impl Presets {
    #[verifier::type_invariant]
    spec fn sorted(self) -> bool {
        in_order(self.entries@)
    }

    /// A library without presets.
    pub fn new() -> (p: Presets)
        ensures
            p@ == Contents::empty(),
    {
        let p = Presets { entries: Vec::new() };
        assert(p@ =~= Contents::empty());
        p
    }

    /// The number of presets.
    pub fn len(&self) -> (n: usize)
        ensures
            self@.dom().finite(),
            n == self@.dom().len(),
            n == listing(self@).len(),
            is_listing(listing(self@), self@),
    {
        proof {
            use_type_invariant(self);
            entries_are_listed(self.entries@);
        }
        self.entries.len()
    }

    /// The name at place `i` of the listing.
    pub fn name_at(&self, i: usize) -> (n: &str)
        requires
            i < listing(self@).len(),
        ensures
            n@ == listing(self@)[i as int],
            self@.contains_key(n@),
    {
        proof {
            use_type_invariant(self);
            entries_are_listed(self.entries@);
        }
        self.entries[i].name.as_str()
    }

    /// The preset at place `i` of the listing.
    pub fn preset_at(&self, i: usize) -> (p: &Preset)
        requires
            i < listing(self@).len(),
        ensures
            p@ == self@[listing(self@)[i as int]],
    {
        proof {
            use_type_invariant(self);
            entries_are_listed(self.entries@);
        }
        &self.entries[i].preset
    }

    fn seek(&self, name: &str) -> (r: (usize, bool))
        ensures
            r.0 <= self.entries.len(),
            forall|j: int| 0 <= j < r.0 ==> name_before(#[trigger] self.entries[j].name@, name@),
            r.1 ==> found(self.entries@, name@, r.0 as int),
            !r.1 ==> forall|j: int|
                r.0 <= j < self.entries.len() ==> name_before(
                    name@,
                    #[trigger] self.entries[j].name@,
                ),
            r.1 == self@.contains_key(name@),
    {
        proof {
            use_type_invariant(self);
        }
        let mut i: usize = 0;
        while i < self.entries.len()
            invariant
                i <= self.entries.len(),
                in_order(self.entries@),
                forall|j: int| 0 <= j < i ==> name_before(#[trigger] self.entries[j].name@, name@),
            decreases self.entries.len() - i,
        {
            match place(&self.entries[i].name, name) {
                Place::Before => {
                    i += 1;
                },
                Place::Same => {
                    assert(found(self.entries@, name@, i as int));
                    proof {
                        contents_at(self.entries@, name@, i as int);
                    }
                    return (i, true);
                },
                Place::After => {
                    proof {
                        let e = self.entries@;
                        assert forall|j: int| i <= j < e.len() implies name_before(
                            name@,
                            #[trigger] e[j].name@,
                        ) by {
                            names_strictly_ordered(name@, e[i as int].name@, e[j].name@);
                        }
                        absent(e, name@, i as int);
                    }
                    return (i, false);
                },
            }
        }
        proof {
            absent(self.entries@, name@, i as int);
        }
        (i, false)
    }

    /// Whether a preset has this name.
    pub fn contains_key(&self, name: &str) -> (r: bool)
        ensures
            r == self@.contains_key(name@),
    {
        self.seek(name).1
    }

    /// The preset with this name.
    pub fn get(&self, name: &str) -> (r: Option<&Preset>)
        ensures
            match r {
                Some(p) => self@.contains_key(name@) && p@ == self@[name@],
                None => !self@.contains_key(name@),
            },
    {
        let (i, here) = self.seek(name);
        if here {
            proof {
                use_type_invariant(self);
                contents_at(self.entries@, name@, i as int);
            }
            Some(&self.entries[i].preset)
        } else {
            None
        }
    }

    /// Put `preset` under `name`, in place of the preset that had the name.
    pub fn insert(&mut self, name: String, preset: Preset)
        ensures
            final(self)@ == old(self)@.insert(name@, preset@),
    {
        let (i, here) = self.seek(&name);
        proof {
            use_type_invariant(&*self);
        }
        let ghost before = self.entries@;
        let ghost entry = Entry { name, preset };
        let mut entries: Vec<Entry> = Vec::new();
        std::mem::swap(&mut entries, &mut self.entries);
        if here {
            let removed = entries.remove(i);
        }
        let ghost middle = entries@;
        entries.insert(i, Entry { name, preset });
        proof {
            let e = entries@;
            if here {
                assert forall|a: int, b: int| 0 <= a < b < e.len() implies name_before(
                    (#[trigger] e[a]).name@,
                    (#[trigger] e[b]).name@,
                ) by {
                    assert(name_before(before[a].name@, before[b].name@));
                }
            } else {
                assert(middle == before);
                assert forall|a: int, b: int| 0 <= a < b < e.len() implies name_before(
                    (#[trigger] e[a]).name@,
                    (#[trigger] e[b]).name@,
                ) by {
                    if a < i && b > i {
                        assert(name_before(before[a].name@, before[b - 1].name@));
                    } else if a < i && b < i {
                        assert(name_before(before[a].name@, before[b].name@));
                    } else if a > i {
                        assert(name_before(before[a - 1].name@, before[b - 1].name@));
                    } else if a == i {
                        assert(name_before(name@, before[b - 1].name@));
                    }
                }
            }
            inserted(before, e, i as int, here, name@, preset@);
        }
        self.entries = entries;
    }

    /// Take the preset with this name out.
    pub fn remove(&mut self, name: &str) -> (r: Option<Preset>)
        ensures
            final(self)@ == old(self)@.remove(name@),
            match r {
                Some(p) => old(self)@.contains_key(name@) && p@ == old(self)@[name@],
                None => !old(self)@.contains_key(name@),
            },
    {
        let (i, here) = self.seek(name);
        proof {
            use_type_invariant(&*self);
        }
        if !here {
            assert(self@.remove(name@) =~= self@);
            return None;
        }
        let ghost before = self.entries@;
        let mut entries: Vec<Entry> = Vec::new();
        std::mem::swap(&mut entries, &mut self.entries);
        let entry = entries.remove(i);
        proof {
            let e = entries@;
            contents_at(before, name@, i as int);
            assert forall|a: int, b: int| 0 <= a < b < e.len() implies name_before(
                (#[trigger] e[a]).name@,
                (#[trigger] e[b]).name@,
            ) by {
                let x = if a < i { a } else { a + 1 };
                let y = if b < i { b } else { b + 1 };
                assert(name_before(before[x].name@, before[y].name@));
            }
            removed(before, e, i as int, name@);
        }
        self.entries = entries;
        Some(entry.preset)
    }

    /// The names, in their order.
    pub fn names(&self) -> (v: Vec<String>)
        ensures
            texts(v@) == listing(self@),
            is_listing(texts(v@), self@),
    {
        proof {
            use_type_invariant(self);
            entries_are_listed(self.entries@);
        }
        let mut v: Vec<String> = Vec::new();
        let mut i: usize = 0;
        while i < self.entries.len()
            invariant
                i <= self.entries.len(),
                texts(v@) =~= names_of(self.entries@).take(i as int),
            decreases self.entries.len() - i,
        {
            let name = self.entries[i].name.clone();
            let ghost done = v@;
            v.push(name);
            i += 1;
            assert(texts(v@) =~= texts(done).push(name@));
            assert(names_of(self.entries@).take(i as int) =~= names_of(self.entries@).take(
                i - 1,
            ).push(name@));
        }
        assert(texts(v@) =~= names_of(self.entries@));
        v
    }
}

proof fn absent(e: Seq<Entry>, n: Seq<char>, i: int)
    requires
        0 <= i <= e.len(),
        forall|j: int| 0 <= j < i ==> name_before(#[trigger] e[j].name@, n),
        forall|j: int| i <= j < e.len() ==> name_before(n, #[trigger] e[j].name@),
    ensures
        !contents(e).contains_key(n),
{
    if contents(e).contains_key(n) {
        let k = choose|k: int| found(e, n, k);
        names_strictly_ordered(n, n, n);
        if k < i {
            assert(name_before(e[k].name@, n));
        } else {
            assert(name_before(n, e[k].name@));
        }
    }
}

proof fn inserted(
    before: Seq<Entry>,
    after: Seq<Entry>,
    i: int,
    here: bool,
    n: Seq<char>,
    p: PresetView,
)
    requires
        in_order(before),
        in_order(after),
        0 <= i <= before.len(),
        here ==> found(before, n, i),
        !here ==> !contents(before).contains_key(n),
        found(after, n, i),
        after[i].preset@ == p,
        here ==> after.len() == before.len() && forall|j: int|
            0 <= j < after.len() && j != i ==> #[trigger] after[j] == before[j],
        !here ==> after.len() == before.len() + 1 && (forall|j: int|
            0 <= j < i ==> #[trigger] after[j] == before[j]) && (forall|j: int|
            i < j < after.len() ==> #[trigger] after[j] == before[j - 1]),
    ensures
        contents(after) == contents(before).insert(n, p),
{
    let x = contents(after);
    let y = contents(before).insert(n, p);
    contents_at(after, n, i);
    assert forall|k: Seq<char>| x.contains_key(k) <==> y.contains_key(k) by {
        if x.contains_key(k) {
            let j = choose|j: int| found(after, k, j);
            if j != i {
                let b = if here || j < i { j } else { j - 1 };
                assert(found(before, k, b));
            }
        }
        if y.contains_key(k) && k != n {
            let j = choose|j: int| found(before, k, j);
            if here {
                assert(i != j);
                assert(found(after, k, j));
            } else {
                let a = if j < i { j } else { j + 1 };
                assert(after[a] == before[j]);
                assert(found(after, k, a));
            }
        }
    }
    assert forall|k: Seq<char>| x.contains_key(k) implies x[k] == y[k] by {
        if k != n {
            let j = choose|j: int| found(after, k, j);
            contents_at(after, k, j);
            let b = if here || j < i { j } else { j - 1 };
            assert(found(before, k, b));
            contents_at(before, k, b);
        }
    }
    assert(x =~= y);
}

proof fn removed(before: Seq<Entry>, after: Seq<Entry>, i: int, n: Seq<char>)
    requires
        in_order(before),
        in_order(after),
        found(before, n, i),
        after.len() == before.len() - 1,
        forall|j: int| 0 <= j < i ==> #[trigger] after[j] == before[j],
        forall|j: int| i <= j < after.len() ==> #[trigger] after[j] == before[j + 1],
    ensures
        contents(after) == contents(before).remove(n),
{
    let x = contents(after);
    let y = contents(before).remove(n);
    assert forall|k: Seq<char>| x.contains_key(k) <==> y.contains_key(k) by {
        if x.contains_key(k) {
            let j = choose|j: int| found(after, k, j);
            let b = if j < i { j } else { j + 1 };
            assert(found(before, k, b));
            if k == n {
                one_place(before, n, i, b);
            }
        }
        if y.contains_key(k) {
            let j = choose|j: int| found(before, k, j);
            let a = if j < i { j } else { j - 1 };
            assert(after[a] == before[j]);
            assert(found(after, k, a));
        }
    }
    assert forall|k: Seq<char>| x.contains_key(k) implies x[k] == y[k] by {
        let j = choose|j: int| found(after, k, j);
        contents_at(after, k, j);
        let b = if j < i { j } else { j + 1 };
        assert(found(before, k, b));
        contents_at(before, k, b);
    }
    assert(x =~= y);
}

impl Clone for Presets {
    fn clone(&self) -> (c: Presets)
        ensures
            c@ == self@,
    {
        proof {
            use_type_invariant(self);
        }
        let mut entries: Vec<Entry> = Vec::new();
        let mut i: usize = 0;
        while i < self.entries.len()
            invariant
                i <= self.entries.len(),
                entries.len() == i,
                forall|j: int|
                    0 <= j < i ==> (#[trigger] entries[j]).name@ == self.entries[j].name@
                        && entries[j].preset@ == self.entries[j].preset@,
            decreases self.entries.len() - i,
        {
            entries.push(
                Entry {
                    name: self.entries[i].name.clone(),
                    preset: self.entries[i].preset.clone(),
                },
            );
            i += 1;
        }
        proof {
            let e = self.entries@;
            let f = entries@;
            assert forall|a: int, b: int| 0 <= a < b < f.len() implies name_before(
                (#[trigger] f[a]).name@,
                (#[trigger] f[b]).name@,
            ) by {
                assert(name_before(e[a].name@, e[b].name@));
            }
            assert(names_of(f) =~= names_of(e));
            let x = contents(e);
            let y = contents(f);
            entries_are_listed(e);
            entries_are_listed(f);
            assert forall|k: Seq<char>| x.contains_key(k) <==> y.contains_key(k) by {
                assert(names_of(e).contains(k) <==> x.contains_key(k));
                assert(names_of(f).contains(k) <==> y.contains_key(k));
            }
            assert forall|k: Seq<char>| x.contains_key(k) implies x[k] == y[k] by {
                let j = choose|j: int| found(e, k, j);
                assert(found(f, k, j));
                contents_at(e, k, j);
                contents_at(f, k, j);
            }
            assert(x =~= y);
        }
        Presets { entries }
    }
}

/// Numeric equality of two libraries: the same names, with equal presets.
pub open spec fn same_contents(a: Contents, b: Contents) -> bool {
    &&& a.dom() == b.dom()
    &&& forall|n: Seq<char>| #[trigger] a.contains_key(n) ==> a[n].equals(b[n])
}

impl Presets {
    /// Whether two libraries are numerically equal.
    pub fn same(&self, other: &Presets) -> (r: bool)
        ensures
            r == same_contents(self@, other@),
    {
        let n = self.len();
        let k = other.len();
        if n != k {
            return false;
        }
        let mut i: usize = 0;
        while i < n
            invariant
                i <= n,
                n == listing(self@).len(),
                n == listing(other@).len(),
                is_listing(listing(self@), self@),
                is_listing(listing(other@), other@),
                forall|j: int|
                    0 <= j < i ==> #[trigger] listing(self@)[j] == listing(other@)[j]
                        && self@[listing(self@)[j]].equals(other@[listing(self@)[j]]),
            decreases n - i,
        {
            if !same_text(self.name_at(i), other.name_at(i)) {
                proof {
                    if self@.dom() == other@.dom() {
                        assert(is_listing(listing(self@), other@)) by {
                            assert forall|m: Seq<char>| #[trigger] listing(self@).contains(m)
                                <==> other@.contains_key(m) by {
                                assert(self@.dom().contains(m) <==> other@.dom().contains(m));
                            }
                        }
                        listing_is_unique(listing(self@), listing(other@), other@);
                    }
                }
                return false;
            }
            if !self.preset_at(i).same(other.preset_at(i)) {
                return false;
            }
            i += 1;
        }
        proof {
            let s = listing(self@);
            assert(s =~= listing(other@));
            assert(self@.dom() =~= other@.dom()) by {
                assert forall|m: Seq<char>| self@.dom().contains(m) <==> other@.dom().contains(
                    m,
                ) by {
                    assert(s.contains(m) <==> self@.contains_key(m));
                    assert(s.contains(m) <==> other@.contains_key(m));
                }
            }
            assert forall|m: Seq<char>| #[trigger] self@.contains_key(m) implies self@[m].equals(
                other@[m],
            ) by {
                assert(s.contains(m));
                let j = choose|j: int| 0 <= j < s.len() && s[j] == m;
                assert(listing(self@)[j] == listing(other@)[j]);
            }
        }
        true
    }
}

} // verus!
