//! Editing the bands of a preset: setting a band, and removing one.

use vstd::prelude::*;
use vstd::arithmetic::power2::*;
use crate::config::{band_fault, bands_fault, runnable_bands};
use crate::dsp::{
    close, close_is_a_short_distance, close_means_within_half_a_hertz, distance,
    distance_of_frequencies, frequency_distance, valid_frequency, Band, HALF_HERTZ, MAX_BANDS,
};
use crate::error::Fault;
use crate::gap::gap;
use crate::number::Single;

verus! {

/// The place of the first band that counts as the band at `freq`; the length where there is
/// none.
pub open spec fn first_close(bands: Seq<Band>, freq: Single) -> int
    decreases bands.len(),
{
    if bands.len() == 0 || close(bands[0].freq, freq) {
        0
    } else {
        1 + first_close(bands.drop_first(), freq)
    }
}

/// The first close band is the one with none before it.
pub proof fn first_close_is(bands: Seq<Band>, freq: Single, i: int)
    requires
        0 <= i <= bands.len(),
        forall|j: int| 0 <= j < i ==> !close((#[trigger] bands[j]).freq, freq),
        i < bands.len() ==> close(bands[i].freq, freq),
    ensures
        first_close(bands, freq) == i,
    decreases bands.len(),
{
    if i > 0 {
        assert(!close(bands[0].freq, freq));
        let d = bands.drop_first();
        assert forall|j: int| 0 <= j < i - 1 implies !close((#[trigger] d[j]).freq, freq) by {
            assert(d[j] == bands[j + 1]);
        }
        if i < bands.len() {
            assert(d[i - 1] == bands[i]);
        }
        first_close_is(d, freq, i - 1);
    }
}

/// `band` put in behind every band of `sorted` that has no higher frequency.
pub open spec fn put_in(sorted: Seq<Band>, band: Band) -> Seq<Band>
    decreases sorted.len(),
{
    if sorted.len() == 0 || sorted.last().freq.value() <= band.freq.value() {
        sorted.push(band)
    } else {
        put_in(sorted.drop_last(), band).push(sorted.last())
    }
}

/// The bands by frequency; bands of one frequency stay in their order.
pub open spec fn by_frequency(bands: Seq<Band>) -> Seq<Band>
    decreases bands.len(),
{
    if bands.len() == 0 {
        bands
    } else {
        put_in(by_frequency(bands.drop_last()), bands.last())
    }
}

/// The bands once `band` is set: the first band that counts as the same takes its gain and Q,
/// and stays of its kind; where there is none the band is added, as far as there is room.
pub open spec fn with_band(bands: Seq<Band>, band: Band) -> Result<Seq<Band>, Fault> {
    let i = first_close(bands, band.freq);
    if i < bands.len() {
        Ok(bands.update(i, Band { gain_db: band.gain_db, q: band.q, ..bands[i] }))
    } else if bands.len() >= MAX_BANDS {
        Err(Fault::BandLimit)
    } else {
        Ok(by_frequency(bands.push(band)))
    }
}

/// `a` is nearer to `freq` than `b`, or as near and lower.
pub open spec fn nearer(a: Band, b: Band, freq: Single) -> bool {
    distance(a.freq, freq) < distance(b.freq, freq) || (distance(a.freq, freq) == distance(
        b.freq,
        freq,
    ) && a.freq.value() < b.freq.value())
}

/// The place of the nearest band, the first one of them.
pub open spec fn nearest(bands: Seq<Band>, freq: Single) -> int
    decreases bands.len(),
{
    if bands.len() <= 1 {
        0
    } else {
        let k = nearest(bands.drop_last(), freq);
        if nearer(bands.last(), bands[k], freq) {
            bands.len() - 1
        } else {
            k
        }
    }
}

/// What comes of removing the band at `freq`.
pub enum Removal {
    /// There are no bands.
    Empty,
    /// No band is close; the nearest one has this frequency.
    Miss(Single),
    /// The band at this place is removed.
    Hit(usize),
}

/// What comes of removing the band at `freq`: exactly the nearest band goes, if it is close.
pub open spec fn removal(bands: Seq<Band>, freq: Single) -> Removal {
    if bands.len() == 0 {
        Removal::Empty
    } else {
        let k = nearest(bands, freq);
        if close(bands[k].freq, freq) {
            Removal::Hit(k as usize)
        } else {
            Removal::Miss(bands[k].freq)
        }
    }
}

/// All bands have valid frequencies.
pub open spec fn valid_frequencies(bands: Seq<Band>) -> bool {
    forall|i: int| 0 <= i < bands.len() ==> valid_frequency((#[trigger] bands[i]).freq)
}

fn insert_by_frequency(sorted: &mut Vec<Band>, band: Band)
    requires
        valid_frequencies(old(sorted)@),
        valid_frequency(band.freq),
    ensures
        final(sorted)@ == put_in(old(sorted)@, band),
        valid_frequencies(final(sorted)@),
{
    let ghost before = sorted@;
    let mut i: usize = sorted.len();
    assert(before.take(before.len() as int) =~= before);
    assert(before.skip(before.len() as int) =~= Seq::empty());
    assert(put_in(before, band) =~= put_in(before, band) + Seq::<Band>::empty());
    while i > 0 && !sorted[i - 1].freq.at_most(band.freq)
        invariant
            sorted@ == before,
            i <= before.len(),
            valid_frequencies(before),
            valid_frequency(band.freq),
            put_in(before, band) == put_in(before.take(i as int), band) + before.skip(i as int),
        decreases i,
    {
        proof {
            let t = before.take(i as int);
            assert(t.drop_last() =~= before.take(i - 1));
            assert(t.last() == before[i - 1]);
            assert(before.skip(i - 1) =~= seq![before[i - 1]] + before.skip(i as int));
            assert(put_in(t.drop_last(), band).push(t.last()) + before.skip(i as int) =~= put_in(
                t.drop_last(),
                band,
            ) + before.skip(i - 1));
        }
        i -= 1;
    }
    proof {
        let t = before.take(i as int);
        if i > 0 {
            assert(t.last() == before[i - 1]);
        }
        assert(put_in(t, band) == t.push(band));
        assert(before.insert(i as int, band) =~= t.push(band) + before.skip(i as int));
    }
    sorted.insert(i, band);
    proof {
        let after = sorted@;
        assert forall|j: int| 0 <= j < after.len() implies valid_frequency(
            (#[trigger] after[j]).freq,
        ) by {
            if j < i {
                assert(after[j] == before[j]);
            } else if j > i {
                assert(after[j] == before[j - 1]);
            }
        }
    }
}

fn sort_by_frequency(bands: &[Band]) -> (sorted: Vec<Band>)
    requires
        valid_frequencies(bands@),
    ensures
        sorted@ == by_frequency(bands@),
{
    let mut sorted: Vec<Band> = Vec::new();
    let mut i: usize = 0;
    assert(bands@.take(0) =~= Seq::empty());
    while i < bands.len()
        invariant
            i <= bands.len(),
            valid_frequencies(bands@),
            valid_frequencies(sorted@),
            sorted@ == by_frequency(bands@.take(i as int)),
        decreases bands.len() - i,
    {
        assert(bands@.take(i + 1).drop_last() =~= bands@.take(i as int));
        insert_by_frequency(&mut sorted, bands[i]);
        i += 1;
    }
    assert(bands@.take(bands.len() as int) =~= bands@);
    sorted
}

/// Set a band: update gain and Q of the first one that counts as the same, or else add it in
/// frequency order. Fails, and changes nothing, where the band would be one too many.
pub fn set_band(bands: &mut Vec<Band>, band: Band) -> (r: Result<(), Fault>)
    requires
        valid_frequencies(old(bands)@),
        valid_frequency(band.freq),
    ensures
        match with_band(old(bands)@, band) {
            Ok(b) => r is Ok && final(bands)@ == b,
            Err(f) => r == Err::<(), Fault>(f) && final(bands)@ == old(bands)@,
        },
{
    let ghost before = bands@;
    let mut i: usize = 0;
    while i < bands.len()
        invariant
            i <= bands.len(),
            bands@ == before,
            before == old(bands)@,
            valid_frequencies(before),
            valid_frequency(band.freq),
            forall|j: int| 0 <= j < i ==> !close((#[trigger] before[j]).freq, band.freq),
        decreases bands.len() - i,
    {
        let here = bands[i];
        proof {
            close_is_a_short_distance(here.freq, band.freq);
        }
        if frequency_distance(here.freq, band.freq) < HALF_HERTZ {
            proof {
                first_close_is(before, band.freq, i as int);
            }
            bands.set(i, Band { kind: here.kind, freq: here.freq, gain_db: band.gain_db, q: band.q });
            return Ok(());
        }
        i += 1;
    }
    proof {
        first_close_is(before, band.freq, i as int);
    }
    if bands.len() >= MAX_BANDS {
        return Err(Fault::BandLimit);
    }
    bands.push(band);
    *bands = sort_by_frequency(bands);
    Ok(())
}

/// Find the band to remove for `freq`: the nearest one, if it is close enough.
pub fn find_removal(bands: &[Band], freq: Single) -> (r: Removal)
    requires
        valid_frequencies(bands@),
        valid_frequency(freq),
    ensures
        r == removal(bands@, freq),
        r matches Removal::Hit(i) ==> i < bands.len(),
{
    if bands.len() == 0 {
        return Removal::Empty;
    }
    let mut k: usize = 0;
    let mut best: u64 = frequency_distance(bands[0].freq, freq);
    let mut i: usize = 1;
    while i < bands.len()
        invariant
            1 <= i <= bands.len(),
            k < i,
            valid_frequencies(bands@),
            valid_frequency(freq),
            best == distance(bands@[k as int].freq, freq),
            k == nearest(bands@.take(i as int), freq),
        decreases bands.len() - i,
    {
        let d: u64 = frequency_distance(bands[i].freq, freq);
        proof {
            let t = bands@.take(i + 1);
            assert(t.drop_last() =~= bands@.take(i as int));
            assert(t.last() == bands@[i as int]);
            assert(t[k as int] == bands@[k as int]);
        }
        if d < best || (d == best && !bands[k].freq.at_most(bands[i].freq)) {
            k = i;
            best = d;
        }
        i += 1;
    }
    proof {
        assert(bands@.take(bands.len() as int) =~= bands@);
        close_is_a_short_distance(bands@[k as int].freq, freq);
    }
    if best < HALF_HERTZ {
        Removal::Hit(k)
    } else {
        Removal::Miss(bands[k].freq)
    }
}

// --- laws ----------------------------------------------------------------------------

/// The bands stand in the order of their frequencies.
pub open spec fn in_frequency_order(bands: Seq<Band>) -> bool {
    forall|i: int, j: int|
        0 <= i < j < bands.len() ==> (#[trigger] bands[i]).freq.value() <= (
        #[trigger] bands[j]).freq.value()
}

proof fn put_in_facts(sorted: Seq<Band>, band: Band)
    ensures
        put_in(sorted, band).len() == sorted.len() + 1,
        put_in(sorted, band).to_multiset() == sorted.to_multiset().insert(band),
        forall|i: int| 0 <= i < sorted.len() + 1 ==> #[trigger] put_in(sorted, band)[i] == band
            || sorted.contains(put_in(sorted, band)[i]),
        in_frequency_order(sorted) ==> in_frequency_order(put_in(sorted, band)),
    decreases sorted.len(),
{
    broadcast use vstd::seq_lib::group_to_multiset_ensures;

    let p = put_in(sorted, band);
    if sorted.len() == 0 || sorted.last().freq.value() <= band.freq.value() {
        assert forall|i: int| 0 <= i < p.len() implies #[trigger] p[i] == band || sorted.contains(
            p[i],
        ) by {
            if i < sorted.len() {
                assert(sorted[i] == p[i]);
            }
        }
        if in_frequency_order(sorted) {
            assert forall|i: int, j: int| 0 <= i < j < p.len() implies (
            #[trigger] p[i]).freq.value() <= (#[trigger] p[j]).freq.value() by {
                if j == sorted.len() && i < sorted.len() - 1 {
                    assert(sorted[i].freq.value() <= sorted[sorted.len() - 1].freq.value());
                }
            }
        }
    } else {
        let d = sorted.drop_last();
        put_in_facts(d, band);
        let q = put_in(d, band);
        assert(sorted =~= d.push(sorted.last()));
        assert(p.to_multiset() =~= sorted.to_multiset().insert(band));
        assert forall|i: int| 0 <= i < p.len() implies #[trigger] p[i] == band || sorted.contains(
            p[i],
        ) by {
            if i < q.len() {
                assert(p[i] == q[i]);
                if q[i] != band {
                    let j = choose|j: int| 0 <= j < d.len() && d[j] == q[i];
                    assert(sorted[j] == q[i]);
                }
            } else {
                assert(sorted[sorted.len() - 1] == p[i]);
            }
        }
        if in_frequency_order(sorted) {
            assert forall|i: int, j: int| 0 <= i < j < d.len() implies (
            #[trigger] d[i]).freq.value() <= (#[trigger] d[j]).freq.value() by {
                assert(sorted[i].freq.value() <= sorted[j].freq.value());
            }
            assert forall|i: int, j: int| 0 <= i < j < p.len() implies (
            #[trigger] p[i]).freq.value() <= (#[trigger] p[j]).freq.value() by {
                if j < q.len() {
                    assert(p[i] == q[i] && p[j] == q[j]);
                } else {
                    assert(p[i] == q[i]);
                    if q[i] != band {
                        let k = choose|k: int| 0 <= k < d.len() && d[k] == q[i];
                        assert(sorted[k].freq.value() <= sorted[sorted.len() - 1].freq.value());
                    }
                }
            }
        }
    }
}

/// Sorting by frequency keeps exactly the bands there are and puts them in order.
pub proof fn sorting_keeps_bands(bands: Seq<Band>)
    ensures
        by_frequency(bands).len() == bands.len(),
        by_frequency(bands).to_multiset() == bands.to_multiset(),
        in_frequency_order(by_frequency(bands)),
    decreases bands.len(),
{
    broadcast use vstd::seq_lib::group_to_multiset_ensures;

    if bands.len() > 0 {
        let d = bands.drop_last();
        sorting_keeps_bands(d);
        put_in_facts(by_frequency(d), bands.last());
        assert(bands =~= d.push(bands.last()));
    }
}

proof fn put_in_keeps_order(sorted: Seq<Band>, band: Band, v: int)
    requires
        in_frequency_order(sorted),
    ensures
        put_in(sorted, band).filter(|b: Band| b.freq.value() == v) == if band.freq.value() == v {
            sorted.filter(|b: Band| b.freq.value() == v).push(band)
        } else {
            sorted.filter(|b: Band| b.freq.value() == v)
        },
    decreases sorted.len(),
{
    reveal_with_fuel(Seq::filter, 2);
    let f = |b: Band| b.freq.value() == v;
    if sorted.len() == 0 || sorted.last().freq.value() <= band.freq.value() {
        assert(sorted.push(band).drop_last() =~= sorted);
    } else {
        let d = sorted.drop_last();
        assert forall|i: int, j: int| 0 <= i < j < d.len() implies (#[trigger] d[i]).freq.value()
            <= (#[trigger] d[j]).freq.value() by {
            assert(sorted[i].freq.value() <= sorted[j].freq.value());
        }
        put_in_keeps_order(d, band, v);
        let q = put_in(d, band);
        assert(q.push(sorted.last()).drop_last() =~= q);
    }
}

/// Sorting by frequency is stable: bands of one frequency stay in their order.
pub proof fn sorting_is_stable(bands: Seq<Band>, v: int)
    ensures
        by_frequency(bands).filter(|b: Band| b.freq.value() == v) == bands.filter(
            |b: Band| b.freq.value() == v,
        ),
    decreases bands.len(),
{
    reveal_with_fuel(Seq::filter, 2);
    if bands.len() > 0 {
        let d = bands.drop_last();
        sorting_is_stable(d, v);
        sorting_keeps_bands(d);
        put_in_keeps_order(by_frequency(d), bands.last(), v);
    }
}

/// Setting a valid band keeps a preset runnable: never more than the maximum of bands, and
/// every one of them valid. A band that is added leaves the bands in frequency order.
pub proof fn setting_a_band_stays_runnable(bands: Seq<Band>, band: Band)
    requires
        bands.len() <= MAX_BANDS,
        bands_fault(bands) is None,
        band_fault(band.freq, band.gain_db, band.q) is None,
        with_band(bands, band) is Ok,
    ensures
        with_band(bands, band)->Ok_0.len() <= MAX_BANDS,
        bands_fault(with_band(bands, band)->Ok_0) is None,
        with_band(bands, band)->Ok_0.len() == bands.len() + 1 ==> in_frequency_order(
            with_band(bands, band)->Ok_0,
        ),
{
    runnable_bands(bands);
    let i = first_close(bands, band.freq);
    let after = with_band(bands, band)->Ok_0;
    first_close_in_range(bands, band.freq);
    if i < bands.len() {
        assert forall|j: int| 0 <= j < after.len() implies band_fault(
            (#[trigger] after[j]).freq,
            after[j].gain_db,
            after[j].q,
        ) is None by {
            assert(band_fault(bands[j].freq, bands[j].gain_db, bands[j].q) is None);
        }
    } else {
        let more = bands.push(band);
        sorting_keeps_bands(more);
        broadcast use vstd::seq_lib::group_to_multiset_ensures;

        assert forall|j: int| 0 <= j < after.len() implies band_fault(
            (#[trigger] after[j]).freq,
            after[j].gain_db,
            after[j].q,
        ) is None by {
            assert(after.to_multiset().count(after[j]) > 0) by {
                assert(after.contains(after[j]));
            }
            assert(more.contains(after[j]));
            let k = choose|k: int| 0 <= k < more.len() && more[k] == after[j];
            if k < bands.len() {
                assert(band_fault(bands[k].freq, bands[k].gain_db, bands[k].q) is None);
            }
        }
    }
    runnable_bands(after);
}

proof fn first_close_in_range(bands: Seq<Band>, freq: Single)
    ensures
        0 <= first_close(bands, freq) <= bands.len(),
    decreases bands.len(),
{
    if bands.len() > 0 {
        first_close_in_range(bands.drop_first(), freq);
    }
}

/// The nearest band is a band of the preset, and no band is nearer.
pub proof fn nearest_is_nearest(bands: Seq<Band>, freq: Single)
    requires
        bands.len() > 0,
    ensures
        0 <= nearest(bands, freq) < bands.len(),
        forall|i: int|
            0 <= i < bands.len() ==> !nearer(#[trigger] bands[i], bands[nearest(bands, freq)], freq),
    decreases bands.len(),
{
    if bands.len() > 1 {
        let d = bands.drop_last();
        nearest_is_nearest(d, freq);
        let k = nearest(d, freq);
        assert(d[k] == bands[k]);
        assert forall|i: int| 0 <= i < bands.len() implies !nearer(
            #[trigger] bands[i],
            bands[nearest(bands, freq)],
            freq,
        ) by {
            if i < d.len() {
                assert(d[i] == bands[i]);
            }
        }
    }
}

/// A band is found for removal exactly when some band is close to the frequency, and then it
/// is a close one: a removal takes one band or none.
pub proof fn removal_needs_a_close_band(bands: Seq<Band>, freq: Single)
    requires
        bands.len() <= MAX_BANDS,
    ensures
        removal(bands, freq) is Hit <==> exists|i: int|
            0 <= i < bands.len() && close((#[trigger] bands[i]).freq, freq),
        removal(bands, freq) matches Removal::Hit(k) ==> k < bands.len() && close(
            bands[k as int].freq,
            freq,
        ),
{
    if bands.len() > 0 {
        nearest_is_nearest(bands, freq);
        let k = nearest(bands, freq);
        close_is_a_short_distance(bands[k].freq, freq);
        if exists|i: int| 0 <= i < bands.len() && close((#[trigger] bands[i]).freq, freq) {
            let i = choose|i: int| 0 <= i < bands.len() && close((#[trigger] bands[i]).freq, freq);
            close_is_a_short_distance(bands[i].freq, freq);
            assert(!nearer(bands[i], bands[k], freq));
        }
    }
}

/// Setting a band where there is one changes the gain and the Q of that one band: its kind and
/// its frequency, every other band, their order, and their number stay.
pub proof fn updating_a_band_changes_gain_and_q(bands: Seq<Band>, band: Band, i: int)
    requires
        0 <= i < bands.len(),
        close(bands[i].freq, band.freq),
        forall|j: int| 0 <= j < i ==> !close((#[trigger] bands[j]).freq, band.freq),
    ensures
        ({
            let b = with_band(bands, band)->Ok_0;
            &&& with_band(bands, band) is Ok
            &&& b.len() == bands.len()
            &&& b[i].kind == bands[i].kind
            &&& b[i].freq == bands[i].freq
            &&& b[i].gain_db == band.gain_db
            &&& b[i].q == band.q
            &&& forall|j: int| 0 <= j < bands.len() && j != i ==> #[trigger] b[j] == bands[j]
        }),
{
    first_close_is(bands, band.freq, i);
}

/// A band that is not there yet is added if and only if there is room for it.
pub proof fn a_new_band_needs_room(bands: Seq<Band>, band: Band)
    requires
        forall|j: int| 0 <= j < bands.len() ==> !close((#[trigger] bands[j]).freq, band.freq),
    ensures
        with_band(bands, band) is Ok <==> bands.len() < MAX_BANDS,
        with_band(bands, band) is Err ==> with_band(bands, band) == Err::<Seq<Band>, Fault>(
            Fault::BandLimit,
        ),
{
    first_close_is(bands, band.freq, bands.len() as int);
}

/// A band that is not there yet, where there is room for it, comes on top of the bands there
/// are, exactly as it was asked for, and in its place by frequency.
pub proof fn adding_a_band_adds_just_it(bands: Seq<Band>, band: Band)
    requires
        forall|j: int| 0 <= j < bands.len() ==> !close((#[trigger] bands[j]).freq, band.freq),
        bands.len() < 64,
    ensures
        ({
            let b = with_band(bands, band)->Ok_0;
            &&& with_band(bands, band) is Ok
            &&& b.len() == bands.len() + 1
            &&& b.to_multiset() == bands.to_multiset().insert(band)
            &&& in_frequency_order(b)
        }),
{
    broadcast use vstd::seq_lib::group_to_multiset_ensures;

    first_close_is(bands, band.freq, bands.len() as int);
    sorting_keeps_bands(bands.push(band));
}

/// The band that is found for removal is a close one, no band is nearer to the frequency, and
/// of those as near none is lower; where none is found, no band is within half a hertz, and the
/// frequency that is reported is that of a band with none nearer to it.
pub proof fn removal_takes_the_nearest(bands: Seq<Band>, freq: Single)
    requires
        bands.len() <= 64,
        valid_frequency(freq),
        valid_frequencies(bands),
    ensures
        removal(bands, freq) is Empty <==> bands.len() == 0,
        removal(bands, freq) matches Removal::Hit(k) ==> {
            &&& k < bands.len()
            &&& -pow2(148) < bands[k as int].freq.value() - freq.value() < pow2(148)
            &&& forall|i: int|
                0 <= i < bands.len() ==> gap(bands[k as int].freq, freq) <= gap(
                    (#[trigger] bands[i]).freq,
                    freq,
                )
            &&& forall|i: int|
                0 <= i < bands.len() && gap((#[trigger] bands[i]).freq, freq) == gap(
                    bands[k as int].freq,
                    freq,
                ) ==> bands[k as int].freq.value() <= bands[i].freq.value()
        },
        removal(bands, freq) matches Removal::Miss(f) ==> {
            &&& forall|i: int|
                0 <= i < bands.len() ==> !(-pow2(148) < (#[trigger] bands[i]).freq.value()
                    - freq.value() < pow2(148))
            &&& exists|k: int|
                0 <= k < bands.len() && (#[trigger] bands[k]).freq == f && forall|i: int|
                    0 <= i < bands.len() ==> gap(f, freq) <= gap((#[trigger] bands[i]).freq, freq)
        },
{
    if bands.len() > 0 {
        nearest_is_nearest(bands, freq);
        let k = nearest(bands, freq);
        lemma_pow2_pos(130);
        let p = pow2(130) as int;
        close_means_within_half_a_hertz(bands[k].freq, freq);
        distance_of_frequencies(bands[k].freq, freq);
        let x = distance(bands[k].freq, freq) as int;
        assert forall|i: int| 0 <= i < bands.len() implies gap(bands[k].freq, freq) <= gap(
            (#[trigger] bands[i]).freq,
            freq,
        ) && (gap(bands[i].freq, freq) == gap(bands[k].freq, freq) ==> bands[k].freq.value()
            <= bands[i].freq.value()) by {
            distance_of_frequencies(bands[i].freq, freq);
            assert(!nearer(bands[i], bands[k], freq));
            let y = distance(bands[i].freq, freq) as int;
            assert(x <= y ==> x * p <= y * p) by (nonlinear_arith)
                requires
                    p > 0,
            ;
            assert(x * p == y * p ==> x == y) by (nonlinear_arith)
                requires
                    p > 0,
            ;
        }
        removal_needs_a_close_band(bands, freq);
        assert forall|i: int| 0 <= i < bands.len() && !(removal(bands, freq) is Hit) implies !(
        -pow2(148) < (#[trigger] bands[i]).freq.value() - freq.value() < pow2(148)) by {
            close_means_within_half_a_hertz(bands[i].freq, freq);
        }
    }
}

} // verus!
