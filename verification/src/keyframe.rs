//! Keyframe tracks of an animation: ordering keyframes by frame, and
//! finding the keyframes around a given frame.
//!
//! The value a keyframe holds (a position, a colour) is a type parameter:
//! this module only orders, finds and moves keyframes, it never reads their
//! values.

use vstd::prelude::*;

verus! {

/// A keyframe: a value that applies at frame `position`.
pub struct Keyframe<V> {
    pub position: u64,
    pub value: V,
}

/// A track animates one property of the entity named `bind_name`.
#[allow(inconsistent_fields)]
pub enum Track<P, C> {
    /// Animates the position; keyframes hold points.
    PositionTrack { bind_name: String, keyframes: Vec<Keyframe<P>> },
    /// Animates the colour of a shape; keyframes hold colours.
    RenderableColorTrack { bind_name: String, keyframes: Vec<Keyframe<C>> },
}

/// Keyframes in nondecreasing order of position.
pub open spec fn sorted_by_position<V>(s: Seq<Keyframe<V>>) -> bool {
    forall|i: int, j: int| 0 <= i < j < s.len() ==> s[i].position <= s[j].position
}

/// `p` maps each index of `sorted` to the index of `input` holding the
/// same keyframe, one to one; keyframes at the same position keep the
/// relative order they had before.
pub open spec fn stable_permutation<V>(
    input: Seq<Keyframe<V>>,
    sorted: Seq<Keyframe<V>>,
    p: Seq<int>,
) -> bool {
    &&& p.len() == sorted.len()
    &&& sorted.len() == input.len()
    &&& forall|k: int| 0 <= k < p.len() ==> 0 <= #[trigger] p[k] < input.len()
    &&& forall|k: int| 0 <= k < p.len() ==> sorted[k] == input[#[trigger] p[k]]
    &&& forall|a: int, b: int| 0 <= a < b < p.len() ==> #[trigger] p[a] != #[trigger] p[b]
    &&& forall|a: int, b: int|
        0 <= a < b < p.len() && (#[trigger] sorted[a]).position == (#[trigger] sorted[b]).position
            ==> p[a] < p[b]
}

/// `sorted` is `input` sorted by position, keyframes at the same position
/// in the order they had before.
pub open spec fn is_stable_sort_of<V>(input: Seq<Keyframe<V>>, sorted: Seq<Keyframe<V>>) -> bool {
    &&& sorted_by_position(sorted)
    &&& exists|p: Seq<int>| stable_permutation(input, sorted, p)
}

/// Element `k` of `s` with `x` inserted at `j`.
proof fn lemma_inserted<A>(s: Seq<A>, j: int, x: A, k: int)
    requires
        0 <= j <= s.len(),
        0 <= k <= s.len(),
    ensures
        s.insert(j, x)[k] == (if k < j {
            s[k]
        } else if k == j {
            x
        } else {
            s[k - 1]
        }),
{
}

/// Sorts keyframes by position; keyframes at the same position keep the
/// relative order.
pub fn sort_keyframes<V>(keyframes: &mut Vec<Keyframe<V>>)
    ensures
        is_stable_sort_of(old(keyframes)@, final(keyframes)@),
{
    let ghost orig = keyframes@;
    let total = keyframes.len();
    let mut rest: Vec<Keyframe<V>> = Vec::new();
    std::mem::swap(&mut rest, keyframes);
    let ghost mut p: Seq<int> = Seq::empty();
    let mut taken: usize = 0;
    while rest.len() > 0
        invariant
            taken + rest@.len() == orig.len(),
            orig.len() == total,
            rest@ == orig.skip(taken as int),
            keyframes@.len() == taken,
            p.len() == taken,
            sorted_by_position(keyframes@),
            forall|k: int| 0 <= k < p.len() ==> 0 <= #[trigger] p[k] < taken,
            forall|k: int| 0 <= k < p.len() ==> keyframes@[k] == orig[#[trigger] p[k]],
            forall|a: int, b: int| 0 <= a < b < p.len() ==> #[trigger] p[a] != #[trigger] p[b],
            forall|a: int, b: int|
                0 <= a < b < p.len() && (#[trigger] keyframes@[a]).position
                    == (#[trigger] keyframes@[b]).position ==> p[a] < p[b],
        decreases rest@.len(),
    {
        let ghost before = keyframes@;
        let ghost old_rest = rest@;
        let x = rest.remove(0);
        assert(x == orig[taken as int]);
        assert(rest@ =~= orig.skip(taken + 1));
        let xpos = x.position;
        let mut j: usize = 0;
        while j < keyframes.len() && keyframes[j].position <= xpos
            invariant
                j <= keyframes@.len(),
                keyframes@ == before,
                forall|k: int| 0 <= k < j ==> (#[trigger] keyframes@[k]).position <= xpos,
            decreases keyframes@.len() - j,
        {
            j = j + 1;
        }
        assert(forall|k: int| j <= k < before.len() ==> (#[trigger] before[k]).position > xpos) by {
            if j < before.len() {
                assert(before[j as int].position > xpos);
                assert forall|k: int| j <= k < before.len() implies (#[trigger] before[k]).position
                    > xpos by {
                    assert(before[j as int].position <= before[k].position);
                }
            }
        }
        keyframes.insert(j, x);
        proof {
            let np = p.insert(j as int, taken as int);
            let ji = j as int;
            let t = taken as int;
            assert(keyframes@ == before.insert(ji, x));
            assert forall|k: int| 0 <= k < np.len() implies keyframes@[k] == orig[#[trigger] np[k]]
                && 0 <= np[k] < taken + 1 by {
                lemma_inserted(p, ji, t, k);
                lemma_inserted(before, ji, x, k);
            }
            assert forall|a: int, b: int| 0 <= a < b < np.len() implies #[trigger] np[a]
                != #[trigger] np[b] by {
                lemma_inserted(p, ji, t, a);
                lemma_inserted(p, ji, t, b);
            }
            assert forall|a: int, b: int|
                0 <= a < b < np.len() && (#[trigger] keyframes@[a]).position
                    == (#[trigger] keyframes@[b]).position implies np[a] < np[b] by {
                lemma_inserted(p, ji, t, a);
                lemma_inserted(p, ji, t, b);
                lemma_inserted(before, ji, x, a);
                lemma_inserted(before, ji, x, b);
            }
            assert forall|a: int, b: int| 0 <= a < b < keyframes@.len() implies keyframes@[a].position
                <= keyframes@[b].position by {
                lemma_inserted(before, ji, x, a);
                lemma_inserted(before, ji, x, b);
            }
            p = np;
        }
        taken = taken + 1;
    }
    assert(stable_permutation(orig, keyframes@, p));
}

/// Keyframes `i` and `i + 1` enclose `frame`: the first is at or before it,
/// the second strictly after it.
pub open spec fn encloses<V>(s: Seq<Keyframe<V>>, i: int, frame: u64) -> bool {
    s[i].position <= frame && frame < s[i + 1].position
}

/// Where a frame falls within a track's keyframes.
#[derive(PartialEq, Eq, Structural, Clone, Copy, Debug)]
pub enum KeyframeSpan {
    /// Between keyframes `i` and `i + 1`.
    Between(usize),
    /// Before the first keyframe.
    BeforeFirst,
    /// After the last keyframe.
    AfterLast,
    /// Neither: the animated property keeps its value.
    Unchanged,
}

/// Finds the first pair of neighbouring keyframes that encloses `frame`.
/// When there is none, tells whether `frame` lies before the first
/// keyframe, after the last one, or neither.
pub fn locate_keyframe<V>(keyframes: &Vec<Keyframe<V>>, frame: u64) -> (span: KeyframeSpan)
    requires
        keyframes@.len() > 0,
    ensures
        match span {
            KeyframeSpan::Between(i) => {
                &&& i + 1 < keyframes@.len()
                &&& encloses(keyframes@, i as int, frame)
                &&& forall|j: int| 0 <= j < i ==> !encloses(keyframes@, j, frame)
            },
            KeyframeSpan::BeforeFirst => {
                &&& forall|j: int| 0 <= j < keyframes@.len() - 1 ==> !encloses(keyframes@, j, frame)
                &&& frame < keyframes@[0].position
            },
            KeyframeSpan::AfterLast => {
                &&& forall|j: int| 0 <= j < keyframes@.len() - 1 ==> !encloses(keyframes@, j, frame)
                &&& keyframes@[0].position <= frame
                &&& keyframes@[keyframes@.len() - 1].position < frame
            },
            KeyframeSpan::Unchanged => {
                &&& forall|j: int| 0 <= j < keyframes@.len() - 1 ==> !encloses(keyframes@, j, frame)
                &&& keyframes@[0].position <= frame
                &&& frame <= keyframes@[keyframes@.len() - 1].position
            },
        },
{
    let n = keyframes.len();
    let mut i: usize = 0;
    while i + 1 < n
        invariant
            n == keyframes@.len(),
            n > 0,
            i < n,
            forall|j: int| 0 <= j < i ==> !encloses(keyframes@, j, frame),
        decreases n - i,
    {
        if keyframes[i].position <= frame && frame < keyframes[i + 1].position {
            return KeyframeSpan::Between(i);
        }
        i = i + 1;
    }
    if frame < keyframes[0].position {
        KeyframeSpan::BeforeFirst
    } else if keyframes[n - 1].position < frame {
        KeyframeSpan::AfterLast
    } else {
        KeyframeSpan::Unchanged
    }
}

/// In a track sorted by position, every frame from the first keyframe up to
/// (not including) the last one lies between two neighbouring keyframes, so
/// the animated property is interpolated there.
pub proof fn lemma_sorted_track_encloses_inner_frames<V>(keyframes: Seq<Keyframe<V>>, frame: u64)
    requires
        sorted_by_position(keyframes),
        keyframes.len() > 0,
        keyframes[0].position <= frame,
        frame < keyframes[keyframes.len() - 1].position,
    ensures
        exists|i: int| 0 <= i < keyframes.len() - 1 && encloses(keyframes, i, frame),
{
    lemma_enclosing_pair_from(keyframes, frame, 0);
}

proof fn lemma_enclosing_pair_from<V>(keyframes: Seq<Keyframe<V>>, frame: u64, lo: int)
    requires
        0 <= lo < keyframes.len(),
        keyframes[lo].position <= frame,
        frame < keyframes[keyframes.len() - 1].position,
    ensures
        exists|i: int| 0 <= i < keyframes.len() - 1 && encloses(keyframes, i, frame),
    decreases keyframes.len() - lo,
{
    if lo == keyframes.len() - 1 {
    } else if frame < keyframes[lo + 1].position {
        assert(encloses(keyframes, lo, frame));
    } else {
        lemma_enclosing_pair_from(keyframes, frame, lo + 1);
    }
}

proof fn lemma_increasing_is_identity(p: Seq<int>, n: int)
    requires
        p.len() == n,
        forall|k: int| 0 <= k < n ==> 0 <= #[trigger] p[k] < n,
        forall|a: int, b: int| 0 <= a < b < n ==> #[trigger] p[a] < #[trigger] p[b],
    ensures
        forall|k: int| 0 <= k < n ==> #[trigger] p[k] == k,
{
    assert forall|k: int| 0 <= k < n implies #[trigger] p[k] >= k by {
        lemma_increasing_lower(p, n, k);
    }
    assert forall|k: int| 0 <= k < n implies #[trigger] p[k] <= k by {
        lemma_increasing_upper(p, n, k);
    }
}

proof fn lemma_increasing_lower(p: Seq<int>, n: int, k: int)
    requires
        p.len() == n,
        0 <= k < n,
        forall|k: int| 0 <= k < n ==> 0 <= #[trigger] p[k] < n,
        forall|a: int, b: int| 0 <= a < b < n ==> #[trigger] p[a] < #[trigger] p[b],
    ensures
        p[k] >= k,
    decreases k,
{
    if k > 0 {
        lemma_increasing_lower(p, n, k - 1);
        assert(p[k - 1] < p[k]);
    }
}

proof fn lemma_increasing_upper(p: Seq<int>, n: int, k: int)
    requires
        p.len() == n,
        0 <= k < n,
        forall|k: int| 0 <= k < n ==> 0 <= #[trigger] p[k] < n,
        forall|a: int, b: int| 0 <= a < b < n ==> #[trigger] p[a] < #[trigger] p[b],
    ensures
        p[k] <= k,
    decreases n - k,
{
    if k < n - 1 {
        lemma_increasing_upper(p, n, k + 1);
        assert(p[k] < p[k + 1]);
    }
}

/// Sorting keyframes that are already in order leaves them as they are.
pub proof fn lemma_sorting_sorted_keyframes_changes_nothing<V>(
    input: Seq<Keyframe<V>>,
    sorted: Seq<Keyframe<V>>,
)
    requires
        sorted_by_position(input),
        is_stable_sort_of(input, sorted),
    ensures
        sorted == input,
{
    let p = choose|p: Seq<int>| stable_permutation(input, sorted, p);
    let n = sorted.len() as int;
    assert forall|a: int, b: int| 0 <= a < b < n implies #[trigger] p[a] < #[trigger] p[b] by {
        assert(sorted[a] == input[p[a]]);
        assert(sorted[b] == input[p[b]]);
        if sorted[a].position != sorted[b].position {
            if p[a] > p[b] {
                assert(input[p[b]].position <= input[p[a]].position);
            }
        }
    }
    lemma_increasing_is_identity(p, n);
    assert forall|k: int| 0 <= k < n implies sorted[k] == input[k] by {
        assert(sorted[k] == input[p[k]]);
    }
    assert(sorted =~= input);
}

/// Keyframe `j` of `s` goes before keyframe `i` in a stable sort: it is at
/// an earlier position, or at the same position and earlier in `s`.
pub open spec fn placed_before<V>(s: Seq<Keyframe<V>>, j: int, i: int) -> bool {
    s[j].position < s[i].position || (s[j].position == s[i].position && j < i)
}

/// The keyframes of `s` that a stable sort places before keyframe `i`.
pub open spec fn predecessors<V>(s: Seq<Keyframe<V>>, i: int) -> Set<int> {
    Set::new(|j: int| 0 <= j < s.len() && placed_before(s, j, i))
}

proof fn lemma_predecessors_finite<V>(s: Seq<Keyframe<V>>, i: int)
    ensures
        predecessors(s, i).finite(),
        predecessors(s, i).subset_of(vstd::set_lib::set_int_range(0, s.len() as int)),
{
    vstd::set_lib::lemma_int_range(0, s.len() as int);
    vstd::set_lib::lemma_len_subset(
        predecessors(s, i),
        vstd::set_lib::set_int_range(0, s.len() as int),
    );
}

proof fn lemma_predecessors_grow<V>(s: Seq<Keyframe<V>>, i: int, j: int)
    requires
        0 <= i < s.len(),
        0 <= j < s.len(),
        placed_before(s, i, j),
    ensures
        predecessors(s, i).len() < predecessors(s, j).len(),
{
    lemma_predecessors_finite(s, i);
    lemma_predecessors_finite(s, j);
    let bi = predecessors(s, i);
    let bj = predecessors(s, j);
    assert(!bi.contains(i));
    assert(bi.insert(i).subset_of(bj));
    vstd::set_lib::lemma_len_subset(bi.insert(i), bj);
}

proof fn lemma_onto<V>(s: Seq<Keyframe<V>>, t: Seq<Keyframe<V>>, p: Seq<int>, j: int)
    requires
        stable_permutation(s, t, p),
        0 <= j < s.len(),
    ensures
        exists|l: int| 0 <= l < p.len() && p[l] == j,
{
    let n = s.len() as int;
    let range = vstd::set_lib::set_int_range(0, n);
    let f = |l: int| p[l];
    vstd::set_lib::lemma_int_range(0, n);
    assert forall|a: int, b: int| range.contains(a) && range.contains(b) && #[trigger] f(a)
        == #[trigger] f(b) implies a == b by {
        if a < b {
            assert(p[a] != p[b]);
        } else if b < a {
            assert(p[b] != p[a]);
        }
    }
    assert(vstd::relations::injective_on(f, range));
    let image = range.map(f);
    vstd::set_lib::lemma_map_size(range, image, f);
    assert forall|y: int| image.contains(y) implies range.contains(y) by {
        let l = choose|l: int| range.contains(l) && f(l) == y;
        assert(0 <= p[l] < n);
    }
    vstd::set_lib::lemma_subset_equality(image, range);
    assert(range.contains(j));
    assert(image.contains(j));
    let l = choose|l: int| range.contains(l) && f(l) == j;
    assert(0 <= l < p.len() && p[l] == j);
}

proof fn lemma_sorted_place_is_rank<V>(s: Seq<Keyframe<V>>, t: Seq<Keyframe<V>>, p: Seq<int>, k: int)
    requires
        stable_permutation(s, t, p),
        sorted_by_position(t),
        0 <= k < t.len(),
    ensures
        predecessors(s, p[k]).len() == k,
{
    let f = |l: int| p[l];
    let below = vstd::set_lib::set_int_range(0, k);
    let image = below.map(f);
    let preds = predecessors(s, p[k]);
    assert forall|j: int| image.contains(j) implies preds.contains(j) by {
        let l = choose|l: int| below.contains(l) && f(l) == j;
        assert(t[l] == s[p[l]]);
        assert(t[k] == s[p[k]]);
        assert(t[l].position <= t[k].position);
        assert(0 <= p[l] < s.len());
    }
    assert forall|j: int| preds.contains(j) implies image.contains(j) by {
        lemma_onto(s, t, p, j);
        let l = choose|l: int| 0 <= l < p.len() && p[l] == j;
        assert(t[l] == s[p[l]]);
        assert(t[k] == s[p[k]]);
        if l > k {
            assert(t[k].position <= t[l].position);
        }
        assert(l != k);
        assert(below.contains(l));
    }
    assert(preds =~= image);
    vstd::set_lib::lemma_int_range(0, k);
    assert forall|a: int, b: int| below.contains(a) && below.contains(b) && #[trigger] f(a)
        == #[trigger] f(b) implies a == b by {
        if a < b {
            assert(p[a] != p[b]);
        } else if b < a {
            assert(p[b] != p[a]);
        }
    }
    assert(vstd::relations::injective_on(f, below));
    vstd::set_lib::lemma_map_size(below, image, f);
}

/// A stable sort has a single possible result: any two stable sorts of the
/// same keyframes are equal.  The contract of `sort_keyframes` thus fixes
/// its result completely.
pub proof fn lemma_stable_sort_is_unique<V>(
    input: Seq<Keyframe<V>>,
    first: Seq<Keyframe<V>>,
    second: Seq<Keyframe<V>>,
)
    requires
        is_stable_sort_of(input, first),
        is_stable_sort_of(input, second),
    ensures
        first == second,
{
    let p1 = choose|p: Seq<int>| stable_permutation(input, first, p);
    let p2 = choose|p: Seq<int>| stable_permutation(input, second, p);
    assert forall|k: int| 0 <= k < first.len() implies first[k] == second[k] by {
        lemma_sorted_place_is_rank(input, first, p1, k);
        lemma_sorted_place_is_rank(input, second, p2, k);
        let a = p1[k];
        let b = p2[k];
        assert(0 <= a < input.len());
        assert(0 <= b < input.len());
        if placed_before(input, a, b) {
            lemma_predecessors_grow(input, a, b);
        } else if placed_before(input, b, a) {
            lemma_predecessors_grow(input, b, a);
        }
        assert(a == b);
        assert(first[k] == input[a]);
        assert(second[k] == input[b]);
    }
    assert(first =~= second);
}

/// `after` is `before` with its keyframes stably sorted by position: same
/// kind of track, same entity.
pub open spec fn is_sorted_track<P, C>(before: Track<P, C>, after: Track<P, C>) -> bool {
    match (before, after) {
        (
            Track::PositionTrack { bind_name: n0, keyframes: k0 },
            Track::PositionTrack { bind_name: n1, keyframes: k1 },
        ) => n1 == n0 && is_stable_sort_of(k0@, k1@),
        (
            Track::RenderableColorTrack { bind_name: n0, keyframes: k0 },
            Track::RenderableColorTrack { bind_name: n1, keyframes: k1 },
        ) => n1 == n0 && is_stable_sort_of(k0@, k1@),
        _ => false,
    }
}

/// Sorts the keyframes of every track of an animation, each track staying
/// in its place.
pub fn sort_tracks<P, C>(tracks: &mut Vec<Track<P, C>>)
    ensures
        final(tracks)@.len() == old(tracks)@.len(),
        forall|i: int|
            0 <= i < old(tracks)@.len() ==> is_sorted_track(
                #[trigger] old(tracks)@[i],
                final(tracks)@[i],
            ),
{
    let ghost orig = tracks@;
    let total = tracks.len();
    let mut rest: Vec<Track<P, C>> = Vec::new();
    std::mem::swap(&mut rest, tracks);
    let mut done: usize = 0;
    while rest.len() > 0
        invariant
            orig.len() == total,
            done + rest@.len() == total,
            rest@ == orig.skip(done as int),
            tracks@.len() == done,
            forall|i: int| 0 <= i < done ==> is_sorted_track(#[trigger] orig[i], tracks@[i]),
        decreases rest@.len(),
    {
        let mut track = rest.remove(0);
        assert(track == orig[done as int]);
        assert(rest@ =~= orig.skip(done + 1));
        track.sort_keyframes();
        tracks.push(track);
        done = done + 1;
    }
}

impl<P, C> Track<P, C> {
    /// Sorts the track's keyframes by position, keeping the order of
    /// keyframes at the same position.
    pub fn sort_keyframes(&mut self)
        ensures
            is_sorted_track(*old(self), *final(self)),
    {
        match self {
            Track::PositionTrack { keyframes, .. } => sort_keyframes(keyframes),
            Track::RenderableColorTrack { keyframes, .. } => sort_keyframes(keyframes),
        }
    }

    /// The name of the entity the track animates.
    pub fn bind_name(&self) -> (name: &String)
        ensures
            match self {
                Track::PositionTrack { bind_name, .. } => name == bind_name,
                Track::RenderableColorTrack { bind_name, .. } => name == bind_name,
            },
    {
        match self {
            Track::PositionTrack { bind_name, .. } => bind_name,
            Track::RenderableColorTrack { bind_name, .. } => bind_name,
        }
    }
}

/// The name of the entity that `track` animates.
pub open spec fn bound_name<P, C>(track: Track<P, C>) -> Seq<char> {
    match track {
        Track::PositionTrack { bind_name, .. } => bind_name@,
        Track::RenderableColorTrack { bind_name, .. } => bind_name@,
    }
}

/// The indices, in increasing order, of the first `n` tracks that animate
/// the entity named `name`.
pub open spec fn tracks_bound_prefix<P, C>(tracks: Seq<Track<P, C>>, name: Seq<char>, n: int) -> Seq<usize>
    decreases n,
{
    if n <= 0 {
        Seq::empty()
    } else if bound_name(tracks[n - 1]) == name {
        tracks_bound_prefix(tracks, name, n - 1).push((n - 1) as usize)
    } else {
        tracks_bound_prefix(tracks, name, n - 1)
    }
}

/// The indices, in order, of the tracks that animate the entity named
/// `name`.
pub fn tracks_bound_to<P, C>(tracks: &Vec<Track<P, C>>, name: &String) -> (found: Vec<usize>)
    ensures
        found@ == tracks_bound_prefix(tracks@, name@, tracks@.len() as int),
{
    let mut found: Vec<usize> = Vec::new();
    let mut i: usize = 0;
    while i < tracks.len()
        invariant
            i <= tracks@.len(),
            found@ == tracks_bound_prefix(tracks@, name@, i as int),
        decreases tracks@.len() - i,
    {
        let track_name = tracks[i].bind_name();
        if track_name.eq(name) {
            found.push(i);
        }
        i = i + 1;
    }
    found
}

/// The tracks found for `name` are exactly those that animate the entity of
/// that very name (not merely one whose name starts the same way), each
/// once, in increasing order.
pub proof fn lemma_tracks_bound_are_exactly_the_named<P, C>(
    tracks: Seq<Track<P, C>>,
    name: Seq<char>,
    n: int,
)
    requires
        0 <= n <= tracks.len(),
        n <= usize::MAX,
    ensures
        forall|k: int|
            #![trigger tracks_bound_prefix(tracks, name, n).contains(k as usize)]
            0 <= k <= usize::MAX ==> (tracks_bound_prefix(tracks, name, n).contains(k as usize) <==> (
            k < n && (match tracks[k] {
                Track::PositionTrack { bind_name, .. } => bind_name@ == name,
                Track::RenderableColorTrack { bind_name, .. } => bind_name@ == name,
            }))),
        forall|a: int, b: int|
            0 <= a < b < tracks_bound_prefix(tracks, name, n).len() ==> tracks_bound_prefix(
                tracks,
                name,
                n,
            )[a] < tracks_bound_prefix(tracks, name, n)[b],
        forall|a: int|
            0 <= a < tracks_bound_prefix(tracks, name, n).len() ==> tracks_bound_prefix(
                tracks,
                name,
                n,
            )[a] < n,
    decreases n,
{
    if n > 0 {
        lemma_tracks_bound_are_exactly_the_named(tracks, name, n - 1);
        let prev = tracks_bound_prefix(tracks, name, n - 1);
        let cur = tracks_bound_prefix(tracks, name, n);
        let matches = match tracks[n - 1] {
            Track::PositionTrack { bind_name, .. } => bind_name@ == name,
            Track::RenderableColorTrack { bind_name, .. } => bind_name@ == name,
        };
        assert(matches == (bound_name(tracks[n - 1]) == name));
        assert forall|k: int| 0 <= k <= usize::MAX implies (#[trigger] cur.contains(k as usize) <==> (
        k < n && (match tracks[k] {
            Track::PositionTrack { bind_name, .. } => bind_name@ == name,
            Track::RenderableColorTrack { bind_name, .. } => bind_name@ == name,
        }))) by {
            if matches {
                assert(cur == prev.push((n - 1) as usize));
                if cur.contains(k as usize) {
                    let i = choose|i: int| 0 <= i < cur.len() && cur[i] == k as usize;
                    if i < prev.len() {
                        assert(prev[i] == k as usize);
                        assert(prev.contains(k as usize));
                    }
                }
                if k == n - 1 {
                    assert(cur[prev.len() as int] == k as usize);
                }
                if prev.contains(k as usize) {
                    let i = choose|i: int| 0 <= i < prev.len() && prev[i] == k as usize;
                    assert(cur[i] == k as usize);
                }
            } else {
                assert(cur == prev);
            }
        }
    }
}

} // verus!
