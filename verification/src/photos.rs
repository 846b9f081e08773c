//! The photo feed: which photos it shows, picked at random among those not shown
//! before, and which file names count as photos.
use vstd::prelude::*;

use crate::foundation::{FileSystem, FsModel};
use crate::installer::xorshift;
use crate::text::{last_index_of, lemma_last_index_of, str_eq, strings_contain, strings_model};

verus! {

/// How many photos the feed shows at a time.
pub const UNLOCKED_PHOTO_COUNT: usize = 10;

/// The xorshift64 generator of the feed.
pub struct Rng {
    pub state: u64,
}

impl Rng {
    /// A generator seeded with `seed` (zero becomes one).
    pub fn new(seed: u64) -> (r: Rng)
        ensures
            r.state == if seed >= 1 { seed } else { 1 },
    {
        Rng { state: if seed >= 1 { seed } else { 1 } }
    }

    /// Advances the state by one xorshift step and returns its upper 32 bits.
    pub fn next_u32(&mut self) -> (r: u32)
        ensures
            final(self).state == xorshift(old(self).state),
            r == (xorshift(old(self).state) >> 32u64) as u32,
    {
        self.state = self.state ^ (self.state << 13u64);
        self.state = self.state ^ (self.state >> 7u64);
        self.state = self.state ^ (self.state << 17u64);
        (self.state >> 32u64) as u32
    }
}

/// `s` with the elements at `i` and `j` exchanged.
pub open spec fn swapped<A>(s: Seq<A>, i: int, j: int) -> Seq<A> {
    s.update(i, s[j]).update(j, s[i])
}

/// The Fisher-Yates shuffle of `s` from position `i` down to 1, drawing from a
/// generator in state `state`: position `i` is exchanged with a position drawn
/// below or at it, then the rest follows.
pub open spec fn shuffled<A>(s: Seq<A>, state: u64, i: nat) -> Seq<A>
    decreases i,
{
    if i == 0 {
        s
    } else {
        let next = xorshift(state);
        let j = ((next >> 32u64) as u32) as int % (i + 1) as int;
        shuffled(swapped(s, i as int, j), next, (i - 1) as nat)
    }
}

/// The candidates that were not shown before.
pub open spec fn fresh(entries: Seq<String>, exclude: Seq<Seq<char>>) -> Seq<String> {
    entries.filter(|e: String| !exclude.contains(e@))
}

/// The photos picked from `entries`: those not in `exclude`, shuffled with a
/// generator seeded with `seed`, the first ten of them.
pub open spec fn picked(entries: Seq<String>, exclude: Seq<Seq<char>>, seed: u64) -> Seq<String> {
    let f = fresh(entries, exclude);
    let s = shuffled(f, if seed >= 1 { seed } else { 1 }, if f.len() > 0 { (f.len() - 1) as nat } else { 0 });
    if s.len() > UNLOCKED_PHOTO_COUNT {
        s.take(UNLOCKED_PHOTO_COUNT as int)
    } else {
        s
    }
}

proof fn lemma_shuffled_elements<A>(s: Seq<A>, state: u64, i: nat)
    requires
        i < s.len(),
    ensures
        shuffled(s, state, i).len() == s.len(),
        forall|k: int| 0 <= k < s.len() ==> s.contains(#[trigger] shuffled(s, state, i)[k]),
    decreases i,
{
    if i > 0 {
        let next = xorshift(state);
        let j = ((next >> 32u64) as u32) as int % (i + 1) as int;
        let t = swapped(s, i as int, j);
        lemma_shuffled_elements(t, next, (i - 1) as nat);
        assert forall|k: int| 0 <= k < s.len() implies s.contains(#[trigger] shuffled(s, state, i)[k]) by {
            let x = shuffled(s, state, i)[k];
            assert(t.contains(x));
            let m = choose|m: int| 0 <= m < t.len() && t[m] == x;
            if m == j {
                assert(s[i as int] == x);
            } else if m == i {
                assert(s[j] == x);
            } else {
                assert(s[m] == x);
            }
        }
    } else {
        assert forall|k: int| 0 <= k < s.len() implies s.contains(#[trigger] shuffled(s, state, i)[k]) by {
            assert(s[k] == shuffled(s, state, i)[k]);
        }
    }
}

/// Exchanges the elements at `i` and `j` of `v`.
fn swap_at(v: &mut Vec<String>, i: usize, j: usize)
    requires
        i < old(v)@.len(),
        j < old(v)@.len(),
    ensures
        final(v)@ == swapped(old(v)@, i as int, j as int),
{
    if i == j {
        assert(old(v)@ =~= swapped(old(v)@, i as int, j as int));
        return;
    }
    let mut tmp = String::new();
    v.set_and_swap(i, &mut tmp);
    v.set_and_swap(j, &mut tmp);
    v.set_and_swap(i, &mut tmp);
    assert(v@ =~= swapped(old(v)@, i as int, j as int));
}

/// Picks the feed's photos among the identifiers `entries`: those not in `exclude`,
/// shuffled with a generator seeded with `seed`, at most ten of them.
pub fn pick_new_photos(entries: Vec<String>, exclude: &Vec<String>, seed: u64) -> (r: Vec<String>)
    ensures
        r@ == picked(entries@, strings_model(exclude@), seed),
{
    let mut v: Vec<String> = Vec::new();
    let ghost p = |e: String| !strings_model(exclude@).contains(e@);
    assert(p == (|e: String| !strings_model(exclude@).contains(e@)));
    let mut k: usize = 0;
    let mut entries = entries;
    let ghost all = entries@;
    while k < entries.len()
        invariant
            k <= entries.len(),
            entries@.len() == all.len(),
            forall|m: int| k <= m < all.len() ==> entries@[m] == all[m],
            v@ == all.take(k as int).filter(p),
            p == (|e: String| !strings_model(exclude@).contains(e@)),
        decreases entries.len() - k,
    {
        let mut e = String::new();
        entries.set_and_swap(k, &mut e);
        proof {
            reveal_with_fuel(Seq::<_>::filter, 1);
            assert(all.take(k + 1).drop_last() =~= all.take(k as int));
            assert(e == all[k as int]);
        }
        if !strings_contain(exclude, e.as_str()) {
            v.push(e);
        }
        k = k + 1;
    }
    proof {
        assert(all.take(all.len() as int) =~= all);
    }
    let mut rng = Rng::new(seed);
    let n = v.len();
    if n > 0 {
        let mut i: usize = n - 1;
        while i > 0
            invariant
                i < n,
                v@.len() == n,
                shuffled(v@, rng.state, i as nat) == shuffled(fresh(all, strings_model(exclude@)), if seed >= 1 { seed } else { 1 }, (n - 1) as nat),
            decreases i,
        {
            let ghost before = v@;
            let ghost st = rng.state;
            let r = rng.next_u32();
            let j = (r as usize) % (i + 1);
            proof {
                assert(j as int == ((xorshift(st) >> 32u64) as u32) as int % (i + 1) as int);
            }
            swap_at(&mut v, i, j);
            i = i - 1;
        }
    }
    if v.len() > UNLOCKED_PHOTO_COUNT {
        v.truncate(UNLOCKED_PHOTO_COUNT);
    }
    v
}

/// Replaces the feed: freshly picked photos (none of those seen before) are shown
/// and join those seen.
pub fn refresh_photos_feed(fs: &mut FileSystem, entries: Vec<String>, seed: u64)
    ensures
        final(fs)@ == old(fs)@.showing(strings_model(picked(entries@, old(fs)@.photos_seen, seed))),
{
    let chosen = pick_new_photos(entries, fs.seen_photos(), seed);
    fs.show_photos(chosen);
}

/// Fills the feed when it is empty, as a refresh does; a feed that shows photos
/// stays as it is.
pub fn ensure_photos_selected(fs: &mut FileSystem, entries: Vec<String>, seed: u64)
    ensures
        old(fs)@.photos_current.len() > 0 ==> final(fs)@ == old(fs)@,
        old(fs)@.photos_current.len() == 0 ==> final(fs)@ == old(fs)@.showing(
            strings_model(picked(entries@, old(fs)@.photos_seen, seed)),
        ),
{
    if fs.current_photos().len() == 0 {
        refresh_photos_feed(fs, entries, seed);
    }
}

/// `c` with an ASCII capital letter made small.
pub open spec fn ascii_lower(c: char) -> char {
    if 'A' <= c && c <= 'Z' {
        ((c as u32) + 32) as char
    } else {
        c
    }
}

/// `s` with its ASCII capitals made small.
pub open spec fn lowered(s: Seq<char>) -> Seq<char> {
    s.map_values(|c: char| ascii_lower(c))
}

/// The extension of the file name `name`: what follows its last dot, when that
/// dot is not its first character (and the name is not `..`).
pub open spec fn extension(name: Seq<char>) -> Option<Seq<char>> {
    if name == ".."@ {
        None
    } else {
        match last_index_of(name, '.') {
            Some(i) => if i == 0 {
                None
            } else {
                Some(name.subrange(i + 1, name.len() as int))
            },
            None => None,
        }
    }
}

/// Whether a file name names a photo: its extension is jpg, jpeg or png, in any
/// case.
pub open spec fn is_photo_name(name: Seq<char>) -> bool {
    match extension(name) {
        Some(e) => {
            let l = lowered(e);
            l == "jpg"@ || l == "jpeg"@ || l == "png"@
        },
        None => false,
    }
}

/// Whether `s` equals the small-letter word `lower` when its ASCII capitals are
/// made small.
fn eq_lowercased(s: &str, lower: &str) -> (r: bool)
    ensures
        r == (lowered(s@) == lower@),
{
    let n = s.unicode_len();
    let m = lower.unicode_len();
    if n != m {
        assert(lowered(s@).len() != lower@.len());
        return false;
    }
    let mut i: usize = 0;
    while i < n
        invariant
            i <= n,
            n == s@.len(),
            m == lower@.len(),
            n == m,
            forall|j: int| 0 <= j < i ==> ascii_lower(s@[j]) == lower@[j],
        decreases n - i,
    {
        let c = s.get_char(i);
        let t = lower.get_char(i);
        let same = if 'A' <= c && c <= 'Z' {
            (c as u32) + 32 == (t as u32)
        } else {
            c == t
        };
        if !same {
            assert(lowered(s@)[i as int] != lower@[i as int]);
            return false;
        }
        i = i + 1;
    }
    assert(lowered(s@) =~= lower@);
    true
}

/// Whether the file name `name` names a photo (jpg, jpeg or png, in any case).
pub fn is_photo_file(name: &str) -> (r: bool)
    ensures
        r == is_photo_name(name@),
{
    if str_eq(name, "..") {
        return false;
    }
    let n = name.unicode_len();
    let mut i: usize = n;
    while i > 0
        invariant
            n == name@.len(),
            i <= n,
            name@ != ".."@,
            forall|j: int| i <= j < n ==> name@[j] != '.',
        decreases i,
    {
        if name.get_char(i - 1) == '.' {
            proof {
                lemma_last_index_of(name@, '.');
            }
            if i - 1 == 0 {
                return false;
            }
            let ext = name.substring_char(i, n);
            assert(last_index_of(name@, '.') == Some(i - 1));
            assert(name@ != ".."@);
            assert(extension(name@) == Some(ext@));
            return eq_lowercased(ext, "jpg") || eq_lowercased(ext, "jpeg") || eq_lowercased(ext, "png");
        }
        i = i - 1;
    }
    proof {
        lemma_last_index_of(name@, '.');
    }
    false
}

/// The first of the candidate photo folders that is a directory on disk (`is_dir`
/// says which are, in the order they are tried).
pub fn find_photo_dir(is_dir: &Vec<bool>) -> (r: Option<usize>)
    ensures
        match r {
            Some(i) => i < is_dir@.len() && is_dir@[i as int] && forall|j: int| 0 <= j < i ==> !is_dir@[j],
            None => forall|j: int| 0 <= j < is_dir@.len() ==> !is_dir@[j],
        },
{
    let mut i: usize = 0;
    while i < is_dir.len()
        invariant
            i <= is_dir@.len(),
            forall|j: int| 0 <= j < i ==> !is_dir@[j],
        decreases is_dir@.len() - i,
    {
        if is_dir[i] {
            return Some(i);
        }
        i = i + 1;
    }
    None
}

/// The name a photo goes by: `folder/name` for one in a subfolder of the photo
/// folder, else its file name.
pub fn photo_id(folder: Option<&str>, name: &str) -> (r: String)
    ensures
        r@ == match folder {
            Some(f) => f@ + "/"@ + name@,
            None => name@,
        },
{
    match folder {
        Some(f) => String::from_str(f).concat("/").concat(name),
        None => String::from_str(name),
    }
}


/// The feed shows at most ten photos, each one of the candidates, none of them
/// seen before.
pub proof fn law_picked_fresh(entries: Seq<String>, exclude: Seq<Seq<char>>, seed: u64)
    ensures
        picked(entries, exclude, seed).len() <= UNLOCKED_PHOTO_COUNT,
        forall|k: int| 0 <= k < picked(entries, exclude, seed).len() ==> {
            &&& entries.contains(#[trigger] picked(entries, exclude, seed)[k])
            &&& !exclude.contains(picked(entries, exclude, seed)[k]@)
        },
{
    broadcast use vstd::seq_lib::group_filter_ensures;

    let f = fresh(entries, exclude);
    let q = |e: String| !exclude.contains(e@);
    let st = if seed >= 1 { seed } else { 1 };
    let n = if f.len() > 0 { (f.len() - 1) as nat } else { 0 };
    if f.len() > 0 {
        lemma_shuffled_elements(f, st, n);
    }
    let s = shuffled(f, st, n);
    assert forall|k: int| 0 <= k < picked(entries, exclude, seed).len() implies {
        &&& entries.contains(#[trigger] picked(entries, exclude, seed)[k])
        &&& !exclude.contains(picked(entries, exclude, seed)[k]@)
    } by {
        let x = picked(entries, exclude, seed)[k];
        assert(x == s[k]);
        assert(f.contains(x));
        entries.lemma_filter_contains_rev(q, x);
        let m = choose|m: int| 0 <= m < f.len() && f[m] == x;
        assert(q(f[m]));
    }
}

proof fn lemma_shuffled_keeps_above(t: Seq<String>, st: u64, i: nat, k: int)
    requires
        i < t.len(),
        i < k < t.len(),
    ensures
        shuffled(t, st, i)[k] == t[k],
    decreases i,
{
    if i > 0 {
        let next = xorshift(st);
        let j = ((next >> 32u64) as u32) as int % (i + 1) as int;
        let u = swapped(t, i as int, j);
        lemma_shuffled_keeps_above(u, next, (i - 1) as nat, k);
        assert(u[k] == t[k]);
    }
}

/// The feed is a seeded shuffle, not the candidates in their order: when at
/// most ten fresh photos are left, all of them are shown, and the last place
/// holds the candidate that the generator's first draw (seeded with the seed,
/// at least 1) picks among them.
pub proof fn law_picked_is_shuffled(entries: Seq<String>, exclude: Seq<Seq<char>>, seed: u64)
    ensures
        ({
            let f = fresh(entries, exclude);
            let n = f.len();
            let first_draw = ((xorshift(if seed >= 1 { seed } else { 1 }) >> 32u64) as u32) as int;
            let p = picked(entries, exclude, seed);
            &&& p.len() == if n > UNLOCKED_PHOTO_COUNT { UNLOCKED_PHOTO_COUNT as nat } else { n }
            &&& 1 <= n <= UNLOCKED_PHOTO_COUNT ==> p[n - 1] == f[first_draw % (n as int)]
        }),
{
    let f = fresh(entries, exclude);
    let n = f.len();
    let st = if seed >= 1 { seed } else { 1 };
    if n > 0 {
        let i = (n - 1) as nat;
        lemma_shuffled_elements(f, st, i);
        if i > 0 {
            let next = xorshift(st);
            let j = ((next >> 32u64) as u32) as int % (i + 1) as int;
            let u = swapped(f, i as int, j);
            lemma_shuffled_keeps_above(u, next, (i - 1) as nat, i as int);
            assert(u[i as int] == f[j]);
        }
    }
}

/// A feed that shows photos is left alone: filling it again changes nothing.
pub proof fn law_ensure_keeps_feed(m: FsModel, current: Seq<Seq<char>>)
    requires
        current.len() > 0,
    ensures
        m.showing(current).photos_current.len() > 0,
        m.showing(current).photos_seen == m.photos_seen + current,
{
}

} // verus!
