//! Discovery of the most recent captures in the screenshot folder: which
//! files count as captures, how they are filtered, ordered newest first and
//! capped, and which one is featured.

use vstd::prelude::*;

verus! {

#[derive(Debug, Clone, Copy, PartialEq, Eq)]
pub enum CaptureModeFilter {
    All,
    Screenshots,
    Recordings,
}

/// A capture file, newest-first ordering key included.
#[derive(Debug, Clone)]
pub struct RecentCaptureEntry {
    /// Path of the file, as the platform's raw bytes.
    pub path: Vec<u8>,
    /// The file's name (the last component of `path`), as raw bytes.
    pub name: Vec<u8>,
    /// File name for display.
    pub file_name: String,
    /// Modification time, in nanoseconds relative to the Unix epoch.
    pub modified_at: i128,
}

#[derive(Debug)]
pub struct RecentCaptureCollection {
    pub featured: Option<RecentCaptureEntry>,
    pub remaining: Vec<RecentCaptureEntry>,
}

impl RecentCaptureCollection {
    /// The empty collection.
    pub fn empty() -> (c: Self)
        ensures
            c.featured is None,
            c.remaining@.len() == 0,
    {
        RecentCaptureCollection { featured: None, remaining: Vec::new() }
    }
}

/// What the directory listing reports about one entry.
#[derive(Debug)]
pub struct DirEntryInfo {
    /// Path of the entry, as the platform's raw bytes.
    pub path: Vec<u8>,
    /// The entry's file name, as raw bytes.
    pub name: Vec<u8>,
    /// The file name for display.
    pub display_name: String,
    /// Whether the entry is a regular file (false when unknown).
    pub is_file: bool,
    /// Modification time in nanoseconds relative to the Unix epoch, when known.
    pub modified_at: Option<i128>,
}

/// How many captures the recent-captures window shows.
pub const DEFAULT_RECENT_CAPTURE_LIMIT: usize = 13;

/// Index of the last `.` in `name`, or -1.
pub open spec fn last_dot(name: Seq<u8>) -> int
    decreases name.len(),
{
    if name.len() == 0 {
        -1
    } else if name.last() == 46u8 {
        name.len() - 1
    } else {
        last_dot(name.drop_last())
    }
}

/// The extension of a file name: what follows its last dot, provided some
/// text precedes that dot (`..` has none).
pub open spec fn extension_spec(name: Seq<u8>) -> Option<Seq<u8>> {
    if name == seq![46u8, 46u8] {
        None
    } else if last_dot(name) <= 0 {
        None
    } else {
        Some(name.subrange(last_dot(name) + 1, name.len() as int))
    }
}

pub open spec fn ascii_lower(b: u8) -> u8 {
    if 65 <= b <= 90 {
        (b + 32) as u8
    } else {
        b
    }
}

/// `ext` equals the lowercase ASCII word `word`, ignoring ASCII case.
pub open spec fn ext_is(ext: Seq<u8>, word: Seq<u8>) -> bool {
    &&& ext.len() == word.len()
    &&& forall|i: int| 0 <= i < ext.len() ==> ascii_lower(#[trigger] ext[i]) == word[i]
}

pub open spec fn png() -> Seq<u8> {
    seq![112u8, 110u8, 103u8]
}

pub open spec fn jpg() -> Seq<u8> {
    seq![106u8, 112u8, 103u8]
}

pub open spec fn jpeg() -> Seq<u8> {
    seq![106u8, 112u8, 101u8, 103u8]
}

pub open spec fn webp() -> Seq<u8> {
    seq![119u8, 101u8, 98u8, 112u8]
}

pub open spec fn gif() -> Seq<u8> {
    seq![103u8, 105u8, 102u8]
}

pub open spec fn mp4() -> Seq<u8> {
    seq![109u8, 112u8, 52u8]
}

pub open spec fn webm() -> Seq<u8> {
    seq![119u8, 101u8, 98u8, 109u8]
}

pub open spec fn mkv() -> Seq<u8> {
    seq![109u8, 107u8, 118u8]
}

pub open spec fn mov() -> Seq<u8> {
    seq![109u8, 111u8, 118u8]
}

/// A recording extension: mp4, webm, mkv, mov or gif (any ASCII case).
pub open spec fn animated_ext(e: Seq<u8>) -> bool {
    ext_is(e, mp4()) || ext_is(e, webm()) || ext_is(e, mkv()) || ext_is(e, mov()) || ext_is(e, gif())
}

/// An extension the recent-captures view shows: png, jpg, jpeg, webp, gif,
/// mp4, webm, mkv or mov (any ASCII case).
pub open spec fn supported_ext(e: Seq<u8>) -> bool {
    ext_is(e, png()) || ext_is(e, jpg()) || ext_is(e, jpeg()) || ext_is(e, webp()) || animated_ext(e)
}

pub open spec fn is_supported_spec(name: Seq<u8>) -> bool {
    extension_spec(name) matches Some(e) && supported_ext(e)
}

pub open spec fn is_animated_spec(name: Seq<u8>) -> bool {
    extension_spec(name) matches Some(e) && animated_ext(e)
}

/// `e` spells the lowercase ASCII word `w`, each letter in either case.
pub open spec fn spells(e: Seq<u8>, w: Seq<u8>) -> bool {
    &&& e.len() == w.len()
    &&& forall|i: int| 0 <= i < e.len() ==> #[trigger] e[i] == w[i] || (97 <= w[i] <= 122 && e[i] == w[i] - 32)
}

proof fn lemma_spells_ext(e: Seq<u8>, w: Seq<u8>)
    requires
        forall|i: int| 0 <= i < w.len() ==> !(65 <= #[trigger] w[i] <= 90),
    ensures
        spells(e, w) ==> ext_is(e, w),
{
    if spells(e, w) {
        assert forall|i: int| 0 <= i < e.len() implies ascii_lower(#[trigger] e[i]) == w[i] by {
            assert(e[i] == w[i] || (97 <= w[i] <= 122 && e[i] == w[i] - 32));
            assert(!(65 <= w[i] <= 90));
        }
    }
}

/// The capture extensions: png, jpg, jpeg, webp, gif, mp4, webm, mkv and mov
/// in any ASCII case are captures; of them gif, mp4, webm, mkv and mov are
/// recordings (animated media) and png, jpg, jpeg and webp are not.
pub proof fn lemma_capture_extensions(e: Seq<u8>)
    ensures
        spells(e, seq![112u8, 110u8, 103u8]) ==> supported_ext(e) && !animated_ext(e),
        spells(e, seq![106u8, 112u8, 103u8]) ==> supported_ext(e) && !animated_ext(e),
        spells(e, seq![106u8, 112u8, 101u8, 103u8]) ==> supported_ext(e) && !animated_ext(e),
        spells(e, seq![119u8, 101u8, 98u8, 112u8]) ==> supported_ext(e) && !animated_ext(e),
        spells(e, seq![103u8, 105u8, 102u8]) ==> supported_ext(e) && animated_ext(e),
        spells(e, seq![109u8, 112u8, 52u8]) ==> supported_ext(e) && animated_ext(e),
        spells(e, seq![119u8, 101u8, 98u8, 109u8]) ==> supported_ext(e) && animated_ext(e),
        spells(e, seq![109u8, 107u8, 118u8]) ==> supported_ext(e) && animated_ext(e),
        spells(e, seq![109u8, 111u8, 118u8]) ==> supported_ext(e) && animated_ext(e),
        animated_ext(e) ==> supported_ext(e),
{
    lemma_spells_ext(e, png());
    lemma_spells_ext(e, jpg());
    lemma_spells_ext(e, jpeg());
    lemma_spells_ext(e, webp());
    lemma_spells_ext(e, gif());
    lemma_spells_ext(e, mp4());
    lemma_spells_ext(e, webm());
    lemma_spells_ext(e, mkv());
    lemma_spells_ext(e, mov());
    assert forall|w: Seq<u8>, v: Seq<u8>| #[trigger] ext_is(e, w) && #[trigger] ext_is(e, v) && w.len() == v.len() implies w =~= v by {
        assert forall|i: int| 0 <= i < w.len() implies w[i] == v[i] by {
            assert(ascii_lower(e[i]) == w[i]);
            assert(ascii_lower(e[i]) == v[i]);
        }
    }
    if ext_is(e, png()) || ext_is(e, jpg()) || ext_is(e, jpeg()) || ext_is(e, webp()) {
        if ext_is(e, png()) || ext_is(e, jpg()) {
            assert(!ext_is(e, webm()) && !ext_is(e, gif()) && !ext_is(e, mp4()) && !ext_is(e, mkv()) && !ext_is(e, mov())) by {
                if ext_is(e, gif()) { if ext_is(e, png()) { assert(png() =~= gif()); } else { assert(jpg() =~= gif()); } }
                if ext_is(e, mp4()) { if ext_is(e, png()) { assert(png() =~= mp4()); } else { assert(jpg() =~= mp4()); } }
                if ext_is(e, mkv()) { if ext_is(e, png()) { assert(png() =~= mkv()); } else { assert(jpg() =~= mkv()); } }
                if ext_is(e, mov()) { if ext_is(e, png()) { assert(png() =~= mov()); } else { assert(jpg() =~= mov()); } }
            }
        }
        if ext_is(e, jpeg()) || ext_is(e, webp()) {
            assert(!ext_is(e, webm())) by {
                if ext_is(e, webm()) { if ext_is(e, jpeg()) { assert(jpeg() =~= webm()); } else { assert(webp()[3] != webm()[3]); assert(ascii_lower(e[3]) == webp()[3]); } }
            }
        }
    }
}

/// A file name made of a non-empty stem, a dot and an extension without a
/// dot has that extension; so `clip.mov`, `CLIP.MOV` or `shot.Png` count as
/// captures of the kind their extension names.
pub proof fn lemma_name_extension(stem: Seq<u8>, e: Seq<u8>)
    requires
        stem.len() > 0,
        e.len() > 0,
        forall|i: int| 0 <= i < e.len() ==> #[trigger] e[i] != 46u8,
    ensures
        extension_spec(stem + seq![46u8] + e) == Some(e),
        is_supported_spec(stem + seq![46u8] + e) == supported_ext(e),
        is_animated_spec(stem + seq![46u8] + e) == animated_ext(e),
{
    let name = stem + seq![46u8] + e;
    let d = stem.len() as int;
    lemma_last_dot_after(name, d + 1);
    assert(name.subrange(0, d + 1).last() == 46u8);
    assert(last_dot(name.subrange(0, d + 1)) == d);
    assert(name != seq![46u8, 46u8]) by {
        if name == seq![46u8, 46u8] {
            assert(name.len() == 2);
            assert(e.len() == 0);
            assert(stem.len() == 1);
            assert(name[0] == 46u8);
        }
    }
    assert(name.subrange(d + 1, name.len() as int) =~= e);
}

proof fn lemma_last_dot_after(name: Seq<u8>, i: int)
    requires
        0 <= i <= name.len(),
        forall|j: int| i <= j < name.len() ==> name[j] != 46u8,
    ensures
        last_dot(name) == last_dot(name.subrange(0, i)),
    decreases name.len(),
{
    if name.len() > i {
        assert(name.drop_last().subrange(0, i) =~= name.subrange(0, i));
        lemma_last_dot_after(name.drop_last(), i);
    } else {
        assert(name.subrange(0, i) =~= name);
    }
}

fn last_dot_exec(name: &[u8]) -> (d: Option<usize>)
    ensures
        d matches Some(i) ==> last_dot(name@) == i as int && i < name@.len(),
        d is None ==> last_dot(name@) == -1,
{
    let mut i = name.len();
    while i > 0 && name[i - 1] != 46u8
        invariant
            0 <= i <= name@.len(),
            forall|j: int| i <= j < name@.len() ==> name@[j] != 46u8,
        decreases i,
    {
        i = i - 1;
    }
    proof {
        lemma_last_dot_after(name@, i as int);
        if i > 0 {
            assert(name@.subrange(0, i as int).last() == 46u8);
        } else {
            assert(name@.subrange(0, 0).len() == 0);
        }
    }
    if i == 0 {
        None
    } else {
        Some(i - 1)
    }
}

fn lower(b: u8) -> (r: u8)
    ensures
        r == ascii_lower(b),
{
    if 65 <= b && b <= 90 {
        b + 32
    } else {
        b
    }
}

/// Whether `name[start..]` is the three-letter word `w` ignoring ASCII case.
fn ext3(name: &[u8], start: usize, w0: u8, w1: u8, w2: u8) -> (r: bool)
    requires
        start <= name@.len(),
    ensures
        r == ext_is(name@.subrange(start as int, name@.len() as int), seq![w0, w1, w2]),
{
    let ghost e = name@.subrange(start as int, name@.len() as int);
    if name.len() - start != 3 {
        return false;
    }
    let r = lower(name[start]) == w0 && lower(name[start + 1]) == w1 && lower(name[start + 2]) == w2;
    proof {
        if !r {
            if ascii_lower(name@[start as int]) != w0 { assert(ascii_lower(e[0]) != seq![w0, w1, w2][0]); }
            else if ascii_lower(name@[start + 1]) != w1 { assert(ascii_lower(e[1]) != seq![w0, w1, w2][1]); }
            else { assert(ascii_lower(e[2]) != seq![w0, w1, w2][2]); }
        }
    }
    r
}

/// Whether `name[start..]` is the four-letter word `w` ignoring ASCII case.
fn ext4(name: &[u8], start: usize, w0: u8, w1: u8, w2: u8, w3: u8) -> (r: bool)
    requires
        start <= name@.len(),
    ensures
        r == ext_is(name@.subrange(start as int, name@.len() as int), seq![w0, w1, w2, w3]),
{
    let ghost e = name@.subrange(start as int, name@.len() as int);
    if name.len() - start != 4 {
        return false;
    }
    let r = lower(name[start]) == w0 && lower(name[start + 1]) == w1 && lower(name[start + 2]) == w2
        && lower(name[start + 3]) == w3;
    proof {
        if !r {
            if ascii_lower(name@[start as int]) != w0 { assert(ascii_lower(e[0]) != seq![w0, w1, w2, w3][0]); }
            else if ascii_lower(name@[start + 1]) != w1 { assert(ascii_lower(e[1]) != seq![w0, w1, w2, w3][1]); }
            else if ascii_lower(name@[start + 2]) != w2 { assert(ascii_lower(e[2]) != seq![w0, w1, w2, w3][2]); }
            else { assert(ascii_lower(e[3]) != seq![w0, w1, w2, w3][3]); }
        }
    }
    r
}

/// Where the extension of a file name starts, if it has one.
fn extension_start(name: &[u8]) -> (start: Option<usize>)
    ensures
        start matches Some(s) ==> s <= name@.len() && extension_spec(name@) == Some(name@.subrange(s as int, name@.len() as int)),
        start is None ==> extension_spec(name@) is None,
{
    if name.len() == 2 && name[0] == 46u8 && name[1] == 46u8 {
        assert(name@ =~= seq![46u8, 46u8]);
        return None;
    }
    proof {
        if name@ == seq![46u8, 46u8] {
            assert(name@[0] == 46u8 && name@[1] == 46u8);
        }
    }
    match last_dot_exec(name) {
        Some(d) => {
            if d == 0 {
                None
            } else {
                Some(d + 1)
            }
        },
        None => None,
    }
}

fn is_animated_from(name: &[u8], s: usize) -> (r: bool)
    requires
        s <= name@.len(),
    ensures
        r == animated_ext(name@.subrange(s as int, name@.len() as int)),
{
    ext3(name, s, 109, 112, 52) || ext4(name, s, 119, 101, 98, 109) || ext3(name, s, 109, 107, 118)
        || ext3(name, s, 109, 111, 118) || ext3(name, s, 103, 105, 102)
}

/// Whether a file name carries a capture extension (png, jpg, jpeg, webp,
/// gif, mp4, webm, mkv or mov, in any ASCII case).
pub fn is_supported_capture_file(name: &[u8]) -> (r: bool)
    ensures
        r == is_supported_spec(name@),
{
    match extension_start(name) {
        Some(s) => ext3(name, s, 112, 110, 103) || ext3(name, s, 106, 112, 103) || ext4(
            name,
            s,
            106,
            112,
            101,
            103,
        ) || ext4(name, s, 119, 101, 98, 112) || is_animated_from(name, s),
        None => false,
    }
}

/// Whether a file name carries a recording extension (mp4, webm, mkv, mov
/// or gif, in any ASCII case).
pub fn is_animated_media(name: &[u8]) -> (r: bool)
    ensures
        r == is_animated_spec(name@),
{
    match extension_start(name) {
        Some(s) => is_animated_from(name, s),
        None => false,
    }
}

} // verus!

verus! {

/// Whether a listed entry is a capture the filter shows: a regular file with
/// a capture extension, a recording for the Recordings filter, not one for
/// the Screenshots filter, whose modification time is known.
pub open spec fn keeps(e: DirEntryInfo, filter: CaptureModeFilter) -> bool {
    &&& e.is_file
    &&& is_supported_spec(e.name@)
    &&& match filter {
        CaptureModeFilter::All => true,
        CaptureModeFilter::Screenshots => !is_animated_spec(e.name@),
        CaptureModeFilter::Recordings => is_animated_spec(e.name@),
    }
    &&& e.modified_at is Some
}

/// Which filters keep a regular file with a known time: a recording
/// (animated extension) shows under All and Recordings, another capture
/// under All and Screenshots, and a file without a capture extension, a
/// directory or a file of unknown time under none.
pub proof fn lemma_filters_keep(e: DirEntryInfo)
    ensures
        (e.is_file && e.modified_at is Some && is_animated_spec(e.name@)) ==> {
            &&& keeps(e, CaptureModeFilter::All)
            &&& keeps(e, CaptureModeFilter::Recordings)
            &&& !keeps(e, CaptureModeFilter::Screenshots)
        },
        (e.is_file && e.modified_at is Some && is_supported_spec(e.name@) && !is_animated_spec(e.name@)) ==> {
            &&& keeps(e, CaptureModeFilter::All)
            &&& !keeps(e, CaptureModeFilter::Recordings)
            &&& keeps(e, CaptureModeFilter::Screenshots)
        },
        (!e.is_file || e.modified_at is None || !is_supported_spec(e.name@)) ==> {
            &&& !keeps(e, CaptureModeFilter::All)
            &&& !keeps(e, CaptureModeFilter::Recordings)
            &&& !keeps(e, CaptureModeFilter::Screenshots)
        },
{
    if let Some(x) = extension_spec(e.name@) {
        lemma_capture_extensions(x);
    }
}

pub open spec fn entry_of(e: DirEntryInfo) -> RecentCaptureEntry {
    RecentCaptureEntry { path: e.path, name: e.name, file_name: e.display_name, modified_at: e.modified_at->0 }
}

/// The captures among listed entries, in listing order.
pub open spec fn captures_of(s: Seq<DirEntryInfo>, filter: CaptureModeFilter) -> Seq<RecentCaptureEntry>
    decreases s.len(),
{
    if s.len() == 0 {
        Seq::empty()
    } else if keeps(s.last(), filter) {
        captures_of(s.drop_last(), filter).push(entry_of(s.last()))
    } else {
        captures_of(s.drop_last(), filter)
    }
}

/// Where an entry modified at `key` goes in a newest-first list: after every
/// entry at least as new.
pub open spec fn insert_pos(t: Seq<RecentCaptureEntry>, key: i128) -> int
    decreases t.len(),
{
    if t.len() == 0 {
        0
    } else if t[0].modified_at < key {
        0
    } else {
        1 + insert_pos(t.drop_first(), key)
    }
}

/// Newest first; entries modified at the same time keep their listing order.
pub open spec fn sort_newest_first(s: Seq<RecentCaptureEntry>) -> Seq<RecentCaptureEntry>
    decreases s.len(),
{
    if s.len() == 0 {
        Seq::empty()
    } else {
        let t = sort_newest_first(s.drop_last());
        t.insert(insert_pos(t, s.last().modified_at), s.last())
    }
}

/// The captures shown for a listing: the filtered captures, newest first,
/// at most `limit` of them.
pub open spec fn shown_captures(s: Seq<DirEntryInfo>, filter: CaptureModeFilter, limit: int) -> Seq<
    RecentCaptureEntry,
> {
    let sorted = sort_newest_first(captures_of(s, filter));
    if sorted.len() <= limit {
        sorted
    } else {
        sorted.take(limit)
    }
}

/// `c` features the first shown capture and lists the others after it.
pub open spec fn collection_of(c: RecentCaptureCollection, shown: Seq<RecentCaptureEntry>) -> bool {
    if shown.len() == 0 {
        c.featured is None && c.remaining@.len() == 0
    } else {
        c.featured == Some(shown[0]) && c.remaining@ == shown.drop_first()
    }
}

pub open spec fn newest_first(t: Seq<RecentCaptureEntry>) -> bool {
    forall|a: int, b: int| 0 <= a < b < t.len() ==> #[trigger] t[a].modified_at >= #[trigger] t[b].modified_at
}

proof fn lemma_insert_pos(t: Seq<RecentCaptureEntry>, key: i128, p: int)
    requires
        0 <= p <= t.len(),
        forall|q: int| 0 <= q < p ==> #[trigger] t[q].modified_at >= key,
        p == t.len() || t[p].modified_at < key,
    ensures
        insert_pos(t, key) == p,
    decreases t.len(),
{
    if t.len() > 0 && p > 0 {
        assert(t[0].modified_at >= key);
        lemma_insert_pos(t.drop_first(), key, p - 1);
    }
}

/// Take the captures out of a directory listing: keep what `keeps` accepts,
/// order newest first (stably), and cap at `limit`; the newest becomes the
/// featured capture and the rest follow in order.
pub fn collect_recent_captures(
    entries: Vec<DirEntryInfo>,
    limit: usize,
    filter: CaptureModeFilter,
) -> (c: RecentCaptureCollection)
    ensures
        collection_of(c, shown_captures(entries@, filter, limit as int)),
{
    let ghost listing = entries@;
    let n = entries.len();
    let mut entries = entries;
    let mut captures: Vec<RecentCaptureEntry> = Vec::new();
    let mut consumed: usize = 0;
    while entries.len() > 0
        invariant
            entries@ == listing.skip(consumed as int),
            consumed <= listing.len(),
            listing.len() == n,
            captures@ == captures_of(listing.take(consumed as int), filter),
        decreases entries@.len(),
    {
        let e = entries.remove(0);
        proof {
            assert(e == listing[consumed as int]);
            assert(listing.take(consumed + 1).drop_last() =~= listing.take(consumed as int));
            assert(listing.take(consumed + 1).last() == e);
            assert(listing.skip(consumed + 1) =~= listing.skip(consumed as int).drop_first());
        }
        let keep = e.is_file && is_supported_capture_file(e.name.as_slice()) && match filter {
            CaptureModeFilter::All => true,
            CaptureModeFilter::Screenshots => !is_animated_media(e.name.as_slice()),
            CaptureModeFilter::Recordings => is_animated_media(e.name.as_slice()),
        } && e.modified_at.is_some();
        if keep {
            let modified_at = match e.modified_at {
                Some(t) => t,
                None => 0,
            };
            captures.push(RecentCaptureEntry { path: e.path, name: e.name, file_name: e.display_name, modified_at });
        }
        consumed = consumed + 1;
    }
    proof {
        assert(listing.take(consumed as int) =~= listing);
    }
    let ghost caps = captures@;
    let m = captures.len();
    let mut sorted: Vec<RecentCaptureEntry> = Vec::new();
    let mut done: usize = 0;
    while captures.len() > 0
        invariant
            captures@ == caps.skip(done as int),
            done <= caps.len(),
            caps.len() == m,
            sorted@ == sort_newest_first(caps.take(done as int)),
        decreases captures@.len(),
    {
        let c = captures.remove(0);
        proof {
            assert(c == caps[done as int]);
            assert(caps.take(done + 1).drop_last() =~= caps.take(done as int));
            assert(caps.take(done + 1).last() == c);
            assert(caps.skip(done + 1) =~= caps.skip(done as int).drop_first());
        }
        let mut p: usize = 0;
        while p < sorted.len() && sorted[p].modified_at >= c.modified_at
            invariant
                0 <= p <= sorted@.len(),
                forall|q: int| 0 <= q < p ==> #[trigger] sorted@[q].modified_at >= c.modified_at,
            decreases sorted@.len() - p,
        {
            p = p + 1;
        }
        proof {
            lemma_insert_pos(sorted@, c.modified_at, p as int);
        }
        sorted.insert(p, c);
        done = done + 1;
    }
    proof {
        assert(caps.take(done as int) =~= caps);
    }
    if sorted.len() > limit {
        sorted.truncate(limit);
    }
    if sorted.len() == 0 {
        return RecentCaptureCollection::empty();
    }
    let featured = sorted.remove(0);
    RecentCaptureCollection { featured: Some(featured), remaining: sorted }
}

/// Recent captures of the screenshot folder: none when the folder is unknown
/// or cannot be listed (`listing` is `None`), else the 13 newest captures
/// that pass `filter`.
pub fn discover_recent_captures(filter: CaptureModeFilter, listing: Option<Vec<DirEntryInfo>>) -> (c:
    RecentCaptureCollection)
    ensures
        match listing {
            None => c.featured is None && c.remaining@.len() == 0,
            Some(entries) => collection_of(
                c,
                shown_captures(entries@, filter, DEFAULT_RECENT_CAPTURE_LIMIT as int),
            ),
        },
{
    match listing {
        Some(entries) => collect_recent_captures(entries, DEFAULT_RECENT_CAPTURE_LIMIT, filter),
        None => RecentCaptureCollection::empty(),
    }
}

/// The folder recent captures are read from: the configured export location
/// when one is set, else the default capture folder when it can be resolved.
pub fn recent_capture_source_dir(export_location: String, default_dir: Option<String>) -> (dir: Option<
    String,
>)
    ensures
        dir == (if export_location@.len() > 0 {
            Some(export_location)
        } else {
            default_dir
        }),
{
    if !export_location.as_str().is_empty() {
        Some(export_location)
    } else {
        default_dir
    }
}

} // verus!

verus! {

proof fn lemma_insert_pos_bounds(t: Seq<RecentCaptureEntry>, key: i128)
    ensures
        0 <= insert_pos(t, key) <= t.len(),
        forall|q: int| 0 <= q < insert_pos(t, key) ==> #[trigger] t[q].modified_at >= key,
        insert_pos(t, key) == t.len() || t[insert_pos(t, key)].modified_at < key,
    decreases t.len(),
{
    if t.len() > 0 && t[0].modified_at >= key {
        lemma_insert_pos_bounds(t.drop_first(), key);
        assert forall|q: int| 0 <= q < insert_pos(t, key) implies #[trigger] t[q].modified_at >= key by {
            if q > 0 {
                assert(t[q] == t.drop_first()[q - 1]);
            }
        }
    }
}

/// Sorting newest first orders by modification time, newest first, and keeps
/// exactly the entries it was given.
pub proof fn lemma_sort_newest_first(s: Seq<RecentCaptureEntry>)
    ensures
        newest_first(sort_newest_first(s)),
        sort_newest_first(s).to_multiset() == s.to_multiset(),
        sort_newest_first(s).len() == s.len(),
    decreases s.len(),
{
    broadcast use vstd::seq_lib::to_multiset_insert, vstd::seq_lib::to_multiset_build;

    if s.len() > 0 {
        let t = sort_newest_first(s.drop_last());
        let x = s.last();
        lemma_sort_newest_first(s.drop_last());
        lemma_insert_pos_bounds(t, x.modified_at);
        let p = insert_pos(t, x.modified_at);
        let r = t.insert(p, x);
        assert forall|a: int, b: int| 0 <= a < b < r.len() implies #[trigger] r[a].modified_at
            >= #[trigger] r[b].modified_at by {
            if b < p {
                assert(r[a] == t[a] && r[b] == t[b]);
            } else if b == p {
                assert(r[a] == t[a]);
            } else if a < p {
                assert(r[a] == t[a] && r[b] == t[b - 1]);
                if a < b - 1 {
                    assert(t[a].modified_at >= t[b - 1].modified_at);
                }
            } else if a == p {
                assert(r[b] == t[b - 1]);
                if p < b - 1 {
                    assert(t[p].modified_at >= t[b - 1].modified_at);
                }
            } else {
                assert(r[a] == t[a - 1] && r[b] == t[b - 1]);
            }
        }
        assert(s =~= s.drop_last().push(x));
        assert(r.to_multiset() == t.to_multiset().insert(x));
        assert(s.drop_last().push(x).to_multiset() == s.drop_last().to_multiset().insert(x));
    } else {
        assert(s =~= Seq::<RecentCaptureEntry>::empty());
        assert(sort_newest_first(s) =~= Seq::<RecentCaptureEntry>::empty());
    }
}

/// `e` is the entry of a listed file that the filter keeps.
pub open spec fn from_listing(s: Seq<DirEntryInfo>, filter: CaptureModeFilter, e: RecentCaptureEntry) -> bool {
    exists|j: int| 0 <= j < s.len() && keeps(s[j], filter) && e == entry_of(#[trigger] s[j])
}

/// Every capture found in a listing is the entry of a listed file the
/// filter keeps.
pub proof fn lemma_captures_come_from_listing(s: Seq<DirEntryInfo>, filter: CaptureModeFilter)
    ensures
        forall|i: int|
            0 <= i < captures_of(s, filter).len() ==> from_listing(s, filter, #[trigger] captures_of(s, filter)[i]),
    decreases s.len(),
{
    if s.len() > 0 {
        let rest = captures_of(s.drop_last(), filter);
        lemma_captures_come_from_listing(s.drop_last(), filter);
        let cur = captures_of(s, filter);
        assert forall|i: int| 0 <= i < cur.len() implies from_listing(s, filter, #[trigger] cur[i]) by {
            if i < rest.len() {
                assert(cur[i] == rest[i]);
                assert(from_listing(s.drop_last(), filter, rest[i]));
                let j = choose|j: int|
                    0 <= j < s.drop_last().len() && keeps(s.drop_last()[j], filter) && rest[i]
                        == entry_of(#[trigger] s.drop_last()[j]);
                assert(s[j] == s.drop_last()[j]);
                assert(keeps(s[j], filter) && cur[i] == entry_of(s[j]));
            } else {
                let j = s.len() - 1;
                assert(cur[i] == entry_of(s[j]));
                assert(keeps(s[j], filter));
            }
        }
    } else {
        assert(captures_of(s, filter).len() == 0);
    }
}

/// What the recent-captures view shows: at most `limit` captures, newest
/// first, as many as the listing holds (up to `limit`), each one the entry
/// of a listed regular file that the filter keeps.
pub proof fn lemma_shown_captures(s: Seq<DirEntryInfo>, filter: CaptureModeFilter, limit: nat)
    ensures
        newest_first(shown_captures(s, filter, limit as int)),
        shown_captures(s, filter, limit as int).len() == if captures_of(s, filter).len() <= limit {
            captures_of(s, filter).len()
        } else {
            limit
        },
        forall|i: int|
            0 <= i < shown_captures(s, filter, limit as int).len() ==> from_listing(
                s,
                filter,
                #[trigger] shown_captures(s, filter, limit as int)[i],
            ),
{
    broadcast use vstd::seq_lib::to_multiset_contains;

    let caps = captures_of(s, filter);
    let sorted = sort_newest_first(caps);
    lemma_sort_newest_first(caps);
    lemma_captures_come_from_listing(s, filter);
    let shown = shown_captures(s, filter, limit as int);
    assert forall|a: int, b: int| 0 <= a < b < shown.len() implies #[trigger] shown[a].modified_at
        >= #[trigger] shown[b].modified_at by {
        assert(shown[a] == sorted[a] && shown[b] == sorted[b]);
    }
    assert forall|i: int| 0 <= i < shown.len() implies from_listing(s, filter, #[trigger] shown[i]) by {
        assert(shown[i] == sorted[i]);
        assert(sorted.contains(sorted[i]));
        assert(sorted.to_multiset().count(sorted[i]) > 0);
        assert(caps.to_multiset().count(sorted[i]) > 0);
        assert(caps.contains(sorted[i]));
        let k = choose|k: int| 0 <= k < caps.len() && caps[k] == sorted[i];
        assert(from_listing(s, filter, caps[k]));
    }
}

/// No two listed entries share a path.
pub open spec fn distinct_paths(s: Seq<DirEntryInfo>) -> bool {
    forall|i: int, j: int| 0 <= i < j < s.len() ==> #[trigger] s[i].path@ != #[trigger] s[j].path@
}

proof fn lemma_kept_entry_is_captured(s: Seq<DirEntryInfo>, filter: CaptureModeFilter, j: int)
    requires
        0 <= j < s.len(),
        keeps(s[j], filter),
    ensures
        captures_of(s, filter).contains(entry_of(s[j])),
    decreases s.len(),
{
    let rest = captures_of(s.drop_last(), filter);
    if j < s.len() - 1 {
        assert(s.drop_last()[j] == s[j]);
        lemma_kept_entry_is_captured(s.drop_last(), filter, j);
        let k = choose|k: int| 0 <= k < rest.len() && rest[k] == entry_of(s[j]);
        if keeps(s.last(), filter) {
            assert(captures_of(s, filter)[k] == rest[k]);
        } else {
            assert(captures_of(s, filter) == rest);
        }
    } else {
        let c = captures_of(s, filter);
        assert(c == rest.push(entry_of(s.last())));
        assert(c[c.len() - 1] == entry_of(s[j]));
    }
}

proof fn lemma_captured_paths_distinct(s: Seq<DirEntryInfo>, filter: CaptureModeFilter)
    requires
        distinct_paths(s),
    ensures
        forall|a: int, b: int|
            0 <= a < b < captures_of(s, filter).len() ==> #[trigger] captures_of(s, filter)[a].path@
                != #[trigger] captures_of(s, filter)[b].path@,
    decreases s.len(),
{
    if s.len() > 0 {
        let t = s.drop_last();
        let rest = captures_of(t, filter);
        assert(distinct_paths(t)) by {
            assert forall|i: int, j: int| 0 <= i < j < t.len() implies #[trigger] t[i].path@ != #[trigger] t[j].path@ by {
                assert(t[i] == s[i] && t[j] == s[j]);
            }
        }
        lemma_captured_paths_distinct(t, filter);
        lemma_captures_come_from_listing(t, filter);
        let c = captures_of(s, filter);
        if keeps(s.last(), filter) {
            assert forall|a: int, b: int| 0 <= a < b < c.len() implies #[trigger] c[a].path@ != #[trigger] c[b].path@ by {
                if b == c.len() - 1 {
                    assert(c[a] == rest[a]);
                    assert(from_listing(t, filter, rest[a]));
                    let j = choose|j: int| 0 <= j < t.len() && keeps(t[j], filter) && rest[a] == entry_of(#[trigger] t[j]);
                    assert(t[j] == s[j]);
                    assert(c[b] == entry_of(s[s.len() - 1]));
                    assert(s[j].path@ != s[s.len() - 1].path@);
                } else {
                    assert(c[a] == rest[a] && c[b] == rest[b]);
                }
            }
        }
    }
}

/// The shown captures are the newest: a kept capture of the listing that is
/// not shown was left out only because `limit` captures are shown, and it is
/// no newer than the last of them. When no two listed entries share a path,
/// no two shown captures do either.
pub proof fn lemma_left_out_captures_are_older(s: Seq<DirEntryInfo>, filter: CaptureModeFilter, limit: nat)
    ensures
        forall|e: RecentCaptureEntry|
            #[trigger] from_listing(s, filter, e) && !shown_captures(s, filter, limit as int).contains(e)
                ==> {
                &&& shown_captures(s, filter, limit as int).len() == limit
                &&& limit > 0 ==> e.modified_at <= shown_captures(s, filter, limit as int)[limit - 1].modified_at
            },
        distinct_paths(s) ==> forall|a: int, b: int|
            0 <= a < b < shown_captures(s, filter, limit as int).len() ==> #[trigger] shown_captures(
                s,
                filter,
                limit as int,
            )[a].path@ != #[trigger] shown_captures(s, filter, limit as int)[b].path@,
{
    broadcast use vstd::seq_lib::to_multiset_contains;

    let caps = captures_of(s, filter);
    let sorted = sort_newest_first(caps);
    let shown = shown_captures(s, filter, limit as int);
    lemma_sort_newest_first(caps);
    assert forall|e: RecentCaptureEntry| #[trigger] from_listing(s, filter, e) && !shown.contains(e) implies {
        &&& shown.len() == limit
        &&& limit > 0 ==> e.modified_at <= shown[limit - 1].modified_at
    } by {
        let j = choose|j: int| 0 <= j < s.len() && keeps(s[j], filter) && e == entry_of(#[trigger] s[j]);
        lemma_kept_entry_is_captured(s, filter, j);
        assert(caps.to_multiset().count(e) > 0);
        assert(sorted.to_multiset().count(e) > 0);
        assert(sorted.contains(e));
        let k = choose|k: int| 0 <= k < sorted.len() && sorted[k] == e;
        if k < limit {
            assert(shown[k] == sorted[k]);
            assert(shown.contains(e));
        }
        assert(sorted.len() > limit);
        assert(shown == sorted.take(limit as int));
        if limit > 0 {
            assert(shown[limit - 1] == sorted[limit - 1]);
            if limit - 1 < k {
                assert(sorted[limit - 1].modified_at >= sorted[k].modified_at);
            }
        }
    }
    if distinct_paths(s) {
        lemma_captured_paths_distinct(s, filter);
        assert(caps.no_duplicates()) by {
            assert forall|a: int, b: int| 0 <= a < caps.len() && 0 <= b < caps.len() && a != b implies caps[a]
                != caps[b] by {
                if a < b {
                    assert(caps[a].path@ != caps[b].path@);
                } else {
                    assert(caps[b].path@ != caps[a].path@);
                }
            }
        }
        caps.lemma_multiset_has_no_duplicates();
        sorted.lemma_multiset_has_no_duplicates_conv();
        assert forall|a: int, b: int| 0 <= a < b < shown.len() implies #[trigger] shown[a].path@ != #[trigger] shown[b].path@ by {
            assert(shown[a] == sorted[a] && shown[b] == sorted[b]);
            assert(sorted[a] != sorted[b]);
            assert(sorted.to_multiset().count(sorted[a]) > 0);
            assert(caps.contains(sorted[a]));
            assert(sorted.to_multiset().count(sorted[b]) > 0);
            assert(caps.contains(sorted[b]));
            let ka = choose|k: int| 0 <= k < caps.len() && caps[k] == sorted[a];
            let kb = choose|k: int| 0 <= k < caps.len() && caps[k] == sorted[b];
            assert(ka != kb);
            if ka < kb {
                assert(caps[ka].path@ != caps[kb].path@);
            } else {
                assert(caps[kb].path@ != caps[ka].path@);
            }
        }
    }
}

} // verus!

verus! {

/// ASCII uppercase of one character; other characters are unchanged.
pub open spec fn ascii_upper(c: char) -> char {
    if 'a' <= c && c <= 'z' {
        ((c as u32) - 32) as char
    } else {
        c
    }
}

pub open spec fn ascii_upper_chars(s: Seq<char>) -> Seq<char> {
    Seq::new(s.len(), |i: int| ascii_upper(s[i]))
}

/// How a capture card names a file's type: its extension in ASCII capitals
/// when it has one that is valid UTF-8, else `FILE`.
pub open spec fn type_label(name: Seq<u8>) -> Seq<char> {
    match extension_spec(name) {
        Some(e) => if vstd::utf8::valid_utf8(e) {
            ascii_upper_chars(vstd::utf8::decode_utf8(e))
        } else {
            "FILE"@
        },
        None => "FILE"@,
    }
}

/// The card's one-line description: the type label, then `recording` for
/// animated media and `screenshot` for everything else.
pub open spec fn capture_meta_spec(name: Seq<u8>) -> Seq<char> {
    type_label(name) + if is_animated_spec(name) {
        " recording"@
    } else {
        " screenshot"@
    }
}

pub open spec fn supporting_copy_tail() -> Seq<char> {
    ". Float it in the overlay, open the saved file directly, or reveal it in the folder."@
}

/// Calls `std::str::from_utf8`: the bytes as text exactly when they are
/// valid UTF-8 (the text's encoding is then the bytes themselves).
#[verifier::external_body]
fn utf8_text(bytes: &[u8]) -> (text: Option<&str>)
    ensures
        text is Some <==> vstd::utf8::valid_utf8(bytes@),
        text matches Some(t) ==> vstd::utf8::encode_utf8(t@) == bytes@,
{
    std::str::from_utf8(bytes).ok()
}

/// Calls `String::push`: appends one character.
#[verifier::external_body]
fn push_char(s: &mut String, c: char)
    ensures
        final(s)@ == old(s)@.push(c),
{
    s.push(c);
}

fn upper(c: char) -> (u: char)
    ensures
        u == ascii_upper(c),
{
    if 'a' <= c && c <= 'z' {
        let b: u8 = ((c as u32) - 32) as u8;
        b as char
    } else {
        c
    }
}

/// The one-line description of a capture on its card: `PNG screenshot`,
/// `MP4 recording`, `FILE screenshot` for a name without a readable
/// extension.
pub fn format_capture_meta(entry: &RecentCaptureEntry) -> (meta: String)
    ensures
        meta@ == capture_meta_spec(entry.name@),
{
    let name = entry.name.as_slice();
    let mut label = String::new();
    let mut has_ext = false;
    if let Some(start) = extension_start(name) {
        let ext = vstd::slice::slice_subrange(name, start, name.len());
        if let Some(text) = utf8_text(ext) {
            proof {
                vstd::utf8::encode_utf8_decode_utf8(text@);
            }
            let n = text.unicode_len();
            let mut i: usize = 0;
            while i < n
                invariant
                    0 <= i <= n,
                    n == text@.len(),
                    label@ == ascii_upper_chars(text@).take(i as int),
                decreases n - i,
            {
                let c = text.get_char(i);
                let u = upper(c);
                proof {
                    assert(ascii_upper_chars(text@).take(i + 1) =~= ascii_upper_chars(text@).take(i as int).push(u));
                }
                push_char(&mut label, u);
                i = i + 1;
            }
            proof {
                assert(ascii_upper_chars(text@).take(n as int) =~= ascii_upper_chars(text@));
            }
            has_ext = true;
        }
    }
    if !has_ext {
        label = String::from_str("FILE");
        proof {
            reveal_strlit("FILE");
        }
    }
    if is_animated_media(name) {
        label.append(" recording");
    } else {
        label.append(" screenshot");
    }
    label
}

/// The description under the featured capture: its one-line description
/// followed by what can be done with it.
pub fn format_capture_supporting_copy(entry: &RecentCaptureEntry) -> (copy: String)
    ensures
        copy@ == capture_meta_spec(entry.name@) + supporting_copy_tail(),
{
    let mut copy = format_capture_meta(entry);
    copy.append(". Float it in the overlay, open the saved file directly, or reveal it in the folder.");
    copy
}

/// What the window calls its items under a filter.
pub open spec fn collection_noun(filter: CaptureModeFilter) -> Seq<char> {
    if filter is Recordings {
        "recording"@
    } else {
        "screenshot"@
    }
}

fn collection_noun_str(filter: CaptureModeFilter) -> (noun: &'static str)
    ensures
        noun@ == collection_noun(filter),
{
    match filter {
        CaptureModeFilter::Recordings => "recording",
        _ => "screenshot",
    }
}

/// The status bar's text: how many captures are shown (`1 recent
/// screenshot`, `3 recent recordings`), or that none were found.
pub open spec fn status_spec(filter: CaptureModeFilter, c: RecentCaptureCollection) -> Seq<char> {
    if c.featured is Some {
        crate::capture_menu::decimal_spec((1 + c.remaining@.len()) as nat) + " recent "@ + collection_noun(
            filter,
        ) + if c.remaining@.len() == 0 {
            ""@
        } else {
            "s"@
        }
    } else {
        "No "@ + collection_noun(filter) + "s found yet"@
    }
}

/// The status bar's text for the captures found under `filter`.
pub fn recent_captures_status(filter: CaptureModeFilter, collection: &RecentCaptureCollection) -> (text: String)
    requires
        collection.remaining@.len() < usize::MAX,
    ensures
        text@ == status_spec(filter, *collection),
{
    let noun = collection_noun_str(filter);
    if collection.featured.is_some() {
        let mut text = crate::capture_menu::decimal_text(1 + collection.remaining.len());
        text.append(" recent ");
        text.append(noun);
        if collection.remaining.len() > 0 {
            text.append("s");
        } else {
            proof {
                reveal_strlit("");
            }
            assert(text@ + ""@ =~= text@);
        }
        text
    } else {
        let mut text = String::from_str("No ");
        text.append(noun);
        text.append("s found yet");
        text
    }
}

/// The header's subtitle: the folder being browsed, the folder being
/// watched while it holds no captures, or that no folder is known.
pub open spec fn header_subtitle_spec(source_dir: Option<Seq<char>>, has_results: bool, filter: CaptureModeFilter) -> Seq<
    char,
> {
    match source_dir {
        Some(dir) => if has_results {
            "Browsing "@ + dir
        } else {
            "Watching "@ + dir + " for saved "@ + collection_noun(filter) + "s"@
        },
        None => "Capture save location is unavailable on this system"@,
    }
}

pub fn header_subtitle(source_dir: Option<&str>, has_results: bool, filter: CaptureModeFilter) -> (text: String)
    ensures
        text@ == header_subtitle_spec(
            match source_dir {
                Some(d) => Some(d@),
                None => None,
            },
            has_results,
            filter,
        ),
{
    match source_dir {
        Some(dir) => {
            if has_results {
                let mut text = String::from_str("Browsing ");
                text.append(dir);
                text
            } else {
                let mut text = String::from_str("Watching ");
                text.append(dir);
                text.append(" for saved ");
                text.append(collection_noun_str(filter));
                text.append("s");
                text
            }
        },
        None => String::from_str("Capture save location is unavailable on this system"),
    }
}

/// Title and detail shown when no capture was found.
pub open spec fn empty_state_spec(source_dir: Option<Seq<char>>, filter: CaptureModeFilter) -> (Seq<char>, Seq<char>) {
    if filter is Recordings {
        (
            "Video Recording is Coming Soon!"@,
            "The ability to screen record natively within ApexShot is currently in development and will arrive in a future update."@,
        )
    } else {
        (
            "No saved screenshots yet"@,
            match source_dir {
                Some(dir) => "Save a screenshot and it will appear here. Current location: "@ + dir,
                None => "ApexShot could not resolve a screenshot location on this system."@,
            },
        )
    }
}

pub fn empty_state_text(source_dir: Option<&str>, filter: CaptureModeFilter) -> (text: (String, String))
    ensures
        (text.0@, text.1@) == empty_state_spec(
            match source_dir {
                Some(d) => Some(d@),
                None => None,
            },
            filter,
        ),
{
    match filter {
        CaptureModeFilter::Recordings => (
            String::from_str("Video Recording is Coming Soon!"),
            String::from_str(
                "The ability to screen record natively within ApexShot is currently in development and will arrive in a future update.",
            ),
        ),
        _ => {
            let detail = match source_dir {
                Some(dir) => {
                    let mut d = String::from_str("Save a screenshot and it will appear here. Current location: ");
                    d.append(dir);
                    d
                },
                None => String::from_str("ApexShot could not resolve a screenshot location on this system."),
            };
            (String::from_str("No saved screenshots yet"), detail)
        },
    }
}

} // verus!
