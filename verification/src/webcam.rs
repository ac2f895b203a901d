//! Webcam device discovery (`/dev/videoN` nodes) and preview frames.

use vstd::prelude::*;

verus! {

pub open spec fn is_digit(b: u8) -> bool {
    48 <= b <= 57
}

/// Every byte of `d` is a decimal digit.
pub open spec fn all_digits(d: Seq<u8>) -> bool {
    forall|i: int| 0 <= i < d.len() ==> is_digit(#[trigger] d[i])
}

/// Value of a run of decimal digits.
pub open spec fn digits_value(s: Seq<u8>) -> int
    decreases s.len(),
{
    if s.len() == 0 {
        0
    } else {
        digits_value(s.drop_last()) * 10 + (s.last() - 48)
    }
}

/// `s` as a decimal `i32`, the way `str::parse::<i32>` reads it: an optional
/// `+` or `-`, then one or more digits, within the range of `i32`.
pub open spec fn parse_i32_spec(s: Seq<u8>) -> Option<i32> {
    let negative = s.len() > 0 && s[0] == 45u8;
    let signed = s.len() > 0 && (s[0] == 45u8 || s[0] == 43u8);
    let digits = if signed { s.drop_first() } else { s };
    if digits.len() == 0 || !all_digits(digits) {
        None
    } else {
        let v = if negative { -digits_value(digits) } else { digits_value(digits) };
        if i32::MIN <= v <= i32::MAX {
            Some(v as i32)
        } else {
            None
        }
    }
}

/// The prefix `video`.
pub open spec fn video_prefix() -> Seq<u8> {
    seq![118u8, 105u8, 100u8, 101u8, 111u8]
}

/// The device number of a `/dev` entry named `video<N>`.
pub open spec fn video_index_spec(name: Seq<u8>) -> Option<i32> {
    if name.len() >= 5 && name.take(5) == video_prefix() {
        parse_i32_spec(name.skip(5))
    } else {
        None
    }
}

proof fn lemma_digits_value_step(s: Seq<u8>, i: int)
    requires
        0 <= i < s.len(),
    ensures
        digits_value(s.take(i + 1)) == digits_value(s.take(i)) * 10 + (s[i] - 48),
{
    assert(s.take(i + 1).drop_last() =~= s.take(i));
}

proof fn lemma_digits_value_monotone(s: Seq<u8>, i: int)
    requires
        0 <= i <= s.len(),
        forall|j: int| 0 <= j < s.len() ==> is_digit(#[trigger] s[j]),
    ensures
        digits_value(s.take(i)) <= digits_value(s),
        0 <= digits_value(s.take(i)),
    decreases s.len() - i,
{
    if i < s.len() {
        lemma_digits_value_monotone(s, i + 1);
        lemma_digits_value_step(s, i);
    } else {
        assert(s.take(i) =~= s);
    }
    lemma_digits_nonneg(s.take(i));
}

proof fn lemma_digits_nonneg(s: Seq<u8>)
    requires
        forall|j: int| 0 <= j < s.len() ==> is_digit(#[trigger] s[j]),
    ensures
        0 <= digits_value(s),
    decreases s.len(),
{
    if s.len() > 0 {
        lemma_digits_nonneg(s.drop_last());
    }
}

/// Read `s[start..]` as `str::parse::<i32>` does.
fn parse_i32_from(s: &[u8], start: usize) -> (r: Option<i32>)
    requires
        start <= s@.len(),
    ensures
        r == parse_i32_spec(s@.skip(start as int)),
{
    let ghost t = s@.skip(start as int);
    let n = s.len();
    if start == n {
        return None;
    }
    let negative = s[start] == 45u8;
    let signed = negative || s[start] == 43u8;
    let first = if signed { start + 1 } else { start };
    let ghost digits = if signed { t.drop_first() } else { t };
    proof {
        assert(t[0] == s@[start as int]);
        assert(digits =~= s@.skip(first as int));
    }
    if first == n {
        return None;
    }
    let mut acc: u64 = 0;
    let mut i = first;
    while i < n
        invariant
            first <= i <= n,
            first < n,
            n == s@.len(),
            t == s@.skip(start as int),
            t.len() > 0,
            negative == (t[0] == 45u8),
            signed == (t[0] == 45u8 || t[0] == 43u8),
            digits == (if signed { t.drop_first() } else { t }),
            digits =~= s@.skip(first as int),
            forall|j: int| first <= j < i ==> is_digit(#[trigger] s@[j]),
            acc == digits_value(digits.take(i - first)),
            acc <= 2147483648,
        decreases n - i,
    {
        if s[i] < 48 || s[i] > 57 {
            proof {
                assert(digits[i - first] == s@[i as int]);
                assert(!is_digit(digits[i - first]));
                assert(!all_digits(digits));
                assert(parse_i32_spec(t) is None);
            }
            return None;
        }
        proof {
            lemma_digits_value_step(digits, i - first);
            assert(digits[i - first] == s@[i as int]);
        }
        let next = acc * 10 + (s[i] - 48) as u64;
        if next > 2147483648 {
            // Every further digit keeps the value out of range.
            let mut k = i + 1;
            while k < n
                invariant
                    first <= i < k <= n,
                    n == s@.len(),
                    t == s@.skip(start as int),
                    t.len() > 0,
                    negative == (t[0] == 45u8),
                    signed == (t[0] == 45u8 || t[0] == 43u8),
                    digits == (if signed { t.drop_first() } else { t }),
                    digits =~= s@.skip(first as int),
                    forall|j: int| first <= j < k ==> is_digit(#[trigger] s@[j]),
                decreases n - k,
            {
                if s[k] < 48 || s[k] > 57 {
                    proof {
                        assert(digits[k - first] == s@[k as int]);
                        assert(!is_digit(digits[k - first]));
                        assert(!all_digits(digits));
                        assert(parse_i32_spec(t) is None);
                    }
                    return None;
                }
                k = k + 1;
            }
            proof {
                assert forall|j: int| 0 <= j < digits.len() implies is_digit(#[trigger] digits[j]) by {
                    assert(digits[j] == s@[first + j]);
                }
                lemma_digits_value_monotone(digits, i - first + 1);
                assert(digits_value(digits) > 2147483648);
                assert(parse_i32_spec(t) is None);
            }
            return None;
        }
        acc = next;
        i = i + 1;
    }
    proof {
        assert(digits.take(n - first) =~= digits);
        assert forall|j: int| 0 <= j < digits.len() implies is_digit(#[trigger] digits[j]) by {
            assert(digits[j] == s@[first + j]);
        }
    }
    if negative {
        Some((0 - acc as i64) as i32)
    } else if acc <= 2147483647 {
        Some(acc as i32)
    } else {
        None
    }
}

/// The device number of a `/dev` entry named `video<N>` (`N` read as
/// `str::parse::<i32>` reads it), or `None` for other entries.
pub fn parse_video_index(name: &[u8]) -> (idx: Option<i32>)
    ensures
        idx == video_index_spec(name@),
{
    if name.len() < 5 {
        return None;
    }
    let is_video = name[0] == 118u8 && name[1] == 105u8 && name[2] == 100u8 && name[3] == 101u8 && name[4]
        == 111u8;
    proof {
        if is_video {
            assert(name@.take(5) =~= video_prefix());
        } else {
            assert(name@.take(5) != video_prefix()) by {
                if name@.take(5) == video_prefix() {
                    assert(name@.take(5)[0] == name@[0]);
                    assert(name@.take(5)[1] == name@[1]);
                    assert(name@.take(5)[2] == name@[2]);
                    assert(name@.take(5)[3] == name@[3]);
                    assert(name@.take(5)[4] == name@[4]);
                }
            }
        }
    }
    if !is_video {
        return None;
    }
    parse_i32_from(name, 5)
}

} // verus!

verus! {

/// Video device numbers found among `/dev` entry names, in listing order.
pub open spec fn listed_indices(names: Seq<Vec<u8>>) -> Seq<i32>
    decreases names.len(),
{
    if names.len() == 0 {
        Seq::empty()
    } else {
        match video_index_spec(names.last()@) {
            Some(i) => listed_indices(names.drop_last()).push(i),
            None => listed_indices(names.drop_last()),
        }
    }
}

pub open spec fn ascending(s: Seq<i32>) -> bool {
    forall|a: int, b: int| 0 <= a < b < s.len() ==> #[trigger] s[a] <= #[trigger] s[b]
}

/// The device numbers of the `video<N>` entries among `/dev` entry names,
/// in ascending order.
pub fn webcam_indices(names: Vec<Vec<u8>>) -> (devices: Vec<i32>)
    ensures
        ascending(devices@),
        devices@.to_multiset() == listed_indices(names@).to_multiset(),
{
    broadcast use vstd::seq_lib::to_multiset_insert, vstd::seq_lib::to_multiset_build;

    let n = names.len();
    let mut devices: Vec<i32> = Vec::new();
    let mut i: usize = 0;
    while i < n
        invariant
            0 <= i <= n,
            n == names@.len(),
            ascending(devices@),
            devices@.to_multiset() == listed_indices(names@.take(i as int)).to_multiset(),
        decreases n - i,
    {
        let parsed = parse_video_index(names[i].as_slice());
        proof {
            assert(names@.take(i + 1).drop_last() =~= names@.take(i as int));
            assert(names@.take(i + 1).last() == names@[i as int]);
        }
        if let Some(idx) = parsed {
            let mut p: usize = 0;
            while p < devices.len() && devices[p] <= idx
                invariant
                    0 <= p <= devices@.len(),
                    forall|q: int| 0 <= q < p ==> #[trigger] devices@[q] <= idx,
                decreases devices@.len() - p,
            {
                p = p + 1;
            }
            let ghost before = devices@;
            devices.insert(p, idx);
            proof {
                assert(devices@ == before.insert(p as int, idx));
                assert forall|a: int, b: int| 0 <= a < b < devices@.len() implies #[trigger] devices@[a]
                    <= #[trigger] devices@[b] by {
                    if b < p {
                        assert(devices@[a] == before[a] && devices@[b] == before[b]);
                    } else if b == p {
                        assert(devices@[a] == before[a]);
                    } else if a < p {
                        assert(devices@[a] == before[a] && devices@[b] == before[b - 1]);
                        if a < b - 1 {
                            assert(before[a] <= before[b - 1]);
                        }
                    } else if a == p {
                        assert(devices@[b] == before[b - 1]);
                        assert(before[p as int] > idx);
                        if p < b - 1 {
                            assert(before[p as int] <= before[b - 1]);
                        }
                    } else {
                        assert(devices@[a] == before[a - 1] && devices@[b] == before[b - 1]);
                    }
                }
                vstd::seq_lib::to_multiset_insert(before, p as int, idx);
                vstd::seq_lib::to_multiset_build(listed_indices(names@.take(i as int)), idx);
                assert(devices@.to_multiset() == before.to_multiset().insert(idx));
                assert(listed_indices(names@.take(i + 1)) == listed_indices(names@.take(i as int)).push(idx));
                assert(listed_indices(names@.take(i as int)).push(idx).to_multiset()
                    == listed_indices(names@.take(i as int)).to_multiset().insert(idx));
            }
        } else {
            assert(listed_indices(names@.take(i + 1)) == listed_indices(names@.take(i as int)));
        }
        i = i + 1;
    }
    proof {
        assert(names@.take(n as int) =~= names@);
    }
    devices
}

/// `name` contains the lowercase ASCII word `word`, ignoring ASCII case.
pub open spec fn contains_ci(name: Seq<u8>, word: Seq<u8>) -> bool {
    exists|i: int|
        0 <= i && i + word.len() <= name.len() && #[trigger] matches_ci_at(name, word, i)
}

pub open spec fn matches_ci_at(name: Seq<u8>, word: Seq<u8>, i: int) -> bool {
    forall|k: int| 0 <= k < word.len() ==> crate::recent_captures::ascii_lower(#[trigger] name[i + k]) == word[k]
}

/// The word `metadata`.
pub open spec fn metadata_word() -> Seq<u8> {
    seq![109u8, 101u8, 116u8, 97u8, 100u8, 97u8, 116u8, 97u8]
}

fn lower(b: u8) -> (r: u8)
    ensures
        r == crate::recent_captures::ascii_lower(b),
{
    if 65 <= b && b <= 90 {
        b + 32
    } else {
        b
    }
}

fn metadata_byte(k: usize) -> (b: u8)
    requires
        k < 8,
    ensures
        b == metadata_word()[k as int],
{
    match k {
        0 => 109,
        1 => 101,
        2 => 116,
        3 => 97,
        4 => 100,
        5 => 97,
        6 => 116,
        _ => 97,
    }
}

/// A node whose sysfs name contains `metadata` (lowercase, or written in
/// capitals) is never a capture device; a node that does not exist never
/// is; an existing node without a name always is.
pub proof fn lemma_capture_device_rules(name: Seq<u8>, j: int)
    requires
        0 <= j,
        j + 8 <= name.len(),
    ensures
        name.subrange(j, j + 8) == seq![109u8, 101u8, 116u8, 97u8, 100u8, 97u8, 116u8, 97u8] ==> contains_ci(
            name,
            metadata_word(),
        ),
        name.subrange(j, j + 8) == seq![77u8, 69u8, 84u8, 65u8, 68u8, 65u8, 84u8, 65u8] ==> contains_ci(
            name,
            metadata_word(),
        ),
        forall|p: WebcamProbe| !p.node_exists ==> !#[trigger] probe_is_capture(p),
        forall|p: WebcamProbe| p.node_exists && p.name is None ==> #[trigger] probe_is_capture(p),
{
    let lower_word = seq![109u8, 101u8, 116u8, 97u8, 100u8, 97u8, 116u8, 97u8];
    let upper_word = seq![77u8, 69u8, 84u8, 65u8, 68u8, 65u8, 84u8, 65u8];
    if name.subrange(j, j + 8) == lower_word || name.subrange(j, j + 8) == upper_word {
        assert forall|k: int| 0 <= k < 8 implies crate::recent_captures::ascii_lower(#[trigger] name[j + k])
            == metadata_word()[k] by {
            assert(name[j + k] == name.subrange(j, j + 8)[k]);
        }
        assert(matches_ci_at(name, metadata_word(), j));
    }
}

/// A `/dev` entry named `video` followed by decimal digits is video node
/// number `digits` (when it fits an `i32`); an entry not starting with
/// `video` is no video node.
pub proof fn lemma_video_node_names(d: Seq<u8>, other: Seq<u8>)
    requires
        d.len() > 0,
        all_digits(d),
        digits_value(d) <= i32::MAX,
    ensures
        video_index_spec(seq![118u8, 105u8, 100u8, 101u8, 111u8] + d) == Some(digits_value(d) as i32),
        !(other.len() >= 5 && other.take(5) == seq![118u8, 105u8, 100u8, 101u8, 111u8]) ==> video_index_spec(
            other,
        ) is None,
{
    let name = seq![118u8, 105u8, 100u8, 101u8, 111u8] + d;
    assert(name.take(5) =~= video_prefix());
    assert(name.skip(5) =~= d);
    assert(!(d[0] == 45u8 || d[0] == 43u8)) by {
        assert(is_digit(d[0]));
    }
    lemma_digits_nonneg(d);
    if !(other.len() >= 5 && other.take(5) == seq![118u8, 105u8, 100u8, 101u8, 111u8]) {
        if other.len() >= 5 && other.take(5) == video_prefix() {
            assert(video_prefix() =~= seq![118u8, 105u8, 100u8, 101u8, 111u8]);
        }
    }
}

fn contains_metadata(name: &[u8]) -> (r: bool)
    ensures
        r == contains_ci(name@, metadata_word()),
{
    let n = name.len();
    if n < 8 {
        return false;
    }
    let mut i: usize = 0;
    while i <= n - 8
        invariant
            n == name@.len(),
            n >= 8,
            i <= n - 7,
            forall|j: int| 0 <= j < i ==> !#[trigger] matches_ci_at(name@, metadata_word(), j),
        decreases n - i,
    {
        let mut k: usize = 0;
        while k < 8 && lower(name[i + k]) == metadata_byte(k)
            invariant
                i + 8 <= n,
                n == name@.len(),
                0 <= k <= 8,
                forall|q: int| 0 <= q < k ==> crate::recent_captures::ascii_lower(#[trigger] name@[i + q]) == metadata_word()[q],
            decreases 8 - k,
        {
            k = k + 1;
        }
        if k == 8 {
            assert(matches_ci_at(name@, metadata_word(), i as int));
            return true;
        }
        assert(crate::recent_captures::ascii_lower(name@[i + k]) != metadata_word()[k as int]);
        i = i + 1;
    }
    false
}

/// A video node is a capture device unless its sysfs name mentions
/// `metadata` (in any ASCII case); the node itself must exist.
pub fn is_capture_device(name: &Option<Vec<u8>>, node_exists: bool) -> (r: bool)
    ensures
        r == (!(name matches Some(n) && contains_ci(n@, metadata_word())) && node_exists),
{
    if let Some(n) = name {
        if contains_metadata(n.as_slice()) {
            return false;
        }
    }
    node_exists
}

/// The decimal digits of `n`, as ASCII bytes.
pub open spec fn decimal_bytes(n: nat) -> Seq<u8>
    decreases n,
{
    if n < 10 {
        seq![(48 + n) as u8]
    } else {
        decimal_bytes(n / 10) + seq![(48 + n % 10) as u8]
    }
}

/// `/dev/video` followed by the device number (with a `-` when negative).
pub open spec fn node_path(index: i32) -> Seq<u8> {
    seq![47u8, 100u8, 101u8, 118u8, 47u8, 118u8, 105u8, 100u8, 101u8, 111u8] + if index < 0 {
        seq![45u8] + decimal_bytes((-index) as nat)
    } else {
        decimal_bytes(index as nat)
    }
}

fn decimal_vec(n: u32) -> (d: Vec<u8>)
    ensures
        d@ == decimal_bytes(n as nat),
{
    let mut digits: Vec<u8> = Vec::new();
    let mut m = n;
    while m >= 10
        invariant
            decimal_bytes(n as nat) == decimal_bytes(m as nat) + digits@,
        decreases m,
    {
        let ghost old_digits = digits@;
        digits.insert(0, (48 + m % 10) as u8);
        proof {
            assert(decimal_bytes(m as nat) == decimal_bytes((m / 10) as nat) + seq![(48 + m % 10) as u8]);
            assert(digits@ =~= seq![(48 + m % 10) as u8] + old_digits);
        }
        m = m / 10;
    }
    let ghost old_digits = digits@;
    digits.insert(0, (48 + m) as u8);
    proof {
        assert(digits@ =~= seq![(48 + m) as u8] + old_digits);
    }
    digits
}

/// The name a device is told apart by: its sysfs name when it has one,
/// else its `/dev/video<N>` path.
pub fn device_key(index: i32, name: &Option<Vec<u8>>) -> (key: Vec<u8>)
    ensures
        key@ == (match name {
            Some(n) => n@,
            None => node_path(index),
        }),
{
    match name {
        Some(n) => n.clone(),
        None => {
            let mut key: Vec<u8> = vec![47u8, 100u8, 101u8, 118u8, 47u8, 118u8, 105u8, 100u8, 101u8, 111u8];
            let ghost prefix = key@;
            let magnitude: u32 = if index < 0 {
                key.push(45u8);
                (0 - index as i64) as u32
            } else {
                index as u32
            };
            let ghost with_sign = key@;
            let mut digits = decimal_vec(magnitude);
            key.append(&mut digits);
            proof {
                assert(prefix =~= seq![47u8, 100u8, 101u8, 118u8, 47u8, 118u8, 105u8, 100u8, 101u8, 111u8]);
                if index < 0 {
                    assert(with_sign =~= prefix + seq![45u8]);
                    assert(key@ =~= prefix + (seq![45u8] + decimal_bytes((-index) as nat)));
                } else {
                    assert(key@ =~= prefix + decimal_bytes(index as nat));
                }
            }
            key
        },
    }
}

/// What probing a video node found: its number, its trimmed sysfs name when
/// it has a non-empty one, and whether the `/dev` node exists.
#[derive(Debug)]
pub struct WebcamProbe {
    pub index: i32,
    pub name: Option<Vec<u8>>,
    pub node_exists: bool,
}

pub open spec fn probe_is_capture(p: WebcamProbe) -> bool {
    !(p.name matches Some(n) && contains_ci(n@, metadata_word())) && p.node_exists
}

pub open spec fn probe_key(p: WebcamProbe) -> Seq<u8> {
    match p.name {
        Some(n) => n@,
        None => node_path(p.index),
    }
}

/// Keys of the capture devices among probes.
pub open spec fn capture_keys(s: Seq<WebcamProbe>) -> Seq<Seq<u8>>
    decreases s.len(),
{
    if s.len() == 0 {
        Seq::empty()
    } else if probe_is_capture(s.last()) {
        capture_keys(s.drop_last()).push(probe_key(s.last()))
    } else {
        capture_keys(s.drop_last())
    }
}

/// The capture devices among probes, the first of each name only, in probe
/// order.
pub open spec fn usable_devices(s: Seq<WebcamProbe>) -> Seq<i32>
    decreases s.len(),
{
    if s.len() == 0 {
        Seq::empty()
    } else if probe_is_capture(s.last()) && !capture_keys(s.drop_last()).contains(probe_key(s.last())) {
        usable_devices(s.drop_last()).push(s.last().index)
    } else {
        usable_devices(s.drop_last())
    }
}

/// Probe `i` is offered: it is a capture device whose name no earlier
/// capture device carries.
pub open spec fn offered(s: Seq<WebcamProbe>, i: int) -> bool {
    probe_is_capture(s[i]) && !capture_keys(s.take(i)).contains(probe_key(s[i]))
}

proof fn lemma_earlier_key_seen(s: Seq<WebcamProbe>, i: int, j: int)
    requires
        0 <= i < j <= s.len(),
        probe_is_capture(s[i]),
    ensures
        capture_keys(s.take(j)).contains(probe_key(s[i])),
    decreases j,
{
    let t = s.take(j);
    assert(t.drop_last() =~= s.take(j - 1));
    if j == i + 1 {
        assert(t.last() == s[i]);
        assert(capture_keys(t) == capture_keys(s.take(i)).push(probe_key(s[i])));
        assert(capture_keys(t)[capture_keys(t).len() - 1] == probe_key(s[i]));
    } else {
        lemma_earlier_key_seen(s, i, j - 1);
        let prev = capture_keys(s.take(j - 1));
        let q = choose|q: int| 0 <= q < prev.len() && prev[q] == probe_key(s[i]);
        if probe_is_capture(t.last()) {
            assert(capture_keys(t) == prev.push(probe_key(t.last())));
            assert(capture_keys(t)[q] == probe_key(s[i]));
        } else {
            assert(capture_keys(t) == prev);
        }
    }
}

/// The webcam list grows by a probe exactly when that probe is offered.
pub proof fn lemma_usable_devices_step(s: Seq<WebcamProbe>)
    requires
        s.len() > 0,
    ensures
        usable_devices(s) == if offered(s, s.len() - 1) {
            usable_devices(s.drop_last()).push(s.last().index)
        } else {
            usable_devices(s.drop_last())
        },
{
    assert(s.take(s.len() - 1) =~= s.drop_last());
}

/// No two offered webcams share a device name: of several capture devices
/// with one name only the first is offered.
pub proof fn lemma_offered_names_distinct(s: Seq<WebcamProbe>, i: int, j: int)
    requires
        0 <= i < j < s.len(),
        offered(s, i),
        offered(s, j),
    ensures
        probe_key(s[i]) != probe_key(s[j]),
{
    lemma_earlier_key_seen(s, i, j);
}

fn bytes_eq(a: &Vec<u8>, b: &Vec<u8>) -> (r: bool)
    ensures
        r == (a@ == b@),
{
    if a.len() != b.len() {
        return false;
    }
    let mut i: usize = 0;
    while i < a.len()
        invariant
            a@.len() == b@.len(),
            0 <= i <= a@.len(),
            forall|j: int| 0 <= j < i ==> a@[j] == b@[j],
        decreases a@.len() - i,
    {
        if a[i] != b[i] {
            return false;
        }
        i = i + 1;
    }
    assert(a@ =~= b@);
    true
}

/// The webcams to offer, from probes of the video nodes in ascending order:
/// nodes that are capture devices, one per device name (the first wins).
pub fn usable_webcam_devices(probes: Vec<WebcamProbe>) -> (devices: Vec<i32>)
    ensures
        devices@ == usable_devices(probes@),
{
    let n = probes.len();
    let mut seen: Vec<Vec<u8>> = Vec::new();
    let mut devices: Vec<i32> = Vec::new();
    let mut i: usize = 0;
    while i < n
        invariant
            0 <= i <= n,
            n == probes@.len(),
            seen@.len() == capture_keys(probes@.take(i as int)).len(),
            forall|j: int| 0 <= j < seen@.len() ==> #[trigger] seen@[j]@ == capture_keys(probes@.take(i as int))[j],
            devices@ == usable_devices(probes@.take(i as int)),
        decreases n - i,
    {
        let probe = &probes[i];
        let ghost pre = probes@.take(i as int);
        proof {
            assert(probes@.take(i + 1).drop_last() =~= pre);
            assert(probes@.take(i + 1).last() == probes@[i as int]);
        }
        if is_capture_device(&probe.name, probe.node_exists) {
            let key = device_key(probe.index, &probe.name);
            let mut found = false;
            let mut j: usize = 0;
            while j < seen.len()
                invariant
                    0 <= j <= seen@.len(),
                    found == (exists|q: int| 0 <= q < j && #[trigger] seen@[q]@ == key@),
                decreases seen@.len() - j,
            {
                if bytes_eq(&seen[j], &key) {
                    found = true;
                }
                j = j + 1;
            }
            proof {
                let keys = capture_keys(pre);
                if found {
                    let q = choose|q: int| 0 <= q < seen@.len() && #[trigger] seen@[q]@ == key@;
                    assert(keys[q] == key@);
                    assert(keys.contains(key@));
                } else {
                    assert(!keys.contains(key@)) by {
                        if keys.contains(key@) {
                            let q = choose|q: int| 0 <= q < keys.len() && keys[q] == key@;
                            assert(seen@[q]@ == key@);
                        }
                    }
                }
            }
            let ghost old_seen = seen@;
            if !found {
                devices.push(probe.index);
            }
            seen.push(key);
            proof {
                let keys = capture_keys(probes@.take(i + 1));
                assert(keys == capture_keys(pre).push(probe_key(probes@[i as int])));
                assert forall|q: int| 0 <= q < seen@.len() implies #[trigger] seen@[q]@ == keys[q] by {
                    if q < old_seen.len() {
                        assert(seen@[q] == old_seen[q]);
                    }
                }
            }
        }
        i = i + 1;
    }
    proof {
        assert(probes@.take(n as int) =~= probes@);
    }
    devices
}

/// The first offered webcam, if any.
pub fn first_webcam_device(devices: &Vec<i32>) -> (d: Option<i32>)
    ensures
        d == (if devices@.len() > 0 {
            Some(devices@[0])
        } else {
            None
        }),
{
    if devices.len() > 0 {
        Some(devices[0])
    } else {
        None
    }
}

/// A webcam preview frame: BGRA pixels (Cairo ARGB32 on little-endian).
#[derive(Debug, Clone)]
pub struct WebcamFrame {
    pub width: i32,
    pub height: i32,
    pub bgra: Vec<u8>,
}

/// Turn a sample of the camera pipeline into a preview frame: `None` unless
/// the size is positive and the sample holds `width * height` BGRA pixels;
/// otherwise the first `width * height * 4` bytes with alpha forced opaque.
pub fn webcam_frame(width: i32, height: i32, data: &[u8]) -> (frame: Option<WebcamFrame>)
    requires
        width * height * 4 <= usize::MAX,
    ensures
        frame is Some <==> (width > 0 && height > 0 && data@.len() >= width * height * 4),
        frame matches Some(f) ==> {
            &&& f.width == width
            &&& f.height == height
            &&& f.bgra@.len() == width * height * 4
            &&& forall|i: int|
                0 <= i < f.bgra@.len() ==> #[trigger] f.bgra@[i] == if i % 4 == 3 {
                    255u8
                } else {
                    data@[i]
                }
        },
{
    if width <= 0 || height <= 0 {
        return None;
    }
    proof {
        assert(0 < width * height) by (nonlinear_arith)
            requires
                width > 0,
                height > 0,
        ;
    }
    let len = width as usize * height as usize * 4;
    if data.len() < len {
        return None;
    }
    let mut bgra: Vec<u8> = Vec::with_capacity(len);
    let mut i: usize = 0;
    while i < len
        invariant
            0 <= i <= len,
            len <= data@.len(),
            bgra@.len() == i,
            forall|j: int| 0 <= j < i ==> #[trigger] bgra@[j] == if j % 4 == 3 { 255u8 } else { data@[j] },
        decreases len - i,
    {
        if i % 4 == 3 {
            bgra.push(255);
        } else {
            bgra.push(data[i]);
        }
        i = i + 1;
    }
    Some(WebcamFrame { width, height, bgra })
}

} // verus!
