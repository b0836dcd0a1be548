//! What ffprobe reports about a media file, as plain values.
use vstd::prelude::*;
use vstd::string::*;
use crate::text::{chars_eq_str, chars_of, str_eq};

verus! {

/// The views of a list of key/value string pairs.
pub open spec fn pair_views(v: Seq<(String, String)>) -> Seq<(Seq<char>, Seq<char>)> {
    v.map_values(|p: (String, String)| (p.0@, p.1@))
}

/// String tags in strictly ascending key order, as ffprobe reports them.
#[derive(Debug)]
pub struct Tags {
    pub(crate) entries: Vec<(String, String)>,
}

/// `c` with ASCII upper-case letters folded to lower case.
pub open spec fn ascii_lower(c: char) -> char {
    if 'A' <= c <= 'Z' {
        ((c as u32) + 32) as char
    } else {
        c
    }
}

/// `str::eq_ignore_ascii_case`.
pub open spec fn same_ignoring_ascii_case(a: Seq<char>, b: Seq<char>) -> bool {
    a.len() == b.len() && forall|i: int| 0 <= i < a.len() ==> ascii_lower(#[trigger] a[i]) == ascii_lower(b[i])
}

/// Lexicographic order on character sequences, as `String`'s `Ord` orders them.
pub open spec fn text_below(a: Seq<char>, b: Seq<char>) -> bool
    decreases a.len(),
{
    if a.len() == 0 {
        b.len() > 0
    } else if b.len() == 0 {
        false
    } else if a[0] != b[0] {
        (a[0] as u32) < (b[0] as u32)
    } else {
        text_below(a.drop_first(), b.drop_first())
    }
}

/// The first position of key `k` in `e`, or `e.len()` when absent.
pub open spec fn key_position(e: Seq<(Seq<char>, Seq<char>)>, k: Seq<char>) -> nat
    decreases e.len(),
{
    if e.len() == 0 {
        0
    } else if e[0].0 == k {
        0
    } else {
        1 + key_position(e.drop_first(), k)
    }
}

/// The value stored under key `k`.
pub open spec fn lookup(e: Seq<(Seq<char>, Seq<char>)>, k: Seq<char>) -> Option<Seq<char>> {
    let i = key_position(e, k);
    if i < e.len() {
        Some(e[i as int].1)
    } else {
        None
    }
}

/// Whether some key of `e` equals `k` ignoring ASCII case.
pub open spec fn has_key_ignoring_case(e: Seq<(Seq<char>, Seq<char>)>, k: Seq<char>) -> bool {
    exists|i: int| 0 <= i < e.len() && same_ignoring_ascii_case(#[trigger] e[i].0, k)
}

/// The number of keys of `e` that lie below `k`.
pub open spec fn insert_position(e: Seq<(Seq<char>, Seq<char>)>, k: Seq<char>) -> nat
    decreases e.len(),
{
    if e.len() == 0 {
        0
    } else if text_below(e[0].0, k) {
        1 + insert_position(e.drop_first(), k)
    } else {
        0
    }
}

proof fn lemma_key_position_bound(e: Seq<(Seq<char>, Seq<char>)>, k: Seq<char>)
    ensures
        key_position(e, k) <= e.len(),
        key_position(e, k) < e.len() ==> e[key_position(e, k) as int].0 == k,
        forall|j: int| 0 <= j < key_position(e, k) ==> e[j].0 != k,
    decreases e.len(),
{
    if e.len() > 0 && e[0].0 != k {
        lemma_key_position_bound(e.drop_first(), k);
        assert forall|j: int| 0 <= j < key_position(e, k) implies e[j].0 != k by {
            if j > 0 {
                assert(e[j] == e.drop_first()[j - 1]);
            }
        }
    }
}

proof fn lemma_insert_position_bound(e: Seq<(Seq<char>, Seq<char>)>, k: Seq<char>)
    ensures
        insert_position(e, k) <= e.len(),
    decreases e.len(),
{
    if e.len() > 0 && text_below(e[0].0, k) {
        lemma_insert_position_bound(e.drop_first(), k);
    }
}

/// No text orders below itself.
pub proof fn lemma_below_irreflexive(a: Seq<char>)
    ensures
        !text_below(a, a),
    decreases a.len(),
{
    if a.len() > 0 {
        lemma_below_irreflexive(a.drop_first());
    }
}

/// The order of texts is transitive.
pub proof fn lemma_below_transitive(a: Seq<char>, b: Seq<char>, c: Seq<char>)
    requires
        text_below(a, b),
        text_below(b, c),
    ensures
        text_below(a, c),
    decreases a.len(),
{
    if a.len() > 0 && a[0] == b[0] && b[0] == c[0] {
        lemma_below_transitive(a.drop_first(), b.drop_first(), c.drop_first());
    }
}

/// Two different texts are ordered one way or the other.
pub proof fn lemma_below_total(a: Seq<char>, b: Seq<char>)
    requires
        a != b,
    ensures
        text_below(a, b) || text_below(b, a),
    decreases a.len(),
{
    if a.len() > 0 && b.len() > 0 {
        if a[0] == b[0] {
            if a.drop_first() == b.drop_first() {
                assert(a =~= seq![a[0]] + a.drop_first());
                assert(b =~= seq![b[0]] + b.drop_first());
            }
            lemma_below_total(a.drop_first(), b.drop_first());
        } else {
            let (x, y) = (a[0], b[0]);
            if (x as u32) == (y as u32) {
                vstd::utf8::char_u32_cast(x, x as u32);
                vstd::utf8::char_u32_cast(y, y as u32);
            }
        }
    } else if a.len() == 0 && b.len() == 0 {
        assert(a =~= b);
    }
}

/// Whether the keys of `e` ascend strictly: in order, and none twice.
pub open spec fn keys_ascending(e: Seq<(Seq<char>, Seq<char>)>) -> bool {
    forall|i: int, j: int| 0 <= i < j < e.len() ==> text_below(#[trigger] e[i].0, #[trigger] e[j].0)
}

/// `e` with `value` stored under `k`: the entry with that key takes the new value,
/// or a new entry goes before the first key that does not order below `k`.
pub open spec fn tags_insert(e: Seq<(Seq<char>, Seq<char>)>, k: Seq<char>, value: Seq<char>) -> Seq<
    (Seq<char>, Seq<char>),
> {
    let p = insert_position(e, k);
    if p < e.len() && e[p as int].0 == k {
        e.update(p as int, (k, value))
    } else {
        e.insert(p as int, (k, value))
    }
}

proof fn lemma_insert_position_facts(e: Seq<(Seq<char>, Seq<char>)>, k: Seq<char>)
    ensures
        insert_position(e, k) <= e.len(),
        forall|j: int| 0 <= j < insert_position(e, k) ==> text_below(#[trigger] e[j].0, k),
        insert_position(e, k) < e.len() ==> !text_below(e[insert_position(e, k) as int].0, k),
    decreases e.len(),
{
    if e.len() > 0 && text_below(e[0].0, k) {
        lemma_insert_position_facts(e.drop_first(), k);
        assert forall|j: int| 0 <= j < insert_position(e, k) implies text_below(#[trigger] e[j].0, k) by {
            if j > 0 {
                assert(e[j] == e.drop_first()[j - 1]);
            }
        }
    }
}

/// Storing a key keeps the keys ascending; reading the key gives back the value
/// stored, and every other key reads as before.
pub proof fn lemma_tags_insert(e: Seq<(Seq<char>, Seq<char>)>, k: Seq<char>, value: Seq<char>)
    requires
        keys_ascending(e),
    ensures
        keys_ascending(tags_insert(e, k, value)),
        lookup(tags_insert(e, k, value), k) == Some(value),
        forall|other: Seq<char>| other != k ==> lookup(tags_insert(e, k, value), other) == lookup(e, other),
{
    let p = insert_position(e, k) as int;
    let f = tags_insert(e, k, value);
    lemma_insert_position_facts(e, k);
    // The key at `p`, when it is not `k`, orders above `k`, and so do all after it.
    assert forall|j: int| p <= j < e.len() && e[j].0 != k implies text_below(k, #[trigger] e[j].0) by {
        if e[p].0 == k {
            assert(text_below(e[p].0, e[j].0));
        } else {
            lemma_below_total(e[p].0, k);
            if j > p {
                lemma_below_transitive(k, e[p].0, e[j].0);
            }
        }
    }
    assert forall|i: int, j: int| 0 <= i < j < f.len() implies text_below(#[trigger] f[i].0, #[trigger] f[j].0) by {
        if p < e.len() && e[p].0 == k {
            if i == p {
                assert(text_below(e[i].0, e[j].0));
            } else if j == p {
                assert(text_below(e[i].0, e[j].0));
            } else {
                assert(text_below(e[i].0, e[j].0));
            }
        } else {
            if i < p && j == p {
            } else if i < p && j > p {
                assert(f[i] == e[i] && f[j] == e[j - 1]);
                assert(text_below(e[i].0, e[j - 1].0));
            } else if i == p {
                assert(f[j] == e[j - 1]);
                if e[j - 1].0 == k {
                    assert(p <= j - 1);
                    assert(text_below(e[p].0, e[j - 1].0) || p == j - 1);
                }
            } else if i > p {
                assert(f[i] == e[i - 1] && f[j] == e[j - 1]);
                assert(text_below(e[i - 1].0, e[j - 1].0));
            } else {
                assert(f[i] == e[i] && f[j] == e[j]);
                assert(text_below(e[i].0, e[j].0));
            }
        }
    }
    // Reading back.
    lemma_key_position_bound(f, k);
    assert(f[p].0 == k);
    assert forall|j: int| 0 <= j < p implies f[j].0 != k by {
        assert(f[j] == e[j]);
        lemma_below_irreflexive(k);
    }
    if key_position(f, k) < p {
        assert(f[key_position(f, k) as int].0 != k);
    }
    if key_position(f, k) > p {
        assert(f[p].0 != k);
    }
    assert forall|other: Seq<char>| other != k implies lookup(f, other) == lookup(e, other) by {
        lemma_key_position_bound(f, other);
        lemma_key_position_bound(e, other);
        lemma_lookup_unique(e, other);
        lemma_lookup_unique(f, other);
        let q = key_position(e, other) as int;
        if q < e.len() {
            // `other` sits at `q` in `e`, and at the matching position in `f`.
            let r = if q < p || (p < e.len() && e[p].0 == k) { q } else { q + 1 };
            assert(f[r] == e[q]);
        }
        if key_position(f, other) < f.len() {
            let r = key_position(f, other) as int;
            let q = if r < p || (p < e.len() && e[p].0 == k) { r } else { r - 1 };
            assert(r != p || (p < e.len() && e[p].0 == k));
            assert(e[q] == f[r]);
        }
    }
}

/// In ascending keys, a key stands at one position only.
proof fn lemma_lookup_unique(e: Seq<(Seq<char>, Seq<char>)>, k: Seq<char>)
    requires
        keys_ascending(e),
    ensures
        forall|i: int| 0 <= i < e.len() && (#[trigger] e[i]).0 == k ==> key_position(e, k) == i,
{
    lemma_key_position_bound(e, k);
    assert forall|i: int| 0 <= i < e.len() && (#[trigger] e[i]).0 == k implies key_position(e, k) == i by {
        let q = key_position(e, k) as int;
        if q < i {
            assert(text_below(e[q].0, e[i].0));
            lemma_below_irreflexive(k);
        }
    }
}

/// ASCII lower-casing of one character.
pub fn lower_char(c: char) -> (r: char)
    ensures
        r == ascii_lower(c),
{
    if 'A' <= c && c <= 'Z' {
        let b: u8 = (c as u32) as u8;
        ((b + 32) as char)
    } else {
        c
    }
}

/// `str::eq_ignore_ascii_case` on two strings.
pub fn eq_ignoring_ascii_case(a: &str, b: &str) -> (r: bool)
    ensures
        r == same_ignoring_ascii_case(a@, b@),
{
    let x = chars_of(a);
    let y = chars_of(b);
    if x.len() != y.len() {
        return false;
    }
    let mut i: usize = 0;
    while i < x.len()
        invariant
            x@ == a@,
            y@ == b@,
            x@.len() == y@.len(),
            i <= x@.len(),
            forall|j: int| 0 <= j < i ==> ascii_lower(#[trigger] x@[j]) == ascii_lower(y@[j]),
        decreases x@.len() - i,
    {
        if lower_char(x[i]) != lower_char(y[i]) {
            return false;
        }
        i += 1;
    }
    true
}

/// Whether `a` orders below `b`.
pub fn text_is_below(a: &[char], b: &[char]) -> (r: bool)
    ensures
        r == text_below(a@, b@),
{
    let mut i: usize = 0;
    assert(a@.skip(0) =~= a@);
    assert(b@.skip(0) =~= b@);
    while i < a.len() && i < b.len()
        invariant
            i <= a@.len(),
            i <= b@.len(),
            forall|j: int| 0 <= j < i ==> a@[j] == b@[j],
            text_below(a@, b@) == text_below(a@.skip(i as int), b@.skip(i as int)),
        decreases a@.len() - i,
    {
        if a[i] != b[i] {
            proof {
                assert(a@.skip(i as int)[0] == a@[i as int]);
                assert(b@.skip(i as int)[0] == b@[i as int]);
            }
            return (a[i] as u32) < (b[i] as u32);
        }
        proof {
            assert(a@.skip(i as int).drop_first() =~= a@.skip(i + 1));
            assert(b@.skip(i as int).drop_first() =~= b@.skip(i + 1));
        }
        i += 1;
    }
    i == a.len() && i < b.len()
}

impl Tags {
    /// The tags as key/value character sequences, in order.
    pub open(crate) spec fn view_pairs(&self) -> Seq<(Seq<char>, Seq<char>)> {
        pair_views(self.entries@)
    }

    /// The keys ascend strictly: in order, and none twice.
    #[verifier::type_invariant]
    spec fn ascending(&self) -> bool {
        keys_ascending(self.view_pairs())
    }

    /// The key/value pairs, keys ascending.
    pub fn entries(&self) -> (r: &Vec<(String, String)>)
        ensures
            pair_views(r@) == self.view_pairs(),
    {
        &self.entries
    }

    /// No tags.
    pub fn new() -> (t: Tags)
        ensures
            t.view_pairs() == Seq::<(Seq<char>, Seq<char>)>::empty(),
    {
        let t = Tags { entries: Vec::new() };
        assert(t.view_pairs() =~= Seq::<(Seq<char>, Seq<char>)>::empty());
        t
    }

    /// A copy of the tags.
    pub fn duplicate(&self) -> (t: Tags)
        ensures
            t.view_pairs() == self.view_pairs(),
    {
        proof {
            use_type_invariant(self);
        }
        let mut entries: Vec<(String, String)> = Vec::new();
        let mut i: usize = 0;
        while i < self.entries.len()
            invariant
                i <= self.entries@.len(),
                entries@.len() == i,
                pair_views(entries@) =~= pair_views(self.entries@).take(i as int),
            decreases self.entries@.len() - i,
        {
            let k = self.entries[i].0.clone();
            let v = self.entries[i].1.clone();
            let ghost before = entries@;
            entries.push((k, v));
            assert(entries@ == before.push((k, v)));
            assert forall|j: int| 0 <= j < i + 1 implies #[trigger] pair_views(entries@)[j]
                == pair_views(self.entries@)[j] by {
                if j < i {
                    assert(entries@[j] == before[j]);
                    assert(pair_views(before)[j] == pair_views(self.entries@).take(i as int)[j]);
                } else {
                    assert(entries@[j] == (k, v));
                    assert(k@ == self.entries@[j].0@);
                    assert(v@ == self.entries@[j].1@);
                }
            }
            assert(pair_views(entries@) =~= pair_views(self.entries@).take(i + 1));
            i += 1;
        }
        Tags { entries }
    }

    /// The value stored under `key`.
    pub fn get(&self, key: &str) -> (r: Option<&String>)
        ensures
            r matches Some(v) ==> lookup(self.view_pairs(), key@) == Some(v@),
            r is None ==> lookup(self.view_pairs(), key@) is None,
    {
        proof {
            lemma_key_position_bound(self.view_pairs(), key@);
        }
        let mut i: usize = 0;
        while i < self.entries.len()
            invariant
                i <= self.entries@.len(),
                key_position(self.view_pairs(), key@) >= i,
                key_position(self.view_pairs(), key@) <= self.view_pairs().len(),
                key_position(self.view_pairs(), key@) < self.view_pairs().len() ==> self.view_pairs()[key_position(self.view_pairs(), key@) as int].0 == key@,
                forall|j: int| 0 <= j < key_position(self.view_pairs(), key@) ==> self.view_pairs()[j].0 != key@,
            decreases self.entries@.len() - i,
        {
            if str_eq(self.entries[i].0.as_str(), key) {
                assert(self.view_pairs()[i as int].0 == key@);
                return Some(&self.entries[i].1);
            }
            assert(self.view_pairs()[i as int].0 != key@);
            i += 1;
        }
        None
    }

    /// Whether some key equals `key` ignoring ASCII case.
    pub fn has_key_ignoring_case(&self, key: &str) -> (r: bool)
        ensures
            r == has_key_ignoring_case(self.view_pairs(), key@),
    {
        let mut i: usize = 0;
        while i < self.entries.len()
            invariant
                i <= self.entries@.len(),
                forall|j: int| 0 <= j < i ==> !same_ignoring_ascii_case(#[trigger] self.view_pairs()[j].0, key@),
            decreases self.entries@.len() - i,
        {
            if eq_ignoring_ascii_case(self.entries[i].0.as_str(), key) {
                assert(same_ignoring_ascii_case(self.view_pairs()[i as int].0, key@));
                return true;
            }
            i += 1;
        }
        false
    }

    /// Stores `value` under `key`: an entry with that key takes the new value, or a
    /// new entry goes where its key orders, so the keys stay ascending.
    pub fn insert(&mut self, key: String, value: String)
        ensures
            final(self).view_pairs() == tags_insert(old(self).view_pairs(), key@, value@),
            keys_ascending(final(self).view_pairs()),
            lookup(final(self).view_pairs(), key@) == Some(value@),
    {
        proof {
            use_type_invariant(&*self);
        }
        let ghost e = self.view_pairs();
        let mut entries: Vec<(String, String)> = Vec::new();
        std::mem::swap(&mut entries, &mut self.entries);
        assert(pair_views(entries@) == e);
        proof {
            lemma_insert_position_bound(e, key@);
            lemma_tags_insert(e, key@, value@);
        }
        let kc = chars_of(key.as_str());
        let mut i: usize = 0;
        assert(e.skip(0) =~= e);
        while i < entries.len()
            invariant
                pair_views(entries@) == e,
                kc@ == key@,
                i <= e.len(),
                insert_position(e, key@) == i + insert_position(e.skip(i as int), key@),
            ensures
                pair_views(entries@) == e,
                i <= e.len(),
                insert_position(e, key@) == i + insert_position(e.skip(i as int), key@),
                insert_position(e.skip(i as int), key@) == 0,
            decreases e.len() - i,
        {
            let ec = chars_of(entries[i].0.as_str());
            if !text_is_below(ec.as_slice(), kc.as_slice()) {
                proof {
                    assert(e.skip(i as int)[0] == e[i as int]);
                    assert(e[i as int].0 == ec@);
                    assert(insert_position(e.skip(i as int), key@) == 0);
                }
                break;
            }
            proof {
                assert(e.skip(i as int)[0] == e[i as int]);
                assert(e.skip(i as int).drop_first() =~= e.skip(i + 1));
            }
            i += 1;
        }
        proof {
            if i == e.len() {
                assert(e.skip(i as int).len() == 0);
            }
            assert(insert_position(e.skip(i as int), key@) == 0);
        }
        let same = i < entries.len() && str_eq(entries[i].0.as_str(), key.as_str());
        if same {
            proof {
                assert(e[i as int].0 == key@);
            }
            entries.set(i, (key, value));
            assert(pair_views(entries@) =~= e.update(i as int, (key@, value@)));
        } else {
            proof {
                if i < e.len() {
                    assert(e[i as int].0 == entries@[i as int].0@);
                }
            }
            entries.insert(i, (key, value));
            assert(pair_views(entries@) =~= e.insert(i as int, (key@, value@)));
        }
        self.entries = entries;
    }
}

/// The subsampling of a pixel format's chroma planes.
#[derive(Debug, Clone, Copy, PartialEq, Eq, Structural)]
pub enum Chroma {
    Yuv { log2_width: u8, log2_height: u8 },
    Rgb,
    Gray,
}

/// The sample layout of a pixel format: per-component depths, chroma and alpha.
#[derive(Debug)]
pub struct VideoSamples {
    pub component_depths: Vec<u8>,
    pub chroma: Chroma,
    pub alpha: bool,
}

/// ffprobe's flags of a pixel format.
#[derive(Debug, Clone, Copy)]
pub struct PixelFormatFlags {
    pub rgb: u8,
    pub alpha: u8,
    pub palette: u8,
    pub hwaccel: u8,
}

/// One component of a pixel format.
#[derive(Debug, Clone, Copy)]
pub struct PixelComponent {
    pub bit_depth: u8,
}

/// A pixel format descriptor as ffprobe reports it.
#[derive(Debug)]
pub struct PixelFormat {
    pub name: String,
    pub nb_components: u8,
    pub log2_chroma_w: Option<u8>,
    pub log2_chroma_h: Option<u8>,
    pub flags: PixelFormatFlags,
    pub components: Vec<PixelComponent>,
}

/// The bit depths of a list of components.
pub open spec fn depths(c: Seq<PixelComponent>) -> Seq<u8> {
    c.map_values(|x: PixelComponent| x.bit_depth)
}

/// The chroma layout of `p`, or `None` when its planes are not plain samples.
pub open spec fn chroma_of(p: PixelFormat) -> Option<Chroma> {
    let alpha: int = if p.flags.alpha != 0 { 1 } else { 0 };
    let planes = p.nb_components - alpha;
    if planes == 1 {
        Some(Chroma::Gray)
    } else if planes == 3 && p.flags.rgb != 0 {
        Some(Chroma::Rgb)
    } else if planes == 3 {
        match (p.log2_chroma_w, p.log2_chroma_h) {
            (Some(w), Some(h)) => Some(Chroma::Yuv { log2_width: w, log2_height: h }),
            _ => None,
        }
    } else {
        None
    }
}

/// The sample layout of `p` (depths, chroma, alpha), as `PixelFormat::samples` reports it.
pub open spec fn samples_of(p: PixelFormat) -> Option<(Seq<u8>, Chroma, bool)> {
    if p.flags.hwaccel != 0 || p.flags.palette != 0 {
        None
    } else {
        match chroma_of(p) {
            Some(c) => Some((depths(p.components@), c, p.flags.alpha != 0)),
            None => None,
        }
    }
}

impl VideoSamples {
    /// The layout as a plain value.
    pub open spec fn layout(&self) -> (Seq<u8>, Chroma, bool) {
        (self.component_depths@, self.chroma, self.alpha)
    }

    /// Whether two layouts are the same.
    pub fn same_as(&self, other: &VideoSamples) -> (r: bool)
        ensures
            r == (self.layout() == other.layout()),
    {
        if self.chroma != other.chroma || self.alpha != other.alpha {
            return false;
        }
        let a = &self.component_depths;
        let b = &other.component_depths;
        if a.len() != b.len() {
            assert(self.layout().0.len() != other.layout().0.len());
            return false;
        }
        let mut i: usize = 0;
        while i < a.len()
            invariant
                a@ == self.component_depths@,
                b@ == other.component_depths@,
                a@.len() == b@.len(),
                i <= a@.len(),
                forall|j: int| 0 <= j < i ==> a@[j] == b@[j],
            decreases a@.len() - i,
        {
            if a[i] != b[i] {
                assert(self.layout().0[i as int] != other.layout().0[i as int]);
                return false;
            }
            i += 1;
        }
        assert(a@ =~= b@);
        true
    }
}

impl PixelFormat {
    /// The sample layout, or `None` for hardware, palette and unusual formats.
    pub fn samples(&self) -> (r: Option<VideoSamples>)
        ensures
            r matches Some(s) ==> samples_of(*self) == Some(s.layout()),
            r is None ==> samples_of(*self) is None,
    {
        if self.flags.hwaccel != 0 || self.flags.palette != 0 {
            return None;
        }
        let alpha = self.flags.alpha != 0;
        let a: u8 = if alpha { 1 } else { 0 };
        if self.nb_components < a {
            return None;
        }
        let planes: u8 = self.nb_components - a;
        let chroma = if planes == 1 {
            Chroma::Gray
        } else if planes == 3 && self.flags.rgb != 0 {
            Chroma::Rgb
        } else if planes == 3 {
            match (self.log2_chroma_w, self.log2_chroma_h) {
                (Some(w), Some(h)) => Chroma::Yuv { log2_width: w, log2_height: h },
                _ => return None,
            }
        } else {
            return None;
        };
        let mut component_depths: Vec<u8> = Vec::new();
        let mut i: usize = 0;
        while i < self.components.len()
            invariant
                i <= self.components@.len(),
                component_depths@ =~= depths(self.components@).take(i as int),
            decreases self.components@.len() - i,
        {
            component_depths.push(self.components[i].bit_depth);
            i += 1;
        }
        Some(VideoSamples { component_depths, chroma, alpha })
    }
}

/// One side-data record of a stream: its type and its other members as JSON text.
#[derive(Debug)]
pub struct SideData {
    pub side_data_type: Option<String>,
    pub extra: Tags,
}

/// One stream of a media file, as ffprobe reports it.
#[derive(Debug)]
pub struct MediaStream {
    pub index: usize,
    pub codec_name: Option<String>,
    pub codec_long_name: Option<String>,
    pub profile: Option<String>,
    pub codec_type: Option<String>,
    pub codec_tag_string: Option<String>,
    pub width: Option<u32>,
    pub height: Option<u32>,
    pub sample_aspect_ratio: Option<String>,
    pub display_aspect_ratio: Option<String>,
    pub pix_fmt: Option<String>,
    pub level: Option<i64>,
    pub color_range: Option<String>,
    pub color_space: Option<String>,
    pub color_transfer: Option<String>,
    pub color_primaries: Option<String>,
    pub chroma_location: Option<String>,
    pub field_order: Option<String>,
    pub r_frame_rate: Option<String>,
    pub avg_frame_rate: Option<String>,
    pub time_base: Option<String>,
    pub start_time: Option<String>,
    pub duration: Option<String>,
    pub bit_rate: Option<String>,
    pub sample_fmt: Option<String>,
    pub sample_rate: Option<String>,
    pub channels: Option<u32>,
    pub channel_layout: Option<String>,
    pub bits_per_sample: Option<u32>,
    pub bits_per_raw_sample: Option<String>,
    pub extradata_size: Option<u64>,
    pub extradata_hash: Option<String>,
    pub disposition: Vec<(String, i32)>,
    pub tags: Tags,
    pub side_data_list: Vec<SideData>,
}

/// The view of an optional string.
pub open spec fn opt_view(o: Option<String>) -> Option<Seq<char>> {
    match o {
        Some(s) => Some(s@),
        None => None,
    }
}

/// The first value of `key` among integer-valued pairs, or 0.
pub open spec fn flag_value(d: Seq<(String, i32)>, key: Seq<char>) -> i32
    decreases d.len(),
{
    if d.len() == 0 {
        0
    } else if d[0].0@ == key {
        d[0].1
    } else {
        flag_value(d.drop_first(), key)
    }
}

/// Whether `s` is a timed video stream rather than an attached picture.
pub open spec fn regular_video(s: MediaStream) -> bool {
    opt_view(s.codec_type) == Some("video"@) && flag_value(s.disposition@, "attached_pic"@) == 0
}

/// The kind a stream is reported under: its codec type, `cover` for attached
/// pictures, `unknown` without a type.
pub open spec fn stream_kind(s: MediaStream) -> Seq<char> {
    if opt_view(s.codec_type) == Some("video"@) && !regular_video(s) {
        "cover"@
    } else {
        match opt_view(s.codec_type) {
            Some(t) => t,
            None => "unknown"@,
        }
    }
}

/// Whether an optional string holds `lit`.
pub fn opt_is(o: &Option<String>, lit: &str) -> (r: bool)
    ensures
        r == (opt_view(*o) == Some(lit@)),
{
    match o {
        Some(s) => str_eq(s.as_str(), lit),
        None => false,
    }
}

/// The first value of `key` among integer-valued pairs, or 0.
pub fn flag_of(d: &Vec<(String, i32)>, key: &str) -> (r: i32)
    ensures
        r == flag_value(d@, key@),
{
    let mut i: usize = 0;
    assert(d@.skip(0) =~= d@);
    while i < d.len()
        invariant
            i <= d@.len(),
            flag_value(d@, key@) == flag_value(d@.skip(i as int), key@),
        decreases d@.len() - i,
    {
        proof {
            assert(d@.skip(i as int)[0] == d@[i as int]);
            assert(d@.skip(i as int).drop_first() =~= d@.skip(i + 1));
        }
        if str_eq(d[i].0.as_str(), key) {
            return d[i].1;
        }
        i += 1;
    }
    0
}

impl MediaStream {
    /// Whether this is a timed video stream rather than an attached picture.
    pub fn is_regular_video(&self) -> (r: bool)
        ensures
            r == regular_video(*self),
    {
        opt_is(&self.codec_type, "video") && flag_of(&self.disposition, "attached_pic") == 0
    }

    /// The kind this stream is reported under.
    pub fn kind(&self) -> (r: String)
        ensures
            r@ == stream_kind(*self),
    {
        if opt_is(&self.codec_type, "video") && !self.is_regular_video() {
            String::from_str("cover")
        } else {
            match &self.codec_type {
                Some(t) => t.clone(),
                None => String::from_str("unknown"),
            }
        }
    }
}

/// The container-level facts ffprobe reports.
#[derive(Debug)]
pub struct MediaFormat {
    pub filename: Option<String>,
    pub format_name: Option<String>,
    pub format_long_name: Option<String>,
    pub start_time: Option<String>,
    pub duration: Option<String>,
    pub size: Option<String>,
    pub bit_rate: Option<String>,
    pub tags: Tags,
}

/// One chapter of a media file.
#[derive(Debug)]
pub struct Chapter {
    pub id: Option<i64>,
    pub time_base: Option<String>,
    pub start: Option<i64>,
    pub end: Option<i64>,
    pub start_time: Option<String>,
    pub end_time: Option<String>,
    pub tags: Tags,
}

/// An error that ffprobe reported in its output.
#[derive(Debug, Clone)]
pub struct ProbeError {
    pub code: i64,
    pub string: String,
}

/// One packet of a stream.
#[derive(Debug)]
pub struct Packet {
    pub stream_index: usize,
    pub pts_time: Option<String>,
    pub dts_time: Option<String>,
    pub duration_time: Option<String>,
    pub size: Option<String>,
    pub flags: Option<String>,
}

/// Everything a probe reports about a media file. Of each program only its tags
/// are kept, as JSON text (`None` when the program has no tags).
#[derive(Debug)]
pub struct MediaInfo {
    pub streams: Vec<MediaStream>,
    pub chapters: Vec<Chapter>,
    pub programs: Vec<Option<String>>,
    pub format: MediaFormat,
    pub pixel_formats: Vec<PixelFormat>,
}

/// The first position of a descriptor named `n`, or the length when there is none.
pub open spec fn format_position(f: Seq<PixelFormat>, n: Seq<char>) -> nat
    decreases f.len(),
{
    if f.len() == 0 {
        0
    } else if f[0].name@ == n {
        0
    } else {
        1 + format_position(f.drop_first(), n)
    }
}

proof fn lemma_format_position(f: Seq<PixelFormat>, n: Seq<char>)
    ensures
        format_position(f, n) <= f.len(),
        format_position(f, n) < f.len() ==> f[format_position(f, n) as int].name@ == n,
        forall|j: int| 0 <= j < format_position(f, n) ==> f[j].name@ != n,
    decreases f.len(),
{
    if f.len() > 0 && f[0].name@ != n {
        lemma_format_position(f.drop_first(), n);
        assert forall|j: int| 0 <= j < format_position(f, n) implies f[j].name@ != n by {
            if j > 0 {
                assert(f[j] == f.drop_first()[j - 1]);
            }
        }
    }
}

/// The descriptor of the pixel format named `n`, if the probe listed one.
pub open spec fn descriptor(f: Seq<PixelFormat>, n: Seq<char>) -> Option<PixelFormat> {
    let i = format_position(f, n);
    if i < f.len() {
        Some(f[i as int])
    } else {
        None
    }
}

/// The descriptor of the pixel format of `s`.
pub open spec fn stream_descriptor(m: MediaInfo, s: MediaStream) -> Option<PixelFormat> {
    match opt_view(s.pix_fmt) {
        Some(n) => descriptor(m.pixel_formats@, n),
        None => None,
    }
}

/// Finds the descriptor named `name`.
pub fn find_descriptor<'a>(formats: &'a Vec<PixelFormat>, name: &str) -> (r: Option<&'a PixelFormat>)
    ensures
        r matches Some(p) ==> descriptor(formats@, name@) == Some(*p),
        r is None ==> descriptor(formats@, name@) is None,
{
    proof {
        lemma_format_position(formats@, name@);
    }
    let mut i: usize = 0;
    while i < formats.len()
        invariant
            i <= formats@.len(),
            i <= format_position(formats@, name@),
            format_position(formats@, name@) <= formats@.len(),
            format_position(formats@, name@) < formats@.len() ==> formats@[format_position(formats@, name@) as int].name@ == name@,
            forall|j: int| 0 <= j < format_position(formats@, name@) ==> formats@[j].name@ != name@,
        decreases formats@.len() - i,
    {
        if str_eq(formats[i].name.as_str(), name) {
            return Some(&formats[i]);
        }
        i += 1;
    }
    None
}

impl MediaInfo {
    /// The descriptor of the pixel format of `stream`.
    pub fn pixel_format(&self, stream: &MediaStream) -> (r: Option<&PixelFormat>)
        ensures
            r matches Some(p) ==> stream_descriptor(*self, *stream) == Some(*p),
            r is None ==> stream_descriptor(*self, *stream) is None,
    {
        match &stream.pix_fmt {
            Some(n) => find_descriptor(&self.pixel_formats, n.as_str()),
            None => None,
        }
    }
}

} // verus!
