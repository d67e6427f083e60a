//! Character-sequence ordering and comparison helpers. The dedup store
//! serializes its list in a canonical order over the identity fields, so the
//! lexicographic order on strings is spelled out here together with the
//! facts (totality, transitivity) that sorting needs.

use vstd::prelude::*;

use crate::media::{opt_view, TrackerData, WdrMedia};

verus! {

/// Lexicographic order on character sequences: the empty sequence comes
/// first, otherwise the first differing character decides.
pub open spec fn seq_le(a: Seq<char>, b: Seq<char>) -> bool
    decreases a.len(),
{
    if a.len() == 0 {
        true
    } else if b.len() == 0 {
        false
    } else if a[0] < b[0] {
        true
    } else if b[0] < a[0] {
        false
    } else {
        seq_le(a.skip(1), b.skip(1))
    }
}

/// Any two character sequences are comparable.
pub proof fn lemma_seq_le_total(a: Seq<char>, b: Seq<char>)
    ensures
        seq_le(a, b) || seq_le(b, a),
    decreases a.len(),
{
    if a.len() != 0 && b.len() != 0 && a[0] == b[0] {
        lemma_seq_le_total(a.skip(1), b.skip(1));
    }
}

/// Two sequences below each other are equal.
pub proof fn lemma_seq_le_antisym(a: Seq<char>, b: Seq<char>)
    requires
        seq_le(a, b),
        seq_le(b, a),
    ensures
        a == b,
    decreases a.len(),
{
    if a.len() == 0 {
        assert(a =~= b);
    } else {
        lemma_seq_le_antisym(a.skip(1), b.skip(1));
        assert forall|i: int| 0 <= i < a.len() implies a[i] == b[i] by {
            if i > 0 {
                assert(a.skip(1)[i - 1] == a[i]);
                assert(b.skip(1)[i - 1] == b[i]);
            }
        }
        assert(a =~= b);
    }
}

/// The lexicographic order is transitive.
pub proof fn lemma_seq_le_trans(a: Seq<char>, b: Seq<char>, c: Seq<char>)
    requires
        seq_le(a, b),
        seq_le(b, c),
    ensures
        seq_le(a, c),
    decreases a.len(),
{
    if a.len() != 0 && !(a[0] < c[0]) {
        lemma_seq_le_trans(a.skip(1), b.skip(1), c.skip(1));
    }
}

/// Order on optional strings: absent sorts before present.
pub open spec fn opt_seq_le(a: Option<Seq<char>>, b: Option<Seq<char>>) -> bool {
    match (a, b) {
        (Option::None, _) => true,
        (Option::Some(_), Option::None) => false,
        (Option::Some(x), Option::Some(y)) => seq_le(x, y),
    }
}

pub proof fn lemma_opt_seq_le_total(a: Option<Seq<char>>, b: Option<Seq<char>>)
    ensures
        opt_seq_le(a, b) || opt_seq_le(b, a),
{
    if let (Option::Some(x), Option::Some(y)) = (a, b) {
        lemma_seq_le_total(x, y);
    }
}

pub proof fn lemma_opt_seq_le_antisym(a: Option<Seq<char>>, b: Option<Seq<char>>)
    requires
        opt_seq_le(a, b),
        opt_seq_le(b, a),
    ensures
        a == b,
{
    if let (Option::Some(x), Option::Some(y)) = (a, b) {
        lemma_seq_le_antisym(x, y);
    }
}

pub proof fn lemma_opt_seq_le_trans(a: Option<Seq<char>>, b: Option<Seq<char>>, c: Option<
    Seq<char>,
>)
    requires
        opt_seq_le(a, b),
        opt_seq_le(b, c),
    ensures
        opt_seq_le(a, c),
{
    if let (Option::Some(x), Option::Some(y)) = (a, b) {
        if let Option::Some(z) = c {
            lemma_seq_le_trans(x, y, z);
        }
    }
}

/// Canonical order on identities: by source id, then air time, then title.
pub open spec fn id_le(a: TrackerData, b: TrackerData) -> bool {
    if a.id@ != b.id@ {
        seq_le(a.id@, b.id@)
    } else if opt_view(a.air_time) != opt_view(b.air_time) {
        opt_seq_le(opt_view(a.air_time), opt_view(b.air_time))
    } else {
        seq_le(a.title@, b.title@)
    }
}

/// Canonical order on items: items order by their identity triple.
pub open spec fn media_le(a: WdrMedia, b: WdrMedia) -> bool {
    id_le(a.tracker_data, b.tracker_data)
}

pub proof fn lemma_id_le_total(a: TrackerData, b: TrackerData)
    ensures
        id_le(a, b) || id_le(b, a),
{
    lemma_seq_le_total(a.id@, b.id@);
    lemma_opt_seq_le_total(opt_view(a.air_time), opt_view(b.air_time));
    lemma_seq_le_total(a.title@, b.title@);
}

pub proof fn lemma_id_le_trans(a: TrackerData, b: TrackerData, c: TrackerData)
    requires
        id_le(a, b),
        id_le(b, c),
    ensures
        id_le(a, c),
{
    if a.id@ == b.id@ && b.id@ == c.id@ {
        let aa = opt_view(a.air_time);
        let ba = opt_view(b.air_time);
        let ca = opt_view(c.air_time);
        if aa == ba && ba == ca {
            lemma_seq_le_trans(a.title@, b.title@, c.title@);
        } else if aa != ba && ba != ca {
            lemma_opt_seq_le_trans(aa, ba, ca);
            if aa == ca {
                lemma_opt_seq_le_antisym(aa, ba);
            }
        }
    } else if a.id@ != b.id@ && b.id@ != c.id@ {
        lemma_seq_le_trans(a.id@, b.id@, c.id@);
        if a.id@ == c.id@ {
            lemma_seq_le_antisym(a.id@, b.id@);
        }
    }
}

pub proof fn lemma_media_le_total(a: WdrMedia, b: WdrMedia)
    ensures
        media_le(a, b) || media_le(b, a),
{
    lemma_id_le_total(a.tracker_data, b.tracker_data);
}

pub proof fn lemma_media_le_trans(a: WdrMedia, b: WdrMedia, c: WdrMedia)
    requires
        media_le(a, b),
        media_le(b, c),
    ensures
        media_le(a, c),
{
    lemma_id_le_trans(a.tracker_data, b.tracker_data, c.tracker_data);
}

/// Lexicographic comparison of two strings, character by character.
pub fn str_le(a: &str, b: &str) -> (r: bool)
    ensures
        r == seq_le(a@, b@),
{
    let alen = a.unicode_len();
    let blen = b.unicode_len();
    let mut i: usize = 0;
    proof {
        assert(a@.skip(0) =~= a@);
        assert(b@.skip(0) =~= b@);
    }
    loop
        invariant
            i <= alen,
            i <= blen,
            alen == a@.len(),
            blen == b@.len(),
            seq_le(a@, b@) == seq_le(a@.skip(i as int), b@.skip(i as int)),
        decreases alen - i,
    {
        if i >= alen {
            return true;
        }
        if i >= blen {
            return false;
        }
        let ca = a.get_char(i);
        let cb = b.get_char(i);
        if ca != cb {
            return ca < cb;
        }
        proof {
            assert(a@.skip(i as int).skip(1) =~= a@.skip(i + 1));
            assert(b@.skip(i as int).skip(1) =~= b@.skip(i + 1));
        }
        i += 1;
    }
}

/// Whether `s` ends with `suffix`, over the character sequences.
pub open spec fn spec_ends_with(s: Seq<char>, suffix: Seq<char>) -> bool {
    suffix.len() <= s.len() && s.skip(s.len() - suffix.len()) == suffix
}

pub fn str_ends_with(s: &str, suffix: &str) -> (r: bool)
    ensures
        r == spec_ends_with(s@, suffix@),
{
    let slen = s.unicode_len();
    let flen = suffix.unicode_len();
    if flen > slen {
        return false;
    }
    let base = slen - flen;
    let mut j: usize = 0;
    while j < flen
        invariant
            j <= flen,
            base == slen - flen,
            flen <= slen,
            slen == s@.len(),
            flen == suffix@.len(),
            forall|k: int| 0 <= k < j ==> s@[base + k] == suffix@[k],
        decreases flen - j,
    {
        if s.get_char(base + j) != suffix.get_char(j) {
            return false;
        }
        j += 1;
    }
    proof {
        assert(s@.skip(base as int) =~= suffix@);
    }
    true
}

/// Canonical comparison of two identities.
pub fn tracker_le(a: &TrackerData, b: &TrackerData) -> (r: bool)
    ensures
        r == id_le(*a, *b),
{
    if !(a.id == b.id) {
        return str_le(a.id.as_str(), b.id.as_str());
    }
    let air_eq = match (&a.air_time, &b.air_time) {
        (Option::None, Option::None) => true,
        (Option::Some(x), Option::Some(y)) => *x == *y,
        _ => false,
    };
    if !air_eq {
        match (&a.air_time, &b.air_time) {
            (Option::None, _) => true,
            (Option::Some(_), Option::None) => false,
            (Option::Some(x), Option::Some(y)) => str_le(x.as_str(), y.as_str()),
        }
    } else {
        str_le(a.title.as_str(), b.title.as_str())
    }
}

/// Canonical comparison of two items.
pub fn media_cmp_le(a: &WdrMedia, b: &WdrMedia) -> (r: bool)
    ensures
        r == media_le(*a, *b),
{
    tracker_le(&a.tracker_data, &b.tracker_data)
}

} // verus!
