//! The client session cache, and the byte layout in which it is saved: each
//! entry is its key and then its value, each written as a two-byte
//! big-endian length followed by that many bytes.

use vstd::prelude::*;

verus! {

/// The two-byte big-endian length prefix of a payload of `n` bytes; a
/// length that does not fit in sixteen bits is cut to its low sixteen bits.
pub open spec fn length_prefix(n: nat) -> Seq<u8> {
    let m = n % 65536;
    seq![(m / 256) as u8, (m % 256) as u8]
}

/// A payload as written: its length prefix, then its bytes.
pub open spec fn encode_payload(p: Seq<u8>) -> Seq<u8> {
    length_prefix(p.len()) + p
}

/// One entry as written: its key, then its value.
pub open spec fn encode_entry(e: (Seq<u8>, Seq<u8>)) -> Seq<u8> {
    encode_payload(e.0) + encode_payload(e.1)
}

/// A list of entries as written: each entry in turn.
pub open spec fn encode_entries(es: Seq<(Seq<u8>, Seq<u8>)>) -> Seq<u8>
    decreases es.len(),
{
    if es.len() == 0 {
        Seq::empty()
    } else {
        encode_entry(es[0]) + encode_entries(es.drop_first())
    }
}

/// The length a two-byte big-endian prefix at the start of `b` announces.
pub open spec fn prefix_value(b: Seq<u8>) -> int {
    b[0] * 256 + b[1]
}

/// Reads one payload from the start of `b`: its bytes and what follows it,
/// or `None` when `b` is too short for the prefix or for the announced
/// bytes.
pub open spec fn read_payload(b: Seq<u8>) -> Option<(Seq<u8>, Seq<u8>)> {
    if b.len() < 2 {
        None
    } else if b.len() - 2 < prefix_value(b) {
        None
    } else {
        let end = 2 + prefix_value(b);
        Some((b.subrange(2, end), b.subrange(end, b.len() as int)))
    }
}

/// Reads entries until no byte is left: `None` when some key or value
/// cannot be read whole.
pub open spec fn decode_entries(b: Seq<u8>) -> Option<Seq<(Seq<u8>, Seq<u8>)>>
    decreases b.len(),
{
    if b.len() == 0 {
        Some(Seq::empty())
    } else {
        match read_payload(b) {
            None => None,
            Some((k, r1)) => match read_payload(r1) {
                None => None,
                Some((v, r2)) => match decode_entries(r2) {
                    None => None,
                    Some(rest) => Some(seq![(k, v)] + rest),
                },
            },
        }
    }
}

/// The map that inserting the entries in order into an empty map gives:
/// a later entry for a key replaces an earlier one.
pub open spec fn map_of(es: Seq<(Seq<u8>, Seq<u8>)>) -> Map<Seq<u8>, Seq<u8>>
    decreases es.len(),
{
    if es.len() == 0 {
        Map::empty()
    } else {
        map_of(es.drop_last()).insert(es.last().0, es.last().1)
    }
}

/// No key occurs twice.
pub open spec fn distinct_keys(es: Seq<(Seq<u8>, Seq<u8>)>) -> bool {
    forall|i: int, j: int| 0 <= i < j < es.len() ==> (#[trigger] es[i]).0 != (#[trigger] es[j]).0
}

/// Every key and every value is at most 65535 bytes long, so that its
/// length prefix holds its length.
pub open spec fn lengths_fit(es: Seq<(Seq<u8>, Seq<u8>)>) -> bool {
    forall|i: int| 0 <= i < es.len() ==> (#[trigger] es[i]).0.len() <= 65535 && es[i].1.len() <= 65535
}

/// Reading back what a payload of fitting length was written as gives the
/// payload and whatever followed.
pub proof fn lemma_read_encoded_payload(p: Seq<u8>, rest: Seq<u8>)
    requires
        p.len() <= 65535,
    ensures
        read_payload(encode_payload(p) + rest) == Some((p, rest)),
{
    let b = encode_payload(p) + rest;
    assert(prefix_value(b) == p.len()) by (nonlinear_arith)
        requires
            b[0] == ((p.len() % 65536) / 256) as u8,
            b[1] == ((p.len() % 65536) % 256) as u8,
            p.len() <= 65535,
    {
    }
    assert(b.subrange(2, 2 + p.len() as int) =~= p);
    assert(b.subrange(2 + p.len() as int, b.len() as int) =~= rest);
}

/// Entries written and read back are the same entries, provided every key
/// and value fits its length prefix.
pub proof fn lemma_decode_encode(es: Seq<(Seq<u8>, Seq<u8>)>)
    requires
        lengths_fit(es),
    ensures
        decode_entries(encode_entries(es)) == Some(es),
    decreases es.len(),
{
    if es.len() > 0 {
        let rest = es.drop_first();
        assert(lengths_fit(rest)) by {
            assert forall|i: int| 0 <= i < rest.len() implies (#[trigger] rest[i]).0.len() <= 65535
                && rest[i].1.len() <= 65535 by {
                assert(rest[i] == es[i + 1]);
            }
        }
        lemma_decode_encode(rest);
        let b = encode_entries(es);
        let tail = encode_payload(es[0].1) + encode_entries(rest);
        assert(es[0].0.len() <= 65535 && es[0].1.len() <= 65535);
        assert(b =~= encode_payload(es[0].0) + tail);
        lemma_read_encoded_payload(es[0].0, tail);
        lemma_read_encoded_payload(es[0].1, encode_entries(rest));
        assert(b.len() > 0);
        assert(seq![(es[0].0, es[0].1)] + rest =~= es);
    }
}

/// Writing one more entry appends that entry's bytes.
pub proof fn lemma_encode_push(es: Seq<(Seq<u8>, Seq<u8>)>, e: (Seq<u8>, Seq<u8>))
    ensures
        encode_entries(es.push(e)) == encode_entries(es) + encode_entry(e),
    decreases es.len(),
{
    if es.len() == 0 {
        let one = es.push(e);
        assert(one[0] == e);
        assert(one.drop_first() =~= Seq::<(Seq<u8>, Seq<u8>)>::empty());
        assert(encode_entries(one.drop_first()) == Seq::<u8>::empty());
        assert(encode_entries(one) =~= encode_entries(es) + encode_entry(e));
    } else {
        lemma_encode_push(es.drop_first(), e);
        assert(es.push(e).drop_first() =~= es.drop_first().push(e));
        assert(es.push(e)[0] == es[0]);
        assert(encode_entries(es.push(e)) =~= encode_entries(es) + encode_entry(e));
    }
}

/// A key is in the map of a list of entries exactly when some entry has it.
pub proof fn lemma_map_of_dom(es: Seq<(Seq<u8>, Seq<u8>)>, k: Seq<u8>)
    ensures
        map_of(es).dom().contains(k) <==> exists|i: int| 0 <= i < es.len() && (#[trigger] es[i]).0 == k,
    decreases es.len(),
{
    if es.len() > 0 {
        let d = es.drop_last();
        lemma_map_of_dom(d, k);
        if exists|i: int| 0 <= i < es.len() && (#[trigger] es[i]).0 == k {
            let i = choose|i: int| 0 <= i < es.len() && (#[trigger] es[i]).0 == k;
            if i < es.len() - 1 {
                assert(d[i] == es[i]);
            }
        }
        if exists|i: int| 0 <= i < d.len() && (#[trigger] d[i]).0 == k {
            let i = choose|i: int| 0 <= i < d.len() && (#[trigger] d[i]).0 == k;
            assert(es[i] == d[i]);
        }
    }
}

/// With distinct keys, the map holds for each entry's key that entry's
/// value.
pub proof fn lemma_map_of_value(es: Seq<(Seq<u8>, Seq<u8>)>, i: int)
    requires
        distinct_keys(es),
        0 <= i < es.len(),
    ensures
        map_of(es).dom().contains(es[i].0),
        map_of(es)[es[i].0] == es[i].1,
    decreases es.len(),
{
    let d = es.drop_last();
    if i < es.len() - 1 {
        assert(d[i] == es[i]);
        assert(distinct_keys(d));
        lemma_map_of_value(d, i);
        assert(es[i].0 != es[es.len() - 1].0);
    }
}

/// With distinct keys, replacing the value of an entry in place gives the
/// map with that key set to the new value.
pub proof fn lemma_map_of_update(es: Seq<(Seq<u8>, Seq<u8>)>, i: int, v: Seq<u8>)
    requires
        distinct_keys(es),
        0 <= i < es.len(),
    ensures
        map_of(es.update(i, (es[i].0, v))) == map_of(es).insert(es[i].0, v),
    decreases es.len(),
{
    let k = es[i].0;
    let u = es.update(i, (k, v));
    let d = es.drop_last();
    if i == es.len() - 1 {
        assert(u.drop_last() =~= d);
        assert(map_of(u) =~= map_of(es).insert(k, v));
    } else {
        assert(u.drop_last() =~= d.update(i, (k, v)));
        assert(d[i] == es[i]);
        assert(distinct_keys(d));
        lemma_map_of_update(d, i, v);
        assert(es[i].0 != es[es.len() - 1].0);
        assert(map_of(u) =~= map_of(es).insert(k, v));
    }
}

/// Entries held in executable form, seen as byte sequences.
pub open spec fn view_entries(es: Seq<(Vec<u8>, Vec<u8>)>) -> Seq<(Seq<u8>, Seq<u8>)> {
    es.map_values(|e: (Vec<u8>, Vec<u8>)| (e.0@, e.1@))
}

/// Whether two byte strings are equal.
fn bytes_eq(a: &[u8], b: &[u8]) -> (r: bool)
    ensures
        r == (a@ == b@),
{
    if a.len() != b.len() {
        return false;
    }
    let mut i: usize = 0;
    while i < a.len()
        invariant
            i <= a.len(),
            a.len() == b.len(),
            forall|j: int| 0 <= j < i ==> a@[j] == b@[j],
        decreases a.len() - i,
    {
        if a[i] != b[i] {
            return false;
        }
        i = i + 1;
    }
    assert(a@ =~= b@);
    true
}

/// A copy of the bytes of `data` from `from` up to, not including, `to`.
fn copy_range(data: &[u8], from: usize, to: usize) -> (r: Vec<u8>)
    requires
        from <= to <= data.len(),
    ensures
        r@ == data@.subrange(from as int, to as int),
{
    let mut r: Vec<u8> = Vec::new();
    let mut i: usize = from;
    while i < to
        invariant
            from <= i <= to,
            to <= data.len(),
            r@ == data@.subrange(from as int, i as int),
        decreases to - i,
    {
        r.push(data[i]);
        i = i + 1;
        assert(r@ =~= data@.subrange(from as int, i as int));
    }
    r
}

/// Appends a payload as written: its length prefix, then its bytes.
fn push_payload(out: &mut Vec<u8>, p: &[u8])
    ensures
        final(out)@ == old(out)@ + encode_payload(p@),
{
    let m: usize = p.len() % 65536;
    out.push((m / 256) as u8);
    out.push((m % 256) as u8);
    let ghost start = out@;
    let mut i: usize = 0;
    while i < p.len()
        invariant
            i <= p.len(),
            out@ == start + p@.subrange(0, i as int),
        decreases p.len() - i,
    {
        out.push(p[i]);
        i = i + 1;
        assert(out@ =~= start + p@.subrange(0, i as int));
    }
    assert(p@.subrange(0, i as int) =~= p@);
    assert(out@ =~= old(out)@ + encode_payload(p@));
}

/// The bytes that the entries are written as.
pub fn encode_all(entries: &Vec<(Vec<u8>, Vec<u8>)>) -> (r: Vec<u8>)
    ensures
        r@ == encode_entries(view_entries(entries@)),
{
    let mut out: Vec<u8> = Vec::new();
    let mut i: usize = 0;
    while i < entries.len()
        invariant
            i <= entries.len(),
            out@ == encode_entries(view_entries(entries@).take(i as int)),
        decreases entries.len() - i,
    {
        let ghost es = view_entries(entries@);
        proof {
            lemma_encode_push(es.take(i as int), es[i as int]);
            assert(es.take(i as int).push(es[i as int]) =~= es.take(i + 1));
        }
        push_payload(&mut out, entries[i].0.as_slice());
        push_payload(&mut out, entries[i].1.as_slice());
        i = i + 1;
    }
    assert(view_entries(entries@).take(i as int) =~= view_entries(entries@));
    out
}

/// `acc` followed by the entries still to read, or `None` when those cannot
/// be read.
pub open spec fn after(acc: Seq<(Seq<u8>, Seq<u8>)>, rest: Option<Seq<(Seq<u8>, Seq<u8>)>>) -> Option<Seq<(Seq<u8>, Seq<u8>)>> {
    match rest {
        Some(r) => Some(acc + r),
        None => None,
    }
}

/// Reads the entries that `data` holds: `None` when some key or value
/// cannot be read whole, which is where reading a saved cache fails.
pub fn decode_all(data: &[u8]) -> (r: Option<Vec<(Vec<u8>, Vec<u8>)>>)
    ensures
        match r {
            Some(es) => decode_entries(data@) == Some(view_entries(es@)),
            None => decode_entries(data@) is None,
        },
{
    let len = data.len();
    let mut acc: Vec<(Vec<u8>, Vec<u8>)> = Vec::new();
    let mut off: usize = 0;
    assert(data@.subrange(0, len as int) =~= data@);
    while off < len
        invariant
            off <= len,
            len == data.len(),
            decode_entries(data@) == after(view_entries(acc@), decode_entries(data@.subrange(off as int, len as int))),
        decreases len - off,
    {
        let ghost s = data@.subrange(off as int, len as int);
        assert(s.len() > 0);
        if len - off < 2 {
            return None;
        }
        let kl: usize = data[off] as usize * 256 + data[off + 1] as usize;
        assert(prefix_value(s) == kl);
        if len - off - 2 < kl {
            return None;
        }
        let ks = off + 2;
        let ke = ks + kl;
        let ghost r1 = s.subrange(2 + kl as int, s.len() as int);
        assert(r1 =~= data@.subrange(ke as int, len as int));
        assert(s.subrange(2, 2 + kl as int) =~= data@.subrange(ks as int, ke as int));
        if len - ke < 2 {
            assert(read_payload(r1) is None);
            return None;
        }
        let vl: usize = data[ke] as usize * 256 + data[ke + 1] as usize;
        assert(prefix_value(r1) == vl);
        if len - ke - 2 < vl {
            return None;
        }
        let vs = ke + 2;
        let ve = vs + vl;
        let ghost r2 = r1.subrange(2 + vl as int, r1.len() as int);
        assert(r2 =~= data@.subrange(ve as int, len as int));
        assert(r1.subrange(2, 2 + vl as int) =~= data@.subrange(vs as int, ve as int));
        let key = copy_range(data, ks, ke);
        let value = copy_range(data, vs, ve);
        let ghost before = view_entries(acc@);
        acc.push((key, value));
        assert(view_entries(acc@) =~= before.push((key@, value@)));
        proof {
            match decode_entries(r2) {
                Some(rest) => {
                    assert(before + (seq![(key@, value@)] + rest) =~= before.push((key@, value@)) + rest);
                },
                None => {},
            }
        }
        off = ve;
    }
    assert(data@.subrange(off as int, len as int) =~= Seq::<u8>::empty());
    assert(view_entries(acc@) + Seq::<(Seq<u8>, Seq<u8>)>::empty() =~= view_entries(acc@));
    Some(acc)
}

/// The client session cache: session data by key, and the file it is
/// saved to, if any.
pub struct PersistCache {
    entries: Vec<(Vec<u8>, Vec<u8>)>,
    filename: Option<String>,
}

impl PersistCache {
    /// No key is held twice.
    #[verifier::type_invariant]
    spec fn keys_distinct(self) -> bool {
        distinct_keys(view_entries(self.entries@))
    }

    /// The entries in the order they are held and saved.
    pub closed spec fn entries(self) -> Seq<(Seq<u8>, Seq<u8>)> {
        view_entries(self.entries@)
    }

    /// The file the cache is saved to, if any.
    pub closed spec fn file(self) -> Option<Seq<char>> {
        match self.filename {
            Some(f) => Some(f@),
            None => None,
        }
    }
}

impl View for PersistCache {
    type V = Map<Seq<u8>, Seq<u8>>;

    open spec fn view(&self) -> Map<Seq<u8>, Seq<u8>> {
        map_of(self.entries())
    }
}

impl PersistCache {
    /// An empty cache that is saved to `filename`, if given. (The caller
    /// loads the file's contents with `load`.)
    pub fn new(filename: &Option<String>) -> (c: PersistCache)
        ensures
            c.entries() == Seq::<(Seq<u8>, Seq<u8>)>::empty(),
            c@ == Map::<Seq<u8>, Seq<u8>>::empty(),
            c.file() == (match filename {
                Some(f) => Some(f@),
                None => None::<Seq<char>>,
            }),
    {
        let filename = match filename {
            Some(f) => Some(f.clone()),
            None => None,
        };
        let c = PersistCache { entries: Vec::new(), filename };
        assert(c.entries() =~= Seq::<(Seq<u8>, Seq<u8>)>::empty());
        c
    }

    /// The file the cache is saved to, if any.
    pub fn filename(&self) -> (f: &Option<String>)
        ensures
            self.file() == (match f {
                Some(f) => Some(f@),
                None => None::<Seq<char>>,
            }),
    {
        &self.filename
    }

    /// Where `key` is held, if it is.
    fn position(&self, key: &[u8]) -> (r: Option<usize>)
        ensures
            match r {
                Some(i) => i < self.entries().len() && self.entries()[i as int].0 == key@,
                None => !self@.dom().contains(key@),
            },
    {
        let mut i: usize = 0;
        while i < self.entries.len()
            invariant
                i <= self.entries.len(),
                forall|j: int| 0 <= j < i ==> (#[trigger] self.entries()[j]).0 != key@,
            decreases self.entries.len() - i,
        {
            if bytes_eq(self.entries[i].0.as_slice(), key) {
                return Some(i);
            }
            i = i + 1;
        }
        proof {
            lemma_map_of_dom(self.entries(), key@);
        }
        None
    }

    /// Stores `value` under `key`, replacing what was there; always
    /// reports success. (The caller then saves the cache.)
    pub fn put(&mut self, key: Vec<u8>, value: Vec<u8>) -> (r: bool)
        ensures
            r,
            final(self)@ == old(self)@.insert(key@, value@),
            final(self).file() == old(self).file(),
    {
        proof {
            use_type_invariant(&*self);
        }
        match self.position(key.as_slice()) {
            Some(i) => {
                let ghost es = self.entries();
                proof {
                    lemma_map_of_update(es, i as int, value@);
                }
                let mut entries: Vec<(Vec<u8>, Vec<u8>)> = Vec::new();
                std::mem::swap(&mut entries, &mut self.entries);
                entries.set(i, (key, value));
                let ghost ne = view_entries(entries@);
                assert(ne =~= es.update(i as int, (es[i as int].0, value@)));
                assert forall|a: int, b: int| 0 <= a < b < ne.len() implies (#[trigger] ne[a]).0 != (
                #[trigger] ne[b]).0 by {
                    assert(ne[a].0 == es[a].0);
                    assert(ne[b].0 == es[b].0);
                }
                self.entries = entries;
                assert(self.entries() =~= es.update(i as int, (es[i as int].0, es[i as int].1)).update(
                    i as int,
                    (es[i as int].0, value@),
                ));
                assert(self.entries() =~= es.update(i as int, (es[i as int].0, value@)));
            },
            None => {
                let ghost es = self.entries();
                proof {
                    lemma_map_of_dom(es, key@);
                }
                let mut entries: Vec<(Vec<u8>, Vec<u8>)> = Vec::new();
                std::mem::swap(&mut entries, &mut self.entries);
                entries.push((key, value));
                let ghost ne = view_entries(entries@);
                assert(ne =~= es.push((key@, value@)));
                assert forall|a: int, b: int| 0 <= a < b < ne.len() implies (#[trigger] ne[a]).0 != (
                #[trigger] ne[b]).0 by {
                    if b == es.len() {
                        assert(ne[a] == es[a]);
                    } else {
                        assert(ne[a] == es[a]);
                        assert(ne[b] == es[b]);
                    }
                }
                self.entries = entries;
                assert(self.entries() =~= es.push((key@, value@)));
                assert(self.entries().drop_last() =~= es);
            },
        }
        true
    }

    /// A copy of the data held under `key`, or `None` when nothing is.
    pub fn get(&self, key: &[u8]) -> (r: Option<Vec<u8>>)
        ensures
            match r {
                Some(v) => self@.dom().contains(key@) && v@ == self@[key@],
                None => !self@.dom().contains(key@),
            },
    {
        proof {
            use_type_invariant(self);
        }
        match self.position(key) {
            Some(i) => {
                proof {
                    lemma_map_of_value(self.entries(), i as int);
                }
                let v = &self.entries[i].1;
                Some(copy_range(v.as_slice(), 0, v.len()))
            },
            None => None,
        }
    }

    /// The bytes to write to the cache's file, or `None` when the cache has
    /// no file.
    pub fn save(&self) -> (r: Option<Vec<u8>>)
        ensures
            r is Some <==> self.file() is Some,
            r matches Some(b) ==> b@ == encode_entries(self.entries()),
            distinct_keys(self.entries()),
            map_of(self.entries()) == self@,
    {
        proof {
            use_type_invariant(self);
        }
        if self.filename.is_none() {
            return None;
        }
        Some(encode_all(&self.entries))
    }

    /// Replaces the cache's contents with the entries read from `data`,
    /// inserted in order. `data` must be read whole (a file that ends inside
    /// an entry is refused; `decode_all` tells).
    pub fn load(&mut self, data: &[u8])
        requires
            decode_entries(data@) is Some,
        ensures
            final(self)@ == map_of(decode_entries(data@)->0),
            final(self).file() == old(self).file(),
    {
        match decode_all(data) {
            None => {},
            Some(items) => {
                let ghost es = view_entries(items@);
                self.entries = Vec::new();
                assert(self.entries() =~= Seq::<(Seq<u8>, Seq<u8>)>::empty());
                let n = items.len();
                let mut i: usize = 0;
                while i < n
                    invariant
                        i <= n,
                        n == items.len(),
                        es == view_entries(items@),
                        self@ == map_of(es.take(i as int)),
                        self.file() == old(self).file(),
                    decreases n - i,
                {
                    let key = copy_range(items[i].0.as_slice(), 0, items[i].0.len());
                    let value = copy_range(items[i].1.as_slice(), 0, items[i].1.len());
                    assert(key@ =~= es[i as int].0);
                    assert(value@ =~= es[i as int].1);
                    self.put(key, value);
                    assert(es.take(i + 1).drop_last() =~= es.take(i as int));
                    assert(es.take(i + 1).last() == es[i as int]);
                    i = i + 1;
                }
                assert(es.take(n as int) =~= es);
            },
        }
    }
}

/// With distinct keys, the entries are those of the map, each once: every
/// entry is a key of the map with its value, and every key of the map is
/// the key of an entry.
pub proof fn lemma_entries_of_map(es: Seq<(Seq<u8>, Seq<u8>)>)
    requires
        distinct_keys(es),
    ensures
        forall|i: int|
            0 <= i < es.len() ==> map_of(es).dom().contains((#[trigger] es[i]).0) && map_of(es)[es[i].0]
                == es[i].1,
        forall|k: Seq<u8>|
            map_of(es).dom().contains(k) ==> exists|i: int| 0 <= i < es.len() && (#[trigger] es[i]).0 == k,
{
    assert forall|i: int| 0 <= i < es.len() implies map_of(es).dom().contains((#[trigger] es[i]).0)
        && map_of(es)[es[i].0] == es[i].1 by {
        lemma_map_of_value(es, i);
    }
    assert forall|k: Seq<u8>| map_of(es).dom().contains(k) implies exists|i: int|
        0 <= i < es.len() && (#[trigger] es[i]).0 == k by {
        lemma_map_of_dom(es, k);
    }
}

/// Saving a cache and loading what was saved restores its contents,
/// provided no key or value it holds is longer than a two-byte length
/// prefix can tell: the entries written (each key once) read back as the
/// same entries, and so as the same map.
pub proof fn lemma_save_load_roundtrip(es: Seq<(Seq<u8>, Seq<u8>)>)
    requires
        distinct_keys(es),
        forall|k: Seq<u8>|
            #[trigger] map_of(es).dom().contains(k) ==> k.len() <= 65535 && map_of(es)[k].len() <= 65535,
    ensures
        decode_entries(encode_entries(es)) == Some(es),
        map_of(decode_entries(encode_entries(es))->0) == map_of(es),
{
    lemma_entries_of_map(es);
    assert(lengths_fit(es)) by {
        assert forall|i: int| 0 <= i < es.len() implies (#[trigger] es[i]).0.len() <= 65535 && es[i].1.len()
            <= 65535 by {
            assert(map_of(es).dom().contains(es[i].0));
        }
    }
    lemma_decode_encode(es);
}

} // verus!
